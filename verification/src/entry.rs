//! The greeting that the bare entry point puts in the middle of the VGA text
//! buffer.

use vstd::prelude::*;

verus! {

/// Start of the VGA text buffer.
pub const VGA_BUFFER: usize = 0xb8000;

/// Byte offset of the greeting from the start of the buffer: the centre of the screen.
pub const HELLO_OFFSET: usize = 1988;

/// Attribute byte of the greeting: white on blue.
pub const HELLO_COLOR: u8 = 0x1f;

/// The greeting's characters.
pub open spec fn hello_text() -> Seq<u8> {
    seq![72u8, 101u8, 108u8, 108u8, 111u8, 32u8, 87u8, 111u8, 114u8, 108u8, 100u8, 33u8]
}

/// Text as VGA cells: each character of `text` followed by the attribute byte `color`.
pub open spec fn colored(text: Seq<u8>, color: u8) -> Seq<u8> {
    Seq::new(2 * text.len(), |k: int| if k % 2 == 0 { text[k / 2] } else { color })
}

/// Where in memory the greeting goes.
pub fn hello_address() -> (a: usize)
    ensures
        a == VGA_BUFFER + HELLO_OFFSET,
{
    VGA_BUFFER + HELLO_OFFSET
}

/// "Hello World!" as VGA cells: each character followed by its attribute byte.
pub fn hello_colored() -> (cells: [u8; 24])
    ensures
        cells@ == colored(hello_text(), HELLO_COLOR),
{
    // "Hello World!"
    let hello: [u8; 12] = [72, 101, 108, 108, 111, 32, 87, 111, 114, 108, 100, 33];
    assert(hello@ =~= hello_text());
    let mut cells: [u8; 24] = [HELLO_COLOR; 24];
    let mut i: usize = 0;
    while i < 12
        invariant
            i <= 12,
            hello@ == hello_text(),
            cells@.len() == 24,
            forall|k: int|
                0 <= k < 24 ==> cells@[k] == if k % 2 == 0 && k / 2 < i {
                    hello_text()[k / 2]
                } else {
                    HELLO_COLOR
                },
        decreases 12 - i,
    {
        cells[i * 2] = hello[i];
        i = i + 1;
    }
    assert(cells@ =~= colored(hello_text(), HELLO_COLOR));
    cells
}

/// In the cells, character `i` of the text sits at cell `2 * i` and its
/// attribute byte right after it; there are two cells per character.
pub proof fn lemma_colored_cells(text: Seq<u8>, color: u8, i: int)
    requires
        0 <= i < text.len(),
    ensures
        colored(text, color).len() == 2 * text.len(),
        colored(text, color)[2 * i] == text[i],
        colored(text, color)[2 * i + 1] == color,
{
    assert((2 * i) % 2 == 0 && (2 * i) / 2 == i);
    assert((2 * i + 1) % 2 == 1);
}

} // verus!
