//! Interrupt vector numbers of the two chained 8259 PICs.

use vstd::prelude::*;

verus! {

/// First vector of the primary PIC; vectors 0..32 belong to CPU exceptions.
pub const PIC_1_OFFSET: u8 = 32;

/// First vector of the secondary PIC, right after the eight lines of the primary.
pub const PIC_2_OFFSET: u8 = PIC_1_OFFSET + 8;

/// Hardware interrupts that the kernel handles, by their place on the PICs.
#[derive(Debug, Clone, Copy, PartialEq, Eq, Structural)]
pub enum InterruptIndex {
    Timer,
}

impl InterruptIndex {
    /// The vector number that the interrupt arrives on.
    pub open spec fn vector(self) -> u8 {
        match self {
            InterruptIndex::Timer => PIC_1_OFFSET,
        }
    }

    pub fn as_u8(self) -> (v: u8)
        ensures
            v == self.vector(),
    {
        match self {
            InterruptIndex::Timer => PIC_1_OFFSET,
        }
    }

    pub fn as_usize(self) -> (v: usize)
        ensures
            v == self.vector() as usize,
    {
        self.as_u8() as usize
    }
}

} // verus!
