//! The 16550 UART driver: its register layout, its initialisation program and
//! the decisions of its transmit and receive loops.
//!
//! Port I/O itself happens outside: each operation here takes the byte that
//! was read from the line-status register and answers with the port access to
//! perform next.

use vstd::prelude::*;
use vstd::string::StringSliceAdditionalSpecFns;

verus! {

/// Base I/O port of the first serial port.
pub const COM1: u16 = 0x3F8;

/// Bit of the line-status register: a received byte is waiting.
pub const INPUT_FULL_BIT: u8 = 1;

/// Bit of the line-status register (bit 5): the transmit holding register is empty.
pub const OUTPUT_EMPTY_BIT: u8 = 0x20;

/// The bits of the line-status register that the driver knows about: both of the above.
pub const KNOWN_LINE_BITS: u8 = 0x21;

/// The ways a non-blocking port operation can fail.
#[derive(Debug, Clone, Copy, PartialEq, Eq, Structural)]
pub enum Uart16550Error {
    /// The device is not ready; the operation would have to wait.
    WouldBlockError,
}

/// An 8-bit write to an I/O port.
#[derive(Debug, Clone, Copy, PartialEq, Eq, Structural)]
pub struct PortWrite {
    pub port: u16,
    pub value: u8,
}

/// An 8-bit read from an I/O port.
#[derive(Debug, Clone, Copy, PartialEq, Eq, Structural)]
pub struct PortRead {
    pub port: u16,
}

/// The line-status register says that the transmitter can take a byte.
pub open spec fn output_empty(status: u8) -> bool {
    status & 0x20 != 0
}

/// The line-status register says that a received byte is waiting.
pub open spec fn input_full(status: u8) -> bool {
    status & 1 != 0
}

/// Truncating to the known bits keeps both flags as they were.
proof fn lemma_known_bits(status: u8)
    ensures
        ((status & KNOWN_LINE_BITS) & OUTPUT_EMPTY_BIT == OUTPUT_EMPTY_BIT) == output_empty(status),
        ((status & KNOWN_LINE_BITS) & INPUT_FULL_BIT == INPUT_FULL_BIT) == input_full(status),
{
    assert(((status & 0x21u8) & 0x20u8 == 0x20u8) == (status & 0x20u8 != 0u8)) by (bit_vector);
    assert(((status & 0x21u8) & 1u8 == 1u8) == (status & 1u8 != 0u8)) by (bit_vector);
}

/// A set of line-status flags, restricted to the bits the driver knows.
#[derive(Debug, Clone, Copy, PartialEq, Eq, Structural)]
pub struct LineStsFlags {
    bits: u8,
}

impl View for LineStsFlags {
    type V = u8;

    closed spec fn view(&self) -> u8 {
        self.bits
    }
}

impl LineStsFlags {
    /// The flag set holding only `INPUT_FULL`.
    pub fn input_full() -> (f: Self)
        ensures
            f@ == INPUT_FULL_BIT,
    {
        LineStsFlags { bits: INPUT_FULL_BIT }
    }

    /// The flag set holding only `OUTPUT_EMPTY`.
    pub fn output_empty() -> (f: Self)
        ensures
            f@ == OUTPUT_EMPTY_BIT,
    {
        LineStsFlags { bits: OUTPUT_EMPTY_BIT }
    }

    /// The flags of a raw register value, with the unknown bits dropped.
    pub fn from_bits_truncate(bits: u8) -> (f: Self)
        ensures
            f@ == bits & KNOWN_LINE_BITS,
    {
        LineStsFlags { bits: bits & KNOWN_LINE_BITS }
    }

    /// The raw bits of the set.
    pub fn bits(&self) -> (b: u8)
        ensures
            b == self@,
    {
        self.bits
    }

    /// Every flag of `other` is in `self`.
    pub fn contains(&self, other: Self) -> (b: bool)
        ensures
            b == (self@ & other@ == other@),
    {
        self.bits & other.bits == other.bits
    }
}

/// A 16550 UART, known by the first of its eight I/O ports.
pub struct Uart16550 {
    base_addr: u16,
}

impl View for Uart16550 {
    type V = u16;

    closed spec fn view(&self) -> u16 {
        self.base_addr
    }
}

/// The register writes that bring the UART up, in order: interrupts off,
/// divisor 3 (38400 baud), 8N1 framing, FIFOs on with a 14-byte threshold,
/// IRQs with RTS/DSR, and receive interrupts on.
pub open spec fn init_program(base: u16) -> Seq<PortWrite> {
    seq![
        PortWrite { port: (base + 1) as u16, value: 0x00 },
        PortWrite { port: (base + 3) as u16, value: 0x80 },
        PortWrite { port: base, value: 0x03 },
        PortWrite { port: (base + 1) as u16, value: 0x00 },
        PortWrite { port: (base + 3) as u16, value: 0x03 },
        PortWrite { port: (base + 2) as u16, value: 0xC7 },
        PortWrite { port: (base + 4) as u16, value: 0x0B },
        PortWrite { port: (base + 1) as u16, value: 0x01 },
    ]
}

/// The bytes that go on the wire for one byte handed to `send`: a backspace
/// or a delete erases the last character (back, blank, back).
pub open spec fn expand(byte: u8) -> Seq<u8> {
    if byte == 8 || byte == 0x7F {
        seq![8u8, 0x20u8, 8u8]
    } else {
        seq![byte]
    }
}

/// The bytes that go on the wire for a whole byte string.
pub open spec fn expand_all(s: Seq<u8>) -> Seq<u8>
    decreases s.len(),
{
    if s.len() == 0 {
        Seq::empty()
    } else {
        expand_all(s.drop_last()) + expand(s.last())
    }
}

/// What one poll of the transmit loop does.
#[derive(Debug, Clone, Copy, PartialEq, Eq, Structural)]
pub enum SendStep {
    /// Write this byte to the data port; it is on its way.
    Write(PortWrite),
    /// The transmitter is busy: spin, read the line status again and retry.
    Wait,
    /// Every byte of the transmission has been written.
    Done,
}

/// One poll of the transmit loop, from the number of bytes already written and
/// the line status just read: the new count and the step to take.
pub open spec fn send_step(port: u16, bytes: Seq<u8>, sent: nat, status: u8) -> (nat, SendStep) {
    if sent >= bytes.len() {
        (sent, SendStep::Done)
    } else if output_empty(status) {
        ((sent + 1) as nat, SendStep::Write(PortWrite { port, value: bytes[sent as int] }))
    } else {
        (sent, SendStep::Wait)
    }
}

/// A transmission in progress: the bytes to put on the wire and how many of
/// them have been written.
pub struct Transmit {
    bytes: Vec<u8>,
    sent: usize,
}

impl Transmit {
    #[verifier::type_invariant]
    spec fn count_in_range(&self) -> bool {
        self.sent <= self.bytes.len()
    }

    /// All the bytes of the transmission.
    pub closed spec fn bytes(&self) -> Seq<u8> {
        self.bytes@
    }

    /// How many of them have been written.
    pub closed spec fn sent(&self) -> nat {
        self.sent as nat
    }

    fn starting(bytes: Vec<u8>) -> (t: Self)
        ensures
            t.bytes() == bytes@,
            t.sent() == 0,
    {
        Transmit { bytes, sent: 0 }
    }

    /// Every byte has been written.
    pub fn is_done(&self) -> (b: bool)
        ensures
            b == (self.sent() == self.bytes().len()),
    {
        proof {
            use_type_invariant(self);
        }
        self.sent == self.bytes.len()
    }
}

impl Uart16550 {
    /// A UART whose registers start at `base_addr`.
    pub fn new(base_addr: u16) -> (u: Self)
        ensures
            u@ == base_addr,
    {
        Uart16550 { base_addr }
    }

    /// Data register (read and write).
    pub fn port_data(&self) -> (p: u16)
        ensures
            p == self@,
    {
        self.base_addr
    }

    /// Interrupt-enable register (write).
    pub fn port_interrupt_enable(&self) -> (p: u16)
        requires
            self@ + 1 <= u16::MAX,
        ensures
            p == self@ + 1,
    {
        self.base_addr + 1
    }

    /// FIFO-control register (write).
    pub fn port_fifo_control(&self) -> (p: u16)
        requires
            self@ + 2 <= u16::MAX,
        ensures
            p == self@ + 2,
    {
        self.base_addr + 2
    }

    /// Line-control register (write).
    pub fn port_line_control(&self) -> (p: u16)
        requires
            self@ + 3 <= u16::MAX,
        ensures
            p == self@ + 3,
    {
        self.base_addr + 3
    }

    /// Modem-control register (write).
    pub fn port_modem_control(&self) -> (p: u16)
        requires
            self@ + 4 <= u16::MAX,
        ensures
            p == self@ + 4,
    {
        self.base_addr + 4
    }

    /// Line-status register (read).
    pub fn port_line_status(&self) -> (p: u16)
        requires
            self@ + 5 <= u16::MAX,
        ensures
            p == self@ + 5,
    {
        self.base_addr + 5
    }

    /// The register writes that initialise the UART, in the order they are made.
    pub fn init(&self) -> (program: Vec<PortWrite>)
        requires
            self@ + 4 <= u16::MAX,
        ensures
            program@ == init_program(self@),
    {
        let ie = self.port_interrupt_enable();
        let lc = self.port_line_control();
        let data = self.port_data();
        let fifo = self.port_fifo_control();
        let mc = self.port_modem_control();
        let mut program: Vec<PortWrite> = Vec::new();
        program.push(PortWrite { port: ie, value: 0x00 });
        program.push(PortWrite { port: lc, value: 0x80 });
        program.push(PortWrite { port: data, value: 0x03 });
        program.push(PortWrite { port: ie, value: 0x00 });
        program.push(PortWrite { port: lc, value: 0x03 });
        program.push(PortWrite { port: fifo, value: 0xC7 });
        program.push(PortWrite { port: mc, value: 0x0B });
        program.push(PortWrite { port: ie, value: 0x01 });
        assert(program@ =~= init_program(self@));
        program
    }

    /// The known flags of a line-status value that was read from the device.
    pub fn line_sts(&self, line_status: u8) -> (f: LineStsFlags)
        ensures
            f@ == line_status & KNOWN_LINE_BITS,
            (f@ & OUTPUT_EMPTY_BIT == OUTPUT_EMPTY_BIT) == output_empty(line_status),
            (f@ & INPUT_FULL_BIT == INPUT_FULL_BIT) == input_full(line_status),
    {
        let f = LineStsFlags::from_bits_truncate(line_status);
        proof {
            lemma_known_bits(line_status);
        }
        f
    }
}

impl Uart16550 {
    /// Tries to hand `byte` to the transmitter, given the line status just read:
    /// the data-port write to make when the transmitter is empty, else
    /// `WouldBlockError`.
    pub fn try_send_raw(&mut self, byte: u8, line_status: u8) -> (r: Result<PortWrite, Uart16550Error>)
        ensures
            final(self)@ == old(self)@,
            output_empty(line_status) ==> r == Ok::<PortWrite, Uart16550Error>(
                PortWrite { port: old(self)@, value: byte },
            ),
            !output_empty(line_status) ==> r == Err::<PortWrite, Uart16550Error>(
                Uart16550Error::WouldBlockError,
            ),
    {
        if self.line_sts(line_status).contains(LineStsFlags::output_empty()) {
            Ok(PortWrite { port: self.port_data(), value: byte })
        } else {
            Err(Uart16550Error::WouldBlockError)
        }
    }

    /// Tries to take a received byte, given the line status just read: the
    /// data-port read to make when a byte is waiting, else `WouldBlockError`.
    pub fn try_receive(&mut self, line_status: u8) -> (r: Result<PortRead, Uart16550Error>)
        ensures
            final(self)@ == old(self)@,
            input_full(line_status) ==> r == Ok::<PortRead, Uart16550Error>(
                PortRead { port: old(self)@ },
            ),
            !input_full(line_status) ==> r == Err::<PortRead, Uart16550Error>(
                Uart16550Error::WouldBlockError,
            ),
    {
        if self.line_sts(line_status).contains(LineStsFlags::input_full()) {
            Ok(PortRead { port: self.port_data() })
        } else {
            Err(Uart16550Error::WouldBlockError)
        }
    }

    /// One poll of the receive loop, given the line status just read: the
    /// data-port read that yields the received byte, or `None` when nothing
    /// has arrived yet and the loop spins and polls again.
    pub fn receive(&mut self, line_status: u8) -> (r: Option<PortRead>)
        ensures
            final(self)@ == old(self)@,
            input_full(line_status) ==> r == Some(PortRead { port: old(self)@ }),
            !input_full(line_status) ==> r is None,
    {
        match self.try_receive(line_status) {
            Ok(read) => Some(read),
            Err(_) => None,
        }
    }

    /// Starts sending one byte exactly as it is, with no translation of
    /// backspace or delete: the transmission that `send_raw` drives to put a
    /// raw byte on the wire.
    pub fn start_raw(&self, byte: u8) -> (t: Transmit)
        ensures
            t.bytes() == seq![byte],
            t.sent() == 0,
    {
        let mut bytes: Vec<u8> = Vec::new();
        bytes.push(byte);
        assert(bytes@ =~= seq![byte]);
        Transmit::starting(bytes)
    }

    /// Starts sending one byte: the transmission holds what goes on the wire
    /// for it, and nothing of it has been written yet.
    pub fn send(&self, byte: u8) -> (t: Transmit)
        ensures
            t.bytes() == expand(byte),
            t.sent() == 0,
    {
        let mut bytes: Vec<u8> = Vec::new();
        if byte == 8 || byte == 0x7F {
            bytes.push(8);
            bytes.push(0x20);
            bytes.push(8);
        } else {
            bytes.push(byte);
        }
        assert(bytes@ =~= expand(byte));
        Transmit::starting(bytes)
    }

    /// Starts sending a string: every byte of it, each as `send` puts it on the
    /// wire, in order.
    pub fn write_str(&mut self, s: &str) -> (t: Transmit)
        ensures
            final(self)@ == old(self)@,
            t.bytes() == expand_all(s.spec_bytes()),
            t.sent() == 0,
    {
        let src = s.as_bytes();
        let mut bytes: Vec<u8> = Vec::new();
        let mut i: usize = 0;
        while i < src.len()
            invariant
                i <= src@.len(),
                src@ == s.spec_bytes(),
                bytes@ == expand_all(src@.subrange(0, i as int)),
            decreases src@.len() - i,
        {
            let c = src[i];
            proof {
                assert(src@.subrange(0, i + 1).drop_last() =~= src@.subrange(0, i as int));
            }
            if c == 8 || c == 0x7F {
                bytes.push(8);
                bytes.push(0x20);
                bytes.push(8);
            } else {
                bytes.push(c);
            }
            i = i + 1;
            assert(bytes@ =~= expand_all(src@.subrange(0, i as int)));
        }
        assert(src@.subrange(0, src@.len() as int) =~= src@);
        Transmit::starting(bytes)
    }

    /// One poll of the transmit loop, given the line status just read: writes
    /// the next byte of `tx` when the transmitter is empty, waits when it is
    /// busy, and reports `Done` once every byte is out.
    pub fn send_raw(&mut self, tx: &mut Transmit, line_status: u8) -> (step: SendStep)
        ensures
            final(self)@ == old(self)@,
            final(tx).bytes() == old(tx).bytes(),
            (final(tx).sent(), step) == send_step(old(self)@, old(tx).bytes(), old(tx).sent(), line_status),
    {
        proof {
            use_type_invariant(&*tx);
        }
        if tx.sent >= tx.bytes.len() {
            return SendStep::Done;
        }
        let byte = tx.bytes[tx.sent];
        match self.try_send_raw(byte, line_status) {
            Ok(write) => {
                tx.sent = tx.sent + 1;
                SendStep::Write(write)
            },
            Err(_) => SendStep::Wait,
        }
    }
}

/// How many of the line-status values say that the transmitter is empty.
pub open spec fn count_ready(statuses: Seq<u8>) -> nat
    decreases statuses.len(),
{
    if statuses.len() == 0 {
        0
    } else {
        (if output_empty(statuses[0]) { 1nat } else { 0nat }) + count_ready(statuses.drop_first())
    }
}

/// The data-port writes that the transmit loop makes when it is polled once
/// for each line-status value of `statuses`, in turn.
pub open spec fn drive(port: u16, bytes: Seq<u8>, sent: nat, statuses: Seq<u8>) -> Seq<PortWrite>
    decreases statuses.len(),
{
    if statuses.len() == 0 {
        Seq::empty()
    } else {
        let (next, step) = send_step(port, bytes, sent, statuses[0]);
        let rest = drive(port, bytes, next, statuses.drop_first());
        match step {
            SendStep::Write(w) => seq![w] + rest,
            _ => rest,
        }
    }
}

/// How many bytes have been written after the transmit loop is polled once for
/// each line-status value of `statuses`, in turn.
pub open spec fn drive_sent(port: u16, bytes: Seq<u8>, sent: nat, statuses: Seq<u8>) -> nat
    decreases statuses.len(),
{
    if statuses.len() == 0 {
        sent
    } else {
        let (next, _step) = send_step(port, bytes, sent, statuses[0]);
        drive_sent(port, bytes, next, statuses.drop_first())
    }
}

/// The writes of `bytes[from..to]` to `port`, in order.
pub open spec fn writes_of(port: u16, bytes: Seq<u8>, from: int, to: int) -> Seq<PortWrite> {
    bytes.subrange(from, to).map_values(|b: u8| PortWrite { port, value: b })
}

/// However the line status goes, the transmit loop writes the pending bytes to
/// the data port in order, one for each poll that finds the transmitter empty,
/// and nothing else, until every byte is out; once as many polls have found it
/// empty as there were bytes pending, the transmission is done.
pub proof fn lemma_transmit_writes_in_order(port: u16, bytes: Seq<u8>, sent: nat, statuses: Seq<u8>)
    requires
        sent <= bytes.len(),
    ensures
        ({
            let k = if count_ready(statuses) <= bytes.len() - sent {
                count_ready(statuses) as int
            } else {
                bytes.len() - sent
            };
            &&& drive(port, bytes, sent, statuses) == writes_of(port, bytes, sent as int, sent + k)
            &&& drive_sent(port, bytes, sent, statuses) == sent + k
        }),
    decreases statuses.len(),
{
    if statuses.len() == 0 {
        assert(writes_of(port, bytes, sent as int, sent as int) =~= Seq::<PortWrite>::empty());
    } else {
        let tail = statuses.drop_first();
        if sent < bytes.len() && output_empty(statuses[0]) {
            lemma_transmit_writes_in_order(port, bytes, sent + 1, tail);
            let k1 = if count_ready(tail) <= bytes.len() - (sent + 1) {
                count_ready(tail) as int
            } else {
                bytes.len() - (sent + 1)
            };
            let w = PortWrite { port, value: bytes[sent as int] };
            assert(seq![w] + writes_of(port, bytes, sent + 1int, sent + 1 + k1) =~= writes_of(
                port,
                bytes,
                sent as int,
                sent + 1 + k1,
            ));
        } else {
            lemma_transmit_writes_in_order(port, bytes, sent, tail);
        }
    }
}

/// The line-status tests read single bits: bit 5 for "transmitter empty",
/// bit 0 for "data waiting".
pub proof fn lemma_status_bits(status: u8)
    ensures
        output_empty(status) <==> (status >> 5u8) & 1u8 == 1u8,
        input_full(status) <==> status & 1u8 == 1u8,
{
    assert(((status & 0x20u8) != 0u8) <==> ((status >> 5u8) & 1u8 == 1u8)) by (bit_vector);
    assert(((status & 1u8) != 0u8) <==> (status & 1u8 == 1u8)) by (bit_vector);
}

/// `send` passes every byte through unchanged, except backspace and delete,
/// which both become back, blank, back.
pub proof fn lemma_expand_cases(byte: u8)
    ensures
        byte != 8 && byte != 0x7F ==> expand(byte).len() == 1 && expand(byte)[0] == byte,
        byte == 8 || byte == 0x7F ==> expand(byte).len() == 3 && expand(byte)[0] == 8u8
            && expand(byte)[1] == 0x20u8 && expand(byte)[2] == 8u8,
{
}

/// A string goes out as the concatenation of what `send` puts on the wire for
/// each of its bytes: splitting the string splits its transmission, and one
/// byte goes out as `send` sends it.
pub proof fn lemma_expand_all_concat(s1: Seq<u8>, s2: Seq<u8>)
    ensures
        expand_all(s1 + s2) == expand_all(s1) + expand_all(s2),
    decreases s2.len(),
{
    if s2.len() == 0 {
        assert(s1 + s2 =~= s1);
        assert(expand_all(s2) =~= Seq::<u8>::empty());
        assert(expand_all(s1) + expand_all(s2) =~= expand_all(s1));
    } else {
        let s2p = s2.drop_last();
        lemma_expand_all_concat(s1, s2p);
        assert((s1 + s2).drop_last() =~= s1 + s2p);
        assert((s1 + s2).last() == s2.last());
        assert(expand_all(s1) + expand_all(s2p) + expand(s2.last()) =~= expand_all(s1) + (
        expand_all(s2p) + expand(s2.last())));
    }
}

/// One byte alone goes out exactly as `send` sends it.
pub proof fn lemma_expand_all_single(byte: u8)
    ensures
        expand_all(seq![byte]) == expand(byte),
{
    assert(seq![byte].drop_last() =~= Seq::<u8>::empty());
    assert(expand_all(Seq::<u8>::empty()) =~= Seq::<u8>::empty());
    assert(seq![byte].last() == byte);
    assert(Seq::<u8>::empty() + expand(byte) =~= expand(byte));
}

/// A string with no backspace or delete goes out byte for byte, unchanged.
pub proof fn lemma_expand_all_plain(s: Seq<u8>)
    requires
        forall|i: int| 0 <= i < s.len() ==> s[i] != 8 && s[i] != 0x7F,
    ensures
        expand_all(s) == s,
    decreases s.len(),
{
    if s.len() > 0 {
        lemma_expand_all_plain(s.drop_last());
        lemma_expand_cases(s.last());
        assert(expand_all(s.drop_last()) + expand(s.last()) =~= s);
    }
}

/// A poll of a transmission that still has bytes writes the next byte to the
/// data port exactly when bit 5 of the line status is set, and otherwise
/// waits with nothing written; a poll of a finished transmission reports
/// `Done` whatever the line status, and changes nothing.
pub proof fn lemma_send_step_cases(port: u16, bytes: Seq<u8>, sent: nat, status: u8)
    requires
        sent <= bytes.len(),
    ensures
        sent == bytes.len() ==> send_step(port, bytes, sent, status) == (sent, SendStep::Done),
        sent < bytes.len() && (status >> 5u8) & 1u8 == 1u8 ==> send_step(port, bytes, sent, status)
            == ((sent + 1) as nat, SendStep::Write(PortWrite { port, value: bytes[sent as int] })),
        sent < bytes.len() && (status >> 5u8) & 1u8 == 0u8 ==> send_step(port, bytes, sent, status)
            == (sent, SendStep::Wait),
{
    lemma_status_bits(status);
    assert((status >> 5u8) & 1u8 == 1u8 || (status >> 5u8) & 1u8 == 0u8) by (bit_vector);
}

/// The initialisation program for base 0: its register offsets and values.
pub open spec fn init_offsets_and_values() -> Seq<(u16, u8)> {
    seq![(1u16, 0x00u8), (3, 0x80), (0, 0x03), (1, 0x00), (3, 0x03), (2, 0xC7), (4, 0x0B), (1, 0x01)]
}

/// Every write of the initialisation program goes to the UART's own register
/// block: for any base, write `i` goes to `base` plus the `i`-th fixed offset
/// (interrupt enable, line control, data, interrupt enable, line control,
/// FIFO control, modem control, interrupt enable), with the fixed value; so the
/// program of one UART is that of another with every port shifted by the
/// difference of their bases.
pub proof fn lemma_init_program_relative(base: u16, i: int)
    requires
        base + 4 <= u16::MAX,
        0 <= i < 8,
    ensures
        init_program(base).len() == 8,
        init_program(base)[i].port == base + init_offsets_and_values()[i].0,
        init_program(base)[i].value == init_offsets_and_values()[i].1,
{
}

} // verus!
