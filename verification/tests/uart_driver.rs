use tiramisu::uart::{
    LineStsFlags, PortRead, PortWrite, SendStep, Transmit, Uart16550, Uart16550Error, COM1,
};

const EMPTY: u8 = 0x20;
const BUSY: u8 = 0x00;
const DATA_READY: u8 = 0x01;

/// Polls the transmit loop once per status and collects what it asks for.
fn drive(uart: &mut Uart16550, tx: &mut Transmit, statuses: &[u8]) -> Vec<SendStep> {
    statuses.iter().map(|s| uart.send_raw(tx, *s)).collect()
}

fn written(steps: &[SendStep]) -> Vec<u8> {
    steps
        .iter()
        .filter_map(|s| match s {
            SendStep::Write(w) => Some(w.value),
            _ => None,
        })
        .collect()
}

#[test]
fn com1_register_layout() {
    let uart = Uart16550::new(COM1);
    assert_eq!(uart.port_data(), 0x3F8);
    assert_eq!(uart.port_interrupt_enable(), 0x3F9);
    assert_eq!(uart.port_fifo_control(), 0x3FA);
    assert_eq!(uart.port_line_control(), 0x3FB);
    assert_eq!(uart.port_modem_control(), 0x3FC);
    assert_eq!(uart.port_line_status(), 0x3FD);
}

#[test]
fn init_program_for_com1() {
    let uart = Uart16550::new(COM1);
    let expected = vec![
        PortWrite { port: 0x3F9, value: 0x00 },
        PortWrite { port: 0x3FB, value: 0x80 },
        PortWrite { port: 0x3F8, value: 0x03 },
        PortWrite { port: 0x3F9, value: 0x00 },
        PortWrite { port: 0x3FB, value: 0x03 },
        PortWrite { port: 0x3FA, value: 0xC7 },
        PortWrite { port: 0x3FC, value: 0x0B },
        PortWrite { port: 0x3F9, value: 0x01 },
    ];
    assert_eq!(uart.init(), expected);
}

#[test]
fn init_program_follows_the_base() {
    let uart = Uart16550::new(0x2F8);
    let program = uart.init();
    assert_eq!(program.len(), 8);
    assert_eq!(program[2], PortWrite { port: 0x2F8, value: 0x03 });
    assert_eq!(program[5], PortWrite { port: 0x2FA, value: 0xC7 });
}

#[test]
fn line_status_flags_keep_only_known_bits() {
    assert_eq!(LineStsFlags::from_bits_truncate(0xFF).bits(), 0x21);
    assert_eq!(LineStsFlags::from_bits_truncate(0x60).bits(), 0x20);
    assert_eq!(LineStsFlags::input_full().bits(), 1);
    assert_eq!(LineStsFlags::output_empty().bits(), 0x20);
    let flags = LineStsFlags::from_bits_truncate(0x21);
    assert!(flags.contains(LineStsFlags::input_full()));
    assert!(flags.contains(LineStsFlags::output_empty()));
    assert!(!LineStsFlags::from_bits_truncate(0x40).contains(LineStsFlags::output_empty()));
}

#[test]
fn try_send_raw_writes_only_when_transmitter_empty() {
    let mut uart = Uart16550::new(COM1);
    assert_eq!(uart.try_send_raw(b'A', 0x60), Ok(PortWrite { port: 0x3F8, value: b'A' }));
    assert_eq!(uart.try_send_raw(b'A', DATA_READY), Err(Uart16550Error::WouldBlockError));
    assert_eq!(uart.try_send_raw(b'A', 0xDF), Err(Uart16550Error::WouldBlockError));
}

#[test]
fn try_receive_reads_only_when_data_waits() {
    let mut uart = Uart16550::new(COM1);
    assert_eq!(uart.try_receive(0x61), Ok(PortRead { port: 0x3F8 }));
    assert_eq!(uart.try_receive(EMPTY), Err(Uart16550Error::WouldBlockError));
    assert_eq!(uart.receive(DATA_READY), Some(PortRead { port: 0x3F8 }));
    assert_eq!(uart.receive(BUSY), None);
}

#[test]
fn send_plain_byte() {
    let mut uart = Uart16550::new(COM1);
    let mut tx = uart.send(b'x');
    assert!(!tx.is_done());
    let steps = drive(&mut uart, &mut tx, &[EMPTY, EMPTY]);
    assert_eq!(steps, vec![SendStep::Write(PortWrite { port: 0x3F8, value: b'x' }), SendStep::Done]);
    assert!(tx.is_done());
}

#[test]
fn send_backspace_erases() {
    let mut uart = Uart16550::new(COM1);
    let mut tx = uart.send(8);
    let steps = drive(&mut uart, &mut tx, &[EMPTY, EMPTY, EMPTY, EMPTY]);
    assert_eq!(written(&steps), vec![8, b' ', 8]);
    assert_eq!(steps[3], SendStep::Done);
}

#[test]
fn send_delete_erases() {
    let mut uart = Uart16550::new(COM1);
    let mut tx = uart.send(0x7F);
    let steps = drive(&mut uart, &mut tx, &[EMPTY, EMPTY, EMPTY]);
    assert_eq!(written(&steps), vec![8, b' ', 8]);
    assert!(tx.is_done());
}

#[test]
fn transmit_waits_while_busy() {
    let mut uart = Uart16550::new(COM1);
    let mut tx = uart.send(0x7F);
    let steps = drive(&mut uart, &mut tx, &[BUSY, EMPTY, BUSY, BUSY, EMPTY, DATA_READY, EMPTY, EMPTY]);
    assert_eq!(steps[0], SendStep::Wait);
    assert_eq!(steps[1], SendStep::Write(PortWrite { port: 0x3F8, value: 8 }));
    assert_eq!(steps[2], SendStep::Wait);
    assert_eq!(steps[5], SendStep::Wait);
    assert_eq!(written(&steps), vec![8, b' ', 8]);
    assert_eq!(steps[7], SendStep::Done);
}

#[test]
fn transmit_never_writes_on_busy_line() {
    let mut uart = Uart16550::new(COM1);
    let mut tx = uart.send(b'q');
    let steps = drive(&mut uart, &mut tx, &[BUSY; 10]);
    assert!(steps.iter().all(|s| *s == SendStep::Wait));
    assert!(!tx.is_done());
}

#[test]
fn write_str_sends_every_byte_in_order() {
    let mut uart = Uart16550::new(COM1);
    let mut tx = uart.write_str("hi\u{8}!");
    let steps = drive(&mut uart, &mut tx, &[EMPTY; 7]);
    assert_eq!(written(&steps), vec![b'h', b'i', 8, b' ', 8, b'!']);
    assert_eq!(steps[6], SendStep::Done);
}

#[test]
fn write_str_of_empty_string_is_done_at_once() {
    let mut uart = Uart16550::new(COM1);
    let mut tx = uart.write_str("");
    assert!(tx.is_done());
    assert_eq!(uart.send_raw(&mut tx, EMPTY), SendStep::Done);
}

#[test]
fn write_str_multibyte_characters_go_out_as_bytes() {
    let mut uart = Uart16550::new(COM1);
    let mut tx = uart.write_str("é");
    let steps = drive(&mut uart, &mut tx, &[EMPTY; 3]);
    assert_eq!(written(&steps), vec![0xC3, 0xA9]);
}

#[test]
fn raw_backspace_goes_out_as_is() {
    let mut uart = Uart16550::new(COM1);
    let mut tx = uart.start_raw(8);
    let steps = drive(&mut uart, &mut tx, &[BUSY, EMPTY, EMPTY]);
    assert_eq!(
        steps,
        vec![SendStep::Wait, SendStep::Write(PortWrite { port: 0x3F8, value: 8 }), SendStep::Done]
    );
}

#[test]
fn raw_delete_goes_out_as_is() {
    let mut uart = Uart16550::new(COM1);
    let mut tx = uart.start_raw(0x7F);
    let steps = drive(&mut uart, &mut tx, &[EMPTY, EMPTY]);
    assert_eq!(written(&steps), vec![0x7F]);
    assert!(tx.is_done());
}
