//! Verified core of the Tiramisu kernel: interrupt vector layout, the slab
//! table, the 16550 UART driver's decisions, the boot banner and the QEMU test
//! runner's schedule.

pub mod interrupts;
pub mod slab_alloc;
pub mod uart;
pub mod test_runner;
pub mod entry;
pub mod logging;
