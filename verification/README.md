# tiramisu

The verified core of a small x86_64 kernel, written in Verus.

- `src/` is the library. Each module states its behaviour in contracts:
  - `interrupts`: the PIC vector layout and the interrupt numbers;
  - `slab_alloc`: the slab table and the search for the first free slab;
  - `uart`: the 16550 UART's register layout, its initialisation program, and
    the decisions of its transmit and receive loops, taken one poll at a time
    from the line-status byte the device reported;
  - `test_runner`: the schedule of an in-kernel test run and the QEMU exit codes;
  - `entry`: the greeting written to the VGA text buffer at boot;
  - `logging`: log levels and their line tags.
- `app/` performs the port I/O that the library asks for (serial console,
  PICs, QEMU exit device, VGA buffer) and runs the loops.
- `tests/` exercises the library on concrete values.
