# chip8

A CHIP-8 virtual machine written in Verus.

- `src/machine.rs`: the abstract machine (`Machine`) and the meaning of every
  instruction as a specification, with the conditions under which it runs
  without a fault.
- `src/chip8.rs`: the machine state `Chip8`, its view as a `Machine`, power-on
  (`start`), reset and program loading (`load`).
- `src/opcodes.rs`: one verified function per instruction.
- `src/cpu.rs`: decoding (`execute`, `decode`), the frame loop (`cycle`) and
  its guarded form (`try_cycle`).
- `src/frontend.rs`: the keyboard layout and the scaled frame buffer.
- `src/laws.rs`: properties spanning several instructions or operations.
- `app/main.rs`: the window, the file dialog and the main loop.
