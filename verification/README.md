# chip8

A CHIP-8 emulator whose machine is a verified Verus library.

* `src/` — the library, every function proved against its contract:
  * `decode` — opcode table (`spec_decode`) and the decoder;
  * `chip8` — the machine state (`MachineState`), the meaning of every
    instruction (`spec_execute`) and of a machine cycle (`spec_tick`),
    `Chip8` with `new`, `load_rom`, `fetch`, `execute`, `tick`, and laws
    about them (call/return, carry and borrow, BCD, store/load, waiting for
    a key, XOR drawing, shape preservation);
  * `display` — XOR sprite drawing with wrap-around, with the laws that
    drawing flips exactly the covered pixels and that drawing twice restores
    the display;
  * `registers`, `stack`, `keypad`, `timer`, `font` — the machine's parts;
  * `input` — the QWERTY layout of the keypad;
  * `render` — scaling of the display into a frame buffer;
  * `pacing` — how many cycles, timer ticks and frames are due.
* `app/` — the program: command line, ROM file, the `minifb` window and the
  main loop.
* `tests/` — the tests.

Random bytes for `Cxkk` come from `rand` through one trusted function,
`random_byte`, of which nothing is assumed.
