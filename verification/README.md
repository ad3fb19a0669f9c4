# pixeldrive

A Game Boy / Game Boy Color and Game Boy Advance emulator core with cheat handling, a
recently-played library and thumbnail encoding, written in Verus: every function of the
library carries a contract that Verus proves.

Layout:

- `src/gbc/`: the Game Boy machine. CPU instruction set (`isa.rs` specifies, `cpu.rs`
  executes), memory bus with cartridge controllers (`mmu.rs`, `mbc.rs`), picture unit,
  timer, joypad, sound channels and sound unit registers, and `GbcCore`, whose frame loop
  is proved equal to a fold of single machine steps.
- `src/gba/`: the Game Boy Advance machine. ARM and THUMB execution, high-level BIOS calls,
  bus, DMA, flash, keypad, picture unit, frame pacing, pixel-format conversion, and
  `GbaCore` with its built-in frame loop.
- `src/cheats/`: cheat lists, the `.cht` text format (with a proved round trip), GameShark
  / Action Replay decoding and the patches applied to emulated memory.
- `src/input/`: joypad bitmask, gamepad source, input merging and dispatch, touch presets.
- `src/library/`: recently-played list and thumbnail scaling, encoding and decoding.
- `app/`: a command-line front end (file I/O, JSON library file, `.cht` files, BIOS and ROM
  files) and the floating-point image downscaler.
- `tests/`: tests run against the compiled library.

The PNG and JPEG codecs are the `png`, `jpeg-decoder` and `jpeg-encoder` crates, called
through a few trusted wrappers whose contracts name what the codecs return.
