# gameboy

A Game Boy (DMG) emulator core whose behaviour is stated in Verus contracts and
proved by Verus.

## Layout

- `src/mem`: the address space (`MMU`), the I/O register file, the boot program and
  the cartridge bank controllers (ROM only, MBC1, MBC2, MBC3 with its clock).
- `src/dev`: the devices: the CPU (`cpu`, with the instruction semantics in
  `cpu/ops.rs` and their execution in `cpu/exec.rs`), the picture unit (`gpu`,
  with rendering in `gpu/render.rs` and the frame structure in `gpu/frame.rs`),
  the audio unit, the timer, OAM DMA and the joypad. Every clocked device
  implements `Clocked`, whose specification functions describe one step.
- `src/state.rs`: the CPU's access path to memory (`State`) and the `Runtime` that
  interleaves CPU steps with the devices.
- `src/utils/header.rs`: the cartridge header.
- `app/main.rs`: the SDL2 front end (window, keyboard, audio queues).

## Proved properties

Besides the contract of every public function, the library proves, among others:
read-after-write for memory, the CPU's stack and the cartridge RAM of each
controller; interrupt priority; PUSH/POP and CALL/RET round trips; the frame
structure of the picture unit (144 lines of three steps, then VBLANK, 17556
machine cycles); the periods of DIV, TIMA and the audio frame sequencer; that
OAM sprites are read in stable x order; that devices never run ahead of the CPU.
