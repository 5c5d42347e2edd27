//! A Game Boy (DMG) emulator core: memory map and cartridge controllers,
//! the LR35902 CPU, the picture and audio units, the timer, DMA and joypad.
mod bits;
pub mod mem;
pub mod utils;
pub mod dev;
pub mod state;
