//! A small emulator core for the Sharp LR35902 (the Game Boy CPU):
//! cartridge header access, the memory controller, the LCD register
//! block and the CPU with its instruction table.
pub mod lr35902;
pub mod rom;
pub mod mem;
pub mod lcd;
