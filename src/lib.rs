//! A CHIP-8 interpreter core: memory, registers, call stack, timers, keypad
//! and a 64x32 monochrome display, driven one instruction at a time.

pub mod entropy;
pub mod font;
pub mod laws;
pub mod machine;
pub mod state;

pub use machine::Chip8;
pub use state::{Fault, LoadError, Mode, State};
