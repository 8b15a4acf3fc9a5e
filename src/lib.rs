//! A CHIP-8 virtual machine: memory, registers, framebuffer, keypad and a
//! wall-clock delay timer, stepped one instruction at a time.
//!
//! The machine performs no I/O. A driver presses keys, calls
//! `Chip8::emulate_cycle`, and drains the pixel changes (or the request for a
//! full redraw) that each cycle leaves behind.

pub mod display;
pub mod machine;
pub mod theorems;
pub mod timer;

pub use display::{Pixel, SCREEN_HEIGHT, SCREEN_WIDTH};
pub use machine::{Chip8, Fault, Key, LoadError, FONT_START, MAX_PROGRAM_LEN, PROGRAM_START};
pub use timer::{delay_value_after, Timer};
