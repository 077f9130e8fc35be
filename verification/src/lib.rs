//! A verified CHIP-8 / SuperChip (HP48) interpreter core.
//!
//! The crate models the virtual machine itself: memory and ROM layout,
//! the register file, the call stack, the two-resolution monochrome
//! display with sprite drawing and collision detection, the countdown
//! timers, and the fetch-decode-execute cycle for the full instruction
//! set including the SuperChip extensions and their behavioural quirks.
//! Presentation (windowing, rasterisation, audio output, file dialogs)
//! is left to an unverified driver that talks to the core through plain
//! values.

pub mod color;
mod entropy;
pub mod font;
pub mod display;
pub mod instr;
pub mod sprite;
pub mod laws;
pub mod vm;

pub use color::Color;
pub use display::Display;
pub use instr::{decode, Instr};
pub use vm::{Chip8, Config, Status, VmError};
