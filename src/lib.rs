//! A CHIP-8 virtual machine: the instruction interpreter, its sprite blitter,
//! its random byte source and its compatibility dialect.
use vstd::prelude::*;

pub mod cpu;
pub mod entropy;
pub mod laws;
pub mod memory;

verus! {

/// Width of the framebuffer, in cells.
pub const WIDTH: usize = 64;

/// Height of the framebuffer, in cells.
pub const HEIGHT: usize = 32;

/// Size of the address space, in bytes.
pub const MEMORY_SIZE: usize = 4096;

/// Address at which the program image is loaded.
pub const PROGRAM_START: usize = 512;

/// Address of the built-in hexadecimal glyph table.
pub const FONT_START: usize = 0x50;

/// Value of a framebuffer cell that is on.
pub const PIXEL_ON: u32 = 0xFFFF_FFFF;

} // verus!
