//! A virtual machine for the LC-3 16-bit instruction set: a decoder from
//! instruction words to typed instructions, an executor that advances the
//! architectural state one instruction at a time, and a word-addressed
//! memory with a memory-mapped keyboard.
//!
//! The library does no I/O of its own. Instructions that talk to the console
//! report what the host has to do as an `Effect`, and the keyboard device is
//! a one-byte latch that the host fills.

pub mod flags;
pub mod opcode;
pub mod memory;
pub mod cpu;
