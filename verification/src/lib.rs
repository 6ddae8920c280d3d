//! A verified CHIP-8 virtual machine core.
//!
//! The library models the CPU: the 4096-byte address space with its built-in
//! font, the sixteen 8-bit registers, the call stack, the program counter,
//! the two 60 Hz timers and the 64x32 monochrome framebuffer.  Every opcode's
//! effect on that state is stated as a specification-level transition
//! function and the executable interpreter is proved to follow it exactly.
//!
//! Window and audio backends are deliberately outside the core: the executor
//! mutates an owned pixel grid, and the timer coordinator returns the action
//! the tone generator must take, so both can be driven by any frontend.

use vstd::prelude::*;

pub mod decode;
pub mod display;
pub mod cpu;
pub mod laws;

verus! {

/// Error reported when a program image cannot be loaded.
#[derive(Debug, Clone, Copy, PartialEq, Eq, Structural)]
pub enum LoadError {
    /// The program does not fit between 0x200 and the end of memory.
    ProgramTooLarge,
}

/// Error reported by the opcode executor; each one halts the frame loop.
#[derive(Debug, Clone, Copy, PartialEq, Eq, Structural)]
pub enum ExecutionError {
    /// A CALL was executed with the call stack already full.
    StackOverflow,
    /// A RET was executed with the call stack empty.
    StackUnderflow,
    /// The instruction word matches no opcode pattern.
    UnknownOpcode(u16),
}

} // verus!
