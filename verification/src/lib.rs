//! A CHIP-8 virtual machine with verified instruction semantics.
//!
//! The machine state (memory, register file, call stack, framebuffer) lives in
//! [`cpu::Cpu`]; its mathematical model is [`semantics::State`].  One
//! [`cpu::Cpu::step`] performs a fetch-decode-execute cycle whose outcome is
//! pinned down, instruction by instruction, by the specification function
//! [`semantics::step_spec`].  Faults (unrecognized opcodes, stack underflow,
//! out-of-bounds memory access) are reported as [`fault::Fault`] values rather
//! than panics.

pub mod cpu;
pub mod decode;
pub mod fault;
pub mod font;
pub mod laws;
pub mod semantics;

pub use cpu::Cpu;
pub use cpu::COLS;
pub use cpu::ROWS;
pub use fault::Fault;
