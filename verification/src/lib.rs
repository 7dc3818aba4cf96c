//! A verified CHIP-8 interpreter core: instruction-word decoding, the
//! machine-state model, and the fetch-decode-execute engine.

pub mod cpu;
pub mod machine;
pub mod opcode;

pub use cpu::Chip;
pub use cpu::LoadError;
pub use machine::Fault;
pub use opcode::Opcode;
pub use opcode::Operation;
