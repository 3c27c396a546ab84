pub mod display;
pub mod engine;
pub mod laws;
pub mod machine;
pub mod opcode;

pub use machine::{ChipError, SChip8, StepResult};
pub use opcode::{decode, Instruction};
