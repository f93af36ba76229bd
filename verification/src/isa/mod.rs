//! The instruction set: the table of instructions and the encoded word.
pub mod definitions;
pub mod instruction;

pub use definitions::{InstructionDefinition, InstructionFormat, Operands, ISA};
pub use instruction::Instruction;
