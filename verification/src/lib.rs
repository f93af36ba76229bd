//! Verified core of the EmuGator RISC-V (RV32I) teaching tool: bit-field
//! helpers, the instruction set and its encoding, the pipelined emulator
//! and the assemblers.
pub mod assembler;
pub mod bits;
pub mod emulator;
pub mod isa;
pub mod labels;
pub mod text;
