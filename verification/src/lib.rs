//! A 256-bit register machine: instruction set, execution units, memory,
//! processor core, assembler, object format and disassembler.
pub mod isa;
pub mod text;
pub mod lex;
pub mod alu;
pub mod memory;
pub mod binary;
pub mod disasm;
pub mod assembler;
pub mod cpu;

pub use isa::{ActivationFn, Instruction, Reg256, Width};
pub use memory::Memory;
pub use cpu::{Cpu, CpuMetrics, CpuStatus};
pub use assembler::{AssembledProgram, Assembler};
pub use binary::{decode_instruction, encode_instruction, read_object, write_object, Object};
pub use disasm::Disassembler;
