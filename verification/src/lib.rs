//! A small fixed-width instruction-set computer: the layout of its
//! instruction words, an engine that executes them, an assembler from
//! mnemonic source text, a disassembler and a little-endian byte form of a
//! program.
//!
//! Every executable function carries a contract over the mathematical models
//! defined beside it, and Verus proves each body against its contract.

pub mod assembler;
pub mod codec;
pub mod disassembler;
pub mod machine;
pub mod processor;
pub mod serializer;
pub mod text;
pub mod theorems;

pub use assembler::{assemble, assemble_line, AssembleError};
pub use codec::{decode, encode};
pub use disassembler::{
    disassemble, get_opcode_name, get_opcode_name_long, print_as_assembly,
    print_program_as_assembly,
};
pub use machine::{ExecutionError, RunStatus};
pub use processor::{demo_program, Processor};
pub use serializer::{bin_raw_as_machine_code, machine_code_as_bin_raw, SerializeError};
