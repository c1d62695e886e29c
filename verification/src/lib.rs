//! A small 16-bit instruction-set toolchain: the instruction tables, a register
//! file, a flat memory, a decode-execute engine and a two-pass assembler that
//! agree bit for bit on every encoding.

pub mod assembler;
pub mod error;
pub mod instruction;
pub mod memory;
pub mod numeric;
pub mod object;
pub mod register;
pub mod source;
pub mod symbols;
pub mod text;
pub mod vm;

pub use crate::assembler::{assemble, encode_instruction, first_pass, second_pass, Scan};
pub use crate::error::{AssemblerError, ErrorKind};
pub use crate::instruction::{
    execute,
    sign_extend,
    Fault,
    Opcode,
    OpcodeError,
    Outcome,
    TrapCode,
    TrapCodeError,
};
pub use crate::memory::{Memory, MEMORY_SIZE, UNPRIVILEGED_MEMORY};
pub use crate::numeric::encode_numeric;
pub use crate::object::{from_bytes, to_bytes};
pub use crate::register::{ConditionalFlag, Register, RegisterError, Registers};
pub use crate::source::{read_program, Line};
pub use crate::symbols::{Symbol, SymbolTable};
pub use crate::vm::{PrivilegeMode, VirtualMachine};
