//! Encoding of RISC-V base-ISA instructions into 32-bit words and bytes.
pub mod bits;
pub mod instruction;
pub mod packer;
pub mod register;

pub use instruction::{Instruction, InstructionLiterals};
pub use packer::convert_bit_array_to_byte_array;
pub use register::{InvalidRegister, Register};
