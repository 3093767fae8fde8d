//! The script language: opcodes, the machine that runs them, and the standard templates.
pub mod engine;
pub mod opcode;
pub mod sighash;
pub mod standard_scripts;
pub mod validation;
