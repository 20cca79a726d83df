//! A small register-and-stack virtual machine: tagged words, an opcode
//! model, a text preprocessor, a two-pass assembler, an interpreter and an
//! image codec, each with its behaviour stated as a contract.

pub mod word;
pub mod error;
pub mod opcode;
pub mod text;
pub mod number;
pub mod preprocessor;
pub mod oasm;
pub mod machine;
pub mod osvm;
pub mod image;
pub mod laws;
