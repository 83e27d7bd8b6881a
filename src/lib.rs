//! Back end of a small expression language: static type resolution over an
//! arena syntax tree, compilation to a compact bytecode, and a stack-based
//! virtual machine with call frames.

pub mod chunk;
pub mod codegen;
pub mod disassembler;
pub mod evaluation;
pub mod grammar;
pub mod opcode;
pub mod program;
pub mod semantic;
pub mod typechecker;
pub mod value;
pub mod vm;
