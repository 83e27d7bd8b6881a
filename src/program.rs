//! Compiled functions and programs.

use vstd::prelude::*;

use crate::chunk::Chunk;

verus! {

/// A compiled function: its name, its bytecode and its parameter count.
#[derive(Debug, Clone)]
pub struct Function {
    pub name: String,
    pub chunk: Chunk,
    pub arity: u8,
}

/// A table of functions and the index of the one that runs first.
#[derive(Debug, Clone)]
pub struct Program {
    pub functions: Vec<Function>,
    pub entry: usize,
}

impl Program {
    pub fn new() -> (r: Self)
        ensures
            r.functions@.len() == 0,
            r.entry == 0,
    {
        Program { functions: Vec::new(), entry: 0 }
    }
}

} // verus!
