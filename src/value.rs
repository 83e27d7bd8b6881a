//! Runtime values.

use vstd::prelude::*;

verus! {

/// A scalar runtime value. A float is held as its IEEE-754 bit pattern.
#[derive(Debug, Clone, Copy, PartialEq, Eq, Structural)]
pub enum Value {
    Int64(i64),
    Uint64(u64),
    Float64(u64),
    Bool(bool),
    Unit,
}

} // verus!
