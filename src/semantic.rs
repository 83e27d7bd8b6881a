//! Static types, operators, and the type environment: the closed tables of
//! legal operator signatures.

use vstd::prelude::*;

verus! {

/// The closed set of static types.
#[derive(Debug, Clone, Copy, PartialEq, Eq, Structural)]
pub enum Type {
    Int64,
    Uint64,
    Float64,
    Bool,
    Unit,
}

/// Binary operators.
#[derive(Debug, Clone, Copy, PartialEq, Eq, Structural)]
pub enum Infix {
    Plus,
    Minus,
    Mul,
    Div,
    Equal,
    NotEqual,
    Less,
    LessEqual,
    Greater,
    GreaterEqual,
}

/// Unary operators. `Plus` is elided while the tree is built and never
/// reaches type resolution or code generation.
#[derive(Debug, Clone, Copy, PartialEq, Eq, Structural)]
pub enum Prefix {
    Plus,
    Minus,
    Negate,
}

pub open spec fn is_numeric(t: Type) -> bool {
    t == Type::Int64 || t == Type::Uint64 || t == Type::Float64
}

pub open spec fn is_arithmetic(op: Infix) -> bool {
    op == Infix::Plus || op == Infix::Minus || op == Infix::Mul || op == Infix::Div
}

/// The legal infix signatures: arithmetic on two operands of one numeric
/// type gives that type, comparison of two operands of one numeric type
/// gives `Bool`; nothing else is legal.
pub open spec fn infix_result(op: Infix, lhs: Type, rhs: Type) -> Option<Type> {
    if lhs == rhs && is_numeric(lhs) {
        if is_arithmetic(op) {
            Some(lhs)
        } else {
            Some(Type::Bool)
        }
    } else {
        None
    }
}

/// The legal prefix signatures: negation of `Int64` or `Float64` keeps the
/// type, boolean negation of `Bool` gives `Bool`.
pub open spec fn prefix_result(op: Prefix, operand: Type) -> Option<Type> {
    match (op, operand) {
        (Prefix::Minus, Type::Int64) => Some(Type::Int64),
        (Prefix::Minus, Type::Float64) => Some(Type::Float64),
        (Prefix::Negate, Type::Bool) => Some(Type::Bool),
        _ => None,
    }
}

/// One row of the infix table.
#[derive(Debug, Clone, Copy)]
pub struct InfixSignature {
    pub op: Infix,
    pub lhs: Type,
    pub rhs: Type,
    pub result: Type,
}

/// One row of the prefix table.
#[derive(Debug, Clone, Copy)]
pub struct PrefixSignature {
    pub op: Prefix,
    pub operand: Type,
    pub result: Type,
}

/// No signature exists for the operator and operand types.
#[derive(Debug, Clone, Copy, PartialEq, Eq, Structural)]
pub enum ResolveError {
    UnresolvedInfix(Infix, Type, Type),
    UnresolvedPrefix(Prefix, Type),
}

/// The type environment: two immutable tables of operator signatures.
#[derive(Debug)]
pub struct TypeEnv {
    infix: Vec<InfixSignature>,
    prefix: Vec<PrefixSignature>,
}

pub open spec fn infix_matches(s: InfixSignature, op: Infix, lhs: Type, rhs: Type) -> bool {
    s.op == op && s.lhs == lhs && s.rhs == rhs
}

pub open spec fn prefix_matches(s: PrefixSignature, op: Prefix, operand: Type) -> bool {
    s.op == op && s.operand == operand
}

impl TypeEnv {
    /// Every row of each table is a legal signature, and every legal
    /// signature has a row.
    pub closed spec fn wf(&self) -> bool {
        &&& forall|i: int|
            0 <= i < self.infix@.len() ==> infix_result(
                #[trigger] self.infix@[i].op,
                self.infix@[i].lhs,
                self.infix@[i].rhs,
            ) == Some(self.infix@[i].result)
        &&& forall|op: Infix, lhs: Type, rhs: Type|
            #[trigger] infix_result(op, lhs, rhs) is Some ==> exists|i: int|
                0 <= i < self.infix@.len() && #[trigger] infix_matches(self.infix@[i], op, lhs, rhs)
        &&& forall|i: int|
            0 <= i < self.prefix@.len() ==> prefix_result(
                #[trigger] self.prefix@[i].op,
                self.prefix@[i].operand,
            ) == Some(self.prefix@[i].result)
        &&& forall|op: Prefix, operand: Type|
            #[trigger] prefix_result(op, operand) is Some ==> exists|i: int|
                0 <= i < self.prefix@.len() && #[trigger] prefix_matches(self.prefix@[i], op, operand)
    }

    pub fn new() -> (r: Self)
        ensures
            r.wf(),
    {
        TypeEnv { infix: Self::default_infix(), prefix: Self::default_prefix() }
    }

    /// Index of a numeric type in the order the infix table lists them.
    spec fn numeric_rank(t: Type) -> int {
        match t {
            Type::Int64 => 0,
            Type::Uint64 => 1,
            _ => 2,
        }
    }

    spec fn infix_rank(op: Infix) -> int {
        match op {
            Infix::Plus => 0,
            Infix::Minus => 1,
            Infix::Mul => 2,
            Infix::Div => 3,
            Infix::Equal => 4,
            Infix::NotEqual => 5,
            Infix::Less => 6,
            Infix::LessEqual => 7,
            Infix::Greater => 8,
            Infix::GreaterEqual => 9,
        }
    }

    /// Appends the ten signatures of one numeric type, in operator order.
    fn push_numeric_rows(table: &mut Vec<InfixSignature>, ty: Type)
        requires
            is_numeric(ty),
        ensures
            final(table)@.len() == old(table)@.len() + 10,
            forall|i: int| 0 <= i < old(table)@.len() ==> final(table)@[i] == old(table)@[i],
            forall|op: Infix|
                #![trigger Self::infix_rank(op)]
                final(table)@[old(table)@.len() + Self::infix_rank(op)] == (InfixSignature {
                    op,
                    lhs: ty,
                    rhs: ty,
                    result: infix_result(op, ty, ty)->Some_0,
                }),
    {
        table.push(InfixSignature { op: Infix::Plus, lhs: ty, rhs: ty, result: ty });
        table.push(InfixSignature { op: Infix::Minus, lhs: ty, rhs: ty, result: ty });
        table.push(InfixSignature { op: Infix::Mul, lhs: ty, rhs: ty, result: ty });
        table.push(InfixSignature { op: Infix::Div, lhs: ty, rhs: ty, result: ty });
        table.push(InfixSignature { op: Infix::Equal, lhs: ty, rhs: ty, result: Type::Bool });
        table.push(InfixSignature { op: Infix::NotEqual, lhs: ty, rhs: ty, result: Type::Bool });
        table.push(InfixSignature { op: Infix::Less, lhs: ty, rhs: ty, result: Type::Bool });
        table.push(InfixSignature { op: Infix::LessEqual, lhs: ty, rhs: ty, result: Type::Bool });
        table.push(InfixSignature { op: Infix::Greater, lhs: ty, rhs: ty, result: Type::Bool });
        table.push(
            InfixSignature { op: Infix::GreaterEqual, lhs: ty, rhs: ty, result: Type::Bool },
        );
    }

    fn default_infix() -> (r: Vec<InfixSignature>)
        ensures
            r@.len() == 30,
            forall|i: int|
                0 <= i < r@.len() ==> infix_result(#[trigger] r@[i].op, r@[i].lhs, r@[i].rhs)
                    == Some(r@[i].result),
            forall|op: Infix, lhs: Type, rhs: Type|
                #[trigger] infix_result(op, lhs, rhs) is Some ==> exists|i: int|
                    0 <= i < r@.len() && #[trigger] infix_matches(r@[i], op, lhs, rhs),
    {
        let mut infix: Vec<InfixSignature> = Vec::new();
        Self::push_numeric_rows(&mut infix, Type::Int64);
        Self::push_numeric_rows(&mut infix, Type::Uint64);
        Self::push_numeric_rows(&mut infix, Type::Float64);
        assert forall|i: int|
            0 <= i < infix@.len() implies infix_result(
                #[trigger] infix@[i].op,
                infix@[i].lhs,
                infix@[i].rhs,
            ) == Some(infix@[i].result) by {
            let op = infix@[i].op;
            assert(infix@[(i / 10) * 10 + Self::infix_rank(op)] == infix@[i]) by {
                let ops = seq![
                    Infix::Plus,
                    Infix::Minus,
                    Infix::Mul,
                    Infix::Div,
                    Infix::Equal,
                    Infix::NotEqual,
                    Infix::Less,
                    Infix::LessEqual,
                    Infix::Greater,
                    Infix::GreaterEqual,
                ];
                let k = i % 10;
                assert(infix@[(i / 10) * 10 + Self::infix_rank(ops[k])] == infix@[i]);
            }
        }
        assert forall|op: Infix, lhs: Type, rhs: Type|
            #[trigger] infix_result(op, lhs, rhs) is Some implies exists|i: int|
                0 <= i < infix@.len() && #[trigger] infix_matches(infix@[i], op, lhs, rhs) by {
            let i = Self::numeric_rank(lhs) * 10 + Self::infix_rank(op);
            assert(infix_matches(infix@[i], op, lhs, rhs));
        }
        infix
    }

    fn default_prefix() -> (r: Vec<PrefixSignature>)
        ensures
            forall|i: int|
                0 <= i < r@.len() ==> prefix_result(#[trigger] r@[i].op, r@[i].operand)
                    == Some(r@[i].result),
            forall|op: Prefix, operand: Type|
                #[trigger] prefix_result(op, operand) is Some ==> exists|i: int|
                    0 <= i < r@.len() && #[trigger] prefix_matches(r@[i], op, operand),
    {
        let mut prefix: Vec<PrefixSignature> = Vec::new();
        prefix.push(PrefixSignature { op: Prefix::Minus, operand: Type::Int64, result: Type::Int64 });
        prefix.push(
            PrefixSignature { op: Prefix::Minus, operand: Type::Float64, result: Type::Float64 },
        );
        prefix.push(PrefixSignature { op: Prefix::Negate, operand: Type::Bool, result: Type::Bool });
        assert forall|op: Prefix, operand: Type|
            #[trigger] prefix_result(op, operand) is Some implies exists|i: int|
                0 <= i < prefix@.len() && #[trigger] prefix_matches(prefix@[i], op, operand) by {
            if op == Prefix::Minus && operand == Type::Int64 {
                assert(prefix_matches(prefix@[0], op, operand));
            } else if op == Prefix::Minus {
                assert(prefix_matches(prefix@[1], op, operand));
            } else {
                assert(prefix_matches(prefix@[2], op, operand));
            }
        }
        prefix
    }
    /// Looks up the result type of `lhs op rhs`.
    pub fn resolve_infix(&self, op: Infix, lhs: Type, rhs: Type) -> (r: Result<Type, ResolveError>)
        requires
            self.wf(),
        ensures
            r == match infix_result(op, lhs, rhs) {
                Some(t) => Ok(t),
                None => Err(ResolveError::UnresolvedInfix(op, lhs, rhs)),
            },
    {
        let mut i: usize = 0;
        while i < self.infix.len()
            invariant
                self.wf(),
                0 <= i <= self.infix@.len(),
                forall|j: int| 0 <= j < i ==> !infix_matches(#[trigger] self.infix@[j], op, lhs, rhs),
            decreases self.infix@.len() - i,
        {
            let row = self.infix[i];
            if row.op == op && row.lhs == lhs && row.rhs == rhs {
                assert(infix_result(row.op, row.lhs, row.rhs) == Some(row.result));
                return Ok(row.result);
            }
            assert(!infix_matches(self.infix@[i as int], op, lhs, rhs));
            i = i + 1;
        }
        proof {
            if infix_result(op, lhs, rhs) is Some {
                assert(false);
            }
        }
        Err(ResolveError::UnresolvedInfix(op, lhs, rhs))
    }

    /// Looks up the result type of `op operand`.
    pub fn resolve_prefix(&self, op: Prefix, operand: Type) -> (r: Result<Type, ResolveError>)
        requires
            self.wf(),
        ensures
            r == match prefix_result(op, operand) {
                Some(t) => Ok(t),
                None => Err(ResolveError::UnresolvedPrefix(op, operand)),
            },
    {
        let mut i: usize = 0;
        while i < self.prefix.len()
            invariant
                self.wf(),
                0 <= i <= self.prefix@.len(),
                forall|j: int| 0 <= j < i ==> !prefix_matches(#[trigger] self.prefix@[j], op, operand),
            decreases self.prefix@.len() - i,
        {
            let row = self.prefix[i];
            if row.op == op && row.operand == operand {
                assert(prefix_result(row.op, row.operand) == Some(row.result));
                return Ok(row.result);
            }
            assert(!prefix_matches(self.prefix@[i as int], op, operand));
            i = i + 1;
        }
        proof {
            if prefix_result(op, operand) is Some {
                assert(false);
            }
        }
        Err(ResolveError::UnresolvedPrefix(op, operand))
    }
}

} // verus!

verus! {

/// The outcome of looking up an infix signature.
pub open spec fn infix_resolution(op: Infix, lhs: Type, rhs: Type) -> Result<Type, ResolveError> {
    match infix_result(op, lhs, rhs) {
        Some(t) => Ok(t),
        None => Err(ResolveError::UnresolvedInfix(op, lhs, rhs)),
    }
}

/// The outcome of looking up a prefix signature.
pub open spec fn prefix_resolution(op: Prefix, operand: Type) -> Result<Type, ResolveError> {
    match prefix_result(op, operand) {
        Some(t) => Ok(t),
        None => Err(ResolveError::UnresolvedPrefix(op, operand)),
    }
}

} // verus!
