use vstd::prelude::*;
use crate::symbol::SymbolKind;
use crate::symbol_table::{SymbolTable, resolve_spec};
use crate::syntax::{BinaryOperator, Expression};

verus! {

/// How far an expression reduces at elaboration time.
#[derive(Debug, Clone, Copy, PartialEq, Eq, Structural)]
pub enum Evaluated {
    /// Constant, but its value depends on something not yet bound.
    UnknownStatic,
    /// Constant, with this value.
    Fixed { value: u64 },
    /// Depends on the runtime variable or port `symbol`.
    Variable { symbol: usize },
    /// Cannot be analysed.
    Unknown,
}

/// Whether a classification is accepted where an elaboration-time constant is
/// required.
pub open spec fn is_elaborative(e: Evaluated) -> bool {
    e is Fixed || e is UnknownStatic
}

impl Evaluated {
    pub fn is_elaborative(&self) -> (r: bool)
        ensures
            r == is_elaborative(*self),
    {
        match self {
            Evaluated::UnknownStatic | Evaluated::Fixed { .. } => true,
            Evaluated::Variable { .. } | Evaluated::Unknown => false,
        }
    }
}

pub open spec fn wrap_add(a: u64, b: u64) -> u64 {
    if a + b > u64::MAX {
        (a + b - 0x1_0000_0000_0000_0000) as u64
    } else {
        (a + b) as u64
    }
}

pub open spec fn wrap_sub(a: u64, b: u64) -> u64 {
    if a >= b {
        (a - b) as u64
    } else {
        (a - b + 0x1_0000_0000_0000_0000) as u64
    }
}

/// The value of a binary operation on two constants, in 64-bit modular arithmetic.
pub open spec fn apply(op: BinaryOperator, a: u64, b: u64) -> u64 {
    match op {
        BinaryOperator::Add => wrap_add(a, b),
        BinaryOperator::Sub => wrap_sub(a, b),
        BinaryOperator::And => a & b,
        BinaryOperator::Or => a | b,
        BinaryOperator::Xor => a ^ b,
    }
}

/// The classification of a binary operation from those of its operands:
/// unknown dominates, then a runtime variable, then a constant that is not fixed.
pub open spec fn combine(op: BinaryOperator, a: Evaluated, b: Evaluated) -> Evaluated {
    match (a, b) {
        (Evaluated::Unknown, _) => Evaluated::Unknown,
        (_, Evaluated::Unknown) => Evaluated::Unknown,
        (Evaluated::Variable { symbol }, _) => Evaluated::Variable { symbol },
        (_, Evaluated::Variable { symbol }) => Evaluated::Variable { symbol },
        (Evaluated::Fixed { value: x }, Evaluated::Fixed { value: y }) => Evaluated::Fixed { value: apply(op, x, y) },
        _ => Evaluated::UnknownStatic,
    }
}

/// The classification of a reference to symbol `s` followed by `n` selects.
pub open spec fn classify(kind: SymbolKind, s: int, n: nat) -> Evaluated {
    match kind {
        SymbolKind::Parameter(p) => match p.value {
            Some(v) => if n == 0 { Evaluated::Fixed { value: v } } else { Evaluated::UnknownStatic },
            None => Evaluated::UnknownStatic,
        },
        SymbolKind::GenericParameter => Evaluated::UnknownStatic,
        SymbolKind::Port(_) => Evaluated::Variable { symbol: s as usize },
        SymbolKind::Variable(_) => Evaluated::Variable { symbol: s as usize },
        SymbolKind::Module(_) => Evaluated::Unknown,
    }
}

/// The classification of an expression, with identifiers resolved from `scope`.
pub open spec fn evaluate(syms: Seq<crate::symbol::Symbol>, e: Expression, scope: Option<usize>) -> Evaluated
    decreases e,
{
    match e {
        Expression::Number(v) => Evaluated::Fixed { value: v },
        Expression::Identifier(id) => match resolve_spec(syms, id, scope) {
            Some((s, n)) => classify(syms[s].kind, s, n),
            None => Evaluated::Unknown,
        },
        Expression::Binary(a, op, b) => combine(op, evaluate(syms, *a, scope), evaluate(syms, *b, scope)),
        Expression::Opaque => Evaluated::Unknown,
    }
}

/// Reduces expressions to elaboration-time constants where it can.
pub struct Evaluator {}

impl Evaluator {
    pub fn new() -> (r: Evaluator) {
        Evaluator {}
    }

    fn binary(&self, op: BinaryOperator, a: Evaluated, b: Evaluated) -> (r: Evaluated)
        ensures
            r == combine(op, a, b),
    {
        match (a, b) {
            (Evaluated::Unknown, _) => Evaluated::Unknown,
            (_, Evaluated::Unknown) => Evaluated::Unknown,
            (Evaluated::Variable { symbol }, _) => Evaluated::Variable { symbol },
            (_, Evaluated::Variable { symbol }) => Evaluated::Variable { symbol },
            (Evaluated::Fixed { value: x }, Evaluated::Fixed { value: y }) => {
                let value = match op {
                    BinaryOperator::Add => x.wrapping_add(y),
                    BinaryOperator::Sub => x.wrapping_sub(y),
                    BinaryOperator::And => x & y,
                    BinaryOperator::Or => x | y,
                    BinaryOperator::Xor => x ^ y,
                };
                Evaluated::Fixed { value }
            },
            _ => Evaluated::UnknownStatic,
        }
    }

    /// Classifies `e`, resolving its identifiers in `table` from `scope`.
    pub fn expression(&self, e: &Expression, table: &SymbolTable, scope: Option<usize>) -> (r: Evaluated)
        ensures
            r == evaluate(table.symbols@, *e, scope),
        decreases e,
    {
        match e {
            Expression::Number(v) => Evaluated::Fixed { value: *v },
            Expression::Identifier(id) => match table.resolve(id, scope) {
                Ok(found) => {
                    let n = found.n_of_select;
                    match &table.symbols[found.id].kind {
                        SymbolKind::Parameter(p) => match p.value {
                            Some(v) => if n == 0 { Evaluated::Fixed { value: v } } else { Evaluated::UnknownStatic },
                            None => Evaluated::UnknownStatic,
                        },
                        SymbolKind::GenericParameter => Evaluated::UnknownStatic,
                        SymbolKind::Port(_) => Evaluated::Variable { symbol: found.id },
                        SymbolKind::Variable(_) => Evaluated::Variable { symbol: found.id },
                        SymbolKind::Module(_) => Evaluated::Unknown,
                    }
                },
                Err(_) => Evaluated::Unknown,
            },
            Expression::Binary(a, op, b) => {
                let x = self.expression(a, table, scope);
                let y = self.expression(b, table, scope);
                self.binary(*op, x, y)
            },
            Expression::Opaque => Evaluated::Unknown,
        }
    }
}

} // verus!
