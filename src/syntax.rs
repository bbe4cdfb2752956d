use vstd::prelude::*;
use crate::location::Location;

verus! {

/// A binary operator of a constant expression.
#[derive(Debug, Clone, Copy, PartialEq, Eq, Structural)]
pub enum BinaryOperator {
    Add,
    Sub,
    And,
    Or,
    Xor,
}

/// An expression of the syntax tree.
pub enum Expression {
    /// A number literal.
    Number(u64),
    /// A reference to a declared entity.
    Identifier(HierarchicalIdentifier),
    /// A binary operation.
    Binary(Box<Expression>, BinaryOperator, Box<Expression>),
    /// A construct that the evaluator does not analyse (a function call, a concatenation).
    Opaque,
}

/// One step of a hierarchical identifier after its first name.
pub enum Segment {
    /// An index-select `[e]`.
    Select(Expression),
    /// A scope-dot `.name`.
    Dot(usize),
}

/// A path from a starting scope down to a leaf entity: a first name followed
/// by index-selects and scope-dots.
pub struct HierarchicalIdentifier {
    pub name: usize,
    pub location: Location,
    pub segments: Vec<Segment>,
}

/// An assignment statement.
pub struct Assignment {
    pub target: HierarchicalIdentifier,
    pub expression: Expression,
    /// Span of the right-hand side.
    pub expression_location: Location,
}

/// A braced block of statements.
pub struct Block {
    pub statements: Vec<Statement>,
}

/// The conditional that handles the reset state inside a clocked process.
pub struct IfResetStatement {
    pub body: Block,
    pub else_body: Option<Block>,
}

/// An ordinary conditional.
pub struct IfStatement {
    pub condition: Expression,
    pub body: Block,
    pub else_body: Option<Block>,
}

/// A statement of a clocked process.
pub enum Statement {
    Assignment(Assignment),
    IfReset(IfResetStatement),
    If(IfStatement),
}

/// The event list of a clocked process: the clock and, optionally, the reset.
pub struct AlwaysFfEventList {
    pub clock: HierarchicalIdentifier,
    pub reset: Option<HierarchicalIdentifier>,
}

/// A clocked process.
pub struct AlwaysFfDeclaration {
    pub event_list: Option<AlwaysFfEventList>,
    pub body: Block,
    pub location: Location,
}

/// A module: its name and its clocked processes.
pub struct ModuleDeclaration {
    pub name: usize,
    pub location: Location,
    pub always_ffs: Vec<AlwaysFfDeclaration>,
}

/// Whether a clocked process declares an explicit clock event.
pub open spec fn has_clock_event(d: AlwaysFfDeclaration) -> bool {
    d.event_list is Some
}

/// Whether a clocked process declares a reset event.
pub open spec fn has_reset_event(d: AlwaysFfDeclaration) -> bool {
    d.event_list matches Some(ev) && ev.reset is Some
}

/// Whether the first statement of a clocked process is an `if_reset`.
pub open spec fn starts_with_if_reset(d: AlwaysFfDeclaration) -> bool {
    d.body.statements@.len() > 0 && d.body.statements@[0] is IfReset
}

impl AlwaysFfDeclaration {
    pub fn has_clock_event(&self) -> (r: bool)
        ensures
            r == has_clock_event(*self),
    {
        self.event_list.is_some()
    }

    pub fn has_reset_event(&self) -> (r: bool)
        ensures
            r == has_reset_event(*self),
    {
        match &self.event_list {
            Some(ev) => ev.reset.is_some(),
            None => false,
        }
    }

    pub fn starts_with_if_reset(&self) -> (r: bool)
        ensures
            r == starts_with_if_reset(*self),
    {
        if self.body.statements.len() == 0 {
            false
        } else {
            match &self.body.statements[0] {
                Statement::IfReset(_) => true,
                _ => false,
            }
        }
    }
}

} // verus!
