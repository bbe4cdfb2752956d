use vstd::prelude::*;
use crate::syntax::Expression;

verus! {

/// The kind tag of a declared type.
#[derive(Debug, Clone, Copy, PartialEq, Eq, Structural)]
pub enum TypeKind {
    Logic,
    Clock,
    ClockPosedge,
    ClockNegedge,
    Reset,
    ResetAsyncHigh,
    ResetAsyncLow,
    ResetSyncHigh,
    ResetSyncLow,
    UserDefined,
    Generic,
}

/// Whether the kind is one of the clock variants.
pub open spec fn is_clock_kind(k: TypeKind) -> bool {
    k is Clock || k is ClockPosedge || k is ClockNegedge
}

/// Whether the kind is one of the reset variants.
pub open spec fn is_reset_kind(k: TypeKind) -> bool {
    k is Reset || k is ResetAsyncHigh || k is ResetAsyncLow || k is ResetSyncHigh
        || k is ResetSyncLow
}

impl TypeKind {
    pub fn is_clock(&self) -> (r: bool)
        ensures
            r == is_clock_kind(*self),
    {
        match self {
            TypeKind::Clock | TypeKind::ClockPosedge | TypeKind::ClockNegedge => true,
            _ => false,
        }
    }

    pub fn is_reset(&self) -> (r: bool)
        ensures
            r == is_reset_kind(*self),
    {
        match self {
            TypeKind::Reset | TypeKind::ResetAsyncHigh | TypeKind::ResetAsyncLow
            | TypeKind::ResetSyncHigh | TypeKind::ResetSyncLow => true,
            _ => false,
        }
    }
}

/// A declared type: its kind with bit-width dimensions and array dimensions.
pub struct Type {
    pub kind: TypeKind,
    pub width: Vec<Expression>,
    pub array: Vec<Expression>,
}

/// Number of index operations needed to reach a scalar of the type.
pub open spec fn selector_count(t: Type) -> nat {
    t.width@.len() + t.array@.len()
}

impl Type {
    /// The selector count of the type, when it fits in a `usize`.
    pub fn selector_count(&self) -> (r: Option<usize>)
        ensures
            r matches Some(n) ==> n == selector_count(*self),
            r is None <==> selector_count(*self) > usize::MAX,
    {
        self.width.len().checked_add(self.array.len())
    }

    /// Whether `n` index operations reach exactly a scalar of the type.
    pub fn is_fully_selected(&self, n: usize) -> (r: bool)
        ensures
            r == (n == selector_count(*self)),
    {
        n >= self.width.len() && n - self.width.len() == self.array.len()
    }
}

/// Direction of a port.
#[derive(Debug, Clone, Copy, PartialEq, Eq, Structural)]
pub enum Direction {
    Input,
    Output,
    Inout,
    Ref,
    Modport,
}

/// A module: its default clock and reset, when declared, and its ports.
pub struct ModuleProperty {
    pub default_clock: Option<usize>,
    pub default_reset: Option<usize>,
    pub ports: Vec<usize>,
}

/// A port: its direction and, once resolved, its type.
pub struct PortProperty {
    pub direction: Direction,
    pub ty: Option<Type>,
}

/// A variable and its type.
pub struct VariableProperty {
    pub ty: Type,
}

/// An elaboration-time parameter and its value, when it is known.
pub struct ParameterProperty {
    pub value: Option<u64>,
}

/// What a symbol declares, with the data of that kind.
pub enum SymbolKind {
    Module(ModuleProperty),
    Port(PortProperty),
    Variable(VariableProperty),
    Parameter(ParameterProperty),
    GenericParameter,
}

/// The variant of a symbol kind, without its data.
pub open spec fn kind_tag(k: SymbolKind) -> nat {
    match k {
        SymbolKind::Module(_) => 0,
        SymbolKind::Port(_) => 1,
        SymbolKind::Variable(_) => 2,
        SymbolKind::Parameter(_) => 3,
        SymbolKind::GenericParameter => 4,
    }
}

impl SymbolKind {
    pub fn same_kind(&self, other: &SymbolKind) -> (r: bool)
        ensures
            r == (kind_tag(*self) == kind_tag(*other)),
    {
        let a: u8 = match self {
            SymbolKind::Module(_) => 0,
            SymbolKind::Port(_) => 1,
            SymbolKind::Variable(_) => 2,
            SymbolKind::Parameter(_) => 3,
            SymbolKind::GenericParameter => 4,
        };
        let b: u8 = match other {
            SymbolKind::Module(_) => 0,
            SymbolKind::Port(_) => 1,
            SymbolKind::Variable(_) => 2,
            SymbolKind::Parameter(_) => 3,
            SymbolKind::GenericParameter => 4,
        };
        a == b
    }
}

/// A declaration: its name (an interned string id), the symbol whose members
/// it belongs to (`None` at project level), and its kind.
pub struct Symbol {
    pub name: usize,
    pub scope: Option<usize>,
    pub kind: SymbolKind,
}

} // verus!
