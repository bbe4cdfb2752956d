use vstd::prelude::*;
use vstd::string::StringExecFns;
use crate::analyzer_error::AnalyzerError;
use crate::evaluator::{Evaluator, evaluate, is_elaborative};
use crate::symbol::{Symbol, SymbolKind, Type, is_clock_kind, is_reset_kind, selector_count};
use crate::symbol_table::{SymbolTable, name_in_scope, resolve_spec};
use crate::syntax::{
    AlwaysFfDeclaration, Assignment, HierarchicalIdentifier, ModuleDeclaration, has_clock_event,
    has_reset_event, starts_with_if_reset,
};

verus! {

/// Whether a handler is notified on entry to a node or on exit from it.
#[derive(Debug, Clone, Copy, PartialEq, Eq, Structural)]
pub enum HandlerPoint {
    Before,
    After,
}

/// The syntax nodes that the clock/reset rules listen to.
pub enum Node {
    Module(ModuleDeclaration),
    LBrace,
    RBrace,
    IfReset,
    AlwaysFf(AlwaysFfDeclaration),
    AlwaysFfClock(HierarchicalIdentifier),
    AlwaysFfReset(HierarchicalIdentifier),
    Select,
    Dot,
    Assignment(Assignment),
}

/// One notification of a walk.
pub struct Event {
    pub point: HandlerPoint,
    pub node: Node,
}

/// The state of the clock/reset checker.
pub struct CheckState {
    pub text: Seq<char>,
    pub errors: Seq<AnalyzerError>,
    pub point: HandlerPoint,
    pub in_always_ff: bool,
    pub in_if_reset: bool,
    pub if_reset_brace: usize,
    pub if_reset_exist: bool,
    pub n_of_select: usize,
    pub default_clock_exists: bool,
    pub default_reset_exists: bool,
    pub scope: Option<usize>,
}

pub open spec fn inc(n: usize) -> usize {
    if n < usize::MAX { (n + 1) as usize } else { n }
}

/// Whether a type is a clock (`want_clock`) or a reset that `n` selects index
/// down to a scalar.
pub open spec fn valid_type(t: Type, n: usize, want_clock: bool) -> bool {
    (if want_clock { is_clock_kind(t.kind) } else { is_reset_kind(t.kind) }) && n == selector_count(t)
}

/// Whether a symbol is a port or variable whose type is a valid clock (or
/// reset) reference with `n` selects.
pub open spec fn valid_reference(kind: SymbolKind, n: usize, want_clock: bool) -> bool {
    match kind {
        SymbolKind::Port(p) => match p.ty {
            Some(t) => valid_type(t, n, want_clock),
            None => false,
        },
        SymbolKind::Variable(v) => valid_type(v.ty, n, want_clock),
        _ => false,
    }
}

/// The diagnostic for an invalid clock or reset reference.
pub open spec fn invalid_reference_error(id: HierarchicalIdentifier, want_clock: bool) -> AnalyzerError {
    AnalyzerError {
        kind: if want_clock { crate::analyzer_error::ErrorKind::InvalidClock } else { crate::analyzer_error::ErrorKind::InvalidReset },
        identifier: Some(id.name),
        location: id.location,
    }
}

/// The check of a clock or reset reference on leaving it.
pub open spec fn check_reference(s: CheckState, id: HierarchicalIdentifier, syms: Seq<Symbol>, want_clock: bool) -> CheckState {
    match resolve_spec(syms, id, s.scope) {
        Some((sym, _)) => if valid_reference(syms[sym].kind, s.n_of_select, want_clock) {
            s
        } else {
            CheckState { errors: s.errors.push(invalid_reference_error(id, want_clock)), ..s }
        },
        None => s,
    }
}

/// The errors that entering a clocked process adds.
pub open spec fn always_ff_entry_errors(s: CheckState, d: AlwaysFfDeclaration) -> Seq<AnalyzerError> {
    let e1 = if !(s.default_clock_exists || has_clock_event(d)) {
        s.errors.push(AnalyzerError { kind: crate::analyzer_error::ErrorKind::MissingClockSignal, identifier: None, location: d.location })
    } else {
        s.errors
    };
    if has_reset_event(d) && !starts_with_if_reset(d) {
        e1.push(AnalyzerError { kind: crate::analyzer_error::ErrorKind::MissingIfReset, identifier: None, location: d.location })
    } else {
        e1
    }
}

/// The errors that leaving a clocked process adds.
pub open spec fn always_ff_exit_errors(s: CheckState, d: AlwaysFfDeclaration) -> Seq<AnalyzerError> {
    if s.if_reset_exist && !(s.default_reset_exists || has_reset_event(d)) {
        s.errors.push(AnalyzerError { kind: crate::analyzer_error::ErrorKind::MissingResetSignal, identifier: None, location: d.location })
    } else {
        s.errors
    }
}

/// How the checker reacts to `node` at the point held in `s`.
pub open spec fn step_node(s: CheckState, node: Node, syms: Seq<Symbol>) -> CheckState {
    let before = s.point == HandlerPoint::Before;
    match node {
        Node::Module(m) => if before {
            match name_in_scope(syms, None, m.name) {
                Some(i) => match syms[i].kind {
                    SymbolKind::Module(x) => CheckState {
                        default_clock_exists: x.default_clock is Some,
                        default_reset_exists: x.default_reset is Some,
                        scope: Some(i as usize),
                        ..s
                    },
                    _ => s,
                },
                None => s,
            }
        } else {
            CheckState { default_clock_exists: false, default_reset_exists: false, scope: None, ..s }
        },
        Node::LBrace => if before && s.in_if_reset {
            CheckState { if_reset_brace: inc(s.if_reset_brace), ..s }
        } else {
            s
        },
        Node::RBrace => if before && s.in_if_reset {
            let b = if s.if_reset_brace > 0 { (s.if_reset_brace - 1) as usize } else { 0 };
            CheckState { if_reset_brace: b, in_if_reset: b != 0, ..s }
        } else {
            s
        },
        Node::IfReset => if before {
            CheckState { if_reset_exist: true, in_if_reset: true, ..s }
        } else {
            s
        },
        Node::AlwaysFf(d) => if before {
            CheckState { errors: always_ff_entry_errors(s, d), in_always_ff: true, ..s }
        } else {
            CheckState { errors: always_ff_exit_errors(s, d), in_always_ff: false, if_reset_exist: false, ..s }
        },
        Node::AlwaysFfClock(id) => if before {
            CheckState { n_of_select: 0, ..s }
        } else {
            check_reference(s, id, syms, true)
        },
        Node::AlwaysFfReset(id) => if before {
            CheckState { n_of_select: 0, ..s }
        } else {
            check_reference(s, id, syms, false)
        },
        Node::Select => if before {
            CheckState { n_of_select: inc(s.n_of_select), ..s }
        } else {
            s
        },
        Node::Dot => if before {
            CheckState { n_of_select: 0, ..s }
        } else {
            s
        },
        Node::Assignment(a) => if before && s.in_if_reset && !is_elaborative(evaluate(syms, a.expression, s.scope)) {
            CheckState {
                errors: s.errors.push(AnalyzerError {
                    kind: crate::analyzer_error::ErrorKind::InvalidResetNonElaborative,
                    identifier: None,
                    location: a.expression_location,
                }),
                ..s
            }
        } else {
            s
        },
    }
}

/// How the checker reacts to one notification.
pub open spec fn step(s: CheckState, e: Event, syms: Seq<Symbol>) -> CheckState {
    step_node(CheckState { point: e.point, ..s }, e.node, syms)
}

/// The state after a sequence of notifications.
pub open spec fn run(s: CheckState, evs: Seq<Event>, syms: Seq<Symbol>) -> CheckState
    decreases evs.len(),
{
    if evs.len() == 0 {
        s
    } else {
        run(step(s, evs[0], syms), evs.drop_first(), syms)
    }
}

/// Checks clock and reset usage in clocked processes.
pub struct CheckClockReset {
    pub errors: Vec<AnalyzerError>,
    text: String,
    point: HandlerPoint,
    in_always_ff: bool,
    in_if_reset: bool,
    if_reset_brace: usize,
    if_reset_exist: bool,
    n_of_select: usize,
    default_clock_exists: bool,
    default_reset_exists: bool,
    scope: Option<usize>,
    evaluator: Evaluator,
}

impl View for CheckClockReset {
    type V = CheckState;

    closed spec fn view(&self) -> CheckState {
        CheckState {
            text: self.text@,
            errors: self.errors@,
            point: self.point,
            in_always_ff: self.in_always_ff,
            in_if_reset: self.in_if_reset,
            if_reset_brace: self.if_reset_brace,
            if_reset_exist: self.if_reset_exist,
            n_of_select: self.n_of_select,
            default_clock_exists: self.default_clock_exists,
            default_reset_exists: self.default_reset_exists,
            scope: self.scope,
        }
    }
}

/// The state of a fresh checker over the source `text`.
pub open spec fn initial_state(text: Seq<char>) -> CheckState {
    CheckState {
        text,
        errors: Seq::empty(),
        point: HandlerPoint::Before,
        in_always_ff: false,
        in_if_reset: false,
        if_reset_brace: 0,
        if_reset_exist: false,
        n_of_select: 0,
        default_clock_exists: false,
        default_reset_exists: false,
        scope: None,
    }
}

impl CheckClockReset {
    /// A checker for the source `text`, which its diagnostics point into.
    pub fn new(text: &str) -> (r: CheckClockReset)
        ensures
            r@ == initial_state(text@),
    {
        CheckClockReset {
            errors: Vec::new(),
            text: String::from_str(text),
            point: HandlerPoint::Before,
            in_always_ff: false,
            in_if_reset: false,
            if_reset_brace: 0,
            if_reset_exist: false,
            n_of_select: 0,
            default_clock_exists: false,
            default_reset_exists: false,
            scope: None,
            evaluator: Evaluator::new(),
        }
    }

    /// The diagnostics found so far, in order.
    pub fn errors(&self) -> (r: &Vec<AnalyzerError>)
        ensures
            r@ == self@.errors,
    {
        &self.errors
    }

    /// The source text the diagnostics point into.
    pub fn text(&self) -> (r: &str)
        ensures
            r@ == self@.text,
    {
        self.text.as_str()
    }

    pub fn in_if_reset(&self) -> (r: bool)
        ensures
            r == self@.in_if_reset,
    {
        self.in_if_reset
    }

    pub fn if_reset_brace(&self) -> (r: usize)
        ensures
            r == self@.if_reset_brace,
    {
        self.if_reset_brace
    }

    pub fn n_of_select(&self) -> (r: usize)
        ensures
            r == self@.n_of_select,
    {
        self.n_of_select
    }

    pub fn set_point(&mut self, p: HandlerPoint)
        ensures
            final(self)@ == (CheckState { point: p, ..old(self)@ }),
    {
        self.point = p;
    }

    pub fn module_declaration(&mut self, arg: &ModuleDeclaration, table: &SymbolTable)
        ensures
            final(self)@ == step_node(old(self)@, Node::Module(*arg), table.symbols@),
    {
        match self.point {
            HandlerPoint::Before => {
                proof { crate::symbol_table::lemma_name_in_scope_bound(table.symbols@, None, arg.name); }
                if let Some(i) = table.resolve_name(None, arg.name) {
                    if let SymbolKind::Module(x) = &table.symbols[i].kind {
                        self.default_clock_exists = x.default_clock.is_some();
                        self.default_reset_exists = x.default_reset.is_some();
                        self.scope = Some(i);
                    }
                }
            },
            HandlerPoint::After => {
                self.default_clock_exists = false;
                self.default_reset_exists = false;
                self.scope = None;
            },
        }
    }

    pub fn l_brace(&mut self)
        ensures
            final(self)@ == step_node(old(self)@, Node::LBrace, Seq::empty()),
    {
        if let HandlerPoint::Before = self.point {
            if self.in_if_reset && self.if_reset_brace < usize::MAX {
                self.if_reset_brace = self.if_reset_brace + 1;
            }
        }
    }

    pub fn r_brace(&mut self)
        ensures
            final(self)@ == step_node(old(self)@, Node::RBrace, Seq::empty()),
    {
        if let HandlerPoint::Before = self.point {
            if self.in_if_reset {
                if self.if_reset_brace > 0 {
                    self.if_reset_brace = self.if_reset_brace - 1;
                }
                if self.if_reset_brace == 0 {
                    self.in_if_reset = false;
                }
            }
        }
    }

    pub fn if_reset(&mut self)
        ensures
            final(self)@ == step_node(old(self)@, Node::IfReset, Seq::empty()),
    {
        if let HandlerPoint::Before = self.point {
            self.if_reset_exist = true;
            self.in_if_reset = true;
        }
    }

    pub fn always_ff_declaration(&mut self, arg: &AlwaysFfDeclaration)
        ensures
            final(self)@ == step_node(old(self)@, Node::AlwaysFf(*arg), Seq::empty()),
    {
        match self.point {
            HandlerPoint::Before => {
                let clock_signal_exists = arg.has_clock_event();
                if !(self.default_clock_exists || clock_signal_exists) {
                    self.errors.push(AnalyzerError::missing_clock_signal(arg.location));
                }
                if arg.has_reset_event() && !arg.starts_with_if_reset() {
                    self.errors.push(AnalyzerError::missing_if_reset(arg.location));
                }
                self.in_always_ff = true;
            },
            HandlerPoint::After => {
                if self.if_reset_exist {
                    let reset_signal_exists = arg.has_reset_event();
                    if !(self.default_reset_exists || reset_signal_exists) {
                        self.errors.push(AnalyzerError::missing_reset_signal(arg.location));
                    }
                }
                self.in_always_ff = false;
                self.if_reset_exist = false;
            },
        }
    }

    /// Whether symbol `kind` is a clock (or reset) that `n` selects index down
    /// to a scalar.
    fn valid_reference(kind: &SymbolKind, n: usize, want_clock: bool) -> (r: bool)
        ensures
            r == valid_reference(*kind, n, want_clock),
    {
        let t = match kind {
            SymbolKind::Port(p) => match &p.ty {
                Some(t) => t,
                None => return false,
            },
            SymbolKind::Variable(v) => &v.ty,
            _ => return false,
        };
        let kind_ok = if want_clock { t.kind.is_clock() } else { t.kind.is_reset() };
        kind_ok && t.is_fully_selected(n)
    }

    fn check_reference(&mut self, id: &HierarchicalIdentifier, table: &SymbolTable, want_clock: bool)
        ensures
            final(self)@ == check_reference(old(self)@, *id, table.symbols@, want_clock),
    {
        if let Ok(found) = table.resolve(id, self.scope) {
            let valid = Self::valid_reference(&table.symbols[found.id].kind, self.n_of_select, want_clock);
            if !valid {
                if want_clock {
                    self.errors.push(AnalyzerError::invalid_clock(id.name, id.location));
                } else {
                    self.errors.push(AnalyzerError::invalid_reset(id.name, id.location));
                }
            }
        }
    }

    pub fn always_ff_clock(&mut self, arg: &HierarchicalIdentifier, table: &SymbolTable)
        ensures
            final(self)@ == step_node(old(self)@, Node::AlwaysFfClock(*arg), table.symbols@),
    {
        match self.point {
            HandlerPoint::Before => self.n_of_select = 0,
            HandlerPoint::After => self.check_reference(arg, table, true),
        }
    }

    pub fn always_ff_reset(&mut self, arg: &HierarchicalIdentifier, table: &SymbolTable)
        ensures
            final(self)@ == step_node(old(self)@, Node::AlwaysFfReset(*arg), table.symbols@),
    {
        match self.point {
            HandlerPoint::Before => self.n_of_select = 0,
            HandlerPoint::After => self.check_reference(arg, table, false),
        }
    }

    pub fn select(&mut self)
        ensures
            final(self)@ == step_node(old(self)@, Node::Select, Seq::empty()),
    {
        if let HandlerPoint::Before = self.point {
            if self.n_of_select < usize::MAX {
                self.n_of_select = self.n_of_select + 1;
            }
        }
    }

    pub fn dot(&mut self)
        ensures
            final(self)@ == step_node(old(self)@, Node::Dot, Seq::empty()),
    {
        if let HandlerPoint::Before = self.point {
            self.n_of_select = 0;
        }
    }

    pub fn assignment(&mut self, arg: &Assignment, table: &SymbolTable)
        ensures
            final(self)@ == step_node(old(self)@, Node::Assignment(*arg), table.symbols@),
    {
        if let HandlerPoint::Before = self.point {
            if self.in_if_reset {
                let e = self.evaluator.expression(&arg.expression, table, self.scope);
                if !e.is_elaborative() {
                    self.errors.push(AnalyzerError::invalid_reset_non_elaborative(arg.expression_location));
                }
            }
        }
    }
}

} // verus!
