use veryl_front::analyzer_error::ErrorKind;
use veryl_front::check_clock_reset::{CheckClockReset, HandlerPoint};
use veryl_front::evaluator::{Evaluated, Evaluator};
use veryl_front::location::Location;
use veryl_front::symbol::{
    Direction, ModuleProperty, ParameterProperty, PortProperty, SymbolKind, Type, TypeKind,
    VariableProperty,
};
use veryl_front::symbol_table::{DeclareError, ResolutionError, SymbolTable};
use veryl_front::syntax::{
    AlwaysFfDeclaration, AlwaysFfEventList, Assignment, BinaryOperator, Block, Expression,
    HierarchicalIdentifier, IfResetStatement, IfStatement, ModuleDeclaration, Segment, Statement,
};

const TOP: usize = 1;
const CLK: usize = 2;
const RST: usize = 3;
const A: usize = 4;
const B: usize = 5;
const CLKS: usize = 6;
const P: usize = 7;
const G: usize = 8;

fn ty(kind: TypeKind, width: usize, array: usize) -> Type {
    let mut w = Vec::new();
    for _ in 0..width {
        w.push(Expression::Number(8));
    }
    let mut a = Vec::new();
    for _ in 0..array {
        a.push(Expression::Number(4));
    }
    Type { kind, width: w, array: a }
}

fn port(kind: TypeKind, width: usize, array: usize) -> SymbolKind {
    SymbolKind::Port(PortProperty { direction: Direction::Input, ty: Some(ty(kind, width, array)) })
}

fn var(kind: TypeKind, width: usize, array: usize) -> SymbolKind {
    SymbolKind::Variable(VariableProperty { ty: ty(kind, width, array) })
}

/// A module `top` with clock port `clk`, reset port `rst`, logic `a`, `b`,
/// a two-dimensional array of clocks `clks`, a parameter `p` = 3 and a
/// generic parameter `g`.
fn table(default_clock: bool, default_reset: bool) -> SymbolTable {
    let mut t = SymbolTable::new();
    let m = t
        .declare(TOP, None, SymbolKind::Module(ModuleProperty { default_clock: None, default_reset: None, ports: Vec::new() }))
        .unwrap();
    let clk = t.declare(CLK, Some(m), port(TypeKind::ClockPosedge, 0, 0)).unwrap();
    let rst = t.declare(RST, Some(m), port(TypeKind::ResetAsyncLow, 0, 0)).unwrap();
    t.declare(A, Some(m), var(TypeKind::Logic, 1, 0)).unwrap();
    t.declare(B, Some(m), var(TypeKind::Logic, 1, 0)).unwrap();
    t.declare(CLKS, Some(m), var(TypeKind::Clock, 0, 2)).unwrap();
    t.declare(P, Some(m), SymbolKind::Parameter(ParameterProperty { value: Some(3) })).unwrap();
    t.declare(G, Some(m), SymbolKind::GenericParameter).unwrap();
    if let SymbolKind::Module(x) = &mut t.symbols[m].kind {
        x.ports = vec![clk, rst];
        if default_clock {
            x.default_clock = Some(clk);
        }
        if default_reset {
            x.default_reset = Some(rst);
        }
    }
    t
}

fn loc(line: u32, column: u32) -> Location {
    Location::new(line, column, 1)
}

fn ident(name: usize, selects: usize) -> HierarchicalIdentifier {
    let mut segments = Vec::new();
    for _ in 0..selects {
        segments.push(Segment::Select(Expression::Number(0)));
    }
    HierarchicalIdentifier { name, location: loc(2, 11), segments }
}

fn assign(target: usize, e: Expression, line: u32) -> Statement {
    Statement::Assignment(Assignment { target: ident(target, 0), expression: e, expression_location: loc(line, 9) })
}

fn events(clock: Option<HierarchicalIdentifier>, reset: Option<HierarchicalIdentifier>) -> Option<AlwaysFfEventList> {
    clock.map(|c| AlwaysFfEventList { clock: c, reset })
}

fn always_ff(event_list: Option<AlwaysFfEventList>, statements: Vec<Statement>) -> AlwaysFfDeclaration {
    AlwaysFfDeclaration { event_list, body: Block { statements }, location: loc(2, 5) }
}

fn check(t: &SymbolTable, ffs: Vec<AlwaysFfDeclaration>) -> Vec<veryl_front::analyzer_error::AnalyzerError> {
    let m = ModuleDeclaration { name: TOP, location: loc(1, 1), always_ffs: ffs };
    let mut c = CheckClockReset::new("");
    c.walk_module(&m, t);
    c.errors
}

#[test]
fn posedge_clock_without_reset_is_clean() {
    let t = table(false, false);
    let errs = check(&t, vec![always_ff(events(Some(ident(CLK, 0)), None), vec![assign(A, Expression::Number(1), 3)])]);
    assert!(errs.is_empty());
}

#[test]
fn reset_event_without_if_reset_first() {
    let t = table(false, false);
    let errs = check(
        &t,
        vec![always_ff(events(Some(ident(CLK, 0)), Some(ident(RST, 0))), vec![assign(A, Expression::Number(1), 3)])],
    );
    assert_eq!(errs.len(), 1);
    assert_eq!(errs[0].kind, ErrorKind::MissingIfReset);
    assert_eq!(errs[0].location, loc(2, 5));
}

#[test]
fn reset_from_runtime_variable() {
    let t = table(false, false);
    let body = vec![Statement::IfReset(IfResetStatement {
        body: Block { statements: vec![assign(A, Expression::Identifier(ident(B, 0)), 4)] },
        else_body: Some(Block { statements: vec![assign(A, Expression::Identifier(ident(B, 0)), 6)] }),
    })];
    let errs = check(&t, vec![always_ff(events(Some(ident(CLK, 0)), Some(ident(RST, 0))), body)]);
    assert_eq!(errs.len(), 1);
    assert_eq!(errs[0].kind, ErrorKind::InvalidResetNonElaborative);
    assert_eq!(errs[0].location, loc(4, 9));
}

#[test]
fn partially_indexed_clock_array() {
    let t = table(false, false);
    let errs = check(&t, vec![always_ff(events(Some(ident(CLKS, 1)), None), vec![])]);
    assert_eq!(errs.len(), 1);
    assert_eq!(errs[0].kind, ErrorKind::InvalidClock);
    assert_eq!(errs[0].identifier, Some(CLKS));
    assert_eq!(errs[0].location, loc(2, 11));
}

#[test]
fn fully_indexed_clock_array_is_valid() {
    let t = table(false, false);
    assert!(check(&t, vec![always_ff(events(Some(ident(CLKS, 2)), None), vec![])]).is_empty());
}

#[test]
fn over_indexed_clock_and_reset() {
    let t = table(false, false);
    let errs = check(
        &t,
        vec![always_ff(
            events(Some(ident(CLK, 1)), Some(ident(RST, 2))),
            vec![Statement::IfReset(IfResetStatement { body: Block { statements: vec![] }, else_body: None })],
        )],
    );
    assert_eq!(errs.len(), 2);
    assert_eq!(errs[0].kind, ErrorKind::InvalidClock);
    assert_eq!(errs[1].kind, ErrorKind::InvalidReset);
    assert_eq!(errs[1].identifier, Some(RST));
}

#[test]
fn clock_of_wrong_kind() {
    let t = table(false, false);
    let errs = check(&t, vec![always_ff(events(Some(ident(RST, 0)), Some(ident(CLK, 0))), vec![
        Statement::IfReset(IfResetStatement { body: Block { statements: vec![] }, else_body: None }),
    ])]);
    assert_eq!(errs.len(), 2);
    assert_eq!(errs[0].kind, ErrorKind::InvalidClock);
    assert_eq!(errs[1].kind, ErrorKind::InvalidReset);
}

#[test]
fn unresolved_clock_reports_nothing() {
    let t = table(false, false);
    assert!(check(&t, vec![always_ff(events(Some(ident(99, 0)), None), vec![])]).is_empty());
}

#[test]
fn missing_clock_without_default() {
    let t = table(false, false);
    let errs = check(&t, vec![always_ff(None, vec![assign(A, Expression::Number(0), 3)])]);
    assert_eq!(errs.len(), 1);
    assert_eq!(errs[0].kind, ErrorKind::MissingClockSignal);
}

#[test]
fn default_clock_is_inherited() {
    let t = table(true, false);
    assert!(check(&t, vec![always_ff(None, vec![assign(A, Expression::Number(0), 3)])]).is_empty());
}

#[test]
fn missing_reset_signal_for_if_reset() {
    let t = table(false, false);
    let body = vec![Statement::IfReset(IfResetStatement {
        body: Block { statements: vec![assign(A, Expression::Number(0), 4)] },
        else_body: None,
    })];
    let errs = check(&t, vec![always_ff(events(Some(ident(CLK, 0)), None), body)]);
    assert_eq!(errs.len(), 1);
    assert_eq!(errs[0].kind, ErrorKind::MissingResetSignal);
    let t2 = table(false, true);
    let body2 = vec![Statement::IfReset(IfResetStatement {
        body: Block { statements: vec![assign(A, Expression::Number(0), 4)] },
        else_body: None,
    })];
    assert!(check(&t2, vec![always_ff(events(Some(ident(CLK, 0)), None), body2)]).is_empty());
}

#[test]
fn elaborative_reset_values_pass() {
    let t = table(false, false);
    let sum = Expression::Binary(
        Box::new(Expression::Identifier(ident(P, 0))),
        BinaryOperator::Add,
        Box::new(Expression::Number(1)),
    );
    let body = vec![Statement::IfReset(IfResetStatement {
        body: Block {
            statements: vec![
                assign(A, Expression::Number(0), 4),
                assign(A, sum, 5),
                assign(B, Expression::Identifier(ident(G, 0)), 6),
                assign(B, Expression::Opaque, 7),
            ],
        },
        else_body: None,
    })];
    let errs = check(&t, vec![always_ff(events(Some(ident(CLK, 0)), Some(ident(RST, 0))), body)]);
    assert_eq!(errs.len(), 1);
    assert_eq!(errs[0].kind, ErrorKind::InvalidResetNonElaborative);
    assert_eq!(errs[0].location, loc(7, 9));
}

#[test]
fn evaluator_classifies() {
    let t = table(false, false);
    let ev = Evaluator::new();
    let m = Some(0);
    assert_eq!(ev.expression(&Expression::Number(5), &t, m), Evaluated::Fixed { value: 5 });
    let e = Expression::Binary(Box::new(Expression::Identifier(ident(P, 0))), BinaryOperator::Sub, Box::new(Expression::Number(4)));
    assert_eq!(ev.expression(&e, &t, m), Evaluated::Fixed { value: u64::MAX });
    let e = Expression::Binary(Box::new(Expression::Number(6)), BinaryOperator::And, Box::new(Expression::Number(3)));
    assert_eq!(ev.expression(&e, &t, m), Evaluated::Fixed { value: 2 });
    assert_eq!(ev.expression(&Expression::Identifier(ident(G, 0)), &t, m), Evaluated::UnknownStatic);
    assert_eq!(ev.expression(&Expression::Identifier(ident(B, 0)), &t, m), Evaluated::Variable { symbol: 4 });
    assert_eq!(ev.expression(&Expression::Identifier(ident(99, 0)), &t, m), Evaluated::Unknown);
    let e = Expression::Binary(Box::new(Expression::Identifier(ident(B, 0))), BinaryOperator::Or, Box::new(Expression::Opaque));
    assert_eq!(ev.expression(&e, &t, m), Evaluated::Unknown);
    assert!(Evaluated::UnknownStatic.is_elaborative());
    assert!(!Evaluated::Variable { symbol: 1 }.is_elaborative());
}

#[test]
fn nested_blocks_close_if_reset_once() {
    let mut c = CheckClockReset::new("");
    let press = |c: &mut CheckClockReset, f: &dyn Fn(&mut CheckClockReset)| {
        c.set_point(HandlerPoint::Before);
        f(c);
        c.set_point(HandlerPoint::After);
        f(c);
    };
    press(&mut c, &|c| c.if_reset());
    assert!(c.in_if_reset());
    press(&mut c, &|c| c.l_brace());
    press(&mut c, &|c| c.l_brace());
    press(&mut c, &|c| c.l_brace());
    assert_eq!(c.if_reset_brace(), 3);
    press(&mut c, &|c| c.r_brace());
    press(&mut c, &|c| c.r_brace());
    assert!(c.in_if_reset());
    press(&mut c, &|c| c.r_brace());
    assert!(!c.in_if_reset());
    assert_eq!(c.if_reset_brace(), 0);
    press(&mut c, &|c| c.r_brace());
    press(&mut c, &|c| c.l_brace());
    assert_eq!(c.if_reset_brace(), 0);
}

#[test]
fn nested_if_inside_if_reset_keeps_checking() {
    let t = table(false, false);
    let inner = Statement::If(IfStatement {
        condition: Expression::Number(1),
        body: Block { statements: vec![assign(A, Expression::Number(0), 5)] },
        else_body: Some(Block { statements: vec![] }),
    });
    let body = vec![
        Statement::IfReset(IfResetStatement {
            body: Block { statements: vec![inner, assign(A, Expression::Identifier(ident(B, 0)), 8)] },
            else_body: None,
        }),
        assign(A, Expression::Identifier(ident(B, 0)), 10),
    ];
    let errs = check(&t, vec![always_ff(events(Some(ident(CLK, 0)), Some(ident(RST, 0))), body)]);
    assert_eq!(errs.len(), 1);
    assert_eq!(errs[0].location, loc(8, 9));
}

#[test]
fn select_and_dot_counting() {
    let mut c = CheckClockReset::new("");
    c.set_point(HandlerPoint::Before);
    c.select();
    c.select();
    assert_eq!(c.n_of_select(), 2);
    c.dot();
    assert_eq!(c.n_of_select(), 0);
    c.set_point(HandlerPoint::After);
    c.select();
    assert_eq!(c.n_of_select(), 0);
}

#[test]
fn declare_and_resolve() {
    let mut t = table(false, false);
    assert_eq!(t.declare(A, Some(0), var(TypeKind::Logic, 0, 0)), Ok(3));
    assert_eq!(t.declare(A, Some(0), SymbolKind::GenericParameter), Err(DeclareError::DuplicateDeclaration));
    assert_eq!(t.declare(A, Some(42), SymbolKind::GenericParameter), Err(DeclareError::UnknownScope));
    let n = t.len();
    assert_eq!(t.declare(A, None, SymbolKind::GenericParameter), Ok(n));
    // innermost scope first, then outward
    assert_eq!(t.resolve_name(Some(0), A), Some(3));
    assert_eq!(t.resolve_name(Some(1), A), Some(3));
    assert_eq!(t.resolve_name(None, A), Some(n));
    assert_eq!(t.resolve_name(None, CLK), None);
    // a dot moves into the members of the symbol; selects are counted after it
    let id = HierarchicalIdentifier {
        name: TOP,
        location: loc(1, 1),
        segments: vec![Segment::Select(Expression::Number(0)), Segment::Dot(CLKS), Segment::Select(Expression::Number(1))],
    };
    let r = t.resolve(&id, None).unwrap();
    assert_eq!((r.id, r.n_of_select), (5, 1));
    let bad = HierarchicalIdentifier { name: TOP, location: loc(1, 1), segments: vec![Segment::Dot(99)] };
    assert_eq!(t.resolve(&bad, None), Err(ResolutionError::UnresolvedIdentifier));
}

#[test]
fn type_selector_count() {
    let t = ty(TypeKind::Clock, 1, 2);
    assert_eq!(t.selector_count(), Some(3));
    assert!(t.is_fully_selected(3));
    assert!(!t.is_fully_selected(2));
    assert!(!t.is_fully_selected(4));
    assert!(TypeKind::ClockNegedge.is_clock());
    assert!(!TypeKind::ResetSyncHigh.is_clock());
    assert!(TypeKind::ResetSyncHigh.is_reset());
}

#[test]
fn checker_keeps_text_and_messages() {
    let t = table(false, false);
    let m = ModuleDeclaration {
        name: TOP,
        location: loc(1, 1),
        always_ffs: vec![always_ff(events(Some(ident(CLKS, 1)), None), vec![])],
    };
    let mut c = CheckClockReset::new("module top {}");
    c.walk_module(&m, &t);
    assert_eq!(c.text(), "module top {}");
    assert_eq!(c.errors().len(), 1);
    assert_eq!(c.errors()[0].message(), "is not a valid clock");
    assert_eq!(
        veryl_front::analyzer_error::AnalyzerError::missing_clock_signal(loc(1, 1)).message(),
        "clock signal is required for always_ff statement"
    );
}
