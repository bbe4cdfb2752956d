use vstd::prelude::*;
use crate::analyzer_error::{AnalyzerError, ErrorKind};
use crate::check_clock_reset::{
    CheckState, Event, HandlerPoint, Node, invalid_reference_error, run, step, valid_reference,
};
use crate::evaluator::{evaluate, is_elaborative};
use crate::symbol::{Symbol, SymbolKind};
use crate::symbol_table::{name_in_scope, resolve_segments, resolve_spec};
use crate::syntax::{AlwaysFfDeclaration, Assignment, HierarchicalIdentifier, ModuleDeclaration, Segment, has_clock_event};
use crate::walker::{around, clock_events, leaf, lemma_run_concat, lemma_run_leaf, lemma_run_one, segment_events};

verus! {

/// The number of selects after the last dot of a path, counting on from `c`
/// while no dot has been seen.
pub open spec fn selects_after_last_dot(c: nat, segs: Seq<Segment>) -> nat
    decreases segs.len(),
{
    if segs.len() == 0 {
        c
    } else {
        match segs[0] {
            Segment::Select(_) => selects_after_last_dot(c + 1, segs.drop_first()),
            Segment::Dot(_) => selects_after_last_dot(0, segs.drop_first()),
        }
    }
}

proof fn lemma_selects_last(c: nat, segs: Seq<Segment>)
    requires
        segs.len() > 0,
    ensures
        selects_after_last_dot(c, segs) == match segs.last() {
            Segment::Select(_) => selects_after_last_dot(c, segs.drop_last()) + 1,
            Segment::Dot(_) => 0,
        },
    decreases segs.len(),
{
    assert(segs.drop_last().len() > 0 ==> segs.drop_last()[0] == segs[0]);
    assert(segs.drop_last().len() > 0 ==> segs.drop_last().drop_first() =~= segs.drop_first().drop_last());
    let c2: nat = match segs[0] {
        Segment::Select(_) => c + 1,
        Segment::Dot(_) => 0,
    };
    let df = segs.drop_first();
    assert(selects_after_last_dot(c, segs) == selects_after_last_dot(c2, df));
    if segs.len() > 1 {
        lemma_selects_last(c2, df);
        assert(df.drop_last() =~= segs.drop_last().drop_first());
        assert(df.last() == segs.last());
        assert(selects_after_last_dot(c, segs.drop_last()) == selects_after_last_dot(c2, segs.drop_last().drop_first()));
    } else {
        assert(df.len() == 0);
        assert(segs.last() == segs[0]);
        assert(selects_after_last_dot(c2, df) == c2);
        assert(selects_after_last_dot(c, segs.drop_last()) == c);
    }
}

proof fn lemma_selects_bound(c: nat, segs: Seq<Segment>)
    ensures
        selects_after_last_dot(c, segs) <= c + segs.len(),
    decreases segs.len(),
{
    if segs.len() > 0 {
        let c2: nat = match segs[0] {
            Segment::Select(_) => c + 1,
            Segment::Dot(_) => 0,
        };
        lemma_selects_bound(c2, segs.drop_first());
    }
}

/// Resolution counts the selects after the last dot.
proof fn lemma_resolve_counts_selects(syms: Seq<Symbol>, cur: int, c: nat, segs: Seq<Segment>)
    ensures
        resolve_segments(syms, cur, c, segs) matches Some((_, k)) ==> k == selects_after_last_dot(c, segs),
    decreases segs.len(),
{
    if segs.len() > 0 {
        match segs[0] {
            Segment::Select(_) => lemma_resolve_counts_selects(syms, cur, c + 1, segs.drop_first()),
            Segment::Dot(n) => match crate::symbol_table::find_in(syms, Some(cur as usize), n) {
                Some(j) => lemma_resolve_counts_selects(syms, j, 0, segs.drop_first()),
                None => {},
            },
        }
    }
}

/// Walking the selects and dots of a path leaves the checker's count at the
/// selects after the last dot, and touches nothing but the count and the point.
proof fn lemma_segments_count(s: CheckState, segs: Seq<Segment>, syms: Seq<Symbol>)
    requires
        s.n_of_select + segs.len() <= usize::MAX,
    ensures
        run(s, segment_events(segs), syms).n_of_select == selects_after_last_dot(s.n_of_select as nat, segs),
        run(s, segment_events(segs), syms).errors == s.errors,
        run(s, segment_events(segs), syms).scope == s.scope,
        run(s, segment_events(segs), syms).in_if_reset == s.in_if_reset,
        run(s, segment_events(segs), syms).if_reset_brace == s.if_reset_brace,
    decreases segs.len(),
{
    if segs.len() > 0 {
        let n = match segs.last() {
            Segment::Select(_) => Node::Select,
            Segment::Dot(_) => Node::Dot,
        };
        lemma_segments_count(s, segs.drop_last(), syms);
        lemma_selects_last(s.n_of_select as nat, segs);
        lemma_selects_bound(s.n_of_select as nat, segs.drop_last());
        lemma_run_concat(s, segment_events(segs.drop_last()), leaf(n), syms);
        lemma_run_leaf(run(s, segment_events(segs.drop_last()), syms), n, syms);
    }
}

/// A clock (`clock`) or reset reference that resolves is accepted exactly
/// when it names a port or variable of a clock (reset) type and the selects
/// after its last name index that type down to a scalar; otherwise the walk
/// over it records one diagnostic naming the identifier.
pub proof fn lemma_reference_selector_count(s: CheckState, id: HierarchicalIdentifier, syms: Seq<Symbol>, clock: bool)
    requires
        id.segments@.len() <= usize::MAX,
    ensures
        ({
            let evs = around(if clock { Node::AlwaysFfClock(id) } else { Node::AlwaysFfReset(id) }, segment_events(id.segments@));
            let r = run(s, evs, syms);
            match resolve_spec(syms, id, s.scope) {
                Some((sym, n)) => r.errors == if valid_reference(syms[sym].kind, n as usize, clock) {
                    s.errors
                } else {
                    s.errors.push(invalid_reference_error(id, clock))
                },
                None => r.errors == s.errors,
            }
        }),
{
    let node = if clock { Node::AlwaysFfClock(id) } else { Node::AlwaysFfReset(id) };
    let e0 = Event { point: HandlerPoint::Before, node };
    let e1 = Event { point: HandlerPoint::After, node };
    let segs = id.segments@;
    assert(around(node, segment_events(segs)) =~= seq![e0] + segment_events(segs) + seq![e1]);
    lemma_run_concat(s, seq![e0] + segment_events(segs), seq![e1], syms);
    lemma_run_concat(s, seq![e0], segment_events(segs), syms);
    lemma_run_one(s, e0, syms);
    let s1 = step(s, e0, syms);
    assert(s1.n_of_select == 0);
    lemma_segments_count(s1, segs, syms);
    let s2 = run(s1, segment_events(segs), syms);
    lemma_run_one(s2, e1, syms);
    if let Some(i) = name_in_scope(syms, s.scope, id.name) {
        crate::symbol_table::lemma_name_in_scope_bound(syms, s.scope, id.name);
        lemma_resolve_counts_selects(syms, i, 0, segs);
        lemma_selects_bound(0, segs);
    }
}

/// Entering a clocked process reports a missing clock exactly when the
/// process has no clock event and the module gives no default clock.
pub proof fn lemma_default_clock_inheritance(s: CheckState, d: AlwaysFfDeclaration, syms: Seq<Symbol>)
    ensures
        ({
            let r = step(s, Event { point: HandlerPoint::Before, node: Node::AlwaysFf(d) }, syms);
            &&& r.errors.len() >= s.errors.len()
            &&& r.errors.subrange(0, s.errors.len() as int) == s.errors
            &&& (s.default_clock_exists || has_clock_event(d)) ==> forall|k: int| s.errors.len() <= k < r.errors.len()
                ==> (#[trigger] r.errors[k]).kind != ErrorKind::MissingClockSignal
            &&& (!s.default_clock_exists && !has_clock_event(d)) ==> r.errors.len() > s.errors.len()
                && r.errors[s.errors.len() as int] == (AnalyzerError { kind: ErrorKind::MissingClockSignal, identifier: None, location: d.location })
        }),
{
    let r = step(s, Event { point: HandlerPoint::Before, node: Node::AlwaysFf(d) }, syms);
    assert(r.errors.subrange(0, s.errors.len() as int) =~= s.errors);
}

/// Entering a module that resolves to a module symbol makes its default
/// clock and reset the ones in force; leaving it clears them.
pub proof fn lemma_module_defaults(s: CheckState, m: ModuleDeclaration, syms: Seq<Symbol>)
    ensures
        ({
            let r = step(s, Event { point: HandlerPoint::Before, node: Node::Module(m) }, syms);
            match name_in_scope(syms, None, m.name) {
                Some(i) => match syms[i].kind {
                    SymbolKind::Module(x) => r.default_clock_exists == (x.default_clock is Some)
                        && r.default_reset_exists == (x.default_reset is Some),
                    _ => true,
                },
                None => true,
            }
        }),
        !step(s, Event { point: HandlerPoint::After, node: Node::Module(m) }, syms).default_clock_exists,
        !step(s, Event { point: HandlerPoint::After, node: Node::Module(m) }, syms).default_reset_exists,
{
    crate::symbol_table::lemma_name_in_scope_bound(syms, None, m.name);
}

/// Inside an `if_reset`, an assignment whose right-hand side is fixed or
/// statically unknown records nothing; one that depends on a runtime variable
/// or cannot be analysed records exactly one diagnostic at that right-hand side.
pub proof fn lemma_reset_assignment_elaborative(s: CheckState, a: Assignment, syms: Seq<Symbol>)
    requires
        s.in_if_reset,
    ensures
        run(s, leaf(Node::Assignment(a)), syms).errors == if is_elaborative(evaluate(syms, a.expression, s.scope)) {
            s.errors
        } else {
            s.errors.push(AnalyzerError { kind: ErrorKind::InvalidResetNonElaborative, identifier: None, location: a.expression_location })
        },
{
    lemma_run_leaf(s, Node::Assignment(a), syms);
}

/// Every prefix of `evs` run from `s` leaves the checker inside the
/// `if_reset` with a brace depth of at least `d`.
pub open spec fn stays_in_if_reset(s: CheckState, evs: Seq<Event>, d: usize, syms: Seq<Symbol>) -> bool {
    forall|k: int| 0 <= k <= evs.len() ==> {
        let t = #[trigger] run(s, evs.take(k), syms);
        t.in_if_reset && t.if_reset_brace >= d
    }
}

proof fn lemma_stays_concat(s: CheckState, a: Seq<Event>, b: Seq<Event>, d: usize, syms: Seq<Symbol>)
    requires
        stays_in_if_reset(s, a, d, syms),
        stays_in_if_reset(run(s, a, syms), b, d, syms),
    ensures
        stays_in_if_reset(s, a + b, d, syms),
{
    assert forall|k: int| 0 <= k <= (a + b).len() implies {
        let t = #[trigger] run(s, (a + b).take(k), syms);
        t.in_if_reset && t.if_reset_brace >= d
    } by {
        if k <= a.len() {
            assert((a + b).take(k) =~= a.take(k));
            assert(run(s, a.take(k), syms) == run(s, a.take(k), syms));
        } else {
            assert((a + b).take(k) =~= a + b.take(k - a.len()));
            lemma_run_concat(s, a, b.take(k - a.len()), syms);
            assert(a.take(a.len() as int) =~= a);
            assert(run(run(s, a, syms), b.take(k - a.len()), syms) == run(run(s, a, syms), b.take(k - a.len()), syms));
        }
    }
}

proof fn lemma_stays_leaf(s: CheckState, n: Node, d: usize, syms: Seq<Symbol>)
    requires
        s.in_if_reset,
        s.if_reset_brace >= d,
        step(s, Event { point: HandlerPoint::Before, node: n }, syms).in_if_reset,
        step(s, Event { point: HandlerPoint::Before, node: n }, syms).if_reset_brace >= d,
        run(s, leaf(n), syms).in_if_reset,
        run(s, leaf(n), syms).if_reset_brace >= d,
    ensures
        stays_in_if_reset(s, leaf(n), d, syms),
{
    let e0 = Event { point: HandlerPoint::Before, node: n };
    assert(leaf(n).take(0) =~= Seq::<Event>::empty());
    assert(leaf(n).take(1) =~= seq![e0]);
    assert(leaf(n).take(2) =~= leaf(n));
    lemma_run_one(s, e0, syms);
    assert forall|k: int| 0 <= k <= leaf(n).len() implies {
        let t = #[trigger] run(s, leaf(n).take(k), syms);
        t.in_if_reset && t.if_reset_brace >= d
    } by {
        if k == 1 {
            assert(run(s, leaf(n).take(1), syms) == run(s, seq![e0], syms));
        }
    }
}

/// A nested block inside an `if_reset`, entered at depth `s.if_reset_brace`
/// of at least one, keeps the checker inside the `if_reset` throughout and
/// comes back to the same depth.
proof fn lemma_block_stays(s: CheckState, b: crate::syntax::Block, syms: Seq<Symbol>)
    requires
        s.in_if_reset,
        s.if_reset_brace >= 1,
        s.if_reset_brace + crate::walker::block_events(b).len() <= usize::MAX,
    ensures
        stays_in_if_reset(s, crate::walker::block_events(b), s.if_reset_brace, syms),
        run(s, crate::walker::block_events(b), syms).in_if_reset,
        run(s, crate::walker::block_events(b), syms).if_reset_brace == s.if_reset_brace,
    decreases b,
{
    let d = s.if_reset_brace;
    let ss = b.statements@;
    lemma_run_leaf(s, Node::LBrace, syms);
    lemma_stays_leaf(s, Node::LBrace, d, syms);
    let s1 = run(s, leaf(Node::LBrace), syms);
    assert(s1.if_reset_brace == d + 1);
    assert(decreases_to!(b => b.statements));
    assert(decreases_to!(b.statements => ss));
    lemma_statements_stays(s1, ss, syms);
    lemma_stays_stronger(s1, crate::walker::statements_events(ss), (d + 1) as usize, d, syms);
    let s2 = run(s1, crate::walker::statements_events(ss), syms);
    lemma_run_leaf(s2, Node::RBrace, syms);
    lemma_stays_leaf(s2, Node::RBrace, d, syms);
    lemma_run_concat(s, leaf(Node::LBrace), crate::walker::statements_events(ss), syms);
    lemma_stays_concat(s, leaf(Node::LBrace), crate::walker::statements_events(ss), d, syms);
    lemma_run_concat(s, leaf(Node::LBrace) + crate::walker::statements_events(ss), leaf(Node::RBrace), syms);
    lemma_stays_concat(s, leaf(Node::LBrace) + crate::walker::statements_events(ss), leaf(Node::RBrace), d, syms);
}

proof fn lemma_stays_stronger(s: CheckState, evs: Seq<Event>, d: usize, e: usize, syms: Seq<Symbol>)
    requires
        stays_in_if_reset(s, evs, d, syms),
        e <= d,
    ensures
        stays_in_if_reset(s, evs, e, syms),
{
    assert forall|k: int| 0 <= k <= evs.len() implies {
        let t = #[trigger] run(s, evs.take(k), syms);
        t.in_if_reset && t.if_reset_brace >= e
    } by {
        assert(run(s, evs.take(k), syms).if_reset_brace >= d);
    }
}

proof fn lemma_statements_stays(s: CheckState, ss: Seq<crate::syntax::Statement>, syms: Seq<Symbol>)
    requires
        s.in_if_reset,
        s.if_reset_brace >= 1,
        s.if_reset_brace + crate::walker::statements_events(ss).len() <= usize::MAX,
    ensures
        stays_in_if_reset(s, crate::walker::statements_events(ss), s.if_reset_brace, syms),
        run(s, crate::walker::statements_events(ss), syms).in_if_reset,
        run(s, crate::walker::statements_events(ss), syms).if_reset_brace == s.if_reset_brace,
    decreases ss,
{
    let d = s.if_reset_brace;
    if ss.len() == 0 {
        assert(crate::walker::statements_events(ss).take(0) =~= Seq::<Event>::empty());
        assert forall|k: int| 0 <= k <= crate::walker::statements_events(ss).len() implies {
            let t = #[trigger] run(s, crate::walker::statements_events(ss).take(k), syms);
            t.in_if_reset && t.if_reset_brace >= d
        } by {}
    } else {
        let init = ss.subrange(0, ss.len() - 1);
        let last = ss[ss.len() - 1];
        lemma_statements_stays(s, init, syms);
        let s1 = run(s, crate::walker::statements_events(init), syms);
        lemma_statement_stays(s1, last, syms);
        lemma_run_concat(s, crate::walker::statements_events(init), crate::walker::statement_events(last), syms);
        lemma_stays_concat(s, crate::walker::statements_events(init), crate::walker::statement_events(last), d, syms);
    }
}

proof fn lemma_else_stays(s: CheckState, e: Option<crate::syntax::Block>, syms: Seq<Symbol>)
    requires
        s.in_if_reset,
        s.if_reset_brace >= 1,
        s.if_reset_brace + crate::walker::else_events(e).len() <= usize::MAX,
    ensures
        stays_in_if_reset(s, crate::walker::else_events(e), s.if_reset_brace, syms),
        run(s, crate::walker::else_events(e), syms).in_if_reset,
        run(s, crate::walker::else_events(e), syms).if_reset_brace == s.if_reset_brace,
    decreases e,
{
    let d = s.if_reset_brace;
    match e {
        Some(b) => lemma_block_stays(s, b, syms),
        None => {
            assert(Seq::<Event>::empty().take(0) =~= Seq::<Event>::empty());
            assert forall|k: int| 0 <= k <= Seq::<Event>::empty().len() implies {
                let t = #[trigger] run(s, Seq::<Event>::empty().take(k), syms);
                t.in_if_reset && t.if_reset_brace >= d
            } by {}
        },
    }
}

proof fn lemma_if_reset_statement_stays(s: CheckState, r: crate::syntax::IfResetStatement, syms: Seq<Symbol>)
    requires
        s.in_if_reset,
        s.if_reset_brace >= 1,
        s.if_reset_brace + crate::walker::statement_events(crate::syntax::Statement::IfReset(r)).len() <= usize::MAX,
    ensures
        stays_in_if_reset(s, crate::walker::statement_events(crate::syntax::Statement::IfReset(r)), s.if_reset_brace, syms),
        run(s, crate::walker::statement_events(crate::syntax::Statement::IfReset(r)), syms).in_if_reset,
        run(s, crate::walker::statement_events(crate::syntax::Statement::IfReset(r)), syms).if_reset_brace == s.if_reset_brace,
    decreases r,
{
    let d = s.if_reset_brace;
    lemma_run_leaf(s, Node::IfReset, syms);
    lemma_stays_leaf(s, Node::IfReset, d, syms);
    let s1 = run(s, leaf(Node::IfReset), syms);
    lemma_block_stays(s1, r.body, syms);
    let s2 = run(s1, crate::walker::block_events(r.body), syms);
    lemma_else_stays(s2, r.else_body, syms);
    lemma_run_concat(s, leaf(Node::IfReset), crate::walker::block_events(r.body), syms);
    lemma_stays_concat(s, leaf(Node::IfReset), crate::walker::block_events(r.body), d, syms);
    lemma_run_concat(s, leaf(Node::IfReset) + crate::walker::block_events(r.body), crate::walker::else_events(r.else_body), syms);
    lemma_stays_concat(s, leaf(Node::IfReset) + crate::walker::block_events(r.body), crate::walker::else_events(r.else_body), d, syms);
}

proof fn lemma_statement_stays(s: CheckState, st: crate::syntax::Statement, syms: Seq<Symbol>)
    requires
        s.in_if_reset,
        s.if_reset_brace >= 1,
        s.if_reset_brace + crate::walker::statement_events(st).len() <= usize::MAX,
    ensures
        stays_in_if_reset(s, crate::walker::statement_events(st), s.if_reset_brace, syms),
        run(s, crate::walker::statement_events(st), syms).in_if_reset,
        run(s, crate::walker::statement_events(st), syms).if_reset_brace == s.if_reset_brace,
    decreases st,
{
    let d = s.if_reset_brace;
    match st {
        crate::syntax::Statement::Assignment(a) => {
            lemma_run_leaf(s, Node::Assignment(a), syms);
            lemma_stays_leaf(s, Node::Assignment(a), d, syms);
        },
        crate::syntax::Statement::IfReset(r) => {
            assert(decreases_to!(st => r));
            lemma_if_reset_statement_stays(s, r, syms);
        },
        crate::syntax::Statement::If(i) => {
            lemma_block_stays(s, i.body, syms);
            let s1 = run(s, crate::walker::block_events(i.body), syms);
            lemma_else_stays(s1, i.else_body, syms);
            lemma_run_concat(s, crate::walker::block_events(i.body), crate::walker::else_events(i.else_body), syms);
            lemma_stays_concat(s, crate::walker::block_events(i.body), crate::walker::else_events(i.else_body), d, syms);
        },
    }
}

/// The block of an `if_reset`, entered with the checker inside the
/// conditional at depth zero, keeps it inside for every prefix of the walk up
/// to its own closing brace, however deeply blocks nest within it; the
/// matching closing brace takes it out, once, and leaves the depth at zero.
pub proof fn lemma_if_reset_block_closes(s: CheckState, b: crate::syntax::Block, syms: Seq<Symbol>)
    requires
        s.in_if_reset,
        s.if_reset_brace == 0,
        crate::walker::block_events(b).len() <= usize::MAX,
    ensures
        ({
            let evs = crate::walker::block_events(b);
            &&& forall|k: int| 0 <= k < evs.len() - 1 ==> (#[trigger] run(s, evs.take(k), syms)).in_if_reset
            &&& !run(s, evs.take(evs.len() - 1), syms).in_if_reset
            &&& !run(s, evs, syms).in_if_reset
            &&& run(s, evs, syms).if_reset_brace == 0
        }),
{
    let ss = b.statements@;
    let evs = crate::walker::block_events(b);
    let head = leaf(Node::LBrace) + crate::walker::statements_events(ss);
    lemma_run_leaf(s, Node::LBrace, syms);
    lemma_stays_leaf(s, Node::LBrace, 0, syms);
    let s1 = run(s, leaf(Node::LBrace), syms);
    assert(s1.if_reset_brace == 1);
    lemma_statements_stays(s1, ss, syms);
    lemma_stays_stronger(s1, crate::walker::statements_events(ss), 1, 0, syms);
    lemma_run_concat(s, leaf(Node::LBrace), crate::walker::statements_events(ss), syms);
    lemma_stays_concat(s, leaf(Node::LBrace), crate::walker::statements_events(ss), 0, syms);
    let s2 = run(s, head, syms);
    assert(s2.if_reset_brace == 1);
    let r0 = Event { point: HandlerPoint::Before, node: Node::RBrace };
    lemma_run_leaf(s2, Node::RBrace, syms);
    lemma_run_one(s2, r0, syms);
    assert(evs =~= head + leaf(Node::RBrace));
    assert(evs.take(evs.len() - 1) =~= head + seq![r0]);
    lemma_run_concat(s, head, seq![r0], syms);
    lemma_run_concat(s, head, leaf(Node::RBrace), syms);
    assert forall|k: int| 0 <= k < evs.len() - 1 implies (#[trigger] run(s, evs.take(k), syms)).in_if_reset by {
        assert(evs.take(k) =~= head.take(k));
        assert(run(s, head.take(k), syms).in_if_reset);
    }
}

/// Outside an `if_reset` the brace depth is zero, in every state that a walk
/// reaches from such a state; so an `if_reset` always opens at depth zero.
pub proof fn lemma_depth_zero_outside_if_reset(s: CheckState, evs: Seq<Event>, syms: Seq<Symbol>)
    requires
        !s.in_if_reset ==> s.if_reset_brace == 0,
    ensures
        !run(s, evs, syms).in_if_reset ==> run(s, evs, syms).if_reset_brace == 0,
    decreases evs.len(),
{
    if evs.len() > 0 {
        lemma_depth_zero_outside_if_reset(step(s, evs[0], syms), evs.drop_first(), syms);
    }
}

/// Notifications on anything but a module leave the defaults in force as they are.
pub proof fn lemma_defaults_kept_inside_module(s: CheckState, evs: Seq<Event>, syms: Seq<Symbol>)
    requires
        forall|k: int| 0 <= k < evs.len() ==> !((#[trigger] evs[k]).node is Module),
    ensures
        run(s, evs, syms).default_clock_exists == s.default_clock_exists,
        run(s, evs, syms).default_reset_exists == s.default_reset_exists,
    decreases evs.len(),
{
    if evs.len() > 0 {
        assert(!(evs[0].node is Module));
        assert forall|k: int| 0 <= k < evs.drop_first().len() implies !((#[trigger] evs.drop_first()[k]).node is Module) by {
            assert(evs.drop_first()[k] == evs[k + 1]);
        }
        lemma_defaults_kept_inside_module(step(s, evs[0], syms), evs.drop_first(), syms);
    }
}

/// A clocked process anywhere inside a module that declares a default clock,
/// whatever was walked between the module's entry and the process's entry,
/// never reports a missing clock; without the default and without an
/// explicit clock event it does.
pub proof fn lemma_default_clock_inherited_in_module(
    s: CheckState,
    m: ModuleDeclaration,
    between: Seq<Event>,
    d: AlwaysFfDeclaration,
    syms: Seq<Symbol>,
)
    requires
        forall|k: int| 0 <= k < between.len() ==> !((#[trigger] between[k]).node is Module),
    ensures
        ({
            let s1 = run(step(s, Event { point: HandlerPoint::Before, node: Node::Module(m) }, syms), between, syms);
            let r = step(s1, Event { point: HandlerPoint::Before, node: Node::AlwaysFf(d) }, syms);
            let declares_default = match name_in_scope(syms, None, m.name) {
                Some(i) => syms[i].kind matches SymbolKind::Module(x) && x.default_clock is Some,
                None => false,
            };
            &&& r.errors.subrange(0, s1.errors.len() as int) == s1.errors
            &&& (declares_default || has_clock_event(d)) ==> forall|k: int| s1.errors.len() <= k < r.errors.len()
                ==> (#[trigger] r.errors[k]).kind != ErrorKind::MissingClockSignal
            &&& (!s.default_clock_exists && !declares_default && !has_clock_event(d)) ==> r.errors.len() > s1.errors.len()
                && r.errors[s1.errors.len() as int].kind == ErrorKind::MissingClockSignal
        }),
{
    let s0 = step(s, Event { point: HandlerPoint::Before, node: Node::Module(m) }, syms);
    lemma_module_defaults(s, m, syms);
    lemma_defaults_kept_inside_module(s0, between, syms);
    let s1 = run(s0, between, syms);
    lemma_default_clock_inheritance(s1, d, syms);
    crate::symbol_table::lemma_name_in_scope_bound(syms, None, m.name);
}

} // verus!
