use vstd::prelude::*;
use crate::check_clock_reset::{CheckClockReset, CheckState, Event, HandlerPoint, Node, run, step};
use crate::symbol::Symbol;
use crate::symbol_table::SymbolTable;
use crate::syntax::{
    AlwaysFfDeclaration, AlwaysFfEventList, Block, HierarchicalIdentifier, ModuleDeclaration, Segment, Statement,
};

verus! {

/// The notifications on entry to and exit from a node without children.
pub open spec fn leaf(n: Node) -> Seq<Event> {
    seq![Event { point: HandlerPoint::Before, node: n }, Event { point: HandlerPoint::After, node: n }]
}

/// The notifications for a node with the given notifications of its children
/// in between.
pub open spec fn around(n: Node, inner: Seq<Event>) -> Seq<Event> {
    seq![Event { point: HandlerPoint::Before, node: n }] + inner + seq![Event { point: HandlerPoint::After, node: n }]
}

/// The notifications for the selects and dots of a path.
pub open spec fn segment_events(segs: Seq<Segment>) -> Seq<Event>
    decreases segs.len(),
{
    if segs.len() == 0 {
        Seq::empty()
    } else {
        segment_events(segs.drop_last()) + leaf(
            match segs.last() {
                Segment::Select(_) => Node::Select,
                Segment::Dot(_) => Node::Dot,
            },
        )
    }
}

pub open spec fn block_events(b: Block) -> Seq<Event>
    decreases b,
{
    leaf(Node::LBrace) + statements_events(b.statements@) + leaf(Node::RBrace)
}

pub open spec fn statements_events(ss: Seq<Statement>) -> Seq<Event>
    decreases ss,
{
    if ss.len() == 0 {
        Seq::empty()
    } else {
        statements_events(ss.subrange(0, ss.len() - 1)) + statement_events(ss[ss.len() - 1])
    }
}

pub open spec fn statement_events(s: Statement) -> Seq<Event>
    decreases s,
{
    match s {
        Statement::Assignment(a) => leaf(Node::Assignment(a)),
        Statement::IfReset(r) => leaf(Node::IfReset) + block_events(r.body) + else_events(r.else_body),
        Statement::If(i) => block_events(i.body) + else_events(i.else_body),
    }
}

pub open spec fn else_events(e: Option<Block>) -> Seq<Event>
    decreases e,
{
    match e {
        Some(b) => block_events(b),
        None => Seq::empty(),
    }
}

pub open spec fn clock_events(id: HierarchicalIdentifier) -> Seq<Event> {
    around(Node::AlwaysFfClock(id), segment_events(id.segments@))
}

pub open spec fn reset_events(r: Option<HierarchicalIdentifier>) -> Seq<Event> {
    match r {
        Some(id) => around(Node::AlwaysFfReset(id), segment_events(id.segments@)),
        None => Seq::empty(),
    }
}

pub open spec fn event_list_events(ev: Option<AlwaysFfEventList>) -> Seq<Event> {
    match ev {
        Some(x) => clock_events(x.clock) + reset_events(x.reset),
        None => Seq::empty(),
    }
}

pub open spec fn always_ff_events(d: AlwaysFfDeclaration) -> Seq<Event> {
    around(Node::AlwaysFf(d), event_list_events(d.event_list) + block_events(d.body))
}

pub open spec fn always_ffs_events(ds: Seq<AlwaysFfDeclaration>) -> Seq<Event>
    decreases ds.len(),
{
    if ds.len() == 0 {
        Seq::empty()
    } else {
        always_ffs_events(ds.drop_last()) + always_ff_events(ds.last())
    }
}

/// The notifications of a walk over a module, in pre-order for entries and
/// post-order for exits.
pub open spec fn module_events(m: ModuleDeclaration) -> Seq<Event> {
    around(Node::Module(m), always_ffs_events(m.always_ffs@))
}

pub proof fn lemma_run_concat(s: CheckState, a: Seq<Event>, b: Seq<Event>, syms: Seq<Symbol>)
    ensures
        run(s, a + b, syms) == run(run(s, a, syms), b, syms),
    decreases a.len(),
{
    if a.len() == 0 {
        assert(a + b =~= b);
    } else {
        assert((a + b).drop_first() =~= a.drop_first() + b);
        lemma_run_concat(step(s, a[0], syms), a.drop_first(), b, syms);
    }
}

pub proof fn lemma_run_one(s: CheckState, e: Event, syms: Seq<Symbol>)
    ensures
        run(s, seq![e], syms) == step(s, e, syms),
{
    assert(seq![e].drop_first() =~= Seq::<Event>::empty());
    assert(seq![e][0] == e);
    assert(run(step(s, e, syms), Seq::<Event>::empty(), syms) == step(s, e, syms));
}

pub proof fn lemma_run_leaf(s: CheckState, n: Node, syms: Seq<Symbol>)
    ensures
        run(s, leaf(n), syms) == step(
            step(s, Event { point: HandlerPoint::Before, node: n }, syms),
            Event { point: HandlerPoint::After, node: n },
            syms,
        ),
{
    let e0 = Event { point: HandlerPoint::Before, node: n };
    let e1 = Event { point: HandlerPoint::After, node: n };
    assert(leaf(n) =~= seq![e0] + seq![e1]);
    lemma_run_concat(s, seq![e0], seq![e1], syms);
    lemma_run_one(s, e0, syms);
    lemma_run_one(step(s, e0, syms), e1, syms);
}

impl CheckClockReset {
    fn visit_leaf(&mut self, n: &Node, table: &SymbolTable)
        requires
            !(n is Module || n is AlwaysFf || n is AlwaysFfClock || n is AlwaysFfReset),
        ensures
            final(self)@ == run(old(self)@, leaf(*n), table.symbols@),
    {
        proof { lemma_run_leaf(self@, *n, table.symbols@); }
        self.set_point(HandlerPoint::Before);
        self.visit(n, table);
        self.set_point(HandlerPoint::After);
        self.visit(n, table);
    }

    fn visit(&mut self, n: &Node, table: &SymbolTable)
        requires
            !(n is Module || n is AlwaysFf || n is AlwaysFfClock || n is AlwaysFfReset),
        ensures
            final(self)@ == crate::check_clock_reset::step_node(old(self)@, *n, table.symbols@),
    {
        match n {
            Node::LBrace => self.l_brace(),
            Node::RBrace => self.r_brace(),
            Node::IfReset => self.if_reset(),
            Node::Select => self.select(),
            Node::Dot => self.dot(),
            Node::Assignment(a) => self.assignment(a, table),
            _ => {},
        }
    }

    /// Notifies the selects and dots of a path, in order.
    fn walk_segments(&mut self, segs: &Vec<Segment>, table: &SymbolTable)
        ensures
            final(self)@ == run(old(self)@, segment_events(segs@), table.symbols@),
    {
        let ghost s0 = self@;
        let ghost syms = table.symbols@;
        let mut i: usize = 0;
        assert(segs@.take(0) =~= Seq::<Segment>::empty());
        while i < segs.len()
            invariant
                i <= segs@.len(),
                self@ == run(s0, segment_events(segs@.take(i as int)), syms),
                syms == table.symbols@,
            decreases segs@.len() - i,
        {
            let n = match &segs[i] {
                Segment::Select(_) => Node::Select,
                Segment::Dot(_) => Node::Dot,
            };
            proof {
                let t = segs@.take(i + 1);
                assert(t.drop_last() =~= segs@.take(i as int));
                assert(t.last() == segs@[i as int]);
                lemma_run_concat(s0, segment_events(segs@.take(i as int)), leaf(n), syms);
            }
            self.visit_leaf(&n, table);
            i = i + 1;
        }
        assert(segs@.take(i as int) =~= segs@);
    }

    /// Walks a braced block.
    pub fn walk_block(&mut self, b: &Block, table: &SymbolTable)
        ensures
            final(self)@ == run(old(self)@, block_events(*b), table.symbols@),
        decreases b,
    {
        let ghost s0 = self@;
        let ghost syms = table.symbols@;
        let ghost ss = b.statements@;
        self.visit_leaf(&Node::LBrace, table);
        let ghost s1 = self@;
        let mut i: usize = 0;
        assert(ss.take(0) =~= Seq::<Statement>::empty());
        while i < b.statements.len()
            invariant
                i <= ss.len(),
                ss == b.statements@,
                self@ == run(s1, statements_events(ss.take(i as int)), syms),
                syms == table.symbols@,
            decreases ss.len() - i,
        {
            proof {
                let t = ss.take(i + 1);
                assert(t.subrange(0, t.len() - 1) =~= ss.take(i as int));
                assert(t[t.len() - 1] == ss[i as int]);
                assert(statements_events(t) == statements_events(ss.take(i as int)) + statement_events(ss[i as int]));
                lemma_run_concat(s1, statements_events(ss.take(i as int)), statement_events(ss[i as int]), syms);
                assert(decreases_to!(b => b.statements));
                assert(decreases_to!(b.statements => ss));
                assert(decreases_to!(ss => ss[i as int]));
            }
            self.walk_statement(&b.statements[i], table);
            i = i + 1;
        }
        assert(ss.take(i as int) =~= ss);
        self.visit_leaf(&Node::RBrace, table);
        proof {
            lemma_run_concat(s0, leaf(Node::LBrace), statements_events(ss), syms);
            lemma_run_concat(s0, leaf(Node::LBrace) + statements_events(ss), leaf(Node::RBrace), syms);
        }
    }

    fn walk_else(&mut self, e: &Option<Block>, table: &SymbolTable)
        ensures
            final(self)@ == run(old(self)@, else_events(*e), table.symbols@),
        decreases e,
    {
        match e {
            Some(x) => self.walk_block(x, table),
            None => {},
        }
    }

    /// Walks a statement.
    pub fn walk_statement(&mut self, st: &Statement, table: &SymbolTable)
        ensures
            final(self)@ == run(old(self)@, statement_events(*st), table.symbols@),
        decreases st,
    {
        let ghost s0 = self@;
        let ghost syms = table.symbols@;
        match st {
            Statement::Assignment(a) => {
                proof { lemma_run_leaf(s0, Node::Assignment(*a), syms); }
                self.set_point(HandlerPoint::Before);
                self.assignment(a, table);
                self.set_point(HandlerPoint::After);
                self.assignment(a, table);
            },
            Statement::IfReset(r) => {
                self.visit_leaf(&Node::IfReset, table);
                self.walk_block(&r.body, table);
                self.walk_else(&r.else_body, table);
                proof {
                    lemma_run_concat(s0, leaf(Node::IfReset), block_events(r.body), syms);
                    lemma_run_concat(s0, leaf(Node::IfReset) + block_events(r.body), else_events(r.else_body), syms);
                }
            },
            Statement::If(i) => {
                self.walk_block(&i.body, table);
                self.walk_else(&i.else_body, table);
                proof {
                    lemma_run_concat(s0, block_events(i.body), else_events(i.else_body), syms);
                }
            },
        }
    }

    fn walk_reference(&mut self, id: &HierarchicalIdentifier, table: &SymbolTable, clock: bool)
        ensures
            final(self)@ == run(
                old(self)@,
                around(if clock { Node::AlwaysFfClock(*id) } else { Node::AlwaysFfReset(*id) }, segment_events(id.segments@)),
                table.symbols@,
            ),
    {
        let ghost s0 = self@;
        let ghost syms = table.symbols@;
        let ghost n = if clock { Node::AlwaysFfClock(*id) } else { Node::AlwaysFfReset(*id) };
        let ghost e0 = Event { point: HandlerPoint::Before, node: n };
        let ghost e1 = Event { point: HandlerPoint::After, node: n };
        self.set_point(HandlerPoint::Before);
        if clock { self.always_ff_clock(id, table); } else { self.always_ff_reset(id, table); }
        proof { lemma_run_one(s0, e0, syms); }
        self.walk_segments(&id.segments, table);
        let ghost s2 = self@;
        self.set_point(HandlerPoint::After);
        if clock { self.always_ff_clock(id, table); } else { self.always_ff_reset(id, table); }
        proof {
            lemma_run_one(s2, e1, syms);
            lemma_run_concat(s0, seq![e0], segment_events(id.segments@), syms);
            lemma_run_concat(s0, seq![e0] + segment_events(id.segments@), seq![e1], syms);
        }
    }

    /// Walks a clocked process: its clock and reset references, then its body.
    pub fn walk_always_ff(&mut self, d: &AlwaysFfDeclaration, table: &SymbolTable)
        ensures
            final(self)@ == run(old(self)@, always_ff_events(*d), table.symbols@),
    {
        let ghost s0 = self@;
        let ghost syms = table.symbols@;
        let ghost e0 = Event { point: HandlerPoint::Before, node: Node::AlwaysFf(*d) };
        let ghost e1 = Event { point: HandlerPoint::After, node: Node::AlwaysFf(*d) };
        let ghost evs = event_list_events(d.event_list);
        self.set_point(HandlerPoint::Before);
        self.always_ff_declaration(d);
        proof { lemma_run_one(s0, e0, syms); }
        let ghost s1 = self@;
        match &d.event_list {
            Some(ev) => {
                self.walk_reference(&ev.clock, table, true);
                match &ev.reset {
                    Some(r) => self.walk_reference(r, table, false),
                    None => {},
                }
                proof {
                    lemma_run_concat(s1, clock_events(ev.clock), reset_events(ev.reset), syms);
                }
            },
            None => {},
        }
        self.walk_block(&d.body, table);
        let ghost s4 = self@;
        self.set_point(HandlerPoint::After);
        self.always_ff_declaration(d);
        proof {
            lemma_run_one(s4, e1, syms);
            lemma_run_concat(s1, evs, block_events(d.body), syms);
            lemma_run_concat(s0, seq![e0], evs + block_events(d.body), syms);
            lemma_run_concat(s0, seq![e0] + (evs + block_events(d.body)), seq![e1], syms);
        }
    }

    /// Walks a module: entry, each clocked process in order, exit.
    pub fn walk_module(&mut self, m: &ModuleDeclaration, table: &SymbolTable)
        ensures
            final(self)@ == run(old(self)@, module_events(*m), table.symbols@),
    {
        let ghost s0 = self@;
        let ghost syms = table.symbols@;
        let ghost ds = m.always_ffs@;
        let ghost e0 = Event { point: HandlerPoint::Before, node: Node::Module(*m) };
        let ghost e1 = Event { point: HandlerPoint::After, node: Node::Module(*m) };
        self.set_point(HandlerPoint::Before);
        self.module_declaration(m, table);
        proof { lemma_run_one(s0, e0, syms); }
        let ghost s1 = self@;
        let mut i: usize = 0;
        assert(ds.take(0) =~= Seq::<AlwaysFfDeclaration>::empty());
        while i < m.always_ffs.len()
            invariant
                i <= ds.len(),
                ds == m.always_ffs@,
                syms == table.symbols@,
                self@ == run(s1, always_ffs_events(ds.take(i as int)), syms),
            decreases ds.len() - i,
        {
            proof {
                let t = ds.take(i + 1);
                assert(t.drop_last() =~= ds.take(i as int));
                assert(t.last() == ds[i as int]);
                lemma_run_concat(s1, always_ffs_events(ds.take(i as int)), always_ff_events(ds[i as int]), syms);
            }
            self.walk_always_ff(&m.always_ffs[i], table);
            i = i + 1;
        }
        assert(ds.take(i as int) =~= ds);
        let ghost s2 = self@;
        self.set_point(HandlerPoint::After);
        self.module_declaration(m, table);
        proof {
            lemma_run_one(s2, e1, syms);
            lemma_run_concat(s0, seq![e0], always_ffs_events(ds), syms);
            lemma_run_concat(s0, seq![e0] + always_ffs_events(ds), seq![e1], syms);
        }
    }
}

} // verus!
