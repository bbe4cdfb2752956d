use vstd::prelude::*;

verus! {

/// What the dump command was asked for: the source files and which tables to print.
pub struct OptDump {
    pub files: Vec<String>,
    pub symbol_table: bool,
    pub assign_list: bool,
    pub namespace_table: bool,
    pub type_dag: bool,
}

/// A table that the dump command prints.
#[derive(Debug, Clone, Copy, PartialEq, Eq, Structural)]
pub enum DumpKind {
    SymbolTable,
    AssignList,
    NamespaceTable,
    TypeDag,
}

/// One analysis pass over one file: pass 1 discovers declarations, pass 2
/// resolves references and types, pass 3 runs the rule handlers.
#[derive(Debug, Clone, Copy, PartialEq, Eq, Structural)]
pub struct PassStep {
    pub pass: u8,
    pub file: usize,
}

/// The first step of a run over `n` files.
pub open spec fn first_step_spec(n: usize) -> Option<PassStep> {
    if n == 0 { None } else { Some(PassStep { pass: 1, file: 0 }) }
}

/// The step after `s` in a run over `n` files: every file in a pass, then
/// the next pass.
pub open spec fn next_step_spec(n: usize, s: PassStep) -> Option<PassStep> {
    if s.file + 1 < n {
        Some(PassStep { pass: s.pass, file: (s.file + 1) as usize })
    } else if s.pass < 3 {
        Some(PassStep { pass: (s.pass + 1) as u8, file: 0 })
    } else {
        None
    }
}

/// The tables that `o` asks for, in the order they are printed.
pub open spec fn dumps_spec(o: OptDump) -> Seq<DumpKind> {
    (if o.symbol_table { seq![DumpKind::SymbolTable] } else { Seq::empty() })
        + (if o.assign_list { seq![DumpKind::AssignList] } else { Seq::empty() })
        + (if o.namespace_table { seq![DumpKind::NamespaceTable] } else { Seq::empty() })
        + (if o.type_dag { seq![DumpKind::TypeDag] } else { Seq::empty() })
}

/// The dump command: analyses every file and prints the tables asked for.
pub struct CmdDump {
    pub opt: OptDump,
}

impl CmdDump {
    pub fn new(opt: OptDump) -> (r: CmdDump)
        ensures
            r.opt == opt,
    {
        CmdDump { opt }
    }

    /// The first analysis step over the command's files.
    pub fn first_step(&self) -> (r: Option<PassStep>)
        ensures
            r == first_step_spec(self.opt.files@.len() as usize),
    {
        if self.opt.files.len() == 0 { None } else { Some(PassStep { pass: 1, file: 0 }) }
    }

    /// The analysis step after `s`, or `None` when all three passes are done.
    pub fn next_step(&self, s: PassStep) -> (r: Option<PassStep>)
        ensures
            r == next_step_spec(self.opt.files@.len() as usize, s),
    {
        if s.file < usize::MAX && s.file + 1 < self.opt.files.len() {
            Some(PassStep { pass: s.pass, file: s.file + 1 })
        } else if s.pass < 3 {
            Some(PassStep { pass: s.pass + 1, file: 0 })
        } else {
            None
        }
    }

    /// The tables to print after the analysis, in order.
    pub fn dumps(&self) -> (r: Vec<DumpKind>)
        ensures
            r@ == dumps_spec(self.opt),
    {
        let mut r: Vec<DumpKind> = Vec::new();
        if self.opt.symbol_table {
            r.push(DumpKind::SymbolTable);
        }
        if self.opt.assign_list {
            r.push(DumpKind::AssignList);
        }
        if self.opt.namespace_table {
            r.push(DumpKind::NamespaceTable);
        }
        if self.opt.type_dag {
            r.push(DumpKind::TypeDag);
        }
        proof {
            let o = self.opt;
            let a = if o.symbol_table { seq![DumpKind::SymbolTable] } else { Seq::<DumpKind>::empty() };
            let b = if o.assign_list { seq![DumpKind::AssignList] } else { Seq::<DumpKind>::empty() };
            let c = if o.namespace_table { seq![DumpKind::NamespaceTable] } else { Seq::<DumpKind>::empty() };
            let d = if o.type_dag { seq![DumpKind::TypeDag] } else { Seq::<DumpKind>::empty() };
            assert(r@ =~= a + b + c + d);
        }
        r
    }
}

/// Steps of a run go forward: within a pass file by file, and a pass starts
/// only once the previous pass has been through every file, so no file is
/// resolved before all files have been declared.
pub proof fn lemma_pass_barrier(n: usize, s: PassStep)
    requires
        1 <= s.pass <= 3,
        s.file < n,
    ensures
        next_step_spec(n, s) matches Some(t) ==> (t.pass == s.pass && t.file == s.file + 1)
            || (t.pass == s.pass + 1 && t.file == 0 && s.file == n - 1),
        next_step_spec(n, s) matches Some(t) ==> 1 <= t.pass <= 3 && t.file < n,
        next_step_spec(n, s) is None <==> s.pass == 3 && s.file == n - 1,
{
}

} // verus!
