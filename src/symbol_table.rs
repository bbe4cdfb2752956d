use vstd::prelude::*;
use crate::symbol::{Symbol, SymbolKind, kind_tag};
use crate::syntax::{HierarchicalIdentifier, Segment};

verus! {

/// Why a declaration was refused.
#[derive(Debug, Clone, Copy, PartialEq, Eq, Structural)]
pub enum DeclareError {
    /// The name is already bound in that scope to a symbol of another kind.
    DuplicateDeclaration,
    /// The scope is no declared symbol.
    UnknownScope,
}

/// Why a hierarchical identifier did not resolve.
#[derive(Debug, Clone, Copy, PartialEq, Eq, Structural)]
pub enum ResolutionError {
    UnresolvedIdentifier,
}

/// The symbol that an identifier names, and how many index-selects follow
/// its last name.
#[derive(Debug, Clone, Copy, PartialEq, Eq, Structural)]
pub struct ResolvedSymbol {
    pub id: usize,
    pub n_of_select: usize,
}

/// An arena of declarations; a symbol's identity is its index.
pub struct SymbolTable {
    pub symbols: Vec<Symbol>,
}

/// The most recent declaration of `name` directly in `scope`.
pub open spec fn find_in(syms: Seq<Symbol>, scope: Option<usize>, name: usize) -> Option<int>
    decreases syms.len(),
{
    if syms.len() == 0 {
        None
    } else if syms.last().scope == scope && syms.last().name == name {
        Some(syms.len() - 1)
    } else {
        find_in(syms.drop_last(), scope, name)
    }
}

/// The scope that encloses the members of symbol `s`.
pub open spec fn outer(syms: Seq<Symbol>, s: usize) -> Option<usize> {
    if s < syms.len() && (syms[s as int].scope matches Some(p) && p < s) {
        syms[s as int].scope
    } else {
        None
    }
}

pub open spec fn scope_rank(scope: Option<usize>) -> nat {
    match scope {
        Some(s) => (s + 1) as nat,
        None => 0,
    }
}

/// A bare name, looked up in `scope`, then in each enclosing scope, then at
/// project level.
pub open spec fn name_in_scope(syms: Seq<Symbol>, scope: Option<usize>, name: usize) -> Option<int>
    decreases scope_rank(scope),
{
    match find_in(syms, scope, name) {
        Some(i) => Some(i),
        None => match scope {
            None => None,
            Some(s) => name_in_scope(syms, outer(syms, s), name),
        },
    }
}

/// The rest of a path from symbol `cur` with `count` selects seen: a select
/// adds one, a dot moves into the members of the current symbol and restarts
/// the count.
pub open spec fn resolve_segments(syms: Seq<Symbol>, cur: int, count: nat, segs: Seq<Segment>) -> Option<(int, nat)>
    decreases segs.len(),
{
    if segs.len() == 0 {
        Some((cur, count))
    } else {
        match segs[0] {
            Segment::Select(_) => resolve_segments(syms, cur, count + 1, segs.drop_first()),
            Segment::Dot(n) => match find_in(syms, Some(cur as usize), n) {
                Some(j) => resolve_segments(syms, j, 0, segs.drop_first()),
                None => None,
            },
        }
    }
}

/// What a hierarchical identifier resolves to from `scope`: the symbol and
/// the selects after its last name.
pub open spec fn resolve_spec(syms: Seq<Symbol>, id: HierarchicalIdentifier, scope: Option<usize>) -> Option<(int, nat)> {
    match name_in_scope(syms, scope, id.name) {
        Some(i) => resolve_segments(syms, i, 0, id.segments@),
        None => None,
    }
}

proof fn lemma_find_bound(syms: Seq<Symbol>, scope: Option<usize>, name: usize)
    ensures
        (find_in(syms, scope, name) matches Some(i) ==> 0 <= i < syms.len() && syms[i].scope == scope
            && syms[i].name == name),
        find_in(syms, scope, name) is None ==> forall|i: int| 0 <= i < syms.len() ==> !(#[trigger] syms[i].scope == scope && syms[i].name == name),
    decreases syms.len(),
{
    if syms.len() > 0 {
        lemma_find_bound(syms.drop_last(), scope, name);
        assert forall|i: int| 0 <= i < syms.len() - 1 implies syms.drop_last()[i] == syms[i] by {}
    }
}

pub proof fn lemma_name_in_scope_bound(syms: Seq<Symbol>, scope: Option<usize>, name: usize)
    ensures
        (name_in_scope(syms, scope, name) matches Some(i) ==> 0 <= i < syms.len()),
    decreases scope_rank(scope),
{
    lemma_find_bound(syms, scope, name);
    if let Some(s) = scope {
        lemma_name_in_scope_bound(syms, outer(syms, s), name);
    }
}

impl SymbolTable {
    /// Well-formed: a symbol's scope is declared before it, and no two symbols
    /// share a name in one scope.
    pub open spec fn wf(&self) -> bool {
        &&& forall|i: int| 0 <= i < self.symbols@.len() ==> ((#[trigger] self.symbols@[i]).scope matches Some(p) ==> p < i)
        &&& forall|i: int, j: int| 0 <= i < j < self.symbols@.len() ==> !(#[trigger] self.symbols@[i].scope == #[trigger] self.symbols@[j].scope && self.symbols@[i].name == self.symbols@[j].name)
    }

    pub fn new() -> (r: SymbolTable)
        ensures
            r.wf(),
            r.symbols@.len() == 0,
    {
        SymbolTable { symbols: Vec::new() }
    }

    pub fn len(&self) -> (r: usize)
        ensures
            r == self.symbols@.len(),
    {
        self.symbols.len()
    }

    pub fn get(&self, id: usize) -> (r: Option<&Symbol>)
        ensures
            id < self.symbols@.len() ==> r == Some(&self.symbols@[id as int]),
            id >= self.symbols@.len() ==> r is None,
    {
        if id < self.symbols.len() {
            Some(&self.symbols[id])
        } else {
            None
        }
    }

    /// The declaration of `name` directly in `scope`, if any.
    pub fn find(&self, scope: Option<usize>, name: usize) -> (r: Option<usize>)
        ensures
            match find_in(self.symbols@, scope, name) {
                Some(i) => (r matches Some(j) && j == i),
                None => r is None,
            },
    {
        let mut i: usize = self.symbols.len();
        assert(self.symbols@.take(i as int) =~= self.symbols@);
        while i > 0
            invariant
                i <= self.symbols@.len(),
                find_in(self.symbols@, scope, name) == find_in(self.symbols@.take(i as int), scope, name),
            decreases i,
        {
            let s = &self.symbols[i - 1];
            assert(self.symbols@.take(i as int).last() == self.symbols@[i - 1]);
            if s.scope == scope && s.name == name {
                return Some(i - 1);
            }
            assert(self.symbols@.take(i as int).drop_last() =~= self.symbols@.take(i - 1));
            i = i - 1;
        }
        None
    }

    /// Declares `name` in `scope`. A name already bound there to a symbol of
    /// the same kind gives back that symbol; one of another kind is refused.
    pub fn declare(&mut self, name: usize, scope: Option<usize>, kind: SymbolKind) -> (r: Result<usize, DeclareError>)
        requires
            old(self).wf(),
            old(self).symbols@.len() < usize::MAX,
        ensures
            final(self).wf(),
            (scope matches Some(s) && s >= old(self).symbols@.len()) ==> r == Err::<usize, DeclareError>(DeclareError::UnknownScope) && final(self).symbols@ == old(self).symbols@,
            !(scope matches Some(s) && s >= old(self).symbols@.len()) ==> match find_in(old(self).symbols@, scope, name) {
                Some(i) => if kind_tag(old(self).symbols@[i].kind) == kind_tag(kind) {
                    r == Ok::<usize, DeclareError>(i as usize) && final(self).symbols@ == old(self).symbols@
                } else {
                    r == Err::<usize, DeclareError>(DeclareError::DuplicateDeclaration) && final(self).symbols@ == old(self).symbols@
                },
                None => r == Ok::<usize, DeclareError>(old(self).symbols@.len() as usize)
                    && final(self).symbols@ == old(self).symbols@.push(Symbol { name, scope, kind }),
            },
    {
        if let Some(s) = scope {
            if s >= self.symbols.len() {
                return Err(DeclareError::UnknownScope);
            }
        }
        proof { lemma_find_bound(self.symbols@, scope, name); }
        match self.find(scope, name) {
            Some(i) => {
                if self.symbols[i].kind.same_kind(&kind) {
                    Ok(i)
                } else {
                    Err(DeclareError::DuplicateDeclaration)
                }
            },
            None => {
                let id = self.symbols.len();
                self.symbols.push(Symbol { name, scope, kind });
                proof {
                    let syms = self.symbols@;
                    assert forall|i: int, j: int| 0 <= i < j < syms.len() implies !(#[trigger] syms[i].scope == #[trigger] syms[j].scope && syms[i].name == syms[j].name) by {
                        if j < syms.len() - 1 {
                            assert(syms[i] == old(self).symbols@[i]);
                            assert(syms[j] == old(self).symbols@[j]);
                        } else {
                            assert(syms[i] == old(self).symbols@[i]);
                        }
                    }
                    assert forall|i: int| 0 <= i < syms.len() implies ((#[trigger] syms[i]).scope matches Some(p) ==> p < i) by {
                        if i < syms.len() - 1 {
                            assert(syms[i] == old(self).symbols@[i]);
                        }
                    }
                }
                Ok(id)
            },
        }
    }

    /// Resolves a bare name from `scope` outward.
    pub fn resolve_name(&self, scope: Option<usize>, name: usize) -> (r: Option<usize>)
        ensures
            match name_in_scope(self.symbols@, scope, name) {
                Some(i) => (r matches Some(j) && j == i),
                None => r is None,
            },
    {
        let mut cur = scope;
        loop
            invariant
                name_in_scope(self.symbols@, scope, name) == name_in_scope(self.symbols@, cur, name),
            decreases scope_rank(cur),
        {
            match self.find(cur, name) {
                Some(i) => return Some(i),
                None => {},
            }
            match cur {
                None => return None,
                Some(s) => {
                    let next = if s < self.symbols.len() {
                        match self.symbols[s].scope {
                            Some(p) => if p < s { Some(p) } else { None },
                            None => None,
                        }
                    } else {
                        None
                    };
                    assert(next == outer(self.symbols@, s));
                    cur = next;
                },
            }
        }
    }

    /// Resolves a hierarchical identifier from `scope`. Resolution reads the
    /// table only.
    pub fn resolve(&self, id: &HierarchicalIdentifier, scope: Option<usize>) -> (r: Result<ResolvedSymbol, ResolutionError>)
        ensures
            match resolve_spec(self.symbols@, *id, scope) {
                Some((s, n)) => (r matches Ok(x) && x.id == s && x.n_of_select == n),
                None => r == Err::<ResolvedSymbol, ResolutionError>(ResolutionError::UnresolvedIdentifier),
            },
            (r matches Ok(x) ==> x.id < self.symbols@.len()),
    {
        proof { lemma_name_in_scope_bound(self.symbols@, scope, id.name); }
        let mut cur = match self.resolve_name(scope, id.name) {
            Some(i) => i,
            None => return Err(ResolutionError::UnresolvedIdentifier),
        };
        let mut count: usize = 0;
        let mut k: usize = 0;
        let ghost segs = id.segments@;
        assert(segs.skip(0) =~= segs);
        while k < id.segments.len()
            invariant
                segs == id.segments@,
                k <= segs.len(),
                count <= k,
                cur < self.symbols@.len(),
                resolve_spec(self.symbols@, *id, scope) == resolve_segments(self.symbols@, cur as int, count as nat, segs.skip(k as int)),
            decreases segs.len() - k,
        {
            assert(segs.skip(k as int)[0] == segs[k as int]);
            assert(segs.skip(k as int).drop_first() =~= segs.skip(k + 1));
            match &id.segments[k] {
                Segment::Select(_) => {
                    assert(resolve_segments(self.symbols@, cur as int, count as nat, segs.skip(k as int))
                        == resolve_segments(self.symbols@, cur as int, (count + 1) as nat, segs.skip(k + 1)));
                    count = count + 1;
                },
                Segment::Dot(n) => {
                    proof { lemma_find_bound(self.symbols@, Some(cur), *n); }
                    match self.find(Some(cur), *n) {
                        Some(j) => {
                            assert(resolve_segments(self.symbols@, cur as int, count as nat, segs.skip(k as int))
                                == resolve_segments(self.symbols@, j as int, 0, segs.skip(k + 1)));
                            cur = j;
                            count = 0;
                        },
                        None => return Err(ResolutionError::UnresolvedIdentifier),
                    }
                },
            }
            k = k + 1;
        }
        assert(segs.skip(k as int).len() == 0);
        Ok(ResolvedSymbol { id: cur, n_of_select: count })
    }
}

} // verus!
