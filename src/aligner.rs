use vstd::prelude::*;
use crate::location::Location;
use crate::location_map::LocationMap;

verus! {

/// The number of alignment columns an aligner keeps.
pub const ALIGN_KINDS: usize = 10;

/// Inserts, in order, the padding that brings each pending item up to `max_width`.
pub open spec fn pad_items(m: Map<Location, u32>, rest: Seq<(Location, u32)>, max_width: u32) -> Map<Location, u32>
    decreases rest.len(),
{
    if rest.len() == 0 {
        m
    } else {
        pad_items(m, rest.drop_last(), max_width).insert(rest.last().0, (max_width - rest.last().1) as u32)
    }
}

/// Adds one padding to a map, summing with what is there (modulo 2^32).
pub open spec fn add_padding(m: Map<Location, u32>, e: (Location, u32)) -> Map<Location, u32> {
    if m.contains_key(e.0) {
        m.insert(e.0, ((m[e.0] + e.1) % 0x1_0000_0000) as u32)
    } else {
        m.insert(e.0, e.1)
    }
}

/// Adds a list of paddings to a map, in order.
pub open spec fn add_paddings(m: Map<Location, u32>, es: Seq<(Location, u32)>) -> Map<Location, u32>
    decreases es.len(),
{
    if es.len() == 0 {
        m
    } else {
        add_padding(add_paddings(m, es.drop_last()), es.last())
    }
}

/// Adds the paddings of each column, in order of the columns.
pub open spec fn gather(m: Map<Location, u32>, aligns: Seq<Align>) -> Map<Location, u32>
    decreases aligns.len(),
{
    if aligns.len() == 0 {
        m
    } else {
        add_paddings(gather(m, aligns.drop_last()), aligns.last().additions.entries@)
    }
}

/// One alignment column: it measures items and pads each to the widest of its group.
pub struct Align {
    pub enable: bool,
    pub index: usize,
    pub max_width: u32,
    pub width: u32,
    pub line: u32,
    pub rest: Vec<(Location, u32)>,
    pub additions: LocationMap,
    pub disable_auto_finish: bool,
    pub last_location: Option<Location>,
}

/// Closing a group: each pending item is padded to the group's widest, and
/// the group is emptied.
pub open spec fn finish_group_rel(a: Align, b: Align) -> bool {
    &&& b.additions@ == pad_items(a.additions@, a.rest@, a.max_width)
    &&& b.rest@.len() == 0
    &&& b.max_width == 0
    &&& b.enable == a.enable && b.index == a.index && b.width == a.width && b.line == a.line
    &&& b.disable_auto_finish == a.disable_auto_finish && b.last_location == a.last_location
}

/// Whether an item on `line` starts a new group after one ending on `prev`:
/// it comes earlier, or after a blank line.
pub open spec fn starts_new_group(prev: u32, line: u32) -> bool {
    prev > line || line - prev > 1
}

/// Closing an item: with a last token, the group is closed first when the
/// item does not follow on the next line (unless that is switched off), and
/// the item joins the group with its width.
pub open spec fn finish_item_rel(a: Align, b: Align) -> bool {
    if !a.enable || a.last_location is None {
        b == (Align { enable: false, ..a })
    } else {
        let loc = a.last_location->0;
        let closes = !a.disable_auto_finish && starts_new_group(a.line, loc.line);
        let max0 = if closes { 0 } else { a.max_width };
        let rest0 = if closes { Seq::<(Location, u32)>::empty() } else { a.rest@ };
        &&& b.additions@ == (if closes { pad_items(a.additions@, a.rest@, a.max_width) } else { a.additions@ })
        &&& b.max_width == (if max0 >= a.width { max0 } else { a.width })
        &&& b.rest@ == rest0.push((loc, a.width))
        &&& b.line == loc.line
        &&& b.width == 0
        &&& b.index == a.index + 1
        &&& !b.enable
        &&& b.disable_auto_finish == a.disable_auto_finish && b.last_location == a.last_location
    }
}

/// A token of `w` columns whose last location is `loc` measured by a column.
pub open spec fn measured(a: Align, w: u32, loc: Option<Location>) -> Align {
    if a.enable {
        Align { width: (a.width + w) as u32, last_location: if loc is Some { loc } else { a.last_location }, ..a }
    } else {
        a
    }
}

/// Whether a column's measure can take `w` more.
pub open spec fn width_fits(a: Align, w: int) -> bool {
    a.enable ==> a.width + w <= u32::MAX
}

impl Align {
    /// Every pending item is at most the group's widest; paddings have one
    /// entry per location.
    pub open spec fn wf(&self) -> bool {
        &&& forall|i: int| 0 <= i < self.rest@.len() ==> (#[trigger] self.rest@[i]).1 <= self.max_width
        &&& self.additions.wf()
    }

    pub open spec fn is_initial(&self) -> bool {
        &&& self.wf()
        &&& !self.enable && self.index == 0 && self.max_width == 0 && self.width == 0 && self.line == 0
        &&& self.rest@.len() == 0
        &&& self.additions@ == Map::<Location, u32>::empty()
        &&& !self.disable_auto_finish
        &&& self.last_location is None
    }

    pub fn new() -> (r: Align)
        ensures
            r.is_initial(),
    {
        Align {
            enable: false,
            index: 0,
            max_width: 0,
            width: 0,
            line: 0,
            rest: Vec::new(),
            additions: LocationMap::new(),
            disable_auto_finish: false,
            last_location: None,
        }
    }

    pub fn finish_group(&mut self)
        requires
            old(self).wf(),
        ensures
            final(self).wf(),
            finish_group_rel(*old(self), *final(self)),
    {
        let mut i: usize = 0;
        let ghost a0 = self.additions@;
        assert(self.rest@.take(0) =~= Seq::<(Location, u32)>::empty());
        while i < self.rest.len()
            invariant
                self.wf(),
                i <= self.rest@.len(),
                self.rest@ == old(self).rest@,
                self.max_width == old(self).max_width,
                self.additions@ == pad_items(a0, self.rest@.take(i as int), self.max_width),
                a0 == old(self).additions@,
                self.enable == old(self).enable && self.index == old(self).index,
                self.width == old(self).width && self.line == old(self).line,
                self.disable_auto_finish == old(self).disable_auto_finish,
                self.last_location == old(self).last_location,
            decreases self.rest@.len() - i,
        {
            let (loc, width) = self.rest[i];
            assert(self.rest@[i as int].1 <= self.max_width);
            proof {
                let t = self.rest@.take(i + 1);
                assert(t.drop_last() =~= self.rest@.take(i as int));
                assert(t.last() == self.rest@[i as int]);
            }
            self.additions.insert(loc, self.max_width - width);
            i = i + 1;
        }
        assert(self.rest@.take(i as int) =~= self.rest@);
        self.rest.clear();
        self.max_width = 0;
    }

    pub fn finish_item(&mut self)
        requires
            old(self).wf(),
            old(self).enable && old(self).last_location is Some ==> old(self).index < usize::MAX,
        ensures
            final(self).wf(),
            finish_item_rel(*old(self), *final(self)),
    {
        if self.enable {
            self.enable = false;
            if let Some(loc) = self.last_location {
                if !self.disable_auto_finish && (self.line > loc.line || loc.line - self.line > 1) {
                    self.finish_group();
                    assert(self.rest@ =~= Seq::<(Location, u32)>::empty());
                }
                self.max_width = if self.max_width >= self.width { self.max_width } else { self.width };
                self.line = loc.line;
                self.rest.push((loc, self.width));
                self.width = 0;
                self.index = self.index + 1;
            }
        }
    }

    pub fn start_item(&mut self)
        ensures
            *final(self) == (Align { enable: true, width: 0, ..*old(self) }),
    {
        self.enable = true;
        self.width = 0;
    }

    /// Measures a token at `loc`, `loc.length` wide.
    pub fn token(&mut self, loc: Location)
        requires
            width_fits(*old(self), loc.length as int),
        ensures
            *final(self) == measured(*old(self), loc.length, Some(loc)),
    {
        if self.enable {
            self.width = self.width + loc.length;
            self.last_location = Some(loc);
        }
    }

    /// Marks a place of zero width at `x`.
    pub fn dummy_location(&mut self, x: Location)
        ensures
            *final(self) == measured(*old(self), 0, Some(x)),
    {
        if self.enable {
            self.last_location = Some(x);
        }
    }

    /// Measures the `i`-th duplicate of a token at `loc`.
    pub fn duplicated_token(&mut self, loc: Location, i: usize)
        requires
            width_fits(*old(self), loc.length as int),
        ensures
            *final(self) == measured(*old(self), loc.length, Some(Location { duplicated: Some(i), ..loc })),
    {
        if self.enable {
            self.width = self.width + loc.length;
            self.last_location = Some(loc.with_duplicated(i));
        }
    }

    /// Measures `x` spaces; the count is taken modulo 2^32.
    pub fn space(&mut self, x: usize)
        requires
            width_fits(*old(self), (x as u32) as int),
        ensures
            *final(self) == measured(*old(self), x as u32, None),
    {
        if self.enable {
            self.width = self.width + x as u32;
        }
    }
}

/// The ten alignment columns of the formatter and the paddings gathered from them.
pub struct Aligner {
    pub additions: LocationMap,
    pub aligns: Vec<Align>,
}

impl Aligner {
    pub open spec fn wf(&self) -> bool {
        &&& self.additions.wf()
        &&& self.aligns@.len() == ALIGN_KINDS
        &&& forall|i: int| 0 <= i < self.aligns@.len() ==> (#[trigger] self.aligns@[i]).wf()
    }

    pub fn new() -> (r: Aligner)
        ensures
            r.wf(),
            r.additions@ == Map::<Location, u32>::empty(),
            forall|i: int| 0 <= i < r.aligns@.len() ==> (#[trigger] r.aligns@[i]).is_initial(),
    {
        let mut aligns: Vec<Align> = Vec::new();
        let mut i: usize = 0;
        while i < ALIGN_KINDS
            invariant
                i <= ALIGN_KINDS,
                aligns@.len() == i,
                forall|j: int| 0 <= j < i ==> (#[trigger] aligns@[j]).is_initial(),
            decreases ALIGN_KINDS - i,
        {
            aligns.push(Align::new());
            i = i + 1;
        }
        Aligner { additions: LocationMap::new(), aligns }
    }

    /// Measures `w` columns ending at `loc` in every column.
    fn measure(&mut self, w: u32, loc: Option<Location>)
        requires
            old(self).wf(),
            forall|i: int| 0 <= i < old(self).aligns@.len() ==> width_fits(#[trigger] old(self).aligns@[i], w as int),
        ensures
            final(self).wf(),
            final(self).additions == old(self).additions,
            final(self).aligns@.len() == old(self).aligns@.len(),
            forall|i: int| 0 <= i < final(self).aligns@.len() ==> #[trigger] final(self).aligns@[i] == measured(old(self).aligns@[i], w, loc),
    {
        let mut i: usize = 0;
        while i < self.aligns.len()
            invariant
                self.aligns@.len() == old(self).aligns@.len(),
                self.additions == old(self).additions,
                old(self).wf(),
                forall|j: int| 0 <= j < old(self).aligns@.len() ==> width_fits(#[trigger] old(self).aligns@[j], w as int),
                forall|j: int| 0 <= j < i ==> #[trigger] self.aligns@[j] == measured(old(self).aligns@[j], w, loc),
                forall|j: int| i <= j < self.aligns@.len() ==> #[trigger] self.aligns@[j] == old(self).aligns@[j],
            decreases self.aligns@.len() - i,
        {
            let a = &mut self.aligns[i];
            if a.enable {
                a.width = a.width + w;
                if let Some(l) = loc {
                    a.last_location = Some(l);
                }
            }
            i = i + 1;
        }
        assert forall|j: int| 0 <= j < self.aligns@.len() implies (#[trigger] self.aligns@[j]).wf() by {
            assert(old(self).aligns@[j].wf());
        }
    }

    /// Measures a token at `loc` in every column.
    pub fn token(&mut self, loc: Location)
        requires
            old(self).wf(),
            forall|i: int| 0 <= i < old(self).aligns@.len() ==> width_fits(#[trigger] old(self).aligns@[i], loc.length as int),
        ensures
            final(self).wf(),
            final(self).additions == old(self).additions,
            forall|i: int| 0 <= i < final(self).aligns@.len() ==> #[trigger] final(self).aligns@[i] == measured(old(self).aligns@[i], loc.length, Some(loc)),
    {
        self.measure(loc.length, Some(loc));
    }

    /// Measures the `idx`-th duplicate of a token at `loc` in every column.
    pub fn duplicated_token(&mut self, loc: Location, idx: usize)
        requires
            old(self).wf(),
            forall|i: int| 0 <= i < old(self).aligns@.len() ==> width_fits(#[trigger] old(self).aligns@[i], loc.length as int),
        ensures
            final(self).wf(),
            final(self).additions == old(self).additions,
            forall|i: int| 0 <= i < final(self).aligns@.len() ==> #[trigger] final(self).aligns@[i] == measured(old(self).aligns@[i], loc.length, Some(Location { duplicated: Some(idx), ..loc })),
    {
        self.measure(loc.length, Some(loc.with_duplicated(idx)));
    }

    /// Measures `x` spaces in every column; the count is taken modulo 2^32.
    pub fn space(&mut self, x: usize)
        requires
            old(self).wf(),
            forall|i: int| 0 <= i < old(self).aligns@.len() ==> width_fits(#[trigger] old(self).aligns@[i], (x as u32) as int),
        ensures
            final(self).wf(),
            final(self).additions == old(self).additions,
            forall|i: int| 0 <= i < final(self).aligns@.len() ==> #[trigger] final(self).aligns@[i] == measured(old(self).aligns@[i], x as u32, None),
    {
        self.measure(x as u32, None);
    }

    /// Closes the current group of every column.
    pub fn finish_group(&mut self)
        requires
            old(self).wf(),
        ensures
            final(self).wf(),
            final(self).additions == old(self).additions,
            forall|i: int| 0 <= i < final(self).aligns@.len() ==> finish_group_rel(old(self).aligns@[i], #[trigger] final(self).aligns@[i]),
    {
        let mut i: usize = 0;
        while i < self.aligns.len()
            invariant
                self.aligns@.len() == old(self).aligns@.len(),
                self.additions == old(self).additions,
                old(self).wf(),
                forall|j: int| 0 <= j < i ==> (#[trigger] self.aligns@[j]).wf() && finish_group_rel(old(self).aligns@[j], self.aligns@[j]),
                forall|j: int| i <= j < self.aligns@.len() ==> #[trigger] self.aligns@[j] == old(self).aligns@[j],
            decreases self.aligns@.len() - i,
        {
            assert(old(self).aligns@[i as int].wf());
            self.aligns[i].finish_group();
            i = i + 1;
        }
    }

    /// Closes the current item of every column.
    pub fn finish_item(&mut self)
        requires
            old(self).wf(),
            forall|i: int| 0 <= i < old(self).aligns@.len() ==> (#[trigger] old(self).aligns@[i]).enable && old(self).aligns@[i].last_location is Some ==> old(self).aligns@[i].index < usize::MAX,
        ensures
            final(self).wf(),
            final(self).additions == old(self).additions,
            forall|i: int| 0 <= i < final(self).aligns@.len() ==> finish_item_rel(old(self).aligns@[i], #[trigger] final(self).aligns@[i]),
    {
        let mut i: usize = 0;
        while i < self.aligns.len()
            invariant
                self.aligns@.len() == old(self).aligns@.len(),
                self.additions == old(self).additions,
                old(self).wf(),
                forall|j: int| 0 <= j < old(self).aligns@.len() ==> (#[trigger] old(self).aligns@[j]).enable && old(self).aligns@[j].last_location is Some ==> old(self).aligns@[j].index < usize::MAX,
                forall|j: int| 0 <= j < i ==> (#[trigger] self.aligns@[j]).wf() && finish_item_rel(old(self).aligns@[j], self.aligns@[j]),
                forall|j: int| i <= j < self.aligns@.len() ==> #[trigger] self.aligns@[j] == old(self).aligns@[j],
            decreases self.aligns@.len() - i,
        {
            assert(old(self).aligns@[i as int].wf());
            self.aligns[i].finish_item();
            i = i + 1;
        }
    }

    /// Switches the closing of groups on a line break back on in every column.
    pub fn enable_auto_finish(&mut self)
        requires
            old(self).wf(),
        ensures
            final(self).wf(),
            final(self).additions == old(self).additions,
            final(self).aligns@.len() == old(self).aligns@.len(),
            forall|i: int| 0 <= i < final(self).aligns@.len() ==> #[trigger] final(self).aligns@[i] == (Align { disable_auto_finish: false, ..old(self).aligns@[i] }),
    {
        self.set_auto_finish_disabled(false);
    }

    /// Switches the closing of groups on a line break off in every column.
    pub fn disable_auto_finish(&mut self)
        requires
            old(self).wf(),
        ensures
            final(self).wf(),
            final(self).additions == old(self).additions,
            final(self).aligns@.len() == old(self).aligns@.len(),
            forall|i: int| 0 <= i < final(self).aligns@.len() ==> #[trigger] final(self).aligns@[i] == (Align { disable_auto_finish: true, ..old(self).aligns@[i] }),
    {
        self.set_auto_finish_disabled(true);
    }

    fn set_auto_finish_disabled(&mut self, v: bool)
        requires
            old(self).wf(),
        ensures
            final(self).wf(),
            final(self).additions == old(self).additions,
            final(self).aligns@.len() == old(self).aligns@.len(),
            forall|i: int| 0 <= i < final(self).aligns@.len() ==> #[trigger] final(self).aligns@[i] == (Align { disable_auto_finish: v, ..old(self).aligns@[i] }),
    {
        let mut i: usize = 0;
        while i < self.aligns.len()
            invariant
                self.aligns@.len() == old(self).aligns@.len(),
                self.additions == old(self).additions,
                old(self).wf(),
                forall|j: int| 0 <= j < i ==> #[trigger] self.aligns@[j] == (Align { disable_auto_finish: v, ..old(self).aligns@[j] }),
                forall|j: int| i <= j < self.aligns@.len() ==> #[trigger] self.aligns@[j] == old(self).aligns@[j],
            decreases self.aligns@.len() - i,
        {
            self.aligns[i].disable_auto_finish = v;
            i = i + 1;
        }
        assert forall|j: int| 0 <= j < self.aligns@.len() implies (#[trigger] self.aligns@[j]).wf() by {
            assert(old(self).aligns@[j].wf());
        }
    }

    /// Whether some column is measuring an item.
    pub fn any_enabled(&self) -> (r: bool)
        ensures
            r == exists|i: int| 0 <= i < self.aligns@.len() && (#[trigger] self.aligns@[i]).enable,
    {
        let mut i: usize = 0;
        while i < self.aligns.len()
            invariant
                i <= self.aligns@.len(),
                forall|j: int| 0 <= j < i ==> !(#[trigger] self.aligns@[j]).enable,
            decreases self.aligns@.len() - i,
        {
            if self.aligns[i].enable {
                return true;
            }
            i = i + 1;
        }
        false
    }

    /// Adds the paddings of every column into `additions`, summing those that
    /// several columns give one location (modulo 2^32).
    pub fn gather_additions(&mut self)
        requires
            old(self).wf(),
        ensures
            final(self).wf(),
            final(self).aligns == old(self).aligns,
            final(self).additions@ == gather(old(self).additions@, old(self).aligns@),
    {
        let mut i: usize = 0;
        assert(self.aligns@.take(0) =~= Seq::<Align>::empty());
        while i < self.aligns.len()
            invariant
                self.wf(),
                self.aligns == old(self).aligns,
                i <= self.aligns@.len(),
                self.additions@ == gather(old(self).additions@, self.aligns@.take(i as int)),
            decreases self.aligns@.len() - i,
        {
            let ghost before = self.additions@;
            let ghost es = self.aligns@[i as int].additions.entries@;
            let mut k: usize = 0;
            assert(es.take(0) =~= Seq::<(Location, u32)>::empty());
            while k < self.aligns[i].additions.entries.len()
                invariant
                    self.wf(),
                    self.aligns == old(self).aligns,
                    i < self.aligns@.len(),
                    es == self.aligns@[i as int].additions.entries@,
                    k <= es.len(),
                    self.additions@ == add_paddings(before, es.take(k as int)),
                decreases es.len() - k,
            {
                let (x, y) = self.aligns[i].additions.entries[k];
                let v = match self.additions.get(x) {
                    Some(c) => c.wrapping_add(y),
                    None => y,
                };
                proof {
                    let t = es.take(k + 1);
                    assert(t.drop_last() =~= es.take(k as int));
                    assert(t.last() == es[k as int]);
                }
                self.additions.insert(x, v);
                k = k + 1;
            }
            proof {
                assert(es.take(k as int) =~= es);
                let t = self.aligns@.take(i + 1);
                assert(t.drop_last() =~= self.aligns@.take(i as int));
                assert(t.last() == self.aligns@[i as int]);
            }
            i = i + 1;
        }
        assert(self.aligns@.take(i as int) =~= self.aligns@);
    }
}

/// Widths of nested spans, measured while tokens are emitted, and the width
/// each finished span had, by token id.
pub struct Measure {
    pub widths: Vec<u32>,
    pub table: std::collections::HashMap<usize, u32>,
}

impl Measure {
    pub fn new() -> (r: Measure)
        ensures
            r.widths@.len() == 0,
            r.table@ == Map::<usize, u32>::empty(),
    {
        Measure { widths: Vec::new(), table: std::collections::HashMap::new() }
    }

    /// Opens a span.
    pub fn start(&mut self)
        ensures
            final(self).widths@ == old(self).widths@.push(0),
            final(self).table@ == old(self).table@,
    {
        self.widths.push(0);
    }

    /// Closes the innermost span and records its width for token `id`.
    pub fn finish(&mut self, id: usize)
        requires
            old(self).widths@.len() > 0,
        ensures
            final(self).widths@ == old(self).widths@.drop_last(),
            final(self).table@ == old(self).table@.insert(id, old(self).widths@.last()),
    {
        broadcast use vstd::std_specs::hash::group_hash_axioms;
        let width = self.widths.pop().unwrap();
        self.table.insert(id, width);
    }

    /// Adds `value` to the width of every open span.
    pub fn add(&mut self, value: u32)
        requires
            forall|i: int| 0 <= i < old(self).widths@.len() ==> old(self).widths@[i] + value <= u32::MAX,
        ensures
            final(self).widths@.len() == old(self).widths@.len(),
            forall|i: int| 0 <= i < final(self).widths@.len() ==> #[trigger] final(self).widths@[i] == old(self).widths@[i] + value,
            final(self).table@ == old(self).table@,
    {
        let mut i: usize = 0;
        while i < self.widths.len()
            invariant
                self.widths@.len() == old(self).widths@.len(),
                self.table@ == old(self).table@,
                forall|j: int| 0 <= j < old(self).widths@.len() ==> old(self).widths@[j] + value <= u32::MAX,
                forall|j: int| 0 <= j < i ==> #[trigger] self.widths@[j] == old(self).widths@[j] + value,
                forall|j: int| i <= j < self.widths@.len() ==> #[trigger] self.widths@[j] == old(self).widths@[j],
            decreases self.widths@.len() - i,
        {
            let w = self.widths[i];
            self.widths.set(i, w + value);
            i = i + 1;
        }
    }

    /// The width recorded for token `id`, if its span has finished.
    pub fn get(&self, id: usize) -> (r: Option<u32>)
        ensures
            r == (if self.table@.contains_key(id) { Some(self.table@[id]) } else { None::<u32> }),
    {
        broadcast use vstd::std_specs::hash::group_hash_axioms;
        match self.table.get(&id) {
            Some(w) => Some(*w),
            None => None,
        }
    }
}

} // verus!
