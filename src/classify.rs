//! Sorting declared units into unchanged, changed and new, against what the
//! ledger holds from the last deployment.
use crate::transaction::{bytes_equal, opt_script_view, LiveCell, Script};
use vstd::prelude::*;

verus! {

/// A unit found on the ledger from the last deployment: its name, the live
/// cell that holds it and the cell's data.
pub type PreInput = (String, LiveCell, Vec<u8>);

/// How a declared unit compares with the last deployment.
#[derive(Clone, Copy, Debug, PartialEq, Eq, Structural)]
pub enum UnitClass {
    Unchanged,
    Changed,
    New,
}

/// A declared unit as plain values: its name and its payload.
pub open spec fn unit_views(units: Seq<(String, Vec<u8>)>) -> Seq<(Seq<char>, Seq<u8>)> {
    units.map_values(|u: (String, Vec<u8>)| (u.0@, u.1@))
}

/// The position of the first entry of `pre` from `i` on named `name`, or -1.
pub open spec fn find_pre_from(pre: Seq<PreInput>, name: Seq<char>, i: int) -> int
    decreases pre.len() - i,
{
    if i < 0 || i >= pre.len() {
        -1
    } else if pre[i].0@ == name {
        i
    } else {
        find_pre_from(pre, name, i + 1)
    }
}

/// The position of the first entry of `pre` named `name`, or -1.
pub open spec fn find_pre(pre: Seq<PreInput>, name: Seq<char>) -> int {
    find_pre_from(pre, name, 0)
}

pub proof fn lemma_find_pre_range(pre: Seq<PreInput>, name: Seq<char>, i: int)
    requires
        0 <= i,
    ensures
        find_pre_from(pre, name, i) == -1 || (i <= find_pre_from(pre, name, i) < pre.len()
            && pre[find_pre_from(pre, name, i)].0@ == name),
    decreases pre.len() - i,
{
    if i < pre.len() && pre[i].0@ != name {
        lemma_find_pre_range(pre, name, i + 1);
    }
}

/// A unit is new where no entry bears its name, unchanged where the first
/// entry that does holds the same payload, and changed otherwise.
pub open spec fn class_of(name: Seq<char>, data: Seq<u8>, pre: Seq<PreInput>) -> UnitClass {
    let j = find_pre(pre, name);
    if j < 0 || j >= pre.len() {
        UnitClass::New
    } else if pre[j].2@ == data {
        UnitClass::Unchanged
    } else {
        UnitClass::Changed
    }
}

/// The positions, in declaration order, of the units of class `c`.
pub open spec fn class_indices(units: Seq<(Seq<char>, Seq<u8>)>, pre: Seq<PreInput>, c: UnitClass) -> Seq<int>
    decreases units.len(),
{
    if units.len() == 0 {
        Seq::empty()
    } else {
        let prev = class_indices(units.drop_last(), pre, c);
        if class_of(units.last().0, units.last().1, pre) == c {
            prev.push(units.len() - 1)
        } else {
            prev
        }
    }
}

/// Each unit falls in exactly one class, so the three lists together are as
/// long as the units.
pub proof fn lemma_class_counts(units: Seq<(Seq<char>, Seq<u8>)>, pre: Seq<PreInput>)
    ensures
        class_indices(units, pre, UnitClass::Unchanged).len() + class_indices(units, pre, UnitClass::Changed).len()
            + class_indices(units, pre, UnitClass::New).len() == units.len(),
    decreases units.len(),
{
    if units.len() > 0 {
        lemma_class_counts(units.drop_last(), pre);
    }
}

/// The three classes of a list of units. Each entry of `unchanged` and
/// `changed` pairs a unit's position with that of its entry on the ledger.
#[derive(Clone, Debug)]
pub struct Partition {
    pub unchanged: Vec<(usize, usize)>,
    pub changed: Vec<(usize, usize)>,
    pub new: Vec<usize>,
}

pub open spec fn firsts(v: Seq<(usize, usize)>) -> Seq<int> {
    v.map_values(|p: (usize, usize)| p.0 as int)
}

pub open spec fn as_ints(v: Seq<usize>) -> Seq<int> {
    v.map_values(|p: usize| p as int)
}

/// `p` is the partition of `units` against `pre`.
pub open spec fn is_partition_of(p: Partition, units: Seq<(Seq<char>, Seq<u8>)>, pre: Seq<PreInput>) -> bool {
    &&& firsts(p.unchanged@) == class_indices(units, pre, UnitClass::Unchanged)
    &&& firsts(p.changed@) == class_indices(units, pre, UnitClass::Changed)
    &&& as_ints(p.new@) == class_indices(units, pre, UnitClass::New)
    &&& forall|k: int| 0 <= k < p.unchanged@.len() ==> {
        let (i, j) = #[trigger] p.unchanged@[k];
        &&& i < units.len()
        &&& j as int == find_pre(pre, units[i as int].0)
        &&& j < pre.len()
    }
    &&& forall|k: int| 0 <= k < p.changed@.len() ==> {
        let (i, j) = #[trigger] p.changed@[k];
        &&& i < units.len()
        &&& j as int == find_pre(pre, units[i as int].0)
        &&& j < pre.len()
    }
    &&& forall|k: int| 0 <= k < p.new@.len() ==> #[trigger] p.new@[k] < units.len()
}

/// The first entry of `pre` named `name`.
pub fn find_pre_input(pre: &Vec<PreInput>, name: &String) -> (r: Option<usize>)
    ensures
        r is None <==> find_pre(pre@, name@) == -1,
        r is Some ==> r->0 as int == find_pre(pre@, name@) && r->0 < pre@.len(),
{
    proof {
        lemma_find_pre_range(pre@, name@, 0);
    }
    let mut i: usize = 0;
    while i < pre.len()
        invariant
            i <= pre@.len(),
            find_pre(pre@, name@) == find_pre_from(pre@, name@, i as int),
        decreases pre@.len() - i,
    {
        if pre[i].0 == *name {
            return Some(i);
        }
        i = i + 1;
    }
    None
}

/// Sorts `units` into unchanged, changed and new against the units found on
/// the ledger. A unit found on the ledger but no longer declared is left
/// where it is: nothing is ever removed.
pub fn classify(units: &Vec<(String, Vec<u8>)>, pre: &Vec<PreInput>) -> (r: Partition)
    ensures
        is_partition_of(r, unit_views(units@), pre@),
{
    let ghost uv = unit_views(units@);
    let mut p = Partition { unchanged: Vec::new(), changed: Vec::new(), new: Vec::new() };
    let mut i: usize = 0;
    proof {
        let e = uv.subrange(0, 0);
        assert(e.len() == 0);
        assert(firsts(p.unchanged@) =~= class_indices(e, pre@, UnitClass::Unchanged));
        assert(firsts(p.changed@) =~= class_indices(e, pre@, UnitClass::Changed));
        assert(as_ints(p.new@) =~= class_indices(e, pre@, UnitClass::New));
    }
    while i < units.len()
        invariant
            i <= units@.len(),
            uv == unit_views(units@),
            is_partition_of(p, uv.subrange(0, i as int), pre@),
            forall|k: int| 0 <= k < p.unchanged@.len() ==> (#[trigger] p.unchanged@[k]).0 < i,
            forall|k: int| 0 <= k < p.changed@.len() ==> (#[trigger] p.changed@[k]).0 < i,
            forall|k: int| 0 <= k < p.new@.len() ==> #[trigger] p.new@[k] < i,
        decreases units@.len() - i,
    {
        let ghost pre_units = uv.subrange(0, i as int + 1);
        proof {
            assert(pre_units.drop_last() == uv.subrange(0, i as int));
            assert(pre_units.last() == uv[i as int]);
            assert forall|k: int| 0 <= k < i implies #[trigger] pre_units[k] == uv.subrange(0, i as int)[k] by {}
        }
        let ghost old_p = p;
        match find_pre_input(pre, &units[i].0) {
            Some(j) => {
                if bytes_equal(&pre[j].2, &units[i].1) {
                    p.unchanged.push((i, j));
                    assert(firsts(p.unchanged@) == firsts(old_p.unchanged@).push(i as int));
                } else {
                    p.changed.push((i, j));
                    assert(firsts(p.changed@) == firsts(old_p.changed@).push(i as int));
                }
            },
            None => {
                p.new.push(i);
                assert(as_ints(p.new@) == as_ints(old_p.new@).push(i as int));
            },
        }
        i = i + 1;
    }
    assert(uv.subrange(0, units@.len() as int) == uv);
    p
}

impl Partition {
    /// Whether a transaction needs seed cells: something is to be built and
    /// no changed unit offers its own cell as an input.
    pub fn needs_seed(&self) -> (r: bool)
        ensures
            r == (self.changed@.len() == 0 && self.new@.len() > 0),
    {
        self.changed.len() == 0 && self.new.len() > 0
    }

    /// The live cells a transaction built from this partition spends: those
    /// of the changed units, or, where none changed, the seed cells.
    pub fn spent_cells(&self, pre: &Vec<PreInput>, seeds: &Vec<LiveCell>) -> (r: Vec<LiveCell>)
        requires
            forall|k: int| 0 <= k < self.changed@.len() ==> (#[trigger] self.changed@[k]).1 < pre@.len(),
        ensures
            r@ == if self.changed@.len() > 0 {
                Seq::new(self.changed@.len(), |m: int| pre@[self.changed@[m].1 as int].1)
            } else {
                seeds@
            },
    {
        let mut r: Vec<LiveCell> = Vec::new();
        if self.changed.len() > 0 {
            let mut m: usize = 0;
            while m < self.changed.len()
                invariant
                    m <= self.changed@.len(),
                    forall|k: int| 0 <= k < self.changed@.len() ==> (#[trigger] self.changed@[k]).1 < pre@.len(),
                    r@ == Seq::new(m as nat, |q: int| pre@[self.changed@[q].1 as int].1),
                decreases self.changed@.len() - m,
            {
                let j = self.changed[m].1;
                r.push(pre[j].1);
                assert(r@ =~= Seq::new(m as nat + 1, |q: int| pre@[self.changed@[q].1 as int].1));
                m = m + 1;
            }
        } else {
            let mut m: usize = 0;
            while m < seeds.len()
                invariant
                    m <= seeds@.len(),
                    r@ == seeds@.subrange(0, m as int),
                decreases seeds@.len() - m,
            {
                r.push(seeds[m]);
                assert(seeds@.subrange(0, m as int + 1) == seeds@.subrange(0, m as int).push(seeds@[m as int]));
                m = m + 1;
            }
            assert(seeds@.subrange(0, seeds@.len() as int) == seeds@);
        }
        r
    }
}

/// For each unit, the type script that stands beside the first entry of
/// `pre` bearing its name: `types[j]` is the type script of the cell of the
/// `j`-th entry, where it has one.
pub fn inherited_types(units: &Vec<(String, Vec<u8>)>, pre: &Vec<PreInput>, types: &Vec<Option<Script>>) -> (r: Vec<Option<Script>>)
    requires
        types@.len() == pre@.len(),
    ensures
        r@.len() == units@.len(),
        forall|i: int| 0 <= i < units@.len() ==> opt_script_view(#[trigger] r@[i]) == {
            let j = find_pre(pre@, units@[i].0@);
            if j >= 0 { opt_script_view(types@[j]) } else { None }
        },
{
    proof {
        assert forall|i: int| 0 <= i < units@.len() implies find_pre(pre@, units@[i].0@) < pre@.len() by {
            lemma_find_pre_range(pre@, units@[i].0@, 0);
        }
    }
    let mut r: Vec<Option<Script>> = Vec::new();
    let mut i: usize = 0;
    while i < units.len()
        invariant
            i <= units@.len(),
            types@.len() == pre@.len(),
            r@.len() == i,
            forall|q: int| 0 <= q < i ==> opt_script_view(#[trigger] r@[q]) == {
                let j = find_pre(pre@, units@[q].0@);
                if j >= 0 { opt_script_view(types@[j]) } else { None }
            },
        decreases units@.len() - i,
    {
        let item = match find_pre_input(pre, &units[i].0) {
            Some(j) => match &types[j] {
                Some(t) => Some(t.duplicate()),
                None => None,
            },
            None => None,
        };
        r.push(item);
        i = i + 1;
    }
    r
}

} // verus!
