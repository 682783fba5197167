//! The live cells reserved during one run, and the choice of funding cells.
use crate::transaction::{cells_capacity, LiveCell, OutPoint};
use vstd::prelude::*;

verus! {

/// What the ledger reports of a live cell that may fund a transaction.
#[derive(Clone, Copy, Debug, PartialEq, Eq, Hash)]
pub struct LiveCellInfo {
    pub tx_hash: [u8; 32],
    pub output_index: u32,
    pub data_bytes: u64,
    pub has_type: bool,
    pub capacity: u64,
    pub mature: bool,
}

impl LiveCellInfo {
    /// The live cell this entry describes.
    pub fn into_live_cell(&self) -> (r: LiveCell)
        ensures
            r == (LiveCell {
                tx_hash: self.tx_hash,
                index: self.output_index,
                capacity: self.capacity,
                mature: self.mature,
            }),
    {
        LiveCell {
            tx_hash: self.tx_hash,
            index: self.output_index,
            capacity: self.capacity,
            mature: self.mature,
        }
    }
}

pub open spec fn out_point_of(c: LiveCell) -> OutPoint {
    OutPoint { tx_hash: c.tx_hash, index: c.index }
}

pub open spec fn same_out_point(a: OutPoint, b: OutPoint) -> bool {
    a.tx_hash@ == b.tx_hash@ && a.index == b.index
}

/// The out points reserved by this run: a cell once chosen as an input is
/// never chosen again.
#[derive(Clone, Debug)]
pub struct Collector {
    pub locked_cells: Vec<OutPoint>,
}

impl Collector {
    pub fn new() -> (r: Collector)
        ensures
            r.locked_cells@.len() == 0,
    {
        Collector { locked_cells: Vec::new() }
    }

    /// Reserves `out_point`.
    pub fn lock_cell(&mut self, out_point: OutPoint)
        ensures
            final(self).locked_cells@ == old(self).locked_cells@.push(out_point),
    {
        self.locked_cells.push(out_point);
    }

    /// Whether the out point of `live_cell` is reserved.
    pub fn is_live_cell_locked(&self, live_cell: &LiveCell) -> (r: bool)
        ensures
            r == exists|k: int|
                0 <= k < self.locked_cells@.len() && same_out_point(
                    #[trigger] self.locked_cells@[k],
                    out_point_of(*live_cell),
                ),
    {
        let mut k: usize = 0;
        while k < self.locked_cells.len()
            invariant
                k <= self.locked_cells@.len(),
                forall|m: int|
                    0 <= m < k ==> !same_out_point(
                        #[trigger] self.locked_cells@[m],
                        out_point_of(*live_cell),
                    ),
            decreases self.locked_cells@.len() - k,
        {
            let op = self.locked_cells[k];
            if crate::transaction::hash_equal(&op.tx_hash, &live_cell.tx_hash) && op.index
                == live_cell.index {
                return true;
            }
            k = k + 1;
        }
        false
    }

    /// Chooses funding cells from `candidates`, in order, until their capacity
    /// exceeds `capacity`. Only cells with neither data nor a type script are
    /// taken, and none that is reserved or already taken. `None` where all of
    /// them together do not exceed `capacity`.
    pub fn collect_live_cells(&self, candidates: &Vec<LiveCellInfo>, capacity: u64) -> (r: Option<Vec<LiveCell>>)
        ensures
            r is None <==> cells_capacity(fresh_cells(self.locked_cells@, candidates@, candidates@.len() as int)) <= capacity,
            r is Some ==> cells_capacity(r->0@) > capacity,
            r is Some ==> exists|n: int| 0 <= n <= candidates@.len() && r->0@ == fresh_cells(self.locked_cells@, candidates@, n),
            r is Some ==> r->0@.len() > 0 && cells_capacity(r->0@.drop_last()) <= capacity,
            r is Some ==> forall|k: int| 0 <= k < r->0@.len() ==> !self.is_locked_spec(out_point_of(#[trigger] r->0@[k])),
            r is Some <==> take_until(fresh_cells(self.locked_cells@, candidates@, candidates@.len() as int), capacity as nat) is Some,
            r is Some ==> r->0@ == take_until(fresh_cells(self.locked_cells@, candidates@, candidates@.len() as int), capacity as nat)->0,
    {
        let mut taken: Vec<LiveCell> = Vec::new();
        let mut collected: u64 = 0;
        let mut i: usize = 0;
        while i < candidates.len()
            invariant
                i <= candidates@.len(),
                collected as nat == cells_capacity(taken@),
                taken@ == fresh_cells(self.locked_cells@, candidates@, i as int),
                collected <= capacity,
            decreases candidates@.len() - i,
        {
            let info = candidates[i];
            let cell = info.into_live_cell();
            let usable = info.data_bytes == 0 && !info.has_type && !self.is_live_cell_locked(&cell);
            let fresh = usable && !contains_out_point(&taken, &cell);
            proof {
                lemma_fresh_step(self.locked_cells@, candidates@, i as int);
                assert(fresh == is_fresh(self.locked_cells@, candidates@, i as int));
            }
            if fresh {
                let ghost before = taken@;
                taken.push(cell);
                assert(taken@.drop_last() == before);
                if cell.capacity > capacity - collected {
                    proof {
                        lemma_fresh_cells_grow(self.locked_cells@, candidates@, i as int + 1, candidates@.len() as int);
                        lemma_fresh_unlocked(self.locked_cells@, candidates@, i as int + 1);
                        lemma_take_until(self.locked_cells@, candidates@, i as int + 1, capacity as nat);
                    }
                    return Some(taken);
                }
                collected = collected + cell.capacity;
            }
            i = i + 1;
        }
        None
    }

    pub open spec fn is_locked_spec(&self, op: OutPoint) -> bool {
        locked_in(self.locked_cells@, op)
    }
}

/// `op` is among the reserved out points `locked`.
pub open spec fn locked_in(locked: Seq<OutPoint>, op: OutPoint) -> bool {
    exists|k: int| 0 <= k < locked.len() && same_out_point(#[trigger] locked[k], op)
}

/// The live cell that `info` describes.
pub open spec fn info_cell(info: LiveCellInfo) -> LiveCell {
    LiveCell { tx_hash: info.tx_hash, index: info.output_index, capacity: info.capacity, mature: info.mature }
}

/// The candidate at `m` may fund a transaction: it holds neither data nor a
/// type script, and it is not reserved.
pub open spec fn usable_at(c: Seq<OutPoint>, cands: Seq<LiveCellInfo>, m: int) -> bool {
    cands[m].data_bytes == 0 && !cands[m].has_type && !locked_in(c, out_point_of(info_cell(cands[m])))
}

/// The candidate at `m` is usable and no earlier usable candidate has its
/// out point.
pub open spec fn is_fresh(c: Seq<OutPoint>, cands: Seq<LiveCellInfo>, m: int) -> bool {
    &&& usable_at(c, cands, m)
    &&& forall|q: int| 0 <= q < m && usable_at(c, cands, q) ==> !same_out_point(
        out_point_of(info_cell(cands[q])),
        out_point_of(#[trigger] info_cell(cands[m])),
    )
}

/// A usable candidate shares its out point with a fresh one at or before it.
proof fn lemma_first_fresh(c: Seq<OutPoint>, cands: Seq<LiveCellInfo>, m: int)
    requires
        0 <= m < cands.len(),
        usable_at(c, cands, m),
    ensures
        exists|m0: int| 0 <= m0 <= m && is_fresh(c, cands, m0) && same_out_point(
            out_point_of(info_cell(cands[m0])),
            out_point_of(info_cell(cands[m])),
        ),
    decreases m,
{
    if is_fresh(c, cands, m) {
        assert(same_out_point(out_point_of(info_cell(cands[m])), out_point_of(info_cell(cands[m]))));
    } else {
        let q = choose|q: int| 0 <= q < m && usable_at(c, cands, q) && same_out_point(
            out_point_of(info_cell(cands[q])),
            out_point_of(#[trigger] info_cell(cands[m])),
        );
        lemma_first_fresh(c, cands, q);
        let m0 = choose|m0: int| 0 <= m0 <= q && is_fresh(c, cands, m0) && same_out_point(
            out_point_of(info_cell(cands[m0])),
            out_point_of(info_cell(cands[q])),
        );
        assert(same_out_point(out_point_of(info_cell(cands[m0])), out_point_of(info_cell(cands[m]))));
    }
}

/// The fresh candidates among the first `n`, as live cells, in order.
pub open spec fn fresh_cells(c: Seq<OutPoint>, cands: Seq<LiveCellInfo>, n: int) -> Seq<LiveCell>
    decreases n,
{
    if n <= 0 {
        Seq::empty()
    } else if is_fresh(c, cands, n - 1) {
        fresh_cells(c, cands, n - 1).push(info_cell(cands[n - 1]))
    } else {
        fresh_cells(c, cands, n - 1)
    }
}

/// `fresh_cells` holds a cell at the out point of `cell` just where a fresh
/// candidate among the first `n` has it.
proof fn lemma_fresh_cells_contain(c: Seq<OutPoint>, cands: Seq<LiveCellInfo>, n: int, cell: LiveCell)
    requires
        0 <= n <= cands.len(),
    ensures
        contains_out_point_spec(fresh_cells(c, cands, n), cell) <==> exists|m: int|
            0 <= m < n && is_fresh(c, cands, m) && same_out_point(out_point_of(#[trigger] info_cell(cands[m])), out_point_of(cell)),
    decreases n,
{
    if n > 0 {
        lemma_fresh_cells_contain(c, cands, n - 1, cell);
        let prev = fresh_cells(c, cands, n - 1);
        if is_fresh(c, cands, n - 1) {
            let cur = prev.push(info_cell(cands[n - 1]));
            if contains_out_point_spec(cur, cell) {
                let k = choose|k: int| 0 <= k < cur.len() && same_out_point(out_point_of(#[trigger] cur[k]), out_point_of(cell));
                if k < prev.len() {
                    assert(cur[k] == prev[k]);
                    assert(contains_out_point_spec(prev, cell));
                }
            }
            if exists|m: int| 0 <= m < n && is_fresh(c, cands, m) && same_out_point(out_point_of(#[trigger] info_cell(cands[m])), out_point_of(cell)) {
                let m = choose|m: int| 0 <= m < n && is_fresh(c, cands, m) && same_out_point(out_point_of(#[trigger] info_cell(cands[m])), out_point_of(cell));
                if m == n - 1 {
                    assert(cur[prev.len() as int] == info_cell(cands[m]));
                } else {
                    let k = choose|k: int| 0 <= k < prev.len() && same_out_point(out_point_of(#[trigger] prev[k]), out_point_of(cell));
                    assert(cur[k] == prev[k]);
                }
            }
        }
    }
}

/// The candidate at `i` is fresh just where it is usable and the fresh
/// candidates before it hold no cell at its out point.
proof fn lemma_fresh_step(c: Seq<OutPoint>, cands: Seq<LiveCellInfo>, i: int)
    requires
        0 <= i < cands.len(),
    ensures
        is_fresh(c, cands, i) <==> (usable_at(c, cands, i) && !contains_out_point_spec(fresh_cells(c, cands, i), info_cell(cands[i]))),
{
    let cell = info_cell(cands[i]);
    lemma_fresh_cells_contain(c, cands, i, cell);
    if usable_at(c, cands, i) && !is_fresh(c, cands, i) {
        let q = choose|q: int| 0 <= q < i && usable_at(c, cands, q) && same_out_point(
            out_point_of(info_cell(cands[q])),
            out_point_of(#[trigger] info_cell(cands[i])),
        );
        lemma_first_fresh(c, cands, q);
        let m0 = choose|m0: int| 0 <= m0 <= q && is_fresh(c, cands, m0) && same_out_point(
            out_point_of(info_cell(cands[m0])),
            out_point_of(info_cell(cands[q])),
        );
        assert(same_out_point(out_point_of(info_cell(cands[m0])), out_point_of(cell)));
    }
}

/// The position just after the first prefix of `f`, from `k` on, whose
/// capacity exceeds `cap`; `f.len()` where none does.
pub open spec fn first_over(f: Seq<LiveCell>, cap: nat, k: int) -> int
    decreases f.len() - k,
{
    if k < 0 || k >= f.len() {
        f.len() as int
    } else if cells_capacity(f.subrange(0, k + 1)) > cap {
        k + 1
    } else {
        first_over(f, cap, k + 1)
    }
}

/// The shortest prefix of `f` whose capacity exceeds `cap`, where there is one.
pub open spec fn take_until(f: Seq<LiveCell>, cap: nat) -> Option<Seq<LiveCell>> {
    if cells_capacity(f) <= cap {
        None
    } else {
        Some(f.subrange(0, first_over(f, cap, 0)))
    }
}

proof fn lemma_capacity_mono(f: Seq<LiveCell>, a: int, b: int)
    requires
        0 <= a <= b <= f.len(),
    ensures
        cells_capacity(f.subrange(0, a)) <= cells_capacity(f.subrange(0, b)),
    decreases b - a,
{
    if a < b {
        lemma_capacity_mono(f, a, b - 1);
        assert(f.subrange(0, b).drop_last() == f.subrange(0, b - 1));
    }
}

proof fn lemma_first_over(f: Seq<LiveCell>, cap: nat, k: int, l: int)
    requires
        0 <= k < l <= f.len(),
        cells_capacity(f.subrange(0, l - 1)) <= cap,
        cells_capacity(f.subrange(0, l)) > cap,
    ensures
        first_over(f, cap, k) == l,
    decreases l - k,
{
    if k + 1 < l {
        lemma_capacity_mono(f, k + 1, l - 1);
        lemma_first_over(f, cap, k + 1, l);
    }
}

/// The fresh cells among fewer candidates are a prefix of those among more.
proof fn lemma_fresh_prefix(c: Seq<OutPoint>, cands: Seq<LiveCellInfo>, a: int, b: int)
    requires
        0 <= a <= b,
    ensures
        fresh_cells(c, cands, a).len() <= fresh_cells(c, cands, b).len(),
        fresh_cells(c, cands, b).subrange(0, fresh_cells(c, cands, a).len() as int) == fresh_cells(c, cands, a),
    decreases b - a,
{
    if a < b {
        lemma_fresh_prefix(c, cands, a, b - 1);
        let fa = fresh_cells(c, cands, a);
        let fb1 = fresh_cells(c, cands, b - 1);
        if b - 1 >= 0 && is_fresh(c, cands, b - 1) {
            let fb = fresh_cells(c, cands, b);
            assert(fb == fb1.push(info_cell(cands[b - 1])));
            assert(fb.subrange(0, fa.len() as int) =~= fb1.subrange(0, fa.len() as int));
        }
    } else {
        assert(fresh_cells(c, cands, b).subrange(0, fresh_cells(c, cands, a).len() as int) =~= fresh_cells(c, cands, a));
    }
}

/// Where the first `n` candidates' fresh cells first exceed `cap`, they are
/// the shortest prefix of all fresh cells that does.
proof fn lemma_take_until(c: Seq<OutPoint>, cands: Seq<LiveCellInfo>, n: int, cap: nat)
    requires
        0 < n <= cands.len(),
        is_fresh(c, cands, n - 1),
        cells_capacity(fresh_cells(c, cands, n - 1)) <= cap,
        cells_capacity(fresh_cells(c, cands, n)) > cap,
    ensures
        take_until(fresh_cells(c, cands, cands.len() as int), cap) == Some(fresh_cells(c, cands, n)),
{
    let f = fresh_cells(c, cands, cands.len() as int);
    let r = fresh_cells(c, cands, n);
    let r1 = fresh_cells(c, cands, n - 1);
    lemma_fresh_prefix(c, cands, n, cands.len() as int);
    lemma_fresh_prefix(c, cands, n - 1, n);
    assert(r == r1.push(info_cell(cands[n - 1])));
    let l = r.len() as int;
    assert(f.subrange(0, l) == r);
    assert(f.subrange(0, l - 1) =~= r1);
    lemma_first_over(f, cap, 0, l);
    lemma_capacity_mono(f, l, f.len() as int);
    assert(f.subrange(0, f.len() as int) == f);
}

/// No fresh cell is reserved.
proof fn lemma_fresh_unlocked(c: Seq<OutPoint>, cands: Seq<LiveCellInfo>, n: int)
    requires
        0 <= n <= cands.len(),
    ensures
        forall|k: int| 0 <= k < fresh_cells(c, cands, n).len() ==> !locked_in(c, out_point_of(#[trigger] fresh_cells(c, cands, n)[k])),
    decreases n,
{
    if n > 0 {
        lemma_fresh_unlocked(c, cands, n - 1);
        let prev = fresh_cells(c, cands, n - 1);
        if is_fresh(c, cands, n - 1) {
            assert forall|k: int| 0 <= k < fresh_cells(c, cands, n).len() implies !locked_in(c, out_point_of(#[trigger] fresh_cells(c, cands, n)[k])) by {
                if k < prev.len() {
                    assert(fresh_cells(c, cands, n)[k] == prev[k]);
                }
            }
        }
    }
}

/// The fresh cells among more candidates extend those among fewer.
proof fn lemma_fresh_cells_grow(c: Seq<OutPoint>, cands: Seq<LiveCellInfo>, a: int, b: int)
    requires
        0 <= a <= b,
    ensures
        cells_capacity(fresh_cells(c, cands, a)) <= cells_capacity(fresh_cells(c, cands, b)),
    decreases b - a,
{
    if a < b {
        lemma_fresh_cells_grow(c, cands, a, b - 1);
        if is_fresh(c, cands, b - 1) {
            assert(fresh_cells(c, cands, b).drop_last() == fresh_cells(c, cands, b - 1));
        }
    }
}

pub open spec fn contains_out_point_spec(cells: Seq<LiveCell>, cell: LiveCell) -> bool {
    exists|k: int| 0 <= k < cells.len() && same_out_point(out_point_of(#[trigger] cells[k]), out_point_of(cell))
}

/// Whether `cells` holds a cell at the out point of `cell`.
fn contains_out_point(cells: &Vec<LiveCell>, cell: &LiveCell) -> (r: bool)
    ensures
        r == contains_out_point_spec(cells@, *cell),
{
    let mut k: usize = 0;
    while k < cells.len()
        invariant
            k <= cells@.len(),
            forall|m: int|
                0 <= m < k ==> !same_out_point(out_point_of(#[trigger] cells@[m]), out_point_of(*cell)),
        decreases cells@.len() - k,
    {
        if crate::transaction::hash_equal(&cells[k].tx_hash, &cell.tx_hash) && cells[k].index
            == cell.index {
            return true;
        }
        k = k + 1;
    }
    false
}

} // verus!
