//! One planning pass: each transaction is planned, funded by cells not yet
//! reserved, given its change output, hashed, and its hash written into the
//! records of its outputs; the groups are resolved against those records.
use crate::classify::{classify, is_partition_of, unit_views, PreInput, UnitClass};
use crate::collector::{fresh_cells, out_point_of, take_until, Collector, LiveCellInfo};
use crate::completion::{
    backfill_cell_recipes, backfill_group_recipes, change_output_of, complete_tx_inputs, complete_tx_lock_deps,
    required_capacity, required_of, sum_cells_capacity,
};
use crate::config::{Cell, DepGroup};
use crate::dep_groups::{group_unit_list, group_units, groups_inputs, groups_missing_recipe, groups_of, groups_overflow, groups_plan_holds, groups_plan_tx, groups_resolved, unresolved_named};
use crate::deployment_process::{
    cell_unit_list, cell_units, cells_inputs, cells_lack_seed, cells_missing_recipe, cells_of, cells_overflow, cells_plan_holds, cells_plan_tx,
    DeployError, DeploymentProcess,
};
use crate::molecule::{tx_fits, tx_hash, tx_hash_of};
use crate::tx_check::{deps_found, output_code_found, tx_check, GenesisTx};
use crate::recipe::{cell_views, group_views, CellRecipe, CellRecipeModel, DepGroupRecipe, DepGroupRecipeModel, DeploymentRecipe};
use crate::transaction::{cells_capacity, CellDep, LiveCell, OutPoint, Script, ScriptModel, Transaction, TransactionModel, BakedTransaction, DEP_TYPE_DEP_GROUP};
use vstd::prelude::*;

verus! {

/// The dependency on the group of cells that holds the signature lock.
pub open spec fn lock_dep(h: [u8; 32]) -> CellDep {
    CellDep { out_point: OutPoint { tx_hash: h, index: 0 }, dep_type: DEP_TYPE_DEP_GROUP }
}


/// `t` with the dependency on the signature lock's group added.
pub open spec fn with_lock_dep(t: TransactionModel, h: [u8; 32]) -> TransactionModel {
    TransactionModel { cell_deps: t.cell_deps.push(lock_dep(h)), ..t }
}

/// `plan` completed: the lock dependency added, the funding cells spent
/// after its own inputs, and one change output that returns what the inputs
/// (`spent` held by the planned ones) hold beyond the outputs and the fee.
pub open spec fn completed_of(plan: TransactionModel, h: [u8; 32], spent: nat, fee: u64, change_lock: ScriptModel, funding: Seq<LiveCell>) -> TransactionModel {
    let t = with_lock_dep(plan, h);
    TransactionModel {
        cell_deps: t.cell_deps,
        inputs: t.inputs + funding.map_values(|c: LiveCell| out_point_of(c)),
        outputs: t.outputs.push(change_output_of(change_lock, (spent + cells_capacity(funding)) as nat, required_of(t, fee, change_lock))),
        outputs_data: t.outputs_data.push(Seq::empty()),
    }
}

/// The candidates that may fund a transaction while `locked` is reserved:
/// no data, no type script, not reserved, each out point once.
pub open spec fn all_fresh(locked: Seq<OutPoint>, cands: Seq<LiveCellInfo>) -> Seq<LiveCell> {
    fresh_cells(locked, cands, cands.len() as int)
}

/// The funding cells of `plan`: the first fresh candidates, once the planned
/// inputs are reserved too, whose capacity exceeds what it needs.
pub open spec fn funding_of(locked: Seq<OutPoint>, cands: Seq<LiveCellInfo>, plan: TransactionModel, h: [u8; 32], fee: u64, change_lock: ScriptModel) -> Option<Seq<LiveCell>> {
    take_until(all_fresh(locked + plan.inputs, cands), required_of(with_lock_dep(plan, h), fee, change_lock))
}

/// Funding and completing `plan`, whose inputs hold `spent`, succeeds.
pub open spec fn funds(locked: Seq<OutPoint>, cands: Seq<LiveCellInfo>, plan: TransactionModel, h: [u8; 32], spent: nat, fee: u64, change_lock: ScriptModel) -> bool {
    let f = funding_of(locked, cands, plan, h, fee, change_lock);
    &&& spent <= u64::MAX
    &&& required_of(with_lock_dep(plan, h), fee, change_lock) <= u64::MAX
    &&& f is Some
    &&& spent + cells_capacity(f->0) <= u64::MAX
    &&& tx_fits(completed_of(plan, h, spent, fee, change_lock, f->0))
}

/// The fresh candidates do not cover what `plan` needs.
pub open spec fn funds_short(locked: Seq<OutPoint>, cands: Seq<LiveCellInfo>, plan: TransactionModel, h: [u8; 32], spent: nat, fee: u64, change_lock: ScriptModel) -> bool {
    &&& spent <= u64::MAX
    &&& required_of(with_lock_dep(plan, h), fee, change_lock) <= u64::MAX
    &&& funding_of(locked, cands, plan, h, fee, change_lock) is None
}

/// The completed transaction of `plan`.
pub open spec fn funded_tx(locked: Seq<OutPoint>, cands: Seq<LiveCellInfo>, plan: TransactionModel, h: [u8; 32], spent: nat, fee: u64, change_lock: ScriptModel) -> TransactionModel {
    completed_of(plan, h, spent, fee, change_lock, funding_of(locked, cands, plan, h, fee, change_lock)->0)
}

pub open spec fn cells_idle(cells: Seq<(Cell, Vec<u8>)>, pre: Seq<PreInput>) -> bool {
    cells_of(cells, pre, UnitClass::New).len() == 0 && cells_of(cells, pre, UnitClass::Changed).len() == 0
}

/// The cells transaction needs seed cells: no changed cell offers an input.
pub open spec fn cells_need_seed(cells: Seq<(Cell, Vec<u8>)>, pre: Seq<PreInput>) -> bool {
    cells_of(cells, pre, UnitClass::Changed).len() == 0 && cells_of(cells, pre, UnitClass::New).len() > 0
}

/// The seed cells: where needed, the first fresh candidates whose capacity
/// exceeds one shannon.
pub open spec fn cells_seed(locked: Seq<OutPoint>, cells: Seq<(Cell, Vec<u8>)>, pre: Seq<PreInput>, cands: Seq<LiveCellInfo>) -> Seq<LiveCell> {
    if cells_need_seed(cells, pre) && take_until(all_fresh(locked, cands), 1) is Some {
        take_until(all_fresh(locked, cands), 1)->0
    } else {
        Seq::empty()
    }
}

pub open spec fn cells_seed_short(locked: Seq<OutPoint>, cells: Seq<(Cell, Vec<u8>)>, pre: Seq<PreInput>, cands: Seq<LiveCellInfo>) -> bool {
    cells_need_seed(cells, pre) && take_until(all_fresh(locked, cands), 1) is None
}

/// What the cells transaction's planned inputs hold.
pub open spec fn cells_spent(cells: Seq<(Cell, Vec<u8>)>, pre: Seq<PreInput>, seed: Seq<LiveCell>) -> nat {
    cells_capacity(cells_inputs(cells, pre, seed))
}

/// Building the cells transaction succeeds.
pub open spec fn cells_ok(
    locked: Seq<OutPoint>, cells: Seq<(Cell, Vec<u8>)>, pre: Seq<PreInput>, inherited: Seq<Option<Script>>, cands: Seq<LiveCellInfo>,
    h: [u8; 32], fee: u64, change_lock: ScriptModel, lock: ScriptModel, prior: Seq<CellRecipe>,
) -> bool {
    let seed = cells_seed(locked, cells, pre, cands);
    &&& !cells_missing_recipe(cells, pre, prior)
    &&& (cells_idle(cells, pre) || (!cells_seed_short(locked, cells, pre, cands) && !cells_overflow(cells, pre, seed, inherited, lock)
        && funds(locked, cands, cells_plan_tx(cells, pre, seed, inherited, lock), h, cells_spent(cells, pre, seed), fee, change_lock)))
}

/// Building the cells transaction fails for want of funding cells.
pub open spec fn cells_short(
    locked: Seq<OutPoint>, cells: Seq<(Cell, Vec<u8>)>, pre: Seq<PreInput>, inherited: Seq<Option<Script>>, cands: Seq<LiveCellInfo>,
    h: [u8; 32], fee: u64, change_lock: ScriptModel, lock: ScriptModel, prior: Seq<CellRecipe>,
) -> bool {
    let seed = cells_seed(locked, cells, pre, cands);
    &&& !cells_missing_recipe(cells, pre, prior)
    &&& !cells_idle(cells, pre)
    &&& (cells_seed_short(locked, cells, pre, cands) || (!cells_overflow(cells, pre, seed, inherited, lock)
        && funds_short(locked, cands, cells_plan_tx(cells, pre, seed, inherited, lock), h, cells_spent(cells, pre, seed), fee, change_lock)))
}

/// `recipes` and `tx` are the cells transaction, planned as `pr`/`ptx` with
/// the seed cells, then funded, completed and hashed; the records of its
/// outputs carry its hash, and the undeclared records follow.
#[verifier::opaque]
pub open spec fn cells_built_with(
    pr: Vec<CellRecipe>, ptx: Option<Transaction>, recipes: Vec<CellRecipe>, tx: Option<Transaction>,
    locked: Seq<OutPoint>, cells: Seq<(Cell, Vec<u8>)>, pre: Seq<PreInput>, inherited: Seq<Option<Script>>, cands: Seq<LiveCellInfo>,
    h: [u8; 32], fee: u64, change_lock: ScriptModel, lock: ScriptModel, prior: Seq<CellRecipe>,
) -> bool {
    let seed = cells_seed(locked, cells, pre, cands);
    let u = cells_of(cells, pre, UnitClass::Unchanged).len();
    let carried = carried_cells(prior, cell_names(cells));
    &&& cells_plan_holds(pr, ptx, cells, pre, seed, inherited, lock, prior)
    &&& (ptx is None <==> tx is None)
    &&& ptx is None ==> cell_views(recipes@) == cell_views(pr@) + carried
    &&& ptx is Some ==> {
        let plan = ptx->0@;
        let spent = cells_spent(cells, pre, seed);
        let done = funded_tx(locked, cands, plan, h, spent, fee, change_lock);
        &&& funds(locked, cands, plan, h, spent, fee, change_lock)
        &&& spent + cells_capacity(funding_of(locked, cands, plan, h, fee, change_lock)->0) >= required_of(with_lock_dep(plan, h), fee, change_lock)
        &&& tx->0@ == done
        &&& cell_views(recipes@) == hashed_from(cell_views(pr@), u as int, |r: CellRecipeModel| CellRecipeModel { tx_hash: tx_hash_of(done), ..r }) + carried
    }
}

pub open spec fn cells_built(
    recipes: Vec<CellRecipe>, tx: Option<Transaction>,
    locked: Seq<OutPoint>, cells: Seq<(Cell, Vec<u8>)>, pre: Seq<PreInput>, inherited: Seq<Option<Script>>, cands: Seq<LiveCellInfo>,
    h: [u8; 32], fee: u64, change_lock: ScriptModel, lock: ScriptModel, prior: Seq<CellRecipe>,
) -> bool {
    exists|pr: Vec<CellRecipe>, ptx: Option<Transaction>|
        cells_built_with(pr, ptx, recipes, tx, locked, cells, pre, inherited, cands, h, fee, change_lock, lock, prior)
}

pub open spec fn groups_idle(groups: Seq<DepGroup>, recs: Seq<CellRecipe>, pre: Seq<PreInput>) -> bool {
    groups_of(groups, recs, pre, UnitClass::New).len() == 0 && groups_of(groups, recs, pre, UnitClass::Changed).len() == 0
}

pub open spec fn groups_need_seed(groups: Seq<DepGroup>, recs: Seq<CellRecipe>, pre: Seq<PreInput>) -> bool {
    groups_of(groups, recs, pre, UnitClass::Changed).len() == 0 && groups_of(groups, recs, pre, UnitClass::New).len() > 0
}

pub open spec fn groups_seed(locked: Seq<OutPoint>, groups: Seq<DepGroup>, recs: Seq<CellRecipe>, pre: Seq<PreInput>, cands: Seq<LiveCellInfo>) -> Seq<LiveCell> {
    if groups_need_seed(groups, recs, pre) && take_until(all_fresh(locked, cands), 1) is Some {
        take_until(all_fresh(locked, cands), 1)->0
    } else {
        Seq::empty()
    }
}

pub open spec fn groups_seed_short(locked: Seq<OutPoint>, groups: Seq<DepGroup>, recs: Seq<CellRecipe>, pre: Seq<PreInput>, cands: Seq<LiveCellInfo>) -> bool {
    groups_need_seed(groups, recs, pre) && take_until(all_fresh(locked, cands), 1) is None
}

pub open spec fn groups_spent(groups: Seq<DepGroup>, recs: Seq<CellRecipe>, pre: Seq<PreInput>, seed: Seq<LiveCell>) -> nat {
    cells_capacity(groups_inputs(groups, recs, pre, seed))
}

/// Building the groups transaction succeeds.
pub open spec fn groups_ok(
    locked: Seq<OutPoint>, groups: Seq<DepGroup>, recs: Seq<CellRecipe>, pre: Seq<PreInput>, cands: Seq<LiveCellInfo>,
    h: [u8; 32], fee: u64, change_lock: ScriptModel, lock: ScriptModel, prior: Seq<DepGroupRecipe>,
) -> bool {
    let seed = groups_seed(locked, groups, recs, pre, cands);
    &&& groups_resolved(groups, recs)
    &&& !groups_missing_recipe(groups, recs, pre, prior)
    &&& (groups_idle(groups, recs, pre) || (!groups_seed_short(locked, groups, recs, pre, cands) && !groups_overflow(groups, recs, pre, lock)
        && funds(locked, cands, groups_plan_tx(groups, recs, pre, seed, lock), h, groups_spent(groups, recs, pre, seed), fee, change_lock)))
}

/// Building the groups transaction fails for want of funding cells.
pub open spec fn groups_short(
    locked: Seq<OutPoint>, groups: Seq<DepGroup>, recs: Seq<CellRecipe>, pre: Seq<PreInput>, cands: Seq<LiveCellInfo>,
    h: [u8; 32], fee: u64, change_lock: ScriptModel, lock: ScriptModel, prior: Seq<DepGroupRecipe>,
) -> bool {
    let seed = groups_seed(locked, groups, recs, pre, cands);
    &&& groups_resolved(groups, recs)
    &&& !groups_missing_recipe(groups, recs, pre, prior)
    &&& !groups_idle(groups, recs, pre)
    &&& (groups_seed_short(locked, groups, recs, pre, cands) || (!groups_overflow(groups, recs, pre, lock)
        && funds_short(locked, cands, groups_plan_tx(groups, recs, pre, seed, lock), h, groups_spent(groups, recs, pre, seed), fee, change_lock)))
}

/// The same as `cells_built_with`, for the groups transaction.
#[verifier::opaque]
pub open spec fn groups_built_with(
    pr: Vec<DepGroupRecipe>, ptx: Option<Transaction>, recipes: Vec<DepGroupRecipe>, tx: Option<Transaction>,
    locked: Seq<OutPoint>, groups: Seq<DepGroup>, recs: Seq<CellRecipe>, pre: Seq<PreInput>, cands: Seq<LiveCellInfo>,
    h: [u8; 32], fee: u64, change_lock: ScriptModel, lock: ScriptModel, prior: Seq<DepGroupRecipe>,
) -> bool {
    let seed = groups_seed(locked, groups, recs, pre, cands);
    let u = groups_of(groups, recs, pre, UnitClass::Unchanged).len();
    let carried = carried_groups(prior, group_names(groups));
    &&& groups_plan_holds(pr, ptx, groups, recs, pre, seed, lock, prior)
    &&& (ptx is None <==> tx is None)
    &&& ptx is None ==> group_views(recipes@) == group_views(pr@) + carried
    &&& ptx is Some ==> {
        let plan = ptx->0@;
        let spent = groups_spent(groups, recs, pre, seed);
        let done = funded_tx(locked, cands, plan, h, spent, fee, change_lock);
        &&& funds(locked, cands, plan, h, spent, fee, change_lock)
        &&& spent + cells_capacity(funding_of(locked, cands, plan, h, fee, change_lock)->0) >= required_of(with_lock_dep(plan, h), fee, change_lock)
        &&& tx->0@ == done
        &&& group_views(recipes@) == hashed_from(group_views(pr@), u as int, |r: DepGroupRecipeModel| DepGroupRecipeModel { tx_hash: tx_hash_of(done), ..r }) + carried
    }
}

pub open spec fn groups_built(
    recipes: Vec<DepGroupRecipe>, tx: Option<Transaction>,
    locked: Seq<OutPoint>, groups: Seq<DepGroup>, recs: Seq<CellRecipe>, pre: Seq<PreInput>, cands: Seq<LiveCellInfo>,
    h: [u8; 32], fee: u64, change_lock: ScriptModel, lock: ScriptModel, prior: Seq<DepGroupRecipe>,
) -> bool {
    exists|pr: Vec<DepGroupRecipe>, ptx: Option<Transaction>|
        groups_built_with(pr, ptx, recipes, tx, locked, groups, recs, pre, cands, h, fee, change_lock, lock, prior)
}

/// A prefix that exceeds a capacity is not empty.
proof fn lemma_take_until_nonempty(f: Seq<LiveCell>, cap: nat)
    requires
        take_until(f, cap) is Some,
    ensures
        take_until(f, cap)->0.len() > 0,
        cells_capacity(take_until(f, cap)->0) > cap,
{
    lemma_first_over_exceeds(f, cap, 0);
}

proof fn lemma_first_over_exceeds(f: Seq<LiveCell>, cap: nat, k: int)
    requires
        0 <= k <= f.len(),
        cells_capacity(f) > cap,
        forall|j: int| 0 < j <= k ==> cells_capacity(#[trigger] f.subrange(0, j)) <= cap,
    ensures
        cells_capacity(f.subrange(0, crate::collector::first_over(f, cap, k))) > cap,
        crate::collector::first_over(f, cap, k) > 0,
    decreases f.len() - k,
{
    if k < f.len() && cells_capacity(f.subrange(0, k + 1)) <= cap {
        lemma_first_over_exceeds(f, cap, k + 1);
    } else if k >= f.len() {
        assert(f.subrange(0, f.len() as int) == f);
        if f.len() == 0 {
            assert(cells_capacity(f) == 0);
        }
    }
}

/// The records from position `from` on carry the hash `h`.
pub open spec fn hashed_from<T>(v: Seq<T>, from: int, f: spec_fn(T) -> T) -> Seq<T> {
    Seq::new(v.len(), |k: int| if k < from { v[k] } else { f(v[k]) })
}

pub open spec fn cell_names(cells: Seq<(Cell, Vec<u8>)>) -> Seq<Seq<char>> {
    cells.map_values(|c: (Cell, Vec<u8>)| c.0.name@)
}

pub open spec fn group_names(groups: Seq<DepGroup>) -> Seq<Seq<char>> {
    groups.map_values(|g: DepGroup| g.name@)
}

/// The records of the last deployment whose names are no longer declared:
/// nothing is ever removed, so they are carried forward.
pub open spec fn carried_cells(prior: Seq<CellRecipe>, declared: Seq<Seq<char>>) -> Seq<CellRecipeModel>
    decreases prior.len(),
{
    if prior.len() == 0 {
        Seq::empty()
    } else if declared.contains(prior.last().name@) {
        carried_cells(prior.drop_last(), declared)
    } else {
        carried_cells(prior.drop_last(), declared).push(prior.last()@)
    }
}

/// The group records of the last deployment whose names are no longer declared.
pub open spec fn carried_groups(prior: Seq<DepGroupRecipe>, declared: Seq<Seq<char>>) -> Seq<DepGroupRecipeModel>
    decreases prior.len(),
{
    if prior.len() == 0 {
        Seq::empty()
    } else if declared.contains(prior.last().name@) {
        carried_groups(prior.drop_last(), declared)
    } else {
        carried_groups(prior.drop_last(), declared).push(prior.last()@)
    }
}

fn cell_declared(cells: &Vec<(Cell, Vec<u8>)>, name: &String) -> (r: bool)
    ensures
        r == cell_names(cells@).contains(name@),
{
    let mut i: usize = 0;
    while i < cells.len()
        invariant
            i <= cells@.len(),
            forall|q: int| 0 <= q < i ==> cell_names(cells@)[q] != name@,
        decreases cells@.len() - i,
    {
        if cells[i].0.name == *name {
            assert(cell_names(cells@)[i as int] == name@);
            return true;
        }
        i = i + 1;
    }
    false
}

fn group_declared(groups: &Vec<DepGroup>, name: &String) -> (r: bool)
    ensures
        r == group_names(groups@).contains(name@),
{
    let mut i: usize = 0;
    while i < groups.len()
        invariant
            i <= groups@.len(),
            forall|q: int| 0 <= q < i ==> group_names(groups@)[q] != name@,
        decreases groups@.len() - i,
    {
        if groups[i].name == *name {
            assert(group_names(groups@)[i as int] == name@);
            return true;
        }
        i = i + 1;
    }
    false
}

/// Appends the records of `prior` whose names no declared cell bears.
pub fn append_carried_cells(out: &mut Vec<CellRecipe>, prior: &Vec<CellRecipe>, cells: &Vec<(Cell, Vec<u8>)>)
    ensures
        cell_views(final(out)@) == cell_views(old(out)@) + carried_cells(prior@, cell_names(cells@)),
{
    let ghost start = cell_views(out@);
    let mut i: usize = 0;
    while i < prior.len()
        invariant
            i <= prior@.len(),
            cell_views(out@) == start + carried_cells(prior@.subrange(0, i as int), cell_names(cells@)),
        decreases prior@.len() - i,
    {
        let ghost sub = prior@.subrange(0, i as int + 1);
        assert(sub.drop_last() == prior@.subrange(0, i as int));
        if !cell_declared(cells, &prior[i].name) {
            let ghost before = out@;
            out.push(prior[i].duplicate());
            assert(cell_views(out@) == cell_views(before).push(prior@[i as int]@));
        }
        i = i + 1;
    }
    assert(prior@.subrange(0, prior@.len() as int) == prior@);
}

/// Appends the group records of `prior` whose names no declared group bears.
pub fn append_carried_groups(out: &mut Vec<DepGroupRecipe>, prior: &Vec<DepGroupRecipe>, groups: &Vec<DepGroup>)
    ensures
        group_views(final(out)@) == group_views(old(out)@) + carried_groups(prior@, group_names(groups@)),
{
    let ghost start = group_views(out@);
    let mut i: usize = 0;
    while i < prior.len()
        invariant
            i <= prior@.len(),
            group_views(out@) == start + carried_groups(prior@.subrange(0, i as int), group_names(groups@)),
        decreases prior@.len() - i,
    {
        let ghost sub = prior@.subrange(0, i as int + 1);
        assert(sub.drop_last() == prior@.subrange(0, i as int));
        if !group_declared(groups, &prior[i].name) {
            let ghost before = out@;
            out.push(prior[i].duplicate());
            assert(group_views(out@) == group_views(before).push(prior@[i as int]@));
        }
        i = i + 1;
    }
    assert(prior@.subrange(0, prior@.len() as int) == prior@);
}

impl Collector {
    /// A copy of this set of reserved cells.
    pub fn duplicate(&self) -> (r: Collector)
        ensures
            r.locked_cells@ == self.locked_cells@,
    {
        let mut v: Vec<OutPoint> = Vec::new();
        let mut i: usize = 0;
        while i < self.locked_cells.len()
            invariant
                i <= self.locked_cells@.len(),
                v@ == self.locked_cells@.subrange(0, i as int),
            decreases self.locked_cells@.len() - i,
        {
            v.push(self.locked_cells[i]);
            assert(self.locked_cells@.subrange(0, i as int + 1) == self.locked_cells@.subrange(0, i as int).push(self.locked_cells@[i as int]));
            i = i + 1;
        }
        assert(self.locked_cells@.subrange(0, self.locked_cells@.len() as int) == self.locked_cells@);
        Collector { locked_cells: v }
    }

    /// Reserves each of `cells`.
    pub fn lock_cells(&mut self, cells: &Vec<LiveCell>)
        ensures
            final(self).locked_cells@ == old(self).locked_cells@ + cells@.map_values(|c: LiveCell| out_point_of(c)),
    {
        let mut i: usize = 0;
        while i < cells.len()
            invariant
                i <= cells@.len(),
                self.locked_cells@ == old(self).locked_cells@ + cells@.subrange(0, i as int).map_values(|c: LiveCell| out_point_of(c)),
            decreases cells@.len() - i,
        {
            self.lock_cell(cells[i].out_point());
            assert(cells@.subrange(0, i as int + 1).map_values(|c: LiveCell| out_point_of(c))
                == cells@.subrange(0, i as int).map_values(|c: LiveCell| out_point_of(c)).push(out_point_of(cells@[i as int])));
            i = i + 1;
        }
        assert(cells@.subrange(0, cells@.len() as int) == cells@);
    }
}

/// The records `precs` with the hash `h` from position `u` on, then the
/// records of `prior` that no declared cell names.
fn hash_cell_recipes(precs: Vec<CellRecipe>, u: usize, h: [u8; 32], prior: &Vec<CellRecipe>, cells: &Vec<(Cell, Vec<u8>)>) -> (r: Vec<CellRecipe>)
    ensures
        cell_views(r@) == hashed_from(cell_views(precs@), u as int, |x: CellRecipeModel| CellRecipeModel { tx_hash: h@, ..x })
            + carried_cells(prior@, cell_names(cells@)),
{
    let ghost pr = precs;
    let mut recs = precs;
    backfill_cell_recipes(&mut recs, u, h);
    assert(cell_views(recs@) =~= hashed_from(cell_views(pr@), u as int, |x: CellRecipeModel| CellRecipeModel { tx_hash: h@, ..x }));
    append_carried_cells(&mut recs, prior, cells);
    recs
}

/// The group records `precs` with the hash `h` from position `u` on, then
/// the records of `prior` that no declared group names.
fn hash_group_recipes(precs: Vec<DepGroupRecipe>, u: usize, h: [u8; 32], prior: &Vec<DepGroupRecipe>, groups: &Vec<DepGroup>) -> (r: Vec<DepGroupRecipe>)
    ensures
        group_views(r@) == hashed_from(group_views(precs@), u as int, |x: DepGroupRecipeModel| DepGroupRecipeModel { tx_hash: h@, ..x })
            + carried_groups(prior@, group_names(groups@)),
{
    let ghost pr = precs;
    let mut recs = precs;
    backfill_group_recipes(&mut recs, u, h);
    assert(group_views(recs@) =~= hashed_from(group_views(pr@), u as int, |x: DepGroupRecipeModel| DepGroupRecipeModel { tx_hash: h@, ..x }));
    append_carried_groups(&mut recs, prior, groups);
    recs
}

/// `tx` passes the check against the genesis block: its dependencies are
/// there, and every type script of its outputs finds its code among them.
pub open spec fn tx_checked(genesis: Seq<GenesisTx>, tx: Transaction) -> bool {
    deps_found(genesis, tx) && forall|k: int| 0 <= k < tx.outputs@.len() ==> output_code_found(genesis, tx, (#[trigger] tx.outputs@[k])@)
}

/// Where the seed cells are not short, the cells transaction has an input
/// for any identity it derives.
proof fn lemma_seed_enough(locked: Seq<OutPoint>, cells: Seq<(Cell, Vec<u8>)>, pre: Seq<PreInput>, cands: Seq<LiveCellInfo>)
    requires
        !cells_seed_short(locked, cells, pre, cands),
    ensures
        !cells_lack_seed(cells, pre, cells_seed(locked, cells, pre, cands)),
{
    if cells_need_seed(cells, pre) {
        lemma_take_until_nonempty(all_fresh(locked, cands), 1);
    }
}

proof fn lemma_cells_built(
    pr: Vec<CellRecipe>, ptx: Option<Transaction>, recipes: Vec<CellRecipe>, tx: Option<Transaction>,
    locked: Seq<OutPoint>, cells: Seq<(Cell, Vec<u8>)>, pre: Seq<PreInput>, inherited: Seq<Option<Script>>, cands: Seq<LiveCellInfo>,
    h: [u8; 32], fee: u64, change_lock: ScriptModel, lock: ScriptModel, prior: Seq<CellRecipe>,
)
    requires
        cells_built_with(pr, ptx, recipes, tx, locked, cells, pre, inherited, cands, h, fee, change_lock, lock, prior),
    ensures
        cells_built(recipes, tx, locked, cells, pre, inherited, cands, h, fee, change_lock, lock, prior),
{
}

proof fn lemma_groups_built(
    pr: Vec<DepGroupRecipe>, ptx: Option<Transaction>, recipes: Vec<DepGroupRecipe>, tx: Option<Transaction>,
    locked: Seq<OutPoint>, groups: Seq<DepGroup>, recs: Seq<CellRecipe>, pre: Seq<PreInput>, cands: Seq<LiveCellInfo>,
    h: [u8; 32], fee: u64, change_lock: ScriptModel, lock: ScriptModel, prior: Seq<DepGroupRecipe>,
)
    requires
        groups_built_with(pr, ptx, recipes, tx, locked, groups, recs, pre, cands, h, fee, change_lock, lock, prior),
    ensures
        groups_built(recipes, tx, locked, groups, recs, pre, cands, h, fee, change_lock, lock, prior),
{
}

impl DeploymentProcess {
    /// Completes `plan_tx`, whose inputs hold `spent`: adds the lock
    /// dependency, funds it with the first fresh candidates that exceed what
    /// it needs, reserves them, returns the change to `change_lock`, and
    /// hashes it.
    fn fund_and_hash(
        &mut self,
        plan_tx: Transaction,
        spent: u64,
        candidates: &Vec<LiveCellInfo>,
        lock_group_tx_hash: [u8; 32],
        change_lock: &Script,
    ) -> (r: Result<(Transaction, [u8; 32], Vec<LiveCell>), DeployError>)
        ensures
            final(self).config == old(self).config,
            final(self).recipe == old(self).recipe,
            final(self).tx_fee == old(self).tx_fee,
            ({
                let req = required_of(with_lock_dep(plan_tx@, lock_group_tx_hash), old(self).tx_fee, change_lock@);
                let f = take_until(all_fresh(old(self).collector.locked_cells@, candidates@), req);
                &&& (r is Err && r->Err_0 is InsufficientCapacity) <==> (req <= u64::MAX && f is None)
                &&& r is Ok <==> (req <= u64::MAX && f is Some && spent + cells_capacity(f->0) <= u64::MAX
                    && tx_fits(completed_of(plan_tx@, lock_group_tx_hash, spent as nat, old(self).tx_fee, change_lock@, f->0)))
                &&& r is Ok ==> r->Ok_0.2@ == f->0 && cells_capacity(f->0) > req
            }),
            r is Err ==> (r->Err_0 is InsufficientCapacity || r->Err_0 is CapacityOverflow),
            r is Err ==> final(self).collector.locked_cells@ == old(self).collector.locked_cells@,
            r is Ok ==> ({
                let (done, h, funding) = r->Ok_0;
                &&& done@ == completed_of(plan_tx@, lock_group_tx_hash, spent as nat, old(self).tx_fee, change_lock@, funding@)
                &&& h@ == tx_hash_of(done@)
                &&& final(self).collector.locked_cells@ == old(self).collector.locked_cells@ + funding@.map_values(|c: LiveCell| out_point_of(c))
            }),
    {
        let saved = self.collector.duplicate();
        let tx = complete_tx_lock_deps(plan_tx, lock_group_tx_hash);
        assert(tx@ == with_lock_dep(plan_tx@, lock_group_tx_hash));
        let required = match required_capacity(&tx, self.tx_fee, change_lock) {
            Some(v) => v,
            None => {
                return Err(DeployError::CapacityOverflow);
            },
        };
        let funding = match self.collector.collect_live_cells(candidates, required) {
            Some(v) => v,
            None => {
                return Err(DeployError::InsufficientCapacity);
            },
        };
        self.collector.lock_cells(&funding);
        let done = match complete_tx_inputs(tx, spent, self.tx_fee, change_lock, &funding) {
            Ok(t) => t,
            Err(e) => {
                self.collector = saved;
                return Err(e);
            },
        };
        let h = match tx_hash(&done) {
            Some(h) => h,
            None => {
                self.collector = saved;
                return Err(DeployError::CapacityOverflow);
            },
        };
        Ok((done, h, funding))
    }

    /// Builds the cells transaction: plans it (with seed cells, where no
    /// changed cell offers an input: the first fresh candidates exceeding one
    /// shannon), adds the lock dependency on `lock_group_tx_hash`, funds it
    /// with the first fresh candidates that exceed what it needs, returns
    /// the change to `change_lock`, and writes its hash into the records of
    /// its outputs. Records of cells no longer declared follow them.
    #[verifier::rlimit(60)]
    pub fn build_cells_recipe(
        &mut self,
        cells: &Vec<(Cell, Vec<u8>)>,
        pre_inputs: &Vec<PreInput>,
        inherited: &Vec<Option<Script>>,
        candidates: &Vec<LiveCellInfo>,
        lock_group_tx_hash: [u8; 32],
        change_lock: &Script,
    ) -> (r: Result<(Vec<CellRecipe>, Option<Transaction>), DeployError>)
        requires
            inherited@.len() == cells@.len(),
            cells@.len() <= u32::MAX,
        ensures
            (r is Err && r->Err_0 is MissingRecipe) <==> cells_missing_recipe(cells@, pre_inputs@, old(self).recipe.cell_recipes@),
            (r is Err && r->Err_0 is InsufficientCapacity) <==> cells_short(old(self).collector.locked_cells@, cells@, pre_inputs@,
                inherited@, candidates@, lock_group_tx_hash, old(self).tx_fee, change_lock@, old(self).config.lock@, old(self).recipe.cell_recipes@),
            r is Ok <==> cells_ok(old(self).collector.locked_cells@, cells@, pre_inputs@, inherited@, candidates@, lock_group_tx_hash,
                old(self).tx_fee, change_lock@, old(self).config.lock@, old(self).recipe.cell_recipes@),
            r is Err ==> (r->Err_0 is MissingRecipe || r->Err_0 is InsufficientCapacity || r->Err_0 is CapacityOverflow),
            final(self).config == old(self).config,
            final(self).recipe == old(self).recipe,
            final(self).tx_fee == old(self).tx_fee,
            r is Err ==> final(self).collector.locked_cells@ == old(self).collector.locked_cells@,
            r is Ok ==> cells_built(r->Ok_0.0, r->Ok_0.1, old(self).collector.locked_cells@, cells@, pre_inputs@, inherited@, candidates@,
                lock_group_tx_hash, old(self).tx_fee, change_lock@, old(self).config.lock@, old(self).recipe.cell_recipes@),
            r is Ok && r->Ok_0.1 is Some ==> final(self).collector.locked_cells@ == old(self).collector.locked_cells@ + r->Ok_0.1->0@.inputs,
            r is Ok && r->Ok_0.1 is None ==> final(self).collector.locked_cells@ == old(self).collector.locked_cells@,
            r is Ok ==> (r->Ok_0.1 is None <==> cells_idle(cells@, pre_inputs@)),
    {
        let ghost locked0 = old(self).collector.locked_cells@;
        let ghost s0 = *old(self);
        let saved = self.collector.duplicate();
        let units = cell_unit_list(cells);
        let p = classify(&units, pre_inputs);
        proof {
            crate::classify::lemma_class_counts(cell_units(cells@), pre_inputs@);
        }
        assert(crate::classify::as_ints(p.new@).len() == p.new@.len());
        assert(crate::classify::firsts(p.changed@).len() == p.changed@.len());
        assert(crate::classify::firsts(p.unchanged@).len() == p.unchanged@.len());
        let mut short = false;
        let seeds: Vec<LiveCell> = if p.needs_seed() {
            match self.collector.collect_live_cells(candidates, 1) {
                Some(v) => v,
                None => {
                    short = true;
                    Vec::new()
                },
            }
        } else {
            Vec::new()
        };
        assert(short == cells_seed_short(locked0, cells@, pre_inputs@, candidates@));
        assert(!short ==> seeds@ == cells_seed(locked0, cells@, pre_inputs@, candidates@));
        let planned = self.plan_cells(cells, pre_inputs, &seeds, inherited);
        if short {
            self.collector = saved;
            return match planned {
                Err(DeployError::MissingRecipe { name }) => Err(DeployError::MissingRecipe { name }),
                _ => Err(DeployError::InsufficientCapacity),
            };
        }
        proof {
            lemma_seed_enough(locked0, cells@, pre_inputs@, candidates@);
        }
        let (precs, ptx) = match planned {
            Ok(v) => v,
            Err(e) => {
                return Err(e);
            },
        };
        let ghost pr = precs;
        let plan_tx = match ptx {
            None => {
                let mut recs = precs;
                append_carried_cells(&mut recs, &self.recipe.cell_recipes, cells);
                assert(cells_built_with(pr, None, recs, None, locked0, cells@, pre_inputs@, inherited@, candidates@,
                    lock_group_tx_hash, s0.tx_fee, change_lock@, s0.config.lock@, s0.recipe.cell_recipes@)) by {
                    reveal(cells_built_with);
                }
                proof {
                    lemma_cells_built(pr, None, recs, None, locked0, cells@, pre_inputs@, inherited@, candidates@,
                        lock_group_tx_hash, s0.tx_fee, change_lock@, s0.config.lock@, s0.recipe.cell_recipes@);
                }
                return Ok((recs, None));
            },
            Some(t) => t,
        };
        proof {
            crate::deployment_process::lemma_cells_plan_tx(pr, plan_tx, cells@, pre_inputs@, seeds@, inherited@, s0.config.lock@, s0.recipe.cell_recipes@);
        }
        let spent_cells = p.spent_cells(pre_inputs, &seeds);
        proof {
            let pc = cells_of(cells@, pre_inputs@, UnitClass::Changed);
            assert(crate::classify::firsts(p.changed@) == pc);
            if p.changed@.len() > 0 {
                assert forall|m: int| 0 <= m < pc.len() implies #[trigger] spent_cells@[m] == crate::deployment_process::live_of(cells@, pre_inputs@, pc[m]) by {
                    let (i, j) = p.changed@[m];
                    assert(cell_units(cells@)[i as int].0 == cells@[i as int].0.name@);
                }
                assert(spent_cells@ =~= cells_inputs(cells@, pre_inputs@, seeds@));
            }
        }
        let u = p.unchanged.len();
        let r = self.finish_cells(cells, pre_inputs, inherited, &seeds, &spent_cells, u, precs, plan_tx, candidates, lock_group_tx_hash, change_lock, Ghost(locked0));
        match r {
            Ok(v) => Ok(v),
            Err(e) => {
                self.collector = saved;
                Err(e)
            },
        }
    }

    /// The funded, hashed cells transaction and its records, from its plan.
    fn finish_cells(
        &mut self,
        cells: &Vec<(Cell, Vec<u8>)>,
        pre_inputs: &Vec<PreInput>,
        inherited: &Vec<Option<Script>>,
        seeds: &Vec<LiveCell>,
        spent_cells: &Vec<LiveCell>,
        u: usize,
        precs: Vec<CellRecipe>,
        plan_tx: Transaction,
        candidates: &Vec<LiveCellInfo>,
        lock_group_tx_hash: [u8; 32],
        change_lock: &Script,
        locked0: Ghost<Seq<OutPoint>>,
    ) -> (r: Result<(Vec<CellRecipe>, Option<Transaction>), DeployError>)
        requires
            cells_plan_holds(precs, Some(plan_tx), cells@, pre_inputs@, seeds@, inherited@, old(self).config.lock@, old(self).recipe.cell_recipes@),
            seeds@ == cells_seed(locked0@, cells@, pre_inputs@, candidates@),
            plan_tx@ == cells_plan_tx(cells@, pre_inputs@, seeds@, inherited@, old(self).config.lock@),
            spent_cells@ == cells_inputs(cells@, pre_inputs@, seeds@),
            old(self).collector.locked_cells@ == locked0@ + plan_tx@.inputs,
            u == cells_of(cells@, pre_inputs@, UnitClass::Unchanged).len(),
        ensures
            final(self).config == old(self).config,
            final(self).recipe == old(self).recipe,
            final(self).tx_fee == old(self).tx_fee,
            (r is Err && r->Err_0 is InsufficientCapacity) <==> funds_short(locked0@, candidates@, plan_tx@, lock_group_tx_hash,
                cells_capacity(spent_cells@), old(self).tx_fee, change_lock@),
            r is Ok <==> funds(locked0@, candidates@, plan_tx@, lock_group_tx_hash, cells_capacity(spent_cells@), old(self).tx_fee, change_lock@),
            r is Err ==> (r->Err_0 is InsufficientCapacity || r->Err_0 is CapacityOverflow),
            r is Ok ==> r->Ok_0.1 is Some,
            r is Ok ==> cells_built(r->Ok_0.0, r->Ok_0.1, locked0@, cells@, pre_inputs@, inherited@, candidates@,
                lock_group_tx_hash, old(self).tx_fee, change_lock@, old(self).config.lock@, old(self).recipe.cell_recipes@),
            r is Ok ==> final(self).collector.locked_cells@ == locked0@ + r->Ok_0.1->0@.inputs,
    {
        let ghost s0 = *old(self);
        let ghost pr = precs;
        let ghost ptx_g = Some(plan_tx);
        let spent = match sum_cells_capacity(spent_cells) {
            Some(v) => v,
            None => {
                return Err(DeployError::CapacityOverflow);
            },
        };
        let (done, h, funding) = match self.fund_and_hash(plan_tx, spent, candidates, lock_group_tx_hash, change_lock) {
            Ok(v) => v,
            Err(e) => {
                return Err(e);
            },
        };
        assert(self.collector.locked_cells@ =~= locked0@ + done@.inputs);
        let recs = hash_cell_recipes(precs, u, h, &self.recipe.cell_recipes, cells);
        assert(cells_built_with(pr, ptx_g, recs, Some(done), locked0@, cells@, pre_inputs@, inherited@, candidates@,
            lock_group_tx_hash, s0.tx_fee, change_lock@, s0.config.lock@, s0.recipe.cell_recipes@)) by {
            reveal(cells_built_with);
        }
        proof {
            lemma_cells_built(pr, ptx_g, recs, Some(done), locked0@, cells@, pre_inputs@, inherited@, candidates@,
                lock_group_tx_hash, s0.tx_fee, change_lock@, s0.config.lock@, s0.recipe.cell_recipes@);
        }
        Ok((recs, Some(done)))
    }
}

impl DeploymentProcess {
    /// Builds the groups transaction as the cells transaction is built: each
    /// group's payload is the vector of its members' out points, looked up by
    /// name in `cell_recipes`, the records the cells transaction just fixed
    /// and hashed. Records of groups no longer declared are carried forward.
    #[verifier::rlimit(60)]
    pub fn build_dep_groups_recipe(
        &mut self,
        dep_groups: &Vec<DepGroup>,
        pre_inputs: &Vec<PreInput>,
        cell_recipes: &Vec<CellRecipe>,
        candidates: &Vec<LiveCellInfo>,
        lock_group_tx_hash: [u8; 32],
        change_lock: &Script,
    ) -> (r: Result<(Vec<DepGroupRecipe>, Option<Transaction>), DeployError>)
        requires
            dep_groups@.len() <= u32::MAX,
            forall|g: int| 0 <= g < dep_groups@.len() ==> (#[trigger] dep_groups@[g]).cells@.len() <= u32::MAX,
        ensures
            (r is Err && r->Err_0 is UnresolvedCell) <==> !groups_resolved(dep_groups@, cell_recipes@),
            r is Err && r->Err_0 is UnresolvedCell ==> unresolved_named(dep_groups@, cell_recipes@, r->Err_0),
            (r is Err && r->Err_0 is MissingRecipe) <==> (groups_resolved(dep_groups@, cell_recipes@)
                && groups_missing_recipe(dep_groups@, cell_recipes@, pre_inputs@, old(self).recipe.dep_group_recipes@)),
            (r is Err && r->Err_0 is InsufficientCapacity) <==> groups_short(old(self).collector.locked_cells@, dep_groups@, cell_recipes@,
                pre_inputs@, candidates@, lock_group_tx_hash, old(self).tx_fee, change_lock@, old(self).config.lock@, old(self).recipe.dep_group_recipes@),
            r is Ok <==> groups_ok(old(self).collector.locked_cells@, dep_groups@, cell_recipes@, pre_inputs@, candidates@, lock_group_tx_hash,
                old(self).tx_fee, change_lock@, old(self).config.lock@, old(self).recipe.dep_group_recipes@),
            r is Err ==> (r->Err_0 is UnresolvedCell || r->Err_0 is MissingRecipe || r->Err_0 is InsufficientCapacity
                || r->Err_0 is CapacityOverflow),
            final(self).config == old(self).config,
            final(self).recipe == old(self).recipe,
            final(self).tx_fee == old(self).tx_fee,
            r is Err ==> final(self).collector.locked_cells@ == old(self).collector.locked_cells@,
            r is Ok ==> groups_built(r->Ok_0.0, r->Ok_0.1, old(self).collector.locked_cells@, dep_groups@, cell_recipes@, pre_inputs@, candidates@,
                lock_group_tx_hash, old(self).tx_fee, change_lock@, old(self).config.lock@, old(self).recipe.dep_group_recipes@),
            r is Ok && r->Ok_0.1 is Some ==> final(self).collector.locked_cells@ == old(self).collector.locked_cells@ + r->Ok_0.1->0@.inputs,
            r is Ok && r->Ok_0.1 is None ==> final(self).collector.locked_cells@ == old(self).collector.locked_cells@,
            r is Ok ==> (r->Ok_0.1 is None <==> groups_idle(dep_groups@, cell_recipes@, pre_inputs@)),
    {
        let ghost locked0 = old(self).collector.locked_cells@;
        let ghost s0 = *old(self);
        let saved = self.collector.duplicate();
        let units = match group_unit_list(dep_groups, cell_recipes) {
            Ok(u) => u,
            Err(e) => {
                return Err(e);
            },
        };
        let ghost gu = group_units(dep_groups@, cell_recipes@);
        let p = classify(&units, pre_inputs);
        proof {
            crate::classify::lemma_class_counts(gu, pre_inputs@);
        }
        assert(crate::classify::as_ints(p.new@).len() == p.new@.len());
        assert(crate::classify::firsts(p.changed@).len() == p.changed@.len());
        assert(crate::classify::firsts(p.unchanged@).len() == p.unchanged@.len());
        let mut short = false;
        let seeds: Vec<LiveCell> = if p.needs_seed() {
            match self.collector.collect_live_cells(candidates, 1) {
                Some(v) => v,
                None => {
                    short = true;
                    Vec::new()
                },
            }
        } else {
            Vec::new()
        };
        assert(short == groups_seed_short(locked0, dep_groups@, cell_recipes@, pre_inputs@, candidates@));
        assert(!short ==> seeds@ == groups_seed(locked0, dep_groups@, cell_recipes@, pre_inputs@, candidates@));
        let planned = self.plan_dep_groups(dep_groups, pre_inputs, cell_recipes, &seeds);
        if short {
            self.collector = saved;
            return match planned {
                Err(DeployError::MissingRecipe { name }) => Err(DeployError::MissingRecipe { name }),
                _ => Err(DeployError::InsufficientCapacity),
            };
        }
        let (precs, ptx) = match planned {
            Ok(v) => v,
            Err(e) => {
                return Err(e);
            },
        };
        let ghost pr = precs;
        let plan_tx = match ptx {
            None => {
                let mut recs = precs;
                append_carried_groups(&mut recs, &self.recipe.dep_group_recipes, dep_groups);
                assert(groups_built_with(pr, None, recs, None, locked0, dep_groups@, cell_recipes@, pre_inputs@, candidates@,
                    lock_group_tx_hash, s0.tx_fee, change_lock@, s0.config.lock@, s0.recipe.dep_group_recipes@)) by {
                    reveal(groups_built_with);
                }
                proof {
                    lemma_groups_built(pr, None, recs, None, locked0, dep_groups@, cell_recipes@, pre_inputs@, candidates@,
                        lock_group_tx_hash, s0.tx_fee, change_lock@, s0.config.lock@, s0.recipe.dep_group_recipes@);
                }
                return Ok((recs, None));
            },
            Some(t) => t,
        };
        proof {
            crate::dep_groups::lemma_groups_plan_tx(pr, plan_tx, dep_groups@, cell_recipes@, pre_inputs@, seeds@, s0.config.lock@, s0.recipe.dep_group_recipes@);
        }
        let spent_cells = p.spent_cells(pre_inputs, &seeds);
        proof {
            let pc = groups_of(dep_groups@, cell_recipes@, pre_inputs@, UnitClass::Changed);
            assert(crate::classify::firsts(p.changed@) == pc);
            if p.changed@.len() > 0 {
                assert forall|m: int| 0 <= m < pc.len() implies #[trigger] spent_cells@[m] == pre_inputs@[crate::classify::find_pre(pre_inputs@, dep_groups@[pc[m]].name@)].1 by {
                    let (i, j) = p.changed@[m];
                    assert(gu[i as int].0 == dep_groups@[i as int].name@);
                }
                assert(spent_cells@ =~= groups_inputs(dep_groups@, cell_recipes@, pre_inputs@, seeds@));
            }
        }
        let u = p.unchanged.len();
        let r = self.finish_groups(dep_groups, pre_inputs, cell_recipes, &seeds, &spent_cells, u, precs, plan_tx, candidates, lock_group_tx_hash, change_lock, Ghost(locked0));
        match r {
            Ok(v) => Ok(v),
            Err(e) => {
                self.collector = saved;
                Err(e)
            },
        }
    }

    /// The funded, hashed groups transaction and its records, from its plan.
    fn finish_groups(
        &mut self,
        dep_groups: &Vec<DepGroup>,
        pre_inputs: &Vec<PreInput>,
        cell_recipes: &Vec<CellRecipe>,
        seeds: &Vec<LiveCell>,
        spent_cells: &Vec<LiveCell>,
        u: usize,
        precs: Vec<DepGroupRecipe>,
        plan_tx: Transaction,
        candidates: &Vec<LiveCellInfo>,
        lock_group_tx_hash: [u8; 32],
        change_lock: &Script,
        locked0: Ghost<Seq<OutPoint>>,
    ) -> (r: Result<(Vec<DepGroupRecipe>, Option<Transaction>), DeployError>)
        requires
            groups_plan_holds(precs, Some(plan_tx), dep_groups@, cell_recipes@, pre_inputs@, seeds@, old(self).config.lock@, old(self).recipe.dep_group_recipes@),
            seeds@ == groups_seed(locked0@, dep_groups@, cell_recipes@, pre_inputs@, candidates@),
            plan_tx@ == groups_plan_tx(dep_groups@, cell_recipes@, pre_inputs@, seeds@, old(self).config.lock@),
            spent_cells@ == groups_inputs(dep_groups@, cell_recipes@, pre_inputs@, seeds@),
            old(self).collector.locked_cells@ == locked0@ + plan_tx@.inputs,
            u == groups_of(dep_groups@, cell_recipes@, pre_inputs@, UnitClass::Unchanged).len(),
        ensures
            final(self).config == old(self).config,
            final(self).recipe == old(self).recipe,
            final(self).tx_fee == old(self).tx_fee,
            (r is Err && r->Err_0 is InsufficientCapacity) <==> funds_short(locked0@, candidates@, plan_tx@, lock_group_tx_hash,
                cells_capacity(spent_cells@), old(self).tx_fee, change_lock@),
            r is Ok <==> funds(locked0@, candidates@, plan_tx@, lock_group_tx_hash, cells_capacity(spent_cells@), old(self).tx_fee, change_lock@),
            r is Err ==> (r->Err_0 is InsufficientCapacity || r->Err_0 is CapacityOverflow),
            r is Ok ==> r->Ok_0.1 is Some,
            r is Ok ==> groups_built(r->Ok_0.0, r->Ok_0.1, locked0@, dep_groups@, cell_recipes@, pre_inputs@, candidates@,
                lock_group_tx_hash, old(self).tx_fee, change_lock@, old(self).config.lock@, old(self).recipe.dep_group_recipes@),
            r is Ok ==> final(self).collector.locked_cells@ == locked0@ + r->Ok_0.1->0@.inputs,
    {
        let ghost s0 = *old(self);
        let ghost pr = precs;
        let ghost ptx_g = Some(plan_tx);
        let spent = match sum_cells_capacity(spent_cells) {
            Some(v) => v,
            None => {
                return Err(DeployError::CapacityOverflow);
            },
        };
        let (done, h, funding) = match self.fund_and_hash(plan_tx, spent, candidates, lock_group_tx_hash, change_lock) {
            Ok(v) => v,
            Err(e) => {
                return Err(e);
            },
        };
        assert(self.collector.locked_cells@ =~= locked0@ + done@.inputs);
        let recs = hash_group_recipes(precs, u, h, &self.recipe.dep_group_recipes, dep_groups);
        assert(groups_built_with(pr, ptx_g, recs, Some(done), locked0@, dep_groups@, cell_recipes@, pre_inputs@, candidates@,
            lock_group_tx_hash, s0.tx_fee, change_lock@, s0.config.lock@, s0.recipe.dep_group_recipes@)) by {
            reveal(groups_built_with);
        }
        proof {
            lemma_groups_built(pr, ptx_g, recs, Some(done), locked0@, dep_groups@, cell_recipes@, pre_inputs@, candidates@,
                lock_group_tx_hash, s0.tx_fee, change_lock@, s0.config.lock@, s0.recipe.dep_group_recipes@);
        }
        Ok((recs, Some(done)))
    }
}

/// Once the cells transaction is built (records `crecs`, transaction `ctx`),
/// `r` is what building the groups transaction and checking both against
/// the genesis block give.
pub open spec fn prepare_after_cells(
    r: Result<(DeploymentRecipe, BakedTransaction), DeployError>,
    crecs: Vec<CellRecipe>, ctx: Option<Transaction>,
    locked: Seq<OutPoint>, groups: Seq<DepGroup>, pre: Seq<PreInput>, cands: Seq<LiveCellInfo>,
    h: [u8; 32], fee: u64, change_lock: ScriptModel, lock: ScriptModel, prior: Seq<DepGroupRecipe>, genesis: Seq<GenesisTx>,
) -> bool {
    let l1 = locked + if ctx is Some { ctx->0@.inputs } else { Seq::<OutPoint>::empty() };
    let ok = groups_ok(l1, groups, crecs@, pre, cands, h, fee, change_lock, lock, prior);
    &&& (r is Err && r->Err_0 is UnresolvedCell) <==> !groups_resolved(groups, crecs@)
    &&& (r is Err && r->Err_0 is UnresolvedCell) ==> unresolved_named(groups, crecs@, r->Err_0)
    &&& (r is Err && r->Err_0 is MissingRecipe) <==> (groups_resolved(groups, crecs@) && groups_missing_recipe(groups, crecs@, pre, prior))
    &&& (r is Err && r->Err_0 is InsufficientCapacity) <==> groups_short(l1, groups, crecs@, pre, cands, h, fee, change_lock, lock, prior)
    &&& (r is Err && r->Err_0 is MissingCode) ==> ok
    &&& ok ==> (r is Ok || (r is Err && r->Err_0 is MissingCode))
    &&& (ok && groups_idle(groups, crecs@, pre) && (ctx is Some ==> tx_checked(genesis, ctx->0))) ==> r is Ok
    &&& (ok && ctx is Some && !tx_checked(genesis, ctx->0)) ==> (r is Err && r->Err_0 is MissingCode)
    &&& r is Ok ==> {
        let (recipe, baked) = r->Ok_0;
        &&& recipe.cell_recipes == crecs
        &&& baked.cells == ctx
        &&& groups_built(recipe.dep_group_recipes, baked.dep_groups, l1, groups, crecs@, pre, cands, h, fee, change_lock, lock, prior)
        &&& (baked.dep_groups is None <==> groups_idle(groups, crecs@, pre))
        &&& baked.cells is Some ==> tx_checked(genesis, baked.cells->0)
        &&& baked.dep_groups is Some ==> tx_checked(genesis, baked.dep_groups->0)
    }
}

/// The cells transaction is built as `crecs`/`ctx`, and `r` follows from it.
pub open spec fn prepared_from(
    r: Result<(DeploymentRecipe, BakedTransaction), DeployError>,
    locked: Seq<OutPoint>, cells: Seq<(Cell, Vec<u8>)>, cells_pre: Seq<PreInput>, inherited: Seq<Option<Script>>,
    groups: Seq<DepGroup>, groups_pre: Seq<PreInput>, cands: Seq<LiveCellInfo>,
    h: [u8; 32], fee: u64, change_lock: ScriptModel, lock: ScriptModel, cell_prior: Seq<CellRecipe>, group_prior: Seq<DepGroupRecipe>,
    genesis: Seq<GenesisTx>,
) -> bool {
    exists|crecs: Vec<CellRecipe>, ctx: Option<Transaction>|
        cells_built(crecs, ctx, locked, cells, cells_pre, inherited, cands, h, fee, change_lock, lock, cell_prior)
        && (ctx is None <==> cells_idle(cells, cells_pre))
        && #[trigger] prepare_after_cells(r, crecs, ctx, locked, groups, groups_pre, cands, h, fee, change_lock, lock, group_prior, genesis)
}

proof fn lemma_prepared_from(
    crecs: Vec<CellRecipe>, ctx: Option<Transaction>,
    r: Result<(DeploymentRecipe, BakedTransaction), DeployError>,
    locked: Seq<OutPoint>, cells: Seq<(Cell, Vec<u8>)>, cells_pre: Seq<PreInput>, inherited: Seq<Option<Script>>,
    groups: Seq<DepGroup>, groups_pre: Seq<PreInput>, cands: Seq<LiveCellInfo>,
    h: [u8; 32], fee: u64, change_lock: ScriptModel, lock: ScriptModel, cell_prior: Seq<CellRecipe>, group_prior: Seq<DepGroupRecipe>,
    genesis: Seq<GenesisTx>,
)
    requires
        cells_built(crecs, ctx, locked, cells, cells_pre, inherited, cands, h, fee, change_lock, lock, cell_prior),
        ctx is None <==> cells_idle(cells, cells_pre),
        prepare_after_cells(r, crecs, ctx, locked, groups, groups_pre, cands, h, fee, change_lock, lock, group_prior, genesis),
    ensures
        prepared_from(r, locked, cells, cells_pre, inherited, groups, groups_pre, cands, h, fee, change_lock, lock, cell_prior, group_prior, genesis),
{
}

/// Some prior cell is locked by another lock than `wallet_lock`.
pub open spec fn locks_mismatch(cells_locks: Seq<Script>, groups_locks: Seq<Script>, wallet_lock: ScriptModel) -> bool {
    (exists|k: int| 0 <= k < cells_locks.len() && (#[trigger] cells_locks[k])@ != wallet_lock)
        || (exists|k: int| 0 <= k < groups_locks.len() && (#[trigger] groups_locks[k])@ != wallet_lock)
}

impl DeploymentProcess {
    /// One planning pass. It first checks that every cell found from the last
    /// deployment is locked by `wallet_lock` (`cells_locks[k]` is the lock of
    /// the `k`-th cell of `cells_pre_inputs`, and so for the groups), then
    /// builds the cells transaction, then the groups transaction against the
    /// records the cells transaction just fixed and hashed, and checks both
    /// against the genesis block. The change of both goes to `wallet_lock`.
    #[verifier::rlimit(60)]
    pub fn prepare_recipe(
        &mut self,
        cells: &Vec<(Cell, Vec<u8>)>,
        cells_pre_inputs: &Vec<PreInput>,
        dep_groups_pre_inputs: &Vec<PreInput>,
        cells_locks: &Vec<Script>,
        dep_groups_locks: &Vec<Script>,
        inherited: &Vec<Option<Script>>,
        candidates: &Vec<LiveCellInfo>,
        lock_group_tx_hash: [u8; 32],
        wallet_lock: &Script,
        genesis: &Vec<GenesisTx>,
    ) -> (r: Result<(DeploymentRecipe, BakedTransaction), DeployError>)
        requires
            inherited@.len() == cells@.len(),
            cells@.len() <= u32::MAX,
            cells_locks@.len() == cells_pre_inputs@.len(),
            dep_groups_locks@.len() == dep_groups_pre_inputs@.len(),
            old(self).config.dep_groups@.len() <= u32::MAX,
            forall|g: int| 0 <= g < old(self).config.dep_groups@.len() ==> (#[trigger] old(self).config.dep_groups@[g]).cells@.len() <= u32::MAX,
        ensures
            final(self).config == old(self).config,
            final(self).recipe == old(self).recipe,
            final(self).tx_fee == old(self).tx_fee,
            r is Err ==> final(self).collector.locked_cells@ == old(self).collector.locked_cells@,
            (r is Err && r->Err_0 is LockMismatch) <==> locks_mismatch(cells_locks@, dep_groups_locks@, wallet_lock@),
            (r is Err && r->Err_0 is LockMismatch) ==> (exists|k: int| 0 <= k < cells_pre_inputs@.len() && cells_locks@[k]@ != wallet_lock@
                && r->Err_0 == (DeployError::LockMismatch { name: #[trigger] cells_pre_inputs@[k].0 }))
                || (exists|k: int| 0 <= k < dep_groups_pre_inputs@.len() && dep_groups_locks@[k]@ != wallet_lock@
                && r->Err_0 == (DeployError::LockMismatch { name: #[trigger] dep_groups_pre_inputs@[k].0 })),
            !locks_mismatch(cells_locks@, dep_groups_locks@, wallet_lock@) && !cells_ok(old(self).collector.locked_cells@, cells@,
                cells_pre_inputs@, inherited@, candidates@, lock_group_tx_hash, old(self).tx_fee, wallet_lock@, old(self).config.lock@,
                old(self).recipe.cell_recipes@) ==> {
                &&& r is Err
                &&& (r->Err_0 is MissingRecipe <==> cells_missing_recipe(cells@, cells_pre_inputs@, old(self).recipe.cell_recipes@))
                &&& (r->Err_0 is InsufficientCapacity <==> cells_short(old(self).collector.locked_cells@, cells@, cells_pre_inputs@,
                    inherited@, candidates@, lock_group_tx_hash, old(self).tx_fee, wallet_lock@, old(self).config.lock@, old(self).recipe.cell_recipes@))
                &&& (r->Err_0 is MissingRecipe || r->Err_0 is InsufficientCapacity || r->Err_0 is CapacityOverflow)
            },
            !locks_mismatch(cells_locks@, dep_groups_locks@, wallet_lock@) && cells_ok(old(self).collector.locked_cells@, cells@,
                cells_pre_inputs@, inherited@, candidates@, lock_group_tx_hash, old(self).tx_fee, wallet_lock@, old(self).config.lock@,
                old(self).recipe.cell_recipes@) ==> prepared_from(r, old(self).collector.locked_cells@, cells@, cells_pre_inputs@, inherited@,
                old(self).config.dep_groups@, dep_groups_pre_inputs@, candidates@, lock_group_tx_hash, old(self).tx_fee, wallet_lock@,
                old(self).config.lock@, old(self).recipe.cell_recipes@, old(self).recipe.dep_group_recipes@, genesis@),
    {
        let ghost s0 = *old(self);
        let ghost locked0 = old(self).collector.locked_cells@;
        match crate::deployment_process::check_pre_inputs_unlockable(cells_pre_inputs, cells_locks, wallet_lock) {
            Ok(()) => {},
            Err(e) => {
                return Err(e);
            },
        }
        match crate::deployment_process::check_pre_inputs_unlockable(dep_groups_pre_inputs, dep_groups_locks, wallet_lock) {
            Ok(()) => {},
            Err(e) => {
                return Err(e);
            },
        }
        let saved = self.collector.duplicate();
        let (cell_recipes, cells_tx) = match self.build_cells_recipe(cells, cells_pre_inputs, inherited, candidates, lock_group_tx_hash, wallet_lock) {
            Ok(v) => v,
            Err(e) => {
                return Err(e);
            },
        };
        let ghost crecs = cell_recipes;
        let ghost ctx = cells_tx;
        let ghost l1 = self.collector.locked_cells@;
        assert(l1 == locked0 + if ctx is Some { ctx->0@.inputs } else { Seq::<OutPoint>::empty() });
        let mut groups: Vec<DepGroup> = Vec::new();
        std::mem::swap(&mut groups, &mut self.config.dep_groups);
        let built = self.build_dep_groups_recipe(&groups, dep_groups_pre_inputs, &cell_recipes, candidates, lock_group_tx_hash, wallet_lock);
        std::mem::swap(&mut groups, &mut self.config.dep_groups);
        let r = self.check_and_pack(cell_recipes, cells_tx, built, genesis);
        match &r {
            Err(_) => {
                self.collector = saved;
            },
            Ok(_) => {},
        }
        proof {
            lemma_prepared_from(crecs, ctx, r, locked0, cells@, cells_pre_inputs@, inherited@, s0.config.dep_groups@, dep_groups_pre_inputs@,
                candidates@, lock_group_tx_hash, s0.tx_fee, wallet_lock@, s0.config.lock@, s0.recipe.cell_recipes@, s0.recipe.dep_group_recipes@, genesis@);
        }
        r
    }

    fn check_and_pack(
        &self,
        cell_recipes: Vec<CellRecipe>,
        cells_tx: Option<Transaction>,
        built: Result<(Vec<DepGroupRecipe>, Option<Transaction>), DeployError>,
        genesis: &Vec<GenesisTx>,
    ) -> (r: Result<(DeploymentRecipe, BakedTransaction), DeployError>)
        ensures
            built is Err ==> r == Err::<(DeploymentRecipe, BakedTransaction), DeployError>(built->Err_0),
            built is Ok ==> ({
                let checked = (cells_tx is Some ==> tx_checked(genesis@, cells_tx->0))
                    && (built->Ok_0.1 is Some ==> tx_checked(genesis@, built->Ok_0.1->0));
                &&& (r is Ok <==> checked)
                &&& r is Err ==> r->Err_0 is MissingCode
                &&& r is Ok ==> r->Ok_0.0.cell_recipes == cell_recipes && r->Ok_0.1.cells == cells_tx
                    && r->Ok_0.0.dep_group_recipes == built->Ok_0.0 && r->Ok_0.1.dep_groups == built->Ok_0.1
            }),
    {
        let (group_recipes, groups_tx) = match built {
            Ok(v) => v,
            Err(e) => {
                return Err(e);
            },
        };
        match &cells_tx {
            Some(t) => {
                if tx_check(genesis, t).is_err() {
                    return Err(DeployError::MissingCode);
                }
            },
            None => {},
        }
        match &groups_tx {
            Some(t) => {
                if tx_check(genesis, t).is_err() {
                    return Err(DeployError::MissingCode);
                }
            },
            None => {},
        }
        Ok((DeploymentRecipe { cell_recipes, dep_group_recipes: group_recipes }, BakedTransaction { cells: cells_tx, dep_groups: groups_tx }))
    }
}

} // verus!
