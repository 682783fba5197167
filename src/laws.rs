//! What holds of the engine across calls and runs.
use crate::classify::{class_indices, class_of, find_pre, PreInput, UnitClass};
use crate::codec::ckb_data_hash;
use crate::completion::{change_output_of, required_of};
use crate::dep_groups::member_out_points;
use crate::deployment_process::{cell_recipe_of, cell_units, cells_of, changed_cell_type, new_cell_type, output_of};
use crate::dep_groups::{group_units, groups_of};
use crate::manage::{step_spec, DeployAction, DeployEvent, DeployState};
use crate::recipe::{cell_views, find_cell, find_cell_from, CellRecipe, CellRecipeModel};
use crate::transaction::{cells_capacity, outputs_capacity, LiveCell, ScriptModel, TransactionModel};
use vstd::prelude::*;

verus! {

/// Where the ledger holds, under each declared name, the payload that name
/// declares (as after a run with the same declaration and no change on the
/// ledger since), every unit is unchanged: nothing is new or changed, so no
/// transaction is built.
pub proof fn lemma_idempotence(units: Seq<(Seq<char>, Seq<u8>)>, pre: Seq<PreInput>)
    requires
        forall|i: int| 0 <= i < units.len() ==> {
            let j = find_pre(pre, (#[trigger] units[i]).0);
            0 <= j < pre.len() && pre[j].2@ == units[i].1
        },
    ensures
        class_indices(units, pre, UnitClass::Unchanged).len() == units.len(),
        class_indices(units, pre, UnitClass::Changed).len() == 0,
        class_indices(units, pre, UnitClass::New).len() == 0,
    decreases units.len(),
{
    if units.len() > 0 {
        let init = units.drop_last();
        assert forall|i: int| 0 <= i < init.len() implies {
            let j = find_pre(pre, (#[trigger] init[i]).0);
            0 <= j < pre.len() && pre[j].2@ == init[i].1
        } by {
            assert(init[i] == units[i]);
        }
        lemma_idempotence(init, pre);
        let last = units[units.len() - 1];
        assert(class_of(last.0, last.1, pre) == UnitClass::Unchanged);
    }
}

/// A second run of the cells transaction, against a ledger that holds under
/// each declared cell's name the payload the cell declares, finds no new or
/// changed cell, so it builds no transaction.
pub proof fn lemma_idempotent_cells(cells: Seq<(crate::config::Cell, Vec<u8>)>, pre: Seq<PreInput>)
    requires
        forall|i: int| 0 <= i < cells.len() ==> {
            let j = find_pre(pre, (#[trigger] cells[i]).0.name@);
            0 <= j < pre.len() && pre[j].2@ == cells[i].1@
        },
    ensures
        cells_of(cells, pre, UnitClass::New).len() == 0,
        cells_of(cells, pre, UnitClass::Changed).len() == 0,
{
    let units = cell_units(cells);
    assert forall|i: int| 0 <= i < units.len() implies {
        let j = find_pre(pre, (#[trigger] units[i]).0);
        0 <= j < pre.len() && pre[j].2@ == units[i].1
    } by {
        assert(units[i] == (cells[i].0.name@, cells[i].1@));
    }
    lemma_idempotence(units, pre);
}

/// The same for the groups transaction: where the ledger holds under each
/// group's name the payload its members resolve to, nothing is built.
pub proof fn lemma_idempotent_groups(groups: Seq<crate::config::DepGroup>, recipes: Seq<CellRecipe>, pre: Seq<PreInput>)
    requires
        forall|g: int| 0 <= g < groups.len() ==> {
            let j = find_pre(pre, (#[trigger] groups[g]).name@);
            0 <= j < pre.len() && pre[j].2@ == crate::dep_groups::group_data(groups[g], recipes)
        },
    ensures
        groups_of(groups, recipes, pre, UnitClass::New).len() == 0,
        groups_of(groups, recipes, pre, UnitClass::Changed).len() == 0,
{
    let units = group_units(groups, recipes);
    assert forall|i: int| 0 <= i < units.len() implies {
        let j = find_pre(pre, (#[trigger] units[i]).0);
        0 <= j < pre.len() && pre[j].2@ == units[i].1
    } by {
        assert(units[i] == (groups[i].name@, crate::dep_groups::group_data(groups[i], recipes)));
    }
    lemma_idempotence(units, pre);
}

/// A cell with an identity keeps it across an upgrade: the identity its
/// first deployment derived is carried by its output, and the next
/// deployment, which changes its payload, inherits it from there. The data
/// hashes are those of each payload.
pub proof fn lemma_identity_continuity(
    name: Seq<char>,
    lock: ScriptModel,
    first_input: LiveCell,
    first_index: u32,
    v1: Seq<u8>,
    upgrade_input: LiveCell,
    upgrade_index: u32,
    v2: Seq<u8>,
)
    ensures
        ({
            let t1 = new_cell_type(true, first_input, first_index as nat);
            let out1 = output_of(lock, t1, v1);
            let t2 = changed_cell_type(true, out1.type_, upgrade_input, upgrade_index as nat);
            let r1 = cell_recipe_of(name, first_index, lock, t1, v1);
            let r2 = cell_recipe_of(name, upgrade_index, lock, t2, v2);
            &&& r1.type_id is Some
            &&& r2.type_id == r1.type_id
            &&& r1.data_hash == ckb_data_hash(v1)
            &&& r2.data_hash == ckb_data_hash(v2)
        }),
{
}

/// A completed transaction spends exactly what it creates plus the fee: the
/// inputs it started with and the funding cells hold what its outputs,
/// change included, hold, and the fee.
pub proof fn lemma_capacity_conservation(
    tx: TransactionModel,
    original_inputs_capacity: u64,
    fee: u64,
    change_lock: ScriptModel,
    funding: Seq<LiveCell>,
)
    requires
        original_inputs_capacity + cells_capacity(funding) >= required_of(tx, fee, change_lock),
        original_inputs_capacity + cells_capacity(funding) <= u64::MAX,
    ensures
        ({
            let total = (original_inputs_capacity + cells_capacity(funding)) as nat;
            let required = required_of(tx, fee, change_lock);
            let outputs = tx.outputs.push(change_output_of(change_lock, total, required));
            total == outputs_capacity(outputs) + fee
        }),
{
    let total = (original_inputs_capacity + cells_capacity(funding)) as nat;
    let required = required_of(tx, fee, change_lock);
    let outputs = tx.outputs.push(change_output_of(change_lock, total, required));
    assert(outputs.drop_last() == tx.outputs);
    assert(required >= crate::transaction::occupied_of(change_lock, None, 0));
    assert(outputs.last().capacity == total - required + crate::transaction::occupied_of(change_lock, None, 0));
}

/// A group member names the cell whose first record is one of those the
/// cells transaction just built (from position `from` on): once that
/// transaction's hash `h` is set in them, the member resolves to `h`, not to
/// any earlier record.
pub proof fn lemma_fresh_resolution(
    before: Seq<CellRecipe>,
    after: Seq<CellRecipe>,
    from: int,
    h: [u8; 32],
    group: crate::config::DepGroup,
    m: int,
)
    requires
        0 <= m < group.cells@.len(),
        after.len() == before.len(),
        forall|k: int| 0 <= k < from && k < before.len() ==> (#[trigger] after[k])@ == before[k]@,
        forall|k: int| from <= k < before.len() ==> (#[trigger] after[k])@ == (CellRecipeModel { tx_hash: h@, ..before[k]@ }),
        from <= find_cell(cell_views(before), group.cells@[m]@),
    ensures
        member_out_points(group, after)[m].0@ == h@,
        member_out_points(group, after)[m].1 == before[find_cell(cell_views(before), group.cells@[m]@)].index,
{
    let name = group.cells@[m]@;
    let vb = cell_views(before);
    let va = cell_views(after);
    lemma_same_names_find(vb, va, name, 0);
    crate::recipe::lemma_find_cell_range(vb, name, 0);
    let j = find_cell(vb, name);
    assert(after[j]@ == (CellRecipeModel { tx_hash: h@, ..before[j]@ }));
}

proof fn lemma_same_names_find(a: Seq<CellRecipeModel>, b: Seq<CellRecipeModel>, name: Seq<char>, i: int)
    requires
        a.len() == b.len(),
        forall|k: int| 0 <= k < a.len() ==> (#[trigger] a[k]).name == b[k].name,
    ensures
        find_cell_from(a, name, i) == find_cell_from(b, name, i),
    decreases a.len() - i,
{
    if 0 <= i < a.len() && a[i].name != name {
        lemma_same_names_find(a, b, name, i + 1);
    }
}

/// A run that finds the record of an incomplete run stops at once with a
/// recovery error, before it looks anything up on the ledger.
pub proof fn lemma_recovery_gate()
    ensures
        step_spec(DeployState::Idle, DeployEvent::Start { incomplete_exists: true }) == (
            DeployState::Failed,
            DeployAction::StopIncomplete,
        ),
{
}

/// Once its record is written, a run never goes back to planning, so it
/// never sends anything again on its own: it completes or stops.
pub proof fn lemma_no_retry(state: DeployState, event: DeployEvent)
    requires
        state == DeployState::SnapshotStarted || state == DeployState::Broadcasting,
    ensures
        step_spec(state, event).1 != DeployAction::BuildPlan,
        step_spec(state, event).0 != DeployState::Idle,
        step_spec(state, event).0 != DeployState::Planning,
{
}

/// Building the cells transaction of a declaration that matches, under each
/// name, what the ledger holds, builds no transaction.
pub proof fn lemma_idempotent_build(
    recipes: Vec<CellRecipe>,
    tx: Option<crate::transaction::Transaction>,
    locked: Seq<crate::transaction::OutPoint>,
    cells: Seq<(crate::config::Cell, Vec<u8>)>,
    pre: Seq<PreInput>,
    inherited: Seq<Option<crate::transaction::Script>>,
    cands: Seq<crate::collector::LiveCellInfo>,
    h: [u8; 32],
    fee: u64,
    change_lock: ScriptModel,
    lock: ScriptModel,
    prior: Seq<CellRecipe>,
)
    requires
        crate::bake::cells_built(recipes, tx, locked, cells, pre, inherited, cands, h, fee, change_lock, lock, prior),
        forall|i: int| 0 <= i < cells.len() ==> {
            let j = find_pre(pre, (#[trigger] cells[i]).0.name@);
            0 <= j < pre.len() && pre[j].2@ == cells[i].1@
        },
    ensures
        tx is None,
{
    lemma_idempotent_cells(cells, pre);
    let (pr, ptx) = choose|pr: Vec<CellRecipe>, ptx: Option<crate::transaction::Transaction>|
        crate::bake::cells_built_with(pr, ptx, recipes, tx, locked, cells, pre, inherited, cands, h, fee, change_lock, lock, prior);
    reveal(crate::bake::cells_built_with);
    reveal(crate::deployment_process::cells_plan_holds);
}

/// A group member naming a cell whose first record is one the cells
/// transaction just built resolves to that transaction's hash, however the
/// cell was recorded before.
pub proof fn lemma_member_resolves_to_built_hash(
    pr: Vec<CellRecipe>,
    ptx: Option<crate::transaction::Transaction>,
    recipes: Vec<CellRecipe>,
    done: crate::transaction::Transaction,
    locked: Seq<crate::transaction::OutPoint>,
    cells: Seq<(crate::config::Cell, Vec<u8>)>,
    pre: Seq<PreInput>,
    inherited: Seq<Option<crate::transaction::Script>>,
    cands: Seq<crate::collector::LiveCellInfo>,
    h: [u8; 32],
    fee: u64,
    change_lock: ScriptModel,
    lock: ScriptModel,
    prior: Seq<CellRecipe>,
    group: crate::config::DepGroup,
    m: int,
)
    requires
        crate::bake::cells_built_with(pr, ptx, recipes, Some(done), locked, cells, pre, inherited, cands, h, fee, change_lock, lock, prior),
        0 <= m < group.cells@.len(),
        crate::deployment_process::cells_of(cells, pre, UnitClass::Unchanged).len() <= find_cell(cell_views(recipes@), group.cells@[m]@) < pr@.len(),
    ensures
        member_out_points(group, recipes@)[m].0@ == crate::molecule::tx_hash_of(done@),
{
    reveal(crate::bake::cells_built_with);
    let k = find_cell(cell_views(recipes@), group.cells@[m]@);
    let views = cell_views(recipes@);
    assert(views[k] == cell_views(recipes@)[k]);
    assert(views[k].tx_hash == recipes@[k].tx_hash@);
}

} // verus!
