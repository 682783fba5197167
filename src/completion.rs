//! Completing a built transaction: the dependency on the ledger's signature
//! lock, the funding inputs, the change output, and the hash that its records
//! then carry.
use crate::collector::out_point_of;
use crate::recipe::{CellRecipe, CellRecipeModel, DepGroupRecipe, DepGroupRecipeModel};
use crate::transaction::{
    cells_capacity, occupied_capacity, occupied_of, outputs_capacity, CellDep, CellOutput,
    CellOutputModel, LiveCell, OutPoint, Script, ScriptModel, Transaction, TransactionModel,
    DEP_TYPE_DEP_GROUP,
};
use crate::deployment_process::DeployError;
use vstd::prelude::*;

verus! {

/// Adds the dependency on the group of cells that holds the signature lock:
/// output 0 of the given transaction of the genesis block.
pub fn complete_tx_lock_deps(tx: Transaction, lock_group_tx_hash: [u8; 32]) -> (r: Transaction)
    ensures
        r@ == (TransactionModel {
            cell_deps: tx@.cell_deps.push(CellDep {
                out_point: OutPoint { tx_hash: lock_group_tx_hash, index: 0 },
                dep_type: DEP_TYPE_DEP_GROUP,
            }),
            ..tx@
        }),
{
    let mut tx = tx;
    tx.cell_deps.push(CellDep { out_point: OutPoint { tx_hash: lock_group_tx_hash, index: 0 }, dep_type: DEP_TYPE_DEP_GROUP });
    tx
}

/// The sum of the capacities of `outputs`, where it fits in 64 bits.
pub fn sum_outputs_capacity(outputs: &Vec<CellOutput>) -> (r: Option<u64>)
    ensures
        r is Some <==> outputs_capacity(outputs@.map_values(|o: CellOutput| o@)) <= u64::MAX,
        r is Some ==> r->0 == outputs_capacity(outputs@.map_values(|o: CellOutput| o@)),
{
    let ghost all = outputs@.map_values(|o: CellOutput| o@);
    let mut sum: u64 = 0;
    let mut i: usize = 0;
    while i < outputs.len()
        invariant
            i <= outputs@.len(),
            all == outputs@.map_values(|o: CellOutput| o@),
            sum == outputs_capacity(all.subrange(0, i as int)),
        decreases outputs@.len() - i,
    {
        assert(all.subrange(0, i as int + 1).drop_last() == all.subrange(0, i as int));
        if outputs[i].capacity > u64::MAX - sum {
            proof {
                lemma_outputs_capacity_prefix(all, i as int + 1);
            }
            return None;
        }
        sum = sum + outputs[i].capacity;
        i = i + 1;
    }
    assert(all.subrange(0, outputs@.len() as int) == all);
    Some(sum)
}

proof fn lemma_outputs_capacity_prefix(all: Seq<CellOutputModel>, n: int)
    requires
        0 <= n <= all.len(),
    ensures
        outputs_capacity(all.subrange(0, n)) <= outputs_capacity(all),
    decreases all.len() - n,
{
    if n < all.len() {
        lemma_outputs_capacity_prefix(all, n + 1);
        assert(all.subrange(0, n + 1).drop_last() == all.subrange(0, n));
    } else {
        assert(all.subrange(0, n) == all);
    }
}

proof fn lemma_cells_capacity_prefix(all: Seq<LiveCell>, n: int)
    requires
        0 <= n <= all.len(),
    ensures
        cells_capacity(all.subrange(0, n)) <= cells_capacity(all),
    decreases all.len() - n,
{
    if n < all.len() {
        lemma_cells_capacity_prefix(all, n + 1);
        assert(all.subrange(0, n + 1).drop_last() == all.subrange(0, n));
    } else {
        assert(all.subrange(0, n) == all);
    }
}

/// The sum of the capacities of `cells`, where it fits in 64 bits.
pub fn sum_cells_capacity(cells: &Vec<LiveCell>) -> (r: Option<u64>)
    ensures
        r is Some <==> cells_capacity(cells@) <= u64::MAX,
        r is Some ==> r->0 == cells_capacity(cells@),
{
    let mut sum: u64 = 0;
    let mut i: usize = 0;
    while i < cells.len()
        invariant
            i <= cells@.len(),
            sum == cells_capacity(cells@.subrange(0, i as int)),
        decreases cells@.len() - i,
    {
        assert(cells@.subrange(0, i as int + 1).drop_last() == cells@.subrange(0, i as int));
        if cells[i].capacity > u64::MAX - sum {
            proof {
                lemma_cells_capacity_prefix(cells@, i as int + 1);
            }
            return None;
        }
        sum = sum + cells[i].capacity;
        i = i + 1;
    }
    assert(cells@.subrange(0, cells@.len() as int) == cells@);
    Some(sum)
}

/// What the funding of `tx` must cover: its outputs, the fee, and the change
/// output's own deposit.
pub open spec fn required_of(tx: TransactionModel, fee: u64, change_lock: ScriptModel) -> nat {
    (outputs_capacity(tx.outputs) + fee + occupied_of(change_lock, None, 0)) as nat
}

/// What the funding of `tx` must cover, where it fits in 64 bits.
pub fn required_capacity(tx: &Transaction, fee: u64, change_lock: &Script) -> (r: Option<u64>)
    ensures
        r is Some <==> required_of(tx@, fee, change_lock@) <= u64::MAX,
        r is Some ==> r->0 == required_of(tx@, fee, change_lock@),
{
    let occ = occupied_capacity(change_lock, &None, 0);
    let outs = sum_outputs_capacity(&tx.outputs);
    match (occ, outs) {
        (Some(o), Some(s)) => {
            if s > u64::MAX - fee || s + fee > u64::MAX - o {
                None
            } else {
                Some(s + fee + o)
            }
        },
        _ => None,
    }
}

/// The change output of a transaction whose inputs hold `total` and whose
/// funding must cover `required`.
pub open spec fn change_output_of(change_lock: ScriptModel, total: nat, required: nat) -> CellOutputModel {
    CellOutputModel {
        capacity: (total - required + occupied_of(change_lock, None, 0)) as u64,
        lock: change_lock,
        type_: None,
    }
}

/// Completes `tx` with the funding cells as further inputs and one change
/// output under `change_lock` that returns what the inputs hold beyond the
/// outputs and the fee. `original_inputs_capacity` is what the inputs
/// already in `tx` hold.
pub fn complete_tx_inputs(
    tx: Transaction,
    original_inputs_capacity: u64,
    fee: u64,
    change_lock: &Script,
    funding: &Vec<LiveCell>,
) -> (r: Result<Transaction, DeployError>)
    ensures
        ({
            let required = required_of(tx@, fee, change_lock@);
            let total = (original_inputs_capacity + cells_capacity(funding@)) as nat;
            &&& (r is Err && r->Err_0 is CapacityOverflow) <==> (required > u64::MAX || total > u64::MAX)
            &&& (r is Err && r->Err_0 is InsufficientCapacity) <==> (required <= u64::MAX && total <= u64::MAX && total < required)
            &&& r is Ok <==> (required <= u64::MAX && total <= u64::MAX && total >= required)
            &&& r is Ok ==> r->Ok_0@ == (TransactionModel {
                cell_deps: tx@.cell_deps,
                inputs: tx@.inputs + funding@.map_values(|c: LiveCell| out_point_of(c)),
                outputs: tx@.outputs.push(change_output_of(change_lock@, total, required)),
                outputs_data: tx@.outputs_data.push(Seq::empty()),
            })
        }),
        r is Ok ==> original_inputs_capacity + cells_capacity(funding@) == outputs_capacity(r->Ok_0@.outputs) + fee,
{
    let required = match required_capacity(&tx, fee, change_lock) {
        Some(v) => v,
        None => {
            return Err(DeployError::CapacityOverflow);
        },
    };
    let collected = match sum_cells_capacity(funding) {
        Some(v) => v,
        None => {
            return Err(DeployError::CapacityOverflow);
        },
    };
    if collected > u64::MAX - original_inputs_capacity {
        return Err(DeployError::CapacityOverflow);
    }
    let total = original_inputs_capacity + collected;
    if total < required {
        return Err(DeployError::InsufficientCapacity);
    }
    let change_occupied = match occupied_capacity(change_lock, &None, 0) {
        Some(v) => v,
        None => {
            return Err(DeployError::CapacityOverflow);
        },
    };
    let change = total - required + change_occupied;
    let ghost before = tx@;
    let mut tx = tx;
    let mut i: usize = 0;
    while i < funding.len()
        invariant
            i <= funding@.len(),
            tx@.inputs == before.inputs + funding@.subrange(0, i as int).map_values(|c: LiveCell| out_point_of(c)),
            tx@.outputs == before.outputs,
            tx@.outputs_data == before.outputs_data,
            tx@.cell_deps == before.cell_deps,
        decreases funding@.len() - i,
    {
        tx.inputs.push(funding[i].out_point());
        assert(funding@.subrange(0, i as int + 1).map_values(|c: LiveCell| out_point_of(c))
            == funding@.subrange(0, i as int).map_values(|c: LiveCell| out_point_of(c)).push(out_point_of(funding@[i as int])));
        i = i + 1;
    }
    assert(funding@.subrange(0, funding@.len() as int) == funding@);
    tx.outputs.push(CellOutput { capacity: change, lock: change_lock.duplicate(), type_: None });
    tx.outputs_data.push(Vec::new());
    proof {
        let outs = tx@.outputs;
        assert(outs =~= before.outputs.push(change_output_of(change_lock@, total as nat, required as nat)));
        assert(outs.drop_last() == before.outputs);
    }
    assert(tx@.outputs_data =~= before.outputs_data.push(Seq::empty()));
    Ok(tx)
}

/// Sets the transaction hash of the records from position `from` on: the
/// records of the outputs of the transaction just completed.
pub fn backfill_cell_recipes(recipes: &mut Vec<CellRecipe>, from: usize, tx_hash: [u8; 32])
    ensures
        final(recipes)@.len() == old(recipes)@.len(),
        forall|k: int| 0 <= k < from && k < old(recipes)@.len() ==> (#[trigger] final(recipes)@[k])@ == old(recipes)@[k]@,
        forall|k: int| from <= k < old(recipes)@.len() ==> (#[trigger] final(recipes)@[k])@ == (CellRecipeModel { tx_hash: tx_hash@, ..old(recipes)@[k]@ }),
{
    let ghost start = recipes@;
    let mut k: usize = from;
    while k < recipes.len()
        invariant
            recipes@.len() == start.len(),
            from <= k,
            forall|q: int| 0 <= q < from && q < start.len() ==> (#[trigger] recipes@[q])@ == start[q]@,
            forall|q: int| from <= q < k && q < start.len() ==> (#[trigger] recipes@[q])@ == (CellRecipeModel { tx_hash: tx_hash@, ..start[q]@ }),
            forall|q: int| k <= q < start.len() ==> (#[trigger] recipes@[q])@ == start[q]@,
        decreases recipes@.len() - k,
    {
        let mut r = recipes[k].duplicate();
        r.tx_hash = tx_hash;
        recipes.set(k, r);
        k = k + 1;
    }
}

/// Sets the transaction hash of the group records from position `from` on.
pub fn backfill_group_recipes(recipes: &mut Vec<DepGroupRecipe>, from: usize, tx_hash: [u8; 32])
    ensures
        final(recipes)@.len() == old(recipes)@.len(),
        forall|k: int| 0 <= k < from && k < old(recipes)@.len() ==> (#[trigger] final(recipes)@[k])@ == old(recipes)@[k]@,
        forall|k: int| from <= k < old(recipes)@.len() ==> (#[trigger] final(recipes)@[k])@ == (DepGroupRecipeModel { tx_hash: tx_hash@, ..old(recipes)@[k]@ }),
{
    let ghost start = recipes@;
    let mut k: usize = from;
    while k < recipes.len()
        invariant
            recipes@.len() == start.len(),
            from <= k,
            forall|q: int| 0 <= q < from && q < start.len() ==> (#[trigger] recipes@[q])@ == start[q]@,
            forall|q: int| from <= q < k && q < start.len() ==> (#[trigger] recipes@[q])@ == (DepGroupRecipeModel { tx_hash: tx_hash@, ..start[q]@ }),
            forall|q: int| k <= q < start.len() ==> (#[trigger] recipes@[q])@ == start[q]@,
        decreases recipes@.len() - k,
    {
        let mut r = recipes[k].duplicate();
        r.tx_hash = tx_hash;
        recipes.set(k, r);
        k = k + 1;
    }
}

} // verus!
