//! The capacities a deployment plan reports before it is confirmed, computed
//! from the transactions that will be sent.
use crate::classify::{Partition, PreInput};
use crate::completion::sum_cells_capacity;
use crate::recipe::DeploymentRecipe;
use crate::transaction::{cells_capacity, LiveCell};
use crate::deployment_process::DeployError;
use crate::human_capacity::{human_of, HumanCapacity};
use crate::transaction::{occupied_capacity, occupied_of, BakedTransaction, CellOutput, CellOutputModel, Transaction, TransactionModel};
use vstd::prelude::*;

verus! {

/// The deposit occupied by the first `n` outputs that carry data.
pub open spec fn occupied_with_data(outs: Seq<CellOutputModel>, datas: Seq<Seq<u8>>, n: int) -> nat
    decreases n,
{
    if n <= 0 {
        0
    } else {
        occupied_with_data(outs, datas, n - 1) + if datas[n - 1].len() > 0 {
            occupied_of(outs[n - 1].lock, outs[n - 1].type_, datas[n - 1].len())
        } else {
            0
        }
    }
}

/// The deposit occupied by the outputs of `t` that carry data.
pub open spec fn tx_occupied(t: TransactionModel) -> nat {
    let n = if t.outputs.len() <= t.outputs_data.len() { t.outputs.len() } else { t.outputs_data.len() };
    occupied_with_data(t.outputs, t.outputs_data, n as int)
}

/// The deposit occupied by the outputs that carry data, over both transactions.
pub open spec fn baked_occupied(b: BakedTransaction) -> nat {
    (match b.cells {
        Some(t) => tx_occupied(t@),
        None => 0,
    }) + (match b.dep_groups {
        Some(t) => tx_occupied(t@),
        None => 0,
    })
}

/// The capacity held by the live cells of `pre`.
pub open spec fn pre_capacity(pre: Seq<PreInput>) -> nat
    decreases pre.len(),
{
    if pre.len() == 0 {
        0
    } else {
        (pre_capacity(pre.drop_last()) + pre.last().1.capacity) as nat
    }
}

/// What a deployment plan reports, in shannons.
#[derive(Clone, Copy, Debug, PartialEq, Eq)]
pub struct PlanCapacities {
    /// What the cells found from the last deployment hold.
    pub migrated_capacity: u64,
    /// What the outputs occupy beyond that.
    pub new_occupied_capacity: u64,
    /// What the outputs that carry data occupy.
    pub total_occupied_capacity: u64,
    /// The fee of every transaction built.
    pub txs_fee_capacity: u64,
}

/// The deposit occupied by the outputs of `tx` that carry data, where it fits.
pub fn tx_occupied_capacity(tx: &Transaction) -> (r: Option<u64>)
    ensures
        r is Some <==> tx_occupied(tx@) <= u64::MAX,
        r is Some ==> r->0 == tx_occupied(tx@),
{
    let ghost outs = tx@.outputs;
    let ghost datas = tx@.outputs_data;
    let n: usize = if tx.outputs.len() <= tx.outputs_data.len() { tx.outputs.len() } else { tx.outputs_data.len() };
    let mut sum: u64 = 0;
    let mut k: usize = 0;
    assert(outs.len() == tx.outputs@.len());
    assert(datas.len() == tx.outputs_data@.len());
    assert(tx_occupied(tx@) == occupied_with_data(outs, datas, n as int));
    while k < n
        invariant
            k <= n,
            tx_occupied(tx@) == occupied_with_data(outs, datas, n as int),
            n <= tx.outputs@.len(),
            n <= tx.outputs_data@.len(),
            outs == tx@.outputs,
            datas == tx@.outputs_data,
            sum == occupied_with_data(outs, datas, k as int),
        decreases n - k,
    {
        let data = &tx.outputs_data[k];
        assert(datas[k as int] == data@);
        assert(outs[k as int] == tx.outputs@[k as int]@);
        if data.len() > 0 {
            let o = &tx.outputs[k];
            assert(occupied_with_data(outs, datas, k as int + 1) == sum + occupied_of(o.lock@, crate::transaction::opt_script_view(o.type_), data@.len()));
            match occupied_capacity(&o.lock, &o.type_, data.len()) {
                None => {
                    proof {
                        lemma_occupied_monotone(outs, datas, k as int + 1, n as int);
                    }
                    return None;
                },
                Some(c) => {
                    if c > u64::MAX - sum {
                        proof {
                            lemma_occupied_monotone(outs, datas, k as int + 1, n as int);
                        }
                        return None;
                    }
                    sum = sum + c;
                },
            }
        }
        k = k + 1;
    }
    Some(sum)
}

proof fn lemma_occupied_monotone(outs: Seq<CellOutputModel>, datas: Seq<Seq<u8>>, a: int, b: int)
    requires
        0 <= a <= b,
    ensures
        occupied_with_data(outs, datas, a) <= occupied_with_data(outs, datas, b),
    decreases b - a,
{
    if a < b {
        lemma_occupied_monotone(outs, datas, a, b - 1);
    }
}

/// The capacity held by the live cells of `pre`, where it fits.
pub fn sum_pre_capacity(pre: &Vec<PreInput>) -> (r: Option<u64>)
    ensures
        r is Some <==> pre_capacity(pre@) <= u64::MAX,
        r is Some ==> r->0 == pre_capacity(pre@),
{
    let mut sum: u64 = 0;
    let mut i: usize = 0;
    while i < pre.len()
        invariant
            i <= pre@.len(),
            sum == pre_capacity(pre@.subrange(0, i as int)),
        decreases pre@.len() - i,
    {
        assert(pre@.subrange(0, i as int + 1).drop_last() == pre@.subrange(0, i as int));
        if pre[i].1.capacity > u64::MAX - sum {
            proof {
                lemma_pre_capacity_prefix(pre@, i as int + 1);
            }
            return None;
        }
        sum = sum + pre[i].1.capacity;
        i = i + 1;
    }
    assert(pre@.subrange(0, pre@.len() as int) == pre@);
    Some(sum)
}

proof fn lemma_pre_capacity_prefix(all: Seq<PreInput>, n: int)
    requires
        0 <= n <= all.len(),
    ensures
        pre_capacity(all.subrange(0, n)) <= pre_capacity(all),
    decreases all.len() - n,
{
    if n < all.len() {
        lemma_pre_capacity_prefix(all, n + 1);
        assert(all.subrange(0, n + 1).drop_last() == all.subrange(0, n));
    } else {
        assert(all.subrange(0, n) == all);
    }
}

/// The number of transactions in `b`.
pub open spec fn baked_len(b: BakedTransaction) -> nat {
    (if b.cells is Some { 1nat } else { 0nat }) + (if b.dep_groups is Some { 1nat } else { 0nat })
}

/// The prior live cells a transaction built from `p` spends: those of its
/// changed units.
pub open spec fn reused_of(p: Partition, pre: Seq<PreInput>) -> Seq<LiveCell> {
    Seq::new(p.changed@.len(), |m: int| pre[p.changed@[m].1 as int].1)
}

fn reused_capacity(p: &Partition, pre: &Vec<PreInput>) -> (r: Option<u64>)
    requires
        forall|k: int| 0 <= k < p.changed@.len() ==> (#[trigger] p.changed@[k]).1 < pre@.len(),
    ensures
        r is Some <==> cells_capacity(reused_of(*p, pre@)) <= u64::MAX,
        r is Some ==> r->0 == cells_capacity(reused_of(*p, pre@)),
{
    let none: Vec<LiveCell> = Vec::new();
    let cells = p.spent_cells(pre, &none);
    assert(cells@ =~= reused_of(*p, pre@));
    sum_cells_capacity(&cells)
}

/// The capacities of a plan: what the prior cells it reuses hold (those of
/// the changed cells and groups), what the outputs that carry data occupy in
/// all, what they occupy beyond the reused capacity (none where the reused
/// capacity is the larger), and the fee of every transaction built.
pub fn plan_capacities(
    cells_pre_inputs: &Vec<PreInput>,
    cells_partition: &Partition,
    dep_groups_pre_inputs: &Vec<PreInput>,
    dep_groups_partition: &Partition,
    baked_tx: &BakedTransaction,
    tx_fee: u64,
) -> (r: Result<PlanCapacities, DeployError>)
    requires
        forall|k: int| 0 <= k < cells_partition.changed@.len() ==> (#[trigger] cells_partition.changed@[k]).1 < cells_pre_inputs@.len(),
        forall|k: int| 0 <= k < dep_groups_partition.changed@.len() ==> (#[trigger] dep_groups_partition.changed@[k]).1 < dep_groups_pre_inputs@.len(),
    ensures
        ({
            let migrated = cells_capacity(reused_of(*cells_partition, cells_pre_inputs@)) + cells_capacity(reused_of(*dep_groups_partition, dep_groups_pre_inputs@));
            let total = baked_occupied(*baked_tx);
            let fee = tx_fee * baked_len(*baked_tx);
            &&& r is Ok <==> (migrated <= u64::MAX && total <= u64::MAX && fee <= u64::MAX)
            &&& r is Err ==> r->Err_0 is CapacityOverflow
            &&& r is Ok ==> r->Ok_0 == (PlanCapacities {
                migrated_capacity: migrated as u64,
                new_occupied_capacity: if total >= migrated { (total - migrated) as u64 } else { 0 },
                total_occupied_capacity: total as u64,
                txs_fee_capacity: fee as u64,
            })
        }),
{
    let a = reused_capacity(cells_partition, cells_pre_inputs);
    let b = reused_capacity(dep_groups_partition, dep_groups_pre_inputs);
    let c = match &baked_tx.cells {
        Some(t) => tx_occupied_capacity(t),
        None => Some(0),
    };
    let d = match &baked_tx.dep_groups {
        Some(t) => tx_occupied_capacity(t),
        None => Some(0),
    };
    let n = baked_tx.len() as u64;
    match (a, b, c, d) {
        (Some(a), Some(b), Some(c), Some(d)) => {
            if a > u64::MAX - b || c > u64::MAX - d {
                return Err(DeployError::CapacityOverflow);
            }
            let migrated = a + b;
            let total = c + d;
            if n > 0 && tx_fee > u64::MAX / n {
                assert(tx_fee * n > u64::MAX) by (nonlinear_arith)
                    requires n > 0, tx_fee > u64::MAX / n;
                return Err(DeployError::CapacityOverflow);
            }
            assert(tx_fee * n <= u64::MAX) by (nonlinear_arith)
                requires n == 0 || tx_fee <= u64::MAX / n;
            Ok(PlanCapacities {
                migrated_capacity: migrated,
                new_occupied_capacity: if total >= migrated { total - migrated } else { 0 },
                total_occupied_capacity: total,
                txs_fee_capacity: tx_fee * n,
            })
        },
        _ => Err(DeployError::CapacityOverflow),
    }
}

/// A record of the plan, with its capacity as the operator reads it.
#[derive(Clone, Debug)]
pub struct CellPlan {
    pub name: String,
    pub index: u32,
    pub tx_hash: [u8; 32],
    pub occupied_capacity: String,
    pub data_hash: [u8; 32],
    pub type_id: Option<[u8; 32]>,
}

/// A group record of the plan, with its capacity as the operator reads it.
#[derive(Clone, Debug)]
pub struct DepGroupPlan {
    pub name: String,
    pub tx_hash: [u8; 32],
    pub index: u32,
    pub occupied_capacity: String,
}

/// `p` lists each record of `recipe`, in order, with its capacity written in
/// whole units.
pub open spec fn recipe_plan_of(p: RecipePlan, recipe: DeploymentRecipe) -> bool {
    &&& p.cells@.len() == recipe.cell_recipes@.len()
    &&& forall|k: int| 0 <= k < p.cells@.len() ==> {
        let (c, q) = (#[trigger] p.cells@[k], recipe.cell_recipes@[k]);
        &&& c.name@ == q.name@ && c.index == q.index && c.tx_hash == q.tx_hash && c.data_hash == q.data_hash
        &&& c.type_id == q.type_id && c.occupied_capacity@ == human_of(q.occupied_capacity, true)
    }
    &&& p.dep_groups@.len() == recipe.dep_group_recipes@.len()
    &&& forall|k: int| 0 <= k < p.dep_groups@.len() ==> {
        let (c, q) = (#[trigger] p.dep_groups@[k], recipe.dep_group_recipes@[k]);
        c.name@ == q.name@ && c.index == q.index && c.tx_hash == q.tx_hash && c.occupied_capacity@ == human_of(q.occupied_capacity, true)
    }
}

/// The records a plan will leave.
#[derive(Clone, Debug)]
pub struct RecipePlan {
    pub cells: Vec<CellPlan>,
    pub dep_groups: Vec<DepGroupPlan>,
}

impl RecipePlan {
    /// Each record of `recipe`, in order, with its capacity written in whole units.
    pub fn from_recipe(recipe: &DeploymentRecipe) -> (r: RecipePlan)
        ensures
            recipe_plan_of(r, *recipe),
    {
        let mut cells: Vec<CellPlan> = Vec::new();
        let mut k: usize = 0;
        while k < recipe.cell_recipes.len()
            invariant
                k <= recipe.cell_recipes@.len(),
                cells@.len() == k,
                forall|q: int| 0 <= q < k ==> {
                    let (c, x) = (#[trigger] cells@[q], recipe.cell_recipes@[q]);
                    &&& c.name@ == x.name@ && c.index == x.index && c.tx_hash == x.tx_hash && c.data_hash == x.data_hash
                    &&& c.type_id == x.type_id && c.occupied_capacity@ == human_of(x.occupied_capacity, true)
                },
            decreases recipe.cell_recipes@.len() - k,
        {
            let x = &recipe.cell_recipes[k];
            cells.push(CellPlan {
                name: x.name.clone(),
                index: x.index,
                tx_hash: x.tx_hash,
                occupied_capacity: HumanCapacity(x.occupied_capacity).to_human(true),
                data_hash: x.data_hash,
                type_id: x.type_id,
            });
            k = k + 1;
        }
        let mut groups: Vec<DepGroupPlan> = Vec::new();
        let mut k: usize = 0;
        while k < recipe.dep_group_recipes.len()
            invariant
                k <= recipe.dep_group_recipes@.len(),
                groups@.len() == k,
                forall|q: int| 0 <= q < k ==> {
                    let (c, x) = (#[trigger] groups@[q], recipe.dep_group_recipes@[q]);
                    c.name@ == x.name@ && c.index == x.index && c.tx_hash == x.tx_hash && c.occupied_capacity@ == human_of(x.occupied_capacity, true)
                },
            decreases recipe.dep_group_recipes@.len() - k,
        {
            let x = &recipe.dep_group_recipes[k];
            groups.push(DepGroupPlan {
                name: x.name.clone(),
                tx_hash: x.tx_hash,
                index: x.index,
                occupied_capacity: HumanCapacity(x.occupied_capacity).to_human(true),
            });
            k = k + 1;
        }
        RecipePlan { cells, dep_groups: groups }
    }
}

/// The capacities of a plan as the operator reads them, in whole units.
#[derive(Clone, Debug)]
pub struct Plan {
    pub migrated_capacity: String,
    pub new_occupied_capacity: String,
    pub txs_fee_capacity: String,
    pub total_occupied_capacity: String,
    pub recipe: RecipePlan,
}

impl Plan {
    pub fn new(migrated_capacity: u64, new_occupied_capacity: u64, total_occupied_capacity: u64, txs_fee_capacity: u64, recipe: &DeploymentRecipe) -> (r: Plan)
        ensures
            recipe_plan_of(r.recipe, *recipe),
            r.migrated_capacity@ == human_of(migrated_capacity, true),
            r.new_occupied_capacity@ == human_of(new_occupied_capacity, true),
            r.txs_fee_capacity@ == human_of(txs_fee_capacity, true),
            r.total_occupied_capacity@ == human_of(total_occupied_capacity, true),
    {
        Plan {
            migrated_capacity: HumanCapacity(migrated_capacity).to_human(true),
            new_occupied_capacity: HumanCapacity(new_occupied_capacity).to_human(true),
            txs_fee_capacity: HumanCapacity(txs_fee_capacity).to_human(true),
            total_occupied_capacity: HumanCapacity(total_occupied_capacity).to_human(true),
            recipe: RecipePlan::from_recipe(recipe),
        }
    }

    /// The plan of the capacities `c` and the records of `recipe`.
    pub fn from_capacities(c: &PlanCapacities, recipe: &DeploymentRecipe) -> (r: Plan)
        ensures
            recipe_plan_of(r.recipe, *recipe),
            r.migrated_capacity@ == human_of(c.migrated_capacity, true),
            r.new_occupied_capacity@ == human_of(c.new_occupied_capacity, true),
            r.txs_fee_capacity@ == human_of(c.txs_fee_capacity, true),
            r.total_occupied_capacity@ == human_of(c.total_occupied_capacity, true),
    {
        Plan::new(c.migrated_capacity, c.new_occupied_capacity, c.total_occupied_capacity, c.txs_fee_capacity, recipe)
    }
}

} // verus!
