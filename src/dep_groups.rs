//! Building the dependency groups transaction, after the cells transaction
//! has fixed where every cell stands.
use crate::classify::{class_indices, classify, find_pre, is_partition_of, unit_views, PreInput, UnitClass};
use crate::codec::{encode_out_point_vec, out_point_vec_bytes};
use crate::config::DepGroup;
use crate::deployment_process::{output_of, DeployError, DeploymentProcess, ZERO_HASH};
use crate::recipe::{
    cell_views, find_cell, find_cell_recipe, find_group, find_group_recipe, group_views, CellRecipe,
    DepGroupRecipe, DepGroupRecipeModel,
};
use crate::transaction::{occupied_capacity, occupied_of, CellOutput, LiveCell, OutPoint, ScriptModel, Transaction};
use vstd::prelude::*;

verus! {

/// Every member of every group names a cell that has a record.
pub open spec fn groups_resolved(groups: Seq<DepGroup>, recipes: Seq<CellRecipe>) -> bool {
    forall|g: int, m: int|
        0 <= g < groups.len() && 0 <= m < groups[g].cells@.len() ==> find_cell(
            cell_views(recipes),
            (#[trigger] groups[g].cells@[m])@,
        ) >= 0
}

/// The out points of the members of `group`: where the first record of each
/// name stands.
pub open spec fn member_out_points(group: DepGroup, recipes: Seq<CellRecipe>) -> Seq<([u8; 32], u32)> {
    Seq::new(
        group.cells@.len(),
        |m: int|
            {
                let r = recipes[find_cell(cell_views(recipes), group.cells@[m]@)];
                (r.tx_hash, r.index)
            },
    )
}

/// The payload of `group`: the vector of its members' out points.
pub open spec fn group_data(group: DepGroup, recipes: Seq<CellRecipe>) -> Seq<u8> {
    out_point_vec_bytes(member_out_points(group, recipes))
}

/// The groups with their payloads, as plain values.
pub open spec fn group_units(groups: Seq<DepGroup>, recipes: Seq<CellRecipe>) -> Seq<(Seq<char>, Seq<u8>)> {
    Seq::new(groups.len(), |g: int| (groups[g].name@, group_data(groups[g], recipes)))
}

/// The positions of the groups of class `c`.
pub open spec fn groups_of(groups: Seq<DepGroup>, recipes: Seq<CellRecipe>, pre: Seq<PreInput>, c: UnitClass) -> Seq<int> {
    class_indices(group_units(groups, recipes), pre, c)
}

/// The record of the group `name` at `index` of a transaction not yet hashed.
pub open spec fn group_recipe_of(name: Seq<char>, index: u32, lock: ScriptModel, data: Seq<u8>) -> DepGroupRecipeModel {
    DepGroupRecipeModel { name, tx_hash: ZERO_HASH@, index, occupied_capacity: occupied_of(lock, None, data.len()) as u64 }
}

/// The inputs of the groups transaction: the live cells of the changed
/// groups, or, where none changed, the seed cells.
pub open spec fn groups_inputs(groups: Seq<DepGroup>, recipes: Seq<CellRecipe>, pre: Seq<PreInput>, seed: Seq<LiveCell>) -> Seq<LiveCell> {
    let pc = groups_of(groups, recipes, pre, UnitClass::Changed);
    if pc.len() > 0 {
        Seq::new(pc.len(), |m: int| pre[find_pre(pre, groups[pc[m]].name@)].1)
    } else {
        seed
    }
}

/// Some unchanged group has no record in the last deployment.
pub open spec fn groups_missing_recipe(groups: Seq<DepGroup>, recipes: Seq<CellRecipe>, pre: Seq<PreInput>, prior: Seq<DepGroupRecipe>) -> bool {
    let pu = groups_of(groups, recipes, pre, UnitClass::Unchanged);
    exists|k: int| 0 <= k < pu.len() && find_group(group_views(prior), groups[#[trigger] pu[k]].name@) == -1
}

/// Some planned group output's capacity does not fit in 64 bits.
pub open spec fn groups_overflow(groups: Seq<DepGroup>, recipes: Seq<CellRecipe>, pre: Seq<PreInput>, lock: ScriptModel) -> bool {
    let pn = groups_of(groups, recipes, pre, UnitClass::New);
    let pc = groups_of(groups, recipes, pre, UnitClass::Changed);
    let order = pn + pc;
    exists|k: int| 0 <= k < order.len() && occupied_of(lock, None, group_data(groups[#[trigger] order[k]], recipes).len()) > u64::MAX
}

/// `e` names a member, and its group, that has no record.
pub open spec fn unresolved_named(groups: Seq<DepGroup>, recipes: Seq<CellRecipe>, e: DeployError) -> bool {
    match e {
        DeployError::UnresolvedCell { cell, group } => exists|g: int, m: int|
            0 <= g < groups.len() && 0 <= m < groups[g].cells@.len() && find_cell(cell_views(recipes), (#[trigger] groups[g].cells@[m])@) < 0
                && cell@ == groups[g].cells@[m]@ && group@ == groups[g].name@,
        _ => false,
    }
}

/// The payload of `group`, where each member resolves to a record.
pub fn dep_group_data(group: &DepGroup, recipes: &Vec<CellRecipe>) -> (r: Result<Vec<u8>, DeployError>)
    requires
        group.cells@.len() <= u32::MAX,
    ensures
        r is Ok <==> forall|m: int| 0 <= m < group.cells@.len() ==> find_cell(cell_views(recipes@), (#[trigger] group.cells@[m])@) >= 0,
        r is Err ==> r->Err_0 is UnresolvedCell,
        r is Err ==> unresolved_named(seq![*group], recipes@, r->Err_0),
        r is Ok ==> r->Ok_0@ == group_data(*group, recipes@),
{
    let mut ops: Vec<([u8; 32], u32)> = Vec::new();
    let mut m: usize = 0;
    while m < group.cells.len()
        invariant
            m <= group.cells@.len(),
            group.cells@.len() <= u32::MAX,
            ops@ == member_out_points(*group, recipes@).subrange(0, m as int),
            forall|q: int| 0 <= q < m ==> find_cell(cell_views(recipes@), (#[trigger] group.cells@[q])@) >= 0,
        decreases group.cells@.len() - m,
    {
        match find_cell_recipe(recipes, &group.cells[m]) {
            None => {
                let e = DeployError::UnresolvedCell { cell: group.cells[m].clone(), group: group.name.clone() };
                assert(seq![*group][0] == *group);
                assert(unresolved_named(seq![*group], recipes@, e));
                return Err(e);
            },
            Some(j) => {
                ops.push((recipes[j].tx_hash, recipes[j].index));
                assert(member_out_points(*group, recipes@).subrange(0, m as int + 1) == member_out_points(*group, recipes@).subrange(0, m as int).push(
                    (recipes@[j as int].tx_hash, recipes@[j as int].index)));
            },
        }
        m = m + 1;
    }
    assert(member_out_points(*group, recipes@).subrange(0, m as int) == member_out_points(*group, recipes@));
    match encode_out_point_vec(&ops) {
        Some(d) => Ok(d),
        None => Err(DeployError::CapacityOverflow),
    }
}

/// The groups as units: each name with its payload, where every member
/// resolves to a record.
pub fn group_unit_list(dep_groups: &Vec<DepGroup>, cell_recipes: &Vec<CellRecipe>) -> (r: Result<Vec<(String, Vec<u8>)>, DeployError>)
    requires
        forall|g: int| 0 <= g < dep_groups@.len() ==> (#[trigger] dep_groups@[g]).cells@.len() <= u32::MAX,
    ensures
        r is Ok <==> groups_resolved(dep_groups@, cell_recipes@),
        r is Ok ==> unit_views(r->Ok_0@) == group_units(dep_groups@, cell_recipes@),
        r is Err ==> r->Err_0 is UnresolvedCell && unresolved_named(dep_groups@, cell_recipes@, r->Err_0),
{
        let ghost gu = group_units(dep_groups@, cell_recipes@);
        let mut units: Vec<(String, Vec<u8>)> = Vec::new();
        let mut g: usize = 0;
        while g < dep_groups.len()
            invariant
                g <= dep_groups@.len(),
                gu == group_units(dep_groups@, cell_recipes@),
                forall|q: int| 0 <= q < dep_groups@.len() ==> (#[trigger] dep_groups@[q]).cells@.len() <= u32::MAX,
                unit_views(units@) == gu.subrange(0, g as int),
                forall|q: int, m: int| 0 <= q < g && 0 <= m < dep_groups@[q].cells@.len() ==> find_cell(
                    cell_views(cell_recipes@), (#[trigger] dep_groups@[q].cells@[m])@) >= 0,
            decreases dep_groups@.len() - g,
        {
            let data = match dep_group_data(&dep_groups[g], cell_recipes) {
                Ok(d) => d,
                Err(e) => {
                    proof {
                        let gg = dep_groups@[g as int];
                        assert(seq![gg][0] == gg);
                        let (c, n) = choose|c: int, n: int| 0 <= c < 1 && 0 <= n < seq![gg][c].cells@.len()
                            && find_cell(cell_views(cell_recipes@), (#[trigger] seq![gg][c].cells@[n])@) < 0
                            && e->cell@ == seq![gg][c].cells@[n]@ && e->group@ == seq![gg][c].name@;
                        assert(dep_groups@[g as int].cells@[n] == seq![gg][c].cells@[n]);
                        assert(unresolved_named(dep_groups@, cell_recipes@, e));
                    }
                    assert(!groups_resolved(dep_groups@, cell_recipes@)) by {
                        let m = choose|m: int| 0 <= m < dep_groups@[g as int].cells@.len() && !(find_cell(cell_views(cell_recipes@), (#[trigger] dep_groups@[g as int].cells@[m])@) >= 0);
                        assert(find_cell(cell_views(cell_recipes@), dep_groups@[g as int].cells@[m]@) < 0);
                    }
                    return Err(e);
                },
            };
            let ghost before = units@;
            units.push((dep_groups[g].name.clone(), data));
            assert(unit_views(units@) == unit_views(before).push(gu[g as int]));
            assert(gu.subrange(0, g as int + 1) == gu.subrange(0, g as int).push(gu[g as int]));
            g = g + 1;
        }
        assert(gu.subrange(0, dep_groups@.len() as int) == gu);
        assert(groups_resolved(dep_groups@, cell_recipes@));
    Ok(units)
}

#[verifier::opaque]
/// `recipes` and `tx` are what the groups transaction must be: the unchanged
/// groups' records from the last deployment, then a record and an output for
/// each new group, then for each changed group.
pub open spec fn groups_plan_holds(
    recipes: Vec<DepGroupRecipe>,
    tx: Option<Transaction>,
    groups: Seq<DepGroup>,
    cells: Seq<CellRecipe>,
    pre: Seq<PreInput>,
    seed: Seq<LiveCell>,
    lock: ScriptModel,
    prior: Seq<DepGroupRecipe>,
) -> bool {
    let pu = groups_of(groups, cells, pre, UnitClass::Unchanged);
    let order = groups_of(groups, cells, pre, UnitClass::New) + groups_of(groups, cells, pre, UnitClass::Changed);
    let u = pu.len();
    &&& recipes@.len() == u + order.len()
    &&& forall|k: int| 0 <= k < u ==> (#[trigger] recipes@[k])@ == group_views(prior)[find_group(group_views(prior), groups[pu[k]].name@)]
    &&& forall|k: int| 0 <= k < order.len() ==> (#[trigger] recipes@[u + k])@ == group_recipe_of(groups[order[k]].name@, k as u32, lock, group_data(groups[order[k]], cells))
    &&& (tx is None <==> order.len() == 0)
    &&& tx is Some ==> {
        let t = tx->0@;
        &&& t.cell_deps.len() == 0
        &&& t.inputs == groups_inputs(groups, cells, pre, seed).map_values(|c: LiveCell| crate::collector::out_point_of(c))
        &&& t.outputs.len() == order.len()
        &&& t.outputs_data.len() == order.len()
        &&& forall|k: int| 0 <= k < order.len() ==> #[trigger] t.outputs[k] == output_of(lock, None, group_data(groups[order[k]], cells))
        &&& forall|k: int| 0 <= k < order.len() ==> #[trigger] t.outputs_data[k] == group_data(groups[order[k]], cells)
    }
}

impl DeploymentProcess {
    /// Plans the groups transaction before it is funded. Each group's payload
    /// is the vector of the out points of its members, looked up by name in
    /// `cell_recipes`, the records that the cells transaction just fixed; the
    /// groups are then sorted and planned as cells are, without identity
    /// scripts.
    pub fn plan_dep_groups(
        &mut self,
        dep_groups: &Vec<DepGroup>,
        pre_inputs: &Vec<PreInput>,
        cell_recipes: &Vec<CellRecipe>,
        seed_cells: &Vec<LiveCell>,
    ) -> (r: Result<(Vec<DepGroupRecipe>, Option<Transaction>), DeployError>)
        requires
            dep_groups@.len() <= u32::MAX,
            forall|g: int| 0 <= g < dep_groups@.len() ==> (#[trigger] dep_groups@[g]).cells@.len() <= u32::MAX,
        ensures
            ({
                let order = groups_of(dep_groups@, cell_recipes@, pre_inputs@, UnitClass::New) + groups_of(dep_groups@, cell_recipes@, pre_inputs@, UnitClass::Changed);
                let resolved = groups_resolved(dep_groups@, cell_recipes@);
                let missing = groups_missing_recipe(dep_groups@, cell_recipes@, pre_inputs@, old(self).recipe.dep_group_recipes@);
                let overflow = groups_overflow(dep_groups@, cell_recipes@, pre_inputs@, old(self).config.lock@);
                &&& (r is Err && r->Err_0 is UnresolvedCell) <==> !resolved
                &&& (r is Err && r->Err_0 is MissingRecipe) <==> (resolved && missing)
                &&& (r is Err && r->Err_0 is CapacityOverflow) <==> (resolved && !missing && order.len() > 0 && overflow)
                &&& r is Ok <==> (resolved && !missing && (order.len() == 0 || !overflow))
            }),
            final(self).config == old(self).config,
            final(self).recipe == old(self).recipe,
            final(self).tx_fee == old(self).tx_fee,
            r is Ok ==> groups_plan_holds(
                r->Ok_0.0,
                r->Ok_0.1,
                dep_groups@,
                cell_recipes@,
                pre_inputs@,
                seed_cells@,
                old(self).config.lock@,
                old(self).recipe.dep_group_recipes@,
            ),
            r is Ok && r->Ok_0.1 is Some ==> final(self).collector.locked_cells@ == old(self).collector.locked_cells@
                + groups_inputs(dep_groups@, cell_recipes@, pre_inputs@, seed_cells@).map_values(|c: LiveCell| crate::collector::out_point_of(c)),
            r is Ok && r->Ok_0.1 is None ==> final(self).collector == old(self).collector,
            r is Err ==> final(self).collector == old(self).collector,
            r is Err && r->Err_0 is UnresolvedCell ==> unresolved_named(dep_groups@, cell_recipes@, r->Err_0),
            r is Ok ==> (r->Ok_0.1 is None <==> (groups_of(dep_groups@, cell_recipes@, pre_inputs@, UnitClass::New).len() == 0
                && groups_of(dep_groups@, cell_recipes@, pre_inputs@, UnitClass::Changed).len() == 0)),
            r is Ok && r->Ok_0.1 is Some ==> r->Ok_0.1->0@.inputs == groups_inputs(dep_groups@, cell_recipes@, pre_inputs@, seed_cells@).map_values(
                |c: LiveCell| crate::collector::out_point_of(c)),
    {
        reveal(groups_plan_holds);
        let ghost gu = group_units(dep_groups@, cell_recipes@);
        let units = match group_unit_list(dep_groups, cell_recipes) {
            Ok(u) => u,
            Err(e) => {
                return Err(e);
            },
        };
        let p = classify(&units, pre_inputs);
        let ghost pu = groups_of(dep_groups@, cell_recipes@, pre_inputs@, UnitClass::Unchanged);
        let ghost pn = groups_of(dep_groups@, cell_recipes@, pre_inputs@, UnitClass::New);
        let ghost pc = groups_of(dep_groups@, cell_recipes@, pre_inputs@, UnitClass::Changed);
        proof {
            crate::classify::lemma_class_counts(gu, pre_inputs@);
        }
        assert(crate::classify::firsts(p.unchanged@) == pu);
        assert(crate::classify::as_ints(p.new@) == pn);
        assert(crate::classify::firsts(p.changed@) == pc);
        // records of the unchanged groups
        let mut recs: Vec<DepGroupRecipe> = Vec::new();
        let ghost prior = group_views(self.recipe.dep_group_recipes@);
        let mut k: usize = 0;
        while k < p.unchanged.len()
            invariant
                k <= p.unchanged@.len(),
                pu.len() == p.unchanged@.len(),
                pu == groups_of(dep_groups@, cell_recipes@, pre_inputs@, UnitClass::Unchanged),
                crate::classify::firsts(p.unchanged@) == pu,
                is_partition_of(p, gu, pre_inputs@),
                gu == group_units(dep_groups@, cell_recipes@),
                prior == group_views(self.recipe.dep_group_recipes@),
                recs@.len() == k,
                groups_resolved(dep_groups@, cell_recipes@),
                forall|q: int| 0 <= q < k ==> find_group(prior, dep_groups@[#[trigger] pu[q]].name@) != -1,
                forall|q: int| 0 <= q < k ==> (#[trigger] recs@[q])@ == prior[find_group(prior, dep_groups@[pu[q]].name@)],
            decreases p.unchanged@.len() - k,
        {
            let i = p.unchanged[k].0;
            assert(pu[k as int] == i as int);
            match find_group_recipe(&self.recipe.dep_group_recipes, &dep_groups[i].name) {
                None => {
                    return Err(DeployError::MissingRecipe { name: dep_groups[i].name.clone() });
                },
                Some(j) => {
                    recs.push(self.recipe.dep_group_recipes[j].duplicate());
                },
            }
            k = k + 1;
        }
        assert(!groups_missing_recipe(dep_groups@, cell_recipes@, pre_inputs@, old(self).recipe.dep_group_recipes@));
        if p.new.len() == 0 && p.changed.len() == 0 {
            return Ok((recs, None));
        }
        // the order of the outputs: new groups, then changed ones
        let mut order: Vec<usize> = Vec::new();
        let mut inputs: Vec<LiveCell> = Vec::new();
        let mut k: usize = 0;
        while k < p.new.len()
            invariant
                k <= p.new@.len(),
                crate::classify::as_ints(p.new@) == pn,
                crate::classify::as_ints(order@) == pn.subrange(0, k as int),
            decreases p.new@.len() - k,
        {
            let ghost ob = order@;
            order.push(p.new[k]);
            assert(crate::classify::as_ints(order@) == crate::classify::as_ints(ob).push(p.new@[k as int] as int));
            assert(crate::classify::as_ints(order@) =~= pn.subrange(0, k as int + 1));
            k = k + 1;
        }
        assert(pn.subrange(0, pn.len() as int) == pn);
        let mut m: usize = 0;
        while m < p.changed.len()
            invariant
                m <= p.changed@.len(),
                is_partition_of(p, gu, pre_inputs@),
                gu == group_units(dep_groups@, cell_recipes@),
                crate::classify::firsts(p.changed@) == pc,
                pc == groups_of(dep_groups@, cell_recipes@, pre_inputs@, UnitClass::Changed),
                crate::classify::as_ints(order@) == pn + pc.subrange(0, m as int),
                inputs@ == Seq::new(m as nat, |q: int| pre_inputs@[find_pre(pre_inputs@, dep_groups@[pc[q]].name@)].1),
            decreases p.changed@.len() - m,
        {
            let (gi, j) = p.changed[m];
            assert(p.changed@[m as int] == (gi, j));
            assert(pc[m as int] == gi as int);
            assert(gu[gi as int].0 == dep_groups@[gi as int].name@);
            let ghost ob = order@;
            order.push(gi);
            assert(crate::classify::as_ints(order@) == crate::classify::as_ints(ob).push(gi as int));
            inputs.push(pre_inputs[j].1);
            assert(crate::classify::as_ints(order@) =~= pn + pc.subrange(0, m as int + 1));
            assert(inputs@ =~= Seq::new(m as nat + 1, |q: int| pre_inputs@[find_pre(pre_inputs@, dep_groups@[pc[q]].name@)].1));
            m = m + 1;
        }
        assert(pc.subrange(0, pc.len() as int) == pc);
        if p.changed.len() == 0 {
            let mut q: usize = 0;
            while q < seed_cells.len()
                invariant
                    q <= seed_cells@.len(),
                    inputs@ == seed_cells@.subrange(0, q as int),
                decreases seed_cells@.len() - q,
            {
                inputs.push(seed_cells[q]);
                assert(seed_cells@.subrange(0, q as int + 1) == seed_cells@.subrange(0, q as int).push(seed_cells@[q as int]));
                q = q + 1;
            }
            assert(seed_cells@.subrange(0, seed_cells@.len() as int) == seed_cells@);
        }
        assert(inputs@ == groups_inputs(dep_groups@, cell_recipes@, pre_inputs@, seed_cells@));
        let ghost ord = pn + pc;
        let ghost lock = self.config.lock@;
        let ghost urecs = recs@;
        let u = recs.len();
        let mut outs: Vec<CellOutput> = Vec::new();
        let mut datas: Vec<Vec<u8>> = Vec::new();
        let mut k: usize = 0;
        while k < order.len()
            invariant
                k <= order@.len(),
                crate::classify::as_ints(order@) == ord,
                ord == pn + pc,
                ord.len() <= dep_groups@.len(),
                dep_groups@.len() <= u32::MAX,
                gu == group_units(dep_groups@, cell_recipes@),
                is_partition_of(p, gu, pre_inputs@),
                pn == groups_of(dep_groups@, cell_recipes@, pre_inputs@, UnitClass::New),
                pc == groups_of(dep_groups@, cell_recipes@, pre_inputs@, UnitClass::Changed),
                units@.len() == dep_groups@.len(),
                unit_views(units@) == gu,
                lock == self.config.lock@,
                groups_resolved(dep_groups@, cell_recipes@),
                !groups_missing_recipe(dep_groups@, cell_recipes@, pre_inputs@, self.recipe.dep_group_recipes@),
                ord.len() > 0,
                self.recipe == old(self).recipe,
                u == urecs.len(),
                recs@.len() == u + k,
                recs@.subrange(0, u as int) == urecs,
                outs@.len() == k,
                datas@.len() == k,
                forall|q: int| 0 <= q < k ==> (#[trigger] recs@[u + q])@ == group_recipe_of(dep_groups@[ord[q]].name@, q as u32, lock, group_data(dep_groups@[ord[q]], cell_recipes@)),
                forall|q: int| 0 <= q < k ==> (#[trigger] outs@[q])@ == output_of(lock, None, group_data(dep_groups@[ord[q]], cell_recipes@)),
                forall|q: int| 0 <= q < k ==> (#[trigger] datas@[q])@ == group_data(dep_groups@[ord[q]], cell_recipes@),
                forall|q: int| 0 <= q < k ==> occupied_of(lock, None, group_data(dep_groups@[#[trigger] ord[q]], cell_recipes@).len()) <= u64::MAX,
            decreases order@.len() - k,
        {
            let gi = order[k];
            assert(ord[k as int] == gi as int);
            assert(gu[gi as int] == unit_views(units@)[gi as int]);
            let data = &units[gi].1;
            assert(data@ == group_data(dep_groups@[gi as int], cell_recipes@));
            match occupied_capacity(&self.config.lock, &None, data.len()) {
                None => {
                    assert(occupied_of(lock, None, group_data(dep_groups@[ord[k as int]], cell_recipes@).len()) > u64::MAX);
                    return Err(DeployError::CapacityOverflow);
                },
                Some(c) => {
                    let ghost rb = recs@;
                    recs.push(DepGroupRecipe { name: dep_groups[gi].name.clone(), tx_hash: ZERO_HASH, index: k as u32, occupied_capacity: c });
                    assert(recs@.subrange(0, u as int) == rb.subrange(0, u as int));
                    outs.push(CellOutput { capacity: c, lock: self.config.lock.duplicate(), type_: None });
                    datas.push(crate::transaction::copy_bytes(data));
                },
            }
            k = k + 1;
        }
        let mut ins: Vec<OutPoint> = Vec::new();
        let mut m: usize = 0;
        while m < inputs.len()
            invariant
                m <= inputs@.len(),
                ins@ == inputs@.subrange(0, m as int).map_values(|c: LiveCell| crate::collector::out_point_of(c)),
                self.collector.locked_cells@ == old(self).collector.locked_cells@ + ins@,
                self.config == old(self).config,
                self.recipe == old(self).recipe,
                self.tx_fee == old(self).tx_fee,
            decreases inputs@.len() - m,
        {
            let op = inputs[m].out_point();
            ins.push(op);
            self.collector.lock_cell(op);
            assert(inputs@.subrange(0, m as int + 1).map_values(|c: LiveCell| crate::collector::out_point_of(c))
                == inputs@.subrange(0, m as int).map_values(|c: LiveCell| crate::collector::out_point_of(c)).push(op));
            m = m + 1;
        }
        assert(inputs@.subrange(0, inputs@.len() as int) == inputs@);
        let tx = Transaction { cell_deps: Vec::new(), inputs: ins, outputs: outs, outputs_data: datas };
        proof {
            let t = tx@;
            assert forall|q: int| 0 <= q < ord.len() implies #[trigger] t.outputs[q] == output_of(lock, None, group_data(dep_groups@[ord[q]], cell_recipes@)) by {
                assert(t.outputs[q] == tx.outputs@[q]@);
            }
            assert forall|q: int| 0 <= q < ord.len() implies #[trigger] t.outputs_data[q] == group_data(dep_groups@[ord[q]], cell_recipes@) by {
                assert(t.outputs_data[q] == tx.outputs_data@[q]@);
            }
            assert forall|q: int| 0 <= q < u implies (#[trigger] recs@[q])@ == prior[find_group(prior, dep_groups@[pu[q]].name@)] by {
                assert(recs@[q] == recs@.subrange(0, u as int)[q]);
            }
            assert(!groups_overflow(dep_groups@, cell_recipes@, pre_inputs@, lock));
        }
        Ok((recs, Some(tx)))
    }
}

/// The planned groups transaction, before it is funded.
pub open spec fn groups_plan_tx(
    groups: Seq<DepGroup>,
    cells: Seq<CellRecipe>,
    pre: Seq<PreInput>,
    seed: Seq<LiveCell>,
    lock: ScriptModel,
) -> crate::transaction::TransactionModel {
    let order = groups_of(groups, cells, pre, UnitClass::New) + groups_of(groups, cells, pre, UnitClass::Changed);
    crate::transaction::TransactionModel {
        cell_deps: Seq::empty(),
        inputs: groups_inputs(groups, cells, pre, seed).map_values(|c: LiveCell| crate::collector::out_point_of(c)),
        outputs: Seq::new(order.len(), |k: int| output_of(lock, None, group_data(groups[order[k]], cells))),
        outputs_data: Seq::new(order.len(), |k: int| group_data(groups[order[k]], cells)),
    }
}

/// A planned groups transaction is the one `groups_plan_tx` describes.
pub proof fn lemma_groups_plan_tx(
    recipes: Vec<DepGroupRecipe>,
    tx: Transaction,
    groups: Seq<DepGroup>,
    cells: Seq<CellRecipe>,
    pre: Seq<PreInput>,
    seed: Seq<LiveCell>,
    lock: ScriptModel,
    prior: Seq<DepGroupRecipe>,
)
    requires
        groups_plan_holds(recipes, Some(tx), groups, cells, pre, seed, lock, prior),
    ensures
        tx@ == groups_plan_tx(groups, cells, pre, seed, lock),
{
    reveal(groups_plan_holds);
    let t = tx@;
    let e = groups_plan_tx(groups, cells, pre, seed, lock);
    assert(t.outputs =~= e.outputs);
    assert(t.outputs_data =~= e.outputs_data);
    assert(t.cell_deps =~= e.cell_deps);
}

} // verus!
