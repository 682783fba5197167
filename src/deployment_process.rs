//! Building the cells transaction and the dependency groups transaction of a
//! deployment, from what is declared and what the last deployment left.
use crate::classify::{
    class_indices, classify, find_pre, is_partition_of, unit_views, PreInput, UnitClass,
};
use crate::codec::{
    blake2b_256, ckb_blake2b_256, ckb_data_hash, ckb_script_hash, cell_input_bytes, data_hash,
    le_bytes, push_le, script_hash,
};
use crate::collector::Collector;
use crate::config::{Cell, Deployment};
use crate::recipe::{cell_views, find_cell, find_cell_recipe, CellRecipe, CellRecipeModel, DeploymentRecipe};
use crate::transaction::{
    occupied_capacity, occupied_of, opt_script_view, CellOutput, CellOutputModel, LiveCell,
    OutPoint, Script, ScriptModel, Transaction, HASH_TYPE_TYPE,
};
use vstd::prelude::*;

verus! {

/// The code hash under which the ledger runs its built-in identity (type id) script.
pub const TYPE_ID_CODE_HASH: [u8; 32] = [
    0, 0, 0, 0, 0, 0, 0, 0, 0, 0, 0, 0, 0, 0, 0, 0, 0, 0, 0, 0, 0, 0, 0, 0, 0, 0x54, 0x59, 0x50,
    0x45, 0x5f, 0x49, 0x44,
];

/// The transaction hash that records carry until their transaction is built.
pub const ZERO_HASH: [u8; 32] = [
    0, 0, 0, 0, 0, 0, 0, 0, 0, 0, 0, 0, 0, 0, 0, 0, 0, 0, 0, 0, 0, 0, 0, 0, 0, 0, 0, 0, 0, 0, 0, 0,
];

/// Why a deployment cannot go on.
#[derive(Clone, Debug, PartialEq, Eq)]
pub enum DeployError {
    /// A dependency group refers to a cell that has no record.
    UnresolvedCell { cell: String, group: String },
    /// A unit found unchanged on the ledger has no record in the last deployment.
    MissingRecipe { name: String },
    /// Capacity arithmetic does not fit in 64 bits.
    CapacityOverflow,
    /// The funding cells do not cover what the transaction needs.
    InsufficientCapacity,
    /// A previous deployment did not complete.
    IncompleteDeployment,
    /// A cell found from the last deployment is locked by another lock than
    /// the deploying account's, so it cannot be spent.
    LockMismatch { name: String },
    /// A dependency, or the code of an output's type script, is not found in
    /// the genesis block.
    MissingCode,
}

/// Whether two scripts are the same.
pub fn script_equal(a: &Script, b: &Script) -> (r: bool)
    ensures
        r == (a@ == b@),
{
    let same = crate::transaction::hash_equal(&a.code_hash, &b.code_hash) && a.hash_type == b.hash_type
        && crate::transaction::bytes_equal(&a.args, &b.args);
    proof {
        if a.code_hash@ == b.code_hash@ {
            assert(a.code_hash == b.code_hash);
        }
    }
    same
}

/// Fails on the first cell found from the last deployment whose lock on the
/// ledger, `locks[k]` for the `k`-th, is not `wallet_lock`.
pub fn check_pre_inputs_unlockable(pre_inputs: &Vec<PreInput>, locks: &Vec<Script>, wallet_lock: &Script) -> (r: Result<(), DeployError>)
    requires
        locks@.len() == pre_inputs@.len(),
    ensures
        r is Ok <==> forall|k: int| 0 <= k < locks@.len() ==> (#[trigger] locks@[k])@ == wallet_lock@,
        r is Err ==> exists|k: int| 0 <= k < locks@.len() && (#[trigger] locks@[k])@ != wallet_lock@
            && r->Err_0 == (DeployError::LockMismatch { name: pre_inputs@[k].0 }) ,
{
    let mut k: usize = 0;
    while k < locks.len()
        invariant
            k <= locks@.len(),
            locks@.len() == pre_inputs@.len(),
            forall|q: int| 0 <= q < k ==> (#[trigger] locks@[q])@ == wallet_lock@,
        decreases locks@.len() - k,
    {
        if !script_equal(&locks[k], wallet_lock) {
            let name = pre_inputs[k].0.clone();
            assert(name@ == pre_inputs@[k as int].0@);
            return Err(DeployError::LockMismatch { name });
        }
        k = k + 1;
    }
    Ok(())
}

/// The arguments of the identity script derived from `input` for the output at
/// `output_index`: the hash of the input followed by the index.
pub open spec fn type_id_args(input: LiveCell, output_index: nat) -> Seq<u8> {
    ckb_blake2b_256(cell_input_bytes(input.tx_hash, input.index, 0) + le_bytes(output_index, 8))
}

/// The identity script derived from `input` for the output at `output_index`.
pub open spec fn type_id_script(input: LiveCell, output_index: nat) -> ScriptModel {
    ScriptModel { code_hash: TYPE_ID_CODE_HASH, hash_type: HASH_TYPE_TYPE, args: type_id_args(input, output_index) }
}

/// Whether `s` is an identity script.
pub open spec fn is_type_id_script(s: ScriptModel) -> bool {
    s.code_hash@ == TYPE_ID_CODE_HASH@ && s.hash_type == HASH_TYPE_TYPE
}

/// The hash of a type script, where there is one.
pub open spec fn type_hash(t: Option<ScriptModel>) -> Option<Seq<u8>> {
    match t {
        Some(s) => Some(ckb_script_hash(s.code_hash@, s.hash_type, s.args)),
        None => None,
    }
}

/// The type script of a new cell: an identity derived from the first input,
/// where identity is asked for.
pub open spec fn new_cell_type(enable: bool, first_input: LiveCell, output_index: nat) -> Option<ScriptModel> {
    if enable {
        Some(type_id_script(first_input, output_index))
    } else {
        None
    }
}

/// The type script of a changed cell: where identity is asked for, the
/// identity its current output carries, else one derived from its own input.
pub open spec fn changed_cell_type(
    enable: bool,
    inherited: Option<ScriptModel>,
    input: LiveCell,
    output_index: nat,
) -> Option<ScriptModel> {
    if !enable {
        None
    } else if inherited is Some && is_type_id_script(inherited->0) {
        inherited
    } else {
        Some(type_id_script(input, output_index))
    }
}

/// The output that holds `data` under `lock` and `type_`, with exactly the
/// capacity it occupies.
pub open spec fn output_of(lock: ScriptModel, type_: Option<ScriptModel>, data: Seq<u8>) -> CellOutputModel {
    CellOutputModel { capacity: occupied_of(lock, type_, data.len()) as u64, lock, type_ }
}

/// The record of the cell `name` at `index` of a transaction not yet hashed.
pub open spec fn cell_recipe_of(
    name: Seq<char>,
    index: u32,
    lock: ScriptModel,
    type_: Option<ScriptModel>,
    data: Seq<u8>,
) -> CellRecipeModel {
    CellRecipeModel {
        name,
        tx_hash: ZERO_HASH@,
        index,
        occupied_capacity: occupied_of(lock, type_, data.len()) as u64,
        data_hash: ckb_data_hash(data),
        type_id: type_hash(type_),
    }
}

/// The identity script derived from `input` for the output at `output_index`.
pub fn build_type_id_script(input: &LiveCell, output_index: u64) -> (r: Script)
    ensures
        r@ == type_id_script(*input, output_index as nat),
        r.args@.len() == 32,
{
    let mut bytes = input.input_bytes();
    push_le(&mut bytes, output_index, 8);
    let h = blake2b_256(bytes.as_slice());
    let mut args: Vec<u8> = Vec::new();
    crate::codec::push_hash(&mut args, &h);
    assert(args@ == h@);
    Script { code_hash: TYPE_ID_CODE_HASH, hash_type: HASH_TYPE_TYPE, args }
}

/// Whether `script` is an identity script.
pub fn is_type_id(script: &Script) -> (r: bool)
    ensures
        r == is_type_id_script(script@),
{
    crate::transaction::hash_equal(&script.code_hash, &TYPE_ID_CODE_HASH) && script.hash_type
        == HASH_TYPE_TYPE
}

/// The hash of a type script, where there is one.
pub fn type_script_hash(t: &Option<Script>) -> (r: Option<[u8; 32]>)
    ensures
        crate::recipe::opt_hash_view(r) == type_hash(opt_script_view(*t)),
{
    match t {
        Some(s) => Some(script_hash(&s.code_hash, s.hash_type, s.args.as_slice())),
        None => None,
    }
}

/// The output holding `data` under `lock` and `type_`, and the record of the
/// cell `name` at `index`; `None` where its capacity does not fit in 64 bits.
pub fn build_cell_output(
    name: &String,
    index: u32,
    lock: &Script,
    type_: Option<Script>,
    data: &Vec<u8>,
) -> (r: Option<(CellOutput, CellRecipe)>)
    ensures
        r is Some <==> occupied_of(lock@, opt_script_view(type_), data@.len()) <= u64::MAX,
        r is Some ==> (r->0).0@ == output_of(lock@, opt_script_view(type_), data@),
        r is Some ==> (r->0).1@ == cell_recipe_of(name@, index, lock@, opt_script_view(type_), data@),
{
    let cap = occupied_capacity(lock, &type_, data.len());
    match cap {
        None => None,
        Some(c) => {
            let type_id = type_script_hash(&type_);
            let recipe = CellRecipe {
                name: name.clone(),
                tx_hash: ZERO_HASH,
                index,
                occupied_capacity: c,
                data_hash: data_hash(data.as_slice()),
                type_id,
            };
            let output = CellOutput { capacity: c, lock: lock.duplicate(), type_ };
            Some((output, recipe))
        },
    }
}

/// A declared cell with its payload, as plain values.
pub open spec fn cell_units(cells: Seq<(Cell, Vec<u8>)>) -> Seq<(Seq<char>, Seq<u8>)> {
    cells.map_values(|c: (Cell, Vec<u8>)| (c.0.name@, c.1@))
}

/// The positions of the declared cells of class `c`.
pub open spec fn cells_of(cells: Seq<(Cell, Vec<u8>)>, pre: Seq<PreInput>, c: UnitClass) -> Seq<int> {
    class_indices(cell_units(cells), pre, c)
}

/// The live cell on the ledger that holds the declared cell at `i`.
pub open spec fn live_of(cells: Seq<(Cell, Vec<u8>)>, pre: Seq<PreInput>, i: int) -> LiveCell {
    pre[find_pre(pre, cells[i].0.name@)].1
}

/// The inputs of the cells transaction: the live cells of the changed cells,
/// or, where none changed, the seed cells.
pub open spec fn cells_inputs(cells: Seq<(Cell, Vec<u8>)>, pre: Seq<PreInput>, seed: Seq<LiveCell>) -> Seq<LiveCell> {
    let pc = cells_of(cells, pre, UnitClass::Changed);
    if pc.len() > 0 {
        Seq::new(pc.len(), |m: int| live_of(cells, pre, pc[m]))
    } else {
        seed
    }
}

/// The type script of the `k`-th new cell.
pub open spec fn new_type_at(cells: Seq<(Cell, Vec<u8>)>, pre: Seq<PreInput>, seed: Seq<LiveCell>, k: int) -> Option<ScriptModel> {
    let i = cells_of(cells, pre, UnitClass::New)[k];
    new_cell_type(cells[i].0.enable_type_id, cells_inputs(cells, pre, seed)[0], k as nat)
}

/// The type script of the `m`-th changed cell, given what the ledger holds at
/// each cell's current output.
pub open spec fn changed_type_at(
    cells: Seq<(Cell, Vec<u8>)>,
    pre: Seq<PreInput>,
    inherited: Seq<Option<Script>>,
    m: int,
) -> Option<ScriptModel> {
    let i = cells_of(cells, pre, UnitClass::Changed)[m];
    let n = cells_of(cells, pre, UnitClass::New).len();
    changed_cell_type(cells[i].0.enable_type_id, opt_script_view(inherited[i]), live_of(cells, pre, i), (n + m) as nat)
}

/// Some unchanged cell has no record in the last deployment.
pub open spec fn cells_missing_recipe(cells: Seq<(Cell, Vec<u8>)>, pre: Seq<PreInput>, prior: Seq<CellRecipe>) -> bool {
    let pu = cells_of(cells, pre, UnitClass::Unchanged);
    exists|k: int| 0 <= k < pu.len() && find_cell(cell_views(prior), cells[#[trigger] pu[k]].0.name@) == -1
}

/// A new cell asks for an identity and there is no input to derive it from.
pub open spec fn cells_lack_seed(cells: Seq<(Cell, Vec<u8>)>, pre: Seq<PreInput>, seed: Seq<LiveCell>) -> bool {
    let pn = cells_of(cells, pre, UnitClass::New);
    &&& cells_inputs(cells, pre, seed).len() == 0
    &&& exists|k: int| 0 <= k < pn.len() && cells[#[trigger] pn[k]].0.enable_type_id
}

/// Some output's capacity does not fit in 64 bits.
pub open spec fn cells_overflow(
    cells: Seq<(Cell, Vec<u8>)>,
    pre: Seq<PreInput>,
    seed: Seq<LiveCell>,
    inherited: Seq<Option<Script>>,
    lock: ScriptModel,
) -> bool {
    let pn = cells_of(cells, pre, UnitClass::New);
    let pc = cells_of(cells, pre, UnitClass::Changed);
    ||| exists|k: int| 0 <= k < pn.len() && occupied_of(lock, new_type_at(cells, pre, seed, k), cells[#[trigger] pn[k]].1@.len()) > u64::MAX
    ||| exists|m: int| 0 <= m < pc.len() && occupied_of(lock, changed_type_at(cells, pre, inherited, m), cells[#[trigger] pc[m]].1@.len()) > u64::MAX
}

/// The declared cells as units: each name with its payload.
pub fn cell_unit_list(cells: &Vec<(Cell, Vec<u8>)>) -> (units: Vec<(String, Vec<u8>)>)
    ensures
        unit_views(units@) == cell_units(cells@),
{
        let mut units: Vec<(String, Vec<u8>)> = Vec::new();
        let mut i: usize = 0;
        while i < cells.len()
            invariant
                i <= cells@.len(),
                unit_views(units@) == cell_units(cells@).subrange(0, i as int),
            decreases cells@.len() - i,
        {
            let ghost before = units@;
            units.push((cells[i].0.name.clone(), crate::transaction::copy_bytes(&cells[i].1)));
            assert(unit_views(units@) == unit_views(before).push(cell_units(cells@)[i as int]));
            assert(cell_units(cells@).subrange(0, i as int + 1) == cell_units(cells@).subrange(0, i as int).push(cell_units(cells@)[i as int]));
            i = i + 1;
        }
        assert(cell_units(cells@).subrange(0, cells@.len() as int) == cell_units(cells@));
    units
}

/// Drives one deployment: the declared target, the record of the last
/// deployment, the fee paid per transaction and the cells reserved so far.
pub struct DeploymentProcess {
    pub tx_fee: u64,
    pub config: Deployment,
    pub recipe: DeploymentRecipe,
    pub collector: Collector,
}

impl DeploymentProcess {
    pub fn new(config: Deployment, recipe: DeploymentRecipe, tx_fee: u64) -> (r: DeploymentProcess)
        ensures
            r.config == config,
            r.recipe == recipe,
            r.tx_fee == tx_fee,
            r.collector.locked_cells@.len() == 0,
    {
        DeploymentProcess { tx_fee, config, recipe, collector: Collector::new() }
    }

    /// The records, from the last deployment, of the cells found unchanged.
    fn unchanged_cell_recipes(&self, cells: &Vec<(Cell, Vec<u8>)>, pre: &Vec<PreInput>, p: &crate::classify::Partition) -> (r: Result<Vec<CellRecipe>, DeployError>)
        requires
            is_partition_of(*p, cell_units(cells@), pre@),
        ensures
            r is Ok <==> !cells_missing_recipe(cells@, pre@, self.recipe.cell_recipes@),
            r is Err ==> r->Err_0 is MissingRecipe,
            r is Ok ==> r->Ok_0@.len() == cells_of(cells@, pre@, UnitClass::Unchanged).len(),
            r is Ok ==> forall|k: int| 0 <= k < r->Ok_0@.len() ==> (#[trigger] r->Ok_0@[k])@ == cell_views(self.recipe.cell_recipes@)[
                find_cell(cell_views(self.recipe.cell_recipes@), cells@[cells_of(cells@, pre@, UnitClass::Unchanged)[k]].0.name@)],
    {
        let ghost pu = cells_of(cells@, pre@, UnitClass::Unchanged);
        let ghost prior = cell_views(self.recipe.cell_recipes@);
        let mut out: Vec<CellRecipe> = Vec::new();
        let mut k: usize = 0;
        assert(crate::classify::firsts(p.unchanged@) == pu);
        while k < p.unchanged.len()
            invariant
                k <= p.unchanged@.len(),
                pu.len() == p.unchanged@.len(),
                crate::classify::firsts(p.unchanged@) == pu,
                is_partition_of(*p, cell_units(cells@), pre@),
                prior == cell_views(self.recipe.cell_recipes@),
                out@.len() == k,
                forall|q: int| 0 <= q < k ==> find_cell(prior, cells@[#[trigger] pu[q]].0.name@) != -1,
                forall|q: int| 0 <= q < k ==> (#[trigger] out@[q])@ == prior[find_cell(prior, cells@[pu[q]].0.name@)],
            decreases p.unchanged@.len() - k,
        {
            let i = p.unchanged[k].0;
            assert(pu[k as int] == i as int);
            assert(cell_units(cells@)[i as int].0 == cells@[i as int].0.name@);
            match find_cell_recipe(&self.recipe.cell_recipes, &cells[i].0.name) {
                None => {
                    return Err(DeployError::MissingRecipe { name: cells[i].0.name.clone() });
                },
                Some(j) => {
                    out.push(self.recipe.cell_recipes[j].duplicate());
                },
            }
            k = k + 1;
        }
        Ok(out)
    }

    /// The outputs, records and data of the new cells, then of the changed ones.
    fn cell_outputs(
        &self,
        cells: &Vec<(Cell, Vec<u8>)>,
        pre: &Vec<PreInput>,
        p: &crate::classify::Partition,
        seed: &Vec<LiveCell>,
        inputs: &Vec<LiveCell>,
        inherited: &Vec<Option<Script>>,
    ) -> (r: Result<(Vec<CellOutput>, Vec<CellRecipe>, Vec<Vec<u8>>), DeployError>)
        requires
            is_partition_of(*p, cell_units(cells@), pre@),
            inherited@.len() == cells@.len(),
            cells@.len() <= u32::MAX,
            inputs@ == cells_inputs(cells@, pre@, seed@),
            !cells_lack_seed(cells@, pre@, seed@),
        ensures
            r is Ok <==> !cells_overflow(cells@, pre@, seed@, inherited@, self.config.lock@),
            r is Err ==> r->Err_0 is CapacityOverflow,
            r is Ok ==> ({
                let (outs, recs, datas) = r->Ok_0;
                let pn = cells_of(cells@, pre@, UnitClass::New);
                let pc = cells_of(cells@, pre@, UnitClass::Changed);
                let lock = self.config.lock@;
                &&& outs@.len() == pn.len() + pc.len()
                &&& recs@.len() == pn.len() + pc.len()
                &&& datas@.len() == pn.len() + pc.len()
                &&& forall|k: int| 0 <= k < pn.len() ==> (#[trigger] outs@[k])@ == output_of(lock, new_type_at(cells@, pre@, seed@, k), cells@[pn[k]].1@)
                &&& forall|k: int| 0 <= k < pn.len() ==> (#[trigger] recs@[k])@ == cell_recipe_of(cells@[pn[k]].0.name@, k as u32, lock, new_type_at(cells@, pre@, seed@, k), cells@[pn[k]].1@)
                &&& forall|k: int| 0 <= k < pn.len() ==> (#[trigger] datas@[k])@ == cells@[pn[k]].1@
                &&& forall|m: int| 0 <= m < pc.len() ==> (#[trigger] outs@[pn.len() + m])@ == output_of(lock, changed_type_at(cells@, pre@, inherited@, m), cells@[pc[m]].1@)
                &&& forall|m: int| 0 <= m < pc.len() ==> (#[trigger] recs@[pn.len() + m])@ == cell_recipe_of(cells@[pc[m]].0.name@, (pn.len() + m) as u32, lock, changed_type_at(cells@, pre@, inherited@, m), cells@[pc[m]].1@)
                &&& forall|m: int| 0 <= m < pc.len() ==> (#[trigger] datas@[pn.len() + m])@ == cells@[pc[m]].1@
            }),
    {
        let ghost pn = cells_of(cells@, pre@, UnitClass::New);
        let ghost pc = cells_of(cells@, pre@, UnitClass::Changed);
        let ghost lock = self.config.lock@;
        assert(crate::classify::as_ints(p.new@) == pn);
        assert(crate::classify::firsts(p.changed@) == pc);
        proof {
            crate::classify::lemma_class_counts(cell_units(cells@), pre@);
        }
        let mut outs: Vec<CellOutput> = Vec::new();
        let mut recs: Vec<CellRecipe> = Vec::new();
        let mut datas: Vec<Vec<u8>> = Vec::new();
        let mut k: usize = 0;
        while k < p.new.len()
            invariant
                k <= p.new@.len(),
                pn.len() == p.new@.len(),
                pn == cells_of(cells@, pre@, UnitClass::New),
                crate::classify::as_ints(p.new@) == pn,
                is_partition_of(*p, cell_units(cells@), pre@),
                cells@.len() <= u32::MAX,
                inputs@ == cells_inputs(cells@, pre@, seed@),
                !cells_lack_seed(cells@, pre@, seed@),
                lock == self.config.lock@,
                outs@.len() == k,
                recs@.len() == k,
                datas@.len() == k,
                forall|q: int| 0 <= q < k ==> (#[trigger] outs@[q])@ == output_of(lock, new_type_at(cells@, pre@, seed@, q), cells@[pn[q]].1@),
                forall|q: int| 0 <= q < k ==> (#[trigger] recs@[q])@ == cell_recipe_of(cells@[pn[q]].0.name@, q as u32, lock, new_type_at(cells@, pre@, seed@, q), cells@[pn[q]].1@),
                forall|q: int| 0 <= q < k ==> (#[trigger] datas@[q])@ == cells@[pn[q]].1@,
                forall|q: int| 0 <= q < k ==> occupied_of(lock, new_type_at(cells@, pre@, seed@, q), cells@[#[trigger] pn[q]].1@.len()) <= u64::MAX,
            decreases p.new@.len() - k,
        {
            let i = p.new[k];
            assert(pn[k as int] == i as int);
            let cell = &cells[i].0;
            let type_ = if cell.enable_type_id {
                assert(cells@[pn[k as int]].0.enable_type_id);
                assert(inputs@.len() > 0);
                Some(build_type_id_script(&inputs[0], k as u64))
            } else {
                None
            };
            assert(opt_script_view(type_) == new_type_at(cells@, pre@, seed@, k as int));
            match build_cell_output(&cell.name, k as u32, &self.config.lock, type_, &cells[i].1) {
                None => {
                    assert(occupied_of(lock, new_type_at(cells@, pre@, seed@, k as int), cells@[pn[k as int]].1@.len()) > u64::MAX);
                    return Err(DeployError::CapacityOverflow);
                },
                Some((o, rc)) => {
                    outs.push(o);
                    recs.push(rc);
                    datas.push(crate::transaction::copy_bytes(&cells[i].1));
                },
            }
            k = k + 1;
        }
        let n = p.new.len();
        let mut m: usize = 0;
        while m < p.changed.len()
            invariant
                m <= p.changed@.len(),
                n == pn.len(),
                pn == cells_of(cells@, pre@, UnitClass::New),
                pc == cells_of(cells@, pre@, UnitClass::Changed),
                pc.len() == p.changed@.len(),
                crate::classify::firsts(p.changed@) == pc,
                is_partition_of(*p, cell_units(cells@), pre@),
                inherited@.len() == cells@.len(),
                cells@.len() <= u32::MAX,
                lock == self.config.lock@,
                outs@.len() == n + m,
                recs@.len() == n + m,
                datas@.len() == n + m,
                forall|q: int| 0 <= q < n ==> (#[trigger] outs@[q])@ == output_of(lock, new_type_at(cells@, pre@, seed@, q), cells@[pn[q]].1@),
                forall|q: int| 0 <= q < n ==> (#[trigger] recs@[q])@ == cell_recipe_of(cells@[pn[q]].0.name@, q as u32, lock, new_type_at(cells@, pre@, seed@, q), cells@[pn[q]].1@),
                forall|q: int| 0 <= q < n ==> (#[trigger] datas@[q])@ == cells@[pn[q]].1@,
                forall|q: int| 0 <= q < n ==> occupied_of(lock, new_type_at(cells@, pre@, seed@, q), cells@[#[trigger] pn[q]].1@.len()) <= u64::MAX,
                forall|q: int| 0 <= q < m ==> (#[trigger] outs@[n + q])@ == output_of(lock, changed_type_at(cells@, pre@, inherited@, q), cells@[pc[q]].1@),
                forall|q: int| 0 <= q < m ==> (#[trigger] recs@[n + q])@ == cell_recipe_of(cells@[pc[q]].0.name@, (n + q) as u32, lock, changed_type_at(cells@, pre@, inherited@, q), cells@[pc[q]].1@),
                forall|q: int| 0 <= q < m ==> (#[trigger] datas@[n + q])@ == cells@[pc[q]].1@,
                forall|q: int| 0 <= q < m ==> occupied_of(lock, changed_type_at(cells@, pre@, inherited@, q), cells@[#[trigger] pc[q]].1@.len()) <= u64::MAX,
                n + pc.len() <= cells@.len(),
            decreases p.changed@.len() - m,
        {
            let (i, j) = p.changed[m];
            assert(pc[m as int] == i as int);
            assert(cell_units(cells@)[i as int].0 == cells@[i as int].0.name@);
            let cell = &cells[i].0;
            let idx: usize = n + m;
            let live = pre[j].1;
            assert(p.changed@[m as int] == (i, j));
            assert(j as int == find_pre(pre@, cells@[i as int].0.name@));
            assert(live == live_of(cells@, pre@, i as int));
            assert(cells_of(cells@, pre@, UnitClass::New).len() == n);
            let type_ = if cell.enable_type_id {
                match &inherited[i] {
                    Some(s) => {
                        if is_type_id(s) {
                            Some(s.duplicate())
                        } else {
                            Some(build_type_id_script(&live, idx as u64))
                        }
                    },
                    None => Some(build_type_id_script(&live, idx as u64)),
                }
            } else {
                None
            };
            assert(opt_script_view(type_) == changed_type_at(cells@, pre@, inherited@, m as int));
            match build_cell_output(&cell.name, idx as u32, &self.config.lock, type_, &cells[i].1) {
                None => {
                    assert(occupied_of(lock, changed_type_at(cells@, pre@, inherited@, m as int), cells@[pc[m as int]].1@.len()) > u64::MAX);
                    return Err(DeployError::CapacityOverflow);
                },
                Some((o, rc)) => {
                    outs.push(o);
                    recs.push(rc);
                    datas.push(crate::transaction::copy_bytes(&cells[i].1));
                },
            }
            m = m + 1;
        }
        Ok((outs, recs, datas))
    }

    /// Plans the cells transaction before it is funded: the new cells'
    /// outputs, then the changed cells' outputs, spending the changed cells'
    /// live cells, or the seed cells where none changed. Unchanged cells keep
    /// their records from the last deployment. Records of planned outputs
    /// carry the zero transaction hash; `inherited[i]` is the type script at
    /// the current output of the cell at `i`, where it has one.
    pub fn plan_cells(
        &mut self,
        cells: &Vec<(Cell, Vec<u8>)>,
        pre_inputs: &Vec<PreInput>,
        seed_cells: &Vec<LiveCell>,
        inherited: &Vec<Option<Script>>,
    ) -> (r: Result<(Vec<CellRecipe>, Option<Transaction>), DeployError>)
        requires
            inherited@.len() == cells@.len(),
            cells@.len() <= u32::MAX,
        ensures
            r is Ok ==> (r->Ok_0.1 is None <==> (cells_of(cells@, pre_inputs@, UnitClass::New).len() == 0
                && cells_of(cells@, pre_inputs@, UnitClass::Changed).len() == 0)),
            r is Ok && r->Ok_0.1 is Some ==> r->Ok_0.1->0@.inputs == cells_inputs(cells@, pre_inputs@, seed_cells@).map_values(
                |c: LiveCell| crate::collector::out_point_of(c)),
            ({
                let pn = cells_of(cells@, pre_inputs@, UnitClass::New);
                let pc = cells_of(cells@, pre_inputs@, UnitClass::Changed);
                let missing = cells_missing_recipe(cells@, pre_inputs@, old(self).recipe.cell_recipes@);
                let idle = pn.len() == 0 && pc.len() == 0;
                let lack = cells_lack_seed(cells@, pre_inputs@, seed_cells@);
                let overflow = cells_overflow(cells@, pre_inputs@, seed_cells@, inherited@, old(self).config.lock@);
                &&& (r is Err && r->Err_0 is MissingRecipe) <==> missing
                &&& (r is Err && r->Err_0 is InsufficientCapacity) <==> (!missing && !idle && lack)
                &&& (r is Err && r->Err_0 is CapacityOverflow) <==> (!missing && !idle && !lack && overflow)
                &&& r is Ok <==> (!missing && (idle || (!lack && !overflow)))
            }),
            final(self).config == old(self).config,
            final(self).recipe == old(self).recipe,
            final(self).tx_fee == old(self).tx_fee,
            r is Ok ==> cells_plan_holds(
                r->Ok_0.0,
                r->Ok_0.1,
                cells@,
                pre_inputs@,
                seed_cells@,
                inherited@,
                old(self).config.lock@,
                old(self).recipe.cell_recipes@,
            ),
            r is Ok && r->Ok_0.1 is Some ==> final(self).collector.locked_cells@ == old(self).collector.locked_cells@
                + cells_inputs(cells@, pre_inputs@, seed_cells@).map_values(|c: LiveCell| crate::collector::out_point_of(c)),
            r is Ok && r->Ok_0.1 is None ==> final(self).collector == old(self).collector,
            r is Err ==> final(self).collector == old(self).collector,
    {
        reveal(cells_plan_holds);
        let units = cell_unit_list(cells);
        let p = classify(&units, pre_inputs);
        let ghost pu = cells_of(cells@, pre_inputs@, UnitClass::Unchanged);
        let ghost pn = cells_of(cells@, pre_inputs@, UnitClass::New);
        let ghost pc = cells_of(cells@, pre_inputs@, UnitClass::Changed);
        proof {
            crate::classify::lemma_class_counts(cell_units(cells@), pre_inputs@);
        }
        let mut recs = match self.unchanged_cell_recipes(cells, pre_inputs, &p) {
            Ok(v) => v,
            Err(e) => {
                return Err(e);
            },
        };
        assert(crate::classify::as_ints(p.new@).len() == p.new@.len());
        assert(crate::classify::firsts(p.changed@).len() == p.changed@.len());
        assert(pn.len() == p.new@.len());
        assert(pc.len() == p.changed@.len());
        if p.new.len() == 0 && p.changed.len() == 0 {
            return Ok((recs, None));
        }
        let mut inputs: Vec<LiveCell> = Vec::new();
        if p.changed.len() > 0 {
            let mut m: usize = 0;
            while m < p.changed.len()
                invariant
                    m <= p.changed@.len(),
                    is_partition_of(p, cell_units(cells@), pre_inputs@),
                    pc == cells_of(cells@, pre_inputs@, UnitClass::Changed),
                    crate::classify::firsts(p.changed@) == pc,
                    inputs@ == Seq::new(m as nat, |q: int| live_of(cells@, pre_inputs@, pc[q])),
                decreases p.changed@.len() - m,
            {
                let (ci, j) = p.changed[m];
                assert(p.changed@[m as int] == (ci, j));
                assert(pc[m as int] == ci as int);
                assert(cell_units(cells@)[ci as int].0 == cells@[ci as int].0.name@);
                inputs.push(pre_inputs[j].1);
                assert(inputs@ =~= Seq::new(m as nat + 1, |q: int| live_of(cells@, pre_inputs@, pc[q])));
                m = m + 1;
            }
        } else {
            let mut m: usize = 0;
            while m < seed_cells.len()
                invariant
                    m <= seed_cells@.len(),
                    inputs@ == seed_cells@.subrange(0, m as int),
                decreases seed_cells@.len() - m,
            {
                inputs.push(seed_cells[m]);
                assert(seed_cells@.subrange(0, m as int + 1) == seed_cells@.subrange(0, m as int).push(seed_cells@[m as int]));
                m = m + 1;
            }
            assert(seed_cells@.subrange(0, seed_cells@.len() as int) == seed_cells@);
        }
        assert(inputs@ == cells_inputs(cells@, pre_inputs@, seed_cells@));
        if inputs.len() == 0 {
            let mut k: usize = 0;
            while k < p.new.len()
                invariant
                    k <= p.new@.len(),
                    is_partition_of(p, cell_units(cells@), pre_inputs@),
                    pn == cells_of(cells@, pre_inputs@, UnitClass::New),
                    crate::classify::as_ints(p.new@) == pn,
                    forall|q: int| 0 <= q < k ==> !cells@[#[trigger] pn[q]].0.enable_type_id,
                    inputs@ == cells_inputs(cells@, pre_inputs@, seed_cells@),
                    inputs@.len() == 0,
                    !cells_missing_recipe(cells@, pre_inputs@, old(self).recipe.cell_recipes@),
                    pn.len() > 0 || pc.len() > 0,
                    pc == cells_of(cells@, pre_inputs@, UnitClass::Changed),
                decreases p.new@.len() - k,
            {
                assert(pn[k as int] == p.new@[k as int] as int);
                if cells[p.new[k]].0.enable_type_id {
                    assert(cells@[pn[k as int]].0.enable_type_id);
                    assert(cells_lack_seed(cells@, pre_inputs@, seed_cells@));
                    return Err(DeployError::InsufficientCapacity);
                }
                k = k + 1;
            }
        }
        assert(!cells_lack_seed(cells@, pre_inputs@, seed_cells@));
        let built = self.cell_outputs(cells, pre_inputs, &p, seed_cells, &inputs, inherited);
        let (outs, mut nrecs, datas) = match built {
            Ok(v) => v,
            Err(e) => {
                return Err(e);
            },
        };
        let ghost urecs = recs@;
        let ghost nr = nrecs@;
        recs.append(&mut nrecs);
        let mut ins: Vec<OutPoint> = Vec::new();
        let mut m: usize = 0;
        while m < inputs.len()
            invariant
                m <= inputs@.len(),
                ins@ == inputs@.subrange(0, m as int).map_values(|c: LiveCell| crate::collector::out_point_of(c)),
                self.collector.locked_cells@ == old(self).collector.locked_cells@ + ins@,
                self.config == old(self).config,
                self.recipe == old(self).recipe,
                self.tx_fee == old(self).tx_fee,
            decreases inputs@.len() - m,
        {
            let op = inputs[m].out_point();
            ins.push(op);
            self.collector.lock_cell(op);
            assert(inputs@.subrange(0, m as int + 1).map_values(|c: LiveCell| crate::collector::out_point_of(c))
                == inputs@.subrange(0, m as int).map_values(|c: LiveCell| crate::collector::out_point_of(c)).push(op));
            m = m + 1;
        }
        assert(inputs@.subrange(0, inputs@.len() as int) == inputs@);
        let tx = Transaction { cell_deps: Vec::new(), inputs: ins, outputs: outs, outputs_data: datas };
        proof {
            let u = pu.len();
            let n = pn.len();
            let t = tx@;
            assert(urecs.len() == u);
            assert(recs@ == urecs + nr);
            assert forall|k: int| 0 <= k < n implies (#[trigger] recs@[u + k])@ == cell_recipe_of(cells@[pn[k]].0.name@, k as u32, self.config.lock@, new_type_at(cells@, pre_inputs@, seed_cells@, k), cells@[pn[k]].1@) by {
                assert(recs@[u + k] == nr[k]);
                assert(tx.outputs@[k] == tx.outputs@[k]);
            }
            assert forall|k: int| 0 <= k < n implies #[trigger] t.outputs[k] == output_of(self.config.lock@, new_type_at(cells@, pre_inputs@, seed_cells@, k), cells@[pn[k]].1@) by {
                assert(t.outputs[k] == tx.outputs@[k]@);
            }
            assert forall|k: int| 0 <= k < n implies #[trigger] t.outputs_data[k] == cells@[pn[k]].1@ by {
                assert(t.outputs_data[k] == tx.outputs_data@[k]@);
                assert(tx.outputs@[k] == tx.outputs@[k]);
            }
            assert forall|m: int| 0 <= m < pc.len() implies #[trigger] t.outputs[n + m] == output_of(self.config.lock@, changed_type_at(cells@, pre_inputs@, inherited@, m), cells@[pc[m]].1@) by {
                assert(t.outputs[n + m] == tx.outputs@[n + m]@);
            }
            assert forall|m: int| 0 <= m < pc.len() implies #[trigger] t.outputs_data[n + m] == cells@[pc[m]].1@ by {
                assert(t.outputs_data[n + m] == tx.outputs_data@[n + m]@);
                assert(tx.outputs@[n + m] == tx.outputs@[n + m]);
            }
        }
        Ok((recs, Some(tx)))
    }
}

#[verifier::opaque]
/// `recipes` and `tx` are what the cells transaction of `cells` must be: the
/// unchanged cells' records from the last deployment, then a record and an
/// output for each new cell, then for each changed cell.
pub open spec fn cells_plan_holds(
    recipes: Vec<CellRecipe>,
    tx: Option<Transaction>,
    cells: Seq<(Cell, Vec<u8>)>,
    pre: Seq<PreInput>,
    seed: Seq<LiveCell>,
    inherited: Seq<Option<Script>>,
    lock: ScriptModel,
    prior: Seq<CellRecipe>,
) -> bool {
    let pu = cells_of(cells, pre, UnitClass::Unchanged);
    let pn = cells_of(cells, pre, UnitClass::New);
    let pc = cells_of(cells, pre, UnitClass::Changed);
    let u = pu.len();
    let n = pn.len();
    &&& recipes@.len() == u + n + pc.len()
    &&& forall|k: int| 0 <= k < u ==> (#[trigger] recipes@[k])@ == cell_views(prior)[find_cell(cell_views(prior), cells[pu[k]].0.name@)]
    &&& forall|k: int| 0 <= k < n ==> (#[trigger] recipes@[u + k])@ == cell_recipe_of(cells[pn[k]].0.name@, k as u32, lock, new_type_at(cells, pre, seed, k), cells[pn[k]].1@)
    &&& forall|m: int| 0 <= m < pc.len() ==> (#[trigger] recipes@[u + n + m])@ == cell_recipe_of(cells[pc[m]].0.name@, (n + m) as u32, lock, changed_type_at(cells, pre, inherited, m), cells[pc[m]].1@)
    &&& (tx is None <==> (n == 0 && pc.len() == 0))
    &&& tx is Some ==> {
        let t = tx->0@;
        &&& t.cell_deps.len() == 0
        &&& t.inputs == cells_inputs(cells, pre, seed).map_values(|c: LiveCell| crate::collector::out_point_of(c))
        &&& t.outputs.len() == n + pc.len()
        &&& t.outputs_data.len() == n + pc.len()
        &&& forall|k: int| 0 <= k < n ==> #[trigger] t.outputs[k] == output_of(lock, new_type_at(cells, pre, seed, k), cells[pn[k]].1@)
        &&& forall|k: int| 0 <= k < n ==> #[trigger] t.outputs_data[k] == cells[pn[k]].1@
        &&& forall|m: int| 0 <= m < pc.len() ==> #[trigger] t.outputs[n + m] == output_of(lock, changed_type_at(cells, pre, inherited, m), cells[pc[m]].1@)
        &&& forall|m: int| 0 <= m < pc.len() ==> #[trigger] t.outputs_data[n + m] == cells[pc[m]].1@
    }
}

/// The planned cells transaction, before it is funded.
pub open spec fn cells_plan_tx(
    cells: Seq<(Cell, Vec<u8>)>,
    pre: Seq<PreInput>,
    seed: Seq<LiveCell>,
    inherited: Seq<Option<Script>>,
    lock: ScriptModel,
) -> crate::transaction::TransactionModel {
    let pn = cells_of(cells, pre, UnitClass::New);
    let pc = cells_of(cells, pre, UnitClass::Changed);
    crate::transaction::TransactionModel {
        cell_deps: Seq::empty(),
        inputs: cells_inputs(cells, pre, seed).map_values(|c: LiveCell| crate::collector::out_point_of(c)),
        outputs: Seq::new(pn.len(), |k: int| output_of(lock, new_type_at(cells, pre, seed, k), cells[pn[k]].1@))
            + Seq::new(pc.len(), |m: int| output_of(lock, changed_type_at(cells, pre, inherited, m), cells[pc[m]].1@)),
        outputs_data: Seq::new(pn.len(), |k: int| cells[pn[k]].1@) + Seq::new(pc.len(), |m: int| cells[pc[m]].1@),
    }
}

/// A planned cells transaction is the one `cells_plan_tx` describes.
pub proof fn lemma_cells_plan_tx(
    recipes: Vec<CellRecipe>,
    tx: Transaction,
    cells: Seq<(Cell, Vec<u8>)>,
    pre: Seq<PreInput>,
    seed: Seq<LiveCell>,
    inherited: Seq<Option<Script>>,
    lock: ScriptModel,
    prior: Seq<CellRecipe>,
)
    requires
        cells_plan_holds(recipes, Some(tx), cells, pre, seed, inherited, lock, prior),
    ensures
        tx@ == cells_plan_tx(cells, pre, seed, inherited, lock),
{
    reveal(cells_plan_holds);
    let t = tx@;
    let e = cells_plan_tx(cells, pre, seed, inherited, lock);
    let n = cells_of(cells, pre, UnitClass::New).len();
    assert forall|k: int| 0 <= k < t.outputs.len() implies t.outputs[k] == e.outputs[k] by {
        if k >= n {
            assert(t.outputs[n + (k - n)] == e.outputs[k]);
        }
    }
    assert forall|k: int| 0 <= k < t.outputs_data.len() implies t.outputs_data[k] == e.outputs_data[k] by {
        if k >= n {
            assert(t.outputs_data[n + (k - n)] == e.outputs_data[k]);
        }
    }
    assert(t.outputs =~= e.outputs);
    assert(t.outputs_data =~= e.outputs_data);
    assert(t.cell_deps =~= e.cell_deps);
}

} // verus!
