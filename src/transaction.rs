//! The ledger's transaction shape, held as plain values.
use crate::codec::{cell_input_bytes, le_bytes};
use vstd::prelude::*;

verus! {

/// The hash type that makes a script refer to its code by type hash.
pub const HASH_TYPE_TYPE: u8 = 1;

/// A dependency that names a group of cells rather than one cell.
pub const DEP_TYPE_DEP_GROUP: u8 = 1;

/// One capacity unit per byte of a cell, in shannons.
pub const BYTE_SHANNONS: u64 = 100_000_000;

/// A lock or type script.
#[derive(Clone, Debug)]
pub struct Script {
    pub code_hash: [u8; 32],
    pub hash_type: u8,
    pub args: Vec<u8>,
}

pub ghost struct ScriptModel {
    pub code_hash: [u8; 32],
    pub hash_type: u8,
    pub args: Seq<u8>,
}

impl View for Script {
    type V = ScriptModel;

    open spec fn view(&self) -> ScriptModel {
        ScriptModel { code_hash: self.code_hash, hash_type: self.hash_type, args: self.args@ }
    }
}

/// The bytes a script occupies in a cell: code hash, hash type and arguments.
pub open spec fn script_size(s: ScriptModel) -> nat {
    33 + s.args.len()
}

/// The bytes a cell occupies: its capacity field, its scripts and its data.
pub open spec fn cell_size(lock: ScriptModel, type_: Option<ScriptModel>, data_len: nat) -> nat {
    8 + script_size(lock) + match type_ {
        Some(t) => script_size(t),
        None => 0,
    } + data_len
}

/// The deposit, in shannons, that a cell with these scripts and data must carry.
pub open spec fn occupied_of(lock: ScriptModel, type_: Option<ScriptModel>, data_len: nat) -> nat {
    cell_size(lock, type_, data_len) * (BYTE_SHANNONS as nat)
}

pub open spec fn opt_script_view(s: Option<Script>) -> Option<ScriptModel> {
    match s {
        Some(t) => Some(t@),
        None => None,
    }
}

/// A copy of `v`.
pub fn copy_bytes(v: &Vec<u8>) -> (r: Vec<u8>)
    ensures
        r@ == v@,
{
    let mut r: Vec<u8> = Vec::new();
    let mut i: usize = 0;
    while i < v.len()
        invariant
            i <= v@.len(),
            r@ == v@.subrange(0, i as int),
        decreases v@.len() - i,
    {
        r.push(v[i]);
        i = i + 1;
    }
    assert(v@.subrange(0, v@.len() as int) == v@);
    r
}

/// Whether `a` and `b` hold the same bytes.
pub fn bytes_equal(a: &Vec<u8>, b: &Vec<u8>) -> (r: bool)
    ensures
        r == (a@ == b@),
{
    if a.len() != b.len() {
        return false;
    }
    let mut i: usize = 0;
    while i < a.len()
        invariant
            i <= a@.len(),
            a@.len() == b@.len(),
            a@.subrange(0, i as int) == b@.subrange(0, i as int),
        decreases a@.len() - i,
    {
        if a[i] != b[i] {
            assert(a@[i as int] != b@[i as int]);
            return false;
        }
        assert(a@.subrange(0, i as int + 1) == a@.subrange(0, i as int).push(a@[i as int]));
        assert(b@.subrange(0, i as int + 1) == b@.subrange(0, i as int).push(b@[i as int]));
        i = i + 1;
    }
    assert(a@.subrange(0, a@.len() as int) == a@);
    assert(b@.subrange(0, b@.len() as int) == b@);
    true
}

/// Whether two hashes are equal.
pub fn hash_equal(a: &[u8; 32], b: &[u8; 32]) -> (r: bool)
    ensures
        r == (a@ == b@),
{
    let mut i: usize = 0;
    while i < 32
        invariant
            i <= 32,
            a@.len() == 32,
            b@.len() == 32,
            a@.subrange(0, i as int) == b@.subrange(0, i as int),
        decreases 32 - i,
    {
        if a[i] != b[i] {
            assert(a@[i as int] != b@[i as int]);
            return false;
        }
        assert(a@.subrange(0, i as int + 1) == a@.subrange(0, i as int).push(a@[i as int]));
        assert(b@.subrange(0, i as int + 1) == b@.subrange(0, i as int).push(b@[i as int]));
        i = i + 1;
    }
    assert(a@.subrange(0, 32) == a@);
    assert(b@.subrange(0, 32) == b@);
    true
}

impl Script {
    /// A copy of this script.
    pub fn duplicate(&self) -> (r: Script)
        ensures
            r@ == self@,
    {
        Script { code_hash: self.code_hash, hash_type: self.hash_type, args: copy_bytes(&self.args) }
    }
}

/// The deposit a cell with these scripts and `data_len` bytes of data must
/// carry; `None` where it does not fit in 64 bits.
pub fn occupied_capacity(lock: &Script, type_: &Option<Script>, data_len: usize) -> (r: Option<u64>)
    ensures
        r is Some <==> occupied_of(lock@, opt_script_view(*type_), data_len as nat) <= u64::MAX,
        r is Some ==> r->0 == occupied_of(lock@, opt_script_view(*type_), data_len as nat),
{
    let limit: u64 = u64::MAX / BYTE_SHANNONS;
    let lock_len: usize = lock.args.len();
    let type_len: u64 = match type_ {
        Some(t) => {
            if t.args.len() as u64 > limit {
                return None;
            }
            33 + t.args.len() as u64
        },
        None => 0,
    };
    if lock_len as u64 > limit || data_len as u64 > limit {
        return None;
    }
    let size: u64 = 8 + 33 + lock_len as u64 + type_len + data_len as u64;
    assert(size == cell_size(lock@, opt_script_view(*type_), data_len as nat));
    if size > limit {
        assert(size * BYTE_SHANNONS > u64::MAX) by (nonlinear_arith)
            requires size > limit, limit == u64::MAX / BYTE_SHANNONS, BYTE_SHANNONS == 100_000_000u64;
        return None;
    }
    assert(size * BYTE_SHANNONS <= u64::MAX) by (nonlinear_arith)
        requires size <= limit, limit == u64::MAX / BYTE_SHANNONS, BYTE_SHANNONS == 100_000_000u64;
    Some(size * BYTE_SHANNONS)
}

/// A reference to one output of a transaction.
#[derive(Clone, Copy, Debug, PartialEq, Eq, Hash)]
pub struct OutPoint {
    pub tx_hash: [u8; 32],
    pub index: u32,
}

/// A dependency of a transaction: the cell it reads and how it reads it.
#[derive(Clone, Copy, Debug, PartialEq, Eq)]
pub struct CellDep {
    pub out_point: OutPoint,
    pub dep_type: u8,
}

/// An output of a transaction.
#[derive(Clone, Debug)]
pub struct CellOutput {
    pub capacity: u64,
    pub lock: Script,
    pub type_: Option<Script>,
}

pub ghost struct CellOutputModel {
    pub capacity: u64,
    pub lock: ScriptModel,
    pub type_: Option<ScriptModel>,
}

impl View for CellOutput {
    type V = CellOutputModel;

    open spec fn view(&self) -> CellOutputModel {
        CellOutputModel { capacity: self.capacity, lock: self.lock@, type_: opt_script_view(self.type_) }
    }
}

/// A transaction: the cells it reads, the cells it spends (each with a zero
/// `since`) and the cells it creates with their data.
#[derive(Clone, Debug)]
pub struct Transaction {
    pub cell_deps: Vec<CellDep>,
    pub inputs: Vec<OutPoint>,
    pub outputs: Vec<CellOutput>,
    pub outputs_data: Vec<Vec<u8>>,
}

pub ghost struct TransactionModel {
    pub cell_deps: Seq<CellDep>,
    pub inputs: Seq<OutPoint>,
    pub outputs: Seq<CellOutputModel>,
    pub outputs_data: Seq<Seq<u8>>,
}

impl View for Transaction {
    type V = TransactionModel;

    open spec fn view(&self) -> TransactionModel {
        TransactionModel {
            cell_deps: self.cell_deps@,
            inputs: self.inputs@,
            outputs: self.outputs@.map_values(|o: CellOutput| o@),
            outputs_data: self.outputs_data@.map_values(|d: Vec<u8>| d@),
        }
    }
}

/// The sum of the capacities of `outputs`.
pub open spec fn outputs_capacity(outputs: Seq<CellOutputModel>) -> nat
    decreases outputs.len(),
{
    if outputs.len() == 0 {
        0
    } else {
        (outputs_capacity(outputs.drop_last()) + outputs.last().capacity) as nat
    }
}

/// The sum of the capacities of `cells`.
pub open spec fn cells_capacity(cells: Seq<LiveCell>) -> nat
    decreases cells.len(),
{
    if cells.len() == 0 {
        0
    } else {
        (cells_capacity(cells.drop_last()) + cells.last().capacity) as nat
    }
}

/// The transactions that one planning pass produced: one that allocates cells
/// and one that allocates dependency groups, each only where it is needed.
#[derive(Clone, Debug)]
pub struct BakedTransaction {
    pub cells: Option<Transaction>,
    pub dep_groups: Option<Transaction>,
}

impl BakedTransaction {
    /// Whether no transaction was built.
    pub fn is_empty(&self) -> (r: bool)
        ensures
            r == (self.cells is None && self.dep_groups is None),
    {
        self.cells.is_none() && self.dep_groups.is_none()
    }

    /// How many transactions were built.
    pub fn len(&self) -> (r: usize)
        ensures
            r == (if self.cells is Some { 1int } else { 0int }) + (if self.dep_groups is Some {
                1int
            } else {
                0int
            }),
    {
        let mut n: usize = 0;
        if self.cells.is_some() {
            n = n + 1;
        }
        if self.dep_groups.is_some() {
            n = n + 1;
        }
        n
    }
}

/// An unspent cell on the ledger.
#[derive(Clone, Copy, Debug, PartialEq, Eq, Hash)]
pub struct LiveCell {
    pub tx_hash: [u8; 32],
    pub index: u32,
    pub capacity: u64,
    pub mature: bool,
}

impl LiveCell {
    /// The out point of this cell.
    pub fn out_point(&self) -> (r: OutPoint)
        ensures
            r == (OutPoint { tx_hash: self.tx_hash, index: self.index }),
    {
        OutPoint { tx_hash: self.tx_hash, index: self.index }
    }

    /// The bytes of the input that spends this cell.
    pub fn input_bytes(&self) -> (r: Vec<u8>)
        ensures
            r@ == cell_input_bytes(self.tx_hash, self.index, 0),
    {
        crate::codec::encode_cell_input(&self.tx_hash, self.index, 0)
    }
}

} // verus!
