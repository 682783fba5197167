//! A check, before signing, that every type script of a transaction's outputs
//! can find its code among the cells the transaction depends on.
use crate::codec::{ckb_data_hash, ckb_script_hash, data_hash, script_hash};
use crate::deployment_process::{DeployError, TYPE_ID_CODE_HASH};
use crate::transaction::{hash_equal, CellOutput, CellOutputModel, OutPoint, Transaction, HASH_TYPE_TYPE};
use vstd::prelude::*;

verus! {

/// The hash type that makes a script refer to its code by data hash.
pub const HASH_TYPE_DATA: u8 = 0;

/// A transaction of the genesis block: its hash, outputs and their data.
#[derive(Clone, Debug)]
pub struct GenesisTx {
    pub hash: [u8; 32],
    pub outputs: Vec<CellOutput>,
    pub outputs_data: Vec<Vec<u8>>,
}

/// The genesis transaction at `g` holds the output at `op`.
pub open spec fn holds(genesis: Seq<GenesisTx>, op: OutPoint, g: int) -> bool {
    &&& genesis[g].hash@ == op.tx_hash@
    &&& op.index < genesis[g].outputs@.len()
    &&& op.index < genesis[g].outputs_data@.len()
}

/// The position, from `g` on, of the first genesis transaction that holds
/// the output at `op`, or -1.
pub open spec fn find_dep_from(genesis: Seq<GenesisTx>, op: OutPoint, g: int) -> int
    decreases genesis.len() - g,
{
    if g < 0 || g >= genesis.len() {
        -1
    } else if holds(genesis, op, g) {
        g
    } else {
        find_dep_from(genesis, op, g + 1)
    }
}

pub open spec fn find_dep(genesis: Seq<GenesisTx>, op: OutPoint) -> int {
    find_dep_from(genesis, op, 0)
}

proof fn lemma_find_dep_range(genesis: Seq<GenesisTx>, op: OutPoint, g: int)
    requires
        0 <= g,
    ensures
        find_dep_from(genesis, op, g) == -1 || (g <= find_dep_from(genesis, op, g) < genesis.len()
            && holds(genesis, op, find_dep_from(genesis, op, g))),
    decreases genesis.len() - g,
{
    if g < genesis.len() && !holds(genesis, op, g) {
        lemma_find_dep_range(genesis, op, g + 1);
    }
}

/// Every dependency of `tx` is an output of the genesis block.
pub open spec fn deps_found(genesis: Seq<GenesisTx>, tx: Transaction) -> bool {
    forall|d: int| 0 <= d < tx.cell_deps@.len() ==> find_dep(genesis, (#[trigger] tx.cell_deps@[d]).out_point) >= 0
}

/// The output that the `d`-th dependency of `tx` reads, and its data.
pub open spec fn dep_output(genesis: Seq<GenesisTx>, tx: Transaction, d: int) -> (CellOutputModel, Seq<u8>) {
    let op = tx.cell_deps@[d].out_point;
    let g = find_dep(genesis, op);
    (genesis[g].outputs@[op.index as int]@, genesis[g].outputs_data@[op.index as int]@)
}

/// `h` is the data hash of a dependency of `tx`.
pub open spec fn is_dep_data_hash(genesis: Seq<GenesisTx>, tx: Transaction, h: Seq<u8>) -> bool {
    exists|d: int| 0 <= d < tx.cell_deps@.len() && h == ckb_data_hash(#[trigger] dep_output(genesis, tx, d).1)
}

/// `h` is the identity code hash, or the type hash of a dependency of `tx`.
pub open spec fn is_dep_type_hash(genesis: Seq<GenesisTx>, tx: Transaction, h: Seq<u8>) -> bool {
    ||| h == TYPE_ID_CODE_HASH@
    ||| exists|d: int|
        0 <= d < tx.cell_deps@.len() && (#[trigger] dep_output(genesis, tx, d)).0.type_ is Some && h == {
            let t = dep_output(genesis, tx, d).0.type_->0;
            ckb_script_hash(t.code_hash@, t.hash_type, t.args)
        }
}

/// The type script of output `o` finds its code: by data hash or by type
/// hash among the dependencies, as its hash type says.
pub open spec fn output_code_found(genesis: Seq<GenesisTx>, tx: Transaction, o: CellOutputModel) -> bool {
    match o.type_ {
        None => true,
        Some(t) => if t.hash_type == HASH_TYPE_DATA {
            is_dep_data_hash(genesis, tx, t.code_hash@)
        } else if t.hash_type == HASH_TYPE_TYPE {
            is_dep_type_hash(genesis, tx, t.code_hash@)
        } else {
            true
        },
    }
}

fn find_genesis_tx(genesis: &Vec<GenesisTx>, op: &OutPoint) -> (r: Option<usize>)
    ensures
        r is None <==> find_dep(genesis@, *op) == -1,
        r is Some ==> r->0 as int == find_dep(genesis@, *op) && holds(genesis@, *op, r->0 as int) && r->0 < genesis@.len(),
{
    proof {
        lemma_find_dep_range(genesis@, *op, 0);
    }
    let mut g: usize = 0;
    while g < genesis.len()
        invariant
            g <= genesis@.len(),
            find_dep(genesis@, *op) == find_dep_from(genesis@, *op, g as int),
        decreases genesis@.len() - g,
    {
        let t = &genesis[g];
        if hash_equal(&t.hash, &op.tx_hash) && (op.index as usize) < t.outputs.len() && (op.index as usize)
            < t.outputs_data.len() {
            return Some(g);
        }
        g = g + 1;
    }
    None
}

/// Whether the data hash or (for `by_type`) the type hash of some dependency
/// of `tx` is `h`. All dependencies are in the genesis block.
fn dep_offers(genesis: &Vec<GenesisTx>, tx: &Transaction, h: &[u8; 32], by_type: bool) -> (r: bool)
    requires
        deps_found(genesis@, *tx),
    ensures
        !by_type ==> (r == is_dep_data_hash(genesis@, *tx, h@)),
        by_type ==> (r == (exists|d: int|
            0 <= d < tx.cell_deps@.len() && (#[trigger] dep_output(genesis@, *tx, d)).0.type_ is Some && h@ == {
                let t = dep_output(genesis@, *tx, d).0.type_->0;
                ckb_script_hash(t.code_hash@, t.hash_type, t.args)
            })),
{
    let mut d: usize = 0;
    while d < tx.cell_deps.len()
        invariant
            d <= tx.cell_deps@.len(),
            deps_found(genesis@, *tx),
            !by_type ==> forall|q: int| 0 <= q < d ==> h@ != ckb_data_hash(#[trigger] dep_output(genesis@, *tx, q).1),
            by_type ==> forall|q: int| 0 <= q < d ==> !((#[trigger] dep_output(genesis@, *tx, q)).0.type_ is Some && h@ == {
                let t = dep_output(genesis@, *tx, q).0.type_->0;
                ckb_script_hash(t.code_hash@, t.hash_type, t.args)
            }),
        decreases tx.cell_deps@.len() - d,
    {
        let op = tx.cell_deps[d].out_point;
        assert(find_dep(genesis@, tx.cell_deps@[d as int].out_point) >= 0);
        let g = match find_genesis_tx(genesis, &op) {
            Some(g) => g,
            None => {
                return false;
            },
        };
        let i = op.index as usize;
        let ghost dep = dep_output(genesis@, *tx, d as int);
        assert(dep.1 == genesis@[g as int].outputs_data@[i as int]@);
        assert(dep.0 == genesis@[g as int].outputs@[i as int]@);
        if !by_type {
            let dh = data_hash(genesis[g].outputs_data[i].as_slice());
            if hash_equal(&dh, h) {
                return true;
            }
        } else {
            match &genesis[g].outputs[i].type_ {
                Some(t) => {
                    let th = script_hash(&t.code_hash, t.hash_type, t.args.as_slice());
                    if hash_equal(&th, h) {
                        return true;
                    }
                },
                None => {},
            }
        }
        d = d + 1;
    }
    false
}

/// Checks that every dependency of `tx` is in the genesis block, and that
/// every type script of its outputs finds its code there: by data hash for
/// the data hash type, by type hash (or as the identity script) for the type
/// hash type. Other hash types are not checked.
pub fn tx_check(genesis: &Vec<GenesisTx>, tx: &Transaction) -> (r: Result<(), DeployError>)
    ensures
        r is Ok <==> (deps_found(genesis@, *tx) && forall|k: int| 0 <= k < tx.outputs@.len() ==> output_code_found(genesis@, *tx, (#[trigger] tx.outputs@[k])@)),
        r is Err ==> r->Err_0 is MissingCode,
{
    let mut d: usize = 0;
    while d < tx.cell_deps.len()
        invariant
            d <= tx.cell_deps@.len(),
            forall|q: int| 0 <= q < d ==> find_dep(genesis@, (#[trigger] tx.cell_deps@[q]).out_point) >= 0,
        decreases tx.cell_deps@.len() - d,
    {
        let op = tx.cell_deps[d].out_point;
        if find_genesis_tx(genesis, &op).is_none() {
            return Err(DeployError::MissingCode);
        }
        d = d + 1;
    }
    let mut k: usize = 0;
    while k < tx.outputs.len()
        invariant
            k <= tx.outputs@.len(),
            deps_found(genesis@, *tx),
            forall|q: int| 0 <= q < k ==> output_code_found(genesis@, *tx, (#[trigger] tx.outputs@[q])@),
        decreases tx.outputs@.len() - k,
    {
        match &tx.outputs[k].type_ {
            None => {},
            Some(t) => {
                if t.hash_type == HASH_TYPE_DATA {
                    if !dep_offers(genesis, tx, &t.code_hash, false) {
                        return Err(DeployError::MissingCode);
                    }
                } else if t.hash_type == HASH_TYPE_TYPE {
                    if !hash_equal(&t.code_hash, &TYPE_ID_CODE_HASH) && !dep_offers(genesis, tx, &t.code_hash, true) {
                        return Err(DeployError::MissingCode);
                    }
                }
            },
        }
        k = k + 1;
    }
    Ok(())
}

} // verus!
