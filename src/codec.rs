//! Byte layouts of the ledger's fixed-size structures, and the ledger's hashes.
use ckb_types::packed;
use ckb_types::prelude::{Builder, Entity, Pack, Unpack};
use vstd::prelude::*;

verus! {

/// The `k` low bytes of `n`, least significant first.
pub open spec fn le_bytes(n: nat, k: nat) -> Seq<u8>
    decreases k,
{
    if k == 0 {
        Seq::empty()
    } else {
        seq![(n % 256) as u8] + le_bytes(n / 256, (k - 1) as nat)
    }
}

/// An out point: the 32-byte transaction hash, then the output index as 4 bytes.
pub open spec fn out_point_bytes(tx_hash: [u8; 32], index: u32) -> Seq<u8> {
    tx_hash@ + le_bytes(index as nat, 4)
}

/// A cell input: the 8-byte `since` field, then the out point it spends.
pub open spec fn cell_input_bytes(tx_hash: [u8; 32], index: u32, since: u64) -> Seq<u8> {
    le_bytes(since as nat, 8) + out_point_bytes(tx_hash, index)
}

/// The out points of `ops`, one after another.
pub open spec fn out_points_concat(ops: Seq<([u8; 32], u32)>) -> Seq<u8>
    decreases ops.len(),
{
    if ops.len() == 0 {
        Seq::empty()
    } else {
        out_points_concat(ops.drop_last()) + out_point_bytes(ops.last().0, ops.last().1)
    }
}

/// A vector of out points: its length as 4 bytes, then each out point.
pub open spec fn out_point_vec_bytes(ops: Seq<([u8; 32], u32)>) -> Seq<u8> {
    le_bytes(ops.len(), 4) + out_points_concat(ops)
}

/// Appends the `k` low bytes of `n` to `out`, least significant first.
pub fn push_le(out: &mut Vec<u8>, n: u64, k: usize)
    requires
        k <= 8,
    ensures
        final(out)@ == old(out)@ + le_bytes(n as nat, k as nat),
{
    let mut x: u64 = n;
    let mut i: usize = 0;
    while i < k
        invariant
            i <= k,
            out@ + le_bytes(x as nat, (k - i) as nat) == old(out)@ + le_bytes(n as nat, k as nat),
        decreases k - i,
    {
        let ghost before = out@;
        let b: u8 = (x % 256) as u8;
        out.push(b);
        proof {
            let m = (k - i) as nat;
            assert(le_bytes(x as nat, m) == seq![b] + le_bytes((x / 256) as nat, (m - 1) as nat));
            assert(out@ == before + seq![b]);
            assert(before + le_bytes(x as nat, m) == out@ + le_bytes(
                (x / 256) as nat,
                (m - 1) as nat,
            ));
        }
        x = x / 256;
        i = i + 1;
    }
}

/// Appends the 32 bytes of `h` to `out`.
pub fn push_hash(out: &mut Vec<u8>, h: &[u8; 32])
    ensures
        final(out)@ == old(out)@ + h@,
{
    let mut i: usize = 0;
    while i < 32
        invariant
            i <= 32,
            h@.len() == 32,
            out@ == old(out)@ + h@.subrange(0, i as int),
        decreases 32 - i,
    {
        out.push(h[i]);
        i = i + 1;
    }
    assert(h@.subrange(0, 32) == h@);
}

/// Appends the out point `(tx_hash, index)` to `out`.
pub fn push_out_point(out: &mut Vec<u8>, tx_hash: &[u8; 32], index: u32)
    ensures
        final(out)@ == old(out)@ + out_point_bytes(*tx_hash, index),
{
    let ghost start = out@;
    push_hash(out, tx_hash);
    push_le(out, index as u64, 4);
    assert(out@ == start + out_point_bytes(*tx_hash, index));
}

/// The bytes of the cell input that spends `(tx_hash, index)` with the given `since`.
pub fn encode_cell_input(tx_hash: &[u8; 32], index: u32, since: u64) -> (r: Vec<u8>)
    ensures
        r@ == cell_input_bytes(*tx_hash, index, since),
{
    let mut out: Vec<u8> = Vec::new();
    push_le(&mut out, since, 8);
    push_out_point(&mut out, tx_hash, index);
    out
}

/// The bytes of the out point vector holding `ops` in order: the payload of a
/// dependency group cell.
pub fn encode_out_point_vec(ops: &Vec<([u8; 32], u32)>) -> (r: Option<Vec<u8>>)
    ensures
        ops@.len() <= u32::MAX <==> r is Some,
        r is Some ==> r->0@ == out_point_vec_bytes(ops@),
{
    if ops.len() > u32::MAX as usize {
        return None;
    }
    let mut out: Vec<u8> = Vec::new();
    push_le(&mut out, ops.len() as u64, 4);
    let ghost head = out@;
    let mut i: usize = 0;
    while i < ops.len()
        invariant
            i <= ops@.len(),
            out@ == head + out_points_concat(ops@.subrange(0, i as int)),
        decreases ops@.len() - i,
    {
        let (h, idx) = ops[i];
        push_out_point(&mut out, &h, idx);
        proof {
            let pre = ops@.subrange(0, i as int + 1);
            assert(pre.drop_last() == ops@.subrange(0, i as int));
            assert(pre.last() == ops@[i as int]);
        }
        i = i + 1;
    }
    assert(ops@.subrange(0, ops@.len() as int) == ops@);
    Some(out)
}

/// What the ledger's default hash gives on `data`.
pub uninterp spec fn ckb_blake2b_256(data: Seq<u8>) -> Seq<u8>;

/// What the ledger records as the hash of a cell's data: all zero for empty
/// data, else the ledger's default hash of the data.
pub open spec fn ckb_data_hash(data: Seq<u8>) -> Seq<u8> {
    if data.len() == 0 {
        Seq::new(32, |i: int| 0u8)
    } else {
        ckb_blake2b_256(data)
    }
}

/// What the ledger records as the hash of the script `(code_hash, hash_type, args)`.
pub uninterp spec fn ckb_script_hash(code_hash: Seq<u8>, hash_type: u8, args: Seq<u8>) -> Seq<u8>;

/// Relies on `ckb_hash::blake2b_256`: the 32-byte blake2b digest of `data`
/// under the ledger's personalization.
#[verifier::external_body]
pub(crate) fn blake2b_256(data: &[u8]) -> (r: [u8; 32])
    ensures
        r@ == ckb_blake2b_256(data@),
{
    ckb_hash::blake2b_256(data)
}

/// The hash of a cell's data, as the ledger records it: all zero for empty
/// data, else the ledger's default hash of the data.
pub fn data_hash(data: &[u8]) -> (r: [u8; 32])
    ensures
        r@ == ckb_data_hash(data@),
        data@.len() == 0 ==> r@ == Seq::new(32, |i: int| 0u8),
{
    if data.len() == 0 {
        let z: [u8; 32] = [0u8; 32];
        assert(z@ =~= Seq::new(32, |i: int| 0u8));
        z
    } else {
        blake2b_256(data)
    }
}

/// Relies on `ckb_types::packed::Script::calc_script_hash`: the hash of the
/// script with the given code hash, hash type and arguments.
#[verifier::external_body]
pub(crate) fn script_hash(code_hash: &[u8; 32], hash_type: u8, args: &[u8]) -> (r: [u8; 32])
    ensures
        r@ == ckb_script_hash(code_hash@, hash_type, args@),
{
    let script = packed::Script::new_builder()
        .code_hash(code_hash.pack())
        .hash_type(packed::Byte::new(hash_type))
        .args(args.pack())
        .build();
    script.calc_script_hash().unpack()
}

} // verus!
