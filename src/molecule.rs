//! The ledger's serialization of a raw transaction, whose hash names the
//! transaction: tables, fixed and dynamic vectors of the ledger's types.
use crate::codec::{blake2b_256, ckb_blake2b_256, cell_input_bytes, le_bytes, out_point_bytes, push_hash, push_le};
use crate::transaction::{CellDep, CellOutput, CellOutputModel, OutPoint, Script, ScriptModel, Transaction, TransactionModel};
use vstd::prelude::*;

verus! {

/// The byte strings of `s`, one after another.
pub open spec fn concat_all(s: Seq<Seq<u8>>) -> Seq<u8>
    decreases s.len(),
{
    if s.len() == 0 {
        Seq::empty()
    } else {
        concat_all(s.drop_last()) + s.last()
    }
}

/// The offsets of the fields of a table whose header is `start` bytes long.
pub open spec fn table_offsets(s: Seq<Seq<u8>>, start: nat) -> Seq<u8>
    decreases s.len(),
{
    if s.len() == 0 {
        Seq::empty()
    } else {
        table_offsets(s.drop_last(), start) + le_bytes(start + concat_all(s.drop_last()).len(), 4)
    }
}

/// A table (or dynamic vector) of the fields `s`: the total size, the offset
/// of each field, then the fields.
pub open spec fn table_bytes(s: Seq<Seq<u8>>) -> Seq<u8> {
    let h = 4 + 4 * s.len();
    le_bytes(h + concat_all(s).len(), 4) + table_offsets(s, h) + concat_all(s)
}

/// A byte vector: its length, then its bytes.
pub open spec fn bytes_field(b: Seq<u8>) -> Seq<u8> {
    le_bytes(b.len(), 4) + b
}

pub open spec fn script_bytes(s: ScriptModel) -> Seq<u8> {
    table_bytes(seq![s.code_hash@, seq![s.hash_type], bytes_field(s.args)])
}

pub open spec fn opt_script_bytes(o: Option<ScriptModel>) -> Seq<u8> {
    match o {
        Some(s) => script_bytes(s),
        None => Seq::empty(),
    }
}

pub open spec fn output_bytes(o: CellOutputModel) -> Seq<u8> {
    table_bytes(seq![le_bytes(o.capacity as nat, 8), script_bytes(o.lock), opt_script_bytes(o.type_)])
}

pub open spec fn cell_dep_bytes(d: CellDep) -> Seq<u8> {
    out_point_bytes(d.out_point.tx_hash, d.out_point.index) + seq![d.dep_type]
}

pub open spec fn input_bytes(o: OutPoint) -> Seq<u8> {
    cell_input_bytes(o.tx_hash, o.index, 0)
}

/// The serialized raw transaction: version 0, its dependencies, no header
/// dependencies, its inputs, its outputs and their data.
pub open spec fn raw_tx_bytes(t: TransactionModel) -> Seq<u8> {
    table_bytes(
        seq![
            le_bytes(0, 4),
            le_bytes(t.cell_deps.len(), 4) + concat_all(t.cell_deps.map_values(|d: CellDep| cell_dep_bytes(d))),
            le_bytes(0, 4),
            le_bytes(t.inputs.len(), 4) + concat_all(t.inputs.map_values(|o: OutPoint| input_bytes(o))),
            table_bytes(t.outputs.map_values(|o: CellOutputModel| output_bytes(o))),
            table_bytes(t.outputs_data.map_values(|d: Seq<u8>| bytes_field(d))),
        ],
    )
}

/// The hash that names the transaction `t` on the ledger.
pub open spec fn tx_hash_of(t: TransactionModel) -> Seq<u8> {
    ckb_blake2b_256(raw_tx_bytes(t))
}

/// The ledger can hold the transaction: its serialization fits a 32-bit size.
pub open spec fn tx_fits(t: TransactionModel) -> bool {
    raw_tx_bytes(t).len() <= u32::MAX
}

pub open spec fn byte_views(v: Seq<Vec<u8>>) -> Seq<Seq<u8>> {
    v.map_values(|x: Vec<u8>| x@)
}

proof fn lemma_concat_prefix(s: Seq<Seq<u8>>, i: int)
    requires
        0 <= i < s.len(),
    ensures
        concat_all(s.subrange(0, i + 1)) == concat_all(s.subrange(0, i)) + s[i],
{
    assert(s.subrange(0, i + 1).drop_last() == s.subrange(0, i));
}

proof fn lemma_concat_len(s: Seq<Seq<u8>>, i: int)
    requires
        0 <= i < s.len(),
    ensures
        concat_all(s.subrange(0, i)).len() + s[i].len() <= concat_all(s).len(),
    decreases s.len() - i,
{
    if i + 1 < s.len() {
        lemma_concat_len(s, i + 1);
        lemma_concat_prefix(s, i);
        assert(concat_all(s.subrange(0, i + 1)).len() <= concat_all(s.subrange(0, i + 1)).len() + s[i + 1].len());
    } else {
        lemma_concat_prefix(s, i);
        assert(s.subrange(0, i + 1) == s);
    }
}

pub proof fn lemma_le_len(n: nat, k: nat)
    ensures
        le_bytes(n, k).len() == k,
    decreases k,
{
    if k > 0 {
        lemma_le_len(n / 256, (k - 1) as nat);
    }
}

proof fn lemma_offsets_len(s: Seq<Seq<u8>>, h: nat)
    ensures
        table_offsets(s, h).len() == 4 * s.len(),
    decreases s.len(),
{
    if s.len() > 0 {
        lemma_offsets_len(s.drop_last(), h);
        lemma_le_len(h + concat_all(s.drop_last()).len(), 4);
    }
}

/// The size of a table: its header and its fields.
pub proof fn lemma_table_len(s: Seq<Seq<u8>>)
    ensures
        table_bytes(s).len() == 4 + 4 * s.len() + concat_all(s).len(),
{
    lemma_offsets_len(s, 4 + 4 * s.len());
    lemma_le_len(4 + 4 * s.len() + concat_all(s).len(), 4);
}

/// A field of a table is no longer than the table.
pub proof fn lemma_field_within(s: Seq<Seq<u8>>, i: int)
    requires
        0 <= i < s.len(),
    ensures
        s[i].len() <= table_bytes(s).len(),
{
    lemma_concat_len(s, i);
    lemma_table_len(s);
}

/// Appends the bytes of `v` to `out`.
pub fn push_bytes(out: &mut Vec<u8>, v: &Vec<u8>)
    ensures
        final(out)@ == old(out)@ + v@,
{
    let mut i: usize = 0;
    while i < v.len()
        invariant
            i <= v@.len(),
            out@ == old(out)@ + v@.subrange(0, i as int),
        decreases v@.len() - i,
    {
        out.push(v[i]);
        assert(v@.subrange(0, i as int + 1) == v@.subrange(0, i as int).push(v@[i as int]));
        i = i + 1;
    }
    assert(v@.subrange(0, v@.len() as int) == v@);
}

/// The table of the fields `fields`, where its size fits 32 bits.
pub fn encode_table(fields: &Vec<Vec<u8>>) -> (r: Option<Vec<u8>>)
    ensures
        r is Some <==> table_bytes(byte_views(fields@)).len() <= u32::MAX,
        r is Some ==> r->0@ == table_bytes(byte_views(fields@)),
{
    let ghost s = byte_views(fields@);
    proof {
        lemma_table_len(s);
    }
    let mut sum: u64 = 0;
    let mut i: usize = 0;
    while i < fields.len()
        invariant
            i <= fields@.len(),
            s == byte_views(fields@),
            sum == concat_all(s.subrange(0, i as int)).len(),
            sum <= u32::MAX,
            table_bytes(s).len() == 4 + 4 * s.len() + concat_all(s).len(),
        decreases fields@.len() - i,
    {
        proof {
            lemma_concat_prefix(s, i as int);
            lemma_concat_len(s, i as int);
        }
        assert(s[i as int] == fields@[i as int]@);
        if fields[i].len() as u64 > u32::MAX as u64 - sum {
            return None;
        }
        sum = sum + fields[i].len() as u64;
        i = i + 1;
    }
    assert(s.subrange(0, fields@.len() as int) == s);
    let k = fields.len() as u64;
    if sum > u32::MAX as u64 - 4 || k > (u32::MAX as u64 - 4 - sum) / 4 {
        return None;
    }
    let header: u64 = 4 + 4 * k;
    let total: u64 = header + sum;
    let mut out: Vec<u8> = Vec::new();
    push_le(&mut out, total, 4);
    let ghost head = out@;
    let mut running: u64 = 0;
    let mut i: usize = 0;
    while i < fields.len()
        invariant
            i <= fields@.len(),
            s == byte_views(fields@),
            s.len() == k,
            header == 4 + 4 * k,
            running == concat_all(s.subrange(0, i as int)).len(),
            running <= sum,
            sum == concat_all(s).len(),
            header + sum <= u32::MAX,
            out@ == head + table_offsets(s.subrange(0, i as int), header as nat),
        decreases fields@.len() - i,
    {
        proof {
            lemma_concat_prefix(s, i as int);
            lemma_concat_len(s, i as int);
            let sub = s.subrange(0, i as int + 1);
            assert(sub.drop_last() == s.subrange(0, i as int));
        }
        assert(s[i as int] == fields@[i as int]@);
        push_le(&mut out, header + running, 4);
        running = running + fields[i].len() as u64;
        i = i + 1;
    }
    assert(s.subrange(0, fields@.len() as int) == s);
    let ghost mid = out@;
    let mut i: usize = 0;
    while i < fields.len()
        invariant
            i <= fields@.len(),
            s == byte_views(fields@),
            out@ == mid + concat_all(s.subrange(0, i as int)),
        decreases fields@.len() - i,
    {
        proof {
            lemma_concat_prefix(s, i as int);
        }
        assert(s[i as int] == fields@[i as int]@);
        push_bytes(&mut out, &fields[i]);
        i = i + 1;
    }
    assert(s.subrange(0, fields@.len() as int) == s);
    Some(out)
}

/// The byte vector holding `b`.
pub fn encode_bytes_field(b: &Vec<u8>) -> (r: Vec<u8>)
    ensures
        r@ == bytes_field(b@),
{
    let mut out: Vec<u8> = Vec::new();
    push_le(&mut out, b.len() as u64, 4);
    push_bytes(&mut out, b);
    out
}

/// The serialized script, where it fits.
pub fn encode_script(s: &Script) -> (r: Option<Vec<u8>>)
    ensures
        r is Some <==> script_bytes(s@).len() <= u32::MAX,
        r is Some ==> r->0@ == script_bytes(s@),
{
    let mut code: Vec<u8> = Vec::new();
    push_hash(&mut code, &s.code_hash);
    let mut ht: Vec<u8> = Vec::new();
    ht.push(s.hash_type);
    let mut fields: Vec<Vec<u8>> = Vec::new();
    fields.push(code);
    fields.push(ht);
    fields.push(encode_bytes_field(&s.args));
    assert(byte_views(fields@) =~= seq![s.code_hash@, seq![s.hash_type], bytes_field(s.args@)]);
    encode_table(&fields)
}

/// The serialized output, where it fits.
pub fn encode_output(o: &CellOutput) -> (r: Option<Vec<u8>>)
    ensures
        r is Some <==> output_bytes(o@).len() <= u32::MAX,
        r is Some ==> r->0@ == output_bytes(o@),
{
    let ghost fs = seq![le_bytes(o.capacity as nat, 8), script_bytes(o.lock@), opt_script_bytes(o@.type_)];
    let mut cap: Vec<u8> = Vec::new();
    push_le(&mut cap, o.capacity, 8);
    let lock = match encode_script(&o.lock) {
        Some(l) => l,
        None => {
            proof {
                lemma_field_within(fs, 1);
            }
            return None;
        },
    };
    let type_: Vec<u8> = match &o.type_ {
        Some(t) => match encode_script(t) {
            Some(b) => b,
            None => {
                proof {
                    lemma_field_within(fs, 2);
                }
                return None;
            },
        },
        None => Vec::new(),
    };
    let mut fields: Vec<Vec<u8>> = Vec::new();
    fields.push(cap);
    fields.push(lock);
    fields.push(type_);
    assert(byte_views(fields@) =~= fs);
    encode_table(&fields)
}

/// The serialized raw transaction, where it fits.
pub fn encode_raw_tx(tx: &Transaction) -> (r: Option<Vec<u8>>)
    ensures
        r is Some <==> tx_fits(tx@),
        r is Some ==> r->0@ == raw_tx_bytes(tx@),
{
    let ghost t = tx@;
    let ghost outs = t.outputs.map_values(|o: CellOutputModel| output_bytes(o));
    let ghost datas = t.outputs_data.map_values(|d: Seq<u8>| bytes_field(d));
    let ghost fs = seq![
        le_bytes(0, 4),
        le_bytes(t.cell_deps.len(), 4) + concat_all(t.cell_deps.map_values(|d: CellDep| cell_dep_bytes(d))),
        le_bytes(0, 4),
        le_bytes(t.inputs.len(), 4) + concat_all(t.inputs.map_values(|o: OutPoint| input_bytes(o))),
        table_bytes(outs),
        table_bytes(datas),
    ];
    // dependencies
    let mut deps: Vec<u8> = Vec::new();
    push_le(&mut deps, tx.cell_deps.len() as u64, 4);
    let ghost dh = deps@;
    let ghost dv = t.cell_deps.map_values(|d: CellDep| cell_dep_bytes(d));
    let mut i: usize = 0;
    while i < tx.cell_deps.len()
        invariant
            i <= tx.cell_deps@.len(),
            dv == tx@.cell_deps.map_values(|d: CellDep| cell_dep_bytes(d)),
            t == tx@,
            deps@ == dh + concat_all(dv.subrange(0, i as int)),
        decreases tx.cell_deps@.len() - i,
    {
        proof {
            lemma_concat_prefix(dv, i as int);
        }
        let d = tx.cell_deps[i];
        crate::codec::push_out_point(&mut deps, &d.out_point.tx_hash, d.out_point.index);
        deps.push(d.dep_type);
        assert(deps@ =~= dh + concat_all(dv.subrange(0, i as int)) + cell_dep_bytes(d));
        i = i + 1;
    }
    assert(dv.subrange(0, tx.cell_deps@.len() as int) == dv);
    // inputs
    let mut ins: Vec<u8> = Vec::new();
    push_le(&mut ins, tx.inputs.len() as u64, 4);
    let ghost ih = ins@;
    let ghost iv = t.inputs.map_values(|o: OutPoint| input_bytes(o));
    let mut i: usize = 0;
    while i < tx.inputs.len()
        invariant
            i <= tx.inputs@.len(),
            iv == tx@.inputs.map_values(|o: OutPoint| input_bytes(o)),
            t == tx@,
            ins@ == ih + concat_all(iv.subrange(0, i as int)),
        decreases tx.inputs@.len() - i,
    {
        proof {
            lemma_concat_prefix(iv, i as int);
        }
        let o = tx.inputs[i];
        let b = crate::codec::encode_cell_input(&o.tx_hash, o.index, 0);
        push_bytes(&mut ins, &b);
        i = i + 1;
    }
    assert(iv.subrange(0, tx.inputs@.len() as int) == iv);
    // outputs
    let mut out_fields: Vec<Vec<u8>> = Vec::new();
    let mut i: usize = 0;
    while i < tx.outputs.len()
        invariant
            i <= tx.outputs@.len(),
            t == tx@,
            outs == t.outputs.map_values(|o: CellOutputModel| output_bytes(o)),
            byte_views(out_fields@) == outs.subrange(0, i as int),
            fs.len() == 6,
            fs[4] == table_bytes(outs),
            outs.len() == tx.outputs@.len(),
        decreases tx.outputs@.len() - i,
    {
        assert(outs[i as int] == output_bytes(tx.outputs@[i as int]@));
        match encode_output(&tx.outputs[i]) {
            Some(b) => {
                let ghost before = out_fields@;
                out_fields.push(b);
                assert(byte_views(out_fields@) == byte_views(before).push(b@));
                assert(byte_views(out_fields@) =~= outs.subrange(0, i as int + 1));
            },
            None => {
                proof {
                    lemma_field_within(outs, i as int);
                    lemma_field_within(fs, 4);
                }
                return None;
            },
        }
        i = i + 1;
    }
    assert(outs.subrange(0, tx.outputs@.len() as int) == outs);
    assert(fs.len() == 6 && fs[4] == table_bytes(outs) && fs[5] == table_bytes(datas));
    let outputs = match encode_table(&out_fields) {
        Some(b) => b,
        None => {
            proof {
                lemma_field_within(fs, 4);
            }
            return None;
        },
    };
    // data
    let mut data_fields: Vec<Vec<u8>> = Vec::new();
    let mut i: usize = 0;
    while i < tx.outputs_data.len()
        invariant
            i <= tx.outputs_data@.len(),
            t == tx@,
            datas == t.outputs_data.map_values(|d: Seq<u8>| bytes_field(d)),
            byte_views(data_fields@) == datas.subrange(0, i as int),
            fs.len() == 6,
            fs[4] == table_bytes(outs),
            fs[5] == table_bytes(datas),
        decreases tx.outputs_data@.len() - i,
    {
        assert(datas[i as int] == bytes_field(tx.outputs_data@[i as int]@));
        let ghost before = data_fields@;
        let b = encode_bytes_field(&tx.outputs_data[i]);
        data_fields.push(b);
        assert(byte_views(data_fields@) == byte_views(before).push(b@));
        assert(byte_views(data_fields@) =~= datas.subrange(0, i as int + 1));
        i = i + 1;
    }
    assert(datas.subrange(0, tx.outputs_data@.len() as int) == datas);
    let data = match encode_table(&data_fields) {
        Some(b) => b,
        None => {
            proof {
                lemma_field_within(fs, 5);
            }
            return None;
        },
    };
    let mut version: Vec<u8> = Vec::new();
    push_le(&mut version, 0, 4);
    let mut headers: Vec<u8> = Vec::new();
    push_le(&mut headers, 0, 4);
    let mut fields: Vec<Vec<u8>> = Vec::new();
    fields.push(version);
    fields.push(deps);
    fields.push(headers);
    fields.push(ins);
    fields.push(outputs);
    fields.push(data);
    assert(byte_views(fields@) =~= fs);
    encode_table(&fields)
}

/// The hash that names `tx` on the ledger, where the ledger can hold it.
pub fn tx_hash(tx: &Transaction) -> (r: Option<[u8; 32]>)
    ensures
        r is Some <==> tx_fits(tx@),
        r is Some ==> r->0@ == tx_hash_of(tx@),
{
    match encode_raw_tx(tx) {
        Some(b) => Some(blake2b_256(b.as_slice())),
        None => None,
    }
}

} // verus!
