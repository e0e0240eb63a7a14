use vstd::prelude::*;

use super::format::{spec_header, spec_records, TensorRecord, HEADER_LEN};
use super::load::spec_validate;
use super::roundtrip::checkpoint_roundtrip;
use super::load::{spec_find, spec_load, spec_read_records, spec_take, spec_take_all};
use super::model::{
    block_records, blocks_records, model_records, next_latent_records, pair_records, tensor_record,
    HostBlock, HostModel, HostNvfp4, HostPair,
};
use super::schema::{dotted, schema_names, spec_tensor_count};
use crate::text::spec_decimal;

verus! {

/// Whether the first record named `name` in `ts` holds tensor `t` under
/// that name.
pub open spec fn stored(ts: Seq<TensorRecord>, name: Seq<char>, t: HostNvfp4) -> bool {
    spec_find(ts, name) == Some(tensor_record(name, t))
}

/// Whether the weight and bias of `p` are stored as `{prefix}.weight` and
/// `{prefix}.bias`.
pub open spec fn pair_stored(ts: Seq<TensorRecord>, prefix: Seq<char>, p: HostPair) -> bool {
    stored(ts, dotted(prefix, "weight"@), p.weight) && stored(ts, dotted(prefix, "bias"@), p.bias)
}

/// `blocks.{i}.{part}`.
pub open spec fn block_field(i: nat, part: Seq<char>) -> Seq<char> {
    dotted(dotted("blocks"@, spec_decimal(i)), part)
}

/// Whether every field of block `b` at index `i` is stored under its own
/// name.
pub open spec fn block_stored(ts: Seq<TensorRecord>, i: nat, b: HostBlock) -> bool {
    &&& pair_stored(ts, block_field(i, "ln_1"@), b.ln_1)
    &&& pair_stored(ts, block_field(i, "attn_qkv"@), b.attn_qkv)
    &&& pair_stored(ts, block_field(i, "attn_c_proj"@), b.attn_c_proj)
    &&& pair_stored(ts, block_field(i, "ln_2"@), b.ln_2)
    &&& pair_stored(ts, block_field(i, "mlp_up"@), b.mlp_up)
    &&& pair_stored(ts, block_field(i, "mlp_down"@), b.mlp_down)
}

/// Whether every tensor of `m` is stored in `ts` under its own name.
pub open spec fn model_stored(ts: Seq<TensorRecord>, m: HostModel) -> bool {
    &&& stored(ts, "token_embedding"@, m.token_embedding)
    &&& forall|i: int| 0 <= i < m.blocks.len() ==> block_stored(ts, i as nat, #[trigger] m.blocks@[i])
    &&& pair_stored(ts, "ln_f"@, m.ln_f)
    &&& pair_stored(ts, dotted("next_latent"@, "norm"@), m.next_latent.norm)
    &&& pair_stored(ts, dotted("next_latent"@, "input_projection"@), m.next_latent.input_projection)
    &&& pair_stored(ts, dotted("next_latent"@, "transition"@), m.next_latent.transition)
    &&& pair_stored(ts, dotted("next_latent"@, "output_projection"@), m.next_latent.output_projection)
}

/// Whether every element of `a` occurs in `s`.
pub open spec fn within(a: Seq<TensorRecord>, s: Seq<TensorRecord>) -> bool {
    forall|k: int| 0 <= k < a.len() ==> s.contains(#[trigger] a[k])
}

proof fn within_concat(a: Seq<TensorRecord>, b: Seq<TensorRecord>)
    ensures
        within(a, a + b),
        within(b, a + b),
{
    assert forall|k: int| 0 <= k < a.len() implies (a + b).contains(#[trigger] a[k]) by {
        assert((a + b)[k] == a[k]);
    }
    assert forall|k: int| 0 <= k < b.len() implies (a + b).contains(#[trigger] b[k]) by {
        assert((a + b)[a.len() + k] == b[k]);
    }
}

proof fn within_trans(a: Seq<TensorRecord>, b: Seq<TensorRecord>, c: Seq<TensorRecord>)
    requires
        within(a, b),
        within(b, c),
    ensures
        within(a, c),
{
    assert forall|k: int| 0 <= k < a.len() implies c.contains(#[trigger] a[k]) by {
        assert(b.contains(a[k]));
        let j = choose|j: int| 0 <= j < b.len() && b[j] == a[k];
        assert(c.contains(b[j]));
    }
}

proof fn block_within_blocks(bs: Seq<HostBlock>, i: int)
    requires
        0 <= i < bs.len(),
    ensures
        within(block_records(i as nat, bs[i]), blocks_records(bs)),
    decreases bs.len(),
{
    let init = bs.drop_last();
    within_concat(blocks_records(init), block_records((bs.len() - 1) as nat, bs.last()));
    if i < bs.len() - 1 {
        block_within_blocks(init, i);
        assert(init[i] == bs[i]);
        within_trans(block_records(i as nat, bs[i]), blocks_records(init), blocks_records(bs));
    }
}

proof fn pair_within_block(i: nat, b: HostBlock)
    ensures
        within(pair_records(block_field(i, "ln_1"@), b.ln_1), block_records(i, b)),
        within(pair_records(block_field(i, "attn_qkv"@), b.attn_qkv), block_records(i, b)),
        within(pair_records(block_field(i, "attn_c_proj"@), b.attn_c_proj), block_records(i, b)),
        within(pair_records(block_field(i, "ln_2"@), b.ln_2), block_records(i, b)),
        within(pair_records(block_field(i, "mlp_up"@), b.mlp_up), block_records(i, b)),
        within(pair_records(block_field(i, "mlp_down"@), b.mlp_down), block_records(i, b)),
{
    let p0 = pair_records(block_field(i, "ln_1"@), b.ln_1);
    let p1 = pair_records(block_field(i, "attn_qkv"@), b.attn_qkv);
    let p2 = pair_records(block_field(i, "attn_c_proj"@), b.attn_c_proj);
    let p3 = pair_records(block_field(i, "ln_2"@), b.ln_2);
    let p4 = pair_records(block_field(i, "mlp_up"@), b.mlp_up);
    let p5 = pair_records(block_field(i, "mlp_down"@), b.mlp_down);
    assert(block_records(i, b) == p0 + p1 + p2 + p3 + p4 + p5);
    within_concat(p0, p1);
    within_concat(p0 + p1, p2);
    within_concat(p0 + p1 + p2, p3);
    within_concat(p0 + p1 + p2 + p3, p4);
    within_concat(p0 + p1 + p2 + p3 + p4, p5);
    let whole = p0 + p1 + p2 + p3 + p4 + p5;
    within_trans(p0 + p1 + p2 + p3 + p4, p0 + p1 + p2 + p3 + p4 + p5, whole);
    within_trans(p0 + p1 + p2 + p3, p0 + p1 + p2 + p3 + p4, whole);
    within_trans(p0 + p1 + p2, p0 + p1 + p2 + p3, whole);
    within_trans(p0 + p1, p0 + p1 + p2, whole);
    within_trans(p0, p0 + p1, whole);
    within_trans(p1, p0 + p1, whole);
    within_trans(p2, p0 + p1 + p2, whole);
    within_trans(p3, p0 + p1 + p2 + p3, whole);
    within_trans(p4, p0 + p1 + p2 + p3 + p4, whole);
}

proof fn parts_within_model(m: HostModel)
    ensures
        within(seq![tensor_record("token_embedding"@, m.token_embedding)], model_records(m)),
        within(blocks_records(m.blocks@), model_records(m)),
        within(pair_records("ln_f"@, m.ln_f), model_records(m)),
        within(pair_records(dotted("next_latent"@, "norm"@), m.next_latent.norm), model_records(m)),
        within(
            pair_records(dotted("next_latent"@, "input_projection"@), m.next_latent.input_projection),
            model_records(m),
        ),
        within(pair_records(dotted("next_latent"@, "transition"@), m.next_latent.transition), model_records(m)),
        within(
            pair_records(dotted("next_latent"@, "output_projection"@), m.next_latent.output_projection),
            model_records(m),
        ),
{
    let t = seq![tensor_record("token_embedding"@, m.token_embedding)];
    let b = blocks_records(m.blocks@);
    let l = pair_records("ln_f"@, m.ln_f);
    let n0 = pair_records(dotted("next_latent"@, "norm"@), m.next_latent.norm);
    let n1 = pair_records(dotted("next_latent"@, "input_projection"@), m.next_latent.input_projection);
    let n2 = pair_records(dotted("next_latent"@, "transition"@), m.next_latent.transition);
    let n3 = pair_records(dotted("next_latent"@, "output_projection"@), m.next_latent.output_projection);
    let nl = next_latent_records(m.next_latent);
    let whole = model_records(m);
    assert(nl == n0 + n1 + n2 + n3);
    assert(whole == t + b + l + nl);
    within_concat(t, b);
    within_concat(t + b, l);
    within_concat(t + b + l, nl);
    within_trans(t + b, t + b + l, whole);
    within_trans(t, t + b, whole);
    within_trans(b, t + b, whole);
    within_concat(n0, n1);
    within_concat(n0 + n1, n2);
    within_concat(n0 + n1 + n2, n3);
    within_trans(n0 + n1 + n2, nl, whole);
    within_trans(n0 + n1, n0 + n1 + n2, whole);
    within_trans(n0, n0 + n1, whole);
    within_trans(n1, n0 + n1, whole);
    within_trans(n2, n0 + n1 + n2, whole);
    within_trans(n3, nl, whole);
}

proof fn find_named(ts: Seq<TensorRecord>, name: Seq<char>)
    ensures
        spec_find(ts, name) matches Some(t) ==> t.name == name,
    decreases ts.len(),
{
    if ts.len() > 0 && ts[0].name != name {
        find_named(ts.drop_first(), name);
    }
}

/// Taking named records gives, for each record taken, the first record of
/// that name.
proof fn taken_are_found(ts: Seq<TensorRecord>, names: Seq<Seq<char>>)
    ensures
        spec_take_all(ts, names) matches Ok(rs) ==> forall|k: int|
            0 <= k < rs.len() ==> spec_find(ts, (#[trigger] rs[k]).name) == Some(rs[k]),
    decreases names.len(),
{
    if names.len() > 0 {
        taken_are_found(ts, names.drop_last());
        find_named(ts, names.last());
        if let Ok(rs) = spec_take_all(ts, names) {
            let prev = spec_take_all(ts, names.drop_last())->Ok_0;
            let t = spec_take(ts, names.last())->Ok_0;
            assert(rs == prev.push(t));
            assert forall|k: int| 0 <= k < rs.len() implies spec_find(ts, (#[trigger] rs[k]).name)
                == Some(rs[k]) by {
                if k < prev.len() {
                    assert(rs[k] == prev[k]);
                }
            }
        }
    }
}

proof fn pair_from_within(ts: Seq<TensorRecord>, rs: Seq<TensorRecord>, prefix: Seq<char>, p: HostPair)
    requires
        within(pair_records(prefix, p), rs),
        forall|k: int| 0 <= k < rs.len() ==> spec_find(ts, (#[trigger] rs[k]).name) == Some(rs[k]),
    ensures
        pair_stored(ts, prefix, p),
{
    let pr = pair_records(prefix, p);
    assert(rs.contains(pr[0]));
    assert(rs.contains(pr[1]));
    let j0 = choose|j: int| 0 <= j < rs.len() && rs[j] == pr[0];
    let j1 = choose|j: int| 0 <= j < rs.len() && rs[j] == pr[1];
    assert(spec_find(ts, rs[j0].name) == Some(rs[j0]));
    assert(spec_find(ts, rs[j1].name) == Some(rs[j1]));
}

/// Taking the schema's names from `ts` and getting back exactly the records
/// of `m` means that every tensor of `m` is the first record in `ts` under
/// its own name.
pub proof fn taken_fields_come_from_their_names(ts: Seq<TensorRecord>, n: nat, m: HostModel)
    requires
        spec_take_all(ts, schema_names(n)) == Ok::<Seq<TensorRecord>, super::load::LoadError>(
            model_records(m),
        ),
    ensures
        model_stored(ts, m),
{
    let rs = model_records(m);
    taken_are_found(ts, schema_names(n));
    parts_within_model(m);
    let t0 = tensor_record("token_embedding"@, m.token_embedding);
    assert(seq![t0][0] == t0);
    assert(rs.contains(t0));
    let j = choose|j: int| 0 <= j < rs.len() && rs[j] == t0;
    assert(spec_find(ts, rs[j].name) == Some(rs[j]));
    pair_from_within(ts, rs, "ln_f"@, m.ln_f);
    pair_from_within(ts, rs, dotted("next_latent"@, "norm"@), m.next_latent.norm);
    pair_from_within(ts, rs, dotted("next_latent"@, "input_projection"@), m.next_latent.input_projection);
    pair_from_within(ts, rs, dotted("next_latent"@, "transition"@), m.next_latent.transition);
    pair_from_within(ts, rs, dotted("next_latent"@, "output_projection"@), m.next_latent.output_projection);
    assert forall|i: int| 0 <= i < m.blocks.len() implies block_stored(ts, i as nat, #[trigger] m.blocks@[i]) by {
        let b = m.blocks@[i];
        block_within_blocks(m.blocks@, i);
        pair_within_block(i as nat, b);
        let br = block_records(i as nat, b);
        within_trans(br, blocks_records(m.blocks@), rs);
        within_trans(pair_records(block_field(i as nat, "ln_1"@), b.ln_1), br, rs);
        within_trans(pair_records(block_field(i as nat, "attn_qkv"@), b.attn_qkv), br, rs);
        within_trans(pair_records(block_field(i as nat, "attn_c_proj"@), b.attn_c_proj), br, rs);
        within_trans(pair_records(block_field(i as nat, "ln_2"@), b.ln_2), br, rs);
        within_trans(pair_records(block_field(i as nat, "mlp_up"@), b.mlp_up), br, rs);
        within_trans(pair_records(block_field(i as nat, "mlp_down"@), b.mlp_down), br, rs);
        pair_from_within(ts, rs, block_field(i as nat, "ln_1"@), b.ln_1);
        pair_from_within(ts, rs, block_field(i as nat, "attn_qkv"@), b.attn_qkv);
        pair_from_within(ts, rs, block_field(i as nat, "attn_c_proj"@), b.attn_c_proj);
        pair_from_within(ts, rs, block_field(i as nat, "ln_2"@), b.ln_2);
        pair_from_within(ts, rs, block_field(i as nat, "mlp_up"@), b.mlp_up);
        pair_from_within(ts, rs, block_field(i as nat, "mlp_down"@), b.mlp_down);
    }
}

/// A loaded model holds, in each of its fields, the tensor that the
/// checkpoint stores under that field's name: the token embedding under
/// `token_embedding`, block `i`'s layers under `blocks.{i}.ln_1`, `.attn_qkv`,
/// `.attn_c_proj`, `.ln_2`, `.mlp_up` and `.mlp_down` (each `.weight` and
/// `.bias`), the final norm under `ln_f`, and the next-latent head under
/// `next_latent.norm`, `.input_projection`, `.transition` and
/// `.output_projection`. Here `ts` are the records read from the file and
/// `m` is the model [`load_checkpoint`](super::load::load_checkpoint) gives.
pub proof fn loaded_fields_come_from_their_names(s: Seq<u8>, n: nat, m: HostModel)
    requires
        spec_load(s, n) matches Ok(rs) && model_records(m) == rs,
        m.blocks.len() == n,
    ensures
        spec_read_records(s.skip(HEADER_LEN as int), spec_tensor_count(n) as nat, seq![]) matches Ok(
            ts,
        ) && model_stored(ts, m),
{
    let ts = spec_read_records(s.skip(HEADER_LEN as int), spec_tensor_count(n) as nat, seq![])->Ok_0;
    assert(spec_take_all(ts, schema_names(n)) == Ok::<Seq<TensorRecord>, super::load::LoadError>(
        model_records(m),
    ));
    taken_fields_come_from_their_names(ts, n, m);
}

/// A saved model is stored field by field under the fields' own names: the
/// records read back from the bytes
/// [`encode_checkpoint`](super::save::encode_checkpoint) gives for `m` hold
/// each tensor of `m` under its name (for a model whose tensors pass the
/// length checks).
pub proof fn saved_fields_stored_under_their_names(m: HostModel)
    requires
        spec_tensor_count(m.blocks.len() as nat) <= u32::MAX,
        forall|k: int|
            0 <= k < model_records(m).len() ==> spec_validate(#[trigger] model_records(m)[k]) is Ok,
    ensures
        ({
            let bytes = spec_header(spec_tensor_count(m.blocks.len() as nat) as u32) + spec_records(
                model_records(m),
            );
            spec_read_records(
                bytes.skip(HEADER_LEN as int),
                spec_tensor_count(m.blocks.len() as nat) as nat,
                seq![],
            ) matches Ok(ts) && model_stored(ts, m)
        }),
{
    checkpoint_roundtrip(m);
    let bytes = spec_header(spec_tensor_count(m.blocks.len() as nat) as u32) + spec_records(
        model_records(m),
    );
    loaded_fields_come_from_their_names(bytes, m.blocks.len() as nat, m);
}

} // verus!
