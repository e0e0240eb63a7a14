use vstd::prelude::*;
use vstd::utf8::{encode_scalar, encode_utf8};

use super::format::{
    header_roundtrip, record_fits, record_roundtrip, records_concat, spec_header, spec_record,
    spec_records, TensorRecord,
};
use super::load::{
    has_name, spec_find, spec_load, spec_read_records, spec_take_all, spec_validate,
    LoadError,
};
use super::model::{
    block_records, blocks_records, model_records, next_latent_records, pair_records, HostModel,
};
use super::schema::{block_names, block_part, block_prefix, block_suffix, blocks_names, dotted, next_latent_names, next_latent_part, next_latent_suffix, no_dup, pair_names, schema_names, schema_names_distinct, spec_tensor_count};
use crate::text::{decimal_len_bound, pow10};

verus! {

/// The names of a run of records.
pub open spec fn record_names(ts: Seq<TensorRecord>) -> Seq<Seq<char>> {
    ts.map_values(|t: TensorRecord| t.name)
}

proof fn record_names_concat(a: Seq<TensorRecord>, b: Seq<TensorRecord>)
    ensures
        record_names(a + b) == record_names(a) + record_names(b),
{
    assert(record_names(a + b) =~= record_names(a) + record_names(b));
}

proof fn blocks_record_names(m: HostModel, k: nat)
    requires
        k <= m.blocks.len(),
    ensures
        record_names(blocks_records(m.blocks@.take(k as int))) == blocks_names(k),
    decreases k,
{
    if k > 0 {
        let bs = m.blocks@.take(k as int);
        assert(bs.drop_last() =~= m.blocks@.take(k - 1));
        blocks_record_names(m, (k - 1) as nat);
        let blk = block_records((k - 1) as nat, bs.last());
        record_names_concat(blocks_records(bs.drop_last()), blk);
        assert(record_names(blk) =~= block_names((k - 1) as nat));
    } else {
        assert(record_names(blocks_records(m.blocks@.take(0))) =~= Seq::<Seq<char>>::empty());
    }
}

/// The records of a model carry exactly the schema's names, in order.
pub proof fn model_record_names(m: HostModel)
    ensures
        record_names(model_records(m)) == schema_names(m.blocks.len() as nat),
{
    let t = seq![super::model::tensor_record("token_embedding"@, m.token_embedding)];
    let b = blocks_records(m.blocks@);
    let l = pair_records("ln_f"@, m.ln_f);
    let nl = next_latent_records(m.next_latent);
    blocks_record_names(m, m.blocks.len() as nat);
    assert(m.blocks@.take(m.blocks.len() as int) =~= m.blocks@);
    record_names_concat(t, b);
    record_names_concat(t + b, l);
    record_names_concat(t + b + l, nl);
    assert(record_names(t) =~= seq!["token_embedding"@]);
    assert(record_names(l) =~= pair_names("ln_f"@));
    assert(record_names(nl) =~= next_latent_names());
}

/// UTF-8 takes at most four bytes per character.
proof fn encode_utf8_len(chars: Seq<char>)
    ensures
        encode_utf8(chars).len() <= 4 * chars.len(),
    decreases chars.len(),
{
    if chars.len() > 0 {
        encode_utf8_len(chars.drop_first());
        assert(encode_scalar(chars[0] as u32).len() <= 4);
    }
}

/// Every schema name of a model with at most `usize::MAX` blocks is short.
proof fn schema_names_short(n: nat)
    requires
        n <= usize::MAX,
    ensures
        forall|k: int| 0 <= k < schema_names(n).len() ==> #[trigger] schema_names(n)[k].len() <= 64,
{
    reveal_strlit("token_embedding");
    reveal_strlit("blocks");
    reveal_strlit("ln_f");
    reveal_strlit("next_latent");
    reveal_strlit("weight");
    reveal_strlit("bias");
    reveal_strlit("ln_1");
    reveal_strlit("attn_qkv");
    reveal_strlit("attn_c_proj");
    reveal_strlit("ln_2");
    reveal_strlit("mlp_up");
    reveal_strlit("mlp_down");
    reveal_strlit("norm");
    reveal_strlit("input_projection");
    reveal_strlit("transition");
    reveal_strlit("output_projection");
    reveal_with_fuel(pow10, 21);
    assert(usize::MAX < pow10(20));
    schema_names_distinct(n);
    let s = schema_names(n);
    let b = blocks_names(n);
    super::schema::blocks_names_shape(n);
    super::schema::next_latent_names_shape();
    assert forall|k: int| 0 <= k < s.len() implies #[trigger] s[k].len() <= 64 by {
        if 1 <= k < 1 + 12 * n {
            let i = ((k - 1) / 12) as nat;
            assert(s[k] == b[k - 1]);
            decimal_len_bound(i, 20);
            assert(block_suffix((k - 1) % 12).len() <= 18);
        } else if k >= 1 + 12 * n + 2 {
            let j = k - (1 + 12 * n + 2);
            assert(next_latent_suffix(j).len() <= 24);
        }
    }
}

} // verus!

verus! {

/// Every byte and scale run of `rs` is no longer than a `usize` can count.
pub open spec fn lengths_fit(rs: Seq<TensorRecord>) -> bool {
    forall|k: int|
        0 <= k < rs.len() ==> #[trigger] rs[k].bytes.len() <= usize::MAX && rs[k].scales.len()
            <= usize::MAX
}

proof fn lengths_fit_concat(a: Seq<TensorRecord>, b: Seq<TensorRecord>)
    requires
        lengths_fit(a),
        lengths_fit(b),
    ensures
        lengths_fit(a + b),
{
    assert forall|k: int| 0 <= k < (a + b).len() implies #[trigger] (a + b)[k].bytes.len()
        <= usize::MAX && (a + b)[k].scales.len() <= usize::MAX by {
        if k < a.len() {
            assert((a + b)[k] == a[k]);
        } else {
            assert((a + b)[k] == b[k - a.len()]);
        }
    }
}

proof fn pair_lengths_fit(prefix: Seq<char>, p: super::model::HostPair)
    ensures
        lengths_fit(pair_records(prefix, p)),
{
    assert(p.weight.bytes@.len() == p.weight.bytes.len());
    assert(p.weight.scales@.len() == p.weight.scales.len());
    assert(p.bias.bytes@.len() == p.bias.bytes.len());
    assert(p.bias.scales@.len() == p.bias.scales.len());
}

proof fn block_lengths_fit(i: nat, b: super::model::HostBlock)
    ensures
        lengths_fit(block_records(i, b)),
{
    let bp = block_prefix(i);
    let r0 = pair_records(dotted(bp, block_part(0)), b.ln_1);
    let r1 = pair_records(dotted(bp, block_part(1)), b.attn_qkv);
    let r2 = pair_records(dotted(bp, block_part(2)), b.attn_c_proj);
    let r3 = pair_records(dotted(bp, block_part(3)), b.ln_2);
    let r4 = pair_records(dotted(bp, block_part(4)), b.mlp_up);
    let r5 = pair_records(dotted(bp, block_part(5)), b.mlp_down);
    pair_lengths_fit(dotted(bp, block_part(0)), b.ln_1);
    pair_lengths_fit(dotted(bp, block_part(1)), b.attn_qkv);
    pair_lengths_fit(dotted(bp, block_part(2)), b.attn_c_proj);
    pair_lengths_fit(dotted(bp, block_part(3)), b.ln_2);
    pair_lengths_fit(dotted(bp, block_part(4)), b.mlp_up);
    pair_lengths_fit(dotted(bp, block_part(5)), b.mlp_down);
    lengths_fit_concat(r0, r1);
    lengths_fit_concat(r0 + r1, r2);
    lengths_fit_concat(r0 + r1 + r2, r3);
    lengths_fit_concat(r0 + r1 + r2 + r3, r4);
    lengths_fit_concat(r0 + r1 + r2 + r3 + r4, r5);
}

proof fn blocks_lengths_fit(bs: Seq<super::model::HostBlock>)
    ensures
        lengths_fit(blocks_records(bs)),
    decreases bs.len(),
{
    if bs.len() > 0 {
        blocks_lengths_fit(bs.drop_last());
        block_lengths_fit((bs.len() - 1) as nat, bs.last());
        lengths_fit_concat(
            blocks_records(bs.drop_last()),
            block_records((bs.len() - 1) as nat, bs.last()),
        );
    }
}

proof fn model_lengths_fit(m: HostModel)
    ensures
        lengths_fit(model_records(m)),
{
    let t = seq![super::model::tensor_record("token_embedding"@, m.token_embedding)];
    assert(m.token_embedding.bytes@.len() == m.token_embedding.bytes.len());
    assert(m.token_embedding.scales@.len() == m.token_embedding.scales.len());
    let b = blocks_records(m.blocks@);
    let l = pair_records("ln_f"@, m.ln_f);
    let n = m.next_latent;
    let nl = next_latent_records(n);
    blocks_lengths_fit(m.blocks@);
    pair_lengths_fit("ln_f"@, m.ln_f);
    let q0 = pair_records(dotted("next_latent"@, next_latent_part(0)), n.norm);
    let q1 = pair_records(dotted("next_latent"@, next_latent_part(1)), n.input_projection);
    let q2 = pair_records(dotted("next_latent"@, next_latent_part(2)), n.transition);
    let q3 = pair_records(dotted("next_latent"@, next_latent_part(3)), n.output_projection);
    pair_lengths_fit(dotted("next_latent"@, next_latent_part(0)), n.norm);
    pair_lengths_fit(dotted("next_latent"@, next_latent_part(1)), n.input_projection);
    pair_lengths_fit(dotted("next_latent"@, next_latent_part(2)), n.transition);
    pair_lengths_fit(dotted("next_latent"@, next_latent_part(3)), n.output_projection);
    lengths_fit_concat(q0, q1);
    lengths_fit_concat(q0 + q1, q2);
    lengths_fit_concat(q0 + q1 + q2, q3);
    lengths_fit_concat(t, b);
    lengths_fit_concat(t + b, l);
    lengths_fit_concat(t + b + l, nl);
}

proof fn records_of_one(a: TensorRecord)
    ensures
        spec_records(seq![a]) == spec_record(a),
{
    assert(seq![a].drop_last() =~= Seq::<TensorRecord>::empty());
    assert(spec_records(Seq::<TensorRecord>::empty()) =~= Seq::<u8>::empty());
    assert(seq![a].last() == a);
    assert(spec_records(seq![a]) =~= spec_record(a));
}

/// Reading back the records `ts` after `seen` gives `seen` followed by `ts`,
/// when every record fits its fields and no name repeats.
proof fn read_roundtrip(ts: Seq<TensorRecord>, seen: Seq<TensorRecord>, rest: Seq<u8>)
    requires
        forall|k: int| 0 <= k < ts.len() ==> record_fits(#[trigger] ts[k]),
        no_dup(record_names(seen + ts)),
    ensures
        spec_read_records(spec_records(ts) + rest, ts.len(), seen) == Ok::<
            Seq<TensorRecord>,
            LoadError,
        >(seen + ts),
    decreases ts.len(),
{
    if ts.len() == 0 {
        assert(seen + ts =~= seen);
    } else {
        let t0 = ts[0];
        let tail = ts.drop_first();
        assert(seq![t0] + tail =~= ts);
        records_concat(seq![t0], tail);
        records_of_one(t0);
        let s = spec_records(ts) + rest;
        assert(s =~= spec_record(t0) + (spec_records(tail) + rest));
        assert(record_fits(ts[0]));
        record_roundtrip(t0, spec_records(tail) + rest);
        let names = record_names(seen + ts);
        assert(names[seen.len() as int] == t0.name);
        if has_name(seen, t0.name) {
            let k = choose|k: int| 0 <= k < seen.len() && #[trigger] seen[k].name == t0.name;
            assert(names[k] == seen[k].name);
        }
        assert(seen.push(t0) + tail =~= seen + ts);
        assert forall|k: int| 0 <= k < tail.len() implies record_fits(#[trigger] tail[k]) by {
            assert(tail[k] == ts[k + 1]);
        }
        read_roundtrip(tail, seen.push(t0), rest);
    }
}

proof fn find_at(ts: Seq<TensorRecord>, k: int)
    requires
        0 <= k < ts.len(),
        forall|j: int| 0 <= j < k ==> #[trigger] ts[j].name != ts[k].name,
    ensures
        spec_find(ts, ts[k].name) == Some(ts[k]),
    decreases k,
{
    if k > 0 {
        let t = ts.drop_first();
        assert(t[k - 1] == ts[k]);
        assert forall|j: int| 0 <= j < k - 1 implies #[trigger] t[j].name != t[k - 1].name by {
            assert(t[j] == ts[j + 1]);
        }
        find_at(t, k - 1);
        assert(ts[0].name != ts[k].name);
    }
}

/// Taking the names of `ts` out of `ts`, in order, gives back `ts` when no
/// name repeats and every record passes the length checks.
proof fn take_all_roundtrip(ts: Seq<TensorRecord>, k: int)
    requires
        0 <= k <= ts.len(),
        no_dup(record_names(ts)),
        forall|j: int| 0 <= j < ts.len() ==> spec_validate(#[trigger] ts[j]) is Ok,
    ensures
        spec_take_all(ts, record_names(ts).take(k)) == Ok::<Seq<TensorRecord>, LoadError>(
            ts.take(k),
        ),
    decreases k,
{
    let names = record_names(ts);
    if k == 0 {
        assert(names.take(0) =~= Seq::<Seq<char>>::empty());
        assert(ts.take(0) =~= Seq::<TensorRecord>::empty());
    } else {
        take_all_roundtrip(ts, k - 1);
        assert(names.take(k).drop_last() =~= names.take(k - 1));
        assert(names.take(k).last() == ts[k - 1].name);
        assert forall|j: int| 0 <= j < k - 1 implies #[trigger] ts[j].name != ts[k - 1].name by {
            assert(names[j] == ts[j].name);
            assert(names[k - 1] == ts[k - 1].name);
        }
        find_at(ts, k - 1);
        assert(spec_validate(ts[k - 1]) is Ok);
        assert(ts.take(k - 1).push(ts[k - 1]) =~= ts.take(k));
    }
}

/// A checkpoint written for a model whose tensors pass the length checks
/// loads back as the same model: the bytes [`encode_checkpoint`] gives for
/// `m` are accepted by [`load_checkpoint`] for `m`'s block count, and the
/// loaded model holds exactly `m`'s records.
///
/// [`encode_checkpoint`]: super::save::encode_checkpoint
/// [`load_checkpoint`]: super::load::load_checkpoint
pub proof fn checkpoint_roundtrip(m: HostModel)
    requires
        spec_tensor_count(m.blocks.len() as nat) <= u32::MAX,
        forall|k: int|
            0 <= k < model_records(m).len() ==> spec_validate(#[trigger] model_records(m)[k]) is Ok,
    ensures
        spec_load(
            spec_header(spec_tensor_count(m.blocks.len() as nat) as u32) + spec_records(
                model_records(m),
            ),
            m.blocks.len() as nat,
        ) == Ok::<Seq<TensorRecord>, LoadError>(model_records(m)),
{
    let n = m.blocks.len() as nat;
    let rs = model_records(m);
    let count = spec_tensor_count(n) as u32;
    model_record_names(m);
    schema_names_distinct(n);
    schema_names_short(n);
    model_lengths_fit(m);
    assert(rs.len() == record_names(rs).len());
    assert forall|k: int| 0 <= k < rs.len() implies record_fits(#[trigger] rs[k]) by {
        assert(record_names(rs)[k] == rs[k].name);
        assert(schema_names(n)[k].len() <= 64);
        encode_utf8_len(rs[k].name);
    }
    header_roundtrip(count, spec_records(rs));
    let body = spec_records(rs) + Seq::<u8>::empty();
    assert(body =~= spec_records(rs));
    read_roundtrip(rs, Seq::<TensorRecord>::empty(), Seq::<u8>::empty());
    assert(Seq::<TensorRecord>::empty() + rs =~= rs);
    take_all_roundtrip(rs, rs.len() as int);
    assert(record_names(rs).take(rs.len() as int) =~= record_names(rs));
    assert(rs.take(rs.len() as int) =~= rs);
}

} // verus!
