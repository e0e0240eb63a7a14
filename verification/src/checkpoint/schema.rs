use vstd::prelude::*;
use vstd::string::StringExecFns;

use crate::text::{decimal_facts, decimal_injective, is_digit, spec_decimal};

verus! {

} // verus!

verus! {

/// `a.b`: two name parts joined by a dot.
pub open spec fn dotted(a: Seq<char>, b: Seq<char>) -> Seq<char> {
    a + seq!['.'] + b
}

/// `format!("{prefix}.{suffix}")`.
pub fn join_name(prefix: &str, suffix: &str) -> (r: String)
    ensures
        r@ == dotted(prefix@, suffix@),
{
    proof {
        reveal_strlit(".");
    }
    let mut r = String::from_str(prefix);
    r.append(".");
    r.append(suffix);
    assert(r@ =~= dotted(prefix@, suffix@));
    r
}

/// The weight and bias names under `prefix`, in the order they are stored.
pub open spec fn pair_names(prefix: Seq<char>) -> Seq<Seq<char>> {
    seq![dotted(prefix, "weight"@), dotted(prefix, "bias"@)]
}

/// `blocks.{i}`: the prefix of the tensors of block `i`.
pub open spec fn block_prefix(i: nat) -> Seq<char> {
    dotted("blocks"@, spec_decimal(i))
}

/// The names of the six weight/bias pairs of a block, in stored order.
pub open spec fn block_part(j: int) -> Seq<char> {
    if j == 0 {
        "ln_1"@
    } else if j == 1 {
        "attn_qkv"@
    } else if j == 2 {
        "attn_c_proj"@
    } else if j == 3 {
        "ln_2"@
    } else if j == 4 {
        "mlp_up"@
    } else {
        "mlp_down"@
    }
}

/// The names of the four weight/bias pairs of the next-latent head, in stored order.
pub open spec fn next_latent_part(j: int) -> Seq<char> {
    if j == 0 {
        "norm"@
    } else if j == 1 {
        "input_projection"@
    } else if j == 2 {
        "transition"@
    } else {
        "output_projection"@
    }
}

/// The twelve tensor names of block `i`, in stored order.
pub open spec fn block_names(i: nat) -> Seq<Seq<char>> {
    pair_names(dotted(block_prefix(i), block_part(0)))
        + pair_names(dotted(block_prefix(i), block_part(1)))
        + pair_names(dotted(block_prefix(i), block_part(2)))
        + pair_names(dotted(block_prefix(i), block_part(3)))
        + pair_names(dotted(block_prefix(i), block_part(4)))
        + pair_names(dotted(block_prefix(i), block_part(5)))
}

/// The tensor names of blocks `0..n`, in stored order.
pub open spec fn blocks_names(n: nat) -> Seq<Seq<char>>
    decreases n,
{
    if n == 0 {
        seq![]
    } else {
        blocks_names((n - 1) as nat) + block_names((n - 1) as nat)
    }
}

/// The eight tensor names of the next-latent head, in stored order.
pub open spec fn next_latent_names() -> Seq<Seq<char>> {
    pair_names(dotted("next_latent"@, next_latent_part(0)))
        + pair_names(dotted("next_latent"@, next_latent_part(1)))
        + pair_names(dotted("next_latent"@, next_latent_part(2)))
        + pair_names(dotted("next_latent"@, next_latent_part(3)))
}

/// Every tensor name of a model with `n` blocks, in the order a checkpoint
/// stores them: token embedding, blocks, final norm, next-latent head.
pub open spec fn schema_names(n: nat) -> Seq<Seq<char>> {
    seq!["token_embedding"@] + blocks_names(n) + pair_names("ln_f"@) + next_latent_names()
}

/// Number of tensors a checkpoint of `n` blocks holds.
pub open spec fn spec_tensor_count(n: nat) -> int {
    11 + 12 * (n as int)
}

/// Number of tensors in a checkpoint of `block_count` blocks: one token
/// embedding, two final-norm tensors, eight next-latent tensors and twelve
/// per block.
pub fn tensor_count(block_count: usize) -> (r: u32)
    requires
        spec_tensor_count(block_count as nat) <= u32::MAX,
    ensures
        r == spec_tensor_count(block_count as nat),
{
    let token_embedding: u32 = 1;
    let final_norm: u32 = 2;
    let next_latent: u32 = 8;
    let block: u32 = 12;
    token_embedding + final_norm + next_latent + block_count as u32 * block
}

} // verus!

verus! {

/// Two strings that differ at a position both reach differ however they
/// are continued.
pub proof fn differ_at(a: Seq<char>, b: Seq<char>, x: Seq<char>, y: Seq<char>, k: int)
    requires
        0 <= k < a.len(),
        k < b.len(),
        a[k] != b[k],
    ensures
        a + x != b + y,
{
    assert((a + x)[k] == a[k]);
    assert((b + y)[k] == b[k]);
}

/// Equal strings with a common start are equal after it.
pub proof fn cancel_prefix(p: Seq<char>, x: Seq<char>, y: Seq<char>)
    requires
        p + x == p + y,
    ensures
        x == y,
{
    assert((p + x).skip(p.len() as int) =~= x);
    assert((p + y).skip(p.len() as int) =~= y);
}

/// If two runs of digits, each followed by a dot, start equal strings, the
/// runs are equal and so is what follows the dots.
pub proof fn digits_then_dot(d1: Seq<char>, d2: Seq<char>, x: Seq<char>, y: Seq<char>)
    requires
        d1.len() >= 1,
        d2.len() >= 1,
        forall|k: int| 0 <= k < d1.len() ==> is_digit(#[trigger] d1[k]),
        forall|k: int| 0 <= k < d2.len() ==> is_digit(#[trigger] d2[k]),
        d1 + (seq!['.'] + x) == d2 + (seq!['.'] + y),
    ensures
        d1 == d2,
        x == y,
{
    let l = d1 + (seq!['.'] + x);
    let r = d2 + (seq!['.'] + y);
    if d1.len() < d2.len() {
        assert(l[d1.len() as int] == '.');
        assert(r[d1.len() as int] == d2[d1.len() as int]);
        assert(is_digit(d2[d1.len() as int]));
    } else if d2.len() < d1.len() {
        assert(r[d2.len() as int] == '.');
        assert(l[d2.len() as int] == d1[d2.len() as int]);
        assert(is_digit(d1[d2.len() as int]));
    } else {
        assert(l.subrange(0, d1.len() as int) =~= d1);
        assert(r.subrange(0, d2.len() as int) =~= d2);
        assert(l.skip(d1.len() as int + 1) =~= x);
        assert(r.skip(d2.len() as int + 1) =~= y);
    }
}

} // verus!

verus! {

/// No string occurs twice in `s`.
pub open spec fn no_dup(s: Seq<Seq<char>>) -> bool {
    forall|i: int, j: int| 0 <= i < j < s.len() ==> s[i] != s[j]
}

/// `weight` for even positions within a pair, `bias` for odd ones.
pub open spec fn weight_or_bias(w: int) -> Seq<char> {
    if w == 0 {
        "weight"@
    } else {
        "bias"@
    }
}

/// What follows `blocks.{i}.` in the `k`-th name of a block.
pub open spec fn block_suffix(k: int) -> Seq<char> {
    block_part(k / 2) + seq!['.'] + weight_or_bias(k % 2)
}

/// The `k`-th tensor name of block `i`.
pub open spec fn block_name_at(i: nat, k: int) -> Seq<char> {
    ("blocks"@ + seq!['.']) + spec_decimal(i) + (seq!['.'] + block_suffix(k))
}

/// What follows `next_latent.` in the `k`-th name of the next-latent head.
pub open spec fn next_latent_suffix(k: int) -> Seq<char> {
    next_latent_part(k / 2) + seq!['.'] + weight_or_bias(k % 2)
}

proof fn block_names_shape(i: nat)
    ensures
        block_names(i) == Seq::new(12, |k: int| block_name_at(i, k)),
{
    let bp = block_prefix(i);
    let pieces = Seq::new(12, |k: int| pair_names(dotted(bp, block_part(k / 2)))[k % 2]);
    assert(block_names(i) =~= pieces);
    assert forall|k: int| 0 <= k < 12 implies pieces[k] == block_name_at(i, k) by {
        let j = k / 2;
        let w = k % 2;
        assert(pair_names(dotted(bp, block_part(j)))[w] == dotted(
            dotted(bp, block_part(j)),
            weight_or_bias(w),
        ));
        assert(dotted(dotted(bp, block_part(j)), weight_or_bias(w)) =~= block_name_at(i, k));
    }
    assert(block_names(i) =~= Seq::new(12, |k: int| block_name_at(i, k)));
}

/// The names of blocks `0..n`, position by position.
pub proof fn blocks_names_shape(n: nat)
    ensures
        blocks_names(n) == Seq::new(12 * n, |k: int| block_name_at((k / 12) as nat, k % 12)),
    decreases n,
{
    if n > 0 {
        blocks_names_shape((n - 1) as nat);
        block_names_shape((n - 1) as nat);
        let lhs = blocks_names(n);
        let rhs = Seq::new(12 * n, |k: int| block_name_at((k / 12) as nat, k % 12));
        assert forall|k: int| 0 <= k < 12 * n implies lhs[k] == rhs[k] by {
            if k >= 12 * (n - 1) {
                assert(k / 12 == n - 1);
                assert(k % 12 == k - 12 * (n - 1));
            }
        }
        assert(lhs =~= rhs);
    }
}

/// The names of the next-latent head, position by position.
pub proof fn next_latent_names_shape()
    ensures
        next_latent_names() == Seq::new(
            8,
            |k: int| ("next_latent"@ + seq!['.']) + next_latent_suffix(k),
        ),
{
    let nl = "next_latent"@;
    let pieces = Seq::new(8, |k: int| pair_names(dotted(nl, next_latent_part(k / 2)))[k % 2]);
    assert(next_latent_names() =~= pieces);
    assert forall|k: int| 0 <= k < 8 implies pieces[k] == (nl + seq!['.']) + next_latent_suffix(
        k,
    ) by {
        let j = k / 2;
        let w = k % 2;
        assert(pair_names(dotted(nl, next_latent_part(j)))[w] == dotted(
            dotted(nl, next_latent_part(j)),
            weight_or_bias(w),
        ));
        assert(dotted(dotted(nl, next_latent_part(j)), weight_or_bias(w)) =~= (nl + seq!['.'])
            + next_latent_suffix(k));
    }
    assert(next_latent_names() =~= Seq::new(
        8,
        |k: int| ("next_latent"@ + seq!['.']) + next_latent_suffix(k),
    ));
}


proof fn weight_bias_differ()
    ensures
        "weight"@[0] == 'w',
        "bias"@[0] == 'b',
        "weight"@.len() == 6,
        "bias"@.len() == 4,
{
    reveal_strlit("weight");
    reveal_strlit("bias");
}

proof fn block_suffix_distinct(k1: int, k2: int)
    requires
        0 <= k1 < k2 < 12,
    ensures
        block_suffix(k1) != block_suffix(k2),
{
    reveal_strlit("ln_1");
    reveal_strlit("attn_qkv");
    reveal_strlit("attn_c_proj");
    reveal_strlit("ln_2");
    reveal_strlit("mlp_up");
    reveal_strlit("mlp_down");
    weight_bias_differ();
    let j1 = k1 / 2;
    let j2 = k2 / 2;
    let p1 = block_part(j1);
    let p2 = block_part(j2);
    if j1 == j2 {
        assert(k1 % 2 == 0 && k2 % 2 == 1);
        let a = p1 + seq!['.'] + weight_or_bias(0);
        let b = p1 + seq!['.'] + weight_or_bias(1);
        assert(a[p1.len() as int + 1] == 'w');
        assert(b[p1.len() as int + 1] == 'b');
    } else {
        let d: int = if (j1 == 0 && j2 == 3) {
            3
        } else if (j1 == 1 && j2 == 2) {
            5
        } else if (j1 == 4 && j2 == 5) {
            4
        } else {
            0
        };
        assert(p1[d] != p2[d]);
        differ_at(p1, p2, seq!['.'] + weight_or_bias(k1 % 2), seq!['.'] + weight_or_bias(k2 % 2), d);
        assert(block_suffix(k1) =~= p1 + (seq!['.'] + weight_or_bias(k1 % 2)));
        assert(block_suffix(k2) =~= p2 + (seq!['.'] + weight_or_bias(k2 % 2)));
    }
}

proof fn next_latent_suffix_distinct(k1: int, k2: int)
    requires
        0 <= k1 < k2 < 8,
    ensures
        next_latent_suffix(k1) != next_latent_suffix(k2),
{
    reveal_strlit("norm");
    reveal_strlit("input_projection");
    reveal_strlit("transition");
    reveal_strlit("output_projection");
    weight_bias_differ();
    let j1 = k1 / 2;
    let j2 = k2 / 2;
    let p1 = next_latent_part(j1);
    let p2 = next_latent_part(j2);
    if j1 == j2 {
        assert(k1 % 2 == 0 && k2 % 2 == 1);
        let a = p1 + seq!['.'] + weight_or_bias(0);
        let b = p1 + seq!['.'] + weight_or_bias(1);
        assert(a[p1.len() as int + 1] == 'w');
        assert(b[p1.len() as int + 1] == 'b');
    } else {
        assert(p1[0] != p2[0]);
        differ_at(p1, p2, seq!['.'] + weight_or_bias(k1 % 2), seq!['.'] + weight_or_bias(k2 % 2), 0);
        assert(next_latent_suffix(k1) =~= p1 + (seq!['.'] + weight_or_bias(k1 % 2)));
        assert(next_latent_suffix(k2) =~= p2 + (seq!['.'] + weight_or_bias(k2 % 2)));
    }
}

} // verus!

verus! {

proof fn blocks_names_distinct(n: nat)
    ensures
        no_dup(blocks_names(n)),
        blocks_names(n).len() == 12 * n,
        forall|k: int| 0 <= k < blocks_names(n).len() ==> #[trigger] blocks_names(n)[k].len() > 0
            && blocks_names(n)[k][0] == 'b',
{
    reveal_strlit("blocks");
    blocks_names_shape(n);
    let b = blocks_names(n);
    let head = "blocks"@ + seq!['.'];
    assert forall|i: int, j: int| 0 <= i < j < b.len() implies b[i] != b[j] by {
        let bi = (i / 12) as nat;
        let bj = (j / 12) as nat;
        let ki = i % 12;
        let kj = j % 12;
        decimal_facts(bi);
        decimal_facts(bj);
        let ti = seq!['.'] + block_suffix(ki);
        let tj = seq!['.'] + block_suffix(kj);
        if b[i] == b[j] {
            assert(b[i] =~= head + (spec_decimal(bi) + ti));
            assert(b[j] =~= head + (spec_decimal(bj) + tj));
            cancel_prefix(head, spec_decimal(bi) + ti, spec_decimal(bj) + tj);
            digits_then_dot(spec_decimal(bi), spec_decimal(bj), block_suffix(ki), block_suffix(kj));
            if bi != bj {
                decimal_injective(bi, bj);
            } else {
                block_suffix_distinct(ki, kj);
            }
        }
    }
    assert forall|k: int| 0 <= k < b.len() implies #[trigger] b[k].len() > 0 && b[k][0] == 'b' by {
        assert(b[k] == block_name_at((k / 12) as nat, k % 12));
        assert(b[k][0] == head[0]);
    }
}

/// If the strings of `b` all start with `c`, no string of `a` does, and
/// neither run repeats a string, then `a + b` repeats none.
pub proof fn no_dup_concat(a: Seq<Seq<char>>, b: Seq<Seq<char>>, c: char)
    requires
        no_dup(a),
        no_dup(b),
        forall|k: int| 0 <= k < a.len() ==> #[trigger] a[k].len() > 0 && a[k][0] != c,
        forall|k: int| 0 <= k < b.len() ==> #[trigger] b[k].len() > 0 && b[k][0] == c,
    ensures
        no_dup(a + b),
{
    let s = a + b;
    assert forall|i: int, j: int| 0 <= i < j < s.len() implies s[i] != s[j] by {
        if i < a.len() && j >= a.len() {
            assert(s[i] == a[i]);
            assert(s[j] == b[j - a.len()]);
        } else if i >= a.len() {
            assert(s[i] == b[i - a.len()]);
            assert(s[j] == b[j - a.len()]);
        } else {
            assert(s[i] == a[i]);
            assert(s[j] == a[j]);
        }
    }
}

/// The tensor names of a model with `n` blocks are all different, and there
/// are as many as [`tensor_count`] announces.
pub proof fn schema_names_distinct(n: nat)
    ensures
        no_dup(schema_names(n)),
        schema_names(n).len() == spec_tensor_count(n),
{
    reveal_strlit("token_embedding");
    reveal_strlit("ln_f");
    reveal_strlit("next_latent");
    weight_bias_differ();
    blocks_names_distinct(n);
    next_latent_names_shape();
    let t = seq!["token_embedding"@];
    let b = blocks_names(n);
    let l = pair_names("ln_f"@);
    let nl = next_latent_names();
    assert(no_dup(t));
    no_dup_concat(t, b, 'b');
    let tb = t + b;
    assert forall|k: int| 0 <= k < tb.len() implies #[trigger] tb[k].len() > 0 && tb[k][0] != 'l' by {
        if k >= 1 {
            assert(tb[k] == b[k - 1]);
        }
    }
    assert(l[0] =~= "ln_f"@ + seq!['.'] + "weight"@);
    assert(l[1] =~= "ln_f"@ + seq!['.'] + "bias"@);
    assert(l[0][5] != l[1][5]);
    assert(no_dup(l));
    no_dup_concat(tb, l, 'l');
    let tbl = tb + l;
    assert forall|k: int| 0 <= k < tbl.len() implies #[trigger] tbl[k].len() > 0 && tbl[k][0] != 'n' by {
        if k < tb.len() {
            assert(tbl[k] == tb[k]);
        } else {
            assert(tbl[k] == l[k - tb.len()]);
        }
    }
    let head = "next_latent"@ + seq!['.'];
    assert forall|i: int, j: int| 0 <= i < j < nl.len() implies nl[i] != nl[j] by {
        if nl[i] == nl[j] {
            cancel_prefix(head, next_latent_suffix(i), next_latent_suffix(j));
            next_latent_suffix_distinct(i, j);
        }
    }
    assert forall|k: int| 0 <= k < nl.len() implies #[trigger] nl[k].len() > 0 && nl[k][0] == 'n' by {
        assert(nl[k][0] == head[0]);
    }
    no_dup_concat(tbl, nl, 'n');
}

} // verus!
