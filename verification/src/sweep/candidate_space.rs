use vstd::prelude::*;

use super::rng::{pick, random_usize_range, xorshift, SweepRng};
use crate::text::{decimal_string, spec_decimal};

verus! {

/// The fewest layers a candidate may have.
pub const MIN_N_LAYER: usize = 4;

/// The most blocks that the cooperative phases may occupy together.
pub const MAX_COOPERATIVE_BLOCKS: usize = 360;

/// The fewest and the most warmup steps a candidate may draw.
pub const WARMUP_STEPS_LOW: usize = 5;

/// The most warmup steps a candidate may draw.
pub const WARMUP_STEPS_HIGH: usize = 100;

/// The batch sizes the sweep tries.
pub open spec fn batch_sizes() -> Seq<usize> {
    seq![4, 8, 16]
}

/// The layer counts the sweep tries.
pub open spec fn layer_counts() -> Seq<usize> {
    seq![MIN_N_LAYER, 8]
}

/// The (embedding width, head count) pairs the sweep tries.
pub open spec fn embeddings() -> Seq<(usize, usize)> {
    seq![(1024, 16), (2048, 16)]
}

/// The cooperative block counts the sweep tries.
pub open spec fn block_counts() -> Seq<usize> {
    seq![80, 90, 120, 160, 180]
}

/// The Aurora phase counts, in the order they are offered.
pub open spec fn phase_counts() -> Seq<usize> {
    seq![2, 4, 8, 16]
}

/// Blocks in use when `slots` matrix slots run in `phases` phases of
/// `blocks` blocks each.
pub open spec fn spec_cooperative_blocks(slots: nat, phases: nat, blocks: nat) -> nat {
    blocks * (slots / phases)
}

/// Whether `phases` divides the slots and keeps the blocks within the limit.
pub open spec fn phase_fits(slots: nat, blocks: nat, phases: usize) -> bool {
    phases > 0 && slots % (phases as nat) == 0 && spec_cooperative_blocks(slots, phases as nat, blocks)
        <= MAX_COOPERATIVE_BLOCKS
}

/// The phase counts that fit, in order.
pub open spec fn aurora_phases_for(slots: nat, blocks: nat) -> Seq<usize> {
    phase_counts().filter(|p: usize| phase_fits(slots, blocks, p))
}

/// Whether counting the cooperative blocks for these slots cannot overflow.
pub open spec fn phases_computable(slots: nat, blocks: nat) -> bool {
    slots % 2 == 0 ==> blocks * (slots / 2) <= usize::MAX
}

fn cooperative_blocks(slots: usize, phases: usize, blocks: usize) -> (r: usize)
    requires
        phases > 0,
        blocks * (slots / phases) <= usize::MAX,
    ensures
        r == spec_cooperative_blocks(slots as nat, phases as nat, blocks as nat),
{
    blocks * (slots / phases)
}

/// The Aurora phase counts (2, 4, 8, 16) that divide `slots` and keep
/// `blocks * (slots / phases)` at most 360, in that order.
pub fn valid_aurora_phases(slots: usize, blocks: usize) -> (r: Vec<usize>)
    requires
        phases_computable(slots as nat, blocks as nat),
    ensures
        r@ == aurora_phases_for(slots as nat, blocks as nat),
{
    let choices: Vec<usize> = vec![2, 4, 8, 16];
    assert(choices@ =~= phase_counts());
    let ghost pred = |p: usize| phase_fits(slots as nat, blocks as nat, p);
    let mut out: Vec<usize> = Vec::new();
    let mut k: usize = 0;
    while k < choices.len()
        invariant
            k <= choices.len(),
            choices@ == phase_counts(),
            phases_computable(slots as nat, blocks as nat),
            pred == (|p: usize| phase_fits(slots as nat, blocks as nat, p)),
            out@ == choices@.take(k as int).filter(pred),
        decreases choices.len() - k,
    {
        let p = choices[k];
        assert(choices@.take(k as int + 1).drop_last() =~= choices@.take(k as int));
        assert(choices@.take(k as int + 1).last() == p);
        reveal(Seq::filter);
        let fits = if slots % p == 0 {
            assert(blocks * (slots / p) <= blocks * (slots / 2)) by (nonlinear_arith)
                requires
                    p >= 2,
                    slots % p == 0,
            {
                assert(slots / p <= slots / 2) by {
                    vstd::arithmetic::div_mod::lemma_div_is_ordered_by_denominator(
                        slots as int,
                        2,
                        p as int,
                    );
                }
            }
            assert(slots % 2 == 0) by (nonlinear_arith)
                requires
                    slots % p == 0,
                    p == 2 || p == 4 || p == 8 || p == 16,
            {
                if p == 4 {
                    assert(slots == 4 * (slots / 4));
                } else if p == 8 {
                    assert(slots == 8 * (slots / 8));
                } else if p == 16 {
                    assert(slots == 16 * (slots / 16));
                }
            }
            cooperative_blocks(slots, p, blocks) <= MAX_COOPERATIVE_BLOCKS
        } else {
            false
        };
        if fits {
            out.push(p);
        }
        k = k + 1;
    }
    assert(choices@.take(4) =~= choices@);
    out
}


/// The whole-number part of a sweep candidate: the model's shape and the
/// Aurora kernel layout.
#[derive(Clone, Copy, Debug, PartialEq, Eq, Structural)]
pub struct CandidateShape {
    pub batch_size: usize,
    pub n_layer: usize,
    pub n_embd: usize,
    pub n_head: usize,
    pub aurora_phases: usize,
    pub aurora_blocks: usize,
}

/// With at least the fewest layers and at most 180 blocks, phase count 16
/// always fits, so the choices are never empty.
pub proof fn phases_nonempty(n_layer: usize, blocks: usize)
    requires
        n_layer == 4 || n_layer == 8,
        blocks <= 180,
    ensures
        aurora_phases_for((n_layer * 4) as nat, blocks as nat).len() > 0,
        forall|k: int|
            0 <= k < aurora_phases_for((n_layer * 4) as nat, blocks as nat).len() ==> phase_fits(
                (n_layer * 4) as nat,
                blocks as nat,
                #[trigger] aurora_phases_for((n_layer * 4) as nat, blocks as nat)[k],
            ),
{
    let pred = |p: usize| phase_fits((n_layer * 4) as nat, blocks as nat, p);
    assert(phase_counts()[3] == 16);
    let slots = (n_layer * 4) as nat;
    assert(slots == 16 || slots == 32);
    assert(slots % 16 == 0 && slots / 16 <= 2);
    assert(spec_cooperative_blocks(slots, 16, blocks as nat) <= 360) by (nonlinear_arith)
        requires
            slots / 16 <= 2,
            blocks <= 180,
    ;
    assert(pred(16));
    phase_counts().lemma_filter_contains(pred, 3);
    assert forall|k: int|
        0 <= k < aurora_phases_for((n_layer * 4) as nat, blocks as nat).len() implies phase_fits(
        (n_layer * 4) as nat,
        blocks as nat,
        #[trigger] aurora_phases_for((n_layer * 4) as nat, blocks as nat)[k],
    ) by {
        phase_counts().lemma_filter_pred(pred, k);
    }
}

/// The shape a fresh random candidate takes: five draws, in turn for the
/// embedding, the layer count, the block count, the batch size and the
/// phase count (among those that fit).
pub fn random_shape(rng: &mut SweepRng) -> (r: CandidateShape)
    ensures
        ({
            let s1 = xorshift(old(rng)@);
            let s2 = xorshift(s1);
            let s3 = xorshift(s2);
            let s4 = xorshift(s3);
            let s5 = xorshift(s4);
            &&& r.n_embd == pick(embeddings(), s1).0
            &&& r.n_head == pick(embeddings(), s1).1
            &&& r.n_layer == pick(layer_counts(), s2)
            &&& r.aurora_blocks == pick(block_counts(), s3)
            &&& r.batch_size == pick(batch_sizes(), s4)
            &&& r.aurora_phases == pick(aurora_phases_for((r.n_layer * 4) as nat, r.aurora_blocks as nat), s5)
            &&& final(rng)@ == s5
        }),
        r.n_layer >= MIN_N_LAYER,
        phase_fits((r.n_layer * 4) as nat, r.aurora_blocks as nat, r.aurora_phases),
{
    let embeds: Vec<(usize, usize)> = vec![(1024, 16), (2048, 16)];
    let layers: Vec<usize> = vec![MIN_N_LAYER, 8];
    let blocks_choices: Vec<usize> = vec![80, 90, 120, 160, 180];
    let batches: Vec<usize> = vec![4, 8, 16];
    assert(embeds@ =~= embeddings());
    assert(layers@ =~= layer_counts());
    assert(blocks_choices@ =~= block_counts());
    assert(batches@ =~= batch_sizes());
    let (n_embd, n_head) = rng.choose_value(embeds.as_slice());
    let ghost s2 = rng@;
    let n_layer = rng.choose_value(layers.as_slice());
    let ghost s3 = rng@;
    let aurora_blocks = rng.choose_value(blocks_choices.as_slice());
    proof {
        let i = (xorshift(s2) as usize) % 2;
        assert(n_layer == layers@[i as int]);
        assert(n_layer == 4 || n_layer == 8);
        let j = (xorshift(s3) as usize) % 5;
        assert(aurora_blocks == blocks_choices@[j as int]);
        assert(aurora_blocks <= 180);
        phases_nonempty(n_layer, aurora_blocks);
    }
    let phases = valid_aurora_phases(n_layer * 4, aurora_blocks);
    let batch_size = rng.choose_value(batches.as_slice());
    let aurora_phases = rng.choose_value(phases.as_slice());
    CandidateShape { batch_size, n_layer, n_embd, n_head, aurora_phases, aurora_blocks }
}

/// The first of `phases` that is at least `x`.
pub open spec fn first_at_least(phases: Seq<usize>, x: usize) -> Option<usize>
    decreases phases.len(),
{
    if phases.len() == 0 {
        None
    } else if phases[0] >= x {
        Some(phases[0])
    } else {
        first_at_least(phases.drop_first(), x)
    }
}

/// The phase count kept when the layers change: the first choice at least
/// as large as the old one, else the first choice, else the old one.
pub open spec fn raised_phases(phases: Seq<usize>, current: usize) -> usize {
    match first_at_least(phases, current) {
        Some(p) => p,
        None => if phases.len() > 0 {
            phases[0]
        } else {
            current
        },
    }
}

/// The shape `c` raised to the fewest layers.
pub open spec fn spec_with_min_layers(c: CandidateShape) -> CandidateShape {
    if c.n_layer >= MIN_N_LAYER {
        c
    } else {
        CandidateShape {
            n_layer: MIN_N_LAYER,
            aurora_phases: raised_phases(
                aurora_phases_for((MIN_N_LAYER * 4) as nat, c.aurora_blocks as nat),
                c.aurora_phases,
            ),
            ..c
        }
    }
}

fn first_phase_at_least(phases: &Vec<usize>, x: usize) -> (r: Option<usize>)
    ensures
        r == first_at_least(phases@, x),
{
    let mut k: usize = 0;
    assert(phases@.skip(0) =~= phases@);
    while k < phases.len()
        invariant
            k <= phases.len(),
            first_at_least(phases@, x) == first_at_least(phases@.skip(k as int), x),
        decreases phases.len() - k,
    {
        assert(phases@.skip(k as int)[0] == phases@[k as int]);
        assert(phases@.skip(k as int).drop_first() =~= phases@.skip(k as int + 1));
        if phases[k] >= x {
            return Some(phases[k]);
        }
        k = k + 1;
    }
    None
}

impl CandidateShape {
    /// The same candidate with at least the fewest layers; the phase count
    /// is moved to one that fits the new layer count.
    pub fn with_min_layers(&self) -> (r: CandidateShape)
        requires
            self.n_layer < MIN_N_LAYER ==> self.aurora_blocks * 8 <= usize::MAX,
        ensures
            r == spec_with_min_layers(*self),
            r.n_layer >= MIN_N_LAYER,
    {
        if self.n_layer >= MIN_N_LAYER {
            return *self;
        }
        let n_layer = MIN_N_LAYER;
        let phases = valid_aurora_phases(n_layer * 4, self.aurora_blocks);
        let aurora_phases = match first_phase_at_least(&phases, self.aurora_phases) {
            Some(p) => p,
            None => if phases.len() > 0 {
                phases[0]
            } else {
                self.aurora_phases
            },
        };
        CandidateShape { n_layer, aurora_phases, ..*self }
    }

    /// The build-time settings of the candidate, as environment entries.
    pub fn build_env(&self) -> (r: Vec<(&'static str, String)>)
        ensures
            r@.len() == 6,
            r@[0].0@ == "GPT2_BATCH_SIZE"@ && r@[0].1@ == spec_decimal(self.batch_size as nat),
            r@[1].0@ == "GPT2_N_LAYER"@ && r@[1].1@ == spec_decimal(self.n_layer as nat),
            r@[2].0@ == "GPT2_N_EMBD"@ && r@[2].1@ == spec_decimal(self.n_embd as nat),
            r@[3].0@ == "GPT2_N_HEAD"@ && r@[3].1@ == spec_decimal(self.n_head as nat),
            r@[4].0@ == "AURORA_MATRIX_PHASES"@ && r@[4].1@ == spec_decimal(self.aurora_phases as nat),
            r@[5].0@ == "AURORA_COOPERATIVE_BLOCKS"@ && r@[5].1@ == spec_decimal(
                self.aurora_blocks as nat,
            ),
    {
        let mut r: Vec<(&'static str, String)> = Vec::new();
        r.push(("GPT2_BATCH_SIZE", decimal_string(self.batch_size)));
        r.push(("GPT2_N_LAYER", decimal_string(self.n_layer)));
        r.push(("GPT2_N_EMBD", decimal_string(self.n_embd)));
        r.push(("GPT2_N_HEAD", decimal_string(self.n_head)));
        r.push(("AURORA_MATRIX_PHASES", decimal_string(self.aurora_phases)));
        r.push(("AURORA_COOPERATIVE_BLOCKS", decimal_string(self.aurora_blocks)));
        r
    }
}

/// The warmup step count of a fresh random candidate, drawn from `5..=100`.
pub fn random_warmup_steps(rng: &mut SweepRng) -> (r: usize)
    ensures
        r == WARMUP_STEPS_LOW + (xorshift(old(rng)@) as usize) % ((WARMUP_STEPS_HIGH - WARMUP_STEPS_LOW + 1) as usize),
        WARMUP_STEPS_LOW <= r <= WARMUP_STEPS_HIGH,
        final(rng)@ == xorshift(old(rng)@),
{
    random_usize_range(rng, WARMUP_STEPS_LOW, WARMUP_STEPS_HIGH)
}


proof fn first_at_least_member(phases: Seq<usize>, x: usize)
    ensures
        first_at_least(phases, x) matches Some(p) ==> exists|k: int|
            0 <= k < phases.len() && phases[k] == p,
    decreases phases.len(),
{
    if phases.len() > 0 && phases[0] < x {
        first_at_least_member(phases.drop_first(), x);
        if let Some(p) = first_at_least(phases, x) {
            let k = choose|k: int| 0 <= k < phases.drop_first().len() && phases.drop_first()[k] == p;
            assert(phases[k + 1] == p);
        }
    }
}

/// Raising a candidate to the fewest layers leaves one that already has
/// them as it is, so doing it twice is the same as once; and when some
/// phase count fits the new layer count, the one kept fits.
pub proof fn with_min_layers_law(c: CandidateShape)
    ensures
        spec_with_min_layers(c).n_layer >= MIN_N_LAYER,
        c.n_layer >= MIN_N_LAYER ==> spec_with_min_layers(c) == c,
        spec_with_min_layers(spec_with_min_layers(c)) == spec_with_min_layers(c),
        c.n_layer < MIN_N_LAYER && aurora_phases_for((MIN_N_LAYER * 4) as nat, c.aurora_blocks as nat).len() > 0
            ==> phase_fits(
            (MIN_N_LAYER * 4) as nat,
            c.aurora_blocks as nat,
            spec_with_min_layers(c).aurora_phases,
        ),
{
    let phases = aurora_phases_for((MIN_N_LAYER * 4) as nat, c.aurora_blocks as nat);
    let pred = |p: usize| phase_fits((MIN_N_LAYER * 4) as nat, c.aurora_blocks as nat, p);
    if c.n_layer < MIN_N_LAYER && phases.len() > 0 {
        first_at_least_member(phases, c.aurora_phases);
        match first_at_least(phases, c.aurora_phases) {
            Some(p) => {
                let k = choose|k: int| 0 <= k < phases.len() && phases[k] == p;
                phase_counts().lemma_filter_pred(pred, k);
            },
            None => {
                phase_counts().lemma_filter_pred(pred, 0);
            },
        }
    }
}


/// Whether `s` rises strictly.
pub open spec fn rising(s: Seq<usize>) -> bool {
    forall|i: int, j: int| 0 <= i < j < s.len() ==> s[i] < s[j]
}

proof fn filter_rising(s: Seq<usize>, pred: spec_fn(usize) -> bool)
    requires
        rising(s),
    ensures
        rising(s.filter(pred)),
        forall|k: int| 0 <= k < s.filter(pred).len() ==> s.contains(#[trigger] s.filter(pred)[k]),
    decreases s.len(),
{
    reveal(Seq::filter);
    if s.len() > 0 {
        let init = s.drop_last();
        assert(rising(init));
        filter_rising(init, pred);
        let f0 = init.filter(pred);
        assert forall|k: int| 0 <= k < f0.len() implies f0[k] < s.last() by {
            assert(init.contains(f0[k]));
            let j = choose|j: int| 0 <= j < init.len() && init[j] == f0[k];
            assert(s[j] == init[j]);
        }
        assert forall|k: int| 0 <= k < f0.len() implies s.contains(#[trigger] f0[k]) by {
            let j = choose|j: int| 0 <= j < init.len() && init[j] == f0[k];
            assert(s[j] == init[j]);
        }
        if pred(s.last()) {
            let f = f0.push(s.last());
            assert(s.filter(pred) == f);
            assert(s.contains(s.last())) by {
                assert(s[s.len() - 1] == s.last());
            }
            assert forall|k: int| 0 <= k < f.len() implies s.contains(#[trigger] f[k]) by {
                if k < f0.len() {
                    assert(f[k] == f0[k]);
                }
            }
        }
    }
}

proof fn first_at_least_least(s: Seq<usize>, x: usize)
    requires
        rising(s),
    ensures
        match first_at_least(s, x) {
            Some(p) => s.contains(p) && p >= x && forall|q: usize| #[trigger] s.contains(q) && q >= x ==> p
                <= q,
            None => forall|q: usize| #[trigger] s.contains(q) ==> q < x,
        },
    decreases s.len(),
{
    if s.len() > 0 {
        if s[0] >= x {
            assert(s.contains(s[0]));
            assert forall|q: usize| #[trigger] s.contains(q) && q >= x implies s[0] <= q by {
                let j = choose|j: int| 0 <= j < s.len() && s[j] == q;
                if j > 0 {
                    assert(s[0] < s[j]);
                }
            }
        } else {
            let rest = s.drop_first();
            assert(rising(rest)) by {
                assert forall|i: int, j: int| 0 <= i < j < rest.len() implies rest[i] < rest[j] by {
                    assert(rest[i] == s[i + 1] && rest[j] == s[j + 1]);
                }
            }
            first_at_least_least(rest, x);
            assert forall|q: usize| #[trigger] s.contains(q) && q != s[0] implies rest.contains(q) by {
                let j = choose|j: int| 0 <= j < s.len() && s[j] == q;
                assert(j > 0);
                assert(rest[j - 1] == q);
            }
            assert forall|q: usize| #[trigger] rest.contains(q) implies s.contains(q) by {
                let j = choose|j: int| 0 <= j < rest.len() && rest[j] == q;
                assert(s[j + 1] == q);
            }
        }
    }
}

/// The phase counts that fit `slots` matrix slots and `blocks` blocks are
/// exactly those of 2, 4, 8 and 16 that divide the slots and keep
/// `blocks * (slots / phases)` at most 360, and they come smallest first.
pub proof fn aurora_phases_law(slots: nat, blocks: nat, p: usize)
    ensures
        aurora_phases_for(slots, blocks).contains(p) <==> (p == 2 || p == 4 || p == 8 || p == 16)
            && slots % (p as nat) == 0 && blocks * (slots / (p as nat)) <= 360,
        rising(aurora_phases_for(slots, blocks)),
{
    let pred = |q: usize| phase_fits(slots, blocks, q);
    let all = phase_counts();
    assert(rising(all));
    filter_rising(all, pred);
    if aurora_phases_for(slots, blocks).contains(p) {
        let j = choose|j: int| 0 <= j < all.filter(pred).len() && all.filter(pred)[j] == p;
        all.lemma_filter_pred(pred, j);
        assert(all.contains(p));
    }
    if (p == 2 || p == 4 || p == 8 || p == 16) && slots % (p as nat) == 0 && blocks * (slots / (
    p as nat)) <= 360 {
        let i: int = if p == 2 {
            0
        } else if p == 4 {
            1
        } else if p == 8 {
            2
        } else {
            3
        };
        assert(all[i] == p);
        all.lemma_filter_contains(pred, i);
    }
}

/// Raising a candidate that has too few layers to the fewest layers keeps
/// every field but the layer count and the phase count, and picks as phase
/// count the least count that fits the new layer count and is at least the
/// old one (so an old count that fits is kept); when no fitting count is
/// that large it picks the least fitting count, and when none fits at all
/// it keeps the old one.
pub proof fn with_min_layers_phase_law(c: CandidateShape)
    requires
        c.n_layer < MIN_N_LAYER,
    ensures
        ({
            let phases = aurora_phases_for(16, c.aurora_blocks as nat);
            let r = spec_with_min_layers(c);
            &&& r.n_layer == MIN_N_LAYER
            &&& r.batch_size == c.batch_size && r.n_embd == c.n_embd && r.n_head == c.n_head
                && r.aurora_blocks == c.aurora_blocks
            &&& phases.contains(c.aurora_phases) ==> r.aurora_phases == c.aurora_phases
            &&& (exists|p: usize| #[trigger] phases.contains(p) && p >= c.aurora_phases) ==> {
                &&& phases.contains(r.aurora_phases)
                &&& r.aurora_phases >= c.aurora_phases
                &&& forall|p: usize| #[trigger] phases.contains(p) && p >= c.aurora_phases ==> r.aurora_phases
                    <= p
            }
            &&& (forall|p: usize| #[trigger] phases.contains(p) ==> p < c.aurora_phases) && phases.len()
                > 0 ==> phases.contains(r.aurora_phases) && forall|p: usize| #[trigger] phases.contains(p)
                ==> r.aurora_phases <= p
            &&& phases.len() == 0 ==> r.aurora_phases == c.aurora_phases
        }),
{
    let phases = aurora_phases_for(16, c.aurora_blocks as nat);
    let pred = |p: usize| phase_fits(16, c.aurora_blocks as nat, p);
    assert(rising(phase_counts()));
    filter_rising(phase_counts(), pred);
    assert(phases == phase_counts().filter(pred));
    first_at_least_least(phases, c.aurora_phases);
    if phases.len() > 0 {
        assert(phases.contains(phases[0]));
        assert forall|p: usize| #[trigger] phases.contains(p) implies phases[0] <= p by {
            let j = choose|j: int| 0 <= j < phases.len() && phases[j] == p;
            if j > 0 {
                assert(phases[0] < phases[j]);
            }
        }
    }
}

} // verus!
