use vstd::prelude::*;

use super::rng::{xorshift, SweepRng};

verus! {

/// Where a proposed candidate came from.
#[derive(Clone, Copy, Debug, PartialEq, Eq, Structural)]
pub enum CandidateSource {
    Guided,
    Local,
    Factorial,
    Variance,
    Coverage,
    Random,
}

impl CandidateSource {
    /// The name the sweep logs for this source.
    pub fn name(&self) -> (r: &'static str)
        ensures
            r@ == source_name(*self),
    {
        match self {
            CandidateSource::Guided => "guided",
            CandidateSource::Local => "local",
            CandidateSource::Factorial => "factorial",
            CandidateSource::Variance => "variance",
            CandidateSource::Coverage => "coverage",
            CandidateSource::Random => "random",
        }
    }
}

/// The name of a source.
pub open spec fn source_name(s: CandidateSource) -> Seq<char> {
    match s {
        CandidateSource::Guided => "guided"@,
        CandidateSource::Local => "local"@,
        CandidateSource::Factorial => "factorial"@,
        CandidateSource::Variance => "variance"@,
        CandidateSource::Coverage => "coverage"@,
        CandidateSource::Random => "random"@,
    }
}

/// The sources in the order their tickets are laid out.
pub open spec fn source_order() -> Seq<CandidateSource> {
    seq![
        CandidateSource::Guided,
        CandidateSource::Local,
        CandidateSource::Factorial,
        CandidateSource::Variance,
        CandidateSource::Coverage,
        CandidateSource::Random,
    ]
}

/// How many of `sources` are `s`.
pub open spec fn source_count(sources: Seq<CandidateSource>, s: CandidateSource) -> nat
    decreases sources.len(),
{
    if sources.len() == 0 {
        0
    } else {
        source_count(sources.drop_last(), s) + if sources.last() == s {
            1nat
        } else {
            0nat
        }
    }
}

/// The counts of the sources from position `k` of the order on, summed.
pub open spec fn counts_from(sources: Seq<CandidateSource>, k: int) -> nat
    decreases 6 - k,
{
    if k < 0 || k >= 6 {
        0
    } else {
        source_count(sources, source_order()[k]) + counts_from(sources, k + 1)
    }
}

/// The source that holds `ticket` when each source, from position `k` of
/// the order on, holds as many tickets as it has candidates.
pub open spec fn source_for_ticket(sources: Seq<CandidateSource>, ticket: nat, k: int) -> Option<
    CandidateSource,
>
    decreases 6 - k,
{
    if k < 0 || k >= 6 {
        None
    } else {
        let c = source_count(sources, source_order()[k]);
        if ticket < c {
            Some(source_order()[k])
        } else {
            source_for_ticket(sources, (ticket - c) as nat, k + 1)
        }
    }
}

proof fn counts_sum_to_len(sources: Seq<CandidateSource>)
    ensures
        counts_from(sources, 0) == sources.len(),
    decreases sources.len(),
{
    if sources.len() > 0 {
        let p = sources.drop_last();
        let l = sources.last();
        let o = source_order();
        counts_sum_to_len(p);
        assert(counts_from(sources, 6) == 0 && counts_from(p, 6) == 0);
        assert forall|x: CandidateSource|
            #[trigger] source_count(sources, x) == source_count(p, x) + if l == x {
                1nat
            } else {
                0nat
            } by {}
        assert(counts_from(sources, 5) == source_count(sources, o[5]) + counts_from(sources, 6));
        assert(counts_from(p, 5) == source_count(p, o[5]) + counts_from(p, 6));
        assert(counts_from(sources, 4) == source_count(sources, o[4]) + counts_from(sources, 5));
        assert(counts_from(p, 4) == source_count(p, o[4]) + counts_from(p, 5));
        assert(counts_from(sources, 3) == source_count(sources, o[3]) + counts_from(sources, 4));
        assert(counts_from(p, 3) == source_count(p, o[3]) + counts_from(p, 4));
        assert(counts_from(sources, 2) == source_count(sources, o[2]) + counts_from(sources, 3));
        assert(counts_from(p, 2) == source_count(p, o[2]) + counts_from(p, 3));
        assert(counts_from(sources, 1) == source_count(sources, o[1]) + counts_from(sources, 2));
        assert(counts_from(p, 1) == source_count(p, o[1]) + counts_from(p, 2));
        assert(counts_from(sources, 0) == source_count(sources, o[0]) + counts_from(sources, 1));
        assert(counts_from(p, 0) == source_count(p, o[0]) + counts_from(p, 1));
        assert(source_count(sources, o[0]) + source_count(sources, o[1]) + source_count(sources, o[2])
            + source_count(sources, o[3]) + source_count(sources, o[4]) + source_count(sources, o[5])
            == source_count(p, o[0]) + source_count(p, o[1]) + source_count(p, o[2]) + source_count(p, o[3])
            + source_count(p, o[4]) + source_count(p, o[5]) + 1);
    } else {
        assert(counts_from(sources, 6) == 0);
        assert(counts_from(sources, 5) == 0);
        assert(counts_from(sources, 4) == 0);
        assert(counts_from(sources, 3) == 0);
        assert(counts_from(sources, 2) == 0);
        assert(counts_from(sources, 1) == 0);
        assert(counts_from(sources, 0) == 0);
    }
}

proof fn ticket_finds_source(sources: Seq<CandidateSource>, ticket: nat, k: int)
    requires
        0 <= k <= 6,
        ticket < counts_from(sources, k),
    ensures
        source_for_ticket(sources, ticket, k) matches Some(s) && source_count(sources, s) > 0,
    decreases 6 - k,
{
    if k < 6 {
        let c = source_count(sources, source_order()[k]);
        if ticket >= c {
            ticket_finds_source(sources, (ticket - c) as nat, k + 1);
        }
    }
}

/// A ticket below the number of candidates always lands on a source that
/// has candidates.
pub proof fn ticket_lands_on_present_source(sources: Seq<CandidateSource>, ticket: nat)
    requires
        ticket < sources.len(),
    ensures
        source_for_ticket(sources, ticket, 0) matches Some(s) && source_count(sources, s) > 0,
{
    counts_sum_to_len(sources);
    ticket_finds_source(sources, ticket, 0);
}

/// Tickets are laid out source by source, guided first, then local,
/// factorial, variance, coverage and random, each source holding as many
/// consecutive tickets as it has candidates; a ticket past them all lands
/// nowhere.
pub proof fn ticket_layout(sources: Seq<CandidateSource>, t: nat)
    ensures
        ({
            let g = source_count(sources, CandidateSource::Guided);
            let l = source_count(sources, CandidateSource::Local);
            let f = source_count(sources, CandidateSource::Factorial);
            let v = source_count(sources, CandidateSource::Variance);
            let c = source_count(sources, CandidateSource::Coverage);
            let r = source_count(sources, CandidateSource::Random);
            let found = source_for_ticket(sources, t, 0);
            &&& t < g ==> found == Some(CandidateSource::Guided)
            &&& g <= t < g + l ==> found == Some(CandidateSource::Local)
            &&& g + l <= t < g + l + f ==> found == Some(CandidateSource::Factorial)
            &&& g + l + f <= t < g + l + f + v ==> found == Some(CandidateSource::Variance)
            &&& g + l + f + v <= t < g + l + f + v + c ==> found == Some(CandidateSource::Coverage)
            &&& g + l + f + v + c <= t < g + l + f + v + c + r ==> found == Some(
                CandidateSource::Random,
            )
            &&& g + l + f + v + c + r <= t ==> found is None
        }),
{
    reveal_with_fuel(source_for_ticket, 7);
}

fn count_source(sources: &[CandidateSource], s: CandidateSource) -> (r: usize)
    ensures
        r == source_count(sources@, s),
        r <= sources@.len(),
{
    let mut n: usize = 0;
    let mut k: usize = 0;
    while k < sources.len()
        invariant
            k <= sources.len(),
            n == source_count(sources@.take(k as int), s),
            n <= k,
        decreases sources.len() - k,
    {
        assert(sources@.take(k as int + 1).drop_last() =~= sources@.take(k as int));
        if sources[k] == s {
            n = n + 1;
        }
        k = k + 1;
    }
    assert(sources@.take(sources.len() as int) =~= sources@);
    n
}

/// Picks which source the next candidate comes from: a ticket drawn below
/// the number of candidates, each source holding as many tickets as it has
/// candidates, laid out guided, local, factorial, variance, coverage,
/// random. With no candidates nothing is drawn.
pub fn select_source(sources: &[CandidateSource], rng: &mut SweepRng) -> (r: Option<CandidateSource>)
    ensures
        sources@.len() == 0 ==> r is None && final(rng)@ == old(rng)@,
        sources@.len() > 0 ==> r == source_for_ticket(
            sources@,
            ((xorshift(old(rng)@) as usize) % (sources@.len() as usize)) as nat,
            0,
        ) && final(rng)@ == xorshift(old(rng)@),
        r matches Some(s) ==> source_count(sources@, s) > 0,
{
    let total = sources.len();
    if total == 0 {
        return None;
    }
    let order: Vec<CandidateSource> = vec![
        CandidateSource::Guided,
        CandidateSource::Local,
        CandidateSource::Factorial,
        CandidateSource::Variance,
        CandidateSource::Coverage,
        CandidateSource::Random,
    ];
    assert(order@ =~= source_order());
    let ticket0 = rng.usize(total);
    proof {
        ticket_lands_on_present_source(sources@, ticket0 as nat);
    }
    let mut ticket = ticket0;
    let mut k: usize = 0;
    while k < order.len()
        invariant
            order@ == source_order(),
            k <= 6,
            total == sources@.len(),
            total > 0,
            ticket0 == (xorshift(old(rng)@) as usize) % total,
            rng@ == xorshift(old(rng)@),
            source_for_ticket(sources@, ticket0 as nat, 0) == source_for_ticket(sources@, ticket as nat, k as int),
        decreases 6 - k,
    {
        let count = count_source(sources, order[k]);
        if ticket < count {
            return Some(order[k]);
        }
        ticket = ticket - count;
        k = k + 1;
    }
    None
}

/// The first position of `s` in `sources`.
pub open spec fn first_index_of(sources: Seq<CandidateSource>, s: CandidateSource) -> Option<int>
    decreases sources.len(),
{
    if sources.len() == 0 {
        None
    } else if sources[0] == s {
        Some(0)
    } else {
        match first_index_of(sources.drop_first(), s) {
            Some(i) => Some(i + 1),
            None => None,
        }
    }
}

/// Picks the candidate to run from those ranked, given each one's source:
/// the best-ranked candidate of the source that [`select_source`] draws.
pub fn select_candidate(sources: &[CandidateSource], rng: &mut SweepRng) -> (r: Option<usize>)
    ensures
        sources@.len() == 0 ==> r is None && final(rng)@ == old(rng)@,
        sources@.len() > 0 ==> final(rng)@ == xorshift(old(rng)@) && match source_for_ticket(
            sources@,
            ((xorshift(old(rng)@) as usize) % (sources@.len() as usize)) as nat,
            0,
        ) {
            Some(s) => r == (match first_index_of(sources@, s) {
                Some(i) => Some(i as usize),
                None => Some(0usize),
            }),
            None => r is None,
        },
        r matches Some(i) ==> i < sources@.len(),
{
    let source = match select_source(sources, rng) {
        Some(s) => s,
        None => return None,
    };
    let mut k: usize = 0;
    assert(sources@.skip(0) =~= sources@);
    while k < sources.len()
        invariant
            k <= sources.len(),
            sources@.len() > 0,
            rng@ == xorshift(old(rng)@),
            source_for_ticket(
                sources@,
                ((xorshift(old(rng)@) as usize) % (sources@.len() as usize)) as nat,
                0,
            ) == Some(source),
            source_count(sources@, source) > 0,
            forall|j: int| 0 <= j < k ==> sources@[j] != source,
            first_index_of(sources@, source) == (match first_index_of(sources@.skip(k as int), source) {
                Some(i) => Some(i + k),
                None => None,
            }),
        decreases sources.len() - k,
    {
        assert(sources@.skip(k as int)[0] == sources@[k as int]);
        assert(sources@.skip(k as int).drop_first() =~= sources@.skip(k as int + 1));
        if sources[k] == source {
            return Some(k);
        }
        k = k + 1;
    }
    Some(0)
}


/// How the next candidate is proposed.
#[derive(Clone, Copy, Debug, PartialEq, Eq, Structural)]
pub enum ProposalPhase {
    /// Rerun the measured baseline (raised to the fewest layers).
    Baseline,
    /// Draw an unseen random candidate.
    Random,
    /// Rank a pool of candidates by the response model.
    Model,
}

impl ProposalPhase {
    /// The reason a proposal of this phase is logged under.
    pub fn reason(&self) -> (r: &'static str)
        ensures
            r@ == (match *self {
                ProposalPhase::Baseline => "baseline"@,
                ProposalPhase::Random => "random"@,
                ProposalPhase::Model => "model"@,
            }),
    {
        match self {
            ProposalPhase::Baseline => "baseline",
            ProposalPhase::Random => "random",
            ProposalPhase::Model => "model",
        }
    }
}

/// The phase of the next proposal: the baseline when there is one that has
/// not been seen and whose build is not known to fail (`baseline_fresh`),
/// else random while fewer trials than `random_trials` have an observed
/// loss, else the model.
pub fn proposal_phase(baseline_fresh: bool, completed: usize, random_trials: usize) -> (r: ProposalPhase)
    ensures
        r == (if baseline_fresh {
            ProposalPhase::Baseline
        } else if completed < random_trials {
            ProposalPhase::Random
        } else {
            ProposalPhase::Model
        }),
{
    if baseline_fresh {
        ProposalPhase::Baseline
    } else if completed < random_trials {
        ProposalPhase::Random
    } else {
        ProposalPhase::Model
    }
}

} // verus!
