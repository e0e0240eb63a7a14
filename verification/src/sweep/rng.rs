use vstd::prelude::*;

verus! {

/// One xorshift step (shifts 13, 7, 17) of the sweep's generator.
pub open spec fn xorshift(x: u64) -> u64 {
    let a = x ^ (x << 13u64);
    let b = a ^ (a >> 7u64);
    b ^ (b << 17u64)
}

/// A xorshift step never turns a state that is not zero into zero, so the
/// generator never sticks.
pub proof fn xorshift_keeps_nonzero(x: u64)
    requires
        x != 0,
    ensures
        xorshift(x) != 0,
{
    let a = x ^ (x << 13u64);
    let b = a ^ (a >> 7u64);
    assert(a != 0) by (bit_vector)
        requires
            x != 0,
            a == x ^ (x << 13u64),
    ;
    assert(b != 0) by (bit_vector)
        requires
            a != 0,
            b == a ^ (a >> 7u64),
    ;
    assert(b ^ (b << 17u64) != 0) by (bit_vector)
        requires
            b != 0,
    ;
}

/// The value a draw takes from `values` when the generator yields `x`.
pub open spec fn pick<T>(values: Seq<T>, x: u64) -> T {
    values[((x as usize) % (values.len() as usize)) as int]
}

/// The sweep's pseudo-random generator: a xorshift state that is never zero.
#[derive(Clone, Copy, Debug)]
pub struct SweepRng {
    state: u64,
}

impl View for SweepRng {
    type V = u64;

    closed spec fn view(&self) -> u64 {
        self.state
    }
}

impl SweepRng {
    #[verifier::type_invariant]
    spec fn nonzero(self) -> bool {
        self.state != 0
    }

    /// A generator seeded with `seed`; a zero seed counts as 1.
    pub fn new(seed: u64) -> (r: SweepRng)
        ensures
            r@ == if seed == 0 { 1 } else { seed },
    {
        SweepRng { state: if seed > 1 { seed } else { 1 } }
    }

    /// The next 64 bits: one xorshift step of the state, which becomes the
    /// new state.
    pub fn next_u64(&mut self) -> (r: u64)
        ensures
            r == xorshift(old(self)@),
            final(self)@ == r,
            r != 0,
    {
        proof {
            use_type_invariant(&*self);
            xorshift_keeps_nonzero(self.state);
        }
        let mut x = self.state;
        x = x ^ (x << 13u64);
        x = x ^ (x >> 7u64);
        x = x ^ (x << 17u64);
        self.state = x;
        x
    }

    /// A number below `upper`: the next draw modulo `upper`.
    pub fn usize(&mut self, upper: usize) -> (r: usize)
        requires
            upper > 0,
        ensures
            r == (xorshift(old(self)@) as usize) % upper,
            r < upper,
            final(self)@ == xorshift(old(self)@),
    {
        (self.next_u64() as usize) % upper
    }

    /// One of `values`, at the index the next draw gives.
    pub fn choose_value<T: Copy>(&mut self, values: &[T]) -> (r: T)
        requires
            values@.len() > 0,
        ensures
            r == pick(values@, xorshift(old(self)@)),
            final(self)@ == xorshift(old(self)@),
    {
        values[self.usize(values.len())]
    }
}

/// A number in `low..=high`, drawn as `low` plus a draw below the width.
pub fn random_usize_range(rng: &mut SweepRng, low: usize, high: usize) -> (r: usize)
    requires
        low <= high < usize::MAX,
    ensures
        r == low + (xorshift(old(rng)@) as usize) % ((high - low + 1) as usize),
        low <= r <= high,
        final(rng)@ == xorshift(old(rng)@),
{
    low + rng.usize(high - low + 1)
}

} // verus!
