use vstd::prelude::*;

verus! {

/// How many factors a candidate has, one Halton dimension each.
pub const FACTOR_COUNT: usize = 12;

/// The prime bases of the Halton dimensions, in order.
pub open spec fn halton_bases() -> Seq<u32> {
    seq![2, 3, 5, 7, 11, 13, 17, 19, 23, 29, 31, 37]
}

/// The radical inverse of `index` in `base`, carried on from a fraction
/// `num / den` that holds the digits read so far: each further digit of
/// `index`, lowest first, goes one place further right of the point.
pub open spec fn radical_from(index: nat, base: nat, num: nat, den: nat) -> (nat, nat)
    decreases index,
    via radical_from_decreases
{
    if index == 0 || base < 2 {
        (num, den)
    } else {
        radical_from(index / base, base, num * base + index % base, den * base)
    }
}

#[via_fn]
proof fn radical_from_decreases(index: nat, base: nat, num: nat, den: nat) {
    if index != 0 && base >= 2 {
        assert(index / base < index) by (nonlinear_arith)
            requires
                index > 0,
                base >= 2,
        ;
    }
}

/// The radical inverse of `index` in `base` as a fraction (numerator,
/// denominator): the digits of `index` mirrored behind the point.
pub open spec fn radical_inverse(index: nat, base: nat) -> (nat, nat) {
    radical_from(index, base, 0, 1)
}

/// The radical inverse is a fraction in `[0, 1)`.
pub proof fn radical_inverse_below_one(index: nat, base: nat)
    requires
        base >= 2,
    ensures
        radical_inverse(index, base).0 < radical_inverse(index, base).1,
{
    radical_from_below_one(index, base, 0, 1);
}

proof fn radical_from_below_one(index: nat, base: nat, num: nat, den: nat)
    requires
        base >= 2,
        num < den,
    ensures
        radical_from(index, base, num, den).0 < radical_from(index, base, num, den).1,
    decreases index,
{
    if index > 0 {
        let d = index % base;
        assert(num * base + d < den * base) by (nonlinear_arith)
            requires
                num < den,
                d < base,
        ;
        assert(index / base < index) by (nonlinear_arith)
            requires
                index > 0,
                base >= 2,
        ;
        radical_from_below_one(index / base, base, num * base + d, den * base);
    }
}

/// The radical inverse of `index` in `base`, as (numerator, denominator).
pub fn radical_inverse_fraction(index: usize, base: u32) -> (r: (u128, u128))
    requires
        base >= 2,
    ensures
        (r.0 as nat, r.1 as nat) == radical_inverse(index as nat, base as nat),
        r.0 < r.1,
{
    let b = base as u128;
    let mut rest = index as u128;
    let mut num: u128 = 0;
    let mut den: u128 = 1;
    while rest > 0
        invariant
            b == base,
            b >= 2,
            num < den,
            den * rest <= index,
            rest <= index,
            radical_inverse(index as nat, base as nat) == radical_from(rest as nat, b as nat, num as nat, den as nat),
        decreases rest,
    {
        let d = rest % b;
        assert(den <= index) by (nonlinear_arith)
            requires
                den * rest <= index,
                rest >= 1,
        ;
        assert(den * b <= 0x1_0000_0000_0000_0000u128 * 0x1_0000_0000u128) by (nonlinear_arith)
            requires
                den <= index,
                index <= 0xffff_ffff_ffff_ffffu128,
                b <= 0xffff_ffffu128,
        ;
        assert(num * b + d < den * b) by (nonlinear_arith)
            requires
                num < den,
                d < b,
        ;
        assert((den * b) * (rest / b) <= den * rest) by (nonlinear_arith)
            requires
                b >= 2,
        {
            assert(b * (rest / b) <= rest) by (nonlinear_arith)
                requires b >= 2;
        }
        assert(rest / b < rest) by (nonlinear_arith)
            requires
                rest > 0,
                b >= 2,
        ;
        num = num * b + d;
        den = den * b;
        rest = rest / b;
    }
    proof {
        radical_inverse_below_one(index as nat, base as nat);
    }
    (num, den)
}

/// The Halton point of `index`: its radical inverse in each of the twelve
/// prime bases, each as (numerator, denominator).
pub fn halton_units(index: usize) -> (r: Vec<(u128, u128)>)
    ensures
        r@.len() == FACTOR_COUNT,
        forall|k: int|
            0 <= k < FACTOR_COUNT ==> ((#[trigger] r@[k]).0 as nat, r@[k].1 as nat) == radical_inverse(
                index as nat,
                halton_bases()[k] as nat,
            ),
{
    let bases: Vec<u32> = vec![2, 3, 5, 7, 11, 13, 17, 19, 23, 29, 31, 37];
    assert(bases@ =~= halton_bases());
    let mut r: Vec<(u128, u128)> = Vec::new();
    let mut k: usize = 0;
    while k < bases.len()
        invariant
            bases@ == halton_bases(),
            k <= bases.len(),
            r@.len() == k,
            forall|j: int|
                0 <= j < k ==> ((#[trigger] r@[j]).0 as nat, r@[j].1 as nat) == radical_inverse(
                    index as nat,
                    halton_bases()[j] as nat,
                ),
        decreases bases.len() - k,
    {
        r.push(radical_inverse_fraction(index, bases[k]));
        k = k + 1;
    }
    r
}

} // verus!
