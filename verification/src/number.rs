use vstd::prelude::*;

use crate::text::{chars_of, digit_char, spec_decimal};

verus! {

/// The value of `c` as a digit in base `radix` (2 to 36), if it is one:
/// `0`-`9`, then `a`-`z` or `A`-`Z` for ten and up.
pub open spec fn digit_in(c: char, radix: nat) -> Option<nat> {
    let n = c as u32;
    let d: int = if 0x30 <= n <= 0x39 {
        n - 0x30
    } else if 0x61 <= n <= 0x7a {
        n - 0x61 + 10
    } else if 0x41 <= n <= 0x5a {
        n - 0x41 + 10
    } else {
        99
    };
    if d < radix {
        Some(d as nat)
    } else {
        None
    }
}

/// Whether every character of `s` is a digit in base `radix`.
pub open spec fn all_digits(s: Seq<char>, radix: nat) -> bool {
    forall|k: int| 0 <= k < s.len() ==> (#[trigger] digit_in(s[k], radix)) is Some
}

/// The number that the digits `s` denote in base `radix`.
pub open spec fn digits_value_in(s: Seq<char>, radix: nat) -> nat
    decreases s.len(),
{
    if s.len() == 0 {
        0
    } else {
        digits_value_in(s.drop_last(), radix) * radix + match digit_in(s.last(), radix) {
            Some(d) => d,
            None => 0,
        }
    }
}

/// The digits of an unsigned number's text: one leading `+` is allowed.
pub open spec fn unsigned_digits(s: Seq<char>) -> Seq<char> {
    if s.len() > 0 && s[0] == '+' {
        s.drop_first()
    } else {
        s
    }
}

/// What `from_str_radix` gives for an unsigned type whose largest value is
/// `max`: the number, if the text is an optional `+` and at least one digit,
/// and the number fits.
pub open spec fn parse_unsigned(s: Seq<char>, radix: nat, max: nat) -> Option<nat> {
    let d = unsigned_digits(s);
    if d.len() > 0 && all_digits(d, radix) && digits_value_in(d, radix) <= max {
        Some(digits_value_in(d, radix))
    } else {
        None
    }
}

proof fn digits_value_prefix_grows(s: Seq<char>, radix: nat, i: int)
    requires
        radix >= 1,
        0 <= i <= s.len(),
    ensures
        digits_value_in(s.take(i), radix) <= digits_value_in(s, radix),
    decreases s.len() - i,
{
    if i < s.len() {
        digits_value_prefix_grows(s, radix, i + 1);
        let t = s.take(i + 1);
        assert(t.drop_last() =~= s.take(i));
        let v = digits_value_in(s.take(i), radix);
        assert(v * radix >= v) by (nonlinear_arith)
            requires
                radix >= 1,
        ;
    } else {
        assert(s.take(i) =~= s);
    }
}

fn digit_of(c: char, radix: u32) -> (r: Option<u64>)
    requires
        2 <= radix <= 36,
    ensures
        match digit_in(c, radix as nat) {
            Some(d) => r == Some(d as u64),
            None => r is None,
        },
{
    let n = c as u32;
    let d: u32 = if 0x30 <= n && n <= 0x39 {
        n - 0x30
    } else if 0x61 <= n && n <= 0x7a {
        n - 0x61 + 10
    } else if 0x41 <= n && n <= 0x5a {
        n - 0x41 + 10
    } else {
        99
    };
    if d < radix {
        Some(d as u64)
    } else {
        None
    }
}

/// `u64::from_str_radix` on a character vector.
pub fn parse_u64_chars(v: &Vec<char>, radix: u32) -> (r: Option<u64>)
    requires
        2 <= radix <= 36,
    ensures
        r == (match parse_unsigned(v@, radix as nat, u64::MAX as nat) {
            Some(n) => Some(n as u64),
            None => None::<u64>,
        }),
{
    let start: usize = if v.len() > 0 && v[0] == '+' { 1 } else { 0 };
    let ghost d = unsigned_digits(v@);
    assert(d =~= v@.subrange(start as int, v.len() as int));
    if start == v.len() {
        return None;
    }
    let mut acc: u64 = 0;
    let mut k = start;
    while k < v.len()
        invariant
            start <= k <= v.len(),
            d == v@.subrange(start as int, v.len() as int),
            d == unsigned_digits(v@),
            2 <= radix <= 36,
            all_digits(d.take(k - start), radix as nat),
            acc == digits_value_in(d.take(k - start), radix as nat),
        decreases v.len() - k,
    {
        let i = k - start;
        assert(d.take(i + 1).drop_last() =~= d.take(i as int));
        assert(d.take(i + 1).last() == v@[k as int]);
        match digit_of(v[k], radix) {
            None => {
                assert(d[i as int] == v@[k as int]);
                assert(digit_in(d[i as int], radix as nat) is None);
                return None;
            },
            Some(dig) => {
                assert(acc as u128 * radix as u128 <= 36 * u64::MAX as u128) by (nonlinear_arith)
                    requires
                        radix <= 36,
                ;
                let wide: u128 = acc as u128 * radix as u128 + dig as u128;
                assert(wide == digits_value_in(d.take(i + 1), radix as nat)) by (nonlinear_arith)
                    requires
                        wide == acc as u128 * radix as u128 + dig as u128,
                        acc == digits_value_in(d.take(i as int), radix as nat),
                        digits_value_in(d.take(i + 1), radix as nat) == digits_value_in(
                            d.take(i as int),
                            radix as nat,
                        ) * radix + dig,
                ;
                if wide > u64::MAX as u128 {
                    proof {
                        digits_value_prefix_grows(d, radix as nat, i + 1);
                    }
                    return None;
                }
                acc = wide as u64;
                assert forall|j: int| 0 <= j < d.take(i + 1).len() implies (#[trigger] digit_in(
                    d.take(i + 1)[j],
                    radix as nat,
                )) is Some by {
                    if j < i {
                        assert(d.take(i + 1)[j] == d.take(i as int)[j]);
                    }
                }
            },
        }
        k = k + 1;
    }
    assert(d.take(v.len() - start) =~= d);
    Some(acc)
}

/// `str::parse::<usize>()`: decimal digits after an optional `+`, within range.
pub fn parse_usize(s: &str) -> (r: Option<usize>)
    ensures
        r == (match parse_unsigned(s@, 10, usize::MAX as nat) {
            Some(n) => Some(n as usize),
            None => None::<usize>,
        }),
{
    let v = chars_of(s);
    match parse_u64_chars(&v, 10) {
        Some(n) => {
            if n as u128 <= usize::MAX as u128 {
                Some(n as usize)
            } else {
                None
            }
        },
        None => {
            proof {
                if parse_unsigned(s@, 10, usize::MAX as nat) is Some {
                    assert(usize::MAX <= u64::MAX);
                }
            }
            None
        },
    }
}

/// `str::parse::<u64>()`.
pub fn parse_u64(s: &str) -> (r: Option<u64>)
    ensures
        r == (match parse_unsigned(s@, 10, u64::MAX as nat) {
            Some(n) => Some(n as u64),
            None => None::<u64>,
        }),
{
    let v = chars_of(s);
    parse_u64_chars(&v, 10)
}


proof fn digit_char_reads_back(d: nat)
    requires
        d < 10,
    ensures
        digit_in(digit_char(d), 10) == Some(d),
{
}

proof fn decimal_digits_value(n: nat)
    ensures
        all_digits(spec_decimal(n), 10),
        digits_value_in(spec_decimal(n), 10) == n,
        spec_decimal(n).len() > 0,
        spec_decimal(n)[0] != '+',
    decreases n,
{
    if n < 10 {
        digit_char_reads_back(n);
        assert(spec_decimal(n).drop_last() =~= Seq::<char>::empty());
        assert(digits_value_in(Seq::<char>::empty(), 10) == 0);
        assert(spec_decimal(n).last() == digit_char(n));
    } else {
        decimal_digits_value(n / 10);
        digit_char_reads_back(n % 10);
        let d = spec_decimal(n / 10);
        assert(spec_decimal(n).drop_last() =~= d);
        assert(spec_decimal(n).last() == digit_char(n % 10));
        assert(digits_value_in(spec_decimal(n), 10) == digits_value_in(d, 10) * 10 + n % 10);
        assert((n / 10) * 10 + n % 10 == n);
        assert(spec_decimal(n)[0] == d[0]);
        assert forall|k: int| 0 <= k < spec_decimal(n).len() implies (#[trigger] digit_in(
            spec_decimal(n)[k],
            10,
        )) is Some by {
            if k < d.len() {
                assert(spec_decimal(n)[k] == d[k]);
            }
        }
    }
}

/// A whole number written in decimal reads back as itself.
pub proof fn decimal_reads_back(n: nat, max: nat)
    requires
        n <= max,
    ensures
        parse_unsigned(spec_decimal(n), 10, max) == Some(n),
{
    decimal_digits_value(n);
}

} // verus!
