//! Reading unsigned decimal numbers the way `str::parse` does for unsigned
//! integer types: an optional `+`, then one or more ASCII digits, and a
//! value that fits the type.
use vstd::prelude::*;

verus! {

/// `c` is an ASCII digit.
pub open spec fn is_digit(c: u8) -> bool {
    0x30 <= c <= 0x39
}

/// Every byte of `s` is an ASCII digit.
pub open spec fn all_digits(s: Seq<u8>) -> bool {
    forall|i: int| 0 <= i < s.len() ==> is_digit(#[trigger] s[i])
}

/// The value of the decimal digits `s`, most significant first.
pub open spec fn digits_value(s: Seq<u8>) -> nat
    decreases s.len(),
{
    if s.len() == 0 {
        0
    } else {
        digits_value(s.drop_last()) * 10 + (s.last() - 0x30) as nat
    }
}

/// `s` without its leading `+`, if it has one.
pub open spec fn unsigned_digits(s: Seq<u8>) -> Seq<u8> {
    if s.len() > 0 && s[0] == 0x2b {
        s.drop_first()
    } else {
        s
    }
}

/// The number `s` spells when read as an unsigned decimal no greater than
/// `max`: `None` when `s` is empty, holds anything but an optional leading
/// `+` and digits, has no digit, or spells a number above `max`.
pub open spec fn decimal_value(s: Seq<u8>, max: nat) -> Option<nat> {
    let d = unsigned_digits(s);
    if d.len() > 0 && all_digits(d) && digits_value(d) <= max {
        Some(digits_value(d))
    } else {
        None
    }
}

/// Appending digits never makes a number smaller.
pub proof fn lemma_digits_value_prefix(s: Seq<u8>, k: int)
    requires
        all_digits(s),
        0 <= k <= s.len(),
    ensures
        digits_value(s.take(k)) <= digits_value(s),
    decreases s.len(),
{
    if k < s.len() {
        let init = s.drop_last();
        assert(all_digits(init)) by {
            assert forall|i: int| 0 <= i < init.len() implies is_digit(#[trigger] init[i]) by {
                assert(init[i] == s[i]);
            }
        }
        lemma_digits_value_prefix(init, k);
        assert(init.take(k) =~= s.take(k));
    } else {
        assert(s.take(k) =~= s);
    }
}

/// Reads `s` as an unsigned decimal no greater than `max`.
pub fn parse_unsigned(s: &[u8], max: u64) -> (r: Option<u64>)
    ensures
        match decimal_value(s@, max as nat) {
            Some(v) => r == Some(v as u64),
            None => r is None,
        },
{
    let start: usize = if s.len() > 0 && s[0] == 0x2b {
        1
    } else {
        0
    };
    let ghost d = unsigned_digits(s@);
    assert(d =~= s@.subrange(start as int, s@.len() as int));
    if start == s.len() {
        return None;
    }
    let mut value: u64 = 0;
    let mut i: usize = start;
    while i < s.len()
        invariant
            start <= i <= s@.len(),
            d == s@.subrange(start as int, s@.len() as int),
            d == unsigned_digits(s@),
            all_digits(d.take(i - start)),
            value as nat == digits_value(d.take(i - start)),
            value <= max,
        decreases s@.len() - i,
    {
        let c = s[i];
        let k = i - start;
        assert(d[k as int] == c);
        assert(d.take(k + 1).drop_last() =~= d.take(k as int));
        assert(d.take(k + 1).last() == c);
        if c < 0x30 || c > 0x39 {
            assert(!all_digits(d)) by {
                assert(!is_digit(d[k as int]));
            }
            return None;
        }
        let digit = (c - 0x30) as u64;
        assert(all_digits(d.take(k + 1))) by {
            assert forall|j: int| 0 <= j < d.take(k + 1).len() implies is_digit(
                #[trigger] d.take(k + 1)[j],
            ) by {
                if j < k {
                    assert(d.take(k + 1)[j] == d.take(k as int)[j]);
                }
            }
        }
        assert(digits_value(d.take(k + 1)) == value * 10 + digit);
        if digit > max || value > (max - digit) / 10 {
            assert(value * 10 + digit > max) by (nonlinear_arith)
                requires
                    digit > max || value > (max - digit) / 10,
                    digit <= 9,
            ;
            proof {
                if all_digits(d) {
                    lemma_digits_value_prefix(d, k + 1);
                }
            }
            return None;
        }
        assert(value * 10 + digit <= max) by (nonlinear_arith)
            requires
                digit <= max,
                value <= (max - digit) / 10,
        ;
        value = value * 10 + digit;
        i = i + 1;
    }
    assert(d.take(i - start) =~= d);
    Some(value)
}

/// Reads `s` as a `u32` the way `str::parse::<u32>` does.
pub fn parse_u32(s: &[u8]) -> (r: Option<u32>)
    ensures
        match decimal_value(s@, u32::MAX as nat) {
            Some(v) => r == Some(v as u32),
            None => r is None,
        },
{
    match parse_unsigned(s, u32::MAX as u64) {
        Some(v) => Some(v as u32),
        None => None,
    }
}

/// Reads `s` as a `usize` the way `str::parse::<usize>` does.
pub fn parse_usize(s: &[u8]) -> (r: Option<usize>)
    ensures
        match decimal_value(s@, usize::MAX as nat) {
            Some(v) => r == Some(v as usize),
            None => r is None,
        },
{
    match parse_unsigned(s, usize::MAX as u64) {
        Some(v) => Some(v as usize),
        None => None,
    }
}

} // verus!
