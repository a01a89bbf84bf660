//! Decimal integers in text, read as Rust's `FromStr` for `u64` and `i32`
//! reads them: an optional sign, then one or more ASCII digits, in range.
use crate::text::chars_of;
use vstd::prelude::*;

verus! {

pub open spec fn is_digit(c: char) -> bool {
    '0' <= c <= '9'
}

pub open spec fn all_digits(cs: Seq<char>) -> bool {
    forall|i: int| 0 <= i < cs.len() ==> is_digit(#[trigger] cs[i])
}

/// The number that the decimal digits `cs` stand for.
pub open spec fn digits_value(cs: Seq<char>) -> nat
    decreases cs.len(),
{
    if cs.len() == 0 {
        0
    } else {
        digits_value(cs.drop_last()) * 10 + ((cs.last() as nat) - ('0' as nat)) as nat
    }
}

/// Whether `cs` is one or more digits for a number of at most `limit`.
pub open spec fn digits_within(cs: Seq<char>, limit: nat) -> bool {
    cs.len() > 0 && all_digits(cs) && digits_value(cs) <= limit
}

/// What `u64::from_str` gives for `cs`: an optional `+`, then digits of a
/// number that fits in 64 bits.
pub open spec fn spec_parse_u64(cs: Seq<char>) -> Option<u64> {
    let digits = if cs.len() > 0 && cs[0] == '+' {
        cs.drop_first()
    } else {
        cs
    };
    if digits_within(digits, u64::MAX as nat) {
        Some(digits_value(digits) as u64)
    } else {
        None
    }
}

/// What `i32::from_str` gives for `cs`: an optional `+` or `-`, then digits
/// of a number in the range of `i32`.
pub open spec fn spec_parse_i32(cs: Seq<char>) -> Option<i32> {
    if cs.len() > 0 && cs[0] == '-' {
        if digits_within(cs.drop_first(), 0x8000_0000) {
            Some((-(digits_value(cs.drop_first()) as int)) as i32)
        } else {
            None
        }
    } else {
        let digits = if cs.len() > 0 && cs[0] == '+' {
            cs.drop_first()
        } else {
            cs
        };
        if digits_within(digits, 0x7fff_ffff) {
            Some(digits_value(digits) as i32)
        } else {
            None
        }
    }
}

/// A longer run of digits stands for a number at least as large.
proof fn lemma_digits_value_grows(cs: Seq<char>, j: int, k: int)
    requires
        0 <= j <= k <= cs.len(),
        all_digits(cs),
    ensures
        digits_value(cs.take(j)) <= digits_value(cs.take(k)),
    decreases k - j,
{
    if j < k {
        lemma_digits_value_grows(cs, j, k - 1);
        assert(cs.take(k).drop_last() =~= cs.take(k - 1));
        assert(is_digit(cs[k - 1]));
    }
}

/// The number that the digits of `cs` from `start` stand for, if they are
/// one or more digits and the number is at most `limit`.
fn digits_value_within(cs: &[char], start: usize, limit: u64) -> (r: Option<u64>)
    requires
        start <= cs@.len(),
        limit >= 9,
    ensures
        match r {
            Some(v) => digits_within(cs@.skip(start as int), limit as nat) && v == digits_value(
                cs@.skip(start as int),
            ),
            None => !digits_within(cs@.skip(start as int), limit as nat),
        },
{
    let ghost digits = cs@.skip(start as int);
    let len = cs.len();
    if start >= len {
        return None;
    }
    let mut acc: u64 = 0;
    let mut i: usize = start;
    while i < len
        invariant
            start <= i <= len == cs@.len(),
            digits == cs@.skip(start as int),
            all_digits(digits.take(i - start)),
            acc == digits_value(digits.take(i - start)),
            acc <= limit,
            limit >= 9,
        decreases len - i,
    {
        let c = cs[i];
        let ghost k = (i - start) as int;
        assert(digits[k] == c);
        if !('0' <= c && c <= '9') {
            assert(!all_digits(digits));
            return None;
        }
        let d = (c as u32 - '0' as u32) as u64;
        assert(digits.take(k + 1).drop_last() =~= digits.take(k));
        if acc > (limit - d) / 10 {
            assert(acc * 10 + d > limit) by (nonlinear_arith)
                requires
                    acc > (limit - d) / 10,
                    d <= 9,
                    limit >= 9,
            ;
            proof {
                if all_digits(digits) {
                    lemma_digits_value_grows(digits, k + 1, digits.len() as int);
                    assert(digits.take(digits.len() as int) =~= digits);
                }
            }
            return None;
        }
        assert(acc * 10 + d <= limit) by (nonlinear_arith)
            requires
                acc <= (limit - d) / 10,
                d <= 9,
                limit >= 9,
        ;
        acc = acc * 10 + d;
        i = i + 1;
        assert forall|m: int| 0 <= m < k + 1 implies is_digit(#[trigger] digits.take(k + 1)[m]) by {
            if m < k {
                assert(digits.take(k + 1)[m] == digits.take(k)[m]);
            }
        }
    }
    assert(digits.take(len - start) =~= digits);
    Some(acc)
}

/// Reads `text` as `u64::from_str` does.
pub fn parse_u64(text: &str) -> (r: Option<u64>)
    ensures
        r == spec_parse_u64(text@),
{
    let cs = chars_of(text);
    let start: usize = if cs.len() > 0 && cs[0] == '+' {
        1
    } else {
        0
    };
    assert(cs@.skip(1) =~= cs@.drop_first());
    assert(cs@.skip(0) =~= cs@);
    digits_value_within(cs.as_slice(), start, u64::MAX)
}

/// Reads `text` as `i32::from_str` does.
pub fn parse_i32(text: &str) -> (r: Option<i32>)
    ensures
        r == spec_parse_i32(text@),
{
    let cs = chars_of(text);
    assert(cs@.skip(1) =~= cs@.drop_first());
    assert(cs@.skip(0) =~= cs@);
    if cs.len() > 0 && cs[0] == '-' {
        match digits_value_within(cs.as_slice(), 1, 0x8000_0000) {
            Some(v) => Some((-(v as i64)) as i32),
            None => None,
        }
    } else {
        let start: usize = if cs.len() > 0 && cs[0] == '+' {
            1
        } else {
            0
        };
        match digits_value_within(cs.as_slice(), start, 0x7fff_ffff) {
            Some(v) => Some(v as i32),
            None => None,
        }
    }
}

} // verus!
