//! Base-10 token parsing for the numeric argument kinds.
//!
//! A `Number` argument is a signed 64-bit integer and a `User` argument is an
//! unsigned 64-bit identifier. A signed token is an optional leading sign
//! (`+` or `-`) followed by one or more ASCII digits; an unsigned token is
//! bare digits with no sign at all. In both cases the value must fit in the
//! target type, and any other character fails the whole token.

use vstd::prelude::*;

verus! {

/// Whether `c` is an ASCII decimal digit.
pub open spec fn spec_is_digit(c: char) -> bool {
    48 <= c as u32 <= 57
}

/// The numeric value of an ASCII decimal digit.
pub open spec fn spec_digit_val(c: char) -> int {
    c as u32 - 48
}

/// Every character of `s` is an ASCII decimal digit.
pub open spec fn all_digits(s: Seq<char>) -> bool {
    forall|i: int| 0 <= i < s.len() ==> spec_is_digit(#[trigger] s[i])
}

/// The base-10 value of a digit sequence, most significant digit first.
pub open spec fn digits_val(s: Seq<char>) -> int
    decreases s.len(),
{
    if s.len() == 0 {
        0
    } else {
        digits_val(s.drop_last()) * 10 + spec_digit_val(s.last())
    }
}

/// The value an unsigned 64-bit parse of `s` yields: one or more digits
/// and the value at most `u64::MAX`. No leading sign is accepted, neither
/// `-` nor `+`.
pub open spec fn spec_parse_u64(s: Seq<char>) -> Option<u64> {
    if s.len() > 0 && all_digits(s) && digits_val(s) <= u64::MAX {
        Some(digits_val(s) as u64)
    } else {
        None
    }
}

/// The value a signed 64-bit parse of `s` yields: an optional leading `+`
/// or `-`, then one or more digits, and the signed value within `i64` range.
pub open spec fn spec_parse_i64(s: Seq<char>) -> Option<i64> {
    if s.len() == 0 {
        None
    } else {
        let neg = s[0] == '-';
        let body = if s[0] == '-' || s[0] == '+' {
            s.drop_first()
        } else {
            s
        };
        let value = if neg {
            -digits_val(body)
        } else {
            digits_val(body)
        };
        if body.len() > 0 && all_digits(body) && i64::MIN <= value <= i64::MAX {
            Some(value as i64)
        } else {
            None
        }
    }
}

proof fn lemma_digits_val_nonneg(s: Seq<char>)
    requires
        all_digits(s),
    ensures
        digits_val(s) >= 0,
    decreases s.len(),
{
    if s.len() > 0 {
        let u = s.drop_last();
        assert(forall|i: int| 0 <= i < u.len() ==> u[i] == s[i]);
        lemma_digits_val_nonneg(u);
        assert(spec_is_digit(s[s.len() - 1]));
    }
}

/// The value of a digit string is at least the value of any of its prefixes.
proof fn lemma_digits_val_prefix(s: Seq<char>, k: int)
    requires
        all_digits(s),
        0 <= k <= s.len(),
    ensures
        digits_val(s.subrange(0, k)) <= digits_val(s),
    decreases s.len(),
{
    if k == s.len() {
        assert(s.subrange(0, k) =~= s);
    } else {
        let u = s.drop_last();
        assert(forall|i: int| 0 <= i < u.len() ==> u[i] == s[i]);
        lemma_digits_val_prefix(u, k);
        assert(s.subrange(0, k) =~= u.subrange(0, k));
        lemma_digits_val_nonneg(u);
        assert(spec_is_digit(s[s.len() - 1]));
    }
}

/// The value of the digit run `s[start..]`, if it is non-empty, all digits,
/// and at most `limit`.
pub open spec fn bounded_digit_run(body: Seq<char>, limit: u64) -> Option<u64> {
    if body.len() > 0 && all_digits(body) && digits_val(body) <= limit {
        Some(digits_val(body) as u64)
    } else {
        None
    }
}

fn parse_digit_run(s: &str, start: usize, limit: u64) -> (r: Option<u64>)
    requires
        start <= s@.len(),
    ensures
        r == bounded_digit_run(s@.subrange(start as int, s@.len() as int), limit),
{
    let ghost body = s@.subrange(start as int, s@.len() as int);
    let n: usize = s.unicode_len();
    if start == n {
        return None;
    }
    let mut acc: u64 = 0;
    let mut i: usize = start;
    while i < n
        invariant
            n == s@.len(),
            start <= i <= n,
            body == s@.subrange(start as int, n as int),
            all_digits(s@.subrange(start as int, i as int)),
            acc == digits_val(s@.subrange(start as int, i as int)),
            acc <= limit,
        decreases n - i,
    {
        let ghost prefix = s@.subrange(start as int, i as int);
        let c = s.get_char(i);
        let cu: u32 = c as u32;
        if cu < 48 || 57 < cu {
            proof {
                assert(body[i - start] == s@[i as int]);
                assert(!spec_is_digit(body[i - start]));
            }
            return None;
        }
        let d: u64 = (cu - 48) as u64;
        let ghost grown = s@.subrange(start as int, i + 1);
        proof {
            assert(grown.drop_last() =~= prefix);
            assert(grown.last() == s@[i as int]);
            assert(forall|j: int| 0 <= j < grown.len() ==> grown[j] == #[trigger] prefix.push(s@[i as int])[j]);
            assert(digits_val(grown) == acc * 10 + d);
        }
        let wide: u128 = (acc as u128) * 10 + (d as u128);
        if wide > (limit as u128) {
            proof {
                if all_digits(body) {
                    assert(body.subrange(0, i + 1 - start) =~= grown);
                    lemma_digits_val_prefix(body, i + 1 - start);
                }
            }
            return None;
        }
        acc = wide as u64;
        i = i + 1;
        proof {
            assert(s@.subrange(start as int, i as int) =~= grown);
        }
    }
    proof {
        assert(s@.subrange(start as int, i as int) =~= body);
        lemma_digits_val_nonneg(body);
    }
    Some(acc)
}

/// Parses an unsigned base-10 token: one or more ASCII digits, no sign;
/// fails on any other character or on overflow.
pub fn parse_u64_token(s: &str) -> (r: Option<u64>)
    ensures
        r == spec_parse_u64(s@),
{
    let r = parse_digit_run(s, 0, u64::MAX);
    proof {
        assert(s@.subrange(0, s@.len() as int) =~= s@);
    }
    r
}

/// Parses a signed base-10 token: an optional leading `+` or `-`, then one
/// or more ASCII digits; fails on any other character or on overflow.
pub fn parse_i64_token(s: &str) -> (r: Option<i64>)
    ensures
        r == spec_parse_i64(s@),
{
    let n: usize = s.unicode_len();
    if n == 0 {
        return None;
    }
    let c0 = s.get_char(0);
    let neg = c0 == '-';
    let start: usize = if c0 == '-' || c0 == '+' {
        1
    } else {
        0
    };
    let ghost body = s@.subrange(start as int, s@.len() as int);
    proof {
        if start == 1 {
            assert(body =~= s@.drop_first());
        } else {
            assert(body =~= s@);
        }
        if all_digits(body) {
            lemma_digits_val_nonneg(body);
        }
    }
    if neg {
        match parse_digit_run(s, start, 9223372036854775808u64) {
            None => None,
            Some(mag) => {
                if mag == 9223372036854775808u64 {
                    Some(i64::MIN)
                } else {
                    Some(-(mag as i64))
                }
            },
        }
    } else {
        match parse_digit_run(s, start, 9223372036854775807u64) {
            None => None,
            Some(mag) => Some(mag as i64),
        }
    }
}

} // verus!
