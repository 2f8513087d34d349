//! Verified parsing of decimal integer tokens.
//!
//! `parse_u32` and `parse_i32` accept exactly the strings that consist of an
//! optional sign (`+` for unsigned, `+` or `-` for signed) followed by one or
//! more decimal digits, with the value in range for the target type.

use vstd::prelude::*;

verus! {

/// Whether `c` is a decimal digit.
pub open spec fn is_digit(c: char) -> bool {
    '0' <= c && c <= '9'
}

/// Numeric value of a digit character (meaningful only when `is_digit(c)`).
pub open spec fn char_digit(c: char) -> int {
    c as int - '0' as int
}

/// Whether every character of `s` is a decimal digit and there is at least one.
pub open spec fn all_digits(s: Seq<char>) -> bool {
    forall|i: int| 0 <= i < s.len() ==> is_digit(s[i])
}

/// The value of `s` read as a decimal numeral, most significant digit first.
pub open spec fn dec_value(s: Seq<char>) -> int
    decreases s.len(),
{
    if s.len() == 0 {
        0
    } else {
        dec_value(s.drop_last()) * 10 + char_digit(s.last())
    }
}

/// The value an unsigned 32-bit decimal token denotes: an optional `+` sign,
/// then one or more digits, denoting a value of at most `u32::MAX`.
pub open spec fn spec_parse_u32(s: Seq<char>) -> Option<u32> {
    let body = if s.len() > 0 && s[0] == '+' {
        s.subrange(1, s.len() as int)
    } else {
        s
    };
    if body.len() > 0 && all_digits(body) && dec_value(body) <= u32::MAX {
        Some(dec_value(body) as u32)
    } else {
        None
    }
}

/// The value a signed 32-bit decimal token denotes: an optional `+` or `-`
/// sign, then one or more digits, denoting a value in `i32`'s range.
pub open spec fn spec_parse_i32(s: Seq<char>) -> Option<i32> {
    let signed = s.len() > 0 && (s[0] == '+' || s[0] == '-');
    let body = if signed {
        s.subrange(1, s.len() as int)
    } else {
        s
    };
    let value = if signed && s[0] == '-' {
        -dec_value(body)
    } else {
        dec_value(body)
    };
    if body.len() > 0 && all_digits(body) && i32::MIN <= value && value <= i32::MAX {
        Some(value as i32)
    } else {
        None
    }
}

proof fn lemma_dec_value_nonneg(s: Seq<char>)
    requires
        all_digits(s),
    ensures
        dec_value(s) >= 0,
    decreases s.len(),
{
    if s.len() > 0 {
        assert(all_digits(s.drop_last()));
        lemma_dec_value_nonneg(s.drop_last());
    }
}

/// Extending a digit string on the right never decreases its value.
proof fn lemma_dec_value_monotone(s: Seq<char>, a: int, i: int, j: int)
    requires
        0 <= a <= i <= j <= s.len(),
        forall|k: int| a <= k < j ==> is_digit(s[k]),
    ensures
        dec_value(s.subrange(a, j)) >= dec_value(s.subrange(a, i)),
    decreases j - i,
{
    if j > i {
        lemma_dec_value_monotone(s, a, i, j - 1);
        let prev = s.subrange(a, j - 1);
        assert(s.subrange(a, j).drop_last() =~= prev);
        assert(all_digits(prev));
        lemma_dec_value_nonneg(prev);
    }
}

/// Once the digits read so far exceed the bound, the whole body does too,
/// so the token denotes no value in range.
proof fn lemma_prefix_exceeds(s: Seq<char>, a: int, i: int, bound: int)
    requires
        0 <= a <= i <= s.len(),
        dec_value(s.subrange(a, i)) > bound,
        bound >= 0,
    ensures
        !(all_digits(s.subrange(a, s.len() as int)) && dec_value(
            s.subrange(a, s.len() as int),
        ) <= bound),
{
    let body = s.subrange(a, s.len() as int);
    if all_digits(body) && dec_value(body) <= bound {
        assert forall|k: int| a <= k < s.len() implies is_digit(s[k]) by {
            assert(body[k - a] == s[k]);
        }
        lemma_dec_value_monotone(s, a, i, s.len() as int);
    }
}

/// Reads the digits of `s` from position `start` on as a decimal number.
/// Returns `None` when a non-digit occurs, nothing follows `start`, or the
/// value exceeds `bound`; otherwise the value, which is at most `bound`.
fn accumulate_digits(s: &str, start: usize, n: usize, bound: u32) -> (r: Option<u64>)
    requires
        start <= n,
        n == s@.len(),
    ensures
        ({
            let body = s@.subrange(start as int, n as int);
            match r {
                Some(v) => body.len() > 0 && all_digits(body) && v == dec_value(body) && v
                    <= bound,
                None => !(body.len() > 0 && all_digits(body) && dec_value(body) <= bound),
            }
        }),
{
    let ghost body = s@.subrange(start as int, n as int);
    if start == n {
        return None;
    }
    let mut acc: u64 = 0;
    let mut i: usize = start;
    while i < n
        invariant
            start <= i <= n,
            n == s@.len(),
            acc == dec_value(s@.subrange(start as int, i as int)),
            acc <= bound,
            bound <= u32::MAX,
            forall|j: int| start <= j < i ==> is_digit(s@[j]),
            body == s@.subrange(start as int, n as int),
        decreases n - i,
    {
        let c = s.get_char(i);
        if !('0' <= c && c <= '9') {
            assert(!is_digit(body[i - start]));
            return None;
        }
        let d: u64 = (c as u32 - '0' as u32) as u64;
        let next: u64 = acc * 10 + d;
        proof {
            assert(s@.subrange(start as int, i + 1).drop_last() =~= s@.subrange(
                start as int,
                i as int,
            ));
            assert(s@.subrange(start as int, i + 1).last() == s@[i as int]);
        }
        if next > bound as u64 {
            proof {
                lemma_prefix_exceeds(s@, start as int, i + 1, bound as int);
            }
            return None;
        }
        acc = next;
        i += 1;
    }
    assert(body =~= s@.subrange(start as int, i as int));
    Some(acc)
}

/// Parses an unsigned 32-bit decimal token: an optional `+` sign followed by
/// one or more digits, rejecting values above `u32::MAX`.
pub fn parse_u32(s: &String) -> (r: Option<u32>)
    ensures
        r == spec_parse_u32(s@),
{
    let st = s.as_str();
    let n = st.unicode_len();
    let has_sign = n > 0 && st.get_char(0) == '+';
    let start: usize = if has_sign {
        1
    } else {
        0
    };
    proof {
        if !has_sign {
            assert(s@.subrange(0, n as int) =~= s@);
        }
    }
    match accumulate_digits(st, start, n, u32::MAX) {
        Some(v) => Some(v as u32),
        None => None,
    }
}

/// Parses a signed 32-bit decimal token: an optional `+` or `-` sign followed
/// by one or more digits, rejecting values outside `i32`'s range.
pub fn parse_i32(s: &String) -> (r: Option<i32>)
    ensures
        r == spec_parse_i32(s@),
{
    let st = s.as_str();
    let n = st.unicode_len();
    let negative = n > 0 && st.get_char(0) == '-';
    let positive = n > 0 && st.get_char(0) == '+';
    let start: usize = if negative || positive {
        1
    } else {
        0
    };
    proof {
        if !(negative || positive) {
            assert(s@.subrange(0, n as int) =~= s@);
        }
    }
    if negative {
        match accumulate_digits(st, start, n, 0x8000_0000) {
            Some(v) => {
                if v == 0x8000_0000 {
                    Some(i32::MIN)
                } else {
                    Some(-(v as i32))
                }
            },
            None => None,
        }
    } else {
        match accumulate_digits(st, start, n, i32::MAX as u32) {
            Some(v) => Some(v as i32),
            None => None,
        }
    }
}

} // verus!
