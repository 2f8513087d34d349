//! Verified recognition of real-number tokens.
//!
//! `check_real_token` accepts exactly the strings the Rust standard library
//! accepts when parsing a 32-bit floating-point value: an optional sign,
//! followed by `inf`, `infinity` or `nan` (case-insensitive), or by a decimal
//! mantissa (`digits`, `digits.digits*` or `digits*.digits`) with an optional
//! exponent part (`e`/`E`, an optional sign, one or more digits). The check
//! itself is pure character logic; no floating-point value is built here.

use vstd::prelude::*;
use crate::digits::{all_digits, is_digit};

verus! {

/// Case-insensitive match of `c` against a lowercase ASCII letter `lower`.
pub open spec fn eqi(c: char, lower: char) -> bool {
    c == lower || ('A' <= c && c <= 'Z' && c as int + 32 == lower as int)
}

/// Whether `s` is a sign character.
pub open spec fn is_sign(c: char) -> bool {
    c == '+' || c == '-'
}

/// `s` without its leading sign, if it has one.
pub open spec fn strip_sign(s: Seq<char>) -> Seq<char> {
    if s.len() > 0 && is_sign(s[0]) {
        s.subrange(1, s.len() as int)
    } else {
        s
    }
}

/// Case-insensitive `inf`.
pub open spec fn is_inf(s: Seq<char>) -> bool {
    s.len() == 3 && eqi(s[0], 'i') && eqi(s[1], 'n') && eqi(s[2], 'f')
}

/// Case-insensitive `infinity`.
pub open spec fn is_infinity(s: Seq<char>) -> bool {
    s.len() == 8 && eqi(s[0], 'i') && eqi(s[1], 'n') && eqi(s[2], 'f') && eqi(s[3], 'i') && eqi(
        s[4],
        'n',
    ) && eqi(s[5], 'i') && eqi(s[6], 't') && eqi(s[7], 'y')
}

/// Case-insensitive `nan`.
pub open spec fn is_nan(s: Seq<char>) -> bool {
    s.len() == 3 && eqi(s[0], 'n') && eqi(s[1], 'a') && eqi(s[2], 'n')
}

/// A decimal mantissa: one or more digits, with at most one point among them
/// and at least one digit somewhere.
pub open spec fn is_mantissa(s: Seq<char>) -> bool {
    (s.len() > 0 && all_digits(s)) || (exists|i: int|
        0 <= i < s.len() && s[i] == '.' && all_digits(s.subrange(0, i)) && all_digits(
            s.subrange(i + 1, s.len() as int),
        ) && s.len() > 1)
}

/// An exponent's tail: an optional sign followed by one or more digits.
pub open spec fn is_exp_tail(s: Seq<char>) -> bool {
    strip_sign(s).len() > 0 && all_digits(strip_sign(s))
}

/// A decimal number: a mantissa, optionally followed by an exponent marker
/// and an exponent tail.
pub open spec fn is_number(s: Seq<char>) -> bool {
    is_mantissa(s) || (exists|i: int|
        0 <= i < s.len() && (s[i] == 'e' || s[i] == 'E') && is_mantissa(s.subrange(0, i))
            && is_exp_tail(s.subrange(i + 1, s.len() as int)))
}

/// The real-number token syntax: an optional sign, then one of the special
/// words or a decimal number.
pub open spec fn is_real_token(s: Seq<char>) -> bool {
    is_inf(strip_sign(s)) || is_infinity(strip_sign(s)) || is_nan(strip_sign(s)) || is_number(
        strip_sign(s),
    )
}

/// Every character of a mantissa is a digit or the decimal point.
proof fn lemma_mantissa_chars(s: Seq<char>)
    requires
        is_mantissa(s),
    ensures
        forall|i: int| 0 <= i < s.len() ==> is_digit(s[i]) || s[i] == '.',
{
    if s.len() > 0 && all_digits(s) {
    } else {
        let d = choose|d: int|
            0 <= d < s.len() && s[d] == '.' && all_digits(s.subrange(0, d)) && all_digits(
                s.subrange(d + 1, s.len() as int),
            ) && s.len() > 1;
        assert forall|i: int| 0 <= i < s.len() implies is_digit(s[i]) || s[i] == '.' by {
            if i < d {
                assert(s.subrange(0, d)[i] == s[i]);
            } else if i > d {
                assert(s.subrange(d + 1, s.len() as int)[i - d - 1] == s[i]);
            }
        }
    }
}

/// Case-insensitive comparison against a lowercase ASCII letter.
fn eqi_char(c: char, lower: char) -> (r: bool)
    ensures
        r == eqi(c, lower),
{
    c == lower || ('A' <= c && c <= 'Z' && c as u32 + 32 == lower as u32)
}

/// Whether characters `a..b` of `s` are one of the special words.
fn check_special(s: &str, a: usize, b: usize) -> (r: bool)
    requires
        a <= b <= s@.len(),
    ensures
        ({
            let body = s@.subrange(a as int, b as int);
            r == (is_inf(body) || is_infinity(body) || is_nan(body))
        }),
{
    let ghost body = s@.subrange(a as int, b as int);
    let len = b - a;
    if len == 3 {
        let c0 = s.get_char(a);
        let c1 = s.get_char(a + 1);
        let c2 = s.get_char(a + 2);
        assert(body[0] == s@[a as int] && body[1] == s@[a + 1] && body[2] == s@[a + 2]);
        (eqi_char(c0, 'i') && eqi_char(c1, 'n') && eqi_char(c2, 'f')) || (eqi_char(c0, 'n')
            && eqi_char(c1, 'a') && eqi_char(c2, 'n'))
    } else if len == 8 {
        let c0 = s.get_char(a);
        let c1 = s.get_char(a + 1);
        let c2 = s.get_char(a + 2);
        let c3 = s.get_char(a + 3);
        let c4 = s.get_char(a + 4);
        let c5 = s.get_char(a + 5);
        let c6 = s.get_char(a + 6);
        let c7 = s.get_char(a + 7);
        assert(body[0] == s@[a as int] && body[1] == s@[a + 1] && body[2] == s@[a + 2] && body[3]
            == s@[a + 3] && body[4] == s@[a + 4] && body[5] == s@[a + 5] && body[6] == s@[a + 6]
            && body[7] == s@[a + 7]);
        eqi_char(c0, 'i') && eqi_char(c1, 'n') && eqi_char(c2, 'f') && eqi_char(c3, 'i')
            && eqi_char(c4, 'n') && eqi_char(c5, 'i') && eqi_char(c6, 't') && eqi_char(c7, 'y')
    } else {
        false
    }
}

/// Whether characters `a..b` of `s` are all digits, with at least one.
fn check_digit_run(s: &str, a: usize, b: usize) -> (r: bool)
    requires
        a <= b <= s@.len(),
    ensures
        ({
            let body = s@.subrange(a as int, b as int);
            r == (body.len() > 0 && all_digits(body))
        }),
{
    let ghost body = s@.subrange(a as int, b as int);
    if a == b {
        return false;
    }
    let mut i: usize = a;
    while i < b
        invariant
            a <= i <= b <= s@.len(),
            body == s@.subrange(a as int, b as int),
            forall|j: int| 0 <= j < i - a ==> is_digit(body[j]),
        decreases b - i,
    {
        let c = s.get_char(i);
        assert(body[i - a] == s@[i as int]);
        if !('0' <= c && c <= '9') {
            return false;
        }
        i += 1;
    }
    true
}

/// The first position in `a..b` where `s` holds a decimal point.
fn find_dot(s: &str, a: usize, b: usize) -> (r: Option<usize>)
    requires
        a <= b <= s@.len(),
    ensures
        match r {
            Some(d) => a <= d < b && s@[d as int] == '.' && forall|j: int|
                a <= j < d ==> s@[j] != '.',
            None => forall|j: int| a <= j < b ==> s@[j] != '.',
        },
{
    let mut i: usize = a;
    while i < b
        invariant
            a <= i <= b <= s@.len(),
            forall|j: int| a <= j < i ==> s@[j] != '.',
        decreases b - i,
    {
        if s.get_char(i) == '.' {
            return Some(i);
        }
        i += 1;
    }
    None
}

/// The first position in `a..b` where `s` holds an exponent marker.
fn find_exp_mark(s: &str, a: usize, b: usize) -> (r: Option<usize>)
    requires
        a <= b <= s@.len(),
    ensures
        match r {
            Some(d) => a <= d < b && (s@[d as int] == 'e' || s@[d as int] == 'E') && forall|j: int|
                a <= j < d ==> s@[j] != 'e' && s@[j] != 'E',
            None => forall|j: int| a <= j < b ==> s@[j] != 'e' && s@[j] != 'E',
        },
{
    let mut i: usize = a;
    while i < b
        invariant
            a <= i <= b <= s@.len(),
            forall|j: int| a <= j < i ==> s@[j] != 'e' && s@[j] != 'E',
        decreases b - i,
    {
        let c = s.get_char(i);
        if c == 'e' || c == 'E' {
            return Some(i);
        }
        i += 1;
    }
    None
}

/// Whether characters `a..b` of `s` form a mantissa.
fn check_mantissa(s: &str, a: usize, b: usize) -> (r: bool)
    requires
        a <= b <= s@.len(),
    ensures
        r == is_mantissa(s@.subrange(a as int, b as int)),
{
    let ghost body = s@.subrange(a as int, b as int);
    match find_dot(s, a, b) {
        None => {
            let ok = check_digit_run(s, a, b);
            proof {
                if !ok {
                    assert forall|i: int| 0 <= i < body.len() implies body[i] != '.' by {
                        assert(body[i] == s@[a + i]);
                    }
                }
            }
            ok
        },
        Some(d) => {
            let pre = check_digit_run(s, a, d);
            let post = check_digit_run(s, d + 1, b);
            let pre_empty = d == a;
            let post_empty = d + 1 == b;
            let ok = (pre || pre_empty) && (post || post_empty) && !(pre_empty && post_empty);
            proof {
                assert(body.subrange(0, d - a) =~= s@.subrange(a as int, d as int));
                assert(body.subrange(d - a + 1, body.len() as int) =~= s@.subrange(
                    d + 1,
                    b as int,
                ));
                assert(body[d - a] == '.');
                if ok {
                    assert(is_mantissa(body));
                } else {
                    // No other position can serve as the point: positions
                    // before `d` hold no point, and any position after `d`
                    // would put `d`'s point among its leading digits.
                    assert forall|p: int|
                        0 <= p < body.len() && body[p] == '.' && all_digits(
                            body.subrange(0, p),
                        ) && all_digits(body.subrange(p + 1, body.len() as int)) && body.len()
                            > 1 implies false by {
                        if p < d - a {
                            assert(body[p] == s@[a + p]);
                        } else if p > d - a {
                            assert(body.subrange(0, p)[d - a] == body[d - a]);
                        } else {
                            assert(body.subrange(0, p) =~= s@.subrange(a as int, d as int));
                            assert(body.subrange(p + 1, body.len() as int) =~= s@.subrange(
                                d + 1,
                                b as int,
                            ));
                        }
                    }
                    assert(!all_digits(body));
                }
            }
            ok
        },
    }
}

/// Whether characters `a..b` of `s` form an exponent tail.
fn check_exp_tail(s: &str, a: usize, b: usize) -> (r: bool)
    requires
        a <= b <= s@.len(),
    ensures
        r == is_exp_tail(s@.subrange(a as int, b as int)),
{
    let ghost body = s@.subrange(a as int, b as int);
    let signed = a < b && {
        let c = s.get_char(a);
        c == '+' || c == '-'
    };
    let start: usize = if signed {
        a + 1
    } else {
        a
    };
    proof {
        if signed {
            assert(body[0] == s@[a as int]);
            assert(strip_sign(body) =~= s@.subrange(start as int, b as int));
        } else {
            if body.len() > 0 {
                assert(body[0] == s@[a as int]);
            }
            assert(strip_sign(body) =~= s@.subrange(start as int, b as int));
        }
    }
    check_digit_run(s, start, b)
}

/// Whether characters `a..b` of `s` form a decimal number.
fn check_number(s: &str, a: usize, b: usize) -> (r: bool)
    requires
        a <= b <= s@.len(),
    ensures
        r == is_number(s@.subrange(a as int, b as int)),
{
    let ghost body = s@.subrange(a as int, b as int);
    match find_exp_mark(s, a, b) {
        None => {
            let ok = check_mantissa(s, a, b);
            proof {
                if !ok {
                    assert forall|p: int|
                        0 <= p < body.len() && (body[p] == 'e' || body[p] == 'E') implies false by {
                        assert(body[p] == s@[a + p]);
                    }
                }
            }
            ok
        },
        Some(d) => {
            let pre = check_mantissa(s, a, d);
            let post = check_exp_tail(s, d + 1, b);
            let ok = pre && post;
            proof {
                assert(body.subrange(0, d - a) =~= s@.subrange(a as int, d as int));
                assert(body.subrange(d - a + 1, body.len() as int) =~= s@.subrange(
                    d + 1,
                    b as int,
                ));
                assert(body[d - a] == s@[d as int]);
                if ok {
                    assert(is_number(body));
                } else {
                    // The marker at `d` is the only candidate split: earlier
                    // positions hold no marker, and a later split would put
                    // `d`'s marker inside its mantissa.
                    assert forall|p: int|
                        0 <= p < body.len() && (body[p] == 'e' || body[p] == 'E') && is_mantissa(
                            body.subrange(0, p),
                        ) && is_exp_tail(
                            body.subrange(p + 1, body.len() as int),
                        ) implies false by {
                        if p < d - a {
                            assert(body[p] == s@[a + p]);
                        } else if p > d - a {
                            lemma_mantissa_chars(body.subrange(0, p));
                            assert(body.subrange(0, p)[d - a] == body[d - a]);
                        }
                    }
                    if is_mantissa(body) {
                        lemma_mantissa_chars(body);
                        assert(body[d - a] == 'e' || body[d - a] == 'E');
                        assert(false);
                    }
                }
            }
            ok
        },
    }
}

/// Whether `s` is a real-number token: what the blur amount must look like.
pub fn check_real_token(s: &String) -> (r: bool)
    ensures
        r == is_real_token(s@),
{
    let st = s.as_str();
    let n = st.unicode_len();
    let signed = n > 0 && {
        let c = st.get_char(0);
        c == '+' || c == '-'
    };
    let start: usize = if signed {
        1
    } else {
        0
    };
    proof {
        assert(strip_sign(s@) =~= s@.subrange(start as int, n as int));
    }
    check_special(st, start, n) || check_number(st, start, n)
}

} // verus!
