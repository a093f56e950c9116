//! Facts about the lexical layer: what the lengths mean, and how they behave
//! when text is put before or behind.

use crate::scan::{
    blanks_len, digits_len, exponent_len, is_blank, is_digit, is_sign, is_terminator,
    mantissa_len, number_len, sign_len, trim_blanks,
};
use vstd::prelude::*;

verus! {

/// Whether `s` holds nothing but blanks.
pub open spec fn all_blank(s: Seq<char>) -> bool {
    forall|i: int| 0 <= i < s.len() ==> is_blank(#[trigger] s[i])
}

/// Whether `s` holds no character of a line terminator.
pub open spec fn plain(s: Seq<char>) -> bool {
    forall|i: int| 0 <= i < s.len() ==> #[trigger] s[i] != '\r' && s[i] != '\n'
}

/// Whether a number may hold `c`.
pub open spec fn is_number_char(c: char) -> bool {
    is_digit(c) || is_sign(c) || c == '.' || c == 'e' || c == 'E'
}

/// Whether no number goes on into `x`.
pub open spec fn ends_number(x: Seq<char>) -> bool {
    x.len() == 0 || !is_number_char(x[0])
}

/// `blanks_len` counts the blanks up to the first character that is none.
pub proof fn lemma_blanks_len(s: Seq<char>)
    ensures
        blanks_len(s) <= s.len(),
        forall|i: int| 0 <= i < blanks_len(s) ==> is_blank(#[trigger] s[i]),
        blanks_len(s) < s.len() ==> !is_blank(s[blanks_len(s) as int]),
    decreases s.len(),
{
    if s.len() > 0 && is_blank(s[0]) {
        let t = s.skip(1);
        lemma_blanks_len(t);
        assert forall|i: int| 0 <= i < blanks_len(s) implies is_blank(#[trigger] s[i]) by {
            if i > 0 {
                assert(s[i] == t[i - 1]);
            }
        }
        if blanks_len(s) < s.len() {
            assert(s[blanks_len(s) as int] == t[blanks_len(t) as int]);
        }
    }
}

/// `digits_len` counts the digits up to the first character that is none.
pub proof fn lemma_digits_len(s: Seq<char>)
    ensures
        digits_len(s) <= s.len(),
        forall|i: int| 0 <= i < digits_len(s) ==> is_digit(#[trigger] s[i]),
        digits_len(s) < s.len() ==> !is_digit(s[digits_len(s) as int]),
    decreases s.len(),
{
    if s.len() > 0 && is_digit(s[0]) {
        let t = s.skip(1);
        lemma_digits_len(t);
        assert forall|i: int| 0 <= i < digits_len(s) implies is_digit(#[trigger] s[i]) by {
            if i > 0 {
                assert(s[i] == t[i - 1]);
            }
        }
        if digits_len(s) < s.len() {
            assert(s[digits_len(s) as int] == t[digits_len(t) as int]);
        }
    }
}

/// Blanks behind blanks count on; behind anything else they do not count.
pub proof fn lemma_blanks_len_append(u: Seq<char>, x: Seq<char>)
    ensures
        blanks_len(u + x) == if blanks_len(u) == u.len() {
            u.len() + blanks_len(x)
        } else {
            blanks_len(u)
        },
    decreases u.len(),
{
    if u.len() == 0 {
        assert(u + x == x);
    } else if is_blank(u[0]) {
        assert((u + x).skip(1) == u.skip(1) + x);
        lemma_blanks_len_append(u.skip(1), x);
    }
}

/// Leading blanks do not change what is left behind the blanks.
pub proof fn lemma_trim_blanks_prefix(p: Seq<char>, s: Seq<char>)
    requires
        all_blank(p),
    ensures
        trim_blanks(p + s) == trim_blanks(s),
{
    lemma_blanks_len(p);
    lemma_blanks_len(s);
    lemma_blanks_len_append(p, s);
    assert((p + s).skip(p.len() + blanks_len(s) as int) == s.skip(blanks_len(s) as int));
}

/// What is left behind the blanks does not start with a blank.
pub proof fn lemma_trim_blanks_twice(s: Seq<char>)
    ensures
        trim_blanks(trim_blanks(s)) == trim_blanks(s),
        trim_blanks(s).len() > 0 ==> !is_blank(trim_blanks(s)[0]),
{
    lemma_blanks_len(s);
    let t = trim_blanks(s);
    assert(t.skip(0) == t);
}

/// Digits do not count on into a text that starts with none.
pub proof fn lemma_digits_len_append(u: Seq<char>, x: Seq<char>)
    requires
        x.len() == 0 || !is_digit(x[0]),
    ensures
        digits_len(u + x) == digits_len(u),
    decreases u.len(),
{
    if u.len() == 0 {
        assert(u + x == x);
    } else if is_digit(u[0]) {
        assert((u + x).skip(1) == u.skip(1) + x);
        lemma_digits_len_append(u.skip(1), x);
    }
}

/// A mantissa does not go on into a text that starts with no digit and no
/// point.
pub proof fn lemma_mantissa_len_append(u: Seq<char>, x: Seq<char>)
    requires
        x.len() == 0 || (!is_digit(x[0]) && x[0] != '.'),
    ensures
        mantissa_len(u + x) == mantissa_len(u),
{
    let w = u + x;
    lemma_digits_len_append(u, x);
    lemma_digits_len(u);
    let d = digits_len(u);
    if d > 0 {
        if u.len() > d {
            assert(w[d as int] == u[d as int]);
            assert(w.skip(d + 1 as int) == u.skip(d + 1 as int) + x);
            lemma_digits_len_append(u.skip(d + 1 as int), x);
        }
    } else if u.len() > 0 {
        assert(w[0] == u[0]);
        assert(w.skip(1) == u.skip(1) + x);
        lemma_digits_len_append(u.skip(1), x);
    } else {
        assert(w == x);
    }
}

/// An exponent does not go on into a text that starts with no character of
/// a number.
pub proof fn lemma_exponent_len_append(u: Seq<char>, x: Seq<char>)
    requires
        ends_number(x),
    ensures
        exponent_len(u + x) == exponent_len(u),
{
    let w = u + x;
    if u.len() == 0 {
        assert(w == x);
    } else {
        assert(w[0] == u[0]);
        assert(w.skip(1) == u.skip(1) + x);
        let v = u.skip(1);
        if v.len() == 0 {
            assert(v + x == x);
            assert((v + x).skip(0) == x);
            assert(v.skip(0) == v);
        } else {
            assert((v + x)[0] == v[0]);
            let g = sign_len(v);
            assert(w.skip(1 + g as int) == u.skip(1 + g as int) + x);
            lemma_digits_len_append(u.skip(1 + g as int), x);
        }
    }
}

/// A number does not go on into a text that starts with no character of a
/// number.
pub proof fn lemma_number_len_append(u: Seq<char>, x: Seq<char>)
    requires
        ends_number(x),
    ensures
        number_len(u + x) == number_len(u),
{
    let w = u + x;
    if u.len() == 0 {
        assert(w == x);
        assert(x.skip(0) == x);
        assert(u.skip(0) == u);
        lemma_mantissa_len_append(u, x);
    } else {
        assert(w[0] == u[0]);
        let g = sign_len(u);
        assert(w.skip(g as int) == u.skip(g as int) + x);
        lemma_mantissa_len_append(u.skip(g as int), x);
        if let Some(m) = mantissa_len(u.skip(g as int)) {
            lemma_mantissa_len_bound(u.skip(g as int));
            assert(w.skip(g + m as int) == u.skip(g + m as int) + x);
            lemma_exponent_len_append(u.skip(g + m as int), x);
        }
    }
}

/// A mantissa lies within its text and holds digits and at most one point.
pub proof fn lemma_mantissa_len_bound(s: Seq<char>)
    ensures
        mantissa_len(s) matches Some(m) ==> 0 < m <= s.len() && (is_digit(s[0]) || s[0] == '.')
            && forall|i: int| 0 <= i < m ==> is_number_char(#[trigger] s[i]),
{
    lemma_digits_len(s);
    let d = digits_len(s);
    if d > 0 {
        if s.len() > d && s[d as int] == '.' {
            let t = s.skip(d + 1 as int);
            lemma_digits_len(t);
            assert forall|i: int| 0 <= i < d + 1 + digits_len(t) implies is_number_char(
                #[trigger] s[i],
            ) by {
                if i > d {
                    assert(s[i] == t[i - d - 1]);
                }
            }
        }
    } else if s.len() > 0 && s[0] == '.' {
        let t = s.skip(1);
        lemma_digits_len(t);
        assert forall|i: int| 0 <= i < 1 + digits_len(t) implies is_number_char(
            #[trigger] s[i],
        ) by {
            if i > 0 {
                assert(s[i] == t[i - 1]);
            }
        }
    }
}

/// An exponent lies within its text and holds characters of a number.
pub proof fn lemma_exponent_len_bound(s: Seq<char>)
    ensures
        exponent_len(s) <= s.len(),
        forall|i: int| 0 <= i < exponent_len(s) ==> is_number_char(#[trigger] s[i]),
{
    if s.len() > 0 && (s[0] == 'e' || s[0] == 'E') {
        let g = sign_len(s.skip(1));
        let t = s.skip(1 + g as int);
        lemma_digits_len(t);
        assert forall|i: int| 0 <= i < exponent_len(s) implies is_number_char(#[trigger] s[i]) by {
            if i == 1 && g == 1 {
                assert(s[1] == s.skip(1)[0]);
            } else if i > 0 {
                assert(s[i] == t[i - 1 - g]);
            }
        }
    }
}

/// A number lies within its text, starts with a sign, a digit or a point and
/// holds characters of a number.
pub proof fn lemma_number_len(s: Seq<char>)
    ensures
        number_len(s) matches Some(n) ==> 0 < n <= s.len() && (is_digit(s[0]) || is_sign(s[0])
            || s[0] == '.') && forall|i: int| 0 <= i < n ==> is_number_char(#[trigger] s[i]),
{
    let g = sign_len(s);
    let t = s.skip(g as int);
    lemma_mantissa_len_bound(t);
    if let Some(m) = mantissa_len(t) {
        let u = s.skip(g + m as int);
        lemma_exponent_len_bound(u);
        let e = exponent_len(u);
        assert(t[0] == s[g as int]);
        assert forall|i: int| 0 <= i < g + m + e implies is_number_char(#[trigger] s[i]) by {
            if i >= g + m {
                assert(s[i] == u[i - g - m]);
            } else if i >= g {
                assert(s[i] == t[i - g]);
            }
        }
    }
}

/// No number starts at a line terminator or at the end of the text.
pub proof fn lemma_terminator_is_no_number(s: Seq<char>)
    requires
        is_terminator(s),
    ensures
        number_len(s) is None,
        blanks_len(s) == 0,
        trim_blanks(s) == s,
{
    lemma_number_len(s);
    assert(s.skip(0) == s);
}

} // verus!
