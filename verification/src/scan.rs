//! The lexical layer: blanks, line ends and the shape of a decimal number,
//! each as a function on the text that is still unread.

use crate::scan_proofs::lemma_number_len;
use vstd::prelude::*;

verus! {

/// Whether `c` is a space or a tab.
pub open spec fn is_blank(c: char) -> bool {
    c == ' ' || c == '\t'
}

/// Whether `c` is a decimal digit.
pub open spec fn is_digit(c: char) -> bool {
    '0' <= c <= '9'
}

/// Whether `c` is a plus or a minus sign.
pub open spec fn is_sign(c: char) -> bool {
    c == '+' || c == '-'
}

/// The number of blanks that `s` starts with.
pub open spec fn blanks_len(s: Seq<char>) -> nat
    decreases s.len(),
{
    if s.len() > 0 && is_blank(s[0]) {
        1 + blanks_len(s.skip(1))
    } else {
        0
    }
}

/// `s` without the blanks it starts with.
pub open spec fn trim_blanks(s: Seq<char>) -> Seq<char> {
    s.skip(blanks_len(s) as int)
}

/// The number of decimal digits that `s` starts with.
pub open spec fn digits_len(s: Seq<char>) -> nat
    decreases s.len(),
{
    if s.len() > 0 && is_digit(s[0]) {
        1 + digits_len(s.skip(1))
    } else {
        0
    }
}

/// 1 where `s` starts with a sign, else 0.
pub open spec fn sign_len(s: Seq<char>) -> nat {
    if s.len() > 0 && is_sign(s[0]) {
        1
    } else {
        0
    }
}

/// The length of the mantissa that `s` starts with: digits with an optional
/// point and optional digits behind it, or a point with digits behind it.
pub open spec fn mantissa_len(s: Seq<char>) -> Option<nat> {
    let d = digits_len(s);
    if d > 0 {
        if s.len() > d && s[d as int] == '.' {
            Some(d + 1 + digits_len(s.skip(d + 1 as int)))
        } else {
            Some(d)
        }
    } else if s.len() > 0 && s[0] == '.' && digits_len(s.skip(1)) > 0 {
        Some(1 + digits_len(s.skip(1)))
    } else {
        None
    }
}

/// The length of the exponent that `s` starts with: `e` or `E`, an optional
/// sign and at least one digit. 0 where `s` starts with no such exponent.
pub open spec fn exponent_len(s: Seq<char>) -> nat {
    if s.len() > 0 && (s[0] == 'e' || s[0] == 'E') {
        let g = sign_len(s.skip(1));
        let d = digits_len(s.skip(1 + g as int));
        if d > 0 {
            1 + g + d
        } else {
            0
        }
    } else {
        0
    }
}

/// The length of the decimal number that `s` starts with: an optional sign, a
/// mantissa and an optional exponent, each taken as long as it goes. `None`
/// where `s` starts with no number.
pub open spec fn number_len(s: Seq<char>) -> Option<nat> {
    let g = sign_len(s);
    match mantissa_len(s.skip(g as int)) {
        Some(m) => Some(g + m + exponent_len(s.skip(g + m as int))),
        None => None,
    }
}

/// Whether `s` is empty or one line terminator, `\n` or `\r\n`.
pub open spec fn is_terminator(s: Seq<char>) -> bool {
    s.len() == 0 || (s.len() == 1 && s[0] == '\n') || (s.len() == 2 && s[0] == '\r' && s[1]
        == '\n')
}

/// Whether nothing but blanks and an optional line terminator is left in `s`.
pub open spec fn is_line_end(s: Seq<char>) -> bool {
    is_terminator(trim_blanks(s))
}

/// Whether `c` is a space or a tab.
pub fn is_blank_char(c: char) -> (b: bool)
    ensures
        b == is_blank(c),
{
    c == ' ' || c == '\t'
}

/// Whether `c` is a decimal digit.
pub fn is_digit_char(c: char) -> (b: bool)
    ensures
        b == is_digit(c),
{
    c >= '0' && c <= '9'
}

/// The characters of `s`, one by one.
pub fn chars_of(s: &str) -> (v: Vec<char>)
    ensures
        v@ == s@,
{
    let mut v: Vec<char> = Vec::new();
    for c in it: s.chars()
        invariant
            it.seq() == s@,
            v@ == s@.take(it.index() as int),
    {
        v.push(c);
    }
    v
}

/// The index behind the blanks that start at `from`.
pub fn blanks_end(s: &Vec<char>, from: usize) -> (r: usize)
    requires
        from <= s.len(),
    ensures
        from <= r <= s.len(),
        r - from == blanks_len(s@.skip(from as int)),
        s@.skip(r as int) == trim_blanks(s@.skip(from as int)),
{
    let mut k = from;
    while k < s.len() && is_blank_char(s[k])
        invariant
            from <= k <= s.len(),
            blanks_len(s@.skip(from as int)) == (k - from) + blanks_len(s@.skip(k as int)),
        decreases s.len() - k,
    {
        assert(s@.skip(k as int).skip(1) == s@.skip(k + 1));
        k += 1;
    }
    assert(s@.skip(from as int).skip(k - from) == s@.skip(k as int));
    k
}

/// The index behind the digits that start at `from`.
pub fn digits_end(s: &Vec<char>, from: usize) -> (r: usize)
    requires
        from <= s.len(),
    ensures
        from <= r <= s.len(),
        r - from == digits_len(s@.skip(from as int)),
{
    let mut k = from;
    while k < s.len() && is_digit_char(s[k])
        invariant
            from <= k <= s.len(),
            digits_len(s@.skip(from as int)) == (k - from) + digits_len(s@.skip(k as int)),
        decreases s.len() - k,
    {
        assert(s@.skip(k as int).skip(1) == s@.skip(k + 1));
        k += 1;
    }
    k
}

/// The index behind the sign at `from`, or `from` where no sign stands there.
pub fn sign_end(s: &Vec<char>, from: usize) -> (r: usize)
    requires
        from <= s.len(),
    ensures
        from <= r <= s.len(),
        r - from == sign_len(s@.skip(from as int)),
{
    if from < s.len() && (s[from] == '+' || s[from] == '-') {
        from + 1
    } else {
        from
    }
}

/// The index behind the mantissa that starts at `from`.
pub fn mantissa_end(s: &Vec<char>, from: usize) -> (r: Option<usize>)
    requires
        from <= s.len(),
    ensures
        match mantissa_len(s@.skip(from as int)) {
            Some(n) => r == Some((from + n) as usize) && from + n <= s.len(),
            None => r is None,
        },
{
    let ghost t = s@.skip(from as int);
    let d = digits_end(s, from);
    if d > from {
        if d < s.len() && s[d] == '.' {
            assert(t.skip(d - from + 1) == s@.skip(d + 1));
            Some(digits_end(s, d + 1))
        } else {
            Some(d)
        }
    } else if from < s.len() && s[from] == '.' {
        assert(t.skip(1) == s@.skip(from + 1));
        let f = digits_end(s, from + 1);
        if f > from + 1 {
            Some(f)
        } else {
            None
        }
    } else {
        None
    }
}

/// The index behind the exponent that starts at `from`, or `from` where no
/// exponent stands there.
pub fn exponent_end(s: &Vec<char>, from: usize) -> (r: usize)
    requires
        from <= s.len(),
    ensures
        from <= r <= s.len(),
        r - from == exponent_len(s@.skip(from as int)),
{
    let ghost t = s@.skip(from as int);
    if from < s.len() && (s[from] == 'e' || s[from] == 'E') {
        assert(t.skip(1) == s@.skip(from + 1));
        let j = sign_end(s, from + 1);
        assert(t.skip(1 + (j - from - 1)) == s@.skip(j as int));
        let k = digits_end(s, j);
        if k > j {
            k
        } else {
            from
        }
    } else {
        from
    }
}

/// The index behind the decimal number that starts at `from`.
pub fn number_end(s: &Vec<char>, from: usize) -> (r: Option<usize>)
    requires
        from <= s.len(),
    ensures
        match number_len(s@.skip(from as int)) {
            Some(n) => r == Some((from + n) as usize) && from < from + n <= s.len(),
            None => r is None,
        },
{
    let ghost t = s@.skip(from as int);
    proof {
        lemma_number_len(t);
    }
    let g = sign_end(s, from);
    assert(t.skip(g - from) == s@.skip(g as int));
    match mantissa_end(s, g) {
        Some(m) => {
            assert(t.skip(m - from) == s@.skip(m as int));
            Some(exponent_end(s, m))
        },
        None => None,
    }
}

/// Whether nothing but blanks and an optional line terminator stands from
/// `from` on.
pub fn line_ends_at(s: &Vec<char>, from: usize) -> (b: bool)
    requires
        from <= s.len(),
    ensures
        b == is_line_end(s@.skip(from as int)),
{
    let k = blanks_end(s, from);
    let n = s.len();
    let ghost t = s@.skip(k as int);
    assert(t.len() == n - k);
    if k == n {
        true
    } else if k + 1 == n {
        assert(t[0] == s@[k as int]);
        s[k] == '\n'
    } else if k + 2 == n {
        assert(t[0] == s@[k as int]);
        assert(t[1] == s@[k + 1]);
        s[k] == '\r' && s[k + 1] == '\n'
    } else {
        false
    }
}

} // verus!
