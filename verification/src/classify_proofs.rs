//! Facts about the line grammars: blanks and a line terminator around a line
//! do not change what it is read as, and no line is read as two things.

use crate::classify::{
    camera_label, camera_marker, has_k_tag, has_marker_at, k_marker, label_starts_at,
    last_label_start, lemma_last_label_start, lemma_numbers_none, number_row, numbers, pixel_row,
    skip_mark, strip_terminator,
};
use crate::scan::{blanks_len, is_blank, is_line_end, is_terminator, number_len, trim_blanks};
use crate::scan_proofs::{
    all_blank, ends_number, is_number_char, lemma_blanks_len, lemma_blanks_len_append,
    lemma_number_len, lemma_number_len_append, lemma_terminator_is_no_number,
    lemma_trim_blanks_prefix, lemma_trim_blanks_twice, plain,
};
use vstd::prelude::*;

verus! {

/// Whether `w` reads as `r` with the line end `x` behind it: it is that text,
/// or nothing is left of `r` and nothing but a line terminator of `w`. No
/// line terminator stands in `r` itself.
pub open spec fn follows(r: Seq<char>, w: Seq<char>, x: Seq<char>) -> bool {
    &&& plain(r)
    &&& (w == r + x || (r.len() == 0 && is_terminator(w)))
}

/// No number goes on into a line end.
pub proof fn lemma_line_end_ends_number(x: Seq<char>)
    requires
        is_line_end(x),
    ensures
        ends_number(x),
{
    lemma_blanks_len(x);
    if x.len() > 0 && !is_blank(x[0]) {
        assert(x.skip(0) == x);
    }
}

/// A text without blanks before it that is a line end is a line terminator.
pub proof fn lemma_trimmed_line_end(x: Seq<char>)
    requires
        is_line_end(x),
        x.len() == 0 || !is_blank(x[0]),
    ensures
        is_terminator(x),
{
    assert(x.skip(0) == x);
}

/// What follows stays so behind the leading blanks.
pub proof fn lemma_follows_trim(r: Seq<char>, w: Seq<char>, x: Seq<char>)
    requires
        follows(r, w, x),
        is_line_end(x),
    ensures
        follows(trim_blanks(r), trim_blanks(w), x),
{
    lemma_blanks_len(r);
    let b = blanks_len(r) as int;
    assert forall|i: int| 0 <= i < trim_blanks(r).len() implies #[trigger] trim_blanks(r)[i]
        != '\r' && trim_blanks(r)[i] != '\n' by {
        assert(trim_blanks(r)[i] == r[b + i]);
    }
    if w == r + x {
        lemma_blanks_len_append(r, x);
        lemma_blanks_len(x);
        if b == r.len() {
            assert(trim_blanks(w) == trim_blanks(x));
            assert(trim_blanks(r).len() == 0);
        } else {
            assert(trim_blanks(w) == trim_blanks(r) + x);
        }
    } else {
        lemma_terminator_is_no_number(w);
        assert(r.skip(0) == r);
    }
}

/// What follows holds the same number at its start, and stays so behind it.
pub proof fn lemma_follows_number(u: Seq<char>, w: Seq<char>, x: Seq<char>)
    requires
        follows(u, w, x),
        is_line_end(x),
    ensures
        match number_len(u) {
            Some(k) => number_len(w) == Some(k) && w.take(k as int) == u.take(k as int)
                && follows(u.skip(k as int), w.skip(k as int), x),
            None => number_len(w) is None,
        },
{
    lemma_line_end_ends_number(x);
    lemma_number_len(u);
    if w == u + x {
        lemma_number_len_append(u, x);
        if let Some(k) = number_len(u) {
            assert(w.take(k as int) == u.take(k as int));
            assert(w.skip(k as int) == u.skip(k as int) + x);
            assert forall|i: int| 0 <= i < u.skip(k as int).len() implies #[trigger] u.skip(
                k as int,
            )[i] != '\r' && u.skip(k as int)[i] != '\n' by {
                assert(u.skip(k as int)[i] == u[k + i]);
            }
        }
    } else {
        lemma_terminator_is_no_number(w);
    }
}

/// What follows stays so behind an optional mark.
pub proof fn lemma_follows_mark(r: Seq<char>, w: Seq<char>, x: Seq<char>, mark: char)
    requires
        follows(r, w, x),
        is_line_end(x),
        !is_blank(mark),
        mark != '\r',
        mark != '\n',
    ensures
        follows(skip_mark(r, mark), skip_mark(w, mark), x),
{
    let u = trim_blanks(r);
    let v = trim_blanks(w);
    lemma_follows_trim(r, w, x);
    lemma_trim_blanks_twice(w);
    if v == u + x {
        if u.len() > 0 {
            assert(v[0] == u[0]);
            if u[0] == mark {
                assert(v.skip(1) == u.skip(1) + x);
                assert forall|i: int| 0 <= i < u.skip(1).len() implies #[trigger] u.skip(1)[i]
                    != '\r' && u.skip(1)[i] != '\n' by {
                    assert(u.skip(1)[i] == u[1 + i]);
                }
            }
        } else {
            assert(v == x);
            lemma_trimmed_line_end(x);
        }
    }
}

/// What follows is a line end where the text before it is one.
pub proof fn lemma_follows_line_end(r: Seq<char>, w: Seq<char>, x: Seq<char>)
    requires
        follows(r, w, x),
        is_line_end(x),
    ensures
        is_line_end(w) == is_line_end(r),
{
    let u = trim_blanks(r);
    let v = trim_blanks(w);
    lemma_follows_trim(r, w, x);
    lemma_trim_blanks_twice(w);
    if v == u + x {
        if u.len() > 0 {
            assert(v[0] == u[0]);
        } else {
            assert(v == x);
            lemma_trimmed_line_end(x);
        }
    }
}

/// A line end behind a text does not change the numbers that the text starts
/// with.
pub proof fn lemma_numbers_append(s: Seq<char>, w: Seq<char>, x: Seq<char>, n: nat)
    requires
        follows(s, w, x),
        is_line_end(x),
    ensures
        match numbers(s, n) {
            Some((tokens, rest)) => numbers(w, n) matches Some((tokens2, rest2)) && tokens2
                == tokens && follows(rest, rest2, x),
            None => numbers(w, n) is None,
        },
    decreases n,
{
    if n > 0 {
        lemma_numbers_append(s, w, x, (n - 1) as nat);
        if let Some((tokens, rest)) = numbers(s, (n - 1) as nat) {
            let done = numbers(w, (n - 1) as nat)->0;
            let rest2 = done.1;
            lemma_follows_trim(rest, rest2, x);
            lemma_follows_number(trim_blanks(rest), trim_blanks(rest2), x);
        }
    }
}

/// Blanks before a text do not change the numbers that the text starts with.
pub proof fn lemma_numbers_prefix(p: Seq<char>, s: Seq<char>, n: nat)
    requires
        all_blank(p),
        n > 0,
    ensures
        numbers(p + s, n) == numbers(s, n),
    decreases n,
{
    if n == 1 {
        lemma_trim_blanks_prefix(p, s);
        assert(numbers(p + s, 0) == Some((Seq::<Seq<char>>::empty(), p + s)));
        assert(numbers(s, 0) == Some((Seq::<Seq<char>>::empty(), s)));
    } else {
        lemma_numbers_prefix(p, s, (n - 1) as nat);
    }
}

/// Blanks before a line, and blanks and a line terminator behind it, do not
/// change the numbers of a row.
pub proof fn lemma_number_row_padding(p: Seq<char>, s: Seq<char>, x: Seq<char>, n: nat)
    requires
        all_blank(p),
        plain(s),
        is_line_end(x),
        n > 0,
    ensures
        number_row(p + s + x, n) == number_row(s, n),
{
    assert(p + s + x == p + (s + x));
    lemma_numbers_prefix(p, s + x, n);
    lemma_numbers_append(s, s + x, x, n);
    if let Some((tokens, rest)) = numbers(s, n) {
        let done = numbers(s + x, n)->0;
        let rest2 = done.1;
        lemma_follows_line_end(rest, rest2, x);
    }
}

/// Blanks before a line, and blanks and a line terminator behind it, do not
/// change the numbers of a pixel.
pub proof fn lemma_pixel_row_padding(p: Seq<char>, s: Seq<char>, x: Seq<char>)
    requires
        all_blank(p),
        plain(s),
        is_line_end(x),
    ensures
        pixel_row(p + s + x) == pixel_row(s),
{
    let w = s + x;
    assert(p + s + x == p + w);
    lemma_trim_blanks_prefix(p, w);
    assert(pixel_row(p + w) == pixel_row(w));
    lemma_follows_mark(s, w, x, '[');
    let (r0, w0) = (skip_mark(s, '['), skip_mark(w, '['));
    lemma_follows_trim(r0, w0, x);
    let (a, a2) = (trim_blanks(r0), trim_blanks(w0));
    lemma_follows_number(a, a2, x);
    if let Some(k) = number_len(a) {
        let (r1, w1) = (a.skip(k as int), a2.skip(k as int));
        lemma_follows_mark(r1, w1, x, ',');
        let (r2, w2) = (skip_mark(r1, ','), skip_mark(w1, ','));
        lemma_follows_trim(r2, w2, x);
        let (b, b2) = (trim_blanks(r2), trim_blanks(w2));
        lemma_follows_number(b, b2, x);
        if let Some(j) = number_len(b) {
            let (r3, w3) = (b.skip(j as int), b2.skip(j as int));
            lemma_follows_mark(r3, w3, x, ']');
            lemma_follows_line_end(skip_mark(r3, ']'), skip_mark(w3, ']'), x);
        }
    }
}

/// Whether `c` stands nowhere in `s`.
pub open spec fn free_of(s: Seq<char>, c: char) -> bool {
    forall|i: int| 0 <= i < s.len() ==> #[trigger] s[i] != c
}

/// Whether `c` can stand in no row of numbers and in no pixel line.
pub open spec fn is_foreign(c: char) -> bool {
    !is_number_char(c) && !is_blank(c) && c != '\r' && c != '\n' && c != '[' && c != ','
        && c != ']'
}

/// A text is free of what is no blank and stands nowhere behind its leading
/// blanks.
pub proof fn lemma_trim_free(r: Seq<char>, c: char)
    requires
        free_of(trim_blanks(r), c),
        !is_blank(c),
    ensures
        free_of(r, c),
{
    lemma_blanks_len(r);
    let b = blanks_len(r) as int;
    assert forall|i: int| 0 <= i < r.len() implies #[trigger] r[i] != c by {
        if i >= b {
            assert(r[i] == trim_blanks(r)[i - b]);
        }
    }
}

/// A text that starts with a number is free of what no number holds and
/// stands nowhere behind that number.
pub proof fn lemma_number_free(t: Seq<char>, c: char)
    requires
        number_len(t) is Some,
        free_of(t.skip(number_len(t)->0 as int), c),
        !is_number_char(c),
    ensures
        free_of(t, c),
{
    lemma_number_len(t);
    let k = number_len(t)->0 as int;
    assert forall|i: int| 0 <= i < t.len() implies #[trigger] t[i] != c by {
        if i >= k {
            assert(t[i] == t.skip(k)[i - k]);
        }
    }
}

/// A text is free of what is neither blank nor mark and stands nowhere
/// behind its optional mark.
pub proof fn lemma_mark_free(r: Seq<char>, mark: char, c: char)
    requires
        free_of(skip_mark(r, mark), c),
        !is_blank(c),
        c != mark,
    ensures
        free_of(r, c),
{
    let t = trim_blanks(r);
    if t.len() > 0 && t[0] == mark {
        assert forall|i: int| 0 <= i < t.len() implies #[trigger] t[i] != c by {
            if i > 0 {
                assert(t[i] == t.skip(1)[i - 1]);
            }
        }
    }
    lemma_trim_free(r, c);
}

/// A line end is free of all but blanks and the characters of a line
/// terminator.
pub proof fn lemma_line_end_free(r: Seq<char>, c: char)
    requires
        is_line_end(r),
        !is_blank(c),
        c != '\r',
        c != '\n',
    ensures
        free_of(r, c),
{
    lemma_trim_free(r, c);
}

/// A text that starts with numbers is free of a foreign character that
/// stands nowhere behind them.
pub proof fn lemma_numbers_free(s: Seq<char>, n: nat, c: char)
    requires
        numbers(s, n) is Some,
        free_of((numbers(s, n)->0).1, c),
        is_foreign(c),
    ensures
        free_of(s, c),
    decreases n,
{
    if n > 0 {
        let before = numbers(s, (n - 1) as nat)->0;
        let t = trim_blanks(before.1);
        lemma_number_free(t, c);
        lemma_trim_free(before.1, c);
        lemma_numbers_free(s, (n - 1) as nat, c);
    }
}

/// A row of numbers holds no foreign character.
pub proof fn lemma_number_row_free(s: Seq<char>, n: nat, c: char)
    requires
        number_row(s, n) is Some,
        is_foreign(c),
    ensures
        free_of(s, c),
{
    lemma_line_end_free((numbers(s, n)->0).1, c);
    lemma_numbers_free(s, n, c);
}

/// A pixel line holds no foreign character.
pub proof fn lemma_pixel_row_free(s: Seq<char>, c: char)
    requires
        pixel_row(s) is Some,
        is_foreign(c),
    ensures
        free_of(s, c),
{
    let r0 = skip_mark(s, '[');
    let a = trim_blanks(r0);
    let k = number_len(a)->0 as int;
    let r1 = a.skip(k);
    let r2 = skip_mark(r1, ',');
    let b = trim_blanks(r2);
    let j = number_len(b)->0 as int;
    let r3 = b.skip(j);
    lemma_line_end_free(skip_mark(r3, ']'), c);
    lemma_mark_free(r3, ']', c);
    lemma_number_free(b, c);
    lemma_trim_free(r2, c);
    lemma_mark_free(r1, ',', c);
    lemma_number_free(a, c);
    lemma_trim_free(r0, c);
    lemma_mark_free(s, '[', c);
}

/// A text without the first letter of the camera marker holds no camera
/// label.
pub proof fn lemma_no_label(s: Seq<char>)
    requires
        free_of(s, 'C'),
    ensures
        camera_label(s) is None,
{
    reveal(camera_label);
    lemma_last_label_start(s, s.len() as int);
    if let Some(k) = last_label_start(s, s.len() as int) {
        assert(camera_marker()[0] == 'C');
        assert(s[k + 0] == camera_marker()[0]);
    }
}

/// A row of numbers is no camera label line.
pub proof fn lemma_number_row_no_label(s: Seq<char>, n: nat)
    requires
        number_row(s, n) is Some,
    ensures
        camera_label(s) is None,
{
    lemma_number_row_free(s, n, 'C');
    lemma_no_label(s);
}

/// A pixel line is no camera label line.
pub proof fn lemma_pixel_row_no_label(s: Seq<char>)
    requires
        pixel_row(s) is Some,
    ensures
        camera_label(s) is None,
{
    lemma_pixel_row_free(s, 'C');
    lemma_no_label(s);
}

/// Where `s` starts with `m` numbers it starts with any smaller count.
pub proof fn lemma_numbers_some(s: Seq<char>, n: nat, m: nat)
    requires
        n <= m,
        numbers(s, m) is Some,
    ensures
        numbers(s, n) is Some,
{
    if numbers(s, n) is None {
        lemma_numbers_none(s, n, m);
    }
}

/// A row of `n` numbers is a row of no other count.
pub proof fn lemma_number_row_count(s: Seq<char>, n: nat, m: nat)
    requires
        number_row(s, n) is Some,
        n != m,
    ensures
        number_row(s, m) is None,
{
    if m > n {
        let rest = (numbers(s, n)->0).1;
        lemma_terminator_is_no_number(trim_blanks(rest));
        assert(numbers(s, n + 1) is None);
        lemma_numbers_none(s, n + 1, m);
    } else {
        lemma_numbers_some(s, m + 1, n);
        lemma_numbers_some(s, m, n);
        let rest = (numbers(s, m)->0).1;
        lemma_number_len(trim_blanks(rest));
    }
}

/// A pixel line is no row of three or more numbers.
pub proof fn lemma_pixel_row_is_no_row(s: Seq<char>, n: nat)
    requires
        pixel_row(s) is Some,
        n >= 3,
    ensures
        number_row(s, n) is None,
{
    let t = trim_blanks(s);
    let r0 = skip_mark(s, '[');
    let a = trim_blanks(r0);
    let k = number_len(a)->0 as int;
    let r1 = a.skip(k);
    let t1 = trim_blanks(r1);
    let r2 = skip_mark(r1, ',');
    let b = trim_blanks(r2);
    let j = number_len(b)->0 as int;
    let r3 = b.skip(j);
    let t3 = trim_blanks(r3);
    lemma_trim_blanks_twice(s);
    lemma_trim_blanks_twice(r1);
    lemma_trim_blanks_twice(r3);
    lemma_number_len(t);
    lemma_number_len(t1);
    lemma_number_len(t3);
    assert(numbers(s, 0) == Some((Seq::<Seq<char>>::empty(), s)));
    if t.len() > 0 && t[0] == '[' {
        assert(numbers(s, 1) is None);
        lemma_numbers_none(s, 1, n);
    } else {
        assert(a == t);
        assert(numbers(s, 1) == Some((Seq::<Seq<char>>::empty().push(t.take(k)), r1)));
        if t1.len() > 0 && t1[0] == ',' {
            assert(numbers(s, 2) is None);
            lemma_numbers_none(s, 2, n);
        } else {
            assert(b == t1);
            assert(numbers(s, 2) == Some(
                (Seq::<Seq<char>>::empty().push(t.take(k)).push(t1.take(j)), r3),
            ));
            if t3.len() > 0 && t3[0] == ']' {
            } else {
                assert(skip_mark(r3, ']') == t3);
                assert(is_terminator(t3));
            }
            assert(number_len(t3) is None);
            assert(numbers(s, 3) is None);
            lemma_numbers_none(s, 3, n);
        }
    }
}

/// A line end holds blanks and characters of a line terminator only.
pub proof fn lemma_line_end_chars(x: Seq<char>)
    requires
        is_line_end(x),
    ensures
        forall|i: int|
            0 <= i < x.len() ==> is_blank(#[trigger] x[i]) || x[i] == '\r' || x[i] == '\n',
{
    lemma_blanks_len(x);
    let b = blanks_len(x) as int;
    assert forall|i: int| 0 <= i < x.len() implies is_blank(#[trigger] x[i]) || x[i] == '\r'
        || x[i] == '\n' by {
        if i >= b {
            assert(x[i] == trim_blanks(x)[i - b]);
        }
    }
}

/// Blanks before a line, and blanks and a line terminator behind it, do not
/// change whether it holds the tag of the intrinsic matrix.
pub proof fn lemma_k_tag_padding(p: Seq<char>, s: Seq<char>, x: Seq<char>)
    requires
        all_blank(p),
        is_line_end(x),
    ensures
        has_k_tag(p + s + x) == has_k_tag(s),
{
    reveal(has_k_tag);
    let w = p + s + x;
    let m = k_marker();
    lemma_line_end_chars(x);
    assert(m[0] == 'M' && m[7] == 'K' && m.len() == 8);
    if has_k_tag(s) {
        let k = choose|k: int| has_marker_at(s, k, m);
        assert forall|i: int| 0 <= i < m.len() implies w[k + p.len() + i] == #[trigger] m[i] by {
            assert(w[k + p.len() + i] == s[k + i]);
        }
        assert(has_marker_at(w, k + p.len(), m));
    }
    if has_k_tag(w) {
        let k = choose|k: int| has_marker_at(w, k, m);
        assert(w[k + 0] == m[0]);
        assert(w[k + 7] == m[7]);
        if k < p.len() {
            assert(w[k] == p[k]);
        }
        if k + 7 >= p.len() + s.len() {
            assert(w[k + 7] == x[k + 7 - p.len() - s.len()]);
        }
        assert forall|i: int| 0 <= i < m.len() implies s[k - p.len() + i] == #[trigger] m[i] by {
            assert(w[k + i] == s[k - p.len() + i]);
        }
        assert(has_marker_at(s, k - p.len(), m));
    }
}

/// Between blanks and a line terminator a label starts where it starts in
/// the line alone.
pub proof fn lemma_label_start_padding(p: Seq<char>, s: Seq<char>, t: Seq<char>, k: int)
    requires
        all_blank(p),
        is_terminator(t),
    ensures
        label_starts_at(p + s + t, k + p.len()) == label_starts_at(s, k),
{
    let w = p + s + t;
    let m = camera_marker();
    let n = p.len() as int;
    assert(m[0] == 'C' && m.len() == 9);
    if label_starts_at(s, k) {
        assert forall|i: int| 0 <= i < m.len() implies w[k + n + i] == #[trigger] m[i] by {
            assert(w[k + n + i] == s[k + i]);
        }
        assert(w[k + n + 9] == s[k + 9]);
    }
    if label_starts_at(w, k + n) {
        assert(w[k + n + 0] == m[0]);
        if k < 0 {
            assert(w[k + n] == p[k + n]);
        }
        if k + 9 >= s.len() {
            assert(w[k + n + 9] == t[k + 9 - s.len()]);
        }
        assert forall|i: int| 0 <= i < m.len() implies s[k + i] == #[trigger] m[i] by {
            assert(w[k + n + i] == s[k + i]);
        }
        assert(w[k + n + 9] == s[k + 9]);
    }
}

/// A line terminator behind a text without one is what `strip_terminator`
/// takes away.
pub proof fn lemma_strip_terminator(u: Seq<char>, t: Seq<char>)
    requires
        plain(u),
        is_terminator(t),
    ensures
        strip_terminator(u + t) == u,
{
    let w = u + t;
    let n = w.len() as int;
    if t.len() == 0 {
        assert(w == u);
        if n >= 1 {
            assert(w[n - 1] == u[n - 1]);
        }
    } else if t.len() == 1 {
        assert(w[n - 1] == t[0]);
        if n >= 2 {
            assert(w[n - 2] == u[n - 2]);
        }
        assert(w.take(n - 1) == u);
    } else {
        assert(w[n - 1] == t[1]);
        assert(w[n - 2] == t[0]);
        assert(w.take(n - 2) == u);
    }
}

/// Blanks before a line and a line terminator behind it do not change its
/// camera label.
pub proof fn lemma_camera_label_padding(p: Seq<char>, s: Seq<char>, t: Seq<char>)
    requires
        all_blank(p),
        plain(s),
        is_terminator(t),
    ensures
        camera_label(p + s + t) == camera_label(s),
{
    reveal(camera_label);
    let w = p + s + t;
    let n = p.len() as int;
    lemma_last_label_start(s, s.len() as int);
    lemma_last_label_start(w, w.len() as int);
    assert(camera_marker().len() == 9);
    assert forall|k: int| label_starts_at(w, k) == label_starts_at(s, k - n) by {
        lemma_label_start_padding(p, s, t, k - n);
    }
    match last_label_start(s, s.len() as int) {
        Some(k) => {
            assert(label_starts_at(w, k + n));
            let j = last_label_start(w, w.len() as int)->0;
            assert(label_starts_at(s, j - n));
            assert(j == k + n);
            let u = s.skip(k + 10);
            assert(w.skip(j + 10) == u + t);
            assert forall|i: int| 0 <= i < u.len() implies #[trigger] u[i] != '\r' && u[i]
                != '\n' by {
                assert(u[i] == s[k + 10 + i]);
            }
            lemma_strip_terminator(u, t);
            assert(u + Seq::<char>::empty() == u);
            lemma_strip_terminator(u, Seq::<char>::empty());
        },
        None => {
            if let Some(j) = last_label_start(w, w.len() as int) {
                assert(label_starts_at(s, j - n));
            }
        },
    }
}

/// A line with the tag of the intrinsic matrix is no row of numbers and no
/// pixel line.
pub proof fn lemma_k_tag_is_no_row(s: Seq<char>, n: nat)
    requires
        has_k_tag(s),
    ensures
        number_row(s, n) is None,
        pixel_row(s) is None,
{
    reveal(has_k_tag);
    let k = choose|k: int| has_marker_at(s, k, k_marker());
    assert(k_marker()[0] == 'M');
    assert(s[k + 0] == k_marker()[0]);
    if number_row(s, n) is Some {
        lemma_number_row_free(s, n, 'M');
    }
    if pixel_row(s) is Some {
        lemma_pixel_row_free(s, 'M');
    }
}

} // verus!
