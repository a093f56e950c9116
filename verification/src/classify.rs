//! The line grammars. Each says what one line is when read alone: a row of
//! numbers, a pixel, a camera label or the tag of the intrinsic matrix.

use crate::data::text_of;
use crate::number::{float_bits, token_bits};
use crate::parser::Parser;
use crate::scan::{
    blanks_end, chars_of, is_blank, is_blank_char, is_line_end, line_ends_at, number_end,
    number_len, trim_blanks,
};
use vstd::prelude::*;
use vstd::string::StrSliceExecFns;

verus! {

/// The first `n` numbers of `s`, blanks allowed before each, and what is left
/// behind the last of them. `None` where `s` starts with fewer.
pub open spec fn numbers(s: Seq<char>, n: nat) -> Option<(Seq<Seq<char>>, Seq<char>)>
    decreases n,
{
    if n == 0 {
        Some((Seq::empty(), s))
    } else {
        match numbers(s, (n - 1) as nat) {
            None => None,
            Some((tokens, rest)) => {
                let t = trim_blanks(rest);
                match number_len(t) {
                    None => None,
                    Some(k) => Some((tokens.push(t.take(k as int)), t.skip(k as int))),
                }
            },
        }
    }
}

/// The tokens of a line that holds `n` numbers and nothing else but blanks
/// and an optional line terminator.
pub open spec fn number_row(s: Seq<char>, n: nat) -> Option<Seq<Seq<char>>> {
    match numbers(s, n) {
        Some((tokens, rest)) => if is_line_end(rest) {
            Some(tokens)
        } else {
            None
        },
        None => None,
    }
}

/// `s` behind its leading blanks and behind `mark`, where `mark` follows them.
pub open spec fn skip_mark(s: Seq<char>, mark: char) -> Seq<char> {
    let t = trim_blanks(s);
    if t.len() > 0 && t[0] == mark {
        t.skip(1)
    } else {
        t
    }
}

/// The two tokens of a pixel line: two numbers, with an optional `[` before
/// the first, an optional `,` between them and an optional `]` behind the
/// second, blanks allowed around each, and nothing else but an optional line
/// terminator.
pub open spec fn pixel_row(s: Seq<char>) -> Option<Seq<Seq<char>>> {
    let a = trim_blanks(skip_mark(s, '['));
    match number_len(a) {
        None => None,
        Some(k) => {
            let b = trim_blanks(skip_mark(a.skip(k as int), ','));
            match number_len(b) {
                None => None,
                Some(j) => if is_line_end(skip_mark(b.skip(j as int), ']')) {
                    Some(seq![a.take(k as int), b.take(j as int)])
                } else {
                    None
                },
            }
        },
    }
}

/// The values of `tokens`, where each of them has one.
pub open spec fn all_bits(tokens: Seq<Seq<char>>) -> Option<Seq<u32>> {
    if forall|i: int| 0 <= i < tokens.len() ==> (#[trigger] float_bits(tokens[i])) is Some {
        Some(Seq::new(tokens.len(), |i: int| float_bits(tokens[i])->0))
    } else {
        None
    }
}

/// The values of a line of exactly four numbers.
#[verifier::opaque]
pub open spec fn four_floats(s: Seq<char>) -> Option<(u32, u32, u32, u32)> {
    match number_row(s, 4) {
        Some(tokens) => match all_bits(tokens) {
            Some(v) => Some((v[0], v[1], v[2], v[3])),
            None => None,
        },
        None => None,
    }
}

/// The values of a line of exactly three numbers.
#[verifier::opaque]
pub open spec fn three_floats(s: Seq<char>) -> Option<(u32, u32, u32)> {
    match number_row(s, 3) {
        Some(tokens) => match all_bits(tokens) {
            Some(v) => Some((v[0], v[1], v[2])),
            None => None,
        },
        None => None,
    }
}

/// The values of a pixel line.
#[verifier::opaque]
pub open spec fn two_floats(s: Seq<char>) -> Option<(u32, u32)> {
    match pixel_row(s) {
        Some(tokens) => match all_bits(tokens) {
            Some(v) => Some((v[0], v[1])),
            None => None,
        },
        None => None,
    }
}

/// The marker of a camera label line.
pub open spec fn camera_marker() -> Seq<char> {
    seq!['C', 'A', 'M', 'E', 'R', 'A', '_', 'I', 'D']
}

/// The marker of the line that announces the intrinsic matrix.
pub open spec fn k_marker() -> Seq<char> {
    seq!['M', 'A', 'T', 'R', 'I', 'X', ' ', 'K']
}

/// Whether `marker` stands in `s` at index `k`.
pub open spec fn has_marker_at(s: Seq<char>, k: int, marker: Seq<char>) -> bool {
    &&& 0 <= k
    &&& k + marker.len() <= s.len()
    &&& forall|i: int| 0 <= i < marker.len() ==> s[k + i] == #[trigger] marker[i]
}

/// Whether the camera marker stands in `s` at index `k` with a blank behind it.
pub open spec fn label_starts_at(s: Seq<char>, k: int) -> bool {
    &&& has_marker_at(s, k, camera_marker())
    &&& k + camera_marker().len() < s.len()
    &&& is_blank(s[k + camera_marker().len()])
}

/// The greatest index up to `upto` at which a camera label starts.
pub open spec fn last_label_start(s: Seq<char>, upto: int) -> Option<int>
    decreases upto + 1,
{
    if upto < 0 {
        None
    } else if label_starts_at(s, upto) {
        Some(upto)
    } else {
        last_label_start(s, upto - 1)
    }
}

/// `s` without the line terminator at its end, where it has one.
pub open spec fn strip_terminator(s: Seq<char>) -> Seq<char> {
    let n = s.len() as int;
    if n >= 2 && s[n - 2] == '\r' && s[n - 1] == '\n' {
        s.take(n - 2)
    } else if n >= 1 && s[n - 1] == '\n' {
        s.take(n - 1)
    } else {
        s
    }
}

/// The label of a camera label line: what follows the last camera marker
/// that has a blank behind it, from behind that blank to the end of the line,
/// the line terminator left out.
#[verifier::opaque]
pub open spec fn camera_label(s: Seq<char>) -> Option<Seq<char>> {
    match last_label_start(s, s.len() as int) {
        Some(k) => Some(strip_terminator(s.skip(k + camera_marker().len() + 1))),
        None => None,
    }
}

/// Whether the line announces the intrinsic matrix: the marker stands
/// somewhere in it.
#[verifier::opaque]
pub open spec fn has_k_tag(s: Seq<char>) -> bool {
    exists|k: int| has_marker_at(s, k, k_marker())
}

/// What the five grammars make of one line.
pub struct LineReading {
    /// The label, where the line is a camera label line.
    pub camera_id: Option<String>,
    /// The values, where the line is a row of exactly four numbers.
    pub four_floats: Option<(u32, u32, u32, u32)>,
    /// The values, where the line is a row of exactly three numbers.
    pub three_floats: Option<(u32, u32, u32)>,
    /// The values, where the line is a pixel line.
    pub two_floats: Option<(u32, u32)>,
    /// Whether the line holds the tag of the intrinsic matrix.
    pub k_tag: bool,
}

/// The view of a `LineReading`.
pub struct Reading {
    pub camera_id: Option<Seq<char>>,
    pub four_floats: Option<(u32, u32, u32, u32)>,
    pub three_floats: Option<(u32, u32, u32)>,
    pub two_floats: Option<(u32, u32)>,
    pub k_tag: bool,
}

impl View for LineReading {
    type V = Reading;

    open spec fn view(&self) -> Reading {
        Reading {
            camera_id: text_of(self.camera_id),
            four_floats: self.four_floats,
            three_floats: self.three_floats,
            two_floats: self.two_floats,
            k_tag: self.k_tag,
        }
    }
}

/// The reading of a line.
pub open spec fn reading(line: Seq<char>) -> Reading {
    Reading {
        camera_id: camera_label(line),
        four_floats: four_floats(line),
        three_floats: three_floats(line),
        two_floats: two_floats(line),
        k_tag: has_k_tag(line),
    }
}

/// What `last_label_start` finds is the last start of a label, and where it
/// finds none there is none.
pub proof fn lemma_last_label_start(s: Seq<char>, upto: int)
    ensures
        match last_label_start(s, upto) {
            Some(k) => 0 <= k <= upto && label_starts_at(s, k) && forall|j: int|
                k < j <= upto ==> !label_starts_at(s, j),
            None => forall|j: int| 0 <= j <= upto ==> !label_starts_at(s, j),
        },
    decreases upto + 1,
{
    if upto >= 0 && !label_starts_at(s, upto) {
        lemma_last_label_start(s, upto - 1);
    }
}

/// Once `s` starts with fewer than `n` numbers it starts with fewer than any
/// greater count.
pub proof fn lemma_numbers_none(s: Seq<char>, n: nat, m: nat)
    requires
        n <= m,
        numbers(s, n) is None,
    ensures
        numbers(s, m) is None,
    decreases m,
{
    if n < m {
        lemma_numbers_none(s, n, (m - 1) as nat);
    }
}

/// The parts of `s` that `spans` mark, each from its first index up to its
/// second.
pub open spec fn span_tokens(s: Seq<char>, spans: Seq<(usize, usize)>) -> Seq<Seq<char>> {
    Seq::new(spans.len(), |i: int| s.subrange(spans[i].0 as int, spans[i].1 as int))
}

/// Whether each of `spans` lies within a text of length `len`.
pub open spec fn spans_within(spans: Seq<(usize, usize)>, len: nat) -> bool {
    forall|i: int| 0 <= i < spans.len() ==> (#[trigger] spans[i]).0 <= spans[i].1 <= len
}

/// Where the number stands that follows the blanks from `from` on.
pub fn number_at(s: &Vec<char>, from: usize) -> (r: Option<(usize, usize)>)
    requires
        from <= s.len(),
    ensures
        match number_len(trim_blanks(s@.skip(from as int))) {
            Some(k) => r matches Some((start, end)) && from <= start < end <= s.len()
                && trim_blanks(s@.skip(from as int)).take(k as int) == s@.subrange(
                start as int,
                end as int,
            ) && trim_blanks(s@.skip(from as int)).skip(k as int) == s@.skip(end as int),
            None => r is None,
        },
{
    let start = blanks_end(s, from);
    match number_end(s, start) {
        None => None,
        Some(end) => {
            let ghost t = s@.skip(start as int);
            assert(t.take(end - start) == s@.subrange(start as int, end as int));
            assert(t.skip(end - start) == s@.skip(end as int));
            Some((start, end))
        },
    }
}

/// Where the first `n` numbers of `s` stand, and the index behind the last.
pub fn number_spans(s: &Vec<char>, n: usize) -> (r: Option<(Vec<(usize, usize)>, usize)>)
    ensures
        match numbers(s@, n as nat) {
            Some((tokens, rest)) => r matches Some((spans, end)) && end <= s.len() && spans_within(
                spans@,
                s@.len(),
            ) && span_tokens(s@, spans@) == tokens && s@.skip(end as int) == rest,
            None => r is None,
        },
{
    let mut spans: Vec<(usize, usize)> = Vec::new();
    let mut pos: usize = 0;
    let mut i: usize = 0;
    assert(span_tokens(s@, spans@) == Seq::<Seq<char>>::empty());
    assert(s@.skip(0) == s@);
    while i < n
        invariant
            i <= n,
            pos <= s.len(),
            spans_within(spans@, s@.len()),
            numbers(s@, i as nat) == Some((span_tokens(s@, spans@), s@.skip(pos as int))),
        decreases n - i,
    {
        match number_at(s, pos) {
            None => {
                proof {
                    lemma_numbers_none(s@, (i + 1) as nat, n as nat);
                }
                return None;
            },
            Some((start, end)) => {
                let ghost before = spans@;
                spans.push((start, end));
                assert(span_tokens(s@, spans@) == span_tokens(s@, before).push(
                    s@.subrange(start as int, end as int),
                ));
                pos = end;
                i += 1;
            },
        }
    }
    Some((spans, pos))
}

/// Where the numbers of a line of `n` numbers stand.
pub fn row_spans(s: &Vec<char>, n: usize) -> (r: Option<Vec<(usize, usize)>>)
    ensures
        match number_row(s@, n as nat) {
            Some(tokens) => r matches Some(spans) && spans_within(spans@, s@.len())
                && span_tokens(s@, spans@) == tokens,
            None => r is None,
        },
{
    match number_spans(s, n) {
        Some((spans, end)) => if line_ends_at(s, end) {
            Some(spans)
        } else {
            None
        },
        None => None,
    }
}

/// The index behind the blanks that start at `from` and behind `mark`, where
/// `mark` follows them.
pub fn mark_end(s: &Vec<char>, from: usize, mark: char) -> (r: usize)
    requires
        from <= s.len(),
    ensures
        from <= r <= s.len(),
        s@.skip(r as int) == skip_mark(s@.skip(from as int), mark),
{
    let k = blanks_end(s, from);
    if k < s.len() && s[k] == mark {
        assert(s@.skip(k as int).skip(1) == s@.skip(k + 1));
        k + 1
    } else {
        k
    }
}

/// Where the two numbers of a pixel line stand.
pub fn pixel_spans(s: &Vec<char>) -> (r: Option<Vec<(usize, usize)>>)
    ensures
        match pixel_row(s@) {
            Some(tokens) => r matches Some(spans) && spans_within(spans@, s@.len())
                && span_tokens(s@, spans@) == tokens,
            None => r is None,
        },
{
    assert(s@.skip(0) == s@);
    let open = mark_end(s, 0, '[');
    match number_at(s, open) {
        None => None,
        Some((a, a_end)) => {
            let comma = mark_end(s, a_end, ',');
            match number_at(s, comma) {
                None => None,
                Some((b, b_end)) => {
                    let close = mark_end(s, b_end, ']');
                    if line_ends_at(s, close) {
                        let mut spans: Vec<(usize, usize)> = Vec::new();
                        spans.push((a, a_end));
                        spans.push((b, b_end));
                        assert(span_tokens(s@, spans@) == seq![
                            s@.subrange(a as int, a_end as int),
                            s@.subrange(b as int, b_end as int),
                        ]);
                        Some(spans)
                    } else {
                        None
                    }
                },
            }
        },
    }
}

/// The values of the parts of `line` that `spans` mark, where each part has
/// one.
pub fn span_values(line: &str, spans: &Vec<(usize, usize)>) -> (r: Option<Vec<u32>>)
    requires
        spans_within(spans@, line@.len()),
    ensures
        match all_bits(span_tokens(line@, spans@)) {
            Some(values) => r matches Some(v) && v@ == values,
            None => r is None,
        },
{
    let ghost tokens = span_tokens(line@, spans@);
    let mut values: Vec<u32> = Vec::new();
    let mut i: usize = 0;
    while i < spans.len()
        invariant
            i <= spans.len(),
            tokens == span_tokens(line@, spans@),
            spans_within(spans@, line@.len()),
            values.len() == i,
            forall|j: int| 0 <= j < i ==> float_bits(#[trigger] tokens[j]) == Some(values[j]),
        decreases spans.len() - i,
    {
        let (start, end) = spans[i];
        assert(spans@[i as int].0 <= spans@[i as int].1 <= line@.len());
        let token = line.substring_char(start, end);
        assert(token@ == tokens[i as int]);
        match token_bits(token) {
            None => {
                return None;
            },
            Some(bits) => {
                values.push(bits);
            },
        }
        i += 1;
    }
    assert(values@ == all_bits(tokens)->0);
    Some(values)
}

/// Where no label starts above `lo`, the search from `hi` down finds what the
/// search from `lo` down finds.
pub proof fn lemma_label_search_skips(s: Seq<char>, lo: int, hi: int)
    requires
        -1 <= lo <= hi,
        forall|j: int| lo < j <= hi ==> !label_starts_at(s, j),
    ensures
        last_label_start(s, hi) == last_label_start(s, lo),
    decreases hi - lo,
{
    if lo < hi {
        lemma_label_search_skips(s, lo, hi - 1);
    }
}

/// The camera marker, character by character.
pub fn camera_marker_chars() -> (v: Vec<char>)
    ensures
        v@ == camera_marker(),
{
    let v = vec!['C', 'A', 'M', 'E', 'R', 'A', '_', 'I', 'D'];
    assert(v@ =~= camera_marker());
    v
}

/// The marker of the intrinsic matrix, character by character.
pub fn k_marker_chars() -> (v: Vec<char>)
    ensures
        v@ == k_marker(),
{
    let v = vec!['M', 'A', 'T', 'R', 'I', 'X', ' ', 'K'];
    assert(v@ =~= k_marker());
    v
}

/// Whether `marker` stands in `s` at index `k`.
pub fn marker_at(s: &Vec<char>, k: usize, marker: &Vec<char>) -> (b: bool)
    ensures
        b == has_marker_at(s@, k as int, marker@),
{
    if marker.len() > s.len() || k > s.len() - marker.len() {
        return false;
    }
    let mut i: usize = 0;
    while i < marker.len()
        invariant
            i <= marker.len(),
            k + marker.len() <= s.len(),
            forall|j: int| 0 <= j < i ==> s@[k + j] == #[trigger] marker@[j],
        decreases marker.len() - i,
    {
        if s[k + i] != marker[i] {
            return false;
        }
        i += 1;
    }
    true
}

/// Whether `marker` stands somewhere in `s`.
pub fn contains_marker(s: &Vec<char>, marker: &Vec<char>) -> (b: bool)
    requires
        marker.len() > 0,
    ensures
        b == exists|k: int| has_marker_at(s@, k, marker@),
{
    let mut k: usize = 0;
    while k < s.len()
        invariant
            k <= s.len(),
            forall|j: int| 0 <= j < k ==> !has_marker_at(s@, j, marker@),
        decreases s.len() - k,
    {
        if marker_at(s, k, marker) {
            return true;
        }
        k += 1;
    }
    false
}

/// The index at which the last camera label of `s` starts.
pub fn label_start(s: &Vec<char>) -> (r: Option<usize>)
    ensures
        match last_label_start(s@, s@.len() as int) {
            Some(k) => r matches Some(j) && j == k && k + 10 <= s.len(),
            None => r is None,
        },
{
    let marker = camera_marker_chars();
    let n = s.len();
    if n < 10 {
        proof {
            lemma_label_search_skips(s@, -1, n as int);
        }
        return None;
    }
    let mut k: usize = n - 10;
    proof {
        lemma_label_search_skips(s@, k as int, n as int);
    }
    loop
        invariant
            n == s.len(),
            k + 10 <= n,
            marker@ == camera_marker(),
            last_label_start(s@, n as int) == last_label_start(s@, k as int),
        decreases k,
    {
        if marker_at(s, k, &marker) && is_blank_char(s[k + 9]) {
            assert(label_starts_at(s@, k as int));
            return Some(k);
        }
        if k == 0 {
            assert(last_label_start(s@, -1) is None);
            return None;
        }
        k -= 1;
    }
}

/// The index at which the line terminator of the text from `from` on starts,
/// or the length of `s` where that text has none.
pub fn terminator_start(s: &Vec<char>, from: usize) -> (end: usize)
    requires
        from <= s.len(),
    ensures
        from <= end <= s.len(),
        s@.subrange(from as int, end as int) == strip_terminator(s@.skip(from as int)),
{
    let n = s.len();
    let ghost t = s@.skip(from as int);
    if n - from >= 2 && s[n - 2] == '\r' && s[n - 1] == '\n' {
        assert(t.take(t.len() - 2) == s@.subrange(from as int, n - 2));
        n - 2
    } else if n - from >= 1 && s[n - 1] == '\n' {
        assert(t.take(t.len() - 1) == s@.subrange(from as int, n - 1));
        n - 1
    } else {
        assert(t == s@.subrange(from as int, n as int));
        n
    }
}

/// The first `n` numbers are `n` tokens.
pub proof fn lemma_numbers_len(s: Seq<char>, n: nat)
    ensures
        numbers(s, n) matches Some((tokens, _)) ==> tokens.len() == n,
    decreases n,
{
    if n > 0 {
        lemma_numbers_len(s, (n - 1) as nat);
    }
}

/// The values of a line of exactly four numbers, given the line and its
/// characters.
pub fn four_floats_in(l: &str, chars: &Vec<char>) -> (r: Option<(u32, u32, u32, u32)>)
    requires
        chars@ == l@,
    ensures
        r == four_floats(l@),
{
    proof {
        reveal(four_floats);
        lemma_numbers_len(l@, 4);
    }
    match row_spans(chars, 4) {
        None => None,
        Some(spans) => match span_values(l, &spans) {
            None => None,
            Some(v) => Some((v[0], v[1], v[2], v[3])),
        },
    }
}

/// The values of a line of exactly three numbers, given the line and its
/// characters.
pub fn three_floats_in(l: &str, chars: &Vec<char>) -> (r: Option<(u32, u32, u32)>)
    requires
        chars@ == l@,
    ensures
        r == three_floats(l@),
{
    proof {
        reveal(three_floats);
        lemma_numbers_len(l@, 3);
    }
    match row_spans(chars, 3) {
        None => None,
        Some(spans) => match span_values(l, &spans) {
            None => None,
            Some(v) => Some((v[0], v[1], v[2])),
        },
    }
}

/// The values of a pixel line, given the line and its characters.
pub fn two_floats_in(l: &str, chars: &Vec<char>) -> (r: Option<(u32, u32)>)
    requires
        chars@ == l@,
    ensures
        r == two_floats(l@),
{
    proof {
        reveal(two_floats);
    }
    match pixel_spans(chars) {
        None => None,
        Some(spans) => match span_values(l, &spans) {
            None => None,
            Some(v) => Some((v[0], v[1])),
        },
    }
}

/// The label of a camera label line, given the line and its characters.
pub fn camera_id_in(l: &str, chars: &Vec<char>) -> (r: Option<String>)
    requires
        chars@ == l@,
    ensures
        text_of(r) == camera_label(l@),
{
    proof {
        reveal(camera_label);
    }
    match label_start(chars) {
        None => None,
        Some(k) => {
            assert(camera_marker().len() == 9);
            let from = k + 10;
            let end = terminator_start(chars, from);
            Some(l.substring_char(from, end).to_owned())
        },
    }
}

/// Whether the characters of a line hold the tag of the intrinsic matrix.
pub fn k_tag_in(chars: &Vec<char>) -> (b: bool)
    ensures
        b == has_k_tag(chars@),
{
    proof {
        reveal(has_k_tag);
    }
    let marker = k_marker_chars();
    contains_marker(chars, &marker)
}

impl Parser {
    /// Reads a line as a row of exactly four numbers.
    pub fn get_four_floats(l: &str) -> (r: Option<(u32, u32, u32, u32)>)
        ensures
            r == four_floats(l@),
    {
        let chars = chars_of(l);
        four_floats_in(l, &chars)
    }

    /// Reads a line as a row of exactly three numbers.
    pub fn get_three_floats(l: &str) -> (r: Option<(u32, u32, u32)>)
        ensures
            r == three_floats(l@),
    {
        let chars = chars_of(l);
        three_floats_in(l, &chars)
    }

    /// Reads a line as a pixel.
    pub fn get_two_floats(l: &str) -> (r: Option<(u32, u32)>)
        ensures
            r == two_floats(l@),
    {
        let chars = chars_of(l);
        two_floats_in(l, &chars)
    }

    /// Reads a line as a camera label line and hands out the label.
    pub fn get_camera_id(l: &str) -> (r: Option<String>)
        ensures
            text_of(r) == camera_label(l@),
    {
        let chars = chars_of(l);
        camera_id_in(l, &chars)
    }

    /// Whether a line holds the tag of the intrinsic matrix.
    pub fn get_k_tag(l: &str) -> (b: bool)
        ensures
            b == has_k_tag(l@),
    {
        let chars = chars_of(l);
        k_tag_in(&chars)
    }

    /// Reads a line with each of the five grammars.
    pub fn classify(l: &str) -> (r: LineReading)
        ensures
            r@ == reading(l@),
    {
        let chars = chars_of(l);
        LineReading {
            camera_id: camera_id_in(l, &chars),
            four_floats: four_floats_in(l, &chars),
            three_floats: three_floats_in(l, &chars),
            two_floats: two_floats_in(l, &chars),
            k_tag: k_tag_in(&chars),
        }
    }
}

} // verus!
