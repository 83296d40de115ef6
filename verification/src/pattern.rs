//! The pattern that picks the two keys out of a Postgres conflict detail,
//!
//! ```text
//! \((k1: W+)\s*,\s*(k2: W+)\)=\((v1: W+)\s*,\s*\[(v2: [^)\]]+)
//! ```
//!
//! where `W` is `[a-zA-Z0-9_-]` and `\s` is a Unicode white-space character,
//! and a scanner that finds its successive, non-overlapping, leftmost
//! matches.
//!
//! Every class that follows a repeated class in the pattern is disjoint from
//! it, so at a given position the pattern can match in one way only, except
//! for the length of the last group, which is taken as long as possible.
//! `match_at` computes that match; `lemma_match_at_is_the_match` shows that it
//! is the only one that satisfies the pattern read literally
//! (`pattern_matches`) with a longest last group.

use vstd::prelude::*;

verus! {

/// The character classes that the pattern repeats.
#[derive(Clone, Copy, Debug, PartialEq, Eq, Structural)]
pub enum CharClass {
    /// `[a-zA-Z0-9_-]`
    Word,
    /// Unicode `White_Space`
    Space,
    /// `[^)\]]`: anything but a closing parenthesis or bracket
    Value,
}

pub open spec fn is_word_char(c: char) -> bool {
    ('a' <= c && c <= 'z') || ('A' <= c && c <= 'Z') || ('0' <= c && c <= '9') || c == '_' || c
        == '-'
}

/// The Unicode `White_Space` property.
pub open spec fn is_space_char(c: char) -> bool {
    ('\t' <= c && c <= '\r') || c == ' ' || c == '\u{85}' || c == '\u{a0}' || c == '\u{1680}' || (
    '\u{2000}' <= c && c <= '\u{200a}') || c == '\u{2028}' || c == '\u{2029}' || c == '\u{202f}'
        || c == '\u{205f}' || c == '\u{3000}'
}

pub open spec fn is_value_char(c: char) -> bool {
    c != ')' && c != ']'
}

pub open spec fn in_class(k: CharClass, c: char) -> bool {
    match k {
        CharClass::Word => is_word_char(c),
        CharClass::Space => is_space_char(c),
        CharClass::Value => is_value_char(c),
    }
}

/// The three classes, character by character: `Word` is exactly the ASCII
/// letters of either case, the ASCII digits, `_` and `-`; `Space` is exactly
/// the Unicode `White_Space` characters (U+0009..U+000D, U+0020, U+0085,
/// U+00A0, U+1680, U+2000..U+200A, U+2028, U+2029, U+202F, U+205F, U+3000);
/// `Value` is every character but `)` and `]`.
pub proof fn lemma_char_classes(c: char)
    ensures
        in_class(CharClass::Word, c) <==> (('a' <= c && c <= 'z') || ('A' <= c && c <= 'Z') || (
        '0' <= c && c <= '9') || c == '_' || c == '-'),
        in_class(CharClass::Space, c) <==> ((c as u32) >= 9 && (c as u32) <= 13 || (c as u32) == 32
            || (c as u32) == 0x85 || (c as u32) == 0xa0 || (c as u32) == 0x1680 || ((c as u32)
            >= 0x2000 && (c as u32) <= 0x200a) || (c as u32) == 0x2028 || (c as u32) == 0x2029
            || (c as u32) == 0x202f || (c as u32) == 0x205f || (c as u32) == 0x3000),
        in_class(CharClass::Value, c) <==> (c != ')' && c != ']'),
{
}

/// Whether `c` belongs to class `k`.
pub fn class_contains(k: CharClass, c: char) -> (r: bool)
    ensures
        r == in_class(k, c),
{
    match k {
        CharClass::Word => (c >= 'a' && c <= 'z') || (c >= 'A' && c <= 'Z') || (c >= '0' && c
            <= '9') || c == '_' || c == '-',
        CharClass::Space => (c >= '\t' && c <= '\r') || c == ' ' || c == '\u{85}' || c
            == '\u{a0}' || c == '\u{1680}' || (c >= '\u{2000}' && c <= '\u{200a}') || c
            == '\u{2028}' || c == '\u{2029}' || c == '\u{202f}' || c == '\u{205f}' || c
            == '\u{3000}',
        CharClass::Value => c != ')' && c != ']',
    }
}

/// The end of the longest run of characters of class `k` that starts at `i`.
pub open spec fn run_end(s: Seq<char>, i: int, k: CharClass) -> int
    decreases s.len() - i,
{
    if 0 <= i < s.len() && in_class(k, s[i]) {
        run_end(s, i + 1, k)
    } else {
        i
    }
}

/// Every character of `s[lo..hi]` is of class `k`.
pub open spec fn all_in(s: Seq<char>, lo: int, hi: int, k: CharClass) -> bool {
    &&& 0 <= lo <= hi <= s.len()
    &&& forall|j: int| lo <= j < hi ==> in_class(k, #[trigger] s[j])
}

/// `s[i]` exists and is `c`.
pub open spec fn char_at(s: Seq<char>, i: int, c: char) -> bool {
    0 <= i < s.len() && s[i] == c
}

pub proof fn lemma_run_end(s: Seq<char>, i: int, k: CharClass)
    requires
        0 <= i <= s.len(),
    ensures
        i <= run_end(s, i, k) <= s.len(),
        all_in(s, i, run_end(s, i, k), k),
        run_end(s, i, k) == s.len() || !in_class(k, s[run_end(s, i, k)]),
    decreases s.len() - i,
{
    if i < s.len() && in_class(k, s[i]) {
        lemma_run_end(s, i + 1, k);
    }
}

/// A run of class `k` from `lo` to `hi` that cannot be extended ends at
/// `run_end(s, lo, k)`.
pub proof fn lemma_run_end_unique(s: Seq<char>, lo: int, hi: int, k: CharClass)
    requires
        all_in(s, lo, hi, k),
        hi == s.len() || !in_class(k, s[hi]),
    ensures
        run_end(s, lo, k) == hi,
    decreases hi - lo,
{
    if lo < hi {
        assert(in_class(k, s[lo]));
        lemma_run_end_unique(s, lo + 1, hi, k);
    }
}

/// Positions of the four groups of one match: `(start, end)` of `k1`, `k2`,
/// `v1` and `v2`. The match itself ends where `v2` ends.
pub struct CaptureModel {
    pub key1: (int, int),
    pub key2: (int, int),
    pub value1: (int, int),
    pub value2: (int, int),
}

/// The match of the pattern that starts at `i`, if there is one.
#[verifier::opaque]
pub open spec fn match_at(s: Seq<char>, i: int) -> Option<CaptureModel> {
    let n = s.len();
    if !char_at(s, i, '(') {
        None
    } else {
        let a = i + 1;
        let b = run_end(s, a, CharClass::Word);
        let c = run_end(s, b, CharClass::Space);
        if !(b > a && char_at(s, c, ',')) {
            None
        } else {
            let d = run_end(s, c + 1, CharClass::Space);
            let e = run_end(s, d, CharClass::Word);
            if !(e > d && char_at(s, e, ')') && char_at(s, e + 1, '=') && char_at(s, e + 2, '(')) {
                None
            } else {
                let f = e + 3;
                let g = run_end(s, f, CharClass::Word);
                let h = run_end(s, g, CharClass::Space);
                if !(g > f && char_at(s, h, ',')) {
                    None
                } else {
                    let k = run_end(s, h + 1, CharClass::Space);
                    if !char_at(s, k, '[') {
                        None
                    } else {
                        let m = run_end(s, k + 1, CharClass::Value);
                        if !(m > k + 1) {
                            None
                        } else {
                            Some(
                                CaptureModel {
                                    key1: (a, b),
                                    key2: (d, e),
                                    value1: (f, g),
                                    value2: (k + 1, m),
                                },
                            )
                        }
                    }
                }
            }
        }
    }
}

/// The pattern read literally, with `x`, `y` and `z` the positions of the
/// two separating commas and of the opening bracket: each group and each
/// `\s*` covers characters of its class, and the literal characters are in
/// place.
pub open spec fn pattern_matches_with(s: Seq<char>, i: int, c: CaptureModel, x: int, y: int, z: int) -> bool {
    &&& char_at(s, i, '(')
    &&& c.key1.0 == i + 1 && c.key1.0 < c.key1.1 && all_in(s, c.key1.0, c.key1.1, CharClass::Word)
    &&& all_in(s, c.key1.1, x, CharClass::Space) && char_at(s, x, ',')
    &&& all_in(s, x + 1, c.key2.0, CharClass::Space)
    &&& c.key2.0 < c.key2.1 && all_in(s, c.key2.0, c.key2.1, CharClass::Word)
    &&& char_at(s, c.key2.1, ')') && char_at(s, c.key2.1 + 1, '=') && char_at(s, c.key2.1 + 2, '(')
    &&& c.value1.0 == c.key2.1 + 3 && c.value1.0 < c.value1.1
    &&& all_in(s, c.value1.0, c.value1.1, CharClass::Word)
    &&& all_in(s, c.value1.1, y, CharClass::Space) && char_at(s, y, ',')
    &&& all_in(s, y + 1, z, CharClass::Space) && char_at(s, z, '[')
    &&& c.value2.0 == z + 1 && c.value2.0 < c.value2.1
    &&& all_in(s, c.value2.0, c.value2.1, CharClass::Value)
}

/// `c` is a way for the pattern to match `s` at `i`.
pub open spec fn pattern_matches(s: Seq<char>, i: int, c: CaptureModel) -> bool {
    exists|x: int, y: int, z: int| pattern_matches_with(s, i, c, x, y, z)
}

/// The last group of `c` cannot be extended: it is as long as the greedy
/// `+` that ends the pattern makes it.
pub open spec fn last_group_is_longest(s: Seq<char>, c: CaptureModel) -> bool {
    c.value2.1 == s.len() || !is_value_char(s[c.value2.1])
}

/// `match_at` is exactly the match of the pattern at `i` whose last group is
/// longest: a match of the pattern read literally, and the only one, since
/// every class that follows a repeated class is disjoint from it.
pub proof fn lemma_match_at_is_the_match(s: Seq<char>, i: int, c: CaptureModel)
    ensures
        match_at(s, i) == Some(c) <==> (pattern_matches(s, i, c) && last_group_is_longest(s, c)),
{
    reveal(match_at);
    if match_at(s, i) == Some(c) {
        let n = s.len();
        let a = i + 1;
        lemma_run_end(s, a, CharClass::Word);
        let b = run_end(s, a, CharClass::Word);
        lemma_run_end(s, b, CharClass::Space);
        let x = run_end(s, b, CharClass::Space);
        lemma_run_end(s, x + 1, CharClass::Space);
        let d = run_end(s, x + 1, CharClass::Space);
        lemma_run_end(s, d, CharClass::Word);
        let e = run_end(s, d, CharClass::Word);
        let f = e + 3;
        lemma_run_end(s, f, CharClass::Word);
        let g = run_end(s, f, CharClass::Word);
        lemma_run_end(s, g, CharClass::Space);
        let y = run_end(s, g, CharClass::Space);
        lemma_run_end(s, y + 1, CharClass::Space);
        let z = run_end(s, y + 1, CharClass::Space);
        lemma_run_end(s, z + 1, CharClass::Value);
        assert(pattern_matches_with(s, i, c, x, y, z));
    }
    if pattern_matches(s, i, c) && last_group_is_longest(s, c) {
        let (x, y, z) = choose|x: int, y: int, z: int| pattern_matches_with(s, i, c, x, y, z);
        // each run stops where the next part of the pattern begins
        assert(!in_class(CharClass::Word, s[c.key1.1])) by {
            if c.key1.1 < x {
                assert(is_space_char(s[c.key1.1]));
            }
        }
        lemma_run_end_unique(s, c.key1.0, c.key1.1, CharClass::Word);
        lemma_run_end_unique(s, c.key1.1, x, CharClass::Space);
        assert(!in_class(CharClass::Space, s[c.key2.0])) by {
            assert(is_word_char(s[c.key2.0]));
        }
        lemma_run_end_unique(s, x + 1, c.key2.0, CharClass::Space);
        lemma_run_end_unique(s, c.key2.0, c.key2.1, CharClass::Word);
        assert(!in_class(CharClass::Word, s[c.value1.1])) by {
            if c.value1.1 < y {
                assert(is_space_char(s[c.value1.1]));
            }
        }
        lemma_run_end_unique(s, c.value1.0, c.value1.1, CharClass::Word);
        lemma_run_end_unique(s, c.value1.1, y, CharClass::Space);
        lemma_run_end_unique(s, y + 1, z, CharClass::Space);
        lemma_run_end_unique(s, c.value2.0, c.value2.1, CharClass::Value);
    }
}

/// A match found at `i` lies within the text and ends after `i`.
pub proof fn lemma_match_at_bounds(s: Seq<char>, i: int)
    ensures
        match_at(s, i) matches Some(c) ==> {
            &&& 0 <= i < c.key1.0 < c.key1.1 < c.key2.0 < c.key2.1 < c.value1.0 < c.value1.1
                < c.value2.0 < c.value2.1 <= s.len()
        },
{
    reveal(match_at);
    if char_at(s, i, '(') {
        let n = s.len();
        let a = i + 1;
        lemma_run_end(s, a, CharClass::Word);
        let b = run_end(s, a, CharClass::Word);
        lemma_run_end(s, b, CharClass::Space);
        let c = run_end(s, b, CharClass::Space);
        if b > a && char_at(s, c, ',') {
            lemma_run_end(s, c + 1, CharClass::Space);
            let d = run_end(s, c + 1, CharClass::Space);
            lemma_run_end(s, d, CharClass::Word);
            let e = run_end(s, d, CharClass::Word);
            if e > d && char_at(s, e, ')') && char_at(s, e + 1, '=') && char_at(s, e + 2, '(') {
                let f = e + 3;
                lemma_run_end(s, f, CharClass::Word);
                let g = run_end(s, f, CharClass::Word);
                lemma_run_end(s, g, CharClass::Space);
                let h = run_end(s, g, CharClass::Space);
                if g > f && char_at(s, h, ',') {
                    lemma_run_end(s, h + 1, CharClass::Space);
                    let k = run_end(s, h + 1, CharClass::Space);
                    if char_at(s, k, '[') {
                        lemma_run_end(s, k + 1, CharClass::Value);
                    }
                }
            }
        }
    }
}

/// The successive non-overlapping matches, searching from position `p`:
/// the leftmost match at or after `p`, then the matches after its end.
#[verifier::opaque]
pub open spec fn matches_from(s: Seq<char>, p: int) -> Seq<CaptureModel>
    decreases s.len() - p,
{
    if p < 0 || p >= s.len() {
        Seq::empty()
    } else {
        match match_at(s, p) {
            Some(c) => {
                proof {
                    lemma_match_at_bounds(s, p);
                }
                seq![c] + matches_from(s, c.value2.1)
            },
            None => matches_from(s, p + 1),
        }
    }
}

/// The groups of `c` lie, in order, within `s`.
pub open spec fn capture_within(s: Seq<char>, c: CaptureModel) -> bool {
    0 <= c.key1.0 <= c.key1.1 <= c.key2.0 <= c.key2.1 <= c.value1.0 <= c.value1.1 <= c.value2.0
        <= c.value2.1 <= s.len()
}

/// Every match found from `p` on lies within `s`.
pub proof fn lemma_matches_within(s: Seq<char>, p: int)
    ensures
        forall|i: int|
            0 <= i < matches_from(s, p).len() ==> capture_within(s, #[trigger] matches_from(s, p)[i]),
    decreases s.len() - p,
{
    reveal(matches_from);
    if 0 <= p < s.len() {
        lemma_match_at_bounds(s, p);
        match match_at(s, p) {
            Some(c) => {
                lemma_matches_within(s, c.value2.1);
                let rest = matches_from(s, c.value2.1);
                assert(matches_from(s, p) == seq![c] + rest);
                assert forall|i: int| 0 <= i < matches_from(s, p).len() implies capture_within(
                    s,
                    #[trigger] matches_from(s, p)[i],
                ) by {
                    if i > 0 {
                        assert(matches_from(s, p)[i] == rest[i - 1]);
                    } else {
                        assert(matches_from(s, p)[i] == c);
                    }
                }
            },
            None => {
                lemma_matches_within(s, p + 1);
                assert(matches_from(s, p) == matches_from(s, p + 1));
            },
        }
    }
}

/// A match at `p` is the first of those found from `p`.
pub proof fn lemma_matches_from_match(s: Seq<char>, p: int, c: CaptureModel)
    requires
        0 <= p,
        match_at(s, p) == Some(c),
    ensures
        matches_from(s, p) == seq![c] + matches_from(s, c.value2.1),
{
    reveal(matches_from);
    lemma_match_at_bounds(s, p);
}

/// Where no match starts at `p`, the search moves on to `p + 1`.
pub proof fn lemma_matches_from_no_match(s: Seq<char>, p: int)
    requires
        0 <= p,
        match_at(s, p) is None,
    ensures
        matches_from(s, p) == matches_from(s, p + 1),
{
    reveal(matches_from);
}

/// Nothing is found from the end of the text on.
pub proof fn lemma_matches_from_end(s: Seq<char>)
    ensures
        matches_from(s, s.len() as int) == Seq::<CaptureModel>::empty(),
{
    reveal(matches_from);
}

/// All the matches in `s`, left to right.
pub open spec fn all_matches(s: Seq<char>) -> Seq<CaptureModel> {
    matches_from(s, 0)
}

/// The characters `start..end` of a text.
#[derive(Clone, Copy, Debug, PartialEq, Eq, Structural)]
pub struct Span {
    pub start: usize,
    pub end: usize,
}

impl View for Span {
    type V = (int, int);

    open spec fn view(&self) -> (int, int) {
        (self.start as int, self.end as int)
    }
}

/// Positions of the four groups of one match, as found by `capture_at`.
#[derive(Clone, Copy, Debug, PartialEq, Eq, Structural)]
pub struct Capture {
    pub key1: Span,
    pub key2: Span,
    pub value1: Span,
    pub value2: Span,
}

impl View for Capture {
    type V = CaptureModel;

    open spec fn view(&self) -> CaptureModel {
        CaptureModel {
            key1: self.key1@,
            key2: self.key2@,
            value1: self.value1@,
            value2: self.value2@,
        }
    }
}

/// The end of the longest run of class `k` in `v` that starts at `i`.
pub fn scan_run(v: &Vec<char>, i: usize, k: CharClass) -> (r: usize)
    requires
        i <= v.len(),
    ensures
        r == run_end(v@, i as int, k),
        i <= r <= v.len(),
{
    let mut j = i;
    while j < v.len() && class_contains(k, v[j])
        invariant
            i <= j <= v.len(),
            run_end(v@, j as int, k) == run_end(v@, i as int, k),
        decreases v.len() - j,
    {
        j = j + 1;
    }
    j
}

/// Whether `v[i]` exists and is `c`.
fn char_is(v: &Vec<char>, i: usize, c: char) -> (r: bool)
    ensures
        r == char_at(v@, i as int, c),
        r ==> i < v.len(),
{
    i < v.len() && v[i] == c
}

/// The match of the pattern that starts at `i`, if there is one.
pub fn capture_at(v: &Vec<char>, i: usize) -> (r: Option<Capture>)
    ensures
        match r {
            Some(c) => match_at(v@, i as int) == Some(c@),
            None => match_at(v@, i as int) is None,
        },
{
    proof {
        reveal(match_at);
    }
    if !char_is(v, i, '(') {
        return None;
    }
    let a = i + 1;
    let b = scan_run(v, a, CharClass::Word);
    let c = scan_run(v, b, CharClass::Space);
    if !(b > a && char_is(v, c, ',')) {
        return None;
    }
    let d = scan_run(v, c + 1, CharClass::Space);
    let e = scan_run(v, d, CharClass::Word);
    if !(e > d && char_is(v, e, ')') && char_is(v, e + 1, '=') && char_is(v, e + 2, '(')) {
        return None;
    }
    let f = e + 3;
    let g = scan_run(v, f, CharClass::Word);
    let h = scan_run(v, g, CharClass::Space);
    if !(g > f && char_is(v, h, ',')) {
        return None;
    }
    let k = scan_run(v, h + 1, CharClass::Space);
    if !char_is(v, k, '[') {
        return None;
    }
    let m = scan_run(v, k + 1, CharClass::Value);
    if !(m > k + 1) {
        return None;
    }
    Some(
        Capture {
            key1: Span { start: a, end: b },
            key2: Span { start: d, end: e },
            value1: Span { start: f, end: g },
            value2: Span { start: k + 1, end: m },
        },
    )
}

/// All the matches of the pattern in `v`, left to right, each search starting
/// where the previous match ended.
pub fn find_matches(v: &Vec<char>) -> (r: Vec<Capture>)
    ensures
        r@.map_values(|c: Capture| c@) == all_matches(v@),
{
    let mut out: Vec<Capture> = Vec::new();
    let mut p: usize = 0;
    while p < v.len()
        invariant
            p <= v.len(),
            out@.map_values(|c: Capture| c@) + matches_from(v@, p as int) == all_matches(v@),
        decreases v.len() - p,
    {
        proof {
            reveal(matches_from);
        }
        match capture_at(v, p) {
            Some(c) => {
                proof {
                    lemma_match_at_bounds(v@, p as int);
                    assert(out@.push(c).map_values(|c: Capture| c@) =~= out@.map_values(
                        |c: Capture| c@,
                    ).push(c@));
                    assert(out@.map_values(|c: Capture| c@) + matches_from(v@, p as int)
                        =~= out@.push(c).map_values(|c: Capture| c@) + matches_from(
                        v@,
                        c.value2.end as int,
                    ));
                }
                let e = c.value2.end;
                out.push(c);
                p = e;
            },
            None => {
                p = p + 1;
            },
        }
    }
    assert(matches_from(v@, p as int) =~= Seq::<CaptureModel>::empty()) by {
        reveal(matches_from);
    }
    assert(out@.map_values(|c: Capture| c@) + matches_from(v@, p as int) =~= out@.map_values(
        |c: Capture| c@,
    ));
    out
}

} // verus!
