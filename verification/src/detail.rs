//! The detail text that Postgres writes when a reservation overlaps one
//! already stored, and the law that such a text reads back as the two
//! windows it names.

use vstd::prelude::*;

use crate::conflict::{
    capture_fields, is_first_index, not_quote, spec_conflict_info, spec_window, split_timespan,
    strip_quotes, ConflictInfoModel, ConflictModel, WindowModel,
};
use crate::datetime::spec_parse_datetime;
use crate::error::{
    is_reservation_conflict, spec_error_from, DatabaseFailureModel, DbFailureModel, ErrorModel,
};
use crate::pattern::{
    all_in, all_matches, char_at, lemma_char_classes, lemma_matches_from_end, lemma_matches_from_match,
    lemma_matches_from_no_match, lemma_run_end_unique, match_at, matches_from, CaptureModel,
    CharClass, in_class,
};

verus! {

/// `x` occurs in `s` at position `i`.
pub open spec fn occurs_at(s: Seq<char>, i: int, x: Seq<char>) -> bool {
    0 <= i && i + x.len() <= s.len() && s.subrange(i, i + x.len()) == x
}

proof fn lemma_occurs_split(s: Seq<char>, i: int, x: Seq<char>, y: Seq<char>)
    requires
        occurs_at(s, i, x + y),
    ensures
        occurs_at(s, i, x),
        occurs_at(s, i + x.len(), y),
{
    let w = s.subrange(i, i + (x + y).len());
    assert(w == x + y);
    assert(s.subrange(i, i + x.len()) =~= w.subrange(0, x.len() as int));
    assert(w.subrange(0, x.len() as int) =~= x);
    assert(s.subrange(i + x.len(), i + x.len() + y.len()) =~= w.subrange(
        x.len() as int,
        (x.len() + y.len()) as int,
    ));
    assert(w.subrange(x.len() as int, (x.len() + y.len()) as int) =~= y);
}

proof fn lemma_occurs_char(s: Seq<char>, i: int, x: Seq<char>, t: int)
    requires
        occurs_at(s, i, x),
        0 <= t < x.len(),
    ensures
        s[i + t] == x[t],
{
    assert(s.subrange(i, i + x.len())[t] == s[i + t]);
}

/// A text whose characters are all of class `k`, found in `s`, is a run of
/// class `k` there.
proof fn lemma_occurs_all_in(s: Seq<char>, i: int, x: Seq<char>, k: CharClass)
    requires
        occurs_at(s, i, x),
        all_in(x, 0, x.len() as int, k),
    ensures
        all_in(s, i, i + x.len(), k),
{
    assert forall|j: int| i <= j < i + x.len() implies in_class(k, #[trigger] s[j]) by {
        lemma_occurs_char(s, i, x, j - i);
        assert(in_class(k, x[j - i]));
    }
}

proof fn lemma_all_in_join(s: Seq<char>, a: int, b: int, c: int, k: CharClass)
    requires
        all_in(s, a, b, k),
        all_in(s, b, c, k),
    ensures
        all_in(s, a, c, k),
{
    assert forall|j: int| a <= j < c implies in_class(k, #[trigger] s[j]) by {
        if j < b {
            assert(in_class(k, s[j]));
        } else {
            assert(in_class(k, s[j]));
        }
    }
}

proof fn lemma_resource_id_is_word()
    ensures
        "resource_id"@.len() == 11,
        all_in("resource_id"@, 0, 11, CharClass::Word),
{
    reveal_strlit("resource_id");
    assert forall|j: int| 0 <= j < 11 implies in_class(CharClass::Word, #[trigger] "resource_id"@[j]) by {
        assert(j == 0 || j == 1 || j == 2 || j == 3 || j == 4 || j == 5 || j == 6 || j == 7 || j
            == 8 || j == 9 || j == 10);
    }
}

proof fn lemma_timespan_is_word()
    ensures
        "timespan"@.len() == 8,
        all_in("timespan"@, 0, 8, CharClass::Word),
{
    reveal_strlit("timespan");
    assert forall|j: int| 0 <= j < 8 implies in_class(CharClass::Word, #[trigger] "timespan"@[j]) by {
        assert(j == 0 || j == 1 || j == 2 || j == 3 || j == 4 || j == 5 || j == 6 || j == 7);
    }
}

/// A resource id the pattern reads whole: nonempty, of `[a-zA-Z0-9_-]`.
pub open spec fn is_resource_name(rid: Seq<char>) -> bool {
    &&& rid.len() > 0
    &&& forall|j: int|
        0 <= j < rid.len() ==> {
            let c = #[trigger] rid[j];
            ||| ('a' <= c && c <= 'z')
            ||| ('A' <= c && c <= 'Z')
            ||| ('0' <= c && c <= '9')
            ||| c == '_'
            ||| c == '-'
        }
}

/// A range bound as Postgres prints a timestamp: no quote, comma, closing
/// parenthesis or closing bracket in it.
pub open spec fn is_bound_text(t: Seq<char>) -> bool {
    forall|j: int|
        0 <= j < t.len() ==> #[trigger] t[j] != '"' && t[j] != ',' && t[j] != ')' && t[j] != ']'
}

/// The two bounds of a `tstzrange` as Postgres quotes them: `"START","END"`.
pub open spec fn quoted_range(start: Seq<char>, end: Seq<char>) -> Seq<char> {
    "\""@ + start + "\",\""@ + end + "\""@
}

/// One key of the reservation exclusion constraint as Postgres writes it:
/// `(resource_id, timespan)=(RID, ["START","END"))`.
pub open spec fn key_entry(rid: Seq<char>, start: Seq<char>, end: Seq<char>) -> Seq<char> {
    "("@ + "resource_id"@ + ", "@ + "timespan"@ + ")=("@ + rid + ", ["@ + quoted_range(start, end)
        + "))"@
}

/// Where the groups of the match of `key_entry` at `i` lie, for a resource
/// id of length `r` and a quoted range of length `q`.
pub open spec fn entry_capture(i: int, r: int, q: int) -> CaptureModel {
    CaptureModel {
        key1: (i + 1, i + 12),
        key2: (i + 14, i + 22),
        value1: (i + 25, i + 25 + r),
        value2: (i + 28 + r, i + 28 + r + q),
    }
}

proof fn lemma_quoted_range_values(s: Seq<char>, i: int, start: Seq<char>, end: Seq<char>)
    requires
        occurs_at(s, i, quoted_range(start, end)),
        is_bound_text(start),
        is_bound_text(end),
    ensures
        quoted_range(start, end).len() == start.len() + end.len() + 5,
        all_in(s, i, i + quoted_range(start, end).len(), CharClass::Value),
{
    reveal_strlit("\"");
    reveal_strlit("\",\"");
    let q1 = "\""@;
    let q2 = "\",\""@;
    lemma_occurs_split(s, i, q1 + start + q2 + end, q1);
    lemma_occurs_split(s, i, q1 + start + q2, end);
    lemma_occurs_split(s, i, q1 + start, q2);
    lemma_occurs_split(s, i, q1, start);
    let a = start.len() as int;
    let b = end.len() as int;
    assert(all_in(q1, 0, 1, CharClass::Value));
    assert(all_in(q2, 0, 3, CharClass::Value));
    assert(all_in(start, 0, a, CharClass::Value));
    assert(all_in(end, 0, b, CharClass::Value));
    lemma_occurs_all_in(s, i, q1, CharClass::Value);
    lemma_occurs_all_in(s, i + 1, start, CharClass::Value);
    lemma_occurs_all_in(s, i + 1 + a, q2, CharClass::Value);
    lemma_occurs_all_in(s, i + 4 + a, end, CharClass::Value);
    lemma_occurs_all_in(s, i + 4 + a + b, q1, CharClass::Value);
    lemma_all_in_join(s, i, i + 1, i + 1 + a, CharClass::Value);
    lemma_all_in_join(s, i, i + 1 + a, i + 4 + a, CharClass::Value);
    lemma_all_in_join(s, i, i + 4 + a, i + 4 + a + b, CharClass::Value);
    lemma_all_in_join(s, i, i + 4 + a + b, i + 5 + a + b, CharClass::Value);
}

/// Where `key_entry` stands, the pattern matches it, its groups being the
/// two field names, the resource id and the quoted range.
pub proof fn lemma_entry_match(s: Seq<char>, i: int, rid: Seq<char>, start: Seq<char>, end: Seq<char>)
    requires
        occurs_at(s, i, key_entry(rid, start, end)),
        is_resource_name(rid),
        is_bound_text(start),
        is_bound_text(end),
    ensures
        key_entry(rid, start, end).len() == rid.len() + quoted_range(start, end).len() + 30,
        match_at(s, i) == Some(
            entry_capture(i, rid.len() as int, quoted_range(start, end).len() as int),
        ),
        occurs_at(s, i + 1, "resource_id"@),
        occurs_at(s, i + 14, "timespan"@),
        occurs_at(s, i + 25, rid),
        occurs_at(s, i + 28 + rid.len(), quoted_range(start, end)),
        char_at(s, i + 28 + rid.len() + quoted_range(start, end).len(), ')'),
        char_at(s, i + 29 + rid.len() + quoted_range(start, end).len(), ')'),
{
    reveal(match_at);
    reveal_strlit("(");
    reveal_strlit(", ");
    reveal_strlit(")=(");
    reveal_strlit(", [");
    reveal_strlit("))");
    lemma_resource_id_is_word();
    lemma_timespan_is_word();
    let p1 = "("@;
    let k1 = "resource_id"@;
    let p2 = ", "@;
    let k2 = "timespan"@;
    let p3 = ")=("@;
    let p4 = ", ["@;
    let qr = quoted_range(start, end);
    let p5 = "))"@;
    let r = rid.len() as int;
    lemma_occurs_split(s, i, p1 + k1 + p2 + k2 + p3 + rid + p4 + qr, p5);
    lemma_occurs_split(s, i, p1 + k1 + p2 + k2 + p3 + rid + p4, qr);
    lemma_occurs_split(s, i, p1 + k1 + p2 + k2 + p3 + rid, p4);
    lemma_occurs_split(s, i, p1 + k1 + p2 + k2 + p3, rid);
    lemma_occurs_split(s, i, p1 + k1 + p2 + k2, p3);
    lemma_occurs_split(s, i, p1 + k1 + p2, k2);
    lemma_occurs_split(s, i, p1 + k1, p2);
    lemma_occurs_split(s, i, p1, k1);
    lemma_quoted_range_values(s, i + 28 + r, start, end);
    let q = qr.len() as int;
    // the punctuation
    lemma_occurs_char(s, i, p1, 0);
    lemma_occurs_char(s, i + 12, p2, 0);
    lemma_occurs_char(s, i + 12, p2, 1);
    lemma_occurs_char(s, i + 22, p3, 0);
    lemma_occurs_char(s, i + 22, p3, 1);
    lemma_occurs_char(s, i + 22, p3, 2);
    lemma_occurs_char(s, i + 25 + r, p4, 0);
    lemma_occurs_char(s, i + 25 + r, p4, 1);
    lemma_occurs_char(s, i + 25 + r, p4, 2);
    lemma_occurs_char(s, i + 28 + r + q, p5, 0);
    lemma_occurs_char(s, i + 28 + r + q, p5, 1);
    lemma_occurs_char(s, i + 14, k2, 0);
    assert(in_class(CharClass::Word, k2[0]));
    // the runs
    lemma_occurs_all_in(s, i + 1, k1, CharClass::Word);
    lemma_run_end_unique(s, i + 1, i + 12, CharClass::Word);
    lemma_run_end_unique(s, i + 12, i + 12, CharClass::Space);
    assert(all_in(s, i + 13, i + 14, CharClass::Space));
    lemma_run_end_unique(s, i + 13, i + 14, CharClass::Space);
    lemma_occurs_all_in(s, i + 14, k2, CharClass::Word);
    lemma_run_end_unique(s, i + 14, i + 22, CharClass::Word);
    assert forall|j: int| 0 <= j < rid.len() implies in_class(CharClass::Word, #[trigger] rid[j]) by {
        lemma_char_classes(rid[j]);
    }
    lemma_occurs_all_in(s, i + 25, rid, CharClass::Word);
    lemma_run_end_unique(s, i + 25, i + 25 + r, CharClass::Word);
    lemma_run_end_unique(s, i + 25 + r, i + 25 + r, CharClass::Space);
    assert(all_in(s, i + 26 + r, i + 27 + r, CharClass::Space));
    lemma_run_end_unique(s, i + 26 + r, i + 27 + r, CharClass::Space);
    lemma_run_end_unique(s, i + 28 + r, i + 28 + r + q, CharClass::Value);
}

/// Where no match can start, the search moves on.
pub proof fn lemma_matches_skip(s: Seq<char>, p: int, q: int)
    requires
        0 <= p <= q <= s.len(),
        forall|j: int| p <= j < q ==> #[trigger] s[j] != '(',
    ensures
        matches_from(s, p) == matches_from(s, q),
    decreases q - p,
{
    if p < q {
        assert(s[p] != '(');
        assert(match_at(s, p) is None) by {
            reveal(match_at);
        }
        lemma_matches_from_no_match(s, p);
        lemma_matches_skip(s, p + 1, q);
    }
}

proof fn lemma_no_open_paren(s: Seq<char>, i: int, x: Seq<char>)
    requires
        occurs_at(s, i, x),
        forall|t: int| 0 <= t < x.len() ==> #[trigger] x[t] != '(',
    ensures
        forall|j: int| i <= j < i + x.len() ==> #[trigger] s[j] != '(',
{
    assert forall|j: int| i <= j < i + x.len() implies #[trigger] s[j] != '(' by {
        lemma_occurs_char(s, i, x, j - i);
    }
}

proof fn lemma_literals_without_open_paren()
    ensures
        "Key "@.len() == 4,
        forall|t: int| 0 <= t < 4 ==> #[trigger] "Key "@[t] != '(',
        " conflicts with existing key "@.len() == 29,
        forall|t: int| 0 <= t < 29 ==> #[trigger] " conflicts with existing key "@[t] != '(',
        "."@.len() == 1,
        "."@[0] != '(',
{
    reveal_strlit("Key ");
    reveal_strlit(" conflicts with existing key ");
    reveal_strlit(".");
    assert forall|t: int| 0 <= t < 4 implies #[trigger] "Key "@[t] != '(' by {
        assert(t == 0 || t == 1 || t == 2 || t == 3);
    }
    assert forall|t: int| 0 <= t < 29 implies #[trigger] " conflicts with existing key "@[t] != '(' by {
        assert(t == 0 || t == 1 || t == 2 || t == 3 || t == 4 || t == 5 || t == 6 || t == 7 || t == 8 || t == 9 || t == 10 || t == 11 || t == 12 || t == 13 || t == 14 || t == 15 || t == 16 || t == 17 || t == 18 || t == 19 || t == 20 || t == 21 || t == 22 || t == 23 || t == 24 || t == 25 || t == 26 || t == 27 || t == 28);
    }
}

/// The detail of the reservation exclusion violation: the refused
/// reservation's key, then the stored one's.
#[verifier::opaque]
pub open spec fn conflict_detail(
    new_rid: Seq<char>,
    new_start: Seq<char>,
    new_end: Seq<char>,
    old_rid: Seq<char>,
    old_start: Seq<char>,
    old_end: Seq<char>,
) -> Seq<char> {
    "Key "@ + key_entry(new_rid, new_start, new_end) + " conflicts with existing key "@ + key_entry(
        old_rid,
        old_start,
        old_end,
    ) + "."@
}

/// Where the parts of the detail stand.
proof fn lemma_detail_layout(
    new_rid: Seq<char>,
    new_start: Seq<char>,
    new_end: Seq<char>,
    old_rid: Seq<char>,
    old_start: Seq<char>,
    old_end: Seq<char>,
)
    ensures
        ({
            let d = conflict_detail(new_rid, new_start, new_end, old_rid, old_start, old_end);
            let e1 = key_entry(new_rid, new_start, new_end);
            let e2 = key_entry(old_rid, old_start, old_end);
            let mid = " conflicts with existing key "@;
            &&& occurs_at(d, 0, "Key "@)
            &&& occurs_at(d, "Key "@.len() as int, e1)
            &&& occurs_at(d, ("Key "@.len() + e1.len()) as int, mid)
            &&& occurs_at(d, ("Key "@.len() + e1.len() + mid.len()) as int, e2)
            &&& occurs_at(d, ("Key "@.len() + e1.len() + mid.len() + e2.len()) as int, "."@)
            &&& d.len() == "Key "@.len() + e1.len() + mid.len() + e2.len() + "."@.len()
        }),
{
    reveal(conflict_detail);
    let d = conflict_detail(new_rid, new_start, new_end, old_rid, old_start, old_end);
    let e1 = key_entry(new_rid, new_start, new_end);
    let e2 = key_entry(old_rid, old_start, old_end);
    let pre = "Key "@;
    let mid = " conflicts with existing key "@;
    let dot = "."@;
    assert(occurs_at(d, 0, d)) by {
        assert(d.subrange(0, d.len() as int) =~= d);
    }
    lemma_occurs_split(d, 0, pre + e1 + mid + e2, dot);
    lemma_occurs_split(d, 0, pre + e1 + mid, e2);
    lemma_occurs_split(d, 0, pre + e1, mid);
    lemma_occurs_split(d, 0, pre, e1);
}

/// The detail holds exactly two matches, one per key.
pub proof fn lemma_conflict_detail_matches(
    new_rid: Seq<char>,
    new_start: Seq<char>,
    new_end: Seq<char>,
    old_rid: Seq<char>,
    old_start: Seq<char>,
    old_end: Seq<char>,
)
    requires
        is_resource_name(new_rid),
        is_resource_name(old_rid),
        is_bound_text(new_start),
        is_bound_text(new_end),
        is_bound_text(old_start),
        is_bound_text(old_end),
    ensures
        ({
            let d = conflict_detail(new_rid, new_start, new_end, old_rid, old_start, old_end);
            let q1 = quoted_range(new_start, new_end).len() as int;
            let i2 = 4 + new_rid.len() + q1 + 30 + 29;
            &&& all_matches(d) == seq![
                entry_capture(4, new_rid.len() as int, q1),
                entry_capture(i2, old_rid.len() as int, quoted_range(old_start, old_end).len() as int),
            ]
            &&& occurs_at(d, 5, "resource_id"@)
            &&& occurs_at(d, 18, "timespan"@)
            &&& occurs_at(d, 29, new_rid)
            &&& occurs_at(d, 32 + new_rid.len() as int, quoted_range(new_start, new_end))
            &&& occurs_at(d, i2 + 1, "resource_id"@)
            &&& occurs_at(d, i2 + 14, "timespan"@)
            &&& occurs_at(d, i2 + 25, old_rid)
            &&& occurs_at(d, i2 + 28 + old_rid.len(), quoted_range(old_start, old_end))
        }),
{
    let d = conflict_detail(new_rid, new_start, new_end, old_rid, old_start, old_end);
    let e1 = key_entry(new_rid, new_start, new_end);
    let e2 = key_entry(old_rid, old_start, old_end);
    let pre = "Key "@;
    let mid = " conflicts with existing key "@;
    let dot = "."@;
    lemma_literals_without_open_paren();
    reveal_strlit("))");
    lemma_detail_layout(new_rid, new_start, new_end, old_rid, old_start, old_end);
    lemma_entry_match(d, 4, new_rid, new_start, new_end);
    let r1 = new_rid.len() as int;
    let q1 = quoted_range(new_start, new_end).len() as int;
    let i2 = 4 + r1 + q1 + 30 + 29;
    lemma_entry_match(d, i2, old_rid, old_start, old_end);
    let r2 = old_rid.len() as int;
    let q2 = quoted_range(old_start, old_end).len() as int;
    let c1 = entry_capture(4, r1, q1);
    let c2 = entry_capture(i2, r2, q2);
    let end1 = 4 + 28 + r1 + q1;
    let end2 = i2 + 28 + r2 + q2;
    // before the first key
    lemma_no_open_paren(d, 0, pre);
    lemma_matches_skip(d, 0, 4);
    lemma_matches_from_match(d, 4, c1);
    // between the keys
    lemma_no_open_paren(d, end1 + 2, mid);
    assert forall|j: int| end1 <= j < i2 implies #[trigger] d[j] != '(' by {
        if j >= end1 + 2 {
            assert(d[j] != '(');
        }
    }
    lemma_matches_skip(d, end1, i2);
    lemma_matches_from_match(d, i2, c2);
    // after the second key
    lemma_occurs_char(d, end2 + 2, dot, 0);
    assert(d.len() == end2 + 3);
    assert forall|j: int| end2 <= j < d.len() implies #[trigger] d[j] != '(' by {
        if j == end2 + 2 {
            assert(d[j] == dot[0]);
        }
    }
    lemma_matches_skip(d, end2, d.len() as int);
    lemma_matches_from_end(d);
    assert(all_matches(d) =~= seq![c1, c2]);
}

/// Text without double quotes keeps all its characters when they are
/// removed.
proof fn lemma_strip_quotes_keeps(t: Seq<char>)
    requires
        forall|j: int| 0 <= j < t.len() ==> #[trigger] t[j] != '"',
    ensures
        strip_quotes(t) == t,
    decreases t.len(),
{
    reveal(Seq::filter);
    if t.len() > 0 {
        lemma_strip_quotes_keeps(t.drop_last());
        assert(t.drop_last().push(t.last()) =~= t);
    }
}

/// Removing the quotes of `"START","END"` leaves `START,END`.
proof fn lemma_strip_quoted_range(start: Seq<char>, end: Seq<char>)
    requires
        is_bound_text(start),
        is_bound_text(end),
    ensures
        strip_quotes(quoted_range(start, end)) == start + seq![','] + end,
{
    reveal_strlit("\"");
    reveal_strlit("\",\"");
    let q1 = "\""@;
    let q2 = "\",\""@;
    let pred = |c: char| not_quote(c);
    Seq::filter_distributes_over_add(q1 + start + q2 + end, q1, pred);
    Seq::filter_distributes_over_add(q1 + start + q2, end, pred);
    Seq::filter_distributes_over_add(q1 + start, q2, pred);
    Seq::filter_distributes_over_add(q1, start, pred);
    assert(strip_quotes(q1) =~= Seq::<char>::empty()) by {
        reveal_with_fuel(Seq::filter, 2);
        assert(q1.drop_last() =~= Seq::<char>::empty());
    }
    assert(strip_quotes(q2) =~= seq![',']) by {
        reveal_with_fuel(Seq::filter, 4);
        assert(q2.drop_last() =~= seq!['"', ',']);
        assert(q2.drop_last().drop_last() =~= seq!['"']);
        assert(q2.drop_last().drop_last().drop_last() =~= Seq::<char>::empty());
    }
    lemma_strip_quotes_keeps(start);
    lemma_strip_quotes_keeps(end);
    assert(strip_quotes(quoted_range(start, end)) =~= start + seq![','] + end);
}

/// `START,END` splits at its comma into the two bounds.
proof fn lemma_split_bounds(start: Seq<char>, end: Seq<char>)
    requires
        is_bound_text(start),
    ensures
        split_timespan(start + seq![','] + end) == Some((start, end)),
{
    let t = start + seq![','] + end;
    let n = start.len() as int;
    assert(is_first_index(t, ',', n));
    let i = choose|i: int| is_first_index(t, ',', i);
    assert(i == n) by {
        if i < n {
            assert(t[i] == start[i]);
        }
    }
    assert(t.take(n) =~= start);
    assert(t.skip(n + 1) =~= end);
}

/// The window of resource `rid` from `start` to `end`, where both bounds
/// read as timestamps.
pub open spec fn window_of(rid: Seq<char>, start: Seq<char>, end: Seq<char>) -> Option<WindowModel> {
    match (spec_parse_datetime(start), spec_parse_datetime(end)) {
        (Some(a), Some(b)) => Some(WindowModel { rid: rid, start: a, end: b }),
        _ => None,
    }
}

/// The window that the fields of one key describe.
proof fn lemma_entry_window(rid: Seq<char>, start: Seq<char>, end: Seq<char>)
    requires
        is_bound_text(start),
        is_bound_text(end),
    ensures
        spec_window(
            Map::empty().insert("resource_id"@, rid).insert("timespan"@, quoted_range(start, end)),
        ) == window_of(rid, start, end),
{
    lemma_resource_id_is_word();
    lemma_timespan_is_word();
    let m = Map::empty().insert("resource_id"@, rid).insert("timespan"@, quoted_range(start, end));
    assert("resource_id"@ != "timespan"@);
    assert(m["timespan"@] == quoted_range(start, end));
    assert(m["resource_id"@] == rid);
    lemma_strip_quoted_range(start, end);
    lemma_split_bounds(start, end);
}

/// The detail that Postgres writes when a reservation of `new_rid` from
/// `new_start` to `new_end` is refused because it overlaps the stored
/// reservation of `old_rid` from `old_start` to `old_end` reads back as
/// `Parsed`, with the refused reservation as `new` and the stored one as
/// `old`, each bound read as a timestamp; where a bound does not read as a
/// timestamp, the detail is kept `Unparsed`.
pub proof fn lemma_conflict_detail_reads_back(
    new_rid: Seq<char>,
    new_start: Seq<char>,
    new_end: Seq<char>,
    old_rid: Seq<char>,
    old_start: Seq<char>,
    old_end: Seq<char>,
)
    requires
        is_resource_name(new_rid),
        is_resource_name(old_rid),
        is_bound_text(new_start),
        is_bound_text(new_end),
        is_bound_text(old_start),
        is_bound_text(old_end),
    ensures
        spec_conflict_info(conflict_detail(new_rid, new_start, new_end, old_rid, old_start, old_end))
            == match (window_of(new_rid, new_start, new_end), window_of(old_rid, old_start, old_end)) {
            (Some(n), Some(o)) => ConflictInfoModel::Parsed(ConflictModel { new: n, old: o }),
            _ => ConflictInfoModel::Unparsed(
                conflict_detail(new_rid, new_start, new_end, old_rid, old_start, old_end),
            ),
        },
{
    let d = conflict_detail(new_rid, new_start, new_end, old_rid, old_start, old_end);
    lemma_conflict_detail_matches(new_rid, new_start, new_end, old_rid, old_start, old_end);
    let ms = all_matches(d);
    let r1 = new_rid.len() as int;
    let q1 = quoted_range(new_start, new_end).len() as int;
    let i2 = 4 + r1 + q1 + 30 + 29;
    let r2 = old_rid.len() as int;
    let q2 = quoted_range(old_start, old_end).len() as int;
    lemma_resource_id_is_word();
    lemma_timespan_is_word();
    assert(ms.len() == 2);
    assert(ms[0] == entry_capture(4, r1, q1));
    assert(ms[1] == entry_capture(i2, r2, q2));
    assert(capture_fields(d, ms[0]) == Map::empty().insert("resource_id"@, new_rid).insert(
        "timespan"@,
        quoted_range(new_start, new_end),
    ));
    assert(capture_fields(d, ms[1]) == Map::empty().insert("resource_id"@, old_rid).insert(
        "timespan"@,
        quoted_range(old_start, old_end),
    ));
    lemma_entry_window(new_rid, new_start, new_end);
    lemma_entry_window(old_rid, old_start, old_end);
}

/// A database failure that is the reservation exclusion violation, with
/// the detail Postgres writes for it, is reported as `ConflictReservation`
/// holding the refused and the stored window.
pub proof fn lemma_conflict_failure_reported(
    failure: DatabaseFailureModel,
    new_rid: Seq<char>,
    new_start: Seq<char>,
    new_end: Seq<char>,
    old_rid: Seq<char>,
    old_start: Seq<char>,
    old_end: Seq<char>,
)
    requires
        is_reservation_conflict(failure),
        failure.detail == Some(
            conflict_detail(new_rid, new_start, new_end, old_rid, old_start, old_end),
        ),
        is_resource_name(new_rid),
        is_resource_name(old_rid),
        is_bound_text(new_start),
        is_bound_text(new_end),
        is_bound_text(old_start),
        is_bound_text(old_end),
        window_of(new_rid, new_start, new_end) is Some,
        window_of(old_rid, old_start, old_end) is Some,
    ensures
        spec_error_from(DbFailureModel::Database(failure)) == ErrorModel::ConflictReservation(
            ConflictInfoModel::Parsed(
                ConflictModel {
                    new: window_of(new_rid, new_start, new_end)->0,
                    old: window_of(old_rid, old_start, old_end)->0,
                },
            ),
        ),
{
    lemma_conflict_detail_reads_back(new_rid, new_start, new_end, old_rid, old_start, old_end);
}

} // verus!
