//! The two reservation windows named by a Postgres exclusion-constraint
//! violation, read from the detail text of the error, such as
//!
//! ```text
//! Key (resource_id, timespan)=(ocean-view-room-713, ["2023-08-16 22:00:00+00","2023-08-30 22:00:00+00"))
//! conflicts with existing key (resource_id, timespan)=(ocean-view-room-713, ["2023-08-15 22:00:00+00","2023-08-25 22:00:00+00")).
//! ```
//!
//! The first key is the reservation that was refused (`new`), the second the
//! one already stored (`old`).

use vstd::prelude::*;

use crate::datetime::{parse_datetime, spec_parse_datetime, UtcDateTime};
use crate::fields::KeyValueMap;
use crate::pattern::{
    all_matches, capture_within, find_matches, lemma_matches_within, Capture, CaptureModel,
};
use crate::text::{chars_of, string_from_chars};

verus! {

broadcast use vstd::string::group_string_axioms;

/// One side of a conflict: the resource and the time span it was booked for.
#[derive(Clone, Debug, PartialEq, Eq)]
pub struct ReservationWindow {
    pub rid: String,
    pub start: UtcDateTime,
    pub end: UtcDateTime,
}

pub struct WindowModel {
    pub rid: Seq<char>,
    pub start: UtcDateTime,
    pub end: UtcDateTime,
}

impl View for ReservationWindow {
    type V = WindowModel;

    open spec fn view(&self) -> WindowModel {
        WindowModel { rid: self.rid@, start: self.start, end: self.end }
    }
}

/// The reservation that was refused (`new`) and the one it collides with
/// (`old`).
#[derive(Clone, Debug, PartialEq, Eq)]
pub struct ReservationConflict {
    pub new: ReservationWindow,
    pub old: ReservationWindow,
}

pub struct ConflictModel {
    pub new: WindowModel,
    pub old: WindowModel,
}

impl View for ReservationConflict {
    type V = ConflictModel;

    open spec fn view(&self) -> ConflictModel {
        ConflictModel { new: self.new@, old: self.old@ }
    }
}

/// A conflict detail: read into its two windows where the text has the
/// expected shape, or kept as it came otherwise.
#[derive(Clone, Debug, PartialEq, Eq)]
pub enum ReservationConflictInfo {
    Parsed(ReservationConflict),
    Unparsed(String),
}

pub enum ConflictInfoModel {
    Parsed(ConflictModel),
    Unparsed(Seq<char>),
}

impl View for ReservationConflictInfo {
    type V = ConflictInfoModel;

    open spec fn view(&self) -> ConflictInfoModel {
        match self {
            ReservationConflictInfo::Parsed(c) => ConflictInfoModel::Parsed(c@),
            ReservationConflictInfo::Unparsed(s) => ConflictInfoModel::Unparsed(s@),
        }
    }
}

/// The fields of the two keys of a conflict detail, as text.
pub struct ParsedInfo {
    pub new: KeyValueMap,
    pub old: KeyValueMap,
}

// ---------------------------------------------------------------------------
// What the functions compute
// ---------------------------------------------------------------------------

/// The text of the group that spans `g` in `s`.
pub open spec fn group_text(s: Seq<char>, g: (int, int)) -> Seq<char> {
    s.subrange(g.0, g.1)
}

/// The map that one match yields: `k1 -> v1`, then `k2 -> v2`, the second
/// replacing the first where the two keys are the same.
pub open spec fn capture_fields(s: Seq<char>, c: CaptureModel) -> Map<Seq<char>, Seq<char>> {
    Map::empty().insert(group_text(s, c.key1), group_text(s, c.value1)).insert(
        group_text(s, c.key2),
        group_text(s, c.value2),
    )
}

/// The fields of the two keys of `s`: there must be exactly two matches.
pub open spec fn spec_parsed_info(s: Seq<char>) -> Option<(Map<Seq<char>, Seq<char>>, Map<Seq<char>, Seq<char>>)> {
    let ms = all_matches(s);
    if ms.len() == 2 {
        Some((capture_fields(s, ms[0]), capture_fields(s, ms[1])))
    } else {
        None
    }
}

pub open spec fn not_quote(c: char) -> bool {
    c != '"'
}

/// `s` without its double quotes.
pub open spec fn strip_quotes(s: Seq<char>) -> Seq<char> {
    s.filter(|c: char| not_quote(c))
}

/// `i` is the position of the first `c` in `s`.
pub open spec fn is_first_index(s: Seq<char>, c: char, i: int) -> bool {
    &&& 0 <= i < s.len()
    &&& s[i] == c
    &&& forall|j: int| 0 <= j < i ==> s[j] != c
}

/// `t` cut at its first comma, if it has one.
pub open spec fn split_timespan(t: Seq<char>) -> Option<(Seq<char>, Seq<char>)> {
    if exists|i: int| is_first_index(t, ',', i) {
        let i = choose|i: int| is_first_index(t, ',', i);
        Some((t.take(i), t.skip(i + 1)))
    } else {
        None
    }
}

/// The window that a map of fields describes: `resource_id` names the
/// resource, and `timespan`, once its quotes are removed, holds the start and
/// the end separated by the first comma.
pub open spec fn spec_window(m: Map<Seq<char>, Seq<char>>) -> Option<WindowModel> {
    if m.contains_key("timespan"@) && m.contains_key("resource_id"@) {
        match split_timespan(strip_quotes(m["timespan"@])) {
            Some((a, b)) => match (spec_parse_datetime(a), spec_parse_datetime(b)) {
                (Some(start), Some(end)) => Some(
                    WindowModel { rid: m["resource_id"@], start: start, end: end },
                ),
                _ => None,
            },
            None => None,
        }
    } else {
        None
    }
}

/// The conflict made of the windows of two maps of fields.
pub open spec fn spec_conflict_of(
    new: Map<Seq<char>, Seq<char>>,
    old: Map<Seq<char>, Seq<char>>,
) -> Option<ConflictModel> {
    match (spec_window(new), spec_window(old)) {
        (Some(a), Some(b)) => Some(ConflictModel { new: a, old: b }),
        _ => None,
    }
}

/// The conflict that a detail text describes, if it can be read.
pub open spec fn spec_conflict(s: Seq<char>) -> Option<ConflictModel> {
    match spec_parsed_info(s) {
        Some((new, old)) => spec_conflict_of(new, old),
        None => None,
    }
}

/// What a detail text reads as: its conflict, or the text itself.
pub open spec fn spec_conflict_info(s: Seq<char>) -> ConflictInfoModel {
    match spec_conflict(s) {
        Some(c) => ConflictInfoModel::Parsed(c),
        None => ConflictInfoModel::Unparsed(s),
    }
}

// ---------------------------------------------------------------------------
// Implementation
// ---------------------------------------------------------------------------

/// `v` without its double quotes.
fn remove_quotes(v: &Vec<char>) -> (r: Vec<char>)
    ensures
        r@ == strip_quotes(v@),
{
    let mut out: Vec<char> = Vec::new();
    let mut i: usize = 0;
    while i < v.len()
        invariant
            i <= v.len(),
            out@ == strip_quotes(v@.take(i as int)),
        decreases v.len() - i,
    {
        proof {
            reveal(Seq::filter);
            assert(v@.take(i + 1).drop_last() =~= v@.take(i as int));
            assert(v@.take(i + 1).last() == v@[i as int]);
        }
        if v[i] != '"' {
            out.push(v[i]);
        }
        i = i + 1;
    }
    assert(v@.take(v.len() as int) =~= v@);
    out
}

/// The position of the first `c` in `v`, if there is one.
fn first_index(v: &Vec<char>, c: char) -> (r: Option<usize>)
    ensures
        match r {
            Some(i) => is_first_index(v@, c, i as int),
            None => forall|j: int| 0 <= j < v@.len() ==> v@[j] != c,
        },
{
    let mut i: usize = 0;
    while i < v.len()
        invariant
            i <= v.len(),
            forall|j: int| 0 <= j < i ==> v@[j] != c,
        decreases v.len() - i,
    {
        if v[i] == c {
            return Some(i);
        }
        i = i + 1;
    }
    None
}

/// The map that the match `c` of `v` yields.
fn fields_of(v: &Vec<char>, c: &Capture) -> (m: KeyValueMap)
    requires
        capture_within(v@, c@),
    ensures
        m@ == capture_fields(v@, c@),
{
    let mut m = KeyValueMap::new();
    m.insert(
        string_from_chars(v, c.key1.start, c.key1.end),
        string_from_chars(v, c.value1.start, c.value1.end),
    );
    m.insert(
        string_from_chars(v, c.key2.start, c.key2.end),
        string_from_chars(v, c.value2.start, c.value2.end),
    );
    m
}

impl ParsedInfo {
    /// Finds the two keys of a conflict detail. Each key is a match of the
    /// pattern of `crate::pattern`; the detail must hold exactly two.
    pub fn from_str(s: &str) -> (r: Result<ParsedInfo, ()>)
        ensures
            r is Ok <==> spec_parsed_info(s@) is Some,
            r matches Ok(p) ==> spec_parsed_info(s@) == Some((p.new@, p.old@)),
    {
        let v = chars_of(s);
        let caps = find_matches(&v);
        proof {
            lemma_matches_within(v@, 0);
            assert(caps@.map_values(|c: Capture| c@).len() == caps@.len());
        }
        if caps.len() != 2 {
            return Err(());
        }
        proof {
            assert(caps@.map_values(|c: Capture| c@)[0] == caps@[0]@);
            assert(caps@.map_values(|c: Capture| c@)[1] == caps@[1]@);
        }
        let new = fields_of(&v, &caps[0]);
        let old = fields_of(&v, &caps[1]);
        Ok(ParsedInfo { new, old })
    }
}

impl ReservationWindow {
    /// Reads a window from its fields: `resource_id`, and `timespan` holding
    /// two quoted timestamps separated by a comma.
    pub fn try_from(value: KeyValueMap) -> (r: Result<ReservationWindow, ()>)
        ensures
            r is Ok <==> spec_window(value@) is Some,
            r matches Ok(w) ==> spec_window(value@) == Some(w@),
    {
        let timespan = match value.get("timespan") {
            Some(t) => t,
            None => return Err(()),
        };
        let chars = chars_of(timespan.as_str());
        let stripped = remove_quotes(&chars);
        let comma = match first_index(&stripped, ',') {
            Some(i) => i,
            None => {
                return Err(());
            },
        };
        let ghost t = stripped@;
        proof {
            assert(is_first_index(t, ',', comma as int));
            let i = choose|i: int| is_first_index(t, ',', i);
            assert(i == comma as int);
            assert(t.take(comma as int) == t.subrange(0, comma as int));
            assert(t.skip(comma + 1) =~= t.subrange(comma + 1, t.len() as int));
        }
        let start_text = string_from_chars(&stripped, 0, comma);
        let end_text = string_from_chars(&stripped, comma + 1, stripped.len());
        let start = match parse_datetime(start_text.as_str()) {
            Ok(t) => t,
            Err(()) => return Err(()),
        };
        let end = match parse_datetime(end_text.as_str()) {
            Ok(t) => t,
            Err(()) => return Err(()),
        };
        let rid = match value.get("resource_id") {
            Some(r) => r.clone(),
            None => return Err(()),
        };
        Ok(ReservationWindow { rid, start, end })
    }
}

impl ReservationConflict {
    /// The conflict whose two windows are read from the two keys.
    pub fn try_from(value: ParsedInfo) -> (r: Result<ReservationConflict, ()>)
        ensures
            r is Ok <==> spec_conflict_of(value.new@, value.old@) is Some,
            r matches Ok(c) ==> spec_conflict_of(value.new@, value.old@) == Some(c@),
    {
        let new = ReservationWindow::try_from(value.new)?;
        let old = ReservationWindow::try_from(value.old)?;
        Ok(ReservationConflict { new, old })
    }

    /// Reads the conflict that a detail text describes.
    pub fn from_str(s: &str) -> (r: Result<ReservationConflict, ()>)
        ensures
            r is Ok <==> spec_conflict(s@) is Some,
            r matches Ok(c) ==> spec_conflict(s@) == Some(c@),
    {
        let info = ParsedInfo::from_str(s)?;
        ReservationConflict::try_from(info)
    }
}

impl ReservationConflictInfo {
    /// Reads a detail text: `Parsed` with its conflict where it can be read,
    /// `Unparsed` with the text itself otherwise. It never fails.
    pub fn from_str(s: &str) -> (r: Result<ReservationConflictInfo, core::convert::Infallible>)
        ensures
            r matches Ok(info) && info@ == spec_conflict_info(s@),
    {
        match ReservationConflict::from_str(s) {
            Ok(conflict) => Ok(ReservationConflictInfo::Parsed(conflict)),
            Err(()) => Ok(ReservationConflictInfo::Unparsed(s.to_string())),
        }
    }
}

impl core::str::FromStr for ParsedInfo {
    type Err = ();

    fn from_str(s: &str) -> (r: Result<ParsedInfo, ()>)
        ensures
            r is Ok <==> spec_parsed_info(s@) is Some,
            r matches Ok(p) ==> spec_parsed_info(s@) == Some((p.new@, p.old@)),
    {
        ParsedInfo::from_str(s)
    }
}

impl core::str::FromStr for ReservationConflict {
    type Err = ();

    fn from_str(s: &str) -> (r: Result<ReservationConflict, ()>)
        ensures
            r is Ok <==> spec_conflict(s@) is Some,
            r matches Ok(c) ==> spec_conflict(s@) == Some(c@),
    {
        ReservationConflict::from_str(s)
    }
}

impl core::str::FromStr for ReservationConflictInfo {
    type Err = core::convert::Infallible;

    fn from_str(s: &str) -> (r: Result<ReservationConflictInfo, core::convert::Infallible>)
        ensures
            r matches Ok(info) && info@ == spec_conflict_info(s@),
    {
        ReservationConflictInfo::from_str(s)
    }
}

} // verus!
