//! Small verified helpers for moving between `&str`, `String` and `Vec<char>`.

use vstd::prelude::*;

verus! {

broadcast use vstd::string::group_string_axioms;

/// The characters of `s`, in order.
pub fn chars_of(s: &str) -> (v: Vec<char>)
    ensures
        v@ == s@,
{
    let mut v: Vec<char> = Vec::new();
    for c in it: s.chars()
        invariant
            v@ == it.seq().take(it.index()),
    {
        v.push(c);
    }
    v
}

/// Builds a `String` from the characters `chars[from..to]`.
///
/// Calls std's `String::from_iter` on the slice; the contract claims that the
/// string holds exactly those characters, which is what std documents.
#[verifier::external_body]
pub(crate) fn string_from_chars(chars: &Vec<char>, from: usize, to: usize) -> (s: String)
    requires
        from <= to <= chars.len(),
    ensures
        s@ == chars@.subrange(from as int, to as int),
{
    String::from_iter(chars[from..to].iter())
}

} // verus!
