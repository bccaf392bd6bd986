//! Matching a name against a filter text, without regard to case.

use vstd::prelude::*;

verus! {

broadcast use vstd::string::group_string_axioms;

/// The lowercase form of a text, as `str::to_lowercase` of the standard
/// library gives it.
pub uninterp spec fn lowercase_of(text: Seq<char>) -> Seq<char>;

/// Calls `str::to_lowercase`. The contract gives the result its name,
/// `lowercase_of`, and claims nothing else of it.
#[verifier::external_body]
fn lowercase(text: &str) -> (lowered: String)
    ensures
        lowered@ == lowercase_of(text@),
{
    text.to_lowercase()
}

/// `part` occurs in `whole` as a run of consecutive characters.
pub open spec fn is_substring(part: Seq<char>, whole: Seq<char>) -> bool {
    exists|at: int| occurs_at(part, whole, at)
}

/// `part` occurs in `whole` from position `at` on.
pub open spec fn occurs_at(part: Seq<char>, whole: Seq<char>, at: int) -> bool {
    &&& 0 <= at
    &&& at + part.len() <= whole.len()
    &&& whole.subrange(at, at + part.len()) == part
}

/// The characters of a text.
pub fn chars_of(text: &str) -> (chars: Vec<char>)
    ensures
        chars@ == text@,
{
    let mut chars: Vec<char> = Vec::new();
    for c in walk: text.chars()
        invariant
            walk.seq() == text@,
            chars@ == text@.take(walk.index()),
    {
        chars.push(c);
    }
    chars
}

/// Whether `part` stands in `whole` from position `at` on.
fn stands_at(whole: &Vec<char>, part: &Vec<char>, at: usize) -> (found: bool)
    requires
        at + part@.len() <= whole@.len(),
    ensures
        found == occurs_at(part@, whole@, at as int),
{
    let length: usize = part.len();
    let mut i: usize = 0;
    while i < length
        invariant
            i <= length,
            length == part@.len(),
            at + length <= whole.len(),
            forall|k: int| 0 <= k < i ==> whole@[at + k] == part@[k],
        decreases length - i,
    {
        if whole[at + i] != part[i] {
            assert(whole@.subrange(at as int, at + part@.len())[i as int] != part@[i as int]);
            return false;
        }
        i = i + 1;
    }
    assert(whole@.subrange(at as int, at + part@.len()) =~= part@);
    true
}

/// Tells whether `part` occurs in `whole`. The empty text occurs in every
/// text.
pub fn contains_chars(whole: &Vec<char>, part: &Vec<char>) -> (found: bool)
    ensures
        found == is_substring(part@, whole@),
{
    if part.len() == 0 {
        assert(occurs_at(part@, whole@, 0)) by {
            assert(whole@.subrange(0, 0) =~= part@);
        }
        return true;
    }
    if part.len() > whole.len() {
        return false;
    }
    let last: usize = whole.len() - part.len();
    let mut at: usize = 0;
    while at <= last
        invariant
            last == whole@.len() - part@.len(),
            last < whole.len(),
            at <= last + 1,
            forall|k: int| 0 <= k < at ==> !occurs_at(part@, whole@, k),
        decreases last + 1 - at,
    {
        if stands_at(whole, part, at) {
            return true;
        }
        at = at + 1;
    }
    false
}

/// A name matches a filter text when the text is empty, or when the text
/// occurs in the name once both are in lowercase.
pub open spec fn text_matches(text: Seq<char>, name: Seq<char>) -> bool {
    text.len() == 0 || is_substring(lowercase_of(text), lowercase_of(name))
}

/// Tells whether `name` matches the filter `text`, without regard to case.
pub fn name_matches(text: &str, name: &str) -> (matched: bool)
    ensures
        matched == text_matches(text@, name@),
{
    if text.is_empty() {
        return true;
    }
    let part = chars_of(lowercase(text).as_str());
    let whole = chars_of(lowercase(name).as_str());
    contains_chars(&whole, &part)
}

} // verus!
