//! Small tools for texts, which the library reads character by character.

use vstd::prelude::*;
use vstd::string::*;

verus! {

/// Whether `text` begins with `prefix`.
pub open spec fn starts_with(text: Seq<char>, prefix: Seq<char>) -> bool {
    prefix.len() <= text.len() && text.take(prefix.len() as int) == prefix
}

/// The characters of `s`.
pub fn chars_of(s: &str) -> (text: Vec<char>)
    ensures
        text@ == s@,
{
    let mut text: Vec<char> = Vec::new();
    for c in it: s.chars()
        invariant
            it.seq() == s@,
            text@ == it.seq().take(it.index() as int),
    {
        text.push(c);
    }
    text
}

/// Tells whether the two texts are one text.
pub fn str_eq(one: &str, two: &str) -> (same: bool)
    ensures
        same == (one@ == two@),
{
    let a = chars_of(one);
    let b = chars_of(two);
    if a.len() != b.len() {
        return false;
    }
    let mut i: usize = 0;
    while i < a.len()
        invariant
            i <= a.len(),
            a.len() == b.len(),
            a@ == one@,
            b@ == two@,
            forall|j: int| 0 <= j < i ==> #[trigger] a@[j] == b@[j],
        decreases a.len() - i,
    {
        if a[i] != b[i] {
            assert(one@[i as int] != two@[i as int]);
            return false;
        }
        i = i + 1;
    }
    assert(a@ =~= b@);
    true
}

/// Tells whether `pattern` stands in `text` at place `at`.
pub fn occurs_at(text: &Vec<char>, at: usize, pattern: &Vec<char>) -> (found: bool)
    requires
        at <= text.len(),
    ensures
        found == starts_with(text@.skip(at as int), pattern@),
{
    let ghost tail = text@.skip(at as int);
    if pattern.len() > text.len() - at {
        return false;
    }
    let mut k: usize = 0;
    while k < pattern.len()
        invariant
            k <= pattern.len(),
            at <= text.len(),
            pattern.len() <= text.len() - at,
            tail == text@.skip(at as int),
            forall|j: int| 0 <= j < k ==> #[trigger] tail[j] == pattern@[j],
        decreases pattern.len() - k,
    {
        if text[at + k] != pattern[k] {
            assert(tail.take(pattern.len() as int)[k as int] != pattern@[k as int]);
            return false;
        }
        k = k + 1;
    }
    assert(tail.take(pattern.len() as int) =~= pattern@);
    true
}

/// `text` without `prefix`, where it begins with it.
pub fn strip_prefix<'a>(text: &'a str, chars: &Vec<char>, prefix: &str) -> (r: Option<&'a str>)
    requires
        chars@ == text@,
    ensures
        r is Some <==> starts_with(text@, prefix@),
        r matches Some(rest) ==> rest@ == text@.skip(prefix@.len() as int),
{
    let wanted = chars_of(prefix);
    assert(chars@.skip(0) =~= text@);
    if occurs_at(chars, 0, &wanted) {
        Some(text.substring_char(wanted.len(), chars.len()))
    } else {
        None
    }
}

} // verus!
