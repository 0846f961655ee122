//! Templates: the texts from which labels and versions are made.
//!
//! A template may name the commit it is expanded for: `$hash_short` stands
//! for the first eight characters of the commit's id and `$hash` for all of
//! it. These two are replaced here, before the groups of the pattern are
//! filled in.

use crate::commit::{CommitId, SHORT_LENGTH};
use crate::text::{chars_of, occurs_at, starts_with};
use vstd::prelude::*;
use vstd::string::*;

verus! {

/// `text` with every occurrence of `from` replaced by `to`, found from left
/// to right, an occurrence never overlapping the one before it. An empty
/// `from` occurs nowhere.
pub open spec fn replaced(text: Seq<char>, from: Seq<char>, to: Seq<char>) -> Seq<char>
    decreases text.len(),
{
    if from.len() == 0 || text.len() == 0 {
        text
    } else if starts_with(text, from) {
        to + replaced(text.skip(from.len() as int), from, to)
    } else {
        seq![text[0]] + replaced(text.skip(1), from, to)
    }
}

/// The name by which a template refers to the short form of the commit id.
pub open spec fn short_hash_key() -> Seq<char> {
    seq!['$', 'h', 'a', 's', 'h', '_', 's', 'h', 'o', 'r', 't']
}

/// The name by which a template refers to the commit id.
pub open spec fn hash_key() -> Seq<char> {
    seq!['$', 'h', 'a', 's', 'h']
}

/// `template` with `$hash_short` replaced by the first eight characters of
/// `id`, and after that `$hash` by all of `id`.
pub open spec fn with_commit(template: Seq<char>, id: Seq<char>) -> Seq<char> {
    replaced(
        replaced(template, short_hash_key(), id.take(SHORT_LENGTH as int)),
        hash_key(),
        id,
    )
}

/// Replaces every occurrence of `from` in `text` by `to`.
pub fn replace_all(text: &str, from: &str, to: &str) -> (r: String)
    ensures
        r@ == replaced(text@, from@, to@),
{
    let chars = chars_of(text);
    let pattern = chars_of(from);
    let n = chars.len();
    let m = pattern.len();
    if m == 0 {
        return text.to_owned();
    }
    let mut out = String::new();
    let mut kept: usize = 0;
    let mut i: usize = 0;
    proof {
        assert(chars@.skip(0) =~= text@);
        assert(out@ + chars@.subrange(0, 0) + replaced(chars@.skip(0), from@, to@) =~= replaced(
            text@,
            from@,
            to@,
        ));
    }
    while i < n
        invariant
            kept <= i <= n,
            n == chars.len(),
            m == pattern.len(),
            m > 0,
            chars@ == text@,
            pattern@ == from@,
            replaced(text@, from@, to@) == out@ + chars@.subrange(kept as int, i as int) + replaced(
                chars@.skip(i as int),
                from@,
                to@,
            ),
        decreases n - i,
    {
        let ghost tail = chars@.skip(i as int);
        let ghost before = out@;
        if occurs_at(&chars, i, &pattern) {
            out.append(text.substring_char(kept, i));
            out.append(to);
            proof {
                assert(tail.skip(m as int) =~= chars@.skip(i + m));
                assert(chars@.subrange(i + m, i + m) =~= Seq::<char>::empty());
                assert(out@ + chars@.subrange(i + m, i + m) + replaced(
                    chars@.skip(i + m),
                    from@,
                    to@,
                ) =~= before + chars@.subrange(kept as int, i as int) + replaced(tail, from@, to@));
            }
            i = i + m;
            kept = i;
        } else {
            proof {
                assert(tail.skip(1) =~= chars@.skip(i + 1));
                assert(chars@.subrange(kept as int, i as int) + seq![tail[0]] =~= chars@.subrange(
                    kept as int,
                    i + 1,
                ));
                assert(out@ + chars@.subrange(kept as int, i + 1) + replaced(
                    chars@.skip(i + 1),
                    from@,
                    to@,
                ) =~= out@ + chars@.subrange(kept as int, i as int) + replaced(tail, from@, to@));
            }
            i = i + 1;
        }
    }
    out.append(text.substring_char(kept, n));
    assert(replaced(chars@.skip(n as int), from@, to@) =~= Seq::<char>::empty());
    assert(out@ =~= replaced(text@, from@, to@));
    out
}

/// Fills the id of a commit into `template`: `$hash_short` becomes the first
/// eight characters of `id`, and after that `$hash` becomes all of `id`.
pub fn substitute_commit(template: &str, id: &CommitId) -> (r: String)
    ensures
        r@ == with_commit(template@, id@),
{
    proof {
        reveal_strlit("$hash_short");
        reveal_strlit("$hash");
        assert("$hash_short"@ =~= short_hash_key());
        assert("$hash"@ =~= hash_key());
    }
    let short_done = replace_all(template, "$hash_short", id.short());
    replace_all(short_done.as_str(), "$hash", id.as_str())
}

} // verus!
