//! The order of versions.
//!
//! Versions are ordered by major, minor and patch first. Versions that agree
//! in these three and differ in their labels lie on release tracks of their
//! own and are not comparable. Versions that agree in all of that are ordered
//! by their build counters.

use crate::semver::SemVersionView;
use std::cmp::Ordering;
use vstd::prelude::*;

verus! {

/// How the number `a` stands to the number `b`.
pub open spec fn number_order(a: nat, b: nat) -> Ordering {
    if a < b {
        Ordering::Less
    } else if a > b {
        Ordering::Greater
    } else {
        Ordering::Equal
    }
}

/// How the sequence `a` stands to the sequence `b` of the same length in the
/// lexicographic order: as their first differing numbers stand.
pub open spec fn lexicographic(a: Seq<nat>, b: Seq<nat>) -> Ordering
    decreases a.len(),
{
    if a.len() == 0 || b.len() == 0 {
        Ordering::Equal
    } else if a[0] != b[0] {
        number_order(a[0], b[0])
    } else {
        lexicographic(a.drop_first(), b.drop_first())
    }
}

/// Major, minor and patch of `v`.
pub open spec fn core_of(v: SemVersionView) -> Seq<nat> {
    seq![v.major, v.minor, v.patch]
}

/// Major, minor, patch and build counter of `v`.
pub open spec fn numbers_of(v: SemVersionView) -> Seq<nat> {
    seq![v.major, v.minor, v.patch, v.build]
}

/// How the version `a` stands to the version `b`, where they are comparable.
pub open spec fn compare(a: SemVersionView, b: SemVersionView) -> Option<Ordering> {
    if a.major != b.major {
        Some(number_order(a.major, b.major))
    } else if a.minor != b.minor {
        Some(number_order(a.minor, b.minor))
    } else if a.patch != b.patch {
        Some(number_order(a.patch, b.patch))
    } else if a.label != b.label {
        None
    } else {
        Some(number_order(a.build, b.build))
    }
}

/// Versions that agree in major, minor and patch and differ in their labels
/// are not comparable, whatever their build counters are.
pub proof fn lemma_tracks_are_incomparable(a: SemVersionView, b: SemVersionView)
    requires
        core_of(a) == core_of(b),
        a.label != b.label,
    ensures
        compare(a, b) is None,
{
    assert(core_of(a)[0] == core_of(b)[0]);
    assert(core_of(a)[1] == core_of(b)[1]);
    assert(core_of(a)[2] == core_of(b)[2]);
}

/// Versions with one label, or both without, are ordered lexicographically by
/// major, minor, patch and build counter.
pub proof fn lemma_same_track_is_lexicographic(a: SemVersionView, b: SemVersionView)
    requires
        a.label == b.label,
    ensures
        compare(a, b) == Some(lexicographic(numbers_of(a), numbers_of(b))),
{
    reveal_with_fuel(lexicographic, 5);
    let x = numbers_of(a);
    let y = numbers_of(b);
    assert(x.drop_first() =~= seq![a.minor, a.patch, a.build]);
    assert(y.drop_first() =~= seq![b.minor, b.patch, b.build]);
    assert(x.drop_first().drop_first() =~= seq![a.patch, a.build]);
    assert(y.drop_first().drop_first() =~= seq![b.patch, b.build]);
    assert(x.drop_first().drop_first().drop_first() =~= seq![a.build]);
    assert(y.drop_first().drop_first().drop_first() =~= seq![b.build]);
    assert(x.drop_first().drop_first().drop_first().drop_first() =~= Seq::<nat>::empty());
}

/// Versions that differ in major, minor or patch are ordered by these three,
/// lexicographically, whatever their labels are.
pub proof fn lemma_core_decides(a: SemVersionView, b: SemVersionView)
    requires
        core_of(a) != core_of(b),
    ensures
        compare(a, b) == Some(lexicographic(core_of(a), core_of(b))),
        compare(a, b) != Some(Ordering::Equal),
{
    reveal_with_fuel(lexicographic, 4);
    let x = core_of(a);
    let y = core_of(b);
    assert(x.drop_first() =~= seq![a.minor, a.patch]);
    assert(y.drop_first() =~= seq![b.minor, b.patch]);
    assert(x.drop_first().drop_first() =~= seq![a.patch]);
    assert(y.drop_first().drop_first() =~= seq![b.patch]);
    assert(x.drop_first().drop_first().drop_first() =~= Seq::<nat>::empty());
    if a.major == b.major && a.minor == b.minor && a.patch == b.patch {
        assert(x =~= y);
    }
}

/// Two versions compare as equal exactly when they are one version.
pub proof fn lemma_equal_is_same(a: SemVersionView, b: SemVersionView)
    ensures
        compare(a, b) == Some(Ordering::Equal) <==> a == b,
{
}

/// Turning the two versions around turns the order around.
pub proof fn lemma_compare_is_antisymmetric(a: SemVersionView, b: SemVersionView)
    ensures
        compare(a, b) is None <==> compare(b, a) is None,
        compare(a, b) == Some(Ordering::Less) <==> compare(b, a) == Some(Ordering::Greater),
{
}

/// Below is transitive: a version below one that is below a third is below
/// the third.
pub proof fn lemma_less_is_transitive(a: SemVersionView, b: SemVersionView, c: SemVersionView)
    requires
        compare(a, b) == Some(Ordering::Less),
        compare(b, c) == Some(Ordering::Less),
    ensures
        compare(a, c) == Some(Ordering::Less),
{
}

} // verus!
