//! What is known of a repository.
//!
//! The library never reads a repository. It works on what its caller has
//! learned of one: the references, and the answers to the questions asked so
//! far. Where an answer is missing, the library says which, and the caller
//! asks the repository and comes back with more.

use crate::commit::CommitId;
use vstd::prelude::*;

verus! {

/// A reference of the repository: a tag or a branch.
#[derive(Debug)]
pub struct RefRecord {
    /// The full name, such as `refs/heads/main`, where it is text.
    pub name: Option<String>,
    /// The short name, such as `main` or `v1.0.0`, where it is text.
    pub shorthand: Option<String>,
    /// Whether the reference is a tag.
    pub is_tag: bool,
    /// The commit that the reference points at, where it points at one
    /// directly.
    pub target: Option<CommitId>,
}

/// The mathematical value of a [`RefRecord`].
pub struct RefRecordView {
    pub name: Option<Seq<char>>,
    pub shorthand: Option<Seq<char>>,
    pub is_tag: bool,
    pub target: Option<Seq<char>>,
}

impl DeepView for RefRecord {
    type V = RefRecordView;

    open spec fn deep_view(&self) -> RefRecordView {
        RefRecordView {
            name: self.name.deep_view(),
            shorthand: self.shorthand.deep_view(),
            is_tag: self.is_tag,
            target: self.target.deep_view(),
        }
    }
}

/// An answer of the repository: `base` is the merge base of `one` and `two`.
#[derive(Debug)]
pub struct MergeBaseFact {
    pub one: CommitId,
    pub two: CommitId,
    pub base: CommitId,
}

/// The mathematical value of a [`MergeBaseFact`].
pub struct MergeBaseFactView {
    pub one: Seq<char>,
    pub two: Seq<char>,
    pub base: Seq<char>,
}

impl DeepView for MergeBaseFact {
    type V = MergeBaseFactView;

    open spec fn deep_view(&self) -> MergeBaseFactView {
        MergeBaseFactView { one: self.one@, two: self.two@, base: self.base@ }
    }
}

/// An answer of the repository: `commits` are the commits that can be
/// reached from `tip`, `tip` among them, each before its parents.
#[derive(Debug)]
pub struct WalkFact {
    pub tip: CommitId,
    pub commits: Vec<CommitId>,
}

/// The mathematical value of a [`WalkFact`].
pub struct WalkFactView {
    pub tip: Seq<char>,
    pub commits: Seq<Seq<char>>,
}

impl DeepView for WalkFact {
    type V = WalkFactView;

    open spec fn deep_view(&self) -> WalkFactView {
        WalkFactView { tip: self.tip@, commits: self.commits.deep_view() }
    }
}

/// What is known of a repository.
#[derive(Debug)]
pub struct Repo {
    /// The references, in the order in which the repository lists them.
    pub references: Vec<RefRecord>,
    /// The merge bases that are known.
    pub merge_bases: Vec<MergeBaseFact>,
    /// The walks that are known.
    pub walks: Vec<WalkFact>,
}

/// The mathematical value of a [`Repo`].
pub struct RepoView {
    pub references: Seq<RefRecordView>,
    pub merge_bases: Seq<MergeBaseFactView>,
    pub walks: Seq<WalkFactView>,
}

impl DeepView for Repo {
    type V = RepoView;

    open spec fn deep_view(&self) -> RepoView {
        RepoView {
            references: self.references.deep_view(),
            merge_bases: self.merge_bases.deep_view(),
            walks: self.walks.deep_view(),
        }
    }
}

/// A question to the repository.
#[derive(Debug)]
pub enum RepoQuery {
    /// Which commit is the merge base of `one` and `two`?
    MergeBase { one: CommitId, two: CommitId },
    /// Which commits can be reached from `tip`, each before its parents?
    Walk { tip: CommitId },
}

/// The mathematical value of a [`RepoQuery`].
pub enum RepoQueryView {
    MergeBase { one: Seq<char>, two: Seq<char> },
    Walk { tip: Seq<char> },
}

impl DeepView for RepoQuery {
    type V = RepoQueryView;

    open spec fn deep_view(&self) -> RepoQueryView {
        match self {
            RepoQuery::MergeBase { one, two } => RepoQueryView::MergeBase { one: one@, two: two@ },
            RepoQuery::Walk { tip } => RepoQueryView::Walk { tip: tip@ },
        }
    }
}

/// The merge base of `one` and `two` as the first of `facts` about the two
/// tells it.
pub open spec fn known_merge_base(
    facts: Seq<MergeBaseFactView>,
    one: Seq<char>,
    two: Seq<char>,
) -> Option<Seq<char>>
    decreases facts.len(),
{
    if facts.len() == 0 {
        None
    } else if facts[0].one == one && facts[0].two == two {
        Some(facts[0].base)
    } else {
        known_merge_base(facts.drop_first(), one, two)
    }
}

/// The walk from `tip` as the first of `facts` about `tip` tells it.
pub open spec fn known_walk(facts: Seq<WalkFactView>, tip: Seq<char>) -> Option<Seq<Seq<char>>>
    decreases facts.len(),
{
    if facts.len() == 0 {
        None
    } else if facts[0].tip == tip {
        Some(facts[0].commits)
    } else {
        known_walk(facts.drop_first(), tip)
    }
}

impl Repo {
    /// The merge base of `one` and `two`, where it is known.
    pub fn merge_base(&self, one: &CommitId, two: &CommitId) -> (r: Option<&CommitId>)
        ensures
            r.deep_view() == known_merge_base(self.deep_view().merge_bases, one@, two@),
    {
        let ghost facts = self.deep_view().merge_bases;
        let mut i: usize = 0;
        assert(facts.skip(0) =~= facts);
        while i < self.merge_bases.len()
            invariant
                i <= self.merge_bases.len(),
                facts == self.deep_view().merge_bases,
                known_merge_base(facts, one@, two@) == known_merge_base(
                    facts.skip(i as int),
                    one@,
                    two@,
                ),
            decreases self.merge_bases.len() - i,
        {
            proof {
                assert(facts.skip(i as int).drop_first() =~= facts.skip(i + 1));
                assert(facts.skip(i as int)[0] == self.merge_bases@[i as int].deep_view());
            }
            let fact = &self.merge_bases[i];
            if fact.one == *one && fact.two == *two {
                return Some(&fact.base);
            }
            i = i + 1;
        }
        None
    }

    /// The walk from `tip`, where it is known.
    pub fn walk(&self, tip: &CommitId) -> (r: Option<&Vec<CommitId>>)
        ensures
            r.deep_view() == known_walk(self.deep_view().walks, tip@),
    {
        let ghost facts = self.deep_view().walks;
        let mut i: usize = 0;
        assert(facts.skip(0) =~= facts);
        while i < self.walks.len()
            invariant
                i <= self.walks.len(),
                facts == self.deep_view().walks,
                known_walk(facts, tip@) == known_walk(facts.skip(i as int), tip@),
            decreases self.walks.len() - i,
        {
            proof {
                assert(facts.skip(i as int).drop_first() =~= facts.skip(i + 1));
                assert(facts.skip(i as int)[0] == self.walks@[i as int].deep_view());
            }
            let fact = &self.walks[i];
            if fact.tip == *tip {
                return Some(&fact.commits);
            }
            i = i + 1;
        }
        None
    }
}

} // verus!
