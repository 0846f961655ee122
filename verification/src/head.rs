//! Which branch is meant: the branch of the head, of a reference, or a
//! branch that is only named.

use crate::commit::CommitId;
use crate::config::{first_branch_match, short_name, BranchMatch, BranchMatchView, Config, ConfigView};
use crate::error::{outcome_view, VernerError, VernerErrorView};
use crate::repo::{RefRecord, RefRecordView};
use vstd::prelude::*;

verus! {

/// Whether `reference` has a name and points at the commit `id`.
pub open spec fn points_at(reference: RefRecordView, id: Seq<char>) -> bool {
    reference.name is Some && reference.target == Some(id)
}

/// The references among `branches` that have a name and point at the commit
/// `id`, in their order.
pub open spec fn pointing_at(branches: Seq<RefRecordView>, id: Seq<char>) -> Seq<RefRecordView>
    decreases branches.len(),
{
    if branches.len() == 0 {
        Seq::empty()
    } else if points_at(branches.last(), id) {
        pointing_at(branches.drop_last(), id).push(branches.last())
    } else {
        pointing_at(branches.drop_last(), id)
    }
}

/// The names of the references `references`, one for one.
pub open spec fn names_of(references: Seq<RefRecordView>) -> Seq<Seq<char>> {
    Seq::new(references.len(), |i: int| references[i].name->Some_0)
}

/// The reference of the branch that the head stands for.
///
/// A head that is attached is that reference. A detached head stands for
/// the one branch that points at its commit; where the branches that do so
/// are none or several, the head is ambiguous, and the error names them.
pub open spec fn current_branch(head: RefRecordView, detached: bool, branches: Seq<RefRecordView>)
    -> Result<RefRecordView, VernerErrorView> {
    if !detached {
        Ok(head)
    } else {
        match head.target {
            None => Err(VernerErrorView::HeadWithoutCommit),
            Some(id) => {
                let found = pointing_at(branches, id);
                if found.len() == 1 {
                    Ok(found[0])
                } else {
                    Err(VernerErrorView::AmbiguousHead(names_of(found)))
                }
            },
        }
    }
}

/// Finds the reference of the branch that the head stands for, given the
/// head, whether it is detached, and all branches of the repository.
pub fn resolve_current_branch<'a>(
    head: &'a RefRecord,
    detached: bool,
    branches: &'a Vec<RefRecord>,
) -> (r: Result<&'a RefRecord, VernerError>)
    ensures
        outcome_view(r) == current_branch(head.deep_view(), detached, branches.deep_view()),
{
    if !detached {
        return Ok(head);
    }
    let head_id = match &head.target {
        Some(id) => id,
        None => {
            return Err(VernerError::HeadWithoutCommit);
        },
    };
    let ghost all = branches.deep_view();
    let mut found: Vec<&'a RefRecord> = Vec::new();
    let mut names: Vec<String> = Vec::new();
    let mut i: usize = 0;
    assert(all.take(0) =~= Seq::<RefRecordView>::empty());
    assert(found.deep_view() =~= pointing_at(all.take(0), head_id@));
    assert(names.deep_view() =~= names_of(pointing_at(all.take(0), head_id@)));
    while i < branches.len()
        invariant
            i <= branches.len(),
            all == branches.deep_view(),
            found.deep_view() == pointing_at(all.take(i as int), head_id@),
            names.deep_view() == names_of(pointing_at(all.take(i as int), head_id@)),
        decreases branches.len() - i,
    {
        let ghost before = pointing_at(all.take(i as int), head_id@);
        proof {
            assert(all.take(i + 1).drop_last() =~= all.take(i as int));
            assert(all.take(i + 1).last() == branches@[i as int].deep_view());
        }
        let candidate = &branches[i];
        match (&candidate.name, &candidate.target) {
            (Some(name), Some(target)) => {
                if *target == *head_id {
                    let ghost names_before = names.deep_view();
                    found.push(candidate);
                    names.push(name.clone());
                    proof {
                        let after = pointing_at(all.take(i + 1), head_id@);
                        assert(after == before.push(candidate.deep_view()));
                        assert(found.deep_view() =~= after);
                        assert(names.deep_view() =~= names_before.push(name@));
                        assert(names_of(after) =~= names_of(before).push(name@));
                    }
                }
            },
            _ => {},
        }
        i = i + 1;
    }
    assert(all.take(i as int) =~= all);
    if found.len() == 1 {
        Ok(found[0])
    } else {
        Err(VernerError::AmbiguousHead(names))
    }
}

/// The branch that `reference` is, by the rules `cfg`: the first branch type
/// that its short name matches, looked at at its target.
pub open spec fn branch_of(cfg: ConfigView, reference: RefRecordView) -> Result<
    BranchMatchView,
    VernerErrorView,
> {
    match reference.name {
        None => Err(VernerErrorView::ReferenceWithoutName),
        Some(name) => match reference.target {
            None => Err(VernerErrorView::ReferenceWithoutTarget),
            Some(target) => named_branch(cfg, short_name(name, cfg.tracked_remotes), Some(target)),
        },
    }
}

/// The branch with the short name `name`, looked at at the commit of the
/// head, by the rules `cfg`: the first branch type that `name` matches.
pub open spec fn named_branch(cfg: ConfigView, name: Seq<char>, head: Option<Seq<char>>) -> Result<
    BranchMatchView,
    VernerErrorView,
> {
    match head {
        None => Err(VernerErrorView::HeadWithoutCommit),
        Some(id) => match first_branch_match(cfg.branches, name, id) {
            Ok(Some(found)) => Ok(found),
            Ok(None) => Err(VernerErrorView::NoMatchingBranch(name)),
            Err(error) => Err(error),
        },
    }
}

/// Finds the branch with the short name `name`, looked at at the commit
/// `head` of the head. Fails where the head has no commit and where no
/// branch type matches.
pub fn branch_by_name<'a>(cfg: &'a Config, name: &str, head: Option<&CommitId>) -> (r: Result<
    BranchMatch<'a>,
    VernerError,
>)
    ensures
        outcome_view(r) == named_branch(cfg.deep_view(), name@, head.deep_view()),
{
    let id = match head {
        Some(id) => id,
        None => {
            return Err(VernerError::HeadWithoutCommit);
        },
    };
    match cfg.try_match_branch(name, id) {
        Ok(Some(found)) => Ok(found),
        Ok(None) => Err(VernerError::NoMatchingBranch(name.to_owned())),
        Err(error) => Err(error),
    }
}

/// Finds the branch that `reference` is. Fails where the reference has no
/// name or no target and where no branch type matches its short name.
pub fn branch_of_reference<'a>(cfg: &'a Config, reference: &RefRecord) -> (r: Result<
    BranchMatch<'a>,
    VernerError,
>)
    ensures
        outcome_view(r) == branch_of(cfg.deep_view(), reference.deep_view()),
{
    let name = match &reference.name {
        Some(name) => name,
        None => {
            return Err(VernerError::ReferenceWithoutName);
        },
    };
    let target = match &reference.target {
        Some(target) => target,
        None => {
            return Err(VernerError::ReferenceWithoutTarget);
        },
    };
    let short = cfg.reference_name_to_branch_name(name.as_str());
    branch_by_name(cfg, short, Some(target))
}

} // verus!
