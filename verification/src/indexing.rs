//! What the indices of a solver hold: exactly the commits that the
//! references tell of.
//!
//! A tag of a tag type tells of its target. A branch of a source type tells
//! of the commit at which the branch of the solver left it, and a branch of
//! a followed type that has a base version tells of the commit at which the
//! branch of the solver last met it: in both cases the merge base of the
//! tip and the branch. The laws of this module say that a commit stands in
//! an index if and only if some reference tells of it in that way.

use crate::config::{branch_match, first_of_kind, short_name, ConfigView};
use crate::repo::{known_merge_base, RefRecordView};
use crate::solver::{
    first_tag_match, index_reference, index_references, index_source, index_sources,
    index_track, index_tracks, indexed, no_indices, IndicesView, ProgressView, Task,
};
use vstd::prelude::*;

verus! {

/// The commit that `reference`, read as a tag, gives a version: its target,
/// where it has a short name that is of a tag type.
pub open spec fn tagged_commit(cfg: ConfigView, reference: RefRecordView) -> Option<Seq<char>> {
    match (reference.shorthand, reference.target) {
        (Some(name), Some(id)) => if first_tag_match(cfg.tags, name, id) matches Ok(Some(_)) {
            Some(id)
        } else {
            None
        },
        _ => None,
    }
}

/// The commit at which the branch of `task` left `reference`, read as a
/// branch of the source type `kind`: the merge base of the tip and the
/// reference, where that is known and the reference, looked at there, is of
/// that type.
pub open spec fn branch_point(task: Task, reference: RefRecordView, kind: Seq<char>) -> Option<
    Seq<char>,
> {
    match (first_of_kind(task.cfg.branches, kind), reference.name, reference.target) {
        (Some(origin), Some(name), Some(target)) => match known_merge_base(
            task.repo.merge_bases,
            task.branch.tip,
            target,
        ) {
            Some(base) => if branch_match(origin, short_name(name, task.cfg.tracked_remotes), base)
                matches Ok(Some(_)) {
                Some(base)
            } else {
                None
            },
            None => None,
        },
        _ => None,
    }
}

/// The commit at which the branch of `task` last met `reference`, read as
/// a branch of the followed type `kind`: the merge base of the tip and the
/// reference, where that is known and the reference is of that type and
/// has a base version.
pub open spec fn meeting_point(task: Task, reference: RefRecordView, kind: Seq<char>) -> Option<
    Seq<char>,
> {
    match (first_of_kind(task.cfg.branches, kind), reference.name, reference.target) {
        (Some(followed), Some(name), Some(target)) => match branch_match(
            followed,
            short_name(name, task.cfg.tracked_remotes),
            target,
        ) {
            Ok(Some(found)) => if found.base_version is Some {
                known_merge_base(task.repo.merge_bases, task.branch.tip, target)
            } else {
                None
            },
            _ => None,
        },
        _ => None,
    }
}

/// Whether `reference` is a branch that the branch of `task` left at the
/// commit `id`, for one of the source types `kinds`.
pub open spec fn leaves_at(task: Task, reference: RefRecordView, kinds: Seq<Seq<char>>, id: Seq<char>)
    -> bool {
    exists|j: int| 0 <= j < kinds.len() && branch_point(task, reference, #[trigger] kinds[j]) == Some(id)
}

/// Whether `reference` is a branch that the branch of `task` last met at
/// the commit `id`, for one of the followed types `kinds`.
pub open spec fn meets_at(task: Task, reference: RefRecordView, kinds: Seq<Seq<char>>, id: Seq<char>)
    -> bool {
    exists|j: int|
        0 <= j < kinds.len() && meeting_point(task, reference, #[trigger] kinds[j]) == Some(id)
}

/// Whether one of the tags among `references` gives the commit `id` a
/// version.
pub open spec fn is_tagged(cfg: ConfigView, references: Seq<RefRecordView>, id: Seq<char>) -> bool {
    exists|i: int|
        0 <= i < references.len() && (#[trigger] references[i]).is_tag && tagged_commit(
            cfg,
            references[i],
        ) == Some(id)
}

/// Whether the branch of `task` left one of the branches among
/// `references`, of one of its source types, at the commit `id`.
pub open spec fn is_branch_point(task: Task, references: Seq<RefRecordView>, id: Seq<char>) -> bool {
    exists|i: int|
        0 <= i < references.len() && !(#[trigger] references[i]).is_tag && leaves_at(
            task,
            references[i],
            task.branch.config.raw.sources,
            id,
        )
}

/// Whether the branch of `task` last met one of the branches among
/// `references`, of one of the types that it follows, at the commit `id`.
pub open spec fn is_meeting_point(task: Task, references: Seq<RefRecordView>, id: Seq<char>) -> bool {
    exists|i: int|
        0 <= i < references.len() && !(#[trigger] references[i]).is_tag && meets_at(
            task,
            references[i],
            task.branch.config.raw.tracks,
            id,
        )
}

/// Whether `after` holds what `before` holds and, beyond that, exactly the
/// commits that are told of: `id` stands in the tag index where `tagged`
/// says so, in the source index where `left` says so, and in the index of
/// bases where `met` says so.
pub open spec fn grown(
    before: IndicesView,
    after: IndicesView,
    id: Seq<char>,
    tagged: bool,
    left: bool,
    met: bool,
) -> bool {
    &&& after.tags.dom().contains(id) <==> before.tags.dom().contains(id) || tagged
    &&& after.branch_roots.dom().contains(id) <==> before.branch_roots.dom().contains(id) || left
    &&& after.version_bases.dom().contains(id) <==> before.version_bases.dom().contains(id) || met
}

/// Some of `kinds` tells of a branch point exactly where the first does or
/// some of the rest does.
pub proof fn lemma_leaves_at_unfolds(
    task: Task,
    reference: RefRecordView,
    kinds: Seq<Seq<char>>,
    id: Seq<char>,
)
    requires
        kinds.len() > 0,
    ensures
        leaves_at(task, reference, kinds, id) <==> branch_point(task, reference, kinds[0]) == Some(
            id,
        ) || leaves_at(task, reference, kinds.drop_first(), id),
{
    let rest = kinds.drop_first();
    if leaves_at(task, reference, kinds, id) {
        let j = choose|j: int|
            0 <= j < kinds.len() && branch_point(task, reference, #[trigger] kinds[j]) == Some(id);
        if j > 0 {
            assert(rest[j - 1] == kinds[j]);
        }
    }
    if leaves_at(task, reference, rest, id) {
        let j = choose|j: int|
            0 <= j < rest.len() && branch_point(task, reference, #[trigger] rest[j]) == Some(id);
        assert(kinds[j + 1] == rest[j]);
    }
}

/// Some of `kinds` tells of a meeting point exactly where the first does or
/// some of the rest does.
pub proof fn lemma_meets_at_unfolds(
    task: Task,
    reference: RefRecordView,
    kinds: Seq<Seq<char>>,
    id: Seq<char>,
)
    requires
        kinds.len() > 0,
    ensures
        meets_at(task, reference, kinds, id) <==> meeting_point(task, reference, kinds[0]) == Some(
            id,
        ) || meets_at(task, reference, kinds.drop_first(), id),
{
    let rest = kinds.drop_first();
    if meets_at(task, reference, kinds, id) {
        let j = choose|j: int|
            0 <= j < kinds.len() && meeting_point(task, reference, #[trigger] kinds[j]) == Some(id);
        if j > 0 {
            assert(rest[j - 1] == kinds[j]);
        }
    }
    if meets_at(task, reference, rest, id) {
        let j = choose|j: int|
            0 <= j < rest.len() && meeting_point(task, reference, #[trigger] rest[j]) == Some(id);
        assert(kinds[j + 1] == rest[j]);
    }
}

/// Holding a branch against source types puts into the source index the
/// commits at which the branch of the task left it, and nothing else
/// anywhere.
pub proof fn lemma_sources_grow(
    task: Task,
    indices: IndicesView,
    reference: RefRecordView,
    kinds: Seq<Seq<char>>,
    id: Seq<char>,
)
    ensures
        index_sources(task, indices, reference, kinds) matches ProgressView::Done(next) ==> grown(
            indices,
            next,
            id,
            false,
            leaves_at(task, reference, kinds, id),
            false,
        ),
    decreases kinds.len(),
{
    if kinds.len() > 0 {
        lemma_leaves_at_unfolds(task, reference, kinds, id);
        match index_source(task, indices, reference, kinds[0]) {
            ProgressView::Done(next) => {
                lemma_sources_grow(task, next, reference, kinds.drop_first(), id);
            },
            _ => {},
        }
    }
}

/// Holding a branch against followed types puts into the index of bases
/// the commits at which the branch of the task last met it, and nothing
/// else anywhere.
pub proof fn lemma_tracks_grow(
    task: Task,
    indices: IndicesView,
    reference: RefRecordView,
    kinds: Seq<Seq<char>>,
    id: Seq<char>,
)
    ensures
        index_tracks(task, indices, reference, kinds) matches ProgressView::Done(next) ==> grown(
            indices,
            next,
            id,
            false,
            false,
            meets_at(task, reference, kinds, id),
        ),
    decreases kinds.len(),
{
    if kinds.len() > 0 {
        lemma_meets_at_unfolds(task, reference, kinds, id);
        match index_track(task, indices, reference, kinds[0]) {
            ProgressView::Done(next) => {
                lemma_tracks_grow(task, next, reference, kinds.drop_first(), id);
            },
            _ => {},
        }
    }
}

/// Reading a reference puts into the indices the commits that it tells of,
/// and nothing else.
pub proof fn lemma_reference_grows(
    task: Task,
    indices: IndicesView,
    reference: RefRecordView,
    id: Seq<char>,
)
    ensures
        index_reference(task, indices, reference) matches ProgressView::Done(next) ==> grown(
            indices,
            next,
            id,
            reference.is_tag && tagged_commit(task.cfg, reference) == Some(id),
            !reference.is_tag && leaves_at(task, reference, task.branch.config.raw.sources, id),
            !reference.is_tag && meets_at(task, reference, task.branch.config.raw.tracks, id),
        ),
{
    if !reference.is_tag {
        let sources = task.branch.config.raw.sources;
        lemma_sources_grow(task, indices, reference, sources, id);
        match index_sources(task, indices, reference, sources) {
            ProgressView::Done(between) => {
                lemma_tracks_grow(task, between, reference, task.branch.config.raw.tracks, id);
            },
            _ => {},
        }
    }
}

/// Reading references puts into the indices the commits that they tell of,
/// and nothing else.
pub proof fn lemma_references_grow(
    task: Task,
    indices: IndicesView,
    references: Seq<RefRecordView>,
    id: Seq<char>,
)
    ensures
        index_references(task, indices, references) matches ProgressView::Done(next) ==> grown(
            indices,
            next,
            id,
            is_tagged(task.cfg, references, id),
            is_branch_point(task, references, id),
            is_meeting_point(task, references, id),
        ),
    decreases references.len(),
{
    if references.len() > 0 {
        let first = references[0];
        let rest = references.drop_first();
        lemma_reference_grows(task, indices, first, id);
        match index_reference(task, indices, first) {
            ProgressView::Done(next) => {
                lemma_references_grow(task, next, rest, id);
            },
            _ => {},
        }
        assert(forall|i: int| 0 <= i < rest.len() ==> rest[i] == references[i + 1]);
        assert(is_tagged(task.cfg, references, id) <==> (first.is_tag && tagged_commit(
            task.cfg,
            first,
        ) == Some(id)) || is_tagged(task.cfg, rest, id)) by {
            if is_tagged(task.cfg, references, id) {
                let i = choose|i: int|
                    0 <= i < references.len() && (#[trigger] references[i]).is_tag && tagged_commit(
                        task.cfg,
                        references[i],
                    ) == Some(id);
                if i > 0 {
                    assert(rest[i - 1] == references[i]);
                }
            }
            if is_tagged(task.cfg, rest, id) {
                let i = choose|i: int|
                    0 <= i < rest.len() && (#[trigger] rest[i]).is_tag && tagged_commit(
                        task.cfg,
                        rest[i],
                    ) == Some(id);
                assert(references[i + 1] == rest[i]);
            }
        }
        let sources = task.branch.config.raw.sources;
        assert(is_branch_point(task, references, id) <==> (!first.is_tag && leaves_at(
            task,
            first,
            sources,
            id,
        )) || is_branch_point(task, rest, id)) by {
            if is_branch_point(task, references, id) {
                let i = choose|i: int|
                    0 <= i < references.len() && !(#[trigger] references[i]).is_tag && leaves_at(
                        task,
                        references[i],
                        sources,
                        id,
                    );
                if i > 0 {
                    assert(rest[i - 1] == references[i]);
                }
            }
            if is_branch_point(task, rest, id) {
                let i = choose|i: int|
                    0 <= i < rest.len() && !(#[trigger] rest[i]).is_tag && leaves_at(
                        task,
                        rest[i],
                        sources,
                        id,
                    );
                assert(references[i + 1] == rest[i]);
            }
        }
        let tracks = task.branch.config.raw.tracks;
        assert(is_meeting_point(task, references, id) <==> (!first.is_tag && meets_at(
            task,
            first,
            tracks,
            id,
        )) || is_meeting_point(task, rest, id)) by {
            if is_meeting_point(task, references, id) {
                let i = choose|i: int|
                    0 <= i < references.len() && !(#[trigger] references[i]).is_tag && meets_at(
                        task,
                        references[i],
                        tracks,
                        id,
                    );
                if i > 0 {
                    assert(rest[i - 1] == references[i]);
                }
            }
            if is_meeting_point(task, rest, id) {
                let i = choose|i: int|
                    0 <= i < rest.len() && !(#[trigger] rest[i]).is_tag && meets_at(
                        task,
                        rest[i],
                        tracks,
                        id,
                    );
                assert(references[i + 1] == rest[i]);
            }
        }
    }
}

/// The indices of a solver hold exactly the commits that the references of
/// the repository tell of. A commit stands in the tag index where a tag of
/// a tag type points at it; in the source index where the branch left a
/// branch of one of its source types there; in the index of bases where
/// the branch last met there a branch, with a base version, of one of the
/// types that it follows.
pub proof fn lemma_indices_hold_what_is_told(task: Task, indices: IndicesView, id: Seq<char>)
    requires
        indexed(task) == ProgressView::Done(indices),
    ensures
        indices.tags.dom().contains(id) <==> is_tagged(task.cfg, task.repo.references, id),
        indices.branch_roots.dom().contains(id) <==> is_branch_point(
            task,
            task.repo.references,
            id,
        ),
        indices.version_bases.dom().contains(id) <==> is_meeting_point(
            task,
            task.repo.references,
            id,
        ),
{
    lemma_references_grow(task, no_indices(), task.repo.references, id);
}

} // verus!
