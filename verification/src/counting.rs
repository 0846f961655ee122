//! How the commits above a basis count: laws of the version that a solver
//! finds, stated over its indices and the walk from the tip.
//!
//! A commit that stands in no index counts one build. The walk from the tip
//! passes such commits until it meets a commit that names a version, or
//! ends. What it meets decides the version that the builds are counted on:
//! the base version of the branch at a branch point whose source was not
//! searched and at the end of the walk, and the version of the other branch
//! where one was found, moved forward by the step of the type where commits
//! lie above it.

use crate::config::BranchMatchView;
use crate::error::VernerErrorView;
use crate::repo::known_walk;
use crate::resolve::{
    apply_all, increments_before, lemma_first_named, lemma_hard_basis, lemma_increments_of_prefix,
    names_version, step_forward, VersionInc,
};
use crate::semver::{SemVersion, SemVersionInc, SemVersionView};
use crate::indexing::{
    is_branch_point, is_meeting_point, is_tagged, lemma_indices_hold_what_is_told,
};
use crate::solver::{
    basis_of, indexed, instructions, lemma_references_stay, no_indices, solve_spec,
    stays_at_level, IndicesView, ProgressView, Task,
};
use vstd::prelude::*;

verus! {

/// Whether the commit `id` stands in none of the indices: no tag gives it a
/// version, and the branch left or met no other branch there.
pub open spec fn is_plain(indices: IndicesView, id: Seq<char>) -> bool {
    &&& !indices.tags.dom().contains(id)
    &&& !indices.branch_roots.dom().contains(id)
    &&& !indices.version_bases.dom().contains(id)
}

/// Whether the first `n` of `commits` stand in none of the indices.
pub open spec fn plain_beginning(indices: IndicesView, commits: Seq<Seq<char>>, n: nat) -> bool {
    n <= commits.len() && forall|j: int| 0 <= j < n ==> is_plain(indices, #[trigger] commits[j])
}

/// The version `v` with `n` builds more.
pub open spec fn builds_on(v: SemVersionView, n: nat) -> SemVersionView {
    SemVersionView { build: v.build + n, ..v }
}

/// What `n` commits above the version `v` give on `branch`: `v` with `n`
/// builds more, under the label of the branch; an error where there are
/// such commits and the build counter does not hold that many.
pub open spec fn counted(branch: BranchMatchView, v: SemVersionView, n: nat) -> ProgressView<
    SemVersionView,
> {
    if n == 0 || v.build + n <= u32::MAX {
        ProgressView::Done(builds_on(v, n).with_label(branch.tag))
    } else {
        ProgressView::Failed(VernerErrorView::VersionOverflow)
    }
}

/// `n` increments of one build each.
pub open spec fn builds(n: nat) -> Seq<SemVersionInc> {
    Seq::new(n, |j: int| SemVersionInc::Build(1))
}

/// Increments of one build each add up: `n` of them give `n` builds more,
/// and fit exactly where the sum does.
pub proof fn lemma_builds_add_up(v: SemVersionView, n: nat)
    ensures
        apply_all::<SemVersion, SemVersionInc>(v, builds(n)) == if n == 0 || v.build + n
            <= u32::MAX {
            Some(builds_on(v, n))
        } else {
            None
        },
    decreases n,
{
    let one = SemVersionInc::Build(1);
    if n == 0 {
        assert(builds_on(v, 0) == v);
    } else {
        assert(builds(n)[0] == one);
        assert(builds(n).drop_first() =~= builds((n - 1) as nat));
        if v.build + 1 <= u32::MAX {
            let next = v.inc(one);
            lemma_builds_add_up(next, (n - 1) as nat);
            assert(builds_on(next, (n - 1) as nat) == builds_on(v, n));
        }
    }
}

/// Commits that stand in no index say one build each, and none of them
/// names a version.
pub proof fn lemma_plain_commits_are_builds(
    indices: IndicesView,
    branch: BranchMatchView,
    commits: Seq<Seq<char>>,
    n: nat,
)
    requires
        plain_beginning(indices, commits, n),
    ensures
        forall|j: int|
            0 <= j < n ==> !names_version(#[trigger] instructions(indices, branch, commits)[j]),
        increments_before(instructions(indices, branch, commits), n as int) == builds(n),
{
    let history = instructions(indices, branch, commits);
    assert forall|j: int| 0 <= j < n implies #[trigger] history[j] == VersionInc::<
        SemVersionView,
        SemVersionInc,
    >::Inc(SemVersionInc::Build(1)) by {
        assert(is_plain(indices, commits[j]));
    }
    lemma_increments_of_prefix(history, n as int);
    assert(increments_before(history, n as int) =~= builds(n));
}

/// A branch that no commit gives a version counts from its base. Where no
/// commit of the walk from the tip stands in an index, the version is the
/// base version of the branch, or `0.0.0` where it has none, with one build
/// for each commit of the walk, under the label of the branch. The step of
/// the type is not applied.
pub proof fn lemma_builds_without_a_basis(task: Task, indices: IndicesView, commits: Seq<Seq<char>>)
    requires
        indexed(task) == ProgressView::Done(indices),
        known_walk(task.repo.walks, task.branch.tip) == Some(commits),
        plain_beginning(indices, commits, commits.len()),
    ensures
        solve_spec(task) == counted(task.branch, basis_of(task.branch), commits.len()),
{
    let history = instructions(indices, task.branch, commits);
    lemma_plain_commits_are_builds(indices, task.branch, commits, commits.len());
    lemma_first_named(history, history.len() as int);
    lemma_builds_add_up(basis_of(task.branch), commits.len());
}

/// The commits past a branch point count as builds on the base of the
/// branch. Where the first `n` commits of the walk from the tip stand in no
/// index, and the next is a commit at which the branch left a source branch
/// whose version was not searched for, and which no tag gives a version,
/// the version is the base version of the branch, or `0.0.0` where it has
/// none, with `n` builds more, under the label of the branch. The step of
/// the type is not applied, and what lies below the branch point is not
/// read. At the branch point itself, `n` is zero and the build counter is
/// that of the base.
pub proof fn lemma_builds_past_a_branch_point(
    task: Task,
    indices: IndicesView,
    commits: Seq<Seq<char>>,
    n: nat,
)
    requires
        indexed(task) == ProgressView::Done(indices),
        known_walk(task.repo.walks, task.branch.tip) == Some(commits),
        plain_beginning(indices, commits, n),
        n < commits.len(),
        !indices.tags.dom().contains(commits[n as int]),
        indices.branch_roots.dom().contains(commits[n as int]),
        indices.branch_roots[commits[n as int]] is None,
    ensures
        solve_spec(task) == counted(task.branch, basis_of(task.branch), n),
{
    let history = instructions(indices, task.branch, commits);
    lemma_plain_commits_are_builds(indices, task.branch, commits, n);
    assert(history[n as int] == VersionInc::<SemVersionView, SemVersionInc>::HardBasis(
        basis_of(task.branch),
    ));
    lemma_hard_basis::<SemVersion, SemVersionInc>(
        history,
        basis_of(task.branch),
        task.branch.config.raw.v_next,
        n as int,
    );
    lemma_builds_add_up(basis_of(task.branch), n);
}

/// A branch on the version of another branch. Where the first `n` commits
/// of the walk from the tip stand in no index, and the next is a commit
/// that no tag gives a version and at which the branch left a source branch
/// for which the version `v` was found, or else last met a followed branch
/// with the base version `v`:
///
/// - with no commit above it, the version is `v` as it stands, under the
///   label of the branch: the step of the type is not applied;
/// - with `n` commits above it, `n` at least one, the version is `v` moved
///   forward by the step of the type, with `n` builds more, under the label
///   of the branch.
pub proof fn lemma_builds_past_a_found_version(
    task: Task,
    indices: IndicesView,
    commits: Seq<Seq<char>>,
    n: nat,
    v: SemVersionView,
)
    requires
        indexed(task) == ProgressView::Done(indices),
        known_walk(task.repo.walks, task.branch.tip) == Some(commits),
        plain_beginning(indices, commits, n),
        n < commits.len(),
        !indices.tags.dom().contains(commits[n as int]),
        if indices.branch_roots.dom().contains(commits[n as int]) {
            indices.branch_roots[commits[n as int]] == Some(v)
        } else {
            indices.version_bases.dom().contains(commits[n as int])
                && indices.version_bases[commits[n as int]] == v
        },
    ensures
        n == 0 ==> solve_spec(task) == ProgressView::Done(v.with_label(task.branch.tag)),
        n > 0 ==> solve_spec(task) == match step_forward::<SemVersion, SemVersionInc>(
            v,
            task.branch.config.raw.v_next,
        ) {
            Some(moved) => counted(task.branch, moved, n),
            None => ProgressView::Failed(VernerErrorView::VersionOverflow),
        },
{
    let history = instructions(indices, task.branch, commits);
    lemma_plain_commits_are_builds(indices, task.branch, commits, n);
    assert(history[n as int] == VersionInc::<SemVersionView, SemVersionInc>::SoftBasis(v));
    lemma_first_named(history, n as int);
    if n == 0 {
        assert(builds_on(v, 0) == v);
    } else {
        match step_forward::<SemVersion, SemVersionInc>(v, task.branch.config.raw.v_next) {
            Some(moved) => {
                lemma_builds_add_up(moved, n);
            },
            None => {},
        }
    }
}

/// Whether no reference of the repository tells of the commit `id`: no tag
/// of a tag type points at it, and the branch of `task` neither left a
/// branch of a source type there nor last met a branch of a followed type
/// there.
pub open spec fn is_untold(task: Task, id: Seq<char>) -> bool {
    &&& !is_tagged(task.cfg, task.repo.references, id)
    &&& !is_branch_point(task, task.repo.references, id)
    &&& !is_meeting_point(task, task.repo.references, id)
}

/// Whether no reference of the repository tells of any of the first `n` of
/// `commits`.
pub open spec fn untold_beginning(task: Task, commits: Seq<Seq<char>>, n: nat) -> bool {
    n <= commits.len() && forall|j: int| 0 <= j < n ==> is_untold(task, #[trigger] commits[j])
}

/// A commit stands in no index exactly where no reference tells of it.
pub proof fn lemma_untold_is_plain(task: Task, indices: IndicesView, id: Seq<char>)
    requires
        indexed(task) == ProgressView::Done(indices),
    ensures
        is_plain(indices, id) <==> is_untold(task, id),
{
    lemma_indices_hold_what_is_told(task, indices, id);
}

/// The same law as [`lemma_builds_without_a_basis`], told of the
/// repository. Where the indices of the solver can be made, and no
/// reference tells of any commit of the walk from the tip, the version is
/// the base version of the branch, or `0.0.0` where it has none, with one
/// build for each commit of the walk, under the label of the branch.
pub proof fn lemma_untold_commits_count(task: Task, commits: Seq<Seq<char>>)
    requires
        indexed(task) is Done,
        known_walk(task.repo.walks, task.branch.tip) == Some(commits),
        untold_beginning(task, commits, commits.len()),
    ensures
        solve_spec(task) == counted(task.branch, basis_of(task.branch), commits.len()),
{
    let indices = indexed(task)->Done_0;
    assert forall|j: int| 0 <= j < commits.len() implies is_plain(
        indices,
        #[trigger] commits[j],
    ) by {
        lemma_untold_is_plain(task, indices, commits[j]);
    }
    lemma_builds_without_a_basis(task, indices, commits);
}

/// The same law as [`lemma_builds_past_a_branch_point`], told of the
/// repository, for a branch whose source branches are not searched: one
/// with a base version of its own, or one at the greatest depth.
///
/// Where the indices of the solver can be made, no reference tells of any
/// of the first `n` commits of the walk from the tip, and the next commit
/// is one at which the branch left a branch of one of its source types,
/// and which no tag gives a version, the version is the base version of
/// the branch, or `0.0.0` where it has none, with `n` builds more, under
/// the label of the branch. At the branch point itself, `n` is zero.
pub proof fn lemma_commits_past_a_source_count(task: Task, commits: Seq<Seq<char>>, n: nat)
    requires
        indexed(task) is Done,
        stays_at_level(task),
        known_walk(task.repo.walks, task.branch.tip) == Some(commits),
        untold_beginning(task, commits, n),
        n < commits.len(),
        !is_tagged(task.cfg, task.repo.references, commits[n as int]),
        is_branch_point(task, task.repo.references, commits[n as int]),
    ensures
        solve_spec(task) == counted(task.branch, basis_of(task.branch), n),
{
    let indices = indexed(task)->Done_0;
    assert forall|j: int| 0 <= j < n implies is_plain(indices, #[trigger] commits[j]) by {
        lemma_untold_is_plain(task, indices, commits[j]);
    }
    lemma_indices_hold_what_is_told(task, indices, commits[n as int]);
    lemma_references_stay(task, no_indices(), task.repo.references);
    lemma_builds_past_a_branch_point(task, indices, commits, n);
}

} // verus!
