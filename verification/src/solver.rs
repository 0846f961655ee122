//! The branch solver: it finds the version of a branch at a commit.
//!
//! A solver is made for one branch. It reads every reference once and fills
//! three indices. The tag index gives the commits that carry a version of
//! their own. The source index gives the commits at which the branch left a
//! branch it may have been cut from, each with the version that the source
//! branch had there, found by a solver of its own; the search goes no deeper
//! than the context allows. The index of bases gives the commits at which
//! the branch last met a branch it follows, each with the base version of
//! that branch. The solver then walks the history from the tip, names for
//! each commit what it says about the version, and has the reducer fold
//! that into one version.
//!
//! A type may name source types and followed types. A name that the rules
//! do not have is an error of the rules: the solver meets it before it reads
//! anything, so the error does not depend on what the repository holds.
//!
//! The solver asks the repository nothing. Where it needs a merge base or a
//! walk that is not among the known facts, it stops and names the question.

use crate::commit::CommitId;
use crate::config::{
    branch_match, first_of_kind, short_name, tag_match, unknown_name, BranchMatch,
    BranchMatchView, Config, ConfigView, TagConfigView, TagMatch, TagMatchView,
};
use crate::error::{outcome_view, VernerError, VernerErrorView};
use crate::index::CommitIndex;
use crate::repo::{
    known_merge_base, known_walk, MergeBaseFactView, RefRecord, RefRecordView, Repo, RepoQuery,
    RepoQueryView, RepoView, WalkFactView,
};
use crate::resolve::{
    history_view, instruction_view, lemma_rest_is_not_read, names_version, resolve_spec,
    resolve_version, VersionHint, VersionInc,
};
use crate::semver::{SemVersion, SemVersionInc, SemVersionView};
use vstd::prelude::*;

verus! {

/// How far a step got that may have to ask the repository.
#[derive(Debug)]
pub enum Progress<T> {
    /// The step is done, with this result.
    Done(T),
    /// The step needs the answer to this question.
    Needs(RepoQuery),
}

/// The mathematical value of what a step gave: its result, the question it
/// stopped at, or the error it failed with.
pub enum ProgressView<T> {
    Done(T),
    Needs(RepoQueryView),
    Failed(VernerErrorView),
}

/// The mathematical value of what a step gave.
pub open spec fn progress_view<T: DeepView>(outcome: Result<Progress<T>, VernerError>)
    -> ProgressView<T::V> {
    match outcome {
        Ok(Progress::Done(value)) => ProgressView::Done(value.deep_view()),
        Ok(Progress::Needs(query)) => ProgressView::Needs(query.deep_view()),
        Err(error) => ProgressView::Failed(error.deep_view()),
    }
}

/// How deep the search through source branches is, and how deep it may go.
#[derive(Debug, Clone, Copy)]
pub struct BranchSolveContext {
    /// The number of source branches between the branch that was asked for
    /// and the branch at hand.
    pub depth: u32,
    /// The greatest depth at which a solver may be made.
    pub max_depth: u32,
}

impl BranchSolveContext {
    /// The context one level deeper, where the search may go deeper.
    pub fn try_descend(&self) -> (r: Option<Self>)
        ensures
            r is Some <==> self.depth < self.max_depth,
            r matches Some(deeper) ==> deeper.depth == self.depth + 1 && deeper.max_depth
                == self.max_depth,
    {
        if self.depth >= self.max_depth {
            None
        } else {
            Some(BranchSolveContext { depth: self.depth + 1, max_depth: self.max_depth })
        }
    }
}

/// The three indices of a solver.
#[derive(Debug)]
pub struct Indices {
    /// The version of each commit that a tag gives one.
    pub tags: CommitIndex<SemVersion>,
    /// For each commit at which the branch left a source branch, the version
    /// that the source branch had there, without build counter; nothing
    /// where that version was not searched for.
    pub branch_roots: CommitIndex<Option<SemVersion>>,
    /// For each commit at which the branch last met a branch it follows,
    /// the base version of that branch.
    pub version_bases: CommitIndex<SemVersion>,
}

/// The mathematical value of [`Indices`].
pub struct IndicesView {
    pub tags: Map<Seq<char>, SemVersionView>,
    pub branch_roots: Map<Seq<char>, Option<SemVersionView>>,
    pub version_bases: Map<Seq<char>, SemVersionView>,
}

impl DeepView for Indices {
    type V = IndicesView;

    open spec fn deep_view(&self) -> IndicesView {
        IndicesView {
            tags: self.tags.deep_view(),
            branch_roots: self.branch_roots.deep_view(),
            version_bases: self.version_bases.deep_view(),
        }
    }
}

/// The indices that hold nothing.
pub open spec fn no_indices() -> IndicesView {
    IndicesView { tags: Map::empty(), branch_roots: Map::empty(), version_bases: Map::empty() }
}

/// What a solver is made for: the branch, the rules, what is known of the
/// repository, and how deep the search is and may go.
pub struct Task {
    pub cfg: ConfigView,
    pub repo: RepoView,
    pub branch: BranchMatchView,
    pub depth: nat,
    pub max_depth: nat,
}

/// The task of the solver for `branch` in the context `ctx`.
pub open spec fn task_of(ctx: BranchSolveContext, cfg: &Config, repo: &Repo, branch: BranchMatchView)
    -> Task {
    Task {
        cfg: cfg.deep_view(),
        repo: repo.deep_view(),
        branch,
        depth: ctx.depth as nat,
        max_depth: ctx.max_depth as nat,
    }
}

/// What trying the tag `name` on commit `id` against the tag types `tags`,
/// first to last, gives: the first match, or the first error where one
/// comes before any match.
pub open spec fn first_tag_match(tags: Seq<TagConfigView>, name: Seq<char>, id: Seq<char>) -> Result<
    Option<TagMatchView>,
    VernerErrorView,
>
    decreases tags.len(),
{
    if tags.len() == 0 {
        Ok(None)
    } else {
        match tag_match(tags[0], name, id) {
            Ok(None) => first_tag_match(tags.drop_first(), name, id),
            found_or_failed => found_or_failed,
        }
    }
}

/// The indices after the tag `reference` was read: where the tag has a
/// short name and a target and is of a tag type, its target stands in the
/// tag index with the version that the first matching type gives.
pub open spec fn index_tag(cfg: ConfigView, indices: IndicesView, reference: RefRecordView)
    -> ProgressView<IndicesView> {
    match (reference.shorthand, reference.target) {
        (Some(name), Some(id)) => match first_tag_match(cfg.tags, name, id) {
            Ok(Some(found)) => ProgressView::Done(
                IndicesView { tags: indices.tags.insert(id, found.version), ..indices },
            ),
            Ok(None) => ProgressView::Done(indices),
            Err(error) => ProgressView::Failed(error),
        },
        _ => ProgressView::Done(indices),
    }
}

/// The indices after the branch `reference` was held against the followed
/// type `kind`: where the branch is of that type and has a base version,
/// that version stands in the index of bases under the merge base of the
/// tip and the branch.
pub open spec fn index_track(
    task: Task,
    indices: IndicesView,
    reference: RefRecordView,
    kind: Seq<char>,
) -> ProgressView<IndicesView> {
    match first_of_kind(task.cfg.branches, kind) {
        None => ProgressView::Failed(VernerErrorView::UnknownBranchType(kind)),
        Some(followed) => match (reference.name, reference.target) {
            (Some(name), Some(target)) => match branch_match(
                followed,
                short_name(name, task.cfg.tracked_remotes),
                target,
            ) {
                Err(error) => ProgressView::Failed(error),
                Ok(None) => ProgressView::Done(indices),
                Ok(Some(found)) => match known_merge_base(
                    task.repo.merge_bases,
                    task.branch.tip,
                    target,
                ) {
                    None => ProgressView::Needs(
                        RepoQueryView::MergeBase { one: task.branch.tip, two: target },
                    ),
                    Some(base) => match found.base_version {
                        Some(version) => ProgressView::Done(
                            IndicesView {
                                version_bases: indices.version_bases.insert(base, version),
                                ..indices
                            },
                        ),
                        None => ProgressView::Done(indices),
                    },
                },
            },
            _ => ProgressView::Done(indices),
        },
    }
}

/// The indices after the branch `reference` was held against the followed
/// types `kinds`, first to last.
pub open spec fn index_tracks(
    task: Task,
    indices: IndicesView,
    reference: RefRecordView,
    kinds: Seq<Seq<char>>,
) -> ProgressView<IndicesView>
    decreases kinds.len(),
{
    if kinds.len() == 0 {
        ProgressView::Done(indices)
    } else {
        match index_track(task, indices, reference, kinds[0]) {
            ProgressView::Done(next) => index_tracks(task, next, reference, kinds.drop_first()),
            stopped => stopped,
        }
    }
}

/// The task of the solver for the source branch `source`, one level below
/// `task`.
pub open spec fn task_below(task: Task, source: BranchMatchView) -> Task {
    Task { branch: source, depth: task.depth + 1, ..task }
}

/// The indices after the branch `reference` was held against the source
/// type `kind`.
///
/// Where the branch is of that type, looked at at the merge base of the tip
/// and the branch, that merge base stands in the source index: with the
/// version that the source branch has there, without its build counter,
/// where the branch of the task has no base version of its own and the
/// search may go deeper; with nothing in every other case.
pub open spec fn index_source(
    task: Task,
    indices: IndicesView,
    reference: RefRecordView,
    kind: Seq<char>,
) -> ProgressView<IndicesView>
    decreases task.max_depth - task.depth, 0nat, 0nat,
{
    match first_of_kind(task.cfg.branches, kind) {
        None => ProgressView::Failed(VernerErrorView::UnknownBranchType(kind)),
        Some(origin) => match (reference.name, reference.target) {
            (Some(name), Some(target)) => match known_merge_base(
                task.repo.merge_bases,
                task.branch.tip,
                target,
            ) {
                None => ProgressView::Needs(
                    RepoQueryView::MergeBase { one: task.branch.tip, two: target },
                ),
                Some(base) => match branch_match(
                    origin,
                    short_name(name, task.cfg.tracked_remotes),
                    base,
                ) {
                    Err(error) => ProgressView::Failed(error),
                    Ok(None) => ProgressView::Done(indices),
                    Ok(Some(source)) => if task.branch.base_version is None && task.depth
                        < task.max_depth {
                        match solve_spec(task_below(task, source)) {
                            ProgressView::Done(version) => ProgressView::Done(
                                IndicesView {
                                    branch_roots: indices.branch_roots.insert(
                                        base,
                                        Some(version.erase_build()),
                                    ),
                                    ..indices
                                },
                            ),
                            ProgressView::Needs(query) => ProgressView::Needs(query),
                            ProgressView::Failed(error) => ProgressView::Failed(error),
                        }
                    } else {
                        ProgressView::Done(
                            IndicesView {
                                branch_roots: indices.branch_roots.insert(base, None),
                                ..indices
                            },
                        )
                    },
                },
            },
            _ => ProgressView::Done(indices),
        },
    }
}

/// The indices after the branch `reference` was held against the source
/// types `kinds`, first to last.
pub open spec fn index_sources(
    task: Task,
    indices: IndicesView,
    reference: RefRecordView,
    kinds: Seq<Seq<char>>,
) -> ProgressView<IndicesView>
    decreases task.max_depth - task.depth, 1nat, kinds.len(),
{
    if kinds.len() == 0 {
        ProgressView::Done(indices)
    } else {
        match index_source(task, indices, reference, kinds[0]) {
            ProgressView::Done(next) => index_sources(task, next, reference, kinds.drop_first()),
            stopped => stopped,
        }
    }
}

/// The indices after `reference` was read: a tag goes to the tag index; a
/// branch is held against the source types of the branch of the task, and
/// then against the types that it follows.
pub open spec fn index_reference(task: Task, indices: IndicesView, reference: RefRecordView)
    -> ProgressView<IndicesView>
    decreases task.max_depth - task.depth, 2nat, 0nat,
{
    if reference.is_tag {
        index_tag(task.cfg, indices, reference)
    } else {
        match index_sources(task, indices, reference, task.branch.config.raw.sources) {
            ProgressView::Done(next) => index_tracks(
                task,
                next,
                reference,
                task.branch.config.raw.tracks,
            ),
            stopped => stopped,
        }
    }
}

/// The indices after the references `references` were read, first to last.
pub open spec fn index_references(task: Task, indices: IndicesView, references: Seq<RefRecordView>)
    -> ProgressView<IndicesView>
    decreases task.max_depth - task.depth, 3nat, references.len(),
{
    if references.len() == 0 {
        ProgressView::Done(indices)
    } else {
        match index_reference(task, indices, references[0]) {
            ProgressView::Done(next) => index_references(task, next, references.drop_first()),
            stopped => stopped,
        }
    }
}

/// The first type name that the type of `branch` refers to and `cfg` does
/// not have: the first such among its source types, or else among the types
/// that it follows.
pub open spec fn unknown_kind(cfg: ConfigView, branch: BranchMatchView) -> Option<Seq<char>> {
    unknown_name(cfg.branches, branch.config.raw)
}

/// The indices of the solver of `task`.
///
/// Where the type of the branch refers to a type that the rules do not
/// have, that is an error, whatever the repository holds: no reference is
/// read. Else the indices are what reading the references of the
/// repository, first to last, leaves in them.
pub open spec fn indexed(task: Task) -> ProgressView<IndicesView>
    decreases task.max_depth - task.depth, 4nat, 0nat,
{
    match unknown_kind(task.cfg, task.branch) {
        Some(kind) => ProgressView::Failed(VernerErrorView::UnknownBranchType(kind)),
        None => index_references(task, no_indices(), task.repo.references),
    }
}

/// The version that the branch starts from where no commit says otherwise:
/// its base version, or `0.0.0`.
pub open spec fn basis_of(branch: BranchMatchView) -> SemVersionView {
    match branch.base_version {
        Some(version) => version,
        None => SemVersionView::zero(),
    }
}

/// What the commit `id` says about the version of `branch`.
///
/// A commit in the tag index has the version of its tag. Else a commit in
/// the source index is a basis: a soft one with the version found for the
/// source branch, a hard one with the base of `branch` where none was
/// searched for. Else a commit in the index of bases is a soft basis. Any
/// other commit counts one build.
pub open spec fn classify(indices: IndicesView, branch: BranchMatchView, id: Seq<char>) -> VersionInc<
    SemVersionView,
    SemVersionInc,
> {
    if indices.tags.dom().contains(id) {
        VersionInc::Fixed(indices.tags[id])
    } else if indices.branch_roots.dom().contains(id) {
        match indices.branch_roots[id] {
            Some(version) => VersionInc::SoftBasis(version),
            None => VersionInc::HardBasis(basis_of(branch)),
        }
    } else if indices.version_bases.dom().contains(id) {
        VersionInc::SoftBasis(indices.version_bases[id])
    } else {
        VersionInc::Inc(SemVersionInc::Build(1))
    }
}

/// What the commits `commits` say about the version of `branch`, one for
/// one.
pub open spec fn instructions(indices: IndicesView, branch: BranchMatchView, commits: Seq<Seq<char>>)
    -> Seq<VersionInc<SemVersionView, SemVersionInc>> {
    Seq::new(commits.len(), |i: int| classify(indices, branch, commits[i]))
}

/// The version of `branch` that the instructions `history` resolve to: the
/// reducer's result from the basis of the branch with the step of its type,
/// under the label of the branch unless it is the fixed version of the tip.
pub open spec fn resolved(
    branch: BranchMatchView,
    history: Seq<VersionInc<SemVersionView, SemVersionInc>>,
) -> ProgressView<SemVersionView> {
    match resolve_spec::<SemVersion, SemVersionInc>(
        history,
        basis_of(branch),
        branch.config.raw.v_next,
    ) {
        Some((version, hint)) => ProgressView::Done(
            if hint == VersionHint::Fixed {
                version
            } else {
                version.with_label(branch.tag)
            },
        ),
        None => ProgressView::Failed(VernerErrorView::VersionOverflow),
    }
}

/// The version that a solver with the indices `indices` finds for `branch`.
pub open spec fn walk_and_resolve(repo: RepoView, branch: BranchMatchView, indices: IndicesView)
    -> ProgressView<SemVersionView> {
    match known_walk(repo.walks, branch.tip) {
        Some(commits) => resolved(branch, instructions(indices, branch, commits)),
        None => ProgressView::Needs(RepoQueryView::Walk { tip: branch.tip }),
    }
}

/// The version of the branch of `task`.
pub open spec fn solve_spec(task: Task) -> ProgressView<SemVersionView>
    decreases task.max_depth - task.depth, 5nat, 0nat,
{
    match indexed(task) {
        ProgressView::Done(indices) => walk_and_resolve(task.repo, task.branch, indices),
        ProgressView::Needs(query) => ProgressView::Needs(query),
        ProgressView::Failed(error) => ProgressView::Failed(error),
    }
}

/// A name that the rules do not have is an error of the rules. Where the
/// type of a branch names a source type or a followed type that the rules do
/// not have, no version is found for the branch, and the error names that
/// type, whatever references, merge bases and walks the repository holds.
pub proof fn lemma_unknown_kind_fails(task: Task, repo: RepoView)
    requires
        unknown_kind(task.cfg, task.branch) is Some,
    ensures
        solve_spec(with_repo(task, repo)) == ProgressView::<SemVersionView>::Failed(
            VernerErrorView::UnknownBranchType(unknown_kind(task.cfg, task.branch)->Some_0),
        ),
{
}

/// Whether the source index `indices` holds no version: for every commit in
/// it, no version of a source branch was searched for.
pub open spec fn searched_nowhere(indices: IndicesView) -> bool {
    forall|id: Seq<char>| #[trigger]
        indices.branch_roots.dom().contains(id) ==> indices.branch_roots[id] is None
}

/// Whether the solver of `task` makes no solver below it: the search has
/// reached its greatest depth, or the branch has a base version of its own.
pub open spec fn stays_at_level(task: Task) -> bool {
    task.depth >= task.max_depth || task.branch.base_version is Some
}

/// A solver that makes no solver below it puts no version into its source
/// index when it holds a branch against a source type.
pub proof fn lemma_source_stays(
    task: Task,
    indices: IndicesView,
    reference: RefRecordView,
    kind: Seq<char>,
)
    requires
        stays_at_level(task),
        searched_nowhere(indices),
    ensures
        index_source(task, indices, reference, kind) matches ProgressView::Done(next)
            ==> searched_nowhere(next) && next.tags == indices.tags,
{
}

/// The same, for the source types `kinds`, first to last.
pub proof fn lemma_sources_stay(
    task: Task,
    indices: IndicesView,
    reference: RefRecordView,
    kinds: Seq<Seq<char>>,
)
    requires
        stays_at_level(task),
        searched_nowhere(indices),
    ensures
        index_sources(task, indices, reference, kinds) matches ProgressView::Done(next)
            ==> searched_nowhere(next),
    decreases kinds.len(),
{
    if kinds.len() > 0 {
        lemma_source_stays(task, indices, reference, kinds[0]);
        match index_source(task, indices, reference, kinds[0]) {
            ProgressView::Done(next) => {
                lemma_sources_stay(task, next, reference, kinds.drop_first());
            },
            _ => {},
        }
    }
}

/// Holding a branch against the followed types leaves the source index as
/// it is.
pub proof fn lemma_tracks_keep_roots(
    task: Task,
    indices: IndicesView,
    reference: RefRecordView,
    kinds: Seq<Seq<char>>,
)
    ensures
        index_tracks(task, indices, reference, kinds) matches ProgressView::Done(next)
            ==> next.branch_roots == indices.branch_roots,
    decreases kinds.len(),
{
    if kinds.len() > 0 {
        match index_track(task, indices, reference, kinds[0]) {
            ProgressView::Done(next) => {
                lemma_tracks_keep_roots(task, next, reference, kinds.drop_first());
            },
            _ => {},
        }
    }
}

/// A solver that makes no solver below it puts no version into its source
/// index, whatever references it reads.
pub proof fn lemma_references_stay(task: Task, indices: IndicesView, references: Seq<RefRecordView>)
    requires
        stays_at_level(task),
        searched_nowhere(indices),
    ensures
        index_references(task, indices, references) matches ProgressView::Done(next)
            ==> searched_nowhere(next),
    decreases references.len(),
{
    if references.len() > 0 {
        let reference = references[0];
        if !reference.is_tag {
            let sources = task.branch.config.raw.sources;
            lemma_sources_stay(task, indices, reference, sources);
            match index_sources(task, indices, reference, sources) {
                ProgressView::Done(between) => {
                    lemma_tracks_keep_roots(
                        task,
                        between,
                        reference,
                        task.branch.config.raw.tracks,
                    );
                },
                _ => {},
            }
        }
        match index_reference(task, indices, reference) {
            ProgressView::Done(next) => {
                lemma_references_stay(task, next, references.drop_first());
            },
            _ => {},
        }
    }
}

/// The depth limit: a solver at the greatest depth searches no source
/// branch. Every commit at which its branch left a source branch, unless a
/// tag gives that commit a version, is a hard basis with the base version
/// of the branch, which is `0.0.0` where the branch has none of its own.
pub proof fn lemma_depth_limit(task: Task, indices: IndicesView, id: Seq<char>)
    requires
        task.depth >= task.max_depth,
        indexed(task) == ProgressView::Done(indices),
        indices.branch_roots.dom().contains(id),
        !indices.tags.dom().contains(id),
    ensures
        classify(indices, task.branch, id) == VersionInc::<
            SemVersionView,
            SemVersionInc,
        >::HardBasis(basis_of(task.branch)),
        task.branch.base_version is None ==> basis_of(task.branch) == SemVersionView::zero(),
{
    lemma_references_stay(task, no_indices(), task.repo.references);
}

/// Whether `later` knows all that `earlier` knows of one repository, and
/// maybe more: the references are the same, and the facts of `earlier`
/// stand first among the facts of `later`.
pub open spec fn knows_more(later: RepoView, earlier: RepoView) -> bool {
    &&& later.references == earlier.references
    &&& earlier.merge_bases.is_prefix_of(later.merge_bases)
    &&& earlier.walks.is_prefix_of(later.walks)
}

/// The task `task` with `repo` in place of what it knows of the repository.
pub open spec fn with_repo(task: Task, repo: RepoView) -> Task {
    Task { repo, ..task }
}

/// Whether a step that gave `before` gives the same with more knowledge, as
/// `after` tells: a step that was done or had failed stays as it was; a step
/// that had a question may get further.
pub open spec fn kept<T>(before: ProgressView<T>, after: ProgressView<T>) -> bool {
    before is Needs || after == before
}

/// Whether `query` asks what `repo` does not know.
pub open spec fn is_unknown(repo: RepoView, query: RepoQueryView) -> bool {
    match query {
        RepoQueryView::MergeBase { one, two } => known_merge_base(repo.merge_bases, one, two)
            is None,
        RepoQueryView::Walk { tip } => known_walk(repo.walks, tip) is None,
    }
}

/// Whether a step asked only what `repo` does not know.
pub open spec fn asks_the_unknown<T>(repo: RepoView, outcome: ProgressView<T>) -> bool {
    outcome matches ProgressView::Needs(query) ==> is_unknown(repo, query)
}

/// A merge base that is known stays the same when facts are added.
pub proof fn lemma_merge_base_kept(
    earlier: Seq<MergeBaseFactView>,
    later: Seq<MergeBaseFactView>,
    one: Seq<char>,
    two: Seq<char>,
)
    requires
        earlier.is_prefix_of(later),
        known_merge_base(earlier, one, two) is Some,
    ensures
        known_merge_base(later, one, two) == known_merge_base(earlier, one, two),
    decreases earlier.len(),
{
    if earlier.len() > 0 {
        assert(later[0] == earlier[0]);
        if !(earlier[0].one == one && earlier[0].two == two) {
            assert(earlier.drop_first().is_prefix_of(later.drop_first()));
            lemma_merge_base_kept(earlier.drop_first(), later.drop_first(), one, two);
        }
    }
}

/// A walk that is known stays the same when facts are added.
pub proof fn lemma_walk_kept(
    earlier: Seq<WalkFactView>,
    later: Seq<WalkFactView>,
    tip: Seq<char>,
)
    requires
        earlier.is_prefix_of(later),
        known_walk(earlier, tip) is Some,
    ensures
        known_walk(later, tip) == known_walk(earlier, tip),
    decreases earlier.len(),
{
    if earlier.len() > 0 {
        assert(later[0] == earlier[0]);
        if earlier[0].tip != tip {
            assert(earlier.drop_first().is_prefix_of(later.drop_first()));
            lemma_walk_kept(earlier.drop_first(), later.drop_first(), tip);
        }
    }
}

/// Holding a branch against a followed type gives the same with more
/// knowledge, and asks only what is not known.
pub proof fn lemma_track_kept(
    task: Task,
    later: RepoView,
    indices: IndicesView,
    reference: RefRecordView,
    kind: Seq<char>,
)
    requires
        knows_more(later, task.repo),
    ensures
        kept(
            index_track(task, indices, reference, kind),
            index_track(with_repo(task, later), indices, reference, kind),
        ),
        asks_the_unknown(task.repo, index_track(task, indices, reference, kind)),
{
    match reference.target {
        Some(target) => {
            if known_merge_base(task.repo.merge_bases, task.branch.tip, target) is Some {
                lemma_merge_base_kept(
                    task.repo.merge_bases,
                    later.merge_bases,
                    task.branch.tip,
                    target,
                );
            }
        },
        None => {},
    }
}

/// The same, for the followed types `kinds`, first to last.
pub proof fn lemma_tracks_kept(
    task: Task,
    later: RepoView,
    indices: IndicesView,
    reference: RefRecordView,
    kinds: Seq<Seq<char>>,
)
    requires
        knows_more(later, task.repo),
    ensures
        kept(
            index_tracks(task, indices, reference, kinds),
            index_tracks(with_repo(task, later), indices, reference, kinds),
        ),
        asks_the_unknown(task.repo, index_tracks(task, indices, reference, kinds)),
    decreases kinds.len(),
{
    if kinds.len() > 0 {
        lemma_track_kept(task, later, indices, reference, kinds[0]);
        match index_track(task, indices, reference, kinds[0]) {
            ProgressView::Done(next) => {
                lemma_tracks_kept(task, later, next, reference, kinds.drop_first());
            },
            _ => {},
        }
    }
}

/// Holding a branch against a source type gives the same with more
/// knowledge, and asks only what is not known.
pub proof fn lemma_source_kept(
    task: Task,
    later: RepoView,
    indices: IndicesView,
    reference: RefRecordView,
    kind: Seq<char>,
)
    requires
        knows_more(later, task.repo),
    ensures
        kept(
            index_source(task, indices, reference, kind),
            index_source(with_repo(task, later), indices, reference, kind),
        ),
        asks_the_unknown(task.repo, index_source(task, indices, reference, kind)),
    decreases task.max_depth - task.depth, 0nat, 0nat,
{
    match (first_of_kind(task.cfg.branches, kind), reference.name, reference.target) {
        (Some(origin), Some(name), Some(target)) => {
            match known_merge_base(task.repo.merge_bases, task.branch.tip, target) {
                Some(base) => {
                    lemma_merge_base_kept(
                        task.repo.merge_bases,
                        later.merge_bases,
                        task.branch.tip,
                        target,
                    );
                    match branch_match(origin, short_name(name, task.cfg.tracked_remotes), base) {
                        Ok(Some(source)) => {
                            if task.branch.base_version is None && task.depth < task.max_depth {
                                lemma_solve_kept(task_below(task, source), later);
                                assert(with_repo(task_below(task, source), later) == task_below(
                                    with_repo(task, later),
                                    source,
                                ));
                            }
                        },
                        _ => {},
                    }
                },
                None => {},
            }
        },
        _ => {},
    }
}

/// The same, for the source types `kinds`, first to last.
pub proof fn lemma_sources_kept(
    task: Task,
    later: RepoView,
    indices: IndicesView,
    reference: RefRecordView,
    kinds: Seq<Seq<char>>,
)
    requires
        knows_more(later, task.repo),
    ensures
        kept(
            index_sources(task, indices, reference, kinds),
            index_sources(with_repo(task, later), indices, reference, kinds),
        ),
        asks_the_unknown(task.repo, index_sources(task, indices, reference, kinds)),
    decreases task.max_depth - task.depth, 1nat, kinds.len(),
{
    if kinds.len() > 0 {
        lemma_source_kept(task, later, indices, reference, kinds[0]);
        match index_source(task, indices, reference, kinds[0]) {
            ProgressView::Done(next) => {
                lemma_sources_kept(task, later, next, reference, kinds.drop_first());
            },
            _ => {},
        }
    }
}

/// Reading a reference gives the same with more knowledge, and asks only
/// what is not known.
pub proof fn lemma_reference_kept(
    task: Task,
    later: RepoView,
    indices: IndicesView,
    reference: RefRecordView,
)
    requires
        knows_more(later, task.repo),
    ensures
        kept(
            index_reference(task, indices, reference),
            index_reference(with_repo(task, later), indices, reference),
        ),
        asks_the_unknown(task.repo, index_reference(task, indices, reference)),
    decreases task.max_depth - task.depth, 2nat, 0nat,
{
    if !reference.is_tag {
        let sources = task.branch.config.raw.sources;
        lemma_sources_kept(task, later, indices, reference, sources);
        match index_sources(task, indices, reference, sources) {
            ProgressView::Done(next) => {
                lemma_tracks_kept(task, later, next, reference, task.branch.config.raw.tracks);
            },
            _ => {},
        }
    }
}

/// Reading references gives the same with more knowledge, and asks only
/// what is not known.
pub proof fn lemma_references_kept(
    task: Task,
    later: RepoView,
    indices: IndicesView,
    references: Seq<RefRecordView>,
)
    requires
        knows_more(later, task.repo),
    ensures
        kept(
            index_references(task, indices, references),
            index_references(with_repo(task, later), indices, references),
        ),
        asks_the_unknown(task.repo, index_references(task, indices, references)),
    decreases task.max_depth - task.depth, 3nat, references.len(),
{
    if references.len() > 0 {
        lemma_reference_kept(task, later, indices, references[0]);
        match index_reference(task, indices, references[0]) {
            ProgressView::Done(next) => {
                lemma_references_kept(task, later, next, references.drop_first());
            },
            _ => {},
        }
    }
}

/// More knowledge changes no result. A version that was found, and an error
/// that was met, are found and met again whatever facts are added to what
/// is known of the repository; only a question may give way to something
/// else. And a question is never asked for nothing: what the solver asks,
/// the facts it was given do not answer.
pub proof fn lemma_solve_kept(task: Task, later: RepoView)
    requires
        knows_more(later, task.repo),
    ensures
        kept(solve_spec(task), solve_spec(with_repo(task, later))),
        asks_the_unknown(task.repo, solve_spec(task)),
    decreases task.max_depth - task.depth, 4nat, 0nat,
{
    lemma_references_kept(task, later, no_indices(), task.repo.references);
    match indexed(task) {
        ProgressView::Done(indices) => {
            if known_walk(task.repo.walks, task.branch.tip) is Some {
                lemma_walk_kept(task.repo.walks, later.walks, task.branch.tip);
            }
        },
        _ => {},
    }
}

/// Tries the tag `name` on commit `id` against the tag types of `cfg`, in
/// their order, and gives the first match.
pub fn match_tag<'a>(cfg: &'a Config, name: &str, id: &CommitId) -> (r: Result<
    Option<TagMatch<'a>>,
    VernerError,
>)
    ensures
        outcome_view(r) == first_tag_match(cfg.deep_view().tags, name@, id@),
{
    let ghost all = cfg.deep_view().tags;
    let mut i: usize = 0;
    assert(all.skip(0) =~= all);
    while i < cfg.tags.len()
        invariant
            i <= cfg.tags.len(),
            all == cfg.deep_view().tags,
            first_tag_match(all, name@, id@) == first_tag_match(all.skip(i as int), name@, id@),
        decreases cfg.tags.len() - i,
    {
        proof {
            assert(all.skip(i as int).drop_first() =~= all.skip(i + 1));
            assert(all.skip(i as int)[0] == cfg.tags@[i as int].deep_view());
        }
        match cfg.tags[i].try_match(name, id) {
            Ok(None) => {},
            Ok(Some(found)) => {
                return Ok(Some(found));
            },
            Err(error) => {
                return Err(error);
            },
        }
        i = i + 1;
    }
    Ok(None)
}

/// Reads the tag `reference` into the tag index.
fn read_tag(cfg: &Config, indices: Indices, reference: &RefRecord) -> (r: Result<
    Progress<Indices>,
    VernerError,
>)
    ensures
        progress_view(r) == index_tag(cfg.deep_view(), indices.deep_view(), reference.deep_view()),
{
    let name = match &reference.shorthand {
        Some(name) => name,
        None => {
            return Ok(Progress::Done(indices));
        },
    };
    let id = match &reference.target {
        Some(id) => id,
        None => {
            return Ok(Progress::Done(indices));
        },
    };
    match match_tag(cfg, name.as_str(), id) {
        Ok(Some(found)) => {
            let mut indices = indices;
            indices.tags.insert(id.clone(), found.version().clone());
            Ok(Progress::Done(indices))
        },
        Ok(None) => Ok(Progress::Done(indices)),
        Err(error) => Err(error),
    }
}

/// Holds the branch `reference` against the followed type `kind`.
fn read_track(
    ctx: BranchSolveContext,
    cfg: &Config,
    repo: &Repo,
    branch: &BranchMatch,
    indices: Indices,
    reference: &RefRecord,
    kind: &str,
) -> (r: Result<Progress<Indices>, VernerError>)
    ensures
        progress_view(r) == index_track(
            task_of(ctx, cfg, repo, branch.deep_view()),
            indices.deep_view(),
            reference.deep_view(),
            kind@,
        ),
{
    let followed = match cfg.by_type(kind) {
        Some(followed) => followed,
        None => {
            return Err(VernerError::UnknownBranchType(kind.to_owned()));
        },
    };
    let name = match &reference.name {
        Some(name) => name,
        None => {
            return Ok(Progress::Done(indices));
        },
    };
    let target = match &reference.target {
        Some(target) => target,
        None => {
            return Ok(Progress::Done(indices));
        },
    };
    let short = cfg.reference_name_to_branch_name(name.as_str());
    let found = match followed.try_match(short, target) {
        Ok(Some(found)) => found,
        Ok(None) => {
            return Ok(Progress::Done(indices));
        },
        Err(error) => {
            return Err(error);
        },
    };
    let base = match repo.merge_base(branch.tip(), target) {
        Some(base) => base,
        None => {
            return Ok(
                Progress::Needs(
                    RepoQuery::MergeBase { one: branch.tip().clone(), two: target.clone() },
                ),
            );
        },
    };
    match found.base_version() {
        Some(version) => {
            let mut indices = indices;
            indices.version_bases.insert(base.clone(), version.clone());
            Ok(Progress::Done(indices))
        },
        None => Ok(Progress::Done(indices)),
    }
}

/// Holds the branch `reference` against the types that the branch follows.
fn read_tracks(
    ctx: BranchSolveContext,
    cfg: &Config,
    repo: &Repo,
    branch: &BranchMatch,
    indices: Indices,
    reference: &RefRecord,
) -> (r: Result<Progress<Indices>, VernerError>)
    ensures
        progress_view(r) == index_tracks(
            task_of(ctx, cfg, repo, branch.deep_view()),
            indices.deep_view(),
            reference.deep_view(),
            branch.deep_view().config.raw.tracks,
        ),
{
    let ghost task = task_of(ctx, cfg, repo, branch.deep_view());
    let ghost start = indices.deep_view();
    let kinds = &branch.config().raw().tracks;
    let ghost all = kinds.deep_view();
    let mut current = indices;
    let mut i: usize = 0;
    assert(all.skip(0) =~= all);
    while i < kinds.len()
        invariant
            i <= kinds.len(),
            all == kinds.deep_view(),
            all == branch.deep_view().config.raw.tracks,
            start == indices.deep_view(),
            task == task_of(ctx, cfg, repo, branch.deep_view()),
            index_tracks(task, start, reference.deep_view(), all) == index_tracks(
                task,
                current.deep_view(),
                reference.deep_view(),
                all.skip(i as int),
            ),
        decreases kinds.len() - i,
    {
        proof {
            assert(all.skip(i as int).drop_first() =~= all.skip(i + 1));
            assert(all.skip(i as int)[0] == kinds@[i as int]@);
        }
        match read_track(ctx, cfg, repo, branch, current, reference, kinds[i].as_str()) {
            Ok(Progress::Done(next)) => {
                current = next;
            },
            Ok(Progress::Needs(query)) => {
                return Ok(Progress::Needs(query));
            },
            Err(error) => {
                return Err(error);
            },
        }
        i = i + 1;
    }
    Ok(Progress::Done(current))
}

/// Holds the branch `reference` against the source type `kind`.
fn read_source(
    ctx: BranchSolveContext,
    cfg: &Config,
    repo: &Repo,
    branch: &BranchMatch,
    indices: Indices,
    reference: &RefRecord,
    kind: &str,
) -> (r: Result<Progress<Indices>, VernerError>)
    ensures
        progress_view(r) == index_source(
            task_of(ctx, cfg, repo, branch.deep_view()),
            indices.deep_view(),
            reference.deep_view(),
            kind@,
        ),
    decreases ctx.max_depth - ctx.depth, 0nat, 0nat,
{
    let origin = match cfg.by_type(kind) {
        Some(origin) => origin,
        None => {
            return Err(VernerError::UnknownBranchType(kind.to_owned()));
        },
    };
    let name = match &reference.name {
        Some(name) => name,
        None => {
            return Ok(Progress::Done(indices));
        },
    };
    let target = match &reference.target {
        Some(target) => target,
        None => {
            return Ok(Progress::Done(indices));
        },
    };
    let base = match repo.merge_base(branch.tip(), target) {
        Some(base) => base,
        None => {
            return Ok(
                Progress::Needs(
                    RepoQuery::MergeBase { one: branch.tip().clone(), two: target.clone() },
                ),
            );
        },
    };
    let short = cfg.reference_name_to_branch_name(name.as_str());
    let source = match origin.try_match(short, base) {
        Ok(Some(source)) => source,
        Ok(None) => {
            return Ok(Progress::Done(indices));
        },
        Err(error) => {
            return Err(error);
        },
    };
    let found = if branch.base_version().is_none() {
        match ctx.try_descend() {
            Some(deeper) => {
                let solver = match BranchSolver::new(deeper, cfg, repo, source) {
                    Ok(Progress::Done(solver)) => solver,
                    Ok(Progress::Needs(query)) => {
                        return Ok(Progress::Needs(query));
                    },
                    Err(error) => {
                        return Err(error);
                    },
                };
                match solver.solve(repo) {
                    Ok(Progress::Done(version)) => Some(version.erase_build()),
                    Ok(Progress::Needs(query)) => {
                        return Ok(Progress::Needs(query));
                    },
                    Err(error) => {
                        return Err(error);
                    },
                }
            },
            None => None,
        }
    } else {
        None
    };
    let mut indices = indices;
    indices.branch_roots.insert(base.clone(), found);
    Ok(Progress::Done(indices))
}

/// Reads `reference` into the indices of the solver for `branch`.
fn read_reference(
    ctx: BranchSolveContext,
    cfg: &Config,
    repo: &Repo,
    branch: &BranchMatch,
    indices: Indices,
    reference: &RefRecord,
) -> (r: Result<Progress<Indices>, VernerError>)
    ensures
        progress_view(r) == index_reference(
            task_of(ctx, cfg, repo, branch.deep_view()),
            indices.deep_view(),
            reference.deep_view(),
        ),
    decreases ctx.max_depth - ctx.depth, 1nat, 0nat,
{
    if reference.is_tag {
        return read_tag(cfg, indices, reference);
    }
    let ghost task = task_of(ctx, cfg, repo, branch.deep_view());
    let ghost start = indices.deep_view();
    let kinds = &branch.config().raw().sources;
    let ghost all = kinds.deep_view();
    let mut current = indices;
    let mut i: usize = 0;
    assert(all.skip(0) =~= all);
    while i < kinds.len()
        invariant
            i <= kinds.len(),
            all == kinds.deep_view(),
            all == branch.deep_view().config.raw.sources,
            start == indices.deep_view(),
            !reference.is_tag,
            task == task_of(ctx, cfg, repo, branch.deep_view()),
            index_sources(task, start, reference.deep_view(), all) == index_sources(
                task,
                current.deep_view(),
                reference.deep_view(),
                all.skip(i as int),
            ),
        decreases kinds.len() - i,
    {
        proof {
            assert(all.skip(i as int).drop_first() =~= all.skip(i + 1));
            assert(all.skip(i as int)[0] == kinds@[i as int]@);
        }
        match read_source(ctx, cfg, repo, branch, current, reference, kinds[i].as_str()) {
            Ok(Progress::Done(next)) => {
                current = next;
            },
            Ok(Progress::Needs(query)) => {
                return Ok(Progress::Needs(query));
            },
            Err(error) => {
                return Err(error);
            },
        }
        i = i + 1;
    }
    read_tracks(ctx, cfg, repo, branch, current, reference)
}

/// The solver of one branch: the branch and its three indices.
#[derive(Debug)]
pub struct BranchSolver<'a> {
    /// The branch whose version is searched for.
    pub current_branch: BranchMatch<'a>,
    /// The indices, filled from the references.
    pub indices: Indices,
}

impl<'a> BranchSolver<'a> {
    /// Makes the solver for `branch`.
    ///
    /// Fails, before any reference is read, where the type of the branch
    /// names a source type or a followed type that `cfg` does not have; the
    /// error names the first such type, the source types coming first. Else
    /// reads the references of `repo`, first to last, into the three
    /// indices; stops at the first merge base that is not known, and fails
    /// where a template gives no version.
    pub fn new(ctx: BranchSolveContext, cfg: &'a Config, repo: &Repo, branch: BranchMatch<'a>) -> (r:
        Result<Progress<BranchSolver<'a>>, VernerError>)
        ensures
            match r {
                Ok(Progress::Done(solver)) => {
                    &&& solver.current_branch.deep_view() == branch.deep_view()
                    &&& indexed(task_of(ctx, cfg, repo, branch.deep_view())) == ProgressView::Done(
                        solver.indices.deep_view(),
                    )
                },
                Ok(Progress::Needs(query)) => indexed(task_of(ctx, cfg, repo, branch.deep_view()))
                    == ProgressView::<IndicesView>::Needs(query.deep_view()),
                Err(error) => indexed(task_of(ctx, cfg, repo, branch.deep_view()))
                    == ProgressView::<IndicesView>::Failed(error.deep_view()),
            },
        decreases ctx.max_depth - ctx.depth, 2nat, 0nat,
    {
        let ghost task = task_of(ctx, cfg, repo, branch.deep_view());
        let ghost all = repo.deep_view().references;
        match cfg.unknown_name(branch.config()) {
            Some(kind) => {
                return Err(VernerError::UnknownBranchType(kind));
            },
            None => {},
        }
        let mut current = Indices {
            tags: CommitIndex::new(),
            branch_roots: CommitIndex::new(),
            version_bases: CommitIndex::new(),
        };
        assert(current.deep_view() == no_indices());
        let mut i: usize = 0;
        assert(all.skip(0) =~= all);
        while i < repo.references.len()
            invariant
                i <= repo.references.len(),
                all == repo.deep_view().references,
                task == task_of(ctx, cfg, repo, branch.deep_view()),
                unknown_kind(task.cfg, task.branch) is None,
                index_references(task, no_indices(), all) == index_references(
                    task,
                    current.deep_view(),
                    all.skip(i as int),
                ),
            decreases repo.references.len() - i,
        {
            proof {
                assert(all.skip(i as int).drop_first() =~= all.skip(i + 1));
                assert(all.skip(i as int)[0] == repo.references@[i as int].deep_view());
            }
            match read_reference(ctx, cfg, repo, &branch, current, &repo.references[i]) {
                Ok(Progress::Done(next)) => {
                    current = next;
                },
                Ok(Progress::Needs(query)) => {
                    return Ok(Progress::Needs(query));
                },
                Err(error) => {
                    return Err(error);
                },
            }
            i = i + 1;
        }
        Ok(Progress::Done(BranchSolver { current_branch: branch, indices: current }))
    }

    /// Names what the commit `id` says about the version of the branch.
    pub fn solve_inc_for_commit(&self, id: &CommitId) -> (r: VersionInc<SemVersion, SemVersionInc>)
        ensures
            instruction_view(r) == classify(
                self.indices.deep_view(),
                self.current_branch.deep_view(),
                id@,
            ),
    {
        match self.indices.tags.get(id) {
            Some(version) => {
                return VersionInc::Fixed(version.clone());
            },
            None => {},
        }
        match self.indices.branch_roots.get(id) {
            Some(root) => {
                return match root {
                    Some(version) => VersionInc::SoftBasis(version.clone()),
                    None => VersionInc::HardBasis(self.basis()),
                };
            },
            None => {},
        }
        match self.indices.version_bases.get(id) {
            Some(version) => {
                return VersionInc::SoftBasis(version.clone());
            },
            None => {},
        }
        VersionInc::Inc(SemVersionInc::Build(1))
    }

    /// The version that the branch starts from where no commit says
    /// otherwise.
    fn basis(&self) -> (r: SemVersion)
        ensures
            r@ == basis_of(self.current_branch.deep_view()),
    {
        match self.current_branch.base_version() {
            Some(version) => version.clone(),
            None => SemVersion::default(),
        }
    }

    /// Finds the version of the branch: walks the history from the tip as
    /// far as the first commit that names a version, names for each commit
    /// what it says, and has the reducer fold that into one version, which
    /// gets the label of the branch unless it is the fixed version of the
    /// tip itself. Stops where the walk from the tip is
    /// not known, and fails where an increment does not fit.
    pub fn solve(&self, repo: &Repo) -> (r: Result<Progress<SemVersion>, VernerError>)
        ensures
            progress_view(r) == walk_and_resolve(
                repo.deep_view(),
                self.current_branch.deep_view(),
                self.indices.deep_view(),
            ),
    {
        let commits = match repo.walk(self.current_branch.tip()) {
            Some(commits) => commits,
            None => {
                return Ok(Progress::Needs(RepoQuery::Walk { tip: self.current_branch.tip().clone() }));
            },
        };
        let ghost wanted = instructions(
            self.indices.deep_view(),
            self.current_branch.deep_view(),
            commits.deep_view(),
        );
        let ghost basis = basis_of(self.current_branch.deep_view());
        let v_next = self.current_branch.config().raw().v_next;
        let mut history: Vec<VersionInc<SemVersion, SemVersionInc>> = Vec::new();
        let mut i: usize = 0;
        let mut named = false;
        while i < commits.len() && !named
            invariant
                i <= commits.len(),
                history.len() == i,
                wanted == instructions(
                    self.indices.deep_view(),
                    self.current_branch.deep_view(),
                    commits.deep_view(),
                ),
                forall|j: int| 0 <= j < i ==> instruction_view(#[trigger] history@[j]) == wanted[j],
                forall|j: int| 0 <= j < i - 1 ==> !names_version(#[trigger] wanted[j]),
                named ==> i > 0 && names_version(wanted[i - 1]),
                !named && i > 0 ==> !names_version(wanted[i - 1]),
            decreases commits.len() - i,
        {
            let instruction = self.solve_inc_for_commit(&commits[i]);
            named = match &instruction {
                VersionInc::SoftBasis(_) => true,
                VersionInc::HardBasis(_) => true,
                VersionInc::Fixed(_) => true,
                _ => false,
            };
            history.push(instruction);
            i = i + 1;
        }
        proof {
            assert(history_view(history@) =~= wanted.take(i as int));
            if named {
                lemma_rest_is_not_read::<SemVersion, SemVersionInc>(wanted, basis, v_next, i - 1);
            } else {
                assert(wanted.take(i as int) =~= wanted);
            }
        }
        match resolve_version(history, self.basis(), v_next) {
            Ok((version, hint)) => {
                if hint == VersionHint::Fixed {
                    Ok(Progress::Done(version))
                } else {
                    let label = match self.current_branch.tag() {
                        Some(label) => Some(label.to_owned()),
                        None => None,
                    };
                    Ok(Progress::Done(version.with_label(label)))
                }
            },
            Err(_) => Err(VernerError::VersionOverflow),
        }
    }
}

/// The task of finding the version of `branch` as the branch that was asked
/// for: at depth zero, with the greatest depth that its type allows, or
/// with none where the type sets none.
pub open spec fn top_task(cfg: ConfigView, repo: RepoView, branch: BranchMatchView) -> Task {
    Task {
        cfg,
        repo,
        branch,
        depth: 0,
        max_depth: match branch.config.raw.max_depth {
            Some(limit) => limit as nat,
            None => u32::MAX as nat,
        },
    }
}

/// Finds the version of `branch` from what `repo` knows of the repository.
///
/// Gives the version, or the first question on the way to it that `repo`
/// does not answer. The caller adds the answer and calls again. Facts that
/// are added change no version that was found and no error that was met.
pub fn solve(cfg: &Config, repo: &Repo, branch: BranchMatch) -> (r: Result<
    Progress<SemVersion>,
    VernerError,
>)
    ensures
        progress_view(r) == solve_spec(top_task(cfg.deep_view(), repo.deep_view(), branch.deep_view())),
{
    let max_depth = match branch.config().raw().max_depth {
        Some(limit) => limit,
        None => u32::MAX,
    };
    let ctx = BranchSolveContext { depth: 0, max_depth };
    let solver = match BranchSolver::new(ctx, cfg, repo, branch) {
        Ok(Progress::Done(solver)) => solver,
        Ok(Progress::Needs(query)) => {
            return Ok(Progress::Needs(query));
        },
        Err(error) => {
            return Err(error);
        },
    };
    solver.solve(repo)
}

} // verus!
