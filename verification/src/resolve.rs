//! The reducer: it folds the instructions that a walk through history gives,
//! newest first, into one version.
//!
//! Increments are collected until the first instruction that names a version
//! (a basis or a fixed version). That version, moved forward by the branch's
//! own step where commits lie above it, is the ground on which the collected
//! increments are then applied, oldest instruction last.

use vstd::prelude::*;

verus! {

/// What one node of the history says about the version.
#[derive(Debug)]
pub enum VersionInc<Ver, Inc> {
    /// Increment the version.
    Inc(Inc),
    /// Jump to this version; nodes above it continue from the next version.
    SoftBasis(Ver),
    /// Jump to this version, which already looks forward.
    HardBasis(Ver),
    /// This node has exactly this version; nodes above it continue from the
    /// next version.
    Fixed(Ver),
    /// Nothing.
    Skip,
}

/// How a resolved version came about.
#[derive(Debug, Clone, Copy, PartialEq, Eq, Structural)]
pub enum VersionHint {
    /// The version is a basis, with nothing added.
    Basis,
    /// The version is the fixed version of the node itself.
    Fixed,
    /// Increments were applied.
    Derived,
}

/// A version that increments of type `Inc` can be applied to.
pub trait VersionOp<Inc>: View + Sized {
    /// Whether `i` can be applied to a version of view `v` without leaving
    /// the range of its fields.
    spec fn inc_fits(v: Self::V, i: Inc) -> bool;

    /// The view of a version of view `v` after `i` was applied.
    spec fn inc_view(v: Self::V, i: Inc) -> Self::V;

    /// Tells whether `i` can be applied.
    fn can_inc(&self, i: &Inc) -> (fits: bool)
        ensures
            fits == Self::inc_fits(self@, *i),
    ;

    /// Applies `i`.
    fn inc(&mut self, i: &Inc)
        requires
            Self::inc_fits(old(self)@, *i),
        ensures
            final(self)@ == Self::inc_view(old(self)@, *i),
    ;
}

/// A node of the history that knows its own effect on the version.
pub trait NodeVersionInfo<Inc> {
    /// The increment that this node contributes.
    fn version_effect(&self) -> Inc;
}

/// Why a version could not be resolved.
#[derive(Debug, Clone, Copy, PartialEq, Eq, Structural)]
pub enum ResolveError {
    /// An increment would carry a field of the version past its range.
    Overflow,
}

/// The instruction `instruction` with the view of its version in place of
/// the version.
pub open spec fn instruction_view<Ver: View, Inc>(instruction: VersionInc<Ver, Inc>) -> VersionInc<
    Ver::V,
    Inc,
> {
    match instruction {
        VersionInc::Inc(i) => VersionInc::Inc(i),
        VersionInc::SoftBasis(v) => VersionInc::SoftBasis(v@),
        VersionInc::HardBasis(v) => VersionInc::HardBasis(v@),
        VersionInc::Fixed(v) => VersionInc::Fixed(v@),
        VersionInc::Skip => VersionInc::Skip,
    }
}

/// The instructions `history`, each with the view of its version in place
/// of the version.
pub open spec fn history_view<Ver: View, Inc>(history: Seq<VersionInc<Ver, Inc>>) -> Seq<
    VersionInc<Ver::V, Inc>,
> {
    Seq::new(history.len(), |i: int| instruction_view(history[i]))
}

/// Whether `instruction` names a version: a basis or a fixed version.
pub open spec fn names_version<Ver, Inc>(instruction: VersionInc<Ver, Inc>) -> bool {
    instruction is SoftBasis || instruction is HardBasis || instruction is Fixed
}

/// The place of the first instruction of `history` that names a version, or
/// the length of `history` where none does.
pub open spec fn first_named<Ver, Inc>(history: Seq<VersionInc<Ver, Inc>>) -> int
    decreases history.len(),
{
    if history.len() == 0 {
        0
    } else if names_version(history[0]) {
        0
    } else {
        1 + first_named(history.drop_first())
    }
}

/// The increments among the first `n` instructions of `history`, in order.
pub open spec fn increments_before<Ver, Inc>(
    history: Seq<VersionInc<Ver, Inc>>,
    n: int,
) -> Seq<Inc>
    decreases n,
{
    if n <= 0 || n > history.len() {
        Seq::empty()
    } else {
        match history[n - 1] {
            VersionInc::Inc(i) => increments_before(history, n - 1).push(i),
            _ => increments_before(history, n - 1),
        }
    }
}

/// The view of a version of view `v` after one increment, or `None` where
/// the increment does not fit.
pub open spec fn apply_one<Ver: VersionOp<Inc>, Inc>(v: Ver::V, i: Inc) -> Option<Ver::V> {
    if Ver::inc_fits(v, i) {
        Some(Ver::inc_view(v, i))
    } else {
        None
    }
}

/// The view of a version of view `v` after the increments `incs`, applied
/// first to last, or `None` where one of them does not fit.
pub open spec fn apply_all<Ver: VersionOp<Inc>, Inc>(v: Ver::V, incs: Seq<Inc>) -> Option<Ver::V>
    decreases incs.len(),
{
    if incs.len() == 0 {
        Some(v)
    } else {
        match apply_one::<Ver, Inc>(v, incs[0]) {
            Some(next) => apply_all::<Ver, Inc>(next, incs.drop_first()),
            None => None,
        }
    }
}

/// The view of a version of view `v` moved forward by the step `v_next`,
/// where there is one.
pub open spec fn step_forward<Ver: VersionOp<Inc>, Inc>(v: Ver::V, v_next: Option<Inc>) -> Option<
    Ver::V,
> {
    match v_next {
        Some(i) => apply_one::<Ver, Inc>(v, i),
        None => Some(v),
    }
}

/// The ground on which the pending increments are applied: the version that
/// the first naming instruction gives, moved forward where the rules ask for
/// it, or `basis` where no instruction names a version.
pub open spec fn ground<Ver: VersionOp<Inc>, Inc>(
    history: Seq<VersionInc<Ver::V, Inc>>,
    basis: Ver::V,
    v_next: Option<Inc>,
) -> Option<Ver::V> {
    let k = first_named(history);
    let commits_above = increments_before(history, k).len() > 0;
    if k >= history.len() {
        Some(basis)
    } else {
        match history[k] {
            VersionInc::SoftBasis(v) => if commits_above {
                step_forward::<Ver, Inc>(v, v_next)
            } else {
                Some(v)
            },
            VersionInc::HardBasis(v) => Some(v),
            VersionInc::Fixed(v) => if commits_above {
                step_forward::<Ver, Inc>(v, v_next)
            } else {
                Some(v)
            },
            _ => Some(basis),
        }
    }
}

/// How the version that `history` resolves to came about.
pub open spec fn hint_of<Ver, Inc>(history: Seq<VersionInc<Ver, Inc>>) -> VersionHint {
    let k = first_named(history);
    if increments_before(history, k).len() > 0 {
        VersionHint::Derived
    } else if k < history.len() && history[k] is Fixed {
        VersionHint::Fixed
    } else {
        VersionHint::Basis
    }
}

/// The version that `history` resolves to, with its hint, or `None` where
/// an increment does not fit. The instructions hold the views of their
/// versions.
pub open spec fn resolve_spec<Ver: VersionOp<Inc>, Inc>(
    history: Seq<VersionInc<Ver::V, Inc>>,
    basis: Ver::V,
    v_next: Option<Inc>,
) -> Option<(Ver::V, VersionHint)> {
    let pending = increments_before(history, first_named(history));
    match ground::<Ver, Inc>(history, basis, v_next) {
        Some(g) => match apply_all::<Ver, Inc>(g, pending) {
            Some(v) => Some((v, hint_of(history))),
            None => None,
        },
        None => None,
    }
}

/// Where no instruction before place `k` names a version, the first naming
/// instruction lies at `k` or later; where the one at `k` names one, it is
/// the first.
pub proof fn lemma_first_named<Ver, Inc>(history: Seq<VersionInc<Ver, Inc>>, k: int)
    requires
        0 <= k <= history.len(),
        forall|j: int| 0 <= j < k ==> !names_version(#[trigger] history[j]),
    ensures
        k <= first_named(history) <= history.len(),
        k < history.len() && names_version(history[k]) ==> first_named(history) == k,
    decreases history.len(),
{
    if history.len() == 0 {
    } else if k == 0 {
        if !names_version(history[0]) {
            let rest = history.drop_first();
            lemma_first_named(rest, 0);
        }
    } else {
        assert(!names_version(history[0]));
        let rest = history.drop_first();
        assert forall|j: int| 0 <= j < k - 1 implies !names_version(#[trigger] rest[j]) by {
            assert(rest[j] == history[j + 1]);
        }
        lemma_first_named(rest, k - 1);
        if k < history.len() {
            assert(rest[k - 1] == history[k]);
        }
    }
}

/// Where the first `k` instructions are all `Skip`, no increment lies among
/// them.
pub proof fn lemma_no_increment_in_skips<Ver, Inc>(history: Seq<VersionInc<Ver, Inc>>, k: int)
    requires
        0 <= k <= history.len(),
        forall|j: int| 0 <= j < k ==> #[trigger] history[j] is Skip,
    ensures
        increments_before(history, k).len() == 0,
    decreases k,
{
    if k > 0 {
        assert(history[k - 1] is Skip);
        lemma_no_increment_in_skips(history, k - 1);
    }
}

/// Where the first `k` instructions are all increments, they are the pending
/// increments, one for one and in their order.
pub proof fn lemma_increments_of_prefix<Ver, Inc>(history: Seq<VersionInc<Ver, Inc>>, k: int)
    requires
        0 <= k <= history.len(),
        forall|j: int| 0 <= j < k ==> #[trigger] history[j] is Inc,
    ensures
        increments_before(history, k).len() == k,
        forall|j: int|
            0 <= j < k ==> #[trigger] increments_before(history, k)[j] == history[j]->Inc_0,
    decreases k,
{
    if k > 0 {
        assert(history[k - 1] is Inc);
        lemma_increments_of_prefix(history, k - 1);
    }
}

/// A fixed version with nothing but `Skip` before it is the result exactly as
/// it stands, whatever follows it, whatever the basis and the step are.
pub proof fn lemma_fixed_short_circuit<Ver: VersionOp<Inc>, Inc>(
    history: Seq<VersionInc<Ver::V, Inc>>,
    basis: Ver::V,
    v_next: Option<Inc>,
    k: int,
)
    requires
        0 <= k < history.len(),
        history[k] is Fixed,
        forall|j: int| 0 <= j < k ==> #[trigger] history[j] is Skip,
    ensures
        resolve_spec::<Ver, Inc>(history, basis, v_next) == Some(
            (history[k]->Fixed_0, VersionHint::Fixed),
        ),
{
    assert forall|j: int| 0 <= j < k implies !names_version(#[trigger] history[j]) by {
        assert(history[j] is Skip);
    }
    lemma_first_named(history, k);
    lemma_no_increment_in_skips(history, k);
}

/// A soft basis with nothing but `Skip` before it is the result exactly as it
/// stands: the step is not applied.
pub proof fn lemma_soft_basis_alone<Ver: VersionOp<Inc>, Inc>(
    history: Seq<VersionInc<Ver::V, Inc>>,
    basis: Ver::V,
    v_next: Option<Inc>,
    k: int,
)
    requires
        0 <= k < history.len(),
        history[k] is SoftBasis,
        forall|j: int| 0 <= j < k ==> #[trigger] history[j] is Skip,
    ensures
        resolve_spec::<Ver, Inc>(history, basis, v_next) == Some(
            (history[k]->SoftBasis_0, VersionHint::Basis),
        ),
{
    assert forall|j: int| 0 <= j < k implies !names_version(#[trigger] history[j]) by {
        assert(history[j] is Skip);
    }
    lemma_first_named(history, k);
    lemma_no_increment_in_skips(history, k);
}

/// A soft basis below `k` increments, `k` at least one, is moved forward by
/// the step, and the `k` increments are then applied to it in their order.
pub proof fn lemma_soft_basis_gated<Ver: VersionOp<Inc>, Inc>(
    history: Seq<VersionInc<Ver::V, Inc>>,
    basis: Ver::V,
    v_next: Option<Inc>,
    k: int,
)
    requires
        1 <= k < history.len(),
        history[k] is SoftBasis,
        forall|j: int| 0 <= j < k ==> #[trigger] history[j] is Inc,
    ensures
        resolve_spec::<Ver, Inc>(history, basis, v_next) == match step_forward::<Ver, Inc>(
            history[k]->SoftBasis_0,
            v_next,
        ) {
            Some(moved) => match apply_all::<Ver, Inc>(
                moved,
                Seq::new(k as nat, |j: int| history[j]->Inc_0),
            ) {
                Some(v) => Some((v, VersionHint::Derived)),
                None => None,
            },
            None => None,
        },
{
    assert forall|j: int| 0 <= j < k implies !names_version(#[trigger] history[j]) by {
        assert(history[j] is Inc);
    }
    lemma_first_named(history, k);
    lemma_increments_of_prefix(history, k);
    assert(increments_before(history, k) =~= Seq::new(k as nat, |j: int| history[j]->Inc_0));
}

/// A hard basis is never moved forward: the increments before it are applied
/// to the version as it stands.
pub proof fn lemma_hard_basis<Ver: VersionOp<Inc>, Inc>(
    history: Seq<VersionInc<Ver::V, Inc>>,
    basis: Ver::V,
    v_next: Option<Inc>,
    k: int,
)
    requires
        0 <= k < history.len(),
        history[k] is HardBasis,
        forall|j: int| 0 <= j < k ==> !names_version(#[trigger] history[j]),
    ensures
        resolve_spec::<Ver, Inc>(history, basis, v_next) == match apply_all::<Ver, Inc>(
            history[k]->HardBasis_0,
            increments_before(history, k),
        ) {
            Some(v) => Some(
                (
                    v,
                    if increments_before(history, k).len() > 0 {
                        VersionHint::Derived
                    } else {
                        VersionHint::Basis
                    },
                ),
            ),
            None => None,
        },
{
    lemma_first_named(history, k);
}

/// The increments among the first `n` instructions are those among the
/// first `n` of any longer beginning of the history.
pub proof fn lemma_increments_of_beginning<Ver, Inc>(
    history: Seq<VersionInc<Ver, Inc>>,
    m: int,
    n: int,
)
    requires
        0 <= n <= m <= history.len(),
    ensures
        increments_before(history.take(m), n) == increments_before(history, n),
    decreases n,
{
    if n > 0 {
        lemma_increments_of_beginning(history, m, n - 1);
        assert(history.take(m)[n - 1] == history[n - 1]);
    }
}

/// What follows the first instruction that names a version is not read: the
/// history resolves as its beginning up to that instruction does.
pub proof fn lemma_rest_is_not_read<Ver: VersionOp<Inc>, Inc>(
    history: Seq<VersionInc<Ver::V, Inc>>,
    basis: Ver::V,
    v_next: Option<Inc>,
    k: int,
)
    requires
        0 <= k < history.len(),
        names_version(history[k]),
        forall|j: int| 0 <= j < k ==> !names_version(#[trigger] history[j]),
    ensures
        resolve_spec::<Ver, Inc>(history.take(k + 1), basis, v_next) == resolve_spec::<Ver, Inc>(
            history,
            basis,
            v_next,
        ),
{
    let beginning = history.take(k + 1);
    assert(beginning[k] == history[k]);
    assert forall|j: int| 0 <= j < k implies !names_version(#[trigger] beginning[j]) by {
        assert(beginning[j] == history[j]);
    }
    lemma_first_named(history, k);
    lemma_first_named(beginning, k);
    lemma_increments_of_beginning(history, k + 1, k);
}

/// Applies the increments `incs` to `version`, first to last.
fn apply_pending<Ver: VersionOp<Inc>, Inc>(version: Ver, incs: &Vec<Inc>) -> (r: Result<
    Ver,
    ResolveError,
>)
    ensures
        match r {
            Ok(v) => apply_all::<Ver, Inc>(version@, incs@) == Some(v@),
            Err(_) => apply_all::<Ver, Inc>(version@, incs@) is None,
        },
{
    let mut current = version;
    let mut i: usize = 0;
    assert(incs@.skip(0) =~= incs@);
    while i < incs.len()
        invariant
            i <= incs.len(),
            apply_all::<Ver, Inc>(version@, incs@) == apply_all::<Ver, Inc>(
                current@,
                incs@.skip(i as int),
            ),
        decreases incs.len() - i,
    {
        proof {
            assert(incs@.skip(i as int).drop_first() =~= incs@.skip(i + 1));
            assert(incs@.skip(i as int)[0] == incs@[i as int]);
        }
        if !current.can_inc(&incs[i]) {
            return Err(ResolveError::Overflow);
        }
        current.inc(&incs[i]);
        i = i + 1;
    }
    assert(incs@.skip(i as int).len() == 0);
    Ok(current)
}

/// Moves `version` forward by the step `v_next`, where there is one.
fn apply_step<Ver: VersionOp<Inc>, Inc>(version: Ver, v_next: &Option<Inc>) -> (r: Result<
    Ver,
    ResolveError,
>)
    ensures
        match r {
            Ok(v) => step_forward::<Ver, Inc>(version@, *v_next) == Some(v@),
            Err(_) => step_forward::<Ver, Inc>(version@, *v_next) is None,
        },
{
    let mut current = version;
    match v_next {
        Some(i) => {
            if !current.can_inc(i) {
                return Err(ResolveError::Overflow);
            }
            current.inc(i);
        },
        None => {},
    }
    Ok(current)
}

/// Resolves `history`, the instructions of a walk from the newest node to the
/// oldest, to one version.
///
/// Increments are set aside until the first instruction that names a version.
/// A soft basis or a fixed version below at least one increment is moved
/// forward by `v_next`; a hard basis never is; a fixed version with no
/// increment above it is the result as it stands. Where no instruction names
/// a version, `basis` takes its place. The increments set aside are then
/// applied in the order in which they came. An increment that does not fit
/// ends the resolution with [`ResolveError::Overflow`].
pub fn resolve_version<Ver: VersionOp<Inc>, Inc>(
    history: Vec<VersionInc<Ver, Inc>>,
    basis: Ver,
    v_next: Option<Inc>,
) -> (r: Result<(Ver, VersionHint), ResolveError>)
    ensures
        match r {
            Ok((version, hint)) => resolve_spec::<Ver, Inc>(
                history_view(history@),
                basis@,
                v_next,
            ) == Some((version@, hint)),
            Err(_) => resolve_spec::<Ver, Inc>(history_view(history@), basis@, v_next) is None,
        },
{
    let ghost all = history_view(history@);
    let ghost given = history@;
    let mut incs: Vec<Inc> = Vec::new();
    for instruction in it: history.into_iter()
        invariant
            it.seq() == given,
            all == history_view(given),
            incs@ == increments_before(all, it.index() as int),
            forall|j: int| 0 <= j < it.index() ==> !names_version(#[trigger] all[j]),
    {
        let ghost k = it.index() as int;
        proof {
            lemma_first_named(all, k);
            assert(all[k] == instruction_view(instruction));
        }
        match instruction {
            VersionInc::Inc(add) => {
                incs.push(add);
            },
            VersionInc::SoftBasis(soft_basis) => {
                let above = incs.len() > 0;
                let ground = if above {
                    apply_step(soft_basis, &v_next)?
                } else {
                    soft_basis
                };
                let version = apply_pending(ground, &incs)?;
                return Ok((version, if above { VersionHint::Derived } else { VersionHint::Basis }));
            },
            VersionInc::HardBasis(hard_basis) => {
                let above = incs.len() > 0;
                let version = apply_pending(hard_basis, &incs)?;
                return Ok((version, if above { VersionHint::Derived } else { VersionHint::Basis }));
            },
            VersionInc::Fixed(fix) => {
                if incs.len() == 0 {
                    return Ok((fix, VersionHint::Fixed));
                }
                let ground = apply_step(fix, &v_next)?;
                let version = apply_pending(ground, &incs)?;
                return Ok((version, VersionHint::Derived));
            },
            VersionInc::Skip => {},
        }
    }
    proof {
        lemma_first_named(all, all.len() as int);
    }
    let above = incs.len() > 0;
    let version = apply_pending(basis, &incs)?;
    Ok((version, if above { VersionHint::Derived } else { VersionHint::Basis }))
}

} // verus!
