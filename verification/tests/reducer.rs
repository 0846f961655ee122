use verner::resolve::{resolve_version, ResolveError, VersionHint, VersionInc};
use verner::semver::{SemVersion, SemVersionInc};

type Instruction = VersionInc<SemVersion, SemVersionInc>;

fn version(text: &str) -> SemVersion {
    SemVersion::parse(text).unwrap()
}

fn build() -> Instruction {
    VersionInc::Inc(SemVersionInc::Build(1))
}

fn resolve(
    history: Vec<Instruction>,
    basis: &str,
    v_next: Option<SemVersionInc>,
) -> (SemVersion, VersionHint) {
    resolve_version(history, version(basis), v_next).unwrap()
}

#[test]
fn an_empty_history_gives_the_basis() {
    let (v, hint) = resolve(vec![], "0.1.0", Some(SemVersionInc::Minor(1)));
    assert_eq!(v, version("0.1.0"));
    assert_eq!(hint, VersionHint::Basis);
}

#[test]
fn increments_without_basis_start_from_the_initial_basis() {
    let (v, hint) = resolve(vec![build(), build(), build()], "0.1.0-x", Some(SemVersionInc::Minor(1)));
    assert_eq!(v, version("0.1.0-x.3"));
    assert_eq!(hint, VersionHint::Derived);
}

#[test]
fn a_fixed_version_first_is_the_result() {
    let history = vec![
        VersionInc::Fixed(version("2.3.4")),
        build(),
        VersionInc::SoftBasis(version("9.9.9")),
        VersionInc::Fixed(version("8.8.8")),
    ];
    let (v, hint) = resolve(history, "0.0.0", Some(SemVersionInc::Major(1)));
    assert_eq!(v, version("2.3.4"));
    assert_eq!(hint, VersionHint::Fixed);
}

#[test]
fn skips_before_a_fixed_version_change_nothing() {
    let history = vec![VersionInc::Skip, VersionInc::Skip, VersionInc::Fixed(version("2.3.4-rc.1"))];
    let (v, hint) = resolve(history, "0.0.0", Some(SemVersionInc::Major(1)));
    assert_eq!(v, version("2.3.4-rc.1"));
    assert_eq!(hint, VersionHint::Fixed);
}

#[test]
fn a_fixed_version_below_increments_moves_forward() {
    let history = vec![build(), VersionInc::Fixed(version("1.0.0")), build()];
    let (v, hint) = resolve(history, "0.0.0", Some(SemVersionInc::Patch(1)));
    assert_eq!(v, version("1.0.1-.1"));
    assert_eq!(hint, VersionHint::Derived);
}

#[test]
fn a_soft_basis_alone_is_the_result() {
    let history = vec![VersionInc::SoftBasis(version("1.2.0-rc"))];
    let (v, hint) = resolve(history, "0.0.0", Some(SemVersionInc::Minor(1)));
    assert_eq!(v, version("1.2.0-rc"));
    assert_eq!(hint, VersionHint::Basis);
}

#[test]
fn a_soft_basis_below_two_increments_moves_forward() {
    let history = vec![build(), build(), VersionInc::SoftBasis(version("1.2.0-rc"))];
    let (v, hint) = resolve(history, "0.0.0", Some(SemVersionInc::Minor(1)));
    assert_eq!(v, version("1.3.0-rc.2"));
    assert_eq!(hint, VersionHint::Derived);
}

#[test]
fn a_soft_basis_without_step_stays() {
    let history = vec![build(), VersionInc::SoftBasis(version("1.2.0-rc.5"))];
    let (v, hint) = resolve(history, "0.0.0", None);
    assert_eq!(v, version("1.2.0-rc.6"));
    assert_eq!(hint, VersionHint::Derived);
}

#[test]
fn a_hard_basis_never_moves_forward() {
    let history = vec![build(), build(), VersionInc::HardBasis(version("1.2.0-rc"))];
    let (v, hint) = resolve(history, "0.0.0", Some(SemVersionInc::Minor(1)));
    assert_eq!(v, version("1.2.0-rc.2"));
    assert_eq!(hint, VersionHint::Derived);
    let (w, hint) = resolve(vec![VersionInc::HardBasis(version("1.2.0"))], "0.0.0", None);
    assert_eq!(w, version("1.2.0"));
    assert_eq!(hint, VersionHint::Basis);
}

#[test]
fn what_follows_the_first_basis_is_not_read() {
    let history = vec![
        build(),
        VersionInc::HardBasis(version("1.0.0")),
        build(),
        build(),
        VersionInc::Fixed(version("5.0.0")),
    ];
    let (v, _) = resolve(history, "0.0.0", None);
    assert_eq!(v, version("1.0.0-.1"));
}

#[test]
fn increments_are_applied_in_their_order() {
    let history = vec![
        VersionInc::Inc(SemVersionInc::Build(3)),
        VersionInc::Inc(SemVersionInc::Minor(1)),
        VersionInc::Skip,
        VersionInc::Inc(SemVersionInc::Build(2)),
        VersionInc::HardBasis(version("1.0.0")),
    ];
    let (v, _) = resolve(history, "0.0.0", None);
    assert_eq!(v, version("1.1.0-.2"));
}

#[test]
fn an_increment_that_does_not_fit_is_an_error() {
    let history = vec![build(), VersionInc::HardBasis(version("1.0.0-x.4294967295"))];
    let r = resolve_version(history, version("0.0.0"), None);
    assert_eq!(r.err(), Some(ResolveError::Overflow));
    let history = vec![build(), VersionInc::SoftBasis(version("4294967295.0.0"))];
    let r = resolve_version(history, version("0.0.0"), Some(SemVersionInc::Major(1)));
    assert_eq!(r.err(), Some(ResolveError::Overflow));
}
