use verner::cli::ConfigPreset;
use verner::commit::CommitId;
use verner::config::Config;
use verner::error::VernerError;
use verner::head::{branch_by_name, branch_of_reference, resolve_current_branch};
use verner::output::LogLevel;
use verner::preset::preset_config;
use verner::repo::RefRecord;

fn id(n: u32) -> CommitId {
    CommitId::from_hex(&format!("{:040x}", n)).unwrap()
}

fn reference(name: Option<&str>, target: Option<u32>) -> RefRecord {
    RefRecord {
        name: name.map(|n| n.to_string()),
        shorthand: name.map(|n| n.to_string()),
        is_tag: false,
        target: target.map(id),
    }
}

fn releaseflow() -> Config {
    preset_config(&ConfigPreset::Releaseflow).parse().unwrap()
}

#[test]
fn an_attached_head_is_its_own_branch() {
    let head = reference(Some("refs/heads/main"), Some(1));
    let branches = vec![reference(Some("refs/heads/other"), Some(1))];
    let found = resolve_current_branch(&head, false, &branches).unwrap();
    assert_eq!(found.name.as_deref(), Some("refs/heads/main"));
}

#[test]
fn a_detached_head_stands_for_the_one_branch_at_its_commit() {
    let head = reference(Some("HEAD"), Some(2));
    let branches = vec![
        reference(Some("refs/heads/main"), Some(1)),
        reference(Some("refs/heads/feature/x"), Some(2)),
        reference(None, Some(2)),
        reference(Some("refs/heads/nowhere"), None),
    ];
    let found = resolve_current_branch(&head, true, &branches).unwrap();
    assert_eq!(found.name.as_deref(), Some("refs/heads/feature/x"));
}

#[test]
fn a_detached_head_with_several_branches_is_ambiguous() {
    let head = reference(Some("HEAD"), Some(2));
    let branches = vec![
        reference(Some("refs/heads/a"), Some(2)),
        reference(Some("refs/heads/b"), Some(1)),
        reference(Some("refs/remotes/origin/a"), Some(2)),
    ];
    match resolve_current_branch(&head, true, &branches) {
        Err(VernerError::AmbiguousHead(names)) => {
            assert_eq!(names, vec!["refs/heads/a".to_string(), "refs/remotes/origin/a".to_string()])
        }
        other => panic!("unexpected: {other:?}"),
    }
}

#[test]
fn a_detached_head_with_no_branch_is_ambiguous() {
    let head = reference(Some("HEAD"), Some(2));
    let branches = vec![reference(Some("refs/heads/a"), Some(1))];
    assert!(matches!(
        resolve_current_branch(&head, true, &branches),
        Err(VernerError::AmbiguousHead(names)) if names.is_empty()
    ));
}

#[test]
fn a_detached_head_without_commit_is_an_error() {
    let head = reference(Some("HEAD"), None);
    assert!(matches!(
        resolve_current_branch(&head, true, &vec![]),
        Err(VernerError::HeadWithoutCommit)
    ));
}

#[test]
fn a_reference_is_matched_by_its_short_name() {
    let cfg = releaseflow();
    let found = branch_of_reference(&cfg, &reference(Some("refs/heads/release/1.2"), Some(7))).unwrap();
    assert_eq!(found.config().kind(), "release");
    assert_eq!(found.tip(), &id(7));
    let found =
        branch_of_reference(&cfg, &reference(Some("refs/remotes/origin/main"), Some(7))).unwrap();
    assert_eq!(found.config().kind(), "main");
}

#[test]
fn a_reference_of_no_type_is_an_error() {
    let cfg = releaseflow();
    assert!(matches!(
        branch_of_reference(&cfg, &reference(Some("refs/heads/develop"), Some(7))),
        Err(VernerError::NoMatchingBranch(name)) if name == "develop"
    ));
    assert!(matches!(
        branch_of_reference(&cfg, &reference(None, Some(7))),
        Err(VernerError::ReferenceWithoutName)
    ));
    assert!(matches!(
        branch_of_reference(&cfg, &reference(Some("refs/heads/main"), None)),
        Err(VernerError::ReferenceWithoutTarget)
    ));
}

#[test]
fn a_named_branch_is_looked_at_at_the_head() {
    let cfg = releaseflow();
    let found = branch_by_name(&cfg, "fix/this", Some(&id(3))).unwrap();
    assert_eq!(found.tag(), Some("fix-this"));
    assert_eq!(found.tip(), &id(3));
    assert!(matches!(branch_by_name(&cfg, "fix/this", None), Err(VernerError::HeadWithoutCommit)));
    assert!(matches!(
        branch_by_name(&cfg, "nothing", Some(&id(3))),
        Err(VernerError::NoMatchingBranch(name)) if name == "nothing"
    ));
}

#[test]
fn levels_are_ranked() {
    assert_eq!(LogLevel::default(), LogLevel::Info);
    assert!(LogLevel::Info.is_shown(&LogLevel::Info));
    assert!(LogLevel::Error.is_shown(&LogLevel::Info));
    assert!(LogLevel::Success.is_shown(&LogLevel::Info));
    assert!(!LogLevel::Trace.is_shown(&LogLevel::Info));
    assert!(!LogLevel::Warning.is_shown(&LogLevel::Error));
    assert_eq!(LogLevel::Trace.text(), "TRCE");
    assert_eq!(LogLevel::Info.text(), "INFO");
    assert_eq!(LogLevel::Success.text(), "OK");
    assert_eq!(LogLevel::Warning.text(), "WARN");
    assert_eq!(LogLevel::Error.text(), "ERR");
}
