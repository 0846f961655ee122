use verner::cli::ConfigPreset;
use verner::commit::CommitId;
use verner::config::{
    BranchConfig, BranchMatch, Config, RawBranchConfig, RawConfig, RawTagConfig, TagConfig, TagMatch,
};
use verner::error::VernerError;
use verner::preset::preset_config;
use verner::semver::{SemVersion, SemVersionInc};
use verner::template::{replace_all, substitute_commit};

const ID: &str = "3e95d253526c821c9e5da1edfeb8d90f7d59aae4";

fn id() -> CommitId {
    CommitId::from_hex(ID).unwrap()
}

fn branch_config(regex: &str, label: Option<&str>, base_version: Option<&str>) -> BranchConfig {
    RawBranchConfig {
        regex: regex.into(),
        label: label.map(|l| l.into()),
        base_version: base_version.map(|b| b.into()),
        tracks: vec![],
        sources: vec![],
        v_next: None,
        max_depth: None,
    }
    .parse("test".into())
    .expect("config did not parse")
}

fn tag_config(regex: &str, version: &str) -> TagConfig {
    RawTagConfig { regex: regex.into(), version: version.into() }
        .parse("test")
        .expect("config did not parse")
}

fn releaseflow() -> Config {
    preset_config(&ConfigPreset::Releaseflow).parse().unwrap()
}

#[test]
fn replace_label_hash() {
    let branch_config = RawBranchConfig {
        regex: "test".into(),
        label: Some("$hash".into()),
        base_version: None,
        tracks: vec![],
        sources: vec![],
        v_next: None,
        max_depth: None,
    };
    let branch_config = branch_config.parse("test".into()).expect("config did not parse");
    let m = branch_config
        .try_match("test", &CommitId::from_hex("3e95d253526c821c9e5da1edfeb8d90f7d59aae4").unwrap())
        .expect("error matching branch")
        .expect("branch did not match");
    assert_eq!(m.tag(), Some("3e95d253526c821c9e5da1edfeb8d90f7d59aae4"));
}

#[test]
fn replace_label_hash_short() {
    let branch_config = RawBranchConfig {
        regex: "test".into(),
        label: Some("$hash_short".into()),
        base_version: None,
        tracks: vec![],
        sources: vec![],
        v_next: None,
        max_depth: None,
    };
    let branch_config = branch_config.parse("test".into()).expect("config did not parse");
    let m = branch_config
        .try_match("test", &CommitId::from_hex("3e95d253526c821c9e5da1edfeb8d90f7d59aae4").unwrap())
        .expect("error matching branch")
        .expect("branch did not match");
    assert_eq!(m.tag(), Some("3e95d253"));
}

#[test]
fn replace_tag_version_hash() {
    let tag_config = RawTagConfig { regex: "test".into(), version: "0.0.0-$hash".into() };
    let tag_config = tag_config.parse("test".into()).expect("config did not parse");
    let m = tag_config
        .try_match("test", &CommitId::from_hex("3e95d253526c821c9e5da1edfeb8d90f7d59aae4").unwrap())
        .expect("error matching branch")
        .expect("branch did not match");
    assert_eq!(m.version().label(), Some("3e95d253526c821c9e5da1edfeb8d90f7d59aae4"));
}

#[test]
fn replace_tag_version_hash_short() {
    let tag_config = RawTagConfig { regex: "test".into(), version: "0.0.0-$hash_short".into() };
    let tag_config = tag_config.parse("test".into()).expect("config did not parse");
    let m = tag_config
        .try_match("test", &CommitId::from_hex("3e95d253526c821c9e5da1edfeb8d90f7d59aae4").unwrap())
        .expect("error matching branch")
        .expect("branch did not match");
    assert_eq!(m.version().label(), Some("3e95d253"));
}

#[test]
fn replace_all_replaces_every_occurrence() {
    assert_eq!(replace_all("a-b-c", "-", "+"), "a+b+c");
    assert_eq!(replace_all("aaaa", "aa", "b"), "bb");
    assert_eq!(replace_all("aaa", "aa", "b"), "ba");
    assert_eq!(replace_all("abc", "x", "y"), "abc");
    assert_eq!(replace_all("abc", "", "y"), "abc");
    assert_eq!(replace_all("", "a", "y"), "");
    assert_eq!(replace_all("abcabc", "abc", ""), "");
    assert_eq!(replace_all("x$hash", "$hash", "1"), "x1");
    assert_eq!(replace_all("äöü-é", "ö", "oe"), "äoeü-é");
}

#[test]
fn substitute_commit_fills_in_both_forms() {
    assert_eq!(substitute_commit("$hash_short", &id()), "3e95d253");
    assert_eq!(substitute_commit("$hash", &id()), ID);
    assert_eq!(
        substitute_commit("a-$hash_short-b-$hash-c-$hash_short", &id()),
        format!("a-3e95d253-b-{ID}-c-3e95d253")
    );
    assert_eq!(substitute_commit("$hash_shortx", &id()), "3e95d253x");
    assert_eq!(substitute_commit("$hash_shor", &id()), format!("{ID}_shor"));
    assert_eq!(substitute_commit("no names", &id()), "no names");
}

#[test]
fn commit_ids_are_forty_lower_case_hex_digits() {
    assert!(CommitId::from_hex(ID).is_some());
    assert_eq!(id().as_str(), ID);
    assert_eq!(id().short(), "3e95d253");
    assert!(CommitId::from_hex("").is_none());
    assert!(CommitId::from_hex(&ID[..39]).is_none());
    assert!(CommitId::from_hex(&format!("{ID}0")).is_none());
    assert!(CommitId::from_hex(&ID.to_uppercase()).is_none());
    assert!(CommitId::from_hex(&ID.replace('3', "g")).is_none());
    assert!(id() == id().clone());
    assert!(id() != CommitId::from_hex(&ID.replace('3', "4")).unwrap());
}

#[test]
fn a_bad_pattern_is_refused_with_the_pattern() {
    let raw = RawBranchConfig {
        regex: "foo(bar".into(),
        label: None,
        base_version: None,
        tracks: vec![],
        sources: vec![],
        v_next: None,
        max_depth: None,
    };
    match raw.parse("x".into()) {
        Err(VernerError::InvalidPattern(pattern)) => assert_eq!(pattern, "foo(bar"),
        other => panic!("unexpected: {other:?}"),
    }
    let raw = RawTagConfig { regex: "[".into(), version: "1.0.0".into() };
    assert!(matches!(raw.parse("x"), Err(VernerError::InvalidPattern(p)) if p == "["));
}

#[test]
fn a_configuration_names_its_first_bad_pattern() {
    let branch = |regex: &str| RawBranchConfig {
        regex: regex.into(),
        label: None,
        base_version: None,
        tracks: vec![],
        sources: vec![],
        v_next: None,
        max_depth: None,
    };
    let raw = RawConfig {
        tracked_remotes: vec![],
        tags: vec![
            ("a".into(), RawTagConfig { regex: "ok".into(), version: "1.0.0".into() }),
            ("b".into(), RawTagConfig { regex: "(".into(), version: "1.0.0".into() }),
        ],
        branches: vec![("c".into(), branch(")"))],
    };
    assert!(matches!(raw.parse(), Err(VernerError::InvalidPattern(p)) if p == "("));
    let raw = RawConfig {
        tracked_remotes: vec![],
        tags: vec![("a".into(), RawTagConfig { regex: "ok".into(), version: "1.0.0".into() })],
        branches: vec![("c".into(), branch("fine")), ("d".into(), branch("*"))],
    };
    assert!(matches!(raw.parse(), Err(VernerError::InvalidPattern(p)) if p == "*"));
}

#[test]
fn a_parsed_configuration_keeps_names_and_order() {
    let cfg = releaseflow();
    assert_eq!(cfg.tracked_remotes, vec!["origin".to_string()]);
    let kinds: Vec<&str> = cfg.branches.iter().map(|b| b.kind()).collect();
    assert_eq!(kinds, vec!["feature", "fix", "main", "release"]);
    assert_eq!(cfg.tags.len(), 1);
    assert_eq!(cfg.tags[0].kind(), "release");
    assert_eq!(cfg.tags[0].raw().version, "$major.$minor.$patch");
    assert_eq!(cfg.branches[2].regex(), "^main$");
    assert_eq!(cfg.branches[2].raw().v_next, Some(SemVersionInc::Minor(1)));
    assert_eq!(cfg.branches[3].raw().sources, vec!["main".to_string()]);
    assert_eq!(cfg.branches[2].raw().tracks, vec!["release".to_string()]);
    assert_eq!(cfg.branches[0].raw().label.as_deref(), Some("feat-$name"));
    assert_eq!(cfg.branches[3].raw().base_version.as_deref(), Some("$major.$minor.0"));
}

#[test]
fn a_branch_that_does_not_match_gives_nothing() {
    let cfg = branch_config("^main$", Some("x"), Some("1.0.0"));
    assert!(cfg.try_match("mainline", &id()).unwrap().is_none());
    let tags = tag_config("^v(\\d+)$", "$1.0.0");
    assert!(tags.try_match("x1", &id()).unwrap().is_none());
}

#[test]
fn a_match_expands_label_and_base_version() {
    let cfg = releaseflow();
    let m = cfg.try_match_branch("release/2.7", &id()).unwrap().unwrap();
    assert_eq!(m.config().kind(), "release");
    assert_eq!(m.tag(), Some("rc"));
    assert_eq!(m.base_version(), Some(&SemVersion::parse("2.7.0-rc").unwrap()));
    assert_eq!(m.tip().as_str(), ID);
    let m = cfg.try_match_branch("release/2.7.x", &id()).unwrap().unwrap();
    assert_eq!(m.base_version().unwrap().to_string(), "2.7.0-rc");
    let m = cfg.try_match_branch("feature/on-root", &id()).unwrap().unwrap();
    assert_eq!(m.config().kind(), "feature");
    assert_eq!(m.tag(), Some("feat-on-root"));
    assert!(m.base_version().is_none());
    let m = cfg.try_match_branch("fix/it", &id()).unwrap().unwrap();
    assert_eq!(m.tag(), Some("fix-it"));
    let m = cfg.try_match_branch("main", &id()).unwrap().unwrap();
    assert_eq!(m.base_version().unwrap().to_string(), "0.1.0-SNAPSHOT");
    assert!(cfg.try_match_branch("develop", &id()).unwrap().is_none());
}

#[test]
fn the_first_matching_type_wins() {
    let branch = |regex: &str, label: &str| RawBranchConfig {
        regex: regex.into(),
        label: Some(label.into()),
        base_version: None,
        tracks: vec![],
        sources: vec![],
        v_next: None,
        max_depth: None,
    };
    let cfg = RawConfig {
        tracked_remotes: vec![],
        tags: vec![],
        branches: vec![
            ("one".into(), branch("^a", "first")),
            ("two".into(), branch("^ab", "second")),
            ("two".into(), branch("^abc", "third")),
        ],
    }
    .parse()
    .unwrap();
    assert_eq!(cfg.try_match_branch("abc", &id()).unwrap().unwrap().tag(), Some("first"));
    let m = cfg.find_type_branch_config_for("abc", &id(), "two").unwrap().unwrap();
    assert_eq!(m.tag(), Some("second"));
    let m = cfg.find_type_branch_config_for("abc", &id(), "one").unwrap().unwrap();
    assert_eq!(m.tag(), Some("first"));
    assert!(cfg.find_type_branch_config_for("abc", &id(), "three").unwrap().is_none());
    assert!(cfg.find_type_branch_config_for("xbc", &id(), "two").unwrap().is_none());
    let found: Vec<&str> = cfg.find_branches("two").iter().map(|b| b.regex()).collect();
    assert_eq!(found, vec!["^ab", "^abc"]);
    assert!(cfg.find_branches("zero").is_empty());
}

#[test]
fn a_base_version_that_is_no_version_is_an_error() {
    let cfg = branch_config("^r/(?<v>.+)$", None, Some("$v.0"));
    match cfg.try_match("r/one", &id()) {
        Err(VernerError::InvalidVersion(text)) => assert_eq!(text, "one.0"),
        other => panic!("unexpected: {other:?}"),
    }
    assert_eq!(
        cfg.try_match("r/1.2", &id()).unwrap().unwrap().base_version().unwrap().to_string(),
        "1.2.0"
    );
}

#[test]
fn a_tag_version_that_is_no_version_is_an_error() {
    let tags = tag_config("^v(?<v>.+)$", "$v");
    assert!(matches!(tags.try_match("vx", &id()), Err(VernerError::InvalidVersion(t)) if t == "x"));
    let m = tags.try_match("v1.2.3", &id()).unwrap().unwrap();
    assert_eq!(m.version().to_string(), "1.2.3");
    assert_eq!(m.tag(), "v1.2.3");
    assert_eq!(m.config().kind(), "test");
}

#[test]
fn the_label_goes_onto_the_base_version() {
    let cfg = branch_config("^(?<n>\\w+)$", Some("l-$n"), Some("1.2.3-old.4"));
    let m = cfg.try_match("abc", &id()).unwrap().unwrap();
    assert_eq!(m.base_version().unwrap().to_string(), "1.2.3-l-abc.4");
    let cfg = branch_config("^(?<n>\\w+)$", None, Some("1.2.3-old.4"));
    let m = cfg.try_match("abc", &id()).unwrap().unwrap();
    assert_eq!(m.base_version().unwrap().to_string(), "1.2.3-old.4");
}

#[test]
fn reference_names_lose_their_prefix() {
    let cfg = RawConfig {
        tracked_remotes: vec!["origin".into(), "up".into(), "upstream".into()],
        tags: vec![],
        branches: vec![],
    }
    .parse()
    .unwrap();
    assert_eq!(cfg.reference_name_to_branch_name("refs/heads/main"), "main");
    assert_eq!(cfg.reference_name_to_branch_name("refs/heads/feature/x"), "feature/x");
    assert_eq!(cfg.reference_name_to_branch_name("refs/remotes/origin/main"), "main");
    assert_eq!(cfg.reference_name_to_branch_name("refs/remotes/upstream/r/1"), "r/1");
    assert_eq!(cfg.reference_name_to_branch_name("refs/remotes/up/main"), "main");
    assert_eq!(
        cfg.reference_name_to_branch_name("refs/remotes/other/main"),
        "refs/remotes/other/main"
    );
    assert_eq!(cfg.reference_name_to_branch_name("refs/tags/v1"), "refs/tags/v1");
    assert_eq!(cfg.reference_name_to_branch_name("main"), "main");
    assert_eq!(cfg.reference_name_to_branch_name("refs/heads/"), "");
    assert_eq!(cfg.reference_name_to_branch_name("refs/heads/refs/heads/x"), "refs/heads/x");
    assert_eq!(cfg.reference_name_to_branch_name(""), "");
}

#[test]
fn the_release_flow_reads_release_tags() {
    let cfg = releaseflow();
    let m = cfg.tags[0].try_match("v1.2.3", &id()).unwrap().unwrap();
    assert_eq!(m.version(), &SemVersion::parse("1.2.3").unwrap());
    assert!(cfg.tags[0].try_match("1.2.3", &id()).unwrap().is_none());
    assert!(cfg.tags[0].try_match("v1.2", &id()).unwrap().is_none());
}

#[test]
fn a_branch_match_is_assembled_from_expanded_texts() {
    let cfg = branch_config("^x$", Some("unused"), Some("unused"));
    let m = BranchMatch::create(id(), &cfg, Some("rc".into()), Some("1.2.0".into())).unwrap();
    assert_eq!(m.tag(), Some("rc"));
    assert_eq!(m.base_version().unwrap(), &SemVersion::parse("1.2.0-rc").unwrap());
    assert_eq!(m.tip(), &id());
    assert_eq!(m.config().kind(), "test");
    let m = BranchMatch::create(id(), &cfg, None, Some("1.2.0-keep.3".into())).unwrap();
    assert_eq!(m.tag(), None);
    assert_eq!(m.base_version().unwrap().to_string(), "1.2.0-keep.3");
    let m = BranchMatch::create(id(), &cfg, Some("".into()), Some("1.2.0-gone.3".into())).unwrap();
    assert_eq!(m.tag(), Some(""));
    assert_eq!(m.base_version().unwrap().to_string(), "1.2.0-.3");
    let m = BranchMatch::create(id(), &cfg, Some("l".into()), None).unwrap();
    assert_eq!(m.tag(), Some("l"));
    assert!(m.base_version().is_none());
    assert!(matches!(
        BranchMatch::create(id(), &cfg, Some("l".into()), Some("one.two".into())),
        Err(VernerError::InvalidVersion(text)) if text == "one.two"
    ));
    let copy = m.clone();
    assert_eq!(copy.tag(), m.tag());
    assert_eq!(copy.tip(), m.tip());
}

#[test]
fn a_tag_match_is_assembled_from_the_expanded_text() {
    let cfg = tag_config("^x$", "unused");
    let m = TagMatch::create(&cfg, "v1", "1.0.0-rc.2".into()).unwrap();
    assert_eq!(m.tag(), "v1");
    assert_eq!(m.version(), &SemVersion::parse("1.0.0-rc.2").unwrap());
    assert_eq!(m.to_string(), "(tag: v1, type: test, version: 1.0.0-rc.2)");
    assert!(matches!(
        TagMatch::create(&cfg, "v1", "1".into()),
        Err(VernerError::InvalidVersion(text)) if text == "1"
    ));
}
