use std::cmp::Ordering;
use verner::resolve::VersionOp;
use verner::semver::{SemVersion, SemVersionInc};

fn version(text: &str) -> SemVersion {
    SemVersion::parse(text).unwrap()
}

#[test]
fn parse_reads_all_fields() {
    let v = version("1.2.3-rc.4");
    assert_eq!(v.major(), 1);
    assert_eq!(v.minor(), 2);
    assert_eq!(v.patch(), 3);
    assert_eq!(v.build(), 4);
    assert_eq!(v.label(), Some("rc"));
}

#[test]
fn parse_defaults_patch_and_build_to_zero() {
    let v = version("7.11");
    assert_eq!((v.major(), v.minor(), v.patch(), v.build()), (7, 11, 0, 0));
    assert_eq!(v.label(), None);
    let w = version("7.11-beta");
    assert_eq!((w.patch(), w.build()), (0, 0));
    assert_eq!(w.label(), Some("beta"));
}

#[test]
fn parse_takes_an_empty_label_for_none() {
    let v = version("1.0.0-.0");
    assert_eq!(v.label(), None);
    assert_eq!(v.build(), 0);
    assert_eq!(v, version("1.0.0"));
    let w = version("1.0.0-");
    assert_eq!(w.label(), None);
    let x = version("1.0.0-.5");
    assert_eq!(x.label(), None);
    assert_eq!(x.build(), 5);
}

#[test]
fn parse_keeps_dashes_in_the_label() {
    let v = version("1.0.0-feat-on-root.0");
    assert_eq!(v.label(), Some("feat-on-root"));
    assert_eq!(v.build(), 0);
}

#[test]
fn parse_refuses_what_is_no_version() {
    for text in [
        "", "1", "1.", ".1", "1.2.", "1.2.3.4", "a.b.c", "1.2.3-rc.", "1.2.3-rc.x", "1.2.3-rc.1.2",
        "1.2.3 ", " 1.2.3", "1..3", "v1.2.3", "1.2.3-rc.4\n", "-1.2.3", "1.2-3.x",
    ] {
        assert!(SemVersion::parse(text).is_none(), "{text:?} should be no version");
    }
}

#[test]
fn parse_refuses_numbers_beyond_32_bits() {
    assert_eq!(version("4294967295.0.0").major(), 4294967295);
    assert!(SemVersion::parse("4294967296.0.0").is_none());
    assert!(SemVersion::parse("1.0.0-rc.99999999999").is_none());
    assert!(SemVersion::parse("1.123456789012345678901234567890.0").is_none());
}

#[test]
fn parse_reads_leading_zeros() {
    let v = version("01.002.0003");
    assert_eq!((v.major(), v.minor(), v.patch()), (1, 2, 3));
}

#[test]
fn to_string_writes_the_canonical_text() {
    assert_eq!(version("1.2.3").to_string(), "1.2.3");
    assert_eq!(version("1.2").to_string(), "1.2.0");
    assert_eq!(version("1.2.3-rc").to_string(), "1.2.3-rc");
    assert_eq!(version("1.2.3-rc.0").to_string(), "1.2.3-rc");
    assert_eq!(version("1.2.3-rc.7").to_string(), "1.2.3-rc.7");
    assert_eq!(version("1.2.3-.7").to_string(), "1.2.3-.7");
    assert_eq!(version("0.0.0").to_string(), "0.0.0");
    assert_eq!(version("10.200.3000-SNAPSHOT.40000").to_string(), "10.200.3000-SNAPSHOT.40000");
    assert_eq!(SemVersion::default().to_string(), "0.0.0");
}

#[test]
fn canonical_text_round_trips() {
    for text in [
        "0.0.0", "1.2.3", "1.0.0-rc", "1.0.0-rc.1", "0.1.0-SNAPSHOT.2", "1.0.0-feat-on-root",
        "4294967295.4294967295.4294967295-x.4294967295", "3.2.1-.9", "1.1.0-a-b-c.12",
    ] {
        assert_eq!(version(text).to_string(), text);
    }
}

#[test]
fn written_versions_read_back() {
    for (major, minor, patch, build, label) in [
        (0, 0, 0, 0, None),
        (1, 2, 3, 0, Some("rc")),
        (1, 2, 3, 9, Some("rc")),
        (1, 2, 3, 9, None),
        (900, 80, 7, 65, Some("feat-x-y")),
    ] {
        let v = SemVersion::new(major, minor, patch, build, label.map(|l: &str| l.to_string()));
        assert_eq!(SemVersion::parse(&v.to_string()).unwrap(), v);
    }
}

#[test]
fn with_label_replaces_the_label() {
    let v = version("1.2.3-rc.4");
    let w = v.with_label(Some("beta".to_string()));
    assert_eq!(w.label(), Some("beta"));
    assert_eq!((w.major(), w.minor(), w.patch(), w.build()), (1, 2, 3, 4));
    assert_eq!(v.with_label(None).label(), None);
    assert_eq!(v.with_label(Some(String::new())).label(), None);
    assert_eq!(v.label(), Some("rc"));
}

#[test]
fn tag_sets_the_label() {
    let v = version("1.2.3").tag("SNAPSHOT");
    assert_eq!(v.to_string(), "1.2.3-SNAPSHOT");
}

#[test]
fn erase_build_zeroes_the_build_counter_only() {
    let v = version("1.2.3-rc.4").erase_build();
    assert_eq!(v, version("1.2.3-rc"));
}

#[test]
fn inc_cascades_to_lower_fields() {
    let start = version("1.2.3-rc.4");
    let mut v = start.clone();
    v.inc(&SemVersionInc::Major(2));
    assert_eq!(v, version("3.0.0-rc"));
    let mut v = start.clone();
    v.inc(&SemVersionInc::Minor(5));
    assert_eq!(v, version("1.7.0-rc"));
    let mut v = start.clone();
    v.inc(&SemVersionInc::Patch(1));
    assert_eq!(v, version("1.2.4-rc"));
    let mut v = start.clone();
    v.inc(&SemVersionInc::Build(6));
    assert_eq!(v, version("1.2.3-rc.10"));
}

#[test]
fn can_inc_tells_of_overflow() {
    let v = version("4294967290.0.0");
    assert!(v.can_inc(&SemVersionInc::Major(5)));
    assert!(!v.can_inc(&SemVersionInc::Major(6)));
    assert!(v.can_inc(&SemVersionInc::Minor(4294967295)));
    let w = version("0.0.0-x.4294967295");
    assert!(!w.can_inc(&SemVersionInc::Build(1)));
    assert!(w.can_inc(&SemVersionInc::Build(0)));
}

#[test]
fn versions_are_ordered_by_their_numbers() {
    assert_eq!(version("1.2.3").partial_cmp(&version("1.2.3")), Some(Ordering::Equal));
    assert_eq!(version("1.2.3").partial_cmp(&version("2.0.0")), Some(Ordering::Less));
    assert_eq!(version("1.3.0").partial_cmp(&version("1.2.9")), Some(Ordering::Greater));
    assert_eq!(version("1.2.4").partial_cmp(&version("1.2.3")), Some(Ordering::Greater));
    assert_eq!(version("1.2.3-rc.1").partial_cmp(&version("1.2.3-rc.2")), Some(Ordering::Less));
    assert_eq!(version("1.2.3-rc.2").partial_cmp(&version("1.2.3-rc.2")), Some(Ordering::Equal));
    assert!(version("1.2.3-rc.1") < version("1.2.3-rc.2"));
    assert!(version("2.0.0") > version("1.9.9-rc.100"));
}

#[test]
fn tracks_of_one_core_are_not_comparable() {
    assert_eq!(version("1.2.3-rc.1").partial_cmp(&version("1.2.3-beta.1")), None);
    assert_eq!(version("1.2.3-rc.1").partial_cmp(&version("1.2.3")), None);
    assert_eq!(version("1.2.3").partial_cmp(&version("1.2.3-rc")), None);
    assert!(!(version("1.2.3-rc.1") < version("1.2.3-beta.2")));
    assert!(!(version("1.2.3-rc.1") > version("1.2.3-beta.2")));
}

#[test]
fn the_core_decides_before_the_label() {
    assert_eq!(version("1.0.0-rc").partial_cmp(&version("2.0.0-beta")), Some(Ordering::Less));
    assert_eq!(version("1.1.0-rc").partial_cmp(&version("1.0.0")), Some(Ordering::Greater));
}

#[test]
fn equality_compares_every_field() {
    assert_eq!(version("1.2.3-rc.4"), version("1.2.3-rc.4"));
    assert_ne!(version("1.2.3-rc.4"), version("1.2.3-rc.5"));
    assert_ne!(version("1.2.3-rc.4"), version("1.2.3-rd.4"));
    assert_ne!(version("1.2.3-rc"), version("1.2.3"));
    assert_ne!(version("1.2.3"), version("1.2.4"));
}

#[test]
fn increments_are_written_with_a_sign() {
    assert_eq!(SemVersionInc::Major(2).to_string(), "+2.0.0");
    assert_eq!(SemVersionInc::Minor(1).to_string(), "0.+1.0");
    assert_eq!(SemVersionInc::Patch(30).to_string(), "0.0.+30");
    assert_eq!(SemVersionInc::Build(0).to_string(), "0.0.0-*.+0");
}
