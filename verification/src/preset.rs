//! The configurations that the library brings along.

use crate::cli::ConfigPreset;
use crate::config::{
    RawBranchConfig, RawBranchConfigView, RawConfig, RawConfigView, RawTagConfig, RawTagConfigView,
};
use crate::semver::SemVersionInc;
use vstd::prelude::*;

verus! {

/// The branch type `feature` of the release flow: `feature/<name>` or
/// `feat/<name>`, labelled `feat-<name>`, cut from `main` or from a release
/// branch.
pub open spec fn releaseflow_feature() -> RawBranchConfigView {
    RawBranchConfigView {
        regex: r"^feat(?:ure)?/(?<name>.+)$"@,
        label: Some("feat-$name"@),
        base_version: None,
        tracks: Seq::empty(),
        sources: seq!["main"@, "release"@],
        v_next: None,
        max_depth: None,
    }
}

/// The branch type `fix` of the release flow: `fix/<name>` or
/// `buxfix/<name>`, labelled `fix-<name>`, cut from `main` or from a release
/// branch.
pub open spec fn releaseflow_fix() -> RawBranchConfigView {
    RawBranchConfigView {
        regex: r"^(?:bux)?fix/(?<name>.+)$"@,
        label: Some("fix-$name"@),
        base_version: None,
        tracks: Seq::empty(),
        sources: seq!["main"@, "release"@],
        v_next: None,
        max_depth: None,
    }
}

/// The branch type `main` of the release flow: the branch `main`, labelled
/// `SNAPSHOT`, which starts at `0.1.0`, goes on by one minor version and
/// follows the release branches.
pub open spec fn releaseflow_main() -> RawBranchConfigView {
    RawBranchConfigView {
        regex: r"^main$"@,
        label: Some("SNAPSHOT"@),
        base_version: Some("0.1.0"@),
        tracks: seq!["release"@],
        sources: Seq::empty(),
        v_next: Some(SemVersionInc::Minor(1)),
        max_depth: None,
    }
}

/// The branch type `release` of the release flow: `release/<major>.<minor>`,
/// with or without `.x` behind it, labelled `rc`, which starts at
/// `<major>.<minor>.0`, goes on by one patch and is cut from `main`.
pub open spec fn releaseflow_release() -> RawBranchConfigView {
    RawBranchConfigView {
        regex: r"^release/(?<major>\d+)\.(?<minor>\d+)(?:\.x)?$"@,
        label: Some("rc"@),
        base_version: Some("$major.$minor.0"@),
        tracks: Seq::empty(),
        sources: seq!["main"@],
        v_next: Some(SemVersionInc::Patch(1)),
        max_depth: None,
    }
}

/// The tag type `release` of the release flow: `v<major>.<minor>.<patch>`
/// gives its commit that version.
pub open spec fn releaseflow_tag() -> RawTagConfigView {
    RawTagConfigView {
        regex: r"^v(?<major>\d+)\.(?<minor>\d+)\.(?<patch>\d+)$"@,
        version: "$major.$minor.$patch"@,
    }
}

/// The release flow: the remote `origin`, release tags, and the branch
/// types `feature`, `fix`, `main` and `release`, tried in that order.
pub open spec fn releaseflow() -> RawConfigView {
    RawConfigView {
        tracked_remotes: seq!["origin"@],
        tags: seq![("release"@, releaseflow_tag())],
        branches: seq![
            ("feature"@, releaseflow_feature()),
            ("fix"@, releaseflow_fix()),
            ("main"@, releaseflow_main()),
            ("release"@, releaseflow_release()),
        ],
    }
}

/// The configuration that `preset` names, as it would be written.
pub open spec fn preset_view(preset: ConfigPreset) -> RawConfigView {
    match preset {
        ConfigPreset::Releaseflow => releaseflow(),
    }
}

/// A list of one text.
fn one(text: &str) -> (r: Vec<String>)
    ensures
        r.deep_view() == seq![text@],
{
    let mut r: Vec<String> = Vec::new();
    r.push(text.to_owned());
    assert(r.deep_view() =~= seq![text@]);
    r
}

/// A list of two texts.
fn two(first: &str, second: &str) -> (r: Vec<String>)
    ensures
        r.deep_view() == seq![first@, second@],
{
    let mut r: Vec<String> = Vec::new();
    r.push(first.to_owned());
    r.push(second.to_owned());
    assert(r.deep_view() =~= seq![first@, second@]);
    r
}

/// A list of no text.
fn none() -> (r: Vec<String>)
    ensures
        r.deep_view() == Seq::<Seq<char>>::empty(),
{
    let r: Vec<String> = Vec::new();
    assert(r.deep_view() =~= Seq::<Seq<char>>::empty());
    r
}

/// The configuration that `preset` names, as it would be written.
pub fn preset_config(preset: &ConfigPreset) -> (r: RawConfig)
    ensures
        r.deep_view() == preset_view(*preset),
{
    match preset {
        ConfigPreset::Releaseflow => {
            let mut tags: Vec<(String, RawTagConfig)> = Vec::new();
            tags.push(
                (
                    "release".to_owned(),
                    RawTagConfig {
                        regex: r"^v(?<major>\d+)\.(?<minor>\d+)\.(?<patch>\d+)$".to_owned(),
                        version: "$major.$minor.$patch".to_owned(),
                    },
                ),
            );
            let mut branches: Vec<(String, RawBranchConfig)> = Vec::new();
            branches.push(
                (
                    "feature".to_owned(),
                    RawBranchConfig {
                        regex: r"^feat(?:ure)?/(?<name>.+)$".to_owned(),
                        label: Some("feat-$name".to_owned()),
                        base_version: None,
                        tracks: none(),
                        sources: two("main", "release"),
                        v_next: None,
                        max_depth: None,
                    },
                ),
            );
            branches.push(
                (
                    "fix".to_owned(),
                    RawBranchConfig {
                        regex: r"^(?:bux)?fix/(?<name>.+)$".to_owned(),
                        label: Some("fix-$name".to_owned()),
                        base_version: None,
                        tracks: none(),
                        sources: two("main", "release"),
                        v_next: None,
                        max_depth: None,
                    },
                ),
            );
            branches.push(
                (
                    "main".to_owned(),
                    RawBranchConfig {
                        regex: r"^main$".to_owned(),
                        label: Some("SNAPSHOT".to_owned()),
                        base_version: Some("0.1.0".to_owned()),
                        tracks: one("release"),
                        sources: none(),
                        v_next: Some(SemVersionInc::Minor(1)),
                        max_depth: None,
                    },
                ),
            );
            branches.push(
                (
                    "release".to_owned(),
                    RawBranchConfig {
                        regex: r"^release/(?<major>\d+)\.(?<minor>\d+)(?:\.x)?$".to_owned(),
                        label: Some("rc".to_owned()),
                        base_version: Some("$major.$minor.0".to_owned()),
                        tracks: none(),
                        sources: one("main"),
                        v_next: Some(SemVersionInc::Patch(1)),
                        max_depth: None,
                    },
                ),
            );
            let config = RawConfig { tracked_remotes: one("origin"), tags, branches };
            assert(config.tags.deep_view() =~= releaseflow().tags);
            assert(config.branches.deep_view() =~= releaseflow().branches);
            config
        },
    }
}

} // verus!
