use verner::cli::ConfigPreset;
use verner::commit::CommitId;
use verner::config::{Config, RawBranchConfig, RawConfig, RawTagConfig};
use verner::error::VernerError;
use verner::preset::preset_config;
use verner::repo::{MergeBaseFact, RefRecord, Repo, RepoQuery, WalkFact};
use verner::resolve::VersionInc;
use verner::semver::{SemVersion, SemVersionInc};
use verner::solver::{solve, BranchSolveContext, BranchSolver, Progress};

/// A history in memory: commits by number, each with its parents, and the
/// references that point at them.
struct Graph {
    parents: Vec<(u32, Vec<u32>)>,
    references: Vec<(String, bool, u32)>,
}

fn id(n: u32) -> CommitId {
    CommitId::from_hex(&format!("{:040x}", n)).unwrap()
}

fn number(id: &CommitId) -> u32 {
    u32::from_str_radix(id.as_str(), 16).unwrap()
}

impl Graph {
    /// A line of commits `1 <- 2 <- .. <- n`.
    fn line(n: u32) -> Graph {
        Graph {
            parents: (1..=n).map(|c| (c, if c == 1 { vec![] } else { vec![c - 1] })).collect(),
            references: vec![],
        }
    }

    fn commit(mut self, c: u32, parent: u32) -> Graph {
        self.parents.push((c, vec![parent]));
        self
    }

    fn branch(mut self, name: &str, at: u32) -> Graph {
        self.references.push((format!("refs/heads/{name}"), false, at));
        self
    }

    fn remote_branch(mut self, name: &str, at: u32) -> Graph {
        self.references.push((format!("refs/remotes/{name}"), false, at));
        self
    }

    fn tag(mut self, name: &str, at: u32) -> Graph {
        self.references.push((format!("refs/tags/{name}"), true, at));
        self
    }

    fn parents_of(&self, c: u32) -> Vec<u32> {
        self.parents.iter().find(|(n, _)| *n == c).map(|(_, p)| p.clone()).unwrap()
    }

    /// The commits that can be reached from `tip`, each before its parents.
    fn walk(&self, tip: u32) -> Vec<u32> {
        let mut seen = vec![];
        let mut queue = vec![tip];
        while !queue.is_empty() {
            let c = queue.remove(0);
            if !seen.contains(&c) {
                seen.push(c);
                queue.extend(self.parents_of(c));
            }
        }
        seen
    }

    fn merge_base(&self, one: u32, two: u32) -> u32 {
        let reachable = self.walk(one);
        self.walk(two).into_iter().find(|c| reachable.contains(c)).unwrap()
    }

    fn references(&self) -> Vec<RefRecord> {
        self.references
            .iter()
            .map(|(name, is_tag, at)| RefRecord {
                name: Some(name.clone()),
                shorthand: Some(
                    name.trim_start_matches("refs/heads/")
                        .trim_start_matches("refs/tags/")
                        .trim_start_matches("refs/remotes/")
                        .to_string(),
                ),
                is_tag: *is_tag,
                target: Some(id(*at)),
            })
            .collect()
    }

    fn answer(&self, query: &RepoQuery, repo: &mut Repo) {
        match query {
            RepoQuery::MergeBase { one, two } => repo.merge_bases.push(MergeBaseFact {
                one: one.clone(),
                two: two.clone(),
                base: id(self.merge_base(number(one), number(two))),
            }),
            RepoQuery::Walk { tip } => repo.walks.push(WalkFact {
                tip: tip.clone(),
                commits: self.walk(number(tip)).into_iter().map(id).collect(),
            }),
        }
    }

    /// Solves the branch `name` at `tip`, asking this history whatever the
    /// solver needs. Gives the result and the questions that were asked.
    fn solve(
        &self,
        cfg: &Config,
        name: &str,
        tip: u32,
    ) -> (Result<SemVersion, VernerError>, Vec<RepoQuery>) {
        let mut repo = Repo { references: self.references(), merge_bases: vec![], walks: vec![] };
        let mut asked = vec![];
        loop {
            let branch = cfg.try_match_branch(name, &id(tip)).unwrap().expect("no branch type");
            match solve(cfg, &repo, branch) {
                Ok(Progress::Done(version)) => return (Ok(version), asked),
                Ok(Progress::Needs(query)) => {
                    self.answer(&query, &mut repo);
                    asked.push(query);
                    assert!(asked.len() < 1000, "the solver keeps asking");
                }
                Err(error) => return (Err(error), asked),
            }
        }
    }

    fn version(&self, cfg: &Config, name: &str, tip: u32) -> SemVersion {
        self.solve(cfg, name, tip).0.unwrap()
    }
}

fn releaseflow() -> Config {
    preset_config(&ConfigPreset::Releaseflow).parse().unwrap()
}

fn version(text: &str) -> SemVersion {
    SemVersion::parse(text).unwrap()
}

fn branch_type(
    regex: &str,
    label: Option<&str>,
    base_version: Option<&str>,
    sources: &[&str],
    tracks: &[&str],
    v_next: Option<SemVersionInc>,
    max_depth: Option<u32>,
) -> RawBranchConfig {
    RawBranchConfig {
        regex: regex.into(),
        label: label.map(|l| l.into()),
        base_version: base_version.map(|b| b.into()),
        tracks: tracks.iter().map(|t| t.to_string()).collect(),
        sources: sources.iter().map(|s| s.to_string()).collect(),
        v_next,
        max_depth,
    }
}

/// The configuration that `raw` describes, each type made by itself: the
/// names of source types and followed types are not held against the types.
fn unchecked(raw: RawConfig) -> Config {
    Config {
        tracked_remotes: raw.tracked_remotes,
        tags: raw.tags.into_iter().map(|(kind, tag)| tag.parse(&kind).unwrap()).collect(),
        branches: raw.branches.into_iter().map(|(kind, branch)| branch.parse(kind).unwrap()).collect(),
    }
}

/// Three branch types in a chain: `top` is cut from `mid`, `mid` from `low`.
fn chain(max_depth: Option<u32>) -> Config {
    RawConfig {
        tracked_remotes: vec![],
        tags: vec![],
        branches: vec![
            ("top".into(), branch_type("^top$", None, None, &["mid"], &[], None, max_depth)),
            ("mid".into(), branch_type("^mid$", Some("m"), None, &["low"], &[], None, Some(0))),
            ("low".into(), branch_type("^low$", None, Some("5.0.0"), &[], &[], None, None)),
        ],
    }
    .parse()
    .unwrap()
}

fn chain_history() -> Graph {
    Graph::line(3).branch("low", 1).branch("mid", 2).branch("top", 3)
}

#[test]
fn a_release_branch_at_its_base() {
    let graph = Graph::line(2).branch("main", 2).branch("release/1.0", 2);
    let solved = graph.version(&releaseflow(), "release/1.0", 2);
    assert_eq!(solved, version("1.0.0-rc.0"));
    assert_eq!(solved.to_string(), "1.0.0-rc");
}

#[test]
fn a_release_branch_one_commit_past_its_base() {
    let graph = Graph::line(3).branch("main", 2).branch("release/1.0", 3);
    let solved = graph.version(&releaseflow(), "release/1.0", 3);
    assert_eq!(solved, version("1.0.0-rc.1"));
}

#[test]
fn main_two_commits_past_a_release_base() {
    let graph = Graph::line(3).branch("release/0.0", 1).branch("main", 3);
    let solved = graph.version(&releaseflow(), "main", 3);
    assert_eq!(solved, version("0.1.0-SNAPSHOT.2"));
}

#[test]
fn main_alone_counts_from_its_base_version() {
    let graph = Graph::line(2).branch("main", 2);
    assert_eq!(graph.version(&releaseflow(), "main", 2), version("0.1.0-SNAPSHOT.2"));
}

#[test]
fn main_one_commit_past_a_release_branch() {
    let graph = Graph::line(3).branch("release/1.0", 2).branch("main", 3);
    assert_eq!(graph.version(&releaseflow(), "main", 3), version("1.1.0-SNAPSHOT.1"));
}

#[test]
fn main_at_a_release_base_is_not_moved_forward() {
    let graph = Graph::line(2).branch("release/1.0", 2).branch("main", 2);
    assert_eq!(graph.version(&releaseflow(), "main", 2), version("1.0.0-SNAPSHOT"));
}

#[test]
fn a_feature_branch_on_the_root_of_its_source() {
    let graph =
        Graph::line(2).branch("main", 2).branch("release/1.0", 2).branch("feature/on-root", 2);
    let solved = graph.version(&releaseflow(), "feature/on-root", 2);
    assert_eq!(solved, version("1.0.0-feat-on-root.0"));
}

#[test]
fn a_fix_branch_one_commit_past_a_release_branch() {
    let graph = Graph::line(3)
        .branch("main", 2)
        .branch("release/1.0", 2)
        .branch("fix/patch-something", 3);
    let solved = graph.version(&releaseflow(), "fix/patch-something", 3);
    assert_eq!(solved, version("1.0.0-fix-patch-something.1"));
}

#[test]
fn a_feature_branch_one_commit_past_main() {
    let graph = Graph::line(1)
        .commit(2, 1)
        .commit(3, 2)
        .branch("main", 2)
        .branch("feature/detached-head", 3);
    let solved = graph.version(&releaseflow(), "feature/detached-head", 3);
    assert_eq!(solved, version("0.1.0-feat-detached-head.1"));
}

#[test]
fn a_feature_branch_off_main_past_a_release() {
    let graph = Graph::line(4)
        .branch("release/1.0", 2)
        .branch("main", 3)
        .branch("feature/depth1", 4);
    let solved = graph.version(&releaseflow(), "feature/depth1", 4);
    assert_eq!(solved, version("1.1.0-feat-depth1.1"));
}

#[test]
fn a_tagged_tip_has_the_version_of_its_tag() {
    let graph = Graph::line(2).branch("main", 2).tag("v1.0.0", 2);
    let solved = graph.version(&releaseflow(), "main", 2);
    assert_eq!(solved, version("1.0.0"));
    assert_eq!(solved.label(), None);
}

#[test]
fn a_commit_past_a_tag_moves_forward() {
    let graph = Graph::line(3).branch("main", 1).branch("release/1.0", 3).tag("v1.0.0", 2);
    let solved = graph.version(&releaseflow(), "release/1.0", 3);
    assert_eq!(solved, version("1.0.1-rc.1"));
}

#[test]
fn a_tag_comes_before_a_branch_point() {
    let graph = Graph::line(2).branch("main", 2).branch("release/1.0", 2).tag("v3.4.5", 2);
    assert_eq!(graph.version(&releaseflow(), "release/1.0", 2), version("3.4.5"));
}

#[test]
fn a_tag_of_no_type_says_nothing() {
    let graph = Graph::line(2).branch("main", 2).tag("nightly", 2).tag("1.0.0", 1);
    assert_eq!(graph.version(&releaseflow(), "main", 2), version("0.1.0-SNAPSHOT.2"));
}

#[test]
fn branches_of_a_tracked_remote_count() {
    let graph = Graph::line(3).remote_branch("origin/release/2.0", 2).branch("main", 3);
    assert_eq!(graph.version(&releaseflow(), "main", 3), version("2.1.0-SNAPSHOT.1"));
    let graph = Graph::line(3).remote_branch("elsewhere/release/2.0", 2).branch("main", 3);
    assert_eq!(graph.version(&releaseflow(), "main", 3), version("0.1.0-SNAPSHOT.3"));
}

#[test]
fn the_chain_is_searched_to_its_end_without_limit() {
    let (solved, asked) = chain_history().solve(&chain(None), "top", 3);
    assert_eq!(solved.unwrap(), version("5.0.0-.1"));
    assert!(asked.iter().any(|q| matches!(q, RepoQuery::Walk { tip } if *tip == id(1))));
}

#[test]
fn the_chain_is_cut_at_depth_one() {
    let (solved, asked) = chain_history().solve(&chain(Some(1)), "top", 3);
    assert_eq!(solved.unwrap(), version("0.0.0-.1"));
    assert!(asked.iter().any(|q| matches!(q, RepoQuery::Walk { tip } if *tip == id(2))));
    assert!(!asked.iter().any(|q| matches!(q, RepoQuery::Walk { tip } if *tip == id(1))));
}

#[test]
fn the_chain_is_cut_at_depth_zero() {
    let (solved, asked) = chain_history().solve(&chain(Some(0)), "top", 3);
    assert_eq!(solved.unwrap(), version("0.0.0-.1"));
    for query in &asked {
        match query {
            RepoQuery::MergeBase { one, .. } => assert_eq!(*one, id(3)),
            RepoQuery::Walk { tip } => assert_eq!(*tip, id(3)),
        }
    }
}

#[test]
fn the_limit_of_the_branch_asked_for_counts() {
    // `mid` sets the limit zero for itself, which says nothing where `top` is asked for.
    let (solved, _) = chain_history().solve(&chain(Some(2)), "top", 3);
    assert_eq!(solved.unwrap(), version("5.0.0-.1"));
    let (solved, _) = chain_history().solve(&chain(None), "mid", 2);
    assert_eq!(solved.unwrap(), version("0.0.0-m.1"));
}

#[test]
fn a_missing_source_type_is_an_error() {
    let cfg = unchecked(RawConfig {
        tracked_remotes: vec![],
        tags: vec![],
        branches: vec![("top".into(), branch_type("^top$", None, None, &["gone"], &[], None, None))],
    });
    let (solved, _) = Graph::line(1).branch("top", 1).solve(&cfg, "top", 1);
    assert!(matches!(solved, Err(VernerError::UnknownBranchType(kind)) if kind == "gone"));
}

#[test]
fn a_missing_followed_type_is_an_error() {
    let cfg = unchecked(RawConfig {
        tracked_remotes: vec![],
        tags: vec![],
        branches: vec![("top".into(), branch_type("^top$", None, None, &[], &["lost"], None, None))],
    });
    let (solved, _) = Graph::line(1).branch("top", 1).solve(&cfg, "top", 1);
    assert!(matches!(solved, Err(VernerError::UnknownBranchType(kind)) if kind == "lost"));
}

/// One branch type, `top`, with the source types and followed types given.
fn lone_type(sources: &[&str], tracks: &[&str]) -> Config {
    unchecked(RawConfig {
        tracked_remotes: vec![],
        tags: vec![("any".into(), RawTagConfig { regex: "^(?<all>.*)$".into(), version: "$all".into() })],
        branches: vec![("top".into(), branch_type("^top$", None, None, sources, tracks, None, None))],
    })
}

fn solve_on(cfg: &Config, references: Vec<RefRecord>) -> Result<Progress<SemVersion>, VernerError> {
    let repo = Repo { references, merge_bases: vec![], walks: vec![] };
    solve(cfg, &repo, cfg.try_match_branch("top", &id(1)).unwrap().unwrap())
}

#[test]
fn a_missing_source_type_is_an_error_without_any_reference() {
    let solved = solve_on(&lone_type(&["gone"], &[]), vec![]);
    assert!(matches!(solved, Err(VernerError::UnknownBranchType(kind)) if kind == "gone"));
}

#[test]
fn a_missing_followed_type_is_an_error_without_any_reference() {
    let solved = solve_on(&lone_type(&[], &["lost"]), vec![]);
    assert!(matches!(solved, Err(VernerError::UnknownBranchType(kind)) if kind == "lost"));
}

#[test]
fn a_missing_type_is_an_error_where_there_are_only_tags() {
    let tags = Graph::line(1).tag("1.2.3", 1).references();
    let solved = solve_on(&lone_type(&["top", "gone"], &[]), tags);
    assert!(matches!(solved, Err(VernerError::UnknownBranchType(kind)) if kind == "gone"));
    let tags = Graph::line(1).tag("1.2.3", 1).references();
    let solved = solve_on(&lone_type(&[], &["top", "lost"]), tags);
    assert!(matches!(solved, Err(VernerError::UnknownBranchType(kind)) if kind == "lost"));
}

#[test]
fn a_missing_type_is_met_before_anything_is_read() {
    // The tag gives no version, which is an error too, but a later one.
    let references = Graph::line(1).tag("nightly", 1).branch("top", 1).references();
    let solved = solve_on(&lone_type(&[], &["lost"]), references);
    assert!(matches!(solved, Err(VernerError::UnknownBranchType(kind)) if kind == "lost"));
    let references = Graph::line(1).tag("nightly", 1).branch("top", 1).references();
    let solved = solve_on(&lone_type(&[], &[]), references);
    assert!(matches!(solved, Err(VernerError::InvalidVersion(text)) if text == "nightly"));
}

#[test]
fn a_missing_source_type_is_named_before_a_missing_followed_type() {
    let solved = solve_on(&lone_type(&["top", "gone", "away"], &["lost"]), vec![]);
    assert!(matches!(solved, Err(VernerError::UnknownBranchType(kind)) if kind == "gone"));
}

#[test]
fn no_solver_is_made_for_a_type_with_a_missing_name() {
    let cfg = lone_type(&["gone"], &[]);
    let repo = Repo { references: vec![], merge_bases: vec![], walks: vec![] };
    let branch = cfg.try_match_branch("top", &id(1)).unwrap().unwrap();
    let ctx = BranchSolveContext { depth: 0, max_depth: 0 };
    let made = BranchSolver::new(ctx, &cfg, &repo, branch);
    assert!(matches!(made, Err(VernerError::UnknownBranchType(kind)) if kind == "gone"));
}

#[test]
fn a_type_whose_names_are_all_known_is_solved_without_any_reference() {
    let repo = Repo {
        references: vec![],
        merge_bases: vec![],
        walks: vec![WalkFact { tip: id(1), commits: vec![id(1)] }],
    };
    let cfg = lone_type(&["top"], &["top"]);
    let branch = cfg.try_match_branch("top", &id(1)).unwrap().unwrap();
    assert!(matches!(solve(&cfg, &repo, branch), Ok(Progress::Done(v)) if v == version("0.0.0-.1")));
}

#[test]
fn a_missing_name_of_a_source_type_is_met_where_that_source_is_searched() {
    let rules = |max_depth: Option<u32>| {
        unchecked(RawConfig {
            tracked_remotes: vec![],
            tags: vec![],
            branches: vec![
                ("top".into(), branch_type("^top$", None, None, &["mid"], &[], None, max_depth)),
                ("mid".into(), branch_type("^mid$", None, None, &["gone"], &[], None, None)),
            ],
        })
    };
    let history = || Graph::line(2).branch("mid", 1).branch("top", 2);
    let (solved, _) = history().solve(&rules(None), "top", 2);
    assert!(matches!(solved, Err(VernerError::UnknownBranchType(kind)) if kind == "gone"));
    // At depth zero no solver is made for `mid`, and its names are not read.
    let (solved, _) = history().solve(&rules(Some(0)), "top", 2);
    assert_eq!(solved.unwrap(), version("0.0.0-.1"));
}

#[test]
fn a_tag_that_gives_no_version_is_an_error() {
    let cfg = RawConfig {
        tracked_remotes: vec![],
        tags: vec![("any".into(), RawTagConfig { regex: "^(?<all>.*)$".into(), version: "$all".into() })],
        branches: vec![("top".into(), branch_type("^top$", None, None, &[], &[], None, None))],
    }
    .parse()
    .unwrap();
    let (solved, _) = Graph::line(1).branch("top", 1).tag("nightly", 1).solve(&cfg, "top", 1);
    assert!(matches!(solved, Err(VernerError::InvalidVersion(text)) if text == "nightly"));
}

#[test]
fn a_build_counter_that_overflows_is_an_error() {
    let cfg = RawConfig {
        tracked_remotes: vec![],
        tags: vec![],
        branches: vec![(
            "top".into(),
            branch_type("^top$", None, Some("1.0.0-x.4294967295"), &[], &[], None, None),
        )],
    }
    .parse()
    .unwrap();
    let (solved, _) = Graph::line(1).branch("top", 1).solve(&cfg, "top", 1);
    assert!(matches!(solved, Err(VernerError::VersionOverflow)));
}

#[test]
fn the_solver_names_what_it_needs() {
    let cfg = releaseflow();
    let graph = Graph::line(3).branch("release/1.0", 2).branch("main", 3);
    let mut repo = Repo { references: graph.references(), merge_bases: vec![], walks: vec![] };
    let branch = || cfg.try_match_branch("main", &id(3)).unwrap().unwrap();
    match solve(&cfg, &repo, branch()) {
        Ok(Progress::Needs(RepoQuery::MergeBase { one, two })) => {
            assert_eq!(one, id(3));
            assert_eq!(two, id(2));
        }
        other => panic!("unexpected: {other:?}"),
    }
    repo.merge_bases.push(MergeBaseFact { one: id(3), two: id(2), base: id(2) });
    match solve(&cfg, &repo, branch()) {
        Ok(Progress::Needs(RepoQuery::Walk { tip })) => assert_eq!(tip, id(3)),
        other => panic!("unexpected: {other:?}"),
    }
    repo.walks.push(WalkFact { tip: id(3), commits: vec![id(3), id(2), id(1)] });
    match solve(&cfg, &repo, branch()) {
        Ok(Progress::Done(solved)) => assert_eq!(solved, version("1.1.0-SNAPSHOT.1")),
        other => panic!("unexpected: {other:?}"),
    }
}

#[test]
fn facts_about_other_commits_change_nothing() {
    let cfg = releaseflow();
    let graph = Graph::line(3).branch("release/1.0", 2).branch("main", 3);
    let repo = Repo {
        references: graph.references(),
        merge_bases: vec![
            MergeBaseFact { one: id(9), two: id(2), base: id(1) },
            MergeBaseFact { one: id(3), two: id(2), base: id(2) },
            MergeBaseFact { one: id(3), two: id(2), base: id(1) },
        ],
        walks: vec![
            WalkFact { tip: id(2), commits: vec![id(2), id(1)] },
            WalkFact { tip: id(3), commits: vec![id(3), id(2), id(1)] },
        ],
    };
    let branch = cfg.try_match_branch("main", &id(3)).unwrap().unwrap();
    assert!(matches!(solve(&cfg, &repo, branch), Ok(Progress::Done(v)) if v == version("1.1.0-SNAPSHOT.1")));
}

#[test]
fn a_solver_classifies_commits() {
    let cfg = releaseflow();
    let graph = Graph::line(4).branch("main", 2).branch("release/1.0", 4).tag("v1.0.0", 3);
    let mut repo = Repo { references: graph.references(), merge_bases: vec![], walks: vec![] };
    for target in [2, 4] {
        repo.merge_bases.push(MergeBaseFact {
            one: id(4),
            two: id(target),
            base: id(graph.merge_base(4, target)),
        });
    }
    let branch = cfg.try_match_branch("release/1.0", &id(4)).unwrap().unwrap();
    let ctx = BranchSolveContext { depth: 0, max_depth: 3 };
    let solver = match BranchSolver::new(ctx, &cfg, &repo, branch) {
        Ok(Progress::Done(solver)) => solver,
        other => panic!("unexpected: {other:?}"),
    };
    assert!(matches!(solver.solve_inc_for_commit(&id(4)), VersionInc::Inc(SemVersionInc::Build(1))));
    assert!(matches!(solver.solve_inc_for_commit(&id(3)), VersionInc::Fixed(v) if v == version("1.0.0")));
    assert!(matches!(solver.solve_inc_for_commit(&id(2)), VersionInc::HardBasis(v) if v == version("1.0.0-rc")));
    assert!(matches!(solver.solve_inc_for_commit(&id(1)), VersionInc::Inc(SemVersionInc::Build(1))));
    assert!(matches!(solver.solve(&repo), Ok(Progress::Needs(RepoQuery::Walk { tip })) if tip == id(4)));
}

#[test]
fn try_descend_stops_at_the_greatest_depth() {
    let ctx = BranchSolveContext { depth: 0, max_depth: 2 };
    let one = ctx.try_descend().unwrap();
    assert_eq!((one.depth, one.max_depth), (1, 2));
    let two = one.try_descend().unwrap();
    assert_eq!((two.depth, two.max_depth), (2, 2));
    assert!(two.try_descend().is_none());
    assert!(BranchSolveContext { depth: 0, max_depth: 0 }.try_descend().is_none());
    let deep = BranchSolveContext { depth: u32::MAX - 1, max_depth: u32::MAX };
    assert_eq!(deep.try_descend().unwrap().depth, u32::MAX);
}

fn written(types: Vec<(&str, RawBranchConfig)>) -> RawConfig {
    RawConfig {
        tracked_remotes: vec![],
        tags: vec![],
        branches: types.into_iter().map(|(kind, branch)| (kind.to_string(), branch)).collect(),
    }
}

#[test]
fn a_description_with_a_missing_source_type_is_no_configuration() {
    let raw = written(vec![("top", branch_type("^top$", None, None, &["top", "gone"], &[], None, None))]);
    assert!(matches!(raw.parse(), Err(VernerError::UnknownBranchType(kind)) if kind == "gone"));
}

#[test]
fn a_description_with_a_missing_followed_type_is_no_configuration() {
    let raw = written(vec![
        ("top", branch_type("^top$", None, None, &["low"], &[], None, None)),
        ("low", branch_type("^low$", None, None, &[], &["top", "lost"], None, None)),
    ]);
    assert!(matches!(raw.parse(), Err(VernerError::UnknownBranchType(kind)) if kind == "lost"));
}

#[test]
fn the_first_missing_name_of_a_description_is_named() {
    let raw = written(vec![
        ("top", branch_type("^top$", None, None, &["low", "one"], &["two"], None, None)),
        ("low", branch_type("^low$", None, None, &["three"], &[], None, None)),
    ]);
    assert!(matches!(raw.parse(), Err(VernerError::UnknownBranchType(kind)) if kind == "one"));
    let raw = written(vec![
        ("top", branch_type("^top$", None, None, &["low"], &["two"], None, None)),
        ("low", branch_type("^low$", None, None, &["three"], &[], None, None)),
    ]);
    assert!(matches!(raw.parse(), Err(VernerError::UnknownBranchType(kind)) if kind == "two"));
}

#[test]
fn a_pattern_that_is_none_is_named_before_a_missing_type() {
    let raw = written(vec![
        ("top", branch_type("^top$", None, None, &["gone"], &[], None, None)),
        ("low", branch_type("(low", None, None, &[], &[], None, None)),
    ]);
    assert!(matches!(raw.parse(), Err(VernerError::InvalidPattern(pattern)) if pattern == "(low"));
}

#[test]
fn a_type_may_be_named_before_it_is_written() {
    let raw = written(vec![
        ("top", branch_type("^top$", None, None, &["low"], &["top"], None, None)),
        ("low", branch_type("^low$", None, None, &[], &[], None, None)),
    ]);
    assert_eq!(raw.parse().unwrap().branches.len(), 2);
    assert_eq!(releaseflow().branches.len(), 4);
}
