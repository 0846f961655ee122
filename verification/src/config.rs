//! The rules by which branches and tags are read: which names belong to
//! which type, and what label and what version a name of that type gives.

use crate::commit::CommitId;
use crate::error::{outcome_view, VernerError, VernerErrorView};
use crate::notation::{format_spec, parse_spec};
use crate::pattern::{compiles, expand, expansion, is_match, pattern_is_valid, pattern_matches};
use crate::semver::{SemVersion, SemVersionInc, SemVersionView};
use crate::template::{substitute_commit, with_commit};
use crate::text::{chars_of, starts_with, str_eq, strip_prefix};
use vstd::prelude::*;
use vstd::string::*;

verus! {

/// A branch type as the configuration writes it.
#[derive(Debug)]
pub struct RawBranchConfig {
    /// The pattern that the short names of the branches of this type match.
    pub regex: String,
    /// The template of the label that versions on such a branch carry.
    pub label: Option<String>,
    /// The template of the version that such a branch starts from.
    pub base_version: Option<String>,
    /// The types of the branches whose versions drive this one.
    pub tracks: Vec<String>,
    /// The types of the branches that this one may have been cut from.
    pub sources: Vec<String>,
    /// The step from a settled version to the next one on this branch.
    pub v_next: Option<SemVersionInc>,
    /// How many source branches deep the search may go.
    pub max_depth: Option<u32>,
}

/// The mathematical value of a [`RawBranchConfig`].
pub struct RawBranchConfigView {
    pub regex: Seq<char>,
    pub label: Option<Seq<char>>,
    pub base_version: Option<Seq<char>>,
    pub tracks: Seq<Seq<char>>,
    pub sources: Seq<Seq<char>>,
    pub v_next: Option<SemVersionInc>,
    pub max_depth: Option<u32>,
}

impl DeepView for RawBranchConfig {
    type V = RawBranchConfigView;

    open spec fn deep_view(&self) -> RawBranchConfigView {
        RawBranchConfigView {
            regex: self.regex@,
            label: self.label.deep_view(),
            base_version: self.base_version.deep_view(),
            tracks: self.tracks.deep_view(),
            sources: self.sources.deep_view(),
            v_next: self.v_next,
            max_depth: self.max_depth,
        }
    }
}

/// A tag type as the configuration writes it.
#[derive(Debug)]
pub struct RawTagConfig {
    /// The pattern that the names of the tags of this type match.
    pub regex: String,
    /// The template of the version that such a tag gives its commit.
    pub version: String,
}

/// The mathematical value of a [`RawTagConfig`].
pub struct RawTagConfigView {
    pub regex: Seq<char>,
    pub version: Seq<char>,
}

impl DeepView for RawTagConfig {
    type V = RawTagConfigView;

    open spec fn deep_view(&self) -> RawTagConfigView {
        RawTagConfigView { regex: self.regex@, version: self.version@ }
    }
}

/// A configuration as it is written: tag and branch types under their
/// names, in the order in which they are tried.
#[derive(Debug)]
pub struct RawConfig {
    /// The remotes whose branches count, in the order in which their names
    /// are tried.
    pub tracked_remotes: Vec<String>,
    /// The tag types, each under its name.
    pub tags: Vec<(String, RawTagConfig)>,
    /// The branch types, each under its name.
    pub branches: Vec<(String, RawBranchConfig)>,
}

/// The mathematical value of a [`RawConfig`].
pub struct RawConfigView {
    pub tracked_remotes: Seq<Seq<char>>,
    pub tags: Seq<(Seq<char>, RawTagConfigView)>,
    pub branches: Seq<(Seq<char>, RawBranchConfigView)>,
}

impl DeepView for RawConfig {
    type V = RawConfigView;

    open spec fn deep_view(&self) -> RawConfigView {
        RawConfigView {
            tracked_remotes: self.tracked_remotes.deep_view(),
            tags: self.tags.deep_view(),
            branches: self.branches.deep_view(),
        }
    }
}

/// A branch type whose pattern was found valid.
#[derive(Debug)]
pub struct BranchConfig {
    kind: String,
    raw: RawBranchConfig,
}

/// The mathematical value of a [`BranchConfig`].
pub struct BranchConfigView {
    pub kind: Seq<char>,
    pub raw: RawBranchConfigView,
}

impl DeepView for BranchConfig {
    type V = BranchConfigView;

    closed spec fn deep_view(&self) -> BranchConfigView {
        BranchConfigView { kind: self.kind@, raw: self.raw.deep_view() }
    }
}

/// A tag type whose pattern was found valid.
#[derive(Debug)]
pub struct TagConfig {
    kind: String,
    raw: RawTagConfig,
}

/// The mathematical value of a [`TagConfig`].
pub struct TagConfigView {
    pub kind: Seq<char>,
    pub raw: RawTagConfigView,
}

impl DeepView for TagConfig {
    type V = TagConfigView;

    closed spec fn deep_view(&self) -> TagConfigView {
        TagConfigView { kind: self.kind@, raw: self.raw.deep_view() }
    }
}

/// A configuration whose patterns were all found valid.
#[derive(Debug)]
pub struct Config {
    /// The remotes whose branches count.
    pub tracked_remotes: Vec<String>,
    /// The tag types, in the order in which they are tried.
    pub tags: Vec<TagConfig>,
    /// The branch types, in the order in which they are tried.
    pub branches: Vec<BranchConfig>,
}

/// The mathematical value of a [`Config`].
pub struct ConfigView {
    pub tracked_remotes: Seq<Seq<char>>,
    pub tags: Seq<TagConfigView>,
    pub branches: Seq<BranchConfigView>,
}

impl DeepView for Config {
    type V = ConfigView;

    open spec fn deep_view(&self) -> ConfigView {
        ConfigView {
            tracked_remotes: self.tracked_remotes.deep_view(),
            tags: self.tags.deep_view(),
            branches: self.branches.deep_view(),
        }
    }
}

/// The tag types that the written configuration `raw` describes, in its
/// order.
pub open spec fn tag_types(raw: RawConfigView) -> Seq<TagConfigView> {
    Seq::new(raw.tags.len(), |i: int| TagConfigView { kind: raw.tags[i].0, raw: raw.tags[i].1 })
}

/// The branch types that the written configuration `raw` describes, in its
/// order.
pub open spec fn branch_types(raw: RawConfigView) -> Seq<BranchConfigView> {
    Seq::new(
        raw.branches.len(),
        |i: int| BranchConfigView { kind: raw.branches[i].0, raw: raw.branches[i].1 },
    )
}

/// The first of `patterns` that is no regular expression.
pub open spec fn first_invalid(patterns: Seq<Seq<char>>) -> Option<Seq<char>>
    decreases patterns.len(),
{
    if patterns.len() == 0 {
        None
    } else if !pattern_is_valid(patterns[0]) {
        Some(patterns[0])
    } else {
        first_invalid(patterns.drop_first())
    }
}

/// The patterns of the written configuration `raw`: those of its tag types,
/// then those of its branch types.
pub open spec fn patterns_of(raw: RawConfigView) -> Seq<Seq<char>> {
    Seq::new(raw.tags.len(), |i: int| raw.tags[i].1.regex) + Seq::new(
        raw.branches.len(),
        |i: int| raw.branches[i].1.regex,
    )
}

/// The first of the names `kinds` that no type among `branches` has.
pub open spec fn first_unknown(branches: Seq<BranchConfigView>, kinds: Seq<Seq<char>>) -> Option<
    Seq<char>,
>
    decreases kinds.len(),
{
    if kinds.len() == 0 {
        None
    } else if first_of_kind(branches, kinds[0]) is None {
        Some(kinds[0])
    } else {
        first_unknown(branches, kinds.drop_first())
    }
}

/// The first type name that the branch type `raw` refers to and that no
/// type among `branches` has: the first such among its source types, or
/// else among the types that it follows.
pub open spec fn unknown_name(branches: Seq<BranchConfigView>, raw: RawBranchConfigView) -> Option<
    Seq<char>,
> {
    match first_unknown(branches, raw.sources) {
        Some(kind) => Some(kind),
        None => first_unknown(branches, raw.tracks),
    }
}

/// The first type name that one of `types` refers to and that no type among
/// `branches` has, the types taken in their order.
pub open spec fn first_dangling(branches: Seq<BranchConfigView>, types: Seq<BranchConfigView>)
    -> Option<Seq<char>>
    decreases types.len(),
{
    if types.len() == 0 {
        None
    } else {
        match unknown_name(branches, types[0].raw) {
            Some(kind) => Some(kind),
            None => first_dangling(branches, types.drop_first()),
        }
    }
}

/// The configuration that the written configuration `raw` describes, or the
/// error that says what is wrong with it: its first pattern that is no
/// regular expression; or, where every pattern is one, the first name of a
/// source type or followed type that none of its branch types has.
pub open spec fn parsed(raw: RawConfigView) -> Result<ConfigView, VernerErrorView> {
    match first_invalid(patterns_of(raw)) {
        Some(pattern) => Err(VernerErrorView::InvalidPattern(pattern)),
        None => match first_dangling(branch_types(raw), branch_types(raw)) {
            Some(kind) => Err(VernerErrorView::UnknownBranchType(kind)),
            None => Ok(
                ConfigView {
                    tracked_remotes: raw.tracked_remotes,
                    tags: tag_types(raw),
                    branches: branch_types(raw),
                },
            ),
        },
    }
}

/// Where the first `k` of `patterns` are valid, the first that is not is the
/// first that is not among the rest.
pub proof fn lemma_first_invalid_after(patterns: Seq<Seq<char>>, k: int)
    requires
        0 <= k <= patterns.len(),
        forall|j: int| 0 <= j < k ==> pattern_is_valid(#[trigger] patterns[j]),
    ensures
        first_invalid(patterns) == first_invalid(patterns.skip(k)),
    decreases k,
{
    if k == 0 {
        assert(patterns.skip(0) =~= patterns);
    } else {
        assert(pattern_is_valid(patterns[0]));
        let rest = patterns.drop_first();
        assert forall|j: int| 0 <= j < k - 1 implies pattern_is_valid(#[trigger] rest[j]) by {
            assert(rest[j] == patterns[j + 1]);
        }
        lemma_first_invalid_after(rest, k - 1);
        assert(rest.skip(k - 1) =~= patterns.skip(k));
    }
}

/// What `first_unknown` finds: nothing, exactly where each of `kinds` is the
/// name of a type; else one of `kinds` that is the name of none.
pub proof fn lemma_first_unknown(branches: Seq<BranchConfigView>, kinds: Seq<Seq<char>>)
    ensures
        first_unknown(branches, kinds) is None <==> forall|i: int|
            0 <= i < kinds.len() ==> first_of_kind(branches, #[trigger] kinds[i]) is Some,
        first_unknown(branches, kinds) matches Some(kind) ==> kinds.contains(kind) && first_of_kind(
            branches,
            kind,
        ) is None,
    decreases kinds.len(),
{
    if kinds.len() > 0 {
        let rest = kinds.drop_first();
        lemma_first_unknown(branches, rest);
        assert(forall|i: int| 0 <= i < rest.len() ==> rest[i] == kinds[i + 1]);
        if first_of_kind(branches, kinds[0]) is Some {
            if first_unknown(branches, rest) is None {
                assert forall|i: int| 0 <= i < kinds.len() implies first_of_kind(
                    branches,
                    #[trigger] kinds[i],
                ) is Some by {
                    if i > 0 {
                        assert(kinds[i] == rest[i - 1]);
                    }
                }
            } else {
                let kind = first_unknown(branches, rest)->Some_0;
                let i = choose|i: int| 0 <= i < rest.len() && rest[i] == kind;
                assert(kinds[i + 1] == kind);
            }
        } else {
            assert(kinds.contains(kinds[0]));
        }
    }
}

/// A name that no type has, with only names of types before it, is the
/// first unknown name.
pub proof fn lemma_first_unknown_is(branches: Seq<BranchConfigView>, kinds: Seq<Seq<char>>, k: int)
    requires
        0 <= k < kinds.len(),
        first_of_kind(branches, kinds[k]) is None,
        forall|j: int| 0 <= j < k ==> first_of_kind(branches, #[trigger] kinds[j]) is Some,
    ensures
        first_unknown(branches, kinds) == Some(kinds[k]),
    decreases k,
{
    if k > 0 {
        let rest = kinds.drop_first();
        assert(first_of_kind(branches, kinds[0]) is Some);
        assert(forall|j: int| 0 <= j < rest.len() ==> rest[j] == kinds[j + 1]);
        lemma_first_unknown_is(branches, rest, k - 1);
    }
}

/// What `first_dangling` finds: nothing, exactly where none of `types`
/// names a type that `branches` does not have.
pub proof fn lemma_first_dangling(branches: Seq<BranchConfigView>, types: Seq<BranchConfigView>)
    ensures
        first_dangling(branches, types) is None <==> forall|i: int|
            0 <= i < types.len() ==> unknown_name(branches, (#[trigger] types[i]).raw) is None,
    decreases types.len(),
{
    if types.len() > 0 {
        let rest = types.drop_first();
        lemma_first_dangling(branches, rest);
        assert(forall|i: int| 0 <= i < rest.len() ==> rest[i] == types[i + 1]);
        if first_dangling(branches, types) is None {
            assert forall|i: int| 0 <= i < types.len() implies unknown_name(
                branches,
                (#[trigger] types[i]).raw,
            ) is None by {
                if i > 0 {
                    assert(types[i] == rest[i - 1]);
                }
            }
        }
    }
}

/// A configuration that was made of its description has every type that
/// its branch types name: each source type and each followed type of each
/// of them is the name of a branch type.
pub proof fn lemma_parsed_names_are_known(raw: RawConfigView, i: int, name: Seq<char>)
    requires
        parsed(raw) is Ok,
        0 <= i < raw.branches.len(),
        raw.branches[i].1.sources.contains(name) || raw.branches[i].1.tracks.contains(name),
    ensures
        first_of_kind(parsed(raw)->Ok_0.branches, name) is Some,
{
    let branches = branch_types(raw);
    lemma_first_dangling(branches, branches);
    assert(unknown_name(branches, branches[i].raw) is None);
    lemma_first_unknown(branches, raw.branches[i].1.sources);
    lemma_first_unknown(branches, raw.branches[i].1.tracks);
}

impl RawConfig {
    /// Makes a configuration of this description. Fails where a pattern is
    /// no regular expression, with the first such pattern, those of the tag
    /// types coming before those of the branch types. Where every pattern
    /// is one, fails where a branch type names a source type or a followed
    /// type that the description does not have, with the first such name.
    pub fn parse(self) -> (r: Result<Config, VernerError>)
        ensures
            outcome_view(r) == parsed(self.deep_view()),
    {
        let ghost raw = self.deep_view();
        let ghost patterns = patterns_of(raw);
        let ghost tag_count = raw.tags.len() as int;
        let ghost written_tags = self.tags@;
        let ghost written_branches = self.branches@;
        let mut tags: Vec<TagConfig> = Vec::new();
        for entry in it: self.tags.into_iter()
            invariant
                raw == self.deep_view(),
                it.seq() == written_tags,
                written_tags.len() == raw.tags.len(),
                forall|j: int|
                    0 <= j < written_tags.len() ==> #[trigger] written_tags[j].deep_view()
                        == raw.tags[j],
                patterns == patterns_of(raw),
                tags.len() == it.index(),
                forall|j: int| 0 <= j < tags.len() ==> #[trigger] tags@[j].deep_view() == tag_types(
                    raw,
                )[j],
                forall|j: int| 0 <= j < it.index() ==> pattern_is_valid(#[trigger] patterns[j])
        {
            let ghost k = it.index() as int;
            proof {
                assert(written_tags[k].deep_view() == raw.tags[k]);
                assert(patterns[k] == raw.tags[k].1.regex);
                lemma_first_invalid_after(patterns, k);
                assert(patterns.skip(k)[0] == patterns[k]);
            }
            let (kind, tag) = entry;
            match tag.parse(kind.as_str()) {
                Ok(config) => {
                    tags.push(config);
                },
                Err(error) => {
                    return Err(error);
                },
            }
        }
        let mut branches: Vec<BranchConfig> = Vec::new();
        for entry in it: self.branches.into_iter()
            invariant
                raw == self.deep_view(),
                it.seq() == written_branches,
                written_branches.len() == raw.branches.len(),
                forall|j: int|
                    0 <= j < written_branches.len() ==> #[trigger] written_branches[j].deep_view()
                        == raw.branches[j],
                patterns == patterns_of(raw),
                tag_count == raw.tags.len(),
                branches.len() == it.index(),
                forall|j: int|
                    0 <= j < branches.len() ==> #[trigger] branches@[j].deep_view() == branch_types(
                        raw,
                    )[j],
                forall|j: int|
                    0 <= j < tag_count + it.index() ==> pattern_is_valid(#[trigger] patterns[j])
        {
            let ghost k = it.index() as int;
            proof {
                assert(written_branches[k].deep_view() == raw.branches[k]);
                assert(patterns[tag_count + k] == raw.branches[k].1.regex);
                lemma_first_invalid_after(patterns, tag_count + k);
                assert(patterns.skip(tag_count + k)[0] == patterns[tag_count + k]);
            }
            let (kind, branch) = entry;
            match branch.parse(kind) {
                Ok(config) => {
                    branches.push(config);
                },
                Err(error) => {
                    return Err(error);
                },
            }
        }
        proof {
            lemma_first_invalid_after(patterns, patterns.len() as int);
            assert(patterns.skip(patterns.len() as int) =~= Seq::<Seq<char>>::empty());
            assert(tags.deep_view() =~= tag_types(raw));
            assert(branches.deep_view() =~= branch_types(raw));
        }
        let config = Config { tracked_remotes: self.tracked_remotes, tags, branches };
        let ghost all = branch_types(raw);
        let mut i: usize = 0;
        assert(all.skip(0) =~= all);
        while i < config.branches.len()
            invariant
                i <= config.branches.len(),
                raw == self.deep_view(),
                first_invalid(patterns_of(raw)) is None,
                all == branch_types(raw),
                config.deep_view() == (ConfigView {
                    tracked_remotes: raw.tracked_remotes,
                    tags: tag_types(raw),
                    branches: all,
                }),
                first_dangling(all, all) == first_dangling(all, all.skip(i as int)),
            decreases config.branches.len() - i,
        {
            proof {
                assert(all.skip(i as int).drop_first() =~= all.skip(i + 1));
                assert(all.skip(i as int)[0] == config.branches@[i as int].deep_view());
            }
            match config.unknown_name(&config.branches[i]) {
                Some(kind) => {
                    return Err(VernerError::UnknownBranchType(kind));
                },
                None => {},
            }
            i = i + 1;
        }
        Ok(config)
    }
}

impl RawBranchConfig {
    /// Makes a branch type of this description, under the name `kind`.
    /// Fails where the pattern is no regular expression.
    pub fn parse(self, kind: String) -> (r: Result<BranchConfig, VernerError>)
        ensures
            r is Ok <==> pattern_is_valid(self.regex@),
            r matches Ok(config) ==> config.deep_view() == (BranchConfigView {
                kind: kind@,
                raw: self.deep_view(),
            }),
            r matches Err(e) ==> e.deep_view() == VernerErrorView::InvalidPattern(self.regex@),
    {
        if compiles(self.regex.as_str()) {
            Ok(BranchConfig { kind, raw: self })
        } else {
            Err(VernerError::InvalidPattern(self.regex))
        }
    }
}

impl RawTagConfig {
    /// Makes a tag type of this description, under the name `kind`.
    /// Fails where the pattern is no regular expression.
    pub fn parse(self, kind: &str) -> (r: Result<TagConfig, VernerError>)
        ensures
            r is Ok <==> pattern_is_valid(self.regex@),
            r matches Ok(config) ==> config.deep_view() == (TagConfigView {
                kind: kind@,
                raw: self.deep_view(),
            }),
            r matches Err(e) ==> e.deep_view() == VernerErrorView::InvalidPattern(self.regex@),
    {
        if compiles(self.regex.as_str()) {
            Ok(TagConfig { kind: kind.to_owned(), raw: self })
        } else {
            Err(VernerError::InvalidPattern(self.regex))
        }
    }
}

impl BranchConfig {
    /// The description that this type was made of.
    pub fn raw(&self) -> (r: &RawBranchConfig)
        ensures
            r.deep_view() == self.deep_view().raw,
    {
        &self.raw
    }

    /// The pattern of this type.
    pub fn regex(&self) -> (r: &str)
        ensures
            r@ == self.deep_view().raw.regex,
    {
        self.raw.regex.as_str()
    }

    /// The name of this type.
    pub fn kind(&self) -> (r: &str)
        ensures
            r@ == self.deep_view().kind,
    {
        self.kind.as_str()
    }
}

impl TagConfig {
    /// The description that this type was made of.
    pub fn raw(&self) -> (r: &RawTagConfig)
        ensures
            r.deep_view() == self.deep_view().raw,
    {
        &self.raw
    }

    /// The name of this type.
    pub fn kind(&self) -> (r: &str)
        ensures
            r@ == self.deep_view().kind,
    {
        self.kind.as_str()
    }
}

/// A branch that was found to be of a type: the type, and what its
/// templates gave for the branch.
#[derive(Debug)]
pub struct BranchMatch<'a> {
    config: &'a BranchConfig,
    tag: Option<String>,
    tip: CommitId,
    base_version: Option<SemVersion>,
}

/// The mathematical value of a [`BranchMatch`].
pub struct BranchMatchView {
    /// The type of the branch.
    pub config: BranchConfigView,
    /// The label of the branch: what the label template expanded to.
    pub tag: Option<Seq<char>>,
    /// The commit at which the branch is looked at.
    pub tip: Seq<char>,
    /// The version that the branch starts from, with the label of the
    /// branch where it has one.
    pub base_version: Option<SemVersionView>,
}

impl<'a> DeepView for BranchMatch<'a> {
    type V = BranchMatchView;

    closed spec fn deep_view(&self) -> BranchMatchView {
        BranchMatchView {
            config: self.config.deep_view(),
            tag: self.tag.deep_view(),
            tip: self.tip@,
            base_version: self.base_version.deep_view(),
        }
    }
}

/// A tag that was found to be of a type: the type and the version that the
/// tag gives its commit.
#[derive(Debug)]
pub struct TagMatch<'a> {
    config: &'a TagConfig,
    tag: String,
    version: SemVersion,
}

/// The mathematical value of a [`TagMatch`].
pub struct TagMatchView {
    /// The type of the tag.
    pub config: TagConfigView,
    /// The name of the tag.
    pub tag: Seq<char>,
    /// The version that the tag gives its commit.
    pub version: SemVersionView,
}

impl<'a> DeepView for TagMatch<'a> {
    type V = TagMatchView;

    closed spec fn deep_view(&self) -> TagMatchView {
        TagMatchView { config: self.config.deep_view(), tag: self.tag@, version: self.version@ }
    }
}

/// The label of the branch `name` of type `config` at the commit `tip`: the
/// label template, with the commit filled in, expanded by the groups that
/// the pattern captured in `name`.
pub open spec fn branch_label(config: BranchConfigView, name: Seq<char>, tip: Seq<char>) -> Option<
    Seq<char>,
> {
    match config.raw.label {
        Some(template) => Some(expansion(config.raw.regex, name, with_commit(template, tip))),
        None => None,
    }
}

/// The text of the version that the branch `name` of type `config` starts
/// from: the template of the base version, expanded by the groups that the
/// pattern captured in `name`.
pub open spec fn branch_base_text(config: BranchConfigView, name: Seq<char>) -> Option<Seq<char>> {
    match config.raw.base_version {
        Some(template) => Some(expansion(config.raw.regex, name, template)),
        None => None,
    }
}

/// `version` under the label `label`, where there is one, and as it is
/// where there is none.
pub open spec fn labelled(version: SemVersionView, label: Option<Seq<char>>) -> SemVersionView {
    match label {
        Some(text) => version.with_label(Some(text)),
        None => version,
    }
}

/// The match of a branch of type `config`, looked at at `tip`, whose label
/// template gave `label` and whose base version template gave `base_text`:
/// an error where `base_text` is no version; else the match, with the base
/// version under the label of the branch.
pub open spec fn assembled_branch(
    config: BranchConfigView,
    tip: Seq<char>,
    label: Option<Seq<char>>,
    base_text: Option<Seq<char>>,
) -> Result<BranchMatchView, VernerErrorView> {
    match base_text {
        Some(text) => match parse_spec(text) {
            Some(version) => Ok(
                BranchMatchView {
                    config,
                    tag: label,
                    tip,
                    base_version: Some(labelled(version, label)),
                },
            ),
            None => Err(VernerErrorView::InvalidVersion(text)),
        },
        None => Ok(BranchMatchView { config, tag: label, tip, base_version: None }),
    }
}

/// What trying the branch `name` at commit `tip` against the type `config`
/// gives: nothing where the pattern does not match; an error where the base
/// version expands to a text that is no version; else the match.
pub open spec fn branch_match(config: BranchConfigView, name: Seq<char>, tip: Seq<char>) -> Result<
    Option<BranchMatchView>,
    VernerErrorView,
> {
    if !pattern_matches(config.raw.regex, name) {
        Ok(None)
    } else {
        match assembled_branch(
            config,
            tip,
            branch_label(config, name, tip),
            branch_base_text(config, name),
        ) {
            Ok(found) => Ok(Some(found)),
            Err(error) => Err(error),
        }
    }
}

/// The match of the tag `tag` of type `config` whose version template gave
/// `text`: an error where `text` is no version; else the match.
pub open spec fn assembled_tag(config: TagConfigView, tag: Seq<char>, text: Seq<char>) -> Result<
    TagMatchView,
    VernerErrorView,
> {
    match parse_spec(text) {
        Some(version) => Ok(TagMatchView { config, tag, version }),
        None => Err(VernerErrorView::InvalidVersion(text)),
    }
}

/// What trying the tag `tag` on commit `id` against the type `config`
/// gives: nothing where the pattern does not match; an error where the
/// version template, with the commit filled in, expands to a text that is no
/// version; else the match.
pub open spec fn tag_match(config: TagConfigView, tag: Seq<char>, id: Seq<char>) -> Result<
    Option<TagMatchView>,
    VernerErrorView,
> {
    if !pattern_matches(config.raw.regex, tag) {
        Ok(None)
    } else {
        match assembled_tag(
            config,
            tag,
            expansion(config.raw.regex, tag, with_commit(config.raw.version, id)),
        ) {
            Ok(found) => Ok(Some(found)),
            Err(error) => Err(error),
        }
    }
}

impl BranchConfig {
    /// Tries the branch with the short name `short_name`, looked at at the
    /// commit `tip`, against this type.
    pub fn try_match<'a>(&'a self, short_name: &str, tip: &CommitId) -> (r: Result<
        Option<BranchMatch<'a>>,
        VernerError,
    >)
        ensures
            outcome_view(r) == branch_match(self.deep_view(), short_name@, tip@),
    {
        let pattern = self.raw.regex.as_str();
        if !is_match(pattern, short_name) {
            return Ok(None);
        }
        let label = match &self.raw.label {
            Some(template) => {
                let filled = substitute_commit(template.as_str(), tip);
                expand(pattern, short_name, filled.as_str())
            },
            None => None,
        };
        let base_text = match &self.raw.base_version {
            Some(template) => expand(pattern, short_name, template.as_str()),
            None => None,
        };
        match BranchMatch::create(tip.clone(), self, label, base_text) {
            Ok(found) => Ok(Some(found)),
            Err(error) => Err(error),
        }
    }
}

impl TagConfig {
    /// Tries the tag with the name `tag`, which points at the commit `id`,
    /// against this type.
    pub fn try_match<'a>(&'a self, tag: &str, id: &CommitId) -> (r: Result<
        Option<TagMatch<'a>>,
        VernerError,
    >)
        ensures
            outcome_view(r) == tag_match(self.deep_view(), tag@, id@),
    {
        let pattern = self.raw.regex.as_str();
        let filled = substitute_commit(self.raw.version.as_str(), id);
        match expand(pattern, tag, filled.as_str()) {
            Some(text) => match TagMatch::create(self, tag, text) {
                Ok(found) => Ok(Some(found)),
                Err(error) => Err(error),
            },
            None => Ok(None),
        }
    }
}

impl<'a> TagMatch<'a> {
    /// Makes the match of the tag `tag` of type `config` from `text`, the
    /// text that the version template of the type gave for the tag. Fails
    /// where `text` is no version, with that text.
    pub fn create(config: &'a TagConfig, tag: &str, text: String) -> (r: Result<
        TagMatch<'a>,
        VernerError,
    >)
        ensures
            outcome_view(r) == assembled_tag(config.deep_view(), tag@, text@),
    {
        match SemVersion::parse(text.as_str()) {
            Some(version) => Ok(TagMatch { config, tag: tag.to_owned(), version }),
            None => Err(VernerError::InvalidVersion(text)),
        }
    }
}

impl<'a> BranchMatch<'a> {
    /// Makes the match of a branch of type `config`, looked at at `tip`,
    /// from what the templates of the type gave for the branch: `label`,
    /// the text of the label, and `base_version`, the text of the base
    /// version. The label of the branch goes onto its base version. Fails
    /// where `base_version` is no version, with that text.
    pub fn create(
        tip: CommitId,
        config: &'a BranchConfig,
        label: Option<String>,
        base_version: Option<String>,
    ) -> (r: Result<BranchMatch<'a>, VernerError>)
        ensures
            outcome_view(r) == assembled_branch(
                config.deep_view(),
                tip@,
                label.deep_view(),
                base_version.deep_view(),
            ),
    {
        let base_version = match base_version {
            Some(text) => match SemVersion::parse(text.as_str()) {
                Some(version) => Some(
                    match &label {
                        Some(text) => version.with_label(Some(text.clone())),
                        None => version,
                    },
                ),
                None => {
                    return Err(VernerError::InvalidVersion(text));
                },
            },
            None => None,
        };
        Ok(BranchMatch { config, tag: label, tip, base_version })
    }

    /// The commit at which the branch is looked at.
    pub fn tip(&self) -> (r: &CommitId)
        ensures
            r@ == self.deep_view().tip,
    {
        &self.tip
    }

    /// The type of the branch.
    pub fn config(&self) -> (r: &'a BranchConfig)
        ensures
            r.deep_view() == self.deep_view().config,
    {
        self.config
    }

    /// The label of the branch.
    pub fn tag(&self) -> (r: Option<&str>)
        ensures
            r.deep_view() == self.deep_view().tag,
    {
        match &self.tag {
            Some(label) => Some(label.as_str()),
            None => None,
        }
    }

    /// The version that the branch starts from.
    pub fn base_version(&self) -> (r: Option<&SemVersion>)
        ensures
            r.deep_view() == self.deep_view().base_version,
    {
        self.base_version.as_ref()
    }
}

impl<'a> Clone for BranchMatch<'a> {
    fn clone(&self) -> (r: Self)
        ensures
            r.deep_view() == self.deep_view(),
    {
        let tag = match &self.tag {
            Some(label) => Some(label.clone()),
            None => None,
        };
        let base_version = match &self.base_version {
            Some(version) => Some(version.clone()),
            None => None,
        };
        BranchMatch { config: self.config, tag, tip: self.tip.clone(), base_version }
    }
}

impl<'a> TagMatch<'a> {
    /// The type of the tag.
    pub fn config(&self) -> (r: &'a TagConfig)
        ensures
            r.deep_view() == self.deep_view().config,
    {
        self.config
    }

    /// The name of the tag.
    pub fn tag(&self) -> (r: &str)
        ensures
            r@ == self.deep_view().tag,
    {
        self.tag.as_str()
    }

    /// The version that the tag gives its commit.
    pub fn version(&self) -> (r: &SemVersion)
        ensures
            r@ == self.deep_view().version,
    {
        &self.version
    }

    /// Writes this match: `(tag: <name>, type: <type>, version: <version>)`.
    pub fn to_string(&self) -> (r: String)
        ensures
            r@ == "(tag: "@ + self.deep_view().tag + ", type: "@ + self.deep_view().config.kind
                + ", version: "@ + format_spec(self.deep_view().version) + ")"@,
    {
        let mut r = "(tag: ".to_owned();
        r.append(self.tag.as_str());
        r.append(", type: ");
        r.append(self.config.kind());
        r.append(", version: ");
        r.append(self.version.to_string().as_str());
        r.append(")");
        r
    }
}

/// What trying the branch `name` at commit `tip` against the types
/// `branches`, first to last, gives: the first match, or the first error
/// where one comes before any match.
pub open spec fn first_branch_match(
    branches: Seq<BranchConfigView>,
    name: Seq<char>,
    tip: Seq<char>,
) -> Result<Option<BranchMatchView>, VernerErrorView>
    decreases branches.len(),
{
    if branches.len() == 0 {
        Ok(None)
    } else {
        match branch_match(branches[0], name, tip) {
            Ok(None) => first_branch_match(branches.drop_first(), name, tip),
            found_or_failed => found_or_failed,
        }
    }
}

/// The types among `branches` that have the name `kind`, in their order.
pub open spec fn of_kind(branches: Seq<BranchConfigView>, kind: Seq<char>) -> Seq<
    BranchConfigView,
>
    decreases branches.len(),
{
    if branches.len() == 0 {
        Seq::empty()
    } else if branches[0].kind == kind {
        seq![branches[0]] + of_kind(branches.drop_first(), kind)
    } else {
        of_kind(branches.drop_first(), kind)
    }
}

/// The types of the name `kind` among the first `k + 1` of `branches` are
/// those among the first `k`, and the one at place `k` where it has that
/// name.
pub proof fn lemma_of_kind_grows(branches: Seq<BranchConfigView>, k: int, kind: Seq<char>)
    requires
        0 <= k < branches.len(),
    ensures
        of_kind(branches.take(k + 1), kind) == if branches[k].kind == kind {
            of_kind(branches.take(k), kind).push(branches[k])
        } else {
            of_kind(branches.take(k), kind)
        },
    decreases k,
{
    let longer = branches.take(k + 1);
    let shorter = branches.take(k);
    if k == 0 {
        assert(longer.drop_first() =~= Seq::<BranchConfigView>::empty());
        assert(shorter =~= Seq::<BranchConfigView>::empty());
        assert(of_kind(longer, kind) =~= if branches[0].kind == kind {
            of_kind(shorter, kind).push(branches[0])
        } else {
            of_kind(shorter, kind)
        });
    } else {
        let rest = branches.drop_first();
        lemma_of_kind_grows(rest, k - 1, kind);
        assert(longer.drop_first() =~= rest.take(k));
        assert(shorter.drop_first() =~= rest.take(k - 1));
        assert(rest[k - 1] == branches[k]);
        assert(longer[0] == branches[0] && shorter[0] == branches[0]);
        assert(of_kind(longer, kind) =~= if branches[k].kind == kind {
            of_kind(shorter, kind).push(branches[k])
        } else {
            of_kind(shorter, kind)
        });
    }
}

/// The first type among `branches` that has the name `kind`.
pub open spec fn first_of_kind(branches: Seq<BranchConfigView>, kind: Seq<char>) -> Option<
    BranchConfigView,
> {
    if of_kind(branches, kind).len() > 0 {
        Some(of_kind(branches, kind)[0])
    } else {
        None
    }
}

/// The prefix of the full name of a local branch.
pub open spec fn heads_prefix() -> Seq<char> {
    "refs/heads/"@
}

/// The prefix of the full name of a branch of the remote `remote`.
pub open spec fn remote_prefix(remote: Seq<char>) -> Seq<char> {
    "refs/remotes/"@ + remote + seq!['/']
}

/// `name` without the prefix of the first of `remotes` whose prefix it
/// begins with; `name` as it is where it begins with none.
pub open spec fn without_remote(name: Seq<char>, remotes: Seq<Seq<char>>) -> Seq<char>
    decreases remotes.len(),
{
    if remotes.len() == 0 {
        name
    } else if starts_with(name, remote_prefix(remotes[0])) {
        name.skip(remote_prefix(remotes[0]).len() as int)
    } else {
        without_remote(name, remotes.drop_first())
    }
}

/// The short name of the branch with the full name `name`: `name` without
/// `refs/heads/` where it begins with that, else without
/// `refs/remotes/<remote>/` for the first remote of `remotes` that it begins
/// so with, else `name` as it is.
pub open spec fn short_name(name: Seq<char>, remotes: Seq<Seq<char>>) -> Seq<char> {
    if starts_with(name, heads_prefix()) {
        name.skip(heads_prefix().len() as int)
    } else {
        without_remote(name, remotes)
    }
}

impl Config {
    /// The branch types with the name `kind`, in their order.
    pub fn find_branches<'a>(&'a self, kind: &str) -> (r: Vec<&'a BranchConfig>)
        ensures
            r.deep_view() == of_kind(self.deep_view().branches, kind@),
    {
        let ghost all = self.deep_view().branches;
        let mut found: Vec<&'a BranchConfig> = Vec::new();
        let mut i: usize = 0;
        assert(all.take(0) =~= Seq::<BranchConfigView>::empty());
        assert(found.deep_view() =~= of_kind(all.take(0), kind@));
        while i < self.branches.len()
            invariant
                i <= self.branches.len(),
                all == self.deep_view().branches,
                found.deep_view() == of_kind(all.take(i as int), kind@),
            decreases self.branches.len() - i,
        {
            let ghost before = found.deep_view();
            proof {
                lemma_of_kind_grows(all, i as int, kind@);
                assert(all[i as int] == self.branches@[i as int].deep_view());
            }
            let candidate = &self.branches[i];
            if str_eq(candidate.kind(), kind) {
                found.push(candidate);
                assert(found.deep_view() =~= before.push(candidate.deep_view()));
            }
            i = i + 1;
        }
        assert(all.take(i as int) =~= all);
        found
    }

    /// The first branch type with the name `kind`.
    pub(crate) fn by_type<'a>(&'a self, kind: &str) -> (r: Option<&'a BranchConfig>)
        ensures
            r.deep_view() == first_of_kind(self.deep_view().branches, kind@),
    {
        let ghost all = self.deep_view().branches;
        let mut i: usize = 0;
        assert(all.skip(0) =~= all);
        while i < self.branches.len()
            invariant
                i <= self.branches.len(),
                all == self.deep_view().branches,
                of_kind(all, kind@) == of_kind(all.skip(i as int), kind@),
            decreases self.branches.len() - i,
        {
            proof {
                assert(all.skip(i as int).drop_first() =~= all.skip(i + 1));
                assert(all.skip(i as int)[0] == self.branches@[i as int].deep_view());
            }
            let candidate = &self.branches[i];
            if str_eq(candidate.kind(), kind) {
                return Some(candidate);
            }
            i = i + 1;
        }
        None
    }

    /// The first of the names `kinds` that no branch type has.
    fn first_unknown(&self, kinds: &Vec<String>) -> (r: Option<String>)
        ensures
            r.deep_view() == first_unknown(self.deep_view().branches, kinds.deep_view()),
    {
        let ghost branches = self.deep_view().branches;
        let ghost all = kinds.deep_view();
        let mut i: usize = 0;
        assert(all.skip(0) =~= all);
        while i < kinds.len()
            invariant
                i <= kinds.len(),
                all == kinds.deep_view(),
                branches == self.deep_view().branches,
                first_unknown(branches, all) == first_unknown(branches, all.skip(i as int)),
            decreases kinds.len() - i,
        {
            proof {
                assert(all.skip(i as int).drop_first() =~= all.skip(i + 1));
                assert(all.skip(i as int)[0] == kinds@[i as int]@);
            }
            if self.by_type(kinds[i].as_str()).is_none() {
                return Some(kinds[i].as_str().to_owned());
            }
            i = i + 1;
        }
        None
    }

    /// The first type name that the branch type `branch` refers to and
    /// that is the name of no branch type: the first such among its source
    /// types, or else among the types that it follows.
    pub(crate) fn unknown_name(&self, branch: &BranchConfig) -> (r: Option<String>)
        ensures
            r.deep_view() == unknown_name(self.deep_view().branches, branch.deep_view().raw),
    {
        match self.first_unknown(&branch.raw.sources) {
            Some(kind) => Some(kind),
            None => self.first_unknown(&branch.raw.tracks),
        }
    }

    /// Tries the branch with the short name `short_name`, looked at at the
    /// commit `id`, against the branch types in their order, and gives the
    /// first match.
    pub fn try_match_branch<'a>(&'a self, short_name: &str, id: &CommitId) -> (r: Result<
        Option<BranchMatch<'a>>,
        VernerError,
    >)
        ensures
            outcome_view(r) == first_branch_match(self.deep_view().branches, short_name@, id@),
    {
        let ghost all = self.deep_view().branches;
        let mut i: usize = 0;
        assert(all.skip(0) =~= all);
        while i < self.branches.len()
            invariant
                i <= self.branches.len(),
                all == self.deep_view().branches,
                first_branch_match(all, short_name@, id@) == first_branch_match(
                    all.skip(i as int),
                    short_name@,
                    id@,
                ),
            decreases self.branches.len() - i,
        {
            proof {
                assert(all.skip(i as int).drop_first() =~= all.skip(i + 1));
                assert(all.skip(i as int)[0] == self.branches@[i as int].deep_view());
            }
            match self.branches[i].try_match(short_name, id) {
                Ok(None) => {},
                Ok(Some(found)) => {
                    return Ok(Some(found));
                },
                Err(error) => {
                    return Err(error);
                },
            }
            i = i + 1;
        }
        Ok(None)
    }

    /// Tries the branch with the short name `short_name`, looked at at the
    /// commit `id`, against the branch types with the name `kind`, in their
    /// order, and gives the first match.
    pub fn find_type_branch_config_for<'a>(
        &'a self,
        short_name: &str,
        id: &CommitId,
        kind: &str,
    ) -> (r: Result<Option<BranchMatch<'a>>, VernerError>)
        ensures
            outcome_view(r) == first_branch_match(
                of_kind(self.deep_view().branches, kind@),
                short_name@,
                id@,
            ),
    {
        let ghost all = self.deep_view().branches;
        let mut i: usize = 0;
        assert(all.skip(0) =~= all);
        while i < self.branches.len()
            invariant
                i <= self.branches.len(),
                all == self.deep_view().branches,
                first_branch_match(of_kind(all, kind@), short_name@, id@) == first_branch_match(
                    of_kind(all.skip(i as int), kind@),
                    short_name@,
                    id@,
                ),
            decreases self.branches.len() - i,
        {
            let ghost rest = all.skip(i as int);
            proof {
                assert(rest.drop_first() =~= all.skip(i + 1));
                assert(rest[0] == self.branches@[i as int].deep_view());
            }
            let candidate = &self.branches[i];
            if str_eq(candidate.kind(), kind) {
                proof {
                    let kept = of_kind(rest, kind@);
                    assert(kept.drop_first() =~= of_kind(rest.drop_first(), kind@));
                    assert(kept[0] == rest[0]);
                }
                match candidate.try_match(short_name, id) {
                    Ok(None) => {},
                    Ok(Some(found)) => {
                        return Ok(Some(found));
                    },
                    Err(error) => {
                        return Err(error);
                    },
                }
            }
            i = i + 1;
        }
        Ok(None)
    }

    /// The short name of the branch with the full reference name
    /// `ref_name`: without `refs/heads/`, or without `refs/remotes/` and the
    /// first of the tracked remotes that fits. A name that begins with
    /// neither comes back as it is.
    pub fn reference_name_to_branch_name<'a>(&self, ref_name: &'a str) -> (r: &'a str)
        ensures
            r@ == short_name(ref_name@, self.deep_view().tracked_remotes),
    {
        let chars = chars_of(ref_name);
        match strip_prefix(ref_name, &chars, "refs/heads/") {
            Some(rest) => {
                return rest;
            },
            None => {},
        }
        let ghost remotes = self.deep_view().tracked_remotes;
        let mut i: usize = 0;
        assert(remotes.skip(0) =~= remotes);
        while i < self.tracked_remotes.len()
            invariant
                i <= self.tracked_remotes.len(),
                chars@ == ref_name@,
                remotes == self.deep_view().tracked_remotes,
                !starts_with(ref_name@, heads_prefix()),
                without_remote(ref_name@, remotes) == without_remote(
                    ref_name@,
                    remotes.skip(i as int),
                ),
            decreases self.tracked_remotes.len() - i,
        {
            proof {
                assert(remotes.skip(i as int).drop_first() =~= remotes.skip(i + 1));
                assert(remotes.skip(i as int)[0] == self.tracked_remotes@[i as int]@);
                reveal_strlit("/");
            }
            let mut prefix = "refs/remotes/".to_owned();
            prefix.append(self.tracked_remotes[i].as_str());
            prefix.append("/");
            assert(prefix@ =~= remote_prefix(self.tracked_remotes@[i as int]@));
            match strip_prefix(ref_name, &chars, prefix.as_str()) {
                Some(rest) => {
                    return rest;
                },
                None => {},
            }
            i = i + 1;
        }
        ref_name
    }
}

} // verus!
