//! Semantic versions and the increments that move them.
//!
//! A version has four numbers, `major.minor.patch` and a build counter, and
//! may carry a label, which names a release track of its own. A label is
//! never empty: an empty label is no label.

use crate::ordering::compare;
use crate::resolve::VersionOp;
use std::cmp::Ordering;
use vstd::prelude::*;
use vstd::std_specs::cmp::{PartialEqSpecImpl, PartialOrdSpecImpl};

verus! {

/// The mathematical value of a [`SemVersion`].
pub struct SemVersionView {
    pub major: nat,
    pub minor: nat,
    pub patch: nat,
    pub build: nat,
    pub label: Option<Seq<char>>,
}

impl SemVersionView {
    /// The version `0.0.0` without label and build counter.
    pub open spec fn zero() -> SemVersionView {
        SemVersionView { major: 0, minor: 0, patch: 0, build: 0, label: None }
    }

    /// This version with `label` in place of its own. An empty label is no
    /// label.
    pub open spec fn with_label(self, label: Option<Seq<char>>) -> SemVersionView {
        SemVersionView { label: normal_label(label), ..self }
    }

    /// This version with the build counter at zero.
    pub open spec fn erase_build(self) -> SemVersionView {
        SemVersionView { build: 0, ..self }
    }

    /// This version after `inc`: the field that `inc` names grows by its
    /// amount, and every field of lower significance falls to zero. The
    /// build counter is the lowest field. The label stays.
    pub open spec fn inc(self, inc: SemVersionInc) -> SemVersionView {
        match inc {
            SemVersionInc::Major(n) => SemVersionView {
                major: self.major + n as nat,
                minor: 0,
                patch: 0,
                build: 0,
                label: self.label,
            },
            SemVersionInc::Minor(n) => SemVersionView {
                major: self.major,
                minor: self.minor + n as nat,
                patch: 0,
                build: 0,
                label: self.label,
            },
            SemVersionInc::Patch(n) => SemVersionView {
                major: self.major,
                minor: self.minor,
                patch: self.patch + n as nat,
                build: 0,
                label: self.label,
            },
            SemVersionInc::Build(n) => SemVersionView {
                major: self.major,
                minor: self.minor,
                patch: self.patch,
                build: self.build + n as nat,
                label: self.label,
            },
        }
    }

    /// Whether every number of this version fits in 32 bits, and the label,
    /// if there is one, is not empty.
    pub open spec fn representable(self) -> bool {
        &&& self.major <= u32::MAX
        &&& self.minor <= u32::MAX
        &&& self.patch <= u32::MAX
        &&& self.build <= u32::MAX
        &&& (self.label matches Some(l) ==> l.len() > 0)
    }
}

/// `label` with the empty label taken for none.
pub open spec fn normal_label(label: Option<Seq<char>>) -> Option<Seq<char>> {
    match label {
        Some(l) => if l.len() > 0 {
            Some(l)
        } else {
            None
        },
        None => None,
    }
}

/// The view of an optional text.
pub open spec fn text_view(text: Option<String>) -> Option<Seq<char>> {
    match text {
        Some(t) => Some(t@),
        None => None,
    }
}

/// The view of an optional borrowed text.
pub open spec fn str_view(text: Option<&str>) -> Option<Seq<char>> {
    match text {
        Some(t) => Some(t@),
        None => None,
    }
}

/// A step by which a version moves forward.
#[derive(Debug, Clone, Copy, PartialEq, Eq, Structural)]
pub enum SemVersionInc {
    /// Adds to the major number; minor, patch and build counter fall to zero.
    Major(u32),
    /// Adds to the minor number; patch and build counter fall to zero.
    Minor(u32),
    /// Adds to the patch number; the build counter falls to zero.
    Patch(u32),
    /// Adds to the build counter.
    Build(u32),
}

/// A semantic version.
#[derive(Debug)]
pub struct SemVersion {
    major: u32,
    minor: u32,
    patch: u32,
    build: u32,
    label: Option<String>,
}

impl View for SemVersion {
    type V = SemVersionView;

    closed spec fn view(&self) -> SemVersionView {
        SemVersionView {
            major: self.major as nat,
            minor: self.minor as nat,
            patch: self.patch as nat,
            build: self.build as nat,
            label: text_view(self.label),
        }
    }
}

impl DeepView for SemVersion {
    type V = SemVersionView;

    open spec fn deep_view(&self) -> SemVersionView {
        self@
    }
}

impl SemVersion {
    #[verifier::type_invariant]
    spec fn labelled_or_bare(self) -> bool {
        self.label matches Some(l) ==> l@.len() > 0
    }

    /// The version with the given numbers and label. An empty label is no
    /// label.
    pub fn new(major: u32, minor: u32, patch: u32, build: u32, label: Option<String>) -> (r: Self)
        ensures
            r@ == (SemVersionView {
                major: major as nat,
                minor: minor as nat,
                patch: patch as nat,
                build: build as nat,
                label: normal_label(text_view(label)),
            }),
    {
        let label = match label {
            Some(l) => if l.as_str().unicode_len() > 0 {
                Some(l)
            } else {
                None
            },
            None => None,
        };
        SemVersion { major, minor, patch, build, label }
    }

    /// This version with `label` in place of its own. An empty label is no
    /// label.
    pub fn with_label(&self, label: Option<String>) -> (r: SemVersion)
        ensures
            r@ == self@.with_label(text_view(label)),
    {
        SemVersion::new(self.major, self.minor, self.patch, self.build, label)
    }

    /// This version with the label `tag`.
    pub fn tag(&self, tag: &str) -> (r: SemVersion)
        ensures
            r@ == self@.with_label(Some(tag@)),
    {
        self.with_label(Some(tag.to_owned()))
    }

    /// The major number.
    pub fn major(&self) -> (r: u32)
        ensures
            r == self@.major,
    {
        self.major
    }

    /// The minor number.
    pub fn minor(&self) -> (r: u32)
        ensures
            r == self@.minor,
    {
        self.minor
    }

    /// The patch number.
    pub fn patch(&self) -> (r: u32)
        ensures
            r == self@.patch,
    {
        self.patch
    }

    /// The build counter.
    pub fn build(&self) -> (r: u32)
        ensures
            r == self@.build,
    {
        self.build
    }

    /// The label, which is never empty where there is one.
    pub fn label<'a>(&'a self) -> (r: Option<&'a str>)
        ensures
            str_view(r) == self@.label,
            r matches Some(l) ==> l@.len() > 0,
    {
        proof {
            use_type_invariant(self);
        }
        match &self.label {
            Some(l) => Some(l.as_str()),
            None => None,
        }
    }

    /// This version with the build counter at zero.
    pub fn erase_build(&self) -> (r: Self)
        ensures
            r@ == self@.erase_build(),
    {
        proof {
            use_type_invariant(self);
        }
        let label = match &self.label {
            Some(l) => Some(l.clone()),
            None => None,
        };
        SemVersion { major: self.major, minor: self.minor, patch: self.patch, build: 0, label }
    }
}

impl Clone for SemVersion {
    fn clone(&self) -> (r: Self)
        ensures
            r@ == self@,
    {
        proof {
            use_type_invariant(self);
        }
        let label = match &self.label {
            Some(l) => Some(l.clone()),
            None => None,
        };
        SemVersion {
            major: self.major,
            minor: self.minor,
            patch: self.patch,
            build: self.build,
            label,
        }
    }
}

impl Default for SemVersion {
    /// The version `0.0.0`.
    fn default() -> (r: Self)
        ensures
            r@ == SemVersionView::zero(),
    {
        SemVersion { major: 0, minor: 0, patch: 0, build: 0, label: None }
    }
}

/// The cascade: an increment adds its amount to the field that it names,
/// sets every field of lower significance to zero and leaves every field of
/// higher significance, and the label, as they were. The build counter is
/// the lowest field, so an increment of it sets nothing to zero.
pub proof fn lemma_inc_cascade(v: SemVersionView, inc: SemVersionInc)
    ensures
        v.inc(inc).label == v.label,
        inc matches SemVersionInc::Major(n) ==> {
            &&& v.inc(inc).major == v.major + n
            &&& v.inc(inc).minor == 0
            &&& v.inc(inc).patch == 0
            &&& v.inc(inc).build == 0
        },
        inc matches SemVersionInc::Minor(n) ==> {
            &&& v.inc(inc).major == v.major
            &&& v.inc(inc).minor == v.minor + n
            &&& v.inc(inc).patch == 0
            &&& v.inc(inc).build == 0
        },
        inc matches SemVersionInc::Patch(n) ==> {
            &&& v.inc(inc).major == v.major
            &&& v.inc(inc).minor == v.minor
            &&& v.inc(inc).patch == v.patch + n
            &&& v.inc(inc).build == 0
        },
        inc matches SemVersionInc::Build(n) ==> {
            &&& v.inc(inc).major == v.major
            &&& v.inc(inc).minor == v.minor
            &&& v.inc(inc).patch == v.patch
            &&& v.inc(inc).build == v.build + n
        },
{
}

/// Whether `inc` can be applied to a version of view `v`: the field that it
/// names stays within 32 bits.
pub open spec fn inc_in_range(v: SemVersionView, inc: SemVersionInc) -> bool {
    match inc {
        SemVersionInc::Major(n) => v.major + n <= u32::MAX,
        SemVersionInc::Minor(n) => v.minor + n <= u32::MAX,
        SemVersionInc::Patch(n) => v.patch + n <= u32::MAX,
        SemVersionInc::Build(n) => v.build + n <= u32::MAX,
    }
}

impl VersionOp<SemVersionInc> for SemVersion {
    open spec fn inc_fits(v: SemVersionView, i: SemVersionInc) -> bool {
        inc_in_range(v, i)
    }

    open spec fn inc_view(v: SemVersionView, i: SemVersionInc) -> SemVersionView {
        v.inc(i)
    }

    fn can_inc(&self, i: &SemVersionInc) -> (fits: bool) {
        match i {
            SemVersionInc::Major(n) => *n <= u32::MAX - self.major,
            SemVersionInc::Minor(n) => *n <= u32::MAX - self.minor,
            SemVersionInc::Patch(n) => *n <= u32::MAX - self.patch,
            SemVersionInc::Build(n) => *n <= u32::MAX - self.build,
        }
    }

    /// Adds the amount of `i` to the field that it names and sets every field
    /// of lower significance to zero.
    fn inc(&mut self, i: &SemVersionInc) {
        proof {
            use_type_invariant(&*self);
        }
        match i {
            SemVersionInc::Major(n) => {
                self.major = self.major + *n;
                self.minor = 0;
                self.patch = 0;
                self.build = 0;
            },
            SemVersionInc::Minor(n) => {
                self.minor = self.minor + *n;
                self.patch = 0;
                self.build = 0;
            },
            SemVersionInc::Patch(n) => {
                self.patch = self.patch + *n;
                self.build = 0;
            },
            SemVersionInc::Build(n) => {
                self.build = self.build + *n;
            },
        }
    }
}

impl SemVersion {
    /// Tells whether this version and `other` carry one label, or both none.
    fn same_label(&self, other: &SemVersion) -> (same: bool)
        ensures
            same == (self@.label == other@.label),
    {
        match &self.label {
            Some(mine) => match &other.label {
                Some(theirs) => *mine == *theirs,
                None => false,
            },
            None => other.label.is_none(),
        }
    }
}

impl PartialEq for SemVersion {
    /// Tells whether the two versions agree in every number and in the label.
    fn eq(&self, other: &SemVersion) -> (r: bool) {
        self.major == other.major && self.minor == other.minor && self.patch == other.patch
            && self.build == other.build && self.same_label(other)
    }
}

impl PartialEqSpecImpl for SemVersion {
    open spec fn obeys_eq_spec() -> bool {
        true
    }

    open spec fn eq_spec(&self, other: &SemVersion) -> bool {
        self@ == other@
    }
}

impl PartialOrd for SemVersion {
    /// Compares by major, minor and patch; then gives up where the labels
    /// differ; then compares by the build counter.
    fn partial_cmp(&self, other: &SemVersion) -> (r: Option<Ordering>) {
        if self.major > other.major {
            return Some(Ordering::Greater);
        }
        if self.major < other.major {
            return Some(Ordering::Less);
        }
        if self.minor > other.minor {
            return Some(Ordering::Greater);
        }
        if self.minor < other.minor {
            return Some(Ordering::Less);
        }
        if self.patch > other.patch {
            return Some(Ordering::Greater);
        }
        if self.patch < other.patch {
            return Some(Ordering::Less);
        }
        if !self.same_label(other) {
            return None;
        }
        if self.build > other.build {
            return Some(Ordering::Greater);
        }
        if self.build < other.build {
            return Some(Ordering::Less);
        }
        Some(Ordering::Equal)
    }
}

impl PartialOrdSpecImpl for SemVersion {
    open spec fn obeys_partial_cmp_spec() -> bool {
        true
    }

    open spec fn partial_cmp_spec(&self, other: &SemVersion) -> Option<Ordering> {
        compare(self@, other@)
    }
}

} // verus!
