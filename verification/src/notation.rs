//! The written form of a version: `MAJOR.MINOR[.PATCH][-LABEL[.BUILD]]`.
//!
//! The three numbers before the first `-` are numerals separated by `.`; a
//! missing patch counts as zero. What follows the first `-` is the label, up
//! to its first `.`, and after that `.` the numeral of the build counter. A
//! label holds no `.`, but may hold any other character, `-` included. An
//! empty label is no label, and a missing build counter counts as zero.
//!
//! Writing a version gives its canonical text: all three numbers, plain
//! numerals, and a suffix only as far as it says something.

use crate::decimal::{
    decimal, decimal_string, digits_value, is_numeral, is_plain_numeral, lemma_decimal_is_plain,
    lemma_decimal_value, lemma_value_decimal, read_numeral,
};
use crate::semver::{normal_label, SemVersion, SemVersionInc, SemVersionView};
use crate::text::chars_of;
use vstd::prelude::*;
use vstd::string::*;

verus! {

/// The place of the first `c` in `s`, or the length of `s` where `s` holds
/// no `c`.
pub open spec fn position(s: Seq<char>, c: char) -> int
    decreases s.len(),
{
    if s.len() == 0 {
        0
    } else if s[0] == c {
        0
    } else {
        1 + position(s.drop_first(), c)
    }
}

/// The part of `s` before its first `c`; all of `s` where it holds no `c`.
pub open spec fn before_first(s: Seq<char>, c: char) -> Seq<char> {
    s.take(position(s, c))
}

/// The part of `s` after its first `c`, where it holds one.
pub open spec fn after_first(s: Seq<char>, c: char) -> Option<Seq<char>> {
    if position(s, c) < s.len() {
        Some(s.skip(position(s, c) + 1))
    } else {
        None
    }
}

/// The number of the numeral `s`, where `s` is a numeral and its number fits
/// in 32 bits.
pub open spec fn numeral_value(s: Seq<char>) -> Option<nat> {
    if is_numeral(s) && digits_value(s) <= u32::MAX {
        Some(digits_value(s))
    } else {
        None
    }
}

/// The number of the numeral `s` where there is a text, and zero where there
/// is none.
pub open spec fn optional_numeral_value(s: Option<Seq<char>>) -> Option<nat> {
    match s {
        Some(numeral) => numeral_value(numeral),
        None => Some(0nat),
    }
}

/// Major, minor and patch of the text `core`, which is `MAJOR.MINOR` or
/// `MAJOR.MINOR.PATCH`.
pub open spec fn parse_core(core: Seq<char>) -> Option<(nat, nat, nat)> {
    match after_first(core, '.') {
        Some(rest) => match (
            numeral_value(before_first(core, '.')),
            numeral_value(before_first(rest, '.')),
            optional_numeral_value(after_first(rest, '.')),
        ) {
            (Some(major), Some(minor), Some(patch)) => Some((major, minor, patch)),
            _ => None,
        },
        None => None,
    }
}

/// Label and build counter of the text `suffix`, which is `LABEL` or
/// `LABEL.BUILD`.
pub open spec fn parse_suffix(suffix: Seq<char>) -> Option<(Option<Seq<char>>, nat)> {
    match optional_numeral_value(after_first(suffix, '.')) {
        Some(build) => Some((normal_label(Some(before_first(suffix, '.'))), build)),
        None => None,
    }
}

/// The version that the text `s` denotes, where it denotes one.
pub open spec fn parse_spec(s: Seq<char>) -> Option<SemVersionView> {
    match parse_core(before_first(s, '-')) {
        Some((major, minor, patch)) => match after_first(s, '-') {
            Some(suffix) => match parse_suffix(suffix) {
                Some((label, build)) => Some(SemVersionView { major, minor, patch, build, label }),
                None => None,
            },
            None => Some(SemVersionView { major, minor, patch, build: 0, label: None }),
        },
        None => None,
    }
}

/// The suffix of the canonical text of `v`: nothing where `v` has neither
/// label nor build counter; else `-`, the label, and, where the build
/// counter is above zero, `.` and its numeral.
pub open spec fn format_suffix(v: SemVersionView) -> Seq<char> {
    if v.label is None && v.build == 0 {
        Seq::empty()
    } else {
        seq!['-'] + (match v.label {
            Some(label) => label,
            None => Seq::empty(),
        }) + (if v.build > 0 {
            seq!['.'] + decimal(v.build)
        } else {
            Seq::empty()
        })
    }
}

/// The canonical text of `v`.
pub open spec fn format_spec(v: SemVersionView) -> Seq<char> {
    decimal(v.major) + seq!['.'] + decimal(v.minor) + seq!['.'] + decimal(v.patch) + format_suffix(
        v,
    )
}

/// Whether the text `s` is written the canonical way: with a patch number,
/// every number a plain numeral, and a suffix that says something, that is,
/// a label or a build counter above zero.
pub open spec fn is_canonical(s: Seq<char>) -> bool {
    let core = before_first(s, '-');
    &&& after_first(core, '.') matches Some(rest)
    &&& after_first(rest, '.') matches Some(patch)
    &&& is_plain_numeral(before_first(core, '.'))
    &&& is_plain_numeral(before_first(rest, '.'))
    &&& is_plain_numeral(patch)
    &&& (after_first(s, '-') matches Some(suffix) ==> match after_first(suffix, '.') {
        Some(build) => is_plain_numeral(build) && digits_value(build) > 0,
        None => suffix.len() > 0,
    })
}

/// What `position` is: a place in `s` or its end, with no `c` before it and
/// `c` at it.
pub proof fn lemma_position(s: Seq<char>, c: char)
    ensures
        0 <= position(s, c) <= s.len(),
        position(s, c) < s.len() ==> s[position(s, c)] == c,
        forall|i: int| 0 <= i < position(s, c) ==> #[trigger] s[i] != c,
    decreases s.len(),
{
    if s.len() == 0 {
    } else if s[0] == c {
    } else {
        let rest = s.drop_first();
        lemma_position(rest, c);
        assert forall|i: int| 0 <= i < position(s, c) implies #[trigger] s[i] != c by {
            if i > 0 {
                assert(rest[i - 1] == s[i]);
            }
        }
    }
}

/// A place with no `c` before it, and with `c` at it unless it is the end, is
/// the position of `c`.
pub proof fn lemma_position_is(s: Seq<char>, c: char, p: int)
    requires
        0 <= p <= s.len(),
        p < s.len() ==> s[p] == c,
        forall|i: int| 0 <= i < p ==> #[trigger] s[i] != c,
    ensures
        position(s, c) == p,
{
    lemma_position(s, c);
    let q = position(s, c);
    if q < p {
        assert(s[q] != c);
    } else if p < q {
        assert(s[p] != c);
    }
}

/// A text is its part before the first `c`, then `c` and the part after it
/// where there is one.
pub proof fn lemma_split_join(s: Seq<char>, c: char)
    ensures
        match after_first(s, c) {
            Some(rest) => s == before_first(s, c) + seq![c] + rest,
            None => s == before_first(s, c),
        },
{
    lemma_position(s, c);
    match after_first(s, c) {
        Some(rest) => {
            assert(s =~= before_first(s, c) + seq![c] + rest);
        },
        None => {
            assert(s =~= before_first(s, c));
        },
    }
}

/// Text that parses and is canonical is the text that writing the parsed
/// version gives.
pub proof fn lemma_format_of_parse(s: Seq<char>)
    requires
        parse_spec(s) is Some,
        is_canonical(s),
    ensures
        format_spec(parse_spec(s)->Some_0) == s,
{
    let v = parse_spec(s)->Some_0;
    let core = before_first(s, '-');
    let rest = after_first(core, '.')->Some_0;
    let major = before_first(core, '.');
    let minor = before_first(rest, '.');
    let patch = after_first(rest, '.')->Some_0;
    lemma_split_join(s, '-');
    lemma_split_join(core, '.');
    lemma_split_join(rest, '.');
    lemma_value_decimal(major);
    lemma_value_decimal(minor);
    lemma_value_decimal(patch);
    assert(core == decimal(v.major) + seq!['.'] + decimal(v.minor) + seq!['.'] + decimal(v.patch))
        by {
        assert(core =~= major + seq!['.'] + minor + seq!['.'] + patch);
    }
    match after_first(s, '-') {
        Some(suffix) => {
            lemma_split_join(suffix, '.');
            let label = before_first(suffix, '.');
            match after_first(suffix, '.') {
                Some(build) => {
                    lemma_value_decimal(build);
                    assert(format_suffix(v) =~= seq!['-'] + suffix);
                },
                None => {
                    assert(format_suffix(v) =~= seq!['-'] + suffix);
                },
            }
            assert(format_spec(v) =~= s);
        },
        None => {
            assert(format_spec(v) =~= s);
        },
    }
}

/// Whether `c` occurs nowhere in `s`.
pub open spec fn free_of(s: Seq<char>, c: char) -> bool {
    forall|i: int| 0 <= i < s.len() ==> #[trigger] s[i] != c
}

/// Where `head` holds no `c`, the text `head`, `c`, `tail` splits at that
/// `c` into `head` and `tail`.
pub proof fn lemma_split_of_join(head: Seq<char>, c: char, tail: Seq<char>)
    requires
        free_of(head, c),
    ensures
        before_first(head + seq![c] + tail, c) == head,
        after_first(head + seq![c] + tail, c) == Some(tail),
{
    let s = head + seq![c] + tail;
    lemma_position_is(s, c, head.len() as int);
    assert(s.take(head.len() as int) =~= head);
    assert(s.skip(head.len() as int + 1) =~= tail);
}

/// A text that holds no `c` has nothing after a first `c` and is all before
/// it.
pub proof fn lemma_split_of_free(s: Seq<char>, c: char)
    requires
        free_of(s, c),
    ensures
        before_first(s, c) == s,
        after_first(s, c) is None,
{
    lemma_position_is(s, c, s.len() as int);
    assert(s.take(s.len() as int) =~= s);
}

/// The numeral of a number that fits in 32 bits reads as that number, and
/// holds neither `.` nor `-`.
pub proof fn lemma_numeral_of(n: nat)
    requires
        n <= u32::MAX,
    ensures
        numeral_value(decimal(n)) == Some(n),
        is_plain_numeral(decimal(n)),
        free_of(decimal(n), '.'),
        free_of(decimal(n), '-'),
{
    lemma_decimal_is_plain(n);
    lemma_decimal_value(n);
}

/// The canonical text of a version reads as that version, and is canonical.
///
/// This holds of every version that can be in memory and that text can
/// carry: numbers within 32 bits, and a label that is not empty and holds no
/// `.`.
pub proof fn lemma_parse_of_format(v: SemVersionView)
    requires
        v.representable(),
        v.label matches Some(label) ==> free_of(label, '.'),
    ensures
        parse_spec(format_spec(v)) == Some(v),
        is_canonical(format_spec(v)),
{
    let major = decimal(v.major);
    let minor = decimal(v.minor);
    let patch = decimal(v.patch);
    lemma_numeral_of(v.major);
    lemma_numeral_of(v.minor);
    lemma_numeral_of(v.patch);
    let rest = minor + seq!['.'] + patch;
    let core = major + seq!['.'] + rest;
    assert(core =~= major + seq!['.'] + minor + seq!['.'] + patch);
    lemma_split_of_join(major, '.', rest);
    lemma_split_of_join(minor, '.', patch);
    assert(parse_core(core) == Some((v.major, v.minor, v.patch)));
    assert(free_of(core, '-'));
    let text = format_spec(v);
    if v.label is None && v.build == 0 {
        assert(text =~= core);
        lemma_split_of_free(core, '-');
    } else {
        let label = match v.label {
            Some(label) => label,
            None => Seq::empty(),
        };
        let suffix = label + (if v.build > 0 {
            seq!['.'] + decimal(v.build)
        } else {
            Seq::empty()
        });
        assert(text =~= core + seq!['-'] + suffix);
        lemma_split_of_join(core, '-', suffix);
        if v.build > 0 {
            lemma_numeral_of(v.build);
            assert(suffix =~= label + seq!['.'] + decimal(v.build));
            lemma_split_of_join(label, '.', decimal(v.build));
        } else {
            assert(suffix =~= label);
            lemma_split_of_free(label, '.');
        }
    }
}

/// Two versions with one canonical text are one version, where both can be
/// in memory and text can carry their labels.
pub proof fn lemma_format_is_injective(a: SemVersionView, b: SemVersionView)
    requires
        a.representable(),
        b.representable(),
        a.label matches Some(label) ==> free_of(label, '.'),
        b.label matches Some(label) ==> free_of(label, '.'),
        format_spec(a) == format_spec(b),
    ensures
        a == b,
{
    lemma_parse_of_format(a);
    lemma_parse_of_format(b);
}

/// The view of an optional version.
pub open spec fn version_view(version: Option<SemVersion>) -> Option<SemVersionView> {
    match version {
        Some(v) => Some(v@),
        None => None,
    }
}

/// The place of the first `c` among the characters of `text` from `from` up
/// to `to`, or `to` where there is none.
fn find(text: &Vec<char>, from: usize, to: usize, c: char) -> (p: usize)
    requires
        from <= to <= text.len(),
    ensures
        from <= p <= to,
        p - from == position(text@.subrange(from as int, to as int), c),
{
    let ghost range = text@.subrange(from as int, to as int);
    let mut p = from;
    while p < to
        invariant
            from <= p <= to <= text.len(),
            range == text@.subrange(from as int, to as int),
            forall|i: int| 0 <= i < p - from ==> #[trigger] range[i] != c,
        decreases to - p,
    {
        if text[p] == c {
            proof {
                lemma_position_is(range, c, p - from);
            }
            return p;
        }
        p = p + 1;
    }
    proof {
        lemma_position_is(range, c, p - from);
    }
    p
}

impl SemVersion {
    /// Reads a version from its text, `MAJOR.MINOR[.PATCH][-LABEL[.BUILD]]`.
    ///
    /// A missing patch or build counter is zero, and an empty label is no
    /// label. Text of any other shape gives `None`, and so does a numeral
    /// whose number does not fit in 32 bits.
    pub fn parse(s: &str) -> (r: Option<SemVersion>)
        ensures
            version_view(r) == parse_spec(s@),
    {
        let text = chars_of(s);
        let n = text.len();
        assert(text@.subrange(0, n as int) =~= s@);
        let dash = find(&text, 0, n, '-');
        let ghost core = text@.subrange(0, dash as int);
        assert(core =~= before_first(s@, '-'));
        let dot1 = find(&text, 0, dash, '.');
        if dot1 == dash {
            return None;
        }
        let ghost rest = text@.subrange(dot1 + 1, dash as int);
        proof {
            assert(before_first(core, '.') =~= text@.subrange(0, dot1 as int));
            assert(after_first(core, '.') == Some(core.skip(dot1 + 1)));
            assert(core.skip(dot1 + 1) =~= rest);
        }
        let dot2 = find(&text, dot1 + 1, dash, '.');
        proof {
            assert(before_first(rest, '.') =~= text@.subrange(dot1 + 1, dot2 as int));
            if dot2 < dash {
                assert(after_first(rest, '.') == Some(rest.skip(dot2 - dot1)));
                assert(rest.skip(dot2 - dot1) =~= text@.subrange(dot2 + 1, dash as int));
            }
        }
        let major = match read_numeral(&text, 0, dot1) {
            Some(number) => number,
            None => {
                return None;
            },
        };
        let minor = match read_numeral(&text, dot1 + 1, dot2) {
            Some(number) => number,
            None => {
                return None;
            },
        };
        let patch = if dot2 < dash {
            match read_numeral(&text, dot2 + 1, dash) {
                Some(number) => number,
                None => {
                    return None;
                },
            }
        } else {
            0
        };
        assert(parse_core(core) == Some((major as nat, minor as nat, patch as nat)));
        if dash == n {
            return Some(SemVersion::new(major, minor, patch, 0, None));
        }
        let ghost suffix = text@.subrange(dash + 1, n as int);
        assert(s@.skip(dash + 1) =~= suffix);
        assert(after_first(s@, '-') == Some(suffix));
        let dot3 = find(&text, dash + 1, n, '.');
        proof {
            assert(before_first(suffix, '.') =~= text@.subrange(dash + 1, dot3 as int));
            if dot3 < n {
                assert(after_first(suffix, '.') == Some(suffix.skip(dot3 - dash)));
                assert(suffix.skip(dot3 - dash) =~= text@.subrange(dot3 + 1, n as int));
            }
        }
        let build = if dot3 < n {
            match read_numeral(&text, dot3 + 1, n) {
                Some(number) => number,
                None => {
                    return None;
                },
            }
        } else {
            0
        };
        let label = s.substring_char(dash + 1, dot3).to_owned();
        Some(SemVersion::new(major, minor, patch, build, Some(label)))
    }

    /// Writes this version as its canonical text: the three numbers, then,
    /// where there is a label or a build counter above zero, `-` and the
    /// label, and, where the build counter is above zero, `.` and the
    /// counter.
    pub fn to_string(&self) -> (r: String)
        ensures
            r@ == format_spec(self@),
    {
        proof {
            reveal_strlit(".");
            reveal_strlit("-");
        }
        let mut r = decimal_string(self.major());
        r.append(".");
        r.append(decimal_string(self.minor()).as_str());
        r.append(".");
        r.append(decimal_string(self.patch()).as_str());
        let ghost core = r@;
        let label = self.label();
        let build = self.build();
        if label.is_some() || build > 0 {
            r.append("-");
            match label {
                Some(l) => {
                    r.append(l);
                },
                None => {},
            }
            if build > 0 {
                r.append(".");
                r.append(decimal_string(build).as_str());
            }
        }
        assert(r@ =~= core + format_suffix(self@));
        assert(core =~= decimal(self@.major) + seq!['.'] + decimal(self@.minor) + seq!['.']
            + decimal(self@.patch));
        r
    }
}

/// The text of the increment `inc`: the shape of a version with `+` and the
/// amount in the place of the field that `inc` moves, and `*` for any label
/// where it moves the build counter.
pub open spec fn format_inc(inc: SemVersionInc) -> Seq<char> {
    match inc {
        SemVersionInc::Major(n) => "+"@ + decimal(n as nat) + ".0.0"@,
        SemVersionInc::Minor(n) => "0.+"@ + decimal(n as nat) + ".0"@,
        SemVersionInc::Patch(n) => "0.0.+"@ + decimal(n as nat),
        SemVersionInc::Build(n) => "0.0.0-*.+"@ + decimal(n as nat),
    }
}

impl SemVersionInc {
    /// Writes this increment: `+2.0.0`, `0.+1.0`, `0.0.+1` or `0.0.0-*.+1`.
    pub fn to_string(&self) -> (r: String)
        ensures
            r@ == format_inc(*self),
    {
        match self {
            SemVersionInc::Major(n) => {
                let mut r = "+".to_owned();
                r.append(decimal_string(*n).as_str());
                r.append(".0.0");
                r
            },
            SemVersionInc::Minor(n) => {
                let mut r = "0.+".to_owned();
                r.append(decimal_string(*n).as_str());
                r.append(".0");
                r
            },
            SemVersionInc::Patch(n) => {
                let mut r = "0.0.+".to_owned();
                r.append(decimal_string(*n).as_str());
                r
            },
            SemVersionInc::Build(n) => {
                let mut r = "0.0.0-*.+".to_owned();
                r.append(decimal_string(*n).as_str());
                r
            },
        }
    }
}

} // verus!
