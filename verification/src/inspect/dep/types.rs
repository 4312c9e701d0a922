//! Dependency records: kinds, version ranges, entries and reports.

use vstd::prelude::*;

use crate::text::{
    chars_of, find_char, first_index, lemma_first_index_found, lemma_strip_end_contains, lemma_strip_start_contains,
    lemma_trim_contains, opt_view, owned, skip_all, skip_all_back,
    push_str, starts_with, string_of, strip_all_end, strip_all_start, sub_string, trim, trim_bounds,
};

verus! {

/// The kind/semantics of a dependency entry.
#[derive(Debug, Clone, Copy, PartialEq, Eq, Structural)]
pub enum DepKind {
    Required,
    Optional,
    Recommended,
    Suggested,
    Incompatible,
    Discouraged,
    LoadBefore,
}

impl DepKind {
    /// The rank used when two entries name the same dependency.
    pub open spec fn rank(self) -> u8 {
        match self {
            DepKind::Required => 5,
            DepKind::LoadBefore => 4,
            DepKind::Optional => 3,
            DepKind::Recommended => 2,
            DepKind::Suggested => 1,
            DepKind::Incompatible | DepKind::Discouraged => 0,
        }
    }

    /// Kinds that mark a dependency that must not be present.
    pub open spec fn excluded(self) -> bool {
        self is Incompatible || self is Discouraged
    }

    /// The one-character marker shown in front of a dependency.
    pub open spec fn marker_text(self) -> Seq<char> {
        match self {
            DepKind::Required => "*"@,
            DepKind::Optional | DepKind::Recommended | DepKind::Suggested => "-"@,
            DepKind::LoadBefore => "<"@,
            DepKind::Incompatible | DepKind::Discouraged => "!"@,
        }
    }

    /// Required > LoadBefore > Optional > Recommended > Suggested > the excluded kinds.
    pub fn priority(self) -> (r: u8)
        ensures
            r == self.rank(),
    {
        match self {
            DepKind::Required => 5,
            DepKind::LoadBefore => 4,
            DepKind::Optional => 3,
            DepKind::Recommended => 2,
            DepKind::Suggested => 1,
            DepKind::Incompatible | DepKind::Discouraged => 0,
        }
    }

    /// Whether this kind marks an incompatible or discouraged dependency.
    pub fn is_excluded(self) -> (r: bool)
        ensures
            r == self.excluded(),
    {
        match self {
            DepKind::Incompatible | DepKind::Discouraged => true,
            _ => false,
        }
    }

    /// The marker used in the human-readable report.
    pub fn marker(self) -> (r: &'static str)
        ensures
            r@ == self.marker_text(),
    {
        match self {
            DepKind::Required => "*",
            DepKind::Optional | DepKind::Recommended | DepKind::Suggested => "-",
            DepKind::LoadBefore => "<",
            DepKind::Incompatible | DepKind::Discouraged => "!",
        }
    }
}

/// A parsed version range with structured bounds.
#[derive(Debug, Clone, PartialEq, Eq)]
pub struct VersionRange {
    pub min: Option<String>,
    pub max: Option<String>,
    pub min_inclusive: bool,
    pub max_inclusive: bool,
    pub raw: Option<String>,
}

/// The abstract value of a [`VersionRange`].
pub struct VersionRangeView {
    pub min: Option<Seq<char>>,
    pub max: Option<Seq<char>>,
    pub min_inclusive: bool,
    pub max_inclusive: bool,
    pub raw: Option<Seq<char>>,
}

impl View for VersionRange {
    type V = VersionRangeView;

    open spec fn view(&self) -> VersionRangeView {
        VersionRangeView {
            min: opt_view(self.min),
            max: opt_view(self.max),
            min_inclusive: self.min_inclusive,
            max_inclusive: self.max_inclusive,
            raw: opt_view(self.raw),
        }
    }
}

/// `Some(t)` unless `t` is empty.
pub open spec fn nonempty(t: Seq<char>) -> Option<Seq<char>> {
    if t.len() > 0 {
        Some(t)
    } else {
        None
    }
}

/// The range that matches every version.
pub open spec fn unbounded_range(raw: Option<Seq<char>>) -> VersionRangeView {
    VersionRangeView { min: None, max: None, min_inclusive: true, max_inclusive: false, raw }
}

/// `s` with leading `[` and then leading `(` removed, then trailing `]` and then trailing `)`.
pub open spec fn maven_inner(s: Seq<char>) -> Seq<char> {
    strip_all_end(strip_all_end(strip_all_start(strip_all_start(s, '['), '('), ']'), ')')
}

/// A Maven-style interval such as `[1.0,2.0)`; without a comma it pins one version.
pub open spec fn maven_range(s: Seq<char>, raw: Option<Seq<char>>) -> VersionRangeView {
    let inner = maven_inner(s);
    let k = first_index(inner, ',');
    if k >= 0 {
        VersionRangeView {
            min: nonempty(trim(inner.take(k))),
            max: nonempty(trim(inner.skip(k + 1))),
            min_inclusive: s.len() > 0 && s[0] == '[',
            max_inclusive: s.len() > 0 && s.last() == ']',
            raw,
        }
    } else {
        VersionRangeView {
            min: Some(inner),
            max: Some(inner),
            min_inclusive: true,
            max_inclusive: true,
            raw,
        }
    }
}

/// The two characters `>=`.
pub open spec fn at_least() -> Seq<char> {
    seq!['>', '=']
}

/// A comparison range such as `>=1.0 <2.0`, `>=1.0`, `<2.0`, or an exact version.
pub open spec fn simple_range(s: Seq<char>, raw: Option<Seq<char>>) -> VersionRangeView {
    let t = trim(s);
    let k = first_index(t, '<');
    if k >= 0 {
        let ge = trim(t.take(k));
        VersionRangeView {
            min: Some(
                if starts_with(ge, at_least()) {
                    ge.skip(2)
                } else {
                    ge
                },
            ),
            max: Some(trim(t.skip(k + 1))),
            min_inclusive: true,
            max_inclusive: false,
            raw,
        }
    } else if starts_with(t, at_least()) {
        VersionRangeView {
            min: Some(t.skip(2)),
            max: None,
            min_inclusive: true,
            max_inclusive: false,
            raw,
        }
    } else if starts_with(t, seq!['<']) {
        VersionRangeView {
            min: None,
            max: Some(t.skip(1)),
            min_inclusive: true,
            max_inclusive: false,
            raw,
        }
    } else {
        VersionRangeView { min: Some(t), max: Some(t), min_inclusive: true, max_inclusive: true, raw }
    }
}

/// Whether a raw range text says "any version" (absent, empty or `*`).
pub open spec fn is_wildcard(s: Seq<char>) -> bool {
    s.len() == 0 || s == seq!['*']
}

/// What [`VersionRange::parse`] builds from its argument.
pub open spec fn parse_range(raw: Option<Seq<char>>) -> VersionRangeView {
    match raw {
        Some(s) => if is_wildcard(s) {
            unbounded_range(raw)
        } else if s[0] == '[' || s[0] == '(' {
            maven_range(s, raw)
        } else {
            simple_range(s, raw)
        },
        None => unbounded_range(raw),
    }
}

/// The text of a range: its raw form, or `*`.
pub open spec fn range_text(v: VersionRangeView) -> Seq<char> {
    match v.raw {
        Some(r) => r,
        None => "*"@,
    }
}

/// A copy of an optional string.
pub fn copy_opt(o: &Option<String>) -> (r: Option<String>)
    ensures
        r == *o,
{
    match o {
        Some(s) => Some(s.clone()),
        None => None,
    }
}

impl VersionRange {
    /// Parses a dependency version constraint; the raw text is kept as given.
    pub fn parse(raw: Option<String>) -> (r: Self)
        ensures
            r@ == parse_range(opt_view(raw)),
    {
        match &raw {
            Some(s) => {
                let chars = chars_of(s.as_str());
                let wildcard = chars.len() == 0 || (chars.len() == 1 && chars[0] == '*');
                proof {
                    if chars@.len() == 1 && chars@[0] == '*' {
                        assert(chars@ =~= seq!['*']);
                    }
                    if chars@ == seq!['*'] {
                        assert(chars@[0] == '*');
                    }
                }
                if wildcard {
                    VersionRange {
                        min: None,
                        max: None,
                        min_inclusive: true,
                        max_inclusive: false,
                        raw: copy_opt(&raw),
                    }
                } else if chars[0] == '[' || chars[0] == '(' {
                    Self::parse_maven(chars.as_slice(), copy_opt(&raw))
                } else {
                    Self::parse_simple(chars.as_slice(), copy_opt(&raw))
                }
            },
            None => VersionRange {
                min: None,
                max: None,
                min_inclusive: true,
                max_inclusive: false,
                raw: None,
            },
        }
    }

    /// Parses a Maven-style interval.
    pub fn parse_maven(s: &[char], raw: Option<String>) -> (r: Self)
        ensures
            r@ == maven_range(s@, opt_view(raw)),
    {
        let n = s.len();
        proof {
            assert(s@.subrange(0, n as int) =~= s@);
        }
        let min_inclusive = n > 0 && s[0] == '[';
        let max_inclusive = n > 0 && s[n - 1] == ']';
        let a0 = skip_all(s, 0, n, '[');
        let a = skip_all(s, a0, n, '(');
        let b0 = skip_all_back(s, a, n, ']');
        let b = skip_all_back(s, a, b0, ')');
        let inner = &s[a..b];
        proof {
            assert(inner@ == maven_inner(s@));
        }
        match find_char(inner, ',') {
            Some(k) => {
                let (l0, l1) = trim_bounds(inner, 0, k);
                let (r0, r1) = trim_bounds(inner, k + 1, inner.len());
                proof {
                    assert(inner@.take(k as int) == inner@.subrange(0, k as int));
                    assert(inner@.skip(k + 1) == inner@.subrange(k + 1, inner@.len() as int));
                }
                let min = if l0 < l1 {
                    Some(sub_string(inner, l0, l1))
                } else {
                    None
                };
                let max = if r0 < r1 {
                    Some(sub_string(inner, r0, r1))
                } else {
                    None
                };
                VersionRange { min, max, min_inclusive, max_inclusive, raw }
            },
            None => VersionRange {
                min: Some(string_of(inner)),
                max: Some(string_of(inner)),
                min_inclusive: true,
                max_inclusive: true,
                raw,
            },
        }
    }

    /// Parses a comparison range or an exact version.
    pub fn parse_simple(s: &[char], raw: Option<String>) -> (r: Self)
        ensures
            r@ == simple_range(s@, opt_view(raw)),
    {
        let n = s.len();
        proof {
            assert(s@.subrange(0, n as int) =~= s@);
        }
        let (t0, t1) = trim_bounds(s, 0, n);
        let t = &s[t0..t1];
        let tn = t.len();
        let ge_prefix = tn >= 2 && t[0] == '>' && t[1] == '=';
        proof {
            if tn >= 2 {
                if t@[0] == '>' && t@[1] == '=' {
                    assert(t@.take(2) =~= at_least());
                }
                if t@.take(2) == at_least() {
                    assert(t@.take(2)[0] == '>' && t@.take(2)[1] == '=');
                }
            }
            if tn >= 1 {
                if t@[0] == '<' {
                    assert(t@.take(1) =~= seq!['<']);
                }
                if t@.take(1) == seq!['<'] {
                    assert(t@.take(1)[0] == '<');
                }
            }
        }
        match find_char(t, '<') {
            Some(k) => {
                let (g0, g1) = trim_bounds(t, 0, k);
                let (l0, l1) = trim_bounds(t, k + 1, tn);
                proof {
                    assert(t@.take(k as int) == t@.subrange(0, k as int));
                    assert(t@.skip(k + 1) == t@.subrange(k + 1, tn as int));
                }
                let ge = &t[g0..g1];
                let stripped = ge.len() >= 2 && ge[0] == '>' && ge[1] == '=';
                proof {
                    if ge@.len() >= 2 {
                        if ge@[0] == '>' && ge@[1] == '=' {
                            assert(ge@.take(2) =~= at_least());
                        }
                        if ge@.take(2) == at_least() {
                            assert(ge@.take(2)[0] == '>' && ge@.take(2)[1] == '=');
                        }
                    }
                    assert(ge@.skip(2) == ge@.subrange(2, ge@.len() as int));
                }
                let min = if stripped {
                    sub_string(ge, 2, ge.len())
                } else {
                    string_of(ge)
                };
                VersionRange {
                    min: Some(min),
                    max: Some(sub_string(t, l0, l1)),
                    min_inclusive: true,
                    max_inclusive: false,
                    raw,
                }
            },
            None => {
                proof {
                    assert(t@.skip(2) == t@.subrange(2, tn as int));
                    assert(t@.skip(1) == t@.subrange(1, tn as int));
                }
                if ge_prefix {
                    VersionRange {
                        min: Some(sub_string(t, 2, tn)),
                        max: None,
                        min_inclusive: true,
                        max_inclusive: false,
                        raw,
                    }
                } else if tn >= 1 && t[0] == '<' {
                    VersionRange {
                        min: None,
                        max: Some(sub_string(t, 1, tn)),
                        min_inclusive: true,
                        max_inclusive: false,
                        raw,
                    }
                } else {
                    VersionRange {
                        min: Some(string_of(t)),
                        max: Some(string_of(t)),
                        min_inclusive: true,
                        max_inclusive: true,
                        raw,
                    }
                }
            },
        }
    }

    /// The range as shown to users: the raw constraint, or `*`.
    pub fn to_string(&self) -> (r: String)
        ensures
            r@ == range_text(self@),
    {
        match &self.raw {
            Some(r) => r.clone(),
            None => owned("*"),
        }
    }

    /// A copy of this range.
    pub fn duplicate(&self) -> (r: Self)
        ensures
            r@ == self@,
    {
        VersionRange {
            min: copy_opt(&self.min),
            max: copy_opt(&self.max),
            min_inclusive: self.min_inclusive,
            max_inclusive: self.max_inclusive,
            raw: copy_opt(&self.raw),
        }
    }
}

/// A single dependency entry extracted from mod metadata.
#[derive(Debug, Clone, PartialEq)]
pub struct DepEntry {
    pub name: String,
    pub kind: DepKind,
    pub version_range: VersionRange,
}

/// The abstract value of a [`DepEntry`].
pub struct DepEntryView {
    pub name: Seq<char>,
    pub kind: DepKind,
    pub version_range: VersionRangeView,
}

impl View for DepEntry {
    type V = DepEntryView;

    open spec fn view(&self) -> DepEntryView {
        DepEntryView { name: self.name@, kind: self.kind, version_range: self.version_range@ }
    }
}

/// The entries of a sequence of dependencies, as abstract values.
pub open spec fn entries_view(v: Seq<DepEntry>) -> Seq<DepEntryView> {
    v.map_values(|e: DepEntry| e@)
}

/// Whether a range carries any information worth showing.
pub open spec fn range_shown(v: VersionRangeView) -> bool {
    v.raw is Some || v.min is Some || v.max is Some
}

/// The report line of one dependency (without the line break).
pub open spec fn dep_line(e: DepEntryView) -> Seq<char> {
    "  "@ + e.kind.marker_text() + " "@ + e.name + if range_shown(e.version_range) {
        " ("@ + range_text(e.version_range) + ")"@
    } else {
        Seq::empty()
    }
}

impl DepEntry {
    /// Builds an entry.
    pub fn new(name: &str, kind: DepKind, version_range: VersionRange) -> (r: Self)
        ensures
            r.name@ == name@,
            r.kind == kind,
            r.version_range == version_range,
    {
        DepEntry { name: owned(name), kind, version_range }
    }

    /// The entry as one report line: marker, name and, when known, the range.
    pub fn to_string(&self) -> (r: String)
        ensures
            r@ == dep_line(self@),
    {
        let mut out = owned("  ");
        push_str(&mut out, self.kind.marker());
        push_str(&mut out, " ");
        push_str(&mut out, self.name.as_str());
        let vr = &self.version_range;
        if vr.raw.is_some() || vr.min.is_some() || vr.max.is_some() {
            push_str(&mut out, " (");
            let t = vr.to_string();
            push_str(&mut out, t.as_str());
            push_str(&mut out, ")");
        }
        proof {
            let e = self@;
            if range_shown(e.version_range) {
                assert(out@ =~= dep_line(e));
            } else {
                assert(out@ =~= dep_line(e));
            }
        }
        out
    }

    /// A copy of this entry.
    pub fn duplicate(&self) -> (r: Self)
        ensures
            r@ == self@,
    {
        DepEntry {
            name: self.name.clone(),
            kind: self.kind,
            version_range: self.version_range.duplicate(),
        }
    }
}

/// An embedded JAR found inside the main archive.
#[derive(Debug, Clone, PartialEq)]
pub struct JarInJar {
    pub path: String,
}

impl JarInJar {
    /// The report line of an embedded JAR (without the line break).
    pub fn to_string(&self) -> (r: String)
        ensures
            r@ == "  / "@ + self.path@,
    {
        let mut out = owned("  / ");
        push_str(&mut out, self.path.as_str());
        out
    }
}

/// The paths of a sequence of embedded JARs.
pub open spec fn jar_paths(v: Seq<JarInJar>) -> Seq<Seq<char>> {
    v.map_values(|j: JarInJar| j.path@)
}

/// Full dependency analysis report for a single JAR.
#[derive(Debug, Clone, PartialEq)]
pub struct DepReport {
    pub dependencies: Vec<DepEntry>,
    pub jar_in_jar: Vec<JarInJar>,
}

/// Whether some dependency is optional, recommended or suggested.
pub open spec fn has_soft(deps: Seq<DepEntryView>) -> bool {
    exists|i: int|
        0 <= i < deps.len() && (#[trigger] deps[i].kind is Optional || deps[i].kind is Recommended
            || deps[i].kind is Suggested)
}

/// Whether some dependency must be loaded before this one.
pub open spec fn has_load_before(deps: Seq<DepEntryView>) -> bool {
    exists|i: int| 0 <= i < deps.len() && (#[trigger] deps[i].kind is LoadBefore)
}

/// The dependency lines, each followed by a line break.
pub open spec fn dep_lines(deps: Seq<DepEntryView>) -> Seq<char>
    decreases deps.len(),
{
    if deps.len() == 0 {
        Seq::empty()
    } else {
        dep_lines(deps.drop_last()) + dep_line(deps.last()) + "\n"@
    }
}

/// The embedded-JAR lines, each followed by a line break.
pub open spec fn jar_lines(paths: Seq<Seq<char>>) -> Seq<char>
    decreases paths.len(),
{
    if paths.len() == 0 {
        Seq::empty()
    } else {
        jar_lines(paths.drop_last()) + "  / "@ + paths.last() + "\n"@
    }
}

/// The legend that explains the markers used in a report.
pub open spec fn report_legend(deps: Seq<DepEntryView>, paths: Seq<Seq<char>>) -> Seq<char> {
    "* required\n"@ + (if has_soft(deps) {
        "- optional/recommended/suggested\n"@
    } else {
        Seq::empty()
    }) + (if has_load_before(deps) {
        "< load before\n"@
    } else {
        Seq::empty()
    }) + (if paths.len() > 0 {
        "/ jar-in-jar\n"@
    } else {
        Seq::empty()
    }) + "------\n"@ + "\n"@
}

/// The human-readable report: nothing when there is nothing to report,
/// otherwise the legend followed by the dependency and jar-in-jar sections.
pub open spec fn report_text(deps: Seq<DepEntryView>, paths: Seq<Seq<char>>) -> Seq<char> {
    if deps.len() == 0 && paths.len() == 0 {
        Seq::empty()
    } else {
        report_legend(deps, paths) + (if deps.len() > 0 {
            "Dependencies:\n"@ + dep_lines(deps)
        } else {
            Seq::empty()
        }) + (if paths.len() > 0 {
            (if deps.len() > 0 {
                "\n"@
            } else {
                Seq::empty()
            }) + "Jar-in-jar:\n"@ + jar_lines(paths)
        } else {
            Seq::empty()
        })
    }
}

impl DepReport {
    /// The human-readable report.
    pub fn to_string(&self) -> (r: String)
        ensures
            r@ == report_text(entries_view(self.dependencies@), jar_paths(self.jar_in_jar@)),
    {
        let ghost deps = entries_view(self.dependencies@);
        let ghost paths = jar_paths(self.jar_in_jar@);
        if self.dependencies.len() == 0 && self.jar_in_jar.len() == 0 {
            return String::new();
        }
        let mut soft = false;
        let mut load_before = false;
        let mut i: usize = 0;
        while i < self.dependencies.len()
            invariant
                i <= self.dependencies@.len(),
                deps == entries_view(self.dependencies@),
                soft == exists|j: int|
                    0 <= j < i && (#[trigger] deps[j].kind is Optional || deps[j].kind is Recommended
                        || deps[j].kind is Suggested),
                load_before == exists|j: int| 0 <= j < i && (#[trigger] deps[j].kind is LoadBefore),
            decreases self.dependencies@.len() - i,
        {
            let k = self.dependencies[i].kind;
            proof {
                assert(deps[i as int].kind == k);
            }
            match k {
                DepKind::Optional | DepKind::Recommended | DepKind::Suggested => {
                    soft = true;
                },
                DepKind::LoadBefore => {
                    load_before = true;
                },
                _ => {},
            }
            i = i + 1;
        }
        let mut out = owned("* required\n");
        if soft {
            push_str(&mut out, "- optional/recommended/suggested\n");
        }
        if load_before {
            push_str(&mut out, "< load before\n");
        }
        if self.jar_in_jar.len() > 0 {
            push_str(&mut out, "/ jar-in-jar\n");
        }
        push_str(&mut out, "------\n");
        push_str(&mut out, "\n");
        proof {
            assert(out@ =~= report_legend(deps, paths));
        }
        let ghost legend = out@;
        if self.dependencies.len() > 0 {
            push_str(&mut out, "Dependencies:\n");
            let ghost head = out@;
            let mut j: usize = 0;
            while j < self.dependencies.len()
                invariant
                    j <= self.dependencies@.len(),
                    deps == entries_view(self.dependencies@),
                    out@ == head + dep_lines(deps.take(j as int)),
                decreases self.dependencies@.len() - j,
            {
                let line = self.dependencies[j].to_string();
                push_str(&mut out, line.as_str());
                push_str(&mut out, "\n");
                proof {
                    assert(deps.take(j + 1).drop_last() =~= deps.take(j as int));
                    assert(deps.take(j + 1).last() == self.dependencies@[j as int]@);
                    assert(out@ =~= head + dep_lines(deps.take(j + 1)));
                }
                j = j + 1;
            }
            proof {
                assert(deps.take(deps.len() as int) =~= deps);
            }
        }
        let ghost mid = out@;
        if self.jar_in_jar.len() > 0 {
            if self.dependencies.len() > 0 {
                push_str(&mut out, "\n");
            }
            push_str(&mut out, "Jar-in-jar:\n");
            let ghost head = out@;
            let mut j: usize = 0;
            while j < self.jar_in_jar.len()
                invariant
                    j <= self.jar_in_jar@.len(),
                    paths == jar_paths(self.jar_in_jar@),
                    out@ == head + jar_lines(paths.take(j as int)),
                decreases self.jar_in_jar@.len() - j,
            {
                let line = self.jar_in_jar[j].to_string();
                push_str(&mut out, line.as_str());
                push_str(&mut out, "\n");
                proof {
                    assert(paths.take(j + 1).drop_last() =~= paths.take(j as int));
                    assert(paths.take(j + 1).last() == self.jar_in_jar@[j as int].path@);
                    assert(out@ =~= head + jar_lines(paths.take(j + 1)));
                }
                j = j + 1;
            }
            proof {
                assert(paths.take(paths.len() as int) =~= paths);
            }
        }
        proof {
            assert(out@ =~= report_text(deps, paths));
        }
        out
    }
}

/// Law: a comparison range holding `<` (any text that is not a Maven
/// interval) leaves its upper bound out.
pub proof fn lemma_less_than_excludes_max(s: Seq<char>)
    requires
        s.len() > 0,
        s[0] != '[',
        s[0] != '(',
        s.contains('<'),
    ensures
        parse_range(Some(s)).max_inclusive == false,
        parse_range(Some(s)).max is Some,
{
    if s == seq!['*'] {
        assert(!s.contains('<'));
    }
    lemma_trim_contains(s, '<');
    lemma_first_index_found(trim(s), '<');
}

/// Law: a parsed range includes its maximum only when it pins one version
/// (its minimum is its maximum) or is a Maven interval closed by `]`.
pub proof fn lemma_inclusive_max_only_closed(raw: Option<Seq<char>>)
    ensures
        parse_range(raw).max_inclusive ==> (parse_range(raw).min is Some && parse_range(raw).min
            == parse_range(raw).max) || (raw matches Some(s) && s.len() > 0 && (s[0] == '[' || s[0] == '(')
            && s.last() == ']'),
{
}

/// Law: a Maven interval with a comma includes its minimum exactly when it
/// opens with `[`, and its maximum exactly when it closes with `]`.
pub proof fn lemma_maven_bounds(s: Seq<char>)
    requires
        s.len() > 0,
        s[0] == '[' || s[0] == '(',
        s.contains(','),
    ensures
        parse_range(Some(s)).min_inclusive == (s[0] == '['),
        parse_range(Some(s)).max_inclusive == (s.last() == ']'),
{
    let a = strip_all_start(s, '[');
    let b = strip_all_start(a, '(');
    let c = strip_all_end(b, ']');
    lemma_strip_start_contains(s, '[', ',');
    lemma_strip_start_contains(a, '(', ',');
    lemma_strip_end_contains(b, ']', ',');
    lemma_strip_end_contains(c, ')', ',');
    lemma_first_index_found(maven_inner(s), ',');
    assert(!is_wildcard(s));
}

} // verus!
