//! Dependency analysis of a mod archive: merging duplicate declarations,
//! finding embedded JARs and dropping the dependencies they bundle.

pub mod types;

use vstd::prelude::*;

use crate::inspect::archive::{has_extension, has_extension_ci, stem, stem_of, ZipEntry};
use crate::text::{chars_of, has_prefix, starts_with};
use self::types::{
    entries_view, jar_paths, DepEntry, DepEntryView, DepKind, DepReport, JarInJar,
};

verus! {

/// The position of the first entry named `name`, or -1.
pub open spec fn name_pos(s: Seq<DepEntryView>, name: Seq<char>) -> int
    decreases s.len(),
{
    if s.len() == 0 {
        -1
    } else if s[0].name == name {
        0
    } else {
        let r = name_pos(s.drop_first(), name);
        if r < 0 {
            -1
        } else {
            r + 1
        }
    }
}

/// `e` with its kind replaced by `kind`.
pub open spec fn with_kind(e: DepEntryView, kind: DepKind) -> DepEntryView {
    DepEntryView { name: e.name, kind, version_range: e.version_range }
}

/// Declarations merged by name, in order of first appearance: a later
/// declaration replaces the kind of the earlier one only when its kind has a
/// strictly higher priority; the earlier version range is kept.
pub open spec fn dedup(s: Seq<DepEntryView>) -> Seq<DepEntryView>
    decreases s.len(),
{
    if s.len() == 0 {
        Seq::empty()
    } else {
        let prev = dedup(s.drop_last());
        let d = s.last();
        let p = name_pos(prev, d.name);
        if 0 <= p < prev.len() {
            if d.kind.rank() > prev[p].kind.rank() {
                prev.update(p, with_kind(prev[p], d.kind))
            } else {
                prev
            }
        } else {
            prev.push(d)
        }
    }
}

/// `name_pos` finds the first entry with that name.
pub proof fn lemma_name_pos(s: Seq<DepEntryView>, name: Seq<char>)
    ensures
        -1 <= name_pos(s, name) < s.len(),
        name_pos(s, name) >= 0 ==> s[name_pos(s, name)].name == name,
        name_pos(s, name) >= 0 ==> forall|j: int| 0 <= j < name_pos(s, name) ==> s[j].name != name,
        name_pos(s, name) < 0 ==> forall|j: int| 0 <= j < s.len() ==> s[j].name != name,
    decreases s.len(),
{
    if s.len() > 0 && s[0].name != name {
        lemma_name_pos(s.drop_first(), name);
        assert forall|j: int| 0 < j < s.len() implies s[j].name == s.drop_first()[j - 1].name by {}
    }
}

/// No name occurs twice.
pub open spec fn unique_names(s: Seq<DepEntryView>) -> bool {
    forall|i: int, j: int| 0 <= i < j < s.len() ==> s[i].name != s[j].name
}

/// One merge step: how `dedup(s)` extends `dedup(s.drop_last())`.
pub proof fn lemma_dedup_step(s: Seq<DepEntryView>)
    requires
        s.len() > 0,
    ensures
        ({
            let prev = dedup(s.drop_last());
            let out = dedup(s);
            let d = s.last();
            let p = name_pos(prev, d.name);
            &&& -1 <= p < prev.len()
            &&& out.len() == if p < 0 {
                prev.len() + 1int
            } else {
                prev.len() as int
            }
            &&& forall|j: int| 0 <= j < prev.len() ==> #[trigger] out[j].name == prev[j].name
            &&& forall|j: int| 0 <= j < prev.len() && j != p ==> #[trigger] out[j] == prev[j]
            &&& p < 0 ==> out[prev.len() as int] == d
            &&& p < 0 ==> forall|j: int| 0 <= j < prev.len() ==> #[trigger] prev[j].name != d.name
            &&& p >= 0 ==> prev[p].name == d.name
            &&& p >= 0 ==> out[p].kind == if d.kind.rank() > prev[p].kind.rank() {
                d.kind
            } else {
                prev[p].kind
            }
        }),
{
    let prev = dedup(s.drop_last());
    lemma_name_pos(prev, s.last().name);
}

/// Law: merging keeps at most one entry per name.
pub proof fn lemma_dedup_unique(s: Seq<DepEntryView>)
    ensures
        unique_names(dedup(s)),
    decreases s.len(),
{
    if s.len() > 0 {
        lemma_dedup_unique(s.drop_last());
        lemma_dedup_step(s);
        let prev = dedup(s.drop_last());
        let out = dedup(s);
        assert forall|i: int, j: int| 0 <= i < j < out.len() implies out[i].name != out[j].name by {
            if j < prev.len() {
                assert(out[i].name == prev[i].name);
                assert(out[j].name == prev[j].name);
            } else {
                assert(out[i].name == prev[i].name);
            }
        }
    }
}

/// Law: every declared name is kept.
pub proof fn lemma_dedup_covers(s: Seq<DepEntryView>)
    ensures
        forall|i: int|
            #![trigger s[i]]
            0 <= i < s.len() ==> exists|j: int|
                0 <= j < dedup(s).len() && #[trigger] dedup(s)[j].name == s[i].name,
    decreases s.len(),
{
    if s.len() > 0 {
        let t = s.drop_last();
        lemma_dedup_covers(t);
        lemma_dedup_step(s);
        let prev = dedup(t);
        let out = dedup(s);
        let p = name_pos(prev, s.last().name);
        assert forall|i: int| #![trigger s[i]] 0 <= i < s.len() implies exists|j: int|
            0 <= j < out.len() && #[trigger] out[j].name == s[i].name by {
            if i < s.len() - 1 {
                assert(s[i] == t[i]);
                let j = choose|j: int| 0 <= j < prev.len() && #[trigger] prev[j].name == t[i].name;
                assert(out[j].name == s[i].name);
            } else if p >= 0 {
                assert(out[p].name == s[i].name);
            } else {
                assert(out[prev.len() as int].name == s[i].name);
            }
        }
    }
}

/// Law: every kept entry carries a name and a kind declared together.
pub proof fn lemma_dedup_sources(s: Seq<DepEntryView>)
    ensures
        forall|j: int|
            0 <= j < dedup(s).len() ==> exists|i: int|
                0 <= i < s.len() && s[i].name == #[trigger] dedup(s)[j].name && s[i].kind
                    == dedup(s)[j].kind,
    decreases s.len(),
{
    if s.len() > 0 {
        let t = s.drop_last();
        lemma_dedup_sources(t);
        lemma_dedup_step(s);
        let prev = dedup(t);
        let out = dedup(s);
        let d = s.last();
        let p = name_pos(prev, d.name);
        assert forall|j: int| 0 <= j < out.len() implies exists|i: int|
            0 <= i < s.len() && s[i].name == #[trigger] out[j].name && s[i].kind == out[j].kind by {
            if p >= 0 && j == p && d.kind.rank() > prev[p].kind.rank() {
                assert(s[s.len() - 1].name == out[j].name);
            } else if p < 0 && j == prev.len() {
                assert(s[s.len() - 1].name == out[j].name);
            } else {
                if j == p {
                    assert(out[j].kind == prev[j].kind);
                } else {
                    assert(out[j] == prev[j]);
                }
                let i = choose|i: int|
                    0 <= i < t.len() && t[i].name == #[trigger] prev[j].name && t[i].kind
                        == prev[j].kind;
                assert(s[i] == t[i]);
            }
        }
    }
}

/// Law: the kept kind of a name has the highest priority among its declarations.
pub proof fn lemma_dedup_priority(s: Seq<DepEntryView>)
    ensures
        forall|i: int, j: int|
            #![trigger s[i], dedup(s)[j]]
            0 <= i < s.len() && 0 <= j < dedup(s).len() && s[i].name == dedup(s)[j].name
                ==> s[i].kind.rank() <= dedup(s)[j].kind.rank(),
    decreases s.len(),
{
    if s.len() > 0 {
        let t = s.drop_last();
        lemma_dedup_priority(t);
        lemma_dedup_covers(t);
        lemma_dedup_unique(t);
        lemma_dedup_step(s);
        let prev = dedup(t);
        let out = dedup(s);
        let d = s.last();
        let p = name_pos(prev, d.name);
        assert forall|i: int, j: int|
            #![trigger s[i], out[j]]
            0 <= i < s.len() && 0 <= j < out.len() && s[i].name == out[j].name implies s[i].kind.rank()
            <= out[j].kind.rank() by {
            if i < s.len() - 1 {
                assert(s[i] == t[i]);
                if p < 0 && j == prev.len() {
                    let k = choose|k: int| 0 <= k < prev.len() && #[trigger] prev[k].name == t[i].name;
                    assert(prev[k].name != d.name);
                } else if j == p {
                    assert(t[i].kind.rank() <= prev[j].kind.rank());
                } else {
                    assert(out[j] == prev[j]);
                    assert(t[i].kind.rank() <= prev[j].kind.rank());
                }
            } else {
                if p >= 0 && j != p {
                    assert(out[j].name == prev[j].name);
                    assert(prev[j].name == prev[p].name);
                } else if p < 0 {
                    if j < prev.len() {
                        assert(out[j].name == prev[j].name);
                    }
                }
            }
        }
    }
}

impl DepEntry {
    /// The position of the first entry in `v` named `name`.
    pub fn position_in(v: &Vec<DepEntry>, name: &String) -> (r: Option<usize>)
        ensures
            match r {
                Some(p) => name_pos(entries_view(v@), name@) == p,
                None => name_pos(entries_view(v@), name@) == -1,
            },
    {
        let ghost s = entries_view(v@);
        let mut i: usize = 0;
        while i < v.len()
            invariant
                i <= v@.len(),
                s == entries_view(v@),
                forall|j: int| 0 <= j < i ==> s[j].name != name@,
            decreases v@.len() - i,
        {
            if v[i].name == *name {
                proof {
                    lemma_name_pos(s, name@);
                    let q = name_pos(s, name@);
                    if q >= 0 && q < i {
                        assert(s[q].name == name@);
                    }
                    if q < 0 {
                        assert(s[i as int].name == name@);
                    }
                }
                return Some(i);
            }
            i = i + 1;
        }
        proof {
            lemma_name_pos(s, name@);
            let q = name_pos(s, name@);
            if q >= 0 {
                assert(s[q].name == name@);
            }
        }
        None
    }
}

/// Merge duplicate `DepEntry` values by name; the higher-priority kind wins.
pub fn dedup_deps(raw: Vec<DepEntry>) -> (r: Vec<DepEntry>)
    ensures
        entries_view(r@) == dedup(entries_view(raw@)),
{
    let ghost input = entries_view(raw@);
    let mut out: Vec<DepEntry> = Vec::new();
    let mut i: usize = 0;
    while i < raw.len()
        invariant
            i <= raw@.len(),
            input == entries_view(raw@),
            entries_view(out@) == dedup(input.take(i as int)),
        decreases raw@.len() - i,
    {
        let dep = &raw[i];
        proof {
            assert(input.take(i + 1).drop_last() =~= input.take(i as int));
            assert(input.take(i + 1).last() == dep@);
            lemma_name_pos(entries_view(out@), dep.name@);
        }
        match DepEntry::position_in(&out, &dep.name) {
            Some(pos) => {
                if dep.kind.priority() > out[pos].kind.priority() {
                    let merged = DepEntry {
                        name: out[pos].name.clone(),
                        kind: dep.kind,
                        version_range: out[pos].version_range.duplicate(),
                    };
                    let ghost before = out@;
                    out.set(pos, merged);
                    proof {
                        assert(entries_view(out@) =~= entries_view(before).update(
                            pos as int,
                            with_kind(entries_view(before)[pos as int], dep.kind),
                        ));
                    }
                }
            },
            None => {
                let ghost before = out@;
                out.push(dep.duplicate());
                proof {
                    assert(entries_view(out@) =~= entries_view(before).push(dep@));
                }
            },
        }
        i = i + 1;
    }
    proof {
        assert(input.take(raw@.len() as int) =~= input);
    }
    out
}

/// The three characters of `jar`.
pub open spec fn jar_lower() -> Seq<char> {
    seq!['j', 'a', 'r']
}

/// The three characters of `JAR`.
pub open spec fn jar_upper() -> Seq<char> {
    seq!['J', 'A', 'R']
}

/// Whether an archive entry is an embedded JAR: a file whose extension is
/// `jar` in any ASCII case.
pub open spec fn is_embedded_jar(e: ZipEntry) -> bool {
    !e.is_dir && has_extension(e.name@, jar_lower(), jar_upper())
}

/// The paths of the embedded JARs, in archive order.
pub open spec fn embedded_jars(entries: Seq<ZipEntry>) -> Seq<Seq<char>>
    decreases entries.len(),
{
    if entries.len() == 0 {
        Seq::empty()
    } else {
        let prev = embedded_jars(entries.drop_last());
        if is_embedded_jar(entries.last()) {
            prev.push(entries.last().name@)
        } else {
            prev
        }
    }
}

/// A vector holding the characters of `t`.
pub fn char_vec3(a: char, b: char, c: char) -> (r: Vec<char>)
    ensures
        r@ == seq![a, b, c],
{
    let mut v: Vec<char> = Vec::new();
    v.push(a);
    v.push(b);
    v.push(c);
    proof {
        assert(v@ =~= seq![a, b, c]);
    }
    v
}

/// The embedded JARs of an archive (files ending in `.jar`, any case).
pub fn find_embedded_jars(entries: &[ZipEntry]) -> (r: Vec<JarInJar>)
    ensures
        jar_paths(r@) == embedded_jars(entries@),
{
    let lower = char_vec3('j', 'a', 'r');
    let upper = char_vec3('J', 'A', 'R');
    let mut out: Vec<JarInJar> = Vec::new();
    let mut i: usize = 0;
    while i < entries.len()
        invariant
            i <= entries@.len(),
            lower@ == jar_lower(),
            upper@ == jar_upper(),
            jar_paths(out@) == embedded_jars(entries@.take(i as int)),
        decreases entries@.len() - i,
    {
        let e = &entries[i];
        proof {
            assert(entries@.take(i + 1).drop_last() =~= entries@.take(i as int));
            assert(entries@.take(i + 1).last() == *e);
        }
        if !e.is_dir && has_extension_ci(e.name.as_str(), lower.as_slice(), upper.as_slice()) {
            let ghost before = out@;
            out.push(JarInJar { path: e.name.clone() });
            proof {
                assert(jar_paths(out@) =~= jar_paths(before).push(e.name@));
            }
        }
        i = i + 1;
    }
    proof {
        assert(entries@.take(entries@.len() as int) =~= entries@);
    }
    out
}

/// Whether the JAR at `path` bundles the dependency `name`: its stem is the
/// name, or starts with the name followed by `-`.
pub open spec fn bundles(path: Seq<char>, name: Seq<char>) -> bool {
    stem(path) == name || starts_with(stem(path), name.push('-'))
}

/// Whether some embedded JAR bundles `name`.
pub open spec fn bundled(name: Seq<char>, jars: Seq<Seq<char>>) -> bool {
    exists|i: int| 0 <= i < jars.len() && #[trigger] bundles(jars[i], name)
}

/// Whether one of `jars` bundles the dependency `name`.
pub fn is_bundled(name: &str, jars: &[JarInJar]) -> (r: bool)
    ensures
        r == bundled(name@, jar_paths(jars@)),
{
    let ghost paths = jar_paths(jars@);
    let mut prefix = chars_of(name);
    let n = prefix.clone();
    prefix.push('-');
    let mut i: usize = 0;
    while i < jars.len()
        invariant
            i <= jars@.len(),
            paths == jar_paths(jars@),
            n@ == name@,
            prefix@ == name@.push('-'),
            forall|j: int| 0 <= j < i ==> !#[trigger] bundles(paths[j], name@),
        decreases jars@.len() - i,
    {
        let path = chars_of(jars[i].path.as_str());
        let st = stem_of(path.as_slice());
        proof {
            assert(paths[i as int] == jars@[i as int].path@);
        }
        if crate::text::chars_eq(st.as_slice(), n.as_slice()) || has_prefix(
            st.as_slice(),
            prefix.as_slice(),
        ) {
            proof {
                assert(bundles(paths[i as int], name@));
            }
            return true;
        }
        i = i + 1;
    }
    false
}

/// The entries whose names are not bundled by one of `jars`, in order.
pub open spec fn unbundled(deps: Seq<DepEntryView>, jars: Seq<Seq<char>>) -> Seq<DepEntryView>
    decreases deps.len(),
{
    if deps.len() == 0 {
        Seq::empty()
    } else {
        let prev = unbundled(deps.drop_last(), jars);
        if bundled(deps.last().name, jars) {
            prev
        } else {
            prev.push(deps.last())
        }
    }
}

/// The dependency report of an archive, given its entries and the
/// dependencies its loader declares: declarations are merged by name, those
/// bundled in an embedded JAR are dropped, and the embedded JARs are listed
/// only when `include_jij` is set.
pub fn analyze_entries(entries: &[ZipEntry], raw: Vec<DepEntry>, include_jij: bool) -> (r:
    DepReport)
    ensures
        entries_view(r.dependencies@) == unbundled(
            dedup(entries_view(raw@)),
            embedded_jars(entries@),
        ),
        jar_paths(r.jar_in_jar@) == if include_jij {
            embedded_jars(entries@)
        } else {
            Seq::<Seq<char>>::empty()
        },
{
    let merged = dedup_deps(raw);
    let jars = find_embedded_jars(entries);
    let ghost m = entries_view(merged@);
    let ghost paths = jar_paths(jars@);
    let mut dependencies: Vec<DepEntry> = Vec::new();
    let mut i: usize = 0;
    while i < merged.len()
        invariant
            i <= merged@.len(),
            m == entries_view(merged@),
            paths == jar_paths(jars@),
            entries_view(dependencies@) == unbundled(m.take(i as int), paths),
        decreases merged@.len() - i,
    {
        let dep = &merged[i];
        proof {
            assert(m.take(i + 1).drop_last() =~= m.take(i as int));
            assert(m.take(i + 1).last() == dep@);
        }
        if !is_bundled(dep.name.as_str(), jars.as_slice()) {
            let ghost before = dependencies@;
            dependencies.push(dep.duplicate());
            proof {
                assert(entries_view(dependencies@) =~= entries_view(before).push(dep@));
            }
        }
        i = i + 1;
    }
    proof {
        assert(m.take(m.len() as int) =~= m);
    }
    let jar_in_jar = if include_jij {
        jars
    } else {
        Vec::new()
    };
    proof {
        if !include_jij {
            assert(jar_paths(jar_in_jar@) =~= Seq::<Seq<char>>::empty());
        }
    }
    DepReport { dependencies, jar_in_jar }
}

/// Law: no reported dependency is bundled in one of the embedded JARs, and
/// every merged dependency that no embedded JAR bundles is reported.
pub proof fn lemma_unbundled(deps: Seq<DepEntryView>, jars: Seq<Seq<char>>)
    ensures
        forall|i: int|
            0 <= i < unbundled(deps, jars).len() ==> !bundled(
                #[trigger] unbundled(deps, jars)[i].name,
                jars,
            ),
        forall|i: int|
            0 <= i < deps.len() && !bundled(#[trigger] deps[i].name, jars) ==> unbundled(
                deps,
                jars,
            ).contains(deps[i]),
        unbundled(deps, jars).len() <= deps.len(),
    decreases deps.len(),
{
    if deps.len() > 0 {
        let t = deps.drop_last();
        lemma_unbundled(t, jars);
        let prev = unbundled(t, jars);
        let out = unbundled(deps, jars);
        assert forall|i: int| 0 <= i < out.len() implies !bundled(#[trigger] out[i].name, jars) by {
            if i < prev.len() {
                assert(out[i] == prev[i]);
            }
        }
        assert forall|i: int|
            0 <= i < deps.len() && !bundled(#[trigger] deps[i].name, jars) implies out.contains(
            deps[i],
        ) by {
            if i < deps.len() - 1 {
                assert(deps[i] == t[i]);
                let k = choose|k: int| 0 <= k < prev.len() && prev[k] == t[i];
                assert(out[k] == prev[k]);
            } else {
                assert(out[out.len() - 1] == deps[i]);
            }
        }
    }
}

} // verus!
