//! The `mods.toml` model (Forge and NeoForge) and its human-readable form.

use vstd::prelude::*;

use crate::inspect::json::{json_display, JsonValue};
use crate::text::{contains_seq, line, opt_line, owned, push_line, push_opt_line, push_str, str_eq};

verus! {

/// Top-level `META-INF/mods.toml` entry (Forge / NeoForge). Tables are kept
/// as ordered key/value pairs.
#[derive(Debug, PartialEq)]
pub struct ModsTomlMetadata {
    pub mod_loader: Option<String>,
    pub loader_version: Option<String>,
    pub issue_tracker_url: Option<String>,
    pub license: Option<String>,
    pub mods: Vec<ModsTomlMod>,
    pub dependencies: Vec<(String, Vec<ModsTomlDependency>)>,
    pub display_url: Option<String>,
    pub logo_file: Option<String>,
    pub authors: Option<String>,
    pub credits: Option<String>,
    pub show_as_resource_pack: Option<bool>,
    pub client_side_only: Option<bool>,
    pub mixins: Vec<ModsTomlMixin>,
    pub modproperties: Vec<(String, JsonValue)>,
    pub enum_extensions: Option<String>,
}

/// One `[[mods]]` table.
#[derive(Debug, PartialEq)]
pub struct ModsTomlMod {
    pub mod_id: String,
    pub version: Option<String>,
    pub display_name: Option<String>,
    pub display_url: Option<String>,
    pub authors: Option<JsonValue>,
    pub description: Option<String>,
    pub logo_file: Option<String>,
    pub license: Option<String>,
    pub credits: Option<String>,
    pub update_jsonurl: Option<String>,
    pub display_test: Option<String>,
}

/// One `[[dependencies.<mod>]]` table.
#[derive(Debug, Clone, PartialEq)]
pub struct ModsTomlDependency {
    pub mod_id: String,
    pub dep_type: Option<String>,
    pub mandatory: Option<bool>,
    pub version_range: Option<String>,
    pub ordering: Option<String>,
    pub side: Option<String>,
}

/// One `[[mixins]]` table.
#[derive(Debug, Clone, PartialEq)]
pub struct ModsTomlMixin {
    pub config: String,
}

/// All dependency tables, concatenated in order.
pub open spec fn flat_deps(tables: Seq<(String, Vec<ModsTomlDependency>)>) -> Seq<ModsTomlDependency>
    decreases tables.len(),
{
    if tables.len() == 0 {
        Seq::empty()
    } else {
        flat_deps(tables.drop_last()) + tables.last().1@
    }
}

/// Whether the sides seen so far for a dependency agree.
pub enum SideState {
    Uniform(Option<Seq<char>>),
    Mixed,
}

/// A merged dependency: its id, the range last declared for it, its sides.
pub type MergedDep = (Seq<char>, Seq<char>, SideState);

/// The range text of a dependency (`*` when absent).
pub open spec fn range_or_any(d: ModsTomlDependency) -> Seq<char> {
    match d.version_range {
        Some(v) => v@,
        None => "*"@,
    }
}

/// The position of the first merged entry with id `id`, or -1.
pub open spec fn merged_pos(p: Seq<MergedDep>, id: Seq<char>) -> int
    decreases p.len(),
{
    if p.len() == 0 {
        -1
    } else if p.last().0 == id && merged_pos(p.drop_last(), id) < 0 {
        p.len() - 1
    } else {
        merged_pos(p.drop_last(), id)
    }
}

/// Dependencies merged by id in order of first appearance: the last declared
/// range wins, and the sides are tracked for agreement.
pub open spec fn merge_deps(f: Seq<ModsTomlDependency>) -> Seq<MergedDep>
    decreases f.len(),
{
    if f.len() == 0 {
        Seq::empty()
    } else {
        let p = merge_deps(f.drop_last());
        let d = f.last();
        let side = opt_view_str(d.side);
        let k = merged_pos(p, d.mod_id@);
        if 0 <= k < p.len() {
            let state = match p[k].2 {
                SideState::Uniform(s) => if s == side {
                    SideState::Uniform(s)
                } else {
                    SideState::Mixed
                },
                SideState::Mixed => SideState::Mixed,
            };
            p.update(k, (d.mod_id@, range_or_any(d), state))
        } else {
            p.push((d.mod_id@, range_or_any(d), SideState::Uniform(side)))
        }
    }
}

/// Characters of an optional string.
pub open spec fn opt_view_str(o: Option<String>) -> Option<Seq<char>> {
    match o {
        Some(s) => Some(s@),
        None => None,
    }
}

/// The side note of a merged dependency: shown only when every declaration
/// agrees on the `CLIENT` or `SERVER` side.
pub open spec fn side_suffix(s: SideState) -> Seq<char> {
    match s {
        SideState::Uniform(Some(t)) => if t == "CLIENT"@ {
            " (Client)"@
        } else if t == "SERVER"@ {
            " (Server)"@
        } else {
            Seq::empty()
        },
        _ => Seq::empty(),
    }
}

/// The lines of the merged dependencies.
pub open spec fn merged_lines(p: Seq<MergedDep>) -> Seq<char>
    decreases p.len(),
{
    if p.len() == 0 {
        Seq::empty()
    } else {
        merged_lines(p.drop_last()) + "  - "@ + p.last().0 + " ("@ + p.last().1 + ")"@
            + side_suffix(p.last().2) + "\n"@
    }
}

/// The lines of one mod table.
pub open spec fn mod_text(m: ModsTomlMod) -> Seq<char> {
    line("Mod ID:   "@, m.mod_id@) + opt_line("Name:     "@, m.display_name) + opt_line(
        "About:    "@,
        m.description,
    ) + opt_line("Version:  "@, m.version) + match m.authors {
        Some(a) => line("Authors:  "@, json_display(a)),
        None => Seq::empty(),
    }
}

/// The lines of all mod tables.
pub open spec fn mods_text(mods: Seq<ModsTomlMod>) -> Seq<char>
    decreases mods.len(),
{
    if mods.len() == 0 {
        Seq::empty()
    } else {
        mods_text(mods.drop_last()) + mod_text(mods.last())
    }
}

/// The human-readable form of a `mods.toml`.
pub open spec fn toml_text(m: ModsTomlMetadata) -> Seq<char> {
    opt_line("Loader:   "@, m.mod_loader) + opt_line("LoaderV:  "@, m.loader_version) + mods_text(
        m.mods@,
    ) + if m.dependencies@.len() > 0 {
        "Dependencies:\n"@ + merged_lines(merge_deps(flat_deps(m.dependencies@)))
    } else {
        Seq::empty()
    }
}

/// A merged dependency during printing.
pub struct Merged {
    pub id: String,
    pub range: String,
    pub side: Option<String>,
    pub mixed: bool,
}

/// The abstract value of a merged dependency.
pub open spec fn merged_view(m: Merged) -> MergedDep {
    (
        m.id@,
        m.range@,
        if m.mixed {
            SideState::Mixed
        } else {
            SideState::Uniform(opt_view_str(m.side))
        },
    )
}

/// The merged dependencies as abstract values.
pub open spec fn merged_views(v: Seq<Merged>) -> Seq<MergedDep> {
    v.map_values(|m: Merged| merged_view(m))
}

proof fn lemma_merged_pos(p: Seq<MergedDep>, id: Seq<char>)
    ensures
        -1 <= merged_pos(p, id) < p.len(),
        merged_pos(p, id) >= 0 ==> p[merged_pos(p, id)].0 == id,
        merged_pos(p, id) >= 0 ==> forall|j: int| 0 <= j < merged_pos(p, id) ==> p[j].0 != id,
        merged_pos(p, id) < 0 ==> forall|j: int| 0 <= j < p.len() ==> p[j].0 != id,
    decreases p.len(),
{
    if p.len() > 0 {
        lemma_merged_pos(p.drop_last(), id);
        assert forall|j: int| 0 <= j < p.len() - 1 implies p.drop_last()[j] == p[j] by {}
    }
}

/// Whether two optional strings are equal.
pub fn opt_str_eq(a: &Option<String>, b: &Option<String>) -> (r: bool)
    ensures
        r == (opt_view_str(*a) == opt_view_str(*b)),
{
    match (a, b) {
        (Some(x), Some(y)) => str_eq(x.as_str(), y.as_str()),
        (None, None) => true,
        _ => false,
    }
}

/// A copy of an optional string.
pub fn copy_opt_str(o: &Option<String>) -> (r: Option<String>)
    ensures
        opt_view_str(r) == opt_view_str(*o),
{
    match o {
        Some(s) => Some(s.clone()),
        None => None,
    }
}

/// The range text of a dependency.
pub fn range_string(d: &ModsTomlDependency) -> (r: String)
    ensures
        r@ == range_or_any(*d),
{
    match &d.version_range {
        Some(v) => v.clone(),
        None => owned("*"),
    }
}

/// Merges a run of dependencies into `acc`.
fn merge_into(acc: &mut Vec<Merged>, deps: &Vec<ModsTomlDependency>, Ghost(before): Ghost<
    Seq<ModsTomlDependency>,
>)
    requires
        merged_views(old(acc)@) == merge_deps(before),
    ensures
        merged_views(final(acc)@) == merge_deps(before + deps@),
{
    let mut i: usize = 0;
    proof {
        assert(before + deps@.take(0) =~= before);
    }
    while i < deps.len()
        invariant
            i <= deps@.len(),
            merged_views(acc@) == merge_deps(before + deps@.take(i as int)),
        decreases deps@.len() - i,
    {
        let d = &deps[i];
        let ghost f = before + deps@.take(i + 1);
        proof {
            assert(f.drop_last() =~= before + deps@.take(i as int));
            assert(f.last() == *d);
            lemma_merged_pos(merged_views(acc@), d.mod_id@);
        }
        let mut k: usize = 0;
        while k < acc.len() && !str_eq(acc[k].id.as_str(), d.mod_id.as_str())
            invariant
                k <= acc@.len(),
                forall|j: int| 0 <= j < k ==> merged_views(acc@)[j].0 != d.mod_id@,
            decreases acc@.len() - k,
        {
            k = k + 1;
        }
        let found = k < acc.len();
        let ghost p = merged_views(acc@);
        if found {
            proof {
                let q = merged_pos(p, d.mod_id@);
                assert(p[k as int].0 == d.mod_id@);
                assert(q == k);
            }
            let mixed = acc[k].mixed || !opt_str_eq(&acc[k].side, &d.side);
            let side = copy_opt_str(&acc[k].side);
            let entry = Merged { id: d.mod_id.clone(), range: range_string(d), side, mixed };
            acc.set(k, entry);
            proof {
                assert(merged_views(acc@) =~= merge_deps(f));
            }
        } else {
            proof {
                assert(merged_pos(p, d.mod_id@) < 0);
            }
            let entry = Merged {
                id: d.mod_id.clone(),
                range: range_string(d),
                side: copy_opt_str(&d.side),
                mixed: false,
            };
            acc.push(entry);
            proof {
                assert(merged_views(acc@) =~= merge_deps(f));
            }
        }
        i = i + 1;
    }
    proof {
        assert(deps@.take(deps@.len() as int) =~= deps@);
    }
}

/// The side note of a merged dependency.
pub fn suffix_of(m: &Merged) -> (r: &'static str)
    ensures
        r@ == side_suffix(merged_view(*m).2),
{
    proof {
        reveal_strlit("");
    }
    if m.mixed {
        return "";
    }
    match &m.side {
        Some(s) => {
            if str_eq(s.as_str(), "CLIENT") {
                " (Client)"
            } else if str_eq(s.as_str(), "SERVER") {
                " (Server)"
            } else {
                ""
            }
        },
        None => "",
    }
}

impl ModsTomlMod {
    /// Appends the lines of this mod table.
    pub fn write_to(&self, out: &mut String)
        ensures
            final(out)@ == old(out)@ + mod_text(*self),
    {
        let ghost start = out@;
        push_line(out, "Mod ID:   ", self.mod_id.as_str());
        push_opt_line(out, "Name:     ", &self.display_name);
        push_opt_line(out, "About:    ", &self.description);
        push_opt_line(out, "Version:  ", &self.version);
        match &self.authors {
            Some(a) => {
                let t = a.to_string();
                push_line(out, "Authors:  ", t.as_str());
            },
            None => {},
        }
        proof {
            assert(out@ =~= start + mod_text(*self));
        }
    }
}

impl ModsTomlMetadata {
    /// The human-readable form: loader, each mod table, and the dependencies
    /// merged by id.
    pub fn to_string(&self) -> (r: String)
        ensures
            r@ == toml_text(*self),
    {
        let mut out = String::new();
        push_opt_line(&mut out, "Loader:   ", &self.mod_loader);
        push_opt_line(&mut out, "LoaderV:  ", &self.loader_version);
        let ghost head = out@;
        let mut i: usize = 0;
        while i < self.mods.len()
            invariant
                i <= self.mods@.len(),
                out@ == head + mods_text(self.mods@.take(i as int)),
            decreases self.mods@.len() - i,
        {
            proof {
                assert(self.mods@.take(i + 1).drop_last() =~= self.mods@.take(i as int));
            }
            self.mods[i].write_to(&mut out);
            proof {
                assert(out@ =~= head + mods_text(self.mods@.take(i + 1)));
            }
            i = i + 1;
        }
        proof {
            assert(self.mods@.take(self.mods@.len() as int) =~= self.mods@);
        }
        if self.dependencies.len() > 0 {
            push_str(&mut out, "Dependencies:\n");
            let mut merged: Vec<Merged> = Vec::new();
            let mut t: usize = 0;
            proof {
                assert(merged_views(merged@) =~= Seq::<MergedDep>::empty());
                assert(flat_deps(self.dependencies@.take(0)) =~= Seq::<ModsTomlDependency>::empty());
            }
            while t < self.dependencies.len()
                invariant
                    t <= self.dependencies@.len(),
                    merged_views(merged@) == merge_deps(flat_deps(self.dependencies@.take(t as int))),
                decreases self.dependencies@.len() - t,
            {
                proof {
                    assert(self.dependencies@.take(t + 1).drop_last() =~= self.dependencies@.take(
                        t as int,
                    ));
                }
                merge_into(
                    &mut merged,
                    &self.dependencies[t].1,
                    Ghost(flat_deps(self.dependencies@.take(t as int))),
                );
                t = t + 1;
            }
            proof {
                assert(self.dependencies@.take(self.dependencies@.len() as int)
                    =~= self.dependencies@);
            }
            let ghost all = merged_views(merged@);
            let ghost top = out@;
            let mut j: usize = 0;
            while j < merged.len()
                invariant
                    j <= merged@.len(),
                    all == merged_views(merged@),
                    out@ == top + merged_lines(all.take(j as int)),
                decreases merged@.len() - j,
            {
                proof {
                    assert(all.take(j + 1).drop_last() =~= all.take(j as int));
                    assert(all.take(j + 1).last() == merged_view(merged@[j as int]));
                }
                let m = &merged[j];
                push_str(&mut out, "  - ");
                push_str(&mut out, m.id.as_str());
                push_str(&mut out, " (");
                push_str(&mut out, m.range.as_str());
                push_str(&mut out, ")");
                push_str(&mut out, suffix_of(m));
                push_str(&mut out, "\n");
                proof {
                    assert(out@ =~= top + merged_lines(all.take(j + 1)));
                }
                j = j + 1;
            }
            proof {
                assert(all.take(all.len() as int) =~= all);
            }
        }
        proof {
            assert(out@ =~= toml_text(*self));
        }
        out
    }
}

/// Law: the dependency listing of a `mods.toml` names each dependency once,
/// however many tables declare it.
pub proof fn lemma_merged_distinct(f: Seq<ModsTomlDependency>)
    ensures
        forall|i: int, j: int|
            0 <= i < j < merge_deps(f).len() ==> #[trigger] merge_deps(f)[i].0 != #[trigger] merge_deps(f)[j].0,
    decreases f.len(),
{
    if f.len() > 0 {
        let prev = f.drop_last();
        lemma_merged_distinct(prev);
        let p = merge_deps(prev);
        let d = f.last();
        lemma_merged_pos(p, d.mod_id@);
        let m = merge_deps(f);
        let k = merged_pos(p, d.mod_id@);
        if 0 <= k < p.len() {
            assert forall|i: int, j: int| 0 <= i < j < m.len() implies #[trigger] m[i].0 != #[trigger] m[j].0 by {
                assert(m[i].0 == p[i].0 && m[j].0 == p[j].0);
            }
        } else {
            assert forall|i: int, j: int| 0 <= i < j < m.len() implies #[trigger] m[i].0 != #[trigger] m[j].0 by {
                if j < p.len() {
                    assert(m[i] == p[i] && m[j] == p[j]);
                } else {
                    assert(m[i] == p[i]);
                }
            }
        }
    }
}

/// A declaration of the id of merged dependency `k`.
proof fn lemma_decl_of_merged(f: Seq<ModsTomlDependency>, k: int) -> (j: int)
    requires
        0 <= k < merge_deps(f).len(),
    ensures
        0 <= j < f.len(),
        f[j].mod_id@ == merge_deps(f)[k].0,
    decreases f.len(),
{
    let g = f.drop_last();
    let p = merge_deps(g);
    let d = f.last();
    lemma_merged_pos(p, d.mod_id@);
    let k0 = merged_pos(p, d.mod_id@);
    if (0 <= k0 < p.len() && k == k0) || (k0 < 0 && k == p.len()) {
        f.len() - 1
    } else {
        let j = lemma_decl_of_merged(g, k);
        assert(f[j] == g[j]);
        j
    }
}

/// The merged dependency of the id of declaration `j`.
proof fn lemma_merged_of_decl(f: Seq<ModsTomlDependency>, j: int) -> (k: int)
    requires
        0 <= j < f.len(),
    ensures
        0 <= k < merge_deps(f).len(),
        merge_deps(f)[k].0 == f[j].mod_id@,
    decreases f.len(),
{
    let g = f.drop_last();
    let p = merge_deps(g);
    let d = f.last();
    lemma_merged_pos(p, d.mod_id@);
    let k0 = merged_pos(p, d.mod_id@);
    if j == f.len() - 1 {
        if 0 <= k0 < p.len() {
            k0
        } else {
            p.len() as int
        }
    } else {
        let k = lemma_merged_of_decl(g, j);
        assert(f[j] == g[j]);
        k
    }
}

/// A merged dependency with a uniform side has that side in every
/// declaration of its id.
proof fn lemma_uniform_side(f: Seq<ModsTomlDependency>, k: int, j: int)
    requires
        0 <= k < merge_deps(f).len(),
        0 <= j < f.len(),
        merge_deps(f)[k].2 is Uniform,
        f[j].mod_id@ == merge_deps(f)[k].0,
    ensures
        opt_view_str(f[j].side) == merge_deps(f)[k].2->Uniform_0,
    decreases f.len(),
{
    let g = f.drop_last();
    let p = merge_deps(g);
    let d = f.last();
    let last = f.len() - 1;
    lemma_merged_pos(p, d.mod_id@);
    let k0 = merged_pos(p, d.mod_id@);
    if j < last {
        assert(f[j] == g[j]);
    }
    if 0 <= k0 < p.len() {
        if k == k0 {
            if j < last {
                lemma_uniform_side(g, k, j);
            }
        } else {
            lemma_merged_distinct(g);
            assert(p[k].0 != p[k0].0);
            if j < last {
                lemma_uniform_side(g, k, j);
            }
        }
    } else {
        if k == p.len() {
            if j < last {
                let kk = lemma_merged_of_decl(g, j);
                assert(p[kk].0 == d.mod_id@);
            }
        } else if j < last {
            lemma_uniform_side(g, k, j);
        }
    }
}

/// A merged dependency with mixed sides has two declarations of its id
/// whose sides differ.
proof fn lemma_mixed_sides(f: Seq<ModsTomlDependency>, k: int) -> (r: (int, int))
    requires
        0 <= k < merge_deps(f).len(),
        merge_deps(f)[k].2 is Mixed,
    ensures
        0 <= r.0 < f.len(),
        0 <= r.1 < f.len(),
        f[r.0].mod_id@ == merge_deps(f)[k].0,
        f[r.1].mod_id@ == merge_deps(f)[k].0,
        opt_view_str(f[r.0].side) != opt_view_str(f[r.1].side),
    decreases f.len(),
{
    let g = f.drop_last();
    let p = merge_deps(g);
    let d = f.last();
    let last = f.len() - 1;
    lemma_merged_pos(p, d.mod_id@);
    let k0 = merged_pos(p, d.mod_id@);
    if 0 <= k0 < p.len() && k == k0 && p[k].2 is Uniform {
        let i = lemma_decl_of_merged(g, k);
        lemma_uniform_side(g, k, i);
        assert(f[i] == g[i]);
        (i, last)
    } else {
        let r = lemma_mixed_sides(g, k);
        assert(f[r.0] == g[r.0] && f[r.1] == g[r.1]);
        r
    }
}

/// The printed line of a merged dependency.
pub open spec fn merged_line(e: MergedDep) -> Seq<char> {
    "  - "@ + e.0 + " ("@ + e.1 + ")"@ + side_suffix(e.2) + "\n"@
}

/// The listing holds the line of every merged dependency.
proof fn lemma_merged_lines_hold(p: Seq<MergedDep>, k: int)
    requires
        0 <= k < p.len(),
    ensures
        contains_seq(merged_lines(p), merged_line(p[k])),
    decreases p.len(),
{
    let a = merged_lines(p.drop_last());
    let l = merged_line(p.last());
    assert(merged_lines(p) =~= a + l);
    if k == p.len() - 1 {
        assert((a + l).subrange(a.len() as int, (a.len() + l.len()) as int) =~= l);
    } else {
        lemma_merged_lines_hold(p.drop_last(), k);
        assert(p.drop_last()[k] == p[k]);
        let i = choose|i: int|
            0 <= i && i + merged_line(p[k]).len() <= a.len() && #[trigger] a.subrange(
                i,
                i + merged_line(p[k]).len(),
            ) == merged_line(p[k]);
        assert((a + l).subrange(i, i + merged_line(p[k]).len()) =~= a.subrange(i, i + merged_line(p[k]).len()));
    }
}

/// Law: a dependency every declaration of which says side `SERVER` is
/// listed with the note ` (Server)`, and one every declaration of which says
/// `CLIENT` with the note ` (Client)`.
pub proof fn lemma_uniform_side_noted(f: Seq<ModsTomlDependency>, id: Seq<char>, side: Seq<char>)
    requires
        side == "SERVER"@ || side == "CLIENT"@,
        exists|j: int| 0 <= j < f.len() && (#[trigger] f[j]).mod_id@ == id,
        forall|j: int| 0 <= j < f.len() && (#[trigger] f[j]).mod_id@ == id ==> opt_view_str(f[j].side) == Some(side),
    ensures
        exists|k: int|
            0 <= k < merge_deps(f).len() && (#[trigger] merge_deps(f)[k]).0 == id && contains_seq(
                merged_lines(merge_deps(f)),
                "  - "@ + id + " ("@ + merge_deps(f)[k].1 + ")"@ + (if side == "SERVER"@ {
                    " (Server)"@
                } else {
                    " (Client)"@
                }) + "\n"@,
            ),
{
    let p = merge_deps(f);
    let j = choose|j: int| 0 <= j < f.len() && (#[trigger] f[j]).mod_id@ == id;
    let k = lemma_merged_of_decl(f, j);
    if p[k].2 is Mixed {
        let r = lemma_mixed_sides(f, k);
        assert(f[r.0].mod_id@ == id && f[r.1].mod_id@ == id);
        assert(false);
    }
    lemma_uniform_side(f, k, j);
    assert(p[k].2 == SideState::Uniform(Some(side)));
    reveal_strlit("SERVER");
    reveal_strlit("CLIENT");
    assert("SERVER"@[0] != "CLIENT"@[0]);
    assert("SERVER"@ != "CLIENT"@);
    lemma_merged_lines_hold(p, k);
    assert(merged_line(p[k]) == "  - "@ + id + " ("@ + p[k].1 + ")"@ + (if side == "SERVER"@ {
        " (Server)"@
    } else {
        " (Client)"@
    }) + "\n"@);
}

/// Law: a dependency is listed with the note ` (Client)` only when every
/// declaration of it says side `CLIENT`, and with ` (Server)` only when
/// every one says `SERVER`.
pub proof fn lemma_side_note_only_when_uniform(f: Seq<ModsTomlDependency>, k: int)
    requires
        0 <= k < merge_deps(f).len(),
    ensures
        side_suffix(merge_deps(f)[k].2) == " (Client)"@ ==> forall|j: int|
            0 <= j < f.len() && (#[trigger] f[j]).mod_id@ == merge_deps(f)[k].0 ==> opt_view_str(f[j].side) == Some(
                "CLIENT"@,
            ),
        side_suffix(merge_deps(f)[k].2) == " (Server)"@ ==> forall|j: int|
            0 <= j < f.len() && (#[trigger] f[j]).mod_id@ == merge_deps(f)[k].0 ==> opt_view_str(f[j].side) == Some(
                "SERVER"@,
            ),
{
    reveal_strlit(" (Client)");
    reveal_strlit(" (Server)");
    reveal_strlit("CLIENT");
    reveal_strlit("SERVER");
    let p = merge_deps(f);
    assert(" (Client)"@[2] != " (Server)"@[2]);
    assert(" (Client)"@ != " (Server)"@);
    assert(" (Client)"@.len() != Seq::<char>::empty().len());
    assert(" (Server)"@.len() != Seq::<char>::empty().len());
    assert forall|j: int| 0 <= j < f.len() && (#[trigger] f[j]).mod_id@ == p[k].0 implies {
        &&& side_suffix(p[k].2) == " (Client)"@ ==> opt_view_str(f[j].side) == Some("CLIENT"@)
        &&& side_suffix(p[k].2) == " (Server)"@ ==> opt_view_str(f[j].side) == Some("SERVER"@)
    } by {
        if p[k].2 is Uniform {
            lemma_uniform_side(f, k, j);
        }
    }
}

} // verus!
