//! Dependencies declared in `mods.toml` (shared by Forge and NeoForge).

use vstd::prelude::*;

use super::metadata::{flat_deps, opt_view_str, ModsTomlDependency, ModsTomlMetadata};
use crate::inspect::dep::types::{
    entries_view, parse_range, DepEntry, DepEntryView, DepKind, VersionRange,
};
use crate::text::str_eq;

verus! {

/// The kind named by a dependency's `type` key; anything else is required.
pub open spec fn dep_kind_of(t: Option<Seq<char>>) -> DepKind {
    match t {
        Some(s) => if s == "optional"@ {
            DepKind::Optional
        } else if s == "incompatible"@ {
            DepKind::Incompatible
        } else if s == "discouraged"@ {
            DepKind::Discouraged
        } else {
            DepKind::Required
        },
        None => DepKind::Required,
    }
}

/// The dependencies of all tables in order, without the incompatible and
/// discouraged ones.
pub open spec fn toml_deps(f: Seq<ModsTomlDependency>) -> Seq<DepEntryView>
    decreases f.len(),
{
    if f.len() == 0 {
        Seq::empty()
    } else {
        let prev = toml_deps(f.drop_last());
        let d = f.last();
        let kind = dep_kind_of(opt_view_str(d.dep_type));
        if kind.excluded() {
            prev
        } else {
            prev.push(
                DepEntryView {
                    name: d.mod_id@,
                    kind,
                    version_range: parse_range(opt_view_str(d.version_range)),
                },
            )
        }
    }
}

/// The kind named by a dependency's `type` key.
pub fn forge_dep_kind(dep_type: Option<&str>) -> (r: DepKind)
    ensures
        r == dep_kind_of(
            match dep_type {
                Some(s) => Some(s@),
                None => None,
            },
        ),
{
    match dep_type {
        Some(s) => {
            if str_eq(s, "optional") {
                DepKind::Optional
            } else if str_eq(s, "incompatible") {
                DepKind::Incompatible
            } else if str_eq(s, "discouraged") {
                DepKind::Discouraged
            } else {
                DepKind::Required
            }
        },
        None => DepKind::Required,
    }
}

/// The dependencies declared in a `mods.toml`; incompatible and discouraged
/// ones are left out.
pub fn extract(meta: &ModsTomlMetadata) -> (r: Vec<DepEntry>)
    ensures
        entries_view(r@) == toml_deps(flat_deps(meta.dependencies@)),
{
    let mut deps: Vec<DepEntry> = Vec::new();
    let mut t: usize = 0;
    proof {
        assert(flat_deps(meta.dependencies@.take(0)) =~= Seq::<ModsTomlDependency>::empty());
        assert(entries_view(deps@) =~= Seq::<DepEntryView>::empty());
    }
    while t < meta.dependencies.len()
        invariant
            t <= meta.dependencies@.len(),
            entries_view(deps@) == toml_deps(flat_deps(meta.dependencies@.take(t as int))),
        decreases meta.dependencies@.len() - t,
    {
        let table = &meta.dependencies[t].1;
        let ghost before = flat_deps(meta.dependencies@.take(t as int));
        proof {
            assert(meta.dependencies@.take(t + 1).drop_last() =~= meta.dependencies@.take(t as int));
            assert(before + table@.take(0) =~= before);
        }
        let mut i: usize = 0;
        while i < table.len()
            invariant
                i <= table@.len(),
                entries_view(deps@) == toml_deps(before + table@.take(i as int)),
            decreases table@.len() - i,
        {
            let d = &table[i];
            proof {
                let f = before + table@.take(i + 1);
                assert(f.drop_last() =~= before + table@.take(i as int));
                assert(f.last() == *d);
            }
            let kind = forge_dep_kind(
                match &d.dep_type {
                    Some(s) => Some(s.as_str()),
                    None => None,
                },
            );
            if !kind.is_excluded() {
                let entry = DepEntry::new(
                    d.mod_id.as_str(),
                    kind,
                    VersionRange::parse(crate::inspect::dep::types::copy_opt(&d.version_range)),
                );
                let ghost old_deps = deps@;
                deps.push(entry);
                proof {
                    assert(entries_view(deps@) =~= entries_view(old_deps).push(entry@));
                }
            }
            i = i + 1;
        }
        proof {
            assert(table@.take(table@.len() as int) =~= table@);
        }
        t = t + 1;
    }
    proof {
        assert(meta.dependencies@.take(meta.dependencies@.len() as int) =~= meta.dependencies@);
    }
    deps
}

} // verus!
