//! Dependencies declared in `plugin.yml`.

use vstd::prelude::*;

use super::metadata::BukkitPluginMetadata;
use crate::inspect::dep::types::{
    entries_view, unbounded_range, DepEntry, DepEntryView, DepKind, VersionRange,
};

verus! {

/// A dependency on `name` of the given kind, with no version constraint.
pub open spec fn plain(name: Seq<char>, kind: DepKind) -> DepEntryView {
    DepEntryView { name, kind, version_range: unbounded_range(None) }
}

/// The entries of one list of plugin names, all of the given kind.
pub open spec fn named_deps(names: Seq<String>, kind: DepKind) -> Seq<DepEntryView> {
    names.map_values(|n: String| plain(n@, kind))
}

/// The dependencies of a plugin: `depend` are required, `softdepend`
/// optional and `loadbefore` load-before, in that order.
pub open spec fn bukkit_deps(m: BukkitPluginMetadata) -> Seq<DepEntryView> {
    named_deps(m.depend@, DepKind::Required) + named_deps(m.softdepend@, DepKind::Optional)
        + named_deps(m.loadbefore@, DepKind::LoadBefore)
}

/// Appends one entry per name, all of the given kind.
pub fn push_named(out: &mut Vec<DepEntry>, names: &Vec<String>, kind: DepKind)
    ensures
        entries_view(final(out)@) == entries_view(old(out)@) + named_deps(names@, kind),
{
    let ghost start = entries_view(out@);
    let mut i: usize = 0;
    while i < names.len()
        invariant
            i <= names@.len(),
            entries_view(out@) == start + named_deps(names@.take(i as int), kind),
        decreases names@.len() - i,
    {
        let entry = DepEntry::new(names[i].as_str(), kind, VersionRange::parse(None));
        let ghost before = out@;
        out.push(entry);
        proof {
            assert(named_deps(names@.take(i + 1), kind) =~= named_deps(names@.take(i as int), kind).push(
                entry@,
            ));
            assert(entries_view(out@) =~= entries_view(before).push(entry@));
        }
        i = i + 1;
    }
    proof {
        assert(names@.take(names@.len() as int) =~= names@);
    }
}

/// The dependencies declared in `plugin.yml`.
pub fn extract(meta: &BukkitPluginMetadata) -> (r: Vec<DepEntry>)
    ensures
        entries_view(r@) == bukkit_deps(*meta),
{
    let mut deps: Vec<DepEntry> = Vec::new();
    proof {
        assert(entries_view(deps@) =~= Seq::<DepEntryView>::empty());
    }
    push_named(&mut deps, &meta.depend, DepKind::Required);
    push_named(&mut deps, &meta.softdepend, DepKind::Optional);
    push_named(&mut deps, &meta.loadbefore, DepKind::LoadBefore);
    proof {
        assert(entries_view(deps@) =~= bukkit_deps(*meta));
    }
    deps
}

} // verus!
