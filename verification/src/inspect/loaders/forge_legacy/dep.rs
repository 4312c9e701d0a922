//! Dependencies declared in `mcmod.info`.

use vstd::prelude::*;

use super::metadata::ForgeLegacyModEntry;
use crate::inspect::dep::types::{
    entries_view, unbounded_range, DepEntry, DepEntryView, DepKind, VersionRange,
};

verus! {

/// A required dependency on `name` with no version constraint.
pub open spec fn required(name: Seq<char>) -> DepEntryView {
    DepEntryView { name, kind: DepKind::Required, version_range: unbounded_range(None) }
}

/// Every listed dependency of every entry, required, in order.
pub open spec fn legacy_deps(entries: Seq<ForgeLegacyModEntry>) -> Seq<DepEntryView>
    decreases entries.len(),
{
    if entries.len() == 0 {
        Seq::empty()
    } else {
        legacy_deps(entries.drop_last()) + entries.last().dependencies@.map_values(
            |n: String| required(n@),
        )
    }
}

/// The dependencies declared in `mcmod.info`.
pub fn extract(entries: &Vec<ForgeLegacyModEntry>) -> (r: Vec<DepEntry>)
    ensures
        entries_view(r@) == legacy_deps(entries@),
{
    let mut deps: Vec<DepEntry> = Vec::new();
    let mut i: usize = 0;
    while i < entries.len()
        invariant
            i <= entries@.len(),
            entries_view(deps@) == legacy_deps(entries@.take(i as int)),
        decreases entries@.len() - i,
    {
        proof {
            assert(entries@.take(i + 1).drop_last() =~= entries@.take(i as int));
        }
        let names = &entries[i].dependencies;
        let ghost base = entries_view(deps@);
        let mut j: usize = 0;
        while j < names.len()
            invariant
                j <= names@.len(),
                entries_view(deps@) == base + names@.take(j as int).map_values(
                    |n: String| required(n@),
                ),
            decreases names@.len() - j,
        {
            let entry = DepEntry::new(names[j].as_str(), DepKind::Required, VersionRange::parse(None));
            let ghost before = deps@;
            deps.push(entry);
            proof {
                assert(names@.take(j + 1).map_values(|n: String| required(n@)) =~= names@.take(
                    j as int,
                ).map_values(|n: String| required(n@)).push(entry@));
                assert(entries_view(deps@) =~= entries_view(before).push(entry@));
            }
            j = j + 1;
        }
        proof {
            assert(names@.take(names@.len() as int) =~= names@);
            assert(entries_view(deps@) =~= legacy_deps(entries@.take(i + 1)));
        }
        i = i + 1;
    }
    proof {
        assert(entries@.take(entries@.len() as int) =~= entries@);
    }
    deps
}

} // verus!
