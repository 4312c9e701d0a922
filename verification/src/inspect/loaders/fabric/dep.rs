//! Dependencies declared in `fabric.mod.json`.

use vstd::prelude::*;

use super::metadata::FabricModMetadata;
use crate::inspect::dep::types::{
    entries_view, parse_range, DepEntry, DepEntryView, DepKind, VersionRange,
};
use crate::inspect::json::JsonValue;
use crate::text::opt_view;

verus! {

/// The first string element of a JSON array.
pub open spec fn first_string(items: Seq<JsonValue>) -> Option<Seq<char>>
    decreases items.len(),
{
    if items.len() == 0 {
        None
    } else {
        match items[0] {
            JsonValue::Str(s) => Some(s@),
            _ => first_string(items.drop_first()),
        }
    }
}

/// The version requirement of a dependency: a string, or the first string of an array.
pub open spec fn version_text(v: JsonValue) -> Option<Seq<char>> {
    match v {
        JsonValue::Str(s) => Some(s@),
        JsonValue::Array(items) => first_string(items@),
        _ => None,
    }
}

/// The entries declared in one dependency table, all of the given kind.
pub open spec fn table_deps(table: Seq<(String, JsonValue)>, kind: DepKind) -> Seq<DepEntryView> {
    table.map_values(
        |p: (String, JsonValue)|
            DepEntryView { name: p.0@, kind, version_range: parse_range(version_text(p.1)) },
    )
}

/// The dependencies of a Fabric mod: `depends` are required, `recommends`
/// recommended and `suggests` suggested, in that order.
pub open spec fn fabric_deps(m: FabricModMetadata) -> Seq<DepEntryView> {
    table_deps(m.depends@, DepKind::Required) + table_deps(m.recommends@, DepKind::Recommended)
        + table_deps(m.suggests@, DepKind::Suggested)
}

/// The version requirement of a dependency value.
pub fn ver(value: &JsonValue) -> (r: Option<String>)
    ensures
        opt_view(r) == version_text(*value),
{
    match value {
        JsonValue::Str(s) => Some(s.clone()),
        JsonValue::Array(items) => {
            let mut i: usize = 0;
            proof {
                assert(items@.skip(0) =~= items@);
            }
            while i < items.len()
                invariant
                    i <= items@.len(),
                    *value == JsonValue::Array(*items),
                    first_string(items@) == first_string(items@.skip(i as int)),
                decreases items@.len() - i,
            {
                proof {
                    assert(items@.skip(i as int)[0] == items@[i as int]);
                    assert(items@.skip(i as int).drop_first() =~= items@.skip(i + 1));
                }
                match &items[i] {
                    JsonValue::Str(s) => {
                        proof {
                            assert(items@.skip(i as int)[0] == JsonValue::Str(*s));
                            assert(first_string(items@.skip(i as int)) == Some(s@));
                        }
                        return Some(s.clone());
                    },
                    _ => {},
                }
                i = i + 1;
            }
            None
        },
        _ => None,
    }
}

/// Appends the entries of one dependency table.
pub fn push_table(out: &mut Vec<DepEntry>, table: &Vec<(String, JsonValue)>, kind: DepKind)
    ensures
        entries_view(final(out)@) == entries_view(old(out)@) + table_deps(table@, kind),
{
    let ghost start = entries_view(out@);
    let mut i: usize = 0;
    while i < table.len()
        invariant
            i <= table@.len(),
            entries_view(out@) == start + table_deps(table@.take(i as int), kind),
        decreases table@.len() - i,
    {
        let (name, value) = &table[i];
        let entry = DepEntry::new(name.as_str(), kind, VersionRange::parse(ver(value)));
        let ghost before = out@;
        out.push(entry);
        proof {
            assert(table_deps(table@.take(i + 1), kind) =~= table_deps(table@.take(i as int), kind).push(
                entry@,
            ));
            assert(entries_view(out@) =~= entries_view(before).push(entry@));
        }
        i = i + 1;
    }
    proof {
        assert(table@.take(table@.len() as int) =~= table@);
    }
}

/// The dependencies declared by a Fabric mod.
pub fn extract(meta: &FabricModMetadata) -> (r: Vec<DepEntry>)
    ensures
        entries_view(r@) == fabric_deps(*meta),
{
    let mut deps: Vec<DepEntry> = Vec::new();
    proof {
        assert(entries_view(deps@) =~= Seq::<DepEntryView>::empty());
    }
    push_table(&mut deps, &meta.depends, DepKind::Required);
    push_table(&mut deps, &meta.recommends, DepKind::Recommended);
    push_table(&mut deps, &meta.suggests, DepKind::Suggested);
    proof {
        assert(entries_view(deps@) =~= fabric_deps(*meta));
    }
    deps
}

} // verus!
