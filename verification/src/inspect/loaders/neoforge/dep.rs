//! Dependencies declared in `META-INF/neoforge.mods.toml`.

use vstd::prelude::*;

use crate::inspect::dep::types::{entries_view, DepEntry};
use crate::inspect::loaders::forge_modern::dep::toml_deps;
use crate::inspect::loaders::forge_modern::metadata::{flat_deps, ModsTomlMetadata};

verus! {

/// The dependencies declared by a NeoForge mod; incompatible and discouraged
/// ones are left out.
pub fn extract(meta: &ModsTomlMetadata) -> (r: Vec<DepEntry>)
    ensures
        entries_view(r@) == toml_deps(flat_deps(meta.dependencies@)),
{
    crate::inspect::loaders::forge_modern::dep::extract(meta)
}

} // verus!
