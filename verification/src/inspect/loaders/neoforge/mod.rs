//! NeoForge mods (`META-INF/neoforge.mods.toml`), read with the `mods.toml` model.

pub mod dep;

use vstd::prelude::*;

use crate::inspect::dep::types::{DepEntry, DepEntryView, entries_view};
use crate::inspect::detect_mod_type::ModType;
use crate::inspect::metadata::{MetadataFormat, ModMetadata};
use crate::inspect::registry::{strs_view, ModHandler};

verus! {

/// Handler for NeoForge mods.
pub struct NeoForgeHandler;

impl ModHandler for NeoForgeHandler {
    open spec fn handled_type(&self) -> ModType {
        ModType::NeoForge
    }

    open spec fn marker_files(&self) -> Seq<Seq<char>> {
        seq!["META-INF/neoforge.mods.toml"@]
    }

    open spec fn model(&self) -> MetadataFormat {
        MetadataFormat::NeoForge
    }

    open spec fn declares_deps(&self) -> bool {
        true
    }

    open spec fn deps_of(&self, meta: ModMetadata) -> Seq<DepEntryView> {
        match meta {
            ModMetadata::NeoForge(m) => super::forge_modern::dep::toml_deps(super::forge_modern::metadata::flat_deps(m.dependencies@)),
            _ => Seq::empty(),
        }
    }

    fn mod_type(&self) -> (r: ModType) {
        ModType::NeoForge
    }

    fn detection_files(&self) -> (r: &'static [&'static str]) {
        let r: &'static [&'static str] = &["META-INF/neoforge.mods.toml"];
        proof {
            assert(strs_view(r@) =~= seq!["META-INF/neoforge.mods.toml"@]);
        }
        r
    }

    fn metadata_format(&self) -> (r: MetadataFormat) {
        MetadataFormat::NeoForge
    }

    fn reads_deps(&self) -> (r: bool) {
        true
    }

    fn extract_deps(&self, meta: &ModMetadata) -> (r: Vec<DepEntry>) {
        match meta {
            ModMetadata::NeoForge(m) => dep::extract(m),
            _ => {
                let v: Vec<DepEntry> = Vec::new();
                proof {
                    assert(entries_view(v@) =~= Seq::<DepEntryView>::empty());
                }
                v
            },
        }
    }
}

} // verus!
