//! Forge mods (`META-INF/mods.toml`).

pub mod dep;
pub mod metadata;

use vstd::prelude::*;

use crate::inspect::dep::types::{DepEntry, DepEntryView, entries_view};
use crate::inspect::detect_mod_type::{ForgeModFormat, ModType};
use crate::inspect::metadata::{MetadataFormat, ModMetadata};
use crate::inspect::registry::{strs_view, ModHandler};

verus! {

/// Handler for Forge mods with `mods.toml`.
pub struct ForgeModernHandler;

impl ModHandler for ForgeModernHandler {
    open spec fn handled_type(&self) -> ModType {
        ModType::Forge(ForgeModFormat::ModsToml)
    }

    open spec fn marker_files(&self) -> Seq<Seq<char>> {
        seq!["META-INF/mods.toml"@]
    }

    open spec fn model(&self) -> MetadataFormat {
        MetadataFormat::ForgeModern
    }

    open spec fn declares_deps(&self) -> bool {
        true
    }

    open spec fn deps_of(&self, meta: ModMetadata) -> Seq<DepEntryView> {
        match meta {
            ModMetadata::ForgeModern(m) => dep::toml_deps(metadata::flat_deps(m.dependencies@)),
            _ => Seq::empty(),
        }
    }

    fn mod_type(&self) -> (r: ModType) {
        ModType::Forge(ForgeModFormat::ModsToml)
    }

    fn detection_files(&self) -> (r: &'static [&'static str]) {
        let r: &'static [&'static str] = &["META-INF/mods.toml"];
        proof {
            assert(strs_view(r@) =~= seq!["META-INF/mods.toml"@]);
        }
        r
    }

    fn metadata_format(&self) -> (r: MetadataFormat) {
        MetadataFormat::ForgeModern
    }

    fn reads_deps(&self) -> (r: bool) {
        true
    }

    fn extract_deps(&self, meta: &ModMetadata) -> (r: Vec<DepEntry>) {
        match meta {
            ModMetadata::ForgeModern(m) => dep::extract(m),
            _ => {
                let v: Vec<DepEntry> = Vec::new();
                proof {
                    assert(entries_view(v@) =~= Seq::<DepEntryView>::empty());
                }
                v
            },
        }
    }
}

} // verus!
