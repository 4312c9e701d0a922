//! Fabric mods (`fabric.mod.json`).

pub mod dep;
pub mod metadata;

use vstd::prelude::*;

use crate::inspect::dep::types::{DepEntry, DepEntryView, entries_view};
use crate::inspect::detect_mod_type::ModType;
use crate::inspect::metadata::{MetadataFormat, ModMetadata};
use crate::inspect::registry::{strs_view, ModHandler};

verus! {

/// Handler for Fabric mods.
pub struct FabricHandler;

impl ModHandler for FabricHandler {
    open spec fn handled_type(&self) -> ModType {
        ModType::Fabric
    }

    open spec fn marker_files(&self) -> Seq<Seq<char>> {
        seq!["fabric.mod.json"@]
    }

    open spec fn model(&self) -> MetadataFormat {
        MetadataFormat::Fabric
    }

    open spec fn declares_deps(&self) -> bool {
        true
    }

    open spec fn deps_of(&self, meta: ModMetadata) -> Seq<DepEntryView> {
        match meta {
            ModMetadata::Fabric(m) => dep::fabric_deps(*m),
            _ => Seq::empty(),
        }
    }

    fn mod_type(&self) -> (r: ModType) {
        ModType::Fabric
    }

    fn detection_files(&self) -> (r: &'static [&'static str]) {
        let r: &'static [&'static str] = &["fabric.mod.json"];
        proof {
            assert(strs_view(r@) =~= seq!["fabric.mod.json"@]);
        }
        r
    }

    fn metadata_format(&self) -> (r: MetadataFormat) {
        MetadataFormat::Fabric
    }

    fn reads_deps(&self) -> (r: bool) {
        true
    }

    fn extract_deps(&self, meta: &ModMetadata) -> (r: Vec<DepEntry>) {
        match meta {
            ModMetadata::Fabric(m) => dep::extract(m),
            _ => {
                let v: Vec<DepEntry> = Vec::new();
                proof {
                    assert(entries_view(v@) =~= Seq::<DepEntryView>::empty());
                }
                v
            },
        }
    }
}

} // verus!
