//! Legacy Forge mods (`mcmod.info`).

pub mod dep;
pub mod metadata;

use vstd::prelude::*;

use crate::inspect::dep::types::{DepEntry, DepEntryView, entries_view};
use crate::inspect::detect_mod_type::{ForgeModFormat, ModType};
use crate::inspect::metadata::{MetadataFormat, ModMetadata};
use crate::inspect::registry::{strs_view, ModHandler};

verus! {

/// Handler for legacy Forge mods.
pub struct ForgeLegacyHandler;

impl ModHandler for ForgeLegacyHandler {
    open spec fn handled_type(&self) -> ModType {
        ModType::Forge(ForgeModFormat::McmodInfo)
    }

    open spec fn marker_files(&self) -> Seq<Seq<char>> {
        seq!["mcmod.info"@]
    }

    open spec fn model(&self) -> MetadataFormat {
        MetadataFormat::ForgeLegacy
    }

    open spec fn declares_deps(&self) -> bool {
        true
    }

    open spec fn deps_of(&self, meta: ModMetadata) -> Seq<DepEntryView> {
        match meta {
            ModMetadata::ForgeLegacy(m) => dep::legacy_deps(m@),
            _ => Seq::empty(),
        }
    }

    fn mod_type(&self) -> (r: ModType) {
        ModType::Forge(ForgeModFormat::McmodInfo)
    }

    fn detection_files(&self) -> (r: &'static [&'static str]) {
        let r: &'static [&'static str] = &["mcmod.info"];
        proof {
            assert(strs_view(r@) =~= seq!["mcmod.info"@]);
        }
        r
    }

    fn metadata_format(&self) -> (r: MetadataFormat) {
        MetadataFormat::ForgeLegacy
    }

    fn reads_deps(&self) -> (r: bool) {
        true
    }

    fn extract_deps(&self, meta: &ModMetadata) -> (r: Vec<DepEntry>) {
        match meta {
            ModMetadata::ForgeLegacy(m) => dep::extract(m),
            _ => {
                let v: Vec<DepEntry> = Vec::new();
                proof {
                    assert(entries_view(v@) =~= Seq::<DepEntryView>::empty());
                }
                v
            },
        }
    }
}

} // verus!
