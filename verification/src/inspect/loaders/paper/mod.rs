//! Paper plugins (`paper-plugin.yml`); their dependencies are not read.

pub mod metadata;

use vstd::prelude::*;

use crate::inspect::dep::types::{DepEntry, DepEntryView, entries_view};
use crate::inspect::detect_mod_type::{ModType, PluginType};
use crate::inspect::metadata::{MetadataFormat, ModMetadata};
use crate::inspect::registry::{strs_view, ModHandler};

verus! {

/// Handler for Paper plugins.
pub struct PaperHandler;

impl ModHandler for PaperHandler {
    open spec fn handled_type(&self) -> ModType {
        ModType::Plugin(PluginType::Paper)
    }

    open spec fn marker_files(&self) -> Seq<Seq<char>> {
        seq!["paper-plugin.yml"@]
    }

    open spec fn model(&self) -> MetadataFormat {
        MetadataFormat::Paper
    }

    open spec fn declares_deps(&self) -> bool {
        false
    }

    open spec fn deps_of(&self, meta: ModMetadata) -> Seq<DepEntryView> {
        Seq::empty()
    }

    fn mod_type(&self) -> (r: ModType) {
        ModType::Plugin(PluginType::Paper)
    }

    fn detection_files(&self) -> (r: &'static [&'static str]) {
        let r: &'static [&'static str] = &["paper-plugin.yml"];
        proof {
            assert(strs_view(r@) =~= seq!["paper-plugin.yml"@]);
        }
        r
    }

    fn metadata_format(&self) -> (r: MetadataFormat) {
        MetadataFormat::Paper
    }

    fn reads_deps(&self) -> (r: bool) {
        false
    }

    fn extract_deps(&self, meta: &ModMetadata) -> (r: Vec<DepEntry>) {
        let v: Vec<DepEntry> = Vec::new();
        proof {
            assert(entries_view(v@) =~= Seq::<DepEntryView>::empty());
        }
        v
    }
}

} // verus!
