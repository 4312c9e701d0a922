//! Bukkit / Spigot plugins (`plugin.yml`).

pub mod dep;
pub mod metadata;

use vstd::prelude::*;

use crate::inspect::dep::types::{DepEntry, DepEntryView, entries_view};
use crate::inspect::detect_mod_type::{ModType, PluginType};
use crate::inspect::metadata::{MetadataFormat, ModMetadata};
use crate::inspect::registry::{strs_view, ModHandler};

verus! {

/// Handler for Bukkit / Spigot plugins.
pub struct BukkitHandler;

impl ModHandler for BukkitHandler {
    open spec fn handled_type(&self) -> ModType {
        ModType::Plugin(PluginType::Bukkit)
    }

    open spec fn marker_files(&self) -> Seq<Seq<char>> {
        seq!["plugin.yml"@]
    }

    open spec fn model(&self) -> MetadataFormat {
        MetadataFormat::Bukkit
    }

    open spec fn declares_deps(&self) -> bool {
        true
    }

    open spec fn deps_of(&self, meta: ModMetadata) -> Seq<DepEntryView> {
        match meta {
            ModMetadata::Bukkit(m) => dep::bukkit_deps(m),
            _ => Seq::empty(),
        }
    }

    fn mod_type(&self) -> (r: ModType) {
        ModType::Plugin(PluginType::Bukkit)
    }

    fn detection_files(&self) -> (r: &'static [&'static str]) {
        let r: &'static [&'static str] = &["plugin.yml"];
        proof {
            assert(strs_view(r@) =~= seq!["plugin.yml"@]);
        }
        r
    }

    fn metadata_format(&self) -> (r: MetadataFormat) {
        MetadataFormat::Bukkit
    }

    fn reads_deps(&self) -> (r: bool) {
        true
    }

    fn extract_deps(&self, meta: &ModMetadata) -> (r: Vec<DepEntry>) {
        match meta {
            ModMetadata::Bukkit(m) => dep::extract(m),
            _ => {
                let v: Vec<DepEntry> = Vec::new();
                proof {
                    assert(entries_view(v@) =~= Seq::<DepEntryView>::empty());
                }
                v
            },
        }
    }
}

} // verus!
