//! Parsed mod/plugin metadata of any supported loader.

use vstd::prelude::*;

use crate::inspect::loaders::bukkit::metadata::{bukkit_text, BukkitPluginMetadata};
use crate::inspect::loaders::fabric::metadata::{fabric_text, FabricModMetadata};
use crate::inspect::loaders::forge_legacy::metadata::{
    legacy_text, ForgeLegacyDisplay, ForgeLegacyMetadata,
};
use crate::inspect::loaders::forge_modern::metadata::{toml_text, ModsTomlMetadata};
use crate::inspect::loaders::paper::metadata::{paper_text, PaperPluginMetadata};
use crate::text::{owned, push_str};

verus! {

/// Parsed mod/plugin metadata from a JAR file.
#[derive(Debug, PartialEq)]
pub enum ModMetadata {
    Fabric(Box<FabricModMetadata>),
    ForgeLegacy(ForgeLegacyMetadata),
    ForgeModern(Box<ModsTomlMetadata>),
    NeoForge(Box<ModsTomlMetadata>),
    Bukkit(BukkitPluginMetadata),
    Paper(PaperPluginMetadata),
}

/// Which metadata model a metadata file is read into.
#[derive(Debug, Clone, Copy, PartialEq, Eq, Structural)]
pub enum MetadataFormat {
    /// `fabric.mod.json` (JSON).
    Fabric,
    /// `mcmod.info` (JSON array).
    ForgeLegacy,
    /// `META-INF/mods.toml` (TOML).
    ForgeModern,
    /// `META-INF/neoforge.mods.toml` (TOML).
    NeoForge,
    /// `plugin.yml` (YAML).
    Bukkit,
    /// `paper-plugin.yml` (YAML).
    Paper,
}

/// The human-readable form of parsed metadata: a type line, then the loader's own form.
pub open spec fn metadata_text(m: ModMetadata) -> Seq<char> {
    match m {
        ModMetadata::Fabric(f) => "Type:     Fabric\n"@ + fabric_text(*f),
        ModMetadata::ForgeLegacy(e) => "Type:     Forge (mcmod.info)\n"@ + legacy_text(e@),
        ModMetadata::ForgeModern(t) => "Type:     Forge (mods.toml)\n"@ + toml_text(*t),
        ModMetadata::NeoForge(t) => "Type:     NeoForge\n"@ + toml_text(*t),
        ModMetadata::Bukkit(b) => "Type:     Bukkit/Spigot\n"@ + bukkit_text(b),
        ModMetadata::Paper(p) => "Type:     Paper\n"@ + paper_text(p),
    }
}

impl ModMetadata {
    /// The human-readable form.
    pub fn to_string(&self) -> (r: String)
        ensures
            r@ == metadata_text(*self),
    {
        match self {
            ModMetadata::Fabric(f) => {
                let mut out = owned("Type:     Fabric\n");
                let body = f.to_string();
                push_str(&mut out, body.as_str());
                out
            },
            ModMetadata::ForgeLegacy(e) => {
                let mut out = owned("Type:     Forge (mcmod.info)\n");
                let body = ForgeLegacyDisplay(e.as_slice()).to_string();
                push_str(&mut out, body.as_str());
                out
            },
            ModMetadata::ForgeModern(t) => {
                let mut out = owned("Type:     Forge (mods.toml)\n");
                let body = t.to_string();
                push_str(&mut out, body.as_str());
                out
            },
            ModMetadata::NeoForge(t) => {
                let mut out = owned("Type:     NeoForge\n");
                let body = t.to_string();
                push_str(&mut out, body.as_str());
                out
            },
            ModMetadata::Bukkit(b) => {
                let mut out = owned("Type:     Bukkit/Spigot\n");
                let body = b.to_string();
                push_str(&mut out, body.as_str());
                out
            },
            ModMetadata::Paper(p) => {
                let mut out = owned("Type:     Paper\n");
                let body = p.to_string();
                push_str(&mut out, body.as_str());
                out
            },
        }
    }

    /// The format this metadata was read from.
    pub fn format(&self) -> (r: MetadataFormat)
        ensures
            r == format_of(*self),
    {
        match self {
            ModMetadata::Fabric(_) => MetadataFormat::Fabric,
            ModMetadata::ForgeLegacy(_) => MetadataFormat::ForgeLegacy,
            ModMetadata::ForgeModern(_) => MetadataFormat::ForgeModern,
            ModMetadata::NeoForge(_) => MetadataFormat::NeoForge,
            ModMetadata::Bukkit(_) => MetadataFormat::Bukkit,
            ModMetadata::Paper(_) => MetadataFormat::Paper,
        }
    }
}

/// The format matching a metadata value's variant.
pub open spec fn format_of(m: ModMetadata) -> MetadataFormat {
    match m {
        ModMetadata::Fabric(_) => MetadataFormat::Fabric,
        ModMetadata::ForgeLegacy(_) => MetadataFormat::ForgeLegacy,
        ModMetadata::ForgeModern(_) => MetadataFormat::ForgeModern,
        ModMetadata::NeoForge(_) => MetadataFormat::NeoForge,
        ModMetadata::Bukkit(_) => MetadataFormat::Bukkit,
        ModMetadata::Paper(_) => MetadataFormat::Paper,
    }
}

} // verus!
