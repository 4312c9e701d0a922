//! The `plugin.yml` model (Bukkit / Spigot) and its human-readable form.

use vstd::prelude::*;

use crate::text::{line, list_line, opt_line, push_line, push_list_line, push_opt_line};

verus! {

/// Top-level `plugin.yml` entry (Bukkit / Spigot).
#[derive(Debug, Clone, PartialEq)]
pub struct BukkitPluginMetadata {
    pub name: String,
    pub version: String,
    pub main: String,
    pub api_version: Option<String>,
    pub folia_supported: Option<bool>,
    pub softdepend: Vec<String>,
    pub load: Option<String>,
    pub authors: Vec<String>,
    pub description: Option<String>,
    pub website: Option<String>,
    pub author: Option<String>,
    pub prefix: Option<String>,
    pub loadbefore: Vec<String>,
    pub depend: Vec<String>,
}

/// The human-readable form of a `plugin.yml`.
pub open spec fn bukkit_text(m: BukkitPluginMetadata) -> Seq<char> {
    line("Name:     "@, m.name@) + line("Version:  "@, m.version@) + opt_line(
        "About:    "@,
        m.description,
    ) + list_line("Authors:  "@, m.authors@) + list_line("Depends:  "@, m.depend@)
}

impl BukkitPluginMetadata {
    /// The human-readable form: name, version, description, authors, dependencies.
    pub fn to_string(&self) -> (r: String)
        ensures
            r@ == bukkit_text(*self),
    {
        let mut out = String::new();
        push_line(&mut out, "Name:     ", self.name.as_str());
        push_line(&mut out, "Version:  ", self.version.as_str());
        push_opt_line(&mut out, "About:    ", &self.description);
        push_list_line(&mut out, "Authors:  ", &self.authors);
        push_list_line(&mut out, "Depends:  ", &self.depend);
        proof {
            assert(out@ =~= bukkit_text(*self));
        }
        out
    }
}

} // verus!
