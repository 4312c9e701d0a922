//! The `paper-plugin.yml` model and its human-readable form.

use vstd::prelude::*;

use crate::text::{line, list_line, opt_line, push_line, push_list_line, push_opt_line};

verus! {

/// Top-level `paper-plugin.yml` entry.
#[derive(Debug, Clone, PartialEq)]
pub struct PaperPluginMetadata {
    pub name: String,
    pub version: String,
    pub main: String,
    pub api_version: Option<String>,
    pub folia_supported: Option<bool>,
    pub authors: Vec<String>,
    pub description: Option<String>,
    pub website: Option<String>,
    pub bootstrapper: Option<String>,
    pub loader: Option<String>,
    pub load: Option<String>,
    pub author: Option<String>,
}

/// The human-readable form of a `paper-plugin.yml`.
pub open spec fn paper_text(m: PaperPluginMetadata) -> Seq<char> {
    line("Name:     "@, m.name@) + line("Version:  "@, m.version@) + opt_line(
        "About:    "@,
        m.description,
    ) + list_line("Authors:  "@, m.authors@)
}

impl PaperPluginMetadata {
    /// The human-readable form: name, version, description and authors.
    pub fn to_string(&self) -> (r: String)
        ensures
            r@ == paper_text(*self),
    {
        let mut out = String::new();
        push_line(&mut out, "Name:     ", self.name.as_str());
        push_line(&mut out, "Version:  ", self.version.as_str());
        push_opt_line(&mut out, "About:    ", &self.description);
        push_list_line(&mut out, "Authors:  ", &self.authors);
        proof {
            assert(out@ =~= paper_text(*self));
        }
        out
    }
}

} // verus!
