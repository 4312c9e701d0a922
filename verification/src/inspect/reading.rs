//! What the library reads of an in-memory archive before a metadata file is
//! parsed: the loader, and the text of the file its handler reads.

use vstd::prelude::*;

use crate::error::Error;
use crate::inspect::archive::{entry_names, ZipEntry};
use crate::inspect::detect_mod_type::ModType;
use crate::inspect::jar::{read_entries, read_text, zip_file_text, zip_listing};
use crate::inspect::loaders::{builtin_handlers, register_all};
use crate::inspect::registry::{registry_detect, registry_metadata_file, type_pos, Handler, ModHandler, Registry};
use crate::text::owned;

verus! {

/// The registry of the built-in handlers, in priority order.
pub fn builtin_registry() -> (r: Registry)
    ensures
        r.handlers@ == builtin_handlers(),
{
    let mut r = Registry::new();
    register_all(&mut r);
    proof {
        assert(r.handlers@ =~= builtin_handlers());
    }
    r
}

/// The metadata file of an archive, read but not yet parsed.
#[derive(Debug, Clone, PartialEq, Eq)]
pub struct MetadataSource {
    pub mod_type: ModType,
    pub raw: String,
}

/// Detect the loader of an in-memory archive and read its metadata file.
/// An archive that cannot be listed, or whose metadata file cannot be read,
/// is a `ZipCrawl` error; a loader without a metadata file is an
/// `UnsupportedMetadata` error naming `path_name`.
pub fn metadata_source(registry: &Registry, data: &[u8], path_name: &str) -> (r: Result<MetadataSource, Error>)
    ensures
        match zip_listing(data@) {
            None => r matches Err(e) && e is ZipCrawl,
            Some(es) => {
                let t = registry_detect(registry.handlers@, entry_names(es));
                match registry_metadata_file(registry.handlers@, t) {
                    None => r matches Err(e) && (e matches Error::UnsupportedMetadata(p) && p@ == path_name@),
                    Some(f) => match zip_file_text(data@, f) {
                        Some(text) => r matches Ok(s) && s.mod_type == t && s.raw@ == text,
                        None => r matches Err(e) && e is ZipCrawl,
                    },
                }
            },
        },
{
    let entries = read_entries(data)?;
    let mod_type = registry.detect(entries.as_slice());
    let file = match registry.metadata_file_path(&mod_type) {
        Some(f) => f,
        None => return Err(Error::UnsupportedMetadata(owned(path_name))),
    };
    let raw = read_text(data, file)?;
    Ok(MetadataSource { mod_type, raw })
}

/// Whether the registry's handler for `t` reads dependencies from its metadata file.
pub open spec fn reads_deps_of(hs: Seq<Handler>, t: ModType) -> bool {
    let k = type_pos(hs, t);
    0 <= k < hs.len() && hs[k].declares_deps()
}

/// What dependency analysis reads of an archive: its listing, its loader,
/// and the text of the metadata file when the loader's handler reads
/// dependencies from it.
#[derive(Debug, Clone, PartialEq, Eq)]
pub struct DepSource {
    pub entries: Vec<ZipEntry>,
    pub mod_type: ModType,
    pub raw: Option<String>,
}

/// List an in-memory archive, detect its loader and, when the loader's
/// handler reads dependencies from the metadata file, read that file. An
/// archive that cannot be listed, or a metadata file that cannot be read,
/// is a `ZipCrawl` error.
pub fn dep_source(registry: &Registry, data: &[u8]) -> (r: Result<DepSource, Error>)
    ensures
        match zip_listing(data@) {
            None => r matches Err(e) && e is ZipCrawl,
            Some(es) => {
                let t = registry_detect(registry.handlers@, entry_names(es));
                match (
                    reads_deps_of(registry.handlers@, t),
                    registry_metadata_file(registry.handlers@, t),
                ) {
                    (true, Some(f)) => match zip_file_text(data@, f) {
                        Some(text) => r matches Ok(s) && s.entries@ == es && s.mod_type == t
                            && (s.raw matches Some(x) && x@ == text),
                        None => r matches Err(e) && e is ZipCrawl,
                    },
                    _ => r matches Ok(s) && s.entries@ == es && s.mod_type == t && s.raw is None,
                }
            },
        },
{
    let entries = read_entries(data)?;
    let mod_type = registry.detect(entries.as_slice());
    let raw = if registry.reads_deps(&mod_type) {
        match registry.metadata_file_path(&mod_type) {
            Some(f) => Some(read_text(data, f)?),
            None => None,
        }
    } else {
        None
    };
    Ok(DepSource { entries, mod_type, raw })
}

} // verus!
