//! Inspection of Minecraft mod and plugin archives: loader detection,
//! metadata models, dependency analysis and class-file queries.

pub mod error;
pub mod inspect;
pub mod text;

pub use crate::error::{Error, Result};
pub use crate::inspect::archive::ZipEntry;
pub use crate::inspect::classfile::dupes::{find_duplicates, DupEntry, JarFile};
pub use crate::inspect::classfile::query::{ClassEntry, GrepMatch, MixinEntry};
pub use crate::inspect::classfile::{grep, list_classes, mixins};
pub use crate::inspect::dep::analyze_entries;
pub use crate::inspect::dep::types::{DepEntry, DepKind, DepReport, JarInJar, VersionRange};
pub use crate::inspect::detect_mod_type::{ForgeModFormat, ModType, PluginType};
pub use crate::inspect::identify::{identify_reader, scan_stream, StreamScan};
pub use crate::inspect::metadata::{MetadataFormat, ModMetadata};
pub use crate::inspect::reading::{builtin_registry, dep_source, metadata_source, DepSource, MetadataSource};
pub use crate::inspect::registry::{Handler, ModHandler, Registry};
