//! The registry of loader handlers: detection, metadata lookup and
//! dependency extraction dispatched by mod type.

use vstd::prelude::*;

use crate::error::Error;
use crate::inspect::archive::{entry_names, ZipEntry};
use crate::inspect::dep::types::{entries_view, DepEntry, DepEntryView};
use crate::inspect::detect_mod_type::{has_entry, mod_type_text, ModType};
use crate::inspect::metadata::{MetadataFormat, ModMetadata};
use crate::inspect::loaders::bukkit::BukkitHandler;
use crate::inspect::loaders::fabric::FabricHandler;
use crate::inspect::loaders::forge_legacy::ForgeLegacyHandler;
use crate::inspect::loaders::forge_modern::ForgeModernHandler;
use crate::inspect::loaders::neoforge::NeoForgeHandler;
use crate::inspect::loaders::paper::PaperHandler;
use crate::text::str_eq;

verus! {

/// The characters of a list of static strings.
pub open spec fn strs_view(v: Seq<&'static str>) -> Seq<Seq<char>> {
    v.map_values(|s: &'static str| s@)
}

/// Handler for a specific mod/plugin type.
///
/// The spec functions describe what the handler's methods return. Their
/// default bodies let a handler written outside verified code leave them
/// out; verified code never reads a default through the trait.
pub trait ModHandler: Send + Sync {
    /// The type this handler recognises.
    closed spec fn handled_type(&self) -> ModType {
        arbitrary()
    }

    /// The files whose presence identifies the type, the metadata file first.
    closed spec fn marker_files(&self) -> Seq<Seq<char>> {
        arbitrary()
    }

    /// The model the metadata file is read into.
    closed spec fn model(&self) -> MetadataFormat {
        arbitrary()
    }

    /// Whether the dependencies are read from the metadata file.
    closed spec fn declares_deps(&self) -> bool {
        arbitrary()
    }

    /// The dependencies the handler reads from parsed metadata.
    closed spec fn deps_of(&self, meta: ModMetadata) -> Seq<DepEntryView> {
        arbitrary()
    }

    fn mod_type(&self) -> (r: ModType)
        ensures
            r == self.handled_type(),
    ;

    fn detection_files(&self) -> (r: &'static [&'static str])
        ensures
            strs_view(r@) == self.marker_files(),
    ;

    /// The model the metadata file is read into.
    fn metadata_format(&self) -> (r: MetadataFormat)
        ensures
            r == self.model(),
    ;

    /// Whether dependencies are read from the metadata file.
    fn reads_deps(&self) -> (r: bool)
        ensures
            r == self.declares_deps(),
    ;

    /// Extract dependencies from parsed metadata.
    fn extract_deps(&self, meta: &ModMetadata) -> (r: Vec<DepEntry>)
        ensures
            entries_view(r@) == self.deps_of(*meta),
    ;

    /// The metadata file: the first detection file.
    fn metadata_file_path(&self) -> (r: Option<&'static str>)
        ensures
            match r {
                Some(f) => self.marker_files().len() > 0 && f@ == self.marker_files()[0],
                None => self.marker_files().len() == 0,
            },
    {
        let files = self.detection_files();
        if files.len() > 0 {
            Some(files[0])
        } else {
            None
        }
    }
}

/// Whether one of `files` is among `names`.
pub open spec fn any_present(files: Seq<Seq<char>>, names: Seq<Seq<char>>) -> bool {
    exists|j: int| 0 <= j < files.len() && names.contains(#[trigger] files[j])
}

/// A handler held by the registry: one of the built-in handlers, kept as
/// itself, or any other handler, called through the trait.
pub enum Handler {
    Paper(PaperHandler),
    Bukkit(BukkitHandler),
    NeoForge(NeoForgeHandler),
    ForgeModern(ForgeModernHandler),
    ForgeLegacy(ForgeLegacyHandler),
    Fabric(FabricHandler),
    Custom(Box<dyn ModHandler>),
}

impl ModHandler for Handler {
    open spec fn handled_type(&self) -> ModType {
        match self {
            Handler::Paper(h) => h.handled_type(),
            Handler::Bukkit(h) => h.handled_type(),
            Handler::NeoForge(h) => h.handled_type(),
            Handler::ForgeModern(h) => h.handled_type(),
            Handler::ForgeLegacy(h) => h.handled_type(),
            Handler::Fabric(h) => h.handled_type(),
            Handler::Custom(h) => h.handled_type(),
        }
    }

    open spec fn marker_files(&self) -> Seq<Seq<char>> {
        match self {
            Handler::Paper(h) => h.marker_files(),
            Handler::Bukkit(h) => h.marker_files(),
            Handler::NeoForge(h) => h.marker_files(),
            Handler::ForgeModern(h) => h.marker_files(),
            Handler::ForgeLegacy(h) => h.marker_files(),
            Handler::Fabric(h) => h.marker_files(),
            Handler::Custom(h) => h.marker_files(),
        }
    }

    open spec fn model(&self) -> MetadataFormat {
        match self {
            Handler::Paper(h) => h.model(),
            Handler::Bukkit(h) => h.model(),
            Handler::NeoForge(h) => h.model(),
            Handler::ForgeModern(h) => h.model(),
            Handler::ForgeLegacy(h) => h.model(),
            Handler::Fabric(h) => h.model(),
            Handler::Custom(h) => h.model(),
        }
    }

    open spec fn declares_deps(&self) -> bool {
        match self {
            Handler::Paper(h) => h.declares_deps(),
            Handler::Bukkit(h) => h.declares_deps(),
            Handler::NeoForge(h) => h.declares_deps(),
            Handler::ForgeModern(h) => h.declares_deps(),
            Handler::ForgeLegacy(h) => h.declares_deps(),
            Handler::Fabric(h) => h.declares_deps(),
            Handler::Custom(h) => h.declares_deps(),
        }
    }

    open spec fn deps_of(&self, meta: ModMetadata) -> Seq<DepEntryView> {
        match self {
            Handler::Paper(h) => h.deps_of(meta),
            Handler::Bukkit(h) => h.deps_of(meta),
            Handler::NeoForge(h) => h.deps_of(meta),
            Handler::ForgeModern(h) => h.deps_of(meta),
            Handler::ForgeLegacy(h) => h.deps_of(meta),
            Handler::Fabric(h) => h.deps_of(meta),
            Handler::Custom(h) => h.deps_of(meta),
        }
    }

    fn mod_type(&self) -> (r: ModType) {
        match self {
            Handler::Paper(h) => h.mod_type(),
            Handler::Bukkit(h) => h.mod_type(),
            Handler::NeoForge(h) => h.mod_type(),
            Handler::ForgeModern(h) => h.mod_type(),
            Handler::ForgeLegacy(h) => h.mod_type(),
            Handler::Fabric(h) => h.mod_type(),
            Handler::Custom(h) => h.mod_type(),
        }
    }

    fn detection_files(&self) -> (r: &'static [&'static str]) {
        match self {
            Handler::Paper(h) => h.detection_files(),
            Handler::Bukkit(h) => h.detection_files(),
            Handler::NeoForge(h) => h.detection_files(),
            Handler::ForgeModern(h) => h.detection_files(),
            Handler::ForgeLegacy(h) => h.detection_files(),
            Handler::Fabric(h) => h.detection_files(),
            Handler::Custom(h) => h.detection_files(),
        }
    }

    fn metadata_format(&self) -> (r: MetadataFormat) {
        match self {
            Handler::Paper(h) => h.metadata_format(),
            Handler::Bukkit(h) => h.metadata_format(),
            Handler::NeoForge(h) => h.metadata_format(),
            Handler::ForgeModern(h) => h.metadata_format(),
            Handler::ForgeLegacy(h) => h.metadata_format(),
            Handler::Fabric(h) => h.metadata_format(),
            Handler::Custom(h) => h.metadata_format(),
        }
    }

    fn reads_deps(&self) -> (r: bool) {
        match self {
            Handler::Paper(h) => h.reads_deps(),
            Handler::Bukkit(h) => h.reads_deps(),
            Handler::NeoForge(h) => h.reads_deps(),
            Handler::ForgeModern(h) => h.reads_deps(),
            Handler::ForgeLegacy(h) => h.reads_deps(),
            Handler::Fabric(h) => h.reads_deps(),
            Handler::Custom(h) => h.reads_deps(),
        }
    }

    fn extract_deps(&self, meta: &ModMetadata) -> (r: Vec<DepEntry>) {
        match self {
            Handler::Paper(h) => h.extract_deps(meta),
            Handler::Bukkit(h) => h.extract_deps(meta),
            Handler::NeoForge(h) => h.extract_deps(meta),
            Handler::ForgeModern(h) => h.extract_deps(meta),
            Handler::ForgeLegacy(h) => h.extract_deps(meta),
            Handler::Fabric(h) => h.extract_deps(meta),
            Handler::Custom(h) => h.extract_deps(meta),
        }
    }
}

/// The position of the first handler one of whose files is among `names`, or -1.
pub open spec fn detect_pos(hs: Seq<Handler>, names: Seq<Seq<char>>) -> int
    decreases hs.len(),
{
    if hs.len() == 0 {
        -1
    } else if any_present(hs[0].marker_files(), names) {
        0
    } else {
        let r = detect_pos(hs.drop_first(), names);
        if r < 0 {
            -1
        } else {
            r + 1
        }
    }
}

/// The type detected by the first matching handler, or `Unknown`.
pub open spec fn registry_detect(hs: Seq<Handler>, names: Seq<Seq<char>>) -> ModType {
    let k = detect_pos(hs, names);
    if 0 <= k < hs.len() {
        hs[k].handled_type()
    } else {
        ModType::Unknown
    }
}

/// The position of the first handler for `m`, or -1.
pub open spec fn type_pos(hs: Seq<Handler>, m: ModType) -> int
    decreases hs.len(),
{
    if hs.len() == 0 {
        -1
    } else if hs[0].handled_type() == m {
        0
    } else {
        let r = type_pos(hs.drop_first(), m);
        if r < 0 {
            -1
        } else {
            r + 1
        }
    }
}

/// The position of the first handler listing `file`, or -1.
pub open spec fn file_pos(hs: Seq<Handler>, file: Seq<char>) -> int
    decreases hs.len(),
{
    if hs.len() == 0 {
        -1
    } else if hs[0].marker_files().contains(file) {
        0
    } else {
        let r = file_pos(hs.drop_first(), file);
        if r < 0 {
            -1
        } else {
            r + 1
        }
    }
}

/// The metadata file of the first handler for `m`, if any.
pub open spec fn registry_metadata_file(hs: Seq<Handler>, m: ModType) -> Option<Seq<char>> {
    let k = type_pos(hs, m);
    if 0 <= k < hs.len() && hs[k].marker_files().len() > 0 {
        Some(hs[k].marker_files()[0])
    } else {
        None
    }
}

/// The dependencies the registry extracts for `m` from `meta`: those the
/// first handler for `m` reads from the metadata; nothing without a handler
/// or without metadata.
pub open spec fn registry_deps(hs: Seq<Handler>, m: ModType, meta: Option<ModMetadata>) -> Seq<DepEntryView> {
    let k = type_pos(hs, m);
    if 0 <= k < hs.len() {
        match meta {
            Some(md) => hs[k].deps_of(md),
            None => Seq::empty(),
        }
    } else {
        Seq::empty()
    }
}

proof fn lemma_pos_bounds(hs: Seq<Handler>, names: Seq<Seq<char>>, m: ModType, file: Seq<char>)
    ensures
        -1 <= detect_pos(hs, names) < hs.len(),
        -1 <= type_pos(hs, m) < hs.len(),
        -1 <= file_pos(hs, file) < hs.len(),
        type_pos(hs, m) >= 0 ==> hs[type_pos(hs, m)].handled_type() == m,
        type_pos(hs, m) < 0 ==> forall|j: int| 0 <= j < hs.len() ==> hs[j].handled_type() != m,
    decreases hs.len(),
{
    if hs.len() > 0 {
        lemma_pos_bounds(hs.drop_first(), names, m, file);
        assert forall|j: int| 0 < j < hs.len() implies hs[j] == hs.drop_first()[j - 1] by {}
    }
}

/// A handler appended for a type that no earlier handler claims is found
/// at the end.
proof fn lemma_type_pos_push(hs: Seq<Handler>, h: Handler)
    requires
        forall|j: int| 0 <= j < hs.len() ==> hs[j].handled_type() != h.handled_type(),
    ensures
        type_pos(hs.push(h), h.handled_type()) == hs.len(),
    decreases hs.len(),
{
    let t = h.handled_type();
    if hs.len() > 0 {
        let tail = hs.drop_first();
        assert forall|j: int| 0 <= j < tail.len() implies tail[j].handled_type() != t by {
            assert(tail[j] == hs[j + 1]);
        }
        lemma_type_pos_push(tail, h);
        assert(hs.push(h).drop_first() =~= tail.push(h));
        assert(hs.push(h)[0] == hs[0]);
    }
}

/// Law: a handler registered for a type that no earlier handler claims is
/// the one the registry extracts that type's dependencies with, whatever
/// the metadata.
pub proof fn lemma_registered_handler_extracts(hs: Seq<Handler>, h: Handler, meta: ModMetadata)
    requires
        forall|j: int| 0 <= j < hs.len() ==> hs[j].handled_type() != h.handled_type(),
    ensures
        registry_deps(hs.push(h), h.handled_type(), Some(meta)) == h.deps_of(meta),
{
    lemma_type_pos_push(hs, h);
    assert(hs.push(h)[hs.len() as int] == h);
}

/// Central registry of the known mod/plugin type handlers.
pub struct Registry {
    pub handlers: Vec<Handler>,
}

impl Registry {
    /// An empty registry.
    pub fn new() -> (r: Self)
        ensures
            r.handlers@.len() == 0,
    {
        Registry { handlers: Vec::new() }
    }

    /// Adds a handler after the ones already registered.
    pub fn register(&mut self, handler: Box<dyn ModHandler>)
        ensures
            final(self).handlers@ == old(self).handlers@.push(Handler::Custom(handler)),
    {
        self.handlers.push(Handler::Custom(handler));
    }

    /// Adds a handler held as itself after the ones already registered.
    pub fn add(&mut self, handler: Handler)
        ensures
            final(self).handlers@ == old(self).handlers@.push(handler),
    {
        self.handlers.push(handler);
    }

    /// The position of the first handler one of whose files is present.
    pub fn detect_index(&self, entries: &[ZipEntry]) -> (r: Option<usize>)
        ensures
            match r {
                Some(k) => detect_pos(self.handlers@, entry_names(entries@)) == k,
                None => detect_pos(self.handlers@, entry_names(entries@)) == -1,
            },
    {
        let ghost names = entry_names(entries@);
        let ghost hs = self.handlers@;
        let mut i: usize = 0;
        proof {
            assert(hs.skip(0) =~= hs);
        }
        while i < self.handlers.len()
            invariant
                i <= hs.len(),
                hs == self.handlers@,
                names == entry_names(entries@),
                detect_pos(hs, names) == if detect_pos(hs.skip(i as int), names) < 0 {
                    -1
                } else {
                    detect_pos(hs.skip(i as int), names) + i
                },
            decreases hs.len() - i,
        {
            let files = self.handlers[i].detection_files();
            let ghost fs = strs_view(files@);
            let mut j: usize = 0;
            let mut hit = false;
            while j < files.len() && !hit
                invariant
                    j <= files@.len(),
                    fs == strs_view(files@),
                    names == entry_names(entries@),
                    hit ==> any_present(fs, names),
                    !hit ==> forall|q: int| 0 <= q < j ==> !names.contains(#[trigger] fs[q]),
                decreases files@.len() - j,
            {
                proof {
                    assert(fs[j as int] == files@[j as int]@);
                }
                if has_entry(entries, files[j]) {
                    hit = true;
                }
                j = j + 1;
            }
            proof {
                assert(hs.skip(i as int)[0] == hs[i as int]);
                assert(hs.skip(i as int).drop_first() =~= hs.skip(i + 1));
                if !hit {
                    assert(!any_present(fs, names));
                }
            }
            if hit {
                return Some(i);
            }
            i = i + 1;
        }
        None
    }

    /// Detect the mod type: the first handler one of whose detection files is present.
    pub fn detect(&self, entries: &[ZipEntry]) -> (r: ModType)
        ensures
            r == registry_detect(self.handlers@, entry_names(entries@)),
    {
        proof {
            lemma_pos_bounds(self.handlers@, entry_names(entries@), ModType::Unknown, Seq::empty());
        }
        match self.detect_index(entries) {
            Some(k) => self.handlers[k].mod_type(),
            None => ModType::Unknown,
        }
    }

    /// The position of the first handler listing `file` among its detection files.
    pub fn file_index(&self, file: &str) -> (r: Option<usize>)
        ensures
            match r {
                Some(k) => file_pos(self.handlers@, file@) == k,
                None => file_pos(self.handlers@, file@) == -1,
            },
    {
        let ghost hs = self.handlers@;
        let mut i: usize = 0;
        proof {
            assert(hs.skip(0) =~= hs);
        }
        while i < self.handlers.len()
            invariant
                i <= hs.len(),
                hs == self.handlers@,
                file_pos(hs, file@) == if file_pos(hs.skip(i as int), file@) < 0 {
                    -1
                } else {
                    file_pos(hs.skip(i as int), file@) + i
                },
            decreases hs.len() - i,
        {
            let files = self.handlers[i].detection_files();
            let ghost fs = strs_view(files@);
            let mut j: usize = 0;
            while j < files.len() && !str_eq(files[j], file)
                invariant
                    j <= files@.len(),
                    fs == strs_view(files@),
                    forall|q: int| 0 <= q < j ==> fs[q] != file@,
                decreases files@.len() - j,
            {
                proof {
                    assert(fs[j as int] == files@[j as int]@);
                }
                j = j + 1;
            }
            proof {
                assert(hs.skip(i as int)[0] == hs[i as int]);
                assert(hs.skip(i as int).drop_first() =~= hs.skip(i + 1));
                if j < files@.len() {
                    assert(fs[j as int] == file@);
                    assert(fs.contains(file@));
                } else {
                    assert(!fs.contains(file@));
                }
            }
            if j < files.len() {
                return Some(i);
            }
            i = i + 1;
        }
        None
    }

    /// Find a handler by detection file path.
    pub fn handler_by_file(&self, file: &str) -> (r: Option<&Handler>)
        ensures
            match r {
                Some(h) => {
                    let k = file_pos(self.handlers@, file@);
                    0 <= k < self.handlers@.len() && *h == self.handlers@[k]
                },
                None => file_pos(self.handlers@, file@) < 0,
            },
    {
        proof {
            lemma_pos_bounds(self.handlers@, Seq::empty(), ModType::Unknown, file@);
        }
        match self.file_index(file) {
            Some(k) => Some(&self.handlers[k]),
            None => None,
        }
    }

    /// The position of the first handler for `mod_type`.
    pub fn type_index(&self, mod_type: &ModType) -> (r: Option<usize>)
        ensures
            match r {
                Some(k) => type_pos(self.handlers@, *mod_type) == k,
                None => type_pos(self.handlers@, *mod_type) == -1,
            },
    {
        let ghost hs = self.handlers@;
        let mut i: usize = 0;
        proof {
            assert(hs.skip(0) =~= hs);
        }
        while i < self.handlers.len()
            invariant
                i <= hs.len(),
                hs == self.handlers@,
                type_pos(hs, *mod_type) == if type_pos(hs.skip(i as int), *mod_type) < 0 {
                    -1
                } else {
                    type_pos(hs.skip(i as int), *mod_type) + i
                },
            decreases hs.len() - i,
        {
            proof {
                assert(hs.skip(i as int)[0] == hs[i as int]);
                assert(hs.skip(i as int).drop_first() =~= hs.skip(i + 1));
            }
            if self.handlers[i].mod_type() == *mod_type {
                return Some(i);
            }
            i = i + 1;
        }
        None
    }

    /// The handler for a mod type.
    pub fn handler(&self, mod_type: &ModType) -> (r: Option<&Handler>)
        ensures
            match r {
                Some(h) => {
                    let k = type_pos(self.handlers@, *mod_type);
                    0 <= k < self.handlers@.len() && *h == self.handlers@[k] && h.handled_type() == *mod_type
                },
                None => forall|j: int| 0 <= j < self.handlers@.len() ==> self.handlers@[j].handled_type() != *mod_type,
            },
    {
        proof {
            lemma_pos_bounds(self.handlers@, Seq::empty(), *mod_type, Seq::empty());
        }
        match self.type_index(mod_type) {
            Some(k) => Some(&self.handlers[k]),
            None => None,
        }
    }

    /// The metadata file of a mod type: the first detection file of its handler.
    pub fn metadata_file_path(&self, mod_type: &ModType) -> (r: Option<&'static str>)
        ensures
            match r {
                Some(f) => registry_metadata_file(self.handlers@, *mod_type) == Some(f@),
                None => registry_metadata_file(self.handlers@, *mod_type) is None,
            },
    {
        proof {
            lemma_pos_bounds(self.handlers@, Seq::empty(), *mod_type, Seq::empty());
        }
        match self.type_index(mod_type) {
            Some(k) => self.handlers[k].metadata_file_path(),
            None => None,
        }
    }

    /// The metadata model of a mod type; an unsupported type is an error
    /// naming the type.
    pub fn metadata_format(&self, mod_type: &ModType) -> (r: Result<MetadataFormat, Error>)
        ensures
            match r {
                Ok(f) => {
                    let k = type_pos(self.handlers@, *mod_type);
                    0 <= k < self.handlers@.len() && f == self.handlers@[k].model()
                },
                Err(e) => type_pos(self.handlers@, *mod_type) < 0 && (e matches Error::UnsupportedMetadata(
                    t,
                ) && t@ == mod_type_text(*mod_type)),
            },
    {
        proof {
            lemma_pos_bounds(self.handlers@, Seq::empty(), *mod_type, Seq::empty());
        }
        match self.type_index(mod_type) {
            Some(k) => Ok(self.handlers[k].metadata_format()),
            None => Err(Error::UnsupportedMetadata(mod_type.to_string())),
        }
    }

    /// Whether dependencies of this mod type are read from its metadata file.
    pub fn reads_deps(&self, mod_type: &ModType) -> (r: bool)
        ensures
            r == {
                let k = type_pos(self.handlers@, *mod_type);
                0 <= k < self.handlers@.len() && self.handlers@[k].declares_deps()
            },
    {
        proof {
            lemma_pos_bounds(self.handlers@, Seq::empty(), *mod_type, Seq::empty());
        }
        match self.type_index(mod_type) {
            Some(k) => self.handlers[k].reads_deps(),
            None => false,
        }
    }

    /// Extract dependencies for a given mod type from its parsed metadata
    /// with the type's handler; nothing without a handler or without
    /// metadata.
    pub fn extract_deps(&self, mod_type: &ModType, meta: Option<&ModMetadata>) -> (r: Vec<DepEntry>)
        ensures
            entries_view(r@) == registry_deps(
                self.handlers@,
                *mod_type,
                match meta {
                    Some(m) => Some(*m),
                    None => None,
                },
            ),
    {
        proof {
            lemma_pos_bounds(self.handlers@, Seq::empty(), *mod_type, Seq::empty());
        }
        match (self.type_index(mod_type), meta) {
            (Some(k), Some(m)) => self.handlers[k].extract_deps(m),
            _ => {
                let v: Vec<DepEntry> = Vec::new();
                proof {
                    assert(entries_view(v@) =~= Seq::<DepEntryView>::empty());
                }
                v
            },
        }
    }
}

impl Default for Registry {
    /// An empty registry.
    fn default() -> (r: Self)
        ensures
            r.handlers@.len() == 0,
    {
        Self::new()
    }
}

} // verus!
