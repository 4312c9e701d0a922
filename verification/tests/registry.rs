use modcrawl::inspect::loaders::bukkit::BukkitHandler;
use modcrawl::inspect::loaders::fabric::metadata::FabricModMetadata;
use modcrawl::inspect::loaders::fabric::FabricHandler;
use modcrawl::inspect::loaders::forge_legacy::ForgeLegacyHandler;
use modcrawl::inspect::loaders::forge_modern::ForgeModernHandler;
use modcrawl::inspect::loaders::neoforge::NeoForgeHandler;
use modcrawl::inspect::loaders::paper::PaperHandler;
use modcrawl::inspect::detect_mod_type::detect_mod_type;
use modcrawl::inspect::loaders::register_all;
use modcrawl::inspect::json::JsonValue;
use modcrawl::{
    builtin_registry, DepEntry, DepKind, Error, ForgeModFormat, MetadataFormat, ModHandler, ModMetadata, ModType,
    PluginType, Registry, VersionRange, ZipEntry,
};

struct MockFabricHandler;
impl ModHandler for MockFabricHandler {
    fn mod_type(&self) -> ModType {
        ModType::Fabric
    }
    fn detection_files(&self) -> &'static [&'static str] {
        &["fabric.mod.json"]
    }
    fn metadata_format(&self) -> MetadataFormat {
        MetadataFormat::Fabric
    }
    fn reads_deps(&self) -> bool {
        true
    }
    fn extract_deps(&self, _meta: &ModMetadata) -> Vec<DepEntry> {
        vec![DepEntry::new("mock-dep", DepKind::Required, VersionRange::parse(None))]
    }
}

struct MockForgeHandler;
impl ModHandler for MockForgeHandler {
    fn mod_type(&self) -> ModType {
        ModType::Forge(ForgeModFormat::ModsToml)
    }
    fn detection_files(&self) -> &'static [&'static str] {
        &["META-INF/mods.toml"]
    }
    fn metadata_format(&self) -> MetadataFormat {
        MetadataFormat::ForgeModern
    }
    fn reads_deps(&self) -> bool {
        false
    }
    fn extract_deps(&self, _meta: &ModMetadata) -> Vec<DepEntry> {
        Vec::new()
    }
}

struct MockPaperHandler;
impl ModHandler for MockPaperHandler {
    fn mod_type(&self) -> ModType {
        ModType::Plugin(PluginType::Paper)
    }
    fn detection_files(&self) -> &'static [&'static str] {
        &["paper-plugin.yml"]
    }
    fn metadata_format(&self) -> MetadataFormat {
        MetadataFormat::Paper
    }
    fn reads_deps(&self) -> bool {
        false
    }
    fn extract_deps(&self, _meta: &ModMetadata) -> Vec<DepEntry> {
        Vec::new()
    }
}

fn entry(name: &str) -> ZipEntry {
    ZipEntry { name: name.to_owned(), is_dir: false, size: 0, crc: 0 }
}

fn fabric_meta(depends: Vec<(String, JsonValue)>) -> FabricModMetadata {
    FabricModMetadata {
        schema_version: 1,
        id: "testmod".to_owned(),
        version: "1.0.0".to_owned(),
        name: None,
        description: None,
        authors: vec![],
        contact: None,
        license: None,
        icon: None,
        environment: None,
        entrypoints: vec![],
        mixins: vec![],
        depends,
        recommends: vec![],
        suggests: vec![],
        breaks: vec![],
        conflicts: vec![],
        jars: vec![],
        custom: vec![],
        access_widener: None,
        provides: vec![],
        contributors: vec![],
        language_adapters: vec![],
    }
}

#[test]
fn registry_detect_empty() {
    let r = Registry::new();
    let entries = vec![entry("fabric.mod.json")];
    assert_eq!(r.detect(&entries), ModType::Unknown);
}

#[test]
fn registry_detect_single_match() {
    let mut r = Registry::new();
    r.register(Box::new(MockFabricHandler));
    let entries = vec![entry("fabric.mod.json")];
    assert_eq!(r.detect(&entries), ModType::Fabric);
}

#[test]
fn registry_detect_first_wins() {
    let mut r = Registry::new();
    r.register(Box::new(MockPaperHandler));
    r.register(Box::new(MockForgeHandler));
    let entries = vec![entry("paper-plugin.yml"), entry("META-INF/mods.toml")];
    assert_eq!(r.detect(&entries), ModType::Plugin(PluginType::Paper));
}

#[test]
fn registry_detect_no_match() {
    let mut r = Registry::new();
    r.register(Box::new(MockFabricHandler));
    let entries = vec![entry("some-random-file.txt")];
    assert_eq!(r.detect(&entries), ModType::Unknown);
}

#[test]
fn registry_handler_found() {
    let mut r = Registry::new();
    r.register(Box::new(MockFabricHandler));
    assert!(r.handler(&ModType::Fabric).is_some());
}

#[test]
fn registry_handler_not_found() {
    let r = Registry::new();
    assert!(r.handler(&ModType::Fabric).is_none());
}

#[test]
fn registry_handler_by_file_found() {
    let mut r = Registry::new();
    r.register(Box::new(MockFabricHandler));
    assert!(r.handler_by_file("fabric.mod.json").is_some());
}

#[test]
fn registry_handler_by_file_not_found() {
    let r = Registry::new();
    assert!(r.handler_by_file("fabric.mod.json").is_none());
}

#[test]
fn registry_metadata_file_path_found() {
    let mut r = Registry::new();
    r.register(Box::new(MockFabricHandler));
    assert_eq!(r.metadata_file_path(&ModType::Fabric), Some("fabric.mod.json"));
}

#[test]
fn registry_metadata_file_path_not_found() {
    let r = Registry::new();
    assert_eq!(r.metadata_file_path(&ModType::Fabric), None);
}

#[test]
fn registry_extract_deps_found() {
    let mut r = Registry::new();
    r.register(Box::new(MockFabricHandler));
    let meta = ModMetadata::Fabric(Box::new(fabric_meta(vec![])));
    let deps = r.extract_deps(&ModType::Fabric, Some(&meta));
    assert_eq!(deps.len(), 1);
    assert_eq!(deps[0].name, "mock-dep");
}

#[test]
fn registry_extract_deps_with_builtin_handler() {
    let mut r = Registry::new();
    r.register(Box::new(FabricHandler));
    let meta = ModMetadata::Fabric(Box::new(fabric_meta(vec![(
        "mock-dep".to_owned(),
        JsonValue::Str("*".to_owned()),
    )])));
    let deps = r.extract_deps(&ModType::Fabric, Some(&meta));
    assert_eq!(deps.len(), 1);
    assert_eq!(deps[0].name, "mock-dep");
    assert!(r.extract_deps(&ModType::Fabric, None).is_empty());
}

#[test]
fn registry_extract_deps_not_found() {
    let r = Registry::new();
    let meta = ModMetadata::Fabric(Box::new(fabric_meta(vec![(
        "mock-dep".to_owned(),
        JsonValue::Str("*".to_owned()),
    )])));
    let deps = r.extract_deps(&ModType::Fabric, Some(&meta));
    assert!(deps.is_empty());
}

#[test]
fn registry_extract_deps_ignores_paper_metadata() {
    let mut r = Registry::new();
    r.register(Box::new(PaperHandler));
    assert!(!r.reads_deps(&ModType::Plugin(PluginType::Paper)));
    assert!(r.extract_deps(&ModType::Plugin(PluginType::Paper), None).is_empty());
}

#[test]
fn registry_read_metadata_not_found() {
    let r = Registry::new();
    let result = r.metadata_format(&ModType::Fabric);
    assert!(result.is_err());
    assert!(result.unwrap_err().to_string().contains("Unsupported"));
}

#[test]
fn registry_metadata_format_found() {
    let mut r = Registry::new();
    r.register(Box::new(ForgeLegacyHandler));
    assert_eq!(
        r.metadata_format(&ModType::Forge(ForgeModFormat::McmodInfo)),
        Ok(MetadataFormat::ForgeLegacy)
    );
    assert_eq!(
        r.metadata_format(&ModType::NeoForge),
        Err(Error::UnsupportedMetadata("NeoForge".to_owned()))
    );
}

fn test_handler(mod_type: &str) {
    let mut registry = Registry::new();
    register_all(&mut registry);
    let file = match mod_type {
        "Fabric" => "fabric.mod.json",
        "Forge (mods.toml)" => "META-INF/mods.toml",
        "NeoForge" => "META-INF/neoforge.mods.toml",
        "Forge (mcmod.info)" => "mcmod.info",
        "Plugin (Bukkit/Spigot)" => "plugin.yml",
        "Plugin (Paper)" => "paper-plugin.yml",
        _ => panic!("unknown mod type: {mod_type}"),
    };
    let handler = registry.handler_by_file(file);
    assert!(handler.is_some(), "handler for {mod_type} not found");
    assert_eq!(handler.unwrap().mod_type().to_string(), mod_type);
}

#[test]
fn test_fabric_handler() {
    test_handler("Fabric");
}

#[test]
fn test_forge_modern_handler() {
    test_handler("Forge (mods.toml)");
}

#[test]
fn test_neoforge_handler() {
    test_handler("NeoForge");
}

#[test]
fn test_forge_legacy_handler() {
    test_handler("Forge (mcmod.info)");
}

#[test]
fn test_bukkit_handler() {
    test_handler("Plugin (Bukkit/Spigot)");
}

#[test]
fn test_paper_handler() {
    test_handler("Plugin (Paper)");
}

#[test]
fn builtin_priority_paper_and_neoforge_first() {
    let r = builtin_registry();
    let both = vec![entry("plugin.yml"), entry("paper-plugin.yml")];
    assert_eq!(r.detect(&both), ModType::Plugin(PluginType::Paper));
    let forge = vec![entry("META-INF/mods.toml"), entry("META-INF/neoforge.mods.toml")];
    assert_eq!(r.detect(&forge), ModType::NeoForge);
    let velocity = vec![entry("velocity-plugin.json")];
    assert_eq!(r.detect(&velocity), ModType::Unknown);
    let _ = BukkitHandler;
    let _ = NeoForgeHandler;
}

#[test]
fn builtin_registry_detects_as_detect_mod_type() {
    let r = builtin_registry();
    let listings: Vec<Vec<&str>> = vec![
        vec![],
        vec!["readme.txt"],
        vec!["fabric.mod.json", "mcmod.info"],
        vec!["META-INF/mods.toml", "plugin.yml"],
        vec!["plugin.yml", "paper-plugin.yml", "META-INF/neoforge.mods.toml"],
        vec!["mcmod.info", "a/B.class"],
    ];
    for names in listings {
        let entries: Vec<ZipEntry> = names.iter().map(|n| entry(n)).collect();
        assert_eq!(r.detect(&entries), detect_mod_type(&entries), "{names:?}");
    }
    let velocity = vec![entry("velocity-plugin.json")];
    assert_eq!(r.detect(&velocity), ModType::Unknown);
    assert_eq!(detect_mod_type(&velocity), ModType::Plugin(PluginType::Velocity));
}
