use modcrawl::inspect::json::{JsonMember, JsonValue};
use modcrawl::inspect::loaders::bukkit::dep::extract as bukkit_extract;
use modcrawl::inspect::loaders::bukkit::metadata::BukkitPluginMetadata;
use modcrawl::inspect::loaders::fabric::dep::extract as fabric_extract;
use modcrawl::inspect::loaders::fabric::metadata::{FabricContact, FabricModMetadata};
use modcrawl::inspect::loaders::forge_legacy::dep::extract as legacy_extract;
use modcrawl::inspect::loaders::forge_legacy::metadata::{ForgeLegacyDisplay, ForgeLegacyModEntry};
use modcrawl::inspect::loaders::forge_modern::dep::{extract as toml_extract, forge_dep_kind};
use modcrawl::inspect::loaders::forge_modern::metadata::{ModsTomlDependency, ModsTomlMetadata, ModsTomlMod};
use modcrawl::inspect::loaders::neoforge::dep::extract as neoforge_extract;
use modcrawl::inspect::loaders::paper::metadata::PaperPluginMetadata;
use modcrawl::{DepKind, MetadataFormat, ModMetadata};

fn s(v: &str) -> String {
    v.to_owned()
}

fn fabric(id: &str, version: &str) -> FabricModMetadata {
    FabricModMetadata {
        schema_version: 1,
        id: s(id),
        version: s(version),
        name: None,
        description: None,
        authors: vec![],
        contact: None,
        license: None,
        icon: None,
        environment: None,
        entrypoints: vec![],
        mixins: vec![],
        depends: vec![],
        recommends: vec![],
        suggests: vec![],
        breaks: vec![],
        conflicts: vec![],
        jars: vec![],
        custom: vec![],
        access_widener: None,
        provides: vec![],
        contributors: vec![],
        language_adapters: vec![],
    }
}

fn legacy(modid: &str) -> ForgeLegacyModEntry {
    ForgeLegacyModEntry {
        modid: s(modid),
        name: None,
        description: None,
        version: None,
        mcversion: None,
        url: None,
        update_url: None,
        author_list: vec![],
        credits: None,
        logo_file: None,
        screenshots: vec![],
        dependencies: vec![],
        parent: None,
        authors: vec![],
    }
}

fn toml_mod(mod_id: &str) -> ModsTomlMod {
    ModsTomlMod {
        mod_id: s(mod_id),
        version: None,
        display_name: None,
        display_url: None,
        authors: None,
        description: None,
        logo_file: None,
        license: None,
        credits: None,
        update_jsonurl: None,
        display_test: None,
    }
}

fn toml(mods: Vec<ModsTomlMod>, dependencies: Vec<(String, Vec<ModsTomlDependency>)>) -> ModsTomlMetadata {
    ModsTomlMetadata {
        mod_loader: None,
        loader_version: None,
        issue_tracker_url: None,
        license: None,
        mods,
        dependencies,
        display_url: None,
        logo_file: None,
        authors: None,
        credits: None,
        show_as_resource_pack: None,
        client_side_only: None,
        mixins: vec![],
        modproperties: vec![],
        enum_extensions: None,
    }
}

fn dep(mod_id: &str, dep_type: Option<&str>, range: Option<&str>, side: Option<&str>) -> ModsTomlDependency {
    ModsTomlDependency {
        mod_id: s(mod_id),
        dep_type: dep_type.map(s),
        mandatory: None,
        version_range: range.map(s),
        ordering: None,
        side: side.map(s),
    }
}

fn bukkit() -> BukkitPluginMetadata {
    BukkitPluginMetadata {
        name: s("TestPlugin"),
        version: s("1.0.0"),
        main: s("com.example.TestPlugin"),
        api_version: None,
        folia_supported: None,
        softdepend: vec![],
        load: None,
        authors: vec![],
        description: None,
        website: None,
        author: None,
        prefix: None,
        loadbefore: vec![],
        depend: vec![],
    }
}

#[test]
fn metadata_display_output() {
    let mut meta = fabric("testmod", "1.0.0");
    meta.name = Some(s("Test"));
    let out = meta.to_string();
    assert!(out.contains("ID:       testmod"));
    assert!(out.contains("Name:     Test"));
    assert!(out.contains("Version:  1.0.0"));
}

#[test]
fn fabric_display_full_text() {
    let mut meta = fabric("testmod", "1.0.0");
    meta.license = Some(s("MIT"));
    meta.contact = Some(FabricContact {
        sources: Some(s("https://src")),
        homepage: None,
        issues: None,
        discord: None,
        irc: None,
        source_url: None,
    });
    meta.depends = vec![
        (s("fabric-api"), JsonValue::Str(s(">=0.50.0"))),
        (s("minecraft"), JsonValue::Array(vec![JsonValue::Str(s("1.20")), JsonValue::Number(s("3")), JsonValue::Str(s("1.21"))])),
        (s("java"), JsonValue::Number(s("17"))),
    ];
    assert_eq!(
        meta.to_string(),
        "ID:       testmod\nVersion:  1.0.0\nLicense:  MIT\nSources:  https://src\nDepends:\n  - fabric-api (>=0.50.0)\n  - minecraft (1.20 | 1.21)\n  - java (17)\n"
    );
    let typed = ModMetadata::Fabric(Box::new(meta));
    assert!(typed.to_string().starts_with("Type:     Fabric\nID:       testmod\n"));
    assert_eq!(typed.format(), MetadataFormat::Fabric);
}

#[test]
fn toml_display_output() {
    let mut m = toml_mod("testmod");
    m.version = Some(s("1.0.0"));
    m.display_name = Some(s("Test Mod"));
    let meta = toml(vec![m], vec![]);
    let out = meta.to_string();
    assert!(out.contains("Mod ID:   testmod"));
    assert!(out.contains("Name:     Test Mod"));
    assert!(out.contains("Version:  1.0.0"));
}

#[test]
fn toml_display_merges_dependencies() {
    let mut m = toml_mod("testmod");
    m.authors = Some(JsonValue::Str(s("Alice")));
    let mut meta = toml(
        vec![m],
        vec![(
            s("testmod"),
            vec![
                dep("minecraft", Some("required"), Some("[1.20,)"), Some("BOTH")),
                dep("jei", Some("optional"), None, Some("CLIENT")),
                dep("minecraft", None, Some("[1.21,)"), Some("BOTH")),
            ],
        )],
    );
    meta.mod_loader = Some(s("javafml"));
    meta.loader_version = Some(s("[47,)"));
    assert_eq!(
        meta.to_string(),
        "Loader:   javafml\nLoaderV:  [47,)\nMod ID:   testmod\nAuthors:  \"Alice\"\nDependencies:\n  - minecraft ([1.21,))\n  - jei (*) (Client)\n"
    );
}

#[test]
fn legacy_display_output() {
    let mut e = legacy("testmod");
    e.name = Some(s("Test Mod"));
    e.version = Some(s("1.0.0"));
    let entries = vec![e, legacy("other")];
    let out = ForgeLegacyDisplay(&entries).to_string();
    assert!(out.contains("Mod ID:   testmod"));
    assert!(out.contains("Name:     Test Mod"));
    assert!(out.contains("Version:  1.0.0"));
    assert!(out.contains("---\nMod ID:   other\n"));
}

#[test]
fn plugin_display_output() {
    let mut b = bukkit();
    b.depend = vec![s("Vault"), s("WorldEdit")];
    b.authors = vec![s("A"), s("B")];
    assert_eq!(
        b.to_string(),
        "Name:     TestPlugin\nVersion:  1.0.0\nAuthors:  A, B\nDepends:  Vault, WorldEdit\n"
    );
    let p = PaperPluginMetadata {
        name: s("P"),
        version: s("2"),
        main: s("m"),
        api_version: None,
        folia_supported: None,
        authors: vec![],
        description: Some(s("about")),
        website: None,
        bootstrapper: None,
        loader: None,
        load: None,
        author: None,
    };
    assert_eq!(p.to_string(), "Name:     P\nVersion:  2\nAbout:    about\n");
}

#[test]
fn extract_depend_softdepend_loadbefore() {
    let mut b = bukkit();
    b.depend = vec![s("Vault"), s("WorldEdit")];
    b.softdepend = vec![s("PlaceholderAPI")];
    b.loadbefore = vec![s("OtherPlugin")];
    let deps = bukkit_extract(&b);
    assert_eq!(deps.len(), 4);
    assert!(deps.iter().any(|d| d.name == "Vault" && d.kind == DepKind::Required));
    assert!(deps.iter().any(|d| d.name == "WorldEdit" && d.kind == DepKind::Required));
    assert!(deps.iter().any(|d| d.name == "PlaceholderAPI" && d.kind == DepKind::Optional));
    assert!(deps.iter().any(|d| d.name == "OtherPlugin" && d.kind == DepKind::LoadBefore));
}

#[test]
fn extract_depends() {
    let mut meta = fabric("testmod", "1.0.0");
    meta.depends = vec![
        (s("fabric-api"), JsonValue::Str(s(">=0.50.0"))),
        (s("minecraft"), JsonValue::Str(s("~1.20.1"))),
    ];
    let deps = fabric_extract(&meta);
    assert_eq!(deps.len(), 2);
    assert!(deps.iter().any(|d| d.name == "fabric-api" && d.kind == DepKind::Required));
    assert!(deps.iter().any(|d| d.name == "minecraft" && d.kind == DepKind::Required));
}

#[test]
fn extract_recommends_and_suggests() {
    let mut meta = fabric("testmod", "1.0.0");
    meta.recommends = vec![(s("sodium"), JsonValue::Str(s("*")))];
    meta.suggests = vec![(s("iris"), JsonValue::Str(s("*")))];
    let deps = fabric_extract(&meta);
    assert_eq!(deps.len(), 2);
    assert!(deps.iter().any(|d| d.name == "sodium" && d.kind == DepKind::Recommended));
    assert!(deps.iter().any(|d| d.name == "iris" && d.kind == DepKind::Suggested));
}

#[test]
fn dep_extract_empty_when_no_deps() {
    let meta = fabric("testmod", "1.0.0");
    assert!(fabric_extract(&meta).is_empty());
    assert!(bukkit_extract(&bukkit()).is_empty());
    assert!(legacy_extract(&vec![legacy("mod_a"), legacy("mod_b")]).is_empty());
    assert!(neoforge_extract(&toml(vec![toml_mod("testmod")], vec![])).is_empty());
}

#[test]
fn fabric_version_from_array_takes_first_string() {
    let mut meta = fabric("testmod", "1.0.0");
    meta.depends = vec![(
        s("minecraft"),
        JsonValue::Array(vec![JsonValue::Number(s("1")), JsonValue::Str(s("1.20.x")), JsonValue::Str(s("1.21.x"))]),
    )];
    let deps = fabric_extract(&meta);
    assert_eq!(deps[0].version_range.raw.as_deref(), Some("1.20.x"));
    meta.depends = vec![(s("minecraft"), JsonValue::Object(vec![JsonMember { key: s("a"), value: JsonValue::Null }]))];
    let deps = fabric_extract(&meta);
    assert_eq!(deps[0].version_range.raw, None);
}

#[test]
fn extract_dependencies() {
    let mut a = legacy("mod_a");
    a.dependencies = vec![s("lib_x")];
    let mut b = legacy("mod_b");
    b.dependencies = vec![s("lib_y")];
    let deps = legacy_extract(&vec![a, b]);
    assert_eq!(deps.len(), 2);
    assert_eq!(deps[0].name, "lib_x");
    assert_eq!(deps[1].name, "lib_y");
    assert!(deps.iter().all(|d| d.kind == DepKind::Required));
}

#[test]
fn extract_required_and_optional() {
    let meta = toml(
        vec![toml_mod("testmod")],
        vec![(
            s("testmod"),
            vec![
                dep("minecraft", Some("required"), Some("[1.20.1,)"), None),
                dep("opt-lib", Some("optional"), None, None),
            ],
        )],
    );
    let deps = neoforge_extract(&meta);
    assert_eq!(deps.len(), 2);
    assert!(deps.iter().any(|d| d.name == "minecraft" && d.kind == DepKind::Required));
    assert!(deps.iter().any(|d| d.name == "opt-lib" && d.kind == DepKind::Optional));
}

#[test]
fn extract_skips_discouraged() {
    let meta = toml(
        vec![toml_mod("testmod")],
        vec![(s("testmod"), vec![dep("bad", Some("discouraged"), None, None), dep("worse", Some("incompatible"), None, None)])],
    );
    assert!(neoforge_extract(&meta).is_empty());
    assert!(toml_extract(&meta).is_empty());
}

#[test]
fn forge_dep_kinds() {
    assert_eq!(forge_dep_kind(Some("required")), DepKind::Required);
    assert_eq!(forge_dep_kind(Some("optional")), DepKind::Optional);
    assert_eq!(forge_dep_kind(Some("incompatible")), DepKind::Incompatible);
    assert_eq!(forge_dep_kind(Some("discouraged")), DepKind::Discouraged);
    assert_eq!(forge_dep_kind(None), DepKind::Required);
    assert_eq!(forge_dep_kind(Some("other")), DepKind::Required);
}
