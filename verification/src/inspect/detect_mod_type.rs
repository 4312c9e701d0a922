//! Loader kinds and their detection from the files an archive holds.

use vstd::prelude::*;

use crate::inspect::archive::{entry_names, ZipEntry};
use crate::text::{owned, push_str, str_eq};

verus! {

/// The metadata format of a Forge mod.
#[derive(Debug, Clone, Copy, PartialEq, Eq, Structural)]
pub enum ForgeModFormat {
    ModsToml,
    McmodInfo,
}

/// The server platform of a plugin.
#[derive(Debug, Clone, Copy, PartialEq, Eq, Structural)]
pub enum PluginType {
    Bukkit,
    Paper,
    Bungee,
    Velocity,
}

/// The kind of a mod or plugin archive.
#[derive(Debug, Clone, Copy, PartialEq, Eq, Structural)]
pub enum ModType {
    Fabric,
    Forge(ForgeModFormat),
    NeoForge,
    Plugin(PluginType),
    Unknown,
}

/// How a Forge format is named.
pub open spec fn forge_format_text(f: ForgeModFormat) -> Seq<char> {
    match f {
        ForgeModFormat::ModsToml => "mods.toml"@,
        ForgeModFormat::McmodInfo => "mcmod.info"@,
    }
}

/// How a plugin platform is named.
pub open spec fn plugin_type_text(p: PluginType) -> Seq<char> {
    match p {
        PluginType::Bukkit => "Bukkit/Spigot"@,
        PluginType::Paper => "Paper"@,
        PluginType::Bungee => "BungeeCord"@,
        PluginType::Velocity => "Velocity"@,
    }
}

/// How a mod type is named.
pub open spec fn mod_type_text(m: ModType) -> Seq<char> {
    match m {
        ModType::Fabric => "Fabric"@,
        ModType::NeoForge => "NeoForge"@,
        ModType::Unknown => "Unknown"@,
        ModType::Forge(f) => "Forge ("@ + forge_format_text(f) + ")"@,
        ModType::Plugin(p) => "Plugin ("@ + plugin_type_text(p) + ")"@,
    }
}

impl ForgeModFormat {
    /// The format's name.
    pub fn to_string(&self) -> (r: String)
        ensures
            r@ == forge_format_text(*self),
    {
        match self {
            ForgeModFormat::ModsToml => owned("mods.toml"),
            ForgeModFormat::McmodInfo => owned("mcmod.info"),
        }
    }
}

impl PluginType {
    /// The platform's name.
    pub fn to_string(&self) -> (r: String)
        ensures
            r@ == plugin_type_text(*self),
    {
        match self {
            PluginType::Bukkit => owned("Bukkit/Spigot"),
            PluginType::Paper => owned("Paper"),
            PluginType::Bungee => owned("BungeeCord"),
            PluginType::Velocity => owned("Velocity"),
        }
    }
}

impl ModType {
    /// The mod type's name, e.g. `Forge (mods.toml)`.
    pub fn to_string(&self) -> (r: String)
        ensures
            r@ == mod_type_text(*self),
    {
        match self {
            ModType::Fabric => owned("Fabric"),
            ModType::NeoForge => owned("NeoForge"),
            ModType::Unknown => owned("Unknown"),
            ModType::Forge(f) => {
                let mut out = owned("Forge (");
                let t = f.to_string();
                push_str(&mut out, t.as_str());
                push_str(&mut out, ")");
                out
            },
            ModType::Plugin(p) => {
                let mut out = owned("Plugin (");
                let t = p.to_string();
                push_str(&mut out, t.as_str());
                push_str(&mut out, ")");
                out
            },
        }
    }
}

/// A detection rule: if an entry with this path exists, the mod type is determined.
pub struct DetectionRule {
    pub file: &'static str,
    pub mod_type: ModType,
}

/// The detection rules in priority order: Paper before Bukkit, NeoForge before Forge.
pub open spec fn detection_rules() -> Seq<(Seq<char>, ModType)> {
    seq![
        ("paper-plugin.yml"@, ModType::Plugin(PluginType::Paper)),
        ("plugin.yml"@, ModType::Plugin(PluginType::Bukkit)),
        ("velocity-plugin.json"@, ModType::Plugin(PluginType::Velocity)),
        ("bungee.yml"@, ModType::Plugin(PluginType::Bungee)),
        ("META-INF/neoforge.mods.toml"@, ModType::NeoForge),
        ("META-INF/mods.toml"@, ModType::Forge(ForgeModFormat::ModsToml)),
        ("mcmod.info"@, ModType::Forge(ForgeModFormat::McmodInfo)),
        ("fabric.mod.json"@, ModType::Fabric),
    ]
}

/// The mod type of the first rule whose file is among `names`, or `Unknown`.
pub open spec fn first_rule_match(rules: Seq<(Seq<char>, ModType)>, names: Seq<Seq<char>>) -> ModType
    decreases rules.len(),
{
    if rules.len() == 0 {
        ModType::Unknown
    } else if names.contains(rules[0].0) {
        rules[0].1
    } else {
        first_rule_match(rules.drop_first(), names)
    }
}

/// The file of the first rule for `m`, if any.
pub open spec fn rule_file(rules: Seq<(Seq<char>, ModType)>, m: ModType) -> Option<Seq<char>>
    decreases rules.len(),
{
    if rules.len() == 0 {
        None
    } else if rules[0].1 == m {
        Some(rules[0].0)
    } else {
        rule_file(rules.drop_first(), m)
    }
}

/// The rules as values.
pub open spec fn rules_view(rules: Seq<DetectionRule>) -> Seq<(Seq<char>, ModType)> {
    rules.map_values(|r: DetectionRule| (r.file@, r.mod_type))
}

/// The detection rules, in priority order.
pub fn detection_order() -> (r: Vec<DetectionRule>)
    ensures
        rules_view(r@) == detection_rules(),
{
    let mut v: Vec<DetectionRule> = Vec::new();
    v.push(DetectionRule { file: "paper-plugin.yml", mod_type: ModType::Plugin(PluginType::Paper) });
    v.push(DetectionRule { file: "plugin.yml", mod_type: ModType::Plugin(PluginType::Bukkit) });
    v.push(
        DetectionRule {
            file: "velocity-plugin.json",
            mod_type: ModType::Plugin(PluginType::Velocity),
        },
    );
    v.push(DetectionRule { file: "bungee.yml", mod_type: ModType::Plugin(PluginType::Bungee) });
    v.push(DetectionRule { file: "META-INF/neoforge.mods.toml", mod_type: ModType::NeoForge });
    v.push(
        DetectionRule {
            file: "META-INF/mods.toml",
            mod_type: ModType::Forge(ForgeModFormat::ModsToml),
        },
    );
    v.push(
        DetectionRule { file: "mcmod.info", mod_type: ModType::Forge(ForgeModFormat::McmodInfo) },
    );
    v.push(DetectionRule { file: "fabric.mod.json", mod_type: ModType::Fabric });
    proof {
        assert(rules_view(v@) =~= detection_rules());
    }
    v
}

/// Whether an entry named `file` is among `entries`.
pub fn has_entry(entries: &[ZipEntry], file: &str) -> (r: bool)
    ensures
        r == entry_names(entries@).contains(file@),
{
    let ghost names = entry_names(entries@);
    let mut i: usize = 0;
    while i < entries.len()
        invariant
            i <= entries@.len(),
            names == entry_names(entries@),
            forall|j: int| 0 <= j < i ==> names[j] != file@,
        decreases entries@.len() - i,
    {
        if str_eq(entries[i].name.as_str(), file) {
            proof {
                assert(names[i as int] == file@);
            }
            return true;
        }
        i = i + 1;
    }
    false
}

/// Detect the mod type from a list of ZIP entries: the first rule whose file is present wins.
pub fn detect_mod_type(entries: &[ZipEntry]) -> (r: ModType)
    ensures
        r == first_rule_match(detection_rules(), entry_names(entries@)),
{
    let rules = detection_order();
    let ghost all = rules_view(rules@);
    let ghost names = entry_names(entries@);
    let mut i: usize = 0;
    proof {
        assert(all.skip(0) =~= all);
    }
    while i < rules.len()
        invariant
            i <= rules@.len(),
            all == rules_view(rules@),
            all == detection_rules(),
            names == entry_names(entries@),
            first_rule_match(all, names) == first_rule_match(all.skip(i as int), names),
        decreases rules@.len() - i,
    {
        proof {
            assert(all.skip(i as int)[0] == all[i as int]);
            assert(all.skip(i as int).drop_first() =~= all.skip(i + 1));
        }
        if has_entry(entries, rules[i].file) {
            return rules[i].mod_type;
        }
        i = i + 1;
    }
    ModType::Unknown
}

/// Returns the metadata file path inside the JAR for this mod type.
pub fn metadata_file_path(mod_type: &ModType) -> (r: Option<&'static str>)
    ensures
        match r {
            Some(f) => rule_file(detection_rules(), *mod_type) == Some(f@),
            None => rule_file(detection_rules(), *mod_type) is None,
        },
{
    let rules = detection_order();
    let ghost all = rules_view(rules@);
    let mut i: usize = 0;
    proof {
        assert(all.skip(0) =~= all);
    }
    while i < rules.len()
        invariant
            i <= rules@.len(),
            all == rules_view(rules@),
            all == detection_rules(),
            rule_file(all, *mod_type) == rule_file(all.skip(i as int), *mod_type),
        decreases rules@.len() - i,
    {
        proof {
            assert(all.skip(i as int)[0] == all[i as int]);
            assert(all.skip(i as int).drop_first() =~= all.skip(i + 1));
        }
        if rules[i].mod_type == *mod_type {
            return Some(rules[i].file);
        }
        i = i + 1;
    }
    None
}

/// Law: a detected archive always holds the metadata file of its type, so
/// detection and metadata lookup agree.
pub proof fn lemma_detected_has_metadata(names: Seq<Seq<char>>)
    ensures
        first_rule_match(detection_rules(), names) != ModType::Unknown ==> {
            let m = first_rule_match(detection_rules(), names);
            &&& rule_file(detection_rules(), m) is Some
            &&& names.contains(rule_file(detection_rules(), m)->0)
        },
{
    lemma_rules_match(detection_rules(), names);
}

proof fn lemma_rules_match(rules: Seq<(Seq<char>, ModType)>, names: Seq<Seq<char>>)
    requires
        forall|i: int| 0 <= i < rules.len() ==> #[trigger] rules[i].1 != ModType::Unknown,
        forall|i: int, j: int|
            0 <= i < j < rules.len() ==> #[trigger] rules[i].1 != #[trigger] rules[j].1,
    ensures
        first_rule_match(rules, names) != ModType::Unknown ==> {
            let m = first_rule_match(rules, names);
            &&& rule_file(rules, m) is Some
            &&& names.contains(rule_file(rules, m)->0)
        },
    decreases rules.len(),
{
    if rules.len() > 0 && !names.contains(rules[0].0) {
        let t = rules.drop_first();
        assert forall|i: int, j: int| 0 <= i < j < t.len() implies #[trigger] t[i].1
            != #[trigger] t[j].1 by {
            assert(t[i] == rules[i + 1] && t[j] == rules[j + 1]);
        }
        assert forall|i: int| 0 <= i < t.len() implies #[trigger] t[i].1 != ModType::Unknown by {
            assert(t[i] == rules[i + 1]);
        }
        lemma_rules_match(t, names);
        let m = first_rule_match(t, names);
        if m != ModType::Unknown {
            lemma_rule_match_in(t, names);
            let k = choose|k: int| 0 <= k < t.len() && t[k].1 == m;
            assert(rules[k + 1].1 == m);
            assert(rules[0].1 != m);
        }
    }
}

proof fn lemma_rule_match_in(rules: Seq<(Seq<char>, ModType)>, names: Seq<Seq<char>>)
    requires
        first_rule_match(rules, names) != ModType::Unknown,
    ensures
        exists|k: int| 0 <= k < rules.len() && rules[k].1 == first_rule_match(rules, names),
    decreases rules.len(),
{
    if rules.len() > 0 && !names.contains(rules[0].0) {
        lemma_rule_match_in(rules.drop_first(), names);
        let k = choose|k: int|
            0 <= k < rules.drop_first().len() && rules.drop_first()[k].1 == first_rule_match(
                rules,
                names,
            );
        assert(rules[k + 1].1 == first_rule_match(rules, names));
    }
}

} // verus!
