//! The loaders the library knows, each with its metadata model and its
//! dependency rules.

pub mod bukkit;
pub mod fabric;
pub mod forge_legacy;
pub mod forge_modern;
pub mod neoforge;
pub mod paper;

use vstd::prelude::*;

use crate::inspect::detect_mod_type::{detection_rules, first_rule_match, ForgeModFormat, ModType, PluginType};
use crate::inspect::metadata::ModMetadata;
use crate::inspect::registry::{
    any_present, detect_pos, registry_deps, registry_detect, registry_metadata_file, type_pos, Handler,
    ModHandler, Registry,
};

verus! {

/// The built-in handlers, in registration order.
pub open spec fn builtin_handlers() -> Seq<Handler> {
    seq![
        Handler::Paper(paper::PaperHandler),
        Handler::Bukkit(bukkit::BukkitHandler),
        Handler::NeoForge(neoforge::NeoForgeHandler),
        Handler::ForgeModern(forge_modern::ForgeModernHandler),
        Handler::ForgeLegacy(forge_legacy::ForgeLegacyHandler),
        Handler::Fabric(fabric::FabricHandler),
    ]
}

/// Register all known mod/plugin handlers in priority order: Paper before
/// Bukkit, NeoForge before Forge.
pub fn register_all(registry: &mut Registry)
    ensures
        final(registry).handlers@ == old(registry).handlers@ + builtin_handlers(),
{
    registry.add(Handler::Paper(paper::PaperHandler));
    registry.add(Handler::Bukkit(bukkit::BukkitHandler));
    registry.add(Handler::NeoForge(neoforge::NeoForgeHandler));
    registry.add(Handler::ForgeModern(forge_modern::ForgeModernHandler));
    registry.add(Handler::ForgeLegacy(forge_legacy::ForgeLegacyHandler));
    registry.add(Handler::Fabric(fabric::FabricHandler));
    proof {
        assert(registry.handlers@ =~= old(registry).handlers@ + builtin_handlers());
    }
}

/// Law: with the built-in handlers, an archive whose loader is detected
/// holds the metadata file of that loader.
pub proof fn lemma_builtin_detected_has_metadata(hs: Seq<Handler>, names: Seq<Seq<char>>)
    requires
        hs == builtin_handlers(),
    ensures
        registry_detect(hs, names) != ModType::Unknown ==> {
            let f = registry_metadata_file(hs, registry_detect(hs, names));
            f is Some && names.contains(f->0)
        },
{
    reveal_with_fuel(detect_pos, 7);
    reveal_with_fuel(type_pos, 7);
    assert(hs.drop_first()[0] == hs[1]);
    assert(hs.drop_first().drop_first()[0] == hs[2]);
    assert(hs.drop_first().drop_first().drop_first()[0] == hs[3]);
    assert(hs.drop_first().drop_first().drop_first().drop_first()[0] == hs[4]);
    assert(hs.drop_first().drop_first().drop_first().drop_first().drop_first()[0] == hs[5]);
    assert(hs.drop_first().drop_first().drop_first().drop_first().drop_first().drop_first().len() == 0);
    assert forall|k: int| 0 <= k < 6 implies #[trigger] hs[k].marker_files().len() == 1 by {}
    assert forall|k: int| 0 <= k < 6 implies (any_present(hs[k].marker_files(), names) <==> names.contains(
        hs[k].marker_files()[0],
    )) by {
        if names.contains(hs[k].marker_files()[0]) {
            assert(any_present(hs[k].marker_files(), names));
        }
    }
}

/// Law: on the registry of the built-in handlers, `Registry::detect` gives
/// the type that `detect_mod_type` gives, for every listing that holds
/// neither `velocity-plugin.json` nor `bungee.yml` (the two loaders without
/// a handler). `registry_detect` and `first_rule_match` over
/// `detection_rules` are what the `ensures` of those two functions say
/// they return.
pub proof fn lemma_builtin_detect_agrees(hs: Seq<Handler>, names: Seq<Seq<char>>)
    requires
        hs == builtin_handlers(),
        !names.contains("velocity-plugin.json"@),
        !names.contains("bungee.yml"@),
    ensures
        registry_detect(hs, names) == first_rule_match(detection_rules(), names),
{
    reveal_with_fuel(detect_pos, 7);
    reveal_with_fuel(first_rule_match, 9);
    assert(hs.drop_first()[0] == hs[1]);
    assert(hs.drop_first().drop_first()[0] == hs[2]);
    assert(hs.drop_first().drop_first().drop_first()[0] == hs[3]);
    assert(hs.drop_first().drop_first().drop_first().drop_first()[0] == hs[4]);
    assert(hs.drop_first().drop_first().drop_first().drop_first().drop_first()[0] == hs[5]);
    assert(hs.drop_first().drop_first().drop_first().drop_first().drop_first().drop_first().len() == 0);
    assert forall|k: int| 0 <= k < 6 implies (any_present(hs[k].marker_files(), names) <==> names.contains(
        hs[k].marker_files()[0],
    )) by {
        if names.contains(hs[k].marker_files()[0]) {
            assert(any_present(hs[k].marker_files(), names));
        }
    }
    let r = detection_rules();
    assert(r.drop_first()[0] == r[1]);
    assert(r.drop_first().drop_first()[0] == r[2]);
    assert(r.drop_first().drop_first().drop_first()[0] == r[3]);
    assert(r.drop_first().drop_first().drop_first().drop_first()[0] == r[4]);
    assert(r.drop_first().drop_first().drop_first().drop_first().drop_first()[0] == r[5]);
    assert(r.drop_first().drop_first().drop_first().drop_first().drop_first().drop_first()[0] == r[6]);
    assert(r.drop_first().drop_first().drop_first().drop_first().drop_first().drop_first().drop_first()[0] == r[7]);
    assert(r.drop_first().drop_first().drop_first().drop_first().drop_first().drop_first().drop_first().drop_first().len() == 0);
}

/// Law: with the built-in handlers, the dependencies the registry extracts
/// for a loader from any parsed metadata are exactly those the loader's
/// handler extracts from it.
pub proof fn lemma_registry_extracts_as_handlers(hs: Seq<Handler>, m: ModMetadata)
    requires
        hs == builtin_handlers(),
    ensures
        registry_deps(hs, ModType::Plugin(PluginType::Paper), Some(m)) == paper::PaperHandler.deps_of(m),
        registry_deps(hs, ModType::Plugin(PluginType::Bukkit), Some(m)) == bukkit::BukkitHandler.deps_of(m),
        registry_deps(hs, ModType::NeoForge, Some(m)) == neoforge::NeoForgeHandler.deps_of(m),
        registry_deps(hs, ModType::Forge(ForgeModFormat::ModsToml), Some(m))
            == forge_modern::ForgeModernHandler.deps_of(m),
        registry_deps(hs, ModType::Forge(ForgeModFormat::McmodInfo), Some(m))
            == forge_legacy::ForgeLegacyHandler.deps_of(m),
        registry_deps(hs, ModType::Fabric, Some(m)) == fabric::FabricHandler.deps_of(m),
{
    reveal_with_fuel(type_pos, 7);
    assert(hs.drop_first()[0] == hs[1]);
    assert(hs.drop_first().drop_first()[0] == hs[2]);
    assert(hs.drop_first().drop_first().drop_first()[0] == hs[3]);
    assert(hs.drop_first().drop_first().drop_first().drop_first()[0] == hs[4]);
    assert(hs.drop_first().drop_first().drop_first().drop_first().drop_first()[0] == hs[5]);
}

} // verus!
