# modcrawl

Detect, inspect and analyze Minecraft mods and plugins from JARs: which
loader a JAR targets, its metadata, its dependencies, and what its class
files reference.

The library (`src/`) is written in Verus: its functions carry contracts
that state what they return, and the properties the tool relies on are
stated and proved as lemmas:

- `inspect::detect_mod_type`, `inspect::registry`, `inspect::loaders` —
  loader detection by sentinel file, in priority order (Paper > Bukkit >
  NeoForge > Forge mods.toml > Forge mcmod.info > Fabric), and the handlers;
- `inspect::dep` — dependency records, version ranges, merging by name
  (the higher-priority kind wins) and removal of bundled JARs;
- `inspect::loaders::*::metadata` — the metadata models and their text form;
- `inspect::classfile` — class listing, constant pool search, `@Mixin`
  targets, duplicate classes across JARs and the reports of each;
- `inspect::jar`, `inspect::identify`, `inspect::reading` — reading an
  archive held in memory, and splitting a stream of concatenated archives.

The registry keeps the built-in handlers as themselves and any other
handler behind the `ModHandler` trait, and extracts dependencies with the
handler registered for a type.

`app/` is the command line and the C exports: it reads files and streams,
parses metadata files with serde into the model that the type's handler
names, and prints what the library computes.
