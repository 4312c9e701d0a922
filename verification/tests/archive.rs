use modcrawl::inspect::classfile::dupes::{find_duplicates, JarFile};
use modcrawl::inspect::classfile::{grep, list_classes, mixins};
use modcrawl::{builtin_registry, dep_source, identify_reader, metadata_source, scan_stream, Error, ModType, PluginType, StreamScan};

fn crc32(data: &[u8]) -> u32 {
    let mut crc: u32 = 0xFFFF_FFFF;
    for &b in data {
        crc ^= b as u32;
        for _ in 0..8 {
            let mask = (crc & 1).wrapping_neg();
            crc = (crc >> 1) ^ (0xEDB8_8320 & mask);
        }
    }
    !crc
}

fn u16le(v: &mut Vec<u8>, x: u16) {
    v.extend_from_slice(&x.to_le_bytes());
}

fn u32le(v: &mut Vec<u8>, x: u32) {
    v.extend_from_slice(&x.to_le_bytes());
}

/// A ZIP archive whose entries are stored without compression.
fn zip_bytes(files: &[(&str, &[u8])]) -> Vec<u8> {
    let mut out = Vec::new();
    let mut central = Vec::new();
    for (name, data) in files {
        let offset = out.len() as u32;
        let crc = crc32(data);
        u32le(&mut out, 0x0403_4b50);
        u16le(&mut out, 20);
        u16le(&mut out, 0);
        u16le(&mut out, 0);
        u16le(&mut out, 0);
        u16le(&mut out, 0);
        u32le(&mut out, crc);
        u32le(&mut out, data.len() as u32);
        u32le(&mut out, data.len() as u32);
        u16le(&mut out, name.len() as u16);
        u16le(&mut out, 0);
        out.extend_from_slice(name.as_bytes());
        out.extend_from_slice(data);

        u32le(&mut central, 0x0201_4b50);
        u16le(&mut central, 20);
        u16le(&mut central, 20);
        u16le(&mut central, 0);
        u16le(&mut central, 0);
        u16le(&mut central, 0);
        u16le(&mut central, 0);
        u32le(&mut central, crc);
        u32le(&mut central, data.len() as u32);
        u32le(&mut central, data.len() as u32);
        u16le(&mut central, name.len() as u16);
        u16le(&mut central, 0);
        u16le(&mut central, 0);
        u16le(&mut central, 0);
        u16le(&mut central, 0);
        u32le(&mut central, if name.ends_with('/') { 0x10 } else { 0 });
        u32le(&mut central, offset);
        central.extend_from_slice(name.as_bytes());
    }
    let cd_offset = out.len() as u32;
    let cd_len = central.len() as u32;
    out.extend_from_slice(&central);
    u32le(&mut out, 0x0605_4b50);
    u16le(&mut out, 0);
    u16le(&mut out, 0);
    u16le(&mut out, files.len() as u16);
    u16le(&mut out, files.len() as u16);
    u32le(&mut out, cd_len);
    u32le(&mut out, cd_offset);
    u16le(&mut out, 0);
    out
}

fn be16(v: &mut Vec<u8>, x: u16) {
    v.extend_from_slice(&x.to_be_bytes());
}

fn cp_utf8(s: &str) -> Vec<u8> {
    let mut v = vec![1u8];
    be16(&mut v, s.len() as u16);
    v.extend_from_slice(s.as_bytes());
    v
}

fn cp_two(tag: u8, a: u16, b: u16) -> Vec<u8> {
    let mut v = vec![tag];
    be16(&mut v, a);
    be16(&mut v, b);
    v
}

fn cp_one(tag: u8, a: u16) -> Vec<u8> {
    let mut v = vec![tag];
    be16(&mut v, a);
    v
}

/// A class file of major version `major` whose pool holds a class
/// reference, a method reference and, when `mixin` is set, an invisible
/// `@Mixin` annotation targeting `net/minecraft/Target`.
fn class_bytes(major: u16, access: u16, mixin: bool) -> Vec<u8> {
    let pool: Vec<Vec<u8>> = vec![
        cp_utf8("com/example/Foo"),                     // 1
        cp_one(7, 1),                                   // 2
        cp_utf8("bar"),                                 // 3
        cp_utf8("()V"),                                 // 4
        cp_two(12, 3, 4),                               // 5
        cp_two(10, 2, 5),                               // 6
        cp_utf8("RuntimeInvisibleAnnotations"),         // 7
        cp_utf8("Lorg/spongepowered/asm/mixin/Mixin;"), // 8
        cp_utf8("value"),                               // 9
        cp_utf8("Lnet/minecraft/Target;"),              // 10
    ];
    let mut v = vec![0xCA, 0xFE, 0xBA, 0xBE];
    be16(&mut v, 0);
    be16(&mut v, major);
    be16(&mut v, pool.len() as u16 + 1);
    for e in &pool {
        v.extend_from_slice(e);
    }
    be16(&mut v, access);
    be16(&mut v, 2);
    be16(&mut v, 0);
    be16(&mut v, 0);
    be16(&mut v, 0);
    be16(&mut v, 0);
    if mixin {
        let mut info = Vec::new();
        be16(&mut info, 1);
        be16(&mut info, 8);
        be16(&mut info, 1);
        be16(&mut info, 9);
        info.push(b'[');
        be16(&mut info, 1);
        info.push(b'c');
        be16(&mut info, 10);
        be16(&mut v, 1);
        be16(&mut v, 7);
        v.extend_from_slice(&(info.len() as u32).to_be_bytes());
        v.extend_from_slice(&info);
    } else {
        be16(&mut v, 0);
    }
    v
}

#[test]
fn identify_in_memory_archive() {
    let data = zip_bytes(&[("fabric.mod.json", b"{}"), ("a/B.class", b"x")]);
    assert_eq!(identify_reader(&data), Ok(ModType::Fabric));
    let data = zip_bytes(&[("plugin.yml", b"name: x"), ("paper-plugin.yml", b"name: x")]);
    assert_eq!(identify_reader(&data), Ok(ModType::Plugin(PluginType::Paper)));
    let data = zip_bytes(&[("readme.txt", b"hi")]);
    assert_eq!(identify_reader(&data), Ok(ModType::Unknown));
    assert!(matches!(identify_reader(b"not a zip"), Err(Error::ZipCrawl(_))));
}

#[test]
fn scan_stream_whole_and_concatenated() {
    let a = zip_bytes(&[("fabric.mod.json", b"{}")]);
    assert_eq!(scan_stream(&a), StreamScan::Whole(ModType::Fabric));
    let b = zip_bytes(&[("mcmod.info", b"[]")]);
    let mut both = a.clone();
    both.extend_from_slice(&b);
    assert_eq!(scan_stream(&both), StreamScan::Whole(ModType::Forge(modcrawl::ForgeModFormat::McmodInfo)));
    let mut noisy = both.clone();
    noisy.extend_from_slice(&[0xFF; 70000]);
    match scan_stream(&noisy) {
        StreamScan::Chunks(types) => {
            assert_eq!(types, vec![ModType::Fabric, ModType::Forge(modcrawl::ForgeModFormat::McmodInfo)]);
        },
        StreamScan::Whole(t) => assert_eq!(t, ModType::Forge(modcrawl::ForgeModFormat::McmodInfo)),
    }
    assert_eq!(scan_stream(b"garbage"), StreamScan::Chunks(vec![]));
}

#[test]
fn metadata_source_reads_metadata_file() {
    let reg = builtin_registry();
    let data = zip_bytes(&[("fabric.mod.json", b"{\"id\": \"x\"}")]);
    let src = metadata_source(&reg, &data, "Foo.jar").unwrap();
    assert_eq!(src.mod_type, ModType::Fabric);
    assert_eq!(src.raw, "{\"id\": \"x\"}");
    let data = zip_bytes(&[("readme.txt", b"hi")]);
    assert_eq!(
        metadata_source(&reg, &data, "Foo.jar"),
        Err(Error::UnsupportedMetadata("Foo.jar".to_owned()))
    );
    assert_eq!(
        metadata_source(&reg, &data, "Foo.jar").unwrap_err().to_string(),
        "Unsupported metadata format for Foo.jar"
    );
}

#[test]
fn dep_source_reads_only_when_deps_come_from_metadata() {
    let reg = builtin_registry();
    let data = zip_bytes(&[("plugin.yml", b"name: x"), ("libs/a.jar", b"")]);
    let src = dep_source(&reg, &data).unwrap();
    assert_eq!(src.mod_type, ModType::Plugin(PluginType::Bukkit));
    assert_eq!(src.raw.as_deref(), Some("name: x"));
    assert_eq!(src.entries.len(), 2);
    let data = zip_bytes(&[("paper-plugin.yml", b"name: x")]);
    let src = dep_source(&reg, &data).unwrap();
    assert_eq!(src.raw, None);
}

#[test]
fn classes_listed_grepped_and_mixins_read() {
    let data = zip_bytes(&[
        ("com/example/Foo.class", &class_bytes(61, 0x0021, true)),
        ("com/example/Bar.CLASS", &class_bytes(52, 0x0411, false)),
        ("com/example/Broken.class", b"not a class"),
        ("dir.class/", b""),
        ("fabric.mod.json", b"{}"),
    ]);
    let classes = list_classes(&data).unwrap();
    assert_eq!(classes.len(), 2);
    assert_eq!(classes[0].name, "com/example/Foo.class");
    assert_eq!(classes[0].java_version, "17");
    assert_eq!(classes[0].access_flags, vec!["public".to_owned()]);
    assert_eq!(classes[1].java_version, "8");
    assert_eq!(classes[1].access_flags, vec!["public".to_owned(), "final".to_owned(), "abstract".to_owned()]);

    let found = grep(&data, "Foo.bar").unwrap();
    assert_eq!(found.len(), 2);
    assert_eq!(found[0].pool_tag, "MethodRef");
    assert_eq!(found[0].value, "com/example/Foo.bar:()V");
    assert_eq!(found[0].class_file, "com/example/Foo.class");

    let targets = mixins(&data).unwrap();
    assert_eq!(targets.len(), 1);
    assert_eq!(targets[0].mixin_class, "com/example/Foo.class");
    assert_eq!(targets[0].target, "net/minecraft/Target");

    assert!(matches!(list_classes(b"nope"), Err(Error::ZipCrawl(_))));
}

/// A class file whose constant pool count is `0xFFFF`, filled with integer
/// entries, ending with a long in slot `0xFFFE` when `long_last` is set.
fn class_with_full_pool(long_last: bool) -> Vec<u8> {
    let mut v = vec![0xCA, 0xFE, 0xBA, 0xBE];
    be16(&mut v, 0);
    be16(&mut v, 61);
    be16(&mut v, 0xFFFF);
    for _ in 1..65534u32 {
        v.push(3);
        v.extend_from_slice(&7u32.to_be_bytes());
    }
    if long_last {
        v.push(5);
        v.extend_from_slice(&7u64.to_be_bytes());
    } else {
        v.push(3);
        v.extend_from_slice(&7u32.to_be_bytes());
    }
    for _ in 0..7 {
        be16(&mut v, 0);
    }
    v
}

/// A class file with one invisible `@Mixin` annotation whose `value` array
/// holds `Target.class`, then `empty` empty arrays, then, when `chain` is
/// not zero, `chain` arrays each nested in the one before.
fn mixin_class_with_arrays(empty: u16, chain: u16) -> Vec<u8> {
    let mut v = class_bytes(61, 0x0021, false);
    v.truncate(v.len() - 2);
    let mut info = Vec::new();
    be16(&mut info, 1);
    be16(&mut info, 8);
    be16(&mut info, 1);
    be16(&mut info, 9);
    info.push(b'[');
    be16(&mut info, 1 + empty + if chain > 0 { 1 } else { 0 });
    info.push(b'c');
    be16(&mut info, 10);
    for _ in 0..empty {
        info.push(b'[');
        be16(&mut info, 0);
    }
    for k in 0..chain {
        info.push(b'[');
        be16(&mut info, if k + 1 < chain { 1 } else { 0 });
    }
    be16(&mut v, 1);
    be16(&mut v, 7);
    v.extend_from_slice(&(info.len() as u32).to_be_bytes());
    v.extend_from_slice(&info);
    v
}

#[test]
fn class_whose_pool_overflows_the_parser_is_skipped() {
    let data = zip_bytes(&[
        ("com/example/Overflow.class", &class_with_full_pool(true)),
        ("com/example/Full.class", &class_with_full_pool(false)),
        ("com/example/Foo.class", &class_bytes(61, 0x0021, true)),
    ]);
    let classes = list_classes(&data).unwrap();
    assert_eq!(classes.len(), 2);
    assert_eq!(classes[0].name, "com/example/Full.class");
    assert_eq!(classes[0].java_version, "17");
    assert_eq!(classes[1].name, "com/example/Foo.class");
    assert_eq!(grep(&data, "Foo.bar").unwrap().len(), 1);
    assert_eq!(mixins(&data).unwrap().len(), 1);
}

#[test]
fn annotation_tables_nesting_too_deep_are_not_read() {
    let data = zip_bytes(&[
        ("a/Wide.class", &mixin_class_with_arrays(300, 0)),
        ("a/AtLimit.class", &mixin_class_with_arrays(0, 255)),
        ("a/Deep.class", &mixin_class_with_arrays(0, 256)),
    ]);
    let targets = mixins(&data).unwrap();
    let found: Vec<(&str, &str)> = targets.iter().map(|m| (m.mixin_class.as_str(), m.target.as_str())).collect();
    assert_eq!(
        found,
        vec![("a/Wide.class", "net/minecraft/Target"), ("a/AtLimit.class", "net/minecraft/Target")]
    );
    assert_eq!(list_classes(&data).unwrap().len(), 3);
}

#[test]
fn duplicates_across_archives() {
    let a = zip_bytes(&[("x/A.class", b"1"), ("x/B.class", b"2")]);
    let b = zip_bytes(&[("x/A.class", b"1"), ("x/C.class", b"3")]);
    let c = zip_bytes(&[("x/A.class", b"1"), ("x/C.class", b"3"), ("x/B.txt", b"")]);
    let jars = vec![
        JarFile { path: "/mods/a.jar".to_owned(), data: a },
        JarFile { path: "/mods/b.jar".to_owned(), data: b },
        JarFile { path: "c.jar".to_owned(), data: c },
    ];
    let d = find_duplicates(&jars).unwrap();
    assert_eq!(d.len(), 2);
    assert_eq!(d[0].class_name, "x/A.class");
    assert_eq!(d[0].files, vec!["a.jar".to_owned(), "b.jar".to_owned(), "c.jar".to_owned()]);
    assert_eq!(d[1].class_name, "x/C.class");
    assert_eq!(d[1].files, vec!["b.jar".to_owned(), "c.jar".to_owned()]);
    let bad = vec![JarFile { path: "bad.jar".to_owned(), data: b"zzz".to_vec() }];
    assert!(matches!(find_duplicates(&bad), Err(Error::ZipCrawl(_))));
}

#[test]
fn error_display_io() {
    let e = Error::Io("file not found".to_owned());
    assert!(e.to_string().contains("file not found"));
    assert!(e.to_string().contains("I/O error"));
}

#[test]
fn error_display_unsupported_metadata() {
    let e = Error::UnsupportedMetadata("Foo.jar".to_owned());
    assert_eq!(e.to_string(), "Unsupported metadata format for Foo.jar");
}

#[test]
fn error_unsupported_metadata_code() {
    let e = Error::UnsupportedMetadata("test".to_owned());
    assert_eq!(e.code().to_string(), "modcrawl::unsupported_metadata");
    assert_eq!(Error::ZipCrawl("x".to_owned()).to_string(), "ZipCrawl error");
}
