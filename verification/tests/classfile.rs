use modcrawl::inspect::classfile::dupes::DupEntry;
use modcrawl::inspect::classfile::mixin::extract_mixin_targets;
use modcrawl::inspect::classfile::model::{ClassModel, PoolEntry, RawAttribute};
use modcrawl::inspect::classfile::nesting::nesting_exceeds;
use modcrawl::inspect::classfile::pool_layout::pool_overflows;
use modcrawl::inspect::classfile::pool::{get_entry, resolve_class_descriptor, resolve_class_name, resolve_ref, resolve_utf8};
use modcrawl::inspect::classfile::query::{
    format_class_access_flags, is_class_entry, is_mixin_annotation, java_version_string, search_constant_pool,
};
use modcrawl::inspect::classfile::report::{
    by_class_text, conflict_pairs, conflicts_text, dupes_count_text, dupes_text, grep_report, mixins_report,
    no_matches_text,
};
use modcrawl::{GrepMatch, MixinEntry};

fn utf8(s: &str) -> PoolEntry {
    PoolEntry::Utf8(s.to_owned())
}

/// Slots: 1 "com/example/Foo", 2 Class(1), 3 "bar", 4 "()V", 5 NameAndType(3,4),
/// 6 Methodref(2,5), 7-8 Long, 9 Fieldref(2,5), 10 InterfaceMethodref(2,5),
/// 11 "Lorg/spongepowered/asm/mixin/Mixin;", 12 "value", 13 "Lnet/minecraft/Target;",
/// 14 "net/minecraft/Other", 15 "targets".
fn pool() -> Vec<PoolEntry> {
    vec![
        utf8("com/example/Foo"),
        PoolEntry::Class(1),
        utf8("bar"),
        utf8("()V"),
        PoolEntry::NameAndType(3, 4),
        PoolEntry::Methodref(2, 5),
        PoolEntry::Long,
        PoolEntry::Fieldref(2, 5),
        PoolEntry::InterfaceMethodref(2, 5),
        utf8("Lorg/spongepowered/asm/mixin/Mixin;"),
        utf8("value"),
        utf8("Lnet/minecraft/Target;"),
        utf8("net/minecraft/Other"),
        utf8("targets"),
    ]
}

fn model(attributes: Vec<RawAttribute>) -> ClassModel {
    ClassModel { minor_version: 0, major_version: 61, access_flags: 0x0021, constant_pool: pool(), attributes }
}

#[test]
fn pool_slots_skip_wide_entries() {
    let p = pool();
    assert_eq!(get_entry(&p, 0), None);
    assert_eq!(get_entry(&p, 1), Some(&utf8("com/example/Foo")));
    assert_eq!(get_entry(&p, 7), Some(&PoolEntry::Long));
    assert_eq!(get_entry(&p, 8), None);
    assert_eq!(get_entry(&p, 9), Some(&PoolEntry::Fieldref(2, 5)));
    assert_eq!(get_entry(&p, 15), Some(&utf8("targets")));
    assert_eq!(get_entry(&p, 16), None);
    assert_eq!(resolve_utf8(&p, 2), None);
    assert_eq!(resolve_utf8(&p, 12).as_deref(), Some("value"));
    assert_eq!(resolve_class_name(&p, 2).as_deref(), Some("com/example/Foo"));
    assert_eq!(resolve_class_name(&p, 1), None);
    assert_eq!(resolve_ref(&p, 2, 5).as_deref(), Some("com/example/Foo.bar:()V"));
    assert_eq!(resolve_ref(&p, 2, 4), None);
    assert_eq!(resolve_class_descriptor(&p, 13).as_deref(), Some("net/minecraft/Target"));
    assert_eq!(resolve_class_descriptor(&p, 14).as_deref(), Some("net/minecraft/Other"));
}

#[test]
fn java_versions() {
    assert_eq!(java_version_string(45, 3), "1.1");
    assert_eq!(java_version_string(48, 0), "1.4");
    assert_eq!(java_version_string(49, 0), "5");
    assert_eq!(java_version_string(52, 0), "8");
    assert_eq!(java_version_string(61, 0), "17");
    assert_eq!(java_version_string(65, 0), "21");
    assert_eq!(java_version_string(66, 0), "22+");
    assert_eq!(java_version_string(44, 0), "44");
    assert_eq!(java_version_string(0, 0), "0");
}

#[test]
fn access_flag_names() {
    assert_eq!(format_class_access_flags(0x0021), vec!["public".to_owned()]);
    assert_eq!(
        format_class_access_flags(0x0601),
        vec!["public".to_owned(), "abstract".to_owned(), "interface".to_owned()]
    );
    assert_eq!(
        format_class_access_flags(0xF410),
        vec![
            "final".to_owned(),
            "abstract".to_owned(),
            "annotation".to_owned(),
            "enum".to_owned(),
            "synthetic".to_owned(),
            "module".to_owned()
        ]
    );
    assert!(format_class_access_flags(0).is_empty());
}

#[test]
fn class_entry_names() {
    assert!(is_class_entry("a/B.class"));
    assert!(is_class_entry("a/B.CLASS"));
    assert!(!is_class_entry("a/B.classes"));
    assert!(!is_class_entry("a/.class"));
    assert!(is_mixin_annotation("Lorg/spongepowered/asm/mixin/Mixin;"));
    assert!(!is_mixin_annotation("Lorg/spongepowered/asm/mixin/Mixins;"));
}

#[test]
fn search_pool_utf8_first_then_references() {
    let cf = model(vec![]);
    let found = search_constant_pool(&cf, "Foo.class", "Foo");
    let got: Vec<(String, String)> = found.iter().map(|m| (m.pool_tag.clone(), m.value.clone())).collect();
    assert_eq!(
        got,
        vec![
            ("Utf8".to_owned(), "com/example/Foo".to_owned()),
            ("Class".to_owned(), "com/example/Foo".to_owned()),
            ("MethodRef".to_owned(), "com/example/Foo.bar:()V".to_owned()),
            ("FieldRef".to_owned(), "com/example/Foo.bar:()V".to_owned()),
            ("InterfaceMethodRef".to_owned(), "com/example/Foo.bar:()V".to_owned()),
        ]
    );
    assert!(found.iter().all(|m| m.class_file == "Foo.class"));
    assert!(search_constant_pool(&cf, "Foo.class", "nothing-here").is_empty());
    assert_eq!(search_constant_pool(&cf, "Foo.class", "bar:").len(), 3);
}

fn be16(v: &mut Vec<u8>, x: u16) {
    v.extend_from_slice(&x.to_be_bytes());
}

/// An element value: a one-byte tag and a pool index.
fn tagged_value(v: &mut Vec<u8>, tag: u8, index: u16) {
    v.push(tag);
    be16(v, index);
}

#[test]
fn mixin_targets_from_class_string_and_array() {
    let mut info = Vec::new();
    be16(&mut info, 2);
    // An annotation that is not `@Mixin`.
    be16(&mut info, 13);
    be16(&mut info, 1);
    be16(&mut info, 12);
    tagged_value(&mut info, b'c', 13);
    // `@Mixin(value = Target.class, targets = {"net/minecraft/Other", 1, Target.class}, bar = Target.class)`.
    be16(&mut info, 11);
    be16(&mut info, 3);
    be16(&mut info, 12);
    tagged_value(&mut info, b'c', 13);
    be16(&mut info, 15);
    tagged_value(&mut info, b'[', 3);
    tagged_value(&mut info, b's', 14);
    tagged_value(&mut info, b'I', 1);
    tagged_value(&mut info, b'c', 13);
    be16(&mut info, 3);
    tagged_value(&mut info, b'c', 13);

    let mut constant_pool = pool();
    constant_pool.push(utf8("RuntimeInvisibleAnnotations"));
    let cf = ClassModel {
        minor_version: 0,
        major_version: 61,
        access_flags: 0x0021,
        constant_pool,
        attributes: vec![
            RawAttribute { name_index: 3, info: info.clone() },
            RawAttribute { name_index: 16, info },
        ],
    };
    let found = extract_mixin_targets(&cf, "mixin/FooMixin.class");
    let targets: Vec<&str> = found.iter().map(|m| m.target.as_str()).collect();
    assert_eq!(targets, vec!["net/minecraft/Target", "net/minecraft/Other", "net/minecraft/Target"]);
    assert!(found.iter().all(|m| m.mixin_class == "mixin/FooMixin.class"));
    assert!(extract_mixin_targets(&model(vec![]), "x").is_empty());
}

/// An annotation table of one annotation whose one element is `depth`
/// arrays, each nested in the one before.
fn nested_table(depth: u16) -> Vec<u8> {
    let mut info = Vec::new();
    be16(&mut info, 1);
    be16(&mut info, 11);
    be16(&mut info, 1);
    be16(&mut info, 12);
    for k in 0..depth {
        tagged_value(&mut info, b'[', if k + 1 < depth { 1 } else { 0 });
    }
    if depth == 0 {
        tagged_value(&mut info, b'c', 13);
    }
    info
}

#[test]
fn nesting_measured_by_depth() {
    assert!(!nesting_exceeds(&[]));
    assert!(!nesting_exceeds(&nested_table(0)));
    assert!(!nesting_exceeds(&nested_table(256)));
    assert!(nesting_exceeds(&nested_table(257)));
    // A nested annotation counts one level.
    let mut info = Vec::new();
    be16(&mut info, 1);
    be16(&mut info, 11);
    be16(&mut info, 1);
    be16(&mut info, 12);
    for _ in 0..300 {
        info.push(b'@');
        be16(&mut info, 11);
        be16(&mut info, 1);
        be16(&mut info, 12);
    }
    tagged_value(&mut info, b'c', 13);
    assert!(nesting_exceeds(&info));
    // Many `@` and `[` bytes that do not nest are not counted.
    let mut flat = Vec::new();
    be16(&mut flat, 1);
    be16(&mut flat, 0x5B40);
    be16(&mut flat, 1);
    be16(&mut flat, 12);
    tagged_value(&mut flat, b'[', 400);
    for _ in 0..400 {
        tagged_value(&mut flat, b'c', 0x405B);
    }
    assert!(!nesting_exceeds(&flat));
    // Reading stops at the first value that cannot be read.
    let mut cut = nested_table(300);
    cut[8] = b'X';
    assert!(!nesting_exceeds(&cut));
}

#[test]
fn pool_overflow_needs_a_wide_entry_in_the_last_slot() {
    assert!(!pool_overflows(&[]));
    let mut v = vec![0xCA, 0xFE, 0xBA, 0xBE, 0, 0, 0, 61, 0xFF, 0xFF];
    for _ in 1..65534u32 {
        v.extend_from_slice(&[1, 0, 1, b'x']);
    }
    let mut wide = v.clone();
    wide.push(6);
    wide.extend_from_slice(&[0; 8]);
    assert!(pool_overflows(&wide));
    let mut narrow = v.clone();
    narrow.extend_from_slice(&[7, 0, 1]);
    assert!(!pool_overflows(&narrow));
    let mut short = v.clone();
    short.extend_from_slice(&[5, 0, 0]);
    assert!(!pool_overflows(&short));
    let mut other_count = wide.clone();
    other_count[9] = 0xFE;
    assert!(!pool_overflows(&other_count));
}

fn dup(class: &str, files: &[&str]) -> DupEntry {
    DupEntry { class_name: class.to_owned(), files: files.iter().map(|f| f.to_string()).collect() }
}

#[test]
fn conflicts_grouped_by_sorted_pair() {
    let entries = vec![dup("a/A.class", &["z.jar", "b.jar"]), dup("a/B.class", &["b.jar", "z.jar", "c.jar"])];
    let pairs = conflict_pairs(&entries);
    let keys: Vec<Vec<String>> = pairs.iter().map(|g| g.key.clone()).collect();
    assert_eq!(
        keys,
        vec![
            vec!["b.jar".to_owned(), "c.jar".to_owned()],
            vec!["b.jar".to_owned(), "z.jar".to_owned()],
            vec!["c.jar".to_owned(), "z.jar".to_owned()],
        ]
    );
    assert_eq!(pairs[1].members, vec!["a/A.class".to_owned(), "a/B.class".to_owned()]);
    assert_eq!(
        conflicts_text(&entries[..1]),
        "── Classpath Conflicts ──\n\n  b.jar\n  z.jar\n  ── 1 shared class ──\n    a/A.class\n\n"
    );
    assert_eq!(conflicts_text(&[]), "");
}

#[test]
fn duplicate_texts() {
    let entries = vec![dup("a/A.class", &["x.jar", "y.jar"]), dup("a/B.class", &["y.jar", "z.jar"])];
    assert_eq!(
        by_class_text(&entries),
        "  a/A.class  (in 2 JARs)\n    x.jar\n    y.jar\n  a/B.class  (in 2 JARs)\n    y.jar\n    z.jar\n"
    );
    assert_eq!(dupes_count_text(&entries), "Found 2 duplicate classes across 3 JAR files.\n");
    assert_eq!(dupes_text(&[], false, false), "No duplicate classes found.\n");
    assert_eq!(dupes_text(&entries, true, false), by_class_text(&entries));
    assert_eq!(dupes_text(&entries, false, false), conflicts_text(&entries));
    assert_eq!(no_matches_text("foo", 2), "No matches found for pattern \"foo\" in 2 file(s).\n");
}

#[test]
fn grep_and_mixin_reports_group_by_class() {
    let m = |c: &str, t: &str, v: &str| GrepMatch { class_file: c.to_owned(), pool_tag: t.to_owned(), value: v.to_owned() };
    let matches = vec![m("b/B.class", "Utf8", "x1"), m("a/A.class", "Class", "x2"), m("b/B.class", "MethodRef", "x3")];
    assert_eq!(
        grep_report(&matches, false, Some("mod.jar")),
        "mod.jar:\n  a/A.class:\n    Class: \"x2\"\n  b/B.class:\n    Utf8: \"x1\"\n    MethodRef: \"x3\"\n"
    );
    assert_eq!(grep_report(&matches, true, None), "  a/A.class\n  b/B.class\n");
    assert_eq!(grep_report(&[], false, Some("mod.jar")), "");
    let e = |c: &str, t: &str| MixinEntry { mixin_class: c.to_owned(), target: t.to_owned() };
    let entries = vec![e("m/Z.class", "t1"), e("m/A.class", "t2"), e("m/Z.class", "t3")];
    assert_eq!(mixins_report(&entries, false, None), "  m/A.class ->\n    t2\n  m/Z.class ->\n    t1\n    t3\n");
    assert_eq!(mixins_report(&entries, true, None), "  m/A.class\n  m/Z.class\n");
}
