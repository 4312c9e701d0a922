use modcrawl::inspect::dep::{analyze_entries, dedup_deps, find_embedded_jars, is_bundled};
use modcrawl::{DepEntry, DepKind, DepReport, JarInJar, VersionRange, ZipEntry};

fn entry(name: &str, kind: DepKind) -> DepEntry {
    DepEntry::new(name, kind, VersionRange::parse(None))
}

fn jar(path: &str) -> JarInJar {
    JarInJar { path: path.to_owned() }
}

fn zip_entry(name: &str, is_dir: bool) -> ZipEntry {
    ZipEntry { name: name.to_owned(), is_dir, size: 0, crc: 0 }
}

#[test]
fn dedup_empty() {
    assert!(dedup_deps(vec![]).is_empty());
}

#[test]
fn dedup_no_duplicates() {
    let deps = vec![entry("a", DepKind::Required), entry("b", DepKind::Optional)];
    let result = dedup_deps(deps);
    assert_eq!(result.len(), 2);
}

#[test]
fn dedup_higher_priority_wins() {
    let deps = vec![entry("x", DepKind::Optional), entry("x", DepKind::Required)];
    let result = dedup_deps(deps);
    assert_eq!(result.len(), 1);
    assert_eq!(result[0].kind, DepKind::Required);
}

#[test]
fn dedup_same_kind_preserves_first() {
    let deps = vec![entry("x", DepKind::Optional), entry("x", DepKind::Optional)];
    let result = dedup_deps(deps);
    assert_eq!(result.len(), 1);
    assert_eq!(result[0].kind, DepKind::Optional);
}

#[test]
fn dedup_mixed_unique_and_dupes() {
    let deps = vec![
        entry("a", DepKind::Required),
        entry("b", DepKind::Suggested),
        entry("a", DepKind::LoadBefore),
    ];
    let result = dedup_deps(deps);
    assert_eq!(result.len(), 2);
    assert_eq!(result[0].kind, DepKind::Required);
    assert_eq!(result[0].name, "a");
    assert_eq!(result[1].name, "b");
}

#[test]
fn dedup_keeps_first_range_when_kind_rises() {
    let deps = vec![
        DepEntry::new("x", DepKind::Suggested, VersionRange::parse(Some(">=1.0".to_owned()))),
        DepEntry::new("x", DepKind::Required, VersionRange::parse(Some(">=2.0".to_owned()))),
    ];
    let result = dedup_deps(deps);
    assert_eq!(result.len(), 1);
    assert_eq!(result[0].kind, DepKind::Required);
    assert_eq!(result[0].version_range.raw.as_deref(), Some(">=1.0"));
}

#[test]
fn find_jars_empty_when_no_jars() {
    let entries = vec![zip_entry("META-INF/MANIFEST.MF", false)];
    assert!(find_embedded_jars(&entries).is_empty());
}

#[test]
fn find_jars_finds_jar_files() {
    let entries = vec![
        zip_entry("META-INF/jars/foo.jar", false),
        zip_entry("META-INF/jars/bar.jar", false),
        zip_entry("fabric.mod.json", false),
    ];
    let jars = find_embedded_jars(&entries);
    assert_eq!(jars.len(), 2);
    assert_eq!(jars[0].path, "META-INF/jars/foo.jar");
    assert_eq!(jars[1].path, "META-INF/jars/bar.jar");
}

#[test]
fn find_jars_case_insensitive() {
    let entries = vec![zip_entry("libs/foo.JAR", false), zip_entry("libs/bar.Jar", false)];
    assert_eq!(find_embedded_jars(&entries).len(), 2);
}

#[test]
fn find_jars_excludes_directories() {
    let entries = vec![zip_entry("libs/", true)];
    assert!(find_embedded_jars(&entries).is_empty());
}

#[test]
fn find_jars_in_subdirectories() {
    let entries = vec![zip_entry("META-INF/jars/dep-1.0.jar", false)];
    let jars = find_embedded_jars(&entries);
    assert_eq!(jars.len(), 1);
    assert_eq!(jars[0].path, "META-INF/jars/dep-1.0.jar");
}

#[test]
fn find_jars_ignores_hidden_file_without_extension() {
    let entries = vec![zip_entry("libs/.jar", false), zip_entry("libs/foo.jarx", false)];
    assert!(find_embedded_jars(&entries).is_empty());
}

#[test]
fn bundled_exact_stem_match() {
    assert!(is_bundled("foo", &[jar("foo.jar")]));
}

#[test]
fn bundled_prefix_match() {
    assert!(is_bundled("foo", &[jar("foo-1.0.jar")]));
}

#[test]
fn bundled_no_match() {
    assert!(!is_bundled("foo", &[jar("bar.jar")]));
}

#[test]
fn bundled_empty_jars() {
    assert!(!is_bundled("foo", &[]));
}

#[test]
fn bundled_match_in_subdir() {
    assert!(is_bundled("flywheel", &[jar("META-INF/jars/flywheel-1.0.0.jar")]));
}

#[test]
fn bundled_needs_dash_after_name() {
    assert!(!is_bundled("foo", &[jar("foobar-1.0.jar")]));
}

#[test]
fn analyze_drops_bundled_and_hides_jars_unless_asked() {
    let entries = vec![
        zip_entry("fabric.mod.json", false),
        zip_entry("META-INF/jars/flywheel-1.0.0.jar", false),
    ];
    let raw = vec![
        entry("flywheel", DepKind::Required),
        entry("minecraft", DepKind::Required),
        entry("minecraft", DepKind::Optional),
    ];
    let report = analyze_entries(&entries, raw, false);
    assert_eq!(report.dependencies.len(), 1);
    assert_eq!(report.dependencies[0].name, "minecraft");
    assert!(report.jar_in_jar.is_empty());

    let raw = vec![entry("flywheel", DepKind::Required), entry("minecraft", DepKind::Required)];
    let report = analyze_entries(&entries, raw, true);
    assert_eq!(report.dependencies.len(), 1);
    assert_eq!(report.jar_in_jar, vec![jar("META-INF/jars/flywheel-1.0.0.jar")]);
}

#[test]
fn version_range_parse_forms() {
    let any = VersionRange::parse(None);
    assert_eq!(any.min, None);
    assert_eq!(any.max, None);
    assert!(any.min_inclusive && !any.max_inclusive);

    let star = VersionRange::parse(Some("*".to_owned()));
    assert_eq!(star.min, None);
    assert_eq!(star.raw.as_deref(), Some("*"));

    let maven = VersionRange::parse(Some("[1.0,2.0)".to_owned()));
    assert_eq!(maven.min.as_deref(), Some("1.0"));
    assert_eq!(maven.max.as_deref(), Some("2.0"));
    assert!(maven.min_inclusive && !maven.max_inclusive);

    let open = VersionRange::parse(Some("[60,)".to_owned()));
    assert_eq!(open.min.as_deref(), Some("60"));
    assert_eq!(open.max, None);

    let exact = VersionRange::parse(Some("[1.2]".to_owned()));
    assert_eq!(exact.min.as_deref(), Some("1.2"));
    assert_eq!(exact.max.as_deref(), Some("1.2"));
    assert!(exact.min_inclusive && exact.max_inclusive);

    let both = VersionRange::parse(Some(">=1.0 <2.0".to_owned()));
    assert_eq!(both.min.as_deref(), Some("1.0"));
    assert_eq!(both.max.as_deref(), Some("2.0"));

    let ge = VersionRange::parse(Some(">=0.50.0".to_owned()));
    assert_eq!(ge.min.as_deref(), Some("0.50.0"));
    assert_eq!(ge.max, None);

    let lt = VersionRange::parse(Some("<3".to_owned()));
    assert_eq!(lt.min.as_deref(), Some(""));
    assert_eq!(lt.max.as_deref(), Some("3"));

    let plain = VersionRange::parse(Some(" ~1.20.1 ".to_owned()));
    assert_eq!(plain.min.as_deref(), Some("~1.20.1"));
    assert_eq!(plain.max.as_deref(), Some("~1.20.1"));
    assert_eq!(plain.to_string(), " ~1.20.1 ");
    assert_eq!(VersionRange::parse(None).to_string(), "*");
}

#[test]
fn dep_kind_priorities_and_markers() {
    assert_eq!(DepKind::Required.priority(), 5);
    assert_eq!(DepKind::LoadBefore.priority(), 4);
    assert_eq!(DepKind::Optional.priority(), 3);
    assert_eq!(DepKind::Recommended.priority(), 2);
    assert_eq!(DepKind::Suggested.priority(), 1);
    assert_eq!(DepKind::Incompatible.priority(), 0);
    assert!(DepKind::Discouraged.is_excluded());
    assert!(!DepKind::Required.is_excluded());
    assert_eq!(DepKind::LoadBefore.marker(), "<");
    assert_eq!(DepKind::Incompatible.marker(), "!");
}

#[test]
fn dep_entry_line() {
    let e = DepEntry::new("fabric-api", DepKind::Required, VersionRange::parse(Some(">=0.50.0".to_owned())));
    assert_eq!(e.to_string(), "  * fabric-api (>=0.50.0)");
    let e = DepEntry::new("sodium", DepKind::Suggested, VersionRange::parse(None));
    assert_eq!(e.to_string(), "  - sodium");
    assert_eq!(jar("a/b.jar").to_string(), "  / a/b.jar");
}

#[test]
fn report_empty_is_empty_text() {
    let r = DepReport { dependencies: vec![], jar_in_jar: vec![] };
    assert_eq!(r.to_string(), "");
}

#[test]
fn report_full_text() {
    let r = DepReport {
        dependencies: vec![
            entry("a", DepKind::Required),
            DepEntry::new("b", DepKind::Optional, VersionRange::parse(Some(">=1".to_owned()))),
        ],
        jar_in_jar: vec![jar("x.jar")],
    };
    assert_eq!(
        r.to_string(),
        "* required\n- optional/recommended/suggested\n/ jar-in-jar\n------\n\nDependencies:\n  * a\n  - b (>=1)\n\nJar-in-jar:\n  / x.jar\n"
    );
}
