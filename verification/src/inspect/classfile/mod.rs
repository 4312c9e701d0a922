//! Class-file queries over the classes of an archive: listing, constant
//! pool search, mixin targets and duplicates across archives.

pub mod dupes;
pub mod model;
pub mod pool;
pub mod query;
pub mod report;
pub mod mixin;
pub mod nesting;
pub mod pool_layout;

use vstd::prelude::*;

use crate::error::Error;
use crate::inspect::archive::ZipEntry;
use crate::inspect::classfile::mixin::{extract_mixin_targets, mixin_targets, mixin_view};
use crate::inspect::classfile::model::{class_model, parse_class, ClassModel};
use crate::inspect::classfile::pool_layout::{pool_overflow, pool_overflows};
use crate::inspect::classfile::query::{
    access_flag_names, format_class_access_flags, grep_view, is_class_entry, is_class_name,
    java_version_string, java_version_text, pool_hits, search_constant_pool, tagged, ClassEntry,
    GrepMatch, MixinEntry,
};
use crate::inspect::jar::{archive_files, opt_bytes, read_entries, zip_file_bytes, zip_listing};
use crate::text::{owned, views};

verus! {

/// Whether an archive entry is a class file.
pub open spec fn is_class_file(e: ZipEntry) -> bool {
    is_class_name(e.name@) && !e.is_dir
}

/// The names of the class files of a listing, in order.
pub open spec fn class_names(entries: Seq<ZipEntry>) -> Seq<Seq<char>>
    decreases entries.len(),
{
    if entries.len() == 0 {
        Seq::empty()
    } else {
        let prev = class_names(entries.drop_last());
        if is_class_file(entries.last()) {
            prev.push(entries.last().name@)
        } else {
            prev
        }
    }
}

/// The names of the class files among `entries`, in order.
pub fn class_entry_names(entries: &[ZipEntry]) -> (r: Vec<String>)
    ensures
        views(r@) == class_names(entries@),
{
    let mut out: Vec<String> = Vec::new();
    let mut i: usize = 0;
    proof {
        assert(entries@.take(0) =~= Seq::<ZipEntry>::empty());
        assert(views(out@) =~= class_names(entries@.take(0)));
    }
    while i < entries.len()
        invariant
            i <= entries@.len(),
            views(out@) == class_names(entries@.take(i as int)),
        decreases entries@.len() - i,
    {
        let e = &entries[i];
        proof {
            assert(entries@.take(i + 1).drop_last() =~= entries@.take(i as int));
            assert(entries@.take(i + 1).last() == *e);
        }
        if is_class_entry(e.name.as_str()) && !e.is_dir {
            let ghost before = out@;
            out.push(owned(e.name.as_str()));
            proof {
                assert(views(out@) =~= views(before).push(e.name@));
            }
        }
        i = i + 1;
    }
    proof {
        assert(entries@.take(entries@.len() as int) =~= entries@);
    }
    out
}

/// A class file of an archive with what was parsed from it.
#[derive(Debug, Clone, PartialEq, Eq)]
pub struct ParsedClass {
    pub name: String,
    pub model: ClassModel,
}

/// Each parsed class as (name, model).
pub open spec fn parsed_view(v: Seq<ParsedClass>) -> Seq<(Seq<char>, ClassModel)> {
    v.map_values(|c: ParsedClass| (c.name@, c.model))
}

/// The classes among `names` that can be read from the archive `data` and
/// parse, in order; a constant pool that the parser would overflow on
/// (`pool_overflow`) counts as a class that does not parse.
pub open spec fn archive_classes(data: Seq<u8>, names: Seq<Seq<char>>) -> Seq<(Seq<char>, ClassModel)>
    decreases names.len(),
{
    if names.len() == 0 {
        Seq::empty()
    } else {
        let prev = archive_classes(data, names.drop_last());
        match zip_file_bytes(data, names.last()) {
            Some(b) => if pool_overflow(b) {
                prev
            } else {
                match class_model(b) {
                    Some(m) => prev.push((names.last(), m)),
                    None => prev,
                }
            },
            None => prev,
        }
    }
}

/// The class files of an in-memory archive that can be read and parsed,
/// in archive order; the others, and those whose constant pool the parser
/// would overflow on, are skipped. An archive that cannot be listed is a `ZipCrawl`
/// error.
pub fn classes_in_archive(data: &[u8]) -> (r: Result<Vec<ParsedClass>, Error>)
    ensures
        match r {
            Ok(v) => zip_listing(data@) is Some && parsed_view(v@) == archive_classes(
                data@,
                class_names(zip_listing(data@)->0),
            ),
            Err(e) => zip_listing(data@) is None && e is ZipCrawl,
        },
{
    let entries = read_entries(data)?;
    let names = class_entry_names(entries.as_slice());
    let ghost ns = views(names@);
    let contents = archive_files(data, &names);
    let mut out: Vec<ParsedClass> = Vec::new();
    let mut i: usize = 0;
    proof {
        assert(ns.take(0) =~= Seq::<Seq<char>>::empty());
        assert(parsed_view(out@) =~= archive_classes(data@, ns.take(0)));
    }
    while i < names.len()
        invariant
            i <= names@.len(),
            ns == views(names@),
            contents@.len() == names@.len(),
            forall|q: int|
                0 <= q < names@.len() ==> opt_bytes(#[trigger] contents@[q]) == zip_file_bytes(
                    data@,
                    names@[q]@,
                ),
            parsed_view(out@) == archive_classes(data@, ns.take(i as int)),
        decreases names@.len() - i,
    {
        proof {
            assert(ns.take(i + 1).drop_last() =~= ns.take(i as int));
            assert(ns.take(i + 1).last() == names@[i as int]@);
            assert(opt_bytes(contents@[i as int]) == zip_file_bytes(data@, names@[i as int]@));
        }
        match &contents[i] {
            Some(b) => if !pool_overflows(b.as_slice()) {
                match parse_class(b.as_slice()) {
                    Some(m) => {
                        let ghost before = out@;
                        out.push(ParsedClass { name: owned(names[i].as_str()), model: m });
                        proof {
                            assert(parsed_view(out@) =~= parsed_view(before).push((names@[i as int]@, m)));
                        }
                    },
                    None => {},
                }
            },
            None => {},
        }
        i = i + 1;
    }
    proof {
        assert(ns.take(ns.len() as int) =~= ns);
    }
    Ok(out)
}

/// Each class entry as (name, Java version, access flags).
pub open spec fn class_entries_view(v: Seq<ClassEntry>) -> Seq<(Seq<char>, Seq<char>, Seq<Seq<char>>)> {
    v.map_values(|c: ClassEntry| (c.name@, c.java_version@, views(c.access_flags@)))
}

/// What the listing reports of a parsed class.
pub open spec fn class_summary(c: (Seq<char>, ClassModel)) -> (Seq<char>, Seq<char>, Seq<Seq<char>>) {
    (c.0, java_version_text(c.1.major_version), access_flag_names(c.1.access_flags))
}

/// The name, Java version and access flags of each parsed class, in order.
pub fn list_parsed_classes(classes: &[ParsedClass]) -> (r: Vec<ClassEntry>)
    ensures
        class_entries_view(r@) == parsed_view(classes@).map_values(
            |c: (Seq<char>, ClassModel)| class_summary(c),
        ),
{
    let mut out: Vec<ClassEntry> = Vec::new();
    let mut i: usize = 0;
    while i < classes.len()
        invariant
            i <= classes@.len(),
            class_entries_view(out@) == parsed_view(classes@.take(i as int)).map_values(
                |c: (Seq<char>, ClassModel)| class_summary(c),
            ),
        decreases classes@.len() - i,
    {
        let c = &classes[i];
        let ghost before = out@;
        let entry = ClassEntry {
            name: owned(c.name.as_str()),
            java_version: java_version_string(c.model.major_version, c.model.minor_version),
            access_flags: format_class_access_flags(c.model.access_flags),
        };
        out.push(entry);
        proof {
            assert(parsed_view(classes@.take(i + 1)) =~= parsed_view(classes@.take(i as int)).push(
                (c.name@, c.model),
            ));
            assert(class_entries_view(out@) =~= class_entries_view(before).push(
                class_summary((c.name@, c.model)),
            ));
            assert(class_entries_view(out@) =~= parsed_view(classes@.take(i + 1)).map_values(
                |c: (Seq<char>, ClassModel)| class_summary(c),
            ));
        }
        i = i + 1;
    }
    proof {
        assert(classes@.take(classes@.len() as int) =~= classes@);
    }
    out
}

/// List the class files of an in-memory archive with their Java version and
/// access flags; classes that cannot be read or parsed, as `archive_classes`
/// says, are skipped.
pub fn list_classes(data: &[u8]) -> (r: Result<Vec<ClassEntry>, Error>)
    ensures
        match r {
            Ok(v) => zip_listing(data@) is Some && class_entries_view(v@) == archive_classes(
                data@,
                class_names(zip_listing(data@)->0),
            ).map_values(|c: (Seq<char>, ClassModel)| class_summary(c)),
            Err(e) => zip_listing(data@) is None && e is ZipCrawl,
        },
{
    let classes = classes_in_archive(data)?;
    Ok(list_parsed_classes(classes.as_slice()))
}

/// The pool matches of each class in turn.
pub open spec fn grep_all(classes: Seq<(Seq<char>, ClassModel)>, pat: Seq<char>) -> Seq<
    (Seq<char>, Seq<char>, Seq<char>),
>
    decreases classes.len(),
{
    if classes.len() == 0 {
        Seq::empty()
    } else {
        let c = classes.last();
        grep_all(classes.drop_last(), pat) + tagged(c.0, pool_hits(c.1.constant_pool@, pat))
    }
}

/// The constant pool matches of each parsed class, class by class.
pub fn grep_parsed_classes(classes: &[ParsedClass], pattern: &str) -> (r: Vec<GrepMatch>)
    ensures
        grep_view(r@) == grep_all(parsed_view(classes@), pattern@),
{
    let mut out: Vec<GrepMatch> = Vec::new();
    let mut i: usize = 0;
    proof {
        assert(parsed_view(classes@.take(0)) =~= Seq::<(Seq<char>, ClassModel)>::empty());
    }
    while i < classes.len()
        invariant
            i <= classes@.len(),
            grep_view(out@) == grep_all(parsed_view(classes@.take(i as int)), pattern@),
        decreases classes@.len() - i,
    {
        let c = &classes[i];
        let found = search_constant_pool(&c.model, c.name.as_str(), pattern);
        let ghost before = out@;
        let mut more = found;
        out.append(&mut more);
        proof {
            let t = parsed_view(classes@.take(i + 1));
            assert(t.drop_last() =~= parsed_view(classes@.take(i as int)));
            assert(t.last() == (c.name@, c.model));
            assert(grep_view(out@) =~= grep_view(before) + grep_view(found@));
        }
        i = i + 1;
    }
    proof {
        assert(classes@.take(classes@.len() as int) =~= classes@);
    }
    out
}

/// Search the constant pool of every class file of an in-memory archive
/// for `pattern`; classes that cannot be read or parsed, as `archive_classes`
/// says, are skipped.
pub fn grep(data: &[u8], pattern: &str) -> (r: Result<Vec<GrepMatch>, Error>)
    ensures
        match r {
            Ok(v) => zip_listing(data@) is Some && grep_view(v@) == grep_all(
                archive_classes(data@, class_names(zip_listing(data@)->0)),
                pattern@,
            ),
            Err(e) => zip_listing(data@) is None && e is ZipCrawl,
        },
{
    let classes = classes_in_archive(data)?;
    Ok(grep_parsed_classes(classes.as_slice(), pattern))
}

/// The mixin targets of each class in turn, paired with the class.
pub open spec fn mixins_all(classes: Seq<(Seq<char>, ClassModel)>) -> Seq<(Seq<char>, Seq<char>)>
    decreases classes.len(),
{
    if classes.len() == 0 {
        Seq::empty()
    } else {
        let c = classes.last();
        mixins_all(classes.drop_last()) + mixin_targets(c.1).map_values(|t: Seq<char>| (c.0, t))
    }
}

/// The mixin targets of each parsed class, class by class.
pub fn mixins_of_parsed_classes(classes: &[ParsedClass]) -> (r: Vec<MixinEntry>)
    ensures
        mixin_view(r@) == mixins_all(parsed_view(classes@)),
{
    let mut out: Vec<MixinEntry> = Vec::new();
    let mut i: usize = 0;
    proof {
        assert(parsed_view(classes@.take(0)) =~= Seq::<(Seq<char>, ClassModel)>::empty());
    }
    while i < classes.len()
        invariant
            i <= classes@.len(),
            mixin_view(out@) == mixins_all(parsed_view(classes@.take(i as int))),
        decreases classes@.len() - i,
    {
        let c = &classes[i];
        let found = extract_mixin_targets(&c.model, c.name.as_str());
        let ghost before = out@;
        let mut more = found;
        out.append(&mut more);
        proof {
            let t = parsed_view(classes@.take(i + 1));
            assert(t.drop_last() =~= parsed_view(classes@.take(i as int)));
            assert(t.last() == (c.name@, c.model));
            assert(mixin_view(out@) =~= mixin_view(before) + mixin_view(found@));
        }
        i = i + 1;
    }
    proof {
        assert(classes@.take(classes@.len() as int) =~= classes@);
    }
    out
}

/// Extract the `@Mixin` targets of every class file of an in-memory archive;
/// classes that cannot be read or parsed, as `archive_classes` says, are
/// skipped.
pub fn mixins(data: &[u8]) -> (r: Result<Vec<MixinEntry>, Error>)
    ensures
        match r {
            Ok(v) => zip_listing(data@) is Some && mixin_view(v@) == mixins_all(
                archive_classes(data@, class_names(zip_listing(data@)->0)),
            ),
            Err(e) => zip_listing(data@) is None && e is ZipCrawl,
        },
{
    let classes = classes_in_archive(data)?;
    Ok(mixins_of_parsed_classes(classes.as_slice()))
}

} // verus!
