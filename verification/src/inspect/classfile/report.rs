//! The text reports of the class queries: classpath conflicts between
//! archives, duplicates by class, and matches or targets grouped by class.

use vstd::prelude::*;

use crate::inspect::classfile::dupes::{dup_view, DupEntry};
use crate::inspect::classfile::mixin::mixin_view;
use crate::inspect::classfile::query::{grep_view, ClassEntry, GrepMatch, MixinEntry};
use crate::inspect::classfile::class_entries_view;
use crate::inspect::grouping::{add_to_group, grouped, groups_view, text_less, text_lt, Group};
use crate::text::{decimal, join, join_strings, owned, push_decimal, push_str, views};

verus! {

/// The two archives of a pair, in order.
pub open spec fn pair_key(a: Seq<char>, b: Seq<char>) -> Seq<Seq<char>> {
    if text_lt(a, b) {
        seq![a, b]
    } else {
        seq![b, a]
    }
}

/// The pairs of archive `i` with archives `i+1 .. m`, each with the class.
pub open spec fn row_events(class: Seq<char>, files: Seq<Seq<char>>, i: int, m: int) -> Seq<
    (Seq<Seq<char>>, Seq<char>),
>
    decreases m - i,
{
    if m <= i + 1 {
        Seq::empty()
    } else {
        row_events(class, files, i, m - 1).push((pair_key(files[i], files[m - 1]), class))
    }
}

/// The pairs `(i, j)`, `i < j`, of the first `n` rows of archives.
pub open spec fn rows_events(class: Seq<char>, files: Seq<Seq<char>>, n: int) -> Seq<
    (Seq<Seq<char>>, Seq<char>),
>
    decreases n,
{
    if n <= 0 {
        Seq::empty()
    } else {
        rows_events(class, files, n - 1) + row_events(class, files, n - 1, files.len() as int)
    }
}

/// Every pair of archives that share a class, with the class, duplicate by
/// duplicate.
pub open spec fn conflict_events(d: Seq<(Seq<char>, Seq<Seq<char>>)>) -> Seq<(Seq<Seq<char>>, Seq<char>)>
    decreases d.len(),
{
    if d.len() == 0 {
        Seq::empty()
    } else {
        let e = d.last();
        conflict_events(d.drop_last()) + rows_events(e.0, e.1, e.1.len() as int)
    }
}

/// The classpath conflicts: each pair of archives that share classes, in
/// order, with the classes they share.
pub fn conflict_pairs(entries: &[DupEntry]) -> (r: Vec<Group>)
    ensures
        groups_view(r@) == grouped(conflict_events(dup_view(entries@))),
{
    let ghost d = dup_view(entries@);
    let mut out: Vec<Group> = Vec::new();
    let mut e: usize = 0;
    proof {
        assert(d.take(0) =~= Seq::<(Seq<char>, Seq<Seq<char>>)>::empty());
    }
    while e < entries.len()
        invariant
            e <= entries@.len(),
            d == dup_view(entries@),
            groups_view(out@) == grouped(conflict_events(d.take(e as int))),
        decreases entries@.len() - e,
    {
        let entry = &entries[e];
        let ghost class = entry.class_name@;
        let ghost files = views(entry.files@);
        let ghost base = conflict_events(d.take(e as int));
        let n = entry.files.len();
        let mut i: usize = 0;
        proof {
            assert(base + rows_events(class, files, 0) =~= base);
        }
        while i < n
            invariant
                n == entry.files@.len(),
                files == views(entry.files@),
                class == entry.class_name@,
                i <= n,
                groups_view(out@) == grouped(base + rows_events(class, files, i as int)),
            decreases n - i,
        {
            let mut j: usize = i + 1;
            proof {
                assert(rows_events(class, files, i as int) + row_events(class, files, i as int, j as int)
                    =~= rows_events(class, files, i as int));
            }
            while j < n
                invariant
                    n == entry.files@.len(),
                    files == views(entry.files@),
                    class == entry.class_name@,
                    i < j <= n,
                    groups_view(out@) == grouped(
                        base + (rows_events(class, files, i as int) + row_events(class, files, i as int, j as int)),
                    ),
                decreases n - j,
            {
                let a = &entry.files[i];
                let b = &entry.files[j];
                let mut key: Vec<String> = Vec::new();
                if text_less(a.as_str(), b.as_str()) {
                    key.push(owned(a.as_str()));
                    key.push(owned(b.as_str()));
                } else {
                    key.push(owned(b.as_str()));
                    key.push(owned(a.as_str()));
                }
                proof {
                    assert(files[i as int] == a@ && files[j as int] == b@);
                    assert(views(key@) =~= pair_key(a@, b@));
                }
                add_to_group(&mut out, &key, entry.class_name.as_str());
                proof {
                    let s = base + (rows_events(class, files, i as int) + row_events(class, files, i as int, j + 1));
                    assert(s.drop_last() =~= base + (rows_events(class, files, i as int) + row_events(
                        class,
                        files,
                        i as int,
                        j as int,
                    )));
                    assert(s.last() == (pair_key(files[i as int], files[j as int]), class));
                }
                j = j + 1;
            }
            proof {
                assert(rows_events(class, files, i + 1) == rows_events(class, files, i as int)
                    + row_events(class, files, i as int, files.len() as int));
            }
            i = i + 1;
        }
        proof {
            let t = d.take(e + 1);
            assert(t.drop_last() =~= d.take(e as int));
            assert(t.last() == (class, files));
        }
        e = e + 1;
    }
    proof {
        assert(d.take(d.len() as int) =~= d);
    }
    out
}

/// One line per item: `prefix`, the item, a line break.
pub open spec fn lines(prefix: Seq<char>, items: Seq<Seq<char>>) -> Seq<char>
    decreases items.len(),
{
    if items.len() == 0 {
        Seq::empty()
    } else {
        lines(prefix, items.drop_last()) + prefix + items.last() + "\n"@
    }
}

/// Appends one line per item.
pub fn push_lines(out: &mut String, prefix: &str, items: &Vec<String>)
    ensures
        final(out)@ == old(out)@ + lines(prefix@, views(items@)),
{
    let ghost start = out@;
    let mut i: usize = 0;
    proof {
        assert(views(items@.take(0)) =~= Seq::<Seq<char>>::empty());
        assert(out@ =~= start + lines(prefix@, views(items@.take(0))));
    }
    while i < items.len()
        invariant
            i <= items@.len(),
            out@ == start + lines(prefix@, views(items@.take(i as int))),
        decreases items@.len() - i,
    {
        push_str(out, prefix);
        push_str(out, items[i].as_str());
        push_str(out, "\n");
        proof {
            let t = views(items@.take(i + 1));
            assert(t.drop_last() =~= views(items@.take(i as int)));
            assert(t.last() == items@[i as int]@);
            assert(out@ =~= start + lines(prefix@, t));
        }
        i = i + 1;
    }
    proof {
        assert(items@.take(items@.len() as int) =~= items@);
    }
}

/// `singular` for one, `plural` otherwise.
pub open spec fn plural_text(n: nat, singular: Seq<char>, plural: Seq<char>) -> Seq<char> {
    if n == 1 {
        singular
    } else {
        plural
    }
}

/// The report of one conflict: the two archives, how many classes they
/// share, the classes, and a blank line.
pub open spec fn conflict_block(g: (Seq<Seq<char>>, Seq<Seq<char>>)) -> Seq<char> {
    lines("  "@, g.0) + "  ── "@ + decimal(g.1.len()) + " shared "@ + plural_text(
        g.1.len(),
        "class"@,
        "classes"@,
    ) + " ──\n"@ + lines("    "@, g.1) + "\n"@
}

/// The reports of a list of conflicts, in order.
pub open spec fn conflict_blocks(gs: Seq<(Seq<Seq<char>>, Seq<Seq<char>>)>) -> Seq<char>
    decreases gs.len(),
{
    if gs.len() == 0 {
        Seq::empty()
    } else {
        conflict_blocks(gs.drop_last()) + conflict_block(gs.last())
    }
}

/// The conflicts report: nothing when there are none, otherwise a heading,
/// a blank line and each conflict.
pub open spec fn conflicts_report(gs: Seq<(Seq<Seq<char>>, Seq<Seq<char>>)>) -> Seq<char> {
    if gs.len() == 0 {
        Seq::empty()
    } else {
        "── Classpath Conflicts ──\n\n"@ + conflict_blocks(gs)
    }
}

/// Appends the report of one conflict.
fn push_conflict_block(out: &mut String, grp: &Group)
    ensures
        final(out)@ == old(out)@ + conflict_block((views(grp.key@), views(grp.members@))),
{
    let n = grp.members.len();
    push_lines(out, "  ", &grp.key);
    push_str(out, "  ── ");
    push_decimal(out, n as u64);
    push_str(out, " shared ");
    if n == 1 {
        push_str(out, "class");
    } else {
        push_str(out, "classes");
    }
    push_str(out, " ──\n");
    push_lines(out, "    ", &grp.members);
    push_str(out, "\n");
}

/// The text of the classpath conflicts between archives.
pub fn conflicts_text(entries: &[DupEntry]) -> (r: String)
    ensures
        r@ == conflicts_report(grouped(conflict_events(dup_view(entries@)))),
{
    let gs = conflict_pairs(entries);
    let ghost g = groups_view(gs@);
    let mut out = String::new();
    if gs.len() == 0 {
        proof {
            assert(out@ =~= Seq::<char>::empty());
        }
        return out;
    }
    push_str(&mut out, "── Classpath Conflicts ──\n\n");
    let ghost start = out@;
    let mut i: usize = 0;
    proof {
        assert(g.take(0) =~= Seq::<(Seq<Seq<char>>, Seq<Seq<char>>)>::empty());
        assert(out@ =~= start + conflict_blocks(g.take(0)));
    }
    while i < gs.len()
        invariant
            i <= gs@.len(),
            g == groups_view(gs@),
            out@ == start + conflict_blocks(g.take(i as int)),
        decreases gs@.len() - i,
    {
        let grp = &gs[i];
        push_conflict_block(&mut out, grp);
        proof {
            let t = g.take(i + 1);
            assert(t.drop_last() =~= g.take(i as int));
            assert(t.last() == (views(grp.key@), views(grp.members@)));
            assert(out@ =~= start + conflict_blocks(t));
        }
        i = i + 1;
    }
    proof {
        assert(g.take(g.len() as int) =~= g);
    }
    out
}

/// The report of one duplicate by class: the class, how many archives hold
/// it, and the archives.
pub open spec fn by_class_block(d: (Seq<char>, Seq<Seq<char>>)) -> Seq<char> {
    "  "@ + d.0 + "  (in "@ + decimal(d.1.len()) + " "@ + plural_text(d.1.len(), "JAR"@, "JARs"@)
        + ")\n"@ + lines("    "@, d.1)
}

/// The reports of a list of duplicates, in order.
pub open spec fn by_class_report(ds: Seq<(Seq<char>, Seq<Seq<char>>)>) -> Seq<char>
    decreases ds.len(),
{
    if ds.len() == 0 {
        Seq::empty()
    } else {
        by_class_report(ds.drop_last()) + by_class_block(ds.last())
    }
}

/// The text of the duplicates, class by class.
pub fn by_class_text(entries: &[DupEntry]) -> (r: String)
    ensures
        r@ == by_class_report(dup_view(entries@)),
{
    let ghost d = dup_view(entries@);
    let mut out = String::new();
    let mut i: usize = 0;
    proof {
        assert(d.take(0) =~= Seq::<(Seq<char>, Seq<Seq<char>>)>::empty());
        assert(out@ =~= by_class_report(d.take(0)));
    }
    while i < entries.len()
        invariant
            i <= entries@.len(),
            d == dup_view(entries@),
            out@ == by_class_report(d.take(i as int)),
        decreases entries@.len() - i,
    {
        let e = &entries[i];
        let n = e.files.len();
        push_str(&mut out, "  ");
        push_str(&mut out, e.class_name.as_str());
        push_str(&mut out, "  (in ");
        push_decimal(&mut out, n as u64);
        push_str(&mut out, " ");
        if n == 1 {
            push_str(&mut out, "JAR");
        } else {
            push_str(&mut out, "JARs");
        }
        push_str(&mut out, ")\n");
        push_lines(&mut out, "    ", &e.files);
        proof {
            let t = d.take(i + 1);
            assert(t.drop_last() =~= d.take(i as int));
            assert(t.last() == (e.class_name@, views(e.files@)));
            assert(out@ =~= by_class_report(t));
        }
        i = i + 1;
    }
    proof {
        assert(d.take(d.len() as int) =~= d);
    }
    out
}

/// The archives of all duplicates, duplicate by duplicate.
pub open spec fn all_files(ds: Seq<(Seq<char>, Seq<Seq<char>>)>) -> Seq<Seq<char>>
    decreases ds.len(),
{
    if ds.len() == 0 {
        Seq::empty()
    } else {
        all_files(ds.drop_last()) + ds.last().1
    }
}

/// The items of `v` without repeats, each where it first occurs.
pub open spec fn distinct(v: Seq<Seq<char>>) -> Seq<Seq<char>>
    decreases v.len(),
{
    if v.len() == 0 {
        Seq::empty()
    } else {
        let prev = distinct(v.drop_last());
        if prev.contains(v.last()) {
            prev
        } else {
            prev.push(v.last())
        }
    }
}

/// How many different archives hold a duplicate class.
pub fn files_with_dupes(entries: &[DupEntry]) -> (r: usize)
    ensures
        r == distinct(all_files(dup_view(entries@))).len(),
{
    let ghost d = dup_view(entries@);
    let mut seen: Vec<String> = Vec::new();
    let mut e: usize = 0;
    proof {
        assert(d.take(0) =~= Seq::<(Seq<char>, Seq<Seq<char>>)>::empty());
        assert(views(seen@) =~= distinct(all_files(d.take(0))));
    }
    while e < entries.len()
        invariant
            e <= entries@.len(),
            d == dup_view(entries@),
            views(seen@) == distinct(all_files(d.take(e as int))),
        decreases entries@.len() - e,
    {
        let files = &entries[e].files;
        let ghost base = all_files(d.take(e as int));
        let mut i: usize = 0;
        proof {
            assert(base + views(files@).take(0) =~= base);
        }
        while i < files.len()
            invariant
                i <= files@.len(),
                views(seen@) == distinct(base + views(files@).take(i as int)),
            decreases files@.len() - i,
        {
            let ghost vs = views(seen@);
            let mut k: usize = 0;
            let mut found = false;
            while k < seen.len() && !found
                invariant
                    k <= seen@.len(),
                    i < files@.len(),
                    vs == views(seen@),
                    found ==> vs.contains(files@[i as int]@),
                    !found ==> forall|q: int| 0 <= q < k ==> vs[q] != files@[i as int]@,
                decreases seen@.len() - k,
            {
                if crate::text::str_eq(seen[k].as_str(), files[i].as_str()) {
                    found = true;
                    proof {
                        assert(vs[k as int] == files@[i as int]@);
                    }
                }
                k = k + 1;
            }
            proof {
                let s = base + views(files@).take(i + 1);
                assert(s.drop_last() =~= base + views(files@).take(i as int));
                assert(s.last() == files@[i as int]@);
            }
            if !found {
                seen.push(owned(files[i].as_str()));
                proof {
                    assert(views(seen@) =~= vs.push(files@[i as int]@));
                }
            }
            i = i + 1;
        }
        proof {
            assert(views(files@).take(files@.len() as int) =~= views(files@));
            let t = d.take(e + 1);
            assert(t.drop_last() =~= d.take(e as int));
            assert(t.last().1 == views(files@));
        }
        e = e + 1;
    }
    proof {
        assert(d.take(d.len() as int) =~= d);
    }
    seen.len()
}

/// The summary line of the duplicate count.
pub open spec fn count_report(classes: nat, files: nat) -> Seq<char> {
    "Found "@ + decimal(classes) + " duplicate classes across "@ + decimal(files) + " JAR files.\n"@
}

/// The summary line: how many duplicate classes, across how many archives.
pub fn dupes_count_text(entries: &[DupEntry]) -> (r: String)
    ensures
        r@ == count_report(entries@.len(), distinct(all_files(dup_view(entries@))).len()),
{
    let files = files_with_dupes(entries);
    let mut out = owned("Found ");
    push_decimal(&mut out, entries.len() as u64);
    push_str(&mut out, " duplicate classes across ");
    push_decimal(&mut out, files as u64);
    push_str(&mut out, " JAR files.\n");
    out
}

/// The report of the duplicates in a text mode: the count line when asked
/// for, a notice when there are none, otherwise the duplicates by class or
/// the classpath conflicts.
pub open spec fn dupes_report(d: Seq<(Seq<char>, Seq<Seq<char>>)>, by_class: bool, count: bool) -> Seq<char> {
    if count {
        count_report(d.len(), distinct(all_files(d)).len())
    } else if d.len() == 0 {
        "No duplicate classes found.\n"@
    } else if by_class {
        by_class_report(d)
    } else {
        conflicts_report(grouped(conflict_events(d)))
    }
}

/// The text of the duplicates in a text mode.
pub fn dupes_text(entries: &[DupEntry], by_class: bool, count: bool) -> (r: String)
    ensures
        r@ == dupes_report(dup_view(entries@), by_class, count),
{
    if count {
        dupes_count_text(entries)
    } else if entries.len() == 0 {
        owned("No duplicate classes found.\n")
    } else if by_class {
        by_class_text(entries)
    } else {
        conflicts_text(entries)
    }
}

/// The items of `v` one after the other.
pub open spec fn concat_all(v: Seq<Seq<char>>) -> Seq<char>
    decreases v.len(),
{
    if v.len() == 0 {
        Seq::empty()
    } else {
        concat_all(v.drop_last()) + v.last()
    }
}

/// Appends the items of `v` one after the other.
pub fn push_all(out: &mut String, v: &Vec<String>)
    ensures
        final(out)@ == old(out)@ + concat_all(views(v@)),
{
    let ghost start = out@;
    let mut i: usize = 0;
    proof {
        assert(views(v@.take(0)) =~= Seq::<Seq<char>>::empty());
        assert(out@ =~= start + concat_all(views(v@.take(0))));
    }
    while i < v.len()
        invariant
            i <= v@.len(),
            out@ == start + concat_all(views(v@.take(i as int))),
        decreases v@.len() - i,
    {
        push_str(out, v[i].as_str());
        proof {
            let t = views(v@.take(i + 1));
            assert(t.drop_last() =~= views(v@.take(i as int)));
            assert(t.last() == v@[i as int]@);
            assert(out@ =~= start + concat_all(t));
        }
        i = i + 1;
    }
    proof {
        assert(v@.take(v@.len() as int) =~= v@);
    }
}

/// How a group is shown: its key on a line of its own in quiet mode,
/// otherwise the key followed by `sep`, then each member on its own line.
pub open spec fn group_block(g: (Seq<Seq<char>>, Seq<Seq<char>>), quiet: bool, sep: Seq<char>) -> Seq<char> {
    if quiet {
        "  "@ + concat_all(g.0) + "\n"@
    } else {
        "  "@ + concat_all(g.0) + sep + "\n"@ + lines("    "@, g.1)
    }
}

/// The blocks of a list of groups, in order.
pub open spec fn group_blocks(gs: Seq<(Seq<Seq<char>>, Seq<Seq<char>>)>, quiet: bool, sep: Seq<char>) -> Seq<char>
    decreases gs.len(),
{
    if gs.len() == 0 {
        Seq::empty()
    } else {
        group_blocks(gs.drop_last(), quiet, sep) + group_block(gs.last(), quiet, sep)
    }
}

/// The name line of an archive, when it has one.
pub open spec fn header_line(header: Option<Seq<char>>) -> Seq<char> {
    match header {
        Some(h) => h + ":\n"@,
        None => Seq::empty(),
    }
}

/// The report of one archive's results: nothing when there are none,
/// otherwise the archive's name line when there is one, then the groups.
pub open spec fn file_report(
    events: Seq<(Seq<Seq<char>>, Seq<char>)>,
    quiet: bool,
    sep: Seq<char>,
    header: Option<Seq<char>>,
) -> Seq<char> {
    if events.len() == 0 {
        Seq::empty()
    } else {
        header_line(header) + group_blocks(grouped(events), quiet, sep)
    }
}

/// Appends the blocks of the groups.
fn push_groups(out: &mut String, gs: &Vec<Group>, quiet: bool, sep: &str)
    ensures
        final(out)@ == old(out)@ + group_blocks(groups_view(gs@), quiet, sep@),
{
    let ghost g = groups_view(gs@);
    let ghost start = out@;
    let mut i: usize = 0;
    proof {
        assert(g.take(0) =~= Seq::<(Seq<Seq<char>>, Seq<Seq<char>>)>::empty());
        assert(out@ =~= start + group_blocks(g.take(0), quiet, sep@));
    }
    while i < gs.len()
        invariant
            i <= gs@.len(),
            g == groups_view(gs@),
            out@ == start + group_blocks(g.take(i as int), quiet, sep@),
        decreases gs@.len() - i,
    {
        push_str(out, "  ");
        push_all(out, &gs[i].key);
        if quiet {
            push_str(out, "\n");
        } else {
            push_str(out, sep);
            push_str(out, "\n");
            push_lines(out, "    ", &gs[i].members);
        }
        proof {
            let t = g.take(i + 1);
            assert(t.drop_last() =~= g.take(i as int));
            assert(t.last() == (views(gs@[i as int].key@), views(gs@[i as int].members@)));
            assert(out@ =~= start + group_blocks(t, quiet, sep@));
        }
        i = i + 1;
    }
    proof {
        assert(g.take(g.len() as int) =~= g);
    }
}

/// How a match is shown under its class: `tag: "value"`.
pub open spec fn match_line(m: (Seq<char>, Seq<char>, Seq<char>)) -> Seq<char> {
    m.1 + ": \""@ + m.2 + "\""@
}

/// The matches as (class key, line) events.
pub open spec fn grep_events(ms: Seq<(Seq<char>, Seq<char>, Seq<char>)>) -> Seq<(Seq<Seq<char>>, Seq<char>)> {
    ms.map_values(|m: (Seq<char>, Seq<char>, Seq<char>)| (seq![m.0], match_line(m)))
}

/// The text of one archive's constant pool matches: grouped by class file,
/// class files in order; only the class files in quiet mode. `header` is
/// the archive's name, shown when several archives are searched.
pub fn grep_report(matches: &[GrepMatch], quiet: bool, header: Option<&str>) -> (r: String)
    ensures
        r@ == file_report(
            grep_events(grep_view(matches@)),
            quiet,
            ":"@,
            match header {
                Some(h) => Some(h@),
                None => None,
            },
        ),
{
    let ghost ev = grep_events(grep_view(matches@));
    let mut out = String::new();
    if matches.len() == 0 {
        proof {
            assert(out@ =~= Seq::<char>::empty());
        }
        return out;
    }
    match header {
        Some(h) => {
            push_str(&mut out, h);
            push_str(&mut out, ":\n");
        },
        None => {},
    }
    let ghost start = out@;
    let mut gs: Vec<Group> = Vec::new();
    let mut i: usize = 0;
    proof {
        assert(ev.take(0) =~= Seq::<(Seq<Seq<char>>, Seq<char>)>::empty());
    }
    while i < matches.len()
        invariant
            i <= matches@.len(),
            ev == grep_events(grep_view(matches@)),
            groups_view(gs@) == grouped(ev.take(i as int)),
        decreases matches@.len() - i,
    {
        let m = &matches[i];
        let mut key: Vec<String> = Vec::new();
        key.push(owned(m.class_file.as_str()));
        let mut line = owned(m.pool_tag.as_str());
        push_str(&mut line, ": \"");
        push_str(&mut line, m.value.as_str());
        push_str(&mut line, "\"");
        proof {
            assert(views(key@) =~= seq![m.class_file@]);
            assert(line@ == match_line((m.class_file@, m.pool_tag@, m.value@)));
        }
        add_to_group(&mut gs, &key, line.as_str());
        proof {
            let t = ev.take(i + 1);
            assert(t.drop_last() =~= ev.take(i as int));
            assert(t.last() == (views(key@), line@));
        }
        i = i + 1;
    }
    proof {
        assert(ev.take(ev.len() as int) =~= ev);
    }
    push_groups(&mut out, &gs, quiet, ":");
    proof {
        reveal_strlit(":");
    }
    out
}

/// The targets as (mixin class key, target) events.
pub open spec fn mixin_events(ms: Seq<(Seq<char>, Seq<char>)>) -> Seq<(Seq<Seq<char>>, Seq<char>)> {
    ms.map_values(|m: (Seq<char>, Seq<char>)| (seq![m.0], m.1))
}

/// The text of one archive's mixin targets: grouped by mixin class, classes
/// in order; only the classes in quiet mode. `header` is the archive's name,
/// shown when several archives are read.
pub fn mixins_report(entries: &[MixinEntry], quiet: bool, header: Option<&str>) -> (r: String)
    ensures
        r@ == file_report(
            mixin_events(mixin_view(entries@)),
            quiet,
            " ->"@,
            match header {
                Some(h) => Some(h@),
                None => None,
            },
        ),
{
    let ghost ev = mixin_events(mixin_view(entries@));
    let mut out = String::new();
    if entries.len() == 0 {
        proof {
            assert(out@ =~= Seq::<char>::empty());
        }
        return out;
    }
    match header {
        Some(h) => {
            push_str(&mut out, h);
            push_str(&mut out, ":\n");
        },
        None => {},
    }
    let mut gs: Vec<Group> = Vec::new();
    let mut i: usize = 0;
    proof {
        assert(ev.take(0) =~= Seq::<(Seq<Seq<char>>, Seq<char>)>::empty());
    }
    while i < entries.len()
        invariant
            i <= entries@.len(),
            ev == mixin_events(mixin_view(entries@)),
            groups_view(gs@) == grouped(ev.take(i as int)),
        decreases entries@.len() - i,
    {
        let m = &entries[i];
        let mut key: Vec<String> = Vec::new();
        key.push(owned(m.mixin_class.as_str()));
        proof {
            assert(views(key@) =~= seq![m.mixin_class@]);
        }
        add_to_group(&mut gs, &key, m.target.as_str());
        proof {
            let t = ev.take(i + 1);
            assert(t.drop_last() =~= ev.take(i as int));
            assert(t.last() == (views(key@), m.target@));
        }
        i = i + 1;
    }
    proof {
        assert(ev.take(ev.len() as int) =~= ev);
    }
    push_groups(&mut out, &gs, quiet, " ->");
    proof {
        reveal_strlit(" ->");
    }
    out
}

/// The notice when a search found nothing in any archive.
pub open spec fn no_matches_report(pattern: Seq<char>, files: nat) -> Seq<char> {
    "No matches found for pattern \""@ + pattern + "\" in "@ + decimal(files) + " file(s).\n"@
}

/// The notice when a search found nothing in any of `files` archives.
pub fn no_matches_text(pattern: &str, files: usize) -> (r: String)
    ensures
        r@ == no_matches_report(pattern@, files as nat),
{
    let mut out = owned("No matches found for pattern \"");
    push_str(&mut out, pattern);
    push_str(&mut out, "\" in ");
    push_decimal(&mut out, files as u64);
    push_str(&mut out, " file(s).\n");
    out
}

/// How a listed class is shown: name, Java version and access flags.
pub open spec fn class_line(c: (Seq<char>, Seq<char>, Seq<Seq<char>>)) -> Seq<char> {
    "  "@ + c.0 + "  Java "@ + c.1 + "  "@ + join(c.2, " "@) + "\n"@
}

/// The lines of a list of classes, in order.
pub open spec fn class_lines(v: Seq<(Seq<char>, Seq<char>, Seq<Seq<char>>)>) -> Seq<char>
    decreases v.len(),
{
    if v.len() == 0 {
        Seq::empty()
    } else {
        class_lines(v.drop_last()) + class_line(v.last())
    }
}

/// The text of one archive's class listing: the archive's name line when
/// there is one, then one line per class.
pub fn classes_report(entries: &[ClassEntry], header: Option<&str>) -> (r: String)
    ensures
        r@ == header_line(
            match header {
                Some(h) => Some(h@),
                None => None,
            },
        ) + class_lines(class_entries_view(entries@)),
{
    let mut out = String::new();
    match header {
        Some(h) => {
            push_str(&mut out, h);
            push_str(&mut out, ":\n");
        },
        None => {},
    }
    let ghost start = out@;
    let ghost v = class_entries_view(entries@);
    let mut i: usize = 0;
    proof {
        assert(v.take(0) =~= Seq::<(Seq<char>, Seq<char>, Seq<Seq<char>>)>::empty());
        assert(out@ =~= start + class_lines(v.take(0)));
    }
    while i < entries.len()
        invariant
            i <= entries@.len(),
            v == class_entries_view(entries@),
            out@ == start + class_lines(v.take(i as int)),
        decreases entries@.len() - i,
    {
        let e = &entries[i];
        let flags = join_strings(&e.access_flags, " ");
        push_str(&mut out, "  ");
        push_str(&mut out, e.name.as_str());
        push_str(&mut out, "  Java ");
        push_str(&mut out, e.java_version.as_str());
        push_str(&mut out, "  ");
        push_str(&mut out, flags.as_str());
        push_str(&mut out, "\n");
        proof {
            let t = v.take(i + 1);
            assert(t.drop_last() =~= v.take(i as int));
            assert(t.last() == (e.name@, e.java_version@, views(e.access_flags@)));
            assert(out@ =~= start + class_lines(t));
        }
        i = i + 1;
    }
    proof {
        assert(v.take(v.len() as int) =~= v);
        match header {
            Some(h) => assert(start == h@ + ":\n"@),
            None => assert(start =~= Seq::<char>::empty()),
        }
    }
    out
}

} // verus!
