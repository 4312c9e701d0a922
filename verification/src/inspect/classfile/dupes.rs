//! Classes that occur in more than one archive.

use vstd::prelude::*;

use crate::error::Error;
use crate::inspect::archive::{file_name, file_name_of};
use crate::inspect::classfile::{class_entry_names, class_names};
use crate::inspect::jar::{read_entries, zip_listing};
use crate::inspect::grouping::copy_strings;
use std::collections::HashMap;

use crate::text::{chars_of, owned, str_eq, views};

verus! {

/// A class and the archives (by file name) that hold it.
#[derive(Debug, Clone, PartialEq, Eq)]
pub struct DupEntry {
    pub class_name: String,
    pub files: Vec<String>,
}

/// An archive given by its path and its bytes.
#[derive(Debug, Clone, PartialEq, Eq)]
pub struct JarFile {
    pub path: String,
    pub data: Vec<u8>,
}

/// How an archive is named in the report: the file name of its path, or
/// the whole path when it has none.
pub open spec fn jar_label(path: Seq<char>) -> Seq<char> {
    match file_name(path) {
        Some(f) => f,
        None => path,
    }
}

/// Each class file of the archives that list, with the label of its archive,
/// archive by archive and in archive order.
pub open spec fn occurrences(jars: Seq<JarFile>) -> Seq<(Seq<char>, Seq<char>)>
    decreases jars.len(),
{
    if jars.len() == 0 {
        Seq::empty()
    } else {
        let j = jars.last();
        occurrences(jars.drop_last()) + match zip_listing(j.data@) {
            Some(es) => class_names(es).map_values(|c: Seq<char>| (c, jar_label(j.path@))),
            None => Seq::empty(),
        }
    }
}

/// The position of the group of class `c`, or -1.
pub open spec fn group_pos(g: Seq<(Seq<char>, Seq<Seq<char>>)>, c: Seq<char>) -> int
    decreases g.len(),
{
    if g.len() == 0 {
        -1
    } else if g[0].0 == c {
        0
    } else {
        let r = group_pos(g.drop_first(), c);
        if r < 0 {
            -1
        } else {
            r + 1
        }
    }
}

/// Records that class `o.0` occurs in archive `o.1`.
pub open spec fn add_occurrence(g: Seq<(Seq<char>, Seq<Seq<char>>)>, o: (Seq<char>, Seq<char>)) -> Seq<
    (Seq<char>, Seq<Seq<char>>),
> {
    let k = group_pos(g, o.0);
    if 0 <= k < g.len() {
        g.update(k, (o.0, g[k].1.push(o.1)))
    } else {
        g.push((o.0, seq![o.1]))
    }
}

/// The occurrences grouped by class, classes in order of first occurrence,
/// archives in order of occurrence.
pub open spec fn groups(occ: Seq<(Seq<char>, Seq<char>)>) -> Seq<(Seq<char>, Seq<Seq<char>>)>
    decreases occ.len(),
{
    if occ.len() == 0 {
        Seq::empty()
    } else {
        add_occurrence(groups(occ.drop_last()), occ.last())
    }
}

/// The groups with more than one archive, in order.
pub open spec fn shared(g: Seq<(Seq<char>, Seq<Seq<char>>)>) -> Seq<(Seq<char>, Seq<Seq<char>>)>
    decreases g.len(),
{
    if g.len() == 0 {
        Seq::empty()
    } else {
        let prev = shared(g.drop_last());
        if g.last().1.len() > 1 {
            prev.push(g.last())
        } else {
            prev
        }
    }
}

/// Each duplicate as (class, archives).
pub open spec fn dup_view(v: Seq<DupEntry>) -> Seq<(Seq<char>, Seq<Seq<char>>)> {
    v.map_values(|d: DupEntry| (d.class_name@, views(d.files@)))
}

proof fn lemma_group_pos(g: Seq<(Seq<char>, Seq<Seq<char>>)>, c: Seq<char>)
    ensures
        -1 <= group_pos(g, c) < g.len(),
        group_pos(g, c) >= 0 ==> g[group_pos(g, c)].0 == c,
        group_pos(g, c) < 0 ==> forall|j: int| 0 <= j < g.len() ==> g[j].0 != c,
    decreases g.len(),
{
    if g.len() > 0 {
        lemma_group_pos(g.drop_first(), c);
        assert forall|j: int| 0 < j < g.len() implies g[j] == g.drop_first()[j - 1] by {}
    }
}

/// The FNV-1a hash of a text's characters: the index key of a class name.
pub open spec fn text_hash(s: Seq<char>) -> u64
    decreases s.len(),
{
    if s.len() == 0 {
        0xcbf2_9ce4_8422_2325u64
    } else {
        (((text_hash(s.drop_last()) ^ (s.last() as u32 as u64)) as nat * 0x0000_0100_0000_01b3nat)
            % 0x1_0000_0000_0000_0000nat) as u64
    }
}

/// The FNV-1a hash of a string's characters.
pub fn hash_text(t: &str) -> (r: u64)
    ensures
        r == text_hash(t@),
{
    let cs = chars_of(t);
    let mut h: u64 = 0xcbf2_9ce4_8422_2325u64;
    let mut i: usize = 0;
    while i < cs.len()
        invariant
            i <= cs@.len(),
            cs@ == t@,
            h == text_hash(cs@.take(i as int)),
        decreases cs@.len() - i,
    {
        proof {
            assert(cs@.take(i + 1).drop_last() =~= cs@.take(i as int));
            assert(cs@.take(i + 1).last() == cs@[i as int]);
        }
        h = (h ^ (cs[i] as u32 as u64)).wrapping_mul(0x0000_0100_0000_01b3u64);
        i = i + 1;
    }
    proof {
        assert(cs@.take(cs@.len() as int) =~= cs@);
    }
    h
}

/// The index of the groups by class-name hash: every group is listed under
/// the hash of its class, and every listed position is a group with that hash.
pub open spec fn index_ok(index: Map<u64, Vec<usize>>, groups: Seq<DupEntry>) -> bool {
    &&& forall|k: int|
        0 <= k < groups.len() ==> {
            let h = text_hash(#[trigger] groups[k].class_name@);
            index.contains_key(h) && index[h]@.contains(k as usize)
        }
    &&& forall|h: u64, j: int|
        index.contains_key(h) && 0 <= j < index[h]@.len() ==> {
            let k = #[trigger] index[h]@[j];
            k < groups.len() && text_hash(groups[k as int].class_name@) == h
        }
}

/// Whether no two groups are for the same class.
pub open spec fn distinct_classes(groups: Seq<DupEntry>) -> bool {
    forall|i: int, j: int|
        0 <= i < j < groups.len() ==> #[trigger] groups[i].class_name@ != #[trigger] groups[j].class_name@
}

/// Records in `groups` that class `class` occurs in archive `file`, keeping
/// the hash index of the groups.
fn add_indexed(groups: &mut Vec<DupEntry>, index: &mut HashMap<u64, Vec<usize>>, class: &str, file: &str)
    requires
        index_ok(old(index)@, old(groups)@),
        distinct_classes(old(groups)@),
    ensures
        index_ok(final(index)@, final(groups)@),
        distinct_classes(final(groups)@),
        dup_view(final(groups)@) == add_occurrence(dup_view(old(groups)@), (class@, file@)),
{
    broadcast use vstd::std_specs::hash::group_hash_axioms;
    let ghost g = dup_view(groups@);
    proof {
        lemma_group_pos(g, class@);
    }
    let h = hash_text(class);
    let found: Option<usize> = match index.get(&h) {
        Some(bucket) => {
            let mut j: usize = 0;
            let mut hit: Option<usize> = None;
            while j < bucket.len() && hit.is_none()
                invariant
                    j <= bucket@.len(),
                    index@.contains_key(h) && index@[h] == *bucket,
                    index_ok(index@, groups@),
                    g == dup_view(groups@),
                    hit matches Some(k) ==> k < groups@.len() && groups@[k as int].class_name@ == class@,
                    hit is None ==> forall|p: int| 0 <= p < j ==> groups@[#[trigger] bucket@[p] as int].class_name@ != class@,
                decreases bucket@.len() - j,
            {
                let k = bucket[j];
                proof {
                    assert(k < groups@.len());
                }
                if str_eq(groups[k].class_name.as_str(), class) {
                    hit = Some(k);
                }
                j = j + 1;
            }
            hit
        },
        None => None,
    };
    match found {
        Some(k) => {
            proof {
                assert(g[k as int].0 == class@);
                if group_pos(g, class@) != k {
                    assert(g[group_pos(g, class@)].0 == class@);
                }
            }
            let ghost before = groups@;
            let f = owned(file);
            groups[k].files.push(f);
            proof {
                assert forall|i: int, j: int| 0 <= i < j < g.len() implies #[trigger] g[i].0 != #[trigger] g[j].0 by {
                    assert(g[i].0 == before[i].class_name@ && g[j].0 == before[j].class_name@);
                }
                lemma_group_pos_first(g, class@, k as int);
                assert(groups@[k as int].class_name == before[k as int].class_name);
                assert(views(groups@[k as int].files@) =~= g[k as int].1.push(file@));
                assert forall|j: int| 0 <= j < groups@.len() && j != k implies groups@[j] == before[j] by {}
                assert(dup_view(groups@) =~= g.update(k as int, (class@, g[k as int].1.push(file@))));
                assert forall|q: int| 0 <= q < groups@.len() implies #[trigger] groups@[q].class_name@ == before[q].class_name@ by {}
            }
        },
        None => {
            proof {
                if group_pos(g, class@) >= 0 {
                    let q = group_pos(g, class@);
                    assert(groups@[q].class_name@ == class@);
                    assert(index@.contains_key(h) && index@[h]@.contains(q as usize));
                    let p = choose|p: int| 0 <= p < index@[h]@.len() && index@[h]@[p] == q as usize;
                    assert(groups@[index@[h]@[p] as int].class_name@ != class@);
                }
            }
            let ghost before = groups@;
            let k = groups.len();
            let mut files: Vec<String> = Vec::new();
            files.push(owned(file));
            groups.push(DupEntry { class_name: owned(class), files });
            let mut bucket: Vec<usize> = match index.remove(&h) {
                Some(b) => b,
                None => Vec::new(),
            };
            let ghost old_bucket = bucket@;
            bucket.push(k);
            index.insert(h, bucket);
            proof {
                assert(views(files@) =~= seq![file@]);
                assert(dup_view(groups@) =~= g.push((class@, seq![file@])));
                assert forall|i: int, j: int| 0 <= i < j < groups@.len() implies #[trigger] groups@[i].class_name@
                    != #[trigger] groups@[j].class_name@ by {
                    if j == k {
                        assert(groups@[i] == before[i]);
                        assert(g[i].0 != class@);
                    } else {
                        assert(groups@[i] == before[i] && groups@[j] == before[j]);
                    }
                }
                assert forall|q: int| 0 <= q < groups@.len() implies {
                    let hq = text_hash(#[trigger] groups@[q].class_name@);
                    index@.contains_key(hq) && index@[hq]@.contains(q as usize)
                } by {
                    if q < k {
                        assert(groups@[q] == before[q]);
                        let hq = text_hash(before[q].class_name@);
                        if hq == h {
                            assert(old_bucket.contains(q as usize));
                            let p = choose|p: int| 0 <= p < old_bucket.len() && old_bucket[p] == q as usize;
                            assert(bucket@[p] == q as usize);
                        }
                    } else {
                        assert(bucket@[bucket@.len() - 1] == k);
                    }
                }
                assert forall|hh: u64, j: int| index@.contains_key(hh) && 0 <= j < index@[hh]@.len() implies {
                    let kk = #[trigger] index@[hh]@[j];
                    kk < groups@.len() && text_hash(groups@[kk as int].class_name@) == hh
                } by {
                    if hh == h {
                        if j < old_bucket.len() {
                            assert(bucket@[j] == old_bucket[j]);
                        }
                    }
                }
            }
        },
    }
}

proof fn lemma_group_pos_first(g: Seq<(Seq<char>, Seq<Seq<char>>)>, c: Seq<char>, k: int)
    requires
        0 <= k < g.len(),
        g[k].0 == c,
        forall|i: int, j: int| 0 <= i < j < g.len() ==> #[trigger] g[i].0 != #[trigger] g[j].0,
    ensures
        group_pos(g, c) == k,
{
    lemma_group_pos(g, c);
    if group_pos(g, c) != k {
        let q = group_pos(g, c);
        if q < k {
            assert(g[q].0 != g[k].0);
        } else {
            assert(g[k].0 != g[q].0);
        }
    }
}

/// The label of an archive path: its file name, or the whole path.
pub fn jar_label_of(path: &str) -> (r: String)
    ensures
        r@ == jar_label(path@),
{
    let cs = chars_of(path);
    match file_name_of(cs.as_slice()) {
        Some(f) => f,
        None => owned(path),
    }
}

/// The classes that occur in more than one of the archives, each with the
/// file names of the archives that hold it (in archive order), classes in
/// order of first occurrence. An archive that cannot be listed is a
/// `ZipCrawl` error.
pub fn find_duplicates(jars: &[JarFile]) -> (r: Result<Vec<DupEntry>, Error>)
    ensures
        match r {
            Ok(v) => (forall|i: int| 0 <= i < jars@.len() ==> (#[trigger] zip_listing(jars@[i].data@)) is Some)
                && dup_view(v@) == shared(groups(occurrences(jars@))),
            Err(e) => (exists|i: int| 0 <= i < jars@.len() && (#[trigger] zip_listing(jars@[i].data@)) is None)
                && e is ZipCrawl,
        },
{
    broadcast use vstd::std_specs::hash::group_hash_axioms;
    let mut all: Vec<DupEntry> = Vec::new();
    let mut index: HashMap<u64, Vec<usize>> = HashMap::new();
    let mut j: usize = 0;
    proof {
        assert(jars@.take(0) =~= Seq::<JarFile>::empty());
    }
    while j < jars.len()
        invariant
            j <= jars@.len(),
            index_ok(index@, all@),
            distinct_classes(all@),
            forall|i: int| 0 <= i < j ==> (#[trigger] zip_listing(jars@[i].data@)) is Some,
            dup_view(all@) == groups(occurrences(jars@.take(j as int))),
        decreases jars@.len() - j,
    {
        let jar = &jars[j];
        let entries = match read_entries(jar.data.as_slice()) {
            Ok(es) => es,
            Err(e) => {
                proof {
                    assert(zip_listing(jars@[j as int].data@) is None);
                }
                return Err(e);
            },
        };
        let label = jar_label_of(jar.path.as_str());
        let names = class_entry_names(entries.as_slice());
        let ghost occ_before = occurrences(jars@.take(j as int));
        let ghost mine = views(names@).map_values(|c: Seq<char>| (c, label@));
        let mut k: usize = 0;
        proof {
            assert(occ_before + mine.take(0) =~= occ_before);
        }
        while k < names.len()
            invariant
                k <= names@.len(),
                index_ok(index@, all@),
                distinct_classes(all@),
                mine == views(names@).map_values(|c: Seq<char>| (c, label@)),
                dup_view(all@) == groups(occ_before + mine.take(k as int)),
            decreases names@.len() - k,
        {
            add_indexed(&mut all, &mut index, names[k].as_str(), label.as_str());
            proof {
                let s = occ_before + mine.take(k + 1);
                assert(s.drop_last() =~= occ_before + mine.take(k as int));
                assert(s.last() == (names@[k as int]@, label@));
            }
            k = k + 1;
        }
        proof {
            assert(mine.take(mine.len() as int) =~= mine);
            let t = jars@.take(j + 1);
            assert(t.drop_last() =~= jars@.take(j as int));
            assert(t.last() == *jar);
            assert(label@ == jar_label(jar.path@));
            assert(mine =~= class_names(entries@).map_values(|c: Seq<char>| (c, jar_label(jar.path@))));
            assert(occurrences(t) == occ_before + mine);
        }
        j = j + 1;
    }
    proof {
        assert(jars@.take(jars@.len() as int) =~= jars@);
    }
    let ghost g = dup_view(all@);
    let mut out: Vec<DupEntry> = Vec::new();
    let mut i: usize = 0;
    let n = all.len();
    proof {
        assert(g.take(0) =~= Seq::<(Seq<char>, Seq<Seq<char>>)>::empty());
    }
    while i < n
        invariant
            n == all@.len(),
            i <= n,
            g == dup_view(all@),
            dup_view(out@) == shared(g.take(i as int)),
        decreases n - i,
    {
        proof {
            assert(g.take(i + 1).drop_last() =~= g.take(i as int));
            assert(g.take(i + 1).last() == g[i as int]);
        }
        if all[i].files.len() > 1 {
            let ghost before = out@;
            let d = DupEntry { class_name: owned(all[i].class_name.as_str()), files: copy_strings(&all[i].files) };
            out.push(d);
            proof {
                assert(dup_view(out@) =~= dup_view(before).push(g[i as int]));
            }
        }
        i = i + 1;
    }
    proof {
        assert(g.take(n as int) =~= g);
    }
    Ok(out)
}

/// The labels of the archives in which class `c` occurs, in order.
pub open spec fn labels_of(occ: Seq<(Seq<char>, Seq<char>)>, c: Seq<char>) -> Seq<Seq<char>>
    decreases occ.len(),
{
    if occ.len() == 0 {
        Seq::empty()
    } else {
        let prev = labels_of(occ.drop_last(), c);
        if occ.last().0 == c {
            prev.push(occ.last().1)
        } else {
            prev
        }
    }
}

proof fn lemma_groups_exact(occ: Seq<(Seq<char>, Seq<char>)>)
    ensures
        forall|i: int, j: int|
            0 <= i < j < groups(occ).len() ==> #[trigger] groups(occ)[i].0 != #[trigger] groups(occ)[j].0,
        forall|i: int|
            0 <= i < groups(occ).len() ==> #[trigger] groups(occ)[i].1 == labels_of(occ, groups(occ)[i].0),
        forall|c: Seq<char>|
            #[trigger] labels_of(occ, c).len() > 0 ==> exists|i: int|
                0 <= i < groups(occ).len() && groups(occ)[i].0 == c,
    decreases occ.len(),
{
    if occ.len() > 0 {
        let prev = occ.drop_last();
        let o = occ.last();
        lemma_groups_exact(prev);
        let g = groups(prev);
        let g2 = groups(occ);
        lemma_group_pos(g, o.0);
        let k = group_pos(g, o.0);
        if k >= 0 {
            assert(g2 == g.update(k, (o.0, g[k].1.push(o.1))));
            assert forall|i: int| 0 <= i < g2.len() implies #[trigger] g2[i].1 == labels_of(occ, g2[i].0) by {
                if i != k {
                    assert(g2[i] == g[i]);
                }
            }
            assert forall|c: Seq<char>| #[trigger] labels_of(occ, c).len() > 0 implies exists|i: int|
                0 <= i < g2.len() && g2[i].0 == c by {
                if c == o.0 {
                    assert(g2[k].0 == c);
                } else {
                    assert(labels_of(prev, c).len() > 0);
                    let i = choose|i: int| 0 <= i < g.len() && g[i].0 == c;
                    assert(g2[i].0 == c);
                }
            }
        } else {
            assert(g2 == g.push((o.0, seq![o.1])));
            if labels_of(prev, o.0).len() > 0 {
                let i = choose|i: int| 0 <= i < g.len() && g[i].0 == o.0;
                assert(false);
            }
            assert forall|i: int| 0 <= i < g2.len() implies #[trigger] g2[i].1 == labels_of(occ, g2[i].0) by {
                if i < g.len() {
                    assert(g2[i] == g[i]);
                } else {
                    assert(labels_of(prev, o.0) =~= Seq::<Seq<char>>::empty());
                    assert(labels_of(occ, o.0) =~= seq![o.1]);
                }
            }
            assert forall|c: Seq<char>| #[trigger] labels_of(occ, c).len() > 0 implies exists|i: int|
                0 <= i < g2.len() && g2[i].0 == c by {
                if c == o.0 {
                    assert(g2[g.len() as int].0 == c);
                } else {
                    assert(labels_of(prev, c).len() > 0);
                    let i = choose|i: int| 0 <= i < g.len() && g[i].0 == c;
                    assert(g2[i].0 == c);
                }
            }
        }
    }
}

proof fn lemma_shared_members(g: Seq<(Seq<char>, Seq<Seq<char>>)>)
    ensures
        forall|i: int| 0 <= i < shared(g).len() ==> exists|j: int| 0 <= j < g.len() && g[j] == #[trigger] shared(g)[i],
        forall|i: int| 0 <= i < shared(g).len() ==> (#[trigger] shared(g)[i]).1.len() > 1,
    decreases g.len(),
{
    if g.len() > 0 {
        let p = g.drop_last();
        lemma_shared_members(p);
        let sp = shared(p);
        let s2 = shared(g);
        assert forall|i: int| 0 <= i < s2.len() implies exists|j: int| 0 <= j < g.len() && g[j] == #[trigger] s2[i] by {
            if i < sp.len() {
                assert(s2[i] == sp[i]);
                let j = choose|j: int| 0 <= j < p.len() && p[j] == sp[i];
                assert(g[j] == p[j]);
            } else {
                assert(g[g.len() - 1] == s2[i]);
            }
        }
        assert forall|i: int| 0 <= i < s2.len() implies (#[trigger] s2[i]).1.len() > 1 by {
            if i < sp.len() {
                assert(s2[i] == sp[i]);
            }
        }
    }
}

proof fn lemma_shared_distinct(g: Seq<(Seq<char>, Seq<Seq<char>>)>)
    requires
        forall|i: int, j: int| 0 <= i < j < g.len() ==> #[trigger] g[i].0 != #[trigger] g[j].0,
    ensures
        forall|i: int, j: int|
            0 <= i < j < shared(g).len() ==> #[trigger] shared(g)[i].0 != #[trigger] shared(g)[j].0,
    decreases g.len(),
{
    if g.len() > 0 {
        let p = g.drop_last();
        assert forall|i: int, j: int| 0 <= i < j < p.len() implies #[trigger] p[i].0 != #[trigger] p[j].0 by {
            assert(p[i] == g[i] && p[j] == g[j]);
        }
        lemma_shared_distinct(p);
        lemma_shared_members(p);
        let sp = shared(p);
        let s2 = shared(g);
        assert forall|i: int, j: int| 0 <= i < j < s2.len() implies #[trigger] s2[i].0 != #[trigger] s2[j].0 by {
            assert(s2[i] == sp[i]);
            if j < sp.len() {
                assert(s2[j] == sp[j]);
            } else {
                let a = choose|a: int| 0 <= a < p.len() && p[a] == sp[i];
                assert(g[a] == p[a]);
                assert(s2[j] == g[g.len() - 1]);
            }
        }
    }
}

proof fn lemma_shared_covers(g: Seq<(Seq<char>, Seq<Seq<char>>)>)
    ensures
        forall|j: int| 0 <= j < g.len() && (#[trigger] g[j]).1.len() > 1 ==> exists|i: int|
            0 <= i < shared(g).len() && shared(g)[i] == g[j],
    decreases g.len(),
{
    if g.len() > 0 {
        let p = g.drop_last();
        lemma_shared_covers(p);
        let sp = shared(p);
        let s2 = shared(g);
        assert forall|j: int| 0 <= j < g.len() && (#[trigger] g[j]).1.len() > 1 implies exists|i: int|
            0 <= i < s2.len() && s2[i] == g[j] by {
            if j < p.len() {
                assert(p[j] == g[j]);
                let i = choose|i: int| 0 <= i < sp.len() && sp[i] == p[j];
                assert(s2[i] == sp[i]);
            } else {
                assert(s2[s2.len() - 1] == g[j]);
            }
        }
    }
}

/// Law: the duplicates are exactly the classes that occur more than once
/// across the archives: each such class is reported once, with the labels of
/// the archives that hold it, in order.
pub proof fn lemma_duplicates_exact(occ: Seq<(Seq<char>, Seq<char>)>)
    ensures
        forall|i: int, j: int|
            0 <= i < j < shared(groups(occ)).len() ==> #[trigger] shared(groups(occ))[i].0
                != #[trigger] shared(groups(occ))[j].0,
        forall|i: int|
            0 <= i < shared(groups(occ)).len() ==> {
                let d = #[trigger] shared(groups(occ))[i];
                d.1 == labels_of(occ, d.0) && d.1.len() > 1
            },
        forall|c: Seq<char>|
            #[trigger] labels_of(occ, c).len() > 1 ==> exists|i: int|
                0 <= i < shared(groups(occ)).len() && shared(groups(occ))[i].0 == c,
{
    let g = groups(occ);
    let s = shared(g);
    assert forall|i: int, j: int| 0 <= i < j < s.len() implies #[trigger] s[i].0 != #[trigger] s[j].0 by {
        lemma_groups_exact(occ);
        lemma_shared_distinct(g);
    }
    assert forall|i: int| 0 <= i < s.len() implies {
        let d = #[trigger] s[i];
        d.1 == labels_of(occ, d.0) && d.1.len() > 1
    } by {
        lemma_groups_exact(occ);
        lemma_shared_members(g);
        let j = choose|j: int| 0 <= j < g.len() && g[j] == s[i];
        assert(g[j].1 == labels_of(occ, g[j].0));
    }
    assert forall|c: Seq<char>| #[trigger] labels_of(occ, c).len() > 1 implies exists|i: int|
        0 <= i < s.len() && s[i].0 == c by {
        lemma_groups_exact(occ);
        lemma_shared_covers(g);
        let j = choose|j: int| 0 <= j < g.len() && g[j].0 == c;
        assert(g[j].1 == labels_of(occ, c));
        assert(g[j].1.len() > 1);
        let i = choose|i: int| 0 <= i < s.len() && s[i] == g[j];
        assert(s[i].0 == c);
    }
}

} // verus!
