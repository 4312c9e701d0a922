//! The loader of an in-memory archive, and of each archive of a stream of
//! concatenated archives.

use vstd::prelude::*;

use crate::error::Error;
use crate::inspect::archive::{entry_names, ZipEntry};
use crate::inspect::detect_mod_type::{detect_mod_type, detection_rules, first_rule_match, ModType};
use crate::inspect::jar::{archive_listing, read_entries, zip_listing};

verus! {

/// The loader detected from an archive listing.
pub open spec fn detected(entries: Seq<ZipEntry>) -> ModType {
    first_rule_match(detection_rules(), entry_names(entries))
}

/// Detect the mod/plugin type of an in-memory archive; an archive that
/// cannot be listed is a `ZipCrawl` error.
pub fn identify_reader(data: &[u8]) -> (r: Result<ModType, Error>)
    ensures
        match r {
            Ok(t) => zip_listing(data@) is Some && t == detected(zip_listing(data@)->0),
            Err(e) => zip_listing(data@) is None && e is ZipCrawl,
        },
{
    let entries = read_entries(data)?;
    Ok(detect_mod_type(entries.as_slice()))
}

/// Whether an end-of-central-directory signature (`PK\x05\x06`) starts at `i`.
pub open spec fn eocd_at(d: Seq<u8>, i: int) -> bool {
    &&& 0 <= i
    &&& i + 4 <= d.len()
    &&& d[i] == 0x50u8
    &&& d[i + 1] == 0x4bu8
    &&& d[i + 2] == 0x05u8
    &&& d[i + 3] == 0x06u8
}

/// Where the archive ends whose end record starts at `i`: after the record
/// and its comment, whose length is the little-endian `u16` at `i + 20`.
pub open spec fn archive_end(d: Seq<u8>, i: int) -> int {
    i + 22 + d[i + 20] as int + 256 * d[i + 21] as int
}

/// After looking at the first `k` positions: where the next archive starts
/// and the archives found, as byte ranges. An end record counts when it is
/// whole and its archive ends inside the data, after the previous one.
pub open spec fn scan_state(d: Seq<u8>, k: int) -> (int, Seq<(int, int)>)
    decreases k,
{
    if k <= 0 {
        (0, Seq::empty())
    } else {
        let (prev, found) = scan_state(d, k - 1);
        let i = k - 1;
        if eocd_at(d, i) && i + 22 <= d.len() && archive_end(d, i) <= d.len() && archive_end(d, i) > prev {
            (archive_end(d, i), found.push((prev, archive_end(d, i))))
        } else {
            (prev, found)
        }
    }
}

/// The byte ranges of the archives of a stream, in order.
pub open spec fn archive_ranges(d: Seq<u8>) -> Seq<(int, int)> {
    scan_state(d, d.len() as int).1
}

/// The loaders of the ranges that list as archives, in order.
pub open spec fn range_types(d: Seq<u8>, ranges: Seq<(int, int)>) -> Seq<ModType>
    decreases ranges.len(),
{
    if ranges.len() == 0 {
        Seq::empty()
    } else {
        let prev = range_types(d, ranges.drop_last());
        let (a, b) = ranges.last();
        match zip_listing(d.subrange(a, b)) {
            Some(es) => prev.push(detected(es)),
            None => prev,
        }
    }
}

/// What a stream of bytes holds: one archive, or the archives found by
/// splitting it after each end record.
#[derive(Debug, Clone, PartialEq, Eq)]
pub enum StreamScan {
    Whole(ModType),
    Chunks(Vec<ModType>),
}

/// Detect the loader of a stream: of the whole stream when it lists as an
/// archive, otherwise of each archive found by splitting it after each end
/// record (an archive that does not list is skipped).
pub fn scan_stream(data: &[u8]) -> (r: StreamScan)
    ensures
        match r {
            StreamScan::Whole(t) => zip_listing(data@) is Some && t == detected(zip_listing(data@)->0),
            StreamScan::Chunks(v) => zip_listing(data@) is None && v@ == range_types(
                data@,
                archive_ranges(data@),
            ),
        },
{
    if let Ok(t) = identify_reader(data) {
        return StreamScan::Whole(t);
    }
    let ghost d = data@;
    let n = data.len();
    let mut prev: usize = 0;
    let mut types: Vec<ModType> = Vec::new();
    let ghost mut found: Seq<(int, int)> = Seq::empty();
    let mut i: usize = 0;
    while i < n
        invariant
            n == d.len(),
            d == data@,
            i <= n,
            prev <= n,
            scan_state(d, i as int) == (prev as int, found),
            types@ == range_types(d, found),
            forall|q: int| 0 <= q < found.len() ==> 0 <= #[trigger] found[q].0 <= found[q].1 <= n,
        decreases n - i,
    {
        if n >= 22 && i <= n - 22 && data[i] == 0x50u8 && data[i + 1] == 0x4bu8 && data[i + 2] == 0x05u8
            && data[i + 3] == 0x06u8 {
            let comment: usize = data[i + 20] as usize + 256 * (data[i + 21] as usize);
            let room = n - (i + 22);
            if comment <= room && i + 22 + comment > prev {
                let end = i + 22 + comment;
                let chunk = vstd::slice::slice_subrange(data, prev, end);
                let ghost before = found;
                proof {
                    assert(archive_end(d, i as int) == end);
                    found = found.push((prev as int, end as int));
                    assert(found.drop_last() =~= before);
                    assert(chunk@ == d.subrange(prev as int, end as int));
                }
                match archive_listing(chunk) {
                    Ok(es) => {
                        types.push(detect_mod_type(es.as_slice()));
                    },
                    Err(_) => {},
                }
                proof {
                    assert(types@ =~= range_types(d, found));
                }
                prev = end;
            }
        }
        i = i + 1;
    }
    StreamScan::Chunks(types)
}

proof fn lemma_scan_tiles(d: Seq<u8>, k: int)
    ensures
        ({
            let (prev, found) = scan_state(d, k);
            &&& 0 <= prev <= d.len()
            &&& (found.len() == 0 ==> prev == 0)
            &&& (found.len() > 0 ==> found[0].0 == 0 && found.last().1 == prev)
            &&& forall|q: int| 0 <= q < found.len() ==> 0 <= #[trigger] found[q].0 < found[q].1 <= d.len()
            &&& forall|q: int| 0 <= q < found.len() - 1 ==> #[trigger] found[q].1 == found[q + 1].0
        }),
    decreases k,
{
    if k > 0 {
        lemma_scan_tiles(d, k - 1);
    }
}

/// Law: the archives found in a stream cover it from its start without gaps
/// or overlaps: the first starts at 0, each ends where the next starts, and
/// each is a non-empty range inside the stream.
pub proof fn lemma_archive_ranges_tile(d: Seq<u8>)
    ensures
        ({
            let rs = archive_ranges(d);
            &&& (rs.len() > 0 ==> rs[0].0 == 0)
            &&& forall|q: int| 0 <= q < rs.len() ==> 0 <= #[trigger] rs[q].0 < rs[q].1 <= d.len()
            &&& forall|q: int| 0 <= q < rs.len() - 1 ==> #[trigger] rs[q].1 == rs[q + 1].0
        }),
{
    lemma_scan_tiles(d, d.len() as int);
}

/// Whether a byte range of the stream `d` lists as an archive.
pub open spec fn range_lists(d: Seq<u8>) -> spec_fn((int, int)) -> bool {
    |r: (int, int)| zip_listing(d.subrange(r.0, r.1)) is Some
}

/// Law: splitting a stream gives exactly one type for each archive range
/// that lists, `Unknown` included, in the order of the ranges: the `j`-th
/// type is the loader detected from the listing of the `j`-th such range.
pub proof fn lemma_one_type_per_listed_range(d: Seq<u8>, rs: Seq<(int, int)>)
    ensures
        range_types(d, rs).len() == rs.filter(range_lists(d)).len(),
        forall|j: int|
            0 <= j < range_types(d, rs).len() ==> #[trigger] range_types(d, rs)[j] == detected(
                zip_listing(d.subrange(rs.filter(range_lists(d))[j].0, rs.filter(range_lists(d))[j].1))->0,
            ),
    decreases rs.len(),
{
    reveal(Seq::filter);
    if rs.len() > 0 {
        lemma_one_type_per_listed_range(d, rs.drop_last());
        let prev = range_types(d, rs.drop_last());
        let lp = rs.drop_last().filter(range_lists(d));
        let r = rs.last();
        if zip_listing(d.subrange(r.0, r.1)) is Some {
            assert(rs.filter(range_lists(d)) == lp.push(r));
            assert forall|j: int| 0 <= j < range_types(d, rs).len() implies #[trigger] range_types(d, rs)[j]
                == detected(
                zip_listing(d.subrange(rs.filter(range_lists(d))[j].0, rs.filter(range_lists(d))[j].1))->0,
            ) by {
                if j < prev.len() {
                    assert(range_types(d, rs)[j] == prev[j]);
                }
            }
        } else {
            assert(rs.filter(range_lists(d)) == lp);
            assert(range_types(d, rs) == prev);
        }
    }
}

} // verus!
