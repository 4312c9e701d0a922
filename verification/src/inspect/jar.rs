//! Reading an archive held in memory with `zipcrawl`.

use vstd::prelude::*;

use zipcrawl::{ZipCrawlError, ZipManager};

use crate::error::Error;
use crate::inspect::archive::ZipEntry;

verus! {

#[verifier::external_type_specification]
#[verifier::external_body]
pub struct ExZipCrawlError(ZipCrawlError);

/// The entries `zipcrawl` lists for the archive `data`
/// (`ZipManager::from_reader`, then `entries`); `None` when it fails.
pub uninterp spec fn zip_listing(data: Seq<u8>) -> Option<Seq<ZipEntry>>;

/// The text of the entry `name` of the archive `data`
/// (`ZipManager::from_reader`, then `read_to_string`); `None` when it fails.
pub uninterp spec fn zip_file_text(data: Seq<u8>, name: Seq<char>) -> Option<Seq<char>>;

/// The bytes of the entry `name` of the archive `data`
/// (`ZipManager::from_reader`, then `open_file` and `read_to_end`); `None`
/// when it fails.
pub uninterp spec fn zip_file_bytes(data: Seq<u8>, name: Seq<char>) -> Option<Seq<u8>>;

/// The bytes of an entry, if it could be read.
pub open spec fn opt_bytes(o: Option<Vec<u8>>) -> Option<Seq<u8>> {
    match o {
        Some(b) => Some(b@),
        None => None,
    }
}

/// Lists the entries of an in-memory archive with `zipcrawl`
/// (`ZipManager::from_reader` and `ZipManager::entries`), each copied field
/// for field. The outcome is `zip_listing` of the bytes.
#[verifier::external_body]
pub(crate) fn archive_listing(data: &[u8]) -> (r: Result<Vec<ZipEntry>, ZipCrawlError>)
    ensures
        match r {
            Ok(v) => zip_listing(data@) == Some(v@),
            Err(_) => zip_listing(data@) is None,
        },
{
    let mut reader = data;
    let entries = ZipManager::from_reader(&mut reader)?.entries()?;
    Ok(entries.into_iter().map(|e| ZipEntry { name: e.name, is_dir: e.is_dir, size: e.size, crc: e.crc }).collect())
}

/// Reads one entry of an in-memory archive as text with `zipcrawl`
/// (`ZipManager::from_reader` and `ZipManager::read_to_string`). The outcome
/// is `zip_file_text` of the bytes and the name.
#[verifier::external_body]
pub(crate) fn archive_text(data: &[u8], name: &str) -> (r: Result<String, ZipCrawlError>)
    ensures
        match r {
            Ok(s) => zip_file_text(data@, name@) == Some(s@),
            Err(_) => zip_file_text(data@, name@) is None,
        },
{
    let mut reader = data;
    ZipManager::from_reader(&mut reader)?.read_to_string(name)
}

/// Reads the named entries of an in-memory archive as bytes with `zipcrawl`
/// (`ZipManager::from_reader` once, then `open_file` and `read_to_end` for
/// each name); an entry that cannot be read gives `None`. Each outcome is
/// `zip_file_bytes` of the bytes and that name.
#[verifier::external_body]
pub(crate) fn archive_files(data: &[u8], names: &Vec<String>) -> (r: Vec<Option<Vec<u8>>>)
    ensures
        r@.len() == names@.len(),
        forall|i: int|
            0 <= i < names@.len() ==> opt_bytes(#[trigger] r@[i]) == zip_file_bytes(data@, names@[i]@),
{
    let mut reader = data;
    let Ok(mut mng) = ZipManager::from_reader(&mut reader) else { return names.iter().map(|_| None).collect() };
    names.iter().map(|n| mng.open_file(n).ok().and_then(|mut f| { let mut b = Vec::new(); std::io::Read::read_to_end(&mut f, &mut b).ok().map(|_| b) })).collect()
}

/// The message of a `zipcrawl` error (its `Display`).
#[verifier::external_body]
fn zip_error_text(e: &ZipCrawlError) -> String {
    e.to_string()
}

/// The library's error for a `zipcrawl` error.
pub fn zip_error(e: ZipCrawlError) -> (r: Error)
    ensures
        r is ZipCrawl,
{
    Error::ZipCrawl(zip_error_text(&e))
}

/// The entries of an in-memory archive; a failure is a `ZipCrawl` error.
pub fn read_entries(data: &[u8]) -> (r: Result<Vec<ZipEntry>, Error>)
    ensures
        match r {
            Ok(v) => zip_listing(data@) == Some(v@),
            Err(e) => zip_listing(data@) is None && e is ZipCrawl,
        },
{
    match archive_listing(data) {
        Ok(v) => Ok(v),
        Err(e) => Err(zip_error(e)),
    }
}

/// The text of one entry of an in-memory archive; a failure is a `ZipCrawl` error.
pub fn read_text(data: &[u8], name: &str) -> (r: Result<String, Error>)
    ensures
        match r {
            Ok(s) => zip_file_text(data@, name@) == Some(s@),
            Err(e) => zip_file_text(data@, name@) is None && e is ZipCrawl,
        },
{
    match archive_text(data, name) {
        Ok(s) => Ok(s),
        Err(e) => Err(zip_error(e)),
    }
}

} // verus!
