//! Reading zip archives that are held in memory.
//!
//! All that is trusted of the zip format stands here: an archive is a function of the bytes it
//! was opened on, and reading from it changes nothing in what a later read gives.
//!
//! Entries are read that are stored or deflated. The zip crate is built without its other
//! compression methods and without decryption, so that an entry which uses one of them cannot
//! be read: it gives an error, like an entry that is damaged.

use std::io::{Cursor, Read};
use vstd::prelude::*;
use zip::ZipArchive;

verus! {

/// `std::io::Cursor`, which lets a zip archive read from memory.
#[verifier::external_type_specification]
#[verifier::external_body]
#[verifier::reject_recursive_types(T)]
pub struct ExCursor<T>(Cursor<T>);

/// `zip::ZipArchive`, an opened zip archive.
#[verifier::external_type_specification]
#[verifier::external_body]
#[verifier::reject_recursive_types(R)]
pub struct ExZipArchive<R>(ZipArchive<R>);

/// A zip archive that is held in memory.
pub type Archive = ZipArchive<Cursor<Vec<u8>>>;

/// The bytes that an archive was opened on.
pub uninterp spec fn archive_source(archive: ZipArchive<Cursor<Vec<u8>>>) -> Seq<u8>;

/// Why `zip::ZipArchive::new` does not take the bytes for a zip archive, as its error is
/// displayed; `None` where it does.
pub uninterp spec fn zip_failure(source: Seq<u8>) -> Option<Seq<char>>;

/// The names that `zip::ZipArchive::file_names` gives for an archive opened on the bytes, in
/// the order of its central directory.
pub uninterp spec fn zip_names(source: Seq<u8>) -> Seq<Seq<char>>;

/// What `read_to_end` gives of the entry that `zip::ZipArchive::by_name` finds, in an archive
/// opened on the bytes; `None` where there is no such entry or it cannot be read to its end.
pub uninterp spec fn zip_bytes(source: Seq<u8>, name: Seq<char>) -> Option<Seq<u8>>;

/// What `read_to_string` gives of the entry that `zip::ZipArchive::by_name` finds, in an
/// archive opened on the bytes: its text, or how the error is displayed.
pub uninterp spec fn zip_text(source: Seq<u8>, name: Seq<char>) -> Result<Seq<char>, Seq<char>>;

/// The byte that `read_exact` gives of the start of the entry that `zip::ZipArchive::by_name`
/// finds, in an archive opened on the bytes; `None` where there is no such entry, or no such
/// byte.
pub uninterp spec fn zip_first_byte(source: Seq<u8>, name: Seq<char>) -> Option<u8>;

/// `zip::ZipArchive::new` on a cursor at the start of the bytes: opens them as a zip archive,
/// or says why they are none. Which bytes are a zip archive is left to the zip crate.
#[verifier::external_body]
pub(crate) fn open_zip(bytes: Vec<u8>) -> (r: Result<Archive, String>)
    ensures
        match r {
            Ok(archive) => zip_failure(bytes@) is None && archive_source(archive) == bytes@,
            Err(message) => zip_failure(bytes@) == Some(message@),
        },
{
    match ZipArchive::new(Cursor::new(bytes)) {
        Ok(archive) => Ok(archive),
        Err(e) => Err(e.to_string()),
    }
}

/// `zip::ZipArchive::file_names`: the names of all entries, directories among them. Which
/// names these are for given bytes is left to the zip crate.
#[verifier::external_body]
pub(crate) fn entry_names(archive: &Archive) -> (r: Vec<String>)
    ensures
        r.deep_view() == zip_names(archive_source(*archive)),
{
    archive.file_names().map(str::to_string).collect()
}

/// `zip::ZipArchive::by_name`, then `read_to_end` on the entry: all bytes of an entry. What
/// they are for given bytes of the archive is left to the zip crate.
#[verifier::external_body]
pub(crate) fn read_bytes(archive: &mut Archive, name: &str) -> (r: Option<Vec<u8>>)
    ensures
        archive_source(*final(archive)) == archive_source(*old(archive)),
        match r {
            Some(bytes) => zip_bytes(archive_source(*old(archive)), name@) == Some(bytes@),
            None => zip_bytes(archive_source(*old(archive)), name@) is None,
        },
{
    let mut bytes = Vec::new();
    archive.by_name(name).ok()?.read_to_end(&mut bytes).ok()?;
    Some(bytes)
}

/// `zip::ZipArchive::by_name`, then `read_to_string` on the entry: the text of an entry. What
/// it is for given bytes of the archive is left to the zip crate.
#[verifier::external_body]
pub(crate) fn read_text(archive: &mut Archive, name: &str) -> (r: Result<String, String>)
    ensures
        archive_source(*final(archive)) == archive_source(*old(archive)),
        match r {
            Ok(text) => zip_text(archive_source(*old(archive)), name@) == Ok::<
                Seq<char>,
                Seq<char>,
            >(text@),
            Err(message) => zip_text(archive_source(*old(archive)), name@) == Err::<
                Seq<char>,
                Seq<char>,
            >(message@),
        },
{
    let mut text = String::new();
    match archive.by_name(name) {
        Ok(mut entry) => match entry.read_to_string(&mut text) {
            Ok(_) => Ok(text),
            Err(e) => Err(e.to_string()),
        },
        Err(e) => Err(e.to_string()),
    }
}

/// `zip::ZipArchive::by_name`, then `read_exact` of one byte on the entry: the byte that an
/// entry starts with. What it is for given bytes of the archive is left to the zip crate.
#[verifier::external_body]
pub(crate) fn read_first_byte(archive: &mut Archive, name: &str) -> (r: Option<u8>)
    ensures
        archive_source(*final(archive)) == archive_source(*old(archive)),
        r == zip_first_byte(archive_source(*old(archive)), name@),
{
    let mut byte = [0u8; 1];
    archive.by_name(name).ok()?.read_exact(&mut byte).ok()?;
    Some(byte[0])
}

} // verus!
