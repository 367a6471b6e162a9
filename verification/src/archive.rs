//! The file of a dump: a ZIP archive with one entry, which holds the dump as text.

use std::io::{Cursor, Read, Write};
use vstd::prelude::*;
use vstd::utf8::{encode_scalar, encode_utf8};
use zip::result::ZipError;
use zip::write::SimpleFileOptions;
use zip::{CompressionMethod, ZipArchive, ZipWriter};

verus! {

broadcast use vstd::string::group_string_axioms;

/// The error of the `zip` crate.
#[verifier::external_type_specification]
#[verifier::external_body]
pub struct ExZipError(zip::result::ZipError);

/// What `zip` reads from an archive: under the name of each entry that is text,
/// this text, the mode of the file (the upper half of its external attributes)
/// and the number of the compression method. It is empty where the bytes are no
/// archive.
pub uninterp spec fn archived_entries(archive: Seq<u8>) -> Map<Seq<char>, (Seq<char>, u32, u16)>;

/// Why a dump could not be written or read.
#[derive(Debug)]
pub enum ArchiveError {
    NotWritten(ZipError),
    NotRead(ZipError),
}

/// The entry of the archive that holds the dump.
pub const ENTRY_NAME: &'static str = "dump.io";

/// The permissions of the entry: its owner may write it and everybody may read it.
pub const ENTRY_PERMISSIONS: u32 = 0o644;

/// What the mode of a regular file adds to its permissions.
pub const REGULAR_FILE: u32 = 0o100000;

/// The number of the compression method of a deflated entry.
pub const DEFLATED: u16 = 8;

/// The number of bytes below which a dump can always be packed: deflating adds
/// at most about a seventh, so this stays below [`SIZE_LIMIT`].
pub const PACK_LIMIT: usize = 0xE000_0000;

/// The number of bytes from which an entry needs the large form of the format.
pub const SIZE_LIMIT: usize = 0xFFFF_FFFF;

/// `ZipWriter` of the `zip` crate over a buffer in memory: `start_file`,
/// `write_all` and `finish`, with the entry deflated. The archive holds one
/// entry, and reading it gives back its name, the content, the mode of a
/// regular file with these permissions, and the method. It succeeds at least on
/// names of this length and contents of fewer than [`PACK_LIMIT`] bytes, and
/// fails on contents of [`SIZE_LIMIT`] bytes or more. Between the two it fails
/// where the deflated content has that many bytes; how many it has is not said
/// here.
#[verifier::external_body]
fn zip_deflated(name: &str, permissions: u32, content: &str) -> (r: Result<Vec<u8>, ZipError>)
    requires
        permissions <= 0o777,
    ensures
        name@.len() < 0x1000 && encode_utf8(content@).len() < PACK_LIMIT ==> r is Ok,
        encode_utf8(content@).len() >= SIZE_LIMIT ==> r is Err,
        r matches Ok(archive) ==> archived_entries(archive@) == map![
            name@ => (content@, (REGULAR_FILE + permissions) as u32, DEFLATED)
        ],
{
    let mut zip = ZipWriter::new(Cursor::new(Vec::new()));
    let options = SimpleFileOptions::default()
        .compression_method(CompressionMethod::Deflated)
        .unix_permissions(permissions);
    zip.start_file(name, options)?;
    zip.write_all(content.as_bytes())?;
    Ok(zip.finish()?.into_inner())
}

/// `ZipArchive` of the `zip` crate over bytes in memory: `new`, `by_name` and
/// `read_to_string`. It gives the text of the entry, and fails exactly where
/// there is none to be read.
#[verifier::external_body]
fn unzip_text(archive: &Vec<u8>, name: &str) -> (r: Result<String, ZipError>)
    ensures
        match r {
            Ok(text) => archived_entries(archive@).contains_key(name@) && archived_entries(
                archive@,
            )[name@].0 == text@,
            Err(_) => !archived_entries(archive@).contains_key(name@),
        },
{
    let mut zip = ZipArchive::new(Cursor::new(archive.as_slice()))?;
    let mut entry = zip.by_name(name)?;
    let mut text = String::new();
    entry.read_to_string(&mut text)?;
    Ok(text)
}

/// The archive, or the error of a dump that was not written.
pub fn write_outcome(outcome: Result<Vec<u8>, ZipError>) -> (r: Result<Vec<u8>, ArchiveError>)
    ensures
        match outcome {
            Ok(archive) => r == Ok::<Vec<u8>, ArchiveError>(archive),
            Err(e) => r == Err::<Vec<u8>, ArchiveError>(ArchiveError::NotWritten(e)),
        },
{
    match outcome {
        Ok(archive) => Ok(archive),
        Err(e) => Err(ArchiveError::NotWritten(e)),
    }
}

/// The text, or the error of a dump that was not read.
pub fn read_outcome(outcome: Result<String, ZipError>) -> (r: Result<String, ArchiveError>)
    ensures
        match outcome {
            Ok(text) => r == Ok::<String, ArchiveError>(text),
            Err(e) => r == Err::<String, ArchiveError>(ArchiveError::NotRead(e)),
        },
{
    match outcome {
        Ok(text) => Ok(text),
        Err(e) => Err(ArchiveError::NotRead(e)),
    }
}

/// `archive` holds `text` as a dump.
pub open spec fn holds_dump(archive: Seq<u8>, text: Seq<char>) -> bool {
    archived_entries(archive).contains_key(ENTRY_NAME@) && archived_entries(archive)[ENTRY_NAME@].0
        == text
}

/// A character takes at most four bytes.
pub proof fn law_encoded_length(text: Seq<char>)
    ensures
        text.len() <= encode_utf8(text).len() <= 4 * text.len(),
    decreases text.len(),
{
    if text.len() > 0 {
        law_encoded_length(text.drop_first());
        assert(1 <= encode_scalar(text[0] as u32).len() <= 4);
    }
}

/// The archive that holds a dump and nothing else, as a regular file, deflated.
/// Packing succeeds on every text of fewer than [`PACK_LIMIT`] bytes, so on every
/// text of fewer than a quarter as many characters, and fails on every text of
/// [`SIZE_LIMIT`] bytes or more.
pub fn pack(text: &str) -> (r: Result<Vec<u8>, ArchiveError>)
    ensures
        encode_utf8(text@).len() < PACK_LIMIT ==> r is Ok,
        4 * text@.len() < PACK_LIMIT ==> r is Ok,
        encode_utf8(text@).len() >= SIZE_LIMIT ==> r is Err,
        r matches Ok(archive) ==> archived_entries(archive@) == map![
            ENTRY_NAME@ => (text@, (REGULAR_FILE + ENTRY_PERMISSIONS) as u32, DEFLATED)
        ],
        r matches Ok(archive) ==> holds_dump(archive@, text@),
        r matches Err(e) ==> e is NotWritten,
{
    proof {
        reveal_strlit("dump.io");
        law_encoded_length(text@);
    }
    write_outcome(zip_deflated(ENTRY_NAME, ENTRY_PERMISSIONS, text))
}

/// The dump that an archive holds.
pub fn unpack(archive: &Vec<u8>) -> (r: Result<String, ArchiveError>)
    ensures
        r is Ok <==> archived_entries(archive@).contains_key(ENTRY_NAME@),
        r matches Ok(text) ==> holds_dump(archive@, text@),
        r matches Err(e) ==> e is NotRead,
{
    read_outcome(unzip_text(archive, ENTRY_NAME))
}

/// An archive that was packed can be unpacked, and gives the packed text.
pub proof fn law_unpacks_what_was_packed(archive: Seq<u8>, packed: Seq<char>)
    requires
        archived_entries(archive) == map![
            ENTRY_NAME@ => (packed, (REGULAR_FILE + ENTRY_PERMISSIONS) as u32, DEFLATED)
        ],
    ensures
        archived_entries(archive).contains_key(ENTRY_NAME@),
        forall|unpacked: Seq<char>| holds_dump(archive, unpacked) <==> unpacked == packed,
{
}

} // verus!
