//! The file of a dump.

use pgdump::archive::{pack, read_outcome, unpack, write_outcome, ArchiveError, ENTRY_NAME, PACK_LIMIT};
use std::io::{Cursor, Read, Write};
use zip::result::ZipError;
use zip::write::SimpleFileOptions;
use zip::{CompressionMethod, ZipArchive, ZipWriter};

#[test]
fn a_packed_dump_is_unpacked() {
    for text in ["", "{}", "{\"schemas\":[\"gr\u{fc}n\u{1f600}\"]}\r\n"] {
        let archive = pack(text).unwrap();
        assert_ne!(archive, text.as_bytes());
        assert_eq!(unpack(&archive).unwrap(), text);
    }
}

#[test]
fn a_long_dump_is_packed_small() {
    let text = "abc".repeat(100_000);
    let archive = pack(&text).unwrap();
    assert!(archive.len() < text.len() / 10);
    assert_eq!(unpack(&archive).unwrap(), text);
}

#[test]
fn the_entry_is_deflated_and_readable_by_all() {
    let archive = pack("content of the dump, content of the dump").unwrap();
    let mut zip = ZipArchive::new(Cursor::new(archive)).unwrap();
    assert_eq!(zip.len(), 1);
    let mut entry = zip.by_name("dump.io").unwrap();
    assert_eq!(entry.compression(), CompressionMethod::Deflated);
    assert_eq!(entry.unix_mode(), Some(0o100644));
    let mut text = String::new();
    entry.read_to_string(&mut text).unwrap();
    assert_eq!(text, "content of the dump, content of the dump");
    assert_eq!(ENTRY_NAME, "dump.io");
}

/// An archive with one stored entry.
fn stored(name: &str, content: &[u8]) -> Vec<u8> {
    let mut zip = ZipWriter::new(Cursor::new(Vec::new()));
    let options = SimpleFileOptions::default().compression_method(CompressionMethod::Stored);
    zip.start_file(name, options).unwrap();
    zip.write_all(content).unwrap();
    zip.finish().unwrap().into_inner()
}

#[test]
fn an_archive_of_other_making_is_read() {
    assert_eq!(unpack(&stored("dump.io", b"text")).unwrap(), "text");
}

#[test]
fn what_is_no_archive_is_not_read() {
    let outcome = unpack(&b"no archive".to_vec());
    assert!(matches!(
        outcome,
        Err(ArchiveError::NotRead(ZipError::InvalidArchive(_)))
    ));
}

#[test]
fn an_archive_without_the_entry_is_not_read() {
    let outcome = unpack(&stored("other.io", b"text"));
    assert!(matches!(
        outcome,
        Err(ArchiveError::NotRead(ZipError::FileNotFound))
    ));
}

#[test]
fn an_entry_that_is_no_text_is_not_read() {
    let outcome = unpack(&stored("dump.io", &[0xff, 0xfe]));
    assert!(matches!(
        outcome,
        Err(ArchiveError::NotRead(ZipError::Io(_)))
    ));
}

#[test]
fn outcomes_are_passed_on() {
    assert_eq!(write_outcome(Ok(vec![1])).unwrap(), [1]);
    assert!(matches!(
        write_outcome(Err(ZipError::FileNotFound)),
        Err(ArchiveError::NotWritten(ZipError::FileNotFound))
    ));
    assert_eq!(read_outcome(Ok("x".to_string())).unwrap(), "x");
    assert!(matches!(
        read_outcome(Err(ZipError::FileNotFound)),
        Err(ArchiveError::NotRead(ZipError::FileNotFound))
    ));
}

#[test]
fn characters_of_every_width_are_packed() {
    for (character, width) in [('a', 1), ('\u{e9}', 2), ('\u{20ac}', 3), ('\u{1f600}', 4)] {
        let text = character.to_string().repeat(1000);
        assert_eq!(text.len(), 1000 * width);
        assert!(text.len() < PACK_LIMIT);
        assert_eq!(unpack(&pack(&text).unwrap()).unwrap(), text);
    }
}
