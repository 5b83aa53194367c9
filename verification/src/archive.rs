//! Reading entries out of an archive that is held in memory.
//!
//! The archive format is the work of the `zip` crate. What it finds in
//! given bytes is named here by functions without a body; the rest of the
//! crate speaks of those names and proves nothing of them.

use crate::seqs::views;
use std::io::Cursor;
use std::io::Read;
use vstd::prelude::*;
use vstd::utf8::{decode_utf8, encode_utf8, encode_utf8_decode_utf8, valid_utf8};
use zip::result::ZipError;
use zip::ZipArchive;

verus! {

/// `std::io::Cursor`, the reader over bytes in memory that an archive is
/// opened on. Nothing is known of what is inside.
#[verifier::external_type_specification]
#[verifier::external_body]
#[verifier::reject_recursive_types(T)]
pub struct ExCursor<T>(Cursor<T>);

/// `zip::ZipArchive`, an opened archive. Nothing is known of what is
/// inside; `archive_bytes` names the bytes that it reads from.
#[verifier::external_type_specification]
#[verifier::external_body]
#[verifier::reject_recursive_types(R)]
pub struct ExZipArchive<R>(ZipArchive<R>);

/// `zip::result::ZipError`, the error of the `zip` crate. It is carried
/// from the call to the function that turns it into an outcome of this
/// crate, and nothing is known of what is inside.
#[verifier::external_type_specification]
#[verifier::external_body]
pub struct ExZipError(ZipError);

/// Whether `ZipArchive::new` accepts `bytes` as an archive.
pub uninterp spec fn archive_opens(bytes: Seq<u8>) -> bool;

/// The bytes that an opened archive reads from.
pub uninterp spec fn archive_bytes(archive: ZipArchive<Cursor<Vec<u8>>>) -> Seq<u8>;

/// The names that `ZipArchive::file_names` lists for the archive `bytes`,
/// in its order.
pub uninterp spec fn archive_names(bytes: Seq<u8>) -> Seq<Seq<char>>;

/// Whether `ZipArchive::by_name` finds, and can start to read, the entry
/// `name` of the archive `bytes`.
pub uninterp spec fn entry_found(bytes: Seq<u8>, name: Seq<char>) -> bool;

/// What reading the entry `name` of the archive `bytes` to its end gives,
/// if the entry can be read to its end.
pub uninterp spec fn entry_bytes(bytes: Seq<u8>, name: Seq<char>) -> Option<Seq<u8>>;

/// `ZipArchive::new` on a cursor over `bytes`. It succeeds on the bytes
/// that `archive_opens` names, and the archive it gives reads from `bytes`.
#[verifier::external_body]
fn open_archive(bytes: Vec<u8>) -> (r: Result<ZipArchive<Cursor<Vec<u8>>>, ZipError>)
    ensures
        r is Ok == archive_opens(bytes@),
        r matches Ok(a) ==> archive_bytes(a) == bytes@,
{
    ZipArchive::new(Cursor::new(bytes))
}

/// `ZipArchive::file_names`, each name copied into a string. The names are
/// those that `archive_names` gives for the archive's bytes.
#[verifier::external_body]
fn entry_names(archive: &ZipArchive<Cursor<Vec<u8>>>) -> (r: Vec<String>)
    ensures
        views(r@) == archive_names(archive_bytes(*archive)),
{
    archive.file_names().map(|name| name.to_string()).collect()
}

/// `ZipArchive::by_name`, then `read_to_end` on the entry it found. The
/// result is an error where `by_name` gives one, which it does but on the
/// names that `entry_found` holds of; else it is the bytes that
/// `entry_bytes` names, or nothing where the read fails. The archive's
/// bytes stay as they are.
#[verifier::external_body]
fn read_entry(archive: &mut ZipArchive<Cursor<Vec<u8>>>, name: &str) -> (r: Result<
    Option<Vec<u8>>,
    ZipError,
>)
    ensures
        archive_bytes(*final(archive)) == archive_bytes(*old(archive)),
        r is Ok == entry_found(archive_bytes(*old(archive)), name@),
        r matches Ok(Some(b)) ==> entry_bytes(archive_bytes(*old(archive)), name@) == Some(b@),
        r matches Ok(None) ==> entry_bytes(archive_bytes(*old(archive)), name@) is None,
{
    let mut entry = archive.by_name(name)?;
    let mut content = Vec::new();
    match entry.read_to_end(&mut content) {
        Ok(_) => Ok(Some(content)),
        Err(_) => Ok(None),
    }
}

/// `String::from_utf8` of std. It gives a string where `bytes` are valid
/// UTF-8, and then the string is the one that these bytes encode; it gives
/// none elsewhere.
#[verifier::external_body]
fn string_from_utf8(bytes: Vec<u8>) -> (r: Option<String>)
    ensures
        r is Some == valid_utf8(bytes@),
        r matches Some(s) ==> encode_utf8(s@) == bytes@,
{
    match String::from_utf8(bytes) {
        Ok(text) => Some(text),
        Err(_) => None,
    }
}

/// What came of reading one entry of an archive.
#[derive(Debug, Clone, PartialEq, Eq)]
pub enum EntryBytes {
    /// The entry is there and cannot be read to its end.
    Unreadable,
    /// The archive has no such entry.
    Missing,
    /// What the entry holds.
    Bytes(Vec<u8>),
}

/// What came of reading one entry of an archive as text.
#[derive(Debug, Clone, PartialEq, Eq)]
pub enum EntryRead {
    /// The bytes are no archive, or the entry is there and cannot be read
    /// as text.
    Unreadable,
    /// The archive has no such entry.
    Missing,
    /// The entry's text.
    Text(String),
}

/// What an `EntryBytes` stands for.
pub enum EntryContent {
    Unreadable,
    Missing,
    Bytes(Seq<u8>),
}

/// What an `EntryRead` stands for.
pub enum EntryState {
    Unreadable,
    Missing,
    Text(Seq<char>),
}

impl View for EntryBytes {
    type V = EntryContent;

    open spec fn view(&self) -> EntryContent {
        match self {
            EntryBytes::Unreadable => EntryContent::Unreadable,
            EntryBytes::Missing => EntryContent::Missing,
            EntryBytes::Bytes(b) => EntryContent::Bytes(b@),
        }
    }
}

impl View for EntryRead {
    type V = EntryState;

    open spec fn view(&self) -> EntryState {
        match self {
            EntryRead::Unreadable => EntryState::Unreadable,
            EntryRead::Missing => EntryState::Missing,
            EntryRead::Text(t) => EntryState::Text(t@),
        }
    }
}

/// What reading the entry `name` of an opened archive over `bytes` comes
/// to.
pub open spec fn content_of(bytes: Seq<u8>, name: Seq<char>) -> EntryContent {
    if !entry_found(bytes, name) {
        EntryContent::Missing
    } else {
        match entry_bytes(bytes, name) {
            Some(b) => EntryContent::Bytes(b),
            None => EntryContent::Unreadable,
        }
    }
}

/// The text that `content` holds: the text that its bytes encode in UTF-8.
/// Bytes that encode none are unreadable.
pub open spec fn text_of(content: EntryContent) -> EntryState {
    match content {
        EntryContent::Unreadable => EntryState::Unreadable,
        EntryContent::Missing => EntryState::Missing,
        EntryContent::Bytes(b) => if valid_utf8(b) {
            EntryState::Text(decode_utf8(b))
        } else {
            EntryState::Unreadable
        },
    }
}

/// What reading the entry `name` of the archive `bytes` as text comes to.
pub open spec fn entry_state(bytes: Seq<u8>, name: Seq<char>) -> EntryState {
    if archive_opens(bytes) {
        text_of(content_of(bytes, name))
    } else {
        EntryState::Unreadable
    }
}

/// The text that the bytes of an entry hold.
pub fn decode(content: EntryBytes) -> (r: EntryRead)
    ensures
        r@ == text_of(content@),
{
    match content {
        EntryBytes::Unreadable => EntryRead::Unreadable,
        EntryBytes::Missing => EntryRead::Missing,
        EntryBytes::Bytes(bytes) => match string_from_utf8(bytes) {
            Some(text) => {
                proof {
                    encode_utf8_decode_utf8(text@);
                }
                EntryRead::Text(text)
            },
            None => EntryRead::Unreadable,
        },
    }
}

/// An archive that was opened, with the bytes it was opened on.
pub struct Archive {
    inner: ZipArchive<Cursor<Vec<u8>>>,
}

impl Archive {
    /// The bytes that the archive was opened on.
    pub closed spec fn bytes(&self) -> Seq<u8> {
        archive_bytes(self.inner)
    }

    /// Opens the archive `bytes`; nothing where the bytes are no archive.
    pub fn open(bytes: Vec<u8>) -> (r: Option<Archive>)
        ensures
            r is Some == archive_opens(bytes@),
            r matches Some(a) ==> a.bytes() == bytes@,
    {
        match open_archive(bytes) {
            Ok(inner) => Some(Archive { inner }),
            Err(_) => None,
        }
    }

    /// The names of the archive's entries, in the archive's order.
    pub fn names(&self) -> (r: Vec<String>)
        ensures
            views(r@) == archive_names(self.bytes()),
    {
        entry_names(&self.inner)
    }

    /// Reads the entry `name` to its end.
    pub fn read(&mut self, name: &str) -> (r: EntryBytes)
        ensures
            final(self).bytes() == old(self).bytes(),
            r@ == content_of(old(self).bytes(), name@),
    {
        match read_entry(&mut self.inner, name) {
            Err(_) => EntryBytes::Missing,
            Ok(Some(bytes)) => EntryBytes::Bytes(bytes),
            Ok(None) => EntryBytes::Unreadable,
        }
    }

    /// Reads the entry `name` as text.
    pub fn read_text(&mut self, name: &str) -> (r: EntryRead)
        ensures
            final(self).bytes() == old(self).bytes(),
            r@ == text_of(content_of(old(self).bytes(), name@)),
    {
        decode(self.read(name))
    }
}

/// Reads the entry `name` of the archive `bytes` as text.
pub fn read_archive_entry(bytes: Vec<u8>, name: &str) -> (r: EntryRead)
    ensures
        r@ == entry_state(bytes@, name@),
{
    match Archive::open(bytes) {
        None => EntryRead::Unreadable,
        Some(archive) => {
            let mut archive = archive;
            archive.read_text(name)
        },
    }
}

} // verus!
