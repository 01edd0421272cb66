//! Reading the payload: a zip archive held in memory.
//!
//! The archive format is the `zip` crate's business. This module declares the
//! crate's reader types, gives names to what the reader reports, and walks an
//! archive entry by entry into plain values.
//!
//! The reader is handed bytes of any content. What it is trusted with is
//! stated at each call; that it ends every call with a result rests on its
//! source, which checks its arithmetic on what the bytes claim. A request
//! for memory that the machine cannot meet ends the process there as it
//! would anywhere.

use crate::paths::{is_directory_name, names_directory};
use std::io::Read;
use vstd::prelude::*;

verus! {

/// The `zip` crate's archive reader.
#[verifier::external_type_specification]
#[verifier::external_body]
#[verifier::reject_recursive_types(R)]
pub struct ExZipArchive<R>(zip::read::ZipArchive<R>);

/// The standard library's in-memory reader.
#[verifier::external_type_specification]
#[verifier::external_body]
#[verifier::reject_recursive_types(T)]
pub struct ExCursor<T>(std::io::Cursor<T>);

/// The `zip` crate's handle on one entry of an archive.
#[verifier::external_type_specification]
#[verifier::external_body]
pub struct ExZipFile<'a>(zip::read::ZipFile<'a>);

/// The `zip` crate's error.
#[verifier::external_type_specification]
#[verifier::external_body]
pub struct ExZipError(zip::result::ZipError);

/// An archive opened over bytes in memory.
pub type Archive = zip::read::ZipArchive<std::io::Cursor<Vec<u8>>>;

/// What the reader reports of one entry.
pub struct StoredEntry {
    /// The entry's name, as stored.
    pub name: Seq<char>,
    /// The entry's POSIX mode, where it carries one.
    pub mode: Option<u32>,
    /// The entry's bytes, or `None` where they cannot be read back.
    pub content: Option<Seq<u8>>,
}

/// The entries that the reader finds in `payload`, in stored order: `None`
/// where `payload` does not open as an archive, and `None` in the place of an
/// entry that the reader cannot open.
pub uninterp spec fn archive_listing(payload: Seq<u8>) -> Option<Seq<Option<StoredEntry>>>;

/// The entries of an opened archive, in stored order, with `None` in the
/// place of an entry that the reader cannot open.
pub uninterp spec fn stored_entries(archive: Archive) -> Seq<Option<StoredEntry>>;

/// The entry that an opened handle stands for.
pub uninterp spec fn opened_entry(file: zip::read::ZipFile<'_>) -> StoredEntry;

/// The relative path that the reader proposes for an entry named `name`, by
/// the rules of the platform that the library is built for.
pub uninterp spec fn proposed_path(name: Seq<char>) -> Seq<char>;

/// Why a payload could not be read as an archive.
///
/// The first two and the last are decided by this library, and the
/// contracts say when each comes. The other three hand on the kind of error
/// that the reader gave; which of them a payload meets with is the reader's
/// word, and no contract fixes it.
#[derive(Debug, Clone, Copy, PartialEq, Eq, Structural)]
pub enum ArchiveFault {
    /// The payload's bytes could not be obtained at all.
    Unavailable,
    /// The payload is longer than the reader can be handed safely.
    TooLarge,
    /// The reader met an error of input or output: as a rule, a payload that
    /// ends early.
    Unreadable,
    /// The reader found the payload invalid: no archive, or a damaged one.
    Invalid,
    /// The reader found a feature in the archive that it does not support.
    Unsupported,
    /// An entry's bytes do not decode, or fail their checksum.
    Corrupt,
}

/// One entry of the payload, read out of the archive.
#[derive(Debug, Clone, PartialEq, Eq)]
pub struct ArchiveEntry {
    /// The entry's name, as stored.
    pub name: String,
    /// The relative path that the reader proposes to unpack the entry to.
    pub path: String,
    /// The entry's bytes; empty for a directory.
    pub content: Vec<u8>,
    /// The entry's POSIX mode, where it carries one.
    pub mode: Option<u32>,
}

/// An [`ArchiveEntry`] as plain data.
pub struct EntryModel {
    pub name: Seq<char>,
    pub path: Seq<char>,
    pub content: Seq<u8>,
    pub mode: Option<u32>,
}

impl View for ArchiveEntry {
    type V = EntryModel;

    open spec fn view(&self) -> EntryModel {
        EntryModel { name: self.name@, path: self.path@, content: self.content@, mode: self.mode }
    }
}

impl ArchiveEntry {
    /// Tells whether the entry is a directory: its name ends in `/`.
    pub fn is_dir(&self) -> (b: bool)
        ensures
            b == names_directory(self.name@),
    {
        is_directory_name(self.name.as_str())
    }
}

/// The views of `entries`, in order.
pub open spec fn entry_models(entries: Seq<ArchiveEntry>) -> Seq<EntryModel> {
    entries.map_values(|e: ArchiveEntry| e@)
}

/// All that unpacking needs of `stored` can be had: the reader opens it, and
/// its bytes can be read unless it is a directory.
pub open spec fn readable(stored: Option<StoredEntry>) -> bool {
    stored matches Some(e) && (names_directory(e.name) || e.content is Some)
}

/// The entry that is read for `stored`: its name and mode as stored, the
/// path that the reader proposes for the name, and its bytes, unless it is a
/// directory.
pub open spec fn entry_of(stored: StoredEntry) -> EntryModel {
    EntryModel {
        name: stored.name,
        path: proposed_path(stored.name),
        content: if names_directory(stored.name) {
            Seq::empty()
        } else {
            stored.content->0
        },
        mode: stored.mode,
    }
}

/// The entries that are read for `stored`, in order.
pub open spec fn entries_of(stored: Seq<Option<StoredEntry>>) -> Seq<EntryModel> {
    Seq::new(stored.len(), |i: int| entry_of(stored[i]->0))
}

/// Every entry of `listing` is readable.
pub open spec fn all_readable(listing: Option<Seq<Option<StoredEntry>>>) -> bool {
    listing matches Some(stored) && forall|i: int|
        0 <= i < stored.len() ==> readable(#[trigger] stored[i])
}

/// The greatest length of a payload that is handed to the reader.
///
/// The reader reserves room for as many entries as the payload claims to
/// hold, up to one for each of its bytes, at less than 256 bytes an entry. A
/// payload within this limit cannot make that reservation exceed what an
/// allocation may ask for. On a 64-bit machine the limit lies far beyond any
/// payload. On a 32-bit machine it is 8 MiB, and a larger payload is refused
/// there.
pub open spec fn payload_limit() -> int {
    (usize::MAX / 512) as int
}

/// Tells whether a payload of `len` bytes is within the limit.
pub fn within_limit(len: usize) -> (fits: bool)
    ensures
        fits == (len <= payload_limit()),
{
    len <= usize::MAX / 512
}

/// The entry at `index` is the first of `stored` that is not readable, and
/// it is one that opens: its bytes are what cannot be read.
pub open spec fn damaged_at(stored: Seq<Option<StoredEntry>>, index: int) -> bool {
    &&& 0 <= index < stored.len()
    &&& stored[index] is Some
    &&& !readable(stored[index])
    &&& forall|i: int| 0 <= i < index ==> readable(#[trigger] stored[i])
}

/// `fault` is a failure that reading `listing` can end in: some entry is not
/// readable or the payload is no archive; the bytes were there, and within
/// the limit; and the fault is [`ArchiveFault::Corrupt`] exactly where the
/// first entry that is not readable is one that opens.
pub open spec fn fails_with(listing: Option<Seq<Option<StoredEntry>>>, fault: ArchiveFault) -> bool {
    &&& !all_readable(listing)
    &&& fault != ArchiveFault::Unavailable
    &&& fault != ArchiveFault::TooLarge
    &&& fault == ArchiveFault::Corrupt <==> (listing matches Some(stored) && exists|index: int|
        damaged_at(stored, index))
}

/// Calls `zip::read::ZipArchive::new` on a cursor over `payload`. Trusted:
/// whether the reader accepts the bytes, and the entries it then holds,
/// depend on the bytes alone. The limit on the length keeps the room that
/// the reader reserves for its entries within what an allocation may ask
/// for.
#[verifier::external_body]
fn open_archive(payload: Vec<u8>) -> (opened: Result<Archive, zip::result::ZipError>)
    requires
        payload@.len() <= payload_limit(),
    ensures
        match opened {
            Ok(archive) => archive_listing(payload@) == Some(stored_entries(archive)),
            Err(_) => archive_listing(payload@) is None,
        },
{
    zip::read::ZipArchive::new(std::io::Cursor::new(payload))
}

/// Calls `zip::read::ZipArchive::len`. Trusted: it is the number of entries
/// that the archive lists.
#[verifier::external_body]
fn archive_len(archive: &Archive) -> (n: usize)
    ensures
        n == stored_entries(*archive).len(),
{
    archive.len()
}

/// Calls `zip::read::ZipArchive::by_index_decrypt` with an empty password.
///
/// This is `by_index` without its `unwrap`, which an entry that names a
/// cipher and does not ask for a password would trip. The two differ on
/// entries that ask for a password, and on no others: `by_index` refuses
/// such an entry at once, while here the empty password is tried on the
/// cipher's header first. The body decides one thing of its own: a password
/// that the reader refuses counts as the reader's error for an archive that
/// it does not support, which is what `by_index` gives for an entry that
/// asks for one.
///
/// Trusted: an index past the end is an error; whether a listed entry opens
/// depends on the archive alone; the handle stands for the entry at `index`;
/// the archive's entries stay as they were.
#[verifier::external_body]
fn entry_at<'a>(archive: &'a mut Archive, index: usize) -> (opened: Result<
    zip::read::ZipFile<'a>,
    zip::result::ZipError,
>)
    ensures
        stored_entries(*final(archive)) == stored_entries(*old(archive)),
        opened is Ok <==> index < stored_entries(*old(archive)).len() && stored_entries(
            *old(archive),
        )[index as int] is Some,
        opened matches Ok(file) ==> Some(opened_entry(file)) == stored_entries(
            *old(archive),
        )[index as int],
{
    match archive.by_index_decrypt(index, b"") {
        Ok(Ok(file)) => Ok(file),
        Ok(Err(_)) => Err(
            zip::result::ZipError::UnsupportedArchive(zip::result::ZipError::PASSWORD_REQUIRED),
        ),
        Err(error) => Err(error),
    }
}

/// Calls `zip::read::ZipFile::name`. Trusted: it is the entry's stored name.
#[verifier::external_body]
fn entry_name(file: &zip::read::ZipFile<'_>) -> (name: String)
    ensures
        name@ == opened_entry(*file).name,
{
    file.name().to_string()
}

/// Calls `zip::read::ZipFile::mangled_name`, which rewrites the stored name
/// into a relative path by the platform's rules. Trusted: the path depends
/// on the name alone. Nothing is trusted of what it is: the planner tests it.
#[verifier::external_body]
fn entry_path(file: &zip::read::ZipFile<'_>) -> (path: String)
    ensures
        path@ == proposed_path(opened_entry(*file).name),
{
    file.mangled_name().to_string_lossy().into_owned()
}

/// Calls `zip::read::ZipFile::unix_mode`. Trusted: it is the entry's mode.
#[verifier::external_body]
fn entry_mode(file: &zip::read::ZipFile<'_>) -> (mode: Option<u32>)
    ensures
        mode == opened_entry(*file).mode,
{
    file.unix_mode()
}

/// Reads a freshly opened entry to its end, through the `std::io::Read` that
/// `zip::read::ZipFile` implements. Trusted: the bytes, or the failure to
/// read them, depend on the entry alone.
#[verifier::external_body]
fn entry_content(file: &mut zip::read::ZipFile<'_>) -> (content: Option<Vec<u8>>)
    ensures
        match content {
            Some(bytes) => opened_entry(*old(file)).content == Some(bytes@),
            None => opened_entry(*old(file)).content is None,
        },
{
    let mut bytes = Vec::new();
    file.read_to_end(&mut bytes).ok().map(|_| bytes)
}

/// Tells the variants of `zip::result::ZipError` apart; an entry that is
/// listed and not found counts as a damaged archive. Trusted: the fault is
/// one of the three that stand for them.
#[verifier::external_body]
fn fault_of(error: zip::result::ZipError) -> (fault: ArchiveFault)
    ensures
        fault != ArchiveFault::Unavailable,
        fault != ArchiveFault::TooLarge,
        fault != ArchiveFault::Corrupt,
{
    match error {
        zip::result::ZipError::Io(_) => ArchiveFault::Unreadable,
        zip::result::ZipError::InvalidArchive(_) => ArchiveFault::Invalid,
        zip::result::ZipError::UnsupportedArchive(_) => ArchiveFault::Unsupported,
        zip::result::ZipError::FileNotFound => ArchiveFault::Invalid,
    }
}

/// A result of reading, as plain data.
pub open spec fn read_model(read: Result<Vec<ArchiveEntry>, ArchiveFault>) -> Result<
    Seq<EntryModel>,
    ArchiveFault,
> {
    match read {
        Ok(entries) => Ok(entry_models(entries@)),
        Err(fault) => Err(fault),
    }
}

/// `read` is what reading `payload` gives.
pub open spec fn read_as(payload: Seq<u8>, read: Result<Seq<EntryModel>, ArchiveFault>) -> bool {
    if payload.len() > payload_limit() {
        read == Err::<Seq<EntryModel>, ArchiveFault>(ArchiveFault::TooLarge)
    } else {
        match read {
            Ok(entries) => {
                &&& all_readable(archive_listing(payload))
                &&& entries == entries_of(archive_listing(payload)->0)
            },
            Err(fault) => fails_with(archive_listing(payload), fault),
        }
    }
}

/// Reads every entry of `payload`, in stored order.
///
/// A payload over the limit is refused unread. Any other is read, and the
/// reading succeeds exactly when the payload opens as an archive and each of
/// its entries is readable; each entry read then carries the stored name and
/// mode, the path that the reader proposes, and, unless it is a directory,
/// the stored bytes. Reading stops at the first entry that is not readable.
pub fn read_archive(payload: Vec<u8>) -> (read: Result<Vec<ArchiveEntry>, ArchiveFault>)
    ensures
        read_as(payload@, read_model(read)),
{
    if !within_limit(payload.len()) {
        return Err(ArchiveFault::TooLarge);
    }
    let ghost listing = archive_listing(payload@);
    let mut archive = match open_archive(payload) {
        Ok(archive) => archive,
        Err(error) => {
            return Err(fault_of(error));
        },
    };
    let total = archive_len(&archive);
    let mut entries: Vec<ArchiveEntry> = Vec::new();
    let mut index: usize = 0;
    while index < total
        invariant
            index <= total,
            payload@.len() <= payload_limit(),
            listing == archive_listing(payload@),
            listing == Some(stored_entries(archive)),
            total == stored_entries(archive).len(),
            entries@.len() == index,
            forall|i: int| 0 <= i < index ==> readable(#[trigger] stored_entries(archive)[i]),
            forall|i: int|
                0 <= i < index ==> (#[trigger] entries@[i])@ == entry_of(
                    stored_entries(archive)[i]->0,
                ),
        decreases total - index,
    {
        let ghost stored = stored_entries(archive);
        let mut file = match entry_at(&mut archive, index) {
            Ok(file) => file,
            Err(error) => {
                assert(!readable(listing->0[index as int]));
                assert forall|at: int| !damaged_at(stored, at) by {
                    if damaged_at(stored, at) {
                        assert(readable(stored[at]) || at >= index);
                    }
                }
                return Err(fault_of(error));
            },
        };
        let name = entry_name(&file);
        let path = entry_path(&file);
        let mode = entry_mode(&file);
        let content = if is_directory_name(name.as_str()) {
            Vec::new()
        } else {
            match entry_content(&mut file) {
                Some(bytes) => bytes,
                None => {
                    assert(damaged_at(stored, index as int));
                    assert(!readable(listing->0[index as int]));
                    return Err(ArchiveFault::Corrupt);
                },
            }
        };
        entries.push(ArchiveEntry { name, path, content, mode });
        index = index + 1;
    }
    assert(entry_models(entries@) =~= entries_of(listing->0));
    Ok(entries)
}

} // verus!
