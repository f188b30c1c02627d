//! The ZIP container of an EPUB package, filled entry by entry.

use crate::error::{ErrorKind, PapyrusError};
use std::io::Cursor;
use std::io::Write;
use vstd::prelude::*;
use zip::write::FileOptions;
use zip::write::ZipWriter;
use zip::CompressionMethod;

verus! {

/// The writer of the ZIP library over a buffer in memory. The proofs know
/// of it only what `archive_entries` and `archive_open` name.
#[verifier::external_body]
pub struct Container {
    writer: ZipWriter<Cursor<Vec<u8>>>,
}

#[verifier::external_type_specification]
#[verifier::external_body]
pub struct ExZipError(zip::result::ZipError);

#[verifier::external_type_specification]
#[verifier::external_body]
pub struct ExIoError(std::io::Error);

/// How the bytes of an entry are held in the container.
#[derive(Debug, Clone, Copy, PartialEq, Eq, Structural)]
pub enum Compression {
    /// As they are.
    Stored,
    /// Compressed with deflate.
    Deflated,
}

/// An entry of a container as plain values.
pub ghost struct EntryView {
    pub name: Seq<char>,
    pub compression: Compression,
    pub data: Seq<u8>,
}

/// The file mode of every entry: readable by all, writable by the owner.
pub const ENTRY_MODE: u32 = 0o644;

/// The entries that were started in a container, in the order in which they
/// were started, each with the bytes written to it so far.
pub uninterp spec fn archive_entries(container: Container) -> Seq<EntryView>;

/// Whether a container still takes entries: it is not finished, and it
/// refused nothing that was asked of it.
pub uninterp spec fn archive_open(container: Container) -> bool;

/// Whether `ZipWriter::start_file` starts an entry of this name and method
/// in an open container that holds these entries. In a buffer in memory it
/// refuses only where the entry before is too large for its header.
pub uninterp spec fn entry_starts(
    held: Seq<EntryView>,
    name: Seq<char>,
    compression: Compression,
) -> bool;

/// The most bytes that an entry holds: one less than four gibibytes.
pub const ENTRY_LIMIT: u64 = 0xFFFF_FFFF;

/// What `ZipWriter::finish` leaves in the buffer of an open container that
/// holds these entries, each with the file mode `ENTRY_MODE` and the fixed
/// date of a ZIP library built without its clock: the bytes of the closed
/// container, or nothing where the last entry is too large for its header.
pub uninterp spec fn archive_bytes(held: Seq<EntryView>) -> Option<Seq<u8>>;

/// `ZipWriter::new` on an empty buffer in memory: an open container without
/// entries.
#[verifier::external_body]
fn new_container() -> (container: Container)
    ensures
        archive_open(container),
        archive_entries(container) == Seq::<EntryView>::empty(),
{
    Container { writer: ZipWriter::new(Cursor::new(Vec::new())) }
}

/// `ZipWriter::start_file` with options made of the compression method and
/// the file mode: where it succeeds, a new entry of that name and method,
/// still without bytes, follows the entries started before, and the
/// container stays open.
#[verifier::external_body]
fn start_file(
    container: &mut Container,
    name: &str,
    compression: Compression,
    mode: u32,
) -> (started: Result<(), zip::result::ZipError>)
    requires
        mode == ENTRY_MODE,
        archive_open(*old(container)),
    ensures
        started is Ok <==> entry_starts(archive_entries(*old(container)), name@, compression),
        started is Ok ==> archive_open(*final(container)) && archive_entries(*final(container))
            == archive_entries(*old(container)).push(
            EntryView { name: name@, compression, data: Seq::<u8>::empty() },
        ),
{
    let method = match compression {
        Compression::Stored => CompressionMethod::Stored,
        Compression::Deflated => CompressionMethod::Deflated,
    };
    let options = FileOptions::default().compression_method(method).unix_permissions(mode);
    container.writer.start_file(name, options)
}

/// `Write::write_all` of the container, once for an entry that was started
/// and has no bytes yet. It takes the bytes exactly where they are no more
/// than `ENTRY_LIMIT`; the entry then holds them and the container stays
/// open.
#[verifier::external_body]
fn write_all(container: &mut Container, data: &[u8]) -> (written: Result<(), std::io::Error>)
    requires
        archive_open(*old(container)),
        archive_entries(*old(container)).len() > 0,
        archive_entries(*old(container)).last().data.len() == 0,
    ensures
        written is Ok <==> data@.len() <= ENTRY_LIMIT,
        written is Ok ==> archive_open(*final(container)) && archive_entries(*final(container))
            == archive_entries(*old(container)).drop_last().push(
            EntryView {
                name: archive_entries(*old(container)).last().name,
                compression: archive_entries(*old(container)).last().compression,
                data: data@,
            },
        ),
{
    container.writer.write_all(data)
}

/// `ZipWriter::finish`: ends the last entry, writes the directory of the
/// container and hands out the bytes of the whole.
#[verifier::external_body]
fn finish(container: Container) -> (bytes: Result<Vec<u8>, zip::result::ZipError>)
    requires
        archive_open(container),
    ensures
        match bytes {
            Ok(b) => archive_bytes(archive_entries(container)) == Some(b@),
            Err(_) => archive_bytes(archive_entries(container)) is None,
        },
{
    let mut container = container;
    container.writer.finish().map(|buffer| buffer.into_inner())
}

/// The container's own words for an error.
#[verifier::external_body]
fn zip_error_text(error: &zip::result::ZipError) -> String {
    error.to_string()
}

/// The words of an input or output error.
#[verifier::external_body]
fn io_error_text(error: &std::io::Error) -> String {
    error.to_string()
}

/// An entry of a container: its name, how it is held and its bytes.
pub open spec fn entry(name: Seq<char>, compression: Compression, data: Seq<u8>) -> EntryView {
    EntryView { name, compression, data }
}

/// Whether a container that holds `held` takes one more entry: the ZIP
/// library starts it, and its bytes are no more than `ENTRY_LIMIT`.
pub open spec fn entry_fits(
    held: Seq<EntryView>,
    name: Seq<char>,
    compression: Compression,
    data: Seq<u8>,
) -> bool {
    entry_starts(held, name, compression) && data.len() <= ENTRY_LIMIT
}

/// Whether a container that holds `held` takes the entries `more`, one
/// after the other.
pub open spec fn entries_fit(held: Seq<EntryView>, more: Seq<EntryView>) -> bool
    decreases more.len(),
{
    if more.len() == 0 {
        true
    } else {
        entries_fit(held, more.drop_last()) && entry_fits(
            held + more.drop_last(),
            more.last().name,
            more.last().compression,
            more.last().data,
        )
    }
}

/// Whether the ZIP library packs these entries: a new container takes them
/// one after the other and can be closed.
pub open spec fn archive_admits(entries: Seq<EntryView>) -> bool {
    entries_fit(Seq::<EntryView>::empty(), entries) && archive_bytes(entries) is Some
}

/// A container that takes entries takes each of them after those before it.
pub proof fn lemma_entries_fit_each(held: Seq<EntryView>, more: Seq<EntryView>, k: int)
    requires
        entries_fit(held, more),
        0 <= k < more.len(),
    ensures
        entries_fit(held, more.take(k)),
        entry_fits(held + more.take(k), more[k].name, more[k].compression, more[k].data),
    decreases more.len(),
{
    if k == more.len() - 1 {
        assert(more.take(k) =~= more.drop_last());
    } else {
        lemma_entries_fit_each(held, more.drop_last(), k);
        assert(more.drop_last().take(k) =~= more.take(k));
    }
}

/// A ZIP container under construction in memory. Every container of this
/// type is open: one that refused an entry is gone with the refusal.
pub struct Archive {
    container: Container,
}

impl Archive {
    #[verifier::type_invariant]
    spec fn open(&self) -> bool {
        archive_open(self.container)
    }

    /// The entries of the container, in the order in which they were added.
    pub closed spec fn entries(&self) -> Seq<EntryView> {
        archive_entries(self.container)
    }

    /// A container without entries.
    pub fn new() -> (archive: Archive)
        ensures
            archive.entries() == Seq::<EntryView>::empty(),
    {
        Archive { container: new_container() }
    }

    /// Adds an entry after those that the container holds.
    ///
    /// The container is the ZIP library's work. It is handed back with the
    /// entry in it exactly where the library starts the entry and takes its
    /// bytes; where it refuses, the error is a ZIP error that carries the
    /// library's words.
    pub fn add(self, name: &str, compression: Compression, data: &[u8]) -> (added: Result<
        Archive,
        PapyrusError,
    >)
        ensures
            match added {
                Ok(archive) => entry_fits(self.entries(), name@, compression, data@)
                    && archive.entries() == self.entries().push(entry(name@, compression, data@)),
                Err(error) => !entry_fits(self.entries(), name@, compression, data@)
                    && error@.kind == ErrorKind::Zip,
            },
    {
        proof {
            use_type_invariant(&self);
        }
        let mut container = self.container;
        match start_file(&mut container, name, compression, ENTRY_MODE) {
            Ok(()) => {},
            Err(error) => {
                return Err(PapyrusError::Zip(zip_error_text(&error)));
            },
        }
        let ghost started = archive_entries(container);
        match write_all(&mut container, data) {
            Ok(()) => {},
            Err(error) => {
                return Err(PapyrusError::Zip(io_error_text(&error)));
            },
        }
        proof {
            assert(started.drop_last() =~= self.entries());
        }
        Ok(Archive { container })
    }

    /// Closes the container and gives its bytes, where the ZIP library
    /// closes it; where it refuses, the error is a ZIP error that carries
    /// the library's words.
    pub fn close(self) -> (bytes: Result<Vec<u8>, PapyrusError>)
        ensures
            match bytes {
                Ok(b) => archive_bytes(self.entries()) == Some(b@),
                Err(error) => archive_bytes(self.entries()) is None && error@.kind
                    == ErrorKind::Zip,
            },
    {
        proof {
            use_type_invariant(&self);
        }
        match finish(self.container) {
            Ok(bytes) => Ok(bytes),
            Err(error) => Err(PapyrusError::Zip(zip_error_text(&error))),
        }
    }
}

} // verus!
