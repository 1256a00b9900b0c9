//! The packed document as a list of entries, read from and written to the
//! bytes of a zip container.

use crate::error::OogitError;
use std::io::{Cursor, Read, Write};
use vstd::prelude::*;
use zip::result::ZipError;
use zip::write::SimpleFileOptions;
use zip::{CompressionMethod, DateTime, System, ZipArchive, ZipWriter};

verus! {

/// One entry of an archive: a relative path, whether it stands for a
/// directory, and the bytes it holds.
#[derive(Clone, Debug, PartialEq, Eq)]
pub struct ArchiveEntry {
    pub name: String,
    pub is_dir: bool,
    pub content: Vec<u8>,
}

/// An archive entry as a mathematical value.
pub struct EntryView {
    pub name: Seq<char>,
    pub is_dir: bool,
    pub content: Seq<u8>,
}

impl View for ArchiveEntry {
    type V = EntryView;

    open spec fn view(&self) -> EntryView {
        EntryView { name: self.name@, is_dir: self.is_dir, content: self.content@ }
    }
}

/// The entries of a list as mathematical values.
pub open spec fn entries_of(entries: Seq<ArchiveEntry>) -> Seq<EntryView> {
    entries.map_values(|e: ArchiveEntry| e@)
}

/// `zip::ZipArchive`, an opened container; opaque to the proofs.
#[verifier::external_type_specification]
#[verifier::external_body]
#[verifier::reject_recursive_types(R)]
pub struct ExZipArchive<R>(ZipArchive<R>);

/// `std::io::Cursor`, the reader over bytes in memory; opaque to the proofs.
#[verifier::external_type_specification]
#[verifier::external_body]
#[verifier::reject_recursive_types(T)]
pub struct ExCursor<T>(Cursor<T>);

/// `zip::result::ZipError`, the error of the container codec; opaque to the
/// proofs.
#[verifier::external_type_specification]
#[verifier::external_body]
pub struct ExZipError(ZipError);

/// A zip container being written in memory: a `zip::ZipWriter` over a
/// cursor. The proofs see of it what `written` says. A value of this type
/// is a writer whose every call so far succeeded: a call that fails
/// consumes it.
#[verifier::external_body]
pub struct ContainerWriter {
    inner: ZipWriter<Cursor<Vec<u8>>>,
}

/// How the bytes of an entry are kept in the container.
#[derive(Clone, Copy, Debug, PartialEq, Eq, Structural)]
pub enum Compression {
    /// As they are.
    Stored,
    /// Deflated.
    Deflated,
}

/// An entry as a container writer holds it: its name as stored, whether it
/// was added as a directory, the bytes written to it, and how they are
/// kept.
pub struct HeldView {
    pub name: Seq<char>,
    pub is_dir: bool,
    pub content: Seq<u8>,
    pub method: Compression,
}

/// What a writer holds so far, in the order of the calls that added it.
pub uninterp spec fn written(writer: ContainerWriter) -> Seq<HeldView>;

/// Whether `zip::ZipWriter::start_file` accepts a file of this name, to be
/// kept in this way, from a writer that holds these entries.
pub uninterp spec fn file_starts(before: Seq<HeldView>, name: Seq<char>, method: Compression)
    -> bool;

/// Whether `zip::ZipWriter::add_directory` accepts a directory of this name
/// from a writer that holds these entries.
pub uninterp spec fn directory_adds(before: Seq<HeldView>, name: Seq<char>) -> bool;

/// Whether `zip::ZipWriter::finish` closes a writer that holds these
/// entries.
pub uninterp spec fn writer_closes(entries: Seq<HeldView>) -> bool;

/// The bytes that `zip::ZipWriter::finish` gives for a writer that holds
/// these entries, the bytes of each file written in one piece, each entry
/// dated 1980-01-01 and marked as made on Unix.
pub uninterp spec fn zip_image(entries: Seq<HeldView>) -> Seq<u8>;

/// The size from which an entry counts as a large file, which the writer
/// is not asked to take.
pub const LARGE_FILE_MARK: u64 = 0xFFFF_FFFF;

/// Whether the writer takes these bytes as the first of a file: it does
/// unless they reach the size of a large file.
pub open spec fn bytes_fit(content: Seq<u8>) -> bool {
    content.len() < LARGE_FILE_MARK
}

/// What `zip::ZipArchive::new` makes of a container's bytes: nothing where
/// it refuses them, and otherwise one slot for each entry that the opened
/// archive lists, in its order.
pub uninterp spec fn zip_slots(bytes: Seq<u8>) -> Option<Seq<Option<EntryView>>>;

/// What an opened archive holds: for each entry that it lists what reading
/// that entry gives, or nothing where reading it fails.
pub uninterp spec fn archive_slots(archive: ZipArchive<Cursor<Vec<u8>>>) -> Seq<Option<EntryView>>;

/// Opens a container held in memory with `zip::ZipArchive::new`.
///
/// Trusted: the call succeeds exactly on the bytes that `zip_slots` has
/// slots for, and the archive then holds those slots.
#[verifier::external_body]
fn open_archive(bytes: Vec<u8>) -> (out: Result<ZipArchive<Cursor<Vec<u8>>>, ZipError>)
    ensures
        match out {
            Ok(archive) => zip_slots(bytes@) == Some(archive_slots(archive)),
            Err(_) => zip_slots(bytes@).is_none(),
        },
{
    ZipArchive::new(Cursor::new(bytes))
}

/// The number of entries, by `zip::ZipArchive::len`.
///
/// Trusted: it is the number of slots.
#[verifier::external_body]
fn archive_len(archive: &ZipArchive<Cursor<Vec<u8>>>) -> (out: usize)
    ensures
        out == archive_slots(*archive).len(),
{
    archive.len()
}

/// Reads one entry with `zip::ZipArchive::by_index`: its name, whether it
/// is a directory, and its decompressed bytes.
///
/// Trusted: reading leaves the slots as they are, and gives what the slot
/// at `index` holds, failing exactly where that slot is empty.
#[verifier::external_body]
fn read_entry(archive: &mut ZipArchive<Cursor<Vec<u8>>>, index: usize) -> (out: Result<
    ArchiveEntry,
    ZipError,
>)
    ensures
        archive_slots(*final(archive)) == archive_slots(*old(archive)),
        index < archive_slots(*old(archive)).len() ==> match out {
            Ok(entry) => archive_slots(*old(archive))[index as int] == Some(entry@),
            Err(_) => archive_slots(*old(archive))[index as int].is_none(),
        },
{
    let mut file = archive.by_index(index)?;
    let name = file.name()?.into_owned();
    let is_dir = file.is_dir();
    let mut content = Vec::new();
    file.read_to_end(&mut content)?;
    Ok(ArchiveEntry { name, is_dir, content })
}

/// The entries that a container's bytes hold, where all of them can be read.
pub open spec fn unpacked(bytes: Seq<u8>) -> Option<Seq<EntryView>> {
    match zip_slots(bytes) {
        Some(slots) => if forall|i: int| 0 <= i < slots.len() ==> (#[trigger] slots[i]).is_some() {
            Some(Seq::new(slots.len(), |i: int| slots[i].unwrap()))
        } else {
            None
        },
        None => None,
    }
}

/// A result of `unpack` as a mathematical value.
pub open spec fn unpack_result_of(result: Result<Vec<ArchiveEntry>, OogitError>) -> Option<
    Seq<EntryView>,
> {
    match result {
        Ok(entries) => Some(entries_of(entries@)),
        Err(_) => None,
    }
}

/// Reads the entries of a zip container from its bytes, in the order in
/// which the container lists them.
///
/// Fails with `ArchiveCorrupt`, and with no other error, exactly when the
/// container cannot be opened or one of its entries cannot be read.
pub fn unpack(bytes: Vec<u8>) -> (out: Result<Vec<ArchiveEntry>, OogitError>)
    ensures
        unpack_result_of(out) == unpacked(bytes@),
        out is Err ==> out == Err::<Vec<ArchiveEntry>, OogitError>(OogitError::ArchiveCorrupt),
{
    let ghost source = bytes@;
    let mut archive = match open_archive(bytes) {
        Ok(archive) => archive,
        Err(_) => {
            return Err(OogitError::ArchiveCorrupt);
        },
    };
    let ghost slots = archive_slots(archive);
    let n = archive_len(&archive);
    let mut entries: Vec<ArchiveEntry> = Vec::new();
    let mut i: usize = 0;
    while i < n
        invariant
            i <= n,
            n == slots.len(),
            archive_slots(archive) == slots,
            zip_slots(source) == Some(slots),
            source == bytes@,
            entries.len() == i,
            forall|j: int| 0 <= j < i ==> #[trigger] slots[j] == Some(entries[j]@),
        decreases n - i,
    {
        match read_entry(&mut archive, i) {
            Ok(entry) => {
                entries.push(entry);
            },
            Err(_) => {
                assert(slots[i as int].is_none());
                return Err(OogitError::ArchiveCorrupt);
            },
        }
        i += 1;
    }
    assert(forall|j: int| 0 <= j < slots.len() ==> (#[trigger] slots[j]).is_some());
    assert(entries_of(entries@) =~= Seq::new(slots.len(), |i: int| slots[i].unwrap()));
    Ok(entries)
}

/// A writer of a zip container held in memory, by `zip::ZipWriter::new`.
///
/// Trusted: it holds nothing yet, and a writer that holds nothing closes.
#[verifier::external_body]
fn new_writer() -> (out: ContainerWriter)
    ensures
        written(out) == Seq::<HeldView>::empty(),
        writer_closes(written(out)),
{
    ContainerWriter { inner: ZipWriter::new(Cursor::new(Vec::new())) }
}

/// The name under which the writer stores a directory: the name given, with
/// a separator put behind it unless it ends with one already.
pub open spec fn dir_name(name: Seq<char>) -> Seq<char> {
    if name.len() > 0 && (name.last() == '/' || name.last() == '\\') {
        name
    } else {
        name + seq!['/']
    }
}

/// A directory as the writer holds it: under its stored name, without
/// bytes, stored as it is.
pub open spec fn held_dir(name: Seq<char>) -> HeldView {
    HeldView {
        name: dir_name(name),
        is_dir: true,
        content: Seq::empty(),
        method: Compression::Stored,
    }
}

/// A file entry that has been started and holds no bytes yet.
pub open spec fn started(name: Seq<char>, method: Compression) -> HeldView {
    HeldView { name, is_dir: false, content: Seq::empty(), method }
}

/// Starts a file entry with `zip::ZipWriter::start_file`, to be kept as
/// `method` says, with the date and the system mark fixed, so that the
/// container does not depend on the clock or on the platform.
///
/// Trusted: the call succeeds exactly where `file_starts` says so for what
/// the writer holds, the name and the method, and the writer then holds one
/// more entry, a file of that name and method without bytes yet.
#[verifier::external_body]
fn start_file(writer: ContainerWriter, name: &str, method: Compression) -> (out: Result<
    ContainerWriter,
    ZipError,
>)
    ensures
        out is Ok <==> file_starts(written(writer), name@, method),
        out matches Ok(after) ==> written(after) == written(writer).push(started(name@, method)),
{
    let mut writer = writer;
    let method = match method {
        Compression::Stored => CompressionMethod::Stored,
        Compression::Deflated => CompressionMethod::Deflated,
    };
    let options = SimpleFileOptions::default()
        .compression_method(method)
        .last_modified_time(DateTime::default())
        .system(System::Unix);
    writer.inner.start_file(name, options)?;
    Ok(writer)
}

/// Writes the bytes of the file entry started last, with `write_all` on the
/// `zip::ZipWriter`. It is for the first bytes of that entry.
///
/// Trusted: the call succeeds exactly where the bytes stay below the size
/// of a large file, the one refusal of the writer over a cursor in memory;
/// the entry added last then holds these bytes, and the entries before it
/// are as they were.
#[verifier::external_body]
fn write_content(writer: ContainerWriter, content: &[u8]) -> (out: Result<
    ContainerWriter,
    ZipError,
>)
    requires
        written(writer).len() > 0,
        !written(writer).last().is_dir,
        written(writer).last().content.len() == 0,
    ensures
        out is Ok <==> bytes_fit(content@),
        out matches Ok(after) ==> written(after) == written(writer).drop_last().push(
            HeldView { content: content@, ..written(writer).last() },
        ),
{
    let mut writer = writer;
    writer.inner.write_all(content)?;
    Ok(writer)
}

/// Adds a directory entry with `zip::ZipWriter::add_directory`, with the
/// date and the system mark fixed as for a file.
///
/// Trusted: the call succeeds exactly where `directory_adds` says so for
/// what the writer holds and the name, and the writer then holds one more
/// entry, a directory without bytes, stored as it is, under the name that
/// `dir_name` gives.
#[verifier::external_body]
fn add_directory(writer: ContainerWriter, name: &str) -> (out: Result<ContainerWriter, ZipError>)
    ensures
        out is Ok <==> directory_adds(written(writer), name@),
        out matches Ok(after) ==> written(after) == written(writer).push(held_dir(name@)),
{
    let mut writer = writer;
    let options = SimpleFileOptions::default()
        .last_modified_time(DateTime::default())
        .system(System::Unix);
    writer.inner.add_directory(name, options)?;
    Ok(writer)
}

/// Closes the container with `zip::ZipWriter::finish` and hands its bytes
/// out.
///
/// Trusted: the call succeeds exactly where `writer_closes` says so for
/// what the writer holds, and the bytes are then those that `zip_image`
/// names for it; they depend on nothing else.
#[verifier::external_body]
fn finish_writer(writer: ContainerWriter) -> (out: Result<Vec<u8>, ZipError>)
    ensures
        out is Ok <==> writer_closes(written(writer)),
        out matches Ok(bytes) ==> bytes@ == zip_image(written(writer)),
{
    Ok(writer.inner.finish()?.into_inner())
}

/// An entry as the container writer holds it once it was handed over: a
/// file deflated, with its bytes; a directory without any, under its
/// stored name.
pub open spec fn handed_one(entry: EntryView) -> HeldView {
    if entry.is_dir {
        held_dir(entry.name)
    } else {
        HeldView {
            name: entry.name,
            is_dir: false,
            content: entry.content,
            method: Compression::Deflated,
        }
    }
}

/// The entries as the container writer holds them, in their order.
pub open spec fn handed(entries: Seq<EntryView>) -> Seq<HeldView> {
    entries.map_values(|e: EntryView| handed_one(e))
}

/// Whether a writer that holds `before` accepts `entry`: a directory by its
/// name, a file by its name, to be deflated, and then by its bytes.
pub open spec fn takes(before: Seq<HeldView>, entry: EntryView) -> bool {
    if entry.is_dir {
        directory_adds(before, entry.name)
    } else {
        file_starts(before, entry.name, Compression::Deflated) && bytes_fit(entry.content)
    }
}

/// Whether a fresh writer accepts the entries one after the other.
pub open spec fn takes_all(entries: Seq<EntryView>) -> bool
    decreases entries.len(),
{
    entries.len() == 0 || (takes_all(entries.drop_last()) && takes(
        handed(entries.drop_last()),
        entries.last(),
    ))
}

/// Whether the entries can be packed: the writer accepts each in its turn
/// and closes over them all.
pub open spec fn packable(entries: Seq<EntryView>) -> bool {
    takes_all(entries) && writer_closes(handed(entries))
}

/// A writer that accepts all the entries accepts those that come first.
pub proof fn lemma_takes_all_of_prefix(entries: Seq<EntryView>, k: int)
    requires
        0 <= k <= entries.len(),
        takes_all(entries),
    ensures
        takes_all(entries.subrange(0, k)),
    decreases entries.len(),
{
    if k == entries.len() {
        assert(entries.subrange(0, k) =~= entries);
    } else {
        assert(entries.drop_last().subrange(0, k) =~= entries.subrange(0, k));
        lemma_takes_all_of_prefix(entries.drop_last(), k);
    }
}

/// Writes the entries into a zip container, in their order, and gives its
/// bytes: each file entry deflated, each directory entry without content.
///
/// Succeeds exactly when the writer accepts every entry in its turn, no
/// file being as large as a large file, and closes over them; it always
/// does where there is no entry. The bytes
/// are then the container that the writer makes of exactly these entries,
/// held as `handed` says. The writer refusing is the only failure, and it
/// is reported as `IoFailure`.
pub fn pack(entries: &Vec<ArchiveEntry>) -> (out: Result<Vec<u8>, OogitError>)
    ensures
        out is Ok <==> packable(entries_of(entries@)),
        entries@.len() == 0 ==> out is Ok,
        out matches Ok(bytes) ==> bytes@ == zip_image(handed(entries_of(entries@))),
        out is Err ==> out == Err::<Vec<u8>, OogitError>(OogitError::IoFailure),
{
    let ghost views = entries_of(entries@);
    let mut writer = new_writer();
    let mut i: usize = 0;
    assert(handed(views.subrange(0, 0)) =~= Seq::<HeldView>::empty());
    assert(entries@.len() == 0 ==> writer_closes(handed(views))) by {
        if entries@.len() == 0 {
            assert(handed(views) =~= Seq::<HeldView>::empty());
        }
    }
    while i < entries.len()
        invariant
            i <= entries.len(),
            views == entries_of(entries@),
            written(writer) == handed(views.subrange(0, i as int)),
            takes_all(views.subrange(0, i as int)),
        decreases entries.len() - i,
    {
        let entry = &entries[i];
        let ghost before = written(writer);
        let ghost upto = views.subrange(0, i + 1);
        assert(views[i as int] == entry@);
        assert(upto.last() == entry@);
        assert(upto.drop_last() =~= views.subrange(0, i as int));
        assert(handed(upto) =~= before.push(handed_one(entry@)));
        proof {
            if takes_all(views) {
                lemma_takes_all_of_prefix(views, i + 1);
            }
        }
        if entry.is_dir {
            writer = match add_directory(writer, entry.name.as_str()) {
                Ok(after) => after,
                Err(_) => {
                    assert(!takes_all(upto));
                    return Err(OogitError::IoFailure);
                },
            };
        } else {
            let open = match start_file(writer, entry.name.as_str(), Compression::Deflated) {
                Ok(after) => after,
                Err(_) => {
                    assert(!takes_all(upto));
                    return Err(OogitError::IoFailure);
                },
            };
            assert(written(open).last() == started(entry.name@, Compression::Deflated));
            assert(written(open).drop_last() =~= before);
            writer = match write_content(open, entry.content.as_slice()) {
                Ok(after) => after,
                Err(_) => {
                    assert(!takes_all(upto));
                    return Err(OogitError::IoFailure);
                },
            };
        }
        assert(written(writer) == before.push(handed_one(entry@)));
        assert(takes_all(upto));
        i += 1;
    }
    assert(views.subrange(0, i as int) =~= views);
    match finish_writer(writer) {
        Ok(bytes) => Ok(bytes),
        Err(_) => Err(OogitError::IoFailure),
    }
}

} // verus!
