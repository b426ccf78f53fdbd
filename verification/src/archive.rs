//! The archiver: the name under which a book is stored, and the writing of
//! the entries into one compressed container, one member per entry, in
//! order, with no directories. An entry that cannot be stored is counted
//! against itself alone; the entries after it are still written.

use vstd::prelude::*;
use crate::model::{entries_view, ArchiveEntry, ArchiveEntryView, BookRequest, BookRequestView};
use crate::sanitize::{sanitize_filename, sanitized};
use crate::text::join;

verus! {

/// The longest member name, in bytes, that the container's header can
/// record.
pub const MAX_NAME_BYTES: usize = 65535;

/// The longest payload, in bytes, that is handed to the archiver: half of
/// what a member's header can record. Deflate adds to what it cannot
/// compress, a few bytes for each block, but never doubles it, so that the
/// member of such a payload stays below what its header can record.
pub const MAX_PAYLOAD_BYTES: usize = 0x7FFF_FFFF;

/// How the bytes of a member are kept in the container.
#[derive(Clone, Copy, Debug, PartialEq, Eq, Structural)]
pub enum Compression {
    /// As they are.
    Stored,
    /// Compressed with deflate.
    Deflated,
}

/// A member of a container, as the contracts speak of it: its name, how
/// its bytes are kept, and the bytes written to it.
pub type Member = (Seq<char>, Compression, Seq<u8>);

/// A container under construction, kept in memory until it is closed. It
/// holds a `zip::ZipWriter` over a `std::io::Cursor<Vec<u8>>`.
#[verifier::external_body]
pub struct ArchiveWriter {
    inner: zip::ZipWriter<std::io::Cursor<Vec<u8>>>,
}

/// The members of the container so far, in the order in which they were
/// opened.
pub uninterp spec fn archive_members(writer: ArchiveWriter) -> Seq<Member>;

/// Whether the member that the container was last asked for was opened:
/// the last `zip::ZipWriter::start_file` on this writer succeeded.
pub uninterp spec fn archive_is_open(writer: ArchiveWriter) -> bool;

/// Whether `zip::ZipWriter::start_file` opens a member of this name and
/// compression in a container that holds these members.
pub uninterp spec fn member_opens(
    members: Seq<Member>,
    name: Seq<char>,
    compression: Compression,
) -> bool;

/// Whether `zip::ZipWriter::finish` completes a container that holds these
/// members.
pub uninterp spec fn container_closes(members: Seq<Member>) -> bool;

/// The bytes of the container that holds exactly these members, in this
/// order, as `zip::ZipWriter::finish` leaves them.
pub uninterp spec fn container_image(members: Seq<Member>) -> Seq<u8>;

/// The length of a name in bytes, as the container records it.
pub open spec fn name_bytes(name: Seq<char>) -> nat {
    vstd::utf8::encode_utf8(name).len()
}

/// The names of a list of members, in order.
pub open spec fn member_names(members: Seq<Member>) -> Seq<Seq<char>> {
    members.map_values(|m: Member| m.0)
}

/// No member holds more than `MAX_PAYLOAD_BYTES` bytes.
pub open spec fn payloads_fit(members: Seq<Member>) -> bool {
    forall|i: int| 0 <= i < members.len() ==> (#[trigger] members[i]).2.len() <= MAX_PAYLOAD_BYTES
}

/// The members after `data` was written to the last of them, to which
/// nothing was written before.
pub open spec fn with_written(members: Seq<Member>, data: Seq<u8>) -> Seq<Member> {
    members.update(members.len() - 1, (members.last().0, members.last().1, data))
}

/// Calls `zip::ZipWriter::new` on an empty buffer in memory: the new
/// container has no members.
#[verifier::external_body]
fn new_container() -> (writer: ArchiveWriter)
    ensures
        archive_members(writer) == Seq::<Member>::empty(),
{
    ArchiveWriter { inner: zip::ZipWriter::new(std::io::Cursor::new(Vec::new())) }
}

/// Calls `zip::ZipWriter::start_file` with the default options and the
/// given compression. It first closes the member that is open, if one is,
/// and then adds the new one. Where it succeeds, a member of that name and
/// compression, with nothing written to it yet, follows the members there
/// were, none of which has that name; where it fails, as it does on a name
/// that a member already has, the members are as they were. Whether it
/// succeeds depends on the members, the name and the compression alone: the
/// buffer is in memory, and the options hold no time of day. It panics on a
/// name of more than 65535 bytes, and can panic once the member that it
/// closes has outgrown, deflated, what its header can record: neither is
/// handed to it.
#[verifier::external_body]
fn start_member(writer: &mut ArchiveWriter, name: &str, compression: Compression) -> (opened: bool)
    requires
        name_bytes(name@) <= MAX_NAME_BYTES,
        payloads_fit(archive_members(*old(writer))),
    ensures
        opened == member_opens(archive_members(*old(writer)), name@, compression),
        opened ==> archive_members(*final(writer)) == archive_members(*old(writer)).push(
            (name@, compression, Seq::<u8>::empty()),
        ),
        opened ==> !member_names(archive_members(*old(writer))).contains(name@),
        !opened ==> archive_members(*final(writer)) == archive_members(*old(writer)),
        archive_is_open(*final(writer)) == opened,
{
    let method = match compression {
        Compression::Stored => zip::CompressionMethod::Stored,
        Compression::Deflated => zip::CompressionMethod::Deflated,
    };
    let options = zip::write::SimpleFileOptions::default().compression_method(method);
    writer.inner.start_file(name, options).is_ok()
}

/// Calls `std::io::Write::write_all` of the `zip::ZipWriter`, once for a
/// member: the last member was just opened, and nothing was written to it
/// before. On a buffer in memory it fails only where the member outgrows
/// what its header can record, which bytes of at most `MAX_PAYLOAD_BYTES`
/// do not: it succeeds, and the bytes were written to that member.
#[verifier::external_body]
fn write_member(writer: &mut ArchiveWriter, data: &[u8]) -> (written: bool)
    requires
        archive_is_open(*old(writer)),
        archive_members(*old(writer)).len() > 0,
        archive_members(*old(writer)).last().2.len() == 0,
        data@.len() <= MAX_PAYLOAD_BYTES,
    ensures
        written,
        archive_members(*final(writer)) == with_written(archive_members(*old(writer)), data@),
{
    std::io::Write::write_all(&mut writer.inner, data).is_ok()
}

/// Calls `zip::ZipWriter::finish`, which closes the member that is open, if
/// one is, and writes the directory of the container, and hands back the
/// buffer: the bytes of the container, or the text of the error. Whether
/// the container is completed, and its bytes, depend on its members alone:
/// the options of every member are the same, and hold no time of day. The
/// text of the error is not claimed. It can panic once the member that it
/// closes has outgrown, deflated, what its header can record: such a
/// member is not handed to it.
#[verifier::external_body]
fn finish_container(writer: ArchiveWriter) -> (closed: Result<Vec<u8>, String>)
    requires
        payloads_fit(archive_members(writer)),
    ensures
        closed is Ok <==> container_closes(archive_members(writer)),
        closed matches Ok(bytes) ==> bytes@ == container_image(archive_members(writer)),
{
    match writer.inner.finish() {
        Ok(buffer) => Ok(buffer.into_inner()),
        Err(e) => Err(e.to_string()),
    }
}

/// What became of an entry handed to the archiver.
#[derive(Clone, Copy, Debug, PartialEq, Eq, Structural)]
pub enum EntryFate {
    /// A member was opened under the entry's name and the payload written.
    Stored,
    /// No member was opened for the entry: its name or its payload is more
    /// than is handed to the archiver, or the archiver opened none.
    NotOpened,
    /// A member was opened and the archiver did not take the payload.
    NotWritten,
}

/// The name under which a book is stored: sanitized author, year and
/// title, ` - ` between them, and the extension `.epub`.
pub open spec fn file_name(request: BookRequestView) -> Seq<char> {
    sanitized(request.author) + " - "@ + sanitized(request.year) + " - "@ + sanitized(
        request.title,
    ) + ".epub"@
}

/// The member that an entry becomes: under its name, compressed with
/// deflate, with its payload.
pub open spec fn member_of(entry: ArchiveEntryView) -> Member {
    (entry.file_name, Compression::Deflated, entry.payload)
}

/// The members that the entries become, one for each, in order.
pub open spec fn members_of(entries: Seq<ArchiveEntryView>) -> Seq<Member> {
    entries.map_values(|e: ArchiveEntryView| member_of(e))
}

/// An entry that is handed to the archiver: its name is not too long for
/// the header, and its payload is of at most `MAX_PAYLOAD_BYTES` bytes.
pub open spec fn entry_fits(entry: ArchiveEntryView) -> bool {
    name_bytes(entry.file_name) <= MAX_NAME_BYTES && entry.payload.len() <= MAX_PAYLOAD_BYTES
}

/// The members that the entries with fate `Stored` become, in order.
pub open spec fn stored_members(entries: Seq<ArchiveEntryView>, fates: Seq<EntryFate>) -> Seq<
    Member,
>
    decreases entries.len(),
{
    if entries.len() == 0 || fates.len() != entries.len() {
        seq![]
    } else {
        let front = stored_members(entries.drop_last(), fates.drop_last());
        if fates.last() == EntryFate::Stored {
            front.push(member_of(entries.last()))
        } else {
            front
        }
    }
}

/// How many of the fates are `Stored`.
pub open spec fn stored_count(fates: Seq<EntryFate>) -> nat
    decreases fates.len(),
{
    if fates.len() == 0 {
        0
    } else {
        stored_count(fates.drop_last()) + if fates.last() == EntryFate::Stored {
            1nat
        } else {
            0nat
        }
    }
}

/// No payload failed to be written.
pub open spec fn all_written(fates: Seq<EntryFate>) -> bool {
    forall|i: int| 0 <= i < fates.len() ==> #[trigger] fates[i] != EntryFate::NotWritten
}

/// The fate of an entry, by how the archiver answered: whether it opened
/// the member, and whether it then wrote the payload.
pub open spec fn fate_after(opened: bool, written: bool) -> EntryFate {
    if !opened {
        EntryFate::NotOpened
    } else if written {
        EntryFate::Stored
    } else {
        EntryFate::NotWritten
    }
}

/// The fate of an entry handed to a container that holds `stored`: the
/// entry is stored where it fits and the archiver opens a deflated member
/// of its name, and is not opened else.
pub open spec fn owed_fate(stored: Seq<Member>, entry: ArchiveEntryView) -> EntryFate {
    fate_after(
        entry_fits(entry) && member_opens(stored, entry.file_name, Compression::Deflated),
        true,
    )
}

/// The fates of the entries of a packing, in order: each is the fate of its
/// entry in the container that holds the entries stored before it.
pub open spec fn owed_fates(entries: Seq<ArchiveEntryView>) -> Seq<EntryFate>
    decreases entries.len(),
{
    if entries.len() == 0 {
        seq![]
    } else {
        let front = owed_fates(entries.drop_last());
        front.push(owed_fate(stored_members(entries.drop_last(), front), entries.last()))
    }
}

/// The archiver stores the entry at `i` after it has stored every entry
/// before it: the entry fits, and the archiver opens a deflated member of
/// its name after the members of the entries before.
pub open spec fn is_storable(entries: Seq<ArchiveEntryView>, i: int) -> bool {
    &&& entry_fits(entries[i])
    &&& member_opens(members_of(entries.take(i)), entries[i].file_name, Compression::Deflated)
}

/// What the fates of every packing obey: there is one fate per entry; no
/// payload fails to be written; an entry that does not fit is not opened;
/// and no entry is opened under a name under which an earlier entry was
/// stored.
pub open spec fn fates_obey(entries: Seq<ArchiveEntryView>, fates: Seq<EntryFate>) -> bool {
    &&& fates.len() == entries.len()
    &&& all_written(fates)
    &&& forall|i: int|
        0 <= i < entries.len() && !entry_fits(entries[i]) ==> #[trigger] fates[i]
            == EntryFate::NotOpened
    &&& forall|j: int, i: int|
        0 <= j < i < entries.len() && #[trigger] fates[j] == EntryFate::Stored
            && entries[j].file_name == entries[i].file_name ==> #[trigger] fates[i]
            == EntryFate::NotOpened
}

/// A stored entry is a member of the stored members, under its name.
proof fn lemma_stored_is_member(entries: Seq<ArchiveEntryView>, fates: Seq<EntryFate>, j: int)
    requires
        fates.len() == entries.len(),
        0 <= j < entries.len(),
        fates[j] == EntryFate::Stored,
    ensures
        member_names(stored_members(entries, fates)).contains(entries[j].file_name),
    decreases entries.len(),
{
    let all = stored_members(entries, fates);
    if j == entries.len() - 1 {
        assert(member_names(all)[all.len() - 1] == entries[j].file_name);
    } else {
        let front = stored_members(entries.drop_last(), fates.drop_last());
        lemma_stored_is_member(entries.drop_last(), fates.drop_last(), j);
        let m = choose|m: int|
            0 <= m < member_names(front).len() && member_names(front)[m] == entries[j].file_name;
        assert(member_names(all)[m] == entries[j].file_name);
    }
}

/// No more fates are `Stored` than there are fates.
pub proof fn lemma_stored_count_bound(fates: Seq<EntryFate>)
    ensures
        stored_count(fates) <= fates.len(),
    decreases fates.len(),
{
    if fates.len() > 0 {
        lemma_stored_count_bound(fates.drop_last());
    }
}

/// There is one fate per entry, and the fates of the first entries do not
/// depend on the entries after them.
pub proof fn lemma_owed_fates(entries: Seq<ArchiveEntryView>, n: int)
    requires
        0 <= n <= entries.len(),
    ensures
        owed_fates(entries).len() == entries.len(),
        owed_fates(entries.take(n)) == owed_fates(entries).take(n),
    decreases entries.len(),
{
    if entries.len() > 0 {
        let front = entries.drop_last();
        if n == entries.len() {
            lemma_owed_fates(front, n - 1);
            assert(entries.take(n) =~= entries);
        } else {
            lemma_owed_fates(front, n);
            assert(front.take(n) =~= entries.take(n));
        }
    }
}

/// Where every entry is stored, the stored members are the entries: one
/// member for each, in order, under its name and with its payload.
pub proof fn lemma_all_stored(entries: Seq<ArchiveEntryView>, fates: Seq<EntryFate>)
    requires
        fates.len() == entries.len(),
        forall|i: int| 0 <= i < fates.len() ==> #[trigger] fates[i] == EntryFate::Stored,
    ensures
        stored_members(entries, fates) == members_of(entries),
        stored_count(fates) == entries.len(),
    decreases entries.len(),
{
    if entries.len() > 0 {
        lemma_all_stored(entries.drop_last(), fates.drop_last());
    }
}

/// Where the archiver stores every entry in its turn, every entry is
/// stored, and the members are then exactly the entries: one member for
/// each, in order, under its name and with its payload.
pub proof fn lemma_storable_entries_are_stored(entries: Seq<ArchiveEntryView>)
    requires
        forall|i: int| 0 <= i < entries.len() ==> #[trigger] is_storable(entries, i),
    ensures
        owed_fates(entries).len() == entries.len(),
        forall|i: int|
            0 <= i < entries.len() ==> #[trigger] owed_fates(entries)[i] == EntryFate::Stored,
        stored_members(entries, owed_fates(entries)) == members_of(entries),
        stored_count(owed_fates(entries)) == entries.len(),
    decreases entries.len(),
{
    lemma_owed_fates(entries, 0);
    if entries.len() > 0 {
        let front = entries.drop_last();
        let last = entries.len() - 1;
        assert forall|i: int| 0 <= i < front.len() implies #[trigger] is_storable(front, i) by {
            assert(is_storable(entries, i));
            assert(front.take(i) =~= entries.take(i));
        }
        lemma_storable_entries_are_stored(front);
        lemma_owed_fates(front, 0);
        assert(is_storable(entries, last));
        lemma_all_stored(entries, owed_fates(entries));
    }
}

/// How many of the fates are `Stored`.
pub fn count_stored(fates: &Vec<EntryFate>) -> (count: usize)
    ensures
        count == stored_count(fates@),
        count <= fates.len(),
{
    let mut count: usize = 0;
    let mut i: usize = 0;
    while i < fates.len()
        invariant
            i <= fates.len(),
            count == stored_count(fates@.take(i as int)),
            count <= i,
        decreases fates.len() - i,
    {
        assert(fates@.take(i + 1).drop_last() =~= fates@.take(i as int));
        if fates[i] == EntryFate::Stored {
            count += 1;
        }
        i += 1;
    }
    assert(fates@.take(i as int) =~= fates@);
    count
}

/// The name under which the requested book is stored.
pub fn entry_file_name(request: &BookRequest) -> (name: String)
    ensures
        name@ == file_name(request@),
{
    let author = sanitize_filename(request.author.as_str());
    let year = sanitize_filename(request.year.as_str());
    let title = sanitize_filename(request.title.as_str());
    let a = join(author.as_str(), " - ");
    let b = join(a.as_str(), year.as_str());
    let c = join(b.as_str(), " - ");
    let d = join(c.as_str(), title.as_str());
    join(d.as_str(), ".epub")
}

/// The fate of an entry, by how the archiver answered.
pub fn entry_fate(opened: bool, written: bool) -> (fate: EntryFate)
    ensures
        fate == fate_after(opened, written),
{
    if !opened {
        EntryFate::NotOpened
    } else if written {
        EntryFate::Stored
    } else {
        EntryFate::NotWritten
    }
}

/// Stores one entry: opens a member under its name, to be compressed with
/// deflate, and writes its payload to it. An entry that does not fit is not
/// handed to the archiver, and an entry that is not opened leaves the
/// container as it was.
fn add_entry(writer: &mut ArchiveWriter, entry: &ArchiveEntry) -> (fate: EntryFate)
    requires
        payloads_fit(archive_members(*old(writer))),
    ensures
        fate == owed_fate(archive_members(*old(writer)), entry@),
        fate == EntryFate::Stored ==> archive_members(*final(writer)) == archive_members(
            *old(writer),
        ).push(member_of(entry@)),
        fate != EntryFate::Stored ==> archive_members(*final(writer)) == archive_members(
            *old(writer),
        ),
        member_names(archive_members(*old(writer))).contains(entry.file_name@) ==> fate
            == EntryFate::NotOpened,
        payloads_fit(archive_members(*final(writer))),
{
    if entry.file_name.as_str().as_bytes().len() > MAX_NAME_BYTES {
        return entry_fate(false, false);
    }
    if entry.payload.len() > MAX_PAYLOAD_BYTES {
        return entry_fate(false, false);
    }
    let opened = start_member(writer, entry.file_name.as_str(), Compression::Deflated);
    if !opened {
        return entry_fate(false, false);
    }
    let written = write_member(writer, entry.payload.as_slice());
    entry_fate(true, written)
}

/// The outcome of a packing: what became of each entry, in order, and the
/// bytes of the container, or the cause for which it could not be
/// completed, as the archiver words it.
#[derive(Debug, PartialEq, Eq)]
pub struct Packed {
    pub fates: Vec<EntryFate>,
    pub archive: Result<Vec<u8>, String>,
}

/// Packs the entries into one container in memory: one member per entry,
/// in order, each on its own account, so that an entry that is not stored
/// stops nothing. An entry is stored where it fits and the archiver opens a
/// member of its name after the entries stored before it; no payload fails
/// to be written. The container is completed exactly where the archiver
/// completes a container of the entries stored, and is then the image of
/// exactly those entries, in order, each under its name, compressed with
/// deflate, with its payload.
pub fn pack(entries: &Vec<ArchiveEntry>) -> (packed: Packed)
    ensures
        packed.fates@ == owed_fates(entries_view(entries@)),
        fates_obey(entries_view(entries@), packed.fates@),
        packed.archive is Ok <==> container_closes(
            stored_members(entries_view(entries@), packed.fates@),
        ),
        packed.archive matches Ok(bytes) ==> bytes@ == container_image(
            stored_members(entries_view(entries@), packed.fates@),
        ),
{
    let ghost views = entries_view(entries@);
    let mut writer = new_container();
    let mut fates: Vec<EntryFate> = Vec::new();
    let mut i: usize = 0;
    while i < entries.len()
        invariant
            i <= entries.len(),
            views == entries_view(entries@),
            fates@ == owed_fates(views.take(i as int)),
            fates_obey(views.take(i as int), fates@),
            archive_members(writer) == stored_members(views.take(i as int), fates@),
            payloads_fit(archive_members(writer)),
        decreases entries.len() - i,
    {
        let ghost fates_before = fates@;
        let fate = add_entry(&mut writer, &entries[i]);
        fates.push(fate);
        proof {
            assert(views.take(i + 1).drop_last() =~= views.take(i as int));
            assert(fates@.drop_last() =~= fates_before);
            assert forall|j: int, k: int|
                0 <= j < k < i + 1 && #[trigger] fates@[j] == EntryFate::Stored && views.take(
                    i + 1,
                )[j].file_name == views.take(i + 1)[k].file_name implies #[trigger] fates@[k]
                == EntryFate::NotOpened by {
                if k == i {
                    lemma_stored_is_member(views.take(i as int), fates_before, j);
                }
            }
        }
        i += 1;
    }
    assert(views.take(i as int) =~= views);
    let archive = finish_container(writer);
    Packed { fates, archive }
}

} // verus!
