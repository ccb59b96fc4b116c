//! Files on their way into a machine and out of it: archives with a digest and a limit.

use sha2::Digest;
use vstd::prelude::*;
use vstd::slice::*;
use vstd::string::*;

use crate::bytes::{append_bytes, copy_bytes};
use crate::helper::archive::{
    same_parts, split_parts, valid_archive_path, valid_archive_symlink,
};
use crate::helper::bridge::{BridgeError, BridgeErrorView, MAX_COPY_ENTRIES};
use crate::helper::headers::listable_length;
use crate::helper::unpack::PackedView;
use crate::paths::parent;
use crate::text::{chars_of, decimal, from_utf8_lossy, join, join3};

verus! {

/// The SHA-256 digest of bytes in hexadecimal, which is left open here.
pub uninterp spec fn sha256_hex(bytes: Seq<u8>) -> Seq<char>;

/// Calls `sha2::Sha256::digest` and writes its result in hexadecimal.  The contract says that the
/// text is determined by the bytes.
#[verifier::external_body]
fn hash(bytes: &[u8]) -> (digest: String)
    ensures
        digest@ == sha256_hex(bytes@),
{
    format!("{:x}", sha2::Sha256::digest(bytes))
}

/// A digest as it is exchanged.
pub open spec fn digest_spec(bytes: Seq<u8>) -> Seq<char> {
    "sha256:"@ + sha256_hex(bytes)
}

/// The digest of bytes.
pub fn digest_text(bytes: &[u8]) -> (digest: String)
    ensures
        digest@ == digest_spec(bytes@),
{
    join("sha256:", hash(bytes).as_str())
}

/// A letter between A and Z in lower case; any other character as it is.
pub open spec fn lower(character: char) -> char {
    if 'A' <= character <= 'Z' {
        ((character as u32) + 32) as char
    } else {
        character
    }
}

/// Whether two texts are the same but for the case of ASCII letters.
pub open spec fn same_but_case(left: Seq<char>, right: Seq<char>) -> bool {
    left.len() == right.len() && forall|i: int|
        0 <= i < left.len() ==> #[trigger] lower(left[i]) == lower(right[i])
}

fn lower_code(character: char) -> (code: u32)
    ensures
        code == lower(character) as u32,
{
    let code: u32 = character as u32;
    if 'A' <= character && character <= 'Z' {
        code + 32
    } else {
        code
    }
}

/// Compares two texts but for the case of ASCII letters.
pub fn eq_ignore_ascii_case(left: &str, right: &str) -> (same: bool)
    ensures
        same == same_but_case(left@, right@),
{
    let own = chars_of(left);
    let other = chars_of(right);
    if own.len() != other.len() {
        return false;
    }
    let mut i: usize = 0;
    while i < own.len()
        invariant
            i <= own@.len(),
            own@ == left@,
            other@ == right@,
            own@.len() == other@.len(),
            forall|j: int| 0 <= j < i ==> #[trigger] lower(left@[j]) == lower(right@[j]),
        decreases own@.len() - i,
    {
        if lower_code(own[i]) != lower_code(other[i]) {
            assert(lower(left@[i as int]) != lower(right@[i as int]));
            return false;
        }
        i += 1;
    }
    true
}

/// The kind of a regular file in an archive.
pub const KIND_FILE: u8 = 0x30;

pub const KIND_SYMLINK: u8 = 0x32;

pub const KIND_DIRECTORY: u8 = 0x35;

/// What an archive says of a file besides its name.
#[derive(Debug)]
pub struct ArchiveHeader {
    pub kind: u8,
    pub mode: u32,
    pub uid: u64,
    pub gid: u64,
    pub mtime: u64,
    pub size: u64,
    pub link: Option<String>,
}

pub struct HeaderView {
    pub kind: u8,
    pub mode: u32,
    pub uid: u64,
    pub gid: u64,
    pub mtime: u64,
    pub size: u64,
    pub link: Option<Seq<char>>,
}

impl View for ArchiveHeader {
    type V = HeaderView;

    open spec fn view(&self) -> HeaderView {
        HeaderView {
            kind: self.kind,
            mode: self.mode,
            uid: self.uid,
            gid: self.gid,
            mtime: self.mtime,
            size: self.size,
            link: crate::text::text_of(self.link),
        }
    }
}

/// The bytes of an entry of an archive, or why there are none, which is left open here.
pub uninterp spec fn tar_entry(
    header: HeaderView,
    name: Seq<char>,
    data: Seq<u8>,
) -> Result<Seq<u8>, Seq<char>>;

/// Calls `tar::Builder::append_data` on an archive of its own, with a GNU header of the given
/// fields.  The contract says that the bytes, or the words of the error, are determined by the
/// header, the name and the data.
#[verifier::external_body]
fn encode_entry(header: &ArchiveHeader, name: &str, data: &[u8]) -> (encoded: Result<
    Vec<u8>,
    String,
>)
    ensures
        match encoded {
            Ok(bytes) => tar_entry(header@, name@, data@) == Ok::<Seq<u8>, Seq<char>>(bytes@),
            Err(error) => tar_entry(header@, name@, data@) == Err::<Seq<u8>, Seq<char>>(error@),
        },
{
    let mut fields = tar::Header::new_gnu();
    fields.set_entry_type(tar::EntryType::new(header.kind));
    fields.set_mode(header.mode);
    fields.set_uid(header.uid);
    fields.set_gid(header.gid);
    fields.set_mtime(header.mtime);
    fields.set_size(header.size);
    if let Some(link) = &header.link {
        fields.set_link_name(link).map_err(|error| error.to_string())?;
    }
    let mut builder = tar::Builder::new(Vec::new());
    builder.append_data(&mut fields, name, data).map_err(|error| error.to_string())?;
    Ok(builder.get_ref().clone())
}

/// The number of zero bytes at the end of an archive.
pub const ARCHIVE_END_BYTES: u64 = 1024;

/// Calls `tar::Builder::into_inner`, which ends an archive.  The contract says that it appends
/// 1024 zero bytes.
#[verifier::external_body]
fn end_archive(bytes: Vec<u8>) -> (archive: Vec<u8>)
    ensures
        archive@ == bytes@ + Seq::new(ARCHIVE_END_BYTES as nat, |i: int| 0u8),
{
    tar::Builder::new(bytes).into_inner().unwrap_or_default()
}

/// What is to be put into an archive.
#[derive(Debug)]
pub enum SourceEntry {
    File(Vec<u8>),
    Directory,
    Symlink(String),
    Other,
}

/// An archive that is being made.
#[derive(Debug)]
pub struct CopyArchive {
    pub bytes: Vec<u8>,
    pub entries: usize,
    pub limit: u64,
}

pub struct CopyArchiveView {
    pub bytes: Seq<u8>,
    pub entries: nat,
    pub limit: u64,
}

impl View for CopyArchive {
    type V = CopyArchiveView;

    open spec fn view(&self) -> CopyArchiveView {
        CopyArchiveView { bytes: self.bytes@, entries: self.entries as nat, limit: self.limit }
    }
}

/// The header of an entry: nobody's, of no time, with nothing but permissions in its mode.
pub open spec fn header_of(entry: SourceEntry, mode: u32) -> HeaderView {
    HeaderView {
        kind: match entry {
            SourceEntry::Directory => KIND_DIRECTORY,
            SourceEntry::Symlink(_) => KIND_SYMLINK,
            _ => KIND_FILE,
        },
        mode: mode & 0o777,
        uid: 0,
        gid: 0,
        mtime: 0,
        size: data_of(entry).len() as u64,
        link: match entry {
            SourceEntry::Symlink(target) => Some(target@),
            _ => None,
        },
    }
}

pub open spec fn data_of(entry: SourceEntry) -> Seq<u8> {
    match entry {
        SourceEntry::File(data) => data@,
        _ => Seq::empty(),
    }
}

/// Why an entry cannot be put into an archive, apart from its encoding.
pub open spec fn entry_complaint(
    archive: CopyArchiveView,
    source: Seq<char>,
    name: Seq<char>,
    entry: SourceEntry,
) -> Option<BridgeErrorView> {
    if archive.entries >= MAX_COPY_ENTRIES {
        Some(BridgeErrorView::TooManyCopyEntries)
    } else {
        match entry {
            SourceEntry::Symlink(target) => if crate::helper::archive::valid_link(
                vstd::utf8::encode_utf8(name),
                vstd::utf8::encode_utf8(target@),
            ) {
                None
            } else {
                Some(
                    BridgeErrorView::UnsafeCopyArchive(
                        "symlink "@ + source + " escapes the copied root"@,
                    ),
                )
            },
            SourceEntry::Other => Some(
                BridgeErrorView::UnsafeCopyArchive("unsupported file type at "@ + source),
            ),
            _ => None,
        }
    }
}

pub open spec fn over_limit() -> BridgeErrorView {
    BridgeErrorView::Io("copy archive exceeds its byte limit"@)
}

impl CopyArchiveView {
    /// The archive with one more entry, or why it has none.
    pub open spec fn appended(
        self,
        source: Seq<char>,
        name: Seq<char>,
        entry: SourceEntry,
        mode: u32,
    ) -> Result<CopyArchiveView, BridgeErrorView> {
        match entry_complaint(self, source, name, entry) {
            Some(error) => Err(error),
            None => match tar_entry(header_of(entry, mode), name, data_of(entry)) {
                Err(error) => Err(BridgeErrorView::Io(error)),
                Ok(encoded) => if self.bytes.len() + encoded.len() > self.limit {
                    Err(over_limit())
                } else {
                    Ok(
                        CopyArchiveView {
                            bytes: self.bytes + encoded,
                            entries: self.entries + 1,
                            ..self
                        },
                    )
                },
            },
        }
    }

    /// The whole archive with its end, or why it has none.
    pub open spec fn finished(self) -> Result<Seq<u8>, BridgeErrorView> {
        if self.bytes.len() + ARCHIVE_END_BYTES > self.limit {
            Err(over_limit())
        } else {
            Ok(self.bytes + Seq::new(ARCHIVE_END_BYTES as nat, |i: int| 0u8))
        }
    }
}

/// An archive that is ready to be sent.
#[derive(Debug)]
pub struct PreparedCopy {
    pub bytes: Vec<u8>,
    pub size: u64,
    pub digest: String,
}

impl PreparedCopy {
    /// Whether the size and the digest are those of the bytes.
    pub open spec fn described(self) -> bool {
        self.size == self.bytes@.len() && self.digest@ == digest_spec(self.bytes@)
    }
}

fn over_limit_error() -> (error: BridgeError)
    ensures
        error@ == over_limit(),
{
    BridgeError::Io("copy archive exceeds its byte limit".to_owned())
}

impl CopyArchive {
    /// An empty archive that may become as long as the limit.
    pub fn new(limit: u64) -> (archive: CopyArchive)
        ensures
            archive@.bytes.len() == 0,
            archive@.entries == 0,
            archive@.limit == limit,
    {
        CopyArchive { bytes: Vec::new(), entries: 0, limit }
    }

    /// Adds an entry; one that cannot be added leaves the archive as it was.
    pub fn append_copy_entry(&mut self, source: &str, name: &str, entry: &SourceEntry, mode: u32) -> (
    appended: Result<(), BridgeError>)
        ensures
            match (appended, old(self)@.appended(source@, name@, *entry, mode)) {
                (Ok(()), Ok(after)) => final(self)@ == after,
                (Err(error), Err(expected)) => error@ == expected && final(self)@ == old(self)@,
                _ => false,
            },
    {
        if self.entries >= MAX_COPY_ENTRIES {
            return Err(BridgeError::TooManyCopyEntries);
        }
        let empty: Vec<u8> = Vec::new();
        let data: &[u8] = match entry {
            SourceEntry::File(data) => data.as_slice(),
            _ => empty.as_slice(),
        };
        assert(data@ =~= data_of(*entry));
        assert(data.len() == data@.len());
        let kind: u8 = match entry {
            SourceEntry::Directory => KIND_DIRECTORY,
            SourceEntry::Symlink(_) => KIND_SYMLINK,
            _ => KIND_FILE,
        };
        let link: Option<String> = match entry {
            SourceEntry::Symlink(target) => {
                if !valid_archive_symlink(name.as_bytes(), target.as_str().as_bytes()) {
                    return Err(
                        BridgeError::UnsafeCopyArchive(
                            join3("symlink ", source, " escapes the copied root"),
                        ),
                    );
                }
                Some(target.as_str().to_owned())
            },
            SourceEntry::Other => {
                return Err(
                    BridgeError::UnsafeCopyArchive(join("unsupported file type at ", source)),
                );
            },
            _ => None,
        };
        let header = ArchiveHeader {
            kind,
            mode: mode & 0o777,
            uid: 0,
            gid: 0,
            mtime: 0,
            size: data.len() as u64,
            link,
        };
        let encoded = match encode_entry(&header, name, data) {
            Ok(encoded) => encoded,
            Err(error) => {
                return Err(BridgeError::Io(error));
            },
        };
        let taken: u64 = self.bytes.len() as u64;
        let more: u64 = encoded.len() as u64;
        if taken > self.limit || more > self.limit - taken {
            return Err(over_limit_error());
        }
        append_bytes(&mut self.bytes, encoded.as_slice());
        self.entries = self.entries + 1;
        Ok(())
    }

    /// Ends the archive.
    pub fn finish(self) -> (prepared: Result<PreparedCopy, BridgeError>)
        ensures
            match prepared {
                Ok(copy) => self@.finished() == Ok::<Seq<u8>, BridgeErrorView>(copy.bytes@)
                    && copy.described(),
                Err(error) => self@.finished() == Err::<Seq<u8>, BridgeErrorView>(error@),
            },
    {
        let taken: u64 = self.bytes.len() as u64;
        if taken > self.limit || ARCHIVE_END_BYTES > self.limit - taken {
            return Err(over_limit_error());
        }
        let bytes = end_archive(self.bytes);
        let digest = digest_text(bytes.as_slice());
        let size: u64 = bytes.len() as u64;
        Ok(PreparedCopy { bytes, size, digest })
    }
}

/// A copy out of the guest that is being received.
#[derive(Debug)]
pub struct ReceivedCopy {
    pub transfer_id: u64,
    pub destination: String,
    pub data: Vec<u8>,
    pub limit: u64,
}

#[verifier::ext_equal]
pub struct ReceivedView {
    pub transfer_id: u64,
    pub destination: Seq<char>,
    pub data: Seq<u8>,
    pub limit: u64,
}

impl View for ReceivedCopy {
    type V = ReceivedView;

    open spec fn view(&self) -> ReceivedView {
        ReceivedView {
            transfer_id: self.transfer_id,
            destination: self.destination@,
            data: self.data@,
            limit: self.limit,
        }
    }
}

impl ReceivedView {
    /// The copy with more data, or why it takes none.
    pub open spec fn appended(self, transfer_id: u64, chunk: Seq<u8>) -> Result<
        ReceivedView,
        BridgeErrorView,
    > {
        if transfer_id != self.transfer_id {
            Err(BridgeErrorView::UnexpectedCopyTransfer(transfer_id))
        } else if self.data.len() + chunk.len() > self.limit {
            Err(BridgeErrorView::CopyLimitExceeded(self.limit))
        } else {
            Ok(ReceivedView { data: self.data + chunk, ..self })
        }
    }

    /// What is wrong with the end of a copy, if anything.
    pub open spec fn end_complaint(
        self,
        transfer_id: u64,
        total_bytes: u64,
        sha256: Seq<char>,
    ) -> Option<BridgeErrorView> {
        if transfer_id != self.transfer_id {
            Some(BridgeErrorView::UnexpectedCopyTransfer(transfer_id))
        } else if total_bytes != self.data.len() {
            Some(
                BridgeErrorView::CopySizeMismatch {
                    expected: total_bytes,
                    actual: self.data.len() as u64,
                },
            )
        } else if !same_but_case(digest_spec(self.data), sha256) {
            Some(BridgeErrorView::CopyDigestMismatch)
        } else {
            None
        }
    }
}

impl ReceivedCopy {
    pub fn new(transfer_id: u64, destination: String, limit: u64) -> (copy: ReceivedCopy)
        ensures
            copy@ == (ReceivedView {
                transfer_id,
                destination: destination@,
                data: Seq::empty(),
                limit,
            }),
    {
        let copy = ReceivedCopy { transfer_id, destination, data: Vec::new(), limit };
        assert(copy@ =~= (ReceivedView {
            transfer_id,
            destination: destination@,
            data: Seq::empty(),
            limit,
        }));
        copy
    }

    /// Takes more data, within the limit; what is not taken changes nothing.
    pub fn append(&mut self, transfer_id: u64, chunk: &[u8]) -> (appended: Result<(), BridgeError>)
        ensures
            match (appended, old(self)@.appended(transfer_id, chunk@)) {
                (Ok(()), Ok(after)) => final(self)@ == after,
                (Err(error), Err(expected)) => error@ == expected && final(self)@ == old(self)@,
                _ => false,
            },
    {
        if transfer_id != self.transfer_id {
            return Err(BridgeError::UnexpectedCopyTransfer(transfer_id));
        }
        assert(chunk.len() == chunk@.len());
        let taken: u64 = self.data.len() as u64;
        let more: u64 = chunk.len() as u64;
        if taken > self.limit || more > self.limit - taken {
            return Err(BridgeError::CopyLimitExceeded(self.limit));
        }
        append_bytes(&mut self.data, chunk);
        Ok(())
    }

    /// Ends the copy, if it is whole.
    pub fn finish(&self, transfer_id: u64, total_bytes: u64, sha256: &str) -> (finished: Result<
        (),
        BridgeError,
    >)
        ensures
            match finished {
                Ok(()) => self@.end_complaint(transfer_id, total_bytes, sha256@) is None,
                Err(error) => self@.end_complaint(transfer_id, total_bytes, sha256@) == Some(
                    error@,
                ),
            },
    {
        if transfer_id != self.transfer_id {
            return Err(BridgeError::UnexpectedCopyTransfer(transfer_id));
        }
        let received: u64 = self.data.len() as u64;
        if total_bytes != received {
            return Err(BridgeError::CopySizeMismatch { expected: total_bytes, actual: received });
        }
        let digest = digest_text(self.data.as_slice());
        if !eq_ignore_ascii_case(digest.as_str(), sha256) {
            return Err(BridgeError::CopyDigestMismatch);
        }
        Ok(())
    }
}

/// A copy never holds more than its limit.
pub proof fn law_copy_stays_within_its_limit(
    copy: ReceivedView,
    transfer_id: u64,
    chunk: Seq<u8>,
)
    requires
        copy.data.len() <= copy.limit,
    ensures
        match copy.appended(transfer_id, chunk) {
            Ok(after) => after.data.len() <= after.limit && after.limit == copy.limit,
            Err(_) => true,
        },
{
}

/// A copy that was received whole is accepted with the digest of what was sent, and with no other
/// number of bytes.
pub proof fn law_whole_copy_is_accepted(copy: ReceivedView, total_bytes: u64, sha256: Seq<char>)
    requires
        copy.data.len() <= u64::MAX,
    ensures
        copy.end_complaint(
            copy.transfer_id,
            copy.data.len() as u64,
            digest_spec(copy.data),
        ) is None,
        copy.end_complaint(copy.transfer_id, total_bytes, sha256) is None ==> total_bytes
            == copy.data.len(),
{
}

/// An entry of an archive that was received.
#[derive(Debug)]
pub struct TarEntry {
    pub path: Vec<u8>,
    pub kind: u8,
    pub mode: Result<u32, String>,
    pub link: Option<Vec<u8>>,
    /// Where its data begins in the archive.
    pub position: u64,
    pub size: u64,
}

pub struct TarEntryView {
    pub path: Seq<u8>,
    pub kind: u8,
    pub mode: Result<u32, Seq<char>>,
    pub link: Option<Seq<u8>>,
    pub position: u64,
    pub size: u64,
}

impl View for TarEntry {
    type V = TarEntryView;

    open spec fn view(&self) -> TarEntryView {
        TarEntryView {
            path: self.path@,
            kind: self.kind,
            mode: match self.mode {
                Ok(mode) => Ok(mode),
                Err(error) => Err(error@),
            },
            link: match self.link {
                Some(target) => Some(target@),
                None => None,
            },
            position: self.position,
            size: self.size,
        }
    }
}

pub open spec fn entry_views(entries: Seq<TarEntry>) -> Seq<TarEntryView> {
    entries.map_values(|entry: TarEntry| entry@)
}

/// The entries of an archive, and what is wrong behind the last of them, if anything; which is
/// left open here.
pub uninterp spec fn tar_listing(archive: Seq<u8>) -> (Seq<TarEntryView>, Option<Seq<char>>);

/// Calls `tar::Archive::entries` and asks each entry for its path, its kind, its mode, its link
/// and the place of its data.  The contract says that the answers, up to the first error and with
/// the words of it, are determined by the bytes; and that an archive that `encode_entry` and
/// `end_archive` made of plain entries names these entries, with their data in their places.
///
/// The place of the next header is added up without a check as the further blocks of a sparse entry
/// are read, so archives in which that sum overflows are left out: the headers that are met on the
/// way to such a block are among those that `listable` goes through.
#[verifier::external_body]
fn list_archive(archive: &[u8]) -> (listing: (Vec<TarEntry>, Option<String>))
    requires
        crate::helper::headers::listable(archive@) == archive@.len(),
    ensures
        (entry_views(listing.0@), crate::text::text_of(listing.1)) == tar_listing(archive@),
        forall|entries: Seq<PackedView>|
            crate::helper::unpack::all_plain(entries) && #[trigger] crate::helper::unpack::archive_of(
                entries,
            ) == Some(archive@) ==> crate::helper::unpack::lists_all(
                (entry_views(listing.0@), crate::text::text_of(listing.1)),
                entries,
                archive@,
            ),
{
    let mut found = Vec::new();
    for entry in tar::Archive::new(archive).entries().into_iter().flatten() {
        match entry {
            Ok(entry) => found.push(TarEntry {
                path: entry.path_bytes().into_owned(),
                kind: entry.header().entry_type().as_byte(),
                mode: entry.header().mode().map_err(|error| error.to_string()),
                link: entry.link_name_bytes().map(|target| target.into_owned()),
                position: entry.raw_file_position(),
                size: entry.size(),
            }),
            Err(error) => return (found, Some(error.to_string())),
        }
    }
    (found, None)
}

/// One thing that unpacking an archive does, below a directory of its own.
#[derive(Debug)]
pub enum ExtractStep {
    /// Every directory on the way to a path has to be there, and to be no link.
    CheckParents(Vec<u8>),
    CreateDirectory(Vec<u8>),
    /// A file with the data at a position of the archive.
    CreateFile { path: Vec<u8>, mode: u32, position: u64, size: u64 },
    CreateLink { path: Vec<u8>, target: Vec<u8> },
    SetMode { path: Vec<u8>, mode: u32 },
}

pub enum ExtractStepView {
    CheckParents(Seq<u8>),
    CreateDirectory(Seq<u8>),
    CreateFile { path: Seq<u8>, mode: u32, position: u64, size: u64 },
    CreateLink { path: Seq<u8>, target: Seq<u8> },
    SetMode { path: Seq<u8>, mode: u32 },
}

impl View for ExtractStep {
    type V = ExtractStepView;

    open spec fn view(&self) -> ExtractStepView {
        match *self {
            ExtractStep::CheckParents(path) => ExtractStepView::CheckParents(path@),
            ExtractStep::CreateDirectory(path) => ExtractStepView::CreateDirectory(path@),
            ExtractStep::CreateFile { path, mode, position, size } => {
                ExtractStepView::CreateFile { path: path@, mode, position, size }
            },
            ExtractStep::CreateLink { path, target } => ExtractStepView::CreateLink {
                path: path@,
                target: target@,
            },
            ExtractStep::SetMode { path, mode } => ExtractStepView::SetMode { path: path@, mode },
        }
    }
}

pub open spec fn step_views(steps: Seq<ExtractStep>) -> Seq<ExtractStepView> {
    steps.map_values(|step: ExtractStep| step@)
}

/// What unpacking an archive has come to.
#[derive(Debug)]
pub struct Extraction {
    pub steps: Vec<ExtractStep>,
    /// The paths of the entries so far, as their components.
    pub seen: Vec<Vec<Vec<u8>>>,
    pub directories: Vec<(Vec<u8>, u32)>,
}

#[verifier::ext_equal]
pub struct ExtractionView {
    pub steps: Seq<ExtractStepView>,
    pub seen: Seq<Seq<Seq<u8>>>,
    pub directories: Seq<(Seq<u8>, u32)>,
}

pub open spec fn directory_views(directories: Seq<(Vec<u8>, u32)>) -> Seq<(Seq<u8>, u32)> {
    directories.map_values(|entry: (Vec<u8>, u32)| (entry.0@, entry.1))
}

pub open spec fn path_views(paths: Seq<Vec<Vec<u8>>>) -> Seq<Seq<Seq<u8>>> {
    paths.map_values(|parts: Vec<Vec<u8>>| crate::helper::archive::byte_views(parts@))
}

impl View for Extraction {
    type V = ExtractionView;

    open spec fn view(&self) -> ExtractionView {
        ExtractionView {
            steps: step_views(self.steps@),
            seen: path_views(self.seen@),
            directories: directory_views(self.directories@),
        }
    }
}

/// Whether a path was seen before.
pub open spec fn seen_before(seen: Seq<Seq<Seq<u8>>>, path: Seq<u8>) -> bool {
    seen.contains(crate::helper::archive::parts_from(path, 0))
}

impl ExtractionView {
    pub open spec fn nothing() -> ExtractionView {
        ExtractionView { steps: Seq::empty(), seen: Seq::empty(), directories: Seq::empty() }
    }

    pub open spec fn with_step(self, step: ExtractStepView) -> ExtractionView {
        ExtractionView { steps: self.steps.push(step), ..self }
    }

    /// The path of an entry is accepted, and its parents are to be checked.
    pub open spec fn entered(self, path: Seq<u8>) -> ExtractionView {
        ExtractionView {
            steps: self.steps.push(ExtractStepView::CheckParents(path)),
            seen: self.seen.push(crate::helper::archive::parts_from(path, 0)),
            ..self
        }
    }

    /// Takes one entry: what is to be done for it, and what is wrong with it, if anything.
    pub open spec fn taken(self, entry: TarEntryView) -> (ExtractionView, Option<BridgeErrorView>) {
        if self.seen.len() >= MAX_COPY_ENTRIES {
            (self, Some(BridgeErrorView::TooManyCopyEntries))
        } else if !crate::helper::archive::valid_name(entry.path) || seen_before(
            self.seen,
            entry.path,
        ) {
            (
                self,
                Some(
                    BridgeErrorView::UnsafeCopyArchive(
                        "invalid or duplicate path "@ + crate::text::lossy_text(entry.path),
                    ),
                ),
            )
        } else {
            let inside = self.entered(entry.path);
            match entry.mode {
                Err(error) => (inside, Some(BridgeErrorView::Io(error))),
                Ok(mode) => inside.created(entry, mode & 0o777),
            }
        }
    }

    /// Creates what an entry describes.
    pub open spec fn created(self, entry: TarEntryView, mode: u32) -> (
        ExtractionView,
        Option<BridgeErrorView>,
    ) {
        if entry.kind == KIND_DIRECTORY {
            (
                ExtractionView {
                    directories: self.directories.push((entry.path, mode)),
                    ..self.with_step(ExtractStepView::CreateDirectory(entry.path))
                },
                None,
            )
        } else if entry.kind == KIND_FILE {
            (
                self.with_step(
                    ExtractStepView::CreateFile {
                        path: entry.path,
                        mode,
                        position: entry.position,
                        size: entry.size,
                    },
                ),
                None,
            )
        } else if entry.kind == KIND_SYMLINK {
            match entry.link {
                None => (
                    self,
                    Some(BridgeErrorView::UnsafeCopyArchive("symlink has no target"@)),
                ),
                Some(target) => if crate::helper::archive::valid_link(entry.path, target) {
                    (
                        self.with_step(ExtractStepView::CreateLink { path: entry.path, target }),
                        None,
                    )
                } else {
                    (
                        self,
                        Some(
                            BridgeErrorView::UnsafeCopyArchive(
                                "symlink "@ + crate::text::lossy_text(entry.path)
                                    + " escapes the copied root"@,
                            ),
                        ),
                    )
                },
            }
        } else {
            (
                self,
                Some(
                    BridgeErrorView::UnsafeCopyArchive(
                        "unsupported tar entry type "@ + crate::text::decimal_text(
                            entry.kind as nat,
                        ),
                    ),
                ),
            )
        }
    }
}

/// What the first entries of an archive come to.
pub open spec fn extraction_of(entries: Seq<TarEntryView>, upto: nat) -> (
    ExtractionView,
    Option<BridgeErrorView>,
)
    decreases upto,
{
    if upto == 0 {
        (ExtractionView::nothing(), None)
    } else {
        let before = extraction_of(entries, (upto - 1) as nat);
        if before.1 is Some {
            before
        } else {
            before.0.taken(entries[upto - 1])
        }
    }
}

/// Whether the root itself is among the paths.
pub open spec fn has_root(seen: Seq<Seq<Seq<u8>>>) -> bool {
    exists|i: int| 0 <= i < seen.len() && (#[trigger] seen[i]).len() == 1
}

/// The modes of directories, from the last to the first, so that none bars the way to another.
pub open spec fn mode_steps(directories: Seq<(Seq<u8>, u32)>, upto: nat) -> Seq<ExtractStepView>
    decreases upto,
{
    if upto == 0 {
        Seq::empty()
    } else {
        seq![
            ExtractStepView::SetMode {
                path: directories[upto - 1].0,
                mode: directories[upto - 1].1,
            },
        ] + mode_steps(directories, (upto - 1) as nat)
    }
}

/// How an archive is unpacked: what is done, and the error that comes after it, if any.
pub open spec fn extraction_plan(listing: (Seq<TarEntryView>, Option<Seq<char>>)) -> (
    Seq<ExtractStepView>,
    Option<BridgeErrorView>,
) {
    let done = extraction_of(listing.0, listing.0.len());
    if done.1 is Some {
        (done.0.steps, done.1)
    } else if listing.1 is Some && listing.0.len() >= MAX_COPY_ENTRIES {
        (done.0.steps, Some(BridgeErrorView::TooManyCopyEntries))
    } else if listing.1 is Some {
        (done.0.steps, Some(BridgeErrorView::Io(listing.1->0)))
    } else if !has_root(done.0.seen) {
        (
            done.0.steps,
            Some(BridgeErrorView::UnsafeCopyArchive("archive is missing its root entry"@)),
        )
    } else {
        (
            done.0.steps + mode_steps(done.0.directories, done.0.directories.len()),
            None,
        )
    }
}

impl Extraction {
    fn new() -> (extraction: Extraction)
        ensures
            extraction@ == ExtractionView::nothing(),
    {
        let extraction = Extraction {
            steps: Vec::new(),
            seen: Vec::new(),
            directories: Vec::new(),
        };
        assert(extraction@ =~= ExtractionView::nothing());
        extraction
    }

    fn push(&mut self, step: ExtractStep)
        ensures
            final(self)@ == old(self)@.with_step(step@),
    {
        let ghost given = step@;
        self.steps.push(step);
        assert(self@ =~= old(self)@.with_step(given));
    }

    fn was_seen(&self, parts: &Vec<Vec<u8>>) -> (found: bool)
        ensures
            found == self@.seen.contains(crate::helper::archive::byte_views(parts@)),
    {
        let ghost views = self@.seen;
        let ghost wanted = crate::helper::archive::byte_views(parts@);
        let mut i: usize = 0;
        while i < self.seen.len()
            invariant
                i <= self.seen@.len(),
                views == path_views(self.seen@),
                wanted == crate::helper::archive::byte_views(parts@),
                forall|j: int| 0 <= j < i ==> views[j] != wanted,
            decreases self.seen@.len() - i,
        {
            assert(views[i as int] == crate::helper::archive::byte_views(
                self.seen@[i as int]@,
            ));
            if same_parts(&self.seen[i], parts) {
                return true;
            }
            i += 1;
        }
        false
    }

    /// Takes one entry.
    pub fn take(&mut self, entry: &TarEntry) -> (taken: Result<(), BridgeError>)
        ensures
            final(self)@ == old(self)@.taken(entry@).0,
            match taken {
                Ok(()) => old(self)@.taken(entry@).1 is None,
                Err(error) => old(self)@.taken(entry@).1 == Some(error@),
            },
    {
        let ghost whole = entry@;
        assert(self@.seen.len() == self.seen@.len());
        if self.seen.len() >= MAX_COPY_ENTRIES {
            return Err(BridgeError::TooManyCopyEntries);
        }
        let path: &[u8] = entry.path.as_slice();
        let parts = split_parts(path);
        if !valid_archive_path(path) || self.was_seen(&parts) {
            return Err(
                BridgeError::UnsafeCopyArchive(
                    join("invalid or duplicate path ", from_utf8_lossy(path).as_str()),
                ),
            );
        }
        let ghost before = self@;
        self.steps.push(ExtractStep::CheckParents(copy_bytes(path)));
        self.seen.push(parts);
        assert(self@ =~= before.entered(whole.path));
        let mode: u32 = match &entry.mode {
            Ok(mode) => *mode & 0o777,
            Err(error) => {
                return Err(BridgeError::Io(error.as_str().to_owned()));
            },
        };
        let ghost inside = self@;
        if entry.kind == KIND_DIRECTORY {
            self.directories.push((copy_bytes(path), mode));
            self.push(ExtractStep::CreateDirectory(copy_bytes(path)));
            assert(self@ =~= inside.created(whole, mode).0);
            return Ok(());
        }
        if entry.kind == KIND_FILE {
            self.push(
                ExtractStep::CreateFile {
                    path: copy_bytes(path),
                    mode,
                    position: entry.position,
                    size: entry.size,
                },
            );
            return Ok(());
        }
        if entry.kind == KIND_SYMLINK {
            let target: &[u8] = match &entry.link {
                Some(target) => target.as_slice(),
                None => {
                    return Err(
                        BridgeError::UnsafeCopyArchive("symlink has no target".to_owned()),
                    );
                },
            };
            if !valid_archive_symlink(path, target) {
                return Err(
                    BridgeError::UnsafeCopyArchive(
                        join3(
                            "symlink ",
                            from_utf8_lossy(path).as_str(),
                            " escapes the copied root",
                        ),
                    ),
                );
            }
            self.push(
                ExtractStep::CreateLink { path: copy_bytes(path), target: copy_bytes(target) },
            );
            return Ok(());
        }
        Err(
            BridgeError::UnsafeCopyArchive(
                join("unsupported tar entry type ", decimal(entry.kind as u64).as_str()),
            ),
        )
    }

    fn root_was_seen(&self) -> (found: bool)
        ensures
            found == has_root(self@.seen),
    {
        let ghost views = self@.seen;
        let mut i: usize = 0;
        while i < self.seen.len()
            invariant
                i <= self.seen@.len(),
                views == path_views(self.seen@),
                forall|j: int| 0 <= j < i ==> (#[trigger] views[j]).len() != 1,
            decreases self.seen@.len() - i,
        {
            assert(views[i as int] == crate::helper::archive::byte_views(
                self.seen@[i as int]@,
            ));
            if self.seen[i].len() == 1 {
                return true;
            }
            i += 1;
        }
        false
    }

    fn push_modes(&mut self)
        ensures
            final(self)@ == (ExtractionView {
                steps: old(self)@.steps + mode_steps(
                    old(self)@.directories,
                    old(self)@.directories.len(),
                ),
                ..old(self)@
            }),
    {
        let ghost before = self@;
        let ghost directories = before.directories;
        let mut upto: usize = self.directories.len();
        assert(directories.len() == upto);
        while upto > 0
            invariant
                upto <= self.directories@.len(),
                directories == directory_views(self.directories@),
                self@.seen == before.seen,
                self@.directories == before.directories,
                before.directories == directories,
                self@.steps + mode_steps(directories, upto as nat) == before.steps + mode_steps(
                    directories,
                    directories.len(),
                ),
            decreases upto,
        {
            let ghost earlier = self@.steps;
            let mode: u32 = self.directories[upto - 1].1;
            let path = copy_bytes(self.directories[upto - 1].0.as_slice());
            assert(directories[upto - 1] == (path@, mode));
            self.push(ExtractStep::SetMode { path, mode });
            upto -= 1;
            assert(self@.steps + mode_steps(directories, upto as nat) =~= earlier + mode_steps(
                directories,
                (upto + 1) as nat,
            ));
        }
        assert(self@.steps + mode_steps(directories, 0) =~= self@.steps);
        assert(self@ =~= (ExtractionView {
            steps: before.steps + mode_steps(directories, directories.len()),
            ..before
        }));
    }
}

/// Plans how entries are unpacked; `failure` is what is wrong behind the last of them, if
/// anything.
pub fn plan_extraction(entries: Vec<TarEntry>, failure: Option<String>) -> (plan: (
    Vec<ExtractStep>,
    Option<BridgeError>,
))
    ensures
        ({
            let expected = extraction_plan(
                (entry_views(entries@), crate::text::text_of(failure)),
            );
            &&& step_views(plan.0@) == expected.0
            &&& match plan.1 {
                Some(error) => expected.1 == Some(error@),
                None => expected.1 is None,
            }
        }),
{
    let ghost views = entry_views(entries@);
    let mut extraction = Extraction::new();
    let mut done: usize = 0;
    while done < entries.len()
        invariant
            done <= entries@.len(),
            views == entry_views(entries@),
            extraction_of(views, done as nat) == (extraction@, None::<BridgeErrorView>),
        decreases entries@.len() - done,
    {
        assert(views[done as int] == entries@[done as int]@);
        let taken = extraction.take(&entries[done]);
        assert(extraction_of(views, (done + 1) as nat).0 == extraction@);
        match taken {
            Ok(()) => {},
            Err(error) => {
                proof {
                    lemma_extraction_stops(views, (done + 1) as nat, views.len());
                }
                return (extraction.steps, Some(error));
            },
        }
        done += 1;
    }
    match failure {
        Some(error) => {
            if entries.len() >= MAX_COPY_ENTRIES {
                return (extraction.steps, Some(BridgeError::TooManyCopyEntries));
            }
            return (extraction.steps, Some(BridgeError::Io(error)));
        },
        None => {},
    }
    if !extraction.root_was_seen() {
        return (
            extraction.steps,
            Some(BridgeError::UnsafeCopyArchive("archive is missing its root entry".to_owned())),
        );
    }
    extraction.push_modes();
    (extraction.steps, None)
}

proof fn lemma_extraction_stops(entries: Seq<TarEntryView>, upto: nat, all: nat)
    requires
        upto <= all,
        extraction_of(entries, upto).1 is Some,
    ensures
        extraction_of(entries, all) == extraction_of(entries, upto),
    decreases all - upto,
{
    if upto < all {
        lemma_extraction_stops(entries, upto, (all - 1) as nat);
    }
}

/// How the bytes of an archive are unpacked: by what can be listed of it.
pub open spec fn archive_plan(archive: Seq<u8>) -> (Seq<ExtractStepView>, Option<BridgeErrorView>) {
    extraction_plan(tar_listing(archive.subrange(0, crate::helper::headers::listable(archive))))
}

/// Plans how an archive is unpacked.  An archive that a tree was packed into is unpacked without a
/// complaint, and everything in the tree is made, its links as links.
pub fn extract_copy_archive(archive: &[u8]) -> (plan: (Vec<ExtractStep>, Option<BridgeError>))
    ensures
        ({
            let expected = archive_plan(archive@);
            &&& step_views(plan.0@) == expected.0
            &&& match plan.1 {
                Some(error) => expected.1 == Some(error@),
                None => expected.1 is None,
            }
        }),
        forall|entries: Seq<PackedView>|
            crate::helper::unpack::is_tree(entries) && #[trigger] crate::helper::unpack::archive_of(
                entries,
            ) == Some(archive@) ==> plan.1 is None && crate::helper::unpack::makes_all(
                step_views(plan.0@),
                entries,
                archive@,
            ),
{
    let length: usize = listable_length(archive);
    proof {
        crate::helper::headers::lemma_listable_part(archive@);
    }
    let part: &[u8] = slice_subrange(archive, 0, length);
    let (entries, failure) = list_archive(part);
    proof {
        let listing = (entry_views(entries@), crate::text::text_of(failure));
        assert forall|packed: Seq<PackedView>|
            crate::helper::unpack::is_tree(packed) && #[trigger] crate::helper::unpack::archive_of(
                packed,
            ) == Some(archive@) implies extraction_plan(listing).1 is None
            && crate::helper::unpack::makes_all(extraction_plan(listing).0, packed, archive@) by {
            assert(crate::helper::headers::makes_up(packed, archive@));
            assert(part@ =~= archive@);
            crate::helper::unpack::lemma_tree_is_unpacked(listing, packed, archive@);
        }
    }
    plan_extraction(entries, failure)
}

/// Whether a step is about a path below the archive's root, gives nothing but permissions, and, if
/// it creates a link, creates one that leads nowhere else.
pub open spec fn step_is_safe(step: ExtractStepView) -> bool {
    match step {
        ExtractStepView::CheckParents(path) => crate::helper::archive::valid_name(path),
        ExtractStepView::CreateDirectory(path) => crate::helper::archive::valid_name(path),
        ExtractStepView::CreateFile { path, mode, .. } => crate::helper::archive::valid_name(path)
            && mode <= 0o777,
        ExtractStepView::CreateLink { path, target } => crate::helper::archive::valid_name(path)
            && crate::helper::archive::valid_link(path, target),
        ExtractStepView::SetMode { path, mode } => crate::helper::archive::valid_name(path)
            && mode <= 0o777,
    }
}

/// Whatever an archive holds, nothing is created outside the root, no link is created that leads
/// out of it, and no mode holds more than permissions.
pub proof fn law_extraction_stays_below_the_root(listing: (Seq<TarEntryView>, Option<Seq<char>>))
    ensures
        forall|i: int|
            0 <= i < extraction_plan(listing).0.len() ==> step_is_safe(
                #[trigger] extraction_plan(listing).0[i],
            ),
{
    let done = extraction_of(listing.0, listing.0.len());
    lemma_extraction_is_safe(listing.0, listing.0.len());
    lemma_modes_are_safe(done.0.directories, done.0.directories.len());
    let steps = extraction_plan(listing).0;
    assert forall|i: int| 0 <= i < steps.len() implies step_is_safe(#[trigger] steps[i]) by {
        if i < done.0.steps.len() {
            assert(steps[i] == done.0.steps[i]);
        } else {
            let modes = mode_steps(done.0.directories, done.0.directories.len());
            assert(steps[i] == modes[i - done.0.steps.len()]);
        }
    }
}

spec fn directory_is_safe(directory: (Seq<u8>, u32)) -> bool {
    crate::helper::archive::valid_name(directory.0) && directory.1 <= 0o777
}

proof fn lemma_extraction_is_safe(entries: Seq<TarEntryView>, upto: nat)
    ensures
        forall|i: int|
            0 <= i < extraction_of(entries, upto).0.steps.len() ==> step_is_safe(
                #[trigger] extraction_of(entries, upto).0.steps[i],
            ),
        forall|i: int|
            0 <= i < extraction_of(entries, upto).0.directories.len()
                ==> directory_is_safe(#[trigger] extraction_of(entries, upto).0.directories[i]),
    decreases upto,
{
    if upto > 0 {
        let before = extraction_of(entries, (upto - 1) as nat);
        lemma_extraction_is_safe(entries, (upto - 1) as nat);
        let after = extraction_of(entries, upto);
        if before.1 is None {
            let entry = entries[upto - 1];
            let mode = match entry.mode {
                Ok(mode) => mode,
                Err(_) => 0,
            };
            assert(mode & 0o777 <= 0o777) by (bit_vector);
            assert forall|i: int| 0 <= i < after.0.steps.len() implies step_is_safe(
                #[trigger] after.0.steps[i],
            ) by {
                if i < before.0.steps.len() {
                    assert(after.0.steps[i] == before.0.steps[i]);
                }
            }
            assert forall|i: int|
                0 <= i < after.0.directories.len() implies directory_is_safe(
                #[trigger] after.0.directories[i],
            ) by {
                if i < before.0.directories.len() {
                    assert(after.0.directories[i] == before.0.directories[i]);
                }
            }
        }
    }
}

proof fn lemma_modes_are_safe(directories: Seq<(Seq<u8>, u32)>, upto: nat)
    requires
        upto <= directories.len(),
        forall|i: int|
            0 <= i < directories.len() ==> directory_is_safe(#[trigger] directories[i]),
    ensures
        forall|i: int|
            0 <= i < mode_steps(directories, upto).len() ==> step_is_safe(
                #[trigger] mode_steps(directories, upto)[i],
            ),
    decreases upto,
{
    if upto > 0 {
        lemma_modes_are_safe(directories, (upto - 1) as nat);
        let rest = mode_steps(directories, (upto - 1) as nat);
        let all = mode_steps(directories, upto);
        assert forall|i: int| 0 <= i < all.len() implies step_is_safe(#[trigger] all[i]) by {
            if i > 0 {
                assert(all[i] == rest[i - 1]);
            } else {
                assert(directory_is_safe(directories[upto - 1]));
            }
        }
    }
}

/// What is at a directory on the way to a path.
#[derive(Debug)]
pub enum ParentKind {
    Directory,
    NotDirectory,
    Symlink,
    Missing(String),
}

/// Judges a directory on the way to a path.
pub fn check_parent(kind: ParentKind) -> (checked: Result<(), BridgeError>)
    ensures
        match checked {
            Ok(()) => kind is Directory,
            Err(error) => match kind {
                ParentKind::Directory => false,
                ParentKind::Missing(reason) => error@ == BridgeErrorView::Io(reason@),
                _ => error@ == BridgeErrorView::UnsafeCopyArchive(
                    "archive parent is not a real directory"@,
                ),
            },
        },
{
    match kind {
        ParentKind::Directory => Ok(()),
        ParentKind::Missing(reason) => Err(BridgeError::Io(reason)),
        ParentKind::NotDirectory | ParentKind::Symlink => Err(
            BridgeError::UnsafeCopyArchive("archive parent is not a real directory".to_owned()),
        ),
    }
}

/// The directory in which something is unpacked.
pub fn check_destination(destination: &str, exists: bool) -> (directory: Result<String, BridgeError>)
    ensures
        match directory {
            Ok(path) => !exists && crate::paths::parent_of(destination@) == Some(path@),
            Err(error) => if exists {
                error@ == BridgeErrorView::CopyDestinationExists(destination@)
            } else {
                crate::paths::parent_of(destination@) is None && error@
                    == BridgeErrorView::UnsafeCopyArchive("copy-out destination has no parent"@)
            },
        },
{
    if exists {
        return Err(BridgeError::CopyDestinationExists(destination.to_owned()));
    }
    match parent(destination) {
        Some(path) => Ok(path),
        None => Err(
            BridgeError::UnsafeCopyArchive("copy-out destination has no parent".to_owned()),
        ),
    }
}

} // verus!
