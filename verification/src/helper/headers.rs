//! The headers of an archive, one after the other, and how much of it can be listed.
//!
//! The size of an entry moves the place of the next header, and so does each further block of a
//! sparse entry.  A place beyond the greatest number there is can only come from such blocks: the
//! archive is then listed up to the block with which it would be reached.

use vstd::prelude::*;
use vstd::slice::*;

use crate::bytes::same_bytes;
use crate::helper::unpack::PackedView;
use crate::text::read_decimal;

verus! {

pub const BLOCK_BYTES: usize = 512;

/// The kinds of headers that say something of the next entry: its name, its link, its attributes;
/// and the attributes of all entries.
pub const KIND_LONG_NAME: u8 = 0x4c;

pub const KIND_LONG_LINK: u8 = 0x4b;

pub const KIND_ATTRIBUTES: u8 = 0x78;

pub const KIND_COMMON_ATTRIBUTES: u8 = 0x67;

pub const KIND_SPARSE: u8 = 0x53;

/// What a header says.
#[derive(Debug, Clone, Copy, PartialEq, Eq, Structural)]
pub struct HeaderFields {
    pub kind: u8,
    pub ustar: bool,
    pub gnu: bool,
    /// Whether a sparse entry goes on in further blocks.
    pub extended: bool,
    /// `None` of a size that cannot be read.
    pub size: Option<u64>,
}

/// What the block of a header says, which is left open here.
pub uninterp spec fn tar_header(block: Seq<u8>) -> HeaderFields;

/// What a header in an archive says.
pub open spec fn header_in(archive: Seq<u8>, at: int) -> HeaderFields {
    tar_header(archive.subrange(at, at + BLOCK_BYTES))
}

/// A size in whole blocks.
pub open spec fn padded(size: int) -> int {
    (size + 511) / 512 * 512
}

/// Whether an entry stands in an archive as it was packed.
pub open spec fn stands_at(archive: Seq<u8>, start: int, packed: PackedView) -> bool {
    match crate::helper::transfer::tar_entry(packed.header, packed.name, packed.data) {
        Ok(bytes) => 0 <= start && start + bytes.len() <= archive.len() && archive.subrange(
            start,
            start + bytes.len(),
        ) == bytes,
        Err(_) => false,
    }
}

/// How far behind its beginning a packed entry has its own header, which its data follow.
pub open spec fn own_header(packed: PackedView) -> int {
    crate::helper::transfer::tar_entry(packed.header, packed.name, packed.data)->Ok_0.len()
        - BLOCK_BYTES - padded(packed.data.len() as int)
}

/// Whether what a header says is what was packed, wherever it belongs to a plain entry that stands
/// in the archive.
pub open spec fn reads_packed(archive: Seq<u8>, at: int, found: HeaderFields) -> bool {
    forall|start: int, packed: PackedView|
        packed.is_plain() && #[trigger] stands_at(archive, start, packed) ==> {
            &&& at == start ==> own_header(packed) >= 0
            &&& at == start + own_header(packed) ==> found.kind == packed.header.kind && found.size
                == Some(packed.data.len() as u64)
            &&& at == start && own_header(packed) > 0 ==> found.kind == KIND_LONG_NAME && found.gnu
                && found.size is Some && BLOCK_BYTES + padded(found.size->0 as int) == own_header(
                packed,
            )
        }
}

/// Reads a block with `tar::Header::from_byte_slice` and asks the header for its kind, its format,
/// its sparse flag and its size.  The contract says that the answers are determined by the block;
/// and that, where a plain entry stands as `encode_entry` made it, its own header has its kind and
/// the size of its data, and whatever comes before that is one long name in the GNU format, which
/// fills the blocks between.
#[verifier::external_body]
fn read_header(archive: &[u8], at: usize) -> (found: HeaderFields)
    requires
        at + BLOCK_BYTES <= archive@.len(),
    ensures
        found == tar_header(archive@.subrange(at as int, at + BLOCK_BYTES)),
        reads_packed(archive@, at as int, found),
{
    let header = tar::Header::from_byte_slice(&archive[at..at + BLOCK_BYTES]);
    HeaderFields {
        kind: header.entry_type().as_byte(),
        ustar: header.as_ustar().is_some(),
        gnu: header.as_gnu().is_some(),
        extended: header.as_gnu().is_some_and(|fields| fields.is_extended()),
        size: header.entry_size().ok(),
    }
}

/// A record of an entry's attributes: its key and its value, or nothing where it is broken.
pub open spec fn record_views(records: Seq<Option<(Vec<u8>, Vec<u8>)>>) -> Seq<
    Option<(Seq<u8>, Seq<u8>)>,
> {
    records.map_values(
        |record: Option<(Vec<u8>, Vec<u8>)>|
            match record {
                Some(pair) => Some((pair.0@, pair.1@)),
                None => None,
            },
    )
}

/// The records of an entry's attributes, which are left open here.
pub uninterp spec fn tar_attributes(data: Seq<u8>) -> Seq<Option<(Seq<u8>, Seq<u8>)>>;

/// Calls `tar::PaxExtensions::new` and takes the records it hands out.  The contract says that they
/// are determined by the data.
#[verifier::external_body]
fn attributes(data: &[u8]) -> (records: Vec<Option<(Vec<u8>, Vec<u8>)>>)
    ensures
        record_views(records@) == tar_attributes(data@),
{
    tar::PaxExtensions::new(data)
        .map(|record| record.ok())
        .map(|record| record.map(|pair| (pair.key_bytes().to_vec(), pair.value_bytes().to_vec())))
        .collect()
}

pub open spec fn size_key() -> Seq<u8> {
    seq![115u8, 105, 122, 101]
}

/// A number in decimal digits, which a plus sign may precede.
pub open spec fn u64_of(text: Seq<u8>) -> Option<u64> {
    let digits = if text.len() > 0 && text[0] == 43 {
        text.subrange(1, text.len() as int)
    } else {
        text
    };
    if digits.len() > 0 && crate::text::is_digits(digits) && crate::text::dec_value(digits)
        <= u64::MAX {
        Some(crate::text::dec_value(digits) as u64)
    } else {
        None
    }
}

/// The size that attributes give an entry: that of the first record of a size, unless a broken
/// record comes before it.
pub open spec fn stated_size(records: Seq<Option<(Seq<u8>, Seq<u8>)>>, from: int) -> Option<u64>
    decreases records.len() - from,
{
    if 0 <= from < records.len() {
        match records[from] {
            None => None,
            Some((key, value)) => if key == size_key() {
                u64_of(value)
            } else {
                stated_size(records, from + 1)
            },
        }
    } else {
        None
    }
}

/// Whether a header is not that of an entry but speaks of others.
pub open spec fn is_extension(found: HeaderFields) -> bool {
    ||| found.kind == KIND_LONG_NAME
    ||| found.kind == KIND_LONG_LINK
    ||| found.kind == KIND_ATTRIBUTES
    ||| found.kind == KIND_COMMON_ATTRIBUTES
}

/// Whether an entry is still to come behind a header that speaks of it.
pub open spec fn announces(found: HeaderFields) -> bool {
    &&& found.ustar || found.gnu
    &&& found.kind == KIND_LONG_NAME || found.kind == KIND_LONG_LINK || found.kind
        == KIND_ATTRIBUTES
}

/// The size of what follows a header; `given` is the size that attributes gave the entry.
pub open spec fn size_behind(found: HeaderFields, given: Option<u64>) -> Option<u64> {
    match (found.size, given) {
        (None, _) => None,
        (Some(_), Some(size)) if !is_extension(found) => Some(size),
        (Some(size), _) => Some(size),
    }
}

/// The data behind a header, as far as they are there.
pub open spec fn data_behind(archive: Seq<u8>, at: int, size: u64) -> Seq<u8> {
    archive.subrange(
        at + BLOCK_BYTES,
        if at + BLOCK_BYTES + size <= archive.len() {
            at + BLOCK_BYTES + size
        } else {
            archive.len() as int
        },
    )
}

/// The size that attributes give the next entry, behind a header with its data.
pub open spec fn given_behind(
    archive: Seq<u8>,
    at: int,
    found: HeaderFields,
    size: u64,
    given: Option<u64>,
) -> Option<u64> {
    if !announces(found) {
        None
    } else if found.kind == KIND_ATTRIBUTES {
        stated_size(tar_attributes(data_behind(archive, at, size)), 0)
    } else {
        given
    }
}

/// The number of blocks in which a sparse entry goes on: each says whether another one follows.
pub open spec fn further_blocks(archive: Seq<u8>, from: int) -> nat
    decreases archive.len() - from,
{
    if 0 <= from && from + BLOCK_BYTES <= archive.len() {
        if archive[from + 504] == 1 {
            1 + further_blocks(archive, from + BLOCK_BYTES)
        } else {
            1
        }
    } else {
        0
    }
}

pub open spec fn blocks_behind(archive: Seq<u8>, at: int, found: HeaderFields) -> nat {
    if found.kind == KIND_SPARSE && found.gnu && found.extended {
        further_blocks(archive, at + BLOCK_BYTES)
    } else {
        0
    }
}

/// Whether a block is all zeros, which ends an archive.
pub open spec fn is_blank(archive: Seq<u8>, at: int) -> bool {
    forall|i: int| at <= i < at + BLOCK_BYTES ==> #[trigger] archive[i] == 0
}

/// How much of an archive can be listed without a place beyond all numbers, seen from a header on.
pub open spec fn listable_from(archive: Seq<u8>, at: int, given: Option<u64>) -> int
    decreases archive.len() - at,
{
    if at < 0 || at + BLOCK_BYTES > archive.len() || is_blank(archive, at) {
        archive.len() as int
    } else {
        let found = header_in(archive, at);
        match size_behind(found, given) {
            None => archive.len() as int,
            Some(size) => {
                let next = at + BLOCK_BYTES + padded(size as int);
                let blocks = blocks_behind(archive, at, found);
                if next > u64::MAX {
                    archive.len() as int
                } else if next + 512 * blocks > u64::MAX {
                    at + BLOCK_BYTES + 512 * ((u64::MAX - next) / 512)
                } else if next + 512 * blocks > archive.len() {
                    archive.len() as int
                } else {
                    listable_from(
                        archive,
                        next + 512 * blocks,
                        given_behind(archive, at, found, size, given),
                    )
                }
            },
        }
    }
}

/// How much of an archive can be listed.
pub open spec fn listable(archive: Seq<u8>) -> int {
    listable_from(archive, 0, None)
}

proof fn lemma_further_blocks(archive: Seq<u8>, from: int, cut: int)
    requires
        0 <= from <= cut <= archive.len(),
    ensures
        further_blocks(archive.subrange(0, cut), from) == (if from + 512 * further_blocks(
            archive,
            from,
        ) <= cut {
            further_blocks(archive, from) as int
        } else {
            (cut - from) / 512
        }),
        from + 512 * further_blocks(archive, from) <= archive.len(),
    decreases archive.len() - from,
{
    let part = archive.subrange(0, cut);
    if from + BLOCK_BYTES <= archive.len() {
        if from + BLOCK_BYTES <= cut {
            assert(part[from + 504] == archive[from + 504]);
            if archive[from + 504] == 1 {
                lemma_further_blocks(archive, from + BLOCK_BYTES, cut);
                assert((cut - from) / 512 == (cut - (from + 512)) / 512 + 1);
            }
        } else {
            if archive[from + 504] == 1 {
                lemma_further_blocks(archive, from + BLOCK_BYTES, archive.len() as int);
            }
            assert((cut - from) / 512 == 0);
        }
    }
}

proof fn lemma_cut(archive: Seq<u8>, at: int, given: Option<u64>)
    requires
        0 <= at <= archive.len(),
    ensures
        at <= listable_from(archive, at, given) <= archive.len(),
        ({
            let cut = listable_from(archive, at, given);
            &&& cut < archive.len() ==> at + BLOCK_BYTES <= cut
            &&& listable_from(archive.subrange(0, cut), at, given) == cut
        }),
    decreases archive.len() - at,
{
    let cut = listable_from(archive, at, given);
    if cut == archive.len() {
        assert(archive.subrange(0, cut) =~= archive);
    }
    if at + BLOCK_BYTES <= archive.len() && !is_blank(archive, at) {
        let found = header_in(archive, at);
        match size_behind(found, given) {
            None => {},
            Some(size) => {
                let next = at + BLOCK_BYTES + padded(size as int);
                let blocks = blocks_behind(archive, at, found);
                lemma_further_blocks(archive, at + BLOCK_BYTES, archive.len() as int);
                if next <= u64::MAX {
                    if next + 512 * blocks > u64::MAX {
                        let room = (u64::MAX - next) / 512;
                        assert(room < blocks);
                        assert(cut + BLOCK_BYTES <= archive.len());
                        lemma_further_blocks(archive, at + BLOCK_BYTES, cut);
                        lemma_same_header(archive, at, cut);
                        let part = archive.subrange(0, cut);
                        assert(blocks_behind(part, at, found) == room);
                        assert(next + 512 * room <= u64::MAX);
                        assert(next + 512 * room >= part.len());
                        let later = given_behind(part, at, found, size, given);
                        assert(next + 512 * room == part.len() ==> listable_from(
                            part,
                            next + 512 * room,
                            later,
                        ) == part.len());
                        assert(listable_from(part, at, given) == part.len());
                    } else {
                        let after = next + 512 * blocks;
                        let later = given_behind(archive, at, found, size, given);
                        if after <= archive.len() {
                            lemma_cut(archive, after, later);
                            if cut < archive.len() {
                                lemma_same_header(archive, at, cut);
                                lemma_further_blocks(archive, at + BLOCK_BYTES, cut);
                                let part = archive.subrange(0, cut);
                                assert(blocks_behind(part, at, found) == blocks);
                                assert(data_behind(part, at, size) =~= data_behind(
                                    archive,
                                    at,
                                    size,
                                ));
                                assert(listable_from(part, at, given) == listable_from(
                                    part,
                                    after,
                                    later,
                                ));
                            }
                        }
                    }
                }
            },
        }
    }
}

proof fn lemma_same_header(archive: Seq<u8>, at: int, cut: int)
    requires
        0 <= at,
        at + BLOCK_BYTES <= cut <= archive.len(),
    ensures
        header_in(archive.subrange(0, cut), at) == header_in(archive, at),
        is_blank(archive.subrange(0, cut), at) == is_blank(archive, at),
{
    let part = archive.subrange(0, cut);
    assert(part.subrange(at, at + BLOCK_BYTES) =~= archive.subrange(at, at + BLOCK_BYTES));
    if is_blank(part, at) {
        assert forall|i: int| at <= i < at + BLOCK_BYTES implies #[trigger] archive[i] == 0 by {
            assert(part[i] == 0);
        }
    }
}

/// What can be listed of an archive can be listed whole.
pub proof fn lemma_listable_part(archive: Seq<u8>)
    ensures
        0 <= listable(archive) <= archive.len(),
        listable(archive.subrange(0, listable(archive))) == listable(archive),
{
    lemma_cut(archive, 0, None);
}

fn read_size(text: &[u8]) -> (size: Option<u64>)
    ensures
        size == u64_of(text@),
{
    let digits: &[u8] = if text.len() > 0 && text[0] == 43 {
        slice_subrange(text, 1, text.len())
    } else {
        text
    };
    read_decimal(digits, u64::MAX)
}

fn find_size(records: &Vec<Option<(Vec<u8>, Vec<u8>)>>) -> (size: Option<u64>)
    ensures
        size == stated_size(record_views(records@), 0),
{
    let ghost views = record_views(records@);
    let key: [u8; 4] = [115, 105, 122, 101];
    assert(key@ =~= size_key());
    let mut i: usize = 0;
    while i < records.len()
        invariant
            i <= records@.len(),
            views == record_views(records@),
            key@ == size_key(),
            stated_size(views, 0) == stated_size(views, i as int),
        decreases records@.len() - i,
    {
        match &records[i] {
            None => {
                assert(views[i as int] is None);
                return None;
            },
            Some(pair) => {
                assert(views[i as int] == Some((pair.0@, pair.1@)));
                if same_bytes(pair.0.as_slice(), key.as_slice()) {
                    return read_size(pair.1.as_slice());
                }
            },
        }
        i += 1;
    }
    None
}

fn count_further_blocks(archive: &[u8], from: usize) -> (count: usize)
    requires
        from <= archive@.len(),
    ensures
        count == further_blocks(archive@, from as int),
        from + 512 * count <= archive@.len(),
{
    assert(archive.len() == archive@.len());
    let mut count: usize = 0;
    let mut at: usize = from;
    while archive.len() - at >= BLOCK_BYTES
        invariant
            at == from + 512 * count,
            at <= archive@.len() <= usize::MAX,
            further_blocks(archive@, from as int) == count + further_blocks(archive@, at as int),
        decreases archive@.len() - at,
    {
        count += 1;
        if archive[at + 504] != 1 {
            return count;
        }
        at += BLOCK_BYTES;
    }
    count
}

fn block_is_blank(archive: &[u8], at: usize) -> (blank: bool)
    requires
        at + BLOCK_BYTES <= archive@.len(),
    ensures
        blank == is_blank(archive@, at as int),
{
    assert(archive.len() == archive@.len());
    let mut i: usize = 0;
    while i < BLOCK_BYTES
        invariant
            i <= BLOCK_BYTES,
            at + BLOCK_BYTES <= archive@.len() <= usize::MAX,
            forall|j: int| at <= j < at + i ==> #[trigger] archive@[j] == 0,
        decreases BLOCK_BYTES - i,
    {
        if archive[at + i] != 0 {
            return false;
        }
        i += 1;
    }
    true
}

/// Whether entries are plain and make up an archive.
pub open spec fn makes_up(entries: Seq<PackedView>, archive: Seq<u8>) -> bool {
    crate::helper::unpack::all_plain(entries) && crate::helper::unpack::archive_of(entries) == Some(
        archive,
    )
}

/// Where an entry of an archive begins.
pub open spec fn start_of(entries: Seq<PackedView>, i: int) -> int {
    crate::helper::unpack::body_of(entries.subrange(0, i))->0.len() as int
}

/// Whether a place is where an entry begins, where it has its own header, or behind the last one.
spec fn is_header_place(entries: Seq<PackedView>, at: int) -> bool {
    exists|i: int| #[trigger] is_header_of(entries, i, at)
}

spec fn is_header_of(entries: Seq<PackedView>, i: int, at: int) -> bool {
    &&& 0 <= i <= entries.len()
    &&& at == start_of(entries, i) || (i < entries.len() && at == start_of(entries, i) + own_header(
        entries[i],
    ))
}

proof fn lemma_body(entries: Seq<PackedView>, i: int)
    requires
        0 <= i < entries.len(),
        crate::helper::unpack::body_of(entries) is Some,
    ensures
        ({
            let body = crate::helper::unpack::body_of(entries)->0;
            let packed = entries[i];
            &&& stands_at(body, start_of(entries, i), packed)
            &&& start_of(entries, i + 1) == start_of(entries, i) + BLOCK_BYTES + own_header(packed)
                + padded(packed.data.len() as int)
        }),
    decreases entries.len(),
{
    let body = crate::helper::unpack::body_of(entries)->0;
    let shorter = entries.drop_last();
    let before = crate::helper::unpack::body_of(shorter)->0;
    let last = entries.last();
    let bytes = crate::helper::transfer::tar_entry(last.header, last.name, last.data)->Ok_0;
    assert(body == before + bytes);
    if i == entries.len() - 1 {
        assert(entries.subrange(0, i) =~= shorter);
        assert(entries.subrange(0, i + 1) =~= entries);
        assert(body.subrange(start_of(entries, i), start_of(entries, i) + bytes.len()) =~= bytes);
    } else {
        lemma_body(shorter, i);
        assert(shorter.subrange(0, i) =~= entries.subrange(0, i));
        assert(shorter.subrange(0, i + 1) =~= entries.subrange(0, i + 1));
        let packed = entries[i];
        let own = crate::helper::transfer::tar_entry(
            packed.header,
            packed.name,
            packed.data,
        )->Ok_0;
        let start = start_of(entries, i);
        assert(shorter[i] == packed);
        assert(body.subrange(start, start + own.len()) =~= before.subrange(
            start,
            start + own.len(),
        ));
    }
}

proof fn lemma_entry_stands(entries: Seq<PackedView>, archive: Seq<u8>, i: int)
    requires
        makes_up(entries, archive),
        0 <= i < entries.len(),
    ensures
        stands_at(archive, start_of(entries, i), entries[i]),
        start_of(entries, i + 1) == start_of(entries, i) + BLOCK_BYTES + own_header(entries[i])
            + padded(entries[i].data.len() as int),
{
    lemma_body(entries, i);
    let body = crate::helper::unpack::body_of(entries)->0;
    let packed = entries[i];
    let own = crate::helper::transfer::tar_entry(packed.header, packed.name, packed.data)->Ok_0;
    let start = start_of(entries, i);
    assert(archive.subrange(start, start + own.len()) =~= body.subrange(start, start + own.len()));
}

/// In an archive of plain entries, a header at such a place is no sparse one, and leads to another
/// such place.
proof fn lemma_next_place(entries: Seq<PackedView>, archive: Seq<u8>, at: int, found: HeaderFields)
    requires
        makes_up(entries, archive),
        is_header_place(entries, at),
        reads_packed(archive, at, found),
        at + BLOCK_BYTES <= archive.len(),
        !is_blank(archive, at),
    ensures
        found.kind != KIND_SPARSE,
        found.kind != KIND_ATTRIBUTES,
        found.size is Some,
        is_header_place(entries, at + BLOCK_BYTES + padded(found.size->0 as int)),
{
    let i = choose|i: int| #[trigger] is_header_of(entries, i, at);
    if i == entries.len() {
        assert(entries.subrange(0, i) =~= entries);
        let body = crate::helper::unpack::body_of(entries)->0;
        assert forall|k: int| at <= k < at + BLOCK_BYTES implies #[trigger] archive[k] == 0 by {
            assert(archive[k] == (body + Seq::new(
                crate::helper::transfer::ARCHIVE_END_BYTES as nat,
                |i: int| 0u8,
            ))[k]);
        }
        assert(false);
    } else {
        lemma_entry_stands(entries, archive, i);
        let packed = entries[i];
        assert(packed.is_plain());
        let start = start_of(entries, i);
        let next = at + BLOCK_BYTES + padded(found.size->0 as int);
        if at == start + own_header(packed) {
            assert(next == start_of(entries, i + 1));
            assert(is_header_of(entries, i + 1, next));
        } else {
            assert(at == start);
            assert(next == start + own_header(packed));
            assert(is_header_of(entries, i, next));
        }
    }
}

/// Finds out how much of an archive can be listed.  An archive of plain entries can be listed
/// whole.
pub fn listable_length(archive: &[u8]) -> (length: usize)
    ensures
        length == listable(archive@),
        forall|entries: Seq<PackedView>|
            #![trigger crate::helper::unpack::archive_of(entries)]
            makes_up(entries, archive@) ==> length == archive@.len(),
{
    assert(archive.len() == archive@.len());
    let mut at: usize = 0;
    let mut given: Option<u64> = None;
    proof {
        assert forall|entries: Seq<PackedView>|
            #![trigger crate::helper::unpack::archive_of(entries)]
            makes_up(entries, archive@) implies is_header_place(entries, 0) by {
            assert(entries.subrange(0, 0) =~= Seq::empty());
            assert(is_header_of(entries, 0, 0));
        }
    }
    while archive.len() - at >= BLOCK_BYTES && !block_is_blank(archive, at)
        invariant
            at <= archive@.len() <= usize::MAX,
            listable(archive@) == listable_from(archive@, at as int, given),
            forall|entries: Seq<PackedView>|
                #![trigger crate::helper::unpack::archive_of(entries)]
                makes_up(entries, archive@) ==> given is None && is_header_place(
                    entries,
                    at as int,
                ),
        decreases archive@.len() - at,
    {
        let found = read_header(archive, at);
        proof {
            assert forall|entries: Seq<PackedView>|
                #![trigger crate::helper::unpack::archive_of(entries)]
                makes_up(entries, archive@) implies found.kind != KIND_SPARSE && found.kind
                != KIND_ATTRIBUTES && found.size is Some && is_header_place(
                entries,
                at + BLOCK_BYTES + padded(found.size->0 as int),
            ) by {
                lemma_next_place(entries, archive@, at as int, found);
            }
        }
        let extension: bool = found.kind == KIND_LONG_NAME || found.kind == KIND_LONG_LINK
            || found.kind == KIND_ATTRIBUTES || found.kind == KIND_COMMON_ATTRIBUTES;
        let size: u64 = match (found.size, given) {
            (None, _) => {
                return archive.len();
            },
            (Some(own), Some(other)) => if extension {
                own
            } else {
                other
            },
            (Some(own), None) => own,
        };
        assert(Some(size) == size_behind(found, given));
        let begin: u64 = (at + BLOCK_BYTES) as u64;
        if size > u64::MAX - 511 {
            return archive.len();
        }
        let full: u64 = (size + 511) / 512 * 512;
        if full > u64::MAX - begin {
            return archive.len();
        }
        let next: u64 = begin + full;
        let blocks: usize = if found.kind == KIND_SPARSE && found.gnu && found.extended {
            count_further_blocks(archive, at + BLOCK_BYTES)
        } else {
            0
        };
        let room: u64 = (u64::MAX - next) / 512;
        if blocks as u64 > room {
            return at + BLOCK_BYTES + 512 * room as usize;
        }
        let after: u64 = next + 512 * blocks as u64;
        if after > archive.len() as u64 {
            return archive.len();
        }
        let announced: bool = (found.ustar || found.gnu) && (found.kind == KIND_LONG_NAME
            || found.kind == KIND_LONG_LINK || found.kind == KIND_ATTRIBUTES);
        let ghost before = given;
        given =
        if !announced {
            None
        } else if found.kind == KIND_ATTRIBUTES {
            find_size(
                &attributes(
                    slice_subrange(archive, at + BLOCK_BYTES, at + BLOCK_BYTES + size as usize),
                ),
            )
        } else {
            given
        };
        assert(given == given_behind(archive@, at as int, found, size, before));
        at = after as usize;
    }
    archive.len()
}

} // verus!
