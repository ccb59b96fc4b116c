//! What was packed into an archive is what is unpacked from it.

use vstd::prelude::*;

use crate::helper::bridge::MAX_COPY_ENTRIES;
use crate::helper::transfer::{
    CopyArchiveView, ExtractStepView, ExtractionView, HeaderView, SourceEntry, TarEntryView,
    ARCHIVE_END_BYTES, KIND_DIRECTORY, KIND_FILE, KIND_SYMLINK,
};

verus! {

/// An entry as it is packed.
pub struct PackedView {
    pub header: HeaderView,
    pub name: Seq<char>,
    pub data: Seq<u8>,
}

impl PackedView {
    pub open spec fn path(self) -> Seq<u8> {
        vstd::utf8::encode_utf8(self.name)
    }

    pub open spec fn target(self) -> Option<Seq<u8>> {
        match self.header.link {
            Some(link) => Some(vstd::utf8::encode_utf8(link)),
            None => None,
        }
    }

    pub open spec fn kept_target(self) -> Option<Seq<u8>> {
        match self.target() {
            Some(target) => Some(kept(target)),
            None => None,
        }
    }

    /// Whether the entry is a file with its data, a directory or a relative link, of a name that is
    /// written in the one way in which an archive keeps it.
    pub open spec fn is_plain(self) -> bool {
        &&& self.header.mode <= 0o777
        &&& self.header.size == self.data.len()
        &&& tidy(self.path())
        &&& forall|i: int|
            0 <= i < crate::helper::archive::parts_from(self.path(), 0).len() ==> {
                &&& (#[trigger] crate::helper::archive::parts_from(self.path(), 0)[i])
                    != crate::helper::archive::dot()
                &&& crate::helper::archive::parts_from(self.path(), 0)[i]
                    != crate::helper::archive::dot_dot()
            }
        &&& match self.target() {
            Some(target) => self.header.kind == KIND_SYMLINK && self.data.len() == 0 && target.len()
                > 0 && !crate::helper::archive::starts_at_root(target),
            None => self.header.kind == KIND_FILE || (self.header.kind == KIND_DIRECTORY
                && self.data.len() == 0),
        }
    }
}

/// Components with one separator between any two.
pub open spec fn rebuilt(parts: Seq<Seq<u8>>) -> Seq<u8>
    decreases parts.len(),
{
    if parts.len() == 0 {
        Seq::empty()
    } else if parts.len() == 1 {
        parts[0]
    } else {
        rebuilt(parts.drop_last()) + seq![crate::helper::archive::SLASH] + parts.last()
    }
}

/// Whether a path is nothing but its components with one separator between any two.
pub open spec fn tidy(path: Seq<u8>) -> bool {
    &&& path.len() > 0
    &&& !path.contains(0)
    &&& path == rebuilt(crate::helper::archive::parts_from(path, 0))
}

/// Whether some bytes are what can stand between two separators.
pub open spec fn is_word(name: Seq<u8>) -> bool {
    name.len() > 0 && !name.contains(crate::helper::archive::SLASH)
}

/// A component behind a path is the last of its components.
proof fn lemma_component_behind(path: Seq<u8>, name: Seq<u8>, from: int)
    requires
        is_word(name),
        name != crate::helper::archive::dot(),
        0 <= from <= path.len(),
    ensures
        crate::helper::archive::parts_from(
            path + seq![crate::helper::archive::SLASH] + name,
            from,
        ) == crate::helper::archive::parts_from(path, from).push(name),
    decreases path.len() - from,
{
    let slash = crate::helper::archive::SLASH;
    let longer = path + seq![slash] + name;
    let behind = path.len() + 1;
    assert forall|j: int| behind <= j < longer.len() implies longer[j] != slash by {
        assert(name[j - behind] == longer[j]);
        assert(name.contains(name[j - behind]));
    }
    crate::text::lemma_find_from(longer, behind as int, longer.len() as int, slash);
    assert(longer.subrange(behind as int, longer.len() as int) =~= name);
    let tail = crate::helper::archive::parts_from(longer, behind as int);
    assert(tail =~= seq![name]) by {
        assert(seq![name] + Seq::empty() =~= seq![name]);
    }
    if from == path.len() {
        crate::text::lemma_find_from(longer, from, from, slash);
        assert(longer.subrange(from, from).len() == 0);
        assert(crate::helper::archive::parts_from(path, from) =~= Seq::empty());
        assert(Seq::<Seq<u8>>::empty().push(name) =~= seq![name]);
    } else {
        let end = crate::text::find_from(path, from, slash);
        lemma_find_bounds(path, from, slash);
        assert forall|j: int| from <= j < end implies longer[j] != slash by {
            assert(longer[j] == path[j]);
        }
        if end < path.len() {
            assert(longer[end] == path[end]);
        }
        crate::text::lemma_find_from(longer, from, end, slash);
        assert(longer.subrange(from, end) =~= path.subrange(from, end));
        if end < path.len() {
            lemma_component_behind(path, name, end + 1);
            let rest = crate::helper::archive::parts_from(path, end + 1);
            assert(seq![path.subrange(from, end)] + rest.push(name) =~= (seq![
                path.subrange(from, end),
            ] + rest).push(name));
        } else {
            assert(seq![path.subrange(from, end)] + seq![name] =~= (seq![
                path.subrange(from, end),
            ] + Seq::empty()).push(name));
            assert(Seq::<Seq<u8>>::empty().push(name) =~= seq![name]);
        }
    }
}

proof fn lemma_find_bounds(text: Seq<u8>, from: int, byte: u8)
    requires
        0 <= from <= text.len(),
    ensures
        from <= crate::text::find_from(text, from, byte) <= text.len(),
        forall|j: int| from <= j < crate::text::find_from(text, from, byte) ==> text[j] != byte,
        crate::text::find_from(text, from, byte) < text.len() ==> text[crate::text::find_from(
            text,
            from,
            byte,
        )] == byte,
    decreases text.len() - from,
{
    if from < text.len() && text[from] != byte {
        lemma_find_bounds(text, from + 1, byte);
    }
}

/// A path that was built of components has these components.
pub proof fn lemma_rebuilt_parts(parts: Seq<Seq<u8>>)
    requires
        parts.len() > 0,
        forall|i: int| 0 <= i < parts.len() ==> is_word(#[trigger] parts[i]),
        forall|i: int|
            0 < i < parts.len() ==> #[trigger] parts[i] != crate::helper::archive::dot(),
    ensures
        crate::helper::archive::parts_from(rebuilt(parts), 0) == parts,
        rebuilt(parts).len() > 0,
        (forall|i: int| 0 <= i < parts.len() ==> !(#[trigger] parts[i]).contains(0))
            ==> !rebuilt(parts).contains(0),
        rebuilt(parts)[0] == parts[0][0],
        rebuilt(parts).last() != crate::helper::archive::SLASH,
    decreases parts.len(),
{
    let slash = crate::helper::archive::SLASH;
    let last = parts.last();
    assert(is_word(last));
    assert(last.contains(last.last()));
    if parts.len() == 1 {
        assert(parts =~= seq![last]);
        assert forall|j: int| 0 <= j < last.len() implies last[j] != slash by {
            assert(last.contains(last[j]));
        }
        crate::text::lemma_find_from(last, 0, last.len() as int, slash);
        assert(last.subrange(0, last.len() as int) =~= last);
        assert(seq![last] + Seq::empty() =~= seq![last]);
    } else {
        let rest = parts.drop_last();
        assert forall|i: int| 0 <= i < rest.len() implies is_word(#[trigger] rest[i]) by {
            assert(rest[i] == parts[i]);
        }
        assert forall|i: int| 0 < i < rest.len() implies #[trigger] rest[i]
            != crate::helper::archive::dot() by {
            assert(rest[i] == parts[i]);
        }
        lemma_rebuilt_parts(rest);
        let path = rebuilt(rest);
        let whole = rebuilt(parts);
        lemma_component_behind(path, last, 0);
        assert(rest.push(last) =~= parts);
        if forall|i: int| 0 <= i < parts.len() ==> !(#[trigger] parts[i]).contains(0) {
            assert forall|i: int| 0 <= i < rest.len() implies !(#[trigger] rest[i]).contains(
                0,
            ) by {
                assert(rest[i] == parts[i]);
            }
            assert(!last.contains(0));
            assert forall|j: int| 0 <= j < whole.len() implies whole[j] != 0 by {
                if j < path.len() {
                    assert(whole[j] == path[j]);
                    assert(path.contains(path[j]));
                } else if j > path.len() {
                    assert(whole[j] == last[j - path.len() - 1]);
                    assert(last.contains(last[j - path.len() - 1]));
                }
            }
        }
        assert(whole.last() == last.last());
    }
}

/// The components of a path are words, and none but the first is the current directory.
proof fn lemma_parts_are_words(path: Seq<u8>, from: int)
    requires
        0 <= from,
    ensures
        forall|i: int|
            0 <= i < crate::helper::archive::parts_from(path, from).len() ==> is_word(
                #[trigger] crate::helper::archive::parts_from(path, from)[i],
            ) && (i > 0 || from > 0 ==> crate::helper::archive::parts_from(path, from)[i]
                != crate::helper::archive::dot()),
    decreases path.len() - from,
{
    let slash = crate::helper::archive::SLASH;
    let parts = crate::helper::archive::parts_from(path, from);
    if from < path.len() {
        let end = crate::text::find_from(path, from, slash);
        lemma_find_bounds(path, from, slash);
        let word = path.subrange(from, end);
        assert(!word.contains(slash)) by {
            if word.contains(slash) {
                let i = choose|i: int| 0 <= i < word.len() && word[i] == slash;
                assert(path[from + i] == slash);
            }
        }
        let rest = if end < path.len() {
            crate::helper::archive::parts_from(path, end + 1)
        } else {
            Seq::empty()
        };
        if end < path.len() {
            lemma_parts_are_words(path, end + 1);
        }
        assert(parts == rest || parts == seq![word] + rest);
        assert forall|i: int| 0 <= i < parts.len() implies is_word(#[trigger] parts[i]) && (i > 0
            || from > 0 ==> parts[i] != crate::helper::archive::dot()) by {
            if parts == rest {
                assert(is_word(rest[i]));
            } else if i > 0 {
                assert(parts[i] == rest[i - 1]);
                assert(is_word(rest[i - 1]));
            }
        }
    }
}

/// A separator behind a path adds no component.
proof fn lemma_separator_behind(path: Seq<u8>, from: int)
    requires
        0 <= from <= path.len(),
    ensures
        crate::helper::archive::parts_from(path + seq![crate::helper::archive::SLASH], from)
            == crate::helper::archive::parts_from(path, from),
    decreases path.len() - from,
{
    let slash = crate::helper::archive::SLASH;
    let longer = path + seq![slash];
    assert(crate::helper::archive::parts_from(longer, longer.len() as int) =~= Seq::empty());
    if from == path.len() {
        crate::text::lemma_find_from(longer, from, from, slash);
        assert(longer.subrange(from, from).len() == 0);
        assert(crate::helper::archive::parts_from(path, from) =~= Seq::empty());
    } else {
        let end = crate::text::find_from(path, from, slash);
        lemma_find_bounds(path, from, slash);
        assert forall|j: int| from <= j < end implies longer[j] != slash by {
            assert(longer[j] == path[j]);
        }
        if end < path.len() {
            assert(longer[end] == path[end]);
        }
        crate::text::lemma_find_from(longer, from, end, slash);
        assert(longer.subrange(from, end) =~= path.subrange(from, end));
        if end < path.len() {
            lemma_separator_behind(path, end + 1);
        }
    }
}

/// The target of a link as an archive keeps it: its components with one separator between any two,
/// and one behind them where there is one.
pub open spec fn kept(target: Seq<u8>) -> Seq<u8> {
    rebuilt(crate::helper::archive::parts_from(target, 0)) + (if target.len() > 0 && target.last()
        == crate::helper::archive::SLASH {
        seq![crate::helper::archive::SLASH]
    } else {
        Seq::empty()
    })
}

/// A target that an archive keeps has the components of the target that was given, so that it leads
/// to the same place; and where a target holds no separator and no current directory for nothing,
/// it is kept as it is.
pub proof fn law_links_lead_to_the_same_place(name: Seq<u8>, target: Seq<u8>)
    requires
        target.len() > 0,
        !crate::helper::archive::starts_at_root(target),
    ensures
        crate::helper::archive::link_end(name, kept(target)) == crate::helper::archive::link_end(
            name,
            target,
        ),
        crate::helper::archive::valid_link(name, kept(target))
            == crate::helper::archive::valid_link(name, target),
        kept(kept(target)) == kept(target),
        tidy(target) ==> kept(target) == target && kept(
            target + seq![crate::helper::archive::SLASH],
        ) == target + seq![crate::helper::archive::SLASH],
{
    let slash = crate::helper::archive::SLASH;
    let parts = crate::helper::archive::parts_from(target, 0);
    lemma_parts_are_words(target, 0);
    lemma_find_bounds(target, 0, slash);
    assert(parts.len() > 0);
    assert forall|i: int| 0 <= i < parts.len() implies is_word(#[trigger] parts[i]) by {}
    lemma_rebuilt_parts(parts);
    let path = rebuilt(parts);
    assert(is_word(parts[0]));
    assert(parts[0].contains(parts[0][0]));
    lemma_separator_behind(path, 0);
    assert(path + Seq::empty() =~= path);
    assert(kept(target).len() > 0);
    assert(!crate::helper::archive::starts_at_root(kept(target)));
    if target.last() == slash {
        assert(kept(target).last() == slash);
    } else {
        assert(kept(target) =~= path);
    }
    if tidy(target) {
        assert(target == path);
        lemma_separator_behind(target, 0);
        assert((target + seq![slash]).last() == slash);
        assert(kept(target) =~= target);
    }
}

/// The bytes of entries that are packed one after the other, if each can be packed.
pub open spec fn body_of(entries: Seq<PackedView>) -> Option<Seq<u8>>
    decreases entries.len(),
{
    if entries.len() == 0 {
        Some(Seq::empty())
    } else {
        let last = entries.last();
        match (
            body_of(entries.drop_last()),
            crate::helper::transfer::tar_entry(last.header, last.name, last.data),
        ) {
            (Some(before), Ok(bytes)) => Some(before + bytes),
            _ => None,
        }
    }
}

/// The whole archive of some entries.
pub open spec fn archive_of(entries: Seq<PackedView>) -> Option<Seq<u8>> {
    match body_of(entries) {
        Some(body) => Some(body + Seq::new(ARCHIVE_END_BYTES as nat, |i: int| 0u8)),
        None => None,
    }
}

/// Whether an archive's entry is the one that was packed, with its data in its place.
pub open spec fn is_found(found: TarEntryView, packed: PackedView, archive: Seq<u8>) -> bool {
    &&& found.path == packed.path()
    &&& found.kind == packed.header.kind
    &&& found.mode == Ok::<u32, Seq<char>>(packed.header.mode)
    &&& found.link == packed.kept_target()
    &&& found.size == packed.data.len()
    &&& found.position + found.size <= archive.len()
    &&& archive.subrange(found.position as int, found.position + found.size) == packed.data
}

/// Whether a listing names the entries that were packed, and nothing else.
pub open spec fn lists_all(
    listing: (Seq<TarEntryView>, Option<Seq<char>>),
    entries: Seq<PackedView>,
    archive: Seq<u8>,
) -> bool {
    &&& listing.1 is None
    &&& listing.0.len() == entries.len()
    &&& forall|i: int|
        0 <= i < entries.len() ==> is_found(#[trigger] listing.0[i], entries[i], archive)
}

pub open spec fn all_plain(entries: Seq<PackedView>) -> bool {
    forall|i: int| 0 <= i < entries.len() ==> (#[trigger] entries[i]).is_plain()
}

/// The components of an entry's path.
pub open spec fn parts_of(entry: PackedView) -> Seq<Seq<u8>> {
    crate::helper::archive::parts_from(entry.path(), 0)
}

/// Whether entries are such as a copied tree has: plain, with the root among them, everything else
/// below it, none twice, and no link that leads out.
pub open spec fn is_tree(entries: Seq<PackedView>) -> bool {
    &&& entries.len() <= MAX_COPY_ENTRIES
    &&& all_plain(entries)
    &&& forall|i: int|
        0 <= i < entries.len() ==> crate::helper::archive::valid_name(
            (#[trigger] entries[i]).path(),
        )
    &&& forall|i: int|
        0 <= i < entries.len() ==> match (#[trigger] entries[i]).target() {
            Some(target) => crate::helper::archive::valid_link(entries[i].path(), target),
            None => true,
        }
    &&& forall|i: int, j: int|
        0 <= i < j < entries.len() ==> parts_of(#[trigger] entries[i]) != parts_of(
            #[trigger] entries[j],
        )
    &&& exists|i: int| 0 <= i < entries.len() && parts_of(#[trigger] entries[i]).len() == 1
}

/// Whether some steps make what was packed: a directory with its mode, a file with its mode and
/// its data, or a link to the same target as an archive keeps it.
pub open spec fn makes(steps: Seq<ExtractStepView>, packed: PackedView, archive: Seq<u8>) -> bool {
    match packed.kept_target() {
        Some(target) => steps.contains(
            ExtractStepView::CreateLink { path: packed.path(), target },
        ),
        None => if packed.header.kind == KIND_DIRECTORY {
            &&& steps.contains(ExtractStepView::CreateDirectory(packed.path()))
            &&& steps.contains(
                ExtractStepView::SetMode { path: packed.path(), mode: packed.header.mode },
            )
        } else {
            exists|position: u64|
                {
                    &&& #[trigger] steps.contains(
                        ExtractStepView::CreateFile {
                            path: packed.path(),
                            mode: packed.header.mode,
                            position,
                            size: packed.data.len() as u64,
                        },
                    )
                    &&& position + packed.data.len() <= archive.len()
                    &&& archive.subrange(position as int, position + packed.data.len())
                        == packed.data
                }
        },
    }
}

/// Whether some steps make everything that was packed.
pub open spec fn makes_all(
    steps: Seq<ExtractStepView>,
    entries: Seq<PackedView>,
    archive: Seq<u8>,
) -> bool {
    forall|i: int| 0 <= i < entries.len() ==> makes(steps, #[trigger] entries[i], archive)
}

/// What the first steps do for an entry, apart from the mode of a directory.
spec fn begun(done: ExtractionView, packed: PackedView, found: TarEntryView) -> bool {
    match packed.kept_target() {
        Some(target) => done.steps.contains(
            ExtractStepView::CreateLink { path: packed.path(), target },
        ),
        None => if packed.header.kind == KIND_DIRECTORY {
            &&& done.steps.contains(ExtractStepView::CreateDirectory(packed.path()))
            &&& done.directories.contains((packed.path(), packed.header.mode))
        } else {
            done.steps.contains(
                ExtractStepView::CreateFile {
                    path: packed.path(),
                    mode: packed.header.mode,
                    position: found.position,
                    size: found.size,
                },
            )
        },
    }
}

proof fn lemma_longer<A>(shorter: Seq<A>, longer: Seq<A>, element: A)
    requires
        shorter.len() <= longer.len(),
        forall|i: int| 0 <= i < shorter.len() ==> shorter[i] == longer[i],
        shorter.contains(element),
    ensures
        longer.contains(element),
{
    let i = choose|i: int| 0 <= i < shorter.len() && shorter[i] == element;
    assert(longer[i] == element);
}

proof fn lemma_begun_stays(
    before: ExtractionView,
    after: ExtractionView,
    packed: PackedView,
    found: TarEntryView,
)
    requires
        begun(before, packed, found),
        before.steps.len() <= after.steps.len(),
        forall|i: int| 0 <= i < before.steps.len() ==> before.steps[i] == after.steps[i],
        before.directories.len() <= after.directories.len(),
        forall|i: int|
            0 <= i < before.directories.len() ==> before.directories[i] == after.directories[i],
    ensures
        begun(after, packed, found),
{
    match packed.kept_target() {
        Some(target) => {
            lemma_longer(
                before.steps,
                after.steps,
                ExtractStepView::CreateLink { path: packed.path(), target },
            );
        },
        None => {
            if packed.header.kind == KIND_DIRECTORY {
                lemma_longer(
                    before.steps,
                    after.steps,
                    ExtractStepView::CreateDirectory(packed.path()),
                );
                lemma_longer(
                    before.directories,
                    after.directories,
                    (packed.path(), packed.header.mode),
                );
            } else {
                lemma_longer(
                    before.steps,
                    after.steps,
                    ExtractStepView::CreateFile {
                        path: packed.path(),
                        mode: packed.header.mode,
                        position: found.position,
                        size: found.size,
                    },
                );
            }
        },
    }
}

/// The first entries of a tree are taken one after the other, and none is refused.
proof fn lemma_entries_are_taken(
    listing: (Seq<TarEntryView>, Option<Seq<char>>),
    entries: Seq<PackedView>,
    archive: Seq<u8>,
    upto: nat,
)
    requires
        lists_all(listing, entries, archive),
        is_tree(entries),
        upto <= entries.len(),
    ensures
        crate::helper::transfer::extraction_of(listing.0, upto).1 is None,
        crate::helper::transfer::extraction_of(listing.0, upto).0.seen == Seq::new(
            upto,
            |i: int| parts_of(entries[i]),
        ),
        forall|i: int|
            0 <= i < upto ==> begun(
                crate::helper::transfer::extraction_of(listing.0, upto).0,
                #[trigger] entries[i],
                listing.0[i],
            ),
    decreases upto,
{
    let done = crate::helper::transfer::extraction_of(listing.0, upto);
    if upto == 0 {
        assert(done.0.seen =~= Seq::new(0, |i: int| parts_of(entries[i])));
    } else {
        let at = upto - 1;
        lemma_entries_are_taken(listing, entries, archive, at as nat);
        let before = crate::helper::transfer::extraction_of(listing.0, at as nat).0;
        let found = listing.0[at];
        let packed = entries[at];
        assert(is_found(found, packed, archive));
        assert(packed.is_plain());
        assert(crate::helper::archive::valid_name(packed.path()));
        let parts = parts_of(packed);
        if before.seen.contains(parts) {
            let i = choose|i: int| 0 <= i < before.seen.len() && before.seen[i] == parts;
            assert(parts_of(entries[i]) == parts);
            assert(false);
        }
        let mode = packed.header.mode;
        assert(mode & 0o777 == mode) by (bit_vector)
            requires
                mode <= 0o777,
        ;
        let inside = before.entered(found.path);
        assert(before.taken(found) == inside.created(found, mode));
        let after = done.0;
        assert(done == before.taken(found));
        match packed.kept_target() {
            Some(target) => {
                let given = packed.target()->0;
                assert(crate::helper::archive::valid_link(packed.path(), given));
                law_links_lead_to_the_same_place(packed.path(), given);
                assert(after.steps.last() == (ExtractStepView::CreateLink {
                    path: packed.path(),
                    target,
                }));
            },
            None => {
                if packed.header.kind == KIND_DIRECTORY {
                    assert(after.steps.last() == ExtractStepView::CreateDirectory(packed.path()));
                    assert(after.directories.last() == (packed.path(), mode));
                } else {
                    assert(after.steps.last() == (ExtractStepView::CreateFile {
                        path: packed.path(),
                        mode,
                        position: found.position,
                        size: found.size,
                    }));
                }
            },
        }
        assert(begun(after, packed, found));
        assert forall|i: int| 0 <= i < upto implies begun(
            after,
            #[trigger] entries[i],
            listing.0[i],
        ) by {
            if i < at {
                lemma_begun_stays(before, after, entries[i], listing.0[i]);
            }
        }
        assert(after.seen =~= Seq::new(upto, |i: int| parts_of(entries[i])));
    }
}

proof fn lemma_mode_is_set(directories: Seq<(Seq<u8>, u32)>, upto: nat, at: int)
    requires
        0 <= at < upto <= directories.len(),
    ensures
        crate::helper::transfer::mode_steps(directories, upto).contains(
            ExtractStepView::SetMode { path: directories[at].0, mode: directories[at].1 },
        ),
    decreases upto,
{
    let steps = crate::helper::transfer::mode_steps(directories, upto);
    let wanted = ExtractStepView::SetMode { path: directories[at].0, mode: directories[at].1 };
    if at == upto - 1 {
        assert(steps[0] == wanted);
    } else {
        lemma_mode_is_set(directories, (upto - 1) as nat, at);
        let rest = crate::helper::transfer::mode_steps(directories, (upto - 1) as nat);
        let i = choose|i: int| 0 <= i < rest.len() && rest[i] == wanted;
        assert(steps[i + 1] == wanted);
    }
}

/// A tree that was packed is unpacked without a complaint, and everything in it is made.
pub proof fn lemma_tree_is_unpacked(
    listing: (Seq<TarEntryView>, Option<Seq<char>>),
    entries: Seq<PackedView>,
    archive: Seq<u8>,
)
    requires
        lists_all(listing, entries, archive),
        is_tree(entries),
    ensures
        crate::helper::transfer::extraction_plan(listing).1 is None,
        makes_all(crate::helper::transfer::extraction_plan(listing).0, entries, archive),
{
    lemma_entries_are_taken(listing, entries, archive, entries.len());
    let done = crate::helper::transfer::extraction_of(listing.0, listing.0.len());
    let root = choose|i: int| 0 <= i < entries.len() && parts_of(#[trigger] entries[i]).len() == 1;
    assert(done.0.seen[root] == parts_of(entries[root]));
    assert(crate::helper::transfer::has_root(done.0.seen));
    let steps = crate::helper::transfer::extraction_plan(listing).0;
    let modes = crate::helper::transfer::mode_steps(
        done.0.directories,
        done.0.directories.len(),
    );
    assert(steps == done.0.steps + modes);
    assert forall|i: int| 0 <= i < entries.len() implies makes(
        steps,
        #[trigger] entries[i],
        archive,
    ) by {
        let packed = entries[i];
        let found = listing.0[i];
        assert(begun(done.0, packed, found));
        assert(is_found(found, packed, archive));
        match packed.kept_target() {
            Some(target) => {
                lemma_longer(
                    done.0.steps,
                    steps,
                    ExtractStepView::CreateLink { path: packed.path(), target },
                );
            },
            None => {
                if packed.header.kind == KIND_DIRECTORY {
                    lemma_longer(
                        done.0.steps,
                        steps,
                        ExtractStepView::CreateDirectory(packed.path()),
                    );
                    let entry = (packed.path(), packed.header.mode);
                    let at = choose|at: int|
                        0 <= at < done.0.directories.len() && done.0.directories[at] == entry;
                    lemma_mode_is_set(done.0.directories, done.0.directories.len(), at);
                    let wanted = ExtractStepView::SetMode {
                        path: packed.path(),
                        mode: packed.header.mode,
                    };
                    let place = choose|place: int|
                        0 <= place < modes.len() && modes[place] == wanted;
                    assert(steps[done.0.steps.len() + place] == wanted);
                } else {
                    let wanted = ExtractStepView::CreateFile {
                        path: packed.path(),
                        mode: packed.header.mode,
                        position: found.position,
                        size: packed.data.len() as u64,
                    };
                    lemma_longer(done.0.steps, steps, wanted);
                    assert(steps.contains(wanted));
                }
            },
        }
    }
}

/// An entry as an archive takes it.
pub open spec fn packed_entry(name: Seq<char>, entry: SourceEntry, mode: u32) -> PackedView {
    PackedView {
        header: crate::helper::transfer::header_of(entry, mode),
        name,
        data: crate::helper::transfer::data_of(entry),
    }
}

/// An archive is made of the entries that were put into it, in their order, and of nothing else.
pub proof fn law_archive_holds_what_was_put_in(
    archive: CopyArchiveView,
    entries: Seq<PackedView>,
    source: Seq<char>,
    name: Seq<char>,
    entry: SourceEntry,
    mode: u32,
)
    requires
        body_of(entries) == Some(archive.bytes),
    ensures
        match archive.appended(source, name, entry, mode) {
            Ok(after) => body_of(entries.push(packed_entry(name, entry, mode))) == Some(
                after.bytes,
            ),
            Err(_) => true,
        },
        match archive.finished() {
            Ok(bytes) => archive_of(entries) == Some(bytes),
            Err(_) => true,
        },
{
    let longer = entries.push(packed_entry(name, entry, mode));
    assert(longer.drop_last() =~= entries);
}

/// A file, a directory or a link that was put into an archive under a tidy name is plain, and a
/// link that leads out of the root was not put into it.
pub proof fn law_entries_are_plain(
    archive: CopyArchiveView,
    source: Seq<char>,
    name: Seq<char>,
    entry: SourceEntry,
    mode: u32,
)
    requires
        archive.appended(source, name, entry, mode) is Ok,
        crate::helper::transfer::data_of(entry).len() <= u64::MAX,
        tidy(vstd::utf8::encode_utf8(name)),
        crate::helper::archive::valid_name(vstd::utf8::encode_utf8(name)),
        forall|i: int|
            0 <= i < crate::helper::archive::parts_from(vstd::utf8::encode_utf8(name), 0).len()
                ==> (#[trigger] crate::helper::archive::parts_from(
                vstd::utf8::encode_utf8(name),
                0,
            )[i]) != crate::helper::archive::dot(),
    ensures
        packed_entry(name, entry, mode).is_plain(),
        entry matches SourceEntry::Symlink(target) ==> crate::helper::archive::valid_link(
            vstd::utf8::encode_utf8(name),
            vstd::utf8::encode_utf8(target@),
        ),
{
    assert(mode & 0o777 <= 0o777) by (bit_vector);
}

} // verus!
