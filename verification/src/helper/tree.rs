//! A walk makes a tree: whatever files it meets, the archive that it makes can be unpacked.

use vstd::prelude::*;

use crate::helper::bridge::{BridgeErrorView, MAX_COPY_ENTRIES};
use crate::helper::transfer::{CopyArchiveView, SourceEntry};
use crate::helper::unpack::PackedView;
use crate::helper::walk::{CopySourceView, CopyWalkView, WalkRequestView};

verus! {

/// Whether some bytes can be the name of a file in a directory.
pub open spec fn is_file_name(name: Seq<u8>) -> bool {
    &&& name.len() > 0
    &&& !name.contains(crate::helper::archive::SLASH)
    &&& !name.contains(0)
    &&& name != crate::helper::archive::dot()
    &&& name != crate::helper::archive::dot_dot()
}

/// Whether components lead to the root or to something below it.
pub open spec fn is_place(parts: Seq<Seq<u8>>) -> bool {
    &&& parts.len() > 0
    &&& parts[0] == crate::helper::archive::root_name()
    &&& forall|i: int| 0 <= i < parts.len() ==> is_file_name(#[trigger] parts[i])
}

/// Whether a name in an archive is that of a place, written in the one way.
pub open spec fn names_place(name: Seq<char>, parts: Seq<Seq<u8>>) -> bool {
    is_place(parts) && vstd::utf8::encode_utf8(name) == crate::helper::unpack::rebuilt(parts)
}

/// The components of a name in an archive.
pub open spec fn name_parts(name: Seq<char>) -> Seq<Seq<u8>> {
    crate::helper::archive::parts_from(vstd::utf8::encode_utf8(name), 0)
}

proof fn lemma_encode_joined(left: Seq<char>, right: Seq<char>)
    ensures
        vstd::utf8::encode_utf8(left + right) == vstd::utf8::encode_utf8(left)
            + vstd::utf8::encode_utf8(right),
    decreases left.len(),
{
    if left.len() == 0 {
        assert(left + right =~= right);
        assert(vstd::utf8::encode_utf8(left) + vstd::utf8::encode_utf8(right)
            =~= vstd::utf8::encode_utf8(right));
    } else {
        lemma_encode_joined(left.drop_first(), right);
        assert((left + right).drop_first() =~= left.drop_first() + right);
        assert(vstd::utf8::encode_utf8(left + right) =~= vstd::utf8::encode_utf8(left)
            + vstd::utf8::encode_utf8(right));
    }
}

proof fn lemma_encode_slash()
    ensures
        vstd::utf8::encode_utf8(seq!['/']) == seq![crate::helper::archive::SLASH],
{
    let text = seq!['/'];
    assert(text.drop_first() =~= Seq::empty());
    assert(vstd::utf8::is_ascii_chars(text));
    vstd::utf8::is_ascii_chars_encode_utf8(text);
    assert(vstd::utf8::encode_utf8(text) =~= seq![crate::helper::archive::SLASH]);
}

/// A name of a place is tidy, may stand in an archive and has the components of the place.
proof fn lemma_place_name(name: Seq<char>, parts: Seq<Seq<u8>>)
    requires
        names_place(name, parts),
    ensures
        name_parts(name) == parts,
        crate::helper::unpack::tidy(vstd::utf8::encode_utf8(name)),
        crate::helper::archive::valid_name(vstd::utf8::encode_utf8(name)),
        name.len() > 0,
        name.last() != '/',
{
    assert forall|i: int| 0 <= i < parts.len() implies crate::helper::unpack::is_word(
        #[trigger] parts[i],
    ) && parts[i] != crate::helper::archive::dot() && !parts[i].contains(0) by {
        assert(is_file_name(parts[i]));
    }
    crate::helper::unpack::lemma_rebuilt_parts(parts);
    let path = vstd::utf8::encode_utf8(name);
    assert(is_file_name(parts[0]));
    assert(parts[0].contains(parts[0][0]));
    assert forall|i: int| 0 <= i < parts.len() implies #[trigger] parts[i]
        != crate::helper::archive::dot_dot() by {
        assert(is_file_name(parts[i]));
    }
    if name.last() == '/' && name.len() > 0 {
        lemma_encode_slash();
        lemma_encode_joined(name.drop_last(), seq!['/']);
        assert(name.drop_last() + seq!['/'] =~= name);
        assert(path.last() == crate::helper::archive::SLASH);
    }
}

/// The name of a file in a directory is that of the place behind the directory's.
proof fn lemma_child_place(
    directory: CopySourceView,
    parts: Seq<Seq<u8>>,
    file: Seq<char>,
)
    requires
        names_place(directory.name, parts),
        is_file_name(vstd::utf8::encode_utf8(file)),
    ensures
        names_place(directory.child(file).name, parts.push(vstd::utf8::encode_utf8(file))),
{
    lemma_place_name(directory.name, parts);
    let name = vstd::utf8::encode_utf8(file);
    let longer = parts.push(name);
    if crate::paths::is_absolute(file) {
        lemma_encode_slash();
        lemma_encode_joined(seq!['/'], file.drop_first());
        assert(seq!['/'] + file.drop_first() =~= file);
        assert(name[0] == crate::helper::archive::SLASH);
        assert(name.contains(name[0]));
    }
    reveal_strlit("/");
    assert("/"@ =~= seq!['/']);
    lemma_encode_slash();
    lemma_encode_joined(directory.name, "/"@);
    lemma_encode_joined(directory.name + "/"@, file);
    assert(longer.drop_last() =~= parts);
    assert(longer.last() == name);
    assert forall|i: int| 0 <= i < longer.len() implies is_file_name(#[trigger] longer[i]) by {
        if i < parts.len() {
            assert(longer[i] == parts[i]);
        }
    }
}

/// Whether components lead to somewhere below a place.
pub open spec fn lies_below(parts: Seq<Seq<u8>>, place: Seq<Seq<u8>>) -> bool {
    parts.len() > place.len() && parts.take(place.len() as int) == place
}

/// The places of the entries of an archive.
pub open spec fn places(entries: Seq<PackedView>) -> Seq<Seq<Seq<u8>>> {
    Seq::new(entries.len(), |i: int| crate::helper::unpack::parts_of(entries[i]))
}

/// The places of files that wait for their turn.
pub open spec fn waiting_places(waiting: Seq<CopySourceView>) -> Seq<Seq<Seq<u8>>> {
    Seq::new(waiting.len(), |i: int| name_parts(waiting[i].name))
}

/// Whether no place is met twice: what waits is not in the archive, nothing in the archive or
/// waiting lies below what waits, and nothing lies below a directory that is yet to be listed.
pub open spec fn keeps_apart(
    done: Seq<Seq<Seq<u8>>>,
    waits: Seq<Seq<Seq<u8>>>,
    listing: Option<Seq<Seq<u8>>>,
) -> bool {
    &&& done.no_duplicates()
    &&& waits.no_duplicates()
    &&& forall|place: Seq<Seq<u8>>| #[trigger]
        waits.contains(place) ==> !done.contains(place)
    &&& forall|place: Seq<Seq<u8>>, other: Seq<Seq<u8>>|
        #[trigger] waits.contains(place) && (done.contains(other) || waits.contains(other))
            ==> !#[trigger] lies_below(other, place)
    &&& match listing {
        Some(place) => {
            &&& done.contains(place)
            &&& forall|other: Seq<Seq<u8>>|
                done.contains(other) || waits.contains(other) ==> !#[trigger] lies_below(
                    other,
                    place,
                )
        },
        None => true,
    }
}

/// What holds of a walk after any number of steps, where `entries` are what it has put into its
/// archive.
pub open spec fn makes_tree(walk: CopyWalkView, entries: Seq<PackedView>) -> bool {
    &&& crate::helper::unpack::body_of(entries) == Some(walk.archive.bytes)
    &&& walk.archive.entries == entries.len()
    &&& entries.len() <= MAX_COPY_ENTRIES
    &&& crate::helper::unpack::all_plain(entries)
    &&& forall|i: int|
        0 <= i < entries.len() ==> crate::helper::archive::valid_name(
            (#[trigger] entries[i]).path(),
        )
    &&& forall|i: int|
        0 <= i < entries.len() ==> match (#[trigger] entries[i]).target() {
            Some(target) => crate::helper::archive::valid_link(entries[i].path(), target),
            None => true,
        }
    &&& forall|i: int|
        0 <= i < walk.waiting.len() ==> {
            let name = (#[trigger] walk.waiting[i]).name;
            names_place(name, name_parts(name))
        }
    &&& walk.listing matches Some(directory) ==> names_place(
        directory.name,
        name_parts(directory.name),
    )
    &&& keeps_apart(
        places(entries),
        waiting_places(walk.waiting),
        match walk.listing {
            Some(directory) => Some(name_parts(directory.name)),
            None => None,
        },
    )
    &&& if entries.len() == 0 {
        walk.listing is None && walk.waiting.len() == 1 && name_parts(walk.waiting[0].name).len()
            == 1
    } else {
        crate::helper::unpack::parts_of(entries[0]).len() == 1
    }
}

/// A walk begins with nothing but its root.
pub proof fn law_walk_begins_a_tree(source: Seq<char>, limit: u64)
    ensures
        makes_tree(
            CopyWalkView {
                archive: CopyArchiveView { bytes: Seq::empty(), entries: 0, limit },
                waiting: seq![CopySourceView { source, name: "root"@ }],
                listing: None,
            },
            Seq::empty(),
        ),
{
    reveal_strlit("root");
    let name = "root"@;
    assert(vstd::utf8::is_ascii_chars(name));
    vstd::utf8::is_ascii_chars_encode_utf8(name);
    let root = crate::helper::archive::root_name();
    assert(vstd::utf8::encode_utf8(name) =~= root);
    let parts = seq![root];
    assert(is_file_name(root)) by {
        assert(root[0] == 0x72u8 && root[1] == 0x6fu8 && root[2] == 0x6fu8 && root[3] == 0x74u8);
        assert(root.len() != crate::helper::archive::dot().len());
        assert(root.len() != crate::helper::archive::dot_dot().len());
    }
    assert(is_place(parts));
    assert(names_place(name, parts));
    lemma_place_name(name, parts);
    let waiting = seq![CopySourceView { source, name: "root"@ }];
    let waits = waiting_places(waiting);
    assert forall|place: Seq<Seq<u8>>, other: Seq<Seq<u8>>|
        #[trigger] waits.contains(place) && waits.contains(other) implies !#[trigger] lies_below(
        other,
        place,
    ) by {
        assert(waits[0] == parts);
    }
}

proof fn lemma_moved(
    done: Seq<Seq<Seq<u8>>>,
    waits: Seq<Seq<Seq<u8>>>,
    is_directory: bool,
)
    requires
        waits.len() > 0,
        keeps_apart(done, waits, None),
    ensures
        keeps_apart(
            done.push(waits.last()),
            waits.drop_last(),
            if is_directory {
                Some(waits.last())
            } else {
                None
            },
        ),
{
    let moved = waits.last();
    let longer = done.push(moved);
    let rest = waits.drop_last();
    assert(waits.contains(moved));
    assert(!done.contains(moved));
    assert forall|place: Seq<Seq<u8>>| #[trigger] longer.contains(place) implies done.contains(
        place,
    ) || place == moved by {
        let i = choose|i: int| 0 <= i < longer.len() && longer[i] == place;
        if i < done.len() {
            assert(done[i] == place);
        }
    }
    assert forall|place: Seq<Seq<u8>>| #[trigger] rest.contains(place) implies waits.contains(
        place,
    ) && place != moved by {
        let i = choose|i: int| 0 <= i < rest.len() && rest[i] == place;
        assert(waits[i] == place);
    }
    assert forall|i: int, j: int|
        0 <= i < longer.len() && 0 <= j < longer.len() && i != j implies longer[i]
        != longer[j] by {
        if i < done.len() {
            assert(done.contains(done[i]));
        }
        if j < done.len() {
            assert(done.contains(done[j]));
        }
    }
    assert forall|i: int, j: int|
        0 <= i < rest.len() && 0 <= j < rest.len() && i != j implies rest[i] != rest[j] by {
        assert(rest[i] == waits[i] && rest[j] == waits[j]);
    }
    assert(longer[done.len() as int] == moved);
    assert(longer.contains(moved));
}

/// A file that a walk takes becomes an entry of the tree.
pub proof fn law_walk_goes_on_with_a_file(
    walk: CopyWalkView,
    entries: Seq<PackedView>,
    entry: SourceEntry,
    mode: u32,
)
    requires
        makes_tree(walk, entries),
        walk.listing is None,
        walk.waiting.len() > 0,
        crate::helper::transfer::data_of(entry).len() <= u64::MAX,
    ensures
        match walk.taken(entry, mode) {
            Ok(after) => makes_tree(
                after,
                entries.push(
                    crate::helper::unpack::packed_entry(walk.waiting.last().name, entry, mode),
                ),
            ),
            Err(_) => true,
        },
{
    if walk.taken(entry, mode) is Ok {
        let after = walk.taken(entry, mode)->Ok_0;
        let next = walk.waiting.last();
        let packed = crate::helper::unpack::packed_entry(next.name, entry, mode);
        let longer = entries.push(packed);
        let parts = name_parts(next.name);
        assert(walk.waiting[walk.waiting.len() - 1] == next);
        assert(names_place(next.name, parts));
        lemma_place_name(next.name, parts);
        assert forall|i: int|
            0 <= i < crate::helper::archive::parts_from(
                vstd::utf8::encode_utf8(next.name),
                0,
            ).len() implies (#[trigger] crate::helper::archive::parts_from(
            vstd::utf8::encode_utf8(next.name),
            0,
        )[i]) != crate::helper::archive::dot() by {
            assert(is_file_name(parts[i]));
        }
        crate::helper::unpack::law_entries_are_plain(
            walk.archive,
            next.source,
            next.name,
            entry,
            mode,
        );
        crate::helper::unpack::law_archive_holds_what_was_put_in(
            walk.archive,
            entries,
            next.source,
            next.name,
            entry,
            mode,
        );
        let waits = waiting_places(walk.waiting);
        assert(waits.last() == parts);
        lemma_moved(places(entries), waits, entry is Directory);
        assert(places(longer) =~= places(entries).push(parts));
        assert(waiting_places(after.waiting) =~= waits.drop_last());
        assert forall|i: int| 0 <= i < longer.len() implies (#[trigger] longer[i]).is_plain() by {
            if i < entries.len() {
                assert(longer[i] == entries[i]);
            }
        }
        assert forall|i: int|
            0 <= i < longer.len() implies crate::helper::archive::valid_name(
            (#[trigger] longer[i]).path(),
        ) by {
            if i < entries.len() {
                assert(longer[i] == entries[i]);
            }
        }
        assert forall|i: int|
            0 <= i < longer.len() implies match (#[trigger] longer[i]).target() {
            Some(target) => crate::helper::archive::valid_link(longer[i].path(), target),
            None => true,
        } by {
            if i < entries.len() {
                assert(longer[i] == entries[i]);
            }
        }
        assert forall|i: int| 0 <= i < after.waiting.len() implies {
            let name = (#[trigger] after.waiting[i]).name;
            names_place(name, name_parts(name))
        } by {
            assert(after.waiting[i] == walk.waiting[i]);
        }
        if entries.len() == 0 {
            assert(longer[0] == packed);
            assert(next == walk.waiting[0]);
        } else {
            assert(longer[0] == entries[0]);
        }
    }
}

proof fn lemma_listed(
    done: Seq<Seq<Seq<u8>>>,
    waits: Seq<Seq<Seq<u8>>>,
    place: Seq<Seq<u8>>,
    names: Seq<Seq<u8>>,
    children: Seq<Seq<Seq<u8>>>,
)
    requires
        keeps_apart(done, waits, Some(place)),
        names.no_duplicates(),
        children.len() == names.len(),
        forall|i: int|
            0 <= i < names.len() ==> #[trigger] children[i] == place.push(
                names[names.len() - 1 - i],
            ),
    ensures
        keeps_apart(done, waits + children, None),
{
    let all = waits + children;
    assert forall|child: Seq<Seq<u8>>| #[trigger] children.contains(child) implies lies_below(
        child,
        place,
    ) && child.len() == place.len() + 1 by {
        let i = choose|i: int| 0 <= i < children.len() && children[i] == child;
        assert(child.take(place.len() as int) =~= place);
    }
    assert forall|other: Seq<Seq<u8>>| #[trigger] all.contains(other) implies waits.contains(
        other,
    ) || children.contains(other) by {
        let i = choose|i: int| 0 <= i < all.len() && all[i] == other;
        if i < waits.len() {
            assert(waits[i] == other);
        } else {
            assert(children[i - waits.len()] == other);
        }
    }
    assert forall|i: int, j: int|
        0 <= i < all.len() && 0 <= j < all.len() && i != j implies all[i] != all[j] by {
        if i < waits.len() && j < waits.len() {
            assert(all[i] == waits[i] && all[j] == waits[j]);
        } else if i < waits.len() {
            assert(waits.contains(waits[i]));
            assert(children.contains(children[j - waits.len()]));
            assert(lies_below(children[j - waits.len()], place));
        } else if j < waits.len() {
            assert(waits.contains(waits[j]));
            assert(children.contains(children[i - waits.len()]));
            assert(lies_below(children[i - waits.len()], place));
        } else {
            let k = names.len() - 1 - (i - waits.len());
            let l = names.len() - 1 - (j - waits.len());
            assert(children[i - waits.len()].last() == names[k]);
            assert(children[j - waits.len()].last() == names[l]);
        }
    }
    assert forall|one: Seq<Seq<u8>>, other: Seq<Seq<u8>>|
        #[trigger] all.contains(one) && (done.contains(other) || all.contains(
            other,
        )) implies !#[trigger] lies_below(other, one) by {
        if lies_below(other, one) {
            if children.contains(one) {
                assert(other.take(place.len() as int) =~= one.take(place.len() as int));
                assert(lies_below(other, place));
                if children.contains(other) {
                    assert(other.len() == one.len());
                }
            } else if children.contains(other) {
                if one.len() == place.len() {
                    assert(one =~= other.take(place.len() as int));
                    assert(one == place);
                } else {
                    assert(one.len() < place.len());
                    assert(place.take(one.len() as int) =~= other.take(one.len() as int));
                    assert(lies_below(place, one));
                }
            }
        }
    }
}

/// The files of a directory, under names that can be names of files and that differ, wait to
/// become entries of the tree.
pub proof fn law_walk_goes_on_with_a_directory(
    walk: CopyWalkView,
    entries: Seq<PackedView>,
    files: Seq<Seq<char>>,
)
    requires
        makes_tree(walk, entries),
        forall|i: int|
            0 <= i < files.len() ==> is_file_name(
                vstd::utf8::encode_utf8(#[trigger] files[i]),
            ),
        files.no_duplicates(),
    ensures
        makes_tree(walk.listed(files), entries),
{
    if walk.listing is Some {
        let directory = walk.listing->0;
        let after = walk.listed(files);
        let order = crate::text::text_order();
        let sorted = files.sort_by(order);
        crate::text::lemma_text_order();
        files.lemma_sort_by_ensures(order);
        lemma_stays_distinct(files, sorted);
        let place = name_parts(directory.name);
        let names = Seq::new(sorted.len(), |i: int| vstd::utf8::encode_utf8(sorted[i]));
        let children = waiting_places(directory.children(sorted));
        assert forall|i: int| 0 <= i < names.len() implies #[trigger] children[i] == place.push(
            names[names.len() - 1 - i],
        ) && names_place(directory.children(sorted)[i].name, children[i]) by {
            let file = sorted[names.len() - 1 - i];
            assert(sorted.contains(file));
            assert(files.contains(file));
            let at = choose|at: int| 0 <= at < files.len() && files[at] == file;
            assert(is_file_name(vstd::utf8::encode_utf8(files[at])));
            lemma_child_place(directory, place, file);
            lemma_place_name(
                directory.child(file).name,
                place.push(vstd::utf8::encode_utf8(file)),
            );
        }
        assert forall|i: int, j: int|
            0 <= i < names.len() && 0 <= j < names.len() && i != j implies names[i]
            != names[j] by {
            if names[i] == names[j] {
                vstd::utf8::encode_utf8_decode_utf8(sorted[i]);
                vstd::utf8::encode_utf8_decode_utf8(sorted[j]);
                assert(sorted[i] == sorted[j]);
            }
        }
        lemma_listed(places(entries), waiting_places(walk.waiting), place, names, children);
        assert(waiting_places(after.waiting) =~= waiting_places(walk.waiting) + children);
        assert forall|i: int| 0 <= i < after.waiting.len() implies {
            let name = (#[trigger] after.waiting[i]).name;
            names_place(name, name_parts(name))
        } by {
            if i < walk.waiting.len() {
                assert(after.waiting[i] == walk.waiting[i]);
            } else {
                let k = i - walk.waiting.len();
                assert(after.waiting[i] == directory.children(sorted)[k]);
                assert(children[k] == name_parts(directory.children(sorted)[k].name));
            }
        }
        if entries.len() == 0 {
            assert(false);
        }
    }
}

proof fn lemma_stays_distinct(files: Seq<Seq<char>>, sorted: Seq<Seq<char>>)
    requires
        files.to_multiset() == sorted.to_multiset(),
        files.no_duplicates(),
    ensures
        sorted.no_duplicates(),
{
    files.lemma_multiset_has_no_duplicates();
    sorted.lemma_multiset_has_no_duplicates_conv();
}

/// The archive of a walk that has come to its end is one that everything in it is unpacked from.
pub proof fn law_walk_ends_with_a_tree(walk: CopyWalkView, entries: Seq<PackedView>)
    requires
        makes_tree(walk, entries),
        walk.requested() == Ok::<WalkRequestView, BridgeErrorView>(WalkRequestView::Finished),
    ensures
        crate::helper::unpack::is_tree(entries),
        match walk.archive.finished() {
            Ok(bytes) => crate::helper::unpack::archive_of(entries) == Some(bytes),
            Err(_) => true,
        },
{
    let done = places(entries);
    assert forall|i: int, j: int|
        0 <= i < j < entries.len() implies crate::helper::unpack::parts_of(#[trigger] entries[i])
        != crate::helper::unpack::parts_of(#[trigger] entries[j]) by {
        assert(done[i] != done[j]);
    }
    assert(crate::helper::unpack::parts_of(entries[0]).len() == 1);
}

} // verus!
