//! Where names and links lead: what is put together from components comes apart into them, and what
//! stays below the root is let through.

use vstd::prelude::*;

use crate::helper::archive::{
    directory_of, dot, dot_dot, link_end, ordinary, parts_from, root_name, starts_at_root,
    valid_link, valid_name, walk,
};
use crate::helper::headers::{
    further_blocks, header_in, listable_from, padded, size_key, stated_size,
};
use crate::helper::transfer::{lower, same_but_case};

verus! {

/// Whether some bytes can be a component: something, without a separator, and not the current
/// directory.
pub open spec fn is_name(name: Seq<u8>) -> bool {
    &&& name.len() > 0
    &&& name != seq![0x2eu8]
    &&& forall|i: int| 0 <= i < name.len() ==> #[trigger] name[i] != 0x2f
}

pub open spec fn all_names(names: Seq<Seq<u8>>) -> bool {
    forall|i: int| 0 <= i < names.len() ==> is_name(#[trigger] names[i])
}

/// Components with a separator between them.
pub open spec fn slashed(names: Seq<Seq<u8>>) -> Seq<u8>
    decreases names.len(),
{
    if names.len() == 0 {
        Seq::empty()
    } else if names.len() == 1 {
        names[0]
    } else {
        names[0] + seq![0x2fu8] + slashed(names.drop_first())
    }
}

proof fn lemma_parts(path: Seq<u8>, from: int, names: Seq<Seq<u8>>)
    requires
        names.len() > 0,
        all_names(names),
        0 <= from <= path.len(),
        path.subrange(from, path.len() as int) == slashed(names),
    ensures
        parts_from(path, from) == names,
    decreases names.len(),
{
    let name = names[0];
    let later = names.drop_first();
    let rest = path.subrange(from, path.len() as int);
    let end = from + name.len();
    assert(is_name(name));
    if names.len() > 1 {
        assert(rest == name + seq![0x2fu8] + slashed(later));
    }
    assert(rest.len() >= name.len());
    assert forall|i: int| from <= i < end implies #[trigger] path[i] != 0x2f by {
        assert(rest[i - from] == path[i]);
        if names.len() > 1 {
            assert((name + seq![0x2fu8] + slashed(later))[i - from] == name[i - from]);
        }
    }
    assert(path.subrange(from, end) =~= name) by {
        assert forall|i: int| 0 <= i < name.len() implies path[from + i] == name[i] by {
            assert(rest[i] == path[from + i]);
            if names.len() > 1 {
                assert((name + seq![0x2fu8] + slashed(later))[i] == name[i]);
            }
        }
    }
    assert(name != dot());
    if names.len() == 1 {
        assert(end == path.len());
        crate::text::lemma_find_from(path, from, end, 0x2f);
        assert(names =~= seq![name]);
        assert(seq![name] + Seq::<Seq<u8>>::empty() =~= seq![name]);
    } else {
        let below = slashed(later);
        assert(rest == name + seq![0x2fu8] + below);
        assert(rest[name.len() as int] == 0x2f);
        assert(path[end] == 0x2f);
        crate::text::lemma_find_from(path, from, end, 0x2f);
        assert(path.subrange(end + 1, path.len() as int) =~= below) by {
            assert forall|i: int| 0 <= i < below.len() implies path[end + 1 + i] == below[i] by {
                assert(rest[name.len() + 1 + i] == path[end + 1 + i]);
                assert((name + seq![0x2fu8] + below)[name.len() + 1 + i] == below[i]);
            }
        }
        assert forall|i: int| 0 <= i < later.len() implies is_name(#[trigger] later[i]) by {
            assert(later[i] == names[i + 1]);
        }
        lemma_parts(path, end + 1, later);
        assert(seq![name] + later =~= names);
    }
}

/// A path comes apart into the components that it was put together from.
pub proof fn law_paths_come_apart(names: Seq<Seq<u8>>)
    requires
        all_names(names),
    ensures
        parts_from(slashed(names), 0) == names,
        !starts_at_root(slashed(names)),
{
    let path = slashed(names);
    if names.len() > 0 {
        assert(path.subrange(0, path.len() as int) =~= path);
        lemma_parts(path, 0, names);
        assert(is_name(names[0]));
        assert(path[0] == names[0][0]);
    } else {
        assert(names =~= Seq::<Seq<u8>>::empty());
    }
}

/// A name is let into an archive exactly where it is the root or below it and takes no step
/// upwards; one that begins with a separator never is.
pub proof fn law_names_below_the_root_are_let_in(names: Seq<Seq<u8>>)
    requires
        all_names(names),
    ensures
        valid_name(slashed(names)) <==> names.len() > 0 && names[0] == seq![
            0x72u8,
            0x6fu8,
            0x6fu8,
            0x74u8,
        ] && forall|i: int| 0 <= i < names.len() ==> #[trigger] names[i] != seq![0x2eu8, 0x2eu8],
        !valid_name(seq![0x2fu8] + slashed(names)),
{
    law_paths_come_apart(names);
    assert((seq![0x2fu8] + slashed(names))[0] == 0x2f);
}

/// A step leads into what it names, upwards where there is something above, or nowhere for the
/// current directory; and steps are taken one after the other.
pub proof fn law_steps_are_taken_one_by_one(
    directory: Seq<Seq<u8>>,
    first: Seq<Seq<u8>>,
    second: Seq<Seq<u8>>,
    name: Seq<u8>,
)
    ensures
        walk(directory, Seq::empty()) == Some(directory),
        name != seq![0x2eu8] && name != seq![0x2eu8, 0x2eu8] ==> walk(directory, seq![name])
            == Some(directory.push(name)),
        walk(directory, seq![seq![0x2eu8]]) == Some(directory),
        directory.len() > 0 ==> walk(directory, seq![seq![0x2eu8, 0x2eu8]]) == Some(
            directory.drop_last(),
        ),
        directory.len() == 0 ==> walk(directory, seq![seq![0x2eu8, 0x2eu8]]) is None,
        walk(directory, first + second) == (match walk(directory, first) {
            Some(reached) => walk(reached, second),
            None => None,
        }),
    decreases second.len(),
{
    reveal_with_fuel(walk, 2);
    assert(seq![name].drop_last() =~= Seq::<Seq<u8>>::empty());
    assert(seq![seq![0x2eu8]].drop_last() =~= Seq::<Seq<u8>>::empty());
    assert(seq![seq![0x2eu8, 0x2eu8]].drop_last() =~= Seq::<Seq<u8>>::empty());
    assert(seq![0x2eu8].len() != seq![0x2eu8, 0x2eu8].len());
    if second.len() == 0 {
        assert(first + second =~= first);
    } else {
        law_steps_are_taken_one_by_one(directory, first, second.drop_last(), name);
        assert((first + second).drop_last() =~= first + second.drop_last());
        assert((first + second).last() == second.last());
    }
}

/// As many steps upwards.
pub open spec fn upwards(count: nat) -> Seq<Seq<u8>> {
    Seq::new(count, |i: int| seq![0x2eu8, 0x2eu8])
}

proof fn lemma_upwards(directory: Seq<Seq<u8>>, count: nat)
    ensures
        count <= directory.len() ==> walk(directory, upwards(count)) == Some(
            directory.subrange(0, directory.len() - count),
        ),
        count > directory.len() ==> walk(directory, upwards(count)) is None,
    decreases count,
{
    if count == 0 {
        assert(upwards(count) =~= Seq::<Seq<u8>>::empty());
        assert(directory.subrange(0, directory.len() as int) =~= directory);
    } else {
        lemma_upwards(directory, (count - 1) as nat);
        assert(upwards(count).drop_last() =~= upwards((count - 1) as nat));
        assert(seq![0x2eu8].len() != seq![0x2eu8, 0x2eu8].len());
        if count <= directory.len() {
            assert(directory.subrange(0, directory.len() - count + 1).drop_last()
                =~= directory.subrange(0, directory.len() - count));
        }
    }
}

proof fn lemma_into(directory: Seq<Seq<u8>>, names: Seq<Seq<u8>>)
    requires
        forall|i: int|
            0 <= i < names.len() ==> #[trigger] names[i] != seq![0x2eu8] && names[i] != seq![
                0x2eu8,
                0x2eu8,
            ],
    ensures
        walk(directory, names) == Some(directory + names),
    decreases names.len(),
{
    if names.len() == 0 {
        assert(directory + names =~= directory);
    } else {
        let shorter = names.drop_last();
        assert forall|i: int| 0 <= i < shorter.len() implies #[trigger] shorter[i] != seq![0x2eu8]
            && shorter[i] != seq![0x2eu8, 0x2eu8] by {
            assert(shorter[i] == names[i]);
        }
        lemma_into(directory, shorter);
        assert(names.last() == names[names.len() - 1]);
        assert((directory + shorter).push(names.last()) =~= directory + names);
    }
}

proof fn lemma_ordinary(names: Seq<Seq<u8>>)
    requires
        forall|i: int|
            0 <= i < names.len() ==> #[trigger] names[i] != seq![0x2eu8] && names[i] != seq![
                0x2eu8,
                0x2eu8,
            ],
    ensures
        ordinary(names) == names,
    decreases names.len(),
{
    if names.len() > 0 {
        let shorter = names.drop_last();
        assert forall|i: int| 0 <= i < shorter.len() implies #[trigger] shorter[i] != seq![0x2eu8]
            && shorter[i] != seq![0x2eu8, 0x2eu8] by {
            assert(shorter[i] == names[i]);
        }
        lemma_ordinary(shorter);
        assert(names.last() == names[names.len() - 1]);
        assert(shorter.push(names.last()) =~= names);
    }
}

/// A link that goes upwards from its directory and down again ends where these steps lead; it is let
/// into an archive where it does not leave the root, and never where it goes above everything.
pub proof fn law_links_lead_where_their_steps_do(
    directory: Seq<Seq<u8>>,
    file: Seq<u8>,
    up: nat,
    names: Seq<Seq<u8>>,
)
    requires
        directory.len() > 0,
        directory[0] == root_name(),
        all_names(directory),
        all_names(names),
        is_name(file),
        forall|i: int| 0 <= i < directory.len() ==> #[trigger] directory[i] != dot_dot(),
        forall|i: int| 0 <= i < names.len() ==> #[trigger] names[i] != dot_dot(),
        up + names.len() > 0,
    ensures
        up <= directory.len() ==> link_end(
            slashed(directory.push(file)),
            slashed(upwards(up) + names),
        ) == Some(directory.subrange(0, directory.len() - up) + names),
        up < directory.len() ==> valid_link(
            slashed(directory.push(file)),
            slashed(upwards(up) + names),
        ),
        up > directory.len() ==> !valid_link(
            slashed(directory.push(file)),
            slashed(upwards(up) + names),
        ),
        !valid_link(
            slashed(directory.push(file)),
            seq![0x2fu8] + slashed(upwards(up) + names),
        ),
        !valid_link(slashed(directory.push(file)), Seq::empty()),
{
    let path = directory.push(file);
    let steps = upwards(up) + names;
    assert forall|i: int| 0 <= i < path.len() implies is_name(#[trigger] path[i]) by {
        if i < directory.len() {
            assert(path[i] == directory[i]);
        }
    }
    assert forall|i: int| 0 <= i < steps.len() implies is_name(#[trigger] steps[i]) by {
        if i < up {
            assert(steps[i] == seq![0x2eu8, 0x2eu8]);
            assert(seq![0x2eu8].len() != seq![0x2eu8, 0x2eu8].len());
        } else {
            assert(steps[i] == names[i - up]);
        }
    }
    law_paths_come_apart(path);
    law_paths_come_apart(steps);
    assert(path.drop_last() =~= directory);
    lemma_ordinary(directory);
    assert(directory_of(slashed(path)) == directory);
    law_steps_are_taken_one_by_one(directory, upwards(up), names, file);
    lemma_upwards(directory, up);
    if up <= directory.len() {
        let reached = directory.subrange(0, directory.len() - up);
        lemma_into(reached, names);
        if up < directory.len() {
            assert((reached + names)[0] == directory[0]);
            lemma_something(steps);
        }
    }
    assert((seq![0x2fu8] + slashed(steps))[0] == 0x2f);
}

proof fn lemma_something(names: Seq<Seq<u8>>)
    requires
        names.len() > 0,
        all_names(names),
    ensures
        slashed(names).len() > 0,
{
    assert(is_name(names[0]));
}

/// Digests are the same where they are so letter by letter, in capitals or not; a single character
/// that differs otherwise makes them differ.
pub proof fn law_digests_are_compared_letter_by_letter(text: Seq<char>, at: int, other: char)
    requires
        0 <= at < text.len(),
    ensures
        same_but_case(text, text),
        'a' <= text[at] <= 'z' && other as u32 == text[at] as u32 - 32 ==> same_but_case(
            text,
            text.update(at, other),
        ),
        '0' <= text[at] <= '9' && other != text[at] ==> !same_but_case(
            text,
            text.update(at, other),
        ),
        'a' <= text[at] <= 'z' && 'a' <= other <= 'z' && other != text[at] ==> !same_but_case(
            text,
            text.update(at, other),
        ),
        !same_but_case(text, text.push(other)),
{
    let changed = text.update(at, other);
    assert(lower(changed[at]) == lower(other));
    assert(lower(text[at]) == lower(text[at]));
    if 'a' <= text[at] <= 'z' && other as u32 == text[at] as u32 - 32 {
        assert('A' <= other <= 'Z');
        assert(((other as u32) + 32) as char == text[at]);
        assert forall|i: int| 0 <= i < text.len() implies #[trigger] lower(text[i]) == lower(
            changed[i],
        ) by {
            if i != at {
                assert(changed[i] == text[i]);
            }
        }
    }
    if '0' <= text[at] <= '9' && other != text[at] {
        assert(lower(text[at]) == text[at]);
        assert(lower(other) != text[at]);
    }
    if 'a' <= text[at] <= 'z' && 'a' <= other <= 'z' && other != text[at] {
        assert(lower(text[at]) == text[at] && lower(changed[at]) == other);
    }
}

/// Data fill whole blocks, and no more of them than they need.
pub proof fn law_data_fill_whole_blocks(size: int)
    requires
        size >= 0,
    ensures
        padded(size) % 512 == 0,
        size <= padded(size) < size + 512,
{
}

/// A size in an entry's attributes is read from its digits; the first one counts, and none behind
/// what is broken.
pub proof fn law_sizes_are_read_from_attributes(
    records: Seq<Option<(Seq<u8>, Seq<u8>)>>,
    from: int,
    at: int,
    number: nat,
)
    requires
        0 <= from <= at < records.len(),
        forall|i: int|
            from <= i < at ==> (#[trigger] records[i] matches Some((key, value)) && key != seq![
                0x73u8,
                0x69u8,
                0x7au8,
                0x65u8,
            ]),
    ensures
        records[at] == Some(
            (seq![0x73u8, 0x69u8, 0x7au8, 0x65u8], crate::notation::digits(number)),
        ) && number <= u64::MAX ==> stated_size(records, from) == Some(number as u64),
        records[at] is None ==> stated_size(records, from) is None,
    decreases at - from,
{
    crate::notation::law_numbers_are_read_back(number);
    assert(crate::text::is_digit(crate::notation::digits(number)[0]));
    assert(size_key() =~= seq![0x73u8, 0x69u8, 0x7au8, 0x65u8]);
    if from < at {
        assert(records[from] is Some);
        law_sizes_are_read_from_attributes(records, from + 1, at, number);
    }
}

/// A sparse entry goes on block by block, as long as a block says that another one follows.
pub proof fn law_sparse_entries_go_on(archive: Seq<u8>, from: int)
    requires
        0 <= from,
        from + 512 <= archive.len(),
    ensures
        archive[from + 504] == 1 ==> further_blocks(archive, from) == 1 + further_blocks(
            archive,
            from + 512,
        ),
        archive[from + 504] != 1 ==> further_blocks(archive, from) == 1,
        further_blocks(archive, archive.len() as int) == 0,
{
}

/// The headers of an archive are gone through by the sizes that they state: behind a header and its
/// data, in whole blocks, comes the next, for which attributes may state another size; a block of
/// zeros ends the archive.
pub proof fn law_headers_follow_each_other(archive: Seq<u8>, at: int, given: Option<u64>, size: u64)
    requires
        0 <= at,
        at + 512 <= archive.len() <= u64::MAX,
    ensures
        (forall|i: int| at <= i < at + 512 ==> #[trigger] archive[i] == 0) ==> listable_from(
            archive,
            at,
            given,
        ) == archive.len(),
        ({
            let found = header_in(archive, at);
            let next = at + 512 + (size + 511) / 512 * 512;
            let plain = found.kind != 0x53 && !(forall|i: int|
                at <= i < at + 512 ==> #[trigger] archive[i] == 0);
            let of_another = found.kind == 0x4c || found.kind == 0x4b || found.kind == 0x78
                || found.kind == 0x67;
            &&& plain && !of_another && found.size is Some && next <= archive.len() && (given
                == Some(size) || given is None && found.size == Some(size)) ==> listable_from(
                archive,
                at,
                given,
            ) == listable_from(archive, next, None)
            &&& plain && (found.kind == 0x4c || found.kind == 0x4b) && (found.ustar || found.gnu)
                && found.size == Some(size) && next <= archive.len() ==> listable_from(
                archive,
                at,
                given,
            ) == listable_from(archive, next, given)
        }),
{
}

/// However large the sizes are that an archive states, the place behind a sparse entry's further
/// blocks is a number that there is in what is listed of it: where it would not be, the archive is
/// listed only up to the last block with which it still is.
pub proof fn law_places_stay_within_numbers(archive: Seq<u8>, at: int, given: Option<u64>, size: u64)
    requires
        0 <= at,
        at + 512 <= archive.len() <= u64::MAX,
        exists|i: int| at <= i < at + 512 && #[trigger] archive[i] != 0,
        header_in(archive, at).kind == 0x53,
        header_in(archive, at).gnu,
        header_in(archive, at).extended,
        header_in(archive, at).size is Some,
        given == Some(size) || given is None && header_in(archive, at).size == Some(size),
        at + 512 + (size + 511) / 512 * 512 <= u64::MAX,
    ensures
        ({
            let next = at + 512 + (size + 511) / 512 * 512;
            let end = listable_from(archive, at, given);
            next + 512 * further_blocks(archive, at + 512) > u64::MAX ==> {
                &&& end < archive.len()
                &&& next + (end - (at + 512)) <= u64::MAX
                &&& next + (end - (at + 512)) + 512 > u64::MAX
            }
        }),
{
    let next = at + 512 + (size + 511) / 512 * 512;
    lemma_blocks_are_there(archive, at + 512);
    let blocks = further_blocks(archive, at + 512);
    let room = (u64::MAX - next) / 512;
    assert(512 * room <= u64::MAX - next < 512 * room + 512);
}

proof fn lemma_blocks_are_there(archive: Seq<u8>, from: int)
    requires
        0 <= from <= archive.len(),
    ensures
        from + 512 * further_blocks(archive, from) <= archive.len(),
    decreases archive.len() - from,
{
    if from + 512 <= archive.len() && archive[from + 504] == 1 {
        lemma_blocks_are_there(archive, from + 512);
    }
}

} // verus!
