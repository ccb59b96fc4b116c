//! The names and links in a copy archive: everything in it lies below one root, and no link leads
//! out of it.

use vstd::prelude::*;
use vstd::slice::*;

use crate::bytes::{copy_bytes, same_bytes};
use crate::text::find_byte;

verus! {

pub const SLASH: u8 = 0x2f;

/// The name of everything that is copied: `root`.
pub open spec fn root_name() -> Seq<u8> {
    seq![0x72u8, 0x6fu8, 0x6fu8, 0x74u8]
}

pub open spec fn dot() -> Seq<u8> {
    seq![0x2eu8]
}

pub open spec fn dot_dot() -> Seq<u8> {
    seq![0x2eu8, 0x2eu8]
}

pub open spec fn starts_at_root(path: Seq<u8>) -> bool {
    path.len() > 0 && path[0] == SLASH
}

/// The components of a path from a position on: what stands between separators, without what is
/// empty and without the current directory, but for one that a path begins with.
pub open spec fn parts_from(path: Seq<u8>, from: int) -> Seq<Seq<u8>>
    decreases path.len() - from,
{
    if 0 <= from < path.len() {
        let end = crate::text::find_from(path, from, SLASH);
        let word = path.subrange(from, end);
        let rest = if from <= end < path.len() {
            parts_from(path, end + 1)
        } else {
            Seq::empty()
        };
        if word.len() == 0 || (word == dot() && from > 0) {
            rest
        } else {
            seq![word] + rest
        }
    } else {
        Seq::empty()
    }
}

pub open spec fn byte_views(parts: Seq<Vec<u8>>) -> Seq<Seq<u8>> {
    parts.map_values(|part: Vec<u8>| part@)
}

fn is_dot(word: &[u8]) -> (found: bool)
    ensures
        found == (word@ == dot()),
{
    let found: bool = word.len() == 1 && word[0] == 0x2e;
    assert(found ==> word@ =~= dot());
    found
}

fn is_dot_dot(word: &[u8]) -> (found: bool)
    ensures
        found == (word@ == dot_dot()),
{
    let found: bool = word.len() == 2 && word[0] == 0x2e && word[1] == 0x2e;
    assert(found ==> word@ =~= dot_dot());
    found
}

fn is_root_name(word: &[u8]) -> (found: bool)
    ensures
        found == (word@ == root_name()),
{
    let found: bool = word.len() == 4 && word[0] == 0x72 && word[1] == 0x6f && word[2] == 0x6f
        && word[3] == 0x74;
    assert(found ==> word@ =~= root_name());
    found
}

/// The components of a path.
pub fn split_parts(path: &[u8]) -> (parts: Vec<Vec<u8>>)
    ensures
        byte_views(parts@) == parts_from(path@, 0),
{
    let mut parts: Vec<Vec<u8>> = Vec::new();
    let mut from: usize = 0;
    assert(byte_views(parts@) =~= Seq::empty());
    assert(Seq::<Seq<u8>>::empty() + parts_from(path@, 0) =~= parts_from(path@, 0));
    assert(path.len() == path@.len());
    while from < path.len()
        invariant
            from <= path@.len() + 1,
            path@.len() <= usize::MAX,
            parts_from(path@, 0) == byte_views(parts@) + parts_from(path@, from as int),
        decreases path@.len() + 1 - from,
    {
        let end: usize = find_byte(path, from, SLASH);
        let word = slice_subrange(path, from, end);
        let ghost before = parts@;
        if end > from && (from == 0 || !is_dot(word)) {
            parts.push(copy_bytes(word));
            assert(byte_views(parts@) =~= byte_views(before).push(word@));
        }
        proof {
            let rest = parts_from(path@, end + 1);
            assert(end == path@.len() ==> rest =~= Seq::empty());
            assert(parts_from(path@, from as int) == rest || parts_from(path@, from as int)
                == seq![word@] + rest);
            assert(byte_views(parts@) + rest =~= byte_views(before) + parts_from(
                path@,
                from as int,
            ));
        }
        if end >= path.len() {
            assert(parts_from(path@, end + 1) =~= Seq::empty());
            assert(byte_views(parts@) + Seq::empty() =~= byte_views(parts@));
            return parts;
        }
        from = end + 1;
    }
    assert(parts_from(path@, from as int) =~= Seq::empty());
    assert(byte_views(parts@) + Seq::empty() =~= byte_views(parts@));
    parts
}

/// Whether a name may stand in an archive: the root, or something below it, and nowhere a step
/// upwards.
pub open spec fn valid_name(path: Seq<u8>) -> bool {
    let parts = parts_from(path, 0);
    &&& !starts_at_root(path)
    &&& parts.len() > 0
    &&& parts[0] == root_name()
    &&& forall|i: int| 0 <= i < parts.len() ==> #[trigger] parts[i] != dot_dot()
}

/// Checks a name of an archive.
pub fn valid_archive_path(path: &[u8]) -> (valid: bool)
    ensures
        valid == valid_name(path@),
{
    if path.len() > 0 && path[0] == SLASH {
        return false;
    }
    let parts = split_parts(path);
    let ghost views = parts_from(path@, 0);
    assert(views.len() == parts@.len());
    if parts.len() == 0 {
        return false;
    }
    assert(views[0] == parts@[0]@);
    if !is_root_name(parts[0].as_slice()) {
        return false;
    }
    let mut i: usize = 0;
    while i < parts.len()
        invariant
            i <= parts@.len(),
            views == byte_views(parts@),
            views == parts_from(path@, 0),
            forall|j: int| 0 <= j < i ==> #[trigger] views[j] != dot_dot(),
        decreases parts@.len() - i,
    {
        assert(views[i as int] == parts@[i as int]@);
        if is_dot_dot(parts[i].as_slice()) {
            return false;
        }
        i += 1;
    }
    true
}

/// Where some steps lead from a directory: upwards as long as there is something above, and
/// nowhere beyond that.
pub open spec fn walk(directory: Seq<Seq<u8>>, steps: Seq<Seq<u8>>) -> Option<Seq<Seq<u8>>>
    decreases steps.len(),
{
    if steps.len() == 0 {
        Some(directory)
    } else {
        match walk(directory, steps.drop_last()) {
            None => None,
            Some(reached) => if steps.last() == dot() {
                Some(reached)
            } else if steps.last() == dot_dot() {
                if reached.len() > 0 {
                    Some(reached.drop_last())
                } else {
                    None
                }
            } else {
                Some(reached.push(steps.last()))
            },
        }
    }
}

/// The directory of a name, as its ordinary components.
pub open spec fn directory_of(name: Seq<u8>) -> Seq<Seq<u8>> {
    let parts = parts_from(name, 0);
    ordinary(
        if parts.len() == 0 {
            parts
        } else {
            parts.drop_last()
        },
    )
}

/// The components that are neither the current directory nor a step upwards.
pub open spec fn ordinary(parts: Seq<Seq<u8>>) -> Seq<Seq<u8>>
    decreases parts.len(),
{
    if parts.len() == 0 {
        parts
    } else if parts.last() == dot() || parts.last() == dot_dot() {
        ordinary(parts.drop_last())
    } else {
        ordinary(parts.drop_last()).push(parts.last())
    }
}

/// Where a link leads, if it does not lead above everything.
pub open spec fn link_end(name: Seq<u8>, target: Seq<u8>) -> Option<Seq<Seq<u8>>> {
    walk(directory_of(name), parts_from(target, 0))
}

/// Whether a link may stand in an archive: it is relative, and its end lies within the root.
pub open spec fn valid_link(name: Seq<u8>, target: Seq<u8>) -> bool {
    &&& target.len() > 0
    &&& !starts_at_root(target)
    &&& match link_end(name, target) {
        Some(reached) => reached.len() > 0 && reached[0] == root_name(),
        None => false,
    }
}

/// The same components, copied.
fn copy_ordinary(parts: &Vec<Vec<u8>>, upto: usize) -> (kept: Vec<Vec<u8>>)
    requires
        upto <= parts@.len(),
    ensures
        byte_views(kept@) == ordinary(byte_views(parts@).subrange(0, upto as int)),
{
    let ghost views = byte_views(parts@);
    let mut kept: Vec<Vec<u8>> = Vec::new();
    let mut i: usize = 0;
    assert(views.subrange(0, 0) =~= Seq::empty());
    assert(byte_views(kept@) =~= Seq::empty());
    while i < upto
        invariant
            i <= upto <= parts@.len(),
            views == byte_views(parts@),
            byte_views(kept@) == ordinary(views.subrange(0, i as int)),
        decreases upto - i,
    {
        let ghost before = kept@;
        proof {
            let longer = views.subrange(0, i + 1);
            assert(longer.drop_last() =~= views.subrange(0, i as int));
            assert(longer.last() == parts@[i as int]@);
        }
        if !is_dot(parts[i].as_slice()) && !is_dot_dot(parts[i].as_slice()) {
            kept.push(copy_bytes(parts[i].as_slice()));
            assert(byte_views(kept@) =~= byte_views(before).push(parts@[i as int]@));
        }
        i += 1;
    }
    kept
}

/// Checks a link of an archive.
pub fn valid_archive_symlink(name: &[u8], target: &[u8]) -> (valid: bool)
    ensures
        valid == valid_link(name@, target@),
{
    if target.len() == 0 || target[0] == SLASH {
        return false;
    }
    let name_parts = split_parts(name);
    let count: usize = name_parts.len();
    let upto: usize = if count == 0 {
        0
    } else {
        count - 1
    };
    let mut reached = copy_ordinary(&name_parts, upto);
    proof {
        let parts = parts_from(name@, 0);
        assert(parts.len() == count);
        if count == 0 {
            assert(parts.subrange(0, 0) =~= parts);
        } else {
            assert(parts.subrange(0, upto as int) =~= parts.drop_last());
        }
        assert(byte_views(reached@) == directory_of(name@));
    }
    let steps = split_parts(target);
    let ghost views = parts_from(target@, 0);
    let ghost start = directory_of(name@);
    let mut i: usize = 0;
    assert(views.subrange(0, 0) =~= Seq::empty());
    while i < steps.len()
        invariant
            i <= steps@.len(),
            views == byte_views(steps@),
            views == parts_from(target@, 0),
            start == directory_of(name@),
            walk(start, views.subrange(0, i as int)) == Some(byte_views(reached@)),
        decreases steps@.len() - i,
    {
        let ghost before = reached@;
        proof {
            let longer = views.subrange(0, i + 1);
            assert(longer.drop_last() =~= views.subrange(0, i as int));
            assert(longer.last() == steps@[i as int]@);
        }
        if is_dot(steps[i].as_slice()) {
        } else if is_dot_dot(steps[i].as_slice()) {
            if reached.len() == 0 {
                proof {
                    lemma_walk_stops(start, views, i + 1);
                }
                return false;
            }
            reached.pop();
            assert(byte_views(reached@) =~= byte_views(before).drop_last());
        } else {
            reached.push(copy_bytes(steps[i].as_slice()));
            assert(byte_views(reached@) =~= byte_views(before).push(steps@[i as int]@));
        }
        i += 1;
    }
    assert(views.subrange(0, i as int) =~= views);
    assert(byte_views(reached@).len() == reached@.len());
    if reached.len() == 0 {
        return false;
    }
    assert(byte_views(reached@)[0] == reached@[0]@);
    is_root_name(reached[0].as_slice())
}

/// Steps that lead above everything are not mended by what follows them.
proof fn lemma_walk_stops(directory: Seq<Seq<u8>>, steps: Seq<Seq<u8>>, upto: int)
    requires
        0 <= upto <= steps.len(),
        walk(directory, steps.subrange(0, upto)) is None,
    ensures
        walk(directory, steps) is None,
    decreases steps.len() - upto,
{
    if upto == steps.len() {
        assert(steps.subrange(0, upto) =~= steps);
    } else {
        let longer = steps.subrange(0, upto + 1);
        assert(longer.drop_last() =~= steps.subrange(0, upto));
        lemma_walk_stops(directory, steps, upto + 1);
    }
}

/// A link that is let into an archive ends within the archive's root.
pub proof fn law_links_stay_below_the_root(name: Seq<u8>, target: Seq<u8>)
    requires
        valid_link(name, target),
    ensures
        link_end(name, target) is Some,
        link_end(name, target)->0.len() > 0,
        link_end(name, target)->0[0] == root_name(),
        !starts_at_root(target),
{
}

/// A name that is let into an archive lies below the archive's root and takes no step upwards.
pub proof fn law_names_stay_below_the_root(path: Seq<u8>)
    requires
        valid_name(path),
    ensures
        walk(Seq::empty(), parts_from(path, 0)) == Some(parts_from(path, 0)),
        parts_from(path, 0)[0] == root_name(),
{
    let parts = parts_from(path, 0);
    assert(parts[0] == root_name());
    assert forall|i: int| 0 <= i < parts.len() implies #[trigger] parts[i] != dot() by {
        if i > 0 {
            lemma_no_inner_dots(path, 0, i);
        } else {
            assert(root_name().len() == 4 && dot().len() == 1);
        }
    }
    lemma_plain_walk(parts, parts.len() as int);
    assert(parts.subrange(0, parts.len() as int) =~= parts);
}

proof fn lemma_no_inner_dots(path: Seq<u8>, from: int, i: int)
    requires
        0 <= from,
        0 <= i < parts_from(path, from).len(),
        from > 0 || i > 0,
    ensures
        parts_from(path, from)[i] != dot(),
    decreases path.len() - from,
{
    let end = crate::text::find_from(path, from, SLASH);
    let word = path.subrange(from, end);
    let rest = if from <= end < path.len() {
        parts_from(path, end + 1)
    } else {
        Seq::empty()
    };
    if word.len() == 0 || (word == dot() && from > 0) {
        lemma_no_inner_dots(path, end + 1, i);
    } else if i > 0 {
        assert(parts_from(path, from)[i] == rest[i - 1]);
        lemma_no_inner_dots(path, end + 1, i - 1);
    }
}

proof fn lemma_plain_walk(parts: Seq<Seq<u8>>, upto: int)
    requires
        0 <= upto <= parts.len(),
        forall|i: int|
            0 <= i < parts.len() ==> #[trigger] parts[i] != dot() && parts[i] != dot_dot(),
    ensures
        walk(Seq::empty(), parts.subrange(0, upto)) == Some(parts.subrange(0, upto)),
    decreases upto,
{
    let taken = parts.subrange(0, upto);
    if upto > 0 {
        lemma_plain_walk(parts, upto - 1);
        assert(taken.drop_last() =~= parts.subrange(0, upto - 1));
        assert(taken.last() == parts[upto - 1]);
        assert(parts.subrange(0, upto - 1).push(parts[upto - 1]) =~= taken);
    } else {
        assert(taken =~= Seq::empty());
    }
}

/// Compares two lists of components, from their ends on.
pub fn same_parts(left: &Vec<Vec<u8>>, right: &Vec<Vec<u8>>) -> (same: bool)
    ensures
        same == (byte_views(left@) == byte_views(right@)),
{
    let ghost lefts = byte_views(left@);
    let ghost rights = byte_views(right@);
    assert(lefts.len() == left@.len() && rights.len() == right@.len());
    if left.len() != right.len() {
        return false;
    }
    let mut i: usize = left.len();
    while i > 0
        invariant
            i <= left@.len(),
            left@.len() == right@.len(),
            lefts == byte_views(left@),
            rights == byte_views(right@),
            forall|j: int| i <= j < lefts.len() ==> lefts[j] == rights[j],
        decreases i,
    {
        i -= 1;
        assert(lefts[i as int] == left@[i as int]@);
        assert(rights[i as int] == right@[i as int]@);
        if !same_bytes(left[i].as_slice(), right[i].as_slice()) {
            return false;
        }
    }
    assert(lefts =~= rights);
    true
}

} // verus!
