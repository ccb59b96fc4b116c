//! Slash-separated paths as text.

use vstd::prelude::*;
use vstd::string::*;

use crate::text::{chars_of, join, join3, same_text};

verus! {

/// Whether a path begins at the root.
pub open spec fn is_absolute(path: Seq<char>) -> bool {
    path.len() > 0 && path[0] == '/'
}

/// A path without the separators, and the components that stand for the current directory, at its
/// end.
pub open spec fn trim_path(path: Seq<char>) -> Seq<char>
    decreases path.len(),
{
    if path.len() > 1 && path.last() == '/' {
        trim_path(path.drop_last())
    } else if path.len() > 1 && path.last() == '.' && path[path.len() - 2] == '/' {
        trim_path(path.drop_last())
    } else {
        path
    }
}

/// The position behind the last separator before `upto`.
pub open spec fn component_start(path: Seq<char>, upto: int) -> int
    decreases upto,
{
    if 0 < upto <= path.len() && path[upto - 1] != '/' {
        component_start(path, upto - 1)
    } else {
        upto
    }
}

/// The path without its last component; `None` of the root and of the empty path.
pub open spec fn parent_of(path: Seq<char>) -> Option<Seq<char>> {
    let trimmed = trim_path(path);
    if trimmed.len() == 0 || trimmed == seq!['/'] {
        None
    } else {
        Some(trim_path(trimmed.subrange(0, component_start(trimmed, trimmed.len() as int))))
    }
}

/// A path below a directory; one that begins at the root takes the directory's place.
pub open spec fn join_of(directory: Seq<char>, path: Seq<char>) -> Seq<char> {
    if is_absolute(path) || directory.len() == 0 {
        path
    } else if directory.last() == '/' {
        directory + path
    } else {
        directory + "/"@ + path
    }
}

/// The components of a path from a position on: what stands between separators, without what is
/// empty and without the current directory, but for one that a path begins with.
pub open spec fn components_from(path: Seq<char>, from: int) -> Seq<Seq<char>>
    decreases path.len() - from,
{
    if 0 <= from < path.len() {
        let end = crate::text::find_char(path, from, '/');
        let word = path.subrange(from, end);
        let rest = if from <= end < path.len() {
            components_from(path, end + 1)
        } else {
            Seq::empty()
        };
        if word.len() == 0 || (word == "."@ && from > 0) {
            rest
        } else {
            seq![word] + rest
        }
    } else {
        Seq::empty()
    }
}

/// Whether two paths are made of the same components.
pub open spec fn same_path_spec(left: Seq<char>, right: Seq<char>) -> bool {
    is_absolute(left) == is_absolute(right) && components_from(left, 0) == components_from(right, 0)
}

/// The components of a path.
pub fn components(path: &str) -> (parts: Vec<String>)
    ensures
        crate::text::strings(parts@) == components_from(path@, 0),
{
    let characters = chars_of(path);
    let mut parts: Vec<String> = Vec::new();
    let mut from: usize = 0;
    assert(crate::text::strings(parts@) =~= Seq::empty());
    assert(Seq::<Seq<char>>::empty() + components_from(path@, 0) =~= components_from(path@, 0));
    while from < characters.len()
        invariant
            characters@ == path@,
            components_from(path@, 0) == crate::text::strings(parts@) + components_from(
                path@,
                from as int,
            ),
        decreases path@.len() - from,
    {
        let mut end: usize = from;
        while end < characters.len() && characters[end] != '/'
            invariant
                characters@ == path@,
                from <= end <= path@.len(),
                crate::text::find_char(path@, from as int, '/') == crate::text::find_char(
                    path@,
                    end as int,
                    '/',
                ),
            decreases path@.len() - end,
        {
            end += 1;
        }
        let word = path.substring_char(from, end).to_owned();
        let ghost before = parts@;
        if end > from && (from == 0 || !same_text(word.as_str(), ".")) {
            parts.push(word);
            assert(crate::text::strings(parts@) =~= crate::text::strings(before).push(
                path@.subrange(from as int, end as int),
            ));
        }
        proof {
            let rest = components_from(path@, end + 1);
            assert(end == path@.len() ==> rest =~= Seq::empty());
            assert(components_from(path@, from as int) == rest || components_from(
                path@,
                from as int,
            ) == seq![path@.subrange(from as int, end as int)] + rest);
            assert(crate::text::strings(parts@) + rest =~= crate::text::strings(before)
                + components_from(path@, from as int));
        }
        if end >= characters.len() {
            assert(components_from(path@, end + 1) =~= Seq::empty());
            assert(crate::text::strings(parts@) + Seq::empty() =~= crate::text::strings(parts@));
            return parts;
        }
        from = end + 1;
    }
    assert(components_from(path@, from as int) =~= Seq::empty());
    assert(crate::text::strings(parts@) + Seq::empty() =~= crate::text::strings(parts@));
    parts
}

/// Compares two paths by their components.
pub fn same_path(left: &str, right: &str) -> (same: bool)
    ensures
        same == same_path_spec(left@, right@),
{
    let left_root: bool = left.unicode_len() > 0 && left.get_char(0) == '/';
    let right_root: bool = right.unicode_len() > 0 && right.get_char(0) == '/';
    if left_root != right_root {
        return false;
    }
    let left_parts = components(left);
    let right_parts = components(right);
    let ghost lefts = components_from(left@, 0);
    let ghost rights = components_from(right@, 0);
    assert(lefts.len() == left_parts@.len() && rights.len() == right_parts@.len());
    if left_parts.len() != right_parts.len() {
        return false;
    }
    let mut i: usize = 0;
    while i < left_parts.len()
        invariant
            i <= left_parts@.len(),
            left_parts@.len() == right_parts@.len(),
            lefts == crate::text::strings(left_parts@),
            rights == crate::text::strings(right_parts@),
            lefts == components_from(left@, 0),
            rights == components_from(right@, 0),
            forall|j: int| 0 <= j < i ==> lefts[j] == rights[j],
        decreases left_parts@.len() - i,
    {
        assert(lefts[i as int] == left_parts@[i as int]@);
        assert(rights[i as int] == right_parts@[i as int]@);
        if !same_text(left_parts[i].as_str(), right_parts[i].as_str()) {
            return false;
        }
        i += 1;
    }
    assert(lefts =~= rights);
    true
}

fn trimmed_len(characters: &Vec<char>, from: usize) -> (length: usize)
    requires
        from <= characters@.len(),
    ensures
        length <= from,
        characters@.subrange(0, length as int) == trim_path(
            characters@.subrange(0, from as int),
        ),
{
    let mut length: usize = from;
    while length > 1 && (characters[length - 1] == '/' || (characters[length - 1] == '.'
        && characters[length - 2] == '/'))
        invariant
            length <= from <= characters@.len(),
            trim_path(characters@.subrange(0, from as int)) == trim_path(
                characters@.subrange(0, length as int),
            ),
        decreases length,
    {
        assert(characters@.subrange(0, length as int).drop_last() =~= characters@.subrange(
            0,
            length - 1,
        ));
        length -= 1;
    }
    length
}

/// The directory that a path lies in.
pub fn parent(path: &str) -> (directory: Option<String>)
    ensures
        crate::text::text_of(directory) == parent_of(path@),
{
    let characters = chars_of(path);
    assert(characters@.subrange(0, characters@.len() as int) =~= path@);
    let length: usize = trimmed_len(&characters, characters.len());
    let ghost trimmed = trim_path(path@);
    assert(trimmed =~= characters@.subrange(0, length as int));
    if length == 0 {
        return None;
    }
    if length == 1 && characters[0] == '/' {
        assert(trimmed =~= seq!['/']);
        return None;
    }
    assert(trimmed != seq!['/']) by {
        if trimmed == seq!['/'] {
            assert(trimmed.len() == 1 && trimmed[0] == '/');
        }
    }
    let mut start: usize = length;
    while start > 0 && characters[start - 1] != '/'
        invariant
            start <= length <= characters@.len(),
            trimmed == characters@.subrange(0, length as int),
            component_start(trimmed, length as int) == component_start(trimmed, start as int),
        decreases start,
    {
        assert(trimmed[start - 1] == characters@[start - 1]);
        start -= 1;
    }
    proof {
        if start > 0 {
            assert(trimmed[start - 1] == characters@[start - 1]);
        }
        assert(trimmed.subrange(0, start as int) =~= characters@.subrange(0, start as int));
    }
    let kept: usize = trimmed_len(&characters, start);
    Some(path.substring_char(0, kept).to_owned())
}

/// Joins a path to a directory.
pub fn join_path(directory: &str, path: &str) -> (joined: String)
    ensures
        joined@ == join_of(directory@, path@),
{
    let length: usize = directory.unicode_len();
    if (path.unicode_len() > 0 && path.get_char(0) == '/') || length == 0 {
        return path.to_owned();
    }
    if directory.get_char(length - 1) == '/' {
        join(directory, path)
    } else {
        join3(directory, "/", path)
    }
}

} // verus!
