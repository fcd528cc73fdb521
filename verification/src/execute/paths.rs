//! Absolute paths as lists of segments.
use vstd::prelude::*;
use crate::lowered::view;
use crate::text::{characters, push_char, same_text, split_at_char};

verus! {

/// The segments that `parts[from..]` lead to from `base`: an empty part and `.`
/// stay, `..` goes up, any other part goes down.
pub open spec fn walked(parts: Seq<Seq<char>>, from: int, base: Seq<Seq<char>>) -> Seq<Seq<char>>
    decreases parts.len() - from,
{
    if from < 0 || from >= parts.len() {
        base
    } else {
        walked(parts, from + 1, stepped(parts[from], base))
    }
}

pub open spec fn stepped(part: Seq<char>, base: Seq<Seq<char>>) -> Seq<Seq<char>> {
    if part == ""@ || part == "."@ {
        base
    } else if part == ".."@ {
        if base.len() == 0 {
            base
        } else {
            base.drop_last()
        }
    } else {
        base.push(part)
    }
}

/// Whether a path is read from the root.
pub open spec fn is_absolute(path: Seq<char>) -> bool {
    path.len() > 0 && path[0] == '/'
}

/// The segments of an absolute path.
pub open spec fn absolute_segments(path: Seq<char>) -> Seq<Seq<char>> {
    walked(crate::text::split(path, '/'), 0, Seq::empty())
}

/// The segments of a path, a relative one read from the working directory.
/// Without a working directory a relative path has none.
pub open spec fn normalized(path: Seq<char>, working_dir: Option<Seq<char>>) -> Option<Seq<Seq<char>>> {
    if is_absolute(path) {
        Some(absolute_segments(path))
    } else {
        match working_dir {
            None => None,
            Some(directory) => Some(walked(crate::text::split(path, '/'), 0, absolute_segments(directory))),
        }
    }
}

/// Whether the path `inner` lies at or below `outer`.
pub open spec fn lies_under(inner: Seq<Seq<char>>, outer: Seq<Seq<char>>) -> bool {
    outer.len() <= inner.len() && inner.take(outer.len() as int) == outer
}

/// An absolute path as text.
pub open spec fn path_text(segments: Seq<Seq<char>>) -> Seq<char> {
    if segments.len() == 0 {
        "/"@
    } else {
        joined_segments(segments, segments.len() as int)
    }
}

/// The first `count` segments, each behind a separator.
pub open spec fn joined_segments(segments: Seq<Seq<char>>, count: int) -> Seq<char>
    decreases count,
{
    if count <= 0 {
        Seq::empty()
    } else {
        joined_segments(segments, count - 1).push('/') + segments[count - 1]
    }
}

fn starts_at_root(path: &str) -> (result: bool)
    ensures
        result == is_absolute(path@),
{
    let letters = characters(path);
    letters.len() > 0 && letters[0] == '/'
}

fn walk(path: &str, base: Vec<String>) -> (result: Vec<String>)
    ensures
        view::texts(result@) == walked(crate::text::split(path@, '/'), 0, view::texts(base@)),
{
    let parts = split_at_char(path, '/');
    let ghost all = crate::text::split(path@, '/');
    let ghost start = view::texts(base@);
    let mut segments = base;
    let mut i: usize = 0;
    while i < parts.len()
        invariant
            i <= parts.len(),
            all == view::texts(parts@),
            walked(all, 0, start) == walked(all, i as int, view::texts(segments@)),
        decreases parts.len() - i,
    {
        assert(all[i as int] == parts@[i as int]@);
        let ghost before = segments@;
        let part = parts[i].as_str();
        if same_text(part, "") || same_text(part, ".") {
        } else if same_text(part, "..") {
            if segments.len() > 0 {
                segments.pop();
                assert(view::texts(segments@) =~= view::texts(before).drop_last());
            } else {
                assert(view::texts(before).len() == 0);
            }
        } else {
            segments.push(parts[i].clone());
            proof {
                view::lemma_texts_push(before, segments@.last());
            }
        }
        i += 1;
    }
    segments
}

/// The segments of an absolute path.
pub(crate) fn read_absolute(path: &str) -> (result: Vec<String>)
    ensures
        view::texts(result@) == absolute_segments(path@),
{
    let empty: Vec<String> = Vec::new();
    assert(view::texts(empty@) =~= Seq::<Seq<char>>::empty());
    walk(path, empty)
}

/// The segments of `path`, read from `working_dir` when it is relative.
pub fn normalize_absolute_path(path: &str, working_dir: &Option<String>) -> (result: Option<Vec<String>>)
    ensures
        match result {
            Some(segments) => normalized(path@, view_option(*working_dir)) == Some(view::texts(segments@)),
            None => normalized(path@, view_option(*working_dir)) is None,
        },
{
    let empty: Vec<String> = Vec::new();
    assert(view::texts(empty@) =~= Seq::<Seq<char>>::empty());
    if starts_at_root(path) {
        Some(walk(path, empty))
    } else {
        match working_dir {
            None => None,
            Some(directory) => {
                let base = walk(directory.as_str(), empty);
                Some(walk(path, base))
            }
        }
    }
}

pub open spec fn view_option(text: Option<String>) -> Option<Seq<char>> {
    match text {
        Some(text) => Some(text@),
        None => None,
    }
}

/// Whether two segment lists are equal.
pub fn same_segments(left: &Vec<String>, right: &Vec<String>) -> (result: bool)
    ensures
        result == (view::texts(left@) == view::texts(right@)),
{
    let ghost first = view::texts(left@);
    let ghost second = view::texts(right@);
    if left.len() != right.len() {
        assert(first.len() != second.len());
        return false;
    }
    let mut i: usize = 0;
    while i < left.len()
        invariant
            i <= left.len() == right.len(),
            first == view::texts(left@),
            second == view::texts(right@),
            forall|j: int| 0 <= j < i ==> first[j] == second[j],
        decreases left.len() - i,
    {
        if !same_text(left[i].as_str(), right[i].as_str()) {
            assert(first[i as int] != second[i as int]);
            return false;
        }
        i += 1;
    }
    assert(first =~= second);
    true
}

/// Whether `inner` lies at or below `outer`.
pub fn path_starts_with(inner: &Vec<String>, outer: &Vec<String>) -> (result: bool)
    ensures
        result == lies_under(view::texts(inner@), view::texts(outer@)),
{
    let ghost first = view::texts(inner@);
    let ghost second = view::texts(outer@);
    if outer.len() > inner.len() {
        return false;
    }
    let mut i: usize = 0;
    while i < outer.len()
        invariant
            i <= outer.len() <= inner.len(),
            first == view::texts(inner@),
            second == view::texts(outer@),
            forall|j: int| 0 <= j < i ==> first[j] == second[j],
        decreases outer.len() - i,
    {
        if !same_text(inner[i].as_str(), outer[i].as_str()) {
            assert(first.take(second.len() as int)[i as int] != second[i as int]);
            return false;
        }
        i += 1;
    }
    assert(first.take(second.len() as int) =~= second);
    true
}

/// The absolute path made of `segments`.
pub fn segments_text(segments: &Vec<String>) -> (result: String)
    ensures
        result@ == path_text(view::texts(segments@)),
{
    let ghost all = view::texts(segments@);
    let mut result = String::new();
    let mut i: usize = 0;
    assert(result@ =~= joined_segments(all, 0));
    while i < segments.len()
        invariant
            i <= segments.len(),
            all == view::texts(segments@),
            result@ == joined_segments(all, i as int),
        decreases segments.len() - i,
    {
        push_char(&mut result, '/');
        result.append(segments[i].as_str());
        i += 1;
    }
    if segments.len() == 0 {
        push_char(&mut result, '/');
        proof {
            reveal_strlit("/");
        }
        assert(result@ =~= "/"@);
    }
    result
}

/// A path lies under whatever an outer path lies under.
pub proof fn lemma_under_transitive(inner: Seq<Seq<char>>, middle: Seq<Seq<char>>, outer: Seq<Seq<char>>)
    requires
        lies_under(inner, middle),
        lies_under(middle, outer),
    ensures
        lies_under(inner, outer),
{
    let n = outer.len() as int;
    assert(inner.take(n) =~= middle.take(n)) by {
        assert forall|i: int| 0 <= i < n implies inner[i] == middle[i] by {
            assert(inner.take(middle.len() as int)[i] == middle[i]);
        }
    }
}

/// Two paths that one path lies under are nested.
pub proof fn lemma_under_nested(inner: Seq<Seq<char>>, left: Seq<Seq<char>>, right: Seq<Seq<char>>)
    requires
        lies_under(inner, left),
        lies_under(inner, right),
    ensures
        left.len() <= right.len() ==> lies_under(right, left),
        right.len() <= left.len() ==> lies_under(left, right),
{
    assert forall|i: int| 0 <= i < left.len() implies inner[i] == left[i] by {
        assert(inner.take(left.len() as int)[i] == left[i]);
    }
    assert forall|i: int| 0 <= i < right.len() implies inner[i] == right[i] by {
        assert(inner.take(right.len() as int)[i] == right[i]);
    }
    if left.len() <= right.len() {
        assert(right.take(left.len() as int) =~= left);
    }
    if right.len() <= left.len() {
        assert(left.take(right.len() as int) =~= right);
    }
}

} // verus!
