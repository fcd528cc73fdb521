//! Paths as text: joining, and what their components say.
use vstd::prelude::*;
use crate::text::{characters, concat_two, push_char, same_text, text_of};

verus! {

/// `segment` behind `base`: an absolute segment replaces the base.
pub open spec fn joined_path(base: Seq<char>, segment: Seq<char>) -> Seq<char> {
    if segment.len() > 0 && segment[0] == '/' {
        segment
    } else if base.len() == 0 || base.last() == '/' {
        base + segment
    } else {
        base.push('/') + segment
    }
}

pub fn join_path(base: &str, segment: &str) -> (result: String)
    ensures
        result@ == joined_path(base@, segment@),
{
    let head = characters(base);
    let tail = characters(segment);
    if tail.len() > 0 && tail[0] == '/' {
        return text_of_all(&tail);
    }
    if head.len() == 0 || head[head.len() - 1] == '/' {
        concat_two(base, segment)
    } else {
        let mut result = concat_two(base, "");
        proof {
            reveal_strlit("");
            assert(base@ + ""@ =~= base@);
        }
        push_char(&mut result, '/');
        result.append(segment);
        result
    }
}

fn text_of_all(letters: &Vec<char>) -> (result: String)
    ensures
        result@ == letters@,
{
    let result = text_of(letters, 0, letters.len());
    assert(letters@.subrange(0, letters@.len() as int) =~= letters@);
    result
}

/// A component of a path, by its place in the text.
pub struct Piece {
    pub start: int,
    pub end: int,
}

/// Whether `text[start..end]` counts as a component: not when it is empty, and
/// `.` only at the very beginning.
pub open spec fn counts(text: Seq<char>, start: int, end: int) -> bool {
    start < end && !(end - start == 1 && text[start] == '.' && start > 0)
}

/// The components of `text[start..]`, the next separator being looked for at
/// `index`.
pub open spec fn pieces_from(text: Seq<char>, start: int, index: int, done: Seq<Piece>) -> Seq<Piece>
    decreases text.len() - index,
{
    if index < 0 || index >= text.len() {
        if counts(text, start, text.len() as int) {
            done.push(Piece { start, end: text.len() as int })
        } else {
            done
        }
    } else if text[index] == '/' {
        pieces_from(
            text,
            index + 1,
            index + 1,
            if counts(text, start, index) {
                done.push(Piece { start, end: index })
            } else {
                done
            },
        )
    } else {
        pieces_from(text, start, index + 1, done)
    }
}

/// The components of a path; the root counts as one.
pub open spec fn path_pieces(text: Seq<char>) -> Seq<Piece> {
    if text.len() > 0 && text[0] == '/' {
        pieces_from(text, 1, 1, seq![Piece { start: 0, end: 1 }])
    } else {
        pieces_from(text, 0, 0, Seq::empty())
    }
}

pub open spec fn piece_text(text: Seq<char>, piece: Piece) -> Seq<char> {
    text.subrange(piece.start, piece.end)
}

pub open spec fn piece_texts(text: Seq<char>) -> Seq<Seq<char>> {
    Seq::new(path_pieces(text).len(), |i: int| piece_text(text, path_pieces(text)[i]))
}

spec fn piece_views(pieces: Seq<(usize, usize)>) -> Seq<Piece> {
    Seq::new(pieces.len(), |i: int| Piece { start: pieces[i].0 as int, end: pieces[i].1 as int })
}

spec fn within(pieces: Seq<(usize, usize)>, end: int) -> bool {
    forall|i: int| 0 <= i < pieces.len() ==> (#[trigger] pieces[i]).0 < pieces[i].1 <= end
}

fn add_piece(done: &mut Vec<(usize, usize)>, text: &Vec<char>, start: usize, end: usize)
    requires
        start <= end <= text.len(),
        within(old(done)@, text@.len() as int),
    ensures
        within(final(done)@, text@.len() as int),
        piece_views(final(done)@) == (if counts(text@, start as int, end as int) {
            piece_views(old(done)@).push(Piece { start: start as int, end: end as int })
        } else {
            piece_views(old(done)@)
        }),
{
    if start < end && !(end - start == 1 && text[start] == '.' && start > 0) {
        let ghost before = done@;
        done.push((start, end));
        assert(piece_views(done@) =~= piece_views(before).push(Piece { start: start as int, end: end as int }));
    }
}

fn find_pieces(text: &Vec<char>) -> (result: Vec<(usize, usize)>)
    ensures
        piece_views(result@) == path_pieces(text@),
        within(result@, text@.len() as int),
{
    let mut done: Vec<(usize, usize)> = Vec::new();
    let mut start: usize = 0;
    assert(piece_views(done@) =~= Seq::<Piece>::empty());
    if text.len() > 0 && text[0] == '/' {
        done.push((0, 1));
        start = 1;
        assert(piece_views(done@) =~= seq![Piece { start: 0, end: 1 }]);
    }
    let mut index: usize = start;
    while index < text.len()
        invariant
            start <= index <= text.len(),
            within(done@, text@.len() as int),
            path_pieces(text@) == pieces_from(text@, start as int, index as int, piece_views(done@)),
        decreases text.len() - index,
    {
        if text[index] == '/' {
            add_piece(&mut done, text, start, index);
            start = index + 1;
        }
        index += 1;
    }
    add_piece(&mut done, text, start, text.len());
    done
}

/// The texts of a path's components.
pub fn component_texts(path: &str) -> (result: Vec<String>)
    ensures
        crate::lowered::view::texts(result@) == piece_texts(path@),
{
    let letters = characters(path);
    let pieces = find_pieces(&letters);
    let mut done: Vec<String> = Vec::new();
    let mut i: usize = 0;
    while i < pieces.len()
        invariant
            i <= pieces.len(),
            letters@ == path@,
            piece_views(pieces@) == path_pieces(path@),
            within(pieces@, letters@.len() as int),
            done.len() == i,
            forall|k: int| 0 <= k < i ==> crate::lowered::view::texts(done@)[k] == piece_texts(path@)[k],
        decreases pieces.len() - i,
    {
        let ghost before = done@;
        assert(path_pieces(path@)[i as int] == piece_views(pieces@)[i as int]);
        done.push(text_of(&letters, pieces[i].0, pieces[i].1));
        proof {
            crate::lowered::view::lemma_texts_push(before, done@.last());
        }
        i += 1;
    }
    assert(piece_views(pieces@).len() == pieces@.len());
    assert(crate::lowered::view::texts(done@) =~= piece_texts(path@));
    done
}

/// The path without its last component. The root and the empty path have none.
pub open spec fn parent_text(text: Seq<char>) -> Option<Seq<char>> {
    let pieces = path_pieces(text);
    if pieces.len() == 0 || piece_text(text, pieces.last()) == "/"@ {
        None
    } else if pieces.len() == 1 {
        Some(Seq::empty())
    } else {
        Some(text.take(pieces[pieces.len() - 2].end))
    }
}

pub fn parent_path(path: &str) -> (result: Option<String>)
    ensures
        match result {
            Some(parent) => parent_text(path@) == Some(parent@),
            None => parent_text(path@) is None,
        },
{
    let letters = characters(path);
    let pieces = find_pieces(&letters);
    let count: usize = pieces.len();
    assert(piece_views(pieces@).len() == count);
    if count == 0 {
        return None;
    }
    assert(path_pieces(path@).last() == piece_views(pieces@)[count - 1]);
    let last = text_of(&letters, pieces[count - 1].0, pieces[count - 1].1);
    if same_text(last.as_str(), "/") {
        return None;
    }
    if count == 1 {
        let empty = String::new();
        assert(empty@ =~= Seq::<char>::empty());
        return Some(empty);
    }
    assert(path_pieces(path@)[count - 2] == piece_views(pieces@)[count - 2]);
    let parent = text_of(&letters, 0, pieces[count - 2].1);
    assert(parent@ =~= path@.take(pieces@[count - 2].1 as int));
    Some(parent)
}

/// The last component, when it names something.
pub open spec fn file_name_text(text: Seq<char>) -> Option<Seq<char>> {
    let names = piece_texts(text);
    if names.len() == 0 || names.last() == "/"@ || names.last() == "."@ || names.last() == ".."@ {
        None
    } else {
        Some(names.last())
    }
}

pub fn file_name(path: &str) -> (result: Option<String>)
    ensures
        match result {
            Some(name) => file_name_text(path@) == Some(name@),
            None => file_name_text(path@) is None,
        },
{
    let mut names = component_texts(path);
    let ghost all = crate::lowered::view::texts(names@);
    if names.len() == 0 {
        return None;
    }
    let last: usize = names.len() - 1;
    let name = names[last].clone();
    assert(all.last() == name@);
    if same_text(name.as_str(), "/") || same_text(name.as_str(), ".") || same_text(name.as_str(), "..") {
        return None;
    }
    Some(name)
}

/// The place of the last dot at or before `index`, or -1.
pub open spec fn last_dot(text: Seq<char>, index: int) -> int
    decreases index + 1,
{
    if index < 0 || index >= text.len() {
        -1
    } else if text[index] == '.' {
        index
    } else {
        last_dot(text, index - 1)
    }
}

/// What stands behind the last dot of the file name; a dot at its beginning
/// does not count.
pub open spec fn extension_text(text: Seq<char>) -> Option<Seq<char>> {
    match file_name_text(text) {
        None => None,
        Some(name) => {
            let dot = last_dot(name, name.len() - 1);
            if dot <= 0 {
                None
            } else {
                Some(name.subrange(dot + 1, name.len() as int))
            }
        },
    }
}

pub fn extension(path: &str) -> (result: Option<String>)
    ensures
        match result {
            Some(extension) => extension_text(path@) == Some(extension@),
            None => extension_text(path@) is None,
        },
{
    let name = match file_name(path) {
        Some(name) => name,
        None => return None,
    };
    let letters = characters(name.as_str());
    let mut index: usize = letters.len();
    while index > 0 && letters[index - 1] != '.'
        invariant
            index <= letters.len(),
            letters@ == name@,
            last_dot(name@, name@.len() - 1) == last_dot(name@, index - 1),
        decreases index,
    {
        index -= 1;
    }
    if index <= 1 {
        return None;
    }
    Some(text_of(&letters, index, letters.len()))
}

} // verus!
