//! What holds of paths and of databases of documents.
use vstd::prelude::*;
use crate::code::edit::{
    applied, changed_documents, document_edited, documents_edited, edit_error, plan_from, precondition_error, source_of,
    target_of,
};
use crate::code::model::CodeErrorKind;
use crate::code::source::{document_in, document_paths, document_place, documents_of, missing_document, snapshot_of, with_document};
use crate::code::view::{CodeErrorView, DocumentSnapshotView, EditView, NodeLocatorView, PlannedEditView, SourceDatabaseView};
use crate::code::workspace_path::{joined_to, law_paths_are_ordered, normal_path, path_precedes, same_path, with_path};
use crate::execute::path_text::{counts, joined_path, path_pieces, piece_texts, pieces_from, Piece};

verus! {

// Paths and their components.

pub open spec fn no_slash(text: Seq<char>) -> bool {
    forall|i: int| 0 <= i < text.len() ==> #[trigger] text[i] != '/'
}

/// Whether texts are the components of some path: the first one may be the root
/// or `.`, the others are names.
pub open spec fn is_path(components: Seq<Seq<char>>) -> bool {
    forall|i: int| 0 <= i < components.len() ==> is_component(#[trigger] components[i], i)
}

pub open spec fn is_component(component: Seq<char>, index: int) -> bool {
    &&& component.len() > 0
    &&& no_slash(component) || (index == 0 && component =~= seq!['/'])
    &&& index > 0 ==> !(component =~= seq!['.'])
}

/// Whether a piece of a text is one of its components.
pub open spec fn is_piece(text: Seq<char>, piece: Piece, first: bool) -> bool {
    &&& 0 <= piece.start < piece.end <= text.len()
    &&& !first ==> piece.start > 0
    &&& no_slash(text.subrange(piece.start, piece.end)) || (first && piece.start == 0 && piece.end == 1 && text[0] == '/')
    &&& piece.start > 0 ==> !(text.subrange(piece.start, piece.end) =~= seq!['.'])
}

pub open spec fn are_pieces(text: Seq<char>, pieces: Seq<Piece>) -> bool {
    forall|i: int| 0 <= i < pieces.len() ==> is_piece(text, #[trigger] pieces[i], i == 0)
}

proof fn lemma_one_piece(text: Seq<char>, start: int, end: int, pieces: Seq<Piece>)
    requires
        0 <= start <= end <= text.len(),
        forall|i: int| start <= i < end ==> #[trigger] text[i] != '/',
        are_pieces(text, pieces),
        pieces.len() > 0 ==> start > 0,
        counts(text, start, end),
    ensures
        are_pieces(text, pieces.push(Piece { start, end })),
{
    let piece = Piece { start, end };
    let part = text.subrange(start, end);
    assert forall|i: int| 0 <= i < part.len() implies #[trigger] part[i] != '/' by {
        assert(text[start + i] != '/');
    }
    if start > 0 && part =~= seq!['.'] {
        assert(part.len() == 1);
        assert(part[0] == '.');
        assert(text[start] == '.');
    }
    let after = pieces.push(piece);
    assert forall|i: int| 0 <= i < after.len() implies is_piece(text, #[trigger] after[i], i == 0) by {
        if i < pieces.len() {
            assert(after[i] == pieces[i]);
        }
    }
}

proof fn lemma_pieces(text: Seq<char>, start: int, index: int, done: Seq<Piece>)
    requires
        0 <= start <= index <= text.len(),
        forall|i: int| start <= i < index ==> #[trigger] text[i] != '/',
        are_pieces(text, done),
        done.len() > 0 ==> start > 0,
    ensures
        are_pieces(text, pieces_from(text, start, index, done)),
    decreases text.len() - index,
{
    if index >= text.len() {
        if counts(text, start, text.len() as int) {
            lemma_one_piece(text, start, text.len() as int, done);
        }
    } else if text[index] == '/' {
        let next = if counts(text, start, index) {
            done.push(Piece { start, end: index })
        } else {
            done
        };
        if counts(text, start, index) {
            lemma_one_piece(text, start, index, done);
        }
        lemma_pieces(text, index + 1, index + 1, next);
    } else {
        lemma_pieces(text, start, index + 1, done);
    }
}

proof fn lemma_path_pieces(text: Seq<char>)
    ensures
        are_pieces(text, path_pieces(text)),
        is_path(piece_texts(text)),
{
    if text.len() > 0 && text[0] == '/' {
        let root = seq![Piece { start: 0, end: 1 }];
        assert(are_pieces(text, root));
        lemma_pieces(text, 1, 1, root);
    } else {
        lemma_pieces(text, 0, 0, Seq::empty());
    }
    let components = piece_texts(text);
    assert forall|i: int| 0 <= i < components.len() implies is_component(#[trigger] components[i], i) by {
        let piece = path_pieces(text)[i];
        assert(is_piece(text, piece, i == 0));
        assert(components[i] == text.subrange(piece.start, piece.end));
        if i == 0 && piece.start == 0 && piece.end == 1 && text[0] == '/' {
            assert(components[i] =~= seq!['/']);
        }
    }
}

/// A text without a slash behind the place looked at ends with one piece.
proof fn lemma_last_piece(text: Seq<char>, start: int, index: int, done: Seq<Piece>)
    requires
        0 <= start <= index <= text.len(),
        forall|i: int| index <= i < text.len() ==> #[trigger] text[i] != '/',
    ensures
        pieces_from(text, start, index, done) == (if counts(text, start, text.len() as int) {
            done.push(Piece { start, end: text.len() as int })
        } else {
            done
        }),
    decreases text.len() - index,
{
    if index < text.len() {
        lemma_last_piece(text, start, index + 1, done);
    }
}

/// A longer text has the pieces of a shorter one before those that follow.
proof fn lemma_longer(text: Seq<char>, longer: Seq<char>, start: int, index: int, done: Seq<Piece>)
    requires
        0 <= start <= index <= text.len(),
        text.len() < longer.len(),
        longer.take(text.len() as int) == text,
        longer[text.len() as int] == '/',
    ensures
        pieces_from(longer, start, index, done) == pieces_from(
            longer,
            (text.len() + 1) as int,
            (text.len() + 1) as int,
            pieces_from(text, start, index, done),
        ),
    decreases text.len() - index,
{
    assert forall|i: int| 0 <= i < text.len() implies #[trigger] longer[i] == text[i] by {
        assert(longer.take(text.len() as int)[i] == text[i]);
    }
    if index < text.len() {
        if text[index] == '/' {
            let next = if counts(text, start, index) {
                done.push(Piece { start, end: index })
            } else {
                done
            };
            lemma_longer(text, longer, index + 1, index + 1, next);
        } else {
            lemma_longer(text, longer, start, index + 1, done);
        }
    }
}

proof fn lemma_same_texts(text: Seq<char>, longer: Seq<char>, last: Piece, component: Seq<char>)
    requires
        text.len() < longer.len(),
        longer.take(text.len() as int) == text,
        path_pieces(longer) == path_pieces(text).push(last),
        0 <= last.start <= last.end <= longer.len(),
        longer.subrange(last.start, last.end) == component,
    ensures
        piece_texts(longer) == piece_texts(text).push(component),
{
    lemma_path_pieces(text);
    let left = piece_texts(longer);
    let right = piece_texts(text).push(component);
    assert(left.len() == right.len());
    assert forall|i: int| 0 <= i < left.len() implies left[i] == right[i] by {
        if i < path_pieces(text).len() {
            let piece = path_pieces(text)[i];
            assert(is_piece(text, piece, i == 0));
            assert(path_pieces(longer)[i] == piece);
            assert(longer.subrange(piece.start, piece.end) =~= text.subrange(piece.start, piece.end)) by {
                assert forall|j: int| piece.start <= j < piece.end implies longer[j] == text[j] by {
                    assert(longer.take(text.len() as int)[j] == text[j]);
                }
            }
        }
    }
    assert(left =~= right);
}

/// A name joined to a path is its last component.
proof fn lemma_joined(text: Seq<char>, component: Seq<char>)
    requires
        text.len() > 0,
        component.len() > 0,
        no_slash(component),
        !(component =~= seq!['.']),
        text.last() == '/' ==> text =~= seq!['/'],
    ensures
        piece_texts(joined_path(text, component)) == piece_texts(text).push(component),
{
    assert(component[0] != '/');
    let longer = joined_path(text, component);
    assert(longer.take(text.len() as int) =~= text);
    if text.last() == '/' {
        assert(longer == text + component);
        let root = seq![Piece { start: 0, end: 1 }];
        assert forall|i: int| 1 <= i < longer.len() implies #[trigger] longer[i] != '/' by {
            assert(component[i - 1] != '/');
        }
        lemma_last_piece(longer, 1, 1, root);
        lemma_last_piece(text, 1, 1, root);
        assert(longer.subrange(1, longer.len() as int) =~= component);
        lemma_not_dot(longer, 1, component);
        lemma_same_texts(text, longer, Piece { start: 1, end: longer.len() as int }, component);
    } else {
        assert(longer == text.push('/') + component);
        let start: int = text.len() as int + 1;
        assert forall|i: int| start <= i < longer.len() implies #[trigger] longer[i] != '/' by {
            assert(component[i - start] != '/');
        }
        assert(longer[0] == text[0]);
        if text[0] == '/' {
            lemma_longer(text, longer, 1, 1, seq![Piece { start: 0, end: 1 }]);
        } else {
            lemma_longer(text, longer, 0, 0, Seq::empty());
        }
        lemma_last_piece(longer, start, start, path_pieces(text));
        assert(longer.subrange(start, longer.len() as int) =~= component);
        lemma_not_dot(longer, start, component);
        lemma_same_texts(text, longer, Piece { start, end: longer.len() as int }, component);
    }
}

proof fn lemma_not_dot(longer: Seq<char>, start: int, component: Seq<char>)
    requires
        0 <= start < longer.len(),
        longer.subrange(start, longer.len() as int) == component,
        !(component =~= seq!['.']),
    ensures
        counts(longer, start, longer.len() as int),
{
    if longer.len() - start == 1 && longer[start] == '.' {
        assert(component.len() == 1);
        assert(component[0] == longer[start]);
        assert(component =~= seq!['.']);
    }
}

proof fn lemma_joined_to(components: Seq<Seq<char>>, count: int)
    requires
        is_path(components),
        1 <= count <= components.len(),
    ensures
        joined_to(components, count).len() > 0,
        joined_to(components, count).last() == '/' ==> joined_to(components, count) =~= seq!['/'],
        piece_texts(joined_to(components, count)) == components.take(count),
    decreases count,
{
    let last = components[count - 1];
    assert(is_component(last, count - 1));
    if count == 1 {
        let text = joined_path(Seq::empty(), last);
        assert(joined_to(components, 0) == Seq::<char>::empty());
        assert(text =~= last);
        if last =~= seq!['/'] {
            assert(pieces_from(text, 1, 1, seq![Piece { start: 0, end: 1 }]) == seq![Piece { start: 0, end: 1 }]);
            assert(text.subrange(0, 1) =~= last);
            assert(piece_texts(text) =~= seq![last]);
        } else {
            assert(text[0] != '/');
            assert(text.last() != '/');
            lemma_last_piece(text, 0, 0, Seq::empty());
            assert(path_pieces(text) =~= seq![Piece { start: 0, end: text.len() as int }]);
            assert(text.subrange(0, text.len() as int) =~= last);
            assert(piece_texts(text) =~= seq![last]);
        }
        assert(components.take(1) =~= seq![last]);
    } else {
        lemma_joined_to(components, count - 1);
        let text = joined_to(components, count - 1);
        lemma_joined(text, last);
        assert(last[0] != '/');
        assert(last.last() != '/');
        assert(joined_to(components, count).last() == last.last());
        assert(components.take(count) =~= components.take(count - 1).push(last));
    }
}

/// A path and its normal form have the same components, so that the normal form
/// is its own normal form and two paths with the same one are the same path.
pub proof fn law_normal_paths_keep_their_components(path: Seq<char>, other: Seq<char>)
    ensures
        same_path(normal_path(path), path),
        normal_path(normal_path(path)) == normal_path(path),
        same_path(path, other) == (normal_path(path) == normal_path(other)),
{
    lemma_normal(path);
    lemma_normal(other);
}

proof fn lemma_normal(path: Seq<char>)
    ensures
        piece_texts(normal_path(path)) == piece_texts(path),
{
    let components = piece_texts(path);
    lemma_path_pieces(path);
    if components.len() > 0 {
        lemma_joined_to(components, components.len() as int);
        assert(components.take(components.len() as int) =~= components);
    } else {
        assert(normal_path(path) == Seq::<char>::empty());
        assert(piece_texts(Seq::<char>::empty()) =~= Seq::<Seq<char>>::empty());
        assert(components =~= Seq::<Seq<char>>::empty());
    }
}

// Databases.

/// Whether documents are listed once each, by normal paths in order.
pub open spec fn documents_ascending(documents: Seq<DocumentSnapshotView>) -> bool {
    &&& forall|i: int| 0 <= i < documents.len() ==> is_normal((#[trigger] documents[i]).path)
    &&& forall|i: int, j: int|
        0 <= i < j < documents.len() ==> path_precedes((#[trigger] documents[i]).path, (#[trigger] documents[j]).path)
}

pub open spec fn is_normal(path: Seq<char>) -> bool {
    normal_path(path) == path
}

/// Of two normal paths that differ one comes before the other.
proof fn lemma_normal_paths_differ(left: Seq<char>, right: Seq<char>)
    requires
        is_normal(left),
        is_normal(right),
        left != right,
    ensures
        path_precedes(left, right) != path_precedes(right, left),
{
    law_normal_paths_keep_their_components(left, right);
    law_paths_are_ordered(left, right, right);
}

pub(crate) proof fn lemma_put(documents: Seq<DocumentSnapshotView>, from: int, document: DocumentSnapshotView)
    requires
        documents_ascending(documents),
        is_normal(document.path),
        0 <= from <= documents.len(),
        forall|i: int| 0 <= i < from ==> path_precedes((#[trigger] documents[i]).path, document.path),
    ensures
        documents_ascending(with_document(documents, from, document)),
        with_document(documents, from, document).contains(document),
        forall|other: DocumentSnapshotView|
            other.path != document.path ==> (#[trigger] with_document(documents, from, document).contains(other)
                == documents.contains(other)),
    decreases documents.len() - from,
{
    let after = with_document(documents, from, document);
    if from < documents.len() && documents[from].path != document.path && path_precedes(
        documents[from].path,
        document.path,
    ) {
        lemma_put(documents, from + 1, document);
    } else if from < documents.len() && documents[from].path == document.path {
        assert(after[from] == document);
        assert forall|other: DocumentSnapshotView| other.path != document.path implies #[trigger] after.contains(other)
            == documents.contains(other) by {
            if documents.contains(other) {
                let k = choose|k: int| 0 <= k < documents.len() && documents[k] == other;
                assert(after[k] == other);
            }
            if after.contains(other) {
                let k = choose|k: int| 0 <= k < after.len() && after[k] == other;
                assert(documents[k] == other);
            }
        }
    } else if from < documents.len() {
        lemma_normal_paths_differ(documents[from].path, document.path);
        assert forall|i: int, j: int| 0 <= i < j < after.len() implies path_precedes(
            (#[trigger] after[i]).path,
            (#[trigger] after[j]).path,
        ) by {
            if i == from && j > from + 1 {
                law_paths_are_ordered(document.path, documents[from].path, documents[j - 1].path);
            }
        }
        assert(after[from] == document);
        assert forall|other: DocumentSnapshotView| other.path != document.path implies #[trigger] after.contains(other)
            == documents.contains(other) by {
            if documents.contains(other) {
                let k = choose|k: int| 0 <= k < documents.len() && documents[k] == other;
                assert(after[if k < from { k } else { k + 1 }] == other);
            }
            if after.contains(other) {
                let k = choose|k: int| 0 <= k < after.len() && after[k] == other;
                assert(documents[if k < from { k } else { k - 1 }] == other);
            }
        }
    } else {
        assert(after[from] == document);
        assert forall|other: DocumentSnapshotView| other.path != document.path implies #[trigger] after.contains(other)
            == documents.contains(other) by {
            if documents.contains(other) {
                let k = choose|k: int| 0 <= k < documents.len() && documents[k] == other;
                assert(after[k] == other);
            }
            if after.contains(other) {
                let k = choose|k: int| 0 <= k < after.len() && after[k] == other;
                assert(documents[k] == other);
            }
        }
    }
}

/// The document with a path.
pub open spec fn held(documents: Seq<DocumentSnapshotView>, path: Seq<char>) -> Option<DocumentSnapshotView> {
    match document_place(documents, 0, path) {
        Some(place) => Some(documents[place]),
        None => None,
    }
}

proof fn lemma_place_found(documents: Seq<DocumentSnapshotView>, from: int, path: Seq<char>, index: int)
    requires
        0 <= from <= index < documents.len(),
        documents[index].path == path,
        forall|i: int| 0 <= i < index ==> (#[trigger] documents[i]).path != path,
    ensures
        document_place(documents, from, path) == Some(index),
    decreases index - from,
{
    if from < index {
        assert(documents[from].path != path);
        lemma_place_found(documents, from + 1, path, index);
    }
}

/// In order, a document is held at its path.
proof fn lemma_held(documents: Seq<DocumentSnapshotView>, document: DocumentSnapshotView)
    requires
        documents_ascending(documents),
        documents.contains(document),
    ensures
        held(documents, document.path) == Some(document),
{
    let index = choose|i: int| 0 <= i < documents.len() && documents[i] == document;
    assert forall|i: int| 0 <= i < index implies (#[trigger] documents[i]).path != document.path by {
        assert(path_precedes(documents[i].path, documents[index].path));
        law_paths_are_ordered(document.path, document.path, document.path);
    }
    lemma_place_found(documents, 0, document.path, index);
}

/// Putting a document in changes what is held at its path and nowhere else.
proof fn lemma_put_held(documents: Seq<DocumentSnapshotView>, document: DocumentSnapshotView, path: Seq<char>)
    requires
        documents_ascending(documents),
        is_normal(document.path),
    ensures
        held(with_document(documents, 0, document), path) == (if path == document.path {
            Some(document)
        } else {
            held(documents, path)
        }),
{
    let after = with_document(documents, 0, document);
    lemma_put(documents, 0, document);
    if path == document.path {
        lemma_held(after, document);
    } else {
        crate::code::source::lemma_document_place(documents, 0, path);
        crate::code::source::lemma_document_place(after, 0, path);
        if held(documents, path) is Some {
            let found = held(documents, path)->Some_0;
            assert(documents.contains(found));
            assert(after.contains(found));
            lemma_held(after, found);
        } else if held(after, path) is Some {
            let found = held(after, path)->Some_0;
            assert(after.contains(found));
            assert(documents.contains(found));
            lemma_held(documents, found);
        }
    }
}

/// The last of the first sources with a path.
pub open spec fn last_source(sources: Seq<(Seq<char>, Seq<char>)>, count: int, path: Seq<char>) -> Option<int>
    decreases count,
{
    if count <= 0 || count > sources.len() {
        None
    } else if same_path(sources[count - 1].0, path) {
        Some(count - 1)
    } else {
        last_source(sources, count - 1, path)
    }
}

proof fn lemma_last_source(sources: Seq<(Seq<char>, Seq<char>)>, count: int, path: Seq<char>)
    requires
        0 <= count <= sources.len(),
    ensures
        match last_source(sources, count, path) {
            Some(last) => 0 <= last < count && same_path(sources[last].0, path) && forall|i: int|
                last < i < count ==> !same_path((#[trigger] sources[i]).0, path),
            None => forall|i: int| 0 <= i < count ==> !same_path((#[trigger] sources[i]).0, path),
        },
    decreases count,
{
    if count > 0 && !same_path(sources[count - 1].0, path) {
        lemma_last_source(sources, count - 1, path);
    }
}

proof fn lemma_documents(
    sources: Seq<(Seq<char>, Seq<char>)>,
    from: int,
    documents: Seq<DocumentSnapshotView>,
    path: Seq<char>,
)
    requires
        0 <= from <= sources.len(),
        documents_ascending(documents),
        documents_of(sources, from, documents) is Ok,
    ensures
        ({
            let after = documents_of(sources, from, documents)->Ok_0;
            &&& documents_ascending(after)
            &&& held(after, normal_path(path)) == (match last_source(sources, sources.len() as int, path) {
                Some(last) => if last >= from {
                    Some(snapshot_of(sources[last].0, sources[last].1))
                } else {
                    held(documents, normal_path(path))
                },
                None => held(documents, normal_path(path)),
            })
        }),
    decreases sources.len() - from,
{
    lemma_last_source(sources, sources.len() as int, path);
    if from < sources.len() {
        let added = snapshot_of(sources[from].0, sources[from].1);
        law_normal_paths_keep_their_components(sources[from].0, path);
        lemma_put(documents, 0, added);
        lemma_put_held(documents, added, normal_path(path));
        lemma_documents(sources, from + 1, with_document(documents, 0, added), path);
    }
}

/// A database of sources lists its documents once each, by normal paths in order,
/// and finds at a path the last source that was given for the path, with the
/// revision of its text. It finds nothing at a path that no source was given for.
pub proof fn law_databases_hold_their_sources(
    root: Seq<char>,
    sources: Seq<(Seq<char>, Seq<char>)>,
    documents: Seq<DocumentSnapshotView>,
    path: Seq<char>,
)
    requires
        documents_of(sources, 0, Seq::empty()) == Ok::<Seq<DocumentSnapshotView>, CodeErrorView>(documents),
    ensures
        documents_ascending(documents),
        document_in(SourceDatabaseView { root, documents }, path) == (match last_source(
            sources,
            sources.len() as int,
            path,
        ) {
            Some(last) => Ok(
                DocumentSnapshotView {
                    path: normal_path(path),
                    source: sources[last].1,
                    revision: crate::code::source::revision_of(sources[last].1),
                },
            ),
            None => Err(missing_document(normal_path(path))),
        }),
        last_source(sources, sources.len() as int, path) is Some == exists|i: int|
            0 <= i < sources.len() && same_path((#[trigger] sources[i]).0, path),
{
    assert(documents_ascending(Seq::empty()));
    lemma_documents(sources, 0, Seq::empty(), path);
    lemma_last_source(sources, sources.len() as int, path);
    match last_source(sources, sources.len() as int, path) {
        Some(last) => law_normal_paths_keep_their_components(sources[last].0, path),
        None => {}
    }
}

/// The paths that a database lists are those at which it finds documents: a path
/// is found where its normal form is listed, and the document then has that path.
pub proof fn law_listed_paths_are_found(database: SourceDatabaseView, path: Seq<char>)
    requires
        documents_ascending(database.documents),
    ensures
        document_in(database, path) is Ok == document_paths(database.documents).contains(normal_path(path)),
        document_in(database, path) is Ok ==> document_in(database, path)->Ok_0.path == normal_path(path),
        normal_paths_ascending(document_paths(database.documents)),
{
    let documents = database.documents;
    let paths = document_paths(documents);
    crate::code::source::lemma_document_place(documents, 0, normal_path(path));
    match document_place(documents, 0, normal_path(path)) {
        Some(place) => {
            assert(paths[place] == normal_path(path));
        }
        None => if paths.contains(normal_path(path)) {
            let k = choose|k: int| 0 <= k < paths.len() && paths[k] == normal_path(path);
            assert(documents.contains(documents[k]));
            lemma_held(documents, documents[k]);
        },
    }
    assert forall|i: int| 0 <= i < paths.len() implies is_normal(#[trigger] paths[i]) by {
        assert(is_normal(documents[i].path));
    }
    assert forall|i: int, j: int| 0 <= i < j < paths.len() implies path_precedes(
        #[trigger] paths[i],
        #[trigger] paths[j],
    ) by {
        assert(path_precedes(documents[i].path, documents[j].path));
    }
}

/// Replacing the source of a document keeps the paths in order.
pub proof fn law_replacing_keeps_the_order(database: SourceDatabaseView, path: Seq<char>, source: Seq<char>)
    requires
        documents_ascending(database.documents),
        crate::code::source::replaced(database, path, source) is Ok,
    ensures
        documents_ascending(crate::code::source::replaced(database, path, source)->Ok_0.documents),
        document_paths(crate::code::source::replaced(database, path, source)->Ok_0.documents) == document_paths(
            database.documents,
        ),
{
    let after = crate::code::source::replaced(database, path, source)->Ok_0.documents;
    crate::code::source::lemma_document_place(database.documents, 0, normal_path(path));
    assert forall|i: int| 0 <= i < after.len() implies (#[trigger] after[i]).path == database.documents[i].path by {}
    assert(document_paths(after) =~= document_paths(database.documents));
    assert forall|i: int, j: int| 0 <= i < j < after.len() implies path_precedes(
        (#[trigger] after[i]).path,
        (#[trigger] after[j]).path,
    ) by {
        assert(path_precedes(database.documents[i].path, database.documents[j].path));
    }
}

// Change sets.

/// Whether paths are normal and listed once each, in order.
pub open spec fn normal_paths_ascending(paths: Seq<Seq<char>>) -> bool {
    &&& forall|i: int| 0 <= i < paths.len() ==> is_normal(#[trigger] paths[i])
    &&& forall|i: int, j: int| 0 <= i < j < paths.len() ==> path_precedes(#[trigger] paths[i], #[trigger] paths[j])
}

proof fn lemma_with_path(paths: Seq<Seq<char>>, from: int, path: Seq<char>)
    requires
        normal_paths_ascending(paths),
        is_normal(path),
        0 <= from <= paths.len(),
        forall|i: int| 0 <= i < from ==> path_precedes(#[trigger] paths[i], path),
    ensures
        normal_paths_ascending(with_path(paths, from, path)),
        with_path(paths, from, path).contains(path),
        forall|other: Seq<char>|
            other != path ==> (#[trigger] with_path(paths, from, path).contains(other) == paths.contains(other)),
    decreases paths.len() - from,
{
    let after = with_path(paths, from, path);
    if from < paths.len() && paths[from] != path && path_precedes(paths[from], path) {
        lemma_with_path(paths, from + 1, path);
    } else if from < paths.len() && paths[from] == path {
        assert(after[from] == path);
    } else {
        if from < paths.len() {
            lemma_normal_paths_differ(paths[from], path);
        }
        assert forall|i: int, j: int| 0 <= i < j < after.len() implies path_precedes(
            #[trigger] after[i],
            #[trigger] after[j],
        ) by {
            if i == from && j > from + 1 {
                law_paths_are_ordered(path, paths[from], paths[j - 1]);
            }
        }
        assert(after[from] == path);
        assert forall|other: Seq<char>| other != path implies #[trigger] after.contains(other) == paths.contains(other) by {
            if paths.contains(other) {
                let k = choose|k: int| 0 <= k < paths.len() && paths[k] == other;
                assert(after[if k < from { k } else { k + 1 }] == other);
            }
            if after.contains(other) {
                let k = choose|k: int| 0 <= k < after.len() && after[k] == other;
                assert(paths[if k < from { k } else { k - 1 }] == other);
            }
        }
    }
}

/// Whether a planned edit from some place on changes a document.
pub open spec fn is_planned(plan: Seq<PlannedEditView>, from: int, path: Seq<char>) -> bool {
    exists|i: int| from <= i < plan.len() && planned_path(#[trigger] plan[i]) == path
}

pub open spec fn planned_path(step: PlannedEditView) -> Seq<char> {
    normal_path(target_of(step.edit).document)
}

proof fn lemma_changed(plan: Seq<PlannedEditView>, from: int, done: Seq<Seq<char>>)
    requires
        0 <= from,
        normal_paths_ascending(done),
    ensures
        normal_paths_ascending(changed_documents(plan, from, done)),
        forall|path: Seq<char>| #[trigger]
            changed_documents(plan, from, done).contains(path) == (done.contains(path) || is_planned(plan, from, path)),
    decreases plan.len() - from,
{
    if from < plan.len() {
        let added = planned_path(plan[from]);
        law_normal_paths_keep_their_components(target_of(plan[from].edit).document, added);
        lemma_with_path(done, 0, added);
        let next = with_path(done, 0, added);
        lemma_changed(plan, from + 1, next);
        assert forall|path: Seq<char>| #[trigger]
            changed_documents(plan, from, done).contains(path) == (done.contains(path) || is_planned(plan, from, path)) by {
            assert(next.contains(path) == (done.contains(path) || path == added));
            if is_planned(plan, from, path) && path != added {
                let i = choose|i: int| from <= i < plan.len() && planned_path(#[trigger] plan[i]) == path;
                assert(from + 1 <= i);
                assert(is_planned(plan, from + 1, path));
            }
            if is_planned(plan, from + 1, path) {
                let i = choose|i: int| from + 1 <= i < plan.len() && planned_path(#[trigger] plan[i]) == path;
                assert(from <= i);
            }
        }
    }
}

/// Whether two databases differ in the contents of some documents alone.
pub open spec fn differs_in(before: SourceDatabaseView, after: SourceDatabaseView, paths: Seq<Seq<char>>) -> bool {
    &&& after.root == before.root
    &&& after.documents.len() == before.documents.len()
    &&& forall|i: int|
        0 <= i < before.documents.len() ==> (#[trigger] after.documents[i]).path == before.documents[i].path
    &&& forall|i: int|
        0 <= i < before.documents.len() && !paths.contains(before.documents[i].path) ==> (
        #[trigger] after.documents[i]) == before.documents[i]
}

proof fn lemma_documents_edited(
    database: SourceDatabaseView,
    plan: Seq<PlannedEditView>,
    paths: Seq<Seq<char>>,
    from: int,
)
    requires
        0 <= from,
        normal_paths_ascending(paths),
        documents_edited(database, plan, paths, from) is Ok,
    ensures
        differs_in(database, documents_edited(database, plan, paths, from)->Ok_0, paths),
    decreases paths.len() - from,
{
    if from < paths.len() {
        let next = document_edited(database, plan, paths[from])->Ok_0;
        lemma_documents_edited(next, plan, paths, from + 1);
        assert(is_normal(paths[from]));
        crate::code::source::lemma_document_place(database.documents, 0, paths[from]);
        assert(paths.contains(paths[from]));
        let after = documents_edited(database, plan, paths, from)->Ok_0;
        assert forall|i: int| 0 <= i < database.documents.len() implies (#[trigger] after.documents[i]).path
            == database.documents[i].path by {
            assert(after.documents[i].path == next.documents[i].path);
        }
    }
}

/// A change set that is applied changes documents of the database alone: it
/// neither adds nor drops nor renames one, and it reports the documents that it
/// planned to change, once each in the order of their paths. Every other document
/// stays as it is.
pub proof fn law_change_sets_touch_what_they_report(
    database: SourceDatabaseView,
    edits: Seq<EditView>,
    after: SourceDatabaseView,
    changed: Seq<Seq<char>>,
    plan: Seq<PlannedEditView>,
)
    requires
        applied(database, edits) == Ok::<(SourceDatabaseView, Seq<Seq<char>>), CodeErrorView>((after, changed)),
        plan_from(database, edits, 0, Seq::empty()) == Ok::<Seq<PlannedEditView>, CodeErrorView>(plan),
    ensures
        differs_in(database, after, changed),
        normal_paths_ascending(changed),
        forall|path: Seq<char>| #[trigger] changed.contains(path) == is_planned(plan, 0, path),
{
    lemma_changed(plan, 0, Seq::empty());
    lemma_documents_edited(database, plan, changed, 0);
}

/// A change set is refused for a stale revision where the first edit that
/// something stands against is one of a document that changed since.
pub proof fn law_stale_edits_say_so(database: SourceDatabaseView, edits: Seq<EditView>, index: int)
    requires
        0 <= index < edits.len(),
        forall|i: int| 0 <= i < index ==> edit_error(database, #[trigger] edits[i]) is Ok,
        document_in(database, target_of(edits[index]).document) is Ok,
        document_in(database, target_of(edits[index]).document)->Ok_0.revision != target_of(edits[index]).revision,
    ensures
        applied(database, edits) is Err,
        applied(database, edits)->Err_0.kind == CodeErrorKind::StaleRevision,
        applied(database, edits)->Err_0.document == Some(target_of(edits[index]).document),
{
    lemma_first_error(database, edits, 0, index);
}

proof fn lemma_first_error(database: SourceDatabaseView, edits: Seq<EditView>, from: int, index: int)
    requires
        0 <= from <= index < edits.len(),
        forall|i: int| 0 <= i < index ==> edit_error(database, #[trigger] edits[i]) is Ok,
        edit_error(database, edits[index]) is Err,
    ensures
        precondition_error(database, edits, from) == edit_error(database, edits[index]),
    decreases index - from,
{
    if from < index {
        assert(edit_error(database, edits[from]) is Ok);
        lemma_first_error(database, edits, from + 1, index);
    }
}

/// Whether a document that a node was looked up in is as it was, or shows by its
/// revision that it is not.
pub open spec fn tells_apart(before: SourceDatabaseView, after: SourceDatabaseView, target: NodeLocatorView) -> bool {
    document_in(after, target.document) == document_in(before, target.document) || (document_in(
        after,
        target.document,
    ) is Ok && document_in(after, target.document)->Ok_0.revision != target.revision)
}

pub open spec fn edit_tells_apart(before: SourceDatabaseView, after: SourceDatabaseView, edit: EditView) -> bool {
    tells_apart(before, after, target_of(edit)) && match source_of(edit) {
        Some(source) => tells_apart(before, after, source),
        None => true,
    }
}

proof fn lemma_passed(database: SourceDatabaseView, edits: Seq<EditView>, from: int, index: int)
    requires
        0 <= from <= index < edits.len(),
        precondition_error(database, edits, from) is Ok,
    ensures
        edit_error(database, edits[index]) is Ok,
    decreases index - from,
{
    if from < index {
        lemma_passed(database, edits, from + 1, index);
    }
}

proof fn lemma_stale_again(before: SourceDatabaseView, after: SourceDatabaseView, edits: Seq<EditView>, from: int, index: int)
    requires
        0 <= from <= index < edits.len(),
        precondition_error(before, edits, 0) is Ok,
        forall|i: int| 0 <= i < edits.len() ==> edit_tells_apart(before, after, #[trigger] edits[i]),
        document_in(after, target_of(edits[index]).document) != document_in(before, target_of(edits[index]).document),
    ensures
        precondition_error(after, edits, from) is Err,
        precondition_error(after, edits, from)->Err_0.kind == CodeErrorKind::StaleRevision,
    decreases index - from,
{
    lemma_passed(before, edits, 0, from);
    assert(edit_tells_apart(before, after, edits[from]));
    if from < index && edit_error(after, edits[from]) is Ok {
        lemma_stale_again(before, after, edits, from + 1, index);
    }
}

/// A change set that changed the document of one of its edits is refused for a
/// stale revision when it is applied again, as long as the revisions of the
/// documents tell their texts apart.
pub proof fn law_applying_again_is_stale(
    database: SourceDatabaseView,
    edits: Seq<EditView>,
    after: SourceDatabaseView,
    changed: Seq<Seq<char>>,
    index: int,
)
    requires
        applied(database, edits) == Ok::<(SourceDatabaseView, Seq<Seq<char>>), CodeErrorView>((after, changed)),
        forall|i: int| 0 <= i < edits.len() ==> edit_tells_apart(database, after, #[trigger] edits[i]),
        0 <= index < edits.len(),
        document_in(after, target_of(edits[index]).document) != document_in(
            database,
            target_of(edits[index]).document,
        ),
    ensures
        applied(after, edits) is Err,
        applied(after, edits)->Err_0.kind == CodeErrorKind::StaleRevision,
{
    lemma_stale_again(database, after, edits, 0, index);
}

} // verus!
