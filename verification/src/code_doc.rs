//! Reading and editing single documents by JSON Pointers.
use vstd::prelude::*;
use crate::code::lines::{blank, split_lines};
use crate::code::model::Segment;
use crate::code::tree::{
    self, describe, document_root, document_text, find_alias, find_entry_cut, find_item_cut, find_value_cut,
    is_past_mending, item_at, parse_document, push_item, remove_item, remove_key, set_item, set_key, value_for_key,
    Shape, Tree, TreeStep,
};
use crate::code::view::SegmentView;
use crate::execute::strings::trim;
use crate::lowered::view;
use crate::text::{characters, concat_three, concat_two, decimal_text, owned, push_char, same_text, split_at_char, starts_with};

verus! {

pub open spec fn text_outcome(result: Result<String, String>) -> Result<Seq<char>, Seq<char>> {
    match result {
        Ok(text) => Ok(text@),
        Err(message) => Err(message@),
    }
}

// Pointers.

/// A step of a pointer with its escapes resolved, from a place on.
pub open spec fn unescaped_from(segment: Seq<char>, from: int, done: Seq<char>) -> Result<Seq<char>, Seq<char>>
    decreases segment.len() - from,
{
    if from < 0 || from >= segment.len() {
        Ok(done)
    } else if segment[from] != '~' {
        unescaped_from(segment, from + 1, done.push(segment[from]))
    } else if from + 1 >= segment.len() {
        Err("invalid trailing `~` in JSON Pointer"@)
    } else if segment[from + 1] == '0' {
        unescaped_from(segment, from + 2, done.push('~'))
    } else if segment[from + 1] == '1' {
        unescaped_from(segment, from + 2, done.push('/'))
    } else {
        Err("invalid JSON Pointer escape `~"@ + seq![segment[from + 1]] + "`"@)
    }
}

pub open spec fn unescaped(segment: Seq<char>) -> Result<Seq<char>, Seq<char>> {
    unescaped_from(segment, 0, Seq::empty())
}

fn unescape_segment(segment: &str) -> (result: Result<String, String>)
    ensures
        text_outcome(result) == unescaped(segment@),
{
    let letters = characters(segment);
    let mut done = String::new();
    assert(done@ =~= Seq::<char>::empty());
    let mut i: usize = 0;
    while i < letters.len()
        invariant
            i <= letters.len(),
            letters@ == segment@,
            unescaped(segment@) == unescaped_from(segment@, i as int, done@),
        decreases letters.len() - i,
    {
        if letters[i] != '~' {
            push_char(&mut done, letters[i]);
            i += 1;
        } else if i + 1 >= letters.len() {
            return Err(owned("invalid trailing `~` in JSON Pointer"));
        } else if letters[i + 1] == '0' {
            push_char(&mut done, '~');
            i += 2;
        } else if letters[i + 1] == '1' {
            push_char(&mut done, '/');
            i += 2;
        } else {
            let mut letter = String::new();
            push_char(&mut letter, letters[i + 1]);
            assert(letter@ =~= seq![segment@[i + 1]]);
            return Err(concat_three("invalid JSON Pointer escape `~", letter.as_str(), "`"));
        }
    }
    Ok(done)
}

pub open spec fn all_unescaped(pieces: Seq<Seq<char>>, from: int, done: Seq<Seq<char>>) -> Result<
Seq<Seq<char>>,
Seq<char>,
>
    decreases pieces.len() - from,
{
    if from < 0 || from >= pieces.len() {
        Ok(done)
    } else {
        match unescaped(pieces[from]) {
            Err(error) => Err(error),
            Ok(segment) => {
                all_unescaped(pieces, from + 1, done.push(segment))

            },
        }
    }
}

/// The steps of a pointer.
pub open spec fn pointed(pointer: Seq<char>) -> Result<Seq<Seq<char>>, Seq<char>> {
    if pointer.len() == 0 {
        Ok(Seq::empty())
    } else if !crate::text::has_prefix(pointer, "/"@) {
        Err("JSON Pointer must start with `/`"@)
    } else {
        all_unescaped(crate::text::split(pointer, '/'), 1, Seq::empty())
    }
}

fn is_root_pointer(pointer: &str) -> (result: bool)
    ensures
        result == (pointer@.len() == 0),
{
    let letters = characters(pointer);
    letters.len() == 0
}

fn pointer_segments(pointer: &str) -> (result: Result<Vec<String>, String>)
    ensures
        pointed(pointer@) == (match result {
                Ok(segments) => Ok(view::texts(segments@)),
                Err(message) => Err(message@),
        }),
{
    let mut done: Vec<String> = Vec::new();
    assert(view::texts(done@) =~= Seq::<Seq<char>>::empty());
    if is_root_pointer(pointer) {
        return Ok(done);
    }
    if !starts_with(pointer, "/") {
        return Err(owned("JSON Pointer must start with `/`"));
    }
    let pieces = split_at_char(pointer, '/');
    let ghost all = crate::text::split(pointer@, '/');
    assert(view::texts(pieces@).len() == pieces@.len());
    let mut i: usize = 1;
    while i < pieces.len()
        invariant
            1 <= i,
            all == view::texts(pieces@),
            all.len() == pieces@.len(),
            all_unescaped(all, 1, Seq::empty()) == all_unescaped(all, i as int, view::texts(done@)),
            pointed(pointer@) == all_unescaped(all, 1, Seq::empty()),
        decreases pieces.len() - i,
    {
        assert(all[i as int] == pieces@[i as int]@);
        let segment = match unescape_segment(pieces[i].as_str()) {
            Ok(value) => value,
            Err(error) => return Err(error),
        };
        let ghost before = done@;
        done.push(segment);
        proof {
            view::lemma_texts_push(before, done@.last());
        }
        i += 1;
    }
    Ok(done)
}

/// The number that digits from a place on write, behind those before.
pub open spec fn digits_value(text: Seq<char>, from: int, value: int) -> Option<int>
    decreases text.len() - from,
{
    if from < 0 || from >= text.len() {
        Some(value)
    } else if !('0' <= text[from] && text[from] <= '9') {
        None
    } else {
        let next = value * 10 + (text[from] as int - '0' as int);
        if next > usize::MAX {
            None
        } else {
            digits_value(text, from + 1, next)
        }
    }
}

/// The index that a step writes.
pub open spec fn index_of(segment: Seq<char>) -> Result<usize, Seq<char>> {
    if segment.len() == 0 {
        Err("JSON Pointer sequence index must not be empty"@)
    } else {
        let from: int = if segment[0] == '+' {
            1
        } else {
            0
        };
        match digits_value(segment, from, 0) {
            Some(value) => if from < segment.len() {
                Ok(value as usize)
            } else {
                Err("JSON Pointer segment `"@ + segment + "` is not a sequence index"@)
            },
            None => Err("JSON Pointer segment `"@ + segment + "` is not a sequence index"@),
        }
    }
}

fn parse_index(segment: &str) -> (result: Result<usize, String>)
    ensures
        index_of(segment@) == (match result {
                Ok(index) => Ok(index),
                Err(message) => Err(message@),
        }),
{
    let letters = characters(segment);
    if letters.len() == 0 {
        return Err(owned("JSON Pointer sequence index must not be empty"));
    }
    let first: usize = if letters[0] == '+' {
        1
    } else {
        0
    };
    if first >= letters.len() {
        return Err(concat_three("JSON Pointer segment `", segment, "` is not a sequence index"));
    }
    let mut value: usize = 0;
    let mut i: usize = first;
    while i < letters.len()
        invariant
            first <= i <= letters.len(),
            first < letters.len(),
            letters@ == segment@,
            first as int == (if segment@[0] == '+' {
                    1int
                } else {
                    0int
            }),
            digits_value(segment@, first as int, 0) == digits_value(segment@, i as int, value as int),
        decreases letters.len() - i,
    {
        let letter = letters[i];
        if !('0' <= letter && letter <= '9') {
            return Err(concat_three("JSON Pointer segment `", segment, "` is not a sequence index"));
        }
        let digit: usize = (letter as u32 - 48) as usize;
        if value > usize::MAX / 10 || value * 10 > usize::MAX - digit {
            return Err(concat_three("JSON Pointer segment `", segment, "` is not a sequence index"));
        }
        value = value * 10 + digit;
        i += 1;
    }
    Ok(value)
}

// Walking.

pub open spec fn no_document() -> Seq<char> {
    "parse Vibra code document"@
}

/// The root of a document.
pub open spec fn root_of(document: Seq<char>) -> Result<Tree, Seq<char>> {
    match tree::parsed_source(document) {
        Err(_) => Err(no_document()),
        Ok(None) => Err("Vibra code document has no root node"@),
        Ok(Some(root)) => Ok(root),
    }
}

pub open spec fn tree_outcome(result: Result<yaml_edit::YamlNode, String>) -> Result<Tree, Seq<char>> {
    match result {
        Ok(node) => Ok(tree::node_contents(node)),
        Err(message) => Err(message@),
    }
}

fn open_document(text: &str, message: &str) -> (result: Result<yaml_edit::Document, String>)
    ensures
        match result {
            Ok(document) => tree::document_source(document) == text@ && tree::parsed_source(text@) == Ok::<
                Option<Tree>,
                Seq<char>,
            >(tree::root_among(tree::document_roots(document))),
            Err(error) => tree::parsed_source(text@) is Err && error@ == message@,
        },
{
    match parse_document(text) {
        Ok(document) => Ok(document),
        Err(_) => Err(owned(message)),
    }
}

/// How a step of a pointer goes down from a node.
pub open spec fn step_of(node: Tree, segment: Seq<char>) -> Result<SegmentView, Seq<char>> {
    match node[Seq::empty()].shape {
        Shape::Mapping(_) => Ok(SegmentView::Key(segment)),
        Shape::Sequence(_) => match index_of(segment) {
            Ok(index) => Ok(SegmentView::Index(index)),
            Err(message) => Err(message),
        },
        _ => Err("JSON Pointer cannot descend through non-container node: "@ + node[Seq::empty()].debug),
    }
}

fn find_step(document: &yaml_edit::Document, node: &yaml_edit::YamlNode, segment: &str) -> (result: Result<
    Segment,
    String,
>)
    requires
        tree::place_within(*document, *node) is Some,
    ensures
        step_of(tree::node_contents(*node), segment@) == (match result {
                Ok(step) => Ok(crate::code::view::segment(step)),
                Err(message) => Err(message@),
        }),
{
    let found = describe(document, node);
    match found.shape {
        Shape::Mapping(_) => Ok(Segment::Key(owned(segment))),
        Shape::Sequence(_) => match parse_index(segment) {
            Ok(index) => Ok(Segment::Index(index)),
            Err(message) => Err(message),
        },
        _ => Err(concat_two("JSON Pointer cannot descend through non-container node: ", found.debug.as_str())),
    }
}

pub open spec fn child_of(node: Tree, step: SegmentView) -> Result<Tree, Seq<char>> {
    match tree::child_tree(node, tree::step_of(step)) {
        Some(child) => Ok(child),
        None => Err(
            match step {
                SegmentView::Key(key) => "JSON Pointer key `"@ + key + "` does not exist"@,
                SegmentView::Index(index) => "JSON Pointer index `"@ + crate::text::decimal(index as nat)
                + "` is out of bounds"@,
            },
        ),
    }
}

fn find_child(document: &yaml_edit::Document, node: &yaml_edit::YamlNode, step: &Segment) -> (result: Result<
    yaml_edit::YamlNode,
    String,
>)
    requires
        tree::place_within(*document, *node) is Some,
    ensures
        tree_outcome(result) == child_of(tree::node_contents(*node), crate::code::view::segment(*step)),
        match result {
            Ok(child) => tree::stands_below(
                *document,
                *node,
                tree::step_of(crate::code::view::segment(*step)),
                Some(child),
            ),
            Err(_) => true,
        },
{
    match step {
        Segment::Key(key) => match value_for_key(document, node, key.as_str()) {
            Some(child) => Ok(child),
            None => Err(concat_three("JSON Pointer key `", key.as_str(), "` does not exist")),
        },
        Segment::Index(index) => match item_at(document, node, *index) {
            Some(child) => Ok(child),
            None => {
                let digits = decimal_text(*index as u64);
                Err(concat_three("JSON Pointer index `", digits.as_str(), "` is out of bounds"))
            }
        },
    }
}

/// The node that steps lead to, with the path to it.
pub open spec fn walked(node: Tree, segments: Seq<Seq<char>>, from: int, to: int, path: Seq<TreeStep>) -> Result<
(Tree, Seq<TreeStep>),
Seq<char>,
>
    decreases to - from,
{
    if from < 0 || from >= to {
        Ok((node, path))
    } else {
        match step_of(node, segments[from]) {
            Err(error) => Err(error),
            Ok(step) => {
                match child_of(node, step) {
                    Err(error) => Err(error),
                    Ok(child) => {
                        walked(child, segments, from + 1, to, path.push(tree::step_of(step)))

                    },
                }

            },
        }
    }
}

/// The node that the first steps of a pointer lead to, with the path to it.
pub open spec fn reached(document: Seq<char>, segments: Seq<Seq<char>>, count: int) -> Result<
(Tree, Seq<TreeStep>),
Seq<char>,
> {
    match root_of(document) {
        Err(error) => Err(error),
        Ok(root) => {
            walked(root, segments, 0, count, Seq::empty())

        },
    }
}

fn node_at_segments(document: &yaml_edit::Document, segments: &Vec<String>, count: usize) -> (result: Result<
    yaml_edit::YamlNode,
    String,
    >)
    requires
        count <= segments@.len(),
        tree::parsed_source(tree::document_source(*document)) == Ok::<Option<Tree>, Seq<char>>(
            tree::root_among(tree::document_roots(*document)),
        ),
    ensures
        match result {
            Ok(node) => tree::place_within(*document, node) is Some && reached(
                tree::document_source(*document),
                view::texts(segments@),
                count as int,
            ) == Ok::<(Tree, Seq<TreeStep>), Seq<char>>(
                (tree::node_contents(node), tree::place_within(*document, node)->Some_0),
            ),
            Err(message) => reached(tree::document_source(*document), view::texts(segments@), count as int) == Err::<
                (Tree, Seq<TreeStep>),
                Seq<char>,
            >(message@),
        },
{
    let root = match document_root(document) {
        Some(root) => root,
        None => return Err(owned("Vibra code document has no root node")),
    };
    let ghost top = tree::node_contents(root);
    let ghost all = view::texts(segments@);
    let mut node = root;
    let mut i: usize = 0;
    while i < count
        invariant
            i <= count <= segments@.len(),
            all == view::texts(segments@),
            tree::place_within(*document, node) is Some,
            reached(tree::document_source(*document), all, count as int) == walked(top, all, 0, count as int, Seq::empty()),
            walked(top, all, 0, count as int, Seq::empty()) == walked(
                tree::node_contents(node),
                all,
                i as int,
                count as int,
                tree::place_within(*document, node)->Some_0,
            ),
        decreases count - i,
    {
        assert(all[i as int] == segments@[i as int]@);
        let step = match find_step(document, &node, segments[i].as_str()) {
            Ok(value) => value,
            Err(error) => return Err(error),
        };
        let child = match find_child(document, &node, &step) {
            Ok(value) => value,
            Err(error) => return Err(error),
        };
        node = child;
        i += 1;
    }
    Ok(node)
}

// Leading comments.

pub open spec fn is_comment_line(line: Seq<char>) -> bool {
    crate::code::lines::is_blank(line) || crate::text::has_prefix(crate::execute::strings::trimmed(line), "#"@)
}

/// The comments and blank lines that a text begins with.
pub open spec fn leading(lines: Seq<Seq<char>>, from: int, done: Seq<char>) -> Seq<char>
    decreases lines.len() - from,
{
    if from < 0 || from >= lines.len() || !is_comment_line(lines[from]) {
        done
    } else {
        leading(lines, from + 1, done + lines[from])
    }
}

/// A text behind the comments and blank lines that another one begins with.
pub open spec fn with_leading(original: Seq<char>, rendered: Seq<char>) -> Seq<char> {
    let prefix = leading(crate::code::lines::full_lines(original), 0, Seq::empty());
    if prefix.len() == 0 || crate::text::has_prefix(rendered, prefix) {
        rendered
    } else {
        prefix + rendered
    }
}

fn restore_leading_prefix(original: &str, rendered: String) -> (result: String)
    ensures
        result@ == with_leading(original@, rendered@),
{
    let lines = split_lines(original);
    let ghost all = crate::code::lines::full_lines(original@);
    assert(view::texts(lines@).len() == lines@.len());
    let mut prefix = String::new();
    assert(prefix@ =~= Seq::<char>::empty());
    let mut i: usize = 0;
    let mut more = true;
    while more && i < lines.len()
        invariant
            i <= lines.len(),
            all == view::texts(lines@),
            all.len() == lines@.len(),
            more ==> leading(all, 0, Seq::empty()) == leading(all, i as int, prefix@),
            !more ==> leading(all, 0, Seq::empty()) == prefix@,
        decreases lines.len() - i, (if more { 1int } else { 0int }),
    {
        assert(all[i as int] == lines@[i as int]@);
        let line = lines[i].as_str();
        let bare = trim(line);
        if blank(line) || starts_with(bare.as_str(), "#") {
            prefix.append(line);
            i += 1;
        } else {
            more = false;
        }
    }
    let letters = characters(prefix.as_str());
    if letters.len() == 0 || starts_with(rendered.as_str(), prefix.as_str()) {
        rendered
    } else {
        concat_two(prefix.as_str(), rendered.as_str())
    }
}

// Operations.

/// Checks that a text is a document.
pub fn parse(source: &str) -> (result: Result<String, String>)
    ensures
        text_outcome(result) == (match tree::parsed_source(source@) {
                Ok(_) => Ok(source@),
                Err(_) => Err(no_document()),
        }),
{
    match parse_document(source) {
        Ok(_) => Ok(owned(source)),
        Err(_) => Err(owned("parse Vibra code document")),
    }
}

pub open spec fn emitted(document: Seq<char>) -> Result<Seq<char>, Seq<char>> {
    match tree::parsed_source(document) {
        Err(_) => Err(no_document()),
        Ok(_) => Ok(with_leading(document, tree::rewritten(document))),
    }
}

/// The text of a document as it is written back.
pub fn emit(document: &str) -> (result: Result<String, String>)
    ensures
        text_outcome(result) == emitted(document@),
{
    match open_document(document, "parse Vibra code document") {
        Err(error) => Err(error),
        Ok(parsed) => Ok(restore_leading_prefix(document, document_text(&parsed))),
    }
}

pub open spec fn got(document: Seq<char>, pointer: Seq<char>) -> Result<Seq<char>, Seq<char>> {
    match tree::parsed_source(document) {
        Err(_) => Err(no_document()),
        Ok(_) => {
            match pointed(pointer) {
                Err(error) => Err(error),
                Ok(segments) => {
                    match reached(document, segments, segments.len() as int) {
                        Err(error) => Err(error),
                        Ok(found) => {
                            Ok(found.0[Seq::empty()].text)

                        },
                    }

                },
            }
        },
    }
}

/// The text of the node that a pointer leads to.
pub fn get(document: &str, pointer: &str) -> (result: Result<String, String>)
    ensures
        text_outcome(result) == got(document@, pointer@),
{
    let parsed = match open_document(document, "parse Vibra code document") {
        Ok(value) => value,
        Err(error) => return Err(error),
    };
    let segments = match pointer_segments(pointer) {
        Ok(value) => value,
        Err(error) => return Err(error),
    };
    assert(view::texts(segments@).len() == segments@.len());
    let found = match node_at_segments(&parsed, &segments, segments.len()) {
        Ok(value) => value,
        Err(error) => return Err(error),
    };
    Ok(describe(&parsed, &found).text)
}

pub open spec fn no_container(node: Tree) -> Seq<char> {
    "JSON Pointer parent is not a mapping or sequence: "@ + node[Seq::empty()].debug
}

pub open spec fn out_of_bounds(index: usize) -> Seq<char> {
    "JSON Pointer index `"@ + crate::text::decimal(index as nat) + "` is out of bounds"@
}

fn index_out_of_bounds(index: usize) -> (message: String)
    ensures
        message@ == out_of_bounds(index),
{
    let digits = decimal_text(index as u64);
    concat_three("JSON Pointer index `", digits.as_str(), "` is out of bounds")
}

pub open spec fn parse_checked(text: Seq<char>, message: Seq<char>) -> Result<(), Seq<char>> {
    match tree::parsed_source(text) {
        Ok(_) => Ok(()),
        Err(_) => Err(message),
    }
}

pub open spec fn unkept_alias() -> Seq<char> {
    "Vibra code document has an alias under two tags that would lose what it names"@
}

/// The document with the value that a pointer leads to set.
pub open spec fn with_value(document: Seq<char>, pointer: Seq<char>, value: Seq<char>) -> Result<Seq<char>, Seq<char>> {
    if pointer.len() == 0 {
        emitted(value)
    } else {
        match parse_checked(document, no_document()) {
            Err(error) => Err(error),
            Ok(parsed) => {
                match parse_checked(value, "parse replacement Vibra code value"@) {
                    Err(error) => Err(error),
                    Ok(readable) => {
                        match pointed(pointer) {
                            Err(error) => Err(error),
                            Ok(segments) => {
                                if segments.len() == 0 {
                                    Err("JSON Pointer must identify a value to set"@)
                                } else {
                                    let leaf = segments.last();
                                    match reached(document, segments, segments.len() - 1) {
                                        Err(error) => Err(error),
                                        Ok(parent) => {
                                            match parent.0[Seq::empty()].shape {
                                                Shape::Mapping(_) => if tree::cannot_mend(tree::token_list(document), tree::value_cut(parent.0, leaf, tree::has_alias(tree::token_list(value)))) {
                                                    Err(unkept_alias())
                                                } else {
                                                    Ok(
                                                        with_leading(
                                                            document,
                                                            tree::with_key_set(document, parent.1, leaf, value)->Some_0,
                                                        ),
                                                    )
                                                },
                                                Shape::Sequence(_) => if leaf == "-"@ {
                                                    Err(
                                                        "JSON Pointer append marker `-` is only valid for `code.append`"@,
                                                    )
                                                } else {
                                                    match index_of(leaf) {
                                                        Err(error) => Err(error),
                                                        Ok(index) => {
                                                            if tree::cannot_mend(tree::token_list(document), tree::item_cut(parent.0, index, !tree::has_alias(tree::token_list(value)))) {
                                                                Err(unkept_alias())
                                                            } else {
                                                                match tree::with_item_set(document, parent.1, index, value) {
                                                                    Some(text) => Ok(with_leading(document, text)),
                                                                    None => Err(out_of_bounds(index)),
                                                                }
                                                            }

                                                        },
                                                    }
                                                },
                                                _ => Err(no_container(parent.0)),
                                            }

                                        },
                                    }
                                }

                            },
                        }

                    },
                }

            },
        }
    }
}

/// Sets the value that a pointer leads to. It is refused where an alias
/// under two tags may lose what it names.
pub fn set(document: &str, pointer: &str, value: &str) -> (result: Result<String, String>)
    ensures
        text_outcome(result) == with_value(document@, pointer@, value@),
{
    if is_root_pointer(pointer) {
        return emit(value);
    }
    let parsed = match open_document(document, "parse Vibra code document") {
        Ok(value) => value,
        Err(error) => return Err(error),
    };
    let adding = match open_document(value, "parse replacement Vibra code value") {
        Ok(value) => value,
        Err(error) => return Err(error),
    };
    let segments = match pointer_segments(pointer) {
        Ok(value) => value,
        Err(error) => return Err(error),
    };
    let ghost all = view::texts(segments@);
    assert(all.len() == segments@.len());
    let count: usize = segments.len();
    if count == 0 {
        return Err(owned("JSON Pointer must identify a value to set"));
    }
    assert(all.last() == segments@[count - 1]@);
    let leaf = segments[count - 1].as_str();
    let parent = match node_at_segments(&parsed, &segments, count - 1) {
        Ok(value) => value,
        Err(error) => return Err(error),
    };
    let found = describe(&parsed, &parent);
    match found.shape {
        Shape::Mapping(_) => {
            let cut = find_value_cut(&parsed, &parent, leaf, find_alias(value));
            if is_past_mending(document, cut) {
                return Err(owned("Vibra code document has an alias under two tags that would lose what it names"));
            }
            match set_key(parsed, parent, leaf, adding) {
                Some(text) => Ok(restore_leading_prefix(document, text)),
                None => Err(owned("parse Vibra code document")),
            }
        }
        Shape::Sequence(_) => {
            if same_text(leaf, "-") {
                return Err(owned("JSON Pointer append marker `-` is only valid for `code.append`"));
            }
            let index = match parse_index(leaf) {
                Ok(value) => value,
                Err(error) => return Err(error),
            };
            let cut = find_item_cut(&parsed, &parent, index, !find_alias(value));
            if is_past_mending(document, cut) {
                return Err(owned("Vibra code document has an alias under two tags that would lose what it names"));
            }
            match set_item(parsed, parent, index, adding) {
                Some(text) => Ok(restore_leading_prefix(document, text)),
                None => Err(index_out_of_bounds(index)),
            }
        }
        _ => Err(concat_two("JSON Pointer parent is not a mapping or sequence: ", found.debug.as_str())),
    }
}

/// The document without the value that a pointer leads to.
pub open spec fn without_value(document: Seq<char>, pointer: Seq<char>) -> Result<Seq<char>, Seq<char>> {
    if pointer.len() == 0 {
        Err("JSON Pointer root cannot be removed"@)
    } else {
        match parse_checked(document, no_document()) {
            Err(error) => Err(error),
            Ok(parsed) => {
                match pointed(pointer) {
                    Err(error) => Err(error),
                    Ok(segments) => {
                        if segments.len() == 0 {
                            Err("JSON Pointer must identify a value to remove"@)
                        } else {
                            let leaf = segments.last();
                            match reached(document, segments, segments.len() - 1) {
                                Err(error) => Err(error),
                                Ok(parent) => {
                                    match parent.0[Seq::empty()].shape {
                                        Shape::Mapping(_) => if tree::cannot_mend(tree::token_list(document), tree::entry_cut(parent.0, leaf)) {
                                            Err(unkept_alias())
                                        } else {
                                            match tree::with_key_removed(document, parent.1, leaf) {
                                                Some(text) => Ok(with_leading(document, text)),
                                                None => Err("JSON Pointer key `"@ + leaf + "` does not exist"@),
                                            }
                                        },
                                        Shape::Sequence(_) => {
                                            match index_of(leaf) {
                                                Err(error) => Err(error),
                                                Ok(index) => {
                                                    if tree::cannot_mend(tree::token_list(document), tree::item_cut(parent.0, index, false)) {
                                                        Err(unkept_alias())
                                                    } else {
                                                        match tree::with_item_removed(document, parent.1, index) {
                                                            Some(text) => Ok(with_leading(document, text)),
                                                            None => Err(out_of_bounds(index)),
                                                        }
                                                    }

                                                },
                                            }
                                        },
                                        _ => Err(no_container(parent.0)),
                                    }

                                },
                            }
                        }

                    },
                }

            },
        }
    }
}

/// Removes the value that a pointer leads to. It is refused where an alias
/// under two tags may lose what it names.
pub fn remove(document: &str, pointer: &str) -> (result: Result<String, String>)
    ensures
        text_outcome(result) == without_value(document@, pointer@),
{
    if is_root_pointer(pointer) {
        return Err(owned("JSON Pointer root cannot be removed"));
    }
    let parsed = match open_document(document, "parse Vibra code document") {
        Ok(value) => value,
        Err(error) => return Err(error),
    };
    let segments = match pointer_segments(pointer) {
        Ok(value) => value,
        Err(error) => return Err(error),
    };
    let ghost all = view::texts(segments@);
    assert(all.len() == segments@.len());
    let count: usize = segments.len();
    if count == 0 {
        return Err(owned("JSON Pointer must identify a value to remove"));
    }
    assert(all.last() == segments@[count - 1]@);
    let leaf = segments[count - 1].as_str();
    let parent = match node_at_segments(&parsed, &segments, count - 1) {
        Ok(value) => value,
        Err(error) => return Err(error),
    };
    let found = describe(&parsed, &parent);
    match found.shape {
        Shape::Mapping(_) => {
            let cut = find_entry_cut(&parsed, &parent, leaf);
            if is_past_mending(document, cut) {
                return Err(owned("Vibra code document has an alias under two tags that would lose what it names"));
            }
            match remove_key(parsed, parent, leaf) {
                Some(text) => Ok(restore_leading_prefix(document, text)),
                None => Err(concat_three("JSON Pointer key `", leaf, "` does not exist")),
            }
        }
        Shape::Sequence(_) => {
            let index = match parse_index(leaf) {
                Ok(value) => value,
                Err(error) => return Err(error),
            };
            let cut = find_item_cut(&parsed, &parent, index, false);
            if is_past_mending(document, cut) {
                return Err(owned("Vibra code document has an alias under two tags that would lose what it names"));
            }
            match remove_item(parsed, parent, index) {
                Some(text) => Ok(restore_leading_prefix(document, text)),
                None => Err(index_out_of_bounds(index)),
            }
        }
        _ => Err(concat_two("JSON Pointer parent is not a mapping or sequence: ", found.debug.as_str())),
    }
}

/// The document with a value behind the sequence that a pointer names.
pub open spec fn with_appended(document: Seq<char>, pointer: Seq<char>, value: Seq<char>) -> Result<Seq<char>, Seq<char>> {
    match pointed(pointer) {
        Err(error) => Err(error),
        Ok(segments) => {
            if segments.len() == 0 || segments.last() != "-"@ {
                Err("JSON Pointer append path must end in `/-`"@)
            } else {
                match parse_checked(document, no_document()) {
                    Err(error) => Err(error),
                    Ok(parsed) => {
                        match parse_checked(value, "parse appended Vibra code value"@) {
                            Err(error) => Err(error),
                            Ok(readable) => {
                                match reached(document, segments, segments.len() - 1) {
                                    Err(error) => Err(error),
                                    Ok(parent) => {
                                        match parent.0[Seq::empty()].shape {
                                            Shape::Sequence(_) => Ok(
                                                with_leading(
                                                    document,
                                                    tree::with_item_pushed(document, parent.1, value)->Some_0,
                                                ),
                                            ),
                                            _ => Err("JSON Pointer append target is not a sequence"@),
                                        }

                                    },
                                }

                            },
                        }

                    },
                }
            }

        },
    }
}

/// Puts a value behind the sequence that a pointer ending in `/-` names.
pub fn append(document: &str, pointer: &str, value: &str) -> (result: Result<String, String>)
    ensures
        text_outcome(result) == with_appended(document@, pointer@, value@),
{
    let segments = match pointer_segments(pointer) {
        Ok(value) => value,
        Err(error) => return Err(error),
    };
    let ghost all = view::texts(segments@);
    assert(all.len() == segments@.len());
    let count: usize = segments.len();
    if count == 0 {
        return Err(owned("JSON Pointer append path must end in `/-`"));
    }
    assert(all.last() == segments@[count - 1]@);
    if !same_text(segments[count - 1].as_str(), "-") {
        return Err(owned("JSON Pointer append path must end in `/-`"));
    }
    let parsed = match open_document(document, "parse Vibra code document") {
        Ok(value) => value,
        Err(error) => return Err(error),
    };
    let adding = match open_document(value, "parse appended Vibra code value") {
        Ok(value) => value,
        Err(error) => return Err(error),
    };
    let parent = match node_at_segments(&parsed, &segments, count - 1) {
        Ok(value) => value,
        Err(error) => return Err(error),
    };
    match describe(&parsed, &parent).shape {
        Shape::Sequence(_) => match push_item(parsed, parent, adding) {
            Some(text) => Ok(restore_leading_prefix(document, text)),
            None => Err(owned("parse Vibra code document")),
        },
        _ => Err(owned("JSON Pointer append target is not a sequence")),
    }
}

// Laws.

/// A text keeps the comments it is put behind: they begin the result.
pub proof fn law_leading_comments_are_kept(original: Seq<char>, rendered: Seq<char>)
    ensures
        crate::text::has_prefix(
            with_leading(original, rendered),
            leading(crate::code::lines::full_lines(original), 0, Seq::empty()),
        ),
{
    let prefix = leading(crate::code::lines::full_lines(original), 0, Seq::empty());
    if prefix.len() == 0 {
        assert(rendered.take(0) =~= prefix);
    } else if !crate::text::has_prefix(rendered, prefix) {
        assert((prefix + rendered).take(prefix.len() as int) =~= prefix);
    }
}

/// A step without a tilde or a slash stands for itself.
pub proof fn law_plain_steps_stand_for_themselves(segment: Seq<char>)
    requires
        !segment.contains('~'),
    ensures
        unescaped(segment) == Ok::<Seq<char>, Seq<char>>(segment),
{
    lemma_unescaped_plain(segment, 0, Seq::empty());
    assert(Seq::<char>::empty() + segment.skip(0) =~= segment);
}

proof fn lemma_unescaped_plain(segment: Seq<char>, from: int, done: Seq<char>)
    requires
        0 <= from <= segment.len(),
        !segment.contains('~'),
    ensures
        unescaped_from(segment, from, done) == Ok::<Seq<char>, Seq<char>>(done + segment.skip(from)),
    decreases segment.len() - from,
{
    if from < segment.len() {
        assert(segment.contains(segment[from]));
        lemma_unescaped_plain(segment, from + 1, done.push(segment[from]));
        assert(done.push(segment[from]) + segment.skip(from + 1) =~= done + segment.skip(from));
    } else {
        assert(done + segment.skip(from) =~= done);
    }
}

} // verus!
