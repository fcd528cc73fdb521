//! Edits of source text that keep everything else as it is.
use vstd::prelude::*;
use crate::code::copy;
use crate::code::form::fail;
use crate::code::lines::{
    block_of, find_line_start, indent_lines, indent_of, place, splice, split_bare_lines, split_lines, trim_line_feeds,
};
use crate::code::model::{CodeError, CodeErrorKind, Entry, Form, Path, Segment};
use crate::code::source::{node_at_path, path_error};
use crate::code::tree::{
    self, describe, entry_key, find_alias, find_item_cut, find_value_cut, is_past_mending, item_at, matching_key,
    set_item, set_key, value_for_key, Shape, Tree, TreeStep,
};
use crate::code::view::{self, CodeErrorView, EntryView, FormView, PathView, SegmentView};
use crate::execute::strings::ends_with;
use crate::text::{characters, concat_three, concat_two, decimal_text, has_char, owned, starts_with, text_of};

verus! {

/// An edit that cannot be made.
pub open spec fn conflict(message: Seq<char>) -> CodeErrorView {
    crate::code::form::failed(CodeErrorKind::EditConflict, message)
}

pub fn edit_conflict(message: &str) -> (error: CodeError)
    ensures
        view::code_error(error) == conflict(message@),
{
    fail(CodeErrorKind::EditConflict, message)
}

pub open spec fn key_missing(key: Seq<char>) -> CodeErrorView {
    crate::code::source::bad_path("mapping key `"@ + key + "` does not exist"@)
}

fn missing_key(key: &str) -> (error: CodeError)
    ensures
        view::code_error(error) == key_missing(key@),
{
    path_error(concat_three("mapping key `", key, "` does not exist"))
}

pub open spec fn key_present(key: Seq<char>) -> CodeErrorView {
    conflict("mapping key `"@ + key + "` already exists"@)
}

fn present_key(key: &str) -> (error: CodeError)
    ensures
        view::code_error(error) == key_present(key@),
{
    let message = concat_three("mapping key `", key, "` already exists");
    edit_conflict(message.as_str())
}

pub open spec fn index_missing(index: usize) -> CodeErrorView {
    crate::code::source::bad_path("sequence index `"@ + crate::text::decimal(index as nat) + "` is out of bounds"@)
}

fn missing_index(index: usize) -> (error: CodeError)
    ensures
        view::code_error(error) == index_missing(index),
{
    let digits = decimal_text(index as u64);
    path_error(concat_three("sequence index `", digits.as_str(), "` is out of bounds"))
}

/// The nodes of a source that is to be edited.
pub open spec fn parsed_for_edit(source: Seq<char>) -> Result<Option<Tree>, CodeErrorView> {
    match tree::parsed_source(source) {
        Ok(parsed) => Ok(parsed),
        Err(message) => Err(
            crate::code::form::failed(CodeErrorKind::InvalidSource, "parse source for edit: "@ + message),
        ),
    }
}

fn open_document(source: &str) -> (result: Result<yaml_edit::Document, CodeError>)
    ensures
        match result {
            Ok(document) => parsed_for_edit(source@) == Ok::<Option<Tree>, CodeErrorView>(
                tree::root_among(tree::document_roots(document)),
            ) && tree::document_source(document) == source@,
            Err(error) => parsed_for_edit(source@) == Err::<Option<Tree>, CodeErrorView>(view::code_error(error)),
        },
{
    match tree::parse_document(source) {
        Ok(document) => Ok(document),
        Err(message) => Err(
            CodeError::new(CodeErrorKind::InvalidSource, concat_two("parse source for edit: ", message.as_str())),
        ),
    }
}

/// A node with the document that it was reached in.
pub open spec fn opened_outcome(result: Result<(yaml_edit::Document, yaml_edit::YamlNode), CodeError>) -> Result<
    Tree,
    CodeErrorView,
> {
    match result {
        Ok((_, node)) => Ok(tree::node_contents(node)),
        Err(error) => Err(view::code_error(error)),
    }
}

pub open spec fn is_within(result: Result<(yaml_edit::Document, yaml_edit::YamlNode), CodeError>) -> bool {
    match result {
        Ok((document, node)) => tree::place_within(document, node) is Some,
        Err(_) => true,
    }
}

/// The node at a path of a source that is to be edited.
pub open spec fn edited_node(source: Seq<char>, path: PathView) -> Result<Tree, CodeErrorView> {
    match parsed_for_edit(source) {
        Err(error) => Err(error),
        Ok(parsed) => {
            crate::code::source::node_in(parsed, path)

        },
    }
}

fn node_for_edit(source: &str, path: &Path) -> (result: Result<(yaml_edit::Document, yaml_edit::YamlNode), CodeError>)
    ensures
        opened_outcome(result) == edited_node(source@, view::path(*path)),
        is_within(result),
{
    let document = match open_document(source) {
        Ok(value) => value,
        Err(error) => return Err(error),
    };
    match node_at_path(&document, path) {
        Ok(node) => Ok((document, node)),
        Err(error) => Err(error),
    }
}

/// The characters that a node spans.
pub open spec fn range_of(source: Seq<char>, node: Tree) -> Result<(int, int), CodeErrorView> {
    let found = node[Seq::empty()];
    match found.shape {
        Shape::Alias | Shape::Tagged => Err(crate::code::source::outside_subset()),
        _ => {
            let start = crate::code::lines::place_of(source, 0, found.start as int);
            let end = crate::code::lines::place_of(source, 0, found.end as int);
            Ok((start, if end < start {
                        start
                    } else {
                        end
            }))
        },
    }
}

pub(crate) fn node_range(
    source: &Vec<char>,
    document: &yaml_edit::Document,
    node: &yaml_edit::YamlNode,
) -> (result: Result<(usize, usize), CodeError>)
    requires
        tree::place_within(*document, *node) is Some,
    ensures
        match result {
            Ok((start, end)) => range_of(source@, tree::node_contents(*node)) == Ok::<(int, int), CodeErrorView>(
                (start as int, end as int),
            ) && start <= end <= source@.len(),
            Err(error) => range_of(source@, tree::node_contents(*node)) == Err::<(int, int), CodeErrorView>(
                view::code_error(error),
            ),
        },
{
    let found = describe(document, node);
    match found.shape {
        Shape::Alias | Shape::Tagged => Err(
            fail(CodeErrorKind::InvalidSource, "aliases and tagged nodes are outside the Vibra source subset"),
        ),
        _ => {
            let start: usize = place(source, found.start);
            let end: usize = place(source, found.end);
            if end < start {
                Ok((start, start))
            } else {
                Ok((start, end))
            }
        }
    }
}

// Replacing.

pub open spec fn with_line_feed(text: Seq<char>, original: Seq<char>) -> Seq<char> {
    if crate::execute::strings::has_suffix(original, "\n"@) && !crate::execute::strings::has_suffix(text, "\n"@) {
        text + "\n"@
    } else {
        text
    }
}

fn ensure_trailing_newline(text: String, original: &str) -> (result: String)
    ensures
        result@ == with_line_feed(text@, original@),
{
    if ends_with(original, "\n") && !ends_with(text.as_str(), "\n") {
        concat_two(text.as_str(), "\n")
    } else {
        text
    }
}

/// The source with the node at a path replaced by a form.
pub open spec fn replaced(source: Seq<char>, path: PathView, value: FormView) -> Result<Seq<char>, CodeErrorView> {
    match crate::code::form::rendered_form(value) {
        Err(error) => Err(error),
        Ok(replacement) => {
            match crate::code::path::parent_of(path) {
                None => Ok(with_line_feed(replacement, source)),
                Some(container) => {
                    match parsed_for_edit(source) {
                        Err(error) => Err(error),
                        Ok(parsed) => {
                            match tree::parsed_source(replacement) {
                                Err(message) => Err(
                                    crate::code::form::failed(
                                        CodeErrorKind::InvalidForm,
                                        "parse replacement form: "@ + message,
                                    ),
                                ),
                                Ok(_) => {
                                    match crate::code::source::node_in(parsed, container) {
                                        Err(error) => Err(error),
                                        Ok(parent) => {
                                            match (parent[Seq::empty()].shape, path.segments.last()) {
                                                (Shape::Mapping(_), SegmentView::Key(key)) => if tree::child_tree(
                                                    parent,
                                                    TreeStep::Key(key),
                                                ) is None {
                                                    Err(key_missing(key))
                                                } else if tree::cannot_mend(
                                                    tree::token_list(source),
                                                    tree::value_cut(
                                                        parent,
                                                        key,
                                                        tree::has_alias(tree::token_list(replacement)),
                                                    ),
                                                ) {
                                                    Err(crate::code::source::outside_subset())
                                                } else {
                                                    Ok(
                                                        tree::with_key_set(
                                                            source,
                                                            tree::steps_of(container.segments),
                                                            key,
                                                            replacement,
                                                        )->Some_0,
                                                    )
                                                },
                                                (Shape::Sequence(_), SegmentView::Index(index)) => if tree::cannot_mend(
                                                    tree::token_list(source),
                                                    tree::item_cut(
                                                        parent,
                                                        index,
                                                        !tree::has_alias(tree::token_list(replacement)),
                                                    ),
                                                ) {
                                                    Err(crate::code::source::outside_subset())
                                                } else {
                                                    match tree::with_item_set(
                                                        source,
                                                        tree::steps_of(container.segments),
                                                        index,
                                                        replacement,
                                                    ) {
                                                        Some(text) => Ok(text),
                                                        None => Err(index_missing(index)),
                                                    }
                                                },
                                                (Shape::Mapping(_), SegmentView::Index(index)) => Err(
                                                    crate::code::source::bad_path(
                                                        "cannot replace index `"@ + crate::text::decimal(index as nat)
                                                            + "` on a mapping"@,
                                                    ),
                                                ),
                                                (Shape::Sequence(_), SegmentView::Key(key)) => Err(
                                                    crate::code::source::bad_path(
                                                        "cannot replace key `"@ + key + "` on a sequence"@,
                                                    ),
                                                ),
                                                (Shape::Scalar, _) => Err(
                                                    crate::code::source::bad_path(
                                                        "cannot replace a child of a scalar"@,
                                                    ),
                                                ),
                                                _ => Err(crate::code::source::outside_subset()),
                                            }

                                        },
                                    }
                                },
                            }

                        },
                    }
                },
            }

        },
    }
}

fn unsupported_source() -> (error: CodeError)
    ensures
        view::code_error(error) == crate::code::source::outside_subset(),
{
    fail(CodeErrorKind::InvalidSource, "aliases and tagged nodes are outside the Vibra source subset")
}

/// Replaces the node at a path by a form. It is refused where an alias under two
/// tags may lose what it names.
pub fn replace(source: &str, path: &Path, value: &Form) -> (result: Result<String, CodeError>)
    ensures
        crate::code::form::text_outcome(result) == replaced(source@, view::path(*path), view::form(*value)),
{
    let replacement = match value.render() {
        Ok(value) => value,
        Err(error) => return Err(error),
    };
    let container = match path.parent() {
        Some(container) => container,
        None => return Ok(ensure_trailing_newline(replacement, source)),
    };
    let leaf = match path.last() {
        Some(leaf) => leaf,
        None => return Ok(ensure_trailing_newline(replacement, source)),
    };
    let document = match open_document(source) {
        Ok(value) => value,
        Err(error) => return Err(error),
    };
    let replacing = match tree::parse_document(replacement.as_str()) {
        Ok(value) => value,
        Err(message) => return Err(
            CodeError::new(CodeErrorKind::InvalidForm, concat_two("parse replacement form: ", message.as_str())),
        ),
    };
    let parent = match node_at_path(&document, &container) {
        Ok(value) => value,
        Err(error) => return Err(error),
    };
    match (describe(&document, &parent).shape, leaf) {
        (Shape::Mapping(_), Segment::Key(key)) => {
            if value_for_key(&document, &parent, key.as_str()).is_none() {
                return Err(missing_key(key.as_str()));
            }
            let cut = find_value_cut(&document, &parent, key.as_str(), find_alias(replacement.as_str()));
            if is_past_mending(source, cut) {
                return Err(unsupported_source());
            }
            match set_key(document, parent, key.as_str(), replacing) {
                Some(text) => Ok(text),
                None => Err(missing_key(key.as_str())),
            }
        }
        (Shape::Sequence(_), Segment::Index(index)) => {
            let cut = find_item_cut(&document, &parent, *index, !find_alias(replacement.as_str()));
            if is_past_mending(source, cut) {
                return Err(unsupported_source());
            }
            match set_item(document, parent, *index, replacing) {
                Some(text) => Ok(text),
                None => Err(missing_index(*index)),
            }
        }
        (Shape::Mapping(_), Segment::Index(index)) => {
            let digits = decimal_text(*index as u64);
            Err(path_error(concat_three("cannot replace index `", digits.as_str(), "` on a mapping")))
        }
        (Shape::Sequence(_), Segment::Key(key)) => Err(
            path_error(concat_three("cannot replace key `", key.as_str(), "` on a sequence")),
        ),
        (Shape::Scalar, _) => Err(path_error(owned("cannot replace a child of a scalar"))),
        _ => Err(unsupported_source()),
    }
}

// Deleting and renaming.

/// The container of the node at a path, for edits that need one.
pub open spec fn container_of(source: Seq<char>, path: PathView) -> Result<Tree, CodeErrorView> {
    match crate::code::path::parent_of(path) {
        None => Err(conflict("document root cannot be deleted or renamed"@)),
        Some(container) => edited_node(source, container),
    }
}

fn editable_parent(source: &str, path: &Path) -> (result: Result<(yaml_edit::Document, yaml_edit::YamlNode), CodeError>)
    ensures
        opened_outcome(result) == container_of(source@, view::path(*path)),
        is_within(result),
{
    match path.parent() {
        None => Err(edit_conflict("document root cannot be deleted or renamed")),
        Some(container) => node_for_edit(source, &container),
    }
}

/// The source without the lines that belong to a node.
pub open spec fn without_block(source: Seq<char>, node: Tree) -> Result<Seq<char>, CodeErrorView> {
    match range_of(source, node) {
        Err(error) => Err(error),
        Ok(range) => {
            let block = crate::code::lines::owned_block(source, range.0);
            Ok(crate::code::lines::spliced(source, block.0, block.1, Seq::empty()))

        },
    }
}

fn remove_block(
    source: &str,
    document: &yaml_edit::Document,
    node: &yaml_edit::YamlNode,
) -> (result: Result<String, CodeError>)
    requires
        tree::place_within(*document, *node) is Some,
    ensures
        crate::code::form::text_outcome(result) == without_block(source@, tree::node_contents(*node)),
{
    let letters = characters(source);
    let range = match node_range(&letters, document, node) {
        Ok(value) => value,
        Err(error) => return Err(error),
    };
    let block = block_of(&letters, range.0);
    let empty = String::new();
    assert(empty@ =~= Seq::<char>::empty());
    Ok(splice(&letters, block.0, block.1, empty.as_str()))
}

/// The source without the node at a path.
pub open spec fn deleted(source: Seq<char>, path: PathView) -> Result<Seq<char>, CodeErrorView> {
    match container_of(source, path) {
        Err(error) => Err(error),
        Ok(parent) => {
            match (parent[Seq::empty()].shape, path.segments.last()) {
                (Shape::Mapping(_), SegmentView::Key(key)) => match tree::matching_key_tree(parent, key) {
                    None => Err(key_missing(key)),
                    Some(node) => without_block(source, node),
                },
                (Shape::Sequence(_), SegmentView::Index(index)) => match tree::child_tree(parent, TreeStep::Index(index)) {
                    None => Err(index_missing(index)),
                    Some(node) => without_block(source, node),
                },
                (Shape::Mapping(_), SegmentView::Index(index)) => Err(
                    crate::code::source::bad_path(
                        "cannot delete index `"@ + crate::text::decimal(index as nat) + "` from a mapping"@,
                    ),
                ),
                (Shape::Sequence(_), SegmentView::Key(key)) => Err(
                    crate::code::source::bad_path("cannot delete key `"@ + key + "` from a sequence"@),
                ),
                (Shape::Scalar, _) => Err(crate::code::source::bad_path("cannot delete a child of a scalar"@)),
                _ => Err(crate::code::source::outside_subset()),
            }

        },
    }
}

pub fn delete(source: &str, path: &Path) -> (result: Result<String, CodeError>)
    ensures
        crate::code::form::text_outcome(result) == deleted(source@, view::path(*path)),
{
    let (document, parent) = match editable_parent(source, path) {
        Ok(value) => value,
        Err(error) => return Err(error),
    };
    let leaf = match path.last() {
        Some(leaf) => leaf,
        None => return Err(edit_conflict("document root cannot be deleted or renamed")),
    };
    match (describe(&document, &parent).shape, leaf) {
        (Shape::Mapping(_), Segment::Key(key)) => match matching_key(&document, &parent, key.as_str()) {
            None => Err(missing_key(key.as_str())),
            Some(node) => remove_block(source, &document, &node),
        },
        (Shape::Sequence(_), Segment::Index(index)) => match item_at(&document, &parent, *index) {
            None => Err(missing_index(*index)),
            Some(node) => remove_block(source, &document, &node),
        },
        (Shape::Mapping(_), Segment::Index(index)) => {
            let digits = decimal_text(*index as u64);
            Err(path_error(concat_three("cannot delete index `", digits.as_str(), "` from a mapping")))
        }
        (Shape::Sequence(_), Segment::Key(key)) => Err(
            path_error(concat_three("cannot delete key `", key.as_str(), "` from a sequence")),
        ),
        (Shape::Scalar, _) => Err(path_error(owned("cannot delete a child of a scalar"))),
        _ => Err(
            fail(CodeErrorKind::InvalidSource, "aliases and tagged nodes are outside the Vibra source subset"),
        ),
    }
}

/// The source with the key of the node at a path renamed.
pub open spec fn renamed(source: Seq<char>, path: PathView, new_key: Seq<char>) -> Result<Seq<char>, CodeErrorView> {
    match container_of(source, path) {
        Err(error) => Err(error),
        Ok(parent) => {
            match (parent[Seq::empty()].shape, path.segments.last()) {
                (Shape::Mapping(_), SegmentView::Key(key)) => if tree::child_tree(parent, TreeStep::Key(new_key)) is Some {
                    Err(key_present(new_key))
                } else {
                    match tree::matching_key_tree(parent, key) {
                        None => Err(key_missing(key)),
                        Some(node) => {
                            match range_of(source, node) {
                                Err(error) => Err(error),
                                Ok(range) => {
                                    match crate::code::form::rendered_form(FormView::String(new_key)) {
                                        Err(error) => Err(error),
                                        Ok(rendered) => {
                                            Ok(crate::code::lines::spliced(source, range.0, range.1, rendered))

                                        },
                                    }

                                },
                            }
                        },
                    }
                },
                _ => Err(conflict("mapping rename target must be a mapping value addressed by key"@)),
            }

        },
    }
}

pub fn rename_mapping_key(source: &str, path: &Path, new_key: &str) -> (result: Result<String, CodeError>)
    ensures
        crate::code::form::text_outcome(result) == renamed(source@, view::path(*path), new_key@),
{
    let (document, parent) = match editable_parent(source, path) {
        Ok(value) => value,
        Err(error) => return Err(error),
    };
    let leaf = match path.last() {
        Some(leaf) => leaf,
        None => return Err(edit_conflict("document root cannot be deleted or renamed")),
    };
    match (describe(&document, &parent).shape, leaf) {
        (Shape::Mapping(_), Segment::Key(key)) => {
            if value_for_key(&document, &parent, new_key).is_some() {
                return Err(present_key(new_key));
            }
            let node = match matching_key(&document, &parent, key.as_str()) {
                Some(node) => node,
                None => return Err(missing_key(key.as_str())),
            };
            let letters = characters(source);
            let range = match node_range(&letters, &document, &node) {
                Ok(value) => value,
                Err(error) => return Err(error),
            };
            let form = Form::String(owned(new_key));
            let rendered = match form.render() {
                Ok(value) => value,
                Err(error) => return Err(error),
            };
            Ok(splice(&letters, range.0, range.1, rendered.as_str()))
        }
        _ => Err(edit_conflict("mapping rename target must be a mapping value addressed by key")),
    }
}

// Adding to mappings.

pub open spec fn no_key_node() -> CodeErrorView {
    crate::code::form::failed(CodeErrorKind::InvalidSource, "mapping entry has no key node"@)
}

fn missing_key_node() -> (error: CodeError)
    ensures
        view::code_error(error) == no_key_node(),
{
    fail(CodeErrorKind::InvalidSource, "mapping entry has no key node")
}

/// Where a mapping takes a new entry, and how far it is indented.
pub open spec fn entry_location(source: Seq<char>, mapping: Tree, count: int) -> Result<(int, Seq<char>), CodeErrorView> {
    if count > 0 {
        match tree::child_tree(mapping, TreeStep::EntryKey((count - 1) as usize)) {
            None => Err(no_key_node()),
            Some(last) => {
                match range_of(source, last) {
                    Err(error) => Err(error),
                    Ok(last_range) => {
                        match tree::child_tree(mapping, TreeStep::EntryKey(0)) {
                            None => Err(no_key_node()),
                            Some(first) => {
                                match range_of(source, first) {
                                    Err(error) => Err(error),
                                    Ok(first_range) => {
                                        Ok(
                                            (
                                                crate::code::lines::owned_block(source, last_range.0).1,
                                                crate::code::lines::line_indent(source, first_range.0),
                                            ),
                                        )

                                    },
                                }
                            },
                        }

                    },
                }
            },
        }
    } else {
        match range_of(source, mapping) {
            Err(error) => Err(error),
            Ok(range) => {
                Ok((range.0, crate::code::lines::line_indent(source, range.0)))

            },
        }
    }
}

fn mapping_insertion_location(
    source: &Vec<char>,
    document: &yaml_edit::Document,
    mapping: &yaml_edit::YamlNode,
    count: usize,
) -> (result: Result<
    (usize, String),
    CodeError,
    >)
    requires
        tree::place_within(*document, *mapping) is Some,
    ensures
        match result {
            Ok((place, indent)) => entry_location(source@, tree::node_contents(*mapping), count as int) == Ok::<
            (int, Seq<char>),
            CodeErrorView,
            >((place as int, indent@)) && place <= source@.len(),
            Err(error) => entry_location(source@, tree::node_contents(*mapping), count as int) == Err::<
            (int, Seq<char>),
            CodeErrorView,
            >(view::code_error(error)),
        },
{
    if count > 0 {
        let last = match entry_key(document, mapping, count - 1) {
            Some(last) => last,
            None => return Err(missing_key_node()),
        };
        let last_range = match node_range(source, document, &last) {
            Ok(value) => value,
            Err(error) => return Err(error),
        };
        let first = match entry_key(document, mapping, 0) {
            Some(first) => first,
            None => return Err(missing_key_node()),
        };
        let first_range = match node_range(source, document, &first) {
            Ok(value) => value,
            Err(error) => return Err(error),
        };
        let block = block_of(source, last_range.0);
        Ok((block.1, indent_of(source, first_range.0)))
    } else {
        let range = match node_range(source, document, mapping) {
            Ok(value) => value,
            Err(error) => return Err(error),
        };
        Ok((range.0, indent_of(source, range.0)))
    }
}

/// The source with a new entry in a mapping.
pub open spec fn with_new_entry(
    source: Seq<char>,
    mapping: Tree,
    count: int,
    key: Seq<char>,
    value: FormView,
) -> Result<
Seq<char>,
CodeErrorView,
> {
    match entry_location(source, mapping, count) {
        Err(error) => Err(error),
        Ok(location) => {
            match crate::code::form::rendered_form(FormView::Mapping(seq![EntryView { key, value }])) {
                Err(error) => Err(error),
                Ok(entry) => {
                    Ok(
                        crate::code::lines::spliced(
                            source,
                            location.0,
                            location.0,
                            crate::code::lines::indented(entry, location.1),
                        ),
                    )

                },
            }

        },
    }
}

fn insert_entry(
    source: &str,
    document: &yaml_edit::Document,
    mapping: &yaml_edit::YamlNode,
    count: usize,
    key: &str,
    value: &Form,
) -> (result: Result<
    String,
    CodeError,
    >)
    requires
        tree::place_within(*document, *mapping) is Some,
    ensures
        crate::code::form::text_outcome(result) == with_new_entry(
            source@,
            tree::node_contents(*mapping),
            count as int,
            key@,
            view::form(*value),
        ),
{
    let letters = characters(source);
    let location = match mapping_insertion_location(&letters, document, mapping, count) {
        Ok(value) => value,
        Err(error) => return Err(error),
    };
    let mut entries: Vec<Entry> = Vec::new();
    entries.push(Entry { key: owned(key), value: copy::form(value) });
    let form = Form::Mapping(entries);
    proof {
        assert(view::entries(entries@) =~= seq![EntryView { key: key@, value: view::form(*value) }]);
    }
    let entry = match form.render() {
        Ok(value) => value,
        Err(error) => return Err(error),
    };
    let text = indent_lines(entry.as_str(), location.1.as_str());
    Ok(splice(&letters, location.0, location.0, text.as_str()))
}

/// The source with a key of a mapping set: replaced, or added at the end.
pub open spec fn upserted(source: Seq<char>, path: PathView, key: Seq<char>, value: FormView) -> Result<
Seq<char>,
CodeErrorView,
> {
    match edited_node(source, path) {
        Err(error) => Err(error),
        Ok(mapping) => {
            match mapping[Seq::empty()].shape {
                Shape::Mapping(count) => if tree::child_tree(mapping, TreeStep::Key(key)) is Some {
                    replaced(source, crate::code::path::child_of(path, SegmentView::Key(key)), value)
                } else {
                    with_new_entry(source, mapping, count as int, key, value)
                },
                _ => Err(conflict("mapping upsert target is not a mapping"@)),
            }

        },
    }
}

pub fn upsert_mapping(source: &str, path: &Path, key: &str, value: &Form) -> (result: Result<String, CodeError>)
    ensures
        crate::code::form::text_outcome(result) == upserted(source@, view::path(*path), key@, view::form(*value)),
{
    let (document, mapping) = match node_for_edit(source, path) {
        Ok(value) => value,
        Err(error) => return Err(error),
    };
    match describe(&document, &mapping).shape {
        Shape::Mapping(count) => if value_for_key(&document, &mapping, key).is_some() {
            let child = path.child(Segment::Key(owned(key)));
            replace(source, &child, value)
        } else {
            insert_entry(source, &document, &mapping, count, key, value)
        },
        _ => Err(edit_conflict("mapping upsert target is not a mapping")),
    }
}

/// The source with a new key in a mapping.
pub open spec fn inserted(source: Seq<char>, path: PathView, key: Seq<char>, value: FormView) -> Result<
Seq<char>,
CodeErrorView,
> {
    match edited_node(source, path) {
        Err(error) => Err(error),
        Ok(mapping) => {
            match mapping[Seq::empty()].shape {
                Shape::Mapping(count) => if tree::child_tree(mapping, TreeStep::Key(key)) is Some {
                    Err(key_present(key))
                } else {
                    with_new_entry(source, mapping, count as int, key, value)
                },
                _ => Err(conflict("mapping insert target is not a mapping"@)),
            }

        },
    }
}

pub fn insert_mapping(source: &str, path: &Path, key: &str, value: &Form) -> (result: Result<String, CodeError>)
    ensures
        crate::code::form::text_outcome(result) == inserted(source@, view::path(*path), key@, view::form(*value)),
{
    let (document, mapping) = match node_for_edit(source, path) {
        Ok(value) => value,
        Err(error) => return Err(error),
    };
    match describe(&document, &mapping).shape {
        Shape::Mapping(count) => if value_for_key(&document, &mapping, key).is_some() {
            Err(present_key(key))
        } else {
            insert_entry(source, &document, &mapping, count, key, value)
        },
        _ => Err(edit_conflict("mapping insert target is not a mapping")),
    }
}

/// The text of an entry whose value is given as text.
pub open spec fn entry_text(key: Seq<char>, value: Seq<char>, block_style: bool, indent: Seq<char>) -> Seq<char> {
    if block_style {
        crate::code::lines::indented(key + ":\n"@ + crate::code::lines::indented(value, "  "@), indent)
    } else {
        crate::code::lines::indented(key + ": "@ + crate::code::lines::without_line_feeds(value) + "\n"@, indent)
    }
}

/// The source with a new key whose value is given as text.
pub open spec fn source_inserted(
    source: Seq<char>,
    path: PathView,
    key: Seq<char>,
    value: Seq<char>,
    block_style: bool,
) -> Result<Seq<char>, CodeErrorView> {
    match edited_node(source, path) {
        Err(error) => Err(error),
        Ok(mapping) => {
            match mapping[Seq::empty()].shape {
                Shape::Mapping(count) => if tree::child_tree(mapping, TreeStep::Key(key)) is Some {
                    Err(key_present(key))
                } else {
                    match entry_location(source, mapping, count as int) {
                        Err(error) => Err(error),
                        Ok(location) => {
                            match crate::code::form::rendered_form(FormView::String(key)) {
                                Err(error) => Err(error),
                                Ok(rendered) => {
                                    Ok(
                                        crate::code::lines::spliced(
                                            source,
                                            location.0,
                                            location.0,
                                            entry_text(rendered, value, block_style, location.1),
                                        ),
                                    )

                                },
                            }

                        },
                    }
                },
                _ => Err(conflict("mapping insert target is not a mapping"@)),
            }

        },
    }
}

pub fn insert_mapping_source(source: &str, path: &Path, key: &str, value: &str, block_style: bool) -> (result: Result<
    String,
    CodeError,
    >)
    ensures
        crate::code::form::text_outcome(result) == source_inserted(
            source@,
            view::path(*path),
            key@,
            value@,
            block_style,
        ),
{
    let (document, mapping) = match node_for_edit(source, path) {
        Ok(value) => value,
        Err(error) => return Err(error),
    };
    match describe(&document, &mapping).shape {
        Shape::Mapping(count) => {
            if value_for_key(&document, &mapping, key).is_some() {
                return Err(present_key(key));
            }
            let letters = characters(source);
            let location = match mapping_insertion_location(&letters, &document, &mapping, count) {
                Ok(value) => value,
                Err(error) => return Err(error),
            };
            let form = Form::String(owned(key));
            let rendered = match form.render() {
                Ok(value) => value,
                Err(error) => return Err(error),
            };
            let body = if block_style {
                let inner = indent_lines(value, "  ");
                concat_three(rendered.as_str(), ":\n", inner.as_str())
            } else {
                let inner = trim_line_feeds(value);
                let mut body = concat_three(rendered.as_str(), ": ", inner.as_str());
                body.append("\n");
                body
            };
            let text = indent_lines(body.as_str(), location.1.as_str());
            Ok(splice(&letters, location.0, location.0, text.as_str()))
        }
        _ => Err(edit_conflict("mapping insert target is not a mapping")),
    }
}

// Adding to sequences.

/// Where a sequence takes a new item.
pub open spec fn item_place(source: Seq<char>, sequence: Tree, index: int, count: int) -> Result<int, CodeErrorView> {
    if index < count {
        match tree::child_tree(sequence, TreeStep::Index(index as usize)) {
            None => Err(index_missing(index as usize)),
            Some(item) => {
                match range_of(source, item) {
                    Err(error) => Err(error),
                    Ok(range) => {
                        Ok(crate::code::lines::owned_block(source, range.0).0)

                    },
                }
            },
        }
    } else if count > 0 {
        match tree::child_tree(sequence, TreeStep::Index((count - 1) as usize)) {
            None => Err(index_missing((count - 1) as usize)),
            Some(item) => {
                match range_of(source, item) {
                    Err(error) => Err(error),
                    Ok(range) => {
                        Ok(crate::code::lines::owned_block(source, range.0).1)

                    },
                }
            },
        }
    } else {
        match range_of(source, sequence) {
            Err(error) => Err(error),
            Ok(range) => {
                Ok(range.0)

            },
        }
    }
}

pub open spec fn place_outcome(result: Result<usize, CodeError>) -> Result<int, CodeErrorView> {
    match result {
        Ok(place) => Ok(place as int),
        Err(error) => Err(view::code_error(error)),
    }
}

fn find_item_place(
    source: &Vec<char>,
    document: &yaml_edit::Document,
    sequence: &yaml_edit::YamlNode,
    index: usize,
    count: usize,
) -> (result: Result<
    usize,
    CodeError,
    >)
    requires
        tree::place_within(*document, *sequence) is Some,
    ensures
        place_outcome(result) == item_place(source@, tree::node_contents(*sequence), index as int, count as int),
        match result {
            Ok(place) => place <= source@.len(),
            Err(_) => true,
        },
{
    if index < count {
        match item_at(document, sequence, index) {
            None => Err(missing_index(index)),
            Some(item) => {
                let range = match node_range(source, document, &item) {
                    Ok(value) => value,
                    Err(error) => return Err(error),
                };
                let block = block_of(source, range.0);
                Ok(block.0)
            }
        }
    } else if count > 0 {
        match item_at(document, sequence, count - 1) {
            None => Err(missing_index(count - 1)),
            Some(item) => {
                let range = match node_range(source, document, &item) {
                    Ok(value) => value,
                    Err(error) => return Err(error),
                };
                let block = block_of(source, range.0);
                Ok(block.1)
            }
        }
    } else {
        let range = match node_range(source, document, sequence) {
            Ok(value) => value,
            Err(error) => return Err(error),
        };
        Ok(range.0)
    }
}

/// How far the items of a sequence are indented.
pub open spec fn item_indent(source: Seq<char>, sequence: Tree) -> Result<Seq<char>, CodeErrorView> {
    let first = match tree::child_tree(sequence, TreeStep::Index(0)) {
        Some(item) => item,
        None => sequence,
    };
    match range_of(source, first) {
        Err(error) => Err(error),
        Ok(range) => {
            Ok(crate::code::lines::line_indent(source, range.0))

        },
    }
}

fn sequence_indent(
    source: &Vec<char>,
    document: &yaml_edit::Document,
    sequence: &yaml_edit::YamlNode,
) -> (result: Result<String, CodeError>)
    requires
        tree::place_within(*document, *sequence) is Some,
    ensures
        crate::code::form::text_outcome(result) == item_indent(source@, tree::node_contents(*sequence)),
{
    match item_at(document, sequence, 0) {
        Some(item) => {
            let range = match node_range(source, document, &item) {
                Ok(value) => value,
                Err(error) => return Err(error),
            };
            Ok(indent_of(source, range.0))
        }
        None => {
            let range = match node_range(source, document, sequence) {
                Ok(value) => value,
                Err(error) => return Err(error),
            };
            Ok(indent_of(source, range.0))
        }
    }
}

/// The text of an item of a sequence.
pub open spec fn item_lines(rendered: Seq<char>, indent: Seq<char>) -> Seq<char> {
    let lines = crate::code::lines::bare_lines(rendered);
    if lines.len() == 0 {
        indent + "- "@ + "\n"@
    } else {
        indent + "- "@ + lines[0] + "\n"@ + crate::code::lines::prefixed(
            lines.skip(1),
            lines.len() - 1,
            indent + "  "@,
        )
    }
}

pub open spec fn item_text(value: FormView, indent: Seq<char>) -> Result<Seq<char>, CodeErrorView> {
    match crate::code::form::rendered_form(value) {
        Err(error) => Err(error),
        Ok(rendered) => {
            Ok(item_lines(rendered, indent))

        },
    }
}

fn write_item_lines(rendered: &str, indent: &str) -> (text: String)
    ensures
        text@ == item_lines(rendered@, indent@),
{
    let lines = split_bare_lines(rendered);
    let ghost all = crate::code::lines::bare_lines(rendered@);
    assert(crate::lowered::view::texts(lines@).len() == lines@.len());
    if lines.len() == 0 {
        return concat_three(indent, "- ", "\n");
    }
    let deeper = concat_two(indent, "  ");
    let mut text = concat_three(indent, "- ", lines[0].as_str());
    text.append("\n");
    assert(all[0] == lines@[0]@);
    let ghost head = text@;
    let ghost rest = all.skip(1);
    assert(text@ =~= head + crate::code::lines::prefixed(rest, 0, deeper@));
    let mut i: usize = 1;
    while i < lines.len()
        invariant
            1 <= i <= lines.len(),
            all == crate::code::lines::bare_lines(rendered@),
            all.len() == lines@.len(),
            crate::lowered::view::texts(lines@) == all,
            rest == all.skip(1),
            deeper@ == indent@ + "  "@,
            head == indent@ + "- "@ + all[0] + "\n"@,
            text@ == head + crate::code::lines::prefixed(rest, i - 1, deeper@),
        decreases lines.len() - i,
    {
        assert(rest[i - 1] == lines@[i as int]@);
        text.append(deeper.as_str());
        text.append(lines[i].as_str());
        text.append("\n");
        assert(text@ =~= head + crate::code::lines::prefixed(rest, i as int, deeper@));
        i += 1;
    }
    text
}

fn render_sequence_item(value: &Form, indent: &str) -> (result: Result<String, CodeError>)
    ensures
        crate::code::form::text_outcome(result) == item_text(view::form(*value), indent@),
{
    let rendered = match value.render() {
        Ok(value) => value,
        Err(error) => return Err(error),
    };
    Ok(write_item_lines(rendered.as_str(), indent))
}

pub open spec fn insertion_index_error(index: usize) -> CodeErrorView {
    crate::code::source::bad_path(
        "sequence insertion index `"@ + crate::text::decimal(index as nat) + "` is out of bounds"@,
    )
}

fn bad_insertion_index(index: usize) -> (error: CodeError)
    ensures
        view::code_error(error) == insertion_index_error(index),
{
    let digits = decimal_text(index as u64);
    path_error(concat_three("sequence insertion index `", digits.as_str(), "` is out of bounds"))
}

/// The source with a new item in a sequence.
pub open spec fn item_inserted(source: Seq<char>, path: PathView, index: usize, value: FormView) -> Result<
Seq<char>,
CodeErrorView,
> {
    match edited_node(source, path) {
        Err(error) => Err(error),
        Ok(sequence) => {
            match sequence[Seq::empty()].shape {
                Shape::Sequence(count) => if index > count {
                    Err(insertion_index_error(index))
                } else {
                    match item_place(source, sequence, index as int, count as int) {
                        Err(error) => Err(error),
                        Ok(place) => {
                            match item_indent(source, sequence) {
                                Err(error) => Err(error),
                                Ok(indent) => {
                                    match item_text(value, indent) {
                                        Err(error) => Err(error),
                                        Ok(text) => {
                                            Ok(crate::code::lines::spliced(source, place, place, text))

                                        },
                                    }

                                },
                            }

                        },
                    }
                },
                _ => Err(conflict("sequence insert target is not a sequence"@)),
            }

        },
    }
}

pub fn insert_sequence(source: &str, path: &Path, index: usize, value: &Form) -> (result: Result<String, CodeError>)
    ensures
        crate::code::form::text_outcome(result) == item_inserted(
            source@,
            view::path(*path),
            index,
            view::form(*value),
        ),
{
    let (document, sequence) = match node_for_edit(source, path) {
        Ok(value) => value,
        Err(error) => return Err(error),
    };
    match describe(&document, &sequence).shape {
        Shape::Sequence(count) => {
            if index > count {
                return Err(bad_insertion_index(index));
            }
            let letters = characters(source);
            let place = match find_item_place(&letters, &document, &sequence, index, count) {
                Ok(value) => value,
                Err(error) => return Err(error),
            };
            let indent = match sequence_indent(&letters, &document, &sequence) {
                Ok(value) => value,
                Err(error) => return Err(error),
            };
            let text = match render_sequence_item(value, indent.as_str()) {
                Ok(value) => value,
                Err(error) => return Err(error),
            };
            Ok(splice(&letters, place, place, text.as_str()))
        }
        _ => Err(edit_conflict("sequence insert target is not a sequence")),
    }
}

/// The text of an item that is given as text.
pub open spec fn item_source_text(value: Seq<char>, block_style: bool, indent: Seq<char>) -> Seq<char> {
    if block_style {
        crate::code::lines::indented("-\n"@ + crate::code::lines::indented(value, "  "@), indent)
    } else {
        crate::code::lines::indented("- "@ + crate::code::lines::without_line_feeds(value) + "\n"@, indent)
    }
}

/// The source with a new item that is given as text.
pub open spec fn item_source_inserted(
    source: Seq<char>,
    path: PathView,
    index: usize,
    value: Seq<char>,
    block_style: bool,
) -> Result<Seq<char>, CodeErrorView> {
    match edited_node(source, path) {
        Err(error) => Err(error),
        Ok(sequence) => {
            match sequence[Seq::empty()].shape {
                Shape::Sequence(count) => if index > count {
                    Err(insertion_index_error(index))
                } else {
                    match item_place(source, sequence, index as int, count as int) {
                        Err(error) => Err(error),
                        Ok(place) => {
                            match item_indent(source, sequence) {
                                Err(error) => Err(error),
                                Ok(indent) => {
                                    Ok(
                                        crate::code::lines::spliced(
                                            source,
                                            place,
                                            place,
                                            item_source_text(value, block_style, indent),
                                        ),
                                    )

                                },
                            }

                        },
                    }
                },
                _ => Err(conflict("sequence insert target is not a sequence"@)),
            }

        },
    }
}

pub fn insert_sequence_source(source: &str, path: &Path, index: usize, value: &str, block_style: bool) -> (result: Result<
    String,
    CodeError,
    >)
    ensures
        crate::code::form::text_outcome(result) == item_source_inserted(
            source@,
            view::path(*path),
            index,
            value@,
            block_style,
        ),
{
    let (document, sequence) = match node_for_edit(source, path) {
        Ok(value) => value,
        Err(error) => return Err(error),
    };
    match describe(&document, &sequence).shape {
        Shape::Sequence(count) => {
            if index > count {
                return Err(bad_insertion_index(index));
            }
            let letters = characters(source);
            let place = match find_item_place(&letters, &document, &sequence, index, count) {
                Ok(value) => value,
                Err(error) => return Err(error),
            };
            let indent = match sequence_indent(&letters, &document, &sequence) {
                Ok(value) => value,
                Err(error) => return Err(error),
            };
            let body = if block_style {
                let inner = indent_lines(value, "  ");
                concat_two("-\n", inner.as_str())
            } else {
                let inner = trim_line_feeds(value);
                concat_three("- ", inner.as_str(), "\n")
            };
            let text = indent_lines(body.as_str(), indent.as_str());
            Ok(splice(&letters, place, place, text.as_str()))
        }
        _ => Err(edit_conflict("sequence insert target is not a sequence")),
    }
}

/// The texts of several items.
pub open spec fn item_texts(values: Seq<FormView>, from: int, indent: Seq<char>, done: Seq<char>) -> Result<
Seq<char>,
CodeErrorView,
>
    decreases values.len() - from,
{
    if from < 0 || from >= values.len() {
        Ok(done)
    } else {
        match item_text(values[from], indent) {
            Err(error) => Err(error),
            Ok(text) => {
                item_texts(values, from + 1, indent, done + text)

            },
        }
    }
}

fn render_sequence_items(values: &Vec<Form>, indent: &str) -> (result: Result<String, CodeError>)
    ensures
        crate::code::form::text_outcome(result) == item_texts(view::forms(values@), 0, indent@, Seq::empty()),
{
    let ghost all = view::forms(values@);
    let mut done = String::new();
    assert(done@ =~= Seq::<char>::empty());
    let mut i: usize = 0;
    while i < values.len()
        invariant
            i <= values.len(),
            all == view::forms(values@),
            item_texts(all, 0, indent@, Seq::empty()) == item_texts(all, i as int, indent@, done@),
        decreases values.len() - i,
    {
        assert(all[i as int] == view::form(values@[i as int]));
        let text = match render_sequence_item(&values[i], indent) {
            Ok(value) => value,
            Err(error) => return Err(error),
        };
        done.append(text.as_str());
        i += 1;
    }
    Ok(done)
}

/// Where the items that a splice removes end.
pub open spec fn removal_end(source: Seq<char>, sequence: Tree, place: int, start: int, removed: int) -> Result<
int,
CodeErrorView,
> {
    if removed == 0 {
        Ok(place)
    } else {
        match tree::child_tree(sequence, TreeStep::Index((start + removed - 1) as usize)) {
            None => Err(index_missing((start + removed - 1) as usize)),
            Some(item) => {
                match range_of(source, item) {
                    Err(error) => Err(error),
                    Ok(range) => {
                        let end = crate::code::lines::owned_block(source, range.0).1;
                        Ok(if end < place {
                                place
                            } else {
                                end
                        })

                    },
                }
            },
        }
    }
}

/// The source with items of a sequence replaced by others.
pub open spec fn sequence_spliced(
    source: Seq<char>,
    path: PathView,
    start: usize,
    removed: usize,
    values: Seq<FormView>,
) -> Result<Seq<char>, CodeErrorView> {
    match edited_node(source, path) {
        Err(error) => Err(error),
        Ok(sequence) => {
            match sequence[Seq::empty()].shape {
                Shape::Sequence(count) => if start + removed > count {
                    Err(crate::code::source::bad_path("sequence splice range is out of bounds"@))
                } else {
                    match item_place(source, sequence, start as int, count as int) {
                        Err(error) => Err(error),
                        Ok(place) => {
                            match removal_end(source, sequence, place, start as int, removed as int) {
                                Err(error) => Err(error),
                                Ok(end) => {
                                    match item_indent(source, sequence) {
                                        Err(error) => Err(error),
                                        Ok(indent) => {
                                            match item_texts(values, 0, indent, Seq::empty()) {
                                                Err(error) => Err(error),
                                                Ok(text) => {
                                                    Ok(crate::code::lines::spliced(source, place, end, text))

                                                },
                                            }

                                        },
                                    }

                                },
                            }

                        },
                    }
                },
                _ => Err(conflict("sequence splice target is not a sequence"@)),
            }

        },
    }
}

pub fn splice_sequence(source: &str, path: &Path, start: usize, delete_count: usize, values: &Vec<Form>) -> (result: Result<
    String,
    CodeError,
    >)
    ensures
        crate::code::form::text_outcome(result) == sequence_spliced(
            source@,
            view::path(*path),
            start,
            delete_count,
            view::forms(values@),
        ),
{
    let (document, sequence) = match node_for_edit(source, path) {
        Ok(value) => value,
        Err(error) => return Err(error),
    };
    match describe(&document, &sequence).shape {
        Shape::Sequence(count) => {
            if start > count || delete_count > count - start {
                return Err(path_error(owned("sequence splice range is out of bounds")));
            }
            let letters = characters(source);
            let place = match find_item_place(&letters, &document, &sequence, start, count) {
                Ok(value) => value,
                Err(error) => return Err(error),
            };
            let end: usize = if delete_count == 0 {
                place
            } else {
                let item = match item_at(&document, &sequence, start + delete_count - 1) {
                    Some(item) => item,
                    None => return Err(missing_index(start + delete_count - 1)),
                };
                let range = match node_range(&letters, &document, &item) {
                    Ok(value) => value,
                    Err(error) => return Err(error),
                };
                let block = block_of(&letters, range.0);
                if block.1 < place {
                    place
                } else {
                    block.1
                }
            };
            let indent = match sequence_indent(&letters, &document, &sequence) {
                Ok(value) => value,
                Err(error) => return Err(error),
            };
            let text = match render_sequence_items(values, indent.as_str()) {
                Ok(value) => value,
                Err(error) => return Err(error),
            };
            Ok(splice(&letters, place, end, text.as_str()))
        }
        _ => Err(edit_conflict("sequence splice target is not a sequence")),
    }
}

// Taking a value out.

/// Whether a value stands on lines of its own below its key or its dash.
pub open spec fn stands_below(source: Seq<char>, parsed: Option<Tree>, path: PathView, start: int) -> bool {
    match crate::code::path::parent_of(path) {
        None => false,
        Some(container) => match crate::code::source::node_in(parsed, container) {
            Err(_) => false,
            Ok(parent) => match (parent[Seq::empty()].shape, path.segments.last()) {
                (Shape::Mapping(_), SegmentView::Key(key)) => match tree::matching_key_tree(parent, key) {
                    None => false,
                    Some(node) => match range_of(source, node) {
                        Err(_) => false,
                        Ok(range) => crate::code::lines::line_start(source, range.0) != crate::code::lines::line_start(
                            source,
                            start,
                        ),
                    },
                },
                (Shape::Sequence(_), SegmentView::Index(_)) => !source.subrange(
                    crate::code::lines::line_start(source, start),
                    start,
                ).contains('-'),
                _ => false,
            },
        },
    }
}

fn is_block_style(
    source: &Vec<char>,
    document: &yaml_edit::Document,
    path: &Path,
    start: usize,
) -> (result: bool)
    requires
        start <= source@.len(),
    ensures
        result == stands_below(source@, tree::root_among(tree::document_roots(*document)), view::path(*path), start as int),
{
    let container = match path.parent() {
        Some(container) => container,
        None => return false,
    };
    let leaf = match path.last() {
        Some(leaf) => leaf,
        None => return false,
    };
    let parent = match node_at_path(document, &container) {
        Ok(parent) => parent,
        Err(_) => return false,
    };
    match (describe(document, &parent).shape, leaf) {
        (Shape::Mapping(_), Segment::Key(key)) => match matching_key(document, &parent, key.as_str()) {
            None => false,
            Some(node) => match node_range(source, document, &node) {
                Err(_) => false,
                Ok(range) => find_line_start(source, range.0) != find_line_start(source, start),
            },
        },
        (Shape::Sequence(_), Segment::Index(_)) => {
            let line: usize = find_line_start(source, start);
            let before = text_of(source, line, start);
            !has_char(before.as_str(), '-')
        }
        _ => false,
    }
}

/// Lines put together, all but the first without an indentation.
pub open spec fn outdented(lines: Seq<Seq<char>>, count: int, indent: Seq<char>) -> Seq<char>
    decreases count,
{
    if count <= 0 || count > lines.len() {
        Seq::empty()
    } else {
        let line = lines[count - 1];
        outdented(lines, count - 1, indent) + (if count > 1 && crate::text::has_prefix(line, indent) {
                line.skip(indent.len() as int)
            } else {
                line
        })
    }
}

fn outdent(text: &str, indent: &str) -> (result: String)
    ensures
        result@ == outdented(
            crate::code::lines::full_lines(text@),
            crate::code::lines::full_lines(text@).len() as int,
            indent@,
        ),
{
    let lines = split_lines(text);
    let ghost all = crate::code::lines::full_lines(text@);
    assert(crate::lowered::view::texts(lines@).len() == lines@.len());
    let width = characters(indent);
    let mut done = String::new();
    assert(done@ =~= outdented(all, 0, indent@));
    let mut i: usize = 0;
    while i < lines.len()
        invariant
            i <= lines.len(),
            all.len() == lines@.len(),
            crate::lowered::view::texts(lines@) == all,
            width@ == indent@,
            done@ == outdented(all, i as int, indent@),
        decreases lines.len() - i,
    {
        assert(all[i as int] == lines@[i as int]@);
        if i > 0 && starts_with(lines[i].as_str(), indent) {
            let letters = characters(lines[i].as_str());
            let rest = text_of(&letters, width.len(), letters.len());
            assert(rest@ =~= all[i as int].skip(indent@.len() as int));
            done.append(rest.as_str());
        } else {
            done.append(lines[i].as_str());
        }
        i += 1;
    }
    done
}

/// The text of the value at a path without its indentation, and whether it
/// stands on lines of its own.
pub open spec fn extracted(source: Seq<char>, path: PathView) -> Result<(Seq<char>, bool), CodeErrorView> {
    match parsed_for_edit(source) {
        Err(error) => Err(error),
        Ok(parsed) => {
            match crate::code::source::node_in(parsed, path) {
                Err(error) => Err(error),
                Ok(node) => {
                    match range_of(source, node) {
                        Err(error) => Err(error),
                        Ok(range) => {
                            let block = crate::code::lines::owned_block(source, range.0);
                            let end = if block.1 < range.1 {
                                range.1
                            } else {
                                block.1
                            };
                            let lines = crate::code::lines::full_lines(source.subrange(range.0, end));
                            Ok(
                                (
                                    outdented(
                                        lines,
                                        lines.len() as int,
                                        crate::code::lines::line_indent(source, range.0),
                                    ),
                                    stands_below(source, parsed, path, range.0),
                                ),
                            )

                        },
                    }

                },
            }

        },
    }
}

pub fn extract_source_value(source: &str, path: &Path) -> (result: Result<(String, bool), CodeError>)
    ensures
        extracted(source@, view::path(*path)) == (match result {
                Ok((text, block_style)) => Ok((text@, block_style)),
                Err(error) => Err(view::code_error(error)),
        }),
{
    let document = match open_document(source) {
        Ok(value) => value,
        Err(error) => return Err(error),
    };
    let node = match node_at_path(&document, path) {
        Ok(value) => value,
        Err(error) => return Err(error),
    };
    let letters = characters(source);
    let range = match node_range(&letters, &document, &node) {
        Ok(value) => value,
        Err(error) => return Err(error),
    };
    let block = block_of(&letters, range.0);
    let end: usize = if block.1 < range.1 {
        range.1
    } else {
        block.1
    };
    let indent = indent_of(&letters, range.0);
    let block_style = is_block_style(&letters, &document, path, range.0);
    let body = text_of(&letters, range.0, end);
    Ok((outdent(body.as_str(), indent.as_str()), block_style))
}

/// Where the node at a path begins, or the start of the document.
pub open spec fn offset_of(source: Seq<char>, path: PathView) -> int {
    match edited_node(source, path) {
        Err(_) => 0,
        Ok(node) => match range_of(source, node) {
            Err(_) => 0,
            Ok(range) => range.0,
        },
    }
}

pub fn edit_offset(source: &str, path: &Path) -> (offset: usize)
    ensures
        offset == offset_of(source@, view::path(*path)),
{
    let (document, node) = match node_for_edit(source, path) {
        Ok(node) => node,
        Err(_) => return 0,
    };
    let letters = characters(source);
    match node_range(&letters, &document, &node) {
        Ok(range) => range.0,
        Err(_) => 0,
    }
}

} // verus!
