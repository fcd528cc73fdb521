//! Source documents and their nodes.
use vstd::prelude::*;
use std::hash::{Hash, Hasher};
use crate::code::copy;
use crate::code::form::fail;
use crate::code::model::{
    CodeError, CodeErrorKind, DocumentSnapshot, Entry, Form, Node, NodeKind, NodeLocator, Path, Segment,
    SourceDatabase,
};
use crate::code::tree::{
    self, describe, document_root, entry_key, entry_value, item_at, parse_document, value_for_key, Shape, Tree, TreeStep,
};
use crate::code::view::{
    self, CodeErrorView, DocumentSnapshotView, EntryView, FormView, NodeLocatorView, NodeView, PathView, SegmentView,
    SourceDatabaseView,
};
use crate::code::workspace_path::{is_before, normalize_path};
use crate::text::{concat_three, decimal_text, owned, same_text};
use crate::yaml::read::parse;
use crate::yaml::render::hex_text;

verus! {

// Content hashes.

/// The hash of a text.
pub uninterp spec fn content_digest(text: Seq<char>) -> u64;

/// A text fed by `Hash::hash` to a `DefaultHasher` made by `new`, whose keys are
/// fixed.
#[verifier::external_body]
fn digest(text: &str) -> (result: u64)
    ensures
        result == content_digest(text@),
{
    let mut hasher = std::collections::hash_map::DefaultHasher::new();
    text.hash(&mut hasher);
    hasher.finish()
}

/// The revision of a text: its hash in hexadecimal digits.
pub open spec fn revision_of(text: Seq<char>) -> Seq<char> {
    crate::yaml::render::hex_places(content_digest(text) as int, 16)
}

pub fn content_hash(text: &str) -> (result: String)
    ensures
        result@ == revision_of(text@),
{
    hex_text(digest(text), 16)
}

// Nodes by path.

pub open spec fn outside_subset() -> CodeErrorView {
    crate::code::form::failed(
        CodeErrorKind::InvalidSource,
        "aliases and tagged nodes are outside the Vibra source subset"@,
    )
}

fn unsupported_node() -> (error: CodeError)
    ensures
        view::code_error(error) == outside_subset(),
{
    fail(CodeErrorKind::InvalidSource, "aliases and tagged nodes are outside the Vibra source subset")
}

pub open spec fn bad_path(message: Seq<char>) -> CodeErrorView {
    crate::code::form::failed(CodeErrorKind::InvalidPath, message)
}

pub fn path_error(message: String) -> (error: CodeError)
    ensures
        view::code_error(error) == bad_path(message@),
{
    CodeError::new(CodeErrorKind::InvalidPath, message)
}

/// One step of a path from a node.
pub open spec fn stepped(tree: Tree, segment: SegmentView) -> Result<Tree, CodeErrorView> {
    match (tree[Seq::empty()].shape, segment) {
        (Shape::Mapping(_), SegmentView::Key(key)) => match tree::child_tree(tree, TreeStep::Key(key)) {
            Some(child) => Ok(child),
            None => Err(bad_path("mapping key `"@ + key + "` does not exist"@)),
        },
        (Shape::Sequence(_), SegmentView::Index(index)) => match tree::child_tree(tree, TreeStep::Index(index)) {
            Some(child) => Ok(child),
            None => Err(bad_path("sequence index `"@ + crate::text::decimal(index as nat) + "` is out of bounds"@)),
        },
        (Shape::Mapping(_), SegmentView::Index(index)) => Err(
            bad_path("cannot use index `"@ + crate::text::decimal(index as nat) + "` on a mapping"@),
        ),
        (Shape::Sequence(_), SegmentView::Key(key)) => Err(bad_path("cannot use key `"@ + key + "` on a sequence"@)),
        (Shape::Scalar, _) => Err(bad_path("cannot descend through a scalar"@)),
        _ => Err(outside_subset()),
    }
}

/// The node that a path leads to from a node.
pub open spec fn located(tree: Tree, segments: Seq<SegmentView>, from: int) -> Result<Tree, CodeErrorView>
    decreases segments.len() - from,
{
    if from < 0 || from >= segments.len() {
        Ok(tree)
    } else {
        match stepped(tree, segments[from]) {
            Err(error) => Err(error),
            Ok(child) => {
                located(child, segments, from + 1)

            },
        }
    }
}

/// The root of a parsed document.
pub open spec fn root_tree(parsed: Option<Tree>) -> Result<Tree, CodeErrorView> {
    match parsed {
        Some(tree) => Ok(tree),
        None => Err(crate::code::form::failed(CodeErrorKind::InvalidSource, "source document has no root node"@)),
    }
}

/// The node at a path of a parsed document.
pub open spec fn node_in(parsed: Option<Tree>, path: PathView) -> Result<Tree, CodeErrorView> {
    match root_tree(parsed) {
        Err(error) => Err(error),
        Ok(tree) => {
            located(tree, path.segments, 0)

        },
    }
}

pub open spec fn tree_outcome(result: Result<yaml_edit::YamlNode, CodeError>) -> Result<Tree, CodeErrorView> {
    match result {
        Ok(node) => Ok(tree::node_contents(node)),
        Err(error) => Err(view::code_error(error)),
    }
}

fn step(document: &yaml_edit::Document, node: &yaml_edit::YamlNode, segment: &Segment) -> (result: Result<
    yaml_edit::YamlNode,
    CodeError,
>)
    requires
        tree::place_within(*document, *node) is Some,
    ensures
        tree_outcome(result) == stepped(tree::node_contents(*node), view::segment(*segment)),
        match result {
            Ok(child) => tree::stands_below(*document, *node, tree::step_of(view::segment(*segment)), Some(child)),
            Err(_) => true,
        },
{
    match (describe(document, node).shape, segment) {
        (Shape::Mapping(_), Segment::Key(key)) => match value_for_key(document, node, key.as_str()) {
            Some(child) => Ok(child),
            None => Err(path_error(concat_three("mapping key `", key.as_str(), "` does not exist"))),
        },
        (Shape::Sequence(_), Segment::Index(index)) => match item_at(document, node, *index) {
            Some(child) => Ok(child),
            None => {
                let place = decimal_text(*index as u64);
                Err(path_error(concat_three("sequence index `", place.as_str(), "` is out of bounds")))
            }
        },
        (Shape::Mapping(_), Segment::Index(index)) => {
            let place = decimal_text(*index as u64);
            Err(path_error(concat_three("cannot use index `", place.as_str(), "` on a mapping")))
        }
        (Shape::Sequence(_), Segment::Key(key)) => Err(
            path_error(concat_three("cannot use key `", key.as_str(), "` on a sequence")),
        ),
        (Shape::Scalar, _) => Err(path_error(owned("cannot descend through a scalar"))),
        _ => Err(unsupported_node()),
    }
}

/// The node at a path below the root of a parsed document.
pub(crate) fn node_at_path(document: &yaml_edit::Document, path: &Path) -> (result: Result<
    yaml_edit::YamlNode,
    CodeError,
>)
    ensures
        tree_outcome(result) == node_in(tree::root_among(tree::document_roots(*document)), view::path(*path)),
        match result {
            Ok(node) => tree::place_within(*document, node) == Some(tree::steps_of(view::path(*path).segments)),
            Err(_) => true,
        },
{
    let mut node = match document_root(document) {
        Some(node) => node,
        None => return Err(fail(CodeErrorKind::InvalidSource, "source document has no root node")),
    };
    let ghost tree = tree::node_contents(node);
    let ghost all = view::path(*path).segments;
    let ghost steps = tree::steps_of(all);
    assert(all.len() == path.segments@.len());
    assert(steps.take(0) =~= Seq::<TreeStep>::empty());
    let mut i: usize = 0;
    while i < path.segments.len()
        invariant
            i <= path.segments.len(),
            all == view::path(*path).segments,
            all.len() == path.segments@.len(),
            steps == tree::steps_of(all),
            tree::place_within(*document, node) == Some(steps.take(i as int)),
            located(tree, all, 0) == located(tree::node_contents(node), all, i as int),
            node_in(tree::root_among(tree::document_roots(*document)), view::path(*path)) == located(tree, all, 0),
        decreases path.segments.len() - i,
    {
        assert(all[i as int] == view::segment(path.segments@[i as int]));
        let child = match step(document, &node, &path.segments[i]) {
            Ok(value) => value,
            Err(error) => return Err(error),
        };
        assert(steps.take(i as int).push(steps[i as int]) =~= steps.take(i + 1));
        node = child;
        i += 1;
    }
    assert(steps.take(i as int) =~= steps);
    Ok(node)
}

pub open spec fn kind_of(shape: Shape) -> Result<NodeKind, CodeErrorView> {
    match shape {
        Shape::Scalar => Ok(NodeKind::Scalar),
        Shape::Mapping(_) => Ok(NodeKind::Mapping),
        Shape::Sequence(_) => Ok(NodeKind::Sequence),
        _ => Err(outside_subset()),
    }
}

fn node_kind(shape: Shape) -> (result: Result<NodeKind, CodeError>)
    ensures
        kind_of(shape) == (match result {
                Ok(kind) => Ok(kind),
                Err(error) => Err(view::code_error(error)),
        }),
{
    match shape {
        Shape::Scalar => Ok(NodeKind::Scalar),
        Shape::Mapping(_) => Ok(NodeKind::Mapping),
        Shape::Sequence(_) => Ok(NodeKind::Sequence),
        _ => Err(unsupported_node()),
    }
}

// Forms of nodes.

/// How deep the nodes of a document may be nested. The YAML library reads less
/// deep.
pub const NESTING_LIMIT: usize = 1024;

pub open spec fn too_deep() -> CodeErrorView {
    crate::code::form::failed(CodeErrorKind::InvalidSource, "source document is nested too deeply"@)
}

fn nested_too_deeply() -> (error: CodeError)
    ensures
        view::code_error(error) == too_deep(),
{
    fail(CodeErrorKind::InvalidSource, "source document is nested too deeply")
}

/// The form of a node, down to a depth.
pub open spec fn form_of(tree: Tree, depth: nat) -> Result<FormView, CodeErrorView>
    decreases depth, 0int, 0int,
{
    if depth == 0 {
        Err(too_deep())
    } else {
        match tree[Seq::empty()].shape {
            Shape::Scalar => crate::code::form::parsed_form(tree[Seq::empty()].text),
            Shape::Mapping(count) => {
                match entry_forms(tree, 0, count as int, Seq::empty(), (depth - 1) as nat) {
                    Err(error) => Err(error),
                    Ok(entries) => {
                        Ok(FormView::Mapping(entries))

                    },
                }
            },
            Shape::Sequence(count) => {
                match item_forms(tree, 0, count as int, Seq::empty(), (depth - 1) as nat) {
                    Err(error) => Err(error),
                    Ok(items) => {
                        Ok(FormView::Sequence(items))

                    },
                }
            },
            _ => Err(outside_subset()),
        }
    }
}

pub open spec fn item_forms(tree: Tree, from: int, count: int, done: Seq<FormView>, depth: nat) -> Result<
Seq<FormView>,
CodeErrorView,
>
    decreases depth, 1int, count - from,
{
    if from >= count {
        Ok(done)
    } else {
        match tree::child_tree(tree, TreeStep::Index(from as usize)) {
            None => item_forms(tree, from + 1, count, done, depth),
            Some(child) => {
                match form_of(child, depth) {
                    Err(error) => Err(error),
                    Ok(form) => {
                        item_forms(tree, from + 1, count, done.push(form), depth)

                    },
                }
            },
        }
    }
}

pub open spec fn entry_forms(tree: Tree, from: int, count: int, done: Seq<EntryView>, depth: nat) -> Result<
Seq<EntryView>,
CodeErrorView,
>
    decreases depth, 1int, count - from,
{
    if from >= count {
        Ok(done)
    } else {
        match (
            tree::child_tree(tree, TreeStep::EntryKey(from as usize)),
            tree::child_tree(tree, TreeStep::EntryValue(from as usize)),
        ) {
            (Some(key), Some(value)) => {
                match form_of(key, depth) {
                    Err(error) => Err(error),
                    Ok(key) => {
                        match key {
                            FormView::String(key) => {
                                match form_of(value, depth) {
                                    Err(error) => Err(error),
                                    Ok(value) => {
                                        entry_forms(tree, from + 1, count, done.push(EntryView { key, value }), depth)

                                    },
                                }
                            },
                            _ => Err(
                                crate::code::form::failed(
                                    CodeErrorKind::InvalidSource,
                                    "Vibra structural mapping keys must be strings"@,
                                ),
                            ),
                        }

                    },
                }
            },
            _ => entry_forms(tree, from + 1, count, done, depth),
        }
    }
}

fn read_items(
    document: &yaml_edit::Document,
    node: &yaml_edit::YamlNode,
    count: usize,
    depth: usize,
) -> (result: Result<Vec<Form>, CodeError>)
    requires
        tree::place_within(*document, *node) is Some,
    ensures
        item_forms(tree::node_contents(*node), 0, count as int, Seq::empty(), depth as nat) == (match result {
                Ok(forms) => Ok(view::forms(forms@)),
                Err(error) => Err(view::code_error(error)),
        }),
    decreases depth, 1int,
{
    let ghost tree = tree::node_contents(*node);
    let mut done: Vec<Form> = Vec::new();
    assert(view::forms(done@) =~= Seq::<FormView>::empty());
    let mut i: usize = 0;
    while i < count
        invariant
            i <= count,
            tree == tree::node_contents(*node),
            tree::place_within(*document, *node) is Some,
            item_forms(tree, 0, count as int, Seq::empty(), depth as nat) == item_forms(
                tree,
                i as int,
                count as int,
                view::forms(done@),
                depth as nat,
            ),
        decreases count - i,
    {
        match item_at(document, node, i) {
            Some(child) => {
                let form = match form_from_yaml_node(document, &child, depth) {
                    Ok(value) => value,
                    Err(error) => return Err(error),
                };
                let ghost before = done@;
                done.push(form);
                proof {
                    view::lemma_forms_push(before, done@.last());
                }
            }
            None => {}
        }
        i += 1;
    }
    Ok(done)
}

fn read_entries(
    document: &yaml_edit::Document,
    node: &yaml_edit::YamlNode,
    count: usize,
    depth: usize,
) -> (result: Result<Vec<Entry>, CodeError>)
    requires
        tree::place_within(*document, *node) is Some,
    ensures
        entry_forms(tree::node_contents(*node), 0, count as int, Seq::empty(), depth as nat) == (match result {
                Ok(entries) => Ok(view::entries(entries@)),
                Err(error) => Err(view::code_error(error)),
        }),
    decreases depth, 1int,
{
    let ghost tree = tree::node_contents(*node);
    let mut done: Vec<Entry> = Vec::new();
    assert(view::entries(done@) =~= Seq::<EntryView>::empty());
    let mut i: usize = 0;
    while i < count
        invariant
            i <= count,
            tree == tree::node_contents(*node),
            tree::place_within(*document, *node) is Some,
            entry_forms(tree, 0, count as int, Seq::empty(), depth as nat) == entry_forms(
                tree,
                i as int,
                count as int,
                view::entries(done@),
                depth as nat,
            ),
        decreases count - i,
    {
        match (entry_key(document, node, i), entry_value(document, node, i)) {
            (Some(key), Some(value)) => {
                let form = match form_from_yaml_node(document, &key, depth) {
                    Ok(value) => value,
                    Err(error) => return Err(error),
                };
                let name = match form {
                    Form::String(name) => name,
                    _ => return Err(
                        fail(CodeErrorKind::InvalidSource, "Vibra structural mapping keys must be strings"),
                    ),
                };
                let inner = match form_from_yaml_node(document, &value, depth) {
                    Ok(value) => value,
                    Err(error) => return Err(error),
                };
                let ghost before = done@;
                done.push(Entry { key: name, value: inner });
                proof {
                    view::lemma_entries_push(before, done@.last());
                }
            }
            _ => {}
        }
        i += 1;
    }
    Ok(done)
}

fn form_from_yaml_node(document: &yaml_edit::Document, node: &yaml_edit::YamlNode, depth: usize) -> (result: Result<Form, CodeError>)
    requires
        tree::place_within(*document, *node) is Some,
    ensures
        crate::code::form::form_outcome(result) == form_of(tree::node_contents(*node), depth as nat),
    decreases depth, 0int,
{
    if depth == 0 {
        return Err(nested_too_deeply());
    }
    let found = describe(document, node);
    match found.shape {
        Shape::Scalar => Form::parse(found.text.as_str()),
        Shape::Mapping(count) => {
            let entries = match read_entries(document, node, count, depth - 1) {
                Ok(value) => value,
                Err(error) => return Err(error),
            };
            Ok(Form::Mapping(entries))
        }
        Shape::Sequence(count) => {
            let items = match read_items(document, node, count, depth - 1) {
                Ok(value) => value,
                Err(error) => return Err(error),
            };
            Ok(Form::Sequence(items))
        }
        _ => Err(unsupported_node()),
    }
}

// Documents.

/// The node of a document at a path.
pub open spec fn node_of(document: DocumentSnapshotView, path: PathView) -> Result<NodeView, CodeErrorView> {
    match tree::parsed_source(document.source) {
        Err(message) => Err(
            crate::code::form::in_document(
                crate::code::form::failed(CodeErrorKind::InvalidSource, "parse "@ + document.path + ": "@ + message),
                document.path,
            ),
        ),
        Ok(parsed) => match node_in(parsed, path) {
            Err(error) => Err(
                crate::code::form::on_path(crate::code::form::in_document(error, document.path), path),
            ),
            Ok(tree) => {
                match form_of(tree, NESTING_LIMIT as nat) {
                    Err(error) => Err(error),
                    Ok(form) => {
                        match kind_of(tree[Seq::empty()].shape) {
                            Err(error) => Err(error),
                            Ok(kind) => {
                                Ok(
                                    NodeView {
                                        locator: NodeLocatorView {
                                            document: document.path,
                                            revision: document.revision,
                                            path,
                                            fingerprint: revision_of(tree[Seq::empty()].text),
                                        },
                                        kind,
                                        source: tree[Seq::empty()].text,
                                        form,
                                        document_source: document.source,
                                    },
                                )

                            },
                        }

                    },
                }
            },
        },
    }
}

pub open spec fn node_outcome(result: Result<Node, CodeError>) -> Result<NodeView, CodeErrorView> {
    match result {
        Ok(node) => Ok(view::code_node(node)),
        Err(error) => Err(view::code_error(error)),
    }
}

pub open spec fn nodes_outcome(result: Result<Vec<Node>, CodeError>) -> Result<Seq<NodeView>, CodeErrorView> {
    match result {
        Ok(nodes) => Ok(view::code_nodes(nodes@)),
        Err(error) => Err(view::code_error(error)),
    }
}

impl DocumentSnapshot {
    pub fn path(&self) -> (path: &str)
        ensures
            path@ == view::document_snapshot(*self).path,
    {
        self.path.as_str()
    }

    pub fn source(&self) -> (source: &str)
        ensures
            source@ == view::document_snapshot(*self).source,
    {
        self.source.as_str()
    }

    pub fn revision(&self) -> (revision: &str)
        ensures
            revision@ == view::document_snapshot(*self).revision,
    {
        self.revision.as_str()
    }

    pub fn root(&self) -> (result: Result<Node, CodeError>)
        ensures
            node_outcome(result) == node_of(view::document_snapshot(*self), crate::code::path::root_path()),
    {
        self.at(&Path::root())
    }

    /// The node at a path.
    pub fn at(&self, path: &Path) -> (result: Result<Node, CodeError>)
        ensures
            node_outcome(result) == node_of(view::document_snapshot(*self), view::path(*path)),
    {
        let document = match parse_document(self.source.as_str()) {
            Ok(document) => document,
            Err(message) => {
                let mut text = concat_three("parse ", self.path.as_str(), ": ");
                text.append(message.as_str());
                return Err(CodeError::new(CodeErrorKind::InvalidSource, text).at_document(self.path.clone()));
            }
        };
        let node = match node_at_path(&document, path) {
            Ok(node) => node,
            Err(error) => return Err(error.at_document(self.path.clone()).at_path(copy::path(path))),
        };
        let found = describe(&document, &node);
        let form = match form_from_yaml_node(&document, &node, NESTING_LIMIT) {
            Ok(value) => value,
            Err(error) => return Err(error),
        };
        let kind = match node_kind(found.shape) {
            Ok(value) => value,
            Err(error) => return Err(error),
        };
        let fingerprint = content_hash(found.text.as_str());
        Ok(
            Node {
                locator: NodeLocator {
                    document: self.path.clone(),
                    revision: self.revision.clone(),
                    path: copy::path(path),
                    fingerprint,
                },
                kind,
                source: found.text,
                form,
                document_source: self.source.clone(),
            },
        )
    }
}

// Children.

/// The document that a node was read from.
pub open spec fn document_of(node: NodeView) -> DocumentSnapshotView {
    DocumentSnapshotView {
        path: node.locator.document,
        source: node.document_source,
        revision: node.locator.revision,
    }
}

/// The steps from a node to its children.
pub open spec fn child_segments(form: FormView) -> Seq<SegmentView> {
    match form {
        FormView::Mapping(entries) => Seq::new(entries.len(), |i: int| SegmentView::Key(entries[i].key)),
        FormView::Sequence(items) => Seq::new(items.len(), |i: int| SegmentView::Index(i as usize)),
        _ => Seq::empty(),
    }
}

pub open spec fn nodes_below(
    document: DocumentSnapshotView,
    path: PathView,
    segments: Seq<SegmentView>,
    from: int,
    done: Seq<NodeView>,
) -> Result<Seq<NodeView>, CodeErrorView>
    decreases segments.len() - from,
{
    if from < 0 || from >= segments.len() {
        Ok(done)
    } else {
        match node_of(document, crate::code::path::child_of(path, segments[from])) {
            Err(error) => Err(error),
            Ok(node) => {
                nodes_below(document, path, segments, from + 1, done.push(node))

            },
        }
    }
}

pub open spec fn children_of(node: NodeView) -> Result<Seq<NodeView>, CodeErrorView> {
    nodes_below(document_of(node), node.locator.path, child_segments(node.form), 0, Seq::empty())
}

fn segments_of(form: &Form) -> (segments: Vec<Segment>)
    ensures
        view::segments(segments@) == child_segments(view::form(*form)),
{
    let mut done: Vec<Segment> = Vec::new();
    let ghost expected = child_segments(view::form(*form));
    match form {
        Form::Mapping(entries) => {
            assert(view::entries(entries@).len() == entries@.len());
            let mut i: usize = 0;
            while i < entries.len()
                invariant
                    i <= entries.len(),
                    done.len() == i,
                    expected == child_segments(FormView::Mapping(view::entries(entries@))),
                    view::entries(entries@).len() == entries@.len(),
                    forall|j: int| 0 <= j < i ==> view::segments(done@)[j] == expected[j],
                decreases entries.len() - i,
            {
                assert(view::entries(entries@)[i as int] == view::entry(entries@[i as int]));
                let ghost before = done@;
                done.push(Segment::Key(entries[i].key.clone()));
                proof {
                    view::lemma_segments_push(before, done@.last());
                }
                i += 1;
            }
        }
        Form::Sequence(items) => {
            assert(view::forms(items@).len() == items@.len());
            let mut i: usize = 0;
            while i < items.len()
                invariant
                    i <= items.len(),
                    done.len() == i,
                    expected == child_segments(FormView::Sequence(view::forms(items@))),
                    view::forms(items@).len() == items@.len(),
                    forall|j: int| 0 <= j < i ==> view::segments(done@)[j] == expected[j],
                decreases items.len() - i,
            {
                let ghost before = done@;
                done.push(Segment::Index(i));
                proof {
                    view::lemma_segments_push(before, done@.last());
                }
                i += 1;
            }
        }
        _ => {}
    }
    assert(view::segments(done@) =~= expected);
    done
}

impl Node {
    pub fn locator(&self) -> (locator: NodeLocator)
        ensures
            view::node_locator(locator) == view::code_node(*self).locator,
    {
        copy::node_locator(&self.locator)
    }

    pub fn document(&self) -> (document: &str)
        ensures
            document@ == view::code_node(*self).locator.document,
    {
        self.locator.document.as_str()
    }

    pub fn revision(&self) -> (revision: &str)
        ensures
            revision@ == view::code_node(*self).locator.revision,
    {
        self.locator.revision.as_str()
    }

    pub fn path(&self) -> (path: &Path)
        ensures
            view::path(*path) == view::code_node(*self).locator.path,
    {
        &self.locator.path
    }

    pub fn fingerprint(&self) -> (fingerprint: &str)
        ensures
            fingerprint@ == view::code_node(*self).locator.fingerprint,
    {
        self.locator.fingerprint.as_str()
    }

    pub fn kind(&self) -> (kind: NodeKind)
        ensures
            kind == view::code_node(*self).kind,
    {
        self.kind
    }

    pub fn source(&self) -> (source: &str)
        ensures
            source@ == view::code_node(*self).source,
    {
        self.source.as_str()
    }

    pub fn form(&self) -> (form: &Form)
        ensures
            view::form(*form) == view::code_node(*self).form,
    {
        &self.form
    }

    /// The node that holds this one, read from a document.
    pub fn parent(&self, document: &DocumentSnapshot) -> (result: Result<Option<Node>, CodeError>)
        ensures
            match crate::code::path::parent_of(view::code_node(*self).locator.path) {
                None => result == Ok::<Option<Node>, CodeError>(None),
                Some(path) => match result {
                    Ok(Some(node)) => node_of(view::document_snapshot(*document), path)
                        == Ok::<NodeView, CodeErrorView>(
                        view::code_node(node),
                    ),
                    Ok(None) => false,
                    Err(error) => node_of(view::document_snapshot(*document), path) == Err::<NodeView, CodeErrorView>(
                        view::code_error(error),
                    ),
                },
            },
    {
        match self.locator.path.parent() {
            None => Ok(None),
            Some(path) => match document.at(&path) {
                Ok(node) => Ok(Some(node)),
                Err(error) => Err(error),
            },
        }
    }

    /// The nodes directly below this one.
    pub fn children(&self) -> (result: Result<Vec<Node>, CodeError>)
        ensures
            nodes_outcome(result) == children_of(view::code_node(*self)),
    {
        let segments = segments_of(&self.form);
        let document = DocumentSnapshot {
            path: self.locator.document.clone(),
            source: self.document_source.clone(),
            revision: self.locator.revision.clone(),
        };
        let ghost given = view::code_node(*self);
        let ghost all = view::segments(segments@);
        let mut done: Vec<Node> = Vec::new();
        assert(view::code_nodes(done@) =~= Seq::<NodeView>::empty());
        let mut i: usize = 0;
        while i < segments.len()
            invariant
                i <= segments.len(),
                given == view::code_node(*self),
                view::document_snapshot(document) == document_of(given),
                all == view::segments(segments@),
                all == child_segments(given.form),
                children_of(given) == nodes_below(
                    document_of(given),
                    given.locator.path,
                    all,
                    i as int,
                    view::code_nodes(done@),
                ),
            decreases segments.len() - i,
        {
            assert(all[i as int] == view::segment(segments@[i as int]));
            let path = self.locator.path.child(copy::segment(&segments[i]));
            let node = match document.at(&path) {
                Ok(value) => value,
                Err(error) => return Err(error),
            };
            let ghost before = done@;
            done.push(node);
            proof {
                view::lemma_code_nodes_push(before, done@.last());
            }
            i += 1;
        }
        Ok(done)
    }
}

// The database.

/// Where a document stands.
pub open spec fn document_place(documents: Seq<DocumentSnapshotView>, from: int, path: Seq<char>) -> Option<int>
    decreases documents.len() - from,
{
    if from < 0 || from >= documents.len() {
        None
    } else if documents[from].path == path {
        Some(from)
    } else {
        document_place(documents, from + 1, path)
    }
}

pub proof fn lemma_document_place(documents: Seq<DocumentSnapshotView>, from: int, path: Seq<char>)
    ensures
        match document_place(documents, from, path) {
            Some(place) => from <= place < documents.len() && documents[place].path == path,
            None => true,
        },
    decreases documents.len() - from,
{
    if 0 <= from < documents.len() && documents[from].path != path {
        lemma_document_place(documents, from + 1, path);
    }
}

pub open spec fn missing_document(path: Seq<char>) -> CodeErrorView {
    crate::code::form::in_document(
        crate::code::form::failed(
            CodeErrorKind::DocumentNotFound,
            "source document `"@ + path + "` does not exist"@,
        ),
        path,
    )
}

/// The document at a path.
pub open spec fn document_in(database: SourceDatabaseView, path: Seq<char>) -> Result<DocumentSnapshotView, CodeErrorView> {
    let normal = crate::code::workspace_path::normal_path(path);
    match document_place(database.documents, 0, normal) {
        Some(place) => Ok(database.documents[place]),
        None => Err(missing_document(normal)),
    }
}

/// The documents with one put in its place: instead of one at the same path, or
/// before the first one behind it.
pub open spec fn with_document(
    documents: Seq<DocumentSnapshotView>,
    from: int,
    document: DocumentSnapshotView,
) -> Seq<
DocumentSnapshotView,
>
    decreases documents.len() - from,
{
    if from < 0 || from >= documents.len() {
        documents.push(document)
    } else if documents[from].path == document.path {
        documents.update(from, document)
    } else if crate::code::workspace_path::path_precedes(documents[from].path, document.path) {
        with_document(documents, from + 1, document)
    } else {
        documents.insert(from, document)
    }
}

/// What stands against taking a source in.
pub open spec fn source_error(path: Seq<char>, source: Seq<char>) -> Option<CodeErrorView> {
    match tree::parsed_source(source) {
        Err(message) => Some(
            crate::code::form::in_document(
                crate::code::form::failed(CodeErrorKind::InvalidSource, "parse "@ + path + ": "@ + message),
                path,
            ),
        ),
        Ok(_) => match crate::yaml::read::parsed_yaml(source) {
            Err(message) => Some(
                crate::code::form::in_document(
                    crate::code::form::failed(
                        CodeErrorKind::InvalidSource,
                        "parse annotations in "@ + path + ": "@ + message,
                    ),
                    path,
                ),
            ),
            Ok(value) => match crate::annotations::annotation_error(value) {
                Some(message) => Some(
                    crate::code::form::in_document(
                        crate::code::form::failed(CodeErrorKind::InvalidSource, message),
                        path,
                    ),
                ),
                None => None,
            },
        },
    }
}

pub open spec fn source_views(sources: Seq<(String, String)>) -> Seq<(Seq<char>, Seq<char>)> {
    Seq::new(sources.len(), |i: int| (sources[i].0@, sources[i].1@))
}

pub open spec fn snapshot_of(path: Seq<char>, source: Seq<char>) -> DocumentSnapshotView {
    DocumentSnapshotView {
        path: crate::code::workspace_path::normal_path(path),
        source,
        revision: revision_of(source),
    }
}

/// The documents of sources, or the first complaint.
pub open spec fn documents_of(
    sources: Seq<(Seq<char>, Seq<char>)>,
    from: int,
    documents: Seq<DocumentSnapshotView>,
) -> Result<Seq<DocumentSnapshotView>, CodeErrorView>
    decreases sources.len() - from,
{
    if from < 0 || from >= sources.len() {
        Ok(documents)
    } else {
        match source_error(sources[from].0, sources[from].1) {
            Some(error) => Err(error),
            None => documents_of(
                sources,
                from + 1,
                with_document(documents, 0, snapshot_of(sources[from].0, sources[from].1)),
            ),
        }
    }
}

pub open spec fn document_outcome(result: Result<DocumentSnapshot, CodeError>) -> Result<
DocumentSnapshotView,
CodeErrorView,
> {
    match result {
        Ok(document) => Ok(view::document_snapshot(document)),
        Err(error) => Err(view::code_error(error)),
    }
}

fn validate_source(path: &str, source: &str) -> (result: Result<(), CodeError>)
    ensures
        source_error(path@, source@) == (match result {
                Ok(_) => None,
                Err(error) => Some(view::code_error(error)),
        }),
{
    match parse_document(source) {
        Ok(_) => {}
        Err(message) => {
            let mut text = concat_three("parse ", path, ": ");
            text.append(message.as_str());
            return Err(CodeError::new(CodeErrorKind::InvalidSource, text).at_document(owned(path)));
        }
    }
    let value = match parse(source) {
        Ok(value) => value,
        Err(message) => {
            let mut text = concat_three("parse annotations in ", path, ": ");
            text.append(message.as_str());
            return Err(CodeError::new(CodeErrorKind::InvalidSource, text).at_document(owned(path)));
        }
    };
    match crate::annotations::validate(&value) {
        Ok(_) => Ok(()),
        Err(message) => Err(CodeError::new(CodeErrorKind::InvalidSource, message).at_document(owned(path))),
    }
}

fn put_document(documents: &mut Vec<DocumentSnapshot>, document: DocumentSnapshot)
    ensures
        view::document_snapshots(final(documents)@) == with_document(
            view::document_snapshots(old(documents)@),
            0,
            view::document_snapshot(document),
        ),
{
    let ghost before = documents@;
    let ghost all = view::document_snapshots(before);
    let ghost added = view::document_snapshot(document);
    let mut i: usize = 0;
    while i < documents.len()
        invariant
            i <= documents.len(),
            documents@ == before,
            before == old(documents)@,
            all == view::document_snapshots(before),
            added == view::document_snapshot(document),
            with_document(all, 0, added) == with_document(all, i as int, added),
        decreases documents.len() - i,
    {
        assert(all[i as int] == view::document_snapshot(documents@[i as int]));
        if same_text(documents[i].path.as_str(), document.path.as_str()) {
            documents.set(i, document);
            assert(view::document_snapshots(documents@) =~= all.update(i as int, added));
            return;
        }
        if !is_before(documents[i].path.as_str(), document.path.as_str()) {
            documents.insert(i, document);
            assert(view::document_snapshots(documents@) =~= all.insert(i as int, added));
            return;
        }
        i += 1;
    }
    documents.push(document);
    proof {
        view::lemma_document_snapshots_push(before, document);
    }
}

impl SourceDatabase {
    /// The documents are listed once each, by normal paths in order.
    #[verifier::type_invariant]
    pub open(crate) spec fn in_order(self) -> bool {
        crate::code::database_laws::documents_ascending(view::document_snapshots(self.documents@))
    }

    /// The database of named sources.
    pub fn from_sources(root: String, sources: Vec<(String, String)>) -> (result: Result<SourceDatabase, CodeError>)
        ensures
            match result {
                Ok(database) => view::source_database(database).root == root@ && documents_of(
                    source_views(sources@),
                    0,
                    Seq::empty(),
                ) == Ok::<Seq<DocumentSnapshotView>, CodeErrorView>(view::source_database(database).documents),
                Err(error) => documents_of(source_views(sources@), 0, Seq::empty()) == Err::<
                Seq<DocumentSnapshotView>,
                CodeErrorView,
                >(view::code_error(error)),
            },
    {
        let ghost all = source_views(sources@);
        let mut documents: Vec<DocumentSnapshot> = Vec::new();
        assert(view::document_snapshots(documents@) =~= Seq::<DocumentSnapshotView>::empty());
        let mut i: usize = 0;
        while i < sources.len()
            invariant
                i <= sources.len(),
                crate::code::database_laws::documents_ascending(view::document_snapshots(documents@)),
                all == source_views(sources@),
                documents_of(all, 0, Seq::empty()) == documents_of(
                    all,
                    i as int,
                    view::document_snapshots(documents@),
                ),
            decreases sources.len() - i,
        {
            let path = sources[i].0.as_str();
            let source = sources[i].1.as_str();
            match validate_source(path, source) {
                Ok(_) => {}
                Err(error) => return Err(error),
            }
            let document = DocumentSnapshot {
                path: normalize_path(path),
                source: owned(source),
                revision: content_hash(source),
            };
            proof {
                crate::code::database_laws::law_normal_paths_keep_their_components(path@, path@);
                crate::code::database_laws::lemma_put(
                    view::document_snapshots(documents@),
                    0,
                    view::document_snapshot(document),
                );
            }
            put_document(&mut documents, document);
            i += 1;
        }
        Ok(SourceDatabase { root, documents })
    }

    pub fn root(&self) -> (root: &str)
        ensures
            root@ == view::source_database(*self).root,
    {
        self.root.as_str()
    }

    fn place_of(&self, path: &str) -> (place: Option<usize>)
        ensures
            document_place(view::source_database(*self).documents, 0, path@) == (match place {
                    Some(place) => Some(place as int),
                    None => None,
            }),
            match place {
                Some(place) => place < self.documents@.len(),
                None => true,
            },
    {
        let ghost all = view::source_database(*self).documents;
        let mut i: usize = 0;
        while i < self.documents.len()
            invariant
                i <= self.documents.len(),
                all == view::source_database(*self).documents,
                document_place(all, 0, path@) == document_place(all, i as int, path@),
            decreases self.documents.len() - i,
        {
            assert(all[i as int] == view::document_snapshot(self.documents@[i as int]));
            if same_text(self.documents[i].path.as_str(), path) {
                return Some(i);
            }
            i += 1;
        }
        None
    }

    /// The document at a path.
    pub fn document(&self, path: &str) -> (result: Result<DocumentSnapshot, CodeError>)
        ensures
            document_outcome(result) == document_in(view::source_database(*self), path@),
    {
        let normal = normalize_path(path);
        match self.place_of(normal.as_str()) {
            Some(place) => {
                assert(view::source_database(*self).documents[place as int] == view::document_snapshot(
                        self.documents@[place as int],
                ));
                Ok(copy::document_snapshot(&self.documents[place]))
            }
            None => {
                let message = concat_three("source document `", normal.as_str(), "` does not exist");
                Err(CodeError::new(CodeErrorKind::DocumentNotFound, message).at_document(normal))
            }
        }
    }

    /// The paths of the documents: normal, once each and in order.
    pub fn paths(&self) -> (paths: Vec<String>)
        ensures
            crate::lowered::view::texts(paths@) == document_paths(view::source_database(*self).documents),
            crate::code::database_laws::documents_ascending(view::source_database(*self).documents),
    {
        proof {
            use_type_invariant(self);
        }
        let ghost all = view::source_database(*self).documents;
        assert(all.len() == self.documents@.len());
        let mut done: Vec<String> = Vec::new();
        let mut i: usize = 0;
        while i < self.documents.len()
            invariant
                i <= self.documents.len(),
                done.len() == i,
                all == view::source_database(*self).documents,
                forall|j: int| 0 <= j < i ==> crate::lowered::view::texts(done@)[j] == document_paths(all)[j],
            decreases self.documents.len() - i,
        {
            assert(all[i as int] == view::document_snapshot(self.documents@[i as int]));
            let ghost before = done@;
            done.push(self.documents[i].path.clone());
            proof {
                crate::lowered::view::lemma_texts_push(before, done@.last());
            }
            i += 1;
        }
        assert(crate::lowered::view::texts(done@) =~= document_paths(all));
        done
    }

    /// Replaces the source of the document at a path.
    pub(crate) fn replace_source(&mut self, path: &str, source: &str) -> (result: Result<(), CodeError>)
        ensures
            match result {
                Ok(_) => replaced(view::source_database(*old(self)), path@, source@) == Ok::<
                SourceDatabaseView,
                CodeErrorView,
                >(view::source_database(*final(self))),
                Err(error) => replaced(view::source_database(*old(self)), path@, source@) == Err::<
                SourceDatabaseView,
                CodeErrorView,
                >(view::code_error(error)) && *final(self) == *old(self),
            },
    {
        let ghost before = view::source_database(*self);
        let normal = normalize_path(path);
        match self.place_of(normal.as_str()) {
            Some(place) => {
                assert(before.documents[place as int] == view::document_snapshot(self.documents@[place as int]));
                let document = DocumentSnapshot {
                    path: self.documents[place].path.clone(),
                    source: owned(source),
                    revision: content_hash(source),
                };
                let ghost added = view::document_snapshot(document);
                proof {
                    use_type_invariant(&*self);
                }
                let mut documents: Vec<DocumentSnapshot> = Vec::new();
                std::mem::swap(&mut documents, &mut self.documents);
                documents.set(place, document);
                assert(view::document_snapshots(documents@) =~= before.documents.update(place as int, added));
                self.documents = documents;
                Ok(())
            }
            None => {
                let message = concat_three("source document `", normal.as_str(), "` does not exist");
                Err(CodeError::new(CodeErrorKind::DocumentNotFound, message).at_document(normal))
            }
        }
    }

    pub fn copied(&self) -> (database: SourceDatabase)
        ensures
            view::source_database(database) == view::source_database(*self),
    {
        copy::source_database(self)
    }
}

pub open spec fn document_paths(documents: Seq<DocumentSnapshotView>) -> Seq<Seq<char>> {
    Seq::new(documents.len(), |i: int| documents[i].path)
}

/// The database with the source of a document replaced.
pub open spec fn replaced(database: SourceDatabaseView, path: Seq<char>, source: Seq<char>) -> Result<
SourceDatabaseView,
CodeErrorView,
> {
    let normal = crate::code::workspace_path::normal_path(path);
    match document_place(database.documents, 0, normal) {
        None => Err(missing_document(normal)),
        Some(place) => Ok(
            SourceDatabaseView {
                root: database.root,
                documents: database.documents.update(
                    place,
                    DocumentSnapshotView {
                        path: database.documents[place].path,
                        source,
                        revision: revision_of(source),
                    },
                ),
            },
        ),
    }
}

// Laws.

/// A document that was put in is found with what was put in.
pub proof fn law_documents_are_found_again(database: SourceDatabaseView, path: Seq<char>, source: Seq<char>)
    requires
        replaced(database, path, source) is Ok,
    ensures
        ({
                let after = replaced(database, path, source)->Ok_0;
                &&& document_in(after, path) is Ok
                &&& document_in(after, path)->Ok_0.source == source
                &&& document_in(after, path)->Ok_0.revision == revision_of(source)
        }),
{
    let normal = crate::code::workspace_path::normal_path(path);
    let place = document_place(database.documents, 0, normal)->Some_0;
    let after = replaced(database, path, source)->Ok_0;
    lemma_document_place(database.documents, 0, normal);
    lemma_same_places(database.documents, after.documents, 0, normal);
}

/// Replacing one document leaves the others as they are.
pub proof fn law_other_documents_are_kept(
    database: SourceDatabaseView,
    path: Seq<char>,
    source: Seq<char>,
    other: Seq<char>,
)
    requires
        replaced(database, path, source) is Ok,
        crate::code::workspace_path::normal_path(path) != crate::code::workspace_path::normal_path(other),
    ensures
        document_in(replaced(database, path, source)->Ok_0, other) == document_in(database, other),
{
    let normal = crate::code::workspace_path::normal_path(path);
    let wanted = crate::code::workspace_path::normal_path(other);
    let after = replaced(database, path, source)->Ok_0;
    lemma_document_place(database.documents, 0, normal);
    lemma_document_place(database.documents, 0, wanted);
    lemma_same_places(database.documents, after.documents, 0, wanted);
}

proof fn lemma_same_places(
    left: Seq<DocumentSnapshotView>,
    right: Seq<DocumentSnapshotView>,
    from: int,
    path: Seq<char>,
)
    requires
        left.len() == right.len(),
        forall|i: int| 0 <= i < left.len() ==> (#[trigger] left[i]).path == right[i].path,
    ensures
        document_place(left, from, path) == document_place(right, from, path),
    decreases left.len() - from,
{
    if 0 <= from < left.len() {
        assert(left[from].path == right[from].path);
        lemma_same_places(left, right, from + 1, path);
    }
}

} // verus!
