//! Parsed source documents with the places of their nodes.
use vstd::prelude::*;
use std::str::FromStr;
use crate::code::view::SegmentView;
use crate::execute::strings::utf8_len;
use crate::text::{characters, owned, same_text, text_of};

verus! {

/// A parsed document of the YAML editing library.
#[verifier::external_type_specification]
#[verifier::external_body]
pub struct ExternalDocument(yaml_edit::Document);

/// A node of a parsed document of the YAML editing library.
#[verifier::external_type_specification]
#[verifier::external_body]
pub struct ExternalNode(yaml_edit::YamlNode);

/// What a node is: a scalar, a mapping or a sequence with the number of its
/// entries, or one of the kinds that source documents do not use.
#[derive(Debug, Clone, Copy, PartialEq, Eq, Structural)]
pub enum Shape {
    Scalar,
    Mapping(usize),
    Sequence(usize),
    Alias,
    Tagged,
}

/// One node, without what is below it: its text, the bytes it spans and its
/// form in messages.
#[derive(Debug)]
pub struct Found {
    pub shape: Shape,
    pub text: String,
    pub start: usize,
    pub end: usize,
    pub debug: String,
}

pub struct FoundView {
    pub shape: Shape,
    pub text: Seq<char>,
    pub start: usize,
    pub end: usize,
    pub debug: Seq<char>,
}

impl Found {
    pub open spec fn view(&self) -> FoundView {
        FoundView {
            shape: self.shape,
            text: self.text@,
            start: self.start,
            end: self.end,
            debug: self.debug@,
        }
    }
}

/// One step down into a parsed document: the value of a key, an item of a
/// sequence, and the key and the value of an entry by its position. The last
/// one leads to an entry by its position where its key matches a text.
#[allow(inconsistent_fields)]
pub enum TreeStep {
    Key(Seq<char>),
    Index(usize),
    EntryKey(usize),
    EntryValue(usize),
    Matching(usize, Seq<char>),
}

/// The nodes of a document by the steps that lead to them.
pub type Tree = Map<Seq<TreeStep>, FoundView>;

/// The node and the nodes below it, as they were parsed. Nodes are handles into a
/// document that is edited in place, so that this is what a node reads as for as
/// long as its document has not been edited.
pub uninterp spec fn node_contents(node: yaml_edit::YamlNode) -> Map<Seq<TreeStep>, FoundView>;

/// What a document has at its root: a mapping, a sequence or a scalar.
pub struct Roots {
    pub mapping: Option<Map<Seq<TreeStep>, FoundView>>,
    pub sequence: Option<Map<Seq<TreeStep>, FoundView>>,
    pub scalar: Option<Map<Seq<TreeStep>, FoundView>>,
}

/// What a parsed text has at its root, or the message of the parse error.
pub uninterp spec fn parsed_document(source: Seq<char>) -> Result<Roots, Seq<char>>;

/// What a document has at its root.
pub uninterp spec fn document_roots(document: yaml_edit::Document) -> Roots;

/// The text that a document was parsed from.
pub uninterp spec fn document_source(document: yaml_edit::Document) -> Seq<char>;

/// The steps by which a node was reached from the root of a document, where it
/// was reached in that document.
pub uninterp spec fn place_within(document: yaml_edit::Document, node: yaml_edit::YamlNode) -> Option<Seq<TreeStep>>;

/// The nodes of a document, none where it has no root node, or the message of
/// the parse error.
pub open spec fn parsed_source(source: Seq<char>) -> Result<Option<Tree>, Seq<char>> {
    match parsed_document(source) {
        Ok(roots) => Ok(root_among(roots)),
        Err(message) => Err(message),
    }
}

pub open spec fn root_among(roots: Roots) -> Option<Tree> {
    if roots.mapping is Some {
        roots.mapping
    } else if roots.sequence is Some {
        roots.sequence
    } else {
        roots.scalar
    }
}

/// What is below one step of a document.
pub open spec fn below(tree: Tree, step: TreeStep) -> Tree {
    Map::new(|steps: Seq<TreeStep>| tree.contains_key(seq![step] + steps), |steps: Seq<TreeStep>| tree[seq![step] + steps])
}

pub open spec fn is_child(parent: Tree, step: TreeStep, child: Option<yaml_edit::YamlNode>) -> bool {
    child_tree(parent, step) == contents_of(child)
}

/// What is below one step, if the step leads anywhere.
pub open spec fn child_tree(tree: Tree, step: TreeStep) -> Option<Tree> {
    if tree.contains_key(seq![step]) {
        Some(below(tree, step))
    } else {
        None
    }
}

pub open spec fn contents_of(node: Option<yaml_edit::YamlNode>) -> Option<Tree> {
    match node {
        Some(node) => Some(node_contents(node)),
        None => None,
    }
}

/// Whether a node, if there is one, is the root of a document.
pub open spec fn stands_at_root(document: yaml_edit::Document, node: Option<yaml_edit::YamlNode>) -> bool {
    match node {
        Some(node) => place_within(document, node) == Some(Seq::<TreeStep>::empty()),
        None => true,
    }
}

/// Whether a node, if there is one, stands one step below another in a document.
pub open spec fn stands_below(
    document: yaml_edit::Document,
    parent: yaml_edit::YamlNode,
    step: TreeStep,
    child: Option<yaml_edit::YamlNode>,
) -> bool {
    match child {
        Some(child) => place_within(document, child) == Some(place_within(document, parent)->Some_0.push(step)),
        None => true,
    }
}

/// `yaml_edit::Document::from_str`: the same source gives the same roots, or
/// the same error message.
#[verifier::external_body]
pub(crate) fn parse_document(source: &str) -> (result: Result<yaml_edit::Document, String>)
    ensures
        match result {
            Ok(document) => document_source(document) == source@ && parsed_document(source@) == Ok::<Roots, Seq<char>>(
                document_roots(document),
            ),
            Err(message) => parsed_document(source@) == Err::<Roots, Seq<char>>(message@),
        },
{
    yaml_edit::Document::from_str(source).map_err(|error| error.to_string())
}

/// `yaml_edit::Document::as_mapping`.
#[verifier::external_body]
fn mapping_root(document: &yaml_edit::Document) -> (root: Option<yaml_edit::YamlNode>)
    ensures
        contents_of(root) == document_roots(*document).mapping,
        stands_at_root(*document, root),
{
    document.as_mapping().map(yaml_edit::YamlNode::Mapping)
}

/// `yaml_edit::Document::as_sequence`.
#[verifier::external_body]
fn sequence_root(document: &yaml_edit::Document) -> (root: Option<yaml_edit::YamlNode>)
    ensures
        contents_of(root) == document_roots(*document).sequence,
        stands_at_root(*document, root),
{
    document.as_sequence().map(yaml_edit::YamlNode::Sequence)
}

/// `yaml_edit::Document::as_scalar`.
#[verifier::external_body]
fn scalar_root(document: &yaml_edit::Document) -> (root: Option<yaml_edit::YamlNode>)
    ensures
        contents_of(root) == document_roots(*document).scalar,
        stands_at_root(*document, root),
{
    document.as_scalar().map(yaml_edit::YamlNode::Scalar)
}

/// The root of a document.
pub(crate) fn document_root(document: &yaml_edit::Document) -> (root: Option<yaml_edit::YamlNode>)
    ensures
        contents_of(root) == root_among(document_roots(*document)),
        stands_at_root(*document, root),
{
    let mapping = mapping_root(document);
    if mapping.is_some() {
        return mapping;
    }
    let sequence = sequence_root(document);
    if sequence.is_some() {
        return sequence;
    }
    scalar_root(document)
}

// Readings of nodes. Each takes the document that the node was reached in: an
// edit takes the document away, so that no node is read after one.

/// The variants of `yaml_edit::YamlNode` with `Mapping::entries`,
/// `Sequence::len`, `byte_range` and the node's texts: the node itself.
#[verifier::external_body]
pub(crate) fn describe(document: &yaml_edit::Document, node: &yaml_edit::YamlNode) -> (found: Found)
    requires
        place_within(*document, *node) is Some,
    ensures
        found@ == node_contents(*node)[Seq::empty()],
{
    let shape = match node {
        yaml_edit::YamlNode::Scalar(_) => Shape::Scalar,
        yaml_edit::YamlNode::Mapping(mapping) => Shape::Mapping(mapping.entries().count()),
        yaml_edit::YamlNode::Sequence(sequence) => Shape::Sequence(sequence.len()),
        yaml_edit::YamlNode::Alias(_) => Shape::Alias,
        yaml_edit::YamlNode::TaggedNode(_) => Shape::Tagged,
    };
    let range = node.byte_range();
    let (start, end) = (range.start as usize, range.end as usize);
    Found { shape, text: node.to_string(), start, end, debug: format!("{node:?}") }
}

/// `yaml_edit::Mapping::get`.
#[verifier::external_body]
pub(crate) fn value_for_key(
    document: &yaml_edit::Document,
    node: &yaml_edit::YamlNode,
    key: &str,
) -> (child: Option<yaml_edit::YamlNode>)
    requires
        place_within(*document, *node) is Some,
    ensures
        is_child(node_contents(*node), TreeStep::Key(key@), child),
        stands_below(*document, *node, TreeStep::Key(key@), child),
{
    node.as_mapping()?.get(key)
}

/// `yaml_edit::Sequence::get`.
#[verifier::external_body]
pub(crate) fn item_at(
    document: &yaml_edit::Document,
    node: &yaml_edit::YamlNode,
    index: usize,
) -> (child: Option<yaml_edit::YamlNode>)
    requires
        place_within(*document, *node) is Some,
    ensures
        is_child(node_contents(*node), TreeStep::Index(index), child),
        stands_below(*document, *node, TreeStep::Index(index), child),
{
    node.as_sequence()?.get(index)
}

/// `yaml_edit::MappingEntry::key_node` of the entry at a position.
#[verifier::external_body]
pub(crate) fn entry_key(
    document: &yaml_edit::Document,
    node: &yaml_edit::YamlNode,
    index: usize,
) -> (child: Option<yaml_edit::YamlNode>)
    requires
        place_within(*document, *node) is Some,
    ensures
        is_child(node_contents(*node), TreeStep::EntryKey(index), child),
        stands_below(*document, *node, TreeStep::EntryKey(index), child),
{
    node.as_mapping()?.entries().nth(index)?.key_node()
}

/// `yaml_edit::MappingEntry::value_node` of the entry at a position.
#[verifier::external_body]
pub(crate) fn entry_value(
    document: &yaml_edit::Document,
    node: &yaml_edit::YamlNode,
    index: usize,
) -> (child: Option<yaml_edit::YamlNode>)
    requires
        place_within(*document, *node) is Some,
    ensures
        is_child(node_contents(*node), TreeStep::EntryValue(index), child),
        stands_below(*document, *node, TreeStep::EntryValue(index), child),
{
    node.as_mapping()?.entries().nth(index)?.value_node()
}

/// `yaml_edit::MappingEntry::key_matches` of the entry at a position; false
/// where there is no such entry.
#[verifier::external_body]
fn entry_matches(document: &yaml_edit::Document, node: &yaml_edit::YamlNode, index: usize, key: &str) -> (matched: bool)
    requires
        place_within(*document, *node) is Some,
    ensures
        matched == node_contents(*node).contains_key(seq![TreeStep::Matching(index, key@)]),
{
    node.as_mapping().and_then(|mapping| mapping.entries().nth(index)).is_some_and(|entry| entry.key_matches(key))
}

/// The position of the first entry whose key matches a text.
pub open spec fn matching_place(tree: Tree, key: Seq<char>) -> Option<int> {
    match tree[Seq::empty()].shape {
        Shape::Mapping(count) => matching_from(tree, key, 0, count as int),
        _ => None,
    }
}

pub open spec fn matching_from(tree: Tree, key: Seq<char>, from: int, count: int) -> Option<int>
    decreases count - from,
{
    if from < 0 || from >= count {
        None
    } else if tree.contains_key(seq![TreeStep::Matching(from as usize, key)]) {
        Some(from)
    } else {
        matching_from(tree, key, from + 1, count)
    }
}

/// The key of the first entry that matches a text.
pub open spec fn matching_key_tree(tree: Tree, key: Seq<char>) -> Option<Tree> {
    match matching_place(tree, key) {
        Some(place) => child_tree(tree, TreeStep::EntryKey(place as usize)),
        None => None,
    }
}

/// The position of the first entry whose key matches a text.
pub(crate) fn matching_entry(document: &yaml_edit::Document, node: &yaml_edit::YamlNode, key: &str) -> (place: Option<
    usize,
>)
    requires
        place_within(*document, *node) is Some,
    ensures
        matching_place(node_contents(*node), key@) == (match place {
            Some(place) => Some(place as int),
            None => None,
        }),
{
    let ghost tree = node_contents(*node);
    let count: usize = match describe(document, node).shape {
        Shape::Mapping(count) => count,
        _ => return None,
    };
    let mut i: usize = 0;
    while i < count
        invariant
            i <= count,
            tree == node_contents(*node),
            place_within(*document, *node) is Some,
            matching_place(tree, key@) == matching_from(tree, key@, i as int, count as int),
        decreases count - i,
    {
        if entry_matches(document, node, i, key) {
            return Some(i);
        }
        i += 1;
    }
    None
}

/// The key of the first entry that matches a text.
pub(crate) fn matching_key(document: &yaml_edit::Document, node: &yaml_edit::YamlNode, key: &str) -> (child: Option<
    yaml_edit::YamlNode,
>)
    requires
        place_within(*document, *node) is Some,
    ensures
        contents_of(child) == matching_key_tree(node_contents(*node), key@),
        match child {
            Some(child) => place_within(*document, child) is Some,
            None => true,
        },
{
    match matching_entry(document, node, key) {
        Some(place) => entry_key(document, node, place),
        None => None,
    }
}

pub open spec fn step_of(segment: SegmentView) -> TreeStep {
    match segment {
        SegmentView::Key(key) => TreeStep::Key(key),
        SegmentView::Index(index) => TreeStep::Index(index),
    }
}

/// The steps of a path.
pub open spec fn steps_of(segments: Seq<SegmentView>) -> Seq<TreeStep> {
    segments.map_values(|segment: SegmentView| step_of(segment))
}

// Tokens.

/// The tokens of a text: the name of the kind of each, and its text.
pub uninterp spec fn token_list(source: Seq<char>) -> Seq<(Seq<char>, Seq<char>)>;

pub open spec fn token_views(tokens: Seq<(String, String)>) -> Seq<(Seq<char>, Seq<char>)> {
    tokens.map_values(|token: (String, String)| (token.0@, token.1@))
}

/// `yaml_edit::lex`, with the name of the kind of each token.
#[verifier::external_body]
pub(crate) fn lex_tokens(source: &str) -> (tokens: Vec<(String, String)>)
    ensures
        token_views(tokens@) == token_list(source@),
{
    yaml_edit::lex(source).into_iter().map(|token| (format!("{:?}", token.0), token.1.to_string())).collect()
}

/// Where a token begins in its text, in bytes.
pub open spec fn token_start(tokens: Seq<(Seq<char>, Seq<char>)>, index: int) -> nat
    decreases index,
{
    if index <= 0 || index > tokens.len() {
        0
    } else {
        token_start(tokens, index - 1) + crate::execute::strings::byte_len(tokens[index - 1].1)
    }
}

/// What an anchor and the aliases to it share: their text behind the first
/// character.
pub open spec fn anchor_name(text: Seq<char>) -> Seq<char> {
    if text.len() == 0 {
        text
    } else {
        text.skip(1)
    }
}

pub open spec fn is_anchor(tokens: Seq<(Seq<char>, Seq<char>)>, index: int) -> bool {
    0 <= index < tokens.len() && tokens[index].0 == "ANCHOR"@
}

pub open spec fn is_alias(tokens: Seq<(Seq<char>, Seq<char>)>, index: int) -> bool {
    0 <= index < tokens.len() && tokens[index].0 == "REFERENCE"@
}

pub open spec fn has_alias(tokens: Seq<(Seq<char>, Seq<char>)>) -> bool {
    exists|i: int| #[trigger] is_alias(tokens, i)
}

/// Whether a token can stand between a tag and what it is put on.
pub open spec fn is_between(kind: Seq<char>) -> bool {
    kind == "WHITESPACE"@ || kind == "NEWLINE"@ || kind == "INDENT"@ || kind == "COMMENT"@ || kind == "ANCHOR"@
}

/// The number of tags that stand right before the token at a position.
pub open spec fn tags_before(tokens: Seq<(Seq<char>, Seq<char>)>, end: int) -> nat
    decreases end,
{
    if end <= 0 || end > tokens.len() {
        0
    } else if tokens[end - 1].0 == "TAG"@ {
        tags_before(tokens, end - 1) + 1
    } else if is_between(tokens[end - 1].0) {
        tags_before(tokens, end - 1)
    } else {
        0
    }
}

/// Whether a token is an alias right behind two tags, as every alias under two
/// tags is.
pub open spec fn is_doubly_tagged(tokens: Seq<(Seq<char>, Seq<char>)>, index: int) -> bool {
    is_alias(tokens, index) && tags_before(tokens, index) >= 2
}

/// What an edit takes out of a text: the bytes from `start` to `end`, but for the
/// first anchor before `kept`, which goes on to what takes their place.
#[derive(Debug, Clone, Copy, PartialEq, Eq, Structural)]
pub struct Cut {
    pub start: usize,
    pub end: usize,
    pub kept: usize,
}

/// Whether a token begins between two bytes.
pub open spec fn begins_in(tokens: Seq<(Seq<char>, Seq<char>)>, index: int, start: usize, end: usize) -> bool {
    start <= token_start(tokens, index) < end
}

/// The first anchor between two bytes, from a position on.
pub open spec fn first_anchor(tokens: Seq<(Seq<char>, Seq<char>)>, from: int, start: usize, end: usize) -> Option<int>
    decreases tokens.len() - from,
{
    if from < 0 || from >= tokens.len() {
        None
    } else if is_anchor(tokens, from) && begins_in(tokens, from, start, end) {
        Some(from)
    } else {
        first_anchor(tokens, from + 1, start, end)
    }
}

/// Whether an anchor goes with a cut.
pub open spec fn goes(tokens: Seq<(Seq<char>, Seq<char>)>, cut: Cut, index: int) -> bool {
    is_anchor(tokens, index) && begins_in(tokens, index, cut.start, cut.end) && first_anchor(
        tokens,
        0,
        cut.start,
        cut.kept,
    ) != Some(index)
}

/// Whether an anchor of the same name as a token goes with a cut.
pub open spec fn loses_name(tokens: Seq<(Seq<char>, Seq<char>)>, cut: Cut, index: int) -> bool {
    exists|i: int| #[trigger] goes(tokens, cut, i) && anchor_name(tokens[i].1) == anchor_name(tokens[index].1)
}

/// Whether an alias outside a cut may have to be mended: it has the name of an
/// anchor that goes.
pub open spec fn must_mend(tokens: Seq<(Seq<char>, Seq<char>)>, cut: Cut, index: int) -> bool {
    is_alias(tokens, index) && !begins_in(tokens, index, cut.start, cut.end) && loses_name(tokens, cut, index)
}

/// Whether an anchor that stays has the name of one that goes, so that what is
/// copied may take its aliases.
pub open spec fn shares_name(tokens: Seq<(Seq<char>, Seq<char>)>, cut: Cut, index: int) -> bool {
    is_anchor(tokens, index) && !goes(tokens, cut, index) && loses_name(tokens, cut, index)
}

/// Whether an alias under two tags can come to be mended, once anything is: its
/// own anchor goes, it may be copied itself, or names are shared.
pub open spec fn is_endangered(tokens: Seq<(Seq<char>, Seq<char>)>, cut: Cut, index: int) -> bool {
    is_doubly_tagged(tokens, index) && (begins_in(tokens, index, cut.start, cut.end) || loses_name(tokens, cut, index) || (
    exists|k: int| #[trigger] shares_name(tokens, cut, k)))
}

/// Whether taking out a cut may leave an alias under two tags to be mended.
pub open spec fn cannot_mend(tokens: Seq<(Seq<char>, Seq<char>)>, cut: Cut) -> bool {
    (exists|j: int| #[trigger] must_mend(tokens, cut, j)) && exists|j: int| #[trigger] is_endangered(tokens, cut, j)
}

/// Tells whether a text has an alias.
pub(crate) fn find_alias(source: &str) -> (found: bool)
    ensures
        found == has_alias(token_list(source@)),
{
    let tokens = lex_tokens(source);
    let ghost all = token_list(source@);
    assert(all.len() == tokens@.len());
    let mut i: usize = 0;
    while i < tokens.len()
        invariant
            i <= tokens.len(),
            all == token_views(tokens@),
            all == token_list(source@),
            all.len() == tokens@.len(),
            forall|j: int| 0 <= j < i ==> !#[trigger] is_alias(all, j),
        decreases tokens.len() - i,
    {
        assert(all[i as int] == (tokens@[i as int].0@, tokens@[i as int].1@));
        if same_text(tokens[i].0.as_str(), "REFERENCE") {
            assert(is_alias(all, i as int));
            return true;
        }
        i += 1;
    }
    false
}

proof fn lemma_starts_grow(tokens: Seq<(Seq<char>, Seq<char>)>, index: int, later: int)
    requires
        0 <= index <= later <= tokens.len(),
    ensures
        token_start(tokens, index) <= token_start(tokens, later),
    decreases later - index,
{
    if index < later {
        lemma_starts_grow(tokens, index, later - 1);
    }
}

/// Tells for each token whether it begins between two bytes.
fn find_inside(tokens: &Vec<(String, String)>, start: usize, end: usize) -> (inside: Vec<bool>)
    ensures
        inside@.len() == tokens@.len(),
        forall|i: int|
            0 <= i < tokens@.len() ==> #[trigger] inside@[i] == begins_in(token_views(tokens@), i, start, end),
{
    let ghost all = token_views(tokens@);
    let mut inside: Vec<bool> = Vec::new();
    let mut at: usize = 0;
    let mut past = false;
    let mut i: usize = 0;
    while i < tokens.len()
        invariant
            i <= tokens.len(),
            all == token_views(tokens@),
            all.len() == tokens@.len(),
            inside@.len() == i,
            !past ==> at == token_start(all, i as int),
            past ==> token_start(all, i as int) >= end,
            forall|j: int| 0 <= j < i ==> #[trigger] inside@[j] == begins_in(all, j, start, end),
        decreases tokens.len() - i,
    {
        assert(all[i as int] == (tokens@[i as int].0@, tokens@[i as int].1@));
        inside.push(!past && start <= at && at < end);
        let length: usize = utf8_len(tokens[i].1.as_str());
        proof {
            lemma_starts_grow(all, i as int, i + 1);
        }
        if !past {
            if at >= end || length > usize::MAX - at {
                past = true;
            } else {
                at = at + length;
            }
        }
        i += 1;
    }
    inside
}

/// Tells which tokens are aliases right behind two tags.
fn find_doubly_tagged(tokens: &Vec<(String, String)>) -> (found: Vec<bool>)
    ensures
        found@.len() == tokens@.len(),
        forall|i: int| 0 <= i < tokens@.len() ==> #[trigger] found@[i] == is_doubly_tagged(token_views(tokens@), i),
{
    let ghost all = token_views(tokens@);
    let mut found: Vec<bool> = Vec::new();
    let mut tags: usize = 0;
    let mut i: usize = 0;
    while i < tokens.len()
        invariant
            i <= tokens.len(),
            all == token_views(tokens@),
            all.len() == tokens@.len(),
            found@.len() == i,
            tags == tags_before(all, i as int),
            tags <= i,
            forall|j: int| 0 <= j < i ==> #[trigger] found@[j] == is_doubly_tagged(all, j),
        decreases tokens.len() - i,
    {
        assert(all[i as int] == (tokens@[i as int].0@, tokens@[i as int].1@));
        let kind = tokens[i].0.as_str();
        found.push(same_text(kind, "REFERENCE") && tags >= 2);
        if same_text(kind, "TAG") {
            tags = tags + 1;
        } else if !(same_text(kind, "WHITESPACE") || same_text(kind, "NEWLINE") || same_text(kind, "INDENT")
            || same_text(kind, "COMMENT") || same_text(kind, "ANCHOR")) {
            tags = 0;
        }
        i += 1;
    }
    found
}

/// Tells which anchors go with a cut.
fn find_going(tokens: &Vec<(String, String)>, cut: Cut) -> (going: Vec<bool>)
    ensures
        going@.len() == tokens@.len(),
        forall|i: int| 0 <= i < tokens@.len() ==> #[trigger] going@[i] == goes(token_views(tokens@), cut, i),
{
    let ghost all = token_views(tokens@);
    let inside = find_inside(tokens, cut.start, cut.end);
    let before = find_inside(tokens, cut.start, cut.kept);
    let mut going: Vec<bool> = Vec::new();
    let mut kept = false;
    let mut i: usize = 0;
    while i < tokens.len()
        invariant
            i <= tokens.len(),
            all == token_views(tokens@),
            all.len() == tokens@.len(),
            inside@.len() == tokens@.len(),
            before@.len() == tokens@.len(),
            going@.len() == i,
            forall|j: int| 0 <= j < all.len() ==> #[trigger] inside@[j] == begins_in(all, j, cut.start, cut.end),
            forall|j: int| 0 <= j < all.len() ==> #[trigger] before@[j] == begins_in(all, j, cut.start, cut.kept),
            forall|j: int| 0 <= j < i ==> #[trigger] going@[j] == goes(all, cut, j),
            !kept ==> first_anchor(all, 0, cut.start, cut.kept) == first_anchor(all, i as int, cut.start, cut.kept),
            kept ==> first_anchor(all, 0, cut.start, cut.kept) is Some && first_anchor(
                all,
                0,
                cut.start,
                cut.kept,
            )->Some_0 < i,
        decreases tokens.len() - i,
    {
        assert(all[i as int] == (tokens@[i as int].0@, tokens@[i as int].1@));
        proof {
            lemma_first_anchor(all, i + 1, cut.start, cut.kept);
        }
        let anchor = same_text(tokens[i].0.as_str(), "ANCHOR");
        let first = !kept && anchor && before[i];
        going.push(anchor && inside[i] && !first);
        if first {
            kept = true;
        }
        i += 1;
    }
    going
}

proof fn lemma_first_anchor(tokens: Seq<(Seq<char>, Seq<char>)>, from: int, start: usize, end: usize)
    ensures
        match first_anchor(tokens, from, start, end) {
            Some(place) => from <= place < tokens.len(),
            None => true,
        },
    decreases tokens.len() - from,
{
    if 0 <= from < tokens.len() {
        lemma_first_anchor(tokens, from + 1, start, end);
    }
}

/// Tells whether an anchor that goes has the name of a token.
fn find_name(tokens: &Vec<(String, String)>, going: &Vec<bool>, cut: Cut, index: usize) -> (found: bool)
    requires
        index < tokens@.len(),
        going@.len() == tokens@.len(),
        forall|i: int| 0 <= i < tokens@.len() ==> #[trigger] going@[i] == goes(token_views(tokens@), cut, i),
    ensures
        found == loses_name(token_views(tokens@), cut, index as int),
{
    let ghost all = token_views(tokens@);
    let wanted = name_of(tokens[index].1.as_str());
    assert(all[index as int] == (tokens@[index as int].0@, tokens@[index as int].1@));
    let mut i: usize = 0;
    while i < tokens.len()
        invariant
            i <= tokens.len(),
            index < tokens@.len(),
            all == token_views(tokens@),
            all.len() == tokens@.len(),
            going@.len() == tokens@.len(),
            wanted@ == anchor_name(all[index as int].1),
            forall|j: int| 0 <= j < all.len() ==> #[trigger] going@[j] == goes(all, cut, j),
            forall|j: int|
                0 <= j < i ==> !(#[trigger] goes(all, cut, j) && anchor_name(all[j].1) == anchor_name(
                    all[index as int].1,
                )),
        decreases tokens.len() - i,
    {
        assert(all[i as int] == (tokens@[i as int].0@, tokens@[i as int].1@));
        if going[i] {
            let name = name_of(tokens[i].1.as_str());
            if same_text(name.as_str(), wanted.as_str()) {
                assert(goes(all, cut, i as int));
                return true;
            }
        }
        i += 1;
    }
    false
}

fn name_of(text: &str) -> (name: String)
    ensures
        name@ == anchor_name(text@),
{
    let letters = characters(text);
    if letters.len() == 0 {
        owned(text)
    } else {
        let name = text_of(&letters, 1, letters.len());
        assert(name@ =~= text@.skip(1));
        name
    }
}

/// Tells whether taking a cut out of a text may leave an alias under two tags to
/// be mended.
pub(crate) fn is_past_mending(source: &str, cut: Cut) -> (result: bool)
    ensures
        result == cannot_mend(token_list(source@), cut),
{
    let tokens = lex_tokens(source);
    let ghost all = token_list(source@);
    assert(all.len() == tokens@.len());
    let inside = find_inside(&tokens, cut.start, cut.end);
    let tagged = find_doubly_tagged(&tokens);
    let going = find_going(&tokens, cut);
    let mut mends = false;
    let mut shares = false;
    let mut own = false;
    let mut any = false;
    let mut i: usize = 0;
    while i < tokens.len()
        invariant
            i <= tokens.len(),
            all == token_views(tokens@),
            all == token_list(source@),
            all.len() == tokens@.len(),
            inside@.len() == tokens@.len(),
            tagged@.len() == tokens@.len(),
            going@.len() == tokens@.len(),
            forall|j: int| 0 <= j < all.len() ==> #[trigger] inside@[j] == begins_in(all, j, cut.start, cut.end),
            forall|j: int| 0 <= j < all.len() ==> #[trigger] tagged@[j] == is_doubly_tagged(all, j),
            forall|j: int| 0 <= j < all.len() ==> #[trigger] going@[j] == goes(all, cut, j),
            mends == exists|j: int| 0 <= j < i && #[trigger] must_mend(all, cut, j),
            shares == exists|j: int| 0 <= j < i && #[trigger] shares_name(all, cut, j),
            own == exists|j: int| 0 <= j < i && #[trigger] is_at_risk(all, cut, j),
            any == exists|j: int| 0 <= j < i && #[trigger] is_doubly_tagged(all, j),
        decreases tokens.len() - i,
    {
        assert(all[i as int] == (tokens@[i as int].0@, tokens@[i as int].1@));
        let kind = tokens[i].0.as_str();
        let loses = find_name(&tokens, &going, cut, i);
        let must = same_text(kind, "REFERENCE") && !inside[i] && loses;
        let share = same_text(kind, "ANCHOR") && !going[i] && loses;
        let risk = tagged[i] && (inside[i] || loses);
        let double = tagged[i];
        assert(must == must_mend(all, cut, i as int));
        assert(share == shares_name(all, cut, i as int));
        assert(risk == is_at_risk(all, cut, i as int));
        assert(double == is_doubly_tagged(all, i as int));
        mends = mends || must;
        shares = shares || share;
        own = own || risk;
        any = any || double;
        i += 1;
    }
    let result = mends && (own || (any && shares));
    proof {
        lemma_endangered(all, cut, mends, shares, own, any);
    }
    result
}

/// Whether an alias under two tags stands in a cut or loses its anchor with it.
pub open spec fn is_at_risk(tokens: Seq<(Seq<char>, Seq<char>)>, cut: Cut, index: int) -> bool {
    is_doubly_tagged(tokens, index) && (begins_in(tokens, index, cut.start, cut.end) || loses_name(tokens, cut, index))
}

proof fn lemma_endangered(
    tokens: Seq<(Seq<char>, Seq<char>)>,
    cut: Cut,
    mends: bool,
    shares: bool,
    own: bool,
    any: bool,
)
    requires
        mends == exists|j: int| 0 <= j < tokens.len() && #[trigger] must_mend(tokens, cut, j),
        shares == exists|j: int| 0 <= j < tokens.len() && #[trigger] shares_name(tokens, cut, j),
        own == exists|j: int| 0 <= j < tokens.len() && #[trigger] is_at_risk(tokens, cut, j),
        any == exists|j: int| 0 <= j < tokens.len() && #[trigger] is_doubly_tagged(tokens, j),
    ensures
        cannot_mend(tokens, cut) == (mends && (own || (any && shares))),
{
    if exists|j: int| #[trigger] must_mend(tokens, cut, j) {
        let j = choose|j: int| #[trigger] must_mend(tokens, cut, j);
        assert(is_alias(tokens, j));
        assert(mends);
    }
    if exists|j: int| #[trigger] shares_name(tokens, cut, j) {
        let j = choose|j: int| #[trigger] shares_name(tokens, cut, j);
        assert(is_anchor(tokens, j));
        assert(shares);
    }
    if exists|j: int| #[trigger] is_endangered(tokens, cut, j) {
        let j = choose|j: int| #[trigger] is_endangered(tokens, cut, j);
        assert(is_doubly_tagged(tokens, j));
        assert(is_alias(tokens, j));
        assert(any);
        if is_at_risk(tokens, cut, j) {
            assert(own);
        }
    }
    if own {
        let j = choose|j: int| 0 <= j < tokens.len() && #[trigger] is_at_risk(tokens, cut, j);
        assert(is_endangered(tokens, cut, j));
    }
    if any && shares {
        let j = choose|j: int| 0 <= j < tokens.len() && #[trigger] is_doubly_tagged(tokens, j);
        let k = choose|k: int| 0 <= k < tokens.len() && #[trigger] shares_name(tokens, cut, k);
        assert(shares_name(tokens, cut, k));
        assert(is_endangered(tokens, cut, j));
    }
}

// Cuts.

/// Where the node at a step ends, or another place where there is none.
pub open spec fn end_at(tree: Tree, step: TreeStep, other: usize) -> usize {
    match child_tree(tree, step) {
        Some(child) => child[Seq::empty()].end,
        None => other,
    }
}

pub open spec fn start_at(tree: Tree, step: TreeStep, other: usize) -> usize {
    match child_tree(tree, step) {
        Some(child) => child[Seq::empty()].start,
        None => other,
    }
}

/// What goes when the value of a key is set: the old value with the anchors before
/// it, of which the first is kept unless the new value has an alias.
pub open spec fn value_cut(tree: Tree, key: Seq<char>, aliasing: bool) -> Cut {
    match matching_place(tree, key) {
        None => Cut { start: 0, end: 0, kept: 0 },
        Some(place) => {
            let whole = tree[Seq::empty()];
            let start = end_at(tree, TreeStep::EntryKey(place as usize), whole.start);
            Cut {
                start,
                end: end_at(tree, TreeStep::EntryValue(place as usize), whole.end),
                kept: if aliasing {
                    start
                } else {
                    start_at(tree, TreeStep::EntryValue(place as usize), start)
                },
            }
        },
    }
}

/// What goes with an entry: everything behind the entry before it.
pub open spec fn entry_cut(tree: Tree, key: Seq<char>) -> Cut {
    match matching_place(tree, key) {
        None => Cut { start: 0, end: 0, kept: 0 },
        Some(place) => {
            let whole = tree[Seq::empty()];
            let start = if place == 0 {
                whole.start
            } else {
                end_at(tree, TreeStep::EntryValue((place - 1) as usize), whole.start)
            };
            Cut { start, end: end_at(tree, TreeStep::EntryValue(place as usize), whole.end), kept: start }
        },
    }
}

/// What goes with an item of a sequence: everything behind the item before it,
/// but for the first anchor before the item where it is kept.
pub open spec fn item_cut(tree: Tree, index: usize, keeping: bool) -> Cut {
    let whole = tree[Seq::empty()];
    let start = if index == 0 {
        whole.start
    } else {
        end_at(tree, TreeStep::Index((index - 1) as usize), whole.start)
    };
    Cut {
        start,
        end: end_at(tree, TreeStep::Index(index), whole.end),
        kept: if keeping {
            start_at(tree, TreeStep::Index(index), start)
        } else {
            start
        },
    }
}

fn find_range(document: &yaml_edit::Document, node: &Option<yaml_edit::YamlNode>, start: usize, end: usize) -> (range: (
    usize,
    usize,
))
    requires
        match *node {
            Some(node) => place_within(*document, node) is Some,
            None => true,
        },
    ensures
        range == (match contents_of(*node) {
            Some(tree) => (tree[Seq::empty()].start, tree[Seq::empty()].end),
            None => (start, end),
        }),
{
    match node {
        Some(node) => {
            let found = describe(document, node);
            (found.start, found.end)
        }
        None => (start, end),
    }
}

/// Finds what goes when the value of a key is set.
pub(crate) fn find_value_cut(
    document: &yaml_edit::Document,
    node: &yaml_edit::YamlNode,
    key: &str,
    aliasing: bool,
) -> (cut: Cut)
    requires
        place_within(*document, *node) is Some,
    ensures
        cut == value_cut(node_contents(*node), key@, aliasing),
{
    let whole = describe(document, node);
    match matching_entry(document, node, key) {
        None => Cut { start: 0, end: 0, kept: 0 },
        Some(place) => {
            let held = find_range(document, &entry_key(document, node, place), 0, whole.start);
            let value = find_range(document, &entry_value(document, node, place), held.1, whole.end);
            Cut {
                start: held.1,
                end: value.1,
                kept: if aliasing {
                    held.1
                } else {
                    value.0
                },
            }
        }
    }
}

/// Finds what goes with an entry.
pub(crate) fn find_entry_cut(document: &yaml_edit::Document, node: &yaml_edit::YamlNode, key: &str) -> (cut: Cut)
    requires
        place_within(*document, *node) is Some,
    ensures
        cut == entry_cut(node_contents(*node), key@),
{
    let whole = describe(document, node);
    match matching_entry(document, node, key) {
        None => Cut { start: 0, end: 0, kept: 0 },
        Some(place) => {
            let start: usize = if place == 0 {
                whole.start
            } else {
                find_range(document, &entry_value(document, node, place - 1), 0, whole.start).1
            };
            let value = find_range(document, &entry_value(document, node, place), 0, whole.end);
            Cut { start, end: value.1, kept: start }
        }
    }
}

/// Finds what goes with an item of a sequence.
pub(crate) fn find_item_cut(
    document: &yaml_edit::Document,
    node: &yaml_edit::YamlNode,
    index: usize,
    keeping: bool,
) -> (cut: Cut)
    requires
        place_within(*document, *node) is Some,
    ensures
        cut == item_cut(node_contents(*node), index, keeping),
{
    let whole = describe(document, node);
    let start: usize = if index == 0 {
        whole.start
    } else {
        find_range(document, &item_at(document, node, index - 1), 0, whole.start).1
    };
    let item = find_range(document, &item_at(document, node, index), start, whole.end);
    Cut {
        start,
        end: item.1,
        kept: if keeping {
            item.0
        } else {
            start
        },
    }
}

// Edits of a parsed document. An edit takes the document with it.

pub open spec fn text_option(text: Option<String>) -> Option<Seq<char>> {
    match text {
        Some(text) => Some(text@),
        None => None,
    }
}

/// The text of a document with the value of a mapping key set; none where the
/// place holds no mapping.
pub uninterp spec fn with_key_set(
    source: Seq<char>,
    container: Seq<TreeStep>,
    key: Seq<char>,
    value: Seq<char>,
) -> Option<Seq<char>>;

/// `yaml_edit::Mapping::set` on a mapping of a document, then the text of the
/// document. Where an alias names an anchor in what goes, the edit puts a copy
/// there; it panics where it would have to do so under two tags.
#[verifier::external_body]
pub(crate) fn set_key(
    document: yaml_edit::Document,
    node: yaml_edit::YamlNode,
    key: &str,
    value: yaml_edit::Document,
) -> (result: Option<String>)
    requires
        place_within(document, node) is Some,
        !cannot_mend(token_list(document_source(document)), value_cut(node_contents(node), key@, has_alias(token_list(document_source(value))))),
    ensures
        text_option(result) == with_key_set(
            document_source(document),
            place_within(document, node)->Some_0,
            key@,
            document_source(value),
        ),
        node_contents(node)[Seq::empty()].shape is Mapping ==> result is Some,
{
    node.as_mapping()?.set(key, value);
    Some(document.to_string())
}

/// The text of a document with an item of a sequence set; none where the place
/// holds no sequence with such an item.
pub uninterp spec fn with_item_set(
    source: Seq<char>,
    container: Seq<TreeStep>,
    index: usize,
    value: Seq<char>,
) -> Option<Seq<char>>;

/// `yaml_edit::Sequence::set` on a sequence of a document, then the text of the
/// document. It panics as the edit of a mapping does.
#[verifier::external_body]
pub(crate) fn set_item(
    document: yaml_edit::Document,
    node: yaml_edit::YamlNode,
    index: usize,
    value: yaml_edit::Document,
) -> (result: Option<String>)
    requires
        place_within(document, node) is Some,
        !cannot_mend(token_list(document_source(document)), item_cut(node_contents(node), index, !has_alias(token_list(document_source(value))))),
    ensures
        text_option(result) == with_item_set(
            document_source(document),
            place_within(document, node)->Some_0,
            index,
            document_source(value),
        ),
{
    let done = node.as_sequence()?.set(index, value);
    done.then_some(document.to_string())
}

/// The text of a document with a mapping key removed; none where the place
/// holds no mapping with such a key.
pub uninterp spec fn with_key_removed(
    source: Seq<char>,
    container: Seq<TreeStep>,
    key: Seq<char>,
) -> Option<Seq<char>>;

/// `yaml_edit::Mapping::remove` on a mapping of a document, then the text of the
/// document. It panics as the edit of a mapping does.
#[verifier::external_body]
pub(crate) fn remove_key(document: yaml_edit::Document, node: yaml_edit::YamlNode, key: &str) -> (result: Option<String>)
    requires
        place_within(document, node) is Some,
        !cannot_mend(token_list(document_source(document)), entry_cut(node_contents(node), key@)),
    ensures
        text_option(result) == with_key_removed(
            document_source(document),
            place_within(document, node)->Some_0,
            key@,
        ),
{
    let removed = node.as_mapping()?.remove(key);
    removed.map(|_| document.to_string())
}

/// The text of a document with an item of a sequence removed; none where the
/// place holds no sequence with such an item.
pub uninterp spec fn with_item_removed(
    source: Seq<char>,
    container: Seq<TreeStep>,
    index: usize,
) -> Option<Seq<char>>;

/// `yaml_edit::Sequence::remove` on a sequence of a document, then the text of
/// the document. It panics as the edit of a mapping does.
#[verifier::external_body]
pub(crate) fn remove_item(document: yaml_edit::Document, node: yaml_edit::YamlNode, index: usize) -> (result: Option<
    String,
>)
    requires
        place_within(document, node) is Some,
        !cannot_mend(token_list(document_source(document)), item_cut(node_contents(node), index, false)),
    ensures
        text_option(result) == with_item_removed(
            document_source(document),
            place_within(document, node)->Some_0,
            index,
        ),
{
    let removed = node.as_sequence()?.remove(index);
    removed.map(|_| document.to_string())
}

/// The text of a document with an item put behind a sequence; none where the
/// place holds no sequence.
pub uninterp spec fn with_item_pushed(
    source: Seq<char>,
    container: Seq<TreeStep>,
    value: Seq<char>,
) -> Option<Seq<char>>;

/// `yaml_edit::Sequence::push` on a sequence of a document, then the text of the
/// document.
#[verifier::external_body]
pub(crate) fn push_item(
    document: yaml_edit::Document,
    node: yaml_edit::YamlNode,
    value: yaml_edit::Document,
) -> (result: Option<String>)
    requires
        place_within(document, node) is Some,
    ensures
        text_option(result) == with_item_pushed(
            document_source(document),
            place_within(document, node)->Some_0,
            document_source(value),
        ),
        node_contents(node)[Seq::empty()].shape is Sequence ==> result is Some,
{
    node.as_sequence()?.push(value);
    Some(document.to_string())
}

/// The text that a parsed document gives back.
pub uninterp spec fn rewritten(source: Seq<char>) -> Seq<char>;

/// `yaml_edit::Document`'s `to_string`.
#[verifier::external_body]
pub(crate) fn document_text(document: &yaml_edit::Document) -> (text: String)
    ensures
        text@ == rewritten(document_source(*document)),
{
    document.to_string()
}

} // verus!
