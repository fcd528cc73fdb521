//! Source documents, places in them, structural forms and edits.
use vstd::prelude::*;
use crate::yaml::model::YamlValue;

verus! {

/// One step into a document.
#[derive(Debug)]
pub enum Segment {
    Key(String),
    Index(usize),
}

/// A place in a document.
#[derive(Debug)]
pub struct Path {
    pub segments: Vec<Segment>,
}

#[derive(Debug)]
pub struct Entry {
    pub key: String,
    pub value: Form,
}

/// A structural form. A float is held by its canonical numeral.
#[derive(Debug)]
pub enum Form {
    Null,
    Bool(bool),
    Int(i64),
    Float(String),
    String(String),
    Sequence(Vec<Form>),
    Mapping(Vec<Entry>),
}

#[derive(Debug, Clone, Copy, PartialEq, Eq, Structural)]
pub enum CodeErrorKind {
    DocumentNotFound,
    InvalidSource,
    InvalidForm,
    InvalidPath,
    StaleRevision,
    StaleNode,
    OverlappingEdits,
    EditConflict,
}

#[derive(Debug)]
pub struct CodeError {
    pub kind: CodeErrorKind,
    pub message: String,
    pub document: Option<String>,
    pub path: Option<Path>,
}

#[derive(Debug, Clone, Copy, PartialEq, Eq, Structural)]
pub enum NodeKind {
    Scalar,
    Mapping,
    Sequence,
}

/// Where a node stands, and what it looked like.
#[derive(Debug)]
pub struct NodeLocator {
    pub document: String,
    pub revision: String,
    pub path: Path,
    pub fingerprint: String,
}

#[derive(Debug)]
pub struct Node {
    pub locator: NodeLocator,
    pub kind: NodeKind,
    pub source: String,
    pub form: Form,
    pub document_source: String,
}

/// A source document at one revision.
#[derive(Debug)]
pub struct DocumentSnapshot {
    pub path: String,
    pub source: String,
    pub revision: String,
}

/// The documents of a workspace, in the order of their paths.
#[derive(Debug)]
pub struct SourceDatabase {
    pub(crate) root: String,
    pub(crate) documents: Vec<DocumentSnapshot>,
}

/// What a form must look like.
#[derive(Debug)]
pub enum Pattern {
    Any,
    Exact(Form),
    Capture {
        name: String,
        pattern: Box<Pattern>,
    },
    Kind(NodeKind),
    Sequence(Vec<Pattern>),
    Mapping(Vec<(String, Pattern)>),
}

#[derive(Debug)]
pub struct Query {
    pub root: Path,
    pub include_root: bool,
    pub mapping_key: Option<String>,
    pub kind: Option<NodeKind>,
    pub pattern: Option<Pattern>,
    pub limit: Option<usize>,
}

/// A node that a query found, with what its pattern captured in the order of
/// the names.
#[derive(Debug)]
pub struct QueryMatch {
    pub node: Node,
    pub captures: Vec<(String, Form)>,
}

#[derive(Debug)]
pub enum Edit {
    Replace {
        target: NodeLocator,
        value: Form,
    },
    Delete {
        target: NodeLocator,
    },
    UpsertMapping {
        target: NodeLocator,
        key: String,
        value: Form,
    },
    InsertMapping {
        target: NodeLocator,
        key: String,
        value: Form,
    },
    RenameMappingKey {
        target: NodeLocator,
        new_key: String,
    },
    InsertSequence {
        target: NodeLocator,
        index: usize,
        value: Form,
    },
    SpliceSequence {
        target: NodeLocator,
        start: usize,
        delete_count: usize,
        values: Vec<Form>,
    },
    Copy {
        source: NodeLocator,
        target: NodeLocator,
        destination: Segment,
    },
    Move {
        source: NodeLocator,
        target: NodeLocator,
        destination: Segment,
    },
    InsertMappingSource {
        target: NodeLocator,
        key: String,
        source: String,
        block_style: bool,
    },
    InsertSequenceSource {
        target: NodeLocator,
        index: usize,
        source: String,
        block_style: bool,
    },
}

/// Edits that are applied together.
#[derive(Debug)]
pub struct ChangeSet {
    pub edits: Vec<Edit>,
}

#[derive(Debug)]
pub struct AppliedChangeSet {
    pub database: SourceDatabase,
    pub changed_files: Vec<String>,
}

/// An edit of the text itself, with the move that it is part of.
#[derive(Debug)]
pub struct PlannedEdit {
    pub edit: Edit,
    pub move_group: Option<usize>,
}

#[derive(Debug, Clone, Copy, PartialEq, Eq, Structural)]
pub enum SemanticKind {
    Definition,
    Import,
    Reference,
    Call,
}

#[derive(Debug)]
pub struct SemanticFact {
    pub document: String,
    pub path: Path,
    pub kind: SemanticKind,
    pub symbol: String,
    pub target_document: Option<String>,
}

/// The top-level names of a document.
#[derive(Debug)]
pub struct Definitions {
    pub document: String,
    pub names: Vec<String>,
}

/// An import of a document under an alias.
#[derive(Debug)]
pub struct ImportLink {
    pub document: String,
    pub alias: String,
    pub target: String,
}

/// What the documents of a workspace define, import and refer to.
#[derive(Debug)]
pub struct SemanticIndex {
    pub definitions: Vec<Definitions>,
    pub imports: Vec<ImportLink>,
    pub facts: Vec<SemanticFact>,
}

/// What a pipeline stage hands to the next one.
#[derive(Debug)]
pub enum PipelineValue {
    Workspace,
    File(String),
    Nodes(Vec<Node>),
    Value(YamlValue),
}

#[derive(Debug)]
pub struct SavedValue {
    pub name: String,
    pub value: PipelineValue,
}

#[derive(Debug)]
pub struct PipelineState {
    pub original: SourceDatabase,
    pub database: SourceDatabase,
    pub current: PipelineValue,
    pub saved: Vec<SavedValue>,
    pub changed: Vec<String>,
}

/// What a pipeline stage does to each selected node.
#[derive(Debug)]
pub enum NodeEdit {
    Replace(Form),
    Delete,
    RenameKey(String),
    Upsert {
        key: String,
        value: Form,
    },
    InsertMapping {
        key: String,
        value: Form,
    },
    Insert {
        index: usize,
        value: Form,
    },
    Splice {
        start: usize,
        delete_count: usize,
        values: Vec<Form>,
    },
}

/// What a pipeline comes to: text, or changes that are still to be validated
/// and written.
#[derive(Debug)]
pub enum PipelineOutcome {
    Output(String),
    Transaction(PipelineState),
}

} // verus!
