//! What documents, forms and edits hold, as mathematical values.
use vstd::prelude::*;
use crate::yaml::view::YamlValueView;
use crate::code::model::{
    CodeError, CodeErrorKind, Definitions, DocumentSnapshot, Edit, Entry, Form, ImportLink, Node, NodeEdit,
    NodeKind, NodeLocator, Path, Pattern, PipelineOutcome, PipelineState, PipelineValue, PlannedEdit, Query,
    QueryMatch, SavedValue, Segment, SemanticFact, SemanticIndex, SemanticKind, SourceDatabase,
};

verus! {

pub struct PathView {
    pub segments: Seq<SegmentView>,
}

pub struct EntryView {
    pub key: Seq<char>,
    pub value: FormView,
}

pub struct CodeErrorView {
    pub kind: CodeErrorKind,
    pub message: Seq<char>,
    pub document: Option<Seq<char>>,
    pub path: Option<PathView>,
}

pub struct NodeLocatorView {
    pub document: Seq<char>,
    pub revision: Seq<char>,
    pub path: PathView,
    pub fingerprint: Seq<char>,
}

pub struct NodeView {
    pub locator: NodeLocatorView,
    pub kind: NodeKind,
    pub source: Seq<char>,
    pub form: FormView,
    pub document_source: Seq<char>,
}

pub struct DocumentSnapshotView {
    pub path: Seq<char>,
    pub source: Seq<char>,
    pub revision: Seq<char>,
}

pub struct SourceDatabaseView {
    pub root: Seq<char>,
    pub documents: Seq<DocumentSnapshotView>,
}

pub struct QueryView {
    pub root: PathView,
    pub include_root: bool,
    pub mapping_key: Option<Seq<char>>,
    pub kind: Option<NodeKind>,
    pub pattern: Option<PatternView>,
    pub limit: Option<usize>,
}

pub struct QueryMatchView {
    pub node: NodeView,
    pub captures: Seq<(Seq<char>, FormView)>,
}

pub struct PlannedEditView {
    pub edit: EditView,
    pub move_group: Option<usize>,
}

pub struct SemanticFactView {
    pub document: Seq<char>,
    pub path: PathView,
    pub kind: SemanticKind,
    pub symbol: Seq<char>,
    pub target_document: Option<Seq<char>>,
}

pub struct DefinitionsView {
    pub document: Seq<char>,
    pub names: Seq<Seq<char>>,
}

pub struct ImportLinkView {
    pub document: Seq<char>,
    pub alias: Seq<char>,
    pub target: Seq<char>,
}

pub struct SemanticIndexView {
    pub definitions: Seq<DefinitionsView>,
    pub imports: Seq<ImportLinkView>,
    pub facts: Seq<SemanticFactView>,
}

pub struct SavedValueView {
    pub name: Seq<char>,
    pub value: PipelineValueView,
}

pub struct PipelineStateView {
    pub original: SourceDatabaseView,
    pub database: SourceDatabaseView,
    pub current: PipelineValueView,
    pub saved: Seq<SavedValueView>,
    pub changed: Seq<Seq<char>>,
}

#[allow(inconsistent_fields)]
pub enum SegmentView {
    Key(Seq<char>),
    Index(usize),
}

#[allow(inconsistent_fields)]
pub enum FormView {
    Null,
    Bool(bool),
    Int(i64),
    Float(Seq<char>),
    String(Seq<char>),
    Sequence(Seq<FormView>),
    Mapping(Seq<EntryView>),
}

#[allow(inconsistent_fields)]
pub enum PatternView {
    Any,
    Exact(FormView),
    Capture { name: Seq<char>, pattern: Box<PatternView> },
    Kind(NodeKind),
    Sequence(Seq<PatternView>),
    Mapping(Seq<(Seq<char>, PatternView)>),
}

#[allow(inconsistent_fields)]
pub enum EditView {
    Replace { target: NodeLocatorView, value: FormView },
    Delete { target: NodeLocatorView },
    UpsertMapping { target: NodeLocatorView, key: Seq<char>, value: FormView },
    InsertMapping { target: NodeLocatorView, key: Seq<char>, value: FormView },
    RenameMappingKey { target: NodeLocatorView, new_key: Seq<char> },
    InsertSequence { target: NodeLocatorView, index: usize, value: FormView },
    SpliceSequence { target: NodeLocatorView, start: usize, delete_count: usize, values: Seq<FormView> },
    Copy { source: NodeLocatorView, target: NodeLocatorView, destination: SegmentView },
    Move { source: NodeLocatorView, target: NodeLocatorView, destination: SegmentView },
    InsertMappingSource { target: NodeLocatorView, key: Seq<char>, source: Seq<char>, block_style: bool },
    InsertSequenceSource { target: NodeLocatorView, index: usize, source: Seq<char>, block_style: bool },
}

#[allow(inconsistent_fields)]
pub enum PipelineValueView {
    Workspace,
    File(Seq<char>),
    Nodes(Seq<NodeView>),
    Value(YamlValueView),
}

#[allow(inconsistent_fields)]
pub enum NodeEditView {
    Replace(FormView),
    Delete,
    RenameKey(Seq<char>),
    Upsert { key: Seq<char>, value: FormView },
    InsertMapping { key: Seq<char>, value: FormView },
    Insert { index: usize, value: FormView },
    Splice { start: usize, delete_count: usize, values: Seq<FormView> },
}

#[allow(inconsistent_fields)]
pub enum PipelineOutcomeView {
    Output(Seq<char>),
    Transaction(PipelineStateView),
}

pub open spec fn path(node: Path) -> PathView
{
    PathView {
        segments: self::segments(node.segments@),
    }
}

pub open spec fn entry(node: Entry) -> EntryView
    decreases node,
{
    EntryView {
        key: node.key@,
        value: self::form(node.value),
    }
}

pub open spec fn code_error(node: CodeError) -> CodeErrorView
{
    CodeErrorView {
        kind: node.kind,
        message: node.message@,
        document: match node.document {
            Some(inner) => Some(inner@),
            None => None,
        },
        path: match node.path {
            Some(inner) => Some(self::path(inner)),
            None => None,
        },
    }
}

pub open spec fn node_locator(node: NodeLocator) -> NodeLocatorView
{
    NodeLocatorView {
        document: node.document@,
        revision: node.revision@,
        path: self::path(node.path),
        fingerprint: node.fingerprint@,
    }
}

pub open spec fn code_node(node: Node) -> NodeView
{
    NodeView {
        locator: self::node_locator(node.locator),
        kind: node.kind,
        source: node.source@,
        form: self::form(node.form),
        document_source: node.document_source@,
    }
}

pub open spec fn document_snapshot(node: DocumentSnapshot) -> DocumentSnapshotView
{
    DocumentSnapshotView {
        path: node.path@,
        source: node.source@,
        revision: node.revision@,
    }
}

pub open(crate) spec fn source_database(node: SourceDatabase) -> SourceDatabaseView
{
    SourceDatabaseView {
        root: node.root@,
        documents: self::document_snapshots(node.documents@),
    }
}

pub open spec fn query(node: Query) -> QueryView
{
    QueryView {
        root: self::path(node.root),
        include_root: node.include_root,
        mapping_key: match node.mapping_key {
            Some(inner) => Some(inner@),
            None => None,
        },
        kind: node.kind,
        pattern: match node.pattern {
            Some(inner) => Some(self::pattern(inner)),
            None => None,
        },
        limit: node.limit,
    }
}

pub open spec fn query_match(node: QueryMatch) -> QueryMatchView
{
    QueryMatchView {
        node: self::code_node(node.node),
        captures: self::text_form_pairs(node.captures@),
    }
}

pub open spec fn planned_edit(node: PlannedEdit) -> PlannedEditView
{
    PlannedEditView {
        edit: self::edit(node.edit),
        move_group: node.move_group,
    }
}

pub open spec fn semantic_fact(node: SemanticFact) -> SemanticFactView
{
    SemanticFactView {
        document: node.document@,
        path: self::path(node.path),
        kind: node.kind,
        symbol: node.symbol@,
        target_document: match node.target_document {
            Some(inner) => Some(inner@),
            None => None,
        },
    }
}

pub open spec fn definitions(node: Definitions) -> DefinitionsView
{
    DefinitionsView {
        document: node.document@,
        names: crate::lowered::view::texts(node.names@),
    }
}

pub open spec fn import_link(node: ImportLink) -> ImportLinkView
{
    ImportLinkView {
        document: node.document@,
        alias: node.alias@,
        target: node.target@,
    }
}

pub open spec fn semantic_index(node: SemanticIndex) -> SemanticIndexView
{
    SemanticIndexView {
        definitions: self::definitions_list(node.definitions@),
        imports: self::import_links(node.imports@),
        facts: self::semantic_facts(node.facts@),
    }
}

pub open spec fn saved_value(node: SavedValue) -> SavedValueView
{
    SavedValueView {
        name: node.name@,
        value: self::pipeline_value(node.value),
    }
}

pub open spec fn pipeline_state(node: PipelineState) -> PipelineStateView
{
    PipelineStateView {
        original: self::source_database(node.original),
        database: self::source_database(node.database),
        current: self::pipeline_value(node.current),
        saved: self::saved_values(node.saved@),
        changed: crate::lowered::view::texts(node.changed@),
    }
}

pub open spec fn segment(node: Segment) -> SegmentView
{
    match node {
        Segment::Key(value) => SegmentView::Key(value@),
        Segment::Index(value) => SegmentView::Index(value),
    }
}

pub open spec fn form(node: Form) -> FormView
    decreases node,
{
    match node {
        Form::Null => FormView::Null,
        Form::Bool(value) => FormView::Bool(value),
        Form::Int(value) => FormView::Int(value),
        Form::Float(value) => FormView::Float(value@),
        Form::String(value) => FormView::String(value@),
        Form::Sequence(values) => FormView::Sequence(self::forms(values@)),
        Form::Mapping(values) => FormView::Mapping(self::entries(values@)),
    }
}

pub open spec fn pattern(node: Pattern) -> PatternView
    decreases node,
{
    match node {
        Pattern::Any => PatternView::Any,
        Pattern::Exact(value) => PatternView::Exact(self::form(value)),
        Pattern::Capture { name, pattern } => PatternView::Capture {
            name: name@,
            pattern: Box::new(self::pattern(*pattern)),
        },
        Pattern::Kind(value) => PatternView::Kind(value),
        Pattern::Sequence(values) => PatternView::Sequence(self::patterns(values@)),
        Pattern::Mapping(values) => PatternView::Mapping(self::text_pattern_pairs(values@)),
    }
}

pub open spec fn edit(node: Edit) -> EditView
{
    match node {
        Edit::Replace { target, value } => EditView::Replace {
            target: self::node_locator(target),
            value: self::form(value),
        },
        Edit::Delete { target } => EditView::Delete {
            target: self::node_locator(target),
        },
        Edit::UpsertMapping { target, key, value } => EditView::UpsertMapping {
            target: self::node_locator(target),
            key: key@,
            value: self::form(value),
        },
        Edit::InsertMapping { target, key, value } => EditView::InsertMapping {
            target: self::node_locator(target),
            key: key@,
            value: self::form(value),
        },
        Edit::RenameMappingKey { target, new_key } => EditView::RenameMappingKey {
            target: self::node_locator(target),
            new_key: new_key@,
        },
        Edit::InsertSequence { target, index, value } => EditView::InsertSequence {
            target: self::node_locator(target),
            index: index,
            value: self::form(value),
        },
        Edit::SpliceSequence { target, start, delete_count, values } => EditView::SpliceSequence {
            target: self::node_locator(target),
            start: start,
            delete_count: delete_count,
            values: self::forms(values@),
        },
        Edit::Copy { source, target, destination } => EditView::Copy {
            source: self::node_locator(source),
            target: self::node_locator(target),
            destination: self::segment(destination),
        },
        Edit::Move { source, target, destination } => EditView::Move {
            source: self::node_locator(source),
            target: self::node_locator(target),
            destination: self::segment(destination),
        },
        Edit::InsertMappingSource { target, key, source, block_style } => EditView::InsertMappingSource {
            target: self::node_locator(target),
            key: key@,
            source: source@,
            block_style: block_style,
        },
        Edit::InsertSequenceSource { target, index, source, block_style } => EditView::InsertSequenceSource {
            target: self::node_locator(target),
            index: index,
            source: source@,
            block_style: block_style,
        },
    }
}

pub open spec fn pipeline_value(node: PipelineValue) -> PipelineValueView
{
    match node {
        PipelineValue::Workspace => PipelineValueView::Workspace,
        PipelineValue::File(value) => PipelineValueView::File(value@),
        PipelineValue::Nodes(values) => PipelineValueView::Nodes(self::code_nodes(values@)),
        PipelineValue::Value(value) => PipelineValueView::Value(crate::yaml::view::yaml_value(value)),
    }
}

pub open spec fn node_edit(node: NodeEdit) -> NodeEditView
{
    match node {
        NodeEdit::Replace(value) => NodeEditView::Replace(self::form(value)),
        NodeEdit::Delete => NodeEditView::Delete,
        NodeEdit::RenameKey(value) => NodeEditView::RenameKey(value@),
        NodeEdit::Upsert { key, value } => NodeEditView::Upsert {
            key: key@,
            value: self::form(value),
        },
        NodeEdit::InsertMapping { key, value } => NodeEditView::InsertMapping {
            key: key@,
            value: self::form(value),
        },
        NodeEdit::Insert { index, value } => NodeEditView::Insert {
            index: index,
            value: self::form(value),
        },
        NodeEdit::Splice { start, delete_count, values } => NodeEditView::Splice {
            start: start,
            delete_count: delete_count,
            values: self::forms(values@),
        },
    }
}

pub open spec fn pipeline_outcome(node: PipelineOutcome) -> PipelineOutcomeView
{
    match node {
        PipelineOutcome::Output(value) => PipelineOutcomeView::Output(value@),
        PipelineOutcome::Transaction(value) => PipelineOutcomeView::Transaction(self::pipeline_state(value)),
    }
}

pub open spec fn code_nodes(nodes: Seq<Node>) -> Seq<NodeView>

{
    Seq::new(nodes.len(), |i: int| self::code_node(nodes[i]))
}

pub open spec fn definitions_list(nodes: Seq<Definitions>) -> Seq<DefinitionsView>

{
    Seq::new(nodes.len(), |i: int| self::definitions(nodes[i]))
}

pub open spec fn document_snapshots(nodes: Seq<DocumentSnapshot>) -> Seq<DocumentSnapshotView>

{
    Seq::new(nodes.len(), |i: int| self::document_snapshot(nodes[i]))
}

pub open spec fn edits(nodes: Seq<Edit>) -> Seq<EditView>

{
    Seq::new(nodes.len(), |i: int| self::edit(nodes[i]))
}

pub open spec fn entries(nodes: Seq<Entry>) -> Seq<EntryView>
    decreases nodes,
{
    Seq::new(nodes.len(), |i: int| if 0 <= i < nodes.len() { self::entry(nodes[i]) } else { arbitrary() })
}

pub open spec fn forms(nodes: Seq<Form>) -> Seq<FormView>
    decreases nodes,
{
    Seq::new(nodes.len(), |i: int| if 0 <= i < nodes.len() { self::form(nodes[i]) } else { arbitrary() })
}

pub open spec fn import_links(nodes: Seq<ImportLink>) -> Seq<ImportLinkView>

{
    Seq::new(nodes.len(), |i: int| self::import_link(nodes[i]))
}

pub open spec fn patterns(nodes: Seq<Pattern>) -> Seq<PatternView>
    decreases nodes,
{
    Seq::new(nodes.len(), |i: int| if 0 <= i < nodes.len() { self::pattern(nodes[i]) } else { arbitrary() })
}

pub open spec fn planned_edits(nodes: Seq<PlannedEdit>) -> Seq<PlannedEditView>

{
    Seq::new(nodes.len(), |i: int| self::planned_edit(nodes[i]))
}

pub open spec fn query_matches(nodes: Seq<QueryMatch>) -> Seq<QueryMatchView>

{
    Seq::new(nodes.len(), |i: int| self::query_match(nodes[i]))
}

pub open spec fn saved_values(nodes: Seq<SavedValue>) -> Seq<SavedValueView>

{
    Seq::new(nodes.len(), |i: int| self::saved_value(nodes[i]))
}

pub open spec fn segments(nodes: Seq<Segment>) -> Seq<SegmentView>

{
    Seq::new(nodes.len(), |i: int| self::segment(nodes[i]))
}

pub open spec fn semantic_facts(nodes: Seq<SemanticFact>) -> Seq<SemanticFactView>

{
    Seq::new(nodes.len(), |i: int| self::semantic_fact(nodes[i]))
}

pub open spec fn text_form_pairs(nodes: Seq<(String, Form)>) -> Seq<(Seq<char>, FormView)>
    decreases nodes,
{
    Seq::new(nodes.len(), |i: int| if 0 <= i < nodes.len() { (nodes[i].0@, self::form(nodes[i].1)) } else { arbitrary() })
}

pub open spec fn text_pattern_pairs(nodes: Seq<(String, Pattern)>) -> Seq<(Seq<char>, PatternView)>
    decreases nodes,
{
    Seq::new(nodes.len(), |i: int| if 0 <= i < nodes.len() { (nodes[i].0@, self::pattern(nodes[i].1)) } else { arbitrary() })
}

pub proof fn lemma_code_nodes_push(nodes: Seq<Node>, node: Node)
    ensures
        self::code_nodes(nodes.push(node)) == self::code_nodes(nodes).push(self::code_node(node)),
{
    let left = self::code_nodes(nodes.push(node));
    let right = self::code_nodes(nodes).push(self::code_node(node));
    assert forall|i: int| 0 <= i < left.len() implies left[i] == right[i] by {
        if i < nodes.len() {
            assert(nodes.push(node)[i] == nodes[i]);
        } else {
            assert(nodes.push(node)[i] == node);
        }
    }
    assert(left =~= right);
}

pub proof fn lemma_definitions_list_push(nodes: Seq<Definitions>, node: Definitions)
    ensures
        self::definitions_list(nodes.push(node)) == self::definitions_list(nodes).push(self::definitions(node)),
{
    let left = self::definitions_list(nodes.push(node));
    let right = self::definitions_list(nodes).push(self::definitions(node));
    assert forall|i: int| 0 <= i < left.len() implies left[i] == right[i] by {
        if i < nodes.len() {
            assert(nodes.push(node)[i] == nodes[i]);
        } else {
            assert(nodes.push(node)[i] == node);
        }
    }
    assert(left =~= right);
}

pub proof fn lemma_document_snapshots_push(nodes: Seq<DocumentSnapshot>, node: DocumentSnapshot)
    ensures
        self::document_snapshots(nodes.push(node)) == self::document_snapshots(nodes).push(
            self::document_snapshot(node),
        ),
{
    let left = self::document_snapshots(nodes.push(node));
    let right = self::document_snapshots(nodes).push(self::document_snapshot(node));
    assert forall|i: int| 0 <= i < left.len() implies left[i] == right[i] by {
        if i < nodes.len() {
            assert(nodes.push(node)[i] == nodes[i]);
        } else {
            assert(nodes.push(node)[i] == node);
        }
    }
    assert(left =~= right);
}

pub proof fn lemma_edits_push(nodes: Seq<Edit>, node: Edit)
    ensures
        self::edits(nodes.push(node)) == self::edits(nodes).push(self::edit(node)),
{
    let left = self::edits(nodes.push(node));
    let right = self::edits(nodes).push(self::edit(node));
    assert forall|i: int| 0 <= i < left.len() implies left[i] == right[i] by {
        if i < nodes.len() {
            assert(nodes.push(node)[i] == nodes[i]);
        } else {
            assert(nodes.push(node)[i] == node);
        }
    }
    assert(left =~= right);
}

pub proof fn lemma_entries_push(nodes: Seq<Entry>, node: Entry)
    ensures
        self::entries(nodes.push(node)) == self::entries(nodes).push(self::entry(node)),
{
    let left = self::entries(nodes.push(node));
    let right = self::entries(nodes).push(self::entry(node));
    assert forall|i: int| 0 <= i < left.len() implies left[i] == right[i] by {
        if i < nodes.len() {
            assert(nodes.push(node)[i] == nodes[i]);
        } else {
            assert(nodes.push(node)[i] == node);
        }
    }
    assert(left =~= right);
}

pub proof fn lemma_forms_push(nodes: Seq<Form>, node: Form)
    ensures
        self::forms(nodes.push(node)) == self::forms(nodes).push(self::form(node)),
{
    let left = self::forms(nodes.push(node));
    let right = self::forms(nodes).push(self::form(node));
    assert forall|i: int| 0 <= i < left.len() implies left[i] == right[i] by {
        if i < nodes.len() {
            assert(nodes.push(node)[i] == nodes[i]);
        } else {
            assert(nodes.push(node)[i] == node);
        }
    }
    assert(left =~= right);
}

pub proof fn lemma_import_links_push(nodes: Seq<ImportLink>, node: ImportLink)
    ensures
        self::import_links(nodes.push(node)) == self::import_links(nodes).push(self::import_link(node)),
{
    let left = self::import_links(nodes.push(node));
    let right = self::import_links(nodes).push(self::import_link(node));
    assert forall|i: int| 0 <= i < left.len() implies left[i] == right[i] by {
        if i < nodes.len() {
            assert(nodes.push(node)[i] == nodes[i]);
        } else {
            assert(nodes.push(node)[i] == node);
        }
    }
    assert(left =~= right);
}

pub proof fn lemma_patterns_push(nodes: Seq<Pattern>, node: Pattern)
    ensures
        self::patterns(nodes.push(node)) == self::patterns(nodes).push(self::pattern(node)),
{
    let left = self::patterns(nodes.push(node));
    let right = self::patterns(nodes).push(self::pattern(node));
    assert forall|i: int| 0 <= i < left.len() implies left[i] == right[i] by {
        if i < nodes.len() {
            assert(nodes.push(node)[i] == nodes[i]);
        } else {
            assert(nodes.push(node)[i] == node);
        }
    }
    assert(left =~= right);
}

pub proof fn lemma_planned_edits_push(nodes: Seq<PlannedEdit>, node: PlannedEdit)
    ensures
        self::planned_edits(nodes.push(node)) == self::planned_edits(nodes).push(self::planned_edit(node)),
{
    let left = self::planned_edits(nodes.push(node));
    let right = self::planned_edits(nodes).push(self::planned_edit(node));
    assert forall|i: int| 0 <= i < left.len() implies left[i] == right[i] by {
        if i < nodes.len() {
            assert(nodes.push(node)[i] == nodes[i]);
        } else {
            assert(nodes.push(node)[i] == node);
        }
    }
    assert(left =~= right);
}

pub proof fn lemma_query_matches_push(nodes: Seq<QueryMatch>, node: QueryMatch)
    ensures
        self::query_matches(nodes.push(node)) == self::query_matches(nodes).push(self::query_match(node)),
{
    let left = self::query_matches(nodes.push(node));
    let right = self::query_matches(nodes).push(self::query_match(node));
    assert forall|i: int| 0 <= i < left.len() implies left[i] == right[i] by {
        if i < nodes.len() {
            assert(nodes.push(node)[i] == nodes[i]);
        } else {
            assert(nodes.push(node)[i] == node);
        }
    }
    assert(left =~= right);
}

pub proof fn lemma_saved_values_push(nodes: Seq<SavedValue>, node: SavedValue)
    ensures
        self::saved_values(nodes.push(node)) == self::saved_values(nodes).push(self::saved_value(node)),
{
    let left = self::saved_values(nodes.push(node));
    let right = self::saved_values(nodes).push(self::saved_value(node));
    assert forall|i: int| 0 <= i < left.len() implies left[i] == right[i] by {
        if i < nodes.len() {
            assert(nodes.push(node)[i] == nodes[i]);
        } else {
            assert(nodes.push(node)[i] == node);
        }
    }
    assert(left =~= right);
}

pub proof fn lemma_segments_push(nodes: Seq<Segment>, node: Segment)
    ensures
        self::segments(nodes.push(node)) == self::segments(nodes).push(self::segment(node)),
{
    let left = self::segments(nodes.push(node));
    let right = self::segments(nodes).push(self::segment(node));
    assert forall|i: int| 0 <= i < left.len() implies left[i] == right[i] by {
        if i < nodes.len() {
            assert(nodes.push(node)[i] == nodes[i]);
        } else {
            assert(nodes.push(node)[i] == node);
        }
    }
    assert(left =~= right);
}

pub proof fn lemma_semantic_facts_push(nodes: Seq<SemanticFact>, node: SemanticFact)
    ensures
        self::semantic_facts(nodes.push(node)) == self::semantic_facts(nodes).push(self::semantic_fact(node)),
{
    let left = self::semantic_facts(nodes.push(node));
    let right = self::semantic_facts(nodes).push(self::semantic_fact(node));
    assert forall|i: int| 0 <= i < left.len() implies left[i] == right[i] by {
        if i < nodes.len() {
            assert(nodes.push(node)[i] == nodes[i]);
        } else {
            assert(nodes.push(node)[i] == node);
        }
    }
    assert(left =~= right);
}

pub proof fn lemma_text_form_pairs_push(nodes: Seq<(String, Form)>, node: (String, Form))
    ensures
        self::text_form_pairs(nodes.push(node)) == self::text_form_pairs(nodes).push((node.0@, self::form(node.1))),
{
    let left = self::text_form_pairs(nodes.push(node));
    let right = self::text_form_pairs(nodes).push((node.0@, self::form(node.1)));
    assert forall|i: int| 0 <= i < left.len() implies left[i] == right[i] by {
        if i < nodes.len() {
            assert(nodes.push(node)[i] == nodes[i]);
        } else {
            assert(nodes.push(node)[i] == node);
        }
    }
    assert(left =~= right);
}

pub proof fn lemma_text_pattern_pairs_push(nodes: Seq<(String, Pattern)>, node: (String, Pattern))
    ensures
        self::text_pattern_pairs(nodes.push(node)) == self::text_pattern_pairs(nodes).push(
            (node.0@, self::pattern(node.1)),
        ),
{
    let left = self::text_pattern_pairs(nodes.push(node));
    let right = self::text_pattern_pairs(nodes).push((node.0@, self::pattern(node.1)));
    assert forall|i: int| 0 <= i < left.len() implies left[i] == right[i] by {
        if i < nodes.len() {
            assert(nodes.push(node)[i] == nodes[i]);
        } else {
            assert(nodes.push(node)[i] == node);
        }
    }
    assert(left =~= right);
}

} // verus!
