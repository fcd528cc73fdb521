//! Copies of documents, forms and edits.
use vstd::prelude::*;
use crate::code::model::{
    DocumentSnapshot, Edit, Entry, Form, Node, NodeEdit, NodeLocator, Path, Pattern, PipelineValue, Segment,
    SourceDatabase,
};
use crate::code::view;

verus! {

pub fn path(node: &Path) -> (result: Path)
    ensures
        view::path(result) == view::path(*node),
{
    Path {
        segments: self::segments(&node.segments),
    }
}

pub fn entry(node: &Entry) -> (result: Entry)
    ensures
        view::entry(result) == view::entry(*node),
    decreases node,
{
    Entry {
        key: node.key.clone(),
        value: self::form(&node.value),
    }
}

pub fn node_locator(node: &NodeLocator) -> (result: NodeLocator)
    ensures
        view::node_locator(result) == view::node_locator(*node),
{
    NodeLocator {
        document: node.document.clone(),
        revision: node.revision.clone(),
        path: self::path(&node.path),
        fingerprint: node.fingerprint.clone(),
    }
}

pub fn code_node(node: &Node) -> (result: Node)
    ensures
        view::code_node(result) == view::code_node(*node),
{
    Node {
        locator: self::node_locator(&node.locator),
        kind: node.kind,
        source: node.source.clone(),
        form: self::form(&node.form),
        document_source: node.document_source.clone(),
    }
}

pub fn document_snapshot(node: &DocumentSnapshot) -> (result: DocumentSnapshot)
    ensures
        view::document_snapshot(result) == view::document_snapshot(*node),
{
    DocumentSnapshot {
        path: node.path.clone(),
        source: node.source.clone(),
        revision: node.revision.clone(),
    }
}

pub fn source_database(node: &SourceDatabase) -> (result: SourceDatabase)
    ensures
        view::source_database(result) == view::source_database(*node),
{
    proof {
        use_type_invariant(node);
    }
    SourceDatabase {
        root: node.root.clone(),
        documents: self::document_snapshots(&node.documents),
    }
}

pub fn segment(node: &Segment) -> (result: Segment)
    ensures
        view::segment(result) == view::segment(*node),
{
    match node {
        Segment::Key(value) => Segment::Key(value.clone()),
        Segment::Index(value) => Segment::Index(*value),
    }
}

pub fn form(node: &Form) -> (result: Form)
    ensures
        view::form(result) == view::form(*node),
    decreases node,
{
    match node {
        Form::Null => Form::Null,
        Form::Bool(value) => Form::Bool(*value),
        Form::Int(value) => Form::Int(*value),
        Form::Float(value) => Form::Float(value.clone()),
        Form::String(value) => Form::String(value.clone()),
        Form::Sequence(values) => Form::Sequence(self::forms(values)),
        Form::Mapping(values) => Form::Mapping(self::entries(values)),
    }
}

pub fn pattern(node: &Pattern) -> (result: Pattern)
    ensures
        view::pattern(result) == view::pattern(*node),
    decreases node,
{
    match node {
        Pattern::Any => Pattern::Any,
        Pattern::Exact(value) => Pattern::Exact(self::form(value)),
        Pattern::Capture { name, pattern } => Pattern::Capture {
            name: name.clone(),
            pattern: Box::new(self::pattern(pattern)),
        },
        Pattern::Kind(value) => Pattern::Kind(*value),
        Pattern::Sequence(values) => Pattern::Sequence(self::patterns(values)),
        Pattern::Mapping(values) => Pattern::Mapping(self::text_pattern_pairs(values)),
    }
}

pub fn edit(node: &Edit) -> (result: Edit)
    ensures
        view::edit(result) == view::edit(*node),
{
    match node {
        Edit::Replace { target, value } => Edit::Replace {
            target: self::node_locator(target),
            value: self::form(value),
        },
        Edit::Delete { target } => Edit::Delete {
            target: self::node_locator(target),
        },
        Edit::UpsertMapping { target, key, value } => Edit::UpsertMapping {
            target: self::node_locator(target),
            key: key.clone(),
            value: self::form(value),
        },
        Edit::InsertMapping { target, key, value } => Edit::InsertMapping {
            target: self::node_locator(target),
            key: key.clone(),
            value: self::form(value),
        },
        Edit::RenameMappingKey { target, new_key } => Edit::RenameMappingKey {
            target: self::node_locator(target),
            new_key: new_key.clone(),
        },
        Edit::InsertSequence { target, index, value } => Edit::InsertSequence {
            target: self::node_locator(target),
            index: *index,
            value: self::form(value),
        },
        Edit::SpliceSequence { target, start, delete_count, values } => Edit::SpliceSequence {
            target: self::node_locator(target),
            start: *start,
            delete_count: *delete_count,
            values: self::forms(values),
        },
        Edit::Copy { source, target, destination } => Edit::Copy {
            source: self::node_locator(source),
            target: self::node_locator(target),
            destination: self::segment(destination),
        },
        Edit::Move { source, target, destination } => Edit::Move {
            source: self::node_locator(source),
            target: self::node_locator(target),
            destination: self::segment(destination),
        },
        Edit::InsertMappingSource { target, key, source, block_style } => Edit::InsertMappingSource {
            target: self::node_locator(target),
            key: key.clone(),
            source: source.clone(),
            block_style: *block_style,
        },
        Edit::InsertSequenceSource { target, index, source, block_style } => Edit::InsertSequenceSource {
            target: self::node_locator(target),
            index: *index,
            source: source.clone(),
            block_style: *block_style,
        },
    }
}

pub fn pipeline_value(node: &PipelineValue) -> (result: PipelineValue)
    ensures
        view::pipeline_value(result) == view::pipeline_value(*node),
{
    match node {
        PipelineValue::Workspace => PipelineValue::Workspace,
        PipelineValue::File(value) => PipelineValue::File(value.clone()),
        PipelineValue::Nodes(values) => PipelineValue::Nodes(self::code_nodes(values)),
        PipelineValue::Value(value) => PipelineValue::Value(crate::yaml::copy::yaml_value(value)),
    }
}

pub fn node_edit(node: &NodeEdit) -> (result: NodeEdit)
    ensures
        view::node_edit(result) == view::node_edit(*node),
{
    match node {
        NodeEdit::Replace(value) => NodeEdit::Replace(self::form(value)),
        NodeEdit::Delete => NodeEdit::Delete,
        NodeEdit::RenameKey(value) => NodeEdit::RenameKey(value.clone()),
        NodeEdit::Upsert { key, value } => NodeEdit::Upsert {
            key: key.clone(),
            value: self::form(value),
        },
        NodeEdit::InsertMapping { key, value } => NodeEdit::InsertMapping {
            key: key.clone(),
            value: self::form(value),
        },
        NodeEdit::Insert { index, value } => NodeEdit::Insert {
            index: *index,
            value: self::form(value),
        },
        NodeEdit::Splice { start, delete_count, values } => NodeEdit::Splice {
            start: *start,
            delete_count: *delete_count,
            values: self::forms(values),
        },
    }
}

pub fn code_nodes(nodes: &Vec<Node>) -> (result: Vec<Node>)
    ensures
        view::code_nodes(result@) == view::code_nodes(nodes@),
        result.len() == nodes.len(),
{
    let mut done: Vec<Node> = Vec::new();
    let mut i: usize = 0;
    while i < nodes.len()
        invariant
            i <= nodes.len(),
            done.len() == i,
            forall|j: int| 0 <= j < i ==> view::code_nodes(done@)[j] == view::code_nodes(nodes@)[j],
        decreases nodes.len() - i,
    {
        let ghost before = done@;
        let copied = self::code_node(&nodes[i]);
        done.push(copied);
        proof {
            view::lemma_code_nodes_push(before, done@.last());
        }
        i += 1;
    }
    assert(view::code_nodes(done@) =~= view::code_nodes(nodes@));
    done
}

pub fn document_snapshots(nodes: &Vec<DocumentSnapshot>) -> (result: Vec<DocumentSnapshot>)
    ensures
        view::document_snapshots(result@) == view::document_snapshots(nodes@),
        result.len() == nodes.len(),
{
    let mut done: Vec<DocumentSnapshot> = Vec::new();
    let mut i: usize = 0;
    while i < nodes.len()
        invariant
            i <= nodes.len(),
            done.len() == i,
            forall|j: int| 0 <= j < i ==> view::document_snapshots(done@)[j] == view::document_snapshots(nodes@)[j],
        decreases nodes.len() - i,
    {
        let ghost before = done@;
        let copied = self::document_snapshot(&nodes[i]);
        done.push(copied);
        proof {
            view::lemma_document_snapshots_push(before, done@.last());
        }
        i += 1;
    }
    assert(view::document_snapshots(done@) =~= view::document_snapshots(nodes@));
    done
}

pub fn entries(nodes: &Vec<Entry>) -> (result: Vec<Entry>)
    ensures
        view::entries(result@) == view::entries(nodes@),
        result.len() == nodes.len(),
    decreases nodes,
{
    let mut done: Vec<Entry> = Vec::new();
    let mut i: usize = 0;
    while i < nodes.len()
        invariant
            i <= nodes.len(),
            done.len() == i,
            forall|j: int| 0 <= j < i ==> view::entries(done@)[j] == view::entries(nodes@)[j],
        decreases nodes.len() - i,
    {
        let ghost before = done@;
        let copied = self::entry(&nodes[i]);
        done.push(copied);
        proof {
            view::lemma_entries_push(before, done@.last());
        }
        i += 1;
    }
    assert(view::entries(done@) =~= view::entries(nodes@));
    done
}

pub fn forms(nodes: &Vec<Form>) -> (result: Vec<Form>)
    ensures
        view::forms(result@) == view::forms(nodes@),
        result.len() == nodes.len(),
    decreases nodes,
{
    let mut done: Vec<Form> = Vec::new();
    let mut i: usize = 0;
    while i < nodes.len()
        invariant
            i <= nodes.len(),
            done.len() == i,
            forall|j: int| 0 <= j < i ==> view::forms(done@)[j] == view::forms(nodes@)[j],
        decreases nodes.len() - i,
    {
        let ghost before = done@;
        let copied = self::form(&nodes[i]);
        done.push(copied);
        proof {
            view::lemma_forms_push(before, done@.last());
        }
        i += 1;
    }
    assert(view::forms(done@) =~= view::forms(nodes@));
    done
}

pub fn patterns(nodes: &Vec<Pattern>) -> (result: Vec<Pattern>)
    ensures
        view::patterns(result@) == view::patterns(nodes@),
        result.len() == nodes.len(),
    decreases nodes,
{
    let mut done: Vec<Pattern> = Vec::new();
    let mut i: usize = 0;
    while i < nodes.len()
        invariant
            i <= nodes.len(),
            done.len() == i,
            forall|j: int| 0 <= j < i ==> view::patterns(done@)[j] == view::patterns(nodes@)[j],
        decreases nodes.len() - i,
    {
        let ghost before = done@;
        let copied = self::pattern(&nodes[i]);
        done.push(copied);
        proof {
            view::lemma_patterns_push(before, done@.last());
        }
        i += 1;
    }
    assert(view::patterns(done@) =~= view::patterns(nodes@));
    done
}

pub fn segments(nodes: &Vec<Segment>) -> (result: Vec<Segment>)
    ensures
        view::segments(result@) == view::segments(nodes@),
        result.len() == nodes.len(),
{
    let mut done: Vec<Segment> = Vec::new();
    let mut i: usize = 0;
    while i < nodes.len()
        invariant
            i <= nodes.len(),
            done.len() == i,
            forall|j: int| 0 <= j < i ==> view::segments(done@)[j] == view::segments(nodes@)[j],
        decreases nodes.len() - i,
    {
        let ghost before = done@;
        let copied = self::segment(&nodes[i]);
        done.push(copied);
        proof {
            view::lemma_segments_push(before, done@.last());
        }
        i += 1;
    }
    assert(view::segments(done@) =~= view::segments(nodes@));
    done
}

pub fn text_pattern_pairs(nodes: &Vec<(String, Pattern)>) -> (result: Vec<(String, Pattern)>)
    ensures
        view::text_pattern_pairs(result@) == view::text_pattern_pairs(nodes@),
        result.len() == nodes.len(),
    decreases nodes,
{
    let mut done: Vec<(String, Pattern)> = Vec::new();
    let mut i: usize = 0;
    while i < nodes.len()
        invariant
            i <= nodes.len(),
            done.len() == i,
            forall|j: int| 0 <= j < i ==> view::text_pattern_pairs(done@)[j] == view::text_pattern_pairs(nodes@)[j],
        decreases nodes.len() - i,
    {
        let ghost before = done@;
        let copied = (nodes[i].0.clone(), self::pattern(&nodes[i].1));
        done.push(copied);
        proof {
            view::lemma_text_pattern_pairs_push(before, done@.last());
        }
        i += 1;
    }
    assert(view::text_pattern_pairs(done@) =~= view::text_pattern_pairs(nodes@));
    done
}

} // verus!
