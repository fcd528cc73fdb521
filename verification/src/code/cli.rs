//! Pipelines of queries and edits over a workspace.
use vstd::prelude::*;
use crate::code::copy;
use crate::code::form::{fail, read_value};
use crate::code::model::{
    ChangeSet, CodeError, CodeErrorKind, Edit, Form, Node, NodeEdit, NodeKind, Path, Pattern, PipelineOutcome,
    PipelineState, PipelineValue, Query, SavedValue, Segment, SemanticFact, SemanticIndex, SemanticKind,
    SourceDatabase,
};
use crate::code::view::{
    self, CodeErrorView, EditView, FormView, NodeEditView, NodeView, PathView, PatternView, PipelineOutcomeView,
    PipelineStateView, PipelineValueView, QueryView, SavedValueView, SegmentView, SemanticFactView,
    SourceDatabaseView,
};
use crate::code::workspace_path::{add_path, normalize_path};
use crate::execute::path_text::component_texts;
use crate::text::{concat_five, concat_three, concat_two, decimal_text, owned, same_text};
use crate::yaml::model::{YamlEntry, YamlValue};
use crate::yaml::read::{as_mapping, as_natural, as_sequence, as_text, get, parse};
use crate::yaml::view::{YamlEntryView, YamlValueView};

verus! {

/// How a workspace is to be edited.
#[derive(Debug)]
pub struct CodeRunOptions {
    pub workspace: String,
    pub pipeline: String,
    pub write: bool,
    pub lint: bool,
    pub test: bool,
}

pub open spec fn bad_form(message: Seq<char>) -> CodeErrorView {
    crate::code::form::failed(CodeErrorKind::InvalidForm, message)
}

fn form_error(message: &str) -> (error: CodeError)
    ensures
        view::code_error(error) == bad_form(message@),
{
    fail(CodeErrorKind::InvalidForm, message)
}

// Arguments.

/// A number as an index.
pub open spec fn to_index(value: u64) -> usize {
    if value <= usize::MAX {
        value as usize
    } else {
        usize::MAX
    }
}

fn index_from(value: u64) -> (index: usize)
    ensures
        index == to_index(value),
{
    if value <= usize::MAX as u64 {
        value as usize
    } else {
        usize::MAX
    }
}

/// A text field of an argument, if it is there.
pub open spec fn text_field(entries: Seq<YamlEntryView>, key: Seq<char>) -> Result<Option<Seq<char>>, CodeErrorView> {
    match crate::yaml::read::lookup(entries, key) {
        None => Ok(None),
        Some(value) => match crate::yaml::read::text_of(value) {
            Some(text) => Ok(Some(text)),
            None => Err(bad_form("field `"@ + key + "` must be a string"@)),
        },
    }
}

fn get_string(entries: &Vec<YamlEntry>, key: &str) -> (result: Result<Option<String>, CodeError>)
    ensures
        text_field(crate::yaml::view::yaml_entries(entries@), key@) == (match result {
                Ok(Some(text)) => Ok(Some(text@)),
                Ok(None) => Ok(None),
                Err(error) => Err(view::code_error(error)),
        }),
{
    match get(entries, key) {
        None => Ok(None),
        Some(value) => match as_text(value) {
            Some(text) => Ok(Some(text.clone())),
            None => {
                let message = concat_three("field `", key, "` must be a string");
                Err(form_error(message.as_str()))
            }
        },
    }
}

pub open spec fn needed_text(entries: Seq<YamlEntryView>, key: Seq<char>) -> Result<Seq<char>, CodeErrorView> {
    match text_field(entries, key) {
        Err(error) => Err(error),
        Ok(text) => {
            match text {
                Some(text) => Ok(text),
                None => Err(bad_form("operation requires string field `"@ + key + "`"@)),
            }

        },
    }
}

fn required_string(entries: &Vec<YamlEntry>, key: &str) -> (result: Result<String, CodeError>)
    ensures
        crate::code::form::text_outcome(result) == needed_text(crate::yaml::view::yaml_entries(entries@), key@),
{
    let text = match get_string(entries, key) {
        Ok(value) => value,
        Err(error) => return Err(error),
    };
    match text {
        Some(text) => Ok(text),
        None => {
            let message = concat_three("operation requires string field `", key, "`");
            Err(form_error(message.as_str()))
        }
    }
}

pub open spec fn natural_field(entries: Seq<YamlEntryView>, key: Seq<char>) -> Option<usize> {
    match crate::yaml::read::lookup(entries, key) {
        None => None,
        Some(value) => match crate::yaml::read::natural_of(value) {
            Some(number) => Some(to_index(number)),
            None => None,
        },
    }
}

fn get_index(entries: &Vec<YamlEntry>, key: &str) -> (result: Option<usize>)
    ensures
        result == natural_field(crate::yaml::view::yaml_entries(entries@), key@),
{
    match get(entries, key) {
        None => None,
        Some(value) => match as_natural(value) {
            Some(number) => Some(index_from(number)),
            None => None,
        },
    }
}

pub open spec fn needed_index(entries: Seq<YamlEntryView>, key: Seq<char>) -> Result<usize, CodeErrorView> {
    match natural_field(entries, key) {
        Some(index) => Ok(index),
        None => Err(bad_form("operation requires non-negative integer field `"@ + key + "`"@)),
    }
}

fn required_index(entries: &Vec<YamlEntry>, key: &str) -> (result: Result<usize, CodeError>)
    ensures
        needed_index(crate::yaml::view::yaml_entries(entries@), key@) == (match result {
                Ok(index) => Ok(index),
                Err(error) => Err(view::code_error(error)),
        }),
{
    match get_index(entries, key) {
        Some(index) => Ok(index),
        None => {
            let message = concat_three("operation requires non-negative integer field `", key, "`");
            Err(form_error(message.as_str()))
        }
    }
}

pub open spec fn needed_mapping(value: YamlValueView, operation: Seq<char>) -> Result<Seq<YamlEntryView>, CodeErrorView> {
    match crate::yaml::read::mapping_of(value) {
        Some(entries) => Ok(entries),
        None => Err(bad_form(operation + " expects a mapping"@)),
    }
}

fn required_mapping<'a>(value: &'a YamlValue, operation: &str) -> (result: Result<&'a Vec<YamlEntry>, CodeError>)
    ensures
        needed_mapping(crate::yaml::view::yaml_value(*value), operation@) == (match result {
                Ok(entries) => Ok(crate::yaml::view::yaml_entries(entries@)),
                Err(error) => Err(view::code_error(error)),
        }),
{
    match as_mapping(value) {
        Some(entries) => Ok(entries),
        None => {
            let message = concat_two(operation, " expects a mapping");
            Err(form_error(message.as_str()))
        }
    }
}

pub open spec fn needed_text_argument(value: YamlValueView, complaint: Seq<char>) -> Result<Seq<char>, CodeErrorView> {
    match crate::yaml::read::text_of(value) {
        Some(text) => Ok(text),
        None => Err(bad_form(complaint)),
    }
}

fn text_argument(value: &YamlValue, complaint: &str) -> (result: Result<String, CodeError>)
    ensures
        crate::code::form::text_outcome(result) == needed_text_argument(
            crate::yaml::view::yaml_value(*value),
            complaint@,
        ),
{
    match as_text(value) {
        Some(text) => Ok(text.clone()),
        None => Err(form_error(complaint)),
    }
}

/// The form under the key `value` of an argument.
pub open spec fn needed_form(entries: Seq<YamlEntryView>, operation: Seq<char>) -> Result<FormView, CodeErrorView> {
    match crate::yaml::read::lookup(entries, "value"@) {
        None => Err(bad_form(operation + " requires `value`"@)),
        Some(value) => crate::code::form::form_of_value(value),
    }
}

fn required_form(entries: &Vec<YamlEntry>, operation: &str) -> (result: Result<Form, CodeError>)
    ensures
        crate::code::form::form_outcome(result) == needed_form(
            crate::yaml::view::yaml_entries(entries@),
            operation@,
        ),
{
    match get(entries, "value") {
        None => {
            let message = concat_two(operation, " requires `value`");
            Err(form_error(message.as_str()))
        }
        Some(value) => read_value(value),
    }
}

/// A step of a compact path.
pub open spec fn segment_of(value: YamlValueView) -> Result<SegmentView, CodeErrorView> {
    match crate::yaml::read::text_of(value) {
        Some(key) => Ok(SegmentView::Key(key)),
        None => match crate::yaml::read::natural_of(value) {
            Some(index) => Ok(SegmentView::Index(to_index(index))),
            None => Err(bad_form("path segments must be strings or non-negative integers"@)),
        },
    }
}

pub open spec fn segments_of(values: Seq<YamlValueView>, from: int, done: Seq<SegmentView>) -> Result<
Seq<SegmentView>,
CodeErrorView,
>
    decreases values.len() - from,
{
    if from < 0 || from >= values.len() {
        Ok(done)
    } else {
        match segment_of(values[from]) {
            Err(error) => Err(error),
            Ok(segment) => {
                segments_of(values, from + 1, done.push(segment))

            },
        }
    }
}

/// The path that an argument writes as a list of keys and indices.
pub open spec fn path_argument(value: YamlValueView) -> Result<PathView, CodeErrorView> {
    match crate::yaml::read::sequence_of(value) {
        None => Err(bad_form("$code.at expects a compact path sequence"@)),
        Some(values) => {
            match segments_of(values, 0, Seq::empty()) {
                Err(error) => Err(error),
                Ok(segments) => {
                    Ok(PathView { segments })

                },
            }
        },
    }
}

pub open spec fn path_outcome(result: Result<Path, CodeError>) -> Result<PathView, CodeErrorView> {
    match result {
        Ok(path) => Ok(view::path(path)),
        Err(error) => Err(view::code_error(error)),
    }
}

fn compact_path(value: &YamlValue) -> (result: Result<Path, CodeError>)
    ensures
        path_outcome(result) == path_argument(crate::yaml::view::yaml_value(*value)),
{
    let values = match as_sequence(value) {
        Some(values) => values,
        None => return Err(form_error("$code.at expects a compact path sequence")),
    };
    let ghost all = crate::yaml::view::yaml_values(values@);
    let mut segments: Vec<Segment> = Vec::new();
    assert(view::segments(segments@) =~= Seq::<SegmentView>::empty());
    let mut i: usize = 0;
    while i < values.len()
        invariant
            i <= values.len(),
            all == crate::yaml::view::yaml_values(values@),
            crate::yaml::read::sequence_of(crate::yaml::view::yaml_value(*value)) == Some(all),
            segments_of(all, 0, Seq::empty()) == segments_of(all, i as int, view::segments(segments@)),
        decreases values.len() - i,
    {
        assert(all[i as int] == crate::yaml::view::yaml_value(values@[i as int]));
        let segment = match as_text(&values[i]) {
            Some(key) => Segment::Key(key.clone()),
            None => match as_natural(&values[i]) {
                Some(index) => Segment::Index(index_from(index)),
                None => return Err(form_error("path segments must be strings or non-negative integers")),
            },
        };
        let ghost before = segments@;
        segments.push(segment);
        proof {
            view::lemma_segments_push(before, segments@.last());
        }
        i += 1;
    }
    Ok(Path { segments })
}

pub open spec fn joined(base: PathView, relative: PathView) -> PathView {
    PathView { segments: base.segments + relative.segments }
}

fn append_path(base: &Path, relative: &Path) -> (path: Path)
    ensures
        view::path(path) == joined(view::path(*base), view::path(*relative)),
{
    let mut result = copy::path(base);
    let ghost first = view::path(*base).segments;
    let ghost more = view::path(*relative).segments;
    assert(more.len() == relative.segments@.len());
    assert(first + more.take(0) =~= first);
    let mut i: usize = 0;
    while i < relative.segments.len()
        invariant
            i <= relative.segments.len(),
            first == view::path(*base).segments,
            more == view::path(*relative).segments,
            more.len() == relative.segments@.len(),
            view::path(result).segments == first + more.take(i as int),
        decreases relative.segments.len() - i,
    {
        assert(more[i as int] == view::segment(relative.segments@[i as int]));
        result.push(copy::segment(&relative.segments[i]));
        assert(first + more.take(i + 1) =~= (first + more.take(i as int)).push(more[i as int]));
        i += 1;
    }
    assert(more.take(more.len() as int) =~= more);
    result
}

pub open spec fn kind_named(name: Seq<char>) -> Result<NodeKind, CodeErrorView> {
    if name == "scalar"@ {
        Ok(NodeKind::Scalar)
    } else if name == "mapping"@ {
        Ok(NodeKind::Mapping)
    } else if name == "sequence"@ {
        Ok(NodeKind::Sequence)
    } else {
        Err(bad_form("unknown node kind `"@ + name + "`"@))
    }
}

fn parse_kind(name: &str) -> (result: Result<NodeKind, CodeError>)
    ensures
        kind_named(name@) == (match result {
                Ok(kind) => Ok(kind),
                Err(error) => Err(view::code_error(error)),
        }),
{
    if same_text(name, "scalar") {
        Ok(NodeKind::Scalar)
    } else if same_text(name, "mapping") {
        Ok(NodeKind::Mapping)
    } else if same_text(name, "sequence") {
        Ok(NodeKind::Sequence)
    } else {
        let message = concat_three("unknown node kind `", name, "`");
        Err(form_error(message.as_str()))
    }
}

pub open spec fn semantic_kind_named(name: Seq<char>) -> Result<SemanticKind, CodeErrorView> {
    if name == "definition"@ {
        Ok(SemanticKind::Definition)
    } else if name == "import"@ {
        Ok(SemanticKind::Import)
    } else if name == "reference"@ {
        Ok(SemanticKind::Reference)
    } else if name == "call"@ {
        Ok(SemanticKind::Call)
    } else {
        Err(bad_form("unknown semantic kind `"@ + name + "`"@))
    }
}

fn parse_semantic_kind(name: &str) -> (result: Result<SemanticKind, CodeError>)
    ensures
        semantic_kind_named(name@) == (match result {
                Ok(kind) => Ok(kind),
                Err(error) => Err(view::code_error(error)),
        }),
{
    if same_text(name, "definition") {
        Ok(SemanticKind::Definition)
    } else if same_text(name, "import") {
        Ok(SemanticKind::Import)
    } else if same_text(name, "reference") {
        Ok(SemanticKind::Reference)
    } else if same_text(name, "call") {
        Ok(SemanticKind::Call)
    } else {
        let message = concat_three("unknown semantic kind `", name, "`");
        Err(form_error(message.as_str()))
    }
}

// Selections.

/// The node of the database at a path.
pub open spec fn node_in_database(database: SourceDatabaseView, document: Seq<char>, path: PathView) -> Result<
NodeView,
CodeErrorView,
> {
    match crate::code::source::document_in(database, document) {
        Err(error) => Err(error),
        Ok(found) => {
            crate::code::source::node_of(found, path)

        },
    }
}

fn node_at(database: &SourceDatabase, document: &str, path: &Path) -> (result: Result<Node, CodeError>)
    ensures
        crate::code::source::node_outcome(result) == node_in_database(
            view::source_database(*database),
            document@,
            view::path(*path),
        ),
{
    let found = match database.document(document) {
        Ok(value) => value,
        Err(error) => return Err(error),
    };
    found.at(path)
}

fn push_node(nodes: &mut Vec<Node>, node: Node)
    ensures
        view::code_nodes(final(nodes)@) == view::code_nodes(old(nodes)@).push(view::code_node(node)),
{
    let ghost before = nodes@;
    nodes.push(node);
    proof {
        view::lemma_code_nodes_push(before, node);
    }
}

fn no_nodes() -> (nodes: Vec<Node>)
    ensures
        view::code_nodes(nodes@) == Seq::<NodeView>::empty(),
{
    let nodes: Vec<Node> = Vec::new();
    assert(view::code_nodes(nodes@) =~= Seq::<NodeView>::empty());
    nodes
}

fn one_node(node: Node) -> (nodes: Vec<Node>)
    ensures
        view::code_nodes(nodes@) == seq![view::code_node(node)],
{
    let mut nodes = no_nodes();
    push_node(&mut nodes, node);
    assert(view::code_nodes(nodes@) =~= seq![view::code_node(node)]);
    nodes
}

/// Places as documents and paths.
pub type Places = Seq<(Seq<char>, PathView)>;

/// The nodes at places, or the first error.
pub open spec fn nodes_at(database: SourceDatabaseView, places: Places, from: int, done: Seq<NodeView>) -> Result<
Seq<NodeView>,
CodeErrorView,
>
    decreases places.len() - from,
{
    if from < 0 || from >= places.len() {
        Ok(done)
    } else {
        match node_in_database(database, places[from].0, places[from].1) {
            Err(error) => Err(error),
            Ok(node) => {
                nodes_at(database, places, from + 1, done.push(node))

            },
        }
    }
}

/// The nodes at places, those left out that are no longer there.
pub open spec fn nodes_left(
    database: SourceDatabaseView,
    places: Places,
    from: int,
    done: Seq<NodeView>,
) -> Seq<NodeView>
    decreases places.len() - from,
{
    if from < 0 || from >= places.len() {
        done
    } else {
        nodes_left(
            database,
            places,
            from + 1,
            match node_in_database(database, places[from].0, places[from].1) {
                Ok(node) => done.push(node),
                Err(_) => done,
            },
        )
    }
}

pub open spec fn place_views(places: Seq<(String, Path)>) -> Places {
    Seq::new(places.len(), |i: int| (places[i].0@, view::path(places[i].1)))
}

fn find_nodes(database: &SourceDatabase, places: &Vec<(String, Path)>) -> (result: Result<Vec<Node>, CodeError>)
    ensures
        crate::code::source::nodes_outcome(result) == nodes_at(
            view::source_database(*database),
            place_views(places@),
            0,
            Seq::empty(),
        ),
{
    let ghost base = view::source_database(*database);
    let ghost all = place_views(places@);
    let mut done = no_nodes();
    let mut i: usize = 0;
    while i < places.len()
        invariant
            i <= places.len(),
            base == view::source_database(*database),
            all == place_views(places@),
            nodes_at(base, all, 0, Seq::empty()) == nodes_at(base, all, i as int, view::code_nodes(done@)),
        decreases places.len() - i,
    {
        let node = match node_at(database, places[i].0.as_str(), &places[i].1) {
            Ok(value) => value,
            Err(error) => return Err(error),
        };
        push_node(&mut done, node);
        i += 1;
    }
    Ok(done)
}

fn find_nodes_left(database: &SourceDatabase, places: &Vec<(String, Path)>) -> (nodes: Vec<Node>)
    ensures
        view::code_nodes(nodes@) == nodes_left(
            view::source_database(*database),
            place_views(places@),
            0,
            Seq::empty(),
        ),
{
    let ghost base = view::source_database(*database);
    let ghost all = place_views(places@);
    let mut done = no_nodes();
    let mut i: usize = 0;
    while i < places.len()
        invariant
            i <= places.len(),
            base == view::source_database(*database),
            all == place_views(places@),
            nodes_left(base, all, 0, Seq::empty()) == nodes_left(base, all, i as int, view::code_nodes(done@)),
        decreases places.len() - i,
    {
        match node_at(database, places[i].0.as_str(), &places[i].1) {
            Ok(node) => push_node(&mut done, node),
            Err(_) => {}
        }
        i += 1;
    }
    done
}

pub open spec fn place_of(node: NodeView) -> (Seq<char>, PathView) {
    (node.locator.document, node.locator.path)
}

/// The places of nodes.
pub open spec fn places_of(nodes: Seq<NodeView>) -> Places {
    Seq::new(nodes.len(), |i: int| place_of(nodes[i]))
}

/// The places a path away from nodes.
pub open spec fn places_below(nodes: Seq<NodeView>, relative: PathView) -> Places {
    Seq::new(nodes.len(), |i: int| (nodes[i].locator.document, joined(nodes[i].locator.path, relative)))
}

/// The places of the containers of nodes; a root has none.
pub open spec fn parent_places(nodes: Seq<NodeView>, from: int, done: Places) -> Places
    decreases nodes.len() - from,
{
    if from < 0 || from >= nodes.len() {
        done
    } else {
        parent_places(
            nodes,
            from + 1,
            match crate::code::path::parent_of(nodes[from].locator.path) {
                Some(path) => done.push((nodes[from].locator.document, path)),
                None => done,
            },
        )
    }
}

proof fn lemma_places_push(places: Seq<(String, Path)>, place: (String, Path))
    ensures
        place_views(places.push(place)) == place_views(places).push((place.0@, view::path(place.1))),
{
    assert(place_views(places.push(place)) =~= place_views(places).push((place.0@, view::path(place.1))));
}

fn find_places(nodes: &Vec<Node>) -> (places: Vec<(String, Path)>)
    ensures
        place_views(places@) == places_of(view::code_nodes(nodes@)),
{
    let ghost all = view::code_nodes(nodes@);
    assert(all.len() == nodes@.len());
    let mut done: Vec<(String, Path)> = Vec::new();
    let mut i: usize = 0;
    while i < nodes.len()
        invariant
            i <= nodes.len(),
            done.len() == i,
            all == view::code_nodes(nodes@),
            all.len() == nodes@.len(),
            forall|j: int| 0 <= j < i ==> place_views(done@)[j] == place_of(all[j]),
        decreases nodes.len() - i,
    {
        assert(all[i as int] == view::code_node(nodes@[i as int]));
        let ghost before = done@;
        done.push((nodes[i].locator.document.clone(), copy::path(&nodes[i].locator.path)));
        proof {
            lemma_places_push(before, done@.last());
        }
        i += 1;
    }
    assert(place_views(done@) =~= places_of(all));
    done
}

fn find_places_below(nodes: &Vec<Node>, relative: &Path) -> (places: Vec<(String, Path)>)
    ensures
        place_views(places@) == places_below(view::code_nodes(nodes@), view::path(*relative)),
{
    let ghost all = view::code_nodes(nodes@);
    let ghost step = view::path(*relative);
    assert(all.len() == nodes@.len());
    let mut done: Vec<(String, Path)> = Vec::new();
    let mut i: usize = 0;
    while i < nodes.len()
        invariant
            i <= nodes.len(),
            done.len() == i,
            all == view::code_nodes(nodes@),
            step == view::path(*relative),
            all.len() == nodes@.len(),
            forall|j: int| 0 <= j < i ==> place_views(done@)[j] == places_below(all, step)[j],
        decreases nodes.len() - i,
    {
        assert(all[i as int] == view::code_node(nodes@[i as int]));
        let ghost before = done@;
        done.push((nodes[i].locator.document.clone(), append_path(&nodes[i].locator.path, relative)));
        proof {
            lemma_places_push(before, done@.last());
        }
        i += 1;
    }
    assert(place_views(done@) =~= places_below(all, step));
    done
}

fn find_parent_places(nodes: &Vec<Node>) -> (places: Vec<(String, Path)>)
    ensures
        place_views(places@) == parent_places(view::code_nodes(nodes@), 0, Seq::empty()),
{
    let ghost all = view::code_nodes(nodes@);
    let mut done: Vec<(String, Path)> = Vec::new();
    assert(place_views(done@) =~= Seq::<(Seq<char>, PathView)>::empty());
    let mut i: usize = 0;
    while i < nodes.len()
        invariant
            i <= nodes.len(),
            all == view::code_nodes(nodes@),
            parent_places(all, 0, Seq::empty()) == parent_places(all, i as int, place_views(done@)),
        decreases nodes.len() - i,
    {
        assert(all[i as int] == view::code_node(nodes@[i as int]));
        match nodes[i].locator.path.parent() {
            Some(path) => {
                let ghost before = done@;
                done.push((nodes[i].locator.document.clone(), path));
                proof {
                    lemma_places_push(before, done@.last());
                }
            }
            None => {}
        }
        i += 1;
    }
    done
}

pub open spec fn selected_nodes(current: PipelineValueView) -> Result<Seq<NodeView>, CodeErrorView> {
    match current {
        PipelineValueView::Nodes(nodes) => Ok(nodes),
        _ => Err(crate::code::text_edit::conflict("operation requires a node selection"@)),
    }
}

fn current_nodes(current: &PipelineValue) -> (result: Result<&Vec<Node>, CodeError>)
    ensures
        selected_nodes(view::pipeline_value(*current)) == (match result {
                Ok(nodes) => Ok(view::code_nodes(nodes@)),
                Err(error) => Err(view::code_error(error)),
        }),
{
    match current {
        PipelineValue::Nodes(nodes) => Ok(nodes),
        _ => Err(fail(CodeErrorKind::EditConflict, "operation requires a node selection")),
    }
}

pub open spec fn selected_file(current: PipelineValueView) -> Result<Seq<char>, CodeErrorView> {
    match current {
        PipelineValueView::File(path) => Ok(path),
        _ => Err(crate::code::text_edit::conflict("operation requires a selected file"@)),
    }
}

fn current_file(current: &PipelineValue) -> (result: Result<String, CodeError>)
    ensures
        crate::code::form::text_outcome(result) == selected_file(view::pipeline_value(*current)),
{
    match current {
        PipelineValue::File(path) => Ok(path.clone()),
        _ => Err(fail(CodeErrorKind::EditConflict, "operation requires a selected file")),
    }
}

/// The nodes below which is searched.
pub open spec fn search_roots(state: PipelineStateView) -> Result<Seq<NodeView>, CodeErrorView> {
    match state.current {
        PipelineValueView::File(path) => {
            match node_in_database(state.database, path, crate::code::path::root_path()) {
                Err(error) => Err(error),
                Ok(root) => {
                    Ok(seq![root])

                },
            }
        },
        PipelineValueView::Nodes(nodes) => Ok(nodes),
        _ => Err(crate::code::text_edit::conflict("$code.find requires a file or node selection"@)),
    }
}

fn selection_roots(state: &PipelineState) -> (result: Result<Vec<Node>, CodeError>)
    ensures
        crate::code::source::nodes_outcome(result) == search_roots(view::pipeline_state(*state)),
{
    match &state.current {
        PipelineValue::File(path) => {
            let root = match node_at(&state.database, path.as_str(), &Path::root()) {
                Ok(value) => value,
                Err(error) => return Err(error),
            };
            Ok(one_node(root))
        }
        PipelineValue::Nodes(nodes) => Ok(copy::code_nodes(nodes)),
        _ => Err(fail(CodeErrorKind::EditConflict, "$code.find requires a file or node selection")),
    }
}

/// The children of nodes one after the other.
pub open spec fn all_children(
    nodes: Seq<NodeView>,
    from: int,
    done: Seq<NodeView>,
) -> Result<Seq<NodeView>, CodeErrorView>
    decreases nodes.len() - from,
{
    if from < 0 || from >= nodes.len() {
        Ok(done)
    } else {
        match crate::code::source::children_of(nodes[from]) {
            Err(error) => Err(error),
            Ok(children) => {
                all_children(nodes, from + 1, done + children)

            },
        }
    }
}

fn append_nodes(nodes: &mut Vec<Node>, more: &Vec<Node>)
    ensures
        view::code_nodes(final(nodes)@) == view::code_nodes(old(nodes)@) + view::code_nodes(more@),
{
    let ghost first = view::code_nodes(nodes@);
    let ghost added = view::code_nodes(more@);
    assert(added.len() == more@.len());
    assert(first + added.take(0) =~= first);
    let mut i: usize = 0;
    while i < more.len()
        invariant
            i <= more.len(),
            first == view::code_nodes(old(nodes)@),
            added == view::code_nodes(more@),
            added.len() == more@.len(),
            view::code_nodes(nodes@) == first + added.take(i as int),
        decreases more.len() - i,
    {
        assert(added[i as int] == view::code_node(more@[i as int]));
        push_node(nodes, copy::code_node(&more[i]));
        assert(first + added.take(i + 1) =~= (first + added.take(i as int)).push(added[i as int]));
        i += 1;
    }
    assert(added.take(added.len() as int) =~= added);
}

fn collect_children(nodes: &Vec<Node>) -> (result: Result<Vec<Node>, CodeError>)
    ensures
        crate::code::source::nodes_outcome(result) == all_children(view::code_nodes(nodes@), 0, Seq::empty()),
{
    let ghost all = view::code_nodes(nodes@);
    let mut done = no_nodes();
    let mut i: usize = 0;
    while i < nodes.len()
        invariant
            i <= nodes.len(),
            all == view::code_nodes(nodes@),
            all_children(all, 0, Seq::empty()) == all_children(all, i as int, view::code_nodes(done@)),
        decreases nodes.len() - i,
    {
        assert(all[i as int] == view::code_node(nodes@[i as int]));
        let children = match nodes[i].children() {
            Ok(value) => value,
            Err(error) => return Err(error),
        };
        append_nodes(&mut done, &children);
        i += 1;
    }
    Ok(done)
}

// Finding.

/// Whether a fact is about something below one of the roots.
pub open spec fn is_below(roots: Seq<NodeView>, fact: SemanticFactView) -> bool {
    exists|i: int| 0 <= i < roots.len() && leads(#[trigger] roots[i], fact)
}

pub open spec fn leads(root: NodeView, fact: SemanticFactView) -> bool {
    crate::code::workspace_path::normal_path(root.locator.document) == crate::code::workspace_path::normal_path(
        fact.document,
    ) && crate::code::path::leads_to(root.locator.path, fact.path)
}

fn below_some(roots: &Vec<Node>, fact: &SemanticFact) -> (result: bool)
    ensures
        result == is_below(view::code_nodes(roots@), view::semantic_fact(*fact)),
{
    let ghost all = view::code_nodes(roots@);
    let ghost wanted = view::semantic_fact(*fact);
    assert(all.len() == roots@.len());
    let document = normalize_path(fact.document.as_str());
    let mut i: usize = 0;
    while i < roots.len()
        invariant
            i <= roots.len(),
            all == view::code_nodes(roots@),
            all.len() == roots@.len(),
            wanted == view::semantic_fact(*fact),
            document@ == crate::code::workspace_path::normal_path(wanted.document),
            forall|j: int| 0 <= j < i ==> !leads(#[trigger] all[j], wanted),
        decreases roots.len() - i,
    {
        assert(all[i as int] == view::code_node(roots@[i as int]));
        let own = normalize_path(roots[i].locator.document.as_str());
        if same_text(own.as_str(), document.as_str()) && roots[i].locator.path.is_prefix_of(&fact.path) {
            assert(leads(all[i as int], wanted));
            return true;
        }
        i += 1;
    }
    false
}

/// The nodes of the facts below the roots.
pub open spec fn fact_nodes(
    database: SourceDatabaseView,
    roots: Seq<NodeView>,
    facts: Seq<SemanticFactView>,
    from: int,
    done: Seq<NodeView>,
) -> Result<Seq<NodeView>, CodeErrorView>
    decreases facts.len() - from,
{
    if from < 0 || from >= facts.len() {
        Ok(done)
    } else if is_below(roots, facts[from]) {
        match node_in_database(database, facts[from].document, facts[from].path) {
            Err(error) => Err(error),
            Ok(node) => {
                fact_nodes(database, roots, facts, from + 1, done.push(node))

            },
        }
    } else {
        fact_nodes(database, roots, facts, from + 1, done)
    }
}

fn nodes_of_facts(database: &SourceDatabase, roots: &Vec<Node>, facts: &Vec<SemanticFact>) -> (result: Result<
    Vec<Node>,
    CodeError,
    >)
    ensures
        crate::code::source::nodes_outcome(result) == fact_nodes(
            view::source_database(*database),
            view::code_nodes(roots@),
            view::semantic_facts(facts@),
            0,
            Seq::empty(),
        ),
{
    let ghost base = view::source_database(*database);
    let ghost tops = view::code_nodes(roots@);
    let ghost all = view::semantic_facts(facts@);
    let mut done = no_nodes();
    let mut i: usize = 0;
    while i < facts.len()
        invariant
            i <= facts.len(),
            base == view::source_database(*database),
            tops == view::code_nodes(roots@),
            all == view::semantic_facts(facts@),
            fact_nodes(base, tops, all, 0, Seq::empty()) == fact_nodes(
                base,
                tops,
                all,
                i as int,
                view::code_nodes(done@),
            ),
        decreases facts.len() - i,
    {
        assert(all[i as int] == view::semantic_fact(facts@[i as int]));
        if below_some(roots, &facts[i]) {
            let node = match node_at(database, facts[i].document.as_str(), &facts[i].path) {
                Ok(value) => value,
                Err(error) => return Err(error),
            };
            push_node(&mut done, node);
        }
        i += 1;
    }
    Ok(done)
}

/// The query that an argument of `$code.find` asks, from a path on.
pub open spec fn find_query(argument: YamlValueView, root: PathView) -> Result<QueryView, CodeErrorView> {
    let query = QueryView { include_root: true, ..crate::code::query::descendants_query(root) };
    match argument {
        YamlValueView::Text(key) => Ok(QueryView { mapping_key: Some(key), ..query }),
        YamlValueView::Mapping(options) => {
            match text_field(options, "key"@) {
                Err(error) => Err(error),
                Ok(key) => {
                    match scalar_pattern(options) {
                        Err(error) => Err(error),
                        Ok(pattern) => {
                            match kind_option(options) {
                                Err(error) => Err(error),
                                Ok(kind) => {
                                    Ok(
                                        QueryView {
                                            mapping_key: key,
                                            pattern,
                                            kind,
                                            limit: natural_field(options, "limit"@),
                                            ..query
                                        },
                                    )

                                },
                            }

                        },
                    }

                },
            }
        },
        _ => Err(bad_form("$code.find expects a key string or query mapping"@)),
    }
}

pub open spec fn scalar_pattern(options: Seq<YamlEntryView>) -> Result<Option<PatternView>, CodeErrorView> {
    match crate::yaml::read::lookup(options, "scalar"@) {
        None => Ok(None),
        Some(value) => {
            match crate::code::form::form_of_value(value) {
                Err(error) => Err(error),
                Ok(form) => {
                    Ok(Some(PatternView::Exact(form)))

                },
            }
        },
    }
}

pub open spec fn kind_option(options: Seq<YamlEntryView>) -> Result<Option<NodeKind>, CodeErrorView> {
    match text_field(options, "kind"@) {
        Err(error) => Err(error),
        Ok(name) => {
            match name {
                None => Ok(None),
                Some(name) => {
                    match kind_named(name) {
                        Err(error) => Err(error),
                        Ok(kind) => {
                            Ok(Some(kind))

                        },
                    }
                },
            }

        },
    }
}

fn build_query(argument: &YamlValue, root: &Path) -> (result: Result<Query, CodeError>)
    ensures
        find_query(crate::yaml::view::yaml_value(*argument), view::path(*root)) == (match result {
                Ok(query) => Ok(view::query(query)),
                Err(error) => Err(view::code_error(error)),
        }),
{
    let base = copy::path(root);
    match argument {
        YamlValue::Text(key) => Ok(Query::subtree(base).with_mapping_key(key.clone())),
        YamlValue::Mapping(options) => {
            let mapping_key = match get_string(options, "key") {
                Ok(value) => value,
                Err(error) => return Err(error),
            };
            let pattern = match get(options, "scalar") {
                None => None,
                Some(value) => {
                    let form = match read_value(value) {
                        Ok(value) => value,
                        Err(error) => return Err(error),
                    };
                    Some(Pattern::Exact(form))
                }
            };
            let name = match get_string(options, "kind") {
                Ok(value) => value,
                Err(error) => return Err(error),
            };
            let kind = match name {
                None => None,
                Some(name) => {
                    let kind = match parse_kind(name.as_str()) {
                        Ok(value) => value,
                        Err(error) => return Err(error),
                    };
                    Some(kind)
                }
            };
            let limit = get_index(options, "limit");
            Ok(Query { root: base, include_root: true, mapping_key, kind, pattern, limit })
        }
        _ => Err(form_error("$code.find expects a key string or query mapping")),
    }
}

/// The nodes that a search finds below each root.
pub open spec fn found_below(
    database: SourceDatabaseView,
    argument: YamlValueView,
    roots: Seq<NodeView>,
    from: int,
    done: Seq<NodeView>,
) -> Result<Seq<NodeView>, CodeErrorView>
    decreases roots.len() - from,
{
    if from < 0 || from >= roots.len() {
        Ok(done)
    } else {
        match find_query(argument, roots[from].locator.path) {
            Err(error) => Err(error),
            Ok(query) => {
                match crate::code::source::document_in(database, roots[from].locator.document) {
                    Err(error) => Err(error),
                    Ok(document) => {
                        match crate::code::query::found(query, document) {
                            Err(error) => Err(error),
                            Ok(matches) => {
                                found_below(database, argument, roots, from + 1, done + match_nodes(matches))

                            },
                        }

                    },
                }

            },
        }
    }
}

pub open spec fn match_nodes(matches: Seq<crate::code::view::QueryMatchView>) -> Seq<NodeView> {
    Seq::new(matches.len(), |i: int| matches[i].node)
}

fn nodes_of_matches(matches: &Vec<crate::code::model::QueryMatch>) -> (nodes: Vec<Node>)
    ensures
        view::code_nodes(nodes@) == match_nodes(view::query_matches(matches@)),
{
    let ghost all = view::query_matches(matches@);
    assert(all.len() == matches@.len());
    let mut done = no_nodes();
    let mut i: usize = 0;
    while i < matches.len()
        invariant
            i <= matches.len(),
            view::code_nodes(done@).len() == i,
            all == view::query_matches(matches@),
            all.len() == matches@.len(),
            forall|j: int| 0 <= j < i ==> view::code_nodes(done@)[j] == all[j].node,
        decreases matches.len() - i,
    {
        assert(all[i as int] == view::query_match(matches@[i as int]));
        push_node(&mut done, copy::code_node(&matches[i].node));
        i += 1;
    }
    assert(view::code_nodes(done@) =~= match_nodes(all));
    done
}

fn search_below(database: &SourceDatabase, argument: &YamlValue, roots: &Vec<Node>) -> (result: Result<
    Vec<Node>,
    CodeError,
    >)
    ensures
        crate::code::source::nodes_outcome(result) == found_below(
            view::source_database(*database),
            crate::yaml::view::yaml_value(*argument),
            view::code_nodes(roots@),
            0,
            Seq::empty(),
        ),
{
    let ghost base = view::source_database(*database);
    let ghost wanted = crate::yaml::view::yaml_value(*argument);
    let ghost all = view::code_nodes(roots@);
    let mut done = no_nodes();
    let mut i: usize = 0;
    while i < roots.len()
        invariant
            i <= roots.len(),
            base == view::source_database(*database),
            wanted == crate::yaml::view::yaml_value(*argument),
            all == view::code_nodes(roots@),
            found_below(base, wanted, all, 0, Seq::empty()) == found_below(
                base,
                wanted,
                all,
                i as int,
                view::code_nodes(done@),
            ),
        decreases roots.len() - i,
    {
        assert(all[i as int] == view::code_node(roots@[i as int]));
        let query = match build_query(argument, &roots[i].locator.path) {
            Ok(value) => value,
            Err(error) => return Err(error),
        };
        let document = match database.document(roots[i].locator.document.as_str()) {
            Ok(value) => value,
            Err(error) => return Err(error),
        };
        let matches = match query.execute(&document) {
            Ok(value) => value,
            Err(error) => return Err(error),
        };
        let nodes = nodes_of_matches(&matches);
        append_nodes(&mut done, &nodes);
        i += 1;
    }
    Ok(done)
}

/// What kind of fact an argument of `$code.find` looks for, if it does.
pub open spec fn semantic_option(argument: YamlValueView) -> Result<Option<Seq<char>>, CodeErrorView> {
    match argument {
        YamlValueView::Mapping(options) => text_field(options, "semantic"@),
        _ => Ok(None),
    }
}

/// The nodes that `$code.find` selects.
pub open spec fn search(state: PipelineStateView, argument: YamlValueView) -> Result<Seq<NodeView>, CodeErrorView> {
    match search_roots(state) {
        Err(error) => Err(error),
        Ok(roots) => {
            match semantic_option(argument) {
                Err(error) => Err(error),
                Ok(semantic) => {
                    match (semantic, argument) {
                        (Some(name), YamlValueView::Mapping(options)) => {
                            match semantic_kind_named(name) {
                                Err(error) => Err(error),
                                Ok(kind) => {
                                    match text_field(options, "symbol"@) {
                                        Err(error) => Err(error),
                                        Ok(symbol) => {
                                            match crate::code::semantic::index_of(state.database) {
                                                Err(error) => Err(error),
                                                Ok(index) => {
                                                    fact_nodes(
                                                        state.database,
                                                        roots,
                                                        crate::code::semantic::facts_for(
                                                            index.facts,
                                                            0,
                                                            Some(kind),
                                                            symbol,
                                                            Seq::empty(),
                                                        ),
                                                        0,
                                                        Seq::empty(),
                                                    )

                                                },
                                            }

                                        },
                                    }

                                },
                            }
                        },
                        _ => found_below(state.database, argument, roots, 0, Seq::empty()),
                    }

                },
            }

        },
    }
}

fn find(state: &PipelineState, argument: &YamlValue) -> (result: Result<Vec<Node>, CodeError>)
    ensures
        crate::code::source::nodes_outcome(result) == search(
            view::pipeline_state(*state),
            crate::yaml::view::yaml_value(*argument),
        ),
{
    let roots = match selection_roots(state) {
        Ok(value) => value,
        Err(error) => return Err(error),
    };
    match argument {
        YamlValue::Mapping(options) => {
            let semantic = match get_string(options, "semantic") {
                Ok(value) => value,
                Err(error) => return Err(error),
            };
            match semantic {
                Some(name) => {
                    let kind = match parse_semantic_kind(name.as_str()) {
                        Ok(value) => value,
                        Err(error) => return Err(error),
                    };
                    let symbol = match get_string(options, "symbol") {
                        Ok(value) => value,
                        Err(error) => return Err(error),
                    };
                    let index = match SemanticIndex::build(&state.database) {
                        Ok(value) => value,
                        Err(error) => return Err(error),
                    };
                    let facts = match &symbol {
                        Some(symbol) => index.query(Some(kind), Some(symbol.as_str())),
                        None => index.query(Some(kind), None),
                    };
                    return nodes_of_facts(&state.database, &roots, &facts);
                }
                None => {}
            }
        }
        _ => {}
    }
    search_below(&state.database, argument, &roots)
}

// Projections.

pub open spec fn kind_text(kind: NodeKind) -> Seq<char> {
    match kind {
        NodeKind::Scalar => "scalar"@,
        NodeKind::Mapping => "mapping"@,
        NodeKind::Sequence => "sequence"@,
    }
}

fn kind_name(kind: NodeKind) -> (name: String)
    ensures
        name@ == kind_text(kind),
{
    match kind {
        NodeKind::Scalar => owned("scalar"),
        NodeKind::Mapping => owned("mapping"),
        NodeKind::Sequence => owned("sequence"),
    }
}

pub open spec fn segment_value(segment: SegmentView) -> YamlValueView {
    match segment {
        SegmentView::Key(key) => YamlValueView::Text(key),
        SegmentView::Index(index) => if index <= i64::MAX {
            YamlValueView::Int(index as i64)
        } else {
            YamlValueView::Large(index as u64)
        },
    }
}

fn value_of_segment(segment: &Segment) -> (value: YamlValue)
    ensures
        crate::yaml::view::yaml_value(value) == segment_value(view::segment(*segment)),
{
    match segment {
        Segment::Key(key) => YamlValue::Text(key.clone()),
        Segment::Index(index) => if *index as u64 <= i64::MAX as u64 {
            YamlValue::Int(*index as i64)
        } else {
            YamlValue::Large(*index as u64)
        },
    }
}

pub open spec fn path_value(path: PathView) -> YamlValueView {
    YamlValueView::Sequence(Seq::new(path.segments.len(), |i: int| segment_value(path.segments[i])))
}

fn value_of_path(path: &Path) -> (value: YamlValue)
    ensures
        crate::yaml::view::yaml_value(value) == path_value(view::path(*path)),
{
    let ghost all = view::path(*path).segments;
    assert(all.len() == path.segments@.len());
    let mut values: Vec<YamlValue> = Vec::new();
    let mut i: usize = 0;
    while i < path.segments.len()
        invariant
            i <= path.segments.len(),
            values.len() == i,
            all == view::path(*path).segments,
            all.len() == path.segments@.len(),
            forall|j: int| 0 <= j < i ==> crate::yaml::view::yaml_values(values@)[j] == segment_value(all[j]),
        decreases path.segments.len() - i,
    {
        assert(all[i as int] == view::segment(path.segments@[i as int]));
        let ghost before = values@;
        values.push(value_of_segment(&path.segments[i]));
        proof {
            crate::yaml::view::lemma_yaml_values_push(before, values@.last());
        }
        i += 1;
    }
    assert(crate::yaml::view::yaml_values(values@) =~= Seq::new(all.len(), |i: int| segment_value(all[i])));
    YamlValue::Sequence(values)
}

/// A mapping of text keys in order.
pub open spec fn text_entry(key: Seq<char>, value: YamlValueView) -> YamlEntryView {
    YamlEntryView { key: YamlValueView::Text(key), value }
}

fn push_entry(entries: &mut Vec<YamlEntry>, key: &str, value: YamlValue)
    ensures
        crate::yaml::view::yaml_entries(final(entries)@) == crate::yaml::view::yaml_entries(old(entries)@).push(
            text_entry(key@, crate::yaml::view::yaml_value(value)),
        ),
{
    let ghost before = entries@;
    entries.push(YamlEntry { key: YamlValue::Text(owned(key)), value });
    proof {
        crate::yaml::view::lemma_yaml_entries_push(before, entries@.last());
    }
}

/// A short account of a node.
pub open spec fn summary(node: NodeView) -> YamlValueView {
    YamlValueView::Mapping(
        seq![
            text_entry("document"@, YamlValueView::Text(node.locator.document)),
            text_entry("path"@, path_value(node.locator.path)),
            text_entry("kind"@, YamlValueView::Text(kind_text(node.kind))),
            text_entry("fingerprint"@, YamlValueView::Text(node.locator.fingerprint)),
        ],
    )
}

fn summarize(node: &Node) -> (value: YamlValue)
    ensures
        crate::yaml::view::yaml_value(value) == summary(view::code_node(*node)),
{
    let mut entries: Vec<YamlEntry> = Vec::new();
    assert(crate::yaml::view::yaml_entries(entries@) =~= Seq::<YamlEntryView>::empty());
    push_entry(&mut entries, "document", YamlValue::Text(node.locator.document.clone()));
    push_entry(&mut entries, "path", value_of_path(&node.locator.path));
    push_entry(&mut entries, "kind", YamlValue::Text(kind_name(node.kind)));
    push_entry(&mut entries, "fingerprint", YamlValue::Text(node.locator.fingerprint.clone()));
    let ghost given = view::code_node(*node);
    assert(crate::yaml::view::yaml_entries(entries@) =~= seq![
            text_entry("document"@, YamlValueView::Text(given.locator.document)),
            text_entry("path"@, path_value(given.locator.path)),
            text_entry("kind"@, YamlValueView::Text(kind_text(given.kind))),
            text_entry("fingerprint"@, YamlValueView::Text(given.locator.fingerprint)),
    ]);
    YamlValue::Mapping(entries)
}

/// What of a node is shown.
#[derive(Debug, Clone, Copy, PartialEq, Eq, Structural)]
pub enum Projection {
    Summary,
    Form,
    Source,
}

pub open spec fn projected(node: NodeView, projection: Projection) -> YamlValueView {
    match projection {
        Projection::Summary => summary(node),
        Projection::Form => crate::code::form::value_of_form(node.form),
        Projection::Source => YamlValueView::Text(node.source),
    }
}

pub open spec fn all_projected(nodes: Seq<NodeView>, projection: Projection) -> Seq<YamlValueView> {
    Seq::new(nodes.len(), |i: int| projected(nodes[i], projection))
}

/// What of nodes is shown: one form or source by itself, else a list.
pub open spec fn projection_of(nodes: Seq<NodeView>, projection: Projection) -> YamlValueView {
    if nodes.len() == 1 && projection != Projection::Summary {
        projected(nodes[0], projection)
    } else {
        YamlValueView::Sequence(all_projected(nodes, projection))
    }
}

fn project(node: &Node, projection: Projection) -> (value: YamlValue)
    ensures
        crate::yaml::view::yaml_value(value) == projected(view::code_node(*node), projection),
{
    match projection {
        Projection::Summary => summarize(node),
        Projection::Form => node.form.to_yaml_value(),
        Projection::Source => YamlValue::Text(node.source.clone()),
    }
}

fn project_many(nodes: &Vec<Node>, projection: Projection) -> (value: YamlValue)
    ensures
        crate::yaml::view::yaml_value(value) == projection_of(view::code_nodes(nodes@), projection),
{
    let ghost all = view::code_nodes(nodes@);
    assert(all.len() == nodes@.len());
    if nodes.len() == 1 && projection != Projection::Summary {
        assert(all[0] == view::code_node(nodes@[0]));
        return project(&nodes[0], projection);
    }
    let mut values: Vec<YamlValue> = Vec::new();
    let mut i: usize = 0;
    while i < nodes.len()
        invariant
            i <= nodes.len(),
            values.len() == i,
            all == view::code_nodes(nodes@),
            all.len() == nodes@.len(),
            forall|j: int|
            0 <= j < i ==> crate::yaml::view::yaml_values(values@)[j] == projected(#[trigger] all[j], projection),
        decreases nodes.len() - i,
    {
        assert(all[i as int] == view::code_node(nodes@[i as int]));
        let ghost before = values@;
        values.push(project(&nodes[i], projection));
        proof {
            crate::yaml::view::lemma_yaml_values_push(before, values@.last());
        }
        i += 1;
    }
    assert(crate::yaml::view::yaml_values(values@) =~= all_projected(all, projection));
    YamlValue::Sequence(values)
}

pub open spec fn projection_named(name: Seq<char>) -> Result<Projection, CodeErrorView> {
    if name == "form"@ {
        Ok(Projection::Form)
    } else if name == "source"@ {
        Ok(Projection::Source)
    } else if name == "summary"@ {
        Ok(Projection::Summary)
    } else {
        Err(bad_form("$code.project expects `summary`, `form`, or `source`"@))
    }
}

fn parse_projection(name: &str) -> (result: Result<Projection, CodeError>)
    ensures
        projection_named(name@) == (match result {
                Ok(projection) => Ok(projection),
                Err(error) => Err(view::code_error(error)),
        }),
{
    if same_text(name, "form") {
        Ok(Projection::Form)
    } else if same_text(name, "source") {
        Ok(Projection::Source)
    } else if same_text(name, "summary") {
        Ok(Projection::Summary)
    } else {
        Err(form_error("$code.project expects `summary`, `form`, or `source`"))
    }
}

pub open spec fn project_value(current: PipelineValueView, name: Seq<char>) -> Result<YamlValueView, CodeErrorView> {
    match selected_nodes(current) {
        Err(error) => Err(error),
        Ok(nodes) => {
            match projection_named(name) {
                Err(error) => Err(error),
                Ok(projection) => {
                    Ok(projection_of(nodes, projection))

                },
            }

        },
    }
}

/// The text of what a pipeline ends with.
pub open spec fn output_of(current: PipelineValueView) -> Result<Seq<char>, CodeErrorView> {
    let value = match current {
        PipelineValueView::Value(value) => value,
        PipelineValueView::Nodes(nodes) => projection_of(nodes, Projection::Summary),
        PipelineValueView::File(path) => YamlValueView::Text(path),
        PipelineValueView::Workspace => YamlValueView::Text("workspace"@),
    };
    match crate::yaml::render::rendered(value) {
        Ok(text) => Ok(text),
        Err(message) => Err(bad_form("render `vibra code` output: "@ + message)),
    }
}

pub fn render_pipeline_value(current: &PipelineValue) -> (result: Result<String, CodeError>)
    ensures
        crate::code::form::text_outcome(result) == output_of(view::pipeline_value(*current)),
{
    let value = match current {
        PipelineValue::Value(value) => crate::yaml::copy::yaml_value(value),
        PipelineValue::Nodes(nodes) => project_many(nodes, Projection::Summary),
        PipelineValue::File(path) => YamlValue::Text(path.clone()),
        PipelineValue::Workspace => YamlValue::Text(owned("workspace")),
    };
    match crate::yaml::render::render(&value) {
        Ok(text) => Ok(text),
        Err(message) => {
            let text = concat_two("render `vibra code` output: ", message.as_str());
            Err(form_error(text.as_str()))
        }
    }
}

// Edits.

/// The edit of one selected node.
pub open spec fn edit_of(edit: NodeEditView, node: NodeView) -> EditView {
    let target = node.locator;
    match edit {
        NodeEditView::Replace(value) => EditView::Replace { target, value },
        NodeEditView::Delete => EditView::Delete { target },
        NodeEditView::RenameKey(new_key) => EditView::RenameMappingKey { target, new_key },
        NodeEditView::Upsert { key, value } => EditView::UpsertMapping { target, key, value },
        NodeEditView::InsertMapping { key, value } => EditView::InsertMapping { target, key, value },
        NodeEditView::Insert { index, value } => EditView::InsertSequence { target, index, value },
        NodeEditView::Splice { start, delete_count, values } => EditView::SpliceSequence {
            target,
            start,
            delete_count,
            values,
        },
    }
}

pub open spec fn edits_for(edit: NodeEditView, nodes: Seq<NodeView>) -> Seq<EditView> {
    Seq::new(nodes.len(), |i: int| edit_of(edit, nodes[i]))
}

fn edit_for(edit: &NodeEdit, node: &Node) -> (result: Edit)
    ensures
        view::edit(result) == edit_of(view::node_edit(*edit), view::code_node(*node)),
{
    let target = node.locator();
    match edit {
        NodeEdit::Replace(value) => Edit::Replace { target, value: copy::form(value) },
        NodeEdit::Delete => Edit::Delete { target },
        NodeEdit::RenameKey(new_key) => Edit::RenameMappingKey { target, new_key: new_key.clone() },
        NodeEdit::Upsert { key, value } => Edit::UpsertMapping { target, key: key.clone(), value: copy::form(value) },
        NodeEdit::InsertMapping { key, value } => Edit::InsertMapping {
            target,
            key: key.clone(),
            value: copy::form(value),
        },
        NodeEdit::Insert { index, value } => Edit::InsertSequence { target, index: *index, value: copy::form(value) },
        NodeEdit::Splice { start, delete_count, values } => Edit::SpliceSequence {
            target,
            start: *start,
            delete_count: *delete_count,
            values: copy::forms(values),
        },
    }
}

fn changes_for(edit: &NodeEdit, nodes: &Vec<Node>) -> (changes: ChangeSet)
    ensures
        view::edits(changes.edits@) == edits_for(view::node_edit(*edit), view::code_nodes(nodes@)),
{
    let ghost all = view::code_nodes(nodes@);
    let ghost wanted = view::node_edit(*edit);
    assert(all.len() == nodes@.len());
    let mut edits: Vec<Edit> = Vec::new();
    let mut i: usize = 0;
    while i < nodes.len()
        invariant
            i <= nodes.len(),
            edits.len() == i,
            all == view::code_nodes(nodes@),
            all.len() == nodes@.len(),
            wanted == view::node_edit(*edit),
            forall|j: int| 0 <= j < i ==> view::edits(edits@)[j] == edit_of(wanted, #[trigger] all[j]),
        decreases nodes.len() - i,
    {
        assert(all[i as int] == view::code_node(nodes@[i as int]));
        let ghost before = edits@;
        edits.push(edit_for(edit, &nodes[i]));
        proof {
            view::lemma_edits_push(before, edits@.last());
        }
        i += 1;
    }
    assert(view::edits(edits@) =~= edits_for(wanted, all));
    ChangeSet { edits }
}

pub open spec fn with_paths(paths: Seq<Seq<char>>, more: Seq<Seq<char>>, from: int) -> Seq<Seq<char>>
    decreases more.len() - from,
{
    if from < 0 || from >= more.len() {
        paths
    } else {
        with_paths(crate::code::workspace_path::with_path(paths, 0, more[from]), more, from + 1)
    }
}

pub(crate) fn add_paths(paths: &mut Vec<String>, more: &Vec<String>)
    ensures
        crate::lowered::view::texts(final(paths)@) == with_paths(
            crate::lowered::view::texts(old(paths)@),
            crate::lowered::view::texts(more@),
            0,
        ),
{
    let ghost first = crate::lowered::view::texts(paths@);
    let ghost all = crate::lowered::view::texts(more@);
    let mut i: usize = 0;
    while i < more.len()
        invariant
            i <= more.len(),
            first == crate::lowered::view::texts(old(paths)@),
            all == crate::lowered::view::texts(more@),
            with_paths(first, all, 0) == with_paths(crate::lowered::view::texts(paths@), all, i as int),
        decreases more.len() - i,
    {
        assert(all[i as int] == more@[i as int]@);
        add_path(paths, more[i].as_str());
        i += 1;
    }
}

/// The state after edits.
pub open spec fn changed(state: PipelineStateView, edits: Seq<EditView>) -> Result<PipelineStateView, CodeErrorView> {
    match crate::code::edit::applied(state.database, edits) {
        Err(error) => Err(error),
        Ok(applied) => {
            Ok(PipelineStateView { database: applied.0, changed: with_paths(state.changed, applied.1, 0), ..state })

        },
    }
}

pub open spec fn state_outcome(result: Result<PipelineState, CodeError>) -> Result<PipelineStateView, CodeErrorView> {
    match result {
        Ok(state) => Ok(view::pipeline_state(state)),
        Err(error) => Err(view::code_error(error)),
    }
}

fn apply_changes(state: PipelineState, changes: &ChangeSet) -> (result: Result<PipelineState, CodeError>)
    ensures
        state_outcome(result) == changed(view::pipeline_state(state), view::edits(changes.edits@)),
{
    let applied = match state.database.apply(changes) {
        Ok(value) => value,
        Err(error) => return Err(error),
    };
    let mut paths = state.changed;
    add_paths(&mut paths, &applied.changed_files);
    Ok(
        PipelineState {
            original: state.original,
            database: applied.database,
            current: state.current,
            saved: state.saved,
            changed: paths,
        },
    )
}

pub open spec fn with_current(state: PipelineStateView, current: PipelineValueView) -> PipelineStateView {
    PipelineStateView { current, ..state }
}

fn set_current(state: PipelineState, current: PipelineValue) -> (result: PipelineState)
    ensures
        view::pipeline_state(result) == with_current(view::pipeline_state(state), view::pipeline_value(current)),
{
    PipelineState {
        original: state.original,
        database: state.database,
        current,
        saved: state.saved,
        changed: state.changed,
    }
}

/// Edits every selected node; those that are still there stay selected.
pub open spec fn nodes_edited(state: PipelineStateView, edit: NodeEditView) -> Result<PipelineStateView, CodeErrorView> {
    match selected_nodes(state.current) {
        Err(error) => Err(error),
        Ok(nodes) => {
            match changed(state, edits_for(edit, nodes)) {
                Err(error) => Err(error),
                Ok(after) => {
                    Ok(
                        with_current(
                            after,
                            PipelineValueView::Nodes(nodes_left(after.database, places_of(nodes), 0, Seq::empty())),
                        ),
                    )

                },
            }

        },
    }
}

fn apply_node_edits(state: PipelineState, edit: &NodeEdit) -> (result: Result<PipelineState, CodeError>)
    ensures
        state_outcome(result) == nodes_edited(view::pipeline_state(state), view::node_edit(*edit)),
{
    let changes;
    let places;
    match current_nodes(&state.current) {
        Ok(nodes) => {
            changes = changes_for(edit, nodes);
            places = find_places(nodes);
        }
        Err(error) => return Err(error),
    }
    let after = match apply_changes(state, &changes) {
        Ok(value) => value,
        Err(error) => return Err(error),
    };
    let nodes = find_nodes_left(&after.database, &places);
    Ok(set_current(after, PipelineValue::Nodes(nodes)))
}

/// Where the nodes of renamed keys are found afterwards.
pub open spec fn renamed_places(nodes: Seq<NodeView>, from: int, key: Seq<char>, done: Places) -> Result<
Places,
CodeErrorView,
>
    decreases nodes.len() - from,
{
    if from < 0 || from >= nodes.len() {
        Ok(done)
    } else {
        match crate::code::path::parent_of(nodes[from].locator.path) {
            None => Err(crate::code::text_edit::conflict("document root cannot be deleted or renamed"@)),
            Some(parent) => renamed_places(
                nodes,
                from + 1,
                key,
                done.push((nodes[from].locator.document, crate::code::path::child_of(parent, SegmentView::Key(key)))),
            ),
        }
    }
}

fn find_renamed_places(nodes: &Vec<Node>, key: &str) -> (result: Result<Vec<(String, Path)>, CodeError>)
    ensures
        renamed_places(view::code_nodes(nodes@), 0, key@, Seq::empty()) == (match result {
                Ok(places) => Ok(place_views(places@)),
                Err(error) => Err(view::code_error(error)),
        }),
{
    let ghost all = view::code_nodes(nodes@);
    let mut done: Vec<(String, Path)> = Vec::new();
    assert(place_views(done@) =~= Seq::<(Seq<char>, PathView)>::empty());
    let mut i: usize = 0;
    while i < nodes.len()
        invariant
            i <= nodes.len(),
            all == view::code_nodes(nodes@),
            renamed_places(all, 0, key@, Seq::empty()) == renamed_places(all, i as int, key@, place_views(done@)),
        decreases nodes.len() - i,
    {
        assert(all[i as int] == view::code_node(nodes@[i as int]));
        let parent = match nodes[i].locator.path.parent() {
            Some(parent) => parent,
            None => return Err(fail(CodeErrorKind::EditConflict, "document root cannot be deleted or renamed")),
        };
        let ghost before = done@;
        done.push((nodes[i].locator.document.clone(), parent.child(Segment::Key(owned(key)))));
        proof {
            lemma_places_push(before, done@.last());
        }
        i += 1;
    }
    Ok(done)
}

/// Renames the keys of the selected nodes, which stay selected.
pub open spec fn keys_renamed(state: PipelineStateView, key: Seq<char>) -> Result<PipelineStateView, CodeErrorView> {
    match selected_nodes(state.current) {
        Err(error) => Err(error),
        Ok(nodes) => {
            match renamed_places(nodes, 0, key, Seq::empty()) {
                Err(error) => Err(error),
                Ok(places) => {
                    match nodes_edited(state, NodeEditView::RenameKey(key)) {
                        Err(error) => Err(error),
                        Ok(after) => {
                            match nodes_at(after.database, places, 0, Seq::empty()) {
                                Err(error) => Err(error),
                                Ok(found) => {
                                    Ok(with_current(after, PipelineValueView::Nodes(found)))

                                },
                            }

                        },
                    }

                },
            }

        },
    }
}

fn rename_keys(state: PipelineState, key: String) -> (result: Result<PipelineState, CodeError>)
    ensures
        state_outcome(result) == keys_renamed(view::pipeline_state(state), key@),
{
    let places;
    match current_nodes(&state.current) {
        Ok(nodes) => {
            let found = match find_renamed_places(nodes, key.as_str()) {
                Ok(value) => value,
                Err(error) => return Err(error),
            };
            places = found;
        }
        Err(error) => return Err(error),
    }
    let after = match apply_node_edits(state, &NodeEdit::RenameKey(key)) {
        Ok(value) => value,
        Err(error) => return Err(error),
    };
    let nodes = match find_nodes(&after.database, &places) {
        Ok(value) => value,
        Err(error) => return Err(error),
    };
    Ok(set_current(after, PipelineValue::Nodes(nodes)))
}

// Copies, moves and renames.

/// Where a copy or a move goes.
pub open spec fn destination_of(options: Seq<YamlEntryView>, operation: Seq<char>) -> Result<SegmentView, CodeErrorView> {
    match text_field(options, "key"@) {
        Err(error) => Err(error),
        Ok(key) => {
            match (key, natural_field(options, "index"@)) {
                (Some(key), _) => Ok(SegmentView::Key(key)),
                (None, Some(index)) => Ok(SegmentView::Index(index)),
                (None, None) => Err(bad_form(operation + " requires either `key` or `index`"@)),
            }

        },
    }
}

fn find_destination(options: &Vec<YamlEntry>, operation: &str) -> (result: Result<Segment, CodeError>)
    ensures
        destination_of(crate::yaml::view::yaml_entries(options@), operation@) == (match result {
                Ok(segment) => Ok(view::segment(segment)),
                Err(error) => Err(view::code_error(error)),
        }),
{
    let key = match get_string(options, "key") {
        Ok(value) => value,
        Err(error) => return Err(error),
    };
    match key {
        Some(key) => Ok(Segment::Key(key)),
        None => match get_index(options, "index") {
            Some(index) => Ok(Segment::Index(index)),
            None => {
                let message = concat_two(operation, " requires either `key` or `index`");
                Err(form_error(message.as_str()))
            }
        },
    }
}

pub open spec fn optional_path(options: Seq<YamlEntryView>) -> Result<PathView, CodeErrorView> {
    match crate::yaml::read::lookup(options, "to"@) {
        None => Ok(crate::code::path::root_path()),
        Some(value) => path_argument(value),
    }
}

/// Copies or moves the one selected node.
pub open spec fn transferred(
    state: PipelineStateView,
    argument: YamlValueView,
    operation: Seq<char>,
    copying: bool,
) -> Result<
PipelineStateView,
CodeErrorView,
> {
    match selected_nodes(state.current) {
        Err(error) => Err(error),
        Ok(nodes) => {
            if nodes.len() != 1 {
                Err(crate::code::text_edit::conflict(operation + " requires exactly one selected source node"@))
            } else {
                match needed_mapping(argument, operation) {
                    Err(error) => Err(error),
                    Ok(options) => {
                        match text_field(options, "file"@) {
                            Err(error) => Err(error),
                            Ok(named) => {
                                let file = match named {
                                    Some(path) => crate::code::workspace_path::normal_path(path),
                                    None => nodes[0].locator.document,
                                };
                                match optional_path(options) {
                                    Err(error) => Err(error),
                                    Ok(path) => {
                                        match node_in_database(state.database, file, path) {
                                            Err(error) => Err(error),
                                            Ok(target) => {
                                                match destination_of(options, operation) {
                                                    Err(error) => Err(error),
                                                    Ok(destination) => {
                                                        let source = nodes[0].locator;
                                                        let edit = if copying {
                                                            EditView::Copy { source, target: target.locator, destination }
                                                        } else {
                                                            EditView::Move { source, target: target.locator, destination }
                                                        };
                                                        match changed(state, seq![edit]) {
                                                            Err(error) => Err(error),
                                                            Ok(after) => {
                                                                match node_in_database(after.database, file, crate::code::path::child_of(path, destination)) {
                                                                    Err(error) => Err(error),
                                                                    Ok(found) => {
                                                                        Ok(
                                                                            with_current(
                                                                                after,
                                                                                PipelineValueView::Nodes(seq![found]),
                                                                            ),
                                                                        )

                                                                    },
                                                                }

                                                            },
                                                        }

                                                    },
                                                }

                                            },
                                        }

                                    },
                                }

                            },
                        }

                    },
                }
            }

        },
    }
}

fn transfer(state: PipelineState, argument: &YamlValue, operation: &str, copying: bool) -> (result: Result<
    PipelineState,
    CodeError,
    >)
    ensures
        state_outcome(result) == transferred(
            view::pipeline_state(state),
            crate::yaml::view::yaml_value(*argument),
            operation@,
            copying,
        ),
{
    let source;
    let own;
    match current_nodes(&state.current) {
        Ok(nodes) => {
            assert(view::code_nodes(nodes@).len() == nodes@.len());
            if nodes.len() != 1 {
                let message = concat_two(operation, " requires exactly one selected source node");
                return Err(fail(CodeErrorKind::EditConflict, message.as_str()));
            }
            assert(view::code_nodes(nodes@)[0] == view::code_node(nodes@[0]));
            source = nodes[0].locator();
            own = nodes[0].locator.document.clone();
        }
        Err(error) => return Err(error),
    }
    let options = match required_mapping(argument, operation) {
        Ok(value) => value,
        Err(error) => return Err(error),
    };
    let named = match get_string(options, "file") {
        Ok(value) => value,
        Err(error) => return Err(error),
    };
    let file = match named {
        Some(path) => normalize_path(path.as_str()),
        None => own,
    };
    let path = match get(options, "to") {
        None => Path::root(),
        Some(value) => {
            let path = match compact_path(value) {
                Ok(value) => value,
                Err(error) => return Err(error),
            };
            path
        }
    };
    let target = match node_at(&state.database, file.as_str(), &path) {
        Ok(value) => value,
        Err(error) => return Err(error),
    };
    let destination = match find_destination(options, operation) {
        Ok(value) => value,
        Err(error) => return Err(error),
    };
    let place = path.child(copy::segment(&destination));
    let changes = if copying {
        ChangeSet::new().copy(source, target.locator(), destination)
    } else {
        ChangeSet::new().move_node(source, target.locator(), destination)
    };
    proof {
        assert(view::edits(changes.edits@) =~= seq![view::edits(changes.edits@)[0]]);
    }
    let after = match apply_changes(state, &changes) {
        Ok(value) => value,
        Err(error) => return Err(error),
    };
    let found = match node_at(&after.database, file.as_str(), &place) {
        Ok(value) => value,
        Err(error) => return Err(error),
    };
    Ok(set_current(after, PipelineValue::Nodes(one_node(found))))
}

/// Renames a symbol or an import alias everywhere.
pub open spec fn renamed(
    state: PipelineStateView,
    argument: YamlValueView,
    operation: Seq<char>,
    symbols: bool,
) -> Result<
PipelineStateView,
CodeErrorView,
> {
    match needed_mapping(argument, operation) {
        Err(error) => Err(error),
        Ok(options) => {
            match needed_text(options, "file"@) {
                Err(error) => Err(error),
                Ok(file) => {
                    match needed_text(options, "from"@) {
                        Err(error) => Err(error),
                        Ok(from) => {
                            match needed_text(options, "to"@) {
                                Err(error) => Err(error),
                                Ok(to) => {
                                    match crate::code::semantic::index_of(state.database) {
                                        Err(error) => Err(error),
                                        Ok(index) => {
                                            match if symbols {
                                                crate::code::semantic::symbol_renamed(
                                                    index,
                                                    state.database,
                                                    file,
                                                    from,
                                                    to,
                                                )
                                            } else {
                                                crate::code::semantic::alias_renamed(
                                                    index,
                                                    state.database,
                                                    file,
                                                    from,
                                                    to,
                                                )
                                            } {
                                                Err(error) => Err(error),
                                                Ok(edits) => {
                                                    match changed(state, edits) {
                                                        Err(error) => Err(error),
                                                        Ok(after) => {
                                                            Ok(with_current(after, PipelineValueView::Workspace))

                                                        },
                                                    }

                                                },
                                            }

                                        },
                                    }

                                },
                            }

                        },
                    }

                },
            }

        },
    }
}

fn rename(state: PipelineState, argument: &YamlValue, operation: &str, symbols: bool) -> (result: Result<
    PipelineState,
    CodeError,
    >)
    ensures
        state_outcome(result) == renamed(
            view::pipeline_state(state),
            crate::yaml::view::yaml_value(*argument),
            operation@,
            symbols,
        ),
{
    let options = match required_mapping(argument, operation) {
        Ok(value) => value,
        Err(error) => return Err(error),
    };
    let file = match required_string(options, "file") {
        Ok(value) => value,
        Err(error) => return Err(error),
    };
    let from = match required_string(options, "from") {
        Ok(value) => value,
        Err(error) => return Err(error),
    };
    let to = match required_string(options, "to") {
        Ok(value) => value,
        Err(error) => return Err(error),
    };
    let index = match SemanticIndex::build(&state.database) {
        Ok(value) => value,
        Err(error) => return Err(error),
    };
    let result = if symbols {
        index.rename_symbol(&state.database, file.as_str(), from.as_str(), to.as_str())
    } else {
        index.rename_import_alias(&state.database, file.as_str(), from.as_str(), to.as_str())
    };
    let changes = match result {
        Ok(value) => value,
        Err(error) => return Err(error),
    };
    let after = match apply_changes(state, &changes) {
        Ok(value) => value,
        Err(error) => return Err(error),
    };
    Ok(set_current(after, PipelineValue::Workspace))
}

// Saved values.

pub open spec fn saved_value(saved: Seq<SavedValueView>, from: int, name: Seq<char>) -> Option<PipelineValueView>
    decreases saved.len() - from,
{
    if from < 0 || from >= saved.len() {
        None
    } else if saved[from].name == name {
        Some(saved[from].value)
    } else {
        saved_value(saved, from + 1, name)
    }
}

pub open spec fn with_saved(saved: Seq<SavedValueView>, from: int, name: Seq<char>, value: PipelineValueView) -> Seq<
SavedValueView,
>
    decreases saved.len() - from,
{
    if from < 0 || from >= saved.len() {
        saved.push(SavedValueView { name, value })
    } else if saved[from].name == name {
        saved.update(from, SavedValueView { name, value })
    } else {
        with_saved(saved, from + 1, name, value)
    }
}

fn find_saved(saved: &Vec<SavedValue>, name: &str) -> (result: Option<PipelineValue>)
    ensures
        saved_value(view::saved_values(saved@), 0, name@) == (match result {
                Some(value) => Some(view::pipeline_value(value)),
                None => None,
        }),
{
    let ghost all = view::saved_values(saved@);
    let mut i: usize = 0;
    while i < saved.len()
        invariant
            i <= saved.len(),
            all == view::saved_values(saved@),
            saved_value(all, 0, name@) == saved_value(all, i as int, name@),
        decreases saved.len() - i,
    {
        assert(all[i as int] == view::saved_value(saved@[i as int]));
        if same_text(saved[i].name.as_str(), name) {
            return Some(copy::pipeline_value(&saved[i].value));
        }
        i += 1;
    }
    None
}

fn save(saved: &mut Vec<SavedValue>, name: &str, value: PipelineValue)
    ensures
        view::saved_values(final(saved)@) == with_saved(
            view::saved_values(old(saved)@),
            0,
            name@,
            view::pipeline_value(value),
        ),
{
    let ghost before = saved@;
    let ghost all = view::saved_values(before);
    let entry = SavedValue { name: owned(name), value };
    let ghost added = view::saved_value(entry);
    let mut i: usize = 0;
    while i < saved.len()
        invariant
            i <= saved.len(),
            saved@ == before,
            before == old(saved)@,
            all == view::saved_values(before),
            added == view::saved_value(entry),
            added == (SavedValueView { name: name@, value: view::pipeline_value(value) }),
            with_saved(all, 0, name@, added.value) == with_saved(all, i as int, name@, added.value),
        decreases saved.len() - i,
    {
        assert(all[i as int] == view::saved_value(saved@[i as int]));
        if same_text(saved[i].name.as_str(), name) {
            saved.set(i, entry);
            assert(view::saved_values(saved@) =~= all.update(i as int, added));
            return;
        }
        i += 1;
    }
    saved.push(entry);
    proof {
        view::lemma_saved_values_push(before, entry);
    }
}

// Stages.

/// The one operation of a stage with its argument.
pub open spec fn operation_of(stage: YamlValueView) -> Result<(Seq<char>, YamlValueView), CodeErrorView> {
    match crate::yaml::read::mapping_of(stage) {
        None => Err(bad_form("pipeline stage must be a singleton mapping"@)),
        Some(entries) => if entries.len() != 1 {
            Err(bad_form("pipeline stage must contain exactly one operation"@))
        } else {
            match crate::yaml::read::text_of(entries[0].key) {
                None => Err(bad_form("pipeline operation name must be a string"@)),
                Some(name) => Ok((name, entries[0].value)),
            }
        },
    }
}

/// The edit that an operation makes to each selected node.
pub open spec fn node_edit_of(operation: Seq<char>, argument: YamlValueView) -> Result<Option<NodeEditView>, CodeErrorView> {
    if operation == "$code.replace"@ {
        match crate::code::form::form_of_value(argument) {
            Err(error) => Err(error),
            Ok(value) => {
                Ok(Some(NodeEditView::Replace(value)))

            },
        }
    } else if operation == "$code.upsert"@ || operation == "$code.insert-mapping"@ {
        match needed_mapping(argument, operation) {
            Err(error) => Err(error),
            Ok(options) => {
                match needed_text(options, "key"@) {
                    Err(error) => Err(error),
                    Ok(key) => {
                        match needed_form(options, operation) {
                            Err(error) => Err(error),
                            Ok(value) => {
                                if operation == "$code.upsert"@ {
                                    Ok(Some(NodeEditView::Upsert { key, value }))
                                } else {
                                    Ok(Some(NodeEditView::InsertMapping { key, value }))
                                }

                            },
                        }

                    },
                }

            },
        }
    } else if operation == "$code.insert"@ {
        match needed_mapping(argument, operation) {
            Err(error) => Err(error),
            Ok(options) => {
                match needed_index(options, "index"@) {
                    Err(error) => Err(error),
                    Ok(index) => {
                        match needed_form(options, operation) {
                            Err(error) => Err(error),
                            Ok(value) => {
                                Ok(Some(NodeEditView::Insert { index, value }))

                            },
                        }

                    },
                }

            },
        }
    } else if operation == "$code.splice"@ {
        match needed_mapping(argument, operation) {
            Err(error) => Err(error),
            Ok(options) => {
                match needed_index(options, "start"@) {
                    Err(error) => Err(error),
                    Ok(start) => {
                        match needed_index(options, "delete"@) {
                            Err(error) => Err(error),
                            Ok(delete_count) => {
                                match needed_forms(options) {
                                    Err(error) => Err(error),
                                    Ok(values) => {
                                        Ok(Some(NodeEditView::Splice { start, delete_count, values }))

                                    },
                                }

                            },
                        }

                    },
                }

            },
        }
    } else {
        Ok(None)
    }
}

pub open spec fn needed_forms(options: Seq<YamlEntryView>) -> Result<Seq<FormView>, CodeErrorView> {
    match crate::yaml::read::lookup(options, "values"@) {
        None => Err(bad_form("$code.splice requires a `values` sequence"@)),
        Some(value) => match crate::yaml::read::sequence_of(value) {
            None => Err(bad_form("$code.splice requires a `values` sequence"@)),
            Some(items) => crate::code::form::forms_of_values(items, 0, Seq::empty()),
        },
    }
}

fn required_forms(options: &Vec<YamlEntry>) -> (result: Result<Vec<Form>, CodeError>)
    ensures
        needed_forms(crate::yaml::view::yaml_entries(options@)) == (match result {
                Ok(forms) => Ok(view::forms(forms@)),
                Err(error) => Err(view::code_error(error)),
        }),
{
    match get(options, "values") {
        None => Err(form_error("$code.splice requires a `values` sequence")),
        Some(value) => match as_sequence(value) {
            None => Err(form_error("$code.splice requires a `values` sequence")),
            Some(items) => crate::code::form::read_values(items),
        },
    }
}

fn read_node_edit(operation: &str, argument: &YamlValue) -> (result: Result<Option<NodeEdit>, CodeError>)
    ensures
        node_edit_of(operation@, crate::yaml::view::yaml_value(*argument)) == (match result {
                Ok(Some(edit)) => Ok(Some(view::node_edit(edit))),
                Ok(None) => Ok(None),
                Err(error) => Err(view::code_error(error)),
        }),
{
    if same_text(operation, "$code.replace") {
        let value = match read_value(argument) {
            Ok(value) => value,
            Err(error) => return Err(error),
        };
        Ok(Some(NodeEdit::Replace(value)))
    } else if same_text(operation, "$code.upsert") || same_text(operation, "$code.insert-mapping") {
        let options = match required_mapping(argument, operation) {
            Ok(value) => value,
            Err(error) => return Err(error),
        };
        let key = match required_string(options, "key") {
            Ok(value) => value,
            Err(error) => return Err(error),
        };
        let value = match required_form(options, operation) {
            Ok(value) => value,
            Err(error) => return Err(error),
        };
        if same_text(operation, "$code.upsert") {
            Ok(Some(NodeEdit::Upsert { key, value }))
        } else {
            Ok(Some(NodeEdit::InsertMapping { key, value }))
        }
    } else if same_text(operation, "$code.insert") {
        let options = match required_mapping(argument, operation) {
            Ok(value) => value,
            Err(error) => return Err(error),
        };
        let index = match required_index(options, "index") {
            Ok(value) => value,
            Err(error) => return Err(error),
        };
        let value = match required_form(options, operation) {
            Ok(value) => value,
            Err(error) => return Err(error),
        };
        Ok(Some(NodeEdit::Insert { index, value }))
    } else if same_text(operation, "$code.splice") {
        let options = match required_mapping(argument, operation) {
            Ok(value) => value,
            Err(error) => return Err(error),
        };
        let start = match required_index(options, "start") {
            Ok(value) => value,
            Err(error) => return Err(error),
        };
        let delete_count = match required_index(options, "delete") {
            Ok(value) => value,
            Err(error) => return Err(error),
        };
        let values = match required_forms(options) {
            Ok(value) => value,
            Err(error) => return Err(error),
        };
        Ok(Some(NodeEdit::Splice { start, delete_count, values }))
    } else {
        Ok(None)
    }
}

/// The nodes that `$code.at` selects.
pub open spec fn selected_at(state: PipelineStateView, relative: PathView) -> Result<Seq<NodeView>, CodeErrorView> {
    match state.current {
        PipelineValueView::File(file) => {
            match node_in_database(state.database, file, relative) {
                Err(error) => Err(error),
                Ok(node) => {
                    Ok(seq![node])

                },
            }
        },
        PipelineValueView::Nodes(nodes) => nodes_at(state.database, places_below(nodes, relative), 0, Seq::empty()),
        _ => Err(crate::code::text_edit::conflict("$code.at requires a file or node selection"@)),
    }
}

fn select_at(state: &PipelineState, relative: &Path) -> (result: Result<Vec<Node>, CodeError>)
    ensures
        crate::code::source::nodes_outcome(result) == selected_at(
            view::pipeline_state(*state),
            view::path(*relative),
        ),
{
    match &state.current {
        PipelineValue::File(file) => {
            let node = match node_at(&state.database, file.as_str(), relative) {
                Ok(value) => value,
                Err(error) => return Err(error),
            };
            Ok(one_node(node))
        }
        PipelineValue::Nodes(nodes) => {
            let places = find_places_below(nodes, relative);
            find_nodes(&state.database, &places)
        }
        _ => Err(fail(CodeErrorKind::EditConflict, "$code.at requires a file or node selection")),
    }
}

/// Selects a document.
pub open spec fn file_selected(state: PipelineStateView, argument: YamlValueView) -> Result<
PipelineStateView,
CodeErrorView,
> {
    match needed_text_argument(argument, "$code.file expects a path string"@) {
        Err(error) => Err(error),
        Ok(path) => {
            let file = crate::code::workspace_path::normal_path(path);
            match crate::code::source::document_in(state.database, file) {
                Err(error) => Err(error),
                Ok(document) => {
                    Ok(with_current(state, PipelineValueView::File(file)))

                },
            }

        },
    }
}

fn select_file(state: PipelineState, argument: &YamlValue) -> (result: Result<PipelineState, CodeError>)
    ensures
        state_outcome(result) == file_selected(view::pipeline_state(state), crate::yaml::view::yaml_value(*argument)),
{
    let path = match text_argument(argument, "$code.file expects a path string") {
        Ok(value) => value,
        Err(error) => return Err(error),
    };
    let file = normalize_path(path.as_str());
    match state.database.document(file.as_str()) {
        Ok(_) => {}
        Err(error) => return Err(error),
    }
    Ok(set_current(state, PipelineValue::File(file)))
}

/// Selects the root of the selected document.
pub open spec fn root_selected(state: PipelineStateView) -> Result<
PipelineStateView,
CodeErrorView,
> {
    match selected_file(state.current) {
        Err(error) => Err(error),
        Ok(file) => {
            match node_in_database(state.database, file, crate::code::path::root_path()) {
                Err(error) => Err(error),
                Ok(root) => {
                    Ok(with_current(state, PipelineValueView::Nodes(seq![root])))

                },
            }

        },
    }
}

fn select_root(state: PipelineState) -> (result: Result<PipelineState, CodeError>)
    ensures
        state_outcome(result) == root_selected(view::pipeline_state(state)),
{
    let file = match current_file(&state.current) {
        Ok(value) => value,
        Err(error) => return Err(error),
    };
    let root = match node_at(&state.database, file.as_str(), &Path::root()) {
        Ok(value) => value,
        Err(error) => return Err(error),
    };
    Ok(set_current(state, PipelineValue::Nodes(one_node(root))))
}

/// Selects what a path leads to.
pub open spec fn path_selected(state: PipelineStateView, argument: YamlValueView) -> Result<
PipelineStateView,
CodeErrorView,
> {
    match path_argument(argument) {
        Err(error) => Err(error),
        Ok(relative) => {
            match selected_at(state, relative) {
                Err(error) => Err(error),
                Ok(nodes) => {
                    Ok(with_current(state, PipelineValueView::Nodes(nodes)))

                },
            }

        },
    }
}

fn select_path(state: PipelineState, argument: &YamlValue) -> (result: Result<PipelineState, CodeError>)
    ensures
        state_outcome(result) == path_selected(view::pipeline_state(state), crate::yaml::view::yaml_value(*argument)),
{
    let relative = match compact_path(argument) {
        Ok(value) => value,
        Err(error) => return Err(error),
    };
    let nodes = match select_at(&state, &relative) {
        Ok(value) => value,
        Err(error) => return Err(error),
    };
    Ok(set_current(state, PipelineValue::Nodes(nodes)))
}

/// Selects the containers of the selected nodes.
pub open spec fn parents_selected(state: PipelineStateView) -> Result<
PipelineStateView,
CodeErrorView,
> {
    match selected_nodes(state.current) {
        Err(error) => Err(error),
        Ok(nodes) => {
            match nodes_at(state.database, parent_places(nodes, 0, Seq::empty()), 0, Seq::empty()) {
                Err(error) => Err(error),
                Ok(parents) => {
                    Ok(with_current(state, PipelineValueView::Nodes(parents)))

                },
            }

        },
    }
}

fn select_parents(state: PipelineState) -> (result: Result<PipelineState, CodeError>)
    ensures
        state_outcome(result) == parents_selected(view::pipeline_state(state)),
{
    let places;
    match current_nodes(&state.current) {
        Ok(nodes) => places = find_parent_places(nodes),
        Err(error) => return Err(error),
    }
    let parents = match find_nodes(&state.database, &places) {
        Ok(value) => value,
        Err(error) => return Err(error),
    };
    Ok(set_current(state, PipelineValue::Nodes(parents)))
}

/// Selects what is directly below the selected nodes.
pub open spec fn children_selected(state: PipelineStateView) -> Result<
PipelineStateView,
CodeErrorView,
> {
    match selected_nodes(state.current) {
        Err(error) => Err(error),
        Ok(nodes) => {
            match all_children(nodes, 0, Seq::empty()) {
                Err(error) => Err(error),
                Ok(children) => {
                    Ok(with_current(state, PipelineValueView::Nodes(children)))

                },
            }

        },
    }
}

fn select_children(state: PipelineState) -> (result: Result<PipelineState, CodeError>)
    ensures
        state_outcome(result) == children_selected(view::pipeline_state(state)),
{
    let children;
    match current_nodes(&state.current) {
        Ok(nodes) => children = collect_children(nodes),
        Err(error) => return Err(error),
    }
    let found = match children {
        Ok(value) => value,
        Err(error) => return Err(error),
    };
    Ok(set_current(state, PipelineValue::Nodes(found)))
}

/// Selects what a search finds.
pub open spec fn search_selected(state: PipelineStateView, argument: YamlValueView) -> Result<
PipelineStateView,
CodeErrorView,
> {
    match search(state, argument) {
        Err(error) => Err(error),
        Ok(nodes) => {
            Ok(with_current(state, PipelineValueView::Nodes(nodes)))

        },
    }
}

fn select_found(state: PipelineState, argument: &YamlValue) -> (result: Result<PipelineState, CodeError>)
    ensures
        state_outcome(result) == search_selected(
            view::pipeline_state(state),
            crate::yaml::view::yaml_value(*argument),
        ),
{
    let nodes = match find(&state, argument) {
        Ok(value) => value,
        Err(error) => return Err(error),
    };
    Ok(set_current(state, PipelineValue::Nodes(nodes)))
}

/// Shows the selected nodes.
pub open spec fn nodes_projected(state: PipelineStateView, argument: YamlValueView) -> Result<
PipelineStateView,
CodeErrorView,
> {
    match needed_text_argument(argument, "$code.project expects `summary`, `form`, or `source`"@) {
        Err(error) => Err(error),
        Ok(name) => {
            match project_value(state.current, name) {
                Err(error) => Err(error),
                Ok(value) => {
                    Ok(with_current(state, PipelineValueView::Value(value)))

                },
            }

        },
    }
}

fn project_nodes(state: PipelineState, argument: &YamlValue) -> (result: Result<PipelineState, CodeError>)
    ensures
        state_outcome(result) == nodes_projected(
            view::pipeline_state(state),
            crate::yaml::view::yaml_value(*argument),
        ),
{
    let name = match text_argument(argument, "$code.project expects `summary`, `form`, or `source`") {
        Ok(value) => value,
        Err(error) => return Err(error),
    };
    let value;
    match current_nodes(&state.current) {
        Ok(nodes) => {
            let projection = match parse_projection(name.as_str()) {
                Ok(value) => value,
                Err(error) => return Err(error),
            };
            value = project_many(nodes, projection);
        }
        Err(error) => return Err(error),
    }
    Ok(set_current(state, PipelineValue::Value(value)))
}

/// Keeps the selection under a name.
pub open spec fn value_saved(state: PipelineStateView, argument: YamlValueView) -> Result<
PipelineStateView,
CodeErrorView,
> {
    match needed_text_argument(argument, "$code.save expects a name"@) {
        Err(error) => Err(error),
        Ok(name) => {
            Ok(PipelineStateView { saved: with_saved(state.saved, 0, name, state.current), ..state })

        },
    }
}

fn save_value(state: PipelineState, argument: &YamlValue) -> (result: Result<PipelineState, CodeError>)
    ensures
        state_outcome(result) == value_saved(view::pipeline_state(state), crate::yaml::view::yaml_value(*argument)),
{
    let name = match text_argument(argument, "$code.save expects a name") {
        Ok(value) => value,
        Err(error) => return Err(error),
    };
    let mut saved = state.saved;
    save(&mut saved, name.as_str(), copy::pipeline_value(&state.current));
    Ok(
        PipelineState {
            original: state.original,
            database: state.database,
            current: state.current,
            saved,
            changed: state.changed,
        },
    )
}

/// Takes a kept selection back.
pub open spec fn value_loaded(state: PipelineStateView, argument: YamlValueView) -> Result<
PipelineStateView,
CodeErrorView,
> {
    match needed_text_argument(argument, "$code.load expects a name"@) {
        Err(error) => Err(error),
        Ok(name) => {
            match saved_value(state.saved, 0, name) {
                Some(value) => Ok(with_current(state, value)),
                None => Err(
                    crate::code::source::bad_path("saved pipeline value `"@ + name + "` does not exist"@),
                ),
            }

        },
    }
}

fn load_value(state: PipelineState, argument: &YamlValue) -> (result: Result<PipelineState, CodeError>)
    ensures
        state_outcome(result) == value_loaded(view::pipeline_state(state), crate::yaml::view::yaml_value(*argument)),
{
    let name = match text_argument(argument, "$code.load expects a name") {
        Ok(value) => value,
        Err(error) => return Err(error),
    };
    match find_saved(&state.saved, name.as_str()) {
        Some(value) => Ok(set_current(state, value)),
        None => {
            let message = concat_three("saved pipeline value `", name.as_str(), "` does not exist");
            Err(CodeError::new(CodeErrorKind::InvalidPath, message))
        }
    }
}

/// The state after a stage that only looks.
pub open spec fn looked(state: PipelineStateView, operation: Seq<char>, argument: YamlValueView) -> Result<
PipelineStateView,
CodeErrorView,
> {
    if operation == "$code.file"@ {
        file_selected(state, argument)
    } else if operation == "$code.root"@ {
        root_selected(state)
    } else if operation == "$code.at"@ {
        path_selected(state, argument)
    } else if operation == "$code.parent"@ {
        parents_selected(state)
    } else if operation == "$code.children"@ {
        children_selected(state)
    } else if operation == "$code.find"@ {
        search_selected(state, argument)
    } else if operation == "$code.project"@ {
        nodes_projected(state, argument)
    } else if operation == "$code.save"@ {
        value_saved(state, argument)
    } else {
        value_loaded(state, argument)
    }
}

fn look(state: PipelineState, operation: &str, argument: &YamlValue) -> (result: Result<PipelineState, CodeError>)
    ensures
        state_outcome(result) == looked(
            view::pipeline_state(state),
            operation@,
            crate::yaml::view::yaml_value(*argument),
        ),
{
    if same_text(operation, "$code.file") {
        select_file(state, argument)
    } else if same_text(operation, "$code.root") {
        select_root(state)
    } else if same_text(operation, "$code.at") {
        select_path(state, argument)
    } else if same_text(operation, "$code.parent") {
        select_parents(state)
    } else if same_text(operation, "$code.children") {
        select_children(state)
    } else if same_text(operation, "$code.find") {
        select_found(state, argument)
    } else if same_text(operation, "$code.project") {
        project_nodes(state, argument)
    } else if same_text(operation, "$code.save") {
        save_value(state, argument)
    } else {
        load_value(state, argument)
    }
}

pub open spec fn is_look(operation: Seq<char>) -> bool {
    operation == "$code.file"@ || operation == "$code.root"@ || operation == "$code.at"@ || operation == "$code.parent"@
    || operation == "$code.children"@ || operation == "$code.find"@ || operation == "$code.project"@ || operation
    == "$code.save"@ || operation == "$code.load"@
}

fn looks(operation: &str) -> (result: bool)
    ensures
        result == is_look(operation@),
{
    same_text(operation, "$code.file") || same_text(operation, "$code.root") || same_text(operation, "$code.at")
    || same_text(operation, "$code.parent") || same_text(operation, "$code.children") || same_text(
        operation,
        "$code.find",
    ) || same_text(operation, "$code.project") || same_text(operation, "$code.save") || same_text(
        operation,
        "$code.load",
    )
}

/// The state after a stage that edits.
pub open spec fn worked(state: PipelineStateView, operation: Seq<char>, argument: YamlValueView) -> Result<
PipelineStateView,
CodeErrorView,
> {
    if operation == "$code.delete"@ {
        match nodes_edited(state, NodeEditView::Delete) {
            Err(error) => Err(error),
            Ok(after) => {
                Ok(with_current(after, PipelineValueView::Nodes(Seq::empty())))

            },
        }
    } else if operation == "$code.rename-key"@ {
        match needed_text_argument(argument, "$code.rename-key expects a string"@) {
            Err(error) => Err(error),
            Ok(key) => {
                keys_renamed(state, key)

            },
        }
    } else if operation == "$code.copy"@ {
        transferred(state, argument, operation, true)
    } else if operation == "$code.move"@ {
        transferred(state, argument, operation, false)
    } else if operation == "$code.rename-symbol"@ {
        renamed(state, argument, operation, true)
    } else if operation == "$code.rename-import"@ {
        renamed(state, argument, operation, false)
    } else {
        match node_edit_of(operation, argument) {
            Err(error) => Err(error),
            Ok(edit) => {
                match edit {
                    Some(edit) => nodes_edited(state, edit),
                    None => Err(bad_form("unknown `vibra code` operation `"@ + operation + "`"@)),
                }

            },
        }
    }
}

fn work(state: PipelineState, operation: &str, argument: &YamlValue) -> (result: Result<PipelineState, CodeError>)
    ensures
        state_outcome(result) == worked(
            view::pipeline_state(state),
            operation@,
            crate::yaml::view::yaml_value(*argument),
        ),
{
    if same_text(operation, "$code.delete") {
        let after = match apply_node_edits(state, &NodeEdit::Delete) {
            Ok(value) => value,
            Err(error) => return Err(error),
        };
        Ok(set_current(after, PipelineValue::Nodes(no_nodes())))
    } else if same_text(operation, "$code.rename-key") {
        let key = match text_argument(argument, "$code.rename-key expects a string") {
            Ok(value) => value,
            Err(error) => return Err(error),
        };
        rename_keys(state, key)
    } else if same_text(operation, "$code.copy") {
        transfer(state, argument, operation, true)
    } else if same_text(operation, "$code.move") {
        transfer(state, argument, operation, false)
    } else if same_text(operation, "$code.rename-symbol") {
        rename(state, argument, operation, true)
    } else if same_text(operation, "$code.rename-import") {
        rename(state, argument, operation, false)
    } else {
        let edit = match read_node_edit(operation, argument) {
            Ok(value) => value,
            Err(error) => return Err(error),
        };
        match edit {
            Some(edit) => apply_node_edits(state, &edit),
            None => {
                let message = concat_three("unknown `vibra code` operation `", operation, "`");
                Err(form_error(message.as_str()))
            }
        }
    }
}

/// The state after one stage.
pub open spec fn staged(state: PipelineStateView, stage: YamlValueView) -> Result<PipelineStateView, CodeErrorView> {
    match operation_of(stage) {
        Err(error) => Err(error),
        Ok(call) => {
            if is_look(call.0) {
                looked(state, call.0, call.1)
            } else {
                worked(state, call.0, call.1)
            }

        },
    }
}

/// Runs one stage.
pub fn execute_stage(state: PipelineState, stage: &YamlValue) -> (result: Result<PipelineState, CodeError>)
    ensures
        state_outcome(result) == staged(view::pipeline_state(state), crate::yaml::view::yaml_value(*stage)),
{
    let entries = match as_mapping(stage) {
        Some(entries) => entries,
        None => return Err(form_error("pipeline stage must be a singleton mapping")),
    };
    assert(crate::yaml::view::yaml_entries(entries@).len() == entries@.len());
    if entries.len() != 1 {
        return Err(form_error("pipeline stage must contain exactly one operation"));
    }
    assert(crate::yaml::view::yaml_entries(entries@)[0] == crate::yaml::view::yaml_entry(entries@[0]));
    let operation = match as_text(&entries[0].key) {
        Some(operation) => operation,
        None => return Err(form_error("pipeline operation name must be a string")),
    };
    if looks(operation.as_str()) {
        look(state, operation.as_str(), &entries[0].value)
    } else {
        work(state, operation.as_str(), &entries[0].value)
    }
}

// Pipelines.

/// An error with the stage that it came from.
pub open spec fn in_stage(error: CodeErrorView, index: int) -> CodeErrorView {
    crate::code::form::failed(
        error.kind,
        "pipeline stage "@ + crate::text::decimal((index + 1) as nat) + ": "@ + error.message,
    )
}

pub open spec fn all_staged(state: PipelineStateView, stages: Seq<YamlValueView>, from: int) -> Result<
PipelineStateView,
CodeErrorView,
>
    decreases stages.len() - from,
{
    if from < 0 || from >= stages.len() {
        Ok(state)
    } else {
        match staged(state, stages[from]) {
            Err(error) => Err(in_stage(error, from)),
            Ok(next) => all_staged(next, stages, from + 1),
        }
    }
}

fn execute_stages(state: PipelineState, stages: &Vec<YamlValue>) -> (result: Result<PipelineState, CodeError>)
    ensures
        state_outcome(result) == all_staged(
            view::pipeline_state(state),
            crate::yaml::view::yaml_values(stages@),
            0,
        ),
{
    let ghost all = crate::yaml::view::yaml_values(stages@);
    let ghost first = view::pipeline_state(state);
    let mut current = state;
    let mut i: usize = 0;
    while i < stages.len()
        invariant
            i <= stages.len(),
            all == crate::yaml::view::yaml_values(stages@),
            first == view::pipeline_state(state),
            all_staged(first, all, 0) == all_staged(view::pipeline_state(current), all, i as int),
        decreases stages.len() - i,
    {
        assert(all[i as int] == crate::yaml::view::yaml_value(stages@[i as int]));
        match execute_stage(current, &stages[i]) {
            Ok(next) => current = next,
            Err(error) => {
                let number = decimal_text(i as u64 + 1);
                let mut message = concat_three("pipeline stage ", number.as_str(), ": ");
                message.append(error.message.as_str());
                return Err(CodeError::new(error.kind, message));
            }
        }
        i += 1;
    }
    Ok(current)
}

/// Whether a document is not the workspace's own.
pub open spec fn is_read_only(path: Seq<char>) -> bool {
    let components = crate::execute::path_text::piece_texts(path);
    components.len() > 0 && (components[0] == "dep"@ || components[0] == "stdlib"@)
}

fn read_only(path: &str) -> (result: bool)
    ensures
        result == is_read_only(path@),
{
    let components = component_texts(path);
    assert(crate::lowered::view::texts(components@).len() == components@.len());
    if components.len() == 0 {
        return false;
    }
    assert(crate::lowered::view::texts(components@)[0] == components@[0]@);
    same_text(components[0].as_str(), "dep") || same_text(components[0].as_str(), "stdlib")
}

/// The first changed document that is not the workspace's own.
pub open spec fn first_read_only(paths: Seq<Seq<char>>, from: int) -> Option<Seq<char>>
    decreases paths.len() - from,
{
    if from < 0 || from >= paths.len() {
        None
    } else if is_read_only(paths[from]) {
        Some(paths[from])
    } else {
        first_read_only(paths, from + 1)
    }
}

fn find_read_only(paths: &Vec<String>) -> (result: Option<String>)
    ensures
        first_read_only(crate::lowered::view::texts(paths@), 0) == crate::code::semantic::text_option(result),
{
    let ghost all = crate::lowered::view::texts(paths@);
    let mut i: usize = 0;
    while i < paths.len()
        invariant
            i <= paths.len(),
            all == crate::lowered::view::texts(paths@),
            first_read_only(all, 0) == first_read_only(all, i as int),
        decreases paths.len() - i,
    {
        assert(all[i as int] == paths@[i as int]@);
        if read_only(paths[i].as_str()) {
            return Some(paths[i].clone());
        }
        i += 1;
    }
    None
}

pub open spec fn first_state(database: SourceDatabaseView) -> PipelineStateView {
    PipelineStateView {
        original: database,
        database,
        current: PipelineValueView::Workspace,
        saved: Seq::empty(),
        changed: Seq::empty(),
    }
}

/// What a state comes to.
pub open spec fn concluded(state: PipelineStateView) -> Result<PipelineOutcomeView, CodeErrorView> {
    if state.changed.len() == 0 {
        match output_of(state.current) {
            Err(error) => Err(error),
            Ok(text) => {
                Ok(PipelineOutcomeView::Output(text))

            },
        }
    } else {
        match first_read_only(state.changed, 0) {
            Some(path) => Err(
                crate::code::text_edit::conflict(
                    "dependency and stdlib source is read-only to code transactions: `"@ + path + "`"@,
                ),
            ),
            None => Ok(PipelineOutcomeView::Transaction(state)),
        }
    }
}

/// What a pipeline text comes to over a workspace.
pub open spec fn pipeline_run(database: SourceDatabaseView, pipeline: Seq<char>) -> Result<
PipelineOutcomeView,
CodeErrorView,
> {
    match crate::yaml::read::parsed_yaml(pipeline) {
        Err(message) => Err(bad_form("parse `vibra code` pipeline: "@ + message)),
        Ok(value) => match crate::yaml::read::sequence_of(value) {
            None => Err(bad_form("`vibra code` input must be a sequence of pipeline stages"@)),
            Some(stages) => {
                match all_staged(first_state(database), stages, 0) {
                    Err(error) => Err(error),
                    Ok(state) => {
                        concluded(state)

                    },
                }
            },
        },
    }
}

pub open spec fn pipeline_outcome(result: Result<PipelineOutcome, CodeError>) -> Result<
PipelineOutcomeView,
CodeErrorView,
> {
    match result {
        Ok(outcome) => Ok(view::pipeline_outcome(outcome)),
        Err(error) => Err(view::code_error(error)),
    }
}

fn conclude(state: PipelineState) -> (result: Result<PipelineOutcome, CodeError>)
    ensures
        pipeline_outcome(result) == concluded(view::pipeline_state(state)),
{
    assert(crate::lowered::view::texts(state.changed@).len() == state.changed@.len());
    if state.changed.len() == 0 {
        let text = match render_pipeline_value(&state.current) {
            Ok(value) => value,
            Err(error) => return Err(error),
        };
        return Ok(PipelineOutcome::Output(text));
    }
    match find_read_only(&state.changed) {
        Some(path) => {
            let message = concat_three(
                "dependency and stdlib source is read-only to code transactions: `",
                path.as_str(),
                "`",
            );
            Err(CodeError::new(CodeErrorKind::EditConflict, message))
        }
        None => Ok(PipelineOutcome::Transaction(state)),
    }
}

/// Runs a pipeline over a workspace.
pub fn run_pipeline(database: SourceDatabase, pipeline: &str) -> (result: Result<PipelineOutcome, CodeError>)
    ensures
        pipeline_outcome(result) == pipeline_run(view::source_database(database), pipeline@),
{
    let value = match parse(pipeline) {
        Ok(value) => value,
        Err(message) => {
            let text = concat_two("parse `vibra code` pipeline: ", message.as_str());
            return Err(form_error(text.as_str()));
        }
    };
    let stages = match as_sequence(&value) {
        Some(stages) => stages,
        None => return Err(form_error("`vibra code` input must be a sequence of pipeline stages")),
    };
    let state = PipelineState {
        original: database.copied(),
        database,
        current: PipelineValue::Workspace,
        saved: Vec::new(),
        changed: Vec::new(),
    };
    assert(view::saved_values(state.saved@) =~= Seq::<SavedValueView>::empty());
    assert(crate::lowered::view::texts(state.changed@) =~= Seq::<Seq<char>>::empty());
    let done = match execute_stages(state, stages) {
        Ok(value) => value,
        Err(error) => return Err(error),
    };
    conclude(done)
}

// Reports.

/// Lines put together, each behind a mark.
pub open spec fn diff_text(path: Seq<char>, before: Seq<char>, after: Seq<char>) -> Seq<char> {
    "--- a/"@ + path + "\n+++ b/"@ + path + "\n@@\n"@ + crate::code::lines::indented(before, "-"@)
    + crate::code::lines::indented(after, "+"@)
}

fn full_diff(path: &str, before: &str, after: &str) -> (text: String)
    ensures
        text@ == diff_text(path@, before@, after@),
{
    let removed = crate::code::lines::indent_lines(before, "-");
    let added = crate::code::lines::indent_lines(after, "+");
    let mut text = concat_five("--- a/", path, "\n+++ b/", path, "\n@@\n");
    text.append(removed.as_str());
    text.append(added.as_str());
    text
}

pub open spec fn file_report(path: Seq<char>, before: Seq<char>, after: Seq<char>) -> YamlValueView {
    YamlValueView::Mapping(
        seq![
            text_entry("path"@, YamlValueView::Text(path)),
            text_entry("beforeRevision"@, YamlValueView::Text(before)),
            text_entry("afterRevision"@, YamlValueView::Text(after)),
        ],
    )
}

fn report_file(path: &str, before: &str, after: &str) -> (value: YamlValue)
    ensures
        crate::yaml::view::yaml_value(value) == file_report(path@, before@, after@),
{
    let mut entries: Vec<YamlEntry> = Vec::new();
    assert(crate::yaml::view::yaml_entries(entries@) =~= Seq::<YamlEntryView>::empty());
    push_entry(&mut entries, "path", YamlValue::Text(owned(path)));
    push_entry(&mut entries, "beforeRevision", YamlValue::Text(owned(before)));
    push_entry(&mut entries, "afterRevision", YamlValue::Text(owned(after)));
    assert(crate::yaml::view::yaml_entries(entries@) =~= seq![
            text_entry("path"@, YamlValueView::Text(path@)),
            text_entry("beforeRevision"@, YamlValueView::Text(before@)),
            text_entry("afterRevision"@, YamlValueView::Text(after@)),
    ]);
    YamlValue::Mapping(entries)
}

/// The reports on changed files and their differences.
pub open spec fn file_reports(
    state: PipelineStateView,
    from: int,
    files: Seq<YamlValueView>,
    diff: Seq<char>,
) -> Result<(Seq<YamlValueView>, Seq<char>), CodeErrorView>
    decreases state.changed.len() - from,
{
    if from < 0 || from >= state.changed.len() {
        Ok((files, diff))
    } else {
        let path = state.changed[from];
        match crate::code::source::document_in(state.original, path) {
            Err(error) => Err(error),
            Ok(before) => {
                match crate::code::source::document_in(state.database, path) {
                    Err(error) => Err(error),
                    Ok(after) => {
                        file_reports(
                            state,
                            from + 1,
                            files.push(file_report(path, before.revision, after.revision)),
                            diff + diff_text(path, before.source, after.source),
                        )

                    },
                }

            },
        }
    }
}

pub open spec fn report_value(files: Seq<YamlValueView>, diff: Seq<char>, write: bool) -> YamlValueView {
    YamlValueView::Mapping(
        seq![
            text_entry(
                "status"@,
                YamlValueView::Text(if write {
                        "written"@
                    } else {
                        "preview"@
                }),
            ),
            text_entry("files"@, YamlValueView::Sequence(files)),
            text_entry("diff"@, YamlValueView::Text(diff)),
        ],
    )
}

/// The report on a transaction.
pub open spec fn report_of(state: PipelineStateView, write: bool) -> Result<Seq<char>, CodeErrorView> {
    match file_reports(state, 0, Seq::empty(), Seq::empty()) {
        Err(error) => Err(error),
        Ok(reports) => {
            match crate::yaml::render::rendered(report_value(reports.0, reports.1, write)) {
                Ok(text) => Ok(text),
                Err(message) => Err(bad_form("render `vibra code` report: "@ + message)),
            }

        },
    }
}

/// Reports what a transaction changes.
pub fn build_report(state: &PipelineState, write: bool) -> (result: Result<String, CodeError>)
    ensures
        crate::code::form::text_outcome(result) == report_of(view::pipeline_state(*state), write),
{
    let ghost given = view::pipeline_state(*state);
    assert(given.changed.len() == state.changed@.len());
    let mut files: Vec<YamlValue> = Vec::new();
    let mut diff = String::new();
    assert(crate::yaml::view::yaml_values(files@) =~= Seq::<YamlValueView>::empty());
    assert(diff@ =~= Seq::<char>::empty());
    let mut i: usize = 0;
    while i < state.changed.len()
        invariant
            i <= state.changed.len(),
            given == view::pipeline_state(*state),
            given.changed.len() == state.changed@.len(),
            file_reports(given, 0, Seq::empty(), Seq::empty()) == file_reports(
                given,
                i as int,
                crate::yaml::view::yaml_values(files@),
                diff@,
            ),
        decreases state.changed.len() - i,
    {
        assert(given.changed[i as int] == state.changed@[i as int]@);
        let path = state.changed[i].as_str();
        let before = match state.original.document(path) {
            Ok(value) => value,
            Err(error) => return Err(error),
        };
        let after = match state.database.document(path) {
            Ok(value) => value,
            Err(error) => return Err(error),
        };
        let ghost earlier = files@;
        files.push(report_file(path, before.revision.as_str(), after.revision.as_str()));
        proof {
            crate::yaml::view::lemma_yaml_values_push(earlier, files@.last());
        }
        let text = full_diff(path, before.source.as_str(), after.source.as_str());
        diff.append(text.as_str());
        i += 1;
    }
    let ghost all = crate::yaml::view::yaml_values(files@);
    let ghost differences = diff@;
    let mut entries: Vec<YamlEntry> = Vec::new();
    assert(crate::yaml::view::yaml_entries(entries@) =~= Seq::<YamlEntryView>::empty());
    let status = if write {
        owned("written")
    } else {
        owned("preview")
    };
    push_entry(&mut entries, "status", YamlValue::Text(status));
    push_entry(&mut entries, "files", YamlValue::Sequence(files));
    push_entry(&mut entries, "diff", YamlValue::Text(diff));
    let report = YamlValue::Mapping(entries);
    proof {
        let expected = report_value(all, differences, write);
        assert(crate::yaml::view::yaml_entries(entries@) =~= expected->Mapping_0);
    }
    match crate::yaml::render::render(&report) {
        Ok(text) => Ok(text),
        Err(message) => {
            let text = concat_two("render `vibra code` report: ", message.as_str());
            Err(form_error(text.as_str()))
        }
    }
}

// Before writing.

/// The first changed document that is no longer as the pipeline found it.
pub open spec fn write_error(
    current: SourceDatabaseView,
    state: PipelineStateView,
    from: int,
) -> Result<(), CodeErrorView>
    decreases state.changed.len() - from,
{
    if from < 0 || from >= state.changed.len() {
        Ok(())
    } else {
        let path = state.changed[from];
        match crate::code::source::document_in(current, path) {
            Err(error) => Err(error),
            Ok(now) => {
                match crate::code::source::document_in(state.original, path) {
                    Err(error) => Err(error),
                    Ok(then_found) => {
                        if now.revision != then_found.revision {
                            Err(
                                crate::code::form::failed(
                                    CodeErrorKind::StaleRevision,
                                    "document `"@ + path + "` changed before write"@,
                                ),
                            )
                        } else {
                            write_error(current, state, from + 1)
                        }

                    },
                }

            },
        }
    }
}

/// Checks that the documents to be written are still as the pipeline found
/// them.
pub fn check_unchanged(current: &SourceDatabase, state: &PipelineState) -> (result: Result<(), CodeError>)
    ensures
        crate::code::form::unit_outcome(result) == write_error(
            view::source_database(*current),
            view::pipeline_state(*state),
            0,
        ),
{
    let ghost given = view::pipeline_state(*state);
    let ghost base = view::source_database(*current);
    assert(given.changed.len() == state.changed@.len());
    let mut i: usize = 0;
    while i < state.changed.len()
        invariant
            i <= state.changed.len(),
            given == view::pipeline_state(*state),
            base == view::source_database(*current),
            given.changed.len() == state.changed@.len(),
            write_error(base, given, 0) == write_error(base, given, i as int),
        decreases state.changed.len() - i,
    {
        assert(given.changed[i as int] == state.changed@[i as int]@);
        let path = state.changed[i].as_str();
        let now = match current.document(path) {
            Ok(value) => value,
            Err(error) => return Err(error),
        };
        let found = match state.original.document(path) {
            Ok(value) => value,
            Err(error) => return Err(error),
        };
        if !same_text(now.revision.as_str(), found.revision.as_str()) {
            let message = concat_three("document `", path, "` changed before write");
            return Err(CodeError::new(CodeErrorKind::StaleRevision, message));
        }
        i += 1;
    }
    Ok(())
}

// Laws.

/// A pipeline that changes a document that is not the workspace's own is
/// refused.
pub proof fn law_read_only_documents_are_kept(state: PipelineStateView, index: int)
    requires
        0 <= index < state.changed.len(),
        is_read_only(state.changed[index]),
    ensures
        concluded(state) is Err,
{
    lemma_read_only_found(state.changed, 0, index);
}

proof fn lemma_read_only_found(paths: Seq<Seq<char>>, from: int, index: int)
    requires
        0 <= from <= index < paths.len(),
        is_read_only(paths[index]),
    ensures
        first_read_only(paths, from) is Some,
    decreases index - from,
{
    if !is_read_only(paths[from]) {
        lemma_read_only_found(paths, from + 1, index);
    }
}

/// Stages that only look change no document.
pub proof fn law_looking_changes_nothing(state: PipelineStateView, stage: YamlValueView)
    requires
        operation_of(stage) is Ok,
        is_look(operation_of(stage)->Ok_0.0),
        staged(state, stage) is Ok,
    ensures
        staged(state, stage)->Ok_0.database == state.database,
        staged(state, stage)->Ok_0.original == state.original,
        staged(state, stage)->Ok_0.changed == state.changed,
{
}

/// What was saved under a name is what is loaded under it.
pub proof fn law_saved_values_are_loaded(
    saved: Seq<SavedValueView>,
    from: int,
    name: Seq<char>,
    value: PipelineValueView,
)
    requires
        0 <= from <= saved.len(),
    ensures
        saved_value(with_saved(saved, from, name, value), from, name) == Some(value),
    decreases saved.len() - from,
{
    if from < saved.len() && saved[from].name != name {
        law_saved_values_are_loaded(saved, from + 1, name, value);
        lemma_saved_before(saved, from + 1, from, name, value);
    }
}

proof fn lemma_saved_before(
    saved: Seq<SavedValueView>,
    from: int,
    index: int,
    name: Seq<char>,
    value: PipelineValueView,
)
    requires
        0 <= index < from <= saved.len(),
    ensures
        with_saved(saved, from, name, value)[index] == saved[index],
        with_saved(saved, from, name, value).len() >= saved.len(),
    decreases saved.len() - from,
{
    if from < saved.len() && saved[from].name != name {
        lemma_saved_before(saved, from + 1, index, name, value);
    }
}

} // verus!
