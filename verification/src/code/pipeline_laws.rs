//! What the stages of a pipeline do.
use vstd::prelude::*;
use crate::code::cli::{self, Projection};
use crate::code::edit::applied;
use crate::code::model::{NodeKind, SemanticKind};
use crate::code::query_laws::keys_are_distinct;
use crate::code::source;
use crate::code::view::{
    CodeErrorView, EditView, FormView, NodeEditView, NodeView, PathView, PipelineOutcomeView, PipelineStateView,
    PipelineValueView, SourceDatabaseView,
};
use crate::yaml::view::{YamlEntryView, YamlValueView};

verus! {

/// A stage: an operation with its argument.
pub open spec fn stage(operation: Seq<char>, argument: YamlValueView) -> YamlValueView {
    YamlValueView::Mapping(seq![YamlEntryView { key: YamlValueView::Text(operation), value: argument }])
}

/// What a stage leads to, or why it fails.
pub type Staging = Result<PipelineStateView, CodeErrorView>;

proof fn lemma_stage(operation: Seq<char>, argument: YamlValueView)
    ensures
        cli::operation_of(stage(operation, argument)) == Ok::<(Seq<char>, YamlValueView), CodeErrorView>(
            (operation, argument),
        ),
{
    let entries = seq![YamlEntryView { key: YamlValueView::Text(operation), value: argument }];
    assert(entries[0].key == YamlValueView::Text(operation));
}

/// The words of the operations differ from each other.
proof fn lemma_operation_words()
    ensures
        "$code.file"@ != "$code.root"@,
        "$code.file"@ != "$code.at"@,
        "$code.root"@ != "$code.at"@,
        "$code.file"@ != "$code.parent"@,
        "$code.root"@ != "$code.parent"@,
        "$code.at"@ != "$code.parent"@,
        "$code.file"@ != "$code.children"@,
        "$code.root"@ != "$code.children"@,
        "$code.at"@ != "$code.children"@,
        "$code.parent"@ != "$code.children"@,
        "$code.file"@ != "$code.find"@,
        "$code.root"@ != "$code.find"@,
        "$code.at"@ != "$code.find"@,
        "$code.parent"@ != "$code.find"@,
        "$code.children"@ != "$code.find"@,
        "$code.file"@ != "$code.project"@,
        "$code.root"@ != "$code.project"@,
        "$code.at"@ != "$code.project"@,
        "$code.parent"@ != "$code.project"@,
        "$code.children"@ != "$code.project"@,
        "$code.find"@ != "$code.project"@,
        "$code.file"@ != "$code.save"@,
        "$code.root"@ != "$code.save"@,
        "$code.at"@ != "$code.save"@,
        "$code.parent"@ != "$code.save"@,
        "$code.children"@ != "$code.save"@,
        "$code.find"@ != "$code.save"@,
        "$code.project"@ != "$code.save"@,
        "$code.file"@ != "$code.load"@,
        "$code.root"@ != "$code.load"@,
        "$code.at"@ != "$code.load"@,
        "$code.parent"@ != "$code.load"@,
        "$code.children"@ != "$code.load"@,
        "$code.find"@ != "$code.load"@,
        "$code.project"@ != "$code.load"@,
        "$code.save"@ != "$code.load"@,
        "$code.file"@ != "$code.delete"@,
        "$code.root"@ != "$code.delete"@,
        "$code.at"@ != "$code.delete"@,
        "$code.parent"@ != "$code.delete"@,
        "$code.children"@ != "$code.delete"@,
        "$code.find"@ != "$code.delete"@,
        "$code.project"@ != "$code.delete"@,
        "$code.save"@ != "$code.delete"@,
        "$code.load"@ != "$code.delete"@,
        "$code.file"@ != "$code.rename-key"@,
        "$code.root"@ != "$code.rename-key"@,
        "$code.at"@ != "$code.rename-key"@,
        "$code.parent"@ != "$code.rename-key"@,
        "$code.children"@ != "$code.rename-key"@,
        "$code.find"@ != "$code.rename-key"@,
        "$code.project"@ != "$code.rename-key"@,
        "$code.save"@ != "$code.rename-key"@,
        "$code.load"@ != "$code.rename-key"@,
        "$code.delete"@ != "$code.rename-key"@,
        "$code.file"@ != "$code.copy"@,
        "$code.root"@ != "$code.copy"@,
        "$code.at"@ != "$code.copy"@,
        "$code.parent"@ != "$code.copy"@,
        "$code.children"@ != "$code.copy"@,
        "$code.find"@ != "$code.copy"@,
        "$code.project"@ != "$code.copy"@,
        "$code.save"@ != "$code.copy"@,
        "$code.load"@ != "$code.copy"@,
        "$code.delete"@ != "$code.copy"@,
        "$code.rename-key"@ != "$code.copy"@,
        "$code.file"@ != "$code.move"@,
        "$code.root"@ != "$code.move"@,
        "$code.at"@ != "$code.move"@,
        "$code.parent"@ != "$code.move"@,
        "$code.children"@ != "$code.move"@,
        "$code.find"@ != "$code.move"@,
        "$code.project"@ != "$code.move"@,
        "$code.save"@ != "$code.move"@,
        "$code.load"@ != "$code.move"@,
        "$code.delete"@ != "$code.move"@,
        "$code.rename-key"@ != "$code.move"@,
        "$code.copy"@ != "$code.move"@,
        "$code.file"@ != "$code.rename-symbol"@,
        "$code.root"@ != "$code.rename-symbol"@,
        "$code.at"@ != "$code.rename-symbol"@,
        "$code.parent"@ != "$code.rename-symbol"@,
        "$code.children"@ != "$code.rename-symbol"@,
        "$code.find"@ != "$code.rename-symbol"@,
        "$code.project"@ != "$code.rename-symbol"@,
        "$code.save"@ != "$code.rename-symbol"@,
        "$code.load"@ != "$code.rename-symbol"@,
        "$code.delete"@ != "$code.rename-symbol"@,
        "$code.rename-key"@ != "$code.rename-symbol"@,
        "$code.copy"@ != "$code.rename-symbol"@,
        "$code.move"@ != "$code.rename-symbol"@,
        "$code.file"@ != "$code.rename-import"@,
        "$code.root"@ != "$code.rename-import"@,
        "$code.at"@ != "$code.rename-import"@,
        "$code.parent"@ != "$code.rename-import"@,
        "$code.children"@ != "$code.rename-import"@,
        "$code.find"@ != "$code.rename-import"@,
        "$code.project"@ != "$code.rename-import"@,
        "$code.save"@ != "$code.rename-import"@,
        "$code.load"@ != "$code.rename-import"@,
        "$code.delete"@ != "$code.rename-import"@,
        "$code.rename-key"@ != "$code.rename-import"@,
        "$code.copy"@ != "$code.rename-import"@,
        "$code.move"@ != "$code.rename-import"@,
        "$code.rename-symbol"@ != "$code.rename-import"@,
        "$code.file"@ != "$code.replace"@,
        "$code.root"@ != "$code.replace"@,
        "$code.at"@ != "$code.replace"@,
        "$code.parent"@ != "$code.replace"@,
        "$code.children"@ != "$code.replace"@,
        "$code.find"@ != "$code.replace"@,
        "$code.project"@ != "$code.replace"@,
        "$code.save"@ != "$code.replace"@,
        "$code.load"@ != "$code.replace"@,
        "$code.delete"@ != "$code.replace"@,
        "$code.rename-key"@ != "$code.replace"@,
        "$code.copy"@ != "$code.replace"@,
        "$code.move"@ != "$code.replace"@,
        "$code.rename-symbol"@ != "$code.replace"@,
        "$code.rename-import"@ != "$code.replace"@,
        "$code.file"@ != "$code.upsert"@,
        "$code.root"@ != "$code.upsert"@,
        "$code.at"@ != "$code.upsert"@,
        "$code.parent"@ != "$code.upsert"@,
        "$code.children"@ != "$code.upsert"@,
        "$code.find"@ != "$code.upsert"@,
        "$code.project"@ != "$code.upsert"@,
        "$code.save"@ != "$code.upsert"@,
        "$code.load"@ != "$code.upsert"@,
        "$code.delete"@ != "$code.upsert"@,
        "$code.rename-key"@ != "$code.upsert"@,
        "$code.copy"@ != "$code.upsert"@,
        "$code.move"@ != "$code.upsert"@,
        "$code.rename-symbol"@ != "$code.upsert"@,
        "$code.rename-import"@ != "$code.upsert"@,
        "$code.replace"@ != "$code.upsert"@,
        "$code.file"@ != "$code.insert-mapping"@,
        "$code.root"@ != "$code.insert-mapping"@,
        "$code.at"@ != "$code.insert-mapping"@,
        "$code.parent"@ != "$code.insert-mapping"@,
        "$code.children"@ != "$code.insert-mapping"@,
        "$code.find"@ != "$code.insert-mapping"@,
        "$code.project"@ != "$code.insert-mapping"@,
        "$code.save"@ != "$code.insert-mapping"@,
        "$code.load"@ != "$code.insert-mapping"@,
        "$code.delete"@ != "$code.insert-mapping"@,
        "$code.rename-key"@ != "$code.insert-mapping"@,
        "$code.copy"@ != "$code.insert-mapping"@,
        "$code.move"@ != "$code.insert-mapping"@,
        "$code.rename-symbol"@ != "$code.insert-mapping"@,
        "$code.rename-import"@ != "$code.insert-mapping"@,
        "$code.replace"@ != "$code.insert-mapping"@,
        "$code.upsert"@ != "$code.insert-mapping"@,
        "$code.file"@ != "$code.insert"@,
        "$code.root"@ != "$code.insert"@,
        "$code.at"@ != "$code.insert"@,
        "$code.parent"@ != "$code.insert"@,
        "$code.children"@ != "$code.insert"@,
        "$code.find"@ != "$code.insert"@,
        "$code.project"@ != "$code.insert"@,
        "$code.save"@ != "$code.insert"@,
        "$code.load"@ != "$code.insert"@,
        "$code.delete"@ != "$code.insert"@,
        "$code.rename-key"@ != "$code.insert"@,
        "$code.copy"@ != "$code.insert"@,
        "$code.move"@ != "$code.insert"@,
        "$code.rename-symbol"@ != "$code.insert"@,
        "$code.rename-import"@ != "$code.insert"@,
        "$code.replace"@ != "$code.insert"@,
        "$code.upsert"@ != "$code.insert"@,
        "$code.insert-mapping"@ != "$code.insert"@,
        "$code.file"@ != "$code.splice"@,
        "$code.root"@ != "$code.splice"@,
        "$code.at"@ != "$code.splice"@,
        "$code.parent"@ != "$code.splice"@,
        "$code.children"@ != "$code.splice"@,
        "$code.find"@ != "$code.splice"@,
        "$code.project"@ != "$code.splice"@,
        "$code.save"@ != "$code.splice"@,
        "$code.load"@ != "$code.splice"@,
        "$code.delete"@ != "$code.splice"@,
        "$code.rename-key"@ != "$code.splice"@,
        "$code.copy"@ != "$code.splice"@,
        "$code.move"@ != "$code.splice"@,
        "$code.rename-symbol"@ != "$code.splice"@,
        "$code.rename-import"@ != "$code.splice"@,
        "$code.replace"@ != "$code.splice"@,
        "$code.upsert"@ != "$code.splice"@,
        "$code.insert-mapping"@ != "$code.splice"@,
        "$code.insert"@ != "$code.splice"@,
{
    reveal_strlit("$code.file");
    reveal_strlit("$code.root");
    reveal_strlit("$code.at");
    reveal_strlit("$code.parent");
    reveal_strlit("$code.children");
    reveal_strlit("$code.find");
    reveal_strlit("$code.project");
    reveal_strlit("$code.save");
    reveal_strlit("$code.load");
    reveal_strlit("$code.delete");
    reveal_strlit("$code.rename-key");
    reveal_strlit("$code.copy");
    reveal_strlit("$code.move");
    reveal_strlit("$code.rename-symbol");
    reveal_strlit("$code.rename-import");
    reveal_strlit("$code.replace");
    reveal_strlit("$code.upsert");
    reveal_strlit("$code.insert-mapping");
    reveal_strlit("$code.insert");
    reveal_strlit("$code.splice");
    assert("$code.file"@.len() == 10);
    assert("$code.root"@.len() == 10);
    assert("$code.at"@.len() == 8);
    assert("$code.parent"@.len() == 12);
    assert("$code.children"@.len() == 14);
    assert("$code.find"@.len() == 10);
    assert("$code.project"@.len() == 13);
    assert("$code.save"@.len() == 10);
    assert("$code.load"@.len() == 10);
    assert("$code.delete"@.len() == 12);
    assert("$code.rename-key"@.len() == 16);
    assert("$code.copy"@.len() == 10);
    assert("$code.move"@.len() == 10);
    assert("$code.rename-symbol"@.len() == 19);
    assert("$code.rename-import"@.len() == 19);
    assert("$code.replace"@.len() == 13);
    assert("$code.upsert"@.len() == 12);
    assert("$code.insert-mapping"@.len() == 20);
    assert("$code.insert"@.len() == 12);
    assert("$code.splice"@.len() == 12);
    assert("$code.file"@[6] == 'f' && "$code.root"@[6] == 'r');
    assert("$code.file"@[8] == 'l' && "$code.find"@[8] == 'n');
    assert("$code.root"@[6] == 'r' && "$code.find"@[6] == 'f');
    assert("$code.file"@[6] == 'f' && "$code.save"@[6] == 's');
    assert("$code.root"@[6] == 'r' && "$code.save"@[6] == 's');
    assert("$code.find"@[6] == 'f' && "$code.save"@[6] == 's');
    assert("$code.file"@[6] == 'f' && "$code.load"@[6] == 'l');
    assert("$code.root"@[6] == 'r' && "$code.load"@[6] == 'l');
    assert("$code.find"@[6] == 'f' && "$code.load"@[6] == 'l');
    assert("$code.save"@[6] == 's' && "$code.load"@[6] == 'l');
    assert("$code.parent"@[6] == 'p' && "$code.delete"@[6] == 'd');
    assert("$code.file"@[6] == 'f' && "$code.copy"@[6] == 'c');
    assert("$code.root"@[6] == 'r' && "$code.copy"@[6] == 'c');
    assert("$code.find"@[6] == 'f' && "$code.copy"@[6] == 'c');
    assert("$code.save"@[6] == 's' && "$code.copy"@[6] == 'c');
    assert("$code.load"@[6] == 'l' && "$code.copy"@[6] == 'c');
    assert("$code.file"@[6] == 'f' && "$code.move"@[6] == 'm');
    assert("$code.root"@[6] == 'r' && "$code.move"@[6] == 'm');
    assert("$code.find"@[6] == 'f' && "$code.move"@[6] == 'm');
    assert("$code.save"@[6] == 's' && "$code.move"@[6] == 'm');
    assert("$code.load"@[6] == 'l' && "$code.move"@[6] == 'm');
    assert("$code.copy"@[6] == 'c' && "$code.move"@[6] == 'm');
    assert("$code.rename-symbol"@[13] == 's' && "$code.rename-import"@[13] == 'i');
    assert("$code.project"@[6] == 'p' && "$code.replace"@[6] == 'r');
    assert("$code.parent"@[6] == 'p' && "$code.upsert"@[6] == 'u');
    assert("$code.delete"@[6] == 'd' && "$code.upsert"@[6] == 'u');
    assert("$code.parent"@[6] == 'p' && "$code.insert"@[6] == 'i');
    assert("$code.delete"@[6] == 'd' && "$code.insert"@[6] == 'i');
    assert("$code.upsert"@[6] == 'u' && "$code.insert"@[6] == 'i');
    assert("$code.parent"@[6] == 'p' && "$code.splice"@[6] == 's');
    assert("$code.delete"@[6] == 'd' && "$code.splice"@[6] == 's');
    assert("$code.upsert"@[6] == 'u' && "$code.splice"@[6] == 's');
    assert("$code.insert"@[6] == 'i' && "$code.splice"@[6] == 's');
}

// Stages in order.

proof fn lemma_staged_push(state: PipelineStateView, stages: Seq<YamlValueView>, last: YamlValueView, from: int)
    requires
        0 <= from <= stages.len(),
    ensures
        match cli::all_staged(state, stages, from) {
            Err(error) => cli::all_staged(state, stages.push(last), from) == Staging::Err(error),
            Ok(middle) => match cli::staged(middle, last) {
                Ok(end) => cli::all_staged(state, stages.push(last), from) == Staging::Ok(end),
                Err(_) => cli::all_staged(state, stages.push(last), from) is Err,
            },
        },
    decreases stages.len() - from,
{
    let all = stages.push(last);
    if from < stages.len() {
        assert(all[from] == stages[from]);
        match cli::staged(state, stages[from]) {
            Err(_) => {}
            Ok(next) => lemma_staged_push(next, stages, last, from + 1),
        }
    } else {
        assert(all[from] == last);
        match cli::staged(state, last) {
            Err(_) => {}
            Ok(next) => assert(cli::all_staged(next, all, from + 1) == Staging::Ok(next)),
        }
    }
}

/// The stages of a pipeline run in their order, each on what the ones before it left;
/// the first that fails ends it.
pub proof fn law_stages_run_in_order(state: PipelineStateView, stages: Seq<YamlValueView>, last: YamlValueView)
    ensures
        cli::all_staged(state, Seq::empty(), 0) == Staging::Ok(state),
        match cli::all_staged(state, stages, 0) {
            Err(error) => cli::all_staged(state, stages.push(last), 0) == Staging::Err(error),
            Ok(middle) => match cli::staged(middle, last) {
                Ok(end) => cli::all_staged(state, stages.push(last), 0) == Staging::Ok(end),
                Err(_) => cli::all_staged(state, stages.push(last), 0) is Err,
            },
        },
{
    lemma_staged_push(state, stages, last, 0);
}

// Selections.

/// A file is selected by its path, its root below it, and a place below what is
/// selected by the steps that lead there.
pub proof fn law_files_and_places_are_selected(
    state: PipelineStateView,
    path: Seq<char>,
    node: NodeView,
    argument: YamlValueView,
)
    ensures
        cli::staged(state, stage("$code.file"@, YamlValueView::Text(path))) matches Ok(after) ==> after.current
            == PipelineValueView::File(crate::code::workspace_path::normal_path(path)) && source::document_in(
            state.database,
            crate::code::workspace_path::normal_path(path),
        ) is Ok,
        state.current == PipelineValueView::File(path) ==> match cli::node_in_database(
            state.database,
            path,
            (PathView { segments: Seq::empty() }),
        ) {
            Ok(root) => cli::staged(state, stage("$code.root"@, argument)) == Staging::Ok(
                PipelineStateView { current: PipelineValueView::Nodes(seq![root]), ..state },
            ),
            Err(_) => cli::staged(state, stage("$code.root"@, argument)) is Err,
        },
        state.current == PipelineValueView::Nodes(seq![node]) ==> match cli::path_argument(argument) {
            Err(_) => cli::staged(state, stage("$code.at"@, argument)) is Err,
            Ok(relative) => match cli::node_in_database(
                state.database,
                node.locator.document,
                (PathView { segments: node.locator.path.segments + relative.segments }),
            ) {
                Ok(found) => cli::staged(state, stage("$code.at"@, argument)) == Staging::Ok(
                    PipelineStateView { current: PipelineValueView::Nodes(seq![found]), ..state },
                ),
                Err(_) => cli::staged(state, stage("$code.at"@, argument)) is Err,
            },
        },
{
    lemma_operation_words();
    lemma_stage("$code.file"@, YamlValueView::Text(path));
    lemma_stage("$code.root"@, argument);
    lemma_stage("$code.at"@, argument);
    if state.current == PipelineValueView::File(path) {
        match cli::node_in_database(state.database, path, crate::code::path::root_path()) {
            Err(_) => {}
            Ok(root) => {
                assert(cli::staged(state, stage("$code.root"@, argument)) == Staging::Ok(
                    cli::with_current(state, PipelineValueView::Nodes(seq![root])),
                ));
            }
        }
    }
    if state.current == PipelineValueView::Nodes(seq![node]) {
        match cli::path_argument(argument) {
            Err(_) => {}
            Ok(relative) => {
                let nodes = seq![node];
                let places = cli::places_below(nodes, relative);
                let place = PathView { segments: node.locator.path.segments + relative.segments };
                assert(nodes[0] == node);
                assert(places[0] == (node.locator.document, place));
                match cli::node_in_database(state.database, node.locator.document, place) {
                    Err(_) => {
                        assert(cli::nodes_at(state.database, places, 0, Seq::empty()) is Err);
                    }
                    Ok(found) => {
                        let done = Seq::<NodeView>::empty().push(found);
                        assert(cli::nodes_at(state.database, places, 1, done) == Ok::<Seq<NodeView>, CodeErrorView>(done));
                        assert(done =~= seq![found]);
                        assert(cli::nodes_at(state.database, places, 0, Seq::empty()) == Ok::<
                            Seq<NodeView>,
                            CodeErrorView,
                        >(seq![found]));
                    }
                }
            }
        }
    }
}

/// From a node the children and the parent are selected: the children all of them, the
/// parent where there is one.
pub proof fn law_neighbours_are_selected(state: PipelineStateView, node: NodeView, argument: YamlValueView)
    requires
        state.current == PipelineValueView::Nodes(seq![node]),
    ensures
        match source::children_of(node) {
            Ok(children) => cli::staged(state, stage("$code.children"@, argument)) == Staging::Ok(
                PipelineStateView { current: PipelineValueView::Nodes(children), ..state },
            ),
            Err(_) => cli::staged(state, stage("$code.children"@, argument)) is Err,
        },
        node.locator.path.segments.len() == 0 ==> cli::staged(state, stage("$code.parent"@, argument)) == Staging::Ok(
            PipelineStateView { current: PipelineValueView::Nodes(Seq::empty()), ..state },
        ),
        node.locator.path.segments.len() > 0 ==> match cli::node_in_database(
            state.database,
            node.locator.document,
            (PathView { segments: node.locator.path.segments.drop_last() }),
        ) {
            Ok(parent) => cli::staged(state, stage("$code.parent"@, argument)) == Staging::Ok(
                PipelineStateView { current: PipelineValueView::Nodes(seq![parent]), ..state },
            ),
            Err(_) => cli::staged(state, stage("$code.parent"@, argument)) is Err,
        },
{
    lemma_operation_words();
    lemma_stage("$code.children"@, argument);
    lemma_stage("$code.parent"@, argument);
    let nodes = seq![node];
    assert(nodes[0] == node);
    match source::children_of(node) {
        Err(_) => {
            assert(cli::all_children(nodes, 0, Seq::empty()) is Err);
        }
        Ok(children) => {
            let all = Seq::<NodeView>::empty() + children;
            assert(all =~= children);
            assert(cli::all_children(nodes, 1, all) == Ok::<Seq<NodeView>, CodeErrorView>(all));
            assert(cli::all_children(nodes, 0, Seq::empty()) == Ok::<Seq<NodeView>, CodeErrorView>(children));
            if cli::staged(state, stage("$code.children"@, argument)) is Ok {
                assert(cli::staged(state, stage("$code.children"@, argument))->Ok_0.current == PipelineValueView::Nodes(
                    children,
                ));
            }
        }
    }
    let none = Seq::<(Seq<char>, PathView)>::empty();
    match crate::code::path::parent_of(node.locator.path) {
        None => {
            assert(cli::parent_places(nodes, 1, none) == none);
            assert(cli::parent_places(nodes, 0, none) == none);
            assert(cli::nodes_at(state.database, none, 0, Seq::empty()) == Ok::<Seq<NodeView>, CodeErrorView>(
                Seq::empty(),
            ));
        }
        Some(path) => {
            let places = none.push((node.locator.document, path));
            assert(cli::parent_places(nodes, 1, places) == places);
            assert(cli::parent_places(nodes, 0, none) == places);
            assert(places[0] == (node.locator.document, path));
            match cli::node_in_database(state.database, node.locator.document, path) {
                Err(_) => {
                    assert(cli::nodes_at(state.database, places, 0, Seq::empty()) is Err);
                }
                Ok(parent) => {
                    let done = Seq::<NodeView>::empty().push(parent);
                    assert(done =~= seq![parent]);
                    assert(cli::nodes_at(state.database, places, 1, done) == Ok::<Seq<NodeView>, CodeErrorView>(done));
                    assert(cli::nodes_at(state.database, places, 0, Seq::empty()) == Ok::<Seq<NodeView>, CodeErrorView>(
                        seq![parent],
                    ));
                }
            }
        }
    }
}

/// The words for kinds stand for their kinds, and other words for none.
pub proof fn law_kinds_have_their_words(name: Seq<char>)
    ensures
        cli::kind_named(name) matches Ok(kind) ==> name == (match kind {
            NodeKind::Scalar => "scalar"@,
            NodeKind::Mapping => "mapping"@,
            NodeKind::Sequence => "sequence"@,
        }),
        name == "scalar"@ || name == "mapping"@ || name == "sequence"@ ==> cli::kind_named(name) is Ok,
        cli::semantic_kind_named(name) matches Ok(kind) ==> name == (match kind {
            SemanticKind::Definition => "definition"@,
            SemanticKind::Import => "import"@,
            SemanticKind::Reference => "reference"@,
            SemanticKind::Call => "call"@,
        }),
        cli::projection_named(name) matches Ok(projection) ==> name == (match projection {
            Projection::Form => "form"@,
            Projection::Source => "source"@,
            Projection::Summary => "summary"@,
        }),
{
}

/// A projected node is shown as its form or as its source text; several nodes as a
/// sequence, in their order.
pub proof fn law_projections_show_the_nodes(nodes: Seq<NodeView>, i: int)
    requires
        0 <= i < nodes.len(),
    ensures
        nodes.len() == 1 ==> cli::projection_of(nodes, Projection::Source) == YamlValueView::Text(nodes[0].source),
        nodes.len() == 1 && keys_are_distinct(nodes[0].form) ==> crate::code::form::form_of_value(
            cli::projection_of(nodes, Projection::Form),
        ) == Ok::<FormView, CodeErrorView>(nodes[0].form),
        nodes.len() > 1 ==> (cli::projection_of(nodes, Projection::Source) matches YamlValueView::Sequence(items)
            && items.len() == nodes.len() && items[i] == YamlValueView::Text(nodes[i].source)),
{
    if nodes.len() == 1 && keys_are_distinct(nodes[0].form) {
        crate::code::query_laws::law_forms_survive_as_values(nodes[0].form);
    }
}

// Changes.

/// The edit of a node that an operation stands for.
pub open spec fn stands_for(operation: Seq<char>, edit: EditView) -> bool {
    match edit {
        EditView::Replace { .. } => operation == "$code.replace"@,
        EditView::Delete { .. } => operation == "$code.delete"@,
        EditView::UpsertMapping { .. } => operation == "$code.upsert"@,
        EditView::InsertMapping { .. } => operation == "$code.insert-mapping"@,
        EditView::InsertSequence { .. } => operation == "$code.insert"@,
        EditView::SpliceSequence { .. } => operation == "$code.splice"@,
        _ => false,
    }
}

/// An operation that edits is one change set: one edit of its kind for each selected
/// node, and no other. Nothing but the database, the list of changes and the selection
/// is touched.
pub proof fn law_edits_go_to_the_selected_nodes(
    state: PipelineStateView,
    operation: Seq<char>,
    argument: YamlValueView,
    nodes: Seq<NodeView>,
)
    requires
        state.current == PipelineValueView::Nodes(nodes),
        operation == "$code.replace"@ || operation == "$code.delete"@ || operation == "$code.upsert"@ || operation
            == "$code.insert-mapping"@ || operation == "$code.insert"@ || operation == "$code.splice"@,
    ensures
        cli::staged(state, stage(operation, argument)) matches Ok(after) ==> {
            &&& after.original == state.original
            &&& after.saved == state.saved
            &&& exists|edits: Seq<EditView>|
                edits.len() == nodes.len() && (forall|i: int|
                    0 <= i < nodes.len() ==> stands_for(operation, #[trigger] edits[i]) && crate::code::edit::target_of(
                        edits[i],
                    ) == nodes[i].locator) && (#[trigger] applied(state.database, edits) matches Ok((database, _))
                    && database == after.database)
        },
{
    lemma_operation_words();
    lemma_stage(operation, argument);
    if cli::staged(state, stage(operation, argument)) is Ok {
        let edit = if operation == "$code.delete"@ {
            NodeEditView::Delete
        } else {
            cli::node_edit_of(operation, argument)->Ok_0->Some_0
        };
        let edits = cli::edits_for(edit, nodes);
        assert(applied(state.database, edits) is Ok);
        assert forall|i: int| 0 <= i < nodes.len() implies stands_for(operation, #[trigger] edits[i])
            && crate::code::edit::target_of(edits[i]) == nodes[i].locator by {
            assert(edits[i] == cli::edit_of(edit, nodes[i]));
        }
    }
}

/// Copying is a change set of one copy of the selected node, moving one of a move.
pub proof fn law_copying_and_moving_are_different(state: PipelineStateView, argument: YamlValueView, node: NodeView)
    requires
        state.current == PipelineValueView::Nodes(seq![node]),
    ensures
        cli::staged(state, stage("$code.copy"@, argument)) matches Ok(after) ==> exists|edit: EditView|
            (edit matches EditView::Copy { source, .. } && source == node.locator) && (#[trigger] applied(
                state.database,
                seq![edit],
            ) matches Ok((database, _)) && database == after.database),
        cli::staged(state, stage("$code.move"@, argument)) matches Ok(after) ==> exists|edit: EditView|
            (edit matches EditView::Move { source, .. } && source == node.locator) && (#[trigger] applied(
                state.database,
                seq![edit],
            ) matches Ok((database, _)) && database == after.database),
{
    lemma_operation_words();
    lemma_stage("$code.copy"@, argument);
    lemma_stage("$code.move"@, argument);
    let nodes = seq![node];
    assert(nodes[0] == node && nodes.len() == 1);
    lemma_transfer(state, argument, "$code.copy"@, true, node);
    lemma_transfer(state, argument, "$code.move"@, false, node);
}

proof fn lemma_transfer(
    state: PipelineStateView,
    argument: YamlValueView,
    operation: Seq<char>,
    copying: bool,
    node: NodeView,
)
    requires
        state.current == PipelineValueView::Nodes(seq![node]),
    ensures
        cli::transferred(state, argument, operation, copying) matches Ok(after) ==> exists|edit: EditView|
            (if copying {
                edit matches EditView::Copy { source, .. } && source == node.locator
            } else {
                edit matches EditView::Move { source, .. } && source == node.locator
            }) && (#[trigger] applied(state.database, seq![edit]) matches Ok((database, _)) && database
                == after.database),
{
    let nodes = seq![node];
    assert(nodes[0] == node && nodes.len() == 1);
    if cli::transferred(state, argument, operation, copying) is Ok {
        let options = cli::needed_mapping(argument, operation)->Ok_0;
        let file = match cli::text_field(options, "file"@)->Ok_0 {
            Some(path) => crate::code::workspace_path::normal_path(path),
            None => node.locator.document,
        };
        let path = cli::optional_path(options)->Ok_0;
        let target = cli::node_in_database(state.database, file, path)->Ok_0;
        let destination = cli::destination_of(options, operation)->Ok_0;
        let edit = if copying {
            EditView::Copy { source: node.locator, target: target.locator, destination }
        } else {
            EditView::Move { source: node.locator, target: target.locator, destination }
        };
        assert(applied(state.database, seq![edit]) is Ok);
    }
}

/// A pipeline that changed nothing ends with output, one that changed something with a
/// transaction.
pub proof fn law_changes_end_in_a_transaction(state: PipelineStateView)
    ensures
        cli::concluded(state) matches Ok(PipelineOutcomeView::Output(_)) ==> state.changed.len() == 0,
        cli::concluded(state) matches Ok(PipelineOutcomeView::Transaction(found)) ==> found == state
            && state.changed.len() > 0,
{
}

/// A transaction is not written where one of its documents changed in the meantime.
pub proof fn law_changed_documents_are_not_overwritten(
    current: SourceDatabaseView,
    state: PipelineStateView,
    from: int,
    index: int,
)
    requires
        0 <= from <= index < state.changed.len(),
        source::document_in(current, state.changed[index]) is Ok,
        source::document_in(state.original, state.changed[index]) is Ok,
        source::document_in(current, state.changed[index])->Ok_0.revision != source::document_in(
            state.original,
            state.changed[index],
        )->Ok_0.revision,
    ensures
        cli::write_error(current, state, from) is Err,
    decreases index - from,
{
    if from < index {
        law_changed_documents_are_not_overwritten(current, state, from + 1, index);
    }
}

} // verus!
