//! What edits do to the text: copies leave their source, insertions keep what was
//! there, deletions add nothing.
use vstd::prelude::*;
use crate::code::edit::{
    applied, by_place, changed_documents, document_edited, documents_edited, edited, edited_by, edits_of, grown_at,
    insertion, move_destination, overlap, overlap_error, plan_from, planned, same_document, shrunk_at, target_of,
    value_at,
};
use crate::code::source::{document_in, replaced};
use crate::code::text_edit;
use crate::code::tree::{child_tree, Shape, Tree, TreeStep};
use crate::code::view::{
    CodeErrorView, EditView, FormView, NodeLocatorView, PathView, PlannedEditView, SegmentView, SourceDatabaseView,
};
use crate::code::workspace_path::normal_path;

verus! {

// Insertions.

proof fn lemma_range(source: Seq<char>, node: Tree)
    requires
        text_edit::range_of(source, node) is Ok,
    ensures
        0 <= text_edit::range_of(source, node)->Ok_0.0 <= text_edit::range_of(source, node)->Ok_0.1 <= source.len(),
{
    let found = node[Seq::empty()];
    crate::code::lines::lemma_place(source, 0, found.start as int);
    crate::code::lines::lemma_place(source, 0, found.end as int);
}

proof fn lemma_entry_location(source: Seq<char>, mapping: Tree, count: int)
    requires
        text_edit::entry_location(source, mapping, count) is Ok,
    ensures
        0 <= text_edit::entry_location(source, mapping, count)->Ok_0.0 <= source.len(),
{
    if count > 0 {
        let last = child_tree(mapping, TreeStep::EntryKey((count - 1) as usize))->Some_0;
        crate::code::lines::lemma_owned_block(source, text_edit::range_of(source, last)->Ok_0.0);
    } else {
        lemma_range(source, mapping);
    }
}

proof fn lemma_item_place(source: Seq<char>, sequence: Tree, index: int, count: int)
    requires
        text_edit::item_place(source, sequence, index, count) is Ok,
    ensures
        0 <= text_edit::item_place(source, sequence, index, count)->Ok_0 <= source.len(),
{
    if index < count {
        let item = child_tree(sequence, TreeStep::Index(index as usize))->Some_0;
        crate::code::lines::lemma_owned_block(source, text_edit::range_of(source, item)->Ok_0.0);
    } else if count > 0 {
        let item = child_tree(sequence, TreeStep::Index((count - 1) as usize))->Some_0;
        crate::code::lines::lemma_owned_block(source, text_edit::range_of(source, item)->Ok_0.0);
    } else {
        lemma_range(source, sequence);
    }
}

/// Whether a text is another one with a copied value put in at one place, under a key
/// or as an item, at some indentation.
pub open spec fn takes_value(
    source: Seq<char>,
    destination: SegmentView,
    value: (Seq<char>, bool),
    text: Seq<char>,
) -> bool {
    match destination {
        SegmentView::Key(key) => exists|place: int, name: Seq<char>, indent: Seq<char>|
            crate::code::form::rendered_form(FormView::String(key)) == Ok::<Seq<char>, CodeErrorView>(name)
                && #[trigger] grown_at(source, place, text_edit::entry_text(name, value.0, value.1, indent), text),
        SegmentView::Index(_) => exists|place: int, indent: Seq<char>|
            #[trigger] grown_at(source, place, text_edit::item_source_text(value.0, value.1, indent), text),
    }
}

/// Putting a copied value in keeps every character of the text in its order and adds
/// the value alone.
pub proof fn law_taking_a_value_in_keeps_the_source(
    source: Seq<char>,
    target: NodeLocatorView,
    destination: SegmentView,
    value: (Seq<char>, bool),
)
    requires
        edited(source, insertion(target, destination, value)) is Ok,
    ensures
        takes_value(source, destination, value, edited(source, insertion(target, destination, value))->Ok_0),
{
    let text = edited(source, insertion(target, destination, value))->Ok_0;
    let node = text_edit::edited_node(source, target.path)->Ok_0;
    match destination {
        SegmentView::Key(key) => {
            let count = node[Seq::empty()].shape->Mapping_0 as int;
            lemma_entry_location(source, node, count);
            let location = text_edit::entry_location(source, node, count)->Ok_0;
            let name = crate::code::form::rendered_form(FormView::String(key))->Ok_0;
            let added = text_edit::entry_text(name, value.0, value.1, location.1);
            assert(grown_at(source, location.0, added, text));
        }
        SegmentView::Index(index) => {
            let count = node[Seq::empty()].shape->Sequence_0 as int;
            lemma_item_place(source, node, index as int, count);
            let place = text_edit::item_place(source, node, index as int, count)->Ok_0;
            let indent = text_edit::item_indent(source, node)->Ok_0;
            let added = text_edit::item_source_text(value.0, value.1, indent);
            assert(grown_at(source, place, added, text));
        }
    }
}

/// Putting an item in keeps every character of the source in its order: the new item
/// stands between two parts of it.
pub proof fn law_item_insertion_keeps_the_source(source: Seq<char>, path: PathView, index: usize, value: FormView)
    requires
        text_edit::item_inserted(source, path, index, value) is Ok,
    ensures
        exists|place: int, rendered: Seq<char>, indent: Seq<char>|
            crate::code::form::rendered_form(value) == Ok::<Seq<char>, CodeErrorView>(rendered) && #[trigger] grown_at(
                source,
                place,
                text_edit::item_lines(rendered, indent),
                text_edit::item_inserted(source, path, index, value)->Ok_0,
            ),
{
    let sequence = text_edit::edited_node(source, path)->Ok_0;
    let count = sequence[Seq::empty()].shape->Sequence_0 as int;
    lemma_item_place(source, sequence, index as int, count);
    let place = text_edit::item_place(source, sequence, index as int, count)->Ok_0;
    let indent = text_edit::item_indent(source, sequence)->Ok_0;
    let rendered = crate::code::form::rendered_form(value)->Ok_0;
    assert(grown_at(
        source,
        place,
        text_edit::item_lines(rendered, indent),
        text_edit::item_inserted(source, path, index, value)->Ok_0,
    ));
}

/// A key that is there is not put in again, and an item is put in at most one place
/// behind the last.
pub proof fn law_insertions_need_a_free_place(
    source: Seq<char>,
    path: PathView,
    key: Seq<char>,
    index: usize,
    value: FormView,
    text: Seq<char>,
    block_style: bool,
    node: Tree,
)
    requires
        text_edit::edited_node(source, path) == Ok::<Tree, CodeErrorView>(node),
    ensures
        child_tree(node, TreeStep::Key(key)) is Some ==> text_edit::inserted(source, path, key, value) is Err
            && text_edit::source_inserted(source, path, key, text, block_style) is Err,
        !(node[Seq::empty()].shape is Mapping) ==> text_edit::inserted(source, path, key, value) is Err
            && text_edit::upserted(source, path, key, value) is Err && text_edit::source_inserted(
            source,
            path,
            key,
            text,
            block_style,
        ) is Err,
        !(node[Seq::empty()].shape is Sequence) ==> text_edit::item_inserted(source, path, index, value) is Err
            && text_edit::item_source_inserted(source, path, index, text, block_style) is Err
            && text_edit::sequence_spliced(source, path, index, 0, Seq::empty()) is Err,
        node[Seq::empty()].shape matches Shape::Sequence(count) && index > count ==> text_edit::item_inserted(
            source,
            path,
            index,
            value,
        ) is Err && text_edit::item_source_inserted(source, path, index, text, block_style) is Err,
{
}

/// Putting a key in or replacing it is replacing it where it is there, and putting it
/// in where it is not.
pub proof fn law_upsert_replaces_or_inserts(
    source: Seq<char>,
    path: PathView,
    key: Seq<char>,
    value: FormView,
    node: Tree,
)
    requires
        text_edit::edited_node(source, path) == Ok::<Tree, CodeErrorView>(node),
        node[Seq::empty()].shape is Mapping,
    ensures
        child_tree(node, TreeStep::Key(key)) is Some ==> text_edit::upserted(source, path, key, value)
            == text_edit::replaced(
            source,
            (PathView { segments: path.segments.push(SegmentView::Key(key)) }),
            value,
        ),
        child_tree(node, TreeStep::Key(key)) is None ==> text_edit::upserted(source, path, key, value)
            == text_edit::inserted(source, path, key, value),
{
}

// Renaming and splicing.

/// Renaming a key replaces the key by the new one and keeps everything else; it is
/// refused where the new key is there already.
pub proof fn law_renaming_changes_the_key_alone(source: Seq<char>, path: PathView, new_key: Seq<char>)
    requires
        text_edit::renamed(source, path, new_key) is Ok,
    ensures
        exists|from: int, to: int, name: Seq<char>|
            0 <= from <= to <= source.len() && crate::code::form::rendered_form(FormView::String(new_key)) == Ok::<
                Seq<char>,
                CodeErrorView,
            >(name) && text_edit::renamed(source, path, new_key)->Ok_0 == #[trigger] (source.take(from) + name)
                + #[trigger] source.skip(to),
        text_edit::container_of(source, path) matches Ok(parent) ==> child_tree(parent, TreeStep::Key(new_key)) is None,
{
    let parent = text_edit::container_of(source, path)->Ok_0;
    let key = path.segments.last()->Key_0;
    let node = crate::code::tree::matching_key_tree(parent, key)->Some_0;
    lemma_range(source, node);
    let range = text_edit::range_of(source, node)->Ok_0;
    let name = crate::code::form::rendered_form(FormView::String(new_key))->Ok_0;
    assert(text_edit::renamed(source, path, new_key)->Ok_0 == (source.take(range.0) + name) + source.skip(range.1));
}

/// Splicing replaces one range of the text by the new items: without items it only
/// takes out, without a removal it only puts in, and without both it changes nothing.
pub proof fn law_splicing_replaces_one_range(
    source: Seq<char>,
    path: PathView,
    start: usize,
    removed: usize,
    values: Seq<FormView>,
)
    requires
        text_edit::sequence_spliced(source, path, start, removed, values) is Ok,
    ensures
        values.len() == 0 ==> exists|from: int, to: int| #[trigger]
            shrunk_at(source, from, to, text_edit::sequence_spliced(source, path, start, removed, values)->Ok_0),
        removed == 0 ==> exists|place: int, added: Seq<char>| #[trigger]
            grown_at(source, place, added, text_edit::sequence_spliced(source, path, start, removed, values)->Ok_0),
        values.len() == 0 && removed == 0 ==> text_edit::sequence_spliced(source, path, start, removed, values)->Ok_0
            == source,
        text_edit::edited_node(source, path) matches Ok(node) && node[Seq::empty()].shape matches Shape::Sequence(count)
            && start + removed <= count,
{
    let text = text_edit::sequence_spliced(source, path, start, removed, values)->Ok_0;
    let sequence = text_edit::edited_node(source, path)->Ok_0;
    let count = sequence[Seq::empty()].shape->Sequence_0 as int;
    lemma_item_place(source, sequence, start as int, count);
    let place = text_edit::item_place(source, sequence, start as int, count)->Ok_0;
    let end = text_edit::removal_end(source, sequence, place, start as int, removed as int)->Ok_0;
    let indent = text_edit::item_indent(source, sequence)->Ok_0;
    let added = text_edit::item_texts(values, 0, indent, Seq::empty())->Ok_0;
    if removed > 0 {
        let item = child_tree(sequence, TreeStep::Index((start + removed - 1) as usize))->Some_0;
        crate::code::lines::lemma_owned_block(source, text_edit::range_of(source, item)->Ok_0.0);
    }
    assert(text == crate::code::lines::spliced(source, place, end, added));
    if values.len() == 0 {
        assert(text =~= source.take(place) + source.skip(end));
        assert(shrunk_at(source, place, end, text));
    }
    if removed == 0 {
        assert(grown_at(source, place, added, text));
    }
    if values.len() == 0 && removed == 0 {
        assert(text =~= source);
    }
}

// Plans.

/// A copy is planned as one insertion of the copied value at its target, and nothing
/// else: its source is not touched.
pub proof fn law_copies_are_insertions(
    database: SourceDatabaseView,
    source: NodeLocatorView,
    target: NodeLocatorView,
    destination: SegmentView,
    index: usize,
)
    ensures
        planned(database, (EditView::Copy { source, target, destination }), index) matches Ok(steps) ==> {
            &&& steps.len() == 1
            &&& value_at(database, source) is Ok
            &&& steps[0].edit == insertion(target, destination, value_at(database, source)->Ok_0)
            &&& steps[0].move_group is None
        },
        planned(database, (EditView::Copy { source, target, destination }), index) is Ok == value_at(database, source)
            is Ok,
{
}

/// A move is planned as an insertion of the moved value at its target and a deletion
/// of its source, which belong together; a node is not moved into itself.
pub proof fn law_moves_insert_and_delete(
    database: SourceDatabaseView,
    source: NodeLocatorView,
    target: NodeLocatorView,
    destination: SegmentView,
    index: usize,
)
    ensures
        same_document(source, target) && crate::code::path::leads_to(source.path, target.path) ==> planned(
            database,
            (EditView::Move { source, target, destination }),
            index,
        ) is Err,
        planned(database, (EditView::Move { source, target, destination }), index) matches Ok(steps) ==> {
            &&& steps.len() == 2
            &&& value_at(database, source) is Ok
            &&& steps[0].edit == insertion(
                target,
                move_destination(source, target, destination),
                value_at(database, source)->Ok_0,
            )
            &&& steps[1].edit == (EditView::Delete { target: source })
            &&& steps[0].move_group == Some(index)
            &&& steps[1].move_group == Some(index)
        },
{
}

/// A moved item goes where it was sent; within one sequence, what stands behind its
/// old place comes forward by one.
pub proof fn law_moved_items_account_for_their_old_place(
    source: NodeLocatorView,
    target: NodeLocatorView,
    from: usize,
    to: usize,
    key: Seq<char>,
)
    requires
        source.path == crate::code::path::child_of(target.path, SegmentView::Index(from)),
    ensures
        move_destination(source, target, SegmentView::Key(key)) == SegmentView::Key(key),
        !same_document(source, target) ==> move_destination(source, target, SegmentView::Index(to))
            == SegmentView::Index(to),
        same_document(source, target) && to <= from ==> move_destination(source, target, SegmentView::Index(to))
            == SegmentView::Index(to),
        same_document(source, target) && to > from ==> move_destination(source, target, SegmentView::Index(to))
            == SegmentView::Index((to - 1) as usize),
{
    crate::code::path::law_parent_undoes_child(target.path, SegmentView::Index(from));
}

/// Every other edit is planned as itself.
pub proof fn law_other_edits_are_planned_as_they_are(database: SourceDatabaseView, edit: EditView, index: usize)
    requires
        !(edit is Copy),
        !(edit is Move),
    ensures
        planned(database, edit, index) == Ok::<Seq<PlannedEditView>, CodeErrorView>(
            seq![PlannedEditView { edit, move_group: None }],
        ),
{
}

/// Two edits stand in each other's way where they are of one document and one is of a
/// node in or above that of the other, whichever comes first; edits of different
/// documents never do, nor do renamings or the two halves of a move.
pub proof fn law_overlaps_are_mutual(left: PlannedEditView, right: PlannedEditView)
    ensures
        overlap(left, right) == overlap(right, left),
        normal_path(target_of(left.edit).document) != normal_path(target_of(right.edit).document) ==> !overlap(
            left,
            right,
        ),
        left.edit is RenameMappingKey || right.edit is RenameMappingKey ==> !overlap(left, right),
        left.move_group is Some && left.move_group == right.move_group ==> !overlap(left, right),
        left.edit is Delete && right.edit is Delete && target_of(left.edit) == target_of(right.edit)
            && left.move_group is None ==> overlap(left, right),
{
    let path = target_of(left.edit).path;
    assert(path.segments.take(path.segments.len() as int) =~= path.segments);
}

// Whole change sets.

proof fn lemma_single_step(
    database: SourceDatabaseView,
    edit: EditView,
    step: PlannedEditView,
    after: SourceDatabaseView,
    changed: Seq<Seq<char>>,
)
    requires
        applied(database, seq![edit]) == Ok::<(SourceDatabaseView, Seq<Seq<char>>), CodeErrorView>((after, changed)),
        planned(database, edit, 0) == Ok::<Seq<PlannedEditView>, CodeErrorView>(seq![step]),
    ensures
        changed == seq![normal_path(target_of(step.edit).document)],
        document_in(database, changed[0]) is Ok,
        edited(document_in(database, changed[0])->Ok_0.source, step.edit) is Ok,
        replaced(
            database,
            changed[0],
            edited(document_in(database, changed[0])->Ok_0.source, step.edit)->Ok_0,
        ) == Ok::<SourceDatabaseView, CodeErrorView>(after),
{
    let edits = seq![edit];
    let plan = seq![step];
    assert(edits[0] == edit && plan[0] == step);
    assert(Seq::<PlannedEditView>::empty() + plan =~= plan);
    assert(plan_from(database, edits, 1, plan) == Ok::<Seq<PlannedEditView>, CodeErrorView>(plan));
    assert(plan_from(database, edits, 0, Seq::empty()) == Ok::<Seq<PlannedEditView>, CodeErrorView>(plan));
    let path = normal_path(target_of(step.edit).document);
    let paths = seq![path];
    assert(crate::code::workspace_path::with_path(Seq::empty(), 0, path) =~= paths);
    assert(changed_documents(plan, 1, paths) == paths);
    assert(changed_documents(plan, 0, Seq::empty()) == paths);
    assert(changed == paths);
    assert(paths[0] == path);
    let document = document_in(database, path);
    match document_edited(database, plan, path) {
        Err(_) => {
            assert(documents_edited(database, plan, paths, 0) is Err);
        }
        Ok(next) => {
            assert(documents_edited(next, plan, paths, 1) == Ok::<SourceDatabaseView, CodeErrorView>(next));
            assert(after == next);
            let source = document->Ok_0.source;
            let sorted = seq![step.edit];
            assert(by_place(source, Seq::empty(), 0, step.edit) =~= sorted);
            assert(edits_of(source, plan, path, 1, sorted) == sorted);
            assert(edits_of(source, plan, path, 0, Seq::empty()) == sorted);
            assert(sorted[0] == step.edit);
            match edited(source, step.edit) {
                Err(_) => {}
                Ok(text) => {
                    assert(edited_by(text, sorted, 1) == Ok::<Seq<char>, CodeErrorView>(text));
                }
            }
        }
    }
}

/// A change set of one copy puts the copied value into the target's document and
/// takes nothing out of any: the source is still there, and no other document changes.
pub proof fn law_copying_takes_nothing_away(
    database: SourceDatabaseView,
    source: NodeLocatorView,
    target: NodeLocatorView,
    destination: SegmentView,
    after: SourceDatabaseView,
    changed: Seq<Seq<char>>,
    other: Seq<char>,
)
    requires
        applied(database, seq![EditView::Copy { source, target, destination }]) == Ok::<
            (SourceDatabaseView, Seq<Seq<char>>),
            CodeErrorView,
        >((after, changed)),
    ensures
        changed == seq![normal_path(target.document)],
        document_in(database, changed[0]) is Ok,
        document_in(after, changed[0]) is Ok,
        value_at(database, source) is Ok,
        takes_value(
            document_in(database, changed[0])->Ok_0.source,
            destination,
            value_at(database, source)->Ok_0,
            document_in(after, changed[0])->Ok_0.source,
        ),
        normal_path(other) != normal_path(changed[0]) ==> document_in(after, other) == document_in(database, other),
{
    let edit = EditView::Copy { source, target, destination };
    let edits = seq![edit];
    assert(edits[0] == edit);
    assert(planned(database, edit, 0) is Ok) by {
        if planned(database, edit, 0) is Err {
            assert(plan_from(database, edits, 0, Seq::empty()) is Err);
        }
    }
    let value = value_at(database, source)->Ok_0;
    let step = PlannedEditView { edit: insertion(target, destination, value), move_group: None };
    lemma_single_step(database, edit, step, after, changed);
    let text = document_in(database, changed[0])->Ok_0.source;
    law_taking_a_value_in_keeps_the_source(text, target, destination, value);
    let next = edited(text, step.edit)->Ok_0;
    crate::code::source::law_documents_are_found_again(database, changed[0], next);
    if normal_path(other) != normal_path(changed[0]) {
        crate::code::source::law_other_documents_are_kept(database, changed[0], next, other);
    }
}

/// A change set of one other edit changes the document that it is about, as the edit
/// says, and no other.
pub proof fn law_single_edits_change_their_document(
    database: SourceDatabaseView,
    edit: EditView,
    after: SourceDatabaseView,
    changed: Seq<Seq<char>>,
    other: Seq<char>,
)
    requires
        !(edit is Copy),
        !(edit is Move),
        applied(database, seq![edit]) == Ok::<(SourceDatabaseView, Seq<Seq<char>>), CodeErrorView>((after, changed)),
    ensures
        changed.len() == 1,
        document_in(database, changed[0]) is Ok,
        document_in(after, changed[0]) is Ok,
        ({
            let before = document_in(database, changed[0])->Ok_0.source;
            let now = document_in(after, changed[0])->Ok_0.source;
            match edit {
                EditView::Delete { target } => changed[0] == normal_path(target.document) && exists|from: int, to: int|
                    #[trigger] shrunk_at(before, from, to, now),
                EditView::InsertMapping { target, key, value } => changed[0] == normal_path(target.document)
                    && text_edit::inserted(before, target.path, key, value) == Ok::<Seq<char>, CodeErrorView>(now)
                    && exists|place: int, added: Seq<char>| #[trigger] grown_at(before, place, added, now),
                EditView::UpsertMapping { target, key, value } => changed[0] == normal_path(target.document)
                    && text_edit::upserted(before, target.path, key, value) == Ok::<Seq<char>, CodeErrorView>(now),
                EditView::Replace { target, value } => changed[0] == normal_path(target.document)
                    && text_edit::replaced(before, target.path, value) == Ok::<Seq<char>, CodeErrorView>(now),
                EditView::RenameMappingKey { target, new_key } => changed[0] == normal_path(target.document)
                    && text_edit::renamed(before, target.path, new_key) == Ok::<Seq<char>, CodeErrorView>(now),
                EditView::InsertSequence { target, index, value } => changed[0] == normal_path(target.document)
                    && text_edit::item_inserted(before, target.path, index, value) == Ok::<Seq<char>, CodeErrorView>(
                    now,
                ) && exists|place: int, added: Seq<char>| #[trigger] grown_at(before, place, added, now),
                EditView::SpliceSequence { target, start, delete_count, values } => changed[0] == normal_path(
                    target.document,
                ) && text_edit::sequence_spliced(before, target.path, start, delete_count, values) == Ok::<
                    Seq<char>,
                    CodeErrorView,
                >(now),
                _ => true,
            }
        }),
        normal_path(other) != normal_path(changed[0]) ==> document_in(after, other) == document_in(database, other),
{
    let step = PlannedEditView { edit, move_group: None };
    lemma_single_step(database, edit, step, after, changed);
    let before = document_in(database, changed[0])->Ok_0.source;
    let now = edited(before, edit)->Ok_0;
    crate::code::source::law_documents_are_found_again(database, changed[0], now);
    if normal_path(other) != normal_path(changed[0]) {
        crate::code::source::law_other_documents_are_kept(database, changed[0], now, other);
    }
    match edit {
        EditView::Delete { target } => crate::code::edit::law_deletion_keeps_the_rest(before, target.path),
        EditView::InsertMapping { target, key, value } => crate::code::edit::law_insertion_keeps_the_source(
            before,
            target.path,
            key,
            value,
        ),
        EditView::InsertSequence { target, index, value } => law_item_insertion_keeps_the_source(
            before,
            target.path,
            index,
            value,
        ),
        _ => {}
    }
}

/// Edits of one document are applied from its end to its start, so that none moves
/// the place of one that comes later, and all of them are.
pub proof fn law_edits_are_applied_from_the_end(
    source: Seq<char>,
    plan: Seq<PlannedEditView>,
    document: Seq<char>,
    from: int,
    sorted: Seq<EditView>,
)
    requires
        0 <= from <= plan.len(),
        from_the_end(source, sorted),
    ensures
        from_the_end(source, edits_of(source, plan, document, from, sorted)),
        forall|edit: EditView| sorted.contains(edit) ==> #[trigger] edits_of(source, plan, document, from, sorted).contains(
            edit,
        ),
        forall|i: int|
            from <= i < plan.len() && normal_path(target_of((#[trigger] plan[i]).edit).document) == document
                ==> edits_of(source, plan, document, from, sorted).contains(plan[i].edit),
    decreases plan.len() - from,
{
    if from < plan.len() {
        if normal_path(target_of(plan[from].edit).document) == document {
            let more = by_place(source, sorted, 0, plan[from].edit);
            lemma_by_place(source, sorted, 0, plan[from].edit);
            law_edits_are_applied_from_the_end(source, plan, document, from + 1, more);
            assert(more.contains(plan[from].edit));
            assert forall|edit: EditView| sorted.contains(edit) implies #[trigger] edits_of(
                source,
                plan,
                document,
                from,
                sorted,
            ).contains(edit) by {
                assert(more.contains(edit));
                assert(edits_of(source, plan, document, from + 1, more).contains(edit));
            }
            assert(edits_of(source, plan, document, from + 1, more).contains(plan[from].edit));
        } else {
            law_edits_are_applied_from_the_end(source, plan, document, from + 1, sorted);
        }
    }
}

/// Whether edits come in the order of their places, the last one first.
pub open spec fn from_the_end(source: Seq<char>, edits: Seq<EditView>) -> bool {
    forall|i: int, j: int|
        0 <= i < j < edits.len() ==> text_edit::offset_of(source, target_of(#[trigger] edits[i]).path)
            >= text_edit::offset_of(source, target_of(#[trigger] edits[j]).path)
}

proof fn lemma_by_place(source: Seq<char>, sorted: Seq<EditView>, from: int, edit: EditView)
    requires
        0 <= from <= sorted.len(),
        from_the_end(source, sorted),
        forall|i: int|
            0 <= i < from ==> text_edit::offset_of(source, target_of(#[trigger] sorted[i]).path) >= text_edit::offset_of(
                source,
                target_of(edit).path,
            ),
    ensures
        from_the_end(source, by_place(source, sorted, from, edit)),
        by_place(source, sorted, from, edit).contains(edit),
        forall|other: EditView| sorted.contains(other) ==> #[trigger] by_place(source, sorted, from, edit).contains(other),
    decreases sorted.len() - from,
{
    let after = by_place(source, sorted, from, edit);
    if from >= sorted.len() {
        assert(after[sorted.len() as int] == edit);
        assert forall|other: EditView| sorted.contains(other) implies #[trigger] after.contains(other) by {
            let k = choose|k: int| 0 <= k < sorted.len() && sorted[k] == other;
            assert(after[k] == other);
        }
    } else if text_edit::offset_of(source, target_of(sorted[from]).path) < text_edit::offset_of(
        source,
        target_of(edit).path,
    ) {
        assert(after[from] == edit);
        assert forall|other: EditView| sorted.contains(other) implies #[trigger] after.contains(other) by {
            let k = choose|k: int| 0 <= k < sorted.len() && sorted[k] == other;
            assert(after[if k < from { k } else { k + 1 }] == other);
        }
    } else {
        lemma_by_place(source, sorted, from + 1, edit);
    }
}

/// Changes that stand in each other's way are refused, others of the same change set
/// are not refused for it.
pub proof fn law_edits_apart_are_accepted(plan: Seq<PlannedEditView>, first: int, second: int)
    requires
        forall|i: int, j: int| 0 <= i < j < plan.len() ==> !overlap(#[trigger] plan[i], #[trigger] plan[j]),
        0 <= first,
        first < second,
    ensures
        overlap_error(plan, first, second) is Ok,
    decreases plan.len() - first, plan.len() - second,
{
    if first < plan.len() {
        if second >= plan.len() {
            law_edits_apart_are_accepted(plan, first + 1, first + 2);
        } else {
            law_edits_apart_are_accepted(plan, first, second + 1);
        }
    }
}

} // verus!
