//! Change sets: edits that are checked and applied together.
use vstd::prelude::*;
use crate::code::copy;
use crate::code::model::{
    AppliedChangeSet, ChangeSet, CodeError, CodeErrorKind, Edit, Form, NodeLocator, PlannedEdit, Segment,
    SourceDatabase,
};
use crate::code::text_edit::{
    delete, edit_offset, extract_source_value, insert_mapping, insert_mapping_source, insert_sequence,
    insert_sequence_source, rename_mapping_key, replace, splice_sequence, upsert_mapping,
};
use crate::code::view::{
    self, CodeErrorView, EditView, NodeLocatorView, PathView, PlannedEditView, SegmentView, SourceDatabaseView,
};
use crate::code::workspace_path::{add_path, normalize_path};
use crate::text::{concat_three, owned, same_text};

verus! {

/// The node that an edit is about.
pub open spec fn target_of(edit: EditView) -> NodeLocatorView {
    match edit {
        EditView::Replace { target, .. } => target,
        EditView::Delete { target } => target,
        EditView::UpsertMapping { target, .. } => target,
        EditView::InsertMapping { target, .. } => target,
        EditView::RenameMappingKey { target, .. } => target,
        EditView::InsertSequence { target, .. } => target,
        EditView::SpliceSequence { target, .. } => target,
        EditView::Copy { target, .. } => target,
        EditView::Move { target, .. } => target,
        EditView::InsertMappingSource { target, .. } => target,
        EditView::InsertSequenceSource { target, .. } => target,
    }
}

impl Edit {
    pub fn target(&self) -> (target: &NodeLocator)
        ensures
            view::node_locator(*target) == target_of(view::edit(*self)),
    {
        match self {
            Edit::Replace { target, .. } => target,
            Edit::Delete { target } => target,
            Edit::UpsertMapping { target, .. } => target,
            Edit::InsertMapping { target, .. } => target,
            Edit::RenameMappingKey { target, .. } => target,
            Edit::InsertSequence { target, .. } => target,
            Edit::SpliceSequence { target, .. } => target,
            Edit::Copy { target, .. } => target,
            Edit::Move { target, .. } => target,
            Edit::InsertMappingSource { target, .. } => target,
            Edit::InsertSequenceSource { target, .. } => target,
        }
    }
}

// Building change sets.

pub open spec fn with_edit(changes: ChangeSet, edit: EditView) -> Seq<EditView> {
    view::edits(changes.edits@).push(edit)
}

impl ChangeSet {
    pub fn new() -> (changes: ChangeSet)
        ensures
            view::edits(changes.edits@) == Seq::<EditView>::empty(),
    {
        let changes = ChangeSet { edits: Vec::new() };
        assert(view::edits(changes.edits@) =~= Seq::<EditView>::empty());
        changes
    }

    fn with(self, edit: Edit) -> (changes: ChangeSet)
        ensures
            view::edits(changes.edits@) == with_edit(self, view::edit(edit)),
    {
        let mut edits = self.edits;
        let ghost before = edits@;
        edits.push(edit);
        proof {
            view::lemma_edits_push(before, edit);
        }
        ChangeSet { edits }
    }

    pub fn replace(self, target: NodeLocator, value: Form) -> (changes: ChangeSet)
        ensures
            view::edits(changes.edits@) == with_edit(
                self,
                EditView::Replace { target: view::node_locator(target), value: view::form(value) },
            ),
    {
        self.with(Edit::Replace { target, value })
    }

    pub fn delete(self, target: NodeLocator) -> (changes: ChangeSet)
        ensures
            view::edits(changes.edits@) == with_edit(self, EditView::Delete { target: view::node_locator(target) }),
    {
        self.with(Edit::Delete { target })
    }

    pub fn upsert_mapping(self, target: NodeLocator, key: String, value: Form) -> (changes: ChangeSet)
        ensures
            view::edits(changes.edits@) == with_edit(
                self,
                EditView::UpsertMapping { target: view::node_locator(target), key: key@, value: view::form(value) },
            ),
    {
        self.with(Edit::UpsertMapping { target, key, value })
    }

    pub fn insert_mapping(self, target: NodeLocator, key: String, value: Form) -> (changes: ChangeSet)
        ensures
            view::edits(changes.edits@) == with_edit(
                self,
                EditView::InsertMapping { target: view::node_locator(target), key: key@, value: view::form(value) },
            ),
    {
        self.with(Edit::InsertMapping { target, key, value })
    }

    pub fn rename_mapping_key(self, target: NodeLocator, new_key: String) -> (changes: ChangeSet)
        ensures
            view::edits(changes.edits@) == with_edit(
                self,
                EditView::RenameMappingKey { target: view::node_locator(target), new_key: new_key@ },
            ),
    {
        self.with(Edit::RenameMappingKey { target, new_key })
    }

    pub fn insert_sequence(self, target: NodeLocator, index: usize, value: Form) -> (changes: ChangeSet)
        ensures
            view::edits(changes.edits@) == with_edit(
                self,
                EditView::InsertSequence { target: view::node_locator(target), index, value: view::form(value) },
            ),
    {
        self.with(Edit::InsertSequence { target, index, value })
    }

    pub fn splice_sequence(self, target: NodeLocator, start: usize, delete_count: usize, values: Vec<Form>) -> (changes:
        ChangeSet)
        ensures
            view::edits(changes.edits@) == with_edit(
                self,
                EditView::SpliceSequence {
                    target: view::node_locator(target),
                    start,
                    delete_count,
                    values: view::forms(values@),
                },
            ),
    {
        self.with(Edit::SpliceSequence { target, start, delete_count, values })
    }

    pub fn copy(self, source: NodeLocator, target: NodeLocator, destination: Segment) -> (changes: ChangeSet)
        ensures
            view::edits(changes.edits@) == with_edit(
                self,
                EditView::Copy {
                    source: view::node_locator(source),
                    target: view::node_locator(target),
                    destination: view::segment(destination),
                },
            ),
    {
        self.with(Edit::Copy { source, target, destination })
    }

    pub fn move_node(self, source: NodeLocator, target: NodeLocator, destination: Segment) -> (changes: ChangeSet)
        ensures
            view::edits(changes.edits@) == with_edit(
                self,
                EditView::Move {
                    source: view::node_locator(source),
                    target: view::node_locator(target),
                    destination: view::segment(destination),
                },
            ),
    {
        self.with(Edit::Move { source, target, destination })
    }

    pub fn edits(&self) -> (edits: &Vec<Edit>)
        ensures
            view::edits(edits@) == view::edits(self.edits@),
    {
        &self.edits
    }
}

// Preconditions.

/// What stands against an edit of a node: its document or the node itself
/// changed since it was looked up.
pub open spec fn locator_error(database: SourceDatabaseView, target: NodeLocatorView) -> Result<(), CodeErrorView> {
    match crate::code::source::document_in(database, target.document) {
        Err(error) => Err(error),
        Ok(document) => {
            if document.revision != target.revision {
                Err(
                    crate::code::form::in_document(
                        crate::code::form::failed(
                            CodeErrorKind::StaleRevision,
                            "document `"@ + target.document + "` changed since the edit was planned"@,
                        ),
                        target.document,
                    ),
                )
            } else {
                match crate::code::source::node_of(document, target.path) {
                    Err(error) => Err(error),
                    Ok(node) => {
                        if node.locator.fingerprint != target.fingerprint {
                            Err(
                                crate::code::form::on_path(
                                    crate::code::form::in_document(
                                        crate::code::form::failed(
                                            CodeErrorKind::StaleNode,
                                            "target node no longer matches its planned fingerprint"@,
                                        ),
                                        target.document,
                                    ),
                                    target.path,
                                ),
                            )
                        } else {
                            Ok(())
                        }

                    },
                }
            }

        },
    }
}

fn validate_locator(database: &SourceDatabase, target: &NodeLocator) -> (result: Result<(), CodeError>)
    ensures
        crate::code::form::unit_outcome(result) == locator_error(
            view::source_database(*database),
            view::node_locator(*target),
        ),
{
    let document = match database.document(target.document.as_str()) {
        Ok(value) => value,
        Err(error) => return Err(error),
    };
    if !same_text(document.revision.as_str(), target.revision.as_str()) {
        let message = concat_three(
            "document `",
            target.document.as_str(),
            "` changed since the edit was planned",
        );
        return Err(CodeError::new(CodeErrorKind::StaleRevision, message).at_document(target.document.clone()));
    }
    let node = match document.at(&target.path) {
        Ok(value) => value,
        Err(error) => return Err(error),
    };
    if !same_text(node.locator.fingerprint.as_str(), target.fingerprint.as_str()) {
        let message = owned("target node no longer matches its planned fingerprint");
        return Err(
            CodeError::new(CodeErrorKind::StaleNode, message).at_document(target.document.clone()).at_path(
                copy::path(&target.path),
            ),
        );
    }
    Ok(())
}

/// The node that an edit takes its value from.
pub open spec fn source_of(edit: EditView) -> Option<NodeLocatorView> {
    match edit {
        EditView::Copy { source, .. } => Some(source),
        EditView::Move { source, .. } => Some(source),
        _ => None,
    }
}

pub open spec fn edit_error(database: SourceDatabaseView, edit: EditView) -> Result<(), CodeErrorView> {
    match locator_error(database, target_of(edit)) {
        Err(error) => Err(error),
        Ok(checked) => {
            match source_of(edit) {
                Some(source) => locator_error(database, source),
                None => Ok(()),
            }

        },
    }
}

pub open spec fn precondition_error(database: SourceDatabaseView, edits: Seq<EditView>, from: int) -> Result<
(),
CodeErrorView,
>
    decreases edits.len() - from,
{
    if from < 0 || from >= edits.len() {
        Ok(())
    } else {
        match edit_error(database, edits[from]) {
            Err(error) => Err(error),
            Ok(checked) => {
                precondition_error(database, edits, from + 1)

            },
        }
    }
}

fn validate_edit(database: &SourceDatabase, edit: &Edit) -> (result: Result<(), CodeError>)
    ensures
        crate::code::form::unit_outcome(result) == edit_error(view::source_database(*database), view::edit(*edit)),
{
    match validate_locator(database, edit.target()) {
        Ok(_) => {}
        Err(error) => return Err(error),
    }
    match edit {
        Edit::Copy { source, .. } => validate_locator(database, source),
        Edit::Move { source, .. } => validate_locator(database, source),
        _ => Ok(()),
    }
}

fn validate_preconditions(database: &SourceDatabase, edits: &Vec<Edit>) -> (result: Result<(), CodeError>)
    ensures
        crate::code::form::unit_outcome(result) == precondition_error(
            view::source_database(*database),
            view::edits(edits@),
            0,
        ),
{
    let ghost all = view::edits(edits@);
    let ghost base = view::source_database(*database);
    let mut i: usize = 0;
    while i < edits.len()
        invariant
            i <= edits.len(),
            all == view::edits(edits@),
            base == view::source_database(*database),
            precondition_error(base, all, 0) == precondition_error(base, all, i as int),
        decreases edits.len() - i,
    {
        assert(all[i as int] == view::edit(edits@[i as int]));
        match validate_edit(database, &edits[i]) {
            Ok(_) => {}
            Err(error) => return Err(error),
        }
        i += 1;
    }
    Ok(())
}

// Plans.

pub open spec fn same_document(left: NodeLocatorView, right: NodeLocatorView) -> bool {
    crate::code::workspace_path::normal_path(left.document) == crate::code::workspace_path::normal_path(right.document)
}

fn one_document(left: &NodeLocator, right: &NodeLocator) -> (result: bool)
    ensures
        result == same_document(view::node_locator(*left), view::node_locator(*right)),
{
    let first = normalize_path(left.document.as_str());
    let second = normalize_path(right.document.as_str());
    same_text(first.as_str(), second.as_str())
}

/// Where a moved item goes: one place less where it leaves the same sequence
/// before that place.
pub open spec fn move_destination(source: NodeLocatorView, target: NodeLocatorView, destination: SegmentView) -> SegmentView {
    match (destination, crate::code::path::last_of(source.path)) {
        (SegmentView::Index(to), Some(SegmentView::Index(from))) => if same_document(source, target)
        && crate::code::path::parent_of(source.path) == Some(target.path) && from < to {
            SegmentView::Index((to - 1) as usize)
        } else {
            destination
        },
        _ => destination,
    }
}

fn adjusted_move_destination(source: &NodeLocator, target: &NodeLocator, destination: &Segment) -> (result: Segment)
    ensures
        view::segment(result) == move_destination(
            view::node_locator(*source),
            view::node_locator(*target),
            view::segment(*destination),
        ),
{
    match (destination, source.path.last()) {
        (Segment::Index(to), Some(Segment::Index(from))) => {
            let within = match source.path.parent() {
                Some(parent) => parent.same(&target.path),
                None => false,
            };
            if one_document(source, target) && within && *from < *to {
                Segment::Index(*to - 1)
            } else {
                copy::segment(destination)
            }
        }
        _ => copy::segment(destination),
    }
}

/// The edit that puts text in at a place.
pub open spec fn insertion(target: NodeLocatorView, destination: SegmentView, value: (Seq<char>, bool)) -> EditView {
    match destination {
        SegmentView::Key(key) => EditView::InsertMappingSource { target, key, source: value.0, block_style: value.1 },
        SegmentView::Index(index) => EditView::InsertSequenceSource {
            target,
            index,
            source: value.0,
            block_style: value.1,
        },
    }
}

fn insertion_of(target: &NodeLocator, destination: Segment, value: String, block_style: bool) -> (edit: Edit)
    ensures
        view::edit(edit) == insertion(view::node_locator(*target), view::segment(destination), (value@, block_style)),
{
    match destination {
        Segment::Key(key) => Edit::InsertMappingSource {
            target: copy::node_locator(target),
            key,
            source: value,
            block_style,
        },
        Segment::Index(index) => Edit::InsertSequenceSource {
            target: copy::node_locator(target),
            index,
            source: value,
            block_style,
        },
    }
}

/// The value that a copy or a move puts in.
pub open spec fn value_at(database: SourceDatabaseView, source: NodeLocatorView) -> Result<
(Seq<char>, bool),
CodeErrorView,
> {
    match crate::code::source::document_in(database, source.document) {
        Err(error) => Err(error),
        Ok(document) => {
            crate::code::text_edit::extracted(document.source, source.path)

        },
    }
}

fn read_value(database: &SourceDatabase, source: &NodeLocator) -> (result: Result<(String, bool), CodeError>)
    ensures
        value_at(view::source_database(*database), view::node_locator(*source)) == (match result {
                Ok((text, block_style)) => Ok((text@, block_style)),
                Err(error) => Err(view::code_error(error)),
        }),
{
    let document = match database.document(source.document.as_str()) {
        Ok(value) => value,
        Err(error) => return Err(error),
    };
    extract_source_value(document.source.as_str(), &source.path)
}

/// The text edits that an edit stands for.
pub open spec fn planned(database: SourceDatabaseView, edit: EditView, index: usize) -> Result<
Seq<PlannedEditView>,
CodeErrorView,
> {
    match edit {
        EditView::Copy { source, target, destination } => {
            match value_at(database, source) {
                Err(error) => Err(error),
                Ok(value) => {
                    Ok(seq![PlannedEditView { edit: insertion(target, destination, value), move_group: None }])

                },
            }
        },
        EditView::Move { source, target, destination } => {
            match value_at(database, source) {
                Err(error) => Err(error),
                Ok(value) => {
                    if same_document(source, target) && crate::code::path::leads_to(source.path, target.path) {
                        Err(
                            crate::code::form::on_path(
                                crate::code::form::in_document(
                                    crate::code::text_edit::conflict(
                                        "cannot move a node into itself or one of its descendants"@,
                                    ),
                                    source.document,
                                ),
                                source.path,
                            ),
                        )
                    } else {
                        Ok(
                            seq![
                                PlannedEditView {
                                    edit: insertion(target, move_destination(source, target, destination), value),
                                    move_group: Some(index),
                                },
                                PlannedEditView { edit: EditView::Delete { target: source }, move_group: Some(index) },
                            ],
                        )
                    }

                },
            }
        },
        _ => Ok(seq![PlannedEditView { edit, move_group: None }]),
    }
}

pub open spec fn plan_from(
    database: SourceDatabaseView,
    edits: Seq<EditView>,
    from: int,
    done: Seq<PlannedEditView>,
) -> Result<
Seq<PlannedEditView>,
CodeErrorView,
>
    decreases edits.len() - from,
{
    if from < 0 || from >= edits.len() {
        Ok(done)
    } else {
        match planned(database, edits[from], from as usize) {
            Err(error) => Err(error),
            Ok(steps) => {
                plan_from(database, edits, from + 1, done + steps)

            },
        }
    }
}

pub open spec fn plan_outcome(result: Result<Vec<PlannedEdit>, CodeError>) -> Result<Seq<PlannedEditView>, CodeErrorView> {
    match result {
        Ok(plan) => Ok(view::planned_edits(plan@)),
        Err(error) => Err(view::code_error(error)),
    }
}

fn plan_edit(database: &SourceDatabase, edit: &Edit, index: usize, done: Vec<PlannedEdit>) -> (result: Result<
    Vec<PlannedEdit>,
    CodeError,
    >)
    ensures
        plan_outcome(result) == (match planned(view::source_database(*database), view::edit(*edit), index) {
                Ok(steps) => Ok(view::planned_edits(done@) + steps),
                Err(error) => Err(error),
        }),
{
    let ghost first = view::planned_edits(done@);
    let mut plan = done;
    match edit {
        Edit::Copy { source, target, destination } => {
            let value = match read_value(database, source) {
                Ok(value) => value,
                Err(error) => return Err(error),
            };
            let ghost before = plan@;
            plan.push(
                PlannedEdit {
                    edit: insertion_of(target, copy::segment(destination), value.0, value.1),
                    move_group: None,
                },
            );
            proof {
                view::lemma_planned_edits_push(before, plan@.last());
                assert(view::planned_edits(plan@) =~= first + seq![view::planned_edit(plan@.last())]);
            }
            Ok(plan)
        }
        Edit::Move { source, target, destination } => {
            let value = match read_value(database, source) {
                Ok(value) => value,
                Err(error) => return Err(error),
            };
            if one_document(source, target) && source.path.is_prefix_of(&target.path) {
                let message = owned("cannot move a node into itself or one of its descendants");
                return Err(
                    CodeError::new(CodeErrorKind::EditConflict, message).at_document(source.document.clone()).at_path(
                        copy::path(&source.path),
                    ),
                );
            }
            let place = adjusted_move_destination(source, target, destination);
            let ghost before = plan@;
            plan.push(PlannedEdit { edit: insertion_of(target, place, value.0, value.1), move_group: Some(index) });
            let ghost middle = plan@;
            plan.push(
                PlannedEdit { edit: Edit::Delete { target: copy::node_locator(source) }, move_group: Some(index) },
            );
            proof {
                view::lemma_planned_edits_push(before, middle.last());
                view::lemma_planned_edits_push(middle, plan@.last());
                assert(view::planned_edits(plan@) =~= first + seq![
                        view::planned_edit(middle.last()),
                        view::planned_edit(plan@.last()),
                ]);
            }
            Ok(plan)
        }
        _ => {
            let ghost before = plan@;
            plan.push(PlannedEdit { edit: copy::edit(edit), move_group: None });
            proof {
                view::lemma_planned_edits_push(before, plan@.last());
                assert(view::planned_edits(plan@) =~= first + seq![view::planned_edit(plan@.last())]);
            }
            Ok(plan)
        }
    }
}

fn materialize_edits(database: &SourceDatabase, edits: &Vec<Edit>) -> (result: Result<Vec<PlannedEdit>, CodeError>)
    ensures
        plan_outcome(result) == plan_from(view::source_database(*database), view::edits(edits@), 0, Seq::empty()),
{
    let ghost all = view::edits(edits@);
    let ghost base = view::source_database(*database);
    let mut plan: Vec<PlannedEdit> = Vec::new();
    assert(view::planned_edits(plan@) =~= Seq::<PlannedEditView>::empty());
    let mut i: usize = 0;
    while i < edits.len()
        invariant
            i <= edits.len(),
            all == view::edits(edits@),
            base == view::source_database(*database),
            plan_from(base, all, 0, Seq::empty()) == plan_from(base, all, i as int, view::planned_edits(plan@)),
        decreases edits.len() - i,
    {
        assert(all[i as int] == view::edit(edits@[i as int]));
        let more = match plan_edit(database, &edits[i], i, plan) {
            Ok(value) => value,
            Err(error) => return Err(error),
        };
        plan = more;
        i += 1;
    }
    Ok(plan)
}

// Overlaps.

/// How a list of texts looks in messages.
pub uninterp spec fn texts_in_messages(texts: Seq<Seq<char>>) -> Seq<char>;

/// The `Debug` form of a vector of strings.
#[verifier::external_body]
fn debug_texts(texts: &Vec<String>) -> (text: String)
    ensures
        text@ == texts_in_messages(crate::lowered::view::texts(texts@)),
{
    format!("{texts:?}")
}

pub open spec fn is_rename(edit: EditView) -> bool {
    edit is RenameMappingKey
}

/// Whether two planned edits stand in each other's way: the same document, one
/// path leading to the other, not parts of one move, and no renaming of a key.
pub open spec fn overlap(left: PlannedEditView, right: PlannedEditView) -> bool {
    let first = target_of(left.edit);
    let second = target_of(right.edit);
    &&& same_document(first, second)
    &&& crate::code::path::leads_to(first.path, second.path) || crate::code::path::leads_to(second.path, first.path)
    &&& !(left.move_group is Some && left.move_group == right.move_group)
    &&& !(is_rename(left.edit) || is_rename(right.edit))
}

fn overlaps(left: &PlannedEdit, right: &PlannedEdit) -> (result: bool)
    ensures
        result == overlap(view::planned_edit(*left), view::planned_edit(*right)),
{
    let first = left.edit.target();
    let second = right.edit.target();
    let one_move = match (left.move_group, right.move_group) {
        (Some(mine), Some(theirs)) => mine == theirs,
        _ => false,
    };
    let left_renames = match &left.edit {
        Edit::RenameMappingKey { .. } => true,
        _ => false,
    };
    let right_renames = match &right.edit {
        Edit::RenameMappingKey { .. } => true,
        _ => false,
    };
    one_document(first, second) && (first.path.is_prefix_of(&second.path) || second.path.is_prefix_of(&first.path))
    && !one_move && !(left_renames || right_renames)
}

pub open spec fn overlap_message(left: PathView, right: PathView) -> Seq<char> {
    "edits at "@ + texts_in_messages(crate::code::path::compact(left)) + " and "@ + texts_in_messages(
        crate::code::path::compact(right),
    ) + " overlap"@
}

/// The first pair of edits that stand in each other's way.
pub open spec fn overlap_error(plan: Seq<PlannedEditView>, first: int, second: int) -> Result<(), CodeErrorView>
    decreases plan.len() - first, plan.len() - second,
{
    if first < 0 || first >= plan.len() {
        Ok(())
    } else if second < 0 || second >= plan.len() {
        overlap_error(plan, first + 1, first + 2)
    } else if overlap(plan[first], plan[second]) {
        let left = target_of(plan[first].edit);
        let right = target_of(plan[second].edit);
        Err(
            crate::code::form::in_document(
                crate::code::form::failed(
                    CodeErrorKind::OverlappingEdits,
                    overlap_message(left.path, right.path),
                ),
                left.document,
            ),
        )
    } else {
        overlap_error(plan, first, second + 1)
    }
}

fn validate_non_overlapping(plan: &Vec<PlannedEdit>) -> (result: Result<(), CodeError>)
    ensures
        crate::code::form::unit_outcome(result) == overlap_error(view::planned_edits(plan@), 0, 1),
{
    let ghost all = view::planned_edits(plan@);
    assert(all.len() == plan@.len());
    let mut i: usize = 0;
    while i < plan.len()
        invariant
            i <= plan.len(),
            all == view::planned_edits(plan@),
            all.len() == plan@.len(),
            overlap_error(all, 0, 1) == overlap_error(all, i as int, i + 1),
        decreases plan.len() - i,
    {
        let mut j: usize = i + 1;
        while j < plan.len()
            invariant
                i < j <= plan.len(),
                all == view::planned_edits(plan@),
                all.len() == plan@.len(),
                overlap_error(all, 0, 1) == overlap_error(all, i as int, j as int),
            decreases plan.len() - j,
        {
            assert(all[i as int] == view::planned_edit(plan@[i as int]));
            assert(all[j as int] == view::planned_edit(plan@[j as int]));
            if overlaps(&plan[i], &plan[j]) {
                let left = plan[i].edit.target();
                let right = plan[j].edit.target();
                let mine = debug_texts(&left.path.to_compact_strings());
                let theirs = debug_texts(&right.path.to_compact_strings());
                let mut message = concat_three("edits at ", mine.as_str(), " and ");
                message.append(theirs.as_str());
                message.append(" overlap");
                return Err(
                    CodeError::new(CodeErrorKind::OverlappingEdits, message).at_document(left.document.clone()),
                );
            }
            j += 1;
        }
        i += 1;
    }
    Ok(())
}

// Applying.

/// The source after one text edit.
pub open spec fn edited(source: Seq<char>, edit: EditView) -> Result<Seq<char>, CodeErrorView> {
    match edit {
        EditView::Replace { target, value } => crate::code::text_edit::replaced(source, target.path, value),
        EditView::Delete { target } => crate::code::text_edit::deleted(source, target.path),
        EditView::UpsertMapping { target, key, value } => crate::code::text_edit::upserted(
            source,
            target.path,
            key,
            value,
        ),
        EditView::InsertMapping { target, key, value } => crate::code::text_edit::inserted(
            source,
            target.path,
            key,
            value,
        ),
        EditView::RenameMappingKey { target, new_key } => crate::code::text_edit::renamed(
            source,
            target.path,
            new_key,
        ),
        EditView::InsertSequence { target, index, value } => crate::code::text_edit::item_inserted(
            source,
            target.path,
            index,
            value,
        ),
        EditView::SpliceSequence { target, start, delete_count, values } => crate::code::text_edit::sequence_spliced(
            source,
            target.path,
            start,
            delete_count,
            values,
        ),
        EditView::InsertMappingSource { target, key, source: value, block_style } =>
        crate::code::text_edit::source_inserted(source, target.path, key, value, block_style),
        EditView::InsertSequenceSource { target, index, source: value, block_style } =>
        crate::code::text_edit::item_source_inserted(source, target.path, index, value, block_style),
        EditView::Copy { .. } | EditView::Move { .. } => Ok(source),
    }
}

fn apply_edit(source: &str, edit: &Edit) -> (result: Result<String, CodeError>)
    ensures
        crate::code::form::text_outcome(result) == edited(source@, view::edit(*edit)),
{
    match edit {
        Edit::Replace { target, value } => replace(source, &target.path, value),
        Edit::Delete { target } => delete(source, &target.path),
        Edit::UpsertMapping { target, key, value } => upsert_mapping(source, &target.path, key.as_str(), value),
        Edit::InsertMapping { target, key, value } => insert_mapping(source, &target.path, key.as_str(), value),
        Edit::RenameMappingKey { target, new_key } => rename_mapping_key(source, &target.path, new_key.as_str()),
        Edit::InsertSequence { target, index, value } => insert_sequence(source, &target.path, *index, value),
        Edit::SpliceSequence { target, start, delete_count, values } => splice_sequence(
            source,
            &target.path,
            *start,
            *delete_count,
            values,
        ),
        Edit::InsertMappingSource { target, key, source: value, block_style } => insert_mapping_source(
            source,
            &target.path,
            key.as_str(),
            value.as_str(),
            *block_style,
        ),
        Edit::InsertSequenceSource { target, index, source: value, block_style } => insert_sequence_source(
            source,
            &target.path,
            *index,
            value.as_str(),
            *block_style,
        ),
        Edit::Copy { .. } | Edit::Move { .. } => Ok(owned(source)),
    }
}

/// An edit put among others so that later places come first; among equal places
/// the order stays.
pub open spec fn by_place(source: Seq<char>, sorted: Seq<EditView>, from: int, edit: EditView) -> Seq<EditView>
    decreases sorted.len() - from,
{
    if from < 0 || from >= sorted.len() {
        sorted.push(edit)
    } else if crate::code::text_edit::offset_of(source, target_of(sorted[from]).path)
    < crate::code::text_edit::offset_of(source, target_of(edit).path) {
        sorted.insert(from, edit)
    } else {
        by_place(source, sorted, from + 1, edit)
    }
}

/// The edits of one document, the last places first.
pub open spec fn edits_of(
    source: Seq<char>,
    plan: Seq<PlannedEditView>,
    document: Seq<char>,
    from: int,
    sorted: Seq<EditView>,
) -> Seq<EditView>
    decreases plan.len() - from,
{
    if from < 0 || from >= plan.len() {
        sorted
    } else if crate::code::workspace_path::normal_path(target_of(plan[from].edit).document) == document {
        edits_of(source, plan, document, from + 1, by_place(source, sorted, 0, plan[from].edit))
    } else {
        edits_of(source, plan, document, from + 1, sorted)
    }
}

fn put_by_place(source: &str, sorted: &mut Vec<Edit>, edit: Edit)
    ensures
        view::edits(final(sorted)@) == by_place(source@, view::edits(old(sorted)@), 0, view::edit(edit)),
{
    let ghost before = sorted@;
    let ghost all = view::edits(before);
    let ghost added = view::edit(edit);
    let place: usize = edit_offset(source, &edit.target().path);
    let mut i: usize = 0;
    while i < sorted.len()
        invariant
            i <= sorted.len(),
            sorted@ == before,
            before == old(sorted)@,
            all == view::edits(before),
            added == view::edit(edit),
            place == crate::code::text_edit::offset_of(source@, target_of(added).path),
            by_place(source@, all, 0, added) == by_place(source@, all, i as int, added),
        decreases sorted.len() - i,
    {
        assert(all[i as int] == view::edit(sorted@[i as int]));
        if edit_offset(source, &sorted[i].target().path) < place {
            sorted.insert(i, edit);
            assert(view::edits(sorted@) =~= all.insert(i as int, added));
            return;
        }
        i += 1;
    }
    sorted.push(edit);
    proof {
        view::lemma_edits_push(before, edit);
    }
}

fn select_edits(source: &str, plan: &Vec<PlannedEdit>, document: &str) -> (edits: Vec<Edit>)
    ensures
        view::edits(edits@) == edits_of(source@, view::planned_edits(plan@), document@, 0, Seq::empty()),
{
    let ghost all = view::planned_edits(plan@);
    let mut sorted: Vec<Edit> = Vec::new();
    assert(view::edits(sorted@) =~= Seq::<EditView>::empty());
    let mut i: usize = 0;
    while i < plan.len()
        invariant
            i <= plan.len(),
            all == view::planned_edits(plan@),
            edits_of(source@, all, document@, 0, Seq::empty()) == edits_of(
                source@,
                all,
                document@,
                i as int,
                view::edits(sorted@),
            ),
        decreases plan.len() - i,
    {
        assert(all[i as int] == view::planned_edit(plan@[i as int]));
        let path = normalize_path(plan[i].edit.target().document.as_str());
        if same_text(path.as_str(), document) {
            put_by_place(source, &mut sorted, copy::edit(&plan[i].edit));
        }
        i += 1;
    }
    sorted
}

pub open spec fn edited_by(source: Seq<char>, edits: Seq<EditView>, from: int) -> Result<Seq<char>, CodeErrorView>
    decreases edits.len() - from,
{
    if from < 0 || from >= edits.len() {
        Ok(source)
    } else {
        match edited(source, edits[from]) {
            Err(error) => Err(error),
            Ok(text) => {
                edited_by(text, edits, from + 1)

            },
        }
    }
}

fn apply_edits(source: &str, edits: &Vec<Edit>) -> (result: Result<String, CodeError>)
    ensures
        crate::code::form::text_outcome(result) == edited_by(source@, view::edits(edits@), 0),
{
    let ghost all = view::edits(edits@);
    let mut text = owned(source);
    let mut i: usize = 0;
    while i < edits.len()
        invariant
            i <= edits.len(),
            all == view::edits(edits@),
            edited_by(source@, all, 0) == edited_by(text@, all, i as int),
        decreases edits.len() - i,
    {
        assert(all[i as int] == view::edit(edits@[i as int]));
        let next = match apply_edit(text.as_str(), &edits[i]) {
            Ok(value) => value,
            Err(error) => return Err(error),
        };
        text = next;
        i += 1;
    }
    Ok(text)
}

/// The documents that a plan changes, in the order of their paths.
pub open spec fn changed_documents(plan: Seq<PlannedEditView>, from: int, done: Seq<Seq<char>>) -> Seq<Seq<char>>
    decreases plan.len() - from,
{
    if from < 0 || from >= plan.len() {
        done
    } else {
        changed_documents(
            plan,
            from + 1,
            crate::code::workspace_path::with_path(
                done,
                0,
                crate::code::workspace_path::normal_path(target_of(plan[from].edit).document),
            ),
        )
    }
}

fn find_changed(plan: &Vec<PlannedEdit>) -> (paths: Vec<String>)
    ensures
        crate::lowered::view::texts(paths@) == changed_documents(view::planned_edits(plan@), 0, Seq::empty()),
{
    let ghost all = view::planned_edits(plan@);
    let mut done: Vec<String> = Vec::new();
    assert(crate::lowered::view::texts(done@) =~= Seq::<Seq<char>>::empty());
    let mut i: usize = 0;
    while i < plan.len()
        invariant
            i <= plan.len(),
            all == view::planned_edits(plan@),
            changed_documents(all, 0, Seq::empty()) == changed_documents(
                all,
                i as int,
                crate::lowered::view::texts(done@),
            ),
        decreases plan.len() - i,
    {
        assert(all[i as int] == view::planned_edit(plan@[i as int]));
        let path = normalize_path(plan[i].edit.target().document.as_str());
        add_path(&mut done, path.as_str());
        i += 1;
    }
    done
}

/// The database with the edits of one document applied.
pub open spec fn document_edited(database: SourceDatabaseView, plan: Seq<PlannedEditView>, path: Seq<char>) -> Result<
SourceDatabaseView,
CodeErrorView,
> {
    match crate::code::source::document_in(database, path) {
        Err(error) => Err(error),
        Ok(document) => {
            match edited_by(document.source, edits_of(document.source, plan, path, 0, Seq::empty()), 0) {
                Err(error) => Err(error),
                Ok(text) => {
                    crate::code::source::replaced(database, path, text)

                },
            }

        },
    }
}

pub open spec fn documents_edited(
    database: SourceDatabaseView,
    plan: Seq<PlannedEditView>,
    paths: Seq<Seq<char>>,
    from: int,
) -> Result<SourceDatabaseView, CodeErrorView>
    decreases paths.len() - from,
{
    if from < 0 || from >= paths.len() {
        Ok(database)
    } else {
        match document_edited(database, plan, paths[from]) {
            Err(error) => Err(error),
            Ok(next) => {
                documents_edited(next, plan, paths, from + 1)

            },
        }
    }
}

/// The database after a change set, and the documents that it changed.
pub open spec fn applied(database: SourceDatabaseView, edits: Seq<EditView>) -> Result<
(SourceDatabaseView, Seq<Seq<char>>),
CodeErrorView,
> {
    match precondition_error(database, edits, 0) {
        Err(error) => Err(error),
        Ok(checked) => {
            match plan_from(database, edits, 0, Seq::empty()) {
                Err(error) => Err(error),
                Ok(plan) => {
                    match overlap_error(plan, 0, 1) {
                        Err(error) => Err(error),
                        Ok(apart) => {
                            let paths = changed_documents(plan, 0, Seq::empty());
                            match documents_edited(database, plan, paths, 0) {
                                Err(error) => Err(error),
                                Ok(after) => {
                                    Ok((after, paths))

                                },
                            }

                        },
                    }

                },
            }

        },
    }
}

impl SourceDatabase {
    /// Applies a change set: all of it, or nothing where it is refused.
    pub fn apply(&self, changes: &ChangeSet) -> (result: Result<AppliedChangeSet, CodeError>)
        ensures
            applied(view::source_database(*self), view::edits(changes.edits@)) == (match result {
                    Ok(applied) => Ok(
                        (
                            view::source_database(applied.database),
                            crate::lowered::view::texts(applied.changed_files@),
                        ),
                    ),
                    Err(error) => Err(view::code_error(error)),
            }),
    {
        match validate_preconditions(self, &changes.edits) {
            Ok(_) => {}
            Err(error) => return Err(error),
        }
        let plan = match materialize_edits(self, &changes.edits) {
            Ok(value) => value,
            Err(error) => return Err(error),
        };
        match validate_non_overlapping(&plan) {
            Ok(_) => {}
            Err(error) => return Err(error),
        }
        let paths = find_changed(&plan);
        let mut database = self.copied();
        let ghost base = view::source_database(*self);
        let ghost steps = view::planned_edits(plan@);
        let ghost all = crate::lowered::view::texts(paths@);
        let mut i: usize = 0;
        while i < paths.len()
            invariant
                i <= paths.len(),
                all == crate::lowered::view::texts(paths@),
                steps == view::planned_edits(plan@),
                base == view::source_database(*self),
                precondition_error(base, view::edits(changes.edits@), 0) is Ok,
                plan_from(base, view::edits(changes.edits@), 0, Seq::empty()) == Ok::<
                Seq<PlannedEditView>,
                CodeErrorView,
                >(steps),
                overlap_error(steps, 0, 1) is Ok,
                all == changed_documents(steps, 0, Seq::empty()),
                documents_edited(base, steps, all, 0) == documents_edited(
                    view::source_database(database),
                    steps,
                    all,
                    i as int,
                ),
            decreases paths.len() - i,
        {
            assert(all[i as int] == paths@[i as int]@);
            let document = match database.document(paths[i].as_str()) {
                Ok(value) => value,
                Err(error) => return Err(error),
            };
            let edits = select_edits(document.source.as_str(), &plan, paths[i].as_str());
            let text = match apply_edits(document.source.as_str(), &edits) {
                Ok(value) => value,
                Err(error) => return Err(error),
            };
            match database.replace_source(paths[i].as_str(), text.as_str()) {
                Ok(_) => {}
                Err(error) => return Err(error),
            }
            i += 1;
        }
        Ok(AppliedChangeSet { database, changed_files: paths })
    }
}

// Laws.

/// An empty change set changes nothing.
pub proof fn law_empty_change_set_changes_nothing(database: SourceDatabaseView)
    ensures
        applied(database, Seq::empty()) == Ok::<(SourceDatabaseView, Seq<Seq<char>>), CodeErrorView>(
            (database, Seq::empty()),
        ),
{
    let plan = Seq::<PlannedEditView>::empty();
    assert(plan_from(database, Seq::empty(), 0, Seq::empty()) == Ok::<Seq<PlannedEditView>, CodeErrorView>(plan));
    assert(changed_documents(plan, 0, Seq::empty()) == Seq::<Seq<char>>::empty());
}

/// A change set with an edit of a node whose document changed since it was
/// looked up is refused.
pub proof fn law_stale_edits_are_refused(database: SourceDatabaseView, edits: Seq<EditView>, index: int)
    requires
        0 <= index < edits.len(),
        crate::code::source::document_in(database, target_of(edits[index]).document) is Ok,
        crate::code::source::document_in(database, target_of(edits[index]).document)->Ok_0.revision != target_of(
            edits[index],
        ).revision,
    ensures
        applied(database, edits) is Err,
{
    lemma_first_stale(database, edits, 0, index);
}

proof fn lemma_first_stale(database: SourceDatabaseView, edits: Seq<EditView>, from: int, index: int)
    requires
        0 <= from <= index < edits.len(),
        edit_error(database, edits[index]) is Err,
    ensures
        precondition_error(database, edits, from) is Err,
    decreases index - from,
{
    if from < index {
        lemma_first_stale(database, edits, from + 1, index);
    }
}

/// A plan with two edits that stand in each other's way is refused.
pub proof fn law_overlapping_edits_are_refused(plan: Seq<PlannedEditView>, first: int, second: int)
    requires
        0 <= first < second < plan.len(),
        overlap(plan[first], plan[second]),
    ensures
        overlap_error(plan, 0, 1) is Err,
{
    lemma_overlap_found(plan, 0, 1, first, second);
}

proof fn lemma_overlap_found(plan: Seq<PlannedEditView>, i: int, j: int, first: int, second: int)
    requires
        0 <= i <= first < second < plan.len(),
        i < j,
        i == first ==> j <= second,
        overlap(plan[first], plan[second]),
    ensures
        overlap_error(plan, i, j) is Err,
    decreases plan.len() - i, plan.len() - j,
{
    if j >= plan.len() {
        lemma_overlap_found(plan, i + 1, i + 2, first, second);
    } else if !overlap(plan[i], plan[j]) {
        lemma_overlap_found(plan, i, j + 1, first, second);
    }
}

/// Whether a text is another one with something put in at one place.
pub open spec fn grown_at(source: Seq<char>, place: int, added: Seq<char>, text: Seq<char>) -> bool {
    0 <= place <= source.len() && text == source.take(place) + added + source.skip(place)
}

/// Whether a text is another one without the characters of one range.
pub open spec fn shrunk_at(source: Seq<char>, from: int, to: int, text: Seq<char>) -> bool {
    0 <= from <= to <= source.len() && text == source.take(from) + source.skip(to)
}

/// Taking a key in keeps every character of the source in its order: the new
/// entry stands between two parts of it.
pub proof fn law_insertion_keeps_the_source(
    source: Seq<char>,
    path: PathView,
    key: Seq<char>,
    value: crate::code::view::FormView,
)
    requires
        crate::code::text_edit::inserted(source, path, key, value) is Ok,
    ensures
        exists|place: int, added: Seq<char>|
        grown_at(source, place, added, crate::code::text_edit::inserted(source, path, key, value)->Ok_0),
{
    let mapping = crate::code::text_edit::edited_node(source, path)->Ok_0;
    let count = mapping[Seq::empty()].shape->Mapping_0 as int;
    let location = crate::code::text_edit::entry_location(source, mapping, count)->Ok_0;
    let entry = crate::code::form::rendered_form(
        crate::code::view::FormView::Mapping(seq![crate::code::view::EntryView { key, value }]),
    )->Ok_0;
    let added = crate::code::lines::indented(entry, location.1);
    if count > 0 {
        let last = crate::code::tree::child_tree(
            mapping,
            crate::code::tree::TreeStep::EntryKey((count - 1) as usize),
        )->Some_0;
        let range = crate::code::text_edit::range_of(source, last)->Ok_0;
        crate::code::lines::lemma_owned_block(source, range.0);
    } else {
        crate::code::lines::lemma_place(source, 0, mapping[Seq::empty()].start as int);
    }
    assert(grown_at(source, location.0, added, crate::code::text_edit::inserted(source, path, key, value)->Ok_0));
}

/// Deleting takes one range of lines out and keeps the rest of the source.
pub proof fn law_deletion_keeps_the_rest(source: Seq<char>, path: PathView)
    requires
        crate::code::text_edit::deleted(source, path) is Ok,
    ensures
        exists|from: int, to: int|
        shrunk_at(source, from, to, crate::code::text_edit::deleted(source, path)->Ok_0),
{
    let parent = crate::code::text_edit::container_of(source, path)->Ok_0;
    let node = match path.segments.last() {
        SegmentView::Key(key) => crate::code::tree::matching_key_tree(parent, key)->Some_0,
        SegmentView::Index(index) => crate::code::tree::child_tree(
            parent,
            crate::code::tree::TreeStep::Index(index),
        )->Some_0,
    };
    let range = crate::code::text_edit::range_of(source, node)->Ok_0;
    let block = crate::code::lines::owned_block(source, range.0);
    crate::code::lines::lemma_owned_block(source, range.0);
    let text = crate::code::text_edit::deleted(source, path)->Ok_0;
    assert(text == crate::code::lines::spliced(source, block.0, block.1, Seq::empty()));
    assert(text =~= source.take(block.0) + source.skip(block.1));
    assert(shrunk_at(source, block.0, block.1, text));
}

} // verus!
