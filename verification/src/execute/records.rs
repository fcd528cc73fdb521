//! Records: each name once, in order.
use vstd::prelude::*;
use crate::execute::semantics;
use crate::execute::session::{RunView, SessionView};
use crate::lowered::ir::FieldValue;
use crate::lowered::view::{self, FieldExprView, FieldValueView};
use crate::text::{same_text, text_precedes};

verus! {

/// Whether the fields of a record have each name once, in order.
pub open spec fn names_ascend(fields: Seq<FieldValueView>) -> bool {
    forall|i: int, j: int|
        0 <= i < j < fields.len() ==> crate::text::precedes((#[trigger] fields[i]).name, (#[trigger] fields[j]).name)
}

/// A record with a field in its place, or instead of the one with its name.
pub open spec fn with_named(fields: Seq<FieldValueView>, from: int, field: FieldValueView) -> Seq<FieldValueView>
    decreases fields.len() - from,
{
    if from < 0 || from >= fields.len() {
        fields.push(field)
    } else if fields[from].name == field.name {
        fields.update(from, field)
    } else if crate::text::precedes(fields[from].name, field.name) {
        with_named(fields, from + 1, field)
    } else {
        fields.insert(from, field)
    }
}

/// Puts a field into a record.
pub(crate) fn put_named(fields: &mut Vec<FieldValue>, field: FieldValue)
    ensures
        view::field_values(final(fields)@) == with_named(
            view::field_values(old(fields)@),
            0,
            view::field_value(field),
        ),
{
    let ghost before = fields@;
    let ghost all = view::field_values(before);
    let ghost added = view::field_value(field);
    let mut i: usize = 0;
    while i < fields.len()
        invariant
            i <= fields.len(),
            fields@ == before,
            before == old(fields)@,
            all == view::field_values(before),
            added == view::field_value(field),
            with_named(all, 0, added) == with_named(all, i as int, added),
        decreases fields.len() - i,
    {
        assert(all[i as int] == view::field_value(fields@[i as int]));
        if same_text(fields[i].name.as_str(), field.name.as_str()) {
            fields.set(i, field);
            assert(view::field_values(fields@) =~= all.update(i as int, added));
            return;
        }
        if !text_precedes(fields[i].name.as_str(), field.name.as_str()) {
            fields.insert(i, field);
            assert(view::field_values(fields@) =~= all.insert(i as int, added));
            return;
        }
        i += 1;
    }
    fields.push(field);
    proof {
        view::lemma_field_values_push(before, field);
    }
}

proof fn lemma_with_named(fields: Seq<FieldValueView>, from: int, field: FieldValueView)
    requires
        0 <= from <= fields.len(),
        names_ascend(fields),
        forall|i: int| 0 <= i < from ==> crate::text::precedes((#[trigger] fields[i]).name, field.name),
    ensures
        names_ascend(with_named(fields, from, field)),
    decreases fields.len() - from,
{
    if from < fields.len() && fields[from].name != field.name {
        if crate::text::precedes(fields[from].name, field.name) {
            lemma_with_named(fields, from + 1, field);
        } else {
            assert(fields[from].name.take(0) =~= field.name.take(0));
            crate::text::lemma_precedes_total(fields[from].name, field.name, 0);
            let after = fields.insert(from, field);
            assert forall|i: int, j: int| 0 <= i < j < after.len() implies crate::text::precedes(
                (#[trigger] after[i]).name,
                (#[trigger] after[j]).name,
            ) by {
                if i == from && j > from + 1 {
                    crate::text::lemma_precedes_transitive(field.name, fields[from].name, fields[j - 1].name, 0);
                }
            }
        }
    }
}

/// A record that is evaluated has each name once, in order, however its fields are
/// written.
pub proof fn law_evaluated_records_are_in_order(
    fields: Seq<FieldExprView>,
    order: Seq<int>,
    from: int,
    done: Seq<FieldValueView>,
    env: semantics::Env,
    run: RunView,
    session: SessionView,
    budget: nat,
)
    requires
        names_ascend(done),
    ensures
        match semantics::evaluated_fields(fields, order, from, done, env, run, session, budget) {
            Ok((record, _)) => names_ascend(record),
            Err(_) => true,
        },
    decreases order.len() - from,
{
    if 0 <= from < order.len() && 0 <= order[from] < fields.len() {
        match semantics::evaluated(fields[order[from]].value, env, run, session, budget) {
            Ok((value, next)) => {
                let field = FieldValueView { name: fields[order[from]].name, value };
                lemma_with_named(done, 0, field);
                law_evaluated_records_are_in_order(
                    fields,
                    order,
                    from + 1,
                    with_named(done, 0, field),
                    env,
                    run,
                    next,
                    budget,
                );
            }
            Err(_) => {}
        }
    }
}

} // verus!
