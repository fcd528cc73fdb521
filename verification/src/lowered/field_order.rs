//! The order of a record's fields: by name, however they are written.
use vstd::prelude::*;
use crate::lowered::ir::FieldExpr;
use crate::lowered::view::{self, FieldExprView};
use crate::text::text_precedes;

verus! {

/// Positions of fields by name, with one more in its place.
pub open spec fn with_position(fields: Seq<FieldExprView>, order: Seq<int>, from: int, index: int) -> Seq<int>
    decreases order.len() - from,
{
    if from < 0 || from >= order.len() {
        order.push(index)
    } else if crate::text::precedes(fields[index].name, fields[order[from]].name) {
        order.insert(from, index)
    } else {
        with_position(fields, order, from + 1, index)
    }
}

/// The positions of the first fields in the order of their names.
pub open spec fn name_order(fields: Seq<FieldExprView>, count: int) -> Seq<int>
    decreases count,
{
    if count <= 0 {
        Seq::empty()
    } else {
        with_position(fields, name_order(fields, count - 1), 0, count - 1)
    }
}

pub open spec fn positions(order: Seq<usize>) -> Seq<int> {
    order.map_values(|index: usize| index as int)
}

/// Finds the positions of fields in the order of their names.
pub(crate) fn find_name_order(fields: &Vec<FieldExpr>) -> (order: Vec<usize>)
    ensures
        positions(order@) == name_order(view::field_exprs(fields@), fields@.len() as int),
        order@.len() == fields@.len(),
        forall|i: int| 0 <= i < order@.len() ==> (#[trigger] order@[i]) < fields@.len(),
{
    let ghost all = view::field_exprs(fields@);
    let mut order: Vec<usize> = Vec::new();
    assert(positions(order@) =~= name_order(all, 0));
    let mut i: usize = 0;
    while i < fields.len()
        invariant
            i <= fields.len(),
            all == view::field_exprs(fields@),
            all.len() == fields@.len(),
            positions(order@) == name_order(all, i as int),
            order@.len() == i,
            forall|k: int| 0 <= k < order@.len() ==> (#[trigger] order@[k]) < i,
        decreases fields.len() - i,
    {
        let ghost before = positions(order@);
        let ghost start = order@;
        assert(all[i as int] == view::field_expr(fields@[i as int]));
        let mut k: usize = 0;
        while k < order.len() && !text_precedes(fields[i].name.as_str(), fields[order[k]].name.as_str())
            invariant
                k <= order.len() == i,
                i < fields.len(),
                order@ == start,
                before == positions(start),
                all == view::field_exprs(fields@),
                all[i as int] == view::field_expr(fields@[i as int]),
                forall|j: int| 0 <= j < order@.len() ==> (#[trigger] order@[j]) < i,
                with_position(all, before, 0, i as int) == with_position(all, before, k as int, i as int),
            decreases order.len() - k,
        {
            assert(before[k as int] == order@[k as int] as int);
            assert(all[order@[k as int] as int] == view::field_expr(fields@[order@[k as int] as int]));
            k += 1;
        }
        if k < order.len() {
            assert(before[k as int] == order@[k as int] as int);
            assert(all[order@[k as int] as int] == view::field_expr(fields@[order@[k as int] as int]));
            order.insert(k, i);
            assert(positions(order@) =~= before.insert(k as int, i as int));
        } else {
            order.push(i);
            assert(positions(order@) =~= before.push(i as int));
        }
        i += 1;
    }
    order
}

pub open spec fn is_in_name_order(fields: Seq<FieldExprView>, order: Seq<int>) -> bool {
    &&& forall|i: int| 0 <= i < order.len() ==> 0 <= #[trigger] order[i] < fields.len()
    &&& forall|i: int, j: int|
        0 <= i < j < order.len() ==> !crate::text::precedes(
            fields[#[trigger] order[j]].name,
            fields[#[trigger] order[i]].name,
        )
}

proof fn lemma_with_position(fields: Seq<FieldExprView>, order: Seq<int>, from: int, index: int)
    requires
        is_in_name_order(fields, order),
        0 <= index < fields.len(),
        0 <= from <= order.len(),
        forall|i: int|
            0 <= i < from ==> !crate::text::precedes(fields[index].name, fields[#[trigger] order[i]].name),
    ensures
        is_in_name_order(fields, with_position(fields, order, from, index)),
        with_position(fields, order, from, index).len() == order.len() + 1,
        with_position(fields, order, from, index).contains(index),
        forall|k: int| order.contains(k) ==> #[trigger] with_position(fields, order, from, index).contains(k),
    decreases order.len() - from,
{
    let after = with_position(fields, order, from, index);
    if from < order.len() && !crate::text::precedes(fields[index].name, fields[order[from]].name) {
        lemma_with_position(fields, order, from + 1, index);
    } else if from < order.len() {
        assert(after[from] == index);
        assert forall|k: int| order.contains(k) implies #[trigger] after.contains(k) by {
            let i = choose|i: int| 0 <= i < order.len() && order[i] == k;
            assert(after[if i < from { i } else { i + 1 }] == k);
        }
        assert forall|i: int, j: int| 0 <= i < j < after.len() implies !crate::text::precedes(
            fields[#[trigger] after[j]].name,
            fields[#[trigger] after[i]].name,
        ) by {
            if i == from {
                let later = fields[order[j - 1]].name;
                if crate::text::precedes(later, fields[index].name) {
                    crate::text::lemma_precedes_transitive(later, fields[index].name, fields[order[from]].name, 0);
                    if j - 1 == from {
                        crate::text::lemma_precedes_irreflexive(later, 0);
                    }
                }
            }
        }
    } else {
        assert(after[order.len() as int] == index);
        assert forall|k: int| order.contains(k) implies #[trigger] after.contains(k) by {
            let i = choose|i: int| 0 <= i < order.len() && order[i] == k;
            assert(after[i] == k);
        }
    }
}

/// The fields of a record are read in the order of their names, each of them once,
/// however they are written.
pub proof fn law_fields_are_read_by_name(fields: Seq<FieldExprView>, count: int)
    requires
        0 <= count <= fields.len(),
    ensures
        is_in_name_order(fields, name_order(fields, count)),
        name_order(fields, count).len() == count,
        forall|k: int| 0 <= k < count ==> #[trigger] name_order(fields, count).contains(k),
    decreases count,
{
    if count > 0 {
        law_fields_are_read_by_name(fields, count - 1);
        lemma_with_position(fields, name_order(fields, count - 1), 0, count - 1);
        assert forall|k: int| 0 <= k < count implies #[trigger] name_order(fields, count).contains(k) by {
            if k < count - 1 {
                assert(name_order(fields, count - 1).contains(k));
            }
        }
    }
}

} // verus!
