//! What values read as through the places of a store.
use vstd::prelude::*;
use crate::execute::values::read_place;
use crate::lowered::view::ValueView;

verus! {

/// A value that is read through some places is read the same through more.
proof fn lemma_more_places(value: ValueView, cells: Seq<ValueView>, depth: nat, more: nat)
    requires
        depth <= more,
        read_place(value, cells, depth) is Some,
    ensures
        read_place(value, cells, more) == read_place(value, cells, depth),
    decreases depth,
{
    match value {
        ValueView::Mutable(cell) | ValueView::Reference { cell, .. } => {
            lemma_more_places(cells[cell as int], cells, (depth - 1) as nat, (more - 1) as nat);
        }
        _ => {}
    }
}

/// Whether a value is read through exactly so many places.
pub open spec fn is_deep(value: ValueView, cells: Seq<ValueView>, depth: nat) -> bool {
    read_place(value, cells, depth) is Some && (depth > 0 ==> read_place(value, cells, (depth - 1) as nat) is None)
}

proof fn lemma_depth(value: ValueView, cells: Seq<ValueView>, depth: nat) -> (least: nat)
    requires
        read_place(value, cells, depth) is Some,
    ensures
        least <= depth,
        is_deep(value, cells, least),
    decreases depth,
{
    if depth > 0 && read_place(value, cells, (depth - 1) as nat) is Some {
        lemma_depth(value, cells, (depth - 1) as nat)
    } else {
        depth
    }
}

/// The places whose contents are read through at most so many places.
pub open spec fn shallow(cells: Seq<ValueView>, depth: nat) -> Set<int> {
    Set::new(|cell: int| 0 <= cell < cells.len() && read_place(cells[cell], cells, depth) is Some)
}

proof fn lemma_shallow(cells: Seq<ValueView>, depth: nat)
    ensures
        shallow(cells, depth).finite(),
        shallow(cells, depth).len() <= cells.len(),
{
    vstd::set_lib::lemma_int_range(0, cells.len() as int);
    vstd::set_lib::lemma_len_subset(shallow(cells, depth), vstd::set_lib::set_int_range(0, cells.len() as int));
}

/// A value that is read through so many places leads through as many different
/// ones.
proof fn lemma_different_places(value: ValueView, cells: Seq<ValueView>, depth: nat)
    requires
        depth > 0,
        is_deep(value, cells, depth),
    ensures
        shallow(cells, (depth - 1) as nat).len() >= depth,
    decreases depth,
{
    let cell = match value {
        ValueView::Mutable(cell) | ValueView::Reference { cell, .. } => cell as int,
        _ => 0,
    };
    let inner = (depth - 1) as nat;
    lemma_shallow(cells, inner);
    assert(shallow(cells, inner).contains(cell));
    if depth == 1 {
        vstd::set_lib::lemma_len_subset(set![cell], shallow(cells, inner));
        assert(Set::<int>::empty().insert(cell).len() == 1);
    } else {
        let below = shallow(cells, (depth - 2) as nat);
        lemma_shallow(cells, (depth - 2) as nat);
        assert(is_deep(cells[cell], cells, inner));
        lemma_different_places(cells[cell], cells, inner);
        assert(!below.contains(cell));
        assert(below.insert(cell).subset_of(shallow(cells, inner))) by {
            assert forall|other: int| below.contains(other) implies shallow(cells, inner).contains(other) by {
                lemma_more_places(cells[other], cells, (depth - 2) as nat, inner);
            }
        }
        vstd::set_lib::lemma_len_subset(below.insert(cell), shallow(cells, inner));
    }
}

/// Reading a value finds the end of every chain of places that has one, however
/// long it is.
pub proof fn law_every_chain_is_followed(value: ValueView, cells: Seq<ValueView>, depth: nat)
    requires
        read_place(value, cells, depth) is Some,
    ensures
        read_place(value, cells, cells.len()) == read_place(value, cells, depth),
{
    let least = lemma_depth(value, cells, depth);
    if least > 0 {
        lemma_different_places(value, cells, least);
        lemma_shallow(cells, (least - 1) as nat);
    }
    lemma_more_places(value, cells, least, cells.len());
    lemma_more_places(value, cells, least, depth);
}

/// What a value reads as is no place and reads as itself.
pub proof fn law_reading_twice_is_reading_once(value: ValueView, cells: Seq<ValueView>, depth: nat, again: nat)
    requires
        read_place(value, cells, depth) is Some,
    ensures
        !(read_place(value, cells, depth)->Some_0 is Mutable),
        !(read_place(value, cells, depth)->Some_0 is Reference),
        read_place(read_place(value, cells, depth)->Some_0, cells, again) == read_place(value, cells, depth),
    decreases depth,
{
    match value {
        ValueView::Mutable(cell) | ValueView::Reference { cell, .. } => {
            law_reading_twice_is_reading_once(cells[cell as int], cells, (depth - 1) as nat, again);
        }
        _ => {}
    }
}

} // verus!
