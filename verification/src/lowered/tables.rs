//! Function tables: each key once, in key order.
use vstd::prelude::*;
use crate::lowered::ir::FunctionEntry;
use crate::text::{same_text, text_precedes};

verus! {

/// Every key names one function, and the keys ascend.
pub open spec fn keys_ascending(entries: Seq<FunctionEntry>) -> bool {
    forall|i: int, j: int|
        0 <= i < j < entries.len() ==> crate::text::precedes(
            (#[trigger] entries[i]).key@,
            (#[trigger] entries[j]).key@,
        )
}

/// Every key names one function.
pub open spec fn keys_distinct(entries: Seq<FunctionEntry>) -> bool {
    forall|i: int, j: int| 0 <= i < j < entries.len() ==> (#[trigger] entries[i]).key@ != (#[trigger] entries[j]).key@
}

pub proof fn lemma_ascending_distinct(entries: Seq<FunctionEntry>)
    requires
        keys_ascending(entries),
    ensures
        keys_distinct(entries),
{
    assert forall|i: int, j: int| 0 <= i < j < entries.len() implies (#[trigger] entries[i]).key@ != (
    #[trigger] entries[j]).key@ by {
        crate::text::lemma_precedes_irreflexive(entries[i].key@, 0);
    }
}

/// A table with an entry in its place, or instead of the one with its key.
pub open spec fn with_function(entries: Seq<FunctionEntry>, from: int, entry: FunctionEntry) -> Seq<FunctionEntry>
    decreases entries.len() - from,
{
    if from < 0 || from >= entries.len() {
        entries.push(entry)
    } else if entries[from].key@ == entry.key@ {
        entries.update(from, entry)
    } else if crate::text::precedes(entries[from].key@, entry.key@) {
        with_function(entries, from + 1, entry)
    } else {
        entries.insert(from, entry)
    }
}

proof fn lemma_with_function(entries: Seq<FunctionEntry>, from: int, entry: FunctionEntry)
    requires
        0 <= from <= entries.len(),
        keys_ascending(entries),
        forall|i: int| 0 <= i < from ==> crate::text::precedes((#[trigger] entries[i]).key@, entry.key@),
    ensures
        keys_ascending(with_function(entries, from, entry)),
    decreases entries.len() - from,
{
    if from < entries.len() && entries[from].key@ != entry.key@ {
        if crate::text::precedes(entries[from].key@, entry.key@) {
            lemma_with_function(entries, from + 1, entry);
        } else {
            assert(entries[from].key@.take(0) =~= entry.key@.take(0));
            crate::text::lemma_precedes_total(entries[from].key@, entry.key@, 0);
            let after = entries.insert(from, entry);
            assert forall|i: int, j: int| 0 <= i < j < after.len() implies crate::text::precedes(
                (#[trigger] after[i]).key@,
                (#[trigger] after[j]).key@,
            ) by {
                if i == from && j > from + 1 {
                    crate::text::lemma_precedes_transitive(entry.key@, entries[from].key@, entries[j - 1].key@, 0);
                }
            }
        }
    }
}

/// Puts a function into a table.
pub fn put_function(entries: &mut Vec<FunctionEntry>, entry: FunctionEntry)
    requires
        keys_ascending(old(entries)@),
    ensures
        final(entries)@ == with_function(old(entries)@, 0, entry),
        keys_ascending(final(entries)@),
{
    let ghost before = entries@;
    proof {
        lemma_with_function(before, 0, entry);
    }
    let mut i: usize = 0;
    while i < entries.len()
        invariant
            i <= entries.len(),
            entries@ == before,
            before == old(entries)@,
            keys_ascending(with_function(before, 0, entry)),
            with_function(before, 0, entry) == with_function(before, i as int, entry),
        decreases entries.len() - i,
    {
        if same_text(entries[i].key.as_str(), entry.key.as_str()) {
            entries.set(i, entry);
            return;
        }
        if !text_precedes(entries[i].key.as_str(), entry.key.as_str()) {
            entries.insert(i, entry);
            return;
        }
        i += 1;
    }
    entries.push(entry);
}

} // verus!
