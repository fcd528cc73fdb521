//! Variables bound to runtime values.
use vstd::prelude::*;
use crate::lowered::copy;
use crate::lowered::ir::RuntimeValue;
use crate::lowered::view::{self, ValueView};
use crate::names::NameMap;

verus! {

/// The variables in scope.
pub type Bindings = NameMap<RuntimeValue>;

/// What the variables hold.
pub open spec fn bound(bindings: Bindings) -> Map<Seq<char>, ValueView> {
    bindings@.map_values(|value: RuntimeValue| view::value(value))
}

/// No variables.
pub fn unbound() -> (result: Bindings)
    ensures
        result.well_formed(),
        bound(result) == Map::<Seq<char>, ValueView>::empty(),
{
    let result: Bindings = NameMap::new();
    assert(bound(result) =~= Map::<Seq<char>, ValueView>::empty());
    result
}

/// The value of a variable.
pub fn find<'a>(bindings: &'a Bindings, name: &str) -> (result: Option<&'a RuntimeValue>)
    requires
        bindings.well_formed(),
    ensures
        match result {
            Some(value) => bound(*bindings).dom().contains(name@) && bound(*bindings)[name@] == view::value(*value),
            None => !bound(*bindings).dom().contains(name@),
        },
{
    bindings.get(name)
}

/// Binds a variable.
pub fn bind(bindings: &mut Bindings, name: &str, value: RuntimeValue)
    requires
        old(bindings).well_formed(),
    ensures
        final(bindings).well_formed(),
        bound(*final(bindings)) == bound(*old(bindings)).insert(name@, view::value(value)),
{
    let ghost before = bound(*bindings);
    let ghost held = view::value(value);
    bindings.insert(crate::text::owned(name), value);
    assert(bound(*bindings) =~= before.insert(name@, held));
}

/// Takes a variable out of scope.
pub fn unbind(bindings: &mut Bindings, name: &str) -> (result: Option<RuntimeValue>)
    requires
        old(bindings).well_formed(),
    ensures
        final(bindings).well_formed(),
        bound(*final(bindings)) == bound(*old(bindings)).remove(name@),
        match result {
            Some(value) => bound(*old(bindings)).dom().contains(name@) && bound(*old(bindings))[name@] == view::value(
                value,
            ),
            None => !bound(*old(bindings)).dom().contains(name@),
        },
{
    let ghost before = bound(*bindings);
    let result = bindings.remove(name);
    assert(bound(*bindings) =~= before.remove(name@));
    result
}

/// The same variables with equal values.
pub fn duplicate(bindings: &Bindings) -> (result: Bindings)
    requires
        bindings.well_formed(),
    ensures
        result.well_formed(),
        bound(result) == bound(*bindings),
{
    let mut entries: Vec<(String, RuntimeValue)> = Vec::new();
    let mut i: usize = 0;
    while i < bindings.entries.len()
        invariant
            i <= bindings.entries@.len(),
            entries@.len() == i,
            forall|k: int|
                0 <= k < i ==> (#[trigger] entries@[k]).0@ == bindings.entries@[k].0@ && view::value(entries@[k].1)
                    == view::value(bindings.entries@[k].1),
        decreases bindings.entries@.len() - i,
    {
        let value = copy::value(&bindings.entries[i].1);
        entries.push((bindings.entries[i].0.clone(), value));
        i += 1;
    }
    let result = NameMap { entries };
    proof {
        bindings.lemma_distinct();
        result.lemma_distinct();
        assert forall|a: int, b: int| 0 <= a < b < result.entries@.len() implies (#[trigger] result.entries@[a]).0@ != (
        #[trigger] result.entries@[b]).0@ by {
            assert(bindings.entries@[a].0@ != bindings.entries@[b].0@);
        }
        bindings.lemma_entries();
        result.lemma_entries();
        assert forall|key: Seq<char>| bound(result).dom().contains(key) <==> bound(*bindings).dom().contains(key) by {
            if bound(result).dom().contains(key) {
                let k = choose|k: int| 0 <= k < result.entries@.len() && (#[trigger] result.entries@[k]).0@ == key;
                assert(bindings.entries@[k].0@ == key);
            }
            if bound(*bindings).dom().contains(key) {
                let k = choose|k: int| 0 <= k < bindings.entries@.len() && (#[trigger] bindings.entries@[k]).0@ == key;
                assert(result.entries@[k].0@ == key);
            }
        }
        assert forall|key: Seq<char>| bound(result).dom().contains(key) implies bound(result)[key]
            == bound(*bindings)[key] by {
            let k = choose|k: int| 0 <= k < result.entries@.len() && (#[trigger] result.entries@[k]).0@ == key;
            assert(bindings.entries@[k].0@ == key);
        }
        assert(bound(result) =~= bound(*bindings));
    }
    result
}

} // verus!
