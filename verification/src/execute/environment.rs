//! An environment given to a run, and lists of names.
use vstd::prelude::*;
use crate::execute::host::EnvPair;
use crate::execute::host_view::{self, EnvPairView};
use crate::execute::policy::ensure_policy_scope;
use crate::lowered::ir::{CapabilityDomain, PolicyType};
use crate::lowered::view::{self, PolicyTypeView};
use crate::text::{same_text, text_precedes};

verus! {

/// The place of a variable, or the length.
pub open spec fn variable_place(pairs: Seq<EnvPairView>, from: int, name: Seq<char>) -> int
    decreases pairs.len() - from,
{
    if from < 0 || from >= pairs.len() {
        pairs.len() as int
    } else if pairs[from].name == name {
        from
    } else {
        variable_place(pairs, from + 1, name)
    }
}

/// The value of a variable.
pub open spec fn variable(pairs: Seq<EnvPairView>, name: Seq<char>) -> Option<Seq<char>> {
    let place = variable_place(pairs, 0, name);
    if 0 <= place < pairs.len() {
        Some(pairs[place].value)
    } else {
        None
    }
}

/// The environment with a variable set.
pub open spec fn with_variable(pairs: Seq<EnvPairView>, name: Seq<char>, value: Seq<char>) -> Seq<EnvPairView> {
    let place = variable_place(pairs, 0, name);
    if 0 <= place < pairs.len() {
        pairs.update(place, EnvPairView { name, value })
    } else {
        pairs.push(EnvPairView { name, value })
    }
}

/// The environment without a variable.
pub open spec fn without_variable(pairs: Seq<EnvPairView>, name: Seq<char>) -> Seq<EnvPairView> {
    let place = variable_place(pairs, 0, name);
    if 0 <= place < pairs.len() {
        pairs.remove(place)
    } else {
        pairs
    }
}

pub open spec fn variable_names(pairs: Seq<EnvPairView>) -> Seq<Seq<char>> {
    Seq::new(pairs.len(), |i: int| pairs[i].name)
}

/// Whether a name can be that of a variable.
pub open spec fn valid_name(name: Seq<char>) -> bool {
    name.len() > 0 && !name.contains('=') && !name.contains('\0')
}

pub fn is_valid_env_name(name: &str) -> (result: bool)
    ensures
        result == valid_name(name@),
{
    !name.is_empty() && !crate::text::has_char(name, '=') && !crate::text::has_char(name, '\0')
}

fn position(pairs: &Vec<EnvPair>, name: &str) -> (place: usize)
    ensures
        place as int == variable_place(host_view::env_pairs(pairs@), 0, name@),
        place <= pairs.len(),
{
    let ghost all = host_view::env_pairs(pairs@);
    let mut i: usize = 0;
    while i < pairs.len()
        invariant
            i <= pairs.len(),
            all == host_view::env_pairs(pairs@),
            variable_place(all, 0, name@) == variable_place(all, i as int, name@),
        decreases pairs.len() - i,
    {
        if same_text(pairs[i].name.as_str(), name) {
            return i;
        }
        i += 1;
    }
    i
}

pub fn get_variable(pairs: &Vec<EnvPair>, name: &str) -> (result: Option<String>)
    ensures
        crate::execute::paths::view_option(result) == variable(host_view::env_pairs(pairs@), name@),
{
    let place = position(pairs, name);
    if place < pairs.len() {
        Some(pairs[place].value.clone())
    } else {
        None
    }
}

pub fn set_variable(pairs: &mut Vec<EnvPair>, name: &str, value: &str)
    ensures
        host_view::env_pairs(final(pairs)@) == with_variable(host_view::env_pairs(old(pairs)@), name@, value@),
{
    let ghost before = host_view::env_pairs(pairs@);
    let place = position(pairs, name);
    let pair = EnvPair { name: crate::text::owned(name), value: crate::text::owned(value) };
    if place < pairs.len() {
        pairs[place] = pair;
        assert(
            host_view::env_pairs(pairs@) =~= before.update(place as int, EnvPairView { name: name@, value: value@ })
        );
    } else {
        pairs.push(pair);
        assert(host_view::env_pairs(pairs@) =~= before.push(EnvPairView { name: name@, value: value@ }));
    }
}

pub fn remove_variable(pairs: &mut Vec<EnvPair>, name: &str)
    ensures
        host_view::env_pairs(final(pairs)@) == without_variable(host_view::env_pairs(old(pairs)@), name@),
{
    let ghost before = host_view::env_pairs(pairs@);
    let place = position(pairs, name);
    if place < pairs.len() {
        pairs.remove(place);
        assert(host_view::env_pairs(pairs@) =~= before.remove(place as int));
    }
}

pub fn names_of(pairs: &Vec<EnvPair>) -> (result: Vec<String>)
    ensures
        view::texts(result@) == variable_names(host_view::env_pairs(pairs@)),
{
    let mut done: Vec<String> = Vec::new();
    let mut i: usize = 0;
    while i < pairs.len()
        invariant
            i <= pairs.len(),
            done.len() == i,
            forall|k: int| 0 <= k < i ==> view::texts(done@)[k] == variable_names(host_view::env_pairs(pairs@))[k],
        decreases pairs.len() - i,
    {
        let ghost before = done@;
        done.push(pairs[i].name.clone());
        proof {
            view::lemma_texts_push(before, done@.last());
        }
        i += 1;
    }
    assert(view::texts(done@) =~= variable_names(host_view::env_pairs(pairs@)));
    done
}

/// The place at which `name` belongs among `sorted[from..]`: before the first
/// name that it precedes.
pub open spec fn sorted_place(sorted: Seq<Seq<char>>, from: int, name: Seq<char>) -> int
    decreases sorted.len() - from,
{
    if from < 0 || from >= sorted.len() || crate::text::precedes(name, sorted[from]) {
        from
    } else {
        sorted_place(sorted, from + 1, name)
    }
}

/// The admitted names among `names[from..]`, sorted into `done`.
pub open spec fn admitted_names(
    names: Seq<Seq<char>>,
    from: int,
    policy: PolicyTypeView,
    done: Seq<Seq<char>>,
) -> Seq<Seq<char>>
    decreases names.len() - from,
{
    if from < 0 || from >= names.len() {
        done
    } else {
        admitted_names(
            names,
            from + 1,
            policy,
            if crate::execute::policy::scope_check(policy, CapabilityDomain::EnvRead, names[from]) is Ok {
                done.insert(sorted_place(done, 0, names[from]), names[from])
            } else {
                done
            },
        )
    }
}

/// The names that a policy lets a program read, in order.
pub open spec fn readable_names(names: Seq<Seq<char>>, policy: PolicyTypeView) -> Seq<Seq<char>> {
    admitted_names(names, 0, policy, Seq::empty())
}

fn insert_sorted(done: &mut Vec<String>, name: &str)
    ensures
        view::texts(final(done)@) == view::texts(old(done)@).insert(
            sorted_place(view::texts(old(done)@), 0, name@),
            name@,
        ),
{
    let ghost all = view::texts(done@);
    let mut i: usize = 0;
    while i < done.len() && !text_precedes(name, done[i].as_str())
        invariant
            i <= done.len(),
            *done == *old(done),
            all == view::texts(done@),
            sorted_place(all, 0, name@) == sorted_place(all, i as int, name@),
        decreases done.len() - i,
    {
        i += 1;
    }
    done.insert(i, crate::text::owned(name));
    assert(view::texts(done@) =~= all.insert(i as int, name@));
}

pub fn list_readable(names: &Vec<String>, policy: &PolicyType) -> (result: Vec<String>)
    ensures
        view::texts(result@) == readable_names(view::texts(names@), view::policy_type(*policy)),
{
    let ghost all = view::texts(names@);
    let ghost rules = view::policy_type(*policy);
    let mut done: Vec<String> = Vec::new();
    let mut i: usize = 0;
    assert(view::texts(done@) =~= Seq::<Seq<char>>::empty());
    while i < names.len()
        invariant
            i <= names.len(),
            all == view::texts(names@),
            rules == view::policy_type(*policy),
            readable_names(all, rules) == admitted_names(all, i as int, rules, view::texts(done@)),
        decreases names.len() - i,
    {
        assert(all[i as int] == names@[i as int]@);
        match ensure_policy_scope(policy, CapabilityDomain::EnvRead, names[i].as_str()) {
            Ok(_) => insert_sorted(&mut done, names[i].as_str()),
            Err(_) => {}
        }
        i += 1;
    }
    done
}

/// The list is in order, no name before one that precedes it.
pub open spec fn in_order(names: Seq<Seq<char>>) -> bool {
    forall|i: int, j: int| 0 <= i < j < names.len() ==> !crate::text::precedes(#[trigger] names[j], #[trigger] names[i])
}

proof fn lemma_sorted_place(sorted: Seq<Seq<char>>, from: int, name: Seq<char>)
    requires
        0 <= from <= sorted.len(),
        forall|i: int| 0 <= i < from ==> !crate::text::precedes(name, #[trigger] sorted[i]),
    ensures
        from <= sorted_place(sorted, from, name) <= sorted.len(),
        forall|i: int|
            0 <= i < sorted_place(sorted, from, name) ==> !crate::text::precedes(name, #[trigger] sorted[i]),
        sorted_place(sorted, from, name) < sorted.len() ==> crate::text::precedes(
            name,
            sorted[sorted_place(sorted, from, name)],
        ),
    decreases sorted.len() - from,
{
    if from < sorted.len() && !crate::text::precedes(name, sorted[from]) {
        lemma_sorted_place(sorted, from + 1, name);
    }
}

proof fn lemma_precedes_asymmetric(left: Seq<char>, right: Seq<char>)
    requires
        crate::text::precedes(left, right),
    ensures
        !crate::text::precedes(right, left),
{
    if crate::text::precedes(right, left) {
        crate::text::lemma_precedes_transitive(left, right, left, 0);
        crate::text::lemma_precedes_irreflexive(left, 0);
    }
}

proof fn lemma_insert_keeps_order(sorted: Seq<Seq<char>>, name: Seq<char>)
    requires
        in_order(sorted),
    ensures
        in_order(sorted.insert(sorted_place(sorted, 0, name), name)),
{
    lemma_sorted_place(sorted, 0, name);
    let place = sorted_place(sorted, 0, name);
    let next = sorted.insert(place, name);
    assert forall|i: int, j: int| 0 <= i < j < next.len() implies !crate::text::precedes(
        #[trigger] next[j],
        #[trigger] next[i],
    ) by {
        if j < place {
            assert(!crate::text::precedes(sorted[j], sorted[i]));
        } else if j == place {
            assert(!crate::text::precedes(name, sorted[i]));
        } else if i == place {
            lemma_precedes_asymmetric(name, sorted[place]);
            if j - 1 > place && crate::text::precedes(sorted[j - 1], name) {
                crate::text::lemma_precedes_transitive(sorted[j - 1], name, sorted[place], 0);
                assert(!crate::text::precedes(sorted[j - 1], sorted[place]));
            }
        } else if i < place {
            assert(!crate::text::precedes(sorted[j - 1], sorted[i]));
        } else {
            assert(!crate::text::precedes(sorted[j - 1], sorted[i - 1]));
        }
    }
}

proof fn lemma_admitted_in_order(names: Seq<Seq<char>>, from: int, policy: PolicyTypeView, done: Seq<Seq<char>>)
    requires
        in_order(done),
        0 <= from,
    ensures
        in_order(admitted_names(names, from, policy, done)),
    decreases names.len() - from,
{
    if from < names.len() {
        let next = if crate::execute::policy::scope_check(policy, CapabilityDomain::EnvRead, names[from]) is Ok {
            done.insert(sorted_place(done, 0, names[from]), names[from])
        } else {
            done
        };
        lemma_insert_keeps_order(done, names[from]);
        lemma_admitted_in_order(names, from + 1, policy, next);
    }
}

/// The names that a program may read are listed in order.
pub proof fn law_readable_names_are_in_order(names: Seq<Seq<char>>, policy: PolicyTypeView)
    ensures
        in_order(readable_names(names, policy)),
{
    lemma_admitted_in_order(names, 0, policy, Seq::empty());
}

} // verus!
