//! The visible names of an expanded module with what they are.
use vstd::prelude::*;
use crate::ast::surface::{Module, TopLevel};
use crate::ast::view::{self, ModuleView, TopLevelView};
use crate::text::{owned, same_text, text_precedes};

verus! {

/// The name and the kind of a top-level form.
pub open spec fn described(form: TopLevelView) -> (Seq<char>, Seq<char>) {
    match form {
        TopLevelView::Import(import) => (import.alias.value, "import"@),
        TopLevelView::Definition(definition) => (definition.name.value, "definition"@),
        TopLevelView::Constant(constant) => (constant.name.value, "constant"@),
        TopLevelView::Function(function) => (function.name.value, "function"@),
        TopLevelView::Macro(definition) => (definition.name.value, "macro"@),
        TopLevelView::Test(test) => (test.name.value, "test"@),
    }
}

/// Entries in the order of their keys with one put in: instead of one with the
/// same key, or in its place.
pub open spec fn with_entry(entries: Seq<(Seq<char>, Seq<char>)>, from: int, entry: (Seq<char>, Seq<char>)) -> Seq<
(Seq<char>, Seq<char>),
>
    decreases entries.len() - from,
{
    if from < 0 || from >= entries.len() {
        entries.push(entry)
    } else if entries[from].0 == entry.0 {
        entries.update(from, entry)
    } else if crate::text::precedes(entries[from].0, entry.0) {
        with_entry(entries, from + 1, entry)
    } else {
        entries.insert(from, entry)
    }
}

pub open spec fn entries_of(forms: Seq<TopLevelView>, from: int, done: Seq<(Seq<char>, Seq<char>)>) -> Seq<
(Seq<char>, Seq<char>),
>
    decreases forms.len() - from,
{
    if from < 0 || from >= forms.len() {
        done
    } else {
        entries_of(forms, from + 1, with_entry(done, 0, described(forms[from])))
    }
}

/// The object that describes a module: its names in order, each with its kind.
pub open spec fn module_object(module: ModuleView) -> Seq<(Seq<char>, Seq<char>)> {
    entries_of(module.forms, 0, Seq::empty())
}

pub open spec fn entry_views(entries: Seq<(String, String)>) -> Seq<(Seq<char>, Seq<char>)> {
    Seq::new(entries.len(), |i: int| (entries[i].0@, entries[i].1@))
}

fn describe(form: &TopLevel) -> (entry: (String, String))
    ensures
        (entry.0@, entry.1@) == described(view::top_level(*form)),
{
    reveal(view::top_level);
    match form {
        TopLevel::Import(import) => (import.alias.value.clone(), owned("import")),
        TopLevel::Definition(definition) => (definition.name.value.clone(), owned("definition")),
        TopLevel::Constant(constant) => (constant.name.value.clone(), owned("constant")),
        TopLevel::Function(function) => (function.name.value.clone(), owned("function")),
        TopLevel::Macro(definition) => (definition.name.value.clone(), owned("macro")),
        TopLevel::Test(test) => (test.name.value.clone(), owned("test")),
    }
}

pub(crate) fn put(entries: &mut Vec<(String, String)>, entry: (String, String))
    ensures
        entry_views(final(entries)@) == with_entry(entry_views(old(entries)@), 0, (entry.0@, entry.1@)),
{
    let ghost before = entries@;
    let ghost all = entry_views(before);
    let ghost added = (entry.0@, entry.1@);
    let mut i: usize = 0;
    while i < entries.len()
        invariant
            i <= entries.len(),
            entries@ == before,
            before == old(entries)@,
            all == entry_views(before),
            added == (entry.0@, entry.1@),
            with_entry(all, 0, added) == with_entry(all, i as int, added),
        decreases entries.len() - i,
    {
        if same_text(entries[i].0.as_str(), entry.0.as_str()) {
            entries.set(i, entry);
            assert(entry_views(entries@) =~= all.update(i as int, added));
            return;
        }
        if !text_precedes(entries[i].0.as_str(), entry.0.as_str()) {
            entries.insert(i, entry);
            assert(entry_views(entries@) =~= all.insert(i as int, added));
            return;
        }
        i += 1;
    }
    entries.push(entry);
    assert(entry_views(entries@) =~= all.push(added));
}

/// The entries of the object that describes an expanded module, in the order of
/// the keys.
pub fn module_json(module: &Module) -> (entries: Vec<(String, String)>)
    ensures
        entry_views(entries@) == module_object(view::module(*module)),
{
    let ghost all = view::top_levels(module.forms@);
    let mut entries: Vec<(String, String)> = Vec::new();
    assert(entry_views(entries@) =~= Seq::<(Seq<char>, Seq<char>)>::empty());
    let mut i: usize = 0;
    while i < module.forms.len()
        invariant
            i <= module.forms.len(),
            all == view::top_levels(module.forms@),
            entries_of(all, 0, Seq::empty()) == entries_of(all, i as int, entry_views(entries@)),
        decreases module.forms.len() - i,
    {
        assert(all[i as int] == view::top_level(module.forms@[i as int]));
        put(&mut entries, describe(&module.forms[i]));
        i += 1;
    }
    entries
}

// Laws.

/// Keys in strictly ascending order.
pub open spec fn ascending(entries: Seq<(Seq<char>, Seq<char>)>) -> bool {
    forall|i: int, j: int|
    0 <= i < j < entries.len() ==> crate::text::precedes((#[trigger] entries[i]).0, (#[trigger] entries[j]).0)
}

proof fn lemma_entry_keeps_order(entries: Seq<(Seq<char>, Seq<char>)>, from: int, entry: (Seq<char>, Seq<char>))
    requires
        0 <= from <= entries.len(),
        ascending(entries),
        forall|i: int| 0 <= i < from ==> crate::text::precedes((#[trigger] entries[i]).0, entry.0),
    ensures
        ascending(with_entry(entries, from, entry)),
    decreases entries.len() - from,
{
    if from < entries.len() && entries[from].0 != entry.0 {
        if crate::text::precedes(entries[from].0, entry.0) {
            lemma_entry_keeps_order(entries, from + 1, entry);
        } else {
            assert(entries[from].0.take(0) =~= entry.0.take(0));
            crate::text::lemma_precedes_total(entries[from].0, entry.0, 0);
            let after = entries.insert(from, entry);
            assert forall|i: int, j: int| 0 <= i < j < after.len() implies crate::text::precedes(
                (#[trigger] after[i]).0,
                (#[trigger] after[j]).0,
            ) by {
                if i == from && j > from + 1 {
                    crate::text::lemma_precedes_transitive(entry.0, entries[from].0, entries[j - 1].0, 0);
                }
            }
        }
    }
}

proof fn lemma_entries_in_order(forms: Seq<TopLevelView>, from: int, done: Seq<(Seq<char>, Seq<char>)>)
    requires
        ascending(done),
    ensures
        ascending(entries_of(forms, from, done)),
    decreases forms.len() - from,
{
    if 0 <= from < forms.len() {
        lemma_entry_keeps_order(done, 0, described(forms[from]));
        lemma_entries_in_order(forms, from + 1, with_entry(done, 0, described(forms[from])));
    }
}

/// The object lists each name once, in the order of the names.
pub proof fn law_names_are_listed_once_in_order(module: ModuleView)
    ensures
        ascending(module_object(module)),
{
    lemma_entries_in_order(module.forms, 0, Seq::empty());
}

} // verus!
