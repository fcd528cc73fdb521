//! Paths of source documents: their normal form and their order.
use vstd::prelude::*;
use crate::execute::path_text::{component_texts, join_path, parent_path};
use crate::execute::strings::ends_with;
use crate::lowered::view;
use crate::text::{owned, same_text, text_precedes};

verus! {

/// Components joined to one path.
pub open spec fn joined_to(components: Seq<Seq<char>>, count: int) -> Seq<char>
    decreases count,
{
    if count <= 0 || count > components.len() {
        Seq::empty()
    } else {
        crate::execute::path_text::joined_path(joined_to(components, count - 1), components[count - 1])
    }
}

/// The path made of its components alone.
pub open spec fn normal_path(path: Seq<char>) -> Seq<char> {
    let components = crate::execute::path_text::piece_texts(path);
    joined_to(components, components.len() as int)
}

pub fn normalize_path(path: &str) -> (result: String)
    ensures
        result@ == normal_path(path@),
{
    let components = component_texts(path);
    let ghost all = crate::execute::path_text::piece_texts(path@);
    assert(view::texts(components@).len() == components@.len());
    let mut result = String::new();
    assert(result@ =~= joined_to(all, 0));
    let mut i: usize = 0;
    while i < components.len()
        invariant
            i <= components.len(),
            all.len() == components@.len(),
            view::texts(components@) == all,
            result@ == joined_to(all, i as int),
        decreases components.len() - i,
    {
        assert(all[i as int] == components@[i as int]@);
        result = join_path(result.as_str(), components[i].as_str());
        i += 1;
    }
    result
}

/// The path with `.` dropped and `..` taking back the component before it.
pub open spec fn resolved_to(components: Seq<Seq<char>>, count: int) -> Seq<char>
    decreases count,
{
    if count <= 0 || count > components.len() {
        Seq::empty()
    } else {
        let before = resolved_to(components, count - 1);
        let component = components[count - 1];
        if component == "."@ {
            before
        } else if component == ".."@ {
            match crate::execute::path_text::parent_text(before) {
                Some(parent) => parent,
                None => before,
            }
        } else {
            crate::execute::path_text::joined_path(before, component)
        }
    }
}

pub open spec fn resolved_path(path: Seq<char>) -> Seq<char> {
    let components = crate::execute::path_text::piece_texts(path);
    resolved_to(components, components.len() as int)
}

pub fn resolve_path(path: &str) -> (result: String)
    ensures
        result@ == resolved_path(path@),
{
    let components = component_texts(path);
    let ghost all = crate::execute::path_text::piece_texts(path@);
    assert(view::texts(components@).len() == components@.len());
    let mut result = String::new();
    assert(result@ =~= resolved_to(all, 0));
    let mut i: usize = 0;
    while i < components.len()
        invariant
            i <= components.len(),
            all.len() == components@.len(),
            view::texts(components@) == all,
            result@ == resolved_to(all, i as int),
        decreases components.len() - i,
    {
        assert(all[i as int] == components@[i as int]@);
        let component = components[i].as_str();
        if same_text(component, ".") {
        } else if same_text(component, "..") {
            match parent_path(result.as_str()) {
                Some(parent) => result = parent,
                None => {}
            }
        } else {
            result = join_path(result.as_str(), component);
        }
        i += 1;
    }
    result
}

// Order.

/// The root comes first, then `.`, then `..`, then names.
pub open spec fn rank(component: Seq<char>) -> int {
    if component == "/"@ {
        0
    } else if component == "."@ {
        1
    } else if component == ".."@ {
        2
    } else {
        3
    }
}

fn rank_of(component: &str) -> (result: u8)
    ensures
        result as int == rank(component@),
{
    if same_text(component, "/") {
        0
    } else if same_text(component, ".") {
        1
    } else if same_text(component, "..") {
        2
    } else {
        3
    }
}

pub open spec fn component_precedes(left: Seq<char>, right: Seq<char>) -> bool {
    if rank(left) == 3 && rank(right) == 3 {
        crate::text::precedes(left, right)
    } else {
        rank(left) < rank(right)
    }
}

fn comes_first(left: &str, right: &str) -> (result: bool)
    ensures
        result == component_precedes(left@, right@),
{
    let first: u8 = rank_of(left);
    let second: u8 = rank_of(right);
    if first == 3 && second == 3 {
        text_precedes(left, right)
    } else {
        first < second
    }
}

pub open spec fn components_precede(left: Seq<Seq<char>>, right: Seq<Seq<char>>, from: int) -> bool
    decreases right.len() - from,
{
    if from < 0 || from >= right.len() {
        false
    } else if from >= left.len() {
        true
    } else if left[from] == right[from] {
        components_precede(left, right, from + 1)
    } else {
        component_precedes(left[from], right[from])
    }
}

/// The order of paths: component by component.
pub open spec fn path_precedes(left: Seq<char>, right: Seq<char>) -> bool {
    components_precede(
        crate::execute::path_text::piece_texts(left),
        crate::execute::path_text::piece_texts(right),
        0,
    )
}

pub fn is_before(left: &str, right: &str) -> (result: bool)
    ensures
        result == path_precedes(left@, right@),
{
    let first = component_texts(left);
    let second = component_texts(right);
    let ghost mine = crate::execute::path_text::piece_texts(left@);
    let ghost theirs = crate::execute::path_text::piece_texts(right@);
    assert(view::texts(first@).len() == first@.len() && view::texts(second@).len() == second@.len());
    let mut i: usize = 0;
    while i < second.len()
        invariant
            i <= second.len(),
            mine == view::texts(first@),
            mine == crate::execute::path_text::piece_texts(left@),
            theirs == crate::execute::path_text::piece_texts(right@),
            theirs == view::texts(second@),
            mine.len() == first@.len(),
            theirs.len() == second@.len(),
            components_precede(mine, theirs, 0) == components_precede(mine, theirs, i as int),
        decreases second.len() - i,
    {
        if i >= first.len() {
            return true;
        }
        assert(mine[i as int] == first@[i as int]@);
        assert(theirs[i as int] == second@[i as int]@);
        if !same_text(first[i].as_str(), second[i].as_str()) {
            return comes_first(first[i].as_str(), second[i].as_str());
        }
        i += 1;
    }
    false
}

/// No path comes before itself.
pub proof fn lemma_precedes_irreflexive(components: Seq<Seq<char>>, from: int)
    ensures
        !components_precede(components, components, from),
    decreases components.len() - from,
{
    if 0 <= from < components.len() {
        lemma_precedes_irreflexive(components, from + 1);
    }
}

/// The order of paths carries over.
pub proof fn lemma_components_transitive(
    first: Seq<Seq<char>>,
    second: Seq<Seq<char>>,
    third: Seq<Seq<char>>,
    from: int,
)
    requires
        components_precede(first, second, from),
        components_precede(second, third, from),
    ensures
        components_precede(first, third, from),
    decreases third.len() - from,
{
    if 0 <= from < first.len() && from < second.len() && from < third.len() {
        if first[from] == second[from] && second[from] == third[from] {
            lemma_components_transitive(first, second, third, from + 1);
        } else if first[from] != second[from] && second[from] != third[from] {
            if rank(first[from]) == 3 && rank(second[from]) == 3 && rank(third[from]) == 3 {
                crate::text::lemma_precedes_transitive(first[from], second[from], third[from], 0);
                crate::text::lemma_precedes_irreflexive(first[from], 0);
            }
        }
    }
}

/// Of two paths with different components one comes before the other.
pub proof fn lemma_components_total(left: Seq<Seq<char>>, right: Seq<Seq<char>>, from: int)
    requires
        0 <= from <= left.len(),
        from <= right.len(),
        left.take(from) == right.take(from),
        left != right,
    ensures
        components_precede(left, right, from) != components_precede(right, left, from),
    decreases left.len() - from,
{
    if from < left.len() && from < right.len() {
        if left[from] == right[from] {
            assert(left.take(from + 1) =~= left.take(from).push(left[from]));
            assert(right.take(from + 1) =~= right.take(from).push(right[from]));
            lemma_components_total(left, right, from + 1);
        } else if rank(left[from]) == 3 && rank(right[from]) == 3 {
            assert(left[from].take(0) =~= right[from].take(0));
            crate::text::lemma_precedes_total(left[from], right[from], 0);
        }
    } else if left.len() == right.len() {
        assert(left =~= left.take(from));
        assert(right =~= right.take(from));
    }
}

/// Whether two paths have the same components.
pub open spec fn same_path(left: Seq<char>, right: Seq<char>) -> bool {
    crate::execute::path_text::piece_texts(left) == crate::execute::path_text::piece_texts(right)
}

/// The order of paths is a strict total order of their components.
pub proof fn law_paths_are_ordered(left: Seq<char>, right: Seq<char>, third: Seq<char>)
    ensures
        same_path(left, right) ==> !path_precedes(left, right) && !path_precedes(right, left),
        !same_path(left, right) ==> path_precedes(left, right) != path_precedes(right, left),
        path_precedes(left, right) && path_precedes(right, third) ==> path_precedes(left, third),
{
    let mine = crate::execute::path_text::piece_texts(left);
    let theirs = crate::execute::path_text::piece_texts(right);
    if mine == theirs {
        lemma_precedes_irreflexive(mine, 0);
    } else {
        assert(mine.take(0) =~= theirs.take(0));
        lemma_components_total(mine, theirs, 0);
    }
    if path_precedes(left, right) && path_precedes(right, third) {
        lemma_components_transitive(mine, theirs, crate::execute::path_text::piece_texts(third), 0);
    }
}

// Tables by path.

/// Whether entries are listed once each, in the order of their paths.
pub open spec fn entries_ascending<T>(entries: Seq<(String, T)>) -> bool {
    forall|i: int, j: int|
        0 <= i < j < entries.len() ==> path_precedes((#[trigger] entries[i]).0@, (#[trigger] entries[j]).0@)
}

proof fn lemma_neighbours<T>(entries: Seq<(String, T)>, i: int, j: int)
    requires
        forall|k: int|
            0 <= k < entries.len() - 1 ==> path_precedes((#[trigger] entries[k]).0@, entries[k + 1].0@),
        0 <= i < j < entries.len(),
    ensures
        path_precedes(entries[i].0@, entries[j].0@),
    decreases j - i,
{
    assert(path_precedes(entries[j - 1].0@, entries[j - 1 + 1].0@));
    if i < j - 1 {
        lemma_neighbours(entries, i, j - 1);
        law_paths_are_ordered(entries[i].0@, entries[j - 1].0@, entries[j].0@);
    }
}

/// Tells whether entries are listed once each, in the order of their paths.
pub fn entries_in_order<T>(entries: &Vec<(String, T)>) -> (result: bool)
    ensures
        result == entries_ascending(entries@),
{
    let mut i: usize = 1;
    while i < entries.len()
        invariant
            1 <= i,
            forall|k: int|
                0 <= k < i - 1 && k < entries@.len() - 1 ==> path_precedes(
                    (#[trigger] entries@[k]).0@,
                    entries@[k + 1].0@,
                ),
        decreases entries.len() - i,
    {
        if !is_before(entries[i - 1].0.as_str(), entries[i].0.as_str()) {
            assert(!path_precedes(entries@[i - 1].0@, entries@[i as int].0@));
            return false;
        }
        i += 1;
    }
    assert forall|k: int, j: int| 0 <= k < j < entries@.len() implies path_precedes(
        (#[trigger] entries@[k]).0@,
        (#[trigger] entries@[j]).0@,
    ) by {
        lemma_neighbours(entries@, k, j);
    }
    true
}

/// Entries with one in its place, or instead of the one with its path.
pub open spec fn with_entry_at<T>(entries: Seq<(String, T)>, from: int, entry: (String, T)) -> Seq<(String, T)>
    decreases entries.len() - from,
{
    if from < 0 || from >= entries.len() {
        entries.push(entry)
    } else if path_precedes(entries[from].0@, entry.0@) {
        with_entry_at(entries, from + 1, entry)
    } else if path_precedes(entry.0@, entries[from].0@) {
        entries.insert(from, entry)
    } else {
        entries.update(from, entry)
    }
}

proof fn lemma_with_entry_at<T>(entries: Seq<(String, T)>, from: int, entry: (String, T))
    requires
        0 <= from <= entries.len(),
        entries_ascending(entries),
        forall|i: int| 0 <= i < from ==> path_precedes((#[trigger] entries[i]).0@, entry.0@),
    ensures
        entries_ascending(with_entry_at(entries, from, entry)),
    decreases entries.len() - from,
{
    if from < entries.len() {
        if path_precedes(entries[from].0@, entry.0@) {
            lemma_with_entry_at(entries, from + 1, entry);
        } else {
            let after = with_entry_at(entries, from, entry);
            assert forall|i: int, j: int| 0 <= i < j < after.len() implies path_precedes(
                (#[trigger] after[i]).0@,
                (#[trigger] after[j]).0@,
            ) by {
                law_paths_are_ordered(entries[from].0@, entry.0@, entry.0@);
                if i == from && path_precedes(entry.0@, entries[from].0@) && j > from + 1 {
                    law_paths_are_ordered(entry.0@, entries[from].0@, entries[j - 1].0@);
                }
            }
        }
    }
}

/// Puts an entry into a table by path.
pub fn put_entry_at<T>(entries: &mut Vec<(String, T)>, path: String, value: T)
    requires
        entries_ascending(old(entries)@),
    ensures
        final(entries)@ == with_entry_at(old(entries)@, 0, (path, value)),
        entries_ascending(final(entries)@),
{
    let ghost before = entries@;
    let ghost entry = (path, value);
    proof {
        lemma_with_entry_at(before, 0, entry);
    }
    let mut i: usize = 0;
    while i < entries.len()
        invariant
            i <= entries.len(),
            entries@ == before,
            before == old(entries)@,
            entry == (path, value),
            entries_ascending(with_entry_at(before, 0, entry)),
            with_entry_at(before, 0, entry) == with_entry_at(before, i as int, entry),
        decreases entries.len() - i,
    {
        if !is_before(entries[i].0.as_str(), path.as_str()) {
            if is_before(path.as_str(), entries[i].0.as_str()) {
                entries.insert(i, (path, value));
            } else {
                entries.set(i, (path, value));
            }
            return;
        }
        i += 1;
    }
    entries.push((path, value));
}

/// Texts in the order of paths, none twice: a path put in its place.
pub open spec fn with_path(paths: Seq<Seq<char>>, from: int, path: Seq<char>) -> Seq<Seq<char>>
    decreases paths.len() - from,
{
    if from < 0 || from >= paths.len() {
        paths.push(path)
    } else if paths[from] == path {
        paths
    } else if path_precedes(paths[from], path) {
        with_path(paths, from + 1, path)
    } else {
        paths.insert(from, path)
    }
}

/// Adds a path to a list in the order of paths.
pub fn add_path(paths: &mut Vec<String>, path: &str)
    ensures
        view::texts(final(paths)@) == with_path(view::texts(old(paths)@), 0, path@),
{
    let ghost before = paths@;
    let ghost all = view::texts(before);
    let added = owned(path);
    let mut i: usize = 0;
    while i < paths.len()
        invariant
            i <= paths.len(),
            paths@ == before,
            before == old(paths)@,
            all == view::texts(before),
            added@ == path@,
            with_path(all, 0, path@) == with_path(all, i as int, path@),
        decreases paths.len() - i,
    {
        assert(all[i as int] == paths@[i as int]@);
        if same_text(paths[i].as_str(), path) {
            return;
        }
        if !is_before(paths[i].as_str(), path) {
            paths.insert(i, added);
            assert(view::texts(paths@) =~= all.insert(i as int, path@));
            return;
        }
        i += 1;
    }
    paths.push(added);
    proof {
        view::lemma_texts_push(before, added);
    }
}

// Finding documents.

/// Whether a directory holds no source documents.
pub open spec fn is_skipped_directory(name: Seq<char>) -> bool {
    name == ".git"@ || name == ".worktrees"@ || name == "target"@
}

pub fn skips_directory(name: &str) -> (result: bool)
    ensures
        result == is_skipped_directory(name@),
{
    same_text(name, ".git") || same_text(name, ".worktrees") || same_text(name, "target")
}

/// Whether a path is that of a source document.
pub open spec fn is_source_path(path: Seq<char>) -> bool {
    crate::execute::strings::has_suffix(path, ".vibra"@) || crate::execute::strings::has_suffix(path, ".vibra.yaml"@)
}

pub fn names_source(path: &str) -> (result: bool)
    ensures
        result == is_source_path(path@),
{
    ends_with(path, ".vibra") || ends_with(path, ".vibra.yaml")
}

} // verus!
