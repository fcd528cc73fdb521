//! What queries find, what forms keep and what an index records.
use vstd::prelude::*;
use crate::code::form;
use crate::code::model::{NodeKind, SemanticKind};
use crate::code::query::{self, Captures};
use crate::code::semantic::{self, Found};
use crate::code::source;
use crate::code::view::{
    CodeErrorView, EditView, EntryView, FormView, ImportLinkView, NodeView, PatternView, QueryMatchView, QueryView,
    SegmentView, SemanticFactView, SemanticIndexView, SourceDatabaseView,
};

verus! {

// Selection.

proof fn lemma_unlimited(query: QueryView, nodes: Seq<NodeView>, last: NodeView, from: int, done: Seq<QueryMatchView>)
    requires
        0 <= from <= nodes.len(),
        query.limit is None,
    ensures
        query::selected(query, nodes.push(last), from, done) == (match query::accepted(query, last) {
            Some(captures) => query::selected(query, nodes, from, done).push(QueryMatchView { node: last, captures }),
            None => query::selected(query, nodes, from, done),
        }),
    decreases nodes.len() - from,
{
    let all = nodes.push(last);
    if from < nodes.len() {
        assert(all[from] == nodes[from]);
        match query::accepted(query, nodes[from]) {
            None => lemma_unlimited(query, nodes, last, from + 1, done),
            Some(captures) => lemma_unlimited(
                query,
                nodes,
                last,
                from + 1,
                done.push(QueryMatchView { node: nodes[from], captures }),
            ),
        }
    } else {
        assert(all[from] == last);
        match query::accepted(query, last) {
            None => assert(query::selected(query, all, from + 1, done) == done),
            Some(captures) => {
                let more = done.push(QueryMatchView { node: last, captures });
                assert(query::selected(query, all, from + 1, more) == more);
            }
        }
    }
}

/// Without a limit a query finds every candidate that it accepts, in their order, and
/// no other.
pub proof fn law_queries_find_every_match(query: QueryView, nodes: Seq<NodeView>, last: NodeView)
    requires
        query.limit is None,
    ensures
        query::selected(query, Seq::empty(), 0, Seq::empty()) == Seq::<QueryMatchView>::empty(),
        query::selected(query, nodes.push(last), 0, Seq::empty()) == (match query::accepted(query, last) {
            Some(captures) => query::selected(query, nodes, 0, Seq::empty()).push(
                QueryMatchView { node: last, captures },
            ),
            None => query::selected(query, nodes, 0, Seq::empty()),
        }),
{
    lemma_unlimited(query, nodes, last, 0, Seq::empty());
}

proof fn lemma_limited(query: QueryView, nodes: Seq<NodeView>, limit: usize, from: int, done: Seq<QueryMatchView>)
    requires
        0 <= from <= nodes.len(),
        done.len() < limit,
        query.limit is None,
    ensures
        ({
            let all = query::selected(query, nodes, from, done);
            let some = query::selected((QueryView { limit: Some(limit), ..query }), nodes, from, done);
            &&& some == all.take(if all.len() < limit { all.len() as int } else { limit as int })
            &&& all.len() >= done.len()
            &&& all.take(done.len() as int) == done
        }),
    decreases nodes.len() - from,
{
    let limited = QueryView { limit: Some(limit), ..query };
    let all = query::selected(query, nodes, from, done);
    if from < nodes.len() {
        assert(query::accepted(limited, nodes[from]) == query::accepted(query, nodes[from]));
        match query::accepted(query, nodes[from]) {
            None => lemma_limited(query, nodes, limit, from + 1, done),
            Some(captures) => {
                let more = done.push(QueryMatchView { node: nodes[from], captures });
                if more.len() >= limit {
                    lemma_kept(query, nodes, from + 1, more);
                    assert(all.take(limit as int) == more);
                    assert(all.take(done.len() as int) =~= more.take(done.len() as int));
                    assert(more.take(done.len() as int) =~= done);
                } else {
                    lemma_limited(query, nodes, limit, from + 1, more);
                    assert(all.take(done.len() as int) =~= all.take(more.len() as int).take(done.len() as int));
                    assert(more.take(done.len() as int) =~= done);
                }
            }
        }
    } else {
        assert(all.take(done.len() as int) =~= done);
    }
}

proof fn lemma_kept(query: QueryView, nodes: Seq<NodeView>, from: int, done: Seq<QueryMatchView>)
    requires
        0 <= from <= nodes.len(),
        query.limit is None,
    ensures
        query::selected(query, nodes, from, done).len() >= done.len(),
        query::selected(query, nodes, from, done).take(done.len() as int) == done,
    decreases nodes.len() - from,
{
    let all = query::selected(query, nodes, from, done);
    if from < nodes.len() {
        match query::accepted(query, nodes[from]) {
            None => lemma_kept(query, nodes, from + 1, done),
            Some(captures) => {
                let more = done.push(QueryMatchView { node: nodes[from], captures });
                lemma_kept(query, nodes, from + 1, more);
                assert(all.take(done.len() as int) =~= all.take(more.len() as int).take(done.len() as int));
                assert(more.take(done.len() as int) =~= done);
            }
        }
    } else {
        assert(all.take(done.len() as int) =~= done);
    }
}

/// A limit cuts the matches off behind the first ones, and changes nothing else.
pub proof fn law_limits_keep_the_first_matches(query: QueryView, nodes: Seq<NodeView>, limit: usize)
    requires
        query.limit is None,
        limit > 0,
    ensures
        ({
            let all = query::selected(query, nodes, 0, Seq::empty());
            query::selected((QueryView { limit: Some(limit), ..query }), nodes, 0, Seq::empty()) == all.take(
                if all.len() < limit { all.len() as int } else { limit as int },
            )
        }),
{
    lemma_limited(query, nodes, limit, 0, Seq::empty());
}

/// A query without conditions accepts every node; each condition leaves only the nodes
/// under its key, of its kind, or of its pattern.
pub proof fn law_conditions_narrow_a_query(query: QueryView, node: NodeView)
    ensures
        query.mapping_key is None && query.kind is None && query.pattern is None ==> query::accepted(query, node) == Some(
            Seq::<(Seq<char>, FormView)>::empty(),
        ),
        query::accepted(query, node) is Some ==> {
            &&& query.mapping_key matches Some(key) ==> node.locator.path.segments.len() > 0
                && node.locator.path.segments.last() == SegmentView::Key(key)
            &&& query.kind matches Some(kind) ==> node.kind == kind
            &&& query.pattern matches Some(pattern) ==> query::matched(pattern, node.form, Seq::empty())
                == query::accepted(query, node)
        },
        query.pattern is None && (query.kind is None || query.kind == Some(node.kind)) && (query.mapping_key is None || (
        node.locator.path.segments.len() > 0 && node.locator.path.segments.last() == SegmentView::Key(
            query.mapping_key->Some_0,
        ))) ==> query::accepted(query, node) is Some,
{
}

// Patterns.

proof fn lemma_capture(captures: Captures, from: int, name: Seq<char>, value: FormView)
    requires
        0 <= from <= captures.len(),
    ensures
        query::with_capture(captures, from, name, value).contains((name, value)),
        forall|other: (Seq<char>, FormView)|
            captures.contains(other) && other.0 != name ==> #[trigger] query::with_capture(
                captures,
                from,
                name,
                value,
            ).contains(other),
    decreases captures.len() - from,
{
    let after = query::with_capture(captures, from, name, value);
    if from < captures.len() && captures[from].0 != name && crate::text::precedes(captures[from].0, name) {
        lemma_capture(captures, from + 1, name, value);
    } else if from < captures.len() {
        assert(after[from] == (name, value));
        assert forall|other: (Seq<char>, FormView)| captures.contains(other) && other.0 != name implies
            #[trigger] after.contains(other) by {
            let i = choose|i: int| 0 <= i < captures.len() && captures[i] == other;
            if captures[from].0 == name {
                assert(after[i] == other);
            } else {
                assert(after[if i < from { i } else { i + 1 }] == other);
            }
        }
    } else {
        assert(after[captures.len() as int] == (name, value));
        assert forall|other: (Seq<char>, FormView)| captures.contains(other) implies #[trigger] after.contains(other) by {
            let i = choose|i: int| 0 <= i < captures.len() && captures[i] == other;
            assert(after[i] == other);
        }
    }
}

/// The pattern for anything matches and captures nothing; one of a kind matches forms
/// of the kind; an exact one what is the same; a capture matches what its pattern
/// matches, and records the form under its name.
pub proof fn law_query_patterns(
    expected: FormView,
    kind: NodeKind,
    name: Seq<char>,
    inner: PatternView,
    value: FormView,
    captures: Captures,
)
    ensures
        query::matched(PatternView::Any, value, captures) == Some(captures),
        query::matched(PatternView::Exact(expected), value, captures) == (if form::same_form(expected, value) {
            Some(captures)
        } else {
            None
        }),
        query::matched(PatternView::Kind(kind), value, captures) is Some == (match value {
            FormView::Sequence(_) => kind == NodeKind::Sequence,
            FormView::Mapping(_) => kind == NodeKind::Mapping,
            _ => kind == NodeKind::Scalar,
        }),
        ({
            let capture = PatternView::Capture { name, pattern: Box::new(inner) };
            &&& query::matched(capture, value, captures) is Some == query::matched(inner, value, captures) is Some
            &&& query::matched(capture, value, captures) matches Some(more) ==> more.contains((name, value))
        }),
{
    let capture = PatternView::Capture { name, pattern: Box::new(inner) };
    assert(*capture->Capture_pattern == inner);
    match query::matched(inner, value, captures) {
        None => {}
        Some(more) => lemma_capture(more, 0, name, value),
    }
}

proof fn lemma_all_matched(
    patterns: Seq<PatternView>,
    last: PatternView,
    forms: Seq<FormView>,
    value: FormView,
    from: int,
    captures: Captures,
)
    requires
        0 <= from <= patterns.len() == forms.len(),
    ensures
        query::all_matched(patterns.push(last), forms.push(value), from, captures) == (match query::all_matched(
            patterns,
            forms,
            from,
            captures,
        ) {
            None => None,
            Some(captures) => query::matched(last, value, captures),
        }),
    decreases patterns.len() - from,
{
    let all = patterns.push(last);
    let held = forms.push(value);
    if from < patterns.len() {
        assert(all[from] == patterns[from] && held[from] == forms[from]);
        match query::matched(patterns[from], forms[from], captures) {
            None => {}
            Some(captures) => lemma_all_matched(patterns, last, forms, value, from + 1, captures),
        }
    } else {
        assert(all[from] == last && held[from] == value);
        match query::matched(last, value, captures) {
            None => {}
            Some(captures) => assert(query::all_matched(all, held, from + 1, captures) == Some(captures)),
        }
    }
}

/// The pattern of a sequence matches a sequence of as many items, one by one.
pub proof fn law_sequence_patterns(
    patterns: Seq<PatternView>,
    last: PatternView,
    forms: Seq<FormView>,
    value: FormView,
    captures: Captures,
)
    ensures
        patterns.len() != forms.len() ==> query::matched(
            PatternView::Sequence(patterns),
            FormView::Sequence(forms),
            captures,
        ) is None,
        !(value is Sequence) ==> query::matched(PatternView::Sequence(patterns), value, captures) is None,
        patterns.len() == forms.len() ==> query::matched(
            PatternView::Sequence(patterns.push(last)),
            FormView::Sequence(forms.push(value)),
            captures,
        ) == (match query::matched(PatternView::Sequence(patterns), FormView::Sequence(forms), captures) {
            None => None,
            Some(captures) => query::matched(last, value, captures),
        }),
{
    if patterns.len() == forms.len() {
        lemma_all_matched(patterns, last, forms, value, 0, captures);
    }
}

proof fn lemma_entry(entries: Seq<EntryView>, from: int, place: int, key: Seq<char>)
    requires
        0 <= from <= place <= entries.len(),
        forall|i: int| from <= i < place ==> (#[trigger] entries[i]).key != key,
        place < entries.len() ==> entries[place].key == key,
    ensures
        query::entry_value(entries, from, key) == (if place < entries.len() {
            Some(entries[place].value)
        } else {
            None
        }),
    decreases place - from,
{
    if from < place {
        lemma_entry(entries, from + 1, place, key);
    }
}

/// The pattern of a mapping with one entry matches a mapping that has the key, with a
/// value that the entry's pattern matches.
pub proof fn law_mapping_patterns(
    key: Seq<char>,
    inner: PatternView,
    entries: Seq<EntryView>,
    place: int,
    captures: Captures,
)
    requires
        0 <= place <= entries.len(),
        forall|i: int| 0 <= i < place ==> (#[trigger] entries[i]).key != key,
        place < entries.len() ==> entries[place].key == key,
    ensures
        query::matched(PatternView::Mapping(Seq::empty()), FormView::Mapping(entries), captures) == Some(captures),
        query::matched(PatternView::Mapping(seq![(key, inner)]), FormView::Mapping(entries), captures) == (if place
            < entries.len() {
            query::matched(inner, entries[place].value, captures)
        } else {
            None
        }),
{
    lemma_entry(entries, 0, place, key);
    let patterns = seq![(key, inner)];
    assert(patterns[0] == (key, inner));
    assert(query::entries_matched(Seq::empty(), entries, 0, captures) == Some(captures));
    assert(query::matched(PatternView::Mapping(patterns), FormView::Mapping(entries), captures)
        == query::entries_matched(patterns, entries, 0, captures));
    if place < entries.len() {
        match query::matched(inner, entries[place].value, captures) {
            None => {}
            Some(captures) => assert(query::entries_matched(patterns, entries, 1, captures) == Some(captures)),
        }
    }
}

// Forms.

/// Forms are the same whichever is asked first.
pub proof fn law_sameness_is_mutual(left: FormView, right: FormView)
    ensures
        form::same_form(left, right) == form::same_form(right, left),
        left is Int || left is Bool || left is String || left is Null ==> form::same_form(left, right) == (left == right),
    decreases left, 1int,
{
    match (left, right) {
        (FormView::Sequence(one), FormView::Sequence(two)) => if one.len() == two.len() {
            lemma_same_forms(one, two, 0);
        },
        (FormView::Mapping(one), FormView::Mapping(two)) => if one.len() == two.len() {
            lemma_same_entries(one, two, 0);
        },
        _ => {}
    }
}

proof fn lemma_same_forms(left: Seq<FormView>, right: Seq<FormView>, from: int)
    requires
        left.len() == right.len(),
        0 <= from,
    ensures
        form::same_forms(left, right, from) == form::same_forms(right, left, from),
    decreases left, left.len() - from,
{
    if from < left.len() {
        law_sameness_is_mutual(left[from], right[from]);
        lemma_same_forms(left, right, from + 1);
    }
}

proof fn lemma_same_entries(left: Seq<EntryView>, right: Seq<EntryView>, from: int)
    requires
        left.len() == right.len(),
        0 <= from,
    ensures
        form::same_entries(left, right, from) == form::same_entries(right, left, from),
    decreases left, left.len() - from,
{
    if from < left.len() {
        law_sameness_is_mutual(left[from].value, right[from].value);
        lemma_same_entries(left, right, from + 1);
    }
}

/// Whether no mapping of a form has a key twice.
pub open spec fn keys_are_distinct(value: FormView) -> bool
    decreases value,
{
    match value {
        FormView::Sequence(forms) => forall|i: int| 0 <= i < forms.len() ==> keys_are_distinct(#[trigger] forms[i]),
        FormView::Mapping(entries) => (forall|i: int|
            0 <= i < entries.len() ==> keys_are_distinct((#[trigger] entries[i]).value)) && (forall|i: int, j: int|
            0 <= i < j < entries.len() ==> (#[trigger] entries[i]).key != (#[trigger] entries[j]).key),
        _ => true,
    }
}

/// A form that becomes a YAML value is read back from it as it was.
pub proof fn law_forms_survive_as_values(value: FormView)
    requires
        keys_are_distinct(value),
    ensures
        form::form_of_value(form::value_of_form(value)) == Ok::<FormView, CodeErrorView>(value),
    decreases value, 1int,
{
    match value {
        FormView::Sequence(forms) => {
            lemma_values(forms, 0, Seq::empty());
            let values = form::values_of_forms(forms, 0, Seq::empty());
            assert(forms.take(0) =~= Seq::<FormView>::empty());
            lemma_read_values(forms, values, 0, Seq::empty());
        }
        FormView::Mapping(entries) => {
            lemma_value_entries(entries, 0, Seq::empty());
            let values = form::values_of_entries(entries, 0, Seq::empty());
            assert(entries.take(0) =~= Seq::<EntryView>::empty());
            lemma_read_entries(entries, values, 0, Seq::empty());
        }
        _ => {}
    }
}

proof fn lemma_values(forms: Seq<FormView>, from: int, done: Seq<crate::yaml::view::YamlValueView>)
    requires
        done.len() == from <= forms.len(),
        forall|i: int| 0 <= i < from ==> #[trigger] done[i] == form::value_of_form(forms[i]),
    ensures
        form::values_of_forms(forms, from, done).len() == forms.len(),
        forall|i: int|
            0 <= i < forms.len() ==> #[trigger] form::values_of_forms(forms, from, done)[i] == form::value_of_form(forms[i]),
    decreases forms.len() - from,
{
    if from < forms.len() {
        lemma_values(forms, from + 1, done.push(form::value_of_form(forms[from])));
    }
}

proof fn lemma_read_values(
    forms: Seq<FormView>,
    values: Seq<crate::yaml::view::YamlValueView>,
    from: int,
    done: Seq<FormView>,
)
    requires
        done == forms.take(from),
        0 <= from <= forms.len() == values.len(),
        forall|i: int| 0 <= i < forms.len() ==> keys_are_distinct(#[trigger] forms[i]),
        forall|i: int| 0 <= i < forms.len() ==> #[trigger] values[i] == form::value_of_form(forms[i]),
    ensures
        form::forms_of_values(values, from, done) == Ok::<Seq<FormView>, CodeErrorView>(forms),
    decreases forms, forms.len() - from,
{
    if from < forms.len() {
        law_forms_survive_as_values(forms[from]);
        assert(values[from] == form::value_of_form(forms[from]));
        assert(done.push(forms[from]) =~= forms.take(from + 1));
        lemma_read_values(forms, values, from + 1, done.push(forms[from]));
    } else {
        assert(done =~= forms);
    }
}

spec fn entry_written(entry: EntryView) -> crate::yaml::view::YamlEntryView {
    crate::yaml::view::YamlEntryView {
        key: crate::yaml::view::YamlValueView::Text(entry.key),
        value: form::value_of_form(entry.value),
    }
}

proof fn lemma_no_key(done: Seq<crate::yaml::view::YamlEntryView>, from: int, key: Seq<char>)
    requires
        0 <= from <= done.len(),
        forall|i: int| 0 <= i < done.len() ==> (#[trigger] done[i]).key != crate::yaml::view::YamlValueView::Text(key),
    ensures
        crate::yaml::read::key_place(done, from, key) is None,
    decreases done.len() - from,
{
    if from < done.len() {
        lemma_no_key(done, from + 1, key);
    }
}

proof fn lemma_value_entries(entries: Seq<EntryView>, from: int, done: Seq<crate::yaml::view::YamlEntryView>)
    requires
        done.len() == from <= entries.len(),
        forall|i: int| 0 <= i < from ==> #[trigger] done[i] == entry_written(entries[i]),
        forall|i: int, j: int| 0 <= i < j < entries.len() ==> (#[trigger] entries[i]).key != (#[trigger] entries[j]).key,
    ensures
        form::values_of_entries(entries, from, done).len() == entries.len(),
        forall|i: int|
            0 <= i < entries.len() ==> #[trigger] form::values_of_entries(entries, from, done)[i] == entry_written(
                entries[i],
            ),
    decreases entries.len() - from,
{
    if from < entries.len() {
        assert forall|i: int| 0 <= i < done.len() implies (#[trigger] done[i]).key
            != crate::yaml::view::YamlValueView::Text(entries[from].key) by {
            assert(done[i] == entry_written(entries[i]));
            assert(entries[i].key != entries[from].key);
        }
        lemma_no_key(done, 0, entries[from].key);
        lemma_value_entries(entries, from + 1, done.push(entry_written(entries[from])));
    }
}

proof fn lemma_read_entries(
    entries: Seq<EntryView>,
    values: Seq<crate::yaml::view::YamlEntryView>,
    from: int,
    done: Seq<EntryView>,
)
    requires
        done == entries.take(from),
        0 <= from <= entries.len() == values.len(),
        forall|i: int| 0 <= i < entries.len() ==> keys_are_distinct((#[trigger] entries[i]).value),
        forall|i: int| 0 <= i < entries.len() ==> #[trigger] values[i] == entry_written(entries[i]),
    ensures
        form::forms_of_entries(values, from, done) == Ok::<Seq<EntryView>, CodeErrorView>(entries),
    decreases entries, entries.len() - from,
{
    if from < entries.len() {
        law_forms_survive_as_values(entries[from].value);
        assert(values[from] == entry_written(entries[from]));
        assert(done.push(entries[from]) =~= entries.take(from + 1));
        lemma_read_entries(entries, values, from + 1, done.push(entries[from]));
    } else {
        assert(done =~= entries);
    }
}

// Nodes below.

proof fn lemma_below_keeps(children: Seq<NodeView>, from: int, done: Seq<NodeView>, plain: bool, depth: nat)
    requires
        0 <= from <= children.len(),
    ensures
        query::descendants_of(children, from, done, plain, depth) matches Ok(all) ==> {
            &&& forall|node: NodeView| done.contains(node) ==> #[trigger] all.contains(node)
            &&& forall|i: int|
                from <= i < children.len() && !(plain && query::is_annotation(#[trigger] children[i])) ==> all.contains(
                    children[i],
                )
        },
    decreases depth, 1int, children.len() - from,
{
    if from < children.len() {
        if plain && query::is_annotation(children[from]) {
            lemma_below_keeps(children, from + 1, done, plain, depth);
        } else {
            let more = done.push(children[from]);
            assert(more.last() == children[from]);
            assert(more.contains(children[from])) by {
                assert(more[done.len() as int] == children[from]);
            }
            assert forall|node: NodeView| done.contains(node) implies #[trigger] more.contains(node) by {
                let i = choose|i: int| 0 <= i < done.len() && done[i] == node;
                assert(more[i] == node);
            }
            lemma_descendants_keep(children[from], more, plain, depth);
            match query::descendants(children[from], more, plain, depth) {
                Err(_) => {}
                Ok(below) => {
                    lemma_below_keeps(children, from + 1, below, plain, depth);
                    assert(below.contains(children[from]));
                }
            }
        }
    }
}

proof fn lemma_descendants_keep(node: NodeView, done: Seq<NodeView>, plain: bool, depth: nat)
    ensures
        query::descendants(node, done, plain, depth) matches Ok(all) ==> forall|other: NodeView|
            done.contains(other) ==> #[trigger] all.contains(other),
    decreases depth, 0int, 0int,
{
    if depth > 0 {
        match source::children_of(node) {
            Err(_) => {}
            Ok(children) => lemma_below_keeps(children, 0, done, plain, (depth - 1) as nat),
        }
    }
}

/// The nodes below a node hold all of its children, but for annotations where only
/// the plain ones are asked for, and what was there before.
pub proof fn law_children_are_below(node: NodeView, done: Seq<NodeView>, plain: bool, depth: nat, children: Seq<NodeView>)
    requires
        source::children_of(node) == Ok::<Seq<NodeView>, CodeErrorView>(children),
        query::descendants(node, done, plain, depth) is Ok,
    ensures
        forall|i: int|
            0 <= i < children.len() && !(plain && query::is_annotation(#[trigger] children[i])) ==> query::descendants(
                node,
                done,
                plain,
                depth,
            )->Ok_0.contains(children[i]),
        forall|other: NodeView|
            done.contains(other) ==> #[trigger] query::descendants(node, done, plain, depth)->Ok_0.contains(other),
{
    lemma_below_keeps(children, 0, done, plain, (depth - 1) as nat);
}

// The index.

/// A top-level entry is recorded under its key: as an import where it is one, as a
/// definition otherwise. Annotations are not.
pub proof fn law_top_level_entries_are_recorded(document: Seq<char>, entry: EntryView, found: Found)
    ensures
        crate::text::has_prefix(entry.key, "="@) ==> semantic::with_entry(document, entry, found) == found,
        !crate::text::has_prefix(entry.key, "="@) ==> {
            let after = semantic::with_entry(document, entry, found);
            &&& after.facts.len() == found.facts.len() + 1
            &&& after.facts.drop_last() == found.facts
            &&& after.facts.last().document == document
            &&& after.facts.last().symbol == entry.key
            &&& after.facts.last().path.segments == seq![SegmentView::Key(entry.key)]
            &&& semantic::import_of(entry.value) is Some ==> after.facts.last().kind == SemanticKind::Import
            &&& semantic::import_of(entry.value) is None ==> after.facts.last().kind == SemanticKind::Definition
                && after.facts.last().target_document == Some(document) && after.imports == found.imports
        },
{
    let after = semantic::with_entry(document, entry, found);
    if !crate::text::has_prefix(entry.key, "="@) {
        assert(after.facts.drop_last() =~= found.facts);
    }
}

proof fn lemma_name(names: Seq<Seq<char>>, from: int, name: Seq<char>)
    requires
        0 <= from <= names.len(),
    ensures
        semantic::with_name(names, from, name).contains(name),
        forall|other: Seq<char>| names.contains(other) ==> #[trigger] semantic::with_name(names, from, name).contains(other),
        forall|other: Seq<char>| #[trigger] semantic::with_name(names, from, name).contains(other) ==> other == name
            || names.contains(other),
    decreases names.len() - from,
{
    let after = semantic::with_name(names, from, name);
    if from < names.len() && names[from] != name && crate::text::precedes(names[from], name) {
        lemma_name(names, from + 1, name);
    } else if from < names.len() && names[from] == name {
        assert(names.contains(name));
    } else if from < names.len() {
        assert(after[from] == name);
        assert forall|other: Seq<char>| names.contains(other) implies #[trigger] after.contains(other) by {
            let i = choose|i: int| 0 <= i < names.len() && names[i] == other;
            assert(after[if i < from { i } else { i + 1 }] == other);
        }
    } else {
        assert(after[names.len() as int] == name);
        assert forall|other: Seq<char>| names.contains(other) implies #[trigger] after.contains(other) by {
            let i = choose|i: int| 0 <= i < names.len() && names[i] == other;
            assert(after[i] == other);
        }
    }
}

/// The names of a document are the keys of its top-level entries, but for those of
/// annotations.
pub proof fn law_documents_define_their_keys(document: Seq<char>, entries: Seq<EntryView>, from: int, found: Found)
    requires
        0 <= from <= entries.len(),
    ensures
        forall|name: Seq<char>| #[trigger]
            semantic::with_entries(document, entries, from, found).names.contains(name) == (found.names.contains(name)
                || exists|i: int|
                from <= i < entries.len() && (#[trigger] entries[i]).key == name && !crate::text::has_prefix(name, "="@)),
    decreases entries.len() - from,
{
    if from < entries.len() {
        let next = semantic::with_entry(document, entries[from], found);
        law_documents_define_their_keys(document, entries, from + 1, next);
        lemma_name(found.names, 0, entries[from].key);
        assert forall|name: Seq<char>| #[trigger]
            semantic::with_entries(document, entries, from, found).names.contains(name) == (found.names.contains(name)
                || exists|i: int|
                from <= i < entries.len() && (#[trigger] entries[i]).key == name && !crate::text::has_prefix(name, "="@)) by {
            assert(next.names.contains(name) == (found.names.contains(name) || (entries[from].key == name
                && !crate::text::has_prefix(name, "="@)))) by {
                if !crate::text::has_prefix(entries[from].key, "="@) {
                    assert(next.names == semantic::with_name(found.names, 0, entries[from].key));
                    assert(semantic::with_name(found.names, 0, entries[from].key).contains(name) ==> name
                        == entries[from].key || found.names.contains(name));
                }
            }
            let later = semantic::with_entries(document, entries, from + 1, next);
            assert(later.names.contains(name) == (next.names.contains(name) || exists|i: int|
                from + 1 <= i < entries.len() && (#[trigger] entries[i]).key == name && !crate::text::has_prefix(
                    name,
                    "="@,
                )));
            if entries[from].key == name && !crate::text::has_prefix(name, "="@) {
                assert(from <= from < entries.len());
            }
            if exists|i: int|
                from <= i < entries.len() && (#[trigger] entries[i]).key == name && !crate::text::has_prefix(name, "="@) {
                let i = choose|i: int|
                    from <= i < entries.len() && (#[trigger] entries[i]).key == name && !crate::text::has_prefix(name, "="@);
                if i > from {
                    assert(from + 1 <= i);
                }
            }
        }
    }
}

/// A key that starts with a dollar sign is a call of what it names, a text that does is
/// a reference to it, and other nodes are neither.
pub proof fn law_dollars_mark_references(document: Seq<char>, node: NodeView, key: Seq<char>, imports: Seq<ImportLinkView>)
    requires
        node.locator.path.segments.len() > 0,
        node.locator.path.segments.last() == SegmentView::Key(key),
    ensures
        crate::text::has_prefix(key, "$"@) ==> (semantic::reference_fact(document, node, imports) matches Some(fact)
            && fact.kind == SemanticKind::Call && fact.path == node.locator.path && fact.document == document
            && fact.symbol == semantic::without_dollars(key)),
        !crate::text::has_prefix(key, "$"@) ==> (match node.form {
            FormView::String(text) => if crate::text::has_prefix(text, "$"@) {
                semantic::reference_fact(document, node, imports) matches Some(fact) && fact.kind
                    == SemanticKind::Reference && fact.path == node.locator.path && fact.document == document
                    && fact.symbol == semantic::without_dollars(text)
            } else {
                semantic::reference_fact(document, node, imports) is None
            },
            _ => semantic::reference_fact(document, node, imports) is None,
        }),
{
    match node.form {
        FormView::String(text) => if key == text {
            assert(crate::text::has_prefix(key, "$"@) == crate::text::has_prefix(text, "$"@));
        },
        _ => {}
    }
}

/// Facts are selected by kind and symbol: those that fit, all of them, in order.
pub proof fn law_facts_are_selected_by_kind_and_symbol(
    facts: Seq<SemanticFactView>,
    from: int,
    kind: Option<SemanticKind>,
    symbol: Option<Seq<char>>,
    done: Seq<SemanticFactView>,
    fact: SemanticFactView,
)
    requires
        0 <= from <= facts.len(),
    ensures
        semantic::facts_for(facts, from, kind, symbol, done).contains(fact) == (done.contains(fact) || (
        facts.skip(from).contains(fact) && (kind is None || kind == Some(fact.kind)) && (symbol is None || symbol == Some(
            fact.symbol,
        )))),
    decreases facts.len() - from,
{
    if from < facts.len() {
        let here = facts[from];
        let more = if semantic::fits(here, kind, symbol) {
            done.push(here)
        } else {
            done
        };
        law_facts_are_selected_by_kind_and_symbol(facts, from + 1, kind, symbol, more, fact);
        assert(more.contains(fact) == (done.contains(fact) || (semantic::fits(here, kind, symbol) && fact == here))) by {
            if done.contains(fact) {
                let i = choose|i: int| 0 <= i < done.len() && done[i] == fact;
                assert(more[i] == fact);
            }
            if semantic::fits(here, kind, symbol) && fact == here {
                assert(more[done.len() as int] == fact);
            }
        }
        assert(facts.skip(from).contains(fact) == (fact == here || facts.skip(from + 1).contains(fact))) by {
            let rest = facts.skip(from);
            let later = facts.skip(from + 1);
            assert(rest[0] == here);
            if rest.contains(fact) {
                let i = choose|i: int| 0 <= i < rest.len() && rest[i] == fact;
                if i > 0 {
                    assert(later[i - 1] == fact);
                }
            }
            if later.contains(fact) {
                let i = choose|i: int| 0 <= i < later.len() && later[i] == fact;
                assert(rest[i + 1] == fact);
            }
        }
    }
}

// Renaming.

proof fn lemma_rename_push(
    nodes: Seq<NodeView>,
    last: NodeView,
    from: int,
    old_prefix: Seq<char>,
    new_prefix: Seq<char>,
    edits: Seq<EditView>,
)
    requires
        0 <= from <= nodes.len(),
    ensures
        semantic::rename_edits(nodes.push(last), from, old_prefix, new_prefix, edits) == semantic::rename_edits(
            seq![last],
            0,
            old_prefix,
            new_prefix,
            semantic::rename_edits(nodes, from, old_prefix, new_prefix, edits),
        ),
    decreases nodes.len() - from,
{
    let all = nodes.push(last);
    let one = seq![last];
    let node = if from < nodes.len() {
        nodes[from]
    } else {
        last
    };
    assert(all[from] == node);
    assert(one[0] == last);
    let more = match semantic::reference_of(node) {
        None => edits,
        Some(reference) => match semantic::renamed_reference(reference, old_prefix, new_prefix) {
            None => edits,
            Some(renamed) => edits.push(semantic::rename_edit(node, reference, renamed)),
        },
    };
    if from < nodes.len() {
        lemma_rename_push(nodes, last, from + 1, old_prefix, new_prefix, more);
    } else {
        assert(semantic::rename_edits(all, from + 1, old_prefix, new_prefix, more) == more);
        assert(semantic::rename_edits(one, 1, old_prefix, new_prefix, more) == more);
    }
}

/// Every node that refers to what is renamed is edited, in order, and no other: where
/// the reference is the key of the node the key is renamed, else its text is replaced.
pub proof fn law_every_reference_is_renamed(
    nodes: Seq<NodeView>,
    last: NodeView,
    old_prefix: Seq<char>,
    new_prefix: Seq<char>,
    edits: Seq<EditView>,
)
    ensures
        semantic::rename_edits(nodes.push(last), 0, old_prefix, new_prefix, edits) == ({
            let before = semantic::rename_edits(nodes, 0, old_prefix, new_prefix, edits);
            match semantic::reference_of(last) {
                None => before,
                Some(reference) => match semantic::renamed_reference(reference, old_prefix, new_prefix) {
                    None => before,
                    Some(renamed) => before.push(
                        if last.locator.path.segments.len() > 0 && last.locator.path.segments.last()
                            == SegmentView::Key(reference) {
                            EditView::RenameMappingKey { target: last.locator, new_key: renamed }
                        } else {
                            EditView::Replace { target: last.locator, value: FormView::String(renamed) }
                        },
                    ),
                },
            }
        }),
{
    lemma_rename_push(nodes, last, 0, old_prefix, new_prefix, edits);
    let one = seq![last];
    let before = semantic::rename_edits(nodes, 0, old_prefix, new_prefix, edits);
    assert(one[0] == last);
    let more = match semantic::reference_of(last) {
        None => before,
        Some(reference) => match semantic::renamed_reference(reference, old_prefix, new_prefix) {
            None => before,
            Some(renamed) => before.push(semantic::rename_edit(last, reference, renamed)),
        },
    };
    assert(semantic::rename_edits(one, 1, old_prefix, new_prefix, more) == more);
}

/// A reference is renamed where it is the old name, or goes on behind it with a dot;
/// what is behind stays.
pub proof fn law_renaming_goes_by_whole_names(reference: Seq<char>, old_name: Seq<char>, new_name: Seq<char>, rest: Seq<char>)
    requires
        !crate::execute::strings::has_suffix(old_name, "."@),
    ensures
        semantic::renamed_reference(old_name, old_name, new_name) == Some(new_name),
        reference == old_name + "."@ + rest ==> semantic::renamed_reference(reference, old_name, new_name) == Some(
            new_name + "."@ + rest,
        ),
        semantic::renamed_reference(reference, old_name, new_name) is Some ==> reference == old_name
            || crate::text::has_prefix(reference, old_name + "."@),
{
    reveal_strlit(".");
    if reference == old_name + "."@ + rest {
        let prefix = old_name + "."@;
        assert(reference.len() > old_name.len());
        assert(reference.take(prefix.len() as int) =~= prefix);
        assert(reference.subrange(0, prefix.len() as int) =~= prefix);
        assert(reference.skip(prefix.len() as int) =~= rest);
    }
}

/// A symbol is renamed where it is defined and its new name is free; the key of its
/// definition is renamed last, behind the references.
pub proof fn law_definitions_are_renamed_last(
    index: SemanticIndexView,
    database: SourceDatabaseView,
    path: Seq<char>,
    old_name: Seq<char>,
    new_name: Seq<char>,
)
    ensures
        semantic::symbol_renamed(index, database, path, old_name, new_name) matches Ok(edits) ==> {
            &&& edits.len() > 0
            &&& edits.last() matches EditView::RenameMappingKey { target, new_key } && new_key == new_name
                && target.path.segments == seq![SegmentView::Key(old_name)]
            &&& semantic::is_symbol_name(new_name)
            &&& semantic::names_of(index.definitions, 0, crate::code::workspace_path::resolved_path(path)) matches Some(
                names,
            ) && names.contains(old_name) && !names.contains(new_name)
        },
{
    if semantic::symbol_renamed(index, database, path, old_name, new_name) is Ok {
        let document = crate::code::workspace_path::resolved_path(path);
        let found = source::document_in(database, document)->Ok_0;
        let node = source::node_of(found, semantic::top_level_path(old_name))->Ok_0;
        assert(node.locator.path == semantic::top_level_path(old_name));
    }
}

} // verus!
