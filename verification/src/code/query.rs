//! Structural queries over documents.
use vstd::prelude::*;
use crate::code::copy;
use crate::code::form::fail;
use crate::code::model::{
    CodeError, CodeErrorKind, DocumentSnapshot, Form, Node, NodeKind, Path, Pattern, Query, QueryMatch, Segment,
};
use crate::code::source::NESTING_LIMIT;
use crate::code::view::{
    self, CodeErrorView, DocumentSnapshotView, EntryView, FormView, NodeView, PatternView, QueryMatchView, QueryView,
    SegmentView,
};
use crate::text::{same_text, starts_with, text_precedes};

verus! {

// The nodes below a node.

/// Whether a node is the value of an annotation.
pub open spec fn is_annotation(node: NodeView) -> bool {
    match crate::code::path::last_of(node.locator.path) {
        Some(SegmentView::Key(key)) => crate::text::has_prefix(key, "="@),
        _ => false,
    }
}

fn annotation(node: &Node) -> (result: bool)
    ensures
        result == is_annotation(view::code_node(*node)),
{
    match node.locator.path.last() {
        Some(Segment::Key(key)) => starts_with(key.as_str(), "="),
        _ => false,
    }
}

/// The nodes below a node, each before what is below it. Annotations are left
/// out where `plain` is set.
pub open spec fn descendants(node: NodeView, done: Seq<NodeView>, plain: bool, depth: nat) -> Result<
Seq<NodeView>,
CodeErrorView,
>
    decreases depth, 0int, 0int,
{
    if depth == 0 {
        Err(crate::code::source::too_deep())
    } else {
        match crate::code::source::children_of(node) {
            Err(error) => Err(error),
            Ok(children) => {
                descendants_of(children, 0, done, plain, (depth - 1) as nat)

            },
        }
    }
}

pub open spec fn descendants_of(
    children: Seq<NodeView>,
    from: int,
    done: Seq<NodeView>,
    plain: bool,
    depth: nat,
) -> Result<
Seq<NodeView>,
CodeErrorView,
>
    decreases depth, 1int, children.len() - from,
{
    if from < 0 || from >= children.len() {
        Ok(done)
    } else if plain && is_annotation(children[from]) {
        descendants_of(children, from + 1, done, plain, depth)
    } else {
        match descendants(children[from], done.push(children[from]), plain, depth) {
            Err(error) => Err(error),
            Ok(below) => {
                descendants_of(children, from + 1, below, plain, depth)

            },
        }
    }
}

/// Adds the nodes below a node to a list.
pub(crate) fn collect_descendants(node: &Node, output: Vec<Node>, plain: bool, depth: usize) -> (result: Result<
    Vec<Node>,
    CodeError,
    >)
    ensures
        crate::code::source::nodes_outcome(result) == descendants(
            view::code_node(*node),
            view::code_nodes(output@),
            plain,
            depth as nat,
        ),
    decreases depth,
{
    if depth == 0 {
        return Err(fail(CodeErrorKind::InvalidSource, "source document is nested too deeply"));
    }
    let children = match node.children() {
        Ok(value) => value,
        Err(error) => return Err(error),
    };
    let ghost all = view::code_nodes(children@);
    let ghost first = view::code_nodes(output@);
    let mut done = output;
    let mut i: usize = 0;
    while i < children.len()
        invariant
            0 < depth,
            i <= children.len(),
            all == view::code_nodes(children@),
            first == view::code_nodes(output@),
            descendants(view::code_node(*node), first, plain, depth as nat) == descendants_of(
                all,
                i as int,
                view::code_nodes(done@),
                plain,
                (depth - 1) as nat,
            ),
        decreases children.len() - i,
    {
        assert(all[i as int] == view::code_node(children@[i as int]));
        if plain && annotation(&children[i]) {
        } else {
            let ghost before = done@;
            done.push(copy::code_node(&children[i]));
            proof {
                view::lemma_code_nodes_push(before, done@.last());
            }
            let below = match collect_descendants(&children[i], done, plain, depth - 1) {
                Ok(value) => value,
                Err(error) => return Err(error),
            };
            done = below;
        }
        i += 1;
    }
    Ok(done)
}

// Patterns.

pub open spec fn form_kind(form: FormView) -> NodeKind {
    match form {
        FormView::Sequence(_) => NodeKind::Sequence,
        FormView::Mapping(_) => NodeKind::Mapping,
        _ => NodeKind::Scalar,
    }
}

fn kind_of_form(form: &Form) -> (kind: NodeKind)
    ensures
        kind == form_kind(view::form(*form)),
{
    match form {
        Form::Sequence(_) => NodeKind::Sequence,
        Form::Mapping(_) => NodeKind::Mapping,
        _ => NodeKind::Scalar,
    }
}

/// What patterns captured, in the order of the names.
pub type Captures = Seq<(Seq<char>, FormView)>;

/// A capture put in its place, or instead of one of the same name.
pub open spec fn with_capture(captures: Captures, from: int, name: Seq<char>, form: FormView) -> Captures
    decreases captures.len() - from,
{
    if from < 0 || from >= captures.len() {
        captures.push((name, form))
    } else if captures[from].0 == name {
        captures.update(from, (name, form))
    } else if crate::text::precedes(captures[from].0, name) {
        with_capture(captures, from + 1, name, form)
    } else {
        captures.insert(from, (name, form))
    }
}

fn add_capture(captures: &mut Vec<(String, Form)>, name: &String, form: &Form)
    ensures
        view::text_form_pairs(final(captures)@) == with_capture(
            view::text_form_pairs(old(captures)@),
            0,
            name@,
            view::form(*form),
        ),
{
    let ghost before = captures@;
    let ghost all = view::text_form_pairs(before);
    let pair = (name.clone(), copy::form(form));
    let ghost added = (name@, view::form(*form));
    let mut i: usize = 0;
    while i < captures.len()
        invariant
            i <= captures.len(),
            captures@ == before,
            before == old(captures)@,
            all == view::text_form_pairs(before),
            added == (pair.0@, view::form(pair.1)),
            added == (name@, view::form(*form)),
            with_capture(all, 0, name@, added.1) == with_capture(all, i as int, name@, added.1),
        decreases captures.len() - i,
    {
        assert(all[i as int] == (captures@[i as int].0@, view::form(captures@[i as int].1)));
        if same_text(captures[i].0.as_str(), name.as_str()) {
            captures.set(i, pair);
            proof {
                lemma_set(before, i as int, pair);
            }
            return;
        }
        if !text_precedes(captures[i].0.as_str(), name.as_str()) {
            captures.insert(i, pair);
            proof {
                lemma_insert(before, i as int, pair);
            }
            return;
        }
        i += 1;
    }
    captures.push(pair);
    proof {
        view::lemma_text_form_pairs_push(before, pair);
    }
}

proof fn lemma_set(pairs: Seq<(String, Form)>, place: int, pair: (String, Form))
    requires
        0 <= place < pairs.len(),
    ensures
        view::text_form_pairs(pairs.update(place, pair)) == view::text_form_pairs(pairs).update(
            place,
            (pair.0@, view::form(pair.1)),
        ),
{
    let found = view::text_form_pairs(pairs.update(place, pair));
    let expected = view::text_form_pairs(pairs).update(place, (pair.0@, view::form(pair.1)));
    assert forall|i: int| 0 <= i < found.len() implies found[i] == expected[i] by {
        assert(view::text_form_pairs(pairs)[i] == (pairs[i].0@, view::form(pairs[i].1)));
    }
    assert(found =~= expected);
}

proof fn lemma_insert(pairs: Seq<(String, Form)>, place: int, pair: (String, Form))
    requires
        0 <= place <= pairs.len(),
    ensures
        view::text_form_pairs(pairs.insert(place, pair)) == view::text_form_pairs(pairs).insert(
            place,
            (pair.0@, view::form(pair.1)),
        ),
{
    let after = pairs.insert(place, pair);
    let found = view::text_form_pairs(after);
    let expected = view::text_form_pairs(pairs).insert(place, (pair.0@, view::form(pair.1)));
    assert forall|i: int| 0 <= i < found.len() implies found[i] == expected[i] by {
        assert(found[i] == (after[i].0@, view::form(after[i].1)));
        if i < place {
            assert(view::text_form_pairs(pairs)[i] == (pairs[i].0@, view::form(pairs[i].1)));
        } else if i > place {
            assert(view::text_form_pairs(pairs)[i - 1] == (pairs[i - 1].0@, view::form(pairs[i - 1].1)));
        }
    }
    assert(found =~= expected);
}

/// The value of the first entry with a key.
pub open spec fn entry_value(entries: Seq<EntryView>, from: int, key: Seq<char>) -> Option<FormView>
    decreases entries.len() - from,
{
    if from < 0 || from >= entries.len() {
        None
    } else if entries[from].key == key {
        Some(entries[from].value)
    } else {
        entry_value(entries, from + 1, key)
    }
}

fn find_entry<'a>(entries: &'a Vec<crate::code::model::Entry>, key: &str) -> (value: Option<&'a Form>)
    ensures
        entry_value(view::entries(entries@), 0, key@) == (match value {
                Some(value) => Some(view::form(*value)),
                None => None,
        }),
{
    let ghost all = view::entries(entries@);
    let mut i: usize = 0;
    while i < entries.len()
        invariant
            i <= entries.len(),
            all == view::entries(entries@),
            entry_value(all, 0, key@) == entry_value(all, i as int, key@),
        decreases entries.len() - i,
    {
        assert(all[i as int] == view::entry(entries@[i as int]));
        if same_text(entries[i].key.as_str(), key) {
            return Some(&entries[i].value);
        }
        i += 1;
    }
    None
}

/// What a pattern captures of a form that it matches.
pub open spec fn matched(pattern: PatternView, form: FormView, captures: Captures) -> Option<Captures>
    decreases pattern, 0int,
{
    match pattern {
        PatternView::Any => Some(captures),
        PatternView::Exact(expected) => if crate::code::form::same_form(expected, form) {
            Some(captures)
        } else {
            None
        },
        PatternView::Capture { name, pattern } => {
            match matched(*pattern, form, captures) {
                None => None,
                Some(captures) => {
                    Some(with_capture(captures, 0, name, form))

                },
            }
        },
        PatternView::Kind(kind) => if form_kind(form) == kind {
            Some(captures)
        } else {
            None
        },
        PatternView::Sequence(patterns) => match form {
            FormView::Sequence(forms) => if patterns.len() == forms.len() {
                all_matched(patterns, forms, 0, captures)
            } else {
                None
            },
            _ => None,
        },
        PatternView::Mapping(patterns) => match form {
            FormView::Mapping(entries) => entries_matched(patterns, entries, 0, captures),
            _ => None,
        },
    }
}

pub open spec fn all_matched(
    patterns: Seq<PatternView>,
    forms: Seq<FormView>,
    from: int,
    captures: Captures,
) -> Option<
Captures,
>
    decreases patterns, patterns.len() - from,
{
    if from < 0 || from >= patterns.len() {
        Some(captures)
    } else {
        match matched(patterns[from], forms[from], captures) {
            None => None,
            Some(captures) => {
                all_matched(patterns, forms, from + 1, captures)

            },
        }
    }
}

pub open spec fn entries_matched(
    patterns: Seq<(Seq<char>, PatternView)>,
    entries: Seq<EntryView>,
    from: int,
    captures: Captures,
) -> Option<Captures>
    decreases patterns, patterns.len() - from,
{
    if from < 0 || from >= patterns.len() {
        Some(captures)
    } else {
        match entry_value(entries, 0, patterns[from].0) {
            None => None,
            Some(value) => {
                match matched(patterns[from].1, value, captures) {
                    None => None,
                    Some(captures) => {
                        entries_matched(patterns, entries, from + 1, captures)

                    },
                }

            },
        }
    }
}

pub open spec fn captures_option(captures: Option<Vec<(String, Form)>>) -> Option<Captures> {
    match captures {
        Some(captures) => Some(view::text_form_pairs(captures@)),
        None => None,
    }
}

fn match_all(patterns: &Vec<Pattern>, forms: &Vec<Form>, captures: Vec<(String, Form)>) -> (result: Option<
    Vec<(String, Form)>,
    >)
    requires
        patterns@.len() == forms@.len(),
    ensures
        captures_option(result) == all_matched(
            view::patterns(patterns@),
            view::forms(forms@),
            0,
            view::text_form_pairs(captures@),
        ),
    decreases patterns,
{
    let ghost all = view::patterns(patterns@);
    let ghost against = view::forms(forms@);
    let ghost first = view::text_form_pairs(captures@);
    let mut done = captures;
    let mut i: usize = 0;
    while i < patterns.len()
        invariant
            i <= patterns.len(),
            patterns@.len() == forms@.len(),
            all == view::patterns(patterns@),
            against == view::forms(forms@),
            first == view::text_form_pairs(captures@),
            all_matched(all, against, 0, first) == all_matched(all, against, i as int, view::text_form_pairs(done@)),
        decreases patterns.len() - i,
    {
        assert(all[i as int] == view::pattern(patterns@[i as int]));
        assert(against[i as int] == view::form(forms@[i as int]));
        let next = match pattern_matches(&patterns[i], &forms[i], done) {
            Some(value) => value,
            None => return None,
        };
        done = next;
        i += 1;
    }
    Some(done)
}

fn match_entries(
    patterns: &Vec<(String, Pattern)>,
    entries: &Vec<crate::code::model::Entry>,
    captures: Vec<(String, Form)>,
) -> (result: Option<Vec<(String, Form)>>)
    ensures
        captures_option(result) == entries_matched(
            view::text_pattern_pairs(patterns@),
            view::entries(entries@),
            0,
            view::text_form_pairs(captures@),
        ),
    decreases patterns,
{
    let ghost all = view::text_pattern_pairs(patterns@);
    let ghost against = view::entries(entries@);
    let ghost first = view::text_form_pairs(captures@);
    let mut done = captures;
    let mut i: usize = 0;
    while i < patterns.len()
        invariant
            i <= patterns.len(),
            all == view::text_pattern_pairs(patterns@),
            against == view::entries(entries@),
            first == view::text_form_pairs(captures@),
            entries_matched(all, against, 0, first) == entries_matched(
                all,
                against,
                i as int,
                view::text_form_pairs(done@),
            ),
        decreases patterns.len() - i,
    {
        assert(all[i as int] == (patterns@[i as int].0@, view::pattern(patterns@[i as int].1)));
        let value = match find_entry(entries, patterns[i].0.as_str()) {
            Some(value) => value,
            None => return None,
        };
        let next = match pattern_matches(&patterns[i].1, value, done) {
            Some(value) => value,
            None => return None,
        };
        done = next;
        i += 1;
    }
    Some(done)
}

/// Matches a pattern, adding to what was captured before.
pub fn pattern_matches(pattern: &Pattern, form: &Form, captures: Vec<(String, Form)>) -> (result: Option<
    Vec<(String, Form)>,
    >)
    ensures
        captures_option(result) == matched(
            view::pattern(*pattern),
            view::form(*form),
            view::text_form_pairs(captures@),
        ),
    decreases pattern,
{
    match pattern {
        Pattern::Any => Some(captures),
        Pattern::Exact(expected) => if expected.same(form) {
            Some(captures)
        } else {
            None
        },
        Pattern::Capture { name, pattern } => {
            let inner = match pattern_matches(pattern, form, captures) {
                Some(value) => value,
                None => return None,
            };
            let mut done = inner;
            add_capture(&mut done, name, form);
            Some(done)
        }
        Pattern::Kind(kind) => if kind_of_form(form) == *kind {
            Some(captures)
        } else {
            None
        },
        Pattern::Sequence(patterns) => match form {
            Form::Sequence(forms) => {
                assert(
                    view::patterns(patterns@).len() == patterns@.len() && view::forms(forms@).len() == forms@.len()
                );
                if patterns.len() == forms.len() {
                    match_all(patterns, forms, captures)
                } else {
                    None
                }
            }
            _ => None,
        },
        Pattern::Mapping(patterns) => match form {
            Form::Mapping(entries) => match_entries(patterns, entries, captures),
            _ => None,
        },
    }
}

impl Pattern {
    pub fn capture(name: String, pattern: Pattern) -> (result: Pattern)
        ensures
            view::pattern(result) == (
                PatternView::Capture { name: name@, pattern: Box::new(view::pattern(pattern)) }
            ),
    {
        Pattern::Capture { name, pattern: Box::new(pattern) }
    }
}

// Queries.

pub open spec fn descendants_query(root: crate::code::view::PathView) -> QueryView {
    QueryView { root, include_root: false, mapping_key: None, kind: None, pattern: None, limit: None }
}

/// What a query captures of a node that it accepts.
pub open spec fn accepted(query: QueryView, node: NodeView) -> Option<Captures> {
    if query.mapping_key is Some && crate::code::path::last_of(node.locator.path) != Some(
        SegmentView::Key(query.mapping_key->Some_0),
    ) {
        None
    } else if query.kind is Some && node.kind != query.kind->Some_0 {
        None
    } else {
        match query.pattern {
            Some(pattern) => matched(pattern, node.form, Seq::empty()),
            None => Some(Seq::empty()),
        }
    }
}

/// The matches among candidates, up to the limit.
pub open spec fn selected(query: QueryView, nodes: Seq<NodeView>, from: int, done: Seq<QueryMatchView>) -> Seq<
QueryMatchView,
>
    decreases nodes.len() - from,
{
    if from < 0 || from >= nodes.len() {
        done
    } else {
        match accepted(query, nodes[from]) {
            None => selected(query, nodes, from + 1, done),
            Some(captures) => {
                let more = done.push(QueryMatchView { node: nodes[from], captures });
                if query.limit is Some && more.len() >= query.limit->Some_0 {
                    more
                } else {
                    selected(query, nodes, from + 1, more)
                }
            },
        }
    }
}

/// The matches of a query in a document.
pub open spec fn found(query: QueryView, document: DocumentSnapshotView) -> Result<Seq<QueryMatchView>, CodeErrorView> {
    match crate::code::source::node_of(document, query.root) {
        Err(error) => Err(error),
        Ok(root) => {
            match descendants(root, if query.include_root {
                    seq![root]
                } else {
                    Seq::empty()
                }, false, NESTING_LIMIT as nat) {
                Err(error) => Err(error),
                Ok(nodes) => {
                    Ok(selected(query, nodes, 0, Seq::empty()))

                },
            }

        },
    }
}

impl Query {
    pub fn descendants(root: Path) -> (query: Query)
        ensures
            view::query(query) == descendants_query(view::path(root)),
    {
        Query { root, include_root: false, mapping_key: None, kind: None, pattern: None, limit: None }
    }

    pub fn subtree(root: Path) -> (query: Query)
        ensures
            view::query(query) == (QueryView { include_root: true, ..descendants_query(view::path(root)) }),
    {
        Query { root, include_root: true, mapping_key: None, kind: None, pattern: None, limit: None }
    }

    pub fn with_mapping_key(self, key: String) -> (query: Query)
        ensures
            view::query(query) == (QueryView { mapping_key: Some(key@), ..view::query(self) }),
    {
        Query {
            root: self.root,
            include_root: self.include_root,
            mapping_key: Some(key),
            kind: self.kind,
            pattern: self.pattern,
            limit: self.limit,
        }
    }

    pub fn with_kind(self, kind: NodeKind) -> (query: Query)
        ensures
            view::query(query) == (QueryView { kind: Some(kind), ..view::query(self) }),
    {
        Query {
            root: self.root,
            include_root: self.include_root,
            mapping_key: self.mapping_key,
            kind: Some(kind),
            pattern: self.pattern,
            limit: self.limit,
        }
    }

    pub fn with_pattern(self, pattern: Pattern) -> (query: Query)
        ensures
            view::query(query) == (QueryView { pattern: Some(view::pattern(pattern)), ..view::query(self) }),
    {
        Query {
            root: self.root,
            include_root: self.include_root,
            mapping_key: self.mapping_key,
            kind: self.kind,
            pattern: Some(pattern),
            limit: self.limit,
        }
    }

    pub fn with_limit(self, limit: usize) -> (query: Query)
        ensures
            view::query(query) == (QueryView { limit: Some(limit), ..view::query(self) }),
    {
        Query {
            root: self.root,
            include_root: self.include_root,
            mapping_key: self.mapping_key,
            kind: self.kind,
            pattern: self.pattern,
            limit: Some(limit),
        }
    }

    /// What the query captures of a node that it accepts.
    pub fn accept(&self, node: &Node) -> (result: Option<Vec<(String, Form)>>)
        ensures
            captures_option(result) == accepted(view::query(*self), view::code_node(*node)),
    {
        let captures: Vec<(String, Form)> = Vec::new();
        assert(view::text_form_pairs(captures@) =~= Seq::<(Seq<char>, FormView)>::empty());
        match &self.mapping_key {
            Some(key) => {
                let same = match node.locator.path.last() {
                    Some(Segment::Key(last)) => same_text(last.as_str(), key.as_str()),
                    _ => false,
                };
                if !same {
                    return None;
                }
            }
            None => {}
        }
        match self.kind {
            Some(kind) => if node.kind != kind {
                return None;
            },
            None => {}
        }
        match &self.pattern {
            Some(pattern) => pattern_matches(pattern, &node.form, captures),
            None => Some(captures),
        }
    }

    /// The matches in a document.
    pub fn execute(&self, document: &DocumentSnapshot) -> (result: Result<Vec<QueryMatch>, CodeError>)
        ensures
            found(view::query(*self), view::document_snapshot(*document)) == (match result {
                    Ok(matches) => Ok(view::query_matches(matches@)),
                    Err(error) => Err(view::code_error(error)),
            }),
    {
        let root = match document.at(&self.root) {
            Ok(value) => value,
            Err(error) => return Err(error),
        };
        let ghost top = view::code_node(root);
        let mut candidates: Vec<Node> = Vec::new();
        assert(view::code_nodes(candidates@) =~= Seq::<NodeView>::empty());
        if self.include_root {
            candidates.push(copy::code_node(&root));
            assert(view::code_nodes(candidates@) =~= seq![top]);
        }
        let nodes = match collect_descendants(&root, candidates, false, NESTING_LIMIT) {
            Ok(value) => value,
            Err(error) => return Err(error),
        };
        let ghost query = view::query(*self);
        let ghost all = view::code_nodes(nodes@);
        let mut matches: Vec<QueryMatch> = Vec::new();
        assert(view::query_matches(matches@) =~= Seq::<QueryMatchView>::empty());
        let mut i: usize = 0;
        while i < nodes.len()
            invariant
                i <= nodes.len(),
                query == view::query(*self),
                all == view::code_nodes(nodes@),
                selected(query, all, 0, Seq::empty()) == selected(
                    query,
                    all,
                    i as int,
                    view::query_matches(matches@),
                ),
                found(query, view::document_snapshot(*document)) == Ok::<Seq<QueryMatchView>, CodeErrorView>(
                    selected(query, all, 0, Seq::empty()),
                ),
            decreases nodes.len() - i,
        {
            assert(all[i as int] == view::code_node(nodes@[i as int]));
            match self.accept(&nodes[i]) {
                None => {}
                Some(captures) => {
                    let ghost before = matches@;
                    matches.push(QueryMatch { node: copy::code_node(&nodes[i]), captures });
                    proof {
                        view::lemma_query_matches_push(before, matches@.last());
                        assert(view::query_matches(matches@).len() == matches@.len());
                    }
                    match self.limit {
                        Some(limit) => if matches.len() >= limit {
                            return Ok(matches);
                        },
                        None => {}
                    }
                }
            }
            i += 1;
        }
        Ok(matches)
    }
}

// Laws.

/// Every match is a candidate that the query accepts, with what it captured,
/// and no more come out than the limit allows.
pub proof fn law_matches_are_accepted(query: QueryView, nodes: Seq<NodeView>)
    ensures
        ({
                let matches = selected(query, nodes, 0, Seq::empty());
                &&& forall|i: int|
                0 <= i < matches.len() ==> nodes.contains((#[trigger] matches[i]).node) && accepted(
                    query,
                    matches[i].node,
                ) == Some(matches[i].captures)
                &&& query.limit is Some && query.limit->Some_0 > 0 ==> matches.len() <= query.limit->Some_0
        }),
{
    lemma_selected(query, nodes, 0, Seq::empty());
}

proof fn lemma_selected(query: QueryView, nodes: Seq<NodeView>, from: int, done: Seq<QueryMatchView>)
    requires
        0 <= from <= nodes.len(),
        forall|i: int|
        0 <= i < done.len() ==> nodes.contains((#[trigger] done[i]).node) && accepted(query, done[i].node) == Some(
            done[i].captures,
        ),
        query.limit is Some && query.limit->Some_0 > 0 ==> done.len() < query.limit->Some_0,
    ensures
        ({
                let matches = selected(query, nodes, from, done);
                &&& forall|i: int|
                0 <= i < matches.len() ==> nodes.contains((#[trigger] matches[i]).node) && accepted(
                    query,
                    matches[i].node,
                ) == Some(matches[i].captures)
                &&& query.limit is Some && query.limit->Some_0 > 0 ==> matches.len() <= query.limit->Some_0
        }),
    decreases nodes.len() - from,
{
    if from < nodes.len() {
        match accepted(query, nodes[from]) {
            None => lemma_selected(query, nodes, from + 1, done),
            Some(captures) => {
                let more = done.push(QueryMatchView { node: nodes[from], captures });
                assert(nodes.contains(nodes[from]));
                if !(query.limit is Some && more.len() >= query.limit->Some_0) {
                    lemma_selected(query, nodes, from + 1, more);
                }
            }
        }
    }
}

} // verus!
