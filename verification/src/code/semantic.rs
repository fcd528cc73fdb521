//! What the documents of a workspace define, import and refer to.
use vstd::prelude::*;
use crate::code::copy;
use crate::code::model::{
    ChangeSet, CodeError, CodeErrorKind, Definitions, Entry, Form, ImportLink, Node, Path, Segment, SemanticFact,
    SemanticIndex, SemanticKind, SourceDatabase,
};
use crate::code::query::collect_descendants;
use crate::code::source::NESTING_LIMIT;
use crate::code::view::{
    self, CodeErrorView, DefinitionsView, EditView, EntryView, FormView, ImportLinkView, NodeView, PathView,
    SegmentView, SemanticFactView, SemanticIndexView, SourceDatabaseView,
};
use crate::code::workspace_path::{is_before, normalize_path, resolve_path};
use crate::execute::path_text::{file_name, join_path, parent_path};
use crate::execute::strings::ends_with;
use crate::text::{characters, concat_three, concat_two, owned, same_text, split_at_char, starts_with, text_of, text_precedes};

verus! {

// Texts.

/// The text behind a prefix.
pub open spec fn behind(text: Seq<char>, prefix: Seq<char>) -> Option<Seq<char>> {
    if crate::text::has_prefix(text, prefix) {
        Some(text.skip(prefix.len() as int))
    } else {
        None
    }
}

pub open spec fn text_option(text: Option<String>) -> Option<Seq<char>> {
    match text {
        Some(text) => Some(text@),
        None => None,
    }
}

pub fn strip_prefix(text: &str, prefix: &str) -> (result: Option<String>)
    ensures
        text_option(result) == behind(text@, prefix@),
{
    if starts_with(text, prefix) {
        let letters = characters(text);
        let head = characters(prefix);
        let rest = text_of(&letters, head.len(), letters.len());
        assert(rest@ =~= text@.skip(prefix@.len() as int));
        Some(rest)
    } else {
        None
    }
}

/// The text before a suffix.
pub open spec fn before(text: Seq<char>, suffix: Seq<char>) -> Option<Seq<char>> {
    if crate::execute::strings::has_suffix(text, suffix) {
        Some(text.take(text.len() - suffix.len()))
    } else {
        None
    }
}

pub fn strip_suffix(text: &str, suffix: &str) -> (result: Option<String>)
    ensures
        text_option(result) == before(text@, suffix@),
{
    if ends_with(text, suffix) {
        let letters = characters(text);
        let tail = characters(suffix);
        let rest = text_of(&letters, 0, letters.len() - tail.len());
        assert(rest@ =~= text@.take(text@.len() - suffix@.len()));
        Some(rest)
    } else {
        None
    }
}

/// The text without the dollar signs it begins with.
pub open spec fn without_dollars(text: Seq<char>) -> Seq<char>
    decreases text.len(),
{
    if text.len() > 0 && text[0] == '$' {
        without_dollars(text.skip(1))
    } else {
        text
    }
}

fn trim_dollars(text: &str) -> (result: String)
    ensures
        result@ == without_dollars(text@),
{
    let letters = characters(text);
    let mut i: usize = 0;
    assert(text@.skip(0) =~= text@);
    while i < letters.len() && letters[i] == '$'
        invariant
            i <= letters.len(),
            letters@ == text@,
            without_dollars(text@) == without_dollars(text@.skip(i as int)),
        decreases letters.len() - i,
    {
        assert(text@.skip(i as int).skip(1) =~= text@.skip(i + 1));
        i += 1;
    }
    let result = text_of(&letters, i, letters.len());
    assert(result@ =~= text@.skip(i as int));
    result
}

/// Whether every character may stand in a part of a symbol name: lowercase
/// letters, and digits but not at the front.
pub open spec fn is_symbol_part(part: Seq<char>) -> bool {
    part.len() > 0 && forall|i: int|
    0 <= i < part.len() ==> ('a' <= #[trigger] part[i] && part[i] <= 'z') || (i > 0 && '0' <= part[i] && part[i]
        <= '9')
}

/// Whether a name is in kebab case.
pub open spec fn is_symbol_name(name: Seq<char>) -> bool {
    forall|i: int| 0 <= i < crate::text::split(name, '-').len() ==> is_symbol_part(
        #[trigger] crate::text::split(name, '-')[i],
    )
}

fn symbol_part(part: &str) -> (result: bool)
    ensures
        result == is_symbol_part(part@),
{
    let letters = characters(part);
    if letters.len() == 0 {
        return false;
    }
    let mut i: usize = 0;
    while i < letters.len()
        invariant
            i <= letters.len(),
            letters@ == part@,
            forall|j: int|
            0 <= j < i ==> ('a' <= #[trigger] part@[j] && part@[j] <= 'z') || (j > 0 && '0' <= part@[j] && part@[j]
                <= '9'),
        decreases letters.len() - i,
    {
        let letter = letters[i];
        let lower = 'a' <= letter && letter <= 'z';
        let digit = '0' <= letter && letter <= '9';
        if !(lower || (i > 0 && digit)) {
            assert(part@[i as int] == letter);
            return false;
        }
        i += 1;
    }
    true
}

pub open spec fn symbol_name_error(name: Seq<char>) -> Result<(), CodeErrorView> {
    if is_symbol_name(name) {
        Ok(())
    } else {
        Err(crate::code::text_edit::conflict("symbol `"@ + name + "` must be kebab-case"@))
    }
}

fn bad_symbol_name(name: &str) -> (error: CodeError)
    ensures
        view::code_error(error) == crate::code::text_edit::conflict("symbol `"@ + name@ + "` must be kebab-case"@),
{
    CodeError::new(CodeErrorKind::EditConflict, concat_three("symbol `", name, "` must be kebab-case"))
}

fn validate_symbol_name(name: &str) -> (result: Result<(), CodeError>)
    ensures
        crate::code::form::unit_outcome(result) == symbol_name_error(name@),
{
    let parts = split_at_char(name, '-');
    let ghost all = crate::text::split(name@, '-');
    assert(crate::lowered::view::texts(parts@).len() == parts@.len());
    let mut i: usize = 0;
    while i < parts.len()
        invariant
            i <= parts.len(),
            all == crate::text::split(name@, '-'),
            all == crate::lowered::view::texts(parts@),
            all.len() == parts@.len(),
            forall|j: int| 0 <= j < i ==> is_symbol_part(#[trigger] all[j]),
        decreases parts.len() - i,
    {
        assert(all[i as int] == parts@[i as int]@);
        if !symbol_part(parts[i].as_str()) {
            return Err(bad_symbol_name(name));
        }
        i += 1;
    }
    Ok(())
}

// References.

/// The reference that a node is: a key, or a string, that begins with a dollar
/// sign.
pub open spec fn reference_of(node: NodeView) -> Option<Seq<char>> {
    match crate::code::path::last_of(node.locator.path) {
        Some(SegmentView::Key(key)) => if crate::text::has_prefix(key, "$"@) {
            Some(key)
        } else {
            string_reference(node.form)
        },
        _ => string_reference(node.form),
    }
}

pub open spec fn string_reference(form: FormView) -> Option<Seq<char>> {
    match form {
        FormView::String(text) => if crate::text::has_prefix(text, "$"@) {
            Some(text)
        } else {
            None
        },
        _ => None,
    }
}

fn reference_text(node: &Node) -> (result: Option<String>)
    ensures
        text_option(result) == reference_of(view::code_node(*node)),
{
    match node.locator.path.last() {
        Some(Segment::Key(key)) => if starts_with(key.as_str(), "$") {
            return Some(key.clone());
        },
        _ => {}
    }
    match &node.form {
        Form::String(text) => if starts_with(text.as_str(), "$") {
            Some(text.clone())
        } else {
            None
        },
        _ => None,
    }
}

/// Whether a node is reached by a key.
pub open spec fn is_keyed(node: NodeView, key: Seq<char>) -> bool {
    crate::code::path::last_of(node.locator.path) == Some(SegmentView::Key(key))
}

fn keyed(node: &Node, key: &str) -> (result: bool)
    ensures
        result == is_keyed(view::code_node(*node), key@),
{
    match node.locator.path.last() {
        Some(Segment::Key(last)) => same_text(last.as_str(), key),
        _ => false,
    }
}

/// A reference with the name it refers to renamed. A prefix that ends in a dot
/// is replaced as it stands; any other one only as a whole name.
pub open spec fn renamed_reference(reference: Seq<char>, old_prefix: Seq<char>, new_prefix: Seq<char>) -> Option<Seq<char>> {
    if crate::execute::strings::has_suffix(old_prefix, "."@) {
        match behind(reference, old_prefix) {
            Some(rest) => Some(new_prefix + rest),
            None => None,
        }
    } else if reference == old_prefix {
        Some(new_prefix)
    } else {
        match behind(reference, old_prefix + "."@) {
            Some(rest) => Some(new_prefix + "."@ + rest),
            None => None,
        }
    }
}

fn rename_reference(reference: &str, old_prefix: &str, new_prefix: &str) -> (result: Option<String>)
    ensures
        text_option(result) == renamed_reference(reference@, old_prefix@, new_prefix@),
{
    if ends_with(old_prefix, ".") {
        return match strip_prefix(reference, old_prefix) {
            Some(rest) => Some(concat_two(new_prefix, rest.as_str())),
            None => None,
        };
    }
    if same_text(reference, old_prefix) {
        return Some(owned(new_prefix));
    }
    let dotted = concat_two(old_prefix, ".");
    match strip_prefix(reference, dotted.as_str()) {
        Some(rest) => Some(concat_three(new_prefix, ".", rest.as_str())),
        None => None,
    }
}

// Imports.

/// The path that a form imports.
pub open spec fn import_in(entries: Seq<EntryView>, from: int) -> Option<Seq<char>>
    decreases entries.len() - from,
{
    if from < 0 || from >= entries.len() {
        None
    } else {
        match (entries[from].key == "$import"@, entries[from].value) {
            (true, FormView::String(path)) => Some(path),
            _ => import_in(entries, from + 1),
        }
    }
}

pub open spec fn import_of(form: FormView) -> Option<Seq<char>> {
    match form {
        FormView::Mapping(entries) => import_in(entries, 0),
        _ => None,
    }
}

fn import_path(form: &Form) -> (result: Option<String>)
    ensures
        text_option(result) == import_of(view::form(*form)),
{
    match form {
        Form::Mapping(entries) => {
            let ghost all = view::entries(entries@);
            let mut i: usize = 0;
            while i < entries.len()
                invariant
                    i <= entries.len(),
                    all == view::entries(entries@),
                    import_of(view::form(*form)) == import_in(all, 0),
                    import_in(all, 0) == import_in(all, i as int),
                decreases entries.len() - i,
            {
                assert(all[i as int] == view::entry(entries@[i as int]));
                if same_text(entries[i].key.as_str(), "$import") {
                    match &entries[i].value {
                        Form::String(path) => return Some(path.clone()),
                        _ => {}
                    }
                }
                i += 1;
            }
            None
        }
        _ => None,
    }
}

/// The document that an import names: an `@` path as it stands, any other one
/// relative to the importing document.
pub open spec fn import_target(document: Seq<char>, import: Seq<char>) -> Seq<char> {
    if crate::text::has_prefix(import, "@"@) {
        import
    } else {
        let parent = match crate::execute::path_text::parent_text(document) {
            Some(parent) => parent,
            None => Seq::empty(),
        };
        crate::code::workspace_path::resolved_path(crate::execute::path_text::joined_path(parent, import))
    }
}

fn resolve_import(document: &str, import: &str) -> (result: String)
    ensures
        result@ == import_target(document@, import@),
{
    if starts_with(import, "@") {
        return owned(import);
    }
    let parent = match parent_path(document) {
        Some(parent) => parent,
        None => {
            let empty = String::new();
            assert(empty@ =~= Seq::<char>::empty());
            empty
        }
    };
    let joined = join_path(parent.as_str(), import);
    resolve_path(joined.as_str())
}

pub open spec fn link_precedes(left: ImportLinkView, right: ImportLinkView) -> bool {
    if left.document == right.document {
        crate::text::precedes(left.alias, right.alias)
    } else {
        crate::code::workspace_path::path_precedes(left.document, right.document)
    }
}

/// An import put in its place, or instead of one of the same name.
pub open spec fn with_import(imports: Seq<ImportLinkView>, from: int, link: ImportLinkView) -> Seq<ImportLinkView>
    decreases imports.len() - from,
{
    if from < 0 || from >= imports.len() {
        imports.push(link)
    } else if imports[from].document == link.document && imports[from].alias == link.alias {
        imports.update(from, link)
    } else if link_precedes(imports[from], link) {
        with_import(imports, from + 1, link)
    } else {
        imports.insert(from, link)
    }
}

fn add_import(imports: &mut Vec<ImportLink>, link: ImportLink)
    ensures
        view::import_links(final(imports)@) == with_import(
            view::import_links(old(imports)@),
            0,
            view::import_link(link),
        ),
{
    let ghost before = imports@;
    let ghost all = view::import_links(before);
    let ghost added = view::import_link(link);
    let mut i: usize = 0;
    while i < imports.len()
        invariant
            i <= imports.len(),
            imports@ == before,
            before == old(imports)@,
            all == view::import_links(before),
            added == view::import_link(link),
            with_import(all, 0, added) == with_import(all, i as int, added),
        decreases imports.len() - i,
    {
        assert(all[i as int] == view::import_link(imports@[i as int]));
        let same = same_text(imports[i].document.as_str(), link.document.as_str());
        if same && same_text(imports[i].alias.as_str(), link.alias.as_str()) {
            imports.set(i, link);
            assert(view::import_links(imports@) =~= all.update(i as int, added));
            return;
        }
        let first = if same {
            text_precedes(imports[i].alias.as_str(), link.alias.as_str())
        } else {
            is_before(imports[i].document.as_str(), link.document.as_str())
        };
        if !first {
            imports.insert(i, link);
            assert(view::import_links(imports@) =~= all.insert(i as int, added));
            return;
        }
        i += 1;
    }
    imports.push(link);
    proof {
        view::lemma_import_links_push(before, link);
    }
}

/// What an alias of a document stands for.
pub open spec fn target_of(imports: Seq<ImportLinkView>, from: int, document: Seq<char>, alias: Seq<char>) -> Option<
Seq<char>,
>
    decreases imports.len() - from,
{
    if from < 0 || from >= imports.len() {
        None
    } else if imports[from].document == document && imports[from].alias == alias {
        Some(imports[from].target)
    } else {
        target_of(imports, from + 1, document, alias)
    }
}

fn find_target(imports: &Vec<ImportLink>, document: &str, alias: &str) -> (result: Option<String>)
    ensures
        text_option(result) == target_of(view::import_links(imports@), 0, document@, alias@),
{
    let ghost all = view::import_links(imports@);
    let mut i: usize = 0;
    while i < imports.len()
        invariant
            i <= imports.len(),
            all == view::import_links(imports@),
            target_of(all, 0, document@, alias@) == target_of(all, i as int, document@, alias@),
        decreases imports.len() - i,
    {
        assert(all[i as int] == view::import_link(imports@[i as int]));
        if same_text(imports[i].document.as_str(), document) && same_text(imports[i].alias.as_str(), alias) {
            return Some(imports[i].target.clone());
        }
        i += 1;
    }
    None
}

// Names in order.

pub open spec fn with_name(names: Seq<Seq<char>>, from: int, name: Seq<char>) -> Seq<Seq<char>>
    decreases names.len() - from,
{
    if from < 0 || from >= names.len() {
        names.push(name)
    } else if names[from] == name {
        names
    } else if crate::text::precedes(names[from], name) {
        with_name(names, from + 1, name)
    } else {
        names.insert(from, name)
    }
}

fn add_name(names: &mut Vec<String>, name: &str)
    ensures
        crate::lowered::view::texts(final(names)@) == with_name(crate::lowered::view::texts(old(names)@), 0, name@),
{
    let ghost before = names@;
    let ghost all = crate::lowered::view::texts(before);
    let added = owned(name);
    let mut i: usize = 0;
    while i < names.len()
        invariant
            i <= names.len(),
            names@ == before,
            before == old(names)@,
            added@ == name@,
            all == crate::lowered::view::texts(before),
            with_name(all, 0, name@) == with_name(all, i as int, name@),
        decreases names.len() - i,
    {
        assert(all[i as int] == names@[i as int]@);
        if same_text(names[i].as_str(), name) {
            return;
        }
        if !text_precedes(names[i].as_str(), name) {
            names.insert(i, added);
            assert(crate::lowered::view::texts(names@) =~= all.insert(i as int, name@));
            return;
        }
        i += 1;
    }
    names.push(added);
    proof {
        crate::lowered::view::lemma_texts_push(before, added);
    }
}

// Facts about one document.

/// What is known of a document's top level: its names, the imports and the
/// facts so far.
pub struct Found {
    pub names: Seq<Seq<char>>,
    pub imports: Seq<ImportLinkView>,
    pub facts: Seq<SemanticFactView>,
}

pub open spec fn top_level_path(key: Seq<char>) -> PathView {
    PathView { segments: seq![SegmentView::Key(key)] }
}

/// A top-level entry taken in.
pub open spec fn with_entry(document: Seq<char>, entry: EntryView, found: Found) -> Found {
    if crate::text::has_prefix(entry.key, "="@) {
        found
    } else {
        let names = with_name(found.names, 0, entry.key);
        match import_of(entry.value) {
            Some(import) => {
                let target = import_target(document, import);
                Found {
                    names,
                    imports: with_import(
                        found.imports,
                        0,
                        ImportLinkView { document, alias: entry.key, target },
                    ),
                    facts: found.facts.push(
                        SemanticFactView {
                            document,
                            path: top_level_path(entry.key),
                            kind: SemanticKind::Import,
                            symbol: entry.key,
                            target_document: Some(target),
                        },
                    ),
                }
            },
            None => Found {
                names,
                imports: found.imports,
                facts: found.facts.push(
                    SemanticFactView {
                        document,
                        path: top_level_path(entry.key),
                        kind: SemanticKind::Definition,
                        symbol: entry.key,
                        target_document: Some(document),
                    },
                ),
            },
        }
    }
}

pub open spec fn with_entries(document: Seq<char>, entries: Seq<EntryView>, from: int, found: Found) -> Found
    decreases entries.len() - from,
{
    if from < 0 || from >= entries.len() {
        found
    } else {
        with_entries(document, entries, from + 1, with_entry(document, entries[from], found))
    }
}

/// The document that a symbol belongs to.
pub open spec fn symbol_document(document: Seq<char>, symbol: Seq<char>, imports: Seq<ImportLinkView>) -> Seq<char> {
    let parts = crate::text::split(symbol, '.');
    if parts.len() < 2 {
        document
    } else {
        match target_of(imports, 0, document, parts[0]) {
            Some(target) => target,
            None => document,
        }
    }
}

/// The fact that a node is, if it is a reference.
pub open spec fn reference_fact(document: Seq<char>, node: NodeView, imports: Seq<ImportLinkView>) -> Option<
SemanticFactView,
> {
    match reference_of(node) {
        None => None,
        Some(reference) => {
            let symbol = without_dollars(reference);
            Some(
                SemanticFactView {
                    document,
                    path: node.locator.path,
                    kind: if is_keyed(node, reference) {
                        SemanticKind::Call
                    } else {
                        SemanticKind::Reference
                    },
                    symbol,
                    target_document: Some(symbol_document(document, symbol, imports)),
                },
            )
        },
    }
}

pub open spec fn with_references(
    document: Seq<char>,
    nodes: Seq<NodeView>,
    from: int,
    imports: Seq<ImportLinkView>,
    facts: Seq<SemanticFactView>,
) -> Seq<SemanticFactView>
    decreases nodes.len() - from,
{
    if from < 0 || from >= nodes.len() {
        facts
    } else {
        with_references(
            document,
            nodes,
            from + 1,
            imports,
            match reference_fact(document, nodes[from], imports) {
                Some(fact) => facts.push(fact),
                None => facts,
            },
        )
    }
}

/// The index with one document taken in.
pub open spec fn with_document(database: SourceDatabaseView, path: Seq<char>, index: SemanticIndexView) -> Result<
SemanticIndexView,
CodeErrorView,
> {
    match crate::code::source::document_in(database, path) {
        Err(error) => Err(error),
        Ok(document) => {
            match crate::code::source::node_of(document, crate::code::path::root_path()) {
                Err(error) => Err(error),
                Ok(root) => {
                    match root.form {
                        FormView::Mapping(entries) => {
                            let found = with_entries(
                                path,
                                entries,
                                0,
                                Found { names: Seq::empty(), imports: index.imports, facts: index.facts },
                            );
                            match crate::code::query::descendants(root, Seq::empty(), true, NESTING_LIMIT as nat) {
                                Err(error) => Err(error),
                                Ok(nodes) => {
                                    Ok(
                                        SemanticIndexView {
                                            definitions: index.definitions.push(
                                                DefinitionsView { document: path, names: found.names },
                                            ),
                                            imports: found.imports,
                                            facts: with_references(path, nodes, 0, found.imports, found.facts),
                                        },
                                    )

                                },
                            }
                        },
                        _ => Ok(index),
                    }

                },
            }

        },
    }
}

pub open spec fn with_documents(
    database: SourceDatabaseView,
    paths: Seq<Seq<char>>,
    from: int,
    index: SemanticIndexView,
) -> Result<SemanticIndexView, CodeErrorView>
    decreases paths.len() - from,
{
    if from < 0 || from >= paths.len() {
        Ok(index)
    } else {
        match with_document(database, paths[from], index) {
            Err(error) => Err(error),
            Ok(next) => {
                with_documents(database, paths, from + 1, next)

            },
        }
    }
}

pub open spec fn empty_index() -> SemanticIndexView {
    SemanticIndexView { definitions: Seq::empty(), imports: Seq::empty(), facts: Seq::empty() }
}

/// The index of a workspace.
pub open spec fn index_of(database: SourceDatabaseView) -> Result<SemanticIndexView, CodeErrorView> {
    with_documents(database, crate::code::source::document_paths(database.documents), 0, empty_index())
}

fn fact_of(document: &str, path: Path, kind: SemanticKind, symbol: String, target: String) -> (fact: SemanticFact)
    ensures
        view::semantic_fact(fact) == (SemanticFactView {
                document: document@,
                path: view::path(path),
                kind,
                symbol: symbol@,
                target_document: Some(target@),
        }),
{
    SemanticFact { document: owned(document), path, kind, symbol, target_document: Some(target) }
}

fn path_to(key: &str) -> (path: Path)
    ensures
        view::path(path) == top_level_path(key@),
{
    let mut segments: Vec<Segment> = Vec::new();
    segments.push(Segment::Key(owned(key)));
    assert(view::segments(segments@) =~= seq![SegmentView::Key(key@)]);
    Path { segments }
}

fn push_fact(facts: &mut Vec<SemanticFact>, fact: SemanticFact)
    ensures
        view::semantic_facts(final(facts)@) == view::semantic_facts(old(facts)@).push(view::semantic_fact(fact)),
{
    let ghost before = facts@;
    facts.push(fact);
    proof {
        view::lemma_semantic_facts_push(before, fact);
    }
}

pub open spec fn found_view(names: Seq<String>, imports: Seq<ImportLink>, facts: Seq<SemanticFact>) -> Found {
    Found {
        names: crate::lowered::view::texts(names),
        imports: view::import_links(imports),
        facts: view::semantic_facts(facts),
    }
}

fn add_entry(
    document: &str,
    entry: &Entry,
    names: &mut Vec<String>,
    imports: &mut Vec<ImportLink>,
    facts: &mut Vec<SemanticFact>,
)
    ensures
        found_view(final(names)@, final(imports)@, final(facts)@) == with_entry(
            document@,
            view::entry(*entry),
            found_view(old(names)@, old(imports)@, old(facts)@),
        ),
{
    let key = entry.key.as_str();
    if starts_with(key, "=") {
        return;
    }
    add_name(names, key);
    match import_path(&entry.value) {
        Some(import) => {
            let target = resolve_import(document, import.as_str());
            add_import(imports, ImportLink { document: owned(document), alias: owned(key), target: target.clone() });
            push_fact(facts, fact_of(document, path_to(key), SemanticKind::Import, owned(key), target));
        }
        None => {
            push_fact(facts, fact_of(document, path_to(key), SemanticKind::Definition, owned(key), owned(document)));
        }
    }
}

fn add_entries(
    document: &str,
    entries: &Vec<Entry>,
    names: &mut Vec<String>,
    imports: &mut Vec<ImportLink>,
    facts: &mut Vec<SemanticFact>,
)
    ensures
        found_view(final(names)@, final(imports)@, final(facts)@) == with_entries(
            document@,
            view::entries(entries@),
            0,
            found_view(old(names)@, old(imports)@, old(facts)@),
        ),
{
    let ghost all = view::entries(entries@);
    let ghost first = found_view(names@, imports@, facts@);
    let mut i: usize = 0;
    while i < entries.len()
        invariant
            i <= entries.len(),
            all == view::entries(entries@),
            first == found_view(old(names)@, old(imports)@, old(facts)@),
            with_entries(document@, all, 0, first) == with_entries(
                document@,
                all,
                i as int,
                found_view(names@, imports@, facts@),
            ),
        decreases entries.len() - i,
    {
        assert(all[i as int] == view::entry(entries@[i as int]));
        add_entry(document, &entries[i], names, imports, facts);
        i += 1;
    }
}

fn document_for(document: &str, symbol: &str, imports: &Vec<ImportLink>) -> (result: String)
    ensures
        result@ == symbol_document(document@, symbol@, view::import_links(imports@)),
{
    let parts = split_at_char(symbol, '.');
    let ghost all = crate::text::split(symbol@, '.');
    assert(crate::lowered::view::texts(parts@).len() == parts@.len());
    if parts.len() < 2 {
        return owned(document);
    }
    assert(all[0] == parts@[0]@);
    match find_target(imports, document, parts[0].as_str()) {
        Some(target) => target,
        None => owned(document),
    }
}

fn add_references(document: &str, nodes: &Vec<Node>, imports: &Vec<ImportLink>, facts: &mut Vec<SemanticFact>)
    ensures
        view::semantic_facts(final(facts)@) == with_references(
            document@,
            view::code_nodes(nodes@),
            0,
            view::import_links(imports@),
            view::semantic_facts(old(facts)@),
        ),
{
    let ghost all = view::code_nodes(nodes@);
    let ghost links = view::import_links(imports@);
    let ghost first = view::semantic_facts(facts@);
    let mut i: usize = 0;
    while i < nodes.len()
        invariant
            i <= nodes.len(),
            all == view::code_nodes(nodes@),
            links == view::import_links(imports@),
            first == view::semantic_facts(old(facts)@),
            with_references(document@, all, 0, links, first) == with_references(
                document@,
                all,
                i as int,
                links,
                view::semantic_facts(facts@),
            ),
        decreases nodes.len() - i,
    {
        assert(all[i as int] == view::code_node(nodes@[i as int]));
        match reference_text(&nodes[i]) {
            None => {}
            Some(reference) => {
                let symbol = trim_dollars(reference.as_str());
                let kind = if keyed(&nodes[i], reference.as_str()) {
                    SemanticKind::Call
                } else {
                    SemanticKind::Reference
                };
                let target = document_for(document, symbol.as_str(), imports);
                push_fact(facts, fact_of(document, copy::path(&nodes[i].locator.path), kind, symbol, target));
            }
        }
        i += 1;
    }
}

pub open spec fn index_outcome(result: Result<SemanticIndex, CodeError>) -> Result<SemanticIndexView, CodeErrorView> {
    match result {
        Ok(index) => Ok(view::semantic_index(index)),
        Err(error) => Err(view::code_error(error)),
    }
}

fn add_document(
    database: &SourceDatabase,
    path: &str,
    index: SemanticIndex,
) -> (result: Result<SemanticIndex, CodeError>)
    ensures
        index_outcome(result) == with_document(
            view::source_database(*database),
            path@,
            view::semantic_index(index),
        ),
{
    let document = match database.document(path) {
        Ok(value) => value,
        Err(error) => return Err(error),
    };
    let root = match document.root() {
        Ok(value) => value,
        Err(error) => return Err(error),
    };
    let mut definitions = index.definitions;
    let mut imports = index.imports;
    let mut facts = index.facts;
    match &root.form {
        Form::Mapping(entries) => {
            let mut names: Vec<String> = Vec::new();
            assert(crate::lowered::view::texts(names@) =~= Seq::<Seq<char>>::empty());
            add_entries(path, entries, &mut names, &mut imports, &mut facts);
            let none: Vec<Node> = Vec::new();
            assert(view::code_nodes(none@) =~= Seq::<NodeView>::empty());
            let nodes = match collect_descendants(&root, none, true, NESTING_LIMIT) {
                Ok(value) => value,
                Err(error) => return Err(error),
            };
            add_references(path, &nodes, &imports, &mut facts);
            let ghost before = definitions@;
            definitions.push(Definitions { document: owned(path), names });
            proof {
                view::lemma_definitions_list_push(before, definitions@.last());
            }
        }
        _ => {}
    }
    Ok(SemanticIndex { definitions, imports, facts })
}

// Queries.

pub open spec fn fits(fact: SemanticFactView, kind: Option<SemanticKind>, symbol: Option<Seq<char>>) -> bool {
    (kind is None || fact.kind == kind->Some_0) && (symbol is None || fact.symbol == symbol->Some_0)
}

/// The facts of a kind and about a symbol, in order.
pub open spec fn facts_for(
    facts: Seq<SemanticFactView>,
    from: int,
    kind: Option<SemanticKind>,
    symbol: Option<Seq<char>>,
    done: Seq<SemanticFactView>,
) -> Seq<SemanticFactView>
    decreases facts.len() - from,
{
    if from < 0 || from >= facts.len() {
        done
    } else {
        facts_for(
            facts,
            from + 1,
            kind,
            symbol,
            if fits(facts[from], kind, symbol) {
                done.push(facts[from])
            } else {
                done
            },
        )
    }
}

pub open spec fn str_option(text: Option<&str>) -> Option<Seq<char>> {
    match text {
        Some(text) => Some(text@),
        None => None,
    }
}

fn copy_fact(fact: &SemanticFact) -> (result: SemanticFact)
    ensures
        view::semantic_fact(result) == view::semantic_fact(*fact),
{
    SemanticFact {
        document: fact.document.clone(),
        path: copy::path(&fact.path),
        kind: fact.kind,
        symbol: fact.symbol.clone(),
        target_document: match &fact.target_document {
            Some(target) => Some(target.clone()),
            None => None,
        },
    }
}

// Renaming.

/// The top-level names of a document.
pub open spec fn names_of(definitions: Seq<DefinitionsView>, from: int, document: Seq<char>) -> Option<Seq<Seq<char>>>
    decreases definitions.len() - from,
{
    if from < 0 || from >= definitions.len() {
        None
    } else if definitions[from].document == document {
        Some(definitions[from].names)
    } else {
        names_of(definitions, from + 1, document)
    }
}

fn find_names<'a>(definitions: &'a Vec<Definitions>, document: &str) -> (result: Option<&'a Vec<String>>)
    ensures
        names_of(view::definitions_list(definitions@), 0, document@) == (match result {
                Some(names) => Some(crate::lowered::view::texts(names@)),
                None => None,
        }),
{
    let ghost all = view::definitions_list(definitions@);
    let mut i: usize = 0;
    while i < definitions.len()
        invariant
            i <= definitions.len(),
            all == view::definitions_list(definitions@),
            names_of(all, 0, document@) == names_of(all, i as int, document@),
        decreases definitions.len() - i,
    {
        assert(all[i as int] == view::definitions(definitions@[i as int]));
        if same_text(definitions[i].document.as_str(), document) {
            return Some(&definitions[i].names);
        }
        i += 1;
    }
    None
}

fn has_name(names: &Vec<String>, name: &str) -> (result: bool)
    ensures
        result == crate::lowered::view::texts(names@).contains(name@),
{
    let ghost all = crate::lowered::view::texts(names@);
    assert(all.len() == names@.len());
    let mut i: usize = 0;
    while i < names.len()
        invariant
            i <= names.len(),
            all == crate::lowered::view::texts(names@),
            all.len() == names@.len(),
            forall|j: int| 0 <= j < i ==> all[j] != name@,
        decreases names.len() - i,
    {
        assert(all[i as int] == names@[i as int]@);
        if same_text(names[i].as_str(), name) {
            return true;
        }
        i += 1;
    }
    false
}

/// The edit that renames a reference.
pub open spec fn rename_edit(node: NodeView, reference: Seq<char>, renamed: Seq<char>) -> EditView {
    if is_keyed(node, reference) {
        EditView::RenameMappingKey { target: node.locator, new_key: renamed }
    } else {
        EditView::Replace { target: node.locator, value: FormView::String(renamed) }
    }
}

pub open spec fn rename_edits(
    nodes: Seq<NodeView>,
    from: int,
    old_prefix: Seq<char>,
    new_prefix: Seq<char>,
    edits: Seq<EditView>,
) -> Seq<EditView>
    decreases nodes.len() - from,
{
    if from < 0 || from >= nodes.len() {
        edits
    } else {
        let more = match reference_of(nodes[from]) {
            None => edits,
            Some(reference) => match renamed_reference(reference, old_prefix, new_prefix) {
                None => edits,
                Some(renamed) => edits.push(rename_edit(nodes[from], reference, renamed)),
            },
        };
        rename_edits(nodes, from + 1, old_prefix, new_prefix, more)
    }
}

/// The edits so far with those that rename the references of a document.
pub open spec fn with_renames(
    database: SourceDatabaseView,
    path: Seq<char>,
    old_prefix: Seq<char>,
    new_prefix: Seq<char>,
    edits: Seq<EditView>,
) -> Result<Seq<EditView>, CodeErrorView> {
    match crate::code::source::document_in(database, path) {
        Err(error) => Err(error),
        Ok(document) => {
            match crate::code::source::node_of(document, crate::code::path::root_path()) {
                Err(error) => Err(error),
                Ok(root) => {
                    match crate::code::query::descendants(root, Seq::empty(), true, NESTING_LIMIT as nat) {
                        Err(error) => Err(error),
                        Ok(nodes) => {
                            Ok(rename_edits(nodes, 0, old_prefix, new_prefix, edits))

                        },
                    }

                },
            }

        },
    }
}

pub open spec fn changes_outcome(result: Result<ChangeSet, CodeError>) -> Result<Seq<EditView>, CodeErrorView> {
    match result {
        Ok(changes) => Ok(view::edits(changes.edits@)),
        Err(error) => Err(view::code_error(error)),
    }
}

fn add_reference_renames(
    changes: ChangeSet,
    database: &SourceDatabase,
    path: &str,
    old_prefix: &str,
    new_prefix: &str,
) -> (result: Result<ChangeSet, CodeError>)
    ensures
        changes_outcome(result) == with_renames(
            view::source_database(*database),
            path@,
            old_prefix@,
            new_prefix@,
            view::edits(changes.edits@),
        ),
{
    let document = match database.document(path) {
        Ok(value) => value,
        Err(error) => return Err(error),
    };
    let root = match document.root() {
        Ok(value) => value,
        Err(error) => return Err(error),
    };
    let none: Vec<Node> = Vec::new();
    assert(view::code_nodes(none@) =~= Seq::<NodeView>::empty());
    let nodes = match collect_descendants(&root, none, true, NESTING_LIMIT) {
        Ok(value) => value,
        Err(error) => return Err(error),
    };
    let ghost all = view::code_nodes(nodes@);
    let ghost first = view::edits(changes.edits@);
    let ghost base = view::source_database(*database);
    let mut done = changes;
    let mut i: usize = 0;
    while i < nodes.len()
        invariant
            i <= nodes.len(),
            all == view::code_nodes(nodes@),
            with_renames(base, path@, old_prefix@, new_prefix@, first) == Ok::<Seq<EditView>, CodeErrorView>(
                rename_edits(all, 0, old_prefix@, new_prefix@, first),
            ),
            base == view::source_database(*database),
            first == view::edits(changes.edits@),
            rename_edits(all, 0, old_prefix@, new_prefix@, first) == rename_edits(
                all,
                i as int,
                old_prefix@,
                new_prefix@,
                view::edits(done.edits@),
            ),
        decreases nodes.len() - i,
    {
        assert(all[i as int] == view::code_node(nodes@[i as int]));
        match reference_text(&nodes[i]) {
            None => {}
            Some(reference) => match rename_reference(reference.as_str(), old_prefix, new_prefix) {
                None => {}
                Some(renamed) => if keyed(&nodes[i], reference.as_str()) {
                    done = done.rename_mapping_key(nodes[i].locator(), renamed);
                } else {
                    done = done.replace(nodes[i].locator(), Form::String(renamed));
                },
            },
        }
        i += 1;
    }
    Ok(done)
}

/// The name under which a module refers to itself: its file name up to the
/// first dot, without the extension of source files.
pub open spec fn self_alias(path: Seq<char>) -> Option<Seq<char>> {
    match crate::execute::path_text::file_name_text(path) {
        None => None,
        Some(name) => Some(crate::text::split(bare_name(name), '.')[0]),
    }
}

pub open spec fn bare_name(name: Seq<char>) -> Seq<char> {
    match before(name, ".vibra.yaml"@) {
        Some(bare) => bare,
        None => match before(name, ".vibra"@) {
            Some(bare) => bare,
            None => name,
        },
    }
}

pub fn module_self_alias(path: &str) -> (result: Option<String>)
    ensures
        text_option(result) == self_alias(path@),
{
    let name = match file_name(path) {
        Some(name) => name,
        None => return None,
    };
    let bare = match strip_suffix(name.as_str(), ".vibra.yaml") {
        Some(bare) => bare,
        None => match strip_suffix(name.as_str(), ".vibra") {
            Some(bare) => bare,
            None => name,
        },
    };
    let parts = split_at_char(bare.as_str(), '.');
    proof {
        lemma_split_some(bare@, '.', 0, 0, Seq::empty());
        assert(crate::lowered::view::texts(parts@).len() == parts@.len());
        assert(crate::lowered::view::texts(parts@)[0] == parts@[0]@);
    }
    Some(parts[0].clone())
}

proof fn lemma_split_some(text: Seq<char>, separator: char, start: int, index: int, done: Seq<Seq<char>>)
    ensures
        crate::text::split_from(text, separator, start, index, done).len() > done.len(),
    decreases text.len() - index,
{
    if 0 <= index < text.len() {
        if text[index] == separator {
            lemma_split_some(text, separator, index + 1, index + 1, done.push(text.subrange(start, index)));
        } else {
            lemma_split_some(text, separator, start, index + 1, done);
        }
    }
}

/// A name behind an alias, as it is referred to.
pub open spec fn dotted(alias: Seq<char>, name: Seq<char>) -> Seq<char> {
    "$"@ + alias + "."@ + name
}

fn dotted_text(alias: &str, name: &str) -> (result: String)
    ensures
        result@ == dotted(alias@, name@),
{
    let mut text = concat_three("$", alias, ".");
    text.append(name);
    text
}

/// The edits so far with those in the documents that import one.
pub open spec fn with_imported_renames(
    database: SourceDatabaseView,
    imports: Seq<ImportLinkView>,
    from: int,
    document: Seq<char>,
    old_name: Seq<char>,
    new_name: Seq<char>,
    edits: Seq<EditView>,
) -> Result<Seq<EditView>, CodeErrorView>
    decreases imports.len() - from,
{
    if from < 0 || from >= imports.len() {
        Ok(edits)
    } else if crate::code::workspace_path::normal_path(imports[from].target)
    == crate::code::workspace_path::normal_path(document) {
        match with_renames(database, imports[from].document, dotted(imports[from].alias, old_name), dotted(imports[from].alias, new_name), edits) {
            Err(error) => Err(error),
            Ok(more) => {
                with_imported_renames(database, imports, from + 1, document, old_name, new_name, more)

            },
        }
    } else {
        with_imported_renames(database, imports, from + 1, document, old_name, new_name, edits)
    }
}

/// The edits so far with the one that renames a top-level key.
pub open spec fn with_key_rename(
    database: SourceDatabaseView,
    document: Seq<char>,
    old_name: Seq<char>,
    new_name: Seq<char>,
    edits: Seq<EditView>,
) -> Result<Seq<EditView>, CodeErrorView> {
    match crate::code::source::document_in(database, document) {
        Err(error) => Err(error),
        Ok(found) => {
            match crate::code::source::node_of(found, top_level_path(old_name)) {
                Err(error) => Err(error),
                Ok(node) => {
                    Ok(edits.push(EditView::RenameMappingKey { target: node.locator, new_key: new_name }))

                },
            }

        },
    }
}

/// What stands against renaming a top-level name of a document.
pub open spec fn rename_error(
    index: SemanticIndexView,
    document: Seq<char>,
    old_name: Seq<char>,
    new_name: Seq<char>,
) -> Result<
(),
CodeErrorView,
> {
    match names_of(index.definitions, 0, document) {
        None => Err(
            crate::code::form::failed(
                CodeErrorKind::DocumentNotFound,
                "semantic document `"@ + document + "` does not exist"@,
            ),
        ),
        Some(names) => if !names.contains(old_name) {
            Err(
                crate::code::source::bad_path("top-level symbol `"@ + old_name + "` does not exist"@),
            )
        } else if names.contains(new_name) {
            Err(crate::code::text_edit::conflict("top-level symbol `"@ + new_name + "` already exists"@))
        } else {
            Ok(())
        },
    }
}

/// The edits that rename a top-level name of a document everywhere.
pub open spec fn symbol_renamed(
    index: SemanticIndexView,
    database: SourceDatabaseView,
    path: Seq<char>,
    old_name: Seq<char>,
    new_name: Seq<char>,
) -> Result<Seq<EditView>, CodeErrorView> {
    match symbol_name_error(new_name) {
        Err(error) => Err(error),
        Ok(named) => {
            let document = crate::code::workspace_path::resolved_path(path);
            match rename_error(index, document, old_name, new_name) {
                Err(error) => Err(error),
                Ok(allowed) => {
                    match with_renames(database, document, "$"@ + old_name, "$"@ + new_name, Seq::empty()) {
                        Err(error) => Err(error),
                        Ok(plain) => {
                            match own_renames(database, document, old_name, new_name, plain) {
                                Err(error) => Err(error),
                                Ok(own) => {
                                    match with_imported_renames(database, index.imports, 0, document, old_name, new_name, own) {
                                        Err(error) => Err(error),
                                        Ok(all) => {
                                            with_key_rename(database, document, old_name, new_name, all)

                                        },
                                    }

                                },
                            }

                        },
                    }

                },
            }

        },
    }
}

/// The edits so far with those of references that go through the module's own
/// name.
pub open spec fn own_renames(
    database: SourceDatabaseView,
    document: Seq<char>,
    old_name: Seq<char>,
    new_name: Seq<char>,
    edits: Seq<EditView>,
) -> Result<Seq<EditView>, CodeErrorView> {
    match self_alias(document) {
        Some(alias) => with_renames(database, document, dotted(alias, old_name), dotted(alias, new_name), edits),
        None => Ok(edits),
    }
}

/// The edits that rename an import alias of a document.
pub open spec fn alias_renamed(
    index: SemanticIndexView,
    database: SourceDatabaseView,
    path: Seq<char>,
    old_name: Seq<char>,
    new_name: Seq<char>,
) -> Result<Seq<EditView>, CodeErrorView> {
    match symbol_name_error(new_name) {
        Err(error) => Err(error),
        Ok(named) => {
            let document = crate::code::workspace_path::resolved_path(path);
            if target_of(index.imports, 0, document, old_name) is None {
                Err(crate::code::source::bad_path("import alias `"@ + old_name + "` does not exist"@))
            } else {
                let names = names_of(index.definitions, 0, document);
                if names is Some && names->Some_0.contains(new_name) {
                    Err(crate::code::text_edit::conflict("top-level symbol `"@ + new_name + "` already exists"@))
                } else {
                    match with_renames(database, document, "$"@ + old_name + "."@, "$"@ + new_name + "."@, Seq::empty()) {
                        Err(error) => Err(error),
                        Ok(all) => {
                            with_key_rename(database, document, old_name, new_name, all)

                        },
                    }
                }
            }

        },
    }
}

fn add_key_rename(changes: ChangeSet, database: &SourceDatabase, document: &str, old_name: &str, new_name: &str) -> (result: Result<
    ChangeSet,
    CodeError,
    >)
    ensures
        changes_outcome(result) == with_key_rename(
            view::source_database(*database),
            document@,
            old_name@,
            new_name@,
            view::edits(changes.edits@),
        ),
{
    let found = match database.document(document) {
        Ok(value) => value,
        Err(error) => return Err(error),
    };
    let node = match found.at(&path_to(old_name)) {
        Ok(value) => value,
        Err(error) => return Err(error),
    };
    Ok(changes.rename_mapping_key(node.locator(), owned(new_name)))
}

fn add_imported_renames(
    changes: ChangeSet,
    database: &SourceDatabase,
    imports: &Vec<ImportLink>,
    document: &str,
    old_name: &str,
    new_name: &str,
) -> (result: Result<ChangeSet, CodeError>)
    ensures
        changes_outcome(result) == with_imported_renames(
            view::source_database(*database),
            view::import_links(imports@),
            0,
            document@,
            old_name@,
            new_name@,
            view::edits(changes.edits@),
        ),
{
    let ghost all = view::import_links(imports@);
    let ghost first = view::edits(changes.edits@);
    let ghost base = view::source_database(*database);
    let own = normalize_path(document);
    let mut done = changes;
    let mut i: usize = 0;
    while i < imports.len()
        invariant
            i <= imports.len(),
            all == view::import_links(imports@),
            base == view::source_database(*database),
            first == view::edits(changes.edits@),
            own@ == crate::code::workspace_path::normal_path(document@),
            with_imported_renames(base, all, 0, document@, old_name@, new_name@, first) == with_imported_renames(
                base,
                all,
                i as int,
                document@,
                old_name@,
                new_name@,
                view::edits(done.edits@),
            ),
        decreases imports.len() - i,
    {
        assert(all[i as int] == view::import_link(imports@[i as int]));
        let target = normalize_path(imports[i].target.as_str());
        if same_text(target.as_str(), own.as_str()) {
            let from = dotted_text(imports[i].alias.as_str(), old_name);
            let to = dotted_text(imports[i].alias.as_str(), new_name);
            let more = match add_reference_renames(done, database, imports[i].document.as_str(), from.as_str(), to.as_str()) {
                Ok(value) => value,
                Err(error) => return Err(error),
            };
            done = more;
        }
        i += 1;
    }
    Ok(done)
}

impl SemanticIndex {
    pub fn empty() -> (index: SemanticIndex)
        ensures
            view::semantic_index(index) == empty_index(),
    {
        let index = SemanticIndex { definitions: Vec::new(), imports: Vec::new(), facts: Vec::new() };
        assert(view::definitions_list(index.definitions@) =~= Seq::<DefinitionsView>::empty());
        assert(view::import_links(index.imports@) =~= Seq::<ImportLinkView>::empty());
        assert(view::semantic_facts(index.facts@) =~= Seq::<SemanticFactView>::empty());
        index
    }

    /// The index of a workspace.
    pub fn build(database: &SourceDatabase) -> (result: Result<SemanticIndex, CodeError>)
        ensures
            index_outcome(result) == index_of(view::source_database(*database)),
    {
        let paths = database.paths();
        let ghost base = view::source_database(*database);
        let ghost all = crate::lowered::view::texts(paths@);
        let mut index = SemanticIndex::empty();
        let mut i: usize = 0;
        while i < paths.len()
            invariant
                i <= paths.len(),
                base == view::source_database(*database),
                all == crate::lowered::view::texts(paths@),
                all == crate::code::source::document_paths(base.documents),
                index_of(base) == with_documents(base, all, i as int, view::semantic_index(index)),
            decreases paths.len() - i,
        {
            assert(all[i as int] == paths@[i as int]@);
            let next = match add_document(database, paths[i].as_str(), index) {
                Ok(value) => value,
                Err(error) => return Err(error),
            };
            index = next;
            i += 1;
        }
        Ok(index)
    }

    /// The facts of a kind and about a symbol.
    pub fn query(&self, kind: Option<SemanticKind>, symbol: Option<&str>) -> (facts: Vec<SemanticFact>)
        ensures
            view::semantic_facts(facts@) == facts_for(
                view::semantic_index(*self).facts,
                0,
                kind,
                str_option(symbol),
                Seq::empty(),
            ),
    {
        let ghost all = view::semantic_index(*self).facts;
        let mut done: Vec<SemanticFact> = Vec::new();
        assert(view::semantic_facts(done@) =~= Seq::<SemanticFactView>::empty());
        let mut i: usize = 0;
        while i < self.facts.len()
            invariant
                i <= self.facts.len(),
                all == view::semantic_index(*self).facts,
                facts_for(all, 0, kind, str_option(symbol), Seq::empty()) == facts_for(
                    all,
                    i as int,
                    kind,
                    str_option(symbol),
                    view::semantic_facts(done@),
                ),
            decreases self.facts.len() - i,
        {
            assert(all[i as int] == view::semantic_fact(self.facts@[i as int]));
            let right_kind = match kind {
                Some(kind) => self.facts[i].kind == kind,
                None => true,
            };
            let right_symbol = match symbol {
                Some(symbol) => same_text(self.facts[i].symbol.as_str(), symbol),
                None => true,
            };
            if right_kind && right_symbol {
                push_fact(&mut done, copy_fact(&self.facts[i]));
            }
            i += 1;
        }
        done
    }

    /// The changes that rename a top-level name of a document everywhere.
    pub fn rename_symbol(&self, database: &SourceDatabase, document: &str, old_name: &str, new_name: &str) -> (result: Result<
        ChangeSet,
        CodeError,
        >)
        ensures
            changes_outcome(result) == symbol_renamed(
                view::semantic_index(*self),
                view::source_database(*database),
                document@,
                old_name@,
                new_name@,
            ),
    {
        match validate_symbol_name(new_name) {
            Ok(_) => {}
            Err(error) => return Err(error),
        }
        let path = resolve_path(document);
        let names = match find_names(&self.definitions, path.as_str()) {
            Some(names) => names,
            None => {
                let message = concat_three("semantic document `", path.as_str(), "` does not exist");
                return Err(CodeError::new(CodeErrorKind::DocumentNotFound, message));
            }
        };
        if !has_name(names, old_name) {
            let message = concat_three("top-level symbol `", old_name, "` does not exist");
            return Err(CodeError::new(CodeErrorKind::InvalidPath, message));
        }
        if has_name(names, new_name) {
            let message = concat_three("top-level symbol `", new_name, "` already exists");
            return Err(CodeError::new(CodeErrorKind::EditConflict, message));
        }
        let from = concat_two("$", old_name);
        let to = concat_two("$", new_name);
        let plain = match add_reference_renames(ChangeSet::new(), database, path.as_str(), from.as_str(), to.as_str()) {
            Ok(value) => value,
            Err(error) => return Err(error),
        };
        let own = match module_self_alias(path.as_str()) {
            Some(alias) => {
                let from = dotted_text(alias.as_str(), old_name);
                let to = dotted_text(alias.as_str(), new_name);
                let own = match add_reference_renames(plain, database, path.as_str(), from.as_str(), to.as_str()) {
                    Ok(value) => value,
                    Err(error) => return Err(error),
                };
                own
            }
            None => plain,
        };
        let all = match add_imported_renames(own, database, &self.imports, path.as_str(), old_name, new_name) {
            Ok(value) => value,
            Err(error) => return Err(error),
        };
        add_key_rename(all, database, path.as_str(), old_name, new_name)
    }

    /// The changes that rename an import alias of a document.
    pub fn rename_import_alias(&self, database: &SourceDatabase, document: &str, old_name: &str, new_name: &str) -> (result: Result<
        ChangeSet,
        CodeError,
        >)
        ensures
            changes_outcome(result) == alias_renamed(
                view::semantic_index(*self),
                view::source_database(*database),
                document@,
                old_name@,
                new_name@,
            ),
    {
        match validate_symbol_name(new_name) {
            Ok(_) => {}
            Err(error) => return Err(error),
        }
        let path = resolve_path(document);
        if find_target(&self.imports, path.as_str(), old_name).is_none() {
            let message = concat_three("import alias `", old_name, "` does not exist");
            return Err(CodeError::new(CodeErrorKind::InvalidPath, message));
        }
        match find_names(&self.definitions, path.as_str()) {
            Some(names) => if has_name(names, new_name) {
                let message = concat_three("top-level symbol `", new_name, "` already exists");
                return Err(CodeError::new(CodeErrorKind::EditConflict, message));
            },
            None => {}
        }
        let from = concat_three("$", old_name, ".");
        let to = concat_three("$", new_name, ".");
        let all = match add_reference_renames(ChangeSet::new(), database, path.as_str(), from.as_str(), to.as_str()) {
            Ok(value) => value,
            Err(error) => return Err(error),
        };
        add_key_rename(all, database, path.as_str(), old_name, new_name)
    }
}

// Laws.

/// Renaming a reference and then renaming it back gives the reference again.
pub proof fn law_renaming_back_undoes_renaming(reference: Seq<char>, old_prefix: Seq<char>, new_prefix: Seq<char>)
    requires
        crate::execute::strings::has_suffix(old_prefix, "."@) == crate::execute::strings::has_suffix(new_prefix, "."@),
        renamed_reference(reference, old_prefix, new_prefix) is Some,
    ensures
        renamed_reference(renamed_reference(reference, old_prefix, new_prefix)->Some_0, new_prefix, old_prefix) == Some(
            reference,
        ),
{
    let renamed = renamed_reference(reference, old_prefix, new_prefix)->Some_0;
    if crate::execute::strings::has_suffix(old_prefix, "."@) {
        let rest = reference.skip(old_prefix.len() as int);
        assert(reference =~= old_prefix + rest);
        assert(renamed.take(new_prefix.len() as int) =~= new_prefix);
        assert(renamed.skip(new_prefix.len() as int) =~= rest);
    } else if reference == old_prefix {
        assert(renamed == new_prefix);
    } else {
        let head = old_prefix + "."@;
        let rest = reference.skip(head.len() as int);
        let back = new_prefix + "."@;
        assert(reference =~= head + rest);
        assert(renamed =~= back + rest);
        assert(renamed.take(back.len() as int) =~= back);
        assert(renamed.skip(back.len() as int) =~= rest);
        reveal_strlit(".");
        assert(renamed.len() > new_prefix.len());
        assert(old_prefix + "."@ + rest =~= reference);
    }
}

} // verus!
