//! Modules made of parts, their names and the files they come from.
use vstd::prelude::*;
use crate::ast::surface::{Module, TopLevel};
use crate::ast::view::{self, ModuleView, TopLevelView};
use crate::code::cli::add_paths;
use crate::code::semantic::{module_self_alias, strip_prefix, strip_suffix};
use crate::code::workspace_path::is_before;
use crate::execute::path_text::{component_texts, file_name, join_path, parent_path};
use crate::execute::strings::ends_with;
use crate::frontend::aliases::{AliasScope, AliasScopeView};
use crate::names::has_name;
use crate::syntax::{NodeView, Span, SyntaxDocument};
use crate::text::{concat_three, concat_two, owned, same_text, split_at_char, starts_with};

verus! {

/// A physical part of a module.
#[derive(Debug)]
pub struct SourcePart {
    pub path: String,
    pub source: String,
    pub document: SyntaxDocument,
    pub module: Module,
}

/// A module with its parts in the order of their paths.
#[derive(Debug)]
pub struct SourceModule {
    pub path: String,
    pub parts: Vec<SourcePart>,
}

/// A loaded program: its modules in the order of their paths, the fingerprints
/// of embedded files, and what each module's aliases stand for.
#[derive(Debug)]
pub struct SurfaceProgram {
    pub entry: String,
    pub modules: Vec<SourceModule>,
    pub module_parts: Vec<(String, Vec<String>)>,
    pub embedded_files: Vec<(String, String)>,
    pub imports: Vec<(String, Vec<(String, String)>)>,
}

/// What a [`SourcePart`] holds.
pub struct SourcePartView {
    pub path: Seq<char>,
    pub source: Seq<char>,
    pub nodes: Seq<NodeView>,
    pub span: Span,
    pub module: ModuleView,
}

pub open spec fn part_views(parts: Seq<SourcePart>) -> Seq<SourcePartView> {
    Seq::new(
        parts.len(),
        |i: int|
            SourcePartView {
                path: parts[i].path@,
                source: parts[i].source@,
                nodes: crate::syntax::nodes_view(parts[i].document.nodes@),
                span: parts[i].document.span,
                module: view::module(parts[i].module),
            },
    )
}

/// The forms of the first parts of a module.
pub open spec fn part_forms(parts: Seq<SourcePartView>, count: int) -> Seq<TopLevelView>
    decreases count,
{
    if count <= 0 || count > parts.len() {
        Seq::empty()
    } else {
        part_forms(parts, count - 1) + parts[count - 1].module.forms
    }
}

/// What a [`SourceModule`] holds.
pub struct SourceModuleView {
    pub path: Seq<char>,
    pub parts: Seq<SourcePartView>,
}

impl SourceModuleView {
    /// The forms of the module, part by part.
    pub open spec fn forms(self) -> Seq<TopLevelView> {
        part_forms(self.parts, self.parts.len() as int)
    }
}

pub open spec fn form_views(forms: Seq<&TopLevel>) -> Seq<TopLevelView> {
    Seq::new(forms.len(), |i: int| view::top_level(*forms[i]))
}

impl SourceModule {
    pub open spec fn view(&self) -> SourceModuleView {
        SourceModuleView { path: self.path@, parts: part_views(self.parts@) }
    }

    /// The forms of the module, part by part.
    pub fn forms(&self) -> (forms: Vec<&TopLevel>)
        ensures
            form_views(forms@) == self@.forms(),
    {
        let mut done: Vec<&TopLevel> = Vec::new();
        assert(form_views(done@) =~= part_forms(self@.parts, 0));
        let mut i: usize = 0;
        while i < self.parts.len()
            invariant
                i <= self.parts.len(),
                form_views(done@) == part_forms(self@.parts, i as int),
            decreases self.parts.len() - i,
        {
            let forms = &self.parts[i].module.forms;
            assert(self@.parts[i as int].module.forms == view::top_levels(forms@));
            let ghost own = view::top_levels(forms@);
            let ghost before = form_views(done@);
            assert(own.len() == forms@.len());
            assert(before + own.take(0) =~= before);
            let mut j: usize = 0;
            while j < forms.len()
                invariant
                    j <= forms.len(),
                    own == view::top_levels(forms@),
                    own.len() == forms@.len(),
                    form_views(done@) == before + own.take(j as int),
                decreases forms.len() - j,
            {
                assert(own[j as int] == view::top_level(forms@[j as int]));
                let ghost earlier = done@;
                done.push(&forms[j]);
                assert(form_views(done@) =~= form_views(earlier).push(own[j as int]));
                assert(before + own.take(j + 1) =~= (before + own.take(j as int)).push(own[j as int]));
                j += 1;
            }
            assert(own.take(own.len() as int) =~= own);
            i += 1;
        }
        done
    }
}

pub open spec fn module_views(modules: Seq<SourceModule>) -> Seq<SourceModuleView> {
    Seq::new(modules.len(), |i: int| modules[i]@)
}

/// Whether modules are listed once each, in the order of their paths.
pub open spec fn paths_ascending(modules: Seq<SourceModule>) -> bool {
    forall|i: int, j: int|
        0 <= i < j < modules.len() ==> crate::code::workspace_path::path_precedes(
            (#[trigger] modules[i]).path@,
            (#[trigger] modules[j]).path@,
        )
}

/// Whether each module comes before the next.
pub open spec fn neighbours_ascend(modules: Seq<SourceModule>) -> bool {
    forall|i: int|
        0 <= i < modules.len() - 1 ==> crate::code::workspace_path::path_precedes(
            (#[trigger] modules[i]).path@,
            modules[i + 1].path@,
        )
}

proof fn lemma_neighbours(modules: Seq<SourceModule>, i: int, j: int)
    requires
        neighbours_ascend(modules),
        0 <= i < j < modules.len(),
    ensures
        crate::code::workspace_path::path_precedes(modules[i].path@, modules[j].path@),
    decreases j - i,
{
    assert(crate::code::workspace_path::path_precedes(modules[j - 1].path@, modules[j - 1 + 1].path@));
    if i < j - 1 {
        lemma_neighbours(modules, i, j - 1);
        crate::code::workspace_path::law_paths_are_ordered(
            modules[i].path@,
            modules[j - 1].path@,
            modules[j].path@,
        );
    }
}

/// Tells whether modules are listed once each, in the order of their paths.
pub fn modules_in_order(modules: &Vec<SourceModule>) -> (result: bool)
    ensures
        result == paths_ascending(modules@),
{
    let mut i: usize = 1;
    while i < modules.len()
        invariant
            1 <= i,
            forall|k: int|
                0 <= k < i - 1 && k < modules@.len() - 1 ==> crate::code::workspace_path::path_precedes(
                    (#[trigger] modules@[k]).path@,
                    modules@[k + 1].path@,
                ),
        decreases modules.len() - i,
    {
        if !crate::code::workspace_path::is_before(modules[i - 1].path.as_str(), modules[i].path.as_str()) {
            assert(!crate::code::workspace_path::path_precedes(modules@[i - 1].path@, modules@[i as int].path@));
            return false;
        }
        i += 1;
    }
    assert forall|k: int, j: int| 0 <= k < j < modules@.len() implies crate::code::workspace_path::path_precedes(
        (#[trigger] modules@[k]).path@,
        (#[trigger] modules@[j]).path@,
    ) by {
        lemma_neighbours(modules@, k, j);
    }
    true
}

// Names.

/// The name of a top-level form.
pub open spec fn name_of(form: TopLevelView) -> Seq<char> {
    crate::expand_json::described(form).0
}

fn top_level_name(form: &TopLevel) -> (name: String)
    ensures
        name@ == name_of(view::top_level(*form)),
{
    reveal(view::top_level);
    match form {
        TopLevel::Import(import) => import.alias.value.clone(),
        TopLevel::Definition(definition) => definition.name.value.clone(),
        TopLevel::Constant(constant) => constant.name.value.clone(),
        TopLevel::Function(function) => function.name.value.clone(),
        TopLevel::Macro(definition) => definition.name.value.clone(),
        TopLevel::Test(test) => test.name.value.clone(),
    }
}

/// The first name that occurs a second time.
pub open spec fn repeated(forms: Seq<TopLevelView>, from: int, seen: Set<Seq<char>>) -> Option<Seq<char>>
    decreases forms.len() - from,
{
    if from < 0 || from >= forms.len() {
        None
    } else if seen.contains(name_of(forms[from])) {
        Some(name_of(forms[from]))
    } else {
        repeated(forms, from + 1, seen.insert(name_of(forms[from])))
    }
}

pub open spec fn repeated_message(name: Seq<char>, path: Seq<char>) -> Seq<char> {
    "E-MOD-002: duplicate top-level symbol `"@ + name + "` across module parts of "@ + path
}

/// The complaint about the first module with a repeated name.
pub open spec fn symbols_error(modules: Seq<SourceModuleView>, from: int) -> Option<Seq<char>>
    decreases modules.len() - from,
{
    if from < 0 || from >= modules.len() {
        None
    } else {
        match repeated(modules[from].forms(), 0, Set::empty()) {
            Some(name) => Some(repeated_message(name, modules[from].path)),
            None => symbols_error(modules, from + 1),
        }
    }
}

pub open spec fn complaint(result: Result<(), String>) -> Option<Seq<char>> {
    match result {
        Ok(_) => None,
        Err(message) => Some(message@),
    }
}

proof fn lemma_name_set_push(names: Seq<String>, name: String)
    ensures
        crate::names::name_set(names.push(name)) == crate::names::name_set(names).insert(name@),
{
    assert forall|text: Seq<char>| crate::names::name_set(names.push(name)).contains(text) <==> crate::names::name_set(
        names,
    ).insert(name@).contains(text) by {
        crate::names::lemma_contain_push(names, name);
    }
    assert(crate::names::name_set(names.push(name)) =~= crate::names::name_set(names).insert(name@));
}

fn find_repeated(forms: &Vec<&TopLevel>) -> (result: Option<String>)
    ensures
        repeated(form_views(forms@), 0, Set::empty()) == (match result {
                Some(name) => Some(name@),
                None => None,
        }),
{
    let ghost all = form_views(forms@);
    let mut seen: Vec<String> = Vec::new();
    assert(crate::names::name_set(seen@) =~= Set::<Seq<char>>::empty());
    let mut i: usize = 0;
    while i < forms.len()
        invariant
            i <= forms.len(),
            all == form_views(forms@),
            repeated(all, 0, Set::empty()) == repeated(all, i as int, crate::names::name_set(seen@)),
        decreases forms.len() - i,
    {
        assert(all[i as int] == view::top_level(*forms@[i as int]));
        let name = top_level_name(forms[i]);
        if has_name(&seen, name.as_str()) {
            return Some(name);
        }
        proof {
            lemma_name_set_push(seen@, name);
        }
        seen.push(name);
        i += 1;
    }
    None
}

/// Checks that no module defines a name twice.
pub fn validate_unique_symbols(modules: &Vec<SourceModule>) -> (result: Result<(), String>)
    requires
        paths_ascending(modules@),
    ensures
        complaint(result) == symbols_error(module_views(modules@), 0),
{
    let ghost all = module_views(modules@);
    let mut i: usize = 0;
    while i < modules.len()
        invariant
            i <= modules.len(),
            all == module_views(modules@),
            symbols_error(all, 0) == symbols_error(all, i as int),
        decreases modules.len() - i,
    {
        let forms = modules[i].forms();
        match find_repeated(&forms) {
            Some(name) => return Err(
                concat_two(
                    concat_three(
                        "E-MOD-002: duplicate top-level symbol `",
                        name.as_str(),
                        "` across module parts of ",
                    ).as_str(),
                    modules[i].path.as_str(),
                ),
            ),
            None => {}
        }
        i += 1;
    }
    Ok(())
}

// Aliases.

/// The aliases that forms import, with those before.
pub open spec fn import_aliases(forms: Seq<TopLevelView>, from: int, done: Set<Seq<char>>) -> Set<Seq<char>>
    decreases forms.len() - from,
{
    if from < 0 || from >= forms.len() {
        done
    } else {
        import_aliases(
            forms,
            from + 1,
            match forms[from] {
                TopLevelView::Import(import) => done.insert(import.alias.value),
                _ => done,
            },
        )
    }
}

pub open spec fn known_aliases(modules: Seq<SourceModuleView>, from: int, done: Set<Seq<char>>) -> Set<Seq<char>>
    decreases modules.len() - from,
{
    if from < 0 || from >= modules.len() {
        done
    } else {
        known_aliases(modules, from + 1, import_aliases(modules[from].forms(), 0, done))
    }
}

/// The names of forms that are no import aliases.
pub open spec fn local_names(
    forms: Seq<TopLevelView>,
    from: int,
    direct: Set<Seq<char>>,
    done: Set<Seq<char>>,
) -> Set<
Seq<char>,
>
    decreases forms.len() - from,
{
    if from < 0 || from >= forms.len() {
        done
    } else {
        local_names(
            forms,
            from + 1,
            direct,
            if direct.contains(name_of(forms[from])) {
                done
            } else {
                done.insert(name_of(forms[from]))
            },
        )
    }
}

/// What the references of a module are held against.
pub open spec fn scope_of(module: SourceModuleView, known: Set<Seq<char>>) -> AliasScopeView {
    let direct = import_aliases(module.forms(), 0, Set::empty());
    AliasScopeView {
        path: module.path,
        known,
        direct,
        local: local_names(module.forms(), 0, direct, Set::empty()),
        self_alias: crate::code::semantic::self_alias(module.path),
    }
}

pub open spec fn forms_error(forms: Seq<TopLevelView>, from: int, scope: AliasScopeView) -> Option<Seq<char>>
    decreases forms.len() - from,
{
    if from < 0 || from >= forms.len() {
        None
    } else {
        crate::frontend::aliases::first_of(
            crate::frontend::aliases::form_error(forms[from], scope),
            forms_error(forms, from + 1, scope),
        )
    }
}

/// The first complaint about a reference through an alias that its module does
/// not declare.
pub open spec fn aliases_error(modules: Seq<SourceModuleView>, from: int, known: Set<Seq<char>>) -> Option<Seq<char>>
    decreases modules.len() - from,
{
    if from < 0 || from >= modules.len() {
        None
    } else {
        crate::frontend::aliases::first_of(
            forms_error(modules[from].forms(), 0, scope_of(modules[from], known)),
            aliases_error(modules, from + 1, known),
        )
    }
}

fn push_name(names: &mut Vec<String>, name: String)
    ensures
        crate::names::name_set(final(names)@) == crate::names::name_set(old(names)@).insert(name@),
{
    proof {
        lemma_name_set_push(names@, name);
    }
    names.push(name);
}

fn add_import_aliases(forms: &Vec<&TopLevel>, names: &mut Vec<String>)
    ensures
        crate::names::name_set(final(names)@) == import_aliases(
            form_views(forms@),
            0,
            crate::names::name_set(old(names)@),
        ),
{
    let ghost all = form_views(forms@);
    let ghost first = crate::names::name_set(names@);
    let mut i: usize = 0;
    while i < forms.len()
        invariant
            i <= forms.len(),
            all == form_views(forms@),
            first == crate::names::name_set(old(names)@),
            import_aliases(all, 0, first) == import_aliases(all, i as int, crate::names::name_set(names@)),
        decreases forms.len() - i,
    {
        reveal(view::top_level);
        assert(all[i as int] == view::top_level(*forms@[i as int]));
        match forms[i] {
            TopLevel::Import(import) => push_name(names, import.alias.value.clone()),
            _ => {}
        }
        i += 1;
    }
}

fn no_names() -> (names: Vec<String>)
    ensures
        crate::names::name_set(names@) == Set::<Seq<char>>::empty(),
{
    let names: Vec<String> = Vec::new();
    assert(crate::names::name_set(names@) =~= Set::<Seq<char>>::empty());
    names
}

fn find_local_names(forms: &Vec<&TopLevel>, direct: &Vec<String>) -> (names: Vec<String>)
    ensures
        crate::names::name_set(names@) == local_names(
            form_views(forms@),
            0,
            crate::names::name_set(direct@),
            Set::empty(),
        ),
{
    let ghost all = form_views(forms@);
    let ghost own = crate::names::name_set(direct@);
    let mut names = no_names();
    let mut i: usize = 0;
    while i < forms.len()
        invariant
            i <= forms.len(),
            all == form_views(forms@),
            own == crate::names::name_set(direct@),
            local_names(all, 0, own, Set::empty()) == local_names(
                all,
                i as int,
                own,
                crate::names::name_set(names@),
            ),
        decreases forms.len() - i,
    {
        assert(all[i as int] == view::top_level(*forms@[i as int]));
        let name = top_level_name(forms[i]);
        if !has_name(direct, name.as_str()) {
            push_name(&mut names, name);
        }
        i += 1;
    }
    names
}

fn copy_names(names: &Vec<String>) -> (result: Vec<String>)
    ensures
        crate::names::name_set(result@) == crate::names::name_set(names@),
{
    let result = crate::lowered::copy::texts(names);
    proof {
        assert(crate::lowered::view::texts(result@).len() == result@.len());
        assert forall|text: Seq<char>| crate::names::names_contain(result@, text) == crate::names::names_contain(
            names@,
            text,
        ) by {
            assert forall|i: int| 0 <= i < names@.len() implies #[trigger] names@[i]@ == result@[i]@ by {
                assert(crate::lowered::view::texts(result@)[i] == crate::lowered::view::texts(names@)[i]);
            }
            if crate::names::names_contain(names@, text) {
                let i = choose|i: int| 0 <= i < names@.len() && names@[i]@ == text;
                assert(result@[i]@ == text);
            }
            if crate::names::names_contain(result@, text) {
                let i = choose|i: int| 0 <= i < result@.len() && result@[i]@ == text;
                assert(names@[i]@ == text);
            }
        }
        assert(crate::names::name_set(result@) =~= crate::names::name_set(names@));
    }
    result
}

fn validate_forms(forms: &Vec<&TopLevel>, scope: &AliasScope) -> (result: Result<(), String>)
    ensures
        complaint(result) == forms_error(form_views(forms@), 0, scope@),
{
    let ghost all = form_views(forms@);
    let mut i: usize = 0;
    while i < forms.len()
        invariant
            i <= forms.len(),
            all == form_views(forms@),
            forms_error(all, 0, scope@) == forms_error(all, i as int, scope@),
        decreases forms.len() - i,
    {
        assert(all[i as int] == view::top_level(*forms@[i as int]));
        match scope.validate_form(forms[i]) {
            Ok(_) => {}
            Err(error) => return Err(error),
        }
        i += 1;
    }
    Ok(())
}

/// Checks that modules refer only through aliases that they declare.
pub fn validate_direct_import_aliases(modules: &Vec<SourceModule>) -> (result: Result<(), String>)
    requires
        paths_ascending(modules@),
    ensures
        complaint(result) == aliases_error(
            module_views(modules@),
            0,
            known_aliases(module_views(modules@), 0, Set::empty()),
        ),
{
    let ghost all = module_views(modules@);
    let mut known = no_names();
    let mut i: usize = 0;
    while i < modules.len()
        invariant
            i <= modules.len(),
            all == module_views(modules@),
            known_aliases(all, 0, Set::empty()) == known_aliases(all, i as int, crate::names::name_set(known@)),
        decreases modules.len() - i,
    {
        let forms = modules[i].forms();
        add_import_aliases(&forms, &mut known);
        i += 1;
    }
    let ghost aliases = crate::names::name_set(known@);
    let mut j: usize = 0;
    while j < modules.len()
        invariant
            j <= modules.len(),
            all == module_views(modules@),
            aliases == crate::names::name_set(known@),
            aliases == known_aliases(all, 0, Set::empty()),
            aliases_error(all, 0, aliases) == aliases_error(all, j as int, aliases),
        decreases modules.len() - j,
    {
        let forms = modules[j].forms();
        let mut direct = no_names();
        add_import_aliases(&forms, &mut direct);
        let local = find_local_names(&forms, &direct);
        let scope = AliasScope {
            path: modules[j].path.clone(),
            known: copy_names(&known),
            direct,
            local,
            self_alias: module_self_alias(modules[j].path.as_str()),
        };
        assert(scope@ == scope_of(all[j as int], aliases));
        match validate_forms(&forms, &scope) {
            Ok(_) => {}
            Err(error) => return Err(error),
        }
        j += 1;
    }
    Ok(())
}

// Files of modules.

/// The complaint about the path of a module.
pub open spec fn module_path_error(path: Seq<char>) -> Option<Seq<char>> {
    match crate::execute::path_text::file_name_text(path) {
        None => Some(path + " has no UTF-8 file name"@),
        Some(name) => if crate::execute::strings::has_suffix(name, ".vibra.yaml"@) {
            Some("E-SYN-012: `.vibra.yaml` is not supported by the S-expression frontend"@)
        } else if !crate::execute::strings::has_suffix(name, ".vibra"@) {
            Some("E-SYN-012: S-expression source must use the `.vibra` extension: "@ + path)
        } else {
            None
        },
    }
}

/// Checks the path of a module, which is given with its links resolved.
pub fn check_module_path(path: &str) -> (result: Result<(), String>)
    ensures
        complaint(result) == module_path_error(path@),
{
    match file_name(path) {
        None => Err(concat_two(path, " has no UTF-8 file name")),
        Some(name) => if ends_with(name.as_str(), ".vibra.yaml") {
            Err(owned("E-SYN-012: `.vibra.yaml` is not supported by the S-expression frontend"))
        } else if !ends_with(name.as_str(), ".vibra") {
            Err(concat_two("E-SYN-012: S-expression source must use the `.vibra` extension: ", path))
        } else {
            Ok(())
        },
    }
}

/// A path put among others in their order, behind its equals.
pub open spec fn with_path(paths: Seq<Seq<char>>, from: int, path: Seq<char>) -> Seq<Seq<char>>
    decreases paths.len() - from,
{
    if from < 0 || from >= paths.len() {
        paths.push(path)
    } else if crate::code::workspace_path::path_precedes(path, paths[from]) {
        paths.insert(from, path)
    } else {
        with_path(paths, from + 1, path)
    }
}

fn add_part(paths: &mut Vec<String>, path: &str)
    ensures
        crate::lowered::view::texts(final(paths)@) == with_path(
            crate::lowered::view::texts(old(paths)@),
            0,
            path@,
        ),
{
    let ghost before = paths@;
    let ghost all = crate::lowered::view::texts(before);
    let added = owned(path);
    let mut i: usize = 0;
    while i < paths.len()
        invariant
            i <= paths.len(),
            paths@ == before,
            before == old(paths)@,
            added@ == path@,
            all == crate::lowered::view::texts(before),
            with_path(all, 0, path@) == with_path(all, i as int, path@),
        decreases paths.len() - i,
    {
        assert(all[i as int] == paths@[i as int]@);
        if is_before(path, paths[i].as_str()) {
            paths.insert(i, added);
            assert(crate::lowered::view::texts(paths@) =~= all.insert(i as int, path@));
            return;
        }
        i += 1;
    }
    paths.push(added);
    proof {
        crate::lowered::view::lemma_texts_push(before, added);
    }
}

/// The flags that the name of a part asks for: what stands between the name of
/// its module and the extension.
pub open spec fn part_flags(base: Seq<char>, file: Seq<char>) -> Option<Seq<char>> {
    match crate::code::semantic::before(file, ".vibra"@) {
        None => None,
        Some(stem) => crate::code::semantic::behind(stem, base + "."@),
    }
}

pub open spec fn all_within(names: Seq<Seq<char>>, set: Set<Seq<char>>) -> bool {
    forall|i: int| 0 <= i < names.len() ==> set.contains(#[trigger] names[i])
}

fn all_known(names: &Vec<String>, set: &Vec<String>) -> (result: bool)
    ensures
        result == all_within(crate::lowered::view::texts(names@), crate::names::name_set(set@)),
{
    let ghost all = crate::lowered::view::texts(names@);
    assert(all.len() == names@.len());
    let mut i: usize = 0;
    while i < names.len()
        invariant
            i <= names.len(),
            all == crate::lowered::view::texts(names@),
            all.len() == names@.len(),
            forall|j: int| 0 <= j < i ==> crate::names::name_set(set@).contains(#[trigger] all[j]),
        decreases names.len() - i,
    {
        assert(all[i as int] == names@[i as int]@);
        if !has_name(set, names[i].as_str()) {
            return false;
        }
        i += 1;
    }
    true
}

/// What a directory entry is to a module: no part, a part that is left out or
/// taken, or a name that is malformed.
pub open spec fn part_selected(
    base: Seq<char>,
    file: Seq<char>,
    flags: Set<Seq<char>>,
    accepted: Set<Seq<char>>,
) -> Result<bool, Seq<char>> {
    match part_flags(base, file) {
        None => Ok(false),
        Some(suffix) => {
            let asked = crate::text::split(suffix, '.');
            if suffix.len() == 0 || !all_within(asked, accepted) {
                Err("E-FLAG-002: malformed conditional source suffix in `"@ + file + "`"@)
            } else {
                Ok(all_within(asked, flags))
            }
        },
    }
}

fn select_part(base: &str, file: &str, flags: &Vec<String>, accepted: &Vec<String>) -> (result: Result<bool, String>)
    ensures
        part_selected(base@, file@, crate::names::name_set(flags@), crate::names::name_set(accepted@))
            == (match result {
                Ok(selected) => Ok(selected),
                Err(message) => Err(message@),
        }),
{
    let stem = match strip_suffix(file, ".vibra") {
        Some(stem) => stem,
        None => return Ok(false),
    };
    let prefix = concat_two(base, ".");
    let suffix = match strip_prefix(stem.as_str(), prefix.as_str()) {
        Some(suffix) => suffix,
        None => return Ok(false),
    };
    let asked = split_at_char(suffix.as_str(), '.');
    let letters = crate::text::characters(suffix.as_str());
    if letters.len() == 0 || !all_known(&asked, accepted) {
        return Err(concat_three("E-FLAG-002: malformed conditional source suffix in `", file, "`"));
    }
    Ok(all_known(&asked, flags))
}

/// A directory entry: its path, and the same with its links resolved.
#[derive(Debug)]
pub struct Candidate {
    pub path: String,
    pub resolved: String,
}

pub struct CandidateView {
    pub path: Seq<char>,
    pub resolved: Seq<char>,
}

pub open spec fn candidate_views(candidates: Seq<Candidate>) -> Seq<CandidateView> {
    Seq::new(candidates.len(), |i: int| CandidateView { path: candidates[i].path@, resolved: candidates[i].resolved@ })
}

/// The parts among directory entries, in the order of their paths.
pub open spec fn parts_from(
    owner: Seq<char>,
    base: Seq<char>,
    candidates: Seq<CandidateView>,
    from: int,
    flags: Set<Seq<char>>,
    accepted: Set<Seq<char>>,
    done: Seq<Seq<char>>,
) -> Result<Seq<Seq<char>>, Seq<char>>
    decreases candidates.len() - from,
{
    if from < 0 || from >= candidates.len() {
        Ok(done)
    } else {
        let name = crate::execute::path_text::file_name_text(candidates[from].path);
        if candidates[from].path == owner || name is None {
            parts_from(owner, base, candidates, from + 1, flags, accepted, done)
        } else {
            match part_selected(base, name->Some_0, flags, accepted) {
                Err(message) => Err(message),
                Ok(selected) => parts_from(
                    owner,
                    base,
                    candidates,
                    from + 1,
                    flags,
                    accepted,
                    if selected {
                        with_path(done, 0, candidates[from].resolved)
                    } else {
                        done
                    },
                ),
            }
        }
    }
}

/// The files that a module is made of: its own, and those parts next to it
/// whose flags are all set.
pub open spec fn parts_of(
    owner: Seq<char>,
    candidates: Seq<CandidateView>,
    flags: Set<Seq<char>>,
    accepted: Set<Seq<char>>,
) -> Result<Seq<Seq<char>>, Seq<char>> {
    match crate::execute::path_text::file_name_text(owner) {
        None => Ok(seq![owner]),
        Some(name) => match crate::code::semantic::before(name, ".vibra"@) {
            None => Err("E-SYN-012: S-expression source must use the `.vibra` extension: "@ + owner),
            Some(base) => parts_from(owner, base, candidates, 0, flags, accepted, seq![owner]),
        },
    }
}

/// Selects the parts of a module among the entries of its directory.
/// `accepted` lists the texts that are compilation flags, `flags` those that
/// are set.
pub fn module_part_paths(
    owner: &str,
    candidates: &Vec<Candidate>,
    flags: &Vec<String>,
    accepted: &Vec<String>,
) -> (result: Result<Vec<String>, String>)
    ensures
        parts_of(
            owner@,
            candidate_views(candidates@),
            crate::names::name_set(flags@),
            crate::names::name_set(accepted@),
        ) == (match result {
                Ok(paths) => Ok(crate::lowered::view::texts(paths@)),
                Err(message) => Err(message@),
        }),
{
    let mut done: Vec<String> = Vec::new();
    done.push(owned(owner));
    assert(crate::lowered::view::texts(done@) =~= seq![owner@]);
    let name = match file_name(owner) {
        Some(name) => name,
        None => return Ok(done),
    };
    let base = match strip_suffix(name.as_str(), ".vibra") {
        Some(base) => base,
        None => return Err(
            concat_two("E-SYN-012: S-expression source must use the `.vibra` extension: ", owner),
        ),
    };
    let ghost all = candidate_views(candidates@);
    let ghost set = crate::names::name_set(flags@);
    let ghost known = crate::names::name_set(accepted@);
    let ghost whole = parts_of(owner@, all, set, known);
    let mut i: usize = 0;
    while i < candidates.len()
        invariant
            i <= candidates.len(),
            all == candidate_views(candidates@),
            set == crate::names::name_set(flags@),
            known == crate::names::name_set(accepted@),
            whole == parts_of(owner@, all, set, known),
            whole == parts_from(
                owner@,
                base@,
                all,
                i as int,
                set,
                known,
                crate::lowered::view::texts(done@),
            ),
        decreases candidates.len() - i,
    {
        if !same_text(candidates[i].path.as_str(), owner) {
            match file_name(candidates[i].path.as_str()) {
                Some(file) => {
                    let selected = match select_part(base.as_str(), file.as_str(), flags, accepted) {
                        Ok(value) => value,
                        Err(error) => return Err(error),
                    };
                    if selected {
                        add_part(&mut done, candidates[i].resolved.as_str());
                    }
                }
                None => {}
            }
        }
        i += 1;
    }
    Ok(done)
}

/// Where an import leads: to a path that the project resolves, or to a file.
#[derive(Debug)]
pub enum ImportRequest {
    Project(String),
    File(String),
}

#[allow(inconsistent_fields)]
pub enum ImportRequestView {
    Project(Seq<char>),
    File(Seq<char>),
}

pub open spec fn import_request_of(owner: Seq<char>, import: Seq<char>, in_project: bool) -> Result<
ImportRequestView,
Seq<char>,
> {
    match crate::execute::path_text::parent_text(owner) {
        None => Err(owner + " has no parent directory"@),
        Some(parent) => if crate::text::has_prefix(import, "@"@) {
            if in_project {
                Ok(ImportRequestView::Project(import))
            } else {
                Err(owner + ": @ import `"@ + import + "` requires project.vibra"@)
            }
        } else {
            Ok(ImportRequestView::File(crate::execute::path_text::joined_path(parent, import)))
        },
    }
}

/// Where an import of a module leads.
pub fn import_request(owner: &str, import: &str, in_project: bool) -> (result: Result<ImportRequest, String>)
    ensures
        import_request_of(owner@, import@, in_project) == (match result {
                Ok(ImportRequest::Project(path)) => Ok(ImportRequestView::Project(path@)),
                Ok(ImportRequest::File(path)) => Ok(ImportRequestView::File(path@)),
                Err(message) => Err(message@),
        }),
{
    let parent = match parent_path(owner) {
        Some(parent) => parent,
        None => return Err(concat_two(owner, " has no parent directory")),
    };
    if starts_with(import, "@") {
        if in_project {
            Ok(ImportRequest::Project(owned(import)))
        } else {
            let head = concat_three(owner, ": @ import `", import);
            Err(concat_two(head.as_str(), "` requires project.vibra"))
        }
    } else {
        Ok(ImportRequest::File(join_path(parent.as_str(), import)))
    }
}

/// Modules with one in its place, or instead of the one with its path.
pub open spec fn with_module(modules: Seq<SourceModule>, from: int, module: SourceModule) -> Seq<SourceModule>
    decreases modules.len() - from,
{
    if from < 0 || from >= modules.len() {
        modules.push(module)
    } else if crate::code::workspace_path::path_precedes(modules[from].path@, module.path@) {
        with_module(modules, from + 1, module)
    } else if crate::code::workspace_path::path_precedes(module.path@, modules[from].path@) {
        modules.insert(from, module)
    } else {
        modules.update(from, module)
    }
}

proof fn lemma_with_module(modules: Seq<SourceModule>, from: int, module: SourceModule)
    requires
        0 <= from <= modules.len(),
        paths_ascending(modules),
        forall|i: int|
            0 <= i < from ==> crate::code::workspace_path::path_precedes((#[trigger] modules[i]).path@, module.path@),
    ensures
        paths_ascending(with_module(modules, from, module)),
    decreases modules.len() - from,
{
    if from < modules.len() {
        let own = modules[from].path@;
        if crate::code::workspace_path::path_precedes(own, module.path@) {
            lemma_with_module(modules, from + 1, module);
        } else {
            let after = with_module(modules, from, module);
            assert forall|i: int, j: int| 0 <= i < j < after.len() implies crate::code::workspace_path::path_precedes(
                (#[trigger] after[i]).path@,
                (#[trigger] after[j]).path@,
            ) by {
                crate::code::workspace_path::law_paths_are_ordered(own, module.path@, module.path@);
                if i == from && crate::code::workspace_path::path_precedes(module.path@, own) && j > from + 1 {
                    crate::code::workspace_path::law_paths_are_ordered(module.path@, own, modules[j - 1].path@);
                }
            }
        }
    }
}

/// Puts a module among others, in the order of their paths.
pub fn add_module(modules: &mut Vec<SourceModule>, module: SourceModule)
    requires
        paths_ascending(old(modules)@),
    ensures
        final(modules)@ == with_module(old(modules)@, 0, module),
        paths_ascending(final(modules)@),
{
    let ghost before = modules@;
    proof {
        lemma_with_module(before, 0, module);
    }
    let mut i: usize = 0;
    while i < modules.len()
        invariant
            i <= modules.len(),
            modules@ == before,
            before == old(modules)@,
            paths_ascending(with_module(before, 0, module)),
            with_module(before, 0, module) == with_module(before, i as int, module),
        decreases modules.len() - i,
    {
        if !crate::code::workspace_path::is_before(modules[i].path.as_str(), module.path.as_str()) {
            if crate::code::workspace_path::is_before(module.path.as_str(), modules[i].path.as_str()) {
                modules.insert(i, module);
            } else {
                modules.set(i, module);
            }
            return;
        }
        i += 1;
    }
    modules.push(module);
}

/// Records what an alias of a module stands for. The aliases stay in order; a
/// later import of the same alias takes the place of an earlier one.
pub fn add_alias(aliases: &mut Vec<(String, String)>, alias: String, target: String)
    ensures
        crate::expand_json::entry_views(final(aliases)@) == crate::expand_json::with_entry(
            crate::expand_json::entry_views(old(aliases)@),
            0,
            (alias@, target@),
        ),
{
    crate::expand_json::put(aliases, (alias, target));
}

// Files of a package.

/// Whether every component of a path is a name.
pub open spec fn is_plain_path(path: Seq<char>) -> bool {
    let components = crate::execute::path_text::piece_texts(path);
    forall|i: int|
    0 <= i < components.len() ==> (#[trigger] components[i]) != "/"@ && components[i] != "."@ && components[i]
    != ".."@
}

fn plain_path(path: &str) -> (result: bool)
    ensures
        result == is_plain_path(path@),
{
    let components = component_texts(path);
    let ghost all = crate::execute::path_text::piece_texts(path@);
    assert(crate::lowered::view::texts(components@).len() == components@.len());
    let mut i: usize = 0;
    while i < components.len()
        invariant
            i <= components.len(),
            all == crate::lowered::view::texts(components@),
            all == crate::execute::path_text::piece_texts(path@),
            all.len() == components@.len(),
            forall|j: int|
            0 <= j < i ==> (#[trigger] all[j]) != "/"@ && all[j] != "."@ && all[j] != ".."@,
        decreases components.len() - i,
    {
        assert(all[i as int] == components@[i as int]@);
        let component = components[i].as_str();
        if same_text(component, "/") || same_text(component, ".") || same_text(component, "..") {
            return false;
        }
        i += 1;
    }
    true
}

/// The file that a relative path of a module names, or the complaint about the
/// path.
pub open spec fn package_file(path: Seq<char>, owner: Seq<char>, code: Seq<char>, kind: Seq<char>) -> Result<
Seq<char>,
Seq<char>,
> {
    if !is_plain_path(path) {
        Err(code + ": "@ + kind + " path must be a normalized relative path: `"@ + path + "`"@)
    } else {
        match crate::execute::path_text::parent_text(owner) {
            None => Err(code + ": module has no parent"@),
            Some(parent) => Ok(crate::execute::path_text::joined_path(parent, path)),
        }
    }
}

pub fn package_file_path(path: &str, owner: &str, code: &str, kind: &str) -> (result: Result<String, String>)
    ensures
        package_file(path@, owner@, code@, kind@) == (match result {
                Ok(file) => Ok(file@),
                Err(message) => Err(message@),
        }),
{
    if !plain_path(path) {
        let mut message = concat_three(code, ": ", kind);
        message.append(" path must be a normalized relative path: `");
        message.append(path);
        message.append("`");
        return Err(message);
    }
    match parent_path(owner) {
        None => Err(concat_two(code, ": module has no parent")),
        Some(parent) => Ok(join_path(parent.as_str(), path)),
    }
}

/// Whether a path lies within a directory.
pub open spec fn lies_within(path: Seq<char>, root: Seq<char>) -> bool {
    let inner = crate::execute::path_text::piece_texts(path);
    let outer = crate::execute::path_text::piece_texts(root);
    outer.len() <= inner.len() && inner.take(outer.len() as int) == outer
}

fn is_within(path: &str, root: &str) -> (result: bool)
    ensures
        result == lies_within(path@, root@),
{
    let inner = component_texts(path);
    let outer = component_texts(root);
    let ghost mine = crate::execute::path_text::piece_texts(path@);
    let ghost theirs = crate::execute::path_text::piece_texts(root@);
    assert(crate::lowered::view::texts(inner@).len() == inner@.len());
    assert(crate::lowered::view::texts(outer@).len() == outer@.len());
    if outer.len() > inner.len() {
        return false;
    }
    let mut i: usize = 0;
    while i < outer.len()
        invariant
            i <= outer.len() <= inner.len(),
            mine == crate::lowered::view::texts(inner@),
            theirs == crate::lowered::view::texts(outer@),
            mine == crate::execute::path_text::piece_texts(path@),
            theirs == crate::execute::path_text::piece_texts(root@),
            mine.len() == inner@.len(),
            theirs.len() == outer@.len(),
            forall|j: int| 0 <= j < i ==> mine[j] == theirs[j],
        decreases outer.len() - i,
    {
        assert(mine[i as int] == inner@[i as int]@);
        assert(theirs[i as int] == outer@[i as int]@);
        if !same_text(inner[i].as_str(), outer[i].as_str()) {
            assert(mine.take(theirs.len() as int)[i as int] != theirs[i as int]);
            return false;
        }
        i += 1;
    }
    assert(mine.take(theirs.len() as int) =~= theirs);
    true
}

pub open spec fn escape_error(
    resolved: Seq<char>,
    root: Seq<char>,
    is_file: bool,
    code: Seq<char>,
    kind: Seq<char>,
) -> Option<
Seq<char>,
> {
    if lies_within(resolved, root) && is_file {
        None
    } else {
        Some(code + ": "@ + kind + " file `"@ + resolved + "` escapes package root "@ + root)
    }
}

/// Checks that a resolved file lies within its package.
pub fn check_package_file(
    resolved: &str,
    root: &str,
    is_file: bool,
    code: &str,
    kind: &str,
) -> (result: Result<(), String>)
    ensures
        complaint(result) == escape_error(resolved@, root@, is_file, code@, kind@),
{
    if is_within(resolved, root) && is_file {
        return Ok(());
    }
    let mut message = concat_three(code, ": ", kind);
    message.append(" file `");
    message.append(resolved);
    message.append("` escapes package root ");
    message.append(root);
    Err(message)
}

// Loading.

/// A module whose imports are being loaded.
#[derive(Debug)]
pub struct Frame {
    pub path: String,
    pub imports: Vec<String>,
    pub next: usize,
}

pub struct FrameView {
    pub path: Seq<char>,
    pub imports: Seq<Seq<char>>,
    pub next: int,
}

impl Frame {
    pub open spec fn view(&self) -> FrameView {
        FrameView {
            path: self.path@,
            imports: crate::lowered::view::texts(self.imports@),
            next: self.next as int,
        }
    }
}

/// How far the loading of an import graph has come.
#[derive(Debug)]
pub struct Loader {
    pub roots: Vec<String>,
    pub next_root: usize,
    pub stack: Vec<Frame>,
    pub loaded: Vec<String>,
}

pub struct LoaderView {
    pub roots: Seq<Seq<char>>,
    pub next_root: int,
    pub stack: Seq<FrameView>,
    pub loaded: Seq<Seq<char>>,
}

impl Loader {
    pub open spec fn view(&self) -> LoaderView {
        LoaderView {
            roots: crate::lowered::view::texts(self.roots@),
            next_root: self.next_root as int,
            stack: Seq::new(self.stack@.len(), |i: int| self.stack@[i]@),
            loaded: crate::lowered::view::texts(self.loaded@),
        }
    }
}

/// What is to be done next: read a module, report a cycle, or stop.
#[derive(Debug)]
pub enum LoadStep {
    Read(String),
    Cycle(String),
    Finished,
}

#[allow(inconsistent_fields)]
pub enum LoadStepView {
    Read(Seq<char>),
    Cycle(Seq<char>),
    Finished,
}

impl LoadStep {
    pub open spec fn view(&self) -> LoadStepView {
        match *self {
            LoadStep::Read(path) => LoadStepView::Read(path@),
            LoadStep::Cycle(message) => LoadStepView::Cycle(message@),
            LoadStep::Finished => LoadStepView::Finished,
        }
    }
}

/// Whether a module is being loaded.
pub open spec fn is_visited(stack: Seq<FrameView>, path: Seq<char>) -> bool {
    exists|i: int| 0 <= i < stack.len() && (#[trigger] stack[i]).path == path
}

pub open spec fn cycle_message(path: Seq<char>) -> Seq<char> {
    "E-MOD-003: import cycle includes `"@ + path + "`"@
}

pub open spec fn advanced(loader: LoaderView) -> LoaderView {
    if loader.stack.len() == 0 {
        LoaderView { next_root: loader.next_root + 1, ..loader }
    } else {
        let top = loader.stack.last();
        LoaderView {
            stack: loader.stack.update(loader.stack.len() - 1, FrameView { next: top.next + 1, ..top }),
            ..loader
        }
    }
}

/// The module that is looked at next, if there is one.
pub open spec fn candidate(loader: LoaderView) -> Option<Seq<char>> {
    if loader.stack.len() == 0 {
        if 0 <= loader.next_root < loader.roots.len() {
            Some(loader.roots[loader.next_root])
        } else {
            None
        }
    } else {
        let top = loader.stack.last();
        if 0 <= top.next < top.imports.len() {
            Some(top.imports[top.next])
        } else {
            None
        }
    }
}

pub open spec fn rest_of(loader: LoaderView) -> int {
    if loader.stack.len() == 0 {
        0
    } else {
        loader.stack.last().imports.len() - loader.stack.last().next
    }
}

/// What is done next, and the loader then.
pub open spec fn step_of(loader: LoaderView) -> (LoadStepView, LoaderView)
    decreases loader.roots.len() - loader.next_root, loader.stack.len(), rest_of(loader),
{
    match candidate(loader) {
        Some(path) => if loader.loaded.contains(path) {
            step_of(advanced(loader))
        } else if is_visited(loader.stack, path) {
            (LoadStepView::Cycle(cycle_message(path)), loader)
        } else {
            (LoadStepView::Read(path), advanced(loader))
        },
        None => if loader.stack.len() == 0 {
            (LoadStepView::Finished, loader)
        } else {
            step_of(
                LoaderView {
                    stack: loader.stack.drop_last(),
                    loaded: loader.loaded.push(loader.stack.last().path),
                    ..loader
                },
            )
        },
    }
}

fn visited(stack: &Vec<Frame>, path: &str) -> (result: bool)
    ensures
        result == is_visited(Seq::new(stack@.len(), |i: int| stack@[i]@), path@),
{
    let ghost all = Seq::new(stack@.len(), |i: int| stack@[i]@);
    let mut i: usize = 0;
    while i < stack.len()
        invariant
            i <= stack.len(),
            all == Seq::new(stack@.len(), |i: int| stack@[i]@),
            forall|j: int| 0 <= j < i ==> (#[trigger] all[j]).path != path@,
        decreases stack.len() - i,
    {
        if same_text(stack[i].path.as_str(), path) {
            assert(all[i as int].path == path@);
            return true;
        }
        i += 1;
    }
    false
}

fn is_loaded(loaded: &Vec<String>, path: &str) -> (result: bool)
    ensures
        result == crate::lowered::view::texts(loaded@).contains(path@),
{
    let ghost all = crate::lowered::view::texts(loaded@);
    assert(all.len() == loaded@.len());
    let mut i: usize = 0;
    while i < loaded.len()
        invariant
            i <= loaded.len(),
            all == crate::lowered::view::texts(loaded@),
            all.len() == loaded@.len(),
            forall|j: int| 0 <= j < i ==> all[j] != path@,
        decreases loaded.len() - i,
    {
        assert(all[i as int] == loaded@[i as int]@);
        if same_text(loaded[i].as_str(), path) {
            return true;
        }
        i += 1;
    }
    false
}

impl Loader {
    /// A loader that has loaded nothing yet.
    pub fn new(roots: Vec<String>) -> (loader: Loader)
        ensures
            loader@ == (LoaderView {
                    roots: crate::lowered::view::texts(roots@),
                    next_root: 0,
                    stack: Seq::empty(),
                    loaded: Seq::empty(),
            }),
    {
        let loader = Loader { roots, next_root: 0, stack: Vec::new(), loaded: Vec::new() };
        assert(loader@.stack =~= Seq::<FrameView>::empty());
        assert(loader@.loaded =~= Seq::<Seq<char>>::empty());
        loader
    }

    fn candidate(&self) -> (result: Option<String>)
        ensures
            candidate(self@) == (match result {
                    Some(path) => Some(path@),
                    None => None,
            }),
    {
        let count: usize = self.stack.len();
        assert(self@.stack.len() == count);
        if count == 0 {
            assert(self@.roots.len() == self.roots@.len());
            if self.next_root < self.roots.len() {
                assert(self@.roots[self.next_root as int] == self.roots@[self.next_root as int]@);
                Some(self.roots[self.next_root].clone())
            } else {
                None
            }
        } else {
            let top = &self.stack[count - 1];
            assert(self@.stack.last() == top@);
            assert(top@.imports.len() == top.imports@.len());
            if top.next < top.imports.len() {
                assert(top@.imports[top.next as int] == top.imports@[top.next as int]@);
                Some(top.imports[top.next].clone())
            } else {
                None
            }
        }
    }

    fn advance(&mut self)
        requires
            candidate(old(self)@) is Some,
        ensures
            final(self)@ == advanced(old(self)@),
    {
        let ghost before = self@;
        let count: usize = self.stack.len();
        assert(before.stack.len() == count);
        if count == 0 {
            assert(before.roots.len() == self.roots@.len());
            let limit: usize = self.roots.len();
            assert(self.next_root < limit);
            self.next_root += 1;
            assert(self@.stack =~= before.stack);
        } else {
            let last: usize = count - 1;
            let ghost top = self.stack@[last as int];
            assert(before.stack.last() == top@);
            assert(top@.imports.len() == top.imports@.len());
            let limit: usize = self.stack[last].imports.len();
            assert(top.next < limit);
            self.stack[last].next += 1;
            assert(self@.stack =~= advanced(before).stack);
        }
    }

    /// What is to be done next.
    pub fn step(&mut self) -> (step: LoadStep)
        ensures
            (step@, final(self)@) == step_of(old(self)@),
    {
        let ghost first = self@;
        loop
            invariant
                first == old(self)@,
                step_of(first) == step_of(self@),
            decreases self@.roots.len() - self@.next_root, self@.stack.len(), rest_of(self@),
        {
            match self.candidate() {
                Some(path) => {
                    if is_loaded(&self.loaded, path.as_str()) {
                        self.advance();
                    } else if visited(&self.stack, path.as_str()) {
                        return LoadStep::Cycle(
                            concat_three("E-MOD-003: import cycle includes `", path.as_str(), "`"),
                        );
                    } else {
                        self.advance();
                        return LoadStep::Read(path);
                    }
                }
                None => {
                    let ghost before = self@;
                    assert(before.stack.len() == self.stack@.len());
                    match self.stack.pop() {
                        None => {
                            return LoadStep::Finished;
                        }
                        Some(frame) => {
                            assert(before.stack.last() == frame@);
                            let ghost earlier = self.loaded@;
                            self.loaded.push(frame.path);
                            proof {
                                crate::lowered::view::lemma_texts_push(earlier, frame.path);
                                assert(self@.stack =~= before.stack.drop_last());
                            }
                        }
                    }
                }
            }
        }
    }

    /// Takes in a module that was read, with the modules that it imports. They
    /// are loaded in the order of their paths, each once.
    pub fn provide(&mut self, path: String, imports: &Vec<String>)
        ensures
            final(self)@ == provided(old(self)@, path@, crate::lowered::view::texts(imports@)),
    {
        let ghost before = self@;
        let mut ordered: Vec<String> = Vec::new();
        assert(crate::lowered::view::texts(ordered@) =~= Seq::<Seq<char>>::empty());
        add_paths(&mut ordered, imports);
        self.stack.push(Frame { path, imports: ordered, next: 0 });
        assert(self@.stack =~= provided(before, path@, crate::lowered::view::texts(imports@)).stack);
    }
}

/// The loader with a module that was read on top of its stack.
pub open spec fn provided(loader: LoaderView, path: Seq<char>, imports: Seq<Seq<char>>) -> LoaderView {
    LoaderView {
        stack: loader.stack.push(
            FrameView { path, imports: crate::code::cli::with_paths(Seq::empty(), imports, 0), next: 0 },
        ),
        ..loader
    }
}

// Laws.

/// A module is read only when it is neither loaded nor being loaded.
pub proof fn law_modules_are_read_once(loader: LoaderView)
    ensures
        match step_of(loader) {
            (LoadStepView::Read(path), after) => !after.loaded.contains(path) && !is_visited(after.stack, path),
            _ => true,
        },
    decreases loader.roots.len() - loader.next_root, loader.stack.len(), rest_of(loader),
{
    match candidate(loader) {
        Some(path) => if loader.loaded.contains(path) {
            law_modules_are_read_once(advanced(loader));
        } else if !is_visited(loader.stack, path) {
            let after = advanced(loader);
            assert forall|i: int| 0 <= i < after.stack.len() implies (#[trigger] after.stack[i]).path != path by {
                assert(after.stack[i].path == loader.stack[i].path);
            }
        },
        None => if loader.stack.len() > 0 {
            law_modules_are_read_once(
                LoaderView {
                    stack: loader.stack.drop_last(),
                    loaded: loader.loaded.push(loader.stack.last().path),
                    ..loader
                },
            );
        },
    }
}

/// What is loaded stays loaded.
pub proof fn law_loaded_modules_stay_loaded(loader: LoaderView, path: Seq<char>)
    requires
        loader.loaded.contains(path),
    ensures
        step_of(loader).1.loaded.contains(path),
    decreases loader.roots.len() - loader.next_root, loader.stack.len(), rest_of(loader),
{
    match candidate(loader) {
        Some(next) => if loader.loaded.contains(next) {
            law_loaded_modules_stay_loaded(advanced(loader), path);
        },
        None => if loader.stack.len() > 0 {
            let after = LoaderView {
                stack: loader.stack.drop_last(),
                loaded: loader.loaded.push(loader.stack.last().path),
                ..loader
            };
            let i = choose|i: int| 0 <= i < loader.loaded.len() && loader.loaded[i] == path;
            assert(after.loaded[i] == path);
            law_loaded_modules_stay_loaded(after, path);
        },
    }
}

/// A path of names alone below a module's directory stays below it.
pub proof fn law_parent_steps_are_refused(
    path: Seq<char>,
    owner: Seq<char>,
    code: Seq<char>,
    kind: Seq<char>,
    index: int,
)
    requires
        0 <= index < crate::execute::path_text::piece_texts(path).len(),
        crate::execute::path_text::piece_texts(path)[index] == ".."@,
    ensures
        package_file(path, owner, code, kind) is Err,
{
}

} // verus!
