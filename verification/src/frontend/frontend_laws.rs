//! What templates render and how modules are loaded.
use vstd::prelude::*;
use crate::ast::view::TopLevelView;
use crate::frontend::modules::{self, LoadStepView, LoaderView};
use crate::frontend::template::{self, MAX_TEMPLATE_RENDERED_BYTES};
use crate::frontend::view::{CompileFieldView, CompileValueView, FloatTextView, TemplateFailureView, TemplateNodeView};

verus! {

// Templates.

/// What rendering gives, or why it fails.
pub type Rendering = Result<Seq<char>, TemplateFailureView>;

proof fn lemma_rendered_push(
    nodes: Seq<TemplateNodeView>,
    last: TemplateNodeView,
    from: int,
    contexts: Seq<CompileValueView>,
    floats: Seq<FloatTextView>,
    output: Seq<char>,
)
    requires
        0 <= from <= nodes.len(),
    ensures
        template::rendered(nodes.push(last), from, contexts, floats, output) == (match template::rendered(
            nodes,
            from,
            contexts,
            floats,
            output,
        ) {
            Err(error) => Err(error),
            Ok(text) => template::rendered_node(last, contexts, floats, text),
        }),
    decreases nodes.len() - from,
{
    let all = nodes.push(last);
    if from < nodes.len() {
        assert(all[from] == nodes[from]);
        match template::rendered_node(nodes[from], contexts, floats, output) {
            Err(_) => {}
            Ok(next) => lemma_rendered_push(nodes, last, from + 1, contexts, floats, next),
        }
    } else {
        assert(all[from] == last);
        match template::rendered_node(last, contexts, floats, output) {
            Err(_) => {}
            Ok(next) => assert(template::rendered(all, from + 1, contexts, floats, next) == Rendering::Ok(next)),
        }
    }
}

/// The parts of a template are rendered in their order, each behind what the ones
/// before it gave.
pub proof fn law_templates_render_in_order(
    nodes: Seq<TemplateNodeView>,
    last: TemplateNodeView,
    contexts: Seq<CompileValueView>,
    floats: Seq<FloatTextView>,
    output: Seq<char>,
)
    ensures
        template::rendered(Seq::empty(), 0, contexts, floats, output) == Rendering::Ok(output),
        template::rendered(nodes.push(last), 0, contexts, floats, output) == (match template::rendered(
            nodes,
            0,
            contexts,
            floats,
            output,
        ) {
            Err(error) => Err(error),
            Ok(text) => template::rendered_node(last, contexts, floats, text),
        }),
{
    lemma_rendered_push(nodes, last, 0, contexts, floats, output);
}

/// A variable gives the text of its value behind what is there: texts as they are,
/// integers in decimal, truth values as words, nothing for what is null; arrays and
/// records have no text, and an unknown name is an error.
pub proof fn law_variables_give_the_text_of_their_value(
    name: Seq<char>,
    contexts: Seq<CompileValueView>,
    floats: Seq<FloatTextView>,
    output: Seq<char>,
)
    ensures
        ({
            let done = template::rendered_node(TemplateNodeView::Variable(name), contexts, floats, output);
            match template::value_named(contexts, name) {
                Some(CompileValueView::String(text)) => done is Ok ==> done == Rendering::Ok(output + text),
                Some(CompileValueView::Int(number)) => done is Ok ==> done == Rendering::Ok(
                    output + crate::text::signed_decimal(number as int),
                ),
                Some(CompileValueView::Bool(flag)) => done is Ok ==> done == Rendering::Ok(
                    output + (if flag { "true"@ } else { "false"@ }),
                ),
                Some(CompileValueView::Null) => done is Ok ==> done == Rendering::Ok(output),
                Some(CompileValueView::Float(bits)) => true,
                _ => done is Err,
            }
        }),
        ({
            let value = template::value_named(contexts, name);
            value matches Some(CompileValueView::String(text)) && crate::execute::strings::byte_len(output)
                + crate::execute::strings::byte_len(text) <= MAX_TEMPLATE_RENDERED_BYTES ==> template::rendered_node(
                TemplateNodeView::Variable(name),
                contexts,
                floats,
                output,
            ) is Ok
        }),
{
    assert(output + Seq::<char>::empty() =~= output);
}

/// A section is rendered for what is there: for an array once for each item, for
/// another value once with its members in reach, and not at all for what is null, false
/// or empty. An inverted section is rendered in those last cases alone.
pub proof fn law_sections_depend_on_their_value(
    name: Seq<char>,
    children: Seq<TemplateNodeView>,
    contexts: Seq<CompileValueView>,
    floats: Seq<FloatTextView>,
    output: Seq<char>,
    value: CompileValueView,
)
    requires
        template::value_named(contexts, name) == Some(value),
    ensures
        ({
            let section = TemplateNodeView::Section { name, inverted: false, children };
            let inverse = TemplateNodeView::Section { name, inverted: true, children };
            let nothing = value is Null || value == CompileValueView::Bool(false) || (value matches CompileValueView::Array(
                items,
            ) && items.len() == 0);
            &&& nothing ==> template::rendered_node(section, contexts, floats, output) == Rendering::Ok(output)
                && template::rendered_node(inverse, contexts, floats, output) == template::rendered(
                children,
                0,
                contexts,
                floats,
                output,
            )
            &&& !nothing ==> template::rendered_node(inverse, contexts, floats, output) == Rendering::Ok(output)
            &&& !nothing && !(value is Array) ==> template::rendered_node(section, contexts, floats, output)
                == template::rendered(children, 0, contexts.push(value), floats, output)
            &&& !nothing && value is Array ==> template::rendered_node(section, contexts, floats, output)
                == template::rendered_items(children, value->Array_0, 0, contexts, floats, output)
        }),
{
}

proof fn lemma_items_push(
    children: Seq<TemplateNodeView>,
    items: Seq<CompileValueView>,
    last: CompileValueView,
    from: int,
    contexts: Seq<CompileValueView>,
    floats: Seq<FloatTextView>,
    output: Seq<char>,
)
    requires
        0 <= from <= items.len(),
    ensures
        template::rendered_items(children, items.push(last), from, contexts, floats, output) == (
        match template::rendered_items(children, items, from, contexts, floats, output) {
            Err(error) => Err(error),
            Ok(text) => template::rendered(children, 0, contexts.push(last), floats, text),
        }),
    decreases items.len() - from,
{
    let all = items.push(last);
    if from < items.len() {
        assert(all[from] == items[from]);
        match template::rendered(children, 0, contexts.push(items[from]), floats, output) {
            Err(_) => {}
            Ok(next) => lemma_items_push(children, items, last, from + 1, contexts, floats, next),
        }
    } else {
        assert(all[from] == last);
        match template::rendered(children, 0, contexts.push(last), floats, output) {
            Err(_) => {}
            Ok(next) => assert(template::rendered_items(children, all, from + 1, contexts, floats, next)
                == Rendering::Ok(next)),
        }
    }
}

/// A section over an array is rendered once for each item, in order, with the item in
/// reach.
pub proof fn law_sections_repeat_for_each_item(
    children: Seq<TemplateNodeView>,
    items: Seq<CompileValueView>,
    last: CompileValueView,
    contexts: Seq<CompileValueView>,
    floats: Seq<FloatTextView>,
    output: Seq<char>,
)
    ensures
        template::rendered_items(children, Seq::empty(), 0, contexts, floats, output) == Rendering::Ok(output),
        template::rendered_items(children, items.push(last), 0, contexts, floats, output) == (
        match template::rendered_items(children, items, 0, contexts, floats, output) {
            Err(error) => Err(error),
            Ok(text) => template::rendered(children, 0, contexts.push(last), floats, text),
        }),
{
    lemma_items_push(children, items, last, 0, contexts, floats, output);
}

/// A name stands for the innermost value that has it, and a dot for the innermost value
/// itself.
pub proof fn law_inner_values_come_first(
    outer: Seq<CompileValueView>,
    inner: CompileValueView,
    names: Seq<Seq<char>>,
)
    requires
        names.len() > 0,
    ensures
        template::value_named(outer.push(inner), "."@) == Some(inner),
        template::member(inner, names[0]) is None ==> template::found(outer.push(inner), outer.len() as int + 1, names)
            == template::found(outer, outer.len() as int, names),
        names.len() == 1 && template::member(inner, names[0]) is Some ==> template::found(
            outer.push(inner),
            outer.len() as int + 1,
            names,
        ) == template::member(inner, names[0]),
{
    let all = outer.push(inner);
    assert(all.last() == inner);
    assert(all[outer.len() as int] == inner);
    lemma_same_contexts(outer, all, outer.len() as int, names);
    match template::member(inner, names[0]) {
        Some(value) => assert(names.len() == 1 ==> template::inside(value, names, 1) == Some(value)),
        None => {}
    }
}

proof fn lemma_same_contexts(
    left: Seq<CompileValueView>,
    right: Seq<CompileValueView>,
    count: int,
    names: Seq<Seq<char>>,
)
    requires
        0 <= count <= left.len(),
        count <= right.len(),
        forall|i: int| 0 <= i < count ==> left[i] == right[i],
    ensures
        template::found(left, count, names) == template::found(right, count, names),
    decreases count,
{
    if count > 0 {
        lemma_same_contexts(left, right, count - 1, names);
    }
}

proof fn lemma_field(fields: Seq<CompileFieldView>, from: int, place: int, name: Seq<char>)
    requires
        0 <= from <= place <= fields.len(),
        forall|i: int| from <= i < place ==> (#[trigger] fields[i]).name != name,
        place < fields.len() ==> fields[place].name == name,
    ensures
        template::field_of(fields, from, name) == (if place < fields.len() {
            Some(fields[place].value)
        } else {
            None
        }),
    decreases place - from,
{
    if from < place {
        lemma_field(fields, from + 1, place, name);
    }
}

/// A member of a record is found under its name; other values have none.
pub proof fn law_members_are_found_by_name(fields: Seq<CompileFieldView>, place: int, name: Seq<char>)
    requires
        0 <= place <= fields.len(),
        forall|i: int| 0 <= i < place ==> (#[trigger] fields[i]).name != name,
        place < fields.len() ==> fields[place].name == name,
    ensures
        template::member(CompileValueView::Record(fields), name) == (if place < fields.len() {
            Some(fields[place].value)
        } else {
            None
        }),
        template::member(CompileValueView::Null, name) is None,
{
    lemma_field(fields, 0, place, name);
}

// Modules.

proof fn lemma_repeated(forms: Seq<TopLevelView>, from: int, seen: Set<Seq<char>>)
    requires
        0 <= from <= forms.len(),
        forall|name: Seq<char>| #[trigger] seen.contains(name) == exists|i: int|
            0 <= i < from && modules::name_of(#[trigger] forms[i]) == name,
        forall|i: int, j: int|
            0 <= i < j < from ==> modules::name_of(#[trigger] forms[i]) != modules::name_of(#[trigger] forms[j]),
    ensures
        (modules::repeated(forms, from, seen) is None) == (forall|i: int, j: int|
            0 <= i < j < forms.len() ==> modules::name_of(#[trigger] forms[i]) != modules::name_of(#[trigger] forms[j])),
        modules::repeated(forms, from, seen) matches Some(name) ==> exists|i: int, j: int|
            0 <= i < j < forms.len() && modules::name_of(#[trigger] forms[i]) == name && modules::name_of(
                #[trigger] forms[j],
            ) == name,
    decreases forms.len() - from,
{
    if from < forms.len() {
        let name = modules::name_of(forms[from]);
        if seen.contains(name) {
            let i = choose|i: int| 0 <= i < from && modules::name_of(#[trigger] forms[i]) == name;
            assert(0 <= i < from && modules::name_of(forms[i]) == modules::name_of(forms[from]));
        } else {
            let more = seen.insert(name);
            assert forall|other: Seq<char>| #[trigger] more.contains(other) == exists|i: int|
                0 <= i < from + 1 && modules::name_of(#[trigger] forms[i]) == other by {
                if other == name {
                    assert(modules::name_of(forms[from]) == other);
                }
                if seen.contains(other) {
                    let i = choose|i: int| 0 <= i < from && modules::name_of(#[trigger] forms[i]) == other;
                    assert(0 <= i < from + 1);
                }
            }
            assert forall|i: int, j: int| 0 <= i < j < from + 1 implies modules::name_of(#[trigger] forms[i])
                != modules::name_of(#[trigger] forms[j]) by {
                if j == from && modules::name_of(forms[i]) == name {
                    assert(seen.contains(name));
                }
            }
            lemma_repeated(forms, from + 1, more);
        }
    }
}

/// The top-level names of a module are checked to differ: a name that is there twice is
/// found, and nothing else is.
pub proof fn law_repeated_names_are_found(forms: Seq<TopLevelView>)
    ensures
        (modules::repeated(forms, 0, Set::empty()) is None) == (forall|i: int, j: int|
            0 <= i < j < forms.len() ==> modules::name_of(#[trigger] forms[i]) != modules::name_of(#[trigger] forms[j])),
        modules::repeated(forms, 0, Set::empty()) matches Some(name) ==> exists|i: int, j: int|
            0 <= i < j < forms.len() && modules::name_of(#[trigger] forms[i]) == name && modules::name_of(
                #[trigger] forms[j],
            ) == name,
{
    lemma_repeated(forms, 0, Set::empty());
}

/// A conditional part is taken where all of its flags are set, left out where one of
/// them is not, and refused where one is not known. Other files are no parts.
pub proof fn law_parts_are_selected_by_flags(
    base: Seq<char>,
    file: Seq<char>,
    suffix: Seq<char>,
    flags: Set<Seq<char>>,
    accepted: Set<Seq<char>>,
    flag: Seq<char>,
)
    requires
        modules::part_flags(base, file) == Some(suffix),
        suffix.len() > 0,
        crate::text::split(suffix, '.').contains(flag),
    ensures
        !accepted.contains(flag) ==> modules::part_selected(base, file, flags, accepted) is Err,
        !flags.contains(flag) ==> modules::part_selected(base, file, flags, accepted) != Ok::<bool, Seq<char>>(true),
        (forall|i: int|
            0 <= i < crate::text::split(suffix, '.').len() ==> flags.contains(
                #[trigger] crate::text::split(suffix, '.')[i],
            ) && accepted.contains(crate::text::split(suffix, '.')[i])) ==> modules::part_selected(
            base,
            file,
            flags,
            accepted,
        ) == Ok::<bool, Seq<char>>(true),
{
    let asked = crate::text::split(suffix, '.');
    let i = choose|i: int| 0 <= i < asked.len() && asked[i] == flag;
    assert(asked[i] == flag);
}

/// The files of parts are named by the module, the flags and the extension.
pub proof fn law_part_files_carry_their_flags(base: Seq<char>, suffix: Seq<char>)
    ensures
        modules::part_flags(base, base + "."@ + suffix + ".vibra"@) == Some(suffix),
        modules::part_flags(base, base + ".vibra"@) is None,
{
    reveal_strlit(".vibra");
    reveal_strlit(".");
    let stem = base + "."@ + suffix;
    let file = stem + ".vibra"@;
    assert(file.subrange(stem.len() as int, stem.len() as int + 6) =~= ".vibra"@);
    assert(file.take(stem.len() as int) =~= stem);
    let prefix = base + "."@;
    assert(stem.take(prefix.len() as int) =~= prefix);
    assert(stem.skip(prefix.len() as int) =~= suffix);
    let plain = base + ".vibra"@;
    assert(plain.subrange(base.len() as int, base.len() as int + 6) =~= ".vibra"@);
    assert(plain.take(base.len() as int) =~= base);
    assert(prefix.len() == base.len() + 1);
}

/// Whether every root before the next one is loaded, or is being loaded, or is the one
/// that was asked for last.
pub open spec fn roots_are_covered(loader: LoaderView, asked: Option<Seq<char>>) -> bool {
    forall|i: int|
        0 <= i < loader.next_root && i < loader.roots.len() ==> loader.loaded.contains(#[trigger] loader.roots[i])
            || modules::is_visited(loader.stack, loader.roots[i]) || asked == Some(loader.roots[i])
}

proof fn lemma_visited_or_loaded(loader: LoaderView, path: Seq<char>)
    requires
        loader.stack.len() > 0,
        loader.loaded.contains(path) || modules::is_visited(loader.stack, path),
    ensures
        loader.loaded.push(loader.stack.last().path).contains(path) || modules::is_visited(
            loader.stack.drop_last(),
            path,
        ),
{
    let more = loader.loaded.push(loader.stack.last().path);
    if loader.loaded.contains(path) {
        let i = choose|i: int| 0 <= i < loader.loaded.len() && loader.loaded[i] == path;
        assert(more[i] == path);
    } else {
        let i = choose|i: int| 0 <= i < loader.stack.len() && (#[trigger] loader.stack[i]).path == path;
        if i < loader.stack.len() - 1 {
            assert(loader.stack.drop_last()[i].path == path);
        } else {
            assert(more[loader.loaded.len() as int] == path);
        }
    }
}

/// No root is forgotten: behind each step every root that came up is loaded, being
/// loaded or asked for, and where loading is finished all of them are loaded.
pub proof fn law_every_root_is_loaded(loader: LoaderView)
    requires
        roots_are_covered(loader, None),
        0 <= loader.next_root,
    ensures
        ({
            let (step, after) = modules::step_of(loader);
            &&& after.roots == loader.roots
            &&& step matches LoadStepView::Read(path) ==> roots_are_covered(after, Some(path))
            &&& step is Finished ==> forall|i: int|
                0 <= i < loader.roots.len() ==> after.loaded.contains(#[trigger] loader.roots[i])
        }),
    decreases loader.roots.len() - loader.next_root, loader.stack.len(), modules::rest_of(loader),
{
    match modules::candidate(loader) {
        Some(path) => {
            let next = modules::advanced(loader);
            assert forall|name: Seq<char>| modules::is_visited(loader.stack, name) implies #[trigger] modules::is_visited(
                next.stack,
                name,
            ) by {
                let i = choose|i: int| 0 <= i < loader.stack.len() && (#[trigger] loader.stack[i]).path == name;
                assert(next.stack[i].path == name);
            }
            assert forall|i: int| 0 <= i < next.next_root && i < next.roots.len() implies next.loaded.contains(
                #[trigger] next.roots[i],
            ) || modules::is_visited(next.stack, next.roots[i]) || next.roots[i] == path by {
                if i < loader.next_root {
                    assert(loader.loaded.contains(loader.roots[i]) || modules::is_visited(loader.stack, loader.roots[i]));
                    if modules::is_visited(loader.stack, loader.roots[i]) {
                        assert(modules::is_visited(next.stack, loader.roots[i]));
                    }
                }
            }
            if loader.loaded.contains(path) {
                law_every_root_is_loaded(next);
            }
        }
        None => if loader.stack.len() > 0 {
            let next = LoaderView {
                stack: loader.stack.drop_last(),
                loaded: loader.loaded.push(loader.stack.last().path),
                ..loader
            };
            assert forall|i: int| 0 <= i < next.next_root && i < next.roots.len() implies next.loaded.contains(
                #[trigger] next.roots[i],
            ) || modules::is_visited(next.stack, next.roots[i]) by {
                assert(loader.loaded.contains(loader.roots[i]) || modules::is_visited(loader.stack, loader.roots[i]));
                lemma_visited_or_loaded(loader, loader.roots[i]);
            }
            law_every_root_is_loaded(next);
        } else {
            assert forall|i: int| 0 <= i < loader.roots.len() implies loader.loaded.contains(#[trigger] loader.roots[i]) by {
                if modules::is_visited(loader.stack, loader.roots[i]) {
                    let k = choose|k: int| 0 <= k < loader.stack.len() && (#[trigger] loader.stack[k]).path == loader.roots[i];
                    assert(false);
                }
            }
        },
    }
}

/// A module that imports itself, directly or through others, is a cycle: what is being
/// loaded is not asked for again.
pub proof fn law_cycles_are_reported(loader: LoaderView, path: Seq<char>)
    requires
        modules::candidate(loader) == Some(path),
        !loader.loaded.contains(path),
    ensures
        modules::is_visited(loader.stack, path) ==> modules::step_of(loader).0 is Cycle,
        !modules::is_visited(loader.stack, path) ==> modules::step_of(loader).0 == LoadStepView::Read(path),
{
}

/// What a module imports comes before the module: it is finished only when none of its
/// imports is left.
pub proof fn law_modules_finish_behind_their_imports(loader: LoaderView)
    requires
        loader.stack.len() > 0,
        0 <= loader.stack.last().next <= loader.stack.last().imports.len(),
    ensures
        loader.stack.last().next < loader.stack.last().imports.len() ==> modules::candidate(loader) == Some(
            loader.stack.last().imports[loader.stack.last().next],
        ),
        loader.stack.last().next == loader.stack.last().imports.len() ==> modules::step_of(loader) == modules::step_of(
            LoaderView {
                stack: loader.stack.drop_last(),
                loaded: loader.loaded.push(loader.stack.last().path),
                ..loader
            },
        ),
{
}

} // verus!
