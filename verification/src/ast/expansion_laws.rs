//! What macro expansion keeps of a program.
use vstd::prelude::*;
use crate::ast::expansion_state::ExpansionState;
use crate::ast::macro_error::MacroErrorView;
use crate::ast::typed_macro_expand::{
    all_forms, expanded_control, expanded_data, expanded_expr, expanded_expr_field, expanded_expr_fields,
    expanded_expr_pair, expanded_expr_pairs, expanded_exprs, expanded_forms, expanded_match_case, expanded_match_cases,
    expanded_module, expanded_modules, expanded_optional_expr, expanded_optional_type_expr, expanded_parameters,
    expanded_parts, expanded_pattern, expanded_pattern_field, expanded_pattern_fields, expanded_pattern_pair,
    expanded_pattern_pairs, expanded_patterns, expanded_plain, expanded_program, expanded_top_level,
    expanded_type_expr, expanded_type_exprs, expanded_type_member, expanded_type_members, imports_of, macro_failure,
    macro_table, module_index, program_failure, symbols_of, with_imports, with_macros, ImportsView, MacroEntryView,
    ProgramView,
};
use crate::ast::view::{
    ConstantView, DefinitionView, ExprFieldView, ExprKindView, ExprView, FunctionView, MatchCaseView, ModuleView,
    ParameterView, PatternFieldView, PatternKindView, PatternView, TestView, TopLevelView, TypeExprKindView,
    TypeExprView, TypeMemberView,
};

verus! {

// Without macros nothing changes.

proof fn lemma_kept_type_expr(node: TypeExprView, depth: nat, state: ExpansionState)
    ensures
        expanded_type_expr(node, Map::empty(), depth, state) == Ok::<
            (TypeExprView, ExpansionState),
            MacroErrorView,
        >((node, state)),
    decreases node, 0int,
{
    reveal(expanded_type_expr);
    match node.value {
        TypeExprKindView::Application { constructor, arguments } => {
            lemma_kept_type_exprs(arguments, 0, Seq::empty(), depth, state);
            assert(Seq::empty() + arguments.skip(0) =~= arguments);
        }
        TypeExprKindView::Record(values) => {
            lemma_kept_type_members(values, 0, Seq::empty(), depth, state);
            assert(Seq::empty() + values.skip(0) =~= values);
        }
        TypeExprKindView::Tuple(values) => {
            lemma_kept_type_exprs(values, 0, Seq::empty(), depth, state);
            assert(Seq::empty() + values.skip(0) =~= values);
        }
        TypeExprKindView::Array(value) => {
            lemma_kept_type_expr(*value, depth, state);
        }
        TypeExprKindView::Mapping(first, second) => {
            lemma_kept_type_expr(*first, depth, state);
            lemma_kept_type_expr(*second, depth, state);
        }
        TypeExprKindView::Union(values) => {
            lemma_kept_type_exprs(values, 0, Seq::empty(), depth, state);
            assert(Seq::empty() + values.skip(0) =~= values);
        }
        TypeExprKindView::Enum(values) => {
            lemma_kept_type_members(values, 0, Seq::empty(), depth, state);
            assert(Seq::empty() + values.skip(0) =~= values);
        }
        TypeExprKindView::Interface(values) => {
            lemma_kept_type_members(values, 0, Seq::empty(), depth, state);
            assert(Seq::empty() + values.skip(0) =~= values);
        }
        TypeExprKindView::Function { parameters, result } => {
            lemma_kept_type_exprs(parameters, 0, Seq::empty(), depth, state);
            assert(Seq::empty() + parameters.skip(0) =~= parameters);
            lemma_kept_type_expr(*result, depth, state);
        }
        TypeExprKindView::Newtype(value) => {
            lemma_kept_type_expr(*value, depth, state);
        }
        TypeExprKindView::Mutable(value) => {
            lemma_kept_type_expr(*value, depth, state);
        }
        TypeExprKindView::Reference(value) => {
            lemma_kept_type_expr(*value, depth, state);
        }
        TypeExprKindView::MutableReference(value) => {
            lemma_kept_type_expr(*value, depth, state);
        }
        TypeExprKindView::Intersect(values) => {
            lemma_kept_type_exprs(values, 0, Seq::empty(), depth, state);
            assert(Seq::empty() + values.skip(0) =~= values);
        }
        TypeExprKindView::Domain { head, arguments } => {
            lemma_kept_type_exprs(arguments, 0, Seq::empty(), depth, state);
            assert(Seq::empty() + arguments.skip(0) =~= arguments);
        }
        _ => {}
    }
}

proof fn lemma_kept_optional_type_expr(node: Option<TypeExprView>, depth: nat, state: ExpansionState)
    ensures
        expanded_optional_type_expr(node, Map::empty(), depth, state) == Ok::<
            (Option<TypeExprView>, ExpansionState),
            MacroErrorView,
        >((node, state)),
    decreases node, 0int,
{
    reveal(expanded_type_expr);
    reveal(expanded_optional_type_expr);
    match node {
        Some(inner) => lemma_kept_type_expr(inner, depth, state),
        None => {}
    }
}

proof fn lemma_kept_type_exprs(
    nodes: Seq<TypeExprView>,
    from: int,
    done: Seq<TypeExprView>,
    depth: nat,
    state: ExpansionState,
)
    requires
        0 <= from <= nodes.len(),
    ensures
        expanded_type_exprs(nodes, from, done, Map::empty(), depth, state) == Ok::<
            (Seq<TypeExprView>, ExpansionState),
            MacroErrorView,
        >(
            (done + nodes.skip(from), state),
        ),
    decreases nodes, nodes.len() - from,
{
    reveal(expanded_type_expr);
    if from < nodes.len() {
        lemma_kept_type_expr(nodes[from], depth, state);
        lemma_kept_type_exprs(nodes, from + 1, done.push(nodes[from]), depth, state);
        assert(done.push(nodes[from]) + nodes.skip(from + 1) =~= done + nodes.skip(from));
    } else {
        assert(done + nodes.skip(from) =~= done);
    }
}

proof fn lemma_kept_type_member(node: TypeMemberView, depth: nat, state: ExpansionState)
    ensures
        expanded_type_member(node, Map::empty(), depth, state) == Ok::<
            (TypeMemberView, ExpansionState),
            MacroErrorView,
        >((node, state)),
    decreases node, 0int,
{
    reveal(expanded_type_expr);
    lemma_kept_type_expr(node.ty, depth, state);
}

proof fn lemma_kept_type_members(
    nodes: Seq<TypeMemberView>,
    from: int,
    done: Seq<TypeMemberView>,
    depth: nat,
    state: ExpansionState,
)
    requires
        0 <= from <= nodes.len(),
    ensures
        expanded_type_members(nodes, from, done, Map::empty(), depth, state) == Ok::<
            (Seq<TypeMemberView>, ExpansionState),
            MacroErrorView,
        >(
            (done + nodes.skip(from), state),
        ),
    decreases nodes, nodes.len() - from,
{
    if from < nodes.len() {
        lemma_kept_type_member(nodes[from], depth, state);
        lemma_kept_type_members(nodes, from + 1, done.push(nodes[from]), depth, state);
        assert(done.push(nodes[from]) + nodes.skip(from + 1) =~= done + nodes.skip(from));
    } else {
        assert(done + nodes.skip(from) =~= done);
    }
}

proof fn lemma_kept_pattern(node: PatternView, depth: nat, state: ExpansionState)
    ensures
        expanded_pattern(node, Map::empty(), depth, state) == Ok::<
            (PatternView, ExpansionState),
            MacroErrorView,
        >((node, state)),
    decreases node, 0int,
{
    reveal(expanded_type_expr);
    reveal(expanded_pattern);
    match node.value {
        PatternKindView::Constructor { constructor, arguments } => {
            lemma_kept_patterns(arguments, 0, Seq::empty(), depth, state);
            assert(Seq::empty() + arguments.skip(0) =~= arguments);
        }
        PatternKindView::Record(values) => {
            lemma_kept_pattern_fields(values, 0, Seq::empty(), depth, state);
            assert(Seq::empty() + values.skip(0) =~= values);
        }
        PatternKindView::Tuple(values) => {
            lemma_kept_patterns(values, 0, Seq::empty(), depth, state);
            assert(Seq::empty() + values.skip(0) =~= values);
        }
        PatternKindView::Array(values) => {
            lemma_kept_patterns(values, 0, Seq::empty(), depth, state);
            assert(Seq::empty() + values.skip(0) =~= values);
        }
        PatternKindView::Mapping(values) => {
            lemma_kept_pattern_pairs(values, 0, Seq::empty(), depth, state);
            assert(Seq::empty() + values.skip(0) =~= values);
        }
        PatternKindView::Newtype { ty, pattern } => {
            lemma_kept_type_expr(ty, depth, state);
            lemma_kept_pattern(*pattern, depth, state);
        }
        PatternKindView::Interface { ty, pattern } => {
            lemma_kept_type_expr(ty, depth, state);
            lemma_kept_pattern(*pattern, depth, state);
        }
        _ => {}
    }
}

proof fn lemma_kept_patterns(
    nodes: Seq<PatternView>,
    from: int,
    done: Seq<PatternView>,
    depth: nat,
    state: ExpansionState,
)
    requires
        0 <= from <= nodes.len(),
    ensures
        expanded_patterns(nodes, from, done, Map::empty(), depth, state) == Ok::<
            (Seq<PatternView>, ExpansionState),
            MacroErrorView,
        >(
            (done + nodes.skip(from), state),
        ),
    decreases nodes, nodes.len() - from,
{
    reveal(expanded_pattern);
    if from < nodes.len() {
        lemma_kept_pattern(nodes[from], depth, state);
        lemma_kept_patterns(nodes, from + 1, done.push(nodes[from]), depth, state);
        assert(done.push(nodes[from]) + nodes.skip(from + 1) =~= done + nodes.skip(from));
    } else {
        assert(done + nodes.skip(from) =~= done);
    }
}

proof fn lemma_kept_pattern_field(node: PatternFieldView, depth: nat, state: ExpansionState)
    ensures
        expanded_pattern_field(node, Map::empty(), depth, state) == Ok::<
            (PatternFieldView, ExpansionState),
            MacroErrorView,
        >((node, state)),
    decreases node, 0int,
{
    reveal(expanded_pattern);
    lemma_kept_pattern(node.pattern, depth, state);
}

proof fn lemma_kept_pattern_fields(
    nodes: Seq<PatternFieldView>,
    from: int,
    done: Seq<PatternFieldView>,
    depth: nat,
    state: ExpansionState,
)
    requires
        0 <= from <= nodes.len(),
    ensures
        expanded_pattern_fields(nodes, from, done, Map::empty(), depth, state) == Ok::<
            (Seq<PatternFieldView>, ExpansionState),
            MacroErrorView,
        >(
            (done + nodes.skip(from), state),
        ),
    decreases nodes, nodes.len() - from,
{
    if from < nodes.len() {
        lemma_kept_pattern_field(nodes[from], depth, state);
        lemma_kept_pattern_fields(nodes, from + 1, done.push(nodes[from]), depth, state);
        assert(done.push(nodes[from]) + nodes.skip(from + 1) =~= done + nodes.skip(from));
    } else {
        assert(done + nodes.skip(from) =~= done);
    }
}

proof fn lemma_kept_pattern_pair(node: (PatternView, PatternView), depth: nat, state: ExpansionState)
    ensures
        expanded_pattern_pair(node, Map::empty(), depth, state) == Ok::<
            ((PatternView, PatternView), ExpansionState),
            MacroErrorView,
        >((node, state)),
    decreases node, 0int,
{
    reveal(expanded_pattern);
    lemma_kept_pattern(node.0, depth, state);
    lemma_kept_pattern(node.1, depth, state);
}

proof fn lemma_kept_pattern_pairs(
    nodes: Seq<(PatternView, PatternView)>,
    from: int,
    done: Seq<(PatternView, PatternView)>,
    depth: nat,
    state: ExpansionState,
)
    requires
        0 <= from <= nodes.len(),
    ensures
        expanded_pattern_pairs(nodes, from, done, Map::empty(), depth, state) == Ok::<
            (Seq<(PatternView, PatternView)>, ExpansionState),
            MacroErrorView,
        >(
            (done + nodes.skip(from), state),
        ),
    decreases nodes, nodes.len() - from,
{
    if from < nodes.len() {
        lemma_kept_pattern_pair(nodes[from], depth, state);
        lemma_kept_pattern_pairs(nodes, from + 1, done.push(nodes[from]), depth, state);
        assert(done.push(nodes[from]) + nodes.skip(from + 1) =~= done + nodes.skip(from));
    } else {
        assert(done + nodes.skip(from) =~= done);
    }
}

proof fn lemma_kept_control(value: ExprKindView, depth: nat, state: ExpansionState)
    ensures
        expanded_control(value, Map::empty(), depth, state) == Ok::<
            (ExprKindView, ExpansionState),
            MacroErrorView,
        >((value, state)),
    decreases value, 0int,
{
    reveal(expanded_optional_type_expr);
    match value {
        ExprKindView::Do(values) => {
            lemma_kept_exprs(values, 0, Seq::empty(), depth, state);
            assert(Seq::empty() + values.skip(0) =~= values);
        }
        ExprKindView::Let { name, ty, value } => {
            lemma_kept_optional_type_expr(ty, depth, state);
            lemma_kept_expr(*value, depth, state);
        }
        ExprKindView::Assign { name, value } => {
            lemma_kept_expr(*value, depth, state);
        }
        ExprKindView::Return(value) => {
            lemma_kept_optional_expr(value, depth, state);
        }
        ExprKindView::If { condition, then_body, else_body } => {
            lemma_kept_expr(*condition, depth, state);
            lemma_kept_exprs(then_body, 0, Seq::empty(), depth, state);
            assert(Seq::empty() + then_body.skip(0) =~= then_body);
            lemma_kept_exprs(else_body, 0, Seq::empty(), depth, state);
            assert(Seq::empty() + else_body.skip(0) =~= else_body);
        }
        ExprKindView::While { condition, body } => {
            lemma_kept_expr(*condition, depth, state);
            lemma_kept_exprs(body, 0, Seq::empty(), depth, state);
            assert(Seq::empty() + body.skip(0) =~= body);
        }
        ExprKindView::For { binding, source, body } => {
            lemma_kept_expr(*source, depth, state);
            lemma_kept_exprs(body, 0, Seq::empty(), depth, state);
            assert(Seq::empty() + body.skip(0) =~= body);
        }
        ExprKindView::Match { target, cases } => {
            lemma_kept_expr(*target, depth, state);
            lemma_kept_match_cases(cases, 0, Seq::empty(), depth, state);
            assert(Seq::empty() + cases.skip(0) =~= cases);
        }
        _ => {}
    }
}

proof fn lemma_kept_data(value: ExprKindView, depth: nat, state: ExpansionState)
    ensures
        expanded_data(value, Map::empty(), depth, state) == Ok::<
            (ExprKindView, ExpansionState),
            MacroErrorView,
        >((value, state)),
    decreases value, 0int,
{
    reveal(expanded_type_expr);
    match value {
        ExprKindView::Record(values) => {
            lemma_kept_expr_fields(values, 0, Seq::empty(), depth, state);
            assert(Seq::empty() + values.skip(0) =~= values);
        }
        ExprKindView::Tuple(values) => {
            lemma_kept_exprs(values, 0, Seq::empty(), depth, state);
            assert(Seq::empty() + values.skip(0) =~= values);
        }
        ExprKindView::Array(values) => {
            lemma_kept_exprs(values, 0, Seq::empty(), depth, state);
            assert(Seq::empty() + values.skip(0) =~= values);
        }
        ExprKindView::Mapping(values) => {
            lemma_kept_expr_pairs(values, 0, Seq::empty(), depth, state);
            assert(Seq::empty() + values.skip(0) =~= values);
        }
        ExprKindView::Mutable(value) => {
            lemma_kept_expr(*value, depth, state);
        }
        ExprKindView::ReferenceOf(value) => {
            lemma_kept_expr(*value, depth, state);
        }
        ExprKindView::Range(first, second, third) => {
            lemma_kept_expr(*first, depth, state);
            lemma_kept_expr(*second, depth, state);
            lemma_kept_expr(*third, depth, state);
        }
        ExprKindView::Convert { value, into, fallback } => {
            lemma_kept_expr(*value, depth, state);
            lemma_kept_type_expr(into, depth, state);
        }
        ExprKindView::Cast { value, into } => {
            lemma_kept_expr(*value, depth, state);
            lemma_kept_type_expr(into, depth, state);
        }
        _ => {}
    }
}

proof fn lemma_kept_plain(value: ExprKindView, depth: nat, state: ExpansionState)
    ensures
        expanded_plain(value, Map::empty(), depth, state) == Ok::<
            (ExprKindView, ExpansionState),
            MacroErrorView,
        >((value, state)),
    decreases value, 0int,
{
    match value {
        ExprKindView::Call { callee, arguments } => {
            lemma_kept_exprs(arguments, 0, Seq::empty(), depth, state);
            assert(Seq::empty() + arguments.skip(0) =~= arguments);
        }
        ExprKindView::Task { captures, body } => {
            lemma_kept_exprs(body, 0, Seq::empty(), depth, state);
            assert(Seq::empty() + body.skip(0) =~= body);
        }
        ExprKindView::Spawn { handle, captures, value } => {
            lemma_kept_expr(*value, depth, state);
        }
        _ => {}
    }
}

proof fn lemma_kept_expr(node: ExprView, depth: nat, state: ExpansionState)
    ensures
        expanded_expr(node, Map::empty(), depth, state) == Ok::<
            (ExprView, ExpansionState),
            MacroErrorView,
        >((node, state)),
    decreases node, 0int,
{
    if node.value.is_control() {
        lemma_kept_control(node.value, depth, state);
    } else if node.value.is_data() {
        lemma_kept_data(node.value, depth, state);
    } else {
        lemma_kept_plain(node.value, depth, state);
    }
}

proof fn lemma_kept_optional_expr(node: Option<Box<ExprView>>, depth: nat, state: ExpansionState)
    ensures
        expanded_optional_expr(node, Map::empty(), depth, state) == Ok::<
            (Option<Box<ExprView>>, ExpansionState),
            MacroErrorView,
        >((node, state)),
    decreases node, 0int,
{
    match node {
        Some(inner) => lemma_kept_expr(*inner, depth, state),
        None => {}
    }
}

proof fn lemma_kept_exprs(nodes: Seq<ExprView>, from: int, done: Seq<ExprView>, depth: nat, state: ExpansionState)
    requires
        0 <= from <= nodes.len(),
    ensures
        expanded_exprs(nodes, from, done, Map::empty(), depth, state) == Ok::<
            (Seq<ExprView>, ExpansionState),
            MacroErrorView,
        >(
            (done + nodes.skip(from), state),
        ),
    decreases nodes, nodes.len() - from,
{
    if from < nodes.len() {
        lemma_kept_expr(nodes[from], depth, state);
        lemma_kept_exprs(nodes, from + 1, done.push(nodes[from]), depth, state);
        assert(done.push(nodes[from]) + nodes.skip(from + 1) =~= done + nodes.skip(from));
    } else {
        assert(done + nodes.skip(from) =~= done);
    }
}

proof fn lemma_kept_expr_field(node: ExprFieldView, depth: nat, state: ExpansionState)
    ensures
        expanded_expr_field(node, Map::empty(), depth, state) == Ok::<
            (ExprFieldView, ExpansionState),
            MacroErrorView,
        >((node, state)),
    decreases node, 0int,
{
    lemma_kept_expr(node.value, depth, state);
}

proof fn lemma_kept_expr_fields(
    nodes: Seq<ExprFieldView>,
    from: int,
    done: Seq<ExprFieldView>,
    depth: nat,
    state: ExpansionState,
)
    requires
        0 <= from <= nodes.len(),
    ensures
        expanded_expr_fields(nodes, from, done, Map::empty(), depth, state) == Ok::<
            (Seq<ExprFieldView>, ExpansionState),
            MacroErrorView,
        >(
            (done + nodes.skip(from), state),
        ),
    decreases nodes, nodes.len() - from,
{
    if from < nodes.len() {
        lemma_kept_expr_field(nodes[from], depth, state);
        lemma_kept_expr_fields(nodes, from + 1, done.push(nodes[from]), depth, state);
        assert(done.push(nodes[from]) + nodes.skip(from + 1) =~= done + nodes.skip(from));
    } else {
        assert(done + nodes.skip(from) =~= done);
    }
}

proof fn lemma_kept_expr_pair(node: (ExprView, ExprView), depth: nat, state: ExpansionState)
    ensures
        expanded_expr_pair(node, Map::empty(), depth, state) == Ok::<
            ((ExprView, ExprView), ExpansionState),
            MacroErrorView,
        >((node, state)),
    decreases node, 0int,
{
    lemma_kept_expr(node.0, depth, state);
    lemma_kept_expr(node.1, depth, state);
}

proof fn lemma_kept_expr_pairs(
    nodes: Seq<(ExprView, ExprView)>,
    from: int,
    done: Seq<(ExprView, ExprView)>,
    depth: nat,
    state: ExpansionState,
)
    requires
        0 <= from <= nodes.len(),
    ensures
        expanded_expr_pairs(nodes, from, done, Map::empty(), depth, state) == Ok::<
            (Seq<(ExprView, ExprView)>, ExpansionState),
            MacroErrorView,
        >(
            (done + nodes.skip(from), state),
        ),
    decreases nodes, nodes.len() - from,
{
    if from < nodes.len() {
        lemma_kept_expr_pair(nodes[from], depth, state);
        lemma_kept_expr_pairs(nodes, from + 1, done.push(nodes[from]), depth, state);
        assert(done.push(nodes[from]) + nodes.skip(from + 1) =~= done + nodes.skip(from));
    } else {
        assert(done + nodes.skip(from) =~= done);
    }
}

proof fn lemma_kept_match_case(node: MatchCaseView, depth: nat, state: ExpansionState)
    ensures
        expanded_match_case(node, Map::empty(), depth, state) == Ok::<
            (MatchCaseView, ExpansionState),
            MacroErrorView,
        >((node, state)),
    decreases node, 0int,
{
    reveal(expanded_pattern);
    lemma_kept_pattern(node.pattern, depth, state);
    lemma_kept_exprs(node.body, 0, Seq::empty(), depth, state);
    assert(Seq::empty() + node.body.skip(0) =~= node.body);
}

proof fn lemma_kept_match_cases(
    nodes: Seq<MatchCaseView>,
    from: int,
    done: Seq<MatchCaseView>,
    depth: nat,
    state: ExpansionState,
)
    requires
        0 <= from <= nodes.len(),
    ensures
        expanded_match_cases(nodes, from, done, Map::empty(), depth, state) == Ok::<
            (Seq<MatchCaseView>, ExpansionState),
            MacroErrorView,
        >(
            (done + nodes.skip(from), state),
        ),
    decreases nodes, nodes.len() - from,
{
    if from < nodes.len() {
        lemma_kept_match_case(nodes[from], depth, state);
        lemma_kept_match_cases(nodes, from + 1, done.push(nodes[from]), depth, state);
        assert(done.push(nodes[from]) + nodes.skip(from + 1) =~= done + nodes.skip(from));
    } else {
        assert(done + nodes.skip(from) =~= done);
    }
}

proof fn lemma_kept_parameters(nodes: Seq<ParameterView>, from: int, done: Seq<ParameterView>, state: ExpansionState)
    requires
        0 <= from <= nodes.len(),
    ensures
        expanded_parameters(nodes, from, done, Map::empty(), state) == Ok::<
            (Seq<ParameterView>, ExpansionState),
            MacroErrorView,
        >((done + nodes.skip(from), state)),
    decreases nodes.len() - from,
{
    if from < nodes.len() {
        lemma_kept_type_expr(nodes[from].ty, 0, state);
        lemma_kept_parameters(nodes, from + 1, done.push(nodes[from]), state);
        assert(done.push(nodes[from]) + nodes.skip(from + 1) =~= done + nodes.skip(from));
    } else {
        assert(done + nodes.skip(from) =~= done);
    }
}

proof fn lemma_kept_top_level(form: TopLevelView, state: ExpansionState)
    ensures
        expanded_top_level(form, Map::empty(), state) == Ok::<(TopLevelView, ExpansionState), MacroErrorView>(
            (form, state),
        ),
{
    reveal(expanded_top_level);
    match form {
        TopLevelView::Definition(definition) => lemma_kept_type_expr(definition.body, 0, state),
        TopLevelView::Constant(constant) => {
            lemma_kept_type_expr(constant.ty, 0, state);
            lemma_kept_expr(constant.value, 0, state);
        }
        TopLevelView::Function(function) => {
            lemma_kept_parameters(function.parameters, 0, Seq::empty(), state);
            assert(Seq::empty() + function.parameters.skip(0) =~= function.parameters);
            lemma_kept_type_expr(function.return_type, 0, state);
            lemma_kept_exprs(function.body, 0, Seq::empty(), 0, state);
            assert(Seq::empty() + function.body.skip(0) =~= function.body);
        }
        TopLevelView::Test(test) => {
            lemma_kept_exprs(test.body, 0, Seq::empty(), 0, state);
            assert(Seq::empty() + test.body.skip(0) =~= test.body);
        }
        _ => {}
    }
}

pub open spec fn has_no_macros(forms: Seq<TopLevelView>) -> bool {
    forall|i: int| 0 <= i < forms.len() ==> !(#[trigger] forms[i] is Macro)
}

pub open spec fn parts_have_no_macros(parts: Seq<ModuleView>) -> bool {
    forall|i: int| 0 <= i < parts.len() ==> has_no_macros((#[trigger] parts[i]).forms)
}

/// Whether a program declares no macro.
pub open spec fn is_macro_free(program: ProgramView) -> bool {
    forall|i: int| 0 <= i < program.len() ==> parts_have_no_macros((#[trigger] program[i]).1)
}

proof fn lemma_kept_forms(forms: Seq<TopLevelView>, from: int, done: Seq<TopLevelView>, state: ExpansionState)
    requires
        0 <= from <= forms.len(),
        has_no_macros(forms),
    ensures
        expanded_forms(forms, from, done, Map::empty(), state) == Ok::<
            (Seq<TopLevelView>, ExpansionState),
            MacroErrorView,
        >((done + forms.skip(from), state)),
    decreases forms.len() - from,
{
    if from < forms.len() {
        lemma_kept_top_level(forms[from], state);
        lemma_kept_forms(forms, from + 1, done.push(forms[from]), state);
        assert(done.push(forms[from]) + forms.skip(from + 1) =~= done + forms.skip(from));
    } else {
        assert(done + forms.skip(from) =~= done);
    }
}

proof fn lemma_kept_parts(parts: Seq<ModuleView>, from: int, done: Seq<ModuleView>, state: ExpansionState)
    requires
        0 <= from <= parts.len(),
        parts_have_no_macros(parts),
    ensures
        expanded_parts(parts, from, done, Map::empty(), state) == Ok::<
            (Seq<ModuleView>, ExpansionState),
            MacroErrorView,
        >((done + parts.skip(from), state)),
    decreases parts.len() - from,
{
    if from < parts.len() {
        let forms = parts[from].forms;
        lemma_kept_forms(forms, 0, Seq::empty(), state);
        assert(Seq::empty() + forms.skip(0) =~= forms);
        assert(expanded_module(parts[from], Map::empty(), state) == Ok::<(ModuleView, ExpansionState), MacroErrorView>(
            (parts[from], state),
        ));
        lemma_kept_parts(parts, from + 1, done.push(parts[from]), state);
        assert(done.push(parts[from]) + parts.skip(from + 1) =~= done + parts.skip(from));
    } else {
        assert(done + parts.skip(from) =~= done);
    }
}

proof fn lemma_all_forms(parts: Seq<ModuleView>)
    requires
        parts_have_no_macros(parts),
    ensures
        has_no_macros(all_forms(parts)),
    decreases parts.len(),
{
    if parts.len() > 0 {
        let front = parts.drop_last();
        assert forall|i: int| 0 <= i < front.len() implies has_no_macros((#[trigger] front[i]).forms) by {
            assert(front[i] == parts[i]);
        }
        lemma_all_forms(front);
        assert(has_no_macros(parts[parts.len() - 1].forms));
        let forms = all_forms(parts);
        assert forall|i: int| 0 <= i < forms.len() implies !(#[trigger] forms[i] is Macro) by {
            if i < all_forms(front).len() {
                assert(forms[i] == all_forms(front)[i]);
            } else {
                assert(forms[i] == parts.last().forms[i - all_forms(front).len()]);
            }
        }
    }
}

proof fn lemma_none_added(
    table: Map<Seq<char>, MacroEntryView>,
    forms: Seq<TopLevelView>,
    from: int,
    symbols: Set<Seq<char>>,
    alias: Option<Seq<char>>,
    seen: Set<Seq<char>>,
)
    requires
        0 <= from,
        has_no_macros(forms),
    ensures
        with_macros(table, forms, from, symbols, alias) == table,
        macro_failure(forms, from, seen) is None,
    decreases forms.len() - from,
{
    if from < forms.len() {
        assert(!(forms[from] is Macro));
        lemma_none_added(table, forms, from + 1, symbols, alias, seen);
    }
}

proof fn lemma_index(program: ProgramView, path: Seq<char>, from: int)
    requires
        0 <= from,
    ensures
        match module_index(program, path, from) {
            Some(index) => from <= index < program.len(),
            None => true,
        },
    decreases program.len() - from,
{
    if from < program.len() && program[from].0 != path {
        lemma_index(program, path, from + 1);
    }
}

proof fn lemma_no_imports(table: Map<Seq<char>, MacroEntryView>, program: ProgramView, imports: ImportsView, from: int)
    requires
        0 <= from,
        is_macro_free(program),
    ensures
        with_imports(table, program, imports, from) == table,
    decreases imports.len() - from,
{
    if from < imports.len() {
        let (alias, target) = imports[from];
        lemma_index(program, target, 0);
        match module_index(program, target, 0) {
            Some(index) => {
                let forms = all_forms(program[index].1);
                lemma_all_forms(program[index].1);
                lemma_none_added(table, forms, 0, symbols_of(forms), Some(alias), Set::empty());
            }
            None => {}
        }
        lemma_no_imports(table, program, imports, from + 1);
    }
}

proof fn lemma_no_table(program: ProgramView, imports: Seq<(Seq<char>, ImportsView)>, path: Seq<char>)
    requires
        is_macro_free(program),
    ensures
        macro_table(program, imports, path) == Map::<Seq<char>, MacroEntryView>::empty(),
{
    lemma_index(program, path, 0);
    match module_index(program, path, 0) {
        Some(index) => {
            let forms = all_forms(program[index].1);
            lemma_all_forms(program[index].1);
            lemma_none_added(Map::empty(), forms, 0, symbols_of(forms), None, Set::empty());
        }
        None => {}
    }
    lemma_no_imports(Map::empty(), program, imports_of(imports, path, 0), 0);
}

proof fn lemma_no_failure(program: ProgramView, from: int)
    requires
        0 <= from,
        is_macro_free(program),
    ensures
        program_failure(program, from) is None,
    decreases program.len() - from,
{
    if from < program.len() {
        let forms = all_forms(program[from].1);
        lemma_all_forms(program[from].1);
        lemma_none_added(Map::empty(), forms, 0, Set::empty(), None, Set::empty());
        lemma_no_failure(program, from + 1);
    }
}

proof fn lemma_kept_modules(
    program: ProgramView,
    imports: Seq<(Seq<char>, ImportsView)>,
    from: int,
    done: ProgramView,
    state: ExpansionState,
)
    requires
        0 <= from <= program.len(),
        is_macro_free(program),
    ensures
        expanded_modules(program, imports, from, done, state) == Ok::<ProgramView, MacroErrorView>(
            done + program.skip(from),
        ),
    decreases program.len() - from,
{
    if from < program.len() {
        let parts = program[from].1;
        lemma_no_table(program, imports, program[from].0);
        assert(parts_have_no_macros(parts));
        lemma_kept_parts(parts, 0, Seq::empty(), state);
        assert(Seq::empty() + parts.skip(0) =~= parts);
        lemma_kept_modules(program, imports, from + 1, done.push(program[from]), state);
        assert(done.push(program[from]) + program.skip(from + 1) =~= done + program.skip(from));
    } else {
        assert(done + program.skip(from) =~= done);
    }
}

/// A program that declares no macro is expanded to itself.
pub proof fn law_programs_without_macros_are_kept(program: ProgramView, imports: Seq<(Seq<char>, ImportsView)>)
    requires
        is_macro_free(program),
    ensures
        expanded_program(program, imports) == Ok::<ProgramView, MacroErrorView>(program),
{
    lemma_no_failure(program, 0);
    lemma_kept_modules(program, imports, 0, Seq::empty(), ExpansionState::initial());
    assert(Seq::empty() + program.skip(0) =~= program);
}

// What expansion keeps.

/// Whether a form is another with its types, values and bodies expanded.
pub open spec fn same_form(before: TopLevelView, after: TopLevelView) -> bool {
    match (before, after) {
        (TopLevelView::Import(old_form), TopLevelView::Import(new_form)) => old_form == new_form,
        (TopLevelView::Definition(old_form), TopLevelView::Definition(new_form)) => new_form == (DefinitionView {
            body: new_form.body,
            ..old_form
        }),
        (TopLevelView::Constant(old_form), TopLevelView::Constant(new_form)) => new_form == (ConstantView {
            ty: new_form.ty,
            value: new_form.value,
            ..old_form
        }),
        (TopLevelView::Function(old_form), TopLevelView::Function(new_form)) => new_form == (FunctionView {
            parameters: new_form.parameters,
            return_type: new_form.return_type,
            body: new_form.body,
            ..old_form
        }),
        (TopLevelView::Test(old_form), TopLevelView::Test(new_form)) => new_form == (TestView {
            body: new_form.body,
            ..old_form
        }),
        _ => false,
    }
}

/// The forms that are no macros, in their order.
pub open spec fn without_macros(forms: Seq<TopLevelView>, from: int) -> Seq<TopLevelView>
    decreases forms.len() - from,
{
    if from < 0 || from >= forms.len() {
        Seq::empty()
    } else if forms[from] is Macro {
        without_macros(forms, from + 1)
    } else {
        seq![forms[from]] + without_macros(forms, from + 1)
    }
}

/// Whether forms are others one for one.
pub open spec fn same_forms(before: Seq<TopLevelView>, after: Seq<TopLevelView>) -> bool {
    before.len() == after.len() && forall|i: int|
        0 <= i < before.len() ==> same_form(before[i], #[trigger] after[i])
}

pub open spec fn same_part(before: ModuleView, after: ModuleView) -> bool {
    &&& after.span == before.span
    &&& after.document_id == before.document_id
    &&& same_forms(without_macros(before.forms, 0), after.forms)
    &&& has_no_macros(after.forms)
}

pub open spec fn same_parts(before: Seq<ModuleView>, after: Seq<ModuleView>) -> bool {
    before.len() == after.len() && forall|i: int| 0 <= i < before.len() ==> same_part(before[i], #[trigger] after[i])
}

/// Whether a program is another with its macros taken out and its forms expanded
/// one for one, in the same parts of the same modules.
pub open spec fn same_program(before: ProgramView, after: ProgramView) -> bool {
    before.len() == after.len() && forall|i: int|
        0 <= i < before.len() ==> (#[trigger] after[i]).0 == before[i].0 && same_parts(before[i].1, after[i].1)
}

proof fn lemma_forms(
    forms: Seq<TopLevelView>,
    from: int,
    done: Seq<TopLevelView>,
    table: Map<Seq<char>, MacroEntryView>,
    state: ExpansionState,
)
    requires
        0 <= from <= forms.len(),
        expanded_forms(forms, from, done, table, state) is Ok,
    ensures
        ({
            let after = expanded_forms(forms, from, done, table, state)->Ok_0.0;
            &&& after.len() == done.len() + without_macros(forms, from).len()
            &&& after.take(done.len() as int) == done
            &&& same_forms(without_macros(forms, from), after.skip(done.len() as int))
        }),
    decreases forms.len() - from,
{
    let after = expanded_forms(forms, from, done, table, state)->Ok_0.0;
    let kept = without_macros(forms, from);
    if from >= forms.len() {
        assert(after.take(done.len() as int) =~= done);
    } else if forms[from] is Macro {
        lemma_forms(forms, from + 1, done, table, state);
    } else {
        reveal(expanded_top_level);
        let (form, next) = expanded_top_level(forms[from], table, state)->Ok_0;
        assert(same_form(forms[from], form));
        lemma_forms(forms, from + 1, done.push(form), table, next);
        let later = without_macros(forms, from + 1);
        let count = done.len() as int;
        assert(after.take(count + 1) == done.push(form));
        assert(after.take(count) =~= done) by {
            assert forall|i: int| 0 <= i < count implies after[i] == done[i] by {
                assert(after.take(count + 1)[i] == done.push(form)[i]);
            }
        }
        let rest = after.skip(count);
        assert forall|i: int| 0 <= i < kept.len() implies same_form(kept[i], #[trigger] rest[i]) by {
            if i == 0 {
                assert(rest[0] == after.take(count + 1)[count]);
            } else {
                assert(kept[i] == later[i - 1]);
                assert(rest[i] == after.skip(count + 1)[i - 1]);
            }
        }
    }
}

proof fn lemma_forms_have_no_macros(before: Seq<TopLevelView>, after: Seq<TopLevelView>)
    requires
        same_forms(before, after),
    ensures
        has_no_macros(after),
{
    assert forall|i: int| 0 <= i < after.len() implies !(#[trigger] after[i] is Macro) by {
        assert(same_form(before[i], after[i]));
    }
}

proof fn lemma_part(module: ModuleView, table: Map<Seq<char>, MacroEntryView>, state: ExpansionState)
    requires
        expanded_module(module, table, state) is Ok,
    ensures
        same_part(module, expanded_module(module, table, state)->Ok_0.0),
{
    lemma_forms(module.forms, 0, Seq::empty(), table, state);
    let after = expanded_forms(module.forms, 0, Seq::empty(), table, state)->Ok_0.0;
    assert(after.skip(0) =~= after);
    lemma_forms_have_no_macros(without_macros(module.forms, 0), after);
}

proof fn lemma_parts(
    parts: Seq<ModuleView>,
    from: int,
    done: Seq<ModuleView>,
    table: Map<Seq<char>, MacroEntryView>,
    state: ExpansionState,
)
    requires
        0 <= from <= parts.len(),
        from == done.len(),
        same_parts(parts.take(from), done),
        expanded_parts(parts, from, done, table, state) is Ok,
    ensures
        same_parts(parts, expanded_parts(parts, from, done, table, state)->Ok_0.0),
    decreases parts.len() - from,
{
    if from < parts.len() {
        lemma_part(parts[from], table, state);
        let (part, next) = expanded_module(parts[from], table, state)->Ok_0;
        let longer = done.push(part);
        assert forall|i: int| 0 <= i < from + 1 implies same_part(parts.take(from + 1)[i], #[trigger] longer[i]) by {
            if i < from {
                assert(same_part(parts.take(from)[i], done[i]));
            }
        }
        lemma_parts(parts, from + 1, longer, table, next);
    } else {
        assert(parts.take(from) =~= parts);
    }
}

proof fn lemma_modules(
    program: ProgramView,
    imports: Seq<(Seq<char>, ImportsView)>,
    from: int,
    done: ProgramView,
    state: ExpansionState,
)
    requires
        0 <= from <= program.len(),
        from == done.len(),
        same_program(program.take(from), done),
        expanded_modules(program, imports, from, done, state) is Ok,
    ensures
        same_program(program, expanded_modules(program, imports, from, done, state)->Ok_0),
    decreases program.len() - from,
{
    if from < program.len() {
        let table = macro_table(program, imports, program[from].0);
        let (parts, next) = expanded_parts(program[from].1, 0, Seq::empty(), table, state)->Ok_0;
        assert(program[from].1.take(0) =~= Seq::<ModuleView>::empty());
        lemma_parts(program[from].1, 0, Seq::empty(), table, state);
        let longer = done.push((program[from].0, parts));
        assert forall|i: int| 0 <= i < from + 1 implies (#[trigger] longer[i]).0 == program.take(from + 1)[i].0
            && same_parts(program.take(from + 1)[i].1, longer[i].1) by {
            if i < from {
                assert(program.take(from)[i] == program[i]);
                assert(done[i].0 == program.take(from)[i].0);
            }
        }
        lemma_modules(program, imports, from + 1, longer, next);
    } else {
        assert(program.take(from) =~= program);
    }
}

/// Expansion takes the macros out and keeps everything else in its place: the
/// modules with their paths, their parts with spans and documents, and the other
/// forms one for one with their names.
pub proof fn law_expansion_keeps_the_program(
    program: ProgramView,
    imports: Seq<(Seq<char>, ImportsView)>,
    after: ProgramView,
)
    requires
        expanded_program(program, imports) == Ok::<ProgramView, MacroErrorView>(after),
    ensures
        same_program(program, after),
        is_macro_free(after),
{
    assert(program.take(0) =~= Seq::<(Seq<char>, Seq<ModuleView>)>::empty());
    lemma_modules(program, imports, 0, Seq::empty(), ExpansionState::initial());
    assert forall|i: int| 0 <= i < after.len() implies parts_have_no_macros((#[trigger] after[i]).1) by {
        let parts = after[i].1;
        assert(same_parts(program[i].1, parts));
        assert forall|k: int| 0 <= k < parts.len() implies has_no_macros((#[trigger] parts[k]).forms) by {
            assert(same_part(program[i].1[k], parts[k]));
        }
    }
}

/// An expanded program is expanded to itself.
pub proof fn law_expanding_twice_is_expanding_once(
    program: ProgramView,
    imports: Seq<(Seq<char>, ImportsView)>,
    again: Seq<(Seq<char>, ImportsView)>,
    after: ProgramView,
)
    requires
        expanded_program(program, imports) == Ok::<ProgramView, MacroErrorView>(after),
    ensures
        expanded_program(after, again) == Ok::<ProgramView, MacroErrorView>(after),
{
    law_expansion_keeps_the_program(program, imports, after);
    law_programs_without_macros_are_kept(after, again);
}

} // verus!
