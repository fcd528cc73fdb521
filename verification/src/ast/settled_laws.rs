//! No macro call is left behind expansion, wherever it stood.
use vstd::prelude::*;
use crate::ast::annotate;
use crate::ast::evaluate;
use crate::ast::expansion_state::{ExpansionState, FragmentView, TYPED_MACRO_MAX_EXPANSION_DEPTH};
use crate::ast::typed_macro_expand::{self, MacroEntryView};
use crate::ast::view::{
    ExprFieldView, ExprKindView, ExprView, MatchCaseView, PatternFieldView, PatternKindView, PatternView,
    TypeExprKindView, TypeExprView, TypeMemberView,
};

verus! {

/// The macros that are known.
pub type Table = Map<Seq<char>, MacroEntryView>;

// Syntax that calls no macro, neither itself nor in any of its parts.

pub open spec fn settled_type_kind(table: Table, kind: TypeExprKindView) -> bool
    decreases kind, 0int,
{
    match kind {
        TypeExprKindView::Application { constructor: a0, arguments: a1 } => !table.dom().contains(a0.value) && settled_types(table, a1),
        TypeExprKindView::Record(a0) => settled_members(table, a0),
        TypeExprKindView::Tuple(a0) => settled_types(table, a0),
        TypeExprKindView::Array(a0) => settled_type(table, *a0),
        TypeExprKindView::Mapping(a0, a1) => settled_type(table, *a0) && settled_type(table, *a1),
        TypeExprKindView::Union(a0) => settled_types(table, a0),
        TypeExprKindView::Enum(a0) => settled_members(table, a0),
        TypeExprKindView::Interface(a0) => settled_members(table, a0),
        TypeExprKindView::Function { parameters: a0, result: a1 } => settled_types(table, a0) && settled_type(table, *a1),
        TypeExprKindView::Newtype(a0) => settled_type(table, *a0),
        TypeExprKindView::Mutable(a0) => settled_type(table, *a0),
        TypeExprKindView::Reference(a0) => settled_type(table, *a0),
        TypeExprKindView::MutableReference(a0) => settled_type(table, *a0),
        TypeExprKindView::Intersect(a0) => settled_types(table, a0),
        TypeExprKindView::Domain { head: a0, arguments: a1 } => settled_types(table, a1),
        _ => true,
    }
}

pub open spec fn settled_type(table: Table, node: TypeExprView) -> bool
    decreases node, 1int,
{
    settled_type_kind(table, node.value)
}

pub open spec fn settled_types(table: Table, nodes: Seq<TypeExprView>) -> bool
    decreases nodes, 0int,
{
    forall|i: int| 0 <= i < nodes.len() ==> settled_type(table, #[trigger] nodes[i])
}

pub open spec fn settled_member(table: Table, node: TypeMemberView) -> bool
    decreases node, 0int,
{
    settled_type(table, node.ty)
}

pub open spec fn settled_members(table: Table, nodes: Seq<TypeMemberView>) -> bool
    decreases nodes, 0int,
{
    forall|i: int| 0 <= i < nodes.len() ==> settled_member(table, #[trigger] nodes[i])
}

pub open spec fn settled_pattern_kind(table: Table, kind: PatternKindView) -> bool
    decreases kind, 0int,
{
    match kind {
        PatternKindView::Constructor { constructor: a0, arguments: a1 } => !table.dom().contains(a0.value) && settled_patterns(table, a1),
        PatternKindView::Record(a0) => settled_pattern_fields(table, a0),
        PatternKindView::Tuple(a0) => settled_patterns(table, a0),
        PatternKindView::Array(a0) => settled_patterns(table, a0),
        PatternKindView::Mapping(a0) => settled_pattern_entries(table, a0),
        PatternKindView::Newtype { ty: a0, pattern: a1 } => settled_type(table, a0) && settled_pattern(table, *a1),
        PatternKindView::Interface { ty: a0, pattern: a1 } => settled_type(table, a0) && settled_pattern(table, *a1),
        _ => true,
    }
}

pub open spec fn settled_pattern(table: Table, node: PatternView) -> bool
    decreases node, 1int,
{
    settled_pattern_kind(table, node.value)
}

pub open spec fn settled_patterns(table: Table, nodes: Seq<PatternView>) -> bool
    decreases nodes, 0int,
{
    forall|i: int| 0 <= i < nodes.len() ==> settled_pattern(table, #[trigger] nodes[i])
}

pub open spec fn settled_pattern_field(table: Table, node: PatternFieldView) -> bool
    decreases node, 0int,
{
    settled_pattern(table, node.pattern)
}

pub open spec fn settled_pattern_fields(table: Table, nodes: Seq<PatternFieldView>) -> bool
    decreases nodes, 0int,
{
    forall|i: int| 0 <= i < nodes.len() ==> settled_pattern_field(table, #[trigger] nodes[i])
}

pub open spec fn settled_pattern_entry(table: Table, node: (PatternView, PatternView)) -> bool
    decreases node, 0int,
{
    settled_pattern(table, node.0) && settled_pattern(table, node.1)
}

pub open spec fn settled_pattern_entries(table: Table, nodes: Seq<(PatternView, PatternView)>) -> bool
    decreases nodes, 0int,
{
    forall|i: int| 0 <= i < nodes.len() ==> settled_pattern_entry(table, #[trigger] nodes[i])
}

pub open spec fn settled_expr_kind(table: Table, kind: ExprKindView) -> bool
    decreases kind, 0int,
{
    match kind {
        ExprKindView::Call { callee: a0, arguments: a1 } => !table.dom().contains(a0.value) && settled_exprs(table, a1),
        ExprKindView::Do(a0) => settled_exprs(table, a0),
        ExprKindView::Let { name: a0, ty: a1, value: a2 } => (match a1 { Some(x) => settled_type(table, x), None => true }) && settled_expr(table, *a2),
        ExprKindView::Assign { name: a0, value: a1 } => settled_expr(table, *a1),
        ExprKindView::Return(a0) => (match a0 { Some(x) => settled_expr(table, *x), None => true }),
        ExprKindView::If { condition: a0, then_body: a1, else_body: a2 } => settled_expr(table, *a0) && settled_exprs(table, a1) && settled_exprs(table, a2),
        ExprKindView::While { condition: a0, body: a1 } => settled_expr(table, *a0) && settled_exprs(table, a1),
        ExprKindView::For { binding: a0, source: a1, body: a2 } => settled_expr(table, *a1) && settled_exprs(table, a2),
        ExprKindView::Match { target: a0, cases: a1 } => settled_expr(table, *a0) && settled_cases(table, a1),
        ExprKindView::Record(a0) => settled_fields(table, a0),
        ExprKindView::Tuple(a0) => settled_exprs(table, a0),
        ExprKindView::Array(a0) => settled_exprs(table, a0),
        ExprKindView::Mapping(a0) => settled_entries(table, a0),
        ExprKindView::Mutable(a0) => settled_expr(table, *a0),
        ExprKindView::ReferenceOf(a0) => settled_expr(table, *a0),
        ExprKindView::Range(a0, a1, a2) => settled_expr(table, *a0) && settled_expr(table, *a1) && settled_expr(table, *a2),
        ExprKindView::Convert { value: a0, into: a1, fallback: a2 } => settled_expr(table, *a0) && settled_type(table, a1),
        ExprKindView::Cast { value: a0, into: a1 } => settled_expr(table, *a0) && settled_type(table, a1),
        ExprKindView::Task { captures: a0, body: a1 } => settled_exprs(table, a1),
        ExprKindView::Spawn { handle: a0, captures: a1, value: a2 } => settled_expr(table, *a2),
        _ => true,
    }
}

pub open spec fn settled_expr(table: Table, node: ExprView) -> bool
    decreases node, 1int,
{
    settled_expr_kind(table, node.value)
}

pub open spec fn settled_exprs(table: Table, nodes: Seq<ExprView>) -> bool
    decreases nodes, 0int,
{
    forall|i: int| 0 <= i < nodes.len() ==> settled_expr(table, #[trigger] nodes[i])
}

pub open spec fn settled_field(table: Table, node: ExprFieldView) -> bool
    decreases node, 0int,
{
    settled_expr(table, node.value)
}

pub open spec fn settled_fields(table: Table, nodes: Seq<ExprFieldView>) -> bool
    decreases nodes, 0int,
{
    forall|i: int| 0 <= i < nodes.len() ==> settled_field(table, #[trigger] nodes[i])
}

pub open spec fn settled_entry(table: Table, node: (ExprView, ExprView)) -> bool
    decreases node, 0int,
{
    settled_expr(table, node.0) && settled_expr(table, node.1)
}

pub open spec fn settled_entries(table: Table, nodes: Seq<(ExprView, ExprView)>) -> bool
    decreases nodes, 0int,
{
    forall|i: int| 0 <= i < nodes.len() ==> settled_entry(table, #[trigger] nodes[i])
}

pub open spec fn settled_case(table: Table, node: MatchCaseView) -> bool
    decreases node, 0int,
{
    settled_pattern(table, node.pattern) && settled_exprs(table, node.body)
}

pub open spec fn settled_cases(table: Table, nodes: Seq<MatchCaseView>) -> bool
    decreases nodes, 0int,
{
    forall|i: int| 0 <= i < nodes.len() ==> settled_case(table, #[trigger] nodes[i])
}

// Expansion.

#[verifier::rlimit(100)]
proof fn lemma_settled_type(node: TypeExprView, table: Table, depth: nat, state: ExpansionState)
    ensures
        typed_macro_expand::expanded_type_expr(node, table, depth, state) matches Ok((value, _)) ==> settled_type(table, value),
    decreases TYPED_MACRO_MAX_EXPANSION_DEPTH - depth, node, 1int, 0int,
{
    reveal_with_fuel(settled_type, 2);
    reveal(typed_macro_expand::expanded_optional_type_expr);
    if node.value is Application && table.dom().contains(node.value->constructor.value) {
        reveal(typed_macro_expand::expanded_type_expr);
        let name = node.value->constructor.value;
        let entry = table[name];
        if entry.refusal(name, depth, "macro expansion depth exceeded"@, node.origin) is None {
            match evaluate::invoked(
                entry.invocation(node.origin),
                typed_macro_expand::type_expr_arguments(node.value->Application_arguments),
                state,
            ) {
                Ok((FragmentView::Type(value), next)) => {
                    match annotate::annotated_type_expr(
                        value,
                        entry.definition.span,
                        entry.definition.origin,
                        node.origin,
                        next,
                    ) {
                        Err(_) => {}
                        Ok((value, next)) => lemma_settled_type(value, table, depth + 1, next),
                    }
                }
                _ => {}
            }
        }
    } else {
        reveal_with_fuel(typed_macro_expand::expanded_type_expr, 2);
        match node.value {
            TypeExprKindView::Application { constructor: a0, arguments: a1 } => {
                lemma_settled_types(a1, 0, Seq::empty(), table, depth, state);
            }
            TypeExprKindView::Record(a0) => {
                lemma_settled_members(a0, 0, Seq::empty(), table, depth, state);
            }
            TypeExprKindView::Tuple(a0) => {
                lemma_settled_types(a0, 0, Seq::empty(), table, depth, state);
            }
            TypeExprKindView::Array(a0) => {
                lemma_settled_type(*a0, table, depth, state);
            }
            TypeExprKindView::Mapping(a0, a1) => {
                lemma_settled_type(*a0, table, depth, state);
                let left1 = typed_macro_expand::expanded_type_expr(*a0, table, depth, state)->Ok_0.1;
                lemma_settled_type(*a1, table, depth, left1);
            }
            TypeExprKindView::Union(a0) => {
                lemma_settled_types(a0, 0, Seq::empty(), table, depth, state);
            }
            TypeExprKindView::Enum(a0) => {
                lemma_settled_members(a0, 0, Seq::empty(), table, depth, state);
            }
            TypeExprKindView::Interface(a0) => {
                lemma_settled_members(a0, 0, Seq::empty(), table, depth, state);
            }
            TypeExprKindView::Function { parameters: a0, result: a1 } => {
                lemma_settled_types(a0, 0, Seq::empty(), table, depth, state);
                let left1 = typed_macro_expand::expanded_type_exprs(a0, 0, Seq::empty(), table, depth, state)->Ok_0.1;
                lemma_settled_type(*a1, table, depth, left1);
            }
            TypeExprKindView::Newtype(a0) => {
                lemma_settled_type(*a0, table, depth, state);
            }
            TypeExprKindView::Mutable(a0) => {
                lemma_settled_type(*a0, table, depth, state);
            }
            TypeExprKindView::Reference(a0) => {
                lemma_settled_type(*a0, table, depth, state);
            }
            TypeExprKindView::MutableReference(a0) => {
                lemma_settled_type(*a0, table, depth, state);
            }
            TypeExprKindView::Intersect(a0) => {
                lemma_settled_types(a0, 0, Seq::empty(), table, depth, state);
            }
            TypeExprKindView::Domain { head: a0, arguments: a1 } => {
                lemma_settled_types(a1, 0, Seq::empty(), table, depth, state);
            }
            _ => {}
        }
    }
}

proof fn lemma_settled_types(
    nodes: Seq<TypeExprView>,
    from: int,
    done: Seq<TypeExprView>,
    table: Table,
    depth: nat,
    state: ExpansionState,
)
    requires
        0 <= from <= nodes.len(),
        forall|i: int| 0 <= i < done.len() ==> settled_type(table, #[trigger] done[i]),
    ensures
        typed_macro_expand::expanded_type_exprs(nodes, from, done, table, depth, state) matches Ok((values, _)) ==> settled_types(
            table,
            values,
        ),
    decreases TYPED_MACRO_MAX_EXPANSION_DEPTH - depth, nodes, 0int, nodes.len() - from,
{
    reveal(typed_macro_expand::expanded_type_expr);
    reveal(typed_macro_expand::expanded_optional_type_expr);
    reveal(typed_macro_expand::expanded_pattern);
    if from < nodes.len() {
        lemma_settled_type(nodes[from], table, depth, state);
        match typed_macro_expand::expanded_type_expr(nodes[from], table, depth, state) {
            Err(_) => {}
            Ok((value, next)) => {
                assert(settled_type(table, value));
                lemma_settled_types(nodes, from + 1, done.push(value), table, depth, next);
            }
        }
    }
}

proof fn lemma_settled_members(
    nodes: Seq<TypeMemberView>,
    from: int,
    done: Seq<TypeMemberView>,
    table: Table,
    depth: nat,
    state: ExpansionState,
)
    requires
        0 <= from <= nodes.len(),
        forall|i: int| 0 <= i < done.len() ==> settled_member(table, #[trigger] done[i]),
    ensures
        typed_macro_expand::expanded_type_members(nodes, from, done, table, depth, state) matches Ok((values, _)) ==> settled_members(
            table,
            values,
        ),
    decreases TYPED_MACRO_MAX_EXPANSION_DEPTH - depth, nodes, 0int, nodes.len() - from,
{
    reveal(typed_macro_expand::expanded_type_expr);
    reveal(typed_macro_expand::expanded_optional_type_expr);
    reveal(typed_macro_expand::expanded_pattern);
    if from < nodes.len() {
        lemma_settled_type(nodes[from].ty, table, depth, state);
        match typed_macro_expand::expanded_type_member(nodes[from], table, depth, state) {
            Err(_) => {}
            Ok((value, next)) => {
                assert(settled_member(table, value));
                lemma_settled_members(nodes, from + 1, done.push(value), table, depth, next);
            }
        }
    }
}

#[verifier::rlimit(100)]
proof fn lemma_settled_pattern(node: PatternView, table: Table, depth: nat, state: ExpansionState)
    ensures
        typed_macro_expand::expanded_pattern(node, table, depth, state) matches Ok((value, _)) ==> settled_pattern(table, value),
    decreases TYPED_MACRO_MAX_EXPANSION_DEPTH - depth, node, 1int, 0int,
{
    reveal_with_fuel(settled_pattern, 2);
    reveal(typed_macro_expand::expanded_optional_type_expr);
    if node.value is Constructor && table.dom().contains(node.value->constructor.value) {
        reveal(typed_macro_expand::expanded_pattern);
        let name = node.value->constructor.value;
        let entry = table[name];
        if entry.refusal(name, depth, "macro expansion depth exceeded"@, node.origin) is None {
            match evaluate::invoked(
                entry.invocation(node.origin),
                typed_macro_expand::pattern_arguments(node.value->Constructor_arguments),
                state,
            ) {
                Ok((FragmentView::Pattern(value), next)) => {
                    match annotate::annotated_pattern(
                        value,
                        entry.definition.span,
                        entry.definition.origin,
                        node.origin,
                        next,
                    ) {
                        Err(_) => {}
                        Ok((value, next)) => lemma_settled_pattern(value, table, depth + 1, next),
                    }
                }
                _ => {}
            }
        }
    } else {
        reveal_with_fuel(typed_macro_expand::expanded_pattern, 2);
        match node.value {
            PatternKindView::Constructor { constructor: a0, arguments: a1 } => {
                lemma_settled_patterns(a1, 0, Seq::empty(), table, depth, state);
            }
            PatternKindView::Record(a0) => {
                lemma_settled_pattern_fields(a0, 0, Seq::empty(), table, depth, state);
            }
            PatternKindView::Tuple(a0) => {
                lemma_settled_patterns(a0, 0, Seq::empty(), table, depth, state);
            }
            PatternKindView::Array(a0) => {
                lemma_settled_patterns(a0, 0, Seq::empty(), table, depth, state);
            }
            PatternKindView::Mapping(a0) => {
                lemma_settled_pattern_entries(a0, 0, Seq::empty(), table, depth, state);
            }
            PatternKindView::Newtype { ty: a0, pattern: a1 } => {
                lemma_settled_type(a0, table, depth, state);
                let left1 = typed_macro_expand::expanded_type_expr(a0, table, depth, state)->Ok_0.1;
                lemma_settled_pattern(*a1, table, depth, left1);
            }
            PatternKindView::Interface { ty: a0, pattern: a1 } => {
                lemma_settled_type(a0, table, depth, state);
                let left1 = typed_macro_expand::expanded_type_expr(a0, table, depth, state)->Ok_0.1;
                lemma_settled_pattern(*a1, table, depth, left1);
            }
            _ => {}
        }
    }
}

proof fn lemma_settled_patterns(
    nodes: Seq<PatternView>,
    from: int,
    done: Seq<PatternView>,
    table: Table,
    depth: nat,
    state: ExpansionState,
)
    requires
        0 <= from <= nodes.len(),
        forall|i: int| 0 <= i < done.len() ==> settled_pattern(table, #[trigger] done[i]),
    ensures
        typed_macro_expand::expanded_patterns(nodes, from, done, table, depth, state) matches Ok((values, _)) ==> settled_patterns(
            table,
            values,
        ),
    decreases TYPED_MACRO_MAX_EXPANSION_DEPTH - depth, nodes, 0int, nodes.len() - from,
{
    reveal(typed_macro_expand::expanded_type_expr);
    reveal(typed_macro_expand::expanded_optional_type_expr);
    reveal(typed_macro_expand::expanded_pattern);
    if from < nodes.len() {
        lemma_settled_pattern(nodes[from], table, depth, state);
        match typed_macro_expand::expanded_pattern(nodes[from], table, depth, state) {
            Err(_) => {}
            Ok((value, next)) => {
                assert(settled_pattern(table, value));
                lemma_settled_patterns(nodes, from + 1, done.push(value), table, depth, next);
            }
        }
    }
}

proof fn lemma_settled_pattern_fields(
    nodes: Seq<PatternFieldView>,
    from: int,
    done: Seq<PatternFieldView>,
    table: Table,
    depth: nat,
    state: ExpansionState,
)
    requires
        0 <= from <= nodes.len(),
        forall|i: int| 0 <= i < done.len() ==> settled_pattern_field(table, #[trigger] done[i]),
    ensures
        typed_macro_expand::expanded_pattern_fields(nodes, from, done, table, depth, state) matches Ok((values, _)) ==> settled_pattern_fields(
            table,
            values,
        ),
    decreases TYPED_MACRO_MAX_EXPANSION_DEPTH - depth, nodes, 0int, nodes.len() - from,
{
    reveal(typed_macro_expand::expanded_type_expr);
    reveal(typed_macro_expand::expanded_optional_type_expr);
    reveal(typed_macro_expand::expanded_pattern);
    if from < nodes.len() {
        lemma_settled_pattern(nodes[from].pattern, table, depth, state);
        match typed_macro_expand::expanded_pattern_field(nodes[from], table, depth, state) {
            Err(_) => {}
            Ok((value, next)) => {
                assert(settled_pattern_field(table, value));
                lemma_settled_pattern_fields(nodes, from + 1, done.push(value), table, depth, next);
            }
        }
    }
}

proof fn lemma_settled_pattern_entries(
    nodes: Seq<(PatternView, PatternView)>,
    from: int,
    done: Seq<(PatternView, PatternView)>,
    table: Table,
    depth: nat,
    state: ExpansionState,
)
    requires
        0 <= from <= nodes.len(),
        forall|i: int| 0 <= i < done.len() ==> settled_pattern_entry(table, #[trigger] done[i]),
    ensures
        typed_macro_expand::expanded_pattern_pairs(nodes, from, done, table, depth, state) matches Ok((values, _)) ==> settled_pattern_entries(
            table,
            values,
        ),
    decreases TYPED_MACRO_MAX_EXPANSION_DEPTH - depth, nodes, 0int, nodes.len() - from,
{
    reveal(typed_macro_expand::expanded_type_expr);
    reveal(typed_macro_expand::expanded_optional_type_expr);
    reveal(typed_macro_expand::expanded_pattern);
    if from < nodes.len() {
        lemma_settled_pattern(nodes[from].0, table, depth, state);
        let left1 = typed_macro_expand::expanded_pattern(nodes[from].0, table, depth, state)->Ok_0.1;
        lemma_settled_pattern(nodes[from].1, table, depth, left1);
        match typed_macro_expand::expanded_pattern_pair(nodes[from], table, depth, state) {
            Err(_) => {}
            Ok((value, next)) => {
                assert(settled_pattern_entry(table, value));
                lemma_settled_pattern_entries(nodes, from + 1, done.push(value), table, depth, next);
            }
        }
    }
}

#[verifier::rlimit(100)]
proof fn lemma_settled_expr(node: ExprView, table: Table, depth: nat, state: ExpansionState)
    ensures
        typed_macro_expand::expanded_expr(node, table, depth, state) matches Ok((value, _)) ==> settled_expr(table, value),
    decreases TYPED_MACRO_MAX_EXPANSION_DEPTH - depth, node, 1int, 0int,
{
    reveal_with_fuel(settled_expr, 2);
    reveal(typed_macro_expand::expanded_optional_type_expr);
    if node.value is Call && table.dom().contains(node.value->callee.value) {
        reveal(typed_macro_expand::expanded_expr);
        let name = node.value->callee.value;
        let entry = table[name];
        if entry.refusal(name, depth, typed_macro_expand::depth_message(name), node.origin) is None {
            match evaluate::invoked(
                entry.invocation(node.origin),
                typed_macro_expand::expr_arguments(node.value->Call_arguments),
                state,
            ) {
                Ok((FragmentView::Expression(value), next)) => {
                    match annotate::annotated_expr(
                        value,
                        entry.definition.span,
                        entry.definition.origin,
                        node.origin,
                        next,
                    ) {
                        Err(_) => {}
                        Ok((value, next)) => lemma_settled_expr(value, table, depth + 1, next),
                    }
                }
                _ => {}
            }
        }
    } else {
        reveal_with_fuel(typed_macro_expand::expanded_expr, 3);
        match node.value {
            ExprKindView::Call { callee: a0, arguments: a1 } => {
                lemma_settled_exprs(a1, 0, Seq::empty(), table, depth, state);
            }
            ExprKindView::Do(a0) => {
                lemma_settled_exprs(a0, 0, Seq::empty(), table, depth, state);
            }
            ExprKindView::Let { name: a0, ty: a1, value: a2 } => {
                match a1 { Some(x) => lemma_settled_type(x, table, depth, state), None => {} }
                let left1 = typed_macro_expand::expanded_optional_type_expr(a1, table, depth, state)->Ok_0.1;
                lemma_settled_expr(*a2, table, depth, left1);
            }
            ExprKindView::Assign { name: a0, value: a1 } => {
                lemma_settled_expr(*a1, table, depth, state);
            }
            ExprKindView::Return(a0) => {
                match a0 { Some(x) => lemma_settled_expr(*x, table, depth, state), None => {} }
            }
            ExprKindView::If { condition: a0, then_body: a1, else_body: a2 } => {
                lemma_settled_expr(*a0, table, depth, state);
                let left1 = typed_macro_expand::expanded_expr(*a0, table, depth, state)->Ok_0.1;
                lemma_settled_exprs(a1, 0, Seq::empty(), table, depth, left1);
                let left2 = typed_macro_expand::expanded_exprs(a1, 0, Seq::empty(), table, depth, left1)->Ok_0.1;
                lemma_settled_exprs(a2, 0, Seq::empty(), table, depth, left2);
            }
            ExprKindView::While { condition: a0, body: a1 } => {
                lemma_settled_expr(*a0, table, depth, state);
                let left1 = typed_macro_expand::expanded_expr(*a0, table, depth, state)->Ok_0.1;
                lemma_settled_exprs(a1, 0, Seq::empty(), table, depth, left1);
            }
            ExprKindView::For { binding: a0, source: a1, body: a2 } => {
                lemma_settled_expr(*a1, table, depth, state);
                let left1 = typed_macro_expand::expanded_expr(*a1, table, depth, state)->Ok_0.1;
                lemma_settled_exprs(a2, 0, Seq::empty(), table, depth, left1);
            }
            ExprKindView::Match { target: a0, cases: a1 } => {
                lemma_settled_expr(*a0, table, depth, state);
                let left1 = typed_macro_expand::expanded_expr(*a0, table, depth, state)->Ok_0.1;
                lemma_settled_cases(a1, 0, Seq::empty(), table, depth, left1);
            }
            ExprKindView::Record(a0) => {
                lemma_settled_fields(a0, 0, Seq::empty(), table, depth, state);
            }
            ExprKindView::Tuple(a0) => {
                lemma_settled_exprs(a0, 0, Seq::empty(), table, depth, state);
            }
            ExprKindView::Array(a0) => {
                lemma_settled_exprs(a0, 0, Seq::empty(), table, depth, state);
            }
            ExprKindView::Mapping(a0) => {
                lemma_settled_entries(a0, 0, Seq::empty(), table, depth, state);
            }
            ExprKindView::Mutable(a0) => {
                lemma_settled_expr(*a0, table, depth, state);
            }
            ExprKindView::ReferenceOf(a0) => {
                lemma_settled_expr(*a0, table, depth, state);
            }
            ExprKindView::Range(a0, a1, a2) => {
                lemma_settled_expr(*a0, table, depth, state);
                let left1 = typed_macro_expand::expanded_expr(*a0, table, depth, state)->Ok_0.1;
                lemma_settled_expr(*a1, table, depth, left1);
                let left2 = typed_macro_expand::expanded_expr(*a1, table, depth, left1)->Ok_0.1;
                lemma_settled_expr(*a2, table, depth, left2);
            }
            ExprKindView::Convert { value: a0, into: a1, fallback: a2 } => {
                lemma_settled_expr(*a0, table, depth, state);
                let left1 = typed_macro_expand::expanded_expr(*a0, table, depth, state)->Ok_0.1;
                lemma_settled_type(a1, table, depth, left1);
            }
            ExprKindView::Cast { value: a0, into: a1 } => {
                lemma_settled_expr(*a0, table, depth, state);
                let left1 = typed_macro_expand::expanded_expr(*a0, table, depth, state)->Ok_0.1;
                lemma_settled_type(a1, table, depth, left1);
            }
            ExprKindView::Task { captures: a0, body: a1 } => {
                lemma_settled_exprs(a1, 0, Seq::empty(), table, depth, state);
            }
            ExprKindView::Spawn { handle: a0, captures: a1, value: a2 } => {
                lemma_settled_expr(*a2, table, depth, state);
            }
            _ => {}
        }
    }
}

proof fn lemma_settled_exprs(
    nodes: Seq<ExprView>,
    from: int,
    done: Seq<ExprView>,
    table: Table,
    depth: nat,
    state: ExpansionState,
)
    requires
        0 <= from <= nodes.len(),
        forall|i: int| 0 <= i < done.len() ==> settled_expr(table, #[trigger] done[i]),
    ensures
        typed_macro_expand::expanded_exprs(nodes, from, done, table, depth, state) matches Ok((values, _)) ==> settled_exprs(
            table,
            values,
        ),
    decreases TYPED_MACRO_MAX_EXPANSION_DEPTH - depth, nodes, 0int, nodes.len() - from,
{
    reveal(typed_macro_expand::expanded_type_expr);
    reveal(typed_macro_expand::expanded_optional_type_expr);
    reveal(typed_macro_expand::expanded_pattern);
    if from < nodes.len() {
        lemma_settled_expr(nodes[from], table, depth, state);
        match typed_macro_expand::expanded_expr(nodes[from], table, depth, state) {
            Err(_) => {}
            Ok((value, next)) => {
                assert(settled_expr(table, value));
                lemma_settled_exprs(nodes, from + 1, done.push(value), table, depth, next);
            }
        }
    }
}

proof fn lemma_settled_fields(
    nodes: Seq<ExprFieldView>,
    from: int,
    done: Seq<ExprFieldView>,
    table: Table,
    depth: nat,
    state: ExpansionState,
)
    requires
        0 <= from <= nodes.len(),
        forall|i: int| 0 <= i < done.len() ==> settled_field(table, #[trigger] done[i]),
    ensures
        typed_macro_expand::expanded_expr_fields(nodes, from, done, table, depth, state) matches Ok((values, _)) ==> settled_fields(
            table,
            values,
        ),
    decreases TYPED_MACRO_MAX_EXPANSION_DEPTH - depth, nodes, 0int, nodes.len() - from,
{
    reveal(typed_macro_expand::expanded_type_expr);
    reveal(typed_macro_expand::expanded_optional_type_expr);
    reveal(typed_macro_expand::expanded_pattern);
    if from < nodes.len() {
        lemma_settled_expr(nodes[from].value, table, depth, state);
        match typed_macro_expand::expanded_expr_field(nodes[from], table, depth, state) {
            Err(_) => {}
            Ok((value, next)) => {
                assert(settled_field(table, value));
                lemma_settled_fields(nodes, from + 1, done.push(value), table, depth, next);
            }
        }
    }
}

proof fn lemma_settled_entries(
    nodes: Seq<(ExprView, ExprView)>,
    from: int,
    done: Seq<(ExprView, ExprView)>,
    table: Table,
    depth: nat,
    state: ExpansionState,
)
    requires
        0 <= from <= nodes.len(),
        forall|i: int| 0 <= i < done.len() ==> settled_entry(table, #[trigger] done[i]),
    ensures
        typed_macro_expand::expanded_expr_pairs(nodes, from, done, table, depth, state) matches Ok((values, _)) ==> settled_entries(
            table,
            values,
        ),
    decreases TYPED_MACRO_MAX_EXPANSION_DEPTH - depth, nodes, 0int, nodes.len() - from,
{
    reveal(typed_macro_expand::expanded_type_expr);
    reveal(typed_macro_expand::expanded_optional_type_expr);
    reveal(typed_macro_expand::expanded_pattern);
    if from < nodes.len() {
        lemma_settled_expr(nodes[from].0, table, depth, state);
        let left1 = typed_macro_expand::expanded_expr(nodes[from].0, table, depth, state)->Ok_0.1;
        lemma_settled_expr(nodes[from].1, table, depth, left1);
        match typed_macro_expand::expanded_expr_pair(nodes[from], table, depth, state) {
            Err(_) => {}
            Ok((value, next)) => {
                assert(settled_entry(table, value));
                lemma_settled_entries(nodes, from + 1, done.push(value), table, depth, next);
            }
        }
    }
}

proof fn lemma_settled_cases(
    nodes: Seq<MatchCaseView>,
    from: int,
    done: Seq<MatchCaseView>,
    table: Table,
    depth: nat,
    state: ExpansionState,
)
    requires
        0 <= from <= nodes.len(),
        forall|i: int| 0 <= i < done.len() ==> settled_case(table, #[trigger] done[i]),
    ensures
        typed_macro_expand::expanded_match_cases(nodes, from, done, table, depth, state) matches Ok((values, _)) ==> settled_cases(
            table,
            values,
        ),
    decreases TYPED_MACRO_MAX_EXPANSION_DEPTH - depth, nodes, 0int, nodes.len() - from,
{
    reveal(typed_macro_expand::expanded_type_expr);
    reveal(typed_macro_expand::expanded_optional_type_expr);
    reveal(typed_macro_expand::expanded_pattern);
    if from < nodes.len() {
        lemma_settled_pattern(nodes[from].pattern, table, depth, state);
        let left1 = typed_macro_expand::expanded_pattern(nodes[from].pattern, table, depth, state)->Ok_0.1;
        lemma_settled_exprs(nodes[from].body, 0, Seq::empty(), table, depth, left1);
        match typed_macro_expand::expanded_match_case(nodes[from], table, depth, state) {
            Err(_) => {}
            Ok((value, next)) => {
                assert(settled_case(table, value));
                lemma_settled_cases(nodes, from + 1, done.push(value), table, depth, next);
            }
        }
    }
}

/// Expansion goes all the way: in what it yields no macro is called any more, in no part
/// of an expression, a pattern or a type.
pub proof fn law_no_macro_call_is_left(
    node: ExprView,
    pattern: PatternView,
    ty: TypeExprView,
    table: Table,
    depth: nat,
    state: ExpansionState,
)
    ensures
        typed_macro_expand::expanded_expr(node, table, depth, state) matches Ok((value, _)) ==> settled_expr(table, value),
        typed_macro_expand::expanded_pattern(pattern, table, depth, state) matches Ok((value, _)) ==> settled_pattern(
            table,
            value,
        ),
        typed_macro_expand::expanded_type_expr(ty, table, depth, state) matches Ok((value, _)) ==> settled_type(
            table,
            value,
        ),
{
    lemma_settled_expr(node, table, depth, state);
    lemma_settled_pattern(pattern, table, depth, state);
    lemma_settled_type(ty, table, depth, state);
}

} // verus!
