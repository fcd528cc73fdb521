//! Hygiene and provenance keep the shape of syntax: they respell names and mark where
//! nodes come from, and leave every form with its parts in their places.
use vstd::prelude::*;
use crate::ast::annotate;
use crate::ast::expansion_state::ExpansionState;
use crate::ast::hygiene::{self, SiteView};
use crate::ast::surface::Origin;
use crate::ast::view::{
    ExprFieldView, ExprKindView, ExprView, MatchCaseView, NameView, PatternFieldView, PatternKindView, PatternView,
    TypeExprKindView, TypeExprView, TypeMemberView,
};
use crate::syntax::Span;

verus! {

// Shapes.

/// Whether two names are the same, where names matter.
pub open spec fn alike_name(strict: bool, left: NameView, right: NameView) -> bool {
    left.span == right.span && (strict ==> left.value == right.value)
}

pub open spec fn alike_names(strict: bool, left: Seq<NameView>, right: Seq<NameView>) -> bool {
    left.len() == right.len() && forall|i: int| 0 <= i < left.len() ==> alike_name(strict, #[trigger] left[i], right[i])
}

pub open spec fn alike_type_kind(strict: bool, left: TypeExprKindView, right: TypeExprKindView) -> bool
    decreases left, 0int,
{
    match (left, right) {
        (TypeExprKindView::Named(a), TypeExprKindView::Named(b)) => (strict ==> a == b),
        (
            TypeExprKindView::Application { constructor: a0, arguments: a1 },
            TypeExprKindView::Application { constructor: b0, arguments: b1 },
        ) => alike_name(strict, a0, b0) && alike_types(strict, a1, b1),
        (TypeExprKindView::Record(a), TypeExprKindView::Record(b)) => alike_members(strict, a, b),
        (TypeExprKindView::Tuple(a), TypeExprKindView::Tuple(b)) => alike_types(strict, a, b),
        (TypeExprKindView::Array(a), TypeExprKindView::Array(b)) => alike_type(strict, *a, *b),
        (TypeExprKindView::Mapping(a0, a1), TypeExprKindView::Mapping(b0, b1)) => alike_type(strict, *a0, *b0) && alike_type(strict, *a1, *b1),
        (TypeExprKindView::Union(a), TypeExprKindView::Union(b)) => alike_types(strict, a, b),
        (TypeExprKindView::Enum(a), TypeExprKindView::Enum(b)) => alike_members(strict, a, b),
        (TypeExprKindView::Interface(a), TypeExprKindView::Interface(b)) => alike_members(strict, a, b),
        (
            TypeExprKindView::Function { parameters: a0, result: a1 },
            TypeExprKindView::Function { parameters: b0, result: b1 },
        ) => alike_types(strict, a0, b0) && alike_type(strict, *a1, *b1),
        (TypeExprKindView::Newtype(a), TypeExprKindView::Newtype(b)) => alike_type(strict, *a, *b),
        (TypeExprKindView::Mutable(a), TypeExprKindView::Mutable(b)) => alike_type(strict, *a, *b),
        (TypeExprKindView::Reference(a), TypeExprKindView::Reference(b)) => alike_type(strict, *a, *b),
        (TypeExprKindView::MutableReference(a), TypeExprKindView::MutableReference(b)) => alike_type(strict, *a, *b),
        (TypeExprKindView::Intersect(a), TypeExprKindView::Intersect(b)) => alike_types(strict, a, b),
        (
            TypeExprKindView::Domain { head: a0, arguments: a1 },
            TypeExprKindView::Domain { head: b0, arguments: b1 },
        ) => alike_name(strict, a0, b0) && alike_types(strict, a1, b1),
        _ => false,
    }
}

pub open spec fn alike_type(strict: bool, left: TypeExprView, right: TypeExprView) -> bool
    decreases left, 1int,
{
    left.span == right.span && alike_type_kind(strict, left.value, right.value)
}

pub open spec fn alike_types(strict: bool, left: Seq<TypeExprView>, right: Seq<TypeExprView>) -> bool
    decreases left, 0int,
{
    left.len() == right.len() && forall|i: int| 0 <= i < left.len() ==> alike_type(strict, #[trigger] left[i], right[i])
}

pub open spec fn alike_member(strict: bool, left: TypeMemberView, right: TypeMemberView) -> bool
    decreases left, 0int,
{
    left.span == right.span && alike_name(strict, left.name, right.name) && alike_type(strict, left.ty, right.ty)
}

pub open spec fn alike_members(strict: bool, left: Seq<TypeMemberView>, right: Seq<TypeMemberView>) -> bool
    decreases left, 0int,
{
    left.len() == right.len() && forall|i: int| 0 <= i < left.len() ==> alike_member(strict, #[trigger] left[i], right[i])
}

pub open spec fn alike_pattern_kind(strict: bool, left: PatternKindView, right: PatternKindView) -> bool
    decreases left, 0int,
{
    match (left, right) {
        (PatternKindView::Literal(a), PatternKindView::Literal(b)) => a == b,
        (PatternKindView::Wildcard, PatternKindView::Wildcard) => true,
        (PatternKindView::Bind(a), PatternKindView::Bind(b)) => alike_name(strict, a, b),
        (
            PatternKindView::Constructor { constructor: a0, arguments: a1 },
            PatternKindView::Constructor { constructor: b0, arguments: b1 },
        ) => alike_name(strict, a0, b0) && alike_patterns(strict, a1, b1),
        (PatternKindView::Record(a), PatternKindView::Record(b)) => alike_pattern_fields(strict, a, b),
        (PatternKindView::Tuple(a), PatternKindView::Tuple(b)) => alike_patterns(strict, a, b),
        (PatternKindView::Array(a), PatternKindView::Array(b)) => alike_patterns(strict, a, b),
        (PatternKindView::Mapping(a), PatternKindView::Mapping(b)) => alike_pattern_entries(strict, a, b),
        (
            PatternKindView::Newtype { ty: a0, pattern: a1 },
            PatternKindView::Newtype { ty: b0, pattern: b1 },
        ) => alike_type(strict, a0, b0) && alike_pattern(strict, *a1, *b1),
        (
            PatternKindView::Interface { ty: a0, pattern: a1 },
            PatternKindView::Interface { ty: b0, pattern: b1 },
        ) => alike_type(strict, a0, b0) && alike_pattern(strict, *a1, *b1),
        _ => false,
    }
}

pub open spec fn alike_pattern(strict: bool, left: PatternView, right: PatternView) -> bool
    decreases left, 1int,
{
    left.span == right.span && alike_pattern_kind(strict, left.value, right.value)
}

pub open spec fn alike_patterns(strict: bool, left: Seq<PatternView>, right: Seq<PatternView>) -> bool
    decreases left, 0int,
{
    left.len() == right.len() && forall|i: int| 0 <= i < left.len() ==> alike_pattern(strict, #[trigger] left[i], right[i])
}

pub open spec fn alike_pattern_field(strict: bool, left: PatternFieldView, right: PatternFieldView) -> bool
    decreases left, 0int,
{
    left.span == right.span && alike_name(strict, left.name, right.name) && alike_pattern(strict, left.pattern, right.pattern)
}

pub open spec fn alike_pattern_fields(strict: bool, left: Seq<PatternFieldView>, right: Seq<PatternFieldView>) -> bool
    decreases left, 0int,
{
    left.len() == right.len() && forall|i: int| 0 <= i < left.len() ==> alike_pattern_field(strict, #[trigger] left[i], right[i])
}

pub open spec fn alike_pattern_entry(strict: bool, left: (PatternView, PatternView), right: (PatternView, PatternView)) -> bool
    decreases left, 0int,
{
    alike_pattern(strict, left.0, right.0) && alike_pattern(strict, left.1, right.1)
}

pub open spec fn alike_pattern_entries(strict: bool, left: Seq<(PatternView, PatternView)>, right: Seq<(PatternView, PatternView)>) -> bool
    decreases left, 0int,
{
    left.len() == right.len() && forall|i: int| 0 <= i < left.len() ==> alike_pattern_entry(strict, #[trigger] left[i], right[i])
}

pub open spec fn alike_expr_kind(strict: bool, left: ExprKindView, right: ExprKindView) -> bool
    decreases left, 0int,
{
    match (left, right) {
        (ExprKindView::Literal(a), ExprKindView::Literal(b)) => a == b,
        (ExprKindView::Reference(a), ExprKindView::Reference(b)) => (strict ==> a == b),
        (
            ExprKindView::Call { callee: a0, arguments: a1 },
            ExprKindView::Call { callee: b0, arguments: b1 },
        ) => alike_name(strict, a0, b0) && alike_exprs(strict, a1, b1),
        (ExprKindView::Do(a), ExprKindView::Do(b)) => alike_exprs(strict, a, b),
        (
            ExprKindView::Let { name: a0, ty: a1, value: a2 },
            ExprKindView::Let { name: b0, ty: b1, value: b2 },
        ) => alike_name(strict, a0, b0) && (match (a1, b1) { (Some(x), Some(y)) => alike_type(strict, x, y), (None, None) => true, _ => false }) && alike_expr(strict, *a2, *b2),
        (
            ExprKindView::Assign { name: a0, value: a1 },
            ExprKindView::Assign { name: b0, value: b1 },
        ) => alike_name(strict, a0, b0) && alike_expr(strict, *a1, *b1),
        (ExprKindView::Return(a), ExprKindView::Return(b)) => (match (a, b) { (Some(x), Some(y)) => alike_expr(strict, *x, *y), (None, None) => true, _ => false }),
        (
            ExprKindView::If { condition: a0, then_body: a1, else_body: a2 },
            ExprKindView::If { condition: b0, then_body: b1, else_body: b2 },
        ) => alike_expr(strict, *a0, *b0) && alike_exprs(strict, a1, b1) && alike_exprs(strict, a2, b2),
        (
            ExprKindView::While { condition: a0, body: a1 },
            ExprKindView::While { condition: b0, body: b1 },
        ) => alike_expr(strict, *a0, *b0) && alike_exprs(strict, a1, b1),
        (
            ExprKindView::For { binding: a0, source: a1, body: a2 },
            ExprKindView::For { binding: b0, source: b1, body: b2 },
        ) => alike_name(strict, a0, b0) && alike_expr(strict, *a1, *b1) && alike_exprs(strict, a2, b2),
        (
            ExprKindView::Match { target: a0, cases: a1 },
            ExprKindView::Match { target: b0, cases: b1 },
        ) => alike_expr(strict, *a0, *b0) && alike_cases(strict, a1, b1),
        (ExprKindView::Break, ExprKindView::Break) => true,
        (ExprKindView::Continue, ExprKindView::Continue) => true,
        (ExprKindView::Record(a), ExprKindView::Record(b)) => alike_fields(strict, a, b),
        (ExprKindView::Tuple(a), ExprKindView::Tuple(b)) => alike_exprs(strict, a, b),
        (ExprKindView::Array(a), ExprKindView::Array(b)) => alike_exprs(strict, a, b),
        (ExprKindView::Mapping(a), ExprKindView::Mapping(b)) => alike_entries(strict, a, b),
        (ExprKindView::Mutable(a), ExprKindView::Mutable(b)) => alike_expr(strict, *a, *b),
        (ExprKindView::ReferenceOf(a), ExprKindView::ReferenceOf(b)) => alike_expr(strict, *a, *b),
        (ExprKindView::Range(a0, a1, a2), ExprKindView::Range(b0, b1, b2)) => alike_expr(strict, *a0, *b0) && alike_expr(strict, *a1, *b1) && alike_expr(strict, *a2, *b2),
        (
            ExprKindView::Convert { value: a0, into: a1, fallback: a2 },
            ExprKindView::Convert { value: b0, into: b1, fallback: b2 },
        ) => alike_expr(strict, *a0, *b0) && alike_type(strict, a1, b1) && a2 == b2,
        (
            ExprKindView::Cast { value: a0, into: a1 },
            ExprKindView::Cast { value: b0, into: b1 },
        ) => alike_expr(strict, *a0, *b0) && alike_type(strict, a1, b1),
        (
            ExprKindView::Task { captures: a0, body: a1 },
            ExprKindView::Task { captures: b0, body: b1 },
        ) => alike_names(strict, a0, b0) && alike_exprs(strict, a1, b1),
        (
            ExprKindView::Spawn { handle: a0, captures: a1, value: a2 },
            ExprKindView::Spawn { handle: b0, captures: b1, value: b2 },
        ) => alike_name(strict, a0, b0) && alike_names(strict, a1, b1) && alike_expr(strict, *a2, *b2),
        (
            ExprKindView::Join { handle: a0, binding: a1 },
            ExprKindView::Join { handle: b0, binding: b1 },
        ) => alike_name(strict, a0, b0) && alike_name(strict, a1, b1),
        _ => false,
    }
}

pub open spec fn alike_expr(strict: bool, left: ExprView, right: ExprView) -> bool
    decreases left, 1int,
{
    left.span == right.span && alike_expr_kind(strict, left.value, right.value)
}

pub open spec fn alike_exprs(strict: bool, left: Seq<ExprView>, right: Seq<ExprView>) -> bool
    decreases left, 0int,
{
    left.len() == right.len() && forall|i: int| 0 <= i < left.len() ==> alike_expr(strict, #[trigger] left[i], right[i])
}

pub open spec fn alike_field(strict: bool, left: ExprFieldView, right: ExprFieldView) -> bool
    decreases left, 0int,
{
    left.span == right.span && alike_name(strict, left.name, right.name) && alike_expr(strict, left.value, right.value)
}

pub open spec fn alike_fields(strict: bool, left: Seq<ExprFieldView>, right: Seq<ExprFieldView>) -> bool
    decreases left, 0int,
{
    left.len() == right.len() && forall|i: int| 0 <= i < left.len() ==> alike_field(strict, #[trigger] left[i], right[i])
}

pub open spec fn alike_entry(strict: bool, left: (ExprView, ExprView), right: (ExprView, ExprView)) -> bool
    decreases left, 0int,
{
    alike_expr(strict, left.0, right.0) && alike_expr(strict, left.1, right.1)
}

pub open spec fn alike_entries(strict: bool, left: Seq<(ExprView, ExprView)>, right: Seq<(ExprView, ExprView)>) -> bool
    decreases left, 0int,
{
    left.len() == right.len() && forall|i: int| 0 <= i < left.len() ==> alike_entry(strict, #[trigger] left[i], right[i])
}

pub open spec fn alike_case(strict: bool, left: MatchCaseView, right: MatchCaseView) -> bool
    decreases left, 0int,
{
    left.span == right.span && alike_pattern(strict, left.pattern, right.pattern) && alike_exprs(strict, left.body, right.body)
}

pub open spec fn alike_cases(strict: bool, left: Seq<MatchCaseView>, right: Seq<MatchCaseView>) -> bool
    decreases left, 0int,
{
    left.len() == right.len() && forall|i: int| 0 <= i < left.len() ==> alike_case(strict, #[trigger] left[i], right[i])
}

// Qualification.

proof fn lemma_qualified_type(node: TypeExprView, site: SiteView)
    ensures
        alike_type(false, node, hygiene::qualified_type_expr(node, site)),
    decreases node, 1int,
{
    reveal_with_fuel(alike_type, 2);
    reveal_with_fuel(alike_pattern, 2);
    reveal(hygiene::qualified_type_expr);
    match node.value {
        TypeExprKindView::Application { constructor: a0, arguments: a1 } => {
            lemma_qualified_types(a1, site);
        }
        TypeExprKindView::Record(a0) => {
            lemma_qualified_members(a0, site);
        }
        TypeExprKindView::Tuple(a0) => {
            lemma_qualified_types(a0, site);
        }
        TypeExprKindView::Array(a0) => {
            lemma_qualified_type(*a0, site);
        }
        TypeExprKindView::Mapping(a0, a1) => {
            lemma_qualified_type(*a0, site);
            lemma_qualified_type(*a1, site);
        }
        TypeExprKindView::Union(a0) => {
            lemma_qualified_types(a0, site);
        }
        TypeExprKindView::Enum(a0) => {
            lemma_qualified_members(a0, site);
        }
        TypeExprKindView::Interface(a0) => {
            lemma_qualified_members(a0, site);
        }
        TypeExprKindView::Function { parameters: a0, result: a1 } => {
            lemma_qualified_types(a0, site);
            lemma_qualified_type(*a1, site);
        }
        TypeExprKindView::Newtype(a0) => {
            lemma_qualified_type(*a0, site);
        }
        TypeExprKindView::Mutable(a0) => {
            lemma_qualified_type(*a0, site);
        }
        TypeExprKindView::Reference(a0) => {
            lemma_qualified_type(*a0, site);
        }
        TypeExprKindView::MutableReference(a0) => {
            lemma_qualified_type(*a0, site);
        }
        TypeExprKindView::Intersect(a0) => {
            lemma_qualified_types(a0, site);
        }
        TypeExprKindView::Domain { head: a0, arguments: a1 } => {
            lemma_qualified_types(a1, site);
        }
        _ => {}
    }
}

proof fn lemma_qualified_types(nodes: Seq<TypeExprView>, site: SiteView)
    ensures
        alike_types(false, nodes, hygiene::qualified_type_exprs(nodes, site)),
    decreases nodes, 0int,
{
    reveal(hygiene::qualified_type_expr);
    reveal(hygiene::qualified_pattern);
    let after = hygiene::qualified_type_exprs(nodes, site);
    assert forall|i: int| 0 <= i < nodes.len() implies alike_type(false, #[trigger] nodes[i], after[i]) by {
        lemma_qualified_type(nodes[i], site);
        assert(after[i] == hygiene::qualified_type_expr(nodes[i], site));
    }
}

proof fn lemma_qualified_members(nodes: Seq<TypeMemberView>, site: SiteView)
    ensures
        alike_members(false, nodes, hygiene::qualified_type_members(nodes, site)),
    decreases nodes, 0int,
{
    reveal(hygiene::qualified_type_expr);
    reveal(hygiene::qualified_pattern);
    let after = hygiene::qualified_type_members(nodes, site);
    assert forall|i: int| 0 <= i < nodes.len() implies alike_member(false, #[trigger] nodes[i], after[i]) by {
        lemma_qualified_type(nodes[i].ty, site);
        assert(after[i] == hygiene::qualified_type_member(nodes[i], site));
    }
}

proof fn lemma_qualified_pattern(node: PatternView, site: SiteView)
    ensures
        alike_pattern(false, node, hygiene::qualified_pattern(node, site)),
    decreases node, 1int,
{
    reveal_with_fuel(alike_type, 2);
    reveal_with_fuel(alike_pattern, 2);
    reveal(hygiene::qualified_pattern);
    match node.value {
        PatternKindView::Constructor { constructor: a0, arguments: a1 } => {
            lemma_qualified_patterns(a1, site);
        }
        PatternKindView::Record(a0) => {
            lemma_qualified_pattern_fields(a0, site);
        }
        PatternKindView::Tuple(a0) => {
            lemma_qualified_patterns(a0, site);
        }
        PatternKindView::Array(a0) => {
            lemma_qualified_patterns(a0, site);
        }
        PatternKindView::Mapping(a0) => {
            lemma_qualified_pattern_entries(a0, site);
        }
        PatternKindView::Newtype { ty: a0, pattern: a1 } => {
            lemma_qualified_type(a0, site);
            lemma_qualified_pattern(*a1, site);
        }
        PatternKindView::Interface { ty: a0, pattern: a1 } => {
            lemma_qualified_type(a0, site);
            lemma_qualified_pattern(*a1, site);
        }
        _ => {}
    }
}

proof fn lemma_qualified_patterns(nodes: Seq<PatternView>, site: SiteView)
    ensures
        alike_patterns(false, nodes, hygiene::qualified_patterns(nodes, site)),
    decreases nodes, 0int,
{
    reveal(hygiene::qualified_type_expr);
    reveal(hygiene::qualified_pattern);
    let after = hygiene::qualified_patterns(nodes, site);
    assert forall|i: int| 0 <= i < nodes.len() implies alike_pattern(false, #[trigger] nodes[i], after[i]) by {
        lemma_qualified_pattern(nodes[i], site);
        assert(after[i] == hygiene::qualified_pattern(nodes[i], site));
    }
}

proof fn lemma_qualified_pattern_fields(nodes: Seq<PatternFieldView>, site: SiteView)
    ensures
        alike_pattern_fields(false, nodes, hygiene::qualified_pattern_fields(nodes, site)),
    decreases nodes, 0int,
{
    reveal(hygiene::qualified_type_expr);
    reveal(hygiene::qualified_pattern);
    let after = hygiene::qualified_pattern_fields(nodes, site);
    assert forall|i: int| 0 <= i < nodes.len() implies alike_pattern_field(false, #[trigger] nodes[i], after[i]) by {
        lemma_qualified_pattern(nodes[i].pattern, site);
        assert(after[i] == hygiene::qualified_pattern_field(nodes[i], site));
    }
}

proof fn lemma_qualified_pattern_entries(nodes: Seq<(PatternView, PatternView)>, site: SiteView)
    ensures
        alike_pattern_entries(false, nodes, hygiene::qualified_pattern_pairs(nodes, site)),
    decreases nodes, 0int,
{
    reveal(hygiene::qualified_type_expr);
    reveal(hygiene::qualified_pattern);
    let after = hygiene::qualified_pattern_pairs(nodes, site);
    assert forall|i: int| 0 <= i < nodes.len() implies alike_pattern_entry(false, #[trigger] nodes[i], after[i]) by {
        lemma_qualified_pattern(nodes[i].0, site);
        lemma_qualified_pattern(nodes[i].1, site);
        assert(after[i] == hygiene::qualified_pattern_pair(nodes[i], site));
    }
}

proof fn lemma_type_itself(node: TypeExprView)
    ensures
        alike_type(false, node, node),
    decreases node,
{
    reveal_with_fuel(alike_type, 3);
    match node.value {
        TypeExprKindView::Application { constructor: a0, arguments: a1 } => {
            assert forall|i: int| 0 <= i < a1.len() implies alike_type(false, #[trigger] a1[i], a1[i]) by { lemma_type_itself(a1[i]); }
        }
        TypeExprKindView::Record(a0) => {
            assert forall|i: int| 0 <= i < a0.len() implies alike_member(false, #[trigger] a0[i], a0[i]) by { lemma_type_itself(a0[i].ty); }
        }
        TypeExprKindView::Tuple(a0) => {
            assert forall|i: int| 0 <= i < a0.len() implies alike_type(false, #[trigger] a0[i], a0[i]) by { lemma_type_itself(a0[i]); }
        }
        TypeExprKindView::Array(a0) => {
            lemma_type_itself(*a0);
        }
        TypeExprKindView::Mapping(a0, a1) => {
            lemma_type_itself(*a0);
            lemma_type_itself(*a1);
        }
        TypeExprKindView::Union(a0) => {
            assert forall|i: int| 0 <= i < a0.len() implies alike_type(false, #[trigger] a0[i], a0[i]) by { lemma_type_itself(a0[i]); }
        }
        TypeExprKindView::Enum(a0) => {
            assert forall|i: int| 0 <= i < a0.len() implies alike_member(false, #[trigger] a0[i], a0[i]) by { lemma_type_itself(a0[i].ty); }
        }
        TypeExprKindView::Interface(a0) => {
            assert forall|i: int| 0 <= i < a0.len() implies alike_member(false, #[trigger] a0[i], a0[i]) by { lemma_type_itself(a0[i].ty); }
        }
        TypeExprKindView::Function { parameters: a0, result: a1 } => {
            assert forall|i: int| 0 <= i < a0.len() implies alike_type(false, #[trigger] a0[i], a0[i]) by { lemma_type_itself(a0[i]); }
            lemma_type_itself(*a1);
        }
        TypeExprKindView::Newtype(a0) => {
            lemma_type_itself(*a0);
        }
        TypeExprKindView::Mutable(a0) => {
            lemma_type_itself(*a0);
        }
        TypeExprKindView::Reference(a0) => {
            lemma_type_itself(*a0);
        }
        TypeExprKindView::MutableReference(a0) => {
            lemma_type_itself(*a0);
        }
        TypeExprKindView::Intersect(a0) => {
            assert forall|i: int| 0 <= i < a0.len() implies alike_type(false, #[trigger] a0[i], a0[i]) by { lemma_type_itself(a0[i]); }
        }
        TypeExprKindView::Domain { head: a0, arguments: a1 } => {
            assert forall|i: int| 0 <= i < a1.len() implies alike_type(false, #[trigger] a1[i], a1[i]) by { lemma_type_itself(a1[i]); }
        }
        _ => {}
    }
}

proof fn lemma_type_through(first: TypeExprView, second: TypeExprView, third: TypeExprView)
    requires
        alike_type(false, first, second),
        alike_type(false, second, third),
    ensures
        alike_type(false, first, third),
    decreases first,
{
    reveal_with_fuel(alike_type, 3);
    reveal_with_fuel(alike_pattern, 3);
    match (first.value, second.value, third.value) {
        (
            TypeExprKindView::Application { constructor: a0, arguments: a1 },
            TypeExprKindView::Application { constructor: b0, arguments: b1 },
            TypeExprKindView::Application { constructor: c0, arguments: c1 },
        ) => {
            assert forall|i: int| 0 <= i < a1.len() implies alike_type(false, #[trigger] a1[i], c1[i]) by { assert(alike_type(false, a1[i], b1[i])); assert(alike_type(false, b1[i], c1[i])); lemma_type_through(a1[i], b1[i], c1[i]); }
        }
        (
            TypeExprKindView::Record(a0),
            TypeExprKindView::Record(b0),
            TypeExprKindView::Record(c0),
        ) => {
            assert forall|i: int| 0 <= i < a0.len() implies alike_member(false, #[trigger] a0[i], c0[i]) by { assert(alike_member(false, a0[i], b0[i])); assert(alike_member(false, b0[i], c0[i])); assert(alike_member(false, b0[i], c0[i])); lemma_type_through(a0[i].ty, b0[i].ty, c0[i].ty); }
        }
        (
            TypeExprKindView::Tuple(a0),
            TypeExprKindView::Tuple(b0),
            TypeExprKindView::Tuple(c0),
        ) => {
            assert forall|i: int| 0 <= i < a0.len() implies alike_type(false, #[trigger] a0[i], c0[i]) by { assert(alike_type(false, a0[i], b0[i])); assert(alike_type(false, b0[i], c0[i])); lemma_type_through(a0[i], b0[i], c0[i]); }
        }
        (
            TypeExprKindView::Array(a0),
            TypeExprKindView::Array(b0),
            TypeExprKindView::Array(c0),
        ) => {
            lemma_type_through(*a0, *b0, *c0);
        }
        (
            TypeExprKindView::Mapping(a0, a1),
            TypeExprKindView::Mapping(b0, b1),
            TypeExprKindView::Mapping(c0, c1),
        ) => {
            lemma_type_through(*a0, *b0, *c0);
            lemma_type_through(*a1, *b1, *c1);
        }
        (
            TypeExprKindView::Union(a0),
            TypeExprKindView::Union(b0),
            TypeExprKindView::Union(c0),
        ) => {
            assert forall|i: int| 0 <= i < a0.len() implies alike_type(false, #[trigger] a0[i], c0[i]) by { assert(alike_type(false, a0[i], b0[i])); assert(alike_type(false, b0[i], c0[i])); lemma_type_through(a0[i], b0[i], c0[i]); }
        }
        (
            TypeExprKindView::Enum(a0),
            TypeExprKindView::Enum(b0),
            TypeExprKindView::Enum(c0),
        ) => {
            assert forall|i: int| 0 <= i < a0.len() implies alike_member(false, #[trigger] a0[i], c0[i]) by { assert(alike_member(false, a0[i], b0[i])); assert(alike_member(false, b0[i], c0[i])); assert(alike_member(false, b0[i], c0[i])); lemma_type_through(a0[i].ty, b0[i].ty, c0[i].ty); }
        }
        (
            TypeExprKindView::Interface(a0),
            TypeExprKindView::Interface(b0),
            TypeExprKindView::Interface(c0),
        ) => {
            assert forall|i: int| 0 <= i < a0.len() implies alike_member(false, #[trigger] a0[i], c0[i]) by { assert(alike_member(false, a0[i], b0[i])); assert(alike_member(false, b0[i], c0[i])); assert(alike_member(false, b0[i], c0[i])); lemma_type_through(a0[i].ty, b0[i].ty, c0[i].ty); }
        }
        (
            TypeExprKindView::Function { parameters: a0, result: a1 },
            TypeExprKindView::Function { parameters: b0, result: b1 },
            TypeExprKindView::Function { parameters: c0, result: c1 },
        ) => {
            assert forall|i: int| 0 <= i < a0.len() implies alike_type(false, #[trigger] a0[i], c0[i]) by { assert(alike_type(false, a0[i], b0[i])); assert(alike_type(false, b0[i], c0[i])); lemma_type_through(a0[i], b0[i], c0[i]); }
            lemma_type_through(*a1, *b1, *c1);
        }
        (
            TypeExprKindView::Newtype(a0),
            TypeExprKindView::Newtype(b0),
            TypeExprKindView::Newtype(c0),
        ) => {
            lemma_type_through(*a0, *b0, *c0);
        }
        (
            TypeExprKindView::Mutable(a0),
            TypeExprKindView::Mutable(b0),
            TypeExprKindView::Mutable(c0),
        ) => {
            lemma_type_through(*a0, *b0, *c0);
        }
        (
            TypeExprKindView::Reference(a0),
            TypeExprKindView::Reference(b0),
            TypeExprKindView::Reference(c0),
        ) => {
            lemma_type_through(*a0, *b0, *c0);
        }
        (
            TypeExprKindView::MutableReference(a0),
            TypeExprKindView::MutableReference(b0),
            TypeExprKindView::MutableReference(c0),
        ) => {
            lemma_type_through(*a0, *b0, *c0);
        }
        (
            TypeExprKindView::Intersect(a0),
            TypeExprKindView::Intersect(b0),
            TypeExprKindView::Intersect(c0),
        ) => {
            assert forall|i: int| 0 <= i < a0.len() implies alike_type(false, #[trigger] a0[i], c0[i]) by { assert(alike_type(false, a0[i], b0[i])); assert(alike_type(false, b0[i], c0[i])); lemma_type_through(a0[i], b0[i], c0[i]); }
        }
        (
            TypeExprKindView::Domain { head: a0, arguments: a1 },
            TypeExprKindView::Domain { head: b0, arguments: b1 },
            TypeExprKindView::Domain { head: c0, arguments: c1 },
        ) => {
            assert forall|i: int| 0 <= i < a1.len() implies alike_type(false, #[trigger] a1[i], c1[i]) by { assert(alike_type(false, a1[i], b1[i])); assert(alike_type(false, b1[i], c1[i])); lemma_type_through(a1[i], b1[i], c1[i]); }
        }
        _ => {}
    }
}

proof fn lemma_pattern_through(first: PatternView, second: PatternView, third: PatternView)
    requires
        alike_pattern(false, first, second),
        alike_pattern(false, second, third),
    ensures
        alike_pattern(false, first, third),
    decreases first,
{
    reveal_with_fuel(alike_type, 3);
    reveal_with_fuel(alike_pattern, 3);
    match (first.value, second.value, third.value) {
        (
            PatternKindView::Constructor { constructor: a0, arguments: a1 },
            PatternKindView::Constructor { constructor: b0, arguments: b1 },
            PatternKindView::Constructor { constructor: c0, arguments: c1 },
        ) => {
            assert forall|i: int| 0 <= i < a1.len() implies alike_pattern(false, #[trigger] a1[i], c1[i]) by { assert(alike_pattern(false, a1[i], b1[i])); assert(alike_pattern(false, b1[i], c1[i])); lemma_pattern_through(a1[i], b1[i], c1[i]); }
        }
        (
            PatternKindView::Record(a0),
            PatternKindView::Record(b0),
            PatternKindView::Record(c0),
        ) => {
            assert forall|i: int| 0 <= i < a0.len() implies alike_pattern_field(false, #[trigger] a0[i], c0[i]) by { assert(alike_pattern_field(false, a0[i], b0[i])); assert(alike_pattern_field(false, b0[i], c0[i])); assert(alike_pattern_field(false, b0[i], c0[i])); lemma_pattern_through(a0[i].pattern, b0[i].pattern, c0[i].pattern); }
        }
        (
            PatternKindView::Tuple(a0),
            PatternKindView::Tuple(b0),
            PatternKindView::Tuple(c0),
        ) => {
            assert forall|i: int| 0 <= i < a0.len() implies alike_pattern(false, #[trigger] a0[i], c0[i]) by { assert(alike_pattern(false, a0[i], b0[i])); assert(alike_pattern(false, b0[i], c0[i])); lemma_pattern_through(a0[i], b0[i], c0[i]); }
        }
        (
            PatternKindView::Array(a0),
            PatternKindView::Array(b0),
            PatternKindView::Array(c0),
        ) => {
            assert forall|i: int| 0 <= i < a0.len() implies alike_pattern(false, #[trigger] a0[i], c0[i]) by { assert(alike_pattern(false, a0[i], b0[i])); assert(alike_pattern(false, b0[i], c0[i])); lemma_pattern_through(a0[i], b0[i], c0[i]); }
        }
        (
            PatternKindView::Mapping(a0),
            PatternKindView::Mapping(b0),
            PatternKindView::Mapping(c0),
        ) => {
            assert forall|i: int| 0 <= i < a0.len() implies alike_pattern_entry(false, #[trigger] a0[i], c0[i]) by { assert(alike_pattern_entry(false, a0[i], b0[i])); assert(alike_pattern_entry(false, b0[i], c0[i])); assert(alike_pattern_entry(false, b0[i], c0[i])); lemma_pattern_through(a0[i].0, b0[i].0, c0[i].0); lemma_pattern_through(a0[i].1, b0[i].1, c0[i].1); }
        }
        (
            PatternKindView::Newtype { ty: a0, pattern: a1 },
            PatternKindView::Newtype { ty: b0, pattern: b1 },
            PatternKindView::Newtype { ty: c0, pattern: c1 },
        ) => {
            lemma_type_through(a0, b0, c0);
            lemma_pattern_through(*a1, *b1, *c1);
        }
        (
            PatternKindView::Interface { ty: a0, pattern: a1 },
            PatternKindView::Interface { ty: b0, pattern: b1 },
            PatternKindView::Interface { ty: c0, pattern: c1 },
        ) => {
            lemma_type_through(a0, b0, c0);
            lemma_pattern_through(*a1, *b1, *c1);
        }
        _ => {}
    }
}

// Hygiene.

#[verifier::rlimit(100)]
proof fn lemma_renamed_pattern(node: PatternView, site: SiteView, bindings: Map<Seq<char>, Seq<char>>)
    ensures
        alike_pattern(false, node, hygiene::hygienic_pattern(node, site, bindings).0),
    decreases node, 1int, 0int,
{
    reveal_with_fuel(alike_pattern, 2);
    reveal(hygiene::qualified_optional_type_expr);
    reveal_with_fuel(hygiene::hygienic_pattern, 2);
    match node.value {
        PatternKindView::Constructor { constructor: a0, arguments: a1 } => {
            lemma_renamed_patterns(a1, 0, Seq::empty(), site, bindings);
        }
        PatternKindView::Record(a0) => {
            lemma_renamed_pattern_fields(a0, 0, Seq::empty(), site, bindings);
        }
        PatternKindView::Tuple(a0) => {
            lemma_renamed_patterns(a0, 0, Seq::empty(), site, bindings);
        }
        PatternKindView::Array(a0) => {
            lemma_renamed_patterns(a0, 0, Seq::empty(), site, bindings);
        }
        PatternKindView::Mapping(a0) => {
            lemma_renamed_pattern_entries(a0, 0, Seq::empty(), site, bindings);
        }
        PatternKindView::Newtype { ty: a0, pattern: a1 } => {
            lemma_renamed_pattern(*a1, site, bindings);
            lemma_type_itself(a0);
        }
        PatternKindView::Interface { ty: a0, pattern: a1 } => {
            lemma_renamed_pattern(*a1, site, bindings);
            lemma_type_itself(a0);
        }
        _ => {}
    }
}

proof fn lemma_renamed_patterns(
    nodes: Seq<PatternView>,
    from: int,
    done: Seq<PatternView>,
    site: SiteView,
    bindings: Map<Seq<char>, Seq<char>>,
)
    requires
        done.len() == from <= nodes.len(),
        forall|i: int| 0 <= i < from ==> alike_pattern(false, #[trigger] nodes[i], done[i]),
    ensures
        alike_patterns(false, nodes, hygiene::hygienic_patterns(nodes, from, done, site, bindings).0),
    decreases nodes, 0int, nodes.len() - from,
{
    reveal(hygiene::hygienic_pattern);
    if from < nodes.len() {
        lemma_renamed_pattern(nodes[from], site, bindings);
        let (value, next) = hygiene::hygienic_pattern(nodes[from], site, bindings);
        assert(alike_pattern(false, nodes[from], value));
        lemma_renamed_patterns(nodes, from + 1, done.push(value), site, next);
    }
}

proof fn lemma_renamed_pattern_fields(
    nodes: Seq<PatternFieldView>,
    from: int,
    done: Seq<PatternFieldView>,
    site: SiteView,
    bindings: Map<Seq<char>, Seq<char>>,
)
    requires
        done.len() == from <= nodes.len(),
        forall|i: int| 0 <= i < from ==> alike_pattern_field(false, #[trigger] nodes[i], done[i]),
    ensures
        alike_pattern_fields(false, nodes, hygiene::hygienic_pattern_fields(nodes, from, done, site, bindings).0),
    decreases nodes, 0int, nodes.len() - from,
{
    reveal(hygiene::hygienic_pattern);
    if from < nodes.len() {
        lemma_renamed_pattern(nodes[from].pattern, site, bindings);
        let (value, next) = hygiene::hygienic_pattern_field(nodes[from], site, bindings);
        assert(alike_pattern_field(false, nodes[from], value));
        lemma_renamed_pattern_fields(nodes, from + 1, done.push(value), site, next);
    }
}

proof fn lemma_renamed_pattern_entries(
    nodes: Seq<(PatternView, PatternView)>,
    from: int,
    done: Seq<(PatternView, PatternView)>,
    site: SiteView,
    bindings: Map<Seq<char>, Seq<char>>,
)
    requires
        done.len() == from <= nodes.len(),
        forall|i: int| 0 <= i < from ==> alike_pattern_entry(false, #[trigger] nodes[i], done[i]),
    ensures
        alike_pattern_entries(false, nodes, hygiene::hygienic_pattern_pairs(nodes, from, done, site, bindings).0),
    decreases nodes, 0int, nodes.len() - from,
{
    reveal(hygiene::hygienic_pattern);
    if from < nodes.len() {
        lemma_renamed_pattern(nodes[from].0, site, bindings);
        lemma_renamed_pattern(
            nodes[from].1,
            site,
            hygiene::hygienic_pattern(nodes[from].0, site, bindings).1,
        );
        let (value, next) = hygiene::hygienic_pattern_pair(nodes[from], site, bindings);
        assert(alike_pattern_entry(false, nodes[from], value));
        lemma_renamed_pattern_entries(nodes, from + 1, done.push(value), site, next);
    }
}

#[verifier::rlimit(100)]
proof fn lemma_renamed_expr(node: ExprView, site: SiteView, bindings: Map<Seq<char>, Seq<char>>)
    ensures
        alike_expr(false, node, hygiene::hygienic_expr(node, site, bindings).0),
    decreases node, 1int, 0int,
{
    reveal_with_fuel(alike_expr, 2);
    reveal(hygiene::qualified_optional_type_expr);
    reveal_with_fuel(hygiene::hygienic_expr, 2);
    match node.value {
        ExprKindView::Call { callee: a0, arguments: a1 } => {
            lemma_renamed_exprs(a1, 0, Seq::empty(), site, bindings);
        }
        ExprKindView::Do(a0) => {
            lemma_renamed_exprs(a0, 0, Seq::empty(), site, bindings);
        }
        ExprKindView::Let { name: a0, ty: a1, value: a2 } => {
            lemma_renamed_expr(*a2, site, bindings);
            match a1 { Some(x) => lemma_qualified_type(x, site), None => {} }
        }
        ExprKindView::Assign { name: a0, value: a1 } => {
            lemma_renamed_expr(*a1, site, bindings);
        }
        ExprKindView::Return(a0) => {
            match a0 { Some(x) => lemma_renamed_expr(*x, site, bindings), None => {} }
        }
        ExprKindView::If { condition: a0, then_body: a1, else_body: a2 } => {
            lemma_renamed_expr(*a0, site, bindings);
            let next = hygiene::hygienic_expr(*a0, site, bindings).1;
            lemma_renamed_exprs(a1, 0, Seq::empty(), site, next);
            lemma_renamed_exprs(a2, 0, Seq::empty(), site, next);
        }
        ExprKindView::While { condition: a0, body: a1 } => {
            lemma_renamed_expr(*a0, site, bindings);
            let next = hygiene::hygienic_expr(*a0, site, bindings).1;
            lemma_renamed_exprs(a1, 0, Seq::empty(), site, next);
        }
        ExprKindView::For { binding: a0, source: a1, body: a2 } => {
            lemma_renamed_expr(*a1, site, bindings);
            let next = hygiene::hygienic_expr(*a1, site, bindings).1;
            let scope = site.bind(node.origin, a0, next).1;
            lemma_renamed_exprs(a2, 0, Seq::empty(), site, scope);
        }
        ExprKindView::Match { target: a0, cases: a1 } => {
            lemma_renamed_expr(*a0, site, bindings);
            let next = hygiene::hygienic_expr(*a0, site, bindings).1;
            let after = hygiene::isolated_match_cases(a1, site, next);
            assert forall|i: int| 0 <= i < a1.len() implies alike_case(false, #[trigger] a1[i], after[i]) by {
                lemma_renamed_case(a1[i], site, next);
            }
        }
        ExprKindView::Record(a0) => {
            let after = hygiene::isolated_expr_fields(a0, site, bindings);
            assert forall|i: int| 0 <= i < a0.len() implies alike_field(false, #[trigger] a0[i], after[i]) by {
                lemma_renamed_expr(a0[i].value, site, bindings);
            }
        }
        ExprKindView::Tuple(a0) => {
            let after = hygiene::isolated_exprs(a0, site, bindings);
            assert forall|i: int| 0 <= i < a0.len() implies alike_expr(false, #[trigger] a0[i], after[i]) by {
                lemma_renamed_expr(a0[i], site, bindings);
            }
        }
        ExprKindView::Array(a0) => {
            let after = hygiene::isolated_exprs(a0, site, bindings);
            assert forall|i: int| 0 <= i < a0.len() implies alike_expr(false, #[trigger] a0[i], after[i]) by {
                lemma_renamed_expr(a0[i], site, bindings);
            }
        }
        ExprKindView::Mapping(a0) => {
            let after = hygiene::isolated_expr_pairs(a0, site, bindings);
            assert forall|i: int| 0 <= i < a0.len() implies alike_entry(false, #[trigger] a0[i], after[i]) by {
                lemma_renamed_expr(a0[i].0, site, bindings);
                lemma_renamed_expr(a0[i].1, site, bindings);
            }
        }
        ExprKindView::Mutable(a0) => {
            lemma_renamed_expr(*a0, site, bindings);
        }
        ExprKindView::ReferenceOf(a0) => {
            lemma_renamed_expr(*a0, site, bindings);
        }
        ExprKindView::Range(a0, a1, a2) => {
            lemma_renamed_expr(*a0, site, bindings);
            lemma_renamed_expr(*a1, site, bindings);
            lemma_renamed_expr(*a2, site, bindings);
        }
        ExprKindView::Convert { value: a0, into: a1, fallback: a2 } => {
            lemma_renamed_expr(*a0, site, bindings);
            lemma_qualified_type(a1, site);
        }
        ExprKindView::Cast { value: a0, into: a1 } => {
            lemma_renamed_expr(*a0, site, bindings);
            lemma_qualified_type(a1, site);
        }
        ExprKindView::Task { captures: a0, body: a1 } => {
            lemma_renamed_exprs(a1, 0, Seq::empty(), site, bindings);
        }
        ExprKindView::Spawn { handle: a0, captures: a1, value: a2 } => {
            lemma_renamed_expr(*a2, site, bindings);
        }
        _ => {}
    }
}

proof fn lemma_renamed_exprs(
    nodes: Seq<ExprView>,
    from: int,
    done: Seq<ExprView>,
    site: SiteView,
    bindings: Map<Seq<char>, Seq<char>>,
)
    requires
        done.len() == from <= nodes.len(),
        forall|i: int| 0 <= i < from ==> alike_expr(false, #[trigger] nodes[i], done[i]),
    ensures
        alike_exprs(false, nodes, hygiene::hygienic_exprs(nodes, from, done, site, bindings).0),
    decreases nodes, 0int, nodes.len() - from,
{
    reveal(hygiene::hygienic_pattern);
    if from < nodes.len() {
        lemma_renamed_expr(nodes[from], site, bindings);
        let (value, next) = hygiene::hygienic_expr(nodes[from], site, bindings);
        assert(alike_expr(false, nodes[from], value));
        lemma_renamed_exprs(nodes, from + 1, done.push(value), site, next);
    }
}

proof fn lemma_renamed_case(node: MatchCaseView, site: SiteView, bindings: Map<Seq<char>, Seq<char>>)
    ensures
        alike_case(false, node, hygiene::isolated_match_case(node, site, bindings)),
    decreases node, 0int, 0int,
{
    let (pattern, scope) = hygiene::hygienic_pattern(node.pattern, site, bindings);
    lemma_renamed_pattern(node.pattern, site, bindings);
    lemma_qualified_pattern(pattern, site);
    lemma_pattern_through(node.pattern, pattern, hygiene::qualified_pattern(pattern, site));
    lemma_renamed_exprs(node.body, 0, Seq::empty(), site, scope);
}

/// Making an expression hygienic respells names and leaves every form with its parts in
/// their places.
pub proof fn law_hygiene_keeps_the_shape(node: ExprView, site: SiteView, bindings: Map<Seq<char>, Seq<char>>)
    ensures
        alike_expr(false, node, hygiene::hygienic_expr(node, site, bindings).0),
{
    lemma_renamed_expr(node, site, bindings);
}

/// Making a pattern hygienic respells names and leaves every form with its parts in
/// their places; qualifying a type does too.
pub proof fn law_hygienic_patterns_and_types_keep_their_shape(
    pattern: PatternView,
    ty: TypeExprView,
    site: SiteView,
    bindings: Map<Seq<char>, Seq<char>>,
)
    ensures
        alike_pattern(false, pattern, hygiene::hygienic_pattern(pattern, site, bindings).0),
        alike_pattern(false, pattern, hygiene::qualified_pattern(pattern, site)),
        alike_type(false, ty, hygiene::qualified_type_expr(ty, site)),
{
    lemma_renamed_pattern(pattern, site, bindings);
    lemma_qualified_pattern(pattern, site);
    lemma_qualified_type(ty, site);
}

// Provenance.

proof fn lemma_marked_names(
    nodes: Seq<NameView>,
    from: int,
    done: Seq<NameView>,
    span: Span, definition: Origin, call: Origin,
    state: ExpansionState,
)
    requires
        done.len() == from <= nodes.len(),
        forall|i: int| 0 <= i < from ==> alike_name(true, #[trigger] nodes[i], done[i]),
    ensures
        annotate::annotated_names(nodes, from, done, span, definition, call, state) matches Ok((values, _)) ==> alike_names(true, nodes, values),
    decreases nodes, 0int, nodes.len() - from,
{
    reveal(annotate::annotated_name);
    reveal(annotate::annotated_names);
    reveal(annotate::annotated_type_expr);
    reveal(annotate::annotated_pattern);
    if from < nodes.len() {
        match annotate::annotated_name(nodes[from], span, definition, call, state) {
            Err(_) => {}
            Ok((value, next)) => {
                assert(alike_name(true, nodes[from], value));
                lemma_marked_names(nodes, from + 1, done.push(value), span, definition, call, next);
            }
        }
    }
}

#[verifier::rlimit(100)]
proof fn lemma_marked_type(node: TypeExprView, span: Span, definition: Origin, call: Origin, state: ExpansionState)
    ensures
        annotate::annotated_type_expr(node, span, definition, call, state) matches Ok((value, _)) ==> alike_type(true, node, value),
    decreases node, 1int, 0int,
{
    reveal_with_fuel(alike_type, 2);
    reveal(annotate::annotated_name);
    reveal(annotate::annotated_optional_type_expr);
    reveal_with_fuel(annotate::annotated_type_expr, 2);
    let next = annotate::annotated_origin(node.origin, span, definition, call, state)->Ok_0.1;
    match node.value {
        TypeExprKindView::Application { constructor: a0, arguments: a1 } => {
            let left1 = annotate::annotated_name(a0, span, definition, call, next)->Ok_0.1;
            lemma_marked_types(a1, 0, Seq::empty(), span, definition, call, left1);
        }
        TypeExprKindView::Record(a0) => {
            lemma_marked_members(a0, 0, Seq::empty(), span, definition, call, next);
        }
        TypeExprKindView::Tuple(a0) => {
            lemma_marked_types(a0, 0, Seq::empty(), span, definition, call, next);
        }
        TypeExprKindView::Array(a0) => {
            lemma_marked_type(*a0, span, definition, call, next);
        }
        TypeExprKindView::Mapping(a0, a1) => {
            lemma_marked_type(*a0, span, definition, call, next);
            let left1 = annotate::annotated_type_expr(*a0, span, definition, call, next)->Ok_0.1;
            lemma_marked_type(*a1, span, definition, call, left1);
        }
        TypeExprKindView::Union(a0) => {
            lemma_marked_types(a0, 0, Seq::empty(), span, definition, call, next);
        }
        TypeExprKindView::Enum(a0) => {
            lemma_marked_members(a0, 0, Seq::empty(), span, definition, call, next);
        }
        TypeExprKindView::Interface(a0) => {
            lemma_marked_members(a0, 0, Seq::empty(), span, definition, call, next);
        }
        TypeExprKindView::Function { parameters: a0, result: a1 } => {
            lemma_marked_types(a0, 0, Seq::empty(), span, definition, call, next);
            let left1 = annotate::annotated_type_exprs(a0, 0, Seq::empty(), span, definition, call, next)->Ok_0.1;
            lemma_marked_type(*a1, span, definition, call, left1);
        }
        TypeExprKindView::Newtype(a0) => {
            lemma_marked_type(*a0, span, definition, call, next);
        }
        TypeExprKindView::Mutable(a0) => {
            lemma_marked_type(*a0, span, definition, call, next);
        }
        TypeExprKindView::Reference(a0) => {
            lemma_marked_type(*a0, span, definition, call, next);
        }
        TypeExprKindView::MutableReference(a0) => {
            lemma_marked_type(*a0, span, definition, call, next);
        }
        TypeExprKindView::Intersect(a0) => {
            lemma_marked_types(a0, 0, Seq::empty(), span, definition, call, next);
        }
        TypeExprKindView::Domain { head: a0, arguments: a1 } => {
            let left1 = annotate::annotated_name(a0, span, definition, call, next)->Ok_0.1;
            lemma_marked_types(a1, 0, Seq::empty(), span, definition, call, left1);
        }
        _ => {}
    }
}

proof fn lemma_marked_types(
    nodes: Seq<TypeExprView>,
    from: int,
    done: Seq<TypeExprView>,
    span: Span, definition: Origin, call: Origin,
    state: ExpansionState,
)
    requires
        done.len() == from <= nodes.len(),
        forall|i: int| 0 <= i < from ==> alike_type(true, #[trigger] nodes[i], done[i]),
    ensures
        annotate::annotated_type_exprs(nodes, from, done, span, definition, call, state) matches Ok((values, _)) ==> alike_types(true, nodes, values),
    decreases nodes, 0int, nodes.len() - from,
{
    reveal(annotate::annotated_name);
    reveal(annotate::annotated_names);
    reveal(annotate::annotated_type_expr);
    reveal(annotate::annotated_pattern);
    if from < nodes.len() {
        lemma_marked_type(nodes[from], span, definition, call, state);
        match annotate::annotated_type_expr(nodes[from], span, definition, call, state) {
            Err(_) => {}
            Ok((value, next)) => {
                assert(alike_type(true, nodes[from], value));
                lemma_marked_types(nodes, from + 1, done.push(value), span, definition, call, next);
            }
        }
    }
}

proof fn lemma_marked_members(
    nodes: Seq<TypeMemberView>,
    from: int,
    done: Seq<TypeMemberView>,
    span: Span, definition: Origin, call: Origin,
    state: ExpansionState,
)
    requires
        done.len() == from <= nodes.len(),
        forall|i: int| 0 <= i < from ==> alike_member(true, #[trigger] nodes[i], done[i]),
    ensures
        annotate::annotated_type_members(nodes, from, done, span, definition, call, state) matches Ok((values, _)) ==> alike_members(true, nodes, values),
    decreases nodes, 0int, nodes.len() - from,
{
    reveal(annotate::annotated_name);
    reveal(annotate::annotated_names);
    reveal(annotate::annotated_type_expr);
    reveal(annotate::annotated_pattern);
    if from < nodes.len() {
        let left1 = annotate::annotated_name(nodes[from].name, span, definition, call, state)->Ok_0.1;
        lemma_marked_type(nodes[from].ty, span, definition, call, left1);
        match annotate::annotated_type_member(nodes[from], span, definition, call, state) {
            Err(_) => {}
            Ok((value, next)) => {
                assert(alike_member(true, nodes[from], value));
                lemma_marked_members(nodes, from + 1, done.push(value), span, definition, call, next);
            }
        }
    }
}

#[verifier::rlimit(100)]
proof fn lemma_marked_pattern(node: PatternView, span: Span, definition: Origin, call: Origin, state: ExpansionState)
    ensures
        annotate::annotated_pattern(node, span, definition, call, state) matches Ok((value, _)) ==> alike_pattern(true, node, value),
    decreases node, 1int, 0int,
{
    reveal_with_fuel(alike_pattern, 2);
    reveal(annotate::annotated_name);
    reveal(annotate::annotated_optional_type_expr);
    reveal_with_fuel(annotate::annotated_pattern, 2);
    let next = annotate::annotated_origin(node.origin, span, definition, call, state)->Ok_0.1;
    match node.value {
        PatternKindView::Constructor { constructor: a0, arguments: a1 } => {
            let left1 = annotate::annotated_name(a0, span, definition, call, next)->Ok_0.1;
            lemma_marked_patterns(a1, 0, Seq::empty(), span, definition, call, left1);
        }
        PatternKindView::Record(a0) => {
            lemma_marked_pattern_fields(a0, 0, Seq::empty(), span, definition, call, next);
        }
        PatternKindView::Tuple(a0) => {
            lemma_marked_patterns(a0, 0, Seq::empty(), span, definition, call, next);
        }
        PatternKindView::Array(a0) => {
            lemma_marked_patterns(a0, 0, Seq::empty(), span, definition, call, next);
        }
        PatternKindView::Mapping(a0) => {
            lemma_marked_pattern_entries(a0, 0, Seq::empty(), span, definition, call, next);
        }
        PatternKindView::Newtype { ty: a0, pattern: a1 } => {
            lemma_marked_type(a0, span, definition, call, next);
            let left1 = annotate::annotated_type_expr(a0, span, definition, call, next)->Ok_0.1;
            lemma_marked_pattern(*a1, span, definition, call, left1);
        }
        PatternKindView::Interface { ty: a0, pattern: a1 } => {
            lemma_marked_type(a0, span, definition, call, next);
            let left1 = annotate::annotated_type_expr(a0, span, definition, call, next)->Ok_0.1;
            lemma_marked_pattern(*a1, span, definition, call, left1);
        }
        _ => {}
    }
}

proof fn lemma_marked_patterns(
    nodes: Seq<PatternView>,
    from: int,
    done: Seq<PatternView>,
    span: Span, definition: Origin, call: Origin,
    state: ExpansionState,
)
    requires
        done.len() == from <= nodes.len(),
        forall|i: int| 0 <= i < from ==> alike_pattern(true, #[trigger] nodes[i], done[i]),
    ensures
        annotate::annotated_patterns(nodes, from, done, span, definition, call, state) matches Ok((values, _)) ==> alike_patterns(true, nodes, values),
    decreases nodes, 0int, nodes.len() - from,
{
    reveal(annotate::annotated_name);
    reveal(annotate::annotated_names);
    reveal(annotate::annotated_type_expr);
    reveal(annotate::annotated_pattern);
    if from < nodes.len() {
        lemma_marked_pattern(nodes[from], span, definition, call, state);
        match annotate::annotated_pattern(nodes[from], span, definition, call, state) {
            Err(_) => {}
            Ok((value, next)) => {
                assert(alike_pattern(true, nodes[from], value));
                lemma_marked_patterns(nodes, from + 1, done.push(value), span, definition, call, next);
            }
        }
    }
}

proof fn lemma_marked_pattern_fields(
    nodes: Seq<PatternFieldView>,
    from: int,
    done: Seq<PatternFieldView>,
    span: Span, definition: Origin, call: Origin,
    state: ExpansionState,
)
    requires
        done.len() == from <= nodes.len(),
        forall|i: int| 0 <= i < from ==> alike_pattern_field(true, #[trigger] nodes[i], done[i]),
    ensures
        annotate::annotated_pattern_fields(nodes, from, done, span, definition, call, state) matches Ok((values, _)) ==> alike_pattern_fields(true, nodes, values),
    decreases nodes, 0int, nodes.len() - from,
{
    reveal(annotate::annotated_name);
    reveal(annotate::annotated_names);
    reveal(annotate::annotated_type_expr);
    reveal(annotate::annotated_pattern);
    if from < nodes.len() {
        let left1 = annotate::annotated_name(nodes[from].name, span, definition, call, state)->Ok_0.1;
        lemma_marked_pattern(nodes[from].pattern, span, definition, call, left1);
        match annotate::annotated_pattern_field(nodes[from], span, definition, call, state) {
            Err(_) => {}
            Ok((value, next)) => {
                assert(alike_pattern_field(true, nodes[from], value));
                lemma_marked_pattern_fields(nodes, from + 1, done.push(value), span, definition, call, next);
            }
        }
    }
}

proof fn lemma_marked_pattern_entries(
    nodes: Seq<(PatternView, PatternView)>,
    from: int,
    done: Seq<(PatternView, PatternView)>,
    span: Span, definition: Origin, call: Origin,
    state: ExpansionState,
)
    requires
        done.len() == from <= nodes.len(),
        forall|i: int| 0 <= i < from ==> alike_pattern_entry(true, #[trigger] nodes[i], done[i]),
    ensures
        annotate::annotated_pattern_pairs(nodes, from, done, span, definition, call, state) matches Ok((values, _)) ==> alike_pattern_entries(true, nodes, values),
    decreases nodes, 0int, nodes.len() - from,
{
    reveal(annotate::annotated_name);
    reveal(annotate::annotated_names);
    reveal(annotate::annotated_type_expr);
    reveal(annotate::annotated_pattern);
    if from < nodes.len() {
        lemma_marked_pattern(nodes[from].0, span, definition, call, state);
        let left1 = annotate::annotated_pattern(nodes[from].0, span, definition, call, state)->Ok_0.1;
        lemma_marked_pattern(nodes[from].1, span, definition, call, left1);
        match annotate::annotated_pattern_pair(nodes[from], span, definition, call, state) {
            Err(_) => {}
            Ok((value, next)) => {
                assert(alike_pattern_entry(true, nodes[from], value));
                lemma_marked_pattern_entries(nodes, from + 1, done.push(value), span, definition, call, next);
            }
        }
    }
}

#[verifier::rlimit(100)]
proof fn lemma_marked_expr(node: ExprView, span: Span, definition: Origin, call: Origin, state: ExpansionState)
    ensures
        annotate::annotated_expr(node, span, definition, call, state) matches Ok((value, _)) ==> alike_expr(true, node, value),
    decreases node, 1int, 0int,
{
    reveal_with_fuel(alike_expr, 2);
    reveal(annotate::annotated_name);
    reveal(annotate::annotated_optional_type_expr);
    reveal_with_fuel(annotate::annotated_expr, 3);
    let next = annotate::annotated_origin(node.origin, span, definition, call, state)->Ok_0.1;
    match node.value {
        ExprKindView::Call { callee: a0, arguments: a1 } => {
            let left1 = annotate::annotated_name(a0, span, definition, call, next)->Ok_0.1;
            lemma_marked_exprs(a1, 0, Seq::empty(), span, definition, call, left1);
        }
        ExprKindView::Do(a0) => {
            lemma_marked_exprs(a0, 0, Seq::empty(), span, definition, call, next);
        }
        ExprKindView::Let { name: a0, ty: a1, value: a2 } => {
            let left1 = annotate::annotated_name(a0, span, definition, call, next)->Ok_0.1;
            match a1 { Some(x) => lemma_marked_type(x, span, definition, call, left1), None => {} }
            let left2 = annotate::annotated_optional_type_expr(a1, span, definition, call, left1)->Ok_0.1;
            lemma_marked_expr(*a2, span, definition, call, left2);
        }
        ExprKindView::Assign { name: a0, value: a1 } => {
            let left1 = annotate::annotated_name(a0, span, definition, call, next)->Ok_0.1;
            lemma_marked_expr(*a1, span, definition, call, left1);
        }
        ExprKindView::Return(a0) => {
            match a0 { Some(x) => lemma_marked_expr(*x, span, definition, call, next), None => {} }
        }
        ExprKindView::If { condition: a0, then_body: a1, else_body: a2 } => {
            lemma_marked_expr(*a0, span, definition, call, next);
            let left1 = annotate::annotated_expr(*a0, span, definition, call, next)->Ok_0.1;
            lemma_marked_exprs(a1, 0, Seq::empty(), span, definition, call, left1);
            let left2 = annotate::annotated_exprs(a1, 0, Seq::empty(), span, definition, call, left1)->Ok_0.1;
            lemma_marked_exprs(a2, 0, Seq::empty(), span, definition, call, left2);
        }
        ExprKindView::While { condition: a0, body: a1 } => {
            lemma_marked_expr(*a0, span, definition, call, next);
            let left1 = annotate::annotated_expr(*a0, span, definition, call, next)->Ok_0.1;
            lemma_marked_exprs(a1, 0, Seq::empty(), span, definition, call, left1);
        }
        ExprKindView::For { binding: a0, source: a1, body: a2 } => {
            let left1 = annotate::annotated_name(a0, span, definition, call, next)->Ok_0.1;
            lemma_marked_expr(*a1, span, definition, call, left1);
            let left2 = annotate::annotated_expr(*a1, span, definition, call, left1)->Ok_0.1;
            lemma_marked_exprs(a2, 0, Seq::empty(), span, definition, call, left2);
        }
        ExprKindView::Match { target: a0, cases: a1 } => {
            lemma_marked_expr(*a0, span, definition, call, next);
            let left1 = annotate::annotated_expr(*a0, span, definition, call, next)->Ok_0.1;
            lemma_marked_cases(a1, 0, Seq::empty(), span, definition, call, left1);
        }
        ExprKindView::Record(a0) => {
            lemma_marked_fields(a0, 0, Seq::empty(), span, definition, call, next);
        }
        ExprKindView::Tuple(a0) => {
            lemma_marked_exprs(a0, 0, Seq::empty(), span, definition, call, next);
        }
        ExprKindView::Array(a0) => {
            lemma_marked_exprs(a0, 0, Seq::empty(), span, definition, call, next);
        }
        ExprKindView::Mapping(a0) => {
            lemma_marked_entries(a0, 0, Seq::empty(), span, definition, call, next);
        }
        ExprKindView::Mutable(a0) => {
            lemma_marked_expr(*a0, span, definition, call, next);
        }
        ExprKindView::ReferenceOf(a0) => {
            lemma_marked_expr(*a0, span, definition, call, next);
        }
        ExprKindView::Range(a0, a1, a2) => {
            lemma_marked_expr(*a0, span, definition, call, next);
            let left1 = annotate::annotated_expr(*a0, span, definition, call, next)->Ok_0.1;
            lemma_marked_expr(*a1, span, definition, call, left1);
            let left2 = annotate::annotated_expr(*a1, span, definition, call, left1)->Ok_0.1;
            lemma_marked_expr(*a2, span, definition, call, left2);
        }
        ExprKindView::Convert { value: a0, into: a1, fallback: a2 } => {
            lemma_marked_expr(*a0, span, definition, call, next);
            let left1 = annotate::annotated_expr(*a0, span, definition, call, next)->Ok_0.1;
            lemma_marked_type(a1, span, definition, call, left1);
        }
        ExprKindView::Cast { value: a0, into: a1 } => {
            lemma_marked_expr(*a0, span, definition, call, next);
            let left1 = annotate::annotated_expr(*a0, span, definition, call, next)->Ok_0.1;
            lemma_marked_type(a1, span, definition, call, left1);
        }
        ExprKindView::Task { captures: a0, body: a1 } => {
            lemma_marked_names(a0, 0, Seq::empty(), span, definition, call, next);
            let left1 = annotate::annotated_names(a0, 0, Seq::empty(), span, definition, call, next)->Ok_0.1;
            lemma_marked_exprs(a1, 0, Seq::empty(), span, definition, call, left1);
        }
        ExprKindView::Spawn { handle: a0, captures: a1, value: a2 } => {
            let left1 = annotate::annotated_name(a0, span, definition, call, next)->Ok_0.1;
            lemma_marked_names(a1, 0, Seq::empty(), span, definition, call, left1);
            let left2 = annotate::annotated_names(a1, 0, Seq::empty(), span, definition, call, left1)->Ok_0.1;
            lemma_marked_expr(*a2, span, definition, call, left2);
        }
        ExprKindView::Join { handle: a0, binding: a1 } => {
            let left1 = annotate::annotated_name(a0, span, definition, call, next)->Ok_0.1;
        }
        _ => {}
    }
}

proof fn lemma_marked_exprs(
    nodes: Seq<ExprView>,
    from: int,
    done: Seq<ExprView>,
    span: Span, definition: Origin, call: Origin,
    state: ExpansionState,
)
    requires
        done.len() == from <= nodes.len(),
        forall|i: int| 0 <= i < from ==> alike_expr(true, #[trigger] nodes[i], done[i]),
    ensures
        annotate::annotated_exprs(nodes, from, done, span, definition, call, state) matches Ok((values, _)) ==> alike_exprs(true, nodes, values),
    decreases nodes, 0int, nodes.len() - from,
{
    reveal(annotate::annotated_name);
    reveal(annotate::annotated_names);
    reveal(annotate::annotated_type_expr);
    reveal(annotate::annotated_pattern);
    if from < nodes.len() {
        lemma_marked_expr(nodes[from], span, definition, call, state);
        match annotate::annotated_expr(nodes[from], span, definition, call, state) {
            Err(_) => {}
            Ok((value, next)) => {
                assert(alike_expr(true, nodes[from], value));
                lemma_marked_exprs(nodes, from + 1, done.push(value), span, definition, call, next);
            }
        }
    }
}

proof fn lemma_marked_fields(
    nodes: Seq<ExprFieldView>,
    from: int,
    done: Seq<ExprFieldView>,
    span: Span, definition: Origin, call: Origin,
    state: ExpansionState,
)
    requires
        done.len() == from <= nodes.len(),
        forall|i: int| 0 <= i < from ==> alike_field(true, #[trigger] nodes[i], done[i]),
    ensures
        annotate::annotated_expr_fields(nodes, from, done, span, definition, call, state) matches Ok((values, _)) ==> alike_fields(true, nodes, values),
    decreases nodes, 0int, nodes.len() - from,
{
    reveal(annotate::annotated_name);
    reveal(annotate::annotated_names);
    reveal(annotate::annotated_type_expr);
    reveal(annotate::annotated_pattern);
    if from < nodes.len() {
        let left1 = annotate::annotated_name(nodes[from].name, span, definition, call, state)->Ok_0.1;
        lemma_marked_expr(nodes[from].value, span, definition, call, left1);
        match annotate::annotated_expr_field(nodes[from], span, definition, call, state) {
            Err(_) => {}
            Ok((value, next)) => {
                assert(alike_field(true, nodes[from], value));
                lemma_marked_fields(nodes, from + 1, done.push(value), span, definition, call, next);
            }
        }
    }
}

proof fn lemma_marked_entries(
    nodes: Seq<(ExprView, ExprView)>,
    from: int,
    done: Seq<(ExprView, ExprView)>,
    span: Span, definition: Origin, call: Origin,
    state: ExpansionState,
)
    requires
        done.len() == from <= nodes.len(),
        forall|i: int| 0 <= i < from ==> alike_entry(true, #[trigger] nodes[i], done[i]),
    ensures
        annotate::annotated_expr_pairs(nodes, from, done, span, definition, call, state) matches Ok((values, _)) ==> alike_entries(true, nodes, values),
    decreases nodes, 0int, nodes.len() - from,
{
    reveal(annotate::annotated_name);
    reveal(annotate::annotated_names);
    reveal(annotate::annotated_type_expr);
    reveal(annotate::annotated_pattern);
    if from < nodes.len() {
        lemma_marked_expr(nodes[from].0, span, definition, call, state);
        let left1 = annotate::annotated_expr(nodes[from].0, span, definition, call, state)->Ok_0.1;
        lemma_marked_expr(nodes[from].1, span, definition, call, left1);
        match annotate::annotated_expr_pair(nodes[from], span, definition, call, state) {
            Err(_) => {}
            Ok((value, next)) => {
                assert(alike_entry(true, nodes[from], value));
                lemma_marked_entries(nodes, from + 1, done.push(value), span, definition, call, next);
            }
        }
    }
}

proof fn lemma_marked_cases(
    nodes: Seq<MatchCaseView>,
    from: int,
    done: Seq<MatchCaseView>,
    span: Span, definition: Origin, call: Origin,
    state: ExpansionState,
)
    requires
        done.len() == from <= nodes.len(),
        forall|i: int| 0 <= i < from ==> alike_case(true, #[trigger] nodes[i], done[i]),
    ensures
        annotate::annotated_match_cases(nodes, from, done, span, definition, call, state) matches Ok((values, _)) ==> alike_cases(true, nodes, values),
    decreases nodes, 0int, nodes.len() - from,
{
    reveal(annotate::annotated_name);
    reveal(annotate::annotated_names);
    reveal(annotate::annotated_type_expr);
    reveal(annotate::annotated_pattern);
    if from < nodes.len() {
        lemma_marked_pattern(nodes[from].pattern, span, definition, call, state);
        let left1 = annotate::annotated_pattern(nodes[from].pattern, span, definition, call, state)->Ok_0.1;
        lemma_marked_exprs(nodes[from].body, 0, Seq::empty(), span, definition, call, left1);
        match annotate::annotated_match_case(nodes[from], span, definition, call, state) {
            Err(_) => {}
            Ok((value, next)) => {
                assert(alike_case(true, nodes[from], value));
                lemma_marked_cases(nodes, from + 1, done.push(value), span, definition, call, next);
            }
        }
    }
}

/// Marking where expanded syntax comes from changes the marks alone: every form keeps
/// its parts in their places, and every name its spelling.
pub proof fn law_provenance_changes_marks_alone(
    node: ExprView,
    pattern: PatternView,
    ty: TypeExprView,
    span: Span, definition: Origin, call: Origin,
    state: ExpansionState,
)
    ensures
        annotate::annotated_expr(node, span, definition, call, state) matches Ok((value, _)) ==> alike_expr(true, node, value),
        annotate::annotated_pattern(pattern, span, definition, call, state) matches Ok((value, _)) ==> alike_pattern(true, pattern, value),
        annotate::annotated_type_expr(ty, span, definition, call, state) matches Ok((value, _)) ==> alike_type(true, ty, value),
{
    lemma_marked_expr(node, span, definition, call, state);
    lemma_marked_pattern(pattern, span, definition, call, state);
    lemma_marked_type(ty, span, definition, call, state);
}

} // verus!
