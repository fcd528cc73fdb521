//! Quotation keeps what is not unquoted.
use vstd::prelude::*;
use crate::ast::expansion_state::FragmentView;
use crate::ast::macro_error::MacroErrorView;
use crate::ast::substitute;
use crate::ast::surface::Origin;
use crate::ast::view::{
    ExprFieldView, ExprKindView, ExprView, MatchCaseView, PatternFieldView, PatternKindView, PatternView,
    TypeExprKindView, TypeExprView, TypeMemberView,
};

verus! {

/// Whether a word is one of those that quotation gives a meaning to.
pub open spec fn is_marker(word: Seq<char>) -> bool {
    word == "unquote"@ || word == "capture"@ || word == "splice"@
}

// Syntax without such a word in head position, neither itself nor in any of its parts.

pub open spec fn quiet_type_kind(kind: TypeExprKindView) -> bool
    decreases kind, 0int,
{
    match kind {
        TypeExprKindView::Application { constructor: a0, arguments: a1 } => !is_marker(a0.value) && quiet_types(a1),
        TypeExprKindView::Record(a0) => quiet_members(a0),
        TypeExprKindView::Tuple(a0) => quiet_types(a0),
        TypeExprKindView::Array(a0) => quiet_type(*a0),
        TypeExprKindView::Mapping(a0, a1) => quiet_type(*a0) && quiet_type(*a1),
        TypeExprKindView::Union(a0) => quiet_types(a0),
        TypeExprKindView::Enum(a0) => quiet_members(a0),
        TypeExprKindView::Interface(a0) => quiet_members(a0),
        TypeExprKindView::Function { parameters: a0, result: a1 } => quiet_types(a0) && quiet_type(*a1),
        TypeExprKindView::Newtype(a0) => quiet_type(*a0),
        TypeExprKindView::Mutable(a0) => quiet_type(*a0),
        TypeExprKindView::Reference(a0) => quiet_type(*a0),
        TypeExprKindView::MutableReference(a0) => quiet_type(*a0),
        TypeExprKindView::Intersect(a0) => quiet_types(a0),
        TypeExprKindView::Domain { head: a0, arguments: a1 } => quiet_types(a1),
        _ => true,
    }
}

pub open spec fn quiet_type(node: TypeExprView) -> bool
    decreases node, 1int,
{
    quiet_type_kind(node.value)
}

pub open spec fn quiet_types(nodes: Seq<TypeExprView>) -> bool
    decreases nodes, 0int,
{
    forall|i: int| 0 <= i < nodes.len() ==> quiet_type(#[trigger] nodes[i])
}

pub open spec fn quiet_member(node: TypeMemberView) -> bool
    decreases node, 0int,
{
    quiet_type(node.ty)
}

pub open spec fn quiet_members(nodes: Seq<TypeMemberView>) -> bool
    decreases nodes, 0int,
{
    forall|i: int| 0 <= i < nodes.len() ==> quiet_member(#[trigger] nodes[i])
}

pub open spec fn quiet_pattern_kind(kind: PatternKindView) -> bool
    decreases kind, 0int,
{
    match kind {
        PatternKindView::Constructor { constructor: a0, arguments: a1 } => !is_marker(a0.value) && quiet_patterns(a1),
        PatternKindView::Record(a0) => quiet_pattern_fields(a0),
        PatternKindView::Tuple(a0) => quiet_patterns(a0),
        PatternKindView::Array(a0) => quiet_patterns(a0),
        PatternKindView::Mapping(a0) => quiet_pattern_entries(a0),
        PatternKindView::Newtype { ty: a0, pattern: a1 } => quiet_type(a0) && quiet_pattern(*a1),
        PatternKindView::Interface { ty: a0, pattern: a1 } => quiet_type(a0) && quiet_pattern(*a1),
        _ => true,
    }
}

pub open spec fn quiet_pattern(node: PatternView) -> bool
    decreases node, 1int,
{
    quiet_pattern_kind(node.value)
}

pub open spec fn quiet_patterns(nodes: Seq<PatternView>) -> bool
    decreases nodes, 0int,
{
    forall|i: int| 0 <= i < nodes.len() ==> quiet_pattern(#[trigger] nodes[i])
}

pub open spec fn quiet_pattern_field(node: PatternFieldView) -> bool
    decreases node, 0int,
{
    quiet_pattern(node.pattern)
}

pub open spec fn quiet_pattern_fields(nodes: Seq<PatternFieldView>) -> bool
    decreases nodes, 0int,
{
    forall|i: int| 0 <= i < nodes.len() ==> quiet_pattern_field(#[trigger] nodes[i])
}

pub open spec fn quiet_pattern_entry(node: (PatternView, PatternView)) -> bool
    decreases node, 0int,
{
    quiet_pattern(node.0) && quiet_pattern(node.1)
}

pub open spec fn quiet_pattern_entries(nodes: Seq<(PatternView, PatternView)>) -> bool
    decreases nodes, 0int,
{
    forall|i: int| 0 <= i < nodes.len() ==> quiet_pattern_entry(#[trigger] nodes[i])
}

pub open spec fn quiet_expr_kind(kind: ExprKindView) -> bool
    decreases kind, 0int,
{
    match kind {
        ExprKindView::Call { callee: a0, arguments: a1 } => !is_marker(a0.value) && quiet_exprs(a1),
        ExprKindView::Do(a0) => quiet_exprs(a0),
        ExprKindView::Let { name: a0, ty: a1, value: a2 } => (match a1 { Some(x) => quiet_type(x), None => true }) && quiet_expr(*a2),
        ExprKindView::Assign { name: a0, value: a1 } => quiet_expr(*a1),
        ExprKindView::Return(a0) => (match a0 { Some(x) => quiet_expr(*x), None => true }),
        ExprKindView::If { condition: a0, then_body: a1, else_body: a2 } => quiet_expr(*a0) && quiet_exprs(a1) && quiet_exprs(a2),
        ExprKindView::While { condition: a0, body: a1 } => quiet_expr(*a0) && quiet_exprs(a1),
        ExprKindView::For { binding: a0, source: a1, body: a2 } => quiet_expr(*a1) && quiet_exprs(a2),
        ExprKindView::Match { target: a0, cases: a1 } => quiet_expr(*a0) && quiet_cases(a1),
        ExprKindView::Record(a0) => quiet_fields(a0),
        ExprKindView::Tuple(a0) => quiet_exprs(a0),
        ExprKindView::Array(a0) => quiet_exprs(a0),
        ExprKindView::Mapping(a0) => quiet_entries(a0),
        ExprKindView::Mutable(a0) => quiet_expr(*a0),
        ExprKindView::ReferenceOf(a0) => quiet_expr(*a0),
        ExprKindView::Range(a0, a1, a2) => quiet_expr(*a0) && quiet_expr(*a1) && quiet_expr(*a2),
        ExprKindView::Convert { value: a0, into: a1, fallback: a2 } => quiet_expr(*a0) && quiet_type(a1),
        ExprKindView::Cast { value: a0, into: a1 } => quiet_expr(*a0) && quiet_type(a1),
        ExprKindView::Task { captures: a0, body: a1 } => quiet_exprs(a1),
        ExprKindView::Spawn { handle: a0, captures: a1, value: a2 } => quiet_expr(*a2),
        _ => true,
    }
}

pub open spec fn quiet_expr(node: ExprView) -> bool
    decreases node, 1int,
{
    quiet_expr_kind(node.value)
}

pub open spec fn quiet_exprs(nodes: Seq<ExprView>) -> bool
    decreases nodes, 0int,
{
    forall|i: int| 0 <= i < nodes.len() ==> quiet_expr(#[trigger] nodes[i])
}

pub open spec fn quiet_field(node: ExprFieldView) -> bool
    decreases node, 0int,
{
    quiet_expr(node.value)
}

pub open spec fn quiet_fields(nodes: Seq<ExprFieldView>) -> bool
    decreases nodes, 0int,
{
    forall|i: int| 0 <= i < nodes.len() ==> quiet_field(#[trigger] nodes[i])
}

pub open spec fn quiet_entry(node: (ExprView, ExprView)) -> bool
    decreases node, 0int,
{
    quiet_expr(node.0) && quiet_expr(node.1)
}

pub open spec fn quiet_entries(nodes: Seq<(ExprView, ExprView)>) -> bool
    decreases nodes, 0int,
{
    forall|i: int| 0 <= i < nodes.len() ==> quiet_entry(#[trigger] nodes[i])
}

pub open spec fn quiet_case(node: MatchCaseView) -> bool
    decreases node, 0int,
{
    quiet_pattern(node.pattern) && quiet_exprs(node.body)
}

pub open spec fn quiet_cases(nodes: Seq<MatchCaseView>) -> bool
    decreases nodes, 0int,
{
    forall|i: int| 0 <= i < nodes.len() ==> quiet_case(#[trigger] nodes[i])
}

// Substitution.

#[verifier::rlimit(100)]
proof fn lemma_kept_type(node: TypeExprView, environment: Map<Seq<char>, FragmentView>)
    requires
        quiet_type(node),
    ensures
        substitute::substituted_type_expr(node, environment) == Ok::<TypeExprView, MacroErrorView>(node),
    decreases node, 1int, 0int,
{
    reveal_with_fuel(quiet_type, 2);
    reveal(substitute::substituted_optional_type_expr);
    reveal_with_fuel(substitute::substituted_type_expr, 2);
    match node.value {
        TypeExprKindView::Application { constructor: a0, arguments: a1 } => {
            lemma_kept_types(a1, 0, Seq::empty(), environment);
        }
        TypeExprKindView::Record(a0) => {
            lemma_kept_members(a0, 0, Seq::empty(), environment);
        }
        TypeExprKindView::Tuple(a0) => {
            lemma_kept_types(a0, 0, Seq::empty(), environment);
        }
        TypeExprKindView::Array(a0) => {
            lemma_kept_type(*a0, environment);
        }
        TypeExprKindView::Mapping(a0, a1) => {
            lemma_kept_type(*a0, environment);
            lemma_kept_type(*a1, environment);
        }
        TypeExprKindView::Union(a0) => {
            lemma_kept_types(a0, 0, Seq::empty(), environment);
        }
        TypeExprKindView::Enum(a0) => {
            lemma_kept_members(a0, 0, Seq::empty(), environment);
        }
        TypeExprKindView::Interface(a0) => {
            lemma_kept_members(a0, 0, Seq::empty(), environment);
        }
        TypeExprKindView::Function { parameters: a0, result: a1 } => {
            lemma_kept_types(a0, 0, Seq::empty(), environment);
            lemma_kept_type(*a1, environment);
        }
        TypeExprKindView::Newtype(a0) => {
            lemma_kept_type(*a0, environment);
        }
        TypeExprKindView::Mutable(a0) => {
            lemma_kept_type(*a0, environment);
        }
        TypeExprKindView::Reference(a0) => {
            lemma_kept_type(*a0, environment);
        }
        TypeExprKindView::MutableReference(a0) => {
            lemma_kept_type(*a0, environment);
        }
        TypeExprKindView::Intersect(a0) => {
            lemma_kept_types(a0, 0, Seq::empty(), environment);
        }
        TypeExprKindView::Domain { head: a0, arguments: a1 } => {
            lemma_kept_types(a1, 0, Seq::empty(), environment);
        }
        _ => {}
    }
}

proof fn lemma_kept_types(nodes: Seq<TypeExprView>, from: int, done: Seq<TypeExprView>, environment: Map<Seq<char>, FragmentView>)
    requires
        quiet_types(nodes),
        0 <= from <= nodes.len(),
        done =~= nodes.take(from),
    ensures
        substitute::substituted_type_exprs(nodes, from, done, environment) == Ok::<Seq<TypeExprView>, MacroErrorView>(nodes),
    decreases nodes, 0int, nodes.len() - from,
{
    reveal(substitute::substituted_type_expr);
    reveal(substitute::substituted_pattern);
    if from < nodes.len() {
        assert(quiet_type(nodes[from]));
        lemma_kept_type(nodes[from], environment);
        assert(substitute::substituted_type_expr(nodes[from], environment) == Ok::<TypeExprView, MacroErrorView>(nodes[from]));
        assert(done.push(nodes[from]) =~= nodes.take(from + 1));
        lemma_kept_types(nodes, from + 1, done.push(nodes[from]), environment);
    } else {
        assert(done =~= nodes);
    }
}

proof fn lemma_kept_members(nodes: Seq<TypeMemberView>, from: int, done: Seq<TypeMemberView>, environment: Map<Seq<char>, FragmentView>)
    requires
        quiet_members(nodes),
        0 <= from <= nodes.len(),
        done =~= nodes.take(from),
    ensures
        substitute::substituted_type_members(nodes, from, done, environment) == Ok::<Seq<TypeMemberView>, MacroErrorView>(nodes),
    decreases nodes, 0int, nodes.len() - from,
{
    reveal(substitute::substituted_type_expr);
    reveal(substitute::substituted_pattern);
    if from < nodes.len() {
        assert(quiet_member(nodes[from]));
        lemma_kept_type(nodes[from].ty, environment);
        assert(substitute::substituted_type_member(nodes[from], environment) == Ok::<TypeMemberView, MacroErrorView>(nodes[from]));
        assert(done.push(nodes[from]) =~= nodes.take(from + 1));
        lemma_kept_members(nodes, from + 1, done.push(nodes[from]), environment);
    } else {
        assert(done =~= nodes);
    }
}

#[verifier::rlimit(100)]
proof fn lemma_kept_pattern(node: PatternView, environment: Map<Seq<char>, FragmentView>)
    requires
        quiet_pattern(node),
    ensures
        substitute::substituted_pattern(node, environment) == Ok::<PatternView, MacroErrorView>(node),
    decreases node, 1int, 0int,
{
    reveal_with_fuel(quiet_pattern, 2);
    reveal(substitute::substituted_optional_type_expr);
    reveal_with_fuel(substitute::substituted_pattern, 2);
    match node.value {
        PatternKindView::Constructor { constructor: a0, arguments: a1 } => {
            lemma_kept_patterns(a1, 0, Seq::empty(), environment);
        }
        PatternKindView::Record(a0) => {
            lemma_kept_pattern_fields(a0, 0, Seq::empty(), environment);
        }
        PatternKindView::Tuple(a0) => {
            lemma_kept_patterns(a0, 0, Seq::empty(), environment);
        }
        PatternKindView::Array(a0) => {
            lemma_kept_patterns(a0, 0, Seq::empty(), environment);
        }
        PatternKindView::Mapping(a0) => {
            lemma_kept_pattern_entries(a0, 0, Seq::empty(), environment);
        }
        PatternKindView::Newtype { ty: a0, pattern: a1 } => {
            lemma_kept_type(a0, environment);
            lemma_kept_pattern(*a1, environment);
        }
        PatternKindView::Interface { ty: a0, pattern: a1 } => {
            lemma_kept_type(a0, environment);
            lemma_kept_pattern(*a1, environment);
        }
        _ => {}
    }
}

proof fn lemma_kept_patterns(nodes: Seq<PatternView>, from: int, done: Seq<PatternView>, environment: Map<Seq<char>, FragmentView>)
    requires
        quiet_patterns(nodes),
        0 <= from <= nodes.len(),
        done =~= nodes.take(from),
    ensures
        substitute::substituted_patterns(nodes, from, done, environment) == Ok::<Seq<PatternView>, MacroErrorView>(nodes),
    decreases nodes, 0int, nodes.len() - from,
{
    reveal(substitute::substituted_type_expr);
    reveal(substitute::substituted_pattern);
    if from < nodes.len() {
        assert(quiet_pattern(nodes[from]));
        lemma_kept_pattern(nodes[from], environment);
        assert(substitute::substituted_pattern(nodes[from], environment) == Ok::<PatternView, MacroErrorView>(nodes[from]));
        assert(done.push(nodes[from]) =~= nodes.take(from + 1));
        lemma_kept_patterns(nodes, from + 1, done.push(nodes[from]), environment);
    } else {
        assert(done =~= nodes);
    }
}

proof fn lemma_kept_pattern_fields(nodes: Seq<PatternFieldView>, from: int, done: Seq<PatternFieldView>, environment: Map<Seq<char>, FragmentView>)
    requires
        quiet_pattern_fields(nodes),
        0 <= from <= nodes.len(),
        done =~= nodes.take(from),
    ensures
        substitute::substituted_pattern_fields(nodes, from, done, environment) == Ok::<Seq<PatternFieldView>, MacroErrorView>(nodes),
    decreases nodes, 0int, nodes.len() - from,
{
    reveal(substitute::substituted_type_expr);
    reveal(substitute::substituted_pattern);
    if from < nodes.len() {
        assert(quiet_pattern_field(nodes[from]));
        lemma_kept_pattern(nodes[from].pattern, environment);
        assert(substitute::substituted_pattern_field(nodes[from], environment) == Ok::<PatternFieldView, MacroErrorView>(nodes[from]));
        assert(done.push(nodes[from]) =~= nodes.take(from + 1));
        lemma_kept_pattern_fields(nodes, from + 1, done.push(nodes[from]), environment);
    } else {
        assert(done =~= nodes);
    }
}

proof fn lemma_kept_pattern_entries(nodes: Seq<(PatternView, PatternView)>, from: int, done: Seq<(PatternView, PatternView)>, environment: Map<Seq<char>, FragmentView>)
    requires
        quiet_pattern_entries(nodes),
        0 <= from <= nodes.len(),
        done =~= nodes.take(from),
    ensures
        substitute::substituted_pattern_pairs(nodes, from, done, environment) == Ok::<Seq<(PatternView, PatternView)>, MacroErrorView>(nodes),
    decreases nodes, 0int, nodes.len() - from,
{
    reveal(substitute::substituted_type_expr);
    reveal(substitute::substituted_pattern);
    if from < nodes.len() {
        assert(quiet_pattern_entry(nodes[from]));
        lemma_kept_pattern(nodes[from].0, environment);
        lemma_kept_pattern(nodes[from].1, environment);
        assert(substitute::substituted_pattern_pair(nodes[from], environment) == Ok::<(PatternView, PatternView), MacroErrorView>(nodes[from]));
        assert(done.push(nodes[from]) =~= nodes.take(from + 1));
        lemma_kept_pattern_entries(nodes, from + 1, done.push(nodes[from]), environment);
    } else {
        assert(done =~= nodes);
    }
}

#[verifier::rlimit(100)]
proof fn lemma_kept_expr(node: ExprView, environment: Map<Seq<char>, FragmentView>, call: Origin)
    requires
        quiet_expr(node),
    ensures
        substitute::substituted_expr(node, environment, call) == Ok::<ExprView, MacroErrorView>(node),
    decreases node, 1int, 0int,
{
    reveal_with_fuel(quiet_expr, 2);
    reveal(substitute::substituted_optional_type_expr);
    reveal_with_fuel(substitute::substituted_expr, 3);
    match node.value {
        ExprKindView::Call { callee: a0, arguments: a1 } => {
            lemma_kept_exprs(a1, 0, Seq::empty(), environment, call);
        }
        ExprKindView::Do(a0) => {
            lemma_kept_exprs(a0, 0, Seq::empty(), environment, call);
        }
        ExprKindView::Let { name: a0, ty: a1, value: a2 } => {
            match a1 { Some(x) => lemma_kept_type(x, environment), None => {} }
            lemma_kept_expr(*a2, environment, call);
        }
        ExprKindView::Assign { name: a0, value: a1 } => {
            lemma_kept_expr(*a1, environment, call);
        }
        ExprKindView::Return(a0) => {
            match a0 { Some(x) => lemma_kept_expr(*x, environment, call), None => {} }
        }
        ExprKindView::If { condition: a0, then_body: a1, else_body: a2 } => {
            lemma_kept_expr(*a0, environment, call);
            lemma_kept_exprs(a1, 0, Seq::empty(), environment, call);
            lemma_kept_exprs(a2, 0, Seq::empty(), environment, call);
        }
        ExprKindView::While { condition: a0, body: a1 } => {
            lemma_kept_expr(*a0, environment, call);
            lemma_kept_exprs(a1, 0, Seq::empty(), environment, call);
        }
        ExprKindView::For { binding: a0, source: a1, body: a2 } => {
            lemma_kept_expr(*a1, environment, call);
            lemma_kept_exprs(a2, 0, Seq::empty(), environment, call);
        }
        ExprKindView::Match { target: a0, cases: a1 } => {
            lemma_kept_expr(*a0, environment, call);
            lemma_kept_cases(a1, 0, Seq::empty(), environment, call);
        }
        ExprKindView::Record(a0) => {
            lemma_kept_fields(a0, 0, Seq::empty(), environment, call);
        }
        ExprKindView::Tuple(a0) => {
            lemma_kept_exprs(a0, 0, Seq::empty(), environment, call);
        }
        ExprKindView::Array(a0) => {
            lemma_kept_exprs(a0, 0, Seq::empty(), environment, call);
        }
        ExprKindView::Mapping(a0) => {
            lemma_kept_entries(a0, 0, Seq::empty(), environment, call);
        }
        ExprKindView::Mutable(a0) => {
            lemma_kept_expr(*a0, environment, call);
        }
        ExprKindView::ReferenceOf(a0) => {
            lemma_kept_expr(*a0, environment, call);
        }
        ExprKindView::Range(a0, a1, a2) => {
            lemma_kept_expr(*a0, environment, call);
            lemma_kept_expr(*a1, environment, call);
            lemma_kept_expr(*a2, environment, call);
        }
        ExprKindView::Convert { value: a0, into: a1, fallback: a2 } => {
            lemma_kept_expr(*a0, environment, call);
            lemma_kept_type(a1, environment);
        }
        ExprKindView::Cast { value: a0, into: a1 } => {
            lemma_kept_expr(*a0, environment, call);
            lemma_kept_type(a1, environment);
        }
        ExprKindView::Task { captures: a0, body: a1 } => {
            lemma_kept_exprs(a1, 0, Seq::empty(), environment, call);
        }
        ExprKindView::Spawn { handle: a0, captures: a1, value: a2 } => {
            lemma_kept_expr(*a2, environment, call);
        }
        _ => {}
    }
}

proof fn lemma_kept_exprs(nodes: Seq<ExprView>, from: int, done: Seq<ExprView>, environment: Map<Seq<char>, FragmentView>, call: Origin)
    requires
        quiet_exprs(nodes),
        0 <= from <= nodes.len(),
        done =~= nodes.take(from),
    ensures
        substitute::substituted_exprs(nodes, from, done, environment, call) == Ok::<Seq<ExprView>, MacroErrorView>(nodes),
    decreases nodes, 0int, nodes.len() - from,
{
    reveal(substitute::substituted_type_expr);
    reveal(substitute::substituted_pattern);
    if from < nodes.len() {
        assert(quiet_expr(nodes[from]));
        lemma_kept_expr(nodes[from], environment, call);
        assert(substitute::substituted_expr(nodes[from], environment, call) == Ok::<ExprView, MacroErrorView>(nodes[from]));
        assert(done.push(nodes[from]) =~= nodes.take(from + 1));
        lemma_kept_exprs(nodes, from + 1, done.push(nodes[from]), environment, call);
    } else {
        assert(done =~= nodes);
    }
}

proof fn lemma_kept_fields(nodes: Seq<ExprFieldView>, from: int, done: Seq<ExprFieldView>, environment: Map<Seq<char>, FragmentView>, call: Origin)
    requires
        quiet_fields(nodes),
        0 <= from <= nodes.len(),
        done =~= nodes.take(from),
    ensures
        substitute::substituted_expr_fields(nodes, from, done, environment, call) == Ok::<Seq<ExprFieldView>, MacroErrorView>(nodes),
    decreases nodes, 0int, nodes.len() - from,
{
    reveal(substitute::substituted_type_expr);
    reveal(substitute::substituted_pattern);
    if from < nodes.len() {
        assert(quiet_field(nodes[from]));
        lemma_kept_expr(nodes[from].value, environment, call);
        assert(substitute::substituted_expr_field(nodes[from], environment, call) == Ok::<ExprFieldView, MacroErrorView>(nodes[from]));
        assert(done.push(nodes[from]) =~= nodes.take(from + 1));
        lemma_kept_fields(nodes, from + 1, done.push(nodes[from]), environment, call);
    } else {
        assert(done =~= nodes);
    }
}

proof fn lemma_kept_entries(nodes: Seq<(ExprView, ExprView)>, from: int, done: Seq<(ExprView, ExprView)>, environment: Map<Seq<char>, FragmentView>, call: Origin)
    requires
        quiet_entries(nodes),
        0 <= from <= nodes.len(),
        done =~= nodes.take(from),
    ensures
        substitute::substituted_expr_pairs(nodes, from, done, environment, call) == Ok::<Seq<(ExprView, ExprView)>, MacroErrorView>(nodes),
    decreases nodes, 0int, nodes.len() - from,
{
    reveal(substitute::substituted_type_expr);
    reveal(substitute::substituted_pattern);
    if from < nodes.len() {
        assert(quiet_entry(nodes[from]));
        lemma_kept_expr(nodes[from].0, environment, call);
        lemma_kept_expr(nodes[from].1, environment, call);
        assert(substitute::substituted_expr_pair(nodes[from], environment, call) == Ok::<(ExprView, ExprView), MacroErrorView>(nodes[from]));
        assert(done.push(nodes[from]) =~= nodes.take(from + 1));
        lemma_kept_entries(nodes, from + 1, done.push(nodes[from]), environment, call);
    } else {
        assert(done =~= nodes);
    }
}

proof fn lemma_kept_cases(nodes: Seq<MatchCaseView>, from: int, done: Seq<MatchCaseView>, environment: Map<Seq<char>, FragmentView>, call: Origin)
    requires
        quiet_cases(nodes),
        0 <= from <= nodes.len(),
        done =~= nodes.take(from),
    ensures
        substitute::substituted_match_cases(nodes, from, done, environment, call) == Ok::<Seq<MatchCaseView>, MacroErrorView>(nodes),
    decreases nodes, 0int, nodes.len() - from,
{
    reveal(substitute::substituted_type_expr);
    reveal(substitute::substituted_pattern);
    if from < nodes.len() {
        assert(quiet_case(nodes[from]));
        lemma_kept_pattern(nodes[from].pattern, environment);
        lemma_kept_exprs(nodes[from].body, 0, Seq::empty(), environment, call);
        assert(substitute::substituted_match_case(nodes[from], environment, call) == Ok::<MatchCaseView, MacroErrorView>(nodes[from]));
        assert(done.push(nodes[from]) =~= nodes.take(from + 1));
        lemma_kept_cases(nodes, from + 1, done.push(nodes[from]), environment, call);
    } else {
        assert(done =~= nodes);
    }
}

/// Quoted syntax in which nothing is unquoted, captured or spliced is kept as it is
/// written, whatever is bound.
pub proof fn law_quotation_keeps_what_is_not_unquoted(
    node: ExprView,
    pattern: PatternView,
    ty: TypeExprView,
    environment: Map<Seq<char>, FragmentView>,
    call: Origin,
)
    requires
        quiet_expr(node),
        quiet_pattern(pattern),
        quiet_type(ty),
    ensures
        substitute::substituted_expr(node, environment, call) == Ok::<ExprView, MacroErrorView>(node),
        substitute::substituted_pattern(pattern, environment) == Ok::<PatternView, MacroErrorView>(pattern),
        substitute::substituted_type_expr(ty, environment) == Ok::<TypeExprView, MacroErrorView>(ty),
{
    lemma_kept_expr(node, environment, call);
    lemma_kept_pattern(pattern, environment);
    lemma_kept_type(ty, environment);
}

} // verus!
