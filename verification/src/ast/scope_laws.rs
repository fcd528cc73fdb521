//! What the check of lexical scopes lets pass: names are bound in their own scope, and a
//! visible one is never bound again.
use vstd::prelude::*;
use crate::ast::scope::{
    all_captured, bound, captured, checked, checked_branch, checked_case, checked_cases, checked_exprs,
    checked_fields, checked_pairs, checked_pattern, checked_pattern_fields, checked_pattern_pairs, checked_patterns,
    closed, in_scope, opened, visible, Scopes,
};
use crate::ast::surface::DocumentId;
use crate::ast::view::{
    ExprFieldView, ExprKindView, ExprView, MatchCaseView, NameView, PatternFieldView, PatternKindView, PatternView,
};

verus! {

/// Whether scopes are others with nothing but new names in the innermost one.
pub open spec fn only_adds(before: Scopes, after: Scopes) -> bool {
    &&& after.len() == before.len()
    &&& forall|i: int| 0 <= i < before.len() - 1 ==> after[i] == before[i]
    &&& before.len() > 0 ==> before.last().len() <= after.last().len() && after.last().take(before.last().len() as int)
        == before.last()
}

proof fn lemma_then(first: Scopes, second: Scopes, third: Scopes)
    requires
        only_adds(first, second),
        only_adds(second, third),
    ensures
        only_adds(first, third),
{
    if first.len() > 0 {
        assert(third.last().take(first.last().len() as int) =~= second.last().take(first.last().len() as int)) by {
            assert forall|i: int| 0 <= i < first.last().len() implies third.last()[i] == second.last()[i] by {
                assert(third.last().take(second.last().len() as int)[i] == second.last()[i]);
            }
        }
    }
}

proof fn lemma_same(scopes: Scopes)
    ensures
        only_adds(scopes, scopes),
{
    if scopes.len() > 0 {
        assert(scopes.last().take(scopes.last().len() as int) =~= scopes.last());
    }
}

proof fn lemma_bound(scopes: Scopes, name: NameView, document: DocumentId)
    ensures
        bound(scopes, name, document) matches Ok(after) ==> only_adds(scopes, after),
{
    lemma_same(scopes);
    if scopes.len() > 0 && bound(scopes, name, document) is Ok {
        let after = bound(scopes, name, document)->Ok_0;
        assert(after.last().take(scopes.last().len() as int) =~= scopes.last());
    }
}

proof fn lemma_captured(captures: Seq<NameView>, from: int, scopes: Scopes)
    ensures
        only_adds(scopes, all_captured(captures, from, scopes)),
    decreases captures.len() - from,
{
    lemma_same(scopes);
    if 0 <= from < captures.len() {
        let next = captured(scopes, captures[from]);
        if scopes.len() > 0 {
            assert(next.last().take(scopes.last().len() as int) =~= scopes.last());
        }
        assert(only_adds(scopes, next));
        lemma_captured(captures, from + 1, next);
        lemma_then(scopes, next, all_captured(captures, from + 1, next));
    }
}

/// A scope that is opened and closed leaves the others as they were.
proof fn lemma_closed(scopes: Scopes, inside: Scopes)
    requires
        only_adds(opened(scopes), inside),
    ensures
        inside.drop_last() == scopes,
        inside.len() > 0,
{
    assert forall|i: int| 0 <= i < scopes.len() implies inside.drop_last()[i] == scopes[i] by {
        assert(inside[i] == opened(scopes)[i]);
    }
    assert(inside.drop_last() =~= scopes);
}

proof fn lemma_checked_pattern(pattern: PatternView, document: DocumentId, scopes: Scopes)
    ensures
        checked_pattern(pattern, document, scopes) matches Ok(after) ==> only_adds(scopes, after),
    decreases pattern, 1int, 0int,
{
    lemma_same(scopes);
    match pattern.value {
        PatternKindView::Bind(a0) => lemma_bound(scopes, a0, document),
        PatternKindView::Constructor { constructor: a0, arguments: a1 } => {
            lemma_checked_patterns(a1, 0, document, scopes);
        }
        PatternKindView::Record(a0) => {
            lemma_checked_pattern_fields(a0, 0, document, scopes);
        }
        PatternKindView::Tuple(a0) => {
            lemma_checked_patterns(a0, 0, document, scopes);
        }
        PatternKindView::Array(a0) => {
            lemma_checked_patterns(a0, 0, document, scopes);
        }
        PatternKindView::Mapping(a0) => {
            lemma_checked_pattern_pairs(a0, 0, document, scopes);
        }
        PatternKindView::Newtype { ty: a0, pattern: a1 } => {
            lemma_checked_pattern(*a1, document, scopes);
        }
        PatternKindView::Interface { ty: a0, pattern: a1 } => {
            lemma_checked_pattern(*a1, document, scopes);
        }
        _ => {}
    }
}

proof fn lemma_checked_patterns(nodes: Seq<PatternView>, from: int, document: DocumentId, scopes: Scopes)
    ensures
        checked_patterns(nodes, from, document, scopes) matches Ok(after) ==> only_adds(scopes, after),
    decreases nodes, 0int, nodes.len() - from,
{
    lemma_same(scopes);
    if 0 <= from < nodes.len() {
        lemma_checked_pattern(nodes[from], document, scopes);
        let next1 = checked_pattern(nodes[from], document, scopes);
        if next1 is Ok && only_adds(scopes, scopes) && only_adds(scopes, next1->Ok_0) { lemma_then(scopes, scopes, next1->Ok_0); }
        if next1 is Ok {
            lemma_checked_patterns(nodes, from + 1, document, next1->Ok_0);
            let end = checked_patterns(nodes, from + 1, document, next1->Ok_0);
            if end is Ok && only_adds(scopes, next1->Ok_0) { lemma_then(scopes, next1->Ok_0, end->Ok_0); }
        }
    }
}

proof fn lemma_checked_pattern_fields(nodes: Seq<PatternFieldView>, from: int, document: DocumentId, scopes: Scopes)
    ensures
        checked_pattern_fields(nodes, from, document, scopes) matches Ok(after) ==> only_adds(scopes, after),
    decreases nodes, 0int, nodes.len() - from,
{
    lemma_same(scopes);
    if 0 <= from < nodes.len() {
        lemma_checked_pattern(nodes[from].pattern, document, scopes);
        let next1 = checked_pattern(nodes[from].pattern, document, scopes);
        if next1 is Ok && only_adds(scopes, scopes) && only_adds(scopes, next1->Ok_0) { lemma_then(scopes, scopes, next1->Ok_0); }
        if next1 is Ok {
            lemma_checked_pattern_fields(nodes, from + 1, document, next1->Ok_0);
            let end = checked_pattern_fields(nodes, from + 1, document, next1->Ok_0);
            if end is Ok && only_adds(scopes, next1->Ok_0) { lemma_then(scopes, next1->Ok_0, end->Ok_0); }
        }
    }
}

proof fn lemma_checked_pattern_pairs(nodes: Seq<(PatternView, PatternView)>, from: int, document: DocumentId, scopes: Scopes)
    ensures
        checked_pattern_pairs(nodes, from, document, scopes) matches Ok(after) ==> only_adds(scopes, after),
    decreases nodes, 0int, nodes.len() - from,
{
    lemma_same(scopes);
    if 0 <= from < nodes.len() {
        lemma_checked_pattern(nodes[from].0, document, scopes);
        let next1 = checked_pattern(nodes[from].0, document, scopes);
        if next1 is Ok && only_adds(scopes, scopes) && only_adds(scopes, next1->Ok_0) { lemma_then(scopes, scopes, next1->Ok_0); }
        lemma_checked_pattern(nodes[from].1, document, next1->Ok_0);
        let next2 = checked_pattern(nodes[from].1, document, next1->Ok_0);
        if next2 is Ok && only_adds(scopes, next1->Ok_0) && only_adds(next1->Ok_0, next2->Ok_0) { lemma_then(scopes, next1->Ok_0, next2->Ok_0); }
        if next2 is Ok {
            lemma_checked_pattern_pairs(nodes, from + 1, document, next2->Ok_0);
            let end = checked_pattern_pairs(nodes, from + 1, document, next2->Ok_0);
            if end is Ok && only_adds(scopes, next2->Ok_0) { lemma_then(scopes, next2->Ok_0, end->Ok_0); }
        }
    }
}

proof fn lemma_branch(body: Seq<ExprView>, document: DocumentId, scopes: Scopes)
    ensures
        checked_branch(body, document, scopes) matches Ok(after) ==> after == scopes,
    decreases body, 1int, 0int,
{
    lemma_checked_exprs(body, 0, document, opened(scopes));
    let inside = checked_exprs(body, 0, document, opened(scopes));
    if inside is Ok {
        lemma_closed(scopes, inside->Ok_0);
    }
}

proof fn lemma_checked_case(case: MatchCaseView, document: DocumentId, scopes: Scopes)
    ensures
        checked_case(case, document, scopes) matches Ok(after) ==> after == scopes && only_adds(scopes, after),
    decreases case, 1int, 0int,
{
    lemma_same(scopes);
    lemma_checked_pattern(case.pattern, document, opened(scopes));
    match checked_pattern(case.pattern, document, opened(scopes)) {
        Err(_) => {}
        Ok(next) => {
            lemma_checked_exprs(case.body, 0, document, next);
            match checked_exprs(case.body, 0, document, next) {
                Err(_) => {}
                Ok(inside) => {
                    lemma_then(opened(scopes), next, inside);
                    lemma_closed(scopes, inside);
                }
            }
        }
    }
}

#[verifier::rlimit(60)]
proof fn lemma_checked(expr: ExprView, document: DocumentId, scopes: Scopes)
    ensures
        checked(expr, document, scopes) matches Ok(after) ==> only_adds(scopes, after),
    decreases expr, 1int, 0int,
{
    lemma_same(scopes);
    reveal_with_fuel(checked, 2);
    match expr.value {
        ExprKindView::Call { callee: a0, arguments: a1 } => {
            lemma_checked_exprs(a1, 0, document, scopes);
            let next1 = checked_exprs(a1, 0, document, scopes);
            if next1 is Ok && only_adds(scopes, scopes) && only_adds(scopes, next1->Ok_0) { lemma_then(scopes, scopes, next1->Ok_0); }
        }
        ExprKindView::Do(a0) => {
            lemma_checked_exprs(a0, 0, document, scopes);
            let next1 = checked_exprs(a0, 0, document, scopes);
            if next1 is Ok && only_adds(scopes, scopes) && only_adds(scopes, next1->Ok_0) { lemma_then(scopes, scopes, next1->Ok_0); }
        }
        ExprKindView::Let { name: a0, ty: a1, value: a2 } => {
            lemma_checked(*a2, document, scopes);
            if checked(*a2, document, scopes) is Ok {
                let next = checked(*a2, document, scopes)->Ok_0;
                lemma_bound(next, a0, document);
                if bound(next, a0, document) is Ok {
                    lemma_then(scopes, next, bound(next, a0, document)->Ok_0);
                }
            }
        }
        ExprKindView::Assign { name: a0, value: a1 } => {
            lemma_checked(*a1, document, scopes);
            let next1 = checked(*a1, document, scopes);
            if next1 is Ok && only_adds(scopes, scopes) && only_adds(scopes, next1->Ok_0) { lemma_then(scopes, scopes, next1->Ok_0); }
        }
        ExprKindView::Return(a0) => {
            match a0 { Some(x) => lemma_checked(*x, document, scopes), None => {} }
        }
        ExprKindView::If { condition: a0, then_body: a1, else_body: a2 } => {
            lemma_checked(*a0, document, scopes);
            if checked(*a0, document, scopes) is Ok {
                let next = checked(*a0, document, scopes)->Ok_0;
                lemma_branch(a1, document, next);
                lemma_branch(a2, document, next);
            }
        }
        ExprKindView::While { condition: a0, body: a1 } => {
            lemma_checked(*a0, document, scopes);
            if checked(*a0, document, scopes) is Ok {
                lemma_branch(a1, document, checked(*a0, document, scopes)->Ok_0);
            }
        }
        ExprKindView::For { binding: a0, source: a1, body: a2 } => {
            lemma_checked(*a1, document, scopes);
            if checked(*a1, document, scopes) is Ok {
                let next = checked(*a1, document, scopes)->Ok_0;
                lemma_bound(opened(next), a0, document);
                if bound(opened(next), a0, document) is Ok {
                    let inner = bound(opened(next), a0, document)->Ok_0;
                    lemma_checked_exprs(a2, 0, document, inner);
                    if checked_exprs(a2, 0, document, inner) is Ok {
                        let inside = checked_exprs(a2, 0, document, inner)->Ok_0;
                        lemma_then(opened(next), inner, inside);
                        lemma_closed(next, inside);
                    }
                }
            }
        }
        ExprKindView::Match { target: a0, cases: a1 } => {
            lemma_checked(*a0, document, scopes);
            let next1 = checked(*a0, document, scopes);
            if next1 is Ok && only_adds(scopes, scopes) && only_adds(scopes, next1->Ok_0) { lemma_then(scopes, scopes, next1->Ok_0); }
            lemma_checked_cases(a1, 0, document, next1->Ok_0);
            let next2 = checked_cases(a1, 0, document, next1->Ok_0);
            if next2 is Ok && only_adds(scopes, next1->Ok_0) && only_adds(next1->Ok_0, next2->Ok_0) { lemma_then(scopes, next1->Ok_0, next2->Ok_0); }
        }
        ExprKindView::Record(a0) => {
            lemma_checked_fields(a0, 0, document, scopes);
            let next1 = checked_fields(a0, 0, document, scopes);
            if next1 is Ok && only_adds(scopes, scopes) && only_adds(scopes, next1->Ok_0) { lemma_then(scopes, scopes, next1->Ok_0); }
        }
        ExprKindView::Tuple(a0) => {
            lemma_checked_exprs(a0, 0, document, scopes);
            let next1 = checked_exprs(a0, 0, document, scopes);
            if next1 is Ok && only_adds(scopes, scopes) && only_adds(scopes, next1->Ok_0) { lemma_then(scopes, scopes, next1->Ok_0); }
        }
        ExprKindView::Array(a0) => {
            lemma_checked_exprs(a0, 0, document, scopes);
            let next1 = checked_exprs(a0, 0, document, scopes);
            if next1 is Ok && only_adds(scopes, scopes) && only_adds(scopes, next1->Ok_0) { lemma_then(scopes, scopes, next1->Ok_0); }
        }
        ExprKindView::Mapping(a0) => {
            lemma_checked_pairs(a0, 0, document, scopes);
            let next1 = checked_pairs(a0, 0, document, scopes);
            if next1 is Ok && only_adds(scopes, scopes) && only_adds(scopes, next1->Ok_0) { lemma_then(scopes, scopes, next1->Ok_0); }
        }
        ExprKindView::Mutable(a0) => {
            lemma_checked(*a0, document, scopes);
            let next1 = checked(*a0, document, scopes);
            if next1 is Ok && only_adds(scopes, scopes) && only_adds(scopes, next1->Ok_0) { lemma_then(scopes, scopes, next1->Ok_0); }
        }
        ExprKindView::ReferenceOf(a0) => {
            lemma_checked(*a0, document, scopes);
            let next1 = checked(*a0, document, scopes);
            if next1 is Ok && only_adds(scopes, scopes) && only_adds(scopes, next1->Ok_0) { lemma_then(scopes, scopes, next1->Ok_0); }
        }
        ExprKindView::Range(a0, a1, a2) => {
            lemma_checked(*a0, document, scopes);
            let next1 = checked(*a0, document, scopes);
            if next1 is Ok && only_adds(scopes, scopes) && only_adds(scopes, next1->Ok_0) { lemma_then(scopes, scopes, next1->Ok_0); }
            lemma_checked(*a1, document, next1->Ok_0);
            let next2 = checked(*a1, document, next1->Ok_0);
            if next2 is Ok && only_adds(scopes, next1->Ok_0) && only_adds(next1->Ok_0, next2->Ok_0) { lemma_then(scopes, next1->Ok_0, next2->Ok_0); }
            lemma_checked(*a2, document, next2->Ok_0);
            let next3 = checked(*a2, document, next2->Ok_0);
            if next3 is Ok && only_adds(scopes, next2->Ok_0) && only_adds(next2->Ok_0, next3->Ok_0) { lemma_then(scopes, next2->Ok_0, next3->Ok_0); }
        }
        ExprKindView::Convert { value: a0, into: a1, fallback: a2 } => {
            lemma_checked(*a0, document, scopes);
            let next1 = checked(*a0, document, scopes);
            if next1 is Ok && only_adds(scopes, scopes) && only_adds(scopes, next1->Ok_0) { lemma_then(scopes, scopes, next1->Ok_0); }
        }
        ExprKindView::Cast { value: a0, into: a1 } => {
            lemma_checked(*a0, document, scopes);
            let next1 = checked(*a0, document, scopes);
            if next1 is Ok && only_adds(scopes, scopes) && only_adds(scopes, next1->Ok_0) { lemma_then(scopes, scopes, next1->Ok_0); }
        }
        ExprKindView::Task { captures: a0, body: a1 } => {
            let inner = all_captured(a0, 0, opened(scopes));
            lemma_captured(a0, 0, opened(scopes));
            lemma_checked_exprs(a1, 0, document, inner);
            if checked_exprs(a1, 0, document, inner) is Ok {
                let inside = checked_exprs(a1, 0, document, inner)->Ok_0;
                lemma_then(opened(scopes), inner, inside);
                lemma_closed(scopes, inside);
            }
        }
        ExprKindView::Spawn { handle: a0, captures: a1, value: a2 } => {
            let inner = all_captured(a1, 0, opened(scopes));
            lemma_captured(a1, 0, opened(scopes));
            lemma_checked(*a2, document, inner);
            if checked(*a2, document, inner) is Ok {
                let inside = checked(*a2, document, inner)->Ok_0;
                lemma_then(opened(scopes), inner, inside);
                lemma_closed(scopes, inside);
            }
        }
        _ => {}
    }
}

proof fn lemma_checked_exprs(nodes: Seq<ExprView>, from: int, document: DocumentId, scopes: Scopes)
    ensures
        checked_exprs(nodes, from, document, scopes) matches Ok(after) ==> only_adds(scopes, after),
    decreases nodes, 0int, nodes.len() - from,
{
    lemma_same(scopes);
    if 0 <= from < nodes.len() {
        lemma_checked(nodes[from], document, scopes);
        let next1 = checked(nodes[from], document, scopes);
        if next1 is Ok && only_adds(scopes, scopes) && only_adds(scopes, next1->Ok_0) { lemma_then(scopes, scopes, next1->Ok_0); }
        if next1 is Ok {
            lemma_checked_exprs(nodes, from + 1, document, next1->Ok_0);
            let end = checked_exprs(nodes, from + 1, document, next1->Ok_0);
            if end is Ok && only_adds(scopes, next1->Ok_0) { lemma_then(scopes, next1->Ok_0, end->Ok_0); }
        }
    }
}

proof fn lemma_checked_fields(nodes: Seq<ExprFieldView>, from: int, document: DocumentId, scopes: Scopes)
    ensures
        checked_fields(nodes, from, document, scopes) matches Ok(after) ==> only_adds(scopes, after),
    decreases nodes, 0int, nodes.len() - from,
{
    lemma_same(scopes);
    if 0 <= from < nodes.len() {
        lemma_checked(nodes[from].value, document, scopes);
        let next1 = checked(nodes[from].value, document, scopes);
        if next1 is Ok && only_adds(scopes, scopes) && only_adds(scopes, next1->Ok_0) { lemma_then(scopes, scopes, next1->Ok_0); }
        if next1 is Ok {
            lemma_checked_fields(nodes, from + 1, document, next1->Ok_0);
            let end = checked_fields(nodes, from + 1, document, next1->Ok_0);
            if end is Ok && only_adds(scopes, next1->Ok_0) { lemma_then(scopes, next1->Ok_0, end->Ok_0); }
        }
    }
}

proof fn lemma_checked_pairs(nodes: Seq<(ExprView, ExprView)>, from: int, document: DocumentId, scopes: Scopes)
    ensures
        checked_pairs(nodes, from, document, scopes) matches Ok(after) ==> only_adds(scopes, after),
    decreases nodes, 0int, nodes.len() - from,
{
    lemma_same(scopes);
    if 0 <= from < nodes.len() {
        lemma_checked(nodes[from].0, document, scopes);
        let next1 = checked(nodes[from].0, document, scopes);
        if next1 is Ok && only_adds(scopes, scopes) && only_adds(scopes, next1->Ok_0) { lemma_then(scopes, scopes, next1->Ok_0); }
        lemma_checked(nodes[from].1, document, next1->Ok_0);
        let next2 = checked(nodes[from].1, document, next1->Ok_0);
        if next2 is Ok && only_adds(scopes, next1->Ok_0) && only_adds(next1->Ok_0, next2->Ok_0) { lemma_then(scopes, next1->Ok_0, next2->Ok_0); }
        if next2 is Ok {
            lemma_checked_pairs(nodes, from + 1, document, next2->Ok_0);
            let end = checked_pairs(nodes, from + 1, document, next2->Ok_0);
            if end is Ok && only_adds(scopes, next2->Ok_0) { lemma_then(scopes, next2->Ok_0, end->Ok_0); }
        }
    }
}

proof fn lemma_checked_cases(nodes: Seq<MatchCaseView>, from: int, document: DocumentId, scopes: Scopes)
    ensures
        checked_cases(nodes, from, document, scopes) matches Ok(after) ==> only_adds(scopes, after),
    decreases nodes, 0int, nodes.len() - from,
{
    lemma_same(scopes);
    if 0 <= from < nodes.len() {
        lemma_checked_case(nodes[from], document, scopes);
        let next1 = checked_case(nodes[from], document, scopes);
        if next1 is Ok && only_adds(scopes, scopes) && only_adds(scopes, next1->Ok_0) { lemma_then(scopes, scopes, next1->Ok_0); }
        if next1 is Ok {
            lemma_checked_cases(nodes, from + 1, document, next1->Ok_0);
            let end = checked_cases(nodes, from + 1, document, next1->Ok_0);
            if end is Ok && only_adds(scopes, next1->Ok_0) { lemma_then(scopes, next1->Ok_0, end->Ok_0); }
        }
    }
}

// Laws.

/// What is bound in a branch, a loop or a case is not visible behind it: each of them
/// leaves the scopes as it found them.
pub proof fn law_branches_leave_no_binding(body: Seq<ExprView>, case: MatchCaseView, document: DocumentId, scopes: Scopes)
    ensures
        checked_branch(body, document, scopes) matches Ok(after) ==> after == scopes,
        checked_case(case, document, scopes) matches Ok(after) ==> after == scopes,
{
    lemma_branch(body, document, scopes);
    lemma_checked_case(case, document, scopes);
}

/// An `if` passes where its condition and, behind it, both of its branches do, each by
/// itself; a `while` where its condition and its body do.
pub proof fn law_both_branches_are_checked(expr: ExprView, document: DocumentId, scopes: Scopes)
    ensures
        expr.value matches ExprKindView::If { condition, then_body, else_body } ==> (match checked(
            *condition,
            document,
            scopes,
        ) {
            Err(_) => checked(expr, document, scopes) is Err,
            Ok(next) => checked(expr, document, scopes) is Ok == (checked_branch(then_body, document, next) is Ok
                && checked_branch(else_body, document, next) is Ok) && (checked(expr, document, scopes) matches Ok(after)
                ==> after == next),
        }),
        expr.value matches ExprKindView::While { condition, body } ==> (match checked(*condition, document, scopes) {
            Err(_) => checked(expr, document, scopes) is Err,
            Ok(next) => checked(expr, document, scopes) is Ok == (checked_branch(body, document, next) is Ok) && (checked(
                expr,
                document,
                scopes,
            ) matches Ok(after) ==> after == next),
        }),
{
    match expr.value {
        ExprKindView::If { condition, then_body, else_body } => {
            if checked(*condition, document, scopes) is Ok {
                let next = checked(*condition, document, scopes)->Ok_0;
                lemma_branch(then_body, document, next);
                lemma_branch(else_body, document, next);
            }
        }
        ExprKindView::While { condition, body } => {
            if checked(*condition, document, scopes) is Ok {
                lemma_branch(body, document, checked(*condition, document, scopes)->Ok_0);
            }
        }
        _ => {}
    }
}

proof fn lemma_still_in_scope(
    before: Seq<(Seq<char>, crate::ast::surface::SourceLocation)>,
    after: Seq<(Seq<char>, crate::ast::surface::SourceLocation)>,
    from: int,
    name: Seq<char>,
)
    requires
        before.len() <= after.len(),
        after.take(before.len() as int) == before,
        0 <= from,
        in_scope(before, from, name) is Some,
    ensures
        in_scope(after, from, name) is Some,
    decreases before.len() - from,
{
    if from < before.len() {
        assert(after.take(before.len() as int)[from] == before[from]);
        if before[from].0 != name {
            lemma_still_in_scope(before, after, from + 1, name);
        }
    }
}

proof fn lemma_same_scopes(left: Scopes, right: Scopes, count: int, name: Seq<char>)
    requires
        0 <= count <= left.len(),
        count <= right.len(),
        forall|i: int| 0 <= i < count ==> left[i] == right[i],
    ensures
        visible(left, count, name) == visible(right, count, name),
    decreases count,
{
    if count > 0 {
        lemma_same_scopes(left, right, count - 1, name);
    }
}

proof fn lemma_still_visible(before: Scopes, after: Scopes, name: Seq<char>)
    requires
        only_adds(before, after),
        visible(before, before.len() as int, name) is Some,
    ensures
        visible(after, after.len() as int, name) is Some,
{
    let count = before.len() as int;
    assert(before[count - 1] == before.last() && after[count - 1] == after.last());
    if in_scope(before.last(), 0, name) is Some {
        lemma_still_in_scope(before.last(), after.last(), 0, name);
    } else {
        lemma_same_scopes(before, after, count - 1, name);
    }
}

/// A visible name is not bound again: neither by a `let`, nor by a loop, nor by a
/// pattern.
pub proof fn law_visible_names_are_not_bound_again(
    expr: ExprView,
    pattern: PatternView,
    name: NameView,
    document: DocumentId,
    scopes: Scopes,
)
    requires
        name.value != "_"@,
        visible(scopes, scopes.len() as int, name.value) is Some,
    ensures
        expr.value matches ExprKindView::Let { name: binding, .. } && binding == name ==> checked(expr, document, scopes)
            is Err,
        expr.value matches ExprKindView::For { binding, .. } && binding == name ==> checked(expr, document, scopes)
            is Err,
        pattern.value == PatternKindView::Bind(name) ==> checked_pattern(pattern, document, scopes) is Err,
{
    match expr.value {
        ExprKindView::Let { value, .. } => {
            lemma_checked(*value, document, scopes);
            if checked(*value, document, scopes) is Ok {
                lemma_still_visible(scopes, checked(*value, document, scopes)->Ok_0, name.value);
            }
        }
        ExprKindView::For { source, .. } => {
            lemma_checked(*source, document, scopes);
            if checked(*source, document, scopes) is Ok {
                let next = checked(*source, document, scopes)->Ok_0;
                lemma_still_visible(scopes, next, name.value);
                lemma_same_scopes(next, opened(next), next.len() as int, name.value);
                assert(opened(next)[next.len() as int] =~= Seq::empty());
                assert(in_scope(opened(next)[next.len() as int], 0, name.value) is None);
            }
        }
        _ => {}
    }
}

} // verus!
