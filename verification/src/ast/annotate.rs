//! Provenance of generated syntax: every node that a macro definition owns is
//! marked with the call that produced it.
use vstd::prelude::*;
use std::sync::Arc;
use crate::ast::copy;
use crate::ast::expansion_state::{generated, ExpansionState};
use crate::ast::macro_error::{MacroErrorView, MacroExpansionError};
use crate::ast::surface::{
    stable_hash, AstId, DocumentId, Expr, ExprField, ExprKind, Macro, MatchCase, Name, Origin, Pattern, PatternField,
    PatternKind, SourceLocation, Spanned, TypeExpr, TypeExprKind, TypeMember,
};
use crate::ast::view::{
    self, ExprFieldView, ExprKindView, ExprView, MatchCaseView, NameView, PatternFieldView, PatternKindView,
    PatternView,
    TypeExprKindView, TypeExprView, TypeMemberView,
};
use crate::ast::surface;
use crate::syntax::Span;

verus! {

/// The identity of the `ordinal`-th generated node of a call.
pub open spec fn expansion_id(
    call_document: DocumentId,
    call_span: Span,
    definition_document: DocumentId,
    definition_span: Span,
    ordinal: u64,
) -> u64 {
    surface::fnv(
        surface::le_bytes(call_document.id()) + surface::le_bytes(call_span.start as u64) + surface::le_bytes(
            call_span.end as u64,
        ) + surface::le_bytes(definition_document.id()) + surface::le_bytes(definition_span.start as u64) + surface::le_bytes(
            definition_span.end as u64,
        ) + surface::le_bytes(ordinal),
    )
}

fn stable_expansion_id(
    call_document: DocumentId,
    call_span: Span,
    definition_document: DocumentId,
    definition_span: Span,
    ordinal: u64,
) -> (id: u64)
    ensures
        id == expansion_id(call_document, call_span, definition_document, definition_span, ordinal),
{
    let mut bytes = vstd::bytes::u64_to_le_bytes(call_document.raw());
    let mut start = vstd::bytes::u64_to_le_bytes(call_span.start as u64);
    let mut end = vstd::bytes::u64_to_le_bytes(call_span.end as u64);
    let mut document = vstd::bytes::u64_to_le_bytes(definition_document.raw());
    let mut definition_start = vstd::bytes::u64_to_le_bytes(definition_span.start as u64);
    let mut definition_end = vstd::bytes::u64_to_le_bytes(definition_span.end as u64);
    let mut position = vstd::bytes::u64_to_le_bytes(ordinal);
    bytes.append(&mut start);
    bytes.append(&mut end);
    bytes.append(&mut document);
    bytes.append(&mut definition_start);
    bytes.append(&mut definition_end);
    bytes.append(&mut position);
    stable_hash(bytes.as_slice())
}

/// The origin of a node that `call` generated from the node at `parent`.
pub open spec fn expanded_origin(call: Origin, definition: Origin, parent: Origin, ordinal: u64) -> Origin {
    match (call.document(), definition.document()) {
        (Some(call_document), Some(definition_document)) => Origin::DocumentExpansion {
            ast_id: AstId::of_raw(
                expansion_id(call_document, call.primary(), definition_document, definition.primary(), ordinal),
            ),
            call_site: SourceLocation { document: call_document, span: call.primary() },
            definition: SourceLocation { document: definition_document, span: definition.primary() },
            parent: Arc::new(parent),
        },
        _ => Origin::Expansion { call_site: call.primary(), definition: definition.primary(), parent: Arc::new(parent) },
    }
}

fn expansion_origin(call: &Origin, definition: &Origin, parent: Origin, ordinal: u64) -> (origin: Origin)
    ensures
        origin == expanded_origin(*call, *definition, parent, ordinal),
{
    match (call.document_id(), definition.document_id()) {
        (Some(call_document), Some(definition_document)) => Origin::DocumentExpansion {
            ast_id: AstId::from_raw(
                stable_expansion_id(
                    call_document,
                    call.primary_span(),
                    definition_document,
                    definition.primary_span(),
                    ordinal,
                ),
            ),
            call_site: SourceLocation { document: call_document, span: call.primary_span() },
            definition: SourceLocation { document: definition_document, span: definition.primary_span() },
            parent: Arc::new(parent),
        },
        _ => Origin::Expansion {
            call_site: call.primary_span(),
            definition: definition.primary_span(),
            parent: Arc::new(parent),
        },
    }
}

/// Whether the definition at `span` owns a node with this origin.
pub open spec fn owned_by(origin: Origin, span: Span, definition: Origin) -> bool {
    origin.document() == definition.document() && span.encloses(origin.primary())
}

/// The origin after annotation: a node of the definition is counted and marked.
#[verifier::opaque]
pub open spec fn annotated_origin(
    origin: Origin,
    span: Span,
    definition: Origin,
    call: Origin,
    state: ExpansionState,
) -> Result<(Origin, ExpansionState), MacroErrorView> {
    if owned_by(origin, span, definition) {
        match state.grown(call) {
            Err(error) => Err(error),
            Ok(state) => Ok(
                (expanded_origin(call, definition, origin, state.generated_nodes as u64), state),
            ),
        }
    } else {
        Ok((origin, state))
    }
}

fn same_document(left: Option<DocumentId>, right: Option<DocumentId>) -> (same: bool)
    ensures
        same == (left == right),
{
    match (left, right) {
        (Some(left), Some(right)) => left == right,
        (None, None) => true,
        _ => false,
    }
}

fn annotate_origin(
    origin: &Origin,
    definition: &Macro,
    call: &Origin,
    state: &mut ExpansionState,
) -> (result: Result<Origin, MacroExpansionError>)
    ensures
        match result {
            Ok(value) => annotated_origin(*origin, definition.span, definition.origin, *call, *old(state)) == Ok::<
            (Origin, ExpansionState),
            MacroErrorView,
            >((value, *final(state))),
            Err(error) => annotated_origin(*origin, definition.span, definition.origin, *call, *old(state)) == Err::<
            (Origin, ExpansionState),
            MacroErrorView,
            >(error@),
        },
{
    reveal(annotated_origin);
    let span = origin.primary_span();
    if same_document(origin.document_id(), definition.origin.document_id()) && definition.span.start <= span.start
    && span.end <= definition.span.end {
        let ordinal = match generated(state, call) {
            Ok(value) => value,
            Err(error) => return Err(error),
        };
        Ok(expansion_origin(call, &definition.origin, origin.copy(), ordinal))
    } else {
        Ok(origin.copy())
    }
}

#[verifier::opaque]
pub open spec fn annotated_name(
    node: NameView,
    span: Span,
    definition: Origin,
    call: Origin,
    state: ExpansionState,
) -> Result<(NameView, ExpansionState), MacroErrorView> {
    match annotated_origin(node.origin, span, definition, call, state) {
        Err(error) => Err(error),
        Ok((origin, state)) => Ok((Spanned { value: node.value, span: node.span, origin }, state)),
    }
}

fn annotate_name(
    node: &Name,
    definition: &Macro,
    call: &Origin,
    state: &mut ExpansionState,
) -> (result: Result<Name, MacroExpansionError>)
    ensures
        match result {
            Ok(value) => annotated_name(
                view::name(*node),
                definition.span,
                definition.origin,
                *call,
                *old(state),
            ) == Ok::<
            (NameView, ExpansionState),
            MacroErrorView,
            >((view::name(value), *final(state))),
            Err(error) => annotated_name(
                view::name(*node),
                definition.span,
                definition.origin,
                *call,
                *old(state),
            ) == Err::<
            (NameView, ExpansionState),
            MacroErrorView,
            >(error@),
        },
{
    reveal(annotated_name);
    let origin = match annotate_origin(&node.origin, definition, call, state) {
        Ok(value) => value,
        Err(error) => return Err(error),
    };
    Ok(Spanned { value: node.value.clone(), span: node.span, origin })
}

#[verifier::opaque]
pub open spec fn annotated_names(
    nodes: Seq<NameView>,
    from: int,
    done: Seq<NameView>,
    span: Span,
    definition: Origin,
    call: Origin,
    state: ExpansionState,
) -> Result<(Seq<NameView>, ExpansionState), MacroErrorView>
    decreases nodes, nodes.len() - from,
{
    if from < 0 || from >= nodes.len() {
        Ok((done, state))
    } else {
        match annotated_name(nodes[from], span, definition, call, state) {
            Err(error) => Err(error),
            Ok((value, state)) => annotated_names(nodes, from + 1, done.push(value), span, definition, call, state),
        }
    }
}

fn annotate_names(
    nodes: &Vec<Name>,
    definition: &Macro,
    call: &Origin,
    state: &mut ExpansionState,
) -> (result: Result<Vec<Name>, MacroExpansionError>)
    ensures
        match result {
            Ok(value) => annotated_names(
                view::names(nodes@),
                0,
                Seq::empty(),
                definition.span,
                definition.origin,
                *call,
                *old(state),
            ) == Ok::<(Seq<NameView>, ExpansionState), MacroErrorView>((view::names(value@), *final(state))),
            Err(error) => annotated_names(
                view::names(nodes@),
                0,
                Seq::empty(),
                definition.span,
                definition.origin,
                *call,
                *old(state),
            ) == Err::<(Seq<NameView>, ExpansionState), MacroErrorView>(error@),
        },
    decreases nodes,
{
    reveal(annotated_names);
    let ghost start = *state;
    let ghost all = view::names(nodes@);
    let mut done: Vec<Name> = Vec::new();
    let mut i: usize = 0;
    assert(view::names(done@) =~= Seq::<NameView>::empty());
    while i < nodes.len()
        invariant
            i <= nodes.len(),
            all == view::names(nodes@),
            start == *old(state),
            annotated_names(all, 0, Seq::empty(), definition.span, definition.origin, *call, start)
                == annotated_names(
                all,
                i as int,
                view::names(done@),
                definition.span,
                definition.origin,
                *call,
                *state,
            ),
        decreases nodes.len() - i,
    {
        let ghost before = done@;
        reveal(annotated_names);
        assert(all[i as int] == view::name(nodes@[i as int]));
        let value = match annotate_name(&nodes[i], definition, call, state) {
            Ok(value) => value,
            Err(error) => return Err(error),
        };
        done.push(value);
        proof {
            view::lemma_names_push(before, done@.last());
        }
        i += 1;
    }
    Ok(done)
}

/// The type with every node of the definition marked, in source order.
#[verifier::opaque]
pub open spec fn annotated_type_expr(
    node: TypeExprView,
    span: Span,
    definition: Origin,
    call: Origin,
    state: ExpansionState,
) -> Result<(TypeExprView, ExpansionState), MacroErrorView>
    decreases node, 0int,
{
    match annotated_origin(node.origin, span, definition, call, state) {
        Err(error) => Err(error),
        Ok((origin, state)) => match match node.value {
            TypeExprKindView::Named(value) => Ok((TypeExprKindView::Named(value), state)),
            TypeExprKindView::Application { constructor, arguments } => match annotated_name(constructor, span, definition, call, state) {
                Err(error) => Err(error),
                Ok((constructor, state)) => match annotated_type_exprs(arguments, 0, Seq::empty(), span, definition, call, state) {
                    Err(error) => Err(error),
                    Ok((arguments, state)) => Ok((TypeExprKindView::Application { constructor, arguments }, state)),
                },
            },
            TypeExprKindView::Record(values) => match annotated_type_members(values, 0, Seq::empty(), span, definition, call, state) {
                Err(error) => Err(error),
                Ok((values, state)) => Ok((TypeExprKindView::Record(values), state)),
            },
            TypeExprKindView::Tuple(values) => match annotated_type_exprs(values, 0, Seq::empty(), span, definition, call, state) {
                Err(error) => Err(error),
                Ok((values, state)) => Ok((TypeExprKindView::Tuple(values), state)),
            },
            TypeExprKindView::Array(value) => match annotated_type_expr(*value, span, definition, call, state) {
                Err(error) => Err(error),
                Ok((value, state)) => {
                    let value = Box::new(value);
                    Ok((TypeExprKindView::Array(value), state))
                },
            },
            TypeExprKindView::Mapping(first, second) => match annotated_type_expr(*first, span, definition, call, state) {
                Err(error) => Err(error),
                Ok((first, state)) => {
                    let first = Box::new(first);
                    match annotated_type_expr(*second, span, definition, call, state) {
                        Err(error) => Err(error),
                        Ok((second, state)) => {
                            let second = Box::new(second);
                            Ok((TypeExprKindView::Mapping(first, second), state))
                        },
                    }
                },
            },
            TypeExprKindView::Union(values) => match annotated_type_exprs(values, 0, Seq::empty(), span, definition, call, state) {
                Err(error) => Err(error),
                Ok((values, state)) => Ok((TypeExprKindView::Union(values), state)),
            },
            TypeExprKindView::Enum(values) => match annotated_type_members(values, 0, Seq::empty(), span, definition, call, state) {
                Err(error) => Err(error),
                Ok((values, state)) => Ok((TypeExprKindView::Enum(values), state)),
            },
            TypeExprKindView::Interface(values) => match annotated_type_members(values, 0, Seq::empty(), span, definition, call, state) {
                Err(error) => Err(error),
                Ok((values, state)) => Ok((TypeExprKindView::Interface(values), state)),
            },
            TypeExprKindView::Function { parameters, result } => match annotated_type_exprs(parameters, 0, Seq::empty(), span, definition, call, state) {
                Err(error) => Err(error),
                Ok((parameters, state)) => match annotated_type_expr(*result, span, definition, call, state) {
                    Err(error) => Err(error),
                    Ok((result, state)) => {
                        let result = Box::new(result);
                        Ok((TypeExprKindView::Function { parameters, result }, state))
                    },
                },
            },
            TypeExprKindView::Newtype(value) => match annotated_type_expr(*value, span, definition, call, state) {
                Err(error) => Err(error),
                Ok((value, state)) => {
                    let value = Box::new(value);
                    Ok((TypeExprKindView::Newtype(value), state))
                },
            },
            TypeExprKindView::Mutable(value) => match annotated_type_expr(*value, span, definition, call, state) {
                Err(error) => Err(error),
                Ok((value, state)) => {
                    let value = Box::new(value);
                    Ok((TypeExprKindView::Mutable(value), state))
                },
            },
            TypeExprKindView::Reference(value) => match annotated_type_expr(*value, span, definition, call, state) {
                Err(error) => Err(error),
                Ok((value, state)) => {
                    let value = Box::new(value);
                    Ok((TypeExprKindView::Reference(value), state))
                },
            },
            TypeExprKindView::MutableReference(value) => match annotated_type_expr(*value, span, definition, call, state) {
                Err(error) => Err(error),
                Ok((value, state)) => {
                    let value = Box::new(value);
                    Ok((TypeExprKindView::MutableReference(value), state))
                },
            },
            TypeExprKindView::Intersect(values) => match annotated_type_exprs(values, 0, Seq::empty(), span, definition, call, state) {
                Err(error) => Err(error),
                Ok((values, state)) => Ok((TypeExprKindView::Intersect(values), state)),
            },
            TypeExprKindView::Domain { head, arguments } => match annotated_name(head, span, definition, call, state) {
                Err(error) => Err(error),
                Ok((head, state)) => match annotated_type_exprs(arguments, 0, Seq::empty(), span, definition, call, state) {
                    Err(error) => Err(error),
                    Ok((arguments, state)) => Ok((TypeExprKindView::Domain { head, arguments }, state)),
                },
            },
        } {
            Err(error) => Err(error),
            Ok((value, state)) => Ok((Spanned { value, span: node.span, origin: origin }, state)),
        },
    }
}

pub(crate) fn annotate_type_expr(
    node: &TypeExpr,
    definition: &Macro,
    call: &Origin,
    state: &mut ExpansionState,
) -> (result: Result<TypeExpr, MacroExpansionError>)
    ensures
        match result {
            Ok(value) => annotated_type_expr(
                view::type_expr(*node),
                definition.span,
                definition.origin,
                *call,
                *old(state),
            ) == Ok::<(TypeExprView, ExpansionState), MacroErrorView>((view::type_expr(value), *final(state))),
            Err(error) => annotated_type_expr(
                view::type_expr(*node),
                definition.span,
                definition.origin,
                *call,
                *old(state),
            ) == Err::<(TypeExprView, ExpansionState), MacroErrorView>(error@),
        },
    decreases node,
{
    reveal(annotated_type_expr);
    reveal(view::type_kind);
    let origin = match annotate_origin(&node.origin, definition, call, state) {
        Ok(value) => value,
        Err(error) => return Err(error),
    };
    let value = match &node.value {
        TypeExprKind::Named(value) => Ok(TypeExprKind::Named(value.clone())),
        TypeExprKind::Application { constructor, arguments } => match annotate_name(constructor, definition, call, state) {
            Err(error) => Err(error),
            Ok(constructor) => match annotate_type_exprs(arguments, definition, call, state) {
                Err(error) => Err(error),
                Ok(arguments) => Ok(TypeExprKind::Application { constructor, arguments }),
            },
        },
        TypeExprKind::Record(values) => match annotate_type_members(values, definition, call, state) {
            Err(error) => Err(error),
            Ok(values) => Ok(TypeExprKind::Record(values)),
        },
        TypeExprKind::Tuple(values) => match annotate_type_exprs(values, definition, call, state) {
            Err(error) => Err(error),
            Ok(values) => Ok(TypeExprKind::Tuple(values)),
        },
        TypeExprKind::Array(value) => match annotate_type_expr(value, definition, call, state) {
            Err(error) => Err(error),
            Ok(value) => Ok(TypeExprKind::Array(Box::new(value))),
        },
        TypeExprKind::Mapping(first, second) => match annotate_type_expr(first, definition, call, state) {
            Err(error) => Err(error),
            Ok(first) => match annotate_type_expr(second, definition, call, state) {
                Err(error) => Err(error),
                Ok(second) => Ok(TypeExprKind::Mapping(Box::new(first), Box::new(second))),
            },
        },
        TypeExprKind::Union(values) => match annotate_type_exprs(values, definition, call, state) {
            Err(error) => Err(error),
            Ok(values) => Ok(TypeExprKind::Union(values)),
        },
        TypeExprKind::Enum(values) => match annotate_type_members(values, definition, call, state) {
            Err(error) => Err(error),
            Ok(values) => Ok(TypeExprKind::Enum(values)),
        },
        TypeExprKind::Interface(values) => match annotate_type_members(values, definition, call, state) {
            Err(error) => Err(error),
            Ok(values) => Ok(TypeExprKind::Interface(values)),
        },
        TypeExprKind::Function { parameters, result } => match annotate_type_exprs(parameters, definition, call, state) {
            Err(error) => Err(error),
            Ok(parameters) => match annotate_type_expr(result, definition, call, state) {
                Err(error) => Err(error),
                Ok(result) => Ok(TypeExprKind::Function { parameters, result: Box::new(result) }),
            },
        },
        TypeExprKind::Newtype(value) => match annotate_type_expr(value, definition, call, state) {
            Err(error) => Err(error),
            Ok(value) => Ok(TypeExprKind::Newtype(Box::new(value))),
        },
        TypeExprKind::Mutable(value) => match annotate_type_expr(value, definition, call, state) {
            Err(error) => Err(error),
            Ok(value) => Ok(TypeExprKind::Mutable(Box::new(value))),
        },
        TypeExprKind::Reference(value) => match annotate_type_expr(value, definition, call, state) {
            Err(error) => Err(error),
            Ok(value) => Ok(TypeExprKind::Reference(Box::new(value))),
        },
        TypeExprKind::MutableReference(value) => match annotate_type_expr(value, definition, call, state) {
            Err(error) => Err(error),
            Ok(value) => Ok(TypeExprKind::MutableReference(Box::new(value))),
        },
        TypeExprKind::Intersect(values) => match annotate_type_exprs(values, definition, call, state) {
            Err(error) => Err(error),
            Ok(values) => Ok(TypeExprKind::Intersect(values)),
        },
        TypeExprKind::Domain { head, arguments } => match annotate_name(head, definition, call, state) {
            Err(error) => Err(error),
            Ok(head) => match annotate_type_exprs(arguments, definition, call, state) {
                Err(error) => Err(error),
                Ok(arguments) => Ok(TypeExprKind::Domain { head, arguments }),
            },
        },
    };
    match value {
        Err(error) => Err(error),
        Ok(value) => Ok(Spanned { value, span: node.span, origin: origin }),
    }
}

#[verifier::opaque]
pub open spec fn annotated_optional_type_expr(
    node: Option<TypeExprView>,
    span: Span,
    definition: Origin,
    call: Origin,
    state: ExpansionState,
) -> Result<(Option<TypeExprView>, ExpansionState), MacroErrorView>
    decreases node, 0int,
{
    match node {
        None => Ok((None, state)),
        Some(inner) => match annotated_type_expr(inner, span, definition, call, state) {
            Err(error) => Err(error),
            Ok((inner, state)) => Ok((Some(inner), state)),
        },
    }
}

fn annotate_optional_type_expr(
    node: &Option<TypeExpr>,
    definition: &Macro,
    call: &Origin,
    state: &mut ExpansionState,
) -> (result: Result<Option<TypeExpr>, MacroExpansionError>)
    ensures
        match result {
            Ok(value) => annotated_optional_type_expr(match *node {
                    None => None,
                    Some(inner) => Some(view::type_expr(inner)),
                }, definition.span, definition.origin, *call, *old(state)) == Ok::<(Option<TypeExprView>, ExpansionState), MacroErrorView>((match value { None => None, Some(inner) => Some(view::type_expr(inner)) }, *final(state))),
            Err(error) => annotated_optional_type_expr(match *node {
                    None => None,
                    Some(inner) => Some(view::type_expr(inner)),
                }, definition.span, definition.origin, *call, *old(state)) == Err::<(Option<TypeExprView>, ExpansionState), MacroErrorView>(error@),
        },
    decreases node,
{
    reveal(annotated_optional_type_expr);
    match node {
        None => Ok(None),
        Some(inner) => {
            let inner = match annotate_type_expr(inner, definition, call, state) {
                Ok(value) => value,
                Err(error) => return Err(error),
            };
            Ok(Some(inner))
        }
    }
}

pub open spec fn annotated_type_exprs(
    nodes: Seq<TypeExprView>,
    from: int,
    done: Seq<TypeExprView>,
    span: Span,
    definition: Origin,
    call: Origin,
    state: ExpansionState,
) -> Result<(Seq<TypeExprView>, ExpansionState), MacroErrorView>
    decreases nodes, nodes.len() - from,
{
    if from < 0 || from >= nodes.len() {
        Ok((done, state))
    } else {
        match annotated_type_expr(nodes[from], span, definition, call, state) {
            Err(error) => Err(error),
            Ok((value, state)) => annotated_type_exprs(
                nodes,
                from + 1,
                done.push(value),
                span,
                definition,
                call,
                state,
            ),
        }
    }
}

fn annotate_type_exprs(
    nodes: &Vec<TypeExpr>,
    definition: &Macro,
    call: &Origin,
    state: &mut ExpansionState,
) -> (result: Result<Vec<TypeExpr>, MacroExpansionError>)
    ensures
        match result {
            Ok(value) => annotated_type_exprs(
                view::type_exprs(nodes@),
                0,
                Seq::empty(),
                definition.span,
                definition.origin,
                *call,
                *old(state),
            ) == Ok::<(Seq<TypeExprView>, ExpansionState), MacroErrorView>((view::type_exprs(value@), *final(state))),
            Err(error) => annotated_type_exprs(
                view::type_exprs(nodes@),
                0,
                Seq::empty(),
                definition.span,
                definition.origin,
                *call,
                *old(state),
            ) == Err::<(Seq<TypeExprView>, ExpansionState), MacroErrorView>(error@),
        },
    decreases nodes,
{
    reveal(annotated_type_expr);
    let ghost start = *state;
    let ghost all = view::type_exprs(nodes@);
    let mut done: Vec<TypeExpr> = Vec::new();
    let mut i: usize = 0;
    assert(view::type_exprs(done@) =~= Seq::<TypeExprView>::empty());
    while i < nodes.len()
        invariant
            i <= nodes.len(),
            all == view::type_exprs(nodes@),
            start == *old(state),
            annotated_type_exprs(all, 0, Seq::empty(), definition.span, definition.origin, *call, start)
                == annotated_type_exprs(
                all,
                i as int,
                view::type_exprs(done@),
                definition.span,
                definition.origin,
                *call,
                *state,
            ),
        decreases nodes.len() - i,
    {
        let ghost before = done@;
        reveal(annotated_type_expr);
        assert(all[i as int] == view::type_expr(nodes@[i as int]));
        let value = match annotate_type_expr(&nodes[i], definition, call, state) {
            Ok(value) => value,
            Err(error) => return Err(error),
        };
        done.push(value);
        proof {
            view::lemma_type_exprs_push(before, done@.last());
        }
        i += 1;
    }
    Ok(done)
}

pub open spec fn annotated_type_member(
    node: TypeMemberView,
    span: Span,
    definition: Origin,
    call: Origin,
    state: ExpansionState,
) -> Result<(TypeMemberView, ExpansionState), MacroErrorView>
    decreases node, 0int,
{
    match annotated_name(node.name, span, definition, call, state) {
        Err(error) => Err(error),
        Ok((name, state)) => match annotated_type_expr(node.ty, span, definition, call, state) {
            Err(error) => Err(error),
            Ok((ty, state)) => Ok((TypeMemberView { name, ty, span: node.span }, state)),
        },
    }
}

fn annotate_type_member(
    node: &TypeMember,
    definition: &Macro,
    call: &Origin,
    state: &mut ExpansionState,
) -> (result: Result<TypeMember, MacroExpansionError>)
    ensures
        match result {
            Ok(value) => annotated_type_member(
                view::type_member(*node),
                definition.span,
                definition.origin,
                *call,
                *old(state),
            ) == Ok::<(TypeMemberView, ExpansionState), MacroErrorView>((view::type_member(value), *final(state))),
            Err(error) => annotated_type_member(
                view::type_member(*node),
                definition.span,
                definition.origin,
                *call,
                *old(state),
            ) == Err::<(TypeMemberView, ExpansionState), MacroErrorView>(error@),
        },
    decreases node,
{
    reveal(annotated_type_expr);
    let name = match annotate_name(&node.name, definition, call, state) {
        Ok(value) => value,
        Err(error) => return Err(error),
    };
    let ty = match annotate_type_expr(&node.ty, definition, call, state) {
        Ok(value) => value,
        Err(error) => return Err(error),
    };
    Ok(TypeMember { name, ty, span: node.span })
}

pub open spec fn annotated_type_members(
    nodes: Seq<TypeMemberView>,
    from: int,
    done: Seq<TypeMemberView>,
    span: Span,
    definition: Origin,
    call: Origin,
    state: ExpansionState,
) -> Result<(Seq<TypeMemberView>, ExpansionState), MacroErrorView>
    decreases nodes, nodes.len() - from,
{
    if from < 0 || from >= nodes.len() {
        Ok((done, state))
    } else {
        match annotated_type_member(nodes[from], span, definition, call, state) {
            Err(error) => Err(error),
            Ok((value, state)) => annotated_type_members(
                nodes,
                from + 1,
                done.push(value),
                span,
                definition,
                call,
                state,
            ),
        }
    }
}

fn annotate_type_members(
    nodes: &Vec<TypeMember>,
    definition: &Macro,
    call: &Origin,
    state: &mut ExpansionState,
) -> (result: Result<Vec<TypeMember>, MacroExpansionError>)
    ensures
        match result {
            Ok(value) => annotated_type_members(
                view::type_members(nodes@),
                0,
                Seq::empty(),
                definition.span,
                definition.origin,
                *call,
                *old(state),
            ) == Ok::<(Seq<TypeMemberView>, ExpansionState), MacroErrorView>((view::type_members(value@), *final(state))),
            Err(error) => annotated_type_members(
                view::type_members(nodes@),
                0,
                Seq::empty(),
                definition.span,
                definition.origin,
                *call,
                *old(state),
            ) == Err::<(Seq<TypeMemberView>, ExpansionState), MacroErrorView>(error@),
        },
    decreases nodes,
{
    reveal(annotated_type_expr);
    let ghost start = *state;
    let ghost all = view::type_members(nodes@);
    let mut done: Vec<TypeMember> = Vec::new();
    let mut i: usize = 0;
    assert(view::type_members(done@) =~= Seq::<TypeMemberView>::empty());
    while i < nodes.len()
        invariant
            i <= nodes.len(),
            all == view::type_members(nodes@),
            start == *old(state),
            annotated_type_members(all, 0, Seq::empty(), definition.span, definition.origin, *call, start)
                == annotated_type_members(
                all,
                i as int,
                view::type_members(done@),
                definition.span,
                definition.origin,
                *call,
                *state,
            ),
        decreases nodes.len() - i,
    {
        let ghost before = done@;
        reveal(annotated_type_expr);
        assert(all[i as int] == view::type_member(nodes@[i as int]));
        let value = match annotate_type_member(&nodes[i], definition, call, state) {
            Ok(value) => value,
            Err(error) => return Err(error),
        };
        done.push(value);
        proof {
            view::lemma_type_members_push(before, done@.last());
        }
        i += 1;
    }
    Ok(done)
}

/// The pattern with every node of the definition marked, in source order.
#[verifier::opaque]
pub open spec fn annotated_pattern(
    node: PatternView,
    span: Span,
    definition: Origin,
    call: Origin,
    state: ExpansionState,
) -> Result<(PatternView, ExpansionState), MacroErrorView>
    decreases node, 0int,
{
    match annotated_origin(node.origin, span, definition, call, state) {
        Err(error) => Err(error),
        Ok((origin, state)) => match match node.value {
            PatternKindView::Literal(value) => Ok((PatternKindView::Literal(value), state)),
            PatternKindView::Wildcard => Ok((PatternKindView::Wildcard, state)),
            PatternKindView::Bind(value) => match annotated_name(value, span, definition, call, state) {
                Err(error) => Err(error),
                Ok((value, state)) => Ok((PatternKindView::Bind(value), state)),
            },
            PatternKindView::Constructor { constructor, arguments } => match annotated_name(constructor, span, definition, call, state) {
                Err(error) => Err(error),
                Ok((constructor, state)) => match annotated_patterns(arguments, 0, Seq::empty(), span, definition, call, state) {
                    Err(error) => Err(error),
                    Ok((arguments, state)) => Ok((PatternKindView::Constructor { constructor, arguments }, state)),
                },
            },
            PatternKindView::Record(values) => match annotated_pattern_fields(values, 0, Seq::empty(), span, definition, call, state) {
                Err(error) => Err(error),
                Ok((values, state)) => Ok((PatternKindView::Record(values), state)),
            },
            PatternKindView::Tuple(values) => match annotated_patterns(values, 0, Seq::empty(), span, definition, call, state) {
                Err(error) => Err(error),
                Ok((values, state)) => Ok((PatternKindView::Tuple(values), state)),
            },
            PatternKindView::Array(values) => match annotated_patterns(values, 0, Seq::empty(), span, definition, call, state) {
                Err(error) => Err(error),
                Ok((values, state)) => Ok((PatternKindView::Array(values), state)),
            },
            PatternKindView::Mapping(values) => match annotated_pattern_pairs(values, 0, Seq::empty(), span, definition, call, state) {
                Err(error) => Err(error),
                Ok((values, state)) => Ok((PatternKindView::Mapping(values), state)),
            },
            PatternKindView::Newtype { ty, pattern } => match annotated_type_expr(ty, span, definition, call, state) {
                Err(error) => Err(error),
                Ok((ty, state)) => match annotated_pattern(*pattern, span, definition, call, state) {
                    Err(error) => Err(error),
                    Ok((pattern, state)) => {
                        let pattern = Box::new(pattern);
                        Ok((PatternKindView::Newtype { ty, pattern }, state))
                    },
                },
            },
            PatternKindView::Interface { ty, pattern } => match annotated_type_expr(ty, span, definition, call, state) {
                Err(error) => Err(error),
                Ok((ty, state)) => match annotated_pattern(*pattern, span, definition, call, state) {
                    Err(error) => Err(error),
                    Ok((pattern, state)) => {
                        let pattern = Box::new(pattern);
                        Ok((PatternKindView::Interface { ty, pattern }, state))
                    },
                },
            },
        } {
            Err(error) => Err(error),
            Ok((value, state)) => Ok((Spanned { value, span: node.span, origin: origin }, state)),
        },
    }
}

pub(crate) fn annotate_pattern(
    node: &Pattern,
    definition: &Macro,
    call: &Origin,
    state: &mut ExpansionState,
) -> (result: Result<Pattern, MacroExpansionError>)
    ensures
        match result {
            Ok(value) => annotated_pattern(
                view::pattern(*node),
                definition.span,
                definition.origin,
                *call,
                *old(state),
            ) == Ok::<(PatternView, ExpansionState), MacroErrorView>((view::pattern(value), *final(state))),
            Err(error) => annotated_pattern(
                view::pattern(*node),
                definition.span,
                definition.origin,
                *call,
                *old(state),
            ) == Err::<(PatternView, ExpansionState), MacroErrorView>(error@),
        },
    decreases node,
{
    reveal(annotated_pattern);
    reveal(view::pattern_kind);
    let origin = match annotate_origin(&node.origin, definition, call, state) {
        Ok(value) => value,
        Err(error) => return Err(error),
    };
    let value = match &node.value {
        PatternKind::Literal(value) => Ok(PatternKind::Literal(copy::literal(value))),
        PatternKind::Wildcard => Ok(PatternKind::Wildcard),
        PatternKind::Bind(value) => match annotate_name(value, definition, call, state) {
            Err(error) => Err(error),
            Ok(value) => Ok(PatternKind::Bind(value)),
        },
        PatternKind::Constructor { constructor, arguments } => match annotate_name(constructor, definition, call, state) {
            Err(error) => Err(error),
            Ok(constructor) => match annotate_patterns(arguments, definition, call, state) {
                Err(error) => Err(error),
                Ok(arguments) => Ok(PatternKind::Constructor { constructor, arguments }),
            },
        },
        PatternKind::Record(values) => match annotate_pattern_fields(values, definition, call, state) {
            Err(error) => Err(error),
            Ok(values) => Ok(PatternKind::Record(values)),
        },
        PatternKind::Tuple(values) => match annotate_patterns(values, definition, call, state) {
            Err(error) => Err(error),
            Ok(values) => Ok(PatternKind::Tuple(values)),
        },
        PatternKind::Array(values) => match annotate_patterns(values, definition, call, state) {
            Err(error) => Err(error),
            Ok(values) => Ok(PatternKind::Array(values)),
        },
        PatternKind::Mapping(values) => match annotate_pattern_pairs(values, definition, call, state) {
            Err(error) => Err(error),
            Ok(values) => Ok(PatternKind::Mapping(values)),
        },
        PatternKind::Newtype { ty, pattern } => match annotate_type_expr(ty, definition, call, state) {
            Err(error) => Err(error),
            Ok(ty) => match annotate_pattern(pattern, definition, call, state) {
                Err(error) => Err(error),
                Ok(pattern) => Ok(PatternKind::Newtype { ty, pattern: Box::new(pattern) }),
            },
        },
        PatternKind::Interface { ty, pattern } => match annotate_type_expr(ty, definition, call, state) {
            Err(error) => Err(error),
            Ok(ty) => match annotate_pattern(pattern, definition, call, state) {
                Err(error) => Err(error),
                Ok(pattern) => Ok(PatternKind::Interface { ty, pattern: Box::new(pattern) }),
            },
        },
    };
    match value {
        Err(error) => Err(error),
        Ok(value) => Ok(Spanned { value, span: node.span, origin: origin }),
    }
}

pub open spec fn annotated_patterns(
    nodes: Seq<PatternView>,
    from: int,
    done: Seq<PatternView>,
    span: Span,
    definition: Origin,
    call: Origin,
    state: ExpansionState,
) -> Result<(Seq<PatternView>, ExpansionState), MacroErrorView>
    decreases nodes, nodes.len() - from,
{
    if from < 0 || from >= nodes.len() {
        Ok((done, state))
    } else {
        match annotated_pattern(nodes[from], span, definition, call, state) {
            Err(error) => Err(error),
            Ok((value, state)) => annotated_patterns(nodes, from + 1, done.push(value), span, definition, call, state),
        }
    }
}

fn annotate_patterns(
    nodes: &Vec<Pattern>,
    definition: &Macro,
    call: &Origin,
    state: &mut ExpansionState,
) -> (result: Result<Vec<Pattern>, MacroExpansionError>)
    ensures
        match result {
            Ok(value) => annotated_patterns(
                view::patterns(nodes@),
                0,
                Seq::empty(),
                definition.span,
                definition.origin,
                *call,
                *old(state),
            ) == Ok::<(Seq<PatternView>, ExpansionState), MacroErrorView>((view::patterns(value@), *final(state))),
            Err(error) => annotated_patterns(
                view::patterns(nodes@),
                0,
                Seq::empty(),
                definition.span,
                definition.origin,
                *call,
                *old(state),
            ) == Err::<(Seq<PatternView>, ExpansionState), MacroErrorView>(error@),
        },
    decreases nodes,
{
    reveal(annotated_pattern);
    let ghost start = *state;
    let ghost all = view::patterns(nodes@);
    let mut done: Vec<Pattern> = Vec::new();
    let mut i: usize = 0;
    assert(view::patterns(done@) =~= Seq::<PatternView>::empty());
    while i < nodes.len()
        invariant
            i <= nodes.len(),
            all == view::patterns(nodes@),
            start == *old(state),
            annotated_patterns(all, 0, Seq::empty(), definition.span, definition.origin, *call, start)
                == annotated_patterns(
                all,
                i as int,
                view::patterns(done@),
                definition.span,
                definition.origin,
                *call,
                *state,
            ),
        decreases nodes.len() - i,
    {
        let ghost before = done@;
        reveal(annotated_pattern);
        assert(all[i as int] == view::pattern(nodes@[i as int]));
        let value = match annotate_pattern(&nodes[i], definition, call, state) {
            Ok(value) => value,
            Err(error) => return Err(error),
        };
        done.push(value);
        proof {
            view::lemma_patterns_push(before, done@.last());
        }
        i += 1;
    }
    Ok(done)
}

pub open spec fn annotated_pattern_field(
    node: PatternFieldView,
    span: Span,
    definition: Origin,
    call: Origin,
    state: ExpansionState,
) -> Result<(PatternFieldView, ExpansionState), MacroErrorView>
    decreases node, 0int,
{
    match annotated_name(node.name, span, definition, call, state) {
        Err(error) => Err(error),
        Ok((name, state)) => match annotated_pattern(node.pattern, span, definition, call, state) {
            Err(error) => Err(error),
            Ok((pattern, state)) => Ok((PatternFieldView { name, pattern, span: node.span }, state)),
        },
    }
}

fn annotate_pattern_field(
    node: &PatternField,
    definition: &Macro,
    call: &Origin,
    state: &mut ExpansionState,
) -> (result: Result<PatternField, MacroExpansionError>)
    ensures
        match result {
            Ok(value) => annotated_pattern_field(
                view::pattern_field(*node),
                definition.span,
                definition.origin,
                *call,
                *old(state),
            ) == Ok::<(PatternFieldView, ExpansionState), MacroErrorView>((view::pattern_field(value), *final(state))),
            Err(error) => annotated_pattern_field(
                view::pattern_field(*node),
                definition.span,
                definition.origin,
                *call,
                *old(state),
            ) == Err::<(PatternFieldView, ExpansionState), MacroErrorView>(error@),
        },
    decreases node,
{
    reveal(annotated_pattern);
    let name = match annotate_name(&node.name, definition, call, state) {
        Ok(value) => value,
        Err(error) => return Err(error),
    };
    let pattern = match annotate_pattern(&node.pattern, definition, call, state) {
        Ok(value) => value,
        Err(error) => return Err(error),
    };
    Ok(PatternField { name, pattern, span: node.span })
}

pub open spec fn annotated_pattern_fields(
    nodes: Seq<PatternFieldView>,
    from: int,
    done: Seq<PatternFieldView>,
    span: Span,
    definition: Origin,
    call: Origin,
    state: ExpansionState,
) -> Result<(Seq<PatternFieldView>, ExpansionState), MacroErrorView>
    decreases nodes, nodes.len() - from,
{
    if from < 0 || from >= nodes.len() {
        Ok((done, state))
    } else {
        match annotated_pattern_field(nodes[from], span, definition, call, state) {
            Err(error) => Err(error),
            Ok((value, state)) => annotated_pattern_fields(
                nodes,
                from + 1,
                done.push(value),
                span,
                definition,
                call,
                state,
            ),
        }
    }
}

fn annotate_pattern_fields(
    nodes: &Vec<PatternField>,
    definition: &Macro,
    call: &Origin,
    state: &mut ExpansionState,
) -> (result: Result<Vec<PatternField>, MacroExpansionError>)
    ensures
        match result {
            Ok(value) => annotated_pattern_fields(
                view::pattern_fields(nodes@),
                0,
                Seq::empty(),
                definition.span,
                definition.origin,
                *call,
                *old(state),
            ) == Ok::<(Seq<PatternFieldView>, ExpansionState), MacroErrorView>((view::pattern_fields(value@), *final(state))),
            Err(error) => annotated_pattern_fields(
                view::pattern_fields(nodes@),
                0,
                Seq::empty(),
                definition.span,
                definition.origin,
                *call,
                *old(state),
            ) == Err::<(Seq<PatternFieldView>, ExpansionState), MacroErrorView>(error@),
        },
    decreases nodes,
{
    reveal(annotated_pattern);
    let ghost start = *state;
    let ghost all = view::pattern_fields(nodes@);
    let mut done: Vec<PatternField> = Vec::new();
    let mut i: usize = 0;
    assert(view::pattern_fields(done@) =~= Seq::<PatternFieldView>::empty());
    while i < nodes.len()
        invariant
            i <= nodes.len(),
            all == view::pattern_fields(nodes@),
            start == *old(state),
            annotated_pattern_fields(all, 0, Seq::empty(), definition.span, definition.origin, *call, start)
                == annotated_pattern_fields(
                all,
                i as int,
                view::pattern_fields(done@),
                definition.span,
                definition.origin,
                *call,
                *state,
            ),
        decreases nodes.len() - i,
    {
        let ghost before = done@;
        reveal(annotated_pattern);
        assert(all[i as int] == view::pattern_field(nodes@[i as int]));
        let value = match annotate_pattern_field(&nodes[i], definition, call, state) {
            Ok(value) => value,
            Err(error) => return Err(error),
        };
        done.push(value);
        proof {
            view::lemma_pattern_fields_push(before, done@.last());
        }
        i += 1;
    }
    Ok(done)
}

pub open spec fn annotated_pattern_pair(
    node: (PatternView, PatternView),
    span: Span,
    definition: Origin,
    call: Origin,
    state: ExpansionState,
) -> Result<((PatternView, PatternView), ExpansionState), MacroErrorView>
    decreases node, 0int,
{
    match annotated_pattern(node.0, span, definition, call, state) {
        Err(error) => Err(error),
        Ok((key, state)) => match annotated_pattern(node.1, span, definition, call, state) {
            Err(error) => Err(error),
            Ok((value, state)) => Ok(((key, value), state)),
        },
    }
}

fn annotate_pattern_pair(
    node: &(Pattern, Pattern),
    definition: &Macro,
    call: &Origin,
    state: &mut ExpansionState,
) -> (result: Result<(Pattern, Pattern), MacroExpansionError>)
    ensures
        match result {
            Ok(value) => annotated_pattern_pair(
                (view::pattern(node.0), view::pattern(node.1)),
                definition.span,
                definition.origin,
                *call,
                *old(state),
            ) == Ok::<((PatternView, PatternView), ExpansionState), MacroErrorView>(((view::pattern(value.0), view::pattern(value.1)), *final(state))),
            Err(error) => annotated_pattern_pair(
                (view::pattern(node.0), view::pattern(node.1)),
                definition.span,
                definition.origin,
                *call,
                *old(state),
            ) == Err::<((PatternView, PatternView), ExpansionState), MacroErrorView>(error@),
        },
    decreases node,
{
    reveal(annotated_pattern);
    let key = match annotate_pattern(&node.0, definition, call, state) {
        Ok(value) => value,
        Err(error) => return Err(error),
    };
    let value = match annotate_pattern(&node.1, definition, call, state) {
        Ok(value) => value,
        Err(error) => return Err(error),
    };
    Ok((key, value))
}

pub open spec fn annotated_pattern_pairs(
    nodes: Seq<(PatternView, PatternView)>,
    from: int,
    done: Seq<(PatternView, PatternView)>,
    span: Span,
    definition: Origin,
    call: Origin,
    state: ExpansionState,
) -> Result<(Seq<(PatternView, PatternView)>, ExpansionState), MacroErrorView>
    decreases nodes, nodes.len() - from,
{
    if from < 0 || from >= nodes.len() {
        Ok((done, state))
    } else {
        match annotated_pattern_pair(nodes[from], span, definition, call, state) {
            Err(error) => Err(error),
            Ok((value, state)) => annotated_pattern_pairs(
                nodes,
                from + 1,
                done.push(value),
                span,
                definition,
                call,
                state,
            ),
        }
    }
}

fn annotate_pattern_pairs(
    nodes: &Vec<(Pattern, Pattern)>,
    definition: &Macro,
    call: &Origin,
    state: &mut ExpansionState,
) -> (result: Result<Vec<(Pattern, Pattern)>, MacroExpansionError>)
    ensures
        match result {
            Ok(value) => annotated_pattern_pairs(
                view::pattern_pairs(nodes@),
                0,
                Seq::empty(),
                definition.span,
                definition.origin,
                *call,
                *old(state),
            ) == Ok::<(Seq<(PatternView, PatternView)>, ExpansionState), MacroErrorView>((view::pattern_pairs(value@), *final(state))),
            Err(error) => annotated_pattern_pairs(
                view::pattern_pairs(nodes@),
                0,
                Seq::empty(),
                definition.span,
                definition.origin,
                *call,
                *old(state),
            ) == Err::<(Seq<(PatternView, PatternView)>, ExpansionState), MacroErrorView>(error@),
        },
    decreases nodes,
{
    reveal(annotated_pattern);
    let ghost start = *state;
    let ghost all = view::pattern_pairs(nodes@);
    let mut done: Vec<(Pattern, Pattern)> = Vec::new();
    let mut i: usize = 0;
    assert(view::pattern_pairs(done@) =~= Seq::<(PatternView, PatternView)>::empty());
    while i < nodes.len()
        invariant
            i <= nodes.len(),
            all == view::pattern_pairs(nodes@),
            start == *old(state),
            annotated_pattern_pairs(all, 0, Seq::empty(), definition.span, definition.origin, *call, start)
                == annotated_pattern_pairs(
                all,
                i as int,
                view::pattern_pairs(done@),
                definition.span,
                definition.origin,
                *call,
                *state,
            ),
        decreases nodes.len() - i,
    {
        let ghost before = done@;
        reveal(annotated_pattern);
        assert(all[i as int] == (view::pattern(nodes@[i as int].0), view::pattern(nodes@[i as int].1)));
        let value = match annotate_pattern_pair(&nodes[i], definition, call, state) {
            Ok(value) => value,
            Err(error) => return Err(error),
        };
        done.push(value);
        proof {
            view::lemma_pattern_pairs_push(before, done@.last());
        }
        i += 1;
    }
    Ok(done)
}

/// Bindings, sequences and control flow.
pub open spec fn annotated_control(
    value: ExprKindView,
    span: Span,
    definition: Origin,
    call: Origin,
    state: ExpansionState,
) -> Result<(ExprKindView, ExpansionState), MacroErrorView>
    decreases value, 0int,
{
    match value {
        ExprKindView::Do(values) => match annotated_exprs(values, 0, Seq::empty(), span, definition, call, state) {
            Err(error) => Err(error),
            Ok((values, state)) => Ok((ExprKindView::Do(values), state)),
        },
        ExprKindView::Let { name, ty, value } => match annotated_name(name, span, definition, call, state) {
            Err(error) => Err(error),
            Ok((name, state)) => match annotated_optional_type_expr(ty, span, definition, call, state) {
                Err(error) => Err(error),
                Ok((ty, state)) => match annotated_expr(*value, span, definition, call, state) {
                    Err(error) => Err(error),
                    Ok((value, state)) => {
                        let value = Box::new(value);
                        Ok((ExprKindView::Let { name, ty, value }, state))
                    },
                },
            },
        },
        ExprKindView::Assign { name, value } => match annotated_name(name, span, definition, call, state) {
            Err(error) => Err(error),
            Ok((name, state)) => match annotated_expr(*value, span, definition, call, state) {
                Err(error) => Err(error),
                Ok((value, state)) => {
                    let value = Box::new(value);
                    Ok((ExprKindView::Assign { name, value }, state))
                },
            },
        },
        ExprKindView::Return(value) => match annotated_optional_expr(value, span, definition, call, state) {
            Err(error) => Err(error),
            Ok((value, state)) => Ok((ExprKindView::Return(value), state)),
        },
        ExprKindView::If { condition, then_body, else_body } => match annotated_expr(*condition, span, definition, call, state) {
            Err(error) => Err(error),
            Ok((condition, state)) => {
                let condition = Box::new(condition);
                match annotated_exprs(then_body, 0, Seq::empty(), span, definition, call, state) {
                    Err(error) => Err(error),
                    Ok((then_body, state)) => match annotated_exprs(else_body, 0, Seq::empty(), span, definition, call, state) {
                        Err(error) => Err(error),
                        Ok((else_body, state)) => Ok((ExprKindView::If { condition, then_body, else_body }, state)),
                    },
                }
            },
        },
        ExprKindView::While { condition, body } => match annotated_expr(*condition, span, definition, call, state) {
            Err(error) => Err(error),
            Ok((condition, state)) => {
                let condition = Box::new(condition);
                match annotated_exprs(body, 0, Seq::empty(), span, definition, call, state) {
                    Err(error) => Err(error),
                    Ok((body, state)) => Ok((ExprKindView::While { condition, body }, state)),
                }
            },
        },
        ExprKindView::For { binding, source, body } => match annotated_name(binding, span, definition, call, state) {
            Err(error) => Err(error),
            Ok((binding, state)) => match annotated_expr(*source, span, definition, call, state) {
                Err(error) => Err(error),
                Ok((source, state)) => {
                    let source = Box::new(source);
                    match annotated_exprs(body, 0, Seq::empty(), span, definition, call, state) {
                        Err(error) => Err(error),
                        Ok((body, state)) => Ok((ExprKindView::For { binding, source, body }, state)),
                    }
                },
            },
        },
        ExprKindView::Match { target, cases } => match annotated_expr(*target, span, definition, call, state) {
            Err(error) => Err(error),
            Ok((target, state)) => {
                let target = Box::new(target);
                match annotated_match_cases(cases, 0, Seq::empty(), span, definition, call, state) {
                    Err(error) => Err(error),
                    Ok((cases, state)) => Ok((ExprKindView::Match { target, cases }, state)),
                }
            },
        },
        ExprKindView::Break => Ok((ExprKindView::Break, state)),
        ExprKindView::Continue => Ok((ExprKindView::Continue, state)),
        _ => Ok((value, state)),
    }
}

/// Data construction and conversion.
pub open spec fn annotated_data(
    value: ExprKindView,
    span: Span,
    definition: Origin,
    call: Origin,
    state: ExpansionState,
) -> Result<(ExprKindView, ExpansionState), MacroErrorView>
    decreases value, 0int,
{
    match value {
        ExprKindView::Record(values) => match annotated_expr_fields(values, 0, Seq::empty(), span, definition, call, state) {
            Err(error) => Err(error),
            Ok((values, state)) => Ok((ExprKindView::Record(values), state)),
        },
        ExprKindView::Tuple(values) => match annotated_exprs(values, 0, Seq::empty(), span, definition, call, state) {
            Err(error) => Err(error),
            Ok((values, state)) => Ok((ExprKindView::Tuple(values), state)),
        },
        ExprKindView::Array(values) => match annotated_exprs(values, 0, Seq::empty(), span, definition, call, state) {
            Err(error) => Err(error),
            Ok((values, state)) => Ok((ExprKindView::Array(values), state)),
        },
        ExprKindView::Mapping(values) => match annotated_expr_pairs(values, 0, Seq::empty(), span, definition, call, state) {
            Err(error) => Err(error),
            Ok((values, state)) => Ok((ExprKindView::Mapping(values), state)),
        },
        ExprKindView::Mutable(value) => match annotated_expr(*value, span, definition, call, state) {
            Err(error) => Err(error),
            Ok((value, state)) => {
                let value = Box::new(value);
                Ok((ExprKindView::Mutable(value), state))
            },
        },
        ExprKindView::ReferenceOf(value) => match annotated_expr(*value, span, definition, call, state) {
            Err(error) => Err(error),
            Ok((value, state)) => {
                let value = Box::new(value);
                Ok((ExprKindView::ReferenceOf(value), state))
            },
        },
        ExprKindView::Range(first, second, third) => match annotated_expr(*first, span, definition, call, state) {
            Err(error) => Err(error),
            Ok((first, state)) => {
                let first = Box::new(first);
                match annotated_expr(*second, span, definition, call, state) {
                    Err(error) => Err(error),
                    Ok((second, state)) => {
                        let second = Box::new(second);
                        match annotated_expr(*third, span, definition, call, state) {
                            Err(error) => Err(error),
                            Ok((third, state)) => {
                                let third = Box::new(third);
                                Ok((ExprKindView::Range(first, second, third), state))
                            },
                        }
                    },
                }
            },
        },
        ExprKindView::Convert { value, into, fallback } => match annotated_expr(*value, span, definition, call, state) {
            Err(error) => Err(error),
            Ok((value, state)) => {
                let value = Box::new(value);
                match annotated_type_expr(into, span, definition, call, state) {
                    Err(error) => Err(error),
                    Ok((into, state)) => Ok((ExprKindView::Convert { value, into, fallback }, state)),
                }
            },
        },
        ExprKindView::Cast { value, into } => match annotated_expr(*value, span, definition, call, state) {
            Err(error) => Err(error),
            Ok((value, state)) => {
                let value = Box::new(value);
                match annotated_type_expr(into, span, definition, call, state) {
                    Err(error) => Err(error),
                    Ok((into, state)) => Ok((ExprKindView::Cast { value, into }, state)),
                }
            },
        },
        _ => Ok((value, state)),
    }
}

/// References, calls and tasks.
pub open spec fn annotated_plain(
    value: ExprKindView,
    span: Span,
    definition: Origin,
    call: Origin,
    state: ExpansionState,
) -> Result<(ExprKindView, ExpansionState), MacroErrorView>
    decreases value, 0int,
{
    match value {
        ExprKindView::Literal(value) => Ok((ExprKindView::Literal(value), state)),
        ExprKindView::Reference(value) => Ok((ExprKindView::Reference(value), state)),
        ExprKindView::Call { callee, arguments } => match annotated_name(callee, span, definition, call, state) {
            Err(error) => Err(error),
            Ok((callee, state)) => match annotated_exprs(arguments, 0, Seq::empty(), span, definition, call, state) {
                Err(error) => Err(error),
                Ok((arguments, state)) => Ok((ExprKindView::Call { callee, arguments }, state)),
            },
        },
        ExprKindView::Task { captures, body } => match annotated_names(captures, 0, Seq::empty(), span, definition, call, state) {
            Err(error) => Err(error),
            Ok((captures, state)) => match annotated_exprs(body, 0, Seq::empty(), span, definition, call, state) {
                Err(error) => Err(error),
                Ok((body, state)) => Ok((ExprKindView::Task { captures, body }, state)),
            },
        },
        ExprKindView::Spawn { handle, captures, value } => match annotated_name(handle, span, definition, call, state) {
            Err(error) => Err(error),
            Ok((handle, state)) => match annotated_names(captures, 0, Seq::empty(), span, definition, call, state) {
                Err(error) => Err(error),
                Ok((captures, state)) => match annotated_expr(*value, span, definition, call, state) {
                    Err(error) => Err(error),
                    Ok((value, state)) => {
                        let value = Box::new(value);
                        Ok((ExprKindView::Spawn { handle, captures, value }, state))
                    },
                },
            },
        },
        ExprKindView::Join { handle, binding } => match annotated_name(handle, span, definition, call, state) {
            Err(error) => Err(error),
            Ok((handle, state)) => match annotated_name(binding, span, definition, call, state) {
                Err(error) => Err(error),
                Ok((binding, state)) => Ok((ExprKindView::Join { handle, binding }, state)),
            },
        },
        _ => Ok((value, state)),
    }
}

/// The expression with every node of the definition marked, in source order.
pub open spec fn annotated_expr(
    node: ExprView,
    span: Span,
    definition: Origin,
    call: Origin,
    state: ExpansionState,
) -> Result<(ExprView, ExpansionState), MacroErrorView>
    decreases node, 0int,
{
    match annotated_origin(node.origin, span, definition, call, state) {
        Err(error) => Err(error),
        Ok((origin, state)) => {
            let rewritten = if node.value.is_control() {
                annotated_control(node.value, span, definition, call, state)
            } else if node.value.is_data() {
                annotated_data(node.value, span, definition, call, state)
            } else {
                annotated_plain(node.value, span, definition, call, state)
            };
            match rewritten {
                Err(error) => Err(error),
                Ok((value, state)) => Ok((Spanned { value, span: node.span, origin: origin }, state)),
            }
        },
    }
}

fn annotate_control(
    kind: &ExprKind,
    definition: &Macro,
    call: &Origin,
    state: &mut ExpansionState,
) -> (result: Result<ExprKind, MacroExpansionError>)
    requires
        view::expr_kind(*kind).is_control(),
    ensures
        match result {
            Ok(value) => annotated_control(
                view::expr_kind(*kind),
                definition.span,
                definition.origin,
                *call,
                *old(state),
            ) == Ok::<(ExprKindView, ExpansionState), MacroErrorView>((view::expr_kind(value), *final(state))),
            Err(error) => annotated_control(
                view::expr_kind(*kind),
                definition.span,
                definition.origin,
                *call,
                *old(state),
            ) == Err::<(ExprKindView, ExpansionState), MacroErrorView>(error@),
        },
    decreases kind,
{
    reveal(view::expr_kind);
    match kind {
        ExprKind::Do(values) => match annotate_exprs(values, definition, call, state) {
            Err(error) => Err(error),
            Ok(values) => Ok(ExprKind::Do(values)),
        },
        ExprKind::Let { name, ty, value } => match annotate_name(name, definition, call, state) {
            Err(error) => Err(error),
            Ok(name) => match annotate_optional_type_expr(ty, definition, call, state) {
                Err(error) => Err(error),
                Ok(ty) => match annotate_expr(value, definition, call, state) {
                    Err(error) => Err(error),
                    Ok(value) => Ok(ExprKind::Let { name, ty, value: Box::new(value) }),
                },
            },
        },
        ExprKind::Assign { name, value } => match annotate_name(name, definition, call, state) {
            Err(error) => Err(error),
            Ok(name) => match annotate_expr(value, definition, call, state) {
                Err(error) => Err(error),
                Ok(value) => Ok(ExprKind::Assign { name, value: Box::new(value) }),
            },
        },
        ExprKind::Return(value) => match annotate_optional_expr(value, definition, call, state) {
            Err(error) => Err(error),
            Ok(value) => Ok(ExprKind::Return(value)),
        },
        ExprKind::If { condition, then_body, else_body } => match annotate_expr(condition, definition, call, state) {
            Err(error) => Err(error),
            Ok(condition) => match annotate_exprs(then_body, definition, call, state) {
                Err(error) => Err(error),
                Ok(then_body) => match annotate_exprs(else_body, definition, call, state) {
                    Err(error) => Err(error),
                    Ok(else_body) => Ok(ExprKind::If { condition: Box::new(condition), then_body, else_body }),
                },
            },
        },
        ExprKind::While { condition, body } => match annotate_expr(condition, definition, call, state) {
            Err(error) => Err(error),
            Ok(condition) => match annotate_exprs(body, definition, call, state) {
                Err(error) => Err(error),
                Ok(body) => Ok(ExprKind::While { condition: Box::new(condition), body }),
            },
        },
        ExprKind::For { binding, source, body } => match annotate_name(binding, definition, call, state) {
            Err(error) => Err(error),
            Ok(binding) => match annotate_expr(source, definition, call, state) {
                Err(error) => Err(error),
                Ok(source) => match annotate_exprs(body, definition, call, state) {
                    Err(error) => Err(error),
                    Ok(body) => Ok(ExprKind::For { binding, source: Box::new(source), body }),
                },
            },
        },
        ExprKind::Match { target, cases } => match annotate_expr(target, definition, call, state) {
            Err(error) => Err(error),
            Ok(target) => match annotate_match_cases(cases, definition, call, state) {
                Err(error) => Err(error),
                Ok(cases) => Ok(ExprKind::Match { target: Box::new(target), cases }),
            },
        },
        ExprKind::Break => Ok(ExprKind::Break),
        ExprKind::Continue => Ok(ExprKind::Continue),
        _ => Ok(copy::expr_kind(kind)),
    }
}

fn annotate_data(
    kind: &ExprKind,
    definition: &Macro,
    call: &Origin,
    state: &mut ExpansionState,
) -> (result: Result<ExprKind, MacroExpansionError>)
    requires
        view::expr_kind(*kind).is_data(),
    ensures
        match result {
            Ok(value) => annotated_data(
                view::expr_kind(*kind),
                definition.span,
                definition.origin,
                *call,
                *old(state),
            ) == Ok::<(ExprKindView, ExpansionState), MacroErrorView>((view::expr_kind(value), *final(state))),
            Err(error) => annotated_data(
                view::expr_kind(*kind),
                definition.span,
                definition.origin,
                *call,
                *old(state),
            ) == Err::<(ExprKindView, ExpansionState), MacroErrorView>(error@),
        },
    decreases kind,
{
    reveal(view::expr_kind);
    match kind {
        ExprKind::Record(values) => match annotate_expr_fields(values, definition, call, state) {
            Err(error) => Err(error),
            Ok(values) => Ok(ExprKind::Record(values)),
        },
        ExprKind::Tuple(values) => match annotate_exprs(values, definition, call, state) {
            Err(error) => Err(error),
            Ok(values) => Ok(ExprKind::Tuple(values)),
        },
        ExprKind::Array(values) => match annotate_exprs(values, definition, call, state) {
            Err(error) => Err(error),
            Ok(values) => Ok(ExprKind::Array(values)),
        },
        ExprKind::Mapping(values) => match annotate_expr_pairs(values, definition, call, state) {
            Err(error) => Err(error),
            Ok(values) => Ok(ExprKind::Mapping(values)),
        },
        ExprKind::Mutable(value) => match annotate_expr(value, definition, call, state) {
            Err(error) => Err(error),
            Ok(value) => Ok(ExprKind::Mutable(Box::new(value))),
        },
        ExprKind::ReferenceOf(value) => match annotate_expr(value, definition, call, state) {
            Err(error) => Err(error),
            Ok(value) => Ok(ExprKind::ReferenceOf(Box::new(value))),
        },
        ExprKind::Range(first, second, third) => match annotate_expr(first, definition, call, state) {
            Err(error) => Err(error),
            Ok(first) => match annotate_expr(second, definition, call, state) {
                Err(error) => Err(error),
                Ok(second) => match annotate_expr(third, definition, call, state) {
                    Err(error) => Err(error),
                    Ok(third) => Ok(ExprKind::Range(Box::new(first), Box::new(second), Box::new(third))),
                },
            },
        },
        ExprKind::Convert { value, into, fallback } => match annotate_expr(value, definition, call, state) {
            Err(error) => Err(error),
            Ok(value) => match annotate_type_expr(into, definition, call, state) {
                Err(error) => Err(error),
                Ok(into) => Ok(ExprKind::Convert { value: Box::new(value), into, fallback: copy::literal(fallback) }),
            },
        },
        ExprKind::Cast { value, into } => match annotate_expr(value, definition, call, state) {
            Err(error) => Err(error),
            Ok(value) => match annotate_type_expr(into, definition, call, state) {
                Err(error) => Err(error),
                Ok(into) => Ok(ExprKind::Cast { value: Box::new(value), into }),
            },
        },
        _ => Ok(copy::expr_kind(kind)),
    }
}

fn annotate_plain(
    kind: &ExprKind,
    definition: &Macro,
    call: &Origin,
    state: &mut ExpansionState,
) -> (result: Result<ExprKind, MacroExpansionError>)
    requires
        !view::expr_kind(*kind).is_control(),
        !view::expr_kind(*kind).is_data(),
    ensures
        match result {
            Ok(value) => annotated_plain(
                view::expr_kind(*kind),
                definition.span,
                definition.origin,
                *call,
                *old(state),
            ) == Ok::<(ExprKindView, ExpansionState), MacroErrorView>((view::expr_kind(value), *final(state))),
            Err(error) => annotated_plain(
                view::expr_kind(*kind),
                definition.span,
                definition.origin,
                *call,
                *old(state),
            ) == Err::<(ExprKindView, ExpansionState), MacroErrorView>(error@),
        },
    decreases kind,
{
    reveal(view::expr_kind);
    match kind {
        ExprKind::Literal(value) => Ok(ExprKind::Literal(copy::literal(value))),
        ExprKind::Reference(value) => Ok(ExprKind::Reference(value.clone())),
        ExprKind::Call { callee, arguments } => match annotate_name(callee, definition, call, state) {
            Err(error) => Err(error),
            Ok(callee) => match annotate_exprs(arguments, definition, call, state) {
                Err(error) => Err(error),
                Ok(arguments) => Ok(ExprKind::Call { callee, arguments }),
            },
        },
        ExprKind::Task { captures, body } => match annotate_names(captures, definition, call, state) {
            Err(error) => Err(error),
            Ok(captures) => match annotate_exprs(body, definition, call, state) {
                Err(error) => Err(error),
                Ok(body) => Ok(ExprKind::Task { captures, body }),
            },
        },
        ExprKind::Spawn { handle, captures, value } => match annotate_name(handle, definition, call, state) {
            Err(error) => Err(error),
            Ok(handle) => match annotate_names(captures, definition, call, state) {
                Err(error) => Err(error),
                Ok(captures) => match annotate_expr(value, definition, call, state) {
                    Err(error) => Err(error),
                    Ok(value) => Ok(ExprKind::Spawn { handle, captures, value: Box::new(value) }),
                },
            },
        },
        ExprKind::Join { handle, binding } => match annotate_name(handle, definition, call, state) {
            Err(error) => Err(error),
            Ok(handle) => match annotate_name(binding, definition, call, state) {
                Err(error) => Err(error),
                Ok(binding) => Ok(ExprKind::Join { handle, binding }),
            },
        },
        _ => Ok(copy::expr_kind(kind)),
    }
}

#[verifier::rlimit(40)]
pub(crate) fn annotate_expr(
    node: &Expr,
    definition: &Macro,
    call: &Origin,
    state: &mut ExpansionState,
) -> (result: Result<Expr, MacroExpansionError>)
    ensures
        match result {
            Ok(value) => annotated_expr(
                view::expr(*node),
                definition.span,
                definition.origin,
                *call,
                *old(state),
            ) == Ok::<(ExprView, ExpansionState), MacroErrorView>((view::expr(value), *final(state))),
            Err(error) => annotated_expr(
                view::expr(*node),
                definition.span,
                definition.origin,
                *call,
                *old(state),
            ) == Err::<(ExprView, ExpansionState), MacroErrorView>(error@),
        },
    decreases node,
{
    reveal(view::expr_kind);
    let origin = match annotate_origin(&node.origin, definition, call, state) {
        Ok(value) => value,
        Err(error) => return Err(error),
    };
    let rewritten = if node.value.is_control() {
        annotate_control(&node.value, definition, call, state)
    } else if node.value.is_data() {
        annotate_data(&node.value, definition, call, state)
    } else {
        annotate_plain(&node.value, definition, call, state)
    };
    match rewritten {
        Err(error) => Err(error),
        Ok(value) => Ok(Spanned { value, span: node.span, origin: origin }),
    }
}

pub open spec fn annotated_optional_expr(
    node: Option<Box<ExprView>>,
    span: Span,
    definition: Origin,
    call: Origin,
    state: ExpansionState,
) -> Result<(Option<Box<ExprView>>, ExpansionState), MacroErrorView>
    decreases node, 0int,
{
    match node {
        None => Ok((None, state)),
        Some(inner) => match annotated_expr(*inner, span, definition, call, state) {
            Err(error) => Err(error),
            Ok((inner, state)) => Ok((Some(Box::new(inner)), state)),
        },
    }
}

fn annotate_optional_expr(
    node: &Option<Box<Expr>>,
    definition: &Macro,
    call: &Origin,
    state: &mut ExpansionState,
) -> (result: Result<Option<Box<Expr>>, MacroExpansionError>)
    ensures
        match result {
            Ok(value) => annotated_optional_expr(match *node {
                    None => None,
                    Some(inner) => Some(Box::new(view::expr(*inner))),
                }, definition.span, definition.origin, *call, *old(state)) == Ok::<(Option<Box<ExprView>>, ExpansionState), MacroErrorView>((match value { None => None, Some(inner) => Some(Box::new(view::expr(*inner))) }, *final(state))),
            Err(error) => annotated_optional_expr(match *node {
                    None => None,
                    Some(inner) => Some(Box::new(view::expr(*inner))),
                }, definition.span, definition.origin, *call, *old(state)) == Err::<(Option<Box<ExprView>>, ExpansionState), MacroErrorView>(error@),
        },
    decreases node,
{
    match node {
        None => Ok(None),
        Some(inner) => {
            let inner = match annotate_expr(inner, definition, call, state) {
                Ok(value) => value,
                Err(error) => return Err(error),
            };
            Ok(Some(Box::new(inner)))
        }
    }
}

pub open spec fn annotated_exprs(
    nodes: Seq<ExprView>,
    from: int,
    done: Seq<ExprView>,
    span: Span,
    definition: Origin,
    call: Origin,
    state: ExpansionState,
) -> Result<(Seq<ExprView>, ExpansionState), MacroErrorView>
    decreases nodes, nodes.len() - from,
{
    if from < 0 || from >= nodes.len() {
        Ok((done, state))
    } else {
        match annotated_expr(nodes[from], span, definition, call, state) {
            Err(error) => Err(error),
            Ok((value, state)) => annotated_exprs(nodes, from + 1, done.push(value), span, definition, call, state),
        }
    }
}

fn annotate_exprs(
    nodes: &Vec<Expr>,
    definition: &Macro,
    call: &Origin,
    state: &mut ExpansionState,
) -> (result: Result<Vec<Expr>, MacroExpansionError>)
    ensures
        match result {
            Ok(value) => annotated_exprs(
                view::exprs(nodes@),
                0,
                Seq::empty(),
                definition.span,
                definition.origin,
                *call,
                *old(state),
            ) == Ok::<(Seq<ExprView>, ExpansionState), MacroErrorView>((view::exprs(value@), *final(state))),
            Err(error) => annotated_exprs(
                view::exprs(nodes@),
                0,
                Seq::empty(),
                definition.span,
                definition.origin,
                *call,
                *old(state),
            ) == Err::<(Seq<ExprView>, ExpansionState), MacroErrorView>(error@),
        },
    decreases nodes,
{
    let ghost start = *state;
    let ghost all = view::exprs(nodes@);
    let mut done: Vec<Expr> = Vec::new();
    let mut i: usize = 0;
    assert(view::exprs(done@) =~= Seq::<ExprView>::empty());
    while i < nodes.len()
        invariant
            i <= nodes.len(),
            all == view::exprs(nodes@),
            start == *old(state),
            annotated_exprs(all, 0, Seq::empty(), definition.span, definition.origin, *call, start)
                == annotated_exprs(
                all,
                i as int,
                view::exprs(done@),
                definition.span,
                definition.origin,
                *call,
                *state,
            ),
        decreases nodes.len() - i,
    {
        let ghost before = done@;
        assert(all[i as int] == view::expr(nodes@[i as int]));
        let value = match annotate_expr(&nodes[i], definition, call, state) {
            Ok(value) => value,
            Err(error) => return Err(error),
        };
        done.push(value);
        proof {
            view::lemma_exprs_push(before, done@.last());
        }
        i += 1;
    }
    Ok(done)
}

pub open spec fn annotated_expr_field(
    node: ExprFieldView,
    span: Span,
    definition: Origin,
    call: Origin,
    state: ExpansionState,
) -> Result<(ExprFieldView, ExpansionState), MacroErrorView>
    decreases node, 0int,
{
    match annotated_name(node.name, span, definition, call, state) {
        Err(error) => Err(error),
        Ok((name, state)) => match annotated_expr(node.value, span, definition, call, state) {
            Err(error) => Err(error),
            Ok((value, state)) => Ok((ExprFieldView { name, value, span: node.span }, state)),
        },
    }
}

fn annotate_expr_field(
    node: &ExprField,
    definition: &Macro,
    call: &Origin,
    state: &mut ExpansionState,
) -> (result: Result<ExprField, MacroExpansionError>)
    ensures
        match result {
            Ok(value) => annotated_expr_field(
                view::expr_field(*node),
                definition.span,
                definition.origin,
                *call,
                *old(state),
            ) == Ok::<(ExprFieldView, ExpansionState), MacroErrorView>((view::expr_field(value), *final(state))),
            Err(error) => annotated_expr_field(
                view::expr_field(*node),
                definition.span,
                definition.origin,
                *call,
                *old(state),
            ) == Err::<(ExprFieldView, ExpansionState), MacroErrorView>(error@),
        },
    decreases node,
{
    let name = match annotate_name(&node.name, definition, call, state) {
        Ok(value) => value,
        Err(error) => return Err(error),
    };
    let value = match annotate_expr(&node.value, definition, call, state) {
        Ok(value) => value,
        Err(error) => return Err(error),
    };
    Ok(ExprField { name, value, span: node.span })
}

pub open spec fn annotated_expr_fields(
    nodes: Seq<ExprFieldView>,
    from: int,
    done: Seq<ExprFieldView>,
    span: Span,
    definition: Origin,
    call: Origin,
    state: ExpansionState,
) -> Result<(Seq<ExprFieldView>, ExpansionState), MacroErrorView>
    decreases nodes, nodes.len() - from,
{
    if from < 0 || from >= nodes.len() {
        Ok((done, state))
    } else {
        match annotated_expr_field(nodes[from], span, definition, call, state) {
            Err(error) => Err(error),
            Ok((value, state)) => annotated_expr_fields(
                nodes,
                from + 1,
                done.push(value),
                span,
                definition,
                call,
                state,
            ),
        }
    }
}

fn annotate_expr_fields(
    nodes: &Vec<ExprField>,
    definition: &Macro,
    call: &Origin,
    state: &mut ExpansionState,
) -> (result: Result<Vec<ExprField>, MacroExpansionError>)
    ensures
        match result {
            Ok(value) => annotated_expr_fields(
                view::expr_fields(nodes@),
                0,
                Seq::empty(),
                definition.span,
                definition.origin,
                *call,
                *old(state),
            ) == Ok::<(Seq<ExprFieldView>, ExpansionState), MacroErrorView>((view::expr_fields(value@), *final(state))),
            Err(error) => annotated_expr_fields(
                view::expr_fields(nodes@),
                0,
                Seq::empty(),
                definition.span,
                definition.origin,
                *call,
                *old(state),
            ) == Err::<(Seq<ExprFieldView>, ExpansionState), MacroErrorView>(error@),
        },
    decreases nodes,
{
    let ghost start = *state;
    let ghost all = view::expr_fields(nodes@);
    let mut done: Vec<ExprField> = Vec::new();
    let mut i: usize = 0;
    assert(view::expr_fields(done@) =~= Seq::<ExprFieldView>::empty());
    while i < nodes.len()
        invariant
            i <= nodes.len(),
            all == view::expr_fields(nodes@),
            start == *old(state),
            annotated_expr_fields(all, 0, Seq::empty(), definition.span, definition.origin, *call, start)
                == annotated_expr_fields(
                all,
                i as int,
                view::expr_fields(done@),
                definition.span,
                definition.origin,
                *call,
                *state,
            ),
        decreases nodes.len() - i,
    {
        let ghost before = done@;
        assert(all[i as int] == view::expr_field(nodes@[i as int]));
        let value = match annotate_expr_field(&nodes[i], definition, call, state) {
            Ok(value) => value,
            Err(error) => return Err(error),
        };
        done.push(value);
        proof {
            view::lemma_expr_fields_push(before, done@.last());
        }
        i += 1;
    }
    Ok(done)
}

pub open spec fn annotated_expr_pair(
    node: (ExprView, ExprView),
    span: Span,
    definition: Origin,
    call: Origin,
    state: ExpansionState,
) -> Result<((ExprView, ExprView), ExpansionState), MacroErrorView>
    decreases node, 0int,
{
    match annotated_expr(node.0, span, definition, call, state) {
        Err(error) => Err(error),
        Ok((key, state)) => match annotated_expr(node.1, span, definition, call, state) {
            Err(error) => Err(error),
            Ok((value, state)) => Ok(((key, value), state)),
        },
    }
}

fn annotate_expr_pair(
    node: &(Expr, Expr),
    definition: &Macro,
    call: &Origin,
    state: &mut ExpansionState,
) -> (result: Result<(Expr, Expr), MacroExpansionError>)
    ensures
        match result {
            Ok(value) => annotated_expr_pair(
                (view::expr(node.0), view::expr(node.1)),
                definition.span,
                definition.origin,
                *call,
                *old(state),
            ) == Ok::<((ExprView, ExprView), ExpansionState), MacroErrorView>(((view::expr(value.0), view::expr(value.1)), *final(state))),
            Err(error) => annotated_expr_pair(
                (view::expr(node.0), view::expr(node.1)),
                definition.span,
                definition.origin,
                *call,
                *old(state),
            ) == Err::<((ExprView, ExprView), ExpansionState), MacroErrorView>(error@),
        },
    decreases node,
{
    let key = match annotate_expr(&node.0, definition, call, state) {
        Ok(value) => value,
        Err(error) => return Err(error),
    };
    let value = match annotate_expr(&node.1, definition, call, state) {
        Ok(value) => value,
        Err(error) => return Err(error),
    };
    Ok((key, value))
}

pub open spec fn annotated_expr_pairs(
    nodes: Seq<(ExprView, ExprView)>,
    from: int,
    done: Seq<(ExprView, ExprView)>,
    span: Span,
    definition: Origin,
    call: Origin,
    state: ExpansionState,
) -> Result<(Seq<(ExprView, ExprView)>, ExpansionState), MacroErrorView>
    decreases nodes, nodes.len() - from,
{
    if from < 0 || from >= nodes.len() {
        Ok((done, state))
    } else {
        match annotated_expr_pair(nodes[from], span, definition, call, state) {
            Err(error) => Err(error),
            Ok((value, state)) => annotated_expr_pairs(
                nodes,
                from + 1,
                done.push(value),
                span,
                definition,
                call,
                state,
            ),
        }
    }
}

fn annotate_expr_pairs(
    nodes: &Vec<(Expr, Expr)>,
    definition: &Macro,
    call: &Origin,
    state: &mut ExpansionState,
) -> (result: Result<Vec<(Expr, Expr)>, MacroExpansionError>)
    ensures
        match result {
            Ok(value) => annotated_expr_pairs(
                view::expr_pairs(nodes@),
                0,
                Seq::empty(),
                definition.span,
                definition.origin,
                *call,
                *old(state),
            ) == Ok::<(Seq<(ExprView, ExprView)>, ExpansionState), MacroErrorView>((view::expr_pairs(value@), *final(state))),
            Err(error) => annotated_expr_pairs(
                view::expr_pairs(nodes@),
                0,
                Seq::empty(),
                definition.span,
                definition.origin,
                *call,
                *old(state),
            ) == Err::<(Seq<(ExprView, ExprView)>, ExpansionState), MacroErrorView>(error@),
        },
    decreases nodes,
{
    let ghost start = *state;
    let ghost all = view::expr_pairs(nodes@);
    let mut done: Vec<(Expr, Expr)> = Vec::new();
    let mut i: usize = 0;
    assert(view::expr_pairs(done@) =~= Seq::<(ExprView, ExprView)>::empty());
    while i < nodes.len()
        invariant
            i <= nodes.len(),
            all == view::expr_pairs(nodes@),
            start == *old(state),
            annotated_expr_pairs(all, 0, Seq::empty(), definition.span, definition.origin, *call, start)
                == annotated_expr_pairs(
                all,
                i as int,
                view::expr_pairs(done@),
                definition.span,
                definition.origin,
                *call,
                *state,
            ),
        decreases nodes.len() - i,
    {
        let ghost before = done@;
        assert(all[i as int] == (view::expr(nodes@[i as int].0), view::expr(nodes@[i as int].1)));
        let value = match annotate_expr_pair(&nodes[i], definition, call, state) {
            Ok(value) => value,
            Err(error) => return Err(error),
        };
        done.push(value);
        proof {
            view::lemma_expr_pairs_push(before, done@.last());
        }
        i += 1;
    }
    Ok(done)
}

pub open spec fn annotated_match_case(
    node: MatchCaseView,
    span: Span,
    definition: Origin,
    call: Origin,
    state: ExpansionState,
) -> Result<(MatchCaseView, ExpansionState), MacroErrorView>
    decreases node, 0int,
{
    match annotated_pattern(node.pattern, span, definition, call, state) {
        Err(error) => Err(error),
        Ok((pattern, state)) => match annotated_exprs(node.body, 0, Seq::empty(), span, definition, call, state) {
            Err(error) => Err(error),
            Ok((body, state)) => Ok((MatchCaseView { pattern, body, span: node.span }, state)),
        },
    }
}

fn annotate_match_case(
    node: &MatchCase,
    definition: &Macro,
    call: &Origin,
    state: &mut ExpansionState,
) -> (result: Result<MatchCase, MacroExpansionError>)
    ensures
        match result {
            Ok(value) => annotated_match_case(
                view::match_case(*node),
                definition.span,
                definition.origin,
                *call,
                *old(state),
            ) == Ok::<(MatchCaseView, ExpansionState), MacroErrorView>((view::match_case(value), *final(state))),
            Err(error) => annotated_match_case(
                view::match_case(*node),
                definition.span,
                definition.origin,
                *call,
                *old(state),
            ) == Err::<(MatchCaseView, ExpansionState), MacroErrorView>(error@),
        },
    decreases node,
{
    let pattern = match annotate_pattern(&node.pattern, definition, call, state) {
        Ok(value) => value,
        Err(error) => return Err(error),
    };
    let body = match annotate_exprs(&node.body, definition, call, state) {
        Ok(value) => value,
        Err(error) => return Err(error),
    };
    Ok(MatchCase { pattern, body, span: node.span })
}

pub open spec fn annotated_match_cases(
    nodes: Seq<MatchCaseView>,
    from: int,
    done: Seq<MatchCaseView>,
    span: Span,
    definition: Origin,
    call: Origin,
    state: ExpansionState,
) -> Result<(Seq<MatchCaseView>, ExpansionState), MacroErrorView>
    decreases nodes, nodes.len() - from,
{
    if from < 0 || from >= nodes.len() {
        Ok((done, state))
    } else {
        match annotated_match_case(nodes[from], span, definition, call, state) {
            Err(error) => Err(error),
            Ok((value, state)) => annotated_match_cases(
                nodes,
                from + 1,
                done.push(value),
                span,
                definition,
                call,
                state,
            ),
        }
    }
}

fn annotate_match_cases(
    nodes: &Vec<MatchCase>,
    definition: &Macro,
    call: &Origin,
    state: &mut ExpansionState,
) -> (result: Result<Vec<MatchCase>, MacroExpansionError>)
    ensures
        match result {
            Ok(value) => annotated_match_cases(
                view::match_cases(nodes@),
                0,
                Seq::empty(),
                definition.span,
                definition.origin,
                *call,
                *old(state),
            ) == Ok::<(Seq<MatchCaseView>, ExpansionState), MacroErrorView>((view::match_cases(value@), *final(state))),
            Err(error) => annotated_match_cases(
                view::match_cases(nodes@),
                0,
                Seq::empty(),
                definition.span,
                definition.origin,
                *call,
                *old(state),
            ) == Err::<(Seq<MatchCaseView>, ExpansionState), MacroErrorView>(error@),
        },
    decreases nodes,
{
    let ghost start = *state;
    let ghost all = view::match_cases(nodes@);
    let mut done: Vec<MatchCase> = Vec::new();
    let mut i: usize = 0;
    assert(view::match_cases(done@) =~= Seq::<MatchCaseView>::empty());
    while i < nodes.len()
        invariant
            i <= nodes.len(),
            all == view::match_cases(nodes@),
            start == *old(state),
            annotated_match_cases(all, 0, Seq::empty(), definition.span, definition.origin, *call, start)
                == annotated_match_cases(
                all,
                i as int,
                view::match_cases(done@),
                definition.span,
                definition.origin,
                *call,
                *state,
            ),
        decreases nodes.len() - i,
    {
        let ghost before = done@;
        assert(all[i as int] == view::match_case(nodes@[i as int]));
        let value = match annotate_match_case(&nodes[i], definition, call, state) {
            Ok(value) => value,
            Err(error) => return Err(error),
        };
        done.push(value);
        proof {
            view::lemma_match_cases_push(before, done@.last());
        }
        i += 1;
    }
    Ok(done)
}

} // verus!
