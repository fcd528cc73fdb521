//! Reading the same nodes into different documents.
use vstd::prelude::*;
use crate::ast::grammar;
use crate::ast::surface::{DocumentId, Origin, Spanned, Visibility};
use crate::ast::view::{
    AnnotationKindView, AnnotationView, ConstantView, DefinitionView, ExprFieldView, ExprKindView, ExprView,
    FunctionView, ImplItemView, ImportView, MacroExprKindView, MacroExprView, MacroParameterView, MacroView,
    MatchCaseView, MethodBindingView, ModuleView, NameView, ParameterView, PatternFieldView, PatternKindView,
    PatternView, TestMetaView, TestView, TopLevelView, TypeExprKindView, TypeExprView, TypeMemberView,
    TypeParameterView,
};
use crate::syntax::{self, NodeView, Span};

verus! {

broadcast use crate::syntax::lemma_item_decreases;

/// A place of origin in another document.
pub open spec fn moved_origin(origin: Origin, id: DocumentId) -> Origin {
    match origin {
        Origin::DocumentSource { ast_id, span, .. } => Origin::DocumentSource { document: id, ast_id, span },
        other => other,
    }
}

/// A plain value with its place in another document.
pub open spec fn moved_mark<T>(node: Spanned<T>, id: DocumentId) -> Spanned<T> {
    Spanned { value: node.value, span: node.span, origin: moved_origin(node.origin, id) }
}

pub open spec fn moved_type_expr(node: TypeExprView, id: DocumentId) -> TypeExprView
    decreases node,
{
    Spanned { value: moved_type_expr_kind(node.value, id), span: node.span, origin: moved_origin(node.origin, id) }
}

pub open spec fn moved_expr(node: ExprView, id: DocumentId) -> ExprView
    decreases node,
{
    Spanned { value: moved_expr_kind(node.value, id), span: node.span, origin: moved_origin(node.origin, id) }
}

pub open spec fn moved_pattern(node: PatternView, id: DocumentId) -> PatternView
    decreases node,
{
    Spanned { value: moved_pattern_kind(node.value, id), span: node.span, origin: moved_origin(node.origin, id) }
}

pub open spec fn moved_annotation(node: AnnotationView, id: DocumentId) -> AnnotationView
    decreases node,
{
    Spanned { value: moved_annotation_kind(node.value, id), span: node.span, origin: moved_origin(node.origin, id) }
}

pub open spec fn moved_macro_expr(node: MacroExprView, id: DocumentId) -> MacroExprView
    decreases node,
{
    Spanned { value: moved_macro_expr_kind(node.value, id), span: node.span, origin: moved_origin(node.origin, id) }
}

pub open spec fn moved_module(node: ModuleView, id: DocumentId) -> ModuleView
    decreases node,
{
    ModuleView {
        forms: moved_top_levels(node.forms, id),
        span: node.span,
        document_id: id,
    }
}

pub open spec fn moved_import(node: ImportView, id: DocumentId) -> ImportView
    decreases node,
{
    ImportView {
        alias: moved_mark(node.alias, id),
        path: moved_mark(node.path, id),
        span: node.span,
        origin: moved_origin(node.origin, id),
    }
}

pub open spec fn moved_definition(node: DefinitionView, id: DocumentId) -> DefinitionView
    decreases node,
{
    DefinitionView {
        visibility: node.visibility,
        name: moved_mark(node.name, id),
        body: moved_type_expr(node.body, id),
        annotations: moved_annotations(node.annotations, id),
        span: node.span,
        origin: moved_origin(node.origin, id),
    }
}

pub open spec fn moved_constant(node: ConstantView, id: DocumentId) -> ConstantView
    decreases node,
{
    ConstantView {
        visibility: node.visibility,
        name: moved_mark(node.name, id),
        ty: moved_type_expr(node.ty, id),
        value: moved_expr(node.value, id),
        annotations: moved_annotations(node.annotations, id),
        span: node.span,
        origin: moved_origin(node.origin, id),
    }
}

pub open spec fn moved_function(node: FunctionView, id: DocumentId) -> FunctionView
    decreases node,
{
    FunctionView {
        visibility: node.visibility,
        name: moved_mark(node.name, id),
        parameters: moved_parameters(node.parameters, id),
        return_type: moved_type_expr(node.return_type, id),
        body: moved_exprs(node.body, id),
        annotations: moved_annotations(node.annotations, id),
        span: node.span,
        origin: moved_origin(node.origin, id),
    }
}

pub open spec fn moved_macro(node: MacroView, id: DocumentId) -> MacroView
    decreases node,
{
    MacroView {
        visibility: node.visibility,
        name: moved_mark(node.name, id),
        parameters: moved_macro_parameters(node.parameters, id),
        result: moved_mark(node.result, id),
        body: moved_macro_exprs(node.body, id),
        annotations: moved_annotations(node.annotations, id),
        span: node.span,
        origin: moved_origin(node.origin, id),
    }
}

pub open spec fn moved_macro_parameter(node: MacroParameterView, id: DocumentId) -> MacroParameterView
    decreases node,
{
    MacroParameterView {
        name: moved_mark(node.name, id),
        category: moved_mark(node.category, id),
        span: node.span,
    }
}

pub open spec fn moved_parameter(node: ParameterView, id: DocumentId) -> ParameterView
    decreases node,
{
    ParameterView {
        name: moved_mark(node.name, id),
        ty: moved_type_expr(node.ty, id),
        span: node.span,
    }
}

pub open spec fn moved_test(node: TestView, id: DocumentId) -> TestView
    decreases node,
{
    TestView {
        name: moved_mark(node.name, id),
        profile: moved_mark(node.profile, id),
        body: moved_exprs(node.body, id),
        metadata: moved_test_metas(node.metadata, id),
        span: node.span,
        origin: moved_origin(node.origin, id),
    }
}

pub open spec fn moved_type_member(node: TypeMemberView, id: DocumentId) -> TypeMemberView
    decreases node,
{
    TypeMemberView {
        name: moved_mark(node.name, id),
        ty: moved_type_expr(node.ty, id),
        span: node.span,
    }
}

pub open spec fn moved_expr_field(node: ExprFieldView, id: DocumentId) -> ExprFieldView
    decreases node,
{
    ExprFieldView {
        name: moved_mark(node.name, id),
        value: moved_expr(node.value, id),
        span: node.span,
    }
}

pub open spec fn moved_match_case(node: MatchCaseView, id: DocumentId) -> MatchCaseView
    decreases node,
{
    MatchCaseView {
        pattern: moved_pattern(node.pattern, id),
        body: moved_exprs(node.body, id),
        span: node.span,
    }
}

pub open spec fn moved_pattern_field(node: PatternFieldView, id: DocumentId) -> PatternFieldView
    decreases node,
{
    PatternFieldView {
        name: moved_mark(node.name, id),
        pattern: moved_pattern(node.pattern, id),
        span: node.span,
    }
}

pub open spec fn moved_type_parameter(node: TypeParameterView, id: DocumentId) -> TypeParameterView
    decreases node,
{
    TypeParameterView {
        name: moved_mark(node.name, id),
        bounds: moved_type_exprs(node.bounds, id),
        span: node.span,
    }
}

pub open spec fn moved_top_level(value: TopLevelView, id: DocumentId) -> TopLevelView
    decreases value,
{
    match value {
        TopLevelView::Import(value) => TopLevelView::Import(moved_import(value, id)),
        TopLevelView::Definition(value) => TopLevelView::Definition(moved_definition(value, id)),
        TopLevelView::Constant(value) => TopLevelView::Constant(moved_constant(value, id)),
        TopLevelView::Function(value) => TopLevelView::Function(moved_function(value, id)),
        TopLevelView::Macro(value) => TopLevelView::Macro(moved_macro(value, id)),
        TopLevelView::Test(value) => TopLevelView::Test(moved_test(value, id)),
    }
}

pub open spec fn moved_macro_expr_kind(value: MacroExprKindView, id: DocumentId) -> MacroExprKindView
    decreases value,
{
    match value {
        MacroExprKindView::Atom(value) => MacroExprKindView::Atom(value),
        MacroExprKindView::Let { name, value } => MacroExprKindView::Let {
            name: moved_mark(name, id),
            value: Box::new(moved_macro_expr(*value, id)),
        },
        MacroExprKindView::If { condition, then_body, else_body } => MacroExprKindView::If {
            condition: Box::new(moved_macro_expr(*condition, id)),
            then_body: moved_macro_exprs(then_body, id),
            else_body: moved_macro_exprs(else_body, id),
        },
        MacroExprKindView::Quote { category, form } => MacroExprKindView::Quote {
            category: moved_mark(category, id),
            form,
        },
        MacroExprKindView::Unquote(value) => MacroExprKindView::Unquote(moved_mark(value, id)),
        MacroExprKindView::Splice(value) => MacroExprKindView::Splice(moved_mark(value, id)),
        MacroExprKindView::Capture(value) => MacroExprKindView::Capture(moved_mark(value, id)),
    }
}

pub open spec fn moved_test_meta(value: TestMetaView, id: DocumentId) -> TestMetaView
    decreases value,
{
    match value {
        TestMetaView::Tags(value) => TestMetaView::Tags(moved_marks(value, id)),
        TestMetaView::ExpectError { phase, code, message } => TestMetaView::ExpectError {
            phase: moved_mark(phase, id),
            code: moved_mark(code, id),
            message: match message { Some(inner) => Some(moved_mark(inner, id)),
            None => None },
        },
        TestMetaView::Clock { mode, millis } => TestMetaView::Clock {
            mode: moved_mark(mode, id),
            millis: moved_mark(millis, id),
        },
        TestMetaView::Benchmark(value) => TestMetaView::Benchmark(value),
        TestMetaView::Workspace(value) => TestMetaView::Workspace(moved_mark(value, id)),
    }
}

pub open spec fn moved_type_expr_kind(value: TypeExprKindView, id: DocumentId) -> TypeExprKindView
    decreases value,
{
    match value {
        TypeExprKindView::Named(value) => TypeExprKindView::Named(value),
        TypeExprKindView::Application { constructor, arguments } => TypeExprKindView::Application {
            constructor: moved_mark(constructor, id),
            arguments: moved_type_exprs(arguments, id),
        },
        TypeExprKindView::Record(value) => TypeExprKindView::Record(moved_type_members(value, id)),
        TypeExprKindView::Tuple(value) => TypeExprKindView::Tuple(moved_type_exprs(value, id)),
        TypeExprKindView::Array(value) => TypeExprKindView::Array(Box::new(moved_type_expr(*value, id))),
        TypeExprKindView::Mapping(first, second) => TypeExprKindView::Mapping(
            Box::new(moved_type_expr(*first, id)),
            Box::new(moved_type_expr(*second, id)),
        ),
        TypeExprKindView::Union(value) => TypeExprKindView::Union(moved_type_exprs(value, id)),
        TypeExprKindView::Enum(value) => TypeExprKindView::Enum(moved_type_members(value, id)),
        TypeExprKindView::Interface(value) => TypeExprKindView::Interface(moved_type_members(value, id)),
        TypeExprKindView::Function { parameters, result } => TypeExprKindView::Function {
            parameters: moved_type_exprs(parameters, id),
            result: Box::new(moved_type_expr(*result, id)),
        },
        TypeExprKindView::Newtype(value) => TypeExprKindView::Newtype(Box::new(moved_type_expr(*value, id))),
        TypeExprKindView::Mutable(value) => TypeExprKindView::Mutable(Box::new(moved_type_expr(*value, id))),
        TypeExprKindView::Reference(value) => TypeExprKindView::Reference(Box::new(moved_type_expr(*value, id))),
        TypeExprKindView::MutableReference(value) => TypeExprKindView::MutableReference(
            Box::new(moved_type_expr(*value, id)),
        ),
        TypeExprKindView::Intersect(value) => TypeExprKindView::Intersect(moved_type_exprs(value, id)),
        TypeExprKindView::Domain { head, arguments } => TypeExprKindView::Domain {
            head: moved_mark(head, id),
            arguments: moved_type_exprs(arguments, id),
        },
    }
}

pub open spec fn moved_expr_kind(value: ExprKindView, id: DocumentId) -> ExprKindView
    decreases value,
{
    match value {
        ExprKindView::Literal(value) => ExprKindView::Literal(value),
        ExprKindView::Reference(value) => ExprKindView::Reference(value),
        ExprKindView::Call { callee, arguments } => ExprKindView::Call {
            callee: moved_mark(callee, id),
            arguments: moved_exprs(arguments, id),
        },
        ExprKindView::Do(value) => ExprKindView::Do(moved_exprs(value, id)),
        ExprKindView::Let { name, ty, value } => ExprKindView::Let {
            name: moved_mark(name, id),
            ty: match ty { Some(inner) => Some(moved_type_expr(inner, id)),
            None => None }, value: Box::new(moved_expr(*value,
            id)),
        },
        ExprKindView::Assign { name, value } => ExprKindView::Assign {
            name: moved_mark(name, id),
            value: Box::new(moved_expr(*value, id)),
        },
        ExprKindView::Return(value) => ExprKindView::Return(
            match value { Some(inner) => Some(Box::new(moved_expr(*inner, id))),
            None => None },
        ),
        ExprKindView::If { condition, then_body, else_body } => ExprKindView::If {
            condition: Box::new(moved_expr(*condition, id)),
            then_body: moved_exprs(then_body, id),
            else_body: moved_exprs(else_body, id),
        },
        ExprKindView::While { condition, body } => ExprKindView::While {
            condition: Box::new(moved_expr(*condition, id)),
            body: moved_exprs(body, id),
        },
        ExprKindView::For { binding, source, body } => ExprKindView::For {
            binding: moved_mark(binding, id),
            source: Box::new(moved_expr(*source, id)),
            body: moved_exprs(body, id),
        },
        ExprKindView::Match { target, cases } => ExprKindView::Match {
            target: Box::new(moved_expr(*target, id)),
            cases: moved_match_cases(cases, id),
        },
        ExprKindView::Break => ExprKindView::Break,
        ExprKindView::Continue => ExprKindView::Continue,
        ExprKindView::Record(value) => ExprKindView::Record(moved_expr_fields(value, id)),
        ExprKindView::Tuple(value) => ExprKindView::Tuple(moved_exprs(value, id)),
        ExprKindView::Array(value) => ExprKindView::Array(moved_exprs(value, id)),
        ExprKindView::Mapping(value) => ExprKindView::Mapping(moved_expr_pairs(value, id)),
        ExprKindView::Mutable(value) => ExprKindView::Mutable(Box::new(moved_expr(*value, id))),
        ExprKindView::ReferenceOf(value) => ExprKindView::ReferenceOf(Box::new(moved_expr(*value, id))),
        ExprKindView::Range(first, second, third) => ExprKindView::Range(
            Box::new(moved_expr(*first, id)),
            Box::new(moved_expr(*second, id)),
            Box::new(moved_expr(*third, id)),
        ),
        ExprKindView::Convert { value, into, fallback } => ExprKindView::Convert {
            value: Box::new(moved_expr(*value, id)),
            into: moved_type_expr(into, id),
            fallback,
        },
        ExprKindView::Cast { value, into } => ExprKindView::Cast {
            value: Box::new(moved_expr(*value, id)),
            into: moved_type_expr(into, id),
        },
        ExprKindView::Task { captures, body } => ExprKindView::Task {
            captures: moved_marks(captures, id),
            body: moved_exprs(body, id),
        },
        ExprKindView::Spawn { handle, captures, value } => ExprKindView::Spawn {
            handle: moved_mark(handle, id),
            captures: moved_marks(captures, id),
            value: Box::new(moved_expr(*value, id)),
        },
        ExprKindView::Join { handle, binding } => ExprKindView::Join {
            handle: moved_mark(handle, id),
            binding: moved_mark(binding, id),
        },
    }
}

pub open spec fn moved_pattern_kind(value: PatternKindView, id: DocumentId) -> PatternKindView
    decreases value,
{
    match value {
        PatternKindView::Literal(value) => PatternKindView::Literal(value),
        PatternKindView::Wildcard => PatternKindView::Wildcard,
        PatternKindView::Bind(value) => PatternKindView::Bind(moved_mark(value, id)),
        PatternKindView::Constructor { constructor, arguments } => PatternKindView::Constructor {
            constructor: moved_mark(constructor, id),
            arguments: moved_patterns(arguments, id),
        },
        PatternKindView::Record(value) => PatternKindView::Record(moved_pattern_fields(value, id)),
        PatternKindView::Tuple(value) => PatternKindView::Tuple(moved_patterns(value, id)),
        PatternKindView::Array(value) => PatternKindView::Array(moved_patterns(value, id)),
        PatternKindView::Mapping(value) => PatternKindView::Mapping(moved_pattern_pairs(value, id)),
        PatternKindView::Newtype { ty, pattern } => PatternKindView::Newtype {
            ty: moved_type_expr(ty, id),
            pattern: Box::new(moved_pattern(*pattern, id)),
        },
        PatternKindView::Interface { ty, pattern } => PatternKindView::Interface {
            ty: moved_type_expr(ty, id),
            pattern: Box::new(moved_pattern(*pattern, id)),
        },
    }
}

pub open spec fn moved_annotation_kind(value: AnnotationKindView, id: DocumentId) -> AnnotationKindView
    decreases value,
{
    match value {
        AnnotationKindView::Doc(value) => AnnotationKindView::Doc(value),
        AnnotationKindView::Where(value) => AnnotationKindView::Where(moved_type_parameters(value, id)),
        AnnotationKindView::Definitions(value) => AnnotationKindView::Definitions(moved_functions(value, id)),
        AnnotationKindView::Implementation { interface, items } => AnnotationKindView::Implementation {
            interface: moved_type_expr(interface, id),
            items: moved_impl_items(items, id),
        },
    }
}

pub open spec fn moved_impl_item(value: ImplItemView, id: DocumentId) -> ImplItemView
    decreases value,
{
    match value {
        ImplItemView::Types(value) => ImplItemView::Types(moved_type_exprs(value, id)),
        ImplItemView::Method { name, binding, span } => ImplItemView::Method {
            name: moved_mark(name, id),
            binding: moved_method_binding(binding, id),
            span,
        },
    }
}

pub open spec fn moved_method_binding(value: MethodBindingView, id: DocumentId) -> MethodBindingView
    decreases value,
{
    match value {
        MethodBindingView::Reference(value) => MethodBindingView::Reference(moved_mark(value, id)),
        MethodBindingView::Function(value) => MethodBindingView::Function(moved_function(value, id)),
    }
}

pub open spec fn moved_expr_pair(pair: (ExprView, ExprView), id: DocumentId) -> (ExprView, ExprView)
    decreases pair,
{
    (moved_expr(pair.0, id), moved_expr(pair.1, id))
}

pub open spec fn moved_pattern_pair(pair: (PatternView, PatternView), id: DocumentId) -> (PatternView, PatternView)
    decreases pair,
{
    (moved_pattern(pair.0, id), moved_pattern(pair.1, id))
}

pub open spec fn moved_top_levels(nodes: Seq<TopLevelView>, id: DocumentId) -> Seq<TopLevelView>
    decreases nodes,
{
    Seq::new(nodes.len(), |i: int| if 0 <= i < nodes.len() { moved_top_level(nodes[i], id) } else { arbitrary() })
}

pub open spec fn moved_annotations(nodes: Seq<AnnotationView>, id: DocumentId) -> Seq<AnnotationView>
    decreases nodes,
{
    Seq::new(nodes.len(), |i: int| if 0 <= i < nodes.len() { moved_annotation(nodes[i], id) } else { arbitrary() })
}

pub open spec fn moved_parameters(nodes: Seq<ParameterView>, id: DocumentId) -> Seq<ParameterView>
    decreases nodes,
{
    Seq::new(nodes.len(), |i: int| if 0 <= i < nodes.len() { moved_parameter(nodes[i], id) } else { arbitrary() })
}

pub open spec fn moved_exprs(nodes: Seq<ExprView>, id: DocumentId) -> Seq<ExprView>
    decreases nodes,
{
    Seq::new(nodes.len(), |i: int| if 0 <= i < nodes.len() { moved_expr(nodes[i], id) } else { arbitrary() })
}

pub open spec fn moved_macro_parameters(nodes: Seq<MacroParameterView>, id: DocumentId) -> Seq<MacroParameterView>
    decreases nodes,
{
    Seq::new(nodes.len(), |i: int| if 0 <= i < nodes.len() { moved_macro_parameter(nodes[i], id) } else { arbitrary() })
}

pub open spec fn moved_macro_exprs(nodes: Seq<MacroExprView>, id: DocumentId) -> Seq<MacroExprView>
    decreases nodes,
{
    Seq::new(nodes.len(), |i: int| if 0 <= i < nodes.len() { moved_macro_expr(nodes[i], id) } else { arbitrary() })
}

pub open spec fn moved_test_metas(nodes: Seq<TestMetaView>, id: DocumentId) -> Seq<TestMetaView>
    decreases nodes,
{
    Seq::new(nodes.len(), |i: int| if 0 <= i < nodes.len() { moved_test_meta(nodes[i], id) } else { arbitrary() })
}

pub open spec fn moved_type_exprs(nodes: Seq<TypeExprView>, id: DocumentId) -> Seq<TypeExprView>
    decreases nodes,
{
    Seq::new(nodes.len(), |i: int| if 0 <= i < nodes.len() { moved_type_expr(nodes[i], id) } else { arbitrary() })
}

pub open spec fn moved_marks(nodes: Seq<NameView>, id: DocumentId) -> Seq<NameView>
    decreases nodes,
{
    Seq::new(nodes.len(), |i: int| if 0 <= i < nodes.len() { moved_mark(nodes[i], id) } else { arbitrary() })
}

pub open spec fn moved_type_members(nodes: Seq<TypeMemberView>, id: DocumentId) -> Seq<TypeMemberView>
    decreases nodes,
{
    Seq::new(nodes.len(), |i: int| if 0 <= i < nodes.len() { moved_type_member(nodes[i], id) } else { arbitrary() })
}

pub open spec fn moved_match_cases(nodes: Seq<MatchCaseView>, id: DocumentId) -> Seq<MatchCaseView>
    decreases nodes,
{
    Seq::new(nodes.len(), |i: int| if 0 <= i < nodes.len() { moved_match_case(nodes[i], id) } else { arbitrary() })
}

pub open spec fn moved_expr_fields(nodes: Seq<ExprFieldView>, id: DocumentId) -> Seq<ExprFieldView>
    decreases nodes,
{
    Seq::new(nodes.len(), |i: int| if 0 <= i < nodes.len() { moved_expr_field(nodes[i], id) } else { arbitrary() })
}

pub open spec fn moved_expr_pairs(nodes: Seq<(ExprView, ExprView)>, id: DocumentId) -> Seq<(ExprView, ExprView)>
    decreases nodes,
{
    Seq::new(nodes.len(), |i: int| if 0 <= i < nodes.len() { moved_expr_pair(nodes[i], id) } else { arbitrary() })
}

pub open spec fn moved_patterns(nodes: Seq<PatternView>, id: DocumentId) -> Seq<PatternView>
    decreases nodes,
{
    Seq::new(nodes.len(), |i: int| if 0 <= i < nodes.len() { moved_pattern(nodes[i], id) } else { arbitrary() })
}

pub open spec fn moved_pattern_fields(nodes: Seq<PatternFieldView>, id: DocumentId) -> Seq<PatternFieldView>
    decreases nodes,
{
    Seq::new(nodes.len(), |i: int| if 0 <= i < nodes.len() { moved_pattern_field(nodes[i], id) } else { arbitrary() })
}

pub open spec fn moved_pattern_pairs(
    nodes: Seq<(PatternView, PatternView)>,
    id: DocumentId,
) -> Seq<(PatternView, PatternView)>
    decreases nodes,
{
    Seq::new(nodes.len(), |i: int| if 0 <= i < nodes.len() { moved_pattern_pair(nodes[i], id) } else { arbitrary() })
}

pub open spec fn moved_type_parameters(nodes: Seq<TypeParameterView>, id: DocumentId) -> Seq<TypeParameterView>
    decreases nodes,
{
    Seq::new(nodes.len(), |i: int| if 0 <= i < nodes.len() { moved_type_parameter(nodes[i], id) } else { arbitrary() })
}

pub open spec fn moved_functions(nodes: Seq<FunctionView>, id: DocumentId) -> Seq<FunctionView>
    decreases nodes,
{
    Seq::new(nodes.len(), |i: int| if 0 <= i < nodes.len() { moved_function(nodes[i], id) } else { arbitrary() })
}

pub open spec fn moved_impl_items(nodes: Seq<ImplItemView>, id: DocumentId) -> Seq<ImplItemView>
    decreases nodes,
{
    Seq::new(nodes.len(), |i: int| if 0 <= i < nodes.len() { moved_impl_item(nodes[i], id) } else { arbitrary() })
}

proof fn lemma_moved_top_levels_push(nodes: Seq<TopLevelView>, node: TopLevelView, id: DocumentId)
    ensures
        moved_top_levels(nodes.push(node), id) == moved_top_levels(nodes, id).push(moved_top_level(node, id)),
{
    assert(moved_top_levels(nodes.push(node), id) =~= moved_top_levels(nodes, id).push(moved_top_level(node, id)));
}

proof fn lemma_moved_annotations_push(nodes: Seq<AnnotationView>, node: AnnotationView, id: DocumentId)
    ensures
        moved_annotations(nodes.push(node), id) == moved_annotations(nodes, id).push(moved_annotation(node, id)),
{
    assert(moved_annotations(nodes.push(node), id) =~= moved_annotations(nodes, id).push(moved_annotation(node, id)));
}

proof fn lemma_moved_parameters_push(nodes: Seq<ParameterView>, node: ParameterView, id: DocumentId)
    ensures
        moved_parameters(nodes.push(node), id) == moved_parameters(nodes, id).push(moved_parameter(node, id)),
{
    assert(moved_parameters(nodes.push(node), id) =~= moved_parameters(nodes, id).push(moved_parameter(node, id)));
}

proof fn lemma_moved_exprs_push(nodes: Seq<ExprView>, node: ExprView, id: DocumentId)
    ensures
        moved_exprs(nodes.push(node), id) == moved_exprs(nodes, id).push(moved_expr(node, id)),
{
    assert(moved_exprs(nodes.push(node), id) =~= moved_exprs(nodes, id).push(moved_expr(node, id)));
}

proof fn lemma_moved_macro_parameters_push(nodes: Seq<MacroParameterView>, node: MacroParameterView, id: DocumentId)
    ensures
        moved_macro_parameters(nodes.push(node), id) == moved_macro_parameters(nodes, id).push(
            moved_macro_parameter(node, id),
        ),
{
    assert(moved_macro_parameters(nodes.push(node), id) =~= moved_macro_parameters(nodes, id).push(
        moved_macro_parameter(node, id),
    ));
}

proof fn lemma_moved_macro_exprs_push(nodes: Seq<MacroExprView>, node: MacroExprView, id: DocumentId)
    ensures
        moved_macro_exprs(nodes.push(node), id) == moved_macro_exprs(nodes, id).push(moved_macro_expr(node, id)),
{
    assert(moved_macro_exprs(nodes.push(node), id) =~= moved_macro_exprs(nodes, id).push(moved_macro_expr(node, id)));
}

proof fn lemma_moved_test_metas_push(nodes: Seq<TestMetaView>, node: TestMetaView, id: DocumentId)
    ensures
        moved_test_metas(nodes.push(node), id) == moved_test_metas(nodes, id).push(moved_test_meta(node, id)),
{
    assert(moved_test_metas(nodes.push(node), id) =~= moved_test_metas(nodes, id).push(moved_test_meta(node, id)));
}

proof fn lemma_moved_type_exprs_push(nodes: Seq<TypeExprView>, node: TypeExprView, id: DocumentId)
    ensures
        moved_type_exprs(nodes.push(node), id) == moved_type_exprs(nodes, id).push(moved_type_expr(node, id)),
{
    assert(moved_type_exprs(nodes.push(node), id) =~= moved_type_exprs(nodes, id).push(moved_type_expr(node, id)));
}

proof fn lemma_moved_marks_push(nodes: Seq<NameView>, node: NameView, id: DocumentId)
    ensures
        moved_marks(nodes.push(node), id) == moved_marks(nodes, id).push(moved_mark(node, id)),
{
    assert(moved_marks(nodes.push(node), id) =~= moved_marks(nodes, id).push(moved_mark(node, id)));
}

proof fn lemma_moved_type_members_push(nodes: Seq<TypeMemberView>, node: TypeMemberView, id: DocumentId)
    ensures
        moved_type_members(nodes.push(node), id) == moved_type_members(nodes, id).push(moved_type_member(node, id)),
{
    assert(moved_type_members(nodes.push(node), id) =~= moved_type_members(nodes, id).push(
        moved_type_member(node, id),
    ));
}

proof fn lemma_moved_match_cases_push(nodes: Seq<MatchCaseView>, node: MatchCaseView, id: DocumentId)
    ensures
        moved_match_cases(nodes.push(node), id) == moved_match_cases(nodes, id).push(moved_match_case(node, id)),
{
    assert(moved_match_cases(nodes.push(node), id) =~= moved_match_cases(nodes, id).push(moved_match_case(node, id)));
}

proof fn lemma_moved_expr_fields_push(nodes: Seq<ExprFieldView>, node: ExprFieldView, id: DocumentId)
    ensures
        moved_expr_fields(nodes.push(node), id) == moved_expr_fields(nodes, id).push(moved_expr_field(node, id)),
{
    assert(moved_expr_fields(nodes.push(node), id) =~= moved_expr_fields(nodes, id).push(moved_expr_field(node, id)));
}

proof fn lemma_moved_expr_pairs_push(nodes: Seq<(ExprView, ExprView)>, node: (ExprView, ExprView), id: DocumentId)
    ensures
        moved_expr_pairs(nodes.push(node), id) == moved_expr_pairs(nodes, id).push(moved_expr_pair(node, id)),
{
    assert(moved_expr_pairs(nodes.push(node), id) =~= moved_expr_pairs(nodes, id).push(moved_expr_pair(node, id)));
}

proof fn lemma_moved_patterns_push(nodes: Seq<PatternView>, node: PatternView, id: DocumentId)
    ensures
        moved_patterns(nodes.push(node), id) == moved_patterns(nodes, id).push(moved_pattern(node, id)),
{
    assert(moved_patterns(nodes.push(node), id) =~= moved_patterns(nodes, id).push(moved_pattern(node, id)));
}

proof fn lemma_moved_pattern_fields_push(nodes: Seq<PatternFieldView>, node: PatternFieldView, id: DocumentId)
    ensures
        moved_pattern_fields(nodes.push(node), id) == moved_pattern_fields(nodes, id).push(
            moved_pattern_field(node, id),
        ),
{
    assert(moved_pattern_fields(nodes.push(node), id) =~= moved_pattern_fields(nodes, id).push(
        moved_pattern_field(node, id),
    ));
}

proof fn lemma_moved_pattern_pairs_push(
    nodes: Seq<(PatternView, PatternView)>,
    node: (PatternView, PatternView),
    id: DocumentId,
)
    ensures
        moved_pattern_pairs(nodes.push(node), id) == moved_pattern_pairs(nodes, id).push(moved_pattern_pair(node, id)),
{
    assert(moved_pattern_pairs(nodes.push(node), id) =~= moved_pattern_pairs(nodes, id).push(
        moved_pattern_pair(node, id),
    ));
}

proof fn lemma_moved_type_parameters_push(nodes: Seq<TypeParameterView>, node: TypeParameterView, id: DocumentId)
    ensures
        moved_type_parameters(nodes.push(node), id) == moved_type_parameters(nodes, id).push(
            moved_type_parameter(node, id),
        ),
{
    assert(moved_type_parameters(nodes.push(node), id) =~= moved_type_parameters(nodes, id).push(
        moved_type_parameter(node, id),
    ));
}

proof fn lemma_moved_functions_push(nodes: Seq<FunctionView>, node: FunctionView, id: DocumentId)
    ensures
        moved_functions(nodes.push(node), id) == moved_functions(nodes, id).push(moved_function(node, id)),
{
    assert(moved_functions(nodes.push(node), id) =~= moved_functions(nodes, id).push(moved_function(node, id)));
}

proof fn lemma_moved_impl_items_push(nodes: Seq<ImplItemView>, node: ImplItemView, id: DocumentId)
    ensures
        moved_impl_items(nodes.push(node), id) == moved_impl_items(nodes, id).push(moved_impl_item(node, id)),
{
    assert(moved_impl_items(nodes.push(node), id) =~= moved_impl_items(nodes, id).push(moved_impl_item(node, id)));
}

proof fn lemma_name(node: NodeView, a: DocumentId, b: DocumentId)
    ensures
        grammar::name(node, b) == (match grammar::name(node, a) {
            Ok(value) => Ok(moved_mark(value, b)),
            Err(error) => Err(error),
        }),
{

}

proof fn lemma_label(node: NodeView, a: DocumentId, b: DocumentId)
    ensures
        grammar::label(node, b) == (match grammar::label(node, a) {
            Ok(value) => Ok(moved_mark(value, b)),
            Err(error) => Err(error),
        }),
{

}

proof fn lemma_string(node: NodeView, a: DocumentId, b: DocumentId)
    ensures
        grammar::string(node, b) == (match grammar::string(node, a) {
            Ok(value) => Ok(moved_mark(value, b)),
            Err(error) => Err(error),
        }),
{

}

proof fn lemma_integer(node: NodeView, a: DocumentId, b: DocumentId)
    ensures
        grammar::integer(node, b) == (match grammar::integer(node, a) {
            Ok(value) => Ok(moved_mark(value, b)),
            Err(error) => Err(error),
        }),
{

}

proof fn lemma_head(node: NodeView, a: DocumentId, b: DocumentId)
    ensures
        grammar::head(node, b) == (match grammar::head(node, a) {
            Ok(value) => Ok(moved_mark(value, b)),
            Err(error) => Err(error),
        }),
{
    let items = syntax::items(node);
    lemma_name(items[0], a, b);
}

proof fn lemma_fixed_head(node: NodeView, expected: Seq<char>, a: DocumentId, b: DocumentId)
    ensures
        grammar::fixed_head(node, expected, b) == (match grammar::fixed_head(node, expected, a) {
            Ok(value) => Ok(moved_mark(value, b)),
            Err(error) => Err(error),
        }),
{
    lemma_head(node, a, b);
}

proof fn lemma_names(owner: NodeView, from: int, done: Seq<NameView>, a: DocumentId, b: DocumentId)
    ensures
        grammar::names(owner, from, moved_marks(done, b), b) == (match grammar::names(owner, from, done, a) {
            Ok(value) => Ok(moved_marks(value, b)),
            Err(error) => Err(error),
        }),
    decreases syntax::items(owner).len() - from,
{
    if 0 <= from < syntax::items(owner).len() {
        lemma_name(syntax::items(owner)[from], a, b);
        match grammar::name(syntax::items(owner)[from], a) {
            Ok(value) => {
                lemma_moved_marks_push(done, value, b);
                lemma_names(owner, from + 1, done.push(value), a, b);
            }
            Err(_) => {}
        }
    }
}

proof fn lemma_captures(node: NodeView, a: DocumentId, b: DocumentId)
    ensures
        grammar::captures(node, b) == (match grammar::captures(node, a) {
            Ok(value) => Ok(moved_marks(value, b)),
            Err(error) => Err(error),
        }),
{
    lemma_fixed_head(node, "captures"@, a, b);
    lemma_names(node, 1, Seq::empty(), a, b);
    assert(moved_marks(Seq::empty(), b) =~= Seq::<NameView>::empty());
}

proof fn lemma_type_expr(node: NodeView, a: DocumentId, b: DocumentId)
    ensures
        grammar::type_expr(node, b) == (match grammar::type_expr(node, a) {
            Ok(value) => Ok(moved_type_expr(value, b)),
            Err(error) => Err(error),
        }),
    decreases node, 2int, 0int,
{
    lemma_head(node, a, b);
    if grammar::head(node, a) is Ok {
        lemma_type_form(node, grammar::head(node, a)->Ok_0, a, b);
    }
}

proof fn lemma_type_form(node: NodeView, head: NameView, a: DocumentId, b: DocumentId)
    ensures
        grammar::type_form(node, moved_mark(head, b), b) == (match grammar::type_form(node, head, a) {
            Ok(value) => Ok(moved_type_expr_kind(value, b)),
            Err(error) => Err(error),
        }),
    decreases node, 1int, 0int,
{
    let items = syntax::items(node);
    lemma_type_members(node, 1, Seq::empty(), a, b);
    lemma_type_exprs(node, 1, Seq::empty(), a, b);
    if items.len() > 1 {
        lemma_type_expr(items[1], a, b);
    }
    if items.len() > 2 {
        lemma_type_expr(items[2], a, b);
    }
    if items.len() > 1 {
        lemma_type_exprs(items[1], 0, Seq::empty(), a, b);
    }
    assert(moved_type_exprs(Seq::empty(), b) =~= Seq::<TypeExprView>::empty());
    assert(moved_type_members(Seq::empty(), b) =~= Seq::<TypeMemberView>::empty());
}

proof fn lemma_type_exprs(owner: NodeView, from: int, done: Seq<TypeExprView>, a: DocumentId, b: DocumentId)
    ensures
        grammar::type_exprs(owner, from, moved_type_exprs(done, b), b) == (match grammar::type_exprs(
            owner,
            from,
            done,
            a,
        ) {
            Ok(value) => Ok(moved_type_exprs(value, b)),
            Err(error) => Err(error),
        }),
    decreases owner, 0int, syntax::items(owner).len() - from,
{
    if 0 <= from < syntax::items(owner).len() {
        lemma_type_expr(syntax::items(owner)[from], a, b);
        match grammar::type_expr(syntax::items(owner)[from], a) {
            Ok(value) => {
                lemma_moved_type_exprs_push(done, value, b);
                lemma_type_exprs(owner, from + 1, done.push(value), a, b);
            }
            Err(_) => {}
        }
    }
}

proof fn lemma_type_members(owner: NodeView, from: int, done: Seq<TypeMemberView>, a: DocumentId, b: DocumentId)
    ensures
        grammar::type_members(owner, from, moved_type_members(done, b), b) == (match grammar::type_members(
            owner,
            from,
            done,
            a,
        ) {
            Ok(value) => Ok(moved_type_members(value, b)),
            Err(error) => Err(error),
        }),
    decreases owner, 0int, syntax::items(owner).len() - from,
{
    if 0 <= from < syntax::items(owner).len() {
        lemma_type_member(syntax::items(owner)[from], a, b);
        match grammar::type_member(syntax::items(owner)[from], a) {
            Ok(value) => {
                lemma_moved_type_members_push(done, value, b);
                lemma_type_members(owner, from + 1, done.push(value), a, b);
            }
            Err(_) => {}
        }
    }
}

proof fn lemma_type_member(node: NodeView, a: DocumentId, b: DocumentId)
    ensures
        grammar::type_member(node, b) == (match grammar::type_member(node, a) {
            Ok(value) => Ok(moved_type_member(value, b)),
            Err(error) => Err(error),
        }),
    decreases node, 1int, 0int,
{
    let items = syntax::items(node);
    if items.len() > 0 {
        lemma_name(items[0], a, b);
    }
    if items.len() > 1 {
        lemma_type_expr(items[1], a, b);
    }
}

proof fn lemma_pattern(node: NodeView, a: DocumentId, b: DocumentId)
    ensures
        grammar::pattern(node, b) == (match grammar::pattern(node, a) {
            Ok(value) => Ok(moved_pattern(value, b)),
            Err(error) => Err(error),
        }),
    decreases node, 2int, 0int,
{
    lemma_head(node, a, b);
    if grammar::head(node, a) is Ok {
        lemma_pattern_form(node, grammar::head(node, a)->Ok_0, a, b);
    }
    assert(moved_patterns(Seq::empty(), b) =~= Seq::<PatternView>::empty());
}

proof fn lemma_pattern_form(node: NodeView, head: NameView, a: DocumentId, b: DocumentId)
    ensures
        grammar::pattern_form(node, moved_mark(head, b), b) == (match grammar::pattern_form(node, head, a) {
            Ok(value) => Ok(moved_pattern_kind(value, b)),
            Err(error) => Err(error),
        }),
    decreases node, 1int, 0int,
{
    let items = syntax::items(node);
    if items.len() > 1 {
        lemma_name(items[1], a, b);
    }
    lemma_pattern_fields(node, 1, Seq::empty(), a, b);
    lemma_patterns(node, 1, Seq::empty(), a, b);
    lemma_pattern_pairs(node, 1, Seq::empty(), a, b);
    if items.len() > 1 {
        lemma_type_expr(items[1], a, b);
    }
    if items.len() > 2 {
        lemma_pattern(items[2], a, b);
    }
    assert(moved_pattern_pairs(Seq::empty(), b) =~= Seq::<(PatternView, PatternView)>::empty());
    assert(moved_pattern_fields(Seq::empty(), b) =~= Seq::<PatternFieldView>::empty());
    assert(moved_patterns(Seq::empty(), b) =~= Seq::<PatternView>::empty());
}

proof fn lemma_patterns(owner: NodeView, from: int, done: Seq<PatternView>, a: DocumentId, b: DocumentId)
    ensures
        grammar::patterns(owner, from, moved_patterns(done, b), b) == (match grammar::patterns(owner, from, done, a) {
            Ok(value) => Ok(moved_patterns(value, b)),
            Err(error) => Err(error),
        }),
    decreases owner, 0int, syntax::items(owner).len() - from,
{
    if 0 <= from < syntax::items(owner).len() {
        lemma_pattern(syntax::items(owner)[from], a, b);
        match grammar::pattern(syntax::items(owner)[from], a) {
            Ok(value) => {
                lemma_moved_patterns_push(done, value, b);
                lemma_patterns(owner, from + 1, done.push(value), a, b);
            }
            Err(_) => {}
        }
    }
}

proof fn lemma_pattern_fields(owner: NodeView, from: int, done: Seq<PatternFieldView>, a: DocumentId, b: DocumentId)
    ensures
        grammar::pattern_fields(owner, from, moved_pattern_fields(done, b), b) == (match grammar::pattern_fields(
            owner,
            from,
            done,
            a,
        ) {
            Ok(value) => Ok(moved_pattern_fields(value, b)),
            Err(error) => Err(error),
        }),
    decreases owner, 0int, syntax::items(owner).len() - from,
{
    if 0 <= from < syntax::items(owner).len() {
        lemma_pattern_field(syntax::items(owner)[from], a, b);
        match grammar::pattern_field(syntax::items(owner)[from], a) {
            Ok(value) => {
                lemma_moved_pattern_fields_push(done, value, b);
                lemma_pattern_fields(owner, from + 1, done.push(value), a, b);
            }
            Err(_) => {}
        }
    }
}

proof fn lemma_pattern_field(node: NodeView, a: DocumentId, b: DocumentId)
    ensures
        grammar::pattern_field(node, b) == (match grammar::pattern_field(node, a) {
            Ok(value) => Ok(moved_pattern_field(value, b)),
            Err(error) => Err(error),
        }),
    decreases node, 1int, 0int,
{
    let items = syntax::items(node);
    if items.len() > 0 {
        lemma_name(items[0], a, b);
    }
    if items.len() > 1 {
        lemma_pattern(items[1], a, b);
    }
}

proof fn lemma_pattern_pairs(
    owner: NodeView,
    from: int,
    done: Seq<(PatternView, PatternView)>,
    a: DocumentId,
    b: DocumentId,
)
    ensures
        grammar::pattern_pairs(owner, from, moved_pattern_pairs(done, b), b) == (match grammar::pattern_pairs(
            owner,
            from,
            done,
            a,
        ) {
            Ok(value) => Ok(moved_pattern_pairs(value, b)),
            Err(error) => Err(error),
        }),
    decreases owner, 0int, syntax::items(owner).len() - from,
{
    if 0 <= from < syntax::items(owner).len() {
        lemma_pattern_pair(syntax::items(owner)[from], a, b);
        match grammar::pattern_pair(syntax::items(owner)[from], a) {
            Ok(value) => {
                lemma_moved_pattern_pairs_push(done, value, b);
                lemma_pattern_pairs(owner, from + 1, done.push(value), a, b);
            }
            Err(_) => {}
        }
    }
}

proof fn lemma_pattern_pair(node: NodeView, a: DocumentId, b: DocumentId)
    ensures
        grammar::pattern_pair(node, b) == (match grammar::pattern_pair(node, a) {
            Ok(value) => Ok(moved_pattern_pair(value, b)),
            Err(error) => Err(error),
        }),
    decreases node, 1int, 0int,
{
    let items = syntax::items(node);
    if items.len() > 0 {
        lemma_pattern(items[0], a, b);
    }
    if items.len() > 1 {
        lemma_pattern(items[1], a, b);
    }
}

proof fn lemma_expr(node: NodeView, a: DocumentId, b: DocumentId)
    ensures
        grammar::expr(node, b) == (match grammar::expr(node, a) {
            Ok(value) => Ok(moved_expr(value, b)),
            Err(error) => Err(error),
        }),
    decreases node, 2int, 0int,
{
    lemma_head(node, a, b);
    if grammar::head(node, a) is Ok {
        lemma_expr_form(node, grammar::head(node, a)->Ok_0, a, b);
    }
}

proof fn lemma_expr_form(node: NodeView, head: NameView, a: DocumentId, b: DocumentId)
    ensures
        grammar::expr_form(node, moved_mark(head, b), b) == (match grammar::expr_form(node, head, a) {
            Ok(value) => Ok(moved_expr_kind(value, b)),
            Err(error) => Err(error),
        }),
    decreases node, 1int, 2int,
{
    lemma_control_form(node, head.value, a, b);
    lemma_data_form(node, head.value, a, b);
    lemma_task_form(node, head.value, a, b);
    lemma_exprs(node, 1, Seq::empty(), a, b);
    assert(moved_exprs(Seq::empty(), b) =~= Seq::<ExprView>::empty());
}

proof fn lemma_control_form(node: NodeView, form: Seq<char>, a: DocumentId, b: DocumentId)
    ensures
        grammar::control_form(node, form, b) == (match grammar::control_form(node, form, a) {
            Ok(value) => Ok(moved_expr_kind(value, b)),
            Err(error) => Err(error),
        }),
    decreases node, 1int, 1int,
{
    let items = syntax::items(node);
    lemma_exprs(node, 1, Seq::empty(), a, b);
    if items.len() > 1 {
        lemma_name(items[1], a, b);
    }
    if items.len() > 2 {
        lemma_expr(items[2], a, b);
    }
    if items.len() > 2 {
        lemma_type_expr(items[2], a, b);
    }
    if items.len() > 3 {
        lemma_expr(items[3], a, b);
    }
    if items.len() > 1 {
        lemma_expr(items[1], a, b);
    }
    if items.len() > 2 {
        lemma_body(items[2], a, b);
    }
    if items.len() > 3 {
        lemma_body(items[3], a, b);
    }
    lemma_match_cases(node, 2, Seq::empty(), a, b);
    assert(moved_exprs(Seq::empty(), b) =~= Seq::<ExprView>::empty());
    assert(moved_match_cases(Seq::empty(), b) =~= Seq::<MatchCaseView>::empty());
}

proof fn lemma_data_form(node: NodeView, form: Seq<char>, a: DocumentId, b: DocumentId)
    ensures
        grammar::data_form(node, form, b) == (match grammar::data_form(node, form, a) {
            Ok(value) => Ok(moved_expr_kind(value, b)),
            Err(error) => Err(error),
        }),
    decreases node, 1int, 1int,
{
    let items = syntax::items(node);
    lemma_expr_fields(node, 1, Seq::empty(), a, b);
    lemma_exprs(node, 1, Seq::empty(), a, b);
    lemma_expr_pairs(node, 1, Seq::empty(), a, b);
    if items.len() > 1 {
        lemma_expr(items[1], a, b);
    }
    if items.len() > 2 {
        lemma_expr(items[2], a, b);
    }
    if items.len() > 3 {
        lemma_expr(items[3], a, b);
    }
    if items.len() > 2 {
        lemma_type_expr(items[2], a, b);
    }
    assert(moved_expr_pairs(Seq::empty(), b) =~= Seq::<(ExprView, ExprView)>::empty());
    assert(moved_expr_fields(Seq::empty(), b) =~= Seq::<ExprFieldView>::empty());
    assert(moved_exprs(Seq::empty(), b) =~= Seq::<ExprView>::empty());
}

proof fn lemma_task_form(node: NodeView, form: Seq<char>, a: DocumentId, b: DocumentId)
    ensures
        grammar::task_form(node, form, b) == (match grammar::task_form(node, form, a) {
            Ok(value) => Ok(moved_expr_kind(value, b)),
            Err(error) => Err(error),
        }),
    decreases node, 1int, 1int,
{
    let items = syntax::items(node);
    if items.len() > 1 {
        lemma_captures(items[1], a, b);
    }
    if items.len() > 2 {
        lemma_body(items[2], a, b);
    }
    if items.len() > 1 {
        lemma_name(items[1], a, b);
    }
    if items.len() > 2 {
        lemma_captures(items[2], a, b);
    }
    if items.len() > 3 {
        lemma_expr(items[3], a, b);
    }
    if items.len() > 2 {
        lemma_name(items[2], a, b);
    }
}

proof fn lemma_body(node: NodeView, a: DocumentId, b: DocumentId)
    ensures
        grammar::body(node, b) == (match grammar::body(node, a) {
            Ok(value) => Ok(moved_exprs(value, b)),
            Err(error) => Err(error),
        }),
    decreases node, 1int, 0int,
{
    lemma_fixed_head(node, "do"@, a, b);
    lemma_exprs(node, 1, Seq::empty(), a, b);
    assert(moved_exprs(Seq::empty(), b) =~= Seq::<ExprView>::empty());
}

proof fn lemma_exprs(owner: NodeView, from: int, done: Seq<ExprView>, a: DocumentId, b: DocumentId)
    ensures
        grammar::exprs(owner, from, moved_exprs(done, b), b) == (match grammar::exprs(owner, from, done, a) {
            Ok(value) => Ok(moved_exprs(value, b)),
            Err(error) => Err(error),
        }),
    decreases owner, 0int, syntax::items(owner).len() - from,
{
    if 0 <= from < syntax::items(owner).len() {
        lemma_expr(syntax::items(owner)[from], a, b);
        match grammar::expr(syntax::items(owner)[from], a) {
            Ok(value) => {
                lemma_moved_exprs_push(done, value, b);
                lemma_exprs(owner, from + 1, done.push(value), a, b);
            }
            Err(_) => {}
        }
    }
}

proof fn lemma_expr_fields(owner: NodeView, from: int, done: Seq<ExprFieldView>, a: DocumentId, b: DocumentId)
    ensures
        grammar::expr_fields(owner, from, moved_expr_fields(done, b), b) == (match grammar::expr_fields(
            owner,
            from,
            done,
            a,
        ) {
            Ok(value) => Ok(moved_expr_fields(value, b)),
            Err(error) => Err(error),
        }),
    decreases owner, 0int, syntax::items(owner).len() - from,
{
    if 0 <= from < syntax::items(owner).len() {
        lemma_expr_field(syntax::items(owner)[from], a, b);
        match grammar::expr_field(syntax::items(owner)[from], a) {
            Ok(value) => {
                lemma_moved_expr_fields_push(done, value, b);
                lemma_expr_fields(owner, from + 1, done.push(value), a, b);
            }
            Err(_) => {}
        }
    }
}

proof fn lemma_expr_field(node: NodeView, a: DocumentId, b: DocumentId)
    ensures
        grammar::expr_field(node, b) == (match grammar::expr_field(node, a) {
            Ok(value) => Ok(moved_expr_field(value, b)),
            Err(error) => Err(error),
        }),
    decreases node, 1int, 0int,
{
    let items = syntax::items(node);
    if items.len() > 0 {
        lemma_name(items[0], a, b);
    }
    if items.len() > 1 {
        lemma_expr(items[1], a, b);
    }
}

proof fn lemma_expr_pairs(owner: NodeView, from: int, done: Seq<(ExprView, ExprView)>, a: DocumentId, b: DocumentId)
    ensures
        grammar::expr_pairs(owner, from, moved_expr_pairs(done, b), b) == (match grammar::expr_pairs(
            owner,
            from,
            done,
            a,
        ) {
            Ok(value) => Ok(moved_expr_pairs(value, b)),
            Err(error) => Err(error),
        }),
    decreases owner, 0int, syntax::items(owner).len() - from,
{
    if 0 <= from < syntax::items(owner).len() {
        lemma_expr_pair(syntax::items(owner)[from], a, b);
        match grammar::expr_pair(syntax::items(owner)[from], a) {
            Ok(value) => {
                lemma_moved_expr_pairs_push(done, value, b);
                lemma_expr_pairs(owner, from + 1, done.push(value), a, b);
            }
            Err(_) => {}
        }
    }
}

proof fn lemma_expr_pair(node: NodeView, a: DocumentId, b: DocumentId)
    ensures
        grammar::expr_pair(node, b) == (match grammar::expr_pair(node, a) {
            Ok(value) => Ok(moved_expr_pair(value, b)),
            Err(error) => Err(error),
        }),
    decreases node, 1int, 0int,
{
    let items = syntax::items(node);
    if items.len() > 0 {
        lemma_expr(items[0], a, b);
    }
    if items.len() > 1 {
        lemma_expr(items[1], a, b);
    }
}

proof fn lemma_match_cases(owner: NodeView, from: int, done: Seq<MatchCaseView>, a: DocumentId, b: DocumentId)
    ensures
        grammar::match_cases(owner, from, moved_match_cases(done, b), b) == (match grammar::match_cases(
            owner,
            from,
            done,
            a,
        ) {
            Ok(value) => Ok(moved_match_cases(value, b)),
            Err(error) => Err(error),
        }),
    decreases owner, 0int, syntax::items(owner).len() - from,
{
    if 0 <= from < syntax::items(owner).len() {
        lemma_match_case(syntax::items(owner)[from], a, b);
        match grammar::match_case(syntax::items(owner)[from], a) {
            Ok(value) => {
                lemma_moved_match_cases_push(done, value, b);
                lemma_match_cases(owner, from + 1, done.push(value), a, b);
            }
            Err(_) => {}
        }
    }
}

proof fn lemma_match_case(node: NodeView, a: DocumentId, b: DocumentId)
    ensures
        grammar::match_case(node, b) == (match grammar::match_case(node, a) {
            Ok(value) => Ok(moved_match_case(value, b)),
            Err(error) => Err(error),
        }),
    decreases node, 1int, 0int,
{
    let items = syntax::items(node);
    lemma_fixed_head(node, "case"@, a, b);
    if items.len() > 1 {
        lemma_pattern(items[1], a, b);
    }
    if items.len() > 2 {
        lemma_body(items[2], a, b);
    }
}

proof fn lemma_tail_failure(items: Seq<NodeView>, from: int, seen: Set<Seq<char>>, a: DocumentId, b: DocumentId)
    ensures
        grammar::tail_failure(items, from, seen, b) == grammar::tail_failure(items, from, seen, a),
    decreases items.len() - from,
{
    if 0 <= from < items.len() {
        lemma_label(items[from], a, b);
        match grammar::label(items[from], a) {
            Ok(found) => if from + 1 < items.len() {
                lemma_tail_failure(items, from + 2, seen.insert(found.value), a, b);
            },
            Err(_) => {}
        }
    }
}

proof fn lemma_attribute_failure(form: Seq<char>, node: NodeView, positional: nat, a: DocumentId, b: DocumentId)
    ensures
        grammar::attribute_failure(form, node, positional, b) == grammar::attribute_failure(form, node, positional, a),
{
    reveal(grammar::attribute_failure);
    lemma_tail_failure(syntax::items(node), positional as int + 1, Set::empty(), a, b);
}

proof fn lemma_parameter(node: NodeView, a: DocumentId, b: DocumentId)
    ensures
        grammar::parameter(node, b) == (match grammar::parameter(node, a) {
            Ok(value) => Ok(moved_parameter(value, b)),
            Err(error) => Err(error),
        }),
{
    let items = syntax::items(node);
    lemma_name(items[0], a, b);
    lemma_type_expr(items[1], a, b);
}

proof fn lemma_parameters_from(owner: NodeView, from: int, done: Seq<ParameterView>, a: DocumentId, b: DocumentId)
    ensures
        grammar::parameters_from(owner, from, moved_parameters(done, b), b) == (match grammar::parameters_from(
            owner,
            from,
            done,
            a,
        ) {
            Ok(value) => Ok(moved_parameters(value, b)),
            Err(error) => Err(error),
        }),
    decreases syntax::items(owner).len() - from,
{
    if 0 <= from < syntax::items(owner).len() {
        lemma_parameter(syntax::items(owner)[from], a, b);
        match grammar::parameter(syntax::items(owner)[from], a) {
            Ok(value) => {
                lemma_moved_parameters_push(done, value, b);
                lemma_parameters_from(owner, from + 1, done.push(value), a, b);
            }
            Err(_) => {}
        }
    }
}

proof fn lemma_parameters(node: NodeView, a: DocumentId, b: DocumentId)
    ensures
        grammar::parameters(node, b) == (match grammar::parameters(node, a) {
            Ok(value) => Ok(moved_parameters(value, b)),
            Err(error) => Err(error),
        }),
{
    lemma_parameters_from(node, 0, Seq::empty(), a, b);
    assert(moved_parameters(Seq::empty(), b) =~= Seq::<ParameterView>::empty());
}

proof fn lemma_type_parameter(node: NodeView, a: DocumentId, b: DocumentId)
    ensures
        grammar::type_parameter(node, b) == (match grammar::type_parameter(node, a) {
            Ok(value) => Ok(moved_type_parameter(value, b)),
            Err(error) => Err(error),
        }),
{
    let items = syntax::items(node);
    lemma_name(items[0], a, b);
    lemma_type_exprs(node, 1, Seq::empty(), a, b);
    assert(moved_type_exprs(Seq::empty(), b) =~= Seq::<TypeExprView>::empty());
}

proof fn lemma_type_parameters_from(
    owner: NodeView,
    from: int,
    done: Seq<TypeParameterView>,
    a: DocumentId,
    b: DocumentId,
)
    ensures
        grammar::type_parameters_from(owner, from, moved_type_parameters(done, b), b) == (match grammar::type_parameters_from(
            owner,
            from,
            done,
            a,
        ) {
            Ok(value) => Ok(moved_type_parameters(value, b)),
            Err(error) => Err(error),
        }),
    decreases syntax::items(owner).len() - from,
{
    if 0 <= from < syntax::items(owner).len() {
        lemma_type_parameter(syntax::items(owner)[from], a, b);
        match grammar::type_parameter(syntax::items(owner)[from], a) {
            Ok(value) => {
                lemma_moved_type_parameters_push(done, value, b);
                lemma_type_parameters_from(owner, from + 1, done.push(value), a, b);
            }
            Err(_) => {}
        }
    }
}

proof fn lemma_type_parameters(node: NodeView, a: DocumentId, b: DocumentId)
    ensures
        grammar::type_parameters(node, b) == (match grammar::type_parameters(node, a) {
            Ok(value) => Ok(moved_type_parameters(value, b)),
            Err(error) => Err(error),
        }),
{
    lemma_type_parameters_from(node, 0, Seq::empty(), a, b);
    assert(moved_type_parameters(Seq::empty(), b) =~= Seq::<TypeParameterView>::empty());
}

proof fn lemma_function(node: NodeView, visibility: Visibility, a: DocumentId, b: DocumentId)
    ensures
        grammar::function(node, visibility, b) == (match grammar::function(node, visibility, a) {
            Ok(value) => Ok(moved_function(value, b)),
            Err(error) => Err(error),
        }),
    decreases node, 2int, 0int,
{
    reveal(grammar::attribute_failure);
    let items = syntax::items(node);
    lemma_attribute_failure("fn"@, node, 4, a, b);
    if items.len() > 1 {
        lemma_name(items[1], a, b);
    }
    if items.len() > 2 {
        lemma_parameters(items[2], a, b);
    }
    if items.len() > 3 {
        lemma_type_expr(items[3], a, b);
    }
    if items.len() > 4 {
        lemma_body(items[4], a, b);
    }
    lemma_annotations(node, 5, Seq::empty(), a, b);
    assert(moved_annotations(Seq::empty(), b) =~= Seq::<AnnotationView>::empty());
}

proof fn lemma_annotations(owner: NodeView, from: int, done: Seq<AnnotationView>, a: DocumentId, b: DocumentId)
    ensures
        grammar::annotations(owner, from, moved_annotations(done, b), b) == (match grammar::annotations(
            owner,
            from,
            done,
            a,
        ) {
            Ok(value) => Ok(moved_annotations(value, b)),
            Err(error) => Err(error),
        }),
    decreases owner, 0int, syntax::items(owner).len() - from,
{
    let items = syntax::items(owner);
    if 0 <= from && from + 1 < items.len() {
        let value = items[from + 1];
        let span = items[from].span.covering(value.span);
        lemma_label(items[from], a, b);
        lemma_string(value, a, b);
        lemma_type_parameters(value, a, b);
        lemma_functions(value, 0, Seq::empty(), a, b);
        lemma_implementations(value, 0, done, a, b);
        assert(moved_functions(Seq::empty(), b) =~= Seq::<FunctionView>::empty());
        match grammar::label(items[from], a) {
            Ok(found) => if found.value == "doc"@ {
                match grammar::string(value, a) {
                    Ok(text) => {
                        let added = Spanned::read(AnnotationKindView::Doc(text.value), a, span);
                        lemma_moved_annotations_push(done, added, b);
                        lemma_annotations(owner, from + 2, done.push(added), a, b);
                    }
                    Err(_) => {}
                }
            } else if found.value == "where"@ {
                match grammar::type_parameters(value, a) {
                    Ok(values) => {
                        let added = Spanned::read(AnnotationKindView::Where(values), a, span);
                        lemma_moved_annotations_push(done, added, b);
                        lemma_annotations(owner, from + 2, done.push(added), a, b);
                    }
                    Err(_) => {}
                }
            } else if found.value == "defs"@ {
                match grammar::functions(value, 0, Seq::empty(), a) {
                    Ok(values) => {
                        let added = Spanned::read(AnnotationKindView::Definitions(values), a, span);
                        lemma_moved_annotations_push(done, added, b);
                        lemma_annotations(owner, from + 2, done.push(added), a, b);
                    }
                    Err(_) => {}
                }
            } else if found.value == "impls"@ {
                match grammar::implementations(value, 0, done, a) {
                    Ok(longer) => lemma_annotations(owner, from + 2, longer, a, b),
                    Err(_) => {}
                }
            },
            Err(_) => {}
        }
    }
}

proof fn lemma_functions(owner: NodeView, from: int, done: Seq<FunctionView>, a: DocumentId, b: DocumentId)
    ensures
        grammar::functions(owner, from, moved_functions(done, b), b) == (match grammar::functions(
            owner,
            from,
            done,
            a,
        ) {
            Ok(value) => Ok(moved_functions(value, b)),
            Err(error) => Err(error),
        }),
    decreases owner, 0int, syntax::items(owner).len() - from,
{
    if 0 <= from < syntax::items(owner).len() {
        let node = syntax::items(owner)[from];
        lemma_fixed_head(node, "fn"@, a, b);
        lemma_function(node, Visibility::Public, a, b);
        match grammar::function(node, Visibility::Public, a) {
            Ok(value) => {
                lemma_moved_functions_push(done, value, b);
                lemma_functions(owner, from + 1, done.push(value), a, b);
            }
            Err(_) => {}
        }
    }
}

proof fn lemma_implementations(owner: NodeView, from: int, done: Seq<AnnotationView>, a: DocumentId, b: DocumentId)
    ensures
        grammar::implementations(owner, from, moved_annotations(done, b), b) == (match grammar::implementations(
            owner,
            from,
            done,
            a,
        ) {
            Ok(value) => Ok(moved_annotations(value, b)),
            Err(error) => Err(error),
        }),
    decreases owner, 0int, syntax::items(owner).len() - from,
{
    if 0 <= from < syntax::items(owner).len() {
        let node = syntax::items(owner)[from];
        lemma_implementation(node, a, b);
        match grammar::implementation(node, a) {
            Ok(value) => {
                let added = Spanned::read(value, a, node.span);
                lemma_moved_annotations_push(done, added, b);
                lemma_implementations(owner, from + 1, done.push(added), a, b);
            }
            Err(_) => {}
        }
    }
}

proof fn lemma_implementation(node: NodeView, a: DocumentId, b: DocumentId)
    ensures
        grammar::implementation(node, b) == (match grammar::implementation(node, a) {
            Ok(value) => Ok(moved_annotation_kind(value, b)),
            Err(error) => Err(error),
        }),
    decreases node, 1int, 0int,
{
    reveal(grammar::attribute_failure);
    let items = syntax::items(node);
    lemma_fixed_head(node, "impl"@, a, b);
    lemma_attribute_failure("impl"@, node, 1, a, b);
    lemma_impl_items(node, 2, Seq::empty(), a, b);
    if items.len() > 1 {
        lemma_type_expr(items[1], a, b);
    }
    assert(moved_impl_items(Seq::empty(), b) =~= Seq::<ImplItemView>::empty());
}

proof fn lemma_impl_items(owner: NodeView, from: int, done: Seq<ImplItemView>, a: DocumentId, b: DocumentId)
    ensures
        grammar::impl_items(owner, from, moved_impl_items(done, b), b) == (match grammar::impl_items(
            owner,
            from,
            done,
            a,
        ) {
            Ok(value) => Ok(moved_impl_items(value, b)),
            Err(error) => Err(error),
        }),
    decreases owner, 0int, syntax::items(owner).len() - from,
{
    let items = syntax::items(owner);
    if 0 <= from && from + 1 < items.len() {
        let value = items[from + 1];
        lemma_label(items[from], a, b);
        lemma_type_exprs(value, 0, Seq::empty(), a, b);
        lemma_methods(value, 0, done, a, b);
        assert(moved_type_exprs(Seq::empty(), b) =~= Seq::<TypeExprView>::empty());
        match grammar::label(items[from], a) {
            Ok(found) => if found.value == "types"@ {
                match grammar::type_exprs(value, 0, Seq::empty(), a) {
                    Ok(types) => {
                        lemma_moved_impl_items_push(done, ImplItemView::Types(types), b);
                        lemma_impl_items(owner, from + 2, done.push(ImplItemView::Types(types)), a, b);
                    }
                    Err(_) => {}
                }
            } else if found.value == "methods"@ {
                match grammar::methods(value, 0, done, a) {
                    Ok(longer) => lemma_impl_items(owner, from + 2, longer, a, b),
                    Err(_) => {}
                }
            },
            Err(_) => {}
        }
    }
}

proof fn lemma_methods(owner: NodeView, from: int, done: Seq<ImplItemView>, a: DocumentId, b: DocumentId)
    ensures
        grammar::methods(owner, from, moved_impl_items(done, b), b) == (match grammar::methods(owner, from, done, a) {
            Ok(value) => Ok(moved_impl_items(value, b)),
            Err(error) => Err(error),
        }),
    decreases owner, 0int, syntax::items(owner).len() - from,
{
    if 0 <= from < syntax::items(owner).len() {
        lemma_method(syntax::items(owner)[from], a, b);
        match grammar::method(syntax::items(owner)[from], a) {
            Ok(value) => {
                lemma_moved_impl_items_push(done, value, b);
                lemma_methods(owner, from + 1, done.push(value), a, b);
            }
            Err(_) => {}
        }
    }
}

proof fn lemma_method(node: NodeView, a: DocumentId, b: DocumentId)
    ensures
        grammar::method(node, b) == (match grammar::method(node, a) {
            Ok(value) => Ok(moved_impl_item(value, b)),
            Err(error) => Err(error),
        }),
    decreases node, 1int, 1int,
{
    let items = syntax::items(node);
    lemma_fixed_head(node, "method"@, a, b);
    if items.len() > 2 {
        lemma_method_binding(items[2], a, b);
    }
    if items.len() > 1 {
        lemma_name(items[1], a, b);
    }
}

proof fn lemma_method_binding(node: NodeView, a: DocumentId, b: DocumentId)
    ensures
        grammar::method_binding(node, b) == (match grammar::method_binding(node, a) {
            Ok(value) => Ok(moved_method_binding(value, b)),
            Err(error) => Err(error),
        }),
    decreases node, 3int, 0int,
{
    lemma_name(node, a, b);
    lemma_fixed_head(node, "fn"@, a, b);
    lemma_function(node, Visibility::Public, a, b);
}

proof fn lemma_definition(node: NodeView, visibility: Visibility, a: DocumentId, b: DocumentId)
    ensures
        grammar::definition(node, visibility, b) == (match grammar::definition(node, visibility, a) {
            Ok(value) => Ok(moved_definition(value, b)),
            Err(error) => Err(error),
        }),
{
    reveal(grammar::definition);
    let items = syntax::items(node);
    lemma_attribute_failure("def"@, node, 2, a, b);
    lemma_name(items[1], a, b);
    lemma_type_expr(items[2], a, b);
    lemma_annotations(node, 3, Seq::empty(), a, b);
    assert(moved_annotations(Seq::empty(), b) =~= Seq::<AnnotationView>::empty());
}

proof fn lemma_constant(node: NodeView, visibility: Visibility, a: DocumentId, b: DocumentId)
    ensures
        grammar::constant(node, visibility, b) == (match grammar::constant(node, visibility, a) {
            Ok(value) => Ok(moved_constant(value, b)),
            Err(error) => Err(error),
        }),
{
    reveal(grammar::constant);
    let items = syntax::items(node);
    lemma_attribute_failure("const"@, node, 3, a, b);
    lemma_name(items[1], a, b);
    lemma_type_expr(items[2], a, b);
    lemma_expr(items[3], a, b);
    lemma_annotations(node, 4, Seq::empty(), a, b);
    assert(moved_annotations(Seq::empty(), b) =~= Seq::<AnnotationView>::empty());
}

proof fn lemma_import(node: NodeView, a: DocumentId, b: DocumentId)
    ensures
        grammar::import(node, b) == (match grammar::import(node, a) {
            Ok(value) => Ok(moved_import(value, b)),
            Err(error) => Err(error),
        }),
{
    reveal(grammar::import);
    let items = syntax::items(node);
    lemma_name(items[1], a, b);
    lemma_string(items[2], a, b);
}

proof fn lemma_syntax_category(node: NodeView, a: DocumentId, b: DocumentId)
    ensures
        grammar::syntax_category(node, b) == (match grammar::syntax_category(node, a) {
            Ok(value) => Ok(moved_mark(value, b)),
            Err(error) => Err(error),
        }),
{

}

proof fn lemma_macro_parameter(node: NodeView, a: DocumentId, b: DocumentId)
    ensures
        grammar::macro_parameter(node, b) == (match grammar::macro_parameter(node, a) {
            Ok(value) => Ok(moved_macro_parameter(value, b)),
            Err(error) => Err(error),
        }),
{
    let items = syntax::items(node);
    lemma_name(items[0], a, b);
    lemma_syntax_category(items[1], a, b);
}

proof fn lemma_macro_parameters_from(
    owner: NodeView,
    from: int,
    done: Seq<MacroParameterView>,
    a: DocumentId,
    b: DocumentId,
)
    ensures
        grammar::macro_parameters_from(owner, from, moved_macro_parameters(done, b), b) == (match grammar::macro_parameters_from(
            owner,
            from,
            done,
            a,
        ) {
            Ok(value) => Ok(moved_macro_parameters(value, b)),
            Err(error) => Err(error),
        }),
    decreases syntax::items(owner).len() - from,
{
    if 0 <= from < syntax::items(owner).len() {
        lemma_macro_parameter(syntax::items(owner)[from], a, b);
        match grammar::macro_parameter(syntax::items(owner)[from], a) {
            Ok(value) => {
                lemma_moved_macro_parameters_push(done, value, b);
                lemma_macro_parameters_from(owner, from + 1, done.push(value), a, b);
            }
            Err(_) => {}
        }
    }
}

proof fn lemma_macro_parameters(node: NodeView, a: DocumentId, b: DocumentId)
    ensures
        grammar::macro_parameters(node, b) == (match grammar::macro_parameters(node, a) {
            Ok(value) => Ok(moved_macro_parameters(value, b)),
            Err(error) => Err(error),
        }),
{
    lemma_macro_parameters_from(node, 0, Seq::empty(), a, b);
    assert(moved_macro_parameters(Seq::empty(), b) =~= Seq::<MacroParameterView>::empty());
}

proof fn lemma_macro_body(node: NodeView, a: DocumentId, b: DocumentId)
    ensures
        grammar::macro_body(node, b) == (match grammar::macro_body(node, a) {
            Ok(value) => Ok(moved_macro_exprs(value, b)),
            Err(error) => Err(error),
        }),
    decreases node, 1int, 0int,
{
    lemma_fixed_head(node, "do"@, a, b);
    lemma_macro_exprs(node, 1, Seq::empty(), a, b);
    assert(moved_macro_exprs(Seq::empty(), b) =~= Seq::<MacroExprView>::empty());
}

proof fn lemma_macro_exprs(owner: NodeView, from: int, done: Seq<MacroExprView>, a: DocumentId, b: DocumentId)
    ensures
        grammar::macro_exprs(owner, from, moved_macro_exprs(done, b), b) == (match grammar::macro_exprs(
            owner,
            from,
            done,
            a,
        ) {
            Ok(value) => Ok(moved_macro_exprs(value, b)),
            Err(error) => Err(error),
        }),
    decreases owner, 0int, syntax::items(owner).len() - from,
{
    if 0 <= from < syntax::items(owner).len() {
        lemma_macro_expr(syntax::items(owner)[from], a, b);
        match grammar::macro_expr(syntax::items(owner)[from], a) {
            Ok(value) => {
                lemma_moved_macro_exprs_push(done, value, b);
                lemma_macro_exprs(owner, from + 1, done.push(value), a, b);
            }
            Err(_) => {}
        }
    }
}

proof fn lemma_macro_expr(node: NodeView, a: DocumentId, b: DocumentId)
    ensures
        grammar::macro_expr(node, b) == (match grammar::macro_expr(node, a) {
            Ok(value) => Ok(moved_macro_expr(value, b)),
            Err(error) => Err(error),
        }),
    decreases node, 2int, 0int,
{
    lemma_head(node, a, b);
    if grammar::head(node, a) is Ok {
        lemma_macro_form(node, grammar::head(node, a)->Ok_0, a, b);
    }
}

proof fn lemma_macro_form(node: NodeView, head: NameView, a: DocumentId, b: DocumentId)
    ensures
        grammar::macro_form(node, moved_mark(head, b), b) == (match grammar::macro_form(node, head, a) {
            Ok(value) => Ok(moved_macro_expr_kind(value, b)),
            Err(error) => Err(error),
        }),
    decreases node, 1int, 0int,
{
    let items = syntax::items(node);
    if items.len() > 1 {
        lemma_name(items[1], a, b);
    }
    if items.len() > 2 {
        lemma_macro_expr(items[2], a, b);
    }
    if items.len() > 1 {
        lemma_macro_expr(items[1], a, b);
    }
    if items.len() > 2 {
        lemma_macro_body(items[2], a, b);
    }
    if items.len() > 3 {
        lemma_macro_body(items[3], a, b);
    }
    if items.len() > 1 {
        lemma_syntax_category(items[1], a, b);
    }
}

proof fn lemma_macro_definition(node: NodeView, visibility: Visibility, a: DocumentId, b: DocumentId)
    ensures
        grammar::macro_definition(node, visibility, b) == (match grammar::macro_definition(node, visibility, a) {
            Ok(value) => Ok(moved_macro(value, b)),
            Err(error) => Err(error),
        }),
{
    reveal(grammar::macro_definition);
    let items = syntax::items(node);
    lemma_attribute_failure("macro"@, node, 4, a, b);
    lemma_name(items[1], a, b);
    lemma_macro_parameters(items[2], a, b);
    lemma_syntax_category(items[3], a, b);
    lemma_macro_body(items[4], a, b);
    lemma_annotations(node, 5, Seq::empty(), a, b);
    assert(moved_annotations(Seq::empty(), b) =~= Seq::<AnnotationView>::empty());
}

proof fn lemma_test_meta(owner: NodeView, from: int, a: DocumentId, b: DocumentId)
    ensures
        grammar::test_meta(owner, from, b) == (match grammar::test_meta(owner, from, a) {
            Ok(value) => Ok(moved_test_meta(value, b)),
            Err(error) => Err(error),
        }),
{
    reveal(grammar::test_meta);
    let items = syntax::items(owner);
    let value = items[from + 1];
    let parts = syntax::items(value);
    lemma_label(items[from], a, b);
    lemma_names(value, 0, Seq::empty(), a, b);
    assert(moved_marks(Seq::empty(), b) =~= Seq::<NameView>::empty());
    lemma_name(parts[0], a, b);
    lemma_name(parts[1], a, b);
    lemma_string(parts[2], a, b);
    lemma_integer(parts[1], a, b);
    lemma_name(value, a, b);
}

proof fn lemma_test_metadata(owner: NodeView, from: int, done: Seq<TestMetaView>, a: DocumentId, b: DocumentId)
    ensures
        grammar::test_metadata(owner, from, moved_test_metas(done, b), b) == (match grammar::test_metadata(
            owner,
            from,
            done,
            a,
        ) {
            Ok(value) => Ok(moved_test_metas(value, b)),
            Err(error) => Err(error),
        }),
    decreases syntax::items(owner).len() - from,
{
    reveal(grammar::test_meta);
    if 0 <= from && from + 1 < syntax::items(owner).len() {
        lemma_test_meta(owner, from, a, b);
        match grammar::test_meta(owner, from, a) {
            Ok(value) => {
                lemma_moved_test_metas_push(done, value, b);
                lemma_test_metadata(owner, from + 2, done.push(value), a, b);
            }
            Err(_) => {}
        }
    }
}

proof fn lemma_test(node: NodeView, a: DocumentId, b: DocumentId)
    ensures
        grammar::test(node, b) == (match grammar::test(node, a) {
            Ok(value) => Ok(moved_test(value, b)),
            Err(error) => Err(error),
        }),
{
    reveal(grammar::test);
    let items = syntax::items(node);
    lemma_attribute_failure("test"@, node, 3, a, b);
    lemma_name(items[1], a, b);
    lemma_name(items[2], a, b);
    lemma_body(items[3], a, b);
    lemma_test_metadata(node, 4, Seq::empty(), a, b);
    assert(moved_test_metas(Seq::empty(), b) =~= Seq::<TestMetaView>::empty());
}

proof fn lemma_private(node: NodeView, a: DocumentId, b: DocumentId)
    ensures
        grammar::private(node, b) == (match grammar::private(node, a) {
            Ok(value) => Ok(moved_top_level(value, b)),
            Err(error) => Err(error),
        }),
{
    reveal(grammar::private);
    let items = syntax::items(node);
    if items.len() == 2 {
        let inner = items[1];
        lemma_head(inner, a, b);
        lemma_definition(inner, Visibility::Private, a, b);
        lemma_constant(inner, Visibility::Private, a, b);
        lemma_function(inner, Visibility::Private, a, b);
        lemma_macro_definition(inner, Visibility::Private, a, b);
        let span = node.span;
        let origin = Origin::read_at(a, span);
        if grammar::definition(inner, Visibility::Private, a) is Ok {
            let value = grammar::definition(inner, Visibility::Private, a)->Ok_0;
            assert(moved_definition(DefinitionView { span, origin, ..value }, b) == (DefinitionView {
                span,
                origin: moved_origin(origin, b),
                ..moved_definition(value, b)
            }));
        }
        if grammar::constant(inner, Visibility::Private, a) is Ok {
            let value = grammar::constant(inner, Visibility::Private, a)->Ok_0;
            assert(moved_constant(ConstantView { span, origin, ..value }, b) == (ConstantView {
                span,
                origin: moved_origin(origin, b),
                ..moved_constant(value, b)
            }));
        }
        if grammar::function(inner, Visibility::Private, a) is Ok {
            let value = grammar::function(inner, Visibility::Private, a)->Ok_0;
            assert(moved_function(FunctionView { span, origin, ..value }, b) == (FunctionView {
                span,
                origin: moved_origin(origin, b),
                ..moved_function(value, b)
            }));
        }
        if grammar::macro_definition(inner, Visibility::Private, a) is Ok {
            let value = grammar::macro_definition(inner, Visibility::Private, a)->Ok_0;
            assert(moved_macro(MacroView { span, origin, ..value }, b) == (MacroView {
                span,
                origin: moved_origin(origin, b),
                ..moved_macro(value, b)
            }));
        }
    }
}

proof fn lemma_top_level(node: NodeView, a: DocumentId, b: DocumentId)
    ensures
        grammar::top_level(node, b) == (match grammar::top_level(node, a) {
            Ok(value) => Ok(moved_top_level(value, b)),
            Err(error) => Err(error),
        }),
{
    reveal(grammar::top_level);
    lemma_head(node, a, b);
    lemma_import(node, a, b);
    lemma_definition(node, Visibility::Public, a, b);
    lemma_constant(node, Visibility::Public, a, b);
    lemma_function(node, Visibility::Public, a, b);
    lemma_macro_definition(node, Visibility::Public, a, b);
    lemma_test(node, a, b);
    lemma_private(node, a, b);
}

proof fn lemma_top_levels(nodes: Seq<NodeView>, from: int, done: Seq<TopLevelView>, a: DocumentId, b: DocumentId)
    ensures
        grammar::top_levels(nodes, from, moved_top_levels(done, b), b) == (match grammar::top_levels(
            nodes,
            from,
            done,
            a,
        ) {
            Ok(value) => Ok(moved_top_levels(value, b)),
            Err(error) => Err(error),
        }),
    decreases nodes.len() - from,
{
    reveal(grammar::top_level);
    if 0 <= from < nodes.len() {
        lemma_top_level(nodes[from], a, b);
        match grammar::top_level(nodes[from], a) {
            Ok(value) => {
                lemma_moved_top_levels_push(done, value, b);
                lemma_top_levels(nodes, from + 1, done.push(value), a, b);
            }
            Err(_) => {}
        }
    }
}

proof fn lemma_module(nodes: Seq<NodeView>, span: Span, a: DocumentId, b: DocumentId)
    ensures
        grammar::module(nodes, span, b) == (match grammar::module(nodes, span, a) {
            Ok(value) => Ok(moved_module(value, b)),
            Err(error) => Err(error),
        }),
{
    let all = syntax::semantic(nodes);
    lemma_top_levels(all, 0, Seq::empty(), a, b);
    assert(moved_top_levels(Seq::empty(), b) =~= Seq::<TopLevelView>::empty());
}

/// Reading nodes into two documents gives the same tree but for the documents:
/// the shapes, the spans and the identifiers of its nodes are the same, and so is
/// the diagnostic where the nodes are refused.
pub proof fn law_documents_differ_in_their_identity_alone(
    nodes: Seq<NodeView>,
    span: Span,
    first: DocumentId,
    second: DocumentId,
)
    ensures
        grammar::module(nodes, span, second) == (match grammar::module(nodes, span, first) {
            Ok(module) => Ok(moved_module(module, second)),
            Err(error) => Err(error),
        }),
{
    lemma_module(nodes, span, first, second);
}

} // verus!
