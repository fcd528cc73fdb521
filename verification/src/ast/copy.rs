//! Copies of surface trees.
use vstd::prelude::*;
use crate::ast::surface::{
    Annotation, AnnotationKind, Constant, Definition, Expr, ExprField, ExprKind, Function, ImplItem, Import, Literal,
    Macro, MacroExpr, MacroExprKind, MacroParameter, MatchCase, MethodBinding, Module, Name, Parameter, Pattern,
    PatternField, PatternKind, Spanned, Test, TestMeta, TopLevel, TypeExpr, TypeExprKind, TypeMember, TypeParameter,
};
use crate::ast::view;
use crate::syntax::copy_node;

verus! {

pub fn spanned_copy<T: Copy>(node: &Spanned<T>) -> (result: Spanned<T>)
    ensures
        result == *node,
{
    Spanned { value: node.value, span: node.span, origin: node.origin.copy() }
}

pub fn name(node: &Name) -> (result: Name)
    ensures
        result == *node,
{
    Spanned { value: node.value.clone(), span: node.span, origin: node.origin.copy() }
}

pub fn type_expr(node: &TypeExpr) -> (result: TypeExpr)
    ensures
        view::type_expr(result) == view::type_expr(*node),
    decreases node,
{
    reveal(view::type_kind);
    Spanned { value: type_kind(&node.value), span: node.span, origin: node.origin.copy() }
}

pub fn pattern(node: &Pattern) -> (result: Pattern)
    ensures
        view::pattern(result) == view::pattern(*node),
    decreases node,
{
    reveal(view::pattern_kind);
    Spanned { value: pattern_kind(&node.value), span: node.span, origin: node.origin.copy() }
}

pub fn expr(node: &Expr) -> (result: Expr)
    ensures
        view::expr(result) == view::expr(*node),
    decreases node,
{
    reveal(view::expr_kind);
    Spanned { value: expr_kind(&node.value), span: node.span, origin: node.origin.copy() }
}

pub fn macro_expr(node: &MacroExpr) -> (result: MacroExpr)
    ensures
        view::macro_expr(result) == view::macro_expr(*node),
    decreases node,
{
    reveal(view::macro_kind);
    Spanned { value: macro_kind(&node.value), span: node.span, origin: node.origin.copy() }
}

pub fn annotation(node: &Annotation) -> (result: Annotation)
    ensures
        view::annotation(result) == view::annotation(*node),
    decreases node,
{
    reveal(view::annotation_kind);
    Spanned { value: annotation_kind(&node.value), span: node.span, origin: node.origin.copy() }
}

pub fn module(node: &Module) -> (result: Module)
    ensures
        view::module(result) == view::module(*node),
    decreases node,
{
    Module {
        forms: self::top_levels(&node.forms),
        span: node.span,
        document_id: node.document_id,
    }
}

pub fn import(node: &Import) -> (result: Import)
    ensures
        view::import(result) == view::import(*node),
    decreases node,
{
    Import {
        alias: self::name(&node.alias),
        path: self::name(&node.path),
        span: node.span,
        origin: node.origin.copy(),
    }
}

pub fn definition(node: &Definition) -> (result: Definition)
    ensures
        view::definition(result) == view::definition(*node),
    decreases node,
{
    Definition {
        visibility: node.visibility,
        name: self::name(&node.name),
        body: self::type_expr(&node.body),
        annotations: self::annotations(&node.annotations),
        span: node.span,
        origin: node.origin.copy(),
    }
}

pub fn constant(node: &Constant) -> (result: Constant)
    ensures
        view::constant(result) == view::constant(*node),
    decreases node,
{
    Constant {
        visibility: node.visibility,
        name: self::name(&node.name),
        ty: self::type_expr(&node.ty),
        value: self::expr(&node.value),
        annotations: self::annotations(&node.annotations),
        span: node.span,
        origin: node.origin.copy(),
    }
}

pub fn function(node: &Function) -> (result: Function)
    ensures
        view::function(result) == view::function(*node),
    decreases node,
{
    Function {
        visibility: node.visibility,
        name: self::name(&node.name),
        parameters: self::parameters(&node.parameters),
        return_type: self::type_expr(&node.return_type),
        body: self::exprs(&node.body),
        annotations: self::annotations(&node.annotations),
        span: node.span,
        origin: node.origin.copy(),
    }
}

pub fn macro_definition(node: &Macro) -> (result: Macro)
    ensures
        view::macro_definition(result) == view::macro_definition(*node),
    decreases node,
{
    Macro {
        visibility: node.visibility,
        name: self::name(&node.name),
        parameters: self::macro_parameters(&node.parameters),
        result: spanned_copy(&node.result),
        body: self::macro_exprs(&node.body),
        annotations: self::annotations(&node.annotations),
        span: node.span,
        origin: node.origin.copy(),
    }
}

pub fn macro_parameter(node: &MacroParameter) -> (result: MacroParameter)
    ensures
        view::macro_parameter(result) == view::macro_parameter(*node),
    decreases node,
{
    MacroParameter {
        name: self::name(&node.name),
        category: spanned_copy(&node.category),
        span: node.span,
    }
}

pub fn parameter(node: &Parameter) -> (result: Parameter)
    ensures
        view::parameter(result) == view::parameter(*node),
    decreases node,
{
    Parameter {
        name: self::name(&node.name),
        ty: self::type_expr(&node.ty),
        span: node.span,
    }
}

pub fn test(node: &Test) -> (result: Test)
    ensures
        view::test(result) == view::test(*node),
    decreases node,
{
    Test {
        name: self::name(&node.name),
        profile: self::name(&node.profile),
        body: self::exprs(&node.body),
        metadata: self::test_metas(&node.metadata),
        span: node.span,
        origin: node.origin.copy(),
    }
}

pub fn type_member(node: &TypeMember) -> (result: TypeMember)
    ensures
        view::type_member(result) == view::type_member(*node),
    decreases node,
{
    TypeMember {
        name: self::name(&node.name),
        ty: self::type_expr(&node.ty),
        span: node.span,
    }
}

pub fn expr_field(node: &ExprField) -> (result: ExprField)
    ensures
        view::expr_field(result) == view::expr_field(*node),
    decreases node,
{
    ExprField {
        name: self::name(&node.name),
        value: self::expr(&node.value),
        span: node.span,
    }
}

pub fn match_case(node: &MatchCase) -> (result: MatchCase)
    ensures
        view::match_case(result) == view::match_case(*node),
    decreases node,
{
    MatchCase {
        pattern: self::pattern(&node.pattern),
        body: self::exprs(&node.body),
        span: node.span,
    }
}

pub fn pattern_field(node: &PatternField) -> (result: PatternField)
    ensures
        view::pattern_field(result) == view::pattern_field(*node),
    decreases node,
{
    PatternField {
        name: self::name(&node.name),
        pattern: self::pattern(&node.pattern),
        span: node.span,
    }
}

pub fn type_parameter(node: &TypeParameter) -> (result: TypeParameter)
    ensures
        view::type_parameter(result) == view::type_parameter(*node),
    decreases node,
{
    TypeParameter {
        name: self::name(&node.name),
        bounds: self::type_exprs(&node.bounds),
        span: node.span,
    }
}

pub fn top_level(node: &TopLevel) -> (result: TopLevel)
    ensures
        view::top_level(result) == view::top_level(*node),
    decreases node,
{
    reveal(view::top_level);
    match node {
        TopLevel::Import(value) => TopLevel::Import(self::import(value)),
        TopLevel::Definition(value) => TopLevel::Definition(self::definition(value)),
        TopLevel::Constant(value) => TopLevel::Constant(self::constant(value)),
        TopLevel::Function(value) => TopLevel::Function(self::function(value)),
        TopLevel::Macro(value) => TopLevel::Macro(self::macro_definition(value)),
        TopLevel::Test(value) => TopLevel::Test(self::test(value)),
    }
}

pub fn macro_kind(node: &MacroExprKind) -> (result: MacroExprKind)
    ensures
        view::macro_kind(result) == view::macro_kind(*node),
    decreases node,
{
    reveal(view::macro_kind);
    match node {
        MacroExprKind::Atom(value) => MacroExprKind::Atom(value.copy()),
        MacroExprKind::Let { name, value } => MacroExprKind::Let {
            name: self::name(name),
            value: Box::new(self::macro_expr(value)),
        },
        MacroExprKind::If { condition, then_body, else_body } => MacroExprKind::If {
            condition: Box::new(self::macro_expr(condition)),
            then_body: self::macro_exprs(then_body),
            else_body: self::macro_exprs(else_body),
        },
        MacroExprKind::Quote { category, form } => MacroExprKind::Quote {
            category: spanned_copy(category),
            form: copy_node(form),
        },
        MacroExprKind::Unquote(value) => MacroExprKind::Unquote(self::name(value)),
        MacroExprKind::Splice(value) => MacroExprKind::Splice(self::name(value)),
        MacroExprKind::Capture(value) => MacroExprKind::Capture(self::name(value)),
    }
}

pub fn test_meta(node: &TestMeta) -> (result: TestMeta)
    ensures
        view::test_meta(result) == view::test_meta(*node),
    decreases node,
{
    match node {
        TestMeta::Tags(values) => TestMeta::Tags(self::names(values)),
        TestMeta::ExpectError { phase, code, message } => TestMeta::ExpectError {
            phase: self::name(phase),
            code: self::name(code),
            message: match message {
                Some(inner) => Some(self::name(inner)),
                None => None,
            },
        },
        TestMeta::Clock { mode, millis } => TestMeta::Clock {
            mode: self::name(mode),
            millis: spanned_copy(millis),
        },
        TestMeta::Benchmark(value) => TestMeta::Benchmark(copy_node(value)),
        TestMeta::Workspace(value) => TestMeta::Workspace(self::name(value)),
    }
}

pub fn type_kind(node: &TypeExprKind) -> (result: TypeExprKind)
    ensures
        view::type_kind(result) == view::type_kind(*node),
    decreases node,
{
    reveal(view::type_kind);
    match node {
        TypeExprKind::Named(value) => TypeExprKind::Named(value.clone()),
        TypeExprKind::Application { constructor, arguments } => TypeExprKind::Application {
            constructor: self::name(constructor),
            arguments: self::type_exprs(arguments),
        },
        TypeExprKind::Record(values) => TypeExprKind::Record(self::type_members(values)),
        TypeExprKind::Tuple(values) => TypeExprKind::Tuple(self::type_exprs(values)),
        TypeExprKind::Array(value) => TypeExprKind::Array(Box::new(self::type_expr(value))),
        TypeExprKind::Mapping(first, second) => TypeExprKind::Mapping(
            Box::new(self::type_expr(first)),
            Box::new(self::type_expr(second)),
        ),
        TypeExprKind::Union(values) => TypeExprKind::Union(self::type_exprs(values)),
        TypeExprKind::Enum(values) => TypeExprKind::Enum(self::type_members(values)),
        TypeExprKind::Interface(values) => TypeExprKind::Interface(self::type_members(values)),
        TypeExprKind::Function { parameters, result } => TypeExprKind::Function {
            parameters: self::type_exprs(parameters),
            result: Box::new(self::type_expr(result)),
        },
        TypeExprKind::Newtype(value) => TypeExprKind::Newtype(Box::new(self::type_expr(value))),
        TypeExprKind::Mutable(value) => TypeExprKind::Mutable(Box::new(self::type_expr(value))),
        TypeExprKind::Reference(value) => TypeExprKind::Reference(Box::new(self::type_expr(value))),
        TypeExprKind::MutableReference(value) => TypeExprKind::MutableReference(Box::new(self::type_expr(value))),
        TypeExprKind::Intersect(values) => TypeExprKind::Intersect(self::type_exprs(values)),
        TypeExprKind::Domain { head, arguments } => TypeExprKind::Domain {
            head: self::name(head),
            arguments: self::type_exprs(arguments),
        },
    }
}

pub fn literal(node: &Literal) -> (result: Literal)
    ensures
        view::literal(result) == view::literal(*node),
    decreases node,
{
    match node {
        Literal::String(value) => Literal::String(value.clone()),
        Literal::Bool(value) => Literal::Bool(*value),
        Literal::Int(value) => Literal::Int(*value),
        Literal::Float(value) => Literal::Float(*value),
        Literal::Unit => Literal::Unit,
    }
}

pub fn expr_kind(node: &ExprKind) -> (result: ExprKind)
    ensures
        view::expr_kind(result) == view::expr_kind(*node),
    decreases node,
{
    reveal(view::expr_kind);
    match node {
        ExprKind::Literal(value) => ExprKind::Literal(self::literal(value)),
        ExprKind::Reference(value) => ExprKind::Reference(value.clone()),
        ExprKind::Call { callee, arguments } => ExprKind::Call {
            callee: self::name(callee),
            arguments: self::exprs(arguments),
        },
        ExprKind::Do(values) => ExprKind::Do(self::exprs(values)),
        ExprKind::Let { name, ty, value } => ExprKind::Let {
            name: self::name(name),
            ty: match ty {
                Some(inner) => Some(self::type_expr(inner)),
                None => None,
            },
            value: Box::new(self::expr(value)),
        },
        ExprKind::Assign { name, value } => ExprKind::Assign {
            name: self::name(name),
            value: Box::new(self::expr(value)),
        },
        ExprKind::Return(value) => ExprKind::Return(match value {
                Some(inner) => Some(Box::new(self::expr(inner))),
                None => None,
        }),
        ExprKind::If { condition, then_body, else_body } => ExprKind::If {
            condition: Box::new(self::expr(condition)),
            then_body: self::exprs(then_body),
            else_body: self::exprs(else_body),
        },
        ExprKind::While { condition, body } => ExprKind::While {
            condition: Box::new(self::expr(condition)),
            body: self::exprs(body),
        },
        ExprKind::For { binding, source, body } => ExprKind::For {
            binding: self::name(binding),
            source: Box::new(self::expr(source)),
            body: self::exprs(body),
        },
        ExprKind::Match { target, cases } => ExprKind::Match {
            target: Box::new(self::expr(target)),
            cases: self::match_cases(cases),
        },
        ExprKind::Break => ExprKind::Break,
        ExprKind::Continue => ExprKind::Continue,
        ExprKind::Record(values) => ExprKind::Record(self::expr_fields(values)),
        ExprKind::Tuple(values) => ExprKind::Tuple(self::exprs(values)),
        ExprKind::Array(values) => ExprKind::Array(self::exprs(values)),
        ExprKind::Mapping(values) => ExprKind::Mapping(self::expr_pairs(values)),
        ExprKind::Mutable(value) => ExprKind::Mutable(Box::new(self::expr(value))),
        ExprKind::ReferenceOf(value) => ExprKind::ReferenceOf(Box::new(self::expr(value))),
        ExprKind::Range(first, second, third) => ExprKind::Range(
            Box::new(self::expr(first)),
            Box::new(self::expr(second)),
            Box::new(self::expr(third)),
        ),
        ExprKind::Convert { value, into, fallback } => ExprKind::Convert {
            value: Box::new(self::expr(value)),
            into: self::type_expr(into),
            fallback: self::literal(fallback),
        },
        ExprKind::Cast { value, into } => ExprKind::Cast {
            value: Box::new(self::expr(value)),
            into: self::type_expr(into),
        },
        ExprKind::Task { captures, body } => ExprKind::Task {
            captures: self::names(captures),
            body: self::exprs(body),
        },
        ExprKind::Spawn { handle, captures, value } => ExprKind::Spawn {
            handle: self::name(handle),
            captures: self::names(captures),
            value: Box::new(self::expr(value)),
        },
        ExprKind::Join { handle, binding } => ExprKind::Join {
            handle: self::name(handle),
            binding: self::name(binding),
        },
    }
}

pub fn pattern_kind(node: &PatternKind) -> (result: PatternKind)
    ensures
        view::pattern_kind(result) == view::pattern_kind(*node),
    decreases node,
{
    reveal(view::pattern_kind);
    match node {
        PatternKind::Literal(value) => PatternKind::Literal(self::literal(value)),
        PatternKind::Wildcard => PatternKind::Wildcard,
        PatternKind::Bind(value) => PatternKind::Bind(self::name(value)),
        PatternKind::Constructor { constructor, arguments } => PatternKind::Constructor {
            constructor: self::name(constructor),
            arguments: self::patterns(arguments),
        },
        PatternKind::Record(values) => PatternKind::Record(self::pattern_fields(values)),
        PatternKind::Tuple(values) => PatternKind::Tuple(self::patterns(values)),
        PatternKind::Array(values) => PatternKind::Array(self::patterns(values)),
        PatternKind::Mapping(values) => PatternKind::Mapping(self::pattern_pairs(values)),
        PatternKind::Newtype { ty, pattern } => PatternKind::Newtype {
            ty: self::type_expr(ty),
            pattern: Box::new(self::pattern(pattern)),
        },
        PatternKind::Interface { ty, pattern } => PatternKind::Interface {
            ty: self::type_expr(ty),
            pattern: Box::new(self::pattern(pattern)),
        },
    }
}

pub fn annotation_kind(node: &AnnotationKind) -> (result: AnnotationKind)
    ensures
        view::annotation_kind(result) == view::annotation_kind(*node),
    decreases node,
{
    reveal(view::annotation_kind);
    match node {
        AnnotationKind::Doc(value) => AnnotationKind::Doc(value.clone()),
        AnnotationKind::Where(values) => AnnotationKind::Where(self::type_parameters(values)),
        AnnotationKind::Definitions(values) => AnnotationKind::Definitions(self::functions(values)),
        AnnotationKind::Implementation { interface, items } => AnnotationKind::Implementation {
            interface: self::type_expr(interface),
            items: self::impl_items(items),
        },
    }
}

pub fn impl_item(node: &ImplItem) -> (result: ImplItem)
    ensures
        view::impl_item(result) == view::impl_item(*node),
    decreases node,
{
    match node {
        ImplItem::Types(values) => ImplItem::Types(self::type_exprs(values)),
        ImplItem::Method { name, binding, span } => ImplItem::Method {
            name: self::name(name),
            binding: self::method_binding(binding),
            span: *span,
        },
    }
}

pub fn method_binding(node: &MethodBinding) -> (result: MethodBinding)
    ensures
        view::method_binding(result) == view::method_binding(*node),
    decreases node,
{
    match node {
        MethodBinding::Reference(value) => MethodBinding::Reference(self::name(value)),
        MethodBinding::Function(value) => MethodBinding::Function(self::function(value)),
    }
}

pub fn annotations(nodes: &Vec<Annotation>) -> (result: Vec<Annotation>)
    ensures
        view::annotations(result@) == view::annotations(nodes@),
    decreases nodes,
{
    let mut result: Vec<Annotation> = Vec::new();
    let mut i: usize = 0;
    while i < nodes.len()
        invariant
            i <= nodes.len(),
            result@.len() == i,
            forall|j: int| 0 <= j < i ==> view::annotation(#[trigger] result@[j]) == view::annotation(nodes@[j]),
        decreases nodes.len() - i,
    {
        let node = self::annotation(&nodes[i]);
        result.push(node);
        i += 1;
    }
    assert(view::annotations(result@) =~= view::annotations(nodes@));
    result
}

pub fn expr_fields(nodes: &Vec<ExprField>) -> (result: Vec<ExprField>)
    ensures
        view::expr_fields(result@) == view::expr_fields(nodes@),
    decreases nodes,
{
    let mut result: Vec<ExprField> = Vec::new();
    let mut i: usize = 0;
    while i < nodes.len()
        invariant
            i <= nodes.len(),
            result@.len() == i,
            forall|j: int| 0 <= j < i ==> view::expr_field(#[trigger] result@[j]) == view::expr_field(nodes@[j]),
        decreases nodes.len() - i,
    {
        let node = self::expr_field(&nodes[i]);
        result.push(node);
        i += 1;
    }
    assert(view::expr_fields(result@) =~= view::expr_fields(nodes@));
    result
}

pub fn expr_pairs(nodes: &Vec<(Expr, Expr)>) -> (result: Vec<(Expr, Expr)>)
    ensures
        view::expr_pairs(result@) == view::expr_pairs(nodes@),
    decreases nodes,
{
    let mut result: Vec<(Expr, Expr)> = Vec::new();
    let mut i: usize = 0;
    while i < nodes.len()
        invariant
            i <= nodes.len(),
            result@.len() == i,
            forall|j: int| 0 <= j < i ==> view::expr(
                #[trigger] result@[j].0,
            ) == view::expr(nodes@[j].0) && view::expr(result@[j].1) == view::expr(nodes@[j].1),
        decreases nodes.len() - i,
    {
        let node = (self::expr(&nodes[i].0), self::expr(&nodes[i].1));
        result.push(node);
        i += 1;
    }
    assert(view::expr_pairs(result@) =~= view::expr_pairs(nodes@));
    result
}

pub fn exprs(nodes: &Vec<Expr>) -> (result: Vec<Expr>)
    ensures
        view::exprs(result@) == view::exprs(nodes@),
    decreases nodes,
{
    let mut result: Vec<Expr> = Vec::new();
    let mut i: usize = 0;
    while i < nodes.len()
        invariant
            i <= nodes.len(),
            result@.len() == i,
            forall|j: int| 0 <= j < i ==> view::expr(#[trigger] result@[j]) == view::expr(nodes@[j]),
        decreases nodes.len() - i,
    {
        let node = self::expr(&nodes[i]);
        result.push(node);
        i += 1;
    }
    assert(view::exprs(result@) =~= view::exprs(nodes@));
    result
}

pub fn functions(nodes: &Vec<Function>) -> (result: Vec<Function>)
    ensures
        view::functions(result@) == view::functions(nodes@),
    decreases nodes,
{
    let mut result: Vec<Function> = Vec::new();
    let mut i: usize = 0;
    while i < nodes.len()
        invariant
            i <= nodes.len(),
            result@.len() == i,
            forall|j: int| 0 <= j < i ==> view::function(#[trigger] result@[j]) == view::function(nodes@[j]),
        decreases nodes.len() - i,
    {
        let node = self::function(&nodes[i]);
        result.push(node);
        i += 1;
    }
    assert(view::functions(result@) =~= view::functions(nodes@));
    result
}

pub fn impl_items(nodes: &Vec<ImplItem>) -> (result: Vec<ImplItem>)
    ensures
        view::impl_items(result@) == view::impl_items(nodes@),
    decreases nodes,
{
    let mut result: Vec<ImplItem> = Vec::new();
    let mut i: usize = 0;
    while i < nodes.len()
        invariant
            i <= nodes.len(),
            result@.len() == i,
            forall|j: int| 0 <= j < i ==> view::impl_item(#[trigger] result@[j]) == view::impl_item(nodes@[j]),
        decreases nodes.len() - i,
    {
        let node = self::impl_item(&nodes[i]);
        result.push(node);
        i += 1;
    }
    assert(view::impl_items(result@) =~= view::impl_items(nodes@));
    result
}

pub fn macro_exprs(nodes: &Vec<MacroExpr>) -> (result: Vec<MacroExpr>)
    ensures
        view::macro_exprs(result@) == view::macro_exprs(nodes@),
    decreases nodes,
{
    let mut result: Vec<MacroExpr> = Vec::new();
    let mut i: usize = 0;
    while i < nodes.len()
        invariant
            i <= nodes.len(),
            result@.len() == i,
            forall|j: int| 0 <= j < i ==> view::macro_expr(#[trigger] result@[j]) == view::macro_expr(nodes@[j]),
        decreases nodes.len() - i,
    {
        let node = self::macro_expr(&nodes[i]);
        result.push(node);
        i += 1;
    }
    assert(view::macro_exprs(result@) =~= view::macro_exprs(nodes@));
    result
}

pub fn macro_parameters(nodes: &Vec<MacroParameter>) -> (result: Vec<MacroParameter>)
    ensures
        view::macro_parameters(result@) == view::macro_parameters(nodes@),
    decreases nodes,
{
    let mut result: Vec<MacroParameter> = Vec::new();
    let mut i: usize = 0;
    while i < nodes.len()
        invariant
            i <= nodes.len(),
            result@.len() == i,
            forall|j: int| 0 <= j < i ==> view::macro_parameter(
                #[trigger] result@[j],
            ) == view::macro_parameter(nodes@[j]),
        decreases nodes.len() - i,
    {
        let node = self::macro_parameter(&nodes[i]);
        result.push(node);
        i += 1;
    }
    assert(view::macro_parameters(result@) =~= view::macro_parameters(nodes@));
    result
}

pub fn match_cases(nodes: &Vec<MatchCase>) -> (result: Vec<MatchCase>)
    ensures
        view::match_cases(result@) == view::match_cases(nodes@),
    decreases nodes,
{
    let mut result: Vec<MatchCase> = Vec::new();
    let mut i: usize = 0;
    while i < nodes.len()
        invariant
            i <= nodes.len(),
            result@.len() == i,
            forall|j: int| 0 <= j < i ==> view::match_case(#[trigger] result@[j]) == view::match_case(nodes@[j]),
        decreases nodes.len() - i,
    {
        let node = self::match_case(&nodes[i]);
        result.push(node);
        i += 1;
    }
    assert(view::match_cases(result@) =~= view::match_cases(nodes@));
    result
}

pub fn modules(nodes: &Vec<Module>) -> (result: Vec<Module>)
    ensures
        view::modules(result@) == view::modules(nodes@),
    decreases nodes,
{
    let mut result: Vec<Module> = Vec::new();
    let mut i: usize = 0;
    while i < nodes.len()
        invariant
            i <= nodes.len(),
            result@.len() == i,
            forall|j: int| 0 <= j < i ==> view::module(#[trigger] result@[j]) == view::module(nodes@[j]),
        decreases nodes.len() - i,
    {
        let node = self::module(&nodes[i]);
        result.push(node);
        i += 1;
    }
    assert(view::modules(result@) =~= view::modules(nodes@));
    result
}

pub fn names(nodes: &Vec<Name>) -> (result: Vec<Name>)
    ensures
        view::names(result@) == view::names(nodes@),
    decreases nodes,
{
    let mut result: Vec<Name> = Vec::new();
    let mut i: usize = 0;
    while i < nodes.len()
        invariant
            i <= nodes.len(),
            result@.len() == i,
            forall|j: int| 0 <= j < i ==> view::name(#[trigger] result@[j]) == view::name(nodes@[j]),
        decreases nodes.len() - i,
    {
        let node = self::name(&nodes[i]);
        result.push(node);
        i += 1;
    }
    assert(view::names(result@) =~= view::names(nodes@));
    result
}

pub fn parameters(nodes: &Vec<Parameter>) -> (result: Vec<Parameter>)
    ensures
        view::parameters(result@) == view::parameters(nodes@),
    decreases nodes,
{
    let mut result: Vec<Parameter> = Vec::new();
    let mut i: usize = 0;
    while i < nodes.len()
        invariant
            i <= nodes.len(),
            result@.len() == i,
            forall|j: int| 0 <= j < i ==> view::parameter(#[trigger] result@[j]) == view::parameter(nodes@[j]),
        decreases nodes.len() - i,
    {
        let node = self::parameter(&nodes[i]);
        result.push(node);
        i += 1;
    }
    assert(view::parameters(result@) =~= view::parameters(nodes@));
    result
}

pub fn pattern_fields(nodes: &Vec<PatternField>) -> (result: Vec<PatternField>)
    ensures
        view::pattern_fields(result@) == view::pattern_fields(nodes@),
    decreases nodes,
{
    let mut result: Vec<PatternField> = Vec::new();
    let mut i: usize = 0;
    while i < nodes.len()
        invariant
            i <= nodes.len(),
            result@.len() == i,
            forall|j: int| 0 <= j < i ==> view::pattern_field(#[trigger] result@[j]) == view::pattern_field(nodes@[j]),
        decreases nodes.len() - i,
    {
        let node = self::pattern_field(&nodes[i]);
        result.push(node);
        i += 1;
    }
    assert(view::pattern_fields(result@) =~= view::pattern_fields(nodes@));
    result
}

pub fn pattern_pairs(nodes: &Vec<(Pattern, Pattern)>) -> (result: Vec<(Pattern, Pattern)>)
    ensures
        view::pattern_pairs(result@) == view::pattern_pairs(nodes@),
    decreases nodes,
{
    let mut result: Vec<(Pattern, Pattern)> = Vec::new();
    let mut i: usize = 0;
    while i < nodes.len()
        invariant
            i <= nodes.len(),
            result@.len() == i,
            forall|j: int| 0 <= j < i ==> view::pattern(
                #[trigger] result@[j].0,
            ) == view::pattern(nodes@[j].0) && view::pattern(result@[j].1) == view::pattern(nodes@[j].1),
        decreases nodes.len() - i,
    {
        let node = (self::pattern(&nodes[i].0), self::pattern(&nodes[i].1));
        result.push(node);
        i += 1;
    }
    assert(view::pattern_pairs(result@) =~= view::pattern_pairs(nodes@));
    result
}

pub fn patterns(nodes: &Vec<Pattern>) -> (result: Vec<Pattern>)
    ensures
        view::patterns(result@) == view::patterns(nodes@),
    decreases nodes,
{
    let mut result: Vec<Pattern> = Vec::new();
    let mut i: usize = 0;
    while i < nodes.len()
        invariant
            i <= nodes.len(),
            result@.len() == i,
            forall|j: int| 0 <= j < i ==> view::pattern(#[trigger] result@[j]) == view::pattern(nodes@[j]),
        decreases nodes.len() - i,
    {
        let node = self::pattern(&nodes[i]);
        result.push(node);
        i += 1;
    }
    assert(view::patterns(result@) =~= view::patterns(nodes@));
    result
}

pub fn test_metas(nodes: &Vec<TestMeta>) -> (result: Vec<TestMeta>)
    ensures
        view::test_metas(result@) == view::test_metas(nodes@),
    decreases nodes,
{
    let mut result: Vec<TestMeta> = Vec::new();
    let mut i: usize = 0;
    while i < nodes.len()
        invariant
            i <= nodes.len(),
            result@.len() == i,
            forall|j: int| 0 <= j < i ==> view::test_meta(#[trigger] result@[j]) == view::test_meta(nodes@[j]),
        decreases nodes.len() - i,
    {
        let node = self::test_meta(&nodes[i]);
        result.push(node);
        i += 1;
    }
    assert(view::test_metas(result@) =~= view::test_metas(nodes@));
    result
}

pub fn top_levels(nodes: &Vec<TopLevel>) -> (result: Vec<TopLevel>)
    ensures
        view::top_levels(result@) == view::top_levels(nodes@),
    decreases nodes,
{
    let mut result: Vec<TopLevel> = Vec::new();
    let mut i: usize = 0;
    while i < nodes.len()
        invariant
            i <= nodes.len(),
            result@.len() == i,
            forall|j: int| 0 <= j < i ==> view::top_level(#[trigger] result@[j]) == view::top_level(nodes@[j]),
        decreases nodes.len() - i,
    {
        let node = self::top_level(&nodes[i]);
        result.push(node);
        i += 1;
    }
    assert(view::top_levels(result@) =~= view::top_levels(nodes@));
    result
}

pub fn type_exprs(nodes: &Vec<TypeExpr>) -> (result: Vec<TypeExpr>)
    ensures
        view::type_exprs(result@) == view::type_exprs(nodes@),
    decreases nodes,
{
    let mut result: Vec<TypeExpr> = Vec::new();
    let mut i: usize = 0;
    while i < nodes.len()
        invariant
            i <= nodes.len(),
            result@.len() == i,
            forall|j: int| 0 <= j < i ==> view::type_expr(#[trigger] result@[j]) == view::type_expr(nodes@[j]),
        decreases nodes.len() - i,
    {
        let node = self::type_expr(&nodes[i]);
        result.push(node);
        i += 1;
    }
    assert(view::type_exprs(result@) =~= view::type_exprs(nodes@));
    result
}

pub fn type_members(nodes: &Vec<TypeMember>) -> (result: Vec<TypeMember>)
    ensures
        view::type_members(result@) == view::type_members(nodes@),
    decreases nodes,
{
    let mut result: Vec<TypeMember> = Vec::new();
    let mut i: usize = 0;
    while i < nodes.len()
        invariant
            i <= nodes.len(),
            result@.len() == i,
            forall|j: int| 0 <= j < i ==> view::type_member(#[trigger] result@[j]) == view::type_member(nodes@[j]),
        decreases nodes.len() - i,
    {
        let node = self::type_member(&nodes[i]);
        result.push(node);
        i += 1;
    }
    assert(view::type_members(result@) =~= view::type_members(nodes@));
    result
}

pub fn type_parameters(nodes: &Vec<TypeParameter>) -> (result: Vec<TypeParameter>)
    ensures
        view::type_parameters(result@) == view::type_parameters(nodes@),
    decreases nodes,
{
    let mut result: Vec<TypeParameter> = Vec::new();
    let mut i: usize = 0;
    while i < nodes.len()
        invariant
            i <= nodes.len(),
            result@.len() == i,
            forall|j: int| 0 <= j < i ==> view::type_parameter(
                #[trigger] result@[j],
            ) == view::type_parameter(nodes@[j]),
        decreases nodes.len() - i,
    {
        let node = self::type_parameter(&nodes[i]);
        result.push(node);
        i += 1;
    }
    assert(view::type_parameters(result@) =~= view::type_parameters(nodes@));
    result
}

} // verus!
