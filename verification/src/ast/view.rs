//! What the surface tree holds, as mathematical values: vectors become
//! sequences and strings become sequences of characters.
use vstd::prelude::*;
use crate::ast::surface::{
    Annotation, AnnotationKind, AstError, Constant, Definition, DocumentId, Expr, ExprField, ExprKind, Function,
    ImplItem, Import,
    Literal, Macro, MacroExpr, MacroExprKind, MacroParameter, MatchCase, MethodBinding, Module, Name, Origin,
    Parameter,
    Pattern, PatternField, PatternKind, Spanned, SyntaxCategory, Test, TestMeta, TopLevel, TypeExpr, TypeExprKind,
    TypeMember, TypeParameter, Visibility,
};
use crate::syntax::{AtomView, NodeView, Span};

verus! {

pub type NameView = Spanned<Seq<char>>;

pub type TypeExprView = Spanned<TypeExprKindView>;

pub type ExprView = Spanned<ExprKindView>;

pub type PatternView = Spanned<PatternKindView>;

pub type AnnotationView = Spanned<AnnotationKindView>;

pub type MacroExprView = Spanned<MacroExprKindView>;

pub struct ModuleView {
    pub forms: Seq<TopLevelView>,
    pub span: Span,
    pub document_id: DocumentId,
}

pub struct ImportView {
    pub alias: NameView,
    pub path: NameView,
    pub span: Span,
    pub origin: Origin,
}

pub struct DefinitionView {
    pub visibility: Visibility,
    pub name: NameView,
    pub body: TypeExprView,
    pub annotations: Seq<AnnotationView>,
    pub span: Span,
    pub origin: Origin,
}

pub struct ConstantView {
    pub visibility: Visibility,
    pub name: NameView,
    pub ty: TypeExprView,
    pub value: ExprView,
    pub annotations: Seq<AnnotationView>,
    pub span: Span,
    pub origin: Origin,
}

pub struct FunctionView {
    pub visibility: Visibility,
    pub name: NameView,
    pub parameters: Seq<ParameterView>,
    pub return_type: TypeExprView,
    pub body: Seq<ExprView>,
    pub annotations: Seq<AnnotationView>,
    pub span: Span,
    pub origin: Origin,
}

pub struct MacroView {
    pub visibility: Visibility,
    pub name: NameView,
    pub parameters: Seq<MacroParameterView>,
    pub result: Spanned<SyntaxCategory>,
    pub body: Seq<MacroExprView>,
    pub annotations: Seq<AnnotationView>,
    pub span: Span,
    pub origin: Origin,
}

pub struct MacroParameterView {
    pub name: NameView,
    pub category: Spanned<SyntaxCategory>,
    pub span: Span,
}

pub struct ParameterView {
    pub name: NameView,
    pub ty: TypeExprView,
    pub span: Span,
}

pub struct TestView {
    pub name: NameView,
    pub profile: NameView,
    pub body: Seq<ExprView>,
    pub metadata: Seq<TestMetaView>,
    pub span: Span,
    pub origin: Origin,
}

pub struct TypeMemberView {
    pub name: NameView,
    pub ty: TypeExprView,
    pub span: Span,
}

pub struct ExprFieldView {
    pub name: NameView,
    pub value: ExprView,
    pub span: Span,
}

pub struct MatchCaseView {
    pub pattern: PatternView,
    pub body: Seq<ExprView>,
    pub span: Span,
}

pub struct PatternFieldView {
    pub name: NameView,
    pub pattern: PatternView,
    pub span: Span,
}

pub struct TypeParameterView {
    pub name: NameView,
    pub bounds: Seq<TypeExprView>,
    pub span: Span,
}

pub enum TopLevelView {
    Import(ImportView),
    Definition(DefinitionView),
    Constant(ConstantView),
    Function(FunctionView),
    Macro(MacroView),
    Test(TestView),
}

pub enum MacroExprKindView {
    Atom(AtomView),
    Let { name: NameView, value: Box<MacroExprView> },
    If { condition: Box<MacroExprView>, then_body: Seq<MacroExprView>, else_body: Seq<MacroExprView> },
    Quote { category: Spanned<SyntaxCategory>, form: NodeView },
    Unquote(NameView),
    Splice(NameView),
    Capture(NameView),
}

pub enum TestMetaView {
    Tags(Seq<NameView>),
    ExpectError { phase: NameView, code: NameView, message: Option<NameView> },
    Clock { mode: NameView, millis: Spanned<i64> },
    Benchmark(NodeView),
    Workspace(NameView),
}

pub enum TypeExprKindView {
    Named(Seq<char>),
    Application { constructor: NameView, arguments: Seq<TypeExprView> },
    Record(Seq<TypeMemberView>),
    Tuple(Seq<TypeExprView>),
    Array(Box<TypeExprView>),
    Mapping(Box<TypeExprView>, Box<TypeExprView>),
    Union(Seq<TypeExprView>),
    Enum(Seq<TypeMemberView>),
    Interface(Seq<TypeMemberView>),
    Function { parameters: Seq<TypeExprView>, result: Box<TypeExprView> },
    Newtype(Box<TypeExprView>),
    Mutable(Box<TypeExprView>),
    Reference(Box<TypeExprView>),
    MutableReference(Box<TypeExprView>),
    Intersect(Seq<TypeExprView>),
    Domain { head: NameView, arguments: Seq<TypeExprView> },
}

pub enum LiteralView {
    String(Seq<char>),
    Bool(bool),
    Int(i64),
    Float(u64),
    Unit,
}

pub enum ExprKindView {
    Literal(LiteralView),
    Reference(Seq<char>),
    Call { callee: NameView, arguments: Seq<ExprView> },
    Do(Seq<ExprView>),
    Let { name: NameView, ty: Option<TypeExprView>, value: Box<ExprView> },
    Assign { name: NameView, value: Box<ExprView> },
    Return(Option<Box<ExprView>>),
    If { condition: Box<ExprView>, then_body: Seq<ExprView>, else_body: Seq<ExprView> },
    While { condition: Box<ExprView>, body: Seq<ExprView> },
    For { binding: NameView, source: Box<ExprView>, body: Seq<ExprView> },
    Match { target: Box<ExprView>, cases: Seq<MatchCaseView> },
    Break,
    Continue,
    Record(Seq<ExprFieldView>),
    Tuple(Seq<ExprView>),
    Array(Seq<ExprView>),
    Mapping(Seq<(ExprView, ExprView)>),
    Mutable(Box<ExprView>),
    ReferenceOf(Box<ExprView>),
    Range(Box<ExprView>, Box<ExprView>, Box<ExprView>),
    Convert { value: Box<ExprView>, into: TypeExprView, fallback: LiteralView },
    Cast { value: Box<ExprView>, into: TypeExprView },
    Task { captures: Seq<NameView>, body: Seq<ExprView> },
    Spawn { handle: NameView, captures: Seq<NameView>, value: Box<ExprView> },
    Join { handle: NameView, binding: NameView },
}

pub enum PatternKindView {
    Literal(LiteralView),
    Wildcard,
    Bind(NameView),
    Constructor { constructor: NameView, arguments: Seq<PatternView> },
    Record(Seq<PatternFieldView>),
    Tuple(Seq<PatternView>),
    Array(Seq<PatternView>),
    Mapping(Seq<(PatternView, PatternView)>),
    Newtype { ty: TypeExprView, pattern: Box<PatternView> },
    Interface { ty: TypeExprView, pattern: Box<PatternView> },
}

pub enum AnnotationKindView {
    Doc(Seq<char>),
    Where(Seq<TypeParameterView>),
    Definitions(Seq<FunctionView>),
    Implementation { interface: TypeExprView, items: Seq<ImplItemView> },
}

pub enum ImplItemView {
    Types(Seq<TypeExprView>),
    Method { name: NameView, binding: MethodBindingView, span: Span },
}

pub enum MethodBindingView {
    Reference(NameView),
    Function(FunctionView),
}

pub struct AstErrorView {
    pub code: Seq<char>,
    pub message: Seq<char>,
    pub span: Span,
    pub related: Seq<(Seq<char>, Span)>,
}

pub open spec fn ast_error(error: AstError) -> AstErrorView {
    AstErrorView {
        code: error.code@,
        message: error.message@,
        span: error.span,
        related: Seq::new(error.related@.len(), |i: int| (error.related@[i].0@, error.related@[i].1)),
    }
}

pub open spec fn name(name: Name) -> NameView {
    Spanned { value: name.value@, span: name.span, origin: name.origin }
}

impl ExprKindView {
    /// Bindings, sequences and control flow.
    pub open spec fn is_control(self) -> bool {
        self is Do || self is Let || self is Assign || self is Return || self is If || self is While || self is For
            || self is Match
        || self is Break || self is Continue
    }

    /// Data construction and conversion.
    pub open spec fn is_data(self) -> bool {
        self is Record || self is Tuple || self is Array || self is Mapping || self is Mutable || self is ReferenceOf
            || self is Range
        || self is Convert || self is Cast
    }
}

impl ExprKind {
    /// Whether this binds, sequences or steers control flow.
    pub(crate) fn is_control(&self) -> (result: bool)
        ensures
            result == expr_kind(*self).is_control(),
    {
        reveal(expr_kind);
        match self {
            ExprKind::Do(_) | ExprKind::Let { .. } | ExprKind::Assign { .. } | ExprKind::Return(_) | ExprKind::If { .. } => true,
            ExprKind::While { .. } | ExprKind::For { .. } | ExprKind::Match { .. } | ExprKind::Break | ExprKind::Continue => true,
            _ => false,
        }
    }

    /// Whether this constructs or converts data.
    pub(crate) fn is_data(&self) -> (result: bool)
        ensures
            result == expr_kind(*self).is_data(),
    {
        reveal(expr_kind);
        match self {
            ExprKind::Record(_) | ExprKind::Tuple(_) | ExprKind::Array(_) | ExprKind::Mapping(_) | ExprKind::Mutable(_) => true,
            ExprKind::ReferenceOf(_) | ExprKind::Range(_, _, _) | ExprKind::Convert { .. } | ExprKind::Cast { .. } => true,
            _ => false,
        }
    }
}

pub open spec fn type_expr(node: TypeExpr) -> TypeExprView
    decreases node,
{
    Spanned { value: type_kind(node.value), span: node.span, origin: node.origin }
}

pub open spec fn pattern(node: Pattern) -> PatternView
    decreases node,
{
    Spanned { value: pattern_kind(node.value), span: node.span, origin: node.origin }
}

pub open spec fn expr(node: Expr) -> ExprView
    decreases node,
{
    Spanned { value: expr_kind(node.value), span: node.span, origin: node.origin }
}

pub open spec fn macro_expr(node: MacroExpr) -> MacroExprView
    decreases node,
{
    Spanned { value: macro_kind(node.value), span: node.span, origin: node.origin }
}

pub open spec fn annotation(node: Annotation) -> AnnotationView
    decreases node,
{
    Spanned { value: annotation_kind(node.value), span: node.span, origin: node.origin }
}

pub open spec fn module(node: Module) -> ModuleView
    decreases node,
{
    ModuleView {
        forms: self::top_levels(node.forms@),
        span: node.span,
        document_id: node.document_id,
    }
}

pub open spec fn import(node: Import) -> ImportView
    decreases node,
{
    ImportView {
        alias: self::name(node.alias),
        path: self::name(node.path),
        span: node.span,
        origin: node.origin,
    }
}

pub open spec fn definition(node: Definition) -> DefinitionView
    decreases node,
{
    DefinitionView {
        visibility: node.visibility,
        name: self::name(node.name),
        body: self::type_expr(node.body),
        annotations: self::annotations(node.annotations@),
        span: node.span,
        origin: node.origin,
    }
}

pub open spec fn constant(node: Constant) -> ConstantView
    decreases node,
{
    ConstantView {
        visibility: node.visibility,
        name: self::name(node.name),
        ty: self::type_expr(node.ty),
        value: self::expr(node.value),
        annotations: self::annotations(node.annotations@),
        span: node.span,
        origin: node.origin,
    }
}

pub open spec fn function(node: Function) -> FunctionView
    decreases node,
{
    FunctionView {
        visibility: node.visibility,
        name: self::name(node.name),
        parameters: self::parameters(node.parameters@),
        return_type: self::type_expr(node.return_type),
        body: self::exprs(node.body@),
        annotations: self::annotations(node.annotations@),
        span: node.span,
        origin: node.origin,
    }
}

pub open spec fn macro_definition(node: Macro) -> MacroView
    decreases node,
{
    MacroView {
        visibility: node.visibility,
        name: self::name(node.name),
        parameters: self::macro_parameters(node.parameters@),
        result: node.result,
        body: self::macro_exprs(node.body@),
        annotations: self::annotations(node.annotations@),
        span: node.span,
        origin: node.origin,
    }
}

pub open spec fn macro_parameter(node: MacroParameter) -> MacroParameterView
    decreases node,
{
    MacroParameterView {
        name: self::name(node.name),
        category: node.category,
        span: node.span,
    }
}

pub open spec fn parameter(node: Parameter) -> ParameterView
    decreases node,
{
    ParameterView {
        name: self::name(node.name),
        ty: self::type_expr(node.ty),
        span: node.span,
    }
}

pub open spec fn test(node: Test) -> TestView
    decreases node,
{
    TestView {
        name: self::name(node.name),
        profile: self::name(node.profile),
        body: self::exprs(node.body@),
        metadata: self::test_metas(node.metadata@),
        span: node.span,
        origin: node.origin,
    }
}

pub open spec fn type_member(node: TypeMember) -> TypeMemberView
    decreases node,
{
    TypeMemberView {
        name: self::name(node.name),
        ty: self::type_expr(node.ty),
        span: node.span,
    }
}

pub open spec fn expr_field(node: ExprField) -> ExprFieldView
    decreases node,
{
    ExprFieldView {
        name: self::name(node.name),
        value: self::expr(node.value),
        span: node.span,
    }
}

pub open spec fn match_case(node: MatchCase) -> MatchCaseView
    decreases node,
{
    MatchCaseView {
        pattern: self::pattern(node.pattern),
        body: self::exprs(node.body@),
        span: node.span,
    }
}

pub open spec fn pattern_field(node: PatternField) -> PatternFieldView
    decreases node,
{
    PatternFieldView {
        name: self::name(node.name),
        pattern: self::pattern(node.pattern),
        span: node.span,
    }
}

pub open spec fn type_parameter(node: TypeParameter) -> TypeParameterView
    decreases node,
{
    TypeParameterView {
        name: self::name(node.name),
        bounds: self::type_exprs(node.bounds@),
        span: node.span,
    }
}

#[verifier::opaque]
pub open spec fn top_level(node: TopLevel) -> TopLevelView
    decreases node,
{
    match node {
        TopLevel::Import(value) => TopLevelView::Import(self::import(value)),
        TopLevel::Definition(value) => TopLevelView::Definition(self::definition(value)),
        TopLevel::Constant(value) => TopLevelView::Constant(self::constant(value)),
        TopLevel::Function(value) => TopLevelView::Function(self::function(value)),
        TopLevel::Macro(value) => TopLevelView::Macro(self::macro_definition(value)),
        TopLevel::Test(value) => TopLevelView::Test(self::test(value)),
    }
}

#[verifier::opaque]
pub open spec fn macro_kind(node: MacroExprKind) -> MacroExprKindView
    decreases node,
{
    match node {
        MacroExprKind::Atom(value) => MacroExprKindView::Atom(value@),
        MacroExprKind::Let { name, value } => MacroExprKindView::Let {
            name: self::name(name),
            value: Box::new(self::macro_expr(*value)),
        },
        MacroExprKind::If { condition, then_body, else_body } => MacroExprKindView::If {
            condition: Box::new(self::macro_expr(*condition)),
            then_body: self::macro_exprs(then_body@),
            else_body: self::macro_exprs(else_body@),
        },
        MacroExprKind::Quote { category, form } => MacroExprKindView::Quote {
            category: category,
            form: crate::syntax::node_view(form),
        },
        MacroExprKind::Unquote(value) => MacroExprKindView::Unquote(self::name(value)),
        MacroExprKind::Splice(value) => MacroExprKindView::Splice(self::name(value)),
        MacroExprKind::Capture(value) => MacroExprKindView::Capture(self::name(value)),
    }
}

pub open spec fn test_meta(node: TestMeta) -> TestMetaView
    decreases node,
{
    match node {
        TestMeta::Tags(values) => TestMetaView::Tags(self::names(values@)),
        TestMeta::ExpectError { phase, code, message } => TestMetaView::ExpectError {
            phase: self::name(phase),
            code: self::name(code),
            message: match message {
                Some(inner) => Some(self::name(inner)),
                None => None,
            },
        },
        TestMeta::Clock { mode, millis } => TestMetaView::Clock {
            mode: self::name(mode),
            millis: millis,
        },
        TestMeta::Benchmark(value) => TestMetaView::Benchmark(crate::syntax::node_view(value)),
        TestMeta::Workspace(value) => TestMetaView::Workspace(self::name(value)),
    }
}

#[verifier::opaque]
pub open spec fn type_kind(node: TypeExprKind) -> TypeExprKindView
    decreases node,
{
    match node {
        TypeExprKind::Named(value) => TypeExprKindView::Named(value@),
        TypeExprKind::Application { constructor, arguments } => TypeExprKindView::Application {
            constructor: self::name(constructor),
            arguments: self::type_exprs(arguments@),
        },
        TypeExprKind::Record(values) => TypeExprKindView::Record(self::type_members(values@)),
        TypeExprKind::Tuple(values) => TypeExprKindView::Tuple(self::type_exprs(values@)),
        TypeExprKind::Array(value) => TypeExprKindView::Array(Box::new(self::type_expr(*value))),
        TypeExprKind::Mapping(first, second) => TypeExprKindView::Mapping(
            Box::new(self::type_expr(*first)),
            Box::new(self::type_expr(*second)),
        ),
        TypeExprKind::Union(values) => TypeExprKindView::Union(self::type_exprs(values@)),
        TypeExprKind::Enum(values) => TypeExprKindView::Enum(self::type_members(values@)),
        TypeExprKind::Interface(values) => TypeExprKindView::Interface(self::type_members(values@)),
        TypeExprKind::Function { parameters, result } => TypeExprKindView::Function {
            parameters: self::type_exprs(parameters@),
            result: Box::new(self::type_expr(*result)),
        },
        TypeExprKind::Newtype(value) => TypeExprKindView::Newtype(Box::new(self::type_expr(*value))),
        TypeExprKind::Mutable(value) => TypeExprKindView::Mutable(Box::new(self::type_expr(*value))),
        TypeExprKind::Reference(value) => TypeExprKindView::Reference(Box::new(self::type_expr(*value))),
        TypeExprKind::MutableReference(value) => TypeExprKindView::MutableReference(Box::new(self::type_expr(*value))),
        TypeExprKind::Intersect(values) => TypeExprKindView::Intersect(self::type_exprs(values@)),
        TypeExprKind::Domain { head, arguments } => TypeExprKindView::Domain {
            head: self::name(head),
            arguments: self::type_exprs(arguments@),
        },
    }
}

pub open spec fn literal(node: Literal) -> LiteralView
    decreases node,
{
    match node {
        Literal::String(value) => LiteralView::String(value@),
        Literal::Bool(value) => LiteralView::Bool(value),
        Literal::Int(value) => LiteralView::Int(value),
        Literal::Float(value) => LiteralView::Float(value),
        Literal::Unit => LiteralView::Unit,
    }
}

#[verifier::opaque]
pub open spec fn expr_kind(node: ExprKind) -> ExprKindView
    decreases node,
{
    match node {
        ExprKind::Literal(value) => ExprKindView::Literal(self::literal(value)),
        ExprKind::Reference(value) => ExprKindView::Reference(value@),
        ExprKind::Call { callee, arguments } => ExprKindView::Call {
            callee: self::name(callee),
            arguments: self::exprs(arguments@),
        },
        ExprKind::Do(values) => ExprKindView::Do(self::exprs(values@)),
        ExprKind::Let { name, ty, value } => ExprKindView::Let {
            name: self::name(name),
            ty: match ty {
                Some(inner) => Some(self::type_expr(inner)),
                None => None,
            },
            value: Box::new(self::expr(*value)),
        },
        ExprKind::Assign { name, value } => ExprKindView::Assign {
            name: self::name(name),
            value: Box::new(self::expr(*value)),
        },
        ExprKind::Return(value) => ExprKindView::Return(match value {
                Some(inner) => Some(Box::new(self::expr(*inner))),
                None => None,
        }),
        ExprKind::If { condition, then_body, else_body } => ExprKindView::If {
            condition: Box::new(self::expr(*condition)),
            then_body: self::exprs(then_body@),
            else_body: self::exprs(else_body@),
        },
        ExprKind::While { condition, body } => ExprKindView::While {
            condition: Box::new(self::expr(*condition)),
            body: self::exprs(body@),
        },
        ExprKind::For { binding, source, body } => ExprKindView::For {
            binding: self::name(binding),
            source: Box::new(self::expr(*source)),
            body: self::exprs(body@),
        },
        ExprKind::Match { target, cases } => ExprKindView::Match {
            target: Box::new(self::expr(*target)),
            cases: self::match_cases(cases@),
        },
        ExprKind::Break => ExprKindView::Break,
        ExprKind::Continue => ExprKindView::Continue,
        ExprKind::Record(values) => ExprKindView::Record(self::expr_fields(values@)),
        ExprKind::Tuple(values) => ExprKindView::Tuple(self::exprs(values@)),
        ExprKind::Array(values) => ExprKindView::Array(self::exprs(values@)),
        ExprKind::Mapping(values) => ExprKindView::Mapping(self::expr_pairs(values@)),
        ExprKind::Mutable(value) => ExprKindView::Mutable(Box::new(self::expr(*value))),
        ExprKind::ReferenceOf(value) => ExprKindView::ReferenceOf(Box::new(self::expr(*value))),
        ExprKind::Range(first, second, third) => ExprKindView::Range(
            Box::new(self::expr(*first)),
            Box::new(self::expr(*second)),
            Box::new(self::expr(*third)),
        ),
        ExprKind::Convert { value, into, fallback } => ExprKindView::Convert {
            value: Box::new(self::expr(*value)),
            into: self::type_expr(into),
            fallback: self::literal(fallback),
        },
        ExprKind::Cast { value, into } => ExprKindView::Cast {
            value: Box::new(self::expr(*value)),
            into: self::type_expr(into),
        },
        ExprKind::Task { captures, body } => ExprKindView::Task {
            captures: self::names(captures@),
            body: self::exprs(body@),
        },
        ExprKind::Spawn { handle, captures, value } => ExprKindView::Spawn {
            handle: self::name(handle),
            captures: self::names(captures@),
            value: Box::new(self::expr(*value)),
        },
        ExprKind::Join { handle, binding } => ExprKindView::Join {
            handle: self::name(handle),
            binding: self::name(binding),
        },
    }
}

#[verifier::opaque]
pub open spec fn pattern_kind(node: PatternKind) -> PatternKindView
    decreases node,
{
    match node {
        PatternKind::Literal(value) => PatternKindView::Literal(self::literal(value)),
        PatternKind::Wildcard => PatternKindView::Wildcard,
        PatternKind::Bind(value) => PatternKindView::Bind(self::name(value)),
        PatternKind::Constructor { constructor, arguments } => PatternKindView::Constructor {
            constructor: self::name(constructor),
            arguments: self::patterns(arguments@),
        },
        PatternKind::Record(values) => PatternKindView::Record(self::pattern_fields(values@)),
        PatternKind::Tuple(values) => PatternKindView::Tuple(self::patterns(values@)),
        PatternKind::Array(values) => PatternKindView::Array(self::patterns(values@)),
        PatternKind::Mapping(values) => PatternKindView::Mapping(self::pattern_pairs(values@)),
        PatternKind::Newtype { ty, pattern } => PatternKindView::Newtype {
            ty: self::type_expr(ty),
            pattern: Box::new(self::pattern(*pattern)),
        },
        PatternKind::Interface { ty, pattern } => PatternKindView::Interface {
            ty: self::type_expr(ty),
            pattern: Box::new(self::pattern(*pattern)),
        },
    }
}

#[verifier::opaque]
pub open spec fn annotation_kind(node: AnnotationKind) -> AnnotationKindView
    decreases node,
{
    match node {
        AnnotationKind::Doc(value) => AnnotationKindView::Doc(value@),
        AnnotationKind::Where(values) => AnnotationKindView::Where(self::type_parameters(values@)),
        AnnotationKind::Definitions(values) => AnnotationKindView::Definitions(self::functions(values@)),
        AnnotationKind::Implementation { interface, items } => AnnotationKindView::Implementation {
            interface: self::type_expr(interface),
            items: self::impl_items(items@),
        },
    }
}

pub open spec fn impl_item(node: ImplItem) -> ImplItemView
    decreases node,
{
    match node {
        ImplItem::Types(values) => ImplItemView::Types(self::type_exprs(values@)),
        ImplItem::Method { name, binding, span } => ImplItemView::Method {
            name: self::name(name),
            binding: self::method_binding(binding),
            span: span,
        },
    }
}

pub open spec fn method_binding(node: MethodBinding) -> MethodBindingView
    decreases node,
{
    match node {
        MethodBinding::Reference(value) => MethodBindingView::Reference(self::name(value)),
        MethodBinding::Function(value) => MethodBindingView::Function(self::function(value)),
    }
}

pub open spec fn annotations(nodes: Seq<Annotation>) -> Seq<AnnotationView>
    decreases nodes,
{
    Seq::new(nodes.len(), |i: int| if 0 <= i < nodes.len() { self::annotation(nodes[i]) } else { arbitrary() })
}

pub open spec fn expr_fields(nodes: Seq<ExprField>) -> Seq<ExprFieldView>
    decreases nodes,
{
    Seq::new(nodes.len(), |i: int| if 0 <= i < nodes.len() { self::expr_field(nodes[i]) } else { arbitrary() })
}

pub open spec fn expr_pairs(nodes: Seq<(Expr, Expr)>) -> Seq<(ExprView, ExprView)>
    decreases nodes,
{
    Seq::new(nodes.len(), |i: int| if 0 <= i < nodes.len() { (self::expr(nodes[i].0), self::expr(nodes[i].1)) } else { arbitrary() })
}

pub open spec fn exprs(nodes: Seq<Expr>) -> Seq<ExprView>
    decreases nodes,
{
    Seq::new(nodes.len(), |i: int| if 0 <= i < nodes.len() { self::expr(nodes[i]) } else { arbitrary() })
}

pub open spec fn functions(nodes: Seq<Function>) -> Seq<FunctionView>
    decreases nodes,
{
    Seq::new(nodes.len(), |i: int| if 0 <= i < nodes.len() { self::function(nodes[i]) } else { arbitrary() })
}

pub open spec fn impl_items(nodes: Seq<ImplItem>) -> Seq<ImplItemView>
    decreases nodes,
{
    Seq::new(nodes.len(), |i: int| if 0 <= i < nodes.len() { self::impl_item(nodes[i]) } else { arbitrary() })
}

pub open spec fn macro_exprs(nodes: Seq<MacroExpr>) -> Seq<MacroExprView>
    decreases nodes,
{
    Seq::new(nodes.len(), |i: int| if 0 <= i < nodes.len() { self::macro_expr(nodes[i]) } else { arbitrary() })
}

pub open spec fn macro_parameters(nodes: Seq<MacroParameter>) -> Seq<MacroParameterView>
    decreases nodes,
{
    Seq::new(nodes.len(), |i: int| if 0 <= i < nodes.len() { self::macro_parameter(nodes[i]) } else { arbitrary() })
}

pub open spec fn match_cases(nodes: Seq<MatchCase>) -> Seq<MatchCaseView>
    decreases nodes,
{
    Seq::new(nodes.len(), |i: int| if 0 <= i < nodes.len() { self::match_case(nodes[i]) } else { arbitrary() })
}

pub open spec fn modules(nodes: Seq<Module>) -> Seq<ModuleView>
    decreases nodes,
{
    Seq::new(nodes.len(), |i: int| if 0 <= i < nodes.len() { self::module(nodes[i]) } else { arbitrary() })
}

pub open spec fn names(nodes: Seq<Name>) -> Seq<NameView>
{
    Seq::new(nodes.len(), |i: int| if 0 <= i < nodes.len() { self::name(nodes[i]) } else { arbitrary() })
}

pub open spec fn parameters(nodes: Seq<Parameter>) -> Seq<ParameterView>
    decreases nodes,
{
    Seq::new(nodes.len(), |i: int| if 0 <= i < nodes.len() { self::parameter(nodes[i]) } else { arbitrary() })
}

pub open spec fn pattern_fields(nodes: Seq<PatternField>) -> Seq<PatternFieldView>
    decreases nodes,
{
    Seq::new(nodes.len(), |i: int| if 0 <= i < nodes.len() { self::pattern_field(nodes[i]) } else { arbitrary() })
}

pub open spec fn pattern_pairs(nodes: Seq<(Pattern, Pattern)>) -> Seq<(PatternView, PatternView)>
    decreases nodes,
{
    Seq::new(nodes.len(), |i: int| if 0 <= i < nodes.len() { (self::pattern(nodes[i].0), self::pattern(nodes[i].1)) } else { arbitrary() })
}

pub open spec fn patterns(nodes: Seq<Pattern>) -> Seq<PatternView>
    decreases nodes,
{
    Seq::new(nodes.len(), |i: int| if 0 <= i < nodes.len() { self::pattern(nodes[i]) } else { arbitrary() })
}

pub open spec fn test_metas(nodes: Seq<TestMeta>) -> Seq<TestMetaView>
    decreases nodes,
{
    Seq::new(nodes.len(), |i: int| if 0 <= i < nodes.len() { self::test_meta(nodes[i]) } else { arbitrary() })
}

pub open spec fn top_levels(nodes: Seq<TopLevel>) -> Seq<TopLevelView>
    decreases nodes,
{
    Seq::new(nodes.len(), |i: int| if 0 <= i < nodes.len() { self::top_level(nodes[i]) } else { arbitrary() })
}

pub open spec fn type_exprs(nodes: Seq<TypeExpr>) -> Seq<TypeExprView>
    decreases nodes,
{
    Seq::new(nodes.len(), |i: int| if 0 <= i < nodes.len() { self::type_expr(nodes[i]) } else { arbitrary() })
}

pub open spec fn type_members(nodes: Seq<TypeMember>) -> Seq<TypeMemberView>
    decreases nodes,
{
    Seq::new(nodes.len(), |i: int| if 0 <= i < nodes.len() { self::type_member(nodes[i]) } else { arbitrary() })
}

pub open spec fn type_parameters(nodes: Seq<TypeParameter>) -> Seq<TypeParameterView>
    decreases nodes,
{
    Seq::new(nodes.len(), |i: int| if 0 <= i < nodes.len() { self::type_parameter(nodes[i]) } else { arbitrary() })
}

pub proof fn lemma_annotations_push(nodes: Seq<Annotation>, node: Annotation)
    ensures
        self::annotations(nodes.push(node)) == self::annotations(nodes).push(self::annotation(node)),
{
    let left = self::annotations(nodes.push(node));
    let right = self::annotations(nodes).push(self::annotation(node));
    assert forall|i: int| 0 <= i < left.len() implies left[i] == right[i] by {
        if i < nodes.len() {
            assert(nodes.push(node)[i] == nodes[i]);
        } else {
            assert(nodes.push(node)[i] == node);
        }
    }
    assert(left =~= right);
}

pub proof fn lemma_expr_fields_push(nodes: Seq<ExprField>, node: ExprField)
    ensures
        self::expr_fields(nodes.push(node)) == self::expr_fields(nodes).push(self::expr_field(node)),
{
    let left = self::expr_fields(nodes.push(node));
    let right = self::expr_fields(nodes).push(self::expr_field(node));
    assert forall|i: int| 0 <= i < left.len() implies left[i] == right[i] by {
        if i < nodes.len() {
            assert(nodes.push(node)[i] == nodes[i]);
        } else {
            assert(nodes.push(node)[i] == node);
        }
    }
    assert(left =~= right);
}

pub proof fn lemma_expr_pairs_push(nodes: Seq<(Expr, Expr)>, node: (Expr, Expr))
    ensures
        self::expr_pairs(nodes.push(node)) == self::expr_pairs(nodes).push((self::expr(node.0), self::expr(node.1))),
{
    let left = self::expr_pairs(nodes.push(node));
    let right = self::expr_pairs(nodes).push((self::expr(node.0), self::expr(node.1)));
    assert forall|i: int| 0 <= i < left.len() implies left[i] == right[i] by {
        if i < nodes.len() {
            assert(nodes.push(node)[i] == nodes[i]);
        } else {
            assert(nodes.push(node)[i] == node);
        }
    }
    assert(left =~= right);
}

pub proof fn lemma_exprs_push(nodes: Seq<Expr>, node: Expr)
    ensures
        self::exprs(nodes.push(node)) == self::exprs(nodes).push(self::expr(node)),
{
    let left = self::exprs(nodes.push(node));
    let right = self::exprs(nodes).push(self::expr(node));
    assert forall|i: int| 0 <= i < left.len() implies left[i] == right[i] by {
        if i < nodes.len() {
            assert(nodes.push(node)[i] == nodes[i]);
        } else {
            assert(nodes.push(node)[i] == node);
        }
    }
    assert(left =~= right);
}

pub proof fn lemma_functions_push(nodes: Seq<Function>, node: Function)
    ensures
        self::functions(nodes.push(node)) == self::functions(nodes).push(self::function(node)),
{
    let left = self::functions(nodes.push(node));
    let right = self::functions(nodes).push(self::function(node));
    assert forall|i: int| 0 <= i < left.len() implies left[i] == right[i] by {
        if i < nodes.len() {
            assert(nodes.push(node)[i] == nodes[i]);
        } else {
            assert(nodes.push(node)[i] == node);
        }
    }
    assert(left =~= right);
}

pub proof fn lemma_impl_items_push(nodes: Seq<ImplItem>, node: ImplItem)
    ensures
        self::impl_items(nodes.push(node)) == self::impl_items(nodes).push(self::impl_item(node)),
{
    let left = self::impl_items(nodes.push(node));
    let right = self::impl_items(nodes).push(self::impl_item(node));
    assert forall|i: int| 0 <= i < left.len() implies left[i] == right[i] by {
        if i < nodes.len() {
            assert(nodes.push(node)[i] == nodes[i]);
        } else {
            assert(nodes.push(node)[i] == node);
        }
    }
    assert(left =~= right);
}

pub proof fn lemma_macro_exprs_push(nodes: Seq<MacroExpr>, node: MacroExpr)
    ensures
        self::macro_exprs(nodes.push(node)) == self::macro_exprs(nodes).push(self::macro_expr(node)),
{
    let left = self::macro_exprs(nodes.push(node));
    let right = self::macro_exprs(nodes).push(self::macro_expr(node));
    assert forall|i: int| 0 <= i < left.len() implies left[i] == right[i] by {
        if i < nodes.len() {
            assert(nodes.push(node)[i] == nodes[i]);
        } else {
            assert(nodes.push(node)[i] == node);
        }
    }
    assert(left =~= right);
}

pub proof fn lemma_macro_parameters_push(nodes: Seq<MacroParameter>, node: MacroParameter)
    ensures
        self::macro_parameters(nodes.push(node)) == self::macro_parameters(nodes).push(self::macro_parameter(node)),
{
    let left = self::macro_parameters(nodes.push(node));
    let right = self::macro_parameters(nodes).push(self::macro_parameter(node));
    assert forall|i: int| 0 <= i < left.len() implies left[i] == right[i] by {
        if i < nodes.len() {
            assert(nodes.push(node)[i] == nodes[i]);
        } else {
            assert(nodes.push(node)[i] == node);
        }
    }
    assert(left =~= right);
}

pub proof fn lemma_match_cases_push(nodes: Seq<MatchCase>, node: MatchCase)
    ensures
        self::match_cases(nodes.push(node)) == self::match_cases(nodes).push(self::match_case(node)),
{
    let left = self::match_cases(nodes.push(node));
    let right = self::match_cases(nodes).push(self::match_case(node));
    assert forall|i: int| 0 <= i < left.len() implies left[i] == right[i] by {
        if i < nodes.len() {
            assert(nodes.push(node)[i] == nodes[i]);
        } else {
            assert(nodes.push(node)[i] == node);
        }
    }
    assert(left =~= right);
}

pub proof fn lemma_modules_push(nodes: Seq<Module>, node: Module)
    ensures
        self::modules(nodes.push(node)) == self::modules(nodes).push(self::module(node)),
{
    let left = self::modules(nodes.push(node));
    let right = self::modules(nodes).push(self::module(node));
    assert forall|i: int| 0 <= i < left.len() implies left[i] == right[i] by {
        if i < nodes.len() {
            assert(nodes.push(node)[i] == nodes[i]);
        } else {
            assert(nodes.push(node)[i] == node);
        }
    }
    assert(left =~= right);
}

pub proof fn lemma_names_push(nodes: Seq<Name>, node: Name)
    ensures
        self::names(nodes.push(node)) == self::names(nodes).push(self::name(node)),
{
    let left = self::names(nodes.push(node));
    let right = self::names(nodes).push(self::name(node));
    assert forall|i: int| 0 <= i < left.len() implies left[i] == right[i] by {
        if i < nodes.len() {
            assert(nodes.push(node)[i] == nodes[i]);
        } else {
            assert(nodes.push(node)[i] == node);
        }
    }
    assert(left =~= right);
}

pub proof fn lemma_parameters_push(nodes: Seq<Parameter>, node: Parameter)
    ensures
        self::parameters(nodes.push(node)) == self::parameters(nodes).push(self::parameter(node)),
{
    let left = self::parameters(nodes.push(node));
    let right = self::parameters(nodes).push(self::parameter(node));
    assert forall|i: int| 0 <= i < left.len() implies left[i] == right[i] by {
        if i < nodes.len() {
            assert(nodes.push(node)[i] == nodes[i]);
        } else {
            assert(nodes.push(node)[i] == node);
        }
    }
    assert(left =~= right);
}

pub proof fn lemma_pattern_fields_push(nodes: Seq<PatternField>, node: PatternField)
    ensures
        self::pattern_fields(nodes.push(node)) == self::pattern_fields(nodes).push(self::pattern_field(node)),
{
    let left = self::pattern_fields(nodes.push(node));
    let right = self::pattern_fields(nodes).push(self::pattern_field(node));
    assert forall|i: int| 0 <= i < left.len() implies left[i] == right[i] by {
        if i < nodes.len() {
            assert(nodes.push(node)[i] == nodes[i]);
        } else {
            assert(nodes.push(node)[i] == node);
        }
    }
    assert(left =~= right);
}

pub proof fn lemma_pattern_pairs_push(nodes: Seq<(Pattern, Pattern)>, node: (Pattern, Pattern))
    ensures
        self::pattern_pairs(nodes.push(node)) == self::pattern_pairs(nodes).push(
            (self::pattern(node.0), self::pattern(node.1)),
        ),
{
    let left = self::pattern_pairs(nodes.push(node));
    let right = self::pattern_pairs(nodes).push((self::pattern(node.0), self::pattern(node.1)));
    assert forall|i: int| 0 <= i < left.len() implies left[i] == right[i] by {
        if i < nodes.len() {
            assert(nodes.push(node)[i] == nodes[i]);
        } else {
            assert(nodes.push(node)[i] == node);
        }
    }
    assert(left =~= right);
}

pub proof fn lemma_patterns_push(nodes: Seq<Pattern>, node: Pattern)
    ensures
        self::patterns(nodes.push(node)) == self::patterns(nodes).push(self::pattern(node)),
{
    let left = self::patterns(nodes.push(node));
    let right = self::patterns(nodes).push(self::pattern(node));
    assert forall|i: int| 0 <= i < left.len() implies left[i] == right[i] by {
        if i < nodes.len() {
            assert(nodes.push(node)[i] == nodes[i]);
        } else {
            assert(nodes.push(node)[i] == node);
        }
    }
    assert(left =~= right);
}

pub proof fn lemma_test_metas_push(nodes: Seq<TestMeta>, node: TestMeta)
    ensures
        self::test_metas(nodes.push(node)) == self::test_metas(nodes).push(self::test_meta(node)),
{
    let left = self::test_metas(nodes.push(node));
    let right = self::test_metas(nodes).push(self::test_meta(node));
    assert forall|i: int| 0 <= i < left.len() implies left[i] == right[i] by {
        if i < nodes.len() {
            assert(nodes.push(node)[i] == nodes[i]);
        } else {
            assert(nodes.push(node)[i] == node);
        }
    }
    assert(left =~= right);
}

pub proof fn lemma_top_levels_push(nodes: Seq<TopLevel>, node: TopLevel)
    ensures
        self::top_levels(nodes.push(node)) == self::top_levels(nodes).push(self::top_level(node)),
{
    let left = self::top_levels(nodes.push(node));
    let right = self::top_levels(nodes).push(self::top_level(node));
    assert forall|i: int| 0 <= i < left.len() implies left[i] == right[i] by {
        if i < nodes.len() {
            assert(nodes.push(node)[i] == nodes[i]);
        } else {
            assert(nodes.push(node)[i] == node);
        }
    }
    assert(left =~= right);
}

pub proof fn lemma_type_exprs_push(nodes: Seq<TypeExpr>, node: TypeExpr)
    ensures
        self::type_exprs(nodes.push(node)) == self::type_exprs(nodes).push(self::type_expr(node)),
{
    let left = self::type_exprs(nodes.push(node));
    let right = self::type_exprs(nodes).push(self::type_expr(node));
    assert forall|i: int| 0 <= i < left.len() implies left[i] == right[i] by {
        if i < nodes.len() {
            assert(nodes.push(node)[i] == nodes[i]);
        } else {
            assert(nodes.push(node)[i] == node);
        }
    }
    assert(left =~= right);
}

pub proof fn lemma_type_members_push(nodes: Seq<TypeMember>, node: TypeMember)
    ensures
        self::type_members(nodes.push(node)) == self::type_members(nodes).push(self::type_member(node)),
{
    let left = self::type_members(nodes.push(node));
    let right = self::type_members(nodes).push(self::type_member(node));
    assert forall|i: int| 0 <= i < left.len() implies left[i] == right[i] by {
        if i < nodes.len() {
            assert(nodes.push(node)[i] == nodes[i]);
        } else {
            assert(nodes.push(node)[i] == node);
        }
    }
    assert(left =~= right);
}

pub proof fn lemma_type_parameters_push(nodes: Seq<TypeParameter>, node: TypeParameter)
    ensures
        self::type_parameters(nodes.push(node)) == self::type_parameters(nodes).push(self::type_parameter(node)),
{
    let left = self::type_parameters(nodes.push(node));
    let right = self::type_parameters(nodes).push(self::type_parameter(node));
    assert forall|i: int| 0 <= i < left.len() implies left[i] == right[i] by {
        if i < nodes.len() {
            assert(nodes.push(node)[i] == nodes[i]);
        } else {
            assert(nodes.push(node)[i] == node);
        }
    }
    assert(left =~= right);
}

} // verus!
