//! The typed surface tree.
use vstd::prelude::*;
use std::sync::Arc;
use crate::syntax::{Atom, Node, Span};

verus! {

/// FNV-1a over 64 bits: each byte is folded in by exclusive or and a
/// multiplication modulo 2^64.
pub open spec fn fnv(bytes: Seq<u8>) -> u64
    decreases bytes.len(),
{
    if bytes.len() == 0 {
        0xcbf29ce484222325
    } else {
        fnv_step(fnv(bytes.drop_last()), bytes.last())
    }
}

pub open spec fn fnv_step(hash: u64, byte: u8) -> u64 {
    (hash ^ (byte as u64)).wrapping_mul(0x100000001b3)
}

/// FNV-1a of `bytes`. Identifiers must not depend on a seeded hasher.
pub fn stable_hash(bytes: &[u8]) -> (hash: u64)
    ensures
        hash == fnv(bytes@),
{
    let mut hash: u64 = 0xcbf29ce484222325;
    let mut i: usize = 0;
    assert(bytes@.take(0) =~= Seq::<u8>::empty());
    while i < bytes.len()
        invariant
            i <= bytes@.len(),
            hash == fnv(bytes@.take(i as int)),
        decreases bytes@.len() - i,
    {
        assert(bytes@.take(i as int + 1).drop_last() =~= bytes@.take(i as int));
        hash = (hash ^ (bytes[i] as u64)).wrapping_mul(0x100000001b3);
        i += 1;
    }
    assert(bytes@.take(i as int) =~= bytes@);
    hash
}

/// The eight bytes of `value`, least significant first.
pub open spec fn le_bytes(value: u64) -> Seq<u8> {
    vstd::bytes::spec_u64_to_le_bytes(value)
}

/// Stable identity for a source document across snapshots.
#[derive(Debug, Clone, Copy, PartialEq, Eq, PartialOrd, Ord, Hash, Structural)]
pub struct DocumentId(u64);

impl DocumentId {
    pub closed spec fn id(self) -> u64 {
        self.0
    }

    pub closed spec fn of_raw(raw: u64) -> DocumentId {
        DocumentId(raw)
    }

    /// The identity that belongs to no document.
    pub open spec fn none() -> DocumentId {
        DocumentId::of_raw(0)
    }

    /// The path with every backslash written as a slash.
    pub open spec fn normalized(path: Seq<char>) -> Seq<char> {
        Seq::new(path.len(), |i: int| if path[i] == '\\' { '/' } else { path[i] })
    }

    pub open spec fn of_path(path: Seq<char>) -> DocumentId {
        DocumentId::of_raw(fnv(vstd::utf8::encode_utf8(DocumentId::normalized(path))))
    }

    pub fn anonymous() -> (id: Self)
        ensures
            id == DocumentId::none(),
    {
        DocumentId(0)
    }

    pub fn from_raw(raw: u64) -> (id: Self)
        ensures
            id == DocumentId::of_raw(raw),
            id.id() == raw,
    {
        DocumentId(raw)
    }

    pub fn raw(self) -> (raw: u64)
        ensures
            raw == self.id(),
            DocumentId::of_raw(raw) == self,
    {
        self.0
    }

    /// Derive a deterministic identity from a normalized document path.
    pub fn from_path(path: &str) -> (id: Self)
        ensures
            id == DocumentId::of_path(path@),
    {
        let letters = crate::text::characters(path);
        let mut normalized = String::new();
        let mut i: usize = 0;
        while i < letters.len()
            invariant
                i <= letters.len(),
                letters@ == path@,
                normalized@ == DocumentId::normalized(path@).take(i as int),
            decreases letters.len() - i,
        {
            let letter: char = if letters[i] == '\\' { '/' } else { letters[i] };
            crate::text::push_char(&mut normalized, letter);
            i += 1;
            assert(normalized@ =~= DocumentId::normalized(path@).take(i as int));
        }
        assert(normalized@ =~= DocumentId::normalized(path@));
        DocumentId(stable_hash(normalized.as_str().as_bytes()))
    }
}

/// Two paths that differ in their separators alone name the same document.
pub proof fn law_document_ids_ignore_separator_style(left: Seq<char>, right: Seq<char>)
    requires
        left.len() == right.len(),
        forall|i: int|
            0 <= i < left.len() ==> left[i] == right[i] || (left[i] == '\\' && right[i] == '/') || (left[i] == '/'
                && right[i] == '\\'),
    ensures
        DocumentId::of_path(left) == DocumentId::of_path(right),
{
    assert(DocumentId::normalized(left) =~= DocumentId::normalized(right));
}

/// Stable identity of one typed node within a parsed document snapshot.
#[derive(Debug, Clone, Copy, PartialEq, Eq, PartialOrd, Ord, Hash, Structural)]
pub struct AstId(u64);

impl AstId {
    pub closed spec fn id(self) -> u64 {
        self.0
    }

    pub closed spec fn of_raw(raw: u64) -> AstId {
        AstId(raw)
    }

    /// The identity of the node that was read at `span`.
    pub open spec fn of_span(span: Span) -> AstId {
        AstId::of_raw(fnv(le_bytes(span.start as u64) + le_bytes(span.end as u64)))
    }

    pub fn from_raw(raw: u64) -> (id: Self)
        ensures
            id == AstId::of_raw(raw),
            id.id() == raw,
    {
        AstId(raw)
    }

    pub fn raw(self) -> (raw: u64)
        ensures
            raw == self.id(),
            AstId::of_raw(raw) == self,
    {
        self.0
    }

    pub(crate) fn from_span(span: Span) -> (id: Self)
        ensures
            id == AstId::of_span(span),
    {
        let mut bytes = vstd::bytes::u64_to_le_bytes(span.start as u64);
        let mut end = vstd::bytes::u64_to_le_bytes(span.end as u64);
        bytes.append(&mut end);
        AstId(stable_hash(bytes.as_slice()))
    }
}

#[derive(Debug, Clone, Copy, PartialEq, Eq, Structural)]
pub struct SourceLocation {
    pub document: DocumentId,
    pub span: Span,
}

/// Where a node comes from.
#[derive(Debug, PartialEq, Eq)]
#[allow(inconsistent_fields)]
pub enum Origin {
    /// A detached fragment that belongs to no document.
    Source(Span),
    DocumentSource {
        document: DocumentId,
        ast_id: AstId,
        span: Span,
    },
    Expansion {
        call_site: Span,
        definition: Span,
        parent: Arc<Origin>,
    },
    DocumentExpansion {
        ast_id: AstId,
        call_site: SourceLocation,
        definition: SourceLocation,
        parent: Arc<Origin>,
    },
}

impl Origin {
    /// The origin of a node that was read at `span` of `document`.
    pub open spec fn read_at(document: DocumentId, span: Span) -> Origin {
        Origin::DocumentSource { document, ast_id: AstId::of_span(span), span }
    }

    pub open spec fn primary(self) -> Span {
        match self {
            Origin::Source(span) => span,
            Origin::DocumentSource { span, .. } => span,
            Origin::Expansion { call_site, .. } => call_site,
            Origin::DocumentExpansion { call_site, .. } => call_site.span,
        }
    }

    pub open spec fn document(self) -> Option<DocumentId> {
        match self {
            Origin::DocumentSource { document, .. } => Some(document),
            Origin::DocumentExpansion { call_site, .. } => Some(call_site.document),
            Origin::Source(_) => None,
            Origin::Expansion { .. } => None,
        }
    }

    pub open spec fn node_id(self) -> Option<AstId> {
        match self {
            Origin::DocumentSource { ast_id, .. } => Some(ast_id),
            Origin::DocumentExpansion { ast_id, .. } => Some(ast_id),
            Origin::Source(_) => None,
            Origin::Expansion { .. } => None,
        }
    }

    pub fn primary_span(&self) -> (span: Span)
        ensures
            span == self.primary(),
    {
        match self {
            Origin::Source(span) => *span,
            Origin::DocumentSource { span, .. } => *span,
            Origin::Expansion { call_site, .. } => *call_site,
            Origin::DocumentExpansion { call_site, .. } => call_site.span,
        }
    }

    pub fn document_id(&self) -> (id: Option<DocumentId>)
        ensures
            id == self.document(),
    {
        match self {
            Origin::DocumentSource { document, .. } => Some(*document),
            Origin::DocumentExpansion { call_site, .. } => Some(call_site.document),
            Origin::Source(_) => None,
            Origin::Expansion { .. } => None,
        }
    }

    pub fn ast_id(&self) -> (id: Option<AstId>)
        ensures
            id == self.node_id(),
    {
        match self {
            Origin::DocumentSource { ast_id, .. } => Some(*ast_id),
            Origin::DocumentExpansion { ast_id, .. } => Some(*ast_id),
            Origin::Source(_) => None,
            Origin::Expansion { .. } => None,
        }
    }

    /// An equal origin.
    pub fn copy(&self) -> (result: Origin)
        ensures
            result == *self,
        decreases self,
    {
        match self {
            Origin::Source(span) => Origin::Source(*span),
            Origin::DocumentSource { document, ast_id, span } => Origin::DocumentSource {
                document: *document,
                ast_id: *ast_id,
                span: *span,
            },
            Origin::Expansion { call_site, definition, parent } => Origin::Expansion {
                call_site: *call_site,
                definition: *definition,
                parent: Arc::new(parent.copy()),
            },
            Origin::DocumentExpansion { ast_id, call_site, definition, parent } => Origin::DocumentExpansion {
                ast_id: *ast_id,
                call_site: *call_site,
                definition: *definition,
                parent: Arc::new(parent.copy()),
            },
        }
    }
}

#[derive(Debug, PartialEq)]
pub struct Spanned<T> {
    pub value: T,
    pub span: Span,
    pub origin: Origin,
}

impl<T> Spanned<T> {
    /// A node that was read at `span` of `document`.
    pub open spec fn read(value: T, document: DocumentId, span: Span) -> Spanned<T> {
        Spanned { value, span, origin: Origin::read_at(document, span) }
    }

    pub(crate) fn source(value: T, document: DocumentId, span: Span) -> (node: Self)
        ensures
            node == Spanned::<T>::read(value, document, span),
    {
        Spanned { value, span, origin: Origin::DocumentSource { document, ast_id: AstId::from_span(span), span } }
    }

    /// Replaces the value, keeping span and origin.
    pub fn map<U, F: FnOnce(T) -> U>(self, map: F) -> (node: Spanned<U>)
        requires
            map.requires((self.value,)),
        ensures
            map.ensures((self.value,), node.value),
            node.span == self.span,
            node.origin == self.origin,
    {
        Spanned { value: map(self.value), span: self.span, origin: self.origin }
    }

    /// Construct a typed rewrite result while retaining macro provenance.
    pub fn expanded(value: T, span: Span, call_site: Span, definition: Span, parent: Origin) -> (node: Self)
        ensures
            node == (Spanned {
                value,
                span,
                origin: Origin::Expansion { call_site, definition, parent: Arc::new(parent) },
            }),
    {
        Spanned { value, span, origin: Origin::Expansion { call_site, definition, parent: Arc::new(parent) } }
    }

    /// As [`Spanned::expanded`], with the documents of call and definition.
    pub fn expanded_in(
        value: T,
        span: Span,
        call_site: SourceLocation,
        definition: SourceLocation,
        parent: Origin,
    ) -> (node: Self)
        ensures
            node == (Spanned {
                value,
                span,
                origin: Origin::DocumentExpansion {
                    ast_id: AstId::of_span(span),
                    call_site,
                    definition,
                    parent: Arc::new(parent),
                },
            }),
    {
        let ast_id = AstId::from_span(span);
        Spanned {
            value,
            span,
            origin: Origin::DocumentExpansion { ast_id, call_site, definition, parent: Arc::new(parent) },
        }
    }

    pub fn with_origin(self, origin: Origin) -> (node: Self)
        ensures
            node == (Spanned { value: self.value, span: self.span, origin }),
    {
        Spanned { value: self.value, span: self.span, origin }
    }

    pub fn ast_id(&self) -> (id: Option<AstId>)
        ensures
            id == self.origin.node_id(),
    {
        self.origin.ast_id()
    }
}

pub type Name = Spanned<String>;
pub type TypeExpr = Spanned<TypeExprKind>;
pub type Expr = Spanned<ExprKind>;
pub type Pattern = Spanned<PatternKind>;
pub type Annotation = Spanned<AnnotationKind>;
pub type MacroExpr = Spanned<MacroExprKind>;

#[derive(Debug, PartialEq)]
pub struct Module {
    pub forms: Vec<TopLevel>,
    pub span: Span,
    pub document_id: DocumentId,
}

#[derive(Debug, PartialEq)]
pub enum TopLevel {
    Import(Import),
    Definition(Definition),
    Constant(Constant),
    Function(Function),
    Macro(Macro),
    Test(Test),
}

#[derive(Debug, Clone, Copy, PartialEq, Eq, Structural)]
pub enum Visibility {
    Public,
    Private,
}

#[derive(Debug, PartialEq)]
pub struct Import {
    pub alias: Name,
    pub path: Spanned<String>,
    pub span: Span,
    pub origin: Origin,
}

#[derive(Debug, PartialEq)]
pub struct Definition {
    pub visibility: Visibility,
    pub name: Name,
    pub body: TypeExpr,
    pub annotations: Vec<Annotation>,
    pub span: Span,
    pub origin: Origin,
}

#[derive(Debug, PartialEq)]
pub struct Constant {
    pub visibility: Visibility,
    pub name: Name,
    pub ty: TypeExpr,
    pub value: Expr,
    pub annotations: Vec<Annotation>,
    pub span: Span,
    pub origin: Origin,
}

#[derive(Debug, PartialEq)]
pub struct Function {
    pub visibility: Visibility,
    pub name: Name,
    pub parameters: Vec<Parameter>,
    pub return_type: TypeExpr,
    pub body: Vec<Expr>,
    pub annotations: Vec<Annotation>,
    pub span: Span,
    pub origin: Origin,
}

#[derive(Debug, PartialEq)]
pub struct Macro {
    pub visibility: Visibility,
    pub name: Name,
    pub parameters: Vec<MacroParameter>,
    pub result: Spanned<SyntaxCategory>,
    pub body: Vec<MacroExpr>,
    pub annotations: Vec<Annotation>,
    pub span: Span,
    pub origin: Origin,
}

#[derive(Debug, PartialEq)]
pub struct MacroParameter {
    pub name: Name,
    pub category: Spanned<SyntaxCategory>,
    pub span: Span,
}

#[derive(Debug, Clone, Copy, PartialEq, Eq, Structural)]
pub enum SyntaxCategory {
    Expression,
    Type,
    Pattern,
    Definition,
    Module,
}

#[derive(Debug, PartialEq)]
pub enum MacroExprKind {
    Atom(Atom),
    Let {
        name: Name,
        value: Box<MacroExpr>,
    },
    If {
        condition: Box<MacroExpr>,
        then_body: Vec<MacroExpr>,
        else_body: Vec<MacroExpr>,
    },
    Quote {
        category: Spanned<SyntaxCategory>,
        /// Quoted syntax remains CST until macro-category validation and
        /// expansion. It is never coerced into a runtime expression tree.
        form: Node,
    },
    Unquote(Name),
    Splice(Name),
    Capture(Name),
}

#[derive(Debug, PartialEq)]
pub struct Parameter {
    pub name: Name,
    pub ty: TypeExpr,
    pub span: Span,
}

#[derive(Debug, PartialEq)]
pub struct Test {
    pub name: Name,
    pub profile: Name,
    pub body: Vec<Expr>,
    pub metadata: Vec<TestMeta>,
    pub span: Span,
    pub origin: Origin,
}

#[derive(Debug, PartialEq)]
pub enum TestMeta {
    Tags(Vec<Name>),
    ExpectError {
        phase: Name,
        code: Name,
        message: Option<Spanned<String>>,
    },
    Clock {
        mode: Name,
        millis: Spanned<i64>,
    },
    Benchmark(Node),
    Workspace(Name),
}

#[derive(Debug, PartialEq)]
pub enum TypeExprKind {
    Named(String),
    Application {
        constructor: Name,
        arguments: Vec<TypeExpr>,
    },
    Record(Vec<TypeMember>),
    Tuple(Vec<TypeExpr>),
    Array(Box<TypeExpr>),
    Mapping(Box<TypeExpr>, Box<TypeExpr>),
    Union(Vec<TypeExpr>),
    Enum(Vec<TypeMember>),
    Interface(Vec<TypeMember>),
    Function {
        parameters: Vec<TypeExpr>,
        result: Box<TypeExpr>,
    },
    Newtype(Box<TypeExpr>),
    Mutable(Box<TypeExpr>),
    Reference(Box<TypeExpr>),
    MutableReference(Box<TypeExpr>),
    Intersect(Vec<TypeExpr>),
    /// Capability, handle, policy, and ABI forms have a fixed semantic head,
    /// but their detailed inventory is owned by the type checker.
    Domain {
        head: Name,
        arguments: Vec<TypeExpr>,
    },
}

#[derive(Debug, PartialEq)]
pub struct TypeMember {
    pub name: Name,
    pub ty: TypeExpr,
    pub span: Span,
}

/// A literal. Floating-point literals are held as their IEEE 754 binary64
/// encoding.
#[derive(Debug, PartialEq)]
pub enum Literal {
    String(String),
    Bool(bool),
    Int(i64),
    Float(u64),
    Unit,
}

#[derive(Debug, PartialEq)]
pub enum ExprKind {
    Literal(Literal),
    Reference(String),
    Call {
        callee: Name,
        arguments: Vec<Expr>,
    },
    Do(Vec<Expr>),
    Let {
        name: Name,
        ty: Option<TypeExpr>,
        value: Box<Expr>,
    },
    Assign {
        name: Name,
        value: Box<Expr>,
    },
    Return(Option<Box<Expr>>),
    If {
        condition: Box<Expr>,
        then_body: Vec<Expr>,
        else_body: Vec<Expr>,
    },
    While {
        condition: Box<Expr>,
        body: Vec<Expr>,
    },
    For {
        binding: Name,
        source: Box<Expr>,
        body: Vec<Expr>,
    },
    Match {
        target: Box<Expr>,
        cases: Vec<MatchCase>,
    },
    Break,
    Continue,
    Record(Vec<ExprField>),
    Tuple(Vec<Expr>),
    Array(Vec<Expr>),
    Mapping(Vec<(Expr, Expr)>),
    Mutable(Box<Expr>),
    ReferenceOf(Box<Expr>),
    Range(Box<Expr>, Box<Expr>, Box<Expr>),
    Convert {
        value: Box<Expr>,
        into: TypeExpr,
        fallback: Literal,
    },
    Cast {
        value: Box<Expr>,
        into: TypeExpr,
    },
    Task {
        captures: Vec<Name>,
        body: Vec<Expr>,
    },
    Spawn {
        handle: Name,
        captures: Vec<Name>,
        value: Box<Expr>,
    },
    Join {
        handle: Name,
        binding: Name,
    },
}

#[derive(Debug, PartialEq)]
pub struct ExprField {
    pub name: Name,
    pub value: Expr,
    pub span: Span,
}

#[derive(Debug, PartialEq)]
pub struct MatchCase {
    pub pattern: Pattern,
    pub body: Vec<Expr>,
    pub span: Span,
}

#[derive(Debug, PartialEq)]
pub enum PatternKind {
    Literal(Literal),
    Wildcard,
    Bind(Name),
    Constructor {
        constructor: Name,
        arguments: Vec<Pattern>,
    },
    Record(Vec<PatternField>),
    Tuple(Vec<Pattern>),
    Array(Vec<Pattern>),
    Mapping(Vec<(Pattern, Pattern)>),
    Newtype {
        ty: TypeExpr,
        pattern: Box<Pattern>,
    },
    Interface {
        ty: TypeExpr,
        pattern: Box<Pattern>,
    },
}

#[derive(Debug, PartialEq)]
pub struct PatternField {
    pub name: Name,
    pub pattern: Pattern,
    pub span: Span,
}

#[derive(Debug, PartialEq)]
pub enum AnnotationKind {
    Doc(String),
    Where(Vec<TypeParameter>),
    Definitions(Vec<Function>),
    Implementation {
        interface: TypeExpr,
        items: Vec<ImplItem>,
    },
}

#[derive(Debug, PartialEq)]
pub struct TypeParameter {
    pub name: Name,
    pub bounds: Vec<TypeExpr>,
    pub span: Span,
}

#[derive(Debug, PartialEq)]
pub enum ImplItem {
    Types(Vec<TypeExpr>),
    Method {
        name: Name,
        binding: MethodBinding,
        span: Span,
    },
}

#[derive(Debug, PartialEq)]
pub enum MethodBinding {
    Reference(Name),
    Function(Function),
}

#[derive(Debug, PartialEq, Eq)]
pub struct AstError {
    pub code: &'static str,
    pub message: String,
    pub span: Span,
    pub related: Vec<(String, Span)>,
}

} // verus!
