//! The grammar of the surface language: which typed tree a reader node stands
//! for, or which diagnostic it is refused with.
use vstd::prelude::*;
use crate::ast::surface::{DocumentId, Origin, Spanned, SyntaxCategory, Visibility};
use crate::ast::view::{
    AnnotationKindView, AnnotationView, AstErrorView, ConstantView, DefinitionView, ExprFieldView, ExprKindView,
    ExprView, FunctionView, ImplItemView, ImportView, LiteralView, MacroExprKindView, MacroExprView,
    MacroParameterView, MacroView, MatchCaseView, MethodBindingView, ModuleView, NameView, ParameterView,
    PatternFieldView, PatternKindView, PatternView, TestMetaView, TestView, TopLevelView, TypeExprKindView,
    TypeExprView, TypeMemberView, TypeParameterView,
};
use crate::syntax::{self, AtomView, NodeKindView, NodeView, Span};
use crate::text;

verus! {

broadcast use crate::syntax::lemma_item_decreases;

/// The first error of two results, else both values.
pub open spec fn both<A, B>(first: Result<A, AstErrorView>, second: Result<B, AstErrorView>) -> Result<
    (A, B),
    AstErrorView,
> {
    match first {
        Err(error) => Err(error),
        Ok(first) => match second {
            Err(error) => Err(error),
            Ok(second) => Ok((first, second)),
        },
    }
}

/// The first error of three results, else all values.
pub open spec fn three<A, B, C>(
    first: Result<A, AstErrorView>,
    second: Result<B, AstErrorView>,
    third: Result<C, AstErrorView>,
) -> Result<(A, B, C), AstErrorView> {
    match both(first, second) {
        Err(error) => Err(error),
        Ok((first, second)) => match third {
            Err(error) => Err(error),
            Ok(third) => Ok((first, second, third)),
        },
    }
}

pub open spec fn failure(code: Seq<char>, message: Seq<char>, span: Span) -> AstErrorView {
    AstErrorView { code, message, span, related: Seq::empty() }
}

pub open spec fn list_failure(node: NodeView) -> AstErrorView {
    failure("E-SYN-010"@, "expected a list"@, node.span)
}

/// The refusal of a form with the wrong number of operands.
pub open spec fn arity_failure(form: Seq<char>, min: nat, max: nat, found: nat, span: Span) -> AstErrorView {
    let expected = if min == max {
        text::decimal(min)
    } else {
        text::decimal(min) + "..="@ + text::decimal(max)
    };
    failure(
        "E-SYN-009"@,
        "`"@ + form + "` expects "@ + expected + " operands, found "@ + text::decimal(found),
        span,
    )
}

pub open spec fn min_arity_failure(form: Seq<char>, min: nat, found: nat, span: Span) -> AstErrorView {
    failure(
        "E-SYN-009"@,
        "`"@ + form + "` expects at least "@ + text::decimal(min) + " operands, found "@ + text::decimal(found),
        span,
    )
}

pub open spec fn head_failure(expected: Seq<char>, actual: NameView) -> AstErrorView {
    failure("E-SYN-008"@, "expected `"@ + expected + "` form, found `"@ + actual.value + "`"@, actual.span)
}

pub open spec fn symbol(node: NodeView) -> Option<Seq<char>> {
    match node.kind {
        NodeKindView::Atom(AtomView::Symbol(value)) => Some(value),
        _ => None,
    }
}

pub open spec fn name(node: NodeView, document: DocumentId) -> Result<NameView, AstErrorView> {
    match symbol(node) {
        Some(value) => Ok(Spanned::read(value, document, node.span)),
        None => Err(failure("E-SYN-010"@, "expected a symbol"@, node.span)),
    }
}

pub open spec fn label(node: NodeView, document: DocumentId) -> Result<NameView, AstErrorView> {
    match node.kind {
        NodeKindView::Atom(AtomView::Label(value)) => Ok(Spanned::read(value, document, node.span)),
        _ => Err(failure("E-SYN-011"@, "expected a trailing attribute label"@, node.span)),
    }
}

pub open spec fn string(node: NodeView, document: DocumentId) -> Result<NameView, AstErrorView> {
    match node.kind {
        NodeKindView::Atom(AtomView::String(value)) => Ok(Spanned::read(value, document, node.span)),
        _ => Err(failure("E-SYN-010"@, "expected a string"@, node.span)),
    }
}

pub open spec fn integer(node: NodeView, document: DocumentId) -> Result<Spanned<i64>, AstErrorView> {
    match node.kind {
        NodeKindView::Atom(AtomView::Int(value)) => Ok(Spanned::read(value, document, node.span)),
        _ => Err(failure("E-SYN-010"@, "expected an integer"@, node.span)),
    }
}

pub open spec fn literal(atom: AtomView) -> Option<LiteralView> {
    match atom {
        AtomView::String(value) => Some(LiteralView::String(value)),
        AtomView::Bool(value) => Some(LiteralView::Bool(value)),
        AtomView::Int(value) => Some(LiteralView::Int(value)),
        AtomView::Float(value) => Some(LiteralView::Float(value)),
        AtomView::Unit => Some(LiteralView::Unit),
        AtomView::Symbol(_) => None,
        AtomView::Label(_) => None,
    }
}

pub open spec fn literal_node(node: NodeView) -> Result<LiteralView, AstErrorView> {
    let failed = failure("E-SYN-010"@, "expected a literal"@, node.span);
    match node.kind {
        NodeKindView::Atom(atom) => match literal(atom) {
            Some(value) => Ok(value),
            None => Err(failed),
        },
        _ => Err(failed),
    }
}

/// The symbol at the head of a list.
pub open spec fn head(node: NodeView, document: DocumentId) -> Result<NameView, AstErrorView> {
    if !(node.kind is List) {
        Err(list_failure(node))
    } else if syntax::items(node).len() == 0 {
        Err(failure("E-SYN-008"@, "a semantic list must have a symbol head"@, node.span))
    } else {
        name(syntax::items(node)[0], document)
    }
}

/// The head, which must be `expected`.
pub open spec fn fixed_head(node: NodeView, expected: Seq<char>, document: DocumentId) -> Result<
    NameView,
    AstErrorView,
> {
    match head(node, document) {
        Err(error) => Err(error),
        Ok(found) => if found.value == expected {
            Ok(found)
        } else {
            Err(head_failure(expected, found))
        },
    }
}

/// Why `node` is not a list of exactly two semantic children.
pub open spec fn pair_failure(form: Seq<char>, node: NodeView) -> Option<AstErrorView> {
    if !(node.kind is List) {
        Some(list_failure(node))
    } else if syntax::items(node).len() != 2 {
        Some(arity_failure(form, 2, 2, syntax::items(node).len(), node.span))
    } else {
        None
    }
}

/// The names `syntax::items(owner)[from..]`, after those in `done`.
pub open spec fn names(owner: NodeView, from: int, done: Seq<NameView>, document: DocumentId) -> Result<
    Seq<NameView>,
    AstErrorView,
>
    decreases syntax::items(owner).len() - from,
{
    if from < 0 || from >= syntax::items(owner).len() {
        Ok(done)
    } else {
        match name(syntax::items(owner)[from], document) {
            Err(error) => Err(error),
            Ok(value) => names(owner, from + 1, done.push(value), document),
        }
    }
}

pub open spec fn captures(node: NodeView, document: DocumentId) -> Result<Seq<NameView>, AstErrorView> {
    match fixed_head(node, "captures"@, document) {
        Err(error) => Err(error),
        Ok(_) => names(node, 1, Seq::empty(), document),
    }
}

// Types.

pub open spec fn type_expr(node: NodeView, document: DocumentId) -> Result<TypeExprView, AstErrorView>
    decreases node, 2int, 0int,
{
    match symbol(node) {
        Some(value) => Ok(Spanned::read(TypeExprKindView::Named(value), document, node.span)),
        None => match head(node, document) {
            Err(error) => Err(error),
            Ok(head) => match type_form(node, head, document) {
                Err(error) => Err(error),
                Ok(value) => Ok(Spanned::read(value, document, node.span)),
            },
        },
    }
}

pub open spec fn type_form(node: NodeView, head: NameView, document: DocumentId) -> Result<
    TypeExprKindView,
    AstErrorView,
>
    decreases node, 1int, 0int,
{
    let items = syntax::items(node);
    let operands = (items.len() - 1) as nat;
    let form = head.value;
    if items.len() == 0 {
        Err(list_failure(node))
    } else if form == "record"@ {
        match type_members(node, 1, Seq::empty(), document) {
            Err(error) => Err(error),
            Ok(members) => Ok(TypeExprKindView::Record(members)),
        }
    } else if form == "tuple"@ {
        match type_exprs(node, 1, Seq::empty(), document) {
            Err(error) => Err(error),
            Ok(values) => Ok(TypeExprKindView::Tuple(values)),
        }
    } else if form == "array"@ {
        if operands != 1 {
            Err(arity_failure("array type"@, 1, 1, operands, node.span))
        } else {
            match type_expr(items[1], document) {
                Err(error) => Err(error),
                Ok(value) => Ok(TypeExprKindView::Array(Box::new(value))),
            }
        }
    } else if form == "map"@ {
        if operands != 2 {
            Err(arity_failure("map type"@, 2, 2, operands, node.span))
        } else {
            match both(type_expr(items[1], document), type_expr(items[2], document)) {
                Err(error) => Err(error),
                Ok((key, value)) => Ok(TypeExprKindView::Mapping(Box::new(key), Box::new(value))),
            }
        }
    } else if form == "union"@ {
        if operands < 1 {
            Err(min_arity_failure("union"@, 1, operands, node.span))
        } else {
            match type_exprs(node, 1, Seq::empty(), document) {
                Err(error) => Err(error),
                Ok(values) => Ok(TypeExprKindView::Union(values)),
            }
        }
    } else if form == "enum"@ {
        match type_members(node, 1, Seq::empty(), document) {
            Err(error) => Err(error),
            Ok(members) => Ok(TypeExprKindView::Enum(members)),
        }
    } else if form == "interface"@ {
        match type_members(node, 1, Seq::empty(), document) {
            Err(error) => Err(error),
            Ok(members) => Ok(TypeExprKindView::Interface(members)),
        }
    } else if form == "fn-type"@ {
        if operands != 2 {
            Err(arity_failure("fn-type"@, 2, 2, operands, node.span))
        } else if !(items[1].kind is List) {
            Err(list_failure(items[1]))
        } else {
            match both(type_exprs(items[1], 0, Seq::empty(), document), type_expr(items[2], document)) {
                Err(error) => Err(error),
                Ok((parameters, result)) => Ok(
                    TypeExprKindView::Function { parameters, result: Box::new(result) },
                ),
            }
        }
    } else if form == "newtype"@ || form == "mut"@ || form == "ref"@ || form == "mut-ref"@ {
        if operands != 1 {
            Err(arity_failure(form, 1, 1, operands, node.span))
        } else {
            match type_expr(items[1], document) {
                Err(error) => Err(error),
                Ok(inner) => Ok(
                    if form == "newtype"@ {
                        TypeExprKindView::Newtype(Box::new(inner))
                    } else if form == "mut"@ {
                        TypeExprKindView::Mutable(Box::new(inner))
                    } else if form == "ref"@ {
                        TypeExprKindView::Reference(Box::new(inner))
                    } else {
                        TypeExprKindView::MutableReference(Box::new(inner))
                    },
                ),
            }
        }
    } else if form == "intersect"@ {
        if operands < 1 {
            Err(min_arity_failure("intersect"@, 1, operands, node.span))
        } else {
            match type_exprs(node, 1, Seq::empty(), document) {
                Err(error) => Err(error),
                Ok(values) => Ok(TypeExprKindView::Intersect(values)),
            }
        }
    } else if form == "capability"@ || form == "handle"@ || form == "policy"@ || form == "wasm"@ {
        match type_exprs(node, 1, Seq::empty(), document) {
            Err(error) => Err(error),
            Ok(arguments) => Ok(TypeExprKindView::Domain { head, arguments }),
        }
    } else if form == "inst"@ {
        Err(
            failure(
                "E-SYN-008"@,
                "`inst` was removed; place the generic type constructor directly in head position"@,
                head.span,
            ),
        )
    } else if operands < 1 {
        Err(min_arity_failure("generic type application"@, 1, operands, node.span))
    } else {
        match type_exprs(node, 1, Seq::empty(), document) {
            Err(error) => Err(error),
            Ok(arguments) => Ok(TypeExprKindView::Application { constructor: head, arguments }),
        }
    }
}

/// The types `syntax::items(owner)[from..]`, after those in `done`.
pub open spec fn type_exprs(owner: NodeView, from: int, done: Seq<TypeExprView>, document: DocumentId) -> Result<
    Seq<TypeExprView>,
    AstErrorView,
>
    decreases owner, 0int, syntax::items(owner).len() - from,
{
    if from < 0 || from >= syntax::items(owner).len() {
        Ok(done)
    } else {
        match type_expr(syntax::items(owner)[from], document) {
            Err(error) => Err(error),
            Ok(value) => type_exprs(owner, from + 1, done.push(value), document),
        }
    }
}

pub open spec fn type_members(owner: NodeView, from: int, done: Seq<TypeMemberView>, document: DocumentId) -> Result<
    Seq<TypeMemberView>,
    AstErrorView,
>
    decreases owner, 0int, syntax::items(owner).len() - from,
{
    if from < 0 || from >= syntax::items(owner).len() {
        Ok(done)
    } else {
        match type_member(syntax::items(owner)[from], document) {
            Err(error) => Err(error),
            Ok(member) => type_members(owner, from + 1, done.push(member), document),
        }
    }
}

pub open spec fn type_member(node: NodeView, document: DocumentId) -> Result<TypeMemberView, AstErrorView>
    decreases node, 1int, 0int,
{
    if let Some(error) = pair_failure("type member"@, node) {
        Err(error)
    } else {
        match both(name(syntax::items(node)[0], document), type_expr(syntax::items(node)[1], document)) {
            Err(error) => Err(error),
            Ok((name, ty)) => Ok(TypeMemberView { name, ty, span: node.span }),
        }
    }
}

// Patterns.

pub open spec fn pattern(node: NodeView, document: DocumentId) -> Result<PatternView, AstErrorView>
    decreases node, 2int, 0int,
{
    match node.kind {
        NodeKindView::Atom(AtomView::Symbol(value)) => Ok(
            Spanned::read(
                if value == "_"@ {
                    PatternKindView::Wildcard
                } else {
                    PatternKindView::Constructor {
                        constructor: Spanned::read(value, document, node.span),
                        arguments: Seq::empty(),
                    }
                },
                document,
                node.span,
            ),
        ),
        NodeKindView::Atom(AtomView::Label(_)) => Err(
            failure("E-SYN-011"@, "attribute label is not a pattern"@, node.span),
        ),
        NodeKindView::Atom(atom) => Ok(
            Spanned::read(PatternKindView::Literal(literal(atom)->0), document, node.span),
        ),
        _ => match head(node, document) {
            Err(error) => Err(error),
            Ok(head) => match pattern_form(node, head, document) {
                Err(error) => Err(error),
                Ok(value) => Ok(Spanned::read(value, document, node.span)),
            },
        },
    }
}

pub open spec fn pattern_form(node: NodeView, head: NameView, document: DocumentId) -> Result<
    PatternKindView,
    AstErrorView,
>
    decreases node, 1int, 0int,
{
    let items = syntax::items(node);
    let operands = (items.len() - 1) as nat;
    let form = head.value;
    if items.len() == 0 {
        Err(list_failure(node))
    } else if form == "bind"@ {
        if operands != 1 {
            Err(arity_failure("bind"@, 1, 1, operands, node.span))
        } else {
            match name(items[1], document) {
                Err(error) => Err(error),
                Ok(name) => Ok(PatternKindView::Bind(name)),
            }
        }
    } else if form == "record"@ {
        match pattern_fields(node, 1, Seq::empty(), document) {
            Err(error) => Err(error),
            Ok(fields) => Ok(PatternKindView::Record(fields)),
        }
    } else if form == "tuple"@ {
        match patterns(node, 1, Seq::empty(), document) {
            Err(error) => Err(error),
            Ok(values) => Ok(PatternKindView::Tuple(values)),
        }
    } else if form == "array"@ {
        match patterns(node, 1, Seq::empty(), document) {
            Err(error) => Err(error),
            Ok(values) => Ok(PatternKindView::Array(values)),
        }
    } else if form == "map"@ {
        match pattern_pairs(node, 1, Seq::empty(), document) {
            Err(error) => Err(error),
            Ok(entries) => Ok(PatternKindView::Mapping(entries)),
        }
    } else if form == "newtype"@ || form == "interface"@ {
        if operands != 2 {
            Err(arity_failure(form, 2, 2, operands, node.span))
        } else {
            match both(type_expr(items[1], document), pattern(items[2], document)) {
                Err(error) => Err(error),
                Ok((ty, inner)) => Ok(
                    if form == "newtype"@ {
                        PatternKindView::Newtype { ty, pattern: Box::new(inner) }
                    } else {
                        PatternKindView::Interface { ty, pattern: Box::new(inner) }
                    },
                ),
            }
        }
    } else {
        match patterns(node, 1, Seq::empty(), document) {
            Err(error) => Err(error),
            Ok(arguments) => Ok(PatternKindView::Constructor { constructor: head, arguments }),
        }
    }
}

pub open spec fn patterns(owner: NodeView, from: int, done: Seq<PatternView>, document: DocumentId) -> Result<
    Seq<PatternView>,
    AstErrorView,
>
    decreases owner, 0int, syntax::items(owner).len() - from,
{
    if from < 0 || from >= syntax::items(owner).len() {
        Ok(done)
    } else {
        match pattern(syntax::items(owner)[from], document) {
            Err(error) => Err(error),
            Ok(value) => patterns(owner, from + 1, done.push(value), document),
        }
    }
}

pub open spec fn pattern_fields(
    owner: NodeView,
    from: int,
    done: Seq<PatternFieldView>,
    document: DocumentId,
) -> Result<Seq<PatternFieldView>, AstErrorView>
    decreases owner, 0int, syntax::items(owner).len() - from,
{
    if from < 0 || from >= syntax::items(owner).len() {
        Ok(done)
    } else {
        match pattern_field(syntax::items(owner)[from], document) {
            Err(error) => Err(error),
            Ok(field) => pattern_fields(owner, from + 1, done.push(field), document),
        }
    }
}

pub open spec fn pattern_field(node: NodeView, document: DocumentId) -> Result<PatternFieldView, AstErrorView>
    decreases node, 1int, 0int,
{
    if let Some(error) = pair_failure("pattern field"@, node) {
        Err(error)
    } else {
        match both(name(syntax::items(node)[0], document), pattern(syntax::items(node)[1], document)) {
            Err(error) => Err(error),
            Ok((name, inner)) => Ok(PatternFieldView { name, pattern: inner, span: node.span }),
        }
    }
}

pub open spec fn pattern_pairs(
    owner: NodeView,
    from: int,
    done: Seq<(PatternView, PatternView)>,
    document: DocumentId,
) -> Result<Seq<(PatternView, PatternView)>, AstErrorView>
    decreases owner, 0int, syntax::items(owner).len() - from,
{
    if from < 0 || from >= syntax::items(owner).len() {
        Ok(done)
    } else {
        match pattern_pair(syntax::items(owner)[from], document) {
            Err(error) => Err(error),
            Ok(entry) => pattern_pairs(owner, from + 1, done.push(entry), document),
        }
    }
}

pub open spec fn pattern_pair(node: NodeView, document: DocumentId) -> Result<(PatternView, PatternView), AstErrorView>
    decreases node, 1int, 0int,
{
    if let Some(error) = pair_failure("pair"@, node) {
        Err(error)
    } else {
        both(pattern(syntax::items(node)[0], document), pattern(syntax::items(node)[1], document))
    }
}

// Expressions.

pub open spec fn expr(node: NodeView, document: DocumentId) -> Result<ExprView, AstErrorView>
    decreases node, 2int, 0int,
{
    match node.kind {
        NodeKindView::Atom(AtomView::Symbol(value)) => Ok(
            Spanned::read(ExprKindView::Reference(value), document, node.span),
        ),
        NodeKindView::Atom(AtomView::Label(_)) => Err(
            failure(
                "E-SYN-011"@,
                "labels are declaration/test attributes, not named call arguments"@,
                node.span,
            ),
        ),
        NodeKindView::Atom(atom) => Ok(Spanned::read(ExprKindView::Literal(literal(atom)->0), document, node.span)),
        _ => match head(node, document) {
            Err(error) => Err(error),
            Ok(head) => match expr_form(node, head, document) {
                Err(error) => Err(error),
                Ok(value) => Ok(Spanned::read(value, document, node.span)),
            },
        },
    }
}

pub open spec fn expr_form(node: NodeView, head: NameView, document: DocumentId) -> Result<ExprKindView, AstErrorView>
    decreases node, 1int, 2int,
{
    let form = head.value;
    if syntax::items(node).len() == 0 {
        Err(list_failure(node))
    } else if is_control_form(form) {
        control_form(node, form, document)
    } else if is_data_form(form) {
        data_form(node, form, document)
    } else if is_task_form(form) {
        task_form(node, form, document)
    } else {
        match exprs(node, 1, Seq::empty(), document) {
            Err(error) => Err(error),
            Ok(arguments) => Ok(ExprKindView::Call { callee: head, arguments }),
        }
    }
}

/// Bindings, sequences and control flow.
pub open spec fn is_control_form(form: Seq<char>) -> bool {
    form == "do"@ || form == "let"@ || form == "let-as"@ || form == "set"@ || form == "return"@ || form == "if"@
        || form == "while"@ || form == "for"@ || form == "match"@ || form == "break"@ || form == "continue"@
}

/// Data construction and conversion.
pub open spec fn is_data_form(form: Seq<char>) -> bool {
    form == "record"@ || form == "tuple"@ || form == "array"@ || form == "map"@ || form == "mut"@ || form == "ref"@
        || form == "range"@ || form == "convert"@ || form == "cast"@
}

/// Structured concurrency.
pub open spec fn is_task_form(form: Seq<char>) -> bool {
    form == "task"@ || form == "spawn"@ || form == "join"@
}

pub open spec fn control_form(node: NodeView, form: Seq<char>, document: DocumentId) -> Result<
    ExprKindView,
    AstErrorView,
>
    decreases node, 1int, 1int,
{
    let items = syntax::items(node);
    let operands = (items.len() - 1) as nat;
    if items.len() == 0 {
        Err(list_failure(node))
    } else if form == "do"@ {
        match exprs(node, 1, Seq::empty(), document) {
            Err(error) => Err(error),
            Ok(values) => Ok(ExprKindView::Do(values)),
        }
    } else if form == "let"@ {
        if operands != 2 {
            Err(arity_failure("let"@, 2, 2, operands, node.span))
        } else {
            match both(name(items[1], document), expr(items[2], document)) {
                Err(error) => Err(error),
                Ok((name, value)) => Ok(ExprKindView::Let { name, ty: None, value: Box::new(value) }),
            }
        }
    } else if form == "let-as"@ {
        if operands != 3 {
            Err(arity_failure("let-as"@, 3, 3, operands, node.span))
        } else {
            match three(name(items[1], document), type_expr(items[2], document), expr(items[3], document)) {
                Err(error) => Err(error),
                Ok((name, ty, value)) => Ok(ExprKindView::Let { name, ty: Some(ty), value: Box::new(value) }),
            }
        }
    } else if form == "set"@ {
        if operands != 2 {
            Err(arity_failure("set"@, 2, 2, operands, node.span))
        } else {
            match both(name(items[1], document), expr(items[2], document)) {
                Err(error) => Err(error),
                Ok((name, value)) => Ok(ExprKindView::Assign { name, value: Box::new(value) }),
            }
        }
    } else if form == "return"@ {
        if operands > 1 {
            Err(arity_failure("return"@, 0, 1, operands, node.span))
        } else if operands == 0 {
            Ok(ExprKindView::Return(None))
        } else {
            match expr(items[1], document) {
                Err(error) => Err(error),
                Ok(value) => Ok(ExprKindView::Return(Some(Box::new(value)))),
            }
        }
    } else if form == "if"@ {
        if operands != 3 {
            Err(arity_failure("if"@, 3, 3, operands, node.span))
        } else {
            match three(expr(items[1], document), body(items[2], document), body(items[3], document)) {
                Err(error) => Err(error),
                Ok((condition, then_body, else_body)) => Ok(
                    ExprKindView::If { condition: Box::new(condition), then_body, else_body },
                ),
            }
        }
    } else if form == "while"@ {
        if operands != 2 {
            Err(arity_failure("while"@, 2, 2, operands, node.span))
        } else {
            match both(expr(items[1], document), body(items[2], document)) {
                Err(error) => Err(error),
                Ok((condition, body)) => Ok(ExprKindView::While { condition: Box::new(condition), body }),
            }
        }
    } else if form == "for"@ {
        if operands != 3 {
            Err(arity_failure("for"@, 3, 3, operands, node.span))
        } else {
            match three(name(items[1], document), expr(items[2], document), body(items[3], document)) {
                Err(error) => Err(error),
                Ok((binding, source, body)) => Ok(ExprKindView::For { binding, source: Box::new(source), body }),
            }
        }
    } else if form == "match"@ {
        if operands < 2 {
            Err(min_arity_failure("match"@, 2, operands, node.span))
        } else {
            match both(expr(items[1], document), match_cases(node, 2, Seq::empty(), document)) {
                Err(error) => Err(error),
                Ok((target, cases)) => Ok(ExprKindView::Match { target: Box::new(target), cases }),
            }
        }
    } else if operands != 0 {
        Err(arity_failure(form, 0, 0, operands, node.span))
    } else if form == "break"@ {
        Ok(ExprKindView::Break)
    } else {
        Ok(ExprKindView::Continue)
    }
}

pub open spec fn data_form(node: NodeView, form: Seq<char>, document: DocumentId) -> Result<ExprKindView, AstErrorView>
    decreases node, 1int, 1int,
{
    let items = syntax::items(node);
    let operands = (items.len() - 1) as nat;
    if items.len() == 0 {
        Err(list_failure(node))
    } else if form == "record"@ {
        match expr_fields(node, 1, Seq::empty(), document) {
            Err(error) => Err(error),
            Ok(fields) => Ok(ExprKindView::Record(fields)),
        }
    } else if form == "tuple"@ {
        match exprs(node, 1, Seq::empty(), document) {
            Err(error) => Err(error),
            Ok(values) => Ok(ExprKindView::Tuple(values)),
        }
    } else if form == "array"@ {
        match exprs(node, 1, Seq::empty(), document) {
            Err(error) => Err(error),
            Ok(values) => Ok(ExprKindView::Array(values)),
        }
    } else if form == "map"@ {
        match expr_pairs(node, 1, Seq::empty(), document) {
            Err(error) => Err(error),
            Ok(entries) => Ok(ExprKindView::Mapping(entries)),
        }
    } else if form == "mut"@ || form == "ref"@ {
        if operands != 1 {
            Err(arity_failure(form, 1, 1, operands, node.span))
        } else {
            match expr(items[1], document) {
                Err(error) => Err(error),
                Ok(inner) => Ok(
                    if form == "mut"@ {
                        ExprKindView::Mutable(Box::new(inner))
                    } else {
                        ExprKindView::ReferenceOf(Box::new(inner))
                    },
                ),
            }
        }
    } else if form == "range"@ {
        if operands != 3 {
            Err(arity_failure("range"@, 3, 3, operands, node.span))
        } else {
            match three(expr(items[1], document), expr(items[2], document), expr(items[3], document)) {
                Err(error) => Err(error),
                Ok((start, end, step)) => Ok(
                    ExprKindView::Range(Box::new(start), Box::new(end), Box::new(step)),
                ),
            }
        }
    } else if form == "convert"@ {
        if operands != 3 {
            Err(arity_failure("convert"@, 3, 3, operands, node.span))
        } else {
            match three(expr(items[1], document), type_expr(items[2], document), literal_node(items[3])) {
                Err(error) => Err(error),
                Ok((value, into, fallback)) => Ok(
                    ExprKindView::Convert { value: Box::new(value), into, fallback },
                ),
            }
        }
    } else {
        if operands != 2 {
            Err(arity_failure("cast"@, 2, 2, operands, node.span))
        } else {
            match both(expr(items[1], document), type_expr(items[2], document)) {
                Err(error) => Err(error),
                Ok((value, into)) => Ok(ExprKindView::Cast { value: Box::new(value), into }),
            }
        }
    }
}

pub open spec fn task_form(node: NodeView, form: Seq<char>, document: DocumentId) -> Result<ExprKindView, AstErrorView>
    decreases node, 1int, 1int,
{
    let items = syntax::items(node);
    let operands = (items.len() - 1) as nat;
    if items.len() == 0 {
        Err(list_failure(node))
    } else if form == "task"@ {
        if operands != 2 {
            Err(arity_failure("task"@, 2, 2, operands, node.span))
        } else {
            match both(captures(items[1], document), body(items[2], document)) {
                Err(error) => Err(error),
                Ok((captures, body)) => Ok(ExprKindView::Task { captures, body }),
            }
        }
    } else if form == "spawn"@ {
        if operands != 3 {
            Err(arity_failure("spawn"@, 3, 3, operands, node.span))
        } else {
            match three(name(items[1], document), captures(items[2], document), expr(items[3], document)) {
                Err(error) => Err(error),
                Ok((handle, captures, value)) => Ok(
                    ExprKindView::Spawn { handle, captures, value: Box::new(value) },
                ),
            }
        }
    } else {
        if operands != 2 {
            Err(arity_failure("join"@, 2, 2, operands, node.span))
        } else {
            match both(name(items[1], document), name(items[2], document)) {
                Err(error) => Err(error),
                Ok((handle, binding)) => Ok(ExprKindView::Join { handle, binding }),
            }
        }
    }
}

/// The expressions of a `do` form.
pub open spec fn body(node: NodeView, document: DocumentId) -> Result<Seq<ExprView>, AstErrorView>
    decreases node, 1int, 0int,
{
    match fixed_head(node, "do"@, document) {
        Err(error) => Err(error),
        Ok(_) => exprs(node, 1, Seq::empty(), document),
    }
}

pub open spec fn exprs(owner: NodeView, from: int, done: Seq<ExprView>, document: DocumentId) -> Result<
    Seq<ExprView>,
    AstErrorView,
>
    decreases owner, 0int, syntax::items(owner).len() - from,
{
    if from < 0 || from >= syntax::items(owner).len() {
        Ok(done)
    } else {
        match expr(syntax::items(owner)[from], document) {
            Err(error) => Err(error),
            Ok(value) => exprs(owner, from + 1, done.push(value), document),
        }
    }
}

pub open spec fn expr_fields(owner: NodeView, from: int, done: Seq<ExprFieldView>, document: DocumentId) -> Result<
    Seq<ExprFieldView>,
    AstErrorView,
>
    decreases owner, 0int, syntax::items(owner).len() - from,
{
    if from < 0 || from >= syntax::items(owner).len() {
        Ok(done)
    } else {
        match expr_field(syntax::items(owner)[from], document) {
            Err(error) => Err(error),
            Ok(field) => expr_fields(owner, from + 1, done.push(field), document),
        }
    }
}

pub open spec fn expr_field(node: NodeView, document: DocumentId) -> Result<ExprFieldView, AstErrorView>
    decreases node, 1int, 0int,
{
    if let Some(error) = pair_failure("record field"@, node) {
        Err(error)
    } else {
        match both(name(syntax::items(node)[0], document), expr(syntax::items(node)[1], document)) {
            Err(error) => Err(error),
            Ok((name, value)) => Ok(ExprFieldView { name, value, span: node.span }),
        }
    }
}

pub open spec fn expr_pairs(
    owner: NodeView,
    from: int,
    done: Seq<(ExprView, ExprView)>,
    document: DocumentId,
) -> Result<Seq<(ExprView, ExprView)>, AstErrorView>
    decreases owner, 0int, syntax::items(owner).len() - from,
{
    if from < 0 || from >= syntax::items(owner).len() {
        Ok(done)
    } else {
        match expr_pair(syntax::items(owner)[from], document) {
            Err(error) => Err(error),
            Ok(entry) => expr_pairs(owner, from + 1, done.push(entry), document),
        }
    }
}

pub open spec fn expr_pair(node: NodeView, document: DocumentId) -> Result<(ExprView, ExprView), AstErrorView>
    decreases node, 1int, 0int,
{
    if let Some(error) = pair_failure("pair"@, node) {
        Err(error)
    } else {
        both(expr(syntax::items(node)[0], document), expr(syntax::items(node)[1], document))
    }
}

pub open spec fn match_cases(owner: NodeView, from: int, done: Seq<MatchCaseView>, document: DocumentId) -> Result<
    Seq<MatchCaseView>,
    AstErrorView,
>
    decreases owner, 0int, syntax::items(owner).len() - from,
{
    if from < 0 || from >= syntax::items(owner).len() {
        Ok(done)
    } else {
        match match_case(syntax::items(owner)[from], document) {
            Err(error) => Err(error),
            Ok(case) => match_cases(owner, from + 1, done.push(case), document),
        }
    }
}

pub open spec fn match_case(node: NodeView, document: DocumentId) -> Result<MatchCaseView, AstErrorView>
    decreases node, 1int, 0int,
{
    match fixed_head(node, "case"@, document) {
        Err(error) => Err(error),
        Ok(_) => if syntax::items(node).len() != 3 {
            Err(arity_failure("case"@, 2, 2, (syntax::items(node).len() - 1) as nat, node.span))
        } else {
            match both(pattern(syntax::items(node)[1], document), body(syntax::items(node)[2], document)) {
                Err(error) => Err(error),
                Ok((pattern, body)) => Ok(MatchCaseView { pattern, body, span: node.span }),
            }
        },
    }
}

// Attributes.

/// The first label among `items[from..to]`.
pub open spec fn first_label(items: Seq<NodeView>, from: int, to: int) -> Option<NodeView>
    decreases to - from,
{
    if from >= to {
        None
    } else if items[from].kind is Atom && items[from].kind->Atom_0 is Label {
        Some(items[from])
    } else {
        first_label(items, from + 1, to)
    }
}

/// Why `items[from..]` is not a run of distinct labels, each with a value.
pub open spec fn tail_failure(items: Seq<NodeView>, from: int, seen: Set<Seq<char>>, document: DocumentId) -> Option<
    AstErrorView,
>
    decreases items.len() - from,
{
    if from < 0 || from >= items.len() {
        None
    } else {
        match label(items[from], document) {
            Err(error) => Some(error),
            Ok(found) => if from + 1 >= items.len() {
                Some(
                    failure("E-SYN-011"@, "attribute `"@ + found.value + ":` is missing its value"@, found.span),
                )
            } else if seen.contains(found.value) {
                Some(failure("E-SYN-011"@, "duplicate attribute `"@ + found.value + ":`"@, found.span))
            } else {
                tail_failure(items, from + 2, seen.insert(found.value), document)
            },
        }
    }
}

/// Why the operands of `node` are not `positional` plain operands followed by
/// attributes.
#[verifier::opaque]
pub open spec fn attribute_failure(form: Seq<char>, node: NodeView, positional: nat, document: DocumentId) -> Option<
    AstErrorView,
> {
    let items = syntax::items(node);
    if items.len() < positional + 1 {
        Some(
            failure(
                "E-SYN-009"@,
                "`"@ + form + "` expects at least "@ + text::decimal(positional) + " positional operands, found "@
                    + text::decimal((items.len() - 1) as nat),
                node.span,
            ),
        )
    } else {
        match first_label(items, 1, positional as int + 1) {
            Some(early) => Some(
                failure("E-SYN-011"@, "attribute label appears before all positional operands"@, early.span),
            ),
            None => tail_failure(items, positional as int + 1, Set::empty(), document),
        }
    }
}

// Declarations.

pub open spec fn parameter(node: NodeView, document: DocumentId) -> Result<ParameterView, AstErrorView> {
    if let Some(error) = pair_failure("parameter"@, node) {
        Err(error)
    } else {
        match both(name(syntax::items(node)[0], document), type_expr(syntax::items(node)[1], document)) {
            Err(error) => Err(error),
            Ok((name, ty)) => Ok(ParameterView { name, ty, span: node.span }),
        }
    }
}

pub open spec fn parameters_from(owner: NodeView, from: int, done: Seq<ParameterView>, document: DocumentId) -> Result<
    Seq<ParameterView>,
    AstErrorView,
>
    decreases syntax::items(owner).len() - from,
{
    if from < 0 || from >= syntax::items(owner).len() {
        Ok(done)
    } else {
        match parameter(syntax::items(owner)[from], document) {
            Err(error) => Err(error),
            Ok(value) => parameters_from(owner, from + 1, done.push(value), document),
        }
    }
}

pub open spec fn parameters(node: NodeView, document: DocumentId) -> Result<Seq<ParameterView>, AstErrorView> {
    if !(node.kind is List) {
        Err(list_failure(node))
    } else {
        parameters_from(node, 0, Seq::empty(), document)
    }
}

pub open spec fn type_parameter(node: NodeView, document: DocumentId) -> Result<TypeParameterView, AstErrorView> {
    if !(node.kind is List) {
        Err(list_failure(node))
    } else if syntax::items(node).len() < 1 {
        Err(min_arity_failure("type parameter"@, 1, syntax::items(node).len(), node.span))
    } else {
        match both(name(syntax::items(node)[0], document), type_exprs(node, 1, Seq::empty(), document)) {
            Err(error) => Err(error),
            Ok((name, bounds)) => Ok(TypeParameterView { name, bounds, span: node.span }),
        }
    }
}

pub open spec fn type_parameters_from(
    owner: NodeView,
    from: int,
    done: Seq<TypeParameterView>,
    document: DocumentId,
) -> Result<Seq<TypeParameterView>, AstErrorView>
    decreases syntax::items(owner).len() - from,
{
    if from < 0 || from >= syntax::items(owner).len() {
        Ok(done)
    } else {
        match type_parameter(syntax::items(owner)[from], document) {
            Err(error) => Err(error),
            Ok(value) => type_parameters_from(owner, from + 1, done.push(value), document),
        }
    }
}

pub open spec fn type_parameters(node: NodeView, document: DocumentId) -> Result<
    Seq<TypeParameterView>,
    AstErrorView,
> {
    if !(node.kind is List) {
        Err(list_failure(node))
    } else {
        type_parameters_from(node, 0, Seq::empty(), document)
    }
}

/// A `fn` form; `visibility` comes from the form around it.
pub open spec fn function(node: NodeView, visibility: Visibility, document: DocumentId) -> Result<
    FunctionView,
    AstErrorView,
>
    decreases node, 2int, 0int,
{
    let items = syntax::items(node);
    if let Some(error) = attribute_failure("fn"@, node, 4, document) {
        Err(error)
    } else {
        match both(
            three(name(items[1], document), parameters(items[2], document), type_expr(items[3], document)),
            both(body(items[4], document), annotations(node, 5, Seq::empty(), document)),
        ) {
            Err(error) => Err(error),
            Ok(((name, parameters, return_type), (body, annotations))) => Ok(
                FunctionView {
                    visibility,
                    name,
                    parameters,
                    return_type,
                    body,
                    annotations,
                    span: node.span,
                    origin: Origin::read_at(document, node.span),
                },
            ),
        }
    }
}

/// The annotations spelled by the attributes `items[from..]`.
pub open spec fn annotations(owner: NodeView, from: int, done: Seq<AnnotationView>, document: DocumentId) -> Result<
    Seq<AnnotationView>,
    AstErrorView,
>
    decreases owner, 0int, syntax::items(owner).len() - from,
{
    let items = syntax::items(owner);
    if from < 0 || from + 1 >= items.len() {
        Ok(done)
    } else {
        let value = items[from + 1];
        let span = items[from].span.covering(value.span);
        match label(items[from], document) {
            Err(error) => Err(error),
            Ok(found) => if found.value == "doc"@ {
                match string(value, document) {
                    Err(error) => Err(error),
                    Ok(text) => annotations(
                        owner,
                        from + 2,
                        done.push(Spanned::read(AnnotationKindView::Doc(text.value), document, span)),
                        document,
                    ),
                }
            } else if found.value == "where"@ {
                match type_parameters(value, document) {
                    Err(error) => Err(error),
                    Ok(values) => annotations(
                        owner,
                        from + 2,
                        done.push(Spanned::read(AnnotationKindView::Where(values), document, span)),
                        document,
                    ),
                }
            } else if found.value == "defs"@ {
                if !(value.kind is List) {
                    Err(list_failure(value))
                } else {
                    match functions(value, 0, Seq::empty(), document) {
                        Err(error) => Err(error),
                        Ok(values) => annotations(
                            owner,
                            from + 2,
                            done.push(Spanned::read(AnnotationKindView::Definitions(values), document, span)),
                            document,
                        ),
                    }
                }
            } else if found.value == "impls"@ {
                if !(value.kind is List) {
                    Err(list_failure(value))
                } else {
                    match implementations(value, 0, done, document) {
                        Err(error) => Err(error),
                        Ok(done) => annotations(owner, from + 2, done, document),
                    }
                }
            } else {
                Err(
                    failure(
                        "E-SYN-011"@,
                        "unknown declaration attribute `"@ + found.value + ":`"@,
                        found.span,
                    ),
                )
            },
        }
    }
}

pub open spec fn functions(owner: NodeView, from: int, done: Seq<FunctionView>, document: DocumentId) -> Result<
    Seq<FunctionView>,
    AstErrorView,
>
    decreases owner, 0int, syntax::items(owner).len() - from,
{
    if from < 0 || from >= syntax::items(owner).len() {
        Ok(done)
    } else {
        let node = syntax::items(owner)[from];
        match fixed_head(node, "fn"@, document) {
            Err(error) => Err(error),
            Ok(_) => match function(node, Visibility::Public, document) {
                Err(error) => Err(error),
                Ok(value) => functions(owner, from + 1, done.push(value), document),
            },
        }
    }
}

pub open spec fn implementations(owner: NodeView, from: int, done: Seq<AnnotationView>, document: DocumentId) -> Result<
    Seq<AnnotationView>,
    AstErrorView,
>
    decreases owner, 0int, syntax::items(owner).len() - from,
{
    if from < 0 || from >= syntax::items(owner).len() {
        Ok(done)
    } else {
        let node = syntax::items(owner)[from];
        match implementation(node, document) {
            Err(error) => Err(error),
            Ok(value) => implementations(
                owner,
                from + 1,
                done.push(Spanned::read(value, document, node.span)),
                document,
            ),
        }
    }
}

pub open spec fn implementation(node: NodeView, document: DocumentId) -> Result<AnnotationKindView, AstErrorView>
    decreases node, 1int, 0int,
{
    match fixed_head(node, "impl"@, document) {
        Err(error) => Err(error),
        Ok(_) => if let Some(error) = attribute_failure("impl"@, node, 1, document) {
            Err(error)
        } else {
            match both(impl_items(node, 2, Seq::empty(), document), type_expr(syntax::items(node)[1], document)) {
                Err(error) => Err(error),
                Ok((items, interface)) => Ok(AnnotationKindView::Implementation { interface, items }),
            }
        },
    }
}

pub open spec fn impl_items(owner: NodeView, from: int, done: Seq<ImplItemView>, document: DocumentId) -> Result<
    Seq<ImplItemView>,
    AstErrorView,
>
    decreases owner, 0int, syntax::items(owner).len() - from,
{
    let items = syntax::items(owner);
    if from < 0 || from + 1 >= items.len() {
        Ok(done)
    } else {
        let value = items[from + 1];
        match label(items[from], document) {
            Err(error) => Err(error),
            Ok(found) => if found.value == "types"@ {
                if !(value.kind is List) {
                    Err(list_failure(value))
                } else {
                    match type_exprs(value, 0, Seq::empty(), document) {
                        Err(error) => Err(error),
                        Ok(types) => impl_items(owner, from + 2, done.push(ImplItemView::Types(types)), document),
                    }
                }
            } else if found.value == "methods"@ {
                if !(value.kind is List) {
                    Err(list_failure(value))
                } else {
                    match methods(value, 0, done, document) {
                        Err(error) => Err(error),
                        Ok(done) => impl_items(owner, from + 2, done, document),
                    }
                }
            } else {
                Err(
                    failure(
                        "E-SYN-011"@,
                        "unknown implementation attribute `"@ + found.value + ":`"@,
                        found.span,
                    ),
                )
            },
        }
    }
}

pub open spec fn methods(owner: NodeView, from: int, done: Seq<ImplItemView>, document: DocumentId) -> Result<
    Seq<ImplItemView>,
    AstErrorView,
>
    decreases owner, 0int, syntax::items(owner).len() - from,
{
    if from < 0 || from >= syntax::items(owner).len() {
        Ok(done)
    } else {
        match method(syntax::items(owner)[from], document) {
            Err(error) => Err(error),
            Ok(value) => methods(owner, from + 1, done.push(value), document),
        }
    }
}

pub open spec fn method(node: NodeView, document: DocumentId) -> Result<ImplItemView, AstErrorView>
    decreases node, 1int, 1int,
{
    let items = syntax::items(node);
    match fixed_head(node, "method"@, document) {
        Err(error) => Err(error),
        Ok(_) => if items.len() != 3 {
            Err(arity_failure("method"@, 2, 2, (items.len() - 1) as nat, node.span))
        } else {
            match both(method_binding(items[2], document), name(items[1], document)) {
                Err(error) => Err(error),
                Ok((binding, name)) => Ok(ImplItemView::Method { name, binding, span: node.span }),
            }
        },
    }
}

pub open spec fn method_binding(node: NodeView, document: DocumentId) -> Result<MethodBindingView, AstErrorView>
    decreases node, 3int, 0int,
{
    if symbol(node) is Some {
        match name(node, document) {
            Err(error) => Err(error),
            Ok(name) => Ok(MethodBindingView::Reference(name)),
        }
    } else {
        match fixed_head(node, "fn"@, document) {
            Err(error) => Err(error),
            Ok(_) => match function(node, Visibility::Public, document) {
                Err(error) => Err(error),
                Ok(value) => Ok(MethodBindingView::Function(value)),
            },
        }
    }
}

#[verifier::opaque]
pub open spec fn definition(node: NodeView, visibility: Visibility, document: DocumentId) -> Result<
    DefinitionView,
    AstErrorView,
> {
    let items = syntax::items(node);
    if let Some(error) = attribute_failure("def"@, node, 2, document) {
        Err(error)
    } else {
        match three(
            name(items[1], document),
            type_expr(items[2], document),
            annotations(node, 3, Seq::empty(), document),
        ) {
            Err(error) => Err(error),
            Ok((name, body, annotations)) => Ok(
                DefinitionView {
                    visibility,
                    name,
                    body,
                    annotations,
                    span: node.span,
                    origin: Origin::read_at(document, node.span),
                },
            ),
        }
    }
}

#[verifier::opaque]
pub open spec fn constant(node: NodeView, visibility: Visibility, document: DocumentId) -> Result<
    ConstantView,
    AstErrorView,
> {
    let items = syntax::items(node);
    if let Some(error) = attribute_failure("const"@, node, 3, document) {
        Err(error)
    } else {
        match both(
            three(name(items[1], document), type_expr(items[2], document), expr(items[3], document)),
            annotations(node, 4, Seq::empty(), document),
        ) {
            Err(error) => Err(error),
            Ok(((name, ty, value), annotations)) => Ok(
                ConstantView {
                    visibility,
                    name,
                    ty,
                    value,
                    annotations,
                    span: node.span,
                    origin: Origin::read_at(document, node.span),
                },
            ),
        }
    }
}

#[verifier::opaque]
pub open spec fn import(node: NodeView, document: DocumentId) -> Result<ImportView, AstErrorView> {
    let items = syntax::items(node);
    if items.len() != 3 {
        Err(arity_failure("import"@, 2, 2, (items.len() - 1) as nat, node.span))
    } else {
        match both(name(items[1], document), string(items[2], document)) {
            Err(error) => Err(error),
            Ok((alias, path)) => Ok(
                ImportView { alias, path, span: node.span, origin: Origin::read_at(document, node.span) },
            ),
        }
    }
}

// Macros.

pub open spec fn syntax_category(node: NodeView, document: DocumentId) -> Result<
    Spanned<SyntaxCategory>,
    AstErrorView,
> {
    match symbol(node) {
        None => Err(failure("E-SYN-010"@, "expected a syntax category symbol"@, node.span)),
        Some(value) => if value == "expr-syntax"@ {
            Ok(Spanned::read(SyntaxCategory::Expression, document, node.span))
        } else if value == "type-syntax"@ {
            Ok(Spanned::read(SyntaxCategory::Type, document, node.span))
        } else if value == "pattern-syntax"@ {
            Ok(Spanned::read(SyntaxCategory::Pattern, document, node.span))
        } else if value == "definition-syntax"@ {
            Ok(Spanned::read(SyntaxCategory::Definition, document, node.span))
        } else if value == "module-syntax"@ {
            Ok(Spanned::read(SyntaxCategory::Module, document, node.span))
        } else {
            Err(failure("E-SYN-008"@, "unknown syntax category `"@ + value + "`"@, node.span))
        },
    }
}

pub open spec fn macro_parameter(node: NodeView, document: DocumentId) -> Result<MacroParameterView, AstErrorView> {
    if let Some(error) = pair_failure("macro parameter"@, node) {
        Err(error)
    } else {
        match both(name(syntax::items(node)[0], document), syntax_category(syntax::items(node)[1], document)) {
            Err(error) => Err(error),
            Ok((name, category)) => Ok(MacroParameterView { name, category, span: node.span }),
        }
    }
}

pub open spec fn macro_parameters_from(
    owner: NodeView,
    from: int,
    done: Seq<MacroParameterView>,
    document: DocumentId,
) -> Result<Seq<MacroParameterView>, AstErrorView>
    decreases syntax::items(owner).len() - from,
{
    if from < 0 || from >= syntax::items(owner).len() {
        Ok(done)
    } else {
        match macro_parameter(syntax::items(owner)[from], document) {
            Err(error) => Err(error),
            Ok(value) => macro_parameters_from(owner, from + 1, done.push(value), document),
        }
    }
}

pub open spec fn macro_parameters(node: NodeView, document: DocumentId) -> Result<
    Seq<MacroParameterView>,
    AstErrorView,
> {
    if !(node.kind is List) {
        Err(list_failure(node))
    } else {
        macro_parameters_from(node, 0, Seq::empty(), document)
    }
}

pub open spec fn macro_body(node: NodeView, document: DocumentId) -> Result<Seq<MacroExprView>, AstErrorView>
    decreases node, 1int, 0int,
{
    match fixed_head(node, "do"@, document) {
        Err(error) => Err(error),
        Ok(_) => if syntax::items(node).len() < 2 {
            Err(min_arity_failure("macro do"@, 1, (syntax::items(node).len() - 1) as nat, node.span))
        } else {
            macro_exprs(node, 1, Seq::empty(), document)
        },
    }
}

pub open spec fn macro_exprs(owner: NodeView, from: int, done: Seq<MacroExprView>, document: DocumentId) -> Result<
    Seq<MacroExprView>,
    AstErrorView,
>
    decreases owner, 0int, syntax::items(owner).len() - from,
{
    if from < 0 || from >= syntax::items(owner).len() {
        Ok(done)
    } else {
        match macro_expr(syntax::items(owner)[from], document) {
            Err(error) => Err(error),
            Ok(value) => macro_exprs(owner, from + 1, done.push(value), document),
        }
    }
}

pub open spec fn macro_expr(node: NodeView, document: DocumentId) -> Result<MacroExprView, AstErrorView>
    decreases node, 2int, 0int,
{
    match node.kind {
        NodeKindView::Atom(AtomView::Label(_)) => Err(
            failure("E-SYN-011"@, "attribute label is not a macro expression"@, node.span),
        ),
        NodeKindView::Atom(atom) => Ok(Spanned::read(MacroExprKindView::Atom(atom), document, node.span)),
        _ => match head(node, document) {
            Err(error) => Err(error),
            Ok(head) => match macro_form(node, head, document) {
                Err(error) => Err(error),
                Ok(value) => Ok(Spanned::read(value, document, node.span)),
            },
        },
    }
}

pub open spec fn macro_form(node: NodeView, head: NameView, document: DocumentId) -> Result<
    MacroExprKindView,
    AstErrorView,
>
    decreases node, 1int, 0int,
{
    let items = syntax::items(node);
    let operands = (items.len() - 1) as nat;
    let form = head.value;
    if items.len() == 0 {
        Err(list_failure(node))
    } else if form == "let"@ {
        if operands != 2 {
            Err(arity_failure("macro let"@, 2, 2, operands, node.span))
        } else {
            match both(name(items[1], document), macro_expr(items[2], document)) {
                Err(error) => Err(error),
                Ok((name, value)) => Ok(MacroExprKindView::Let { name, value: Box::new(value) }),
            }
        }
    } else if form == "if"@ {
        if operands != 3 {
            Err(arity_failure("macro if"@, 3, 3, operands, node.span))
        } else {
            match three(
                macro_expr(items[1], document),
                macro_body(items[2], document),
                macro_body(items[3], document),
            ) {
                Err(error) => Err(error),
                Ok((condition, then_body, else_body)) => Ok(
                    MacroExprKindView::If { condition: Box::new(condition), then_body, else_body },
                ),
            }
        }
    } else if form == "quote"@ {
        if operands != 2 {
            Err(arity_failure("quote"@, 2, 2, operands, node.span))
        } else {
            match syntax_category(items[1], document) {
                Err(error) => Err(error),
                Ok(category) => Ok(MacroExprKindView::Quote { category, form: items[2] }),
            }
        }
    } else if form == "unquote"@ || form == "splice"@ || form == "capture"@ {
        if operands != 1 {
            Err(arity_failure(form, 1, 1, operands, node.span))
        } else {
            match name(items[1], document) {
                Err(error) => Err(error),
                Ok(target) => Ok(
                    if form == "unquote"@ {
                        MacroExprKindView::Unquote(target)
                    } else if form == "splice"@ {
                        MacroExprKindView::Splice(target)
                    } else {
                        MacroExprKindView::Capture(target)
                    },
                ),
            }
        }
    } else {
        Err(failure("E-SYN-008"@, "unknown macro expression `"@ + form + "`"@, head.span))
    }
}

#[verifier::opaque]
pub open spec fn macro_definition(node: NodeView, visibility: Visibility, document: DocumentId) -> Result<
    MacroView,
    AstErrorView,
> {
    let items = syntax::items(node);
    if let Some(error) = attribute_failure("macro"@, node, 4, document) {
        Err(error)
    } else {
        match both(
            three(name(items[1], document), macro_parameters(items[2], document), syntax_category(items[3], document)),
            both(macro_body(items[4], document), annotations(node, 5, Seq::empty(), document)),
        ) {
            Err(error) => Err(error),
            Ok(((name, parameters, result), (body, annotations))) => Ok(
                MacroView {
                    visibility,
                    name,
                    parameters,
                    result,
                    body,
                    annotations,
                    span: node.span,
                    origin: Origin::read_at(document, node.span),
                },
            ),
        }
    }
}

// Tests.

#[verifier::opaque]
pub open spec fn test_meta(owner: NodeView, from: int, document: DocumentId) -> Result<TestMetaView, AstErrorView> {
    let items = syntax::items(owner);
    let value = items[from + 1];
    let span = items[from].span.covering(value.span);
    let parts = syntax::items(value);
    match label(items[from], document) {
        Err(error) => Err(error),
        Ok(found) => if found.value == "tags"@ {
            if !(value.kind is List) {
                Err(list_failure(value))
            } else {
                match names(value, 0, Seq::empty(), document) {
                    Err(error) => Err(error),
                    Ok(tags) => Ok(TestMetaView::Tags(tags)),
                }
            }
        } else if found.value == "expect-error"@ {
            if !(value.kind is List) {
                Err(list_failure(value))
            } else if parts.len() < 2 || parts.len() > 3 {
                Err(arity_failure("expect-error"@, 2, 3, parts.len(), span))
            } else {
                match three(
                    name(parts[0], document),
                    name(parts[1], document),
                    if parts.len() == 3 {
                        match string(parts[2], document) {
                            Err(error) => Err(error),
                            Ok(text) => Ok(Some(text)),
                        }
                    } else {
                        Ok(None)
                    },
                ) {
                    Err(error) => Err(error),
                    Ok((phase, code, message)) => Ok(TestMetaView::ExpectError { phase, code, message }),
                }
            }
        } else if found.value == "clock"@ {
            if !(value.kind is List) {
                Err(list_failure(value))
            } else if parts.len() != 2 {
                Err(arity_failure("clock"@, 2, 2, parts.len(), span))
            } else {
                match both(name(parts[0], document), integer(parts[1], document)) {
                    Err(error) => Err(error),
                    Ok((mode, millis)) => Ok(TestMetaView::Clock { mode, millis }),
                }
            }
        } else if found.value == "benchmark"@ {
            if !(value.kind is List) {
                Err(list_failure(value))
            } else {
                Ok(TestMetaView::Benchmark(value))
            }
        } else if found.value == "workspace"@ {
            match name(value, document) {
                Err(error) => Err(error),
                Ok(name) => Ok(TestMetaView::Workspace(name)),
            }
        } else {
            Err(failure("E-SYN-011"@, "unknown test attribute `"@ + found.value + ":`"@, found.span))
        },
    }
}

pub open spec fn test_metadata(owner: NodeView, from: int, done: Seq<TestMetaView>, document: DocumentId) -> Result<
    Seq<TestMetaView>,
    AstErrorView,
>
    decreases syntax::items(owner).len() - from,
{
    if from < 0 || from + 1 >= syntax::items(owner).len() {
        Ok(done)
    } else {
        match test_meta(owner, from, document) {
            Err(error) => Err(error),
            Ok(value) => test_metadata(owner, from + 2, done.push(value), document),
        }
    }
}

#[verifier::opaque]
pub open spec fn test(node: NodeView, document: DocumentId) -> Result<TestView, AstErrorView> {
    let items = syntax::items(node);
    if let Some(error) = attribute_failure("test"@, node, 3, document) {
        Err(error)
    } else {
        match both(
            three(name(items[1], document), name(items[2], document), body(items[3], document)),
            test_metadata(node, 4, Seq::empty(), document),
        ) {
            Err(error) => Err(error),
            Ok(((name, profile, body), metadata)) => Ok(
                TestView {
                    name,
                    profile,
                    body,
                    metadata,
                    span: node.span,
                    origin: Origin::read_at(document, node.span),
                },
            ),
        }
    }
}

// Modules.

#[verifier::opaque]
pub open spec fn private(node: NodeView, document: DocumentId) -> Result<TopLevelView, AstErrorView> {
    let items = syntax::items(node);
    let span = node.span;
    let origin = Origin::read_at(document, node.span);
    if items.len() != 2 {
        Err(arity_failure("private"@, 1, 1, (items.len() - 1) as nat, node.span))
    } else {
        let inner = items[1];
        match head(inner, document) {
            Err(error) => Err(error),
            Ok(head) => if head.value == "def"@ {
                match definition(inner, Visibility::Private, document) {
                    Err(error) => Err(error),
                    Ok(value) => Ok(TopLevelView::Definition(DefinitionView { span, origin, ..value })),
                }
            } else if head.value == "const"@ {
                match constant(inner, Visibility::Private, document) {
                    Err(error) => Err(error),
                    Ok(value) => Ok(TopLevelView::Constant(ConstantView { span, origin, ..value })),
                }
            } else if head.value == "fn"@ {
                match function(inner, Visibility::Private, document) {
                    Err(error) => Err(error),
                    Ok(value) => Ok(TopLevelView::Function(FunctionView { span, origin, ..value })),
                }
            } else if head.value == "macro"@ {
                match macro_definition(inner, Visibility::Private, document) {
                    Err(error) => Err(error),
                    Ok(value) => Ok(TopLevelView::Macro(MacroView { span, origin, ..value })),
                }
            } else {
                Err(
                    failure("E-SYN-008"@, "`private` accepts exactly one def, const, fn, or macro"@, head.span),
                )
            },
        }
    }
}

#[verifier::opaque]
pub open spec fn top_level(node: NodeView, document: DocumentId) -> Result<TopLevelView, AstErrorView> {
    match head(node, document) {
        Err(error) => Err(error),
        Ok(head) => if head.value == "import"@ {
            match import(node, document) {
                Err(error) => Err(error),
                Ok(value) => Ok(TopLevelView::Import(value)),
            }
        } else if head.value == "def"@ {
            match definition(node, Visibility::Public, document) {
                Err(error) => Err(error),
                Ok(value) => Ok(TopLevelView::Definition(value)),
            }
        } else if head.value == "const"@ {
            match constant(node, Visibility::Public, document) {
                Err(error) => Err(error),
                Ok(value) => Ok(TopLevelView::Constant(value)),
            }
        } else if head.value == "fn"@ {
            match function(node, Visibility::Public, document) {
                Err(error) => Err(error),
                Ok(value) => Ok(TopLevelView::Function(value)),
            }
        } else if head.value == "macro"@ {
            match macro_definition(node, Visibility::Public, document) {
                Err(error) => Err(error),
                Ok(value) => Ok(TopLevelView::Macro(value)),
            }
        } else if head.value == "test"@ {
            match test(node, document) {
                Err(error) => Err(error),
                Ok(value) => Ok(TopLevelView::Test(value)),
            }
        } else if head.value == "private"@ {
            private(node, document)
        } else {
            Err(failure("E-SYN-007"@, "`"@ + head.value + "` is not a valid top-level form"@, head.span))
        },
    }
}

/// The forms `nodes[from..]`, after those in `done`.
pub open spec fn top_levels(nodes: Seq<NodeView>, from: int, done: Seq<TopLevelView>, document: DocumentId) -> Result<
    Seq<TopLevelView>,
    AstErrorView,
>
    decreases nodes.len() - from,
{
    if from < 0 || from >= nodes.len() {
        Ok(done)
    } else {
        match top_level(nodes[from], document) {
            Err(error) => Err(error),
            Ok(form) => top_levels(nodes, from + 1, done.push(form), document),
        }
    }
}

/// The module that a document's nodes stand for.
pub open spec fn module(nodes: Seq<NodeView>, span: Span, document: DocumentId) -> Result<ModuleView, AstErrorView> {
    match top_levels(syntax::semantic(nodes), 0, Seq::empty(), document) {
        Err(error) => Err(error),
        Ok(forms) => Ok(ModuleView { forms, span, document_id: document }),
    }
}

} // verus!
