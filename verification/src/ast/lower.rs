//! Lowering of reader nodes to the typed surface tree.
use vstd::prelude::*;
use crate::ast::copy;
use crate::ast::grammar;
use crate::ast::surface::{
    Annotation, AnnotationKind, AstError, AstId, Constant, Definition, DocumentId, Expr, ExprField, ExprKind,
    Function,
    ImplItem, Import, Literal, Macro, MacroExpr, MacroExprKind, MacroParameter, MatchCase, MethodBinding, Module,
    Name,
    Origin, Parameter, Pattern, PatternField, PatternKind, Spanned, SyntaxCategory, Test, TestMeta, TopLevel,
    TypeExpr,
    TypeExprKind, TypeMember, TypeParameter, Visibility,
};
use crate::ast::view::{
    self, AnnotationKindView, AnnotationView, AstErrorView, ConstantView, DefinitionView, ExprFieldView, ExprKindView,
    ExprView, FunctionView, ImplItemView, ImportView, LiteralView, MacroExprKindView, MacroExprView,
    MacroParameterView, MacroView, MatchCaseView, MethodBindingView, ModuleView, NameView, ParameterView,
    PatternFieldView, PatternKindView, PatternView, TestMetaView, TestView, TopLevelView, TypeExprKindView,
    TypeExprView, TypeMemberView, TypeParameterView,
};
use crate::names::has_name;
use crate::syntax::{self, Atom, Node, NodeKind, Span, SyntaxDocument};
use crate::text::{concat_five, concat_three, decimal_text, owned, same_text};

verus! {

broadcast use crate::syntax::lemma_item_decreases;

fn failure(code: &'static str, message: String, span: Span) -> (error: AstError)
    ensures
        view::ast_error(error) == grammar::failure(code@, message@, span),
{
    let error = AstError { code, message, span, related: Vec::new() };
    assert(view::ast_error(error).related =~= Seq::empty());
    error
}

fn list_failure(node: &Node) -> (error: AstError)
    ensures
        view::ast_error(error) == grammar::list_failure(syntax::node_view(*node)),
{
    failure("E-SYN-010", owned("expected a list"), node.span)
}

fn is_list(node: &Node) -> (result: bool)
    ensures
        result == (syntax::node_view(*node).kind is List),
{
    match &node.kind {
        NodeKind::List(_) => true,
        _ => false,
    }
}

fn is_label(node: &Node) -> (result: bool)
    ensures
        result == (syntax::node_view(*node).kind is Atom && syntax::node_view(*node).kind->Atom_0 is Label),
{
    match &node.kind {
        NodeKind::Atom(Atom::Label(_)) => true,
        _ => false,
    }
}

fn items_of<'a>(node: &'a Node) -> (result: Vec<&'a Node>)
    ensures
        syntax::node_refs(result@) == syntax::items(syntax::node_view(*node)),
        result@.len() == syntax::items(syntax::node_view(*node)).len(),
{
    match &node.kind {
        NodeKind::List(children) => {
            let result = syntax::semantic_nodes(children);
            assert(syntax::node_refs(result@).len() == result@.len());
            result
        }
        _ => {
            let result: Vec<&'a Node> = Vec::new();
            assert(syntax::node_refs(result@) =~= Seq::empty());
            result
        }
    }
}

fn expected_text(min: usize, max: usize) -> (result: String)
    ensures
        result@ == if min == max {
            crate::text::decimal(min as nat)
        } else {
            crate::text::decimal(min as nat) + "..="@ + crate::text::decimal(max as nat)
        },
{
    let low = decimal_text(min as u64);
    if min == max {
        low
    } else {
        let high = decimal_text(max as u64);
        concat_three(low.as_str(), "..=", high.as_str())
    }
}

fn arity_failure(form: &str, min: usize, max: usize, found: usize, span: Span) -> (error: AstError)
    ensures
        view::ast_error(error) == grammar::arity_failure(form@, min as nat, max as nat, found as nat, span),
{
    let expected = expected_text(min, max);
    let count = decimal_text(found as u64);
    let mut message = concat_five("`", form, "` expects ", expected.as_str(), " operands, found ");
    message.append(count.as_str());
    failure("E-SYN-009", message, span)
}

fn min_arity_failure(form: &str, min: usize, found: usize, span: Span) -> (error: AstError)
    ensures
        view::ast_error(error) == grammar::min_arity_failure(form@, min as nat, found as nat, span),
{
    let expected = decimal_text(min as u64);
    let count = decimal_text(found as u64);
    let mut message = concat_five("`", form, "` expects at least ", expected.as_str(), " operands, found ");
    message.append(count.as_str());
    failure("E-SYN-009", message, span)
}

fn head_failure(expected: &str, actual: &Name) -> (error: AstError)
    ensures
        view::ast_error(error) == grammar::head_failure(expected@, view::name(*actual)),
{
    failure(
        "E-SYN-008",
        concat_five("expected `", expected, "` form, found `", actual.value.as_str(), "`"),
        actual.span,
    )
}

fn source_origin(document: DocumentId, span: Span) -> (origin: Origin)
    ensures
        origin == Origin::read_at(document, span),
{
    Origin::DocumentSource { document, ast_id: AstId::from_span(span), span }
}

fn symbol(node: &Node) -> (result: Option<String>)
    ensures
        match result {
            Some(value) => grammar::symbol(syntax::node_view(*node)) == Some(value@),
            None => grammar::symbol(syntax::node_view(*node)) is None,
        },
{
    match &node.kind {
        NodeKind::Atom(Atom::Symbol(value)) => Some(value.clone()),
        _ => None,
    }
}

fn name(node: &Node, document: DocumentId) -> (result: Result<Name, AstError>)
    ensures
        match result {
            Ok(value) => grammar::name(
                syntax::node_view(*node),
                document,
            ) == Ok::<NameView, AstErrorView>(view::name(value)),
            Err(error) => grammar::name(
                syntax::node_view(*node),
                document,
            ) == Err::<NameView, AstErrorView>(view::ast_error(error)),
        },
{
    match &node.kind {
        NodeKind::Atom(Atom::Symbol(value)) => Ok(Spanned::source(value.clone(), document, node.span)),
        _ => Err(failure("E-SYN-010", owned("expected a symbol"), node.span)),
    }
}

fn label(node: &Node, document: DocumentId) -> (result: Result<Name, AstError>)
    ensures
        match result {
            Ok(value) => grammar::label(
                syntax::node_view(*node),
                document,
            ) == Ok::<NameView, AstErrorView>(view::name(value)),
            Err(error) => grammar::label(
                syntax::node_view(*node),
                document,
            ) == Err::<NameView, AstErrorView>(view::ast_error(error)),
        },
{
    match &node.kind {
        NodeKind::Atom(Atom::Label(value)) => Ok(Spanned::source(value.clone(), document, node.span)),
        _ => Err(failure("E-SYN-011", owned("expected a trailing attribute label"), node.span)),
    }
}

fn string(node: &Node, document: DocumentId) -> (result: Result<Name, AstError>)
    ensures
        match result {
            Ok(value) => grammar::string(
                syntax::node_view(*node),
                document,
            ) == Ok::<NameView, AstErrorView>(view::name(value)),
            Err(error) => grammar::string(
                syntax::node_view(*node),
                document,
            ) == Err::<NameView, AstErrorView>(view::ast_error(error)),
        },
{
    match &node.kind {
        NodeKind::Atom(Atom::String(value)) => Ok(Spanned::source(value.clone(), document, node.span)),
        _ => Err(failure("E-SYN-010", owned("expected a string"), node.span)),
    }
}

fn integer(node: &Node, document: DocumentId) -> (result: Result<Spanned<i64>, AstError>)
    ensures
        match result {
            Ok(value) => grammar::integer(
                syntax::node_view(*node),
                document,
            ) == Ok::<Spanned<i64>, AstErrorView>(value),
            Err(error) => grammar::integer(
                syntax::node_view(*node),
                document,
            ) == Err::<Spanned<i64>, AstErrorView>(view::ast_error(error)),
        },
{
    match &node.kind {
        NodeKind::Atom(Atom::Int(value)) => Ok(Spanned::source(*value, document, node.span)),
        _ => Err(failure("E-SYN-010", owned("expected an integer"), node.span)),
    }
}

fn literal(atom: &Atom) -> (result: Option<Literal>)
    ensures
        match result {
            Some(value) => grammar::literal(atom@) == Some(view::literal(value)),
            None => grammar::literal(atom@) is None,
        },
{
    match atom {
        Atom::String(value) => Some(Literal::String(value.clone())),
        Atom::Bool(value) => Some(Literal::Bool(*value)),
        Atom::Int(value) => Some(Literal::Int(*value)),
        Atom::Float(value) => Some(Literal::Float(*value)),
        Atom::Unit => Some(Literal::Unit),
        Atom::Symbol(_) => None,
        Atom::Label(_) => None,
    }
}

fn literal_node(node: &Node) -> (result: Result<Literal, AstError>)
    ensures
        match result {
            Ok(value) => grammar::literal_node(
                syntax::node_view(*node),
            ) == Ok::<LiteralView, AstErrorView>(view::literal(value)),
            Err(error) => grammar::literal_node(
                syntax::node_view(*node),
            ) == Err::<LiteralView, AstErrorView>(view::ast_error(error)),
        },
{
    match &node.kind {
        NodeKind::Atom(atom) => match literal(atom) {
            Some(value) => Ok(value),
            None => Err(failure("E-SYN-010", owned("expected a literal"), node.span)),
        },
        _ => Err(failure("E-SYN-010", owned("expected a literal"), node.span)),
    }
}

fn head(node: &Node, document: DocumentId) -> (result: Result<Name, AstError>)
    ensures
        match result {
            Ok(value) => grammar::head(
                syntax::node_view(*node),
                document,
            ) == Ok::<NameView, AstErrorView>(view::name(value)),
            Err(error) => grammar::head(
                syntax::node_view(*node),
                document,
            ) == Err::<NameView, AstErrorView>(view::ast_error(error)),
        },
        result is Ok ==> syntax::node_view(*node).kind is List && syntax::items(syntax::node_view(*node)).len() >= 1,
{
    if !is_list(node) {
        return Err(list_failure(node));
    }
    let items = items_of(node);
    if items.len() == 0 {
        return Err(failure("E-SYN-008", owned("a semantic list must have a symbol head"), node.span));
    }
    assert(syntax::node_view(*items@[0]) == syntax::items(syntax::node_view(*node))[0]);
    name(items[0], document)
}

fn fixed_head(node: &Node, expected: &str, document: DocumentId) -> (result: Result<Name, AstError>)
    ensures
        match result {
            Ok(value) => grammar::fixed_head(
                syntax::node_view(*node),
                expected@,
                document,
            ) == Ok::<NameView, AstErrorView>(view::name(value)),
            Err(error) => grammar::fixed_head(
                syntax::node_view(*node),
                expected@,
                document,
            ) == Err::<NameView, AstErrorView>(view::ast_error(error)),
        },
        result is Ok ==> syntax::node_view(*node).kind is List && syntax::items(syntax::node_view(*node)).len() >= 1,
{
    let found = match head(node, document) {
        Ok(value) => value,
        Err(error) => return Err(error),
    };
    if same_text(found.value.as_str(), expected) {
        Ok(found)
    } else {
        Err(head_failure(expected, &found))
    }
}

fn pair_of<'a>(form: &str, node: &'a Node) -> (result: Result<(&'a Node, &'a Node), AstError>)
    ensures
        match result {
            Ok((first, second)) => grammar::pair_failure(form@, syntax::node_view(*node)) is None && syntax::items(
                syntax::node_view(*node),
            ).len() == 2 && syntax::node_view(*first) == syntax::items(syntax::node_view(*node))[0] && syntax::node_view(*second)
                == syntax::items(syntax::node_view(*node))[1],
            Err(error) => grammar::pair_failure(form@, syntax::node_view(*node)) == Some(view::ast_error(error)),
        },
{
    if !is_list(node) {
        return Err(list_failure(node));
    }
    let items = items_of(node);
    if items.len() != 2 {
        return Err(arity_failure(form, 2, 2, items.len(), node.span));
    }
    assert(syntax::node_view(*items@[0]) == syntax::items(syntax::node_view(*node))[0]);
    assert(syntax::node_view(*items@[1]) == syntax::items(syntax::node_view(*node))[1]);
    Ok((items[0], items[1]))
}

fn names(owner: &Node, from: usize, document: DocumentId) -> (result: Result<Vec<Name>, AstError>)
    ensures
        match result {
            Ok(value) => grammar::names(
                syntax::node_view(*owner),
                from as int,
                Seq::empty(),
                document,
            ) == Ok::<Seq<NameView>, AstErrorView>(view::names(value@)),
            Err(error) => grammar::names(
                syntax::node_view(*owner),
                from as int,
                Seq::empty(),
                document,
            ) == Err::<Seq<NameView>, AstErrorView>(view::ast_error(error)),
        },
{
    let items = items_of(owner);
    let ghost node = syntax::node_view(*owner);
    let mut done: Vec<Name> = Vec::new();
    let mut i: usize = from;
    assert(view::names(done@) =~= Seq::<NameView>::empty());
    while i < items.len()
        invariant
            node == syntax::node_view(*owner),
            syntax::node_refs(items@) == syntax::items(node),
            grammar::names(node, from as int, Seq::empty(), document) == grammar::names(
                node,
                i as int,
                view::names(done@),
                document,
            ),
        decreases items.len() - i,
    {
        let ghost before = done@;
        assert(syntax::node_view(*items@[i as int]) == syntax::items(node)[i as int]);
        let value = match name(items[i], document) {
            Ok(value) => value,
            Err(error) => return Err(error),
        };
        done.push(value);
        proof { view::lemma_names_push(before, done@.last()); }
        i += 1;
    }
    Ok(done)
}

fn captures(node: &Node, document: DocumentId) -> (result: Result<Vec<Name>, AstError>)
    ensures
        match result {
            Ok(value) => grammar::captures(
                syntax::node_view(*node),
                document,
            ) == Ok::<Seq<NameView>, AstErrorView>(view::names(value@)),
            Err(error) => grammar::captures(
                syntax::node_view(*node),
                document,
            ) == Err::<Seq<NameView>, AstErrorView>(view::ast_error(error)),
        },
{
    match fixed_head(node, "captures", document) {
        Ok(_) => {}
        Err(error) => return Err(error),
    }
    names(node, 1, document)
}

fn type_expr(node: &Node, document: DocumentId) -> (result: Result<TypeExpr, AstError>)
    ensures
        match result {
            Ok(value) => grammar::type_expr(
                syntax::node_view(*node),
                document,
            ) == Ok::<TypeExprView, AstErrorView>(view::type_expr(value)),
            Err(error) => grammar::type_expr(
                syntax::node_view(*node),
                document,
            ) == Err::<TypeExprView, AstErrorView>(view::ast_error(error)),
        },
    decreases syntax::node_view(*node), 2int, 0int,
{
    reveal(view::type_kind);
    match symbol(node) {
        Some(value) => Ok(Spanned::source(TypeExprKind::Named(value), document, node.span)),
        None => {
            let head = match head(node, document) {
                Ok(value) => value,
                Err(error) => return Err(error),
            };
            let value = match type_form(node, head, document) {
                Ok(value) => value,
                Err(error) => return Err(error),
            };
            Ok(Spanned::source(value, document, node.span))
        }
    }
}

fn type_form(node: &Node, head: Name, document: DocumentId) -> (result: Result<TypeExprKind, AstError>)
    requires
        syntax::items(syntax::node_view(*node)).len() >= 1,
    ensures
        match result {
            Ok(value) => grammar::type_form(
                syntax::node_view(*node),
                view::name(head),
                document,
            ) == Ok::<TypeExprKindView, AstErrorView>(view::type_kind(value)),
            Err(error) => grammar::type_form(
                syntax::node_view(*node),
                view::name(head),
                document,
            ) == Err::<TypeExprKindView, AstErrorView>(view::ast_error(error)),
        },
    decreases syntax::node_view(*node), 1int, 0int,
{
    reveal(view::type_kind);
    let items = items_of(node);
    let ghost parts = syntax::items(syntax::node_view(*node));
    assert(forall|k: int| 0 <= k < items@.len() ==> syntax::node_view(*(#[trigger] items@[k])) == parts[k]);
    let operands: usize = items.len() - 1;
    let form = head.value.as_str();
    if same_text(form, "record") {
        let members = match type_members(node, 1, document) {
            Ok(value) => value,
            Err(error) => return Err(error),
        };
        return Ok(TypeExprKind::Record(members));
    }
    if same_text(form, "tuple") {
        let values = match type_exprs(node, 1, document) {
            Ok(value) => value,
            Err(error) => return Err(error),
        };
        return Ok(TypeExprKind::Tuple(values));
    }
    if same_text(form, "array") {
        if operands != 1 {
            return Err(arity_failure("array type", 1, 1, operands, node.span));
        }
        let value = match type_expr(items[1], document) {
            Ok(value) => value,
            Err(error) => return Err(error),
        };
        return Ok(TypeExprKind::Array(Box::new(value)));
    }
    if same_text(form, "map") {
        if operands != 2 {
            return Err(arity_failure("map type", 2, 2, operands, node.span));
        }
        let key = match type_expr(items[1], document) {
            Ok(value) => value,
            Err(error) => return Err(error),
        };
        let value = match type_expr(items[2], document) {
            Ok(value) => value,
            Err(error) => return Err(error),
        };
        return Ok(TypeExprKind::Mapping(Box::new(key), Box::new(value)));
    }
    if same_text(form, "union") {
        if operands < 1 {
            return Err(min_arity_failure("union", 1, operands, node.span));
        }
        let values = match type_exprs(node, 1, document) {
            Ok(value) => value,
            Err(error) => return Err(error),
        };
        return Ok(TypeExprKind::Union(values));
    }
    if same_text(form, "enum") {
        let members = match type_members(node, 1, document) {
            Ok(value) => value,
            Err(error) => return Err(error),
        };
        return Ok(TypeExprKind::Enum(members));
    }
    if same_text(form, "interface") {
        let members = match type_members(node, 1, document) {
            Ok(value) => value,
            Err(error) => return Err(error),
        };
        return Ok(TypeExprKind::Interface(members));
    }
    if same_text(form, "fn-type") {
        if operands != 2 {
            return Err(arity_failure("fn-type", 2, 2, operands, node.span));
        }
        if !is_list(items[1]) {
            return Err(list_failure(items[1]));
        }
        let parameters = match type_exprs(items[1], 0, document) {
            Ok(value) => value,
            Err(error) => return Err(error),
        };
        let value = match type_expr(items[2], document) {
            Ok(value) => value,
            Err(error) => return Err(error),
        };
        return Ok(TypeExprKind::Function { parameters, result: Box::new(value) });
    }
    if same_text(form, "newtype") || same_text(form, "mut") || same_text(form, "ref") || same_text(form, "mut-ref") {
        if operands != 1 {
            return Err(arity_failure(form, 1, 1, operands, node.span));
        }
        let inner = match type_expr(items[1], document) {
            Ok(value) => value,
            Err(error) => return Err(error),
        };
        return Ok(
            if same_text(form, "newtype") {
                TypeExprKind::Newtype(Box::new(inner))
            } else if same_text(form, "mut") {
                TypeExprKind::Mutable(Box::new(inner))
            } else if same_text(form, "ref") {
                TypeExprKind::Reference(Box::new(inner))
            } else {
                TypeExprKind::MutableReference(Box::new(inner))
            },
        );
    }
    if same_text(form, "intersect") {
        if operands < 1 {
            return Err(min_arity_failure("intersect", 1, operands, node.span));
        }
        let values = match type_exprs(node, 1, document) {
            Ok(value) => value,
            Err(error) => return Err(error),
        };
        return Ok(TypeExprKind::Intersect(values));
    }
    if same_text(form, "capability") || same_text(form, "handle") || same_text(form, "policy")
        || same_text(form, "wasm") {
        let arguments = match type_exprs(node, 1, document) {
            Ok(value) => value,
            Err(error) => return Err(error),
        };
        return Ok(TypeExprKind::Domain { head, arguments });
    }
    if same_text(form, "inst") {
        return Err(
            failure(
                "E-SYN-008",
                owned("`inst` was removed; place the generic type constructor directly in head position"),
                head.span,
            ),
        );
    }
    if operands < 1 {
        return Err(min_arity_failure("generic type application", 1, operands, node.span));
    }
    let arguments = match type_exprs(node, 1, document) {
        Ok(value) => value,
        Err(error) => return Err(error),
    };
    Ok(TypeExprKind::Application { constructor: head, arguments })
}

fn type_exprs(owner: &Node, from: usize, document: DocumentId) -> (result: Result<Vec<TypeExpr>, AstError>)
    ensures
        match result {
            Ok(value) => grammar::type_exprs(
                syntax::node_view(*owner),
                from as int,
                Seq::empty(),
                document,
            ) == Ok::<Seq<TypeExprView>, AstErrorView>(view::type_exprs(value@)),
            Err(error) => grammar::type_exprs(
                syntax::node_view(*owner),
                from as int,
                Seq::empty(),
                document,
            ) == Err::<Seq<TypeExprView>, AstErrorView>(view::ast_error(error)),
        },
    decreases syntax::node_view(*owner), 0int, 0int,
{
    let items = items_of(owner);
    let ghost node = syntax::node_view(*owner);
    let mut done: Vec<TypeExpr> = Vec::new();
    let mut i: usize = from;
    assert(view::type_exprs(done@) =~= Seq::<TypeExprView>::empty());
    while i < items.len()
        invariant
            node == syntax::node_view(*owner),
            syntax::node_refs(items@) == syntax::items(node),
            grammar::type_exprs(node, from as int, Seq::empty(), document) == grammar::type_exprs(
                node,
                i as int,
                view::type_exprs(done@),
                document,
            ),
        decreases items.len() - i,
    {
        let ghost before = done@;
        assert(syntax::node_view(*items@[i as int]) == syntax::items(node)[i as int]);
        let value = match type_expr(items[i], document) {
            Ok(value) => value,
            Err(error) => return Err(error),
        };
        done.push(value);
        proof { view::lemma_type_exprs_push(before, done@.last()); }
        i += 1;
    }
    Ok(done)
}

fn type_members(owner: &Node, from: usize, document: DocumentId) -> (result: Result<Vec<TypeMember>, AstError>)
    ensures
        match result {
            Ok(value) => grammar::type_members(
                syntax::node_view(*owner),
                from as int,
                Seq::empty(),
                document,
            ) == Ok::<Seq<TypeMemberView>, AstErrorView>(view::type_members(value@)),
            Err(error) => grammar::type_members(
                syntax::node_view(*owner),
                from as int,
                Seq::empty(),
                document,
            ) == Err::<Seq<TypeMemberView>, AstErrorView>(view::ast_error(error)),
        },
    decreases syntax::node_view(*owner), 0int, 0int,
{
    let items = items_of(owner);
    let ghost node = syntax::node_view(*owner);
    let mut done: Vec<TypeMember> = Vec::new();
    let mut i: usize = from;
    assert(view::type_members(done@) =~= Seq::<TypeMemberView>::empty());
    while i < items.len()
        invariant
            node == syntax::node_view(*owner),
            syntax::node_refs(items@) == syntax::items(node),
            grammar::type_members(node, from as int, Seq::empty(), document) == grammar::type_members(
                node,
                i as int,
                view::type_members(done@),
                document,
            ),
        decreases items.len() - i,
    {
        let ghost before = done@;
        assert(syntax::node_view(*items@[i as int]) == syntax::items(node)[i as int]);
        let value = match type_member(items[i], document) {
            Ok(value) => value,
            Err(error) => return Err(error),
        };
        done.push(value);
        proof { view::lemma_type_members_push(before, done@.last()); }
        i += 1;
    }
    Ok(done)
}

fn type_member(node: &Node, document: DocumentId) -> (result: Result<TypeMember, AstError>)
    ensures
        match result {
            Ok(value) => grammar::type_member(
                syntax::node_view(*node),
                document,
            ) == Ok::<TypeMemberView, AstErrorView>(view::type_member(value)),
            Err(error) => grammar::type_member(
                syntax::node_view(*node),
                document,
            ) == Err::<TypeMemberView, AstErrorView>(view::ast_error(error)),
        },
    decreases syntax::node_view(*node), 1int, 0int,
{
    let pair = match pair_of("type member", node) {
        Ok(value) => value,
        Err(error) => return Err(error),
    };
    let name = match name(pair.0, document) {
        Ok(value) => value,
        Err(error) => return Err(error),
    };
    let ty = match type_expr(pair.1, document) {
        Ok(value) => value,
        Err(error) => return Err(error),
    };
    Ok(TypeMember { name, ty, span: node.span })
}

fn pattern(node: &Node, document: DocumentId) -> (result: Result<Pattern, AstError>)
    ensures
        match result {
            Ok(value) => grammar::pattern(
                syntax::node_view(*node),
                document,
            ) == Ok::<PatternView, AstErrorView>(view::pattern(value)),
            Err(error) => grammar::pattern(
                syntax::node_view(*node),
                document,
            ) == Err::<PatternView, AstErrorView>(view::ast_error(error)),
        },
    decreases syntax::node_view(*node), 2int, 0int,
{
    reveal(view::pattern_kind);
    match &node.kind {
        NodeKind::Atom(atom) => match atom {
            Atom::Symbol(value) => {
                if same_text(value.as_str(), "_") {
                    return Ok(Spanned::source(PatternKind::Wildcard, document, node.span));
                }
                let constructor = Spanned::source(value.clone(), document, node.span);
                let arguments: Vec<Pattern> = Vec::new();
                assert(view::patterns(arguments@) =~= Seq::empty());
                Ok(Spanned::source(PatternKind::Constructor { constructor, arguments }, document, node.span))
            }
            Atom::Label(_) => Err(failure("E-SYN-011", owned("attribute label is not a pattern"), node.span)),
            _ => match literal(atom) {
                Some(value) => Ok(Spanned::source(PatternKind::Literal(value), document, node.span)),
                None => Err(failure("E-SYN-010", owned("expected a literal"), node.span)),
            },
        },
        _ => {
            let head = match head(node, document) {
                Ok(value) => value,
                Err(error) => return Err(error),
            };
            let value = match pattern_form(node, head, document) {
                Ok(value) => value,
                Err(error) => return Err(error),
            };
            Ok(Spanned::source(value, document, node.span))
        }
    }
}

fn pattern_form(node: &Node, head: Name, document: DocumentId) -> (result: Result<PatternKind, AstError>)
    requires
        syntax::items(syntax::node_view(*node)).len() >= 1,
    ensures
        match result {
            Ok(value) => grammar::pattern_form(
                syntax::node_view(*node),
                view::name(head),
                document,
            ) == Ok::<PatternKindView, AstErrorView>(view::pattern_kind(value)),
            Err(error) => grammar::pattern_form(
                syntax::node_view(*node),
                view::name(head),
                document,
            ) == Err::<PatternKindView, AstErrorView>(view::ast_error(error)),
        },
    decreases syntax::node_view(*node), 1int, 0int,
{
    reveal(view::pattern_kind);
    let items = items_of(node);
    let ghost parts = syntax::items(syntax::node_view(*node));
    assert(forall|k: int| 0 <= k < items@.len() ==> syntax::node_view(*(#[trigger] items@[k])) == parts[k]);
    let operands: usize = items.len() - 1;
    let form = head.value.as_str();
    if same_text(form, "bind") {
        if operands != 1 {
            return Err(arity_failure("bind", 1, 1, operands, node.span));
        }
        let name = match name(items[1], document) {
            Ok(value) => value,
            Err(error) => return Err(error),
        };
        return Ok(PatternKind::Bind(name));
    }
    if same_text(form, "record") {
        let fields = match pattern_fields(node, 1, document) {
            Ok(value) => value,
            Err(error) => return Err(error),
        };
        return Ok(PatternKind::Record(fields));
    }
    if same_text(form, "tuple") {
        let values = match patterns(node, 1, document) {
            Ok(value) => value,
            Err(error) => return Err(error),
        };
        return Ok(PatternKind::Tuple(values));
    }
    if same_text(form, "array") {
        let values = match patterns(node, 1, document) {
            Ok(value) => value,
            Err(error) => return Err(error),
        };
        return Ok(PatternKind::Array(values));
    }
    if same_text(form, "map") {
        let entries = match pattern_pairs(node, 1, document) {
            Ok(value) => value,
            Err(error) => return Err(error),
        };
        return Ok(PatternKind::Mapping(entries));
    }
    if same_text(form, "newtype") || same_text(form, "interface") {
        if operands != 2 {
            return Err(arity_failure(form, 2, 2, operands, node.span));
        }
        let ty = match type_expr(items[1], document) {
            Ok(value) => value,
            Err(error) => return Err(error),
        };
        let inner = match pattern(items[2], document) {
            Ok(value) => value,
            Err(error) => return Err(error),
        };
        return Ok(
            if same_text(form, "newtype") {
                PatternKind::Newtype { ty, pattern: Box::new(inner) }
            } else {
                PatternKind::Interface { ty, pattern: Box::new(inner) }
            },
        );
    }
    let arguments = match patterns(node, 1, document) {
        Ok(value) => value,
        Err(error) => return Err(error),
    };
    Ok(PatternKind::Constructor { constructor: head, arguments })
}

fn patterns(owner: &Node, from: usize, document: DocumentId) -> (result: Result<Vec<Pattern>, AstError>)
    ensures
        match result {
            Ok(value) => grammar::patterns(
                syntax::node_view(*owner),
                from as int,
                Seq::empty(),
                document,
            ) == Ok::<Seq<PatternView>, AstErrorView>(view::patterns(value@)),
            Err(error) => grammar::patterns(
                syntax::node_view(*owner),
                from as int,
                Seq::empty(),
                document,
            ) == Err::<Seq<PatternView>, AstErrorView>(view::ast_error(error)),
        },
    decreases syntax::node_view(*owner), 0int, 0int,
{
    let items = items_of(owner);
    let ghost node = syntax::node_view(*owner);
    let mut done: Vec<Pattern> = Vec::new();
    let mut i: usize = from;
    assert(view::patterns(done@) =~= Seq::<PatternView>::empty());
    while i < items.len()
        invariant
            node == syntax::node_view(*owner),
            syntax::node_refs(items@) == syntax::items(node),
            grammar::patterns(node, from as int, Seq::empty(), document) == grammar::patterns(
                node,
                i as int,
                view::patterns(done@),
                document,
            ),
        decreases items.len() - i,
    {
        let ghost before = done@;
        assert(syntax::node_view(*items@[i as int]) == syntax::items(node)[i as int]);
        let value = match pattern(items[i], document) {
            Ok(value) => value,
            Err(error) => return Err(error),
        };
        done.push(value);
        proof { view::lemma_patterns_push(before, done@.last()); }
        i += 1;
    }
    Ok(done)
}

fn pattern_fields(owner: &Node, from: usize, document: DocumentId) -> (result: Result<Vec<PatternField>, AstError>)
    ensures
        match result {
            Ok(value) => grammar::pattern_fields(
                syntax::node_view(*owner),
                from as int,
                Seq::empty(),
                document,
            ) == Ok::<Seq<PatternFieldView>, AstErrorView>(view::pattern_fields(value@)),
            Err(error) => grammar::pattern_fields(
                syntax::node_view(*owner),
                from as int,
                Seq::empty(),
                document,
            ) == Err::<Seq<PatternFieldView>, AstErrorView>(view::ast_error(error)),
        },
    decreases syntax::node_view(*owner), 0int, 0int,
{
    let items = items_of(owner);
    let ghost node = syntax::node_view(*owner);
    let mut done: Vec<PatternField> = Vec::new();
    let mut i: usize = from;
    assert(view::pattern_fields(done@) =~= Seq::<PatternFieldView>::empty());
    while i < items.len()
        invariant
            node == syntax::node_view(*owner),
            syntax::node_refs(items@) == syntax::items(node),
            grammar::pattern_fields(node, from as int, Seq::empty(), document) == grammar::pattern_fields(
                node,
                i as int,
                view::pattern_fields(done@),
                document,
            ),
        decreases items.len() - i,
    {
        let ghost before = done@;
        assert(syntax::node_view(*items@[i as int]) == syntax::items(node)[i as int]);
        let value = match pattern_field(items[i], document) {
            Ok(value) => value,
            Err(error) => return Err(error),
        };
        done.push(value);
        proof { view::lemma_pattern_fields_push(before, done@.last()); }
        i += 1;
    }
    Ok(done)
}

fn pattern_field(node: &Node, document: DocumentId) -> (result: Result<PatternField, AstError>)
    ensures
        match result {
            Ok(value) => grammar::pattern_field(
                syntax::node_view(*node),
                document,
            ) == Ok::<PatternFieldView, AstErrorView>(view::pattern_field(value)),
            Err(error) => grammar::pattern_field(
                syntax::node_view(*node),
                document,
            ) == Err::<PatternFieldView, AstErrorView>(view::ast_error(error)),
        },
    decreases syntax::node_view(*node), 1int, 0int,
{
    let pair = match pair_of("pattern field", node) {
        Ok(value) => value,
        Err(error) => return Err(error),
    };
    let name = match name(pair.0, document) {
        Ok(value) => value,
        Err(error) => return Err(error),
    };
    let inner = match pattern(pair.1, document) {
        Ok(value) => value,
        Err(error) => return Err(error),
    };
    Ok(PatternField { name, pattern: inner, span: node.span })
}

fn pattern_pairs(owner: &Node, from: usize, document: DocumentId) -> (result: Result<Vec<(Pattern, Pattern)>, AstError>)
    ensures
        match result {
            Ok(value) => grammar::pattern_pairs(
                syntax::node_view(*owner),
                from as int,
                Seq::empty(),
                document,
            ) == Ok::<Seq<(PatternView, PatternView)>, AstErrorView>(view::pattern_pairs(value@)),
            Err(error) => grammar::pattern_pairs(
                syntax::node_view(*owner),
                from as int,
                Seq::empty(),
                document,
            ) == Err::<Seq<(PatternView, PatternView)>, AstErrorView>(view::ast_error(error)),
        },
    decreases syntax::node_view(*owner), 0int, 0int,
{
    let items = items_of(owner);
    let ghost node = syntax::node_view(*owner);
    let mut done: Vec<(Pattern, Pattern)> = Vec::new();
    let mut i: usize = from;
    assert(view::pattern_pairs(done@) =~= Seq::<(PatternView, PatternView)>::empty());
    while i < items.len()
        invariant
            node == syntax::node_view(*owner),
            syntax::node_refs(items@) == syntax::items(node),
            grammar::pattern_pairs(node, from as int, Seq::empty(), document) == grammar::pattern_pairs(
                node,
                i as int,
                view::pattern_pairs(done@),
                document,
            ),
        decreases items.len() - i,
    {
        let ghost before = done@;
        assert(syntax::node_view(*items@[i as int]) == syntax::items(node)[i as int]);
        let value = match pattern_pair(items[i], document) {
            Ok(value) => value,
            Err(error) => return Err(error),
        };
        done.push(value);
        proof { view::lemma_pattern_pairs_push(before, done@.last()); }
        i += 1;
    }
    Ok(done)
}

fn pattern_pair(node: &Node, document: DocumentId) -> (result: Result<(Pattern, Pattern), AstError>)
    ensures
        match result {
            Ok(value) => grammar::pattern_pair(syntax::node_view(*node), document)
                == Ok::<(PatternView, PatternView), AstErrorView>(
                (view::pattern(value.0), view::pattern(value.1)),
            ),
            Err(error) => grammar::pattern_pair(
                syntax::node_view(*node),
                document,
            ) == Err::<(PatternView, PatternView), AstErrorView>(view::ast_error(error)),
        },
    decreases syntax::node_view(*node), 1int, 0int,
{
    let pair = match pair_of("pair", node) {
        Ok(value) => value,
        Err(error) => return Err(error),
    };
    let key = match pattern(pair.0, document) {
        Ok(value) => value,
        Err(error) => return Err(error),
    };
    let value = match pattern(pair.1, document) {
        Ok(value) => value,
        Err(error) => return Err(error),
    };
    Ok((key, value))
}

fn expr(node: &Node, document: DocumentId) -> (result: Result<Expr, AstError>)
    ensures
        match result {
            Ok(value) => grammar::expr(
                syntax::node_view(*node),
                document,
            ) == Ok::<ExprView, AstErrorView>(view::expr(value)),
            Err(error) => grammar::expr(
                syntax::node_view(*node),
                document,
            ) == Err::<ExprView, AstErrorView>(view::ast_error(error)),
        },
    decreases syntax::node_view(*node), 2int, 0int,
{
    reveal(view::expr_kind);
    match &node.kind {
        NodeKind::Atom(atom) => match atom {
            Atom::Symbol(value) => Ok(Spanned::source(ExprKind::Reference(value.clone()), document, node.span)),
            Atom::Label(_) => Err(
                failure(
                    "E-SYN-011",
                    owned("labels are declaration/test attributes, not named call arguments"),
                    node.span,
                ),
            ),
            _ => match literal(atom) {
                Some(value) => Ok(Spanned::source(ExprKind::Literal(value), document, node.span)),
                None => Err(failure("E-SYN-010", owned("expected a literal"), node.span)),
            },
        },
        _ => {
            let head = match head(node, document) {
                Ok(value) => value,
                Err(error) => return Err(error),
            };
            let value = match expr_form(node, head, document) {
                Ok(value) => value,
                Err(error) => return Err(error),
            };
            Ok(Spanned::source(value, document, node.span))
        }
    }
}

fn is_control_form(form: &str) -> (result: bool)
    ensures
        result == grammar::is_control_form(form@),
{
    same_text(form, "do") || same_text(form, "let") || same_text(form, "let-as") || same_text(form, "set")
        || same_text(form, "return") || same_text(form, "if") || same_text(form, "while") || same_text(form, "for")
            || same_text(form, "match") || same_text(form, "break") || same_text(form, "continue")
}

fn is_data_form(form: &str) -> (result: bool)
    ensures
        result == grammar::is_data_form(form@),
{
    same_text(form, "record") || same_text(form, "tuple") || same_text(form, "array") || same_text(form, "map")
        || same_text(form, "mut") || same_text(form, "ref") || same_text(form, "range") || same_text(form, "convert")
            || same_text(form, "cast")
}

fn is_task_form(form: &str) -> (result: bool)
    ensures
        result == grammar::is_task_form(form@),
{
    same_text(form, "task") || same_text(form, "spawn") || same_text(form, "join")
}

fn expr_form(node: &Node, head: Name, document: DocumentId) -> (result: Result<ExprKind, AstError>)
    requires
        syntax::items(syntax::node_view(*node)).len() >= 1,
    ensures
        match result {
            Ok(value) => grammar::expr_form(
                syntax::node_view(*node),
                view::name(head),
                document,
            ) == Ok::<ExprKindView, AstErrorView>(view::expr_kind(value)),
            Err(error) => grammar::expr_form(
                syntax::node_view(*node),
                view::name(head),
                document,
            ) == Err::<ExprKindView, AstErrorView>(view::ast_error(error)),
        },
    decreases syntax::node_view(*node), 1int, 2int,
{
    reveal(view::expr_kind);
    if is_control_form(head.value.as_str()) {
        return control_form(node, head.value.as_str(), document);
    }
    if is_data_form(head.value.as_str()) {
        return data_form(node, head.value.as_str(), document);
    }
    if is_task_form(head.value.as_str()) {
        return task_form(node, head.value.as_str(), document);
    }
    let arguments = match exprs(node, 1, document) {
        Ok(value) => value,
        Err(error) => return Err(error),
    };
    Ok(ExprKind::Call { callee: head, arguments })
}

fn control_form(node: &Node, form: &str, document: DocumentId) -> (result: Result<ExprKind, AstError>)
    requires
        syntax::items(syntax::node_view(*node)).len() >= 1,
    ensures
        match result {
            Ok(value) => grammar::control_form(
                syntax::node_view(*node),
                form@,
                document,
            ) == Ok::<ExprKindView, AstErrorView>(view::expr_kind(value)),
            Err(error) => grammar::control_form(
                syntax::node_view(*node),
                form@,
                document,
            ) == Err::<ExprKindView, AstErrorView>(view::ast_error(error)),
        },
    decreases syntax::node_view(*node), 1int, 1int,
{
    reveal(view::expr_kind);
    let items = items_of(node);
    let ghost parts = syntax::items(syntax::node_view(*node));
    assert(forall|k: int| 0 <= k < items@.len() ==> syntax::node_view(*(#[trigger] items@[k])) == parts[k]);
    let operands: usize = items.len() - 1;
    if same_text(form, "do") {
        let values = match exprs(node, 1, document) {
            Ok(value) => value,
            Err(error) => return Err(error),
        };
        return Ok(ExprKind::Do(values));
    }
    if same_text(form, "let") {
        if operands != 2 {
            return Err(arity_failure("let", 2, 2, operands, node.span));
        }
        let name = match name(items[1], document) {
            Ok(value) => value,
            Err(error) => return Err(error),
        };
        let value = match expr(items[2], document) {
            Ok(value) => value,
            Err(error) => return Err(error),
        };
        return Ok(ExprKind::Let { name, ty: None, value: Box::new(value) });
    }
    if same_text(form, "let-as") {
        if operands != 3 {
            return Err(arity_failure("let-as", 3, 3, operands, node.span));
        }
        let name = match name(items[1], document) {
            Ok(value) => value,
            Err(error) => return Err(error),
        };
        let ty = match type_expr(items[2], document) {
            Ok(value) => value,
            Err(error) => return Err(error),
        };
        let value = match expr(items[3], document) {
            Ok(value) => value,
            Err(error) => return Err(error),
        };
        return Ok(ExprKind::Let { name, ty: Some(ty), value: Box::new(value) });
    }
    if same_text(form, "set") {
        if operands != 2 {
            return Err(arity_failure("set", 2, 2, operands, node.span));
        }
        let name = match name(items[1], document) {
            Ok(value) => value,
            Err(error) => return Err(error),
        };
        let value = match expr(items[2], document) {
            Ok(value) => value,
            Err(error) => return Err(error),
        };
        return Ok(ExprKind::Assign { name, value: Box::new(value) });
    }
    if same_text(form, "return") {
        if operands > 1 {
            return Err(arity_failure("return", 0, 1, operands, node.span));
        }
        if operands == 0 {
            return Ok(ExprKind::Return(None));
        }
        let value = match expr(items[1], document) {
            Ok(value) => value,
            Err(error) => return Err(error),
        };
        return Ok(ExprKind::Return(Some(Box::new(value))));
    }
    if same_text(form, "if") {
        if operands != 3 {
            return Err(arity_failure("if", 3, 3, operands, node.span));
        }
        let condition = match expr(items[1], document) {
            Ok(value) => value,
            Err(error) => return Err(error),
        };
        let then_body = match body(items[2], document) {
            Ok(value) => value,
            Err(error) => return Err(error),
        };
        let else_body = match body(items[3], document) {
            Ok(value) => value,
            Err(error) => return Err(error),
        };
        return Ok(ExprKind::If { condition: Box::new(condition), then_body, else_body });
    }
    if same_text(form, "while") {
        if operands != 2 {
            return Err(arity_failure("while", 2, 2, operands, node.span));
        }
        let condition = match expr(items[1], document) {
            Ok(value) => value,
            Err(error) => return Err(error),
        };
        let body = match body(items[2], document) {
            Ok(value) => value,
            Err(error) => return Err(error),
        };
        return Ok(ExprKind::While { condition: Box::new(condition), body });
    }
    if same_text(form, "for") {
        if operands != 3 {
            return Err(arity_failure("for", 3, 3, operands, node.span));
        }
        let binding = match name(items[1], document) {
            Ok(value) => value,
            Err(error) => return Err(error),
        };
        let source = match expr(items[2], document) {
            Ok(value) => value,
            Err(error) => return Err(error),
        };
        let body = match body(items[3], document) {
            Ok(value) => value,
            Err(error) => return Err(error),
        };
        return Ok(ExprKind::For { binding, source: Box::new(source), body });
    }
    if same_text(form, "match") {
        if operands < 2 {
            return Err(min_arity_failure("match", 2, operands, node.span));
        }
        let target = match expr(items[1], document) {
            Ok(value) => value,
            Err(error) => return Err(error),
        };
        let cases = match match_cases(node, 2, document) {
            Ok(value) => value,
            Err(error) => return Err(error),
        };
        return Ok(ExprKind::Match { target: Box::new(target), cases });
    }
    if operands != 0 {
        return Err(arity_failure(form, 0, 0, operands, node.span));
    }
    if same_text(form, "break") {
        Ok(ExprKind::Break)
    } else {
        Ok(ExprKind::Continue)
    }
}

fn data_form(node: &Node, form: &str, document: DocumentId) -> (result: Result<ExprKind, AstError>)
    requires
        syntax::items(syntax::node_view(*node)).len() >= 1,
    ensures
        match result {
            Ok(value) => grammar::data_form(
                syntax::node_view(*node),
                form@,
                document,
            ) == Ok::<ExprKindView, AstErrorView>(view::expr_kind(value)),
            Err(error) => grammar::data_form(
                syntax::node_view(*node),
                form@,
                document,
            ) == Err::<ExprKindView, AstErrorView>(view::ast_error(error)),
        },
    decreases syntax::node_view(*node), 1int, 1int,
{
    reveal(view::expr_kind);
    let items = items_of(node);
    let ghost parts = syntax::items(syntax::node_view(*node));
    assert(forall|k: int| 0 <= k < items@.len() ==> syntax::node_view(*(#[trigger] items@[k])) == parts[k]);
    let operands: usize = items.len() - 1;
    if same_text(form, "record") {
        let fields = match expr_fields(node, 1, document) {
            Ok(value) => value,
            Err(error) => return Err(error),
        };
        return Ok(ExprKind::Record(fields));
    }
    if same_text(form, "tuple") {
        let values = match exprs(node, 1, document) {
            Ok(value) => value,
            Err(error) => return Err(error),
        };
        return Ok(ExprKind::Tuple(values));
    }
    if same_text(form, "array") {
        let values = match exprs(node, 1, document) {
            Ok(value) => value,
            Err(error) => return Err(error),
        };
        return Ok(ExprKind::Array(values));
    }
    if same_text(form, "map") {
        let entries = match expr_pairs(node, 1, document) {
            Ok(value) => value,
            Err(error) => return Err(error),
        };
        return Ok(ExprKind::Mapping(entries));
    }
    if same_text(form, "mut") || same_text(form, "ref") {
        if operands != 1 {
            return Err(arity_failure(form, 1, 1, operands, node.span));
        }
        let inner = match expr(items[1], document) {
            Ok(value) => value,
            Err(error) => return Err(error),
        };
        return Ok(
            if same_text(form, "mut") {
                ExprKind::Mutable(Box::new(inner))
            } else {
                ExprKind::ReferenceOf(Box::new(inner))
            },
        );
    }
    if same_text(form, "range") {
        if operands != 3 {
            return Err(arity_failure("range", 3, 3, operands, node.span));
        }
        let start = match expr(items[1], document) {
            Ok(value) => value,
            Err(error) => return Err(error),
        };
        let end = match expr(items[2], document) {
            Ok(value) => value,
            Err(error) => return Err(error),
        };
        let step = match expr(items[3], document) {
            Ok(value) => value,
            Err(error) => return Err(error),
        };
        return Ok(ExprKind::Range(Box::new(start), Box::new(end), Box::new(step)));
    }
    if same_text(form, "convert") {
        if operands != 3 {
            return Err(arity_failure("convert", 3, 3, operands, node.span));
        }
        let value = match expr(items[1], document) {
            Ok(value) => value,
            Err(error) => return Err(error),
        };
        let into = match type_expr(items[2], document) {
            Ok(value) => value,
            Err(error) => return Err(error),
        };
        let fallback = match literal_node(items[3]) {
            Ok(value) => value,
            Err(error) => return Err(error),
        };
        return Ok(ExprKind::Convert { value: Box::new(value), into, fallback });
    }
    if operands != 2 {
        return Err(arity_failure("cast", 2, 2, operands, node.span));
    }
    let value = match expr(items[1], document) {
        Ok(value) => value,
        Err(error) => return Err(error),
    };
    let into = match type_expr(items[2], document) {
        Ok(value) => value,
        Err(error) => return Err(error),
    };
    Ok(ExprKind::Cast { value: Box::new(value), into })
}

fn task_form(node: &Node, form: &str, document: DocumentId) -> (result: Result<ExprKind, AstError>)
    requires
        syntax::items(syntax::node_view(*node)).len() >= 1,
    ensures
        match result {
            Ok(value) => grammar::task_form(
                syntax::node_view(*node),
                form@,
                document,
            ) == Ok::<ExprKindView, AstErrorView>(view::expr_kind(value)),
            Err(error) => grammar::task_form(
                syntax::node_view(*node),
                form@,
                document,
            ) == Err::<ExprKindView, AstErrorView>(view::ast_error(error)),
        },
    decreases syntax::node_view(*node), 1int, 1int,
{
    reveal(view::expr_kind);
    let items = items_of(node);
    let ghost parts = syntax::items(syntax::node_view(*node));
    assert(forall|k: int| 0 <= k < items@.len() ==> syntax::node_view(*(#[trigger] items@[k])) == parts[k]);
    let operands: usize = items.len() - 1;
    if same_text(form, "task") {
        if operands != 2 {
            return Err(arity_failure("task", 2, 2, operands, node.span));
        }
        let captures = match captures(items[1], document) {
            Ok(value) => value,
            Err(error) => return Err(error),
        };
        let body = match body(items[2], document) {
            Ok(value) => value,
            Err(error) => return Err(error),
        };
        return Ok(ExprKind::Task { captures, body });
    }
    if same_text(form, "spawn") {
        if operands != 3 {
            return Err(arity_failure("spawn", 3, 3, operands, node.span));
        }
        let handle = match name(items[1], document) {
            Ok(value) => value,
            Err(error) => return Err(error),
        };
        let captures = match captures(items[2], document) {
            Ok(value) => value,
            Err(error) => return Err(error),
        };
        let value = match expr(items[3], document) {
            Ok(value) => value,
            Err(error) => return Err(error),
        };
        return Ok(ExprKind::Spawn { handle, captures, value: Box::new(value) });
    }
    if operands != 2 {
        return Err(arity_failure("join", 2, 2, operands, node.span));
    }
    let handle = match name(items[1], document) {
        Ok(value) => value,
        Err(error) => return Err(error),
    };
    let binding = match name(items[2], document) {
        Ok(value) => value,
        Err(error) => return Err(error),
    };
    Ok(ExprKind::Join { handle, binding })
}

fn body(node: &Node, document: DocumentId) -> (result: Result<Vec<Expr>, AstError>)
    ensures
        match result {
            Ok(value) => grammar::body(
                syntax::node_view(*node),
                document,
            ) == Ok::<Seq<ExprView>, AstErrorView>(view::exprs(value@)),
            Err(error) => grammar::body(
                syntax::node_view(*node),
                document,
            ) == Err::<Seq<ExprView>, AstErrorView>(view::ast_error(error)),
        },
    decreases syntax::node_view(*node), 1int, 0int,
{
    match fixed_head(node, "do", document) {
        Ok(_) => {}
        Err(error) => return Err(error),
    }
    exprs(node, 1, document)
}

fn exprs(owner: &Node, from: usize, document: DocumentId) -> (result: Result<Vec<Expr>, AstError>)
    ensures
        match result {
            Ok(value) => grammar::exprs(
                syntax::node_view(*owner),
                from as int,
                Seq::empty(),
                document,
            ) == Ok::<Seq<ExprView>, AstErrorView>(view::exprs(value@)),
            Err(error) => grammar::exprs(
                syntax::node_view(*owner),
                from as int,
                Seq::empty(),
                document,
            ) == Err::<Seq<ExprView>, AstErrorView>(view::ast_error(error)),
        },
    decreases syntax::node_view(*owner), 0int, 0int,
{
    let items = items_of(owner);
    let ghost node = syntax::node_view(*owner);
    let mut done: Vec<Expr> = Vec::new();
    let mut i: usize = from;
    assert(view::exprs(done@) =~= Seq::<ExprView>::empty());
    while i < items.len()
        invariant
            node == syntax::node_view(*owner),
            syntax::node_refs(items@) == syntax::items(node),
            grammar::exprs(node, from as int, Seq::empty(), document) == grammar::exprs(
                node,
                i as int,
                view::exprs(done@),
                document,
            ),
        decreases items.len() - i,
    {
        let ghost before = done@;
        assert(syntax::node_view(*items@[i as int]) == syntax::items(node)[i as int]);
        let value = match expr(items[i], document) {
            Ok(value) => value,
            Err(error) => return Err(error),
        };
        done.push(value);
        proof { view::lemma_exprs_push(before, done@.last()); }
        i += 1;
    }
    Ok(done)
}

fn expr_fields(owner: &Node, from: usize, document: DocumentId) -> (result: Result<Vec<ExprField>, AstError>)
    ensures
        match result {
            Ok(value) => grammar::expr_fields(
                syntax::node_view(*owner),
                from as int,
                Seq::empty(),
                document,
            ) == Ok::<Seq<ExprFieldView>, AstErrorView>(view::expr_fields(value@)),
            Err(error) => grammar::expr_fields(
                syntax::node_view(*owner),
                from as int,
                Seq::empty(),
                document,
            ) == Err::<Seq<ExprFieldView>, AstErrorView>(view::ast_error(error)),
        },
    decreases syntax::node_view(*owner), 0int, 0int,
{
    let items = items_of(owner);
    let ghost node = syntax::node_view(*owner);
    let mut done: Vec<ExprField> = Vec::new();
    let mut i: usize = from;
    assert(view::expr_fields(done@) =~= Seq::<ExprFieldView>::empty());
    while i < items.len()
        invariant
            node == syntax::node_view(*owner),
            syntax::node_refs(items@) == syntax::items(node),
            grammar::expr_fields(node, from as int, Seq::empty(), document) == grammar::expr_fields(
                node,
                i as int,
                view::expr_fields(done@),
                document,
            ),
        decreases items.len() - i,
    {
        let ghost before = done@;
        assert(syntax::node_view(*items@[i as int]) == syntax::items(node)[i as int]);
        let value = match expr_field(items[i], document) {
            Ok(value) => value,
            Err(error) => return Err(error),
        };
        done.push(value);
        proof { view::lemma_expr_fields_push(before, done@.last()); }
        i += 1;
    }
    Ok(done)
}

fn expr_field(node: &Node, document: DocumentId) -> (result: Result<ExprField, AstError>)
    ensures
        match result {
            Ok(value) => grammar::expr_field(
                syntax::node_view(*node),
                document,
            ) == Ok::<ExprFieldView, AstErrorView>(view::expr_field(value)),
            Err(error) => grammar::expr_field(
                syntax::node_view(*node),
                document,
            ) == Err::<ExprFieldView, AstErrorView>(view::ast_error(error)),
        },
    decreases syntax::node_view(*node), 1int, 0int,
{
    let pair = match pair_of("record field", node) {
        Ok(value) => value,
        Err(error) => return Err(error),
    };
    let name = match name(pair.0, document) {
        Ok(value) => value,
        Err(error) => return Err(error),
    };
    let value = match expr(pair.1, document) {
        Ok(value) => value,
        Err(error) => return Err(error),
    };
    Ok(ExprField { name, value, span: node.span })
}

fn expr_pairs(owner: &Node, from: usize, document: DocumentId) -> (result: Result<Vec<(Expr, Expr)>, AstError>)
    ensures
        match result {
            Ok(value) => grammar::expr_pairs(
                syntax::node_view(*owner),
                from as int,
                Seq::empty(),
                document,
            ) == Ok::<Seq<(ExprView, ExprView)>, AstErrorView>(view::expr_pairs(value@)),
            Err(error) => grammar::expr_pairs(
                syntax::node_view(*owner),
                from as int,
                Seq::empty(),
                document,
            ) == Err::<Seq<(ExprView, ExprView)>, AstErrorView>(view::ast_error(error)),
        },
    decreases syntax::node_view(*owner), 0int, 0int,
{
    let items = items_of(owner);
    let ghost node = syntax::node_view(*owner);
    let mut done: Vec<(Expr, Expr)> = Vec::new();
    let mut i: usize = from;
    assert(view::expr_pairs(done@) =~= Seq::<(ExprView, ExprView)>::empty());
    while i < items.len()
        invariant
            node == syntax::node_view(*owner),
            syntax::node_refs(items@) == syntax::items(node),
            grammar::expr_pairs(node, from as int, Seq::empty(), document) == grammar::expr_pairs(
                node,
                i as int,
                view::expr_pairs(done@),
                document,
            ),
        decreases items.len() - i,
    {
        let ghost before = done@;
        assert(syntax::node_view(*items@[i as int]) == syntax::items(node)[i as int]);
        let value = match expr_pair(items[i], document) {
            Ok(value) => value,
            Err(error) => return Err(error),
        };
        done.push(value);
        proof { view::lemma_expr_pairs_push(before, done@.last()); }
        i += 1;
    }
    Ok(done)
}

fn expr_pair(node: &Node, document: DocumentId) -> (result: Result<(Expr, Expr), AstError>)
    ensures
        match result {
            Ok(value) => grammar::expr_pair(syntax::node_view(*node), document)
                == Ok::<(ExprView, ExprView), AstErrorView>(
                (view::expr(value.0), view::expr(value.1)),
            ),
            Err(error) => grammar::expr_pair(
                syntax::node_view(*node),
                document,
            ) == Err::<(ExprView, ExprView), AstErrorView>(view::ast_error(error)),
        },
    decreases syntax::node_view(*node), 1int, 0int,
{
    let pair = match pair_of("pair", node) {
        Ok(value) => value,
        Err(error) => return Err(error),
    };
    let key = match expr(pair.0, document) {
        Ok(value) => value,
        Err(error) => return Err(error),
    };
    let value = match expr(pair.1, document) {
        Ok(value) => value,
        Err(error) => return Err(error),
    };
    Ok((key, value))
}

fn match_cases(owner: &Node, from: usize, document: DocumentId) -> (result: Result<Vec<MatchCase>, AstError>)
    ensures
        match result {
            Ok(value) => grammar::match_cases(
                syntax::node_view(*owner),
                from as int,
                Seq::empty(),
                document,
            ) == Ok::<Seq<MatchCaseView>, AstErrorView>(view::match_cases(value@)),
            Err(error) => grammar::match_cases(
                syntax::node_view(*owner),
                from as int,
                Seq::empty(),
                document,
            ) == Err::<Seq<MatchCaseView>, AstErrorView>(view::ast_error(error)),
        },
    decreases syntax::node_view(*owner), 0int, 0int,
{
    let items = items_of(owner);
    let ghost node = syntax::node_view(*owner);
    let mut done: Vec<MatchCase> = Vec::new();
    let mut i: usize = from;
    assert(view::match_cases(done@) =~= Seq::<MatchCaseView>::empty());
    while i < items.len()
        invariant
            node == syntax::node_view(*owner),
            syntax::node_refs(items@) == syntax::items(node),
            grammar::match_cases(node, from as int, Seq::empty(), document) == grammar::match_cases(
                node,
                i as int,
                view::match_cases(done@),
                document,
            ),
        decreases items.len() - i,
    {
        let ghost before = done@;
        assert(syntax::node_view(*items@[i as int]) == syntax::items(node)[i as int]);
        let value = match match_case(items[i], document) {
            Ok(value) => value,
            Err(error) => return Err(error),
        };
        done.push(value);
        proof { view::lemma_match_cases_push(before, done@.last()); }
        i += 1;
    }
    Ok(done)
}

fn match_case(node: &Node, document: DocumentId) -> (result: Result<MatchCase, AstError>)
    ensures
        match result {
            Ok(value) => grammar::match_case(
                syntax::node_view(*node),
                document,
            ) == Ok::<MatchCaseView, AstErrorView>(view::match_case(value)),
            Err(error) => grammar::match_case(
                syntax::node_view(*node),
                document,
            ) == Err::<MatchCaseView, AstErrorView>(view::ast_error(error)),
        },
    decreases syntax::node_view(*node), 1int, 0int,
{
    match fixed_head(node, "case", document) {
        Ok(_) => {}
        Err(error) => return Err(error),
    }
    let items = items_of(node);
    let ghost parts = syntax::items(syntax::node_view(*node));
    assert(forall|k: int| 0 <= k < items@.len() ==> syntax::node_view(*(#[trigger] items@[k])) == parts[k]);
    let operands: usize = items.len() - 1;
    if operands != 2 {
        return Err(arity_failure("case", 2, 2, operands, node.span));
    }
    let pattern = match pattern(items[1], document) {
        Ok(value) => value,
        Err(error) => return Err(error),
    };
    let body = match body(items[2], document) {
        Ok(value) => value,
        Err(error) => return Err(error),
    };
    Ok(MatchCase { pattern, body, span: node.span })
}

/// The first label among the positional operands.
fn early_label<'a>(items: &Vec<&'a Node>, positional: usize) -> (result: Option<&'a Node>)
    requires
        positional < 8,
        positional < items@.len(),
    ensures
        match result {
            Some(node) => grammar::first_label(
                syntax::node_refs(items@),
                1,
                positional as int + 1,
            ) == Some(syntax::node_view(*node)),
            None => grammar::first_label(syntax::node_refs(items@), 1, positional as int + 1) is None,
        },
{
    let ghost parts = syntax::node_refs(items@);
    let mut i: usize = 1;
    while i <= positional
        invariant
            1 <= i <= positional + 1,
            positional < 8,
            positional < items@.len(),
            parts == syntax::node_refs(items@),
            grammar::first_label(parts, 1, positional as int + 1) == grammar::first_label(
                parts,
                i as int,
                positional as int + 1,
            ),
        decreases positional + 1 - i,
    {
        assert(parts[i as int] == syntax::node_view(*items@[i as int]));
        if is_label(items[i]) {
            return Some(items[i]);
        }
        i += 1;
    }
    None
}

/// Refuses `items[from..]` unless it is a run of distinct labels, each with a
/// value.
fn check_tail(items: &Vec<&Node>, from: usize, document: DocumentId) -> (result: Result<(), AstError>)
    ensures
        match result {
            Ok(_) => grammar::tail_failure(syntax::node_refs(items@), from as int, Set::empty(), document) is None,
            Err(error) => grammar::tail_failure(syntax::node_refs(items@), from as int, Set::empty(), document) == Some(
                view::ast_error(error),
            ),
        },
{
    let ghost parts = syntax::node_refs(items@);
    let mut seen: Vec<String> = Vec::new();
    let ghost mut known: Set<Seq<char>> = Set::empty();
    let mut index: usize = from;
    while index < items.len()
        invariant
            parts == syntax::node_refs(items@),
            forall|text: Seq<char>| known.contains(text) == crate::names::names_contain(seen@, text),
            grammar::tail_failure(parts, from as int, Set::empty(), document) == grammar::tail_failure(
                parts,
                index as int,
                known,
                document,
            ),
        decreases items.len() - index,
    {
        assert(parts[index as int] == syntax::node_view(*items@[index as int]));
        let found = match label(items[index], document) {
            Ok(value) => value,
            Err(error) => return Err(error),
        };
        if index + 1 >= items.len() {
            return Err(
                failure(
                    "E-SYN-011",
                    concat_three("attribute `", found.value.as_str(), ":` is missing its value"),
                    found.span,
                ),
            );
        }
        if has_name(&seen, found.value.as_str()) {
            return Err(
                failure("E-SYN-011", concat_three("duplicate attribute `", found.value.as_str(), ":`"), found.span),
            );
        }
        let ghost text = found.value@;
        let ghost before = seen@;
        seen.push(found.value);
        proof {
            known = known.insert(text);
            crate::names::lemma_contain_push(before, seen@.last());
        }
        if index + 2 >= items.len() {
            assert(grammar::tail_failure(parts, index as int + 2, known, document) is None);
            return Ok(());
        }
        index += 2;
    }
    Ok(())
}

/// Refuses operands that are not `positional` plain operands followed by
/// distinct labelled attributes.
fn check_attributes(form: &str, node: &Node, positional: usize, document: DocumentId) -> (result: Result<(), AstError>)
    requires
        positional < 8,
        syntax::items(syntax::node_view(*node)).len() >= 1,
    ensures
        match result {
            Ok(_) => grammar::attribute_failure(form@, syntax::node_view(*node), positional as nat, document) is None
                && syntax::items(syntax::node_view(*node)).len() >= positional + 1,
            Err(error) => grammar::attribute_failure(form@, syntax::node_view(*node), positional as nat, document)
                == Some(
                view::ast_error(error),
            ),
        },
{
    reveal(grammar::attribute_failure);
    let items = items_of(node);
    let operands: usize = items.len() - 1;
    if operands < positional {
        let expected = decimal_text(positional as u64);
        let count = decimal_text(operands as u64);
        let mut message = concat_five(
            "`",
            form,
            "` expects at least ",
            expected.as_str(),
            " positional operands, found ",
        );
        message.append(count.as_str());
        return Err(failure("E-SYN-009", message, node.span));
    }
    match early_label(&items, positional) {
        Some(early) => Err(
            failure(
                "E-SYN-011",
                owned("attribute label appears before all positional operands"),
                early.span,
            ),
        ),
        None => check_tail(&items, positional + 1, document),
    }
}

fn parameter(node: &Node, document: DocumentId) -> (result: Result<Parameter, AstError>)
    ensures
        match result {
            Ok(value) => grammar::parameter(
                syntax::node_view(*node),
                document,
            ) == Ok::<ParameterView, AstErrorView>(view::parameter(value)),
            Err(error) => grammar::parameter(
                syntax::node_view(*node),
                document,
            ) == Err::<ParameterView, AstErrorView>(view::ast_error(error)),
        },
{
    let pair = match pair_of("parameter", node) {
        Ok(value) => value,
        Err(error) => return Err(error),
    };
    let name = match name(pair.0, document) {
        Ok(value) => value,
        Err(error) => return Err(error),
    };
    let ty = match type_expr(pair.1, document) {
        Ok(value) => value,
        Err(error) => return Err(error),
    };
    Ok(Parameter { name, ty, span: node.span })
}

fn parameters_from(owner: &Node, from: usize, document: DocumentId) -> (result: Result<Vec<Parameter>, AstError>)
    ensures
        match result {
            Ok(value) => grammar::parameters_from(
                syntax::node_view(*owner),
                from as int,
                Seq::empty(),
                document,
            ) == Ok::<Seq<ParameterView>, AstErrorView>(view::parameters(value@)),
            Err(error) => grammar::parameters_from(
                syntax::node_view(*owner),
                from as int,
                Seq::empty(),
                document,
            ) == Err::<Seq<ParameterView>, AstErrorView>(view::ast_error(error)),
        },
{
    let items = items_of(owner);
    let ghost node = syntax::node_view(*owner);
    let mut done: Vec<Parameter> = Vec::new();
    let mut i: usize = from;
    assert(view::parameters(done@) =~= Seq::<ParameterView>::empty());
    while i < items.len()
        invariant
            node == syntax::node_view(*owner),
            syntax::node_refs(items@) == syntax::items(node),
            grammar::parameters_from(node, from as int, Seq::empty(), document) == grammar::parameters_from(
                node,
                i as int,
                view::parameters(done@),
                document,
            ),
        decreases items.len() - i,
    {
        let ghost before = done@;
        assert(syntax::node_view(*items@[i as int]) == syntax::items(node)[i as int]);
        let value = match parameter(items[i], document) {
            Ok(value) => value,
            Err(error) => return Err(error),
        };
        done.push(value);
        proof { view::lemma_parameters_push(before, done@.last()); }
        i += 1;
    }
    Ok(done)
}

fn parameters(node: &Node, document: DocumentId) -> (result: Result<Vec<Parameter>, AstError>)
    ensures
        match result {
            Ok(value) => grammar::parameters(
                syntax::node_view(*node),
                document,
            ) == Ok::<Seq<ParameterView>, AstErrorView>(view::parameters(value@)),
            Err(error) => grammar::parameters(
                syntax::node_view(*node),
                document,
            ) == Err::<Seq<ParameterView>, AstErrorView>(view::ast_error(error)),
        },
{
    if !is_list(node) {
        return Err(list_failure(node));
    }
    parameters_from(node, 0, document)
}

fn type_parameter(node: &Node, document: DocumentId) -> (result: Result<TypeParameter, AstError>)
    ensures
        match result {
            Ok(value) => grammar::type_parameter(
                syntax::node_view(*node),
                document,
            ) == Ok::<TypeParameterView, AstErrorView>(view::type_parameter(value)),
            Err(error) => grammar::type_parameter(
                syntax::node_view(*node),
                document,
            ) == Err::<TypeParameterView, AstErrorView>(view::ast_error(error)),
        },
{
    if !is_list(node) {
        return Err(list_failure(node));
    }
    let items = items_of(node);
    if items.len() < 1 {
        return Err(min_arity_failure("type parameter", 1, items.len(), node.span));
    }
    assert(syntax::node_view(*items@[0]) == syntax::items(syntax::node_view(*node))[0]);
    let name = match name(items[0], document) {
        Ok(value) => value,
        Err(error) => return Err(error),
    };
    let bounds = match type_exprs(node, 1, document) {
        Ok(value) => value,
        Err(error) => return Err(error),
    };
    Ok(TypeParameter { name, bounds, span: node.span })
}

fn type_parameters_from(
    owner: &Node,
    from: usize,
    document: DocumentId,
) -> (result: Result<Vec<TypeParameter>, AstError>)
    ensures
        match result {
            Ok(value) => grammar::type_parameters_from(
                syntax::node_view(*owner),
                from as int,
                Seq::empty(),
                document,
            ) == Ok::<Seq<TypeParameterView>, AstErrorView>(view::type_parameters(value@)),
            Err(error) => grammar::type_parameters_from(
                syntax::node_view(*owner),
                from as int,
                Seq::empty(),
                document,
            ) == Err::<Seq<TypeParameterView>, AstErrorView>(view::ast_error(error)),
        },
{
    let items = items_of(owner);
    let ghost node = syntax::node_view(*owner);
    let mut done: Vec<TypeParameter> = Vec::new();
    let mut i: usize = from;
    assert(view::type_parameters(done@) =~= Seq::<TypeParameterView>::empty());
    while i < items.len()
        invariant
            node == syntax::node_view(*owner),
            syntax::node_refs(items@) == syntax::items(node),
            grammar::type_parameters_from(node, from as int, Seq::empty(), document) == grammar::type_parameters_from(
                node,
                i as int,
                view::type_parameters(done@),
                document,
            ),
        decreases items.len() - i,
    {
        let ghost before = done@;
        assert(syntax::node_view(*items@[i as int]) == syntax::items(node)[i as int]);
        let value = match type_parameter(items[i], document) {
            Ok(value) => value,
            Err(error) => return Err(error),
        };
        done.push(value);
        proof { view::lemma_type_parameters_push(before, done@.last()); }
        i += 1;
    }
    Ok(done)
}

fn type_parameters(node: &Node, document: DocumentId) -> (result: Result<Vec<TypeParameter>, AstError>)
    ensures
        match result {
            Ok(value) => grammar::type_parameters(
                syntax::node_view(*node),
                document,
            ) == Ok::<Seq<TypeParameterView>, AstErrorView>(view::type_parameters(value@)),
            Err(error) => grammar::type_parameters(
                syntax::node_view(*node),
                document,
            ) == Err::<Seq<TypeParameterView>, AstErrorView>(view::ast_error(error)),
        },
{
    if !is_list(node) {
        return Err(list_failure(node));
    }
    type_parameters_from(node, 0, document)
}

fn function(node: &Node, visibility: Visibility, document: DocumentId) -> (result: Result<Function, AstError>)
    requires
        syntax::items(syntax::node_view(*node)).len() >= 1,
    ensures
        match result {
            Ok(value) => grammar::function(
                syntax::node_view(*node),
                visibility,
                document,
            ) == Ok::<FunctionView, AstErrorView>(view::function(value)),
            Err(error) => grammar::function(
                syntax::node_view(*node),
                visibility,
                document,
            ) == Err::<FunctionView, AstErrorView>(view::ast_error(error)),
        },
    decreases syntax::node_view(*node), 2int, 0int,
{
    match check_attributes("fn", node, 4, document) {
        Ok(_) => {}
        Err(error) => return Err(error),
    }
    let items = items_of(node);
    let ghost parts = syntax::items(syntax::node_view(*node));
    assert(forall|k: int| 0 <= k < items@.len() ==> syntax::node_view(*(#[trigger] items@[k])) == parts[k]);
    let operands: usize = items.len() - 1;
    let name = match name(items[1], document) {
        Ok(value) => value,
        Err(error) => return Err(error),
    };
    let parameters = match parameters(items[2], document) {
        Ok(value) => value,
        Err(error) => return Err(error),
    };
    let return_type = match type_expr(items[3], document) {
        Ok(value) => value,
        Err(error) => return Err(error),
    };
    let body = match body(items[4], document) {
        Ok(value) => value,
        Err(error) => return Err(error),
    };
    let annotations = match annotations(node, 5, document) {
        Ok(value) => value,
        Err(error) => return Err(error),
    };
    Ok(
        Function {
            visibility,
            name,
            parameters,
            return_type,
            body,
            annotations,
            span: node.span,
            origin: source_origin(document, node.span),
        },
    )
}

fn annotations(owner: &Node, from: usize, document: DocumentId) -> (result: Result<Vec<Annotation>, AstError>)
    ensures
        match result {
            Ok(value) => grammar::annotations(
                syntax::node_view(*owner),
                from as int,
                Seq::empty(),
                document,
            ) == Ok::<Seq<AnnotationView>, AstErrorView>(view::annotations(value@)),
            Err(error) => grammar::annotations(
                syntax::node_view(*owner),
                from as int,
                Seq::empty(),
                document,
            ) == Err::<Seq<AnnotationView>, AstErrorView>(view::ast_error(error)),
        },
    decreases syntax::node_view(*owner), 0int, 0int,
{
    let items = items_of(owner);
    let ghost node = syntax::node_view(*owner);
    let ghost parts = syntax::items(node);
    assert(forall|k: int| 0 <= k < items@.len() ==> syntax::node_view(*(#[trigger] items@[k])) == parts[k]);
    let mut done: Vec<Annotation> = Vec::new();
    let mut i: usize = from;
    assert(view::annotations(done@) =~= Seq::<AnnotationView>::empty());
    while i < items.len() && i + 1 < items.len()
        invariant
            node == syntax::node_view(*owner),
            parts == syntax::items(node),
            items@.len() == parts.len(),
            forall|k: int| 0 <= k < items@.len() ==> syntax::node_view(*(#[trigger] items@[k])) == parts[k],
            grammar::annotations(node, from as int, Seq::empty(), document) == grammar::annotations(
                node,
                i as int,
                view::annotations(done@),
                document,
            ),
        decreases items.len() - i,
    {
        let ghost before = done@;
        let found = match label(items[i], document) {
            Ok(value) => value,
            Err(error) => return Err(error),
        };
        let value = items[i + 1];
        reveal(view::annotation_kind);
        let span = items[i].span.cover(value.span);
        if same_text(found.value.as_str(), "doc") {
            let text = match string(value, document) {
                Ok(value) => value,
                Err(error) => return Err(error),
            };
            done.push(Spanned::source(AnnotationKind::Doc(text.value), document, span));
            proof { view::lemma_annotations_push(before, done@.last()); }
        } else if same_text(found.value.as_str(), "where") {
            let values = match type_parameters(value, document) {
                Ok(value) => value,
                Err(error) => return Err(error),
            };
            done.push(Spanned::source(AnnotationKind::Where(values), document, span));
            proof { view::lemma_annotations_push(before, done@.last()); }
        } else if same_text(found.value.as_str(), "defs") {
            if !is_list(value) {
                return Err(list_failure(value));
            }
            let values = match functions(value, 0, document) {
                Ok(value) => value,
                Err(error) => return Err(error),
            };
            done.push(Spanned::source(AnnotationKind::Definitions(values), document, span));
            proof { view::lemma_annotations_push(before, done@.last()); }
        } else if same_text(found.value.as_str(), "impls") {
            if !is_list(value) {
                return Err(list_failure(value));
            }
            done = match implementations(value, done, document) {
                Ok(value) => value,
                Err(error) => return Err(error),
            };
        } else {
            return Err(
                failure(
                    "E-SYN-011",
                    concat_three("unknown declaration attribute `", found.value.as_str(), ":`"),
                    found.span,
                ),
            );
        }
        if i + 2 >= items.len() {
            assert(grammar::annotations(node, i as int + 2, view::annotations(done@), document) == Ok::<
                Seq<AnnotationView>,
                AstErrorView,
            >(view::annotations(done@)));
            return Ok(done);
        }
        i += 2;
    }
    Ok(done)
}

fn functions(owner: &Node, from: usize, document: DocumentId) -> (result: Result<Vec<Function>, AstError>)
    ensures
        match result {
            Ok(value) => grammar::functions(
                syntax::node_view(*owner),
                from as int,
                Seq::empty(),
                document,
            ) == Ok::<Seq<FunctionView>, AstErrorView>(view::functions(value@)),
            Err(error) => grammar::functions(
                syntax::node_view(*owner),
                from as int,
                Seq::empty(),
                document,
            ) == Err::<Seq<FunctionView>, AstErrorView>(view::ast_error(error)),
        },
    decreases syntax::node_view(*owner), 0int, 0int,
{
    let items = items_of(owner);
    let ghost node = syntax::node_view(*owner);
    let mut done: Vec<Function> = Vec::new();
    let mut i: usize = from;
    assert(view::functions(done@) =~= Seq::<FunctionView>::empty());
    while i < items.len()
        invariant
            node == syntax::node_view(*owner),
            syntax::node_refs(items@) == syntax::items(node),
            grammar::functions(node, from as int, Seq::empty(), document) == grammar::functions(
                node,
                i as int,
                view::functions(done@),
                document,
            ),
        decreases items.len() - i,
    {
        let ghost before = done@;
        assert(syntax::node_view(*items@[i as int]) == syntax::items(node)[i as int]);
        match fixed_head(items[i], "fn", document) {
            Ok(_) => {}
            Err(error) => return Err(error),
        }
        let value = match function(items[i], Visibility::Public, document) {
            Ok(value) => value,
            Err(error) => return Err(error),
        };
        done.push(value);
        proof { view::lemma_functions_push(before, done@.last()); }
        i += 1;
    }
    Ok(done)
}

#[verifier::loop_isolation(false)]
fn implementations(
    owner: &Node,
    start: Vec<Annotation>,
    document: DocumentId,
) -> (result: Result<Vec<Annotation>, AstError>)
    ensures
        match result {
            Ok(value) => grammar::implementations(
                syntax::node_view(*owner),
                0,
                view::annotations(start@),
                document,
            ) == Ok::<Seq<AnnotationView>, AstErrorView>(view::annotations(value@)),
            Err(error) => grammar::implementations(
                syntax::node_view(*owner),
                0,
                view::annotations(start@),
                document,
            ) == Err::<Seq<AnnotationView>, AstErrorView>(view::ast_error(error)),
        },
    decreases syntax::node_view(*owner), 0int, 0int,
{
    let items = items_of(owner);
    let ghost node = syntax::node_view(*owner);
    let ghost begin = view::annotations(start@);
    let mut done: Vec<Annotation> = start;
    let mut i: usize = 0;
    while i < items.len()
        invariant
            node == syntax::node_view(*owner),
            syntax::node_refs(items@) == syntax::items(node),
            grammar::implementations(node, 0, begin, document) == grammar::implementations(
                node,
                i as int,
                view::annotations(done@),
                document,
            ),
        decreases items.len() - i,
    {
        let ghost before = done@;
        assert(syntax::node_view(*items@[i as int]) == syntax::items(node)[i as int]);
        reveal(view::annotation_kind);
        let value = match implementation(items[i], document) {
            Ok(value) => value,
            Err(error) => return Err(error),
        };
        done.push(Spanned::source(value, document, items[i].span));
        proof { view::lemma_annotations_push(before, done@.last()); }
        i += 1;
    }
    Ok(done)
}

fn implementation(node: &Node, document: DocumentId) -> (result: Result<AnnotationKind, AstError>)
    ensures
        match result {
            Ok(value) => grammar::implementation(
                syntax::node_view(*node),
                document,
            ) == Ok::<AnnotationKindView, AstErrorView>(view::annotation_kind(value)),
            Err(error) => grammar::implementation(
                syntax::node_view(*node),
                document,
            ) == Err::<AnnotationKindView, AstErrorView>(view::ast_error(error)),
        },
    decreases syntax::node_view(*node), 1int, 0int,
{
    reveal(view::annotation_kind);
    match fixed_head(node, "impl", document) {
        Ok(_) => {}
        Err(error) => return Err(error),
    }
    match check_attributes("impl", node, 1, document) {
        Ok(_) => {}
        Err(error) => return Err(error),
    }
    let items = items_of(node);
    let ghost parts = syntax::items(syntax::node_view(*node));
    assert(forall|k: int| 0 <= k < items@.len() ==> syntax::node_view(*(#[trigger] items@[k])) == parts[k]);
    let found = match impl_items(node, 2, document) {
        Ok(value) => value,
        Err(error) => return Err(error),
    };
    let interface = match type_expr(items[1], document) {
        Ok(value) => value,
        Err(error) => return Err(error),
    };
    Ok(AnnotationKind::Implementation { interface, items: found })
}

fn impl_items(owner: &Node, from: usize, document: DocumentId) -> (result: Result<Vec<ImplItem>, AstError>)
    ensures
        match result {
            Ok(value) => grammar::impl_items(
                syntax::node_view(*owner),
                from as int,
                Seq::empty(),
                document,
            ) == Ok::<Seq<ImplItemView>, AstErrorView>(view::impl_items(value@)),
            Err(error) => grammar::impl_items(
                syntax::node_view(*owner),
                from as int,
                Seq::empty(),
                document,
            ) == Err::<Seq<ImplItemView>, AstErrorView>(view::ast_error(error)),
        },
    decreases syntax::node_view(*owner), 0int, 0int,
{
    let items = items_of(owner);
    let ghost node = syntax::node_view(*owner);
    let ghost parts = syntax::items(node);
    assert(forall|k: int| 0 <= k < items@.len() ==> syntax::node_view(*(#[trigger] items@[k])) == parts[k]);
    let mut done: Vec<ImplItem> = Vec::new();
    let mut i: usize = from;
    assert(view::impl_items(done@) =~= Seq::<ImplItemView>::empty());
    while i < items.len() && i + 1 < items.len()
        invariant
            node == syntax::node_view(*owner),
            parts == syntax::items(node),
            items@.len() == parts.len(),
            forall|k: int| 0 <= k < items@.len() ==> syntax::node_view(*(#[trigger] items@[k])) == parts[k],
            grammar::impl_items(node, from as int, Seq::empty(), document) == grammar::impl_items(
                node,
                i as int,
                view::impl_items(done@),
                document,
            ),
        decreases items.len() - i,
    {
        let ghost before = done@;
        let found = match label(items[i], document) {
            Ok(value) => value,
            Err(error) => return Err(error),
        };
        let value = items[i + 1];
        if same_text(found.value.as_str(), "types") {
            if !is_list(value) {
                return Err(list_failure(value));
            }
            let types = match type_exprs(value, 0, document) {
                Ok(value) => value,
                Err(error) => return Err(error),
            };
            done.push(ImplItem::Types(types));
            proof { view::lemma_impl_items_push(before, done@.last()); }
        } else if same_text(found.value.as_str(), "methods") {
            if !is_list(value) {
                return Err(list_failure(value));
            }
            done = match methods(value, done, document) {
                Ok(value) => value,
                Err(error) => return Err(error),
            };
        } else {
            return Err(
                failure(
                    "E-SYN-011",
                    concat_three("unknown implementation attribute `", found.value.as_str(), ":`"),
                    found.span,
                ),
            );
        }
        if i + 2 >= items.len() {
            assert(grammar::impl_items(node, i as int + 2, view::impl_items(done@), document) == Ok::<
                Seq<ImplItemView>,
                AstErrorView,
            >(view::impl_items(done@)));
            return Ok(done);
        }
        i += 2;
    }
    Ok(done)
}

#[verifier::loop_isolation(false)]
fn methods(owner: &Node, start: Vec<ImplItem>, document: DocumentId) -> (result: Result<Vec<ImplItem>, AstError>)
    ensures
        match result {
            Ok(value) => grammar::methods(
                syntax::node_view(*owner),
                0,
                view::impl_items(start@),
                document,
            ) == Ok::<Seq<ImplItemView>, AstErrorView>(view::impl_items(value@)),
            Err(error) => grammar::methods(
                syntax::node_view(*owner),
                0,
                view::impl_items(start@),
                document,
            ) == Err::<Seq<ImplItemView>, AstErrorView>(view::ast_error(error)),
        },
    decreases syntax::node_view(*owner), 0int, 0int,
{
    let items = items_of(owner);
    let ghost node = syntax::node_view(*owner);
    let ghost begin = view::impl_items(start@);
    let mut done: Vec<ImplItem> = start;
    let mut i: usize = 0;
    while i < items.len()
        invariant
            node == syntax::node_view(*owner),
            syntax::node_refs(items@) == syntax::items(node),
            grammar::methods(node, 0, begin, document) == grammar::methods(
                node,
                i as int,
                view::impl_items(done@),
                document,
            ),
        decreases items.len() - i,
    {
        let ghost before = done@;
        assert(syntax::node_view(*items@[i as int]) == syntax::items(node)[i as int]);
        let value = match method(items[i], document) {
            Ok(value) => value,
            Err(error) => return Err(error),
        };
        done.push(value);
        proof { view::lemma_impl_items_push(before, done@.last()); }
        i += 1;
    }
    Ok(done)
}

fn method(node: &Node, document: DocumentId) -> (result: Result<ImplItem, AstError>)
    ensures
        match result {
            Ok(value) => grammar::method(
                syntax::node_view(*node),
                document,
            ) == Ok::<ImplItemView, AstErrorView>(view::impl_item(value)),
            Err(error) => grammar::method(
                syntax::node_view(*node),
                document,
            ) == Err::<ImplItemView, AstErrorView>(view::ast_error(error)),
        },
    decreases syntax::node_view(*node), 1int, 1int,
{
    match fixed_head(node, "method", document) {
        Ok(_) => {}
        Err(error) => return Err(error),
    }
    let items = items_of(node);
    let ghost parts = syntax::items(syntax::node_view(*node));
    assert(forall|k: int| 0 <= k < items@.len() ==> syntax::node_view(*(#[trigger] items@[k])) == parts[k]);
    let operands: usize = items.len() - 1;
    if operands != 2 {
        return Err(arity_failure("method", 2, 2, operands, node.span));
    }
    let binding = match method_binding(items[2], document) {
        Ok(value) => value,
        Err(error) => return Err(error),
    };
    let name = match name(items[1], document) {
        Ok(value) => value,
        Err(error) => return Err(error),
    };
    Ok(ImplItem::Method { name, binding, span: node.span })
}

fn method_binding(node: &Node, document: DocumentId) -> (result: Result<MethodBinding, AstError>)
    ensures
        match result {
            Ok(value) => grammar::method_binding(
                syntax::node_view(*node),
                document,
            ) == Ok::<MethodBindingView, AstErrorView>(view::method_binding(value)),
            Err(error) => grammar::method_binding(
                syntax::node_view(*node),
                document,
            ) == Err::<MethodBindingView, AstErrorView>(view::ast_error(error)),
        },
    decreases syntax::node_view(*node), 3int, 0int,
{
    match symbol(node) {
        Some(_) => {
            let name = match name(node, document) {
                Ok(value) => value,
                Err(error) => return Err(error),
            };
            Ok(MethodBinding::Reference(name))
        }
        None => {
            match fixed_head(node, "fn", document) {
                Ok(_) => {}
                Err(error) => return Err(error),
            }
            let value = match function(node, Visibility::Public, document) {
                Ok(value) => value,
                Err(error) => return Err(error),
            };
            Ok(MethodBinding::Function(value))
        }
    }
}

fn definition(node: &Node, visibility: Visibility, document: DocumentId) -> (result: Result<Definition, AstError>)
    requires
        syntax::items(syntax::node_view(*node)).len() >= 1,
    ensures
        match result {
            Ok(value) => grammar::definition(
                syntax::node_view(*node),
                visibility,
                document,
            ) == Ok::<DefinitionView, AstErrorView>(view::definition(value)),
            Err(error) => grammar::definition(
                syntax::node_view(*node),
                visibility,
                document,
            ) == Err::<DefinitionView, AstErrorView>(view::ast_error(error)),
        },
{
    reveal(grammar::definition);
    match check_attributes("def", node, 2, document) {
        Ok(_) => {}
        Err(error) => return Err(error),
    }
    let items = items_of(node);
    let ghost parts = syntax::items(syntax::node_view(*node));
    assert(forall|k: int| 0 <= k < items@.len() ==> syntax::node_view(*(#[trigger] items@[k])) == parts[k]);
    let operands: usize = items.len() - 1;
    let name = match name(items[1], document) {
        Ok(value) => value,
        Err(error) => return Err(error),
    };
    let body = match type_expr(items[2], document) {
        Ok(value) => value,
        Err(error) => return Err(error),
    };
    let annotations = match annotations(node, 3, document) {
        Ok(value) => value,
        Err(error) => return Err(error),
    };
    Ok(
        Definition {
            visibility,
            name,
            body,
            annotations,
            span: node.span,
            origin: source_origin(document, node.span),
        },
    )
}

fn constant(node: &Node, visibility: Visibility, document: DocumentId) -> (result: Result<Constant, AstError>)
    requires
        syntax::items(syntax::node_view(*node)).len() >= 1,
    ensures
        match result {
            Ok(value) => grammar::constant(
                syntax::node_view(*node),
                visibility,
                document,
            ) == Ok::<ConstantView, AstErrorView>(view::constant(value)),
            Err(error) => grammar::constant(
                syntax::node_view(*node),
                visibility,
                document,
            ) == Err::<ConstantView, AstErrorView>(view::ast_error(error)),
        },
{
    reveal(grammar::constant);
    match check_attributes("const", node, 3, document) {
        Ok(_) => {}
        Err(error) => return Err(error),
    }
    let items = items_of(node);
    let ghost parts = syntax::items(syntax::node_view(*node));
    assert(forall|k: int| 0 <= k < items@.len() ==> syntax::node_view(*(#[trigger] items@[k])) == parts[k]);
    let operands: usize = items.len() - 1;
    let name = match name(items[1], document) {
        Ok(value) => value,
        Err(error) => return Err(error),
    };
    let ty = match type_expr(items[2], document) {
        Ok(value) => value,
        Err(error) => return Err(error),
    };
    let value = match expr(items[3], document) {
        Ok(value) => value,
        Err(error) => return Err(error),
    };
    let annotations = match annotations(node, 4, document) {
        Ok(value) => value,
        Err(error) => return Err(error),
    };
    Ok(
        Constant {
            visibility,
            name,
            ty,
            value,
            annotations,
            span: node.span,
            origin: source_origin(document, node.span),
        },
    )
}

fn import(node: &Node, document: DocumentId) -> (result: Result<Import, AstError>)
    requires
        syntax::items(syntax::node_view(*node)).len() >= 1,
    ensures
        match result {
            Ok(value) => grammar::import(
                syntax::node_view(*node),
                document,
            ) == Ok::<ImportView, AstErrorView>(view::import(value)),
            Err(error) => grammar::import(
                syntax::node_view(*node),
                document,
            ) == Err::<ImportView, AstErrorView>(view::ast_error(error)),
        },
{
    reveal(grammar::import);
    let items = items_of(node);
    let ghost parts = syntax::items(syntax::node_view(*node));
    assert(forall|k: int| 0 <= k < items@.len() ==> syntax::node_view(*(#[trigger] items@[k])) == parts[k]);
    let operands: usize = items.len() - 1;
    if operands != 2 {
        return Err(arity_failure("import", 2, 2, operands, node.span));
    }
    let alias = match name(items[1], document) {
        Ok(value) => value,
        Err(error) => return Err(error),
    };
    let path = match string(items[2], document) {
        Ok(value) => value,
        Err(error) => return Err(error),
    };
    Ok(Import { alias, path, span: node.span, origin: source_origin(document, node.span) })
}

fn syntax_category(node: &Node, document: DocumentId) -> (result: Result<Spanned<SyntaxCategory>, AstError>)
    ensures
        match result {
            Ok(value) => grammar::syntax_category(
                syntax::node_view(*node),
                document,
            ) == Ok::<Spanned<SyntaxCategory>, AstErrorView>(value),
            Err(error) => grammar::syntax_category(
                syntax::node_view(*node),
                document,
            ) == Err::<Spanned<SyntaxCategory>, AstErrorView>(view::ast_error(error)),
        },
{
    match symbol(node) {
        None => Err(failure("E-SYN-010", owned("expected a syntax category symbol"), node.span)),
        Some(value) => {
            if same_text(value.as_str(), "expr-syntax") {
                Ok(Spanned::source(SyntaxCategory::Expression, document, node.span))
            } else if same_text(value.as_str(), "type-syntax") {
                Ok(Spanned::source(SyntaxCategory::Type, document, node.span))
            } else if same_text(value.as_str(), "pattern-syntax") {
                Ok(Spanned::source(SyntaxCategory::Pattern, document, node.span))
            } else if same_text(value.as_str(), "definition-syntax") {
                Ok(Spanned::source(SyntaxCategory::Definition, document, node.span))
            } else if same_text(value.as_str(), "module-syntax") {
                Ok(Spanned::source(SyntaxCategory::Module, document, node.span))
            } else {
                Err(
                    failure(
                        "E-SYN-008",
                        concat_three("unknown syntax category `", value.as_str(), "`"),
                        node.span,
                    ),
                )
            }
        }
    }
}

fn macro_parameter(node: &Node, document: DocumentId) -> (result: Result<MacroParameter, AstError>)
    ensures
        match result {
            Ok(value) => grammar::macro_parameter(
                syntax::node_view(*node),
                document,
            ) == Ok::<MacroParameterView, AstErrorView>(view::macro_parameter(value)),
            Err(error) => grammar::macro_parameter(
                syntax::node_view(*node),
                document,
            ) == Err::<MacroParameterView, AstErrorView>(view::ast_error(error)),
        },
{
    let pair = match pair_of("macro parameter", node) {
        Ok(value) => value,
        Err(error) => return Err(error),
    };
    let name = match name(pair.0, document) {
        Ok(value) => value,
        Err(error) => return Err(error),
    };
    let category = match syntax_category(pair.1, document) {
        Ok(value) => value,
        Err(error) => return Err(error),
    };
    Ok(MacroParameter { name, category, span: node.span })
}

fn macro_parameters_from(
    owner: &Node,
    from: usize,
    document: DocumentId,
) -> (result: Result<Vec<MacroParameter>, AstError>)
    ensures
        match result {
            Ok(value) => grammar::macro_parameters_from(
                syntax::node_view(*owner),
                from as int,
                Seq::empty(),
                document,
            ) == Ok::<Seq<MacroParameterView>, AstErrorView>(view::macro_parameters(value@)),
            Err(error) => grammar::macro_parameters_from(
                syntax::node_view(*owner),
                from as int,
                Seq::empty(),
                document,
            ) == Err::<Seq<MacroParameterView>, AstErrorView>(view::ast_error(error)),
        },
{
    let items = items_of(owner);
    let ghost node = syntax::node_view(*owner);
    let mut done: Vec<MacroParameter> = Vec::new();
    let mut i: usize = from;
    assert(view::macro_parameters(done@) =~= Seq::<MacroParameterView>::empty());
    while i < items.len()
        invariant
            node == syntax::node_view(*owner),
            syntax::node_refs(items@) == syntax::items(node),
            grammar::macro_parameters_from(node, from as int, Seq::empty(), document) == grammar::macro_parameters_from(
                node,
                i as int,
                view::macro_parameters(done@),
                document,
            ),
        decreases items.len() - i,
    {
        let ghost before = done@;
        assert(syntax::node_view(*items@[i as int]) == syntax::items(node)[i as int]);
        let value = match macro_parameter(items[i], document) {
            Ok(value) => value,
            Err(error) => return Err(error),
        };
        done.push(value);
        proof { view::lemma_macro_parameters_push(before, done@.last()); }
        i += 1;
    }
    Ok(done)
}

fn macro_parameters(node: &Node, document: DocumentId) -> (result: Result<Vec<MacroParameter>, AstError>)
    ensures
        match result {
            Ok(value) => grammar::macro_parameters(
                syntax::node_view(*node),
                document,
            ) == Ok::<Seq<MacroParameterView>, AstErrorView>(view::macro_parameters(value@)),
            Err(error) => grammar::macro_parameters(
                syntax::node_view(*node),
                document,
            ) == Err::<Seq<MacroParameterView>, AstErrorView>(view::ast_error(error)),
        },
{
    if !is_list(node) {
        return Err(list_failure(node));
    }
    macro_parameters_from(node, 0, document)
}

fn macro_body(node: &Node, document: DocumentId) -> (result: Result<Vec<MacroExpr>, AstError>)
    ensures
        match result {
            Ok(value) => grammar::macro_body(
                syntax::node_view(*node),
                document,
            ) == Ok::<Seq<MacroExprView>, AstErrorView>(view::macro_exprs(value@)),
            Err(error) => grammar::macro_body(
                syntax::node_view(*node),
                document,
            ) == Err::<Seq<MacroExprView>, AstErrorView>(view::ast_error(error)),
        },
    decreases syntax::node_view(*node), 1int, 0int,
{
    match fixed_head(node, "do", document) {
        Ok(_) => {}
        Err(error) => return Err(error),
    }
    let items = items_of(node);
    if items.len() < 2 {
        return Err(min_arity_failure("macro do", 1, items.len() - 1, node.span));
    }
    macro_exprs(node, 1, document)
}

fn macro_exprs(owner: &Node, from: usize, document: DocumentId) -> (result: Result<Vec<MacroExpr>, AstError>)
    ensures
        match result {
            Ok(value) => grammar::macro_exprs(
                syntax::node_view(*owner),
                from as int,
                Seq::empty(),
                document,
            ) == Ok::<Seq<MacroExprView>, AstErrorView>(view::macro_exprs(value@)),
            Err(error) => grammar::macro_exprs(
                syntax::node_view(*owner),
                from as int,
                Seq::empty(),
                document,
            ) == Err::<Seq<MacroExprView>, AstErrorView>(view::ast_error(error)),
        },
    decreases syntax::node_view(*owner), 0int, 0int,
{
    let items = items_of(owner);
    let ghost node = syntax::node_view(*owner);
    let mut done: Vec<MacroExpr> = Vec::new();
    let mut i: usize = from;
    assert(view::macro_exprs(done@) =~= Seq::<MacroExprView>::empty());
    while i < items.len()
        invariant
            node == syntax::node_view(*owner),
            syntax::node_refs(items@) == syntax::items(node),
            grammar::macro_exprs(node, from as int, Seq::empty(), document) == grammar::macro_exprs(
                node,
                i as int,
                view::macro_exprs(done@),
                document,
            ),
        decreases items.len() - i,
    {
        let ghost before = done@;
        assert(syntax::node_view(*items@[i as int]) == syntax::items(node)[i as int]);
        let value = match macro_expr(items[i], document) {
            Ok(value) => value,
            Err(error) => return Err(error),
        };
        done.push(value);
        proof { view::lemma_macro_exprs_push(before, done@.last()); }
        i += 1;
    }
    Ok(done)
}

fn macro_expr(node: &Node, document: DocumentId) -> (result: Result<MacroExpr, AstError>)
    ensures
        match result {
            Ok(value) => grammar::macro_expr(
                syntax::node_view(*node),
                document,
            ) == Ok::<MacroExprView, AstErrorView>(view::macro_expr(value)),
            Err(error) => grammar::macro_expr(
                syntax::node_view(*node),
                document,
            ) == Err::<MacroExprView, AstErrorView>(view::ast_error(error)),
        },
    decreases syntax::node_view(*node), 2int, 0int,
{
    reveal(view::macro_kind);
    match &node.kind {
        NodeKind::Atom(atom) => {
            if is_label(node) {
                return Err(failure("E-SYN-011", owned("attribute label is not a macro expression"), node.span));
            }
            Ok(Spanned::source(MacroExprKind::Atom(atom.copy()), document, node.span))
        }
        _ => {
            let head = match head(node, document) {
                Ok(value) => value,
                Err(error) => return Err(error),
            };
            let value = match macro_form(node, head, document) {
                Ok(value) => value,
                Err(error) => return Err(error),
            };
            Ok(Spanned::source(value, document, node.span))
        }
    }
}

fn macro_form(node: &Node, head: Name, document: DocumentId) -> (result: Result<MacroExprKind, AstError>)
    requires
        syntax::items(syntax::node_view(*node)).len() >= 1,
    ensures
        match result {
            Ok(value) => grammar::macro_form(
                syntax::node_view(*node),
                view::name(head),
                document,
            ) == Ok::<MacroExprKindView, AstErrorView>(view::macro_kind(value)),
            Err(error) => grammar::macro_form(
                syntax::node_view(*node),
                view::name(head),
                document,
            ) == Err::<MacroExprKindView, AstErrorView>(view::ast_error(error)),
        },
    decreases syntax::node_view(*node), 1int, 0int,
{
    reveal(view::macro_kind);
    let items = items_of(node);
    let ghost parts = syntax::items(syntax::node_view(*node));
    assert(forall|k: int| 0 <= k < items@.len() ==> syntax::node_view(*(#[trigger] items@[k])) == parts[k]);
    let operands: usize = items.len() - 1;
    let form = head.value.as_str();
    if same_text(form, "let") {
        if operands != 2 {
            return Err(arity_failure("macro let", 2, 2, operands, node.span));
        }
        let name = match name(items[1], document) {
            Ok(value) => value,
            Err(error) => return Err(error),
        };
        let value = match macro_expr(items[2], document) {
            Ok(value) => value,
            Err(error) => return Err(error),
        };
        return Ok(MacroExprKind::Let { name, value: Box::new(value) });
    }
    if same_text(form, "if") {
        if operands != 3 {
            return Err(arity_failure("macro if", 3, 3, operands, node.span));
        }
        let condition = match macro_expr(items[1], document) {
            Ok(value) => value,
            Err(error) => return Err(error),
        };
        let then_body = match macro_body(items[2], document) {
            Ok(value) => value,
            Err(error) => return Err(error),
        };
        let else_body = match macro_body(items[3], document) {
            Ok(value) => value,
            Err(error) => return Err(error),
        };
        return Ok(MacroExprKind::If { condition: Box::new(condition), then_body, else_body });
    }
    if same_text(form, "quote") {
        if operands != 2 {
            return Err(arity_failure("quote", 2, 2, operands, node.span));
        }
        let category = match syntax_category(items[1], document) {
            Ok(value) => value,
            Err(error) => return Err(error),
        };
        return Ok(MacroExprKind::Quote { category, form: syntax::copy_node(items[2]) });
    }
    if same_text(form, "unquote") || same_text(form, "splice") || same_text(form, "capture") {
        if operands != 1 {
            return Err(arity_failure(form, 1, 1, operands, node.span));
        }
        let target = match name(items[1], document) {
            Ok(value) => value,
            Err(error) => return Err(error),
        };
        return Ok(
            if same_text(form, "unquote") {
                MacroExprKind::Unquote(target)
            } else if same_text(form, "splice") {
                MacroExprKind::Splice(target)
            } else {
                MacroExprKind::Capture(target)
            },
        );
    }
    Err(failure("E-SYN-008", concat_three("unknown macro expression `", form, "`"), head.span))
}

fn macro_definition(node: &Node, visibility: Visibility, document: DocumentId) -> (result: Result<Macro, AstError>)
    requires
        syntax::items(syntax::node_view(*node)).len() >= 1,
    ensures
        match result {
            Ok(value) => grammar::macro_definition(
                syntax::node_view(*node),
                visibility,
                document,
            ) == Ok::<MacroView, AstErrorView>(view::macro_definition(value)),
            Err(error) => grammar::macro_definition(
                syntax::node_view(*node),
                visibility,
                document,
            ) == Err::<MacroView, AstErrorView>(view::ast_error(error)),
        },
{
    reveal(grammar::macro_definition);
    match check_attributes("macro", node, 4, document) {
        Ok(_) => {}
        Err(error) => return Err(error),
    }
    let items = items_of(node);
    let ghost parts = syntax::items(syntax::node_view(*node));
    assert(forall|k: int| 0 <= k < items@.len() ==> syntax::node_view(*(#[trigger] items@[k])) == parts[k]);
    let operands: usize = items.len() - 1;
    let name = match name(items[1], document) {
        Ok(value) => value,
        Err(error) => return Err(error),
    };
    let parameters = match macro_parameters(items[2], document) {
        Ok(value) => value,
        Err(error) => return Err(error),
    };
    let category = match syntax_category(items[3], document) {
        Ok(value) => value,
        Err(error) => return Err(error),
    };
    let body = match macro_body(items[4], document) {
        Ok(value) => value,
        Err(error) => return Err(error),
    };
    let annotations = match annotations(node, 5, document) {
        Ok(value) => value,
        Err(error) => return Err(error),
    };
    Ok(
        Macro {
            visibility,
            name,
            parameters,
            result: category,
            body,
            annotations,
            span: node.span,
            origin: source_origin(document, node.span),
        },
    )
}

fn test_meta(owner: &Node, from: usize, document: DocumentId) -> (result: Result<TestMeta, AstError>)
    requires
        from + 1 < syntax::items(syntax::node_view(*owner)).len(),
    ensures
        match result {
            Ok(value) => grammar::test_meta(
                syntax::node_view(*owner),
                from as int,
                document,
            ) == Ok::<TestMetaView, AstErrorView>(view::test_meta(value)),
            Err(error) => grammar::test_meta(
                syntax::node_view(*owner),
                from as int,
                document,
            ) == Err::<TestMetaView, AstErrorView>(view::ast_error(error)),
        },
{
    reveal(grammar::test_meta);
    let items = items_of(owner);
    let ghost parts = syntax::items(syntax::node_view(*owner));
    assert(forall|k: int| 0 <= k < items@.len() ==> syntax::node_view(*(#[trigger] items@[k])) == parts[k]);
    assert(items.len() == parts.len());
    let value = items[from + 1];
    let span = items[from].span.cover(value.span);
    let found = match label(items[from], document) {
        Ok(value) => value,
        Err(error) => return Err(error),
    };
    let words = items_of(value);
    assert(forall|k: int|
        0 <= k < words@.len()
            ==> syntax::node_view(*(#[trigger] words@[k])) == syntax::items(syntax::node_view(*value))[k]);
    if same_text(found.value.as_str(), "tags") {
        if !is_list(value) {
            return Err(list_failure(value));
        }
        let tags = match names(value, 0, document) {
            Ok(value) => value,
            Err(error) => return Err(error),
        };
        return Ok(TestMeta::Tags(tags));
    }
    if same_text(found.value.as_str(), "expect-error") {
        if !is_list(value) {
            return Err(list_failure(value));
        }
        if words.len() < 2 || words.len() > 3 {
            return Err(arity_failure("expect-error", 2, 3, words.len(), span));
        }
        let phase = match name(words[0], document) {
            Ok(value) => value,
            Err(error) => return Err(error),
        };
        let code = match name(words[1], document) {
            Ok(value) => value,
            Err(error) => return Err(error),
        };
        if words.len() == 3 {
            let text = match string(words[2], document) {
                Ok(value) => value,
                Err(error) => return Err(error),
            };
            return Ok(TestMeta::ExpectError { phase, code, message: Some(text) });
        }
        return Ok(TestMeta::ExpectError { phase, code, message: None });
    }
    if same_text(found.value.as_str(), "clock") {
        if !is_list(value) {
            return Err(list_failure(value));
        }
        if words.len() != 2 {
            return Err(arity_failure("clock", 2, 2, words.len(), span));
        }
        let mode = match name(words[0], document) {
            Ok(value) => value,
            Err(error) => return Err(error),
        };
        let millis = match integer(words[1], document) {
            Ok(value) => value,
            Err(error) => return Err(error),
        };
        return Ok(TestMeta::Clock { mode, millis });
    }
    if same_text(found.value.as_str(), "benchmark") {
        if !is_list(value) {
            return Err(list_failure(value));
        }
        return Ok(TestMeta::Benchmark(syntax::copy_node(value)));
    }
    if same_text(found.value.as_str(), "workspace") {
        let name = match name(value, document) {
            Ok(value) => value,
            Err(error) => return Err(error),
        };
        return Ok(TestMeta::Workspace(name));
    }
    Err(
        failure(
            "E-SYN-011",
            concat_three("unknown test attribute `", found.value.as_str(), ":`"),
            found.span,
        ),
    )
}

fn test_metadata(owner: &Node, from: usize, document: DocumentId) -> (result: Result<Vec<TestMeta>, AstError>)
    ensures
        match result {
            Ok(value) => grammar::test_metadata(
                syntax::node_view(*owner),
                from as int,
                Seq::empty(),
                document,
            ) == Ok::<Seq<TestMetaView>, AstErrorView>(view::test_metas(value@)),
            Err(error) => grammar::test_metadata(
                syntax::node_view(*owner),
                from as int,
                Seq::empty(),
                document,
            ) == Err::<Seq<TestMetaView>, AstErrorView>(view::ast_error(error)),
        },
{
    let items = items_of(owner);
    let ghost node = syntax::node_view(*owner);
    let ghost parts = syntax::items(node);
    assert(forall|k: int| 0 <= k < items@.len() ==> syntax::node_view(*(#[trigger] items@[k])) == parts[k]);
    let mut done: Vec<TestMeta> = Vec::new();
    let mut i: usize = from;
    assert(view::test_metas(done@) =~= Seq::<TestMetaView>::empty());
    while i < items.len() && i + 1 < items.len()
        invariant
            node == syntax::node_view(*owner),
            parts == syntax::items(node),
            items@.len() == parts.len(),
            forall|k: int| 0 <= k < items@.len() ==> syntax::node_view(*(#[trigger] items@[k])) == parts[k],
            grammar::test_metadata(node, from as int, Seq::empty(), document) == grammar::test_metadata(
                node,
                i as int,
                view::test_metas(done@),
                document,
            ),
        decreases items.len() - i,
    {
        let ghost before = done@;
        let value = match test_meta(owner, i, document) {
            Ok(value) => value,
            Err(error) => return Err(error),
        };
        done.push(value);
        proof { view::lemma_test_metas_push(before, done@.last()); }
        if i + 2 >= items.len() {
            assert(grammar::test_metadata(node, i as int + 2, view::test_metas(done@), document) == Ok::<
                Seq<TestMetaView>,
                AstErrorView,
            >(view::test_metas(done@)));
            return Ok(done);
        }
        i += 2;
    }
    Ok(done)
}

fn test(node: &Node, document: DocumentId) -> (result: Result<Test, AstError>)
    requires
        syntax::items(syntax::node_view(*node)).len() >= 1,
    ensures
        match result {
            Ok(value) => grammar::test(
                syntax::node_view(*node),
                document,
            ) == Ok::<TestView, AstErrorView>(view::test(value)),
            Err(error) => grammar::test(
                syntax::node_view(*node),
                document,
            ) == Err::<TestView, AstErrorView>(view::ast_error(error)),
        },
{
    reveal(grammar::test);
    match check_attributes("test", node, 3, document) {
        Ok(_) => {}
        Err(error) => return Err(error),
    }
    let items = items_of(node);
    let ghost parts = syntax::items(syntax::node_view(*node));
    assert(forall|k: int| 0 <= k < items@.len() ==> syntax::node_view(*(#[trigger] items@[k])) == parts[k]);
    let operands: usize = items.len() - 1;
    let name = match self::name(items[1], document) {
        Ok(value) => value,
        Err(error) => return Err(error),
    };
    let profile = match self::name(items[2], document) {
        Ok(value) => value,
        Err(error) => return Err(error),
    };
    let body = match body(items[3], document) {
        Ok(value) => value,
        Err(error) => return Err(error),
    };
    let metadata = match test_metadata(node, 4, document) {
        Ok(value) => value,
        Err(error) => return Err(error),
    };
    Ok(Test { name, profile, body, metadata, span: node.span, origin: source_origin(document, node.span) })
}

fn private(node: &Node, document: DocumentId) -> (result: Result<TopLevel, AstError>)
    requires
        syntax::items(syntax::node_view(*node)).len() >= 1,
    ensures
        match result {
            Ok(value) => grammar::private(
                syntax::node_view(*node),
                document,
            ) == Ok::<TopLevelView, AstErrorView>(view::top_level(value)),
            Err(error) => grammar::private(
                syntax::node_view(*node),
                document,
            ) == Err::<TopLevelView, AstErrorView>(view::ast_error(error)),
        },
{
    reveal(grammar::private);
    reveal(view::top_level);
    let items = items_of(node);
    let ghost parts = syntax::items(syntax::node_view(*node));
    assert(forall|k: int| 0 <= k < items@.len() ==> syntax::node_view(*(#[trigger] items@[k])) == parts[k]);
    let operands: usize = items.len() - 1;
    if operands != 1 {
        return Err(arity_failure("private", 1, 1, operands, node.span));
    }
    let inner = items[1];
    let head = match head(inner, document) {
        Ok(value) => value,
        Err(error) => return Err(error),
    };
    if same_text(head.value.as_str(), "def") {
        let mut value = match definition(inner, Visibility::Private, document) {
            Ok(value) => value,
            Err(error) => return Err(error),
        };
        value.span = node.span;
        value.origin = source_origin(document, node.span);
        return Ok(TopLevel::Definition(value));
    }
    if same_text(head.value.as_str(), "const") {
        let mut value = match constant(inner, Visibility::Private, document) {
            Ok(value) => value,
            Err(error) => return Err(error),
        };
        value.span = node.span;
        value.origin = source_origin(document, node.span);
        return Ok(TopLevel::Constant(value));
    }
    if same_text(head.value.as_str(), "fn") {
        let mut value = match function(inner, Visibility::Private, document) {
            Ok(value) => value,
            Err(error) => return Err(error),
        };
        value.span = node.span;
        value.origin = source_origin(document, node.span);
        return Ok(TopLevel::Function(value));
    }
    if same_text(head.value.as_str(), "macro") {
        let mut value = match macro_definition(inner, Visibility::Private, document) {
            Ok(value) => value,
            Err(error) => return Err(error),
        };
        value.span = node.span;
        value.origin = source_origin(document, node.span);
        return Ok(TopLevel::Macro(value));
    }
    Err(failure("E-SYN-008", owned("`private` accepts exactly one def, const, fn, or macro"), head.span))
}

fn top_level(node: &Node, document: DocumentId) -> (result: Result<TopLevel, AstError>)
    ensures
        match result {
            Ok(value) => grammar::top_level(
                syntax::node_view(*node),
                document,
            ) == Ok::<TopLevelView, AstErrorView>(view::top_level(value)),
            Err(error) => grammar::top_level(
                syntax::node_view(*node),
                document,
            ) == Err::<TopLevelView, AstErrorView>(view::ast_error(error)),
        },
{
    reveal(grammar::top_level);
    reveal(view::top_level);
    let head = match head(node, document) {
        Ok(value) => value,
        Err(error) => return Err(error),
    };
    if same_text(head.value.as_str(), "import") {
        let value = match import(node, document) {
            Ok(value) => value,
            Err(error) => return Err(error),
        };
        return Ok(TopLevel::Import(value));
    }
    if same_text(head.value.as_str(), "def") {
        let value = match definition(node, Visibility::Public, document) {
            Ok(value) => value,
            Err(error) => return Err(error),
        };
        return Ok(TopLevel::Definition(value));
    }
    if same_text(head.value.as_str(), "const") {
        let value = match constant(node, Visibility::Public, document) {
            Ok(value) => value,
            Err(error) => return Err(error),
        };
        return Ok(TopLevel::Constant(value));
    }
    if same_text(head.value.as_str(), "fn") {
        let value = match function(node, Visibility::Public, document) {
            Ok(value) => value,
            Err(error) => return Err(error),
        };
        return Ok(TopLevel::Function(value));
    }
    if same_text(head.value.as_str(), "macro") {
        let value = match macro_definition(node, Visibility::Public, document) {
            Ok(value) => value,
            Err(error) => return Err(error),
        };
        return Ok(TopLevel::Macro(value));
    }
    if same_text(head.value.as_str(), "test") {
        let value = match test(node, document) {
            Ok(value) => value,
            Err(error) => return Err(error),
        };
        return Ok(TopLevel::Test(value));
    }
    if same_text(head.value.as_str(), "private") {
        return private(node, document);
    }
    Err(
        failure("E-SYN-007", concat_three("`", head.value.as_str(), "` is not a valid top-level form"), head.span),
    )
}

/// Lowers a document that belongs to no file.
pub fn lower_document(document: &SyntaxDocument) -> (result: Result<Module, AstError>)
    ensures
        match result {
            Ok(value) => grammar::module(
                syntax::nodes_view(document.nodes@),
                document.span,
                DocumentId::none(),
            ) == Ok::<ModuleView, AstErrorView>(view::module(value)),
            Err(error) => grammar::module(
                syntax::nodes_view(document.nodes@),
                document.span,
                DocumentId::none(),
            ) == Err::<ModuleView, AstErrorView>(view::ast_error(error)),
        },
{
    lower_document_with_id(document, DocumentId::anonymous())
}

/// Lowers a document to its module, or to the first diagnostic.
#[verifier::loop_isolation(false)]
pub fn lower_document_with_id(document: &SyntaxDocument, document_id: DocumentId) -> (result: Result<Module, AstError>)
    ensures
        match result {
            Ok(value) => grammar::module(
                syntax::nodes_view(document.nodes@),
                document.span,
                document_id,
            ) == Ok::<ModuleView, AstErrorView>(view::module(value)),
            Err(error) => grammar::module(
                syntax::nodes_view(document.nodes@),
                document.span,
                document_id,
            ) == Err::<ModuleView, AstErrorView>(view::ast_error(error)),
        },
{
    let nodes = syntax::semantic_nodes(&document.nodes);
    let ghost all = syntax::semantic(syntax::nodes_view(document.nodes@));
    let mut forms: Vec<TopLevel> = Vec::new();
    let mut i: usize = 0;
    assert(view::top_levels(forms@) =~= Seq::<TopLevelView>::empty());
    assert(syntax::node_refs(nodes@).len() == nodes@.len());
    while i < nodes.len()
        invariant
            i <= nodes.len(),
            nodes@.len() == all.len(),
            syntax::node_refs(nodes@) == all,
            grammar::top_levels(all, 0, Seq::empty(), document_id) == grammar::top_levels(
                all,
                i as int,
                view::top_levels(forms@),
                document_id,
            ),
        decreases nodes.len() - i,
    {
        let ghost before = forms@;
        assert(syntax::node_view(*nodes@[i as int]) == all[i as int]);
        let form = match top_level(nodes[i], document_id) {
            Ok(value) => value,
            Err(error) => return Err(error),
        };
        forms.push(form);
        proof { view::lemma_top_levels_push(before, forms@.last()); }
        i += 1;
    }
    Ok(Module { forms, span: document.span, document_id })
}

pub(crate) fn lower_expression_node_with_id(node: &Node, document: DocumentId) -> (result: Result<Expr, AstError>)
    ensures
        match result {
            Ok(value) => grammar::expr(
                syntax::node_view(*node),
                document,
            ) == Ok::<ExprView, AstErrorView>(view::expr(value)),
            Err(error) => grammar::expr(
                syntax::node_view(*node),
                document,
            ) == Err::<ExprView, AstErrorView>(view::ast_error(error)),
        },
{
    expr(node, document)
}

pub(crate) fn lower_type_node_with_id(node: &Node, document: DocumentId) -> (result: Result<TypeExpr, AstError>)
    ensures
        match result {
            Ok(value) => grammar::type_expr(
                syntax::node_view(*node),
                document,
            ) == Ok::<TypeExprView, AstErrorView>(view::type_expr(value)),
            Err(error) => grammar::type_expr(
                syntax::node_view(*node),
                document,
            ) == Err::<TypeExprView, AstErrorView>(view::ast_error(error)),
        },
{
    type_expr(node, document)
}

pub(crate) fn lower_pattern_node_with_id(node: &Node, document: DocumentId) -> (result: Result<Pattern, AstError>)
    ensures
        match result {
            Ok(value) => grammar::pattern(
                syntax::node_view(*node),
                document,
            ) == Ok::<PatternView, AstErrorView>(view::pattern(value)),
            Err(error) => grammar::pattern(
                syntax::node_view(*node),
                document,
            ) == Err::<PatternView, AstErrorView>(view::ast_error(error)),
        },
{
    pattern(node, document)
}

pub(crate) fn lower_top_level_node_with_id(node: &Node, document: DocumentId) -> (result: Result<TopLevel, AstError>)
    ensures
        match result {
            Ok(value) => grammar::top_level(
                syntax::node_view(*node),
                document,
            ) == Ok::<TopLevelView, AstErrorView>(view::top_level(value)),
            Err(error) => grammar::top_level(
                syntax::node_view(*node),
                document,
            ) == Err::<TopLevelView, AstErrorView>(view::ast_error(error)),
        },
{
    top_level(node, document)
}

} // verus!
