//! Substitution of compile-time bindings into quoted syntax.
use vstd::prelude::*;
use crate::ast::copy;
use crate::ast::expansion_state::{FragmentView, SyntaxFragment};
use crate::ast::macro_error::{MacroErrorView, MacroExpansionError};
use crate::ast::surface::{
    Expr, ExprField, ExprKind, MatchCase, Origin, Pattern, PatternField, PatternKind, Spanned, TypeExpr, TypeExprKind,
    TypeMember,
};
use crate::ast::view::{
    self, ExprFieldView, ExprKindView, ExprView, MatchCaseView, PatternFieldView, PatternKindView, PatternView,
    TypeExprKindView, TypeExprView, TypeMemberView,
};
use crate::names::NameMap;
use crate::text::{concat_three, owned, same_text};

verus! {

pub open spec fn unknown_binding(what: Seq<char>, name: Seq<char>, origin: Origin) -> MacroErrorView {
    MacroErrorView::at("E-MACRO-004"@, what + name + "`"@, origin)
}

pub open spec fn wrong_category(what: Seq<char>, name: Seq<char>, category: Seq<char>, origin: Origin) -> MacroErrorView {
    MacroErrorView::at("E-MACRO-002"@, what + name + category, origin)
}

pub open spec fn malformed(message: Seq<char>, origin: Origin) -> MacroErrorView {
    MacroErrorView::at("E-MACRO-007"@, message, origin)
}

fn unknown_binding_error(what: &str, name: &str, origin: &Origin) -> (error: MacroExpansionError)
    ensures
        error@ == unknown_binding(what@, name@, *origin),
{
    MacroExpansionError::at("E-MACRO-004", concat_three(what, name, "`"), origin)
}

fn wrong_category_error(what: &str, name: &str, category: &str, origin: &Origin) -> (error: MacroExpansionError)
    ensures
        error@ == wrong_category(what@, name@, category@, *origin),
{
    MacroExpansionError::at("E-MACRO-002", concat_three(what, name, category), origin)
}

fn malformed_error(message: &str, origin: &Origin) -> (error: MacroExpansionError)
    ensures
        error@ == malformed(message@, *origin),
{
    MacroExpansionError::at("E-MACRO-007", owned(message), origin)
}

/// `(operator operand)` as a call with exactly one operand.
pub open spec fn applies(node: ExprView, operator: Seq<char>) -> bool {
    node.value is Call && node.value->callee.value == operator && node.value->Call_arguments.len() == 1
}

pub open spec fn splice_name(node: ExprView) -> Option<Seq<char>> {
    if applies(node, "splice"@) && node.value->Call_arguments[0].value is Reference {
        Some(node.value->Call_arguments[0].value->Reference_0)
    } else {
        None
    }
}

/// What `(unquote name)` stands for.
pub open spec fn unquoted_expr(
    node: ExprView,
    name: Seq<char>,
    environment: Map<Seq<char>, FragmentView>,
) -> Result<ExprView, MacroErrorView> {
    if environment.dom().contains(name) {
        match environment[name] {
            FragmentView::Expression(value) => Ok(value),
            _ => Err(wrong_category("unquote `"@, name, "` is not expression syntax"@, node.origin)),
        }
    } else {
        Err(unknown_binding("unknown unquote binding `"@, name, node.origin))
    }
}

pub open spec fn unquoted_type(
    node: TypeExprView,
    name: Seq<char>,
    environment: Map<Seq<char>, FragmentView>,
) -> Result<TypeExprView, MacroErrorView> {
    if environment.dom().contains(name) {
        match environment[name] {
            FragmentView::Type(value) => Ok(value),
            _ => Err(wrong_category("unquote `"@, name, "` is not type syntax"@, node.origin)),
        }
    } else {
        Err(unknown_binding("unknown unquote binding `"@, name, node.origin))
    }
}

pub open spec fn unquoted_pattern(
    node: PatternView,
    name: Seq<char>,
    environment: Map<Seq<char>, FragmentView>,
) -> Result<PatternView, MacroErrorView> {
    if environment.dom().contains(name) {
        match environment[name] {
            FragmentView::Pattern(value) => Ok(value),
            _ => Err(wrong_category("unquote `"@, name, "` is not pattern syntax"@, node.origin)),
        }
    } else {
        Err(unknown_binding("unknown unquote binding `"@, name, node.origin))
    }
}

fn splice_of(node: &Expr) -> (result: Option<&String>)
    ensures
        match result {
            Some(name) => splice_name(view::expr(*node)) == Some(name@),
            None => splice_name(view::expr(*node)) is None,
        },
{
    reveal(view::expr_kind);
    match &node.value {
        ExprKind::Call { callee, arguments } => {
            if same_text(callee.value.as_str(), "splice") && arguments.len() == 1 {
                assert(view::exprs(arguments@)[0] == view::expr(arguments@[0]));
                match &arguments[0].value {
                    ExprKind::Reference(name) => Some(name),
                    _ => None,
                }
            } else {
                None
            }
        }
        _ => None,
    }
}

/// The quoted type with its `unquote` forms replaced.
#[verifier::opaque]
pub open spec fn substituted_type_expr(
    node: TypeExprView,
    environment: Map<Seq<char>, FragmentView>,
) -> Result<TypeExprView, MacroErrorView>
    decreases node, 0int,
{
    if node.value is Application && node.value->constructor.value
        == "unquote"@ && node.value->Application_arguments.len() == 1 {
        match node.value->Application_arguments[0].value {
            TypeExprKindView::Named(name) => unquoted_type(node, name, environment),
            _ => Err(malformed("type unquote requires one binding name"@, node.origin)),
        }
    } else {
        match match node.value {
            TypeExprKindView::Named(value) => Ok(TypeExprKindView::Named(value)),
            TypeExprKindView::Application { constructor, arguments } => match substituted_type_exprs(arguments, 0, Seq::empty(), environment) {
                Err(error) => Err(error),
                Ok(arguments) => Ok(TypeExprKindView::Application { constructor, arguments }),
            },
            TypeExprKindView::Record(values) => match substituted_type_members(values, 0, Seq::empty(), environment) {
                Err(error) => Err(error),
                Ok(values) => Ok(TypeExprKindView::Record(values)),
            },
            TypeExprKindView::Tuple(values) => match substituted_type_exprs(values, 0, Seq::empty(), environment) {
                Err(error) => Err(error),
                Ok(values) => Ok(TypeExprKindView::Tuple(values)),
            },
            TypeExprKindView::Array(value) => match substituted_type_expr(*value, environment) {
                Err(error) => Err(error),
                Ok(value) => {
                    let value = Box::new(value);
                    Ok(TypeExprKindView::Array(value))
                },
            },
            TypeExprKindView::Mapping(first, second) => match substituted_type_expr(*first, environment) {
                Err(error) => Err(error),
                Ok(first) => {
                    let first = Box::new(first);
                    match substituted_type_expr(*second, environment) {
                        Err(error) => Err(error),
                        Ok(second) => {
                            let second = Box::new(second);
                            Ok(TypeExprKindView::Mapping(first, second))
                        },
                    }
                },
            },
            TypeExprKindView::Union(values) => match substituted_type_exprs(values, 0, Seq::empty(), environment) {
                Err(error) => Err(error),
                Ok(values) => Ok(TypeExprKindView::Union(values)),
            },
            TypeExprKindView::Enum(values) => match substituted_type_members(values, 0, Seq::empty(), environment) {
                Err(error) => Err(error),
                Ok(values) => Ok(TypeExprKindView::Enum(values)),
            },
            TypeExprKindView::Interface(values) => match substituted_type_members(values, 0, Seq::empty(), environment) {
                Err(error) => Err(error),
                Ok(values) => Ok(TypeExprKindView::Interface(values)),
            },
            TypeExprKindView::Function { parameters, result } => match substituted_type_exprs(parameters, 0, Seq::empty(), environment) {
                Err(error) => Err(error),
                Ok(parameters) => match substituted_type_expr(*result, environment) {
                    Err(error) => Err(error),
                    Ok(result) => {
                        let result = Box::new(result);
                        Ok(TypeExprKindView::Function { parameters, result })
                    },
                },
            },
            TypeExprKindView::Newtype(value) => match substituted_type_expr(*value, environment) {
                Err(error) => Err(error),
                Ok(value) => {
                    let value = Box::new(value);
                    Ok(TypeExprKindView::Newtype(value))
                },
            },
            TypeExprKindView::Mutable(value) => match substituted_type_expr(*value, environment) {
                Err(error) => Err(error),
                Ok(value) => {
                    let value = Box::new(value);
                    Ok(TypeExprKindView::Mutable(value))
                },
            },
            TypeExprKindView::Reference(value) => match substituted_type_expr(*value, environment) {
                Err(error) => Err(error),
                Ok(value) => {
                    let value = Box::new(value);
                    Ok(TypeExprKindView::Reference(value))
                },
            },
            TypeExprKindView::MutableReference(value) => match substituted_type_expr(*value, environment) {
                Err(error) => Err(error),
                Ok(value) => {
                    let value = Box::new(value);
                    Ok(TypeExprKindView::MutableReference(value))
                },
            },
            TypeExprKindView::Intersect(values) => match substituted_type_exprs(values, 0, Seq::empty(), environment) {
                Err(error) => Err(error),
                Ok(values) => Ok(TypeExprKindView::Intersect(values)),
            },
            TypeExprKindView::Domain { head, arguments } => match substituted_type_exprs(arguments, 0, Seq::empty(), environment) {
                Err(error) => Err(error),
                Ok(arguments) => Ok(TypeExprKindView::Domain { head, arguments }),
            },
        } {
            Err(error) => Err(error),
            Ok(value) => Ok(Spanned { value, span: node.span, origin: node.origin }),
        }
    }
}

pub(crate) fn substitute_type_expr(
    node: &TypeExpr,
    environment: &NameMap<SyntaxFragment>,
) -> (result: Result<TypeExpr, MacroExpansionError>)
    requires
        environment.well_formed(),
    ensures
        match result {
            Ok(value) => substituted_type_expr(
                view::type_expr(*node),
                environment.fragments(),
            ) == Ok::<TypeExprView, MacroErrorView>(view::type_expr(value)),
            Err(error) => substituted_type_expr(
                view::type_expr(*node),
                environment.fragments(),
            ) == Err::<TypeExprView, MacroErrorView>(error@),
        },
    decreases node,
{
    reveal(substituted_type_expr);
    reveal(view::type_kind);
    if let TypeExprKind::Application { constructor, arguments } = &node.value {
        if same_text(constructor.value.as_str(), "unquote") && arguments.len() == 1 {
            assert(view::type_exprs(arguments@)[0] == view::type_expr(arguments@[0]));
            return match &arguments[0].value {
                TypeExprKind::Named(name) => match environment.find(name.as_str()) {
                    Some(SyntaxFragment::Type(value)) => Ok(copy::type_expr(value)),
                    Some(_) => Err(
                        wrong_category_error("unquote `", name.as_str(), "` is not type syntax", &node.origin),
                    ),
                    None => Err(unknown_binding_error("unknown unquote binding `", name.as_str(), &node.origin)),
                },
                _ => Err(malformed_error("type unquote requires one binding name", &node.origin)),
            };
        }
    }
    let value = match &node.value {
        TypeExprKind::Named(value) => Ok(TypeExprKind::Named(value.clone())),
        TypeExprKind::Application { constructor, arguments } => match substitute_type_exprs(arguments, environment) {
            Err(error) => Err(error),
            Ok(arguments) => Ok(TypeExprKind::Application { constructor: copy::name(constructor), arguments }),
        },
        TypeExprKind::Record(values) => match substitute_type_members(values, environment) {
            Err(error) => Err(error),
            Ok(values) => Ok(TypeExprKind::Record(values)),
        },
        TypeExprKind::Tuple(values) => match substitute_type_exprs(values, environment) {
            Err(error) => Err(error),
            Ok(values) => Ok(TypeExprKind::Tuple(values)),
        },
        TypeExprKind::Array(value) => match substitute_type_expr(value, environment) {
            Err(error) => Err(error),
            Ok(value) => Ok(TypeExprKind::Array(Box::new(value))),
        },
        TypeExprKind::Mapping(first, second) => match substitute_type_expr(first, environment) {
            Err(error) => Err(error),
            Ok(first) => match substitute_type_expr(second, environment) {
                Err(error) => Err(error),
                Ok(second) => Ok(TypeExprKind::Mapping(Box::new(first), Box::new(second))),
            },
        },
        TypeExprKind::Union(values) => match substitute_type_exprs(values, environment) {
            Err(error) => Err(error),
            Ok(values) => Ok(TypeExprKind::Union(values)),
        },
        TypeExprKind::Enum(values) => match substitute_type_members(values, environment) {
            Err(error) => Err(error),
            Ok(values) => Ok(TypeExprKind::Enum(values)),
        },
        TypeExprKind::Interface(values) => match substitute_type_members(values, environment) {
            Err(error) => Err(error),
            Ok(values) => Ok(TypeExprKind::Interface(values)),
        },
        TypeExprKind::Function { parameters, result } => match substitute_type_exprs(parameters, environment) {
            Err(error) => Err(error),
            Ok(parameters) => match substitute_type_expr(result, environment) {
                Err(error) => Err(error),
                Ok(result) => Ok(TypeExprKind::Function { parameters, result: Box::new(result) }),
            },
        },
        TypeExprKind::Newtype(value) => match substitute_type_expr(value, environment) {
            Err(error) => Err(error),
            Ok(value) => Ok(TypeExprKind::Newtype(Box::new(value))),
        },
        TypeExprKind::Mutable(value) => match substitute_type_expr(value, environment) {
            Err(error) => Err(error),
            Ok(value) => Ok(TypeExprKind::Mutable(Box::new(value))),
        },
        TypeExprKind::Reference(value) => match substitute_type_expr(value, environment) {
            Err(error) => Err(error),
            Ok(value) => Ok(TypeExprKind::Reference(Box::new(value))),
        },
        TypeExprKind::MutableReference(value) => match substitute_type_expr(value, environment) {
            Err(error) => Err(error),
            Ok(value) => Ok(TypeExprKind::MutableReference(Box::new(value))),
        },
        TypeExprKind::Intersect(values) => match substitute_type_exprs(values, environment) {
            Err(error) => Err(error),
            Ok(values) => Ok(TypeExprKind::Intersect(values)),
        },
        TypeExprKind::Domain { head, arguments } => match substitute_type_exprs(arguments, environment) {
            Err(error) => Err(error),
            Ok(arguments) => Ok(TypeExprKind::Domain { head: copy::name(head), arguments }),
        },
    };
    match value {
        Err(error) => Err(error),
        Ok(value) => Ok(Spanned { value, span: node.span, origin: node.origin.copy() }),
    }
}

#[verifier::opaque]
pub open spec fn substituted_optional_type_expr(
    node: Option<TypeExprView>,
    environment: Map<Seq<char>, FragmentView>,
) -> Result<Option<TypeExprView>, MacroErrorView>
    decreases node, 0int,
{
    match node {
        None => Ok(None),
        Some(inner) => match substituted_type_expr(inner, environment) {
            Err(error) => Err(error),
            Ok(inner) => Ok(Some(inner)),
        },
    }
}

fn substitute_optional_type_expr(
    node: &Option<TypeExpr>,
    environment: &NameMap<SyntaxFragment>,
) -> (result: Result<Option<TypeExpr>, MacroExpansionError>)
    requires
        environment.well_formed(),
    ensures
        match result {
            Ok(value) => substituted_optional_type_expr(match *node {
                    None => None,
                    Some(inner) => Some(view::type_expr(inner)),
                }, environment.fragments()) == Ok::<Option<TypeExprView>, MacroErrorView>(match value { None => None, Some(inner) => Some(view::type_expr(inner)) }),
            Err(error) => substituted_optional_type_expr(match *node {
                    None => None,
                    Some(inner) => Some(view::type_expr(inner)),
                }, environment.fragments()) == Err::<Option<TypeExprView>, MacroErrorView>(error@),
        },
    decreases node,
{
    reveal(substituted_optional_type_expr);
    match node {
        None => Ok(None),
        Some(inner) => {
            let inner = match substitute_type_expr(inner, environment) {
                Ok(value) => value,
                Err(error) => return Err(error),
            };
            Ok(Some(inner))
        }
    }
}

pub open spec fn substituted_type_exprs(
    nodes: Seq<TypeExprView>,
    from: int,
    done: Seq<TypeExprView>,
    environment: Map<Seq<char>, FragmentView>,
) -> Result<Seq<TypeExprView>, MacroErrorView>
    decreases nodes, nodes.len() - from,
{
    if from < 0 || from >= nodes.len() {
        Ok(done)
    } else {
        match substituted_type_expr(nodes[from], environment) {
            Err(error) => Err(error),
            Ok(value) => substituted_type_exprs(nodes, from + 1, done.push(value), environment),
        }
    }
}

fn substitute_type_exprs(
    nodes: &Vec<TypeExpr>,
    environment: &NameMap<SyntaxFragment>,
) -> (result: Result<Vec<TypeExpr>, MacroExpansionError>)
    requires
        environment.well_formed(),
    ensures
        match result {
            Ok(value) => substituted_type_exprs(
                view::type_exprs(nodes@),
                0,
                Seq::empty(),
                environment.fragments(),
            ) == Ok::<Seq<TypeExprView>, MacroErrorView>(view::type_exprs(value@)),
            Err(error) => substituted_type_exprs(
                view::type_exprs(nodes@),
                0,
                Seq::empty(),
                environment.fragments(),
            ) == Err::<Seq<TypeExprView>, MacroErrorView>(error@),
        },
    decreases nodes,
{
    reveal(substituted_type_expr);
    let ghost all = view::type_exprs(nodes@);
    let mut done: Vec<TypeExpr> = Vec::new();
    let mut i: usize = 0;
    assert(view::type_exprs(done@) =~= Seq::<TypeExprView>::empty());
    while i < nodes.len()
        invariant
            i <= nodes.len(),
            all == view::type_exprs(nodes@),
            environment.well_formed(),
            substituted_type_exprs(all, 0, Seq::empty(), environment.fragments()) == substituted_type_exprs(
                all,
                i as int,
                view::type_exprs(done@),
                environment.fragments(),
            ),
        decreases nodes.len() - i,
    {
        let ghost before = done@;
        reveal(substituted_type_expr);
        assert(all[i as int] == view::type_expr(nodes@[i as int]));
        let value = match substitute_type_expr(&nodes[i], environment) {
            Ok(value) => value,
            Err(error) => return Err(error),
        };
        done.push(value);
        proof {
            view::lemma_type_exprs_push(before, done@.last());
        }
        i += 1;
    }
    Ok(done)
}

pub open spec fn substituted_type_member(
    node: TypeMemberView,
    environment: Map<Seq<char>, FragmentView>,
) -> Result<TypeMemberView, MacroErrorView>
    decreases node, 0int,
{
    match substituted_type_expr(node.ty, environment) {
        Err(error) => Err(error),
        Ok(ty) => Ok(TypeMemberView { name: node.name, ty, span: node.span }),
    }
}

fn substitute_type_member(
    node: &TypeMember,
    environment: &NameMap<SyntaxFragment>,
) -> (result: Result<TypeMember, MacroExpansionError>)
    requires
        environment.well_formed(),
    ensures
        match result {
            Ok(value) => substituted_type_member(
                view::type_member(*node),
                environment.fragments(),
            ) == Ok::<TypeMemberView, MacroErrorView>(view::type_member(value)),
            Err(error) => substituted_type_member(
                view::type_member(*node),
                environment.fragments(),
            ) == Err::<TypeMemberView, MacroErrorView>(error@),
        },
    decreases node,
{
    reveal(substituted_type_expr);
    let ty = match substitute_type_expr(&node.ty, environment) {
        Ok(value) => value,
        Err(error) => return Err(error),
    };
    Ok(TypeMember { name: copy::name(&node.name), ty, span: node.span })
}

pub open spec fn substituted_type_members(
    nodes: Seq<TypeMemberView>,
    from: int,
    done: Seq<TypeMemberView>,
    environment: Map<Seq<char>, FragmentView>,
) -> Result<Seq<TypeMemberView>, MacroErrorView>
    decreases nodes, nodes.len() - from,
{
    if from < 0 || from >= nodes.len() {
        Ok(done)
    } else {
        match substituted_type_member(nodes[from], environment) {
            Err(error) => Err(error),
            Ok(value) => substituted_type_members(nodes, from + 1, done.push(value), environment),
        }
    }
}

fn substitute_type_members(
    nodes: &Vec<TypeMember>,
    environment: &NameMap<SyntaxFragment>,
) -> (result: Result<Vec<TypeMember>, MacroExpansionError>)
    requires
        environment.well_formed(),
    ensures
        match result {
            Ok(value) => substituted_type_members(
                view::type_members(nodes@),
                0,
                Seq::empty(),
                environment.fragments(),
            ) == Ok::<Seq<TypeMemberView>, MacroErrorView>(view::type_members(value@)),
            Err(error) => substituted_type_members(
                view::type_members(nodes@),
                0,
                Seq::empty(),
                environment.fragments(),
            ) == Err::<Seq<TypeMemberView>, MacroErrorView>(error@),
        },
    decreases nodes,
{
    reveal(substituted_type_expr);
    let ghost all = view::type_members(nodes@);
    let mut done: Vec<TypeMember> = Vec::new();
    let mut i: usize = 0;
    assert(view::type_members(done@) =~= Seq::<TypeMemberView>::empty());
    while i < nodes.len()
        invariant
            i <= nodes.len(),
            all == view::type_members(nodes@),
            environment.well_formed(),
            substituted_type_members(all, 0, Seq::empty(), environment.fragments()) == substituted_type_members(
                all,
                i as int,
                view::type_members(done@),
                environment.fragments(),
            ),
        decreases nodes.len() - i,
    {
        let ghost before = done@;
        reveal(substituted_type_expr);
        assert(all[i as int] == view::type_member(nodes@[i as int]));
        let value = match substitute_type_member(&nodes[i], environment) {
            Ok(value) => value,
            Err(error) => return Err(error),
        };
        done.push(value);
        proof {
            view::lemma_type_members_push(before, done@.last());
        }
        i += 1;
    }
    Ok(done)
}

/// The quoted pattern with its `unquote` forms replaced.
#[verifier::opaque]
pub open spec fn substituted_pattern(
    node: PatternView,
    environment: Map<Seq<char>, FragmentView>,
) -> Result<PatternView, MacroErrorView>
    decreases node, 0int,
{
    if node.value is Constructor && node.value->constructor.value
        == "unquote"@ && node.value->Constructor_arguments.len() == 1 {
        match node.value->Constructor_arguments[0].value {
            PatternKindView::Bind(name) => unquoted_pattern(node, name.value, environment),
            _ => Err(malformed("pattern unquote requires one binding name"@, node.origin)),
        }
    } else {
        match match node.value {
            PatternKindView::Literal(value) => Ok(PatternKindView::Literal(value)),
            PatternKindView::Wildcard => Ok(PatternKindView::Wildcard),
            PatternKindView::Bind(value) => Ok(PatternKindView::Bind(value)),
            PatternKindView::Constructor { constructor, arguments } => match substituted_patterns(arguments, 0, Seq::empty(), environment) {
                Err(error) => Err(error),
                Ok(arguments) => Ok(PatternKindView::Constructor { constructor, arguments }),
            },
            PatternKindView::Record(values) => match substituted_pattern_fields(values, 0, Seq::empty(), environment) {
                Err(error) => Err(error),
                Ok(values) => Ok(PatternKindView::Record(values)),
            },
            PatternKindView::Tuple(values) => match substituted_patterns(values, 0, Seq::empty(), environment) {
                Err(error) => Err(error),
                Ok(values) => Ok(PatternKindView::Tuple(values)),
            },
            PatternKindView::Array(values) => match substituted_patterns(values, 0, Seq::empty(), environment) {
                Err(error) => Err(error),
                Ok(values) => Ok(PatternKindView::Array(values)),
            },
            PatternKindView::Mapping(values) => match substituted_pattern_pairs(values, 0, Seq::empty(), environment) {
                Err(error) => Err(error),
                Ok(values) => Ok(PatternKindView::Mapping(values)),
            },
            PatternKindView::Newtype { ty, pattern } => match substituted_type_expr(ty, environment) {
                Err(error) => Err(error),
                Ok(ty) => match substituted_pattern(*pattern, environment) {
                    Err(error) => Err(error),
                    Ok(pattern) => {
                        let pattern = Box::new(pattern);
                        Ok(PatternKindView::Newtype { ty, pattern })
                    },
                },
            },
            PatternKindView::Interface { ty, pattern } => match substituted_type_expr(ty, environment) {
                Err(error) => Err(error),
                Ok(ty) => match substituted_pattern(*pattern, environment) {
                    Err(error) => Err(error),
                    Ok(pattern) => {
                        let pattern = Box::new(pattern);
                        Ok(PatternKindView::Interface { ty, pattern })
                    },
                },
            },
        } {
            Err(error) => Err(error),
            Ok(value) => Ok(Spanned { value, span: node.span, origin: node.origin }),
        }
    }
}

pub(crate) fn substitute_pattern(
    node: &Pattern,
    environment: &NameMap<SyntaxFragment>,
) -> (result: Result<Pattern, MacroExpansionError>)
    requires
        environment.well_formed(),
    ensures
        match result {
            Ok(value) => substituted_pattern(
                view::pattern(*node),
                environment.fragments(),
            ) == Ok::<PatternView, MacroErrorView>(view::pattern(value)),
            Err(error) => substituted_pattern(
                view::pattern(*node),
                environment.fragments(),
            ) == Err::<PatternView, MacroErrorView>(error@),
        },
    decreases node,
{
    reveal(substituted_pattern);
    reveal(view::pattern_kind);
    if let PatternKind::Constructor { constructor, arguments } = &node.value {
        if same_text(constructor.value.as_str(), "unquote") && arguments.len() == 1 {
            assert(view::patterns(arguments@)[0] == view::pattern(arguments@[0]));
            return match &arguments[0].value {
                PatternKind::Bind(name) => match environment.find(name.value.as_str()) {
                    Some(SyntaxFragment::Pattern(value)) => Ok(copy::pattern(value)),
                    Some(_) => Err(
                        wrong_category_error("unquote `", name.value.as_str(), "` is not pattern syntax", &node.origin),
                    ),
                    None => Err(unknown_binding_error("unknown unquote binding `", name.value.as_str(), &node.origin)),
                },
                _ => Err(malformed_error("pattern unquote requires one binding name", &node.origin)),
            };
        }
    }
    let value = match &node.value {
        PatternKind::Literal(value) => Ok(PatternKind::Literal(copy::literal(value))),
        PatternKind::Wildcard => Ok(PatternKind::Wildcard),
        PatternKind::Bind(value) => Ok(PatternKind::Bind(copy::name(value))),
        PatternKind::Constructor { constructor, arguments } => match substitute_patterns(arguments, environment) {
            Err(error) => Err(error),
            Ok(arguments) => Ok(PatternKind::Constructor { constructor: copy::name(constructor), arguments }),
        },
        PatternKind::Record(values) => match substitute_pattern_fields(values, environment) {
            Err(error) => Err(error),
            Ok(values) => Ok(PatternKind::Record(values)),
        },
        PatternKind::Tuple(values) => match substitute_patterns(values, environment) {
            Err(error) => Err(error),
            Ok(values) => Ok(PatternKind::Tuple(values)),
        },
        PatternKind::Array(values) => match substitute_patterns(values, environment) {
            Err(error) => Err(error),
            Ok(values) => Ok(PatternKind::Array(values)),
        },
        PatternKind::Mapping(values) => match substitute_pattern_pairs(values, environment) {
            Err(error) => Err(error),
            Ok(values) => Ok(PatternKind::Mapping(values)),
        },
        PatternKind::Newtype { ty, pattern } => match substitute_type_expr(ty, environment) {
            Err(error) => Err(error),
            Ok(ty) => match substitute_pattern(pattern, environment) {
                Err(error) => Err(error),
                Ok(pattern) => Ok(PatternKind::Newtype { ty, pattern: Box::new(pattern) }),
            },
        },
        PatternKind::Interface { ty, pattern } => match substitute_type_expr(ty, environment) {
            Err(error) => Err(error),
            Ok(ty) => match substitute_pattern(pattern, environment) {
                Err(error) => Err(error),
                Ok(pattern) => Ok(PatternKind::Interface { ty, pattern: Box::new(pattern) }),
            },
        },
    };
    match value {
        Err(error) => Err(error),
        Ok(value) => Ok(Spanned { value, span: node.span, origin: node.origin.copy() }),
    }
}

pub open spec fn substituted_patterns(
    nodes: Seq<PatternView>,
    from: int,
    done: Seq<PatternView>,
    environment: Map<Seq<char>, FragmentView>,
) -> Result<Seq<PatternView>, MacroErrorView>
    decreases nodes, nodes.len() - from,
{
    if from < 0 || from >= nodes.len() {
        Ok(done)
    } else {
        match substituted_pattern(nodes[from], environment) {
            Err(error) => Err(error),
            Ok(value) => substituted_patterns(nodes, from + 1, done.push(value), environment),
        }
    }
}

fn substitute_patterns(
    nodes: &Vec<Pattern>,
    environment: &NameMap<SyntaxFragment>,
) -> (result: Result<Vec<Pattern>, MacroExpansionError>)
    requires
        environment.well_formed(),
    ensures
        match result {
            Ok(value) => substituted_patterns(
                view::patterns(nodes@),
                0,
                Seq::empty(),
                environment.fragments(),
            ) == Ok::<Seq<PatternView>, MacroErrorView>(view::patterns(value@)),
            Err(error) => substituted_patterns(
                view::patterns(nodes@),
                0,
                Seq::empty(),
                environment.fragments(),
            ) == Err::<Seq<PatternView>, MacroErrorView>(error@),
        },
    decreases nodes,
{
    reveal(substituted_pattern);
    let ghost all = view::patterns(nodes@);
    let mut done: Vec<Pattern> = Vec::new();
    let mut i: usize = 0;
    assert(view::patterns(done@) =~= Seq::<PatternView>::empty());
    while i < nodes.len()
        invariant
            i <= nodes.len(),
            all == view::patterns(nodes@),
            environment.well_formed(),
            substituted_patterns(all, 0, Seq::empty(), environment.fragments()) == substituted_patterns(
                all,
                i as int,
                view::patterns(done@),
                environment.fragments(),
            ),
        decreases nodes.len() - i,
    {
        let ghost before = done@;
        reveal(substituted_pattern);
        assert(all[i as int] == view::pattern(nodes@[i as int]));
        let value = match substitute_pattern(&nodes[i], environment) {
            Ok(value) => value,
            Err(error) => return Err(error),
        };
        done.push(value);
        proof {
            view::lemma_patterns_push(before, done@.last());
        }
        i += 1;
    }
    Ok(done)
}

pub open spec fn substituted_pattern_field(
    node: PatternFieldView,
    environment: Map<Seq<char>, FragmentView>,
) -> Result<PatternFieldView, MacroErrorView>
    decreases node, 0int,
{
    match substituted_pattern(node.pattern, environment) {
        Err(error) => Err(error),
        Ok(pattern) => Ok(PatternFieldView { name: node.name, pattern, span: node.span }),
    }
}

fn substitute_pattern_field(
    node: &PatternField,
    environment: &NameMap<SyntaxFragment>,
) -> (result: Result<PatternField, MacroExpansionError>)
    requires
        environment.well_formed(),
    ensures
        match result {
            Ok(value) => substituted_pattern_field(
                view::pattern_field(*node),
                environment.fragments(),
            ) == Ok::<PatternFieldView, MacroErrorView>(view::pattern_field(value)),
            Err(error) => substituted_pattern_field(
                view::pattern_field(*node),
                environment.fragments(),
            ) == Err::<PatternFieldView, MacroErrorView>(error@),
        },
    decreases node,
{
    reveal(substituted_pattern);
    let pattern = match substitute_pattern(&node.pattern, environment) {
        Ok(value) => value,
        Err(error) => return Err(error),
    };
    Ok(PatternField { name: copy::name(&node.name), pattern, span: node.span })
}

pub open spec fn substituted_pattern_fields(
    nodes: Seq<PatternFieldView>,
    from: int,
    done: Seq<PatternFieldView>,
    environment: Map<Seq<char>, FragmentView>,
) -> Result<Seq<PatternFieldView>, MacroErrorView>
    decreases nodes, nodes.len() - from,
{
    if from < 0 || from >= nodes.len() {
        Ok(done)
    } else {
        match substituted_pattern_field(nodes[from], environment) {
            Err(error) => Err(error),
            Ok(value) => substituted_pattern_fields(nodes, from + 1, done.push(value), environment),
        }
    }
}

fn substitute_pattern_fields(
    nodes: &Vec<PatternField>,
    environment: &NameMap<SyntaxFragment>,
) -> (result: Result<Vec<PatternField>, MacroExpansionError>)
    requires
        environment.well_formed(),
    ensures
        match result {
            Ok(value) => substituted_pattern_fields(
                view::pattern_fields(nodes@),
                0,
                Seq::empty(),
                environment.fragments(),
            ) == Ok::<Seq<PatternFieldView>, MacroErrorView>(view::pattern_fields(value@)),
            Err(error) => substituted_pattern_fields(
                view::pattern_fields(nodes@),
                0,
                Seq::empty(),
                environment.fragments(),
            ) == Err::<Seq<PatternFieldView>, MacroErrorView>(error@),
        },
    decreases nodes,
{
    reveal(substituted_pattern);
    let ghost all = view::pattern_fields(nodes@);
    let mut done: Vec<PatternField> = Vec::new();
    let mut i: usize = 0;
    assert(view::pattern_fields(done@) =~= Seq::<PatternFieldView>::empty());
    while i < nodes.len()
        invariant
            i <= nodes.len(),
            all == view::pattern_fields(nodes@),
            environment.well_formed(),
            substituted_pattern_fields(all, 0, Seq::empty(), environment.fragments()) == substituted_pattern_fields(
                all,
                i as int,
                view::pattern_fields(done@),
                environment.fragments(),
            ),
        decreases nodes.len() - i,
    {
        let ghost before = done@;
        reveal(substituted_pattern);
        assert(all[i as int] == view::pattern_field(nodes@[i as int]));
        let value = match substitute_pattern_field(&nodes[i], environment) {
            Ok(value) => value,
            Err(error) => return Err(error),
        };
        done.push(value);
        proof {
            view::lemma_pattern_fields_push(before, done@.last());
        }
        i += 1;
    }
    Ok(done)
}

pub open spec fn substituted_pattern_pair(
    node: (PatternView, PatternView),
    environment: Map<Seq<char>, FragmentView>,
) -> Result<(PatternView, PatternView), MacroErrorView>
    decreases node, 0int,
{
    match substituted_pattern(node.0, environment) {
        Err(error) => Err(error),
        Ok(key) => match substituted_pattern(node.1, environment) {
            Err(error) => Err(error),
            Ok(value) => Ok((key, value)),
        },
    }
}

fn substitute_pattern_pair(
    node: &(Pattern, Pattern),
    environment: &NameMap<SyntaxFragment>,
) -> (result: Result<(Pattern, Pattern), MacroExpansionError>)
    requires
        environment.well_formed(),
    ensures
        match result {
            Ok(value) => substituted_pattern_pair(
                (view::pattern(node.0), view::pattern(node.1)),
                environment.fragments(),
            ) == Ok::<(PatternView, PatternView), MacroErrorView>((view::pattern(value.0), view::pattern(value.1))),
            Err(error) => substituted_pattern_pair(
                (view::pattern(node.0), view::pattern(node.1)),
                environment.fragments(),
            ) == Err::<(PatternView, PatternView), MacroErrorView>(error@),
        },
    decreases node,
{
    reveal(substituted_pattern);
    let key = match substitute_pattern(&node.0, environment) {
        Ok(value) => value,
        Err(error) => return Err(error),
    };
    let value = match substitute_pattern(&node.1, environment) {
        Ok(value) => value,
        Err(error) => return Err(error),
    };
    Ok((key, value))
}

pub open spec fn substituted_pattern_pairs(
    nodes: Seq<(PatternView, PatternView)>,
    from: int,
    done: Seq<(PatternView, PatternView)>,
    environment: Map<Seq<char>, FragmentView>,
) -> Result<Seq<(PatternView, PatternView)>, MacroErrorView>
    decreases nodes, nodes.len() - from,
{
    if from < 0 || from >= nodes.len() {
        Ok(done)
    } else {
        match substituted_pattern_pair(nodes[from], environment) {
            Err(error) => Err(error),
            Ok(value) => substituted_pattern_pairs(nodes, from + 1, done.push(value), environment),
        }
    }
}

fn substitute_pattern_pairs(
    nodes: &Vec<(Pattern, Pattern)>,
    environment: &NameMap<SyntaxFragment>,
) -> (result: Result<Vec<(Pattern, Pattern)>, MacroExpansionError>)
    requires
        environment.well_formed(),
    ensures
        match result {
            Ok(value) => substituted_pattern_pairs(
                view::pattern_pairs(nodes@),
                0,
                Seq::empty(),
                environment.fragments(),
            ) == Ok::<Seq<(PatternView, PatternView)>, MacroErrorView>(view::pattern_pairs(value@)),
            Err(error) => substituted_pattern_pairs(
                view::pattern_pairs(nodes@),
                0,
                Seq::empty(),
                environment.fragments(),
            ) == Err::<Seq<(PatternView, PatternView)>, MacroErrorView>(error@),
        },
    decreases nodes,
{
    reveal(substituted_pattern);
    let ghost all = view::pattern_pairs(nodes@);
    let mut done: Vec<(Pattern, Pattern)> = Vec::new();
    let mut i: usize = 0;
    assert(view::pattern_pairs(done@) =~= Seq::<(PatternView, PatternView)>::empty());
    while i < nodes.len()
        invariant
            i <= nodes.len(),
            all == view::pattern_pairs(nodes@),
            environment.well_formed(),
            substituted_pattern_pairs(all, 0, Seq::empty(), environment.fragments()) == substituted_pattern_pairs(
                all,
                i as int,
                view::pattern_pairs(done@),
                environment.fragments(),
            ),
        decreases nodes.len() - i,
    {
        let ghost before = done@;
        reveal(substituted_pattern);
        assert(all[i as int] == (view::pattern(nodes@[i as int].0), view::pattern(nodes@[i as int].1)));
        let value = match substitute_pattern_pair(&nodes[i], environment) {
            Ok(value) => value,
            Err(error) => return Err(error),
        };
        done.push(value);
        proof {
            view::lemma_pattern_pairs_push(before, done@.last());
        }
        i += 1;
    }
    Ok(done)
}

/// Bindings, sequences and control flow.
pub open spec fn substituted_control(
    value: ExprKindView,
    environment: Map<Seq<char>, FragmentView>,
    call: Origin,
) -> Result<ExprKindView, MacroErrorView>
    decreases value, 0int,
{
    match value {
        ExprKindView::Do(values) => match substituted_exprs(values, 0, Seq::empty(), environment, call) {
            Err(error) => Err(error),
            Ok(values) => Ok(ExprKindView::Do(values)),
        },
        ExprKindView::Let { name, ty, value } => match substituted_optional_type_expr(ty, environment) {
            Err(error) => Err(error),
            Ok(ty) => match substituted_expr(*value, environment, call) {
                Err(error) => Err(error),
                Ok(value) => {
                    let value = Box::new(value);
                    Ok(ExprKindView::Let { name, ty, value })
                },
            },
        },
        ExprKindView::Assign { name, value } => match substituted_expr(*value, environment, call) {
            Err(error) => Err(error),
            Ok(value) => {
                let value = Box::new(value);
                Ok(ExprKindView::Assign { name, value })
            },
        },
        ExprKindView::Return(value) => match substituted_optional_expr(value, environment, call) {
            Err(error) => Err(error),
            Ok(value) => Ok(ExprKindView::Return(value)),
        },
        ExprKindView::If { condition, then_body, else_body } => match substituted_expr(*condition, environment, call) {
            Err(error) => Err(error),
            Ok(condition) => {
                let condition = Box::new(condition);
                match substituted_exprs(then_body, 0, Seq::empty(), environment, call) {
                    Err(error) => Err(error),
                    Ok(then_body) => match substituted_exprs(else_body, 0, Seq::empty(), environment, call) {
                        Err(error) => Err(error),
                        Ok(else_body) => Ok(ExprKindView::If { condition, then_body, else_body }),
                    },
                }
            },
        },
        ExprKindView::While { condition, body } => match substituted_expr(*condition, environment, call) {
            Err(error) => Err(error),
            Ok(condition) => {
                let condition = Box::new(condition);
                match substituted_exprs(body, 0, Seq::empty(), environment, call) {
                    Err(error) => Err(error),
                    Ok(body) => Ok(ExprKindView::While { condition, body }),
                }
            },
        },
        ExprKindView::For { binding, source, body } => match substituted_expr(*source, environment, call) {
            Err(error) => Err(error),
            Ok(source) => {
                let source = Box::new(source);
                match substituted_exprs(body, 0, Seq::empty(), environment, call) {
                    Err(error) => Err(error),
                    Ok(body) => Ok(ExprKindView::For { binding, source, body }),
                }
            },
        },
        ExprKindView::Match { target, cases } => match substituted_expr(*target, environment, call) {
            Err(error) => Err(error),
            Ok(target) => {
                let target = Box::new(target);
                match substituted_match_cases(cases, 0, Seq::empty(), environment, call) {
                    Err(error) => Err(error),
                    Ok(cases) => Ok(ExprKindView::Match { target, cases }),
                }
            },
        },
        ExprKindView::Break => Ok(ExprKindView::Break),
        ExprKindView::Continue => Ok(ExprKindView::Continue),
        _ => Ok(value),
    }
}

/// Data construction and conversion.
pub open spec fn substituted_data(
    value: ExprKindView,
    environment: Map<Seq<char>, FragmentView>,
    call: Origin,
) -> Result<ExprKindView, MacroErrorView>
    decreases value, 0int,
{
    match value {
        ExprKindView::Record(values) => match substituted_expr_fields(values, 0, Seq::empty(), environment, call) {
            Err(error) => Err(error),
            Ok(values) => Ok(ExprKindView::Record(values)),
        },
        ExprKindView::Tuple(values) => match substituted_exprs(values, 0, Seq::empty(), environment, call) {
            Err(error) => Err(error),
            Ok(values) => Ok(ExprKindView::Tuple(values)),
        },
        ExprKindView::Array(values) => match substituted_exprs(values, 0, Seq::empty(), environment, call) {
            Err(error) => Err(error),
            Ok(values) => Ok(ExprKindView::Array(values)),
        },
        ExprKindView::Mapping(values) => match substituted_expr_pairs(values, 0, Seq::empty(), environment, call) {
            Err(error) => Err(error),
            Ok(values) => Ok(ExprKindView::Mapping(values)),
        },
        ExprKindView::Mutable(value) => match substituted_expr(*value, environment, call) {
            Err(error) => Err(error),
            Ok(value) => {
                let value = Box::new(value);
                Ok(ExprKindView::Mutable(value))
            },
        },
        ExprKindView::ReferenceOf(value) => match substituted_expr(*value, environment, call) {
            Err(error) => Err(error),
            Ok(value) => {
                let value = Box::new(value);
                Ok(ExprKindView::ReferenceOf(value))
            },
        },
        ExprKindView::Range(first, second, third) => match substituted_expr(*first, environment, call) {
            Err(error) => Err(error),
            Ok(first) => {
                let first = Box::new(first);
                match substituted_expr(*second, environment, call) {
                    Err(error) => Err(error),
                    Ok(second) => {
                        let second = Box::new(second);
                        match substituted_expr(*third, environment, call) {
                            Err(error) => Err(error),
                            Ok(third) => {
                                let third = Box::new(third);
                                Ok(ExprKindView::Range(first, second, third))
                            },
                        }
                    },
                }
            },
        },
        ExprKindView::Convert { value, into, fallback } => match substituted_expr(*value, environment, call) {
            Err(error) => Err(error),
            Ok(value) => {
                let value = Box::new(value);
                match substituted_type_expr(into, environment) {
                    Err(error) => Err(error),
                    Ok(into) => Ok(ExprKindView::Convert { value, into, fallback }),
                }
            },
        },
        ExprKindView::Cast { value, into } => match substituted_expr(*value, environment, call) {
            Err(error) => Err(error),
            Ok(value) => {
                let value = Box::new(value);
                match substituted_type_expr(into, environment) {
                    Err(error) => Err(error),
                    Ok(into) => Ok(ExprKindView::Cast { value, into }),
                }
            },
        },
        _ => Ok(value),
    }
}

/// References, calls and tasks.
pub open spec fn substituted_plain(
    value: ExprKindView,
    environment: Map<Seq<char>, FragmentView>,
    call: Origin,
) -> Result<ExprKindView, MacroErrorView>
    decreases value, 0int,
{
    match value {
        ExprKindView::Literal(value) => Ok(ExprKindView::Literal(value)),
        ExprKindView::Reference(value) => Ok(ExprKindView::Reference(value)),
        ExprKindView::Call { callee, arguments } => match substituted_exprs(arguments, 0, Seq::empty(), environment, call) {
            Err(error) => Err(error),
            Ok(arguments) => Ok(ExprKindView::Call { callee, arguments }),
        },
        ExprKindView::Task { captures, body } => match substituted_exprs(body, 0, Seq::empty(), environment, call) {
            Err(error) => Err(error),
            Ok(body) => Ok(ExprKindView::Task { captures, body }),
        },
        ExprKindView::Spawn { handle, captures, value } => match substituted_expr(*value, environment, call) {
            Err(error) => Err(error),
            Ok(value) => {
                let value = Box::new(value);
                Ok(ExprKindView::Spawn { handle, captures, value })
            },
        },
        ExprKindView::Join { handle, binding } => Ok(ExprKindView::Join { handle, binding }),
        _ => Ok(value),
    }
}

/// The quoted expression with its `unquote`, `capture` and `splice` forms
/// replaced.
pub open spec fn substituted_expr(
    node: ExprView,
    environment: Map<Seq<char>, FragmentView>,
    call: Origin,
) -> Result<ExprView, MacroErrorView>
    decreases node, 0int,
{
    if applies(node, "unquote"@) {
        match node.value->Call_arguments[0].value {
            ExprKindView::Reference(name) => unquoted_expr(node, name, environment),
            _ => Err(malformed("unquote requires one binding name"@, node.origin)),
        }
    } else if applies(node, "capture"@) {
        match node.value->Call_arguments[0].value {
            ExprKindView::Reference(name) => Ok(
                Spanned { value: ExprKindView::Reference(name), span: node.span, origin: call },
            ),
            _ => Err(malformed("capture requires one binding name"@, node.origin)),
        }
    } else if node.value is Call && node.value->callee.value == "splice"@ {
        Err(malformed("splice is only valid as an item in a quoted expression sequence"@, node.origin))
    } else {
        let rewritten = if node.value.is_control() {
            substituted_control(node.value, environment, call)
        } else if node.value.is_data() {
            substituted_data(node.value, environment, call)
        } else {
            substituted_plain(node.value, environment, call)
        };
        match rewritten {
            Err(error) => Err(error),
            Ok(value) => Ok(Spanned { value, span: node.span, origin: node.origin }),
        }
    }
}

fn substitute_control(
    kind: &ExprKind,
    environment: &NameMap<SyntaxFragment>,
    call: &Origin,
) -> (result: Result<ExprKind, MacroExpansionError>)
    requires
        environment.well_formed(),
        view::expr_kind(*kind).is_control(),
    ensures
        match result {
            Ok(value) => substituted_control(
                view::expr_kind(*kind),
                environment.fragments(),
                *call,
            ) == Ok::<ExprKindView, MacroErrorView>(view::expr_kind(value)),
            Err(error) => substituted_control(
                view::expr_kind(*kind),
                environment.fragments(),
                *call,
            ) == Err::<ExprKindView, MacroErrorView>(error@),
        },
    decreases kind,
{
    reveal(view::expr_kind);
    match kind {
        ExprKind::Do(values) => match substitute_exprs(values, environment, call) {
            Err(error) => Err(error),
            Ok(values) => Ok(ExprKind::Do(values)),
        },
        ExprKind::Let { name, ty, value } => match substitute_optional_type_expr(ty, environment) {
            Err(error) => Err(error),
            Ok(ty) => match substitute_expr(value, environment, call) {
                Err(error) => Err(error),
                Ok(value) => Ok(ExprKind::Let { name: copy::name(name), ty, value: Box::new(value) }),
            },
        },
        ExprKind::Assign { name, value } => match substitute_expr(value, environment, call) {
            Err(error) => Err(error),
            Ok(value) => Ok(ExprKind::Assign { name: copy::name(name), value: Box::new(value) }),
        },
        ExprKind::Return(value) => match substitute_optional_expr(value, environment, call) {
            Err(error) => Err(error),
            Ok(value) => Ok(ExprKind::Return(value)),
        },
        ExprKind::If { condition, then_body, else_body } => match substitute_expr(condition, environment, call) {
            Err(error) => Err(error),
            Ok(condition) => match substitute_exprs(then_body, environment, call) {
                Err(error) => Err(error),
                Ok(then_body) => match substitute_exprs(else_body, environment, call) {
                    Err(error) => Err(error),
                    Ok(else_body) => Ok(ExprKind::If { condition: Box::new(condition), then_body, else_body }),
                },
            },
        },
        ExprKind::While { condition, body } => match substitute_expr(condition, environment, call) {
            Err(error) => Err(error),
            Ok(condition) => match substitute_exprs(body, environment, call) {
                Err(error) => Err(error),
                Ok(body) => Ok(ExprKind::While { condition: Box::new(condition), body }),
            },
        },
        ExprKind::For { binding, source, body } => match substitute_expr(source, environment, call) {
            Err(error) => Err(error),
            Ok(source) => match substitute_exprs(body, environment, call) {
                Err(error) => Err(error),
                Ok(body) => Ok(ExprKind::For { binding: copy::name(binding), source: Box::new(source), body }),
            },
        },
        ExprKind::Match { target, cases } => match substitute_expr(target, environment, call) {
            Err(error) => Err(error),
            Ok(target) => match substitute_match_cases(cases, environment, call) {
                Err(error) => Err(error),
                Ok(cases) => Ok(ExprKind::Match { target: Box::new(target), cases }),
            },
        },
        ExprKind::Break => Ok(ExprKind::Break),
        ExprKind::Continue => Ok(ExprKind::Continue),
        _ => Ok(copy::expr_kind(kind)),
    }
}

fn substitute_data(
    kind: &ExprKind,
    environment: &NameMap<SyntaxFragment>,
    call: &Origin,
) -> (result: Result<ExprKind, MacroExpansionError>)
    requires
        environment.well_formed(),
        view::expr_kind(*kind).is_data(),
    ensures
        match result {
            Ok(value) => substituted_data(
                view::expr_kind(*kind),
                environment.fragments(),
                *call,
            ) == Ok::<ExprKindView, MacroErrorView>(view::expr_kind(value)),
            Err(error) => substituted_data(
                view::expr_kind(*kind),
                environment.fragments(),
                *call,
            ) == Err::<ExprKindView, MacroErrorView>(error@),
        },
    decreases kind,
{
    reveal(view::expr_kind);
    match kind {
        ExprKind::Record(values) => match substitute_expr_fields(values, environment, call) {
            Err(error) => Err(error),
            Ok(values) => Ok(ExprKind::Record(values)),
        },
        ExprKind::Tuple(values) => match substitute_exprs(values, environment, call) {
            Err(error) => Err(error),
            Ok(values) => Ok(ExprKind::Tuple(values)),
        },
        ExprKind::Array(values) => match substitute_exprs(values, environment, call) {
            Err(error) => Err(error),
            Ok(values) => Ok(ExprKind::Array(values)),
        },
        ExprKind::Mapping(values) => match substitute_expr_pairs(values, environment, call) {
            Err(error) => Err(error),
            Ok(values) => Ok(ExprKind::Mapping(values)),
        },
        ExprKind::Mutable(value) => match substitute_expr(value, environment, call) {
            Err(error) => Err(error),
            Ok(value) => Ok(ExprKind::Mutable(Box::new(value))),
        },
        ExprKind::ReferenceOf(value) => match substitute_expr(value, environment, call) {
            Err(error) => Err(error),
            Ok(value) => Ok(ExprKind::ReferenceOf(Box::new(value))),
        },
        ExprKind::Range(first, second, third) => match substitute_expr(first, environment, call) {
            Err(error) => Err(error),
            Ok(first) => match substitute_expr(second, environment, call) {
                Err(error) => Err(error),
                Ok(second) => match substitute_expr(third, environment, call) {
                    Err(error) => Err(error),
                    Ok(third) => Ok(ExprKind::Range(Box::new(first), Box::new(second), Box::new(third))),
                },
            },
        },
        ExprKind::Convert { value, into, fallback } => match substitute_expr(value, environment, call) {
            Err(error) => Err(error),
            Ok(value) => match substitute_type_expr(into, environment) {
                Err(error) => Err(error),
                Ok(into) => Ok(ExprKind::Convert { value: Box::new(value), into, fallback: copy::literal(fallback) }),
            },
        },
        ExprKind::Cast { value, into } => match substitute_expr(value, environment, call) {
            Err(error) => Err(error),
            Ok(value) => match substitute_type_expr(into, environment) {
                Err(error) => Err(error),
                Ok(into) => Ok(ExprKind::Cast { value: Box::new(value), into }),
            },
        },
        _ => Ok(copy::expr_kind(kind)),
    }
}

fn substitute_plain(
    kind: &ExprKind,
    environment: &NameMap<SyntaxFragment>,
    call: &Origin,
) -> (result: Result<ExprKind, MacroExpansionError>)
    requires
        environment.well_formed(),
        !view::expr_kind(*kind).is_control(),
        !view::expr_kind(*kind).is_data(),
    ensures
        match result {
            Ok(value) => substituted_plain(
                view::expr_kind(*kind),
                environment.fragments(),
                *call,
            ) == Ok::<ExprKindView, MacroErrorView>(view::expr_kind(value)),
            Err(error) => substituted_plain(
                view::expr_kind(*kind),
                environment.fragments(),
                *call,
            ) == Err::<ExprKindView, MacroErrorView>(error@),
        },
    decreases kind,
{
    reveal(view::expr_kind);
    match kind {
        ExprKind::Literal(value) => Ok(ExprKind::Literal(copy::literal(value))),
        ExprKind::Reference(value) => Ok(ExprKind::Reference(value.clone())),
        ExprKind::Call { callee, arguments } => match substitute_exprs(arguments, environment, call) {
            Err(error) => Err(error),
            Ok(arguments) => Ok(ExprKind::Call { callee: copy::name(callee), arguments }),
        },
        ExprKind::Task { captures, body } => match substitute_exprs(body, environment, call) {
            Err(error) => Err(error),
            Ok(body) => Ok(ExprKind::Task { captures: copy::names(captures), body }),
        },
        ExprKind::Spawn { handle, captures, value } => match substitute_expr(value, environment, call) {
            Err(error) => Err(error),
            Ok(value) => Ok(
                ExprKind::Spawn { handle: copy::name(handle), captures: copy::names(captures), value: Box::new(value) },
            ),
        },
        ExprKind::Join { handle, binding } => Ok(
            ExprKind::Join { handle: copy::name(handle), binding: copy::name(binding) },
        ),
        _ => Ok(copy::expr_kind(kind)),
    }
}

#[verifier::rlimit(40)]
pub(crate) fn substitute_expr(
    node: &Expr,
    environment: &NameMap<SyntaxFragment>,
    call: &Origin,
) -> (result: Result<Expr, MacroExpansionError>)
    requires
        environment.well_formed(),
    ensures
        match result {
            Ok(value) => substituted_expr(
                view::expr(*node),
                environment.fragments(),
                *call,
            ) == Ok::<ExprView, MacroErrorView>(view::expr(value)),
            Err(error) => substituted_expr(
                view::expr(*node),
                environment.fragments(),
                *call,
            ) == Err::<ExprView, MacroErrorView>(error@),
        },
    decreases node,
{
    reveal(view::expr_kind);
    if let ExprKind::Call { callee, arguments } = &node.value {
        if same_text(callee.value.as_str(), "unquote") && arguments.len() == 1 {
            assert(view::exprs(arguments@)[0] == view::expr(arguments@[0]));
            return match &arguments[0].value {
                ExprKind::Reference(name) => match environment.find(name.as_str()) {
                    Some(SyntaxFragment::Expression(value)) => Ok(copy::expr(value)),
                    Some(_) => Err(
                        wrong_category_error("unquote `", name.as_str(), "` is not expression syntax", &node.origin),
                    ),
                    None => Err(unknown_binding_error("unknown unquote binding `", name.as_str(), &node.origin)),
                },
                _ => Err(malformed_error("unquote requires one binding name", &node.origin)),
            };
        }
        if same_text(callee.value.as_str(), "capture") && arguments.len() == 1 {
            assert(view::exprs(arguments@)[0] == view::expr(arguments@[0]));
            return match &arguments[0].value {
                ExprKind::Reference(name) => Ok(
                    Spanned { value: ExprKind::Reference(name.clone()), span: node.span, origin: call.copy() },
                ),
                _ => Err(malformed_error("capture requires one binding name", &node.origin)),
            };
        }
        if same_text(callee.value.as_str(), "splice") {
            return Err(
                malformed_error("splice is only valid as an item in a quoted expression sequence", &node.origin),
            );
        }
    }
    let rewritten = if node.value.is_control() {
        substitute_control(&node.value, environment, call)
    } else if node.value.is_data() {
        substitute_data(&node.value, environment, call)
    } else {
        substitute_plain(&node.value, environment, call)
    };
    match rewritten {
        Err(error) => Err(error),
        Ok(value) => Ok(Spanned { value, span: node.span, origin: node.origin.copy() }),
    }
}

pub open spec fn substituted_optional_expr(
    node: Option<Box<ExprView>>,
    environment: Map<Seq<char>, FragmentView>,
    call: Origin,
) -> Result<Option<Box<ExprView>>, MacroErrorView>
    decreases node, 0int,
{
    match node {
        None => Ok(None),
        Some(inner) => match substituted_expr(*inner, environment, call) {
            Err(error) => Err(error),
            Ok(inner) => Ok(Some(Box::new(inner))),
        },
    }
}

fn substitute_optional_expr(
    node: &Option<Box<Expr>>,
    environment: &NameMap<SyntaxFragment>,
    call: &Origin,
) -> (result: Result<Option<Box<Expr>>, MacroExpansionError>)
    requires
        environment.well_formed(),
    ensures
        match result {
            Ok(value) => substituted_optional_expr(match *node {
                    None => None,
                    Some(inner) => Some(Box::new(view::expr(*inner))),
                }, environment.fragments(), *call) == Ok::<Option<Box<ExprView>>, MacroErrorView>(match value { None => None, Some(inner) => Some(Box::new(view::expr(*inner))) }),
            Err(error) => substituted_optional_expr(match *node {
                    None => None,
                    Some(inner) => Some(Box::new(view::expr(*inner))),
                }, environment.fragments(), *call) == Err::<Option<Box<ExprView>>, MacroErrorView>(error@),
        },
    decreases node,
{
    match node {
        None => Ok(None),
        Some(inner) => {
            let inner = match substitute_expr(inner, environment, call) {
                Ok(value) => value,
                Err(error) => return Err(error),
            };
            Ok(Some(Box::new(inner)))
        }
    }
}

pub open spec fn substituted_expr_field(
    node: ExprFieldView,
    environment: Map<Seq<char>, FragmentView>,
    call: Origin,
) -> Result<ExprFieldView, MacroErrorView>
    decreases node, 0int,
{
    match substituted_expr(node.value, environment, call) {
        Err(error) => Err(error),
        Ok(value) => Ok(ExprFieldView { name: node.name, value, span: node.span }),
    }
}

fn substitute_expr_field(
    node: &ExprField,
    environment: &NameMap<SyntaxFragment>,
    call: &Origin,
) -> (result: Result<ExprField, MacroExpansionError>)
    requires
        environment.well_formed(),
    ensures
        match result {
            Ok(value) => substituted_expr_field(
                view::expr_field(*node),
                environment.fragments(),
                *call,
            ) == Ok::<ExprFieldView, MacroErrorView>(view::expr_field(value)),
            Err(error) => substituted_expr_field(
                view::expr_field(*node),
                environment.fragments(),
                *call,
            ) == Err::<ExprFieldView, MacroErrorView>(error@),
        },
    decreases node,
{
    let value = match substitute_expr(&node.value, environment, call) {
        Ok(value) => value,
        Err(error) => return Err(error),
    };
    Ok(ExprField { name: copy::name(&node.name), value, span: node.span })
}

pub open spec fn substituted_expr_fields(
    nodes: Seq<ExprFieldView>,
    from: int,
    done: Seq<ExprFieldView>,
    environment: Map<Seq<char>, FragmentView>,
    call: Origin,
) -> Result<Seq<ExprFieldView>, MacroErrorView>
    decreases nodes, nodes.len() - from,
{
    if from < 0 || from >= nodes.len() {
        Ok(done)
    } else {
        match substituted_expr_field(nodes[from], environment, call) {
            Err(error) => Err(error),
            Ok(value) => substituted_expr_fields(nodes, from + 1, done.push(value), environment, call),
        }
    }
}

fn substitute_expr_fields(
    nodes: &Vec<ExprField>,
    environment: &NameMap<SyntaxFragment>,
    call: &Origin,
) -> (result: Result<Vec<ExprField>, MacroExpansionError>)
    requires
        environment.well_formed(),
    ensures
        match result {
            Ok(value) => substituted_expr_fields(
                view::expr_fields(nodes@),
                0,
                Seq::empty(),
                environment.fragments(),
                *call,
            ) == Ok::<Seq<ExprFieldView>, MacroErrorView>(view::expr_fields(value@)),
            Err(error) => substituted_expr_fields(
                view::expr_fields(nodes@),
                0,
                Seq::empty(),
                environment.fragments(),
                *call,
            ) == Err::<Seq<ExprFieldView>, MacroErrorView>(error@),
        },
    decreases nodes,
{
    let ghost all = view::expr_fields(nodes@);
    let mut done: Vec<ExprField> = Vec::new();
    let mut i: usize = 0;
    assert(view::expr_fields(done@) =~= Seq::<ExprFieldView>::empty());
    while i < nodes.len()
        invariant
            i <= nodes.len(),
            all == view::expr_fields(nodes@),
            environment.well_formed(),
            substituted_expr_fields(all, 0, Seq::empty(), environment.fragments(), *call) == substituted_expr_fields(
                all,
                i as int,
                view::expr_fields(done@),
                environment.fragments(),
                *call,
            ),
        decreases nodes.len() - i,
    {
        let ghost before = done@;
        assert(all[i as int] == view::expr_field(nodes@[i as int]));
        let value = match substitute_expr_field(&nodes[i], environment, call) {
            Ok(value) => value,
            Err(error) => return Err(error),
        };
        done.push(value);
        proof {
            view::lemma_expr_fields_push(before, done@.last());
        }
        i += 1;
    }
    Ok(done)
}

pub open spec fn substituted_expr_pair(
    node: (ExprView, ExprView),
    environment: Map<Seq<char>, FragmentView>,
    call: Origin,
) -> Result<(ExprView, ExprView), MacroErrorView>
    decreases node, 0int,
{
    match substituted_expr(node.0, environment, call) {
        Err(error) => Err(error),
        Ok(key) => match substituted_expr(node.1, environment, call) {
            Err(error) => Err(error),
            Ok(value) => Ok((key, value)),
        },
    }
}

fn substitute_expr_pair(
    node: &(Expr, Expr),
    environment: &NameMap<SyntaxFragment>,
    call: &Origin,
) -> (result: Result<(Expr, Expr), MacroExpansionError>)
    requires
        environment.well_formed(),
    ensures
        match result {
            Ok(value) => substituted_expr_pair(
                (view::expr(node.0), view::expr(node.1)),
                environment.fragments(),
                *call,
            ) == Ok::<(ExprView, ExprView), MacroErrorView>((view::expr(value.0), view::expr(value.1))),
            Err(error) => substituted_expr_pair(
                (view::expr(node.0), view::expr(node.1)),
                environment.fragments(),
                *call,
            ) == Err::<(ExprView, ExprView), MacroErrorView>(error@),
        },
    decreases node,
{
    let key = match substitute_expr(&node.0, environment, call) {
        Ok(value) => value,
        Err(error) => return Err(error),
    };
    let value = match substitute_expr(&node.1, environment, call) {
        Ok(value) => value,
        Err(error) => return Err(error),
    };
    Ok((key, value))
}

pub open spec fn substituted_expr_pairs(
    nodes: Seq<(ExprView, ExprView)>,
    from: int,
    done: Seq<(ExprView, ExprView)>,
    environment: Map<Seq<char>, FragmentView>,
    call: Origin,
) -> Result<Seq<(ExprView, ExprView)>, MacroErrorView>
    decreases nodes, nodes.len() - from,
{
    if from < 0 || from >= nodes.len() {
        Ok(done)
    } else {
        match substituted_expr_pair(nodes[from], environment, call) {
            Err(error) => Err(error),
            Ok(value) => substituted_expr_pairs(nodes, from + 1, done.push(value), environment, call),
        }
    }
}

fn substitute_expr_pairs(
    nodes: &Vec<(Expr, Expr)>,
    environment: &NameMap<SyntaxFragment>,
    call: &Origin,
) -> (result: Result<Vec<(Expr, Expr)>, MacroExpansionError>)
    requires
        environment.well_formed(),
    ensures
        match result {
            Ok(value) => substituted_expr_pairs(
                view::expr_pairs(nodes@),
                0,
                Seq::empty(),
                environment.fragments(),
                *call,
            ) == Ok::<Seq<(ExprView, ExprView)>, MacroErrorView>(view::expr_pairs(value@)),
            Err(error) => substituted_expr_pairs(
                view::expr_pairs(nodes@),
                0,
                Seq::empty(),
                environment.fragments(),
                *call,
            ) == Err::<Seq<(ExprView, ExprView)>, MacroErrorView>(error@),
        },
    decreases nodes,
{
    let ghost all = view::expr_pairs(nodes@);
    let mut done: Vec<(Expr, Expr)> = Vec::new();
    let mut i: usize = 0;
    assert(view::expr_pairs(done@) =~= Seq::<(ExprView, ExprView)>::empty());
    while i < nodes.len()
        invariant
            i <= nodes.len(),
            all == view::expr_pairs(nodes@),
            environment.well_formed(),
            substituted_expr_pairs(all, 0, Seq::empty(), environment.fragments(), *call) == substituted_expr_pairs(
                all,
                i as int,
                view::expr_pairs(done@),
                environment.fragments(),
                *call,
            ),
        decreases nodes.len() - i,
    {
        let ghost before = done@;
        assert(all[i as int] == (view::expr(nodes@[i as int].0), view::expr(nodes@[i as int].1)));
        let value = match substitute_expr_pair(&nodes[i], environment, call) {
            Ok(value) => value,
            Err(error) => return Err(error),
        };
        done.push(value);
        proof {
            view::lemma_expr_pairs_push(before, done@.last());
        }
        i += 1;
    }
    Ok(done)
}

pub open spec fn substituted_match_case(
    node: MatchCaseView,
    environment: Map<Seq<char>, FragmentView>,
    call: Origin,
) -> Result<MatchCaseView, MacroErrorView>
    decreases node, 0int,
{
    match substituted_pattern(node.pattern, environment) {
        Err(error) => Err(error),
        Ok(pattern) => match substituted_exprs(node.body, 0, Seq::empty(), environment, call) {
            Err(error) => Err(error),
            Ok(body) => Ok(MatchCaseView { pattern, body, span: node.span }),
        },
    }
}

fn substitute_match_case(
    node: &MatchCase,
    environment: &NameMap<SyntaxFragment>,
    call: &Origin,
) -> (result: Result<MatchCase, MacroExpansionError>)
    requires
        environment.well_formed(),
    ensures
        match result {
            Ok(value) => substituted_match_case(
                view::match_case(*node),
                environment.fragments(),
                *call,
            ) == Ok::<MatchCaseView, MacroErrorView>(view::match_case(value)),
            Err(error) => substituted_match_case(
                view::match_case(*node),
                environment.fragments(),
                *call,
            ) == Err::<MatchCaseView, MacroErrorView>(error@),
        },
    decreases node,
{
    let pattern = match substitute_pattern(&node.pattern, environment) {
        Ok(value) => value,
        Err(error) => return Err(error),
    };
    let body = match substitute_exprs(&node.body, environment, call) {
        Ok(value) => value,
        Err(error) => return Err(error),
    };
    Ok(MatchCase { pattern, body, span: node.span })
}

pub open spec fn substituted_match_cases(
    nodes: Seq<MatchCaseView>,
    from: int,
    done: Seq<MatchCaseView>,
    environment: Map<Seq<char>, FragmentView>,
    call: Origin,
) -> Result<Seq<MatchCaseView>, MacroErrorView>
    decreases nodes, nodes.len() - from,
{
    if from < 0 || from >= nodes.len() {
        Ok(done)
    } else {
        match substituted_match_case(nodes[from], environment, call) {
            Err(error) => Err(error),
            Ok(value) => substituted_match_cases(nodes, from + 1, done.push(value), environment, call),
        }
    }
}

fn substitute_match_cases(
    nodes: &Vec<MatchCase>,
    environment: &NameMap<SyntaxFragment>,
    call: &Origin,
) -> (result: Result<Vec<MatchCase>, MacroExpansionError>)
    requires
        environment.well_formed(),
    ensures
        match result {
            Ok(value) => substituted_match_cases(
                view::match_cases(nodes@),
                0,
                Seq::empty(),
                environment.fragments(),
                *call,
            ) == Ok::<Seq<MatchCaseView>, MacroErrorView>(view::match_cases(value@)),
            Err(error) => substituted_match_cases(
                view::match_cases(nodes@),
                0,
                Seq::empty(),
                environment.fragments(),
                *call,
            ) == Err::<Seq<MatchCaseView>, MacroErrorView>(error@),
        },
    decreases nodes,
{
    let ghost all = view::match_cases(nodes@);
    let mut done: Vec<MatchCase> = Vec::new();
    let mut i: usize = 0;
    assert(view::match_cases(done@) =~= Seq::<MatchCaseView>::empty());
    while i < nodes.len()
        invariant
            i <= nodes.len(),
            all == view::match_cases(nodes@),
            environment.well_formed(),
            substituted_match_cases(all, 0, Seq::empty(), environment.fragments(), *call) == substituted_match_cases(
                all,
                i as int,
                view::match_cases(done@),
                environment.fragments(),
                *call,
            ),
        decreases nodes.len() - i,
    {
        let ghost before = done@;
        assert(all[i as int] == view::match_case(nodes@[i as int]));
        let value = match substitute_match_case(&nodes[i], environment, call) {
            Ok(value) => value,
            Err(error) => return Err(error),
        };
        done.push(value);
        proof {
            view::lemma_match_cases_push(before, done@.last());
        }
        i += 1;
    }
    Ok(done)
}

/// The items that a spliced expression contributes to a sequence.
pub open spec fn spliced(value: ExprView) -> Seq<ExprView> {
    match value.value {
        ExprKindView::Do(values) => values,
        _ => seq![value],
    }
}

fn splice_items(value: &Expr) -> (result: Vec<Expr>)
    ensures
        view::exprs(result@) == spliced(view::expr(*value)),
{
    reveal(view::expr_kind);
    match &value.value {
        ExprKind::Do(values) => copy::exprs(values),
        _ => {
            let mut result: Vec<Expr> = Vec::new();
            result.push(copy::expr(value));
            assert(view::exprs(result@) =~= seq![view::expr(*value)]);
            result
        }
    }
}

pub open spec fn substituted_exprs(
    nodes: Seq<ExprView>,
    from: int,
    done: Seq<ExprView>,
    environment: Map<Seq<char>, FragmentView>,
    call: Origin,
) -> Result<Seq<ExprView>, MacroErrorView>
    decreases nodes, nodes.len() - from,
{
    if from < 0 || from >= nodes.len() {
        Ok(done)
    } else {
        match splice_name(nodes[from]) {
            Some(name) => if environment.dom().contains(name) {
                match environment[name] {
                    FragmentView::Expression(value) => substituted_exprs(
                        nodes,
                        from + 1,
                        done + spliced(value),
                        environment,
                        call,
                    ),
                    _ => Err(wrong_category("splice `"@, name, "` is not expression syntax"@, nodes[from].origin)),
                }
            } else {
                Err(unknown_binding("unknown splice binding `"@, name, nodes[from].origin))
            },
            None => match substituted_expr(nodes[from], environment, call) {
                Err(error) => Err(error),
                Ok(value) => substituted_exprs(nodes, from + 1, done.push(value), environment, call),
            },
        }
    }
}

fn substitute_exprs(
    nodes: &Vec<Expr>,
    environment: &NameMap<SyntaxFragment>,
    call: &Origin,
) -> (result: Result<Vec<Expr>, MacroExpansionError>)
    requires
        environment.well_formed(),
    ensures
        match result {
            Ok(value) => substituted_exprs(
                view::exprs(nodes@),
                0,
                Seq::empty(),
                environment.fragments(),
                *call,
            ) == Ok::<Seq<ExprView>, MacroErrorView>(view::exprs(value@)),
            Err(error) => substituted_exprs(
                view::exprs(nodes@),
                0,
                Seq::empty(),
                environment.fragments(),
                *call,
            ) == Err::<Seq<ExprView>, MacroErrorView>(error@),
        },
    decreases nodes,
{
    let ghost all = view::exprs(nodes@);
    let mut done: Vec<Expr> = Vec::new();
    let mut i: usize = 0;
    assert(view::exprs(done@) =~= Seq::<ExprView>::empty());
    while i < nodes.len()
        invariant
            i <= nodes.len(),
            all == view::exprs(nodes@),
            environment.well_formed(),
            substituted_exprs(all, 0, Seq::empty(), environment.fragments(), *call) == substituted_exprs(
                all,
                i as int,
                view::exprs(done@),
                environment.fragments(),
                *call,
            ),
        decreases nodes.len() - i,
    {
        let ghost before = done@;
        assert(all[i as int] == view::expr(nodes@[i as int]));
        match splice_of(&nodes[i]) {
            Some(name) => match environment.find(name.as_str()) {
                Some(SyntaxFragment::Expression(value)) => {
                    let mut items = splice_items(value);
                    let ghost added = items@;
                    done.append(&mut items);
                    assert(view::exprs(done@) =~= view::exprs(before) + view::exprs(added));
                }
                Some(_) => {
                    return Err(
                        wrong_category_error("splice `", name.as_str(), "` is not expression syntax", &nodes[i].origin),
                    );
                }
                None => {
                    return Err(unknown_binding_error("unknown splice binding `", name.as_str(), &nodes[i].origin));
                }
            },
            None => {
                let value = match substitute_expr(&nodes[i], environment, call) {
                    Ok(value) => value,
                    Err(error) => return Err(error),
                };
                done.push(value);
                proof {
                    view::lemma_exprs_push(before, done@.last());
                }
            }
        }
        i += 1;
    }
    Ok(done)
}

} // verus!
