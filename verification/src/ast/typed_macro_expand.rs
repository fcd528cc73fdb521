//! Deterministic macro expansion over the typed surface tree.
use vstd::prelude::*;
use crate::ast::annotate::{self, annotate_expr, annotate_pattern, annotate_type_expr};
use crate::ast::copy;
use crate::ast::evaluate::{self, category_error, invoke, Invocation, InvocationView};
use crate::ast::expansion_state::{
    ExpansionState, FragmentView, SyntaxFragment, TYPED_MACRO_MAX_EXPANSION_DEPTH,
};
use crate::ast::macro_error::{MacroErrorView, MacroExpansionError};
use crate::ast::surface::{
    Constant, Definition, Expr, ExprField, ExprKind, Function, Macro, MatchCase, Module, Origin, Parameter, Pattern,
    PatternField, PatternKind, Spanned, SyntaxCategory, Test, TopLevel, TypeExpr, TypeExprKind, TypeMember,
    Visibility,
};
use crate::ast::view::{
    self, ConstantView, DefinitionView, ExprFieldView, ExprKindView, ExprView, FunctionView, MacroView, MatchCaseView,
    ModuleView, ParameterView, PatternFieldView, PatternKindView, PatternView, TestView, TopLevelView,
    TypeExprKindView,
    TypeExprView, TypeMemberView,
};
use crate::names::{has_name, NameMap};
use crate::text::{concat_five, concat_three, decimal_text, owned, same_text};

verus! {

/// A macro that a module can call.
pub struct MacroEntry<'a> {
    pub definition: &'a Macro,
    pub symbols: &'a Vec<String>,
    pub alias: Option<&'a String>,
}

/// What a [`MacroEntry`] holds.
pub struct MacroEntryView {
    pub definition: MacroView,
    pub symbols: Set<Seq<char>>,
    pub alias: Option<Seq<char>>,
}

impl MacroEntryView {
    pub open spec fn invocation(self, call: Origin) -> InvocationView {
        InvocationView { definition: self.definition, call, alias: self.alias, symbols: self.symbols }
    }

    /// Why a call of this macro is refused outright.
    pub open spec fn refusal(self, name: Seq<char>, depth: nat, too_deep: Seq<char>, call: Origin) -> Option<MacroErrorView> {
        if self.alias is Some && self.definition.visibility == Visibility::Private {
            Some(
                MacroErrorView::at("E-MACRO-010"@, "macro `"@ + name + "` is private"@, call).with_related(
                    "private macro defined here"@,
                    self.definition.origin,
                ),
            )
        } else if depth >= TYPED_MACRO_MAX_EXPANSION_DEPTH {
            Some(
                MacroErrorView::at("E-MACRO-006"@, too_deep, call).with_related(
                    "macro defined here"@,
                    self.definition.origin,
                ),
            )
        } else {
            None
        }
    }
}

impl<'a> MacroEntry<'a> {
    pub open spec fn view(&self) -> MacroEntryView {
        MacroEntryView {
            definition: view::macro_definition(*self.definition),
            symbols: crate::names::name_set(self.symbols@),
            alias: match self.alias {
                Some(alias) => Some(alias@),
                None => None,
            },
        }
    }

    fn check_call(
        &self,
        name: &str,
        depth: usize,
        too_deep: String,
        call: &Origin,
    ) -> (result: Result<(), MacroExpansionError>)
        ensures
            match result {
                Ok(_) => self@.refusal(
                    name@,
                    depth as nat,
                    too_deep@,
                    *call,
                ) is None && depth < TYPED_MACRO_MAX_EXPANSION_DEPTH,
                Err(error) => self@.refusal(name@, depth as nat, too_deep@, *call) == Some(error@),
            },
    {
        if self.alias.is_some() && self.definition.visibility == Visibility::Private {
            return Err(
                MacroExpansionError::at("E-MACRO-010", concat_three("macro `", name, "` is private"), call).related(
                    "private macro defined here",
                    &self.definition.origin,
                ),
            );
        }
        if depth >= TYPED_MACRO_MAX_EXPANSION_DEPTH {
            return Err(
                MacroExpansionError::at("E-MACRO-006", too_deep, call).related(
                    "macro defined here",
                    &self.definition.origin,
                ),
            );
        }
        Ok(())
    }

    fn call(&self, arguments: Vec<SyntaxFragment>, call: &Origin, state: &mut ExpansionState) -> (result: Result<
        SyntaxFragment,
        MacroExpansionError,
        >)
        ensures
            match result {
                Ok(value) => evaluate::invoked(
                    self@.invocation(*call),
                    evaluate::fragment_views(arguments@),
                    *old(state),
                ) == Ok::<(FragmentView, ExpansionState), MacroErrorView>((value@, *final(state))),
                Err(error) => evaluate::invoked(
                    self@.invocation(*call),
                    evaluate::fragment_views(arguments@),
                    *old(state),
                ) == Err::<(FragmentView, ExpansionState), MacroErrorView>(error@),
            },
    {
        let invocation = Invocation { definition: self.definition, call, alias: self.alias, symbols: self.symbols };
        assert(invocation@ == self@.invocation(*call));
        invoke(&invocation, arguments, state)
    }
}

impl<'a> NameMap<MacroEntry<'a>> {
    /// The macros by the name under which the module calls them.
    pub open spec fn entries(&self) -> Map<Seq<char>, MacroEntryView> {
        self@.map_values(|entry: MacroEntry<'a>| entry@)
    }

    fn entry(&self, key: &str) -> (result: Option<&MacroEntry<'a>>)
        requires
            self.well_formed(),
        ensures
            match result {
                Some(entry) => self.entries().dom().contains(key@) && entry@ == self.entries()[key@],
                None => !self.entries().dom().contains(key@),
            },
    {
        self.get(key)
    }

    fn bind_entry(&mut self, key: String, entry: MacroEntry<'a>)
        requires
            old(self).well_formed(),
        ensures
            final(self).well_formed(),
            final(self).entries() == old(self).entries().insert(key@, entry@),
    {
        let ghost before = self.entries();
        let ghost name = key@;
        let ghost held = entry@;
        self.insert(key, entry);
        assert(self.entries() =~= before.insert(name, held));
    }
}

/// The refusal of an expression macro that expands too deeply.
pub open spec fn depth_message(name: Seq<char>) -> Seq<char> {
    "macro expansion depth exceeded "@ + crate::text::decimal(TYPED_MACRO_MAX_EXPANSION_DEPTH as nat) + " at `"@ + name
    + "`"@
}

fn depth_text(name: &str) -> (text: String)
    ensures
        text@ == depth_message(name@),
{
    let limit = decimal_text(TYPED_MACRO_MAX_EXPANSION_DEPTH as u64);
    concat_five("macro expansion depth exceeded ", limit.as_str(), " at `", name, "`")
}

pub open spec fn expr_arguments(arguments: Seq<ExprView>) -> Seq<FragmentView> {
    Seq::new(arguments.len(), |i: int| FragmentView::Expression(arguments[i]))
}

fn expr_fragments(arguments: &Vec<Expr>) -> (result: Vec<SyntaxFragment>)
    ensures
        evaluate::fragment_views(result@) == expr_arguments(view::exprs(arguments@)),
{
    let mut result: Vec<SyntaxFragment> = Vec::new();
    let mut i: usize = 0;
    while i < arguments.len()
        invariant
            i <= arguments.len(),
            result@.len() == i,
            forall|j: int| 0 <= j < i ==> (#[trigger] result@[j])@ == FragmentView::Expression(
                view::expr(arguments@[j]),
            ),
        decreases arguments.len() - i,
    {
        result.push(SyntaxFragment::Expression(copy::expr(&arguments[i])));
        i += 1;
    }
    assert(evaluate::fragment_views(result@) =~= expr_arguments(view::exprs(arguments@)));
    result
}

pub open spec fn type_expr_arguments(arguments: Seq<TypeExprView>) -> Seq<FragmentView> {
    Seq::new(arguments.len(), |i: int| FragmentView::Type(arguments[i]))
}

fn type_expr_fragments(arguments: &Vec<TypeExpr>) -> (result: Vec<SyntaxFragment>)
    ensures
        evaluate::fragment_views(result@) == type_expr_arguments(view::type_exprs(arguments@)),
{
    let mut result: Vec<SyntaxFragment> = Vec::new();
    let mut i: usize = 0;
    while i < arguments.len()
        invariant
            i <= arguments.len(),
            result@.len() == i,
            forall|j: int| 0 <= j < i ==> (#[trigger] result@[j])@ == FragmentView::Type(
                view::type_expr(arguments@[j]),
            ),
        decreases arguments.len() - i,
    {
        result.push(SyntaxFragment::Type(copy::type_expr(&arguments[i])));
        i += 1;
    }
    assert(evaluate::fragment_views(result@) =~= type_expr_arguments(view::type_exprs(arguments@)));
    result
}

pub open spec fn pattern_arguments(arguments: Seq<PatternView>) -> Seq<FragmentView> {
    Seq::new(arguments.len(), |i: int| FragmentView::Pattern(arguments[i]))
}

fn pattern_fragments(arguments: &Vec<Pattern>) -> (result: Vec<SyntaxFragment>)
    ensures
        evaluate::fragment_views(result@) == pattern_arguments(view::patterns(arguments@)),
{
    let mut result: Vec<SyntaxFragment> = Vec::new();
    let mut i: usize = 0;
    while i < arguments.len()
        invariant
            i <= arguments.len(),
            result@.len() == i,
            forall|j: int| 0 <= j < i ==> (#[trigger] result@[j])@ == FragmentView::Pattern(
                view::pattern(arguments@[j]),
            ),
        decreases arguments.len() - i,
    {
        result.push(SyntaxFragment::Pattern(copy::pattern(&arguments[i])));
        i += 1;
    }
    assert(evaluate::fragment_views(result@) =~= pattern_arguments(view::patterns(arguments@)));
    result
}

/// The type with its macro applications expanded.
#[verifier::opaque]
pub open spec fn expanded_type_expr(
    node: TypeExprView,
    table: Map<Seq<char>, MacroEntryView>,
    depth: nat,
    state: ExpansionState,
) -> Result<(TypeExprView, ExpansionState), MacroErrorView>
    decreases TYPED_MACRO_MAX_EXPANSION_DEPTH - depth, node, 0int,
{
    if node.value is Application && table.dom().contains(node.value->constructor.value) {
        let name = node.value->constructor.value;
        let entry = table[name];
        match entry.refusal(name, depth, "macro expansion depth exceeded"@, node.origin) {
            Some(error) => Err(error),
            None => match evaluate::invoked(entry.invocation(node.origin), type_expr_arguments(node.value->Application_arguments), state) {
                Err(error) => Err(error),
                Ok((FragmentView::Type(value), state)) => match annotate::annotated_type_expr(
                    value,
                    entry.definition.span,
                    entry.definition.origin,
                    node.origin,
                    state,
                ) {
                    Err(error) => Err(error),
                    Ok((value, state)) => expanded_type_expr(value, table, depth + 1, state),
                },
                Ok(_) => Err(evaluate::category_failure(entry.definition, SyntaxCategory::Type, node.origin)),
            },
        }
    } else {
        match match node.value {
            TypeExprKindView::Named(value) => Ok((TypeExprKindView::Named(value), state)),
            TypeExprKindView::Application { constructor, arguments } => match expanded_type_exprs(arguments, 0, Seq::empty(), table, depth, state) {
                Err(error) => Err(error),
                Ok((arguments, state)) => Ok((TypeExprKindView::Application { constructor, arguments }, state)),
            },
            TypeExprKindView::Record(values) => match expanded_type_members(values, 0, Seq::empty(), table, depth, state) {
                Err(error) => Err(error),
                Ok((values, state)) => Ok((TypeExprKindView::Record(values), state)),
            },
            TypeExprKindView::Tuple(values) => match expanded_type_exprs(values, 0, Seq::empty(), table, depth, state) {
                Err(error) => Err(error),
                Ok((values, state)) => Ok((TypeExprKindView::Tuple(values), state)),
            },
            TypeExprKindView::Array(value) => match expanded_type_expr(*value, table, depth, state) {
                Err(error) => Err(error),
                Ok((value, state)) => {
                    let value = Box::new(value);
                    Ok((TypeExprKindView::Array(value), state))
                },
            },
            TypeExprKindView::Mapping(first, second) => match expanded_type_expr(*first, table, depth, state) {
                Err(error) => Err(error),
                Ok((first, state)) => {
                    let first = Box::new(first);
                    match expanded_type_expr(*second, table, depth, state) {
                        Err(error) => Err(error),
                        Ok((second, state)) => {
                            let second = Box::new(second);
                            Ok((TypeExprKindView::Mapping(first, second), state))
                        },
                    }
                },
            },
            TypeExprKindView::Union(values) => match expanded_type_exprs(values, 0, Seq::empty(), table, depth, state) {
                Err(error) => Err(error),
                Ok((values, state)) => Ok((TypeExprKindView::Union(values), state)),
            },
            TypeExprKindView::Enum(values) => match expanded_type_members(values, 0, Seq::empty(), table, depth, state) {
                Err(error) => Err(error),
                Ok((values, state)) => Ok((TypeExprKindView::Enum(values), state)),
            },
            TypeExprKindView::Interface(values) => match expanded_type_members(values, 0, Seq::empty(), table, depth, state) {
                Err(error) => Err(error),
                Ok((values, state)) => Ok((TypeExprKindView::Interface(values), state)),
            },
            TypeExprKindView::Function { parameters, result } => match expanded_type_exprs(parameters, 0, Seq::empty(), table, depth, state) {
                Err(error) => Err(error),
                Ok((parameters, state)) => match expanded_type_expr(*result, table, depth, state) {
                    Err(error) => Err(error),
                    Ok((result, state)) => {
                        let result = Box::new(result);
                        Ok((TypeExprKindView::Function { parameters, result }, state))
                    },
                },
            },
            TypeExprKindView::Newtype(value) => match expanded_type_expr(*value, table, depth, state) {
                Err(error) => Err(error),
                Ok((value, state)) => {
                    let value = Box::new(value);
                    Ok((TypeExprKindView::Newtype(value), state))
                },
            },
            TypeExprKindView::Mutable(value) => match expanded_type_expr(*value, table, depth, state) {
                Err(error) => Err(error),
                Ok((value, state)) => {
                    let value = Box::new(value);
                    Ok((TypeExprKindView::Mutable(value), state))
                },
            },
            TypeExprKindView::Reference(value) => match expanded_type_expr(*value, table, depth, state) {
                Err(error) => Err(error),
                Ok((value, state)) => {
                    let value = Box::new(value);
                    Ok((TypeExprKindView::Reference(value), state))
                },
            },
            TypeExprKindView::MutableReference(value) => match expanded_type_expr(*value, table, depth, state) {
                Err(error) => Err(error),
                Ok((value, state)) => {
                    let value = Box::new(value);
                    Ok((TypeExprKindView::MutableReference(value), state))
                },
            },
            TypeExprKindView::Intersect(values) => match expanded_type_exprs(values, 0, Seq::empty(), table, depth, state) {
                Err(error) => Err(error),
                Ok((values, state)) => Ok((TypeExprKindView::Intersect(values), state)),
            },
            TypeExprKindView::Domain { head, arguments } => match expanded_type_exprs(arguments, 0, Seq::empty(), table, depth, state) {
                Err(error) => Err(error),
                Ok((arguments, state)) => Ok((TypeExprKindView::Domain { head, arguments }, state)),
            },
        } {
            Err(error) => Err(error),
            Ok((value, state)) => Ok((Spanned { value, span: node.span, origin: node.origin }, state)),
        }
    }
}

fn expand_type_expr(
    node: &TypeExpr,
    macros: &NameMap<MacroEntry>,
    depth: usize,
    state: &mut ExpansionState,
) -> (result: Result<TypeExpr, MacroExpansionError>)
    requires
        macros.well_formed(),
    ensures
        match result {
            Ok(value) => expanded_type_expr(
                view::type_expr(*node),
                macros.entries(),
                depth as nat,
                *old(state),
            ) == Ok::<(TypeExprView, ExpansionState), MacroErrorView>((view::type_expr(value), *final(state))),
            Err(error) => expanded_type_expr(
                view::type_expr(*node),
                macros.entries(),
                depth as nat,
                *old(state),
            ) == Err::<(TypeExprView, ExpansionState), MacroErrorView>(error@),
        },
    decreases TYPED_MACRO_MAX_EXPANSION_DEPTH - depth, node,
{
    reveal(expanded_type_expr);
    reveal(view::type_kind);
    if let TypeExprKind::Application { constructor, arguments } = &node.value {
        if let Some(entry) = macros.entry(constructor.value.as_str()) {
            match entry.check_call(constructor.value.as_str(), depth, owned("macro expansion depth exceeded"), &node.origin) {
                Ok(_) => {}
                Err(error) => return Err(error),
            }
            let fragment = match entry.call(type_expr_fragments(arguments), &node.origin, state) {
                Ok(value) => value,
                Err(error) => return Err(error),
            };
            return match fragment {
                SyntaxFragment::Type(value) => {
                    let value = match annotate_type_expr(&value, entry.definition, &node.origin, state) {
                        Ok(value) => value,
                        Err(error) => return Err(error),
                    };
                    expand_type_expr(&value, macros, depth + 1, state)
                }
                _ => Err(category_error(entry.definition, SyntaxCategory::Type, &node.origin)),
            };
        }
    }
    let value = match &node.value {
        TypeExprKind::Named(value) => Ok(TypeExprKind::Named(value.clone())),
        TypeExprKind::Application { constructor, arguments } => match expand_type_exprs(arguments, macros, depth, state) {
            Err(error) => Err(error),
            Ok(arguments) => Ok(TypeExprKind::Application { constructor: copy::name(constructor), arguments }),
        },
        TypeExprKind::Record(values) => match expand_type_members(values, macros, depth, state) {
            Err(error) => Err(error),
            Ok(values) => Ok(TypeExprKind::Record(values)),
        },
        TypeExprKind::Tuple(values) => match expand_type_exprs(values, macros, depth, state) {
            Err(error) => Err(error),
            Ok(values) => Ok(TypeExprKind::Tuple(values)),
        },
        TypeExprKind::Array(value) => match expand_type_expr(value, macros, depth, state) {
            Err(error) => Err(error),
            Ok(value) => Ok(TypeExprKind::Array(Box::new(value))),
        },
        TypeExprKind::Mapping(first, second) => match expand_type_expr(first, macros, depth, state) {
            Err(error) => Err(error),
            Ok(first) => match expand_type_expr(second, macros, depth, state) {
                Err(error) => Err(error),
                Ok(second) => Ok(TypeExprKind::Mapping(Box::new(first), Box::new(second))),
            },
        },
        TypeExprKind::Union(values) => match expand_type_exprs(values, macros, depth, state) {
            Err(error) => Err(error),
            Ok(values) => Ok(TypeExprKind::Union(values)),
        },
        TypeExprKind::Enum(values) => match expand_type_members(values, macros, depth, state) {
            Err(error) => Err(error),
            Ok(values) => Ok(TypeExprKind::Enum(values)),
        },
        TypeExprKind::Interface(values) => match expand_type_members(values, macros, depth, state) {
            Err(error) => Err(error),
            Ok(values) => Ok(TypeExprKind::Interface(values)),
        },
        TypeExprKind::Function { parameters, result } => match expand_type_exprs(parameters, macros, depth, state) {
            Err(error) => Err(error),
            Ok(parameters) => match expand_type_expr(result, macros, depth, state) {
                Err(error) => Err(error),
                Ok(result) => Ok(TypeExprKind::Function { parameters, result: Box::new(result) }),
            },
        },
        TypeExprKind::Newtype(value) => match expand_type_expr(value, macros, depth, state) {
            Err(error) => Err(error),
            Ok(value) => Ok(TypeExprKind::Newtype(Box::new(value))),
        },
        TypeExprKind::Mutable(value) => match expand_type_expr(value, macros, depth, state) {
            Err(error) => Err(error),
            Ok(value) => Ok(TypeExprKind::Mutable(Box::new(value))),
        },
        TypeExprKind::Reference(value) => match expand_type_expr(value, macros, depth, state) {
            Err(error) => Err(error),
            Ok(value) => Ok(TypeExprKind::Reference(Box::new(value))),
        },
        TypeExprKind::MutableReference(value) => match expand_type_expr(value, macros, depth, state) {
            Err(error) => Err(error),
            Ok(value) => Ok(TypeExprKind::MutableReference(Box::new(value))),
        },
        TypeExprKind::Intersect(values) => match expand_type_exprs(values, macros, depth, state) {
            Err(error) => Err(error),
            Ok(values) => Ok(TypeExprKind::Intersect(values)),
        },
        TypeExprKind::Domain { head, arguments } => match expand_type_exprs(arguments, macros, depth, state) {
            Err(error) => Err(error),
            Ok(arguments) => Ok(TypeExprKind::Domain { head: copy::name(head), arguments }),
        },
    };
    match value {
        Err(error) => Err(error),
        Ok(value) => Ok(Spanned { value, span: node.span, origin: node.origin.copy() }),
    }
}

#[verifier::opaque]
pub open spec fn expanded_optional_type_expr(
    node: Option<TypeExprView>,
    table: Map<Seq<char>, MacroEntryView>,
    depth: nat,
    state: ExpansionState,
) -> Result<(Option<TypeExprView>, ExpansionState), MacroErrorView>
    decreases TYPED_MACRO_MAX_EXPANSION_DEPTH - depth, node, 0int,
{
    match node {
        None => Ok((None, state)),
        Some(inner) => match expanded_type_expr(inner, table, depth, state) {
            Err(error) => Err(error),
            Ok((inner, state)) => Ok((Some(inner), state)),
        },
    }
}

fn expand_optional_type_expr(
    node: &Option<TypeExpr>,
    macros: &NameMap<MacroEntry>,
    depth: usize,
    state: &mut ExpansionState,
) -> (result: Result<Option<TypeExpr>, MacroExpansionError>)
    requires
        macros.well_formed(),
    ensures
        match result {
            Ok(value) => expanded_optional_type_expr(match *node {
                    None => None,
                    Some(inner) => Some(view::type_expr(inner)),
                }, macros.entries(), depth as nat, *old(state)) == Ok::<(Option<TypeExprView>, ExpansionState), MacroErrorView>((match value { None => None, Some(inner) => Some(view::type_expr(inner)) }, *final(state))),
            Err(error) => expanded_optional_type_expr(match *node {
                    None => None,
                    Some(inner) => Some(view::type_expr(inner)),
                }, macros.entries(), depth as nat, *old(state)) == Err::<(Option<TypeExprView>, ExpansionState), MacroErrorView>(error@),
        },
    decreases TYPED_MACRO_MAX_EXPANSION_DEPTH - depth, node,
{
    reveal(expanded_optional_type_expr);
    match node {
        None => Ok(None),
        Some(inner) => {
            let inner = match expand_type_expr(inner, macros, depth, state) {
                Ok(value) => value,
                Err(error) => return Err(error),
            };
            Ok(Some(inner))
        }
    }
}

pub open spec fn expanded_type_exprs(
    nodes: Seq<TypeExprView>,
    from: int,
    done: Seq<TypeExprView>,
    table: Map<Seq<char>, MacroEntryView>,
    depth: nat,
    state: ExpansionState,
) -> Result<(Seq<TypeExprView>, ExpansionState), MacroErrorView>
    decreases TYPED_MACRO_MAX_EXPANSION_DEPTH - depth, nodes, nodes.len() - from,
{
    if from < 0 || from >= nodes.len() {
        Ok((done, state))
    } else {
        match expanded_type_expr(nodes[from], table, depth, state) {
            Err(error) => Err(error),
            Ok((value, state)) => expanded_type_exprs(nodes, from + 1, done.push(value), table, depth, state),
        }
    }
}

fn expand_type_exprs(
    nodes: &Vec<TypeExpr>,
    macros: &NameMap<MacroEntry>,
    depth: usize,
    state: &mut ExpansionState,
) -> (result: Result<Vec<TypeExpr>, MacroExpansionError>)
    requires
        macros.well_formed(),
    ensures
        match result {
            Ok(value) => expanded_type_exprs(
                view::type_exprs(nodes@),
                0,
                Seq::empty(),
                macros.entries(),
                depth as nat,
                *old(state),
            ) == Ok::<(Seq<TypeExprView>, ExpansionState), MacroErrorView>((view::type_exprs(value@), *final(state))),
            Err(error) => expanded_type_exprs(
                view::type_exprs(nodes@),
                0,
                Seq::empty(),
                macros.entries(),
                depth as nat,
                *old(state),
            ) == Err::<(Seq<TypeExprView>, ExpansionState), MacroErrorView>(error@),
        },
    decreases TYPED_MACRO_MAX_EXPANSION_DEPTH - depth, nodes,
{
    reveal(expanded_type_expr);
    let ghost start = *state;
    let ghost all = view::type_exprs(nodes@);
    let mut done: Vec<TypeExpr> = Vec::new();
    let mut i: usize = 0;
    assert(view::type_exprs(done@) =~= Seq::<TypeExprView>::empty());
    while i < nodes.len()
        invariant
            i <= nodes.len(),
            all == view::type_exprs(nodes@),
            start == *old(state),
            macros.well_formed(),
            expanded_type_exprs(all, 0, Seq::empty(), macros.entries(), depth as nat, start) == expanded_type_exprs(
                all,
                i as int,
                view::type_exprs(done@),
                macros.entries(),
                depth as nat,
                *state,
            ),
        decreases nodes.len() - i,
    {
        let ghost before = done@;
        reveal(expanded_type_expr);
        assert(all[i as int] == view::type_expr(nodes@[i as int]));
        let value = match expand_type_expr(&nodes[i], macros, depth, state) {
            Ok(value) => value,
            Err(error) => return Err(error),
        };
        done.push(value);
        proof {
            view::lemma_type_exprs_push(before, done@.last());
        }
        i += 1;
    }
    Ok(done)
}

pub open spec fn expanded_type_member(
    node: TypeMemberView,
    table: Map<Seq<char>, MacroEntryView>,
    depth: nat,
    state: ExpansionState,
) -> Result<(TypeMemberView, ExpansionState), MacroErrorView>
    decreases TYPED_MACRO_MAX_EXPANSION_DEPTH - depth, node, 0int,
{
    match expanded_type_expr(node.ty, table, depth, state) {
        Err(error) => Err(error),
        Ok((ty, state)) => Ok((TypeMemberView { name: node.name, ty, span: node.span }, state)),
    }
}

fn expand_type_member(
    node: &TypeMember,
    macros: &NameMap<MacroEntry>,
    depth: usize,
    state: &mut ExpansionState,
) -> (result: Result<TypeMember, MacroExpansionError>)
    requires
        macros.well_formed(),
    ensures
        match result {
            Ok(value) => expanded_type_member(
                view::type_member(*node),
                macros.entries(),
                depth as nat,
                *old(state),
            ) == Ok::<(TypeMemberView, ExpansionState), MacroErrorView>((view::type_member(value), *final(state))),
            Err(error) => expanded_type_member(
                view::type_member(*node),
                macros.entries(),
                depth as nat,
                *old(state),
            ) == Err::<(TypeMemberView, ExpansionState), MacroErrorView>(error@),
        },
    decreases TYPED_MACRO_MAX_EXPANSION_DEPTH - depth, node,
{
    reveal(expanded_type_expr);
    let ty = match expand_type_expr(&node.ty, macros, depth, state) {
        Ok(value) => value,
        Err(error) => return Err(error),
    };
    Ok(TypeMember { name: copy::name(&node.name), ty, span: node.span })
}

pub open spec fn expanded_type_members(
    nodes: Seq<TypeMemberView>,
    from: int,
    done: Seq<TypeMemberView>,
    table: Map<Seq<char>, MacroEntryView>,
    depth: nat,
    state: ExpansionState,
) -> Result<(Seq<TypeMemberView>, ExpansionState), MacroErrorView>
    decreases TYPED_MACRO_MAX_EXPANSION_DEPTH - depth, nodes, nodes.len() - from,
{
    if from < 0 || from >= nodes.len() {
        Ok((done, state))
    } else {
        match expanded_type_member(nodes[from], table, depth, state) {
            Err(error) => Err(error),
            Ok((value, state)) => expanded_type_members(nodes, from + 1, done.push(value), table, depth, state),
        }
    }
}

fn expand_type_members(
    nodes: &Vec<TypeMember>,
    macros: &NameMap<MacroEntry>,
    depth: usize,
    state: &mut ExpansionState,
) -> (result: Result<Vec<TypeMember>, MacroExpansionError>)
    requires
        macros.well_formed(),
    ensures
        match result {
            Ok(value) => expanded_type_members(
                view::type_members(nodes@),
                0,
                Seq::empty(),
                macros.entries(),
                depth as nat,
                *old(state),
            ) == Ok::<(Seq<TypeMemberView>, ExpansionState), MacroErrorView>((view::type_members(value@), *final(state))),
            Err(error) => expanded_type_members(
                view::type_members(nodes@),
                0,
                Seq::empty(),
                macros.entries(),
                depth as nat,
                *old(state),
            ) == Err::<(Seq<TypeMemberView>, ExpansionState), MacroErrorView>(error@),
        },
    decreases TYPED_MACRO_MAX_EXPANSION_DEPTH - depth, nodes,
{
    reveal(expanded_type_expr);
    let ghost start = *state;
    let ghost all = view::type_members(nodes@);
    let mut done: Vec<TypeMember> = Vec::new();
    let mut i: usize = 0;
    assert(view::type_members(done@) =~= Seq::<TypeMemberView>::empty());
    while i < nodes.len()
        invariant
            i <= nodes.len(),
            all == view::type_members(nodes@),
            start == *old(state),
            macros.well_formed(),
            expanded_type_members(all, 0, Seq::empty(), macros.entries(), depth as nat, start)
                == expanded_type_members(
                all,
                i as int,
                view::type_members(done@),
                macros.entries(),
                depth as nat,
                *state,
            ),
        decreases nodes.len() - i,
    {
        let ghost before = done@;
        reveal(expanded_type_expr);
        assert(all[i as int] == view::type_member(nodes@[i as int]));
        let value = match expand_type_member(&nodes[i], macros, depth, state) {
            Ok(value) => value,
            Err(error) => return Err(error),
        };
        done.push(value);
        proof {
            view::lemma_type_members_push(before, done@.last());
        }
        i += 1;
    }
    Ok(done)
}

/// The pattern with its macro constructors expanded.
#[verifier::opaque]
pub open spec fn expanded_pattern(
    node: PatternView,
    table: Map<Seq<char>, MacroEntryView>,
    depth: nat,
    state: ExpansionState,
) -> Result<(PatternView, ExpansionState), MacroErrorView>
    decreases TYPED_MACRO_MAX_EXPANSION_DEPTH - depth, node, 0int,
{
    if node.value is Constructor && table.dom().contains(node.value->constructor.value) {
        let name = node.value->constructor.value;
        let entry = table[name];
        match entry.refusal(name, depth, "macro expansion depth exceeded"@, node.origin) {
            Some(error) => Err(error),
            None => match evaluate::invoked(entry.invocation(node.origin), pattern_arguments(node.value->Constructor_arguments), state) {
                Err(error) => Err(error),
                Ok((FragmentView::Pattern(value), state)) => match annotate::annotated_pattern(
                    value,
                    entry.definition.span,
                    entry.definition.origin,
                    node.origin,
                    state,
                ) {
                    Err(error) => Err(error),
                    Ok((value, state)) => expanded_pattern(value, table, depth + 1, state),
                },
                Ok(_) => Err(evaluate::category_failure(entry.definition, SyntaxCategory::Pattern, node.origin)),
            },
        }
    } else {
        match match node.value {
            PatternKindView::Literal(value) => Ok((PatternKindView::Literal(value), state)),
            PatternKindView::Wildcard => Ok((PatternKindView::Wildcard, state)),
            PatternKindView::Bind(value) => Ok((PatternKindView::Bind(value), state)),
            PatternKindView::Constructor { constructor, arguments } => match expanded_patterns(arguments, 0, Seq::empty(), table, depth, state) {
                Err(error) => Err(error),
                Ok((arguments, state)) => Ok((PatternKindView::Constructor { constructor, arguments }, state)),
            },
            PatternKindView::Record(values) => match expanded_pattern_fields(values, 0, Seq::empty(), table, depth, state) {
                Err(error) => Err(error),
                Ok((values, state)) => Ok((PatternKindView::Record(values), state)),
            },
            PatternKindView::Tuple(values) => match expanded_patterns(values, 0, Seq::empty(), table, depth, state) {
                Err(error) => Err(error),
                Ok((values, state)) => Ok((PatternKindView::Tuple(values), state)),
            },
            PatternKindView::Array(values) => match expanded_patterns(values, 0, Seq::empty(), table, depth, state) {
                Err(error) => Err(error),
                Ok((values, state)) => Ok((PatternKindView::Array(values), state)),
            },
            PatternKindView::Mapping(values) => match expanded_pattern_pairs(values, 0, Seq::empty(), table, depth, state) {
                Err(error) => Err(error),
                Ok((values, state)) => Ok((PatternKindView::Mapping(values), state)),
            },
            PatternKindView::Newtype { ty, pattern } => match expanded_type_expr(ty, table, depth, state) {
                Err(error) => Err(error),
                Ok((ty, state)) => match expanded_pattern(*pattern, table, depth, state) {
                    Err(error) => Err(error),
                    Ok((pattern, state)) => {
                        let pattern = Box::new(pattern);
                        Ok((PatternKindView::Newtype { ty, pattern }, state))
                    },
                },
            },
            PatternKindView::Interface { ty, pattern } => match expanded_type_expr(ty, table, depth, state) {
                Err(error) => Err(error),
                Ok((ty, state)) => match expanded_pattern(*pattern, table, depth, state) {
                    Err(error) => Err(error),
                    Ok((pattern, state)) => {
                        let pattern = Box::new(pattern);
                        Ok((PatternKindView::Interface { ty, pattern }, state))
                    },
                },
            },
        } {
            Err(error) => Err(error),
            Ok((value, state)) => Ok((Spanned { value, span: node.span, origin: node.origin }, state)),
        }
    }
}

fn expand_pattern(
    node: &Pattern,
    macros: &NameMap<MacroEntry>,
    depth: usize,
    state: &mut ExpansionState,
) -> (result: Result<Pattern, MacroExpansionError>)
    requires
        macros.well_formed(),
    ensures
        match result {
            Ok(value) => expanded_pattern(
                view::pattern(*node),
                macros.entries(),
                depth as nat,
                *old(state),
            ) == Ok::<(PatternView, ExpansionState), MacroErrorView>((view::pattern(value), *final(state))),
            Err(error) => expanded_pattern(
                view::pattern(*node),
                macros.entries(),
                depth as nat,
                *old(state),
            ) == Err::<(PatternView, ExpansionState), MacroErrorView>(error@),
        },
    decreases TYPED_MACRO_MAX_EXPANSION_DEPTH - depth, node,
{
    reveal(expanded_pattern);
    reveal(view::pattern_kind);
    if let PatternKind::Constructor { constructor, arguments } = &node.value {
        if let Some(entry) = macros.entry(constructor.value.as_str()) {
            match entry.check_call(constructor.value.as_str(), depth, owned("macro expansion depth exceeded"), &node.origin) {
                Ok(_) => {}
                Err(error) => return Err(error),
            }
            let fragment = match entry.call(pattern_fragments(arguments), &node.origin, state) {
                Ok(value) => value,
                Err(error) => return Err(error),
            };
            return match fragment {
                SyntaxFragment::Pattern(value) => {
                    let value = match annotate_pattern(&value, entry.definition, &node.origin, state) {
                        Ok(value) => value,
                        Err(error) => return Err(error),
                    };
                    expand_pattern(&value, macros, depth + 1, state)
                }
                _ => Err(category_error(entry.definition, SyntaxCategory::Pattern, &node.origin)),
            };
        }
    }
    let value = match &node.value {
        PatternKind::Literal(value) => Ok(PatternKind::Literal(copy::literal(value))),
        PatternKind::Wildcard => Ok(PatternKind::Wildcard),
        PatternKind::Bind(value) => Ok(PatternKind::Bind(copy::name(value))),
        PatternKind::Constructor { constructor, arguments } => match expand_patterns(arguments, macros, depth, state) {
            Err(error) => Err(error),
            Ok(arguments) => Ok(PatternKind::Constructor { constructor: copy::name(constructor), arguments }),
        },
        PatternKind::Record(values) => match expand_pattern_fields(values, macros, depth, state) {
            Err(error) => Err(error),
            Ok(values) => Ok(PatternKind::Record(values)),
        },
        PatternKind::Tuple(values) => match expand_patterns(values, macros, depth, state) {
            Err(error) => Err(error),
            Ok(values) => Ok(PatternKind::Tuple(values)),
        },
        PatternKind::Array(values) => match expand_patterns(values, macros, depth, state) {
            Err(error) => Err(error),
            Ok(values) => Ok(PatternKind::Array(values)),
        },
        PatternKind::Mapping(values) => match expand_pattern_pairs(values, macros, depth, state) {
            Err(error) => Err(error),
            Ok(values) => Ok(PatternKind::Mapping(values)),
        },
        PatternKind::Newtype { ty, pattern } => match expand_type_expr(ty, macros, depth, state) {
            Err(error) => Err(error),
            Ok(ty) => match expand_pattern(pattern, macros, depth, state) {
                Err(error) => Err(error),
                Ok(pattern) => Ok(PatternKind::Newtype { ty, pattern: Box::new(pattern) }),
            },
        },
        PatternKind::Interface { ty, pattern } => match expand_type_expr(ty, macros, depth, state) {
            Err(error) => Err(error),
            Ok(ty) => match expand_pattern(pattern, macros, depth, state) {
                Err(error) => Err(error),
                Ok(pattern) => Ok(PatternKind::Interface { ty, pattern: Box::new(pattern) }),
            },
        },
    };
    match value {
        Err(error) => Err(error),
        Ok(value) => Ok(Spanned { value, span: node.span, origin: node.origin.copy() }),
    }
}

pub open spec fn expanded_patterns(
    nodes: Seq<PatternView>,
    from: int,
    done: Seq<PatternView>,
    table: Map<Seq<char>, MacroEntryView>,
    depth: nat,
    state: ExpansionState,
) -> Result<(Seq<PatternView>, ExpansionState), MacroErrorView>
    decreases TYPED_MACRO_MAX_EXPANSION_DEPTH - depth, nodes, nodes.len() - from,
{
    if from < 0 || from >= nodes.len() {
        Ok((done, state))
    } else {
        match expanded_pattern(nodes[from], table, depth, state) {
            Err(error) => Err(error),
            Ok((value, state)) => expanded_patterns(nodes, from + 1, done.push(value), table, depth, state),
        }
    }
}

fn expand_patterns(
    nodes: &Vec<Pattern>,
    macros: &NameMap<MacroEntry>,
    depth: usize,
    state: &mut ExpansionState,
) -> (result: Result<Vec<Pattern>, MacroExpansionError>)
    requires
        macros.well_formed(),
    ensures
        match result {
            Ok(value) => expanded_patterns(
                view::patterns(nodes@),
                0,
                Seq::empty(),
                macros.entries(),
                depth as nat,
                *old(state),
            ) == Ok::<(Seq<PatternView>, ExpansionState), MacroErrorView>((view::patterns(value@), *final(state))),
            Err(error) => expanded_patterns(
                view::patterns(nodes@),
                0,
                Seq::empty(),
                macros.entries(),
                depth as nat,
                *old(state),
            ) == Err::<(Seq<PatternView>, ExpansionState), MacroErrorView>(error@),
        },
    decreases TYPED_MACRO_MAX_EXPANSION_DEPTH - depth, nodes,
{
    reveal(expanded_pattern);
    let ghost start = *state;
    let ghost all = view::patterns(nodes@);
    let mut done: Vec<Pattern> = Vec::new();
    let mut i: usize = 0;
    assert(view::patterns(done@) =~= Seq::<PatternView>::empty());
    while i < nodes.len()
        invariant
            i <= nodes.len(),
            all == view::patterns(nodes@),
            start == *old(state),
            macros.well_formed(),
            expanded_patterns(all, 0, Seq::empty(), macros.entries(), depth as nat, start) == expanded_patterns(
                all,
                i as int,
                view::patterns(done@),
                macros.entries(),
                depth as nat,
                *state,
            ),
        decreases nodes.len() - i,
    {
        let ghost before = done@;
        reveal(expanded_pattern);
        assert(all[i as int] == view::pattern(nodes@[i as int]));
        let value = match expand_pattern(&nodes[i], macros, depth, state) {
            Ok(value) => value,
            Err(error) => return Err(error),
        };
        done.push(value);
        proof {
            view::lemma_patterns_push(before, done@.last());
        }
        i += 1;
    }
    Ok(done)
}

pub open spec fn expanded_pattern_field(
    node: PatternFieldView,
    table: Map<Seq<char>, MacroEntryView>,
    depth: nat,
    state: ExpansionState,
) -> Result<(PatternFieldView, ExpansionState), MacroErrorView>
    decreases TYPED_MACRO_MAX_EXPANSION_DEPTH - depth, node, 0int,
{
    match expanded_pattern(node.pattern, table, depth, state) {
        Err(error) => Err(error),
        Ok((pattern, state)) => Ok((PatternFieldView { name: node.name, pattern, span: node.span }, state)),
    }
}

fn expand_pattern_field(
    node: &PatternField,
    macros: &NameMap<MacroEntry>,
    depth: usize,
    state: &mut ExpansionState,
) -> (result: Result<PatternField, MacroExpansionError>)
    requires
        macros.well_formed(),
    ensures
        match result {
            Ok(value) => expanded_pattern_field(
                view::pattern_field(*node),
                macros.entries(),
                depth as nat,
                *old(state),
            ) == Ok::<(PatternFieldView, ExpansionState), MacroErrorView>((view::pattern_field(value), *final(state))),
            Err(error) => expanded_pattern_field(
                view::pattern_field(*node),
                macros.entries(),
                depth as nat,
                *old(state),
            ) == Err::<(PatternFieldView, ExpansionState), MacroErrorView>(error@),
        },
    decreases TYPED_MACRO_MAX_EXPANSION_DEPTH - depth, node,
{
    reveal(expanded_pattern);
    let pattern = match expand_pattern(&node.pattern, macros, depth, state) {
        Ok(value) => value,
        Err(error) => return Err(error),
    };
    Ok(PatternField { name: copy::name(&node.name), pattern, span: node.span })
}

pub open spec fn expanded_pattern_fields(
    nodes: Seq<PatternFieldView>,
    from: int,
    done: Seq<PatternFieldView>,
    table: Map<Seq<char>, MacroEntryView>,
    depth: nat,
    state: ExpansionState,
) -> Result<(Seq<PatternFieldView>, ExpansionState), MacroErrorView>
    decreases TYPED_MACRO_MAX_EXPANSION_DEPTH - depth, nodes, nodes.len() - from,
{
    if from < 0 || from >= nodes.len() {
        Ok((done, state))
    } else {
        match expanded_pattern_field(nodes[from], table, depth, state) {
            Err(error) => Err(error),
            Ok((value, state)) => expanded_pattern_fields(nodes, from + 1, done.push(value), table, depth, state),
        }
    }
}

fn expand_pattern_fields(
    nodes: &Vec<PatternField>,
    macros: &NameMap<MacroEntry>,
    depth: usize,
    state: &mut ExpansionState,
) -> (result: Result<Vec<PatternField>, MacroExpansionError>)
    requires
        macros.well_formed(),
    ensures
        match result {
            Ok(value) => expanded_pattern_fields(
                view::pattern_fields(nodes@),
                0,
                Seq::empty(),
                macros.entries(),
                depth as nat,
                *old(state),
            ) == Ok::<(Seq<PatternFieldView>, ExpansionState), MacroErrorView>((view::pattern_fields(value@), *final(state))),
            Err(error) => expanded_pattern_fields(
                view::pattern_fields(nodes@),
                0,
                Seq::empty(),
                macros.entries(),
                depth as nat,
                *old(state),
            ) == Err::<(Seq<PatternFieldView>, ExpansionState), MacroErrorView>(error@),
        },
    decreases TYPED_MACRO_MAX_EXPANSION_DEPTH - depth, nodes,
{
    reveal(expanded_pattern);
    let ghost start = *state;
    let ghost all = view::pattern_fields(nodes@);
    let mut done: Vec<PatternField> = Vec::new();
    let mut i: usize = 0;
    assert(view::pattern_fields(done@) =~= Seq::<PatternFieldView>::empty());
    while i < nodes.len()
        invariant
            i <= nodes.len(),
            all == view::pattern_fields(nodes@),
            start == *old(state),
            macros.well_formed(),
            expanded_pattern_fields(all, 0, Seq::empty(), macros.entries(), depth as nat, start)
                == expanded_pattern_fields(
                all,
                i as int,
                view::pattern_fields(done@),
                macros.entries(),
                depth as nat,
                *state,
            ),
        decreases nodes.len() - i,
    {
        let ghost before = done@;
        reveal(expanded_pattern);
        assert(all[i as int] == view::pattern_field(nodes@[i as int]));
        let value = match expand_pattern_field(&nodes[i], macros, depth, state) {
            Ok(value) => value,
            Err(error) => return Err(error),
        };
        done.push(value);
        proof {
            view::lemma_pattern_fields_push(before, done@.last());
        }
        i += 1;
    }
    Ok(done)
}

pub open spec fn expanded_pattern_pair(
    node: (PatternView, PatternView),
    table: Map<Seq<char>, MacroEntryView>,
    depth: nat,
    state: ExpansionState,
) -> Result<((PatternView, PatternView), ExpansionState), MacroErrorView>
    decreases TYPED_MACRO_MAX_EXPANSION_DEPTH - depth, node, 0int,
{
    match expanded_pattern(node.0, table, depth, state) {
        Err(error) => Err(error),
        Ok((key, state)) => match expanded_pattern(node.1, table, depth, state) {
            Err(error) => Err(error),
            Ok((value, state)) => Ok(((key, value), state)),
        },
    }
}

fn expand_pattern_pair(
    node: &(Pattern, Pattern),
    macros: &NameMap<MacroEntry>,
    depth: usize,
    state: &mut ExpansionState,
) -> (result: Result<(Pattern, Pattern), MacroExpansionError>)
    requires
        macros.well_formed(),
    ensures
        match result {
            Ok(value) => expanded_pattern_pair(
                (view::pattern(node.0), view::pattern(node.1)),
                macros.entries(),
                depth as nat,
                *old(state),
            ) == Ok::<((PatternView, PatternView), ExpansionState), MacroErrorView>(((view::pattern(value.0), view::pattern(value.1)), *final(state))),
            Err(error) => expanded_pattern_pair(
                (view::pattern(node.0), view::pattern(node.1)),
                macros.entries(),
                depth as nat,
                *old(state),
            ) == Err::<((PatternView, PatternView), ExpansionState), MacroErrorView>(error@),
        },
    decreases TYPED_MACRO_MAX_EXPANSION_DEPTH - depth, node,
{
    reveal(expanded_pattern);
    let key = match expand_pattern(&node.0, macros, depth, state) {
        Ok(value) => value,
        Err(error) => return Err(error),
    };
    let value = match expand_pattern(&node.1, macros, depth, state) {
        Ok(value) => value,
        Err(error) => return Err(error),
    };
    Ok((key, value))
}

pub open spec fn expanded_pattern_pairs(
    nodes: Seq<(PatternView, PatternView)>,
    from: int,
    done: Seq<(PatternView, PatternView)>,
    table: Map<Seq<char>, MacroEntryView>,
    depth: nat,
    state: ExpansionState,
) -> Result<(Seq<(PatternView, PatternView)>, ExpansionState), MacroErrorView>
    decreases TYPED_MACRO_MAX_EXPANSION_DEPTH - depth, nodes, nodes.len() - from,
{
    if from < 0 || from >= nodes.len() {
        Ok((done, state))
    } else {
        match expanded_pattern_pair(nodes[from], table, depth, state) {
            Err(error) => Err(error),
            Ok((value, state)) => expanded_pattern_pairs(nodes, from + 1, done.push(value), table, depth, state),
        }
    }
}

fn expand_pattern_pairs(
    nodes: &Vec<(Pattern, Pattern)>,
    macros: &NameMap<MacroEntry>,
    depth: usize,
    state: &mut ExpansionState,
) -> (result: Result<Vec<(Pattern, Pattern)>, MacroExpansionError>)
    requires
        macros.well_formed(),
    ensures
        match result {
            Ok(value) => expanded_pattern_pairs(
                view::pattern_pairs(nodes@),
                0,
                Seq::empty(),
                macros.entries(),
                depth as nat,
                *old(state),
            ) == Ok::<(Seq<(PatternView, PatternView)>, ExpansionState), MacroErrorView>((view::pattern_pairs(value@), *final(state))),
            Err(error) => expanded_pattern_pairs(
                view::pattern_pairs(nodes@),
                0,
                Seq::empty(),
                macros.entries(),
                depth as nat,
                *old(state),
            ) == Err::<(Seq<(PatternView, PatternView)>, ExpansionState), MacroErrorView>(error@),
        },
    decreases TYPED_MACRO_MAX_EXPANSION_DEPTH - depth, nodes,
{
    reveal(expanded_pattern);
    let ghost start = *state;
    let ghost all = view::pattern_pairs(nodes@);
    let mut done: Vec<(Pattern, Pattern)> = Vec::new();
    let mut i: usize = 0;
    assert(view::pattern_pairs(done@) =~= Seq::<(PatternView, PatternView)>::empty());
    while i < nodes.len()
        invariant
            i <= nodes.len(),
            all == view::pattern_pairs(nodes@),
            start == *old(state),
            macros.well_formed(),
            expanded_pattern_pairs(all, 0, Seq::empty(), macros.entries(), depth as nat, start)
                == expanded_pattern_pairs(
                all,
                i as int,
                view::pattern_pairs(done@),
                macros.entries(),
                depth as nat,
                *state,
            ),
        decreases nodes.len() - i,
    {
        let ghost before = done@;
        reveal(expanded_pattern);
        assert(all[i as int] == (view::pattern(nodes@[i as int].0), view::pattern(nodes@[i as int].1)));
        let value = match expand_pattern_pair(&nodes[i], macros, depth, state) {
            Ok(value) => value,
            Err(error) => return Err(error),
        };
        done.push(value);
        proof {
            view::lemma_pattern_pairs_push(before, done@.last());
        }
        i += 1;
    }
    Ok(done)
}

/// Bindings, sequences and control flow.
pub open spec fn expanded_control(
    value: ExprKindView,
    table: Map<Seq<char>, MacroEntryView>,
    depth: nat,
    state: ExpansionState,
) -> Result<(ExprKindView, ExpansionState), MacroErrorView>
    decreases TYPED_MACRO_MAX_EXPANSION_DEPTH - depth, value, 0int,
{
    match value {
        ExprKindView::Do(values) => match expanded_exprs(values, 0, Seq::empty(), table, depth, state) {
            Err(error) => Err(error),
            Ok((values, state)) => Ok((ExprKindView::Do(values), state)),
        },
        ExprKindView::Let { name, ty, value } => match expanded_optional_type_expr(ty, table, depth, state) {
            Err(error) => Err(error),
            Ok((ty, state)) => match expanded_expr(*value, table, depth, state) {
                Err(error) => Err(error),
                Ok((value, state)) => {
                    let value = Box::new(value);
                    Ok((ExprKindView::Let { name, ty, value }, state))
                },
            },
        },
        ExprKindView::Assign { name, value } => match expanded_expr(*value, table, depth, state) {
            Err(error) => Err(error),
            Ok((value, state)) => {
                let value = Box::new(value);
                Ok((ExprKindView::Assign { name, value }, state))
            },
        },
        ExprKindView::Return(value) => match expanded_optional_expr(value, table, depth, state) {
            Err(error) => Err(error),
            Ok((value, state)) => Ok((ExprKindView::Return(value), state)),
        },
        ExprKindView::If { condition, then_body, else_body } => match expanded_expr(*condition, table, depth, state) {
            Err(error) => Err(error),
            Ok((condition, state)) => {
                let condition = Box::new(condition);
                match expanded_exprs(then_body, 0, Seq::empty(), table, depth, state) {
                    Err(error) => Err(error),
                    Ok((then_body, state)) => match expanded_exprs(else_body, 0, Seq::empty(), table, depth, state) {
                        Err(error) => Err(error),
                        Ok((else_body, state)) => Ok((ExprKindView::If { condition, then_body, else_body }, state)),
                    },
                }
            },
        },
        ExprKindView::While { condition, body } => match expanded_expr(*condition, table, depth, state) {
            Err(error) => Err(error),
            Ok((condition, state)) => {
                let condition = Box::new(condition);
                match expanded_exprs(body, 0, Seq::empty(), table, depth, state) {
                    Err(error) => Err(error),
                    Ok((body, state)) => Ok((ExprKindView::While { condition, body }, state)),
                }
            },
        },
        ExprKindView::For { binding, source, body } => match expanded_expr(*source, table, depth, state) {
            Err(error) => Err(error),
            Ok((source, state)) => {
                let source = Box::new(source);
                match expanded_exprs(body, 0, Seq::empty(), table, depth, state) {
                    Err(error) => Err(error),
                    Ok((body, state)) => Ok((ExprKindView::For { binding, source, body }, state)),
                }
            },
        },
        ExprKindView::Match { target, cases } => match expanded_expr(*target, table, depth, state) {
            Err(error) => Err(error),
            Ok((target, state)) => {
                let target = Box::new(target);
                match expanded_match_cases(cases, 0, Seq::empty(), table, depth, state) {
                    Err(error) => Err(error),
                    Ok((cases, state)) => Ok((ExprKindView::Match { target, cases }, state)),
                }
            },
        },
        ExprKindView::Break => Ok((ExprKindView::Break, state)),
        ExprKindView::Continue => Ok((ExprKindView::Continue, state)),
        _ => Ok((value, state)),
    }
}

/// Data construction and conversion.
pub open spec fn expanded_data(
    value: ExprKindView,
    table: Map<Seq<char>, MacroEntryView>,
    depth: nat,
    state: ExpansionState,
) -> Result<(ExprKindView, ExpansionState), MacroErrorView>
    decreases TYPED_MACRO_MAX_EXPANSION_DEPTH - depth, value, 0int,
{
    match value {
        ExprKindView::Record(values) => match expanded_expr_fields(values, 0, Seq::empty(), table, depth, state) {
            Err(error) => Err(error),
            Ok((values, state)) => Ok((ExprKindView::Record(values), state)),
        },
        ExprKindView::Tuple(values) => match expanded_exprs(values, 0, Seq::empty(), table, depth, state) {
            Err(error) => Err(error),
            Ok((values, state)) => Ok((ExprKindView::Tuple(values), state)),
        },
        ExprKindView::Array(values) => match expanded_exprs(values, 0, Seq::empty(), table, depth, state) {
            Err(error) => Err(error),
            Ok((values, state)) => Ok((ExprKindView::Array(values), state)),
        },
        ExprKindView::Mapping(values) => match expanded_expr_pairs(values, 0, Seq::empty(), table, depth, state) {
            Err(error) => Err(error),
            Ok((values, state)) => Ok((ExprKindView::Mapping(values), state)),
        },
        ExprKindView::Mutable(value) => match expanded_expr(*value, table, depth, state) {
            Err(error) => Err(error),
            Ok((value, state)) => {
                let value = Box::new(value);
                Ok((ExprKindView::Mutable(value), state))
            },
        },
        ExprKindView::ReferenceOf(value) => match expanded_expr(*value, table, depth, state) {
            Err(error) => Err(error),
            Ok((value, state)) => {
                let value = Box::new(value);
                Ok((ExprKindView::ReferenceOf(value), state))
            },
        },
        ExprKindView::Range(first, second, third) => match expanded_expr(*first, table, depth, state) {
            Err(error) => Err(error),
            Ok((first, state)) => {
                let first = Box::new(first);
                match expanded_expr(*second, table, depth, state) {
                    Err(error) => Err(error),
                    Ok((second, state)) => {
                        let second = Box::new(second);
                        match expanded_expr(*third, table, depth, state) {
                            Err(error) => Err(error),
                            Ok((third, state)) => {
                                let third = Box::new(third);
                                Ok((ExprKindView::Range(first, second, third), state))
                            },
                        }
                    },
                }
            },
        },
        ExprKindView::Convert { value, into, fallback } => match expanded_expr(*value, table, depth, state) {
            Err(error) => Err(error),
            Ok((value, state)) => {
                let value = Box::new(value);
                match expanded_type_expr(into, table, depth, state) {
                    Err(error) => Err(error),
                    Ok((into, state)) => Ok((ExprKindView::Convert { value, into, fallback }, state)),
                }
            },
        },
        ExprKindView::Cast { value, into } => match expanded_expr(*value, table, depth, state) {
            Err(error) => Err(error),
            Ok((value, state)) => {
                let value = Box::new(value);
                match expanded_type_expr(into, table, depth, state) {
                    Err(error) => Err(error),
                    Ok((into, state)) => Ok((ExprKindView::Cast { value, into }, state)),
                }
            },
        },
        _ => Ok((value, state)),
    }
}

/// References, calls and tasks.
pub open spec fn expanded_plain(
    value: ExprKindView,
    table: Map<Seq<char>, MacroEntryView>,
    depth: nat,
    state: ExpansionState,
) -> Result<(ExprKindView, ExpansionState), MacroErrorView>
    decreases TYPED_MACRO_MAX_EXPANSION_DEPTH - depth, value, 0int,
{
    match value {
        ExprKindView::Literal(value) => Ok((ExprKindView::Literal(value), state)),
        ExprKindView::Reference(value) => Ok((ExprKindView::Reference(value), state)),
        ExprKindView::Call { callee, arguments } => match expanded_exprs(arguments, 0, Seq::empty(), table, depth, state) {
            Err(error) => Err(error),
            Ok((arguments, state)) => Ok((ExprKindView::Call { callee, arguments }, state)),
        },
        ExprKindView::Task { captures, body } => match expanded_exprs(body, 0, Seq::empty(), table, depth, state) {
            Err(error) => Err(error),
            Ok((body, state)) => Ok((ExprKindView::Task { captures, body }, state)),
        },
        ExprKindView::Spawn { handle, captures, value } => match expanded_expr(*value, table, depth, state) {
            Err(error) => Err(error),
            Ok((value, state)) => {
                let value = Box::new(value);
                Ok((ExprKindView::Spawn { handle, captures, value }, state))
            },
        },
        ExprKindView::Join { handle, binding } => Ok((ExprKindView::Join { handle, binding }, state)),
        _ => Ok((value, state)),
    }
}

/// The expression with its macro calls expanded, repeatedly, down to the depth
/// limit.
pub open spec fn expanded_expr(
    node: ExprView,
    table: Map<Seq<char>, MacroEntryView>,
    depth: nat,
    state: ExpansionState,
) -> Result<(ExprView, ExpansionState), MacroErrorView>
    decreases TYPED_MACRO_MAX_EXPANSION_DEPTH - depth, node, 0int,
{
    if node.value is Call && table.dom().contains(node.value->callee.value) {
        let name = node.value->callee.value;
        let entry = table[name];
        match entry.refusal(name, depth, depth_message(name), node.origin) {
            Some(error) => Err(error),
            None => match evaluate::invoked(entry.invocation(node.origin), expr_arguments(node.value->Call_arguments), state) {
                Err(error) => Err(error),
                Ok((FragmentView::Expression(value), state)) => match annotate::annotated_expr(
                    value,
                    entry.definition.span,
                    entry.definition.origin,
                    node.origin,
                    state,
                ) {
                    Err(error) => Err(error),
                    Ok((value, state)) => expanded_expr(value, table, depth + 1, state),
                },
                Ok(_) => Err(evaluate::category_failure(entry.definition, SyntaxCategory::Expression, node.origin)),
            },
        }
    } else {
        let rewritten = if node.value.is_control() {
            expanded_control(node.value, table, depth, state)
        } else if node.value.is_data() {
            expanded_data(node.value, table, depth, state)
        } else {
            expanded_plain(node.value, table, depth, state)
        };
        match rewritten {
            Err(error) => Err(error),
            Ok((value, state)) => Ok((Spanned { value, span: node.span, origin: node.origin }, state)),
        }
    }
}

fn expand_control(
    kind: &ExprKind,
    macros: &NameMap<MacroEntry>,
    depth: usize,
    state: &mut ExpansionState,
) -> (result: Result<ExprKind, MacroExpansionError>)
    requires
        macros.well_formed(),
        view::expr_kind(*kind).is_control(),
    ensures
        match result {
            Ok(value) => expanded_control(
                view::expr_kind(*kind),
                macros.entries(),
                depth as nat,
                *old(state),
            ) == Ok::<(ExprKindView, ExpansionState), MacroErrorView>((view::expr_kind(value), *final(state))),
            Err(error) => expanded_control(
                view::expr_kind(*kind),
                macros.entries(),
                depth as nat,
                *old(state),
            ) == Err::<(ExprKindView, ExpansionState), MacroErrorView>(error@),
        },
    decreases TYPED_MACRO_MAX_EXPANSION_DEPTH - depth, kind,
{
    reveal(view::expr_kind);
    match kind {
        ExprKind::Do(values) => match expand_exprs(values, macros, depth, state) {
            Err(error) => Err(error),
            Ok(values) => Ok(ExprKind::Do(values)),
        },
        ExprKind::Let { name, ty, value } => match expand_optional_type_expr(ty, macros, depth, state) {
            Err(error) => Err(error),
            Ok(ty) => match expand_expr(value, macros, depth, state) {
                Err(error) => Err(error),
                Ok(value) => Ok(ExprKind::Let { name: copy::name(name), ty, value: Box::new(value) }),
            },
        },
        ExprKind::Assign { name, value } => match expand_expr(value, macros, depth, state) {
            Err(error) => Err(error),
            Ok(value) => Ok(ExprKind::Assign { name: copy::name(name), value: Box::new(value) }),
        },
        ExprKind::Return(value) => match expand_optional_expr(value, macros, depth, state) {
            Err(error) => Err(error),
            Ok(value) => Ok(ExprKind::Return(value)),
        },
        ExprKind::If { condition, then_body, else_body } => match expand_expr(condition, macros, depth, state) {
            Err(error) => Err(error),
            Ok(condition) => match expand_exprs(then_body, macros, depth, state) {
                Err(error) => Err(error),
                Ok(then_body) => match expand_exprs(else_body, macros, depth, state) {
                    Err(error) => Err(error),
                    Ok(else_body) => Ok(ExprKind::If { condition: Box::new(condition), then_body, else_body }),
                },
            },
        },
        ExprKind::While { condition, body } => match expand_expr(condition, macros, depth, state) {
            Err(error) => Err(error),
            Ok(condition) => match expand_exprs(body, macros, depth, state) {
                Err(error) => Err(error),
                Ok(body) => Ok(ExprKind::While { condition: Box::new(condition), body }),
            },
        },
        ExprKind::For { binding, source, body } => match expand_expr(source, macros, depth, state) {
            Err(error) => Err(error),
            Ok(source) => match expand_exprs(body, macros, depth, state) {
                Err(error) => Err(error),
                Ok(body) => Ok(ExprKind::For { binding: copy::name(binding), source: Box::new(source), body }),
            },
        },
        ExprKind::Match { target, cases } => match expand_expr(target, macros, depth, state) {
            Err(error) => Err(error),
            Ok(target) => match expand_match_cases(cases, macros, depth, state) {
                Err(error) => Err(error),
                Ok(cases) => Ok(ExprKind::Match { target: Box::new(target), cases }),
            },
        },
        ExprKind::Break => Ok(ExprKind::Break),
        ExprKind::Continue => Ok(ExprKind::Continue),
        _ => Ok(copy::expr_kind(kind)),
    }
}

fn expand_data(
    kind: &ExprKind,
    macros: &NameMap<MacroEntry>,
    depth: usize,
    state: &mut ExpansionState,
) -> (result: Result<ExprKind, MacroExpansionError>)
    requires
        macros.well_formed(),
        view::expr_kind(*kind).is_data(),
    ensures
        match result {
            Ok(value) => expanded_data(
                view::expr_kind(*kind),
                macros.entries(),
                depth as nat,
                *old(state),
            ) == Ok::<(ExprKindView, ExpansionState), MacroErrorView>((view::expr_kind(value), *final(state))),
            Err(error) => expanded_data(
                view::expr_kind(*kind),
                macros.entries(),
                depth as nat,
                *old(state),
            ) == Err::<(ExprKindView, ExpansionState), MacroErrorView>(error@),
        },
    decreases TYPED_MACRO_MAX_EXPANSION_DEPTH - depth, kind,
{
    reveal(view::expr_kind);
    match kind {
        ExprKind::Record(values) => match expand_expr_fields(values, macros, depth, state) {
            Err(error) => Err(error),
            Ok(values) => Ok(ExprKind::Record(values)),
        },
        ExprKind::Tuple(values) => match expand_exprs(values, macros, depth, state) {
            Err(error) => Err(error),
            Ok(values) => Ok(ExprKind::Tuple(values)),
        },
        ExprKind::Array(values) => match expand_exprs(values, macros, depth, state) {
            Err(error) => Err(error),
            Ok(values) => Ok(ExprKind::Array(values)),
        },
        ExprKind::Mapping(values) => match expand_expr_pairs(values, macros, depth, state) {
            Err(error) => Err(error),
            Ok(values) => Ok(ExprKind::Mapping(values)),
        },
        ExprKind::Mutable(value) => match expand_expr(value, macros, depth, state) {
            Err(error) => Err(error),
            Ok(value) => Ok(ExprKind::Mutable(Box::new(value))),
        },
        ExprKind::ReferenceOf(value) => match expand_expr(value, macros, depth, state) {
            Err(error) => Err(error),
            Ok(value) => Ok(ExprKind::ReferenceOf(Box::new(value))),
        },
        ExprKind::Range(first, second, third) => match expand_expr(first, macros, depth, state) {
            Err(error) => Err(error),
            Ok(first) => match expand_expr(second, macros, depth, state) {
                Err(error) => Err(error),
                Ok(second) => match expand_expr(third, macros, depth, state) {
                    Err(error) => Err(error),
                    Ok(third) => Ok(ExprKind::Range(Box::new(first), Box::new(second), Box::new(third))),
                },
            },
        },
        ExprKind::Convert { value, into, fallback } => match expand_expr(value, macros, depth, state) {
            Err(error) => Err(error),
            Ok(value) => match expand_type_expr(into, macros, depth, state) {
                Err(error) => Err(error),
                Ok(into) => Ok(ExprKind::Convert { value: Box::new(value), into, fallback: copy::literal(fallback) }),
            },
        },
        ExprKind::Cast { value, into } => match expand_expr(value, macros, depth, state) {
            Err(error) => Err(error),
            Ok(value) => match expand_type_expr(into, macros, depth, state) {
                Err(error) => Err(error),
                Ok(into) => Ok(ExprKind::Cast { value: Box::new(value), into }),
            },
        },
        _ => Ok(copy::expr_kind(kind)),
    }
}

fn expand_plain(
    kind: &ExprKind,
    macros: &NameMap<MacroEntry>,
    depth: usize,
    state: &mut ExpansionState,
) -> (result: Result<ExprKind, MacroExpansionError>)
    requires
        macros.well_formed(),
        !view::expr_kind(*kind).is_control(),
        !view::expr_kind(*kind).is_data(),
    ensures
        match result {
            Ok(value) => expanded_plain(
                view::expr_kind(*kind),
                macros.entries(),
                depth as nat,
                *old(state),
            ) == Ok::<(ExprKindView, ExpansionState), MacroErrorView>((view::expr_kind(value), *final(state))),
            Err(error) => expanded_plain(
                view::expr_kind(*kind),
                macros.entries(),
                depth as nat,
                *old(state),
            ) == Err::<(ExprKindView, ExpansionState), MacroErrorView>(error@),
        },
    decreases TYPED_MACRO_MAX_EXPANSION_DEPTH - depth, kind,
{
    reveal(view::expr_kind);
    match kind {
        ExprKind::Literal(value) => Ok(ExprKind::Literal(copy::literal(value))),
        ExprKind::Reference(value) => Ok(ExprKind::Reference(value.clone())),
        ExprKind::Call { callee, arguments } => match expand_exprs(arguments, macros, depth, state) {
            Err(error) => Err(error),
            Ok(arguments) => Ok(ExprKind::Call { callee: copy::name(callee), arguments }),
        },
        ExprKind::Task { captures, body } => match expand_exprs(body, macros, depth, state) {
            Err(error) => Err(error),
            Ok(body) => Ok(ExprKind::Task { captures: copy::names(captures), body }),
        },
        ExprKind::Spawn { handle, captures, value } => match expand_expr(value, macros, depth, state) {
            Err(error) => Err(error),
            Ok(value) => Ok(
                ExprKind::Spawn { handle: copy::name(handle), captures: copy::names(captures), value: Box::new(value) },
            ),
        },
        ExprKind::Join { handle, binding } => Ok(
            ExprKind::Join { handle: copy::name(handle), binding: copy::name(binding) },
        ),
        _ => Ok(copy::expr_kind(kind)),
    }
}

fn expand_expr(
    node: &Expr,
    macros: &NameMap<MacroEntry>,
    depth: usize,
    state: &mut ExpansionState,
) -> (result: Result<Expr, MacroExpansionError>)
    requires
        macros.well_formed(),
    ensures
        match result {
            Ok(value) => expanded_expr(
                view::expr(*node),
                macros.entries(),
                depth as nat,
                *old(state),
            ) == Ok::<(ExprView, ExpansionState), MacroErrorView>((view::expr(value), *final(state))),
            Err(error) => expanded_expr(
                view::expr(*node),
                macros.entries(),
                depth as nat,
                *old(state),
            ) == Err::<(ExprView, ExpansionState), MacroErrorView>(error@),
        },
    decreases TYPED_MACRO_MAX_EXPANSION_DEPTH - depth, node,
{
    reveal(view::expr_kind);
    if let ExprKind::Call { callee, arguments } = &node.value {
        if let Some(entry) = macros.entry(callee.value.as_str()) {
            match entry.check_call(callee.value.as_str(), depth, depth_text(callee.value.as_str()), &node.origin) {
                Ok(_) => {}
                Err(error) => return Err(error),
            }
            let fragment = match entry.call(expr_fragments(arguments), &node.origin, state) {
                Ok(value) => value,
                Err(error) => return Err(error),
            };
            return match fragment {
                SyntaxFragment::Expression(value) => {
                    let value = match annotate_expr(&value, entry.definition, &node.origin, state) {
                        Ok(value) => value,
                        Err(error) => return Err(error),
                    };
                    expand_expr(&value, macros, depth + 1, state)
                }
                _ => Err(category_error(entry.definition, SyntaxCategory::Expression, &node.origin)),
            };
        }
    }
    let rewritten = if node.value.is_control() {
        expand_control(&node.value, macros, depth, state)
    } else if node.value.is_data() {
        expand_data(&node.value, macros, depth, state)
    } else {
        expand_plain(&node.value, macros, depth, state)
    };
    match rewritten {
        Err(error) => Err(error),
        Ok(value) => Ok(Spanned { value, span: node.span, origin: node.origin.copy() }),
    }
}

pub open spec fn expanded_optional_expr(
    node: Option<Box<ExprView>>,
    table: Map<Seq<char>, MacroEntryView>,
    depth: nat,
    state: ExpansionState,
) -> Result<(Option<Box<ExprView>>, ExpansionState), MacroErrorView>
    decreases TYPED_MACRO_MAX_EXPANSION_DEPTH - depth, node, 0int,
{
    match node {
        None => Ok((None, state)),
        Some(inner) => match expanded_expr(*inner, table, depth, state) {
            Err(error) => Err(error),
            Ok((inner, state)) => Ok((Some(Box::new(inner)), state)),
        },
    }
}

fn expand_optional_expr(
    node: &Option<Box<Expr>>,
    macros: &NameMap<MacroEntry>,
    depth: usize,
    state: &mut ExpansionState,
) -> (result: Result<Option<Box<Expr>>, MacroExpansionError>)
    requires
        macros.well_formed(),
    ensures
        match result {
            Ok(value) => expanded_optional_expr(match *node {
                    None => None,
                    Some(inner) => Some(Box::new(view::expr(*inner))),
                }, macros.entries(), depth as nat, *old(state)) == Ok::<(Option<Box<ExprView>>, ExpansionState), MacroErrorView>((match value { None => None, Some(inner) => Some(Box::new(view::expr(*inner))) }, *final(state))),
            Err(error) => expanded_optional_expr(match *node {
                    None => None,
                    Some(inner) => Some(Box::new(view::expr(*inner))),
                }, macros.entries(), depth as nat, *old(state)) == Err::<(Option<Box<ExprView>>, ExpansionState), MacroErrorView>(error@),
        },
    decreases TYPED_MACRO_MAX_EXPANSION_DEPTH - depth, node,
{
    match node {
        None => Ok(None),
        Some(inner) => {
            let inner = match expand_expr(inner, macros, depth, state) {
                Ok(value) => value,
                Err(error) => return Err(error),
            };
            Ok(Some(Box::new(inner)))
        }
    }
}

pub open spec fn expanded_exprs(
    nodes: Seq<ExprView>,
    from: int,
    done: Seq<ExprView>,
    table: Map<Seq<char>, MacroEntryView>,
    depth: nat,
    state: ExpansionState,
) -> Result<(Seq<ExprView>, ExpansionState), MacroErrorView>
    decreases TYPED_MACRO_MAX_EXPANSION_DEPTH - depth, nodes, nodes.len() - from,
{
    if from < 0 || from >= nodes.len() {
        Ok((done, state))
    } else {
        match expanded_expr(nodes[from], table, depth, state) {
            Err(error) => Err(error),
            Ok((value, state)) => expanded_exprs(nodes, from + 1, done.push(value), table, depth, state),
        }
    }
}

fn expand_exprs(
    nodes: &Vec<Expr>,
    macros: &NameMap<MacroEntry>,
    depth: usize,
    state: &mut ExpansionState,
) -> (result: Result<Vec<Expr>, MacroExpansionError>)
    requires
        macros.well_formed(),
    ensures
        match result {
            Ok(value) => expanded_exprs(
                view::exprs(nodes@),
                0,
                Seq::empty(),
                macros.entries(),
                depth as nat,
                *old(state),
            ) == Ok::<(Seq<ExprView>, ExpansionState), MacroErrorView>((view::exprs(value@), *final(state))),
            Err(error) => expanded_exprs(
                view::exprs(nodes@),
                0,
                Seq::empty(),
                macros.entries(),
                depth as nat,
                *old(state),
            ) == Err::<(Seq<ExprView>, ExpansionState), MacroErrorView>(error@),
        },
    decreases TYPED_MACRO_MAX_EXPANSION_DEPTH - depth, nodes,
{
    let ghost start = *state;
    let ghost all = view::exprs(nodes@);
    let mut done: Vec<Expr> = Vec::new();
    let mut i: usize = 0;
    assert(view::exprs(done@) =~= Seq::<ExprView>::empty());
    while i < nodes.len()
        invariant
            i <= nodes.len(),
            all == view::exprs(nodes@),
            start == *old(state),
            macros.well_formed(),
            expanded_exprs(all, 0, Seq::empty(), macros.entries(), depth as nat, start) == expanded_exprs(
                all,
                i as int,
                view::exprs(done@),
                macros.entries(),
                depth as nat,
                *state,
            ),
        decreases nodes.len() - i,
    {
        let ghost before = done@;
        assert(all[i as int] == view::expr(nodes@[i as int]));
        let value = match expand_expr(&nodes[i], macros, depth, state) {
            Ok(value) => value,
            Err(error) => return Err(error),
        };
        done.push(value);
        proof {
            view::lemma_exprs_push(before, done@.last());
        }
        i += 1;
    }
    Ok(done)
}

pub open spec fn expanded_expr_field(
    node: ExprFieldView,
    table: Map<Seq<char>, MacroEntryView>,
    depth: nat,
    state: ExpansionState,
) -> Result<(ExprFieldView, ExpansionState), MacroErrorView>
    decreases TYPED_MACRO_MAX_EXPANSION_DEPTH - depth, node, 0int,
{
    match expanded_expr(node.value, table, depth, state) {
        Err(error) => Err(error),
        Ok((value, state)) => Ok((ExprFieldView { name: node.name, value, span: node.span }, state)),
    }
}

fn expand_expr_field(
    node: &ExprField,
    macros: &NameMap<MacroEntry>,
    depth: usize,
    state: &mut ExpansionState,
) -> (result: Result<ExprField, MacroExpansionError>)
    requires
        macros.well_formed(),
    ensures
        match result {
            Ok(value) => expanded_expr_field(
                view::expr_field(*node),
                macros.entries(),
                depth as nat,
                *old(state),
            ) == Ok::<(ExprFieldView, ExpansionState), MacroErrorView>((view::expr_field(value), *final(state))),
            Err(error) => expanded_expr_field(
                view::expr_field(*node),
                macros.entries(),
                depth as nat,
                *old(state),
            ) == Err::<(ExprFieldView, ExpansionState), MacroErrorView>(error@),
        },
    decreases TYPED_MACRO_MAX_EXPANSION_DEPTH - depth, node,
{
    let value = match expand_expr(&node.value, macros, depth, state) {
        Ok(value) => value,
        Err(error) => return Err(error),
    };
    Ok(ExprField { name: copy::name(&node.name), value, span: node.span })
}

pub open spec fn expanded_expr_fields(
    nodes: Seq<ExprFieldView>,
    from: int,
    done: Seq<ExprFieldView>,
    table: Map<Seq<char>, MacroEntryView>,
    depth: nat,
    state: ExpansionState,
) -> Result<(Seq<ExprFieldView>, ExpansionState), MacroErrorView>
    decreases TYPED_MACRO_MAX_EXPANSION_DEPTH - depth, nodes, nodes.len() - from,
{
    if from < 0 || from >= nodes.len() {
        Ok((done, state))
    } else {
        match expanded_expr_field(nodes[from], table, depth, state) {
            Err(error) => Err(error),
            Ok((value, state)) => expanded_expr_fields(nodes, from + 1, done.push(value), table, depth, state),
        }
    }
}

fn expand_expr_fields(
    nodes: &Vec<ExprField>,
    macros: &NameMap<MacroEntry>,
    depth: usize,
    state: &mut ExpansionState,
) -> (result: Result<Vec<ExprField>, MacroExpansionError>)
    requires
        macros.well_formed(),
    ensures
        match result {
            Ok(value) => expanded_expr_fields(
                view::expr_fields(nodes@),
                0,
                Seq::empty(),
                macros.entries(),
                depth as nat,
                *old(state),
            ) == Ok::<(Seq<ExprFieldView>, ExpansionState), MacroErrorView>((view::expr_fields(value@), *final(state))),
            Err(error) => expanded_expr_fields(
                view::expr_fields(nodes@),
                0,
                Seq::empty(),
                macros.entries(),
                depth as nat,
                *old(state),
            ) == Err::<(Seq<ExprFieldView>, ExpansionState), MacroErrorView>(error@),
        },
    decreases TYPED_MACRO_MAX_EXPANSION_DEPTH - depth, nodes,
{
    let ghost start = *state;
    let ghost all = view::expr_fields(nodes@);
    let mut done: Vec<ExprField> = Vec::new();
    let mut i: usize = 0;
    assert(view::expr_fields(done@) =~= Seq::<ExprFieldView>::empty());
    while i < nodes.len()
        invariant
            i <= nodes.len(),
            all == view::expr_fields(nodes@),
            start == *old(state),
            macros.well_formed(),
            expanded_expr_fields(all, 0, Seq::empty(), macros.entries(), depth as nat, start) == expanded_expr_fields(
                all,
                i as int,
                view::expr_fields(done@),
                macros.entries(),
                depth as nat,
                *state,
            ),
        decreases nodes.len() - i,
    {
        let ghost before = done@;
        assert(all[i as int] == view::expr_field(nodes@[i as int]));
        let value = match expand_expr_field(&nodes[i], macros, depth, state) {
            Ok(value) => value,
            Err(error) => return Err(error),
        };
        done.push(value);
        proof {
            view::lemma_expr_fields_push(before, done@.last());
        }
        i += 1;
    }
    Ok(done)
}

pub open spec fn expanded_expr_pair(
    node: (ExprView, ExprView),
    table: Map<Seq<char>, MacroEntryView>,
    depth: nat,
    state: ExpansionState,
) -> Result<((ExprView, ExprView), ExpansionState), MacroErrorView>
    decreases TYPED_MACRO_MAX_EXPANSION_DEPTH - depth, node, 0int,
{
    match expanded_expr(node.0, table, depth, state) {
        Err(error) => Err(error),
        Ok((key, state)) => match expanded_expr(node.1, table, depth, state) {
            Err(error) => Err(error),
            Ok((value, state)) => Ok(((key, value), state)),
        },
    }
}

fn expand_expr_pair(
    node: &(Expr, Expr),
    macros: &NameMap<MacroEntry>,
    depth: usize,
    state: &mut ExpansionState,
) -> (result: Result<(Expr, Expr), MacroExpansionError>)
    requires
        macros.well_formed(),
    ensures
        match result {
            Ok(value) => expanded_expr_pair(
                (view::expr(node.0), view::expr(node.1)),
                macros.entries(),
                depth as nat,
                *old(state),
            ) == Ok::<((ExprView, ExprView), ExpansionState), MacroErrorView>(((view::expr(value.0), view::expr(value.1)), *final(state))),
            Err(error) => expanded_expr_pair(
                (view::expr(node.0), view::expr(node.1)),
                macros.entries(),
                depth as nat,
                *old(state),
            ) == Err::<((ExprView, ExprView), ExpansionState), MacroErrorView>(error@),
        },
    decreases TYPED_MACRO_MAX_EXPANSION_DEPTH - depth, node,
{
    let key = match expand_expr(&node.0, macros, depth, state) {
        Ok(value) => value,
        Err(error) => return Err(error),
    };
    let value = match expand_expr(&node.1, macros, depth, state) {
        Ok(value) => value,
        Err(error) => return Err(error),
    };
    Ok((key, value))
}

pub open spec fn expanded_expr_pairs(
    nodes: Seq<(ExprView, ExprView)>,
    from: int,
    done: Seq<(ExprView, ExprView)>,
    table: Map<Seq<char>, MacroEntryView>,
    depth: nat,
    state: ExpansionState,
) -> Result<(Seq<(ExprView, ExprView)>, ExpansionState), MacroErrorView>
    decreases TYPED_MACRO_MAX_EXPANSION_DEPTH - depth, nodes, nodes.len() - from,
{
    if from < 0 || from >= nodes.len() {
        Ok((done, state))
    } else {
        match expanded_expr_pair(nodes[from], table, depth, state) {
            Err(error) => Err(error),
            Ok((value, state)) => expanded_expr_pairs(nodes, from + 1, done.push(value), table, depth, state),
        }
    }
}

fn expand_expr_pairs(
    nodes: &Vec<(Expr, Expr)>,
    macros: &NameMap<MacroEntry>,
    depth: usize,
    state: &mut ExpansionState,
) -> (result: Result<Vec<(Expr, Expr)>, MacroExpansionError>)
    requires
        macros.well_formed(),
    ensures
        match result {
            Ok(value) => expanded_expr_pairs(
                view::expr_pairs(nodes@),
                0,
                Seq::empty(),
                macros.entries(),
                depth as nat,
                *old(state),
            ) == Ok::<(Seq<(ExprView, ExprView)>, ExpansionState), MacroErrorView>((view::expr_pairs(value@), *final(state))),
            Err(error) => expanded_expr_pairs(
                view::expr_pairs(nodes@),
                0,
                Seq::empty(),
                macros.entries(),
                depth as nat,
                *old(state),
            ) == Err::<(Seq<(ExprView, ExprView)>, ExpansionState), MacroErrorView>(error@),
        },
    decreases TYPED_MACRO_MAX_EXPANSION_DEPTH - depth, nodes,
{
    let ghost start = *state;
    let ghost all = view::expr_pairs(nodes@);
    let mut done: Vec<(Expr, Expr)> = Vec::new();
    let mut i: usize = 0;
    assert(view::expr_pairs(done@) =~= Seq::<(ExprView, ExprView)>::empty());
    while i < nodes.len()
        invariant
            i <= nodes.len(),
            all == view::expr_pairs(nodes@),
            start == *old(state),
            macros.well_formed(),
            expanded_expr_pairs(all, 0, Seq::empty(), macros.entries(), depth as nat, start) == expanded_expr_pairs(
                all,
                i as int,
                view::expr_pairs(done@),
                macros.entries(),
                depth as nat,
                *state,
            ),
        decreases nodes.len() - i,
    {
        let ghost before = done@;
        assert(all[i as int] == (view::expr(nodes@[i as int].0), view::expr(nodes@[i as int].1)));
        let value = match expand_expr_pair(&nodes[i], macros, depth, state) {
            Ok(value) => value,
            Err(error) => return Err(error),
        };
        done.push(value);
        proof {
            view::lemma_expr_pairs_push(before, done@.last());
        }
        i += 1;
    }
    Ok(done)
}

pub open spec fn expanded_match_case(
    node: MatchCaseView,
    table: Map<Seq<char>, MacroEntryView>,
    depth: nat,
    state: ExpansionState,
) -> Result<(MatchCaseView, ExpansionState), MacroErrorView>
    decreases TYPED_MACRO_MAX_EXPANSION_DEPTH - depth, node, 0int,
{
    match expanded_pattern(node.pattern, table, depth, state) {
        Err(error) => Err(error),
        Ok((pattern, state)) => match expanded_exprs(node.body, 0, Seq::empty(), table, depth, state) {
            Err(error) => Err(error),
            Ok((body, state)) => Ok((MatchCaseView { pattern, body, span: node.span }, state)),
        },
    }
}

fn expand_match_case(
    node: &MatchCase,
    macros: &NameMap<MacroEntry>,
    depth: usize,
    state: &mut ExpansionState,
) -> (result: Result<MatchCase, MacroExpansionError>)
    requires
        macros.well_formed(),
    ensures
        match result {
            Ok(value) => expanded_match_case(
                view::match_case(*node),
                macros.entries(),
                depth as nat,
                *old(state),
            ) == Ok::<(MatchCaseView, ExpansionState), MacroErrorView>((view::match_case(value), *final(state))),
            Err(error) => expanded_match_case(
                view::match_case(*node),
                macros.entries(),
                depth as nat,
                *old(state),
            ) == Err::<(MatchCaseView, ExpansionState), MacroErrorView>(error@),
        },
    decreases TYPED_MACRO_MAX_EXPANSION_DEPTH - depth, node,
{
    let pattern = match expand_pattern(&node.pattern, macros, depth, state) {
        Ok(value) => value,
        Err(error) => return Err(error),
    };
    let body = match expand_exprs(&node.body, macros, depth, state) {
        Ok(value) => value,
        Err(error) => return Err(error),
    };
    Ok(MatchCase { pattern, body, span: node.span })
}

pub open spec fn expanded_match_cases(
    nodes: Seq<MatchCaseView>,
    from: int,
    done: Seq<MatchCaseView>,
    table: Map<Seq<char>, MacroEntryView>,
    depth: nat,
    state: ExpansionState,
) -> Result<(Seq<MatchCaseView>, ExpansionState), MacroErrorView>
    decreases TYPED_MACRO_MAX_EXPANSION_DEPTH - depth, nodes, nodes.len() - from,
{
    if from < 0 || from >= nodes.len() {
        Ok((done, state))
    } else {
        match expanded_match_case(nodes[from], table, depth, state) {
            Err(error) => Err(error),
            Ok((value, state)) => expanded_match_cases(nodes, from + 1, done.push(value), table, depth, state),
        }
    }
}

fn expand_match_cases(
    nodes: &Vec<MatchCase>,
    macros: &NameMap<MacroEntry>,
    depth: usize,
    state: &mut ExpansionState,
) -> (result: Result<Vec<MatchCase>, MacroExpansionError>)
    requires
        macros.well_formed(),
    ensures
        match result {
            Ok(value) => expanded_match_cases(
                view::match_cases(nodes@),
                0,
                Seq::empty(),
                macros.entries(),
                depth as nat,
                *old(state),
            ) == Ok::<(Seq<MatchCaseView>, ExpansionState), MacroErrorView>((view::match_cases(value@), *final(state))),
            Err(error) => expanded_match_cases(
                view::match_cases(nodes@),
                0,
                Seq::empty(),
                macros.entries(),
                depth as nat,
                *old(state),
            ) == Err::<(Seq<MatchCaseView>, ExpansionState), MacroErrorView>(error@),
        },
    decreases TYPED_MACRO_MAX_EXPANSION_DEPTH - depth, nodes,
{
    let ghost start = *state;
    let ghost all = view::match_cases(nodes@);
    let mut done: Vec<MatchCase> = Vec::new();
    let mut i: usize = 0;
    assert(view::match_cases(done@) =~= Seq::<MatchCaseView>::empty());
    while i < nodes.len()
        invariant
            i <= nodes.len(),
            all == view::match_cases(nodes@),
            start == *old(state),
            macros.well_formed(),
            expanded_match_cases(all, 0, Seq::empty(), macros.entries(), depth as nat, start) == expanded_match_cases(
                all,
                i as int,
                view::match_cases(done@),
                macros.entries(),
                depth as nat,
                *state,
            ),
        decreases nodes.len() - i,
    {
        let ghost before = done@;
        assert(all[i as int] == view::match_case(nodes@[i as int]));
        let value = match expand_match_case(&nodes[i], macros, depth, state) {
            Ok(value) => value,
            Err(error) => return Err(error),
        };
        done.push(value);
        proof {
            view::lemma_match_cases_push(before, done@.last());
        }
        i += 1;
    }
    Ok(done)
}

pub open spec fn expanded_parameters(
    nodes: Seq<ParameterView>,
    from: int,
    done: Seq<ParameterView>,
    table: Map<Seq<char>, MacroEntryView>,
    state: ExpansionState,
) -> Result<(Seq<ParameterView>, ExpansionState), MacroErrorView>
    decreases nodes.len() - from,
{
    if from < 0 || from >= nodes.len() {
        Ok((done, state))
    } else {
        match expanded_type_expr(nodes[from].ty, table, 0, state) {
            Err(error) => Err(error),
            Ok((ty, state)) => expanded_parameters(
                nodes,
                from + 1,
                done.push(ParameterView { name: nodes[from].name, ty, span: nodes[from].span }),
                table,
                state,
            ),
        }
    }
}

fn expand_parameters(nodes: &Vec<Parameter>, macros: &NameMap<MacroEntry>, state: &mut ExpansionState) -> (result: Result<
    Vec<Parameter>,
    MacroExpansionError,
    >)
    requires
        macros.well_formed(),
    ensures
        match result {
            Ok(value) => expanded_parameters(
                view::parameters(nodes@),
                0,
                Seq::empty(),
                macros.entries(),
                *old(state),
            ) == Ok::<
            (Seq<ParameterView>, ExpansionState),
            MacroErrorView,
            >((view::parameters(value@), *final(state))),
            Err(error) => expanded_parameters(view::parameters(nodes@), 0, Seq::empty(), macros.entries(), *old(state))
            == Err::<(Seq<ParameterView>, ExpansionState), MacroErrorView>(error@),
        },
{
    let ghost start = *state;
    let ghost all = view::parameters(nodes@);
    let mut done: Vec<Parameter> = Vec::new();
    let mut i: usize = 0;
    assert(view::parameters(done@) =~= Seq::<ParameterView>::empty());
    while i < nodes.len()
        invariant
            i <= nodes.len(),
            macros.well_formed(),
            all == view::parameters(nodes@),
            start == *old(state),
            expanded_parameters(all, 0, Seq::empty(), macros.entries(), start) == expanded_parameters(
                all,
                i as int,
                view::parameters(done@),
                macros.entries(),
                *state,
            ),
        decreases nodes.len() - i,
    {
        let ghost before = done@;
        assert(all[i as int] == view::parameter(nodes@[i as int]));
        let ty = match expand_type_expr(&nodes[i].ty, macros, 0, state) {
            Ok(value) => value,
            Err(error) => return Err(error),
        };
        done.push(Parameter { name: copy::name(&nodes[i].name), ty, span: nodes[i].span });
        proof {
            view::lemma_parameters_push(before, done@.last());
        }
        i += 1;
    }
    Ok(done)
}

/// A top-level form with its macro calls expanded.
#[verifier::opaque]
pub open spec fn expanded_top_level(
    form: TopLevelView,
    table: Map<Seq<char>, MacroEntryView>,
    state: ExpansionState,
) -> Result<
(TopLevelView, ExpansionState),
MacroErrorView,
> {
    match form {
        TopLevelView::Import(import) => Ok((form, state)),
        TopLevelView::Macro(definition) => Ok((form, state)),
        TopLevelView::Definition(definition) => match expanded_type_expr(definition.body, table, 0, state) {
            Err(error) => Err(error),
            Ok((body, state)) => Ok((TopLevelView::Definition(DefinitionView { body, ..definition }), state)),
        },
        TopLevelView::Constant(constant) => match expanded_type_expr(constant.ty, table, 0, state) {
            Err(error) => Err(error),
            Ok((ty, state)) => match expanded_expr(constant.value, table, 0, state) {
                Err(error) => Err(error),
                Ok((value, state)) => Ok((TopLevelView::Constant(ConstantView { ty, value, ..constant }), state)),
            },
        },
        TopLevelView::Function(function) => match expanded_parameters(function.parameters, 0, Seq::empty(), table, state) {
            Err(error) => Err(error),
            Ok((parameters, state)) => match expanded_type_expr(function.return_type, table, 0, state) {
                Err(error) => Err(error),
                Ok((return_type, state)) => match expanded_exprs(function.body, 0, Seq::empty(), table, 0, state) {
                    Err(error) => Err(error),
                    Ok((body, state)) => Ok(
                        (TopLevelView::Function(FunctionView { parameters, return_type, body, ..function }), state),
                    ),
                },
            },
        },
        TopLevelView::Test(test) => match expanded_exprs(test.body, 0, Seq::empty(), table, 0, state) {
            Err(error) => Err(error),
            Ok((body, state)) => Ok((TopLevelView::Test(TestView { body, ..test }), state)),
        },
    }
}

fn expand_top_level(form: &TopLevel, macros: &NameMap<MacroEntry>, state: &mut ExpansionState) -> (result: Result<
    TopLevel,
    MacroExpansionError,
    >)
    requires
        macros.well_formed(),
    ensures
        match result {
            Ok(value) => expanded_top_level(view::top_level(*form), macros.entries(), *old(state)) == Ok::<
            (TopLevelView, ExpansionState),
            MacroErrorView,
            >((view::top_level(value), *final(state))),
            Err(error) => expanded_top_level(view::top_level(*form), macros.entries(), *old(state)) == Err::<
            (TopLevelView, ExpansionState),
            MacroErrorView,
            >(error@),
        },
{
    reveal(expanded_top_level);
    reveal(view::top_level);
    match form {
        TopLevel::Import(_) => Ok(copy::top_level(form)),
        TopLevel::Macro(_) => Ok(copy::top_level(form)),
        TopLevel::Definition(definition) => {
            let body = match expand_type_expr(&definition.body, macros, 0, state) {
                Ok(value) => value,
                Err(error) => return Err(error),
            };
            Ok(
                TopLevel::Definition(
                    Definition {
                        visibility: definition.visibility,
                        name: copy::name(&definition.name),
                        body,
                        annotations: copy::annotations(&definition.annotations),
                        span: definition.span,
                        origin: definition.origin.copy(),
                    },
                ),
            )
        }
        TopLevel::Constant(constant) => {
            let ty = match expand_type_expr(&constant.ty, macros, 0, state) {
                Ok(value) => value,
                Err(error) => return Err(error),
            };
            let value = match expand_expr(&constant.value, macros, 0, state) {
                Ok(value) => value,
                Err(error) => return Err(error),
            };
            Ok(
                TopLevel::Constant(
                    Constant {
                        visibility: constant.visibility,
                        name: copy::name(&constant.name),
                        ty,
                        value,
                        annotations: copy::annotations(&constant.annotations),
                        span: constant.span,
                        origin: constant.origin.copy(),
                    },
                ),
            )
        }
        TopLevel::Function(function) => {
            let parameters = match expand_parameters(&function.parameters, macros, state) {
                Ok(value) => value,
                Err(error) => return Err(error),
            };
            let return_type = match expand_type_expr(&function.return_type, macros, 0, state) {
                Ok(value) => value,
                Err(error) => return Err(error),
            };
            let body = match expand_exprs(&function.body, macros, 0, state) {
                Ok(value) => value,
                Err(error) => return Err(error),
            };
            Ok(
                TopLevel::Function(
                    Function {
                        visibility: function.visibility,
                        name: copy::name(&function.name),
                        parameters,
                        return_type,
                        body,
                        annotations: copy::annotations(&function.annotations),
                        span: function.span,
                        origin: function.origin.copy(),
                    },
                ),
            )
        }
        TopLevel::Test(test) => {
            let body = match expand_exprs(&test.body, macros, 0, state) {
                Ok(value) => value,
                Err(error) => return Err(error),
            };
            Ok(
                TopLevel::Test(
                    Test {
                        name: copy::name(&test.name),
                        profile: copy::name(&test.profile),
                        body,
                        metadata: copy::test_metas(&test.metadata),
                        span: test.span,
                        origin: test.origin.copy(),
                    },
                ),
            )
        }
    }
}

/// The forms `forms[from..]` after expansion; macro definitions are removed.
pub open spec fn expanded_forms(
    forms: Seq<TopLevelView>,
    from: int,
    done: Seq<TopLevelView>,
    table: Map<Seq<char>, MacroEntryView>,
    state: ExpansionState,
) -> Result<(Seq<TopLevelView>, ExpansionState), MacroErrorView>
    decreases forms.len() - from,
{
    if from < 0 || from >= forms.len() {
        Ok((done, state))
    } else if forms[from] is Macro {
        expanded_forms(forms, from + 1, done, table, state)
    } else {
        match expanded_top_level(forms[from], table, state) {
            Err(error) => Err(error),
            Ok((form, state)) => expanded_forms(forms, from + 1, done.push(form), table, state),
        }
    }
}

fn is_macro(form: &TopLevel) -> (result: bool)
    ensures
        result == (view::top_level(*form) is Macro),
{
    reveal(view::top_level);
    match form {
        TopLevel::Macro(_) => true,
        _ => false,
    }
}

fn expand_forms(forms: &Vec<TopLevel>, macros: &NameMap<MacroEntry>, state: &mut ExpansionState) -> (result: Result<
    Vec<TopLevel>,
    MacroExpansionError,
    >)
    requires
        macros.well_formed(),
    ensures
        match result {
            Ok(value) => expanded_forms(
                view::top_levels(forms@),
                0,
                Seq::empty(),
                macros.entries(),
                *old(state),
            ) == Ok::<
            (Seq<TopLevelView>, ExpansionState),
            MacroErrorView,
            >((view::top_levels(value@), *final(state))),
            Err(error) => expanded_forms(
                view::top_levels(forms@),
                0,
                Seq::empty(),
                macros.entries(),
                *old(state),
            ) == Err::<
            (Seq<TopLevelView>, ExpansionState),
            MacroErrorView,
            >(error@),
        },
{
    let ghost start = *state;
    let ghost all = view::top_levels(forms@);
    let mut done: Vec<TopLevel> = Vec::new();
    let mut i: usize = 0;
    assert(view::top_levels(done@) =~= Seq::<TopLevelView>::empty());
    while i < forms.len()
        invariant
            i <= forms.len(),
            macros.well_formed(),
            all == view::top_levels(forms@),
            start == *old(state),
            expanded_forms(all, 0, Seq::empty(), macros.entries(), start) == expanded_forms(
                all,
                i as int,
                view::top_levels(done@),
                macros.entries(),
                *state,
            ),
        decreases forms.len() - i,
    {
        let ghost before = done@;
        assert(all[i as int] == view::top_level(forms@[i as int]));
        if !is_macro(&forms[i]) {
            let form = match expand_top_level(&forms[i], macros, state) {
                Ok(value) => value,
                Err(error) => return Err(error),
            };
            done.push(form);
            proof {
                view::lemma_top_levels_push(before, done@.last());
            }
        }
        i += 1;
    }
    Ok(done)
}

/// A module with its macro calls expanded and its macro definitions removed.
pub open spec fn expanded_module(
    module: ModuleView,
    table: Map<Seq<char>, MacroEntryView>,
    state: ExpansionState,
) -> Result<
(ModuleView, ExpansionState),
MacroErrorView,
> {
    match expanded_forms(module.forms, 0, Seq::empty(), table, state) {
        Err(error) => Err(error),
        Ok((forms, state)) => Ok(
            (ModuleView { forms, span: module.span, document_id: module.document_id }, state),
        ),
    }
}

fn expand_module_with_table(module: &Module, macros: &NameMap<MacroEntry>, state: &mut ExpansionState) -> (result: Result<
    Module,
    MacroExpansionError,
    >)
    requires
        macros.well_formed(),
    ensures
        match result {
            Ok(value) => expanded_module(view::module(*module), macros.entries(), *old(state)) == Ok::<
            (ModuleView, ExpansionState),
            MacroErrorView,
            >((view::module(value), *final(state))),
            Err(error) => expanded_module(view::module(*module), macros.entries(), *old(state)) == Err::<
            (ModuleView, ExpansionState),
            MacroErrorView,
            >(error@),
        },
{
    let forms = match expand_forms(&module.forms, macros, state) {
        Ok(value) => value,
        Err(error) => return Err(error),
    };
    Ok(Module { forms, span: module.span, document_id: module.document_id })
}

/// The physical parts `parts[from..]` of a module after expansion.
pub open spec fn expanded_parts(
    parts: Seq<ModuleView>,
    from: int,
    done: Seq<ModuleView>,
    table: Map<Seq<char>, MacroEntryView>,
    state: ExpansionState,
) -> Result<(Seq<ModuleView>, ExpansionState), MacroErrorView>
    decreases parts.len() - from,
{
    if from < 0 || from >= parts.len() {
        Ok((done, state))
    } else {
        match expanded_module(parts[from], table, state) {
            Err(error) => Err(error),
            Ok((part, state)) => expanded_parts(parts, from + 1, done.push(part), table, state),
        }
    }
}

fn expand_parts(parts: &Vec<Module>, macros: &NameMap<MacroEntry>, state: &mut ExpansionState) -> (result: Result<
    Vec<Module>,
    MacroExpansionError,
    >)
    requires
        macros.well_formed(),
    ensures
        match result {
            Ok(value) => expanded_parts(view::modules(parts@), 0, Seq::empty(), macros.entries(), *old(state)) == Ok::<
            (Seq<ModuleView>, ExpansionState),
            MacroErrorView,
            >((view::modules(value@), *final(state))),
            Err(error) => expanded_parts(
                view::modules(parts@),
                0,
                Seq::empty(),
                macros.entries(),
                *old(state),
            ) == Err::<
            (Seq<ModuleView>, ExpansionState),
            MacroErrorView,
            >(error@),
        },
{
    let ghost start = *state;
    let ghost all = view::modules(parts@);
    let mut done: Vec<Module> = Vec::new();
    let mut i: usize = 0;
    assert(view::modules(done@) =~= Seq::<ModuleView>::empty());
    while i < parts.len()
        invariant
            i <= parts.len(),
            macros.well_formed(),
            all == view::modules(parts@),
            start == *old(state),
            expanded_parts(all, 0, Seq::empty(), macros.entries(), start) == expanded_parts(
                all,
                i as int,
                view::modules(done@),
                macros.entries(),
                *state,
            ),
        decreases parts.len() - i,
    {
        let ghost before = done@;
        assert(all[i as int] == view::module(parts@[i as int]));
        let part = match expand_module_with_table(&parts[i], macros, state) {
            Ok(value) => value,
            Err(error) => return Err(error),
        };
        done.push(part);
        proof {
            view::lemma_modules_push(before, done@.last());
        }
        i += 1;
    }
    Ok(done)
}

// Programs.

/// The name that a top-level form declares.
pub open spec fn symbol_of(form: TopLevelView) -> Seq<char> {
    match form {
        TopLevelView::Import(value) => value.alias.value,
        TopLevelView::Definition(value) => value.name.value,
        TopLevelView::Constant(value) => value.name.value,
        TopLevelView::Function(value) => value.name.value,
        TopLevelView::Macro(value) => value.name.value,
        TopLevelView::Test(value) => value.name.value,
    }
}

pub(crate) fn top_level_symbol(form: &TopLevel) -> (name: &String)
    ensures
        name@ == symbol_of(view::top_level(*form)),
{
    reveal(view::top_level);
    match form {
        TopLevel::Import(value) => &value.alias.value,
        TopLevel::Definition(value) => &value.name.value,
        TopLevel::Constant(value) => &value.name.value,
        TopLevel::Function(value) => &value.name.value,
        TopLevel::Macro(value) => &value.name.value,
        TopLevel::Test(value) => &value.name.value,
    }
}

/// The forms of all physical parts of a module.
pub open spec fn all_forms(parts: Seq<ModuleView>) -> Seq<TopLevelView>
    decreases parts.len(),
{
    if parts.len() == 0 {
        Seq::empty()
    } else {
        all_forms(parts.drop_last()) + parts.last().forms
    }
}

pub open spec fn form_refs(forms: Seq<&TopLevel>) -> Seq<TopLevelView> {
    Seq::new(forms.len(), |i: int| view::top_level(*forms[i]))
}

fn module_forms<'a>(parts: &'a Vec<Module>) -> (result: Vec<&'a TopLevel>)
    ensures
        form_refs(result@) == all_forms(view::modules(parts@)),
{
    let ghost all = view::modules(parts@);
    let mut result: Vec<&'a TopLevel> = Vec::new();
    let mut i: usize = 0;
    assert(all.take(0) =~= Seq::<ModuleView>::empty());
    assert(form_refs(result@) =~= Seq::<TopLevelView>::empty());
    while i < parts.len()
        invariant
            i <= parts.len(),
            all == view::modules(parts@),
            form_refs(result@) == all_forms(all.take(i as int)),
        decreases parts.len() - i,
    {
        let forms = &parts[i].forms;
        let ghost before = form_refs(result@);
        let ghost added = view::top_levels(forms@);
        let mut k: usize = 0;
        assert(form_refs(result@) =~= before + added.take(0));
        while k < forms.len()
            invariant
                k <= forms.len(),
                added == view::top_levels(forms@),
                form_refs(result@) == before + added.take(k as int),
            decreases forms.len() - k,
        {
            let ghost prior = result@;
            result.push(&forms[k]);
            assert(added[k as int] == view::top_level(forms@[k as int]));
            assert(form_refs(result@) =~= form_refs(prior).push(added[k as int]));
            assert(added.take(k as int + 1) =~= added.take(k as int).push(added[k as int]));
            assert(form_refs(result@) =~= before + added.take(k as int + 1));
            k += 1;
        }
        assert(added.take(k as int) =~= added);
        assert(all.take(i as int + 1).drop_last() =~= all.take(i as int));
        assert(all.take(i as int + 1).last() == view::module(parts@[i as int]));
        i += 1;
    }
    assert(all.take(i as int) =~= all);
    result
}

/// The names that the forms declare.
pub open spec fn symbols_of(forms: Seq<TopLevelView>) -> Set<Seq<char>> {
    Set::new(|name: Seq<char>| exists|i: int| 0 <= i < forms.len() && symbol_of(#[trigger] forms[i]) == name)
}

fn collect_symbols(forms: &Vec<&TopLevel>) -> (result: Vec<String>)
    ensures
        crate::names::name_set(result@) == symbols_of(form_refs(forms@)),
{
    let ghost all = form_refs(forms@);
    let mut result: Vec<String> = Vec::new();
    let mut i: usize = 0;
    while i < forms.len()
        invariant
            i <= forms.len(),
            all == form_refs(forms@),
            result@.len() == i,
            forall|j: int| 0 <= j < i ==> (#[trigger] result@[j])@ == symbol_of(all[j]),
        decreases forms.len() - i,
    {
        assert(all[i as int] == view::top_level(*forms@[i as int]));
        result.push(top_level_symbol(forms[i]).clone());
        i += 1;
    }
    assert forall|name: Seq<char>| #[trigger] crate::names::name_set(result@).contains(name)
        == symbols_of(all).contains(name) by {
        if crate::names::names_contain(result@, name) {
            let k = choose|k: int| 0 <= k < result@.len() && (#[trigger] result@[k])@ == name;
            assert(symbol_of(all[k]) == name);
        }
        if symbols_of(all).contains(name) {
            let k = choose|k: int| 0 <= k < all.len() && symbol_of(#[trigger] all[k]) == name;
            assert(result@[k]@ == name);
        }
    }
    assert(crate::names::name_set(result@) =~= symbols_of(all));
    result
}

pub open spec fn is_fragment_category(category: SyntaxCategory) -> bool {
    category == SyntaxCategory::Definition || category == SyntaxCategory::Module
}

/// Whether the macro produces or takes whole definitions or modules.
pub open spec fn is_unsupported(definition: MacroView) -> bool {
    is_fragment_category(definition.result.value) || exists|i: int|
    0 <= i < definition.parameters.len() && is_fragment_category((#[trigger] definition.parameters[i]).category.value)
}

fn unsupported(definition: &Macro) -> (result: bool)
    ensures
        result == is_unsupported(view::macro_definition(*definition)),
{
    let ghost parameters = view::macro_parameters(definition.parameters@);
    if definition.result.value == SyntaxCategory::Definition || definition.result.value == SyntaxCategory::Module {
        return true;
    }
    let mut i: usize = 0;
    while i < definition.parameters.len()
        invariant
            i <= definition.parameters@.len(),
            parameters == view::macro_parameters(definition.parameters@),
            forall|j: int| 0 <= j < i ==> !is_fragment_category((#[trigger] parameters[j]).category.value),
        decreases definition.parameters@.len() - i,
    {
        let category = definition.parameters[i].category.value;
        assert(parameters[i as int].category.value == category);
        if category == SyntaxCategory::Definition || category == SyntaxCategory::Module {
            return true;
        }
        i += 1;
    }
    false
}

/// Why the macros among `forms[from..]` cannot be registered.
pub open spec fn macro_failure(forms: Seq<TopLevelView>, from: int, seen: Set<Seq<char>>) -> Option<MacroErrorView>
    decreases forms.len() - from,
{
    if from < 0 || from >= forms.len() {
        None
    } else {
        match forms[from] {
            TopLevelView::Macro(definition) => if is_unsupported(definition) {
                Some(
                    MacroErrorView::at(
                        "E-MACRO-011"@,
                        "definition-syntax and module-syntax macros are not supported by the typed expander"@,
                        definition.origin,
                    ),
                )
            } else if seen.contains(definition.name.value) {
                Some(
                    MacroErrorView::at(
                        "E-MOD-002"@,
                        "duplicate macro `"@ + definition.name.value + "` across physical module parts"@,
                        definition.origin,
                    ),
                )
            } else {
                macro_failure(forms, from + 1, seen.insert(definition.name.value))
            },
            _ => macro_failure(forms, from + 1, seen),
        }
    }
}

fn as_macro<'a>(form: &'a TopLevel) -> (result: Option<&'a Macro>)
    ensures
        match result {
            Some(definition) => view::top_level(*form) == TopLevelView::Macro(view::macro_definition(*definition)),
            None => !(view::top_level(*form) is Macro),
        },
{
    reveal(view::top_level);
    match form {
        TopLevel::Macro(definition) => Some(definition),
        _ => None,
    }
}

fn check_macros(forms: &Vec<&TopLevel>) -> (result: Result<(), MacroExpansionError>)
    ensures
        match result {
            Ok(_) => macro_failure(form_refs(forms@), 0, Set::empty()) is None,
            Err(error) => macro_failure(form_refs(forms@), 0, Set::empty()) == Some(error@),
        },
{
    let ghost all = form_refs(forms@);
    let mut seen: Vec<String> = Vec::new();
    let ghost mut known: Set<Seq<char>> = Set::empty();
    let mut i: usize = 0;
    while i < forms.len()
        invariant
            i <= forms.len(),
            all == form_refs(forms@),
            forall|name: Seq<char>| known.contains(name) == crate::names::names_contain(seen@, name),
            macro_failure(all, 0, Set::empty()) == macro_failure(all, i as int, known),
        decreases forms.len() - i,
    {
        assert(all[i as int] == view::top_level(*forms@[i as int]));
        match as_macro(forms[i]) {
            Some(definition) => {
                if unsupported(definition) {
                    return Err(
                        MacroExpansionError::at(
                            "E-MACRO-011",
                            owned("definition-syntax and module-syntax macros are not supported by the typed expander"),
                            &definition.origin,
                        ),
                    );
                }
                if has_name(&seen, definition.name.value.as_str()) {
                    return Err(
                        MacroExpansionError::at(
                            "E-MOD-002",
                            concat_three(
                                "duplicate macro `",
                                definition.name.value.as_str(),
                                "` across physical module parts",
                            ),
                            &definition.origin,
                        ),
                    );
                }
                let ghost before = seen@;
                seen.push(definition.name.value.clone());
                proof {
                    known = known.insert(definition.name.value@);
                    crate::names::lemma_contain_push(before, seen@.last());
                }
            }
            None => {}
        }
        i += 1;
    }
    Ok(())
}

/// The name under which a macro is called.
pub open spec fn call_name(alias: Option<Seq<char>>, name: Seq<char>) -> Seq<char> {
    match alias {
        Some(alias) => alias + "."@ + name,
        None => name,
    }
}

/// `table` with the macros among `forms[from..]`.
pub open spec fn with_macros(
    table: Map<Seq<char>, MacroEntryView>,
    forms: Seq<TopLevelView>,
    from: int,
    symbols: Set<Seq<char>>,
    alias: Option<Seq<char>>,
) -> Map<Seq<char>, MacroEntryView>
    decreases forms.len() - from,
{
    if from < 0 || from >= forms.len() {
        table
    } else {
        match forms[from] {
            TopLevelView::Macro(definition) => with_macros(
                table.insert(
                    call_name(alias, definition.name.value),
                    MacroEntryView { definition, symbols, alias },
                ),
                forms,
                from + 1,
                symbols,
                alias,
            ),
            _ => with_macros(table, forms, from + 1, symbols, alias),
        }
    }
}

fn add_macros<'a>(
    table: &mut NameMap<MacroEntry<'a>>,
    forms: &Vec<&'a TopLevel>,
    symbols: &'a Vec<String>,
    alias: Option<&'a String>,
)
    requires
        old(table).well_formed(),
    ensures
        final(table).well_formed(),
        final(table).entries() == with_macros(
            old(table).entries(),
            form_refs(forms@),
            0,
            crate::names::name_set(symbols@),
            match alias {
                Some(alias) => Some(alias@),
                None => None,
            },
        ),
{
    let ghost all = form_refs(forms@);
    let ghost start = table.entries();
    let ghost names = crate::names::name_set(symbols@);
    let ghost prefix = match alias {
        Some(alias) => Some(alias@),
        None => None,
    };
    let mut i: usize = 0;
    while i < forms.len()
        invariant
            i <= forms.len(),
            all == form_refs(forms@),
            names == crate::names::name_set(symbols@),
            prefix == match alias {
                Some(alias) => Some(alias@),
                None => None,
            },
            start == old(table).entries(),
            table.well_formed(),
            with_macros(start, all, 0, names, prefix) == with_macros(table.entries(), all, i as int, names, prefix),
        decreases forms.len() - i,
    {
        assert(all[i as int] == view::top_level(*forms@[i as int]));
        match as_macro(forms[i]) {
            Some(definition) => {
                let key = match alias {
                    Some(alias) => concat_three(alias.as_str(), ".", definition.name.value.as_str()),
                    None => definition.name.value.clone(),
                };
                let entry = MacroEntry { definition, symbols, alias };
                assert(
                    entry@ == (
                        MacroEntryView { definition: view::macro_definition(*definition), symbols: names, alias: prefix }
                    )
                );
                table.bind_entry(key, entry);
            }
            None => {}
        }
        i += 1;
    }
}

/// A program: the physical parts of each module, by module path.
pub type ProgramView = Seq<(Seq<char>, Seq<ModuleView>)>;

/// Import aliases and the module paths that they stand for.
pub type ImportsView = Seq<(Seq<char>, Seq<char>)>;

pub open spec fn program_view(modules: Seq<(String, Vec<Module>)>) -> ProgramView {
    Seq::new(modules.len(), |i: int| (modules[i].0@, view::modules(modules[i].1@)))
}

pub open spec fn aliases_view(imports: Seq<(String, String)>) -> ImportsView {
    Seq::new(imports.len(), |i: int| (imports[i].0@, imports[i].1@))
}

pub open spec fn imports_view(imports: Seq<(String, Vec<(String, String)>)>) -> Seq<(Seq<char>, ImportsView)> {
    Seq::new(imports.len(), |i: int| (imports[i].0@, aliases_view(imports[i].1@)))
}

/// The first module at or after `from` with this path.
pub open spec fn module_index(program: ProgramView, path: Seq<char>, from: int) -> Option<int>
    decreases program.len() - from,
{
    if from < 0 || from >= program.len() {
        None
    } else if program[from].0 == path {
        Some(from)
    } else {
        module_index(program, path, from + 1)
    }
}

fn find_module(modules: &Vec<(String, Vec<Module>)>, path: &str) -> (result: Option<usize>)
    ensures
        match result {
            Some(index) => index < modules@.len() && module_index(
                program_view(modules@),
                path@,
                0,
            ) == Some(index as int),
            None => module_index(program_view(modules@), path@, 0) is None,
        },
{
    let ghost program = program_view(modules@);
    let mut i: usize = 0;
    while i < modules.len()
        invariant
            i <= modules@.len(),
            program == program_view(modules@),
            module_index(program, path@, 0) == module_index(program, path@, i as int),
        decreases modules@.len() - i,
    {
        if same_text(modules[i].0.as_str(), path) {
            return Some(i);
        }
        i += 1;
    }
    None
}

/// The direct imports of the module with this path.
pub open spec fn imports_of(imports: Seq<(Seq<char>, ImportsView)>, path: Seq<char>, from: int) -> ImportsView
    decreases imports.len() - from,
{
    if from < 0 || from >= imports.len() {
        Seq::empty()
    } else if imports[from].0 == path {
        imports[from].1
    } else {
        imports_of(imports, path, from + 1)
    }
}

/// `table` with the macros that `imports[from..]` bring in.
pub open spec fn with_imports(
    table: Map<Seq<char>, MacroEntryView>,
    program: ProgramView,
    imports: ImportsView,
    from: int,
) -> Map<Seq<char>, MacroEntryView>
    decreases imports.len() - from,
{
    if from < 0 || from >= imports.len() {
        table
    } else {
        let (alias, target) = imports[from];
        let table = match module_index(program, target, 0) {
            Some(index) => {
                let forms = all_forms(program[index].1);
                with_macros(table, forms, 0, symbols_of(forms), Some(alias))
            },
            None => table,
        };
        with_imports(table, program, imports, from + 1)
    }
}

/// The macros that a module can call: its own, then those of its imports.
pub open spec fn macro_table(program: ProgramView, imports: Seq<(Seq<char>, ImportsView)>, path: Seq<char>) -> Map<
Seq<char>,
MacroEntryView,
> {
    let own = match module_index(program, path, 0) {
        Some(index) => {
            let forms = all_forms(program[index].1);
            with_macros(Map::empty(), forms, 0, symbols_of(forms), None)
        },
        None => Map::empty(),
    };
    with_imports(own, program, imports_of(imports, path, 0), 0)
}

/// The forms and the declared names of every module.
pub struct Registry<'a> {
    pub forms: Vec<Vec<&'a TopLevel>>,
    pub symbols: Vec<Vec<String>>,
}

impl<'a> Registry<'a> {
    pub open spec fn describes(&self, program: ProgramView) -> bool {
        &&& self.forms@.len() == program.len()
        &&& self.symbols@.len() == program.len()
        &&& forall|i: int| 0 <= i < program.len() ==> form_refs((#[trigger] self.forms@[i])@) == all_forms(program[i].1)
        &&& forall|i: int|
        0 <= i < program.len() ==> crate::names::name_set((#[trigger] self.symbols@[i])@) == symbols_of(
            all_forms(program[i].1),
        )
    }
}

/// Why the macros of the modules `program[from..]` cannot be registered.
pub open spec fn program_failure(program: ProgramView, from: int) -> Option<MacroErrorView>
    decreases program.len() - from,
{
    if from < 0 || from >= program.len() {
        None
    } else {
        match macro_failure(all_forms(program[from].1), 0, Set::empty()) {
            Some(error) => Some(error),
            None => program_failure(program, from + 1),
        }
    }
}

fn collect_program_macros<'a>(modules: &'a Vec<(String, Vec<Module>)>) -> (result: Result<
    Registry<'a>,
    MacroExpansionError,
    >)
    ensures
        match result {
            Ok(registry) => program_failure(
                program_view(modules@),
                0,
            ) is None && registry.describes(program_view(modules@)),
            Err(error) => program_failure(program_view(modules@), 0) == Some(error@),
        },
{
    let ghost program = program_view(modules@);
    let mut forms: Vec<Vec<&'a TopLevel>> = Vec::new();
    let mut symbols: Vec<Vec<String>> = Vec::new();
    let mut i: usize = 0;
    while i < modules.len()
        invariant
            i <= modules@.len(),
            program == program_view(modules@),
            forms@.len() == i,
            symbols@.len() == i,
            forall|j: int| 0 <= j < i ==> form_refs((#[trigger] forms@[j])@) == all_forms(program[j].1),
            forall|j: int|
            0 <= j < i ==> crate::names::name_set((#[trigger] symbols@[j])@) == symbols_of(all_forms(program[j].1)),
            program_failure(program, 0) == program_failure(program, i as int),
        decreases modules@.len() - i,
    {
        let declared = module_forms(&modules[i].1);
        match check_macros(&declared) {
            Ok(_) => {}
            Err(error) => return Err(error),
        }
        let names = collect_symbols(&declared);
        forms.push(declared);
        symbols.push(names);
        i += 1;
    }
    Ok(Registry { forms, symbols })
}

fn macro_table_for_module<'a>(
    path: &str,
    modules: &'a Vec<(String, Vec<Module>)>,
    imports: &'a Vec<(String, Vec<(String, String)>)>,
    registry: &'a Registry<'a>,
) -> (table: NameMap<MacroEntry<'a>>)
    requires
        registry.describes(program_view(modules@)),
    ensures
        table.well_formed(),
        table.entries() == macro_table(program_view(modules@), imports_view(imports@), path@),
{
    let ghost program = program_view(modules@);
    let ghost all_imports = imports_view(imports@);
    let mut table: NameMap<MacroEntry<'a>> = NameMap::new();
    assert(table.entries() =~= Map::<Seq<char>, MacroEntryView>::empty());
    match find_module(modules, path) {
        Some(index) => {
            add_macros(&mut table, &registry.forms[index], &registry.symbols[index], None);
        }
        None => {}
    }
    let ghost own = table.entries();
    let mut i: usize = 0;
    while i < imports.len()
        invariant
            i <= imports@.len(),
            program == program_view(modules@),
            all_imports == imports_view(imports@),
            registry.describes(program),
            table.well_formed(),
            table.entries() == own,
            macro_table(program, all_imports, path@) == with_imports(
                own,
                program,
                imports_of(all_imports, path@, 0),
                0,
            ),
            imports_of(all_imports, path@, 0) == imports_of(all_imports, path@, i as int),
        decreases imports@.len() - i,
    {
        if same_text(imports[i].0.as_str(), path) {
            add_imports(&mut table, &imports[i].1, modules, registry);
            return table;
        }
        i += 1;
    }
    assert(imports_of(all_imports, path@, i as int) =~= Seq::empty());
    table
}

fn add_imports<'a>(
    table: &mut NameMap<MacroEntry<'a>>,
    direct: &'a Vec<(String, String)>,
    modules: &'a Vec<(String, Vec<Module>)>,
    registry: &'a Registry<'a>,
)
    requires
        old(table).well_formed(),
        registry.describes(program_view(modules@)),
    ensures
        final(table).well_formed(),
        final(table).entries() == with_imports(old(table).entries(), program_view(modules@), aliases_view(direct@), 0),
{
    let ghost program = program_view(modules@);
    let ghost all = aliases_view(direct@);
    let ghost start = table.entries();
    let mut i: usize = 0;
    while i < direct.len()
        invariant
            i <= direct@.len(),
            program == program_view(modules@),
            all == aliases_view(direct@),
            start == old(table).entries(),
            registry.describes(program),
            table.well_formed(),
            with_imports(start, program, all, 0) == with_imports(table.entries(), program, all, i as int),
        decreases direct@.len() - i,
    {
        assert(all[i as int] == (direct@[i as int].0@, direct@[i as int].1@));
        match find_module(modules, direct[i].1.as_str()) {
            Some(index) => {
                assert(form_refs(registry.forms@[index as int]@) == all_forms(program[index as int].1));
                assert(
                    crate::names::name_set(registry.symbols@[index as int]@) == symbols_of(
                        all_forms(program[index as int].1),
                    )
                );
                add_macros(table, &registry.forms[index], &registry.symbols[index], Some(&direct[i].0));
            }
            None => {}
        }
        i += 1;
    }
}

/// The modules `program[from..]` after expansion; the counters run on through
/// the whole program.
pub open spec fn expanded_modules(
    program: ProgramView,
    imports: Seq<(Seq<char>, ImportsView)>,
    from: int,
    done: ProgramView,
    state: ExpansionState,
) -> Result<ProgramView, MacroErrorView>
    decreases program.len() - from,
{
    if from < 0 || from >= program.len() {
        Ok(done)
    } else {
        match expanded_parts(program[from].1, 0, Seq::empty(), macro_table(program, imports, program[from].0), state) {
            Err(error) => Err(error),
            Ok((parts, state)) => expanded_modules(
                program,
                imports,
                from + 1,
                done.push((program[from].0, parts)),
                state,
            ),
        }
    }
}

/// A program after macro expansion, or the first diagnostic.
pub open spec fn expanded_program(program: ProgramView, imports: Seq<(Seq<char>, ImportsView)>) -> Result<
ProgramView,
MacroErrorView,
> {
    match program_failure(program, 0) {
        Some(error) => Err(error),
        None => expanded_modules(program, imports, 0, Seq::empty(), ExpansionState::initial()),
    }
}

/// Expands a complete typed program, module by module in the order of their
/// paths, while keeping its physical parts.
///
/// Each entry of `modules` holds a canonical module path and the module's
/// physical parts. `imports` maps a module path to its direct aliases and the
/// module paths that they stand for.
pub fn expand_typed_macro_program(
    modules: Vec<(String, Vec<Module>)>,
    imports: &Vec<(String, Vec<(String, String)>)>,
) -> (result: Result<Vec<(String, Vec<Module>)>, MacroExpansionError>)
    requires
        crate::code::workspace_path::entries_ascending(modules@),
    ensures
        match result {
            Ok(value) => expanded_program(program_view(modules@), imports_view(imports@))
                == Ok::<ProgramView, MacroErrorView>(
                program_view(value@),
            ),
            Err(error) => expanded_program(program_view(modules@), imports_view(imports@))
                == Err::<ProgramView, MacroErrorView>(
                error@,
            ),
        },
{
    let ghost program = program_view(modules@);
    let ghost all_imports = imports_view(imports@);
    let registry = match collect_program_macros(&modules) {
        Ok(value) => value,
        Err(error) => return Err(error),
    };
    let mut state = ExpansionState::new();
    let mut expanded: Vec<(String, Vec<Module>)> = Vec::new();
    let mut i: usize = 0;
    assert(program_view(expanded@) =~= Seq::<(Seq<char>, Seq<ModuleView>)>::empty());
    while i < modules.len()
        invariant
            i <= modules@.len(),
            program == program_view(modules@),
            all_imports == imports_view(imports@),
            registry.describes(program),
            expanded_program(program, all_imports) == expanded_modules(
                program,
                all_imports,
                i as int,
                program_view(expanded@),
                state,
            ),
        decreases modules@.len() - i,
    {
        let ghost before = expanded@;
        assert(program[i as int] == (modules@[i as int].0@, view::modules(modules@[i as int].1@)));
        let table = macro_table_for_module(modules[i].0.as_str(), &modules, imports, &registry);
        let parts = match expand_parts(&modules[i].1, &table, &mut state) {
            Ok(value) => value,
            Err(error) => return Err(error),
        };
        expanded.push((modules[i].0.clone(), parts));
        assert(program_view(expanded@) =~= program_view(before).push(
                (program[i as int].0, view::modules(expanded@.last().1@)),
        ));
        i += 1;
    }
    Ok(expanded)
}

/// The macros that a detached module can call.
pub open spec fn own_macros(module: ModuleView) -> Map<Seq<char>, MacroEntryView> {
    with_macros(Map::empty(), module.forms, 0, symbols_of(module.forms), None)
}

/// A detached module after macro expansion, or the first diagnostic.
pub open spec fn expanded_detached(module: ModuleView) -> Result<ModuleView, MacroErrorView> {
    match macro_failure(module.forms, 0, Set::empty()) {
        Some(error) => Err(error),
        None => match expanded_module(module, own_macros(module), ExpansionState::initial()) {
            Err(error) => Err(error),
            Ok((module, _)) => Ok(module),
        },
    }
}

fn part_forms<'a>(module: &'a Module) -> (result: Vec<&'a TopLevel>)
    ensures
        form_refs(result@) == view::module(*module).forms,
{
    let ghost all = view::top_levels(module.forms@);
    let mut result: Vec<&'a TopLevel> = Vec::new();
    let mut i: usize = 0;
    while i < module.forms.len()
        invariant
            i <= module.forms@.len(),
            all == view::top_levels(module.forms@),
            result@.len() == i,
            forall|j: int| 0 <= j < i ==> view::top_level(*(#[trigger] result@[j])) == all[j],
        decreases module.forms@.len() - i,
    {
        result.push(&module.forms[i]);
        assert(all[i as int] == view::top_level(module.forms@[i as int]));
        i += 1;
    }
    assert(form_refs(result@) =~= all);
    result
}

/// Expands a single module that has no imports.
pub fn expand_typed_macros(module: Module) -> (result: Result<Module, MacroExpansionError>)
    ensures
        match result {
            Ok(value) => expanded_detached(
                view::module(module),
            ) == Ok::<ModuleView, MacroErrorView>(view::module(value)),
            Err(error) => expanded_detached(view::module(module)) == Err::<ModuleView, MacroErrorView>(error@),
        },
{
    let forms = part_forms(&module);
    match check_macros(&forms) {
        Ok(_) => {}
        Err(error) => return Err(error),
    }
    let symbols = collect_symbols(&forms);
    let mut table: NameMap<MacroEntry> = NameMap::new();
    assert(table.entries() =~= Map::<Seq<char>, MacroEntryView>::empty());
    add_macros(&mut table, &forms, &symbols, None);
    let mut state = ExpansionState::new();
    expand_module_with_table(&module, &table, &mut state)
}

/// Expanding a detached module is expanding the program that consists of it.
pub proof fn law_detached_module_is_a_one_module_program(module: ModuleView)
    ensures
        match expanded_program(seq![("<detached>"@, seq![module])], Seq::empty()) {
            Ok(program) => program.len() == 1 && program[0].1.len() == 1 && expanded_detached(module) == Ok::<
            ModuleView,
            MacroErrorView,
            >(program[0].1[0]),
            Err(error) => expanded_detached(module) == Err::<ModuleView, MacroErrorView>(error),
        },
{
    let parts = seq![module];
    let program = seq![("<detached>"@, parts)];
    let imports = Seq::<(Seq<char>, ImportsView)>::empty();
    assert(parts.drop_last() =~= Seq::<ModuleView>::empty());
    reveal_with_fuel(all_forms, 2);
    assert(all_forms(parts) =~= module.forms);
    reveal_with_fuel(program_failure, 2);
    reveal_with_fuel(module_index, 2);
    assert(imports_of(imports, program[0].0, 0) =~= Seq::empty());
    assert(macro_table(program, imports, program[0].0) == own_macros(module));
    let state = ExpansionState::initial();
    let table = own_macros(module);
    reveal_with_fuel(expanded_parts, 2);
    reveal_with_fuel(expanded_modules, 2);
    match expanded_module(module, table, state) {
        Ok((value, after)) => {
            assert(expanded_parts(parts, 0, Seq::empty(), table, state) == Ok::<
                (Seq<ModuleView>, ExpansionState),
                MacroErrorView,
                >((Seq::empty().push(value), after)));
        },
        Err(error) => {},
    }
}

/// No macro definition is left among expanded forms.
pub proof fn law_expansion_removes_macro_definitions(
    forms: Seq<TopLevelView>,
    from: int,
    done: Seq<TopLevelView>,
    table: Map<Seq<char>, MacroEntryView>,
    state: ExpansionState,
)
    requires
        forall|i: int| 0 <= i < done.len() ==> !((#[trigger] done[i]) is Macro),
    ensures
        match expanded_forms(forms, from, done, table, state) {
            Ok((result, _)) => forall|i: int| 0 <= i < result.len() ==> !((#[trigger] result[i]) is Macro),
            Err(_) => true,
        },
    decreases forms.len() - from,
{
    if 0 <= from < forms.len() {
        if forms[from] is Macro {
            law_expansion_removes_macro_definitions(forms, from + 1, done, table, state);
        } else {
            match expanded_top_level(forms[from], table, state) {
                Ok((form, after)) => {
                    reveal(expanded_top_level);
                    assert(!(form is Macro));
                    law_expansion_removes_macro_definitions(forms, from + 1, done.push(form), table, after);
                },
                Err(_) => {},
            }
        }
    }
}


} // verus!
