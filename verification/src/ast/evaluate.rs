//! Evaluation of macro bodies.
use vstd::prelude::*;
use crate::ast::expansion_state::{
    self, category_text, step, ExpansionState, FragmentView, SyntaxFragment,
};
use crate::ast::grammar;
use crate::ast::hygiene::{
    self, hygienize_expr, hygienize_pattern, qualify_pattern, qualify_type_expr, Site, SiteView,
};
use crate::ast::lower::{
    lower_expression_node_with_id, lower_pattern_node_with_id, lower_top_level_node_with_id, lower_type_node_with_id,
};
use crate::ast::macro_error::{MacroErrorView, MacroExpansionError};
use crate::ast::substitute::{self, substitute_expr, substitute_pattern, substitute_type_expr};
use crate::ast::surface::{
    DocumentId, ExprKind, Literal, Macro, MacroExpr, MacroExprKind, Origin, Spanned, SyntaxCategory, TopLevel,
};
use crate::ast::view::{self, ExprKindView, LiteralView, MacroExprKindView, MacroExprView, MacroView};
use crate::names::NameMap;
use crate::syntax::{self, Atom, AtomView, Node, NodeView};
use crate::text::{concat_five, concat_three, decimal_text, owned};

verus! {

/// One call of a macro: its definition, the call and what the caller knows of
/// the defining module.
pub struct Invocation<'a> {
    pub definition: &'a Macro,
    pub call: &'a Origin,
    pub alias: Option<&'a String>,
    pub symbols: &'a Vec<String>,
}

/// What an [`Invocation`] holds.
pub struct InvocationView {
    pub definition: MacroView,
    pub call: Origin,
    pub alias: Option<Seq<char>>,
    pub symbols: Set<Seq<char>>,
}

impl InvocationView {
    /// The document of the definition.
    pub open spec fn document(self) -> DocumentId {
        match self.definition.origin.document() {
            Some(document) => document,
            None => DocumentId::none(),
        }
    }

    /// The site of the quotation with this number.
    pub open spec fn site(self, hygiene_id: usize) -> SiteView {
        SiteView {
            document: self.document(),
            span: self.definition.span,
            hygiene_id,
            alias: self.alias,
            symbols: self.symbols,
        }
    }
}

impl<'a> Invocation<'a> {
    pub open spec fn view(&self) -> InvocationView {
        InvocationView {
            definition: view::macro_definition(*self.definition),
            call: *self.call,
            alias: match self.alias {
                Some(alias) => Some(alias@),
                None => None,
            },
            symbols: crate::names::name_set(self.symbols@),
        }
    }
}

pub open spec fn category_failure(definition: MacroView, expected: SyntaxCategory, call: Origin) -> MacroErrorView {
    MacroErrorView::at(
        "E-MACRO-002"@,
        "macro `"@ + definition.name.value + "` returns "@ + expansion_state::category_name(definition.result.value)
        + " syntax but is used as "@ + expansion_state::category_name(expected) + " syntax"@,
        call,
    ).with_related("macro declared here"@, definition.result.origin)
}

pub(crate) fn category_error(
    definition: &Macro,
    expected: SyntaxCategory,
    call: &Origin,
) -> (error: MacroExpansionError)
    ensures
        error@ == category_failure(view::macro_definition(*definition), expected, *call),
{
    let mut message = concat_five(
        "macro `",
        definition.name.value.as_str(),
        "` returns ",
        category_text(definition.result.value),
        " syntax but is used as ",
    );
    message.append(category_text(expected));
    message.append(" syntax");
    MacroExpansionError::at("E-MACRO-002", message, call).related("macro declared here", &definition.result.origin)
}

/// The fragment that a quotation yields.
#[verifier::opaque]
pub open spec fn quoted(
    category: SyntaxCategory,
    form: NodeView,
    environment: Map<Seq<char>, FragmentView>,
    invocation: InvocationView,
    hygiene_id: usize,
) -> Result<FragmentView, MacroErrorView> {
    let document = invocation.document();
    let site = invocation.site(hygiene_id);
    match category {
        SyntaxCategory::Expression => match grammar::expr(form, document) {
            Err(error) => Err(MacroErrorView::lowering(error, document)),
            Ok(value) => match substitute::substituted_expr(value, environment, invocation.call) {
                Err(error) => Err(error),
                Ok(value) => Ok(FragmentView::Expression(hygiene::hygienic_expr(value, site, Map::empty()).0)),
            },
        },
        SyntaxCategory::Type => match grammar::type_expr(form, document) {
            Err(error) => Err(MacroErrorView::lowering(error, document)),
            Ok(value) => match substitute::substituted_type_expr(value, environment) {
                Err(error) => Err(error),
                Ok(value) => Ok(FragmentView::Type(hygiene::qualified_type_expr(value, site))),
            },
        },
        SyntaxCategory::Pattern => match grammar::pattern(form, document) {
            Err(error) => Err(MacroErrorView::lowering(error, document)),
            Ok(value) => match substitute::substituted_pattern(value, environment) {
                Err(error) => Err(error),
                Ok(value) => Ok(
                    FragmentView::Pattern(
                        hygiene::qualified_pattern(hygiene::hygienic_pattern(value, site, Map::empty()).0, site),
                    ),
                ),
            },
        },
        SyntaxCategory::Definition => match grammar::top_level(form, document) {
            Err(error) => Err(MacroErrorView::lowering(error, document)),
            Ok(value) => Ok(FragmentView::Definition(value)),
        },
        SyntaxCategory::Module => match grammar::top_level(form, document) {
            Err(error) => Err(MacroErrorView::lowering(error, document)),
            Ok(value) => Ok(FragmentView::Module(seq![value])),
        },
    }
}

fn quote(
    category: SyntaxCategory,
    form: &Node,
    environment: &NameMap<SyntaxFragment>,
    invocation: &Invocation,
    hygiene_id: usize,
) -> (result: Result<SyntaxFragment, MacroExpansionError>)
    requires
        environment.well_formed(),
    ensures
        match result {
            Ok(value) => quoted(
                category,
                syntax::node_view(*form),
                environment.fragments(),
                invocation@,
                hygiene_id,
            ) == Ok::<
            FragmentView,
            MacroErrorView,
            >(value@),
            Err(error) => quoted(
                category,
                syntax::node_view(*form),
                environment.fragments(),
                invocation@,
                hygiene_id,
            ) == Err::<
            FragmentView,
            MacroErrorView,
            >(error@),
        },
{
    reveal(quoted);
    let document = match invocation.definition.origin.document_id() {
        Some(document) => document,
        None => DocumentId::anonymous(),
    };
    let site = Site {
        document,
        span: invocation.definition.span,
        hygiene_id,
        alias: invocation.alias,
        symbols: invocation.symbols,
    };
    assert(site@ == invocation@.site(hygiene_id));
    let mut bindings: NameMap<String> = NameMap::new();
    assert(bindings.texts() =~= Map::<Seq<char>, Seq<char>>::empty());
    match category {
        SyntaxCategory::Expression => match lower_expression_node_with_id(form, document) {
            Err(error) => Err(MacroExpansionError::from_ast(error, document)),
            Ok(value) => {
                let value = match substitute_expr(&value, environment, invocation.call) {
                    Ok(value) => value,
                    Err(error) => return Err(error),
                };
                Ok(SyntaxFragment::Expression(hygienize_expr(&value, &site, &mut bindings)))
            }
        },
        SyntaxCategory::Type => match lower_type_node_with_id(form, document) {
            Err(error) => Err(MacroExpansionError::from_ast(error, document)),
            Ok(value) => {
                let value = match substitute_type_expr(&value, environment) {
                    Ok(value) => value,
                    Err(error) => return Err(error),
                };
                Ok(SyntaxFragment::Type(qualify_type_expr(&value, &site)))
            }
        },
        SyntaxCategory::Pattern => match lower_pattern_node_with_id(form, document) {
            Err(error) => Err(MacroExpansionError::from_ast(error, document)),
            Ok(value) => {
                let value = match substitute_pattern(&value, environment) {
                    Ok(value) => value,
                    Err(error) => return Err(error),
                };
                let value = hygienize_pattern(&value, &site, &mut bindings);
                Ok(SyntaxFragment::Pattern(qualify_pattern(&value, &site)))
            }
        },
        SyntaxCategory::Definition => match lower_top_level_node_with_id(form, document) {
            Err(error) => Err(MacroExpansionError::from_ast(error, document)),
            Ok(value) => Ok(SyntaxFragment::Definition(value)),
        },
        SyntaxCategory::Module => match lower_top_level_node_with_id(form, document) {
            Err(error) => Err(MacroExpansionError::from_ast(error, document)),
            Ok(value) => {
                let mut forms: Vec<TopLevel> = Vec::new();
                forms.push(value);
                assert(view::top_levels(forms@) =~= seq![view::top_level(forms@[0])]);
                Ok(SyntaxFragment::Module(forms))
            }
        },
    }
}

/// What evaluation yields: a fragment, the compile-time bindings and the
/// counters.
pub type Evaluated = Result<(FragmentView, Map<Seq<char>, FragmentView>, ExpansionState), MacroErrorView>;

/// The truth value of a macro condition.
pub open spec fn truth(fragment: FragmentView) -> Option<bool> {
    match fragment {
        FragmentView::Bool(value) => Some(value),
        FragmentView::Expression(value) => match value.value {
            ExprKindView::Literal(LiteralView::Bool(value)) => Some(value),
            _ => None,
        },
        _ => None,
    }
}

fn truth_of(fragment: &SyntaxFragment) -> (result: Option<bool>)
    ensures
        result == truth(fragment@),
{
    reveal(view::expr_kind);
    match fragment {
        SyntaxFragment::Bool(value) => Some(*value),
        SyntaxFragment::Expression(value) => match &value.value {
            ExprKind::Literal(Literal::Bool(value)) => Some(*value),
            _ => None,
        },
        _ => None,
    }
}

/// The binding `name`, or the given refusal.
pub open spec fn looked_up(
    name: Seq<char>,
    environment: Map<Seq<char>, FragmentView>,
    state: ExpansionState,
    failure: MacroErrorView,
) -> Evaluated {
    if environment.dom().contains(name) {
        Ok((environment[name], environment, state))
    } else {
        Err(failure)
    }
}

/// A macro expression: each evaluation costs one step.
pub open spec fn evaluated(
    expression: MacroExprView,
    environment: Map<Seq<char>, FragmentView>,
    invocation: InvocationView,
    state: ExpansionState,
) -> Evaluated
    decreases expression, 0int,
{
    match state.stepped(expression.origin) {
        Err(error) => Err(error),
        Ok(state) => match expression.value {
            MacroExprKindView::Atom(AtomView::Bool(value)) => Ok((FragmentView::Bool(value), environment, state)),
            MacroExprKindView::Atom(AtomView::Symbol(name)) => looked_up(
                name,
                environment,
                state,
                substitute::unknown_binding("unknown compile-time binding `"@, name, expression.origin),
            ),
            MacroExprKindView::Atom(_) => Err(
                MacroErrorView::at(
                    "E-MACRO-004"@,
                    "macro atoms must be booleans or syntax bindings"@,
                    expression.origin,
                ),
            ),
            MacroExprKindView::Let { .. } => Err(
                MacroErrorView::at(
                    "E-MACRO-004"@,
                    "`let` is only valid as a macro body statement"@,
                    expression.origin,
                ),
            ),
            MacroExprKindView::If { condition, then_body, else_body } => match evaluated(
                *condition,
                environment,
                invocation,
                state,
            ) {
                Err(error) => Err(error),
                Ok((condition, environment, state)) => match truth(condition) {
                    None => Err(
                        MacroErrorView::at(
                            "E-MACRO-005"@,
                            "macro `if` condition must be boolean syntax"@,
                            expression.origin,
                        ),
                    ),
                    Some(true) => evaluated_body(then_body, 0, None, environment, invocation, state),
                    Some(false) => evaluated_body(else_body, 0, None, environment, invocation, state),
                },
            },
            MacroExprKindView::Quote { category, form } => {
                let state = state.quoting();
                match quoted(category.value, form, environment, invocation, state.hygiene_id) {
                    Err(error) => Err(error),
                    Ok(fragment) => Ok((fragment, environment, state)),
                }
            },
            MacroExprKindView::Unquote(name) => looked_up(
                name.value,
                environment,
                state,
                substitute::unknown_binding("unknown unquote binding `"@, name.value, name.origin),
            ),
            MacroExprKindView::Splice(name) => Err(
                MacroErrorView::at(
                    "E-MACRO-007"@,
                    "splice `"@ + name.value + "` is only valid inside a quoted sequence"@,
                    name.origin,
                ),
            ),
            MacroExprKindView::Capture(name) => Ok(
                (
                    FragmentView::Expression(
                        Spanned {
                            value: ExprKindView::Reference(name.value),
                            span: name.span,
                            origin: invocation.call,
                        },
                    ),
                    environment,
                    state,
                ),
            ),
        },
    }
}

/// A macro body: the value of its last expression that is not a `let`.
pub open spec fn evaluated_body(
    body: Seq<MacroExprView>,
    from: int,
    last: Option<FragmentView>,
    environment: Map<Seq<char>, FragmentView>,
    invocation: InvocationView,
    state: ExpansionState,
) -> Evaluated
    decreases body, body.len() - from,
{
    if from < 0 || from >= body.len() {
        match last {
            Some(fragment) => Ok((fragment, environment, state)),
            None => Err(
                MacroErrorView::at(
                    "E-MACRO-003"@,
                    "macro `"@ + invocation.definition.name.value + "` produced no syntax"@,
                    invocation.definition.origin,
                ),
            ),
        }
    } else {
        match state.stepped(body[from].origin) {
            Err(error) => Err(error),
            Ok(state) => match body[from].value {
                MacroExprKindView::Let { name, value } => match evaluated(*value, environment, invocation, state) {
                    Err(error) => Err(error),
                    Ok((fragment, environment, state)) => evaluated_body(
                        body,
                        from + 1,
                        last,
                        environment.insert(name.value, fragment),
                        invocation,
                        state,
                    ),
                },
                _ => match evaluated(body[from], environment, invocation, state) {
                    Err(error) => Err(error),
                    Ok((fragment, environment, state)) => evaluated_body(
                        body,
                        from + 1,
                        Some(fragment),
                        environment,
                        invocation,
                        state,
                    ),
                },
            },
        }
    }
}

fn evaluate(
    expression: &MacroExpr,
    environment: &mut NameMap<SyntaxFragment>,
    invocation: &Invocation,
    state: &mut ExpansionState,
) -> (result: Result<SyntaxFragment, MacroExpansionError>)
    requires
        old(environment).well_formed(),
    ensures
        final(environment).well_formed(),
        match result {
            Ok(value) => evaluated(
                view::macro_expr(*expression),
                old(environment).fragments(),
                invocation@,
                *old(state),
            )
            == Ok::<(FragmentView, Map<Seq<char>, FragmentView>, ExpansionState), MacroErrorView>(
                (value@, final(environment).fragments(), *final(state)),
            ),
            Err(error) => evaluated(
                view::macro_expr(*expression),
                old(environment).fragments(),
                invocation@,
                *old(state),
            )
            == Err::<(FragmentView, Map<Seq<char>, FragmentView>, ExpansionState), MacroErrorView>(error@),
        },
    decreases expression,
{
    reveal(view::macro_kind);
    match step(state, &expression.origin) {
        Ok(_) => {}
        Err(error) => return Err(error),
    }
    match &expression.value {
        MacroExprKind::Atom(Atom::Bool(value)) => Ok(SyntaxFragment::Bool(*value)),
        MacroExprKind::Atom(Atom::Symbol(name)) => match environment.find(name.as_str()) {
            Some(fragment) => Ok(fragment.copy()),
            None => Err(
                MacroExpansionError::at(
                    "E-MACRO-004",
                    concat_three("unknown compile-time binding `", name.as_str(), "`"),
                    &expression.origin,
                ),
            ),
        },
        MacroExprKind::Atom(_) => Err(
            MacroExpansionError::at(
                "E-MACRO-004",
                owned("macro atoms must be booleans or syntax bindings"),
                &expression.origin,
            ),
        ),
        MacroExprKind::Let { .. } => Err(
            MacroExpansionError::at(
                "E-MACRO-004",
                owned("`let` is only valid as a macro body statement"),
                &expression.origin,
            ),
        ),
        MacroExprKind::If { condition, then_body, else_body } => {
            let condition = match evaluate(condition, environment, invocation, state) {
                Ok(value) => value,
                Err(error) => return Err(error),
            };
            match truth_of(&condition) {
                None => Err(
                    MacroExpansionError::at(
                        "E-MACRO-005",
                        owned("macro `if` condition must be boolean syntax"),
                        &expression.origin,
                    ),
                ),
                Some(true) => evaluate_body(then_body, environment, invocation, state),
                Some(false) => evaluate_body(else_body, environment, invocation, state),
            }
        }
        MacroExprKind::Quote { category, form } => {
            state.next_quotation();
            quote(category.value, form, environment, invocation, state.hygiene_id)
        }
        MacroExprKind::Unquote(name) => match environment.find(name.value.as_str()) {
            Some(fragment) => Ok(fragment.copy()),
            None => Err(
                MacroExpansionError::at(
                    "E-MACRO-004",
                    concat_three("unknown unquote binding `", name.value.as_str(), "`"),
                    &name.origin,
                ),
            ),
        },
        MacroExprKind::Splice(name) => Err(
            MacroExpansionError::at(
                "E-MACRO-007",
                concat_three("splice `", name.value.as_str(), "` is only valid inside a quoted sequence"),
                &name.origin,
            ),
        ),
        MacroExprKind::Capture(name) => {
            reveal(view::expr_kind);
            Ok(
                SyntaxFragment::Expression(
                    Spanned {
                        value: ExprKind::Reference(name.value.clone()),
                        span: name.span,
                        origin: invocation.call.copy(),
                    },
                ),
            )
        }
    }
}

fn evaluate_body(
    body: &Vec<MacroExpr>,
    environment: &mut NameMap<SyntaxFragment>,
    invocation: &Invocation,
    state: &mut ExpansionState,
) -> (result: Result<SyntaxFragment, MacroExpansionError>)
    requires
        old(environment).well_formed(),
    ensures
        final(environment).well_formed(),
        match result {
            Ok(value) => evaluated_body(
                view::macro_exprs(body@),
                0,
                None,
                old(environment).fragments(),
                invocation@,
                *old(state),
            ) == Ok::<(FragmentView, Map<Seq<char>, FragmentView>, ExpansionState), MacroErrorView>(
                (value@, final(environment).fragments(), *final(state)),
            ),
            Err(error) => evaluated_body(
                view::macro_exprs(body@),
                0,
                None,
                old(environment).fragments(),
                invocation@,
                *old(state),
            ) == Err::<(FragmentView, Map<Seq<char>, FragmentView>, ExpansionState), MacroErrorView>(error@),
        },
    decreases body,
{
    let ghost all = view::macro_exprs(body@);
    let ghost start = *state;
    let ghost bindings = environment.fragments();
    let mut last: Option<SyntaxFragment> = None;
    let mut i: usize = 0;
    while i < body.len()
        invariant
            i <= body.len(),
            all == view::macro_exprs(body@),
            environment.well_formed(),
            start == *old(state),
            bindings == old(environment).fragments(),
            evaluated_body(all, 0, None, bindings, invocation@, start) == evaluated_body(
                all,
                i as int,
                match last {
                    Some(fragment) => Some(fragment@),
                    None => None,
                },
                environment.fragments(),
                invocation@,
                *state,
            ),
        decreases body.len() - i,
    {
        reveal(view::macro_kind);
        assert(all[i as int] == view::macro_expr(body@[i as int]));
        match step(state, &body[i].origin) {
            Ok(_) => {}
            Err(error) => return Err(error),
        }
        match &body[i].value {
            MacroExprKind::Let { name, value } => {
                let fragment = match evaluate(value, environment, invocation, state) {
                    Ok(value) => value,
                    Err(error) => return Err(error),
                };
                environment.bind_fragment(name.value.clone(), fragment);
            }
            _ => {
                let fragment = match evaluate(&body[i], environment, invocation, state) {
                    Ok(value) => value,
                    Err(error) => return Err(error),
                };
                last = Some(fragment);
            }
        }
        i += 1;
    }
    match last {
        Some(fragment) => Ok(fragment),
        None => Err(
            MacroExpansionError::at(
                "E-MACRO-003",
                concat_three("macro `", invocation.definition.name.value.as_str(), "` produced no syntax"),
                &invocation.definition.origin,
            ),
        ),
    }
}

/// The arguments bound to the parameters `definition.parameters[from..]`.
pub open spec fn bound_arguments(
    definition: MacroView,
    arguments: Seq<FragmentView>,
    from: int,
    environment: Map<Seq<char>, FragmentView>,
    call: Origin,
) -> Result<Map<Seq<char>, FragmentView>, MacroErrorView>
    decreases definition.parameters.len() - from,
{
    if from < 0 || from >= definition.parameters.len() {
        Ok(environment)
    } else {
        let parameter = definition.parameters[from];
        if arguments[from].category() != Some(parameter.category.value) {
            Err(
                MacroErrorView::at(
                    "E-MACRO-002"@,
                    "argument `"@ + parameter.name.value + "` requires "@ + expansion_state::category_name(
                        parameter.category.value,
                    ) + " syntax"@,
                    call,
                ).with_related("parameter declared here"@, parameter.name.origin),
            )
        } else {
            bound_arguments(
                definition,
                arguments,
                from + 1,
                environment.insert(parameter.name.value, arguments[from]),
                call,
            )
        }
    }
}

/// The fragment that a macro call yields.
#[verifier::opaque]
pub open spec fn invoked(invocation: InvocationView, arguments: Seq<FragmentView>, state: ExpansionState) -> Result<
(FragmentView, ExpansionState),
MacroErrorView,
> {
    let definition = invocation.definition;
    if definition.parameters.len() != arguments.len() {
        Err(
            MacroErrorView::at(
                "E-MACRO-001"@,
                "macro `"@ + definition.name.value + "` expects "@ + crate::text::decimal(definition.parameters.len())
                + " arguments but received "@ + crate::text::decimal(arguments.len()),
                invocation.call,
            ).with_related("macro defined here"@, definition.origin),
        )
    } else {
        match bound_arguments(definition, arguments, 0, Map::empty(), invocation.call) {
            Err(error) => Err(error),
            Ok(environment) => match evaluated_body(definition.body, 0, None, environment, invocation, state) {
                Err(error) => Err(error),
                Ok((fragment, _, state)) => if fragment.category() != Some(definition.result.value) {
                    Err(category_failure(definition, definition.result.value, invocation.call))
                } else {
                    Ok((fragment, state))
                },
            },
        }
    }
}

pub open spec fn fragment_views(fragments: Seq<SyntaxFragment>) -> Seq<FragmentView> {
    Seq::new(fragments.len(), |i: int| fragments[i]@)
}

fn same_category(left: Option<SyntaxCategory>, right: SyntaxCategory) -> (same: bool)
    ensures
        same == (left == Some(right)),
{
    match left {
        Some(left) => left == right,
        None => false,
    }
}

fn bind_arguments(
    definition: &Macro,
    arguments: Vec<SyntaxFragment>,
    call: &Origin,
) -> (result: Result<NameMap<SyntaxFragment>, MacroExpansionError>)
    requires
        arguments@.len() == definition.parameters@.len(),
    ensures
        match result {
            Ok(environment) => environment.well_formed() && bound_arguments(
                view::macro_definition(*definition),
                fragment_views(arguments@),
                0,
                Map::empty(),
                *call,
            ) == Ok::<Map<Seq<char>, FragmentView>, MacroErrorView>(environment.fragments()),
            Err(error) => bound_arguments(
                view::macro_definition(*definition),
                fragment_views(arguments@),
                0,
                Map::empty(),
                *call,
            ) == Err::<Map<Seq<char>, FragmentView>, MacroErrorView>(error@),
        },
{
    let ghost macro_view = view::macro_definition(*definition);
    let ghost all = fragment_views(arguments@);
    let mut environment = NameMap::<SyntaxFragment>::new_environment();
    let mut i: usize = 0;
    while i < definition.parameters.len()
        invariant
            i <= definition.parameters@.len(),
            macro_view == view::macro_definition(*definition),
            all == fragment_views(arguments@),
            arguments@.len() == definition.parameters@.len(),
            environment.well_formed(),
            bound_arguments(macro_view, all, 0, Map::empty(), *call) == bound_arguments(
                macro_view,
                all,
                i as int,
                environment.fragments(),
                *call,
            ),
        decreases definition.parameters@.len() - i,
    {
        let parameter = &definition.parameters[i];
        assert(macro_view.parameters[i as int] == view::macro_parameter(definition.parameters@[i as int]));
        assert(all[i as int] == arguments@[i as int]@);
        if !same_category(arguments[i].category(), parameter.category.value) {
            let message = concat_five(
                "argument `",
                parameter.name.value.as_str(),
                "` requires ",
                category_text(parameter.category.value),
                " syntax",
            );
            return Err(
                MacroExpansionError::at("E-MACRO-002", message, call).related(
                    "parameter declared here",
                    &parameter.name.origin,
                ),
            );
        }
        environment.bind_fragment(parameter.name.value.clone(), arguments[i].copy());
        i += 1;
    }
    Ok(environment)
}

pub(crate) fn invoke(
    invocation: &Invocation,
    arguments: Vec<SyntaxFragment>,
    state: &mut ExpansionState,
) -> (result: Result<SyntaxFragment, MacroExpansionError>)
    ensures
        match result {
            Ok(value) => invoked(invocation@, fragment_views(arguments@), *old(state)) == Ok::<
            (FragmentView, ExpansionState),
            MacroErrorView,
            >((value@, *final(state))),
            Err(error) => invoked(invocation@, fragment_views(arguments@), *old(state)) == Err::<
            (FragmentView, ExpansionState),
            MacroErrorView,
            >(error@),
        },
{
    reveal(invoked);
    let definition = invocation.definition;
    if definition.parameters.len() != arguments.len() {
        let expected = decimal_text(definition.parameters.len() as u64);
        let found = decimal_text(arguments.len() as u64);
        let mut message = concat_five(
            "macro `",
            definition.name.value.as_str(),
            "` expects ",
            expected.as_str(),
            " arguments but received ",
        );
        message.append(found.as_str());
        return Err(
            MacroExpansionError::at("E-MACRO-001", message, invocation.call).related(
                "macro defined here",
                &definition.origin,
            ),
        );
    }
    let mut environment = match bind_arguments(definition, arguments, invocation.call) {
        Ok(value) => value,
        Err(error) => return Err(error),
    };
    let fragment = match evaluate_body(&definition.body, &mut environment, invocation, state) {
        Ok(value) => value,
        Err(error) => return Err(error),
    };
    if !same_category(fragment.category(), definition.result.value) {
        return Err(category_error(definition, definition.result.value, invocation.call));
    }
    Ok(fragment)
}

} // verus!
