//! What macro bodies yield.
use vstd::prelude::*;
use crate::ast::evaluate::{self, Evaluated, InvocationView};
use crate::ast::expansion_state::{ExpansionState, FragmentView};
use crate::ast::macro_error::MacroErrorView;
use crate::ast::substitute;
use crate::ast::surface::{Origin, Spanned};
use crate::ast::view::{ExprKindView, ExprView, LiteralView, MacroExprKindView, MacroExprView, MacroView, NameView};
use crate::syntax::AtomView;

verus! {

/// The bindings of a macro body.
pub type Environment = Map<Seq<char>, FragmentView>;

/// Whether a fragment is a truth value: by itself, or as the literal of one.
pub open spec fn says(fragment: FragmentView, flag: bool) -> bool {
    fragment == FragmentView::Bool(flag) || (fragment matches FragmentView::Expression(value) && value.value
        == ExprKindView::Literal(LiteralView::Bool(flag)))
}

/// A macro `if` yields what its first body yields where its condition is true, what
/// the second yields where it is false, and fails where it is neither.
pub proof fn law_macro_if_yields_the_selected_body(
    expression: MacroExprView,
    condition: FragmentView,
    environment: Environment,
    invocation: InvocationView,
    state: ExpansionState,
    after: Environment,
    next: ExpansionState,
)
    requires
        expression.value is If,
        state.stepped(expression.origin) is Ok,
        evaluate::evaluated(
            *expression.value->If_condition,
            environment,
            invocation,
            state.stepped(expression.origin)->Ok_0,
        ) == Evaluated::Ok((condition, after, next)),
    ensures
        says(condition, true) ==> evaluate::evaluated(expression, environment, invocation, state)
            == evaluate::evaluated_body(expression.value->If_then_body, 0, None, after, invocation, next),
        says(condition, false) ==> evaluate::evaluated(expression, environment, invocation, state)
            == evaluate::evaluated_body(expression.value->If_else_body, 0, None, after, invocation, next),
        !says(condition, true) && !says(condition, false) ==> evaluate::evaluated(
            expression,
            environment,
            invocation,
            state,
        ) is Err,
{
    assert(evaluate::truth(condition) == (if says(condition, true) {
        Some(true)
    } else if says(condition, false) {
        Some(false)
    } else {
        None
    }));
}

/// The words `true` and `false` are conditions: the one selects the first body of a
/// macro `if`, the other the second.
pub proof fn law_constant_macro_conditions_select(
    expression: MacroExprView,
    flag: bool,
    environment: Environment,
    invocation: InvocationView,
    state: ExpansionState,
    middle: ExpansionState,
    next: ExpansionState,
)
    requires
        expression.value is If,
        expression.value->If_condition.value == MacroExprKindView::Atom(AtomView::Bool(flag)),
        state.stepped(expression.origin) == Ok::<ExpansionState, MacroErrorView>(middle),
        middle.stepped(expression.value->If_condition.origin) == Ok::<ExpansionState, MacroErrorView>(next),
    ensures
        evaluate::evaluated(expression, environment, invocation, state) == evaluate::evaluated_body(
            if flag {
                expression.value->If_then_body
            } else {
                expression.value->If_else_body
            },
            0,
            None,
            environment,
            invocation,
            next,
        ),
{
    let condition = *expression.value->If_condition;
    assert(evaluate::evaluated(condition, environment, invocation, middle) == Evaluated::Ok(
        (FragmentView::Bool(flag), environment, next),
    ));
    law_macro_if_yields_the_selected_body(
        expression,
        FragmentView::Bool(flag),
        environment,
        invocation,
        state,
        environment,
        next,
    );
}

/// A name yields what it is bound to and nothing else; so does an unquoted name. A
/// truth value is itself.
pub proof fn law_macro_names_yield_their_bindings(
    expression: MacroExprView,
    environment: Environment,
    invocation: InvocationView,
    state: ExpansionState,
    next: ExpansionState,
)
    requires
        state.stepped(expression.origin) == Ok::<ExpansionState, MacroErrorView>(next),
    ensures
        expression.value matches MacroExprKindView::Atom(AtomView::Bool(flag)) ==> evaluate::evaluated(
            expression,
            environment,
            invocation,
            state,
        ) == Evaluated::Ok((FragmentView::Bool(flag), environment, next)),
        expression.value matches MacroExprKindView::Atom(AtomView::Symbol(name)) ==> (if environment.dom().contains(
            name,
        ) {
            evaluate::evaluated(expression, environment, invocation, state) == Evaluated::Ok(
                (environment[name], environment, next),
            )
        } else {
            evaluate::evaluated(expression, environment, invocation, state) is Err
        }),
        expression.value matches MacroExprKindView::Unquote(name) ==> (if environment.dom().contains(name.value) {
            evaluate::evaluated(expression, environment, invocation, state) == Evaluated::Ok(
                (environment[name.value], environment, next),
            )
        } else {
            evaluate::evaluated(expression, environment, invocation, state) is Err
        }),
        expression.value matches MacroExprKindView::Capture(name) ==> (evaluate::evaluated(
            expression,
            environment,
            invocation,
            state,
        ) matches Ok((FragmentView::Expression(value), after, left)) && value.value == ExprKindView::Reference(name.value)
            && value.origin == invocation.call && after == environment && left == next),
        (expression.value is Splice || expression.value is Let) ==> evaluate::evaluated(
            expression,
            environment,
            invocation,
            state,
        ) is Err,
{
}

/// A body without an expression yields nothing, which is an error.
pub proof fn law_empty_macro_bodies_yield_nothing(
    environment: Environment,
    invocation: InvocationView,
    state: ExpansionState,
)
    ensures
        evaluate::evaluated_body(Seq::empty(), 0, None, environment, invocation, state) is Err,
{
}

/// A `let` in a macro body binds its name to what its value yields, for the rest of
/// the body, and yields nothing itself.
pub proof fn law_macro_let_binds_its_name(
    body: Seq<MacroExprView>,
    from: int,
    last: Option<FragmentView>,
    environment: Environment,
    invocation: InvocationView,
    state: ExpansionState,
    middle: ExpansionState,
    fragment: FragmentView,
    after: Environment,
    next: ExpansionState,
)
    requires
        0 <= from < body.len(),
        body[from].value is Let,
        state.stepped(body[from].origin) == Ok::<ExpansionState, MacroErrorView>(middle),
        evaluate::evaluated(*body[from].value->Let_value, environment, invocation, middle) == Evaluated::Ok(
            (fragment, after, next),
        ),
    ensures
        exists|bound: Environment|
            bound.dom().contains(body[from].value->Let_name.value) && bound[body[from].value->Let_name.value] == fragment
                && (forall|other: Seq<char>|
                other != body[from].value->Let_name.value ==> (#[trigger] bound.dom().contains(other))
                    == after.dom().contains(other) && (after.dom().contains(other) ==> bound[other] == after[other]))
                && evaluate::evaluated_body(body, from, last, environment, invocation, state)
                == #[trigger] evaluate::evaluated_body(body, from + 1, last, bound, invocation, next),
{
    let bound = after.insert(body[from].value->Let_name.value, fragment);
    assert(evaluate::evaluated_body(body, from, last, environment, invocation, state) == evaluate::evaluated_body(
        body,
        from + 1,
        last,
        bound,
        invocation,
        next,
    ));
}

/// The last expression of a macro body is what the body yields.
pub proof fn law_macro_bodies_yield_their_last_expression(
    body: Seq<MacroExprView>,
    last: Option<FragmentView>,
    environment: Environment,
    invocation: InvocationView,
    state: ExpansionState,
    middle: ExpansionState,
)
    requires
        body.len() > 0,
        !(body.last().value is Let),
        state.stepped(body.last().origin) == Ok::<ExpansionState, MacroErrorView>(middle),
    ensures
        evaluate::evaluated_body(body, body.len() - 1, last, environment, invocation, state) == evaluate::evaluated(
            body.last(),
            environment,
            invocation,
            middle,
        ),
{
    let from = body.len() - 1;
    match evaluate::evaluated(body[from], environment, invocation, middle) {
        Err(_) => {}
        Ok((fragment, after, next)) => {
            assert(evaluate::evaluated_body(body, from + 1, Some(fragment), after, invocation, next) == Evaluated::Ok(
                (fragment, after, next),
            ));
        }
    }
}

/// An expression that is not the last one is evaluated before the rest of the body,
/// which does not see what it yields.
pub proof fn law_macro_bodies_go_on_behind_an_expression(
    body: Seq<MacroExprView>,
    from: int,
    last: Option<FragmentView>,
    environment: Environment,
    invocation: InvocationView,
    state: ExpansionState,
    middle: ExpansionState,
)
    requires
        0 <= from < body.len() - 1,
        !(body[from].value is Let),
        !(body.last().value is Let),
        state.stepped(body[from].origin) == Ok::<ExpansionState, MacroErrorView>(middle),
    ensures
        match evaluate::evaluated(body[from], environment, invocation, middle) {
            Err(error) => evaluate::evaluated_body(body, from, last, environment, invocation, state) == Evaluated::Err(
                error,
            ),
            Ok((_, after, next)) => evaluate::evaluated_body(body, from, last, environment, invocation, state)
                == evaluate::evaluated_body(body, from + 1, last, after, invocation, next),
        },
{
    match evaluate::evaluated(body[from], environment, invocation, middle) {
        Err(_) => {}
        Ok((fragment, after, next)) => lemma_last_is_forgotten(
            body,
            from + 1,
            Some(fragment),
            last,
            after,
            invocation,
            next,
        ),
    }
}

proof fn lemma_last_is_forgotten(
    body: Seq<MacroExprView>,
    from: int,
    one: Option<FragmentView>,
    other: Option<FragmentView>,
    environment: Environment,
    invocation: InvocationView,
    state: ExpansionState,
)
    requires
        0 <= from < body.len(),
        !(body.last().value is Let),
    ensures
        evaluate::evaluated_body(body, from, one, environment, invocation, state) == evaluate::evaluated_body(
            body,
            from,
            other,
            environment,
            invocation,
            state,
        ),
    decreases body.len() - from,
{
    match state.stepped(body[from].origin) {
        Err(_) => {}
        Ok(middle) => match body[from].value {
            MacroExprKindView::Let { name, value } => match evaluate::evaluated(*value, environment, invocation, middle) {
                Err(_) => {}
                Ok((fragment, after, next)) => lemma_last_is_forgotten(
                    body,
                    from + 1,
                    one,
                    other,
                    after.insert(name.value, fragment),
                    invocation,
                    next,
                ),
            },
            _ => {}
        },
    }
}

/// Steps are counted one by one, and evaluation stops where the limit is passed.
pub proof fn law_steps_are_counted(state: ExpansionState, origin: Origin)
    requires
        state.evaluation_steps < crate::ast::expansion_state::TYPED_MACRO_MAX_EVALUATION_STEPS,
    ensures
        state.stepped(origin) == Ok::<ExpansionState, MacroErrorView>(
            ExpansionState { evaluation_steps: (state.evaluation_steps + 1) as usize, ..state },
        ),
{
}

// Calls of macros.

proof fn lemma_bound_arguments(
    definition: MacroView,
    arguments: Seq<FragmentView>,
    from: int,
    environment: Environment,
    call: Origin,
)
    requires
        0 <= from <= arguments.len() == definition.parameters.len(),
        forall|i: int, j: int|
            0 <= i < j < definition.parameters.len() ==> (#[trigger] definition.parameters[i]).name.value != (
            #[trigger] definition.parameters[j]).name.value,
        forall|i: int|
            0 <= i < from ==> environment.dom().contains((#[trigger] definition.parameters[i]).name.value)
                && environment[definition.parameters[i].name.value] == arguments[i],
    ensures
        evaluate::bound_arguments(definition, arguments, from, environment, call) matches Ok(bound) ==> forall|i: int|
            0 <= i < arguments.len() ==> bound.dom().contains((#[trigger] definition.parameters[i]).name.value)
                && bound[definition.parameters[i].name.value] == arguments[i],
    decreases arguments.len() - from,
{
    if from < arguments.len() {
        lemma_bound_arguments(
            definition,
            arguments,
            from + 1,
            environment.insert(definition.parameters[from].name.value, arguments[from]),
            call,
        );
    }
}

proof fn lemma_wrong_argument(
    definition: MacroView,
    arguments: Seq<FragmentView>,
    from: int,
    index: int,
    environment: Environment,
    call: Origin,
)
    requires
        0 <= from <= index < arguments.len() == definition.parameters.len(),
        arguments[index].category() != Some(definition.parameters[index].category.value),
    ensures
        evaluate::bound_arguments(definition, arguments, from, environment, call) is Err,
    decreases index - from,
{
    if from < index {
        lemma_wrong_argument(
            definition,
            arguments,
            from + 1,
            index,
            environment.insert(definition.parameters[from].name.value, arguments[from]),
            call,
        );
    }
}

/// A macro is evaluated with each argument under the name of its parameter, and
/// yields syntax of the category that it declares; a call with another number of
/// arguments is refused.
pub proof fn law_macros_are_called_with_their_arguments(
    invocation: InvocationView,
    arguments: Seq<FragmentView>,
    state: ExpansionState,
)
    requires
        forall|i: int, j: int|
            0 <= i < j < invocation.definition.parameters.len() ==> (
            #[trigger] invocation.definition.parameters[i]).name.value != (
            #[trigger] invocation.definition.parameters[j]).name.value,
    ensures
        arguments.len() != invocation.definition.parameters.len() ==> evaluate::invoked(invocation, arguments, state)
            is Err,
        evaluate::invoked(invocation, arguments, state) matches Ok((fragment, next)) ==> {
            &&& fragment.category() == Some(invocation.definition.result.value)
            &&& exists|environment: Environment|
                (forall|i: int|
                    0 <= i < arguments.len() ==> environment.dom().contains(
                        (#[trigger] invocation.definition.parameters[i]).name.value,
                    ) && environment[invocation.definition.parameters[i].name.value] == arguments[i])
                    && (#[trigger] evaluate::evaluated_body(
                    invocation.definition.body,
                    0,
                    None,
                    environment,
                    invocation,
                    state,
                ) matches Ok((yielded, _, left)) && yielded == fragment && left == next)
        },
        forall|i: int|
            0 <= i < arguments.len() && arguments.len() == invocation.definition.parameters.len()
                && (#[trigger] arguments[i]).category() != Some(invocation.definition.parameters[i].category.value)
                ==> evaluate::invoked(invocation, arguments, state) is Err,
{
    reveal(evaluate::invoked);
    if arguments.len() == invocation.definition.parameters.len() {
        lemma_bound_arguments(invocation.definition, arguments, 0, Map::empty(), invocation.call);
        if evaluate::invoked(invocation, arguments, state) is Ok {
            let environment = evaluate::bound_arguments(
                invocation.definition,
                arguments,
                0,
                Map::empty(),
                invocation.call,
            )->Ok_0;
            let outcome = evaluate::evaluated_body(
                invocation.definition.body,
                0,
                None,
                environment,
                invocation,
                state,
            );
            assert(outcome is Ok);
        }
        assert forall|i: int|
            0 <= i < arguments.len() && (#[trigger] arguments[i]).category() != Some(
                invocation.definition.parameters[i].category.value,
            ) implies evaluate::invoked(invocation, arguments, state) is Err by {
            lemma_wrong_argument(invocation.definition, arguments, 0, i, Map::empty(), invocation.call);
        }
    }
}

// Quotation.

/// An unquoted name stands for the syntax that it is bound to, and only for syntax of
/// its category.
pub proof fn law_unquoted_names_are_replaced(node: ExprView, name: NameView, environment: Environment, call: Origin)
    requires
        node.value is Call,
        node.value->callee.value == "unquote"@,
        node.value->Call_arguments.len() == 1,
        node.value->Call_arguments[0].value == ExprKindView::Reference(name.value),
    ensures
        environment.dom().contains(name.value) && environment[name.value] is Expression
            ==> substitute::substituted_expr(node, environment, call) == Ok::<ExprView, MacroErrorView>(
            environment[name.value]->Expression_0,
        ),
        !(environment.dom().contains(name.value) && environment[name.value] is Expression)
            ==> substitute::substituted_expr(node, environment, call) is Err,
{
    assert(substitute::applies(node, "unquote"@));
}

/// A captured name stays the caller's.
pub proof fn law_captured_names_are_the_callers(node: ExprView, name: NameView, environment: Environment, call: Origin)
    requires
        node.value is Call,
        node.value->callee.value == "capture"@,
        node.value->Call_arguments.len() == 1,
        node.value->Call_arguments[0].value == ExprKindView::Reference(name.value),
    ensures
        substitute::substituted_expr(node, environment, call) == Ok::<ExprView, MacroErrorView>(
            Spanned { value: ExprKindView::Reference(name.value), span: node.span, origin: call },
        ),
{
    reveal_strlit("capture");
    reveal_strlit("unquote");
    assert("capture"@[0] == 'c' && "unquote"@[0] == 'u');
}

} // verus!
