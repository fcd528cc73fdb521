//! What statements do: which branch runs, how often a loop goes round, what a
//! binding holds afterwards.
use vstd::prelude::*;
use crate::execute::pattern::MatchContext;
use crate::execute::semantics::{self, Env, FlowView, Flowed};
use crate::execute::session::{HaltView, RunView, SessionView};
use crate::lowered::view::{CallView, ExprView, LetValueView, MatchArmView, StatementView, TypeView, ValueView};

verus! {

/// Whether a value stands for itself and not for a place.
pub open spec fn is_plain(value: ValueView) -> bool {
    !(value is Mutable) && !(value is Reference)
}

/// Whether two scopes agree on every variable but one.
pub open spec fn agree_but_for(name: Seq<char>, before: Env, after: Env) -> bool {
    forall|other: Seq<char>|
        other != name ==> (before.dom().contains(other) == #[trigger] after.dom().contains(other)) && (
        before.dom().contains(other) ==> before[other] == after[other])
}

// Branches.

/// An `if` goes on as its first branch where the condition is true, as its second
/// where it is false, and fails where it is neither.
pub proof fn law_if_runs_the_selected_branch(
    cond: ExprView,
    first: Seq<StatementView>,
    second: Seq<StatementView>,
    env: Env,
    run: RunView,
    session: SessionView,
    next: SessionView,
    value: ValueView,
    budget: nat,
)
    requires
        semantics::evaluated(cond, env, run, session, budget) == Ok::<(ValueView, SessionView), HaltView>((value, next)),
    ensures
        value == ValueView::Bool(true) ==> semantics::executed(
            (StatementView::If { cond, then_body: first, else_body: second }),
            env,
            run,
            session,
            budget,
        ) == semantics::executed_block(first, 0, env, run, next, budget),
        value == ValueView::Bool(false) ==> semantics::executed(
            (StatementView::If { cond, then_body: first, else_body: second }),
            env,
            run,
            session,
            budget,
        ) == semantics::executed_block(second, 0, env, run, next, budget),
        !(value is Bool) ==> semantics::executed(
            (StatementView::If { cond, then_body: first, else_body: second }),
            env,
            run,
            session,
            budget,
        ) is Err,
{
}

/// A constant condition makes the other branch irrelevant: an `if` on it does what
/// the branch does alone.
pub proof fn law_constant_conditions_select(
    holds: bool,
    taken: Seq<StatementView>,
    left: Seq<StatementView>,
    env: Env,
    run: RunView,
    session: SessionView,
    budget: nat,
)
    ensures
        semantics::executed(
            (StatementView::If {
                cond: ExprView::Value(ValueView::Bool(holds)),
                then_body: if holds { taken } else { left },
                else_body: if holds { left } else { taken },
            }),
            env,
            run,
            session,
            budget,
        ) == semantics::executed_block(taken, 0, env, run, session, budget),
{
    law_if_runs_the_selected_branch(
        ExprView::Value(ValueView::Bool(holds)),
        if holds { taken } else { left },
        if holds { left } else { taken },
        env,
        run,
        session,
        session,
        ValueView::Bool(holds),
        budget,
    );
}

/// The value of a conditional expression is that of the branch its condition
/// selects.
pub proof fn law_conditional_value_is_that_of_the_selected_branch(
    cond: ExprView,
    first: ExprView,
    second: ExprView,
    env: Env,
    run: RunView,
    session: SessionView,
    next: SessionView,
    value: ValueView,
    budget: nat,
)
    requires
        semantics::evaluated(cond, env, run, session, budget) == Ok::<(ValueView, SessionView), HaltView>((value, next)),
    ensures
        value == ValueView::Bool(true) ==> semantics::evaluated(
            (ExprView::If { cond: Box::new(cond), then_e: Box::new(first), else_e: Box::new(second) }),
            env,
            run,
            session,
            budget,
        ) == semantics::evaluated(first, env, run, next, budget),
        value == ValueView::Bool(false) ==> semantics::evaluated(
            (ExprView::If { cond: Box::new(cond), then_e: Box::new(first), else_e: Box::new(second) }),
            env,
            run,
            session,
            budget,
        ) == semantics::evaluated(second, env, run, next, budget),
        !(value is Bool) ==> semantics::evaluated(
            (ExprView::If { cond: Box::new(cond), then_e: Box::new(first), else_e: Box::new(second) }),
            env,
            run,
            session,
            budget,
        ) is Err,
{
}

/// What halts the condition, the traversed value or the operand of a statement
/// halts the statement.
pub proof fn law_operands_halt_their_statement(
    operand: ExprView,
    var: Seq<char>,
    arms: Seq<MatchArmView>,
    first: Seq<StatementView>,
    second: Seq<StatementView>,
    env: Env,
    run: RunView,
    session: SessionView,
    budget: nat,
    halt: HaltView,
)
    requires
        semantics::evaluated(operand, env, run, session, budget) == Err::<(ValueView, SessionView), HaltView>(halt),
    ensures
        semantics::executed(
            (StatementView::If { cond: operand, then_body: first, else_body: second }),
            env,
            run,
            session,
            budget,
        ) == Flowed::Err(halt),
        semantics::executed((StatementView::For { var, source: operand, body: first }), env, run, session, budget)
            == Flowed::Err(halt),
        semantics::executed((StatementView::Match { target: operand, arms }), env, run, session, budget)
            == Flowed::Err(halt),
        semantics::executed(StatementView::Return(operand), env, run, session, budget) == Flowed::Err(halt),
        semantics::executed(StatementView::Eval(operand), env, run, session, budget) == Flowed::Err(halt),
        semantics::executed((StatementView::Assign { var, value: operand }), env, run, session, budget)
            == Flowed::Err(halt),
        semantics::executed(
            (StatementView::Let { var, value: LetValueView::Expr(operand) }),
            env,
            run,
            session,
            budget,
        ) == Flowed::Err(halt),
        semantics::executed((StatementView::While { cond: operand, body: first }), env, run, session, budget + 1)
            == Flowed::Err(halt),
{
    assert(semantics::executed((StatementView::While { cond: operand, body: first }), env, run, session, budget + 1)
        == semantics::looped(operand, first, env, run, session, budget + 1));
}

// Sequences.

/// How a block goes on behind its next statement.
spec fn going_on(
    flowed: Flowed,
    stmts: Seq<StatementView>,
    from: int,
    run: RunView,
    budget: nat,
) -> Flowed {
    match flowed {
        Err(halt) => Err(halt),
        Ok((flow, env, session)) => if flow is Next {
            semantics::executed_block(stmts, from, env, run, session, budget)
        } else {
            Ok((flow, env, session))
        },
    }
}

proof fn lemma_block_step(
    stmts: Seq<StatementView>,
    from: int,
    env: Env,
    run: RunView,
    session: SessionView,
    budget: nat,
)
    requires
        0 <= from < stmts.len(),
    ensures
        semantics::executed_block(stmts, from, env, run, session, budget) == going_on(
            semantics::executed(stmts[from], env, run, session, budget),
            stmts,
            from + 1,
            run,
            budget,
        ),
{
}

#[verifier::rlimit(60)]
proof fn lemma_shifted_block(
    first: Seq<StatementView>,
    second: Seq<StatementView>,
    from: int,
    env: Env,
    run: RunView,
    session: SessionView,
    budget: nat,
)
    requires
        0 <= from <= second.len(),
    ensures
        semantics::executed_block(first + second, first.len() + from, env, run, session, budget)
            == semantics::executed_block(second, from, env, run, session, budget),
    decreases second.len() - from,
{
    let all = first + second;
    if from < second.len() {
        assert(all[first.len() + from] == second[from]);
        lemma_block_step(all, first.len() + from, env, run, session, budget);
        lemma_block_step(second, from, env, run, session, budget);
        match semantics::executed(second[from], env, run, session, budget) {
            Err(_) => {}
            Ok((flow, env, session)) => if flow is Next {
                lemma_shifted_block(first, second, from + 1, env, run, session, budget);
            },
        }
    }
}

proof fn lemma_leading_block(
    first: Seq<StatementView>,
    second: Seq<StatementView>,
    from: int,
    env: Env,
    run: RunView,
    session: SessionView,
    budget: nat,
)
    requires
        0 <= from <= first.len(),
    ensures
        semantics::executed_block(first + second, from, env, run, session, budget) == (match semantics::executed_block(
            first,
            from,
            env,
            run,
            session,
            budget,
        ) {
            Ok((FlowView::Next, env, session)) => semantics::executed_block(second, 0, env, run, session, budget),
            other => other,
        }),
    decreases first.len() - from,
{
    let all = first + second;
    if from < first.len() {
        assert(all[from] == first[from]);
        match semantics::executed(first[from], env, run, session, budget) {
            Err(_) => {}
            Ok((flow, env, session)) => if flow is Next {
                lemma_leading_block(first, second, from + 1, env, run, session, budget);
            },
        }
    } else {
        lemma_shifted_block(first, second, 0, env, run, session, budget);
    }
}

/// Statements run in their order: the later ones start from what the earlier ones
/// leave, and do not run where those return, break, continue or halt.
pub proof fn law_statements_run_in_order(
    first: Seq<StatementView>,
    second: Seq<StatementView>,
    env: Env,
    run: RunView,
    session: SessionView,
    budget: nat,
)
    ensures
        semantics::executed_block(first + second, 0, env, run, session, budget) == (match semantics::executed_block(
            first,
            0,
            env,
            run,
            session,
            budget,
        ) {
            Ok((FlowView::Next, env, session)) => semantics::executed_block(second, 0, env, run, session, budget),
            other => other,
        }),
{
    lemma_leading_block(first, second, 0, env, run, session, budget);
}

/// A block of one statement is that statement, and an empty block changes nothing.
pub proof fn law_single_statements_are_blocks(
    statement: StatementView,
    env: Env,
    run: RunView,
    session: SessionView,
    budget: nat,
)
    ensures
        semantics::executed_block(seq![statement], 0, env, run, session, budget) == semantics::executed(
            statement,
            env,
            run,
            session,
            budget,
        ),
        semantics::executed_block(Seq::empty(), 0, env, run, session, budget) == Flowed::Ok(
            (FlowView::Next, env, session),
        ),
{
    assert(seq![statement][0] == statement);
    match semantics::executed(statement, env, run, session, budget) {
        Err(_) => {}
        Ok((flow, after, left)) => {
            assert(semantics::executed_block(seq![statement], 1, after, run, left, budget) == Flowed::Ok(
                (FlowView::Next, after, left),
            ));
        }
    }
}

// Bindings.

/// After a `let` its variable has the value, and every other variable has what it
/// had.
pub proof fn law_let_binds_its_variable(
    var: Seq<char>,
    expr: ExprView,
    env: Env,
    run: RunView,
    session: SessionView,
    next: SessionView,
    value: ValueView,
    budget: nat,
)
    requires
        semantics::evaluated(expr, env, run, session, budget) == Ok::<(ValueView, SessionView), HaltView>((value, next)),
    ensures
        semantics::executed((StatementView::Let { var, value: LetValueView::Expr(expr) }), env, run, session, budget)
            matches Ok((flow, after, left)) && {
            &&& flow is Next
            &&& left == next
            &&& after.dom().contains(var)
            &&& after[var] == value
            &&& agree_but_for(var, env, after)
            &&& is_plain(value) ==> semantics::evaluated(ExprView::VarRef(var), after, run, left, budget) == Ok::<
                (ValueView, SessionView),
                HaltView,
            >((value, left))
        },
{
    assert(semantics::let_value(LetValueView::Expr(expr), env, run, session, budget) == semantics::evaluated(
        expr,
        env,
        run,
        session,
        budget,
    ));
}

/// A `let` on a call binds what the call returns.
pub proof fn law_let_binds_what_a_call_returns(
    var: Seq<char>,
    call: CallView,
    env: Env,
    run: RunView,
    session: SessionView,
    budget: nat,
)
    ensures
        semantics::executed((StatementView::Let { var, value: LetValueView::Call(call) }), env, run, session, budget)
            == (match semantics::evaluated(
            (ExprView::Call { call, return_type: TypeView::Void }),
            env,
            run,
            session,
            budget,
        ) {
            Ok((value, next)) => Flowed::Ok((FlowView::Next, env.insert(var, value), next)),
            Err(halt) => Flowed::Err(halt),
        }),
        semantics::executed(StatementView::Call(call), env, run, session, budget) == semantics::executed(
            StatementView::Eval(ExprView::Call { call, return_type: TypeView::Void }),
            env,
            run,
            session,
            budget,
        ),
{
    assert(semantics::let_value(LetValueView::Call(call), env, run, session, budget) == semantics::called(
        call,
        env,
        run,
        session,
        budget,
    ));
}

/// After an assignment to a mutable variable it reads as the new value; no
/// variable is bound anew and no other place changes.
pub proof fn law_assignment_changes_one_place(
    var: Seq<char>,
    cell: u64,
    expr: ExprView,
    env: Env,
    run: RunView,
    session: SessionView,
    next: SessionView,
    value: ValueView,
    budget: nat,
)
    requires
        semantics::evaluated(expr, env, run, session, budget) == Ok::<(ValueView, SessionView), HaltView>((value, next)),
        env.dom().contains(var),
        env[var] == ValueView::Mutable(cell) || env[var] == (ValueView::Reference { cell, mutable: true }),
        cell < next.cells.len(),
    ensures
        semantics::executed((StatementView::Assign { var, value: expr }), env, run, session, budget) matches Ok(
            (flow, after, left),
        ) && {
            &&& flow is Next
            &&& after == env
            &&& left == (SessionView { cells: left.cells, ..next })
            &&& left.cells.len() == next.cells.len()
            &&& left.cells[cell as int] == value
            &&& forall|i: int| 0 <= i < next.cells.len() && i != cell ==> #[trigger] left.cells[i] == next.cells[i]
            &&& is_plain(value) ==> semantics::evaluated(ExprView::VarRef(var), after, run, left, budget) == Ok::<
                (ValueView, SessionView),
                HaltView,
            >((value, left))
        },
{
    let left = SessionView { cells: next.cells.update(cell as int, value), ..next };
    if is_plain(value) {
        let depth = left.cells.len();
        assert(crate::execute::values::read_place(value, left.cells, (depth - 1) as nat) == Some(value));
        assert(crate::execute::values::read_place(env[var], left.cells, depth) == Some(value));
    }
}

/// An assignment to a variable that is not bound, or that lends no place for
/// writing, fails.
pub proof fn law_unwritable_variables_are_not_assigned(
    var: Seq<char>,
    expr: ExprView,
    env: Env,
    run: RunView,
    session: SessionView,
    budget: nat,
)
    requires
        !env.dom().contains(var) || is_plain(env[var]) || env[var] matches ValueView::Reference { mutable: false, .. },
    ensures
        semantics::executed((StatementView::Assign { var, value: expr }), env, run, session, budget) is Err,
{
}

/// A new mutable place holds the value it was made with and is none of the places
/// before it.
pub proof fn law_mutable_values_get_a_new_place(
    inner: ExprView,
    env: Env,
    run: RunView,
    session: SessionView,
    next: SessionView,
    value: ValueView,
    budget: nat,
)
    requires
        !(inner is VarRef),
        semantics::evaluated(inner, env, run, session, budget) == Ok::<(ValueView, SessionView), HaltView>((value, next)),
        next.cells.len() < u64::MAX,
    ensures
        semantics::evaluated(ExprView::Mutable(Box::new(inner)), env, run, session, budget) matches Ok(
            (ValueView::Mutable(cell), left),
        ) && {
            &&& cell == next.cells.len()
            &&& left.cells.len() == next.cells.len() + 1
            &&& left.cells[cell as int] == value
            &&& left.cells.take(next.cells.len() as int) == next.cells
            &&& left == (SessionView { cells: left.cells, ..next })
        },
{
    let expr = ExprView::Mutable(Box::new(inner));
    assert(semantics::lent(inner, env) is None);
    assert(next.cells.push(value).take(next.cells.len() as int) =~= next.cells);
    assert(semantics::evaluated(expr, env, run, session, budget) == Ok::<(ValueView, SessionView), HaltView>(
        (
            ValueView::Mutable(next.cells.len() as u64),
            SessionView { cells: next.cells.push(value), ..next },
        ),
    ));
}

/// A reference to a mutable variable is to the variable's own place: nothing is
/// copied.
pub proof fn law_references_share_the_place(
    var: Seq<char>,
    mutable: bool,
    cell: u64,
    env: Env,
    run: RunView,
    session: SessionView,
    budget: nat,
)
    requires
        env.dom().contains(var),
        env[var] == ValueView::Mutable(cell) || (env[var] matches ValueView::Reference { cell: held, .. } && held == cell),
    ensures
        semantics::evaluated(
            (ExprView::Reference { target: Box::new(ExprView::VarRef(var)), mutable }),
            env,
            run,
            session,
            budget,
        ) == Ok::<(ValueView, SessionView), HaltView>((ValueView::Reference { cell, mutable }, session)),
        env[var] == ValueView::Mutable(cell) ==> semantics::evaluated(
            ExprView::Mutable(Box::new(ExprView::VarRef(var))),
            env,
            run,
            session,
            budget,
        ) == Ok::<(ValueView, SessionView), HaltView>((ValueView::Mutable(cell), session)),
{
    let expr = ExprView::Mutable(Box::new(ExprView::VarRef(var)));
    let target = ExprView::VarRef(var);
    let reference = ExprView::Reference { target: Box::new(target), mutable };
    assert(*reference->Reference_target == target);
    assert(semantics::place_of(env[var], session) == (cell, session));
    if env[var] == ValueView::Mutable(cell) {
        assert(semantics::lent(target, env) == Some(cell));
    }
}

/// `return` hands its value out, `break` and `continue` leave everything as it is.
pub proof fn law_jumps_change_nothing(
    expr: ExprView,
    env: Env,
    run: RunView,
    session: SessionView,
    next: SessionView,
    value: ValueView,
    budget: nat,
)
    requires
        semantics::evaluated(expr, env, run, session, budget) == Ok::<(ValueView, SessionView), HaltView>((value, next)),
    ensures
        semantics::executed(StatementView::Return(expr), env, run, session, budget) == Flowed::Ok(
            (FlowView::Return(value), env, next),
        ),
        semantics::executed(StatementView::Eval(expr), env, run, session, budget) == Flowed::Ok(
            (FlowView::Next, env, next),
        ),
        semantics::executed(StatementView::Break, env, run, session, budget) == Flowed::Ok(
            (FlowView::Break, env, session),
        ),
        semantics::executed(StatementView::Continue, env, run, session, budget) == Flowed::Ok(
            (FlowView::Continue, env, session),
        ),
{
}

// Loops.

/// A `while` whose condition is false ends; one whose condition is true goes round
/// once and is then the same loop again, unless its body breaks, returns or halts.
pub proof fn law_while_goes_round_as_long_as_its_condition_holds(
    cond: ExprView,
    body: Seq<StatementView>,
    env: Env,
    run: RunView,
    session: SessionView,
    next: SessionView,
    holds: bool,
    budget: nat,
)
    requires
        semantics::evaluated(cond, env, run, session, budget) == Ok::<(ValueView, SessionView), HaltView>(
            (ValueView::Bool(holds), next),
        ),
    ensures
        semantics::executed((StatementView::While { cond, body }), env, run, session, budget + 1) == (if !holds {
            Flowed::Ok((FlowView::Next, env, next))
        } else {
            match semantics::executed_block(body, 0, env, run, next, budget) {
                Ok((FlowView::Next, env, session)) | Ok((FlowView::Continue, env, session)) => semantics::executed(
                    (StatementView::While { cond, body }),
                    env,
                    run,
                    session,
                    budget,
                ),
                Ok((FlowView::Break, env, session)) => Flowed::Ok((FlowView::Next, env, session)),
                other => other,
            }
        }),
{
    let statement = StatementView::While { cond, body };
    assert(semantics::executed(statement, env, run, session, budget + 1) == semantics::looped(
        cond,
        body,
        env,
        run,
        session,
        budget + 1,
    ));
    if holds {
        match semantics::executed_block(body, 0, env, run, next, budget) {
            Err(_) => {}
            Ok((_, after, left)) => {
                assert(semantics::executed(statement, after, run, left, budget) == semantics::looped(
                    cond,
                    body,
                    after,
                    run,
                    left,
                    budget,
                ));
            }
        }
    }
}

/// A loop that would go round forever runs out of budget, whatever the budget.
pub proof fn law_endless_loops_exhaust(
    body: Seq<StatementView>,
    env: Env,
    run: RunView,
    session: SessionView,
    budget: nat,
)
    requires
        body.len() == 0,
    ensures
        semantics::executed(
            (StatementView::While { cond: ExprView::Value(ValueView::Bool(true)), body }),
            env,
            run,
            session,
            budget,
        ) == Flowed::Err(HaltView::Exhausted),
    decreases budget,
{
    let cond = ExprView::Value(ValueView::Bool(true));
    let statement = StatementView::While { cond, body };
    assert(semantics::executed(statement, env, run, session, budget) == semantics::looped(
        cond,
        body,
        env,
        run,
        session,
        budget,
    ));
    if budget > 0 {
        let left = (budget - 1) as nat;
        law_while_goes_round_as_long_as_its_condition_holds(cond, body, env, run, session, session, true, left);
        law_endless_loops_exhaust(body, env, run, session, left);
        assert(semantics::executed_block(body, 0, env, run, session, left) == Flowed::Ok(
            (FlowView::Next, env, session),
        ));
    }
}

proof fn lemma_each(
    var: Seq<char>,
    items: Seq<ValueView>,
    from: int,
    body: Seq<StatementView>,
    env: Env,
    run: RunView,
    session: SessionView,
    budget: nat,
)
    requires
        0 < from <= items.len(),
    ensures
        semantics::each_executed(var, items, from, body, env, run, session, budget) == semantics::each_executed(
            var,
            items.skip(1),
            from - 1,
            body,
            env,
            run,
            session,
            budget,
        ),
    decreases items.len() - from,
{
    if from < items.len() {
        assert(items.skip(1)[from - 1] == items[from]);
        match semantics::executed_block(body, 0, env.insert(var, items[from]), run, session, budget) {
            Err(_) => {}
            Ok((flow, _, next)) => if flow is Next || flow is Continue {
                lemma_each(var, items, from + 1, body, env, run, next, budget);
            },
        }
    }
}

/// A `for` over an array runs its body with the first item, in a scope of its own,
/// and is then the loop over the other items, unless the body breaks, returns or
/// halts. Over an empty array it does nothing.
pub proof fn law_for_takes_the_items_one_by_one(
    var: Seq<char>,
    items: Seq<ValueView>,
    body: Seq<StatementView>,
    env: Env,
    run: RunView,
    session: SessionView,
    budget: nat,
)
    requires
        items.len() <= run.config.max_alloc_len,
    ensures
        semantics::executed(
            (StatementView::For { var, source: ExprView::Value(ValueView::Array(items)), body }),
            env,
            run,
            session,
            budget,
        ) == (if items.len() == 0 {
            Flowed::Ok((FlowView::Next, env, session))
        } else {
            match semantics::executed_block(body, 0, env.insert(var, items.first()), run, session, budget) {
                Ok((FlowView::Next, _, left)) | Ok((FlowView::Continue, _, left)) => semantics::executed(
                    (StatementView::For { var, source: ExprView::Value(ValueView::Array(items.skip(1))), body }),
                    env,
                    run,
                    left,
                    budget,
                ),
                Ok((FlowView::Break, _, left)) => Flowed::Ok((FlowView::Next, env, left)),
                Ok((FlowView::Return(value), _, left)) => Flowed::Ok((FlowView::Return(value), env, left)),
                Err(halt) => Flowed::Err(halt),
            }
        }),
{
    if items.len() > 0 {
        match semantics::executed_block(body, 0, env.insert(var, items.first()), run, session, budget) {
            Err(_) => {}
            Ok((_, _, left)) => {
                lemma_each(var, items, 1, body, env, run, left, budget);
            }
        }
    }
}

/// A `for` over any value is the `for` over the array of what it is traversed as.
pub proof fn law_for_traverses_its_source(
    var: Seq<char>,
    source: ExprView,
    body: Seq<StatementView>,
    env: Env,
    run: RunView,
    session: SessionView,
    next: SessionView,
    value: ValueView,
    budget: nat,
)
    requires
        semantics::evaluated(source, env, run, session, budget) == Ok::<(ValueView, SessionView), HaltView>(
            (value, next),
        ),
    ensures
        semantics::executed((StatementView::For { var, source, body }), env, run, session, budget) == (
        match semantics::traversed(value, run.config.max_alloc_len) {
            Ok(items) => semantics::executed(
                (StatementView::For { var, source: ExprView::Value(ValueView::Array(items)), body }),
                env,
                run,
                next,
                budget,
            ),
            Err(failure) => Flowed::Err(HaltView::Failed(failure)),
        }),
{
}

proof fn lemma_range(current: i64, end: i64, step: i64, limit: usize, done: Seq<ValueView>, start: i64)
    requires
        step != 0,
        current == start + done.len() * step,
        forall|i: int| 0 <= i < done.len() ==> #[trigger] done[i] == ValueView::Int((start + i * step) as i64),
        forall|i: int| 0 <= i < done.len() ==> if step > 0 { #[trigger] (start + i * step) < end } else { start + i * step > end },
        semantics::range_from(current, end, step, limit, done) is Ok,
    ensures
        ({
            let items = semantics::range_from(current, end, step, limit, done)->Ok_0;
            &&& forall|i: int| 0 <= i < items.len() ==> #[trigger] items[i] == ValueView::Int((start + i * step) as i64)
            &&& forall|i: int| 0 <= i < items.len() ==> if step > 0 { #[trigger] (start + i * step) < end } else { start + i * step > end }
            &&& if step > 0 { start + items.len() * step >= end } else { start + items.len() * step <= end }
        }),
    decreases limit - done.len() + 1,
{
    if (step > 0 && current < end) || (step < 0 && current > end) {
        let more = done.push(ValueView::Int(current));
        assert(start + more.len() * step == current + step) by (nonlinear_arith)
            requires
                current == start + done.len() * step,
                more.len() == done.len() + 1,
        ;
        assert forall|i: int| 0 <= i < more.len() implies #[trigger] more[i] == ValueView::Int((start + i * step) as i64) by {
            if i == done.len() {
                assert(more[i] == ValueView::Int(current));
            }
        }
        lemma_range((current + step) as i64, end, step, limit, more, start);
    }
}

/// A range is traversed from its start in steps, up to its end and without it.
pub proof fn law_ranges_count_from_start_to_end(start: i64, end: i64, step: i64, limit: usize)
    ensures
        step == 0 ==> semantics::traversed((ValueView::Range { start, end, step }), limit) is Err,
        semantics::traversed((ValueView::Range { start, end, step }), limit) matches Ok(items) ==> {
            &&& forall|i: int| 0 <= i < items.len() ==> #[trigger] items[i] == ValueView::Int((start + i * step) as i64)
            &&& forall|i: int| 0 <= i < items.len() ==> if step > 0 { #[trigger] (start + i * step) < end } else { start + i * step > end }
            &&& if step > 0 { start + items.len() * step >= end } else { start + items.len() * step <= end }
        },
{
    let value = ValueView::Range { start, end, step };
    if semantics::traversed(value, limit) is Ok {
        assert(0 * step == 0);
        lemma_range(start, end, step, limit, Seq::empty(), start);
    }
}

/// Texts are traversed by characters, maps by pairs of key and value, arrays by
/// items, each in order; what is longer than the limit is refused.
pub proof fn law_traversal_goes_in_order(value: ValueView, limit: usize)
    ensures
        value matches ValueView::Array(items) ==> semantics::traversed(value, limit) is Ok == (items.len() <= limit),
        value matches ValueView::Str(text) ==> semantics::traversed(value, limit) is Ok == (text.len() <= limit),
        value matches ValueView::Mapping(pairs) ==> semantics::traversed(value, limit) is Ok == (pairs.len() <= limit),
        semantics::traversed(value, limit) matches Ok(items) ==> {
            &&& value matches ValueView::Array(all) ==> items == all
            &&& value matches ValueView::Str(text) ==> items.len() == text.len() && forall|i: int|
                0 <= i < text.len() ==> #[trigger] items[i] == ValueView::Str(seq![text[i]])
            &&& value matches ValueView::Mapping(pairs) ==> items.len() == pairs.len() && forall|i: int|
                0 <= i < pairs.len() ==> #[trigger] items[i] == ValueView::Tuple(seq![pairs[i].0, pairs[i].1])
        },
        semantics::traversed(value, limit) matches Ok(items) ==> items.len() <= limit,
        (value is Int || value is Bool || value is Void || value is Float || value is Tuple || value is Record)
            ==> semantics::traversed(value, limit) is Err,
{
}

// Matches.

/// What a pattern makes of a value in a session.
pub open spec fn tried(arm: MatchArmView, value: ValueView, env: Env, run: RunView, session: SessionView) -> (bool, Env) {
    crate::execute::pattern::matched(
        arm.pattern,
        value,
        MatchContext { impls: run.program.impls, cells: session.cells },
        env,
    )
}

proof fn lemma_arms(
    arms: Seq<MatchArmView>,
    from: int,
    index: int,
    value: ValueView,
    env: Env,
    run: RunView,
    session: SessionView,
    budget: nat,
)
    requires
        0 <= from <= index <= arms.len(),
        forall|i: int| from <= i < index ==> !(#[trigger] tried(arms[i], value, env, run, session)).0,
    ensures
        semantics::executed_arms(arms, from, value, env, run, session, budget) == semantics::executed_arms(
            arms,
            index,
            value,
            env,
            run,
            session,
            budget,
        ),
    decreases index - from,
{
    if from < index {
        assert(!tried(arms[from], value, env, run, session).0);
        lemma_arms(arms, from + 1, index, value, env, run, session, budget);
    }
}

/// A `match` runs the body of the first arm whose pattern matches, with what the
/// pattern binds; no variable of it is left behind. Without such an arm it fails.
pub proof fn law_match_runs_the_first_matching_arm(
    target: ExprView,
    arms: Seq<MatchArmView>,
    index: int,
    env: Env,
    run: RunView,
    session: SessionView,
    next: SessionView,
    value: ValueView,
    budget: nat,
)
    requires
        semantics::evaluated(target, env, run, session, budget) == Ok::<(ValueView, SessionView), HaltView>(
            (value, next),
        ),
        0 <= index <= arms.len(),
        forall|i: int| 0 <= i < index ==> !(#[trigger] tried(arms[i], value, env, run, next)).0,
        index < arms.len() ==> tried(arms[index], value, env, run, next).0,
    ensures
        index == arms.len() ==> semantics::executed((StatementView::Match { target, arms }), env, run, session, budget)
            is Err,
        index < arms.len() ==> semantics::executed((StatementView::Match { target, arms }), env, run, session, budget)
            == (match semantics::executed_block(
            arms[index].body,
            0,
            tried(arms[index], value, env, run, next).1,
            run,
            next,
            budget,
        ) {
            Ok((flow, _, left)) => Flowed::Ok((flow, env, left)),
            Err(halt) => Flowed::Err(halt),
        }),
{
    lemma_arms(arms, 0, index, value, env, run, next, budget);
}

// Tasks.

proof fn lemma_captured(names: Seq<Seq<char>>, next: int, env: Env, scope: Env)
    requires
        0 <= next <= names.len(),
        forall|i: int| 0 <= i < next ==> scope.dom().contains(#[trigger] names[i]) && env.dom().contains(names[i])
            && scope[names[i]] == env[names[i]],
        forall|name: Seq<char>| #[trigger] scope.dom().contains(name) ==> names.contains(name),
    ensures
        (semantics::captured(names, next, env, scope) is Ok) == (forall|i: int|
            0 <= i < names.len() ==> env.dom().contains(#[trigger] names[i])),
        semantics::captured(names, next, env, scope) matches Ok(held) ==> (forall|name: Seq<char>| #[trigger]
            held.dom().contains(name) ==> names.contains(name)) && (forall|i: int|
            0 <= i < names.len() ==> held.dom().contains(#[trigger] names[i]) && held[names[i]] == env[names[i]]),
    decreases names.len() - next,
{
    if next < names.len() && env.dom().contains(names[next]) {
        lemma_captured(names, next + 1, env, scope.insert(names[next], env[names[next]]));
    }
}

/// The body of a task sees the captured variables and no others, changes no
/// variable outside, and may not leave it.
pub proof fn law_tasks_see_what_they_capture(
    captures: Seq<Seq<char>>,
    body: Seq<StatementView>,
    env: Env,
    run: RunView,
    session: SessionView,
    budget: nat,
)
    ensures
        (exists|i: int| 0 <= i < captures.len() && !env.dom().contains(#[trigger] captures[i]))
            ==> semantics::executed((StatementView::Task { captures, body }), env, run, session, budget) is Err,
        (forall|i: int| 0 <= i < captures.len() ==> env.dom().contains(#[trigger] captures[i])) ==> exists|scope: Env|
            (forall|name: Seq<char>| #[trigger] scope.dom().contains(name) == captures.contains(name)) && (forall|i: int|
                0 <= i < captures.len() ==> scope[#[trigger] captures[i]] == env[captures[i]]) && (
            match #[trigger] semantics::executed_block(body, 0, scope, run, session, budget) {
                Ok((FlowView::Next, _, left)) => semantics::executed(
                    (StatementView::Task { captures, body }),
                    env,
                    run,
                    session,
                    budget,
                ) == Flowed::Ok((FlowView::Next, env, left)),
                Ok(_) => semantics::executed((StatementView::Task { captures, body }), env, run, session, budget) is Err,
                Err(halt) => semantics::executed((StatementView::Task { captures, body }), env, run, session, budget)
                    == Flowed::Err(halt),
            }),
{
    lemma_captured(captures, 0, env, Map::empty());
    if forall|i: int| 0 <= i < captures.len() ==> env.dom().contains(#[trigger] captures[i]) {
        let scope = semantics::captured(captures, 0, env, Map::empty())->Ok_0;
        assert forall|name: Seq<char>| #[trigger] scope.dom().contains(name) == captures.contains(name) by {
            if captures.contains(name) {
                let i = choose|i: int| 0 <= i < captures.len() && captures[i] == name;
                assert(scope.dom().contains(captures[i]));
            }
        }
        let outcome = semantics::executed_block(body, 0, scope, run, session, budget);
        assert(outcome == semantics::executed_block(body, 0, scope, run, session, budget));
    }
}

/// What is spawned and then joined is bound to the joining variable, and the
/// handle is gone.
pub proof fn law_join_gives_what_was_spawned(
    handle: Seq<char>,
    var: Seq<char>,
    value: ValueView,
    env: Env,
    run: RunView,
    session: SessionView,
    budget: nat,
)
    requires
        session.tasks.next < u64::MAX,
        forall|i: int| 0 <= i < session.tasks.pending.len() ==> (#[trigger] session.tasks.pending[i]).0 != session.tasks.next,
    ensures
        semantics::executed_block(
            seq![
                StatementView::Spawn { handle, captures: Seq::empty(), value: ExprView::Value(value) },
                StatementView::Join { handle, var },
            ],
            0,
            env,
            run,
            session,
            budget,
        ) matches Ok((flow, after, left)) && {
            &&& flow is Next
            &&& after.dom().contains(var)
            &&& after[var] == value
            &&& handle != var ==> !after.dom().contains(handle)
            &&& left.tasks.pending == session.tasks.pending
            &&& left.cells == session.cells
        },
{
    let spawn = StatementView::Spawn { handle, captures: Seq::empty(), value: ExprView::Value(value) };
    let join = StatementView::Join { handle, var };
    let both = seq![spawn, join];
    let id = session.tasks.next;
    let middle = SessionView { tasks: session.tasks.spawned(value), ..session };
    let scope = env.insert(handle, ValueView::JoinHandle(id));
    assert(semantics::captured(Seq::empty(), 0, env, Map::empty()) == Ok::<Env, Seq<crate::execute::failure::PartView>>(
        Map::empty(),
    ));
    assert(semantics::evaluated(ExprView::Value(value), Map::empty(), run, session, budget) == Ok::<
        (ValueView, SessionView),
        HaltView,
    >((value, session)));
    assert(semantics::executed(spawn, env, run, session, budget) == Flowed::Ok((FlowView::Next, scope, middle)));
    lemma_pending(middle.tasks.pending, 0, id);
    assert(middle.tasks.pending.remove(session.tasks.pending.len() as int) =~= session.tasks.pending);
    let end = semantics::executed(join, scope, run, middle, budget);
    assert(end is Ok);
    assert(both[0] == spawn && both[1] == join);
    assert(semantics::executed_block(both, 2, end->Ok_0.1, run, end->Ok_0.2, budget) == Flowed::Ok(
        (FlowView::Next, end->Ok_0.1, end->Ok_0.2),
    ));
    assert(semantics::executed_block(both, 1, scope, run, middle, budget) == end);
}

proof fn lemma_pending(pending: Seq<(u64, ValueView)>, from: int, id: u64)
    requires
        0 <= from < pending.len(),
        pending.last().0 == id,
        forall|i: int| 0 <= i < pending.len() - 1 ==> (#[trigger] pending[i]).0 != id,
    ensures
        crate::execute::tasks::pending_place(pending, from, id) == pending.len() - 1,
    decreases pending.len() - from,
{
    if from < pending.len() - 1 {
        lemma_pending(pending, from + 1, id);
    }
}

// Programs.

proof fn lemma_ran(from: int, env: Env, run: RunView, session: SessionView, budget: nat)
    requires
        0 <= from <= run.program.statements.len(),
    ensures
        match semantics::executed_block(run.program.statements, from, env, run, session, budget) {
            Ok((FlowView::Next, _, left)) => semantics::ran(from, env, run, session, budget) == Ok::<
                SessionView,
                HaltView,
            >(left),
            Ok(_) => semantics::ran(from, env, run, session, budget) is Err,
            Err(halt) => semantics::ran(from, env, run, session, budget) == Err::<SessionView, HaltView>(halt),
        },
    decreases run.program.statements.len() - from,
{
    let statements = run.program.statements;
    if from < statements.len() {
        lemma_block_step(statements, from, env, run, session, budget);
        match semantics::executed(statements[from], env, run, session, budget) {
            Err(_) => {}
            Ok((flow, after, next)) => if flow is Next {
                lemma_ran(from + 1, after, run, next, budget);
            },
        }
    }
}

/// A program runs its statements as one block, from a fresh session, and may not return,
/// break or continue out of it. Where a policy that it asks for is not approved it does
/// not start.
pub proof fn law_programs_run_their_statements(run: RunView, budget: nat)
    ensures
        match semantics::seeded(run.program.main_arg_bindings, 0, run.config, Map::empty()) {
            Err(_) => semantics::program_run(run, budget) is Err,
            Ok(env) => match semantics::executed_block(
                run.program.statements,
                0,
                env,
                run,
                SessionView::initial(run.config),
                budget,
            ) {
                Ok((FlowView::Next, _, left)) => semantics::program_run(run, budget) == Ok::<SessionView, HaltView>(left),
                Ok(_) => semantics::program_run(run, budget) is Err,
                Err(halt) => semantics::program_run(run, budget) == Err::<SessionView, HaltView>(halt),
            },
        },
{
    match semantics::seeded(run.program.main_arg_bindings, 0, run.config, Map::empty()) {
        Err(_) => {}
        Ok(env) => lemma_ran(0, env, run, SessionView::initial(run.config), budget),
    }
}

} // verus!
