//! The budget of a run bounds it and does nothing else.
use vstd::prelude::*;
use crate::execute::semantics::{self, Env, FlowView};
use crate::execute::pattern::MatchContext;
use crate::execute::session::{HaltView, RunView, SessionView};
use crate::lowered::view::{
    CallView, ExprView, FieldExprView, FieldValueView, FunctionBodyView, FunctionSigView, LetValueView, MatchArmView,
    StatementView, ValueView, WasmArgSpecView,
};

verus! {

proof fn lemma_evaluated(expr: ExprView, env: Env, run: RunView, session: SessionView, budget: nat, more: nat)
    requires
        budget <= more,
        semantics::evaluated(
            expr,
            env,
            run,
            session,
            budget,
        ) != Err::<(ValueView, SessionView), HaltView>(HaltView::Exhausted),
    ensures
        semantics::evaluated(expr, env, run, session, more) == semantics::evaluated(expr, env, run, session, budget),
    decreases budget, 0int, expr, 0int, 0int,
{
    match expr {
        ExprView::Value(_) | ExprView::VarRef(_) => {}
        ExprView::Mutable(inner) => if semantics::lent(*inner, env) is None {
            lemma_evaluated(*inner, env, run, session, budget, more);
        },
        ExprView::Reference { target, .. } => match *target {
            ExprView::VarRef(_) => {}
            _ => lemma_evaluated(*target, env, run, session, budget, more),
        },
        ExprView::Call { call, .. } => lemma_called(call, env, run, session, budget, more),
        ExprView::HostCall { args, .. } => lemma_evaluated_all(
            args,
            0,
            Seq::empty(),
            env,
            run,
            session,
            budget,
            more,
        ),
        ExprView::Primitive { args, .. } => lemma_evaluated_all(
            args,
            0,
            Seq::empty(),
            env,
            run,
            session,
            budget,
            more,
        ),
        ExprView::Cast { from, .. } => lemma_evaluated(*from, env, run, session, budget, more),
        ExprView::PolicyNarrow { from, .. } => lemma_evaluated(*from, env, run, session, budget, more),
        ExprView::EnumConstructor { payload, .. } => match payload {
            None => {}
            Some(part) => lemma_evaluated(*part, env, run, session, budget, more),
        },
        ExprView::Record(fields) => lemma_evaluated_fields(
            fields,
            crate::lowered::field_order::name_order(fields, fields.len() as int),
            0,
            Seq::empty(),
            env,
            run,
            session,
            budget,
            more,
        ),
        ExprView::Tuple(items) => lemma_evaluated_all(items, 0, Seq::empty(), env, run, session, budget, more),
        ExprView::Array(items) => lemma_evaluated_all(items, 0, Seq::empty(), env, run, session, budget, more),
        ExprView::Mapping(items) => lemma_evaluated_pairs(items, 0, Seq::empty(), env, run, session, budget, more),
        ExprView::Range { start, end, step } => {
            lemma_evaluated_int(*start, env, run, session, budget, more);
            match semantics::evaluated_int(*start, env, run, session, budget) {
                Err(_) => {}
                Ok((_, next)) => {
                    lemma_evaluated_int(*end, env, run, next, budget, more);
                    match semantics::evaluated_int(*end, env, run, next, budget) {
                        Err(_) => {}
                        Ok((_, last)) => lemma_evaluated_int(*step, env, run, last, budget, more),
                    }
                }
            }
        }
        ExprView::If { cond, then_e, else_e } => {
            lemma_evaluated(*cond, env, run, session, budget, more);
            match semantics::evaluated(*cond, env, run, session, budget) {
                Err(_) => {}
                Ok((value, next)) => match value {
                    ValueView::Bool(true) => lemma_evaluated(*then_e, env, run, next, budget, more),
                    ValueView::Bool(false) => lemma_evaluated(*else_e, env, run, next, budget, more),
                    _ => {}
                },
            }
        }
    }
}

proof fn lemma_evaluated_int(expr: ExprView, env: Env, run: RunView, session: SessionView, budget: nat, more: nat)
    requires
        budget <= more,
        semantics::evaluated_int(
            expr,
            env,
            run,
            session,
            budget,
        ) != Err::<(i64, SessionView), HaltView>(HaltView::Exhausted),
    ensures
        semantics::evaluated_int(expr, env, run, session, more) == semantics::evaluated_int(
            expr,
            env,
            run,
            session,
            budget,
        ),
    decreases budget, 0int, expr, 1int, 0int,
{
    lemma_evaluated(expr, env, run, session, budget, more);
}

proof fn lemma_evaluated_all(
    exprs: Seq<ExprView>,
    from: int,
    done: Seq<ValueView>,
    env: Env,
    run: RunView,
    session: SessionView,
    budget: nat,
    more: nat,
)
    requires
        budget <= more,
        semantics::evaluated_all(
            exprs,
            from,
            done,
            env,
            run,
            session,
            budget,
        ) != Err::<(Seq<ValueView>, SessionView), HaltView>(HaltView::Exhausted),
    ensures
        semantics::evaluated_all(exprs, from, done, env, run, session, more) == semantics::evaluated_all(
            exprs,
            from,
            done,
            env,
            run,
            session,
            budget,
        ),
    decreases budget, 0int, exprs, 0int, exprs.len() - from,
{
    if 0 <= from < exprs.len() {
        lemma_evaluated(exprs[from], env, run, session, budget, more);
        match semantics::evaluated(exprs[from], env, run, session, budget) {
            Err(_) => {}
            Ok((value, next)) => lemma_evaluated_all(exprs, from + 1, done.push(value), env, run, next, budget, more),
        }
    }
}

proof fn lemma_evaluated_fields(
    fields: Seq<FieldExprView>,
    order: Seq<int>,
    from: int,
    done: Seq<FieldValueView>,
    env: Env,
    run: RunView,
    session: SessionView,
    budget: nat,
    more: nat,
)
    requires
        budget <= more,
        semantics::evaluated_fields(
            fields,
            order,
            from,
            done,
            env,
            run,
            session,
            budget,
        ) != Err::<(Seq<FieldValueView>, SessionView), HaltView>(HaltView::Exhausted),
    ensures
        semantics::evaluated_fields(fields, order, from, done, env, run, session, more) == semantics::evaluated_fields(
            fields,
            order,
            from,
            done,
            env,
            run,
            session,
            budget,
        ),
    decreases budget, 0int, fields, 0int, order.len() - from,
{
    if 0 <= from < order.len() && 0 <= order[from] < fields.len() {
        lemma_evaluated(fields[order[from]].value, env, run, session, budget, more);
        match semantics::evaluated(fields[order[from]].value, env, run, session, budget) {
            Err(_) => {}
            Ok((value, next)) => lemma_evaluated_fields(
                fields,
                order,
                from + 1,
                crate::execute::records::with_named(done, 0, FieldValueView { name: fields[order[from]].name, value }),
                env,
                run,
                next,
                budget,
                more,
            ),
        }
    }
}

proof fn lemma_evaluated_pairs(
    items: Seq<(ExprView, ExprView)>,
    from: int,
    done: Seq<(ValueView, ValueView)>,
    env: Env,
    run: RunView,
    session: SessionView,
    budget: nat,
    more: nat,
)
    requires
        budget <= more,
        semantics::evaluated_pairs(
            items,
            from,
            done,
            env,
            run,
            session,
            budget,
        ) != Err::<(Seq<(ValueView, ValueView)>, SessionView), HaltView>(HaltView::Exhausted),
    ensures
        semantics::evaluated_pairs(items, from, done, env, run, session, more) == semantics::evaluated_pairs(
            items,
            from,
            done,
            env,
            run,
            session,
            budget,
        ),
    decreases budget, 0int, items, 0int, items.len() - from,
{
    if 0 <= from < items.len() {
        lemma_evaluated(items[from].0, env, run, session, budget, more);
        match semantics::evaluated(items[from].0, env, run, session, budget) {
            Err(_) => {}
            Ok((key, next)) => {
                lemma_evaluated(items[from].1, env, run, next, budget, more);
                match semantics::evaluated(items[from].1, env, run, next, budget) {
                    Err(_) => {}
                    Ok((value, last)) => lemma_evaluated_pairs(
                        items,
                        from + 1,
                        semantics::with_pair(done, key, value, last.cells),
                        env,
                        run,
                        last,
                        budget,
                        more,
                    ),
                }
            }
        }
    }
}

proof fn lemma_bound_args(
    symbol: Seq<char>,
    names: Seq<Seq<char>>,
    next: int,
    args: Seq<ExprView>,
    env: Env,
    scope: Env,
    run: RunView,
    session: SessionView,
    budget: nat,
    more: nat,
)
    requires
        budget <= more,
        semantics::bound_args(symbol, names, next, args, env, scope, run, session, budget) != Err::<(Env, SessionView), HaltView>(
            HaltView::Exhausted,
        ),
    ensures
        semantics::bound_args(symbol, names, next, args, env, scope, run, session, more) == semantics::bound_args(
            symbol,
            names,
            next,
            args,
            env,
            scope,
            run,
            session,
            budget,
        ),
    decreases budget, 0int, args, 0int, names.len() - next,
{
    if 0 <= next < names.len() && next < args.len() {
        lemma_evaluated(args[next], env, run, session, budget, more);
        match semantics::evaluated(args[next], env, run, session, budget) {
            Err(_) => {}
            Ok((value, last)) => lemma_bound_args(
                symbol,
                names,
                next + 1,
                args,
                env,
                scope.insert("args."@ + names[next], value),
                run,
                last,
                budget,
                more,
            ),
        }
    }
}

proof fn lemma_forwarded(
    signature: FunctionSigView,
    specs: Seq<WasmArgSpecView>,
    next: int,
    args: Seq<ExprView>,
    done: Seq<ValueView>,
    env: Env,
    run: RunView,
    session: SessionView,
    budget: nat,
    more: nat,
)
    requires
        budget <= more,
        semantics::forwarded(
            signature,
            specs,
            next,
            args,
            done,
            env,
            run,
            session,
            budget,
        ) != Err::<(Seq<ValueView>, SessionView), HaltView>(HaltView::Exhausted),
    ensures
        semantics::forwarded(signature, specs, next, args, done, env, run, session, more) == semantics::forwarded(
            signature,
            specs,
            next,
            args,
            done,
            env,
            run,
            session,
            budget,
        ),
    decreases budget, 0int, args, 0int, specs.len() - next,
{
    if 0 <= next < specs.len() {
        match specs[next] {
            WasmArgSpecView::ConstInt(value) => lemma_forwarded(
                signature,
                specs,
                next + 1,
                args,
                done.push(ValueView::Int(value)),
                env,
                run,
                session,
                budget,
                more,
            ),
            WasmArgSpecView::ConstStr(value) => lemma_forwarded(
                signature,
                specs,
                next + 1,
                args,
                done.push(ValueView::Str(value)),
                env,
                run,
                session,
                budget,
                more,
            ),
            WasmArgSpecView::Arg(name) => {
                let place = semantics::name_place(signature.arg_names, 0, name);
                if 0 <= place < signature.arg_names.len() && place < args.len() {
                    lemma_evaluated(args[place], env, run, session, budget, more);
                    match semantics::evaluated(args[place], env, run, session, budget) {
                        Err(_) => {}
                        Ok((value, last)) => lemma_forwarded(
                            signature,
                            specs,
                            next + 1,
                            args,
                            done.push(value),
                            env,
                            run,
                            last,
                            budget,
                            more,
                        ),
                    }
                }
            }
        }
    }
}

proof fn lemma_called(call: CallView, env: Env, run: RunView, session: SessionView, budget: nat, more: nat)
    requires
        budget <= more,
        semantics::called(
            call,
            env,
            run,
            session,
            budget,
        ) != Err::<(ValueView, SessionView), HaltView>(HaltView::Exhausted),
    ensures
        semantics::called(call, env, run, session, more) == semantics::called(call, env, run, session, budget),
    decreases budget, 0int, call, 0int, 0int,
{
    match semantics::function_from(run.program.functions, 0, call.callee_key) {
        None => {}
        Some(signature) => match signature.body {
            FunctionBodyView::User { statements } => {
                lemma_bound_args(
                    signature.symbol,
                    signature.arg_names,
                    0,
                    call.args,
                    env,
                    Map::empty(),
                    run,
                    session,
                    budget,
                    more,
                );
                match semantics::bound_args(signature.symbol, signature.arg_names, 0, call.args, env, Map::empty(), run, session, budget) {
                    Err(_) => {}
                    Ok((scope, next)) => if budget > 0 {
                        lemma_executed_block(statements, 0, scope, run, next, (budget - 1) as nat, (more - 1) as nat);
                    },
                }
            }
            FunctionBodyView::Wasm { import, wasm_args } => match semantics::targeted(signature.symbol, import, wasm_args.len(), run) {
                Err(_) => {}
                Ok(_) => lemma_forwarded(
                    signature,
                    wasm_args,
                    0,
                    call.args,
                    Seq::empty(),
                    env,
                    run,
                    session,
                    budget,
                    more,
                ),
            },
        },
    }
}

proof fn lemma_executed(stmt: StatementView, env: Env, run: RunView, session: SessionView, budget: nat, more: nat)
    requires
        budget <= more,
        semantics::executed(
            stmt,
            env,
            run,
            session,
            budget,
        ) != Err::<(FlowView, Env, SessionView), HaltView>(HaltView::Exhausted),
    ensures
        semantics::executed(stmt, env, run, session, more) == semantics::executed(stmt, env, run, session, budget),
    decreases budget, 2int, stmt, 1int, 0int,
{
    match stmt {
        StatementView::Return(expr) => lemma_evaluated(expr, env, run, session, budget, more),
        StatementView::Call(call) => lemma_called(call, env, run, session, budget, more),
        StatementView::Let { value, .. } => lemma_let_value(value, env, run, session, budget, more),
        StatementView::Assign { value, .. } => lemma_evaluated(value, env, run, session, budget, more),
        StatementView::Match { target, arms } => {
            lemma_evaluated(target, env, run, session, budget, more);
            match semantics::evaluated(target, env, run, session, budget) {
                Err(_) => {}
                Ok((value, next)) => lemma_executed_arms(arms, 0, value, env, run, next, budget, more),
            }
        }
        StatementView::Eval(expr) => lemma_evaluated(expr, env, run, session, budget, more),
        StatementView::If { cond, then_body, else_body } => {
            lemma_evaluated(cond, env, run, session, budget, more);
            match semantics::evaluated(cond, env, run, session, budget) {
                Err(_) => {}
                Ok((value, next)) => match value {
                    ValueView::Bool(true) => lemma_executed_block(then_body, 0, env, run, next, budget, more),
                    ValueView::Bool(false) => lemma_executed_block(else_body, 0, env, run, next, budget, more),
                    _ => {}
                },
            }
        }
        StatementView::While { cond, body } => lemma_looped(cond, body, env, run, session, budget, more),
        StatementView::For { var, source, body } => {
            lemma_evaluated(source, env, run, session, budget, more);
            match semantics::evaluated(source, env, run, session, budget) {
                Err(_) => {}
                Ok((value, next)) => match semantics::traversed(value, run.config.max_alloc_len) {
                    Err(_) => {}
                    Ok(items) => lemma_each_executed(var, items, 0, body, env, run, next, budget, more),
                },
            }
        }
        StatementView::Task { captures, body } => match semantics::captured(captures, 0, env, Map::empty()) {
            Err(_) => {}
            Ok(scope) => lemma_executed_block(body, 0, scope, run, session, budget, more),
        },
        StatementView::Spawn { captures, value, .. } => match semantics::captured(captures, 0, env, Map::empty()) {
            Err(_) => {}
            Ok(scope) => lemma_evaluated(value, scope, run, session, budget, more),
        },
        StatementView::Join { .. } | StatementView::Break | StatementView::Continue => {}
    }
}

proof fn lemma_let_value(value: LetValueView, env: Env, run: RunView, session: SessionView, budget: nat, more: nat)
    requires
        budget <= more,
        semantics::let_value(
            value,
            env,
            run,
            session,
            budget,
        ) != Err::<(ValueView, SessionView), HaltView>(HaltView::Exhausted),
    ensures
        semantics::let_value(value, env, run, session, more) == semantics::let_value(
            value,
            env,
            run,
            session,
            budget,
        ),
    decreases budget, 1int, value, 1int, 0int,
{
    match value {
        LetValueView::Call(call) => lemma_called(call, env, run, session, budget, more),
        LetValueView::Expr(expr) => lemma_evaluated(expr, env, run, session, budget, more),
    }
}

proof fn lemma_executed_block(
    stmts: Seq<StatementView>,
    from: int,
    env: Env,
    run: RunView,
    session: SessionView,
    budget: nat,
    more: nat,
)
    requires
        budget <= more,
        semantics::executed_block(
            stmts,
            from,
            env,
            run,
            session,
            budget,
        ) != Err::<(FlowView, Env, SessionView), HaltView>(HaltView::Exhausted),
    ensures
        semantics::executed_block(stmts, from, env, run, session, more) == semantics::executed_block(
            stmts,
            from,
            env,
            run,
            session,
            budget,
        ),
    decreases budget, 2int, stmts, 0int, stmts.len() - from,
{
    if 0 <= from < stmts.len() {
        lemma_executed(stmts[from], env, run, session, budget, more);
        match semantics::executed(stmts[from], env, run, session, budget) {
            Err(_) => {}
            Ok((flow, scope, next)) => if flow is Next {
                lemma_executed_block(stmts, from + 1, scope, run, next, budget, more);
            },
        }
    }
}

proof fn lemma_executed_arms(
    arms: Seq<MatchArmView>,
    from: int,
    value: ValueView,
    env: Env,
    run: RunView,
    session: SessionView,
    budget: nat,
    more: nat,
)
    requires
        budget <= more,
        semantics::executed_arms(
            arms,
            from,
            value,
            env,
            run,
            session,
            budget,
        ) != Err::<(FlowView, Env, SessionView), HaltView>(HaltView::Exhausted),
    ensures
        semantics::executed_arms(arms, from, value, env, run, session, more) == semantics::executed_arms(
            arms,
            from,
            value,
            env,
            run,
            session,
            budget,
        ),
    decreases budget, 2int, arms, 0int, arms.len() - from,
{
    if 0 <= from < arms.len() {
        let context = MatchContext { impls: run.program.impls, cells: session.cells };
        let (found, scope) = crate::execute::pattern::matched(arms[from].pattern, value, context, env);
        if found {
            lemma_executed_block(arms[from].body, 0, scope, run, session, budget, more);
        } else {
            lemma_executed_arms(arms, from + 1, value, env, run, session, budget, more);
        }
    }
}

proof fn lemma_looped(
    cond: ExprView,
    body: Seq<StatementView>,
    env: Env,
    run: RunView,
    session: SessionView,
    budget: nat,
    more: nat,
)
    requires
        budget <= more,
        semantics::looped(
            cond,
            body,
            env,
            run,
            session,
            budget,
        ) != Err::<(FlowView, Env, SessionView), HaltView>(HaltView::Exhausted),
    ensures
        semantics::looped(cond, body, env, run, session, more) == semantics::looped(
            cond,
            body,
            env,
            run,
            session,
            budget,
        ),
    decreases budget, 2int, body, 2int, 0int,
{
    if budget > 0 {
        let left = (budget - 1) as nat;
        let rest = (more - 1) as nat;
        lemma_evaluated(cond, env, run, session, left, rest);
        match semantics::evaluated(cond, env, run, session, left) {
            Err(_) => {}
            Ok((value, next)) => match value {
                ValueView::Bool(true) => {
                    lemma_executed_block(body, 0, env, run, next, left, rest);
                    match semantics::executed_block(body, 0, env, run, next, left) {
                        Err(_) => {}
                        Ok((flow, scope, last)) => match flow {
                            FlowView::Next | FlowView::Continue => lemma_looped(
                                cond,
                                body,
                                scope,
                                run,
                                last,
                                left,
                                rest,
                            ),
                            _ => {}
                        },
                    }
                }
                _ => {}
            },
        }
    }
}

proof fn lemma_each_executed(
    var: Seq<char>,
    items: Seq<ValueView>,
    next: int,
    body: Seq<StatementView>,
    env: Env,
    run: RunView,
    session: SessionView,
    budget: nat,
    more: nat,
)
    requires
        budget <= more,
        semantics::each_executed(
            var,
            items,
            next,
            body,
            env,
            run,
            session,
            budget,
        ) != Err::<(FlowView, Env, SessionView), HaltView>(HaltView::Exhausted),
    ensures
        semantics::each_executed(var, items, next, body, env, run, session, more) == semantics::each_executed(
            var,
            items,
            next,
            body,
            env,
            run,
            session,
            budget,
        ),
    decreases budget, 2int, body, 1int, items.len() - next,
{
    if 0 <= next < items.len() {
        let scope = env.insert(var, items[next]);
        lemma_executed_block(body, 0, scope, run, session, budget, more);
        match semantics::executed_block(body, 0, scope, run, session, budget) {
            Err(_) => {}
            Ok((flow, _, last)) => match flow {
                FlowView::Next | FlowView::Continue => lemma_each_executed(
                    var,
                    items,
                    next + 1,
                    body,
                    env,
                    run,
                    last,
                    budget,
                    more,
                ),
                _ => {}
            },
        }
    }
}

proof fn lemma_ran(from: int, env: Env, run: RunView, session: SessionView, budget: nat, more: nat)
    requires
        budget <= more,
        semantics::ran(from, env, run, session, budget) != Err::<SessionView, HaltView>(HaltView::Exhausted),
    ensures
        semantics::ran(from, env, run, session, more) == semantics::ran(from, env, run, session, budget),
    decreases run.program.statements.len() - from,
{
    if 0 <= from < run.program.statements.len() {
        lemma_executed(run.program.statements[from], env, run, session, budget, more);
        match semantics::executed(run.program.statements[from], env, run, session, budget) {
            Err(_) => {}
            Ok((flow, scope, next)) => if flow is Next {
                lemma_ran(from + 1, scope, run, next, budget, more);
            },
        }
    }
}

// Laws.

/// A program that ends, fails or waits within a budget does the same within
/// every larger one.
pub proof fn law_more_budget_changes_nothing(run: RunView, budget: nat, more: nat)
    requires
        budget <= more,
        semantics::program_run(run, budget) != Err::<SessionView, HaltView>(HaltView::Exhausted),
    ensures
        semantics::program_run(run, more) == semantics::program_run(run, budget),
{
    match semantics::seeded(run.program.main_arg_bindings, 0, run.config, Map::empty()) {
        Err(_) => {}
        Ok(env) => lemma_ran(0, env, run, SessionView::initial(run.config), budget, more),
    }
}

/// The same holds of an expression.
pub proof fn law_more_budget_keeps_values(
    expr: ExprView,
    env: Env,
    run: RunView,
    session: SessionView,
    budget: nat,
    more: nat,
)
    requires
        budget <= more,
        semantics::evaluated(
            expr,
            env,
            run,
            session,
            budget,
        ) != Err::<(ValueView, SessionView), HaltView>(HaltView::Exhausted),
    ensures
        semantics::evaluated(expr, env, run, session, more) == semantics::evaluated(expr, env, run, session, budget),
{
    lemma_evaluated(expr, env, run, session, budget, more);
}

} // verus!
