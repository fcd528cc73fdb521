//! What the checks of bodies promise.
use vstd::prelude::*;
use crate::body_semantics::{
    analysed, arms_terminate, expr_type, fallible, fallible_alias, handle_error, has_tag, live_after, live_behind,
    marked_all, reads, reads_all, reads_fields, reads_pairs, substituted, terminates, unused_text, AnalysisView, ContextView,
};
use crate::effect_laws::parts_of;
use crate::execute::semantics::{self, Env};
use crate::execute::session::{RunView, SessionView};
use crate::lowered::view::{
    EnumTagView, ExprView, FieldExprView, MatchArmView, StatementView, TypeAliasView, TypeView, ValueView,
};

verus! {

// Returning.

/// A body that passes the check for returning never runs to its end: wherever it is
/// run, it returns, leaves a loop or halts.
pub proof fn law_checked_bodies_do_not_fall_through(
    statements: Seq<StatementView>,
    env: Env,
    run: RunView,
    session: SessionView,
    budget: nat,
)
    requires
        terminates(statements),
    ensures
        semantics::executed_block(statements, 0, env, run, session, budget) matches Ok((flow, _, _)) ==> !(flow is Next),
    decreases statements, 2int, 0int,
{
    lemma_block(statements, 0, env, run, session, budget);
}

proof fn lemma_block(
    statements: Seq<StatementView>,
    from: int,
    env: Env,
    run: RunView,
    session: SessionView,
    budget: nat,
)
    requires
        terminates(statements),
        0 <= from < statements.len(),
    ensures
        semantics::executed_block(statements, from, env, run, session, budget) matches Ok((flow, _, _)) ==> !(flow
            is Next),
    decreases statements, 1int, statements.len() - from,
{
    if from == statements.len() - 1 {
        let last = statements[from];
        assert(last == statements[statements.len() - 1]);
        match last {
            StatementView::Match { target, arms } => {
                assert(arms_terminate(arms, 0));
                match semantics::evaluated(target, env, run, session, budget) {
                    Err(_) => {}
                    Ok((value, next)) => {
                        lemma_arms(arms, 0, value, env, run, next, budget);
                        assert(semantics::executed(last, env, run, session, budget) == semantics::executed_arms(
                            arms,
                            0,
                            value,
                            env,
                            run,
                            next,
                            budget,
                        ));
                    }
                }
            }
            StatementView::If { cond, then_body, else_body } => {
                assert(terminates(then_body) && terminates(else_body));
                match semantics::evaluated(cond, env, run, session, budget) {
                    Err(_) => {}
                    Ok((value, next)) => {
                        law_checked_bodies_do_not_fall_through(then_body, env, run, next, budget);
                        law_checked_bodies_do_not_fall_through(else_body, env, run, next, budget);
                        crate::execute::control_laws::law_if_runs_the_selected_branch(
                            cond,
                            then_body,
                            else_body,
                            env,
                            run,
                            session,
                            next,
                            value,
                            budget,
                        );
                        assert(value is Bool ==> value == ValueView::Bool(true) || value == ValueView::Bool(false));
                    }
                }
            }
            _ => {}
        }
    } else {
        match semantics::executed(statements[from], env, run, session, budget) {
            Err(_) => {}
            Ok((flow, after, next)) => if flow is Next {
                lemma_block(statements, from + 1, after, run, next, budget);
            },
        }
    }
}

proof fn lemma_arms(
    arms: Seq<MatchArmView>,
    from: int,
    value: ValueView,
    env: Env,
    run: RunView,
    session: SessionView,
    budget: nat,
)
    requires
        arms_terminate(arms, from),
        0 <= from <= arms.len(),
    ensures
        semantics::executed_arms(arms, from, value, env, run, session, budget) matches Ok((flow, _, _)) ==> !(flow
            is Next),
    decreases arms, 0int, arms.len() - from,
{
    if from < arms.len() {
        let (found, scope) = crate::execute::control_laws::tried(arms[from], value, env, run, session);
        law_checked_bodies_do_not_fall_through(arms[from].body, scope, run, session, budget);
        lemma_arms(arms, from + 1, value, env, run, session, budget);
    }
}

/// A body that ends with a return passes the check, and so does one that ends with a
/// branch on both sides of which one does; an empty body, and one that ends with
/// anything else, does not.
pub proof fn law_returning_bodies_pass(
    front: Seq<StatementView>,
    value: ExprView,
    first: Seq<StatementView>,
    second: Seq<StatementView>,
    last: StatementView,
)
    ensures
        !terminates(Seq::empty()),
        terminates(front.push(StatementView::Return(value))),
        terminates(front.push(StatementView::If { cond: value, then_body: first, else_body: second })) == (terminates(
            first,
        ) && terminates(second)),
        !(last is Return) && !(last is If) && !(last is Match) ==> !terminates(front.push(last)),
{
    let returning = front.push(StatementView::Return(value));
    let branch = StatementView::If { cond: value, then_body: first, else_body: second };
    let branching = front.push(branch);
    let other = front.push(last);
    assert(returning[returning.len() - 1] == StatementView::Return(value));
    assert(branching[branching.len() - 1] == branch);
    assert(other[other.len() - 1] == last);
}

// Task handles.

/// A handle that is spawned has to be joined: a spawn alone is refused, a spawn and its
/// join pass, and a join of what was not spawned is refused.
pub proof fn law_spawned_handles_are_joined(handle: Seq<char>, captures: Seq<Seq<char>>, value: ExprView, var: Seq<char>)
    ensures
        handle_error(seq![StatementView::Spawn { handle, captures, value }]) is Some,
        handle_error(
            seq![StatementView::Spawn { handle, captures, value }, StatementView::Join { handle, var }],
        ) is None,
        handle_error(seq![StatementView::Join { handle, var }]) is Some,
        handle_error(Seq::empty()) is None,
{
    let none = Seq::<Seq<char>>::empty();
    let spawn = StatementView::Spawn { handle, captures, value };
    let join = StatementView::Join { handle, var };
    let one = seq![spawn];
    let two = seq![spawn, join];
    let alone = seq![join];
    let live = crate::effect_semantics::with_text(none, handle);
    assert(live =~= seq![handle]);
    assert(crate::effect_semantics::node_from(none, 0, handle) == 0);
    assert(live[0] == handle);
    assert(crate::effect_semantics::node_from(live, 0, handle) == 0);
    assert(one[0] == spawn && two[0] == spawn && two[1] == join && alone[0] == join);
    assert(live_behind(spawn, none) == Ok::<Seq<Seq<char>>, Seq<char>>(live));
    assert(live.remove(0) =~= none);
    assert(live_behind(join, live) == Ok::<Seq<Seq<char>>, Seq<char>>(none));
    assert(live_behind(join, none) is Err);
    assert(live_after(one, 1, live) == Ok::<Seq<Seq<char>>, Seq<char>>(live));
    assert(live_after(two, 2, none) == Ok::<Seq<Seq<char>>, Seq<char>>(none));
    assert(live_after(two, 1, live) == Ok::<Seq<Seq<char>>, Seq<char>>(none));
    assert(live_after(one, 0, none) == Ok::<Seq<Seq<char>>, Seq<char>>(live));
    assert(live_after(two, 0, none) == Ok::<Seq<Seq<char>>, Seq<char>>(none));
    assert(live_after(Seq::empty(), 0, none) == Ok::<Seq<Seq<char>>, Seq<char>>(none));
}

/// Both branches of an `if` leave the same handles, and a loop leaves those that it
/// found.
pub proof fn law_branches_agree_on_handles(
    cond: ExprView,
    first: Seq<StatementView>,
    second: Seq<StatementView>,
    var: Seq<char>,
    live: Seq<Seq<char>>,
)
    ensures
        live_behind((StatementView::If { cond, then_body: first, else_body: second }), live) matches Ok(after)
            ==> live_after(first, 0, live) == Ok::<Seq<Seq<char>>, Seq<char>>(after) && live_after(second, 0, live) == Ok::<
            Seq<Seq<char>>,
            Seq<char>,
        >(after),
        live_behind((StatementView::While { cond, body: first }), live) matches Ok(after) ==> after == live
            && live_after(first, 0, live) == Ok::<Seq<Seq<char>>, Seq<char>>(live),
        live_behind((StatementView::For { var, source: cond, body: first }), live) matches Ok(after) ==> after == live
            && live_after(first, 0, live) == Ok::<Seq<Seq<char>>, Seq<char>>(live),
{
    let looping = StatementView::While { cond, body: first };
    let each = StatementView::For { var, source: cond, body: first };
    assert(live_behind(looping, live) == crate::body_semantics::live_in_loop(first, live));
    assert(live_behind(each, live) == crate::body_semantics::live_in_loop(first, live));
}

// Bindings that are not read.

/// A binding that is not read in its scope is reported, once; one that is read is not,
/// nor is the placeholder.
pub proof fn law_unread_bindings_are_reported(analysis: AnalysisView, name: Seq<char>, ty: Option<TypeView>)
    requires
        name != "_"@,
    ensures
        analysis.opened().declared(name, ty, true).finished().warnings == analysis.warnings.push(unused_text(name)),
        analysis.opened().declared(name, ty, true).marked(name).finished().warnings == analysis.warnings,
        analysis.opened().declared("_"@, ty, true).finished().warnings == analysis.warnings,
        analysis.opened().declared(name, ty, false).finished().warnings == analysis.warnings,
        analysis.opened().finished() == analysis,
{
    let inside = analysis.opened();
    let id = analysis.bindings.len() as int;
    let declared = inside.declared(name, ty, true);
    let quiet = inside.declared(name, ty, false);
    let scope = seq![(name, id)];
    assert(inside.scopes.last() =~= Seq::<(Seq<char>, int)>::empty());
    assert(inside.scopes.drop_last() =~= analysis.scopes);
    assert(declared.scopes.last() =~= scope);
    assert(quiet.scopes.last() =~= scope);
    assert(scope[0] == (name, id));
    let closed = AnalysisView { scopes: declared.scopes.drop_last(), ..declared };
    assert(closed.all_checked(scope, 0) == closed.checked(id).all_checked(scope, 1));
    assert(closed.checked(id).all_checked(scope, 1) == closed.checked(id));
    let shut = AnalysisView { scopes: quiet.scopes.drop_last(), ..quiet };
    assert(shut.all_checked(scope, 0) == shut.checked(id).all_checked(scope, 1));
    assert(shut.checked(id).all_checked(scope, 1) == shut.checked(id));
    assert(crate::body_semantics::in_scope(scope, 1, name) == Some(id));
    assert(crate::body_semantics::resolved(declared.scopes, declared.scopes.len() as int, name) == Some(id));
    assert(declared.lookup(name) == Some(id));
    let marked = declared.marked(name);
    assert(marked.bindings[id].read);
    let done = AnalysisView { scopes: marked.scopes.drop_last(), ..marked };
    assert(done.all_checked(scope, 0) == done.checked(id).all_checked(scope, 1));
    assert(done.checked(id).all_checked(scope, 1) == done.checked(id));
    let empty = AnalysisView { scopes: inside.scopes.drop_last(), ..inside };
    assert(empty.all_checked(Seq::empty(), 0) == empty);
    assert(empty == analysis);
}

proof fn lemma_fields_read(fields: Seq<FieldExprView>, from: int, analysis: AnalysisView)
    requires
        0 <= from,
    ensures
        reads_fields(fields, from, analysis) == reads_all(parts_of(ExprView::Record(fields)), from, analysis),
    decreases fields.len() - from,
{
    let parts = parts_of(ExprView::Record(fields));
    if from < fields.len() {
        assert(parts[from] == fields[from].value);
        lemma_fields_read(fields, from + 1, reads(fields[from].value, analysis));
    }
}

proof fn lemma_pairs_read(items: Seq<(ExprView, ExprView)>, from: int, analysis: AnalysisView)
    requires
        0 <= from <= items.len(),
    ensures
        reads_pairs(items, from, analysis) == reads_all(parts_of(ExprView::Mapping(items)), 2 * from, analysis),
    decreases items.len() - from,
{
    let parts = parts_of(ExprView::Mapping(items));
    if from < items.len() {
        let first = reads(items[from].0, analysis);
        let second = reads(items[from].1, first);
        assert((2 * from) % 2 == 0 && (2 * from) / 2 == from && (2 * from + 1) % 2 == 1 && (2 * from + 1) / 2 == from);
        assert(parts[2 * from] == items[from].0);
        assert(parts[2 * from + 1] == items[from].1);
        lemma_pairs_read(items, from + 1, second);
        assert(reads_all(parts, 2 * from + 1, first) == reads_all(parts, 2 * from + 2, second));
    }
}

proof fn lemma_one_read(expr: ExprView, analysis: AnalysisView)
    ensures
        reads_all(seq![expr], 0, analysis) == reads(expr, analysis),
{
    let after = reads(expr, analysis);
    assert(seq![expr][0] == expr);
    assert(reads_all(seq![expr], 1, after) == after);
}

proof fn lemma_three_read(one: ExprView, two: ExprView, three: ExprView, analysis: AnalysisView)
    ensures
        reads_all(seq![one, two, three], 0, analysis) == reads(three, reads(two, reads(one, analysis))),
{
    let all = seq![one, two, three];
    let first = reads(one, analysis);
    let second = reads(two, first);
    let third = reads(three, second);
    assert(all[0] == one && all[1] == two && all[2] == three);
    assert(reads_all(all, 3, third) == third);
    assert(reads_all(all, 2, second) == third);
    assert(reads_all(all, 1, first) == third);
}

/// A variable is read where it is named, and an expression reads what the expressions
/// read that it is made of, all of them.
pub proof fn law_expressions_read_what_their_parts_read(expr: ExprView, analysis: AnalysisView)
    ensures
        expr matches ExprView::VarRef(name) ==> reads(expr, analysis) == analysis.marked(name),
        !(expr is VarRef) ==> reads(expr, analysis) == reads_all(parts_of(expr), 0, analysis),
{
    assert(reads_all(Seq::empty(), 0, analysis) == analysis);
    match expr {
        ExprView::Mutable(inner) => lemma_one_read(*inner, analysis),
        ExprView::Reference { target, .. } => lemma_one_read(*target, analysis),
        ExprView::Cast { from, .. } => lemma_one_read(*from, analysis),
        ExprView::PolicyNarrow { from, .. } => lemma_one_read(*from, analysis),
        ExprView::EnumConstructor { payload, .. } => match payload {
            Some(payload) => lemma_one_read(*payload, analysis),
            None => {}
        },
        ExprView::Range { start, end, step } => lemma_three_read(*start, *end, *step, analysis),
        ExprView::If { cond, then_e, else_e } => lemma_three_read(*cond, *then_e, *else_e, analysis),
        ExprView::Mapping(items) => lemma_pairs_read(items, 0, analysis),
        ExprView::Record(fields) => lemma_fields_read(fields, 0, analysis),
        ExprView::Call { call, .. } => {
            assert(crate::body_semantics::reads_call(call, analysis) == reads_all(call.args, 0, analysis));
        }
        _ => {}
    }
}

/// The branches of an `if` and the body of a `while` are checked as scopes of their
/// own, one after the other, behind the condition; so is the body of a task, behind
/// what it captures.
pub proof fn law_branches_are_scopes(
    cond: ExprView,
    first: Seq<StatementView>,
    second: Seq<StatementView>,
    is_final: bool,
    context: ContextView,
    analysis: AnalysisView,
)
    ensures
        ({
            let one = StatementView::Task { captures: Seq::empty(), body: first };
            let two = StatementView::Task { captures: Seq::empty(), body: second };
            let tested = analysed(StatementView::Return(cond), is_final, context, analysis);
            &&& analysed(
                (StatementView::If { cond, then_body: first, else_body: second }),
                is_final,
                context,
                analysis,
            ) == analysed(two, is_final, context, analysed(one, is_final, context, tested))
            &&& analysed((StatementView::While { cond, body: first }), is_final, context, analysis) == analysed(
                one,
                is_final,
                context,
                tested,
            )
        }),
{
    assert forall|other: AnalysisView| #[trigger] marked_all(Seq::empty(), 0, other) == other by {}
}

/// A result that a statement drops is reported where its type has to be handled, unless
/// it is the last statement of its body; a value of another type is not.
pub proof fn law_dropped_results_are_reported(expr: ExprView, context: ContextView, analysis: AnalysisView, ty: TypeView)
    requires
        expr_type(expr, reads(expr, analysis)) == Some(ty),
    ensures
        ({
            let after = analysed(StatementView::Eval(expr), false, context, analysis);
            let before = reads(expr, analysis);
            &&& fallible(ty, context.aliases) is Some ==> after.warnings.len() == before.warnings.len() + 1
                && after.warnings.drop_last() == before.warnings
            &&& fallible(ty, context.aliases) is None ==> after == before
            &&& analysed(StatementView::Eval(expr), true, context, analysis) == before
        }),
{
    let before = reads(expr, analysis);
    let after = analysed(StatementView::Eval(expr), false, context, analysis);
    if fallible(ty, context.aliases) is Some {
        assert(after.warnings.drop_last() =~= before.warnings);
    }
}

/// Results with a good and a bad case, and options, have to be handled; mutable values
/// of them and references to them too.
pub proof fn law_results_and_options_are_handled(
    tags: Seq<EnumTagView>,
    alias: TypeAliasView,
    inner: TypeView,
    mutable: bool,
    context: ContextView,
)
    requires
        alias.body == TypeView::Enum(tags),
    ensures
        alias.type_params.len() == 2 && has_tag(tags, "ok"@) && has_tag(tags, "err"@) ==> fallible_alias(
            "result"@,
            alias,
        ) is Some,
        alias.type_params.len() == 1 && has_tag(tags, "some"@) && has_tag(tags, "none"@) ==> fallible_alias(
            "option"@,
            alias,
        ) is Some,
        !has_tag(tags, "ok"@) && !has_tag(tags, "some"@) ==> fallible_alias("result"@, alias) is None
            && fallible_alias("option"@, alias) is None,
        fallible(TypeView::Mutable(Box::new(inner)), context.aliases) == fallible(inner, context.aliases),
        fallible((TypeView::Reference { inner: Box::new(inner), mutable }), context.aliases) == fallible(
            inner,
            context.aliases,
        ),
        fallible(TypeView::Int64, context.aliases) is None,
{
    lemma_no_dot("result"@);
    lemma_no_dot("option"@);
    reveal_strlit("result");
    reveal_strlit("option");
    assert("result"@[0] == 'r' && "option"@[0] == 'o');
}

proof fn lemma_no_dot(name: Seq<char>)
    requires
        name == "result"@ || name == "option"@,
    ensures
        crate::execute::pattern::last_part(name) == name,
{
    reveal_strlit("result");
    reveal_strlit("option");
    assert(name.len() == 6);
    assert forall|i: int| 0 <= i < 6 implies name[i] != '.' by {}
    lemma_after_dot(name, 6);
    assert(name.subrange(0, 6) =~= name);
}

proof fn lemma_after_dot(name: Seq<char>, index: int)
    requires
        0 <= index <= name.len(),
        forall|i: int| 0 <= i < index ==> name[i] != '.',
    ensures
        crate::execute::pattern::after_dot(name, index) == 0,
    decreases index,
{
    if index > 0 {
        lemma_after_dot(name, index - 1);
    }
}

// Types of calls.

proof fn lemma_param_place(params: Seq<Seq<char>>, count: int, index: int)
    requires
        0 <= index < count <= params.len(),
        params.no_duplicates(),
    ensures
        crate::body_semantics::param_place(params, count, params[index]) == index,
    decreases count,
{
    if index < count - 1 {
        assert(params[count - 1] != params[index]);
        lemma_param_place(params, count - 1, index);
    }
}

proof fn lemma_no_param(params: Seq<Seq<char>>, count: int, name: Seq<char>)
    requires
        0 <= count <= params.len(),
        !params.contains(name),
    ensures
        crate::body_semantics::param_place(params, count, name) == -1,
    decreases count,
{
    if count > 0 {
        assert(params.contains(params[count - 1]));
        lemma_no_param(params, count - 1, name);
    }
}

/// A type parameter stands for the type argument in its place, wherever it occurs; other
/// names stay, and so does everything around them.
pub proof fn law_type_arguments_stand_for_their_parameters(
    params: Seq<Seq<char>>,
    args: Seq<TypeView>,
    index: int,
    name: Seq<char>,
    base: Seq<char>,
    inner: TypeView,
    types: Seq<TypeView>,
    i: int,
)
    requires
        params.len() == args.len(),
        params.no_duplicates(),
        0 <= index < params.len(),
        !params.contains(name),
        0 <= i < types.len(),
    ensures
        substituted(TypeView::Named(params[index]), params, args) == args[index],
        substituted(TypeView::Named(name), params, args) == TypeView::Named(name),
        substituted(TypeView::Int64, params, args) == TypeView::Int64,
        substituted(TypeView::Mutable(Box::new(inner)), params, args) == TypeView::Mutable(
            Box::new(substituted(inner, params, args)),
        ),
        substituted((TypeView::Instantiated { base, type_args: types }), params, args)
            matches TypeView::Instantiated { base: kept, type_args } && kept == base && type_args.len() == types.len()
            && type_args[i] == substituted(types[i], params, args),
{
    lemma_param_place(params, params.len() as int, index);
    lemma_no_param(params, params.len() as int, name);
    assert(substituted((TypeView::Instantiated { base, type_args: types }), params, args) == (TypeView::Instantiated {
        base,
        type_args: crate::body_semantics::substituted_types(types, params, args),
    }));
}

} // verus!
