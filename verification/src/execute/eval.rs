//! The evaluator of lowered programs.
use vstd::prelude::*;
use crate::execute::bindings::{bind, duplicate, find, unbind, unbound, Bindings};
use crate::execute::failure::{Failure, Part, PartView};
use crate::execute::host::HostReply;
use crate::execute::host_calls::{call_host, target};
use crate::execute::pattern::pattern_matches;
use crate::execute::policy::{domain_name, intersect_requested_policy, narrow_capability_value, narrow_policy_value};
use crate::execute::primitive::eval_primitive;
use crate::execute::records::put_named;
use crate::lowered::field_order::find_name_order;
use crate::execute::semantics::{self, Env, FlowView, Flowed};
use crate::execute::session::{Halt, HaltView, Run, RunConfig, Session, SessionView};
use crate::execute::values::{read_place_value, runtime_value_eq, value_i64};
use crate::lowered::copy;
use crate::lowered::ir::{
    Call, Expr, FieldExpr, FieldValue, FunctionBody, FunctionEntry, FunctionSig, LetValue, LoweredExec,
    LoweredProgram, MatchArm, PolicyValue, RuntimeValue, Statement, TypeRef, WasmArgSpec,
};
use crate::lowered::view::{self, FieldValueView, ValueView};
use crate::text::{characters, concat_three, concat_two, decimal_text, owned, same_text, text_of};

verus! {

/// How control goes on behind a statement.
#[derive(Debug)]
pub enum ExecFlow {
    Next,
    Return(RuntimeValue),
    Break,
    Continue,
}

impl ExecFlow {
    pub open spec fn view(&self) -> FlowView {
        match *self {
            ExecFlow::Next => FlowView::Next,
            ExecFlow::Return(value) => FlowView::Return(view::value(value)),
            ExecFlow::Break => FlowView::Break,
            ExecFlow::Continue => FlowView::Continue,
        }
    }
}

/// A result of executable code with the variables and the session behind it.
pub open spec fn flowed(result: Result<ExecFlow, Halt>, env: Bindings, session: Session) -> Flowed {
    match result {
        Ok(flow) => Ok((flow@, crate::execute::bindings::bound(env), session@)),
        Err(halt) => Err(halt@),
    }
}

/// Values of executable code with the session behind them.
pub open spec fn listed(result: Result<Vec<RuntimeValue>, Halt>, session: Session) -> Result<
    (Seq<ValueView>, SessionView),
    HaltView,
> {
    match result {
        Ok(values) => Ok((view::values(values@), session@)),
        Err(halt) => Err(halt@),
    }
}

fn fail<T>(text: &str) -> (result: Result<T, Halt>)
    ensures
        result is Err,
        result->Err_0@ == semantics::failed(text@),
{
    Err(Halt::Failed(Failure::text(text)))
}

fn fail_named<T>(before: &str, name: &str, after: &str) -> (result: Result<T, Halt>)
    ensures
        result is Err,
        result->Err_0@ == semantics::failed(before@ + name@ + after@),
{
    let text = concat_three(before, name, after);
    Err(Halt::Failed(Failure::text(text.as_str())))
}

// Traversal.

fn range_items(start: i64, end: i64, step: i64, limit: usize) -> (result: Result<Vec<RuntimeValue>, Failure>)
    ensures
        match result {
            Ok(items) => semantics::range_from(start, end, step, limit, Seq::empty()) == Ok::<
                Seq<ValueView>,
                Seq<PartView>,
            >(view::values(items@)),
            Err(failure) => semantics::range_from(start, end, step, limit, Seq::empty()) == Err::<
                Seq<ValueView>,
                Seq<PartView>,
            >(failure@),
        },
{
    let mut out: Vec<RuntimeValue> = Vec::new();
    let mut current: i64 = start;
    assert(view::values(out@) =~= Seq::<ValueView>::empty());
    while (step > 0 && current < end) || (step < 0 && current > end)
        invariant
            out.len() <= limit,
            view::values(out@).len() == out.len(),
            semantics::range_from(start, end, step, limit, Seq::empty()) == semantics::range_from(
                current,
                end,
                step,
                limit,
                view::values(out@),
            ),
        decreases limit - out.len(),
    {
        if out.len() >= limit {
            return Err(traversal_failure(limit));
        }
        let next = match current.checked_add(step) {
            Some(next) => next,
            None => return Err(Failure::text("E-ITER-004: integer range overflow")),
        };
        let ghost before = out@;
        out.push(RuntimeValue::Int(current));
        proof {
            view::lemma_values_push(before, out@.last());
        }
        current = next;
    }
    Ok(out)
}

fn traversal_failure(limit: usize) -> (failure: Failure)
    ensures
        failure@ == semantics::too_long(limit),
{
    let number = decimal_text(limit as u64);
    let text = concat_three("E-ITER-003: traversal exceeds configured limit `", number.as_str(), "`");
    Failure::text(text.as_str())
}

fn pair_items(pairs: &Vec<(RuntimeValue, RuntimeValue)>) -> (result: Vec<RuntimeValue>)
    ensures
        view::values(result@) == Seq::new(
            view::value_pairs(pairs@).len(),
            |i: int| ValueView::Tuple(seq![view::value_pairs(pairs@)[i].0, view::value_pairs(pairs@)[i].1]),
        ),
{
    let ghost all = view::value_pairs(pairs@);
    let mut done: Vec<RuntimeValue> = Vec::new();
    let mut i: usize = 0;
    while i < pairs.len()
        invariant
            i <= pairs.len(),
            done.len() == i,
            all == view::value_pairs(pairs@),
            forall|k: int| 0 <= k < i ==> view::values(done@)[k] == ValueView::Tuple(seq![all[k].0, all[k].1]),
        decreases pairs.len() - i,
    {
        let ghost before = done@;
        let mut both: Vec<RuntimeValue> = Vec::new();
        both.push(copy::value(&pairs[i].0));
        both.push(copy::value(&pairs[i].1));
        assert(view::values(both@) =~= seq![all[i as int].0, all[i as int].1]);
        done.push(RuntimeValue::Tuple(both));
        proof {
            view::lemma_values_push(before, done@.last());
        }
        i += 1;
    }
    assert(view::values(done@) =~= Seq::new(all.len(), |i: int| ValueView::Tuple(seq![all[i].0, all[i].1])));
    done
}

fn scalar_items(text: &str) -> (result: Vec<RuntimeValue>)
    ensures
        view::values(result@) == Seq::new(text@.len(), |i: int| ValueView::Str(seq![text@[i]])),
{
    let letters = characters(text);
    let mut done: Vec<RuntimeValue> = Vec::new();
    let mut i: usize = 0;
    while i < letters.len()
        invariant
            i <= letters.len(),
            done.len() == i,
            letters@ == text@,
            forall|k: int| 0 <= k < i ==> view::values(done@)[k] == ValueView::Str(seq![text@[k]]),
        decreases letters.len() - i,
    {
        let ghost before = done@;
        let piece = text_of(&letters, i, i + 1);
        assert(piece@ =~= seq![text@[i as int]]);
        done.push(RuntimeValue::Str(piece));
        proof {
            view::lemma_values_push(before, done@.last());
        }
        i += 1;
    }
    assert(view::values(done@) =~= Seq::new(text@.len(), |i: int| ValueView::Str(seq![text@[i]])));
    done
}

/// The items that a loop over `value` goes through, at most `limit`.
pub fn iteration_items(value: RuntimeValue, limit: usize) -> (result: Result<Vec<RuntimeValue>, Failure>)
    ensures
        match result {
            Ok(items) => semantics::traversed(view::value(value), limit) == Ok::<Seq<ValueView>, Seq<PartView>>(
                view::values(items@),
            ),
            Err(failure) => semantics::traversed(view::value(value), limit) == Err::<Seq<ValueView>, Seq<PartView>>(
                failure@,
            ),
        },
{
    let items = match value {
        RuntimeValue::Array(items) => items,
        RuntimeValue::Mapping(pairs) => pair_items(&pairs),
        RuntimeValue::Str(text) => scalar_items(text.as_str()),
        RuntimeValue::Range { start, end, step } => {
            if step == 0 {
                return Err(Failure::text("E-ITER-002: `$range.step` must not be zero"));
            }
            match range_items(start, end, step, limit) {
                Ok(items) => items,
                Err(failure) => return Err(failure),
            }
        }
        other => return Err(Failure::about("E-ITER-001: value is not traversable: ", &other)),
    };
    assert(view::values(items@).len() == items@.len());
    if items.len() > limit {
        return Err(traversal_failure(limit));
    }
    Ok(items)
}

// Places.

fn new_place(value: RuntimeValue, session: &mut Session) -> (cell: u64)
    requires
        old(session).well_formed(),
    ensures
        final(session).well_formed(),
        (cell, final(session)@) == semantics::placed(view::value(value), old(session)@),
{
    let ghost before = session.cells@;
    assert(view::values(session.cells@).len() == session.cells@.len());
    let cell: u64 = session.cells.len() as u64;
    session.cells.push(value);
    proof {
        view::lemma_values_push(before, session.cells@.last());
    }
    cell
}

fn take_place(value: &RuntimeValue, session: &mut Session) -> (cell: u64)
    requires
        old(session).well_formed(),
    ensures
        final(session).well_formed(),
        (cell, final(session)@) == semantics::place_of(view::value(*value), old(session)@),
{
    match value {
        RuntimeValue::Mutable(cell) => *cell,
        RuntimeValue::Reference { cell, .. } => *cell,
        _ => new_place(copy::value(value), session),
    }
}

fn writable(value: &RuntimeValue) -> (cell: Option<u64>)
    ensures
        cell == semantics::writable_place(view::value(*value)),
{
    match value {
        RuntimeValue::Mutable(cell) => Some(*cell),
        RuntimeValue::Reference { cell, mutable } => {
            if *mutable {
                Some(*cell)
            } else {
                None
            }
        }
        _ => None,
    }
}

fn lend(inner: &Expr, env: &Bindings) -> (cell: Option<u64>)
    requires
        env.well_formed(),
    ensures
        cell == semantics::lent(view::expr(*inner), crate::execute::bindings::bound(*env)),
{
    match inner {
        Expr::VarRef(name) => match find(env, name.as_str()) {
            Some(value) => writable(value),
            None => None,
        },
        _ => None,
    }
}

fn variable_name(expr: &Expr) -> (name: Option<&String>)
    ensures
        match name {
            Some(name) => view::expr(*expr) == crate::lowered::view::ExprView::VarRef(name@),
            None => !(view::expr(*expr) is VarRef),
        },
{
    match expr {
        Expr::VarRef(name) => Some(name),
        _ => None,
    }
}

fn read_variable(name: &str, env: &Bindings, session: &Session) -> (result: Result<RuntimeValue, Halt>)
    requires
        env.well_formed(),
    ensures
        crate::execute::session::stepped(result, *session) == semantics::variable(
            name@,
            crate::execute::bindings::bound(*env),
            session@,
        ),
{
    assert(view::values(session.cells@).len() == session.cells@.len());
    match find(env, name) {
        None => fail_named("unknown variable `$", name, "`"),
        Some(value) => match read_place_value(value, &session.cells, session.cells.len()) {
            Some(found) => Ok(found),
            None => fail("a place leads back to itself"),
        },
    }
}

fn add_pair(
    pairs: &mut Vec<(RuntimeValue, RuntimeValue)>,
    key: RuntimeValue,
    value: RuntimeValue,
    cells: &Vec<RuntimeValue>,
)
    ensures
        view::value_pairs(final(pairs)@) == semantics::with_pair(
            view::value_pairs(old(pairs)@),
            view::value(key),
            view::value(value),
            view::values(cells@),
        ),
{
    let ghost all = view::value_pairs(pairs@);
    let ghost store = view::values(cells@);
    let ghost wanted = view::value(key);
    let ghost held = view::value(value);
    let mut i: usize = 0;
    while i < pairs.len()
        invariant_except_break
            i <= pairs.len(),
            *pairs == *old(pairs),
            all == view::value_pairs(pairs@),
            store == view::values(cells@),
            wanted == view::value(key),
            semantics::equal_key(all, 0, wanted, store) == semantics::equal_key(all, i as int, wanted, store),
        ensures
            i <= pairs.len(),
            *pairs == *old(pairs),
            semantics::equal_key(all, 0, wanted, store) == i,
        decreases pairs.len() - i,
    {
        assert(all[i as int] == (view::value(pairs@[i as int].0), view::value(pairs@[i as int].1)));
        if runtime_value_eq(&pairs[i].0, &key, cells) {
            break;
        }
        i += 1;
    }
    let ghost before = pairs@;
    if i < pairs.len() {
        let first = copy::value(&pairs[i].0);
        pairs[i] = (first, value);
        assert(view::value_pairs(pairs@) =~= all.update(i as int, (all[i as int].0, held)));
    } else {
        pairs.push((key, value));
        proof {
            view::lemma_value_pairs_push(before, pairs@.last());
        }
    }
}

fn narrow(value: RuntimeValue, target: &TypeRef, run: &Run, session: &Session) -> (result: Result<RuntimeValue, Halt>)
    ensures
        crate::execute::session::stepped(result, *session) == semantics::narrowed(
            view::value(value),
            view::type_ref(*target),
            run@,
            session@,
        ),
{
    let source = match value {
        RuntimeValue::Policy(source) => source,
        _ => return fail("`$policy.narrow` expects a policy value"),
    };
    match target {
        TypeRef::Capability(requested) => match narrow_capability_value(
            requested,
            &source.policy,
            &run.config.working_dir,
        ) {
            Ok(capability) => Ok(RuntimeValue::Capability(capability)),
            Err(failure) => Err(Halt::Failed(failure)),
        },
        TypeRef::Policy(requested) => match narrow_policy_value(requested, &source.policy, &run.config.working_dir) {
            Ok(policy) => Ok(RuntimeValue::Policy(policy)),
            Err(failure) => Err(Halt::Failed(failure)),
        },
        _ => fail("`$policy.narrow.into` must be a capability type"),
    }
}

pub(crate) fn find_function<'a>(functions: &'a Vec<FunctionEntry>, key: &str) -> (result: Option<&'a FunctionSig>)
    ensures
        match result {
            Some(signature) => semantics::function_from(view::function_entries(functions@), 0, key@) == Some(
                view::function_sig(*signature),
            ),
            None => semantics::function_from(view::function_entries(functions@), 0, key@) is None,
        },
{
    let ghost all = view::function_entries(functions@);
    let mut i: usize = 0;
    while i < functions.len()
        invariant
            i <= functions.len(),
            all == view::function_entries(functions@),
            semantics::function_from(all, 0, key@) == semantics::function_from(all, i as int, key@),
        decreases functions.len() - i,
    {
        assert(all[i as int] == view::function_entry(functions@[i as int]));
        if same_text(functions[i].key.as_str(), key) {
            return Some(&functions[i].signature);
        }
        i += 1;
    }
    None
}

fn name_position(names: &Vec<String>, name: &str) -> (place: usize)
    ensures
        place as int == semantics::name_place(view::texts(names@), 0, name@),
        place <= names.len(),
{
    let ghost all = view::texts(names@);
    let mut i: usize = 0;
    while i < names.len()
        invariant
            i <= names.len(),
            all == view::texts(names@),
            semantics::name_place(all, 0, name@) == semantics::name_place(all, i as int, name@),
        decreases names.len() - i,
    {
        if same_text(names[i].as_str(), name) {
            return i;
        }
        i += 1;
    }
    i
}

// Expressions.

/// Evaluates an expression.
#[verifier::rlimit(50)]
pub fn eval_expr(expr: &Expr, env: &Bindings, run: &Run, session: &mut Session, budget: u64) -> (result: Result<
    RuntimeValue,
    Halt,
>)
    requires
        env.well_formed(),
        old(session).well_formed(),
    ensures
        final(session).well_formed(),
        crate::execute::session::stepped(result, *final(session)) == semantics::evaluated(
            view::expr(*expr),
            crate::execute::bindings::bound(*env),
            run@,
            old(session)@,
            budget as nat,
        ),
    decreases budget, 0int, expr, 0int,
{
    match expr {
        Expr::Value(value) => Ok(copy::value(value)),
        Expr::VarRef(name) => read_variable(name.as_str(), env, session),
        Expr::Mutable(inner) => match lend(inner, env) {
            Some(cell) => Ok(RuntimeValue::Mutable(cell)),
            None => match eval_expr(inner, env, run, session, budget) {
                Ok(value) => {
                    let cell = new_place(value, session);
                    Ok(RuntimeValue::Mutable(cell))
                }
                Err(halt) => Err(halt),
            },
        },
        Expr::Reference { target, mutable } => match variable_name(target) {
            Some(name) => match find(env, name.as_str()) {
                Some(value) => {
                    let cell = take_place(value, session);
                    Ok(RuntimeValue::Reference { cell, mutable: *mutable })
                }
                None => fail_named("unknown reference target `$", name.as_str(), "`"),
            },
            None => match eval_expr(target, env, run, session, budget) {
                Ok(value) => {
                    let cell = take_place(&value, session);
                    Ok(RuntimeValue::Reference { cell, mutable: *mutable })
                }
                Err(halt) => Err(halt),
            },
        },
        Expr::Call { call, .. } => exec_call(call, env, run, session, budget),
        Expr::HostCall { import, args, return_type, .. } => {
            let values = match eval_all(args, env, run, session, budget) {
                Ok(values) => values,
                Err(halt) => return Err(halt),
            };
            assert(view::values(values@).len() == values@.len());
            match target(import.name.as_str(), import, values.len(), run) {
                Ok(entry) => call_host(import, entry, return_type, &values, run, session),
                Err(failure) => Err(Halt::Failed(failure)),
            }
        }
        Expr::Primitive { op, args, operand_type, return_type } => {
            let values = match eval_all(args, env, run, session, budget) {
                Ok(values) => values,
                Err(halt) => return Err(halt),
            };
            eval_primitive(*op, operand_type, return_type, &values, run, session)
        }
        Expr::Cast { from, target } => match eval_expr(from, env, run, session, budget) {
            Ok(value) => Ok(RuntimeValue::Typed { type_ref: copy::type_ref(target), value: Box::new(value) }),
            Err(halt) => Err(halt),
        },
        Expr::PolicyNarrow { from, target } => match eval_expr(from, env, run, session, budget) {
            Ok(value) => narrow(value, target, run, session),
            Err(halt) => Err(halt),
        },
        Expr::EnumConstructor { enum_key, tag, payload } => match payload {
            None => Ok(RuntimeValue::Enum { enum_key: enum_key.clone(), tag: tag.clone(), payload: None }),
            Some(part) => match eval_expr(part, env, run, session, budget) {
                Ok(value) => Ok(
                    RuntimeValue::Enum { enum_key: enum_key.clone(), tag: tag.clone(), payload: Some(Box::new(value)) },
                ),
                Err(halt) => Err(halt),
            },
        },
        Expr::Record(fields) => match eval_fields(fields, env, run, session, budget) {
            Ok(fields) => Ok(RuntimeValue::Record(fields)),
            Err(halt) => Err(halt),
        },
        Expr::Tuple(items) => match eval_all(items, env, run, session, budget) {
            Ok(values) => Ok(RuntimeValue::Tuple(values)),
            Err(halt) => Err(halt),
        },
        Expr::Array(items) => match eval_all(items, env, run, session, budget) {
            Ok(values) => Ok(RuntimeValue::Array(values)),
            Err(halt) => Err(halt),
        },
        Expr::Mapping(items) => match eval_pairs(items, env, run, session, budget) {
            Ok(pairs) => Ok(RuntimeValue::Mapping(pairs)),
            Err(halt) => Err(halt),
        },
        Expr::Range { start, end, step } => {
            let first = match eval_int(start, env, run, session, budget) {
                Ok(first) => first,
                Err(halt) => return Err(halt),
            };
            let last = match eval_int(end, env, run, session, budget) {
                Ok(last) => last,
                Err(halt) => return Err(halt),
            };
            let by = match eval_int(step, env, run, session, budget) {
                Ok(by) => by,
                Err(halt) => return Err(halt),
            };
            if by == 0 {
                return fail("E-ITER-002: `$range.step` must not be zero");
            }
            Ok(RuntimeValue::Range { start: first, end: last, step: by })
        }
        Expr::If { cond, then_e, else_e } => match eval_expr(cond, env, run, session, budget) {
            Ok(RuntimeValue::Bool(true)) => eval_expr(then_e, env, run, session, budget),
            Ok(RuntimeValue::Bool(false)) => eval_expr(else_e, env, run, session, budget),
            Ok(other) => Err(Halt::Failed(Failure::about("`$if` condition must be `$bool`, got ", &other))),
            Err(halt) => Err(halt),
        },
    }
}

fn eval_int(expr: &Expr, env: &Bindings, run: &Run, session: &mut Session, budget: u64) -> (result: Result<i64, Halt>)
    requires
        env.well_formed(),
        old(session).well_formed(),
    ensures
        final(session).well_formed(),
        match result {
            Ok(number) => semantics::evaluated_int(
                view::expr(*expr),
                crate::execute::bindings::bound(*env),
                run@,
                old(session)@,
                budget as nat,
            ) == Ok::<(i64, SessionView), HaltView>((number, final(session)@)),
            Err(halt) => semantics::evaluated_int(
                view::expr(*expr),
                crate::execute::bindings::bound(*env),
                run@,
                old(session)@,
                budget as nat,
            ) == Err::<(i64, SessionView), HaltView>(halt@),
        },
    decreases budget, 0int, expr, 1int,
{
    match eval_expr(expr, env, run, session, budget) {
        Ok(value) => match value_i64(&value) {
            Ok(number) => Ok(number),
            Err(failure) => Err(Halt::Failed(failure)),
        },
        Err(halt) => Err(halt),
    }
}

fn eval_all(exprs: &Vec<Expr>, env: &Bindings, run: &Run, session: &mut Session, budget: u64) -> (result: Result<
    Vec<RuntimeValue>,
    Halt,
>)
    requires
        env.well_formed(),
        old(session).well_formed(),
    ensures
        final(session).well_formed(),
        listed(result, *final(session)) == semantics::evaluated_all(
            view::exprs(exprs@),
            0,
            Seq::empty(),
            crate::execute::bindings::bound(*env),
            run@,
            old(session)@,
            budget as nat,
        ),
    decreases budget, 0int, exprs, 0int,
{
    let ghost all = view::exprs(exprs@);
    let ghost scope = crate::execute::bindings::bound(*env);
    let ghost start = session@;
    let mut done: Vec<RuntimeValue> = Vec::new();
    let mut i: usize = 0;
    assert(view::values(done@) =~= Seq::<ValueView>::empty());
    while i < exprs.len()
        invariant
            i <= exprs.len(),
            all == view::exprs(exprs@),
            scope == crate::execute::bindings::bound(*env),
            env.well_formed(),
            session.well_formed(),
            start == old(session)@,
            semantics::evaluated_all(all, 0, Seq::empty(), scope, run@, start, budget as nat)
                == semantics::evaluated_all(all, i as int, view::values(done@), scope, run@, session@, budget as nat),
        decreases exprs.len() - i,
    {
        assert(all[i as int] == view::expr(exprs@[i as int]));
        let ghost before = done@;
        match eval_expr(&exprs[i], env, run, session, budget) {
            Ok(value) => {
                done.push(value);
                proof {
                    view::lemma_values_push(before, done@.last());
                }
            }
            Err(halt) => return Err(halt),
        }
        i += 1;
    }
    Ok(done)
}

fn eval_fields(fields: &Vec<FieldExpr>, env: &Bindings, run: &Run, session: &mut Session, budget: u64) -> (result: Result<
    Vec<FieldValue>,
    Halt,
>)
    requires
        env.well_formed(),
        old(session).well_formed(),
    ensures
        final(session).well_formed(),
        match result {
            Ok(values) => semantics::evaluated_fields(
                view::field_exprs(fields@),
                crate::lowered::field_order::name_order(view::field_exprs(fields@), fields@.len() as int),
                0,
                Seq::empty(),
                crate::execute::bindings::bound(*env),
                run@,
                old(session)@,
                budget as nat,
            ) == Ok::<(Seq<FieldValueView>, SessionView), HaltView>((view::field_values(values@), final(session)@)),
            Err(halt) => semantics::evaluated_fields(
                view::field_exprs(fields@),
                crate::lowered::field_order::name_order(view::field_exprs(fields@), fields@.len() as int),
                0,
                Seq::empty(),
                crate::execute::bindings::bound(*env),
                run@,
                old(session)@,
                budget as nat,
            ) == Err::<(Seq<FieldValueView>, SessionView), HaltView>(halt@),
        },
    decreases budget, 0int, fields, 0int,
{
    let ghost all = view::field_exprs(fields@);
    let ghost scope = crate::execute::bindings::bound(*env);
    let ghost start = session@;
    let order = find_name_order(fields);
    let ghost places = crate::lowered::field_order::positions(order@);
    let mut done: Vec<FieldValue> = Vec::new();
    let mut i: usize = 0;
    assert(view::field_values(done@) =~= Seq::<FieldValueView>::empty());
    while i < order.len()
        invariant
            i <= order.len(),
            places == crate::lowered::field_order::positions(order@),
            places == crate::lowered::field_order::name_order(all, fields@.len() as int),
            forall|k: int| 0 <= k < order@.len() ==> (#[trigger] order@[k]) < fields@.len(),
            all == view::field_exprs(fields@),
            scope == crate::execute::bindings::bound(*env),
            env.well_formed(),
            session.well_formed(),
            start == old(session)@,
            semantics::evaluated_fields(all, places, 0, Seq::empty(), scope, run@, start, budget as nat)
                == semantics::evaluated_fields(
                all,
                places,
                i as int,
                view::field_values(done@),
                scope,
                run@,
                session@,
                budget as nat,
            ),
        decreases order.len() - i,
    {
        let place: usize = order[i];
        assert(places[i as int] == place as int);
        assert(all[place as int] == view::field_expr(fields@[place as int]));
        match eval_expr(&fields[place].value, env, run, session, budget) {
            Ok(value) => {
                put_named(&mut done, FieldValue { name: fields[place].name.clone(), value });
            }
            Err(halt) => return Err(halt),
        }
        i += 1;
    }
    Ok(done)
}

fn eval_pairs(items: &Vec<(Expr, Expr)>, env: &Bindings, run: &Run, session: &mut Session, budget: u64) -> (result: Result<
    Vec<(RuntimeValue, RuntimeValue)>,
    Halt,
>)
    requires
        env.well_formed(),
        old(session).well_formed(),
    ensures
        final(session).well_formed(),
        match result {
            Ok(pairs) => semantics::evaluated_pairs(
                view::expr_pairs(items@),
                0,
                Seq::empty(),
                crate::execute::bindings::bound(*env),
                run@,
                old(session)@,
                budget as nat,
            ) == Ok::<(Seq<(ValueView, ValueView)>, SessionView), HaltView>(
                (view::value_pairs(pairs@), final(session)@),
            ),
            Err(halt) => semantics::evaluated_pairs(
                view::expr_pairs(items@),
                0,
                Seq::empty(),
                crate::execute::bindings::bound(*env),
                run@,
                old(session)@,
                budget as nat,
            ) == Err::<(Seq<(ValueView, ValueView)>, SessionView), HaltView>(halt@),
        },
    decreases budget, 0int, items, 0int,
{
    let ghost all = view::expr_pairs(items@);
    let ghost scope = crate::execute::bindings::bound(*env);
    let ghost start = session@;
    let mut done: Vec<(RuntimeValue, RuntimeValue)> = Vec::new();
    let mut i: usize = 0;
    assert(view::value_pairs(done@) =~= Seq::<(ValueView, ValueView)>::empty());
    while i < items.len()
        invariant
            i <= items.len(),
            all == view::expr_pairs(items@),
            scope == crate::execute::bindings::bound(*env),
            env.well_formed(),
            session.well_formed(),
            start == old(session)@,
            semantics::evaluated_pairs(all, 0, Seq::empty(), scope, run@, start, budget as nat)
                == semantics::evaluated_pairs(
                all,
                i as int,
                view::value_pairs(done@),
                scope,
                run@,
                session@,
                budget as nat,
            ),
        decreases items.len() - i,
    {
        assert(all[i as int] == (view::expr(items@[i as int].0), view::expr(items@[i as int].1)));
        let key = match eval_expr(&items[i].0, env, run, session, budget) {
            Ok(key) => key,
            Err(halt) => return Err(halt),
        };
        let value = match eval_expr(&items[i].1, env, run, session, budget) {
            Ok(value) => value,
            Err(halt) => return Err(halt),
        };
        add_pair(&mut done, key, value, &session.cells);
        i += 1;
    }
    Ok(done)
}

// Calls.

fn bind_args(
    signature: &FunctionSig,
    args: &Vec<Expr>,
    env: &Bindings,
    run: &Run,
    session: &mut Session,
    budget: u64,
) -> (result: Result<Bindings, Halt>)
    requires
        env.well_formed(),
        old(session).well_formed(),
    ensures
        final(session).well_formed(),
        match result {
            Ok(scope) => scope.well_formed() && semantics::bound_args(
                signature.symbol@,
                view::texts(signature.arg_names@),
                0,
                view::exprs(args@),
                crate::execute::bindings::bound(*env),
                Map::empty(),
                run@,
                old(session)@,
                budget as nat,
            ) == Ok::<(Env, SessionView), HaltView>((crate::execute::bindings::bound(scope), final(session)@)),
            Err(halt) => semantics::bound_args(
                signature.symbol@,
                view::texts(signature.arg_names@),
                0,
                view::exprs(args@),
                crate::execute::bindings::bound(*env),
                Map::empty(),
                run@,
                old(session)@,
                budget as nat,
            ) == Err::<(Env, SessionView), HaltView>(halt@),
        },
    decreases budget, 0int, args, 0int,
{
    let ghost all = view::exprs(args@);
    let ghost names = view::texts(signature.arg_names@);
    let ghost outer = crate::execute::bindings::bound(*env);
    let ghost start = session@;
    let mut scope = unbound();
    let mut i: usize = 0;
    assert(all.len() == args@.len());
    while i < signature.arg_names.len()
        invariant
            i <= signature.arg_names.len(),
            all == view::exprs(args@),
            all.len() == args@.len(),
            names == view::texts(signature.arg_names@),
            outer == crate::execute::bindings::bound(*env),
            env.well_formed(),
            scope.well_formed(),
            session.well_formed(),
            start == old(session)@,
            semantics::bound_args(signature.symbol@, names, 0, all, outer, Map::empty(), run@, start, budget as nat)
                == semantics::bound_args(
                signature.symbol@,
                names,
                i as int,
                all,
                outer,
                crate::execute::bindings::bound(scope),
                run@,
                session@,
                budget as nat,
            ),
        decreases signature.arg_names.len() - i,
    {
        let name = signature.arg_names[i].as_str();
        assert(names[i as int] == name@);
        if i >= args.len() {
            return missing_argument(signature.symbol.as_str(), name);
        }
        assert(all[i as int] == view::expr(args@[i as int]));
        match eval_expr(&args[i], env, run, session, budget) {
            Ok(value) => {
                let key = concat_two("args.", name);
                bind(&mut scope, key.as_str(), value);
            }
            Err(halt) => return Err(halt),
        }
        i += 1;
    }
    Ok(scope)
}

fn missing_argument<T>(symbol: &str, name: &str) -> (result: Result<T, Halt>)
    ensures
        result is Err,
        result->Err_0@ == semantics::missing_argument(symbol@, name@),
{
    let mut text = concat_three("call of `", symbol, "` passes no argument `");
    text.append(name);
    text.append("`");
    Err(Halt::Failed(Failure::text(text.as_str())))
}

fn unknown_argument<T>(symbol: &str, name: &str) -> (result: Result<T, Halt>)
    ensures
        result is Err,
        result->Err_0@ == semantics::failed("`"@ + symbol@ + "` forwards unknown argument `$args."@ + name@ + "`"@),
{
    let mut text = concat_three("`", symbol, "` forwards unknown argument `$args.");
    text.append(name);
    text.append("`");
    Err(Halt::Failed(Failure::text(text.as_str())))
}

fn forward_args(
    signature: &FunctionSig,
    specs: &Vec<WasmArgSpec>,
    args: &Vec<Expr>,
    env: &Bindings,
    run: &Run,
    session: &mut Session,
    budget: u64,
) -> (result: Result<Vec<RuntimeValue>, Halt>)
    requires
        env.well_formed(),
        old(session).well_formed(),
    ensures
        final(session).well_formed(),
        listed(result, *final(session)) == semantics::forwarded(
            view::function_sig(*signature),
            view::wasm_arg_specs(specs@),
            0,
            view::exprs(args@),
            Seq::empty(),
            crate::execute::bindings::bound(*env),
            run@,
            old(session)@,
            budget as nat,
        ),
    decreases budget, 0int, args, 0int,
{
    let ghost all = view::exprs(args@);
    let ghost wanted = view::wasm_arg_specs(specs@);
    let ghost owner = view::function_sig(*signature);
    let ghost scope = crate::execute::bindings::bound(*env);
    let ghost start = session@;
    let mut done: Vec<RuntimeValue> = Vec::new();
    let mut i: usize = 0;
    assert(all.len() == args@.len());
    assert(view::values(done@) =~= Seq::<ValueView>::empty());
    while i < specs.len()
        invariant
            i <= specs.len(),
            all == view::exprs(args@),
            all.len() == args@.len(),
            wanted == view::wasm_arg_specs(specs@),
            owner == view::function_sig(*signature),
            scope == crate::execute::bindings::bound(*env),
            env.well_formed(),
            session.well_formed(),
            start == old(session)@,
            semantics::forwarded(owner, wanted, 0, all, Seq::empty(), scope, run@, start, budget as nat)
                == semantics::forwarded(
                owner,
                wanted,
                i as int,
                all,
                view::values(done@),
                scope,
                run@,
                session@,
                budget as nat,
            ),
        decreases specs.len() - i,
    {
        assert(wanted[i as int] == view::wasm_arg_spec(specs@[i as int]));
        let ghost before = done@;
        let value = match &specs[i] {
            WasmArgSpec::ConstInt(value) => RuntimeValue::Int(*value),
            WasmArgSpec::ConstStr(value) => RuntimeValue::Str(value.clone()),
            WasmArgSpec::Arg(name) => {
                let place = name_position(&signature.arg_names, name.as_str());
                if place >= signature.arg_names.len() {
                    return unknown_argument(signature.symbol.as_str(), name.as_str());
                }
                if place >= args.len() {
                    return missing_argument(signature.symbol.as_str(), name.as_str());
                }
                assert(all[place as int] == view::expr(args@[place as int]));
                match eval_expr(&args[place], env, run, session, budget) {
                    Ok(value) => value,
                    Err(halt) => return Err(halt),
                }
            }
        };
        done.push(value);
        proof {
            view::lemma_values_push(before, done@.last());
        }
        i += 1;
    }
    Ok(done)
}

fn finish_call(signature: &FunctionSig, flow: ExecFlow, session: &Session) -> (result: Result<RuntimeValue, Halt>)
    ensures
        crate::execute::session::stepped(result, *session) == semantics::returned(
            view::function_sig(*signature),
            flow@,
            session@,
        ),
{
    match flow {
        ExecFlow::Return(value) => Ok(value),
        ExecFlow::Next => {
            if matches!(signature.return_type, TypeRef::Void) {
                Ok(RuntimeValue::Void)
            } else {
                fail_named(
                    "function `",
                    signature.symbol.as_str(),
                    "` finished without a value (expected non-void return)",
                )
            }
        }
        _ => fail("loop control escaped its loop"),
    }
}

/// Calls a function.
pub fn exec_call(call: &Call, env: &Bindings, run: &Run, session: &mut Session, budget: u64) -> (result: Result<
    RuntimeValue,
    Halt,
>)
    requires
        env.well_formed(),
        old(session).well_formed(),
    ensures
        final(session).well_formed(),
        crate::execute::session::stepped(result, *final(session)) == semantics::called(
            view::call(*call),
            crate::execute::bindings::bound(*env),
            run@,
            old(session)@,
            budget as nat,
        ),
    decreases budget, 0int, call, 0int,
{
    let signature = match find_function(&run.program.functions, call.callee_key.as_str()) {
        Some(signature) => signature,
        None => return fail_named("missing function `", call.callee_key.as_str(), "`"),
    };
    match &signature.body {
        FunctionBody::User { statements } => {
            let mut scope = match bind_args(signature, &call.args, env, run, session, budget) {
                Ok(scope) => scope,
                Err(halt) => return Err(halt),
            };
            if budget == 0 {
                return Err(Halt::Exhausted);
            }
            match run_block(statements, run, &mut scope, session, budget - 1) {
                Ok(flow) => finish_call(signature, flow, session),
                Err(halt) => Err(halt),
            }
        }
        FunctionBody::Wasm { import, wasm_args } => {
            assert(view::wasm_arg_specs(wasm_args@).len() == wasm_args@.len());
            let entry = match target(signature.symbol.as_str(), import, wasm_args.len(), run) {
                Ok(entry) => entry,
                Err(failure) => return Err(Halt::Failed(failure)),
            };
            let values = match forward_args(signature, wasm_args, &call.args, env, run, session, budget) {
                Ok(values) => values,
                Err(halt) => return Err(halt),
            };
            call_host(import, entry, &signature.return_type, &values, run, session)
        }
    }
}

// Statements.

fn capture(names: &Vec<String>, env: &Bindings) -> (result: Result<Bindings, Failure>)
    requires
        env.well_formed(),
    ensures
        match result {
            Ok(scope) => scope.well_formed() && semantics::captured(
                view::texts(names@),
                0,
                crate::execute::bindings::bound(*env),
                Map::empty(),
            ) == Ok::<Env, Seq<PartView>>(crate::execute::bindings::bound(scope)),
            Err(failure) => semantics::captured(
                view::texts(names@),
                0,
                crate::execute::bindings::bound(*env),
                Map::empty(),
            ) == Err::<Env, Seq<PartView>>(failure@),
        },
{
    let ghost all = view::texts(names@);
    let ghost outer = crate::execute::bindings::bound(*env);
    let mut scope = unbound();
    let mut i: usize = 0;
    while i < names.len()
        invariant
            i <= names.len(),
            all == view::texts(names@),
            outer == crate::execute::bindings::bound(*env),
            env.well_formed(),
            scope.well_formed(),
            semantics::captured(all, 0, outer, Map::empty()) == semantics::captured(
                all,
                i as int,
                outer,
                crate::execute::bindings::bound(scope),
            ),
        decreases names.len() - i,
    {
        let name = names[i].as_str();
        assert(all[i as int] == name@);
        match find(env, name) {
            Some(value) => bind(&mut scope, name, copy::value(value)),
            None => {
                let text = concat_three("E-TASK-001: missing captured value `", name, "`");
                return Err(Failure::text(text.as_str()));
            }
        }
        i += 1;
    }
    Ok(scope)
}

fn assign(var: &str, value: RuntimeValue, env: &Bindings, session: &mut Session) -> (result: Result<ExecFlow, Halt>)
    requires
        env.well_formed(),
        old(session).well_formed(),
    ensures
        final(session).well_formed(),
        flowed(result, *env, *final(session)) == semantics::assigned(
            var@,
            view::value(value),
            crate::execute::bindings::bound(*env),
            old(session)@,
        ),
{
    let found = match find(env, var) {
        Some(found) => found,
        None => return fail_named("E-SET-002: unknown `$set` target `", var, "`"),
    };
    match writable(found) {
        Some(cell) => {
            let ghost before = view::values(session.cells@);
            assert(before.len() == session.cells@.len());
            let count: u64 = session.cells.len() as u64;
            if cell < count {
                let ghost held = view::value(value);
                session.cells[cell as usize] = value;
                assert(view::values(session.cells@) =~= before.update(cell as int, held));
                Ok(ExecFlow::Next)
            } else {
                fail("a place leads back to itself")
            }
        }
        None => fail_named("E-SET-002: symbol `", var, "` is not writable"),
    }
}

fn join_task(handle: &str, var: &str, env: &mut Bindings, session: &mut Session) -> (result: Result<ExecFlow, Halt>)
    requires
        old(env).well_formed(),
        old(session).well_formed(),
    ensures
        final(env).well_formed(),
        final(session).well_formed(),
        flowed(result, *final(env), *final(session)) == semantics::joined(
            handle@,
            var@,
            crate::execute::bindings::bound(*old(env)),
            old(session)@,
        ),
{
    let id = match unbind(env, handle) {
        Some(RuntimeValue::JoinHandle(id)) => id,
        Some(_) => return fail_named("E-TASK-003: symbol `", handle, "` is not a task join handle"),
        None => return fail_named("E-TASK-003: task handle `", handle, "` is unknown or already joined"),
    };
    match session.tasks.join(id) {
        Ok(value) => {
            bind(env, var, value);
            Ok(ExecFlow::Next)
        }
        Err(failure) => Err(Halt::Failed(failure)),
    }
}

fn spawn_task(handle: &str, value: RuntimeValue, env: &mut Bindings, session: &mut Session) -> (result: Result<
    ExecFlow,
    Halt,
>)
    requires
        old(env).well_formed(),
        old(session).well_formed(),
    ensures
        final(env).well_formed(),
        final(session).well_formed(),
        flowed(result, *final(env), *final(session)) == semantics::spawned(
            handle@,
            view::value(value),
            crate::execute::bindings::bound(*old(env)),
            old(session)@,
        ),
{
    if session.tasks.next() == u64::MAX {
        return fail("E-TASK-004: task admission failed");
    }
    let id = session.tasks.spawn(value);
    bind(env, handle, RuntimeValue::JoinHandle(id));
    Ok(ExecFlow::Next)
}

fn eval_let(value: &LetValue, env: &Bindings, run: &Run, session: &mut Session, budget: u64) -> (result: Result<
    RuntimeValue,
    Halt,
>)
    requires
        env.well_formed(),
        old(session).well_formed(),
    ensures
        final(session).well_formed(),
        crate::execute::session::stepped(result, *final(session)) == semantics::let_value(
            view::let_value(*value),
            crate::execute::bindings::bound(*env),
            run@,
            old(session)@,
            budget as nat,
        ),
    decreases budget, 1int, value, 0int,
{
    match value {
        LetValue::Call(call) => exec_call(call, env, run, session, budget),
        LetValue::Expr(expr) => eval_expr(expr, env, run, session, budget),
    }
}

/// Executes a statement.
#[verifier::rlimit(50)]
pub fn exec_statement(stmt: &Statement, run: &Run, env: &mut Bindings, session: &mut Session, budget: u64) -> (result: Result<
    ExecFlow,
    Halt,
>)
    requires
        old(env).well_formed(),
        old(session).well_formed(),
    ensures
        final(env).well_formed(),
        final(session).well_formed(),
        flowed(result, *final(env), *final(session)) == semantics::executed(
            view::statement(*stmt),
            crate::execute::bindings::bound(*old(env)),
            run@,
            old(session)@,
            budget as nat,
        ),
    decreases budget, 2int, stmt, 1int,
{
    match stmt {
        Statement::Return(expr) => match eval_expr(expr, env, run, session, budget) {
            Ok(value) => Ok(ExecFlow::Return(value)),
            Err(halt) => Err(halt),
        },
        Statement::Call(call) => match exec_call(call, env, run, session, budget) {
            Ok(_) => Ok(ExecFlow::Next),
            Err(halt) => Err(halt),
        },
        Statement::Let { var, value } => match eval_let(value, env, run, session, budget) {
            Ok(value) => {
                bind(env, var.as_str(), value);
                Ok(ExecFlow::Next)
            }
            Err(halt) => Err(halt),
        },
        Statement::Assign { var, value } => match eval_expr(value, env, run, session, budget) {
            Ok(value) => assign(var.as_str(), value, env, session),
            Err(halt) => Err(halt),
        },
        Statement::Match { target, arms } => match eval_expr(target, env, run, session, budget) {
            Ok(value) => exec_arms(arms, value, run, env, session, budget),
            Err(halt) => Err(halt),
        },
        Statement::Eval(expr) => match eval_expr(expr, env, run, session, budget) {
            Ok(_) => Ok(ExecFlow::Next),
            Err(halt) => Err(halt),
        },
        Statement::If { cond, then_body, else_body } => match eval_expr(cond, env, run, session, budget) {
            Ok(RuntimeValue::Bool(true)) => run_block(then_body, run, env, session, budget),
            Ok(RuntimeValue::Bool(false)) => run_block(else_body, run, env, session, budget),
            Ok(other) => Err(Halt::Failed(Failure::about("`$if` condition must be `$bool`, got ", &other))),
            Err(halt) => Err(halt),
        },
        Statement::While { cond, body } => run_while(cond, body, run, env, session, budget),
        Statement::For { var, source, body } => {
            let value = match eval_expr(source, env, run, session, budget) {
                Ok(value) => value,
                Err(halt) => return Err(halt),
            };
            match iteration_items(value, run.config.max_alloc_len) {
                Ok(items) => run_for(var.as_str(), &items, body, run, env, session, budget),
                Err(failure) => Err(Halt::Failed(failure)),
            }
        }
        Statement::Task { captures, body } => {
            let mut scope = match capture(captures, env) {
                Ok(scope) => scope,
                Err(failure) => return Err(Halt::Failed(failure)),
            };
            match run_block(body, run, &mut scope, session, budget) {
                Ok(ExecFlow::Next) => Ok(ExecFlow::Next),
                Ok(_) => fail("E-TASK-002: task control escaped its structured boundary"),
                Err(halt) => Err(halt),
            }
        }
        Statement::Spawn { handle, captures, value } => {
            let scope = match capture(captures, env) {
                Ok(scope) => scope,
                Err(failure) => return Err(Halt::Failed(failure)),
            };
            match eval_expr(value, &scope, run, session, budget) {
                Ok(value) => spawn_task(handle.as_str(), value, env, session),
                Err(halt) => Err(halt),
            }
        }
        Statement::Join { handle, var } => join_task(handle.as_str(), var.as_str(), env, session),
        Statement::Break => Ok(ExecFlow::Break),
        Statement::Continue => Ok(ExecFlow::Continue),
    }
}

/// Executes statements until one does not go on to the next.
pub fn run_block(stmts: &Vec<Statement>, run: &Run, env: &mut Bindings, session: &mut Session, budget: u64) -> (result: Result<
    ExecFlow,
    Halt,
>)
    requires
        old(env).well_formed(),
        old(session).well_formed(),
    ensures
        final(env).well_formed(),
        final(session).well_formed(),
        flowed(result, *final(env), *final(session)) == semantics::executed_block(
            view::statements(stmts@),
            0,
            crate::execute::bindings::bound(*old(env)),
            run@,
            old(session)@,
            budget as nat,
        ),
    decreases budget, 2int, stmts, 0int,
{
    let ghost all = view::statements(stmts@);
    let ghost outer = crate::execute::bindings::bound(*env);
    let ghost start = session@;
    let mut i: usize = 0;
    while i < stmts.len()
        invariant
            i <= stmts.len(),
            all == view::statements(stmts@),
            env.well_formed(),
            session.well_formed(),
            outer == crate::execute::bindings::bound(*old(env)),
            start == old(session)@,
            semantics::executed_block(all, 0, outer, run@, start, budget as nat) == semantics::executed_block(
                all,
                i as int,
                crate::execute::bindings::bound(*env),
                run@,
                session@,
                budget as nat,
            ),
        decreases stmts.len() - i,
    {
        assert(all[i as int] == view::statement(stmts@[i as int]));
        match exec_statement(&stmts[i], run, env, session, budget) {
            Ok(ExecFlow::Next) => {}
            Ok(flow) => return Ok(flow),
            Err(halt) => return Err(halt),
        }
        i += 1;
    }
    Ok(ExecFlow::Next)
}

fn unmatched(value: RuntimeValue) -> (failure: Failure)
    ensures
        failure@ == seq![
            PartView::Text("non-exhaustive $match reached runtime with value `"@),
            PartView::Value(view::value(value)),
            PartView::Text("`"@),
        ],
{
    let mut parts: Vec<Part> = Vec::new();
    parts.push(Part::Text(owned("non-exhaustive $match reached runtime with value `")));
    parts.push(Part::Value(value));
    parts.push(Part::Text(owned("`")));
    let failure = Failure { parts };
    assert(failure@ =~= seq![
        PartView::Text("non-exhaustive $match reached runtime with value `"@),
        PartView::Value(view::value(value)),
        PartView::Text("`"@),
    ]);
    failure
}

fn exec_arms(arms: &Vec<MatchArm>, value: RuntimeValue, run: &Run, env: &Bindings, session: &mut Session, budget: u64) -> (result: Result<
    ExecFlow,
    Halt,
>)
    requires
        env.well_formed(),
        old(session).well_formed(),
    ensures
        final(session).well_formed(),
        flowed(result, *env, *final(session)) == semantics::executed_arms(
            view::match_arms(arms@),
            0,
            view::value(value),
            crate::execute::bindings::bound(*env),
            run@,
            old(session)@,
            budget as nat,
        ),
    decreases budget, 2int, arms, 0int,
{
    let ghost all = view::match_arms(arms@);
    let ghost outer = crate::execute::bindings::bound(*env);
    let ghost held = view::value(value);
    let mut i: usize = 0;
    while i < arms.len()
        invariant
            i <= arms.len(),
            all == view::match_arms(arms@),
            outer == crate::execute::bindings::bound(*env),
            held == view::value(value),
            env.well_formed(),
            session.well_formed(),
            session@ == old(session)@,
            semantics::executed_arms(all, 0, held, outer, run@, session@, budget as nat) == semantics::executed_arms(
                all,
                i as int,
                held,
                outer,
                run@,
                session@,
                budget as nat,
            ),
        decreases arms.len() - i,
    {
        assert(all[i as int] == view::match_arm(arms@[i as int]));
        let mut scope = duplicate(env);
        if pattern_matches(&arms[i].pattern, &value, &run.program.impls, &session.cells, &mut scope) {
            return run_block(&arms[i].body, run, &mut scope, session, budget);
        }
        i += 1;
    }
    Err(Halt::Failed(unmatched(value)))
}

fn run_while(cond: &Expr, body: &Vec<Statement>, run: &Run, env: &mut Bindings, session: &mut Session, budget: u64) -> (result: Result<
    ExecFlow,
    Halt,
>)
    requires
        old(env).well_formed(),
        old(session).well_formed(),
    ensures
        final(env).well_formed(),
        final(session).well_formed(),
        flowed(result, *final(env), *final(session)) == semantics::looped(
            view::expr(*cond),
            view::statements(body@),
            crate::execute::bindings::bound(*old(env)),
            run@,
            old(session)@,
            budget as nat,
        ),
    decreases budget, 2int, body, 2int,
{
    let ghost test = view::expr(*cond);
    let ghost inner = view::statements(body@);
    let ghost outer = crate::execute::bindings::bound(*env);
    let ghost start = session@;
    let mut left: u64 = budget;
    loop
        invariant
            left <= budget,
            test == view::expr(*cond),
            inner == view::statements(body@),
            env.well_formed(),
            session.well_formed(),
            outer == crate::execute::bindings::bound(*old(env)),
            start == old(session)@,
            semantics::looped(test, inner, outer, run@, start, budget as nat) == semantics::looped(
                test,
                inner,
                crate::execute::bindings::bound(*env),
                run@,
                session@,
                left as nat,
            ),
        decreases left,
    {
        if left == 0 {
            return Err(Halt::Exhausted);
        }
        left = left - 1;
        match eval_expr(cond, env, run, session, left) {
            Ok(RuntimeValue::Bool(true)) => match run_block(body, run, env, session, left) {
                Ok(ExecFlow::Next) | Ok(ExecFlow::Continue) => {}
                Ok(ExecFlow::Break) => return Ok(ExecFlow::Next),
                Ok(ExecFlow::Return(value)) => return Ok(ExecFlow::Return(value)),
                Err(halt) => return Err(halt),
            },
            Ok(RuntimeValue::Bool(false)) => return Ok(ExecFlow::Next),
            Ok(other) => {
                return Err(Halt::Failed(Failure::about("`$while` condition must be `$bool`, got ", &other)));
            }
            Err(halt) => return Err(halt),
        }
    }
}

fn run_for(
    var: &str,
    items: &Vec<RuntimeValue>,
    body: &Vec<Statement>,
    run: &Run,
    env: &Bindings,
    session: &mut Session,
    budget: u64,
) -> (result: Result<ExecFlow, Halt>)
    requires
        env.well_formed(),
        old(session).well_formed(),
    ensures
        final(session).well_formed(),
        flowed(result, *env, *final(session)) == semantics::each_executed(
            var@,
            view::values(items@),
            0,
            view::statements(body@),
            crate::execute::bindings::bound(*env),
            run@,
            old(session)@,
            budget as nat,
        ),
    decreases budget, 2int, body, 1int,
{
    let ghost all = view::values(items@);
    let ghost inner = view::statements(body@);
    let ghost outer = crate::execute::bindings::bound(*env);
    let ghost start = session@;
    let mut i: usize = 0;
    while i < items.len()
        invariant
            i <= items.len(),
            all == view::values(items@),
            inner == view::statements(body@),
            outer == crate::execute::bindings::bound(*env),
            env.well_formed(),
            session.well_formed(),
            start == old(session)@,
            semantics::each_executed(var@, all, 0, inner, outer, run@, start, budget as nat)
                == semantics::each_executed(var@, all, i as int, inner, outer, run@, session@, budget as nat),
        decreases items.len() - i,
    {
        assert(all[i as int] == view::value(items@[i as int]));
        let mut scope = duplicate(env);
        bind(&mut scope, var, copy::value(&items[i]));
        match run_block(body, run, &mut scope, session, budget) {
            Ok(ExecFlow::Next) | Ok(ExecFlow::Continue) => {}
            Ok(ExecFlow::Break) => return Ok(ExecFlow::Next),
            Ok(ExecFlow::Return(value)) => return Ok(ExecFlow::Return(value)),
            Err(halt) => return Err(halt),
        }
        i += 1;
    }
    Ok(ExecFlow::Next)
}

// Whole programs.

/// Binds every root argument of a policy type to the requested policy narrowed
/// to what the run approves.
pub fn seed_main_args(program: &LoweredProgram, config: &RunConfig, env: &mut Bindings) -> (result: Result<(), Failure>)
    requires
        old(env).well_formed(),
    ensures
        final(env).well_formed(),
        crate::execute::bindings::bound(*final(env)) == semantics::seeding(
            view::typed_names(program.main_arg_bindings@),
            0,
            config@,
            crate::execute::bindings::bound(*old(env)),
        ),
        match result {
            Ok(_) => semantics::seeded(
                view::typed_names(program.main_arg_bindings@),
                0,
                config@,
                crate::execute::bindings::bound(*old(env)),
            ) == Ok::<Env, Seq<PartView>>(crate::execute::bindings::bound(*final(env))),
            Err(failure) => semantics::seeded(
                view::typed_names(program.main_arg_bindings@),
                0,
                config@,
                crate::execute::bindings::bound(*old(env)),
            ) == Err::<Env, Seq<PartView>>(failure@),
        },
{
    let bindings = &program.main_arg_bindings;
    let ghost all = view::typed_names(bindings@);
    let ghost start = crate::execute::bindings::bound(*env);
    let mut i: usize = 0;
    while i < bindings.len()
        invariant
            i <= bindings.len(),
            all == view::typed_names(bindings@),
            *bindings == program.main_arg_bindings,
            env.well_formed(),
            start == crate::execute::bindings::bound(*old(env)),
            semantics::seeding(all, 0, config@, start) == semantics::seeding(
                all,
                i as int,
                config@,
                crate::execute::bindings::bound(*env),
            ),
            semantics::seeded(all, 0, config@, start) == semantics::seeded(
                all,
                i as int,
                config@,
                crate::execute::bindings::bound(*env),
            ),
        decreases bindings.len() - i,
    {
        assert(all[i as int] == view::typed_name(bindings@[i as int]));
        match &bindings[i].ty {
            TypeRef::Policy(requested) => match intersect_requested_policy(
                requested,
                &config.approved,
                &config.working_dir,
            ) {
                Ok(policy) => bind(env, bindings[i].name.as_str(), RuntimeValue::Policy(PolicyValue { policy })),
                Err(domain) => {
                    let text = concat_three(
                        "mandatory policy coverage is missing: `",
                        domain_name(domain),
                        "` is not approved for this run (approve it with the matching `--allow-*` flag)",
                    );
                    return Err(Failure::text(text.as_str()));
                }
            },
            _ => {}
        }
        i += 1;
    }
    Ok(())
}

/// Runs a program on the replies that its host has given so far. `Ok` is a
/// program that ended; a waiting run is to be run again with one more reply.
pub fn run_lowered(program: &LoweredProgram, config: &RunConfig, replies: &Vec<HostReply>, budget: u64) -> (result: Result<
    Session,
    Halt,
>)
    ensures
        match result {
            Ok(session) => session.well_formed() && semantics::program_run(
                Run { program, config, replies }@,
                budget as nat,
            ) == Ok::<SessionView, HaltView>(session@),
            Err(halt) => semantics::program_run(Run { program, config, replies }@, budget as nat) == Err::<
                SessionView,
                HaltView,
            >(halt@),
        },
{
    let run = Run { program, config, replies };
    let mut env = unbound();
    match seed_main_args(program, config, &mut env) {
        Ok(_) => {}
        Err(failure) => return Err(Halt::Failed(failure)),
    }
    let mut session = Session::new(config);
    let ghost first = crate::execute::bindings::bound(env);
    let ghost start = session@;
    let ghost all = view::statements(program.statements@);
    let mut i: usize = 0;
    while i < program.statements.len()
        invariant
            i <= program.statements.len(),
            all == view::statements(program.statements@),
            run == (Run { program, config, replies }),
            run@.program.statements == all,
            env.well_formed(),
            session.well_formed(),
            semantics::program_run(run@, budget as nat) == semantics::ran(0, first, run@, start, budget as nat),
            semantics::ran(0, first, run@, start, budget as nat) == semantics::ran(
                i as int,
                crate::execute::bindings::bound(env),
                run@,
                session@,
                budget as nat,
            ),
        decreases program.statements.len() - i,
    {
        assert(all[i as int] == view::statement(program.statements@[i as int]));
        match exec_statement(&program.statements[i], &run, &mut env, &mut session, budget) {
            Ok(ExecFlow::Next) => {}
            Ok(_) => return fail("unexpected `$return` at top level"),
            Err(halt) => return Err(halt),
        }
        i += 1;
    }
    Ok(session)
}

/// Evaluates an expression in the program that it belongs to. The session
/// behind it holds the places that the value may lead to.
pub fn eval_lowered_exec(exec: &LoweredExec, bindings: &Bindings, config: &RunConfig, replies: &Vec<HostReply>, budget: u64) -> (result: Result<
    (RuntimeValue, Session),
    Halt,
>)
    requires
        bindings.well_formed(),
    ensures
        match result {
            Ok((value, session)) => session.well_formed() && semantics::evaluated(
                view::expr(exec.expr),
                crate::execute::bindings::bound(*bindings),
                Run { program: &exec.program, config, replies }@,
                SessionView::initial(config@),
                budget as nat,
            ) == Ok::<(ValueView, SessionView), HaltView>((view::value(value), session@)),
            Err(halt) => semantics::evaluated(
                view::expr(exec.expr),
                crate::execute::bindings::bound(*bindings),
                Run { program: &exec.program, config, replies }@,
                SessionView::initial(config@),
                budget as nat,
            ) == Err::<(ValueView, SessionView), HaltView>(halt@),
        },
{
    let run = Run { program: &exec.program, config, replies };
    let mut session = Session::new(config);
    match eval_expr(&exec.expr, bindings, &run, &mut session, budget) {
        Ok(value) => Ok((value, session)),
        Err(halt) => Err(halt),
    }
}

} // verus!
