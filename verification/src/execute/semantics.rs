//! What running a program means.
//!
//! A run is a function of the program, the configuration and the host's replies
//! so far. Its budget bounds the depth of calls and the rounds of loops.
use vstd::prelude::*;
use crate::execute::failure::PartView;
use crate::execute::pattern::MatchContext;
use crate::execute::session::{ConfigView, HaltView, Outcome, RunView, SessionView};
use crate::lowered::ir::{CapabilityDomain, ParamKind};
use crate::lowered::view::{
    CallView, ExprView, FieldExprView, FieldValueView, FunctionBodyView, FunctionEntryView, FunctionSigView,
    HostImportNameView,
    HostImportView, LetValueView, MatchArmView, PolicyValueView, StatementView, TypeView, TypedNameView, ValueView,
    WasmArgSpecView,
};

verus! {

/// The variables in scope.
pub type Env = Map<Seq<char>, ValueView>;

/// How control goes on behind a statement.
pub enum FlowView {
    Next,
    Return(ValueView),
    Break,
    Continue,
}

/// How control goes on, with the variables and the session behind it.
pub type Flowed = Result<(FlowView, Env, SessionView), HaltView>;

pub open spec fn failed(text: Seq<char>) -> HaltView {
    HaltView::Failed(crate::execute::failure::text_failure(text))
}

// Traversal.

/// The integers from `current` up or down to `end`.
pub open spec fn range_from(current: i64, end: i64, step: i64, limit: usize, done: Seq<ValueView>) -> Result<
    Seq<ValueView>,
    Seq<PartView>,
>
    decreases limit - done.len() + 1,
{
    if !((step > 0 && current < end) || (step < 0 && current > end)) {
        Ok(done)
    } else if done.len() >= limit {
        Err(too_long(limit))
    } else if i64::MIN <= current + step <= i64::MAX {
        range_from((current + step) as i64, end, step, limit, done.push(ValueView::Int(current)))
    } else {
        Err(crate::execute::failure::text_failure("E-ITER-004: integer range overflow"@))
    }
}

pub open spec fn too_long(limit: usize) -> Seq<PartView> {
    crate::execute::failure::text_failure(
        "E-ITER-003: traversal exceeds configured limit `"@ + crate::text::decimal(limit as nat) + "`"@,
    )
}

/// What a value is traversed as, before the limit.
pub open spec fn items_of(value: ValueView, limit: usize) -> Result<Seq<ValueView>, Seq<PartView>> {
    match value {
        ValueView::Array(items) => Ok(items),
        ValueView::Mapping(pairs) => Ok(
            Seq::new(pairs.len(), |i: int| ValueView::Tuple(seq![pairs[i].0, pairs[i].1])),
        ),
        ValueView::Str(text) => Ok(Seq::new(text.len(), |i: int| ValueView::Str(seq![text[i]]))),
        ValueView::Range { start, end, step } => if step == 0 {
            Err(crate::execute::failure::text_failure("E-ITER-002: `$range.step` must not be zero"@))
        } else {
            range_from(start, end, step, limit, Seq::empty())
        },
        other => Err(crate::execute::failure::value_failure("E-ITER-001: value is not traversable: "@, other)),
    }
}

/// The items that a loop over a value goes through.
pub open spec fn traversed(value: ValueView, limit: usize) -> Result<Seq<ValueView>, Seq<PartView>> {
    match items_of(value, limit) {
        Err(failure) => Err(failure),
        Ok(items) => if items.len() > limit {
            Err(too_long(limit))
        } else {
            Ok(items)
        },
    }
}

// Lookups.

pub open spec fn function_from(functions: Seq<FunctionEntryView>, from: int, key: Seq<char>) -> Option<FunctionSigView>
    decreases functions.len() - from,
{
    if from < 0 || from >= functions.len() {
        None
    } else if functions[from].key == key {
        Some(functions[from].signature)
    } else {
        function_from(functions, from + 1, key)
    }
}

pub open spec fn import_from(
    imports: Seq<HostImportView>,
    from: int,
    name: HostImportNameView,
) -> Option<HostImportView>
    decreases imports.len() - from,
{
    if from < 0 || from >= imports.len() {
        None
    } else if imports[from].module == name.module && imports[from].name == name.name {
        Some(imports[from])
    } else {
        import_from(imports, from + 1, name)
    }
}

pub open spec fn name_place(names: Seq<Seq<char>>, from: int, name: Seq<char>) -> int
    decreases names.len() - from,
{
    if from < 0 || from >= names.len() {
        names.len() as int
    } else if names[from] == name {
        from
    } else {
        name_place(names, from + 1, name)
    }
}

// Places.

/// A value put in a new place.
pub open spec fn placed(value: ValueView, session: SessionView) -> (u64, SessionView) {
    (session.cells.len() as u64, SessionView { cells: session.cells.push(value), ..session })
}

/// The place that a value stands for, or a new one that holds it.
pub open spec fn place_of(value: ValueView, session: SessionView) -> (u64, SessionView) {
    match value {
        ValueView::Mutable(cell) => (cell, session),
        ValueView::Reference { cell, .. } => (cell, session),
        _ => placed(value, session),
    }
}

/// The place that a variable lends for writing.
pub open spec fn writable_place(value: ValueView) -> Option<u64> {
    match value {
        ValueView::Mutable(cell) => Some(cell),
        ValueView::Reference { cell, mutable } => if mutable {
            Some(cell)
        } else {
            None
        },
        _ => None,
    }
}

pub open spec fn variable(name: Seq<char>, env: Env, session: SessionView) -> Outcome {
    if !env.dom().contains(name) {
        Err(failed("unknown variable `$"@ + name + "`"@))
    } else {
        match crate::execute::values::read_place(env[name], session.cells, session.cells.len()) {
            Some(value) => Ok((value, session)),
            None => Err(failed("a place leads back to itself"@)),
        }
    }
}

// Maps.

/// The place of the first pair whose key equals the new key, or the length.
pub open spec fn equal_key(
    pairs: Seq<(ValueView, ValueView)>,
    from: int,
    key: ValueView,
    cells: Seq<ValueView>,
) -> int
    decreases pairs.len() - from,
{
    if from < 0 || from >= pairs.len() {
        pairs.len() as int
    } else if crate::execute::values::matches_value(pairs[from].0, key, cells) {
        from
    } else {
        equal_key(pairs, from + 1, key, cells)
    }
}

/// The first key fixes the order, the last value wins.
pub open spec fn with_pair(
    pairs: Seq<(ValueView, ValueView)>,
    key: ValueView,
    value: ValueView,
    cells: Seq<ValueView>,
) -> Seq<(ValueView, ValueView)> {
    let place = equal_key(pairs, 0, key, cells);
    if 0 <= place < pairs.len() {
        pairs.update(place, (pairs[place].0, value))
    } else {
        pairs.push((key, value))
    }
}

// Policies.

pub open spec fn narrowed(value: ValueView, target: TypeView, run: RunView, session: SessionView) -> Outcome {
    match value {
        ValueView::Policy(source) => match target {
            TypeView::Capability(requested) => match crate::execute::policy::narrowed_capability(
                requested,
                source.policy,
                run.config.working_dir,
            ) {
                Ok(capability) => Ok((ValueView::Capability(capability), session)),
                Err(failure) => Err(HaltView::Failed(failure)),
            },
            TypeView::Policy(requested) => match crate::execute::policy::narrowed_value(
                requested,
                source.policy,
                run.config.working_dir,
            ) {
                Ok(policy) => Ok((ValueView::Policy(policy), session)),
                Err(failure) => Err(HaltView::Failed(failure)),
            },
            _ => Err(failed("`$policy.narrow.into` must be a capability type"@)),
        },
        _ => Err(failed("`$policy.narrow` expects a policy value"@)),
    }
}

// Host calls.

/// The operations of the test module.
pub open spec fn vibra_test(name: Seq<char>, args: Seq<ValueView>, session: SessionView) -> Outcome {
    if name == "assert"@ {
        if args.len() < 1 {
            Err(HaltView::Failed(crate::execute::lists::too_few(name)))
        } else {
            match crate::execute::values::as_bool(args[0]) {
                Err(failure) => Err(HaltView::Failed(failure)),
                Ok(holds) => if holds {
                    Ok((ValueView::Void, session))
                } else {
                    Err(failed("assertion failed"@))
                },
            }
        }
    } else if name == "fail"@ {
        if args.len() < 1 {
            Err(HaltView::Failed(crate::execute::lists::too_few(name)))
        } else {
            match crate::execute::values::as_text(args[0]) {
                Err(failure) => Err(HaltView::Failed(failure)),
                Ok(text) => Err(failed(text)),
            }
        }
    } else if name == "assert-eq-bool"@ || name == "assert-eq-int"@ || name == "assert-eq-float"@ || name
        == "assert-eq-str"@ {
        if args.len() < 2 {
            Err(HaltView::Failed(crate::execute::lists::too_few(name)))
        } else if crate::execute::values::equal(args[0], args[1], session.cells, session.cells.len()) {
            Ok((ValueView::Void, session))
        } else {
            Err(HaltView::Failed(crate::execute::failure::mismatch_failure(args[1], args[0])))
        }
    } else {
        Err(failed("unsupported vibra_test import `"@ + name + "`"@))
    }
}

/// The operations of the standard module.
#[verifier::opaque]
pub open spec fn vibra_v1(
    name: Seq<char>,
    ty: TypeView,
    args: Seq<ValueView>,
    run: RunView,
    session: SessionView,
) -> Outcome {
    let limit = run.config.max_alloc_len;
    match crate::execute::ops_collections::collections(name, ty, args, limit, session.cells) {
        Some(result) => crate::execute::primitive::settled(result, session),
        None => match crate::execute::ops_text::texts(name, ty, args, limit, session.cells) {
            Some(result) => crate::execute::primitive::settled(result, session),
            None => match crate::execute::ops_bytes::bytes(name, ty, args, limit, session.cells) {
                Some(result) => crate::execute::primitive::settled(result, session),
                None => match crate::execute::ops_streams::streams(name, ty, args, run, session) {
                    Some(outcome) => outcome,
                    None => match crate::execute::ops_files::file_system(name, ty, args, run, session) {
                        Some(outcome) => outcome,
                        None => match crate::execute::ops_environment::environment(name, ty, args, run, session) {
                            Some(outcome) => outcome,
                            None => match crate::execute::ops_network::network(name, ty, args, run, session) {
                                Some(outcome) => outcome,
                                None => match crate::execute::ops_process::processes(name, ty, args, run, session) {
                                    Some(outcome) => outcome,
                                    None => match crate::execute::ops_system::system(name, ty, args, run, session) {
                                        Some(outcome) => outcome,
                                        None => Err(failed("unsupported vibra_v1 import `"@ + name + "`"@)),
                                    },
                                },
                            },
                        },
                    },
                },
            },
        },
    }
}

/// Every capability position from `from` on holds a narrowed capability, or the
/// first one that does not.
pub open spec fn capability_check(
    params: Seq<ParamKind>,
    from: int,
    args: Seq<ValueView>,
    import: HostImportNameView,
) -> Result<(), Seq<PartView>>
    decreases params.len() - from,
{
    if from < 0 || from >= params.len() || from >= args.len() {
        Ok(())
    } else {
        match params[from] {
            ParamKind::Plain => capability_check(params, from + 1, args, import),
            ParamKind::Capability(_) => match crate::execute::values::as_policy(args[from]) {
                Ok(_) => capability_check(params, from + 1, args, import),
                Err(failure) => Err(
                    seq![
                        crate::execute::failure::PartView::Text(
                            "host import `"@ + import.module + "."@ + import.name
                                + "` requires a `$policy` capability in position "@ + crate::text::decimal(
                                from as nat,
                            ) + ": "@,
                        ),
                    ] + failure,
                ),
            },
        }
    }
}

/// A host import is called with its arguments evaluated.
pub open spec fn host_called(
    import: HostImportNameView,
    entry: HostImportView,
    ty: TypeView,
    args: Seq<ValueView>,
    run: RunView,
    session: SessionView,
) -> Outcome {
    match capability_check(entry.params, 0, args, import) {
        Err(failure) => Err(HaltView::Failed(failure)),
        Ok(_) => if import.module == "vibra_v1"@ {
            vibra_v1(import.name, ty, args, run, session)
        } else if import.module == "vibra_test"@ {
            vibra_test(import.name, args, session)
        } else {
            Err(failed("unsupported host module `"@ + import.module + "`"@))
        },
    }
}

/// The host import that a wrapper targets, when it takes `count` arguments.
pub open spec fn targeted(symbol: Seq<char>, import: HostImportNameView, count: nat, run: RunView) -> Result<
    HostImportView,
    Seq<PartView>,
> {
    match import_from(run.program.imports, 0, import) {
        None => Err(
            crate::execute::failure::text_failure(
                "E-WASM-002: `"@ + symbol + "` targets unknown host import `"@ + import.module + "."@ + import.name
                    + "`"@,
            ),
        ),
        Some(entry) => if count != entry.params.len() {
            Err(
                crate::execute::failure::text_failure(
                    "E-WASM-003: `"@ + symbol + "` passes "@ + crate::text::decimal(count)
                        + " args to host import `"@ + import.module + "."@ + import.name + "` which takes "@
                        + crate::text::decimal(entry.params.len()),
                ),
            )
        } else {
            Ok(entry)
        },
    }
}

// Expressions.

pub open spec fn missing_argument(symbol: Seq<char>, name: Seq<char>) -> HaltView {
    failed("call of `"@ + symbol + "` passes no argument `"@ + name + "`"@)
}

/// The value of an expression.
pub open spec fn evaluated(expr: ExprView, env: Env, run: RunView, session: SessionView, budget: nat) -> Outcome
    decreases budget, 0int, expr, 0int, 0int,
{
    match expr {
        ExprView::Value(value) => Ok((value, session)),
        ExprView::VarRef(name) => variable(name, env, session),
        ExprView::Mutable(inner) => match lent(*inner, env) {
            Some(cell) => Ok((ValueView::Mutable(cell), session)),
            None => match evaluated(*inner, env, run, session, budget) {
                Err(halt) => Err(halt),
                Ok((value, session)) => {
                    let (cell, session) = placed(value, session);
                    Ok((ValueView::Mutable(cell), session))
                },
            },
        },
        ExprView::Reference { target, mutable } => match *target {
            ExprView::VarRef(name) => if env.dom().contains(name) {
                let (cell, session) = place_of(env[name], session);
                Ok((ValueView::Reference { cell, mutable }, session))
            } else {
                Err(failed("unknown reference target `$"@ + name + "`"@))
            },
            _ => match evaluated(*target, env, run, session, budget) {
                Err(halt) => Err(halt),
                Ok((value, session)) => {
                    let (cell, session) = place_of(value, session);
                    Ok((ValueView::Reference { cell, mutable }, session))
                },
            },
        },
        ExprView::Call { call, .. } => called(call, env, run, session, budget),
        ExprView::HostCall { import, args, return_type, .. } => match evaluated_all(
            args,
            0,
            Seq::empty(),
            env,
            run,
            session,
            budget,
        ) {
            Err(halt) => Err(halt),
            Ok((values, session)) => match targeted(import.name, import, values.len(), run) {
                Err(failure) => Err(HaltView::Failed(failure)),
                Ok(entry) => host_called(import, entry, return_type, values, run, session),
            },
        },
        ExprView::Primitive { op, args, operand_type, return_type } => match evaluated_all(
            args,
            0,
            Seq::empty(),
            env,
            run,
            session,
            budget,
        ) {
            Err(halt) => Err(halt),
            Ok((values, session)) => crate::execute::primitive::primitive(
                op,
                operand_type,
                return_type,
                values,
                run,
                session,
            ),
        },
        ExprView::Cast { from, target } => match evaluated(*from, env, run, session, budget) {
            Err(halt) => Err(halt),
            Ok((value, session)) => Ok((ValueView::Typed { type_ref: target, value: Box::new(value) }, session)),
        },
        ExprView::PolicyNarrow { from, target } => match evaluated(*from, env, run, session, budget) {
            Err(halt) => Err(halt),
            Ok((value, session)) => narrowed(value, target, run, session),
        },
        ExprView::EnumConstructor { enum_key, tag, payload } => match payload {
            None => Ok((ValueView::Enum { enum_key, tag, payload: None }, session)),
            Some(part) => match evaluated(*part, env, run, session, budget) {
                Err(halt) => Err(halt),
                Ok((value, session)) => Ok(
                    (ValueView::Enum { enum_key, tag, payload: Some(Box::new(value)) }, session),
                ),
            },
        },
        ExprView::Record(fields) => match evaluated_fields(
            fields,
            crate::lowered::field_order::name_order(fields, fields.len() as int),
            0,
            Seq::empty(),
            env,
            run,
            session,
            budget,
        ) {
            Err(halt) => Err(halt),
            Ok((fields, session)) => Ok((ValueView::Record(fields), session)),
        },
        ExprView::Tuple(items) => match evaluated_all(items, 0, Seq::empty(), env, run, session, budget) {
            Err(halt) => Err(halt),
            Ok((values, session)) => Ok((ValueView::Tuple(values), session)),
        },
        ExprView::Array(items) => match evaluated_all(items, 0, Seq::empty(), env, run, session, budget) {
            Err(halt) => Err(halt),
            Ok((values, session)) => Ok((ValueView::Array(values), session)),
        },
        ExprView::Mapping(items) => match evaluated_pairs(items, 0, Seq::empty(), env, run, session, budget) {
            Err(halt) => Err(halt),
            Ok((pairs, session)) => Ok((ValueView::Mapping(pairs), session)),
        },
        ExprView::Range { start, end, step } => match evaluated_int(*start, env, run, session, budget) {
            Err(halt) => Err(halt),
            Ok((start, session)) => match evaluated_int(*end, env, run, session, budget) {
                Err(halt) => Err(halt),
                Ok((end, session)) => match evaluated_int(*step, env, run, session, budget) {
                    Err(halt) => Err(halt),
                    Ok((step, session)) => if step == 0 {
                        Err(failed("E-ITER-002: `$range.step` must not be zero"@))
                    } else {
                        Ok((ValueView::Range { start, end, step }, session))
                    },
                },
            },
        },
        ExprView::If { cond, then_e, else_e } => match evaluated(*cond, env, run, session, budget) {
            Err(halt) => Err(halt),
            Ok((value, session)) => match value {
                ValueView::Bool(true) => evaluated(*then_e, env, run, session, budget),
                ValueView::Bool(false) => evaluated(*else_e, env, run, session, budget),
                other => Err(
                    HaltView::Failed(
                        crate::execute::failure::value_failure("`$if` condition must be `$bool`, got "@, other),
                    ),
                ),
            },
        },
    }
}

/// The place that a variable lends to a new mutable binding.
pub open spec fn lent(inner: ExprView, env: Env) -> Option<u64> {
    match inner {
        ExprView::VarRef(name) => if env.dom().contains(name) {
            writable_place(env[name])
        } else {
            None
        },
        _ => None,
    }
}

pub open spec fn evaluated_int(expr: ExprView, env: Env, run: RunView, session: SessionView, budget: nat) -> Result<
    (i64, SessionView),
    HaltView,
>
    decreases budget, 0int, expr, 1int, 0int,
{
    match evaluated(expr, env, run, session, budget) {
        Err(halt) => Err(halt),
        Ok((value, session)) => match crate::execute::values::as_int(value) {
            Err(failure) => Err(HaltView::Failed(failure)),
            Ok(number) => Ok((number, session)),
        },
    }
}

/// The values of `exprs[from..]` behind `done`, left to right.
pub open spec fn evaluated_all(
    exprs: Seq<ExprView>,
    from: int,
    done: Seq<ValueView>,
    env: Env,
    run: RunView,
    session: SessionView,
    budget: nat,
) -> Result<(Seq<ValueView>, SessionView), HaltView>
    decreases budget, 0int, exprs, 0int, exprs.len() - from,
{
    if from < 0 || from >= exprs.len() {
        Ok((done, session))
    } else {
        match evaluated(exprs[from], env, run, session, budget) {
            Err(halt) => Err(halt),
            Ok((value, session)) => evaluated_all(exprs, from + 1, done.push(value), env, run, session, budget),
        }
    }
}

/// The fields at the positions of `order` from a place on, put into `done`.
pub open spec fn evaluated_fields(
    fields: Seq<FieldExprView>,
    order: Seq<int>,
    from: int,
    done: Seq<FieldValueView>,
    env: Env,
    run: RunView,
    session: SessionView,
    budget: nat,
) -> Result<(Seq<FieldValueView>, SessionView), HaltView>
    decreases budget, 0int, fields, 0int, order.len() - from,
{
    if from < 0 || from >= order.len() || order[from] < 0 || order[from] >= fields.len() {
        Ok((done, session))
    } else {
        match evaluated(fields[order[from]].value, env, run, session, budget) {
            Err(halt) => Err(halt),
            Ok((value, session)) => evaluated_fields(
                fields,
                order,
                from + 1,
                crate::execute::records::with_named(done, 0, FieldValueView { name: fields[order[from]].name, value }),
                env,
                run,
                session,
                budget,
            ),
        }
    }
}

pub open spec fn evaluated_pairs(
    items: Seq<(ExprView, ExprView)>,
    from: int,
    done: Seq<(ValueView, ValueView)>,
    env: Env,
    run: RunView,
    session: SessionView,
    budget: nat,
) -> Result<(Seq<(ValueView, ValueView)>, SessionView), HaltView>
    decreases budget, 0int, items, 0int, items.len() - from,
{
    if from < 0 || from >= items.len() {
        Ok((done, session))
    } else {
        match evaluated(items[from].0, env, run, session, budget) {
            Err(halt) => Err(halt),
            Ok((key, session)) => match evaluated(items[from].1, env, run, session, budget) {
                Err(halt) => Err(halt),
                Ok((value, session)) => evaluated_pairs(
                    items,
                    from + 1,
                    with_pair(done, key, value, session.cells),
                    env,
                    run,
                    session,
                    budget,
                ),
            },
        }
    }
}

// Calls.

/// The variables of a called function: its arguments, by name.
pub open spec fn bound_args(
    symbol: Seq<char>,
    names: Seq<Seq<char>>,
    next: int,
    args: Seq<ExprView>,
    env: Env,
    scope: Env,
    run: RunView,
    session: SessionView,
    budget: nat,
) -> Result<(Env, SessionView), HaltView>
    decreases budget, 0int, args, 0int, names.len() - next,
{
    if next < 0 || next >= names.len() {
        Ok((scope, session))
    } else if next >= args.len() {
        Err(missing_argument(symbol, names[next]))
    } else {
        match evaluated(args[next], env, run, session, budget) {
            Err(halt) => Err(halt),
            Ok((value, session)) => bound_args(
                symbol,
                names,
                next + 1,
                args,
                env,
                scope.insert("args."@ + names[next], value),
                run,
                session,
                budget,
            ),
        }
    }
}

/// The arguments that a wrapper forwards to its host import.
pub open spec fn forwarded(
    signature: FunctionSigView,
    specs: Seq<WasmArgSpecView>,
    next: int,
    args: Seq<ExprView>,
    done: Seq<ValueView>,
    env: Env,
    run: RunView,
    session: SessionView,
    budget: nat,
) -> Result<(Seq<ValueView>, SessionView), HaltView>
    decreases budget, 0int, args, 0int, specs.len() - next,
{
    if next < 0 || next >= specs.len() {
        Ok((done, session))
    } else {
        match specs[next] {
            WasmArgSpecView::ConstInt(value) => forwarded(
                signature,
                specs,
                next + 1,
                args,
                done.push(ValueView::Int(value)),
                env,
                run,
                session,
                budget,
            ),
            WasmArgSpecView::ConstStr(value) => forwarded(
                signature,
                specs,
                next + 1,
                args,
                done.push(ValueView::Str(value)),
                env,
                run,
                session,
                budget,
            ),
            WasmArgSpecView::Arg(name) => {
                let place = name_place(signature.arg_names, 0, name);
                if place < 0 || place >= signature.arg_names.len() {
                    Err(failed("`"@ + signature.symbol + "` forwards unknown argument `$args."@ + name + "`"@))
                } else if place >= args.len() {
                    Err(missing_argument(signature.symbol, name))
                } else {
                    match evaluated(args[place], env, run, session, budget) {
                        Err(halt) => Err(halt),
                        Ok((value, session)) => forwarded(
                            signature,
                            specs,
                            next + 1,
                            args,
                            done.push(value),
                            env,
                            run,
                            session,
                            budget,
                        ),
                    }
                }
            },
        }
    }
}

/// What a function gives back when its body ends with a flow.
pub open spec fn returned(signature: FunctionSigView, flow: FlowView, session: SessionView) -> Outcome {
    match flow {
        FlowView::Return(value) => Ok((value, session)),
        FlowView::Next => if signature.return_type is Void {
            Ok((ValueView::Void, session))
        } else {
            Err(
                failed(
                    "function `"@ + signature.symbol + "` finished without a value (expected non-void return)"@,
                ),
            )
        },
        _ => Err(failed("loop control escaped its loop"@)),
    }
}

/// A function is called.
pub open spec fn called(call: CallView, env: Env, run: RunView, session: SessionView, budget: nat) -> Outcome
    decreases budget, 0int, call, 0int, 0int,
{
    match function_from(run.program.functions, 0, call.callee_key) {
        None => Err(failed("missing function `"@ + call.callee_key + "`"@)),
        Some(signature) => match signature.body {
            FunctionBodyView::User { statements } => match bound_args(
                signature.symbol,
                signature.arg_names,
                0,
                call.args,
                env,
                Map::empty(),
                run,
                session,
                budget,
            ) {
                Err(halt) => Err(halt),
                Ok((scope, session)) => if budget == 0 {
                    Err(HaltView::Exhausted)
                } else {
                    match executed_block(statements, 0, scope, run, session, (budget - 1) as nat) {
                        Err(halt) => Err(halt),
                        Ok((flow, _, session)) => returned(signature, flow, session),
                    }
                },
            },
            FunctionBodyView::Wasm { import, wasm_args } => match targeted(
                signature.symbol,
                import,
                wasm_args.len(),
                run,
            ) {
                Err(failure) => Err(HaltView::Failed(failure)),
                Ok(entry) => match forwarded(
                    signature,
                    wasm_args,
                    0,
                    call.args,
                    Seq::empty(),
                    env,
                    run,
                    session,
                    budget,
                ) {
                    Err(halt) => Err(halt),
                    Ok((values, session)) => host_called(
                        import,
                        entry,
                        signature.return_type,
                        values,
                        run,
                        session,
                    ),
                },
            },
        },
    }
}

// Statements.

/// The captured variables alone.
pub open spec fn captured(names: Seq<Seq<char>>, next: int, env: Env, scope: Env) -> Result<Env, Seq<PartView>>
    decreases names.len() - next,
{
    if next < 0 || next >= names.len() {
        Ok(scope)
    } else if !env.dom().contains(names[next]) {
        Err(
            crate::execute::failure::text_failure(
                "E-TASK-001: missing captured value `"@ + names[next] + "`"@,
            ),
        )
    } else {
        captured(names, next + 1, env, scope.insert(names[next], env[names[next]]))
    }
}

pub open spec fn assigned(var: Seq<char>, value: ValueView, env: Env, session: SessionView) -> Flowed {
    if !env.dom().contains(var) {
        Err(failed("E-SET-002: unknown `$set` target `"@ + var + "`"@))
    } else {
        match writable_place(env[var]) {
            Some(cell) => if cell < session.cells.len() {
                Ok((FlowView::Next, env, SessionView { cells: session.cells.update(cell as int, value), ..session }))
            } else {
                Err(failed("a place leads back to itself"@))
            },
            None => Err(failed("E-SET-002: symbol `"@ + var + "` is not writable"@)),
        }
    }
}

pub open spec fn joined(handle: Seq<char>, var: Seq<char>, env: Env, session: SessionView) -> Flowed {
    if !env.dom().contains(handle) {
        Err(failed("E-TASK-003: task handle `"@ + handle + "` is unknown or already joined"@))
    } else {
        match env[handle] {
            ValueView::JoinHandle(id) => match session.tasks.joined(id) {
                Err(failure) => Err(HaltView::Failed(failure)),
                Ok((value, tasks)) => Ok(
                    (FlowView::Next, env.remove(handle).insert(var, value), SessionView { tasks, ..session }),
                ),
            },
            _ => Err(failed("E-TASK-003: symbol `"@ + handle + "` is not a task join handle"@)),
        }
    }
}

pub open spec fn spawned(handle: Seq<char>, value: ValueView, env: Env, session: SessionView) -> Flowed {
    if session.tasks.next == u64::MAX {
        Err(failed("E-TASK-004: task admission failed"@))
    } else {
        Ok(
            (
                FlowView::Next,
                env.insert(handle, ValueView::JoinHandle(session.tasks.next)),
                SessionView { tasks: session.tasks.spawned(value), ..session },
            ),
        )
    }
}

/// A statement is executed.
pub open spec fn executed(stmt: StatementView, env: Env, run: RunView, session: SessionView, budget: nat) -> Flowed
    decreases budget, 2int, stmt, 1int, 0int,
{
    match stmt {
        StatementView::Return(expr) => match evaluated(expr, env, run, session, budget) {
            Err(halt) => Err(halt),
            Ok((value, session)) => Ok((FlowView::Return(value), env, session)),
        },
        StatementView::Call(call) => match called(call, env, run, session, budget) {
            Err(halt) => Err(halt),
            Ok((_, session)) => Ok((FlowView::Next, env, session)),
        },
        StatementView::Let { var, value } => match let_value(value, env, run, session, budget) {
            Err(halt) => Err(halt),
            Ok((value, session)) => Ok((FlowView::Next, env.insert(var, value), session)),
        },
        StatementView::Assign { var, value } => match evaluated(value, env, run, session, budget) {
            Err(halt) => Err(halt),
            Ok((value, session)) => assigned(var, value, env, session),
        },
        StatementView::Match { target, arms } => match evaluated(target, env, run, session, budget) {
            Err(halt) => Err(halt),
            Ok((value, session)) => executed_arms(arms, 0, value, env, run, session, budget),
        },
        StatementView::Eval(expr) => match evaluated(expr, env, run, session, budget) {
            Err(halt) => Err(halt),
            Ok((_, session)) => Ok((FlowView::Next, env, session)),
        },
        StatementView::If { cond, then_body, else_body } => match evaluated(cond, env, run, session, budget) {
            Err(halt) => Err(halt),
            Ok((value, session)) => match value {
                ValueView::Bool(true) => executed_block(then_body, 0, env, run, session, budget),
                ValueView::Bool(false) => executed_block(else_body, 0, env, run, session, budget),
                other => Err(
                    HaltView::Failed(
                        crate::execute::failure::value_failure("`$if` condition must be `$bool`, got "@, other),
                    ),
                ),
            },
        },
        StatementView::While { cond, body } => looped(cond, body, env, run, session, budget),
        StatementView::For { var, source, body } => match evaluated(source, env, run, session, budget) {
            Err(halt) => Err(halt),
            Ok((value, session)) => match traversed(value, run.config.max_alloc_len) {
                Err(failure) => Err(HaltView::Failed(failure)),
                Ok(items) => each_executed(var, items, 0, body, env, run, session, budget),
            },
        },
        StatementView::Task { captures, body } => match captured(captures, 0, env, Map::empty()) {
            Err(failure) => Err(HaltView::Failed(failure)),
            Ok(scope) => match executed_block(body, 0, scope, run, session, budget) {
                Err(halt) => Err(halt),
                Ok((flow, _, session)) => if flow is Next {
                    Ok((FlowView::Next, env, session))
                } else {
                    Err(failed("E-TASK-002: task control escaped its structured boundary"@))
                },
            },
        },
        StatementView::Spawn { handle, captures, value } => match captured(captures, 0, env, Map::empty()) {
            Err(failure) => Err(HaltView::Failed(failure)),
            Ok(scope) => match evaluated(value, scope, run, session, budget) {
                Err(halt) => Err(halt),
                Ok((value, session)) => spawned(handle, value, env, session),
            },
        },
        StatementView::Join { handle, var } => joined(handle, var, env, session),
        StatementView::Break => Ok((FlowView::Break, env, session)),
        StatementView::Continue => Ok((FlowView::Continue, env, session)),
    }
}

pub open spec fn let_value(value: LetValueView, env: Env, run: RunView, session: SessionView, budget: nat) -> Outcome
    decreases budget, 1int, value, 1int, 0int,
{
    match value {
        LetValueView::Call(call) => called(call, env, run, session, budget),
        LetValueView::Expr(expr) => evaluated(expr, env, run, session, budget),
    }
}

/// Statements are executed until one does not go on to the next.
pub open spec fn executed_block(
    stmts: Seq<StatementView>,
    from: int,
    env: Env,
    run: RunView,
    session: SessionView,
    budget: nat,
) -> Flowed
    decreases budget, 2int, stmts, 0int, stmts.len() - from,
{
    if from < 0 || from >= stmts.len() {
        Ok((FlowView::Next, env, session))
    } else {
        match executed(stmts[from], env, run, session, budget) {
            Err(halt) => Err(halt),
            Ok((flow, env, session)) => if flow is Next {
                executed_block(stmts, from + 1, env, run, session, budget)
            } else {
                Ok((flow, env, session))
            },
        }
    }
}

/// The first arm whose pattern matches is executed in a scope of its own.
pub open spec fn executed_arms(
    arms: Seq<MatchArmView>,
    from: int,
    value: ValueView,
    env: Env,
    run: RunView,
    session: SessionView,
    budget: nat,
) -> Flowed
    decreases budget, 2int, arms, 0int, arms.len() - from,
{
    if from < 0 || from >= arms.len() {
        Err(
            HaltView::Failed(
                seq![
                    crate::execute::failure::PartView::Text("non-exhaustive $match reached runtime with value `"@),
                    crate::execute::failure::PartView::Value(value),
                    crate::execute::failure::PartView::Text("`"@),
                ],
            ),
        )
    } else {
        let context = MatchContext { impls: run.program.impls, cells: session.cells };
        let (found, scope) = crate::execute::pattern::matched(arms[from].pattern, value, context, env);
        if found {
            match executed_block(arms[from].body, 0, scope, run, session, budget) {
                Err(halt) => Err(halt),
                Ok((flow, _, session)) => Ok((flow, env, session)),
            }
        } else {
            executed_arms(arms, from + 1, value, env, run, session, budget)
        }
    }
}

/// A body is executed while its condition holds. Each round costs one of the
/// budget.
pub open spec fn looped(
    cond: ExprView,
    body: Seq<StatementView>,
    env: Env,
    run: RunView,
    session: SessionView,
    budget: nat,
) -> Flowed
    decreases budget, 2int, body, 2int, 0int,
{
    if budget == 0 {
        Err(HaltView::Exhausted)
    } else {
        let left = (budget - 1) as nat;
        match evaluated(cond, env, run, session, left) {
            Err(halt) => Err(halt),
            Ok((value, session)) => match value {
                ValueView::Bool(true) => match executed_block(body, 0, env, run, session, left) {
                    Err(halt) => Err(halt),
                    Ok((flow, env, session)) => match flow {
                        FlowView::Next | FlowView::Continue => looped(cond, body, env, run, session, left),
                        FlowView::Break => Ok((FlowView::Next, env, session)),
                        FlowView::Return(value) => Ok((FlowView::Return(value), env, session)),
                    },
                },
                ValueView::Bool(false) => Ok((FlowView::Next, env, session)),
                other => Err(
                    HaltView::Failed(
                        crate::execute::failure::value_failure("`$while` condition must be `$bool`, got "@, other),
                    ),
                ),
            },
        }
    }
}

/// A body is executed for `items[next..]`, each time in a scope of its own.
pub open spec fn each_executed(
    var: Seq<char>,
    items: Seq<ValueView>,
    next: int,
    body: Seq<StatementView>,
    env: Env,
    run: RunView,
    session: SessionView,
    budget: nat,
) -> Flowed
    decreases budget, 2int, body, 1int, items.len() - next,
{
    if next < 0 || next >= items.len() {
        Ok((FlowView::Next, env, session))
    } else {
        match executed_block(body, 0, env.insert(var, items[next]), run, session, budget) {
            Err(halt) => Err(halt),
            Ok((flow, _, session)) => match flow {
                FlowView::Next | FlowView::Continue => each_executed(
                    var,
                    items,
                    next + 1,
                    body,
                    env,
                    run,
                    session,
                    budget,
                ),
                FlowView::Break => Ok((FlowView::Next, env, session)),
                FlowView::Return(value) => Ok((FlowView::Return(value), env, session)),
            },
        }
    }
}

// Whole programs.

/// The root arguments: each requested policy narrowed to what is approved.
pub open spec fn seeded(bindings: Seq<TypedNameView>, next: int, config: ConfigView, env: Env) -> Result<
    Env,
    Seq<PartView>,
>
    decreases bindings.len() - next,
{
    if next < 0 || next >= bindings.len() {
        Ok(env)
    } else {
        match bindings[next].ty {
            TypeView::Policy(requested) => match crate::execute::policy::narrowed_policy(
                requested,
                config.approved,
                config.working_dir,
            ) {
                Ok(policy) => seeded(
                    bindings,
                    next + 1,
                    config,
                    env.insert(bindings[next].name, ValueView::Policy(PolicyValueView { policy })),
                ),
                Err(domain) => Err(not_approved(domain)),
            },
            _ => seeded(bindings, next + 1, config, env),
        }
    }
}

/// What seeding leaves bound, be it that it ends with an error: the arguments
/// before the one that is not approved.
pub open spec fn seeding(bindings: Seq<TypedNameView>, next: int, config: ConfigView, env: Env) -> Env
    decreases bindings.len() - next,
{
    if next < 0 || next >= bindings.len() {
        env
    } else {
        match bindings[next].ty {
            TypeView::Policy(requested) => match crate::execute::policy::narrowed_policy(
                requested,
                config.approved,
                config.working_dir,
            ) {
                Ok(policy) => seeding(
                    bindings,
                    next + 1,
                    config,
                    env.insert(bindings[next].name, ValueView::Policy(PolicyValueView { policy })),
                ),
                Err(_) => env,
            },
            _ => seeding(bindings, next + 1, config, env),
        }
    }
}

pub open spec fn not_approved(domain: CapabilityDomain) -> Seq<PartView> {
    crate::execute::failure::text_failure(
        "mandatory policy coverage is missing: `"@ + crate::execute::policy::domain_text(domain)
            + "` is not approved for this run (approve it with the matching `--allow-*` flag)"@,
    )
}

/// The statements of a program from `from` on, none of which may leave it.
pub open spec fn ran(from: int, env: Env, run: RunView, session: SessionView, budget: nat) -> Result<
    SessionView,
    HaltView,
>
    decreases run.program.statements.len() - from,
{
    if from < 0 || from >= run.program.statements.len() {
        Ok(session)
    } else {
        match executed(run.program.statements[from], env, run, session, budget) {
            Err(halt) => Err(halt),
            Ok((flow, env, session)) => if flow is Next {
                ran(from + 1, env, run, session, budget)
            } else {
                Err(failed("unexpected `$return` at top level"@))
            },
        }
    }
}

/// A program is run from its beginning.
pub open spec fn program_run(run: RunView, budget: nat) -> Result<SessionView, HaltView> {
    match seeded(run.program.main_arg_bindings, 0, run.config, Map::empty()) {
        Err(failure) => Err(HaltView::Failed(failure)),
        Ok(env) => ran(0, env, run, SessionView::initial(run.config), budget),
    }
}

} // verus!
