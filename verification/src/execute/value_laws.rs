//! What expressions and calls yield.
use vstd::prelude::*;
use crate::execute::semantics::{self, Env, FlowView};
use crate::execute::session::{HaltView, Outcome, RunView, SessionView};
use crate::lowered::ir::PrimitiveOp;
use crate::lowered::view::{
    CallView, ExprView, FieldExprView, FieldValueView, FunctionEntryView, FunctionSigView, HostImportNameView,
    HostImportView, TypeView, ValueView, WasmArgSpecView,
};

verus! {

/// A constant is itself, and a variable reads as what it is bound to.
pub proof fn law_constants_and_variables(
    value: ValueView,
    name: Seq<char>,
    env: Env,
    run: RunView,
    session: SessionView,
    budget: nat,
)
    ensures
        semantics::evaluated(ExprView::Value(value), env, run, session, budget) == Outcome::Ok((value, session)),
        !env.dom().contains(name) ==> semantics::evaluated(ExprView::VarRef(name), env, run, session, budget) is Err,
        env.dom().contains(name) && !(env[name] is Mutable) && !(env[name] is Reference) ==> semantics::evaluated(
            ExprView::VarRef(name),
            env,
            run,
            session,
            budget,
        ) == Outcome::Ok((env[name], session)),
{
}

proof fn lemma_all_push(
    items: Seq<ExprView>,
    last: ExprView,
    from: int,
    done: Seq<ValueView>,
    env: Env,
    run: RunView,
    session: SessionView,
    budget: nat,
)
    requires
        0 <= from <= items.len(),
    ensures
        semantics::evaluated_all(items.push(last), from, done, env, run, session, budget) == (
        match semantics::evaluated_all(items, from, done, env, run, session, budget) {
            Err(halt) => Err(halt),
            Ok((values, next)) => match semantics::evaluated(last, env, run, next, budget) {
                Err(halt) => Err(halt),
                Ok((value, end)) => Ok((values.push(value), end)),
            },
        }),
    decreases items.len() - from,
{
    let all = items.push(last);
    if from < items.len() {
        assert(all[from] == items[from]);
        match semantics::evaluated(items[from], env, run, session, budget) {
            Err(_) => {}
            Ok((value, next)) => lemma_all_push(items, last, from + 1, done.push(value), env, run, next, budget),
        }
    } else {
        assert(all[from] == last);
        match semantics::evaluated(last, env, run, session, budget) {
            Err(_) => {}
            Ok((value, next)) => {
                assert(semantics::evaluated_all(all, from + 1, done.push(value), env, run, next, budget) == Ok::<
                    (Seq<ValueView>, SessionView),
                    HaltView,
                >((done.push(value), next)));
            }
        }
    }
}

/// The items of a tuple are evaluated from left to right, each once, and stand in
/// it in that order; an array has the same items.
pub proof fn law_items_are_evaluated_from_left_to_right(
    items: Seq<ExprView>,
    last: ExprView,
    env: Env,
    run: RunView,
    session: SessionView,
    budget: nat,
)
    ensures
        semantics::evaluated(ExprView::Tuple(Seq::empty()), env, run, session, budget) == Outcome::Ok(
            (ValueView::Tuple(Seq::empty()), session),
        ),
        semantics::evaluated(ExprView::Tuple(items.push(last)), env, run, session, budget) == (
        match semantics::evaluated(ExprView::Tuple(items), env, run, session, budget) {
            Ok((ValueView::Tuple(values), next)) => match semantics::evaluated(last, env, run, next, budget) {
                Ok((value, end)) => Outcome::Ok((ValueView::Tuple(values.push(value)), end)),
                Err(halt) => Outcome::Err(halt),
            },
            other => other,
        }),
        semantics::evaluated(ExprView::Tuple(items), env, run, session, budget) matches Ok((value, _)) ==> value
            is Tuple,
        semantics::evaluated(ExprView::Array(items), env, run, session, budget) == (match semantics::evaluated(
            ExprView::Tuple(items),
            env,
            run,
            session,
            budget,
        ) {
            Ok((ValueView::Tuple(values), next)) => Outcome::Ok((ValueView::Array(values), next)),
            other => other,
        }),
{
    lemma_all_push(items, last, 0, Seq::empty(), env, run, session, budget);
    assert(semantics::evaluated_all(Seq::empty(), 0, Seq::empty(), env, run, session, budget) == Ok::<
        (Seq<ValueView>, SessionView),
        HaltView,
    >((Seq::empty(), session)));
}

proof fn lemma_constants(
    values: Seq<ValueView>,
    from: int,
    done: Seq<ValueView>,
    env: Env,
    run: RunView,
    session: SessionView,
    budget: nat,
)
    requires
        0 <= from <= values.len(),
        done == values.take(from),
    ensures
        semantics::evaluated_all(constants(values), from, done, env, run, session, budget) == Ok::<
            (Seq<ValueView>, SessionView),
            HaltView,
        >((values, session)),
    decreases values.len() - from,
{
    if from < values.len() {
        assert(constants(values)[from] == ExprView::Value(values[from]));
        assert(semantics::evaluated(constants(values)[from], env, run, session, budget) == Outcome::Ok(
            (values[from], session),
        ));
        assert(done.push(values[from]) =~= values.take(from + 1));
        lemma_constants(values, from + 1, done.push(values[from]), env, run, session, budget);
    } else {
        assert(done =~= values);
    }
}

/// The expressions of values.
pub open spec fn constants(values: Seq<ValueView>) -> Seq<ExprView> {
    Seq::new(values.len(), |i: int| ExprView::Value(values[i]))
}

/// Tuples and arrays of constants hold the constants.
pub proof fn law_constant_items_are_kept(
    values: Seq<ValueView>,
    env: Env,
    run: RunView,
    session: SessionView,
    budget: nat,
)
    ensures
        semantics::evaluated(ExprView::Tuple(constants(values)), env, run, session, budget) == Outcome::Ok(
            (ValueView::Tuple(values), session),
        ),
        semantics::evaluated(ExprView::Array(constants(values)), env, run, session, budget) == Outcome::Ok(
            (ValueView::Array(values), session),
        ),
{
    assert(values.take(0) =~= Seq::<ValueView>::empty());
    lemma_constants(values, 0, Seq::empty(), env, run, session, budget);
}

/// A range has the start, the end and the step it is written with, evaluated in
/// that order, and no step of zero.
pub proof fn law_ranges_keep_their_bounds(
    start: ExprView,
    end: ExprView,
    step: ExprView,
    env: Env,
    run: RunView,
    session: SessionView,
    first: SessionView,
    second: SessionView,
    third: SessionView,
    from: i64,
    to: i64,
    by: i64,
    budget: nat,
)
    requires
        semantics::evaluated(start, env, run, session, budget) == Outcome::Ok((ValueView::Int(from), first)),
        semantics::evaluated(end, env, run, first, budget) == Outcome::Ok((ValueView::Int(to), second)),
        semantics::evaluated(step, env, run, second, budget) == Outcome::Ok((ValueView::Int(by), third)),
    ensures
        by != 0 ==> semantics::evaluated(
            (ExprView::Range { start: Box::new(start), end: Box::new(end), step: Box::new(step) }),
            env,
            run,
            session,
            budget,
        ) == Outcome::Ok((ValueView::Range { start: from, end: to, step: by }, third)),
        by == 0 ==> semantics::evaluated(
            (ExprView::Range { start: Box::new(start), end: Box::new(end), step: Box::new(step) }),
            env,
            run,
            session,
            budget,
        ) is Err,
{
    let expr = ExprView::Range { start: Box::new(start), end: Box::new(end), step: Box::new(step) };
    assert(semantics::evaluated_int(start, env, run, session, budget) == Ok::<(i64, SessionView), HaltView>(
        (from, first),
    ));
    assert(semantics::evaluated_int(end, env, run, first, budget) == Ok::<(i64, SessionView), HaltView>((to, second)));
    assert(semantics::evaluated_int(step, env, run, second, budget) == Ok::<(i64, SessionView), HaltView>((by, third)));
    assert(*expr->Range_start == start && *expr->Range_end == end && *expr->Range_step == step);
}

/// A constructed case has the type, the tag and the payload it is written with, and
/// a cast gives a value another type and keeps the value.
pub proof fn law_wrapped_values_are_kept(
    inner: ExprView,
    key: Seq<char>,
    tag: Seq<char>,
    target: TypeView,
    env: Env,
    run: RunView,
    session: SessionView,
    next: SessionView,
    value: ValueView,
    budget: nat,
)
    requires
        semantics::evaluated(inner, env, run, session, budget) == Outcome::Ok((value, next)),
    ensures
        semantics::evaluated(
            (ExprView::EnumConstructor { enum_key: key, tag, payload: Some(Box::new(inner)) }),
            env,
            run,
            session,
            budget,
        ) == Outcome::Ok((ValueView::Enum { enum_key: key, tag, payload: Some(Box::new(value)) }, next)),
        semantics::evaluated(
            (ExprView::EnumConstructor { enum_key: key, tag, payload: None }),
            env,
            run,
            session,
            budget,
        ) == Outcome::Ok((ValueView::Enum { enum_key: key, tag, payload: None }, session)),
        semantics::evaluated((ExprView::Cast { from: Box::new(inner), target }), env, run, session, budget)
            == Outcome::Ok((ValueView::Typed { type_ref: target, value: Box::new(value) }, next)),
{
}

// Maps.

proof fn lemma_pairs_push(
    items: Seq<(ExprView, ExprView)>,
    last: (ExprView, ExprView),
    from: int,
    done: Seq<(ValueView, ValueView)>,
    env: Env,
    run: RunView,
    session: SessionView,
    budget: nat,
)
    requires
        0 <= from <= items.len(),
    ensures
        semantics::evaluated_pairs(items.push(last), from, done, env, run, session, budget) == (
        match semantics::evaluated_pairs(items, from, done, env, run, session, budget) {
            Err(halt) => Err(halt),
            Ok((pairs, next)) => match semantics::evaluated(last.0, env, run, next, budget) {
                Err(halt) => Err(halt),
                Ok((key, next)) => match semantics::evaluated(last.1, env, run, next, budget) {
                    Err(halt) => Err(halt),
                    Ok((value, end)) => Ok((semantics::with_pair(pairs, key, value, end.cells), end)),
                },
            },
        }),
    decreases items.len() - from,
{
    let all = items.push(last);
    if from < items.len() {
        assert(all[from] == items[from]);
        match semantics::evaluated(items[from].0, env, run, session, budget) {
            Err(_) => {}
            Ok((key, next)) => match semantics::evaluated(items[from].1, env, run, next, budget) {
                Err(_) => {}
                Ok((value, next)) => lemma_pairs_push(
                    items,
                    last,
                    from + 1,
                    semantics::with_pair(done, key, value, next.cells),
                    env,
                    run,
                    next,
                    budget,
                ),
            },
        }
    } else {
        assert(all[from] == last);
        match semantics::evaluated(last.0, env, run, session, budget) {
            Err(_) => {}
            Ok((key, next)) => match semantics::evaluated(last.1, env, run, next, budget) {
                Err(_) => {}
                Ok((value, end)) => {
                    let pairs = semantics::with_pair(done, key, value, end.cells);
                    assert(semantics::evaluated_pairs(all, from + 1, pairs, env, run, end, budget) == Ok::<
                        (Seq<(ValueView, ValueView)>, SessionView),
                        HaltView,
                    >((pairs, end)));
                }
            },
        }
    }
}

/// Whether two lists of pairs differ in one new value: behind the key that was
/// there already, or in a pair of its own at the end.
pub open spec fn takes_pair(
    before: Seq<(ValueView, ValueView)>,
    key: ValueView,
    value: ValueView,
    cells: Seq<ValueView>,
    after: Seq<(ValueView, ValueView)>,
) -> bool {
    if exists|i: int| 0 <= i < before.len() && crate::execute::values::matches_value((#[trigger] before[i]).0, key, cells) {
        exists|place: int|
            0 <= place < before.len() && crate::execute::values::matches_value((#[trigger] before[place]).0, key, cells)
                && (forall|i: int| 0 <= i < place ==> !crate::execute::values::matches_value(
                (#[trigger] before[i]).0,
                key,
                cells,
            )) && after.len() == before.len() && after[place] == (before[place].0, value) && forall|i: int|
                0 <= i < before.len() && i != place ==> #[trigger] after[i] == before[i]
    } else {
        after == before.push((key, value))
    }
}

proof fn lemma_equal_key(pairs: Seq<(ValueView, ValueView)>, from: int, key: ValueView, cells: Seq<ValueView>)
    requires
        0 <= from <= pairs.len(),
    ensures
        ({
            let place = semantics::equal_key(pairs, from, key, cells);
            &&& from <= place <= pairs.len()
            &&& place < pairs.len() ==> crate::execute::values::matches_value(pairs[place].0, key, cells)
            &&& forall|i: int| from <= i < place ==> !crate::execute::values::matches_value((#[trigger] pairs[i]).0, key, cells)
        }),
    decreases pairs.len() - from,
{
    if from < pairs.len() && !crate::execute::values::matches_value(pairs[from].0, key, cells) {
        lemma_equal_key(pairs, from + 1, key, cells);
    }
}

/// A map takes its entries one after the other, key before value. A key that it has
/// already keeps its place and gets the new value; a new one comes last.
pub proof fn law_maps_take_entries_in_order(
    items: Seq<(ExprView, ExprView)>,
    last: (ExprView, ExprView),
    env: Env,
    run: RunView,
    session: SessionView,
    budget: nat,
)
    ensures
        semantics::evaluated(ExprView::Mapping(Seq::empty()), env, run, session, budget) == Outcome::Ok(
            (ValueView::Mapping(Seq::empty()), session),
        ),
        match semantics::evaluated(ExprView::Mapping(items), env, run, session, budget) {
            Ok((ValueView::Mapping(pairs), next)) => match semantics::evaluated(last.0, env, run, next, budget) {
                Ok((key, next)) => match semantics::evaluated(last.1, env, run, next, budget) {
                    Ok((value, end)) => semantics::evaluated(
                        ExprView::Mapping(items.push(last)),
                        env,
                        run,
                        session,
                        budget,
                    ) matches Ok((ValueView::Mapping(more), left)) && left == end && takes_pair(
                        pairs,
                        key,
                        value,
                        end.cells,
                        more,
                    ),
                    Err(halt) => semantics::evaluated(ExprView::Mapping(items.push(last)), env, run, session, budget)
                        == Outcome::Err(halt),
                },
                Err(halt) => semantics::evaluated(ExprView::Mapping(items.push(last)), env, run, session, budget)
                    == Outcome::Err(halt),
            },
            Ok(_) => false,
            Err(halt) => semantics::evaluated(ExprView::Mapping(items.push(last)), env, run, session, budget)
                == Outcome::Err(halt),
        },
{
    lemma_pairs_push(items, last, 0, Seq::empty(), env, run, session, budget);
    assert(semantics::evaluated_pairs(Seq::empty(), 0, Seq::empty(), env, run, session, budget) == Ok::<
        (Seq<(ValueView, ValueView)>, SessionView),
        HaltView,
    >((Seq::empty(), session)));
    match semantics::evaluated_pairs(items, 0, Seq::empty(), env, run, session, budget) {
        Err(_) => {}
        Ok((pairs, next)) => match semantics::evaluated(last.0, env, run, next, budget) {
            Err(_) => {}
            Ok((key, next)) => match semantics::evaluated(last.1, env, run, next, budget) {
                Err(_) => {}
                Ok((value, end)) => {
                    let place = semantics::equal_key(pairs, 0, key, end.cells);
                    lemma_equal_key(pairs, 0, key, end.cells);
                    if place < pairs.len() {
                        assert(crate::execute::values::matches_value(pairs[place].0, key, end.cells));
                    }
                    assert(takes_pair(
                        pairs,
                        key,
                        value,
                        end.cells,
                        semantics::with_pair(pairs, key, value, end.cells),
                    ));
                }
            },
        },
    }
}

// Records.

proof fn lemma_named_kept(done: Seq<FieldValueView>, from: int, field: FieldValueView)
    requires
        0 <= from <= done.len(),
    ensures
        crate::execute::records::with_named(done, from, field).contains(field),
        forall|other: FieldValueView|
            done.contains(other) && other.name != field.name ==> #[trigger] crate::execute::records::with_named(
                done,
                from,
                field,
            ).contains(other),
        forall|other: FieldValueView| #[trigger]
            crate::execute::records::with_named(done, from, field).contains(other) ==> other == field || done.contains(other),
    decreases done.len() - from,
{
    let after = crate::execute::records::with_named(done, from, field);
    if from < done.len() && done[from].name != field.name && crate::text::precedes(done[from].name, field.name) {
        lemma_named_kept(done, from + 1, field);
    } else if from < done.len() {
        assert(after[from] == field);
        assert forall|other: FieldValueView| done.contains(other) && other.name != field.name implies after.contains(
            other,
        ) by {
            let i = choose|i: int| 0 <= i < done.len() && done[i] == other;
            if done[from].name == field.name {
                assert(after[i] == other);
            } else {
                assert(after[if i < from { i } else { i + 1 }] == other);
            }
        }
    } else {
        assert(after[done.len() as int] == field);
        assert forall|other: FieldValueView| done.contains(other) implies after.contains(other) by {
            let i = choose|i: int| 0 <= i < done.len() && done[i] == other;
            assert(after[i] == other);
        }
    }
}

/// The fields with constant values.
pub open spec fn constant_fields(fields: Seq<FieldValueView>) -> Seq<FieldExprView> {
    Seq::new(fields.len(), |i: int| FieldExprView { name: fields[i].name, value: ExprView::Value(fields[i].value) })
}

proof fn lemma_constant_fields(
    fields: Seq<FieldValueView>,
    order: Seq<int>,
    from: int,
    done: Seq<FieldValueView>,
    env: Env,
    run: RunView,
    session: SessionView,
    budget: nat,
)
    requires
        0 <= from <= order.len(),
        forall|i: int| 0 <= i < order.len() ==> 0 <= #[trigger] order[i] < fields.len(),
        forall|i: int, j: int| 0 <= i < j < fields.len() ==> (#[trigger] fields[i]).name != (#[trigger] fields[j]).name,
        forall|i: int| 0 <= i < from ==> done.contains(fields[#[trigger] order[i]]),
        forall|field: FieldValueView| #[trigger] done.contains(field) ==> fields.contains(field),
    ensures
        semantics::evaluated_fields(constant_fields(fields), order, from, done, env, run, session, budget) matches Ok(
            (held, left),
        ) && left == session && (forall|i: int| 0 <= i < order.len() ==> held.contains(fields[#[trigger] order[i]]))
            && (forall|field: FieldValueView| #[trigger] held.contains(field) ==> fields.contains(field)),
    decreases order.len() - from,
{
    if from < order.len() {
        let at = order[from];
        let written = constant_fields(fields)[at];
        assert(written == (FieldExprView { name: fields[at].name, value: ExprView::Value(fields[at].value) }));
        let field = FieldValueView { name: written.name, value: fields[at].value };
        assert(field == fields[at]);
        let more = crate::execute::records::with_named(done, 0, field);
        lemma_named_kept(done, 0, field);
        assert forall|i: int| 0 <= i < from + 1 implies more.contains(fields[#[trigger] order[i]]) by {
            if i < from && order[i] != at {
                assert(done.contains(fields[order[i]]));
            }
        }
        assert forall|other: FieldValueView| #[trigger] more.contains(other) implies fields.contains(other) by {
            if other == field {
                assert(fields[at] == field);
            }
        }
        assert(semantics::evaluated(written.value, env, run, session, budget) == Outcome::Ok((field.value, session)));
        lemma_constant_fields(fields, order, from + 1, more, env, run, session, budget);
    }
}

/// A record has each field it is written with, under the name and with the value it
/// is written with, and no other.
pub proof fn law_records_hold_their_fields(
    fields: Seq<FieldValueView>,
    env: Env,
    run: RunView,
    session: SessionView,
    budget: nat,
)
    requires
        forall|i: int, j: int| 0 <= i < j < fields.len() ==> (#[trigger] fields[i]).name != (#[trigger] fields[j]).name,
    ensures
        semantics::evaluated(ExprView::Record(constant_fields(fields)), env, run, session, budget) matches Ok(
            (ValueView::Record(held), left),
        ) && left == session && forall|field: FieldValueView| #[trigger] held.contains(field) == fields.contains(field),
{
    let written = constant_fields(fields);
    let order = crate::lowered::field_order::name_order(written, written.len() as int);
    crate::lowered::field_order::law_fields_are_read_by_name(written, written.len() as int);
    lemma_constant_fields(fields, order, 0, Seq::empty(), env, run, session, budget);
    let held = semantics::evaluated_fields(written, order, 0, Seq::empty(), env, run, session, budget)->Ok_0.0;
    assert forall|field: FieldValueView| #[trigger] held.contains(field) == fields.contains(field) by {
        if fields.contains(field) {
            let k = choose|k: int| 0 <= k < fields.len() && fields[k] == field;
            assert(order.contains(k));
            let i = choose|i: int| 0 <= i < order.len() && order[i] == k;
            assert(held.contains(fields[order[i]]));
        }
    }
}

// Operators and host calls.

/// An operator works on the values of its arguments, and a host import is called
/// with the values of its arguments, both as the items of a tuple.
pub proof fn law_operators_take_the_values_of_their_arguments(
    args: Seq<ExprView>,
    op: PrimitiveOp,
    operand_type: TypeView,
    return_type: TypeView,
    import: HostImportNameView,
    intrinsic: bool,
    env: Env,
    run: RunView,
    session: SessionView,
    next: SessionView,
    values: Seq<ValueView>,
    budget: nat,
)
    requires
        semantics::evaluated(ExprView::Tuple(args), env, run, session, budget) == Outcome::Ok(
            (ValueView::Tuple(values), next),
        ),
    ensures
        semantics::evaluated(
            (ExprView::Primitive { op, args, operand_type, return_type }),
            env,
            run,
            session,
            budget,
        ) == crate::execute::primitive::primitive(op, operand_type, return_type, values, run, next),
        match semantics::import_from(run.program.imports, 0, import) {
            Some(entry) if entry.params.len() == values.len() => semantics::evaluated(
                (ExprView::HostCall { import, args, intrinsic, return_type }),
                env,
                run,
                session,
                budget,
            ) == semantics::host_called(import, entry, return_type, values, run, next),
            _ => semantics::evaluated(
                (ExprView::HostCall { import, args, intrinsic, return_type }),
                env,
                run,
                session,
                budget,
            ) is Err,
        },
{
}

proof fn lemma_import(imports: Seq<HostImportView>, from: int, index: int, name: HostImportNameView)
    requires
        0 <= from <= index < imports.len(),
        imports[index].module == name.module && imports[index].name == name.name,
        forall|i: int| from <= i < index ==> (#[trigger] imports[i]).module != name.module || imports[i].name != name.name,
    ensures
        semantics::import_from(imports, from, name) == Some(imports[index]),
    decreases index - from,
{
    if from < index {
        lemma_import(imports, from + 1, index, name);
    }
}

/// An import is found under its module and its name, and only there.
pub proof fn law_imports_are_found_by_name(imports: Seq<HostImportView>, index: int, name: HostImportNameView)
    requires
        0 <= index <= imports.len(),
        forall|i: int| 0 <= i < index ==> (#[trigger] imports[i]).module != name.module || imports[i].name != name.name,
        index < imports.len() ==> imports[index].module == name.module && imports[index].name == name.name,
    ensures
        semantics::import_from(imports, 0, name) == (if index < imports.len() {
            Some(imports[index])
        } else {
            None
        }),
{
    if index < imports.len() {
        lemma_import(imports, 0, index, name);
    } else {
        lemma_no_import(imports, 0, name);
    }
}

proof fn lemma_no_import(imports: Seq<HostImportView>, from: int, name: HostImportNameView)
    requires
        0 <= from <= imports.len(),
        forall|i: int| 0 <= i < imports.len() ==> (#[trigger] imports[i]).module != name.module || imports[i].name
            != name.name,
    ensures
        semantics::import_from(imports, from, name) is None,
    decreases imports.len() - from,
{
    if from < imports.len() {
        lemma_no_import(imports, from + 1, name);
    }
}

proof fn lemma_capabilities(
    params: Seq<crate::lowered::ir::ParamKind>,
    from: int,
    index: int,
    args: Seq<ValueView>,
    import: HostImportNameView,
)
    requires
        0 <= from <= index < params.len(),
        index < args.len(),
        params[index] is Capability,
        !(args[index] is Capability),
    ensures
        semantics::capability_check(params, from, args, import) is Err,
    decreases index - from,
{
    if from < index {
        lemma_capabilities(params, from + 1, index, args, import);
    }
}

/// A host import that takes a capability is not called without one: neither with
/// another value nor with a policy that was not narrowed.
pub proof fn law_capabilities_are_demanded(
    import: HostImportNameView,
    entry: HostImportView,
    ty: TypeView,
    args: Seq<ValueView>,
    index: int,
    run: RunView,
    session: SessionView,
)
    requires
        0 <= index < entry.params.len(),
        index < args.len(),
        entry.params[index] is Capability,
        !(args[index] is Capability),
    ensures
        semantics::host_called(import, entry, ty, args, run, session) is Err,
{
    lemma_capabilities(entry.params, 0, index, args, import);
}

/// The assertions of the test module hold exactly where they should.
pub proof fn law_assertions_fail_on_what_is_wrong(name: Seq<char>, args: Seq<ValueView>, session: SessionView)
    requires
        args.len() >= 2,
    ensures
        args[0] is Bool ==> (semantics::vibra_test("assert"@, args, session) is Ok) == (args[0] == ValueView::Bool(
            true,
        )),
        semantics::vibra_test("fail"@, args, session) is Err,
        name == "assert-eq-int"@ && args[0] is Int && args[1] is Int ==> (semantics::vibra_test(name, args, session)
            is Ok) == (args[0] == args[1]),
        name == "assert-eq-str"@ && args[0] is Str && args[1] is Str ==> (semantics::vibra_test(name, args, session)
            is Ok) == (args[0] == args[1]),
        name == "assert-eq-bool"@ && args[0] is Bool && args[1] is Bool ==> (semantics::vibra_test(name, args, session)
            is Ok) == (args[0] == args[1]),
        semantics::vibra_test(name, args, session) matches Ok((value, left)) ==> value is Void && left == session,
{
    reveal_strlit("assert");
    reveal_strlit("fail");
    reveal_strlit("assert-eq-bool");
    reveal_strlit("assert-eq-int");
    reveal_strlit("assert-eq-str");
    reveal_strlit("assert-eq-float");
    assert("assert"@.len() == 6 && "fail"@.len() == 4);
    assert("assert-eq-bool"@.len() == 14 && "assert-eq-int"@.len() == 13 && "assert-eq-str"@.len() == 13);
}

// Calls.

proof fn lemma_function(functions: Seq<FunctionEntryView>, from: int, index: int, key: Seq<char>)
    requires
        0 <= from <= index <= functions.len(),
        forall|i: int| from <= i < index ==> (#[trigger] functions[i]).key != key,
        index < functions.len() ==> functions[index].key == key,
    ensures
        semantics::function_from(functions, from, key) == (if index < functions.len() {
            Some(functions[index].signature)
        } else {
            None
        }),
    decreases index - from,
{
    if from < index {
        lemma_function(functions, from + 1, index, key);
    }
}

/// Whether a scope is that of a function: the values under the names of its
/// parameters, and nothing else.
pub open spec fn holds_arguments(scope: Env, names: Seq<Seq<char>>, values: Seq<ValueView>) -> bool {
    &&& names.len() == values.len()
    &&& forall|i: int|
        0 <= i < names.len() ==> #[trigger] scope.dom().contains("args."@ + names[i]) && scope["args."@ + names[i]]
            == values[i]
    &&& forall|name: Seq<char>| #[trigger]
        scope.dom().contains(name) ==> exists|i: int| 0 <= i < names.len() && name == "args."@ + #[trigger] names[i]
}

proof fn lemma_prefixed(left: Seq<char>, right: Seq<char>)
    requires
        "args."@ + left == "args."@ + right,
    ensures
        left == right,
{
    assert(("args."@ + left).skip("args."@.len() as int) =~= left);
    assert(("args."@ + right).skip("args."@.len() as int) =~= right);
}

proof fn lemma_bound(
    symbol: Seq<char>,
    names: Seq<Seq<char>>,
    next: int,
    args: Seq<ExprView>,
    done: Seq<ValueView>,
    env: Env,
    scope: Env,
    run: RunView,
    session: SessionView,
    budget: nat,
)
    requires
        0 <= next <= names.len() <= args.len(),
        names.no_duplicates(),
        holds_arguments(scope, names.take(next), done),
    ensures
        match semantics::evaluated_all(args.take(names.len() as int), next, done, env, run, session, budget) {
            Ok((values, end)) => semantics::bound_args(symbol, names, next, args, env, scope, run, session, budget)
                matches Ok((held, left)) && left == end && holds_arguments(held, names, values),
            Err(halt) => semantics::bound_args(symbol, names, next, args, env, scope, run, session, budget) == Err::<
                (Env, SessionView),
                HaltView,
            >(halt),
        },
    decreases names.len() - next,
{
    let taken = args.take(names.len() as int);
    if next < names.len() {
        assert(taken[next] == args[next]);
        match semantics::evaluated(args[next], env, run, session, budget) {
            Err(_) => {}
            Ok((value, end)) => {
                let more = scope.insert("args."@ + names[next], value);
                let values = done.push(value);
                let known = names.take(next + 1);
                assert forall|i: int| 0 <= i < known.len() implies #[trigger] more.dom().contains("args."@ + known[i])
                    && more["args."@ + known[i]] == values[i] by {
                    if i < next {
                        assert(names.take(next)[i] == known[i]);
                        assert(scope.dom().contains("args."@ + names.take(next)[i]));
                        if "args."@ + known[i] == "args."@ + names[next] {
                            lemma_prefixed(known[i], names[next]);
                        }
                    }
                }
                assert forall|name: Seq<char>| #[trigger] more.dom().contains(name) implies exists|i: int|
                    0 <= i < known.len() && name == "args."@ + #[trigger] known[i] by {
                    if name == "args."@ + names[next] {
                        assert(known[next] == names[next]);
                    } else {
                        assert(scope.dom().contains(name));
                        let i = choose|i: int| 0 <= i < names.take(next).len() && name == "args."@ + #[trigger] names.take(next)[i];
                        assert(known[i] == names.take(next)[i]);
                    }
                }
                lemma_bound(symbol, names, next + 1, args, values, env, more, run, end, budget);
            }
        }
    } else {
        assert(names.take(next) =~= names);
    }
}

/// What a function body hands to the caller.
pub open spec fn handed_out(flowed: semantics::Flowed, void: bool) -> Option<Outcome> {
    match flowed {
        Ok((FlowView::Return(value), _, session)) => Some(Outcome::Ok((value, session))),
        Ok((FlowView::Next, _, session)) => if void {
            Some(Outcome::Ok((ValueView::Void, session)))
        } else {
            None
        },
        Ok(_) => None,
        Err(halt) => Some(Outcome::Err(halt)),
    }
}

/// A call runs the body of the function with its key, with the value of each
/// argument under the name of its parameter and no variable of the caller, and
/// yields what the body returns.
pub proof fn law_calls_run_the_function_on_their_arguments(
    call: CallView,
    return_type: TypeView,
    index: int,
    env: Env,
    run: RunView,
    session: SessionView,
    next: SessionView,
    values: Seq<ValueView>,
    budget: nat,
)
    requires
        0 <= index < run.program.functions.len(),
        run.program.functions[index].key == call.callee_key,
        forall|i: int| 0 <= i < index ==> (#[trigger] run.program.functions[i]).key != call.callee_key,
        run.program.functions[index].signature.body is User,
        run.program.functions[index].signature.arg_names.no_duplicates(),
        run.program.functions[index].signature.arg_names.len() <= call.args.len(),
        semantics::evaluated(
            ExprView::Tuple(call.args.take(run.program.functions[index].signature.arg_names.len() as int)),
            env,
            run,
            session,
            budget + 1,
        ) == Outcome::Ok((ValueView::Tuple(values), next)),
    ensures
        exists|scope: Env|
            holds_arguments(scope, run.program.functions[index].signature.arg_names, values) && (match handed_out(
                #[trigger] semantics::executed_block(
                    run.program.functions[index].signature.body->User_statements,
                    0,
                    scope,
                    run,
                    next,
                    budget,
                ),
                run.program.functions[index].signature.return_type is Void,
            ) {
                Some(outcome) => semantics::evaluated(
                    (ExprView::Call { call, return_type }),
                    env,
                    run,
                    session,
                    budget + 1,
                ) == outcome,
                None => semantics::evaluated((ExprView::Call { call, return_type }), env, run, session, budget + 1)
                    is Err,
            }),
{
    let signature = run.program.functions[index].signature;
    lemma_function(run.program.functions, 0, index, call.callee_key);
    assert(signature.arg_names.take(0) =~= Seq::<Seq<char>>::empty());
    lemma_bound(
        signature.symbol,
        signature.arg_names,
        0,
        call.args,
        Seq::empty(),
        env,
        Map::empty(),
        run,
        session,
        budget + 1,
    );
    let bound = semantics::bound_args(
        signature.symbol,
        signature.arg_names,
        0,
        call.args,
        env,
        Map::empty(),
        run,
        session,
        budget + 1,
    );
    let scope = bound->Ok_0.0;
    assert(holds_arguments(scope, signature.arg_names, values));
    let flowed = semantics::executed_block(signature.body->User_statements, 0, scope, run, next, budget);
    let outcome = semantics::evaluated((ExprView::Call { call, return_type }), env, run, session, budget + 1);
    assert(outcome == semantics::called(call, env, run, session, budget + 1));
    assert(outcome == (match flowed {
        Err(halt) => Outcome::Err(halt),
        Ok((flow, _, session)) => semantics::returned(signature, flow, session),
    }));
}

/// A call of a function that is not there, or without all of its arguments, fails.
pub proof fn law_calls_need_a_function(
    call: CallView,
    return_type: TypeView,
    env: Env,
    run: RunView,
    session: SessionView,
    budget: nat,
)
    requires
        forall|i: int| 0 <= i < run.program.functions.len() ==> (#[trigger] run.program.functions[i]).key != call.callee_key,
    ensures
        semantics::evaluated((ExprView::Call { call, return_type }), env, run, session, budget) is Err,
{
    lemma_function(run.program.functions, 0, run.program.functions.len() as int, call.callee_key);
    assert(semantics::evaluated((ExprView::Call { call, return_type }), env, run, session, budget)
        == semantics::called(call, env, run, session, budget));
}

proof fn lemma_place(names: Seq<Seq<char>>, from: int, place: int, name: Seq<char>)
    requires
        0 <= from <= place < names.len(),
        names[place] == name,
        forall|i: int| from <= i < place ==> #[trigger] names[i] != name,
    ensures
        semantics::name_place(names, from, name) == place,
    decreases place - from,
{
    if from < place {
        lemma_place(names, from + 1, place, name);
    }
}

/// Whether values are what a wrapper forwards: its constants, and the arguments
/// under the names it gives.
pub open spec fn forwards(
    specs: Seq<WasmArgSpecView>,
    names: Seq<Seq<char>>,
    args: Seq<ValueView>,
    values: Seq<ValueView>,
) -> bool {
    &&& values.len() == specs.len()
    &&& forall|i: int|
        0 <= i < specs.len() ==> match #[trigger] specs[i] {
            WasmArgSpecView::ConstInt(number) => values[i] == ValueView::Int(number),
            WasmArgSpecView::ConstStr(text) => values[i] == ValueView::Str(text),
            WasmArgSpecView::Arg(name) => forall|place: int|
                0 <= place < names.len() && #[trigger] names[place] == name ==> values[i] == args[place],
        }
}

proof fn lemma_forwarded(
    signature: FunctionSigView,
    specs: Seq<WasmArgSpecView>,
    next: int,
    args: Seq<ValueView>,
    done: Seq<ValueView>,
    env: Env,
    run: RunView,
    session: SessionView,
    budget: nat,
)
    requires
        0 <= next <= specs.len(),
        signature.arg_names.no_duplicates(),
        signature.arg_names.len() == args.len(),
        forall|i: int| 0 <= i < specs.len() ==> ((#[trigger] specs[i]) matches WasmArgSpecView::Arg(name)
            ==> signature.arg_names.contains(name)),
        forwards(specs.take(next), signature.arg_names, args, done),
    ensures
        semantics::forwarded(signature, specs, next, constants(args), done, env, run, session, budget) matches Ok(
            (values, left),
        ) && left == session && forwards(specs, signature.arg_names, args, values),
    decreases specs.len() - next,
{
    if next < specs.len() {
        let value = match specs[next] {
            WasmArgSpecView::ConstInt(number) => ValueView::Int(number),
            WasmArgSpecView::ConstStr(text) => ValueView::Str(text),
            WasmArgSpecView::Arg(name) => args[semantics::name_place(signature.arg_names, 0, name)],
        };
        if specs[next] is Arg {
            let name = specs[next]->Arg_0;
            let place = choose|place: int| 0 <= place < signature.arg_names.len() && signature.arg_names[place] == name;
            lemma_place(signature.arg_names, 0, place, name);
            assert(constants(args)[place] == ExprView::Value(args[place]));
            assert(semantics::evaluated(constants(args)[place], env, run, session, budget) == Outcome::Ok(
                (args[place], session),
            ));
        }
        let more = done.push(value);
        assert forall|i: int| 0 <= i < next + 1 implies match #[trigger] specs.take(next + 1)[i] {
            WasmArgSpecView::ConstInt(number) => more[i] == ValueView::Int(number),
            WasmArgSpecView::ConstStr(text) => more[i] == ValueView::Str(text),
            WasmArgSpecView::Arg(name) => forall|place: int|
                0 <= place < signature.arg_names.len() && #[trigger] signature.arg_names[place] == name ==> more[i]
                    == args[place],
        } by {
            if i < next {
                assert(specs.take(next)[i] == specs.take(next + 1)[i]);
            }
        }
        lemma_forwarded(signature, specs, next + 1, args, more, env, run, session, budget);
    } else {
        assert(specs.take(next) =~= specs);
    }
}

/// A wrapper of a host import forwards its constants and the arguments that it
/// names, in the order in which it lists them.
pub proof fn law_wrappers_forward_what_they_name(
    call: CallView,
    return_type: TypeView,
    index: int,
    args: Seq<ValueView>,
    env: Env,
    run: RunView,
    session: SessionView,
    budget: nat,
)
    requires
        0 <= index < run.program.functions.len(),
        run.program.functions[index].key == call.callee_key,
        forall|i: int| 0 <= i < index ==> (#[trigger] run.program.functions[i]).key != call.callee_key,
        run.program.functions[index].signature.body is Wasm,
        run.program.functions[index].signature.arg_names.no_duplicates(),
        run.program.functions[index].signature.arg_names.len() == args.len(),
        call.args == constants(args),
        forall|i: int|
            0 <= i < run.program.functions[index].signature.body->Wasm_wasm_args.len() ==> ((
            #[trigger] run.program.functions[index].signature.body->Wasm_wasm_args[i]) matches WasmArgSpecView::Arg(name)
                ==> run.program.functions[index].signature.arg_names.contains(name)),
        semantics::import_from(
            run.program.imports,
            0,
            run.program.functions[index].signature.body->Wasm_import,
        ) matches Some(entry) && entry.params.len() == run.program.functions[index].signature.body->Wasm_wasm_args.len(),
    ensures
        exists|values: Seq<ValueView>|
            forwards(
                run.program.functions[index].signature.body->Wasm_wasm_args,
                run.program.functions[index].signature.arg_names,
                args,
                values,
            ) && semantics::evaluated((ExprView::Call { call, return_type }), env, run, session, budget)
                == #[trigger] semantics::host_called(
                run.program.functions[index].signature.body->Wasm_import,
                semantics::import_from(
                    run.program.imports,
                    0,
                    run.program.functions[index].signature.body->Wasm_import,
                )->Some_0,
                run.program.functions[index].signature.return_type,
                values,
                run,
                session,
            ),
{
    let signature = run.program.functions[index].signature;
    let specs = signature.body->Wasm_wasm_args;
    lemma_function(run.program.functions, 0, index, call.callee_key);
    assert(specs.take(0) =~= Seq::<WasmArgSpecView>::empty());
    lemma_forwarded(signature, specs, 0, args, Seq::empty(), env, run, session, budget);
    let sent = semantics::forwarded(signature, specs, 0, call.args, Seq::empty(), env, run, session, budget);
    let values = sent->Ok_0.0;
    assert(semantics::evaluated((ExprView::Call { call, return_type }), env, run, session, budget)
        == semantics::called(call, env, run, session, budget));
    let entry = semantics::import_from(run.program.imports, 0, signature.body->Wasm_import)->Some_0;
    assert(semantics::called(call, env, run, session, budget) == semantics::host_called(
        signature.body->Wasm_import,
        entry,
        signature.return_type,
        values,
        run,
        session,
    ));
}

// Policies.

/// Only a policy can be narrowed, and only to a capability or to a policy; a capability
/// that comes out is of the domain asked for.
pub proof fn law_policies_alone_are_narrowed(
    from: ExprView,
    target: TypeView,
    env: Env,
    run: RunView,
    session: SessionView,
    next: SessionView,
    value: ValueView,
    budget: nat,
)
    requires
        semantics::evaluated(from, env, run, session, budget) == Outcome::Ok((value, next)),
    ensures
        !(value is Policy) ==> semantics::evaluated(
            (ExprView::PolicyNarrow { from: Box::new(from), target }),
            env,
            run,
            session,
            budget,
        ) is Err,
        !(target is Capability) && !(target is Policy) ==> semantics::evaluated(
            (ExprView::PolicyNarrow { from: Box::new(from), target }),
            env,
            run,
            session,
            budget,
        ) is Err,
        semantics::evaluated(
            (ExprView::PolicyNarrow { from: Box::new(from), target }),
            env,
            run,
            session,
            budget,
        ) matches Ok((narrowed, left)) ==> {
            &&& left == next
            &&& target matches TypeView::Capability(requested) ==> (narrowed matches ValueView::Capability(capability)
                && capability.capability.domain == requested.domain)
            &&& target is Policy ==> narrowed is Policy
        },
{
}

} // verus!
