//! How the effects of a body are made up of those of its parts, and which
//! functions are complained about for theirs.
use vstd::prelude::*;
use crate::effect_semantics::{self, FactsView, TablesView, WitnessView};
use crate::lowered::view::{
    CallView, EffectLabelView, ExprView, FieldExprView, FunctionEntryView, HostImportNameView, LetValueView,
    MatchArmView, StatementView,
};

verus! {

/// What a body reaches: the labels of its own effects and whom it calls.
#[verifier::ext_equal]
pub struct Reach {
    pub labels: Set<EffectLabelView>,
    pub callees: Set<Seq<char>>,
}

pub open spec fn labels_of(list: Seq<WitnessView>) -> Set<EffectLabelView> {
    Set::new(|label: EffectLabelView| effect_semantics::performs(list, label))
}

pub open spec fn reach_of(facts: FactsView) -> Reach {
    Reach { labels: labels_of(facts.direct), callees: facts.callees.to_set() }
}

pub open spec fn joined(left: Reach, right: Reach) -> Reach {
    Reach { labels: left.labels.union(right.labels), callees: left.callees.union(right.callees) }
}

/// Whether facts are those that came before with others added.
pub open spec fn adds(before: FactsView, more: FactsView, after: FactsView) -> bool {
    reach_of(after) == joined(reach_of(before), reach_of(more))
}

pub open spec fn alone() -> FactsView {
    effect_semantics::no_facts()
}

proof fn lemma_alone(facts: FactsView)
    ensures
        adds(facts, alone(), facts),
        adds(alone(), facts, facts),
{
    assert(labels_of(alone().direct) =~= Set::empty());
    assert(alone().callees.to_set() =~= Set::empty());
    assert(joined(reach_of(facts), reach_of(alone())) =~= reach_of(facts));
    assert(joined(reach_of(alone()), reach_of(facts)) =~= reach_of(facts));
}

/// Two parts one after the other add what both add.
proof fn lemma_then(
    before: FactsView,
    first_alone: FactsView,
    first: FactsView,
    second_alone: FactsView,
    second: FactsView,
    both_alone: FactsView,
)
    requires
        adds(before, first_alone, first),
        adds(first, second_alone, second),
        adds(first_alone, second_alone, both_alone),
    ensures
        adds(before, both_alone, second),
{
    assert(joined(joined(reach_of(before), reach_of(first_alone)), reach_of(second_alone)) =~= joined(
        reach_of(before),
        joined(reach_of(first_alone), reach_of(second_alone)),
    ));
}

proof fn lemma_labelled(list: Seq<WitnessView>, labels: Seq<EffectLabelView>, from: int, source: Seq<char>)
    requires
        0 <= from,
    ensures
        labels_of(effect_semantics::labelled(list, labels, from, source)) == labels_of(list).union(
            labels.skip(if from <= labels.len() { from } else { labels.len() as int }).to_set(),
        ),
    decreases labels.len() - from,
{
    if from < labels.len() {
        let next = effect_semantics::recorded(list, labels[from], source);
        effect_semantics::lemma_recorded(list, labels[from], source);
        lemma_labelled(next, labels, from + 1, source);
        assert(labels_of(next) =~= labels_of(list).insert(labels[from]));
        let rest = labels.skip(from);
        let later = labels.skip(from + 1);
        assert(rest.to_set() =~= later.to_set().insert(labels[from])) by {
            assert(rest[0] == labels[from]);
            assert forall|label: EffectLabelView| later.contains(label) implies rest.contains(label) by {
                let k = choose|k: int| 0 <= k < later.len() && later[k] == label;
                assert(rest[k + 1] == label);
            }
            assert forall|label: EffectLabelView| rest.contains(label) && label != labels[from] implies later.contains(label) by {
                let k = choose|k: int| 0 <= k < rest.len() && rest[k] == label;
                assert(later[k - 1] == label);
            }
        }
        assert(labels_of(list).insert(labels[from]).union(later.to_set()) =~= labels_of(list).union(
            rest.to_set(),
        ));
    } else {
        assert(labels.skip(labels.len() as int).to_set() =~= Set::empty());
        assert(labels_of(list).union(Set::empty()) =~= labels_of(list));
    }
}

proof fn lemma_import(import: HostImportNameView, intrinsic: bool, tables: TablesView, facts: FactsView)
    ensures
        adds(
            facts,
            effect_semantics::import_facts(import, intrinsic, tables, alone()),
            effect_semantics::import_facts(import, intrinsic, tables, facts),
        ),
{
    let effects = if intrinsic {
        effect_semantics::import_effects(tables.intrinsics, 0, import, true)
    } else {
        effect_semantics::import_effects(tables.imports, 0, import, false)
    };
    let source = import.module + "."@ + import.name;
    lemma_labelled(facts.direct, effects, 0, source);
    lemma_labelled(alone().direct, effects, 0, source);
    lemma_alone(facts);
    assert(labels_of(alone().direct) =~= Set::empty());
    assert(alone().callees.to_set() =~= Set::empty());
    assert(reach_of(effect_semantics::import_facts(import, intrinsic, tables, facts)) =~= joined(
        reach_of(facts),
        reach_of(effect_semantics::import_facts(import, intrinsic, tables, alone())),
    ));
}

proof fn lemma_callee(facts: FactsView, key: Seq<char>)
    ensures
        adds(
            facts,
            FactsView { callees: effect_semantics::with_text(alone().callees, key), ..alone() },
            FactsView { callees: effect_semantics::with_text(facts.callees, key), ..facts },
        ),
{
    lemma_with_text(facts.callees, key);
    lemma_with_text(alone().callees, key);
    assert(labels_of(alone().direct) =~= Set::empty());
    assert(alone().callees.to_set() =~= Set::empty());
    assert(reach_of(FactsView { callees: effect_semantics::with_text(facts.callees, key), ..facts }) =~= joined(
        reach_of(facts),
        reach_of(FactsView { callees: effect_semantics::with_text(alone().callees, key), ..alone() }),
    ));
}

proof fn lemma_text_place(sorted: Seq<Seq<char>>, from: int, name: Seq<char>)
    requires
        0 <= from <= sorted.len(),
    ensures
        from <= effect_semantics::text_place(sorted, from, name) <= sorted.len(),
    decreases sorted.len() - from,
{
    if from < sorted.len() {
        lemma_text_place(sorted, from + 1, name);
    }
}

proof fn lemma_with_text(sorted: Seq<Seq<char>>, name: Seq<char>)
    ensures
        effect_semantics::with_text(sorted, name).to_set() == sorted.to_set().insert(name),
{
    let place = effect_semantics::text_place(sorted, 0, name);
    lemma_text_place(sorted, 0, name);
    let after = effect_semantics::with_text(sorted, name);
    assert forall|other: Seq<char>| after.contains(other) == (sorted.contains(other) || other == name) by {
        if sorted.contains(other) {
            let k = choose|k: int| 0 <= k < sorted.len() && sorted[k] == other;
            if after != sorted {
                assert(after[if k < place { k } else { k + 1 }] == other);
            }
        }
        if other == name {
            assert(after[place] == name);
        }
        if after.contains(other) && after != sorted {
            let k = choose|k: int| 0 <= k < after.len() && after[k] == other;
            if k != place {
                assert(sorted[if k < place { k } else { k - 1 }] == other);
            }
        }
    }
    assert(after.to_set() =~= sorted.to_set().insert(name));
}

proof fn lemma_expr(expr: ExprView, tables: TablesView, facts: FactsView)
    ensures
        adds(
            facts,
            effect_semantics::expr_facts(expr, tables, alone()),
            effect_semantics::expr_facts(expr, tables, facts),
        ),
    decreases expr, 0int,
{
    match expr {
        ExprView::Value(_) | ExprView::VarRef(_) => lemma_alone(facts),
        ExprView::Mutable(inner) => lemma_expr(*inner, tables, facts),
        ExprView::Reference { target, .. } => lemma_expr(*target, tables, facts),
        ExprView::Call { call, .. } => lemma_call(call, tables, facts),
        ExprView::HostCall { import, args, intrinsic, .. } => {
            let first = effect_semantics::import_facts(import, intrinsic, tables, facts);
            let first_alone = effect_semantics::import_facts(import, intrinsic, tables, alone());
            lemma_import(import, intrinsic, tables, facts);
            lemma_exprs(args, 0, tables, first);
            lemma_exprs(args, 0, tables, first_alone);
            lemma_then(
                facts,
                first_alone,
                first,
                effect_semantics::exprs_facts(args, 0, tables, alone()),
                effect_semantics::exprs_facts(args, 0, tables, first),
                effect_semantics::exprs_facts(args, 0, tables, first_alone),
            );
        }
        ExprView::Primitive { args, .. } => lemma_exprs(args, 0, tables, facts),
        ExprView::Cast { from, .. } => lemma_expr(*from, tables, facts),
        ExprView::PolicyNarrow { from, .. } => lemma_expr(*from, tables, facts),
        ExprView::EnumConstructor { payload, .. } => match payload {
            Some(payload) => lemma_expr(*payload, tables, facts),
            None => lemma_alone(facts),
        },
        ExprView::Record(fields) => lemma_fields(
            fields,
            crate::lowered::field_order::name_order(fields, fields.len() as int),
            0,
            tables,
            facts,
        ),
        ExprView::Tuple(items) => lemma_exprs(items, 0, tables, facts),
        ExprView::Array(items) => lemma_exprs(items, 0, tables, facts),
        ExprView::Mapping(items) => lemma_pairs(items, 0, tables, facts),
        ExprView::Range { start, end, step } => {
            let one = effect_semantics::expr_facts(*start, tables, facts);
            let one_alone = effect_semantics::expr_facts(*start, tables, alone());
            let two = effect_semantics::expr_facts(*end, tables, one);
            let two_alone = effect_semantics::expr_facts(*end, tables, one_alone);
            lemma_expr(*start, tables, facts);
            lemma_expr(*end, tables, one);
            lemma_expr(*end, tables, one_alone);
            lemma_then(facts, one_alone, one, effect_semantics::expr_facts(*end, tables, alone()), two, two_alone);
            lemma_expr(*step, tables, two);
            lemma_expr(*step, tables, two_alone);
            lemma_then(
                facts,
                two_alone,
                two,
                effect_semantics::expr_facts(*step, tables, alone()),
                effect_semantics::expr_facts(*step, tables, two),
                effect_semantics::expr_facts(*step, tables, two_alone),
            );
        }
        ExprView::If { cond, then_e, else_e } => {
            let one = effect_semantics::expr_facts(*cond, tables, facts);
            let one_alone = effect_semantics::expr_facts(*cond, tables, alone());
            let two = effect_semantics::expr_facts(*then_e, tables, one);
            let two_alone = effect_semantics::expr_facts(*then_e, tables, one_alone);
            lemma_expr(*cond, tables, facts);
            lemma_expr(*then_e, tables, one);
            lemma_expr(*then_e, tables, one_alone);
            lemma_then(facts, one_alone, one, effect_semantics::expr_facts(*then_e, tables, alone()), two, two_alone);
            lemma_expr(*else_e, tables, two);
            lemma_expr(*else_e, tables, two_alone);
            lemma_then(
                facts,
                two_alone,
                two,
                effect_semantics::expr_facts(*else_e, tables, alone()),
                effect_semantics::expr_facts(*else_e, tables, two),
                effect_semantics::expr_facts(*else_e, tables, two_alone),
            );
        }
    }
}

proof fn lemma_call(call: CallView, tables: TablesView, facts: FactsView)
    ensures
        adds(
            facts,
            effect_semantics::call_facts(call, tables, alone()),
            effect_semantics::call_facts(call, tables, facts),
        ),
    decreases call, 0int,
{
    let first = effect_semantics::exprs_facts(call.args, 0, tables, facts);
    let first_alone = effect_semantics::exprs_facts(call.args, 0, tables, alone());
    lemma_exprs(call.args, 0, tables, facts);
    lemma_callee(first, call.callee_key);
    lemma_callee(first_alone, call.callee_key);
    lemma_then(
        facts,
        first_alone,
        first,
        FactsView { callees: effect_semantics::with_text(alone().callees, call.callee_key), ..alone() },
        effect_semantics::call_facts(call, tables, facts),
        effect_semantics::call_facts(call, tables, alone()),
    );
}

proof fn lemma_exprs(exprs: Seq<ExprView>, from: int, tables: TablesView, facts: FactsView)
    ensures
        adds(
            facts,
            effect_semantics::exprs_facts(exprs, from, tables, alone()),
            effect_semantics::exprs_facts(exprs, from, tables, facts),
        ),
    decreases exprs, exprs.len() - from,
{
    if from < 0 || from >= exprs.len() {
        lemma_alone(facts);
    } else {
        let first = effect_semantics::expr_facts(exprs[from], tables, facts);
        let first_alone = effect_semantics::expr_facts(exprs[from], tables, alone());
        lemma_expr(exprs[from], tables, facts);
        lemma_exprs(exprs, from + 1, tables, first);
        lemma_exprs(exprs, from + 1, tables, first_alone);
        lemma_then(
            facts,
            first_alone,
            first,
            effect_semantics::exprs_facts(exprs, from + 1, tables, alone()),
            effect_semantics::exprs_facts(exprs, from + 1, tables, first),
            effect_semantics::exprs_facts(exprs, from + 1, tables, first_alone),
        );
    }
}

proof fn lemma_fields(fields: Seq<FieldExprView>, order: Seq<int>, from: int, tables: TablesView, facts: FactsView)
    ensures
        adds(
            facts,
            effect_semantics::fields_facts(fields, order, from, tables, alone()),
            effect_semantics::fields_facts(fields, order, from, tables, facts),
        ),
    decreases fields, order.len() - from,
{
    if from < 0 || from >= order.len() || order[from] < 0 || order[from] >= fields.len() {
        lemma_alone(facts);
    } else {
        let first = effect_semantics::expr_facts(fields[order[from]].value, tables, facts);
        let first_alone = effect_semantics::expr_facts(fields[order[from]].value, tables, alone());
        lemma_expr(fields[order[from]].value, tables, facts);
        lemma_fields(fields, order, from + 1, tables, first);
        lemma_fields(fields, order, from + 1, tables, first_alone);
        lemma_then(
            facts,
            first_alone,
            first,
            effect_semantics::fields_facts(fields, order, from + 1, tables, alone()),
            effect_semantics::fields_facts(fields, order, from + 1, tables, first),
            effect_semantics::fields_facts(fields, order, from + 1, tables, first_alone),
        );
    }
}

proof fn lemma_pairs(items: Seq<(ExprView, ExprView)>, from: int, tables: TablesView, facts: FactsView)
    ensures
        adds(
            facts,
            effect_semantics::pairs_facts(items, from, tables, alone()),
            effect_semantics::pairs_facts(items, from, tables, facts),
        ),
    decreases items, items.len() - from,
{
    if from < 0 || from >= items.len() {
        lemma_alone(facts);
    } else {
        let one = effect_semantics::expr_facts(items[from].0, tables, facts);
        let one_alone = effect_semantics::expr_facts(items[from].0, tables, alone());
        let first = effect_semantics::expr_facts(items[from].1, tables, one);
        let first_alone = effect_semantics::expr_facts(items[from].1, tables, one_alone);
        lemma_expr(items[from].0, tables, facts);
        lemma_expr(items[from].1, tables, one);
        lemma_expr(items[from].1, tables, one_alone);
        lemma_then(
            facts,
            one_alone,
            one,
            effect_semantics::expr_facts(items[from].1, tables, alone()),
            first,
            first_alone,
        );
        lemma_pairs(items, from + 1, tables, first);
        lemma_pairs(items, from + 1, tables, first_alone);
        lemma_then(
            facts,
            first_alone,
            first,
            effect_semantics::pairs_facts(items, from + 1, tables, alone()),
            effect_semantics::pairs_facts(items, from + 1, tables, first),
            effect_semantics::pairs_facts(items, from + 1, tables, first_alone),
        );
    }
}

/// An expression and then a body.
proof fn lemma_guarded(guard: ExprView, body: Seq<StatementView>, tables: TablesView, facts: FactsView)
    ensures
        adds(
            facts,
            effect_semantics::body_facts(body, 0, tables, effect_semantics::expr_facts(guard, tables, alone())),
            effect_semantics::body_facts(body, 0, tables, effect_semantics::expr_facts(guard, tables, facts)),
        ),
    decreases body, body.len() + 1,
{
    let first = effect_semantics::expr_facts(guard, tables, facts);
    let first_alone = effect_semantics::expr_facts(guard, tables, alone());
    lemma_expr(guard, tables, facts);
    lemma_body(body, 0, tables, first);
    lemma_body(body, 0, tables, first_alone);
    lemma_then(
        facts,
        first_alone,
        first,
        effect_semantics::body_facts(body, 0, tables, alone()),
        effect_semantics::body_facts(body, 0, tables, first),
        effect_semantics::body_facts(body, 0, tables, first_alone),
    );
}

proof fn lemma_statement(statement: StatementView, tables: TablesView, facts: FactsView)
    ensures
        adds(
            facts,
            effect_semantics::statement_facts(statement, tables, alone()),
            effect_semantics::statement_facts(statement, tables, facts),
        ),
    decreases statement, 0int,
{
    match statement {
        StatementView::Call(call) => lemma_call(call, tables, facts),
        StatementView::Let { value, .. } => match value {
            LetValueView::Call(call) => lemma_call(call, tables, facts),
            LetValueView::Expr(expr) => lemma_expr(expr, tables, facts),
        },
        StatementView::Assign { value, .. } => lemma_expr(value, tables, facts),
        StatementView::Return(value) => lemma_expr(value, tables, facts),
        StatementView::Eval(value) => lemma_expr(value, tables, facts),
        StatementView::Match { target, arms } => {
            let first = effect_semantics::expr_facts(target, tables, facts);
            let first_alone = effect_semantics::expr_facts(target, tables, alone());
            lemma_expr(target, tables, facts);
            lemma_arms(arms, 0, tables, first);
            lemma_arms(arms, 0, tables, first_alone);
            lemma_then(
                facts,
                first_alone,
                first,
                effect_semantics::arms_facts(arms, 0, tables, alone()),
                effect_semantics::arms_facts(arms, 0, tables, first),
                effect_semantics::arms_facts(arms, 0, tables, first_alone),
            );
        }
        StatementView::If { cond, then_body, else_body } => {
            let first = effect_semantics::body_facts(
                then_body,
                0,
                tables,
                effect_semantics::expr_facts(cond, tables, facts),
            );
            let first_alone = effect_semantics::body_facts(
                then_body,
                0,
                tables,
                effect_semantics::expr_facts(cond, tables, alone()),
            );
            lemma_guarded(cond, then_body, tables, facts);
            lemma_body(else_body, 0, tables, first);
            lemma_body(else_body, 0, tables, first_alone);
            lemma_then(
                facts,
                first_alone,
                first,
                effect_semantics::body_facts(else_body, 0, tables, alone()),
                effect_semantics::body_facts(else_body, 0, tables, first),
                effect_semantics::body_facts(else_body, 0, tables, first_alone),
            );
        }
        StatementView::While { cond, body } => lemma_guarded(cond, body, tables, facts),
        StatementView::For { source, body, .. } => lemma_guarded(source, body, tables, facts),
        StatementView::Task { body, .. } => lemma_body(body, 0, tables, facts),
        StatementView::Spawn { value, .. } => lemma_expr(value, tables, facts),
        StatementView::Join { .. } | StatementView::Break | StatementView::Continue => lemma_alone(facts),
    }
}

proof fn lemma_body(body: Seq<StatementView>, from: int, tables: TablesView, facts: FactsView)
    ensures
        adds(
            facts,
            effect_semantics::body_facts(body, from, tables, alone()),
            effect_semantics::body_facts(body, from, tables, facts),
        ),
    decreases body, body.len() - from,
{
    if from < 0 || from >= body.len() {
        lemma_alone(facts);
    } else {
        let first = effect_semantics::statement_facts(body[from], tables, facts);
        let first_alone = effect_semantics::statement_facts(body[from], tables, alone());
        lemma_statement(body[from], tables, facts);
        lemma_body(body, from + 1, tables, first);
        lemma_body(body, from + 1, tables, first_alone);
        lemma_then(
            facts,
            first_alone,
            first,
            effect_semantics::body_facts(body, from + 1, tables, alone()),
            effect_semantics::body_facts(body, from + 1, tables, first),
            effect_semantics::body_facts(body, from + 1, tables, first_alone),
        );
    }
}

proof fn lemma_arms(arms: Seq<MatchArmView>, from: int, tables: TablesView, facts: FactsView)
    ensures
        adds(
            facts,
            effect_semantics::arms_facts(arms, from, tables, alone()),
            effect_semantics::arms_facts(arms, from, tables, facts),
        ),
    decreases arms, arms.len() - from,
{
    if from < 0 || from >= arms.len() {
        lemma_alone(facts);
    } else {
        let first = effect_semantics::body_facts(arms[from].body, 0, tables, facts);
        let first_alone = effect_semantics::body_facts(arms[from].body, 0, tables, alone());
        lemma_body(arms[from].body, 0, tables, facts);
        lemma_arms(arms, from + 1, tables, first);
        lemma_arms(arms, from + 1, tables, first_alone);
        lemma_then(
            facts,
            first_alone,
            first,
            effect_semantics::arms_facts(arms, from + 1, tables, alone()),
            effect_semantics::arms_facts(arms, from + 1, tables, first),
            effect_semantics::arms_facts(arms, from + 1, tables, first_alone),
        );
    }
}

proof fn lemma_bodies(
    first: Seq<StatementView>,
    second: Seq<StatementView>,
    from: int,
    tables: TablesView,
    facts: FactsView,
)
    requires
        0 <= from <= first.len() + second.len(),
    ensures
        effect_semantics::body_facts(first + second, from, tables, facts) == (if from <= first.len() {
            effect_semantics::body_facts(second, 0, tables, effect_semantics::body_facts(first, from, tables, facts))
        } else {
            effect_semantics::body_facts(second, from - first.len(), tables, facts)
        }),
    decreases first.len() + second.len() - from,
{
    let both = first + second;
    if from < both.len() {
        let next = effect_semantics::statement_facts(both[from], tables, facts);
        lemma_bodies(first, second, from + 1, tables, next);
        if from < first.len() {
            assert(both[from] == first[from]);
        } else {
            assert(both[from] == second[from - first.len()]);
            assert(effect_semantics::body_facts(first, from, tables, facts) == facts);
            assert(effect_semantics::body_facts(first, first.len() as int, tables, next) == next);
        }
    }
}

// Effects of bodies.

/// The effects that were inferred for a called function.
pub open spec fn known_effects(keys: Seq<Seq<char>>, inferred: Seq<Seq<WitnessView>>, callee: Seq<char>) -> Set<
    EffectLabelView,
> {
    let node = effect_semantics::node_from(keys, 0, callee);
    if 0 <= node < inferred.len() {
        labels_of(inferred[node])
    } else {
        Set::empty()
    }
}

/// The labels of the effects that are inferred for a body.
pub open spec fn body_labels(
    body: Seq<StatementView>,
    tables: TablesView,
    keys: Seq<Seq<char>>,
    inferred: Seq<Seq<WitnessView>>,
) -> Set<EffectLabelView> {
    labels_of(
        crate::effect_inference::body_effects(
            effect_semantics::body_facts(body, 0, tables, effect_semantics::no_facts()),
            keys,
            inferred,
        ),
    )
}

pub open spec fn called_labels(keys: Seq<Seq<char>>, inferred: Seq<Seq<WitnessView>>, callees: Set<Seq<char>>) -> Set<
    EffectLabelView,
> {
    Set::new(
        |label: EffectLabelView|
            exists|callee: Seq<char>| #[trigger]
                callees.contains(callee) && known_effects(keys, inferred, callee).contains(label),
    )
}

proof fn lemma_merged_call(list: Seq<WitnessView>, more: Seq<WitnessView>, from: int, source: Seq<char>)
    requires
        0 <= from,
    ensures
        forall|label: EffectLabelView| #[trigger]
            effect_semantics::performs(effect_semantics::merged_call(list, more, from, source), label) == (
            effect_semantics::performs(list, label) || effect_semantics::performs_from(more, from, label)),
    decreases more.len() - from,
{
    if from < more.len() {
        let next = effect_semantics::recorded(list, more[from].label, source);
        effect_semantics::lemma_recorded(list, more[from].label, source);
        lemma_merged_call(next, more, from + 1, source);
        assert forall|label: EffectLabelView| #[trigger]
            effect_semantics::performs(effect_semantics::merged_call(list, more, from, source), label) == (
            effect_semantics::performs(list, label) || effect_semantics::performs_from(more, from, label)) by {
            effect_semantics::lemma_performs_step(more, from, label);
            assert(effect_semantics::performs(
                effect_semantics::merged_call(next, more, from + 1, source),
                label,
            ) == (effect_semantics::performs(next, label) || effect_semantics::performs_from(more, from + 1, label)));
            assert(effect_semantics::performs(next, label) == (effect_semantics::performs(list, label) || label
                == more[from].label));
        }
    }
}

proof fn lemma_called(
    keys: Seq<Seq<char>>,
    inferred: Seq<Seq<WitnessView>>,
    callees: Seq<Seq<char>>,
    from: int,
    list: Seq<WitnessView>,
)
    requires
        0 <= from <= callees.len(),
    ensures
        labels_of(effect_semantics::called_effects(keys, inferred, callees, from, list)) == labels_of(list).union(
            called_labels(keys, inferred, callees.skip(from).to_set()),
        ),
    decreases callees.len() - from,
{
    let rest = callees.skip(from);
    if from < callees.len() {
        let node = effect_semantics::node_from(keys, 0, callees[from]);
        let next = if 0 <= node < inferred.len() {
            effect_semantics::merged_call(list, inferred[node], 0, callees[from])
        } else {
            list
        };
        lemma_called(keys, inferred, callees, from + 1, next);
        if 0 <= node < inferred.len() {
            lemma_merged_call(list, inferred[node], 0, callees[from]);
        }
        assert(labels_of(next) =~= labels_of(list).union(known_effects(keys, inferred, callees[from]))) by {
            if 0 <= node < inferred.len() {
                assert forall|label: EffectLabelView| effect_semantics::performs_from(inferred[node], 0, label)
                    == effect_semantics::performs(inferred[node], label) by {}
            }
        }
        let later = callees.skip(from + 1);
        assert(called_labels(keys, inferred, rest.to_set()) =~= known_effects(keys, inferred, callees[from]).union(
            called_labels(keys, inferred, later.to_set()),
        )) by {
            assert(rest[0] == callees[from]);
            assert(rest.to_set().contains(callees[from]));
            assert forall|callee: Seq<char>| later.to_set().contains(callee) implies rest.to_set().contains(callee) by {
                let k = choose|k: int| 0 <= k < later.len() && later[k] == callee;
                assert(rest[k + 1] == callee);
            }
            assert forall|callee: Seq<char>| rest.to_set().contains(callee) && callee != callees[from] implies later.to_set().contains(
                callee,
            ) by {
                let k = choose|k: int| 0 <= k < rest.len() && rest[k] == callee;
                assert(later[k - 1] == callee);
            }
        }
        assert(labels_of(list).union(known_effects(keys, inferred, callees[from])).union(
            called_labels(keys, inferred, later.to_set()),
        ) =~= labels_of(list).union(called_labels(keys, inferred, rest.to_set())));
    } else {
        assert(called_labels(keys, inferred, rest.to_set()) =~= Set::empty());
        assert(labels_of(list).union(Set::empty()) =~= labels_of(list));
    }
}

/// What a body reaches decides its effects.
proof fn lemma_reach(facts: FactsView, keys: Seq<Seq<char>>, inferred: Seq<Seq<WitnessView>>)
    ensures
        labels_of(crate::effect_inference::body_effects(facts, keys, inferred)) == reach_of(facts).labels.union(
            called_labels(keys, inferred, reach_of(facts).callees),
        ),
{
    lemma_called(keys, inferred, facts.callees, 0, facts.direct);
    assert(facts.callees.skip(0) =~= facts.callees);
}

/// The effects of two bodies one after the other are those of both.
pub proof fn law_bodies_add_up(
    first: Seq<StatementView>,
    second: Seq<StatementView>,
    tables: TablesView,
    keys: Seq<Seq<char>>,
    inferred: Seq<Seq<WitnessView>>,
)
    ensures
        body_labels(first + second, tables, keys, inferred) == body_labels(first, tables, keys, inferred).union(
            body_labels(second, tables, keys, inferred),
        ),
{
    let one = effect_semantics::body_facts(first, 0, tables, alone());
    let two = effect_semantics::body_facts(second, 0, tables, alone());
    let both = effect_semantics::body_facts(first + second, 0, tables, alone());
    lemma_bodies(first, second, 0, tables, alone());
    lemma_body(second, 0, tables, one);
    lemma_reach(one, keys, inferred);
    lemma_reach(two, keys, inferred);
    lemma_reach(both, keys, inferred);
    let left = reach_of(one);
    let right = reach_of(two);
    assert(reach_of(both) == joined(left, right));
    assert(called_labels(keys, inferred, left.callees.union(right.callees)) =~= called_labels(
        keys,
        inferred,
        left.callees,
    ).union(called_labels(keys, inferred, right.callees))) by {
        let all = left.callees.union(right.callees);
        assert forall|callee: Seq<char>| left.callees.contains(callee) || right.callees.contains(callee) implies all.contains(
            callee,
        ) by {}
        assert forall|label: EffectLabelView| #[trigger]
            called_labels(keys, inferred, all).contains(label) implies called_labels(keys, inferred, left.callees).contains(
            label,
        ) || called_labels(keys, inferred, right.callees).contains(label) by {
            let callee = choose|callee: Seq<char>| #[trigger]
                all.contains(callee) && known_effects(keys, inferred, callee).contains(label);
            assert(left.callees.contains(callee) || right.callees.contains(callee));
        }
        assert forall|label: EffectLabelView| #[trigger]
            called_labels(keys, inferred, left.callees).contains(label) implies called_labels(
            keys,
            inferred,
            all,
        ).contains(label) by {
            let callee = choose|callee: Seq<char>| #[trigger]
                left.callees.contains(callee) && known_effects(keys, inferred, callee).contains(label);
            assert(all.contains(callee));
        }
        assert forall|label: EffectLabelView| #[trigger]
            called_labels(keys, inferred, right.callees).contains(label) implies called_labels(
            keys,
            inferred,
            all,
        ).contains(label) by {
            let callee = choose|callee: Seq<char>| #[trigger]
                right.callees.contains(callee) && known_effects(keys, inferred, callee).contains(label);
            assert(all.contains(callee));
        }
    }
    assert(body_labels(first + second, tables, keys, inferred) =~= body_labels(first, tables, keys, inferred).union(
        body_labels(second, tables, keys, inferred),
    ));
}

/// An empty body has no effects.
pub proof fn law_empty_body_has_no_effects(tables: TablesView, keys: Seq<Seq<char>>, inferred: Seq<Seq<WitnessView>>)
    ensures
        body_labels(Seq::empty(), tables, keys, inferred) == Set::<EffectLabelView>::empty(),
{
    lemma_reach(alone(), keys, inferred);
    assert(effect_semantics::body_facts(Seq::empty(), 0, tables, alone()) == alone());
    assert(body_labels(Seq::empty(), tables, keys, inferred) =~= Set::<EffectLabelView>::empty());
}

/// A task has the effects of its body.
pub proof fn law_task_has_the_effects_of_its_body(
    task: StatementView,
    tables: TablesView,
    keys: Seq<Seq<char>>,
    inferred: Seq<Seq<WitnessView>>,
)
    requires
        task is Task,
    ensures
        body_labels(seq![task], tables, keys, inferred) == body_labels(task->Task_body, tables, keys, inferred),
{
    let facts = effect_semantics::statement_facts(task, tables, alone());
    assert(effect_semantics::body_facts(seq![task], 1, tables, facts) == facts);
    assert(effect_semantics::body_facts(seq![task], 0, tables, alone()) == facts);
}

/// The statements that evaluate expressions one after the other.
pub open spec fn evaluations(exprs: Seq<ExprView>) -> Seq<StatementView> {
    exprs.map_values(|expr: ExprView| StatementView::Eval(expr))
}

proof fn lemma_evaluations(exprs: Seq<ExprView>, from: int, tables: TablesView, facts: FactsView)
    ensures
        effect_semantics::body_facts(evaluations(exprs), from, tables, facts) == effect_semantics::exprs_facts(
            exprs,
            from,
            tables,
            facts,
        ),
    decreases exprs.len() - from,
{
    if 0 <= from < exprs.len() {
        let statement = StatementView::Eval(exprs[from]);
        assert(evaluations(exprs)[from] == statement);
        assert(effect_semantics::statement_facts(statement, tables, facts) == effect_semantics::expr_facts(
            exprs[from],
            tables,
            facts,
        ));
        lemma_evaluations(exprs, from + 1, tables, effect_semantics::expr_facts(exprs[from], tables, facts));
    }
}

proof fn lemma_one_more_callee(
    keys: Seq<Seq<char>>,
    inferred: Seq<Seq<WitnessView>>,
    callees: Set<Seq<char>>,
    callee: Seq<char>,
)
    ensures
        called_labels(keys, inferred, callees.insert(callee)) == called_labels(keys, inferred, callees).union(
            known_effects(keys, inferred, callee),
        ),
{
    let all = callees.insert(callee);
    let left = called_labels(keys, inferred, all);
    let right = called_labels(keys, inferred, callees).union(known_effects(keys, inferred, callee));
    assert forall|label: EffectLabelView| #[trigger] left.contains(label) implies right.contains(label) by {
        let other = choose|other: Seq<char>| #[trigger]
            all.contains(other) && known_effects(keys, inferred, other).contains(label);
        assert(other == callee || callees.contains(other));
    }
    assert forall|label: EffectLabelView| #[trigger] right.contains(label) implies left.contains(label) by {
        if known_effects(keys, inferred, callee).contains(label) {
            assert(all.contains(callee));
        } else {
            let other = choose|other: Seq<char>| #[trigger]
                callees.contains(other) && known_effects(keys, inferred, other).contains(label);
            assert(all.contains(other));
        }
    }
    assert(left =~= right);
}

/// A call has the effects of its arguments and those that were inferred for the
/// function it calls, and no others.
pub proof fn law_call_has_the_effects_of_its_callee(
    call: CallView,
    tables: TablesView,
    keys: Seq<Seq<char>>,
    inferred: Seq<Seq<WitnessView>>,
)
    ensures
        body_labels(seq![StatementView::Call(call)], tables, keys, inferred) == body_labels(
            evaluations(call.args),
            tables,
            keys,
            inferred,
        ).union(known_effects(keys, inferred, call.callee_key)),
{
    let statement = StatementView::Call(call);
    let facts = effect_semantics::call_facts(call, tables, alone());
    assert(effect_semantics::statement_facts(statement, tables, alone()) == facts);
    assert(effect_semantics::body_facts(seq![statement], 1, tables, facts) == facts);
    assert(seq![statement][0] == statement);
    assert(effect_semantics::body_facts(seq![statement], 0, tables, alone()) == facts);
    let arguments = effect_semantics::exprs_facts(call.args, 0, tables, alone());
    lemma_evaluations(call.args, 0, tables, alone());
    lemma_reach(facts, keys, inferred);
    lemma_reach(arguments, keys, inferred);
    lemma_with_text(arguments.callees, call.callee_key);
    lemma_one_more_callee(keys, inferred, arguments.callees.to_set(), call.callee_key);
    assert(body_labels(seq![statement], tables, keys, inferred) =~= body_labels(
        evaluations(call.args),
        tables,
        keys,
        inferred,
    ).union(known_effects(keys, inferred, call.callee_key)));
}

// Statements and expressions.

/// The statement of an expression.
pub open spec fn evaluation(expr: ExprView) -> Seq<StatementView> {
    seq![StatementView::Eval(expr)]
}

proof fn lemma_single(statement: StatementView, tables: TablesView, facts: FactsView)
    ensures
        effect_semantics::body_facts(seq![statement], 0, tables, facts) == effect_semantics::statement_facts(
            statement,
            tables,
            facts,
        ),
{
    let after = effect_semantics::statement_facts(statement, tables, facts);
    assert(seq![statement][0] == statement);
    assert(effect_semantics::body_facts(seq![statement], 1, tables, after) == after);
}

proof fn lemma_two_bodies(
    first: Seq<StatementView>,
    second: Seq<StatementView>,
    tables: TablesView,
    facts: FactsView,
)
    ensures
        effect_semantics::body_facts(first + second, 0, tables, facts) == effect_semantics::body_facts(
            second,
            0,
            tables,
            effect_semantics::body_facts(first, 0, tables, facts),
        ),
{
    lemma_bodies(first, second, 0, tables, facts);
}

/// An `if` has the effects of its condition and of both of its branches, and no
/// others.
pub proof fn law_if_has_the_effects_of_both_branches(
    cond: ExprView,
    first: Seq<StatementView>,
    second: Seq<StatementView>,
    tables: TablesView,
    keys: Seq<Seq<char>>,
    inferred: Seq<Seq<WitnessView>>,
)
    ensures
        body_labels(
            seq![StatementView::If { cond, then_body: first, else_body: second }],
            tables,
            keys,
            inferred,
        ) == body_labels(evaluation(cond), tables, keys, inferred).union(
            body_labels(first, tables, keys, inferred),
        ).union(body_labels(second, tables, keys, inferred)),
{
    let statement = StatementView::If { cond, then_body: first, else_body: second };
    let parts = evaluation(cond) + first + second;
    lemma_single(statement, tables, alone());
    lemma_single(StatementView::Eval(cond), tables, alone());
    lemma_two_bodies(evaluation(cond) + first, second, tables, alone());
    lemma_two_bodies(evaluation(cond), first, tables, alone());
    assert(effect_semantics::body_facts(seq![statement], 0, tables, alone()) == effect_semantics::body_facts(
        parts,
        0,
        tables,
        alone(),
    ));
    law_bodies_add_up(evaluation(cond) + first, second, tables, keys, inferred);
    law_bodies_add_up(evaluation(cond), first, tables, keys, inferred);
}

/// A loop has the effects of what it tests or goes through and those of its body, and
/// no others.
pub proof fn law_loops_have_the_effects_of_their_parts(
    var: Seq<char>,
    operand: ExprView,
    body: Seq<StatementView>,
    tables: TablesView,
    keys: Seq<Seq<char>>,
    inferred: Seq<Seq<WitnessView>>,
)
    ensures
        body_labels(seq![StatementView::While { cond: operand, body }], tables, keys, inferred) == body_labels(
            evaluation(operand),
            tables,
            keys,
            inferred,
        ).union(body_labels(body, tables, keys, inferred)),
        body_labels(seq![StatementView::For { var, source: operand, body }], tables, keys, inferred) == body_labels(
            evaluation(operand),
            tables,
            keys,
            inferred,
        ).union(body_labels(body, tables, keys, inferred)),
{
    let looping = StatementView::While { cond: operand, body };
    let each = StatementView::For { var, source: operand, body };
    lemma_single(looping, tables, alone());
    lemma_single(each, tables, alone());
    lemma_single(StatementView::Eval(operand), tables, alone());
    lemma_two_bodies(evaluation(operand), body, tables, alone());
    law_bodies_add_up(evaluation(operand), body, tables, keys, inferred);
}

/// The bodies of the arms from a place on, one after the other.
pub open spec fn arm_bodies(arms: Seq<MatchArmView>, from: int) -> Seq<StatementView>
    decreases arms.len() - from,
{
    if from < 0 || from >= arms.len() {
        Seq::empty()
    } else {
        arms[from].body + arm_bodies(arms, from + 1)
    }
}

proof fn lemma_arm_bodies(arms: Seq<MatchArmView>, from: int, tables: TablesView, facts: FactsView)
    ensures
        effect_semantics::arms_facts(arms, from, tables, facts) == effect_semantics::body_facts(
            arm_bodies(arms, from),
            0,
            tables,
            facts,
        ),
    decreases arms.len() - from,
{
    if 0 <= from < arms.len() {
        lemma_two_bodies(arms[from].body, arm_bodies(arms, from + 1), tables, facts);
        lemma_arm_bodies(
            arms,
            from + 1,
            tables,
            effect_semantics::body_facts(arms[from].body, 0, tables, facts),
        );
    }
}

proof fn lemma_arm_labels(
    arms: Seq<MatchArmView>,
    from: int,
    tables: TablesView,
    keys: Seq<Seq<char>>,
    inferred: Seq<Seq<WitnessView>>,
)
    requires
        0 <= from <= arms.len(),
    ensures
        forall|label: EffectLabelView| #[trigger]
            body_labels(arm_bodies(arms, from), tables, keys, inferred).contains(label) == exists|i: int|
                from <= i < arms.len() && body_labels((#[trigger] arms[i]).body, tables, keys, inferred).contains(label),
    decreases arms.len() - from,
{
    if from < arms.len() {
        law_bodies_add_up(arms[from].body, arm_bodies(arms, from + 1), tables, keys, inferred);
        lemma_arm_labels(arms, from + 1, tables, keys, inferred);
        assert forall|label: EffectLabelView| #[trigger]
            body_labels(arm_bodies(arms, from), tables, keys, inferred).contains(label) == exists|i: int|
                from <= i < arms.len() && body_labels((#[trigger] arms[i]).body, tables, keys, inferred).contains(label) by {
            if body_labels(arms[from].body, tables, keys, inferred).contains(label) {
                assert(from <= from < arms.len());
            } else if body_labels(arm_bodies(arms, from + 1), tables, keys, inferred).contains(label) {
                let i = choose|i: int|
                    from + 1 <= i < arms.len() && body_labels((#[trigger] arms[i]).body, tables, keys, inferred).contains(
                        label,
                    );
                assert(from <= i);
            }
            if exists|i: int|
                from <= i < arms.len() && body_labels((#[trigger] arms[i]).body, tables, keys, inferred).contains(label) {
                let i = choose|i: int|
                    from <= i < arms.len() && body_labels((#[trigger] arms[i]).body, tables, keys, inferred).contains(label);
                if i > from {
                    assert(from + 1 <= i);
                }
            }
        }
    } else {
        law_empty_body_has_no_effects(tables, keys, inferred);
    }
}

/// A `match` has the effects of what it takes apart and those of all of its arms, and
/// no others.
pub proof fn law_match_has_the_effects_of_all_arms(
    target: ExprView,
    arms: Seq<MatchArmView>,
    tables: TablesView,
    keys: Seq<Seq<char>>,
    inferred: Seq<Seq<WitnessView>>,
    label: EffectLabelView,
)
    ensures
        body_labels(seq![StatementView::Match { target, arms }], tables, keys, inferred).contains(label) == (
        body_labels(evaluation(target), tables, keys, inferred).contains(label) || exists|i: int|
            0 <= i < arms.len() && body_labels((#[trigger] arms[i]).body, tables, keys, inferred).contains(label)),
{
    let statement = StatementView::Match { target, arms };
    lemma_single(statement, tables, alone());
    lemma_single(StatementView::Eval(target), tables, alone());
    lemma_two_bodies(evaluation(target), arm_bodies(arms, 0), tables, alone());
    lemma_arm_bodies(arms, 0, tables, effect_semantics::expr_facts(target, tables, alone()));
    law_bodies_add_up(evaluation(target), arm_bodies(arms, 0), tables, keys, inferred);
    lemma_arm_labels(arms, 0, tables, keys, inferred);
}

/// Binding, assigning, returning and spawning a value have the effects of the value;
/// joining, breaking and continuing have none.
pub proof fn law_statements_have_the_effects_of_their_value(
    var: Seq<char>,
    captures: Seq<Seq<char>>,
    value: ExprView,
    call: CallView,
    tables: TablesView,
    keys: Seq<Seq<char>>,
    inferred: Seq<Seq<WitnessView>>,
)
    ensures
        ({
            let labels = body_labels(evaluation(value), tables, keys, inferred);
            &&& body_labels(
                seq![StatementView::Let { var, value: LetValueView::Expr(value) }],
                tables,
                keys,
                inferred,
            ) == labels
            &&& body_labels(seq![StatementView::Assign { var, value }], tables, keys, inferred) == labels
            &&& body_labels(seq![StatementView::Return(value)], tables, keys, inferred) == labels
            &&& body_labels(seq![StatementView::Spawn { handle: var, captures, value }], tables, keys, inferred)
                == labels
        }),
        body_labels(seq![StatementView::Let { var, value: LetValueView::Call(call) }], tables, keys, inferred)
            == body_labels(seq![StatementView::Call(call)], tables, keys, inferred),
        body_labels(seq![StatementView::Join { handle: var, var }], tables, keys, inferred) == Set::<
            EffectLabelView,
        >::empty(),
        body_labels(seq![StatementView::Break], tables, keys, inferred) == Set::<EffectLabelView>::empty(),
        body_labels(seq![StatementView::Continue], tables, keys, inferred) == Set::<EffectLabelView>::empty(),
{
    lemma_single(StatementView::Eval(value), tables, alone());
    lemma_single(StatementView::Let { var, value: LetValueView::Expr(value) }, tables, alone());
    lemma_single(StatementView::Let { var, value: LetValueView::Call(call) }, tables, alone());
    lemma_single(StatementView::Call(call), tables, alone());
    lemma_single(StatementView::Assign { var, value }, tables, alone());
    lemma_single(StatementView::Return(value), tables, alone());
    lemma_single(StatementView::Spawn { handle: var, captures, value }, tables, alone());
    lemma_single(StatementView::Join { handle: var, var }, tables, alone());
    lemma_single(StatementView::Break, tables, alone());
    lemma_single(StatementView::Continue, tables, alone());
    law_empty_body_has_no_effects(tables, keys, inferred);
    assert(effect_semantics::body_facts(Seq::empty(), 0, tables, alone()) == alone());
}

/// The expressions that an expression is made of.
pub open spec fn parts_of(expr: ExprView) -> Seq<ExprView> {
    match expr {
        ExprView::Value(_) | ExprView::VarRef(_) => Seq::empty(),
        ExprView::Mutable(inner) => seq![*inner],
        ExprView::Reference { target, .. } => seq![*target],
        ExprView::Call { call, .. } => call.args,
        ExprView::HostCall { args, .. } => args,
        ExprView::Primitive { args, .. } => args,
        ExprView::Cast { from, .. } => seq![*from],
        ExprView::PolicyNarrow { from, .. } => seq![*from],
        ExprView::EnumConstructor { payload, .. } => match payload {
            Some(payload) => seq![*payload],
            None => Seq::empty(),
        },
        ExprView::Record(fields) => Seq::new(fields.len(), |i: int| fields[i].value),
        ExprView::Tuple(items) => items,
        ExprView::Array(items) => items,
        ExprView::Mapping(items) => Seq::new(2 * items.len(), |i: int| if i % 2 == 0 { items[i / 2].0 } else { items[i / 2].1 }),
        ExprView::Range { start, end, step } => seq![*start, *end, *step],
        ExprView::If { cond, then_e, else_e } => seq![*cond, *then_e, *else_e],
    }
}

/// The effects of an expression itself: those of the import or of the function that
/// it calls.
pub open spec fn own_labels(
    expr: ExprView,
    tables: TablesView,
    keys: Seq<Seq<char>>,
    inferred: Seq<Seq<WitnessView>>,
) -> Set<EffectLabelView> {
    match expr {
        ExprView::Call { call, .. } => known_effects(keys, inferred, call.callee_key),
        ExprView::HostCall { import, intrinsic, .. } => (if intrinsic {
            effect_semantics::import_effects(tables.intrinsics, 0, import, true)
        } else {
            effect_semantics::import_effects(tables.imports, 0, import, false)
        }).to_set(),
        _ => Set::empty(),
    }
}

proof fn lemma_one_part(expr: ExprView, tables: TablesView, facts: FactsView)
    ensures
        effect_semantics::exprs_facts(seq![expr], 0, tables, facts) == effect_semantics::expr_facts(expr, tables, facts),
{
    let after = effect_semantics::expr_facts(expr, tables, facts);
    assert(seq![expr][0] == expr);
    assert(effect_semantics::exprs_facts(seq![expr], 1, tables, after) == after);
}

proof fn lemma_three_parts(one: ExprView, two: ExprView, three: ExprView, tables: TablesView, facts: FactsView)
    ensures
        effect_semantics::exprs_facts(seq![one, two, three], 0, tables, facts) == effect_semantics::expr_facts(
            three,
            tables,
            effect_semantics::expr_facts(two, tables, effect_semantics::expr_facts(one, tables, facts)),
        ),
{
    let all = seq![one, two, three];
    let first = effect_semantics::expr_facts(one, tables, facts);
    let second = effect_semantics::expr_facts(two, tables, first);
    let third = effect_semantics::expr_facts(three, tables, second);
    assert(all[0] == one && all[1] == two && all[2] == three);
    assert(effect_semantics::exprs_facts(all, 3, tables, third) == third);
    assert(effect_semantics::exprs_facts(all, 2, tables, second) == third);
    assert(effect_semantics::exprs_facts(all, 1, tables, first) == third);
}

proof fn lemma_entry_parts(
    items: Seq<(ExprView, ExprView)>,
    from: int,
    tables: TablesView,
    facts: FactsView,
)
    requires
        0 <= from <= items.len(),
    ensures
        effect_semantics::pairs_facts(items, from, tables, facts) == effect_semantics::exprs_facts(
            parts_of(ExprView::Mapping(items)),
            2 * from,
            tables,
            facts,
        ),
    decreases items.len() - from,
{
    let all = parts_of(ExprView::Mapping(items));
    if from < items.len() {
        let first = effect_semantics::expr_facts(items[from].0, tables, facts);
        let second = effect_semantics::expr_facts(items[from].1, tables, first);
        assert((2 * from) % 2 == 0 && (2 * from) / 2 == from && (2 * from + 1) % 2 == 1 && (2 * from + 1) / 2 == from);
        assert(all[2 * from] == items[from].0);
        assert(all[2 * from + 1] == items[from].1);
        lemma_entry_parts(items, from + 1, tables, second);
        assert(effect_semantics::exprs_facts(all, 2 * from + 1, tables, first) == effect_semantics::exprs_facts(
            all,
            2 * from + 2,
            tables,
            second,
        ));
    }
}

/// The expressions of the fields in an order.
pub open spec fn ordered_values(fields: Seq<FieldExprView>, order: Seq<int>) -> Seq<ExprView> {
    Seq::new(order.len(), |i: int| fields[order[i]].value)
}

proof fn lemma_ordered(
    fields: Seq<FieldExprView>,
    order: Seq<int>,
    from: int,
    tables: TablesView,
    facts: FactsView,
)
    requires
        0 <= from <= order.len(),
        forall|i: int| 0 <= i < order.len() ==> 0 <= #[trigger] order[i] < fields.len(),
    ensures
        effect_semantics::fields_facts(fields, order, from, tables, facts) == effect_semantics::exprs_facts(
            ordered_values(fields, order),
            from,
            tables,
            facts,
        ),
    decreases order.len() - from,
{
    if from < order.len() {
        assert(ordered_values(fields, order)[from] == fields[order[from]].value);
        lemma_ordered(
            fields,
            order,
            from + 1,
            tables,
            effect_semantics::expr_facts(fields[order[from]].value, tables, facts),
        );
    }
}

/// What expressions one after the other reach is what any of them reaches.
proof fn lemma_any_part(
    exprs: Seq<ExprView>,
    tables: TablesView,
    keys: Seq<Seq<char>>,
    inferred: Seq<Seq<WitnessView>>,
)
    ensures
        forall|label: EffectLabelView| #[trigger]
            body_labels(evaluations(exprs), tables, keys, inferred).contains(label) == exists|i: int|
                0 <= i < exprs.len() && body_labels(evaluation(#[trigger] exprs[i]), tables, keys, inferred).contains(
                    label,
                ),
    decreases exprs.len(),
{
    if exprs.len() > 0 {
        let rest = exprs.drop_last();
        lemma_any_part(rest, tables, keys, inferred);
        assert(evaluations(exprs) =~= evaluations(rest) + evaluation(exprs.last()));
        law_bodies_add_up(evaluations(rest), evaluation(exprs.last()), tables, keys, inferred);
        assert forall|label: EffectLabelView| #[trigger]
            body_labels(evaluations(exprs), tables, keys, inferred).contains(label) == exists|i: int|
                0 <= i < exprs.len() && body_labels(evaluation(#[trigger] exprs[i]), tables, keys, inferred).contains(
                    label,
                ) by {
            if body_labels(evaluations(rest), tables, keys, inferred).contains(label) {
                let i = choose|i: int|
                    0 <= i < rest.len() && body_labels(evaluation(#[trigger] rest[i]), tables, keys, inferred).contains(
                        label,
                    );
                assert(exprs[i] == rest[i]);
            }
            if exists|i: int|
                0 <= i < exprs.len() && body_labels(evaluation(#[trigger] exprs[i]), tables, keys, inferred).contains(
                    label,
                ) {
                let i = choose|i: int|
                    0 <= i < exprs.len() && body_labels(evaluation(#[trigger] exprs[i]), tables, keys, inferred).contains(
                        label,
                    );
                if i < rest.len() {
                    assert(rest[i] == exprs[i]);
                }
            }
        }
    } else {
        assert(evaluations(exprs) =~= Seq::<StatementView>::empty());
        law_empty_body_has_no_effects(tables, keys, inferred);
    }
}

/// An expression has its own effects, those of every expression that it is made of,
/// and no others: both sides of a conditional, every item, field and argument.
pub proof fn law_expressions_have_the_effects_of_their_parts(
    expr: ExprView,
    tables: TablesView,
    keys: Seq<Seq<char>>,
    inferred: Seq<Seq<WitnessView>>,
    label: EffectLabelView,
)
    ensures
        body_labels(evaluation(expr), tables, keys, inferred).contains(label) == (own_labels(
            expr,
            tables,
            keys,
            inferred,
        ).contains(label) || exists|i: int|
            0 <= i < parts_of(expr).len() && body_labels(
                evaluation(#[trigger] parts_of(expr)[i]),
                tables,
                keys,
                inferred,
            ).contains(label)),
{
    let parts = parts_of(expr);
    lemma_single(StatementView::Eval(expr), tables, alone());
    lemma_any_part(parts, tables, keys, inferred);
    lemma_evaluations(parts, 0, tables, alone());
    assert(effect_semantics::statement_facts(StatementView::Eval(expr), tables, alone())
        == effect_semantics::expr_facts(expr, tables, alone()));
    match expr {
        ExprView::Mutable(inner) => lemma_one_part(*inner, tables, alone()),
        ExprView::Reference { target, .. } => lemma_one_part(*target, tables, alone()),
        ExprView::Cast { from, .. } => lemma_one_part(*from, tables, alone()),
        ExprView::PolicyNarrow { from, .. } => lemma_one_part(*from, tables, alone()),
        ExprView::EnumConstructor { payload, .. } => match payload {
            Some(payload) => lemma_one_part(*payload, tables, alone()),
            None => {}
        },
        ExprView::Range { start, end, step } => lemma_three_parts(*start, *end, *step, tables, alone()),
        ExprView::If { cond, then_e, else_e } => lemma_three_parts(*cond, *then_e, *else_e, tables, alone()),
        ExprView::Mapping(items) => lemma_entry_parts(items, 0, tables, alone()),
        ExprView::Call { call, .. } => {
            law_call_has_the_effects_of_its_callee(call, tables, keys, inferred);
            lemma_single(StatementView::Call(call), tables, alone());
            assert(effect_semantics::statement_facts(StatementView::Call(call), tables, alone())
                == effect_semantics::expr_facts(expr, tables, alone()));
            assert(body_labels(evaluation(expr), tables, keys, inferred) == body_labels(
                evaluations(parts),
                tables,
                keys,
                inferred,
            ).union(own_labels(expr, tables, keys, inferred)));
            assert(forall|other: EffectLabelView| #[trigger] body_labels(evaluation(expr), tables, keys, inferred).contains(other)
                == (body_labels(evaluations(parts), tables, keys, inferred).contains(other) || own_labels(
                expr,
                tables,
                keys,
                inferred,
            ).contains(other)));
        }
        ExprView::Record(fields) => {
            let order = crate::lowered::field_order::name_order(fields, fields.len() as int);
            crate::lowered::field_order::law_fields_are_read_by_name(fields, fields.len() as int);
            let ordered = ordered_values(fields, order);
            lemma_ordered(fields, order, 0, tables, alone());
            lemma_evaluations(ordered, 0, tables, alone());
            lemma_any_part(ordered, tables, keys, inferred);
            if exists|i: int|
                0 <= i < ordered.len() && body_labels(evaluation(#[trigger] ordered[i]), tables, keys, inferred).contains(
                    label,
                ) {
                let i = choose|i: int|
                    0 <= i < ordered.len() && body_labels(evaluation(#[trigger] ordered[i]), tables, keys, inferred).contains(
                        label,
                    );
                assert(parts[order[i]] == ordered[i]);
            }
            if exists|i: int|
                0 <= i < parts.len() && body_labels(evaluation(#[trigger] parts[i]), tables, keys, inferred).contains(label) {
                let k = choose|k: int|
                    0 <= k < parts.len() && body_labels(evaluation(#[trigger] parts[k]), tables, keys, inferred).contains(
                        label,
                    );
                assert(order.contains(k));
                let i = choose|i: int| 0 <= i < order.len() && order[i] == k;
                assert(ordered[i] == parts[k]);
            }
            assert(effect_semantics::expr_facts(expr, tables, alone()) == effect_semantics::exprs_facts(
                ordered,
                0,
                tables,
                alone(),
            ));
            assert(body_labels(evaluation(expr), tables, keys, inferred) == body_labels(
                evaluations(ordered),
                tables,
                keys,
                inferred,
            ));
            assert(!own_labels(expr, tables, keys, inferred).contains(label));
            assert(body_labels(evaluation(expr), tables, keys, inferred).contains(label) == exists|i: int|
                0 <= i < parts.len() && body_labels(evaluation(#[trigger] parts[i]), tables, keys, inferred).contains(
                    label,
                ));
        }
        ExprView::HostCall { import, args, intrinsic, .. } => {
            let first = effect_semantics::import_facts(import, intrinsic, tables, alone());
            lemma_exprs(args, 0, tables, first);
            let after = effect_semantics::exprs_facts(args, 0, tables, first);
            let arguments = effect_semantics::exprs_facts(args, 0, tables, alone());
            lemma_reach(after, keys, inferred);
            lemma_reach(arguments, keys, inferred);
            let effects = if intrinsic {
                effect_semantics::import_effects(tables.intrinsics, 0, import, true)
            } else {
                effect_semantics::import_effects(tables.imports, 0, import, false)
            };
            lemma_labelled(Seq::empty(), effects, 0, import.module + "."@ + import.name);
            assert(effects.skip(0) =~= effects);
            assert(labels_of(Seq::empty()) =~= Set::empty());
            assert(labels_of(first.direct) =~= effects.to_set());
            assert(first.callees =~= Seq::empty());
            assert(first.callees.to_set() =~= Set::empty());
            assert(reach_of(after).callees =~= reach_of(arguments).callees);
            assert(effect_semantics::expr_facts(expr, tables, alone()) == after);
            assert(reach_of(after).labels == effects.to_set().union(reach_of(arguments).labels));
            assert(body_labels(evaluation(expr), tables, keys, inferred) =~= body_labels(
                evaluations(parts),
                tables,
                keys,
                inferred,
            ).union(own_labels(expr, tables, keys, inferred)));
            assert(forall|other: EffectLabelView| #[trigger] body_labels(evaluation(expr), tables, keys, inferred).contains(other)
                == (body_labels(evaluations(parts), tables, keys, inferred).contains(other) || own_labels(
                expr,
                tables,
                keys,
                inferred,
            ).contains(other)));
        }
        _ => {}
    }
    if !(expr is Call) && !(expr is HostCall) && !(expr is Record) {
        assert(effect_semantics::expr_facts(expr, tables, alone()) == effect_semantics::exprs_facts(
            parts,
            0,
            tables,
            alone(),
        ));
        assert(own_labels(expr, tables, keys, inferred) =~= Set::empty());
        assert(body_labels(evaluation(expr), tables, keys, inferred) == body_labels(
            evaluations(parts),
            tables,
            keys,
            inferred,
        ));
    }
    if !(expr is Record) {
        assert(body_labels(evaluation(expr), tables, keys, inferred).contains(label) == (body_labels(
            evaluations(parts),
            tables,
            keys,
            inferred,
        ).contains(label) || own_labels(expr, tables, keys, inferred).contains(label)));
    }
}

/// An import has the effects of its entry in the table, under its module and its name.
pub proof fn law_imports_have_their_effects(table: Seq<crate::lowered::view::HostImportView>, index: int, import: HostImportNameView)
    requires
        0 <= index <= table.len(),
        forall|i: int| 0 <= i < index ==> (#[trigger] table[i]).name != import.name || table[i].module != import.module,
        index < table.len() ==> table[index].name == import.name && table[index].module == import.module,
    ensures
        effect_semantics::import_effects(table, 0, import, false) == (if index < table.len() {
            table[index].effects
        } else {
            Seq::empty()
        }),
{
    lemma_import_place(table, 0, index, import);
}

proof fn lemma_import_place(
    table: Seq<crate::lowered::view::HostImportView>,
    from: int,
    index: int,
    import: HostImportNameView,
)
    requires
        0 <= from <= index <= table.len(),
        forall|i: int| from <= i < index ==> (#[trigger] table[i]).name != import.name || table[i].module != import.module,
        index < table.len() ==> table[index].name == import.name && table[index].module == import.module,
    ensures
        effect_semantics::import_effects(table, from, import, false) == (if index < table.len() {
            table[index].effects
        } else {
            Seq::empty()
        }),
    decreases index - from,
{
    if from < index {
        lemma_import_place(table, from + 1, index, import);
    }
}

/// A row permits the labels that it lists and, where it lists a whole domain, every
/// action of the domain; nothing of another domain, and an empty row nothing at all.
pub proof fn law_rows_permit_what_they_list(
    row: crate::lowered::view::EffectRowView,
    label: EffectLabelView,
    whole: EffectLabelView,
)
    requires
        whole.domain == label.domain,
        whole.action.len() == 0,
    ensures
        row.labels.contains(label) ==> effect_semantics::permits(row, label),
        row.labels.contains(whole) ==> effect_semantics::permits(row, label),
        row.labels.len() == 0 ==> !effect_semantics::permits(row, label),
        (forall|i: int| 0 <= i < row.labels.len() ==> (#[trigger] row.labels[i]).domain != label.domain)
            ==> !effect_semantics::permits(row, label),
        effect_semantics::permits(row, label) && !row.labels.contains(label) ==> exists|i: int|
            0 <= i < row.labels.len() && (#[trigger] row.labels[i]).domain == label.domain && row.labels[i].action.len()
                == 0,
{
    if row.labels.contains(label) {
        let i = choose|i: int| 0 <= i < row.labels.len() && row.labels[i] == label;
        assert(row.labels[i] == label);
    }
    if row.labels.contains(whole) {
        let i = choose|i: int| 0 <= i < row.labels.len() && row.labels[i] == whole;
        assert(row.labels[i].domain == label.domain);
    }
}

// Declared effects.

/// Whether a function performs an effect that it had to declare and did not.
pub open spec fn offends(entry: FunctionEntryView, performed: Seq<WitnessView>) -> bool {
    &&& entry.key != "main"@
    &&& crate::effect_inference::is_boundary(entry.signature)
    &&& effect_semantics::not_covered(performed, 0, entry.signature.effects, Seq::empty()).len() > 0
}

/// The warning about a function that declares more than it performs.
pub open spec fn warning_about(entry: FunctionEntryView, performed: Seq<WitnessView>) -> Seq<Seq<char>> {
    let extra = effect_semantics::not_performed(entry.signature.effects.labels, 0, performed, Seq::empty());
    if entry.key == "main"@ || !crate::effect_inference::is_boundary(entry.signature) || extra.len() == 0 {
        Seq::empty()
    } else {
        seq![crate::effect_inference::overdeclared_text(entry.key, extra, performed)]
    }
}

/// The warnings about the functions from a place on, in their order.
pub open spec fn warnings_about(entries: Seq<FunctionEntryView>, from: int, inferred: Seq<Seq<WitnessView>>) -> Seq<
    Seq<char>,
>
    decreases entries.len() - from,
{
    if from < 0 || from >= entries.len() {
        Seq::empty()
    } else {
        warning_about(entries[from], inferred[from]) + warnings_about(entries, from + 1, inferred)
    }
}

proof fn lemma_checked(entry: FunctionEntryView, performed: Seq<WitnessView>, warnings: Seq<Seq<char>>)
    ensures
        crate::effect_inference::checked(entry, performed, warnings) == (if offends(entry, performed) {
            Err(
                crate::effect_inference::undeclared_text(
                    entry.key,
                    entry.signature.effects,
                    effect_semantics::not_covered(performed, 0, entry.signature.effects, Seq::empty())[0],
                ),
            )
        } else {
            Ok(warnings + warning_about(entry, performed))
        }),
{
    assert(warnings + Seq::<Seq<char>>::empty() =~= warnings);
    if !offends(entry, performed) && warning_about(entry, performed).len() > 0 {
        let warning = warning_about(entry, performed)[0];
        assert(warnings + seq![warning] =~= warnings.push(warning));
    }
}

/// The check keeps the warnings that were there and adds those about the functions
/// before the first offender, or about all functions where none offends.
pub proof fn law_warnings_are_kept(
    entries: Seq<FunctionEntryView>,
    from: int,
    inferred: Seq<Seq<WitnessView>>,
    warnings: Seq<Seq<char>>,
    index: int,
)
    requires
        0 <= from <= index <= entries.len(),
        index < entries.len() ==> offends(entries[index], inferred[index]),
        forall|i: int| from <= i < index ==> !offends(#[trigger] entries[i], inferred[i]),
    ensures
        crate::effect_inference::warned_from(entries, from, inferred, warnings) == warnings + warnings_about(
            entries.take(index),
            from,
            inferred,
        ),
    decreases index - from,
{
    if from < entries.len() {
        lemma_checked(entries[from], inferred[from], warnings);
    }
    if from < index {
        let more = warnings + warning_about(entries[from], inferred[from]);
        law_warnings_are_kept(entries, from + 1, inferred, more, index);
        let first = entries.take(index);
        assert(first[from] == entries[from]);
        assert(more + warnings_about(first, from + 1, inferred) =~= warnings + warnings_about(first, from, inferred));
    } else {
        assert(warnings + warnings_about(entries.take(index), from, inferred) =~= warnings);
    }
}

/// A table passes where no function offends, with one warning for each function
/// that declares too much, in the order of the table behind those that were there.
pub proof fn law_tables_without_offenders_pass(
    entries: Seq<FunctionEntryView>,
    from: int,
    inferred: Seq<Seq<WitnessView>>,
    warnings: Seq<Seq<char>>,
)
    requires
        0 <= from <= entries.len(),
        forall|i: int| from <= i < entries.len() ==> !offends(#[trigger] entries[i], inferred[i]),
    ensures
        crate::effect_inference::checked_from(entries, from, inferred, warnings) == Ok::<Seq<Seq<char>>, Seq<char>>(
            warnings + warnings_about(entries, from, inferred),
        ),
    decreases entries.len() - from,
{
    if from < entries.len() {
        lemma_checked(entries[from], inferred[from], warnings);
        let more = warnings + warning_about(entries[from], inferred[from]);
        law_tables_without_offenders_pass(entries, from + 1, inferred, more);
        assert(more + warnings_about(entries, from + 1, inferred) =~= warnings + warnings_about(entries, from, inferred));
    } else {
        assert(warnings + warnings_about(entries, from, inferred) =~= warnings);
    }
}

/// The first function of a table that offends is the one that is complained
/// about: in a table in key order, the one with the least key.
pub proof fn law_the_first_offender_is_named(
    entries: Seq<FunctionEntryView>,
    from: int,
    inferred: Seq<Seq<WitnessView>>,
    warnings: Seq<Seq<char>>,
    index: int,
)
    requires
        0 <= from <= index < entries.len(),
        offends(entries[index], inferred[index]),
        forall|i: int| from <= i < index ==> !offends(#[trigger] entries[i], inferred[i]),
    ensures
        crate::effect_inference::checked_from(entries, from, inferred, warnings) == Err::<Seq<Seq<char>>, Seq<char>>(
            crate::effect_inference::undeclared_text(
                entries[index].key,
                entries[index].signature.effects,
                effect_semantics::not_covered(
                    inferred[index],
                    0,
                    entries[index].signature.effects,
                    Seq::empty(),
                )[0],
            ),
        ),
    decreases index - from,
{
    lemma_checked(entries[from], inferred[from], warnings);
    if from < index {
        let more = warnings + warning_about(entries[from], inferred[from]);
        law_the_first_offender_is_named(entries, from + 1, inferred, more, index);
    }
}

} // verus!
