//! Effect inference over lowered bodies.
//!
//! Every function performs its direct effects and those of the functions it
//! calls. The inference runs a worklist over the call graph until nothing is
//! added any more, so it ends on recursive functions too. Each effect carries a
//! witness: the call or import that brought it in.
use vstd::prelude::*;
use crate::lowered::copy;
use crate::lowered::field_order::{find_name_order, name_order, positions};
use crate::lowered::ir::{
    Call, EffectLabel, EffectRow, Expr, FieldExpr, FunctionBody, FunctionSig, HostImport, HostImportName, LetValue,
    MatchArm, Statement,
};
use crate::lowered::view::{
    self, CallView, EffectLabelView, EffectRowView, ExprView, FieldExprView, FunctionBodyView, FunctionEntryView,
    FunctionSigView, HostImportNameView, HostImportView, LetValueView, MatchArmView, StatementView,
};
use crate::text::{concat_three, owned, same_text, text_precedes};

verus! {

/// An effect that a body performs, and what brought it in.
#[derive(Debug)]
pub struct EffectWitness {
    pub label: EffectLabel,
    pub source: String,
}

pub struct WitnessView {
    pub label: EffectLabelView,
    pub source: Seq<char>,
}

pub open spec fn witness(witness: EffectWitness) -> WitnessView {
    WitnessView { label: view::effect_label(witness.label), source: witness.source@ }
}

pub open spec fn witnesses(list: Seq<EffectWitness>) -> Seq<WitnessView> {
    Seq::new(list.len(), |i: int| witness(list[i]))
}

/// The effects of the host's imports and of the intrinsics, by name.
#[derive(Debug)]
pub struct EffectTables {
    pub imports: Vec<HostImport>,
    pub intrinsics: Vec<HostImport>,
}

pub struct TablesView {
    pub imports: Seq<HostImportView>,
    pub intrinsics: Seq<HostImportView>,
}

impl EffectTables {
    pub open spec fn view(&self) -> TablesView {
        TablesView { imports: view::host_imports(self.imports@), intrinsics: view::host_imports(self.intrinsics@) }
    }
}

// Witness lists.

/// Whether a label has a witness.
pub open spec fn performs(list: Seq<WitnessView>, label: EffectLabelView) -> bool {
    exists|i: int| 0 <= i < list.len() && (#[trigger] list[i]).label == label
}

/// The list with a witness for the label; the first witness stays.
pub open spec fn recorded(list: Seq<WitnessView>, label: EffectLabelView, source: Seq<char>) -> Seq<WitnessView> {
    if performs(list, label) {
        list
    } else {
        list.push(WitnessView { label, source })
    }
}

/// The list with witnesses for `more[from..]`.
pub open spec fn merged(list: Seq<WitnessView>, more: Seq<WitnessView>, from: int) -> Seq<WitnessView>
    decreases more.len() - from,
{
    if from < 0 || from >= more.len() {
        list
    } else {
        merged(recorded(list, more[from].label, more[from].source), more, from + 1)
    }
}

/// The list with the effects of a called function, which the call brought in.
pub open spec fn merged_call(list: Seq<WitnessView>, more: Seq<WitnessView>, from: int, source: Seq<char>) -> Seq<
    WitnessView,
>
    decreases more.len() - from,
{
    if from < 0 || from >= more.len() {
        list
    } else {
        merged_call(recorded(list, more[from].label, source), more, from + 1, source)
    }
}

pub open spec fn labelled(list: Seq<WitnessView>, labels: Seq<EffectLabelView>, from: int, source: Seq<char>) -> Seq<
    WitnessView,
>
    decreases labels.len() - from,
{
    if from < 0 || from >= labels.len() {
        list
    } else {
        labelled(recorded(list, labels[from], source), labels, from + 1, source)
    }
}

pub fn same_label(left: &EffectLabel, right: &EffectLabel) -> (result: bool)
    ensures
        result == (view::effect_label(*left) == view::effect_label(*right)),
{
    same_text(left.domain.as_str(), right.domain.as_str()) && same_text(left.action.as_str(), right.action.as_str())
}

fn has_label(list: &Vec<EffectWitness>, label: &EffectLabel) -> (result: bool)
    ensures
        result == performs(witnesses(list@), view::effect_label(*label)),
{
    let ghost all = witnesses(list@);
    let mut i: usize = 0;
    while i < list.len()
        invariant
            i <= list.len(),
            all == witnesses(list@),
            forall|k: int| 0 <= k < i ==> (#[trigger] all[k]).label != view::effect_label(*label),
        decreases list.len() - i,
    {
        assert(all[i as int] == witness(list@[i as int]));
        if same_label(&list[i].label, label) {
            return true;
        }
        i += 1;
    }
    false
}

fn record(list: &mut Vec<EffectWitness>, label: &EffectLabel, source: &str)
    ensures
        witnesses(final(list)@) == recorded(witnesses(old(list)@), view::effect_label(*label), source@),
{
    if has_label(list, label) {
        return;
    }
    let ghost before = witnesses(list@);
    list.push(EffectWitness { label: copy::effect_label(label), source: owned(source) });
    assert(witnesses(list@) =~= before.push(WitnessView { label: view::effect_label(*label), source: source@ }));
}

pub(crate) fn merge(list: &mut Vec<EffectWitness>, more: &Vec<EffectWitness>)
    ensures
        witnesses(final(list)@) == merged(witnesses(old(list)@), witnesses(more@), 0),
{
    let ghost start = witnesses(list@);
    let ghost all = witnesses(more@);
    let mut i: usize = 0;
    while i < more.len()
        invariant
            i <= more.len(),
            all == witnesses(more@),
            start == witnesses(old(list)@),
            merged(start, all, 0) == merged(witnesses(list@), all, i as int),
        decreases more.len() - i,
    {
        assert(all[i as int] == witness(more@[i as int]));
        record(list, &more[i].label, more[i].source.as_str());
        i += 1;
    }
}

pub(crate) fn merge_from_call(list: &mut Vec<EffectWitness>, more: &Vec<EffectWitness>, source: &str)
    ensures
        witnesses(final(list)@) == merged_call(witnesses(old(list)@), witnesses(more@), 0, source@),
{
    let ghost start = witnesses(list@);
    let ghost all = witnesses(more@);
    let mut i: usize = 0;
    while i < more.len()
        invariant
            i <= more.len(),
            all == witnesses(more@),
            start == witnesses(old(list)@),
            merged_call(start, all, 0, source@) == merged_call(witnesses(list@), all, i as int, source@),
        decreases more.len() - i,
    {
        assert(all[i as int] == witness(more@[i as int]));
        record(list, &more[i].label, source);
        i += 1;
    }
}

fn record_all(list: &mut Vec<EffectWitness>, labels: &Vec<EffectLabel>, source: &str)
    ensures
        witnesses(final(list)@) == labelled(witnesses(old(list)@), view::effect_labels(labels@), 0, source@),
{
    let ghost start = witnesses(list@);
    let ghost all = view::effect_labels(labels@);
    let mut i: usize = 0;
    while i < labels.len()
        invariant
            i <= labels.len(),
            all == view::effect_labels(labels@),
            start == witnesses(old(list)@),
            labelled(start, all, 0, source@) == labelled(witnesses(list@), all, i as int, source@),
        decreases labels.len() - i,
    {
        assert(all[i as int] == view::effect_label(labels@[i as int]));
        record(list, &labels[i], source);
        i += 1;
    }
}

pub(crate) fn copy_witnesses(list: &Vec<EffectWitness>) -> (result: Vec<EffectWitness>)
    ensures
        witnesses(result@) == witnesses(list@),
{
    let mut done: Vec<EffectWitness> = Vec::new();
    let mut i: usize = 0;
    while i < list.len()
        invariant
            i <= list.len(),
            done.len() == i,
            forall|k: int| 0 <= k < i ==> witness(#[trigger] done@[k]) == witness(list@[k]),
        decreases list.len() - i,
    {
        done.push(EffectWitness { label: copy::effect_label(&list[i].label), source: list[i].source.clone() });
        i += 1;
    }
    assert(witnesses(done@) =~= witnesses(list@));
    done
}

/// Every effect that a body performs, each with one witness.
#[derive(Debug)]
pub struct InferredEffects {
    pub witnesses: Vec<EffectWitness>,
}

impl InferredEffects {
    pub open spec fn view(&self) -> Seq<WitnessView> {
        witnesses(self.witnesses@)
    }
}

// Sets in order.

pub open spec fn label_before(left: EffectLabelView, right: EffectLabelView) -> bool {
    crate::text::precedes(left.domain, right.domain) || (left.domain == right.domain && crate::text::precedes(
        left.action,
        right.action,
    ))
}

/// The place at which a label belongs among `sorted[from..]`.
pub open spec fn label_place(sorted: Seq<EffectLabelView>, from: int, label: EffectLabelView) -> int
    decreases sorted.len() - from,
{
    if from < 0 || from >= sorted.len() || !label_before(sorted[from], label) {
        from
    } else {
        label_place(sorted, from + 1, label)
    }
}

pub open spec fn with_label(sorted: Seq<EffectLabelView>, label: EffectLabelView) -> Seq<EffectLabelView> {
    let place = label_place(sorted, 0, label);
    if 0 <= place < sorted.len() && sorted[place] == label {
        sorted
    } else {
        sorted.insert(place, label)
    }
}

/// The labels of `list[from..]` sorted into `done`, each once.
pub open spec fn sorted_labels(list: Seq<WitnessView>, from: int, done: Seq<EffectLabelView>) -> Seq<EffectLabelView>
    decreases list.len() - from,
{
    if from < 0 || from >= list.len() {
        done
    } else {
        sorted_labels(list, from + 1, with_label(done, list[from].label))
    }
}

/// The labels of a row from a place on sorted into `done`, each once.
pub open spec fn row_labels(labels: Seq<EffectLabelView>, from: int, done: Seq<EffectLabelView>) -> Seq<EffectLabelView>
    decreases labels.len() - from,
{
    if from < 0 || from >= labels.len() {
        done
    } else {
        row_labels(labels, from + 1, with_label(done, labels[from]))
    }
}

/// The labels of a row, in order and each once.
pub(crate) fn sort_row(row: &EffectRow) -> (labels: Vec<EffectLabel>)
    ensures
        view::effect_labels(labels@) == row_labels(view::effect_row(*row).labels, 0, Seq::empty()),
{
    let ghost all = view::effect_labels(row.labels@);
    let mut done: Vec<EffectLabel> = Vec::new();
    assert(view::effect_labels(done@) =~= Seq::<EffectLabelView>::empty());
    let mut i: usize = 0;
    while i < row.labels.len()
        invariant
            i <= row.labels.len(),
            all == view::effect_labels(row.labels@),
            row_labels(all, 0, Seq::empty()) == row_labels(all, i as int, view::effect_labels(done@)),
        decreases row.labels.len() - i,
    {
        assert(all[i as int] == view::effect_label(row.labels@[i as int]));
        insert_label(&mut done, &row.labels[i]);
        i += 1;
    }
    done
}

fn precedes_label(left: &EffectLabel, right: &EffectLabel) -> (result: bool)
    ensures
        result == label_before(view::effect_label(*left), view::effect_label(*right)),
{
    text_precedes(left.domain.as_str(), right.domain.as_str()) || (same_text(
        left.domain.as_str(),
        right.domain.as_str(),
    ) && text_precedes(left.action.as_str(), right.action.as_str()))
}

fn insert_label(sorted: &mut Vec<EffectLabel>, label: &EffectLabel)
    ensures
        view::effect_labels(final(sorted)@) == with_label(
            view::effect_labels(old(sorted)@),
            view::effect_label(*label),
        ),
{
    let ghost all = view::effect_labels(sorted@);
    let ghost wanted = view::effect_label(*label);
    let mut i: usize = 0;
    while i < sorted.len()
        invariant_except_break
            i <= sorted.len(),
            *sorted == *old(sorted),
            all == view::effect_labels(sorted@),
            wanted == view::effect_label(*label),
            label_place(all, 0, wanted) == label_place(all, i as int, wanted),
        ensures
            i <= sorted.len(),
            *sorted == *old(sorted),
            label_place(all, 0, wanted) == i,
        decreases sorted.len() - i,
    {
        assert(all[i as int] == view::effect_label(sorted@[i as int]));
        if !precedes_label(&sorted[i], label) {
            break;
        }
        i += 1;
    }
    if i < sorted.len() {
        assert(all[i as int] == view::effect_label(sorted@[i as int]));
        if same_label(&sorted[i], label) {
            return;
        }
    }
    sorted.insert(i, copy::effect_label(label));
    assert(view::effect_labels(sorted@) =~= all.insert(i as int, wanted));
}

pub open spec fn text_place(sorted: Seq<Seq<char>>, from: int, name: Seq<char>) -> int
    decreases sorted.len() - from,
{
    if from < 0 || from >= sorted.len() || !crate::text::precedes(sorted[from], name) {
        from
    } else {
        text_place(sorted, from + 1, name)
    }
}

pub open spec fn with_text(sorted: Seq<Seq<char>>, name: Seq<char>) -> Seq<Seq<char>> {
    let place = text_place(sorted, 0, name);
    if 0 <= place < sorted.len() && sorted[place] == name {
        sorted
    } else {
        sorted.insert(place, name)
    }
}

pub(crate) fn insert_text(sorted: &mut Vec<String>, name: &str)
    ensures
        view::texts(final(sorted)@) == with_text(view::texts(old(sorted)@), name@),
{
    let ghost all = view::texts(sorted@);
    let mut i: usize = 0;
    while i < sorted.len()
        invariant_except_break
            i <= sorted.len(),
            *sorted == *old(sorted),
            all == view::texts(sorted@),
            text_place(all, 0, name@) == text_place(all, i as int, name@),
        ensures
            i <= sorted.len(),
            *sorted == *old(sorted),
            text_place(all, 0, name@) == i,
        decreases sorted.len() - i,
    {
        assert(all[i as int] == sorted@[i as int]@);
        if !text_precedes(sorted[i].as_str(), name) {
            break;
        }
        i += 1;
    }
    if i < sorted.len() {
        assert(all[i as int] == sorted@[i as int]@);
        if same_text(sorted[i].as_str(), name) {
            return;
        }
    }
    sorted.insert(i, owned(name));
    assert(view::texts(sorted@) =~= all.insert(i as int, name@));
}

impl InferredEffects {
    /// The labels in order.
    pub fn labels(&self) -> (labels: Vec<EffectLabel>)
        ensures
            view::effect_labels(labels@) == sorted_labels(self@, 0, Seq::empty()),
    {
        let ghost all = self@;
        let mut done: Vec<EffectLabel> = Vec::new();
        let mut i: usize = 0;
        assert(view::effect_labels(done@) =~= Seq::<EffectLabelView>::empty());
        while i < self.witnesses.len()
            invariant
                i <= self.witnesses.len(),
                all == witnesses(self.witnesses@),
                sorted_labels(all, 0, Seq::empty()) == sorted_labels(all, i as int, view::effect_labels(done@)),
            decreases self.witnesses.len() - i,
        {
            assert(all[i as int] == witness(self.witnesses@[i as int]));
            insert_label(&mut done, &self.witnesses[i].label);
            i += 1;
        }
        done
    }

    /// The effects that `declared` does not permit, in the order in which they
    /// were found.
    pub fn undeclared(&self, declared: &EffectRow) -> (result: Vec<EffectWitness>)
        ensures
            witnesses(result@) == not_covered(self@, 0, view::effect_row(*declared), Seq::empty()),
    {
        let ghost all = self@;
        let ghost row = view::effect_row(*declared);
        let mut done: Vec<EffectWitness> = Vec::new();
        let mut i: usize = 0;
        assert(witnesses(done@) =~= Seq::<WitnessView>::empty());
        while i < self.witnesses.len()
            invariant
                i <= self.witnesses.len(),
                all == witnesses(self.witnesses@),
                row == view::effect_row(*declared),
                not_covered(all, 0, row, Seq::empty()) == not_covered(all, i as int, row, witnesses(done@)),
            decreases self.witnesses.len() - i,
        {
            assert(all[i as int] == witness(self.witnesses@[i as int]));
            if !covers(declared, &self.witnesses[i].label) {
                let ghost before = witnesses(done@);
                let label = copy::effect_label(&self.witnesses[i].label);
                done.push(EffectWitness { label, source: self.witnesses[i].source.clone() });
                assert(witnesses(done@) =~= before.push(all[i as int]));
            }
            i += 1;
        }
        done
    }

    /// The declared labels that the body does not perform. A declared domain is
    /// performed when any action in it is.
    pub fn overdeclared(&self, declared: &EffectRow) -> (result: Vec<EffectLabel>)
        ensures
            view::effect_labels(result@) == not_performed(
                view::effect_labels(declared.labels@),
                0,
                self@,
                Seq::empty(),
            ),
    {
        let ghost all = view::effect_labels(declared.labels@);
        let mut done: Vec<EffectLabel> = Vec::new();
        let mut i: usize = 0;
        assert(view::effect_labels(done@) =~= Seq::<EffectLabelView>::empty());
        while i < declared.labels.len()
            invariant
                i <= declared.labels.len(),
                all == view::effect_labels(declared.labels@),
                not_performed(all, 0, self@, Seq::empty()) == not_performed(
                    all,
                    i as int,
                    self@,
                    view::effect_labels(done@),
                ),
            decreases declared.labels.len() - i,
        {
            assert(all[i as int] == view::effect_label(declared.labels@[i as int]));
            if !self.supports(&declared.labels[i]) {
                insert_label(&mut done, &declared.labels[i]);
            }
            i += 1;
        }
        done
    }

    fn supports(&self, label: &EffectLabel) -> (result: bool)
        ensures
            result == supported(self@, view::effect_label(*label)),
    {
        if !label.action.as_str().is_empty() {
            return has_label(&self.witnesses, label);
        }
        let ghost all = self@;
        let mut i: usize = 0;
        while i < self.witnesses.len()
            invariant
                i <= self.witnesses.len(),
                all == witnesses(self.witnesses@),
                label.action@.len() == 0,
                forall|k: int| 0 <= k < i ==> (#[trigger] all[k]).label.domain != label.domain@,
            decreases self.witnesses.len() - i,
        {
            assert(self@[i as int] == witness(self.witnesses@[i as int]));
            if same_text(self.witnesses[i].label.domain.as_str(), label.domain.as_str()) {
                return true;
            }
            i += 1;
        }
        false
    }
}

/// Whether a row permits a label: by itself, or by its whole domain.
pub open spec fn permits(row: EffectRowView, label: EffectLabelView) -> bool {
    exists|i: int|
        0 <= i < row.labels.len() && ((#[trigger] row.labels[i]) == label || (row.labels[i].domain == label.domain
            && row.labels[i].action.len() == 0))
}

pub fn covers(row: &EffectRow, label: &EffectLabel) -> (result: bool)
    ensures
        result == permits(view::effect_row(*row), view::effect_label(*label)),
{
    let ghost all = view::effect_labels(row.labels@);
    let ghost wanted = view::effect_label(*label);
    let mut i: usize = 0;
    while i < row.labels.len()
        invariant
            i <= row.labels.len(),
            all == view::effect_labels(row.labels@),
            wanted == view::effect_label(*label),
            forall|k: int|
                0 <= k < i ==> !((#[trigger] all[k]) == wanted || (all[k].domain == wanted.domain
                    && all[k].action.len() == 0)),
        decreases row.labels.len() - i,
    {
        assert(view::effect_row(*row).labels[i as int] == view::effect_label(row.labels@[i as int]));
        if same_label(&row.labels[i], label) {
            return true;
        }
        if same_text(row.labels[i].domain.as_str(), label.domain.as_str()) && row.labels[i].action.as_str().is_empty() {
            return true;
        }
        i += 1;
    }
    false
}

pub open spec fn not_covered(list: Seq<WitnessView>, from: int, row: EffectRowView, done: Seq<WitnessView>) -> Seq<
    WitnessView,
>
    decreases list.len() - from,
{
    if from < 0 || from >= list.len() {
        done
    } else {
        not_covered(
            list,
            from + 1,
            row,
            if permits(row, list[from].label) {
                done
            } else {
                done.push(list[from])
            },
        )
    }
}

/// Whether a declared label is used by what a body performs.
pub open spec fn supported(list: Seq<WitnessView>, label: EffectLabelView) -> bool {
    if label.action.len() == 0 {
        exists|i: int| 0 <= i < list.len() && (#[trigger] list[i]).label.domain == label.domain
    } else {
        performs(list, label)
    }
}

/// The declared labels that are not used, in order and each once.
pub open spec fn not_performed(
    labels: Seq<EffectLabelView>,
    from: int,
    list: Seq<WitnessView>,
    done: Seq<EffectLabelView>,
) -> Seq<EffectLabelView>
    decreases labels.len() - from,
{
    if from < 0 || from >= labels.len() {
        done
    } else {
        not_performed(
            labels,
            from + 1,
            list,
            if supported(list, labels[from]) {
                done
            } else {
                with_label(done, labels[from])
            },
        )
    }
}

// Facts of one body.

/// What a body does itself: its direct effects and whom it calls, in order.
#[derive(Debug)]
pub struct FunctionFacts {
    pub direct: Vec<EffectWitness>,
    pub callees: Vec<String>,
}

pub struct FactsView {
    pub direct: Seq<WitnessView>,
    pub callees: Seq<Seq<char>>,
}

impl FunctionFacts {
    pub open spec fn view(&self) -> FactsView {
        FactsView { direct: witnesses(self.direct@), callees: view::texts(self.callees@) }
    }
}

/// The effects of an import, none when it is not known.
pub open spec fn import_effects(
    table: Seq<HostImportView>,
    from: int,
    import: HostImportNameView,
    by_name: bool,
) -> Seq<
    EffectLabelView,
>
    decreases table.len() - from,
{
    if from < 0 || from >= table.len() {
        Seq::empty()
    } else if table[from].name == import.name && (by_name || table[from].module == import.module) {
        table[from].effects
    } else {
        import_effects(table, from + 1, import, by_name)
    }
}

pub open spec fn import_facts(
    import: HostImportNameView,
    intrinsic: bool,
    tables: TablesView,
    facts: FactsView,
) -> FactsView {
    let effects = if intrinsic {
        import_effects(tables.intrinsics, 0, import, true)
    } else {
        import_effects(tables.imports, 0, import, false)
    };
    FactsView { direct: labelled(facts.direct, effects, 0, import.module + "."@ + import.name), ..facts }
}

pub open spec fn expr_facts(expr: ExprView, tables: TablesView, facts: FactsView) -> FactsView
    decreases expr, 0int,
{
    match expr {
        ExprView::Value(_) | ExprView::VarRef(_) => facts,
        ExprView::Mutable(inner) => expr_facts(*inner, tables, facts),
        ExprView::Reference { target, .. } => expr_facts(*target, tables, facts),
        ExprView::Call { call, .. } => call_facts(call, tables, facts),
        ExprView::HostCall { import, args, intrinsic, .. } => exprs_facts(
            args,
            0,
            tables,
            import_facts(import, intrinsic, tables, facts),
        ),
        ExprView::Primitive { args, .. } => exprs_facts(args, 0, tables, facts),
        ExprView::Cast { from, .. } => expr_facts(*from, tables, facts),
        ExprView::PolicyNarrow { from, .. } => expr_facts(*from, tables, facts),
        ExprView::EnumConstructor { payload, .. } => match payload {
            Some(payload) => expr_facts(*payload, tables, facts),
            None => facts,
        },
        ExprView::Record(fields) => fields_facts(
            fields,
            name_order(fields, fields.len() as int),
            0,
            tables,
            facts,
        ),
        ExprView::Tuple(items) => exprs_facts(items, 0, tables, facts),
        ExprView::Array(items) => exprs_facts(items, 0, tables, facts),
        ExprView::Mapping(items) => pairs_facts(items, 0, tables, facts),
        ExprView::Range { start, end, step } => expr_facts(
            *step,
            tables,
            expr_facts(*end, tables, expr_facts(*start, tables, facts)),
        ),
        ExprView::If { cond, then_e, else_e } => expr_facts(
            *else_e,
            tables,
            expr_facts(*then_e, tables, expr_facts(*cond, tables, facts)),
        ),
    }
}

pub open spec fn call_facts(call: CallView, tables: TablesView, facts: FactsView) -> FactsView
    decreases call, 0int,
{
    let facts = exprs_facts(call.args, 0, tables, facts);
    FactsView { callees: with_text(facts.callees, call.callee_key), ..facts }
}

pub open spec fn exprs_facts(exprs: Seq<ExprView>, from: int, tables: TablesView, facts: FactsView) -> FactsView
    decreases exprs, exprs.len() - from,
{
    if from < 0 || from >= exprs.len() {
        facts
    } else {
        exprs_facts(exprs, from + 1, tables, expr_facts(exprs[from], tables, facts))
    }
}

pub open spec fn fields_facts(
    fields: Seq<FieldExprView>,
    order: Seq<int>,
    from: int,
    tables: TablesView,
    facts: FactsView,
) -> FactsView
    decreases fields, order.len() - from,
{
    if from < 0 || from >= order.len() || order[from] < 0 || order[from] >= fields.len() {
        facts
    } else {
        fields_facts(fields, order, from + 1, tables, expr_facts(fields[order[from]].value, tables, facts))
    }
}

pub open spec fn pairs_facts(
    items: Seq<(ExprView, ExprView)>,
    from: int,
    tables: TablesView,
    facts: FactsView,
) -> FactsView
    decreases items, items.len() - from,
{
    if from < 0 || from >= items.len() {
        facts
    } else {
        pairs_facts(
            items,
            from + 1,
            tables,
            expr_facts(items[from].1, tables, expr_facts(items[from].0, tables, facts)),
        )
    }
}

pub open spec fn let_facts(value: LetValueView, tables: TablesView, facts: FactsView) -> FactsView {
    match value {
        LetValueView::Call(call) => call_facts(call, tables, facts),
        LetValueView::Expr(expr) => expr_facts(expr, tables, facts),
    }
}

/// A task has no effects of its own: they belong to the body that starts it.
pub open spec fn statement_facts(statement: StatementView, tables: TablesView, facts: FactsView) -> FactsView
    decreases statement, 0int,
{
    match statement {
        StatementView::Call(call) => call_facts(call, tables, facts),
        StatementView::Let { value, .. } => let_facts(value, tables, facts),
        StatementView::Assign { value, .. } => expr_facts(value, tables, facts),
        StatementView::Return(value) => expr_facts(value, tables, facts),
        StatementView::Eval(value) => expr_facts(value, tables, facts),
        StatementView::Match { target, arms } => arms_facts(arms, 0, tables, expr_facts(target, tables, facts)),
        StatementView::If { cond, then_body, else_body } => body_facts(
            else_body,
            0,
            tables,
            body_facts(then_body, 0, tables, expr_facts(cond, tables, facts)),
        ),
        StatementView::While { cond, body } => body_facts(body, 0, tables, expr_facts(cond, tables, facts)),
        StatementView::For { source, body, .. } => body_facts(body, 0, tables, expr_facts(source, tables, facts)),
        StatementView::Task { body, .. } => body_facts(body, 0, tables, facts),
        StatementView::Spawn { value, .. } => expr_facts(value, tables, facts),
        StatementView::Join { .. } | StatementView::Break | StatementView::Continue => facts,
    }
}

pub open spec fn body_facts(body: Seq<StatementView>, from: int, tables: TablesView, facts: FactsView) -> FactsView
    decreases body, body.len() - from,
{
    if from < 0 || from >= body.len() {
        facts
    } else {
        body_facts(body, from + 1, tables, statement_facts(body[from], tables, facts))
    }
}

pub open spec fn arms_facts(arms: Seq<MatchArmView>, from: int, tables: TablesView, facts: FactsView) -> FactsView
    decreases arms, arms.len() - from,
{
    if from < 0 || from >= arms.len() {
        facts
    } else {
        arms_facts(arms, from + 1, tables, body_facts(arms[from].body, 0, tables, facts))
    }
}

pub open spec fn no_facts() -> FactsView {
    FactsView { direct: Seq::empty(), callees: Seq::empty() }
}

/// What a function does itself. An operation of an effect performs the effect
/// whatever its body does.
pub open spec fn function_facts(signature: FunctionSigView, tables: TablesView) -> FactsView {
    let owned = match signature.owner_effect {
        Some(owner) => FactsView { direct: recorded(Seq::empty(), owner, "deffect owner"@), callees: Seq::empty() },
        None => no_facts(),
    };
    match signature.body {
        FunctionBodyView::Wasm { import, .. } => import_facts(import, false, tables, owned),
        FunctionBodyView::User { statements } => body_facts(statements, 0, tables, owned),
    }
}

fn record_import(import: &HostImportName, intrinsic: bool, tables: &EffectTables, facts: &mut FunctionFacts)
    ensures
        final(facts)@ == import_facts(view::host_import_name(*import), intrinsic, tables@, old(facts)@),
{
    let table = if intrinsic {
        &tables.intrinsics
    } else {
        &tables.imports
    };
    let source = concat_three(import.module.as_str(), ".", import.name.as_str());
    let ghost all = view::host_imports(table@);
    let ghost name = view::host_import_name(*import);
    let mut i: usize = 0;
    while i < table.len()
        invariant
            i <= table.len(),
            *facts == *old(facts),
            all == view::host_imports(table@),
            name == view::host_import_name(*import),
            source@ == name.module + "."@ + name.name,
            all == (if intrinsic {
                tables@.intrinsics
            } else {
                tables@.imports
            }),
            import_effects(all, 0, name, intrinsic) == import_effects(all, i as int, name, intrinsic),
        decreases table.len() - i,
    {
        assert(all[i as int] == view::host_import(table@[i as int]));
        if same_text(table[i].name.as_str(), import.name.as_str()) && (intrinsic || same_text(
            table[i].module.as_str(),
            import.module.as_str(),
        )) {
            record_all(&mut facts.direct, &table[i].effects, source.as_str());
            return;
        }
        i += 1;
    }
}

pub(crate) fn collect_expr_facts(expr: &Expr, tables: &EffectTables, facts: &mut FunctionFacts)
    ensures
        final(facts)@ == expr_facts(view::expr(*expr), tables@, old(facts)@),
    decreases expr, 0int,
{
    match expr {
        Expr::Value(_) | Expr::VarRef(_) => {}
        Expr::Mutable(inner) => collect_expr_facts(inner, tables, facts),
        Expr::Reference { target, .. } => collect_expr_facts(target, tables, facts),
        Expr::Call { call, .. } => collect_call_facts(call, tables, facts),
        Expr::HostCall { import, args, intrinsic, .. } => {
            record_import(import, *intrinsic, tables, facts);
            collect_exprs_facts(args, tables, facts);
        }
        Expr::Primitive { args, .. } => collect_exprs_facts(args, tables, facts),
        Expr::Cast { from, .. } => collect_expr_facts(from, tables, facts),
        Expr::PolicyNarrow { from, .. } => collect_expr_facts(from, tables, facts),
        Expr::EnumConstructor { payload, .. } => match payload {
            Some(payload) => collect_expr_facts(payload, tables, facts),
            None => {}
        },
        Expr::Record(fields) => collect_fields_facts(fields, tables, facts),
        Expr::Tuple(items) => collect_exprs_facts(items, tables, facts),
        Expr::Array(items) => collect_exprs_facts(items, tables, facts),
        Expr::Mapping(items) => collect_pairs_facts(items, tables, facts),
        Expr::Range { start, end, step } => {
            collect_expr_facts(start, tables, facts);
            collect_expr_facts(end, tables, facts);
            collect_expr_facts(step, tables, facts);
        }
        Expr::If { cond, then_e, else_e } => {
            collect_expr_facts(cond, tables, facts);
            collect_expr_facts(then_e, tables, facts);
            collect_expr_facts(else_e, tables, facts);
        }
    }
}

fn collect_call_facts(call: &Call, tables: &EffectTables, facts: &mut FunctionFacts)
    ensures
        final(facts)@ == call_facts(view::call(*call), tables@, old(facts)@),
    decreases call, 0int,
{
    collect_exprs_facts(&call.args, tables, facts);
    insert_text(&mut facts.callees, call.callee_key.as_str());
}

fn collect_exprs_facts(exprs: &Vec<Expr>, tables: &EffectTables, facts: &mut FunctionFacts)
    ensures
        final(facts)@ == exprs_facts(view::exprs(exprs@), 0, tables@, old(facts)@),
    decreases exprs, 0int,
{
    let ghost all = view::exprs(exprs@);
    let ghost start = facts@;
    let mut i: usize = 0;
    while i < exprs.len()
        invariant
            i <= exprs.len(),
            all == view::exprs(exprs@),
            start == old(facts)@,
            exprs_facts(all, 0, tables@, start) == exprs_facts(all, i as int, tables@, facts@),
        decreases exprs.len() - i,
    {
        assert(all[i as int] == view::expr(exprs@[i as int]));
        collect_expr_facts(&exprs[i], tables, facts);
        i += 1;
    }
}

fn collect_fields_facts(fields: &Vec<FieldExpr>, tables: &EffectTables, facts: &mut FunctionFacts)
    ensures
        final(facts)@ == fields_facts(
            view::field_exprs(fields@),
            name_order(view::field_exprs(fields@), fields@.len() as int),
            0,
            tables@,
            old(facts)@,
        ),
    decreases fields, 0int,
{
    let ghost all = view::field_exprs(fields@);
    let ghost start = facts@;
    let order = find_name_order(fields);
    let ghost places = positions(order@);
    let mut i: usize = 0;
    while i < order.len()
        invariant
            i <= order.len(),
            all == view::field_exprs(fields@),
            all.len() == fields@.len(),
            places == positions(order@),
            places == name_order(all, fields@.len() as int),
            forall|k: int| 0 <= k < order@.len() ==> (#[trigger] order@[k]) < fields@.len(),
            start == old(facts)@,
            fields_facts(all, places, 0, tables@, start) == fields_facts(all, places, i as int, tables@, facts@),
        decreases order.len() - i,
    {
        let place: usize = order[i];
        assert(places[i as int] == place as int);
        assert(all[place as int] == view::field_expr(fields@[place as int]));
        collect_expr_facts(&fields[place].value, tables, facts);
        i += 1;
    }
}

pub(crate) fn collect_statements_facts(body: &Vec<Statement>, tables: &EffectTables, facts: &mut FunctionFacts)
    ensures
        final(facts)@ == body_facts(view::statements(body@), 0, tables@, old(facts)@),
    decreases body, 0int,
{
    let ghost all = view::statements(body@);
    let ghost start = facts@;
    let mut i: usize = 0;
    while i < body.len()
        invariant
            i <= body.len(),
            all == view::statements(body@),
            start == old(facts)@,
            body_facts(all, 0, tables@, start) == body_facts(all, i as int, tables@, facts@),
        decreases body.len() - i,
    {
        assert(all[i as int] == view::statement(body@[i as int]));
        collect_statement_facts(&body[i], tables, facts);
        i += 1;
    }
}

fn collect_arms_facts(arms: &Vec<MatchArm>, tables: &EffectTables, facts: &mut FunctionFacts)
    ensures
        final(facts)@ == arms_facts(view::match_arms(arms@), 0, tables@, old(facts)@),
    decreases arms, 0int,
{
    let ghost all = view::match_arms(arms@);
    let ghost start = facts@;
    let mut i: usize = 0;
    while i < arms.len()
        invariant
            i <= arms.len(),
            all == view::match_arms(arms@),
            start == old(facts)@,
            arms_facts(all, 0, tables@, start) == arms_facts(all, i as int, tables@, facts@),
        decreases arms.len() - i,
    {
        assert(all[i as int] == view::match_arm(arms@[i as int]));
        collect_statements_facts(&arms[i].body, tables, facts);
        i += 1;
    }
}

fn collect_pairs_facts(items: &Vec<(Expr, Expr)>, tables: &EffectTables, facts: &mut FunctionFacts)
    ensures
        final(facts)@ == pairs_facts(view::expr_pairs(items@), 0, tables@, old(facts)@),
    decreases items, 0int,
{
    let ghost all = view::expr_pairs(items@);
    let ghost start = facts@;
    let mut i: usize = 0;
    while i < items.len()
        invariant
            i <= items.len(),
            all == view::expr_pairs(items@),
            start == old(facts)@,
            pairs_facts(all, 0, tables@, start) == pairs_facts(all, i as int, tables@, facts@),
        decreases items.len() - i,
    {
        assert(all[i as int] == (view::expr(items@[i as int].0), view::expr(items@[i as int].1)));
        collect_expr_facts(&items[i].0, tables, facts);
        collect_expr_facts(&items[i].1, tables, facts);
        i += 1;
    }
}

fn collect_statement_facts(statement: &Statement, tables: &EffectTables, facts: &mut FunctionFacts)
    ensures
        final(facts)@ == statement_facts(view::statement(*statement), tables@, old(facts)@),
    decreases statement, 0int,
{
    match statement {
        Statement::Call(call) => collect_call_facts(call, tables, facts),
        Statement::Let { value, .. } => match value {
            LetValue::Call(call) => collect_call_facts(call, tables, facts),
            LetValue::Expr(expr) => collect_expr_facts(expr, tables, facts),
        },
        Statement::Assign { value, .. } => collect_expr_facts(value, tables, facts),
        Statement::Return(value) => collect_expr_facts(value, tables, facts),
        Statement::Eval(value) => collect_expr_facts(value, tables, facts),
        Statement::Match { target, arms } => {
            collect_expr_facts(target, tables, facts);
            collect_arms_facts(arms, tables, facts);
        }
        Statement::If { cond, then_body, else_body } => {
            collect_expr_facts(cond, tables, facts);
            collect_statements_facts(then_body, tables, facts);
            collect_statements_facts(else_body, tables, facts);
        }
        Statement::While { cond, body } => {
            collect_expr_facts(cond, tables, facts);
            collect_statements_facts(body, tables, facts);
        }
        Statement::For { source, body, .. } => {
            collect_expr_facts(source, tables, facts);
            collect_statements_facts(body, tables, facts);
        }
        Statement::Task { body, .. } => collect_statements_facts(body, tables, facts),
        Statement::Spawn { value, .. } => collect_expr_facts(value, tables, facts),
        Statement::Join { .. } | Statement::Break | Statement::Continue => {}
    }
}

pub(crate) fn empty_facts() -> (facts: FunctionFacts)
    ensures
        facts@ == no_facts(),
{
    let facts = FunctionFacts { direct: Vec::new(), callees: Vec::new() };
    assert(witnesses(facts.direct@) =~= Seq::<WitnessView>::empty());
    assert(view::texts(facts.callees@) =~= Seq::<Seq<char>>::empty());
    facts
}

pub(crate) fn collect_function_facts(signature: &FunctionSig, tables: &EffectTables) -> (facts: FunctionFacts)
    ensures
        facts@ == function_facts(view::function_sig(*signature), tables@),
{
    let mut facts = empty_facts();
    match &signature.owner_effect {
        Some(owner) => record(&mut facts.direct, owner, "deffect owner"),
        None => {}
    }
    match &signature.body {
        FunctionBody::Wasm { import, .. } => record_import(import, false, tables, &mut facts),
        FunctionBody::User { statements } => collect_statements_facts(statements, tables, &mut facts),
    }
    facts
}

// Inference.

/// The call graph: the functions' keys, in order, and what each does itself.
pub struct GraphView {
    pub keys: Seq<Seq<char>>,
    pub facts: Seq<FactsView>,
}

impl GraphView {
    /// Every key names one function.
    pub open spec fn well_formed(self) -> bool {
        self.keys.len() == self.facts.len() && forall|i: int, j: int|
            0 <= i < j < self.keys.len() ==> (#[trigger] self.keys[i]) != (#[trigger] self.keys[j])
    }
}

/// The place of a key, or the length.
pub open spec fn node_from(keys: Seq<Seq<char>>, from: int, key: Seq<char>) -> int
    decreases keys.len() - from,
{
    if from < 0 || from >= keys.len() {
        keys.len() as int
    } else if keys[from] == key {
        from
    } else {
        node_from(keys, from + 1, key)
    }
}

/// The list with the effects of `callees[from..]` as far as they are known.
pub open spec fn called_effects(
    keys: Seq<Seq<char>>,
    inferred: Seq<Seq<WitnessView>>,
    callees: Seq<Seq<char>>,
    from: int,
    list: Seq<WitnessView>,
) -> Seq<WitnessView>
    decreases callees.len() - from,
{
    if from < 0 || from >= callees.len() {
        list
    } else {
        let node = node_from(keys, 0, callees[from]);
        called_effects(
            keys,
            inferred,
            callees,
            from + 1,
            if 0 <= node < inferred.len() {
                merged_call(list, inferred[node], 0, callees[from])
            } else {
                list
            },
        )
    }
}

/// What a function performs by what is known so far.
pub open spec fn candidate(graph: GraphView, inferred: Seq<Seq<WitnessView>>, caller: int) -> Seq<WitnessView> {
    called_effects(graph.keys, inferred, graph.facts[caller].callees, 0, graph.facts[caller].direct)
}

/// The functions from `from` on that call `callee`, behind `done`.
pub open spec fn callers_from(graph: GraphView, callee: int, from: int, done: Seq<int>) -> Seq<int>
    decreases graph.facts.len() - from,
{
    if from < 0 || from >= graph.facts.len() {
        done
    } else {
        callers_from(
            graph,
            callee,
            from + 1,
            if graph.facts[from].callees.contains(graph.keys[callee]) {
                done.push(from)
            } else {
                done
            },
        )
    }
}

/// The first function of the worklist is looked at again.
pub open spec fn updated(graph: GraphView, inferred: Seq<Seq<WitnessView>>, caller: int) -> Seq<WitnessView> {
    merged(inferred[caller], candidate(graph, inferred, caller), 0)
}

/// The worklist behind a look at `caller`: whoever calls it is looked at again
/// when something was added.
pub open spec fn requeued(graph: GraphView, inferred: Seq<Seq<WitnessView>>, queue: Seq<int>, caller: int) -> Seq<int> {
    if updated(graph, inferred, caller).len() != inferred[caller].len() {
        queue.drop_first() + callers_from(graph, caller, 0, Seq::empty())
    } else {
        queue.drop_first()
    }
}

/// What is inferred once the worklist is empty, if it is within `rounds`.
pub open spec fn settled(
    graph: GraphView,
    inferred: Seq<Seq<WitnessView>>,
    queue: Seq<int>,
    rounds: nat,
) -> Option<Seq<Seq<WitnessView>>>
    decreases rounds,
{
    if queue.len() == 0 {
        Some(inferred)
    } else if rounds == 0 {
        None
    } else {
        let caller = queue[0];
        settled(
            graph,
            inferred.update(caller, updated(graph, inferred, caller)),
            requeued(graph, inferred, queue, caller),
            (rounds - 1) as nat,
        )
    }
}

pub open spec fn initial(graph: GraphView) -> Seq<Seq<WitnessView>> {
    Seq::new(graph.facts.len(), |i: int| graph.facts[i].direct)
}

pub open spec fn everyone(graph: GraphView) -> Seq<int> {
    Seq::new(graph.facts.len(), |i: int| i)
}

/// `result` is what the inference ends with.
pub open spec fn inferred_as(graph: GraphView, result: Seq<Seq<WitnessView>>) -> bool {
    exists|rounds: nat| settled(graph, initial(graph), everyone(graph), rounds) == Some(result)
}

pub open spec fn graph_of(entries: Seq<FunctionEntryView>, tables: TablesView) -> GraphView {
    GraphView {
        keys: Seq::new(entries.len(), |i: int| entries[i].key),
        facts: Seq::new(entries.len(), |i: int| function_facts(entries[i].signature, tables)),
    }
}

// Lemmas on witness lists.

pub open spec fn distinct(list: Seq<WitnessView>) -> bool {
    forall|i: int, j: int| 0 <= i < j < list.len() ==> (#[trigger] list[i]).label != (#[trigger] list[j]).label
}

pub open spec fn extends(before: Seq<WitnessView>, after: Seq<WitnessView>) -> bool {
    before.len() <= after.len() && after.take(before.len() as int) == before
}

pub proof fn lemma_recorded(list: Seq<WitnessView>, label: EffectLabelView, source: Seq<char>)
    ensures
        distinct(list) ==> distinct(recorded(list, label, source)),
        extends(list, recorded(list, label, source)),
        forall|other: EffectLabelView| #[trigger]
            performs(recorded(list, label, source), other) == (performs(list, other) || other == label),
{
    let after = recorded(list, label, source);
    assert(after.take(list.len() as int) =~= list);
    assert forall|other: EffectLabelView| #[trigger] performs(after, other) == (performs(list, other) || other
        == label) by {
        if performs(list, other) {
            let k = choose|k: int| 0 <= k < list.len() && (#[trigger] list[k]).label == other;
            assert(after[k] == list[k]);
        }
        if other == label && !performs(list, label) {
            assert(after[list.len() as int].label == label);
        }
        if performs(after, other) {
            let k = choose|k: int| 0 <= k < after.len() && (#[trigger] after[k]).label == other;
            if k < list.len() {
                assert(list[k].label == other);
            }
        }
    }
    if distinct(list) && !performs(list, label) {
        assert forall|i: int, j: int| 0 <= i < j < after.len() implies (#[trigger] after[i]).label != (
        #[trigger] after[j]).label by {
            if j == list.len() {
                assert(list[i].label != label);
            }
        }
    }
}

proof fn lemma_extends(first: Seq<WitnessView>, second: Seq<WitnessView>, third: Seq<WitnessView>)
    requires
        extends(first, second),
        extends(second, third),
    ensures
        extends(first, third),
{
    assert(third.take(first.len() as int) =~= second.take(first.len() as int));
}

/// Whether a label occurs in `more[from..]`.
pub open spec fn performs_from(more: Seq<WitnessView>, from: int, label: EffectLabelView) -> bool {
    exists|i: int| from <= i < more.len() && (#[trigger] more[i]).label == label
}

pub proof fn lemma_performs_step(more: Seq<WitnessView>, from: int, label: EffectLabelView)
    requires
        0 <= from < more.len(),
    ensures
        performs_from(more, from, label) == (more[from].label == label || performs_from(more, from + 1, label)),
{
    if performs_from(more, from, label) && more[from].label != label {
        let k = choose|k: int| from <= k < more.len() && (#[trigger] more[k]).label == label;
        assert(from + 1 <= k);
    }
    if performs_from(more, from + 1, label) {
        let k = choose|k: int| from + 1 <= k < more.len() && (#[trigger] more[k]).label == label;
        assert(more[k].label == label);
    }
}

pub proof fn lemma_merged(list: Seq<WitnessView>, more: Seq<WitnessView>, from: int)
    requires
        0 <= from,
    ensures
        distinct(list) ==> distinct(merged(list, more, from)),
        extends(list, merged(list, more, from)),
        forall|label: EffectLabelView| #[trigger]
            performs(merged(list, more, from), label) == (performs(list, label) || performs_from(more, from, label)),
    decreases more.len() - from,
{
    if from < more.len() {
        let next = recorded(list, more[from].label, more[from].source);
        lemma_recorded(list, more[from].label, more[from].source);
        lemma_merged(next, more, from + 1);
        lemma_extends(list, next, merged(list, more, from));
        assert forall|label: EffectLabelView| #[trigger]
            performs(merged(list, more, from), label)
                == (performs(list, label) || performs_from(more, from, label)) by {
            lemma_performs_step(more, from, label);
            assert(performs(next, label) == (performs(list, label) || label == more[from].label));
        }
    } else {
        assert(list.take(list.len() as int) =~= list);
    }
}

pub proof fn lemma_merged_call(list: Seq<WitnessView>, more: Seq<WitnessView>, from: int, source: Seq<char>)
    requires
        0 <= from,
    ensures
        distinct(list) ==> distinct(merged_call(list, more, from, source)),
        forall|label: EffectLabelView| #[trigger]
            performs(merged_call(list, more, from, source), label) == (performs(list, label) || performs_from(
                more,
                from,
                label,
            )),
    decreases more.len() - from,
{
    if from < more.len() {
        let next = recorded(list, more[from].label, source);
        lemma_recorded(list, more[from].label, source);
        lemma_merged_call(next, more, from + 1, source);
        assert forall|label: EffectLabelView| #[trigger]
            performs(merged_call(list, more, from, source), label) == (performs(list, label) || performs_from(
                more,
                from,
                label,
            )) by {
            lemma_performs_step(more, from, label);
            assert(performs(next, label) == (performs(list, label) || label == more[from].label));
            assert(performs(merged_call(next, more, from + 1, source), label) == (performs(next, label)
                || performs_from(more, from + 1, label)));
        }
    }
}

proof fn lemma_labelled(list: Seq<WitnessView>, labels: Seq<EffectLabelView>, from: int, source: Seq<char>)
    requires
        0 <= from,
        distinct(list),
    ensures
        distinct(labelled(list, labels, from, source)),
    decreases labels.len() - from,
{
    if from < labels.len() {
        lemma_recorded(list, labels[from], source);
        lemma_labelled(recorded(list, labels[from], source), labels, from + 1, source);
    }
}

// Facts have distinct labels.

proof fn lemma_import_distinct(import: HostImportNameView, intrinsic: bool, tables: TablesView, facts: FactsView)
    requires
        distinct(facts.direct),
    ensures
        distinct(import_facts(import, intrinsic, tables, facts).direct),
{
    let effects = if intrinsic {
        import_effects(tables.intrinsics, 0, import, true)
    } else {
        import_effects(tables.imports, 0, import, false)
    };
    lemma_labelled(facts.direct, effects, 0, import.module + "."@ + import.name);
}

proof fn lemma_expr_distinct(expr: ExprView, tables: TablesView, facts: FactsView)
    requires
        distinct(facts.direct),
    ensures
        distinct(expr_facts(expr, tables, facts).direct),
    decreases expr, 0int,
{
    match expr {
        ExprView::Value(_) | ExprView::VarRef(_) => {},
        ExprView::Mutable(inner) => lemma_expr_distinct(*inner, tables, facts),
        ExprView::Reference { target, .. } => lemma_expr_distinct(*target, tables, facts),
        ExprView::Call { call, .. } => lemma_call_distinct(call, tables, facts),
        ExprView::HostCall { import, args, intrinsic, .. } => {
            lemma_import_distinct(import, intrinsic, tables, facts);
            lemma_exprs_distinct(args, 0, tables, import_facts(import, intrinsic, tables, facts));
        },
        ExprView::Primitive { args, .. } => lemma_exprs_distinct(args, 0, tables, facts),
        ExprView::Cast { from, .. } => lemma_expr_distinct(*from, tables, facts),
        ExprView::PolicyNarrow { from, .. } => lemma_expr_distinct(*from, tables, facts),
        ExprView::EnumConstructor { payload, .. } => match payload {
            Some(payload) => lemma_expr_distinct(*payload, tables, facts),
            None => {},
        },
        ExprView::Record(fields) => lemma_fields_distinct(
            fields,
            name_order(fields, fields.len() as int),
            0,
            tables,
            facts,
        ),
        ExprView::Tuple(items) => lemma_exprs_distinct(items, 0, tables, facts),
        ExprView::Array(items) => lemma_exprs_distinct(items, 0, tables, facts),
        ExprView::Mapping(items) => lemma_pairs_distinct(items, 0, tables, facts),
        ExprView::Range { start, end, step } => {
            lemma_expr_distinct(*start, tables, facts);
            let one = expr_facts(*start, tables, facts);
            lemma_expr_distinct(*end, tables, one);
            lemma_expr_distinct(*step, tables, expr_facts(*end, tables, one));
        },
        ExprView::If { cond, then_e, else_e } => {
            lemma_expr_distinct(*cond, tables, facts);
            let one = expr_facts(*cond, tables, facts);
            lemma_expr_distinct(*then_e, tables, one);
            lemma_expr_distinct(*else_e, tables, expr_facts(*then_e, tables, one));
        },
    }
}

proof fn lemma_call_distinct(call: CallView, tables: TablesView, facts: FactsView)
    requires
        distinct(facts.direct),
    ensures
        distinct(call_facts(call, tables, facts).direct),
    decreases call, 0int,
{
    lemma_exprs_distinct(call.args, 0, tables, facts);
}

proof fn lemma_exprs_distinct(exprs: Seq<ExprView>, from: int, tables: TablesView, facts: FactsView)
    requires
        distinct(facts.direct),
    ensures
        distinct(exprs_facts(exprs, from, tables, facts).direct),
    decreases exprs, exprs.len() - from,
{
    if 0 <= from < exprs.len() {
        lemma_expr_distinct(exprs[from], tables, facts);
        lemma_exprs_distinct(exprs, from + 1, tables, expr_facts(exprs[from], tables, facts));
    }
}

proof fn lemma_fields_distinct(
    fields: Seq<FieldExprView>,
    order: Seq<int>,
    from: int,
    tables: TablesView,
    facts: FactsView,
)
    requires
        distinct(facts.direct),
    ensures
        distinct(fields_facts(fields, order, from, tables, facts).direct),
    decreases fields, order.len() - from,
{
    if 0 <= from < order.len() && 0 <= order[from] < fields.len() {
        lemma_expr_distinct(fields[order[from]].value, tables, facts);
        lemma_fields_distinct(
            fields,
            order,
            from + 1,
            tables,
            expr_facts(fields[order[from]].value, tables, facts),
        );
    }
}

proof fn lemma_pairs_distinct(items: Seq<(ExprView, ExprView)>, from: int, tables: TablesView, facts: FactsView)
    requires
        distinct(facts.direct),
    ensures
        distinct(pairs_facts(items, from, tables, facts).direct),
    decreases items, items.len() - from,
{
    if 0 <= from < items.len() {
        lemma_expr_distinct(items[from].0, tables, facts);
        let one = expr_facts(items[from].0, tables, facts);
        lemma_expr_distinct(items[from].1, tables, one);
        lemma_pairs_distinct(items, from + 1, tables, expr_facts(items[from].1, tables, one));
    }
}

proof fn lemma_statement_distinct(statement: StatementView, tables: TablesView, facts: FactsView)
    requires
        distinct(facts.direct),
    ensures
        distinct(statement_facts(statement, tables, facts).direct),
    decreases statement, 0int,
{
    match statement {
        StatementView::Call(call) => lemma_call_distinct(call, tables, facts),
        StatementView::Let { value, .. } => match value {
            LetValueView::Call(call) => lemma_call_distinct(call, tables, facts),
            LetValueView::Expr(expr) => lemma_expr_distinct(expr, tables, facts),
        },
        StatementView::Assign { value, .. } => lemma_expr_distinct(value, tables, facts),
        StatementView::Return(value) => lemma_expr_distinct(value, tables, facts),
        StatementView::Eval(value) => lemma_expr_distinct(value, tables, facts),
        StatementView::Match { target, arms } => {
            lemma_expr_distinct(target, tables, facts);
            lemma_arms_distinct(arms, 0, tables, expr_facts(target, tables, facts));
        },
        StatementView::If { cond, then_body, else_body } => {
            lemma_expr_distinct(cond, tables, facts);
            let one = expr_facts(cond, tables, facts);
            lemma_body_distinct(then_body, 0, tables, one);
            lemma_body_distinct(else_body, 0, tables, body_facts(then_body, 0, tables, one));
        },
        StatementView::While { cond, body } => {
            lemma_expr_distinct(cond, tables, facts);
            lemma_body_distinct(body, 0, tables, expr_facts(cond, tables, facts));
        },
        StatementView::For { source, body, .. } => {
            lemma_expr_distinct(source, tables, facts);
            lemma_body_distinct(body, 0, tables, expr_facts(source, tables, facts));
        },
        StatementView::Task { body, .. } => lemma_body_distinct(body, 0, tables, facts),
        StatementView::Spawn { value, .. } => lemma_expr_distinct(value, tables, facts),
        StatementView::Join { .. } | StatementView::Break | StatementView::Continue => {},
    }
}

proof fn lemma_body_distinct(body: Seq<StatementView>, from: int, tables: TablesView, facts: FactsView)
    requires
        distinct(facts.direct),
    ensures
        distinct(body_facts(body, from, tables, facts).direct),
    decreases body, body.len() - from,
{
    if 0 <= from < body.len() {
        lemma_statement_distinct(body[from], tables, facts);
        lemma_body_distinct(body, from + 1, tables, statement_facts(body[from], tables, facts));
    }
}

proof fn lemma_arms_distinct(arms: Seq<MatchArmView>, from: int, tables: TablesView, facts: FactsView)
    requires
        distinct(facts.direct),
    ensures
        distinct(arms_facts(arms, from, tables, facts).direct),
    decreases arms, arms.len() - from,
{
    if 0 <= from < arms.len() {
        lemma_body_distinct(arms[from].body, 0, tables, facts);
        lemma_arms_distinct(arms, from + 1, tables, body_facts(arms[from].body, 0, tables, facts));
    }
}

/// No effect of a function has two witnesses.
pub proof fn law_direct_effects_are_distinct(signature: FunctionSigView, tables: TablesView)
    ensures
        distinct(function_facts(signature, tables).direct),
{
    let owned = match signature.owner_effect {
        Some(owner) => FactsView { direct: recorded(Seq::empty(), owner, "deffect owner"@), callees: Seq::empty() },
        None => no_facts(),
    };
    match signature.owner_effect {
        Some(owner) => lemma_recorded(Seq::empty(), owner, "deffect owner"@),
        None => {},
    }
    match signature.body {
        FunctionBodyView::Wasm { import, .. } => lemma_import_distinct(import, false, tables, owned),
        FunctionBodyView::User { statements } => lemma_body_distinct(statements, 0, tables, owned),
    }
}

} // verus!
