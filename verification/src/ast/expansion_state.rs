//! Counters and fragments of macro expansion.
use vstd::prelude::*;
use crate::ast::copy;
use crate::ast::macro_error::{MacroErrorView, MacroExpansionError};
use crate::ast::surface::{Expr, Origin, Pattern, SyntaxCategory, TopLevel, TypeExpr};
use crate::ast::view::{self, ExprView, PatternView, TopLevelView, TypeExprView};
use crate::names::NameMap;
use crate::text::{concat_three, decimal_text};

verus! {

// Keep recursive expansion below the smallest supported native thread stack.
pub const TYPED_MACRO_MAX_EXPANSION_DEPTH: usize = 16;

pub const TYPED_MACRO_MAX_EVALUATION_STEPS: usize = 1_000_000;

pub const TYPED_MACRO_MAX_GENERATED_NODES: usize = 100_000;

/// The counters of one expansion run.
#[derive(Debug, Clone, Copy, PartialEq, Eq, Structural)]
pub struct ExpansionState {
    pub evaluation_steps: usize,
    pub generated_nodes: usize,
    pub hygiene_id: usize,
}

/// One more, held at the largest representable number.
pub open spec fn bumped(count: usize) -> usize {
    if count < usize::MAX {
        (count + 1) as usize
    } else {
        count
    }
}

fn bump(count: usize) -> (result: usize)
    ensures
        result == bumped(count),
{
    if count < usize::MAX {
        count + 1
    } else {
        count
    }
}

impl ExpansionState {
    pub open spec fn initial() -> ExpansionState {
        ExpansionState { evaluation_steps: 0, generated_nodes: 0, hygiene_id: 0 }
    }

    pub fn new() -> (state: Self)
        ensures
            state == ExpansionState::initial(),
    {
        ExpansionState { evaluation_steps: 0, generated_nodes: 0, hygiene_id: 0 }
    }

    /// One evaluation step.
    pub open spec fn stepping(self) -> ExpansionState {
        ExpansionState { evaluation_steps: bumped(self.evaluation_steps), ..self }
    }

    /// The state after one evaluation step, within the limit.
    pub open spec fn stepped(self, origin: Origin) -> Result<ExpansionState, MacroErrorView> {
        let state = self.stepping();
        if state.evaluation_steps > TYPED_MACRO_MAX_EVALUATION_STEPS {
            Err(
                MacroErrorView::at(
                    "E-MACRO-008"@,
                    "macro evaluation exceeded "@ + crate::text::decimal(TYPED_MACRO_MAX_EVALUATION_STEPS as nat)
                        + " steps"@,
                    origin,
                ),
            )
        } else {
            Ok(state)
        }
    }

    /// One generated node.
    pub open spec fn growing(self) -> ExpansionState {
        ExpansionState { generated_nodes: bumped(self.generated_nodes), ..self }
    }

    /// The state after one generated node, within the limit.
    pub open spec fn grown(self, origin: Origin) -> Result<ExpansionState, MacroErrorView> {
        let state = self.growing();
        if state.generated_nodes > TYPED_MACRO_MAX_GENERATED_NODES {
            Err(
                MacroErrorView::at(
                    "E-MACRO-009"@,
                    "macro expansion generated more than "@ + crate::text::decimal(
                        TYPED_MACRO_MAX_GENERATED_NODES as nat,
                    ) + " nodes"@,
                    origin,
                ),
            )
        } else {
            Ok(state)
        }
    }

    /// The state of the next quotation.
    pub open spec fn quoting(self) -> ExpansionState {
        ExpansionState { hygiene_id: bumped(self.hygiene_id), ..self }
    }

    pub(crate) fn next_quotation(&mut self)
        ensures
            *final(self) == old(self).quoting(),
    {
        self.hygiene_id = bump(self.hygiene_id);
    }
}

/// Counts one evaluation step against the limit.
pub fn step(state: &mut ExpansionState, origin: &Origin) -> (result: Result<(), MacroExpansionError>)
    ensures
        *final(state) == old(state).stepping(),
        match result {
            Ok(_) => old(state).stepped(*origin) == Ok::<ExpansionState, MacroErrorView>(*final(state)),
            Err(error) => old(state).stepped(*origin) == Err::<ExpansionState, MacroErrorView>(error@),
        },
{
    state.evaluation_steps = bump(state.evaluation_steps);
    if state.evaluation_steps > TYPED_MACRO_MAX_EVALUATION_STEPS {
        let limit = decimal_text(TYPED_MACRO_MAX_EVALUATION_STEPS as u64);
        return Err(
            MacroExpansionError::at(
                "E-MACRO-008",
                concat_three("macro evaluation exceeded ", limit.as_str(), " steps"),
                origin,
            ),
        );
    }
    Ok(())
}

/// Counts one generated node against the limit and returns its ordinal.
pub fn generated(state: &mut ExpansionState, origin: &Origin) -> (result: Result<u64, MacroExpansionError>)
    ensures
        *final(state) == old(state).growing(),
        match result {
            Ok(ordinal) => old(state).grown(*origin) == Ok::<ExpansionState, MacroErrorView>(*final(state)) && ordinal
                == final(state).generated_nodes,
            Err(error) => old(state).grown(*origin) == Err::<ExpansionState, MacroErrorView>(error@),
        },
{
    state.generated_nodes = bump(state.generated_nodes);
    if state.generated_nodes > TYPED_MACRO_MAX_GENERATED_NODES {
        let limit = decimal_text(TYPED_MACRO_MAX_GENERATED_NODES as u64);
        return Err(
            MacroExpansionError::at(
                "E-MACRO-009",
                concat_three("macro expansion generated more than ", limit.as_str(), " nodes"),
                origin,
            ),
        );
    }
    Ok(state.generated_nodes as u64)
}

/// The name of a category in diagnostics.
pub open spec fn category_name(category: SyntaxCategory) -> Seq<char> {
    match category {
        SyntaxCategory::Expression => "Expression"@,
        SyntaxCategory::Type => "Type"@,
        SyntaxCategory::Pattern => "Pattern"@,
        SyntaxCategory::Definition => "Definition"@,
        SyntaxCategory::Module => "Module"@,
    }
}

pub(crate) fn category_text(category: SyntaxCategory) -> (text: &'static str)
    ensures
        text@ == category_name(category),
{
    match category {
        SyntaxCategory::Expression => "Expression",
        SyntaxCategory::Type => "Type",
        SyntaxCategory::Pattern => "Pattern",
        SyntaxCategory::Definition => "Definition",
        SyntaxCategory::Module => "Module",
    }
}

/// A piece of syntax that a macro computes with.
#[derive(Debug)]
pub enum SyntaxFragment {
    Expression(Expr),
    Type(TypeExpr),
    Pattern(Pattern),
    Definition(TopLevel),
    Module(Vec<TopLevel>),
    Bool(bool),
}

/// What a [`SyntaxFragment`] holds.
pub enum FragmentView {
    Expression(ExprView),
    Type(TypeExprView),
    Pattern(PatternView),
    Definition(TopLevelView),
    Module(Seq<TopLevelView>),
    Bool(bool),
}

impl FragmentView {
    /// The syntax category; a truth value has none.
    pub open spec fn category(self) -> Option<SyntaxCategory> {
        match self {
            FragmentView::Expression(_) => Some(SyntaxCategory::Expression),
            FragmentView::Type(_) => Some(SyntaxCategory::Type),
            FragmentView::Pattern(_) => Some(SyntaxCategory::Pattern),
            FragmentView::Definition(_) => Some(SyntaxCategory::Definition),
            FragmentView::Module(_) => Some(SyntaxCategory::Module),
            FragmentView::Bool(_) => None,
        }
    }
}

impl View for SyntaxFragment {
    type V = FragmentView;

    open spec fn view(&self) -> FragmentView {
        match *self {
            SyntaxFragment::Expression(value) => FragmentView::Expression(view::expr(value)),
            SyntaxFragment::Type(value) => FragmentView::Type(view::type_expr(value)),
            SyntaxFragment::Pattern(value) => FragmentView::Pattern(view::pattern(value)),
            SyntaxFragment::Definition(value) => FragmentView::Definition(view::top_level(value)),
            SyntaxFragment::Module(values) => FragmentView::Module(view::top_levels(values@)),
            SyntaxFragment::Bool(value) => FragmentView::Bool(value),
        }
    }
}

impl SyntaxFragment {
    pub(crate) fn category(&self) -> (category: Option<SyntaxCategory>)
        ensures
            category == self@.category(),
    {
        match self {
            SyntaxFragment::Expression(_) => Some(SyntaxCategory::Expression),
            SyntaxFragment::Type(_) => Some(SyntaxCategory::Type),
            SyntaxFragment::Pattern(_) => Some(SyntaxCategory::Pattern),
            SyntaxFragment::Definition(_) => Some(SyntaxCategory::Definition),
            SyntaxFragment::Module(_) => Some(SyntaxCategory::Module),
            SyntaxFragment::Bool(_) => None,
        }
    }

    pub(crate) fn copy(&self) -> (result: SyntaxFragment)
        ensures
            result@ == self@,
    {
        match self {
            SyntaxFragment::Expression(value) => SyntaxFragment::Expression(copy::expr(value)),
            SyntaxFragment::Type(value) => SyntaxFragment::Type(copy::type_expr(value)),
            SyntaxFragment::Pattern(value) => SyntaxFragment::Pattern(copy::pattern(value)),
            SyntaxFragment::Definition(value) => SyntaxFragment::Definition(copy::top_level(value)),
            SyntaxFragment::Module(values) => SyntaxFragment::Module(copy::top_levels(values)),
            SyntaxFragment::Bool(value) => SyntaxFragment::Bool(*value),
        }
    }
}

impl NameMap<SyntaxFragment> {
    /// The compile-time bindings.
    pub open spec fn fragments(&self) -> Map<Seq<char>, FragmentView> {
        self@.map_values(|value: SyntaxFragment| value@)
    }

    pub(crate) fn find(&self, key: &str) -> (result: Option<&SyntaxFragment>)
        requires
            self.well_formed(),
        ensures
            match result {
                Some(value) => self.fragments().dom().contains(key@) && value@ == self.fragments()[key@],
                None => !self.fragments().dom().contains(key@),
            },
    {
        self.get(key)
    }

    pub(crate) fn bind_fragment(&mut self, key: String, value: SyntaxFragment)
        requires
            old(self).well_formed(),
        ensures
            final(self).well_formed(),
            final(self).fragments() == old(self).fragments().insert(key@, value@),
    {
        let ghost before = self.fragments();
        let ghost name = key@;
        let ghost fragment = value@;
        self.insert(key, value);
        assert(self.fragments() =~= before.insert(name, fragment));
    }

    pub(crate) fn new_environment() -> (result: Self)
        ensures
            result.well_formed(),
            result.fragments() == Map::<Seq<char>, FragmentView>::empty(),
    {
        let result = NameMap::<SyntaxFragment>::new();
        assert(result.fragments() =~= Map::<Seq<char>, FragmentView>::empty());
        result
    }
}

} // verus!
