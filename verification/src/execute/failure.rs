//! Why a run stopped.
use vstd::prelude::*;
use crate::lowered::copy;
use crate::lowered::ir::{RuntimeValue, TypeRef};
use crate::lowered::view::{self, TypeView, ValueView};
use crate::text::owned;

verus! {

/// One part of a message. Values and types are kept as they are, so that a
/// caller chooses how to show them.
#[derive(Debug)]
pub enum Part {
    Text(String),
    Value(RuntimeValue),
    Type(TypeRef),
}

pub enum PartView {
    Text(Seq<char>),
    Value(ValueView),
    Type(TypeView),
}

pub open spec fn part(part: Part) -> PartView {
    match part {
        Part::Text(text) => PartView::Text(text@),
        Part::Value(value) => PartView::Value(view::value(value)),
        Part::Type(ty) => PartView::Type(view::type_ref(ty)),
    }
}

/// A message that ends a run: its parts read one after the other.
#[derive(Debug)]
pub struct Failure {
    pub parts: Vec<Part>,
}

impl Failure {
    pub open spec fn view(&self) -> Seq<PartView> {
        Seq::new(self.parts@.len(), |i: int| part(self.parts@[i]))
    }

    /// A message of text alone.
    pub fn text(text: &str) -> (failure: Failure)
        ensures
            failure@ == text_failure(text@),
    {
        let mut parts: Vec<Part> = Vec::new();
        parts.push(Part::Text(owned(text)));
        let failure = Failure { parts };
        assert(failure@ =~= text_failure(text@));
        failure
    }

    /// A message that ends with a value.
    pub fn about(text: &str, value: &RuntimeValue) -> (failure: Failure)
        ensures
            failure@ == value_failure(text@, view::value(*value)),
    {
        let mut parts: Vec<Part> = Vec::new();
        parts.push(Part::Text(owned(text)));
        parts.push(Part::Value(copy::value(value)));
        let failure = Failure { parts };
        assert(failure@ =~= value_failure(text@, view::value(*value)));
        failure
    }

    /// A message that ends with a type.
    pub fn about_type(text: &str, ty: &TypeRef) -> (failure: Failure)
        ensures
            failure@ == type_failure(text@, view::type_ref(*ty)),
    {
        let mut parts: Vec<Part> = Vec::new();
        parts.push(Part::Text(owned(text)));
        parts.push(Part::Type(copy::type_ref(ty)));
        let failure = Failure { parts };
        assert(failure@ =~= type_failure(text@, view::type_ref(*ty)));
        failure
    }

    /// The message of an equality assertion that does not hold.
    pub fn mismatch(expected: &RuntimeValue, actual: &RuntimeValue) -> (failure: Failure)
        ensures
            failure@ == mismatch_failure(view::value(*expected), view::value(*actual)),
    {
        let mut parts: Vec<Part> = Vec::new();
        parts.push(Part::Text(owned("assertion failed: expected ")));
        parts.push(Part::Value(copy::value(expected)));
        parts.push(Part::Text(owned(", actual ")));
        parts.push(Part::Value(copy::value(actual)));
        let failure = Failure { parts };
        assert(failure@ =~= mismatch_failure(view::value(*expected), view::value(*actual)));
        failure
    }

    /// The message behind a prefix that says where it arose.
    pub fn within(self, context: &str) -> (failure: Failure)
        ensures
            failure@ == seq![PartView::Text(context@)] + self@,
    {
        let mut parts = self.parts;
        let ghost before = parts@;
        parts.insert(0, Part::Text(owned(context)));
        let failure = Failure { parts };
        assert(failure@ =~= seq![PartView::Text(context@)] + self@) by {
            assert forall|i: int| 0 <= i < failure@.len() implies failure@[i] == (seq![PartView::Text(context@)]
                + self@)[i] by {
                if i > 0 {
                    assert(failure.parts@[i] == before[i - 1]);
                }
            }
        }
        failure
    }
}

pub open spec fn text_failure(text: Seq<char>) -> Seq<PartView> {
    seq![PartView::Text(text)]
}

pub open spec fn value_failure(text: Seq<char>, value: ValueView) -> Seq<PartView> {
    seq![PartView::Text(text), PartView::Value(value)]
}

pub open spec fn type_failure(text: Seq<char>, ty: TypeView) -> Seq<PartView> {
    seq![PartView::Text(text), PartView::Type(ty)]
}

pub open spec fn mismatch_failure(expected: ValueView, actual: ValueView) -> Seq<PartView> {
    seq![
        PartView::Text("assertion failed: expected "@),
        PartView::Value(expected),
        PartView::Text(", actual "@),
        PartView::Value(actual),
    ]
}

} // verus!
