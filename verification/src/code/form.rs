//! Structural forms and their text.
use vstd::prelude::*;
use crate::code::copy;
use crate::code::lines::{dedent_fragment, trim_line_feeds};
use crate::code::model::{CodeError, CodeErrorKind, Entry, Form, Path};
use crate::code::view::{self, CodeErrorView, EntryView, FormView, PathView};
use crate::text::{concat_two, owned, same_text};
use crate::yaml::model::{YamlEntry, YamlValue};
use crate::yaml::read::{as_text, parse, place_of};
use crate::yaml::view::{YamlEntryView, YamlValueView};

verus! {

/// An error without a place.
pub open spec fn failed(kind: CodeErrorKind, message: Seq<char>) -> CodeErrorView {
    CodeErrorView { kind, message, document: None, path: None }
}

pub open spec fn in_document(error: CodeErrorView, document: Seq<char>) -> CodeErrorView {
    CodeErrorView { document: Some(document), ..error }
}

pub open spec fn on_path(error: CodeErrorView, path: PathView) -> CodeErrorView {
    CodeErrorView { path: Some(path), ..error }
}

impl CodeError {
    pub fn new(kind: CodeErrorKind, message: String) -> (error: CodeError)
        ensures
            view::code_error(error) == failed(kind, message@),
    {
        CodeError { kind, message, document: None, path: None }
    }

    pub fn at_document(self, document: String) -> (error: CodeError)
        ensures
            view::code_error(error) == in_document(view::code_error(self), document@),
    {
        CodeError { kind: self.kind, message: self.message, document: Some(document), path: self.path }
    }

    pub fn at_path(self, path: Path) -> (error: CodeError)
        ensures
            view::code_error(error) == on_path(view::code_error(self), view::path(path)),
    {
        CodeError { kind: self.kind, message: self.message, document: self.document, path: Some(path) }
    }

    /// The error as text.
    pub fn to_text(&self) -> (text: String)
        ensures
            text@ == view::code_error(*self).message,
    {
        self.message.clone()
    }
}

pub fn fail(kind: CodeErrorKind, message: &str) -> (error: CodeError)
    ensures
        view::code_error(error) == failed(kind, message@),
{
    CodeError::new(kind, owned(message))
}

pub open spec fn form_outcome(result: Result<Form, CodeError>) -> Result<FormView, CodeErrorView> {
    match result {
        Ok(form) => Ok(view::form(form)),
        Err(error) => Err(view::code_error(error)),
    }
}

pub open spec fn text_outcome(result: Result<String, CodeError>) -> Result<Seq<char>, CodeErrorView> {
    match result {
        Ok(text) => Ok(text@),
        Err(error) => Err(view::code_error(error)),
    }
}

pub open spec fn unit_outcome(result: Result<(), CodeError>) -> Result<(), CodeErrorView> {
    match result {
        Ok(_) => Ok(()),
        Err(error) => Err(view::code_error(error)),
    }
}

/// The numeral of an integer read as a float.
pub uninterp spec fn float_numeral(value: u64) -> Seq<char>;

/// `serde_yaml::Number::as_f64` of an integer, as the text of that number.
#[verifier::external_body]
fn float_text(value: u64) -> (text: String)
    ensures
        text@ == float_numeral(value),
{
    serde_yaml::Number::from(value).as_f64().map(|float| serde_yaml::Number::from(float).to_string()).unwrap_or_default()
}

/// The form of a YAML value.
pub open spec fn form_of_value(value: YamlValueView) -> Result<FormView, CodeErrorView>
    decreases value, 0int,
{
    match value {
        YamlValueView::Null => Ok(FormView::Null),
        YamlValueView::Bool(value) => Ok(FormView::Bool(value)),
        YamlValueView::Int(value) => Ok(FormView::Int(value)),
        YamlValueView::Large(value) => Ok(FormView::Float(float_numeral(value))),
        YamlValueView::Float(text) => Ok(FormView::Float(text)),
        YamlValueView::Text(text) => Ok(FormView::String(text)),
        YamlValueView::Sequence(items) => {
            match forms_of_values(items, 0, Seq::empty()) {
                Err(error) => Err(error),
                Ok(forms) => {
                    Ok(FormView::Sequence(forms))

                },
            }
        },
        YamlValueView::Mapping(entries) => {
            match forms_of_entries(entries, 0, Seq::empty()) {
                Err(error) => Err(error),
                Ok(forms) => {
                    Ok(FormView::Mapping(forms))

                },
            }
        },
        YamlValueView::Tagged(_, _) => Err(
            failed(CodeErrorKind::InvalidForm, "YAML tags are not part of the Vibra source subset"@),
        ),
    }
}

pub open spec fn forms_of_values(items: Seq<YamlValueView>, from: int, done: Seq<FormView>) -> Result<
Seq<FormView>,
CodeErrorView,
>
    decreases items, items.len() - from,
{
    if from < 0 || from >= items.len() {
        Ok(done)
    } else {
        match form_of_value(items[from]) {
            Err(error) => Err(error),
            Ok(form) => {
                forms_of_values(items, from + 1, done.push(form))

            },
        }
    }
}

pub open spec fn forms_of_entries(entries: Seq<YamlEntryView>, from: int, done: Seq<EntryView>) -> Result<
Seq<EntryView>,
CodeErrorView,
>
    decreases entries, entries.len() - from,
{
    if from < 0 || from >= entries.len() {
        Ok(done)
    } else {
        match crate::yaml::read::text_of(entries[from].key) {
            None => Err(failed(CodeErrorKind::InvalidForm, "Vibra structural mapping keys must be strings"@)),
            Some(key) => {
                match form_of_value(entries[from].value) {
                    Err(error) => Err(error),
                    Ok(value) => {
                        forms_of_entries(entries, from + 1, done.push(EntryView { key, value }))

                    },
                }
            },
        }
    }
}

/// A YAML mapping with a text key set: in its place, or at the end.
pub open spec fn with_entry(entries: Seq<YamlEntryView>, key: Seq<char>, value: YamlValueView) -> Seq<YamlEntryView> {
    let entry = YamlEntryView { key: YamlValueView::Text(key), value };
    match crate::yaml::read::key_place(entries, 0, key) {
        Some(place) => entries.update(place, entry),
        None => entries.push(entry),
    }
}

/// The YAML value of a form.
pub open spec fn value_of_form(form: FormView) -> YamlValueView
    decreases form, 0int,
{
    match form {
        FormView::Null => YamlValueView::Null,
        FormView::Bool(value) => YamlValueView::Bool(value),
        FormView::Int(value) => YamlValueView::Int(value),
        FormView::Float(text) => YamlValueView::Float(text),
        FormView::String(text) => YamlValueView::Text(text),
        FormView::Sequence(forms) => YamlValueView::Sequence(values_of_forms(forms, 0, Seq::empty())),
        FormView::Mapping(entries) => YamlValueView::Mapping(values_of_entries(entries, 0, Seq::empty())),
    }
}

pub open spec fn values_of_forms(forms: Seq<FormView>, from: int, done: Seq<YamlValueView>) -> Seq<YamlValueView>
    decreases forms, forms.len() - from,
{
    if from < 0 || from >= forms.len() {
        done
    } else {
        values_of_forms(forms, from + 1, done.push(value_of_form(forms[from])))
    }
}

pub open spec fn values_of_entries(entries: Seq<EntryView>, from: int, done: Seq<YamlEntryView>) -> Seq<YamlEntryView>
    decreases entries, entries.len() - from,
{
    if from < 0 || from >= entries.len() {
        done
    } else {
        values_of_entries(entries, from + 1, with_entry(done, entries[from].key, value_of_form(entries[from].value)))
    }
}

/// The form of a text.
pub open spec fn parsed_form(source: Seq<char>) -> Result<FormView, CodeErrorView> {
    match crate::yaml::read::parsed_yaml(crate::code::lines::dedented(source)) {
        Err(message) => Err(failed(CodeErrorKind::InvalidSource, "parse structural form: "@ + message)),
        Ok(value) => form_of_value(value),
    }
}

/// The text of a form.
pub open spec fn rendered_form(form: FormView) -> Result<Seq<char>, CodeErrorView> {
    match crate::yaml::render::rendered(value_of_form(form)) {
        Err(message) => Err(failed(CodeErrorKind::InvalidForm, "render structural form: "@ + message)),
        Ok(text) => Ok(crate::code::lines::without_line_feeds(text)),
    }
}

pub(crate) fn read_values(items: &Vec<YamlValue>) -> (result: Result<Vec<Form>, CodeError>)
    ensures
        forms_of_values(crate::yaml::view::yaml_values(items@), 0, Seq::empty()) == (match result {
                Ok(forms) => Ok(view::forms(forms@)),
                Err(error) => Err(view::code_error(error)),
        }),
    decreases items,
{
    let ghost all = crate::yaml::view::yaml_values(items@);
    let mut done: Vec<Form> = Vec::new();
    assert(view::forms(done@) =~= Seq::<FormView>::empty());
    let mut i: usize = 0;
    while i < items.len()
        invariant
            i <= items.len(),
            all == crate::yaml::view::yaml_values(items@),
            forms_of_values(all, 0, Seq::empty()) == forms_of_values(all, i as int, view::forms(done@)),
        decreases items.len() - i,
    {
        assert(all[i as int] == crate::yaml::view::yaml_value(items@[i as int]));
        let form = match read_value(&items[i]) {
            Ok(value) => value,
            Err(error) => return Err(error),
        };
        let ghost before = done@;
        done.push(form);
        proof {
            view::lemma_forms_push(before, done@.last());
        }
        i += 1;
    }
    Ok(done)
}

fn read_entries(entries: &Vec<YamlEntry>) -> (result: Result<Vec<Entry>, CodeError>)
    ensures
        forms_of_entries(crate::yaml::view::yaml_entries(entries@), 0, Seq::empty()) == (match result {
                Ok(entries) => Ok(view::entries(entries@)),
                Err(error) => Err(view::code_error(error)),
        }),
    decreases entries,
{
    let ghost all = crate::yaml::view::yaml_entries(entries@);
    let mut done: Vec<Entry> = Vec::new();
    assert(view::entries(done@) =~= Seq::<EntryView>::empty());
    let mut i: usize = 0;
    while i < entries.len()
        invariant
            i <= entries.len(),
            all == crate::yaml::view::yaml_entries(entries@),
            forms_of_entries(all, 0, Seq::empty()) == forms_of_entries(all, i as int, view::entries(done@)),
        decreases entries.len() - i,
    {
        assert(all[i as int] == crate::yaml::view::yaml_entry(entries@[i as int]));
        let key = match as_text(&entries[i].key) {
            Some(key) => key.clone(),
            None => return Err(fail(CodeErrorKind::InvalidForm, "Vibra structural mapping keys must be strings")),
        };
        let value = match read_value(&entries[i].value) {
            Ok(value) => value,
            Err(error) => return Err(error),
        };
        let ghost before = done@;
        done.push(Entry { key, value });
        proof {
            view::lemma_entries_push(before, done@.last());
        }
        i += 1;
    }
    Ok(done)
}

/// The form of a YAML value.
pub fn read_value(value: &YamlValue) -> (result: Result<Form, CodeError>)
    ensures
        form_outcome(result) == form_of_value(crate::yaml::view::yaml_value(*value)),
    decreases value,
{
    match value {
        YamlValue::Null => Ok(Form::Null),
        YamlValue::Bool(value) => Ok(Form::Bool(*value)),
        YamlValue::Int(value) => Ok(Form::Int(*value)),
        YamlValue::Large(value) => Ok(Form::Float(float_text(*value))),
        YamlValue::Float(text) => Ok(Form::Float(text.clone())),
        YamlValue::Text(text) => Ok(Form::String(text.clone())),
        YamlValue::Sequence(items) => {
            let forms = match read_values(items) {
                Ok(value) => value,
                Err(error) => return Err(error),
            };
            Ok(Form::Sequence(forms))
        }
        YamlValue::Mapping(entries) => {
            let forms = match read_entries(entries) {
                Ok(value) => value,
                Err(error) => return Err(error),
            };
            Ok(Form::Mapping(forms))
        }
        YamlValue::Tagged(_, _) => Err(
            fail(CodeErrorKind::InvalidForm, "YAML tags are not part of the Vibra source subset"),
        ),
    }
}

/// Sets a text key of a YAML mapping.
pub(crate) fn set_entry(entries: &mut Vec<YamlEntry>, key: &str, value: YamlValue)
    ensures
        crate::yaml::view::yaml_entries(final(entries)@) == with_entry(
            crate::yaml::view::yaml_entries(old(entries)@),
            key@,
            crate::yaml::view::yaml_value(value),
        ),
{
    let ghost before = entries@;
    let ghost all = crate::yaml::view::yaml_entries(before);
    let entry = YamlEntry { key: YamlValue::Text(owned(key)), value };
    let ghost added = crate::yaml::view::yaml_entry(entry);
    match place_of(entries, key) {
        Some(place) => {
            entries.set(place, entry);
            proof {
                let found = crate::yaml::view::yaml_entries(entries@);
                let expected = all.update(place as int, added);
                assert forall|i: int| 0 <= i < found.len() implies found[i] == expected[i] by {
                    assert(found[i] == crate::yaml::view::yaml_entry(entries@[i]));
                    assert(all[i] == crate::yaml::view::yaml_entry(before[i]));
                }
                assert(found =~= expected);
            }
        }
        None => {
            entries.push(entry);
            proof {
                crate::yaml::view::lemma_yaml_entries_push(before, entry);
            }
        }
    }
}

fn write_values(forms: &Vec<Form>) -> (values: Vec<YamlValue>)
    ensures
        crate::yaml::view::yaml_values(values@) == values_of_forms(view::forms(forms@), 0, Seq::empty()),
    decreases forms,
{
    let ghost all = view::forms(forms@);
    let mut done: Vec<YamlValue> = Vec::new();
    assert(crate::yaml::view::yaml_values(done@) =~= Seq::<YamlValueView>::empty());
    let mut i: usize = 0;
    while i < forms.len()
        invariant
            i <= forms.len(),
            all == view::forms(forms@),
            values_of_forms(all, 0, Seq::empty()) == values_of_forms(
                all,
                i as int,
                crate::yaml::view::yaml_values(done@),
            ),
        decreases forms.len() - i,
    {
        assert(all[i as int] == view::form(forms@[i as int]));
        let ghost before = done@;
        let value = forms[i].to_yaml_value();
        done.push(value);
        proof {
            crate::yaml::view::lemma_yaml_values_push(before, done@.last());
        }
        i += 1;
    }
    done
}

fn write_entries(entries: &Vec<Entry>) -> (values: Vec<YamlEntry>)
    ensures
        crate::yaml::view::yaml_entries(values@) == values_of_entries(view::entries(entries@), 0, Seq::empty()),
    decreases entries,
{
    let ghost all = view::entries(entries@);
    let mut done: Vec<YamlEntry> = Vec::new();
    assert(crate::yaml::view::yaml_entries(done@) =~= Seq::<YamlEntryView>::empty());
    let mut i: usize = 0;
    while i < entries.len()
        invariant
            i <= entries.len(),
            all == view::entries(entries@),
            values_of_entries(all, 0, Seq::empty()) == values_of_entries(
                all,
                i as int,
                crate::yaml::view::yaml_entries(done@),
            ),
        decreases entries.len() - i,
    {
        assert(all[i as int] == view::entry(entries@[i as int]));
        let value = entries[i].value.to_yaml_value();
        set_entry(&mut done, entries[i].key.as_str(), value);
        i += 1;
    }
    done
}

impl Form {
    /// Parses a fragment of source text.
    pub fn parse(source: &str) -> (result: Result<Form, CodeError>)
        ensures
            form_outcome(result) == parsed_form(source@),
    {
        let fragment = dedent_fragment(source);
        match parse(fragment.as_str()) {
            Err(message) => Err(
                CodeError::new(CodeErrorKind::InvalidSource, concat_two("parse structural form: ", message.as_str())),
            ),
            Ok(value) => read_value(&value),
        }
    }

    /// The source text of the form.
    pub fn render(&self) -> (result: Result<String, CodeError>)
        ensures
            text_outcome(result) == rendered_form(view::form(*self)),
    {
        let value = self.to_yaml_value();
        match crate::yaml::render::render(&value) {
            Err(message) => Err(
                CodeError::new(CodeErrorKind::InvalidForm, concat_two("render structural form: ", message.as_str())),
            ),
            Ok(text) => Ok(trim_line_feeds(text.as_str())),
        }
    }

    pub fn from_yaml_value(value: YamlValue) -> (result: Result<Form, CodeError>)
        ensures
            form_outcome(result) == form_of_value(crate::yaml::view::yaml_value(value)),
    {
        read_value(&value)
    }

    pub fn to_yaml_value(&self) -> (value: YamlValue)
        ensures
            crate::yaml::view::yaml_value(value) == value_of_form(view::form(*self)),
        decreases self,
    {
        match self {
            Form::Null => YamlValue::Null,
            Form::Bool(value) => YamlValue::Bool(*value),
            Form::Int(value) => YamlValue::Int(*value),
            Form::Float(text) => YamlValue::Float(text.clone()),
            Form::String(text) => YamlValue::Text(text.clone()),
            Form::Sequence(forms) => YamlValue::Sequence(write_values(forms)),
            Form::Mapping(entries) => YamlValue::Mapping(write_entries(entries)),
        }
    }

    pub fn copied(&self) -> (form: Form)
        ensures
            view::form(form) == view::form(*self),
    {
        copy::form(self)
    }
}

// Equality.

pub open spec fn is_zero(numeral: Seq<char>) -> bool {
    numeral == "0.0"@ || numeral == "-0.0"@
}

/// Floats are equal by value: the two zeros are, and what is not a number
/// equals nothing.
pub open spec fn same_float(left: Seq<char>, right: Seq<char>) -> bool {
    (left == right && left != ".nan"@) || (is_zero(left) && is_zero(right))
}

pub open spec fn same_form(left: FormView, right: FormView) -> bool
    decreases left, 0int,
{
    match (left, right) {
        (FormView::Null, FormView::Null) => true,
        (FormView::Bool(left), FormView::Bool(right)) => left == right,
        (FormView::Int(left), FormView::Int(right)) => left == right,
        (FormView::Float(left), FormView::Float(right)) => same_float(left, right),
        (FormView::String(left), FormView::String(right)) => left == right,
        (
            FormView::Sequence(left),
            FormView::Sequence(right),
        ) => left.len() == right.len() && same_forms(left, right, 0),
        (
            FormView::Mapping(left),
            FormView::Mapping(right),
        ) => left.len() == right.len() && same_entries(left, right, 0),
        _ => false,
    }
}

pub open spec fn same_forms(left: Seq<FormView>, right: Seq<FormView>, from: int) -> bool
    decreases left, left.len() - from,
{
    if from < 0 || from >= left.len() {
        true
    } else {
        same_form(left[from], right[from]) && same_forms(left, right, from + 1)
    }
}

pub open spec fn same_entries(left: Seq<EntryView>, right: Seq<EntryView>, from: int) -> bool
    decreases left, left.len() - from,
{
    if from < 0 || from >= left.len() {
        true
    } else {
        left[from].key == right[from].key && same_form(left[from].value, right[from].value) && same_entries(
            left,
            right,
            from + 1,
        )
    }
}

fn zero(numeral: &str) -> (result: bool)
    ensures
        result == is_zero(numeral@),
{
    same_text(numeral, "0.0") || same_text(numeral, "-0.0")
}

fn equal_forms(left: &Vec<Form>, right: &Vec<Form>) -> (result: bool)
    requires
        left@.len() == right@.len(),
    ensures
        result == same_forms(view::forms(left@), view::forms(right@), 0),
    decreases left,
{
    let ghost mine = view::forms(left@);
    let ghost theirs = view::forms(right@);
    let mut i: usize = 0;
    while i < left.len()
        invariant
            i <= left.len(),
            left@.len() == right@.len(),
            mine == view::forms(left@),
            theirs == view::forms(right@),
            same_forms(mine, theirs, 0) == same_forms(mine, theirs, i as int),
        decreases left.len() - i,
    {
        assert(mine[i as int] == view::form(left@[i as int]));
        assert(theirs[i as int] == view::form(right@[i as int]));
        if !left[i].same(&right[i]) {
            return false;
        }
        i += 1;
    }
    true
}

fn equal_entries(left: &Vec<Entry>, right: &Vec<Entry>) -> (result: bool)
    requires
        left@.len() == right@.len(),
    ensures
        result == same_entries(view::entries(left@), view::entries(right@), 0),
    decreases left,
{
    let ghost mine = view::entries(left@);
    let ghost theirs = view::entries(right@);
    let mut i: usize = 0;
    while i < left.len()
        invariant
            i <= left.len(),
            left@.len() == right@.len(),
            mine == view::entries(left@),
            theirs == view::entries(right@),
            same_entries(mine, theirs, 0) == same_entries(mine, theirs, i as int),
        decreases left.len() - i,
    {
        assert(mine[i as int] == view::entry(left@[i as int]));
        assert(theirs[i as int] == view::entry(right@[i as int]));
        if !same_text(left[i].key.as_str(), right[i].key.as_str()) {
            return false;
        }
        if !left[i].value.same(&right[i].value) {
            return false;
        }
        i += 1;
    }
    true
}

impl Form {
    pub fn same(&self, other: &Form) -> (result: bool)
        ensures
            result == same_form(view::form(*self), view::form(*other)),
        decreases self,
    {
        match (self, other) {
            (Form::Null, Form::Null) => true,
            (Form::Bool(left), Form::Bool(right)) => *left == *right,
            (Form::Int(left), Form::Int(right)) => *left == *right,
            (Form::Float(left), Form::Float(right)) => {
                (same_text(left.as_str(), right.as_str()) && !same_text(left.as_str(), ".nan")) || (zero(left.as_str())
                    && zero(right.as_str()))
            }
            (Form::String(left), Form::String(right)) => same_text(left.as_str(), right.as_str()),
            (Form::Sequence(left), Form::Sequence(right)) => {
                assert(view::forms(left@).len() == left@.len() && view::forms(right@).len() == right@.len());
                left.len() == right.len() && equal_forms(left, right)
            }
            (Form::Mapping(left), Form::Mapping(right)) => {
                assert(view::entries(left@).len() == left@.len() && view::entries(right@).len() == right@.len());
                left.len() == right.len() && equal_entries(left, right)
            }
            _ => false,
        }
    }
}

} // verus!
