//! Reading TOML into compile-time data.
use vstd::prelude::*;
use crate::frontend::model::{CompileField, CompileValue};
use crate::frontend::compile_value::set_field;
use crate::frontend::view::{self, CompileFieldView, CompileValueView};

verus! {

/// A parsed value of the TOML library.
#[verifier::external_type_specification]
#[verifier::external_body]
pub struct ExternalToml(toml::Value);

/// One node of a parsed value, without what is below it.
#[derive(Debug)]
pub enum TomlShape {
    Text(String),
    Integer(i64),
    Float(u64),
    Bool(bool),
    Datetime(String),
    Array(usize),
    Table(Vec<String>),
}

/// A field of a parsed value.
pub struct TomlFieldView {
    pub key: Seq<char>,
    pub value: TomlView,
}

/// What a parsed value holds.
#[allow(inconsistent_fields)]
pub enum TomlView {
    Text(Seq<char>),
    Integer(i64),
    Float(u64),
    Bool(bool),
    Datetime(Seq<char>),
    Array(Seq<TomlView>),
    Table(Seq<TomlFieldView>),
}

/// What a parsed value holds.
pub uninterp spec fn toml_contents(value: toml::Value) -> TomlView;

/// What a text parses to as TOML.
pub uninterp spec fn parsed_toml(text: Seq<char>) -> Option<TomlView>;

pub open spec fn contents_option(value: Option<toml::Value>) -> Option<TomlView> {
    match value {
        Some(value) => Some(toml_contents(value)),
        None => None,
    }
}

/// `toml::from_str` into a value; none where the text is not TOML.
#[verifier::external_body]
pub(crate) fn parse_toml(text: &str) -> (value: Option<toml::Value>)
    ensures
        contents_option(value) == parsed_toml(text@),
{
    toml::from_str(text).ok()
}

/// Whether a value is of a shape.
pub open spec fn is_shaped(value: TomlView, shape: TomlShape) -> bool {
    match (value, shape) {
        (TomlView::Text(held), TomlShape::Text(shown)) => held == shown@,
        (TomlView::Integer(held), TomlShape::Integer(shown)) => held == shown,
        (TomlView::Float(held), TomlShape::Float(shown)) => held == shown,
        (TomlView::Bool(held), TomlShape::Bool(shown)) => held == shown,
        (TomlView::Datetime(held), TomlShape::Datetime(shown)) => held == shown@,
        (TomlView::Array(items), TomlShape::Array(count)) => items.len() == count,
        (TomlView::Table(fields), TomlShape::Table(keys)) => keys@.len() == fields.len() && forall|i: int|
            0 <= i < fields.len() ==> (#[trigger] keys@[i])@ == fields[i].key,
        _ => false,
    }
}

/// The variants of `toml::Value`: floats by their bits, dates by their text.
#[verifier::external_body]
fn shape_of(value: &toml::Value) -> (shape: TomlShape)
    ensures
        is_shaped(toml_contents(*value), shape),
{
    match value {
        toml::Value::String(text) => TomlShape::Text(text.clone()),
        toml::Value::Integer(value) => TomlShape::Integer(*value),
        toml::Value::Float(value) => TomlShape::Float(value.to_bits()),
        toml::Value::Boolean(value) => TomlShape::Bool(*value),
        toml::Value::Datetime(value) => TomlShape::Datetime(value.to_string()),
        toml::Value::Array(items) => TomlShape::Array(items.len()),
        toml::Value::Table(fields) => TomlShape::Table(fields.keys().cloned().collect()),
    }
}


/// An item of a `toml` array by its index.
#[verifier::external_body]
fn item_at(value: &toml::Value, index: usize) -> (item: toml::Value)
    requires
        toml_contents(*value) is Array,
        index < toml_contents(*value)->Array_0.len(),
    ensures
        toml_contents(item) == toml_contents(*value)->Array_0[index as int],
{
    value[index].clone()
}

/// A value of a `toml` table by its position.
#[verifier::external_body]
fn field_at(value: &toml::Value, index: usize) -> (inner: toml::Value)
    requires
        toml_contents(*value) is Table,
        index < toml_contents(*value)->Table_0.len(),
    ensures
        toml_contents(inner) == toml_contents(*value)->Table_0[index as int].value,
{
    value.as_table().and_then(|fields| fields.values().nth(index)).cloned().unwrap_or(toml::Value::Boolean(false))
}

/// The data that a parsed value stands for.
pub open spec fn data_of(value: TomlView) -> Result<CompileValueView, Seq<char>>
    decreases value, 0int,
{
    match value {
        TomlView::Text(text) => Ok(CompileValueView::String(text)),
        TomlView::Integer(value) => Ok(CompileValueView::Int(value)),
        TomlView::Float(bits) => Ok(CompileValueView::Float(bits)),
        TomlView::Bool(value) => Ok(CompileValueView::Bool(value)),
        TomlView::Datetime(text) => Ok(CompileValueView::String(text)),
        TomlView::Array(items) => match items_of(items, 0, Seq::empty()) {
            Err(error) => Err(error),
            Ok(items) => Ok(CompileValueView::Array(items)),
        },
        TomlView::Table(fields) => match fields_of(fields, 0, Seq::empty()) {
            Err(error) => Err(error),
            Ok(fields) => Ok(CompileValueView::Record(fields)),
        },
    }
}

pub open spec fn items_of(items: Seq<TomlView>, from: int, done: Seq<CompileValueView>) -> Result<
    Seq<CompileValueView>,
    Seq<char>,
>
    decreases items, items.len() - from,
{
    if from < 0 || from >= items.len() {
        Ok(done)
    } else {
        match data_of(items[from]) {
            Err(error) => Err(error),
            Ok(item) => items_of(items, from + 1, done.push(item)),
        }
    }
}

pub open spec fn fields_of(fields: Seq<TomlFieldView>, from: int, done: Seq<CompileFieldView>) -> Result<
    Seq<CompileFieldView>,
    Seq<char>,
>
    decreases fields, fields.len() - from,
{
    if from < 0 || from >= fields.len() {
        Ok(done)
    } else {
        match data_of(fields[from].value) {
            Err(error) => Err(error),
            Ok(value) => fields_of(
                fields,
                from + 1,
                crate::frontend::compile_value::with_field(
                    done,
                    0,
                    CompileFieldView { name: fields[from].key, value },
                ),
            ),
        }
    }
}

fn read_items(value: &toml::Value, count: usize) -> (result: Result<Vec<CompileValue>, String>)
    requires
        toml_contents(*value) is Array,
        toml_contents(*value)->Array_0.len() == count,
    ensures
        items_of(toml_contents(*value)->Array_0, 0, Seq::empty()) == (match result {
            Ok(items) => Ok(view::compile_values(items@)),
            Err(message) => Err(message@),
        }),
    decreases toml_contents(*value), 0int,
{
    let ghost whole = toml_contents(*value);
    let ghost all = whole->Array_0;
    let mut done: Vec<CompileValue> = Vec::new();
    assert(view::compile_values(done@) =~= Seq::<CompileValueView>::empty());
    let mut i: usize = 0;
    while i < count
        invariant
            i <= count == all.len(),
            whole == toml_contents(*value),
            whole is Array,
            all == whole->Array_0,
            items_of(all, 0, Seq::empty()) == items_of(all, i as int, view::compile_values(done@)),
        decreases count - i,
    {
        assert(decreases_to!(whole => whole->Array_0));
        assert(decreases_to!(whole->Array_0 => all[i as int]));
        let item = match read(&item_at(value, i)) {
            Ok(value) => value,
            Err(error) => return Err(error),
        };
        let ghost before = done@;
        done.push(item);
        proof {
            view::lemma_compile_values_push(before, done@.last());
        }
        i += 1;
    }
    Ok(done)
}

fn read_fields(value: &toml::Value, keys: &Vec<String>) -> (result: Result<Vec<CompileField>, String>)
    requires
        toml_contents(*value) is Table,
        toml_contents(*value)->Table_0.len() == keys@.len(),
        forall|i: int|
            0 <= i < keys@.len() ==> (#[trigger] keys@[i])@ == toml_contents(*value)->Table_0[i].key,
    ensures
        fields_of(toml_contents(*value)->Table_0, 0, Seq::empty()) == (match result {
            Ok(fields) => Ok(view::compile_fields(fields@)),
            Err(message) => Err(message@),
        }),
    decreases toml_contents(*value), 0int,
{
    let ghost whole = toml_contents(*value);
    let ghost all = whole->Table_0;
    let mut done: Vec<CompileField> = Vec::new();
    assert(view::compile_fields(done@) =~= Seq::<CompileFieldView>::empty());
    let mut i: usize = 0;
    while i < keys.len()
        invariant
            i <= keys@.len() == all.len(),
            whole == toml_contents(*value),
            whole is Table,
            all == whole->Table_0,
            forall|j: int| 0 <= j < keys@.len() ==> (#[trigger] keys@[j])@ == all[j].key,
            fields_of(all, 0, Seq::empty()) == fields_of(all, i as int, view::compile_fields(done@)),
        decreases keys.len() - i,
    {
        let ghost field = all[i as int];
        assert(decreases_to!(whole => whole->Table_0));
        assert(decreases_to!(whole->Table_0 => field));
        assert(decreases_to!(field => field.value));
        assert(keys@[i as int]@ == field.key);
        let inner = match read(&field_at(value, i)) {
            Ok(value) => value,
            Err(error) => return Err(error),
        };
        set_field(&mut done, CompileField { name: keys[i].clone(), value: inner });
        i += 1;
    }
    Ok(done)
}

/// The data of a parsed value.
pub(crate) fn read(value: &toml::Value) -> (result: Result<CompileValue, String>)
    ensures
        crate::frontend::compile_value::data_outcome(result) == data_of(toml_contents(*value)),
    decreases toml_contents(*value), 1int,
{
    match shape_of(value) {
        TomlShape::Text(text) => Ok(CompileValue::String(text)),
        TomlShape::Integer(value) => Ok(CompileValue::Int(value)),
        TomlShape::Float(bits) => Ok(CompileValue::Float(bits)),
        TomlShape::Bool(value) => Ok(CompileValue::Bool(value)),
        TomlShape::Datetime(text) => Ok(CompileValue::String(text)),
        TomlShape::Array(count) => {
            let items = match read_items(value, count) {
                Ok(value) => value,
                Err(error) => return Err(error),
            };
            Ok(CompileValue::Array(items))
        }
        TomlShape::Table(keys) => {
            let fields = match read_fields(value, &keys) {
                Ok(value) => value,
                Err(error) => return Err(error),
            };
            Ok(CompileValue::Record(fields))
        }
    }
}

} // verus!
