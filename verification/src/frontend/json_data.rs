//! Reading JSON and XML into compile-time data.
use vstd::prelude::*;
use crate::frontend::model::{CompileField, CompileValue};
use crate::frontend::compile_value::set_field;
use crate::frontend::view::{self, CompileFieldView, CompileValueView};
use crate::execute::strings::{parse_signed, ParsedInt};
use crate::text::{has_char, owned};

verus! {

/// A parsed value of the JSON library.
#[verifier::external_type_specification]
#[verifier::external_body]
pub struct ExternalJson(serde_json::Value);

/// One node of a parsed value, without what is below it.
#[derive(Debug)]
pub enum JsonShape {
    Null,
    Bool(bool),
    Number(String),
    Text(String),
    Array(usize),
    Object(Vec<String>),
}

/// A field of a parsed value.
pub struct JsonFieldView {
    pub key: Seq<char>,
    pub value: JsonView,
}

/// What a parsed value holds.
#[allow(inconsistent_fields)]
pub enum JsonView {
    Null,
    Bool(bool),
    Number(Seq<char>),
    Text(Seq<char>),
    Array(Seq<JsonView>),
    Object(Seq<JsonFieldView>),
}

/// What a parsed value holds.
pub uninterp spec fn json_contents(value: serde_json::Value) -> JsonView;

/// The bits of the float that a JSON number writes, if it is finite.
pub uninterp spec fn float_bits(text: Seq<char>) -> Option<u64>;

/// `serde_json::Number::as_f64` of the number that a text writes.
#[verifier::external_body]
fn parse_float(text: &str) -> (bits: Option<u64>)
    ensures
        bits == float_bits(text@),
{
    serde_json::from_str::<serde_json::Number>(text).ok()?.as_f64().map(|float| float.to_bits())
}

/// Whether a numeral is that of a float.
pub open spec fn is_float(text: Seq<char>) -> bool {
    text.contains('.') || text.contains('e') || text.contains('E')
}

/// The data that a JSON number stands for: a float where it is written as one,
/// else an integer that must fit.
pub open spec fn number_of(text: Seq<char>) -> Result<CompileValueView, Seq<char>> {
    if is_float(text) {
        match float_bits(text) {
            Some(bits) => Ok(CompileValueView::Float(bits)),
            None => Err("E-EMBED-005: structured float is outside Vibra numeric range"@),
        }
    } else {
        match crate::execute::strings::signed_numeral(text) {
            ParsedInt::Value(value) => Ok(CompileValueView::Int(value)),
            _ => Err("E-EMBED-005: structured integer is outside signed 64-bit range"@),
        }
    }
}

pub fn read_number(text: &str) -> (result: Result<CompileValue, String>)
    ensures
        crate::frontend::compile_value::data_outcome(result) == number_of(text@),
{
    if has_char(text, '.') || has_char(text, 'e') || has_char(text, 'E') {
        match parse_float(text) {
            Some(bits) => Ok(CompileValue::Float(bits)),
            None => Err(owned("E-EMBED-005: structured float is outside Vibra numeric range")),
        }
    } else {
        match parse_signed(text) {
            ParsedInt::Value(value) => Ok(CompileValue::Int(value)),
            _ => Err(owned("E-EMBED-005: structured integer is outside signed 64-bit range")),
        }
    }
}

/// What bytes parse to as JSON.
pub uninterp spec fn parsed_json(bytes: Seq<u8>) -> Option<JsonView>;

/// What a text parses to as XML.
pub uninterp spec fn parsed_xml(text: Seq<char>) -> Option<JsonView>;

pub open spec fn contents_option(value: Option<serde_json::Value>) -> Option<JsonView> {
    match value {
        Some(value) => Some(json_contents(value)),
        None => None,
    }
}

/// `serde_json::from_slice` into a value; none where the bytes are not JSON.
#[verifier::external_body]
pub(crate) fn parse_json(bytes: &Vec<u8>) -> (value: Option<serde_json::Value>)
    ensures
        contents_option(value) == parsed_json(bytes@),
{
    serde_json::from_slice(bytes).ok()
}

/// `quick_xml::de::from_str` into a `serde_json` value; none where the text is not
/// XML.
#[verifier::external_body]
pub(crate) fn parse_xml(text: &str) -> (value: Option<serde_json::Value>)
    ensures
        contents_option(value) == parsed_xml(text@),
{
    quick_xml::de::from_str(text).ok()
}

/// Whether a value is of a shape.
pub open spec fn is_shaped(value: JsonView, shape: JsonShape) -> bool {
    match (value, shape) {
        (JsonView::Null, JsonShape::Null) => true,
        (JsonView::Bool(held), JsonShape::Bool(shown)) => held == shown,
        (JsonView::Number(held), JsonShape::Number(shown)) => held == shown@,
        (JsonView::Text(held), JsonShape::Text(shown)) => held == shown@,
        (JsonView::Array(items), JsonShape::Array(count)) => items.len() == count,
        (JsonView::Object(fields), JsonShape::Object(keys)) => keys@.len() == fields.len() && forall|i: int|
            0 <= i < fields.len() ==> (#[trigger] keys@[i])@ == fields[i].key,
        _ => false,
    }
}

/// The variants of `serde_json::Value`, numbers by their text.
#[verifier::external_body]
fn shape_of(value: &serde_json::Value) -> (shape: JsonShape)
    ensures
        is_shaped(json_contents(*value), shape),
{
    match value {
        serde_json::Value::Null => JsonShape::Null,
        serde_json::Value::Bool(value) => JsonShape::Bool(*value),
        serde_json::Value::Number(number) => JsonShape::Number(number.to_string()),
        serde_json::Value::String(text) => JsonShape::Text(text.clone()),
        serde_json::Value::Array(items) => JsonShape::Array(items.len()),
        serde_json::Value::Object(fields) => JsonShape::Object(fields.keys().cloned().collect()),
    }
}


/// An item of a `serde_json` array by its index.
#[verifier::external_body]
fn item_at(value: &serde_json::Value, index: usize) -> (item: serde_json::Value)
    requires
        json_contents(*value) is Array,
        index < json_contents(*value)->Array_0.len(),
    ensures
        json_contents(item) == json_contents(*value)->Array_0[index as int],
{
    value[index].clone()
}

/// A value of a `serde_json` object by its position.
#[verifier::external_body]
fn field_at(value: &serde_json::Value, index: usize) -> (inner: serde_json::Value)
    requires
        json_contents(*value) is Object,
        index < json_contents(*value)->Object_0.len(),
    ensures
        json_contents(inner) == json_contents(*value)->Object_0[index as int].value,
{
    value.as_object().and_then(|fields| fields.values().nth(index)).cloned().unwrap_or_default()
}

/// The data that a parsed value stands for.
pub open spec fn data_of(value: JsonView) -> Result<CompileValueView, Seq<char>>
    decreases value, 0int,
{
    match value {
        JsonView::Null => Ok(CompileValueView::Null),
        JsonView::Bool(value) => Ok(CompileValueView::Bool(value)),
        JsonView::Number(text) => number_of(text),
        JsonView::Text(text) => Ok(CompileValueView::String(text)),
        JsonView::Array(items) => match items_of(items, 0, Seq::empty()) {
            Err(error) => Err(error),
            Ok(items) => Ok(CompileValueView::Array(items)),
        },
        JsonView::Object(fields) => match fields_of(fields, 0, Seq::empty()) {
            Err(error) => Err(error),
            Ok(fields) => Ok(CompileValueView::Record(fields)),
        },
    }
}

pub open spec fn items_of(items: Seq<JsonView>, from: int, done: Seq<CompileValueView>) -> Result<
    Seq<CompileValueView>,
    Seq<char>,
>
    decreases items, items.len() - from,
{
    if from < 0 || from >= items.len() {
        Ok(done)
    } else {
        match data_of(items[from]) {
            Err(error) => Err(error),
            Ok(item) => items_of(items, from + 1, done.push(item)),
        }
    }
}

pub open spec fn fields_of(fields: Seq<JsonFieldView>, from: int, done: Seq<CompileFieldView>) -> Result<
    Seq<CompileFieldView>,
    Seq<char>,
>
    decreases fields, fields.len() - from,
{
    if from < 0 || from >= fields.len() {
        Ok(done)
    } else {
        match data_of(fields[from].value) {
            Err(error) => Err(error),
            Ok(value) => fields_of(
                fields,
                from + 1,
                crate::frontend::compile_value::with_field(
                    done,
                    0,
                    CompileFieldView { name: fields[from].key, value },
                ),
            ),
        }
    }
}

fn read_items(value: &serde_json::Value, count: usize) -> (result: Result<Vec<CompileValue>, String>)
    requires
        json_contents(*value) is Array,
        json_contents(*value)->Array_0.len() == count,
    ensures
        items_of(json_contents(*value)->Array_0, 0, Seq::empty()) == (match result {
            Ok(items) => Ok(view::compile_values(items@)),
            Err(message) => Err(message@),
        }),
    decreases json_contents(*value), 0int,
{
    let ghost whole = json_contents(*value);
    let ghost all = whole->Array_0;
    let mut done: Vec<CompileValue> = Vec::new();
    assert(view::compile_values(done@) =~= Seq::<CompileValueView>::empty());
    let mut i: usize = 0;
    while i < count
        invariant
            i <= count == all.len(),
            whole == json_contents(*value),
            whole is Array,
            all == whole->Array_0,
            items_of(all, 0, Seq::empty()) == items_of(all, i as int, view::compile_values(done@)),
        decreases count - i,
    {
        assert(decreases_to!(whole => whole->Array_0));
        assert(decreases_to!(whole->Array_0 => all[i as int]));
        let item = match read(&item_at(value, i)) {
            Ok(value) => value,
            Err(error) => return Err(error),
        };
        let ghost before = done@;
        done.push(item);
        proof {
            view::lemma_compile_values_push(before, done@.last());
        }
        i += 1;
    }
    Ok(done)
}

fn read_fields(value: &serde_json::Value, keys: &Vec<String>) -> (result: Result<Vec<CompileField>, String>)
    requires
        json_contents(*value) is Object,
        json_contents(*value)->Object_0.len() == keys@.len(),
        forall|i: int|
            0 <= i < keys@.len() ==> (#[trigger] keys@[i])@ == json_contents(*value)->Object_0[i].key,
    ensures
        fields_of(json_contents(*value)->Object_0, 0, Seq::empty()) == (match result {
            Ok(fields) => Ok(view::compile_fields(fields@)),
            Err(message) => Err(message@),
        }),
    decreases json_contents(*value), 0int,
{
    let ghost whole = json_contents(*value);
    let ghost all = whole->Object_0;
    let mut done: Vec<CompileField> = Vec::new();
    assert(view::compile_fields(done@) =~= Seq::<CompileFieldView>::empty());
    let mut i: usize = 0;
    while i < keys.len()
        invariant
            i <= keys@.len() == all.len(),
            whole == json_contents(*value),
            whole is Object,
            all == whole->Object_0,
            forall|j: int| 0 <= j < keys@.len() ==> (#[trigger] keys@[j])@ == all[j].key,
            fields_of(all, 0, Seq::empty()) == fields_of(all, i as int, view::compile_fields(done@)),
        decreases keys.len() - i,
    {
        let ghost field = all[i as int];
        assert(decreases_to!(whole => whole->Object_0));
        assert(decreases_to!(whole->Object_0 => field));
        assert(decreases_to!(field => field.value));
        assert(keys@[i as int]@ == field.key);
        let inner = match read(&field_at(value, i)) {
            Ok(value) => value,
            Err(error) => return Err(error),
        };
        set_field(&mut done, CompileField { name: keys[i].clone(), value: inner });
        i += 1;
    }
    Ok(done)
}

/// The data of a parsed value.
pub(crate) fn read(value: &serde_json::Value) -> (result: Result<CompileValue, String>)
    ensures
        crate::frontend::compile_value::data_outcome(result) == data_of(json_contents(*value)),
    decreases json_contents(*value), 1int,
{
    match shape_of(value) {
        JsonShape::Null => Ok(CompileValue::Null),
        JsonShape::Bool(value) => Ok(CompileValue::Bool(value)),
        JsonShape::Number(text) => read_number(text.as_str()),
        JsonShape::Text(text) => Ok(CompileValue::String(text)),
        JsonShape::Array(count) => {
            let items = match read_items(value, count) {
                Ok(value) => value,
                Err(error) => return Err(error),
            };
            Ok(CompileValue::Array(items))
        }
        JsonShape::Object(keys) => {
            let fields = match read_fields(value, &keys) {
                Ok(value) => value,
                Err(error) => return Err(error),
            };
            Ok(CompileValue::Record(fields))
        }
    }
}

} // verus!
