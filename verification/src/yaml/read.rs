//! Reading YAML text into values.
use vstd::prelude::*;
use crate::text::same_text;
use crate::yaml::model::{YamlEntry, YamlValue};
use crate::yaml::view::{self, YamlEntryView, YamlValueView};

verus! {

/// The parsed value of the YAML library.
#[verifier::external_type_specification]
#[verifier::external_body]
pub struct ExternalValue(serde_yaml::Value);

/// One node of a parsed value, without what is below it.
#[derive(Debug)]
pub enum YamlShape {
    Null,
    Bool(bool),
    Int(i64),
    Large(u64),
    Float(String),
    Text(String),
    Sequence(usize),
    Mapping(usize),
    Tagged(String),
}

/// What a value of the YAML library holds.
pub uninterp spec fn value_contents(value: serde_yaml::Value) -> YamlValueView;

/// The value that a text parses to, or the message of the parse error.
pub uninterp spec fn parsed_yaml(text: Seq<char>) -> Result<YamlValueView, Seq<char>>;

/// `serde_yaml::from_str` into a value: the same text gives the same value, or
/// the same error message.
#[verifier::external_body]
pub(crate) fn parse_value(text: &str) -> (result: Result<serde_yaml::Value, String>)
    ensures
        parsed_yaml(text@) == (match result {
                Ok(value) => Ok(value_contents(value)),
                Err(message) => Err(message@),
        }),
{
    serde_yaml::from_str::<serde_yaml::Value>(text).map_err(|error| error.to_string())
}

/// Whether a value is of a shape.
pub open spec fn is_shaped(value: YamlValueView, shape: YamlShape) -> bool {
    match (value, shape) {
        (YamlValueView::Null, YamlShape::Null) => true,
        (YamlValueView::Bool(held), YamlShape::Bool(shown)) => held == shown,
        (YamlValueView::Int(held), YamlShape::Int(shown)) => held == shown,
        (YamlValueView::Large(held), YamlShape::Large(shown)) => held == shown,
        (YamlValueView::Float(held), YamlShape::Float(shown)) => held == shown@,
        (YamlValueView::Text(held), YamlShape::Text(shown)) => held == shown@,
        (YamlValueView::Sequence(items), YamlShape::Sequence(count)) => items.len() == count,
        (YamlValueView::Mapping(entries), YamlShape::Mapping(count)) => entries.len() == count,
        (YamlValueView::Tagged(held, _), YamlShape::Tagged(shown)) => held == shown@,
        _ => false,
    }
}

/// The variants of `serde_yaml::Value`, with `Number::as_i64`, `Number::as_u64`
/// and the text of a number that is neither: the node at the top of a value.
#[verifier::external_body]
fn shape_of(value: &serde_yaml::Value) -> (shape: YamlShape)
    ensures
        is_shaped(value_contents(*value), shape),
{
    match value {
        serde_yaml::Value::Null => YamlShape::Null,
        serde_yaml::Value::Bool(value) => YamlShape::Bool(*value),
        serde_yaml::Value::Number(number) => match (number.as_i64(), number.as_u64()) {
            (Some(value), _) => YamlShape::Int(value),
            (None, Some(value)) => YamlShape::Large(value),
            (None, None) => YamlShape::Float(number.to_string()),
        },
        serde_yaml::Value::String(text) => YamlShape::Text(text.clone()),
        serde_yaml::Value::Sequence(items) => YamlShape::Sequence(items.len()),
        serde_yaml::Value::Mapping(entries) => YamlShape::Mapping(entries.len()),
        serde_yaml::Value::Tagged(tagged) => YamlShape::Tagged(tagged.tag.to_string()),
    }
}

/// An item of a `serde_yaml` sequence by its index.
#[verifier::external_body]
fn sequence_item(value: &serde_yaml::Value, index: usize) -> (item: serde_yaml::Value)
    requires
        value_contents(*value) is Sequence,
        index < value_contents(*value)->Sequence_0.len(),
    ensures
        value_contents(item) == value_contents(*value)->Sequence_0[index as int],
{
    match value {
        serde_yaml::Value::Sequence(items) => items[index].clone(),
        _ => serde_yaml::Value::Null,
    }
}

/// A key of a `serde_yaml` mapping by its position.
#[verifier::external_body]
fn mapping_key(value: &serde_yaml::Value, index: usize) -> (key: serde_yaml::Value)
    requires
        value_contents(*value) is Mapping,
        index < value_contents(*value)->Mapping_0.len(),
    ensures
        value_contents(key) == value_contents(*value)->Mapping_0[index as int].key,
{
    match value {
        serde_yaml::Value::Mapping(entries) => entries.keys().nth(index).cloned().unwrap_or_default(),
        _ => serde_yaml::Value::Null,
    }
}

/// A value of a `serde_yaml` mapping by its position.
#[verifier::external_body]
fn mapping_value(value: &serde_yaml::Value, index: usize) -> (inner: serde_yaml::Value)
    requires
        value_contents(*value) is Mapping,
        index < value_contents(*value)->Mapping_0.len(),
    ensures
        value_contents(inner) == value_contents(*value)->Mapping_0[index as int].value,
{
    match value {
        serde_yaml::Value::Mapping(entries) => entries.values().nth(index).cloned().unwrap_or_default(),
        _ => serde_yaml::Value::Null,
    }
}

/// The value behind a `serde_yaml` tag.
#[verifier::external_body]
fn tagged_value(value: &serde_yaml::Value) -> (inner: serde_yaml::Value)
    requires
        value_contents(*value) is Tagged,
    ensures
        value_contents(inner) == *value_contents(*value)->Tagged_1,
{
    match value {
        serde_yaml::Value::Tagged(tagged) => tagged.value.clone(),
        _ => serde_yaml::Value::Null,
    }
}

fn read_items(value: &serde_yaml::Value, count: usize) -> (items: Vec<YamlValue>)
    requires
        value_contents(*value) is Sequence,
        value_contents(*value)->Sequence_0.len() == count,
    ensures
        view::yaml_values(items@) == value_contents(*value)->Sequence_0,
    decreases value_contents(*value), 0int,
{
    let ghost all = value_contents(*value)->Sequence_0;
    let mut done: Vec<YamlValue> = Vec::new();
    assert(view::yaml_values(done@) =~= all.take(0));
    let mut i: usize = 0;
    while i < count
        invariant
            i <= count == all.len(),
            value_contents(*value) == YamlValueView::Sequence(all),
            view::yaml_values(done@) == all.take(i as int),
        decreases count - i,
    {
        let child = sequence_item(value, i);
        let ghost before = done@;
        assert(decreases_to!(YamlValueView::Sequence(all) => all[i as int]));
        done.push(read(&child));
        proof {
            view::lemma_yaml_values_push(before, done@.last());
            assert(all.take(i as int).push(all[i as int]) =~= all.take(i + 1));
        }
        i += 1;
    }
    assert(all.take(i as int) =~= all);
    done
}

fn read_entries(value: &serde_yaml::Value, count: usize) -> (entries: Vec<YamlEntry>)
    requires
        value_contents(*value) is Mapping,
        value_contents(*value)->Mapping_0.len() == count,
    ensures
        view::yaml_entries(entries@) == value_contents(*value)->Mapping_0,
    decreases value_contents(*value), 0int,
{
    let ghost all = value_contents(*value)->Mapping_0;
    let mut done: Vec<YamlEntry> = Vec::new();
    assert(view::yaml_entries(done@) =~= all.take(0));
    let mut i: usize = 0;
    while i < count
        invariant
            i <= count == all.len(),
            value_contents(*value) == YamlValueView::Mapping(all),
            view::yaml_entries(done@) == all.take(i as int),
        decreases count - i,
    {
        let ghost entry = all[i as int];
        let ghost whole = value_contents(*value);
        assert(decreases_to!(whole => whole->Mapping_0));
        assert(decreases_to!(whole->Mapping_0 => entry));
        assert(decreases_to!(entry => entry.key));
        assert(decreases_to!(entry => entry.value));
        let key = read(&mapping_key(value, i));
        let value = read(&mapping_value(value, i));
        let ghost before = done@;
        done.push(YamlEntry { key, value });
        proof {
            view::lemma_yaml_entries_push(before, done@.last());
            assert(view::yaml_entry(done@.last()) == all[i as int]);
            assert(all.take(i as int).push(all[i as int]) =~= all.take(i + 1));
        }
        i += 1;
    }
    assert(all.take(i as int) =~= all);
    done
}

/// The library's own value for a parsed one.
pub(crate) fn read(value: &serde_yaml::Value) -> (result: YamlValue)
    ensures
        view::yaml_value(result) == value_contents(*value),
    decreases value_contents(*value), 1int,
{
    match shape_of(value) {
        YamlShape::Null => YamlValue::Null,
        YamlShape::Bool(value) => YamlValue::Bool(value),
        YamlShape::Int(value) => YamlValue::Int(value),
        YamlShape::Large(value) => YamlValue::Large(value),
        YamlShape::Float(text) => YamlValue::Float(text),
        YamlShape::Text(text) => YamlValue::Text(text),
        YamlShape::Sequence(count) => YamlValue::Sequence(read_items(value, count)),
        YamlShape::Mapping(count) => YamlValue::Mapping(read_entries(value, count)),
        YamlShape::Tagged(tag) => YamlValue::Tagged(tag, Box::new(read(&tagged_value(value)))),
    }
}

pub open spec fn parse_outcome(result: Result<YamlValue, String>) -> Result<YamlValueView, Seq<char>> {
    match result {
        Ok(value) => Ok(view::yaml_value(value)),
        Err(message) => Err(message@),
    }
}

/// Parses a YAML text.
pub fn parse(text: &str) -> (result: Result<YamlValue, String>)
    ensures
        parse_outcome(result) == parsed_yaml(text@),
{
    match parse_value(text) {
        Ok(value) => Ok(read(&value)),
        Err(error) => Err(error),
    }
}

// Access through tags.

/// The value behind its tags.
pub open spec fn untagged(value: YamlValueView) -> YamlValueView
    decreases value,
{
    match value {
        YamlValueView::Tagged(_, inner) => untagged(*inner),
        _ => value,
    }
}

pub fn untag(value: &YamlValue) -> (result: &YamlValue)
    ensures
        view::yaml_value(*result) == untagged(view::yaml_value(*value)),
        !(*result is Tagged),
    decreases value,
{
    match value {
        YamlValue::Tagged(_, inner) => untag(inner),
        _ => value,
    }
}

pub open spec fn text_of(value: YamlValueView) -> Option<Seq<char>> {
    match untagged(value) {
        YamlValueView::Text(text) => Some(text),
        _ => None,
    }
}

pub open spec fn text_option(text: Option<&String>) -> Option<Seq<char>> {
    match text {
        Some(text) => Some(text@),
        None => None,
    }
}

pub fn as_text(value: &YamlValue) -> (text: Option<&String>)
    ensures
        text_option(text) == text_of(view::yaml_value(*value)),
{
    match untag(value) {
        YamlValue::Text(text) => Some(text),
        _ => None,
    }
}

pub open spec fn natural_of(value: YamlValueView) -> Option<u64> {
    match untagged(value) {
        YamlValueView::Int(number) => if number >= 0 {
            Some(number as u64)
        } else {
            None
        },
        YamlValueView::Large(number) => Some(number),
        _ => None,
    }
}

pub fn as_natural(value: &YamlValue) -> (number: Option<u64>)
    ensures
        number == natural_of(view::yaml_value(*value)),
{
    match untag(value) {
        YamlValue::Int(number) => if *number >= 0 {
            Some(*number as u64)
        } else {
            None
        },
        YamlValue::Large(number) => Some(*number),
        _ => None,
    }
}

pub open spec fn sequence_of(value: YamlValueView) -> Option<Seq<YamlValueView>> {
    match untagged(value) {
        YamlValueView::Sequence(items) => Some(items),
        _ => None,
    }
}

pub fn as_sequence(value: &YamlValue) -> (items: Option<&Vec<YamlValue>>)
    ensures
        sequence_of(view::yaml_value(*value)) == (match items {
                Some(items) => Some(view::yaml_values(items@)),
                None => None,
        }),
{
    match untag(value) {
        YamlValue::Sequence(items) => Some(items),
        _ => None,
    }
}

pub open spec fn mapping_of(value: YamlValueView) -> Option<Seq<YamlEntryView>> {
    match untagged(value) {
        YamlValueView::Mapping(entries) => Some(entries),
        _ => None,
    }
}

pub fn as_mapping(value: &YamlValue) -> (entries: Option<&Vec<YamlEntry>>)
    ensures
        mapping_of(view::yaml_value(*value)) == (match entries {
                Some(entries) => Some(view::yaml_entries(entries@)),
                None => None,
        }),
{
    match untag(value) {
        YamlValue::Mapping(entries) => Some(entries),
        _ => None,
    }
}

/// Where a text key stands in a mapping: the first place from `from` on.
pub open spec fn key_place(entries: Seq<YamlEntryView>, from: int, key: Seq<char>) -> Option<int>
    decreases entries.len() - from,
{
    if from < 0 || from >= entries.len() {
        None
    } else if entries[from].key == YamlValueView::Text(key) {
        Some(from)
    } else {
        key_place(entries, from + 1, key)
    }
}

/// The value of a text key.
pub open spec fn lookup(entries: Seq<YamlEntryView>, key: Seq<char>) -> Option<YamlValueView> {
    match key_place(entries, 0, key) {
        Some(place) => Some(entries[place].value),
        None => None,
    }
}

pub proof fn lemma_key_place(entries: Seq<YamlEntryView>, from: int, key: Seq<char>)
    ensures
        match key_place(entries, from, key) {
            Some(place) => from <= place < entries.len() && entries[place].key == YamlValueView::Text(key),
            None => true,
        },
    decreases entries.len() - from,
{
    if 0 <= from < entries.len() && entries[from].key != YamlValueView::Text(key) {
        lemma_key_place(entries, from + 1, key);
    }
}

pub fn is_text(value: &YamlValue, text: &str) -> (result: bool)
    ensures
        result == (view::yaml_value(*value) == YamlValueView::Text(text@)),
{
    match value {
        YamlValue::Text(held) => same_text(held.as_str(), text),
        _ => false,
    }
}

pub fn place_of(entries: &Vec<YamlEntry>, key: &str) -> (place: Option<usize>)
    ensures
        key_place(view::yaml_entries(entries@), 0, key@) == (match place {
                Some(place) => Some(place as int),
                None => None,
        }),
        match place {
            Some(place) => place < entries.len(),
            None => true,
        },
{
    let ghost all = view::yaml_entries(entries@);
    let mut i: usize = 0;
    while i < entries.len()
        invariant
            i <= entries.len(),
            all == view::yaml_entries(entries@),
            key_place(all, 0, key@) == key_place(all, i as int, key@),
        decreases entries.len() - i,
    {
        assert(all[i as int] == view::yaml_entry(entries@[i as int]));
        if is_text(&entries[i].key, key) {
            return Some(i);
        }
        i += 1;
    }
    None
}

pub fn get<'a>(entries: &'a Vec<YamlEntry>, key: &str) -> (value: Option<&'a YamlValue>)
    ensures
        lookup(view::yaml_entries(entries@), key@) == (match value {
                Some(value) => Some(view::yaml_value(*value)),
                None => None,
        }),
{
    match place_of(entries, key) {
        Some(place) => {
            assert(view::yaml_entries(entries@)[place as int] == view::yaml_entry(entries@[place as int]));
            Some(&entries[place].value)
        }
        None => None,
    }
}

} // verus!
