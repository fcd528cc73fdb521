//! Rendering YAML values.
use vstd::prelude::*;
use std::str::FromStr;
use crate::text::{owned, push_char};
use crate::yaml::model::{YamlEntry, YamlValue};
use crate::yaml::read::value_contents;
use crate::yaml::view::{self, YamlEntryView, YamlValueView};

verus! {

pub open spec fn hex_digit(value: int) -> char {
    if 0 <= value < 10 {
        (('0' as int) + value) as char
    } else {
        (('a' as int) + value - 10) as char
    }
}

pub open spec fn hex_places(value: int, places: int) -> Seq<char>
    decreases places,
{
    if places <= 0 {
        Seq::empty()
    } else {
        hex_places(value / 16, places - 1).push(hex_digit(value % 16))
    }
}

fn hex_character(value: u64) -> (result: char)
    requires
        value < 16,
    ensures
        result == hex_digit(value as int),
{
    let code: u8 = if value < 10 {
        48 + value as u8
    } else {
        87 + value as u8
    };
    code as char
}

/// A number in a fixed count of hexadecimal digits.
pub fn hex_text(value: u64, places: usize) -> (result: String)
    ensures
        result@ == hex_places(value as int, places as int),
    decreases places,
{
    if places == 0 {
        let empty = String::new();
        assert(empty@ =~= Seq::<char>::empty());
        return empty;
    }
    let mut text = hex_text(value / 16, places - 1);
    push_char(&mut text, hex_character(value % 16));
    text
}

/// The number that a numeral stands for.
pub uninterp spec fn number_read(numeral: Seq<char>) -> Option<YamlValueView>;

/// The block-style text of a value, or the message of the error.
pub uninterp spec fn block_text(value: YamlValueView) -> Result<Seq<char>, Seq<char>>;

/// `serde_yaml::to_string`: the same value gives the same text.
#[verifier::external_body]
fn block_style(value: &serde_yaml::Value) -> (result: Result<String, String>)
    ensures
        text_outcome(result) == block_text(value_contents(*value)),
{
    serde_yaml::to_string(value).map_err(|error| error.to_string())
}

/// `serde_yaml::Value::Null`.
#[verifier::external_body]
fn null_value() -> (value: serde_yaml::Value)
    ensures
        value_contents(value) == YamlValueView::Null,
{
    serde_yaml::Value::Null
}

/// `serde_yaml::Value::Bool`.
#[verifier::external_body]
fn bool_value(held: bool) -> (value: serde_yaml::Value)
    ensures
        value_contents(value) == YamlValueView::Bool(held),
{
    serde_yaml::Value::Bool(held)
}

/// `serde_yaml::Number` of a signed integer.
#[verifier::external_body]
fn int_value(held: i64) -> (value: serde_yaml::Value)
    ensures
        value_contents(value) == YamlValueView::Int(held),
{
    serde_yaml::Value::Number(serde_yaml::Number::from(held))
}

/// `serde_yaml::Number` of an unsigned integer: a signed one where it fits.
#[verifier::external_body]
fn large_value(held: u64) -> (value: serde_yaml::Value)
    ensures
        value_contents(value) == natural_contents(held),
{
    serde_yaml::Value::Number(serde_yaml::Number::from(held))
}

/// `serde_yaml::Number::from_str`: the same numeral gives the same number.
#[verifier::external_body]
fn number_value(numeral: &str) -> (value: Option<serde_yaml::Value>)
    ensures
        number_read(numeral@) == (match value {
                Some(value) => Some(value_contents(value)),
                None => None,
        }),
{
    serde_yaml::Number::from_str(numeral).ok().map(serde_yaml::Value::Number)
}

/// `serde_yaml::Value::String`.
#[verifier::external_body]
fn text_value(held: &str) -> (value: serde_yaml::Value)
    ensures
        value_contents(value) == YamlValueView::Text(held@),
{
    serde_yaml::Value::String(held.to_string())
}

/// `serde_yaml::Value::Sequence`.
#[verifier::external_body]
fn sequence_value(items: Vec<serde_yaml::Value>) -> (value: serde_yaml::Value)
    ensures
        value_contents(value) == YamlValueView::Sequence(all_contents(items@)),
{
    serde_yaml::Value::Sequence(items)
}

/// `serde_yaml::Mapping::new`.
#[verifier::external_body]
fn empty_mapping() -> (value: serde_yaml::Value)
    ensures
        value_contents(value) == YamlValueView::Mapping(Seq::empty()),
{
    serde_yaml::Value::Mapping(serde_yaml::Mapping::new())
}

/// `serde_yaml::Mapping::insert` with a text for a key: it takes the place of the
/// value that the key had, or stands last.
#[verifier::external_body]
fn insert_text(mapping: &mut serde_yaml::Value, key: &str, value: serde_yaml::Value)
    requires
        value_contents(*old(mapping)) is Mapping,
    ensures
        value_contents(*final(mapping)) == YamlValueView::Mapping(
            with_text_key(value_contents(*old(mapping))->Mapping_0, key@, value_contents(value)),
        ),
{
    if let serde_yaml::Value::Mapping(entries) = mapping {
        entries.insert(serde_yaml::Value::String(key.to_string()), value);
    }
}

pub open spec fn natural_contents(held: u64) -> YamlValueView {
    if held <= i64::MAX {
        YamlValueView::Int(held as i64)
    } else {
        YamlValueView::Large(held)
    }
}

pub open spec fn all_contents(values: Seq<serde_yaml::Value>) -> Seq<YamlValueView> {
    values.map_values(|value: serde_yaml::Value| value_contents(value))
}

/// The entries of a mapping with the value of a text key set.
pub open spec fn with_text_key(entries: Seq<YamlEntryView>, key: Seq<char>, value: YamlValueView) -> Seq<YamlEntryView> {
    match crate::yaml::read::key_place(entries, 0, key) {
        Some(place) => entries.update(place, YamlEntryView { key: YamlValueView::Text(key), value }),
        None => entries.push(YamlEntryView { key: YamlValueView::Text(key), value }),
    }
}

/// The value that is rendered for another: integers are signed where they fit
/// and a key of a mapping has the last of its values. There is none for a tag, a
/// key that is no text or a float that is no number.
pub open spec fn built(value: YamlValueView) -> Option<YamlValueView>
    decreases value, 0int,
{
    match value {
        YamlValueView::Large(held) => Some(natural_contents(held)),
        YamlValueView::Float(numeral) => number_read(numeral),
        YamlValueView::Sequence(items) => match built_items(items, items.len() as int) {
            Some(items) => Some(YamlValueView::Sequence(items)),
            None => None,
        },
        YamlValueView::Mapping(entries) => match built_entries(entries, entries.len() as int) {
            Some(entries) => Some(YamlValueView::Mapping(entries)),
            None => None,
        },
        YamlValueView::Tagged(_, _) => None,
        _ => Some(value),
    }
}

pub open spec fn built_items(items: Seq<YamlValueView>, count: int) -> Option<Seq<YamlValueView>>
    decreases items, count,
{
    if count <= 0 || count > items.len() {
        Some(Seq::empty())
    } else {
        match (built_items(items, count - 1), built(items[count - 1])) {
            (Some(done), Some(item)) => Some(done.push(item)),
            _ => None,
        }
    }
}

pub open spec fn built_entries(entries: Seq<YamlEntryView>, count: int) -> Option<Seq<YamlEntryView>>
    decreases entries, count,
{
    if count <= 0 || count > entries.len() {
        Some(Seq::empty())
    } else {
        match (built_entries(entries, count - 1), entries[count - 1].key, built(entries[count - 1].value)) {
            (Some(done), YamlValueView::Text(key), Some(value)) => Some(with_text_key(done, key, value)),
            _ => None,
        }
    }
}

proof fn lemma_items_fail(items: Seq<YamlValueView>, count: int, all: int)
    requires
        0 <= count <= all <= items.len(),
        built_items(items, count) is None,
    ensures
        built_items(items, all) is None,
    decreases all - count,
{
    if count < all {
        lemma_items_fail(items, count + 1, all);
    }
}

proof fn lemma_entries_fail(entries: Seq<YamlEntryView>, count: int, all: int)
    requires
        0 <= count <= all <= entries.len(),
        built_entries(entries, count) is None,
    ensures
        built_entries(entries, all) is None,
    decreases all - count,
{
    if count < all {
        lemma_entries_fail(entries, count + 1, all);
    }
}

fn build_items(items: &Vec<YamlValue>) -> (result: Option<serde_yaml::Value>)
    ensures
        built_option(result) == built(YamlValueView::Sequence(view::yaml_values(items@))),
    decreases items,
{
    let ghost all = view::yaml_values(items@);
    assert(all.len() == items@.len());
    let mut done: Vec<serde_yaml::Value> = Vec::new();
    assert(all_contents(done@) =~= Seq::<YamlValueView>::empty());
    let mut i: usize = 0;
    while i < items.len()
        invariant
            i <= items.len(),
            all == view::yaml_values(items@),
            all.len() == items@.len(),
            built_items(all, i as int) == Some(all_contents(done@)),
        decreases items.len() - i,
    {
        assert(all[i as int] == view::yaml_value(items@[i as int]));
        match build(&items[i]) {
            Some(item) => {
                let ghost before = done@;
                done.push(item);
                assert(all_contents(done@) =~= all_contents(before).push(value_contents(item)));
            }
            None => {
                proof {
                    lemma_items_fail(all, i + 1, all.len() as int);
                }
                return None;
            }
        }
        i += 1;
    }
    Some(sequence_value(done))
}

fn build_entries(entries: &Vec<YamlEntry>) -> (result: Option<serde_yaml::Value>)
    ensures
        built_option(result) == built(YamlValueView::Mapping(view::yaml_entries(entries@))),
    decreases entries,
{
    let ghost all = view::yaml_entries(entries@);
    assert(all.len() == entries@.len());
    let mut done = empty_mapping();
    let mut i: usize = 0;
    while i < entries.len()
        invariant
            i <= entries.len(),
            all == view::yaml_entries(entries@),
            all.len() == entries@.len(),
            value_contents(done) is Mapping,
            built_entries(all, i as int) == Some(value_contents(done)->Mapping_0),
        decreases entries.len() - i,
    {
        assert(all[i as int] == view::yaml_entry(entries@[i as int]));
        let value = build(&entries[i].value);
        match (&entries[i].key, value) {
            (YamlValue::Text(key), Some(value)) => insert_text(&mut done, key.as_str(), value),
            _ => {
                proof {
                    lemma_entries_fail(all, i + 1, all.len() as int);
                }
                return None;
            }
        }
        i += 1;
    }
    Some(done)
}

pub open spec fn built_option(result: Option<serde_yaml::Value>) -> Option<YamlValueView> {
    match result {
        Some(value) => Some(value_contents(value)),
        None => None,
    }
}

fn build(value: &YamlValue) -> (result: Option<serde_yaml::Value>)
    ensures
        built_option(result) == built(view::yaml_value(*value)),
    decreases value,
{
    match value {
        YamlValue::Null => Some(null_value()),
        YamlValue::Bool(held) => Some(bool_value(*held)),
        YamlValue::Int(held) => Some(int_value(*held)),
        YamlValue::Large(held) => Some(large_value(*held)),
        YamlValue::Float(numeral) => number_value(numeral.as_str()),
        YamlValue::Text(text) => Some(text_value(text.as_str())),
        YamlValue::Sequence(items) => build_items(items),
        YamlValue::Mapping(entries) => build_entries(entries),
        YamlValue::Tagged(_, _) => None,
    }
}

pub open spec fn text_outcome(result: Result<String, String>) -> Result<Seq<char>, Seq<char>> {
    match result {
        Ok(text) => Ok(text@),
        Err(message) => Err(message@),
    }
}

/// The text of a value, or the message of the error.
pub open spec fn rendered(value: YamlValueView) -> Result<Seq<char>, Seq<char>> {
    match built(value) {
        Some(value) => block_text(value),
        None => Err("value has a tag, a key that is no text or a float that is no number"@),
    }
}

/// Renders a value in block style.
pub fn render(value: &YamlValue) -> (result: Result<String, String>)
    ensures
        text_outcome(result) == rendered(view::yaml_value(*value)),
{
    match build(value) {
        Some(value) => block_style(&value),
        None => Err(owned("value has a tag, a key that is no text or a float that is no number")),
    }
}

} // verus!
