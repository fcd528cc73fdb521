//! YAML values.
use vstd::prelude::*;

verus! {

/// A YAML value. Integers that fit are signed; larger ones are unsigned. A
/// float is held by its canonical numeral.
#[derive(Debug)]
pub enum YamlValue {
    Null,
    Bool(bool),
    Int(i64),
    Large(u64),
    Float(String),
    Text(String),
    Sequence(Vec<YamlValue>),
    Mapping(Vec<YamlEntry>),
    Tagged(String, Box<YamlValue>),
}

/// A key and its value.
#[derive(Debug)]
pub struct YamlEntry {
    pub key: YamlValue,
    pub value: YamlValue,
}

} // verus!
