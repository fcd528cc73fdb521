//! Compile-time data and templates.
use vstd::prelude::*;

verus! {

/// How an embedded file is read.
#[derive(Debug, Clone, Copy, PartialEq, Eq, Structural)]
pub enum EmbedFormat {
    Auto,
    Text,
    Binary,
    Json,
    Toml,
    Xml,
}

/// Data that is known when a program is compiled. Floats are held as their
/// IEEE 754 binary64 bits, the fields of a record in the order of their names.
#[derive(Debug)]
pub enum CompileValue {
    Null,
    Bool(bool),
    Int(i64),
    Float(u64),
    String(String),
    Array(Vec<CompileValue>),
    Record(Vec<CompileField>),
}

#[derive(Debug)]
pub struct CompileField {
    pub name: String,
    pub value: CompileValue,
}

#[derive(Debug)]
pub enum TemplateNode {
    Text(String),
    Variable(String),
    Section {
        name: String,
        inverted: bool,
        children: Vec<TemplateNode>,
    },
}

/// How a float looks in rendered text.
#[derive(Debug)]
pub struct FloatText {
    pub bits: u64,
    pub text: String,
}

/// Why a template cannot be rendered: an error, or a float whose text is not
/// known yet.
#[derive(Debug)]
pub enum TemplateFailure {
    Message(String),
    NeedsFloatText(u64),
}

} // verus!
