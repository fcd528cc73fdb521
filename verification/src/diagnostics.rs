//! Diagnostics that tools share.
use vstd::prelude::*;
use crate::text::{concat_two, push_char, starts_with};
use crate::execute::strings::replace;

verus! {

#[derive(Debug, Clone, Copy, PartialEq, Eq, PartialOrd, Ord)]
pub enum Severity {
    Error,
    Warning,
    Info,
    Hint,
}

#[derive(Debug, Clone, Copy, PartialEq, Eq, PartialOrd, Ord)]
pub enum Category {
    Style,
    Syntax,
    Compile,
}

#[derive(Debug, Clone)]
pub struct Position {
    pub line: usize,
    /// Counted from zero. Producers for editors count UTF-16 code units.
    pub column: usize,
    pub offset: Option<usize>,
}

#[derive(Debug, Clone)]
pub struct Span {
    pub uri: String,
    pub start: Position,
    pub end: Position,
}

#[derive(Debug, Clone)]
pub struct RelatedDiagnostic {
    pub message: String,
    pub span: Span,
}

/// A complaint about source text. A fix is a list of JSON texts.
#[derive(Debug, Clone)]
pub struct Diagnostic {
    pub code: String,
    pub message: String,
    pub severity: Severity,
    pub span: Span,
    pub related: Option<Vec<RelatedDiagnostic>>,
    pub fix: Option<Vec<String>>,
    pub category: Category,
}

/// Whether a byte stands for itself in the path of a URI.
pub open spec fn is_plain(byte: u8) -> bool {
    (0x41 <= byte && byte <= 0x5a) || (0x61 <= byte && byte <= 0x7a) || (0x30 <= byte && byte <= 0x39) || byte == 0x2d
    || byte == 0x2e || byte == 0x5f || byte == 0x7e || byte == 0x2f || byte == 0x3a
}

pub open spec fn upper_hex(value: int) -> char {
    if 0 <= value < 10 {
        (('0' as int) + value) as char
    } else {
        (('A' as int) + value - 10) as char
    }
}

/// A byte in the path of a URI.
pub open spec fn encoded_byte(byte: u8) -> Seq<char> {
    if is_plain(byte) {
        seq![byte as char]
    } else {
        seq!['%', upper_hex(byte as int / 16), upper_hex(byte as int % 16)]
    }
}

pub open spec fn encoded_bytes(bytes: Seq<u8>, count: int) -> Seq<char>
    decreases count,
{
    if count <= 0 || count > bytes.len() {
        Seq::empty()
    } else {
        encoded_bytes(bytes, count - 1) + encoded_byte(bytes[count - 1])
    }
}

/// A text in the path of a URI.
pub open spec fn percent_encoded(text: Seq<char>) -> Seq<char> {
    let bytes = vstd::utf8::encode_utf8(text);
    encoded_bytes(bytes, bytes.len() as int)
}

fn hex_letter(value: u8) -> (letter: char)
    requires
        value < 16,
    ensures
        letter == upper_hex(value as int),
{
    let code: u8 = if value < 10 {
        48 + value
    } else {
        55 + value
    };
    code as char
}

fn encode_byte(text: &mut String, byte: u8)
    ensures
        final(text)@ == old(text)@ + encoded_byte(byte),
{
    let ghost before = text@;
    let plain = (0x41 <= byte && byte <= 0x5a) || (0x61 <= byte && byte <= 0x7a) || (0x30 <= byte && byte <= 0x39)
    || byte == 0x2d || byte == 0x2e || byte == 0x5f || byte == 0x7e || byte == 0x2f || byte == 0x3a;
    if plain {
        push_char(text, byte as char);
    } else {
        push_char(text, '%');
        push_char(text, hex_letter(byte / 16));
        push_char(text, hex_letter(byte % 16));
    }
    assert(text@ =~= before + encoded_byte(byte));
}

pub fn percent_encode_uri_path(path: &str) -> (result: String)
    ensures
        result@ == percent_encoded(path@),
{
    let bytes = path.as_bytes();
    let ghost all = vstd::utf8::encode_utf8(path@);
    let mut text = String::new();
    assert(text@ =~= encoded_bytes(all, 0));
    let mut i: usize = 0;
    while i < bytes.len()
        invariant
            i <= bytes@.len(),
            bytes@ == all,
            text@ == encoded_bytes(all, i as int),
        decreases bytes@.len() - i,
    {
        encode_byte(&mut text, bytes[i]);
        i += 1;
    }
    text
}

/// The path of a file as it stands in a URI: separators are slashes, and the
/// first character is one.
pub open spec fn uri_path(path: Seq<char>) -> Seq<char> {
    let value = crate::execute::strings::replaced(path, "\\"@, "/"@);
    if crate::text::has_prefix(value, "/"@) {
        value
    } else {
        "/"@ + value
    }
}

/// The URI of a file whose absolute path is given.
pub fn file_uri(path: &str) -> (uri: String)
    ensures
        uri@ == "file://"@ + percent_encoded(uri_path(path@)),
{
    let value = replace(path, "\\", "/");
    let rooted = if starts_with(value.as_str(), "/") {
        value
    } else {
        concat_two("/", value.as_str())
    };
    let encoded = percent_encode_uri_path(rooted.as_str());
    concat_two("file://", encoded.as_str())
}

// Laws.

/// Every character of an encoded path is one that stands for itself, or a
/// percent sign.
pub proof fn law_encoded_paths_are_plain(path: Seq<char>, index: int)
    requires
        0 <= index < percent_encoded(path).len(),
    ensures
        percent_encoded(path)[index] == '%' || (percent_encoded(path)[index] as u32) < 128 && is_plain(
            percent_encoded(path)[index] as u8,
        ),
{
    let bytes = vstd::utf8::encode_utf8(path);
    lemma_encoded_plain(bytes, bytes.len() as int, index);
}

proof fn lemma_encoded_plain(bytes: Seq<u8>, count: int, index: int)
    requires
        0 <= index < encoded_bytes(bytes, count).len(),
    ensures
        encoded_bytes(bytes, count)[index] == '%' || (encoded_bytes(bytes, count)[index] as u32) < 128 && is_plain(
            encoded_bytes(bytes, count)[index] as u8,
        ),
    decreases count,
{
    if 0 < count <= bytes.len() {
        let before = encoded_bytes(bytes, count - 1);
        if index < before.len() {
            lemma_encoded_plain(bytes, count - 1, index);
        } else {
            let byte = bytes[count - 1];
            assert(encoded_bytes(bytes, count)[index] == encoded_byte(byte)[index - before.len()]);
        }
    }
}

} // verus!
