//! Text operations: searching, splitting, replacing, trimming and numerals.
use vstd::prelude::*;
use crate::lowered::view;
use crate::text::{characters, push_char, text_of};

verus! {

/// Whether a character has the Unicode property White_Space.
pub open spec fn white_space(character: char) -> bool {
    let code = character as u32;
    ||| 0x9 <= code <= 0xd
    ||| code == 0x20
    ||| code == 0x85
    ||| code == 0xa0
    ||| code == 0x1680
    ||| 0x2000 <= code <= 0x200a
    ||| code == 0x2028
    ||| code == 0x2029
    ||| code == 0x202f
    ||| code == 0x205f
    ||| code == 0x3000
}

/// `char::is_whitespace`: the Unicode property White_Space of the character.
#[verifier::external_body]
fn is_white_space(character: char) -> (result: bool)
    ensures
        result == white_space(character),
{
    character.is_whitespace()
}

/// The lowercase mapping of a character.
pub uninterp spec fn lowercase(character: char) -> Seq<char>;

/// `char::to_lowercase`: a fixed mapping of one character to one or more.
#[verifier::external_body]
fn lowercase_of(character: char) -> (result: Vec<char>)
    ensures
        result@ == lowercase(character),
{
    character.to_lowercase().collect()
}

/// The uppercase mapping of a character.
pub uninterp spec fn uppercase(character: char) -> Seq<char>;

/// `char::to_uppercase`: a fixed mapping of one character to one or more.
#[verifier::external_body]
fn uppercase_of(character: char) -> (result: Vec<char>)
    ensures
        result@ == uppercase(character),
{
    character.to_uppercase().collect()
}

/// `String::from_utf8`: succeeds exactly on valid UTF-8, with the text that the
/// bytes encode.
#[verifier::external_body]
fn text_from_utf8(bytes: Vec<u8>) -> (result: Option<String>)
    ensures
        match result {
            Some(text) => vstd::utf8::valid_utf8(bytes@) && text@ == vstd::utf8::decode_utf8(bytes@),
            None => !vstd::utf8::valid_utf8(bytes@),
        },
{
    String::from_utf8(bytes).ok()
}

/// The text that UTF-8 bytes encode, if they do.
pub open spec fn decoded(bytes: Seq<u8>) -> Option<Seq<char>> {
    if vstd::utf8::valid_utf8(bytes) {
        Some(vstd::utf8::decode_utf8(bytes))
    } else {
        None
    }
}

pub fn decode(bytes: Vec<u8>) -> (result: Option<String>)
    ensures
        match result {
            Some(text) => decoded(bytes@) == Some(text@),
            None => decoded(bytes@) is None,
        },
{
    text_from_utf8(bytes)
}

/// The length of a text in UTF-8 bytes.
pub open spec fn byte_len(text: Seq<char>) -> nat {
    vstd::utf8::encode_utf8(text).len()
}

/// The length of `text` in UTF-8 bytes.
pub fn utf8_len(text: &str) -> (count: usize)
    ensures
        count == byte_len(text@),
{
    text.as_bytes().len()
}

/// How many characters `text` has.
pub fn scalar_count(text: &str) -> (count: usize)
    ensures
        count == text@.len(),
{
    characters(text).len()
}

// Searching.

/// Whether `needle` stands in `text` at `at`.
pub open spec fn stands_at(text: Seq<char>, needle: Seq<char>, at: int) -> bool {
    0 <= at && at + needle.len() <= text.len() && text.subrange(at, at + needle.len()) == needle
}

/// The first place at or after `from` where `needle` stands.
pub open spec fn find_from(text: Seq<char>, needle: Seq<char>, from: int) -> Option<int>
    decreases text.len() - from + 1,
{
    if from < 0 || from + needle.len() > text.len() {
        None
    } else if stands_at(text, needle, from) {
        Some(from)
    } else {
        find_from(text, needle, from + 1)
    }
}

fn stands(text: &Vec<char>, needle: &Vec<char>, at: usize) -> (result: bool)
    requires
        at + needle.len() <= text.len(),
    ensures
        result == stands_at(text@, needle@, at as int),
{
    let mut i: usize = 0;
    while i < needle.len()
        invariant
            i <= needle.len(),
            at + needle.len() <= text.len(),
            forall|k: int| 0 <= k < i ==> text@[at + k] == needle@[k],
        decreases needle.len() - i,
    {
        if text[at + i] != needle[i] {
            assert(text@.subrange(at as int, at + needle@.len())[i as int] != needle@[i as int]);
            return false;
        }
        i += 1;
    }
    assert(text@.subrange(at as int, at + needle@.len()) =~= needle@);
    true
}

fn search(text: &Vec<char>, needle: &Vec<char>, from: usize) -> (result: Option<usize>)
    ensures
        match result {
            Some(at) => find_from(text@, needle@, from as int) == Some(at as int) && from <= at && at + needle.len()
                <= text.len(),
            None => find_from(text@, needle@, from as int) is None,
        },
{
    if needle.len() > text.len() {
        return None;
    }
    let last: usize = text.len() - needle.len();
    let mut at: usize = from;
    while at <= last
        invariant
            from <= at,
            last + needle.len() == text.len(),
            find_from(text@, needle@, from as int) == find_from(text@, needle@, at as int),
        decreases last + 1 - at,
    {
        if stands(text, needle, at) {
            return Some(at);
        }
        if at == last {
            assert(find_from(text@, needle@, at + 1) is None);
            return None;
        }
        at += 1;
    }
    None
}

/// The first place of `needle` in `text`, in characters.
pub open spec fn find_text(text: Seq<char>, needle: Seq<char>) -> Option<int> {
    find_from(text, needle, 0)
}

pub fn find(text: &str, needle: &str) -> (result: Option<usize>)
    ensures
        match result {
            Some(at) => find_text(text@, needle@) == Some(at as int),
            None => find_text(text@, needle@) is None,
        },
{
    search(&characters(text), &characters(needle), 0)
}

pub open spec fn has_text(text: Seq<char>, needle: Seq<char>) -> bool {
    find_text(text, needle) is Some
}

pub fn contains(text: &str, needle: &str) -> (result: bool)
    ensures
        result == has_text(text@, needle@),
{
    find(text, needle).is_some()
}

pub open spec fn has_suffix(text: Seq<char>, suffix: Seq<char>) -> bool {
    stands_at(text, suffix, text.len() - suffix.len())
}

pub fn ends_with(text: &str, suffix: &str) -> (result: bool)
    ensures
        result == has_suffix(text@, suffix@),
{
    let whole = characters(text);
    let tail = characters(suffix);
    if tail.len() > whole.len() {
        return false;
    }
    stands(&whole, &tail, whole.len() - tail.len())
}

// Splitting.

/// The pieces of `text[from..]` between occurrences of a non-empty separator.
pub open spec fn pieces_from(text: Seq<char>, separator: Seq<char>, from: int, done: Seq<Seq<char>>) -> Seq<Seq<char>>
    decreases text.len() - from,
{
    match find_from(text, separator, from) {
        Some(at) => if separator.len() == 0 || at < from || at + separator.len() > text.len() {
            done
        } else {
            pieces_from(text, separator, at + separator.len(), done.push(text.subrange(from, at)))
        },
        None => done.push(text.subrange(from, text.len() as int)),
    }
}

/// The pieces of a text between occurrences of a separator. An empty separator
/// stands before, between and behind all characters.
pub open spec fn pieces(text: Seq<char>, separator: Seq<char>) -> Seq<Seq<char>> {
    if separator.len() == 0 {
        seq![Seq::<char>::empty()] + Seq::new(text.len(), |i: int| seq![text[i]]) + seq![Seq::<char>::empty()]
    } else {
        pieces_from(text, separator, 0, Seq::empty())
    }
}

fn single_pieces(text: &Vec<char>) -> (result: Vec<String>)
    ensures
        view::texts(result@) == pieces(text@, Seq::empty()),
{
    let mut done: Vec<String> = Vec::new();
    done.push(String::new());
    let mut i: usize = 0;
    assert(view::texts(done@)[0] =~= Seq::<char>::empty());
    while i < text.len()
        invariant
            i <= text.len(),
            done.len() == i + 1,
            view::texts(done@)[0] == Seq::<char>::empty(),
            forall|k: int| 0 <= k < i ==> view::texts(done@)[k + 1] == seq![text@[k]],
        decreases text.len() - i,
    {
        let ghost before = done@;
        let piece = text_of(text, i, i + 1);
        assert(piece@ =~= seq![text@[i as int]]);
        done.push(piece);
        proof {
            view::lemma_texts_push(before, done@.last());
        }
        i += 1;
    }
    let ghost before = done@;
    done.push(String::new());
    proof {
        view::lemma_texts_push(before, done@.last());
        let expected = pieces(text@, Seq::empty());
        assert(view::texts(done@).last() =~= Seq::<char>::empty());
        assert forall|k: int| 0 <= k < expected.len() implies view::texts(done@)[k] == expected[k] by {
            if 0 < k < expected.len() - 1 {
                assert(view::texts(done@)[(k - 1) + 1] == seq![text@[k - 1]]);
            }
        }
        assert(view::texts(done@) =~= expected);
    }
    done
}

pub fn split_text(text: &str, separator: &str) -> (result: Vec<String>)
    ensures
        view::texts(result@) == pieces(text@, separator@),
{
    let whole = characters(text);
    let mark = characters(separator);
    if mark.len() == 0 {
        assert(mark@ =~= Seq::<char>::empty());
        return single_pieces(&whole);
    }
    let mut done: Vec<String> = Vec::new();
    let mut from: usize = 0;
    assert(view::texts(done@) =~= Seq::<Seq<char>>::empty());
    loop
        invariant
            whole@ == text@,
            mark@ == separator@,
            mark.len() > 0,
            from <= whole.len(),
            pieces(text@, separator@) == pieces_from(text@, separator@, from as int, view::texts(done@)),
        decreases whole.len() - from,
    {
        let ghost before = done@;
        match search(&whole, &mark, from) {
            Some(at) => {
                done.push(text_of(&whole, from, at));
                proof {
                    view::lemma_texts_push(before, done@.last());
                }
                from = at + mark.len();
            }
            None => {
                done.push(text_of(&whole, from, whole.len()));
                proof {
                    view::lemma_texts_push(before, done@.last());
                }
                return done;
            }
        }
    }
}

/// The first `count` pieces with `separator` between them.
pub open spec fn joined_to(pieces: Seq<Seq<char>>, separator: Seq<char>, count: int) -> Seq<char>
    decreases count,
{
    if count <= 0 {
        Seq::empty()
    } else if count == 1 {
        pieces[0]
    } else {
        joined_to(pieces, separator, count - 1) + separator + pieces[count - 1]
    }
}

/// The pieces with `separator` between them.
pub open spec fn joined(pieces: Seq<Seq<char>>, separator: Seq<char>) -> Seq<char> {
    joined_to(pieces, separator, pieces.len() as int)
}

pub fn join(pieces: &Vec<String>, separator: &str) -> (result: String)
    ensures
        result@ == joined(view::texts(pieces@), separator@),
{
    let ghost all = view::texts(pieces@);
    let mut result = String::new();
    let mut i: usize = 0;
    assert(result@ =~= joined_to(all, separator@, 0));
    while i < pieces.len()
        invariant
            i <= pieces.len(),
            all == view::texts(pieces@),
            result@ == joined_to(all, separator@, i as int),
        decreases pieces.len() - i,
    {
        if i == 0 {
            result = pieces[0].clone();
        } else {
            result.append(separator);
            result.append(pieces[i].as_str());
        }
        i += 1;
    }
    result
}

/// The text with every occurrence of `old_text` replaced, left to right.
pub open spec fn replaced(text: Seq<char>, old_text: Seq<char>, new_text: Seq<char>) -> Seq<char> {
    joined(pieces(text, old_text), new_text)
}

/// Replaces every occurrence of `old_text`, left to right.
pub fn replace(text: &str, old_text: &str, new_text: &str) -> (result: String)
    ensures
        result@ == replaced(text@, old_text@, new_text@),
{
    let parts = split_text(text, old_text);
    join(&parts, new_text)
}

/// The sum of the pieces' lengths in bytes.
pub open spec fn total_bytes(pieces: Seq<Seq<char>>, count: int) -> nat
    decreases count,
{
    if count <= 0 {
        0
    } else {
        total_bytes(pieces, count - 1) + byte_len(pieces[count - 1])
    }
}

/// Whether the pieces have at most `limit` bytes in all.
pub fn bytes_within(pieces: &Vec<String>, limit: usize) -> (result: bool)
    ensures
        result == (total_bytes(view::texts(pieces@), pieces@.len() as int) <= limit),
{
    let ghost all = view::texts(pieces@);
    let mut total: usize = 0;
    let mut i: usize = 0;
    while i < pieces.len()
        invariant
            i <= pieces.len(),
            all == view::texts(pieces@),
            total <= limit,
            total == total_bytes(all, i as int),
        decreases pieces.len() - i,
    {
        let width: usize = utf8_len(pieces[i].as_str());
        assert(all[i as int] == pieces@[i as int]@);
        if width > limit - total {
            proof {
                lemma_total_grows(all, i as int + 1, all.len() as int);
            }
            return false;
        }
        total += width;
        i += 1;
    }
    true
}

proof fn lemma_total_grows(pieces: Seq<Seq<char>>, low: int, high: int)
    requires
        low <= high,
    ensures
        total_bytes(pieces, low) <= total_bytes(pieces, high),
    decreases high - low,
{
    if low < high {
        lemma_total_grows(pieces, low, high - 1);
    }
}

// Trimming and case.

/// The first place at or after `from` that is no white space, or the end.
pub open spec fn past_space(text: Seq<char>, from: int) -> int
    decreases text.len() - from,
{
    if from < 0 || from >= text.len() || !white_space(text[from]) {
        from
    } else {
        past_space(text, from + 1)
    }
}

/// The end of `text[from..to]` without white space behind it.
pub open spec fn before_space(text: Seq<char>, from: int, to: int) -> int
    decreases to - from,
{
    if to <= from || to > text.len() || !white_space(text[to - 1]) {
        to
    } else {
        before_space(text, from, to - 1)
    }
}

/// The text without white space at its ends.
pub open spec fn trimmed(text: Seq<char>) -> Seq<char> {
    let start = past_space(text, 0);
    text.subrange(start, before_space(text, start, text.len() as int))
}

pub fn trim(text: &str) -> (result: String)
    ensures
        result@ == trimmed(text@),
{
    let letters = characters(text);
    let mut start: usize = 0;
    while start < letters.len() && is_white_space(letters[start])
        invariant
            start <= letters.len(),
            letters@ == text@,
            past_space(text@, 0) == past_space(text@, start as int),
        decreases letters.len() - start,
    {
        start += 1;
    }
    let mut end: usize = letters.len();
    while end > start && is_white_space(letters[end - 1])
        invariant
            start <= end <= letters.len(),
            letters@ == text@,
            before_space(text@, start as int, text@.len() as int) == before_space(text@, start as int, end as int),
        decreases end - start,
    {
        end -= 1;
    }
    text_of(&letters, start, end)
}

/// The first `count` characters, each mapped to lower or upper case.
pub open spec fn cased(text: Seq<char>, lower: bool, count: int) -> Seq<char>
    decreases count,
{
    if count <= 0 {
        Seq::empty()
    } else if lower {
        cased(text, lower, count - 1) + lowercase(text[count - 1])
    } else {
        cased(text, lower, count - 1) + uppercase(text[count - 1])
    }
}

fn push_all(text: &mut String, more: &Vec<char>)
    ensures
        final(text)@ == old(text)@ + more@,
{
    let ghost before = text@;
    let mut i: usize = 0;
    assert(before + more@.take(0) =~= before);
    while i < more.len()
        invariant
            i <= more.len(),
            before == old(text)@,
            text@ == before + more@.take(i as int),
        decreases more.len() - i,
    {
        push_char(text, more[i]);
        i += 1;
        assert(before + more@.take(i as int) =~= (before + more@.take(i - 1)).push(more@[i - 1]));
    }
    assert(more@.take(more@.len() as int) =~= more@);
}

/// The text in lower or upper case.
pub fn change_case(text: &str, lower: bool) -> (result: String)
    ensures
        result@ == cased(text@, lower, text@.len() as int),
{
    let letters = characters(text);
    let mut result = String::new();
    let mut i: usize = 0;
    assert(result@ =~= cased(text@, lower, 0));
    while i < letters.len()
        invariant
            i <= letters.len(),
            letters@ == text@,
            result@ == cased(text@, lower, i as int),
        decreases letters.len() - i,
    {
        let mapped = if lower {
            lowercase_of(letters[i])
        } else {
            uppercase_of(letters[i])
        };
        push_all(&mut result, &mapped);
        i += 1;
    }
    result
}

// Numerals.

/// What reading an integer gives.
#[derive(Debug, Clone, Copy, PartialEq, Eq, Structural)]
pub enum ParsedInt {
    Value(i64),
    Overflow,
    Invalid,
}

pub open spec fn digit_value(character: char) -> Option<int> {
    if '0' <= character && character <= '9' {
        Some(character as int - '0' as int)
    } else {
        None
    }
}

/// The digits `text[from..]` behind `value`, read left to right: the first
/// character that is no digit, or that carries the value past `limit`, decides.
pub open spec fn digits_from(text: Seq<char>, from: int, value: int, limit: int, negative: bool) -> ParsedInt
    decreases text.len() - from,
{
    if from < 0 || from >= text.len() {
        ParsedInt::Value((if negative {
            -value
        } else {
            value
        }) as i64)
    } else {
        match digit_value(text[from]) {
            None => ParsedInt::Invalid,
            Some(digit) => if value * 10 + digit > limit {
                ParsedInt::Overflow
            } else {
                digits_from(text, from + 1, value * 10 + digit, limit, negative)
            },
        }
    }
}

/// A decimal numeral with an optional sign, within 64 signed bits.
pub open spec fn signed_numeral(text: Seq<char>) -> ParsedInt {
    if text.len() == 0 {
        ParsedInt::Invalid
    } else if text[0] == '-' {
        if text.len() == 1 {
            ParsedInt::Invalid
        } else {
            digits_from(text, 1, 0, 0x8000_0000_0000_0000, true)
        }
    } else if text[0] == '+' {
        if text.len() == 1 {
            ParsedInt::Invalid
        } else {
            digits_from(text, 1, 0, 0x7fff_ffff_ffff_ffff, false)
        }
    } else {
        digits_from(text, 0, 0, 0x7fff_ffff_ffff_ffff, false)
    }
}

fn read_digits(text: &Vec<char>, from: usize, limit: u64, negative: bool) -> (result: ParsedInt)
    requires
        from <= text.len(),
        limit == (if negative {
            0x8000_0000_0000_0000u64
        } else {
            0x7fff_ffff_ffff_ffffu64
        }),
    ensures
        result == digits_from(text@, from as int, 0, limit as int, negative),
{
    let mut value: u64 = 0;
    let mut i: usize = from;
    while i < text.len()
        invariant
            from <= i <= text.len(),
            value <= limit,
            10 <= limit <= 0x8000_0000_0000_0000,
            digits_from(text@, from as int, 0, limit as int, negative) == digits_from(
                text@,
                i as int,
                value as int,
                limit as int,
                negative,
            ),
        decreases text.len() - i,
    {
        let character = text[i];
        if !('0' <= character && character <= '9') {
            return ParsedInt::Invalid;
        }
        let digit: u64 = character as u64 - '0' as u64;
        if value > limit / 10 || value * 10 > limit - digit {
            assert(value * 10 + digit > limit);
            return ParsedInt::Overflow;
        }
        value = value * 10 + digit;
        i += 1;
    }
    if negative {
        if value == 0x8000_0000_0000_0000 {
            ParsedInt::Value(i64::MIN)
        } else {
            ParsedInt::Value(-(value as i64))
        }
    } else {
        ParsedInt::Value(value as i64)
    }
}

pub fn parse_signed(text: &str) -> (result: ParsedInt)
    ensures
        result == signed_numeral(text@),
{
    let letters = characters(text);
    if letters.len() == 0 {
        return ParsedInt::Invalid;
    }
    if letters[0] == '-' {
        if letters.len() == 1 {
            ParsedInt::Invalid
        } else {
            read_digits(&letters, 1, 0x8000_0000_0000_0000, true)
        }
    } else if letters[0] == '+' {
        if letters.len() == 1 {
            ParsedInt::Invalid
        } else {
            read_digits(&letters, 1, 0x7fff_ffff_ffff_ffff, false)
        }
    } else {
        read_digits(&letters, 0, 0x7fff_ffff_ffff_ffff, false)
    }
}

/// Whether the digits `text[from..]` behind `value` stay within 64 bits.
pub open spec fn wide_digits(text: Seq<char>, from: int, value: int) -> ParsedInt
    decreases text.len() - from,
{
    if from < 0 || from >= text.len() {
        if value <= 0x7fff_ffff_ffff_ffff {
            ParsedInt::Value(value as i64)
        } else {
            ParsedInt::Overflow
        }
    } else {
        match digit_value(text[from]) {
            None => ParsedInt::Invalid,
            Some(digit) => if value * 10 + digit > u64::MAX {
                ParsedInt::Overflow
            } else {
                wide_digits(text, from + 1, value * 10 + digit)
            },
        }
    }
}

/// A decimal numeral without a minus sign, of a value that an integer value can
/// hold.
pub open spec fn unsigned_numeral(text: Seq<char>) -> ParsedInt {
    if text.len() == 0 {
        ParsedInt::Invalid
    } else if text[0] == '+' {
        if text.len() == 1 {
            ParsedInt::Invalid
        } else {
            wide_digits(text, 1, 0)
        }
    } else {
        wide_digits(text, 0, 0)
    }
}

pub fn parse_unsigned(text: &str) -> (result: ParsedInt)
    ensures
        result == unsigned_numeral(text@),
{
    let letters = characters(text);
    if letters.len() == 0 {
        return ParsedInt::Invalid;
    }
    let mut i: usize = 0;
    if letters[0] == '+' {
        if letters.len() == 1 {
            return ParsedInt::Invalid;
        }
        i = 1;
    }
    let mut value: u64 = 0;
    while i < letters.len()
        invariant
            i <= letters.len(),
            letters@ == text@,
            unsigned_numeral(text@) == wide_digits(text@, i as int, value as int),
        decreases letters.len() - i,
    {
        let character = letters[i];
        if !('0' <= character && character <= '9') {
            return ParsedInt::Invalid;
        }
        let digit: u64 = character as u64 - '0' as u64;
        if value > u64::MAX / 10 || value * 10 > u64::MAX - digit {
            assert(value * 10 + digit > u64::MAX);
            return ParsedInt::Overflow;
        }
        value = value * 10 + digit;
        i += 1;
    }
    if value <= 0x7fff_ffff_ffff_ffff {
        ParsedInt::Value(value as i64)
    } else {
        ParsedInt::Overflow
    }
}

/// The text without one line ending: a line feed, or a carriage return and a
/// line feed.
pub open spec fn without_line_ending(line: Seq<char>) -> Seq<char> {
    if line.len() > 0 && line.last() == '\n' {
        without_carriage_return(line.drop_last())
    } else {
        line
    }
}

pub open spec fn without_carriage_return(line: Seq<char>) -> Seq<char> {
    if line.len() > 0 && line.last() == '\r' {
        line.drop_last()
    } else {
        line
    }
}

/// Strips one line ending from a line that was read.
pub fn trim_line_ending(line: &str) -> (result: String)
    ensures
        result@ == without_line_ending(line@),
{
    let letters = characters(line);
    let mut end: usize = letters.len();
    if end > 0 && letters[end - 1] == '\n' {
        end -= 1;
        if end > 0 && letters[end - 1] == '\r' {
            end -= 1;
        }
    }
    let result = text_of(&letters, 0, end);
    assert(result@ =~= without_line_ending(line@));
    result
}

/// Strips one carriage return from the end of a line.
pub fn trim_carriage_return(line: &str) -> (result: String)
    ensures
        result@ == without_carriage_return(line@),
{
    let letters = characters(line);
    let mut end: usize = letters.len();
    if end > 0 && letters[end - 1] == '\r' {
        end -= 1;
    }
    let result = text_of(&letters, 0, end);
    assert(result@ =~= without_carriage_return(line@));
    result
}

} // verus!
