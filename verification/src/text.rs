//! Text helpers: concatenation, decimal numerals and character access.
use vstd::prelude::*;
use crate::lowered::view;

verus! {

/// Compares two string slices through `str`'s `PartialEq`; equal means that
/// both hold the same characters in the same order.
#[verifier::external_body]
pub(crate) fn same_text(left: &str, right: &str) -> (same: bool)
    ensures
        same == (left@ == right@),
{
    left == right
}

/// Appends one character through `String::push`.
#[verifier::external_body]
pub(crate) fn push_char(text: &mut String, character: char)
    ensures
        final(text)@ == old(text)@.push(character),
{
    text.push(character)
}

/// An owned copy of `text`.
pub(crate) fn owned(text: &str) -> (result: String)
    ensures
        result@ == text@,
{
    text.to_owned()
}

pub(crate) fn concat_two(first: &str, second: &str) -> (result: String)
    ensures
        result@ == first@ + second@,
{
    let mut result = owned(first);
    result.append(second);
    result
}

pub(crate) fn concat_three(first: &str, second: &str, third: &str) -> (result: String)
    ensures
        result@ == first@ + second@ + third@,
{
    let mut result = owned(first);
    result.append(second);
    result.append(third);
    result
}

pub(crate) fn concat_five(first: &str, second: &str, third: &str, fourth: &str, fifth: &str) -> (result: String)
    ensures
        result@ == first@ + second@ + third@ + fourth@ + fifth@,
{
    let mut result = concat_three(first, second, third);
    result.append(fourth);
    result.append(fifth);
    result
}

/// The character that stands for a decimal digit.
pub open spec fn digit(value: int) -> char {
    (48 + value) as char
}

/// The decimal numeral of a natural number, without leading zeros.
pub open spec fn decimal(value: nat) -> Seq<char>
    decreases value,
{
    if value < 10 {
        seq![digit(value as int)]
    } else {
        decimal(value / 10).push(digit((value % 10) as int))
    }
}

/// The decimal numeral of an integer, with a leading minus sign when negative.
pub open spec fn signed_decimal(value: int) -> Seq<char> {
    if value < 0 {
        seq!['-'] + decimal((-value) as nat)
    } else {
        decimal(value as nat)
    }
}

/// Writes `value` in decimal.
pub fn decimal_text(value: u64) -> (result: String)
    ensures
        result@ == decimal(value as nat),
    decreases value,
{
    let last: u8 = 48u8 + (value % 10) as u8;
    let character: char = last as char;
    if value < 10 {
        let mut result = String::new();
        push_char(&mut result, character);
        assert(result@ =~= seq![digit(value as int)]);
        result
    } else {
        let mut result = decimal_text(value / 10);
        push_char(&mut result, character);
        result
    }
}

/// Writes `value` in decimal, with a leading minus sign when negative.
pub fn signed_text(value: i64) -> (result: String)
    ensures
        result@ == signed_decimal(value as int),
{
    if value < 0 {
        let magnitude: u64 = if value == i64::MIN {
            9223372036854775808u64
        } else {
            (-value) as u64
        };
        let digits = decimal_text(magnitude);
        let mut result = String::new();
        push_char(&mut result, '-');
        result.append(digits.as_str());
        assert(result@ =~= seq!['-'] + decimal((-(value as int)) as nat));
        result
    } else {
        decimal_text(value as u64)
    }
}

/// The characters of `text` as a vector.
pub fn characters(text: &str) -> (result: Vec<char>)
    ensures
        result@ == text@,
{
    let mut result: Vec<char> = Vec::new();
    for character in cursor: text.chars()
        invariant
            cursor.seq() == text@,
            result@ == text@.take(cursor.index() as int),
    {
        result.push(character);
        assert(result@ =~= text@.take(cursor.index() as int + 1));
    }
    assert(result@ =~= text@);
    result
}

/// The text made of `characters[from..to]`.
pub fn text_of(characters: &Vec<char>, from: usize, to: usize) -> (result: String)
    requires
        from <= to <= characters.len(),
    ensures
        result@ == characters@.subrange(from as int, to as int),
{
    let mut result = String::new();
    let mut index: usize = from;
    assert(result@ =~= characters@.subrange(from as int, from as int));
    while index < to
        invariant
            from <= index <= to <= characters.len(),
            result@ == characters@.subrange(from as int, index as int),
        decreases to - index,
    {
        push_char(&mut result, characters[index]);
        index += 1;
        assert(result@ =~= characters@.subrange(from as int, index as int));
    }
    result
}

/// Whether `left[from..]` precedes `right[from..]`: by the first character that
/// differs, a proper prefix coming first.
pub open spec fn precedes_from(left: Seq<char>, right: Seq<char>, from: int) -> bool
    decreases left.len() - from,
{
    if from < 0 || from >= left.len() {
        from < right.len()
    } else if from >= right.len() {
        false
    } else if left[from] != right[from] {
        left[from] < right[from]
    } else {
        precedes_from(left, right, from + 1)
    }
}

/// The order of text by code points.
pub open spec fn precedes(left: Seq<char>, right: Seq<char>) -> bool {
    precedes_from(left, right, 0)
}

/// Whether `left` precedes `right` by code points.
pub fn text_precedes(left: &str, right: &str) -> (result: bool)
    ensures
        result == precedes(left@, right@),
{
    let first = characters(left);
    let second = characters(right);
    let mut i: usize = 0;
    while i < first.len()
        invariant
            i <= first.len(),
            first@ == left@,
            second@ == right@,
            precedes(left@, right@) == precedes_from(left@, right@, i as int),
        decreases first.len() - i,
    {
        if i >= second.len() {
            return false;
        }
        if first[i] != second[i] {
            return first[i] < second[i];
        }
        i += 1;
    }
    i < second.len()
}

/// Nothing precedes itself.
pub proof fn lemma_precedes_irreflexive(text: Seq<char>, from: int)
    requires
        0 <= from,
    ensures
        !precedes_from(text, text, from),
    decreases text.len() - from,
{
    if from < text.len() {
        lemma_precedes_irreflexive(text, from + 1);
    }
}

/// Of two distinct texts one precedes the other.
pub proof fn lemma_precedes_total(left: Seq<char>, right: Seq<char>, from: int)
    requires
        0 <= from <= left.len(),
        from <= right.len(),
        left.take(from) == right.take(from),
        left != right,
    ensures
        precedes_from(left, right, from) != precedes_from(right, left, from),
    decreases left.len() - from,
{
    if from < left.len() && from < right.len() {
        if left[from] == right[from] {
            assert(left.take(from + 1) =~= right.take(from + 1)) by {
                assert(left.take(from + 1) =~= left.take(from).push(left[from]));
                assert(right.take(from + 1) =~= right.take(from).push(right[from]));
            }
            if from + 1 == left.len() && from + 1 == right.len() {
                assert(left =~= left.take(from + 1));
                assert(right =~= right.take(from + 1));
            }
            lemma_precedes_total(left, right, from + 1);
        } else {
            assert(left[from] < right[from] || right[from] < left[from]);
        }
    } else if left.len() == right.len() {
        assert(left =~= left.take(from));
        assert(right =~= right.take(from));
    }
}

/// The order is transitive.
pub proof fn lemma_precedes_transitive(first: Seq<char>, second: Seq<char>, third: Seq<char>, from: int)
    requires
        0 <= from,
        precedes_from(first, second, from),
        precedes_from(second, third, from),
    ensures
        precedes_from(first, third, from),
    decreases first.len() - from,
{
    if from < first.len() && from < second.len() && from < third.len() {
        if first[from] == second[from] && second[from] == third[from] {
            lemma_precedes_transitive(first, second, third, from + 1);
        }
    }
}

/// Whether `text` contains `character`.
pub fn has_char(text: &str, character: char) -> (found: bool)
    ensures
        found == text@.contains(character),
{
    let letters = characters(text);
    let mut index: usize = 0;
    while index < letters.len()
        invariant
            index <= letters.len(),
            letters@ == text@,
            forall|k: int| 0 <= k < index ==> letters@[k] != character,
        decreases letters.len() - index,
    {
        if letters[index] == character {
            assert(text@[index as int] == character);
            return true;
        }
        index += 1;
    }
    false
}

/// The pieces of `text[start..]` between separators, the search for the next one
/// standing at `index`.
pub open spec fn split_from(
    text: Seq<char>,
    separator: char,
    start: int,
    index: int,
    done: Seq<Seq<char>>,
) -> Seq<Seq<char>>
    decreases text.len() - index,
{
    if index < 0 || index >= text.len() {
        done.push(text.subrange(start, text.len() as int))
    } else if text[index] == separator {
        split_from(text, separator, index + 1, index + 1, done.push(text.subrange(start, index)))
    } else {
        split_from(text, separator, start, index + 1, done)
    }
}

/// The pieces of `text` between separators; one more than there are separators.
pub open spec fn split(text: Seq<char>, separator: char) -> Seq<Seq<char>> {
    split_from(text, separator, 0, 0, Seq::empty())
}

/// The pieces of `text` between separators.
pub fn split_at_char(text: &str, separator: char) -> (result: Vec<String>)
    ensures
        view::texts(result@) == split(text@, separator),
{
    let letters = characters(text);
    let mut done: Vec<String> = Vec::new();
    let mut start: usize = 0;
    let mut index: usize = 0;
    assert(view::texts(done@) =~= Seq::<Seq<char>>::empty());
    while index < letters.len()
        invariant
            start <= index <= letters.len(),
            letters@ == text@,
            split(text@, separator) == split_from(text@, separator, start as int, index as int, view::texts(done@)),
        decreases letters.len() - index,
    {
        if letters[index] == separator {
            let ghost before = done@;
            done.push(text_of(&letters, start, index));
            proof {
                view::lemma_texts_push(before, done@.last());
            }
            start = index + 1;
        }
        index += 1;
    }
    let ghost before = done@;
    done.push(text_of(&letters, start, letters.len()));
    proof {
        view::lemma_texts_push(before, done@.last());
    }
    done
}

/// Whether `text` begins with `prefix`.
pub open spec fn has_prefix(text: Seq<char>, prefix: Seq<char>) -> bool {
    prefix.len() <= text.len() && text.take(prefix.len() as int) == prefix
}

/// Whether `text` begins with `prefix`.
pub fn starts_with(text: &str, prefix: &str) -> (result: bool)
    ensures
        result == has_prefix(text@, prefix@),
{
    let whole = characters(text);
    let head = characters(prefix);
    if head.len() > whole.len() {
        return false;
    }
    let mut i: usize = 0;
    while i < head.len()
        invariant
            i <= head.len() <= whole.len(),
            whole@ == text@,
            head@ == prefix@,
            forall|j: int| 0 <= j < i ==> whole@[j] == head@[j],
        decreases head.len() - i,
    {
        if whole[i] != head[i] {
            assert(text@.take(prefix@.len() as int)[i as int] != prefix@[i as int]);
            return false;
        }
        i += 1;
    }
    assert(text@.take(prefix@.len() as int) =~= prefix@);
    true
}

/// Different numbers have different numerals.
pub proof fn lemma_decimal_injective(left: nat, right: nat)
    requires
        decimal(left) == decimal(right),
    ensures
        left == right,
    decreases left,
{
    let first = decimal(left);
    let second = decimal(right);
    assert(first.last() == digit((left % 10) as int));
    assert(second.last() == digit((right % 10) as int));
    assert(left % 10 == right % 10);
    if left >= 10 && right >= 10 {
        assert(first.drop_last() =~= decimal(left / 10));
        assert(second.drop_last() =~= decimal(right / 10));
        lemma_decimal_injective(left / 10, right / 10);
    } else if left >= 10 {
        lemma_decimal_some(left / 10);
    } else if right >= 10 {
        lemma_decimal_some(right / 10);
    }
}

proof fn lemma_decimal_some(value: nat)
    ensures
        decimal(value).len() > 0,
    decreases value,
{
}

} // verus!
