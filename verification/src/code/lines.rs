//! Lines, indentation and places in source text. Places are counted in
//! characters.
use vstd::prelude::*;
use crate::execute::strings::{trim, trim_line_ending};
use crate::lowered::view;
use crate::text::{characters, owned, text_of};

verus! {

/// How many bytes a character takes in UTF-8.
pub open spec fn width(character: char) -> int {
    let code = character as u32;
    if code < 0x80 {
        1
    } else if code < 0x800 {
        2
    } else if code < 0x10000 {
        3
    } else {
        4
    }
}

fn byte_width(character: char) -> (count: usize)
    ensures
        count == width(character),
{
    let code: u32 = character as u32;
    if code < 0x80 {
        1
    } else if code < 0x800 {
        2
    } else if code < 0x10000 {
        3
    } else {
        4
    }
}

/// The place behind as many characters from `from` on as the bytes hold.
pub open spec fn place_of(text: Seq<char>, from: int, bytes: int) -> int
    decreases text.len() - from,
{
    if from < 0 || from >= text.len() || bytes <= 0 {
        from
    } else {
        place_of(text, from + 1, bytes - width(text[from]))
    }
}

/// The place of a byte offset.
pub fn place(text: &Vec<char>, bytes: usize) -> (result: usize)
    ensures
        result == place_of(text@, 0, bytes as int),
        result <= text@.len(),
{
    let mut left: usize = bytes;
    let mut i: usize = 0;
    while i < text.len() && left > 0
        invariant
            i <= text.len(),
            place_of(text@, 0, bytes as int) == place_of(text@, i as int, left as int),
        decreases text.len() - i,
    {
        let count: usize = byte_width(text[i]);
        proof {
            if left < count {
                lemma_no_bytes(text@, i + 1, 0, left - count);
            }
        }
        left = if left > count {
            left - count
        } else {
            0
        };
        i += 1;
    }
    i
}

proof fn lemma_no_bytes(text: Seq<char>, from: int, first: int, second: int)
    requires
        first <= 0,
        second <= 0,
    ensures
        place_of(text, from, first) == place_of(text, from, second),
{
}

/// The end of the line that `from` stands in, behind its line feed.
pub open spec fn line_end(text: Seq<char>, from: int) -> int
    decreases text.len() - from,
{
    if from < 0 || from >= text.len() {
        text.len() as int
    } else if text[from] == '\n' {
        from + 1
    } else {
        line_end(text, from + 1)
    }
}

pub proof fn lemma_line_end(text: Seq<char>, from: int)
    requires
        0 <= from,
    ensures
        line_end(text, from) <= text.len(),
        from < text.len() ==> line_end(text, from) > from,
    decreases text.len() - from,
{
    if from < text.len() && text[from] != '\n' {
        lemma_line_end(text, from + 1);
    }
}

pub fn find_line_end(text: &Vec<char>, from: usize) -> (end: usize)
    ensures
        end == line_end(text@, from as int),
        end <= text@.len(),
        from < text@.len() ==> end > from,
{
    let mut i: usize = from;
    while i < text.len()
        invariant
            from <= i,
            from < text@.len() ==> i <= text@.len(),
            line_end(text@, from as int) == line_end(text@, i as int),
        decreases text.len() - i,
    {
        if text[i] == '\n' {
            return i + 1;
        }
        i += 1;
    }
    text.len()
}

/// The start of the line that holds the place before `from`.
pub open spec fn line_start_at(text: Seq<char>, from: int) -> int
    decreases from,
{
    if from <= 0 || from > text.len() {
        0
    } else if text[from - 1] == '\n' {
        from
    } else {
        line_start_at(text, from - 1)
    }
}

/// The start of the line of a place; a place past the end counts as the end.
pub open spec fn line_start(text: Seq<char>, place: int) -> int {
    if place > text.len() {
        line_start_at(text, text.len() as int)
    } else {
        line_start_at(text, place)
    }
}

pub fn find_line_start(text: &Vec<char>, place: usize) -> (start: usize)
    ensures
        start == line_start(text@, place as int),
        start <= text@.len(),
        start <= place,
{
    let mut i: usize = if place > text.len() {
        text.len()
    } else {
        place
    };
    while i > 0
        invariant
            i <= text.len(),
            i <= place,
            line_start(text@, place as int) == line_start_at(text@, i as int),
        decreases i,
    {
        if text[i - 1] == '\n' {
            return i;
        }
        i -= 1;
    }
    0
}

/// The first place from `from` on that holds no space.
pub open spec fn past_spaces(text: Seq<char>, from: int) -> int
    decreases text.len() - from,
{
    if from < 0 || from >= text.len() || text[from] != ' ' {
        from
    } else {
        past_spaces(text, from + 1)
    }
}

pub fn skip_spaces(text: &Vec<char>, from: usize) -> (end: usize)
    requires
        from <= text@.len(),
    ensures
        end == past_spaces(text@, from as int),
        from <= end <= text@.len(),
{
    let mut i: usize = from;
    while i < text.len() && text[i] == ' '
        invariant
            from <= i <= text.len(),
            past_spaces(text@, from as int) == past_spaces(text@, i as int),
        decreases text.len() - i,
    {
        i += 1;
    }
    i
}

/// How many spaces the line of a place begins with.
pub open spec fn indent_width(text: Seq<char>, place: int) -> int {
    past_spaces(text, line_start(text, place)) - line_start(text, place)
}

/// The spaces that the line of a place begins with.
pub open spec fn line_indent(text: Seq<char>, place: int) -> Seq<char> {
    text.subrange(line_start(text, place), past_spaces(text, line_start(text, place)))
}

pub fn indent_of(text: &Vec<char>, place: usize) -> (indent: String)
    ensures
        indent@ == line_indent(text@, place as int),
{
    let start: usize = find_line_start(text, place);
    let end: usize = skip_spaces(text, start);
    text_of(text, start, end)
}

pub open spec fn is_blank(line: Seq<char>) -> bool {
    crate::execute::strings::trimmed(line).len() == 0
}

pub fn blank(line: &str) -> (result: bool)
    ensures
        result == is_blank(line@),
{
    let bare = trim(line);
    let letters = characters(bare.as_str());
    letters.len() == 0
}

/// The end of the lines from `cursor` on that are blank or indented by more
/// than `base`.
pub open spec fn block_end(text: Seq<char>, cursor: int, base: int) -> int
    decreases text.len() - cursor,
        when 0 <= cursor
        via block_end_shrinks
{
    if cursor >= text.len() {
        cursor
    } else {
        let next = line_end(text, cursor);
        let line = text.subrange(cursor, next);
        if is_blank(line) || past_spaces(line, 0) > base {
            block_end(text, next, base)
        } else {
            cursor
        }
    }
}

#[via_fn]
proof fn block_end_shrinks(text: Seq<char>, cursor: int, base: int) {
    lemma_line_end(text, cursor);
}

/// The lines that belong to the node at a place: its own, and the deeper ones
/// below it.
pub open spec fn owned_block(text: Seq<char>, place: int) -> (int, int) {
    let start = line_start(text, place);
    (start, block_end(text, line_end(text, start), indent_width(text, start)))
}

pub fn block_of(text: &Vec<char>, place: usize) -> (range: (usize, usize))
    ensures
        (range.0 as int, range.1 as int) == owned_block(text@, place as int),
        range.0 <= range.1 <= text@.len(),
        range.0 <= place,
{
    let start: usize = find_line_start(text, place);
    let own: usize = find_line_start(text, start);
    let base: usize = skip_spaces(text, own) - own;
    let mut cursor: usize = find_line_end(text, start);
    let ghost first = cursor as int;
    while cursor < text.len()
        invariant
            start <= cursor <= text.len(),
            start <= place,
            start == line_start(text@, place as int),
            first == line_end(text@, start as int),
            first >= 0,
            base == indent_width(text@, start as int),
            block_end(text@, first, base as int) == block_end(text@, cursor as int, base as int),
        decreases text.len() - cursor,
    {
        let next: usize = find_line_end(text, cursor);
        let line = text_of(text, cursor, next);
        let letters = characters(line.as_str());
        let indent: usize = skip_spaces(&letters, 0);
        if !blank(line.as_str()) && indent <= base {
            return (start, cursor);
        }
        cursor = next;
    }
    (start, cursor)
}

/// Places and blocks stay within the text.
pub proof fn lemma_place(text: Seq<char>, from: int, bytes: int)
    requires
        0 <= from <= text.len(),
    ensures
        from <= place_of(text, from, bytes) <= text.len(),
    decreases text.len() - from,
{
    if from < text.len() && bytes > 0 {
        lemma_place(text, from + 1, bytes - width(text[from]));
    }
}

proof fn lemma_line_start(text: Seq<char>, from: int)
    ensures
        0 <= line_start_at(text, from) <= text.len(),
        0 <= from ==> line_start_at(text, from) <= from,
    decreases from,
{
    if 0 < from <= text.len() && text[from - 1] != '\n' {
        lemma_line_start(text, from - 1);
    }
}

proof fn lemma_block_end(text: Seq<char>, cursor: int, base: int)
    requires
        0 <= cursor <= text.len(),
    ensures
        cursor <= block_end(text, cursor, base) <= text.len(),
    decreases text.len() - cursor,
{
    if cursor < text.len() {
        lemma_line_end(text, cursor);
        lemma_block_end(text, line_end(text, cursor), base);
    }
}

pub proof fn lemma_owned_block(text: Seq<char>, place: int)
    ensures
        0 <= owned_block(text, place).0 <= owned_block(text, place).1 <= text.len(),
{
    let start = line_start(text, place);
    lemma_line_start(text, if place > text.len() {
            text.len() as int
        } else {
            place
    });
    lemma_line_end(text, start);
    lemma_block_end(text, line_end(text, start), indent_width(text, start));
}

/// The text with the characters of a range replaced.
pub open spec fn spliced(text: Seq<char>, from: int, to: int, replacement: Seq<char>) -> Seq<char> {
    text.take(from) + replacement + text.skip(to)
}

pub fn splice(text: &Vec<char>, from: usize, to: usize, replacement: &str) -> (result: String)
    requires
        from <= to <= text@.len(),
    ensures
        result@ == spliced(text@, from as int, to as int, replacement@),
{
    let mut result = text_of(text, 0, from);
    let tail = text_of(text, to, text.len());
    assert(text@.take(from as int) =~= text@.subrange(0, from as int));
    assert(text@.skip(to as int) =~= text@.subrange(to as int, text@.len() as int));
    result.append(replacement);
    result.append(tail.as_str());
    result
}

// Lists of lines.

/// The lines of a text from `from` on with their line feeds.
pub open spec fn full_lines_from(text: Seq<char>, from: int, done: Seq<Seq<char>>) -> Seq<Seq<char>>
    decreases text.len() - from,
        when 0 <= from
        via full_lines_shrink
{
    if from >= text.len() {
        done
    } else {
        let end = line_end(text, from);
        full_lines_from(text, end, done.push(text.subrange(from, end)))
    }
}

#[via_fn]
proof fn full_lines_shrink(text: Seq<char>, from: int, done: Seq<Seq<char>>) {
    lemma_line_end(text, from);
}

/// The lines of a text with their line feeds.
pub open spec fn full_lines(text: Seq<char>) -> Seq<Seq<char>> {
    full_lines_from(text, 0, Seq::empty())
}

pub fn split_lines(text: &str) -> (lines: Vec<String>)
    ensures
        view::texts(lines@) == full_lines(text@),
{
    let letters = characters(text);
    let mut done: Vec<String> = Vec::new();
    assert(view::texts(done@) =~= Seq::<Seq<char>>::empty());
    let mut i: usize = 0;
    while i < letters.len()
        invariant
            i <= letters.len(),
            letters@ == text@,
            full_lines(text@) == full_lines_from(text@, i as int, view::texts(done@)),
        decreases letters.len() - i,
    {
        let end: usize = find_line_end(&letters, i);
        let ghost before = done@;
        done.push(text_of(&letters, i, end));
        proof {
            view::lemma_texts_push(before, done@.last());
        }
        i = end;
    }
    done
}

/// Lines without their line endings.
pub open spec fn bare_lines(text: Seq<char>) -> Seq<Seq<char>> {
    let lines = full_lines(text);
    Seq::new(lines.len(), |i: int| crate::execute::strings::without_line_ending(lines[i]))
}

pub fn split_bare_lines(text: &str) -> (lines: Vec<String>)
    ensures
        view::texts(lines@) == bare_lines(text@),
{
    let full = split_lines(text);
    let mut done: Vec<String> = Vec::new();
    let mut i: usize = 0;
    while i < full.len()
        invariant
            i <= full.len(),
            done.len() == i,
            view::texts(full@) == full_lines(text@),
            forall|j: int| 0 <= j < i ==> view::texts(done@)[j] == #[trigger] bare_lines(text@)[j],
        decreases full.len() - i,
    {
        let ghost before = done@;
        assert(full_lines(text@)[i as int] == full@[i as int]@);
        done.push(trim_line_ending(full[i].as_str()));
        proof {
            view::lemma_texts_push(before, done@.last());
        }
        i += 1;
    }
    assert(view::texts(full@).len() == full@.len());
    assert(view::texts(done@) =~= bare_lines(text@));
    done
}

/// Lines put together, each behind a prefix and before a line feed.
pub open spec fn prefixed(lines: Seq<Seq<char>>, count: int, prefix: Seq<char>) -> Seq<char>
    decreases count,
{
    if count <= 0 || count > lines.len() {
        Seq::empty()
    } else {
        prefixed(lines, count - 1, prefix) + prefix + lines[count - 1] + "\n"@
    }
}

/// Every line of a text behind an indentation.
pub open spec fn indented(text: Seq<char>, indent: Seq<char>) -> Seq<char> {
    prefixed(bare_lines(text), bare_lines(text).len() as int, indent)
}

pub fn indent_lines(text: &str, indent: &str) -> (result: String)
    ensures
        result@ == indented(text@, indent@),
{
    let lines = split_bare_lines(text);
    let ghost all = bare_lines(text@);
    assert(view::texts(lines@).len() == lines@.len());
    let mut result = String::new();
    assert(result@ =~= prefixed(all, 0, indent@));
    let mut i: usize = 0;
    while i < lines.len()
        invariant
            i <= lines.len(),
            all.len() == lines@.len(),
            view::texts(lines@) == all,
            result@ == prefixed(all, i as int, indent@),
        decreases lines.len() - i,
    {
        assert(all[i as int] == lines@[i as int]@);
        result.append(indent);
        result.append(lines[i].as_str());
        result.append("\n");
        i += 1;
    }
    result
}

/// A text without the line feeds at its end.
pub open spec fn without_line_feeds(text: Seq<char>) -> Seq<char>
    decreases text.len(),
{
    if text.len() > 0 && text.last() == '\n' {
        without_line_feeds(text.drop_last())
    } else {
        text
    }
}

pub fn trim_line_feeds(text: &str) -> (result: String)
    ensures
        result@ == without_line_feeds(text@),
{
    let letters = characters(text);
    let mut end: usize = letters.len();
    assert(text@.take(end as int) =~= text@);
    while end > 0 && letters[end - 1] == '\n'
        invariant
            end <= letters.len(),
            letters@ == text@,
            without_line_feeds(text@) == without_line_feeds(text@.take(end as int)),
        decreases end,
    {
        assert(text@.take(end as int).last() == '\n');
        assert(text@.take(end as int).drop_last() =~= text@.take(end - 1));
        end -= 1;
    }
    let result = text_of(&letters, 0, end);
    assert(result@ =~= text@.take(end as int));
    assert(end > 0 ==> text@.take(end as int).last() == text@[end - 1]);
    result
}

// Common indentation.

/// The smallest indentation of the lines that are not blank, none if there is
/// no such line.
pub open spec fn least_indent(lines: Seq<Seq<char>>, from: int, least: Option<int>) -> Option<int>
    decreases lines.len() - from,
{
    if from < 0 || from >= lines.len() {
        least
    } else if is_blank(lines[from]) {
        least_indent(lines, from + 1, least)
    } else {
        let indent = past_spaces(lines[from], 0);
        least_indent(
            lines,
            from + 1,
            match least {
                Some(value) => if indent < value {
                    Some(indent)
                } else {
                    least
                },
                None => Some(indent),
            },
        )
    }
}

/// Lines put together without up to `indent` spaces at the start of each.
pub open spec fn outdented(lines: Seq<Seq<char>>, count: int, indent: int) -> Seq<char>
    decreases count,
{
    if count <= 0 || count > lines.len() {
        Seq::empty()
    } else {
        let line = lines[count - 1];
        let spaces = past_spaces(line, 0);
        outdented(lines, count - 1, indent) + line.skip(if spaces < indent {
                spaces
            } else {
                indent
        })
    }
}

/// A text without the indentation that its lines share.
pub open spec fn dedented(text: Seq<char>) -> Seq<char> {
    match least_indent(bare_lines(text), 0, None) {
        Some(indent) => if indent == 0 {
            text
        } else {
            outdented(full_lines(text), full_lines(text).len() as int, indent)
        },
        None => text,
    }
}

fn common_indent(text: &str) -> (result: Option<usize>)
    ensures
        least_indent(bare_lines(text@), 0, None) == (match result {
                Some(value) => Some(value as int),
                None => None,
        }),
{
    let lines = split_bare_lines(text);
    let ghost all = bare_lines(text@);
    assert(view::texts(lines@).len() == lines@.len());
    let mut least: Option<usize> = None;
    let mut i: usize = 0;
    while i < lines.len()
        invariant
            i <= lines.len(),
            all.len() == lines@.len(),
            view::texts(lines@) == all,
            least_indent(all, 0, None) == least_indent(
                all,
                i as int,
                match least {
                    Some(value) => Some(value as int),
                    None => None,
                },
            ),
        decreases lines.len() - i,
    {
        assert(all[i as int] == lines@[i as int]@);
        if !blank(lines[i].as_str()) {
            let letters = characters(lines[i].as_str());
            let indent: usize = skip_spaces(&letters, 0);
            let smaller = match least {
                Some(value) => indent < value,
                None => true,
            };
            if smaller {
                least = Some(indent);
            }
        }
        i += 1;
    }
    least
}

pub fn dedent_fragment(text: &str) -> (result: String)
    ensures
        result@ == dedented(text@),
{
    let indent: usize = match common_indent(text) {
        Some(indent) => indent,
        None => return owned(text),
    };
    if indent == 0 {
        return owned(text);
    }
    let lines = split_lines(text);
    let ghost all = full_lines(text@);
    assert(view::texts(lines@).len() == lines@.len());
    let mut result = String::new();
    assert(result@ =~= outdented(all, 0, indent as int));
    let mut i: usize = 0;
    while i < lines.len()
        invariant
            i <= lines.len(),
            all.len() == lines@.len(),
            view::texts(lines@) == all,
            result@ == outdented(all, i as int, indent as int),
        decreases lines.len() - i,
    {
        assert(all[i as int] == lines@[i as int]@);
        let letters = characters(lines[i].as_str());
        let spaces: usize = skip_spaces(&letters, 0);
        let cut: usize = if spaces < indent {
            spaces
        } else {
            indent
        };
        let kept = text_of(&letters, cut, letters.len());
        assert(kept@ =~= all[i as int].skip(cut as int));
        result.append(kept.as_str());
        i += 1;
    }
    result
}

} // verus!
