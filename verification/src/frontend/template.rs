//! Templates: tags in double braces over compile-time data.
use vstd::prelude::*;
use crate::ast::surface::{Expr, ExprField, Origin};
use crate::ast::view::ExprFieldView;
use crate::execute::strings::{decode, replace, trim, utf8_len};
use crate::frontend::compile_value::{compile_value_expr, fingerprint, read_bindings, size_error};
use crate::frontend::model::{CompileValue, FloatText, TemplateFailure, TemplateNode};
use crate::frontend::view::{
    self, CompileFieldView, CompileValueView, FloatTextView, TemplateFailureView, TemplateNodeView,
};
use crate::syntax::Span;
use crate::text::{
    characters, concat_five, concat_three, decimal_text, owned, same_text, signed_text, split_at_char, starts_with,
    text_of,
};

verus! {

/// How deep sections may be nested.
pub const MAX_TEMPLATE_SECTION_DEPTH: usize = 64;

/// How large a template may be.
pub const MAX_TEMPLATE_SOURCE_BYTES: usize = 1_048_576;

/// How large the rendered text may be.
pub const MAX_TEMPLATE_RENDERED_BYTES: usize = 16_777_216;

// Names.

pub open spec fn is_name_letter(letter: char) -> bool {
    ('a' <= letter && letter <= 'z') || ('A' <= letter && letter <= 'Z') || ('0' <= letter && letter <= '9') || letter
    == '-' || letter == '_'
}

pub open spec fn is_name_part(part: Seq<char>) -> bool {
    part.len() > 0 && forall|i: int| 0 <= i < part.len() ==> is_name_letter(#[trigger] part[i])
}

/// Whether a text names a value: a dot, or parts between dots.
pub open spec fn is_name(text: Seq<char>) -> bool {
    text == "."@ || forall|i: int|
    0 <= i < crate::text::split(text, '.').len() ==> is_name_part(#[trigger] crate::text::split(text, '.')[i])
}

/// The name that a tag writes.
pub open spec fn named(raw: Seq<char>, kind: Seq<char>) -> Result<Seq<char>, Seq<char>> {
    let name = crate::execute::strings::trimmed(raw);
    if is_name(name) {
        Ok(name)
    } else {
        Err("E-TEMPLATE-004: invalid "@ + kind + " name `"@ + name + "`"@)
    }
}

fn name_part(part: &str) -> (result: bool)
    ensures
        result == is_name_part(part@),
{
    let letters = characters(part);
    if letters.len() == 0 {
        return false;
    }
    let mut i: usize = 0;
    while i < letters.len()
        invariant
            i <= letters.len(),
            letters@ == part@,
            forall|j: int| 0 <= j < i ==> is_name_letter(#[trigger] part@[j]),
        decreases letters.len() - i,
    {
        let letter = letters[i];
        let fits = ('a' <= letter && letter <= 'z') || ('A' <= letter && letter <= 'Z') || ('0' <= letter && letter
            <= '9') || letter == '-' || letter == '_';
        if !fits {
            assert(!is_name_letter(part@[i as int]));
            return false;
        }
        i += 1;
    }
    true
}

fn valid_name(text: &str) -> (result: bool)
    ensures
        result == is_name(text@),
{
    if same_text(text, ".") {
        return true;
    }
    let parts = split_at_char(text, '.');
    let ghost all = crate::text::split(text@, '.');
    assert(crate::lowered::view::texts(parts@).len() == parts@.len());
    let mut i: usize = 0;
    while i < parts.len()
        invariant
            i <= parts.len(),
            text@ != "."@,
            all == crate::text::split(text@, '.'),
            all == crate::lowered::view::texts(parts@),
            all.len() == parts@.len(),
            forall|j: int| 0 <= j < i ==> is_name_part(#[trigger] all[j]),
        decreases parts.len() - i,
    {
        assert(all[i as int] == parts@[i as int]@);
        if !name_part(parts[i].as_str()) {
            return false;
        }
        i += 1;
    }
    true
}

fn template_name(raw: &str, kind: &str) -> (result: Result<String, String>)
    ensures
        named(raw@, kind@) == (match result {
                Ok(name) => Ok(name@),
                Err(message) => Err(message@),
        }),
{
    let name = trim(raw);
    if valid_name(name.as_str()) {
        Ok(name)
    } else {
        Err(concat_five("E-TEMPLATE-004: invalid ", kind, " name `", name.as_str(), "`"))
    }
}

// Parsing.

/// Whether a character stands so many times in a row at a place.
pub open spec fn repeats(text: Seq<char>, at: int, letter: char, count: int) -> bool {
    0 <= at && at + count <= text.len() && forall|i: int| at <= i < at + count ==> #[trigger] text[i] == letter
}

/// The first place from `from` on where a character stands so many times in a
/// row.
pub open spec fn next_run(text: Seq<char>, from: int, letter: char, count: int) -> Option<int>
    decreases text.len() - from,
{
    if from < 0 || from >= text.len() {
        None
    } else if repeats(text, from, letter, count) {
        Some(from)
    } else {
        next_run(text, from + 1, letter, count)
    }
}

fn is_run(text: &Vec<char>, at: usize, letter: char, count: usize) -> (result: bool)
    requires
        at <= text@.len(),
        count <= 3,
    ensures
        result == repeats(text@, at as int, letter, count as int),
{
    if count > text.len() - at {
        return false;
    }
    let mut i: usize = 0;
    while i < count
        invariant
            i <= count <= 3,
            at + count <= text.len(),
            forall|j: int| at <= j < at + i ==> #[trigger] text@[j] == letter,
        decreases count - i,
    {
        if text[at + i] != letter {
            assert(text@[at + i] != letter);
            return false;
        }
        i += 1;
    }
    true
}

fn find_run(text: &Vec<char>, from: usize, letter: char, count: usize) -> (result: Option<usize>)
    requires
        count <= 3,
    ensures
        next_run(text@, from as int, letter, count as int) == (match result {
                Some(place) => Some(place as int),
                None => None,
        }),
        match result {
            Some(place) => from <= place && place + count <= text@.len(),
            None => true,
        },
{
    let mut i: usize = from;
    while i < text.len()
        invariant
            from <= i,
            count <= 3,
            next_run(text@, from as int, letter, count as int) == next_run(text@, i as int, letter, count as int),
        decreases text.len() - i,
    {
        if is_run(text, i, letter, count) {
            return Some(i);
        }
        i += 1;
    }
    None
}

/// What a tag in double braces is.
#[allow(inconsistent_fields)]
pub enum TagView {
    Close(Seq<char>),
    Section { name: Seq<char>, inverted: bool },
    Comment,
    Variable(Seq<char>),
}

#[derive(Debug)]
enum Tag {
    Close(String),
    Section {
        name: String,
        inverted: bool,
    },
    Comment,
    Variable(String),
}

impl Tag {
    spec fn view(&self) -> TagView {
        match *self {
            Tag::Close(name) => TagView::Close(name@),
            Tag::Section { name, inverted } => TagView::Section { name: name@, inverted },
            Tag::Comment => TagView::Comment,
            Tag::Variable(name) => TagView::Variable(name@),
        }
    }
}

/// The tag that stands between double braces.
pub open spec fn tag_of(content: Seq<char>) -> Result<TagView, Seq<char>> {
    let tag = crate::execute::strings::trimmed(content);
    if crate::text::has_prefix(tag, "/"@) {
        match named(tag.skip(1), "closing section"@) {
            Err(error) => Err(error),
            Ok(name) => {
                Ok(TagView::Close(name))

            },
        }
    } else if crate::text::has_prefix(tag, "#"@) {
        match named(tag.skip(1), "section"@) {
            Err(error) => Err(error),
            Ok(name) => {
                Ok(TagView::Section { name, inverted: false })

            },
        }
    } else if crate::text::has_prefix(tag, "^"@) {
        match named(tag.skip(1), "section"@) {
            Err(error) => Err(error),
            Ok(name) => {
                Ok(TagView::Section { name, inverted: true })

            },
        }
    } else if crate::text::has_prefix(tag, "!"@) {
        Ok(TagView::Comment)
    } else if crate::text::has_prefix(tag, "&"@) {
        match named(tag.skip(1), "variable"@) {
            Err(error) => Err(error),
            Ok(name) => {
                Ok(TagView::Variable(name))

            },
        }
    } else {
        match named(tag, "variable"@) {
            Err(error) => Err(error),
            Ok(name) => {
                Ok(TagView::Variable(name))

            },
        }
    }
}

fn without_first(text: &str) -> (result: String)
    requires
        text@.len() > 0,
    ensures
        result@ == text@.skip(1),
{
    let letters = characters(text);
    let result = text_of(&letters, 1, letters.len());
    assert(result@ =~= text@.skip(1));
    result
}

fn read_tag(content: &str) -> (result: Result<Tag, String>)
    ensures
        tag_of(content@) == (match result {
                Ok(tag) => Ok(tag@),
                Err(message) => Err(message@),
        }),
{
    let tag = trim(content);
    proof {
        reveal_strlit("/");
        reveal_strlit("#");
        reveal_strlit("^");
        reveal_strlit("&");
    }
    if starts_with(tag.as_str(), "/") {
        let rest = without_first(tag.as_str());
        let name = match template_name(rest.as_str(), "closing section") {
            Ok(value) => value,
            Err(error) => return Err(error),
        };
        Ok(Tag::Close(name))
    } else if starts_with(tag.as_str(), "#") {
        let rest = without_first(tag.as_str());
        let name = match template_name(rest.as_str(), "section") {
            Ok(value) => value,
            Err(error) => return Err(error),
        };
        Ok(Tag::Section { name, inverted: false })
    } else if starts_with(tag.as_str(), "^") {
        let rest = without_first(tag.as_str());
        let name = match template_name(rest.as_str(), "section") {
            Ok(value) => value,
            Err(error) => return Err(error),
        };
        Ok(Tag::Section { name, inverted: true })
    } else if starts_with(tag.as_str(), "!") {
        Ok(Tag::Comment)
    } else if starts_with(tag.as_str(), "&") {
        let rest = without_first(tag.as_str());
        let name = match template_name(rest.as_str(), "variable") {
            Ok(value) => value,
            Err(error) => return Err(error),
        };
        Ok(Tag::Variable(name))
    } else {
        let name = match template_name(tag.as_str(), "variable") {
            Ok(value) => value,
            Err(error) => return Err(error),
        };
        Ok(Tag::Variable(name))
    }
}

/// The nodes so far with the text between two places, if there is any.
pub open spec fn with_text(source: Seq<char>, from: int, to: int, done: Seq<TemplateNodeView>) -> Seq<TemplateNodeView> {
    if to > from {
        done.push(TemplateNodeView::Text(source.subrange(from, to)))
    } else {
        done
    }
}

/// The end of a list of nodes: an error inside a section.
pub open spec fn ended(closing: Option<Seq<char>>, done: Seq<TemplateNodeView>, end: int) -> Result<
(Seq<TemplateNodeView>, int),
Seq<char>,
> {
    match closing {
        Some(name) => Err("E-TEMPLATE-004: unclosed section `"@ + name + "`"@),
        None => Ok((done, end)),
    }
}

/// The nodes from a place on up to the end of the section, or of the template,
/// and where they end.
pub open spec fn parsed(
    source: Seq<char>,
    offset: int,
    closing: Option<Seq<char>>,
    depth: int,
    done: Seq<TemplateNodeView>,
) -> Result<(Seq<TemplateNodeView>, int), Seq<char>>
    decreases source.len() - offset,
        when 0 <= offset
        via parsed_shrinks
{
    if depth > MAX_TEMPLATE_SECTION_DEPTH {
        Err(
            "E-TEMPLATE-006: template section nesting exceeds "@ + crate::text::decimal(
                MAX_TEMPLATE_SECTION_DEPTH as nat,
            ),
        )
    } else if offset >= source.len() {
        ended(closing, done, offset)
    } else {
        match next_run(source, offset, '{', 2) {
            None => ended(
                closing,
                done.push(TemplateNodeView::Text(source.skip(offset))),
                source.len() as int,
            ),
            Some(open) => {
                let nodes = with_text(source, offset, open, done);
                if repeats(source, open, '{', 3) {
                    match next_run(source, open + 3, '}', 3) {
                        None => Err("E-TEMPLATE-004: unclosed triple-brace variable"@),
                        Some(close) => {
                            match named(source.subrange(open + 3, close), "variable"@) {
                                Err(error) => Err(error),
                                Ok(name) => {
                                    parsed(
                                        source,
                                        close + 3,
                                        closing,
                                        depth,
                                        nodes.push(TemplateNodeView::Variable(name)),
                                    )

                                },
                            }
                        },
                    }
                } else {
                    match next_run(source, open + 2, '}', 2) {
                        None => Err("E-TEMPLATE-004: unclosed template tag"@),
                        Some(close) => {
                            match tag_of(source.subrange(open + 2, close)) {
                                Err(error) => Err(error),
                                Ok(tag) => {
                                    match tag {
                                        TagView::Close(name) => if closing == Some(name) {
                                            Ok((nodes, close + 2))
                                        } else {
                                            Err("E-TEMPLATE-004: unexpected closing section `"@ + name + "`"@)
                                        },
                                        TagView::Comment => parsed(source, close + 2, closing, depth, nodes),
                                        TagView::Variable(name) => parsed(
                                            source,
                                            close + 2,
                                            closing,
                                            depth,
                                            nodes.push(TemplateNodeView::Variable(name)),
                                        ),
                                        TagView::Section { name, inverted } => match parsed(
                                            source,
                                            close + 2,
                                            Some(name),
                                            depth + 1,
                                            Seq::empty(),
                                        ) {
                                            Err(message) => Err(message),
                                            Ok((children, next)) => if offset < next <= source.len() {
                                                parsed(
                                                    source,
                                                    next,
                                                    closing,
                                                    depth,
                                                    nodes.push(
                                                        TemplateNodeView::Section { name, inverted, children },
                                                    ),
                                                )
                                            } else {
                                                Ok((nodes, next))
                                            },
                                        },
                                    }

                                },
                            }
                        },
                    }
                }
            },
        }
    }
}

#[via_fn]
proof fn parsed_shrinks(
    source: Seq<char>,
    offset: int,
    closing: Option<Seq<char>>,
    depth: int,
    done: Seq<TemplateNodeView>,
) {
    if offset < source.len() {
        lemma_next_run(source, offset, '{', 2);
        match next_run(source, offset, '{', 2) {
            Some(open) => {
                lemma_next_run(source, open + 3, '}', 3);
                lemma_next_run(source, open + 2, '}', 2);
            }
            None => {}
        }
    }
}

proof fn lemma_next_run(text: Seq<char>, from: int, letter: char, count: int)
    ensures
        match next_run(text, from, letter, count) {
            Some(place) => from <= place && place + count <= text.len(),
            None => true,
        },
    decreases text.len() - from,
{
    if 0 <= from < text.len() && !repeats(text, from, letter, count) {
        lemma_next_run(text, from + 1, letter, count);
    }
}

/// The nodes of a template.
pub open spec fn template_nodes(source: Seq<char>) -> Result<Seq<TemplateNodeView>, Seq<char>> {
    match parsed(source, 0, None, 0, Seq::empty()) {
        Ok((nodes, _)) => Ok(nodes),
        Err(message) => Err(message),
    }
}

pub open spec fn closing_view(closing: Option<&str>) -> Option<Seq<char>> {
    match closing {
        Some(name) => Some(name@),
        None => None,
    }
}

pub open spec fn nodes_outcome(result: Result<(Vec<TemplateNode>, usize), String>) -> Result<
(Seq<TemplateNodeView>, int),
Seq<char>,
> {
    match result {
        Ok((nodes, end)) => Ok((view::template_nodes(nodes@), end as int)),
        Err(message) => Err(message@),
    }
}

fn push_template_node(nodes: &mut Vec<TemplateNode>, node: TemplateNode)
    ensures
        view::template_nodes(final(nodes)@) == view::template_nodes(old(nodes)@).push(view::template_node(node)),
{
    let ghost before = nodes@;
    nodes.push(node);
    proof {
        view::lemma_template_nodes_push(before, node);
    }
}

fn parse_template_nodes(source: &Vec<char>, start: usize, closing: Option<&str>, depth: usize) -> (result: Result<
    (Vec<TemplateNode>, usize),
    String,
    >)
    requires
        start <= source@.len(),
        depth <= MAX_TEMPLATE_SECTION_DEPTH + 1,
    ensures
        nodes_outcome(result) == parsed(source@, start as int, closing_view(closing), depth as int, Seq::empty()),
        match result {
            Ok((_, end)) => start <= end <= source@.len(),
            Err(_) => true,
        },
    decreases MAX_TEMPLATE_SECTION_DEPTH + 1 - depth,
{
    if depth > MAX_TEMPLATE_SECTION_DEPTH {
        let digits = decimal_text(MAX_TEMPLATE_SECTION_DEPTH as u64);
        let mut message = owned("E-TEMPLATE-006: template section nesting exceeds ");
        message.append(digits.as_str());
        return Err(message);
    }
    let mut nodes: Vec<TemplateNode> = Vec::new();
    assert(view::template_nodes(nodes@) =~= Seq::<TemplateNodeView>::empty());
    let ghost whole = parsed(source@, start as int, closing_view(closing), depth as int, Seq::empty());
    let mut offset: usize = start;
    while offset < source.len()
        invariant
            start <= offset <= source.len(),
            depth <= MAX_TEMPLATE_SECTION_DEPTH,
            whole == parsed(source@, start as int, closing_view(closing), depth as int, Seq::empty()),
            whole == parsed(
                source@,
                offset as int,
                closing_view(closing),
                depth as int,
                view::template_nodes(nodes@),
            ),
        decreases source.len() - offset,
    {
        let open = match find_run(source, offset, '{', 2) {
            Some(open) => open,
            None => {
                let rest = text_of(source, offset, source.len());
                assert(rest@ =~= source@.skip(offset as int));
                push_template_node(&mut nodes, TemplateNode::Text(rest));
                return match closing {
                    Some(name) => Err(concat_three("E-TEMPLATE-004: unclosed section `", name, "`")),
                    None => Ok((nodes, source.len())),
                };
            }
        };
        if open > offset {
            push_template_node(&mut nodes, TemplateNode::Text(text_of(source, offset, open)));
        }
        if is_run(source, open, '{', 3) {
            let close = match find_run(source, open + 3, '}', 3) {
                Some(close) => close,
                None => return Err(owned("E-TEMPLATE-004: unclosed triple-brace variable")),
            };
            let content = text_of(source, open + 3, close);
            let name = match template_name(content.as_str(), "variable") {
                Ok(value) => value,
                Err(error) => return Err(error),
            };
            push_template_node(&mut nodes, TemplateNode::Variable(name));
            offset = close + 3;
        } else {
            let close = match find_run(source, open + 2, '}', 2) {
                Some(close) => close,
                None => return Err(owned("E-TEMPLATE-004: unclosed template tag")),
            };
            let content = text_of(source, open + 2, close);
            let tag = match read_tag(content.as_str()) {
                Ok(value) => value,
                Err(error) => return Err(error),
            };
            match tag {
                Tag::Close(name) => {
                    let expected = match closing {
                        Some(closing) => same_text(closing, name.as_str()),
                        None => false,
                    };
                    if expected {
                        return Ok((nodes, close + 2));
                    }
                    return Err(
                        concat_three("E-TEMPLATE-004: unexpected closing section `", name.as_str(), "`"),
                    );
                }
                Tag::Comment => {
                    offset = close + 2;
                }
                Tag::Variable(name) => {
                    push_template_node(&mut nodes, TemplateNode::Variable(name));
                    offset = close + 2;
                }
                Tag::Section { name, inverted } => {
                    let section = match parse_template_nodes(source, close + 2, Some(name.as_str()), depth + 1) {
                        Ok(value) => value,
                        Err(error) => return Err(error),
                    };
                    push_template_node(&mut nodes, TemplateNode::Section { name, inverted, children: section.0 });
                    offset = section.1;
                }
            }
        }
    }
    match closing {
        Some(name) => Err(concat_three("E-TEMPLATE-004: unclosed section `", name, "`")),
        None => Ok((nodes, offset)),
    }
}

/// Parses a template.
pub fn parse_template(source: &str) -> (result: Result<Vec<TemplateNode>, String>)
    ensures
        template_nodes(source@) == (match result {
                Ok(nodes) => Ok(view::template_nodes(nodes@)),
                Err(message) => Err(message@),
        }),
{
    let letters = characters(source);
    let parsed = match parse_template_nodes(&letters, 0, None, 0) {
        Ok(value) => value,
        Err(error) => return Err(error),
    };
    Ok(parsed.0)
}

// Values.

pub open spec fn field_of(fields: Seq<CompileFieldView>, from: int, name: Seq<char>) -> Option<CompileValueView>
    decreases fields.len() - from,
{
    if from < 0 || from >= fields.len() {
        None
    } else if fields[from].name == name {
        Some(fields[from].value)
    } else {
        field_of(fields, from + 1, name)
    }
}

/// What a field of a record holds.
pub open spec fn member(value: CompileValueView, name: Seq<char>) -> Option<CompileValueView> {
    match value {
        CompileValueView::Record(fields) => field_of(fields, 0, name),
        _ => None,
    }
}

/// What is reached by the names from a place on.
pub open spec fn inside(value: CompileValueView, names: Seq<Seq<char>>, from: int) -> Option<CompileValueView>
    decreases names.len() - from,
{
    if from < 0 || from >= names.len() {
        Some(value)
    } else {
        match member(value, names[from]) {
            None => None,
            Some(next) => {
                inside(next, names, from + 1)

            },
        }
    }
}

/// What a name stands for: the innermost of the first `count` contexts that has
/// its first part decides.
pub open spec fn found(contexts: Seq<CompileValueView>, count: int, names: Seq<Seq<char>>) -> Option<CompileValueView>
    decreases count,
{
    if count <= 0 || count > contexts.len() || names.len() == 0 {
        None
    } else {
        match member(contexts[count - 1], names[0]) {
            Some(value) => inside(value, names, 1),
            None => found(contexts, count - 1, names),
        }
    }
}

pub open spec fn value_named(contexts: Seq<CompileValueView>, name: Seq<char>) -> Option<CompileValueView> {
    if name == "."@ {
        if contexts.len() == 0 {
            None
        } else {
            Some(contexts.last())
        }
    } else {
        found(contexts, contexts.len() as int, crate::text::split(name, '.'))
    }
}

pub open spec fn context_views(contexts: Seq<&CompileValue>) -> Seq<CompileValueView> {
    Seq::new(contexts.len(), |i: int| view::compile_value(*contexts[i]))
}

pub open spec fn reference_option(value: Option<&CompileValue>) -> Option<CompileValueView> {
    match value {
        Some(value) => Some(view::compile_value(*value)),
        None => None,
    }
}

fn find_member<'a>(value: &'a CompileValue, name: &str) -> (result: Option<&'a CompileValue>)
    ensures
        reference_option(result) == member(view::compile_value(*value), name@),
{
    match value {
        CompileValue::Record(fields) => {
            let ghost all = view::compile_fields(fields@);
            let mut i: usize = 0;
            while i < fields.len()
                invariant
                    i <= fields.len(),
                    all == view::compile_fields(fields@),
                    member(view::compile_value(*value), name@) == field_of(all, 0, name@),
                    field_of(all, 0, name@) == field_of(all, i as int, name@),
                decreases fields.len() - i,
            {
                assert(all[i as int] == view::compile_field(fields@[i as int]));
                if same_text(fields[i].name.as_str(), name) {
                    return Some(&fields[i].value);
                }
                i += 1;
            }
            None
        }
        _ => None,
    }
}

fn find_inside<'a>(value: &'a CompileValue, names: &Vec<String>) -> (result: Option<&'a CompileValue>)
    ensures
        reference_option(result) == inside(view::compile_value(*value), crate::lowered::view::texts(names@), 1),
{
    let ghost all = crate::lowered::view::texts(names@);
    let ghost first = view::compile_value(*value);
    let mut current = value;
    let mut i: usize = 1;
    assert(all.len() == names@.len());
    while i < names.len()
        invariant
            1 <= i,
            first == view::compile_value(*value),
            all == crate::lowered::view::texts(names@),
            all.len() == names@.len(),
            inside(first, all, 1) == inside(view::compile_value(*current), all, i as int),
        decreases names.len() - i,
    {
        assert(all[i as int] == names@[i as int]@);
        let next = match find_member(current, names[i].as_str()) {
            Some(value) => value,
            None => return None,
        };
        current = next;
        i += 1;
    }
    Some(current)
}

fn lookup_template_value<'a>(contexts: &Vec<&'a CompileValue>, name: &str) -> (result: Option<&'a CompileValue>)
    ensures
        reference_option(result) == value_named(context_views(contexts@), name@),
{
    let ghost all = context_views(contexts@);
    if same_text(name, ".") {
        if contexts.len() == 0 {
            return None;
        }
        assert(all.last() == view::compile_value(*contexts@[contexts@.len() - 1]));
        return Some(contexts[contexts.len() - 1]);
    }
    let names = split_at_char(name, '.');
    let ghost parts = crate::text::split(name@, '.');
    assert(crate::lowered::view::texts(names@).len() == names@.len());
    if names.len() == 0 {
        return None;
    }
    assert(parts[0] == names@[0]@);
    let mut i: usize = contexts.len();
    while i > 0
        invariant
            i <= contexts.len(),
            names.len() > 0,
            all == context_views(contexts@),
            parts == crate::lowered::view::texts(names@),
            parts.len() == names@.len(),
            parts[0] == names@[0]@,
            value_named(all, name@) == found(all, all.len() as int, parts),
            found(all, all.len() as int, parts) == found(all, i as int, parts),
        decreases i,
    {
        assert(all[i - 1] == view::compile_value(*contexts@[i - 1]));
        match find_member(contexts[i - 1], names[0].as_str()) {
            Some(value) => return find_inside(value, &names),
            None => {}
        }
        i -= 1;
    }
    None
}

pub open spec fn is_true(value: CompileValueView) -> bool {
    match value {
        CompileValueView::Null => false,
        CompileValueView::Bool(value) => value,
        CompileValueView::Array(values) => values.len() > 0,
        _ => true,
    }
}

fn template_truthy(value: &CompileValue) -> (result: bool)
    ensures
        result == is_true(view::compile_value(*value)),
{
    match value {
        CompileValue::Null => false,
        CompileValue::Bool(value) => *value,
        CompileValue::Array(values) => {
            assert(view::compile_values(values@).len() == values@.len());
            values.len() > 0
        }
        _ => true,
    }
}

// Rendering.

pub open spec fn message_failure(message: Seq<char>) -> TemplateFailureView {
    TemplateFailureView::Message(message)
}

pub open spec fn text_outcome(result: Result<String, TemplateFailure>) -> Result<Seq<char>, TemplateFailureView> {
    match result {
        Ok(text) => Ok(text@),
        Err(failure) => Err(view::template_failure(failure)),
    }
}

/// How a float looks.
pub open spec fn float_text(
    floats: Seq<FloatTextView>,
    from: int,
    bits: u64,
) -> Result<Seq<char>, TemplateFailureView>
    decreases floats.len() - from,
{
    if from < 0 || from >= floats.len() {
        Err(TemplateFailureView::NeedsFloatText(bits))
    } else if floats[from].bits == bits {
        Ok(floats[from].text)
    } else {
        float_text(floats, from + 1, bits)
    }
}

fn find_float_text(floats: &Vec<FloatText>, bits: u64) -> (result: Result<String, TemplateFailure>)
    ensures
        text_outcome(result) == float_text(view::float_texts(floats@), 0, bits),
{
    let ghost all = view::float_texts(floats@);
    let mut i: usize = 0;
    while i < floats.len()
        invariant
            i <= floats.len(),
            all == view::float_texts(floats@),
            float_text(all, 0, bits) == float_text(all, i as int, bits),
        decreases floats.len() - i,
    {
        assert(all[i as int] == view::float_text(floats@[i as int]));
        if floats[i].bits == bits {
            return Ok(floats[i].text.clone());
        }
        i += 1;
    }
    Err(TemplateFailure::NeedsFloatText(bits))
}

/// The text of a scalar.
pub open spec fn scalar_text(name: Seq<char>, value: CompileValueView, floats: Seq<FloatTextView>) -> Result<
Seq<char>,
TemplateFailureView,
> {
    match value {
        CompileValueView::Null => Ok(Seq::empty()),
        CompileValueView::Bool(value) => Ok(if value {
                "true"@
            } else {
                "false"@
        }),
        CompileValueView::Int(value) => Ok(crate::text::signed_decimal(value as int)),
        CompileValueView::Float(bits) => float_text(floats, 0, bits),
        CompileValueView::String(text) => Ok(text),
        _ => Err(message_failure("E-TEMPLATE-005: template value `"@ + name + "` must be a scalar"@)),
    }
}

fn render_template_scalar(name: &str, value: &CompileValue, floats: &Vec<FloatText>) -> (result: Result<
    String,
    TemplateFailure,
    >)
    ensures
        text_outcome(result) == scalar_text(name@, view::compile_value(*value), view::float_texts(floats@)),
{
    match value {
        CompileValue::Null => {
            let empty = String::new();
            assert(empty@ =~= Seq::<char>::empty());
            Ok(empty)
        }
        CompileValue::Bool(value) => Ok(if *value {
                owned("true")
            } else {
                owned("false")
        }),
        CompileValue::Int(value) => Ok(signed_text(*value)),
        CompileValue::Float(bits) => find_float_text(floats, *bits),
        CompileValue::String(text) => Ok(text.clone()),
        _ => Err(
            TemplateFailure::Message(concat_three("E-TEMPLATE-005: template value `", name, "` must be a scalar")),
        ),
    }
}

/// The output with a text behind it, within the limit.
pub open spec fn appended(output: Seq<char>, text: Seq<char>) -> Result<Seq<char>, TemplateFailureView> {
    let length = crate::execute::strings::byte_len(output) + crate::execute::strings::byte_len(text);
    if length > usize::MAX {
        Err(message_failure("E-TEMPLATE-006: rendered template size overflow"@))
    } else if length > MAX_TEMPLATE_RENDERED_BYTES {
        Err(
            message_failure(
                crate::frontend::compile_value::size_message(
                    "E-TEMPLATE-006"@,
                    "rendered template"@,
                    MAX_TEMPLATE_RENDERED_BYTES as nat,
                ),
            ),
        )
    } else {
        Ok(output + text)
    }
}

fn append_template_output(output: String, text: &str) -> (result: Result<String, TemplateFailure>)
    ensures
        text_outcome(result) == appended(output@, text@),
{
    let first: usize = utf8_len(output.as_str());
    let second: usize = utf8_len(text);
    if second > usize::MAX - first {
        return Err(TemplateFailure::Message(owned("E-TEMPLATE-006: rendered template size overflow")));
    }
    if first + second > MAX_TEMPLATE_RENDERED_BYTES {
        return Err(
            TemplateFailure::Message(
                size_error("E-TEMPLATE-006", "rendered template", MAX_TEMPLATE_RENDERED_BYTES),
            ),
        );
    }
    let mut longer = output;
    longer.append(text);
    Ok(longer)
}

/// The output with nodes rendered behind it.
pub open spec fn rendered(
    nodes: Seq<TemplateNodeView>,
    from: int,
    contexts: Seq<CompileValueView>,
    floats: Seq<FloatTextView>,
    output: Seq<char>,
) -> Result<Seq<char>, TemplateFailureView>
    decreases nodes, 0int, nodes.len() - from,
{
    if from < 0 || from >= nodes.len() {
        Ok(output)
    } else {
        match rendered_node(nodes[from], contexts, floats, output) {
            Err(error) => Err(error),
            Ok(next) => {
                rendered(nodes, from + 1, contexts, floats, next)

            },
        }
    }
}

pub open spec fn rendered_node(
    node: TemplateNodeView,
    contexts: Seq<CompileValueView>,
    floats: Seq<FloatTextView>,
    output: Seq<char>,
) -> Result<Seq<char>, TemplateFailureView>
    decreases node, 0int, 0int,
{
    match node {
        TemplateNodeView::Text(text) => appended(output, text),
        TemplateNodeView::Variable(name) => match value_named(contexts, name) {
            None => Err(message_failure("E-TEMPLATE-005: unknown template value `"@ + name + "`"@)),
            Some(value) => {
                match scalar_text(name, value, floats) {
                    Err(error) => Err(error),
                    Ok(text) => {
                        appended(output, text)

                    },
                }
            },
        },
        TemplateNodeView::Section { name, inverted, children } => match value_named(contexts, name) {
            None => Err(message_failure("E-TEMPLATE-005: unknown template section `"@ + name + "`"@)),
            Some(value) => if inverted {
                if is_true(value) {
                    Ok(output)
                } else {
                    rendered(children, 0, contexts, floats, output)
                }
            } else if !is_true(value) {
                Ok(output)
            } else {
                match value {
                    CompileValueView::Array(items) => rendered_items(children, items, 0, contexts, floats, output),
                    _ => rendered(children, 0, contexts.push(value), floats, output),
                }
            },
        },
    }
}

/// The output with nodes rendered behind it once for each item.
pub open spec fn rendered_items(
    nodes: Seq<TemplateNodeView>,
    items: Seq<CompileValueView>,
    from: int,
    contexts: Seq<CompileValueView>,
    floats: Seq<FloatTextView>,
    output: Seq<char>,
) -> Result<Seq<char>, TemplateFailureView>
    decreases nodes, 1int, items.len() - from,
{
    if from < 0 || from >= items.len() {
        Ok(output)
    } else {
        match rendered(nodes, 0, contexts.push(items[from]), floats, output) {
            Err(error) => Err(error),
            Ok(next) => {
                rendered_items(nodes, items, from + 1, contexts, floats, next)

            },
        }
    }
}

fn within<'a>(contexts: &Vec<&'a CompileValue>, value: &'a CompileValue) -> (result: Vec<&'a CompileValue>)
    ensures
        context_views(result@) == context_views(contexts@).push(view::compile_value(*value)),
{
    let mut nested: Vec<&'a CompileValue> = Vec::new();
    let mut i: usize = 0;
    while i < contexts.len()
        invariant
            i <= contexts.len(),
            nested@ == contexts@.take(i as int),
        decreases contexts.len() - i,
    {
        nested.push(contexts[i]);
        assert(contexts@.take(i as int).push(contexts@[i as int]) =~= contexts@.take(i + 1));
        i += 1;
    }
    nested.push(value);
    assert(context_views(nested@) =~= context_views(contexts@).push(view::compile_value(*value)));
    nested
}

fn render_items(
    nodes: &Vec<TemplateNode>,
    items: &Vec<CompileValue>,
    contexts: &Vec<&CompileValue>,
    floats: &Vec<FloatText>,
    output: String,
) -> (result: Result<String, TemplateFailure>)
    ensures
        text_outcome(result) == rendered_items(
            view::template_nodes(nodes@),
            view::compile_values(items@),
            0,
            context_views(contexts@),
            view::float_texts(floats@),
            output@,
        ),
    decreases nodes, 1int,
{
    let ghost parts = view::template_nodes(nodes@);
    let ghost all = view::compile_values(items@);
    let ghost around = context_views(contexts@);
    let ghost numbers = view::float_texts(floats@);
    let ghost first = output@;
    let mut text = output;
    let mut i: usize = 0;
    while i < items.len()
        invariant
            i <= items.len(),
            parts == view::template_nodes(nodes@),
            all == view::compile_values(items@),
            around == context_views(contexts@),
            numbers == view::float_texts(floats@),
            first == output@,
            rendered_items(parts, all, 0, around, numbers, first) == rendered_items(
                parts,
                all,
                i as int,
                around,
                numbers,
                text@,
            ),
        decreases items.len() - i,
    {
        assert(all[i as int] == view::compile_value(items@[i as int]));
        let nested = within(contexts, &items[i]);
        let next = match render_template_into(nodes, &nested, floats, text) {
            Ok(value) => value,
            Err(error) => return Err(error),
        };
        text = next;
        i += 1;
    }
    Ok(text)
}

fn render_node(node: &TemplateNode, contexts: &Vec<&CompileValue>, floats: &Vec<FloatText>, output: String) -> (result: Result<
    String,
    TemplateFailure,
    >)
    ensures
        text_outcome(result) == rendered_node(
            view::template_node(*node),
            context_views(contexts@),
            view::float_texts(floats@),
            output@,
        ),
    decreases node, 0int,
{
    match node {
        TemplateNode::Text(text) => append_template_output(output, text.as_str()),
        TemplateNode::Variable(name) => match lookup_template_value(contexts, name.as_str()) {
            None => Err(
                TemplateFailure::Message(
                    concat_three("E-TEMPLATE-005: unknown template value `", name.as_str(), "`"),
                ),
            ),
            Some(value) => {
                let text = match render_template_scalar(name.as_str(), value, floats) {
                    Ok(value) => value,
                    Err(error) => return Err(error),
                };
                append_template_output(output, text.as_str())
            }
        },
        TemplateNode::Section { name, inverted, children } => match lookup_template_value(contexts, name.as_str()) {
            None => Err(
                TemplateFailure::Message(
                    concat_three("E-TEMPLATE-005: unknown template section `", name.as_str(), "`"),
                ),
            ),
            Some(value) => if *inverted {
                if template_truthy(value) {
                    Ok(output)
                } else {
                    render_template_into(children, contexts, floats, output)
                }
            } else if !template_truthy(value) {
                Ok(output)
            } else {
                match value {
                    CompileValue::Array(items) => render_items(children, items, contexts, floats, output),
                    _ => {
                        let nested = within(contexts, value);
                        render_template_into(children, &nested, floats, output)
                    }
                }
            },
        },
    }
}

fn render_template_into(
    nodes: &Vec<TemplateNode>,
    contexts: &Vec<&CompileValue>,
    floats: &Vec<FloatText>,
    output: String,
) -> (result: Result<String, TemplateFailure>)
    ensures
        text_outcome(result) == rendered(
            view::template_nodes(nodes@),
            0,
            context_views(contexts@),
            view::float_texts(floats@),
            output@,
        ),
    decreases nodes, 0int,
{
    let ghost all = view::template_nodes(nodes@);
    let ghost around = context_views(contexts@);
    let ghost numbers = view::float_texts(floats@);
    let ghost first = output@;
    let mut text = output;
    let mut i: usize = 0;
    while i < nodes.len()
        invariant
            i <= nodes.len(),
            all == view::template_nodes(nodes@),
            around == context_views(contexts@),
            numbers == view::float_texts(floats@),
            first == output@,
            rendered(all, 0, around, numbers, first) == rendered(all, i as int, around, numbers, text@),
        decreases nodes.len() - i,
    {
        assert(all[i as int] == view::template_node(nodes@[i as int]));
        let next = match render_node(&nodes[i], contexts, floats, text) {
            Ok(value) => value,
            Err(error) => return Err(error),
        };
        text = next;
        i += 1;
    }
    Ok(text)
}

/// Renders a template over data. The texts of floats are looked up in a table.
pub fn render_template(nodes: &Vec<TemplateNode>, root: &CompileValue, floats: &Vec<FloatText>) -> (result: Result<
    String,
    TemplateFailure,
    >)
    ensures
        text_outcome(result) == rendered(
            view::template_nodes(nodes@),
            0,
            seq![view::compile_value(*root)],
            view::float_texts(floats@),
            Seq::empty(),
        ),
{
    let mut contexts: Vec<&CompileValue> = Vec::new();
    contexts.push(root);
    assert(context_views(contexts@) =~= seq![view::compile_value(*root)]);
    let output = String::new();
    assert(output@ =~= Seq::<char>::empty());
    render_template_into(nodes, &contexts, floats, output)
}

/// The text that a template file renders to.
pub open spec fn template_text(bytes: Seq<u8>, bindings: Seq<ExprFieldView>, floats: Seq<FloatTextView>) -> Result<
Seq<char>,
TemplateFailureView,
> {
    if bytes.len() > MAX_TEMPLATE_SOURCE_BYTES {
        Err(
            message_failure(
                crate::frontend::compile_value::size_message(
                    "E-TEMPLATE-006"@,
                    "template source"@,
                    MAX_TEMPLATE_SOURCE_BYTES as nat,
                ),
            ),
        )
    } else {
        match crate::execute::strings::decoded(bytes) {
            None => Err(message_failure("E-TEMPLATE-003: template is not valid UTF-8"@)),
            Some(text) => match crate::frontend::compile_value::data_in_fields(bindings, 0, Seq::empty()) {
                Err(message) => Err(message_failure(message)),
                Ok(fields) => match template_nodes(crate::execute::strings::replaced(text, "\r\n"@, "\n"@)) {
                    Err(message) => Err(message_failure(message)),
                    Ok(nodes) => rendered(nodes, 0, seq![CompileValueView::Record(fields)], floats, Seq::empty()),
                },
            },
        }
    }
}

fn render_file(bytes: &Vec<u8>, bindings: &Vec<ExprField>, floats: &Vec<FloatText>) -> (result: Result<
    String,
    TemplateFailure,
    >)
    ensures
        text_outcome(result) == template_text(
            bytes@,
            crate::ast::view::expr_fields(bindings@),
            view::float_texts(floats@),
        ),
{
    if bytes.len() > MAX_TEMPLATE_SOURCE_BYTES {
        return Err(
            TemplateFailure::Message(size_error("E-TEMPLATE-006", "template source", MAX_TEMPLATE_SOURCE_BYTES)),
        );
    }
    let source = match decode(bytes.clone()) {
        Some(source) => source,
        None => return Err(TemplateFailure::Message(owned("E-TEMPLATE-003: template is not valid UTF-8"))),
    };
    let fields = match read_bindings(bindings) {
        Ok(fields) => fields,
        Err(message) => return Err(TemplateFailure::Message(message)),
    };
    let text = replace(source.as_str(), "\r\n", "\n");
    let nodes = match parse_template(text.as_str()) {
        Ok(nodes) => nodes,
        Err(message) => return Err(TemplateFailure::Message(message)),
    };
    let root = CompileValue::Record(fields);
    render_template(&nodes, &root, floats)
}

/// The expression that a template stands for, with the fingerprint of its file.
pub fn load_typed_template(
    bytes: &Vec<u8>,
    bindings: &Vec<ExprField>,
    floats: &Vec<FloatText>,
    span: Span,
    origin: &Origin,
) -> (result: Result<(Expr, String), TemplateFailure>)
    ensures
        match result {
            Ok((expr, hash)) => match template_text(
                bytes@,
                crate::ast::view::expr_fields(bindings@),
                view::float_texts(floats@),
            ) {
                Ok(text) => crate::ast::view::expr(expr) == crate::frontend::compile_value::data_expr(
                    CompileValueView::String(text),
                    span,
                    *origin,
                ) && hash@ == crate::frontend::compile_value::fingerprint_of(bytes@),
                Err(_) => false,
            },
            Err(failure) => template_text(
                bytes@,
                crate::ast::view::expr_fields(bindings@),
                view::float_texts(floats@),
            ) == Err::<Seq<char>, TemplateFailureView>(view::template_failure(failure)),
        },
{
    let text = match render_file(bytes, bindings, floats) {
        Ok(value) => value,
        Err(error) => return Err(error),
    };
    let hash = fingerprint(bytes);
    let value = CompileValue::String(text);
    Ok((compile_value_expr(&value, span, origin), hash))
}

// Laws.

/// A template without opening braces renders to itself, if it is not too long.
pub proof fn law_plain_text_renders_to_itself(source: Seq<char>, root: CompileValueView, floats: Seq<FloatTextView>)
    requires
        next_run(source, 0, '{', 2) is None,
        source.len() > 0,
        crate::execute::strings::byte_len(source) <= MAX_TEMPLATE_RENDERED_BYTES,
    ensures
        template_nodes(source) == Ok::<Seq<TemplateNodeView>, Seq<char>>(seq![TemplateNodeView::Text(source)]),
        rendered(seq![TemplateNodeView::Text(source)], 0, seq![root], floats, Seq::empty()) == Ok::<
        Seq<char>,
        TemplateFailureView,
        >(source),
{
    assert(source.skip(0) =~= source);
    assert(
        Seq::<TemplateNodeView>::empty().push(TemplateNodeView::Text(source)) =~= seq![TemplateNodeView::Text(source)]
    );
    assert(vstd::utf8::encode_utf8(Seq::<char>::empty()).len() == 0) by {
        reveal_with_fuel(vstd::utf8::encode_utf8, 2);
    }
    assert(Seq::<char>::empty() + source =~= source);
    let nodes = seq![TemplateNodeView::Text(source)];
    assert(rendered_node(nodes[0], seq![root], floats, Seq::empty()) == Ok::<Seq<char>, TemplateFailureView>(source));
    assert(rendered(nodes, 1, seq![root], floats, source) == Ok::<Seq<char>, TemplateFailureView>(source));
}

/// Rendering never gives more than the limit.
pub proof fn law_output_is_bounded(output: Seq<char>, text: Seq<char>)
    requires
        appended(output, text) is Ok,
    ensures
        crate::execute::strings::byte_len(output) + crate::execute::strings::byte_len(text)
        <= MAX_TEMPLATE_RENDERED_BYTES,
        appended(output, text)->Ok_0 == output + text,
{
}

} // verus!
