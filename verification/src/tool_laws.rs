//! What the tools around the compiler promise.
use vstd::prelude::*;
use crate::annotations;
use crate::ast::view::TopLevelView;
use crate::code_doc;
use crate::diagnostics;
use crate::docs;
use crate::expand_json;
use crate::frontend::compile_value;
use crate::frontend::model::EmbedFormat;
use crate::yaml::view::{YamlEntryView, YamlValueView};

verus! {

// Pointers.

/// A step of a pointer as it is written: the two letters with a meaning of their own are
/// escaped.
pub open spec fn escaped(step: Seq<char>) -> Seq<char>
    decreases step.len(),
{
    if step.len() == 0 {
        Seq::empty()
    } else {
        escaped(step.drop_last()) + (if step.last() == '~' {
            seq!['~', '0']
        } else if step.last() == '/' {
            seq!['~', '1']
        } else {
            seq![step.last()]
        })
    }
}

proof fn lemma_unescaped(step: Seq<char>, rest: Seq<char>)
    ensures
        code_doc::unescaped_from(escaped(step) + rest, 0, Seq::empty()) == code_doc::unescaped_from(
            escaped(step) + rest,
            escaped(step).len() as int,
            step,
        ),
    decreases step.len(),
{
    if step.len() > 0 {
        let front = step.drop_last();
        let last = step.last();
        let written = if last == '~' {
            seq!['~', '0']
        } else if last == '/' {
            seq!['~', '1']
        } else {
            seq![last]
        };
        let whole = escaped(step) + rest;
        assert(escaped(front) + (written + rest) =~= whole);
        lemma_unescaped(front, written + rest);
        let at = escaped(front).len() as int;
        assert(whole[at] == written[0]);
        if written.len() == 2 {
            assert(whole[at + 1] == written[1]);
        }
        assert(front.push(last) =~= step);
    } else {
        assert(step =~= Seq::empty());
    }
}

/// Every text can be a step of a pointer: written with its escapes, it is read back.
pub proof fn law_pointer_steps_are_read_back(step: Seq<char>)
    ensures
        code_doc::unescaped(escaped(step)) == Ok::<Seq<char>, Seq<char>>(step),
{
    lemma_unescaped(step, Seq::empty());
    assert(escaped(step) + Seq::<char>::empty() =~= escaped(step));
}

/// The empty pointer is the whole document; every other one starts with a slash.
pub proof fn law_pointers_start_at_the_root(pointer: Seq<char>)
    ensures
        pointer.len() == 0 ==> code_doc::pointed(pointer) == Ok::<Seq<Seq<char>>, Seq<char>>(Seq::empty()),
        pointer.len() > 0 && pointer[0] != '/' ==> code_doc::pointed(pointer) is Err,
{
    reveal_strlit("/");
    if pointer.len() > 0 && pointer[0] != '/' {
        assert(pointer.take(1)[0] == pointer[0]);
    }
}

// Addresses.

/// What a hexadecimal digit stands for.
pub open spec fn hex_value(digit: char) -> int {
    if '0' <= digit && digit <= '9' {
        digit as int - '0' as int
    } else {
        digit as int - 'A' as int + 10
    }
}

/// A byte of an address stands for itself, or is written as a percent sign and the two
/// digits of its value.
pub proof fn law_bytes_of_addresses_can_be_read_back(byte: u8)
    ensures
        ({
            let written = diagnostics::encoded_byte(byte);
            ||| written.len() == 1 && written[0] as int == byte && written[0] != '%'
            ||| written.len() == 3 && written[0] == '%' && 16 * hex_value(written[1]) + hex_value(written[2]) == byte
        }),
        byte == 0x20 || byte == 0x25 || byte == 0x3f || byte == 0x23 || byte >= 0x80 ==> diagnostics::encoded_byte(
            byte,
        ).len() == 3,
        0x61 <= byte <= 0x7a || byte == 0x2f ==> diagnostics::encoded_byte(byte).len() == 1,
{
    assert(0 <= byte as int / 16 < 16 && 0 <= byte as int % 16 < 16);
    assert(16 * (byte as int / 16) + byte as int % 16 == byte as int);
}

/// An address is written byte by byte, in order.
pub proof fn law_addresses_are_written_byte_by_byte(bytes: Seq<u8>, last: u8)
    ensures
        diagnostics::encoded_bytes(bytes.push(last), bytes.len() as int + 1) == diagnostics::encoded_bytes(
            bytes,
            bytes.len() as int,
        ) + diagnostics::encoded_byte(last),
        diagnostics::encoded_bytes(Seq::empty(), 0) == Seq::<char>::empty(),
{
    lemma_same_bytes(bytes, bytes.push(last), bytes.len() as int);
}

proof fn lemma_same_bytes(left: Seq<u8>, right: Seq<u8>, count: int)
    requires
        0 <= count <= left.len(),
        count <= right.len(),
        forall|i: int| 0 <= i < count ==> left[i] == right[i],
    ensures
        diagnostics::encoded_bytes(left, count) == diagnostics::encoded_bytes(right, count),
    decreases count,
{
    if count > 0 {
        lemma_same_bytes(left, right, count - 1);
    }
}

// Listings.

/// A form is listed under its own name, as what it is.
pub proof fn law_forms_are_listed_as_what_they_are(form: TopLevelView)
    ensures
        form matches TopLevelView::Function(function) ==> expand_json::described(form) == (
            function.name.value,
            "function"@,
        ),
        form matches TopLevelView::Import(import) ==> expand_json::described(form) == (import.alias.value, "import"@),
        form matches TopLevelView::Definition(definition) ==> expand_json::described(form) == (
            definition.name.value,
            "definition"@,
        ),
        form matches TopLevelView::Constant(constant) ==> expand_json::described(form) == (
            constant.name.value,
            "constant"@,
        ),
        form matches TopLevelView::Macro(definition) ==> expand_json::described(form) == (
            definition.name.value,
            "macro"@,
        ),
        form matches TopLevelView::Test(test) ==> expand_json::described(form) == (test.name.value, "test"@),
{
}

proof fn lemma_entry(entries: Seq<(Seq<char>, Seq<char>)>, from: int, entry: (Seq<char>, Seq<char>))
    requires
        0 <= from <= entries.len(),
    ensures
        expand_json::with_entry(entries, from, entry).contains(entry),
        forall|other: (Seq<char>, Seq<char>)|
            entries.contains(other) && other.0 != entry.0 ==> #[trigger] expand_json::with_entry(
                entries,
                from,
                entry,
            ).contains(other),
    decreases entries.len() - from,
{
    let after = expand_json::with_entry(entries, from, entry);
    if from < entries.len() && entries[from].0 != entry.0 && crate::text::precedes(entries[from].0, entry.0) {
        lemma_entry(entries, from + 1, entry);
    } else if from < entries.len() {
        assert(after[from] == entry);
        assert forall|other: (Seq<char>, Seq<char>)| entries.contains(other) && other.0 != entry.0 implies
            #[trigger] after.contains(other) by {
            let i = choose|i: int| 0 <= i < entries.len() && entries[i] == other;
            if entries[from].0 == entry.0 {
                assert(after[i] == other);
            } else {
                assert(after[if i < from { i } else { i + 1 }] == other);
            }
        }
    } else {
        assert(after[entries.len() as int] == entry);
        assert forall|other: (Seq<char>, Seq<char>)| entries.contains(other) implies #[trigger] after.contains(other) by {
            let i = choose|i: int| 0 <= i < entries.len() && entries[i] == other;
            assert(after[i] == other);
        }
    }
}

/// Every form of a module is listed, where the names differ.
pub proof fn law_every_form_is_listed(forms: Seq<TopLevelView>, from: int, done: Seq<(Seq<char>, Seq<char>)>, index: int)
    requires
        0 <= from <= forms.len(),
        0 <= index < forms.len(),
        forall|i: int, j: int|
            0 <= i < j < forms.len() ==> expand_json::described(#[trigger] forms[i]).0 != expand_json::described(
                #[trigger] forms[j],
            ).0,
        index < from ==> done.contains(expand_json::described(forms[index])),
    ensures
        expand_json::entries_of(forms, from, done).contains(expand_json::described(forms[index])),
    decreases forms.len() - from,
{
    if from < forms.len() {
        let entry = expand_json::described(forms[from]);
        lemma_entry(done, 0, entry);
        if index < from {
            assert(expand_json::described(forms[index]).0 != entry.0);
        }
        law_every_form_is_listed(forms, from + 1, expand_json::with_entry(done, 0, entry), index);
    }
}

/// A target is chosen by its name; without one the only target is, and none where there
/// are several.
pub proof fn law_targets_are_chosen_by_name(names: Seq<Seq<char>>, index: int)
    requires
        0 <= index < names.len(),
        forall|i: int| 0 <= i < index ==> #[trigger] names[i] != names[index],
    ensures
        docs::chosen(names, Some(names[index])) == Ok::<int, Seq<char>>(index),
        names.len() == 1 ==> docs::chosen(names, None) == Ok::<int, Seq<char>>(0),
        names.len() > 1 ==> docs::chosen(names, None) is Err,
{
    lemma_target(names, 0, index);
}

proof fn lemma_target(names: Seq<Seq<char>>, from: int, index: int)
    requires
        0 <= from <= index < names.len(),
        forall|i: int| 0 <= i < index ==> #[trigger] names[i] != names[index],
    ensures
        docs::place_of(names, from, names[index]) == Some(index),
    decreases index - from,
{
    if from < index {
        lemma_target(names, from + 1, index);
    }
}

// Annotations.

proof fn lemma_key_place(entries: Seq<YamlEntryView>, from: int, key: Seq<char>)
    requires
        0 <= from <= entries.len(),
    ensures
        crate::yaml::read::key_place(entries, from, key) matches Some(place) ==> from <= place < entries.len()
            && entries[place].key == YamlValueView::Text(key),
    decreases entries.len() - from,
{
    if from < entries.len() && entries[from].key != YamlValueView::Text(key) {
        lemma_key_place(entries, from + 1, key);
    }
}

proof fn lemma_swap_removed(entries: Seq<YamlEntryView>, key: Seq<char>, entry: YamlEntryView)
    requires
        entries.contains(entry),
        entry.key != YamlValueView::Text(key),
    ensures
        annotations::swap_removed(entries, key).contains(entry),
{
    lemma_key_place(entries, 0, key);
    match crate::yaml::read::key_place(entries, 0, key) {
        None => {}
        Some(place) => {
            let after = annotations::swap_removed(entries, key);
            let i = choose|i: int| 0 <= i < entries.len() && entries[i] == entry;
            assert(i != place);
            if i == entries.len() - 1 {
                assert(after[place] == entry);
            } else {
                assert(after[i] == entry);
            }
        }
    }
}

/// Stripping takes annotations out and nothing else: every other entry stays, with its
/// value stripped, and what is neither a mapping nor a sequence stays as it is.
pub proof fn law_stripping_keeps_the_rest(entries: Seq<YamlEntryView>, index: int)
    requires
        0 <= index < entries.len(),
        !annotations::is_annotation(entries[index].key),
    ensures
        annotations::stripped(YamlValueView::Mapping(entries)) matches YamlValueView::Mapping(kept) && kept.contains(
            YamlEntryView { key: entries[index].key, value: annotations::stripped(entries[index].value) },
        ),
        annotations::stripped(YamlValueView::Null) == YamlValueView::Null,
{
    let all = annotations::stripped_entries(entries);
    let entry = YamlEntryView { key: entries[index].key, value: annotations::stripped(entries[index].value) };
    assert(all[index] == entry);
    assert(entry.key != YamlValueView::Text(annotations::COMMENT_ANNOTATION@)) by {
        if entry.key == YamlValueView::Text(annotations::COMMENT_ANNOTATION@) {
            assert(annotations::is_annotation(entry.key));
        }
    }
    assert(entry.key != YamlValueView::Text(annotations::LINT_ANNOTATION@)) by {
        if entry.key == YamlValueView::Text(annotations::LINT_ANNOTATION@) {
            assert(annotations::is_annotation(entry.key));
        }
    }
    lemma_swap_removed(all, annotations::COMMENT_ANNOTATION@, entry);
    lemma_swap_removed(
        annotations::swap_removed(all, annotations::COMMENT_ANNOTATION@),
        annotations::LINT_ANNOTATION@,
        entry,
    );
    assert(annotations::kept_entries(entries, entries.len() as int) == annotations::without_annotations(all));
    assert(annotations::stripped(YamlValueView::Mapping(entries)) == YamlValueView::Mapping(
        annotations::kept_entries(entries, entries.len() as int),
    ));
}

/// Stripping a sequence strips each of its items in its place.
pub proof fn law_stripping_goes_into_sequences(items: Seq<YamlValueView>, index: int)
    requires
        0 <= index < items.len(),
    ensures
        annotations::stripped(YamlValueView::Sequence(items)) matches YamlValueView::Sequence(kept) && kept.len()
            == items.len() && kept[index] == annotations::stripped(items[index]),
{
}

/// Annotations that describe nothing are refused, wherever they stand; a mapping without
/// any is refused only for one of its values.
pub proof fn law_annotations_describe_something(entries: Seq<YamlEntryView>)
    requires
        entries.len() > 0,
    ensures
        (forall|i: int| 0 <= i < entries.len() ==> annotations::is_annotation((#[trigger] entries[i]).key))
            ==> annotations::annotation_error(YamlValueView::Mapping(entries)) is Some,
{
    if forall|i: int| 0 <= i < entries.len() ==> annotations::is_annotation((#[trigger] entries[i]).key) {
        assert(annotations::is_annotation(entries[0].key));
        assert(annotations::some_annotation(entries));
    }
}

/// The codes of a lint annotation pass where all of them are texts that can be
/// suppressed.
pub proof fn law_lint_codes_are_known(codes: Seq<YamlValueView>, from: int)
    requires
        0 <= from <= codes.len(),
    ensures
        (annotations::codes_error(codes, from) is None) == (forall|i: int|
            from <= i < codes.len() ==> (crate::yaml::read::text_of(#[trigger] codes[i]) matches Some(code)
                && annotations::is_suppressible(code))),
    decreases codes.len() - from,
{
    if from < codes.len() {
        law_lint_codes_are_known(codes, from + 1);
        if annotations::codes_error(codes, from) is None {
            assert(crate::yaml::read::text_of(codes[from]) is Some);
        }
    }
}

// Embedded files.

/// The format of an embedded file is the one that is asked for; where none is, its
/// extension tells, whatever its case.
pub proof fn law_formats_are_asked_for_or_told_by_the_extension(requested: EmbedFormat, path: Seq<char>)
    ensures
        requested != EmbedFormat::Auto ==> compile_value::inferred_format(requested, path) == Ok::<
            EmbedFormat,
            Seq<char>,
        >(requested),
        compile_value::format_named("json"@) == Some(EmbedFormat::Json),
        compile_value::format_named("toml"@) == Some(EmbedFormat::Toml),
        compile_value::format_named("xml"@) == Some(EmbedFormat::Xml),
        compile_value::format_named("txt"@) == Some(EmbedFormat::Text),
        compile_value::format_named("bin"@) == Some(EmbedFormat::Binary),
        requested == EmbedFormat::Auto ==> (compile_value::inferred_format(requested, path) matches Ok(format)
            ==> format != EmbedFormat::Auto),
{
    reveal_strlit("json");
    reveal_strlit("toml");
    reveal_strlit("text");
    reveal_strlit("txt");
    reveal_strlit("binary");
    reveal_strlit("bin");
    reveal_strlit("xml");
    assert("json"@.len() == 4 && "toml"@.len() == 4 && "text"@.len() == 4 && "txt"@.len() == 3 && "bin"@.len() == 3
        && "xml"@.len() == 3 && "binary"@.len() == 6);
    assert("json"@[0] == 'j' && "toml"@[0] == 't' && "text"@[0] == 't' && "toml"@[1] == 'o' && "text"@[1] == 'e');
    assert("txt"@[0] == 't' && "bin"@[0] == 'b' && "xml"@[0] == 'x');
}

} // verus!
