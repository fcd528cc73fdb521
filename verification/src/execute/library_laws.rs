//! What the operations of the standard module do.
use vstd::prelude::*;
use crate::execute::failure::PartView;
use crate::execute::{lists, ops_bytes, ops_collections, ops_text, strings, values};
use crate::lowered::view::{TypeView, ValueView};

verus! {

/// What an operation yields, or why it fails.
pub type Yield = Result<ValueView, Seq<PartView>>;

/// A value of a result type that went well.
pub open spec fn went_well(ty: TypeView, value: ValueView) -> ValueView {
    ValueView::Enum { enum_key: values::enum_key(ty), tag: "ok"@, payload: Some(Box::new(value)) }
}

/// Whether a value is the failure of a result type.
pub open spec fn went_wrong(value: ValueView) -> bool {
    value matches ValueView::Enum { tag, .. } && tag == "err"@
}

/// A value that is there.
pub open spec fn present(ty: TypeView, value: ValueView) -> ValueView {
    ValueView::Enum { enum_key: values::enum_key(ty), tag: "some"@, payload: Some(Box::new(value)) }
}

/// A value that is not there.
pub open spec fn absent(ty: TypeView) -> ValueView {
    ValueView::Enum { enum_key: values::enum_key(ty), tag: "none"@, payload: None }
}

// Names.

/// Each operation on texts is called by its name.
pub proof fn law_text_operations_have_their_names(ty: TypeView, args: Seq<ValueView>, limit: usize, cells: Seq<ValueView>)
    ensures
        ops_text::texts("str_scalar_len"@, ty, args, limit, cells) == Some(ops_text::str_scalar_len(args)),
        ops_text::texts("str_byte_len"@, ty, args, limit, cells) == Some(ops_text::str_byte_len(args)),
        ops_text::texts("str_is_empty"@, ty, args, limit, cells) == Some(ops_text::str_is_empty(args)),
        ops_text::texts("str_contains"@, ty, args, limit, cells) == Some(ops_text::str_contains(args)),
        ops_text::texts("str_starts_with"@, ty, args, limit, cells) == Some(ops_text::str_starts_with(args)),
        ops_text::texts("str_ends_with"@, ty, args, limit, cells) == Some(ops_text::str_ends_with(args)),
        ops_text::texts("str_find"@, ty, args, limit, cells) == Some(ops_text::str_find(ty, args)),
        ops_text::texts("str_scalar_at"@, ty, args, limit, cells) == Some(ops_text::str_scalar_at(ty, args)),
        ops_text::texts("str_split"@, ty, args, limit, cells) == Some(ops_text::str_split(ty, args, limit)),
        ops_text::texts("str_trim"@, ty, args, limit, cells) == Some(ops_text::str_trim(ty, args, limit)),
        ops_text::texts("str_replace"@, ty, args, limit, cells) == Some(ops_text::str_replace(ty, args, limit)),
        ops_text::texts("str_join"@, ty, args, limit, cells) == Some(ops_text::str_join(ty, args, limit)),
        ops_text::texts("str_lowercase"@, ty, args, limit, cells) == Some(ops_text::str_lowercase(ty, args, limit)),
        ops_text::texts("str_uppercase"@, ty, args, limit, cells) == Some(ops_text::str_uppercase(ty, args, limit)),
        ops_text::texts("parse_int64"@, ty, args, limit, cells) == Some(ops_text::parse_int64(ty, args)),
        ops_text::texts("parse_uint64"@, ty, args, limit, cells) == Some(ops_text::parse_uint64(ty, args)),
        ops_text::texts("parse_bool"@, ty, args, limit, cells) == Some(ops_text::parse_bool(ty, args)),
        ops_text::texts("format_int64"@, ty, args, limit, cells) == Some(ops_text::format_int64(args)),
        ops_text::texts("format_bool"@, ty, args, limit, cells) == Some(ops_text::format_bool(args)),
{
    reveal_strlit("str_scalar_len");
    reveal_strlit("str_byte_len");
    reveal_strlit("str_is_empty");
    reveal_strlit("str_contains");
    reveal_strlit("str_starts_with");
    reveal_strlit("str_ends_with");
    reveal_strlit("str_find");
    reveal_strlit("str_scalar_at");
    reveal_strlit("str_split");
    reveal_strlit("str_trim");
    reveal_strlit("str_replace");
    reveal_strlit("str_join");
    reveal_strlit("str_lowercase");
    reveal_strlit("str_uppercase");
    reveal_strlit("parse_int64");
    reveal_strlit("parse_uint64");
    reveal_strlit("parse_bool");
    reveal_strlit("format_int64");
    reveal_strlit("format_bool");
    reveal_strlit("format_uint64");
    assert("str_scalar_len"@.len() == 14);
    assert("str_byte_len"@.len() == 12);
    assert("str_is_empty"@.len() == 12);
    assert("str_contains"@.len() == 12);
    assert("str_starts_with"@.len() == 15);
    assert("str_ends_with"@.len() == 13);
    assert("str_find"@.len() == 8);
    assert("str_scalar_at"@.len() == 13);
    assert("str_split"@.len() == 9);
    assert("str_trim"@.len() == 8);
    assert("str_replace"@.len() == 11);
    assert("str_join"@.len() == 8);
    assert("str_lowercase"@.len() == 13);
    assert("str_uppercase"@.len() == 13);
    assert("parse_int64"@.len() == 11);
    assert("parse_uint64"@.len() == 12);
    assert("parse_bool"@.len() == 10);
    assert("format_int64"@.len() == 12);
    assert("format_bool"@.len() == 11);
    assert("format_uint64"@.len() == 13);
    assert("str_byte_len"@[4] == 'b' && "str_is_empty"@[4] == 'i');
    assert("str_byte_len"@[4] == 'b' && "str_contains"@[4] == 'c');
    assert("str_is_empty"@[4] == 'i' && "str_contains"@[4] == 'c');
    assert("str_ends_with"@[4] == 'e' && "str_scalar_at"@[4] == 's');
    assert("str_find"@[4] == 'f' && "str_trim"@[4] == 't');
    assert("str_find"@[4] == 'f' && "str_join"@[4] == 'j');
    assert("str_trim"@[4] == 't' && "str_join"@[4] == 'j');
    assert("str_ends_with"@[4] == 'e' && "str_lowercase"@[4] == 'l');
    assert("str_scalar_at"@[4] == 's' && "str_lowercase"@[4] == 'l');
    assert("str_ends_with"@[4] == 'e' && "str_uppercase"@[4] == 'u');
    assert("str_scalar_at"@[4] == 's' && "str_uppercase"@[4] == 'u');
    assert("str_lowercase"@[4] == 'l' && "str_uppercase"@[4] == 'u');
    assert("str_replace"@[0] == 's' && "parse_int64"@[0] == 'p');
    assert("str_byte_len"@[0] == 's' && "parse_uint64"@[0] == 'p');
    assert("str_is_empty"@[0] == 's' && "parse_uint64"@[0] == 'p');
    assert("str_contains"@[0] == 's' && "parse_uint64"@[0] == 'p');
    assert("str_byte_len"@[0] == 's' && "format_int64"@[0] == 'f');
    assert("str_is_empty"@[0] == 's' && "format_int64"@[0] == 'f');
    assert("str_contains"@[0] == 's' && "format_int64"@[0] == 'f');
    assert("parse_uint64"@[0] == 'p' && "format_int64"@[0] == 'f');
    assert("str_replace"@[0] == 's' && "format_bool"@[0] == 'f');
    assert("parse_int64"@[0] == 'p' && "format_bool"@[0] == 'f');
    assert("str_ends_with"@[0] == 's' && "format_uint64"@[0] == 'f');
    assert("str_scalar_at"@[0] == 's' && "format_uint64"@[0] == 'f');
    assert("str_lowercase"@[0] == 's' && "format_uint64"@[0] == 'f');
    assert("str_uppercase"@[0] == 's' && "format_uint64"@[0] == 'f');
}

/// Each operation on arrays and maps is called by its name.
pub proof fn law_collection_operations_have_their_names(ty: TypeView, args: Seq<ValueView>, limit: usize, cells: Seq<ValueView>)
    ensures
        ops_collections::collections("array_len"@, ty, args, limit, cells) == Some(ops_collections::array_len(args)),
        ops_collections::collections("array_get"@, ty, args, limit, cells) == Some(ops_collections::array_get(ty, args)),
        ops_collections::collections("array_set"@, ty, args, limit, cells) == Some(ops_collections::array_set(ty, args)),
        ops_collections::collections("array_slice"@, ty, args, limit, cells) == Some(ops_collections::array_slice(ty, args)),
        ops_collections::collections("array_append"@, ty, args, limit, cells) == Some(ops_collections::array_append(ty, args, limit)),
        ops_collections::collections("array_insert"@, ty, args, limit, cells) == Some(ops_collections::array_insert(ty, args, limit)),
        ops_collections::collections("array_remove"@, ty, args, limit, cells) == Some(ops_collections::array_remove(ty, args)),
        ops_collections::collections("array_contains"@, ty, args, limit, cells) == Some(ops_collections::array_contains(args, cells)),
        ops_collections::collections("map_len"@, ty, args, limit, cells) == Some(ops_collections::map_len(args)),
        ops_collections::collections("map_get"@, ty, args, limit, cells) == Some(ops_collections::map_get(ty, args)),
        ops_collections::collections("map_insert"@, ty, args, limit, cells) == Some(ops_collections::map_insert(ty, args, limit)),
        ops_collections::collections("map_remove"@, ty, args, limit, cells) == Some(ops_collections::map_remove(ty, args)),
        ops_collections::collections("map_contains_key"@, ty, args, limit, cells) == Some(ops_collections::map_contains_key(args)),
{
    reveal_strlit("array_len");
    reveal_strlit("array_get");
    reveal_strlit("array_set");
    reveal_strlit("array_slice");
    reveal_strlit("array_append");
    reveal_strlit("array_insert");
    reveal_strlit("array_remove");
    reveal_strlit("array_contains");
    reveal_strlit("map_len");
    reveal_strlit("map_get");
    reveal_strlit("map_insert");
    reveal_strlit("map_remove");
    reveal_strlit("map_contains_key");
    assert("array_len"@.len() == 9);
    assert("array_get"@.len() == 9);
    assert("array_set"@.len() == 9);
    assert("array_slice"@.len() == 11);
    assert("array_append"@.len() == 12);
    assert("array_insert"@.len() == 12);
    assert("array_remove"@.len() == 12);
    assert("array_contains"@.len() == 14);
    assert("map_len"@.len() == 7);
    assert("map_get"@.len() == 7);
    assert("map_insert"@.len() == 10);
    assert("map_remove"@.len() == 10);
    assert("map_contains_key"@.len() == 16);
    assert("array_len"@[6] == 'l' && "array_get"@[6] == 'g');
    assert("array_len"@[6] == 'l' && "array_set"@[6] == 's');
    assert("array_get"@[6] == 'g' && "array_set"@[6] == 's');
    assert("array_append"@[6] == 'a' && "array_insert"@[6] == 'i');
    assert("array_append"@[6] == 'a' && "array_remove"@[6] == 'r');
    assert("array_insert"@[6] == 'i' && "array_remove"@[6] == 'r');
    assert("map_len"@[4] == 'l' && "map_get"@[4] == 'g');
    assert("map_insert"@[4] == 'i' && "map_remove"@[4] == 'r');
}

/// Each operation on bytes, paths and durations is called by its name.
pub proof fn law_byte_operations_have_their_names(ty: TypeView, args: Seq<ValueView>, limit: usize, cells: Seq<ValueView>)
    ensures
        ops_bytes::bytes("bytes_len"@, ty, args, limit, cells) == Some(ops_bytes::bytes_len(args)),
        ops_bytes::bytes("bytes_slice"@, ty, args, limit, cells) == Some(ops_bytes::bytes_slice(args)),
        ops_bytes::bytes("bytes_from_str"@, ty, args, limit, cells) == Some(ops_bytes::bytes_from_str(args)),
        ops_bytes::bytes("bytes_get"@, ty, args, limit, cells) == Some(ops_bytes::bytes_get(ty, args)),
        ops_bytes::bytes("bytes_concat"@, ty, args, limit, cells) == Some(ops_bytes::bytes_concat(ty, args, limit)),
        ops_bytes::bytes("bytes_find"@, ty, args, limit, cells) == Some(ops_bytes::bytes_find(ty, args)),
        ops_bytes::bytes("bytes_from_array"@, ty, args, limit, cells) == Some(ops_bytes::bytes_from_array(ty, args, limit)),
        ops_bytes::bytes("bytes_decode_utf8"@, ty, args, limit, cells) == Some(ops_bytes::bytes_decode_utf8(ty, args, limit)),
        ops_bytes::bytes("path_new"@, ty, args, limit, cells) == Some(ops_bytes::path_new(args)),
        ops_bytes::bytes("path_join"@, ty, args, limit, cells) == Some(ops_bytes::path_join(args)),
        ops_bytes::bytes("path_parent"@, ty, args, limit, cells) == Some(ops_bytes::path_parent(ty, args)),
        ops_bytes::bytes("path_extension"@, ty, args, limit, cells) == Some(ops_bytes::path_extension(ty, args)),
        ops_bytes::bytes("path_file_name"@, ty, args, limit, cells) == Some(ops_bytes::path_file_name(ty, args)),
        ops_bytes::bytes("path_components"@, ty, args, limit, cells) == Some(ops_bytes::path_components(ty, args, limit)),
        ops_bytes::bytes("clock_duration_from_millis"@, ty, args, limit, cells) == Some(ops_bytes::clock_duration_from_millis(args)),
        ops_bytes::bytes("clock_duration_add"@, ty, args, limit, cells) == Some(ops_bytes::clock_duration_add(ty, args)),
        ops_bytes::bytes("clock_duration_between"@, ty, args, limit, cells) == Some(ops_bytes::clock_duration_between(ty, args)),
{
    reveal_strlit("bytes_len");
    reveal_strlit("bytes_slice");
    reveal_strlit("bytes_from_str");
    reveal_strlit("bytes_get");
    reveal_strlit("bytes_concat");
    reveal_strlit("bytes_find");
    reveal_strlit("bytes_from_array");
    reveal_strlit("bytes_decode_utf8");
    reveal_strlit("path_new");
    reveal_strlit("path_join");
    reveal_strlit("path_parent");
    reveal_strlit("path_extension");
    reveal_strlit("path_file_name");
    reveal_strlit("path_components");
    reveal_strlit("clock_duration_from_millis");
    reveal_strlit("clock_duration_add");
    reveal_strlit("clock_duration_between");
    assert("bytes_len"@.len() == 9);
    assert("bytes_slice"@.len() == 11);
    assert("bytes_from_str"@.len() == 14);
    assert("bytes_get"@.len() == 9);
    assert("bytes_concat"@.len() == 12);
    assert("bytes_find"@.len() == 10);
    assert("bytes_from_array"@.len() == 16);
    assert("bytes_decode_utf8"@.len() == 17);
    assert("path_new"@.len() == 8);
    assert("path_join"@.len() == 9);
    assert("path_parent"@.len() == 11);
    assert("path_extension"@.len() == 14);
    assert("path_file_name"@.len() == 14);
    assert("path_components"@.len() == 15);
    assert("clock_duration_from_millis"@.len() == 26);
    assert("clock_duration_add"@.len() == 18);
    assert("clock_duration_between"@.len() == 22);
    assert("bytes_len"@[6] == 'l' && "bytes_get"@[6] == 'g');
    assert("bytes_len"@[0] == 'b' && "path_join"@[0] == 'p');
    assert("bytes_get"@[0] == 'b' && "path_join"@[0] == 'p');
    assert("bytes_slice"@[0] == 'b' && "path_parent"@[0] == 'p');
    assert("bytes_from_str"@[0] == 'b' && "path_extension"@[0] == 'p');
    assert("bytes_from_str"@[0] == 'b' && "path_file_name"@[0] == 'p');
    assert("path_extension"@[5] == 'e' && "path_file_name"@[5] == 'f');
}

// Texts.

proof fn lemma_find(text: Seq<char>, needle: Seq<char>, from: int)
    requires
        0 <= from,
    ensures
        strings::find_from(text, needle, from) matches Some(at) ==> from <= at && strings::stands_at(text, needle, at)
            && forall|i: int| from <= i < at ==> !#[trigger] strings::stands_at(text, needle, i),
        strings::find_from(text, needle, from) is None ==> forall|i: int|
            from <= i ==> !#[trigger] strings::stands_at(text, needle, i),
    decreases text.len() - from + 1,
{
    if from + needle.len() <= text.len() && !strings::stands_at(text, needle, from) {
        lemma_find(text, needle, from + 1);
    }
}

/// A text is found in another where it stands, and the first such place is given.
pub proof fn law_texts_are_found_where_they_stand(ty: TypeView, text: Seq<char>, needle: Seq<char>)
    requires
        text.len() <= i64::MAX,
    ensures
        ({
            let args = seq![ValueView::Str(text), ValueView::Str(needle)];
            &&& (ops_text::str_contains(args) == Yield::Ok(ValueView::Bool(true))) == (exists|at: int|
                strings::stands_at(text, needle, at))
            &&& ops_text::str_contains(args) matches Ok(ValueView::Bool(_))
            &&& ops_text::str_find(ty, args) == Yield::Ok(absent(ty)) || exists|at: int|
                ops_text::str_find(ty, args) == Yield::Ok(present(ty, ValueView::Int(at as i64)))
                    && #[trigger] strings::stands_at(text, needle, at) && forall|i: int|
                    0 <= i < at ==> !#[trigger] strings::stands_at(text, needle, i)
            &&& (exists|at: int| strings::stands_at(text, needle, at)) ==> ops_text::str_find(ty, args) != Yield::Ok(
                absent(ty),
            )
        }),
{
    let args = seq![ValueView::Str(text), ValueView::Str(needle)];
    assert(args[0] == ValueView::Str(text) && args[1] == ValueView::Str(needle));
    lemma_find(text, needle, 0);
    reveal_strlit("some");
    reveal_strlit("none");
    assert("some"@[0] == 's' && "none"@[0] == 'n');
    match strings::find_text(text, needle) {
        Some(at) => {
            assert(strings::stands_at(text, needle, at));
            assert(ops_text::str_find(ty, args) == Yield::Ok(present(ty, ValueView::Int(at as i64))));
        }
        None => {
            assert(ops_text::str_find(ty, args) == Yield::Ok(absent(ty)));
        }
    }
}

/// A text starts and ends with what stands at its start and at its end.
pub proof fn law_texts_start_and_end(text: Seq<char>, part: Seq<char>)
    ensures
        ops_text::str_starts_with(seq![ValueView::Str(part + text), ValueView::Str(part)]) == Yield::Ok(
            ValueView::Bool(true),
        ),
        ops_text::str_ends_with(seq![ValueView::Str(text + part), ValueView::Str(part)]) == Yield::Ok(
            ValueView::Bool(true),
        ),
        (ops_text::str_starts_with(seq![ValueView::Str(text), ValueView::Str(part)]) == Yield::Ok(
            ValueView::Bool(true),
        )) == (part.len() <= text.len() && text.take(part.len() as int) == part),
        (ops_text::str_ends_with(seq![ValueView::Str(text), ValueView::Str(part)]) == Yield::Ok(ValueView::Bool(true)))
            == (part.len() <= text.len() && text.skip(text.len() - part.len()) == part),
{
    let first = seq![ValueView::Str(part + text), ValueView::Str(part)];
    let second = seq![ValueView::Str(text + part), ValueView::Str(part)];
    let both = seq![ValueView::Str(text), ValueView::Str(part)];
    assert(first[0] == ValueView::Str(part + text) && first[1] == ValueView::Str(part));
    assert(second[0] == ValueView::Str(text + part) && second[1] == ValueView::Str(part));
    assert(both[0] == ValueView::Str(text) && both[1] == ValueView::Str(part));
    assert((part + text).take(part.len() as int) =~= part);
    assert((part + text).subrange(0, part.len() as int) =~= part);
    assert((text + part).subrange(text.len() as int, (text.len() + part.len()) as int) =~= part);
    if part.len() <= text.len() {
        assert(text.take(part.len() as int) =~= text.subrange(0, part.len() as int));
        assert(text.skip(text.len() - part.len()) =~= text.subrange(text.len() - part.len(), text.len() as int));
    }
}

/// The length of a text is the number of its characters, and a text without any is
/// empty; a character is given by its place.
pub proof fn law_texts_have_characters(ty: TypeView, text: Seq<char>, index: i64)
    requires
        text.len() <= i64::MAX,
        0 <= index <= usize::MAX,
    ensures
        ops_text::str_scalar_len(seq![ValueView::Str(text)]) == Yield::Ok(ValueView::Int(text.len() as i64)),
        ops_text::str_is_empty(seq![ValueView::Str(text)]) == Yield::Ok(ValueView::Bool(text == Seq::<char>::empty())),
        ops_text::str_scalar_at(ty, seq![ValueView::Str(text), ValueView::Int(index)]) == Yield::Ok(
            if index < text.len() {
                present(ty, ValueView::Str(seq![text[index as int]]))
            } else {
                absent(ty)
            },
        ),
{
    let one = seq![ValueView::Str(text)];
    let two = seq![ValueView::Str(text), ValueView::Int(index)];
    assert(one[0] == ValueView::Str(text));
    assert(two[0] == ValueView::Str(text) && two[1] == ValueView::Int(index));
    if text.len() == 0 {
        assert(text =~= Seq::<char>::empty());
    }
}

proof fn lemma_joined_push(pieces: Seq<Seq<char>>, last: Seq<char>, separator: Seq<char>)
    requires
        pieces.len() > 0,
    ensures
        strings::joined(pieces.push(last), separator) == strings::joined(pieces, separator) + separator + last,
{
    let all = pieces.push(last);
    lemma_joined_same(pieces, all, separator, pieces.len() as int);
    assert(all[pieces.len() as int] == last);
}

proof fn lemma_joined_same(left: Seq<Seq<char>>, right: Seq<Seq<char>>, separator: Seq<char>, count: int)
    requires
        0 <= count <= left.len(),
        count <= right.len(),
        forall|i: int| 0 <= i < count ==> left[i] == right[i],
    ensures
        strings::joined_to(left, separator, count) == strings::joined_to(right, separator, count),
    decreases count,
{
    if count > 1 {
        lemma_joined_same(left, right, separator, count - 1);
    }
}

proof fn lemma_pieces(text: Seq<char>, separator: Seq<char>, from: int, done: Seq<Seq<char>>)
    requires
        0 <= from <= text.len(),
        separator.len() > 0,
        done.len() == 0 ==> from == 0,
        done.len() > 0 ==> strings::joined(done, separator) + separator == text.take(from),
    ensures
        strings::joined(strings::pieces_from(text, separator, from, done), separator) == text,
    decreases text.len() - from,
{
    lemma_find(text, separator, from);
    match strings::find_from(text, separator, from) {
        Some(at) => {
            let piece = text.subrange(from, at);
            let more = done.push(piece);
            assert(text.subrange(at, at + separator.len()) == separator);
            if done.len() > 0 {
                lemma_joined_push(done, piece, separator);
                assert(strings::joined(more, separator) =~= text.take(at));
            } else {
                assert(more[0] == piece);
                assert(piece =~= text.take(at));
            }
            assert(strings::joined(more, separator) == text.take(at));
            assert(text.take(at) + separator =~= text.take((at + separator.len()) as int));
            lemma_pieces(text, separator, (at + separator.len()) as int, more);
        }
        None => {
            let piece = text.subrange(from, text.len() as int);
            let more = done.push(piece);
            if done.len() > 0 {
                lemma_joined_push(done, piece, separator);
                assert(text.take(from) + piece =~= text);
            } else {
                assert(more[0] == piece);
                assert(piece =~= text);
            }
        }
    }
}

/// Joining what a text is split into gives the text back: nothing is lost at a
/// separator. So a text with each occurrence replaced by itself is the text.
pub proof fn law_joining_undoes_splitting(text: Seq<char>, separator: Seq<char>)
    requires
        separator.len() > 0,
    ensures
        strings::joined(strings::pieces(text, separator), separator) == text,
        strings::replaced(text, separator, separator) == text,
{
    lemma_pieces(text, separator, 0, Seq::empty());
}

/// The operations split, join and replace by the pieces between the separators, within
/// the limit.
pub proof fn law_splitting_and_joining(
    ty: TypeView,
    text: Seq<char>,
    separator: Seq<char>,
    with: Seq<char>,
    parts: Seq<Seq<char>>,
    limit: usize,
)
    requires
        separator.len() > 0,
    ensures
        ops_text::str_split(ty, seq![ValueView::Str(text), ValueView::Str(separator)], limit) matches Ok(value) && (
        went_wrong(value) || (value == went_well(ty, values::text_array(strings::pieces(text, separator))))),
        ops_text::str_replace(ty, seq![ValueView::Str(text), ValueView::Str(separator), ValueView::Str(with)], limit)
            matches Ok(value) && (went_wrong(value) || (value == went_well(
            ty,
            ValueView::Str(strings::joined(strings::pieces(text, separator), with)),
        ))),
        strings::byte_len(strings::joined(strings::pieces(text, separator), with)) <= limit ==> ops_text::str_replace(
            ty,
            seq![ValueView::Str(text), ValueView::Str(separator), ValueView::Str(with)],
            limit,
        ) == Yield::Ok(went_well(ty, ValueView::Str(strings::joined(strings::pieces(text, separator), with)))),
        strings::byte_len(strings::joined(parts, with)) <= limit ==> ops_text::str_join(
            ty,
            seq![values::text_array(parts), ValueView::Str(with)],
            limit,
        ) == Yield::Ok(went_well(ty, ValueView::Str(strings::joined(parts, with)))),
{
    let two = seq![ValueView::Str(text), ValueView::Str(separator)];
    let three = seq![ValueView::Str(text), ValueView::Str(separator), ValueView::Str(with)];
    let join = seq![values::text_array(parts), ValueView::Str(with)];
    assert(two[0] == ValueView::Str(text) && two[1] == ValueView::Str(separator));
    assert(three[0] == ValueView::Str(text) && three[1] == ValueView::Str(separator) && three[2] == ValueView::Str(with));
    assert(join[0] == values::text_array(parts) && join[1] == ValueView::Str(with));
    let items = values::text_array(parts)->Array_0;
    assert(parts.take(0) =~= Seq::<Seq<char>>::empty());
    lemma_item_texts(parts, items, 0, Seq::empty());
}

proof fn lemma_item_texts(parts: Seq<Seq<char>>, items: Seq<ValueView>, from: int, done: Seq<Seq<char>>)
    requires
        0 <= from <= parts.len() == items.len(),
        done == parts.take(from),
        forall|i: int| 0 <= i < parts.len() ==> #[trigger] items[i] == ValueView::Str(parts[i]),
    ensures
        lists::texts_from(items, from, done) == Ok::<Seq<Seq<char>>, Seq<PartView>>(parts),
    decreases parts.len() - from,
{
    if from < parts.len() {
        assert(items[from] == ValueView::Str(parts[from]));
        assert(done.push(parts[from]) =~= parts.take(from + 1));
        lemma_item_texts(parts, items, from + 1, done.push(parts[from]));
    } else {
        assert(done =~= parts);
    }
}

proof fn lemma_past_space(text: Seq<char>, from: int)
    requires
        0 <= from <= text.len(),
    ensures
        from <= strings::past_space(text, from) <= text.len(),
        forall|i: int| from <= i < strings::past_space(text, from) ==> strings::white_space(#[trigger] text[i]),
        strings::past_space(text, from) < text.len() ==> !strings::white_space(text[strings::past_space(text, from)]),
    decreases text.len() - from,
{
    if from < text.len() && strings::white_space(text[from]) {
        lemma_past_space(text, from + 1);
    }
}

proof fn lemma_before_space(text: Seq<char>, from: int, to: int)
    requires
        0 <= from <= to <= text.len(),
    ensures
        from <= strings::before_space(text, from, to) <= to,
        forall|i: int| strings::before_space(text, from, to) <= i < to ==> strings::white_space(#[trigger] text[i]),
        strings::before_space(text, from, to) > from ==> !strings::white_space(
            text[strings::before_space(text, from, to) - 1],
        ),
    decreases to - from,
{
    if to > from && strings::white_space(text[to - 1]) {
        lemma_before_space(text, from, to - 1);
    }
}

/// Trimming takes white space off both ends and nothing else: what is left neither
/// starts nor ends with any, and what was taken is nothing but.
pub proof fn law_trimming_takes_white_space_off_the_ends(text: Seq<char>)
    ensures
        ({
            let rest = strings::trimmed(text);
            &&& rest.len() > 0 ==> !strings::white_space(rest[0]) && !strings::white_space(rest.last())
            &&& exists|start: int, end: int|
                0 <= start <= end <= text.len() && rest == #[trigger] text.subrange(start, end) && (forall|i: int|
                    0 <= i < start ==> strings::white_space(#[trigger] text[i])) && (forall|i: int|
                    end <= i < text.len() ==> strings::white_space(#[trigger] text[i]))
        }),
{
    lemma_past_space(text, 0);
    let start = strings::past_space(text, 0);
    lemma_before_space(text, start, text.len() as int);
    let end = strings::before_space(text, start, text.len() as int);
    assert(strings::trimmed(text) == text.subrange(start, end));
}

/// The operation that trims gives the trimmed text, within the limit.
pub proof fn law_trimming(ty: TypeView, text: Seq<char>, limit: usize)
    ensures
        strings::byte_len(strings::trimmed(text)) <= limit ==> ops_text::str_trim(ty, seq![ValueView::Str(text)], limit)
            == Yield::Ok(went_well(ty, ValueView::Str(strings::trimmed(text)))),
{
    let one = seq![ValueView::Str(text)];
    assert(one[0] == ValueView::Str(text));
}

proof fn lemma_cased(first: Seq<char>, second: Seq<char>, lower: bool, count: int)
    requires
        0 <= count <= second.len(),
    ensures
        strings::cased(first + second, lower, first.len() + count) == strings::cased(first, lower, first.len() as int)
            + strings::cased(second, lower, count),
    decreases count,
{
    let all = first + second;
    if count > 0 {
        lemma_cased(first, second, lower, count - 1);
        assert(all[first.len() + count - 1] == second[count - 1]);
        assert(strings::cased(all, lower, first.len() + count) =~= strings::cased(first, lower, first.len() as int)
            + strings::cased(second, lower, count));
    } else {
        lemma_cased_same(all, first, lower, first.len() as int);
        assert(strings::cased(first, lower, first.len() as int) + strings::cased(second, lower, 0) =~= strings::cased(
            first,
            lower,
            first.len() as int,
        ));
    }
}

proof fn lemma_cased_same(left: Seq<char>, right: Seq<char>, lower: bool, count: int)
    requires
        0 <= count <= left.len(),
        count <= right.len(),
        forall|i: int| 0 <= i < count ==> left[i] == right[i],
    ensures
        strings::cased(left, lower, count) == strings::cased(right, lower, count),
    decreases count,
{
    if count > 0 {
        lemma_cased_same(left, right, lower, count - 1);
    }
}

/// The case of a text is changed character by character, in order: small letters by
/// the one operation, capital letters by the other.
pub proof fn law_case_is_changed_by_character(ty: TypeView, text: Seq<char>, character: char, limit: usize)
    ensures
        strings::cased(text.push(character), true, text.len() as int + 1) == strings::cased(text, true, text.len() as int)
            + strings::lowercase(character),
        strings::cased(text.push(character), false, text.len() as int + 1) == strings::cased(text, false, text.len() as int)
            + strings::uppercase(character),
        strings::byte_len(strings::cased(text, true, text.len() as int)) <= limit ==> ops_text::str_lowercase(
            ty,
            seq![ValueView::Str(text)],
            limit,
        ) == Yield::Ok(went_well(ty, ValueView::Str(strings::cased(text, true, text.len() as int)))),
        strings::byte_len(strings::cased(text, false, text.len() as int)) <= limit ==> ops_text::str_uppercase(
            ty,
            seq![ValueView::Str(text)],
            limit,
        ) == Yield::Ok(went_well(ty, ValueView::Str(strings::cased(text, false, text.len() as int)))),
{
    let one = seq![ValueView::Str(text)];
    assert(one[0] == ValueView::Str(text));
    let last = seq![character];
    assert(text + last =~= text.push(character));
    lemma_cased(text, last, true, 1);
    lemma_cased(text, last, false, 1);
    assert(strings::cased(last, true, 0) =~= Seq::<char>::empty());
    assert(strings::cased(last, false, 0) =~= Seq::<char>::empty());
    assert(strings::cased(last, true, 1) =~= strings::lowercase(character));
    assert(strings::cased(last, false, 1) =~= strings::uppercase(character));
}

// Numerals.

proof fn lemma_digit(value: int)
    requires
        0 <= value < 10,
    ensures
        strings::digit_value(crate::text::digit(value)) == Some(value),
        crate::text::digit(value) != '-' && crate::text::digit(value) != '+',
{
}

proof fn lemma_numeral(text: Seq<char>, start: int, value: nat, limit: int, negative: bool)
    requires
        0 <= start,
        start + crate::text::decimal(value).len() <= text.len(),
        text.subrange(start, start + crate::text::decimal(value).len()) == crate::text::decimal(value),
        value <= limit,
    ensures
        strings::digits_from(text, start, 0, limit, negative) == strings::digits_from(
            text,
            start + crate::text::decimal(value).len(),
            value as int,
            limit,
            negative,
        ),
        crate::text::decimal(value).len() > 0,
        strings::digit_value(crate::text::decimal(value)[0]) is Some,
    decreases value,
{
    let numeral = crate::text::decimal(value);
    if value < 10 {
        lemma_digit(value as int);
        assert(numeral.len() == 1 && numeral[0] == crate::text::digit(value as int));
        assert(text[start] == text.subrange(start, start + 1)[0]);
    } else {
        let front = crate::text::decimal(value / 10);
        assert(front =~= numeral.drop_last());
        assert(text.subrange(start, start + front.len()) =~= front) by {
            assert forall|i: int| 0 <= i < front.len() implies text.subrange(start, start + front.len())[i] == front[i] by {
                assert(text.subrange(start, start + numeral.len())[i] == numeral[i]);
            }
        }
        lemma_numeral(text, start, value / 10, limit, negative);
        lemma_digit((value % 10) as int);
        assert(text[start + front.len()] == text.subrange(start, start + numeral.len())[front.len() as int]);
        assert((value / 10) * 10 + value % 10 == value);
        assert(numeral[0] == front[0]);
    }
}

/// A number that is written and read again is the number.
pub proof fn law_reading_undoes_writing(ty: TypeView, number: i64)
    ensures
        ops_text::format_int64(seq![ValueView::Int(number)]) matches Ok(ValueView::Str(text)) && ops_text::parse_int64(
            ty,
            seq![ValueView::Str(text)],
        ) == Yield::Ok(went_well(ty, ValueView::Int(number))),
{
    let args = seq![ValueView::Int(number)];
    assert(args[0] == ValueView::Int(number));
    let text = crate::text::signed_decimal(number as int);
    let again = seq![ValueView::Str(text)];
    assert(again[0] == ValueView::Str(text));
    if number < 0 {
        let value = (-number) as nat;
        let numeral = crate::text::decimal(value);
        assert(text.subrange(1, 1 + numeral.len() as int) =~= numeral);
        lemma_numeral(text, 1, value, 0x8000_0000_0000_0000, true);
        assert(text.len() == 1 + numeral.len());
        assert(text[0] == '-');
        assert(strings::digits_from(text, text.len() as int, value as int, 0x8000_0000_0000_0000, true)
            == strings::ParsedInt::Value(number));
    } else {
        let value = number as nat;
        let numeral = crate::text::decimal(value);
        assert(text.subrange(0, numeral.len() as int) =~= numeral);
        lemma_numeral(text, 0, value, 0x7fff_ffff_ffff_ffff, false);
        assert(text[0] == numeral[0]);
        assert(strings::digits_from(text, text.len() as int, value as int, 0x7fff_ffff_ffff_ffff, false)
            == strings::ParsedInt::Value(number));
    }
}

/// A truth value that is written and read again is the truth value; other texts are
/// none.
pub proof fn law_reading_truth_values(ty: TypeView, flag: bool, text: Seq<char>)
    ensures
        ops_text::format_bool(seq![ValueView::Bool(flag)]) matches Ok(ValueView::Str(word)) && ops_text::parse_bool(
            ty,
            seq![ValueView::Str(word)],
        ) == Yield::Ok(went_well(ty, ValueView::Bool(flag))),
        text != "true"@ && text != "false"@ ==> (ops_text::parse_bool(ty, seq![ValueView::Str(text)]) matches Ok(value)
            && went_wrong(value)),
        ops_text::format_bool(seq![ValueView::Bool(true)]) == Yield::Ok(ValueView::Str("true"@)),
{
    let args = seq![ValueView::Bool(flag)];
    assert(args[0] == ValueView::Bool(flag));
    assert(seq![ValueView::Bool(true)][0] == ValueView::Bool(true));
    assert(seq![ValueView::Str("true"@)][0] == ValueView::Str("true"@));
    assert(seq![ValueView::Str("false"@)][0] == ValueView::Str("false"@));
    assert(seq![ValueView::Str(text)][0] == ValueView::Str(text));
    reveal_strlit("true");
    reveal_strlit("false");
    assert("true"@.len() == 4 && "false"@.len() == 5);
}

// Arrays.

/// The items of an array are read by their place; what is beyond the end is absent.
pub proof fn law_items_are_read_by_place(ty: TypeView, items: Seq<ValueView>, index: i64, cells: Seq<ValueView>)
    requires
        0 <= index <= usize::MAX,
        items.len() <= i64::MAX,
    ensures
        ops_collections::array_len(seq![ValueView::Array(items)]) == Yield::Ok(ValueView::Int(items.len() as i64)),
        ops_collections::array_get(ty, seq![ValueView::Array(items), ValueView::Int(index)]) == Yield::Ok(
            if index < items.len() {
                present(ty, items[index as int])
            } else {
                absent(ty)
            },
        ),
{
    let one = seq![ValueView::Array(items)];
    let two = seq![ValueView::Array(items), ValueView::Int(index)];
    assert(one[0] == ValueView::Array(items));
    assert(two[0] == ValueView::Array(items) && two[1] == ValueView::Int(index));
}

/// Setting an item changes it alone; appending and inserting keep the others in their
/// order; removing gives the item and the others. Places beyond the end are refused.
pub proof fn law_arrays_change_in_one_place(ty: TypeView, items: Seq<ValueView>, index: i64, value: ValueView, limit: usize)
    requires
        0 <= index <= usize::MAX,
        items.len() < limit,
    ensures
        ({
            let three = seq![ValueView::Array(items), ValueView::Int(index), value];
            let two = seq![ValueView::Array(items), ValueView::Int(index)];
            &&& index < items.len() ==> (ops_collections::array_set(ty, three) matches Ok(done) && exists|after: Seq<ValueView>|
                done == #[trigger] went_well(ty, ValueView::Array(after)) && after.len() == items.len()
                    && after[index as int] == value && forall|i: int|
                    0 <= i < items.len() && i != index ==> after[i] == items[i])
            &&& index >= items.len() ==> (ops_collections::array_set(ty, three) matches Ok(done) && went_wrong(done))
            &&& ops_collections::array_append(ty, seq![ValueView::Array(items), value], limit) == Yield::Ok(
                went_well(ty, ValueView::Array(items + seq![value])),
            )
            &&& index <= items.len() ==> ops_collections::array_insert(ty, three, limit) == Yield::Ok(
                went_well(
                    ty,
                    ValueView::Array(items.take(index as int) + seq![value] + items.skip(index as int)),
                ),
            )
            &&& index > items.len() ==> (ops_collections::array_insert(ty, three, limit) matches Ok(done) && went_wrong(
                done,
            ))
            &&& index < items.len() ==> (ops_collections::array_remove(ty, two) matches Ok(done) && exists|rest: ValueView|
                done == went_well(ty, rest) && lists::field_value((#[trigger] rest->Record_0), "removed"@) == Some(
                    items[index as int],
                ) && rest is Record && lists::field_value(rest->Record_0, "values"@) == Some(
                    ValueView::Array(items.take(index as int) + items.skip(index + 1)),
                ))
        }),
{
    let three = seq![ValueView::Array(items), ValueView::Int(index), value];
    let two = seq![ValueView::Array(items), ValueView::Int(index)];
    let append = seq![ValueView::Array(items), value];
    assert(three[0] == ValueView::Array(items) && three[1] == ValueView::Int(index) && three[2] == value);
    assert(two[0] == ValueView::Array(items) && two[1] == ValueView::Int(index));
    assert(append[0] == ValueView::Array(items) && append[1] == value);
    assert(items + seq![value] =~= items.push(value));
    if index <= items.len() {
        assert(items.take(index as int) + seq![value] + items.skip(index as int) =~= items.insert(index as int, value));
    }
    if index < items.len() {
        let after = items.update(index as int, value);
        assert(ops_collections::array_set(ty, three) == Yield::Ok(went_well(ty, ValueView::Array(after))));
        assert(items.take(index as int) + items.skip(index + 1) =~= items.remove(index as int));
        let rest = ValueView::Record(
            seq![
                values::field("removed"@, items[index as int]),
                values::field("values"@, ValueView::Array(items.remove(index as int))),
            ],
        );
        assert(ops_collections::array_remove(ty, two) == Yield::Ok(went_well(ty, rest)));
        reveal_strlit("removed");
        reveal_strlit("values");
        assert("removed"@.len() == 7 && "values"@.len() == 6);
        reveal_with_fuel(lists::field_place, 3);
        assert(rest->Record_0[0].name == "removed"@ && rest->Record_0[1].name == "values"@);
        assert(lists::field_value(rest->Record_0, "removed"@) == Some(items[index as int]));
    }
}

/// A slice is the items between two places.
pub proof fn law_slices_are_what_stands_between(ty: TypeView, items: Seq<ValueView>, start: i64, end: i64)
    requires
        0 <= start <= usize::MAX,
        0 <= end <= usize::MAX,
    ensures
        start <= end <= items.len() ==> ops_collections::array_slice(
            ty,
            seq![ValueView::Array(items), ValueView::Int(start), ValueView::Int(end)],
        ) == Yield::Ok(went_well(ty, ValueView::Array(items.take(end as int).skip(start as int)))),
        !(start <= end <= items.len()) ==> (ops_collections::array_slice(
            ty,
            seq![ValueView::Array(items), ValueView::Int(start), ValueView::Int(end)],
        ) matches Ok(value) && went_wrong(value)),
{
    let three = seq![ValueView::Array(items), ValueView::Int(start), ValueView::Int(end)];
    assert(three[0] == ValueView::Array(items) && three[1] == ValueView::Int(start) && three[2] == ValueView::Int(end));
    if start <= end <= items.len() {
        assert(items.take(end as int).skip(start as int) =~= items.subrange(start as int, end as int));
    }
}

/// An array contains a number, a text or a truth value where one of its items is it.
pub proof fn law_arrays_contain_their_items(items: Seq<ValueView>, wanted: ValueView, cells: Seq<ValueView>)
    requires
        wanted is Int || wanted is Str || wanted is Bool,
    ensures
        ops_collections::array_contains(seq![ValueView::Array(items), wanted], cells) == Yield::Ok(
            ValueView::Bool(items.contains(wanted)),
        ),
{
    let two = seq![ValueView::Array(items), wanted];
    assert(two[0] == ValueView::Array(items) && two[1] == wanted);
    assert forall|i: int| 0 <= i < items.len() implies values::matches_value(#[trigger] items[i], wanted, cells) == (
    items[i] == wanted) by {}
    if items.contains(wanted) {
        let i = choose|i: int| 0 <= i < items.len() && items[i] == wanted;
        assert(values::matches_value(items[i], wanted, cells));
    }
    if lists::has_value(items, wanted, cells) {
        let i = choose|i: int| 0 <= i < items.len() && values::matches_value(#[trigger] items[i], wanted, cells);
        assert(items[i] == wanted);
    }
}

// Maps.

/// Whether a key stands in a list of pairs.
pub open spec fn stands_in(pairs: Seq<(ValueView, ValueView)>, key: Seq<char>) -> bool {
    exists|i: int| 0 <= i < pairs.len() && values::as_text((#[trigger] pairs[i]).0) == Ok::<Seq<char>, Seq<PartView>>(key)
}

proof fn lemma_key_place(pairs: Seq<(ValueView, ValueView)>, from: int, key: Seq<char>)
    requires
        0 <= from <= pairs.len(),
    ensures
        ({
            let place = lists::key_place(pairs, from, key);
            &&& from <= place <= pairs.len()
            &&& place < pairs.len() ==> values::as_text(pairs[place].0) == Ok::<Seq<char>, Seq<PartView>>(key)
            &&& forall|i: int|
                from <= i < place ==> values::as_text((#[trigger] pairs[i]).0) != Ok::<Seq<char>, Seq<PartView>>(key)
        }),
    decreases pairs.len() - from,
{
    if from < pairs.len() && values::as_text(pairs[from].0) != Ok::<Seq<char>, Seq<PartView>>(key) {
        lemma_key_place(pairs, from + 1, key);
    }
}

proof fn lemma_place_is(pairs: Seq<(ValueView, ValueView)>, from: int, place: int, key: Seq<char>)
    requires
        0 <= from <= place <= pairs.len(),
        place < pairs.len() ==> values::as_text(pairs[place].0) == Ok::<Seq<char>, Seq<PartView>>(key),
        forall|i: int|
            from <= i < place ==> values::as_text((#[trigger] pairs[i]).0) != Ok::<Seq<char>, Seq<PartView>>(key),
    ensures
        lists::key_place(pairs, from, key) == place,
    decreases place - from,
{
    if from < place {
        lemma_place_is(pairs, from + 1, place, key);
    }
}

/// What is put into a map under a key is read under it, and every other key reads as
/// before.
pub proof fn law_maps_hold_what_is_put_in(
    pairs: Seq<(ValueView, ValueView)>,
    key: Seq<char>,
    value: ValueView,
    other: Seq<char>,
)
    ensures
        lists::key_value(lists::with_key(pairs, key, value), key) == Some(value),
        other != key ==> lists::key_value(lists::with_key(pairs, key, value), other) == lists::key_value(pairs, other),
        lists::has_key(pairs, key) == stands_in(pairs, key),
        lists::with_key(pairs, key, value).len() == pairs.len() + (if stands_in(pairs, key) { 0int } else { 1int }),
{
    let after = lists::with_key(pairs, key, value);
    lemma_key_place(pairs, 0, key);
    lemma_key_place(pairs, 0, other);
    let place = lists::key_place(pairs, 0, key);
    let second = lists::key_place(pairs, 0, other);
    if place < pairs.len() {
        assert(values::as_text(pairs[place].0) == Ok::<Seq<char>, Seq<PartView>>(key));
    }
    assert forall|i: int| 0 <= i < place implies values::as_text((#[trigger] after[i]).0) != Ok::<
        Seq<char>,
        Seq<PartView>,
    >(key) by {
        assert(after[i] == pairs[i]);
    }
    lemma_place_is(after, 0, place, key);
    if other != key {
        if second < pairs.len() {
            assert forall|i: int| 0 <= i < second implies values::as_text((#[trigger] after[i]).0) != Ok::<
                Seq<char>,
                Seq<PartView>,
            >(other) by {
                assert(after[i].0 == pairs[i].0);
            }
            assert(after[second].0 == pairs[second].0);
            lemma_place_is(after, 0, second, other);
            assert(second != place);
        } else {
            assert forall|i: int| 0 <= i < after.len() implies values::as_text((#[trigger] after[i]).0) != Ok::<
                Seq<char>,
                Seq<PartView>,
            >(other) by {
                if i < pairs.len() {
                    assert(after[i].0 == pairs[i].0);
                }
            }
            lemma_place_is(after, 0, after.len() as int, other);
        }
    }
}

/// The operations on maps read, put in and take out by key.
pub proof fn law_map_operations_go_by_key(
    ty: TypeView,
    pairs: Seq<(ValueView, ValueView)>,
    key: Seq<char>,
    value: ValueView,
    limit: usize,
)
    requires
        pairs.len() < limit,
        limit <= i64::MAX,
    ensures
        ({
            let two = seq![ValueView::Mapping(pairs), ValueView::Str(key)];
            let three = seq![ValueView::Mapping(pairs), ValueView::Str(key), value];
            &&& ops_collections::map_len(seq![ValueView::Mapping(pairs)]) == Yield::Ok(ValueView::Int(pairs.len() as i64))
            &&& ops_collections::map_contains_key(two) == Yield::Ok(ValueView::Bool(stands_in(pairs, key)))
            &&& ops_collections::map_get(ty, two) == Yield::Ok(
                match lists::key_value(pairs, key) {
                    Some(held) => present(ty, held),
                    None => absent(ty),
                },
            )
            &&& ops_collections::map_insert(ty, three, limit) == Yield::Ok(
                went_well(ty, ValueView::Mapping(lists::with_key(pairs, key, value))),
            )
            &&& !stands_in(pairs, key) ==> ops_collections::map_remove(ty, two) == Yield::Ok(absent(ty))
            &&& stands_in(pairs, key) ==> exists|place: int|
                0 <= place < pairs.len() && values::as_text((#[trigger] pairs[place]).0) == Ok::<
                    Seq<char>,
                    Seq<PartView>,
                >(key) && ops_collections::map_remove(ty, two) == Yield::Ok(
                    present(ty, ValueView::Mapping(pairs.take(place) + pairs.skip(place + 1))),
                )
        }),
{
    let one = seq![ValueView::Mapping(pairs)];
    let two = seq![ValueView::Mapping(pairs), ValueView::Str(key)];
    let three = seq![ValueView::Mapping(pairs), ValueView::Str(key), value];
    assert(one[0] == ValueView::Mapping(pairs));
    assert(two[0] == ValueView::Mapping(pairs) && two[1] == ValueView::Str(key));
    assert(three[0] == ValueView::Mapping(pairs) && three[1] == ValueView::Str(key) && three[2] == value);
    law_maps_hold_what_is_put_in(pairs, key, value, key);
    lemma_key_place(pairs, 0, key);
    let place = lists::key_place(pairs, 0, key);
    if place < pairs.len() {
        assert(values::as_text(pairs[place].0) == Ok::<Seq<char>, Seq<PartView>>(key));
        assert(pairs.take(place) + pairs.skip(place + 1) =~= pairs.remove(place));
    }
}

// Bytes and durations.

/// Bytes are read, cut and put together like the items of an array.
pub proof fn law_bytes_are_items(
    ty: TypeView,
    left: Seq<u8>,
    right: Seq<u8>,
    start: i64,
    end: i64,
    limit: usize,
)
    requires
        0 <= start <= usize::MAX,
        0 <= end <= usize::MAX,
        left.len() + right.len() <= limit,
        limit <= i64::MAX,
    ensures
        ({
            let first = values::byte_array(left);
            let second = values::byte_array(right);
            &&& ops_bytes::bytes_len(seq![first]) == Yield::Ok(ValueView::Int(left.len() as i64))
            &&& ops_bytes::bytes_concat(ty, seq![first, second], limit) == Yield::Ok(
                went_well(ty, values::byte_array(left + right)),
            )
            &&& start <= end <= left.len() ==> ops_bytes::bytes_slice(
                seq![first, ValueView::Int(start), ValueView::Int(end)],
            ) == Yield::Ok(values::byte_array(left.subrange(start as int, end as int)))
            &&& !(start <= end <= left.len()) ==> ops_bytes::bytes_slice(
                seq![first, ValueView::Int(start), ValueView::Int(end)],
            ) is Err
            &&& ops_bytes::bytes_get(ty, seq![first, ValueView::Int(start)]) == Yield::Ok(
                if start < left.len() {
                    present(ty, ValueView::Int(left[start as int] as i64))
                } else {
                    absent(ty)
                },
            )
        }),
{
    let first = values::byte_array(left);
    let second = values::byte_array(right);
    let items = first->Array_0;
    let others = second->Array_0;
    let one = seq![first];
    let two = seq![first, second];
    let place = seq![first, ValueView::Int(start)];
    let three = seq![first, ValueView::Int(start), ValueView::Int(end)];
    assert(one[0] == first);
    assert(two[0] == first && two[1] == second);
    assert(place[0] == first && place[1] == ValueView::Int(start));
    assert(three[0] == first && three[1] == ValueView::Int(start) && three[2] == ValueView::Int(end));
    assert(items + others =~= values::byte_array(left + right)->Array_0);
    if start <= end <= left.len() {
        assert(items.subrange(start as int, end as int) =~= values::byte_array(
            left.subrange(start as int, end as int),
        )->Array_0);
    }
    if start < left.len() {
        assert(items[start as int] == ValueView::Int(left[start as int] as i64));
    }
}

/// Durations add up, and the one between two moments is the later less the earlier; a
/// negative one is refused.
pub proof fn law_durations_add_up(ty: TypeView, first: i64, second: i64)
    ensures
        ({
            let two = seq![ValueView::Int(first), ValueView::Int(second)];
            &&& 0 <= first + second <= i64::MAX ==> ops_bytes::clock_duration_add(ty, two) == Yield::Ok(
                went_well(ty, ValueView::Int((first + second) as i64)),
            )
            &&& !(0 <= first + second <= i64::MAX) ==> (ops_bytes::clock_duration_add(ty, two) matches Ok(value)
                && went_wrong(value))
            &&& 0 <= second - first <= i64::MAX ==> ops_bytes::clock_duration_between(ty, two) == Yield::Ok(
                went_well(ty, ValueView::Int((second - first) as i64)),
            )
            &&& second < first ==> (ops_bytes::clock_duration_between(ty, two) matches Ok(value) && went_wrong(value))
        }),
{
    let two = seq![ValueView::Int(first), ValueView::Int(second)];
    assert(two[0] == ValueView::Int(first) && two[1] == ValueView::Int(second));
}

} // verus!
