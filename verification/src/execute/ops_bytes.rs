//! Byte, path and duration operations.
use vstd::prelude::*;
use crate::execute::failure::{Failure, PartView};
use crate::lowered::ir::{RuntimeValue, TypeRef};
use crate::lowered::view::{self, TypeView, ValueView};

use crate::execute::lists::{
    check_bytes, concatenated, count, get_byte, has_longer, optional_count, optional_text, search_bytes, slice,
    missing_argument, value_array, value_index,
};
use crate::execute::path_text::{extension, file_name, join_path, parent_path, component_texts};
use crate::execute::strings::decode;
use crate::execute::values::{
    bytes_option, item_bytes, ok_or_error, option_value, result_err, result_ok, runtime_bytes, runtime_texts,
    value_byte_items, value_i64, value_str,
};
use crate::text::{owned, same_text};

verus! {

/// The parent of a path, when it is not empty.
pub open spec fn parent_shown(path: Seq<char>) -> Option<Seq<char>> {
    match crate::execute::path_text::parent_text(path) {
        Some(parent) => if parent.len() == 0 {
            None
        } else {
            Some(parent)
        },
        None => None,
    }
}

fn shown_parent(path: &str) -> (result: Option<String>)
    ensures
        crate::execute::paths::view_option(result) == parent_shown(path@),
{
    match parent_path(path) {
        Some(parent) => {
            if parent.as_str().is_empty() {
                None
            } else {
                Some(parent)
            }
        }
        None => None,
    }
}

/// A duration in milliseconds, when it is neither negative nor too long.
pub open spec fn duration(millis: int) -> Option<ValueView> {
    if 0 <= millis <= i64::MAX {
        Some(ValueView::Int(millis as i64))
    } else {
        None
    }
}

fn optional_duration(millis: Option<i64>) -> (result: Option<RuntimeValue>)
    ensures
        crate::execute::values::payload_view(result) == (match millis {
                Some(millis) => duration(millis as int),
                None => None,
        }),
{
    match millis {
        Some(millis) => {
            if millis >= 0 {
                Some(RuntimeValue::Int(millis))
            } else {
                None
            }
        }
        None => None,
    }
}

fn duration_sum(left: i64, right: i64) -> (result: Option<RuntimeValue>)
    ensures
        crate::execute::values::payload_view(result) == duration(left + right),
{
    optional_duration(left.checked_add(right))
}

fn duration_difference(later: i64, earlier: i64) -> (result: Option<RuntimeValue>)
    ensures
        crate::execute::values::payload_view(result) == duration(later - earlier),
{
    optional_duration(later.checked_sub(earlier))
}

pub open spec fn bytes_len(args: Seq<ValueView>) -> Result<ValueView, Seq<PartView>> {
    match crate::execute::lists::given(args, 0, crate::execute::values::as_items(args[0])) {
        Err(failure) => Err(failure),
        Ok(items) => {
            Ok(crate::execute::lists::count_value(items.len() as nat))
        },
    }
}

fn run_bytes_len(args: &Vec<RuntimeValue>) -> (result: Result<RuntimeValue, Failure>)
    ensures
        crate::execute::lists::outcome(result) == bytes_len(view::values(args@)),
{
    assert(view::values(args@).len() == args@.len());
    if args.len() == 0 {
        return Err(missing_argument());
    }
    let items = match value_byte_items(&args[0]) {
        Ok(value) => value,
        Err(failure) => return Err(failure),
    };
    assert(view::values(items@).len() == items@.len());
    Ok(count(items.len()))
}

pub open spec fn bytes_slice(args: Seq<ValueView>) -> Result<ValueView, Seq<PartView>> {
    match crate::execute::lists::given(args, 0, crate::execute::values::as_items(args[0])) {
        Err(failure) => Err(failure),
        Ok(items) => {
            match crate::execute::lists::given(
                args,
                1,
                crate::execute::lists::as_index(args[1], "slice start < 0"@),
            ) {
                Err(failure) => Err(failure),
                Ok(start) => {
                    match crate::execute::lists::given(
                        args,
                        2,
                        crate::execute::lists::as_index(args[2], "slice end < 0"@),
                    ) {
                        Err(failure) => Err(failure),
                        Ok(end) => {
                            if start > end || end > items.len() {
                                Err(crate::execute::failure::text_failure("byte slice range is out of bounds"@))
                            } else {
                                Ok(ValueView::Array(items.subrange(start as int, end as int)))
                            }
                        },
                    }
                },
            }
        },
    }
}

fn run_bytes_slice(args: &Vec<RuntimeValue>) -> (result: Result<RuntimeValue, Failure>)
    ensures
        crate::execute::lists::outcome(result) == bytes_slice(view::values(args@)),
{
    assert(view::values(args@).len() == args@.len());
    if args.len() == 0 {
        return Err(missing_argument());
    }
    let items = match value_byte_items(&args[0]) {
        Ok(value) => value,
        Err(failure) => return Err(failure),
    };
    if args.len() <= 1 {
        return Err(missing_argument());
    }
    let start = match value_index(&args[1], "slice start < 0") {
        Ok(value) => value,
        Err(failure) => return Err(failure),
    };
    if args.len() <= 2 {
        return Err(missing_argument());
    }
    let end = match value_index(&args[2], "slice end < 0") {
        Ok(value) => value,
        Err(failure) => return Err(failure),
    };
    assert(view::values(items@).len() == items@.len());
    if start > end || end > items.len() {
        return Err(Failure::text("byte slice range is out of bounds"));
    }
    Ok(RuntimeValue::Array(slice(items, start, end)))
}

pub open spec fn bytes_from_str(args: Seq<ValueView>) -> Result<ValueView, Seq<PartView>> {
    match crate::execute::lists::given(args, 0, crate::execute::values::as_text(args[0])) {
        Err(failure) => Err(failure),
        Ok(text) => {
            Ok(crate::execute::values::byte_array(vstd::utf8::encode_utf8(text)))
        },
    }
}

fn run_bytes_from_str(args: &Vec<RuntimeValue>) -> (result: Result<RuntimeValue, Failure>)
    ensures
        crate::execute::lists::outcome(result) == bytes_from_str(view::values(args@)),
{
    assert(view::values(args@).len() == args@.len());
    if args.len() == 0 {
        return Err(missing_argument());
    }
    let text = match value_str(&args[0]) {
        Ok(value) => value,
        Err(failure) => return Err(failure),
    };
    Ok(runtime_bytes(&text.as_bytes_vec()))
}

pub open spec fn bytes_get(ty: TypeView, args: Seq<ValueView>) -> Result<ValueView, Seq<PartView>> {
    match crate::execute::lists::given(args, 1, crate::execute::lists::as_index(args[1], "byte index too large"@)) {
        Err(failure) => Err(failure),
        Ok(index) => {
            match crate::execute::lists::given(args, 0, crate::execute::values::as_items(args[0])) {
                Err(failure) => Err(failure),
                Ok(items) => {
                    match crate::execute::lists::byte_at(items, index) {
                        Err(failure) => Err(failure),
                        Ok(byte) => {
                            Ok(crate::execute::values::option_of(ty, byte))
                        },
                    }
                },
            }
        },
    }
}

fn run_bytes_get(ty: &TypeRef, args: &Vec<RuntimeValue>) -> (result: Result<RuntimeValue, Failure>)
    ensures
        crate::execute::lists::outcome(result) == bytes_get(view::type_ref(*ty), view::values(args@)),
{
    assert(view::values(args@).len() == args@.len());
    if args.len() <= 1 {
        return Err(missing_argument());
    }
    let index = match value_index(&args[1], "byte index too large") {
        Ok(value) => value,
        Err(failure) => return Err(failure),
    };
    let items = match value_byte_items(&args[0]) {
        Ok(value) => value,
        Err(failure) => return Err(failure),
    };
    let byte = match get_byte(items, index) {
        Ok(value) => value,
        Err(failure) => return Err(failure),
    };
    Ok(option_value(ty, byte))
}

pub open spec fn bytes_concat(ty: TypeView, args: Seq<ValueView>, limit: usize) -> Result<ValueView, Seq<PartView>> {
    match crate::execute::lists::given(args, 0, crate::execute::values::as_items(args[0])) {
        Err(failure) => Err(failure),
        Ok(left) => {
            match crate::execute::lists::given(args, 1, crate::execute::values::as_items(args[1])) {
                Err(failure) => Err(failure),
                Ok(right) => {
                    if left.len() + right.len() > limit {
                        Ok(crate::execute::values::err_value(ty, "limit-exceeded"@))
                    } else {
                        Ok(crate::execute::values::ok_value(ty, ValueView::Array(left + right)))
                    }
                },
            }
        },
    }
}

fn run_bytes_concat(ty: &TypeRef, args: &Vec<RuntimeValue>, limit: usize) -> (result: Result<RuntimeValue, Failure>)
    ensures
        crate::execute::lists::outcome(result) == bytes_concat(view::type_ref(*ty), view::values(args@), limit),
{
    assert(view::values(args@).len() == args@.len());
    if args.len() == 0 {
        return Err(missing_argument());
    }
    let left = match value_byte_items(&args[0]) {
        Ok(value) => value,
        Err(failure) => return Err(failure),
    };
    if args.len() <= 1 {
        return Err(missing_argument());
    }
    let right = match value_byte_items(&args[1]) {
        Ok(value) => value,
        Err(failure) => return Err(failure),
    };
    assert(view::values(left@).len() == left@.len() && view::values(right@).len() == right@.len());
    if left.len() > limit || right.len() > limit - left.len() {
        return Ok(result_err(ty, "limit-exceeded"));
    }
    Ok(result_ok(ty, RuntimeValue::Array(concatenated(left, right))))
}

pub open spec fn bytes_find(ty: TypeView, args: Seq<ValueView>) -> Result<ValueView, Seq<PartView>> {
    match crate::execute::lists::given(args, 0, crate::execute::values::as_items(args[0])) {
        Err(failure) => Err(failure),
        Ok(items) => {
            match crate::execute::lists::given(args, 1, crate::execute::values::as_items(args[1])) {
                Err(failure) => Err(failure),
                Ok(needle) => {
                    Ok(
                        crate::execute::values::option_of(
                            ty,
                            crate::execute::lists::count_option(crate::execute::lists::find_bytes(items, needle)),
                        ),
                    )
                },
            }
        },
    }
}

fn run_bytes_find(ty: &TypeRef, args: &Vec<RuntimeValue>) -> (result: Result<RuntimeValue, Failure>)
    ensures
        crate::execute::lists::outcome(result) == bytes_find(view::type_ref(*ty), view::values(args@)),
{
    assert(view::values(args@).len() == args@.len());
    if args.len() == 0 {
        return Err(missing_argument());
    }
    let items = match value_byte_items(&args[0]) {
        Ok(value) => value,
        Err(failure) => return Err(failure),
    };
    if args.len() <= 1 {
        return Err(missing_argument());
    }
    let needle = match value_byte_items(&args[1]) {
        Ok(value) => value,
        Err(failure) => return Err(failure),
    };
    Ok(option_value(ty, optional_count(search_bytes(items, needle))))
}

pub open spec fn bytes_from_array(ty: TypeView, args: Seq<ValueView>, limit: usize) -> Result<ValueView, Seq<PartView>> {
    match crate::execute::lists::given(
        args,
        0,
        crate::execute::lists::as_array(args[0], "bytes_from_array expects an array"@),
    ) {
        Err(failure) => Err(failure),
        Ok(values) => {
            if values.len() > limit {
                Ok(crate::execute::values::err_value(ty, "limit-exceeded"@))
            } else {
                match crate::execute::lists::checked_bytes(values) {
                    Err(failure) => Err(failure),
                    Ok(bytes) => {
                        Ok(
                            crate::execute::values::or_error(
                                ty,
                                crate::execute::values::optional_bytes(bytes),
                                "invalid-byte"@,
                            ),
                        )
                    },
                }
            }
        },
    }
}

fn run_bytes_from_array(
    ty: &TypeRef,
    args: &Vec<RuntimeValue>,
    limit: usize,
) -> (result: Result<RuntimeValue, Failure>)
    ensures
        crate::execute::lists::outcome(result) == bytes_from_array(view::type_ref(*ty), view::values(args@), limit),
{
    assert(view::values(args@).len() == args@.len());
    if args.len() == 0 {
        return Err(missing_argument());
    }
    let values = match value_array(&args[0], "bytes_from_array expects an array") {
        Ok(value) => value,
        Err(failure) => return Err(failure),
    };
    assert(view::values(values@).len() == values@.len());
    if values.len() > limit {
        return Ok(result_err(ty, "limit-exceeded"));
    }
    let bytes = match check_bytes(values) {
        Ok(value) => value,
        Err(failure) => return Err(failure),
    };
    Ok(ok_or_error(ty, bytes_option(bytes), "invalid-byte"))
}

pub open spec fn bytes_decode_utf8(ty: TypeView, args: Seq<ValueView>, limit: usize) -> Result<ValueView, Seq<PartView>> {
    match crate::execute::lists::given(args, 0, crate::execute::values::as_items(args[0])) {
        Err(failure) => Err(failure),
        Ok(items) => {
            if items.len() > limit {
                Ok(crate::execute::values::err_value(ty, "limit-exceeded"@))
            } else {
                match crate::execute::values::bytes_from(items, 0, Seq::empty()) {
                    Err(failure) => Err(failure),
                    Ok(bytes) => {
                        Ok(
                            crate::execute::values::or_error(
                                ty,
                                crate::execute::lists::text_option(crate::execute::strings::decoded(bytes)),
                                "invalid-utf8"@,
                            ),
                        )
                    },
                }
            }
        },
    }
}

fn run_bytes_decode_utf8(
    ty: &TypeRef,
    args: &Vec<RuntimeValue>,
    limit: usize,
) -> (result: Result<RuntimeValue, Failure>)
    ensures
        crate::execute::lists::outcome(result) == bytes_decode_utf8(view::type_ref(*ty), view::values(args@), limit),
{
    assert(view::values(args@).len() == args@.len());
    if args.len() == 0 {
        return Err(missing_argument());
    }
    let items = match value_byte_items(&args[0]) {
        Ok(value) => value,
        Err(failure) => return Err(failure),
    };
    assert(view::values(items@).len() == items@.len());
    if items.len() > limit {
        return Ok(result_err(ty, "limit-exceeded"));
    }
    let bytes = match item_bytes(items) {
        Ok(value) => value,
        Err(failure) => return Err(failure),
    };
    Ok(ok_or_error(ty, optional_text(decode(bytes)), "invalid-utf8"))
}

pub open spec fn path_new(args: Seq<ValueView>) -> Result<ValueView, Seq<PartView>> {
    match crate::execute::lists::given(args, 0, crate::execute::values::as_text(args[0])) {
        Err(failure) => Err(failure),
        Ok(path) => {
            Ok(ValueView::Str(path))
        },
    }
}

fn run_path_new(args: &Vec<RuntimeValue>) -> (result: Result<RuntimeValue, Failure>)
    ensures
        crate::execute::lists::outcome(result) == path_new(view::values(args@)),
{
    assert(view::values(args@).len() == args@.len());
    if args.len() == 0 {
        return Err(missing_argument());
    }
    let path = match value_str(&args[0]) {
        Ok(value) => value,
        Err(failure) => return Err(failure),
    };
    Ok(RuntimeValue::Str(owned(path)))
}

pub open spec fn path_join(args: Seq<ValueView>) -> Result<ValueView, Seq<PartView>> {
    match crate::execute::lists::given(args, 0, crate::execute::values::as_text(args[0])) {
        Err(failure) => Err(failure),
        Ok(base) => {
            match crate::execute::lists::given(args, 1, crate::execute::values::as_text(args[1])) {
                Err(failure) => Err(failure),
                Ok(segment) => {
                    Ok(ValueView::Str(crate::execute::path_text::joined_path(base, segment)))
                },
            }
        },
    }
}

fn run_path_join(args: &Vec<RuntimeValue>) -> (result: Result<RuntimeValue, Failure>)
    ensures
        crate::execute::lists::outcome(result) == path_join(view::values(args@)),
{
    assert(view::values(args@).len() == args@.len());
    if args.len() == 0 {
        return Err(missing_argument());
    }
    let base = match value_str(&args[0]) {
        Ok(value) => value,
        Err(failure) => return Err(failure),
    };
    if args.len() <= 1 {
        return Err(missing_argument());
    }
    let segment = match value_str(&args[1]) {
        Ok(value) => value,
        Err(failure) => return Err(failure),
    };
    Ok(RuntimeValue::Str(join_path(base, segment)))
}

pub open spec fn path_parent(ty: TypeView, args: Seq<ValueView>) -> Result<ValueView, Seq<PartView>> {
    match crate::execute::lists::given(args, 0, crate::execute::values::as_text(args[0])) {
        Err(failure) => Err(failure),
        Ok(path) => {
            Ok(crate::execute::values::option_of(ty, crate::execute::lists::text_option(parent_shown(path))))
        },
    }
}

fn run_path_parent(ty: &TypeRef, args: &Vec<RuntimeValue>) -> (result: Result<RuntimeValue, Failure>)
    ensures
        crate::execute::lists::outcome(result) == path_parent(view::type_ref(*ty), view::values(args@)),
{
    assert(view::values(args@).len() == args@.len());
    if args.len() == 0 {
        return Err(missing_argument());
    }
    let path = match value_str(&args[0]) {
        Ok(value) => value,
        Err(failure) => return Err(failure),
    };
    Ok(option_value(ty, optional_text(shown_parent(path))))
}

pub open spec fn path_extension(ty: TypeView, args: Seq<ValueView>) -> Result<ValueView, Seq<PartView>> {
    match crate::execute::lists::given(args, 0, crate::execute::values::as_text(args[0])) {
        Err(failure) => Err(failure),
        Ok(path) => {
            Ok(
                crate::execute::values::option_of(
                    ty,
                    crate::execute::lists::text_option(crate::execute::path_text::extension_text(path)),
                ),
            )
        },
    }
}

fn run_path_extension(ty: &TypeRef, args: &Vec<RuntimeValue>) -> (result: Result<RuntimeValue, Failure>)
    ensures
        crate::execute::lists::outcome(result) == path_extension(view::type_ref(*ty), view::values(args@)),
{
    assert(view::values(args@).len() == args@.len());
    if args.len() == 0 {
        return Err(missing_argument());
    }
    let path = match value_str(&args[0]) {
        Ok(value) => value,
        Err(failure) => return Err(failure),
    };
    Ok(option_value(ty, optional_text(extension(path))))
}

pub open spec fn path_file_name(ty: TypeView, args: Seq<ValueView>) -> Result<ValueView, Seq<PartView>> {
    match crate::execute::lists::given(args, 0, crate::execute::values::as_text(args[0])) {
        Err(failure) => Err(failure),
        Ok(path) => {
            Ok(
                crate::execute::values::option_of(
                    ty,
                    crate::execute::lists::text_option(crate::execute::path_text::file_name_text(path)),
                ),
            )
        },
    }
}

fn run_path_file_name(ty: &TypeRef, args: &Vec<RuntimeValue>) -> (result: Result<RuntimeValue, Failure>)
    ensures
        crate::execute::lists::outcome(result) == path_file_name(view::type_ref(*ty), view::values(args@)),
{
    assert(view::values(args@).len() == args@.len());
    if args.len() == 0 {
        return Err(missing_argument());
    }
    let path = match value_str(&args[0]) {
        Ok(value) => value,
        Err(failure) => return Err(failure),
    };
    Ok(option_value(ty, optional_text(file_name(path))))
}

pub open spec fn path_components(ty: TypeView, args: Seq<ValueView>, limit: usize) -> Result<ValueView, Seq<PartView>> {
    match crate::execute::lists::given(args, 0, crate::execute::values::as_text(args[0])) {
        Err(failure) => Err(failure),
        Ok(path) => {
            let parts = crate::execute::path_text::piece_texts(path);
            if crate::execute::lists::some_longer(parts, limit) || parts.len() > limit {
                Ok(crate::execute::values::err_value(ty, "limit-exceeded"@))
            } else {
                Ok(crate::execute::values::ok_value(ty, crate::execute::values::text_array(parts)))
            }
        },
    }
}

fn run_path_components(
    ty: &TypeRef,
    args: &Vec<RuntimeValue>,
    limit: usize,
) -> (result: Result<RuntimeValue, Failure>)
    ensures
        crate::execute::lists::outcome(result) == path_components(view::type_ref(*ty), view::values(args@), limit),
{
    assert(view::values(args@).len() == args@.len());
    if args.len() == 0 {
        return Err(missing_argument());
    }
    let path = match value_str(&args[0]) {
        Ok(value) => value,
        Err(failure) => return Err(failure),
    };
    let parts = component_texts(path);
    assert(view::texts(parts@).len() == parts@.len());
    if has_longer(&parts, limit) || parts.len() > limit {
        return Ok(result_err(ty, "limit-exceeded"));
    }
    Ok(result_ok(ty, runtime_texts(&parts)))
}

pub open spec fn clock_duration_from_millis(args: Seq<ValueView>) -> Result<ValueView, Seq<PartView>> {
    match crate::execute::lists::given(args, 0, crate::execute::values::as_int(args[0])) {
        Err(failure) => Err(failure),
        Ok(millis) => {
            Ok(ValueView::Int(millis))
        },
    }
}

fn run_clock_duration_from_millis(args: &Vec<RuntimeValue>) -> (result: Result<RuntimeValue, Failure>)
    ensures
        crate::execute::lists::outcome(result) == clock_duration_from_millis(view::values(args@)),
{
    assert(view::values(args@).len() == args@.len());
    if args.len() == 0 {
        return Err(missing_argument());
    }
    let millis = match value_i64(&args[0]) {
        Ok(value) => value,
        Err(failure) => return Err(failure),
    };
    Ok(RuntimeValue::Int(millis))
}

pub open spec fn clock_duration_add(ty: TypeView, args: Seq<ValueView>) -> Result<ValueView, Seq<PartView>> {
    match crate::execute::lists::given(args, 0, crate::execute::values::as_int(args[0])) {
        Err(failure) => Err(failure),
        Ok(left) => {
            match crate::execute::lists::given(args, 1, crate::execute::values::as_int(args[1])) {
                Err(failure) => Err(failure),
                Ok(right) => {
                    Ok(crate::execute::values::or_error(ty, duration(left + right), "overflow"@))
                },
            }
        },
    }
}

fn run_clock_duration_add(ty: &TypeRef, args: &Vec<RuntimeValue>) -> (result: Result<RuntimeValue, Failure>)
    ensures
        crate::execute::lists::outcome(result) == clock_duration_add(view::type_ref(*ty), view::values(args@)),
{
    assert(view::values(args@).len() == args@.len());
    if args.len() == 0 {
        return Err(missing_argument());
    }
    let left = match value_i64(&args[0]) {
        Ok(value) => value,
        Err(failure) => return Err(failure),
    };
    if args.len() <= 1 {
        return Err(missing_argument());
    }
    let right = match value_i64(&args[1]) {
        Ok(value) => value,
        Err(failure) => return Err(failure),
    };
    Ok(ok_or_error(ty, duration_sum(left, right), "overflow"))
}

pub open spec fn clock_duration_between(ty: TypeView, args: Seq<ValueView>) -> Result<ValueView, Seq<PartView>> {
    match crate::execute::lists::given(args, 0, crate::execute::values::as_int(args[0])) {
        Err(failure) => Err(failure),
        Ok(earlier) => {
            match crate::execute::lists::given(args, 1, crate::execute::values::as_int(args[1])) {
                Err(failure) => Err(failure),
                Ok(later) => {
                    Ok(crate::execute::values::or_error(ty, duration(later - earlier), "invalid-order"@))
                },
            }
        },
    }
}

fn run_clock_duration_between(ty: &TypeRef, args: &Vec<RuntimeValue>) -> (result: Result<RuntimeValue, Failure>)
    ensures
        crate::execute::lists::outcome(result) == clock_duration_between(view::type_ref(*ty), view::values(args@)),
{
    assert(view::values(args@).len() == args@.len());
    if args.len() == 0 {
        return Err(missing_argument());
    }
    let earlier = match value_i64(&args[0]) {
        Ok(value) => value,
        Err(failure) => return Err(failure),
    };
    if args.len() <= 1 {
        return Err(missing_argument());
    }
    let later = match value_i64(&args[1]) {
        Ok(value) => value,
        Err(failure) => return Err(failure),
    };
    Ok(ok_or_error(ty, duration_difference(later, earlier), "invalid-order"))
}

/// What a byte, path or duration operation gives back; nothing for any other name.
pub open spec fn bytes(name: Seq<char>, ty: TypeView, args: Seq<ValueView>, limit: usize, cells: Seq<ValueView>) -> Option<Result<ValueView, Seq<PartView>>> {
    if name == "bytes_len"@ {
        Some(bytes_len(args))
    } else if name == "bytes_slice"@ {
        Some(bytes_slice(args))
    } else if name == "bytes_from_str"@ {
        Some(bytes_from_str(args))
    } else if name == "bytes_get"@ {
        Some(bytes_get(ty, args))
    } else if name == "bytes_concat"@ {
        Some(bytes_concat(ty, args, limit))
    } else if name == "bytes_find"@ {
        Some(bytes_find(ty, args))
    } else if name == "bytes_from_array"@ {
        Some(bytes_from_array(ty, args, limit))
    } else if name == "bytes_decode_utf8"@ {
        Some(bytes_decode_utf8(ty, args, limit))
    } else if name == "path_new"@ {
        Some(path_new(args))
    } else if name == "path_join"@ {
        Some(path_join(args))
    } else if name == "path_parent"@ {
        Some(path_parent(ty, args))
    } else if name == "path_extension"@ {
        Some(path_extension(ty, args))
    } else if name == "path_file_name"@ {
        Some(path_file_name(ty, args))
    } else if name == "path_components"@ {
        Some(path_components(ty, args, limit))
    } else if name == "clock_duration_from_millis"@ {
        Some(clock_duration_from_millis(args))
    } else if name == "clock_duration_add"@ {
        Some(clock_duration_add(ty, args))
    } else if name == "clock_duration_between"@ {
        Some(clock_duration_between(ty, args))
    } else {
        None
    }
}

pub(crate) fn run_bytes(
    name: &str,
    ty: &TypeRef,
    args: &Vec<RuntimeValue>,
    limit: usize,
    cells: &Vec<RuntimeValue>,
) -> (result: Option<Result<RuntimeValue, Failure>>)
    ensures
        match result {
            Some(result) => bytes(
                name@,
                view::type_ref(*ty),
                view::values(args@),
                limit,
                view::values(cells@),
            ) == Some(crate::execute::lists::outcome(result)),
            None => bytes(name@, view::type_ref(*ty), view::values(args@), limit, view::values(cells@)) is None,
        },
{
    assert(view::values(args@).len() == args@.len());
    if same_text(name, "bytes_len") {
        Some(run_bytes_len(args))
    } else if same_text(name, "bytes_slice") {
        Some(run_bytes_slice(args))
    } else if same_text(name, "bytes_from_str") {
        Some(run_bytes_from_str(args))
    } else if same_text(name, "bytes_get") {
        Some(run_bytes_get(ty, args))
    } else if same_text(name, "bytes_concat") {
        Some(run_bytes_concat(ty, args, limit))
    } else if same_text(name, "bytes_find") {
        Some(run_bytes_find(ty, args))
    } else if same_text(name, "bytes_from_array") {
        Some(run_bytes_from_array(ty, args, limit))
    } else if same_text(name, "bytes_decode_utf8") {
        Some(run_bytes_decode_utf8(ty, args, limit))
    } else if same_text(name, "path_new") {
        Some(run_path_new(args))
    } else if same_text(name, "path_join") {
        Some(run_path_join(args))
    } else if same_text(name, "path_parent") {
        Some(run_path_parent(ty, args))
    } else if same_text(name, "path_extension") {
        Some(run_path_extension(ty, args))
    } else if same_text(name, "path_file_name") {
        Some(run_path_file_name(ty, args))
    } else if same_text(name, "path_components") {
        Some(run_path_components(ty, args, limit))
    } else if same_text(name, "clock_duration_from_millis") {
        Some(run_clock_duration_from_millis(args))
    } else if same_text(name, "clock_duration_add") {
        Some(run_clock_duration_add(ty, args))
    } else if same_text(name, "clock_duration_between") {
        Some(run_clock_duration_between(ty, args))
    } else {
        None
    }
}

} // verus!
