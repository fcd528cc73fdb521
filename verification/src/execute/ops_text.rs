//! Text operations and conversions.
use vstd::prelude::*;
use crate::execute::failure::{Failure, PartView};
use crate::lowered::ir::{RuntimeValue, TypeRef};
use crate::lowered::view::{self, TypeView, ValueView};
use crate::execute::lists::{
    count, get_scalar, optional_count, missing_argument, value_array, value_index, value_texts,
};
use crate::execute::strings::{
    bytes_within, change_case, contains, ends_with, find, join, parse_signed, parse_unsigned, replace, scalar_count,
    split_text, trim, utf8_len,
};
use crate::execute::values::{
    option_value, parse_result, result_err, result_ok, runtime_texts, value_bool, value_i64, value_str,
};
use crate::text::{owned, same_text, signed_text, starts_with};

verus! {

pub open spec fn str_scalar_len(args: Seq<ValueView>) -> Result<ValueView, Seq<PartView>> {
    match crate::execute::lists::given(args, 0, crate::execute::values::as_text(args[0])) {
        Err(failure) => Err(failure),
        Ok(text) => {
            Ok(crate::execute::lists::count_value(text.len() as nat))
        },
    }
}

fn run_str_scalar_len(args: &Vec<RuntimeValue>) -> (result: Result<RuntimeValue, Failure>)
    ensures
        crate::execute::lists::outcome(result) == str_scalar_len(view::values(args@)),
{
    assert(view::values(args@).len() == args@.len());
    if args.len() == 0 {
        return Err(missing_argument());
    }
    let text = match value_str(&args[0]) {
        Ok(value) => value,
        Err(failure) => return Err(failure),
    };
    Ok(count(scalar_count(text)))
}

pub open spec fn str_byte_len(args: Seq<ValueView>) -> Result<ValueView, Seq<PartView>> {
    match crate::execute::lists::given(args, 0, crate::execute::values::as_text(args[0])) {
        Err(failure) => Err(failure),
        Ok(text) => {
            Ok(crate::execute::lists::count_value(crate::execute::strings::byte_len(text) as nat))
        },
    }
}

fn run_str_byte_len(args: &Vec<RuntimeValue>) -> (result: Result<RuntimeValue, Failure>)
    ensures
        crate::execute::lists::outcome(result) == str_byte_len(view::values(args@)),
{
    assert(view::values(args@).len() == args@.len());
    if args.len() == 0 {
        return Err(missing_argument());
    }
    let text = match value_str(&args[0]) {
        Ok(value) => value,
        Err(failure) => return Err(failure),
    };
    Ok(count(utf8_len(text)))
}

pub open spec fn str_is_empty(args: Seq<ValueView>) -> Result<ValueView, Seq<PartView>> {
    match crate::execute::lists::given(args, 0, crate::execute::values::as_text(args[0])) {
        Err(failure) => Err(failure),
        Ok(text) => {
            Ok(ValueView::Bool(text.len() == 0))
        },
    }
}

fn run_str_is_empty(args: &Vec<RuntimeValue>) -> (result: Result<RuntimeValue, Failure>)
    ensures
        crate::execute::lists::outcome(result) == str_is_empty(view::values(args@)),
{
    assert(view::values(args@).len() == args@.len());
    if args.len() == 0 {
        return Err(missing_argument());
    }
    let text = match value_str(&args[0]) {
        Ok(value) => value,
        Err(failure) => return Err(failure),
    };
    Ok(RuntimeValue::Bool(text.is_empty()))
}

pub open spec fn str_contains(args: Seq<ValueView>) -> Result<ValueView, Seq<PartView>> {
    match crate::execute::lists::given(args, 0, crate::execute::values::as_text(args[0])) {
        Err(failure) => Err(failure),
        Ok(text) => {
            match crate::execute::lists::given(args, 1, crate::execute::values::as_text(args[1])) {
                Err(failure) => Err(failure),
                Ok(needle) => {
                    Ok(ValueView::Bool(crate::execute::strings::has_text(text, needle)))
                },
            }
        },
    }
}

fn run_str_contains(args: &Vec<RuntimeValue>) -> (result: Result<RuntimeValue, Failure>)
    ensures
        crate::execute::lists::outcome(result) == str_contains(view::values(args@)),
{
    assert(view::values(args@).len() == args@.len());
    if args.len() == 0 {
        return Err(missing_argument());
    }
    let text = match value_str(&args[0]) {
        Ok(value) => value,
        Err(failure) => return Err(failure),
    };
    if args.len() <= 1 {
        return Err(missing_argument());
    }
    let needle = match value_str(&args[1]) {
        Ok(value) => value,
        Err(failure) => return Err(failure),
    };
    Ok(RuntimeValue::Bool(contains(text, needle)))
}

pub open spec fn str_starts_with(args: Seq<ValueView>) -> Result<ValueView, Seq<PartView>> {
    match crate::execute::lists::given(args, 0, crate::execute::values::as_text(args[0])) {
        Err(failure) => Err(failure),
        Ok(text) => {
            match crate::execute::lists::given(args, 1, crate::execute::values::as_text(args[1])) {
                Err(failure) => Err(failure),
                Ok(prefix) => {
                    Ok(ValueView::Bool(crate::text::has_prefix(text, prefix)))
                },
            }
        },
    }
}

fn run_str_starts_with(args: &Vec<RuntimeValue>) -> (result: Result<RuntimeValue, Failure>)
    ensures
        crate::execute::lists::outcome(result) == str_starts_with(view::values(args@)),
{
    assert(view::values(args@).len() == args@.len());
    if args.len() == 0 {
        return Err(missing_argument());
    }
    let text = match value_str(&args[0]) {
        Ok(value) => value,
        Err(failure) => return Err(failure),
    };
    if args.len() <= 1 {
        return Err(missing_argument());
    }
    let prefix = match value_str(&args[1]) {
        Ok(value) => value,
        Err(failure) => return Err(failure),
    };
    Ok(RuntimeValue::Bool(starts_with(text, prefix)))
}

pub open spec fn str_ends_with(args: Seq<ValueView>) -> Result<ValueView, Seq<PartView>> {
    match crate::execute::lists::given(args, 0, crate::execute::values::as_text(args[0])) {
        Err(failure) => Err(failure),
        Ok(text) => {
            match crate::execute::lists::given(args, 1, crate::execute::values::as_text(args[1])) {
                Err(failure) => Err(failure),
                Ok(suffix) => {
                    Ok(ValueView::Bool(crate::execute::strings::has_suffix(text, suffix)))
                },
            }
        },
    }
}

fn run_str_ends_with(args: &Vec<RuntimeValue>) -> (result: Result<RuntimeValue, Failure>)
    ensures
        crate::execute::lists::outcome(result) == str_ends_with(view::values(args@)),
{
    assert(view::values(args@).len() == args@.len());
    if args.len() == 0 {
        return Err(missing_argument());
    }
    let text = match value_str(&args[0]) {
        Ok(value) => value,
        Err(failure) => return Err(failure),
    };
    if args.len() <= 1 {
        return Err(missing_argument());
    }
    let suffix = match value_str(&args[1]) {
        Ok(value) => value,
        Err(failure) => return Err(failure),
    };
    Ok(RuntimeValue::Bool(ends_with(text, suffix)))
}

pub open spec fn str_find(ty: TypeView, args: Seq<ValueView>) -> Result<ValueView, Seq<PartView>> {
    match crate::execute::lists::given(args, 0, crate::execute::values::as_text(args[0])) {
        Err(failure) => Err(failure),
        Ok(text) => {
            match crate::execute::lists::given(args, 1, crate::execute::values::as_text(args[1])) {
                Err(failure) => Err(failure),
                Ok(needle) => {
                    Ok(
                        crate::execute::values::option_of(
                            ty,
                            crate::execute::lists::count_option(crate::execute::strings::find_text(text, needle)),
                        ),
                    )
                },
            }
        },
    }
}

fn run_str_find(ty: &TypeRef, args: &Vec<RuntimeValue>) -> (result: Result<RuntimeValue, Failure>)
    ensures
        crate::execute::lists::outcome(result) == str_find(view::type_ref(*ty), view::values(args@)),
{
    assert(view::values(args@).len() == args@.len());
    if args.len() == 0 {
        return Err(missing_argument());
    }
    let text = match value_str(&args[0]) {
        Ok(value) => value,
        Err(failure) => return Err(failure),
    };
    if args.len() <= 1 {
        return Err(missing_argument());
    }
    let needle = match value_str(&args[1]) {
        Ok(value) => value,
        Err(failure) => return Err(failure),
    };
    Ok(option_value(ty, optional_count(find(text, needle))))
}

pub open spec fn str_scalar_at(ty: TypeView, args: Seq<ValueView>) -> Result<ValueView, Seq<PartView>> {
    match crate::execute::lists::given(args, 1, crate::execute::lists::as_index(args[1], "scalar index too large"@)) {
        Err(failure) => Err(failure),
        Ok(index) => {
            match crate::execute::lists::given(args, 0, crate::execute::values::as_text(args[0])) {
                Err(failure) => Err(failure),
                Ok(text) => {
                    Ok(crate::execute::values::option_of(ty, crate::execute::lists::scalar_at(text, index)))
                },
            }
        },
    }
}

fn run_str_scalar_at(ty: &TypeRef, args: &Vec<RuntimeValue>) -> (result: Result<RuntimeValue, Failure>)
    ensures
        crate::execute::lists::outcome(result) == str_scalar_at(view::type_ref(*ty), view::values(args@)),
{
    assert(view::values(args@).len() == args@.len());
    if args.len() <= 1 {
        return Err(missing_argument());
    }
    let index = match value_index(&args[1], "scalar index too large") {
        Ok(value) => value,
        Err(failure) => return Err(failure),
    };
    let text = match value_str(&args[0]) {
        Ok(value) => value,
        Err(failure) => return Err(failure),
    };
    Ok(option_value(ty, get_scalar(text, index)))
}

pub open spec fn str_split(ty: TypeView, args: Seq<ValueView>, limit: usize) -> Result<ValueView, Seq<PartView>> {
    match crate::execute::lists::given(args, 0, crate::execute::values::as_text(args[0])) {
        Err(failure) => Err(failure),
        Ok(text) => {
            match crate::execute::lists::given(args, 1, crate::execute::values::as_text(args[1])) {
                Err(failure) => Err(failure),
                Ok(separator) => {
                    let parts = crate::execute::strings::pieces(text, separator);
                    if parts.len() > limit || crate::execute::strings::total_bytes(parts, parts.len() as int) > limit {
                        Ok(crate::execute::values::err_value(ty, "limit-exceeded"@))
                    } else {
                        Ok(crate::execute::values::ok_value(ty, crate::execute::values::text_array(parts)))
                    }
                },
            }
        },
    }
}

fn run_str_split(ty: &TypeRef, args: &Vec<RuntimeValue>, limit: usize) -> (result: Result<RuntimeValue, Failure>)
    ensures
        crate::execute::lists::outcome(result) == str_split(view::type_ref(*ty), view::values(args@), limit),
{
    assert(view::values(args@).len() == args@.len());
    if args.len() == 0 {
        return Err(missing_argument());
    }
    let text = match value_str(&args[0]) {
        Ok(value) => value,
        Err(failure) => return Err(failure),
    };
    if args.len() <= 1 {
        return Err(missing_argument());
    }
    let separator = match value_str(&args[1]) {
        Ok(value) => value,
        Err(failure) => return Err(failure),
    };
    let parts = split_text(text, separator);
    if parts.len() > limit || !bytes_within(&parts, limit) {
        return Ok(result_err(ty, "limit-exceeded"));
    }
    Ok(result_ok(ty, runtime_texts(&parts)))
}

pub open spec fn str_trim(ty: TypeView, args: Seq<ValueView>, limit: usize) -> Result<ValueView, Seq<PartView>> {
    match crate::execute::lists::given(args, 0, crate::execute::values::as_text(args[0])) {
        Err(failure) => Err(failure),
        Ok(text) => {
            let value = crate::execute::strings::trimmed(text);
            if crate::execute::strings::byte_len(value) > limit {
                Ok(crate::execute::values::err_value(ty, "limit-exceeded"@))
            } else {
                Ok(crate::execute::values::ok_value(ty, ValueView::Str(value)))
            }
        },
    }
}

fn run_str_trim(ty: &TypeRef, args: &Vec<RuntimeValue>, limit: usize) -> (result: Result<RuntimeValue, Failure>)
    ensures
        crate::execute::lists::outcome(result) == str_trim(view::type_ref(*ty), view::values(args@), limit),
{
    assert(view::values(args@).len() == args@.len());
    if args.len() == 0 {
        return Err(missing_argument());
    }
    let text = match value_str(&args[0]) {
        Ok(value) => value,
        Err(failure) => return Err(failure),
    };
    let value = trim(text);
    if utf8_len(value.as_str()) > limit {
        return Ok(result_err(ty, "limit-exceeded"));
    }
    Ok(result_ok(ty, RuntimeValue::Str(value)))
}

pub open spec fn str_replace(ty: TypeView, args: Seq<ValueView>, limit: usize) -> Result<ValueView, Seq<PartView>> {
    match crate::execute::lists::given(args, 0, crate::execute::values::as_text(args[0])) {
        Err(failure) => Err(failure),
        Ok(text) => {
            match crate::execute::lists::given(args, 1, crate::execute::values::as_text(args[1])) {
                Err(failure) => Err(failure),
                Ok(pattern) => {
                    match crate::execute::lists::given(args, 2, crate::execute::values::as_text(args[2])) {
                        Err(failure) => Err(failure),
                        Ok(with) => {
                            if pattern.len() == 0 {
                                Ok(crate::execute::values::err_value(ty, "empty-pattern"@))
                            } else {
                                let value = crate::execute::strings::replaced(text, pattern, with);
                                if crate::execute::strings::byte_len(value) > limit {
                                    Ok(crate::execute::values::err_value(ty, "limit-exceeded"@))
                                } else {
                                    Ok(crate::execute::values::ok_value(ty, ValueView::Str(value)))
                                }
                            }
                        },
                    }
                },
            }
        },
    }
}

fn run_str_replace(ty: &TypeRef, args: &Vec<RuntimeValue>, limit: usize) -> (result: Result<RuntimeValue, Failure>)
    ensures
        crate::execute::lists::outcome(result) == str_replace(view::type_ref(*ty), view::values(args@), limit),
{
    assert(view::values(args@).len() == args@.len());
    if args.len() == 0 {
        return Err(missing_argument());
    }
    let text = match value_str(&args[0]) {
        Ok(value) => value,
        Err(failure) => return Err(failure),
    };
    if args.len() <= 1 {
        return Err(missing_argument());
    }
    let pattern = match value_str(&args[1]) {
        Ok(value) => value,
        Err(failure) => return Err(failure),
    };
    if args.len() <= 2 {
        return Err(missing_argument());
    }
    let with = match value_str(&args[2]) {
        Ok(value) => value,
        Err(failure) => return Err(failure),
    };
    if pattern.is_empty() {
        return Ok(result_err(ty, "empty-pattern"));
    }
    let value = replace(text, pattern, with);
    if utf8_len(value.as_str()) > limit {
        return Ok(result_err(ty, "limit-exceeded"));
    }
    Ok(result_ok(ty, RuntimeValue::Str(value)))
}

pub open spec fn str_join(ty: TypeView, args: Seq<ValueView>, limit: usize) -> Result<ValueView, Seq<PartView>> {
    match crate::execute::lists::given(
        args,
        0,
        crate::execute::lists::as_array(args[0], "str_join expects an array"@),
    ) {
        Err(failure) => Err(failure),
        Ok(values) => {
            match crate::execute::lists::given(args, 1, crate::execute::values::as_text(args[1])) {
                Err(failure) => Err(failure),
                Ok(separator) => {
                    match crate::execute::lists::item_texts(values) {
                        Err(failure) => Err(failure),
                        Ok(parts) => {
                            let value = crate::execute::strings::joined(parts, separator);
                            if crate::execute::strings::byte_len(value) > limit {
                                Ok(crate::execute::values::err_value(ty, "limit-exceeded"@))
                            } else {
                                Ok(crate::execute::values::ok_value(ty, ValueView::Str(value)))
                            }
                        },
                    }
                },
            }
        },
    }
}

fn run_str_join(ty: &TypeRef, args: &Vec<RuntimeValue>, limit: usize) -> (result: Result<RuntimeValue, Failure>)
    ensures
        crate::execute::lists::outcome(result) == str_join(view::type_ref(*ty), view::values(args@), limit),
{
    assert(view::values(args@).len() == args@.len());
    if args.len() == 0 {
        return Err(missing_argument());
    }
    let values = match value_array(&args[0], "str_join expects an array") {
        Ok(value) => value,
        Err(failure) => return Err(failure),
    };
    if args.len() <= 1 {
        return Err(missing_argument());
    }
    let separator = match value_str(&args[1]) {
        Ok(value) => value,
        Err(failure) => return Err(failure),
    };
    let parts = match value_texts(values) {
        Ok(value) => value,
        Err(failure) => return Err(failure),
    };
    let value = join(&parts, separator);
    if utf8_len(value.as_str()) > limit {
        return Ok(result_err(ty, "limit-exceeded"));
    }
    Ok(result_ok(ty, RuntimeValue::Str(value)))
}

pub open spec fn str_lowercase(ty: TypeView, args: Seq<ValueView>, limit: usize) -> Result<ValueView, Seq<PartView>> {
    match crate::execute::lists::given(args, 0, crate::execute::values::as_text(args[0])) {
        Err(failure) => Err(failure),
        Ok(text) => {
            let value = crate::execute::strings::cased(text, true, text.len() as int);
            if crate::execute::strings::byte_len(value) > limit {
                Ok(crate::execute::values::err_value(ty, "limit-exceeded"@))
            } else {
                Ok(crate::execute::values::ok_value(ty, ValueView::Str(value)))
            }
        },
    }
}

fn run_str_lowercase(ty: &TypeRef, args: &Vec<RuntimeValue>, limit: usize) -> (result: Result<RuntimeValue, Failure>)
    ensures
        crate::execute::lists::outcome(result) == str_lowercase(view::type_ref(*ty), view::values(args@), limit),
{
    assert(view::values(args@).len() == args@.len());
    if args.len() == 0 {
        return Err(missing_argument());
    }
    let text = match value_str(&args[0]) {
        Ok(value) => value,
        Err(failure) => return Err(failure),
    };
    let value = change_case(text, true);
    if utf8_len(value.as_str()) > limit {
        return Ok(result_err(ty, "limit-exceeded"));
    }
    Ok(result_ok(ty, RuntimeValue::Str(value)))
}

pub open spec fn str_uppercase(ty: TypeView, args: Seq<ValueView>, limit: usize) -> Result<ValueView, Seq<PartView>> {
    match crate::execute::lists::given(args, 0, crate::execute::values::as_text(args[0])) {
        Err(failure) => Err(failure),
        Ok(text) => {
            let value = crate::execute::strings::cased(text, false, text.len() as int);
            if crate::execute::strings::byte_len(value) > limit {
                Ok(crate::execute::values::err_value(ty, "limit-exceeded"@))
            } else {
                Ok(crate::execute::values::ok_value(ty, ValueView::Str(value)))
            }
        },
    }
}

fn run_str_uppercase(ty: &TypeRef, args: &Vec<RuntimeValue>, limit: usize) -> (result: Result<RuntimeValue, Failure>)
    ensures
        crate::execute::lists::outcome(result) == str_uppercase(view::type_ref(*ty), view::values(args@), limit),
{
    assert(view::values(args@).len() == args@.len());
    if args.len() == 0 {
        return Err(missing_argument());
    }
    let text = match value_str(&args[0]) {
        Ok(value) => value,
        Err(failure) => return Err(failure),
    };
    let value = change_case(text, false);
    if utf8_len(value.as_str()) > limit {
        return Ok(result_err(ty, "limit-exceeded"));
    }
    Ok(result_ok(ty, RuntimeValue::Str(value)))
}

pub open spec fn parse_int64(ty: TypeView, args: Seq<ValueView>) -> Result<ValueView, Seq<PartView>> {
    match crate::execute::lists::given(args, 0, crate::execute::values::as_text(args[0])) {
        Err(failure) => Err(failure),
        Ok(text) => {
            Ok(crate::execute::values::parsed_value(ty, crate::execute::strings::signed_numeral(text)))
        },
    }
}

fn run_parse_int64(ty: &TypeRef, args: &Vec<RuntimeValue>) -> (result: Result<RuntimeValue, Failure>)
    ensures
        crate::execute::lists::outcome(result) == parse_int64(view::type_ref(*ty), view::values(args@)),
{
    assert(view::values(args@).len() == args@.len());
    if args.len() == 0 {
        return Err(missing_argument());
    }
    let text = match value_str(&args[0]) {
        Ok(value) => value,
        Err(failure) => return Err(failure),
    };
    Ok(parse_result(ty, parse_signed(text)))
}

pub open spec fn parse_uint64(ty: TypeView, args: Seq<ValueView>) -> Result<ValueView, Seq<PartView>> {
    match crate::execute::lists::given(args, 0, crate::execute::values::as_text(args[0])) {
        Err(failure) => Err(failure),
        Ok(text) => {
            Ok(crate::execute::values::parsed_value(ty, crate::execute::strings::unsigned_numeral(text)))
        },
    }
}

fn run_parse_uint64(ty: &TypeRef, args: &Vec<RuntimeValue>) -> (result: Result<RuntimeValue, Failure>)
    ensures
        crate::execute::lists::outcome(result) == parse_uint64(view::type_ref(*ty), view::values(args@)),
{
    assert(view::values(args@).len() == args@.len());
    if args.len() == 0 {
        return Err(missing_argument());
    }
    let text = match value_str(&args[0]) {
        Ok(value) => value,
        Err(failure) => return Err(failure),
    };
    Ok(parse_result(ty, parse_unsigned(text)))
}

pub open spec fn parse_bool(ty: TypeView, args: Seq<ValueView>) -> Result<ValueView, Seq<PartView>> {
    match crate::execute::lists::given(args, 0, crate::execute::values::as_text(args[0])) {
        Err(failure) => Err(failure),
        Ok(text) => {
            if (text == "true"@) {
                Ok(crate::execute::values::ok_value(ty, ValueView::Bool(true)))
            } else {
                if (text == "false"@) {
                    Ok(crate::execute::values::ok_value(ty, ValueView::Bool(false)))
                } else {
                    Ok(crate::execute::values::err_value(ty, "invalid"@))
                }
            }
        },
    }
}

fn run_parse_bool(ty: &TypeRef, args: &Vec<RuntimeValue>) -> (result: Result<RuntimeValue, Failure>)
    ensures
        crate::execute::lists::outcome(result) == parse_bool(view::type_ref(*ty), view::values(args@)),
{
    assert(view::values(args@).len() == args@.len());
    if args.len() == 0 {
        return Err(missing_argument());
    }
    let text = match value_str(&args[0]) {
        Ok(value) => value,
        Err(failure) => return Err(failure),
    };
    if same_text(text, "true") {
        return Ok(result_ok(ty, RuntimeValue::Bool(true)));
    }
    if same_text(text, "false") {
        return Ok(result_ok(ty, RuntimeValue::Bool(false)));
    }
    Ok(result_err(ty, "invalid"))
}

pub open spec fn format_int64(args: Seq<ValueView>) -> Result<ValueView, Seq<PartView>> {
    match crate::execute::lists::given(args, 0, crate::execute::values::as_int(args[0])) {
        Err(failure) => Err(failure),
        Ok(number) => {
            Ok(ValueView::Str(crate::text::signed_decimal(number as int)))
        },
    }
}

fn run_format_int64(args: &Vec<RuntimeValue>) -> (result: Result<RuntimeValue, Failure>)
    ensures
        crate::execute::lists::outcome(result) == format_int64(view::values(args@)),
{
    assert(view::values(args@).len() == args@.len());
    if args.len() == 0 {
        return Err(missing_argument());
    }
    let number = match value_i64(&args[0]) {
        Ok(value) => value,
        Err(failure) => return Err(failure),
    };
    Ok(RuntimeValue::Str(signed_text(number)))
}

pub open spec fn format_bool(args: Seq<ValueView>) -> Result<ValueView, Seq<PartView>> {
    match crate::execute::lists::given(args, 0, crate::execute::values::as_bool(args[0])) {
        Err(failure) => Err(failure),
        Ok(flag) => {
            if flag {
                Ok(ValueView::Str("true"@))
            } else {
                Ok(ValueView::Str("false"@))
            }
        },
    }
}

fn run_format_bool(args: &Vec<RuntimeValue>) -> (result: Result<RuntimeValue, Failure>)
    ensures
        crate::execute::lists::outcome(result) == format_bool(view::values(args@)),
{
    assert(view::values(args@).len() == args@.len());
    if args.len() == 0 {
        return Err(missing_argument());
    }
    let flag = match value_bool(&args[0]) {
        Ok(value) => value,
        Err(failure) => return Err(failure),
    };
    if flag {
        return Ok(RuntimeValue::Str(owned("true")));
    }
    Ok(RuntimeValue::Str(owned("false")))
}

/// What a text operation or conversion gives back; nothing for any other name.
pub open spec fn texts(name: Seq<char>, ty: TypeView, args: Seq<ValueView>, limit: usize, cells: Seq<ValueView>) -> Option<Result<ValueView, Seq<PartView>>> {
    if name == "str_scalar_len"@ {
        Some(str_scalar_len(args))
    } else if name == "str_byte_len"@ {
        Some(str_byte_len(args))
    } else if name == "str_is_empty"@ {
        Some(str_is_empty(args))
    } else if name == "str_contains"@ {
        Some(str_contains(args))
    } else if name == "str_starts_with"@ {
        Some(str_starts_with(args))
    } else if name == "str_ends_with"@ {
        Some(str_ends_with(args))
    } else if name == "str_find"@ {
        Some(str_find(ty, args))
    } else if name == "str_scalar_at"@ {
        Some(str_scalar_at(ty, args))
    } else if name == "str_split"@ {
        Some(str_split(ty, args, limit))
    } else if name == "str_trim"@ {
        Some(str_trim(ty, args, limit))
    } else if name == "str_replace"@ {
        Some(str_replace(ty, args, limit))
    } else if name == "str_join"@ {
        Some(str_join(ty, args, limit))
    } else if name == "str_lowercase"@ {
        Some(str_lowercase(ty, args, limit))
    } else if name == "str_uppercase"@ {
        Some(str_uppercase(ty, args, limit))
    } else if name == "parse_int64"@ {
        Some(parse_int64(ty, args))
    } else if name == "parse_uint64"@ {
        Some(parse_uint64(ty, args))
    } else if name == "parse_bool"@ {
        Some(parse_bool(ty, args))
    } else if name == "format_int64"@ || name == "format_uint64"@ {
        Some(format_int64(args))
    } else if name == "format_bool"@ {
        Some(format_bool(args))
    } else {
        None
    }
}

pub(crate) fn run_texts(
    name: &str,
    ty: &TypeRef,
    args: &Vec<RuntimeValue>,
    limit: usize,
    cells: &Vec<RuntimeValue>,
) -> (result: Option<Result<RuntimeValue, Failure>>)
    ensures
        match result {
            Some(result) => texts(
                name@,
                view::type_ref(*ty),
                view::values(args@),
                limit,
                view::values(cells@),
            ) == Some(crate::execute::lists::outcome(result)),
            None => texts(name@, view::type_ref(*ty), view::values(args@), limit, view::values(cells@)) is None,
        },
{
    assert(view::values(args@).len() == args@.len());
    if same_text(name, "str_scalar_len") {
        Some(run_str_scalar_len(args))
    } else if same_text(name, "str_byte_len") {
        Some(run_str_byte_len(args))
    } else if same_text(name, "str_is_empty") {
        Some(run_str_is_empty(args))
    } else if same_text(name, "str_contains") {
        Some(run_str_contains(args))
    } else if same_text(name, "str_starts_with") {
        Some(run_str_starts_with(args))
    } else if same_text(name, "str_ends_with") {
        Some(run_str_ends_with(args))
    } else if same_text(name, "str_find") {
        Some(run_str_find(ty, args))
    } else if same_text(name, "str_scalar_at") {
        Some(run_str_scalar_at(ty, args))
    } else if same_text(name, "str_split") {
        Some(run_str_split(ty, args, limit))
    } else if same_text(name, "str_trim") {
        Some(run_str_trim(ty, args, limit))
    } else if same_text(name, "str_replace") {
        Some(run_str_replace(ty, args, limit))
    } else if same_text(name, "str_join") {
        Some(run_str_join(ty, args, limit))
    } else if same_text(name, "str_lowercase") {
        Some(run_str_lowercase(ty, args, limit))
    } else if same_text(name, "str_uppercase") {
        Some(run_str_uppercase(ty, args, limit))
    } else if same_text(name, "parse_int64") {
        Some(run_parse_int64(ty, args))
    } else if same_text(name, "parse_uint64") {
        Some(run_parse_uint64(ty, args))
    } else if same_text(name, "parse_bool") {
        Some(run_parse_bool(ty, args))
    } else if same_text(name, "format_int64") || same_text(name, "format_uint64") {
        Some(run_format_int64(args))
    } else if same_text(name, "format_bool") {
        Some(run_format_bool(args))
    } else {
        None
    }
}

} // verus!
