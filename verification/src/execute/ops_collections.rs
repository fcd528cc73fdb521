//! Array and map operations.
use vstd::prelude::*;
use crate::execute::failure::{Failure, PartView};
use crate::lowered::ir::{RuntimeValue, TypeRef};
use crate::lowered::view::{self, TypeView, ValueView};
use crate::execute::lists::{
    bind_key, contains_key, contains_value, count, drop_key, item, lookup, slice, missing_argument, value_array,
    value_array_length, value_index, value_mapping, value_mapping_length, with_inserted, with_item, with_last,
    without_item,
};
use crate::execute::values::{
    collection_bounds_err, collection_result_err, option_value, record_two, result_ok, value_str,
};
use crate::lowered::copy;
use crate::text::same_text;

verus! {

pub open spec fn array_len(args: Seq<ValueView>) -> Result<ValueView, Seq<PartView>> {
    match crate::execute::lists::given(args, 0, crate::execute::lists::array_length(args[0])) {
        Err(failure) => Err(failure),
        Ok(size) => {
            Ok(crate::execute::lists::count_value(size as nat))
        },
    }
}

fn run_array_len(args: &Vec<RuntimeValue>) -> (result: Result<RuntimeValue, Failure>)
    ensures
        crate::execute::lists::outcome(result) == array_len(view::values(args@)),
{
    assert(view::values(args@).len() == args@.len());
    if args.len() == 0 {
        return Err(missing_argument());
    }
    let size = match value_array_length(&args[0]) {
        Ok(value) => value,
        Err(failure) => return Err(failure),
    };
    Ok(count(size))
}

pub open spec fn array_get(ty: TypeView, args: Seq<ValueView>) -> Result<ValueView, Seq<PartView>> {
    match crate::execute::lists::given(args, 1, crate::execute::lists::as_index(args[1], "array index too large"@)) {
        Err(failure) => Err(failure),
        Ok(index) => {
            match crate::execute::lists::given(
                args,
                0,
                crate::execute::lists::as_array(args[0], "array_get expects an array"@),
            ) {
                Err(failure) => Err(failure),
                Ok(values) => {
                    Ok(crate::execute::values::option_of(ty, crate::execute::lists::item_at(values, index)))
                },
            }
        },
    }
}

fn run_array_get(ty: &TypeRef, args: &Vec<RuntimeValue>) -> (result: Result<RuntimeValue, Failure>)
    ensures
        crate::execute::lists::outcome(result) == array_get(view::type_ref(*ty), view::values(args@)),
{
    assert(view::values(args@).len() == args@.len());
    if args.len() <= 1 {
        return Err(missing_argument());
    }
    let index = match value_index(&args[1], "array index too large") {
        Ok(value) => value,
        Err(failure) => return Err(failure),
    };
    let values = match value_array(&args[0], "array_get expects an array") {
        Ok(value) => value,
        Err(failure) => return Err(failure),
    };
    Ok(option_value(ty, item(values, index)))
}

pub open spec fn array_set(ty: TypeView, args: Seq<ValueView>) -> Result<ValueView, Seq<PartView>> {
    match crate::execute::lists::given(args, 1, crate::execute::lists::as_index(args[1], "array index too large"@)) {
        Err(failure) => Err(failure),
        Ok(index) => {
            match crate::execute::lists::given(
                args,
                0,
                crate::execute::lists::as_array(args[0], "array_set expects an array"@),
            ) {
                Err(failure) => Err(failure),
                Ok(values) => {
                    if index >= values.len() {
                        Ok(crate::execute::values::bounds_err(ty, index as int, values.len() as int))
                    } else if args.len() <= 2 {
                        Err(crate::execute::lists::no_argument())
                    } else {
                        Ok(
                            crate::execute::values::ok_value(
                                ty,
                                ValueView::Array(values.update(index as int, args[2])),
                            ),
                        )
                    }
                },
            }
        },
    }
}

fn run_array_set(ty: &TypeRef, args: &Vec<RuntimeValue>) -> (result: Result<RuntimeValue, Failure>)
    ensures
        crate::execute::lists::outcome(result) == array_set(view::type_ref(*ty), view::values(args@)),
{
    assert(view::values(args@).len() == args@.len());
    if args.len() <= 1 {
        return Err(missing_argument());
    }
    let index = match value_index(&args[1], "array index too large") {
        Ok(value) => value,
        Err(failure) => return Err(failure),
    };
    let values = match value_array(&args[0], "array_set expects an array") {
        Ok(value) => value,
        Err(failure) => return Err(failure),
    };
    if index >= values.len() {
        return Ok(collection_bounds_err(ty, index, values.len()));
    }
    if args.len() <= 2 {
        return Err(missing_argument());
    }
    Ok(result_ok(ty, RuntimeValue::Array(with_item(values, index, &args[2]))))
}

pub open spec fn array_slice(ty: TypeView, args: Seq<ValueView>) -> Result<ValueView, Seq<PartView>> {
    match crate::execute::lists::given(args, 1, crate::execute::lists::as_index(args[1], "array start too large"@)) {
        Err(failure) => Err(failure),
        Ok(start) => {
            match crate::execute::lists::given(
                args,
                2,
                crate::execute::lists::as_index(args[2], "array end too large"@),
            ) {
                Err(failure) => Err(failure),
                Ok(end) => {
                    match crate::execute::lists::given(
                        args,
                        0,
                        crate::execute::lists::as_array(args[0], "array_slice expects an array"@),
                    ) {
                        Err(failure) => Err(failure),
                        Ok(values) => {
                            if start > end {
                                Ok(crate::execute::values::bounds_err(ty, start as int, values.len() as int))
                            } else {
                                if end > values.len() {
                                    Ok(crate::execute::values::bounds_err(ty, end as int, values.len() as int))
                                } else {
                                    Ok(
                                        crate::execute::values::ok_value(
                                            ty,
                                            ValueView::Array(values.subrange(start as int, end as int)),
                                        ),
                                    )
                                }
                            }
                        },
                    }
                },
            }
        },
    }
}

fn run_array_slice(ty: &TypeRef, args: &Vec<RuntimeValue>) -> (result: Result<RuntimeValue, Failure>)
    ensures
        crate::execute::lists::outcome(result) == array_slice(view::type_ref(*ty), view::values(args@)),
{
    assert(view::values(args@).len() == args@.len());
    if args.len() <= 1 {
        return Err(missing_argument());
    }
    let start = match value_index(&args[1], "array start too large") {
        Ok(value) => value,
        Err(failure) => return Err(failure),
    };
    if args.len() <= 2 {
        return Err(missing_argument());
    }
    let end = match value_index(&args[2], "array end too large") {
        Ok(value) => value,
        Err(failure) => return Err(failure),
    };
    let values = match value_array(&args[0], "array_slice expects an array") {
        Ok(value) => value,
        Err(failure) => return Err(failure),
    };
    if start > end {
        return Ok(collection_bounds_err(ty, start, values.len()));
    }
    if end > values.len() {
        return Ok(collection_bounds_err(ty, end, values.len()));
    }
    Ok(result_ok(ty, RuntimeValue::Array(slice(values, start, end))))
}

pub open spec fn array_append(ty: TypeView, args: Seq<ValueView>, limit: usize) -> Result<ValueView, Seq<PartView>> {
    match crate::execute::lists::given(
        args,
        0,
        crate::execute::lists::as_array(args[0], "array_append expects an array"@),
    ) {
        Err(failure) => Err(failure),
        Ok(values) => {
            if values.len() >= limit {
                Ok(crate::execute::values::collection_err(ty, "limit-exceeded"@))
            } else if args.len() <= 1 {
                Err(crate::execute::lists::no_argument())
            } else {
                Ok(crate::execute::values::ok_value(ty, ValueView::Array(values.push(args[1]))))
            }
        },
    }
}

fn run_array_append(ty: &TypeRef, args: &Vec<RuntimeValue>, limit: usize) -> (result: Result<RuntimeValue, Failure>)
    ensures
        crate::execute::lists::outcome(result) == array_append(view::type_ref(*ty), view::values(args@), limit),
{
    assert(view::values(args@).len() == args@.len());
    if args.len() == 0 {
        return Err(missing_argument());
    }
    let values = match value_array(&args[0], "array_append expects an array") {
        Ok(value) => value,
        Err(failure) => return Err(failure),
    };
    if values.len() >= limit {
        return Ok(collection_result_err(ty, "limit-exceeded"));
    }
    if args.len() <= 1 {
        return Err(missing_argument());
    }
    Ok(result_ok(ty, RuntimeValue::Array(with_last(values, &args[1]))))
}

pub open spec fn array_insert(ty: TypeView, args: Seq<ValueView>, limit: usize) -> Result<ValueView, Seq<PartView>> {
    match crate::execute::lists::given(args, 1, crate::execute::lists::as_index(args[1], "array index too large"@)) {
        Err(failure) => Err(failure),
        Ok(index) => {
            match crate::execute::lists::given(
                args,
                0,
                crate::execute::lists::as_array(args[0], "array_insert expects an array"@),
            ) {
                Err(failure) => Err(failure),
                Ok(values) => {
                    if index > values.len() {
                        Ok(crate::execute::values::bounds_err(ty, index as int, values.len() as int))
                    } else {
                        if values.len() >= limit {
                            Ok(crate::execute::values::collection_err(ty, "limit-exceeded"@))
                        } else if args.len() <= 2 {
                            Err(crate::execute::lists::no_argument())
                        } else {
                            Ok(
                                crate::execute::values::ok_value(
                                    ty,
                                    ValueView::Array(values.insert(index as int, args[2])),
                                ),
                            )
                        }
                    }
                },
            }
        },
    }
}

fn run_array_insert(ty: &TypeRef, args: &Vec<RuntimeValue>, limit: usize) -> (result: Result<RuntimeValue, Failure>)
    ensures
        crate::execute::lists::outcome(result) == array_insert(view::type_ref(*ty), view::values(args@), limit),
{
    assert(view::values(args@).len() == args@.len());
    if args.len() <= 1 {
        return Err(missing_argument());
    }
    let index = match value_index(&args[1], "array index too large") {
        Ok(value) => value,
        Err(failure) => return Err(failure),
    };
    let values = match value_array(&args[0], "array_insert expects an array") {
        Ok(value) => value,
        Err(failure) => return Err(failure),
    };
    if index > values.len() {
        return Ok(collection_bounds_err(ty, index, values.len()));
    }
    if values.len() >= limit {
        return Ok(collection_result_err(ty, "limit-exceeded"));
    }
    if args.len() <= 2 {
        return Err(missing_argument());
    }
    Ok(result_ok(ty, RuntimeValue::Array(with_inserted(values, index, &args[2]))))
}

pub open spec fn array_remove(ty: TypeView, args: Seq<ValueView>) -> Result<ValueView, Seq<PartView>> {
    match crate::execute::lists::given(args, 1, crate::execute::lists::as_index(args[1], "array index too large"@)) {
        Err(failure) => Err(failure),
        Ok(index) => {
            match crate::execute::lists::given(
                args,
                0,
                crate::execute::lists::as_array(args[0], "array_remove expects an array"@),
            ) {
                Err(failure) => Err(failure),
                Ok(values) => {
                    if index >= values.len() {
                        Ok(crate::execute::values::bounds_err(ty, index as int, values.len() as int))
                    } else {
                        Ok(
                            crate::execute::values::ok_value(
                                ty,
                                ValueView::Record(
                                    seq![
                                        crate::execute::values::field("removed"@, values[index as int]),
                                        crate::execute::values::field(
                                            "values"@,
                                            ValueView::Array(values.remove(index as int)),
                                        ),
                                    ],
                                ),
                            ),
                        )
                    }
                },
            }
        },
    }
}

fn run_array_remove(ty: &TypeRef, args: &Vec<RuntimeValue>) -> (result: Result<RuntimeValue, Failure>)
    ensures
        crate::execute::lists::outcome(result) == array_remove(view::type_ref(*ty), view::values(args@)),
{
    assert(view::values(args@).len() == args@.len());
    if args.len() <= 1 {
        return Err(missing_argument());
    }
    let index = match value_index(&args[1], "array index too large") {
        Ok(value) => value,
        Err(failure) => return Err(failure),
    };
    let values = match value_array(&args[0], "array_remove expects an array") {
        Ok(value) => value,
        Err(failure) => return Err(failure),
    };
    if index >= values.len() {
        return Ok(collection_bounds_err(ty, index, values.len()));
    }
    Ok(
        result_ok(
            ty,
            record_two(
                "removed",
                copy::value(&values[index]),
                "values",
                RuntimeValue::Array(without_item(values, index)),
            ),
        ),
    )
}

pub open spec fn array_contains(args: Seq<ValueView>, cells: Seq<ValueView>) -> Result<ValueView, Seq<PartView>> {
    match crate::execute::lists::given(
        args,
        0,
        crate::execute::lists::as_array(args[0], "array_contains expects an array"@),
    ) {
        Err(failure) => Err(failure),
        Ok(values) => {
            if values.len() == 0 {
                Ok(ValueView::Bool(false))
            } else if args.len() <= 1 {
                Err(crate::execute::lists::no_argument())
            } else {
                Ok(ValueView::Bool(crate::execute::lists::has_value(values, args[1], cells)))
            }
        },
    }
}

fn run_array_contains(args: &Vec<RuntimeValue>, cells: &Vec<RuntimeValue>) -> (result: Result<RuntimeValue, Failure>)
    ensures
        crate::execute::lists::outcome(result) == array_contains(view::values(args@), view::values(cells@)),
{
    assert(view::values(args@).len() == args@.len());
    if args.len() == 0 {
        return Err(missing_argument());
    }
    let values = match value_array(&args[0], "array_contains expects an array") {
        Ok(value) => value,
        Err(failure) => return Err(failure),
    };
    assert(view::values(values@).len() == values@.len());
    if values.len() == 0 {
        return Ok(RuntimeValue::Bool(false));
    }
    if args.len() <= 1 {
        return Err(missing_argument());
    }
    Ok(RuntimeValue::Bool(contains_value(values, &args[1], cells)))
}

pub open spec fn map_len(args: Seq<ValueView>) -> Result<ValueView, Seq<PartView>> {
    match crate::execute::lists::given(args, 0, crate::execute::lists::mapping_length(args[0])) {
        Err(failure) => Err(failure),
        Ok(size) => {
            Ok(crate::execute::lists::count_value(size as nat))
        },
    }
}

fn run_map_len(args: &Vec<RuntimeValue>) -> (result: Result<RuntimeValue, Failure>)
    ensures
        crate::execute::lists::outcome(result) == map_len(view::values(args@)),
{
    assert(view::values(args@).len() == args@.len());
    if args.len() == 0 {
        return Err(missing_argument());
    }
    let size = match value_mapping_length(&args[0]) {
        Ok(value) => value,
        Err(failure) => return Err(failure),
    };
    Ok(count(size))
}

pub open spec fn map_get(ty: TypeView, args: Seq<ValueView>) -> Result<ValueView, Seq<PartView>> {
    match crate::execute::lists::given(args, 1, crate::execute::values::as_text(args[1])) {
        Err(failure) => Err(failure),
        Ok(key) => {
            match crate::execute::lists::given(
                args,
                0,
                crate::execute::lists::as_mapping(args[0], "map_get expects a map"@),
            ) {
                Err(failure) => Err(failure),
                Ok(pairs) => {
                    Ok(crate::execute::values::option_of(ty, crate::execute::lists::key_value(pairs, key)))
                },
            }
        },
    }
}

fn run_map_get(ty: &TypeRef, args: &Vec<RuntimeValue>) -> (result: Result<RuntimeValue, Failure>)
    ensures
        crate::execute::lists::outcome(result) == map_get(view::type_ref(*ty), view::values(args@)),
{
    assert(view::values(args@).len() == args@.len());
    if args.len() <= 1 {
        return Err(missing_argument());
    }
    let key = match value_str(&args[1]) {
        Ok(value) => value,
        Err(failure) => return Err(failure),
    };
    let pairs = match value_mapping(&args[0], "map_get expects a map") {
        Ok(value) => value,
        Err(failure) => return Err(failure),
    };
    Ok(option_value(ty, lookup(pairs, key)))
}

pub open spec fn map_insert(ty: TypeView, args: Seq<ValueView>, limit: usize) -> Result<ValueView, Seq<PartView>> {
    match crate::execute::lists::given(args, 1, crate::execute::values::as_text(args[1])) {
        Err(failure) => Err(failure),
        Ok(key) => {
            match crate::execute::lists::given(
                args,
                0,
                crate::execute::lists::as_mapping(args[0], "map_insert expects a map"@),
            ) {
                Err(failure) => Err(failure),
                Ok(pairs) => {
                    if !crate::execute::lists::has_key(pairs, key) && pairs.len() >= limit {
                        Ok(crate::execute::values::collection_err(ty, "limit-exceeded"@))
                    } else if args.len() <= 2 {
                        Err(crate::execute::lists::no_argument())
                    } else {
                        Ok(
                            crate::execute::values::ok_value(
                                ty,
                                ValueView::Mapping(crate::execute::lists::with_key(pairs, key, args[2])),
                            ),
                        )
                    }
                },
            }
        },
    }
}

fn run_map_insert(ty: &TypeRef, args: &Vec<RuntimeValue>, limit: usize) -> (result: Result<RuntimeValue, Failure>)
    ensures
        crate::execute::lists::outcome(result) == map_insert(view::type_ref(*ty), view::values(args@), limit),
{
    assert(view::values(args@).len() == args@.len());
    if args.len() <= 1 {
        return Err(missing_argument());
    }
    let key = match value_str(&args[1]) {
        Ok(value) => value,
        Err(failure) => return Err(failure),
    };
    let pairs = match value_mapping(&args[0], "map_insert expects a map") {
        Ok(value) => value,
        Err(failure) => return Err(failure),
    };
    if !contains_key(pairs, key) && pairs.len() >= limit {
        return Ok(collection_result_err(ty, "limit-exceeded"));
    }
    if args.len() <= 2 {
        return Err(missing_argument());
    }
    Ok(result_ok(ty, RuntimeValue::Mapping(bind_key(pairs, key, &args[2]))))
}

pub open spec fn map_remove(ty: TypeView, args: Seq<ValueView>) -> Result<ValueView, Seq<PartView>> {
    match crate::execute::lists::given(args, 1, crate::execute::values::as_text(args[1])) {
        Err(failure) => Err(failure),
        Ok(key) => {
            match crate::execute::lists::given(
                args,
                0,
                crate::execute::lists::as_mapping(args[0], "map_remove expects a map"@),
            ) {
                Err(failure) => Err(failure),
                Ok(pairs) => {
                    Ok(crate::execute::values::option_of(ty, crate::execute::lists::without_key(pairs, key)))
                },
            }
        },
    }
}

fn run_map_remove(ty: &TypeRef, args: &Vec<RuntimeValue>) -> (result: Result<RuntimeValue, Failure>)
    ensures
        crate::execute::lists::outcome(result) == map_remove(view::type_ref(*ty), view::values(args@)),
{
    assert(view::values(args@).len() == args@.len());
    if args.len() <= 1 {
        return Err(missing_argument());
    }
    let key = match value_str(&args[1]) {
        Ok(value) => value,
        Err(failure) => return Err(failure),
    };
    let pairs = match value_mapping(&args[0], "map_remove expects a map") {
        Ok(value) => value,
        Err(failure) => return Err(failure),
    };
    Ok(option_value(ty, drop_key(pairs, key)))
}

pub open spec fn map_contains_key(args: Seq<ValueView>) -> Result<ValueView, Seq<PartView>> {
    match crate::execute::lists::given(args, 1, crate::execute::values::as_text(args[1])) {
        Err(failure) => Err(failure),
        Ok(key) => {
            match crate::execute::lists::given(
                args,
                0,
                crate::execute::lists::as_mapping(args[0], "map_contains_key expects a map"@),
            ) {
                Err(failure) => Err(failure),
                Ok(pairs) => {
                    Ok(ValueView::Bool(crate::execute::lists::has_key(pairs, key)))
                },
            }
        },
    }
}

fn run_map_contains_key(args: &Vec<RuntimeValue>) -> (result: Result<RuntimeValue, Failure>)
    ensures
        crate::execute::lists::outcome(result) == map_contains_key(view::values(args@)),
{
    assert(view::values(args@).len() == args@.len());
    if args.len() <= 1 {
        return Err(missing_argument());
    }
    let key = match value_str(&args[1]) {
        Ok(value) => value,
        Err(failure) => return Err(failure),
    };
    let pairs = match value_mapping(&args[0], "map_contains_key expects a map") {
        Ok(value) => value,
        Err(failure) => return Err(failure),
    };
    Ok(RuntimeValue::Bool(contains_key(pairs, key)))
}

/// What an array or map operation gives back; nothing for any other name.
pub open spec fn collections(name: Seq<char>, ty: TypeView, args: Seq<ValueView>, limit: usize, cells: Seq<ValueView>) -> Option<Result<ValueView, Seq<PartView>>> {
    if name == "array_len"@ {
        Some(array_len(args))
    } else if name == "array_get"@ {
        Some(array_get(ty, args))
    } else if name == "array_set"@ {
        Some(array_set(ty, args))
    } else if name == "array_slice"@ {
        Some(array_slice(ty, args))
    } else if name == "array_append"@ {
        Some(array_append(ty, args, limit))
    } else if name == "array_insert"@ {
        Some(array_insert(ty, args, limit))
    } else if name == "array_remove"@ {
        Some(array_remove(ty, args))
    } else if name == "array_contains"@ {
        Some(array_contains(args, cells))
    } else if name == "map_len"@ {
        Some(map_len(args))
    } else if name == "map_get"@ {
        Some(map_get(ty, args))
    } else if name == "map_insert"@ {
        Some(map_insert(ty, args, limit))
    } else if name == "map_remove"@ {
        Some(map_remove(ty, args))
    } else if name == "map_contains_key"@ {
        Some(map_contains_key(args))
    } else {
        None
    }
}

pub(crate) fn run_collections(
    name: &str,
    ty: &TypeRef,
    args: &Vec<RuntimeValue>,
    limit: usize,
    cells: &Vec<RuntimeValue>,
) -> (result: Option<Result<RuntimeValue, Failure>>)
    ensures
        match result {
            Some(result) => collections(
                name@,
                view::type_ref(*ty),
                view::values(args@),
                limit,
                view::values(cells@),
            ) == Some(crate::execute::lists::outcome(result)),
            None => collections(name@, view::type_ref(*ty), view::values(args@), limit, view::values(cells@)) is None,
        },
{
    assert(view::values(args@).len() == args@.len());
    if same_text(name, "array_len") {
        Some(run_array_len(args))
    } else if same_text(name, "array_get") {
        Some(run_array_get(ty, args))
    } else if same_text(name, "array_set") {
        Some(run_array_set(ty, args))
    } else if same_text(name, "array_slice") {
        Some(run_array_slice(ty, args))
    } else if same_text(name, "array_append") {
        Some(run_array_append(ty, args, limit))
    } else if same_text(name, "array_insert") {
        Some(run_array_insert(ty, args, limit))
    } else if same_text(name, "array_remove") {
        Some(run_array_remove(ty, args))
    } else if same_text(name, "array_contains") {
        Some(run_array_contains(args, cells))
    } else if same_text(name, "map_len") {
        Some(run_map_len(args))
    } else if same_text(name, "map_get") {
        Some(run_map_get(ty, args))
    } else if same_text(name, "map_insert") {
        Some(run_map_insert(ty, args, limit))
    } else if same_text(name, "map_remove") {
        Some(run_map_remove(ty, args))
    } else if same_text(name, "map_contains_key") {
        Some(run_map_contains_key(args))
    } else {
        None
    }
}

} // verus!
