//! Helpers on lists of values.
use vstd::prelude::*;
use crate::execute::failure::{Failure, PartView};
use crate::execute::values::{runtime_value_eq, untyped, value_i64, value_str};
use crate::lowered::copy;
use crate::lowered::ir::{FieldValue, RuntimeValue};
use crate::lowered::view::{self, FieldValueView, ValueView};
use crate::text::same_text;

verus! {

/// A result as its contents: a value, or the parts of a message.
pub open spec fn outcome(result: Result<RuntimeValue, Failure>) -> Result<ValueView, Seq<PartView>> {
    match result {
        Ok(value) => Ok(view::value(value)),
        Err(failure) => Err(failure@),
    }
}

/// The message for a call that passes fewer arguments than the import reads.
pub open spec fn too_few(name: Seq<char>) -> Seq<PartView> {
    crate::execute::failure::text_failure("host import `"@ + name + "` is passed too few arguments"@)
}

pub fn too_few_arguments(name: &str) -> (failure: Failure)
    ensures
        failure@ == too_few(name@),
{
    let text = crate::text::concat_three("host import `", name, "` is passed too few arguments");
    Failure::text(text.as_str())
}

/// The message for a call that does not pass an argument that is read.
pub open spec fn no_argument() -> Seq<PartView> {
    crate::execute::failure::text_failure("host import is passed too few arguments"@)
}

pub fn missing_argument() -> (failure: Failure)
    ensures
        failure@ == no_argument(),
{
    Failure::text("host import is passed too few arguments")
}

/// What an argument reads as, where it is passed.
pub open spec fn given<T>(args: Seq<ValueView>, index: int, read: Result<T, Seq<PartView>>) -> Result<T, Seq<PartView>> {
    if index < args.len() {
        read
    } else {
        Err(no_argument())
    }
}

/// An integer argument that is used as an index.
pub open spec fn as_index(value: ValueView, message: Seq<char>) -> Result<usize, Seq<PartView>> {
    match crate::execute::values::as_int(value) {
        Err(failure) => Err(failure),
        Ok(number) => if 0 <= number <= usize::MAX {
            Ok(number as usize)
        } else {
            Err(crate::execute::failure::text_failure(message))
        },
    }
}

pub fn value_index(value: &RuntimeValue, message: &str) -> (result: Result<usize, Failure>)
    ensures
        match result {
            Ok(index) => as_index(view::value(*value), message@) == Ok::<usize, Seq<PartView>>(index),
            Err(failure) => as_index(view::value(*value), message@) == Err::<usize, Seq<PartView>>(failure@),
        },
{
    match value_i64(value) {
        Err(failure) => Err(failure),
        Ok(number) => {
            if number >= 0 && number as u64 <= usize::MAX as u64 {
                Ok(number as usize)
            } else {
                Err(Failure::text(message))
            }
        }
    }
}

/// An array argument.
pub open spec fn as_array(value: ValueView, message: Seq<char>) -> Result<Seq<ValueView>, Seq<PartView>> {
    match crate::execute::values::untagged(value) {
        ValueView::Array(items) => Ok(items),
        _ => Err(crate::execute::failure::text_failure(message)),
    }
}

pub fn value_array<'a>(value: &'a RuntimeValue, message: &str) -> (result: Result<&'a Vec<RuntimeValue>, Failure>)
    ensures
        match result {
            Ok(items) => as_array(view::value(*value), message@) == Ok::<Seq<ValueView>, Seq<PartView>>(
                view::values(items@),
            ),
            Err(failure) => as_array(view::value(*value), message@) == Err::<Seq<ValueView>, Seq<PartView>>(failure@),
        },
{
    match untyped(value) {
        RuntimeValue::Array(items) => Ok(items),
        _ => Err(Failure::text(message)),
    }
}

/// A map argument.
pub open spec fn as_mapping(value: ValueView, message: Seq<char>) -> Result<Seq<(ValueView, ValueView)>, Seq<PartView>> {
    match crate::execute::values::untagged(value) {
        ValueView::Mapping(pairs) => Ok(pairs),
        _ => Err(crate::execute::failure::text_failure(message)),
    }
}

pub fn value_mapping<'a>(value: &'a RuntimeValue, message: &str) -> (result: Result<
    &'a Vec<(RuntimeValue, RuntimeValue)>,
    Failure,
>)
    ensures
        match result {
            Ok(pairs) => as_mapping(view::value(*value), message@) == Ok::<
                Seq<(ValueView, ValueView)>,
                Seq<PartView>,
            >(view::value_pairs(pairs@)),
            Err(failure) => as_mapping(view::value(*value), message@) == Err::<
                Seq<(ValueView, ValueView)>,
                Seq<PartView>,
            >(failure@),
        },
{
    match untyped(value) {
        RuntimeValue::Mapping(pairs) => Ok(pairs),
        _ => Err(Failure::text(message)),
    }
}

/// The length of an array argument; the message shows any other value.
pub open spec fn array_length(value: ValueView) -> Result<nat, Seq<PartView>> {
    match crate::execute::values::untagged(value) {
        ValueView::Array(items) => Ok(items.len()),
        other => Err(crate::execute::failure::value_failure("array_len expects an array, got "@, other)),
    }
}

pub fn value_array_length(value: &RuntimeValue) -> (result: Result<usize, Failure>)
    ensures
        match result {
            Ok(count) => array_length(view::value(*value)) == Ok::<nat, Seq<PartView>>(count as nat),
            Err(failure) => array_length(view::value(*value)) == Err::<nat, Seq<PartView>>(failure@),
        },
{
    match untyped(value) {
        RuntimeValue::Array(items) => {
            assert(view::values(items@).len() == items@.len());
            Ok(items.len())
        }
        other => Err(Failure::about("array_len expects an array, got ", other)),
    }
}

/// The length of a map argument; the message shows any other value.
pub open spec fn mapping_length(value: ValueView) -> Result<nat, Seq<PartView>> {
    match crate::execute::values::untagged(value) {
        ValueView::Mapping(pairs) => Ok(pairs.len()),
        other => Err(crate::execute::failure::value_failure("map_len expects a map, got "@, other)),
    }
}

pub fn value_mapping_length(value: &RuntimeValue) -> (result: Result<usize, Failure>)
    ensures
        match result {
            Ok(count) => mapping_length(view::value(*value)) == Ok::<nat, Seq<PartView>>(count as nat),
            Err(failure) => mapping_length(view::value(*value)) == Err::<nat, Seq<PartView>>(failure@),
        },
{
    match untyped(value) {
        RuntimeValue::Mapping(pairs) => {
            assert(view::value_pairs(pairs@).len() == pairs@.len());
            Ok(pairs.len())
        }
        other => Err(Failure::about("map_len expects a map, got ", other)),
    }
}

/// A count as an integer value, the largest one standing for any larger count.
pub open spec fn count_value(count: nat) -> ValueView {
    ValueView::Int((if count <= i64::MAX {
        count as int
    } else {
        i64::MAX as int
    }) as i64)
}

pub fn count(value: usize) -> (result: RuntimeValue)
    ensures
        view::value(result) == count_value(value as nat),
{
    if value as u64 <= i64::MAX as u64 {
        RuntimeValue::Int(value as i64)
    } else {
        RuntimeValue::Int(i64::MAX)
    }
}

pub fn wide_count(value: u64) -> (result: RuntimeValue)
    ensures
        view::value(result) == count_value(value as nat),
{
    if value <= i64::MAX as u64 {
        RuntimeValue::Int(value as i64)
    } else {
        RuntimeValue::Int(i64::MAX)
    }
}

/// The item at an index, if there is one.
pub open spec fn item_at(items: Seq<ValueView>, index: usize) -> Option<ValueView> {
    if index < items.len() {
        Some(items[index as int])
    } else {
        None
    }
}

pub fn item(items: &Vec<RuntimeValue>, index: usize) -> (result: Option<RuntimeValue>)
    ensures
        crate::execute::values::payload_view(result) == item_at(view::values(items@), index),
{
    if index < items.len() {
        Some(copy::value(&items[index]))
    } else {
        None
    }
}

/// The items `from..to`.
pub fn slice(items: &Vec<RuntimeValue>, from: usize, to: usize) -> (result: Vec<RuntimeValue>)
    requires
        from <= to <= items.len(),
    ensures
        view::values(result@) == view::values(items@).subrange(from as int, to as int),
{
    let ghost all = view::values(items@);
    let mut done: Vec<RuntimeValue> = Vec::new();
    let mut i: usize = from;
    assert(view::values(done@) =~= all.subrange(from as int, from as int));
    while i < to
        invariant
            from <= i <= to <= items.len(),
            all == view::values(items@),
            view::values(done@) == all.subrange(from as int, i as int),
        decreases to - i,
    {
        let ghost before = done@;
        done.push(copy::value(&items[i]));
        proof {
            view::lemma_values_push(before, done@.last());
            assert(all.subrange(from as int, i + 1) =~= all.subrange(from as int, i as int).push(all[i as int]));
        }
        i += 1;
    }
    done
}

/// The items with another one at `index`.
pub fn with_item(items: &Vec<RuntimeValue>, index: usize, value: &RuntimeValue) -> (result: Vec<RuntimeValue>)
    requires
        index < items.len(),
    ensures
        view::values(result@) == view::values(items@).update(index as int, view::value(*value)),
{
    let mut next = copy::values(items);
    let ghost before = view::values(next@);
    next[index] = copy::value(value);
    assert(view::values(next@) =~= before.update(index as int, view::value(*value)));
    next
}

/// The items with one more behind them.
pub fn with_last(items: &Vec<RuntimeValue>, value: &RuntimeValue) -> (result: Vec<RuntimeValue>)
    ensures
        view::values(result@) == view::values(items@).push(view::value(*value)),
{
    let mut next = copy::values(items);
    let ghost before = next@;
    next.push(copy::value(value));
    proof {
        view::lemma_values_push(before, next@.last());
    }
    next
}

/// The items with one more at `index`.
pub fn with_inserted(items: &Vec<RuntimeValue>, index: usize, value: &RuntimeValue) -> (result: Vec<RuntimeValue>)
    requires
        index <= items.len(),
    ensures
        view::values(result@) == view::values(items@).insert(index as int, view::value(*value)),
{
    let mut next = copy::values(items);
    let ghost before = view::values(next@);
    next.insert(index, copy::value(value));
    assert(view::values(next@) =~= before.insert(index as int, view::value(*value)));
    next
}

/// The items without the one at `index`.
pub fn without_item(items: &Vec<RuntimeValue>, index: usize) -> (result: Vec<RuntimeValue>)
    requires
        index < items.len(),
    ensures
        view::values(result@) == view::values(items@).remove(index as int),
{
    let mut next = copy::values(items);
    let ghost before = view::values(next@);
    next.remove(index);
    assert(view::values(next@) =~= before.remove(index as int));
    next
}

/// All items of both lists.
pub fn concatenated(left: &Vec<RuntimeValue>, right: &Vec<RuntimeValue>) -> (result: Vec<RuntimeValue>)
    ensures
        view::values(result@) == view::values(left@) + view::values(right@),
{
    let mut joined = copy::values(left);
    let ghost first = view::values(left@);
    let ghost second = view::values(right@);
    let mut i: usize = 0;
    assert(first + second.take(0) =~= first);
    while i < right.len()
        invariant
            i <= right.len(),
            second == view::values(right@),
            view::values(joined@) == first + second.take(i as int),
        decreases right.len() - i,
    {
        let ghost before = joined@;
        joined.push(copy::value(&right[i]));
        proof {
            view::lemma_values_push(before, joined@.last());
            assert(second[i as int] == view::value(right@[i as int]));
            assert(first + second.take(i + 1) =~= (first + second.take(i as int)).push(second[i as int]));
        }
        i += 1;
    }
    assert(second.take(second.len() as int) =~= second);
    joined
}

/// Whether an item equals the value inside `wanted`'s type tag.
pub open spec fn has_value(items: Seq<ValueView>, wanted: ValueView, cells: Seq<ValueView>) -> bool {
    exists|i: int|
        0 <= i < items.len() && crate::execute::values::matches_value(#[trigger] items[i], wanted, cells)
}

pub fn contains_value(items: &Vec<RuntimeValue>, wanted: &RuntimeValue, cells: &Vec<RuntimeValue>) -> (result: bool)
    ensures
        result == has_value(view::values(items@), view::value(*wanted), view::values(cells@)),
{
    let ghost all = view::values(items@);
    let ghost store = view::values(cells@);
    let mut i: usize = 0;
    while i < items.len()
        invariant
            i <= items.len(),
            all == view::values(items@),
            store == view::values(cells@),
            forall|k: int|
                0 <= k < i ==> !crate::execute::values::matches_value(#[trigger] all[k], view::value(*wanted), store),
        decreases items.len() - i,
    {
        assert(all[i as int] == view::value(items@[i as int]));
        if runtime_value_eq(&items[i], wanted, cells) {
            return true;
        }
        i += 1;
    }
    false
}

/// The place of the first pair whose key reads as `key`, or the length.
pub open spec fn key_place(pairs: Seq<(ValueView, ValueView)>, from: int, key: Seq<char>) -> int
    decreases pairs.len() - from,
{
    if from < 0 || from >= pairs.len() {
        pairs.len() as int
    } else if crate::execute::values::as_text(pairs[from].0) == Ok::<Seq<char>, Seq<PartView>>(key) {
        from
    } else {
        key_place(pairs, from + 1, key)
    }
}

/// The place of `key`, if it is there.
pub open spec fn find_key(pairs: Seq<(ValueView, ValueView)>, key: Seq<char>) -> Option<int> {
    let place = key_place(pairs, 0, key);
    if place < pairs.len() {
        Some(place)
    } else {
        None
    }
}

fn position(pairs: &Vec<(RuntimeValue, RuntimeValue)>, key: &str) -> (result: Option<usize>)
    ensures
        match result {
            Some(place) => place < pairs.len() && find_key(view::value_pairs(pairs@), key@) == Some(place as int),
            None => find_key(view::value_pairs(pairs@), key@) is None,
        },
{
    let ghost all = view::value_pairs(pairs@);
    let mut i: usize = 0;
    while i < pairs.len()
        invariant
            i <= pairs.len(),
            all == view::value_pairs(pairs@),
            key_place(all, 0, key@) == key_place(all, i as int, key@),
        decreases pairs.len() - i,
    {
        assert(all[i as int] == (view::value(pairs@[i as int].0), view::value(pairs@[i as int].1)));
        match value_str(&pairs[i].0) {
            Ok(text) => {
                if same_text(text, key) {
                    return Some(i);
                }
            }
            Err(_) => {}
        }
        i += 1;
    }
    None
}

pub open spec fn has_key(pairs: Seq<(ValueView, ValueView)>, key: Seq<char>) -> bool {
    find_key(pairs, key) is Some
}

pub fn contains_key(pairs: &Vec<(RuntimeValue, RuntimeValue)>, key: &str) -> (result: bool)
    ensures
        result == has_key(view::value_pairs(pairs@), key@),
{
    position(pairs, key).is_some()
}

/// The value of a key, if it is there.
pub open spec fn key_value(pairs: Seq<(ValueView, ValueView)>, key: Seq<char>) -> Option<ValueView> {
    match find_key(pairs, key) {
        Some(place) => Some(pairs[place].1),
        None => None,
    }
}

pub fn lookup(pairs: &Vec<(RuntimeValue, RuntimeValue)>, key: &str) -> (result: Option<RuntimeValue>)
    ensures
        crate::execute::values::payload_view(result) == key_value(view::value_pairs(pairs@), key@),
{
    match position(pairs, key) {
        Some(place) => Some(copy::value(&pairs[place].1)),
        None => None,
    }
}

/// The pairs with `key` bound to `value`: a key that is there keeps its place.
pub open spec fn with_key(pairs: Seq<(ValueView, ValueView)>, key: Seq<char>, value: ValueView) -> Seq<
    (ValueView, ValueView),
> {
    match find_key(pairs, key) {
        Some(place) => pairs.update(place, (pairs[place].0, value)),
        None => pairs.push((ValueView::Str(key), value)),
    }
}

pub fn bind_key(pairs: &Vec<(RuntimeValue, RuntimeValue)>, key: &str, value: &RuntimeValue) -> (result: Vec<
    (RuntimeValue, RuntimeValue),
>)
    ensures
        view::value_pairs(result@) == with_key(view::value_pairs(pairs@), key@, view::value(*value)),
{
    let place = position(pairs, key);
    let mut next = copy::value_pairs(pairs);
    let ghost before = view::value_pairs(next@);
    match place {
        Some(place) => {
            let first = copy::value(&pairs[place].0);
            next[place] = (first, copy::value(value));
            assert(
                view::value_pairs(next@) =~= before.update(
                    place as int,
                    (before[place as int].0, view::value(*value)),
                )
            );
        }
        None => {
            let ghost list = next@;
            next.push((RuntimeValue::Str(crate::text::owned(key)), copy::value(value)));
            proof {
                view::lemma_value_pairs_push(list, next@.last());
            }
        }
    }
    next
}

/// The pairs without `key`, if it is there.
pub open spec fn without_key(pairs: Seq<(ValueView, ValueView)>, key: Seq<char>) -> Option<ValueView> {
    match find_key(pairs, key) {
        Some(place) => Some(ValueView::Mapping(pairs.remove(place))),
        None => None,
    }
}

pub fn drop_key(pairs: &Vec<(RuntimeValue, RuntimeValue)>, key: &str) -> (result: Option<RuntimeValue>)
    ensures
        crate::execute::values::payload_view(result) == without_key(view::value_pairs(pairs@), key@),
{
    match position(pairs, key) {
        Some(place) => {
            let mut next = copy::value_pairs(pairs);
            let ghost before = view::value_pairs(next@);
            next.remove(place);
            assert(view::value_pairs(next@) =~= before.remove(place as int));
            Some(RuntimeValue::Mapping(next))
        }
        None => None,
    }
}

/// The place of a field, or the length.
pub open spec fn field_place(fields: Seq<FieldValueView>, from: int, name: Seq<char>) -> int
    decreases fields.len() - from,
{
    if from < 0 || from >= fields.len() {
        fields.len() as int
    } else if fields[from].name == name {
        from
    } else {
        field_place(fields, from + 1, name)
    }
}

/// The value of a field, if it is there.
pub open spec fn field_value(fields: Seq<FieldValueView>, name: Seq<char>) -> Option<ValueView> {
    let place = field_place(fields, 0, name);
    if 0 <= place < fields.len() {
        Some(fields[place].value)
    } else {
        None
    }
}

pub fn get_field<'a>(fields: &'a Vec<FieldValue>, name: &str) -> (result: Option<&'a RuntimeValue>)
    ensures
        match result {
            Some(value) => field_value(view::field_values(fields@), name@) == Some(view::value(*value)),
            None => field_value(view::field_values(fields@), name@) is None,
        },
{
    let ghost all = view::field_values(fields@);
    let mut i: usize = 0;
    while i < fields.len()
        invariant
            i <= fields.len(),
            all == view::field_values(fields@),
            field_place(all, 0, name@) == field_place(all, i as int, name@),
        decreases fields.len() - i,
    {
        assert(all[i as int] == view::field_value(fields@[i as int]));
        if same_text(fields[i].name.as_str(), name) {
            return Some(&fields[i].value);
        }
        i += 1;
    }
    None
}

/// The items read as text, or the first failure.
pub open spec fn texts_from(items: Seq<ValueView>, from: int, done: Seq<Seq<char>>) -> Result<
    Seq<Seq<char>>,
    Seq<PartView>,
>
    decreases items.len() - from,
{
    if from < 0 || from >= items.len() {
        Ok(done)
    } else {
        match crate::execute::values::as_text(items[from]) {
            Err(failure) => Err(failure),
            Ok(text) => texts_from(items, from + 1, done.push(text)),
        }
    }
}

pub open spec fn item_texts(items: Seq<ValueView>) -> Result<Seq<Seq<char>>, Seq<PartView>> {
    texts_from(items, 0, Seq::empty())
}

pub fn value_texts(items: &Vec<RuntimeValue>) -> (result: Result<Vec<String>, Failure>)
    ensures
        match result {
            Ok(texts) => item_texts(view::values(items@)) == Ok::<Seq<Seq<char>>, Seq<PartView>>(view::texts(texts@)),
            Err(failure) => item_texts(view::values(items@)) == Err::<Seq<Seq<char>>, Seq<PartView>>(failure@),
        },
{
    let ghost all = view::values(items@);
    let mut done: Vec<String> = Vec::new();
    let mut i: usize = 0;
    assert(view::texts(done@) =~= Seq::<Seq<char>>::empty());
    while i < items.len()
        invariant
            i <= items.len(),
            all == view::values(items@),
            item_texts(all) == texts_from(all, i as int, view::texts(done@)),
        decreases items.len() - i,
    {
        assert(all[i as int] == view::value(items@[i as int]));
        let ghost before = done@;
        match value_str(&items[i]) {
            Ok(text) => {
                done.push(crate::text::owned(text));
                proof {
                    view::lemma_texts_push(before, done@.last());
                }
            }
            Err(failure) => return Err(failure),
        }
        i += 1;
    }
    Ok(done)
}

/// A place as an optional count.
pub open spec fn count_option(place: Option<int>) -> Option<ValueView> {
    match place {
        Some(place) => Some(count_value(place as nat)),
        None => None,
    }
}

pub open spec fn place_view(place: Option<usize>) -> Option<int> {
    match place {
        Some(place) => Some(place as int),
        None => None,
    }
}

pub fn optional_count(place: Option<usize>) -> (result: Option<RuntimeValue>)
    ensures
        crate::execute::values::payload_view(result) == count_option(place_view(place)),
{
    match place {
        Some(place) => Some(count(place)),
        None => None,
    }
}

/// The byte that an item holds, if it holds one.
pub open spec fn byte_option(value: ValueView) -> Option<u8> {
    match crate::execute::values::as_byte(value) {
        Ok(byte) => Some(byte),
        Err(_) => None,
    }
}

/// Whether the items of `needle` hold the same bytes as those of `items` at `at`.
pub open spec fn bytes_stand_at(items: Seq<ValueView>, needle: Seq<ValueView>, at: int) -> bool {
    0 <= at && at + needle.len() <= items.len() && forall|k: int|
        0 <= k < needle.len() ==> byte_option(#[trigger] needle[k]) == byte_option(items[at + k])
}

/// The first place at or after `from` where the bytes of `needle` stand.
pub open spec fn find_bytes_from(items: Seq<ValueView>, needle: Seq<ValueView>, from: int) -> Option<int>
    decreases items.len() - from + 1,
{
    if from < 0 || from + needle.len() > items.len() {
        None
    } else if bytes_stand_at(items, needle, from) {
        Some(from)
    } else {
        find_bytes_from(items, needle, from + 1)
    }
}

pub open spec fn find_bytes(items: Seq<ValueView>, needle: Seq<ValueView>) -> Option<int> {
    find_bytes_from(items, needle, 0)
}

fn optional_byte(value: &RuntimeValue) -> (result: Option<u8>)
    ensures
        result == byte_option(view::value(*value)),
{
    match crate::execute::values::runtime_byte(value) {
        Ok(byte) => Some(byte),
        Err(_) => None,
    }
}

fn bytes_stand(items: &Vec<RuntimeValue>, needle: &Vec<RuntimeValue>, at: usize) -> (result: bool)
    requires
        at + needle.len() <= items.len(),
    ensures
        result == bytes_stand_at(view::values(items@), view::values(needle@), at as int),
{
    let ghost whole = view::values(items@);
    let ghost part = view::values(needle@);
    let mut k: usize = 0;
    while k < needle.len()
        invariant
            k <= needle.len(),
            at + needle.len() <= items.len(),
            whole == view::values(items@),
            part == view::values(needle@),
            forall|j: int| 0 <= j < k ==> byte_option(#[trigger] part[j]) == byte_option(whole[at + j]),
        decreases needle.len() - k,
    {
        assert(part[k as int] == view::value(needle@[k as int]));
        assert(whole[at + k] == view::value(items@[at + k]));
        if optional_byte(&needle[k]) != optional_byte(&items[at + k]) {
            return false;
        }
        k += 1;
    }
    true
}

/// The first place where the bytes of `needle` stand among those of `items`.
pub fn search_bytes(items: &Vec<RuntimeValue>, needle: &Vec<RuntimeValue>) -> (result: Option<usize>)
    ensures
        place_view(result) == find_bytes(view::values(items@), view::values(needle@)),
{
    let ghost whole = view::values(items@);
    let ghost part = view::values(needle@);
    if needle.len() > items.len() {
        return None;
    }
    let last: usize = items.len() - needle.len();
    let mut at: usize = 0;
    while at <= last
        invariant
            whole == view::values(items@),
            part == view::values(needle@),
            last + needle.len() == items.len(),
            find_bytes(whole, part) == find_bytes_from(whole, part, at as int),
        decreases last + 1 - at,
    {
        if bytes_stand(items, needle, at) {
            return Some(at);
        }
        if at == last {
            assert(find_bytes_from(whole, part, at + 1) is None);
            return None;
        }
        at += 1;
    }
    None
}

/// The items as bytes: nothing when an integer is no byte, a failure when an item
/// is no integer, whichever comes first.
pub open spec fn small_ints(items: Seq<ValueView>, from: int, done: Seq<u8>) -> Result<Option<Seq<u8>>, Seq<PartView>>
    decreases items.len() - from,
{
    if from < 0 || from >= items.len() {
        Ok(Some(done))
    } else {
        match crate::execute::values::as_int(items[from]) {
            Err(failure) => Err(failure),
            Ok(number) => if 0 <= number <= 255 {
                small_ints(items, from + 1, done.push(number as u8))
            } else {
                Ok(None)
            },
        }
    }
}

pub open spec fn checked_bytes(items: Seq<ValueView>) -> Result<Option<Seq<u8>>, Seq<PartView>> {
    small_ints(items, 0, Seq::empty())
}

pub open spec fn bytes_view(bytes: Option<Vec<u8>>) -> Option<Seq<u8>> {
    match bytes {
        Some(bytes) => Some(bytes@),
        None => None,
    }
}

pub fn check_bytes(items: &Vec<RuntimeValue>) -> (result: Result<Option<Vec<u8>>, Failure>)
    ensures
        match result {
            Ok(bytes) => checked_bytes(view::values(items@)) == Ok::<Option<Seq<u8>>, Seq<PartView>>(bytes_view(bytes)),
            Err(failure) => checked_bytes(view::values(items@)) == Err::<Option<Seq<u8>>, Seq<PartView>>(failure@),
        },
{
    let ghost all = view::values(items@);
    let mut done: Vec<u8> = Vec::new();
    let mut i: usize = 0;
    while i < items.len()
        invariant
            i <= items.len(),
            all == view::values(items@),
            checked_bytes(all) == small_ints(all, i as int, done@),
        decreases items.len() - i,
    {
        assert(all[i as int] == view::value(items@[i as int]));
        match value_i64(&items[i]) {
            Err(failure) => return Err(failure),
            Ok(number) => {
                if 0 <= number && number <= 255 {
                    done.push(number as u8);
                } else {
                    return Ok(None);
                }
            }
        }
        i += 1;
    }
    Ok(Some(done))
}

/// The byte at an index as a value; nothing behind the end.
pub open spec fn byte_at(items: Seq<ValueView>, index: usize) -> Result<Option<ValueView>, Seq<PartView>> {
    if index < items.len() {
        match crate::execute::values::as_byte(items[index as int]) {
            Ok(byte) => Ok(Some(ValueView::Int(byte as i64))),
            Err(failure) => Err(failure),
        }
    } else {
        Ok(None)
    }
}

pub fn get_byte(items: &Vec<RuntimeValue>, index: usize) -> (result: Result<Option<RuntimeValue>, Failure>)
    ensures
        match result {
            Ok(byte) => byte_at(view::values(items@), index) == Ok::<Option<ValueView>, Seq<PartView>>(
                crate::execute::values::payload_view(byte),
            ),
            Err(failure) => byte_at(view::values(items@), index) == Err::<Option<ValueView>, Seq<PartView>>(failure@),
        },
{
    if index < items.len() {
        assert(view::values(items@)[index as int] == view::value(items@[index as int]));
        match crate::execute::values::runtime_byte(&items[index]) {
            Ok(byte) => Ok(Some(RuntimeValue::Int(byte as i64))),
            Err(failure) => Err(failure),
        }
    } else {
        Ok(None)
    }
}

/// The character at an index as a text of its own.
pub open spec fn scalar_at(text: Seq<char>, index: usize) -> Option<ValueView> {
    if index < text.len() {
        Some(ValueView::Str(seq![text[index as int]]))
    } else {
        None
    }
}

pub fn get_scalar(text: &str, index: usize) -> (result: Option<RuntimeValue>)
    ensures
        crate::execute::values::payload_view(result) == scalar_at(text@, index),
{
    let letters = crate::text::characters(text);
    if index < letters.len() {
        let piece = crate::text::text_of(&letters, index, index + 1);
        assert(piece@ =~= seq![text@[index as int]]);
        Some(RuntimeValue::Str(piece))
    } else {
        None
    }
}

/// An optional text as an optional value.
pub open spec fn text_option(text: Option<Seq<char>>) -> Option<ValueView> {
    match text {
        Some(text) => Some(ValueView::Str(text)),
        None => None,
    }
}

pub fn optional_text(text: Option<String>) -> (result: Option<RuntimeValue>)
    ensures
        crate::execute::values::payload_view(result) == text_option(crate::execute::paths::view_option(text)),
{
    match text {
        Some(text) => Some(RuntimeValue::Str(text)),
        None => None,
    }
}

/// Whether one of the texts has more than `limit` bytes.
pub open spec fn some_longer(texts: Seq<Seq<char>>, limit: usize) -> bool {
    exists|i: int| 0 <= i < texts.len() && crate::execute::strings::byte_len(#[trigger] texts[i]) > limit
}

pub fn has_longer(texts: &Vec<String>, limit: usize) -> (result: bool)
    ensures
        result == some_longer(view::texts(texts@), limit),
{
    let ghost all = view::texts(texts@);
    let mut i: usize = 0;
    while i < texts.len()
        invariant
            i <= texts.len(),
            all == view::texts(texts@),
            forall|k: int| 0 <= k < i ==> crate::execute::strings::byte_len(#[trigger] all[k]) <= limit,
        decreases texts.len() - i,
    {
        if crate::execute::strings::utf8_len(texts[i].as_str()) > limit {
            assert(crate::execute::strings::byte_len(all[i as int]) > limit);
            return true;
        }
        i += 1;
    }
    false
}

} // verus!
