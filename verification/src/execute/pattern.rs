//! Matching values against patterns.
use vstd::prelude::*;
use crate::execute::bindings::{bind, duplicate, Bindings};
use crate::execute::lists::get_field;
use crate::execute::values::{runtime_value_eq, same_type, untyped};
use crate::lowered::copy;
use crate::lowered::ir::{FieldPattern, FieldValue, ImplKey, Pattern, RuntimeValue, TypeRef};
use crate::lowered::view::{self, FieldPatternView, FieldValueView, ImplKeyView, PatternView, TypeView, ValueView};
use crate::text::{characters, same_text, text_of};

verus! {

/// The place behind the last dot at or before `index`.
pub open spec fn after_dot(text: Seq<char>, index: int) -> int
    decreases index,
{
    if index <= 0 || index > text.len() {
        0
    } else if text[index - 1] == '.' {
        index
    } else {
        after_dot(text, index - 1)
    }
}

/// A name without the path in front of it.
pub open spec fn last_part(name: Seq<char>) -> Seq<char> {
    name.subrange(after_dot(name, name.len() as int), name.len() as int)
}

pub fn strip_type_enum_suffix(name: &str) -> (result: String)
    ensures
        result@ == last_part(name@),
{
    let letters = characters(name);
    let mut start: usize = letters.len();
    while start > 0 && letters[start - 1] != '.'
        invariant
            start <= letters.len(),
            letters@ == name@,
            after_dot(name@, name@.len() as int) == after_dot(name@, start as int),
        decreases start,
    {
        start -= 1;
    }
    text_of(&letters, start, letters.len())
}

/// The name of a nominal type.
pub open spec fn nominal(ty: TypeView) -> Option<Seq<char>> {
    match ty {
        TypeView::Named(name) => Some(name),
        TypeView::Instantiated { base, .. } => Some(base),
        _ => None,
    }
}

fn nominal_name(ty: &TypeRef) -> (result: Option<&String>)
    ensures
        match result {
            Some(name) => nominal(view::type_ref(*ty)) == Some(name@),
            None => nominal(view::type_ref(*ty)) is None,
        },
{
    match ty {
        TypeRef::Named(name) => Some(name),
        TypeRef::Instantiated { base, .. } => Some(base),
        _ => None,
    }
}

/// Whether one of the implementations is of `interface` for `implementing`.
pub open spec fn implements(impls: Seq<ImplKeyView>, implementing: Seq<char>, interface: Seq<char>) -> bool {
    exists|i: int|
        0 <= i < impls.len() && (#[trigger] impls[i]).implementing_type == implementing && impls[i].interface
            == interface
}

fn has_impl(impls: &Vec<ImplKey>, implementing: &str, interface: &str) -> (result: bool)
    ensures
        result == implements(view::impl_keys(impls@), implementing@, interface@),
{
    let ghost all = view::impl_keys(impls@);
    let mut i: usize = 0;
    while i < impls.len()
        invariant
            i <= impls.len(),
            all == view::impl_keys(impls@),
            forall|k: int|
                0 <= k < i ==> !((#[trigger] all[k]).implementing_type == implementing@ && all[k].interface
                    == interface@),
        decreases impls.len() - i,
    {
        assert(all[i as int] == view::impl_key(impls@[i as int]));
        if same_text(impls[i].implementing_type.as_str(), implementing) && same_text(
            impls[i].interface.as_str(),
            interface,
        ) {
            return true;
        }
        i += 1;
    }
    false
}

/// What matching depends on besides the value: the known implementations and
/// the contents of places.
pub struct MatchContext {
    pub impls: Seq<ImplKeyView>,
    pub cells: Seq<ValueView>,
}

pub open spec fn interface_matches(interface: TypeView, value: ValueView, impls: Seq<ImplKeyView>) -> bool {
    match value {
        ValueView::Typed { type_ref, .. } => match (nominal(type_ref), nominal(interface)) {
            (Some(implementing), Some(name)) => implements(impls, implementing, name),
            _ => false,
        },
        _ => false,
    }
}

/// Whether a value matches a pattern, and the variables in scope after the try.
pub open spec fn matched(
    pattern: PatternView,
    value: ValueView,
    context: MatchContext,
    env: Map<Seq<char>, ValueView>,
) -> (bool, Map<Seq<char>, ValueView>)
    decreases pattern, 0int,
{
    let inner = crate::execute::values::untagged(value);
    match pattern {
        PatternView::Wildcard => (true, env),
        PatternView::Bind(name) => (true, env.insert(name, inner)),
        PatternView::Literal(expected) => (
            crate::execute::values::matches_value(expected, value, context.cells),
            env,
        ),
        PatternView::Enum { enum_key, tag, payload } => match inner {
            ValueView::Enum { enum_key: actual_key, tag: actual_tag, payload: actual } => if last_part(actual_key)
                != last_part(enum_key) || actual_tag != tag {
                (false, env)
            } else {
                match (payload, actual) {
                    (None, None) => (true, env),
                    (None, Some(held)) => (*held is Void, env),
                    (Some(part), Some(held)) => matched(*part, *held, context, env),
                    _ => (false, env),
                }
            },
            _ => (false, env),
        },
        PatternView::Record(fields) => match inner {
            ValueView::Record(actual) => matched_fields(fields, 0, actual, context, env),
            _ => (false, env),
        },
        PatternView::Tuple(items) => match inner {
            ValueView::Tuple(actual) => if actual.len() != items.len() {
                (false, env)
            } else {
                matched_items(items, 0, actual, context, env)
            },
            _ => (false, env),
        },
        PatternView::Array(items) => match inner {
            ValueView::Array(actual) => if actual.len() != items.len() {
                (false, env)
            } else {
                matched_items(items, 0, actual, context, env)
            },
            _ => (false, env),
        },
        PatternView::Mapping(entries) => match inner {
            ValueView::Mapping(actual) => matched_entries(entries, 0, actual, context, env),
            _ => (false, env),
        },
        PatternView::Newtype { type_ref, inner: part } => match value {
            ValueView::Typed { type_ref: actual, value: held } => if actual != type_ref {
                (false, env)
            } else {
                matched(*part, *held, context, env)
            },
            _ => (false, env),
        },
        PatternView::Interface(interface) => (interface_matches(interface, value, context.impls), env),
    }
}

pub open spec fn matched_fields(
    fields: Seq<FieldPatternView>,
    from: int,
    actual: Seq<FieldValueView>,
    context: MatchContext,
    env: Map<Seq<char>, ValueView>,
) -> (bool, Map<Seq<char>, ValueView>)
    decreases fields, fields.len() - from,
{
    if from < 0 || from >= fields.len() {
        (true, env)
    } else {
        match crate::execute::lists::field_value(actual, fields[from].name) {
            None => (false, env),
            Some(value) => {
                let (found, env) = matched(fields[from].pattern, value, context, env);
                if found {
                    matched_fields(fields, from + 1, actual, context, env)
                } else {
                    (false, env)
                }
            },
        }
    }
}

pub open spec fn matched_items(
    items: Seq<PatternView>,
    from: int,
    actual: Seq<ValueView>,
    context: MatchContext,
    env: Map<Seq<char>, ValueView>,
) -> (bool, Map<Seq<char>, ValueView>)
    decreases items, items.len() - from,
{
    if from < 0 || from >= items.len() {
        (true, env)
    } else {
        let (found, env) = matched(items[from], actual[from], context, env);
        if found {
            matched_items(items, from + 1, actual, context, env)
        } else {
            (false, env)
        }
    }
}

pub open spec fn matched_entries(
    entries: Seq<(PatternView, PatternView)>,
    from: int,
    actual: Seq<(ValueView, ValueView)>,
    context: MatchContext,
    env: Map<Seq<char>, ValueView>,
) -> (bool, Map<Seq<char>, ValueView>)
    decreases entries, entries.len() - from,
{
    if from < 0 || from >= entries.len() {
        (true, env)
    } else {
        match matched_entry(entries[from], actual, 0, context, env) {
            Some(env) => matched_entries(entries, from + 1, actual, context, env),
            None => (false, env),
        }
    }
}

/// The variables in scope after the first of `actual[next..]` that matches both
/// halves of an entry; a failed try leaves nothing behind.
pub open spec fn matched_entry(
    entry: (PatternView, PatternView),
    actual: Seq<(ValueView, ValueView)>,
    next: int,
    context: MatchContext,
    env: Map<Seq<char>, ValueView>,
) -> Option<Map<Seq<char>, ValueView>>
    decreases entry, actual.len() - next,
{
    if next < 0 || next >= actual.len() {
        None
    } else {
        let (found, key_env) = matched(entry.0, actual[next].0, context, env);
        let (both, key_env) = if found {
            matched(entry.1, actual[next].1, context, key_env)
        } else {
            (false, key_env)
        };
        if both {
            Some(key_env)
        } else {
            matched_entry(entry, actual, next + 1, context, env)
        }
    }
}

pub open spec fn context_of(impls: Seq<ImplKey>, cells: Seq<RuntimeValue>) -> MatchContext {
    MatchContext { impls: view::impl_keys(impls), cells: view::values(cells) }
}

fn is_void(value: &RuntimeValue) -> (result: bool)
    ensures
        result == (view::value(*value) is Void),
{
    matches!(value, RuntimeValue::Void)
}

/// Tries to match `value`, binding the pattern's variables in `env`.
pub fn pattern_matches(
    pattern: &Pattern,
    value: &RuntimeValue,
    impls: &Vec<ImplKey>,
    cells: &Vec<RuntimeValue>,
    env: &mut Bindings,
) -> (found: bool)
    requires
        old(env).well_formed(),
    ensures
        final(env).well_formed(),
        (found, crate::execute::bindings::bound(*final(env))) == matched(
            view::pattern(*pattern),
            view::value(*value),
            context_of(impls@, cells@),
            crate::execute::bindings::bound(*old(env)),
        ),
    decreases pattern, 0int,
{
    match pattern {
        Pattern::Wildcard => true,
        Pattern::Bind(name) => {
            bind(env, name.as_str(), copy::value(untyped(value)));
            true
        }
        Pattern::Literal(expected) => runtime_value_eq(expected, value, cells),
        Pattern::Enum { enum_key, tag, payload } => match untyped(value) {
            RuntimeValue::Enum { enum_key: actual_key, tag: actual_tag, payload: actual } => {
                let left = strip_type_enum_suffix(actual_key.as_str());
                let right = strip_type_enum_suffix(enum_key.as_str());
                if !same_text(left.as_str(), right.as_str()) || !same_text(actual_tag.as_str(), tag.as_str()) {
                    return false;
                }
                match (payload, actual) {
                    (None, None) => true,
                    (None, Some(held)) => is_void(held),
                    (Some(part), Some(held)) => pattern_matches(part, held, impls, cells, env),
                    _ => false,
                }
            }
            _ => false,
        },
        Pattern::Record(fields) => match untyped(value) {
            RuntimeValue::Record(actual) => match_fields(fields, actual, impls, cells, env),
            _ => false,
        },
        Pattern::Tuple(items) => match untyped(value) {
            RuntimeValue::Tuple(actual) => {
                assert(view::values(actual@).len() == actual@.len());
                assert(view::patterns(items@).len() == items@.len());
                actual.len() == items.len() && match_items(items, actual, impls, cells, env)
            }
            _ => false,
        },
        Pattern::Array(items) => match untyped(value) {
            RuntimeValue::Array(actual) => {
                assert(view::values(actual@).len() == actual@.len());
                assert(view::patterns(items@).len() == items@.len());
                actual.len() == items.len() && match_items(items, actual, impls, cells, env)
            }
            _ => false,
        },
        Pattern::Mapping(entries) => match untyped(value) {
            RuntimeValue::Mapping(actual) => match_entries(entries, actual, impls, cells, env),
            _ => false,
        },
        Pattern::Newtype { type_ref, inner } => match value {
            RuntimeValue::Typed { type_ref: actual, value: held } => same_type(actual, type_ref) && pattern_matches(
                inner,
                held,
                impls,
                cells,
                env,
            ),
            _ => false,
        },
        Pattern::Interface(interface) => match value {
            RuntimeValue::Typed { type_ref, .. } => match (nominal_name(type_ref), nominal_name(interface)) {
                (Some(implementing), Some(name)) => has_impl(impls, implementing.as_str(), name.as_str()),
                _ => false,
            },
            _ => false,
        },
    }
}

fn match_fields(
    fields: &Vec<FieldPattern>,
    actual: &Vec<FieldValue>,
    impls: &Vec<ImplKey>,
    cells: &Vec<RuntimeValue>,
    env: &mut Bindings,
) -> (found: bool)
    requires
        old(env).well_formed(),
    ensures
        final(env).well_formed(),
        (found, crate::execute::bindings::bound(*final(env))) == matched_fields(
            view::field_patterns(fields@),
            0,
            view::field_values(actual@),
            context_of(impls@, cells@),
            crate::execute::bindings::bound(*old(env)),
        ),
    decreases fields, 0int,
{
    let ghost all = view::field_patterns(fields@);
    let ghost given = view::field_values(actual@);
    let ghost context = context_of(impls@, cells@);
    let ghost start = crate::execute::bindings::bound(*env);
    let mut i: usize = 0;
    while i < fields.len()
        invariant
            i <= fields.len(),
            all == view::field_patterns(fields@),
            given == view::field_values(actual@),
            context == context_of(impls@, cells@),
            env.well_formed(),
            start == crate::execute::bindings::bound(*old(env)),
            matched_fields(all, 0, given, context, start) == matched_fields(
                all,
                i as int,
                given,
                context,
                crate::execute::bindings::bound(*env),
            ),
        decreases fields.len() - i,
    {
        assert(all[i as int] == view::field_pattern(fields@[i as int]));
        match get_field(actual, fields[i].name.as_str()) {
            None => return false,
            Some(value) => {
                if !pattern_matches(&fields[i].pattern, value, impls, cells, env) {
                    return false;
                }
            }
        }
        i += 1;
    }
    true
}

fn match_items(
    items: &Vec<Pattern>,
    actual: &Vec<RuntimeValue>,
    impls: &Vec<ImplKey>,
    cells: &Vec<RuntimeValue>,
    env: &mut Bindings,
) -> (found: bool)
    requires
        old(env).well_formed(),
        items.len() == actual.len(),
    ensures
        final(env).well_formed(),
        (found, crate::execute::bindings::bound(*final(env))) == matched_items(
            view::patterns(items@),
            0,
            view::values(actual@),
            context_of(impls@, cells@),
            crate::execute::bindings::bound(*old(env)),
        ),
    decreases items, 0int,
{
    let ghost all = view::patterns(items@);
    let ghost given = view::values(actual@);
    let ghost context = context_of(impls@, cells@);
    let ghost start = crate::execute::bindings::bound(*env);
    let mut i: usize = 0;
    while i < items.len()
        invariant
            i <= items.len() == actual.len(),
            all == view::patterns(items@),
            given == view::values(actual@),
            context == context_of(impls@, cells@),
            env.well_formed(),
            start == crate::execute::bindings::bound(*old(env)),
            matched_items(all, 0, given, context, start) == matched_items(
                all,
                i as int,
                given,
                context,
                crate::execute::bindings::bound(*env),
            ),
        decreases items.len() - i,
    {
        assert(all[i as int] == view::pattern(items@[i as int]));
        assert(given[i as int] == view::value(actual@[i as int]));
        if !pattern_matches(&items[i], &actual[i], impls, cells, env) {
            return false;
        }
        i += 1;
    }
    true
}

fn match_entries(
    entries: &Vec<(Pattern, Pattern)>,
    actual: &Vec<(RuntimeValue, RuntimeValue)>,
    impls: &Vec<ImplKey>,
    cells: &Vec<RuntimeValue>,
    env: &mut Bindings,
) -> (found: bool)
    requires
        old(env).well_formed(),
    ensures
        final(env).well_formed(),
        (found, crate::execute::bindings::bound(*final(env))) == matched_entries(
            view::pattern_pairs(entries@),
            0,
            view::value_pairs(actual@),
            context_of(impls@, cells@),
            crate::execute::bindings::bound(*old(env)),
        ),
    decreases entries, 1int,
{
    let ghost all = view::pattern_pairs(entries@);
    let ghost given = view::value_pairs(actual@);
    let ghost context = context_of(impls@, cells@);
    let ghost start = crate::execute::bindings::bound(*env);
    let mut i: usize = 0;
    while i < entries.len()
        invariant
            i <= entries.len(),
            all == view::pattern_pairs(entries@),
            given == view::value_pairs(actual@),
            context == context_of(impls@, cells@),
            env.well_formed(),
            start == crate::execute::bindings::bound(*old(env)),
            matched_entries(all, 0, given, context, start) == matched_entries(
                all,
                i as int,
                given,
                context,
                crate::execute::bindings::bound(*env),
            ),
        decreases entries.len() - i,
    {
        assert(all[i as int] == (view::pattern(entries@[i as int].0), view::pattern(entries@[i as int].1)));
        match match_entry(&entries[i], actual, impls, cells, env) {
            Some(found) => {
                *env = found;
            }
            None => return false,
        }
        i += 1;
    }
    true
}

fn match_entry(
    entry: &(Pattern, Pattern),
    actual: &Vec<(RuntimeValue, RuntimeValue)>,
    impls: &Vec<ImplKey>,
    cells: &Vec<RuntimeValue>,
    env: &Bindings,
) -> (result: Option<Bindings>)
    requires
        env.well_formed(),
    ensures
        match result {
            Some(found) => found.well_formed() && matched_entry(
                (view::pattern(entry.0), view::pattern(entry.1)),
                view::value_pairs(actual@),
                0,
                context_of(impls@, cells@),
                crate::execute::bindings::bound(*env),
            ) == Some(crate::execute::bindings::bound(found)),
            None => matched_entry(
                (view::pattern(entry.0), view::pattern(entry.1)),
                view::value_pairs(actual@),
                0,
                context_of(impls@, cells@),
                crate::execute::bindings::bound(*env),
            ) is None,
        },
    decreases entry, 0int,
{
    let ghost wanted = (view::pattern(entry.0), view::pattern(entry.1));
    let ghost given = view::value_pairs(actual@);
    let ghost context = context_of(impls@, cells@);
    let ghost start = crate::execute::bindings::bound(*env);
    let mut j: usize = 0;
    while j < actual.len()
        invariant
            j <= actual.len(),
            wanted == (view::pattern(entry.0), view::pattern(entry.1)),
            given == view::value_pairs(actual@),
            context == context_of(impls@, cells@),
            env.well_formed(),
            start == crate::execute::bindings::bound(*env),
            matched_entry(wanted, given, 0, context, start) == matched_entry(wanted, given, j as int, context, start),
        decreases actual.len() - j,
    {
        assert(given[j as int] == (view::value(actual@[j as int].0), view::value(actual@[j as int].1)));
        let mut key_env = duplicate(env);
        if pattern_matches(&entry.0, &actual[j].0, impls, cells, &mut key_env) && pattern_matches(
            &entry.1,
            &actual[j].1,
            impls,
            cells,
            &mut key_env,
        ) {
            return Some(key_env);
        }
        j += 1;
    }
    None
}

} // verus!
