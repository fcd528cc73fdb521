//! Reading, comparing and building runtime values.
use vstd::prelude::*;
use crate::execute::failure::{Failure, PartView};
use crate::lowered::copy;
use crate::lowered::ir::{
    CapabilityType, CapabilityValue, EnumTag, FieldValue, PolicyDomain, PolicyGroup, PolicyScope, PolicyType,
    RuntimeValue, TypeRef,
};
use crate::lowered::view::{self, FieldValueView, PolicyTypeView, TypeView, ValueView};
use crate::text::{concat_three, owned, same_text};

verus! {

/// The value inside one type tag.
pub open spec fn untagged(value: ValueView) -> ValueView {
    match value {
        ValueView::Typed { value, .. } => *value,
        _ => value,
    }
}

pub fn untyped(value: &RuntimeValue) -> (result: &RuntimeValue)
    ensures
        view::value(*result) == untagged(view::value(*value)),
{
    match value {
        RuntimeValue::Typed { value, .. } => value,
        _ => value,
    }
}

/// The value inside all type tags.
pub open spec fn innermost(value: ValueView) -> ValueView
    decreases value,
{
    match value {
        ValueView::Typed { value, .. } => innermost(*value),
        _ => value,
    }
}

pub fn primitive_inner(value: &RuntimeValue) -> (result: &RuntimeValue)
    ensures
        view::value(*result) == innermost(view::value(*value)),
    decreases value,
{
    match value {
        RuntimeValue::Typed { value, .. } => primitive_inner(value),
        _ => value,
    }
}

// Equality.

/// Whether the bits are those of a number that is no number.
pub open spec fn is_nan(bits: u64) -> bool {
    bits % 0x8000_0000_0000_0000 > 0x7ff0_0000_0000_0000
}

/// Equality of floating-point numbers: no number that is no number equals
/// anything, and the two zeros are equal.
pub open spec fn float_equal(left: u64, right: u64) -> bool {
    !is_nan(left) && !is_nan(right) && (left == right || (left % 0x8000_0000_0000_0000 == 0 && right
        % 0x8000_0000_0000_0000 == 0))
}

/// Whether the bits are those of a number that is no number.
pub(crate) fn is_nan_bits(bits: u64) -> (result: bool)
    ensures
        result == is_nan(bits),
{
    bits % 0x8000_0000_0000_0000 > 0x7ff0_0000_0000_0000
}

pub fn float_eq(left: u64, right: u64) -> (result: bool)
    ensures
        result == float_equal(left, right),
{
    !is_nan_bits(left) && !is_nan_bits(right)
        && (left == right || (left % 0x8000_0000_0000_0000 == 0 && right % 0x8000_0000_0000_0000
        == 0))
}

/// Whether two values are equal. Records are equal field by field, by name. Places
/// are equal when what they hold is; at most `depth` places are followed.
pub open spec fn equal(a: ValueView, b: ValueView, cells: Seq<ValueView>, depth: nat) -> bool
    decreases depth, 1nat, a,
{
    match (a, b) {
        (ValueView::Void, ValueView::Void) => true,
        (ValueView::Bool(x), ValueView::Bool(y)) => x == y,
        (ValueView::Int(x), ValueView::Int(y)) => x == y,
        (ValueView::Float(x), ValueView::Float(y)) => float_equal(x, y),
        (ValueView::Str(x), ValueView::Str(y)) => x == y,
        (ValueView::Typed { type_ref: s, value: x }, ValueView::Typed { type_ref: t, value: y }) => s == t && equal(
            *x,
            *y,
            cells,
            depth,
        ),
        (
            ValueView::Enum { enum_key: k, tag: s, payload: x },
            ValueView::Enum { enum_key: l, tag: t, payload: y },
        ) => k == l && s == t && match (x, y) {
            (None, None) => true,
            (Some(x), Some(y)) => equal(*x, *y, cells, depth),
            _ => false,
        },
        (ValueView::Record(x), ValueView::Record(y)) => x.len() == y.len() && forall|i: int|
            0 <= i < x.len() ==> crate::execute::lists::field_value(y, (#[trigger] x[i]).name) is Some && equal(
                x[i].value,
                crate::execute::lists::field_value(y, x[i].name)->Some_0,
                cells,
                depth,
            ),
        (ValueView::Tuple(x), ValueView::Tuple(y)) => x.len() == y.len() && forall|i: int|
            0 <= i < x.len() ==> equal(#[trigger] x[i], y[i], cells, depth),
        (ValueView::Array(x), ValueView::Array(y)) => x.len() == y.len() && forall|i: int|
            0 <= i < x.len() ==> equal(#[trigger] x[i], y[i], cells, depth),
        (ValueView::Mapping(x), ValueView::Mapping(y)) => x.len() == y.len() && forall|i: int|
            0 <= i < x.len() ==> equal((#[trigger] x[i]).0, y[i].0, cells, depth) && equal(
                x[i].1,
                y[i].1,
                cells,
                depth,
            ),
        (
            ValueView::Range { start: p, end: q, step: r },
            ValueView::Range { start: s, end: t, step: u },
        ) => p == s && q == t && r == u,
        (ValueView::Mutable(x), ValueView::Mutable(y)) => equal_cells(x, y, cells, depth),
        (
            ValueView::Reference { cell: x, mutable: m },
            ValueView::Reference { cell: y, mutable: n },
        ) => m == n && equal_cells(x, y, cells, depth),
        (ValueView::Policy(x), ValueView::Policy(y)) => x == y,
        (ValueView::Capability(x), ValueView::Capability(y)) => x == y,
        (ValueView::HostHandle(x), ValueView::HostHandle(y)) => x == y,
        (ValueView::JoinHandle(x), ValueView::JoinHandle(y)) => x == y,
        _ => false,
    }
}

pub open spec fn equal_cells(x: u64, y: u64, cells: Seq<ValueView>, depth: nat) -> bool
    decreases depth, 0nat,
{
    depth > 0 && x < cells.len() && y < cells.len() && equal(
        cells[x as int],
        cells[y as int],
        cells,
        (depth - 1) as nat,
    )
}

/// Whether two scopes are the same.
pub(crate) fn same_scope(left: &PolicyScope, right: &PolicyScope) -> (result: bool)
    ensures
        result == (view::policy_scope(*left) == view::policy_scope(*right)),
{
    match (left, right) {
        (PolicyScope::Any, PolicyScope::Any) => true,
        (PolicyScope::Dir(x), PolicyScope::Dir(y)) => same_text(x.as_str(), y.as_str()),
        (PolicyScope::File(x), PolicyScope::File(y)) => same_text(x.as_str(), y.as_str()),
        (PolicyScope::Exact(x), PolicyScope::Exact(y)) => same_text(x.as_str(), y.as_str()),
        (PolicyScope::Prefix(x), PolicyScope::Prefix(y)) => same_text(x.as_str(), y.as_str()),
        _ => false,
    }
}

fn same_scopes(left: &Vec<PolicyScope>, right: &Vec<PolicyScope>) -> (result: bool)
    ensures
        result == (view::policy_scopes(left@) == view::policy_scopes(right@)),
{
    let ghost first = view::policy_scopes(left@);
    let ghost second = view::policy_scopes(right@);
    if left.len() != right.len() {
        assert(first.len() != second.len());
        return false;
    }
    let mut i: usize = 0;
    while i < left.len()
        invariant
            i <= left.len() == right.len(),
            first == view::policy_scopes(left@),
            second == view::policy_scopes(right@),
            forall|j: int| 0 <= j < i ==> first[j] == second[j],
        decreases left.len() - i,
    {
        assert(first[i as int] == view::policy_scope(left@[i as int]));
        assert(second[i as int] == view::policy_scope(right@[i as int]));
        if !same_scope(&left[i], &right[i]) {
            assert(first[i as int] != second[i as int]);
            return false;
        }
        i += 1;
    }
    assert(first =~= second);
    true
}

fn same_group(left: &PolicyGroup, right: &PolicyGroup) -> (result: bool)
    ensures
        result == (view::policy_group(*left) == view::policy_group(*right)),
{
    left.requirement == right.requirement && same_scopes(&left.scopes, &right.scopes)
}

fn same_groups(left: &Vec<PolicyGroup>, right: &Vec<PolicyGroup>) -> (result: bool)
    ensures
        result == (view::policy_groups(left@) == view::policy_groups(right@)),
{
    let ghost first = view::policy_groups(left@);
    let ghost second = view::policy_groups(right@);
    if left.len() != right.len() {
        assert(first.len() != second.len());
        return false;
    }
    let mut i: usize = 0;
    while i < left.len()
        invariant
            i <= left.len() == right.len(),
            first == view::policy_groups(left@),
            second == view::policy_groups(right@),
            forall|j: int| 0 <= j < i ==> first[j] == second[j],
        decreases left.len() - i,
    {
        assert(first[i as int] == view::policy_group(left@[i as int]));
        assert(second[i as int] == view::policy_group(right@[i as int]));
        if !same_group(&left[i], &right[i]) {
            assert(first[i as int] != second[i as int]);
            return false;
        }
        i += 1;
    }
    assert(first =~= second);
    true
}

fn same_domain(left: &PolicyDomain, right: &PolicyDomain) -> (result: bool)
    ensures
        result == (view::policy_domain(*left) == view::policy_domain(*right)),
{
    left.domain == right.domain && same_groups(&left.groups, &right.groups)
}

fn same_domains(left: &Vec<PolicyDomain>, right: &Vec<PolicyDomain>) -> (result: bool)
    ensures
        result == (view::policy_domains(left@) == view::policy_domains(right@)),
{
    let ghost first = view::policy_domains(left@);
    let ghost second = view::policy_domains(right@);
    if left.len() != right.len() {
        assert(first.len() != second.len());
        return false;
    }
    let mut i: usize = 0;
    while i < left.len()
        invariant
            i <= left.len() == right.len(),
            first == view::policy_domains(left@),
            second == view::policy_domains(right@),
            forall|j: int| 0 <= j < i ==> first[j] == second[j],
        decreases left.len() - i,
    {
        assert(first[i as int] == view::policy_domain(left@[i as int]));
        assert(second[i as int] == view::policy_domain(right@[i as int]));
        if !same_domain(&left[i], &right[i]) {
            assert(first[i as int] != second[i as int]);
            return false;
        }
        i += 1;
    }
    assert(first =~= second);
    true
}

fn same_policy(left: &PolicyType, right: &PolicyType) -> (result: bool)
    ensures
        result == (view::policy_type(*left) == view::policy_type(*right)),
{
    same_domains(&left.domains, &right.domains)
}

fn same_capability(left: &CapabilityType, right: &CapabilityType) -> (result: bool)
    ensures
        result == (view::capability_type(*left) == view::capability_type(*right)),
{
    left.domain == right.domain && same_groups(&left.groups, &right.groups)
}

fn same_capability_value(left: &CapabilityValue, right: &CapabilityValue) -> (result: bool)
    ensures
        result == (view::capability_value(*left) == view::capability_value(*right)),
{
    same_capability(&left.capability, &right.capability) && same_policy(&left.policy, &right.policy)
}

/// Whether two types are the same.
pub fn same_type(left: &TypeRef, right: &TypeRef) -> (result: bool)
    ensures
        result == (view::type_ref(*left) == view::type_ref(*right)),
    decreases left,
{
    match (left, right) {
        (TypeRef::Void, TypeRef::Void) => true,
        (TypeRef::Bool, TypeRef::Bool) => true,
        (TypeRef::Str, TypeRef::Str) => true,
        (TypeRef::Int8, TypeRef::Int8) => true,
        (TypeRef::Int16, TypeRef::Int16) => true,
        (TypeRef::Int32, TypeRef::Int32) => true,
        (TypeRef::Int64, TypeRef::Int64) => true,
        (TypeRef::UInt8, TypeRef::UInt8) => true,
        (TypeRef::UInt16, TypeRef::UInt16) => true,
        (TypeRef::UInt32, TypeRef::UInt32) => true,
        (TypeRef::UInt64, TypeRef::UInt64) => true,
        (TypeRef::Float32, TypeRef::Float32) => true,
        (TypeRef::Float64, TypeRef::Float64) => true,
        (TypeRef::Range, TypeRef::Range) => true,
        (TypeRef::Named(x), TypeRef::Named(y)) => same_text(x.as_str(), y.as_str()),
        (
            TypeRef::Instantiated { base: x, type_args: s },
            TypeRef::Instantiated { base: y, type_args: t },
        ) => same_text(x.as_str(), y.as_str()) && same_types(s, t),
        (TypeRef::Mutable(x), TypeRef::Mutable(y)) => same_type(x, y),
        (
            TypeRef::Reference { inner: x, mutable: m },
            TypeRef::Reference { inner: y, mutable: n },
        ) => *m == *n && same_type(x, y),
        (TypeRef::Enum(x), TypeRef::Enum(y)) => same_tags(x, y),
        (TypeRef::Policy(x), TypeRef::Policy(y)) => same_policy(x, y),
        (TypeRef::Capability(x), TypeRef::Capability(y)) => same_capability(x, y),
        _ => false,
    }
}

fn same_types(left: &Vec<TypeRef>, right: &Vec<TypeRef>) -> (result: bool)
    ensures
        result == (view::type_refs(left@) == view::type_refs(right@)),
    decreases left,
{
    let ghost first = view::type_refs(left@);
    let ghost second = view::type_refs(right@);
    if left.len() != right.len() {
        assert(first.len() != second.len());
        return false;
    }
    let mut i: usize = 0;
    while i < left.len()
        invariant
            i <= left.len() == right.len(),
            first == view::type_refs(left@),
            second == view::type_refs(right@),
            forall|j: int| 0 <= j < i ==> first[j] == second[j],
        decreases left.len() - i,
    {
        assert(first[i as int] == view::type_ref(left@[i as int]));
        assert(second[i as int] == view::type_ref(right@[i as int]));
        if !same_type(&left[i], &right[i]) {
            assert(first[i as int] != second[i as int]);
            return false;
        }
        i += 1;
    }
    assert(first =~= second);
    true
}

fn same_tag(left: &EnumTag, right: &EnumTag) -> (result: bool)
    ensures
        result == (view::enum_tag(*left) == view::enum_tag(*right)),
    decreases left,
{
    same_text(left.name.as_str(), right.name.as_str()) && match (&left.payload, &right.payload) {
        (None, None) => true,
        (Some(x), Some(y)) => same_type(x, y),
        _ => false,
    }
}

fn same_tags(left: &Vec<EnumTag>, right: &Vec<EnumTag>) -> (result: bool)
    ensures
        result == (view::enum_tags(left@) == view::enum_tags(right@)),
    decreases left,
{
    let ghost first = view::enum_tags(left@);
    let ghost second = view::enum_tags(right@);
    if left.len() != right.len() {
        assert(first.len() != second.len());
        return false;
    }
    let mut i: usize = 0;
    while i < left.len()
        invariant
            i <= left.len() == right.len(),
            first == view::enum_tags(left@),
            second == view::enum_tags(right@),
            forall|j: int| 0 <= j < i ==> first[j] == second[j],
        decreases left.len() - i,
    {
        assert(first[i as int] == view::enum_tag(left@[i as int]));
        assert(second[i as int] == view::enum_tag(right@[i as int]));
        if !same_tag(&left[i], &right[i]) {
            assert(first[i as int] != second[i as int]);
            return false;
        }
        i += 1;
    }
    assert(first =~= second);
    true
}

/// Whether two values are equal.
pub fn value_eq(a: &RuntimeValue, b: &RuntimeValue, cells: &Vec<RuntimeValue>, depth: usize) -> (result: bool)
    ensures
        result == equal(view::value(*a), view::value(*b), view::values(cells@), depth as nat),
    decreases depth, 1nat, a,
{
    match (a, b) {
        (RuntimeValue::Void, RuntimeValue::Void) => true,
        (RuntimeValue::Bool(x), RuntimeValue::Bool(y)) => *x == *y,
        (RuntimeValue::Int(x), RuntimeValue::Int(y)) => *x == *y,
        (RuntimeValue::Float(x), RuntimeValue::Float(y)) => float_eq(*x, *y),
        (RuntimeValue::Str(x), RuntimeValue::Str(y)) => same_text(x.as_str(), y.as_str()),
        (
            RuntimeValue::Typed { type_ref: s, value: x },
            RuntimeValue::Typed { type_ref: t, value: y },
        ) => same_type(s, t) && value_eq(x, y, cells, depth),
        (
            RuntimeValue::Enum { enum_key: k, tag: s, payload: x },
            RuntimeValue::Enum { enum_key: l, tag: t, payload: y },
        ) => same_text(k.as_str(), l.as_str()) && same_text(s.as_str(), t.as_str()) && match (x, y) {
            (None, None) => true,
            (Some(x), Some(y)) => value_eq(x, y, cells, depth),
            _ => false,
        },
        (RuntimeValue::Record(x), RuntimeValue::Record(y)) => fields_eq(x, y, cells, depth),
        (RuntimeValue::Tuple(x), RuntimeValue::Tuple(y)) => values_eq(x, y, cells, depth),
        (RuntimeValue::Array(x), RuntimeValue::Array(y)) => values_eq(x, y, cells, depth),
        (RuntimeValue::Mapping(x), RuntimeValue::Mapping(y)) => pairs_eq(x, y, cells, depth),
        (
            RuntimeValue::Range { start: p, end: q, step: r },
            RuntimeValue::Range { start: s, end: t, step: u },
        ) => *p == *s && *q == *t && *r == *u,
        (RuntimeValue::Mutable(x), RuntimeValue::Mutable(y)) => cells_eq(*x, *y, cells, depth),
        (
            RuntimeValue::Reference { cell: x, mutable: m },
            RuntimeValue::Reference { cell: y, mutable: n },
        ) => *m == *n && cells_eq(*x, *y, cells, depth),
        (RuntimeValue::Policy(x), RuntimeValue::Policy(y)) => same_policy(&x.policy, &y.policy),
        (RuntimeValue::Capability(x), RuntimeValue::Capability(y)) => same_capability_value(x, y),
        (RuntimeValue::HostHandle(x), RuntimeValue::HostHandle(y)) => *x == *y,
        (RuntimeValue::JoinHandle(x), RuntimeValue::JoinHandle(y)) => *x == *y,
        _ => false,
    }
}

fn cells_eq(x: u64, y: u64, cells: &Vec<RuntimeValue>, depth: usize) -> (result: bool)
    ensures
        result == equal_cells(x, y, view::values(cells@), depth as nat),
    decreases depth, 0nat,
{
    let count: u64 = cells.len() as u64;
    if depth == 0 || x >= count || y >= count {
        return false;
    }
    value_eq(&cells[x as usize], &cells[y as usize], cells, depth - 1)
}

fn values_eq(x: &Vec<RuntimeValue>, y: &Vec<RuntimeValue>, cells: &Vec<RuntimeValue>, depth: usize) -> (result: bool)
    ensures
        result == ({
            let (first, second) = (view::values(x@), view::values(y@));
            first.len() == second.len() && forall|i: int| 0 <= i < first.len() ==> equal(
                #[trigger] first[i],
                second[i],
                view::values(cells@),
                depth as nat,
            )
        }),
    decreases depth, 1nat, x,
{
    let ghost first = view::values(x@);
    let ghost second = view::values(y@);
    let ghost store = view::values(cells@);
    if x.len() != y.len() {
        return false;
    }
    let mut i: usize = 0;
    while i < x.len()
        invariant
            i <= x.len() == y.len(),
            first == view::values(x@),
            second == view::values(y@),
            store == view::values(cells@),
            forall|j: int| 0 <= j < i ==> equal(#[trigger] first[j], second[j], store, depth as nat),
        decreases x.len() - i,
    {
        assert(first[i as int] == view::value(x@[i as int]));
        assert(second[i as int] == view::value(y@[i as int]));
        if !(value_eq(&x[i], &y[i], cells, depth)) {
            return false;
        }
        i += 1;
    }
    true
}

fn fields_eq(x: &Vec<FieldValue>, y: &Vec<FieldValue>, cells: &Vec<RuntimeValue>, depth: usize) -> (result: bool)
    ensures
        result == ({
            let (first, second) = (view::field_values(x@), view::field_values(y@));
            first.len() == second.len() && forall|i: int|
                0 <= i < first.len() ==> crate::execute::lists::field_value(second, (#[trigger] first[i]).name) is Some
                    && equal(
                    first[i].value,
                    crate::execute::lists::field_value(second, first[i].name)->Some_0,
                    view::values(cells@),
                    depth as nat,
                )
        }),
    decreases depth, 1nat, x,
{
    let ghost first = view::field_values(x@);
    let ghost second = view::field_values(y@);
    let ghost store = view::values(cells@);
    if x.len() != y.len() {
        return false;
    }
    let mut i: usize = 0;
    while i < x.len()
        invariant
            i <= x.len() == y.len(),
            first == view::field_values(x@),
            second == view::field_values(y@),
            store == view::values(cells@),
            forall|j: int|
                0 <= j < i ==> crate::execute::lists::field_value(second, (#[trigger] first[j]).name) is Some && equal(
                    first[j].value,
                    crate::execute::lists::field_value(second, first[j].name)->Some_0,
                    store,
                    depth as nat,
                ),
        decreases x.len() - i,
    {
        assert(first[i as int] == view::field_value(x@[i as int]));
        match crate::execute::lists::get_field(y, x[i].name.as_str()) {
            Some(other) => if !value_eq(&x[i].value, other, cells, depth) {
                return false;
            },
            None => return false,
        }
        i += 1;
    }
    true
}

fn pairs_eq(
    x: &Vec<(RuntimeValue, RuntimeValue)>,
    y: &Vec<(RuntimeValue, RuntimeValue)>,
    cells: &Vec<RuntimeValue>,
    depth: usize,
) -> (result: bool)
    ensures
        result == ({
            let (first, second) = (view::value_pairs(x@), view::value_pairs(y@));
            first.len() == second.len() && forall|i: int| 0 <= i < first.len() ==> equal(
                (#[trigger] first[i]).0,
                second[i].0,
                view::values(cells@),
                depth as nat,
            ) && equal(first[i].1, second[i].1, view::values(cells@), depth as nat)
        }),
    decreases depth, 1nat, x,
{
    let ghost first = view::value_pairs(x@);
    let ghost second = view::value_pairs(y@);
    let ghost store = view::values(cells@);
    if x.len() != y.len() {
        return false;
    }
    let mut i: usize = 0;
    while i < x.len()
        invariant
            i <= x.len() == y.len(),
            first == view::value_pairs(x@),
            second == view::value_pairs(y@),
            store == view::values(cells@),
            forall|j: int| 0 <= j < i ==> equal(
                (#[trigger] first[j]).0,
                second[j].0,
                store,
                depth as nat,
            ) && equal(first[j].1, second[j].1, store, depth as nat),
        decreases x.len() - i,
    {
        assert(first[i as int] == (view::value(x@[i as int].0), view::value(x@[i as int].1)));
        assert(second[i as int] == (view::value(y@[i as int].0), view::value(y@[i as int].1)));
        if !(value_eq(&x[i].0, &y[i].0, cells, depth) && value_eq(&x[i].1, &y[i].1, cells, depth)) {
            return false;
        }
        i += 1;
    }
    true
}

/// Whether `expected` is the value inside `actual`'s type tag.
pub open spec fn matches_value(expected: ValueView, actual: ValueView, cells: Seq<ValueView>) -> bool {
    equal(expected, untagged(actual), cells, cells.len())
}

pub fn runtime_value_eq(expected: &RuntimeValue, actual: &RuntimeValue, cells: &Vec<RuntimeValue>) -> (result: bool)
    ensures
        result == matches_value(view::value(*expected), view::value(*actual), view::values(cells@)),
{
    value_eq(expected, untyped(actual), cells, cells.len())
}

// Places.

/// What a value reads as: the contents of the places it leads through, at most
/// `depth` of them. A place that leads back to itself reads as nothing.
pub open spec fn read_place(value: ValueView, cells: Seq<ValueView>, depth: nat) -> Option<ValueView>
    decreases depth,
{
    match value {
        ValueView::Mutable(cell) | ValueView::Reference { cell, .. } => if depth == 0 || cell >= cells.len() {
            None
        } else {
            read_place(cells[cell as int], cells, (depth - 1) as nat)
        },
        _ => Some(value),
    }
}

pub fn read_place_value(value: &RuntimeValue, cells: &Vec<RuntimeValue>, depth: usize) -> (result: Option<RuntimeValue>)
    ensures
        match result {
            Some(found) => read_place(view::value(*value), view::values(cells@), depth as nat) == Some(
                view::value(found),
            ),
            None => read_place(view::value(*value), view::values(cells@), depth as nat) is None,
        },
    decreases depth,
{
    match value {
        RuntimeValue::Mutable(cell) | RuntimeValue::Reference { cell, .. } => {
            let count: u64 = cells.len() as u64;
            if depth == 0 || *cell >= count {
                None
            } else {
                read_place_value(&cells[*cell as usize], cells, depth - 1)
            }
        }
        _ => Some(copy::value(value)),
    }
}

/// The contents that a value reads as, through all places of the store.
pub fn materialize_runtime_value(value: &RuntimeValue, cells: &Vec<RuntimeValue>) -> (result: Option<RuntimeValue>)
    ensures
        match result {
            Some(found) => read_place(view::value(*value), view::values(cells@), cells@.len()) == Some(
                view::value(found),
            ),
            None => read_place(view::value(*value), view::values(cells@), cells@.len()) is None,
        },
{
    read_place_value(value, cells, cells.len())
}

// Reading arguments.

pub open spec fn as_int(value: ValueView) -> Result<i64, Seq<PartView>> {
    match untagged(value) {
        ValueView::Int(number) => Ok(number),
        ValueView::Float(_) => Err(crate::execute::failure::text_failure("expected integer, got float"@)),
        other => Err(crate::execute::failure::value_failure("expected integer, got "@, other)),
    }
}

pub fn value_i64(value: &RuntimeValue) -> (result: Result<i64, Failure>)
    ensures
        match result {
            Ok(number) => as_int(view::value(*value)) == Ok::<i64, Seq<PartView>>(number),
            Err(failure) => as_int(view::value(*value)) == Err::<i64, Seq<PartView>>(failure@),
        },
{
    match untyped(value) {
        RuntimeValue::Int(number) => Ok(*number),
        RuntimeValue::Float(_) => Err(Failure::text("expected integer, got float")),
        other => Err(Failure::about("expected integer, got ", other)),
    }
}

pub open spec fn as_float(value: ValueView) -> Result<u64, Seq<PartView>> {
    match untagged(value) {
        ValueView::Float(bits) => Ok(bits),
        other => Err(crate::execute::failure::value_failure("expected float, got "@, other)),
    }
}

pub fn value_f64(value: &RuntimeValue) -> (result: Result<u64, Failure>)
    ensures
        match result {
            Ok(bits) => as_float(view::value(*value)) == Ok::<u64, Seq<PartView>>(bits),
            Err(failure) => as_float(view::value(*value)) == Err::<u64, Seq<PartView>>(failure@),
        },
{
    match untyped(value) {
        RuntimeValue::Float(bits) => Ok(*bits),
        other => Err(Failure::about("expected float, got ", other)),
    }
}

pub open spec fn as_bool(value: ValueView) -> Result<bool, Seq<PartView>> {
    match untagged(value) {
        ValueView::Bool(flag) => Ok(flag),
        other => Err(crate::execute::failure::value_failure("expected bool, got "@, other)),
    }
}

pub fn value_bool(value: &RuntimeValue) -> (result: Result<bool, Failure>)
    ensures
        match result {
            Ok(flag) => as_bool(view::value(*value)) == Ok::<bool, Seq<PartView>>(flag),
            Err(failure) => as_bool(view::value(*value)) == Err::<bool, Seq<PartView>>(failure@),
        },
{
    match untyped(value) {
        RuntimeValue::Bool(flag) => Ok(*flag),
        other => Err(Failure::about("expected bool, got ", other)),
    }
}

pub open spec fn as_text(value: ValueView) -> Result<Seq<char>, Seq<PartView>> {
    match untagged(value) {
        ValueView::Str(text) => Ok(text),
        other => Err(crate::execute::failure::value_failure("expected string, got "@, other)),
    }
}

pub fn value_str(value: &RuntimeValue) -> (result: Result<&str, Failure>)
    ensures
        match result {
            Ok(text) => as_text(view::value(*value)) == Ok::<Seq<char>, Seq<PartView>>(text@),
            Err(failure) => as_text(view::value(*value)) == Err::<Seq<char>, Seq<PartView>>(failure@),
        },
{
    match untyped(value) {
        RuntimeValue::Str(text) => Ok(text.as_str()),
        other => Err(Failure::about("expected string, got ", other)),
    }
}

pub fn value_string(value: &RuntimeValue) -> (result: Result<String, Failure>)
    ensures
        match result {
            Ok(text) => as_text(view::value(*value)) == Ok::<Seq<char>, Seq<PartView>>(text@),
            Err(failure) => as_text(view::value(*value)) == Err::<Seq<char>, Seq<PartView>>(failure@),
        },
{
    match value_str(value) {
        Ok(text) => Ok(owned(text)),
        Err(failure) => Err(failure),
    }
}

/// The handle inside any number of type tags.
pub open spec fn as_handle(value: ValueView) -> Result<u64, Seq<PartView>>
    decreases value,
{
    match value {
        ValueView::HostHandle(handle) => Ok(handle.id),
        ValueView::Typed { value, .. } => as_handle(*value),
        other => Err(crate::execute::failure::value_failure("expected an opaque host handle, got "@, other)),
    }
}

pub fn value_handle(value: &RuntimeValue) -> (result: Result<u64, Failure>)
    ensures
        match result {
            Ok(id) => as_handle(view::value(*value)) == Ok::<u64, Seq<PartView>>(id),
            Err(failure) => as_handle(view::value(*value)) == Err::<u64, Seq<PartView>>(failure@),
        },
    decreases value,
{
    match value {
        RuntimeValue::HostHandle(handle) => Ok(handle.id),
        RuntimeValue::Typed { value, .. } => value_handle(value),
        other => Err(Failure::about("expected an opaque host handle, got ", other)),
    }
}

/// The policy behind a domain capability; a root policy is not accepted.
pub open spec fn as_policy(value: ValueView) -> Result<PolicyTypeView, Seq<PartView>> {
    match value {
        ValueView::Capability(capability) => Ok(capability.policy),
        ValueView::Policy(_) => Err(
            crate::execute::failure::text_failure(
                "expected an explicitly narrowed `$capability.<domain>` value, got root `$policy`"@,
            ),
        ),
        other => Err(crate::execute::failure::value_failure("expected a domain capability value, got "@, other)),
    }
}

pub fn value_policy(value: &RuntimeValue) -> (result: Result<&PolicyType, Failure>)
    ensures
        match result {
            Ok(policy) => as_policy(view::value(*value)) == Ok::<PolicyTypeView, Seq<PartView>>(
                view::policy_type(*policy),
            ),
            Err(failure) => as_policy(view::value(*value)) == Err::<PolicyTypeView, Seq<PartView>>(failure@),
        },
{
    match value {
        RuntimeValue::Capability(capability) => Ok(&capability.policy),
        RuntimeValue::Policy(_) => Err(
            Failure::text("expected an explicitly narrowed `$capability.<domain>` value, got root `$policy`"),
        ),
        other => Err(Failure::about("expected a domain capability value, got ", other)),
    }
}

pub open spec fn as_items(value: ValueView) -> Result<Seq<ValueView>, Seq<PartView>> {
    match untagged(value) {
        ValueView::Array(items) => Ok(items),
        other => Err(crate::execute::failure::value_failure("expected bytes, got "@, other)),
    }
}

pub fn value_byte_items(value: &RuntimeValue) -> (result: Result<&Vec<RuntimeValue>, Failure>)
    ensures
        match result {
            Ok(items) => as_items(view::value(*value)) == Ok::<Seq<ValueView>, Seq<PartView>>(view::values(items@)),
            Err(failure) => as_items(view::value(*value)) == Err::<Seq<ValueView>, Seq<PartView>>(failure@),
        },
{
    match untyped(value) {
        RuntimeValue::Array(items) => Ok(items),
        other => Err(Failure::about("expected bytes, got ", other)),
    }
}

pub open spec fn as_byte(value: ValueView) -> Result<u8, Seq<PartView>> {
    match untagged(value) {
        ValueView::Int(number) => if 0 <= number <= 255 {
            Ok(number as u8)
        } else {
            Err(crate::execute::failure::text_failure("byte outside uint8 range"@))
        },
        other => Err(crate::execute::failure::value_failure("expected byte integer, got "@, other)),
    }
}

pub fn runtime_byte(value: &RuntimeValue) -> (result: Result<u8, Failure>)
    ensures
        match result {
            Ok(byte) => as_byte(view::value(*value)) == Ok::<u8, Seq<PartView>>(byte),
            Err(failure) => as_byte(view::value(*value)) == Err::<u8, Seq<PartView>>(failure@),
        },
{
    match untyped(value) {
        RuntimeValue::Int(number) => {
            if 0 <= *number && *number <= 255 {
                Ok(*number as u8)
            } else {
                Err(Failure::text("byte outside uint8 range"))
            }
        }
        other => Err(Failure::about("expected byte integer, got ", other)),
    }
}

/// The items read as bytes, or the first failure.
pub open spec fn bytes_from(items: Seq<ValueView>, from: int, done: Seq<u8>) -> Result<Seq<u8>, Seq<PartView>>
    decreases items.len() - from,
{
    if from < 0 || from >= items.len() {
        Ok(done)
    } else {
        match as_byte(items[from]) {
            Err(failure) => Err(failure),
            Ok(byte) => bytes_from(items, from + 1, done.push(byte)),
        }
    }
}

pub open spec fn as_bytes(value: ValueView) -> Result<Seq<u8>, Seq<PartView>> {
    match as_items(value) {
        Err(failure) => Err(failure),
        Ok(items) => bytes_from(items, 0, Seq::empty()),
    }
}

pub fn item_bytes(items: &Vec<RuntimeValue>) -> (result: Result<Vec<u8>, Failure>)
    ensures
        match result {
            Ok(bytes) => bytes_from(view::values(items@), 0, Seq::empty()) == Ok::<Seq<u8>, Seq<PartView>>(bytes@),
            Err(failure) => bytes_from(view::values(items@), 0, Seq::empty()) == Err::<Seq<u8>, Seq<PartView>>(
                failure@,
            ),
        },
{
    let ghost all = view::values(items@);
    let mut done: Vec<u8> = Vec::new();
    let mut i: usize = 0;
    while i < items.len()
        invariant
            i <= items.len(),
            all == view::values(items@),
            bytes_from(all, 0, Seq::empty()) == bytes_from(all, i as int, done@),
        decreases items.len() - i,
    {
        assert(all[i as int] == view::value(items@[i as int]));
        match runtime_byte(&items[i]) {
            Ok(byte) => done.push(byte),
            Err(failure) => return Err(failure),
        }
        i += 1;
    }
    Ok(done)
}

pub fn value_bytes(value: &RuntimeValue) -> (result: Result<Vec<u8>, Failure>)
    ensures
        match result {
            Ok(bytes) => as_bytes(view::value(*value)) == Ok::<Seq<u8>, Seq<PartView>>(bytes@),
            Err(failure) => as_bytes(view::value(*value)) == Err::<Seq<u8>, Seq<PartView>>(failure@),
        },
{
    match value_byte_items(value) {
        Ok(items) => item_bytes(items),
        Err(failure) => Err(failure),
    }
}

/// Bytes as an array of integers.
pub open spec fn byte_array(bytes: Seq<u8>) -> ValueView {
    ValueView::Array(Seq::new(bytes.len(), |i: int| ValueView::Int(bytes[i] as i64)))
}

pub fn runtime_bytes(bytes: &Vec<u8>) -> (value: RuntimeValue)
    ensures
        view::value(value) == byte_array(bytes@),
{
    let mut items: Vec<RuntimeValue> = Vec::new();
    let mut i: usize = 0;
    while i < bytes.len()
        invariant
            i <= bytes.len(),
            items.len() == i,
            forall|k: int| 0 <= k < i ==> view::values(items@)[k] == ValueView::Int(bytes@[k] as i64),
        decreases bytes.len() - i,
    {
        let ghost before = items@;
        items.push(RuntimeValue::Int(bytes[i] as i64));
        proof {
            view::lemma_values_push(before, items@.last());
        }
        i += 1;
    }
    assert(view::values(items@) =~= Seq::new(bytes@.len(), |i: int| ValueView::Int(bytes@[i] as i64)));
    RuntimeValue::Array(items)
}

/// Texts as an array of strings.
pub open spec fn text_array(texts: Seq<Seq<char>>) -> ValueView {
    ValueView::Array(Seq::new(texts.len(), |i: int| ValueView::Str(texts[i])))
}

pub fn runtime_texts(texts: &Vec<String>) -> (value: RuntimeValue)
    ensures
        view::value(value) == text_array(view::texts(texts@)),
{
    let mut items: Vec<RuntimeValue> = Vec::new();
    let mut i: usize = 0;
    while i < texts.len()
        invariant
            i <= texts.len(),
            items.len() == i,
            forall|k: int| 0 <= k < i ==> view::values(items@)[k] == ValueView::Str(texts@[k]@),
        decreases texts.len() - i,
    {
        let ghost before = items@;
        items.push(RuntimeValue::Str(texts[i].clone()));
        proof {
            view::lemma_values_push(before, items@.last());
        }
        i += 1;
    }
    assert(view::values(items@) =~= Seq::new(texts@.len(), |i: int| ValueView::Str(view::texts(texts@)[i])));
    RuntimeValue::Array(items)
}

// Results.

/// A type as it is shown inside the keys of anonymous results.
pub open spec fn type_text(ty: TypeView) -> Seq<char>
    decreases ty,
{
    match ty {
        TypeView::Void => "Void"@,
        TypeView::Bool => "Bool"@,
        TypeView::Str => "Str"@,
        TypeView::Int8 => "Int8"@,
        TypeView::Int16 => "Int16"@,
        TypeView::Int32 => "Int32"@,
        TypeView::Int64 => "Int64"@,
        TypeView::UInt8 => "UInt8"@,
        TypeView::UInt16 => "UInt16"@,
        TypeView::UInt32 => "UInt32"@,
        TypeView::UInt64 => "UInt64"@,
        TypeView::Float32 => "Float32"@,
        TypeView::Float64 => "Float64"@,
        TypeView::Range => "Range"@,
        TypeView::Named(name) => "Named(\""@ + name + "\")"@,
        TypeView::Instantiated { base, type_args } => "Instantiated { base: \""@ + base + "\", type_args: ["@
            + type_texts(type_args, type_args.len() as int) + "] }"@,
        TypeView::Mutable(inner) => "Mutable("@ + type_text(*inner) + ")"@,
        TypeView::Reference { inner, mutable } => if mutable {
            "Reference { inner: "@ + type_text(*inner) + ", mutable: true }"@
        } else {
            "Reference { inner: "@ + type_text(*inner) + ", mutable: false }"@
        },
        TypeView::Enum(_) => "Enum"@,
        TypeView::Policy(_) => "Policy"@,
        TypeView::Capability(_) => "Capability"@,
    }
}

/// The first `count` types, separated by commas.
pub open spec fn type_texts(types: Seq<TypeView>, count: int) -> Seq<char>
    decreases types, count,
{
    if count <= 0 || count > types.len() {
        Seq::empty()
    } else if count == 1 {
        type_text(types[0])
    } else {
        type_texts(types, count - 1) + ", "@ + type_text(types[count - 1])
    }
}

pub fn show_type(ty: &TypeRef) -> (text: String)
    ensures
        text@ == type_text(view::type_ref(*ty)),
    decreases ty,
{
    match ty {
        TypeRef::Void => owned("Void"),
        TypeRef::Bool => owned("Bool"),
        TypeRef::Str => owned("Str"),
        TypeRef::Int8 => owned("Int8"),
        TypeRef::Int16 => owned("Int16"),
        TypeRef::Int32 => owned("Int32"),
        TypeRef::Int64 => owned("Int64"),
        TypeRef::UInt8 => owned("UInt8"),
        TypeRef::UInt16 => owned("UInt16"),
        TypeRef::UInt32 => owned("UInt32"),
        TypeRef::UInt64 => owned("UInt64"),
        TypeRef::Float32 => owned("Float32"),
        TypeRef::Float64 => owned("Float64"),
        TypeRef::Range => owned("Range"),
        TypeRef::Named(name) => concat_three("Named(\"", name.as_str(), "\")"),
        TypeRef::Instantiated { base, type_args } => {
            let mut text = concat_three("Instantiated { base: \"", base.as_str(), "\", type_args: [");
            let inner = show_types(type_args);
            text.append(inner.as_str());
            text.append("] }");
            text
        }
        TypeRef::Mutable(inner) => {
            let shown = show_type(inner);
            concat_three("Mutable(", shown.as_str(), ")")
        }
        TypeRef::Reference { inner, mutable } => {
            let shown = show_type(inner);
            if *mutable {
                concat_three("Reference { inner: ", shown.as_str(), ", mutable: true }")
            } else {
                concat_three("Reference { inner: ", shown.as_str(), ", mutable: false }")
            }
        }
        TypeRef::Enum(_) => owned("Enum"),
        TypeRef::Policy(_) => owned("Policy"),
        TypeRef::Capability(_) => owned("Capability"),
    }
}

fn show_types(types: &Vec<TypeRef>) -> (text: String)
    ensures
        text@ == type_texts(view::type_refs(types@), types@.len() as int),
    decreases types,
{
    let ghost all = view::type_refs(types@);
    let mut text = String::new();
    let mut i: usize = 0;
    assert(text@ =~= type_texts(all, 0));
    while i < types.len()
        invariant
            i <= types.len(),
            all == view::type_refs(types@),
            text@ == type_texts(all, i as int),
        decreases types.len() - i,
    {
        assert(all[i as int] == view::type_ref(types@[i as int]));
        let shown = show_type(&types[i]);
        if i > 0 {
            text.append(", ");
            text.append(shown.as_str());
        } else {
            text = shown;
        }
        i += 1;
    }
    text
}

/// The key of the enum that a function with this return type gives back.
pub open spec fn enum_key(ty: TypeView) -> Seq<char> {
    match ty {
        TypeView::Instantiated { base, .. } => base,
        TypeView::Named(name) => name,
        other => type_text(other),
    }
}

pub fn result_enum_key(ty: &TypeRef) -> (key: String)
    ensures
        key@ == enum_key(view::type_ref(*ty)),
{
    match ty {
        TypeRef::Instantiated { base, .. } => base.clone(),
        TypeRef::Named(name) => name.clone(),
        other => show_type(other),
    }
}

/// The key of the error enum that a function with this return type gives back.
pub open spec fn error_key(ty: TypeView, default: Seq<char>) -> Seq<char> {
    match ty {
        TypeView::Instantiated { type_args, .. } => if type_args.len() >= 2 {
            match type_args[1] {
                TypeView::Named(name) => name,
                other => type_text(other),
            }
        } else {
            default
        },
        _ => default,
    }
}

pub fn result_error_key(ty: &TypeRef, default: &str) -> (key: String)
    ensures
        key@ == error_key(view::type_ref(*ty), default@),
{
    match ty {
        TypeRef::Instantiated { type_args, .. } => {
            if type_args.len() >= 2 {
                assert(view::type_refs(type_args@)[1] == view::type_ref(type_args@[1]));
                match &type_args[1] {
                    TypeRef::Named(name) => name.clone(),
                    other => show_type(other),
                }
            } else {
                owned(default)
            }
        }
        _ => owned(default),
    }
}

pub open spec fn tagged(key: Seq<char>, tag: Seq<char>, payload: Option<ValueView>) -> ValueView {
    ValueView::Enum {
        enum_key: key,
        tag,
        payload: match payload {
            Some(value) => Some(Box::new(value)),
            None => None,
        },
    }
}

pub open spec fn payload_view(payload: Option<RuntimeValue>) -> Option<ValueView> {
    match payload {
        Some(value) => Some(view::value(value)),
        None => None,
    }
}

fn make_enum(key: String, tag: &str, payload: Option<RuntimeValue>) -> (value: RuntimeValue)
    ensures
        view::value(value) == tagged(key@, tag@, payload_view(payload)),
{
    RuntimeValue::Enum {
        enum_key: key,
        tag: owned(tag),
        payload: match payload {
            Some(value) => Some(Box::new(value)),
            None => None,
        },
    }
}

pub open spec fn ok_value(ty: TypeView, value: ValueView) -> ValueView {
    tagged(enum_key(ty), "ok"@, Some(value))
}

pub fn result_ok(ty: &TypeRef, value: RuntimeValue) -> (result: RuntimeValue)
    ensures
        view::value(result) == ok_value(view::type_ref(*ty), view::value(value)),
{
    make_enum(result_enum_key(ty), "ok", Some(value))
}

pub open spec fn err_of(ty: TypeView, default: Seq<char>, tag: Seq<char>, payload: Option<ValueView>) -> ValueView {
    tagged(enum_key(ty), "err"@, Some(tagged(error_key(ty, default), tag, payload)))
}

fn make_err(ty: &TypeRef, default: &str, tag: &str, payload: Option<RuntimeValue>) -> (result: RuntimeValue)
    ensures
        view::value(result) == err_of(view::type_ref(*ty), default@, tag@, payload_view(payload)),
{
    let inner = make_enum(result_error_key(ty, default), tag, payload);
    make_enum(result_enum_key(ty), "err", Some(inner))
}

/// The error value with a tag and no payload.
pub open spec fn err_value(ty: TypeView, tag: Seq<char>) -> ValueView {
    err_of(ty, "fs-error"@, tag, None)
}

pub fn result_err(ty: &TypeRef, tag: &str) -> (result: RuntimeValue)
    ensures
        view::value(result) == err_value(view::type_ref(*ty), tag@),
{
    make_err(ty, "fs-error", tag, None)
}

/// The error value with a tag and a message.
pub open spec fn err_message(ty: TypeView, tag: Seq<char>, message: Seq<char>) -> ValueView {
    err_of(ty, "fs-error"@, tag, Some(ValueView::Str(message)))
}

pub fn result_err_message(ty: &TypeRef, tag: &str, message: &str) -> (result: RuntimeValue)
    ensures
        view::value(result) == err_message(view::type_ref(*ty), tag@, message@),
{
    make_err(ty, "fs-error", tag, Some(RuntimeValue::Str(owned(message))))
}

pub open spec fn collection_err(ty: TypeView, tag: Seq<char>) -> ValueView {
    err_of(ty, "collection-error"@, tag, None)
}

pub fn collection_result_err(ty: &TypeRef, tag: &str) -> (result: RuntimeValue)
    ensures
        view::value(result) == collection_err(view::type_ref(*ty), tag@),
{
    make_err(ty, "collection-error", tag, None)
}

pub open spec fn field(name: Seq<char>, value: ValueView) -> FieldValueView {
    FieldValueView { name, value }
}

pub open spec fn bounds_err(ty: TypeView, index: int, len: int) -> ValueView {
    err_of(
        ty,
        "collection-error"@,
        "out-of-bounds"@,
        Some(
            ValueView::Record(
                seq![field("index"@, ValueView::Int(index as i64)), field("len"@, ValueView::Int(len as i64))],
            ),
        ),
    )
}

pub fn record_two(first: &str, one: RuntimeValue, second: &str, two: RuntimeValue) -> (value: RuntimeValue)
    ensures
        view::value(value) == ValueView::Record(
            seq![field(first@, view::value(one)), field(second@, view::value(two))],
        ),
{
    let mut fields: Vec<FieldValue> = Vec::new();
    fields.push(FieldValue { name: owned(first), value: one });
    fields.push(FieldValue { name: owned(second), value: two });
    assert(view::field_values(fields@) =~= seq![field(first@, view::value(one)), field(second@, view::value(two))]);
    RuntimeValue::Record(fields)
}

pub fn collection_bounds_err(ty: &TypeRef, index: usize, len: usize) -> (result: RuntimeValue)
    ensures
        view::value(result) == bounds_err(view::type_ref(*ty), index as int, len as int),
{
    let details = record_two("index", integer(index), "len", integer(len));
    make_err(ty, "collection-error", "out-of-bounds", Some(details))
}

#[verifier::truncate]
fn integer(value: usize) -> (result: RuntimeValue)
    ensures
        view::value(result) == ValueView::Int(value as i64),
{
    RuntimeValue::Int(value as i64)
}

pub open spec fn option_of(ty: TypeView, value: Option<ValueView>) -> ValueView {
    match value {
        Some(value) => tagged(enum_key(ty), "some"@, Some(value)),
        None => tagged(enum_key(ty), "none"@, None),
    }
}

pub fn option_value(ty: &TypeRef, value: Option<RuntimeValue>) -> (result: RuntimeValue)
    ensures
        view::value(result) == option_of(view::type_ref(*ty), payload_view(value)),
{
    match value {
        Some(value) => make_enum(result_enum_key(ty), "some", Some(value)),
        None => make_enum(result_enum_key(ty), "none", None),
    }
}

/// What reading a numeral gives back.
pub open spec fn parsed_value(ty: TypeView, parsed: crate::execute::strings::ParsedInt) -> ValueView {
    match parsed {
        crate::execute::strings::ParsedInt::Value(value) => ok_value(ty, ValueView::Int(value)),
        crate::execute::strings::ParsedInt::Overflow => err_value(ty, "overflow"@),
        crate::execute::strings::ParsedInt::Invalid => err_value(ty, "invalid"@),
    }
}

pub fn parse_result(ty: &TypeRef, parsed: crate::execute::strings::ParsedInt) -> (result: RuntimeValue)
    ensures
        view::value(result) == parsed_value(view::type_ref(*ty), parsed),
{
    match parsed {
        crate::execute::strings::ParsedInt::Value(value) => result_ok(ty, RuntimeValue::Int(value)),
        crate::execute::strings::ParsedInt::Overflow => result_err(ty, "overflow"),
        crate::execute::strings::ParsedInt::Invalid => result_err(ty, "invalid"),
    }
}

/// An optional value as a result, the error tag standing for its absence.
pub open spec fn or_error(ty: TypeView, value: Option<ValueView>, tag: Seq<char>) -> ValueView {
    match value {
        Some(value) => ok_value(ty, value),
        None => err_value(ty, tag),
    }
}

pub fn ok_or_error(ty: &TypeRef, value: Option<RuntimeValue>, tag: &str) -> (result: RuntimeValue)
    ensures
        view::value(result) == or_error(view::type_ref(*ty), payload_view(value), tag@),
{
    match value {
        Some(value) => result_ok(ty, value),
        None => result_err(ty, tag),
    }
}

pub open spec fn optional_bytes(bytes: Option<Seq<u8>>) -> Option<ValueView> {
    match bytes {
        Some(bytes) => Some(byte_array(bytes)),
        None => None,
    }
}

pub fn bytes_option(bytes: Option<Vec<u8>>) -> (result: Option<RuntimeValue>)
    ensures
        payload_view(result) == optional_bytes(crate::execute::lists::bytes_view(bytes)),
{
    match bytes {
        Some(bytes) => Some(runtime_bytes(&bytes)),
        None => None,
    }
}

} // verus!
