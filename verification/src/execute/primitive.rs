//! The primitive operations.
use vstd::prelude::*;
use vstd::arithmetic::power2::pow2;
use crate::execute::failure::{Failure, PartView};
use crate::execute::host::{HostReply, HostRequest};
use crate::execute::host_view::{self, ReplyView, RequestView};
use crate::execute::session::{unexpected_reply, Halt, HaltView, Outcome, Run, RunView, Session, SessionView};
use crate::execute::values::{float_eq, is_nan_bits, primitive_inner};
use crate::lowered::copy;
use crate::lowered::ir::{PrimitiveOp, RuntimeValue, TypeRef};
use crate::lowered::view::{self, TypeView, ValueView};
use crate::text::{concat_three, decimal_text, same_text, text_precedes};

verus! {

/// The least and greatest value of an integer type and its width. Values are
/// held in 64 signed bits, which bounds the widest unsigned type.
pub open spec fn bounds_of(ty: TypeView) -> Option<(int, int, nat)> {
    match ty {
        TypeView::Int8 => Some((-0x80, 0x7f, 8)),
        TypeView::Int16 => Some((-0x8000, 0x7fff, 16)),
        TypeView::Int32 => Some((-0x8000_0000, 0x7fff_ffff, 32)),
        TypeView::Int64 => Some((-0x8000_0000_0000_0000, 0x7fff_ffff_ffff_ffff, 64)),
        TypeView::UInt8 => Some((0, 0xff, 8)),
        TypeView::UInt16 => Some((0, 0xffff, 16)),
        TypeView::UInt32 => Some((0, 0xffff_ffff, 32)),
        TypeView::UInt64 => Some((0, 0x7fff_ffff_ffff_ffff, 64)),
        _ => None,
    }
}

pub open spec fn bounds_view(bounds: Option<(i128, i128, u32)>) -> Option<(int, int, nat)> {
    match bounds {
        Some((low, high, width)) => Some((low as int, high as int, width as nat)),
        None => None,
    }
}

pub fn integer_bounds(ty: &TypeRef) -> (result: Option<(i128, i128, u32)>)
    ensures
        bounds_view(result) == bounds_of(view::type_ref(*ty)),
{
    match ty {
        TypeRef::Int8 => Some((-0x80, 0x7f, 8)),
        TypeRef::Int16 => Some((-0x8000, 0x7fff, 16)),
        TypeRef::Int32 => Some((-0x8000_0000, 0x7fff_ffff, 32)),
        TypeRef::Int64 => Some((-0x8000_0000_0000_0000, 0x7fff_ffff_ffff_ffff, 64)),
        TypeRef::UInt8 => Some((0, 0xff, 8)),
        TypeRef::UInt16 => Some((0, 0xffff, 16)),
        TypeRef::UInt32 => Some((0, 0xffff_ffff, 32)),
        TypeRef::UInt64 => Some((0, 0x7fff_ffff_ffff_ffff, 64)),
        _ => None,
    }
}

/// A primitive value of a type: the default types carry no tag.
pub open spec fn wrapped(ty: TypeView, value: ValueView) -> ValueView {
    if ty is Int64 || ty is Float64 || ty is Bool || ty is Str {
        value
    } else {
        ValueView::Typed { type_ref: ty, value: Box::new(value) }
    }
}

pub fn wrap_primitive(ty: &TypeRef, value: RuntimeValue) -> (result: RuntimeValue)
    ensures
        view::value(result) == wrapped(view::type_ref(*ty), view::value(value)),
{
    match ty {
        TypeRef::Int64 | TypeRef::Float64 | TypeRef::Bool | TypeRef::Str => value,
        _ => RuntimeValue::Typed { type_ref: copy::type_ref(ty), value: Box::new(value) },
    }
}

pub open spec fn failed(text: Seq<char>) -> Result<ValueView, Seq<PartView>> {
    Err(crate::execute::failure::text_failure(text))
}

/// An integer as a value of a type, when it is in range.
pub open spec fn in_type(ty: TypeView, value: int) -> Result<ValueView, Seq<PartView>> {
    match bounds_of(ty) {
        None => failed("E-OP-001: expected integer operand"@),
        Some((low, high, _)) => if low <= value <= high {
            Ok(wrapped(ty, ValueView::Int(value as i64)))
        } else {
            Err(crate::execute::failure::type_failure("E-OP-002: integer overflow for "@, ty))
        },
    }
}

pub fn checked_integer_result(ty: &TypeRef, value: i128) -> (result: Result<RuntimeValue, Failure>)
    ensures
        crate::execute::lists::outcome(result) == in_type(view::type_ref(*ty), value as int),
{
    match integer_bounds(ty) {
        None => Err(Failure::text("E-OP-001: expected integer operand")),
        Some((low, high, _)) => {
            if low <= value && value <= high {
                assert(i64::MIN <= value <= i64::MAX);
                Ok(wrap_primitive(ty, RuntimeValue::Int(value as i64)))
            } else {
                Err(Failure::about_type("E-OP-002: integer overflow for ", ty))
            }
        }
    }
}

// Operands.

/// The operands as boolean values, or a failure when one is something else.
pub open spec fn bools_from(values: Seq<ValueView>, from: int, done: Seq<bool>) -> Result<Seq<bool>, Seq<PartView>>
    decreases values.len() - from,
{
    if from < 0 || from >= values.len() {
        Ok(done)
    } else {
        match crate::execute::values::innermost(values[from]) {
            ValueView::Bool(operand) => bools_from(values, from + 1, done.push(operand)),
            _ => Err(crate::execute::failure::text_failure("E-OP-001: expected boolean operand"@)),
        }
    }
}

fn read_bools(values: &Vec<RuntimeValue>) -> (result: Result<Vec<bool>, Failure>)
    ensures
        match result {
            Ok(operands) => bools_from(
                view::values(values@),
                0,
                Seq::empty(),
            ) == Ok::<Seq<bool>, Seq<PartView>>(operands@)
                && operands.len() == values.len(),
            Err(failure) => bools_from(
                view::values(values@),
                0,
                Seq::empty(),
            ) == Err::<Seq<bool>, Seq<PartView>>(failure@),
        },
{
    let ghost all = view::values(values@);
    let mut done: Vec<bool> = Vec::new();
    let mut i: usize = 0;
    while i < values.len()
        invariant
            i <= values.len(),
            done.len() == i,
            all == view::values(values@),
            bools_from(all, 0, Seq::empty()) == bools_from(all, i as int, done@),
        decreases values.len() - i,
    {
        assert(all[i as int] == view::value(values@[i as int]));
        match primitive_inner(&values[i]) {
            RuntimeValue::Bool(operand) => done.push(*operand),
            _ => return Err(Failure::text("E-OP-001: expected boolean operand")),
        }
        i += 1;
    }
    Ok(done)
}
/// The operands as integer values, or a failure when one is something else.
pub open spec fn ints_from(values: Seq<ValueView>, from: int, done: Seq<i64>) -> Result<Seq<i64>, Seq<PartView>>
    decreases values.len() - from,
{
    if from < 0 || from >= values.len() {
        Ok(done)
    } else {
        match crate::execute::values::innermost(values[from]) {
            ValueView::Int(operand) => ints_from(values, from + 1, done.push(operand)),
            _ => Err(crate::execute::failure::text_failure("E-OP-001: expected integer operand"@)),
        }
    }
}

fn read_ints(values: &Vec<RuntimeValue>) -> (result: Result<Vec<i64>, Failure>)
    ensures
        match result {
            Ok(operands) => ints_from(
                view::values(values@),
                0,
                Seq::empty(),
            ) == Ok::<Seq<i64>, Seq<PartView>>(operands@)
                && operands.len() == values.len(),
            Err(failure) => ints_from(
                view::values(values@),
                0,
                Seq::empty(),
            ) == Err::<Seq<i64>, Seq<PartView>>(failure@),
        },
{
    let ghost all = view::values(values@);
    let mut done: Vec<i64> = Vec::new();
    let mut i: usize = 0;
    while i < values.len()
        invariant
            i <= values.len(),
            done.len() == i,
            all == view::values(values@),
            ints_from(all, 0, Seq::empty()) == ints_from(all, i as int, done@),
        decreases values.len() - i,
    {
        assert(all[i as int] == view::value(values@[i as int]));
        match primitive_inner(&values[i]) {
            RuntimeValue::Int(operand) => done.push(*operand),
            _ => return Err(Failure::text("E-OP-001: expected integer operand")),
        }
        i += 1;
    }
    Ok(done)
}
/// The operands as float values, or a failure when one is something else.
pub open spec fn floats_from(values: Seq<ValueView>, from: int, done: Seq<u64>) -> Result<Seq<u64>, Seq<PartView>>
    decreases values.len() - from,
{
    if from < 0 || from >= values.len() {
        Ok(done)
    } else {
        match crate::execute::values::innermost(values[from]) {
            ValueView::Float(operand) => floats_from(values, from + 1, done.push(operand)),
            _ => Err(crate::execute::failure::text_failure("E-OP-001: expected float operand"@)),
        }
    }
}

fn read_floats(values: &Vec<RuntimeValue>) -> (result: Result<Vec<u64>, Failure>)
    ensures
        match result {
            Ok(operands) => floats_from(
                view::values(values@),
                0,
                Seq::empty(),
            ) == Ok::<Seq<u64>, Seq<PartView>>(operands@)
                && operands.len() == values.len(),
            Err(failure) => floats_from(
                view::values(values@),
                0,
                Seq::empty(),
            ) == Err::<Seq<u64>, Seq<PartView>>(failure@),
        },
{
    let ghost all = view::values(values@);
    let mut done: Vec<u64> = Vec::new();
    let mut i: usize = 0;
    while i < values.len()
        invariant
            i <= values.len(),
            done.len() == i,
            all == view::values(values@),
            floats_from(all, 0, Seq::empty()) == floats_from(all, i as int, done@),
        decreases values.len() - i,
    {
        assert(all[i as int] == view::value(values@[i as int]));
        match primitive_inner(&values[i]) {
            RuntimeValue::Float(operand) => done.push(*operand),
            _ => return Err(Failure::text("E-OP-001: expected float operand")),
        }
        i += 1;
    }
    Ok(done)
}

/// The operands as text, or a failure when one is something else.
pub open spec fn strings_from(values: Seq<ValueView>, from: int, done: Seq<Seq<char>>) -> Result<
    Seq<Seq<char>>,
    Seq<PartView>,
>
    decreases values.len() - from,
{
    if from < 0 || from >= values.len() {
        Ok(done)
    } else {
        match crate::execute::values::innermost(values[from]) {
            ValueView::Str(text) => strings_from(values, from + 1, done.push(text)),
            _ => Err(crate::execute::failure::text_failure("E-OP-001: expected string operand"@)),
        }
    }
}

fn read_strings(values: &Vec<RuntimeValue>) -> (result: Result<Vec<String>, Failure>)
    ensures
        match result {
            Ok(texts) => strings_from(view::values(values@), 0, Seq::empty()) == Ok::<Seq<Seq<char>>, Seq<PartView>>(
                view::texts(texts@),
            ) && texts.len() == values.len(),
            Err(failure) => strings_from(view::values(values@), 0, Seq::empty()) == Err::<
                Seq<Seq<char>>,
                Seq<PartView>,
            >(failure@),
        },
{
    let ghost all = view::values(values@);
    let mut done: Vec<String> = Vec::new();
    let mut i: usize = 0;
    assert(view::texts(done@) =~= Seq::<Seq<char>>::empty());
    while i < values.len()
        invariant
            i <= values.len(),
            done.len() == i,
            all == view::values(values@),
            strings_from(all, 0, Seq::empty()) == strings_from(all, i as int, view::texts(done@)),
        decreases values.len() - i,
    {
        assert(all[i as int] == view::value(values@[i as int]));
        let ghost before = done@;
        match primitive_inner(&values[i]) {
            RuntimeValue::Str(text) => {
                done.push(text.clone());
                proof {
                    view::lemma_texts_push(before, done@.last());
                }
            }
            _ => return Err(Failure::text("E-OP-001: expected string operand")),
        }
        i += 1;
    }
    Ok(done)
}

// Operations on one type.

/// Whether an operation compares.
pub open spec fn compares(op: PrimitiveOp) -> bool {
    op == PrimitiveOp::Equal || op == PrimitiveOp::NotEqual || op == PrimitiveOp::LessThan || op
        == PrimitiveOp::LessOrEqual || op == PrimitiveOp::GreaterThan || op == PrimitiveOp::GreaterOrEqual
}

fn is_comparison(op: PrimitiveOp) -> (result: bool)
    ensures
        result == compares(op),
{
    match op {
        PrimitiveOp::Equal | PrimitiveOp::NotEqual | PrimitiveOp::LessThan => true,
        PrimitiveOp::LessOrEqual | PrimitiveOp::GreaterThan | PrimitiveOp::GreaterOrEqual => true,
        _ => false,
    }
}

/// How many booleans an operation reads. A conjunction reads no second operand
/// behind a false one, a disjunction none behind a true one.
pub open spec fn bools_read(op: PrimitiveOp, operands: Seq<bool>) -> nat {
    match op {
        PrimitiveOp::Not => 1,
        PrimitiveOp::And => if operands.len() > 0 && !operands[0] {
            1
        } else {
            2
        },
        PrimitiveOp::Or => if operands.len() > 0 && operands[0] {
            1
        } else {
            2
        },
        PrimitiveOp::Equal | PrimitiveOp::NotEqual => 2,
        _ => 0,
    }
}

fn count_bools_read(op: PrimitiveOp, operands: &Vec<bool>) -> (count: usize)
    ensures
        count == bools_read(op, operands@),
{
    match op {
        PrimitiveOp::Not => 1,
        PrimitiveOp::And => if operands.len() > 0 && !operands[0] {
            1
        } else {
            2
        },
        PrimitiveOp::Or => if operands.len() > 0 && operands[0] {
            1
        } else {
            2
        },
        PrimitiveOp::Equal | PrimitiveOp::NotEqual => 2,
        _ => 0,
    }
}

/// How many floating-point numbers an operation reads.
pub open spec fn floats_read(op: PrimitiveOp) -> nat {
    if op == PrimitiveOp::Negate {
        1
    } else if compares(op) || is_arithmetic(op) {
        2
    } else {
        0
    }
}

fn count_floats_read(op: PrimitiveOp) -> (count: usize)
    ensures
        count == floats_read(op),
{
    if op == PrimitiveOp::Negate {
        1
    } else if is_comparison(op) || arithmetic(op) {
        2
    } else {
        0
    }
}

/// How many integers an operation reads that does not compare.
pub open spec fn ints_read(op: PrimitiveOp) -> nat {
    match op {
        PrimitiveOp::Negate | PrimitiveOp::BitNot => 1,
        PrimitiveOp::Add | PrimitiveOp::Subtract | PrimitiveOp::Multiply => 2,
        PrimitiveOp::Divide | PrimitiveOp::Remainder => 2,
        PrimitiveOp::BitAnd | PrimitiveOp::BitOr | PrimitiveOp::BitXor => 2,
        PrimitiveOp::ShiftLeft | PrimitiveOp::ShiftRight => 2,
        _ => 0,
    }
}

fn count_ints_read(op: PrimitiveOp) -> (count: usize)
    ensures
        count == ints_read(op),
{
    match op {
        PrimitiveOp::Negate | PrimitiveOp::BitNot => 1,
        PrimitiveOp::Add | PrimitiveOp::Subtract | PrimitiveOp::Multiply => 2,
        PrimitiveOp::Divide | PrimitiveOp::Remainder => 2,
        PrimitiveOp::BitAnd | PrimitiveOp::BitOr | PrimitiveOp::BitXor => 2,
        PrimitiveOp::ShiftLeft | PrimitiveOp::ShiftRight => 2,
        _ => 0,
    }
}

pub open spec fn operand_missing() -> Seq<PartView> {
    crate::execute::failure::text_failure("E-OP-001: an operand is missing"@)
}

fn missing_operand() -> (failure: Failure)
    ensures
        failure@ == operand_missing(),
{
    Failure::text("E-OP-001: an operand is missing")
}

pub open spec fn on_bools(op: PrimitiveOp, operands: Seq<bool>) -> Option<bool> {
    match op {
        PrimitiveOp::Equal => Some(operands[0] == operands[1]),
        PrimitiveOp::NotEqual => Some(operands[0] != operands[1]),
        PrimitiveOp::And => Some(operands[0] && operands[1]),
        PrimitiveOp::Or => Some(operands[0] || operands[1]),
        PrimitiveOp::Not => Some(!operands[0]),
        _ => None,
    }
}

fn apply_bools(op: PrimitiveOp, operands: &Vec<bool>) -> (result: Option<bool>)
    requires
        operands.len() >= bools_read(op, operands@),
    ensures
        result == on_bools(op, operands@),
{
    match op {
        PrimitiveOp::Equal => Some(operands[0] == operands[1]),
        PrimitiveOp::NotEqual => Some(operands[0] != operands[1]),
        PrimitiveOp::And => Some(operands[0] && operands[1]),
        PrimitiveOp::Or => Some(operands[0] || operands[1]),
        PrimitiveOp::Not => Some(!operands[0]),
        _ => None,
    }
}

pub open spec fn on_strings(op: PrimitiveOp, left: Seq<char>, right: Seq<char>) -> Option<bool> {
    match op {
        PrimitiveOp::Equal => Some(left == right),
        PrimitiveOp::NotEqual => Some(left != right),
        PrimitiveOp::LessThan => Some(crate::text::precedes(left, right)),
        PrimitiveOp::LessOrEqual => Some(!crate::text::precedes(right, left)),
        PrimitiveOp::GreaterThan => Some(crate::text::precedes(right, left)),
        PrimitiveOp::GreaterOrEqual => Some(!crate::text::precedes(left, right)),
        _ => None,
    }
}

fn apply_strings(op: PrimitiveOp, left: &str, right: &str) -> (result: Option<bool>)
    ensures
        result == on_strings(op, left@, right@),
{
    match op {
        PrimitiveOp::Equal => Some(same_text(left, right)),
        PrimitiveOp::NotEqual => Some(!same_text(left, right)),
        PrimitiveOp::LessThan => Some(text_precedes(left, right)),
        PrimitiveOp::LessOrEqual => Some(!text_precedes(right, left)),
        PrimitiveOp::GreaterThan => Some(text_precedes(right, left)),
        PrimitiveOp::GreaterOrEqual => Some(!text_precedes(left, right)),
        _ => None,
    }
}

/// A floating-point number's place in the order of numbers.
pub open spec fn float_rank(bits: u64) -> int {
    if bits < 0x8000_0000_0000_0000 {
        bits as int
    } else {
        0x8000_0000_0000_0000 - bits
    }
}

pub open spec fn float_less(left: u64, right: u64) -> bool {
    !crate::execute::values::is_nan(left) && !crate::execute::values::is_nan(right) && float_rank(left) < float_rank(
        right,
    )
}

fn rank(bits: u64) -> (result: i128)
    ensures
        result == float_rank(bits),
{
    if bits < 0x8000_0000_0000_0000 {
        bits as i128
    } else {
        0x8000_0000_0000_0000i128 - bits as i128
    }
}

fn less(left: u64, right: u64) -> (result: bool)
    ensures
        result == float_less(left, right),
{
    !is_nan_bits(left) && !is_nan_bits(right) && rank(left) < rank(right)
}

/// Comparison of floating-point numbers; nothing for an operation that does not
/// compare.
pub open spec fn compare_floats(op: PrimitiveOp, left: u64, right: u64) -> Option<bool> {
    match op {
        PrimitiveOp::Equal => Some(crate::execute::values::float_equal(left, right)),
        PrimitiveOp::NotEqual => Some(!crate::execute::values::float_equal(left, right)),
        PrimitiveOp::LessThan => Some(float_less(left, right)),
        PrimitiveOp::LessOrEqual => Some(
            float_less(left, right) || crate::execute::values::float_equal(left, right),
        ),
        PrimitiveOp::GreaterThan => Some(float_less(right, left)),
        PrimitiveOp::GreaterOrEqual => Some(
            float_less(right, left) || crate::execute::values::float_equal(left, right),
        ),
        _ => None,
    }
}

fn float_comparison(op: PrimitiveOp, left: u64, right: u64) -> (result: Option<bool>)
    ensures
        result == compare_floats(op, left, right),
{
    match op {
        PrimitiveOp::Equal => Some(float_eq(left, right)),
        PrimitiveOp::NotEqual => Some(!float_eq(left, right)),
        PrimitiveOp::LessThan => Some(less(left, right)),
        PrimitiveOp::LessOrEqual => Some(less(left, right) || float_eq(left, right)),
        PrimitiveOp::GreaterThan => Some(less(right, left)),
        PrimitiveOp::GreaterOrEqual => Some(less(right, left) || float_eq(left, right)),
        _ => None,
    }
}

/// Whether an operation computes a number from floating-point numbers.
pub open spec fn is_arithmetic(op: PrimitiveOp) -> bool {
    op == PrimitiveOp::Add || op == PrimitiveOp::Subtract || op == PrimitiveOp::Multiply || op == PrimitiveOp::Divide
        || op == PrimitiveOp::Remainder || op == PrimitiveOp::Negate
}

/// Comparison of integers; nothing for an operation that does not compare.
pub open spec fn compare_ints(op: PrimitiveOp, left: i64, right: i64) -> Option<bool> {
    match op {
        PrimitiveOp::Equal => Some(left == right),
        PrimitiveOp::NotEqual => Some(left != right),
        PrimitiveOp::LessThan => Some(left < right),
        PrimitiveOp::LessOrEqual => Some(left <= right),
        PrimitiveOp::GreaterThan => Some(left > right),
        PrimitiveOp::GreaterOrEqual => Some(left >= right),
        _ => None,
    }
}

fn int_comparison(op: PrimitiveOp, left: i64, right: i64) -> (result: Option<bool>)
    ensures
        result == compare_ints(op, left, right),
{
    match op {
        PrimitiveOp::Equal => Some(left == right),
        PrimitiveOp::NotEqual => Some(left != right),
        PrimitiveOp::LessThan => Some(left < right),
        PrimitiveOp::LessOrEqual => Some(left <= right),
        PrimitiveOp::GreaterThan => Some(left > right),
        PrimitiveOp::GreaterOrEqual => Some(left >= right),
        _ => None,
    }
}

pub open spec fn magnitude(value: int) -> int {
    if value < 0 {
        -value
    } else {
        value
    }
}

/// Division towards zero.
pub open spec fn quotient(left: int, right: int) -> int {
    if (left < 0) == (right < 0) {
        magnitude(left) / magnitude(right)
    } else {
        -(magnitude(left) / magnitude(right))
    }
}

/// The remainder of division towards zero; it has the dividend's sign.
pub open spec fn remainder(left: int, right: int) -> int {
    if left < 0 {
        -(magnitude(left) % magnitude(right))
    } else {
        magnitude(left) % magnitude(right)
    }
}

fn absolute(value: i64) -> (result: u64)
    ensures
        result == magnitude(value as int),
{
    if value == i64::MIN {
        0x8000_0000_0000_0000
    } else if value < 0 {
        (-value) as u64
    } else {
        value as u64
    }
}

fn divide(left: i64, right: i64) -> (result: i128)
    requires
        right != 0,
    ensures
        result == quotient(left as int, right as int),
{
    let top: u64 = absolute(left);
    let bottom: u64 = absolute(right);
    let whole: u64 = top / bottom;
    if (left < 0) == (right < 0) {
        whole as i128
    } else {
        -(whole as i128)
    }
}

fn modulo(left: i64, right: i64) -> (result: i128)
    requires
        right != 0,
    ensures
        result == remainder(left as int, right as int),
{
    let top: u64 = absolute(left);
    let bottom: u64 = absolute(right);
    let rest: u64 = top % bottom;
    if left < 0 {
        -(rest as i128)
    } else {
        rest as i128
    }
}

pub open spec fn is_signed(ty: TypeView) -> bool {
    ty is Int8 || ty is Int16 || ty is Int32 || ty is Int64
}

fn signed(ty: &TypeRef) -> (result: bool)
    ensures
        result == is_signed(view::type_ref(*ty)),
{
    match ty {
        TypeRef::Int8 | TypeRef::Int16 | TypeRef::Int32 | TypeRef::Int64 => true,
        _ => false,
    }
}

/// The complement of all bits within a width, read with or without a sign.
pub open spec fn complement(value: int, width: nat, signed: bool) -> int {
    let raw = (-value - 1) % (pow2(width) as int);
    if signed && raw >= pow2((width - 1) as nat) {
        raw - pow2(width)
    } else {
        raw
    }
}

/// Powers of two that are used as factors.
fn power_of_two(exponent: u32) -> (result: i128)
    requires
        exponent <= 64,
    ensures
        result == pow2(exponent as nat),
        1 <= result <= 0x1_0000_0000_0000_0000,
{
    let mut result: i128 = 1;
    let mut i: u32 = 0;
    proof {
        vstd::arithmetic::power2::lemma2_to64();
    }
    while i < exponent
        invariant
            i <= exponent <= 64,
            result == pow2(i as nat),
            1 <= result <= 0x1_0000_0000_0000_0000,
            pow2(64) == 0x1_0000_0000_0000_0000,
        decreases exponent - i,
    {
        proof {
            vstd::arithmetic::power2::lemma_pow2_unfold((i + 1) as nat);
            if i + 1 < 64 {
                vstd::arithmetic::power2::lemma_pow2_strictly_increases((i + 1) as nat, 64);
            }
        }
        result = result * 2;
        i += 1;
    }
    result
}

/// The greatest multiple of a positive divisor up to the value, counted.
fn floor_divide(value: i128, divisor: i128) -> (result: i128)
    requires
        -0x1_0000_0000_0000_0000 <= value <= 0x1_0000_0000_0000_0000,
        1 <= divisor <= 0x1_0000_0000_0000_0000,
    ensures
        result == value as int / divisor as int,
        -0x1_0000_0000_0000_0000 <= result <= 0x1_0000_0000_0000_0000,
{
    if value >= 0 {
        let whole: u128 = value as u128 / divisor as u128;
        proof {
            vstd::arithmetic::div_mod::lemma_div_is_ordered_by_denominator(value as int, 1, divisor as int);
        }
        whole as i128
    } else {
        let up: u128 = (-value + (divisor - 1)) as u128;
        let whole: u128 = up / divisor as u128;
        proof {
            let top = -value + (divisor - 1);
            let d = divisor as int;
            vstd::arithmetic::div_mod::lemma_fundamental_div_mod(top, d);
            let rest = top % d;
            let q = top / d;
            assert(value == d * (-q) + (d - 1 - rest)) by (nonlinear_arith)
                requires
                    top == d * q + rest,
                    top == -value + (d - 1),
            ;
            vstd::arithmetic::div_mod::lemma_fundamental_div_mod_converse(value as int, d, -q, d - 1 - rest);
            assert(q <= -value) by (nonlinear_arith)
                requires
                    top == d * q + rest,
                    0 <= rest < d,
                    top == -value + (d - 1),
                    d >= 1,
                    value < 0,
            ;
        }
        -(whole as i128)
    }
}

fn invert(value: i64, width: u32, with_sign: bool) -> (result: i128)
    requires
        1 <= width <= 64,
    ensures
        result == complement(value as int, width as nat, with_sign),
{
    let size: i128 = power_of_two(width);
    let half: i128 = power_of_two(width - 1);
    let turned: i128 = -(value as i128) - 1;
    let times: i128 = floor_divide(turned, size);
    proof {
        vstd::arithmetic::div_mod::lemma_fundamental_div_mod(turned as int, size as int);
        assert(size * times == turned - turned as int % size as int);
    }
    let raw: i128 = turned - size * times;
    if with_sign && raw >= half {
        raw - size
    } else {
        raw
    }
}

fn shift_left(value: i64, count: u32) -> (result: i128)
    requires
        count < 64,
    ensures
        result == value * pow2(count as nat),
{
    let factor: i128 = power_of_two(count);
    assert(-0x8000_0000_0000_0000_0000_0000_0000_0000 <= value * factor <= 0x7fff_ffff_ffff_ffff_ffff_ffff_ffff_ffff)
        by (nonlinear_arith)
        requires
            -0x8000_0000_0000_0000 <= value <= 0x7fff_ffff_ffff_ffff,
            1 <= factor <= 0x1_0000_0000_0000_0000,
    ;
    value as i128 * factor
}

/// An integer operation that does not compare: its value, or why there is none.
pub open spec fn on_ints(op: PrimitiveOp, ty: TypeView, operands: Seq<i64>, width: nat) -> Result<int, Seq<PartView>> {
    match op {
        PrimitiveOp::Add => Ok(operands[0] + operands[1]),
        PrimitiveOp::Subtract => Ok(operands[0] - operands[1]),
        PrimitiveOp::Multiply => Ok(operands[0] * operands[1]),
        PrimitiveOp::Divide => if operands[1] == 0 {
            Err(crate::execute::failure::text_failure("E-OP-003: integer division by zero"@))
        } else {
            Ok(quotient(operands[0] as int, operands[1] as int))
        },
        PrimitiveOp::Remainder => if operands[1] == 0 {
            Err(crate::execute::failure::text_failure("E-OP-003: integer division by zero"@))
        } else {
            Ok(remainder(operands[0] as int, operands[1] as int))
        },
        PrimitiveOp::Negate => Ok(-operands[0]),
        PrimitiveOp::BitAnd => Ok((operands[0] & operands[1]) as int),
        PrimitiveOp::BitOr => Ok((operands[0] | operands[1]) as int),
        PrimitiveOp::BitXor => Ok((operands[0] ^ operands[1]) as int),
        PrimitiveOp::BitNot => Ok(complement(operands[0] as int, width, is_signed(ty))),
        PrimitiveOp::ShiftLeft => if operands[1] < 0 || operands[1] >= width {
            Err(shift_failure(width))
        } else {
            Ok(operands[0] * pow2(operands[1] as nat))
        },
        PrimitiveOp::ShiftRight => if operands[1] < 0 || operands[1] >= width {
            Err(shift_failure(width))
        } else {
            Ok(operands[0] as int / pow2(operands[1] as nat) as int)
        },
        _ => Err(crate::execute::failure::text_failure("E-OP-001: invalid integer operation"@)),
    }
}

pub open spec fn shift_failure(width: nat) -> Seq<PartView> {
    crate::execute::failure::text_failure("E-OP-004: shift count must be in 0.."@ + crate::text::decimal(width) + ""@)
}

fn bad_shift(width: u32) -> (failure: Failure)
    ensures
        failure@ == shift_failure(width as nat),
{
    let number = decimal_text(width as u64);
    let text = concat_three("E-OP-004: shift count must be in 0..", number.as_str(), "");
    Failure::text(text.as_str())
}

fn apply_ints(op: PrimitiveOp, ty: &TypeRef, operands: &Vec<i64>, width: u32) -> (result: Result<i128, Failure>)
    requires
        operands.len() >= ints_read(op),
        1 <= width <= 64,
    ensures
        match result {
            Ok(value) => on_ints(op, view::type_ref(*ty), operands@, width as nat) == Ok::<int, Seq<PartView>>(
                value as int,
            ),
            Err(failure) => on_ints(op, view::type_ref(*ty), operands@, width as nat) == Err::<int, Seq<PartView>>(
                failure@,
            ),
        },
{
    match op {
        PrimitiveOp::Add => Ok(operands[0] as i128 + operands[1] as i128),
        PrimitiveOp::Subtract => Ok(operands[0] as i128 - operands[1] as i128),
        PrimitiveOp::Multiply => {
            let left: i64 = operands[0];
            let right: i64 = operands[1];
            assert(-0x8000_0000_0000_0000_0000_0000_0000_0000 <= left * right
                <= 0x7fff_ffff_ffff_ffff_ffff_ffff_ffff_ffff) by (nonlinear_arith)
                requires
                    -0x8000_0000_0000_0000 <= left <= 0x7fff_ffff_ffff_ffff,
                    -0x8000_0000_0000_0000 <= right <= 0x7fff_ffff_ffff_ffff,
            ;
            Ok(left as i128 * right as i128)
        }
        PrimitiveOp::Divide => {
            if operands[1] == 0 {
                Err(Failure::text("E-OP-003: integer division by zero"))
            } else {
                Ok(divide(operands[0], operands[1]))
            }
        }
        PrimitiveOp::Remainder => {
            if operands[1] == 0 {
                Err(Failure::text("E-OP-003: integer division by zero"))
            } else {
                Ok(modulo(operands[0], operands[1]))
            }
        }
        PrimitiveOp::Negate => Ok(-(operands[0] as i128)),
        PrimitiveOp::BitAnd => Ok((operands[0] & operands[1]) as i128),
        PrimitiveOp::BitOr => Ok((operands[0] | operands[1]) as i128),
        PrimitiveOp::BitXor => Ok((operands[0] ^ operands[1]) as i128),
        PrimitiveOp::BitNot => Ok(invert(operands[0], width, signed(ty))),
        PrimitiveOp::ShiftLeft => {
            if operands[1] < 0 || operands[1] >= width as i64 {
                Err(bad_shift(width))
            } else {
                Ok(shift_left(operands[0], operands[1] as u32))
            }
        }
        PrimitiveOp::ShiftRight => {
            if operands[1] < 0 || operands[1] >= width as i64 {
                Err(bad_shift(width))
            } else {
                let divisor: i128 = power_of_two(operands[1] as u32);
                Ok(floor_divide(operands[0] as i128, divisor))
            }
        }
        _ => Err(Failure::text("E-OP-001: invalid integer operation")),
    }
}

// Conversions.

/// An integer as a value of the target type, or nothing when it is out of range.
pub open spec fn fitting(target: TypeView, low: int, high: int, value: Option<i64>) -> Option<ValueView> {
    match value {
        Some(number) => if low <= number <= high {
            Some(wrapped(target, ValueView::Int(number)))
        } else {
            None
        },
        None => None,
    }
}

pub open spec fn no_number() -> HaltView {
    HaltView::Failed(crate::execute::failure::text_failure("E-OP-001: expected numeric conversion source"@))
}

pub open spec fn exact_float(target: TypeView, reply: ReplyView) -> Result<Option<ValueView>, Seq<PartView>> {
    match reply {
        ReplyView::ExactFloat(Some(bits)) => Ok(Some(wrapped(target, ValueView::Float(bits)))),
        ReplyView::ExactFloat(None) => Ok(None),
        _ => Err(crate::execute::session::unexpected()),
    }
}

/// A number converted to the target type, when it can be represented exactly.
/// What only floating-point hardware can tell, the host is asked.
pub open spec fn converted(value: ValueView, target: TypeView, run: RunView, session: SessionView) -> Result<
    (Option<ValueView>, SessionView),
    HaltView,
> {
    match bounds_of(target) {
        Some((low, high, _)) => match crate::execute::values::innermost(value) {
            ValueView::Int(number) => Ok((fitting(target, low, high, Some(number)), session)),
            ValueView::Float(bits) => match crate::execute::session::asked(
                session,
                run,
                RequestView::FloatToInt { bits },
            ) {
                Err(halt) => Err(halt),
                Ok((reply, session)) => match reply {
                    ReplyView::ExactInt(number) => Ok((fitting(target, low, high, number), session)),
                    _ => Err(HaltView::Failed(crate::execute::session::unexpected())),
                },
            },
            _ => Err(no_number()),
        },
        None => {
            let single = target is Float32;
            let request = match crate::execute::values::innermost(value) {
                ValueView::Int(number) => Some(RequestView::IntToFloat { value: number, single }),
                ValueView::Float(bits) => Some(RequestView::FloatToFloat { bits, single }),
                _ => None,
            };
            match request {
                None => Err(no_number()),
                Some(request) => match crate::execute::session::asked(session, run, request) {
                    Err(halt) => Err(halt),
                    Ok((reply, session)) => match exact_float(target, reply) {
                        Err(failure) => Err(HaltView::Failed(failure)),
                        Ok(value) => Ok((value, session)),
                    },
                },
            }
        },
    }
}

fn fit(target: &TypeRef, low: i128, high: i128, value: Option<i64>) -> (result: Option<RuntimeValue>)
    ensures
        crate::execute::values::payload_view(result) == fitting(
            view::type_ref(*target),
            low as int,
            high as int,
            value,
        ),
{
    match value {
        Some(number) => {
            if low <= number as i128 && number as i128 <= high {
                Some(wrap_primitive(target, RuntimeValue::Int(number)))
            } else {
                None
            }
        }
        None => None,
    }
}

fn read_exact_float(target: &TypeRef, reply: &HostReply) -> (result: Result<Option<RuntimeValue>, Failure>)
    ensures
        match result {
            Ok(value) => exact_float(view::type_ref(*target), host_view::reply(*reply)) == Ok::<
                Option<ValueView>,
                Seq<PartView>,
            >(crate::execute::values::payload_view(value)),
            Err(failure) => exact_float(view::type_ref(*target), host_view::reply(*reply)) == Err::<
                Option<ValueView>,
                Seq<PartView>,
            >(failure@),
        },
{
    match reply {
        HostReply::ExactFloat(Some(bits)) => Ok(Some(wrap_primitive(target, RuntimeValue::Float(*bits)))),
        HostReply::ExactFloat(None) => Ok(None),
        _ => Err(unexpected_reply()),
    }
}

fn not_a_number() -> (halt: Halt)
    ensures
        halt@ == no_number(),
{
    Halt::Failed(Failure::text("E-OP-001: expected numeric conversion source"))
}

/// Converts a number to the target type, when it can be represented exactly.
pub fn checked_numeric_conversion(value: &RuntimeValue, target: &TypeRef, run: &Run, session: &mut Session) -> (result: Result<
    Option<RuntimeValue>,
    Halt,
>)
    requires
        old(session).well_formed(),
    ensures
        final(session).well_formed(),
        match result {
            Ok(found) => converted(view::value(*value), view::type_ref(*target), run@, old(session)@) == Ok::<
                (Option<ValueView>, SessionView),
                HaltView,
            >((crate::execute::values::payload_view(found), final(session)@)),
            Err(halt) => converted(view::value(*value), view::type_ref(*target), run@, old(session)@) == Err::<
                (Option<ValueView>, SessionView),
                HaltView,
            >(halt@) && crate::execute::session::stopped(old(session)@, final(session)@, halt@),
        },
{
    match integer_bounds(target) {
        Some((low, high, _)) => match primitive_inner(value) {
            RuntimeValue::Int(number) => Ok(fit(target, low, high, Some(*number))),
            RuntimeValue::Float(bits) => {
                let request = HostRequest::FloatToInt { bits: *bits };
                match session.ask(run, request) {
                    Ok(HostReply::ExactInt(number)) => Ok(fit(target, low, high, *number)),
                    Ok(_) => Err(Halt::Failed(unexpected_reply())),
                    Err(halt) => Err(halt),
                }
            }
            _ => Err(not_a_number()),
        },
        None => {
            let single = matches!(target, TypeRef::Float32);
            let request = match primitive_inner(value) {
                RuntimeValue::Int(number) => HostRequest::IntToFloat { value: *number, single },
                RuntimeValue::Float(bits) => HostRequest::FloatToFloat { bits: *bits, single },
                _ => return Err(not_a_number()),
            };
            let reply = match session.ask(run, request) {
                Ok(reply) => reply,
                Err(halt) => return Err(halt),
            };
            match read_exact_float(target, reply) {
                Ok(value) => Ok(value),
                Err(failure) => Err(Halt::Failed(failure)),
            }
        }
    }
}

// All operations.

/// A pure result as an outcome that leaves the session alone.
pub open spec fn settled(result: Result<ValueView, Seq<PartView>>, session: SessionView) -> Outcome {
    match result {
        Ok(value) => Ok((value, session)),
        Err(failure) => Err(HaltView::Failed(failure)),
    }
}

pub open spec fn bool_result(answer: Option<bool>, refusal: Seq<char>) -> Result<ValueView, Seq<PartView>> {
    match answer {
        Some(flag) => Ok(ValueView::Bool(flag)),
        None => failed(refusal),
    }
}

pub open spec fn bool_operation(op: PrimitiveOp, values: Seq<ValueView>) -> Result<ValueView, Seq<PartView>> {
    match bools_from(values, 0, Seq::empty()) {
        Err(failure) => Err(failure),
        Ok(operands) => if operands.len() < bools_read(op, operands) {
            Err(operand_missing())
        } else {
            bool_result(on_bools(op, operands), "E-OP-001: invalid boolean operation"@)
        },
    }
}

pub open spec fn string_operation(op: PrimitiveOp, values: Seq<ValueView>) -> Result<ValueView, Seq<PartView>> {
    match strings_from(values, 0, Seq::empty()) {
        Err(failure) => Err(failure),
        Ok(operands) => if !compares(op) {
            failed("E-OP-001: invalid string operation"@)
        } else if operands.len() < 2 {
            Err(operand_missing())
        } else {
            bool_result(on_strings(op, operands[0], operands[1]), "E-OP-001: invalid string operation"@)
        },
    }
}

pub open spec fn int_operation(op: PrimitiveOp, ty: TypeView, values: Seq<ValueView>) -> Result<
    ValueView,
    Seq<PartView>,
> {
    match ints_from(values, 0, Seq::empty()) {
        Err(failure) => Err(failure),
        Ok(operands) => {
            if compares(op) {
                if operands.len() < 2 {
                    Err(operand_missing())
                } else {
                    bool_result(compare_ints(op, operands[0], operands[1]), "E-OP-001: invalid integer operation"@)
                }
            } else {
                match bounds_of(ty) {
                    None => failed("E-OP-001: expected integer type"@),
                    Some((_, _, width)) => if operands.len() < ints_read(op) {
                        Err(operand_missing())
                    } else {
                        match on_ints(op, ty, operands, width) {
                            Err(failure) => Err(failure),
                            Ok(value) => in_type(ty, value),
                        }
                    },
                }
            }
        },
    }
}

pub open spec fn float_operation(
    op: PrimitiveOp,
    ty: TypeView,
    values: Seq<ValueView>,
    run: RunView,
    session: SessionView,
) -> Outcome {
    match floats_from(values, 0, Seq::empty()) {
        Err(failure) => Err(HaltView::Failed(failure)),
        Ok(operands) => {
            let left = operands[0];
            let right = if floats_read(op) < 2 {
                0u64
            } else {
                operands[1]
            };
            if floats_read(op) == 0 {
                settled(failed("E-OP-001: invalid float operation"@), session)
            } else if operands.len() < floats_read(op) {
                settled(Err(operand_missing()), session)
            } else {
                match compare_floats(op, left, right) {
                    Some(flag) => Ok((ValueView::Bool(flag), session)),
                    None => match crate::execute::session::asked(
                        session,
                        run,
                        RequestView::FloatArithmetic { op, left, right, single: ty is Float32 },
                    ) {
                        Err(halt) => Err(halt),
                        Ok((reply, session)) => match reply {
                            ReplyView::Float(bits) => Ok((wrapped(ty, ValueView::Float(bits)), session)),
                            _ => Err(HaltView::Failed(crate::execute::session::unexpected())),
                        },
                    },
                }
            }
        },
    }
}

pub open spec fn conversion(values: Seq<ValueView>, target: TypeView, run: RunView, session: SessionView) -> Outcome {
    if values.len() == 0 {
        settled(Err(operand_missing()), session)
    } else {
        match converted(values[0], target, run, session) {
            Err(halt) => Err(halt),
            Ok((Some(value), session)) => Ok((value, session)),
            Ok((None, session)) => if values.len() < 2 {
                settled(Err(operand_missing()), session)
            } else {
                match converted(values[1], target, run, session) {
                    Err(halt) => Err(halt),
                    Ok((Some(value), session)) => Ok((value, session)),
                    Ok((None, session)) => settled(
                        failed("internal: statically checked conversion fallback was not representable"@),
                        session,
                    ),
                }
            },
        }
    }
}

/// What a primitive operation does.
pub open spec fn primitive(
    op: PrimitiveOp,
    operand_type: TypeView,
    return_type: TypeView,
    values: Seq<ValueView>,
    run: RunView,
    session: SessionView,
) -> Outcome {
    if op == PrimitiveOp::Convert {
        conversion(values, return_type, run, session)
    } else if operand_type is Bool {
        settled(bool_operation(op, values), session)
    } else if operand_type is Str {
        settled(string_operation(op, values), session)
    } else if operand_type is Float32 || operand_type is Float64 {
        float_operation(op, operand_type, values, run, session)
    } else {
        settled(int_operation(op, operand_type, values), session)
    }
}

fn flag_or(answer: Option<bool>, refusal: &str) -> (result: Result<RuntimeValue, Failure>)
    ensures
        crate::execute::lists::outcome(result) == bool_result(answer, refusal@),
{
    match answer {
        Some(flag) => Ok(RuntimeValue::Bool(flag)),
        None => Err(Failure::text(refusal)),
    }
}

fn run_bools(op: PrimitiveOp, values: &Vec<RuntimeValue>) -> (result: Result<RuntimeValue, Failure>)
    ensures
        crate::execute::lists::outcome(result) == bool_operation(op, view::values(values@)),
{
    match read_bools(values) {
        Ok(operands) => if operands.len() < count_bools_read(op, &operands) {
            Err(missing_operand())
        } else {
            flag_or(apply_bools(op, &operands), "E-OP-001: invalid boolean operation")
        },
        Err(failure) => Err(failure),
    }
}

fn run_strings(op: PrimitiveOp, values: &Vec<RuntimeValue>) -> (result: Result<RuntimeValue, Failure>)
    ensures
        crate::execute::lists::outcome(result) == string_operation(op, view::values(values@)),
{
    match read_strings(values) {
        Ok(operands) => {
            if !is_comparison(op) {
                return Err(Failure::text("E-OP-001: invalid string operation"));
            }
            assert(view::texts(operands@).len() == operands@.len());
            if operands.len() < 2 {
                return Err(missing_operand());
            }
            let ghost all = view::texts(operands@);
            assert(all[0] == operands@[0]@ && all[1] == operands@[1]@);
            let answer = apply_strings(op, operands[0].as_str(), operands[1].as_str());
            flag_or(answer, "E-OP-001: invalid string operation")
        }
        Err(failure) => Err(failure),
    }
}

fn run_ints(op: PrimitiveOp, ty: &TypeRef, values: &Vec<RuntimeValue>) -> (result: Result<RuntimeValue, Failure>)
    ensures
        crate::execute::lists::outcome(result) == int_operation(op, view::type_ref(*ty), view::values(values@)),
{
    let operands = match read_ints(values) {
        Ok(operands) => operands,
        Err(failure) => return Err(failure),
    };
    if is_comparison(op) {
        if operands.len() < 2 {
            return Err(missing_operand());
        }
        return flag_or(int_comparison(op, operands[0], operands[1]), "E-OP-001: invalid integer operation");
    }
    let width: u32 = match integer_bounds(ty) {
        Some((_, _, width)) => width,
        None => return Err(Failure::text("E-OP-001: expected integer type")),
    };
    if operands.len() < count_ints_read(op) {
        return Err(missing_operand());
    }
    match apply_ints(op, ty, &operands, width) {
        Ok(value) => checked_integer_result(ty, value),
        Err(failure) => Err(failure),
    }
}

fn arithmetic(op: PrimitiveOp) -> (result: bool)
    ensures
        result == is_arithmetic(op),
{
    match op {
        PrimitiveOp::Add | PrimitiveOp::Subtract | PrimitiveOp::Multiply => true,
        PrimitiveOp::Divide | PrimitiveOp::Remainder | PrimitiveOp::Negate => true,
        _ => false,
    }
}

fn run_floats(op: PrimitiveOp, ty: &TypeRef, values: &Vec<RuntimeValue>, run: &Run, session: &mut Session) -> (result: Result<
    RuntimeValue,
    Halt,
>)
    requires
        old(session).well_formed(),
    ensures
        final(session).well_formed(),
        crate::execute::session::stepped(result, *final(session)) == float_operation(
            op,
            view::type_ref(*ty),
            view::values(values@),
            run@,
            old(session)@,
        ),
{
    let operands = match read_floats(values) {
        Ok(operands) => operands,
        Err(failure) => return Err(Halt::Failed(failure)),
    };
    let count: usize = count_floats_read(op);
    if count == 0 {
        return Err(Halt::Failed(Failure::text("E-OP-001: invalid float operation")));
    }
    if operands.len() < count {
        return Err(Halt::Failed(missing_operand()));
    }
    let left: u64 = operands[0];
    let right: u64 = if count < 2 {
        0
    } else {
        operands[1]
    };
    match float_comparison(op, left, right) {
        Some(flag) => return Ok(RuntimeValue::Bool(flag)),
        None => {}
    }
    let single = matches!(ty, TypeRef::Float32);
    let request = HostRequest::FloatArithmetic { op, left, right, single };
    match session.ask(run, request) {
        Ok(HostReply::Float(bits)) => Ok(wrap_primitive(ty, RuntimeValue::Float(*bits))),
        Ok(_) => Err(Halt::Failed(unexpected_reply())),
        Err(halt) => Err(halt),
    }
}

fn run_conversion(values: &Vec<RuntimeValue>, target: &TypeRef, run: &Run, session: &mut Session) -> (result: Result<
    RuntimeValue,
    Halt,
>)
    requires
        old(session).well_formed(),
    ensures
        final(session).well_formed(),
        crate::execute::session::stepped(result, *final(session)) == conversion(
            view::values(values@),
            view::type_ref(*target),
            run@,
            old(session)@,
        ),
{
    assert(view::values(values@).len() == values@.len());
    if values.len() == 0 {
        return Err(Halt::Failed(missing_operand()));
    }
    match checked_numeric_conversion(&values[0], target, run, session) {
        Ok(Some(value)) => return Ok(value),
        Ok(None) => {}
        Err(halt) => return Err(halt),
    }
    if values.len() < 2 {
        return Err(Halt::Failed(missing_operand()));
    }
    match checked_numeric_conversion(&values[1], target, run, session) {
        Ok(Some(value)) => Ok(value),
        Ok(None) => Err(
            Halt::Failed(
                Failure::text("internal: statically checked conversion fallback was not representable"),
            ),
        ),
        Err(halt) => Err(halt),
    }
}

pub(crate) fn settle(result: Result<RuntimeValue, Failure>) -> (settled: Result<RuntimeValue, Halt>)
    ensures
        match settled {
            Ok(value) => result == Ok::<RuntimeValue, Failure>(value),
            Err(halt) => result is Err && halt@ == HaltView::Failed(result->Err_0@),
        },
{
    match result {
        Ok(value) => Ok(value),
        Err(failure) => Err(Halt::Failed(failure)),
    }
}

/// Applies a primitive operation to its operands.
pub fn eval_primitive(
    op: PrimitiveOp,
    operand_type: &TypeRef,
    return_type: &TypeRef,
    values: &Vec<RuntimeValue>,
    run: &Run,
    session: &mut Session,
) -> (result: Result<RuntimeValue, Halt>)
    requires
        old(session).well_formed(),
    ensures
        final(session).well_formed(),
        crate::execute::session::stepped(result, *final(session)) == primitive(
            op,
            view::type_ref(*operand_type),
            view::type_ref(*return_type),
            view::values(values@),
            run@,
            old(session)@,
        ),
{
    assert(view::values(values@).len() == values@.len());
    if op == PrimitiveOp::Convert {
        return run_conversion(values, return_type, run, session);
    }
    match operand_type {
        TypeRef::Bool => settle(run_bools(op, values)),
        TypeRef::Str => settle(run_strings(op, values)),
        TypeRef::Float32 | TypeRef::Float64 => run_floats(op, operand_type, values, run, session),
        _ => settle(run_ints(op, operand_type, values)),
    }
}

// Laws.

/// An integer result carries its type and lies within the type's bounds.
pub proof fn law_integer_results_are_in_range(ty: TypeView, value: int)
    requires
        in_type(ty, value) is Ok,
    ensures
        bounds_of(ty) matches Some((low, high, _)) && low <= value <= high,
        crate::execute::values::innermost(in_type(ty, value)->Ok_0) == ValueView::Int(value as i64),
{
    reveal_with_fuel(crate::execute::values::innermost, 2);
}

/// Quotient and remainder recompose the dividend, and the remainder is smaller
/// than the divisor.
pub proof fn law_division_recomposes(left: int, right: int)
    requires
        right != 0,
    ensures
        quotient(left, right) * right + remainder(left, right) == left,
        magnitude(remainder(left, right)) < magnitude(right),
{
    let top = magnitude(left);
    let bottom = magnitude(right);
    vstd::arithmetic::div_mod::lemma_fundamental_div_mod(top, bottom);
    let q = top / bottom;
    let r = top % bottom;
    assert(0 <= r < bottom);
    assert(quotient(left, right) * right + remainder(left, right) == left) by (nonlinear_arith)
        requires
            top == bottom * q + r,
            top == (if left < 0 { -left } else { left }),
            bottom == (if right < 0 { -right } else { right }),
            quotient(left, right) == (if (left < 0) == (right < 0) { q } else { -q }),
            remainder(left, right) == (if left < 0 { -r } else { r }),
    ;
}

} // verus!
