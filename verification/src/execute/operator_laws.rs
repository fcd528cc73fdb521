//! What operators compute and what patterns match.
use vstd::prelude::*;
use vstd::arithmetic::power2::pow2;
use crate::execute::pattern::{self, MatchContext};
use crate::execute::primitive;
use crate::execute::semantics::Env;
use crate::execute::session::{Outcome, RunView, SessionView};
use crate::execute::values;
use crate::lowered::ir::PrimitiveOp;
use crate::lowered::view::{FieldPatternView, FieldValueView, PatternView, TypeView, ValueView};

verus! {

// Integers.

/// The least and the greatest integer of a type. Unsigned values of 64 bits are
/// held in signed ones, so their upper half is not there.
pub open spec fn holds_integer(ty: TypeView, number: int) -> bool {
    match ty {
        TypeView::Int8 => -128 <= number < 128,
        TypeView::Int16 => -32768 <= number < 32768,
        TypeView::Int32 => -2147483648 <= number < 2147483648,
        TypeView::Int64 => i64::MIN <= number <= i64::MAX,
        TypeView::UInt8 => 0 <= number < 256,
        TypeView::UInt16 => 0 <= number < 65536,
        TypeView::UInt32 => 0 <= number < 4294967296,
        TypeView::UInt64 => 0 <= number <= i64::MAX,
        _ => false,
    }
}

pub open spec fn is_integer_type(ty: TypeView) -> bool {
    holds_integer(ty, 0)
}

pub open spec fn width_of(ty: TypeView) -> int {
    match ty {
        TypeView::Int8 | TypeView::UInt8 => 8,
        TypeView::Int16 | TypeView::UInt16 => 16,
        TypeView::Int32 | TypeView::UInt32 => 32,
        _ => 64,
    }
}

/// What an operator makes of two integers.
pub open spec fn on_two(op: PrimitiveOp, ty: TypeView, left: i64, right: i64, run: RunView, session: SessionView) -> Outcome {
    primitive::primitive(op, ty, ty, seq![ValueView::Int(left), ValueView::Int(right)], run, session)
}

/// Whether the outcome is the number where the type has it, and an error where it
/// has not.
pub open spec fn yields(outcome: Outcome, ty: TypeView, number: int, session: SessionView) -> bool {
    if holds_integer(ty, number) {
        outcome matches Ok((value, left)) && left == session && values::innermost(value) == ValueView::Int(number as i64)
    } else {
        outcome is Err
    }
}

/// Whether the outcome is a truth value.
pub open spec fn answers(outcome: Outcome, flag: bool, session: SessionView) -> bool {
    outcome == Outcome::Ok((ValueView::Bool(flag), session))
}

proof fn lemma_two_ints(left: i64, right: i64)
    ensures
        primitive::ints_from(seq![ValueView::Int(left), ValueView::Int(right)], 0, Seq::empty()) == Ok::<
            Seq<i64>,
            Seq<crate::execute::failure::PartView>,
        >(seq![left, right]),
{
    let operands = seq![ValueView::Int(left), ValueView::Int(right)];
    reveal_with_fuel(primitive::ints_from, 3);
    reveal_with_fuel(values::innermost, 2);
    assert(Seq::<i64>::empty().push(left).push(right) =~= seq![left, right]);
}

proof fn lemma_one_int(number: i64)
    ensures
        primitive::ints_from(seq![ValueView::Int(number)], 0, Seq::empty()) == Ok::<
            Seq<i64>,
            Seq<crate::execute::failure::PartView>,
        >(seq![number]),
{
    reveal_with_fuel(primitive::ints_from, 2);
    reveal_with_fuel(values::innermost, 2);
    assert(Seq::<i64>::empty().push(number) =~= seq![number]);
}

/// Sum, difference and product of integers are exact, or an error where the type
/// does not hold them.
pub proof fn law_integer_arithmetic_is_exact(ty: TypeView, left: i64, right: i64, run: RunView, session: SessionView)
    requires
        is_integer_type(ty),
    ensures
        yields(on_two(PrimitiveOp::Add, ty, left, right, run, session), ty, left + right, session),
        yields(on_two(PrimitiveOp::Subtract, ty, left, right, run, session), ty, left - right, session),
        yields(on_two(PrimitiveOp::Multiply, ty, left, right, run, session), ty, left * right, session),
        yields(
            primitive::primitive(PrimitiveOp::Negate, ty, ty, seq![ValueView::Int(left)], run, session),
            ty,
            -left,
            session,
        ),
{
    lemma_two_ints(left, right);
    lemma_one_int(left);
    reveal_with_fuel(values::innermost, 2);
}

/// Division rounds towards zero and the remainder has the sign of the dividend;
/// both refuse a divisor of zero.
pub proof fn law_division_rounds_towards_zero(ty: TypeView, left: i64, right: i64, run: RunView, session: SessionView)
    requires
        is_integer_type(ty),
    ensures
        right == 0 ==> on_two(PrimitiveOp::Divide, ty, left, right, run, session) is Err && on_two(
            PrimitiveOp::Remainder,
            ty,
            left,
            right,
            run,
            session,
        ) is Err,
        right != 0 ==> exists|quotient: int, rest: int|
            #![trigger yields(on_two(PrimitiveOp::Divide, ty, left, right, run, session), ty, quotient, session), yields(on_two(PrimitiveOp::Remainder, ty, left, right, run, session), ty, rest, session)]
            {
            &&& quotient * right + rest == left
            &&& (rest == 0 || (rest < 0) == (left < 0))
            &&& -primitive::magnitude(right as int) < rest < primitive::magnitude(right as int)
            &&& yields(on_two(PrimitiveOp::Divide, ty, left, right, run, session), ty, quotient, session)
            &&& yields(on_two(PrimitiveOp::Remainder, ty, left, right, run, session), ty, rest, session)
        },
{
    lemma_two_ints(left, right);
    reveal_with_fuel(values::innermost, 2);
    if right != 0 {
        primitive::law_division_recomposes(left as int, right as int);
        let quotient = primitive::quotient(left as int, right as int);
        let rest = primitive::remainder(left as int, right as int);
        let top = primitive::magnitude(left as int);
        let bottom = primitive::magnitude(right as int);
        vstd::arithmetic::div_mod::lemma_fundamental_div_mod(top, bottom);
        vstd::arithmetic::div_mod::lemma_mod_bound(top, bottom);
        assert(yields(on_two(PrimitiveOp::Divide, ty, left, right, run, session), ty, quotient, session));
        assert(yields(on_two(PrimitiveOp::Remainder, ty, left, right, run, session), ty, rest, session));
    }
}

/// Integers compare as numbers.
pub proof fn law_integers_compare_as_numbers(ty: TypeView, left: i64, right: i64, run: RunView, session: SessionView)
    requires
        is_integer_type(ty),
    ensures
        answers(on_two(PrimitiveOp::Equal, ty, left, right, run, session), left == right, session),
        answers(on_two(PrimitiveOp::NotEqual, ty, left, right, run, session), left != right, session),
        answers(on_two(PrimitiveOp::LessThan, ty, left, right, run, session), left < right, session),
        answers(on_two(PrimitiveOp::LessOrEqual, ty, left, right, run, session), left <= right, session),
        answers(on_two(PrimitiveOp::GreaterThan, ty, left, right, run, session), left > right, session),
        answers(on_two(PrimitiveOp::GreaterOrEqual, ty, left, right, run, session), left >= right, session),
{
    lemma_two_ints(left, right);
}

/// Operators on bits: the complement of a signed value is its negative less one, of
/// an unsigned one what is missing to the greatest of its width; a shift multiplies
/// or divides by a power of two, rounding down, by less than the width.
pub proof fn law_bit_operators(ty: TypeView, left: i64, right: i64, run: RunView, session: SessionView)
    requires
        is_integer_type(ty),
        holds_integer(ty, left as int),
    ensures
        yields(on_two(PrimitiveOp::BitAnd, ty, left, right, run, session), ty, (left & right) as int, session),
        yields(on_two(PrimitiveOp::BitOr, ty, left, right, run, session), ty, (left | right) as int, session),
        yields(on_two(PrimitiveOp::BitXor, ty, left, right, run, session), ty, (left ^ right) as int, session),
        (right < 0 || right >= width_of(ty)) ==> on_two(PrimitiveOp::ShiftLeft, ty, left, right, run, session) is Err
            && on_two(PrimitiveOp::ShiftRight, ty, left, right, run, session) is Err,
        0 <= right < width_of(ty) ==> yields(
            on_two(PrimitiveOp::ShiftLeft, ty, left, right, run, session),
            ty,
            left * pow2(right as nat),
            session,
        ),
        0 <= right < width_of(ty) ==> exists|result: int|
            result * pow2(right as nat) <= left < (result + 1) * pow2(right as nat) && #[trigger] yields(
                on_two(PrimitiveOp::ShiftRight, ty, left, right, run, session),
                ty,
                result,
                session,
            ),
{
    lemma_two_ints(left, right);
    reveal_with_fuel(values::innermost, 2);
    if 0 <= right < width_of(ty) {
        let by = pow2(right as nat) as int;
        vstd::arithmetic::power2::lemma_pow2_pos(right as nat);
        let result = left as int / by;
        vstd::arithmetic::div_mod::lemma_fundamental_div_mod(left as int, by);
        vstd::arithmetic::div_mod::lemma_mod_bound(left as int, by);
        assert(result * by <= left < (result + 1) * by) by (nonlinear_arith)
            requires
                left == by * result + left as int % by,
                0 <= left as int % by < by,
        ;
        assert(yields(on_two(PrimitiveOp::ShiftRight, ty, left, right, run, session), ty, result, session));
    }
}

/// The complement of a signed value is its negative less one; of an unsigned one
/// with fewer than 64 bits it is what is missing to the greatest value.
pub proof fn law_complements(ty: TypeView, number: i64, run: RunView, session: SessionView)
    requires
        is_integer_type(ty),
        holds_integer(ty, number as int),
    ensures
        primitive::is_signed(ty) ==> yields(
            primitive::primitive(PrimitiveOp::BitNot, ty, ty, seq![ValueView::Int(number)], run, session),
            ty,
            -number - 1,
            session,
        ),
        ty is UInt8 ==> yields(
            primitive::primitive(PrimitiveOp::BitNot, ty, ty, seq![ValueView::Int(number)], run, session),
            ty,
            255 - number,
            session,
        ),
        ty is UInt16 ==> yields(
            primitive::primitive(PrimitiveOp::BitNot, ty, ty, seq![ValueView::Int(number)], run, session),
            ty,
            65535 - number,
            session,
        ),
        ty is UInt32 ==> yields(
            primitive::primitive(PrimitiveOp::BitNot, ty, ty, seq![ValueView::Int(number)], run, session),
            ty,
            4294967295 - number,
            session,
        ),
{
    lemma_one_int(number);
    reveal_with_fuel(values::innermost, 2);
    vstd::arithmetic::power2::lemma2_to64();
    vstd::arithmetic::power2::lemma2_to64_rest();
    let width = width_of(ty) as nat;
    let whole = pow2(width) as int;
    let raw = (-number - 1) % whole;
    if number >= 0 {
        vstd::arithmetic::div_mod::lemma_fundamental_div_mod_converse(-number - 1, whole, -1, whole - number - 1);
        assert(raw == whole - number - 1);
    } else {
        vstd::arithmetic::div_mod::lemma_small_mod((-number - 1) as nat, whole as nat);
        assert(raw == -number - 1);
    }
}

// Truth values and texts.

/// The operators on truth values.
pub proof fn law_truth_tables(left: bool, right: bool, run: RunView, session: SessionView)
    ensures
        ({
            let both = seq![ValueView::Bool(left), ValueView::Bool(right)];
            let ty = TypeView::Bool;
            &&& answers(primitive::primitive(PrimitiveOp::And, ty, ty, both, run, session), left && right, session)
            &&& answers(primitive::primitive(PrimitiveOp::Or, ty, ty, both, run, session), left || right, session)
            &&& answers(primitive::primitive(PrimitiveOp::Equal, ty, ty, both, run, session), left == right, session)
            &&& answers(primitive::primitive(PrimitiveOp::NotEqual, ty, ty, both, run, session), left != right, session)
            &&& answers(
                primitive::primitive(PrimitiveOp::Not, ty, ty, seq![ValueView::Bool(left)], run, session),
                !left,
                session,
            )
        }),
{
    reveal_with_fuel(primitive::bools_from, 3);
    reveal_with_fuel(values::innermost, 2);
    assert(Seq::<bool>::empty().push(left).push(right) =~= seq![left, right]);
    assert(Seq::<bool>::empty().push(left) =~= seq![left]);
}

/// Texts are equal where they hold the same characters, and are otherwise ordered
/// one way or the other, by their first difference.
pub proof fn law_texts_compare_by_characters(
    left: Seq<char>,
    right: Seq<char>,
    place: int,
    run: RunView,
    session: SessionView,
)
    ensures
        ({
            let both = seq![ValueView::Str(left), ValueView::Str(right)];
            let ty = TypeView::Str;
            &&& answers(primitive::primitive(PrimitiveOp::Equal, ty, ty, both, run, session), left == right, session)
            &&& answers(primitive::primitive(PrimitiveOp::NotEqual, ty, ty, both, run, session), left != right, session)
            &&& (0 <= place < left.len() && place < right.len() && left.take(place) == right.take(place) && left[place]
                < right[place]) ==> {
                &&& answers(primitive::primitive(PrimitiveOp::LessThan, ty, ty, both, run, session), true, session)
                &&& answers(primitive::primitive(PrimitiveOp::LessOrEqual, ty, ty, both, run, session), true, session)
                &&& answers(primitive::primitive(PrimitiveOp::GreaterThan, ty, ty, both, run, session), false, session)
                &&& answers(primitive::primitive(PrimitiveOp::GreaterOrEqual, ty, ty, both, run, session), false, session)
            }
            &&& (left.len() < right.len() && left == right.take(left.len() as int)) ==> {
                &&& answers(primitive::primitive(PrimitiveOp::LessThan, ty, ty, both, run, session), true, session)
                &&& answers(primitive::primitive(PrimitiveOp::GreaterOrEqual, ty, ty, both, run, session), false, session)
            }
            &&& left == right ==> {
                &&& answers(primitive::primitive(PrimitiveOp::LessThan, ty, ty, both, run, session), false, session)
                &&& answers(primitive::primitive(PrimitiveOp::LessOrEqual, ty, ty, both, run, session), true, session)
                &&& answers(primitive::primitive(PrimitiveOp::GreaterThan, ty, ty, both, run, session), false, session)
                &&& answers(primitive::primitive(PrimitiveOp::GreaterOrEqual, ty, ty, both, run, session), true, session)
            }
        }),
{
    reveal_with_fuel(primitive::strings_from, 3);
    reveal_with_fuel(values::innermost, 2);
    assert(Seq::<Seq<char>>::empty().push(left).push(right) =~= seq![left, right]);
    if 0 <= place < left.len() && place < right.len() && left.take(place) == right.take(place) && left[place]
        < right[place] {
        lemma_first_difference(left, right, 0, place);
    }
    if left.len() < right.len() && left == right.take(left.len() as int) {
        lemma_leading_text(left, right, 0);
    }
    if left == right {
        crate::text::lemma_precedes_irreflexive(left, 0);
    }
}

proof fn lemma_first_difference(left: Seq<char>, right: Seq<char>, from: int, place: int)
    requires
        0 <= from <= place < left.len(),
        place < right.len(),
        left.take(place) == right.take(place),
        left[place] < right[place],
    ensures
        crate::text::precedes_from(left, right, from),
        !crate::text::precedes_from(right, left, from),
    decreases place - from,
{
    if from < place {
        assert(left.take(place)[from] == left[from]);
        assert(right.take(place)[from] == right[from]);
        assert(left[from] == right[from]);
        lemma_first_difference(left, right, from + 1, place);
    }
}

proof fn lemma_leading_text(left: Seq<char>, right: Seq<char>, from: int)
    requires
        0 <= from <= left.len() < right.len(),
        left == right.take(left.len() as int),
    ensures
        crate::text::precedes_from(left, right, from),
        !crate::text::precedes_from(right, left, from),
    decreases left.len() - from,
{
    if from < left.len() {
        assert(left[from] == right.take(left.len() as int)[from]);
        lemma_leading_text(left, right, from + 1);
    }
}

// Floats.

/// What is no number compares false, but for being unequal. Others compare by sign
/// and magnitude.
pub proof fn law_floats_compare_by_sign_and_magnitude(
    left: u64,
    right: u64,
    run: RunView,
    session: SessionView,
)
    ensures
        ({
            let both = seq![ValueView::Float(left), ValueView::Float(right)];
            let ty = TypeView::Float64;
            let sign: u64 = 0x8000_0000_0000_0000;
            &&& (values::is_nan(left) || values::is_nan(right)) ==> {
                &&& answers(primitive::primitive(PrimitiveOp::Equal, ty, ty, both, run, session), false, session)
                &&& answers(primitive::primitive(PrimitiveOp::NotEqual, ty, ty, both, run, session), true, session)
                &&& answers(primitive::primitive(PrimitiveOp::LessThan, ty, ty, both, run, session), false, session)
                &&& answers(primitive::primitive(PrimitiveOp::LessOrEqual, ty, ty, both, run, session), false, session)
                &&& answers(primitive::primitive(PrimitiveOp::GreaterThan, ty, ty, both, run, session), false, session)
                &&& answers(primitive::primitive(PrimitiveOp::GreaterOrEqual, ty, ty, both, run, session), false, session)
            }
            &&& (!values::is_nan(left) && !values::is_nan(right) && left < sign && right < sign) ==> {
                &&& answers(primitive::primitive(PrimitiveOp::Equal, ty, ty, both, run, session), left == right, session)
                &&& answers(primitive::primitive(PrimitiveOp::LessThan, ty, ty, both, run, session), left < right, session)
                &&& answers(primitive::primitive(PrimitiveOp::LessOrEqual, ty, ty, both, run, session), left <= right, session)
                &&& answers(primitive::primitive(PrimitiveOp::GreaterThan, ty, ty, both, run, session), left > right, session)
                &&& answers(primitive::primitive(PrimitiveOp::GreaterOrEqual, ty, ty, both, run, session), left >= right, session)
            }
            &&& (!values::is_nan(left) && !values::is_nan(right) && left > sign && right >= sign) ==> {
                &&& answers(primitive::primitive(PrimitiveOp::LessThan, ty, ty, both, run, session), left > right, session)
                &&& answers(primitive::primitive(PrimitiveOp::GreaterThan, ty, ty, both, run, session), left < right, session)
            }
            &&& (!values::is_nan(left) && !values::is_nan(right) && left > sign && right < sign) ==> {
                &&& answers(primitive::primitive(PrimitiveOp::LessThan, ty, ty, both, run, session), true, session)
                &&& answers(primitive::primitive(PrimitiveOp::GreaterThan, ty, ty, both, run, session), false, session)
            }
            &&& (left == sign && right == 0) ==> answers(
                primitive::primitive(PrimitiveOp::Equal, ty, ty, both, run, session),
                true,
                session,
            )
        }),
{
    reveal_with_fuel(primitive::floats_from, 3);
    reveal_with_fuel(values::innermost, 2);
    assert(Seq::<u64>::empty().push(left).push(right) =~= seq![left, right]);
    assert(primitive::floats_from(seq![ValueView::Float(left), ValueView::Float(right)], 0, Seq::empty()) == Ok::<
        Seq<u64>,
        Seq<crate::execute::failure::PartView>,
    >(seq![left, right]));
    assert(left < 0x8000_0000_0000_0000u64 ==> left % 0x8000_0000_0000_0000u64 == left);
    assert(right < 0x8000_0000_0000_0000u64 ==> right % 0x8000_0000_0000_0000u64 == right);
    assert(left >= 0x8000_0000_0000_0000u64 ==> left % 0x8000_0000_0000_0000u64 == left - 0x8000_0000_0000_0000u64);
    assert(right >= 0x8000_0000_0000_0000u64 ==> right % 0x8000_0000_0000_0000u64 == right - 0x8000_0000_0000_0000u64);
}

// Conversions.

/// An integer is converted to an integer type that holds it and stays the same
/// number; where the type does not hold it, the second operand is taken instead.
pub proof fn law_conversions_keep_the_number(
    number: i64,
    other: i64,
    operand_type: TypeView,
    target: TypeView,
    run: RunView,
    session: SessionView,
)
    requires
        is_integer_type(target),
    ensures
        yields(
            primitive::primitive(
                PrimitiveOp::Convert,
                operand_type,
                target,
                seq![ValueView::Int(number), ValueView::Int(other)],
                run,
                session,
            ),
            target,
            if holds_integer(target, number as int) { number as int } else { other as int },
            session,
        ),
{
    reveal_with_fuel(values::innermost, 2);
    let values = seq![ValueView::Int(number), ValueView::Int(other)];
    assert(values[0] == ValueView::Int(number) && values[1] == ValueView::Int(other));
}

// Patterns.

/// The pattern for anything matches and binds nothing; a name matches and binds the
/// value; a constant matches what equals it.
pub proof fn law_simple_patterns(
    name: Seq<char>,
    expected: ValueView,
    value: ValueView,
    context: MatchContext,
    env: Env,
)
    ensures
        pattern::matched(PatternView::Wildcard, value, context, env) == (true, env),
        pattern::matched(PatternView::Bind(name), value, context, env).0,
        pattern::matched(PatternView::Bind(name), value, context, env).1 == env.insert(
            name,
            if value is Typed { *value->Typed_value } else { value },
        ),
        pattern::matched(PatternView::Literal(expected), value, context, env).1 == env,
        (expected is Int || expected is Bool || expected is Str || expected is Void) && !(value is Typed)
            ==> pattern::matched(PatternView::Literal(expected), value, context, env).0 == (expected == value),
{
}

/// A case matches a value of its enum and its tag alone, and its payload what the
/// value carries.
pub proof fn law_case_patterns(
    key: Seq<char>,
    tag: Seq<char>,
    part: PatternView,
    actual_key: Seq<char>,
    actual_tag: Seq<char>,
    held: ValueView,
    context: MatchContext,
    env: Env,
)
    ensures
        ({
            let value = ValueView::Enum { enum_key: actual_key, tag: actual_tag, payload: Some(Box::new(held)) };
            let bare = ValueView::Enum { enum_key: actual_key, tag: actual_tag, payload: None };
            let with_part = PatternView::Enum { enum_key: key, tag, payload: Some(Box::new(part)) };
            let without = PatternView::Enum { enum_key: key, tag, payload: None };
            &&& tag != actual_tag ==> !pattern::matched(with_part, value, context, env).0 && !pattern::matched(
                without,
                bare,
                context,
                env,
            ).0
            &&& tag == actual_tag && key == actual_key ==> {
                &&& pattern::matched(with_part, value, context, env) == pattern::matched(part, held, context, env)
                &&& pattern::matched(without, bare, context, env) == (true, env)
                &&& !pattern::matched(with_part, bare, context, env).0
                &&& pattern::matched(without, value, context, env).0 == (held is Void)
            }
        }),
        !(held is Enum) && !(held is Typed) ==> !pattern::matched(
            (PatternView::Enum { enum_key: key, tag, payload: Some(Box::new(part)) }),
            held,
            context,
            env,
        ).0,
{
    let value = ValueView::Enum { enum_key: actual_key, tag: actual_tag, payload: Some(Box::new(held)) };
    let with_part = PatternView::Enum { enum_key: key, tag, payload: Some(Box::new(part)) };
    assert(*with_part->Enum_payload->Some_0 == part);
    assert(*value->Enum_payload->Some_0 == held);
}

proof fn lemma_items_push(
    items: Seq<PatternView>,
    last: PatternView,
    from: int,
    values: Seq<ValueView>,
    value: ValueView,
    context: MatchContext,
    env: Env,
)
    requires
        0 <= from <= items.len() == values.len(),
    ensures
        pattern::matched_items(items.push(last), from, values.push(value), context, env) == ({
            let (found, bound) = pattern::matched_items(items, from, values, context, env);
            if found {
                pattern::matched(last, value, context, bound)
            } else {
                (false, bound)
            }
        }),
    decreases items.len() - from,
{
    let all = items.push(last);
    let held = values.push(value);
    if from < items.len() {
        assert(all[from] == items[from] && held[from] == values[from]);
        let (found, bound) = pattern::matched(items[from], values[from], context, env);
        if found {
            lemma_items_push(items, last, from + 1, values, value, context, bound);
        }
    } else {
        assert(all[from] == last && held[from] == value);
        let (found, bound) = pattern::matched(last, value, context, env);
        assert(pattern::matched_items(all, from + 1, held, context, bound) == (true, bound));
    }
}

/// The pattern of a tuple or an array matches one of as many items, item by item,
/// each with what the ones before it bound.
pub proof fn law_item_patterns(
    items: Seq<PatternView>,
    last: PatternView,
    values: Seq<ValueView>,
    value: ValueView,
    context: MatchContext,
    env: Env,
)
    ensures
        items.len() != values.len() ==> !pattern::matched(
            PatternView::Tuple(items),
            ValueView::Tuple(values),
            context,
            env,
        ).0 && !pattern::matched(PatternView::Array(items), ValueView::Array(values), context, env).0,
        !pattern::matched(PatternView::Tuple(items), ValueView::Array(values), context, env).0,
        !pattern::matched(PatternView::Array(items), ValueView::Tuple(values), context, env).0,
        pattern::matched(PatternView::Tuple(Seq::empty()), ValueView::Tuple(Seq::empty()), context, env) == (true, env),
        pattern::matched(PatternView::Array(items), ValueView::Array(values), context, env) == pattern::matched(
            PatternView::Tuple(items),
            ValueView::Tuple(values),
            context,
            env,
        ),
        items.len() == values.len() ==> pattern::matched(
            PatternView::Tuple(items.push(last)),
            ValueView::Tuple(values.push(value)),
            context,
            env,
        ) == ({
            let (found, bound) = pattern::matched(PatternView::Tuple(items), ValueView::Tuple(values), context, env);
            if found {
                pattern::matched(last, value, context, bound)
            } else {
                (false, bound)
            }
        }),
{
    assert(pattern::matched_items(Seq::empty(), 0, Seq::empty(), context, env) == (true, env));
    if items.len() == values.len() {
        lemma_items_push(items, last, 0, values, value, context, env);
    }
}

proof fn lemma_fields_push(
    fields: Seq<FieldPatternView>,
    last: FieldPatternView,
    from: int,
    values: Seq<FieldValueView>,
    context: MatchContext,
    env: Env,
)
    requires
        0 <= from <= fields.len(),
    ensures
        pattern::matched_fields(fields.push(last), from, values, context, env) == ({
            let (found, bound) = pattern::matched_fields(fields, from, values, context, env);
            if !found {
                (false, bound)
            } else {
                match crate::execute::lists::field_value(values, last.name) {
                    Some(value) => {
                        pattern::matched(last.pattern, value, context, bound)
                    },
                    None => (false, bound),
                }
            }
        }),
    decreases fields.len() - from,
{
    let all = fields.push(last);
    if from < fields.len() {
        assert(all[from] == fields[from]);
        match crate::execute::lists::field_value(values, fields[from].name) {
            None => {}
            Some(value) => {
                let (found, bound) = pattern::matched(fields[from].pattern, value, context, env);
                if found {
                    lemma_fields_push(fields, last, from + 1, values, context, bound);
                }
            }
        }
    } else {
        assert(all[from] == last);
        match crate::execute::lists::field_value(values, last.name) {
            None => {}
            Some(value) => {
                let (found, bound) = pattern::matched(last.pattern, value, context, env);
                assert(pattern::matched_fields(all, from + 1, values, context, bound) == (true, bound));
            }
        }
    }
}

/// The pattern of a record matches one that has all of its names, each with a value
/// that its own pattern matches; other fields do not matter.
pub proof fn law_record_patterns(
    fields: Seq<FieldPatternView>,
    last: FieldPatternView,
    values: Seq<FieldValueView>,
    place: int,
    context: MatchContext,
    env: Env,
)
    requires
        0 <= place <= values.len(),
        forall|i: int| 0 <= i < place ==> (#[trigger] values[i]).name != last.name,
        place < values.len() ==> values[place].name == last.name,
    ensures
        pattern::matched(PatternView::Record(Seq::empty()), ValueView::Record(values), context, env) == (true, env),
        ({
            let (found, bound) = pattern::matched(PatternView::Record(fields), ValueView::Record(values), context, env);
            let after = pattern::matched(
                PatternView::Record(fields.push(last)),
                ValueView::Record(values),
                context,
                env,
            );
            if found && place < values.len() {
                after == pattern::matched(last.pattern, values[place].value, context, bound)
            } else {
                !after.0
            }
        }),
{
    assert(pattern::matched_fields(Seq::empty(), 0, values, context, env) == (true, env));
    lemma_fields_push(fields, last, 0, values, context, env);
    lemma_field_place(values, 0, place, last.name);
}

proof fn lemma_field_place(values: Seq<FieldValueView>, from: int, place: int, name: Seq<char>)
    requires
        0 <= from <= place <= values.len(),
        forall|i: int| 0 <= i < place ==> (#[trigger] values[i]).name != name,
        place < values.len() ==> values[place].name == name,
    ensures
        crate::execute::lists::field_place(values, from, name) == place,
    decreases place - from,
{
    if from < place {
        lemma_field_place(values, from + 1, place, name);
    }
}

/// The pattern of a new type matches values of that type alone, by what they hold.
pub proof fn law_newtype_patterns(
    type_ref: TypeView,
    part: PatternView,
    actual: TypeView,
    held: ValueView,
    context: MatchContext,
    env: Env,
)
    ensures
        pattern::matched(
            (PatternView::Newtype { type_ref, inner: Box::new(part) }),
            (ValueView::Typed { type_ref: actual, value: Box::new(held) }),
            context,
            env,
        ).0 == (actual == type_ref && pattern::matched(part, held, context, env).0),
        actual == type_ref ==> pattern::matched(
            (PatternView::Newtype { type_ref, inner: Box::new(part) }),
            (ValueView::Typed { type_ref: actual, value: Box::new(held) }),
            context,
            env,
        ) == pattern::matched(part, held, context, env),
        !(held is Typed) ==> !pattern::matched(
            (PatternView::Newtype { type_ref, inner: Box::new(part) }),
            held,
            context,
            env,
        ).0,
{
    let newtype = PatternView::Newtype { type_ref, inner: Box::new(part) };
    let value = ValueView::Typed { type_ref: actual, value: Box::new(held) };
    assert(*newtype->Newtype_inner == part && *value->Typed_value == held);
}

proof fn lemma_entry(
    entry: (PatternView, PatternView),
    pairs: Seq<(ValueView, ValueView)>,
    from: int,
    context: MatchContext,
    env: Env,
)
    requires
        0 <= from <= pairs.len(),
    ensures
        (pattern::matched_entry(entry, pairs, from, context, env) is Some) == (exists|i: int|
            from <= i < pairs.len() && pair_matches(entry, #[trigger] pairs[i], context, env)),
    decreases pairs.len() - from,
{
    if from < pairs.len() {
        assert(pairs[from] == pairs[from]);
        lemma_entry(entry, pairs, from + 1, context, env);
        if pair_matches(entry, pairs[from], context, env) {
        } else if exists|i: int| from <= i < pairs.len() && pair_matches(entry, #[trigger] pairs[i], context, env) {
            let i = choose|i: int| from <= i < pairs.len() && pair_matches(entry, #[trigger] pairs[i], context, env);
            assert(from + 1 <= i);
        }
    }
}

/// Whether a pair of patterns matches a pair of values, the value with what the key
/// bound.
pub open spec fn pair_matches(
    entry: (PatternView, PatternView),
    pair: (ValueView, ValueView),
    context: MatchContext,
    env: Env,
) -> bool {
    pattern::matched(entry.0, pair.0, context, env).0 && pattern::matched(
        entry.1,
        pair.1,
        context,
        pattern::matched(entry.0, pair.0, context, env).1,
    ).0
}

/// The pattern of a map with one entry matches a map that has such a pair, wherever
/// it stands.
pub proof fn law_map_patterns(
    entry: (PatternView, PatternView),
    pairs: Seq<(ValueView, ValueView)>,
    context: MatchContext,
    env: Env,
)
    ensures
        pattern::matched(PatternView::Mapping(Seq::empty()), ValueView::Mapping(pairs), context, env) == (true, env),
        pattern::matched(PatternView::Mapping(seq![entry]), ValueView::Mapping(pairs), context, env).0 == (exists|i: int|
            0 <= i < pairs.len() && pair_matches(entry, #[trigger] pairs[i], context, env)),
{
    lemma_entry(entry, pairs, 0, context, env);
    let entries = seq![entry];
    assert(entries[0] == entry);
    assert(pattern::matched_entries(Seq::empty(), 0, pairs, context, env) == (true, env));
    assert(pattern::matched(PatternView::Mapping(entries), ValueView::Mapping(pairs), context, env)
        == pattern::matched_entries(entries, 0, pairs, context, env));
    match pattern::matched_entry(entry, pairs, 0, context, env) {
        Some(bound) => {
            assert(pattern::matched_entries(entries, 1, pairs, context, bound) == (true, bound));
            assert(pattern::matched_entries(entries, 0, pairs, context, env) == (true, bound));
        }
        None => {}
    }
}

// Equality.

/// Values of different kinds differ; numbers, texts and truth values are equal where
/// they are the same; tuples and arrays where their items are, one by one.
pub proof fn law_equality_is_by_structure(
    left: ValueView,
    right: ValueView,
    first: Seq<ValueView>,
    second: Seq<ValueView>,
    cells: Seq<ValueView>,
    depth: nat,
)
    ensures
        (left is Int || left is Bool || left is Str || left is Void || left is HostHandle || left is JoinHandle)
            ==> values::equal(left, right, cells, depth) == (left == right),
        left is Range ==> values::equal(left, right, cells, depth) == (left == right),
        values::equal(ValueView::Tuple(first), ValueView::Tuple(second), cells, depth) == (first.len() == second.len()
            && forall|i: int| 0 <= i < first.len() ==> values::equal(#[trigger] first[i], second[i], cells, depth)),
        values::equal(ValueView::Array(first), ValueView::Array(second), cells, depth) == values::equal(
            ValueView::Tuple(first),
            ValueView::Tuple(second),
            cells,
            depth,
        ),
        !values::equal(ValueView::Array(first), ValueView::Tuple(second), cells, depth),
{
}

/// Two cases are equal where type, tag and payload are.
pub proof fn law_cases_are_equal_by_parts(
    key: Seq<char>,
    other_key: Seq<char>,
    tag: Seq<char>,
    other_tag: Seq<char>,
    left: ValueView,
    right: ValueView,
    cells: Seq<ValueView>,
    depth: nat,
)
    ensures
        ({
            let one = ValueView::Enum { enum_key: key, tag, payload: Some(Box::new(left)) };
            let two = ValueView::Enum { enum_key: other_key, tag: other_tag, payload: Some(Box::new(right)) };
            let bare = ValueView::Enum { enum_key: other_key, tag: other_tag, payload: None };
            &&& values::equal(one, two, cells, depth) == (key == other_key && tag == other_tag && values::equal(
                left,
                right,
                cells,
                depth,
            ))
            &&& !values::equal(one, bare, cells, depth)
        }),
{
    let one = ValueView::Enum { enum_key: key, tag, payload: Some(Box::new(left)) };
    let two = ValueView::Enum { enum_key: other_key, tag: other_tag, payload: Some(Box::new(right)) };
    assert(*one->Enum_payload->Some_0 == left && *two->Enum_payload->Some_0 == right);
}

} // verus!
