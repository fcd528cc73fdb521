//! Clocks, randomness, facts about the system and floating-point text.
use vstd::prelude::*;
use crate::execute::failure::Failure;
use crate::execute::host_view::{self, RequestView};
use crate::lowered::ir::{RuntimeValue, TypeRef};
use crate::lowered::view::{self, TypeView, ValueView};
use crate::execute::host::{HostReply, HostRequest};
use crate::execute::host_view::ReplyView;
use crate::execute::failure::PartView;
use crate::execute::lists::{missing_argument, wide_count};
use crate::execute::policy::ensure_policy_scope;
use crate::execute::session::{
    checked_alloc_len, read_answer, unexpected_reply, ErrorFamily, Halt, HaltView, InjectedClock, Outcome, Run,
    RunConfig, RunView, Session, SessionView, Shape,
};
use crate::execute::strings::trim;
use crate::execute::values::{
    is_nan_bits, result_err, result_ok, runtime_bytes, runtime_texts, value_f64, value_i64, value_policy, value_str,
};
use crate::lowered::ir::{CapabilityDomain, FieldValue};
use crate::text::{concat_two, concat_three, owned, same_text};

verus! {

/// The answer to a request for the time.
pub open spec fn clock_answer(reply: ReplyView) -> Result<ValueView, Seq<PartView>> {
    match reply {
        ReplyView::Count(millis) => Ok(crate::execute::lists::count_value(millis as nat)),
        ReplyView::Failed(_) => Err(crate::execute::failure::text_failure("system clock before unix epoch"@)),
        _ => Err(crate::execute::session::unexpected()),
    }
}

fn read_clock(reply: &HostReply) -> (result: Result<RuntimeValue, Failure>)
    ensures
        crate::execute::lists::outcome(result) == clock_answer(host_view::reply(*reply)),
{
    match reply {
        HostReply::Count(millis) => Ok(wide_count(*millis)),
        HostReply::Failed(_) => Err(Failure::text("system clock before unix epoch")),
        _ => Err(unexpected_reply()),
    }
}

pub open spec fn later(from: u64, millis: u64) -> u64 {
    if from + millis <= u64::MAX {
        (from + millis) as u64
    } else {
        u64::MAX
    }
}

/// A given clock after a sleep: both of its readings move on, up to the last one.
pub open spec fn slept(clock: InjectedClock, millis: u64) -> InjectedClock {
    InjectedClock {
        unix_millis: later(clock.unix_millis, millis),
        monotonic_millis: later(clock.monotonic_millis, millis),
    }
}

fn pass(clock: InjectedClock, millis: u64) -> (result: InjectedClock)
    ensures
        result == slept(clock, millis),
{
    InjectedClock {
        unix_millis: clock.unix_millis.saturating_add(millis),
        monotonic_millis: clock.monotonic_millis.saturating_add(millis),
    }
}

/// The answer to a request for random bytes, as many as were asked for.
pub open spec fn random_answer(reply: ReplyView, len: nat) -> Result<ValueView, Seq<PartView>> {
    match reply {
        ReplyView::Bytes(bytes) if bytes.len() == len => Ok(crate::execute::values::byte_array(bytes)),
        ReplyView::Failed(failure) => Err(
            crate::execute::failure::text_failure("random_bytes unavailable: "@ + failure.message),
        ),
        _ => Err(crate::execute::session::unexpected()),
    }
}

fn read_random(reply: &HostReply, len: usize) -> (result: Result<RuntimeValue, Failure>)
    ensures
        crate::execute::lists::outcome(result) == random_answer(host_view::reply(*reply), len as nat),
{
    match reply {
        HostReply::Bytes(bytes) if bytes.len() == len => Ok(runtime_bytes(bytes)),
        HostReply::Failed(failure) => {
            let text = concat_two("random_bytes unavailable: ", failure.message.as_str());
            Err(Failure::text(text.as_str()))
        }
        _ => Err(unexpected_reply()),
    }
}

/// The answer to a request for facts about the system.
pub open spec fn system_answer(reply: ReplyView) -> Result<ValueView, Seq<PartView>> {
    match reply {
        ReplyView::System { architecture, family, operating_system } => Ok(
            ValueView::Record(
                seq![
                    crate::execute::values::field("architecture"@, ValueView::Str(architecture)),
                    crate::execute::values::field("family"@, ValueView::Str(family)),
                    crate::execute::values::field("operating-system"@, ValueView::Str(operating_system)),
                ],
            ),
        ),
        _ => Err(crate::execute::session::unexpected()),
    }
}

fn read_system(reply: &HostReply) -> (result: Result<RuntimeValue, Failure>)
    ensures
        crate::execute::lists::outcome(result) == system_answer(host_view::reply(*reply)),
{
    match reply {
        HostReply::System { architecture, family, operating_system } => {
            let mut fields: Vec<FieldValue> = Vec::new();
            fields.push(FieldValue { name: owned("architecture"), value: RuntimeValue::Str(architecture.clone()) });
            fields.push(FieldValue { name: owned("family"), value: RuntimeValue::Str(family.clone()) });
            fields.push(
                FieldValue { name: owned("operating-system"), value: RuntimeValue::Str(operating_system.clone()) },
            );
            assert(view::field_values(fields@) =~= seq![
                    crate::execute::values::field("architecture"@, ValueView::Str(architecture@)),
                    crate::execute::values::field("family"@, ValueView::Str(family@)),
                    crate::execute::values::field("operating-system"@, ValueView::Str(operating_system@)),
            ]);
            Ok(RuntimeValue::Record(fields))
        }
        _ => Err(unexpected_reply()),
    }
}

/// A plain text.
pub open spec fn text_answer(reply: ReplyView) -> Result<ValueView, Seq<PartView>> {
    match reply {
        ReplyView::Text(text) => Ok(ValueView::Str(text)),
        _ => Err(crate::execute::session::unexpected()),
    }
}

fn read_text(reply: &HostReply) -> (result: Result<RuntimeValue, Failure>)
    ensures
        crate::execute::lists::outcome(result) == text_answer(host_view::reply(*reply)),
{
    match reply {
        HostReply::Text(text) => Ok(RuntimeValue::Str(text.clone())),
        _ => Err(unexpected_reply()),
    }
}

/// The answer to a request to read a floating-point numeral.
pub open spec fn float_answer(ty: TypeView, reply: ReplyView) -> Result<ValueView, Seq<PartView>> {
    match reply {
        ReplyView::ExactFloat(Some(bits)) => Ok(crate::execute::values::ok_value(ty, ValueView::Float(bits))),
        ReplyView::ExactFloat(None) => Ok(crate::execute::values::err_value(ty, "invalid"@)),
        _ => Err(crate::execute::session::unexpected()),
    }
}

fn read_float(ty: &TypeRef, reply: &HostReply) -> (result: Result<RuntimeValue, Failure>)
    ensures
        crate::execute::lists::outcome(result) == float_answer(view::type_ref(*ty), host_view::reply(*reply)),
{
    match reply {
        HostReply::ExactFloat(Some(bits)) => Ok(result_ok(ty, RuntimeValue::Float(*bits))),
        HostReply::ExactFloat(None) => Ok(result_err(ty, "invalid")),
        _ => Err(unexpected_reply()),
    }
}

/// The program's name and its arguments.
fn arguments(config: &RunConfig) -> (result: Vec<String>)
    ensures
        view::texts(result@) == seq![config.program_name@] + view::texts(config.argv@),
{
    let mut all: Vec<String> = Vec::new();
    all.push(config.program_name.clone());
    let mut i: usize = 0;
    let ghost rest = view::texts(config.argv@);
    assert(view::texts(all@) =~= seq![config.program_name@] + rest.take(0));
    while i < config.argv.len()
        invariant
            i <= config.argv.len(),
            rest == view::texts(config.argv@),
            view::texts(all@) == seq![config.program_name@] + rest.take(i as int),
        decreases config.argv.len() - i,
    {
        let ghost before = all@;
        all.push(config.argv[i].clone());
        proof {
            view::lemma_texts_push(before, all@.last());
            assert(seq![config.program_name@] + rest.take(i + 1) =~= (seq![config.program_name@] + rest.take(i as int)).push(
                    rest[i as int],
            ));
        }
        i += 1;
    }
    assert(rest.take(i as int) =~= rest);
    all
}

pub open spec fn clock_now_unix_millis(args: Seq<ValueView>, run: RunView, session: SessionView) -> Outcome {
    match crate::execute::lists::given(args, 0, crate::execute::values::as_policy(args[0])) {
        Err(failure) => Err(HaltView::Failed(failure)),
        Ok(policy) => match crate::execute::policy::scope_check(policy, CapabilityDomain::Clock, "*"@) {
            Err(failure) => Err(HaltView::Failed(failure)),
            Ok(_) => match session.clock {
                Some(clock) => Ok((crate::execute::lists::count_value(clock.unix_millis as nat), session)),
                None => match crate::execute::session::asked(session, run, RequestView::WallClock) {
                    Err(halt) => Err(halt),
                    Ok((reply, session)) => match clock_answer(reply) {
                        Err(failure) => Err(HaltView::Failed(failure)),
                        Ok(value) => Ok((value, session)),
                    },
                },
            },
        },
    }
}

fn run_clock_now_unix_millis(
    args: &Vec<RuntimeValue>,
    run: &Run,
    session: &mut Session,
) -> (result: Result<RuntimeValue, Halt>)
    requires
        old(session).well_formed(),
    ensures
        final(session).well_formed(),
        crate::execute::session::stepped(result, *final(session)) == clock_now_unix_millis(
            view::values(args@),
            run@,
            old(session)@,
        ),
{
    assert(view::values(args@).len() == args@.len());
    if args.len() == 0 {
        return Err(Halt::Failed(missing_argument()));
    }
    let policy = match value_policy(&args[0]) {
        Ok(value) => value,
        Err(failure) => return Err(Halt::Failed(failure)),
    };
    match ensure_policy_scope(policy, CapabilityDomain::Clock, "*") {
        Ok(_) => {}
        Err(failure) => return Err(Halt::Failed(failure)),
    }
    match session.clock {
        Some(clock) => return Ok(wide_count(clock.unix_millis)),
        None => {}
    }
    let request = HostRequest::WallClock;
    let reply = match session.ask(run, request) {
        Ok(value) => value,
        Err(halt) => return Err(halt),
    };
    match read_clock(reply) {
        Ok(value) => Ok(value),
        Err(failure) => Err(Halt::Failed(failure)),
    }
}

pub open spec fn clock_monotonic_millis(args: Seq<ValueView>, run: RunView, session: SessionView) -> Outcome {
    match crate::execute::lists::given(args, 0, crate::execute::values::as_policy(args[0])) {
        Err(failure) => Err(HaltView::Failed(failure)),
        Ok(policy) => match crate::execute::policy::scope_check(policy, CapabilityDomain::Clock, "*"@) {
            Err(failure) => Err(HaltView::Failed(failure)),
            Ok(_) => match session.clock {
                Some(clock) => Ok((crate::execute::lists::count_value(clock.monotonic_millis as nat), session)),
                None => match crate::execute::session::asked(session, run, RequestView::MonotonicClock) {
                    Err(halt) => Err(halt),
                    Ok((reply, session)) => match clock_answer(reply) {
                        Err(failure) => Err(HaltView::Failed(failure)),
                        Ok(value) => Ok((value, session)),
                    },
                },
            },
        },
    }
}

fn run_clock_monotonic_millis(
    args: &Vec<RuntimeValue>,
    run: &Run,
    session: &mut Session,
) -> (result: Result<RuntimeValue, Halt>)
    requires
        old(session).well_formed(),
    ensures
        final(session).well_formed(),
        crate::execute::session::stepped(result, *final(session)) == clock_monotonic_millis(
            view::values(args@),
            run@,
            old(session)@,
        ),
{
    assert(view::values(args@).len() == args@.len());
    if args.len() == 0 {
        return Err(Halt::Failed(missing_argument()));
    }
    let policy = match value_policy(&args[0]) {
        Ok(value) => value,
        Err(failure) => return Err(Halt::Failed(failure)),
    };
    match ensure_policy_scope(policy, CapabilityDomain::Clock, "*") {
        Ok(_) => {}
        Err(failure) => return Err(Halt::Failed(failure)),
    }
    match session.clock {
        Some(clock) => return Ok(wide_count(clock.monotonic_millis)),
        None => {}
    }
    let request = HostRequest::MonotonicClock;
    let reply = match session.ask(run, request) {
        Ok(value) => value,
        Err(halt) => return Err(halt),
    };
    match read_clock(reply) {
        Ok(value) => Ok(value),
        Err(failure) => Err(Halt::Failed(failure)),
    }
}

pub open spec fn clock_sleep_millis(args: Seq<ValueView>, run: RunView, session: SessionView) -> Outcome {
    match crate::execute::lists::given(args, 0, crate::execute::values::as_int(args[0])) {
        Err(failure) => Err(HaltView::Failed(failure)),
        Ok(millis) => match crate::execute::lists::given(args, 1, crate::execute::values::as_policy(args[1])) {
            Err(failure) => Err(HaltView::Failed(failure)),
            Ok(policy) => match crate::execute::policy::scope_check(policy, CapabilityDomain::Clock, "*"@) {
                Err(failure) => Err(HaltView::Failed(failure)),
                Ok(_) => if millis < 0 {
                    Err(
                        HaltView::Failed(
                            crate::execute::failure::text_failure("sleep duration must be non-negative"@),
                        ),
                    )
                } else {
                    match session.clock {
                        Some(clock) => Ok(
                            (ValueView::Void, SessionView { clock: Some(slept(clock, millis as u64)), ..session }),
                        ),
                        None => match crate::execute::session::asked(session, run, RequestView::Sleep { millis: millis as u64 }) {
                            Err(halt) => Err(halt),
                            Ok((_, session)) => Ok((ValueView::Void, session)),
                        },
                    }
                },
            },
        },
    }
}

fn run_clock_sleep_millis(
    args: &Vec<RuntimeValue>,
    run: &Run,
    session: &mut Session,
) -> (result: Result<RuntimeValue, Halt>)
    requires
        old(session).well_formed(),
    ensures
        final(session).well_formed(),
        crate::execute::session::stepped(result, *final(session)) == clock_sleep_millis(
            view::values(args@),
            run@,
            old(session)@,
        ),
{
    assert(view::values(args@).len() == args@.len());
    if args.len() == 0 {
        return Err(Halt::Failed(missing_argument()));
    }
    let millis = match value_i64(&args[0]) {
        Ok(value) => value,
        Err(failure) => return Err(Halt::Failed(failure)),
    };
    if args.len() <= 1 {
        return Err(Halt::Failed(missing_argument()));
    }
    let policy = match value_policy(&args[1]) {
        Ok(value) => value,
        Err(failure) => return Err(Halt::Failed(failure)),
    };
    match ensure_policy_scope(policy, CapabilityDomain::Clock, "*") {
        Ok(_) => {}
        Err(failure) => return Err(Halt::Failed(failure)),
    }
    if millis < 0 {
        return Err(Halt::Failed(Failure::text("sleep duration must be non-negative")));
    }
    match session.clock {
        Some(clock) => {
            session.clock = Some(pass(clock, millis as u64));
            return Ok(RuntimeValue::Void);
        }
        None => {}
    }
    let request = HostRequest::Sleep { millis: millis as u64 };
    match session.ask(run, request) {
        Ok(_) => Ok(RuntimeValue::Void),
        Err(halt) => Err(halt),
    }
}

pub open spec fn random_bytes(args: Seq<ValueView>, run: RunView, session: SessionView) -> Outcome {
    match crate::execute::lists::given(args, 0, crate::execute::values::as_int(args[0])) {
        Err(failure) => Err(HaltView::Failed(failure)),
        Ok(len) => match crate::execute::lists::given(args, 1, crate::execute::values::as_policy(args[1])) {
            Err(failure) => Err(HaltView::Failed(failure)),
            Ok(policy) => match crate::execute::policy::scope_check(policy, CapabilityDomain::Random, "*"@) {
                Err(failure) => Err(HaltView::Failed(failure)),
                Ok(_) => match crate::execute::session::length_error(len, run.config.max_alloc_len) {
                    Some((tag, message)) => Err(
                        HaltView::Failed(
                            crate::execute::failure::text_failure("random_bytes "@ + tag + ": "@ + message),
                        ),
                    ),
                    None => match crate::execute::session::asked(session, run, RequestView::Random { len: len as u64 }) {
                        Err(halt) => Err(halt),
                        Ok((reply, session)) => match random_answer(reply, len as nat) {
                            Err(failure) => Err(HaltView::Failed(failure)),
                            Ok(value) => Ok((value, session)),
                        },
                    },
                },
            },
        },
    }
}

fn run_random_bytes(
    args: &Vec<RuntimeValue>,
    run: &Run,
    session: &mut Session,
) -> (result: Result<RuntimeValue, Halt>)
    requires
        old(session).well_formed(),
    ensures
        final(session).well_formed(),
        crate::execute::session::stepped(result, *final(session)) == random_bytes(
            view::values(args@),
            run@,
            old(session)@,
        ),
{
    assert(view::values(args@).len() == args@.len());
    if args.len() == 0 {
        return Err(Halt::Failed(missing_argument()));
    }
    let len = match value_i64(&args[0]) {
        Ok(value) => value,
        Err(failure) => return Err(Halt::Failed(failure)),
    };
    if args.len() <= 1 {
        return Err(Halt::Failed(missing_argument()));
    }
    let policy = match value_policy(&args[1]) {
        Ok(value) => value,
        Err(failure) => return Err(Halt::Failed(failure)),
    };
    match ensure_policy_scope(policy, CapabilityDomain::Random, "*") {
        Ok(_) => {}
        Err(failure) => return Err(Halt::Failed(failure)),
    }
    let wanted: usize = match checked_alloc_len(len, run.config) {
        Ok(length) => length,
        Err((tag, message)) => {
            let mut text = concat_three("random_bytes ", tag, ": ");
            text.append(message.as_str());
            return Err(Halt::Failed(Failure::text(text.as_str())));
        }
    };
    let request = HostRequest::Random { len: wanted as u64 };
    let reply = match session.ask(run, request) {
        Ok(value) => value,
        Err(halt) => return Err(halt),
    };
    match read_random(reply, wanted) {
        Ok(value) => Ok(value),
        Err(failure) => Err(Halt::Failed(failure)),
    }
}

pub open spec fn system_info(args: Seq<ValueView>, run: RunView, session: SessionView) -> Outcome {
    match crate::execute::lists::given(args, 0, crate::execute::values::as_policy(args[0])) {
        Err(failure) => Err(HaltView::Failed(failure)),
        Ok(policy) => {
            match crate::execute::policy::scope_check(policy, CapabilityDomain::SystemInfo, "*"@) {
                Err(failure) => Err(HaltView::Failed(failure)),
                Ok(_) => {
                    match crate::execute::session::asked(session, run, RequestView::SystemInfo) {
                        Err(halt) => Err(halt),
                        Ok((reply, session)) => {
                            match system_answer(reply) {
                                Err(failure) => Err(HaltView::Failed(failure)),
                                Ok(value) => Ok((value, session)),
                            }
                        },
                    }
                },
            }
        },
    }
}

fn run_system_info(args: &Vec<RuntimeValue>, run: &Run, session: &mut Session) -> (result: Result<RuntimeValue, Halt>)
    requires
        old(session).well_formed(),
    ensures
        final(session).well_formed(),
        crate::execute::session::stepped(result, *final(session)) == system_info(
            view::values(args@),
            run@,
            old(session)@,
        ),
{
    assert(view::values(args@).len() == args@.len());
    if args.len() == 0 {
        return Err(Halt::Failed(missing_argument()));
    }
    let policy = match value_policy(&args[0]) {
        Ok(value) => value,
        Err(failure) => return Err(Halt::Failed(failure)),
    };
    match ensure_policy_scope(policy, CapabilityDomain::SystemInfo, "*") {
        Ok(_) => {}
        Err(failure) => return Err(Halt::Failed(failure)),
    }
    let request = HostRequest::SystemInfo;
    let reply = match session.ask(run, request) {
        Ok(value) => value,
        Err(halt) => return Err(halt),
    };
    match read_system(reply) {
        Ok(value) => Ok(value),
        Err(failure) => Err(Halt::Failed(failure)),
    }
}

pub open spec fn system_args(args: Seq<ValueView>, run: RunView, session: SessionView) -> Outcome {
    match crate::execute::lists::given(args, 0, crate::execute::values::as_policy(args[0])) {
        Err(failure) => Err(HaltView::Failed(failure)),
        Ok(policy) => {
            match crate::execute::policy::scope_check(policy, CapabilityDomain::SystemInfo, "*"@) {
                Err(failure) => Err(HaltView::Failed(failure)),
                Ok(_) => {
                    Ok((crate::execute::values::text_array(seq![run.config.program_name] + run.config.argv), session))
                },
            }
        },
    }
}

fn run_system_args(args: &Vec<RuntimeValue>, run: &Run, session: &mut Session) -> (result: Result<RuntimeValue, Halt>)
    requires
        old(session).well_formed(),
    ensures
        final(session).well_formed(),
        crate::execute::session::stepped(result, *final(session)) == system_args(
            view::values(args@),
            run@,
            old(session)@,
        ),
{
    assert(view::values(args@).len() == args@.len());
    if args.len() == 0 {
        return Err(Halt::Failed(missing_argument()));
    }
    let policy = match value_policy(&args[0]) {
        Ok(value) => value,
        Err(failure) => return Err(Halt::Failed(failure)),
    };
    match ensure_policy_scope(policy, CapabilityDomain::SystemInfo, "*") {
        Ok(_) => {}
        Err(failure) => return Err(Halt::Failed(failure)),
    }
    Ok(runtime_texts(&arguments(run.config)))
}

pub open spec fn system_current_dir(ty: TypeView, args: Seq<ValueView>, run: RunView, session: SessionView) -> Outcome {
    match crate::execute::lists::given(args, 0, crate::execute::values::as_policy(args[0])) {
        Err(failure) => Err(HaltView::Failed(failure)),
        Ok(policy) => {
            match crate::execute::policy::scope_check(policy, CapabilityDomain::SystemInfo, "*"@) {
                Err(failure) => Err(HaltView::Failed(failure)),
                Ok(_) => {
                    match crate::execute::session::asked(session, run, RequestView::CurrentDir) {
                        Err(halt) => Err(halt),
                        Ok((reply, session)) => {
                            match crate::execute::session::answer(ErrorFamily::Files, ty, reply, Shape::Text) {
                                Err(failure) => Err(HaltView::Failed(failure)),
                                Ok(value) => Ok((value, session)),
                            }
                        },
                    }
                },
            }
        },
    }
}

fn run_system_current_dir(
    ty: &TypeRef,
    args: &Vec<RuntimeValue>,
    run: &Run,
    session: &mut Session,
) -> (result: Result<RuntimeValue, Halt>)
    requires
        old(session).well_formed(),
    ensures
        final(session).well_formed(),
        crate::execute::session::stepped(result, *final(session)) == system_current_dir(
            view::type_ref(*ty),
            view::values(args@),
            run@,
            old(session)@,
        ),
{
    assert(view::values(args@).len() == args@.len());
    if args.len() == 0 {
        return Err(Halt::Failed(missing_argument()));
    }
    let policy = match value_policy(&args[0]) {
        Ok(value) => value,
        Err(failure) => return Err(Halt::Failed(failure)),
    };
    match ensure_policy_scope(policy, CapabilityDomain::SystemInfo, "*") {
        Ok(_) => {}
        Err(failure) => return Err(Halt::Failed(failure)),
    }
    let request = HostRequest::CurrentDir;
    let reply = match session.ask(run, request) {
        Ok(value) => value,
        Err(halt) => return Err(halt),
    };
    match read_answer(ErrorFamily::Files, ty, reply, Shape::Text) {
        Ok(value) => Ok(value),
        Err(failure) => Err(Halt::Failed(failure)),
    }
}

pub open spec fn system_executable(ty: TypeView, args: Seq<ValueView>, run: RunView, session: SessionView) -> Outcome {
    match crate::execute::lists::given(args, 0, crate::execute::values::as_policy(args[0])) {
        Err(failure) => Err(HaltView::Failed(failure)),
        Ok(policy) => {
            match crate::execute::policy::scope_check(policy, CapabilityDomain::SystemInfo, "*"@) {
                Err(failure) => Err(HaltView::Failed(failure)),
                Ok(_) => {
                    match crate::execute::session::asked(session, run, RequestView::CurrentExe) {
                        Err(halt) => Err(halt),
                        Ok((reply, session)) => {
                            match crate::execute::session::answer(ErrorFamily::Files, ty, reply, Shape::Text) {
                                Err(failure) => Err(HaltView::Failed(failure)),
                                Ok(value) => Ok((value, session)),
                            }
                        },
                    }
                },
            }
        },
    }
}

fn run_system_executable(
    ty: &TypeRef,
    args: &Vec<RuntimeValue>,
    run: &Run,
    session: &mut Session,
) -> (result: Result<RuntimeValue, Halt>)
    requires
        old(session).well_formed(),
    ensures
        final(session).well_formed(),
        crate::execute::session::stepped(result, *final(session)) == system_executable(
            view::type_ref(*ty),
            view::values(args@),
            run@,
            old(session)@,
        ),
{
    assert(view::values(args@).len() == args@.len());
    if args.len() == 0 {
        return Err(Halt::Failed(missing_argument()));
    }
    let policy = match value_policy(&args[0]) {
        Ok(value) => value,
        Err(failure) => return Err(Halt::Failed(failure)),
    };
    match ensure_policy_scope(policy, CapabilityDomain::SystemInfo, "*") {
        Ok(_) => {}
        Err(failure) => return Err(Halt::Failed(failure)),
    }
    let request = HostRequest::CurrentExe;
    let reply = match session.ask(run, request) {
        Ok(value) => value,
        Err(halt) => return Err(halt),
    };
    match read_answer(ErrorFamily::Files, ty, reply, Shape::Text) {
        Ok(value) => Ok(value),
        Err(failure) => Err(Halt::Failed(failure)),
    }
}

pub open spec fn system_temp_dir(args: Seq<ValueView>, run: RunView, session: SessionView) -> Outcome {
    match crate::execute::lists::given(args, 0, crate::execute::values::as_policy(args[0])) {
        Err(failure) => Err(HaltView::Failed(failure)),
        Ok(policy) => {
            match crate::execute::policy::scope_check(policy, CapabilityDomain::SystemInfo, "*"@) {
                Err(failure) => Err(HaltView::Failed(failure)),
                Ok(_) => {
                    match crate::execute::session::asked(session, run, RequestView::TempDir) {
                        Err(halt) => Err(halt),
                        Ok((reply, session)) => {
                            match text_answer(reply) {
                                Err(failure) => Err(HaltView::Failed(failure)),
                                Ok(value) => Ok((value, session)),
                            }
                        },
                    }
                },
            }
        },
    }
}

fn run_system_temp_dir(
    args: &Vec<RuntimeValue>,
    run: &Run,
    session: &mut Session,
) -> (result: Result<RuntimeValue, Halt>)
    requires
        old(session).well_formed(),
    ensures
        final(session).well_formed(),
        crate::execute::session::stepped(result, *final(session)) == system_temp_dir(
            view::values(args@),
            run@,
            old(session)@,
        ),
{
    assert(view::values(args@).len() == args@.len());
    if args.len() == 0 {
        return Err(Halt::Failed(missing_argument()));
    }
    let policy = match value_policy(&args[0]) {
        Ok(value) => value,
        Err(failure) => return Err(Halt::Failed(failure)),
    };
    match ensure_policy_scope(policy, CapabilityDomain::SystemInfo, "*") {
        Ok(_) => {}
        Err(failure) => return Err(Halt::Failed(failure)),
    }
    let request = HostRequest::TempDir;
    let reply = match session.ask(run, request) {
        Ok(value) => value,
        Err(halt) => return Err(halt),
    };
    match read_text(reply) {
        Ok(value) => Ok(value),
        Err(failure) => Err(Halt::Failed(failure)),
    }
}

pub open spec fn parse_float64(ty: TypeView, args: Seq<ValueView>, run: RunView, session: SessionView) -> Outcome {
    match crate::execute::lists::given(args, 0, crate::execute::values::as_text(args[0])) {
        Err(failure) => Err(HaltView::Failed(failure)),
        Ok(text) => {
            if (text == "nan"@) {
                Ok((crate::execute::values::ok_value(ty, ValueView::Float(0x7ff8_0000_0000_0000)), session))
            } else {
                if (text == "inf"@) {
                    Ok((crate::execute::values::ok_value(ty, ValueView::Float(0x7ff0_0000_0000_0000)), session))
                } else {
                    if (text == "-inf"@) {
                        Ok((crate::execute::values::ok_value(ty, ValueView::Float(0xfff0_0000_0000_0000)), session))
                    } else {
                        if text.len() == 0 || crate::execute::strings::trimmed(text) != text {
                            Ok((crate::execute::values::err_value(ty, "invalid"@), session))
                        } else {
                            match crate::execute::session::asked(session, run, RequestView::ParseFloat { text }) {
                                Err(halt) => Err(halt),
                                Ok((reply, session)) => {
                                    match float_answer(ty, reply) {
                                        Err(failure) => Err(HaltView::Failed(failure)),
                                        Ok(value) => Ok((value, session)),
                                    }
                                },
                            }
                        }
                    }
                }
            }
        },
    }
}

fn run_parse_float64(
    ty: &TypeRef,
    args: &Vec<RuntimeValue>,
    run: &Run,
    session: &mut Session,
) -> (result: Result<RuntimeValue, Halt>)
    requires
        old(session).well_formed(),
    ensures
        final(session).well_formed(),
        crate::execute::session::stepped(result, *final(session)) == parse_float64(
            view::type_ref(*ty),
            view::values(args@),
            run@,
            old(session)@,
        ),
{
    assert(view::values(args@).len() == args@.len());
    if args.len() == 0 {
        return Err(Halt::Failed(missing_argument()));
    }
    let text = match value_str(&args[0]) {
        Ok(value) => value,
        Err(failure) => return Err(Halt::Failed(failure)),
    };
    if same_text(text, "nan") {
        return Ok(result_ok(ty, RuntimeValue::Float(0x7ff8_0000_0000_0000)));
    }
    if same_text(text, "inf") {
        return Ok(result_ok(ty, RuntimeValue::Float(0x7ff0_0000_0000_0000)));
    }
    if same_text(text, "-inf") {
        return Ok(result_ok(ty, RuntimeValue::Float(0xfff0_0000_0000_0000)));
    }
    if text.is_empty() || !same_text(trim(text).as_str(), text) {
        return Ok(result_err(ty, "invalid"));
    }
    let request = HostRequest::ParseFloat { text: owned(text) };
    let reply = match session.ask(run, request) {
        Ok(value) => value,
        Err(halt) => return Err(halt),
    };
    match read_float(ty, reply) {
        Ok(value) => Ok(value),
        Err(failure) => Err(Halt::Failed(failure)),
    }
}

pub open spec fn format_float64(args: Seq<ValueView>, run: RunView, session: SessionView) -> Outcome {
    match crate::execute::lists::given(args, 0, crate::execute::values::as_float(args[0])) {
        Err(failure) => Err(HaltView::Failed(failure)),
        Ok(bits) => {
            if crate::execute::values::is_nan(bits) {
                Ok((ValueView::Str("nan"@), session))
            } else {
                if bits == 0x7ff0_0000_0000_0000 {
                    Ok((ValueView::Str("inf"@), session))
                } else {
                    if bits == 0xfff0_0000_0000_0000 {
                        Ok((ValueView::Str("-inf"@), session))
                    } else {
                        match crate::execute::session::asked(session, run, RequestView::FormatFloat { bits }) {
                            Err(halt) => Err(halt),
                            Ok((reply, session)) => {
                                match text_answer(reply) {
                                    Err(failure) => Err(HaltView::Failed(failure)),
                                    Ok(value) => Ok((value, session)),
                                }
                            },
                        }
                    }
                }
            }
        },
    }
}

fn run_format_float64(
    args: &Vec<RuntimeValue>,
    run: &Run,
    session: &mut Session,
) -> (result: Result<RuntimeValue, Halt>)
    requires
        old(session).well_formed(),
    ensures
        final(session).well_formed(),
        crate::execute::session::stepped(result, *final(session)) == format_float64(
            view::values(args@),
            run@,
            old(session)@,
        ),
{
    assert(view::values(args@).len() == args@.len());
    if args.len() == 0 {
        return Err(Halt::Failed(missing_argument()));
    }
    let bits = match value_f64(&args[0]) {
        Ok(value) => value,
        Err(failure) => return Err(Halt::Failed(failure)),
    };
    if is_nan_bits(bits) {
        return Ok(RuntimeValue::Str(owned("nan")));
    }
    if bits == 0x7ff0_0000_0000_0000 {
        return Ok(RuntimeValue::Str(owned("inf")));
    }
    if bits == 0xfff0_0000_0000_0000 {
        return Ok(RuntimeValue::Str(owned("-inf")));
    }
    let request = HostRequest::FormatFloat { bits };
    let reply = match session.ask(run, request) {
        Ok(value) => value,
        Err(halt) => return Err(halt),
    };
    match read_text(reply) {
        Ok(value) => Ok(value),
        Err(failure) => Err(Halt::Failed(failure)),
    }
}

/// What an operation on clocks, random bytes, the system or floating-point text does;
/// nothing for any other name.
pub open spec fn system(name: Seq<char>, ty: TypeView, args: Seq<ValueView>, run: RunView, session: SessionView) -> Option<Outcome> {
    if name == "clock_now_unix_millis"@ {
        Some(clock_now_unix_millis(args, run, session))
    } else if name == "clock_monotonic_millis"@ {
        Some(clock_monotonic_millis(args, run, session))
    } else if name == "clock_sleep_millis"@ {
        Some(clock_sleep_millis(args, run, session))
    } else if name == "random_bytes"@ {
        Some(random_bytes(args, run, session))
    } else if name == "system_info"@ {
        Some(system_info(args, run, session))
    } else if name == "system_args"@ {
        Some(system_args(args, run, session))
    } else if name == "system_current_dir"@ {
        Some(system_current_dir(ty, args, run, session))
    } else if name == "system_executable"@ {
        Some(system_executable(ty, args, run, session))
    } else if name == "system_temp_dir"@ {
        Some(system_temp_dir(args, run, session))
    } else if name == "parse_float64"@ {
        Some(parse_float64(ty, args, run, session))
    } else if name == "format_float64"@ {
        Some(format_float64(args, run, session))
    } else {
        None
    }
}

pub(crate) fn run_system(
    name: &str,
    ty: &TypeRef,
    args: &Vec<RuntimeValue>,
    run: &Run,
    session: &mut Session,
) -> (result: Option<Result<RuntimeValue, Halt>>)
    requires
        old(session).well_formed(),
    ensures
        final(session).well_formed(),
        match result {
            Some(result) => system(
                name@,
                view::type_ref(*ty),
                view::values(args@),
                run@,
                old(session)@,
            ) == Some(crate::execute::session::stepped(result, *final(session))),
            None => system(
                name@,
                view::type_ref(*ty),
                view::values(args@),
                run@,
                old(session)@,
            ) is None && final(session)@ == old(session)@,
        },
{
    assert(view::values(args@).len() == args@.len());
    if same_text(name, "clock_now_unix_millis") {
        Some(run_clock_now_unix_millis(args, run, session))
    } else if same_text(name, "clock_monotonic_millis") {
        Some(run_clock_monotonic_millis(args, run, session))
    } else if same_text(name, "clock_sleep_millis") {
        Some(run_clock_sleep_millis(args, run, session))
    } else if same_text(name, "random_bytes") {
        Some(run_random_bytes(args, run, session))
    } else if same_text(name, "system_info") {
        Some(run_system_info(args, run, session))
    } else if same_text(name, "system_args") {
        Some(run_system_args(args, run, session))
    } else if same_text(name, "system_current_dir") {
        Some(run_system_current_dir(ty, args, run, session))
    } else if same_text(name, "system_executable") {
        Some(run_system_executable(ty, args, run, session))
    } else if same_text(name, "system_temp_dir") {
        Some(run_system_temp_dir(args, run, session))
    } else if same_text(name, "parse_float64") {
        Some(run_parse_float64(ty, args, run, session))
    } else if same_text(name, "format_float64") {
        Some(run_format_float64(args, run, session))
    } else {
        None
    }
}

} // verus!
