//! Standard streams and open handles.
use vstd::prelude::*;
use crate::execute::failure::Failure;
use crate::execute::host_view::{self, RequestView};
use crate::lowered::ir::{RuntimeValue, TypeRef};
use crate::lowered::view::{self, TypeView, ValueView};
use crate::execute::files::{invalid_handle_message, FileHandle, IoFailure};
use crate::execute::host::{HostReply, HostRequest};
use crate::execute::host_view::ReplyView;
use crate::execute::failure::PartView;
use crate::execute::lists::missing_argument;
use crate::execute::policy::ensure_policy_scope;
use crate::execute::session::{
    io_error, read_answer, unexpected_reply, ErrorFamily, Halt, HaltView, Outcome, Run, RunView, Session,
    SessionView, Shape,
};
use crate::execute::strings::{trim_carriage_return, trim_line_ending};
use crate::execute::values::{result_err, result_ok, value_bytes, value_handle, value_i64, value_policy, value_str};
use crate::lowered::ir::{CapabilityDomain, HandleAccess, HostHandle};
use crate::text::same_text;

verus! {

/// How many bytes are read at most.
pub open spec fn capped(requested: i64, limit: usize) -> u64 {
    if 0 <= requested <= limit {
        requested as u64
    } else {
        limit as u64
    }
}

fn read_limit(requested: i64, limit: usize) -> (result: u64)
    ensures
        result == capped(requested, limit),
{
    if requested >= 0 && requested as u64 <= limit as u64 {
        requested as u64
    } else {
        limit as u64
    }
}

/// The text that bytes stand for, what is no UTF-8 being replaced.
pub uninterp spec fn lossy_text(bytes: Seq<u8>) -> Seq<char>;

/// `String::from_utf8_lossy`: a fixed mapping of bytes to text.
#[verifier::external_body]
fn text_from_utf8_lossy(bytes: &Vec<u8>) -> (text: String)
    ensures
        text@ == lossy_text(bytes@),
{
    String::from_utf8_lossy(bytes).into_owned()
}

/// A line that was read: standard input gives it with its ending, any other
/// stream gives the bytes before the line feed.
pub open spec fn line_text(kind: FileHandle, reply: ReplyView) -> Option<Seq<char>> {
    match reply {
        ReplyView::Text(text) if kind is Stdin => Some(crate::execute::strings::without_line_ending(text)),
        ReplyView::Bytes(bytes) if !(kind is Stdin) => Some(
            crate::execute::strings::without_carriage_return(lossy_text(bytes)),
        ),
        _ => None,
    }
}

/// The answer to a request for a line.
pub open spec fn line_answer(ty: TypeView, kind: FileHandle, reply: ReplyView) -> Result<ValueView, Seq<PartView>> {
    match reply {
        ReplyView::Failed(failure) => Ok(crate::execute::session::error_value(ErrorFamily::Files, ty, failure)),
        _ => match line_text(kind, reply) {
            Some(text) => Ok(crate::execute::values::ok_value(ty, ValueView::Str(text))),
            None => Err(crate::execute::session::unexpected()),
        },
    }
}

fn read_line(ty: &TypeRef, kind: FileHandle, reply: &HostReply) -> (result: Result<RuntimeValue, Failure>)
    ensures
        crate::execute::lists::outcome(result) == line_answer(view::type_ref(*ty), kind, host_view::reply(*reply)),
{
    match reply {
        HostReply::Failed(failure) => Ok(io_error(ErrorFamily::Files, ty, failure)),
        HostReply::Text(text) if matches!(kind, FileHandle::Stdin) => {
            Ok(result_ok(ty, RuntimeValue::Str(trim_line_ending(text.as_str()))))
        }
        HostReply::Bytes(bytes) if !matches!(kind, FileHandle::Stdin) => {
            let text = text_from_utf8_lossy(bytes);
            Ok(result_ok(ty, RuntimeValue::Str(trim_carriage_return(text.as_str()))))
        }
        _ => Err(unexpected_reply()),
    }
}

pub open spec fn stdin_open(args: Seq<ValueView>, run: RunView, session: SessionView) -> Outcome {
    match crate::execute::lists::given(args, 0, crate::execute::values::as_policy(args[0])) {
        Err(failure) => Err(HaltView::Failed(failure)),
        Ok(policy) => {
            match crate::execute::policy::scope_check(policy, CapabilityDomain::StdinRead, "*"@) {
                Err(failure) => Err(HaltView::Failed(failure)),
                Ok(_) => {
                    if session.files.next == u64::MAX {
                        Err(HaltView::Failed(crate::execute::failure::text_failure("no handle ids are left"@)))
                    } else {
                        let (files, id) = session.files.stdin_opened(); let session = SessionView { files, ..session };
                        Ok((ValueView::HostHandle(HostHandle { id, access: HandleAccess::Read }), session))
                    }
                },
            }
        },
    }
}

fn run_stdin_open(args: &Vec<RuntimeValue>, run: &Run, session: &mut Session) -> (result: Result<RuntimeValue, Halt>)
    requires
        old(session).well_formed(),
    ensures
        final(session).well_formed(),
        crate::execute::session::stepped(result, *final(session)) == stdin_open(
            view::values(args@),
            run@,
            old(session)@,
        ),
{
    assert(view::values(args@).len() == args@.len());
    if args.len() == 0 {
        return Err(Halt::Failed(missing_argument()));
    }
    let policy = match value_policy(&args[0]) {
        Ok(value) => value,
        Err(failure) => return Err(Halt::Failed(failure)),
    };
    match ensure_policy_scope(policy, CapabilityDomain::StdinRead, "*") {
        Ok(_) => {}
        Err(failure) => return Err(Halt::Failed(failure)),
    }
    if session.files.next_id() == u64::MAX {
        return Err(Halt::Failed(Failure::text("no handle ids are left")));
    }
    let id = session.files.insert_stdin();
    Ok(RuntimeValue::HostHandle(HostHandle { id, access: HandleAccess::Read }))
}

pub open spec fn stdout_open(run: RunView, session: SessionView) -> Outcome {
    Ok((ValueView::HostHandle(HostHandle { id: 1, access: HandleAccess::Write }), session))
}

fn run_stdout_open(run: &Run, session: &mut Session) -> (result: Result<RuntimeValue, Halt>)
    requires
        old(session).well_formed(),
    ensures
        final(session).well_formed(),
        crate::execute::session::stepped(result, *final(session)) == stdout_open(run@, old(session)@),
{
    Ok(RuntimeValue::HostHandle(HostHandle { id: 1, access: HandleAccess::Write }))
}

pub open spec fn stderr_open(run: RunView, session: SessionView) -> Outcome {
    Ok((ValueView::HostHandle(HostHandle { id: 2, access: HandleAccess::Write }), session))
}

fn run_stderr_open(run: &Run, session: &mut Session) -> (result: Result<RuntimeValue, Halt>)
    requires
        old(session).well_formed(),
    ensures
        final(session).well_formed(),
        crate::execute::session::stepped(result, *final(session)) == stderr_open(run@, old(session)@),
{
    Ok(RuntimeValue::HostHandle(HostHandle { id: 2, access: HandleAccess::Write }))
}

pub open spec fn fd_read(ty: TypeView, args: Seq<ValueView>, run: RunView, session: SessionView) -> Outcome {
    match crate::execute::lists::given(args, 0, crate::execute::values::as_handle(args[0])) {
        Err(failure) => Err(HaltView::Failed(failure)),
        Ok(id) => {
            match session.files.lifecycle(id) {
                Some(error) => Ok((crate::execute::values::err_value(ty, error.tag_text()), session)),
                None => {
                    match session.files.get(id) {
                        None => Err(
                            HaltView::Failed(
                                crate::execute::failure::text_failure(crate::execute::files::invalid_handle_text(id)),
                            ),
                        ),
                        Some(kind) => {
                            if !kind.is_readable() {
                                Ok(
                                    (
                                        crate::execute::session::error_value(
                                            ErrorFamily::Files,
                                            ty,
                                            crate::execute::files::invalid_input("handle is not readable"@),
                                        ),
                                        session,
                                    ),
                                )
                            } else {
                                match crate::execute::session::asked(session, run, RequestView::ReadText { id }) {
                                    Err(halt) => Err(halt),
                                    Ok((reply, session)) => {
                                        match crate::execute::session::answer(ErrorFamily::Files, ty, reply, Shape::Text) {
                                            Err(failure) => Err(HaltView::Failed(failure)),
                                            Ok(value) => Ok((value, session)),
                                        }
                                    },
                                }
                            }
                        },
                    }
                },
            }
        },
    }
}

fn run_fd_read(
    ty: &TypeRef,
    args: &Vec<RuntimeValue>,
    run: &Run,
    session: &mut Session,
) -> (result: Result<RuntimeValue, Halt>)
    requires
        old(session).well_formed(),
    ensures
        final(session).well_formed(),
        crate::execute::session::stepped(result, *final(session)) == fd_read(
            view::type_ref(*ty),
            view::values(args@),
            run@,
            old(session)@,
        ),
{
    assert(view::values(args@).len() == args@.len());
    if args.len() == 0 {
        return Err(Halt::Failed(missing_argument()));
    }
    let id = match value_handle(&args[0]) {
        Ok(value) => value,
        Err(failure) => return Err(Halt::Failed(failure)),
    };
    match session.files.lifecycle_error(id) {
        Some(error) => return Ok(result_err(ty, error.tag())),
        None => {}
    }
    let kind = match session.files.get(id) {
        Some(value) => value,
        None => return Err(Halt::Failed(Failure::text(invalid_handle_message(id).as_str()))),
    };
    if !kind.readable() {
        return Ok(io_error(ErrorFamily::Files, ty, &IoFailure::invalid("handle is not readable")));
    }
    let request = HostRequest::ReadText { id };
    let reply = match session.ask(run, request) {
        Ok(value) => value,
        Err(halt) => return Err(halt),
    };
    match read_answer(ErrorFamily::Files, ty, reply, Shape::Text) {
        Ok(value) => Ok(value),
        Err(failure) => Err(Halt::Failed(failure)),
    }
}

pub open spec fn fd_read_bytes(ty: TypeView, args: Seq<ValueView>, run: RunView, session: SessionView) -> Outcome {
    match crate::execute::lists::given(args, 0, crate::execute::values::as_handle(args[0])) {
        Err(failure) => Err(HaltView::Failed(failure)),
        Ok(id) => {
            match session.files.lifecycle(id) {
                Some(error) => Ok((crate::execute::values::err_value(ty, error.tag_text()), session)),
                None => {
                    match session.files.get(id) {
                        None => Err(
                            HaltView::Failed(
                                crate::execute::failure::text_failure(crate::execute::files::invalid_handle_text(id)),
                            ),
                        ),
                        Some(kind) => {
                            if !kind.is_readable() {
                                Ok(
                                    (
                                        crate::execute::session::error_value(
                                            ErrorFamily::Files,
                                            ty,
                                            crate::execute::files::invalid_input("handle is not readable"@),
                                        ),
                                        session,
                                    ),
                                )
                            } else {
                                match crate::execute::session::asked(session, run, RequestView::ReadBytes { id }) {
                                    Err(halt) => Err(halt),
                                    Ok((reply, session)) => {
                                        match crate::execute::session::answer(ErrorFamily::Files, ty, reply, Shape::Bytes) {
                                            Err(failure) => Err(HaltView::Failed(failure)),
                                            Ok(value) => Ok((value, session)),
                                        }
                                    },
                                }
                            }
                        },
                    }
                },
            }
        },
    }
}

fn run_fd_read_bytes(
    ty: &TypeRef,
    args: &Vec<RuntimeValue>,
    run: &Run,
    session: &mut Session,
) -> (result: Result<RuntimeValue, Halt>)
    requires
        old(session).well_formed(),
    ensures
        final(session).well_formed(),
        crate::execute::session::stepped(result, *final(session)) == fd_read_bytes(
            view::type_ref(*ty),
            view::values(args@),
            run@,
            old(session)@,
        ),
{
    assert(view::values(args@).len() == args@.len());
    if args.len() == 0 {
        return Err(Halt::Failed(missing_argument()));
    }
    let id = match value_handle(&args[0]) {
        Ok(value) => value,
        Err(failure) => return Err(Halt::Failed(failure)),
    };
    match session.files.lifecycle_error(id) {
        Some(error) => return Ok(result_err(ty, error.tag())),
        None => {}
    }
    let kind = match session.files.get(id) {
        Some(value) => value,
        None => return Err(Halt::Failed(Failure::text(invalid_handle_message(id).as_str()))),
    };
    if !kind.readable() {
        return Ok(io_error(ErrorFamily::Files, ty, &IoFailure::invalid("handle is not readable")));
    }
    let request = HostRequest::ReadBytes { id };
    let reply = match session.ask(run, request) {
        Ok(value) => value,
        Err(halt) => return Err(halt),
    };
    match read_answer(ErrorFamily::Files, ty, reply, Shape::Bytes) {
        Ok(value) => Ok(value),
        Err(failure) => Err(Halt::Failed(failure)),
    }
}

pub open spec fn fd_read_line(ty: TypeView, args: Seq<ValueView>, run: RunView, session: SessionView) -> Outcome {
    match crate::execute::lists::given(args, 0, crate::execute::values::as_handle(args[0])) {
        Err(failure) => Err(HaltView::Failed(failure)),
        Ok(id) => {
            match session.files.lifecycle(id) {
                Some(error) => Ok((crate::execute::values::err_value(ty, error.tag_text()), session)),
                None => {
                    match session.files.get(id) {
                        None => Err(
                            HaltView::Failed(
                                crate::execute::failure::text_failure(crate::execute::files::invalid_handle_text(id)),
                            ),
                        ),
                        Some(kind) => {
                            if !kind.is_readable() {
                                Ok(
                                    (
                                        crate::execute::session::error_value(
                                            ErrorFamily::Files,
                                            ty,
                                            crate::execute::files::invalid_input("handle is not readable"@),
                                        ),
                                        session,
                                    ),
                                )
                            } else {
                                match crate::execute::session::asked(session, run, RequestView::ReadLine { id }) {
                                    Err(halt) => Err(halt),
                                    Ok((reply, session)) => {
                                        match line_answer(ty, kind, reply) {
                                            Err(failure) => Err(HaltView::Failed(failure)),
                                            Ok(value) => Ok((value, session)),
                                        }
                                    },
                                }
                            }
                        },
                    }
                },
            }
        },
    }
}

fn run_fd_read_line(
    ty: &TypeRef,
    args: &Vec<RuntimeValue>,
    run: &Run,
    session: &mut Session,
) -> (result: Result<RuntimeValue, Halt>)
    requires
        old(session).well_formed(),
    ensures
        final(session).well_formed(),
        crate::execute::session::stepped(result, *final(session)) == fd_read_line(
            view::type_ref(*ty),
            view::values(args@),
            run@,
            old(session)@,
        ),
{
    assert(view::values(args@).len() == args@.len());
    if args.len() == 0 {
        return Err(Halt::Failed(missing_argument()));
    }
    let id = match value_handle(&args[0]) {
        Ok(value) => value,
        Err(failure) => return Err(Halt::Failed(failure)),
    };
    match session.files.lifecycle_error(id) {
        Some(error) => return Ok(result_err(ty, error.tag())),
        None => {}
    }
    let kind = match session.files.get(id) {
        Some(value) => value,
        None => return Err(Halt::Failed(Failure::text(invalid_handle_message(id).as_str()))),
    };
    if !kind.readable() {
        return Ok(io_error(ErrorFamily::Files, ty, &IoFailure::invalid("handle is not readable")));
    }
    let request = HostRequest::ReadLine { id };
    let reply = match session.ask(run, request) {
        Ok(value) => value,
        Err(halt) => return Err(halt),
    };
    match read_line(ty, kind, reply) {
        Ok(value) => Ok(value),
        Err(failure) => Err(Halt::Failed(failure)),
    }
}

pub open spec fn fd_read_bytes_up_to(ty: TypeView, args: Seq<ValueView>, run: RunView, session: SessionView) -> Outcome {
    match crate::execute::lists::given(args, 0, crate::execute::values::as_handle(args[0])) {
        Err(failure) => Err(HaltView::Failed(failure)),
        Ok(id) => {
            match session.files.lifecycle(id) {
                Some(error) => Ok((crate::execute::values::err_value(ty, error.tag_text()), session)),
                None => {
                    match crate::execute::lists::given(args, 1, crate::execute::values::as_int(args[1])) {
                        Err(failure) => Err(HaltView::Failed(failure)),
                        Ok(requested) => {
                            match session.files.get(id) {
                                None => Err(
                                    HaltView::Failed(
                                        crate::execute::failure::text_failure(
                                            crate::execute::files::invalid_handle_text(id),
                                        ),
                                    ),
                                ),
                                Some(kind) => {
                                    if !kind.is_readable() {
                                        Ok(
                                            (
                                                crate::execute::session::error_value(
                                                    ErrorFamily::Files,
                                                    ty,
                                                    crate::execute::files::invalid_input("handle is not readable"@),
                                                ),
                                                session,
                                            ),
                                        )
                                    } else {
                                        match crate::execute::session::asked(session, run, RequestView::ReadUpTo { id, limit: capped(requested, run.config.max_alloc_len) }) {
                                            Err(halt) => Err(halt),
                                            Ok((reply, session)) => {
                                                match crate::execute::session::answer(ErrorFamily::Files, ty, reply, Shape::Bytes) {
                                                    Err(failure) => Err(HaltView::Failed(failure)),
                                                    Ok(value) => Ok((value, session)),
                                                }
                                            },
                                        }
                                    }
                                },
                            }
                        },
                    }
                },
            }
        },
    }
}

fn run_fd_read_bytes_up_to(
    ty: &TypeRef,
    args: &Vec<RuntimeValue>,
    run: &Run,
    session: &mut Session,
) -> (result: Result<RuntimeValue, Halt>)
    requires
        old(session).well_formed(),
    ensures
        final(session).well_formed(),
        crate::execute::session::stepped(result, *final(session)) == fd_read_bytes_up_to(
            view::type_ref(*ty),
            view::values(args@),
            run@,
            old(session)@,
        ),
{
    assert(view::values(args@).len() == args@.len());
    if args.len() == 0 {
        return Err(Halt::Failed(missing_argument()));
    }
    let id = match value_handle(&args[0]) {
        Ok(value) => value,
        Err(failure) => return Err(Halt::Failed(failure)),
    };
    match session.files.lifecycle_error(id) {
        Some(error) => return Ok(result_err(ty, error.tag())),
        None => {}
    }
    if args.len() <= 1 {
        return Err(Halt::Failed(missing_argument()));
    }
    let requested = match value_i64(&args[1]) {
        Ok(value) => value,
        Err(failure) => return Err(Halt::Failed(failure)),
    };
    let kind = match session.files.get(id) {
        Some(value) => value,
        None => return Err(Halt::Failed(Failure::text(invalid_handle_message(id).as_str()))),
    };
    if !kind.readable() {
        return Ok(io_error(ErrorFamily::Files, ty, &IoFailure::invalid("handle is not readable")));
    }
    let request = HostRequest::ReadUpTo { id, limit: read_limit(requested, run.config.max_alloc_len) };
    let reply = match session.ask(run, request) {
        Ok(value) => value,
        Err(halt) => return Err(halt),
    };
    match read_answer(ErrorFamily::Files, ty, reply, Shape::Bytes) {
        Ok(value) => Ok(value),
        Err(failure) => Err(Halt::Failed(failure)),
    }
}

pub open spec fn fd_write(ty: TypeView, args: Seq<ValueView>, run: RunView, session: SessionView) -> Outcome {
    match crate::execute::lists::given(args, 0, crate::execute::values::as_handle(args[0])) {
        Err(failure) => Err(HaltView::Failed(failure)),
        Ok(id) => {
            match session.files.lifecycle(id) {
                Some(error) => Ok((crate::execute::values::err_value(ty, error.tag_text()), session)),
                None => {
                    match crate::execute::lists::given(args, 1, crate::execute::values::as_text(args[1])) {
                        Err(failure) => Err(HaltView::Failed(failure)),
                        Ok(text) => {
                            match session.files.get(id) {
                                None => Err(
                                    HaltView::Failed(
                                        crate::execute::failure::text_failure(
                                            crate::execute::files::invalid_handle_text(id),
                                        ),
                                    ),
                                ),
                                Some(kind) => {
                                    match kind.write_refusal() {
                                        Some(failure) => Ok(
                                            (
                                                crate::execute::session::error_value(ErrorFamily::Files, ty, failure),
                                                session,
                                            ),
                                        ),
                                        None => {
                                            match crate::execute::session::asked(session, run, RequestView::WriteAll { id, bytes: vstd::utf8::encode_utf8(text) }) {
                                                Err(halt) => Err(halt),
                                                Ok((reply, session)) => {
                                                    match crate::execute::session::answer(ErrorFamily::Files, ty, reply, Shape::Nothing) {
                                                        Err(failure) => Err(HaltView::Failed(failure)),
                                                        Ok(value) => Ok((value, session)),
                                                    }
                                                },
                                            }
                                        },
                                    }
                                },
                            }
                        },
                    }
                },
            }
        },
    }
}

fn run_fd_write(
    ty: &TypeRef,
    args: &Vec<RuntimeValue>,
    run: &Run,
    session: &mut Session,
) -> (result: Result<RuntimeValue, Halt>)
    requires
        old(session).well_formed(),
    ensures
        final(session).well_formed(),
        crate::execute::session::stepped(result, *final(session)) == fd_write(
            view::type_ref(*ty),
            view::values(args@),
            run@,
            old(session)@,
        ),
{
    assert(view::values(args@).len() == args@.len());
    if args.len() == 0 {
        return Err(Halt::Failed(missing_argument()));
    }
    let id = match value_handle(&args[0]) {
        Ok(value) => value,
        Err(failure) => return Err(Halt::Failed(failure)),
    };
    match session.files.lifecycle_error(id) {
        Some(error) => return Ok(result_err(ty, error.tag())),
        None => {}
    }
    if args.len() <= 1 {
        return Err(Halt::Failed(missing_argument()));
    }
    let text = match value_str(&args[1]) {
        Ok(value) => value,
        Err(failure) => return Err(Halt::Failed(failure)),
    };
    let kind = match session.files.get(id) {
        Some(value) => value,
        None => return Err(Halt::Failed(Failure::text(invalid_handle_message(id).as_str()))),
    };
    match kind.writable() {
        Ok(_) => {}
        Err(failure) => return Ok(io_error(ErrorFamily::Files, ty, &failure)),
    }
    let request = HostRequest::WriteAll { id, bytes: text.as_bytes_vec() };
    let reply = match session.ask(run, request) {
        Ok(value) => value,
        Err(halt) => return Err(halt),
    };
    match read_answer(ErrorFamily::Files, ty, reply, Shape::Nothing) {
        Ok(value) => Ok(value),
        Err(failure) => Err(Halt::Failed(failure)),
    }
}

pub open spec fn fd_write_bytes(ty: TypeView, args: Seq<ValueView>, run: RunView, session: SessionView) -> Outcome {
    match crate::execute::lists::given(args, 0, crate::execute::values::as_handle(args[0])) {
        Err(failure) => Err(HaltView::Failed(failure)),
        Ok(id) => {
            match session.files.lifecycle(id) {
                Some(error) => Ok((crate::execute::values::err_value(ty, error.tag_text()), session)),
                None => {
                    match crate::execute::lists::given(args, 1, crate::execute::values::as_bytes(args[1])) {
                        Err(failure) => Err(HaltView::Failed(failure)),
                        Ok(bytes) => {
                            match session.files.get(id) {
                                None => Err(
                                    HaltView::Failed(
                                        crate::execute::failure::text_failure(
                                            crate::execute::files::invalid_handle_text(id),
                                        ),
                                    ),
                                ),
                                Some(kind) => {
                                    match kind.write_refusal() {
                                        Some(failure) => Ok(
                                            (
                                                crate::execute::session::error_value(ErrorFamily::Files, ty, failure),
                                                session,
                                            ),
                                        ),
                                        None => {
                                            match crate::execute::session::asked(session, run, RequestView::WriteAll { id, bytes }) {
                                                Err(halt) => Err(halt),
                                                Ok((reply, session)) => {
                                                    match crate::execute::session::answer(ErrorFamily::Files, ty, reply, Shape::Nothing) {
                                                        Err(failure) => Err(HaltView::Failed(failure)),
                                                        Ok(value) => Ok((value, session)),
                                                    }
                                                },
                                            }
                                        },
                                    }
                                },
                            }
                        },
                    }
                },
            }
        },
    }
}

fn run_fd_write_bytes(
    ty: &TypeRef,
    args: &Vec<RuntimeValue>,
    run: &Run,
    session: &mut Session,
) -> (result: Result<RuntimeValue, Halt>)
    requires
        old(session).well_formed(),
    ensures
        final(session).well_formed(),
        crate::execute::session::stepped(result, *final(session)) == fd_write_bytes(
            view::type_ref(*ty),
            view::values(args@),
            run@,
            old(session)@,
        ),
{
    assert(view::values(args@).len() == args@.len());
    if args.len() == 0 {
        return Err(Halt::Failed(missing_argument()));
    }
    let id = match value_handle(&args[0]) {
        Ok(value) => value,
        Err(failure) => return Err(Halt::Failed(failure)),
    };
    match session.files.lifecycle_error(id) {
        Some(error) => return Ok(result_err(ty, error.tag())),
        None => {}
    }
    if args.len() <= 1 {
        return Err(Halt::Failed(missing_argument()));
    }
    let bytes = match value_bytes(&args[1]) {
        Ok(value) => value,
        Err(failure) => return Err(Halt::Failed(failure)),
    };
    let kind = match session.files.get(id) {
        Some(value) => value,
        None => return Err(Halt::Failed(Failure::text(invalid_handle_message(id).as_str()))),
    };
    match kind.writable() {
        Ok(_) => {}
        Err(failure) => return Ok(io_error(ErrorFamily::Files, ty, &failure)),
    }
    let request = HostRequest::WriteAll { id, bytes };
    let reply = match session.ask(run, request) {
        Ok(value) => value,
        Err(halt) => return Err(halt),
    };
    match read_answer(ErrorFamily::Files, ty, reply, Shape::Nothing) {
        Ok(value) => Ok(value),
        Err(failure) => Err(Halt::Failed(failure)),
    }
}

pub open spec fn fd_write_bytes_some(ty: TypeView, args: Seq<ValueView>, run: RunView, session: SessionView) -> Outcome {
    match crate::execute::lists::given(args, 0, crate::execute::values::as_handle(args[0])) {
        Err(failure) => Err(HaltView::Failed(failure)),
        Ok(id) => {
            match session.files.lifecycle(id) {
                Some(error) => Ok((crate::execute::values::err_value(ty, error.tag_text()), session)),
                None => {
                    match crate::execute::lists::given(args, 1, crate::execute::values::as_bytes(args[1])) {
                        Err(failure) => Err(HaltView::Failed(failure)),
                        Ok(bytes) => {
                            match session.files.get(id) {
                                None => Err(
                                    HaltView::Failed(
                                        crate::execute::failure::text_failure(
                                            crate::execute::files::invalid_handle_text(id),
                                        ),
                                    ),
                                ),
                                Some(kind) => {
                                    match kind.write_refusal() {
                                        Some(failure) => Ok(
                                            (
                                                crate::execute::session::error_value(ErrorFamily::Files, ty, failure),
                                                session,
                                            ),
                                        ),
                                        None => {
                                            match crate::execute::session::asked(session, run, RequestView::WriteSome { id, bytes }) {
                                                Err(halt) => Err(halt),
                                                Ok((reply, session)) => {
                                                    match crate::execute::session::answer(ErrorFamily::Files, ty, reply, Shape::Count) {
                                                        Err(failure) => Err(HaltView::Failed(failure)),
                                                        Ok(value) => Ok((value, session)),
                                                    }
                                                },
                                            }
                                        },
                                    }
                                },
                            }
                        },
                    }
                },
            }
        },
    }
}

fn run_fd_write_bytes_some(
    ty: &TypeRef,
    args: &Vec<RuntimeValue>,
    run: &Run,
    session: &mut Session,
) -> (result: Result<RuntimeValue, Halt>)
    requires
        old(session).well_formed(),
    ensures
        final(session).well_formed(),
        crate::execute::session::stepped(result, *final(session)) == fd_write_bytes_some(
            view::type_ref(*ty),
            view::values(args@),
            run@,
            old(session)@,
        ),
{
    assert(view::values(args@).len() == args@.len());
    if args.len() == 0 {
        return Err(Halt::Failed(missing_argument()));
    }
    let id = match value_handle(&args[0]) {
        Ok(value) => value,
        Err(failure) => return Err(Halt::Failed(failure)),
    };
    match session.files.lifecycle_error(id) {
        Some(error) => return Ok(result_err(ty, error.tag())),
        None => {}
    }
    if args.len() <= 1 {
        return Err(Halt::Failed(missing_argument()));
    }
    let bytes = match value_bytes(&args[1]) {
        Ok(value) => value,
        Err(failure) => return Err(Halt::Failed(failure)),
    };
    let kind = match session.files.get(id) {
        Some(value) => value,
        None => return Err(Halt::Failed(Failure::text(invalid_handle_message(id).as_str()))),
    };
    match kind.writable() {
        Ok(_) => {}
        Err(failure) => return Ok(io_error(ErrorFamily::Files, ty, &failure)),
    }
    let request = HostRequest::WriteSome { id, bytes };
    let reply = match session.ask(run, request) {
        Ok(value) => value,
        Err(halt) => return Err(halt),
    };
    match read_answer(ErrorFamily::Files, ty, reply, Shape::Count) {
        Ok(value) => Ok(value),
        Err(failure) => Err(Halt::Failed(failure)),
    }
}

pub open spec fn fd_sync(ty: TypeView, args: Seq<ValueView>, run: RunView, session: SessionView) -> Outcome {
    match crate::execute::lists::given(args, 0, crate::execute::values::as_handle(args[0])) {
        Err(failure) => Err(HaltView::Failed(failure)),
        Ok(id) => {
            match session.files.lifecycle(id) {
                Some(error) => Ok((crate::execute::values::err_value(ty, error.tag_text()), session)),
                None => {
                    match session.files.get(id) {
                        None => Err(
                            HaltView::Failed(
                                crate::execute::failure::text_failure(crate::execute::files::invalid_handle_text(id)),
                            ),
                        ),
                        Some(kind) => {
                            if !kind.has_buffer() {
                                Ok((crate::execute::values::ok_value(ty, ValueView::Void), session))
                            } else {
                                match crate::execute::session::asked(session, run, RequestView::Flush { id }) {
                                    Err(halt) => Err(halt),
                                    Ok((reply, session)) => {
                                        match crate::execute::session::answer(ErrorFamily::Files, ty, reply, Shape::Nothing) {
                                            Err(failure) => Err(HaltView::Failed(failure)),
                                            Ok(value) => Ok((value, session)),
                                        }
                                    },
                                }
                            }
                        },
                    }
                },
            }
        },
    }
}

fn run_fd_sync(
    ty: &TypeRef,
    args: &Vec<RuntimeValue>,
    run: &Run,
    session: &mut Session,
) -> (result: Result<RuntimeValue, Halt>)
    requires
        old(session).well_formed(),
    ensures
        final(session).well_formed(),
        crate::execute::session::stepped(result, *final(session)) == fd_sync(
            view::type_ref(*ty),
            view::values(args@),
            run@,
            old(session)@,
        ),
{
    assert(view::values(args@).len() == args@.len());
    if args.len() == 0 {
        return Err(Halt::Failed(missing_argument()));
    }
    let id = match value_handle(&args[0]) {
        Ok(value) => value,
        Err(failure) => return Err(Halt::Failed(failure)),
    };
    match session.files.lifecycle_error(id) {
        Some(error) => return Ok(result_err(ty, error.tag())),
        None => {}
    }
    let kind = match session.files.get(id) {
        Some(value) => value,
        None => return Err(Halt::Failed(Failure::text(invalid_handle_message(id).as_str()))),
    };
    if !kind.buffered() {
        return Ok(result_ok(ty, RuntimeValue::Void));
    }
    let request = HostRequest::Flush { id };
    let reply = match session.ask(run, request) {
        Ok(value) => value,
        Err(halt) => return Err(halt),
    };
    match read_answer(ErrorFamily::Files, ty, reply, Shape::Nothing) {
        Ok(value) => Ok(value),
        Err(failure) => Err(Halt::Failed(failure)),
    }
}

pub open spec fn fd_close(ty: TypeView, args: Seq<ValueView>, run: RunView, session: SessionView) -> Outcome {
    match crate::execute::lists::given(args, 0, crate::execute::values::as_handle(args[0])) {
        Err(failure) => Err(HaltView::Failed(failure)),
        Ok(id) => match session.files.get(id) {
            None => Ok((crate::execute::values::err_value(ty, session.files.absent(id).tag_text()), session)),
            Some(handle) => if handle.is_owned() {
                match crate::execute::session::asked(session, run, RequestView::Close { id }) {
                    Err(halt) => Err(halt),
                    Ok((_, session)) => Ok(
                        (
                            crate::execute::values::ok_value(ty, ValueView::Void),
                            SessionView { files: session.files.close(id).0, ..session },
                        ),
                    ),
                }
            } else {
                Ok((crate::execute::values::ok_value(ty, ValueView::Void), session))
            },
        },
    }
}

fn run_fd_close(
    ty: &TypeRef,
    args: &Vec<RuntimeValue>,
    run: &Run,
    session: &mut Session,
) -> (result: Result<RuntimeValue, Halt>)
    requires
        old(session).well_formed(),
    ensures
        final(session).well_formed(),
        crate::execute::session::stepped(result, *final(session)) == fd_close(
            view::type_ref(*ty),
            view::values(args@),
            run@,
            old(session)@,
        ),
{
    assert(view::values(args@).len() == args@.len());
    if args.len() == 0 {
        return Err(Halt::Failed(missing_argument()));
    }
    let id = match value_handle(&args[0]) {
        Ok(value) => value,
        Err(failure) => return Err(Halt::Failed(failure)),
    };
    match session.files.get(id) {
        None => {
            match session.files.close(id) {
                Ok(_) => Ok(result_ok(ty, RuntimeValue::Void)),
                Err(error) => Ok(result_err(ty, error.tag())),
            }
        }
        Some(handle) => {
            if handle.owns() {
                let request = HostRequest::Close { id };
                match session.ask(run, request) {
                    Ok(_) => {}
                    Err(halt) => return Err(halt),
                }
                let _ = session.files.close(id);
            }
            Ok(result_ok(ty, RuntimeValue::Void))
        }
    }
}

/// What an operation on streams and handles does; nothing for any other name.
pub open spec fn streams(name: Seq<char>, ty: TypeView, args: Seq<ValueView>, run: RunView, session: SessionView) -> Option<Outcome> {
    if name == "stdin_open"@ {
        Some(stdin_open(args, run, session))
    } else if name == "stdout_open"@ {
        Some(stdout_open(run, session))
    } else if name == "stderr_open"@ {
        Some(stderr_open(run, session))
    } else if name == "fd_read"@ {
        Some(fd_read(ty, args, run, session))
    } else if name == "fd_read_bytes"@ {
        Some(fd_read_bytes(ty, args, run, session))
    } else if name == "fd_read_line"@ {
        Some(fd_read_line(ty, args, run, session))
    } else if name == "fd_read_bytes_up_to"@ {
        Some(fd_read_bytes_up_to(ty, args, run, session))
    } else if name == "fd_write"@ {
        Some(fd_write(ty, args, run, session))
    } else if name == "fd_write_bytes"@ {
        Some(fd_write_bytes(ty, args, run, session))
    } else if name == "fd_write_bytes_some"@ {
        Some(fd_write_bytes_some(ty, args, run, session))
    } else if name == "fd_sync"@ {
        Some(fd_sync(ty, args, run, session))
    } else if name == "fd_close"@ {
        Some(fd_close(ty, args, run, session))
    } else {
        None
    }
}

pub(crate) fn run_streams(
    name: &str,
    ty: &TypeRef,
    args: &Vec<RuntimeValue>,
    run: &Run,
    session: &mut Session,
) -> (result: Option<Result<RuntimeValue, Halt>>)
    requires
        old(session).well_formed(),
    ensures
        final(session).well_formed(),
        match result {
            Some(result) => streams(
                name@,
                view::type_ref(*ty),
                view::values(args@),
                run@,
                old(session)@,
            ) == Some(crate::execute::session::stepped(result, *final(session))),
            None => streams(
                name@,
                view::type_ref(*ty),
                view::values(args@),
                run@,
                old(session)@,
            ) is None && final(session)@ == old(session)@,
        },
{
    assert(view::values(args@).len() == args@.len());
    if same_text(name, "stdin_open") {
        Some(run_stdin_open(args, run, session))
    } else if same_text(name, "stdout_open") {
        Some(run_stdout_open(run, session))
    } else if same_text(name, "stderr_open") {
        Some(run_stderr_open(run, session))
    } else if same_text(name, "fd_read") {
        Some(run_fd_read(ty, args, run, session))
    } else if same_text(name, "fd_read_bytes") {
        Some(run_fd_read_bytes(ty, args, run, session))
    } else if same_text(name, "fd_read_line") {
        Some(run_fd_read_line(ty, args, run, session))
    } else if same_text(name, "fd_read_bytes_up_to") {
        Some(run_fd_read_bytes_up_to(ty, args, run, session))
    } else if same_text(name, "fd_write") {
        Some(run_fd_write(ty, args, run, session))
    } else if same_text(name, "fd_write_bytes") {
        Some(run_fd_write_bytes(ty, args, run, session))
    } else if same_text(name, "fd_write_bytes_some") {
        Some(run_fd_write_bytes_some(ty, args, run, session))
    } else if same_text(name, "fd_sync") {
        Some(run_fd_sync(ty, args, run, session))
    } else if same_text(name, "fd_close") {
        Some(run_fd_close(ty, args, run, session))
    } else {
        None
    }
}

} // verus!
