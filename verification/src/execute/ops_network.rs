//! Network operations.
use vstd::prelude::*;
use crate::execute::failure::Failure;
use crate::execute::host_view::{self, RequestView};
use crate::lowered::ir::{RuntimeValue, TypeRef};
use crate::lowered::view::{self, TypeView, ValueView};
use crate::execute::files::{invalid_handle_message, FileHandle};
use crate::execute::host::{HostReply, HostRequest, ShutdownSide};
use crate::execute::host_view::ReplyView;
use crate::execute::failure::PartView;
use crate::execute::lists::missing_argument;
use crate::execute::policy::ensure_policy_scope;
use crate::execute::session::{
    checked_alloc_len, open_answer, read_answer, unexpected_reply, ErrorFamily, Halt, HaltView, Outcome, Run,
    RunView, Session, SessionView, Shape,
};
use crate::execute::values::{
    result_err, result_err_message, result_ok, runtime_texts, value_bytes, value_handle, value_i64, value_policy,
    value_str,
};
use crate::lowered::ir::{CapabilityDomain, HandleAccess};
use crate::text::{owned, same_text};

verus! {

/// Whether a handle has an address.
pub open spec fn socket(kind: FileHandle) -> bool {
    kind is TcpStream || kind is TcpListener || kind is UdpSocket
}

fn is_socket(kind: FileHandle) -> (result: bool)
    ensures
        result == socket(kind),
{
    matches!(kind, FileHandle::TcpStream | FileHandle::TcpListener | FileHandle::UdpSocket)
}

pub open spec fn shutdown_side(text: Seq<char>) -> Option<ShutdownSide> {
    if text == "read"@ {
        Some(ShutdownSide::Read)
    } else if text == "write"@ {
        Some(ShutdownSide::Write)
    } else if text == "both"@ {
        Some(ShutdownSide::Both)
    } else {
        None
    }
}

fn read_side(text: &str) -> (side: Option<ShutdownSide>)
    ensures
        side == shutdown_side(text@),
{
    if same_text(text, "read") {
        Some(ShutdownSide::Read)
    } else if same_text(text, "write") {
        Some(ShutdownSide::Write)
    } else if same_text(text, "both") {
        Some(ShutdownSide::Both)
    } else {
        None
    }
}

/// The answer to a request to read an address.
pub open spec fn address_answer(ty: TypeView, reply: ReplyView) -> Result<ValueView, Seq<PartView>> {
    match reply {
        ReplyView::Text(address) => Ok(crate::execute::values::ok_value(ty, ValueView::Str(address))),
        ReplyView::Failed(failure) => Ok(
            crate::execute::values::err_message(ty, "invalid-address"@, failure.message),
        ),
        _ => Err(crate::execute::session::unexpected()),
    }
}

fn read_address(ty: &TypeRef, reply: &HostReply) -> (result: Result<RuntimeValue, Failure>)
    ensures
        crate::execute::lists::outcome(result) == address_answer(view::type_ref(*ty), host_view::reply(*reply)),
{
    match reply {
        HostReply::Text(address) => Ok(result_ok(ty, RuntimeValue::Str(address.clone()))),
        HostReply::Failed(failure) => Ok(result_err_message(ty, "invalid-address", failure.message.as_str())),
        _ => Err(unexpected_reply()),
    }
}

/// The answer to a request to resolve a name.
pub open spec fn resolve_answer(ty: TypeView, reply: ReplyView) -> Result<ValueView, Seq<PartView>> {
    match reply {
        ReplyView::Texts(addresses) => Ok(
            crate::execute::values::ok_value(ty, crate::execute::values::text_array(addresses)),
        ),
        ReplyView::Failed(failure) => Ok(crate::execute::values::err_message(ty, "dns-failed"@, failure.message)),
        _ => Err(crate::execute::session::unexpected()),
    }
}

fn read_resolved(ty: &TypeRef, reply: &HostReply) -> (result: Result<RuntimeValue, Failure>)
    ensures
        crate::execute::lists::outcome(result) == resolve_answer(view::type_ref(*ty), host_view::reply(*reply)),
{
    match reply {
        HostReply::Texts(addresses) => Ok(result_ok(ty, runtime_texts(addresses))),
        HostReply::Failed(failure) => Ok(result_err_message(ty, "dns-failed", failure.message.as_str())),
        _ => Err(unexpected_reply()),
    }
}

pub open spec fn net_address_parse(ty: TypeView, args: Seq<ValueView>, run: RunView, session: SessionView) -> Outcome {
    match crate::execute::lists::given(args, 0, crate::execute::values::as_text(args[0])) {
        Err(failure) => Err(HaltView::Failed(failure)),
        Ok(text) => {
            match crate::execute::session::asked(session, run, RequestView::ParseAddress { text }) {
                Err(halt) => Err(halt),
                Ok((reply, session)) => {
                    match address_answer(ty, reply) {
                        Err(failure) => Err(HaltView::Failed(failure)),
                        Ok(value) => Ok((value, session)),
                    }
                },
            }
        },
    }
}

fn run_net_address_parse(
    ty: &TypeRef,
    args: &Vec<RuntimeValue>,
    run: &Run,
    session: &mut Session,
) -> (result: Result<RuntimeValue, Halt>)
    requires
        old(session).well_formed(),
    ensures
        final(session).well_formed(),
        crate::execute::session::stepped(result, *final(session)) == net_address_parse(
            view::type_ref(*ty),
            view::values(args@),
            run@,
            old(session)@,
        ),
{
    assert(view::values(args@).len() == args@.len());
    if args.len() == 0 {
        return Err(Halt::Failed(missing_argument()));
    }
    let text = match value_str(&args[0]) {
        Ok(value) => value,
        Err(failure) => return Err(Halt::Failed(failure)),
    };
    let request = HostRequest::ParseAddress { text: owned(text) };
    let reply = match session.ask(run, request) {
        Ok(value) => value,
        Err(halt) => return Err(halt),
    };
    match read_address(ty, reply) {
        Ok(value) => Ok(value),
        Err(failure) => Err(Halt::Failed(failure)),
    }
}

pub open spec fn net_resolve(ty: TypeView, args: Seq<ValueView>, run: RunView, session: SessionView) -> Outcome {
    match crate::execute::lists::given(args, 0, crate::execute::values::as_text(args[0])) {
        Err(failure) => Err(HaltView::Failed(failure)),
        Ok(target) => {
            match crate::execute::lists::given(args, 1, crate::execute::values::as_policy(args[1])) {
                Err(failure) => Err(HaltView::Failed(failure)),
                Ok(policy) => {
                    if crate::execute::policy::scope_check(policy, CapabilityDomain::NetConnect, target) is Err {
                        Ok((crate::execute::values::err_value(ty, "permission-denied"@), session))
                    } else {
                        match crate::execute::session::asked(session, run, RequestView::ResolveAddress { target }) {
                            Err(halt) => Err(halt),
                            Ok((reply, session)) => {
                                match resolve_answer(ty, reply) {
                                    Err(failure) => Err(HaltView::Failed(failure)),
                                    Ok(value) => Ok((value, session)),
                                }
                            },
                        }
                    }
                },
            }
        },
    }
}

fn run_net_resolve(
    ty: &TypeRef,
    args: &Vec<RuntimeValue>,
    run: &Run,
    session: &mut Session,
) -> (result: Result<RuntimeValue, Halt>)
    requires
        old(session).well_formed(),
    ensures
        final(session).well_formed(),
        crate::execute::session::stepped(result, *final(session)) == net_resolve(
            view::type_ref(*ty),
            view::values(args@),
            run@,
            old(session)@,
        ),
{
    assert(view::values(args@).len() == args@.len());
    if args.len() == 0 {
        return Err(Halt::Failed(missing_argument()));
    }
    let target = match value_str(&args[0]) {
        Ok(value) => value,
        Err(failure) => return Err(Halt::Failed(failure)),
    };
    if args.len() <= 1 {
        return Err(Halt::Failed(missing_argument()));
    }
    let policy = match value_policy(&args[1]) {
        Ok(value) => value,
        Err(failure) => return Err(Halt::Failed(failure)),
    };
    if ensure_policy_scope(policy, CapabilityDomain::NetConnect, target).is_err() {
        return Ok(result_err(ty, "permission-denied"));
    }
    let request = HostRequest::ResolveAddress { target: owned(target) };
    let reply = match session.ask(run, request) {
        Ok(value) => value,
        Err(halt) => return Err(halt),
    };
    match read_resolved(ty, reply) {
        Ok(value) => Ok(value),
        Err(failure) => Err(Halt::Failed(failure)),
    }
}

pub open spec fn net_connect(ty: TypeView, args: Seq<ValueView>, run: RunView, session: SessionView) -> Outcome {
    match crate::execute::lists::given(args, 0, crate::execute::values::as_text(args[0])) {
        Err(failure) => Err(HaltView::Failed(failure)),
        Ok(target) => {
            match crate::execute::lists::given(args, 1, crate::execute::values::as_policy(args[1])) {
                Err(failure) => Err(HaltView::Failed(failure)),
                Ok(policy) => {
                    if crate::execute::policy::scope_check(policy, CapabilityDomain::NetConnect, target) is Err {
                        Ok((crate::execute::values::err_value(ty, "permission-denied"@), session))
                    } else {
                        if session.files.is_full() {
                            Ok(
                                (
                                    crate::execute::values::err_message(
                                        ty,
                                        "resource-limit"@,
                                        "host resource limit reached"@,
                                    ),
                                    session,
                                ),
                            )
                        } else {
                            match crate::execute::session::asked(session, run, RequestView::Connect { target, id: session.files.next }) {
                                Err(halt) => Err(halt),
                                Ok((reply, session)) => {
                                    crate::execute::session::opened(
                                        ErrorFamily::Network,
                                        ty,
                                        reply,
                                        FileHandle::TcpStream,
                                        HandleAccess::ReadWrite,
                                        session,
                                    )
                                },
                            }
                        }
                    }
                },
            }
        },
    }
}

fn run_net_connect(
    ty: &TypeRef,
    args: &Vec<RuntimeValue>,
    run: &Run,
    session: &mut Session,
) -> (result: Result<RuntimeValue, Halt>)
    requires
        old(session).well_formed(),
    ensures
        final(session).well_formed(),
        crate::execute::session::stepped(result, *final(session)) == net_connect(
            view::type_ref(*ty),
            view::values(args@),
            run@,
            old(session)@,
        ),
{
    assert(view::values(args@).len() == args@.len());
    if args.len() == 0 {
        return Err(Halt::Failed(missing_argument()));
    }
    let target = match value_str(&args[0]) {
        Ok(value) => value,
        Err(failure) => return Err(Halt::Failed(failure)),
    };
    if args.len() <= 1 {
        return Err(Halt::Failed(missing_argument()));
    }
    let policy = match value_policy(&args[1]) {
        Ok(value) => value,
        Err(failure) => return Err(Halt::Failed(failure)),
    };
    if ensure_policy_scope(policy, CapabilityDomain::NetConnect, target).is_err() {
        return Ok(result_err(ty, "permission-denied"));
    }
    if session.files.at_capacity() {
        return Ok(result_err_message(ty, "resource-limit", "host resource limit reached"));
    }
    let request = HostRequest::Connect { target: owned(target), id: session.files.next_id() };
    let reply = match session.ask(run, request) {
        Ok(value) => value,
        Err(halt) => return Err(halt),
    };
    open_answer(ErrorFamily::Network, ty, reply, FileHandle::TcpStream, HandleAccess::ReadWrite, session)
}

pub open spec fn net_listen(ty: TypeView, args: Seq<ValueView>, run: RunView, session: SessionView) -> Outcome {
    match crate::execute::lists::given(args, 0, crate::execute::values::as_text(args[0])) {
        Err(failure) => Err(HaltView::Failed(failure)),
        Ok(target) => {
            match crate::execute::lists::given(args, 1, crate::execute::values::as_policy(args[1])) {
                Err(failure) => Err(HaltView::Failed(failure)),
                Ok(policy) => {
                    if crate::execute::policy::scope_check(policy, CapabilityDomain::NetListen, target) is Err {
                        Ok((crate::execute::values::err_value(ty, "permission-denied"@), session))
                    } else {
                        if session.files.is_full() {
                            Ok(
                                (
                                    crate::execute::values::err_message(
                                        ty,
                                        "resource-limit"@,
                                        "host resource limit reached"@,
                                    ),
                                    session,
                                ),
                            )
                        } else {
                            match crate::execute::session::asked(session, run, RequestView::Listen { target, id: session.files.next }) {
                                Err(halt) => Err(halt),
                                Ok((reply, session)) => {
                                    crate::execute::session::opened(
                                        ErrorFamily::Network,
                                        ty,
                                        reply,
                                        FileHandle::TcpListener,
                                        HandleAccess::Read,
                                        session,
                                    )
                                },
                            }
                        }
                    }
                },
            }
        },
    }
}

fn run_net_listen(
    ty: &TypeRef,
    args: &Vec<RuntimeValue>,
    run: &Run,
    session: &mut Session,
) -> (result: Result<RuntimeValue, Halt>)
    requires
        old(session).well_formed(),
    ensures
        final(session).well_formed(),
        crate::execute::session::stepped(result, *final(session)) == net_listen(
            view::type_ref(*ty),
            view::values(args@),
            run@,
            old(session)@,
        ),
{
    assert(view::values(args@).len() == args@.len());
    if args.len() == 0 {
        return Err(Halt::Failed(missing_argument()));
    }
    let target = match value_str(&args[0]) {
        Ok(value) => value,
        Err(failure) => return Err(Halt::Failed(failure)),
    };
    if args.len() <= 1 {
        return Err(Halt::Failed(missing_argument()));
    }
    let policy = match value_policy(&args[1]) {
        Ok(value) => value,
        Err(failure) => return Err(Halt::Failed(failure)),
    };
    if ensure_policy_scope(policy, CapabilityDomain::NetListen, target).is_err() {
        return Ok(result_err(ty, "permission-denied"));
    }
    if session.files.at_capacity() {
        return Ok(result_err_message(ty, "resource-limit", "host resource limit reached"));
    }
    let request = HostRequest::Listen { target: owned(target), id: session.files.next_id() };
    let reply = match session.ask(run, request) {
        Ok(value) => value,
        Err(halt) => return Err(halt),
    };
    open_answer(ErrorFamily::Network, ty, reply, FileHandle::TcpListener, HandleAccess::Read, session)
}

pub open spec fn net_accept(ty: TypeView, args: Seq<ValueView>, run: RunView, session: SessionView) -> Outcome {
    match crate::execute::lists::given(args, 0, crate::execute::values::as_handle(args[0])) {
        Err(failure) => Err(HaltView::Failed(failure)),
        Ok(id) => {
            match session.files.lifecycle(id) {
                Some(error) => Ok((crate::execute::values::err_value(ty, error.tag_text()), session)),
                None => {
                    if session.files.is_full() {
                        Ok(
                            (
                                crate::execute::values::err_message(
                                    ty,
                                    "resource-limit"@,
                                    "host resource limit reached"@,
                                ),
                                session,
                            ),
                        )
                    } else {
                        match session.files.get(id) {
                            None => Err(
                                HaltView::Failed(
                                    crate::execute::failure::text_failure(
                                        crate::execute::files::invalid_handle_text(id),
                                    ),
                                ),
                            ),
                            Some(kind) => {
                                if !(kind is TcpListener) {
                                    Ok((crate::execute::values::err_value(ty, "invalid-handle"@), session))
                                } else {
                                    match crate::execute::session::asked(session, run, RequestView::Accept { listener: id, id: session.files.next }) {
                                        Err(halt) => Err(halt),
                                        Ok((reply, session)) => {
                                            crate::execute::session::opened(
                                                ErrorFamily::Network,
                                                ty,
                                                reply,
                                                FileHandle::TcpStream,
                                                HandleAccess::ReadWrite,
                                                session,
                                            )
                                        },
                                    }
                                }
                            },
                        }
                    }
                },
            }
        },
    }
}

fn run_net_accept(
    ty: &TypeRef,
    args: &Vec<RuntimeValue>,
    run: &Run,
    session: &mut Session,
) -> (result: Result<RuntimeValue, Halt>)
    requires
        old(session).well_formed(),
    ensures
        final(session).well_formed(),
        crate::execute::session::stepped(result, *final(session)) == net_accept(
            view::type_ref(*ty),
            view::values(args@),
            run@,
            old(session)@,
        ),
{
    assert(view::values(args@).len() == args@.len());
    if args.len() == 0 {
        return Err(Halt::Failed(missing_argument()));
    }
    let id = match value_handle(&args[0]) {
        Ok(value) => value,
        Err(failure) => return Err(Halt::Failed(failure)),
    };
    match session.files.lifecycle_error(id) {
        Some(error) => return Ok(result_err(ty, error.tag())),
        None => {}
    }
    if session.files.at_capacity() {
        return Ok(result_err_message(ty, "resource-limit", "host resource limit reached"));
    }
    let kind = match session.files.get(id) {
        Some(value) => value,
        None => return Err(Halt::Failed(Failure::text(invalid_handle_message(id).as_str()))),
    };
    if !matches!(kind, FileHandle::TcpListener) {
        return Ok(result_err(ty, "invalid-handle"));
    }
    let request = HostRequest::Accept { listener: id, id: session.files.next_id() };
    let reply = match session.ask(run, request) {
        Ok(value) => value,
        Err(halt) => return Err(halt),
    };
    open_answer(ErrorFamily::Network, ty, reply, FileHandle::TcpStream, HandleAccess::ReadWrite, session)
}

pub open spec fn net_local_address(ty: TypeView, args: Seq<ValueView>, run: RunView, session: SessionView) -> Outcome {
    match crate::execute::lists::given(args, 0, crate::execute::values::as_handle(args[0])) {
        Err(failure) => Err(HaltView::Failed(failure)),
        Ok(id) => {
            match session.files.lifecycle(id) {
                Some(error) => Ok((crate::execute::values::err_value(ty, error.tag_text()), session)),
                None => {
                    match session.files.get(id) {
                        None => Err(
                            HaltView::Failed(
                                crate::execute::failure::text_failure(crate::execute::files::invalid_handle_text(id)),
                            ),
                        ),
                        Some(kind) => {
                            if !socket(kind) {
                                Ok((crate::execute::values::err_value(ty, "invalid-handle"@), session))
                            } else {
                                match crate::execute::session::asked(session, run, RequestView::LocalAddress { id }) {
                                    Err(halt) => Err(halt),
                                    Ok((reply, session)) => {
                                        match crate::execute::session::answer(ErrorFamily::Network, ty, reply, Shape::Text) {
                                            Err(failure) => Err(HaltView::Failed(failure)),
                                            Ok(value) => Ok((value, session)),
                                        }
                                    },
                                }
                            }
                        },
                    }
                },
            }
        },
    }
}

fn run_net_local_address(
    ty: &TypeRef,
    args: &Vec<RuntimeValue>,
    run: &Run,
    session: &mut Session,
) -> (result: Result<RuntimeValue, Halt>)
    requires
        old(session).well_formed(),
    ensures
        final(session).well_formed(),
        crate::execute::session::stepped(result, *final(session)) == net_local_address(
            view::type_ref(*ty),
            view::values(args@),
            run@,
            old(session)@,
        ),
{
    assert(view::values(args@).len() == args@.len());
    if args.len() == 0 {
        return Err(Halt::Failed(missing_argument()));
    }
    let id = match value_handle(&args[0]) {
        Ok(value) => value,
        Err(failure) => return Err(Halt::Failed(failure)),
    };
    match session.files.lifecycle_error(id) {
        Some(error) => return Ok(result_err(ty, error.tag())),
        None => {}
    }
    let kind = match session.files.get(id) {
        Some(value) => value,
        None => return Err(Halt::Failed(Failure::text(invalid_handle_message(id).as_str()))),
    };
    if !is_socket(kind) {
        return Ok(result_err(ty, "invalid-handle"));
    }
    let request = HostRequest::LocalAddress { id };
    let reply = match session.ask(run, request) {
        Ok(value) => value,
        Err(halt) => return Err(halt),
    };
    match read_answer(ErrorFamily::Network, ty, reply, Shape::Text) {
        Ok(value) => Ok(value),
        Err(failure) => Err(Halt::Failed(failure)),
    }
}

pub open spec fn net_set_deadline(ty: TypeView, args: Seq<ValueView>, run: RunView, session: SessionView) -> Outcome {
    match crate::execute::lists::given(args, 0, crate::execute::values::as_handle(args[0])) {
        Err(failure) => Err(HaltView::Failed(failure)),
        Ok(id) => {
            match crate::execute::lists::given(args, 1, crate::execute::values::as_int(args[1])) {
                Err(failure) => Err(HaltView::Failed(failure)),
                Ok(millis) => {
                    if millis < 0 {
                        Err(HaltView::Failed(crate::execute::failure::text_failure("deadline must be non-negative"@)))
                    } else {
                        match session.files.get(id) {
                            None => Err(
                                HaltView::Failed(
                                    crate::execute::failure::text_failure(
                                        crate::execute::files::invalid_handle_text(id),
                                    ),
                                ),
                            ),
                            Some(kind) => {
                                if !(kind is TcpStream) {
                                    Ok((crate::execute::values::err_value(ty, "invalid-handle"@), session))
                                } else {
                                    match crate::execute::session::asked(session, run, RequestView::SetDeadline { id, millis: millis as u64 }) {
                                        Err(halt) => Err(halt),
                                        Ok((reply, session)) => {
                                            match crate::execute::session::answer(ErrorFamily::Network, ty, reply, Shape::Nothing) {
                                                Err(failure) => Err(HaltView::Failed(failure)),
                                                Ok(value) => Ok((value, session)),
                                            }
                                        },
                                    }
                                }
                            },
                        }
                    }
                },
            }
        },
    }
}

fn run_net_set_deadline(
    ty: &TypeRef,
    args: &Vec<RuntimeValue>,
    run: &Run,
    session: &mut Session,
) -> (result: Result<RuntimeValue, Halt>)
    requires
        old(session).well_formed(),
    ensures
        final(session).well_formed(),
        crate::execute::session::stepped(result, *final(session)) == net_set_deadline(
            view::type_ref(*ty),
            view::values(args@),
            run@,
            old(session)@,
        ),
{
    assert(view::values(args@).len() == args@.len());
    if args.len() == 0 {
        return Err(Halt::Failed(missing_argument()));
    }
    let id = match value_handle(&args[0]) {
        Ok(value) => value,
        Err(failure) => return Err(Halt::Failed(failure)),
    };
    if args.len() <= 1 {
        return Err(Halt::Failed(missing_argument()));
    }
    let millis = match value_i64(&args[1]) {
        Ok(value) => value,
        Err(failure) => return Err(Halt::Failed(failure)),
    };
    if millis < 0 {
        return Err(Halt::Failed(Failure::text("deadline must be non-negative")));
    }
    let kind = match session.files.get(id) {
        Some(value) => value,
        None => return Err(Halt::Failed(Failure::text(invalid_handle_message(id).as_str()))),
    };
    if !matches!(kind, FileHandle::TcpStream) {
        return Ok(result_err(ty, "invalid-handle"));
    }
    let request = HostRequest::SetDeadline { id, millis: millis as u64 };
    let reply = match session.ask(run, request) {
        Ok(value) => value,
        Err(halt) => return Err(halt),
    };
    match read_answer(ErrorFamily::Network, ty, reply, Shape::Nothing) {
        Ok(value) => Ok(value),
        Err(failure) => Err(Halt::Failed(failure)),
    }
}

pub open spec fn net_shutdown(ty: TypeView, args: Seq<ValueView>, run: RunView, session: SessionView) -> Outcome {
    match crate::execute::lists::given(args, 0, crate::execute::values::as_handle(args[0])) {
        Err(failure) => Err(HaltView::Failed(failure)),
        Ok(id) => {
            match crate::execute::lists::given(args, 1, crate::execute::values::as_text(args[1])) {
                Err(failure) => Err(HaltView::Failed(failure)),
                Ok(direction) => {
                    let side = shutdown_side(direction);
                    if side is None {
                        Ok(
                            (
                                crate::execute::values::err_message(
                                    ty,
                                    "invalid-input"@,
                                    "expected read, write, or both"@,
                                ),
                                session,
                            ),
                        )
                    } else {
                        match session.files.get(id) {
                            None => Err(
                                HaltView::Failed(
                                    crate::execute::failure::text_failure(
                                        crate::execute::files::invalid_handle_text(id),
                                    ),
                                ),
                            ),
                            Some(kind) => {
                                if !(kind is TcpStream) {
                                    Ok((crate::execute::values::err_value(ty, "invalid-handle"@), session))
                                } else {
                                    match crate::execute::session::asked(session, run, RequestView::ShutDown { id, side: side->Some_0 }) {
                                        Err(halt) => Err(halt),
                                        Ok((reply, session)) => {
                                            match crate::execute::session::answer(ErrorFamily::Network, ty, reply, Shape::Nothing) {
                                                Err(failure) => Err(HaltView::Failed(failure)),
                                                Ok(value) => Ok((value, session)),
                                            }
                                        },
                                    }
                                }
                            },
                        }
                    }
                },
            }
        },
    }
}

fn run_net_shutdown(
    ty: &TypeRef,
    args: &Vec<RuntimeValue>,
    run: &Run,
    session: &mut Session,
) -> (result: Result<RuntimeValue, Halt>)
    requires
        old(session).well_formed(),
    ensures
        final(session).well_formed(),
        crate::execute::session::stepped(result, *final(session)) == net_shutdown(
            view::type_ref(*ty),
            view::values(args@),
            run@,
            old(session)@,
        ),
{
    assert(view::values(args@).len() == args@.len());
    if args.len() == 0 {
        return Err(Halt::Failed(missing_argument()));
    }
    let id = match value_handle(&args[0]) {
        Ok(value) => value,
        Err(failure) => return Err(Halt::Failed(failure)),
    };
    if args.len() <= 1 {
        return Err(Halt::Failed(missing_argument()));
    }
    let direction = match value_str(&args[1]) {
        Ok(value) => value,
        Err(failure) => return Err(Halt::Failed(failure)),
    };
    let side = read_side(direction);
    if side.is_none() {
        return Ok(result_err_message(ty, "invalid-input", "expected read, write, or both"));
    }
    let kind = match session.files.get(id) {
        Some(value) => value,
        None => return Err(Halt::Failed(Failure::text(invalid_handle_message(id).as_str()))),
    };
    if !matches!(kind, FileHandle::TcpStream) {
        return Ok(result_err(ty, "invalid-handle"));
    }
    let request = HostRequest::ShutDown { id, side: side.unwrap() };
    let reply = match session.ask(run, request) {
        Ok(value) => value,
        Err(halt) => return Err(halt),
    };
    match read_answer(ErrorFamily::Network, ty, reply, Shape::Nothing) {
        Ok(value) => Ok(value),
        Err(failure) => Err(Halt::Failed(failure)),
    }
}

pub open spec fn net_udp_bind(ty: TypeView, args: Seq<ValueView>, run: RunView, session: SessionView) -> Outcome {
    match crate::execute::lists::given(args, 0, crate::execute::values::as_text(args[0])) {
        Err(failure) => Err(HaltView::Failed(failure)),
        Ok(target) => {
            match crate::execute::lists::given(args, 1, crate::execute::values::as_policy(args[1])) {
                Err(failure) => Err(HaltView::Failed(failure)),
                Ok(policy) => {
                    if crate::execute::policy::scope_check(policy, CapabilityDomain::NetListen, target) is Err {
                        Ok((crate::execute::values::err_value(ty, "permission-denied"@), session))
                    } else {
                        if session.files.is_full() {
                            Ok(
                                (
                                    crate::execute::values::err_message(
                                        ty,
                                        "resource-limit"@,
                                        "host resource limit reached"@,
                                    ),
                                    session,
                                ),
                            )
                        } else {
                            match crate::execute::session::asked(session, run, RequestView::UdpBind { target, id: session.files.next }) {
                                Err(halt) => Err(halt),
                                Ok((reply, session)) => {
                                    crate::execute::session::opened(
                                        ErrorFamily::Network,
                                        ty,
                                        reply,
                                        FileHandle::UdpSocket,
                                        HandleAccess::ReadWrite,
                                        session,
                                    )
                                },
                            }
                        }
                    }
                },
            }
        },
    }
}

fn run_net_udp_bind(
    ty: &TypeRef,
    args: &Vec<RuntimeValue>,
    run: &Run,
    session: &mut Session,
) -> (result: Result<RuntimeValue, Halt>)
    requires
        old(session).well_formed(),
    ensures
        final(session).well_formed(),
        crate::execute::session::stepped(result, *final(session)) == net_udp_bind(
            view::type_ref(*ty),
            view::values(args@),
            run@,
            old(session)@,
        ),
{
    assert(view::values(args@).len() == args@.len());
    if args.len() == 0 {
        return Err(Halt::Failed(missing_argument()));
    }
    let target = match value_str(&args[0]) {
        Ok(value) => value,
        Err(failure) => return Err(Halt::Failed(failure)),
    };
    if args.len() <= 1 {
        return Err(Halt::Failed(missing_argument()));
    }
    let policy = match value_policy(&args[1]) {
        Ok(value) => value,
        Err(failure) => return Err(Halt::Failed(failure)),
    };
    if ensure_policy_scope(policy, CapabilityDomain::NetListen, target).is_err() {
        return Ok(result_err(ty, "permission-denied"));
    }
    if session.files.at_capacity() {
        return Ok(result_err_message(ty, "resource-limit", "host resource limit reached"));
    }
    let request = HostRequest::UdpBind { target: owned(target), id: session.files.next_id() };
    let reply = match session.ask(run, request) {
        Ok(value) => value,
        Err(halt) => return Err(halt),
    };
    open_answer(ErrorFamily::Network, ty, reply, FileHandle::UdpSocket, HandleAccess::ReadWrite, session)
}

pub open spec fn net_udp_connect(ty: TypeView, args: Seq<ValueView>, run: RunView, session: SessionView) -> Outcome {
    match crate::execute::lists::given(args, 0, crate::execute::values::as_handle(args[0])) {
        Err(failure) => Err(HaltView::Failed(failure)),
        Ok(id) => {
            match crate::execute::lists::given(args, 1, crate::execute::values::as_text(args[1])) {
                Err(failure) => Err(HaltView::Failed(failure)),
                Ok(target) => {
                    match crate::execute::lists::given(args, 2, crate::execute::values::as_policy(args[2])) {
                        Err(failure) => Err(HaltView::Failed(failure)),
                        Ok(policy) => {
                            if crate::execute::policy::scope_check(policy, CapabilityDomain::NetConnect, target) is Err {
                                Ok((crate::execute::values::err_value(ty, "permission-denied"@), session))
                            } else {
                                match session.files.get(id) {
                                    None => Err(
                                        HaltView::Failed(
                                            crate::execute::failure::text_failure(
                                                crate::execute::files::invalid_handle_text(id),
                                            ),
                                        ),
                                    ),
                                    Some(kind) => {
                                        if !(kind is UdpSocket) {
                                            Ok((crate::execute::values::err_value(ty, "invalid-handle"@), session))
                                        } else {
                                            match crate::execute::session::asked(session, run, RequestView::UdpConnect { id, target }) {
                                                Err(halt) => Err(halt),
                                                Ok((reply, session)) => {
                                                    match crate::execute::session::answer(ErrorFamily::Network, ty, reply, Shape::Nothing) {
                                                        Err(failure) => Err(HaltView::Failed(failure)),
                                                        Ok(value) => Ok((value, session)),
                                                    }
                                                },
                                            }
                                        }
                                    },
                                }
                            }
                        },
                    }
                },
            }
        },
    }
}

fn run_net_udp_connect(
    ty: &TypeRef,
    args: &Vec<RuntimeValue>,
    run: &Run,
    session: &mut Session,
) -> (result: Result<RuntimeValue, Halt>)
    requires
        old(session).well_formed(),
    ensures
        final(session).well_formed(),
        crate::execute::session::stepped(result, *final(session)) == net_udp_connect(
            view::type_ref(*ty),
            view::values(args@),
            run@,
            old(session)@,
        ),
{
    assert(view::values(args@).len() == args@.len());
    if args.len() == 0 {
        return Err(Halt::Failed(missing_argument()));
    }
    let id = match value_handle(&args[0]) {
        Ok(value) => value,
        Err(failure) => return Err(Halt::Failed(failure)),
    };
    if args.len() <= 1 {
        return Err(Halt::Failed(missing_argument()));
    }
    let target = match value_str(&args[1]) {
        Ok(value) => value,
        Err(failure) => return Err(Halt::Failed(failure)),
    };
    if args.len() <= 2 {
        return Err(Halt::Failed(missing_argument()));
    }
    let policy = match value_policy(&args[2]) {
        Ok(value) => value,
        Err(failure) => return Err(Halt::Failed(failure)),
    };
    if ensure_policy_scope(policy, CapabilityDomain::NetConnect, target).is_err() {
        return Ok(result_err(ty, "permission-denied"));
    }
    let kind = match session.files.get(id) {
        Some(value) => value,
        None => return Err(Halt::Failed(Failure::text(invalid_handle_message(id).as_str()))),
    };
    if !matches!(kind, FileHandle::UdpSocket) {
        return Ok(result_err(ty, "invalid-handle"));
    }
    let request = HostRequest::UdpConnect { id, target: owned(target) };
    let reply = match session.ask(run, request) {
        Ok(value) => value,
        Err(halt) => return Err(halt),
    };
    match read_answer(ErrorFamily::Network, ty, reply, Shape::Nothing) {
        Ok(value) => Ok(value),
        Err(failure) => Err(Halt::Failed(failure)),
    }
}

pub open spec fn net_udp_send_to(ty: TypeView, args: Seq<ValueView>, run: RunView, session: SessionView) -> Outcome {
    match crate::execute::lists::given(args, 0, crate::execute::values::as_handle(args[0])) {
        Err(failure) => Err(HaltView::Failed(failure)),
        Ok(id) => {
            match crate::execute::lists::given(args, 1, crate::execute::values::as_bytes(args[1])) {
                Err(failure) => Err(HaltView::Failed(failure)),
                Ok(bytes) => {
                    match crate::execute::lists::given(args, 2, crate::execute::values::as_text(args[2])) {
                        Err(failure) => Err(HaltView::Failed(failure)),
                        Ok(target) => {
                            match crate::execute::lists::given(args, 3, crate::execute::values::as_policy(args[3])) {
                                Err(failure) => Err(HaltView::Failed(failure)),
                                Ok(policy) => {
                                    if crate::execute::policy::scope_check(policy, CapabilityDomain::NetConnect, target) is Err {
                                        Ok((crate::execute::values::err_value(ty, "permission-denied"@), session))
                                    } else {
                                        match session.files.get(id) {
                                            None => Err(
                                                HaltView::Failed(
                                                    crate::execute::failure::text_failure(
                                                        crate::execute::files::invalid_handle_text(id),
                                                    ),
                                                ),
                                            ),
                                            Some(kind) => {
                                                if !(kind is UdpSocket) {
                                                    Ok(
                                                        (
                                                            crate::execute::values::err_value(ty, "invalid-handle"@),
                                                            session,
                                                        ),
                                                    )
                                                } else {
                                                    match crate::execute::session::asked(session, run, RequestView::UdpSend { id, bytes, target }) {
                                                        Err(halt) => Err(halt),
                                                        Ok((reply, session)) => {
                                                            match crate::execute::session::answer(ErrorFamily::Network, ty, reply, Shape::Count) {
                                                                Err(failure) => Err(HaltView::Failed(failure)),
                                                                Ok(value) => Ok((value, session)),
                                                            }
                                                        },
                                                    }
                                                }
                                            },
                                        }
                                    }
                                },
                            }
                        },
                    }
                },
            }
        },
    }
}

fn run_net_udp_send_to(
    ty: &TypeRef,
    args: &Vec<RuntimeValue>,
    run: &Run,
    session: &mut Session,
) -> (result: Result<RuntimeValue, Halt>)
    requires
        old(session).well_formed(),
    ensures
        final(session).well_formed(),
        crate::execute::session::stepped(result, *final(session)) == net_udp_send_to(
            view::type_ref(*ty),
            view::values(args@),
            run@,
            old(session)@,
        ),
{
    assert(view::values(args@).len() == args@.len());
    if args.len() == 0 {
        return Err(Halt::Failed(missing_argument()));
    }
    let id = match value_handle(&args[0]) {
        Ok(value) => value,
        Err(failure) => return Err(Halt::Failed(failure)),
    };
    if args.len() <= 1 {
        return Err(Halt::Failed(missing_argument()));
    }
    let bytes = match value_bytes(&args[1]) {
        Ok(value) => value,
        Err(failure) => return Err(Halt::Failed(failure)),
    };
    if args.len() <= 2 {
        return Err(Halt::Failed(missing_argument()));
    }
    let target = match value_str(&args[2]) {
        Ok(value) => value,
        Err(failure) => return Err(Halt::Failed(failure)),
    };
    if args.len() <= 3 {
        return Err(Halt::Failed(missing_argument()));
    }
    let policy = match value_policy(&args[3]) {
        Ok(value) => value,
        Err(failure) => return Err(Halt::Failed(failure)),
    };
    if ensure_policy_scope(policy, CapabilityDomain::NetConnect, target).is_err() {
        return Ok(result_err(ty, "permission-denied"));
    }
    let kind = match session.files.get(id) {
        Some(value) => value,
        None => return Err(Halt::Failed(Failure::text(invalid_handle_message(id).as_str()))),
    };
    if !matches!(kind, FileHandle::UdpSocket) {
        return Ok(result_err(ty, "invalid-handle"));
    }
    let request = HostRequest::UdpSend { id, bytes, target: owned(target) };
    let reply = match session.ask(run, request) {
        Ok(value) => value,
        Err(halt) => return Err(halt),
    };
    match read_answer(ErrorFamily::Network, ty, reply, Shape::Count) {
        Ok(value) => Ok(value),
        Err(failure) => Err(Halt::Failed(failure)),
    }
}

pub open spec fn net_udp_recv_from(ty: TypeView, args: Seq<ValueView>, run: RunView, session: SessionView) -> Outcome {
    match crate::execute::lists::given(args, 0, crate::execute::values::as_handle(args[0])) {
        Err(failure) => Err(HaltView::Failed(failure)),
        Ok(id) => {
            match crate::execute::lists::given(args, 1, crate::execute::values::as_int(args[1])) {
                Err(failure) => Err(HaltView::Failed(failure)),
                Ok(wanted) => {
                    let refusal = crate::execute::session::length_error(wanted, run.config.max_alloc_len);
                    if refusal is Some {
                        Ok((crate::execute::values::err_message(ty, refusal->Some_0.0, refusal->Some_0.1), session))
                    } else {
                        match session.files.get(id) {
                            None => Err(
                                HaltView::Failed(
                                    crate::execute::failure::text_failure(
                                        crate::execute::files::invalid_handle_text(id),
                                    ),
                                ),
                            ),
                            Some(kind) => {
                                if !(kind is UdpSocket) {
                                    Ok((crate::execute::values::err_value(ty, "invalid-handle"@), session))
                                } else {
                                    match crate::execute::session::asked(session, run, RequestView::UdpReceive { id, limit: wanted as u64 }) {
                                        Err(halt) => Err(halt),
                                        Ok((reply, session)) => {
                                            match crate::execute::session::answer(ErrorFamily::Network, ty, reply, Shape::Datagram) {
                                                Err(failure) => Err(HaltView::Failed(failure)),
                                                Ok(value) => Ok((value, session)),
                                            }
                                        },
                                    }
                                }
                            },
                        }
                    }
                },
            }
        },
    }
}

fn run_net_udp_recv_from(
    ty: &TypeRef,
    args: &Vec<RuntimeValue>,
    run: &Run,
    session: &mut Session,
) -> (result: Result<RuntimeValue, Halt>)
    requires
        old(session).well_formed(),
    ensures
        final(session).well_formed(),
        crate::execute::session::stepped(result, *final(session)) == net_udp_recv_from(
            view::type_ref(*ty),
            view::values(args@),
            run@,
            old(session)@,
        ),
{
    assert(view::values(args@).len() == args@.len());
    if args.len() == 0 {
        return Err(Halt::Failed(missing_argument()));
    }
    let id = match value_handle(&args[0]) {
        Ok(value) => value,
        Err(failure) => return Err(Halt::Failed(failure)),
    };
    if args.len() <= 1 {
        return Err(Halt::Failed(missing_argument()));
    }
    let wanted = match value_i64(&args[1]) {
        Ok(value) => value,
        Err(failure) => return Err(Halt::Failed(failure)),
    };
    let checked = match checked_alloc_len(wanted, run.config) {
        Ok(length) => length,
        Err((tag, message)) => return Ok(result_err_message(ty, tag, message.as_str())),
    };
    let kind = match session.files.get(id) {
        Some(value) => value,
        None => return Err(Halt::Failed(Failure::text(invalid_handle_message(id).as_str()))),
    };
    if !matches!(kind, FileHandle::UdpSocket) {
        return Ok(result_err(ty, "invalid-handle"));
    }
    let request = HostRequest::UdpReceive { id, limit: checked as u64 };
    let reply = match session.ask(run, request) {
        Ok(value) => value,
        Err(halt) => return Err(halt),
    };
    match read_answer(ErrorFamily::Network, ty, reply, Shape::Datagram) {
        Ok(value) => Ok(value),
        Err(failure) => Err(Halt::Failed(failure)),
    }
}

/// What a network operation does; nothing for any other name.
pub open spec fn network(name: Seq<char>, ty: TypeView, args: Seq<ValueView>, run: RunView, session: SessionView) -> Option<Outcome> {
    if name == "net_address_parse"@ {
        Some(net_address_parse(ty, args, run, session))
    } else if name == "net_resolve"@ {
        Some(net_resolve(ty, args, run, session))
    } else if name == "net_connect"@ {
        Some(net_connect(ty, args, run, session))
    } else if name == "net_listen"@ {
        Some(net_listen(ty, args, run, session))
    } else if name == "net_accept"@ {
        Some(net_accept(ty, args, run, session))
    } else if name == "net_local_address"@ {
        Some(net_local_address(ty, args, run, session))
    } else if name == "net_set_deadline"@ {
        Some(net_set_deadline(ty, args, run, session))
    } else if name == "net_shutdown"@ {
        Some(net_shutdown(ty, args, run, session))
    } else if name == "net_udp_bind"@ {
        Some(net_udp_bind(ty, args, run, session))
    } else if name == "net_udp_connect"@ {
        Some(net_udp_connect(ty, args, run, session))
    } else if name == "net_udp_send_to"@ {
        Some(net_udp_send_to(ty, args, run, session))
    } else if name == "net_udp_recv_from"@ {
        Some(net_udp_recv_from(ty, args, run, session))
    } else {
        None
    }
}

pub(crate) fn run_network(
    name: &str,
    ty: &TypeRef,
    args: &Vec<RuntimeValue>,
    run: &Run,
    session: &mut Session,
) -> (result: Option<Result<RuntimeValue, Halt>>)
    requires
        old(session).well_formed(),
    ensures
        final(session).well_formed(),
        match result {
            Some(result) => network(
                name@,
                view::type_ref(*ty),
                view::values(args@),
                run@,
                old(session)@,
            ) == Some(crate::execute::session::stepped(result, *final(session))),
            None => network(
                name@,
                view::type_ref(*ty),
                view::values(args@),
                run@,
                old(session)@,
            ) is None && final(session)@ == old(session)@,
        },
{
    assert(view::values(args@).len() == args@.len());
    if same_text(name, "net_address_parse") {
        Some(run_net_address_parse(ty, args, run, session))
    } else if same_text(name, "net_resolve") {
        Some(run_net_resolve(ty, args, run, session))
    } else if same_text(name, "net_connect") {
        Some(run_net_connect(ty, args, run, session))
    } else if same_text(name, "net_listen") {
        Some(run_net_listen(ty, args, run, session))
    } else if same_text(name, "net_accept") {
        Some(run_net_accept(ty, args, run, session))
    } else if same_text(name, "net_local_address") {
        Some(run_net_local_address(ty, args, run, session))
    } else if same_text(name, "net_set_deadline") {
        Some(run_net_set_deadline(ty, args, run, session))
    } else if same_text(name, "net_shutdown") {
        Some(run_net_shutdown(ty, args, run, session))
    } else if same_text(name, "net_udp_bind") {
        Some(run_net_udp_bind(ty, args, run, session))
    } else if same_text(name, "net_udp_connect") {
        Some(run_net_udp_connect(ty, args, run, session))
    } else if same_text(name, "net_udp_send_to") {
        Some(run_net_udp_send_to(ty, args, run, session))
    } else if same_text(name, "net_udp_recv_from") {
        Some(run_net_udp_recv_from(ty, args, run, session))
    } else {
        None
    }
}

} // verus!
