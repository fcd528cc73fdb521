//! Files and directories.
use vstd::prelude::*;
use crate::execute::failure::Failure;
use crate::execute::host_view::{self, RequestView};
use crate::lowered::ir::{RuntimeValue, TypeRef};
use crate::lowered::view::{self, TypeView, ValueView};
use crate::execute::authority::resolve_policy_path;
use crate::execute::files::FileHandle;
use crate::execute::host::{HostReply, HostRequest, OpenOptions};
use crate::execute::host_view::{DirEntryView, ReplyView};
use crate::execute::failure::PartView;
use crate::execute::lists::{missing_argument, wide_count};
use crate::execute::path_text::join_path;
use crate::execute::session::{
    io_error, open_answer, read_answer, record_four, unexpected_reply, ErrorFamily, Halt, HaltView, Outcome, Run,
    RunView, Session, SessionView, Shape,
};
use crate::execute::values::{result_err, result_ok, value_bool, value_policy, value_str};
use crate::lowered::ir::{CapabilityDomain, HandleAccess};
use crate::text::{owned, same_text};

verus! {

/// A plain yes or no.
pub open spec fn flag_answer(reply: ReplyView) -> Result<ValueView, Seq<PartView>> {
    match reply {
        ReplyView::Flag(flag) => Ok(ValueView::Bool(flag)),
        _ => Err(crate::execute::session::unexpected()),
    }
}

fn read_flag(reply: &HostReply) -> (result: Result<RuntimeValue, Failure>)
    ensures
        crate::execute::lists::outcome(result) == flag_answer(host_view::reply(*reply)),
{
    match reply {
        HostReply::Flag(flag) => Ok(RuntimeValue::Bool(*flag)),
        _ => Err(unexpected_reply()),
    }
}

/// One directory entry under the path that the program named.
pub open spec fn entry_value(path: Seq<char>, entry: DirEntryView) -> ValueView {
    ValueView::Record(
        seq![
            crate::execute::values::field("is-dir"@, ValueView::Bool(entry.is_dir)),
            crate::execute::values::field("name"@, ValueView::Str(entry.name)),
            crate::execute::values::field(
                "path"@,
                ValueView::Str(crate::execute::path_text::joined_path(path, entry.name)),
            ),
            crate::execute::values::field("size"@, crate::execute::lists::count_value(entry.size as nat)),
        ],
    )
}

/// The answer to a request for a directory's entries.
pub open spec fn entries_answer(ty: TypeView, path: Seq<char>, reply: ReplyView) -> Result<ValueView, Seq<PartView>> {
    match reply {
        ReplyView::Failed(failure) => Ok(crate::execute::session::error_value(ErrorFamily::Files, ty, failure)),
        ReplyView::Entries(entries) => Ok(
            crate::execute::values::ok_value(
                ty,
                ValueView::Array(Seq::new(entries.len(), |i: int| entry_value(path, entries[i]))),
            ),
        ),
        _ => Err(crate::execute::session::unexpected()),
    }
}

fn read_entries(ty: &TypeRef, path: &str, reply: &HostReply) -> (result: Result<RuntimeValue, Failure>)
    ensures
        crate::execute::lists::outcome(result) == entries_answer(
            view::type_ref(*ty),
            path@,
            host_view::reply(*reply),
        ),
{
    let entries = match reply {
        HostReply::Failed(failure) => return Ok(io_error(ErrorFamily::Files, ty, failure)),
        HostReply::Entries(entries) => entries,
        _ => return Err(unexpected_reply()),
    };
    let ghost all = host_view::dir_entries(entries@);
    let mut done: Vec<RuntimeValue> = Vec::new();
    let mut i: usize = 0;
    while i < entries.len()
        invariant
            i <= entries.len(),
            all == host_view::dir_entries(entries@),
            done.len() == i,
            forall|k: int| 0 <= k < i ==> view::values(done@)[k] == entry_value(path@, all[k]),
        decreases entries.len() - i,
    {
        let ghost before = done@;
        let entry = &entries[i];
        let value = record_four(
            ("is-dir", "name", "path", "size"),
            RuntimeValue::Bool(entry.is_dir),
            RuntimeValue::Str(entry.name.clone()),
            RuntimeValue::Str(join_path(path, entry.name.as_str())),
            wide_count(entry.size),
        );
        done.push(value);
        proof {
            view::lemma_values_push(before, done@.last());
        }
        i += 1;
    }
    assert(view::values(done@) =~= Seq::new(all.len(), |i: int| entry_value(path@, all[i])));
    Ok(result_ok(ty, RuntimeValue::Array(done)))
}

pub open spec fn fs_open_read(ty: TypeView, args: Seq<ValueView>, run: RunView, session: SessionView) -> Outcome {
    match crate::execute::lists::given(args, 0, crate::execute::values::as_text(args[0])) {
        Err(failure) => Err(HaltView::Failed(failure)),
        Ok(path) => {
            match crate::execute::lists::given(args, 1, crate::execute::values::as_policy(args[1])) {
                Err(failure) => Err(HaltView::Failed(failure)),
                Ok(policy) => {
                    match crate::execute::authority::resolved(path, policy, CapabilityDomain::FsRead, run, session) {
                        Err(halt) => Err(halt),
                        Ok((found, session)) => match found {
                            Err(_) => Ok((crate::execute::values::err_value(ty, "permission-denied"@), session)),
                            Ok(place) => {
                                if session.files.is_full() {
                                    Ok((crate::execute::values::err_value(ty, "too-many-open-files"@), session))
                                } else {
                                    match crate::execute::session::asked(session, run, RequestView::OpenFile { path: place, options: OpenOptions { read: true, write: false, append: false, truncate: false, create: false, create_new: false }, id: session.files.next }) {
                                        Err(halt) => Err(halt),
                                        Ok((reply, session)) => {
                                            crate::execute::session::opened(
                                                ErrorFamily::Files,
                                                ty,
                                                reply,
                                                FileHandle::File,
                                                HandleAccess::Read,
                                                session,
                                            )
                                        },
                                    }
                                }
                            },
                        },
                    }
                },
            }
        },
    }
}

fn run_fs_open_read(
    ty: &TypeRef,
    args: &Vec<RuntimeValue>,
    run: &Run,
    session: &mut Session,
) -> (result: Result<RuntimeValue, Halt>)
    requires
        old(session).well_formed(),
    ensures
        final(session).well_formed(),
        crate::execute::session::stepped(result, *final(session)) == fs_open_read(
            view::type_ref(*ty),
            view::values(args@),
            run@,
            old(session)@,
        ),
{
    assert(view::values(args@).len() == args@.len());
    if args.len() == 0 {
        return Err(Halt::Failed(missing_argument()));
    }
    let path = match value_str(&args[0]) {
        Ok(value) => value,
        Err(failure) => return Err(Halt::Failed(failure)),
    };
    if args.len() <= 1 {
        return Err(Halt::Failed(missing_argument()));
    }
    let policy = match value_policy(&args[1]) {
        Ok(value) => value,
        Err(failure) => return Err(Halt::Failed(failure)),
    };
    let place = match resolve_policy_path(path, policy, CapabilityDomain::FsRead, run, session) {
        Ok(Ok(path)) => path,
        Ok(Err(_)) => return Ok(result_err(ty, "permission-denied")),
        Err(halt) => return Err(halt),
    };
    if session.files.at_capacity() {
        return Ok(result_err(ty, "too-many-open-files"));
    }
    let request = HostRequest::OpenFile { path: place, options: OpenOptions { read: true, write: false, append: false, truncate: false, create: false, create_new: false }, id: session.files.next_id() };
    let reply = match session.ask(run, request) {
        Ok(value) => value,
        Err(halt) => return Err(halt),
    };
    open_answer(ErrorFamily::Files, ty, reply, FileHandle::File, HandleAccess::Read, session)
}

pub open spec fn fs_open_write(ty: TypeView, args: Seq<ValueView>, run: RunView, session: SessionView) -> Outcome {
    match crate::execute::lists::given(args, 0, crate::execute::values::as_text(args[0])) {
        Err(failure) => Err(HaltView::Failed(failure)),
        Ok(path) => {
            match crate::execute::lists::given(args, 1, crate::execute::values::as_policy(args[1])) {
                Err(failure) => Err(HaltView::Failed(failure)),
                Ok(policy) => {
                    match crate::execute::authority::resolved(path, policy, CapabilityDomain::FsWrite, run, session) {
                        Err(halt) => Err(halt),
                        Ok((found, session)) => match found {
                            Err(_) => Ok((crate::execute::values::err_value(ty, "permission-denied"@), session)),
                            Ok(place) => {
                                if session.files.is_full() {
                                    Ok((crate::execute::values::err_value(ty, "too-many-open-files"@), session))
                                } else {
                                    match crate::execute::session::asked(session, run, RequestView::OpenFile { path: place, options: OpenOptions { read: false, write: true, append: false, truncate: true, create: true, create_new: false }, id: session.files.next }) {
                                        Err(halt) => Err(halt),
                                        Ok((reply, session)) => {
                                            crate::execute::session::opened(
                                                ErrorFamily::Files,
                                                ty,
                                                reply,
                                                FileHandle::File,
                                                HandleAccess::Write,
                                                session,
                                            )
                                        },
                                    }
                                }
                            },
                        },
                    }
                },
            }
        },
    }
}

fn run_fs_open_write(
    ty: &TypeRef,
    args: &Vec<RuntimeValue>,
    run: &Run,
    session: &mut Session,
) -> (result: Result<RuntimeValue, Halt>)
    requires
        old(session).well_formed(),
    ensures
        final(session).well_formed(),
        crate::execute::session::stepped(result, *final(session)) == fs_open_write(
            view::type_ref(*ty),
            view::values(args@),
            run@,
            old(session)@,
        ),
{
    assert(view::values(args@).len() == args@.len());
    if args.len() == 0 {
        return Err(Halt::Failed(missing_argument()));
    }
    let path = match value_str(&args[0]) {
        Ok(value) => value,
        Err(failure) => return Err(Halt::Failed(failure)),
    };
    if args.len() <= 1 {
        return Err(Halt::Failed(missing_argument()));
    }
    let policy = match value_policy(&args[1]) {
        Ok(value) => value,
        Err(failure) => return Err(Halt::Failed(failure)),
    };
    let place = match resolve_policy_path(path, policy, CapabilityDomain::FsWrite, run, session) {
        Ok(Ok(path)) => path,
        Ok(Err(_)) => return Ok(result_err(ty, "permission-denied")),
        Err(halt) => return Err(halt),
    };
    if session.files.at_capacity() {
        return Ok(result_err(ty, "too-many-open-files"));
    }
    let request = HostRequest::OpenFile { path: place, options: OpenOptions { read: false, write: true, append: false, truncate: true, create: true, create_new: false }, id: session.files.next_id() };
    let reply = match session.ask(run, request) {
        Ok(value) => value,
        Err(halt) => return Err(halt),
    };
    open_answer(ErrorFamily::Files, ty, reply, FileHandle::File, HandleAccess::Write, session)
}

pub open spec fn fs_open_write_options(ty: TypeView, args: Seq<ValueView>, run: RunView, session: SessionView) -> Outcome {
    match crate::execute::lists::given(args, 0, crate::execute::values::as_text(args[0])) {
        Err(failure) => Err(HaltView::Failed(failure)),
        Ok(path) => {
            match crate::execute::lists::given(args, 4, crate::execute::values::as_policy(args[4])) {
                Err(failure) => Err(HaltView::Failed(failure)),
                Ok(policy) => {
                    match crate::execute::authority::resolved(path, policy, CapabilityDomain::FsWrite, run, session) {
                        Err(halt) => Err(halt),
                        Ok((found, session)) => match found {
                            Err(_) => Ok((crate::execute::values::err_value(ty, "permission-denied"@), session)),
                            Ok(place) => {
                                if session.files.is_full() {
                                    Ok((crate::execute::values::err_value(ty, "too-many-open-files"@), session))
                                } else {
                                    match crate::execute::lists::given(
                                        args,
                                        1,
                                        crate::execute::values::as_bool(args[1]),
                                    ) {
                                        Err(failure) => Err(HaltView::Failed(failure)),
                                        Ok(create) => {
                                            match crate::execute::lists::given(
                                                args,
                                                2,
                                                crate::execute::values::as_bool(args[2]),
                                            ) {
                                                Err(failure) => Err(HaltView::Failed(failure)),
                                                Ok(create_new) => {
                                                    match crate::execute::lists::given(
                                                        args,
                                                        3,
                                                        crate::execute::values::as_bool(args[3]),
                                                    ) {
                                                        Err(failure) => Err(HaltView::Failed(failure)),
                                                        Ok(truncate) => {
                                                            match crate::execute::session::asked(session, run, RequestView::OpenFile { path: place, options: OpenOptions { read: false, write: true, append: false, truncate, create, create_new }, id: session.files.next }) {
                                                                Err(halt) => Err(halt),
                                                                Ok((reply, session)) => {
                                                                    crate::execute::session::opened(
                                                                        ErrorFamily::Files,
                                                                        ty,
                                                                        reply,
                                                                        FileHandle::File,
                                                                        HandleAccess::Write,
                                                                        session,
                                                                    )
                                                                },
                                                            }
                                                        },
                                                    }
                                                },
                                            }
                                        },
                                    }
                                }
                            },
                        },
                    }
                },
            }
        },
    }
}

fn run_fs_open_write_options(
    ty: &TypeRef,
    args: &Vec<RuntimeValue>,
    run: &Run,
    session: &mut Session,
) -> (result: Result<RuntimeValue, Halt>)
    requires
        old(session).well_formed(),
    ensures
        final(session).well_formed(),
        crate::execute::session::stepped(result, *final(session)) == fs_open_write_options(
            view::type_ref(*ty),
            view::values(args@),
            run@,
            old(session)@,
        ),
{
    assert(view::values(args@).len() == args@.len());
    if args.len() == 0 {
        return Err(Halt::Failed(missing_argument()));
    }
    let path = match value_str(&args[0]) {
        Ok(value) => value,
        Err(failure) => return Err(Halt::Failed(failure)),
    };
    if args.len() <= 4 {
        return Err(Halt::Failed(missing_argument()));
    }
    let policy = match value_policy(&args[4]) {
        Ok(value) => value,
        Err(failure) => return Err(Halt::Failed(failure)),
    };
    let place = match resolve_policy_path(path, policy, CapabilityDomain::FsWrite, run, session) {
        Ok(Ok(path)) => path,
        Ok(Err(_)) => return Ok(result_err(ty, "permission-denied")),
        Err(halt) => return Err(halt),
    };
    if session.files.at_capacity() {
        return Ok(result_err(ty, "too-many-open-files"));
    }
    let create = match value_bool(&args[1]) {
        Ok(value) => value,
        Err(failure) => return Err(Halt::Failed(failure)),
    };
    let create_new = match value_bool(&args[2]) {
        Ok(value) => value,
        Err(failure) => return Err(Halt::Failed(failure)),
    };
    let truncate = match value_bool(&args[3]) {
        Ok(value) => value,
        Err(failure) => return Err(Halt::Failed(failure)),
    };
    let request = HostRequest::OpenFile { path: place, options: OpenOptions { read: false, write: true, append: false, truncate, create, create_new }, id: session.files.next_id() };
    let reply = match session.ask(run, request) {
        Ok(value) => value,
        Err(halt) => return Err(halt),
    };
    open_answer(ErrorFamily::Files, ty, reply, FileHandle::File, HandleAccess::Write, session)
}

pub open spec fn fs_open_append(ty: TypeView, args: Seq<ValueView>, run: RunView, session: SessionView) -> Outcome {
    match crate::execute::lists::given(args, 0, crate::execute::values::as_text(args[0])) {
        Err(failure) => Err(HaltView::Failed(failure)),
        Ok(path) => {
            match crate::execute::lists::given(args, 1, crate::execute::values::as_policy(args[1])) {
                Err(failure) => Err(HaltView::Failed(failure)),
                Ok(policy) => {
                    match crate::execute::authority::resolved(path, policy, CapabilityDomain::FsWrite, run, session) {
                        Err(halt) => Err(halt),
                        Ok((found, session)) => match found {
                            Err(_) => Ok((crate::execute::values::err_value(ty, "permission-denied"@), session)),
                            Ok(place) => {
                                if session.files.is_full() {
                                    Ok((crate::execute::values::err_value(ty, "too-many-open-files"@), session))
                                } else {
                                    match crate::execute::session::asked(session, run, RequestView::OpenFile { path: place, options: OpenOptions { read: false, write: false, append: true, truncate: false, create: true, create_new: false }, id: session.files.next }) {
                                        Err(halt) => Err(halt),
                                        Ok((reply, session)) => {
                                            crate::execute::session::opened(
                                                ErrorFamily::Files,
                                                ty,
                                                reply,
                                                FileHandle::File,
                                                HandleAccess::Write,
                                                session,
                                            )
                                        },
                                    }
                                }
                            },
                        },
                    }
                },
            }
        },
    }
}

fn run_fs_open_append(
    ty: &TypeRef,
    args: &Vec<RuntimeValue>,
    run: &Run,
    session: &mut Session,
) -> (result: Result<RuntimeValue, Halt>)
    requires
        old(session).well_formed(),
    ensures
        final(session).well_formed(),
        crate::execute::session::stepped(result, *final(session)) == fs_open_append(
            view::type_ref(*ty),
            view::values(args@),
            run@,
            old(session)@,
        ),
{
    assert(view::values(args@).len() == args@.len());
    if args.len() == 0 {
        return Err(Halt::Failed(missing_argument()));
    }
    let path = match value_str(&args[0]) {
        Ok(value) => value,
        Err(failure) => return Err(Halt::Failed(failure)),
    };
    if args.len() <= 1 {
        return Err(Halt::Failed(missing_argument()));
    }
    let policy = match value_policy(&args[1]) {
        Ok(value) => value,
        Err(failure) => return Err(Halt::Failed(failure)),
    };
    let place = match resolve_policy_path(path, policy, CapabilityDomain::FsWrite, run, session) {
        Ok(Ok(path)) => path,
        Ok(Err(_)) => return Ok(result_err(ty, "permission-denied")),
        Err(halt) => return Err(halt),
    };
    if session.files.at_capacity() {
        return Ok(result_err(ty, "too-many-open-files"));
    }
    let request = HostRequest::OpenFile { path: place, options: OpenOptions { read: false, write: false, append: true, truncate: false, create: true, create_new: false }, id: session.files.next_id() };
    let reply = match session.ask(run, request) {
        Ok(value) => value,
        Err(halt) => return Err(halt),
    };
    open_answer(ErrorFamily::Files, ty, reply, FileHandle::File, HandleAccess::Write, session)
}

pub open spec fn fs_open_read_write(ty: TypeView, args: Seq<ValueView>, run: RunView, session: SessionView) -> Outcome {
    match crate::execute::lists::given(args, 0, crate::execute::values::as_text(args[0])) {
        Err(failure) => Err(HaltView::Failed(failure)),
        Ok(path) => {
            match crate::execute::lists::given(args, 1, crate::execute::values::as_policy(args[1])) {
                Err(failure) => Err(HaltView::Failed(failure)),
                Ok(reading) => {
                    match crate::execute::lists::given(args, 2, crate::execute::values::as_policy(args[2])) {
                        Err(failure) => Err(HaltView::Failed(failure)),
                        Ok(writing) => {
                            match crate::execute::authority::resolved(path, reading, CapabilityDomain::FsRead, run, session) {
                                Err(halt) => Err(halt),
                                Ok((found, session)) => match found {
                                    Err(_) => Ok(
                                        (crate::execute::values::err_value(ty, "permission-denied"@), session),
                                    ),
                                    Ok(first) => {
                                        match crate::execute::authority::resolved(path, writing, CapabilityDomain::FsWrite, run, session) {
                                            Err(halt) => Err(halt),
                                            Ok((found, session)) => match found {
                                                Err(_) => Ok(
                                                    (
                                                        crate::execute::values::err_value(ty, "permission-denied"@),
                                                        session,
                                                    ),
                                                ),
                                                Ok(place) => {
                                                    if session.files.is_full() {
                                                        Ok(
                                                            (
                                                                crate::execute::values::err_value(
                                                                    ty,
                                                                    "too-many-open-files"@,
                                                                ),
                                                                session,
                                                            ),
                                                        )
                                                    } else {
                                                        match crate::execute::session::asked(session, run, RequestView::OpenFile { path: place, options: OpenOptions { read: true, write: true, append: false, truncate: false, create: true, create_new: false }, id: session.files.next }) {
                                                            Err(halt) => Err(halt),
                                                            Ok((reply, session)) => {
                                                                crate::execute::session::opened(
                                                                    ErrorFamily::Files,
                                                                    ty,
                                                                    reply,
                                                                    FileHandle::File,
                                                                    HandleAccess::ReadWrite,
                                                                    session,
                                                                )
                                                            },
                                                        }
                                                    }
                                                },
                                            },
                                        }
                                    },
                                },
                            }
                        },
                    }
                },
            }
        },
    }
}

fn run_fs_open_read_write(
    ty: &TypeRef,
    args: &Vec<RuntimeValue>,
    run: &Run,
    session: &mut Session,
) -> (result: Result<RuntimeValue, Halt>)
    requires
        old(session).well_formed(),
    ensures
        final(session).well_formed(),
        crate::execute::session::stepped(result, *final(session)) == fs_open_read_write(
            view::type_ref(*ty),
            view::values(args@),
            run@,
            old(session)@,
        ),
{
    assert(view::values(args@).len() == args@.len());
    if args.len() == 0 {
        return Err(Halt::Failed(missing_argument()));
    }
    let path = match value_str(&args[0]) {
        Ok(value) => value,
        Err(failure) => return Err(Halt::Failed(failure)),
    };
    if args.len() <= 1 {
        return Err(Halt::Failed(missing_argument()));
    }
    let reading = match value_policy(&args[1]) {
        Ok(value) => value,
        Err(failure) => return Err(Halt::Failed(failure)),
    };
    if args.len() <= 2 {
        return Err(Halt::Failed(missing_argument()));
    }
    let writing = match value_policy(&args[2]) {
        Ok(value) => value,
        Err(failure) => return Err(Halt::Failed(failure)),
    };
    let first = match resolve_policy_path(path, reading, CapabilityDomain::FsRead, run, session) {
        Ok(Ok(path)) => path,
        Ok(Err(_)) => return Ok(result_err(ty, "permission-denied")),
        Err(halt) => return Err(halt),
    };
    let place = match resolve_policy_path(path, writing, CapabilityDomain::FsWrite, run, session) {
        Ok(Ok(path)) => path,
        Ok(Err(_)) => return Ok(result_err(ty, "permission-denied")),
        Err(halt) => return Err(halt),
    };
    if session.files.at_capacity() {
        return Ok(result_err(ty, "too-many-open-files"));
    }
    let request = HostRequest::OpenFile { path: place, options: OpenOptions { read: true, write: true, append: false, truncate: false, create: true, create_new: false }, id: session.files.next_id() };
    let reply = match session.ask(run, request) {
        Ok(value) => value,
        Err(halt) => return Err(halt),
    };
    open_answer(ErrorFamily::Files, ty, reply, FileHandle::File, HandleAccess::ReadWrite, session)
}

pub open spec fn fs_read_to_string(ty: TypeView, args: Seq<ValueView>, run: RunView, session: SessionView) -> Outcome {
    match crate::execute::lists::given(args, 0, crate::execute::values::as_text(args[0])) {
        Err(failure) => Err(HaltView::Failed(failure)),
        Ok(path) => {
            match crate::execute::lists::given(args, 1, crate::execute::values::as_policy(args[1])) {
                Err(failure) => Err(HaltView::Failed(failure)),
                Ok(policy) => {
                    match crate::execute::authority::resolved(path, policy, CapabilityDomain::FsRead, run, session) {
                        Err(halt) => Err(halt),
                        Ok((found, session)) => match found {
                            Err(_) => Ok((crate::execute::values::err_value(ty, "permission-denied"@), session)),
                            Ok(place) => {
                                match crate::execute::session::asked(session, run, RequestView::ReadFile { path: place }) {
                                    Err(halt) => Err(halt),
                                    Ok((reply, session)) => {
                                        match crate::execute::session::answer(ErrorFamily::Files, ty, reply, Shape::Text) {
                                            Err(failure) => Err(HaltView::Failed(failure)),
                                            Ok(value) => Ok((value, session)),
                                        }
                                    },
                                }
                            },
                        },
                    }
                },
            }
        },
    }
}

fn run_fs_read_to_string(
    ty: &TypeRef,
    args: &Vec<RuntimeValue>,
    run: &Run,
    session: &mut Session,
) -> (result: Result<RuntimeValue, Halt>)
    requires
        old(session).well_formed(),
    ensures
        final(session).well_formed(),
        crate::execute::session::stepped(result, *final(session)) == fs_read_to_string(
            view::type_ref(*ty),
            view::values(args@),
            run@,
            old(session)@,
        ),
{
    assert(view::values(args@).len() == args@.len());
    if args.len() == 0 {
        return Err(Halt::Failed(missing_argument()));
    }
    let path = match value_str(&args[0]) {
        Ok(value) => value,
        Err(failure) => return Err(Halt::Failed(failure)),
    };
    if args.len() <= 1 {
        return Err(Halt::Failed(missing_argument()));
    }
    let policy = match value_policy(&args[1]) {
        Ok(value) => value,
        Err(failure) => return Err(Halt::Failed(failure)),
    };
    let place = match resolve_policy_path(path, policy, CapabilityDomain::FsRead, run, session) {
        Ok(Ok(path)) => path,
        Ok(Err(_)) => return Ok(result_err(ty, "permission-denied")),
        Err(halt) => return Err(halt),
    };
    let request = HostRequest::ReadFile { path: place };
    let reply = match session.ask(run, request) {
        Ok(value) => value,
        Err(halt) => return Err(halt),
    };
    match read_answer(ErrorFamily::Files, ty, reply, Shape::Text) {
        Ok(value) => Ok(value),
        Err(failure) => Err(Halt::Failed(failure)),
    }
}

pub open spec fn fs_write_string_all(ty: TypeView, args: Seq<ValueView>, run: RunView, session: SessionView) -> Outcome {
    match crate::execute::lists::given(args, 0, crate::execute::values::as_text(args[0])) {
        Err(failure) => Err(HaltView::Failed(failure)),
        Ok(path) => {
            match crate::execute::lists::given(args, 1, crate::execute::values::as_text(args[1])) {
                Err(failure) => Err(HaltView::Failed(failure)),
                Ok(contents) => {
                    match crate::execute::lists::given(args, 2, crate::execute::values::as_policy(args[2])) {
                        Err(failure) => Err(HaltView::Failed(failure)),
                        Ok(policy) => {
                            match crate::execute::authority::resolved(path, policy, CapabilityDomain::FsWrite, run, session) {
                                Err(halt) => Err(halt),
                                Ok((found, session)) => match found {
                                    Err(_) => Ok(
                                        (crate::execute::values::err_value(ty, "permission-denied"@), session),
                                    ),
                                    Ok(place) => {
                                        match crate::execute::session::asked(session, run, RequestView::WriteFile { path: place, contents }) {
                                            Err(halt) => Err(halt),
                                            Ok((reply, session)) => {
                                                match crate::execute::session::answer(ErrorFamily::Files, ty, reply, Shape::Nothing) {
                                                    Err(failure) => Err(HaltView::Failed(failure)),
                                                    Ok(value) => Ok((value, session)),
                                                }
                                            },
                                        }
                                    },
                                },
                            }
                        },
                    }
                },
            }
        },
    }
}

fn run_fs_write_string_all(
    ty: &TypeRef,
    args: &Vec<RuntimeValue>,
    run: &Run,
    session: &mut Session,
) -> (result: Result<RuntimeValue, Halt>)
    requires
        old(session).well_formed(),
    ensures
        final(session).well_formed(),
        crate::execute::session::stepped(result, *final(session)) == fs_write_string_all(
            view::type_ref(*ty),
            view::values(args@),
            run@,
            old(session)@,
        ),
{
    assert(view::values(args@).len() == args@.len());
    if args.len() == 0 {
        return Err(Halt::Failed(missing_argument()));
    }
    let path = match value_str(&args[0]) {
        Ok(value) => value,
        Err(failure) => return Err(Halt::Failed(failure)),
    };
    if args.len() <= 1 {
        return Err(Halt::Failed(missing_argument()));
    }
    let contents = match value_str(&args[1]) {
        Ok(value) => value,
        Err(failure) => return Err(Halt::Failed(failure)),
    };
    if args.len() <= 2 {
        return Err(Halt::Failed(missing_argument()));
    }
    let policy = match value_policy(&args[2]) {
        Ok(value) => value,
        Err(failure) => return Err(Halt::Failed(failure)),
    };
    let place = match resolve_policy_path(path, policy, CapabilityDomain::FsWrite, run, session) {
        Ok(Ok(path)) => path,
        Ok(Err(_)) => return Ok(result_err(ty, "permission-denied")),
        Err(halt) => return Err(halt),
    };
    let request = HostRequest::WriteFile { path: place, contents: owned(contents) };
    let reply = match session.ask(run, request) {
        Ok(value) => value,
        Err(halt) => return Err(halt),
    };
    match read_answer(ErrorFamily::Files, ty, reply, Shape::Nothing) {
        Ok(value) => Ok(value),
        Err(failure) => Err(Halt::Failed(failure)),
    }
}

pub open spec fn fs_append_string(ty: TypeView, args: Seq<ValueView>, run: RunView, session: SessionView) -> Outcome {
    match crate::execute::lists::given(args, 0, crate::execute::values::as_text(args[0])) {
        Err(failure) => Err(HaltView::Failed(failure)),
        Ok(path) => {
            match crate::execute::lists::given(args, 1, crate::execute::values::as_text(args[1])) {
                Err(failure) => Err(HaltView::Failed(failure)),
                Ok(contents) => {
                    match crate::execute::lists::given(args, 2, crate::execute::values::as_policy(args[2])) {
                        Err(failure) => Err(HaltView::Failed(failure)),
                        Ok(policy) => {
                            match crate::execute::authority::resolved(path, policy, CapabilityDomain::FsWrite, run, session) {
                                Err(halt) => Err(halt),
                                Ok((found, session)) => match found {
                                    Err(_) => Ok(
                                        (crate::execute::values::err_value(ty, "permission-denied"@), session),
                                    ),
                                    Ok(place) => {
                                        match crate::execute::session::asked(session, run, RequestView::AppendFile { path: place, contents }) {
                                            Err(halt) => Err(halt),
                                            Ok((reply, session)) => {
                                                match crate::execute::session::answer(ErrorFamily::Files, ty, reply, Shape::Nothing) {
                                                    Err(failure) => Err(HaltView::Failed(failure)),
                                                    Ok(value) => Ok((value, session)),
                                                }
                                            },
                                        }
                                    },
                                },
                            }
                        },
                    }
                },
            }
        },
    }
}

fn run_fs_append_string(
    ty: &TypeRef,
    args: &Vec<RuntimeValue>,
    run: &Run,
    session: &mut Session,
) -> (result: Result<RuntimeValue, Halt>)
    requires
        old(session).well_formed(),
    ensures
        final(session).well_formed(),
        crate::execute::session::stepped(result, *final(session)) == fs_append_string(
            view::type_ref(*ty),
            view::values(args@),
            run@,
            old(session)@,
        ),
{
    assert(view::values(args@).len() == args@.len());
    if args.len() == 0 {
        return Err(Halt::Failed(missing_argument()));
    }
    let path = match value_str(&args[0]) {
        Ok(value) => value,
        Err(failure) => return Err(Halt::Failed(failure)),
    };
    if args.len() <= 1 {
        return Err(Halt::Failed(missing_argument()));
    }
    let contents = match value_str(&args[1]) {
        Ok(value) => value,
        Err(failure) => return Err(Halt::Failed(failure)),
    };
    if args.len() <= 2 {
        return Err(Halt::Failed(missing_argument()));
    }
    let policy = match value_policy(&args[2]) {
        Ok(value) => value,
        Err(failure) => return Err(Halt::Failed(failure)),
    };
    let place = match resolve_policy_path(path, policy, CapabilityDomain::FsWrite, run, session) {
        Ok(Ok(path)) => path,
        Ok(Err(_)) => return Ok(result_err(ty, "permission-denied")),
        Err(halt) => return Err(halt),
    };
    let request = HostRequest::AppendFile { path: place, contents: owned(contents) };
    let reply = match session.ask(run, request) {
        Ok(value) => value,
        Err(halt) => return Err(halt),
    };
    match read_answer(ErrorFamily::Files, ty, reply, Shape::Nothing) {
        Ok(value) => Ok(value),
        Err(failure) => Err(Halt::Failed(failure)),
    }
}

pub open spec fn fs_exists(args: Seq<ValueView>, run: RunView, session: SessionView) -> Outcome {
    match crate::execute::lists::given(args, 0, crate::execute::values::as_text(args[0])) {
        Err(failure) => Err(HaltView::Failed(failure)),
        Ok(path) => {
            match crate::execute::lists::given(args, 1, crate::execute::values::as_policy(args[1])) {
                Err(failure) => Err(HaltView::Failed(failure)),
                Ok(policy) => {
                    match crate::execute::authority::resolved(path, policy, CapabilityDomain::FsRead, run, session) {
                        Err(halt) => Err(halt),
                        Ok((found, session)) => match found {
                            Err(failure) => Err(HaltView::Failed(failure)),
                            Ok(place) => {
                                match crate::execute::session::asked(session, run, RequestView::PathExists { path: place }) {
                                    Err(halt) => Err(halt),
                                    Ok((reply, session)) => {
                                        match flag_answer(reply) {
                                            Err(failure) => Err(HaltView::Failed(failure)),
                                            Ok(value) => Ok((value, session)),
                                        }
                                    },
                                }
                            },
                        },
                    }
                },
            }
        },
    }
}

fn run_fs_exists(args: &Vec<RuntimeValue>, run: &Run, session: &mut Session) -> (result: Result<RuntimeValue, Halt>)
    requires
        old(session).well_formed(),
    ensures
        final(session).well_formed(),
        crate::execute::session::stepped(result, *final(session)) == fs_exists(
            view::values(args@),
            run@,
            old(session)@,
        ),
{
    assert(view::values(args@).len() == args@.len());
    if args.len() == 0 {
        return Err(Halt::Failed(missing_argument()));
    }
    let path = match value_str(&args[0]) {
        Ok(value) => value,
        Err(failure) => return Err(Halt::Failed(failure)),
    };
    if args.len() <= 1 {
        return Err(Halt::Failed(missing_argument()));
    }
    let policy = match value_policy(&args[1]) {
        Ok(value) => value,
        Err(failure) => return Err(Halt::Failed(failure)),
    };
    let place = match resolve_policy_path(path, policy, CapabilityDomain::FsRead, run, session) {
        Ok(Ok(path)) => path,
        Ok(Err(failure)) => return Err(Halt::Failed(failure)),
        Err(halt) => return Err(halt),
    };
    let request = HostRequest::PathExists { path: place };
    let reply = match session.ask(run, request) {
        Ok(value) => value,
        Err(halt) => return Err(halt),
    };
    match read_flag(reply) {
        Ok(value) => Ok(value),
        Err(failure) => Err(Halt::Failed(failure)),
    }
}

pub open spec fn fs_create_dir_all(ty: TypeView, args: Seq<ValueView>, run: RunView, session: SessionView) -> Outcome {
    match crate::execute::lists::given(args, 0, crate::execute::values::as_text(args[0])) {
        Err(failure) => Err(HaltView::Failed(failure)),
        Ok(path) => {
            match crate::execute::lists::given(args, 1, crate::execute::values::as_policy(args[1])) {
                Err(failure) => Err(HaltView::Failed(failure)),
                Ok(policy) => {
                    match crate::execute::authority::resolved(path, policy, CapabilityDomain::FsWrite, run, session) {
                        Err(halt) => Err(halt),
                        Ok((found, session)) => match found {
                            Err(_) => Ok((crate::execute::values::err_value(ty, "permission-denied"@), session)),
                            Ok(place) => {
                                match crate::execute::session::asked(session, run, RequestView::CreateDirs { path: place }) {
                                    Err(halt) => Err(halt),
                                    Ok((reply, session)) => {
                                        match crate::execute::session::answer(ErrorFamily::Files, ty, reply, Shape::Nothing) {
                                            Err(failure) => Err(HaltView::Failed(failure)),
                                            Ok(value) => Ok((value, session)),
                                        }
                                    },
                                }
                            },
                        },
                    }
                },
            }
        },
    }
}

fn run_fs_create_dir_all(
    ty: &TypeRef,
    args: &Vec<RuntimeValue>,
    run: &Run,
    session: &mut Session,
) -> (result: Result<RuntimeValue, Halt>)
    requires
        old(session).well_formed(),
    ensures
        final(session).well_formed(),
        crate::execute::session::stepped(result, *final(session)) == fs_create_dir_all(
            view::type_ref(*ty),
            view::values(args@),
            run@,
            old(session)@,
        ),
{
    assert(view::values(args@).len() == args@.len());
    if args.len() == 0 {
        return Err(Halt::Failed(missing_argument()));
    }
    let path = match value_str(&args[0]) {
        Ok(value) => value,
        Err(failure) => return Err(Halt::Failed(failure)),
    };
    if args.len() <= 1 {
        return Err(Halt::Failed(missing_argument()));
    }
    let policy = match value_policy(&args[1]) {
        Ok(value) => value,
        Err(failure) => return Err(Halt::Failed(failure)),
    };
    let place = match resolve_policy_path(path, policy, CapabilityDomain::FsWrite, run, session) {
        Ok(Ok(path)) => path,
        Ok(Err(_)) => return Ok(result_err(ty, "permission-denied")),
        Err(halt) => return Err(halt),
    };
    let request = HostRequest::CreateDirs { path: place };
    let reply = match session.ask(run, request) {
        Ok(value) => value,
        Err(halt) => return Err(halt),
    };
    match read_answer(ErrorFamily::Files, ty, reply, Shape::Nothing) {
        Ok(value) => Ok(value),
        Err(failure) => Err(Halt::Failed(failure)),
    }
}

pub open spec fn fs_remove_file(ty: TypeView, args: Seq<ValueView>, run: RunView, session: SessionView) -> Outcome {
    match crate::execute::lists::given(args, 0, crate::execute::values::as_text(args[0])) {
        Err(failure) => Err(HaltView::Failed(failure)),
        Ok(path) => {
            match crate::execute::lists::given(args, 1, crate::execute::values::as_policy(args[1])) {
                Err(failure) => Err(HaltView::Failed(failure)),
                Ok(policy) => {
                    match crate::execute::authority::resolved(path, policy, CapabilityDomain::FsWrite, run, session) {
                        Err(halt) => Err(halt),
                        Ok((found, session)) => match found {
                            Err(_) => Ok((crate::execute::values::err_value(ty, "permission-denied"@), session)),
                            Ok(place) => {
                                match crate::execute::session::asked(session, run, RequestView::RemoveFile { path: place }) {
                                    Err(halt) => Err(halt),
                                    Ok((reply, session)) => {
                                        match crate::execute::session::answer(ErrorFamily::Files, ty, reply, Shape::Nothing) {
                                            Err(failure) => Err(HaltView::Failed(failure)),
                                            Ok(value) => Ok((value, session)),
                                        }
                                    },
                                }
                            },
                        },
                    }
                },
            }
        },
    }
}

fn run_fs_remove_file(
    ty: &TypeRef,
    args: &Vec<RuntimeValue>,
    run: &Run,
    session: &mut Session,
) -> (result: Result<RuntimeValue, Halt>)
    requires
        old(session).well_formed(),
    ensures
        final(session).well_formed(),
        crate::execute::session::stepped(result, *final(session)) == fs_remove_file(
            view::type_ref(*ty),
            view::values(args@),
            run@,
            old(session)@,
        ),
{
    assert(view::values(args@).len() == args@.len());
    if args.len() == 0 {
        return Err(Halt::Failed(missing_argument()));
    }
    let path = match value_str(&args[0]) {
        Ok(value) => value,
        Err(failure) => return Err(Halt::Failed(failure)),
    };
    if args.len() <= 1 {
        return Err(Halt::Failed(missing_argument()));
    }
    let policy = match value_policy(&args[1]) {
        Ok(value) => value,
        Err(failure) => return Err(Halt::Failed(failure)),
    };
    let place = match resolve_policy_path(path, policy, CapabilityDomain::FsWrite, run, session) {
        Ok(Ok(path)) => path,
        Ok(Err(_)) => return Ok(result_err(ty, "permission-denied")),
        Err(halt) => return Err(halt),
    };
    let request = HostRequest::RemoveFile { path: place };
    let reply = match session.ask(run, request) {
        Ok(value) => value,
        Err(halt) => return Err(halt),
    };
    match read_answer(ErrorFamily::Files, ty, reply, Shape::Nothing) {
        Ok(value) => Ok(value),
        Err(failure) => Err(Halt::Failed(failure)),
    }
}

pub open spec fn fs_remove_dir(ty: TypeView, args: Seq<ValueView>, run: RunView, session: SessionView) -> Outcome {
    match crate::execute::lists::given(args, 0, crate::execute::values::as_text(args[0])) {
        Err(failure) => Err(HaltView::Failed(failure)),
        Ok(path) => {
            match crate::execute::lists::given(args, 1, crate::execute::values::as_policy(args[1])) {
                Err(failure) => Err(HaltView::Failed(failure)),
                Ok(policy) => {
                    match crate::execute::authority::resolved(path, policy, CapabilityDomain::FsWrite, run, session) {
                        Err(halt) => Err(halt),
                        Ok((found, session)) => match found {
                            Err(_) => Ok((crate::execute::values::err_value(ty, "permission-denied"@), session)),
                            Ok(place) => {
                                match crate::execute::session::asked(session, run, RequestView::RemoveDir { path: place }) {
                                    Err(halt) => Err(halt),
                                    Ok((reply, session)) => {
                                        match crate::execute::session::answer(ErrorFamily::Files, ty, reply, Shape::Nothing) {
                                            Err(failure) => Err(HaltView::Failed(failure)),
                                            Ok(value) => Ok((value, session)),
                                        }
                                    },
                                }
                            },
                        },
                    }
                },
            }
        },
    }
}

fn run_fs_remove_dir(
    ty: &TypeRef,
    args: &Vec<RuntimeValue>,
    run: &Run,
    session: &mut Session,
) -> (result: Result<RuntimeValue, Halt>)
    requires
        old(session).well_formed(),
    ensures
        final(session).well_formed(),
        crate::execute::session::stepped(result, *final(session)) == fs_remove_dir(
            view::type_ref(*ty),
            view::values(args@),
            run@,
            old(session)@,
        ),
{
    assert(view::values(args@).len() == args@.len());
    if args.len() == 0 {
        return Err(Halt::Failed(missing_argument()));
    }
    let path = match value_str(&args[0]) {
        Ok(value) => value,
        Err(failure) => return Err(Halt::Failed(failure)),
    };
    if args.len() <= 1 {
        return Err(Halt::Failed(missing_argument()));
    }
    let policy = match value_policy(&args[1]) {
        Ok(value) => value,
        Err(failure) => return Err(Halt::Failed(failure)),
    };
    let place = match resolve_policy_path(path, policy, CapabilityDomain::FsWrite, run, session) {
        Ok(Ok(path)) => path,
        Ok(Err(_)) => return Ok(result_err(ty, "permission-denied")),
        Err(halt) => return Err(halt),
    };
    let request = HostRequest::RemoveDir { path: place };
    let reply = match session.ask(run, request) {
        Ok(value) => value,
        Err(halt) => return Err(halt),
    };
    match read_answer(ErrorFamily::Files, ty, reply, Shape::Nothing) {
        Ok(value) => Ok(value),
        Err(failure) => Err(Halt::Failed(failure)),
    }
}

pub open spec fn fs_read_dir(ty: TypeView, args: Seq<ValueView>, run: RunView, session: SessionView) -> Outcome {
    match crate::execute::lists::given(args, 0, crate::execute::values::as_text(args[0])) {
        Err(failure) => Err(HaltView::Failed(failure)),
        Ok(path) => {
            match crate::execute::lists::given(args, 1, crate::execute::values::as_policy(args[1])) {
                Err(failure) => Err(HaltView::Failed(failure)),
                Ok(policy) => {
                    match crate::execute::authority::resolved(path, policy, CapabilityDomain::FsRead, run, session) {
                        Err(halt) => Err(halt),
                        Ok((found, session)) => match found {
                            Err(_) => Ok((crate::execute::values::err_value(ty, "permission-denied"@), session)),
                            Ok(place) => {
                                match crate::execute::session::asked(session, run, RequestView::ListNames { path: place }) {
                                    Err(halt) => Err(halt),
                                    Ok((reply, session)) => {
                                        match crate::execute::session::answer(ErrorFamily::Files, ty, reply, Shape::Texts) {
                                            Err(failure) => Err(HaltView::Failed(failure)),
                                            Ok(value) => Ok((value, session)),
                                        }
                                    },
                                }
                            },
                        },
                    }
                },
            }
        },
    }
}

fn run_fs_read_dir(
    ty: &TypeRef,
    args: &Vec<RuntimeValue>,
    run: &Run,
    session: &mut Session,
) -> (result: Result<RuntimeValue, Halt>)
    requires
        old(session).well_formed(),
    ensures
        final(session).well_formed(),
        crate::execute::session::stepped(result, *final(session)) == fs_read_dir(
            view::type_ref(*ty),
            view::values(args@),
            run@,
            old(session)@,
        ),
{
    assert(view::values(args@).len() == args@.len());
    if args.len() == 0 {
        return Err(Halt::Failed(missing_argument()));
    }
    let path = match value_str(&args[0]) {
        Ok(value) => value,
        Err(failure) => return Err(Halt::Failed(failure)),
    };
    if args.len() <= 1 {
        return Err(Halt::Failed(missing_argument()));
    }
    let policy = match value_policy(&args[1]) {
        Ok(value) => value,
        Err(failure) => return Err(Halt::Failed(failure)),
    };
    let place = match resolve_policy_path(path, policy, CapabilityDomain::FsRead, run, session) {
        Ok(Ok(path)) => path,
        Ok(Err(_)) => return Ok(result_err(ty, "permission-denied")),
        Err(halt) => return Err(halt),
    };
    let request = HostRequest::ListNames { path: place };
    let reply = match session.ask(run, request) {
        Ok(value) => value,
        Err(halt) => return Err(halt),
    };
    match read_answer(ErrorFamily::Files, ty, reply, Shape::Texts) {
        Ok(value) => Ok(value),
        Err(failure) => Err(Halt::Failed(failure)),
    }
}

pub open spec fn fs_read_dir_entries(ty: TypeView, args: Seq<ValueView>, run: RunView, session: SessionView) -> Outcome {
    match crate::execute::lists::given(args, 0, crate::execute::values::as_text(args[0])) {
        Err(failure) => Err(HaltView::Failed(failure)),
        Ok(path) => {
            match crate::execute::lists::given(args, 1, crate::execute::values::as_policy(args[1])) {
                Err(failure) => Err(HaltView::Failed(failure)),
                Ok(policy) => {
                    match crate::execute::authority::resolved(path, policy, CapabilityDomain::FsRead, run, session) {
                        Err(halt) => Err(halt),
                        Ok((found, session)) => match found {
                            Err(_) => Ok((crate::execute::values::err_value(ty, "permission-denied"@), session)),
                            Ok(place) => {
                                match crate::execute::session::asked(session, run, RequestView::ListEntries { path: place }) {
                                    Err(halt) => Err(halt),
                                    Ok((reply, session)) => {
                                        match entries_answer(ty, path, reply) {
                                            Err(failure) => Err(HaltView::Failed(failure)),
                                            Ok(value) => Ok((value, session)),
                                        }
                                    },
                                }
                            },
                        },
                    }
                },
            }
        },
    }
}

fn run_fs_read_dir_entries(
    ty: &TypeRef,
    args: &Vec<RuntimeValue>,
    run: &Run,
    session: &mut Session,
) -> (result: Result<RuntimeValue, Halt>)
    requires
        old(session).well_formed(),
    ensures
        final(session).well_formed(),
        crate::execute::session::stepped(result, *final(session)) == fs_read_dir_entries(
            view::type_ref(*ty),
            view::values(args@),
            run@,
            old(session)@,
        ),
{
    assert(view::values(args@).len() == args@.len());
    if args.len() == 0 {
        return Err(Halt::Failed(missing_argument()));
    }
    let path = match value_str(&args[0]) {
        Ok(value) => value,
        Err(failure) => return Err(Halt::Failed(failure)),
    };
    if args.len() <= 1 {
        return Err(Halt::Failed(missing_argument()));
    }
    let policy = match value_policy(&args[1]) {
        Ok(value) => value,
        Err(failure) => return Err(Halt::Failed(failure)),
    };
    let place = match resolve_policy_path(path, policy, CapabilityDomain::FsRead, run, session) {
        Ok(Ok(path)) => path,
        Ok(Err(_)) => return Ok(result_err(ty, "permission-denied")),
        Err(halt) => return Err(halt),
    };
    let request = HostRequest::ListEntries { path: place };
    let reply = match session.ask(run, request) {
        Ok(value) => value,
        Err(halt) => return Err(halt),
    };
    match read_entries(ty, path, reply) {
        Ok(value) => Ok(value),
        Err(failure) => Err(Halt::Failed(failure)),
    }
}

pub open spec fn fs_metadata(ty: TypeView, args: Seq<ValueView>, run: RunView, session: SessionView) -> Outcome {
    match crate::execute::lists::given(args, 0, crate::execute::values::as_text(args[0])) {
        Err(failure) => Err(HaltView::Failed(failure)),
        Ok(path) => {
            match crate::execute::lists::given(args, 1, crate::execute::values::as_policy(args[1])) {
                Err(failure) => Err(HaltView::Failed(failure)),
                Ok(policy) => {
                    match crate::execute::authority::resolved(path, policy, CapabilityDomain::FsRead, run, session) {
                        Err(halt) => Err(halt),
                        Ok((found, session)) => match found {
                            Err(_) => Ok((crate::execute::values::err_value(ty, "permission-denied"@), session)),
                            Ok(place) => {
                                match crate::execute::session::asked(session, run, RequestView::Metadata { path: place }) {
                                    Err(halt) => Err(halt),
                                    Ok((reply, session)) => {
                                        match crate::execute::session::answer(ErrorFamily::Files, ty, reply, Shape::Metadata) {
                                            Err(failure) => Err(HaltView::Failed(failure)),
                                            Ok(value) => Ok((value, session)),
                                        }
                                    },
                                }
                            },
                        },
                    }
                },
            }
        },
    }
}

fn run_fs_metadata(
    ty: &TypeRef,
    args: &Vec<RuntimeValue>,
    run: &Run,
    session: &mut Session,
) -> (result: Result<RuntimeValue, Halt>)
    requires
        old(session).well_formed(),
    ensures
        final(session).well_formed(),
        crate::execute::session::stepped(result, *final(session)) == fs_metadata(
            view::type_ref(*ty),
            view::values(args@),
            run@,
            old(session)@,
        ),
{
    assert(view::values(args@).len() == args@.len());
    if args.len() == 0 {
        return Err(Halt::Failed(missing_argument()));
    }
    let path = match value_str(&args[0]) {
        Ok(value) => value,
        Err(failure) => return Err(Halt::Failed(failure)),
    };
    if args.len() <= 1 {
        return Err(Halt::Failed(missing_argument()));
    }
    let policy = match value_policy(&args[1]) {
        Ok(value) => value,
        Err(failure) => return Err(Halt::Failed(failure)),
    };
    let place = match resolve_policy_path(path, policy, CapabilityDomain::FsRead, run, session) {
        Ok(Ok(path)) => path,
        Ok(Err(_)) => return Ok(result_err(ty, "permission-denied")),
        Err(halt) => return Err(halt),
    };
    let request = HostRequest::Metadata { path: place };
    let reply = match session.ask(run, request) {
        Ok(value) => value,
        Err(halt) => return Err(halt),
    };
    match read_answer(ErrorFamily::Files, ty, reply, Shape::Metadata) {
        Ok(value) => Ok(value),
        Err(failure) => Err(Halt::Failed(failure)),
    }
}

pub open spec fn fs_canonicalize(ty: TypeView, args: Seq<ValueView>, run: RunView, session: SessionView) -> Outcome {
    match crate::execute::lists::given(args, 0, crate::execute::values::as_text(args[0])) {
        Err(failure) => Err(HaltView::Failed(failure)),
        Ok(path) => {
            match crate::execute::lists::given(args, 1, crate::execute::values::as_policy(args[1])) {
                Err(failure) => Err(HaltView::Failed(failure)),
                Ok(policy) => {
                    match crate::execute::authority::resolved(path, policy, CapabilityDomain::FsRead, run, session) {
                        Err(halt) => Err(halt),
                        Ok((found, session)) => match found {
                            Err(_) => Ok((crate::execute::values::err_value(ty, "permission-denied"@), session)),
                            Ok(place) => {
                                match crate::execute::session::asked(session, run, RequestView::Canonicalize { path: place }) {
                                    Err(halt) => Err(halt),
                                    Ok((reply, session)) => {
                                        match crate::execute::session::answer(ErrorFamily::Files, ty, reply, Shape::Text) {
                                            Err(failure) => Err(HaltView::Failed(failure)),
                                            Ok(value) => Ok((value, session)),
                                        }
                                    },
                                }
                            },
                        },
                    }
                },
            }
        },
    }
}

fn run_fs_canonicalize(
    ty: &TypeRef,
    args: &Vec<RuntimeValue>,
    run: &Run,
    session: &mut Session,
) -> (result: Result<RuntimeValue, Halt>)
    requires
        old(session).well_formed(),
    ensures
        final(session).well_formed(),
        crate::execute::session::stepped(result, *final(session)) == fs_canonicalize(
            view::type_ref(*ty),
            view::values(args@),
            run@,
            old(session)@,
        ),
{
    assert(view::values(args@).len() == args@.len());
    if args.len() == 0 {
        return Err(Halt::Failed(missing_argument()));
    }
    let path = match value_str(&args[0]) {
        Ok(value) => value,
        Err(failure) => return Err(Halt::Failed(failure)),
    };
    if args.len() <= 1 {
        return Err(Halt::Failed(missing_argument()));
    }
    let policy = match value_policy(&args[1]) {
        Ok(value) => value,
        Err(failure) => return Err(Halt::Failed(failure)),
    };
    let place = match resolve_policy_path(path, policy, CapabilityDomain::FsRead, run, session) {
        Ok(Ok(path)) => path,
        Ok(Err(_)) => return Ok(result_err(ty, "permission-denied")),
        Err(halt) => return Err(halt),
    };
    let request = HostRequest::Canonicalize { path: place };
    let reply = match session.ask(run, request) {
        Ok(value) => value,
        Err(halt) => return Err(halt),
    };
    match read_answer(ErrorFamily::Files, ty, reply, Shape::Text) {
        Ok(value) => Ok(value),
        Err(failure) => Err(Halt::Failed(failure)),
    }
}

pub open spec fn fs_rename(ty: TypeView, args: Seq<ValueView>, run: RunView, session: SessionView) -> Outcome {
    match crate::execute::lists::given(args, 0, crate::execute::values::as_text(args[0])) {
        Err(failure) => Err(HaltView::Failed(failure)),
        Ok(source) => {
            match crate::execute::lists::given(args, 1, crate::execute::values::as_text(args[1])) {
                Err(failure) => Err(HaltView::Failed(failure)),
                Ok(target) => {
                    match crate::execute::lists::given(args, 2, crate::execute::values::as_policy(args[2])) {
                        Err(failure) => Err(HaltView::Failed(failure)),
                        Ok(policy) => {
                            match crate::execute::authority::resolved(source, policy, CapabilityDomain::FsWrite, run, session) {
                                Err(halt) => Err(halt),
                                Ok((found, session)) => match found {
                                    Err(_) => Ok(
                                        (crate::execute::values::err_value(ty, "permission-denied"@), session),
                                    ),
                                    Ok(from) => {
                                        match crate::execute::authority::resolved(target, policy, CapabilityDomain::FsWrite, run, session) {
                                            Err(halt) => Err(halt),
                                            Ok((found, session)) => match found {
                                                Err(_) => Ok(
                                                    (
                                                        crate::execute::values::err_value(ty, "permission-denied"@),
                                                        session,
                                                    ),
                                                ),
                                                Ok(to) => {
                                                    match crate::execute::session::asked(session, run, RequestView::Rename { from, to }) {
                                                        Err(halt) => Err(halt),
                                                        Ok((reply, session)) => {
                                                            match crate::execute::session::answer(ErrorFamily::Files, ty, reply, Shape::Nothing) {
                                                                Err(failure) => Err(HaltView::Failed(failure)),
                                                                Ok(value) => Ok((value, session)),
                                                            }
                                                        },
                                                    }
                                                },
                                            },
                                        }
                                    },
                                },
                            }
                        },
                    }
                },
            }
        },
    }
}

fn run_fs_rename(
    ty: &TypeRef,
    args: &Vec<RuntimeValue>,
    run: &Run,
    session: &mut Session,
) -> (result: Result<RuntimeValue, Halt>)
    requires
        old(session).well_formed(),
    ensures
        final(session).well_formed(),
        crate::execute::session::stepped(result, *final(session)) == fs_rename(
            view::type_ref(*ty),
            view::values(args@),
            run@,
            old(session)@,
        ),
{
    assert(view::values(args@).len() == args@.len());
    if args.len() == 0 {
        return Err(Halt::Failed(missing_argument()));
    }
    let source = match value_str(&args[0]) {
        Ok(value) => value,
        Err(failure) => return Err(Halt::Failed(failure)),
    };
    if args.len() <= 1 {
        return Err(Halt::Failed(missing_argument()));
    }
    let target = match value_str(&args[1]) {
        Ok(value) => value,
        Err(failure) => return Err(Halt::Failed(failure)),
    };
    if args.len() <= 2 {
        return Err(Halt::Failed(missing_argument()));
    }
    let policy = match value_policy(&args[2]) {
        Ok(value) => value,
        Err(failure) => return Err(Halt::Failed(failure)),
    };
    let from = match resolve_policy_path(source, policy, CapabilityDomain::FsWrite, run, session) {
        Ok(Ok(path)) => path,
        Ok(Err(_)) => return Ok(result_err(ty, "permission-denied")),
        Err(halt) => return Err(halt),
    };
    let to = match resolve_policy_path(target, policy, CapabilityDomain::FsWrite, run, session) {
        Ok(Ok(path)) => path,
        Ok(Err(_)) => return Ok(result_err(ty, "permission-denied")),
        Err(halt) => return Err(halt),
    };
    let request = HostRequest::Rename { from, to };
    let reply = match session.ask(run, request) {
        Ok(value) => value,
        Err(halt) => return Err(halt),
    };
    match read_answer(ErrorFamily::Files, ty, reply, Shape::Nothing) {
        Ok(value) => Ok(value),
        Err(failure) => Err(Halt::Failed(failure)),
    }
}

pub open spec fn fs_copy(ty: TypeView, args: Seq<ValueView>, run: RunView, session: SessionView) -> Outcome {
    match crate::execute::lists::given(args, 0, crate::execute::values::as_text(args[0])) {
        Err(failure) => Err(HaltView::Failed(failure)),
        Ok(source) => {
            match crate::execute::lists::given(args, 1, crate::execute::values::as_text(args[1])) {
                Err(failure) => Err(HaltView::Failed(failure)),
                Ok(target) => {
                    match crate::execute::lists::given(args, 2, crate::execute::values::as_policy(args[2])) {
                        Err(failure) => Err(HaltView::Failed(failure)),
                        Ok(reading) => {
                            match crate::execute::lists::given(args, 3, crate::execute::values::as_policy(args[3])) {
                                Err(failure) => Err(HaltView::Failed(failure)),
                                Ok(writing) => {
                                    match crate::execute::authority::resolved(source, reading, CapabilityDomain::FsRead, run, session) {
                                        Err(halt) => Err(halt),
                                        Ok((found, session)) => match found {
                                            Err(_) => Ok(
                                                (
                                                    crate::execute::values::err_value(ty, "permission-denied"@),
                                                    session,
                                                ),
                                            ),
                                            Ok(from) => {
                                                match crate::execute::authority::resolved(target, writing, CapabilityDomain::FsWrite, run, session) {
                                                    Err(halt) => Err(halt),
                                                    Ok((found, session)) => match found {
                                                        Err(_) => Ok(
                                                            (
                                                                crate::execute::values::err_value(
                                                                    ty,
                                                                    "permission-denied"@,
                                                                ),
                                                                session,
                                                            ),
                                                        ),
                                                        Ok(to) => {
                                                            match crate::execute::session::asked(session, run, RequestView::CopyFile { from, to }) {
                                                                Err(halt) => Err(halt),
                                                                Ok((reply, session)) => {
                                                                    match crate::execute::session::answer(ErrorFamily::Files, ty, reply, Shape::Nothing) {
                                                                        Err(failure) => Err(
                                                                            HaltView::Failed(failure),
                                                                        ),
                                                                        Ok(value) => Ok((value, session)),
                                                                    }
                                                                },
                                                            }
                                                        },
                                                    },
                                                }
                                            },
                                        },
                                    }
                                },
                            }
                        },
                    }
                },
            }
        },
    }
}

fn run_fs_copy(
    ty: &TypeRef,
    args: &Vec<RuntimeValue>,
    run: &Run,
    session: &mut Session,
) -> (result: Result<RuntimeValue, Halt>)
    requires
        old(session).well_formed(),
    ensures
        final(session).well_formed(),
        crate::execute::session::stepped(result, *final(session)) == fs_copy(
            view::type_ref(*ty),
            view::values(args@),
            run@,
            old(session)@,
        ),
{
    assert(view::values(args@).len() == args@.len());
    if args.len() == 0 {
        return Err(Halt::Failed(missing_argument()));
    }
    let source = match value_str(&args[0]) {
        Ok(value) => value,
        Err(failure) => return Err(Halt::Failed(failure)),
    };
    if args.len() <= 1 {
        return Err(Halt::Failed(missing_argument()));
    }
    let target = match value_str(&args[1]) {
        Ok(value) => value,
        Err(failure) => return Err(Halt::Failed(failure)),
    };
    if args.len() <= 2 {
        return Err(Halt::Failed(missing_argument()));
    }
    let reading = match value_policy(&args[2]) {
        Ok(value) => value,
        Err(failure) => return Err(Halt::Failed(failure)),
    };
    if args.len() <= 3 {
        return Err(Halt::Failed(missing_argument()));
    }
    let writing = match value_policy(&args[3]) {
        Ok(value) => value,
        Err(failure) => return Err(Halt::Failed(failure)),
    };
    let from = match resolve_policy_path(source, reading, CapabilityDomain::FsRead, run, session) {
        Ok(Ok(path)) => path,
        Ok(Err(_)) => return Ok(result_err(ty, "permission-denied")),
        Err(halt) => return Err(halt),
    };
    let to = match resolve_policy_path(target, writing, CapabilityDomain::FsWrite, run, session) {
        Ok(Ok(path)) => path,
        Ok(Err(_)) => return Ok(result_err(ty, "permission-denied")),
        Err(halt) => return Err(halt),
    };
    let request = HostRequest::CopyFile { from, to };
    let reply = match session.ask(run, request) {
        Ok(value) => value,
        Err(halt) => return Err(halt),
    };
    match read_answer(ErrorFamily::Files, ty, reply, Shape::Nothing) {
        Ok(value) => Ok(value),
        Err(failure) => Err(Halt::Failed(failure)),
    }
}

/// What an operation on files and directories does; nothing for any other name.
pub open spec fn file_system(name: Seq<char>, ty: TypeView, args: Seq<ValueView>, run: RunView, session: SessionView) -> Option<Outcome> {
    if name == "fs_open_read"@ {
        Some(fs_open_read(ty, args, run, session))
    } else if name == "fs_open_write"@ {
        Some(fs_open_write(ty, args, run, session))
    } else if name == "fs_open_write_options"@ {
        Some(fs_open_write_options(ty, args, run, session))
    } else if name == "fs_open_append"@ {
        Some(fs_open_append(ty, args, run, session))
    } else if name == "fs_open_read_write"@ {
        Some(fs_open_read_write(ty, args, run, session))
    } else if name == "fs_read_to_string"@ {
        Some(fs_read_to_string(ty, args, run, session))
    } else if name == "fs_write_string_all"@ {
        Some(fs_write_string_all(ty, args, run, session))
    } else if name == "fs_append_string"@ {
        Some(fs_append_string(ty, args, run, session))
    } else if name == "fs_exists"@ {
        Some(fs_exists(args, run, session))
    } else if name == "fs_create_dir_all"@ {
        Some(fs_create_dir_all(ty, args, run, session))
    } else if name == "fs_remove_file"@ {
        Some(fs_remove_file(ty, args, run, session))
    } else if name == "fs_remove_dir"@ {
        Some(fs_remove_dir(ty, args, run, session))
    } else if name == "fs_read_dir"@ {
        Some(fs_read_dir(ty, args, run, session))
    } else if name == "fs_read_dir_entries"@ {
        Some(fs_read_dir_entries(ty, args, run, session))
    } else if name == "fs_metadata"@ {
        Some(fs_metadata(ty, args, run, session))
    } else if name == "fs_canonicalize"@ {
        Some(fs_canonicalize(ty, args, run, session))
    } else if name == "fs_rename"@ {
        Some(fs_rename(ty, args, run, session))
    } else if name == "fs_copy"@ {
        Some(fs_copy(ty, args, run, session))
    } else {
        None
    }
}

pub(crate) fn run_file_system(
    name: &str,
    ty: &TypeRef,
    args: &Vec<RuntimeValue>,
    run: &Run,
    session: &mut Session,
) -> (result: Option<Result<RuntimeValue, Halt>>)
    requires
        old(session).well_formed(),
    ensures
        final(session).well_formed(),
        match result {
            Some(result) => file_system(
                name@,
                view::type_ref(*ty),
                view::values(args@),
                run@,
                old(session)@,
            ) == Some(crate::execute::session::stepped(result, *final(session))),
            None => file_system(
                name@,
                view::type_ref(*ty),
                view::values(args@),
                run@,
                old(session)@,
            ) is None && final(session)@ == old(session)@,
        },
{
    assert(view::values(args@).len() == args@.len());
    if same_text(name, "fs_open_read") {
        Some(run_fs_open_read(ty, args, run, session))
    } else if same_text(name, "fs_open_write") {
        Some(run_fs_open_write(ty, args, run, session))
    } else if same_text(name, "fs_open_write_options") {
        Some(run_fs_open_write_options(ty, args, run, session))
    } else if same_text(name, "fs_open_append") {
        Some(run_fs_open_append(ty, args, run, session))
    } else if same_text(name, "fs_open_read_write") {
        Some(run_fs_open_read_write(ty, args, run, session))
    } else if same_text(name, "fs_read_to_string") {
        Some(run_fs_read_to_string(ty, args, run, session))
    } else if same_text(name, "fs_write_string_all") {
        Some(run_fs_write_string_all(ty, args, run, session))
    } else if same_text(name, "fs_append_string") {
        Some(run_fs_append_string(ty, args, run, session))
    } else if same_text(name, "fs_exists") {
        Some(run_fs_exists(args, run, session))
    } else if same_text(name, "fs_create_dir_all") {
        Some(run_fs_create_dir_all(ty, args, run, session))
    } else if same_text(name, "fs_remove_file") {
        Some(run_fs_remove_file(ty, args, run, session))
    } else if same_text(name, "fs_remove_dir") {
        Some(run_fs_remove_dir(ty, args, run, session))
    } else if same_text(name, "fs_read_dir") {
        Some(run_fs_read_dir(ty, args, run, session))
    } else if same_text(name, "fs_read_dir_entries") {
        Some(run_fs_read_dir_entries(ty, args, run, session))
    } else if same_text(name, "fs_metadata") {
        Some(run_fs_metadata(ty, args, run, session))
    } else if same_text(name, "fs_canonicalize") {
        Some(run_fs_canonicalize(ty, args, run, session))
    } else if same_text(name, "fs_rename") {
        Some(run_fs_rename(ty, args, run, session))
    } else if same_text(name, "fs_copy") {
        Some(run_fs_copy(ty, args, run, session))
    } else {
        None
    }
}

} // verus!
