//! The state of a run and its conversation with the host.
use vstd::prelude::*;
use crate::execute::failure::{Failure, PartView};
use crate::execute::files::{FileHandle, FileTable, IoFailure, IoFailureView, IoKind, TableView};
use crate::execute::host::{EnvPair, HostReply, HostRequest};
use crate::execute::host_view::{self, EnvPairView, ReplyView, RequestView};
use crate::execute::lists::wide_count;
use crate::execute::tasks::{SourceTaskRuntime, TasksView};
use crate::execute::values::{result_err, result_err_message, result_ok, runtime_bytes, runtime_texts};
use crate::lowered::ir::{HandleAccess, HostHandle, LoweredProgram, PolicyType, RuntimeValue, TypeRef};
use crate::lowered::view::{self, LoweredProgramView, PolicyTypeView, TypeView, ValueView};
use crate::text::{concat_five, concat_three, decimal_text, owned, same_text, signed_text};

verus! {

/// A clock that a run is given in place of the host's.
#[derive(Debug, Clone, Copy, PartialEq, Eq, Structural)]
pub struct InjectedClock {
    pub unix_millis: u64,
    pub monotonic_millis: u64,
}

/// What a run is allowed and told. `environment` and `clock`, when given, stand
/// in for the host's; a limit of zero open files means no limit.
#[derive(Debug)]
pub struct RunConfig {
    pub max_open_files: usize,
    pub max_alloc_len: usize,
    pub program_name: String,
    pub argv: Vec<String>,
    pub approved: PolicyType,
    pub working_dir: Option<String>,
    pub environment: Option<Vec<EnvPair>>,
    pub clock: Option<InjectedClock>,
}

pub struct ConfigView {
    pub max_open_files: usize,
    pub max_alloc_len: usize,
    pub program_name: Seq<char>,
    pub argv: Seq<Seq<char>>,
    pub approved: PolicyTypeView,
    pub working_dir: Option<Seq<char>>,
    pub environment: Option<Seq<EnvPairView>>,
    pub clock: Option<InjectedClock>,
}

pub open spec fn environment_view(environment: Option<Vec<EnvPair>>) -> Option<Seq<EnvPairView>> {
    match environment {
        Some(pairs) => Some(host_view::env_pairs(pairs@)),
        None => None,
    }
}

impl RunConfig {
    pub open spec fn view(&self) -> ConfigView {
        ConfigView {
            max_open_files: self.max_open_files,
            max_alloc_len: self.max_alloc_len,
            program_name: self.program_name@,
            argv: view::texts(self.argv@),
            approved: view::policy_type(self.approved),
            working_dir: crate::execute::paths::view_option(self.working_dir),
            environment: environment_view(self.environment),
            clock: self.clock,
        }
    }
}

/// What stays fixed during a run: the program, the configuration, and the
/// replies that the host has given so far.
pub struct Run<'a> {
    pub program: &'a LoweredProgram,
    pub config: &'a RunConfig,
    pub replies: &'a Vec<HostReply>,
}

pub struct RunView {
    pub program: LoweredProgramView,
    pub config: ConfigView,
    pub replies: Seq<ReplyView>,
}

impl<'a> Run<'a> {
    pub open spec fn view(&self) -> RunView {
        RunView {
            program: view::lowered_program(*self.program),
            config: self.config@,
            replies: host_view::replies(self.replies@),
        }
    }
}

/// What changes during a run: mutable places, open resources, tasks, the given
/// environment and clock, and how many replies have been used.
#[derive(Debug)]
pub struct Session {
    pub cells: Vec<RuntimeValue>,
    pub files: FileTable,
    pub tasks: SourceTaskRuntime,
    pub environment: Option<Vec<EnvPair>>,
    pub clock: Option<InjectedClock>,
    pub used: usize,
}

pub struct SessionView {
    pub cells: Seq<ValueView>,
    pub files: TableView,
    pub tasks: TasksView,
    pub environment: Option<Seq<EnvPairView>>,
    pub clock: Option<InjectedClock>,
    pub used: nat,
}

/// Why a run does not go on.
#[derive(Debug)]
pub enum Halt {
    /// The program failed.
    Failed(Failure),
    /// The host has to do something first.
    Waiting(HostRequest),
    /// The budget of calls and loop rounds is used up.
    Exhausted,
}

pub enum HaltView {
    Failed(Seq<PartView>),
    Waiting(RequestView),
    Exhausted,
}

impl Halt {
    pub open spec fn view(&self) -> HaltView {
        match *self {
            Halt::Failed(failure) => HaltView::Failed(failure@),
            Halt::Waiting(request) => HaltView::Waiting(host_view::request(request)),
            Halt::Exhausted => HaltView::Exhausted,
        }
    }
}

/// A value and the session behind it, or why the run does not go on.
pub type Outcome = Result<(ValueView, SessionView), HaltView>;

/// A result of executable code as an outcome.
pub open spec fn stepped(result: Result<RuntimeValue, Halt>, session: Session) -> Outcome {
    match result {
        Ok(value) => Ok((view::value(value), session@)),
        Err(halt) => Err(halt@),
    }
}

/// The next reply, or the request that has to be answered first.
pub open spec fn asked(session: SessionView, run: RunView, request: RequestView) -> Result<
    (ReplyView, SessionView),
    HaltView,
> {
    if session.used < run.replies.len() {
        Ok((run.replies[session.used as int], SessionView { used: session.used + 1, ..session }))
    } else {
        Err(HaltView::Waiting(request))
    }
}

/// How a call that stops a run leaves its session: with at most one more reply
/// used, and with none where it waits for one.
pub open spec fn stopped(before: SessionView, after: SessionView, halt: HaltView) -> bool {
    &&& after == (SessionView { used: after.used, ..before })
    &&& before.used <= after.used <= before.used + 1
    &&& halt is Waiting ==> after == before
}

impl SessionView {
    /// The state in which a run starts.
    pub open spec fn initial(config: ConfigView) -> SessionView {
        SessionView {
            cells: Seq::empty(),
            files: TableView::initial(config.max_open_files),
            tasks: TasksView::initial(),
            environment: config.environment,
            clock: config.clock,
            used: 0,
        }
    }
}

fn copy_pairs(pairs: &Vec<EnvPair>) -> (result: Vec<EnvPair>)
    ensures
        host_view::env_pairs(result@) == host_view::env_pairs(pairs@),
{
    let mut done: Vec<EnvPair> = Vec::new();
    let mut i: usize = 0;
    while i < pairs.len()
        invariant
            i <= pairs.len(),
            done.len() == i,
            forall|k: int| 0 <= k < i ==> host_view::env_pairs(done@)[k] == host_view::env_pairs(pairs@)[k],
        decreases pairs.len() - i,
    {
        let ghost before = done@;
        done.push(EnvPair { name: pairs[i].name.clone(), value: pairs[i].value.clone() });
        proof {
            host_view::lemma_env_pairs_push(before, done@.last());
        }
        i += 1;
    }
    assert(host_view::env_pairs(done@) =~= host_view::env_pairs(pairs@));
    done
}

impl Session {
    pub open spec fn view(&self) -> SessionView {
        SessionView {
            cells: view::values(self.cells@),
            files: self.files@,
            tasks: self.tasks@,
            environment: environment_view(self.environment),
            clock: self.clock,
            used: self.used as nat,
        }
    }

    pub open spec fn well_formed(&self) -> bool {
        self.tasks.well_formed() && self.files@.well_formed()
    }

    /// The state in which a run starts.
    pub fn new(config: &RunConfig) -> (session: Session)
        ensures
            session.well_formed(),
            session@ == SessionView::initial(config@),
    {
        let environment = match &config.environment {
            Some(pairs) => Some(copy_pairs(pairs)),
            None => None,
        };
        let session = Session {
            cells: Vec::new(),
            files: FileTable::new(config.max_open_files),
            tasks: SourceTaskRuntime::new(),
            environment,
            clock: config.clock,
            used: 0,
        };
        assert(session@.cells =~= Seq::<ValueView>::empty());
        session
    }

    /// The host's answer to `request`: the next unused reply.
    pub(crate) fn ask<'a>(&mut self, run: &Run<'a>, request: HostRequest) -> (result: Result<&'a HostReply, Halt>)
        requires
            old(self).well_formed(),
        ensures
            final(self).well_formed(),
            match result {
                Ok(reply) => asked(old(self)@, run@, host_view::request(request)) == Ok::<
                    (ReplyView, SessionView),
                    HaltView,
                >((host_view::reply(*reply), final(self)@)),
                Err(halt) => asked(old(self)@, run@, host_view::request(request)) == Err::<
                    (ReplyView, SessionView),
                    HaltView,
                >(halt@) && final(self)@ == old(self)@,
            },
    {
        let index: usize = self.used;
        if index < run.replies.len() {
            assert(run@.replies[index as int] == host_view::reply(run.replies@[index as int]));
            self.used = index + 1;
            Ok(&run.replies[index])
        } else {
            Err(Halt::Waiting(request))
        }
    }
}

// Answers.

/// Which errors an operation tells apart.
#[derive(Debug, Clone, Copy, PartialEq, Eq, Structural)]
pub enum ErrorFamily {
    Files,
    Processes,
    Network,
}

/// The error value for a failed operation.
pub open spec fn error_value(family: ErrorFamily, ty: TypeView, failure: IoFailureView) -> ValueView {
    let tag = error_tag(family, failure.kind);
    if family == ErrorFamily::Processes && tag != "io"@ {
        crate::execute::values::err_value(ty, tag)
    } else {
        crate::execute::values::err_message(ty, tag, failure.message)
    }
}

/// The tag of a failed operation's error value.
pub open spec fn error_tag(family: ErrorFamily, kind: IoKind) -> Seq<char> {
    match family {
        ErrorFamily::Files => match kind {
            IoKind::NotFound => "not-found"@,
            IoKind::PermissionDenied => "permission-denied"@,
            IoKind::AlreadyExists => "already-exists"@,
            IoKind::InvalidInput => "invalid-path"@,
            _ => "io"@,
        },
        ErrorFamily::Processes => match kind {
            IoKind::NotFound => "not-found"@,
            IoKind::PermissionDenied => "permission-denied"@,
            IoKind::InvalidInput => "invalid-input"@,
            _ => "io"@,
        },
        ErrorFamily::Network => match kind {
            IoKind::AddrInUse => "address-in-use"@,
            IoKind::AddrNotAvailable => "address-not-available"@,
            IoKind::ConnectionRefused => "connection-refused"@,
            IoKind::ConnectionReset => "connection-reset"@,
            IoKind::ConnectionAborted => "connection-aborted"@,
            IoKind::NotConnected => "not-connected"@,
            IoKind::TimedOut => "timed-out"@,
            IoKind::WouldBlock => "would-block"@,
            IoKind::InvalidInput => "invalid-input"@,
            _ => "io"@,
        },
    }
}

fn tag_of(family: ErrorFamily, kind: IoKind) -> (tag: &'static str)
    ensures
        tag@ == error_tag(family, kind),
{
    match family {
        ErrorFamily::Files => match kind {
            IoKind::NotFound => "not-found",
            IoKind::PermissionDenied => "permission-denied",
            IoKind::AlreadyExists => "already-exists",
            IoKind::InvalidInput => "invalid-path",
            _ => "io",
        },
        ErrorFamily::Processes => match kind {
            IoKind::NotFound => "not-found",
            IoKind::PermissionDenied => "permission-denied",
            IoKind::InvalidInput => "invalid-input",
            _ => "io",
        },
        ErrorFamily::Network => match kind {
            IoKind::AddrInUse => "address-in-use",
            IoKind::AddrNotAvailable => "address-not-available",
            IoKind::ConnectionRefused => "connection-refused",
            IoKind::ConnectionReset => "connection-reset",
            IoKind::ConnectionAborted => "connection-aborted",
            IoKind::NotConnected => "not-connected",
            IoKind::TimedOut => "timed-out",
            IoKind::WouldBlock => "would-block",
            IoKind::InvalidInput => "invalid-input",
            _ => "io",
        },
    }
}

pub fn io_error(family: ErrorFamily, ty: &TypeRef, failure: &IoFailure) -> (value: RuntimeValue)
    ensures
        view::value(value) == error_value(family, view::type_ref(*ty), failure@),
{
    let tag = tag_of(family, failure.kind);
    if family == ErrorFamily::Processes && !same_text(tag, "io") {
        result_err(ty, tag)
    } else {
        result_err_message(ty, tag, failure.message.as_str())
    }
}

/// What an answer is expected to hold.
#[derive(Debug, Clone, Copy, PartialEq, Eq, Structural)]
pub enum Shape {
    Nothing,
    Text,
    Bytes,
    Count,
    Texts,
    Metadata,
    Exit,
    Datagram,
}

pub open spec fn unexpected() -> Seq<PartView> {
    crate::execute::failure::text_failure("the host gave an answer to another question"@)
}

pub fn unexpected_reply() -> (failure: Failure)
    ensures
        failure@ == unexpected(),
{
    Failure::text("the host gave an answer to another question")
}

/// What a finished process is reported as.
pub open spec fn exit_value(success: bool, code: i64, stdout: Seq<u8>, stderr: Seq<u8>) -> ValueView {
    ValueView::Record(
        seq![
            crate::execute::values::field("code"@, ValueView::Int(code)),
            crate::execute::values::field("stderr"@, crate::execute::values::byte_array(stderr)),
            crate::execute::values::field("stdout"@, crate::execute::values::byte_array(stdout)),
            crate::execute::values::field("success"@, ValueView::Bool(success)),
        ],
    )
}

pub(crate) fn record_four(
    names: (&str, &str, &str, &str),
    one: RuntimeValue,
    two: RuntimeValue,
    three: RuntimeValue,
    four: RuntimeValue,
) -> (value: RuntimeValue)
    ensures
        view::value(value) == ValueView::Record(
            seq![
                crate::execute::values::field(names.0@, view::value(one)),
                crate::execute::values::field(names.1@, view::value(two)),
                crate::execute::values::field(names.2@, view::value(three)),
                crate::execute::values::field(names.3@, view::value(four)),
            ],
        ),
{
    let mut fields: Vec<crate::lowered::ir::FieldValue> = Vec::new();
    fields.push(crate::lowered::ir::FieldValue { name: owned(names.0), value: one });
    fields.push(crate::lowered::ir::FieldValue { name: owned(names.1), value: two });
    fields.push(crate::lowered::ir::FieldValue { name: owned(names.2), value: three });
    fields.push(crate::lowered::ir::FieldValue { name: owned(names.3), value: four });
    assert(view::field_values(fields@) =~= seq![
        crate::execute::values::field(names.0@, view::value(one)),
        crate::execute::values::field(names.1@, view::value(two)),
        crate::execute::values::field(names.2@, view::value(three)),
        crate::execute::values::field(names.3@, view::value(four)),
    ]);
    RuntimeValue::Record(fields)
}

pub open spec fn metadata_text(size: u64, is_dir: bool) -> Seq<char> {
    "size="@ + crate::text::decimal(size as nat) + ",is_dir="@ + (if is_dir {
        "true"@
    } else {
        "false"@
    })
}

/// An answer as the value of the operation that asked.
pub open spec fn answer(family: ErrorFamily, ty: TypeView, reply: ReplyView, shape: Shape) -> Result<
    ValueView,
    Seq<PartView>,
> {
    match reply {
        ReplyView::Failed(failure) => Ok(error_value(family, ty, failure)),
        ReplyView::Done if shape == Shape::Nothing => Ok(crate::execute::values::ok_value(ty, ValueView::Void)),
        ReplyView::Text(text) if shape == Shape::Text => Ok(
            crate::execute::values::ok_value(ty, ValueView::Str(text)),
        ),
        ReplyView::Bytes(bytes) if shape == Shape::Bytes => Ok(
            crate::execute::values::ok_value(ty, crate::execute::values::byte_array(bytes)),
        ),
        ReplyView::Count(count) if shape == Shape::Count => Ok(
            crate::execute::values::ok_value(ty, crate::execute::lists::count_value(count as nat)),
        ),
        ReplyView::Texts(texts) if shape == Shape::Texts => Ok(
            crate::execute::values::ok_value(ty, crate::execute::values::text_array(texts)),
        ),
        ReplyView::Metadata { size, is_dir } if shape == Shape::Metadata => Ok(
            crate::execute::values::ok_value(ty, ValueView::Str(metadata_text(size, is_dir))),
        ),
        ReplyView::Exited { success, code, stdout, stderr } if shape == Shape::Exit => Ok(
            crate::execute::values::ok_value(ty, exit_value(success, code, stdout, stderr)),
        ),
        ReplyView::Datagram { data, from } if shape == Shape::Datagram => Ok(
            crate::execute::values::ok_value(
                ty,
                ValueView::Record(
                    seq![
                        crate::execute::values::field("data"@, crate::execute::values::byte_array(data)),
                        crate::execute::values::field("from"@, ValueView::Str(from)),
                    ],
                ),
            ),
        ),
        _ => Err(unexpected()),
    }
}

pub(crate) fn read_answer(family: ErrorFamily, ty: &TypeRef, reply: &HostReply, shape: Shape) -> (result: Result<
    RuntimeValue,
    Failure,
>)
    ensures
        crate::execute::lists::outcome(result) == answer(family, view::type_ref(*ty), host_view::reply(*reply), shape),
{
    match reply {
        HostReply::Failed(failure) => Ok(io_error(family, ty, failure)),
        HostReply::Done if shape == Shape::Nothing => Ok(result_ok(ty, RuntimeValue::Void)),
        HostReply::Text(text) if shape == Shape::Text => Ok(result_ok(ty, RuntimeValue::Str(text.clone()))),
        HostReply::Bytes(bytes) if shape == Shape::Bytes => Ok(result_ok(ty, runtime_bytes(bytes))),
        HostReply::Count(count) if shape == Shape::Count => Ok(result_ok(ty, wide_count(*count))),
        HostReply::Texts(texts) if shape == Shape::Texts => Ok(result_ok(ty, runtime_texts(texts))),
        HostReply::Metadata { size, is_dir } if shape == Shape::Metadata => {
            let number = decimal_text(*size);
            let mut text = concat_three("size=", number.as_str(), ",is_dir=");
            text.append(if *is_dir { "true" } else { "false" });
            Ok(result_ok(ty, RuntimeValue::Str(text)))
        }
        HostReply::Exited { success, code, stdout, stderr } if shape == Shape::Exit => {
            let value = record_four(
                ("code", "stderr", "stdout", "success"),
                RuntimeValue::Int(*code),
                runtime_bytes(stderr),
                runtime_bytes(stdout),
                RuntimeValue::Bool(*success),
            );
            Ok(result_ok(ty, value))
        }
        HostReply::Datagram { data, from } if shape == Shape::Datagram => {
            let value = crate::execute::values::record_two(
                "data",
                runtime_bytes(data),
                "from",
                RuntimeValue::Str(from.clone()),
            );
            Ok(result_ok(ty, value))
        }
        _ => Err(unexpected_reply()),
    }
}

/// The answer to a request that opens a resource: the resource is registered
/// under the next id.
pub open spec fn opened(
    family: ErrorFamily,
    ty: TypeView,
    reply: ReplyView,
    handle: FileHandle,
    access: HandleAccess,
    session: SessionView,
) -> Outcome {
    match reply {
        ReplyView::Failed(failure) => Ok((error_value(family, ty, failure), session)),
        ReplyView::Done => if session.files.next == u64::MAX {
            Err(HaltView::Failed(no_ids_left()))
        } else {
            Ok(
                (
                    crate::execute::values::ok_value(
                        ty,
                        ValueView::HostHandle(HostHandle { id: session.files.next, access }),
                    ),
                    SessionView { files: session.files.registered(handle), ..session },
                ),
            )
        },
        _ => Err(HaltView::Failed(unexpected())),
    }
}

pub open spec fn no_ids_left() -> Seq<PartView> {
    crate::execute::failure::text_failure("no handle ids are left"@)
}

pub(crate) fn open_answer(
    family: ErrorFamily,
    ty: &TypeRef,
    reply: &HostReply,
    handle: FileHandle,
    access: HandleAccess,
    session: &mut Session,
) -> (result: Result<RuntimeValue, Halt>)
    requires
        old(session).well_formed(),
        !(handle is Stdin),
    ensures
        final(session).well_formed(),
        stepped(result, *final(session)) == opened(
            family,
            view::type_ref(*ty),
            host_view::reply(*reply),
            handle,
            access,
            old(session)@,
        ),
{
    match reply {
        HostReply::Failed(failure) => Ok(io_error(family, ty, failure)),
        HostReply::Done => {
            if session.files.next_id() == u64::MAX {
                return Err(Halt::Failed(Failure::text("no handle ids are left")));
            }
            let id = session.files.insert(handle);
            Ok(result_ok(ty, RuntimeValue::HostHandle(HostHandle { id, access })))
        }
        _ => Err(Halt::Failed(unexpected_reply())),
    }
}

// Limits.

/// What is wrong with a length that a program asks for.
pub open spec fn length_error(len: i64, max_alloc_len: usize) -> Option<(Seq<char>, Seq<char>)> {
    if len < 0 || len > usize::MAX {
        Some(("invalid-length"@, "length "@ + crate::text::signed_decimal(len as int) + " must not be negative"@))
    } else if len > max_alloc_len {
        Some(
            (
                "too-large"@,
                "length "@ + crate::text::signed_decimal(len as int) + " exceeds max-alloc-len of "@
                    + crate::text::decimal(max_alloc_len as nat) + " bytes"@,
            ),
        )
    } else {
        None
    }
}

/// Checks a length that a program asks for against the configured limit. A
/// refusal names a stable tag and says what is wrong.
pub fn checked_alloc_len(len: i64, config: &RunConfig) -> (result: Result<usize, (&'static str, String)>)
    ensures
        match result {
            Ok(length) => length_error(len, config@.max_alloc_len) is None && length == len,
            Err((tag, message)) => length_error(len, config@.max_alloc_len) == Some((tag@, message@)),
        },
{
    let number = signed_text(len);
    if len < 0 || len as u64 > usize::MAX as u64 {
        return Err(("invalid-length", concat_three("length ", number.as_str(), " must not be negative")));
    }
    let length: usize = len as usize;
    if length > config.max_alloc_len {
        let limit = decimal_text(config.max_alloc_len as u64);
        return Err(
            (
                "too-large",
                concat_five("length ", number.as_str(), " exceeds max-alloc-len of ", limit.as_str(), " bytes"),
            ),
        );
    }
    Ok(length)
}

// Laws.

/// A request that was answered is answered in the same way when more replies
/// are there.
pub proof fn law_answers_are_replayed(session: SessionView, run: RunView, longer: RunView, request: RequestView)
    requires
        run.replies.len() <= longer.replies.len(),
        longer.replies.take(run.replies.len() as int) == run.replies,
        session.used < run.replies.len(),
    ensures
        asked(session, longer, request) == asked(session, run, request),
        asked(session, run, request) is Ok,
{
    let used = session.used as int;
    assert(longer.replies.take(run.replies.len() as int)[used] == longer.replies[used]);
}

/// A request that waits is answered by the next reply, and by nothing else.
pub proof fn law_waiting_requests_take_the_next_reply(
    session: SessionView,
    run: RunView,
    request: RequestView,
    reply: ReplyView,
)
    requires
        session.used == run.replies.len(),
    ensures
        asked(session, run, request) == Err::<(ReplyView, SessionView), HaltView>(HaltView::Waiting(request)),
        asked(session, RunView { replies: run.replies.push(reply), ..run }, request) == Ok::<
            (ReplyView, SessionView),
            HaltView,
        >((reply, SessionView { used: session.used + 1, ..session })),
{
}

} // verus!
