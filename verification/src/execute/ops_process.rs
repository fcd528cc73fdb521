//! Child processes.
use vstd::prelude::*;
use crate::execute::failure::Failure;
use crate::execute::host_view::{self, RequestView};
use crate::lowered::ir::{RuntimeValue, TypeRef};
use crate::lowered::view::{self, TypeView, ValueView};
use crate::execute::files::FileHandle;
use crate::execute::host::{EnvPair, HostRequest, PipeKind, ProcessCommand, StdioMode};
use crate::execute::host_view::{EnvPairView, ProcessCommandView};
use crate::execute::failure::PartView;
use crate::execute::lists::{get_field, missing_argument, value_array, value_mapping, value_texts};
use crate::execute::policy::ensure_policy_scope;
use crate::execute::session::{
    open_answer, read_answer, ErrorFamily, Halt, HaltView, Outcome, Run, RunView, Session, SessionView, Shape,
};
use crate::execute::values::{result_err, result_err_message, untyped, value_handle, value_policy, value_str};
use crate::lowered::ir::{CapabilityDomain, HandleAccess};
use crate::text::{concat_three, owned, same_text};

verus! {

/// A field of a process command.
pub open spec fn command_field(command: ValueView, name: Seq<char>) -> Result<ValueView, Seq<PartView>> {
    match crate::execute::values::untagged(command) {
        ValueView::Record(fields) => match crate::execute::lists::field_value(fields, name) {
            Some(value) => Ok(value),
            None => Err(crate::execute::failure::text_failure("process command is missing `"@ + name + "`"@)),
        },
        _ => Err(crate::execute::failure::text_failure("process command must be a record"@)),
    }
}

fn read_field<'a>(command: &'a RuntimeValue, name: &str) -> (result: Result<&'a RuntimeValue, Failure>)
    ensures
        match result {
            Ok(value) => command_field(
                view::value(*command),
                name@,
            ) == Ok::<ValueView, Seq<PartView>>(view::value(*value)),
            Err(failure) => command_field(view::value(*command), name@) == Err::<ValueView, Seq<PartView>>(failure@),
        },
{
    match untyped(command) {
        RuntimeValue::Record(fields) => match get_field(fields, name) {
            Some(value) => Ok(value),
            None => {
                let text = concat_three("process command is missing `", name, "`");
                Err(Failure::text(text.as_str()))
            }
        },
        _ => Err(Failure::text("process command must be a record")),
    }
}

/// What a process command starts.
pub open spec fn command_executable(command: ValueView) -> Result<Seq<char>, Seq<PartView>> {
    match command_field(command, "executable"@) {
        Err(failure) => Err(failure),
        Ok(value) => crate::execute::values::as_text(value),
    }
}

fn read_executable(command: &RuntimeValue) -> (result: Result<&str, Failure>)
    ensures
        match result {
            Ok(text) => command_executable(view::value(*command)) == Ok::<Seq<char>, Seq<PartView>>(text@),
            Err(failure) => command_executable(view::value(*command)) == Err::<Seq<char>, Seq<PartView>>(failure@),
        },
{
    match read_field(command, "executable") {
        Ok(value) => value_str(value),
        Err(failure) => Err(failure),
    }
}

/// The parts of a process command besides what it starts.
pub struct PartsView {
    pub arguments: Seq<ValueView>,
    pub environment: Seq<(ValueView, ValueView)>,
    pub cwd: Seq<char>,
    pub stdio: Seq<char>,
}

struct Parts<'a> {
    arguments: &'a Vec<RuntimeValue>,
    environment: &'a Vec<(RuntimeValue, RuntimeValue)>,
    cwd: &'a str,
    stdio: &'a String,
}

impl<'a> Parts<'a> {
    spec fn view(&self) -> PartsView {
        PartsView {
            arguments: view::values(self.arguments@),
            environment: view::value_pairs(self.environment@),
            cwd: self.cwd@,
            stdio: self.stdio@,
        }
    }
}

pub open spec fn enum_tag(value: ValueView) -> Result<Seq<char>, Seq<PartView>> {
    match crate::execute::values::untagged(value) {
        ValueView::Enum { tag, .. } => Ok(tag),
        _ => Err(crate::execute::failure::text_failure("process stdio must be a policy enum"@)),
    }
}

fn read_tag(value: &RuntimeValue) -> (result: Result<&String, Failure>)
    ensures
        match result {
            Ok(tag) => enum_tag(view::value(*value)) == Ok::<Seq<char>, Seq<PartView>>(tag@),
            Err(failure) => enum_tag(view::value(*value)) == Err::<Seq<char>, Seq<PartView>>(failure@),
        },
{
    match untyped(value) {
        RuntimeValue::Enum { tag, .. } => Ok(tag),
        _ => Err(Failure::text("process stdio must be a policy enum")),
    }
}

pub open spec fn command_parts(command: ValueView) -> Result<PartsView, Seq<PartView>> {
    match command_field(command, "arguments"@) {
        Err(failure) => Err(failure),
        Ok(arguments) => match crate::execute::lists::as_array(arguments, "process arguments must be an array"@) {
            Err(failure) => Err(failure),
            Ok(arguments) => match command_field(command, "environment"@) {
                Err(failure) => Err(failure),
                Ok(environment) => match crate::execute::lists::as_mapping(
                    environment,
                    "process environment must be a string map"@,
                ) {
                    Err(failure) => Err(failure),
                    Ok(environment) => match command_field(command, "cwd"@) {
                        Err(failure) => Err(failure),
                        Ok(cwd) => match crate::execute::values::as_text(cwd) {
                            Err(failure) => Err(failure),
                            Ok(cwd) => match command_field(command, "stdio"@) {
                                Err(failure) => Err(failure),
                                Ok(stdio) => match enum_tag(stdio) {
                                    Err(failure) => Err(failure),
                                    Ok(stdio) => Ok(PartsView { arguments, environment, cwd, stdio }),
                                },
                            },
                        },
                    },
                },
            },
        },
    }
}

fn read_parts<'a>(command: &'a RuntimeValue) -> (result: Result<Parts<'a>, Failure>)
    ensures
        match result {
            Ok(parts) => command_parts(view::value(*command)) == Ok::<PartsView, Seq<PartView>>(parts.view()),
            Err(failure) => command_parts(view::value(*command)) == Err::<PartsView, Seq<PartView>>(failure@),
        },
{
    let arguments = match read_field(command, "arguments") {
        Ok(value) => value,
        Err(failure) => return Err(failure),
    };
    let arguments = match value_array(arguments, "process arguments must be an array") {
        Ok(value) => value,
        Err(failure) => return Err(failure),
    };
    let environment = match read_field(command, "environment") {
        Ok(value) => value,
        Err(failure) => return Err(failure),
    };
    let environment = match value_mapping(environment, "process environment must be a string map") {
        Ok(value) => value,
        Err(failure) => return Err(failure),
    };
    let cwd = match read_field(command, "cwd") {
        Ok(value) => value,
        Err(failure) => return Err(failure),
    };
    let cwd = match value_str(cwd) {
        Ok(value) => value,
        Err(failure) => return Err(failure),
    };
    let stdio = match read_field(command, "stdio") {
        Ok(value) => value,
        Err(failure) => return Err(failure),
    };
    let stdio = match read_tag(stdio) {
        Ok(value) => value,
        Err(failure) => return Err(failure),
    };
    Ok(Parts { arguments, environment, cwd, stdio })
}

/// The variables of a command's environment, or the first failure.
pub open spec fn variables_from(pairs: Seq<(ValueView, ValueView)>, from: int, done: Seq<EnvPairView>) -> Result<
Seq<EnvPairView>,
Seq<PartView>,
>
    decreases pairs.len() - from,
{
    if from < 0 || from >= pairs.len() {
        Ok(done)
    } else {
        match crate::execute::values::as_text(pairs[from].0) {
            Err(failure) => Err(failure),
            Ok(name) => match crate::execute::values::as_text(pairs[from].1) {
                Err(failure) => Err(failure),
                Ok(value) => variables_from(pairs, from + 1, done.push(EnvPairView { name, value })),
            },
        }
    }
}

fn read_variables(pairs: &Vec<(RuntimeValue, RuntimeValue)>) -> (result: Result<Vec<EnvPair>, Failure>)
    ensures
        match result {
            Ok(variables) => variables_from(view::value_pairs(pairs@), 0, Seq::empty())
                == Ok::<Seq<EnvPairView>, Seq<PartView>>(
                host_view::env_pairs(variables@),
            ),
            Err(failure) => variables_from(view::value_pairs(pairs@), 0, Seq::empty())
                == Err::<Seq<EnvPairView>, Seq<PartView>>(
                failure@,
            ),
        },
{
    let ghost all = view::value_pairs(pairs@);
    let mut done: Vec<EnvPair> = Vec::new();
    let mut i: usize = 0;
    assert(host_view::env_pairs(done@) =~= Seq::<EnvPairView>::empty());
    while i < pairs.len()
        invariant
            i <= pairs.len(),
            all == view::value_pairs(pairs@),
            variables_from(all, 0, Seq::empty()) == variables_from(all, i as int, host_view::env_pairs(done@)),
        decreases pairs.len() - i,
    {
        assert(all[i as int] == (view::value(pairs@[i as int].0), view::value(pairs@[i as int].1)));
        let name = match value_str(&pairs[i].0) {
            Ok(value) => value,
            Err(failure) => return Err(failure),
        };
        let text = match value_str(&pairs[i].1) {
            Ok(value) => value,
            Err(failure) => return Err(failure),
        };
        let ghost before = done@;
        done.push(EnvPair { name: owned(name), value: owned(text) });
        proof {
            host_view::lemma_env_pairs_push(before, done@.last());
        }
        i += 1;
    }
    Ok(done)
}

pub open spec fn stdio_mode(text: Seq<char>) -> Option<StdioMode> {
    if text == "capture"@ {
        Some(StdioMode::Capture)
    } else if text == "stream"@ {
        Some(StdioMode::Stream)
    } else if text == "inherit"@ {
        Some(StdioMode::Inherit)
    } else if text == "null"@ {
        Some(StdioMode::Discard)
    } else {
        None
    }
}

fn read_mode(text: &str) -> (mode: Option<StdioMode>)
    ensures
        mode == stdio_mode(text@),
{
    if same_text(text, "capture") {
        Some(StdioMode::Capture)
    } else if same_text(text, "stream") {
        Some(StdioMode::Stream)
    } else if same_text(text, "inherit") {
        Some(StdioMode::Inherit)
    } else if same_text(text, "null") {
        Some(StdioMode::Discard)
    } else {
        None
    }
}

/// The process that a command starts; nothing when its stdio is not known.
pub open spec fn command_of(executable: Seq<char>, parts: PartsView) -> Result<Option<ProcessCommandView>, Seq<PartView>> {
    match crate::execute::lists::item_texts(parts.arguments) {
        Err(failure) => Err(failure),
        Ok(arguments) => match variables_from(parts.environment, 0, Seq::empty()) {
            Err(failure) => Err(failure),
            Ok(environment) => match stdio_mode(parts.stdio) {
                None => Ok(None),
                Some(stdio) => Ok(
                    Some(ProcessCommandView { executable, arguments, environment, cwd: parts.cwd, stdio }),
                ),
            },
        },
    }
}

fn build_command(executable: &str, parts: &Parts) -> (result: Result<Option<ProcessCommand>, Failure>)
    ensures
        match result {
            Ok(Some(command)) => command_of(executable@, parts.view())
                == Ok::<Option<ProcessCommandView>, Seq<PartView>>(
                Some(host_view::process_command(command)),
            ),
            Ok(None) => command_of(
                executable@,
                parts.view(),
            ) == Ok::<Option<ProcessCommandView>, Seq<PartView>>(None),
            Err(failure) => command_of(
                executable@,
                parts.view(),
            ) == Err::<Option<ProcessCommandView>, Seq<PartView>>(failure@),
        },
{
    let arguments = match value_texts(parts.arguments) {
        Ok(value) => value,
        Err(failure) => return Err(failure),
    };
    let environment = match read_variables(parts.environment) {
        Ok(value) => value,
        Err(failure) => return Err(failure),
    };
    match read_mode(parts.stdio.as_str()) {
        Some(stdio) => Ok(
            Some(
                ProcessCommand { executable: owned(executable), arguments, environment, cwd: owned(parts.cwd), stdio },
            ),
        ),
        None => Ok(None),
    }
}

/// A child as it is spawned: only piped streams can be taken from it.
pub open spec fn spawned_child(stdio: StdioMode) -> FileHandle {
    FileHandle::Child {
        stdin: stdio == StdioMode::Stream,
        stdout: stdio == StdioMode::Stream || stdio == StdioMode::Capture,
        stderr: stdio == StdioMode::Stream || stdio == StdioMode::Capture,
    }
}

fn new_child(stdio: StdioMode) -> (handle: FileHandle)
    ensures
        handle == spawned_child(stdio),
{
    FileHandle::Child {
        stdin: stdio == StdioMode::Stream,
        stdout: stdio == StdioMode::Stream || stdio == StdioMode::Capture,
        stderr: stdio == StdioMode::Stream || stdio == StdioMode::Capture,
    }
}

pub open spec fn process_run(ty: TypeView, args: Seq<ValueView>, run: RunView, session: SessionView) -> Outcome {
    match crate::execute::lists::given(args, 0, command_executable(args[0])) {
        Err(failure) => Err(HaltView::Failed(failure)),
        Ok(executable) => match crate::execute::lists::given(args, 1, crate::execute::values::as_policy(args[1])) {
            Err(failure) => Err(HaltView::Failed(failure)),
            Ok(policy) => if crate::execute::policy::scope_check(policy, CapabilityDomain::ProcessRun, executable) is Err {
                Ok((crate::execute::values::err_value(ty, "permission-denied"@), session))
            } else {
                match crate::execute::lists::given(args, 0, command_parts(args[0])) {
                    Err(failure) => Err(HaltView::Failed(failure)),
                    Ok(parts) => {
                        if parts.stdio == "stream"@ {
                            Ok(
                                (
                                    crate::execute::values::err_message(
                                        ty,
                                        "unsupported"@,
                                        "stream stdio requires process.spawn"@,
                                    ),
                                    session,
                                ),
                            )
                        } else {
                            match command_of(executable, parts) {
                                Err(failure) => Err(HaltView::Failed(failure)),
                                Ok(None) => Ok((crate::execute::values::err_value(ty, "invalid-input"@), session)),
                                Ok(Some(command)) => match crate::execute::session::asked(session, run, RequestView::RunProcess { command }) {
                                    Err(halt) => Err(halt),
                                    Ok((reply, session)) => match crate::execute::session::answer(ErrorFamily::Processes, ty, reply, Shape::Exit) {
                                        Err(failure) => Err(HaltView::Failed(failure)),
                                        Ok(value) => Ok((value, session)),
                                    },
                                },
                        }}
                    },
                }
            },
        },
    }
}

fn run_process_run(
    ty: &TypeRef,
    args: &Vec<RuntimeValue>,
    run: &Run,
    session: &mut Session,
) -> (result: Result<RuntimeValue, Halt>)
    requires
        old(session).well_formed(),
    ensures
        final(session).well_formed(),
        crate::execute::session::stepped(result, *final(session)) == process_run(
            view::type_ref(*ty),
            view::values(args@),
            run@,
            old(session)@,
        ),
{
    assert(view::values(args@).len() == args@.len());
    if args.len() == 0 {
        return Err(Halt::Failed(missing_argument()));
    }
    let executable = match read_executable(&args[0]) {
        Ok(value) => value,
        Err(failure) => return Err(Halt::Failed(failure)),
    };
    if args.len() <= 1 {
        return Err(Halt::Failed(missing_argument()));
    }
    let policy = match value_policy(&args[1]) {
        Ok(value) => value,
        Err(failure) => return Err(Halt::Failed(failure)),
    };
    if ensure_policy_scope(policy, CapabilityDomain::ProcessRun, executable).is_err() {
        return Ok(result_err(ty, "permission-denied"));
    }
    let parts = match read_parts(&args[0]) {
        Ok(value) => value,
        Err(failure) => return Err(Halt::Failed(failure)),
    };
    if same_text(parts.stdio.as_str(), "stream") {
        return Ok(result_err_message(ty, "unsupported", "stream stdio requires process.spawn"));
    }
    let command = match build_command(executable, &parts) {
        Ok(Some(command)) => command,
        Ok(None) => return Ok(result_err(ty, "invalid-input")),
        Err(failure) => return Err(Halt::Failed(failure)),
    };
    let request = HostRequest::RunProcess { command };
    let reply = match session.ask(run, request) {
        Ok(value) => value,
        Err(halt) => return Err(halt),
    };
    match read_answer(ErrorFamily::Processes, ty, reply, Shape::Exit) {
        Ok(value) => Ok(value),
        Err(failure) => Err(Halt::Failed(failure)),
    }
}

pub open spec fn process_spawn(ty: TypeView, args: Seq<ValueView>, run: RunView, session: SessionView) -> Outcome {
    match crate::execute::lists::given(args, 0, command_executable(args[0])) {
        Err(failure) => Err(HaltView::Failed(failure)),
        Ok(executable) => match crate::execute::lists::given(args, 1, crate::execute::values::as_policy(args[1])) {
            Err(failure) => Err(HaltView::Failed(failure)),
            Ok(policy) => if crate::execute::policy::scope_check(policy, CapabilityDomain::ProcessRun, executable) is Err {
                Ok((crate::execute::values::err_value(ty, "permission-denied"@), session))
            } else {
                match crate::execute::lists::given(args, 0, command_parts(args[0])) {
                    Err(failure) => Err(HaltView::Failed(failure)),
                    Ok(parts) => {
                        match command_of(executable, parts) {
                            Err(failure) => Err(HaltView::Failed(failure)),
                            Ok(None) => Ok((crate::execute::values::err_value(ty, "invalid-input"@), session)),
                            Ok(Some(command)) => if session.files.is_full() {
                                Ok((crate::execute::values::err_value(ty, "resource-exhausted"@), session))
                            } else {
                                match crate::execute::session::asked(
                                    session,
                                    run,
                                    RequestView::SpawnProcess { command, id: session.files.next },
                                ) {
                                    Err(halt) => Err(halt),
                                    Ok((reply, session)) => crate::execute::session::opened(
                                        ErrorFamily::Processes,
                                        ty,
                                        reply,
                                        spawned_child(command.stdio),
                                        HandleAccess::Process,
                                        session,
                                    ),
                                }
                            },
                        }
                    },
                }
            },
        },
    }
}

fn run_process_spawn(
    ty: &TypeRef,
    args: &Vec<RuntimeValue>,
    run: &Run,
    session: &mut Session,
) -> (result: Result<RuntimeValue, Halt>)
    requires
        old(session).well_formed(),
    ensures
        final(session).well_formed(),
        crate::execute::session::stepped(result, *final(session)) == process_spawn(
            view::type_ref(*ty),
            view::values(args@),
            run@,
            old(session)@,
        ),
{
    assert(view::values(args@).len() == args@.len());
    if args.len() == 0 {
        return Err(Halt::Failed(missing_argument()));
    }
    let executable = match read_executable(&args[0]) {
        Ok(value) => value,
        Err(failure) => return Err(Halt::Failed(failure)),
    };
    if args.len() <= 1 {
        return Err(Halt::Failed(missing_argument()));
    }
    let policy = match value_policy(&args[1]) {
        Ok(value) => value,
        Err(failure) => return Err(Halt::Failed(failure)),
    };
    if ensure_policy_scope(policy, CapabilityDomain::ProcessRun, executable).is_err() {
        return Ok(result_err(ty, "permission-denied"));
    }
    let parts = match read_parts(&args[0]) {
        Ok(value) => value,
        Err(failure) => return Err(Halt::Failed(failure)),
    };
    let command = match build_command(executable, &parts) {
        Ok(Some(command)) => command,
        Ok(None) => return Ok(result_err(ty, "invalid-input")),
        Err(failure) => return Err(Halt::Failed(failure)),
    };
    if session.files.at_capacity() {
        return Ok(result_err(ty, "resource-exhausted"));
    }
    let child = new_child(command.stdio);
    let request = HostRequest::SpawnProcess { command, id: session.files.next_id() };
    let reply = match session.ask(run, request) {
        Ok(value) => value,
        Err(halt) => return Err(halt),
    };
    open_answer(ErrorFamily::Processes, ty, reply, child, HandleAccess::Process, session)
}

pub open spec fn process_wait(ty: TypeView, args: Seq<ValueView>, run: RunView, session: SessionView) -> Outcome {
    match crate::execute::lists::given(args, 0, crate::execute::values::as_handle(args[0])) {
        Err(failure) => Err(HaltView::Failed(failure)),
        Ok(id) => {
            let after = SessionView { files: session.files.removed(id), ..session };
            match session.files.get(id) {
                Some(FileHandle::Child { .. }) => match crate::execute::session::asked(after, run, RequestView::WaitProcess { id }) {
                    Err(halt) => Err(halt),
                    Ok((reply, session)) => match crate::execute::session::answer(ErrorFamily::Processes, ty, reply, Shape::Exit) {
                        Err(failure) => Err(HaltView::Failed(failure)),
                        Ok(value) => Ok((value, session)),
                    },
                },
                _ => Ok((crate::execute::values::err_value(ty, "resource-closed"@), after)),
            }
        },
    }
}

fn run_process_wait(
    ty: &TypeRef,
    args: &Vec<RuntimeValue>,
    run: &Run,
    session: &mut Session,
) -> (result: Result<RuntimeValue, Halt>)
    requires
        old(session).well_formed(),
    ensures
        final(session).well_formed(),
        crate::execute::session::stepped(result, *final(session)) == process_wait(
            view::type_ref(*ty),
            view::values(args@),
            run@,
            old(session)@,
        ),
{
    assert(view::values(args@).len() == args@.len());
    if args.len() == 0 {
        return Err(Halt::Failed(missing_argument()));
    }
    let id = match value_handle(&args[0]) {
        Ok(value) => value,
        Err(failure) => return Err(Halt::Failed(failure)),
    };
    match session.files.remove(id) {
        Some(FileHandle::Child { .. }) => {}
        _ => return Ok(result_err(ty, "resource-closed")),
    }
    let request = HostRequest::WaitProcess { id };
    let reply = match session.ask(run, request) {
        Ok(value) => value,
        Err(halt) => return Err(halt),
    };
    match read_answer(ErrorFamily::Processes, ty, reply, Shape::Exit) {
        Ok(value) => Ok(value),
        Err(failure) => Err(Halt::Failed(failure)),
    }
}

pub open spec fn process_kill(ty: TypeView, args: Seq<ValueView>, run: RunView, session: SessionView) -> Outcome {
    match crate::execute::lists::given(args, 0, crate::execute::values::as_handle(args[0])) {
        Err(failure) => Err(HaltView::Failed(failure)),
        Ok(id) => match session.files.get(id) {
            Some(FileHandle::Child { .. }) => match crate::execute::session::asked(session, run, RequestView::KillProcess { id }) {
                Err(halt) => Err(halt),
                Ok((reply, session)) => match crate::execute::session::answer(ErrorFamily::Processes, ty, reply, Shape::Nothing) {
                    Err(failure) => Err(HaltView::Failed(failure)),
                    Ok(value) => Ok((value, session)),
                },
            },
            _ => Ok((crate::execute::values::err_value(ty, "resource-closed"@), session)),
        },
    }
}

fn run_process_kill(
    ty: &TypeRef,
    args: &Vec<RuntimeValue>,
    run: &Run,
    session: &mut Session,
) -> (result: Result<RuntimeValue, Halt>)
    requires
        old(session).well_formed(),
    ensures
        final(session).well_formed(),
        crate::execute::session::stepped(result, *final(session)) == process_kill(
            view::type_ref(*ty),
            view::values(args@),
            run@,
            old(session)@,
        ),
{
    assert(view::values(args@).len() == args@.len());
    if args.len() == 0 {
        return Err(Halt::Failed(missing_argument()));
    }
    let id = match value_handle(&args[0]) {
        Ok(value) => value,
        Err(failure) => return Err(Halt::Failed(failure)),
    };
    match session.files.get(id) {
        Some(FileHandle::Child { .. }) => {}
        _ => return Ok(result_err(ty, "resource-closed")),
    }
    let request = HostRequest::KillProcess { id };
    let reply = match session.ask(run, request) {
        Ok(value) => value,
        Err(halt) => return Err(halt),
    };
    match read_answer(ErrorFamily::Processes, ty, reply, Shape::Nothing) {
        Ok(value) => Ok(value),
        Err(failure) => Err(Halt::Failed(failure)),
    }
}

pub open spec fn process_child_stdin(ty: TypeView, args: Seq<ValueView>, run: RunView, session: SessionView) -> Outcome {
    match crate::execute::lists::given(args, 0, crate::execute::values::as_handle(args[0])) {
        Err(failure) => Err(HaltView::Failed(failure)),
        Ok(id) => if session.files.is_full() {
            Ok((crate::execute::values::err_value(ty, "resource-exhausted"@), session))
        } else {
            match session.files.get(id) {
                Some(FileHandle::Child { stdin, stdout, stderr }) => if stdin {
                    match crate::execute::session::asked(
                        session,
                        run,
                        RequestView::TakePipe { child: id, pipe: PipeKind::Stdin, id: session.files.next },
                    ) {
                        Err(halt) => Err(halt),
                        Ok((reply, session)) => crate::execute::session::opened(
                            ErrorFamily::Processes,
                            ty,
                            reply,
                            FileHandle::ChildStdin,
                            HandleAccess::Write,
                            SessionView { files: session.files.replaced(id, FileHandle::Child { stdin: false, stdout, stderr }), ..session },
                        ),
                    }
                } else {
                    Ok((crate::execute::values::err_value(ty, "unavailable"@), session))
                },
                _ => Ok((crate::execute::values::err_value(ty, "resource-closed"@), session)),
            }
        },
    }
}

fn run_process_child_stdin(
    ty: &TypeRef,
    args: &Vec<RuntimeValue>,
    run: &Run,
    session: &mut Session,
) -> (result: Result<RuntimeValue, Halt>)
    requires
        old(session).well_formed(),
    ensures
        final(session).well_formed(),
        crate::execute::session::stepped(result, *final(session)) == process_child_stdin(
            view::type_ref(*ty),
            view::values(args@),
            run@,
            old(session)@,
        ),
{
    assert(view::values(args@).len() == args@.len());
    if args.len() == 0 {
        return Err(Halt::Failed(missing_argument()));
    }
    let id = match value_handle(&args[0]) {
        Ok(value) => value,
        Err(failure) => return Err(Halt::Failed(failure)),
    };
    if session.files.at_capacity() {
        return Ok(result_err(ty, "resource-exhausted"));
    }
    match session.files.get(id) {
        Some(FileHandle::Child { stdin, stdout, stderr }) => {
            if !stdin {
                return Ok(result_err(ty, "unavailable"));
            }
            let request = HostRequest::TakePipe { child: id, pipe: PipeKind::Stdin, id: session.files.next_id() };
            let reply = match session.ask(run, request) {
                Ok(value) => value,
                Err(halt) => return Err(halt),
            };
            session.files.replace(id, FileHandle::Child { stdin: false, stdout, stderr });
            open_answer(ErrorFamily::Processes, ty, reply, FileHandle::ChildStdin, HandleAccess::Write, session)
        }
        _ => Ok(result_err(ty, "resource-closed")),
    }
}

pub open spec fn process_child_stdout(ty: TypeView, args: Seq<ValueView>, run: RunView, session: SessionView) -> Outcome {
    match crate::execute::lists::given(args, 0, crate::execute::values::as_handle(args[0])) {
        Err(failure) => Err(HaltView::Failed(failure)),
        Ok(id) => if session.files.is_full() {
            Ok((crate::execute::values::err_value(ty, "resource-exhausted"@), session))
        } else {
            match session.files.get(id) {
                Some(FileHandle::Child { stdin, stdout, stderr }) => if stdout {
                    match crate::execute::session::asked(
                        session,
                        run,
                        RequestView::TakePipe { child: id, pipe: PipeKind::Stdout, id: session.files.next },
                    ) {
                        Err(halt) => Err(halt),
                        Ok((reply, session)) => crate::execute::session::opened(
                            ErrorFamily::Processes,
                            ty,
                            reply,
                            FileHandle::ChildStdout,
                            HandleAccess::Read,
                            SessionView { files: session.files.replaced(id, FileHandle::Child { stdin, stdout: false, stderr }), ..session },
                        ),
                    }
                } else {
                    Ok((crate::execute::values::err_value(ty, "unavailable"@), session))
                },
                _ => Ok((crate::execute::values::err_value(ty, "resource-closed"@), session)),
            }
        },
    }
}

fn run_process_child_stdout(
    ty: &TypeRef,
    args: &Vec<RuntimeValue>,
    run: &Run,
    session: &mut Session,
) -> (result: Result<RuntimeValue, Halt>)
    requires
        old(session).well_formed(),
    ensures
        final(session).well_formed(),
        crate::execute::session::stepped(result, *final(session)) == process_child_stdout(
            view::type_ref(*ty),
            view::values(args@),
            run@,
            old(session)@,
        ),
{
    assert(view::values(args@).len() == args@.len());
    if args.len() == 0 {
        return Err(Halt::Failed(missing_argument()));
    }
    let id = match value_handle(&args[0]) {
        Ok(value) => value,
        Err(failure) => return Err(Halt::Failed(failure)),
    };
    if session.files.at_capacity() {
        return Ok(result_err(ty, "resource-exhausted"));
    }
    match session.files.get(id) {
        Some(FileHandle::Child { stdin, stdout, stderr }) => {
            if !stdout {
                return Ok(result_err(ty, "unavailable"));
            }
            let request = HostRequest::TakePipe { child: id, pipe: PipeKind::Stdout, id: session.files.next_id() };
            let reply = match session.ask(run, request) {
                Ok(value) => value,
                Err(halt) => return Err(halt),
            };
            session.files.replace(id, FileHandle::Child { stdin, stdout: false, stderr });
            open_answer(ErrorFamily::Processes, ty, reply, FileHandle::ChildStdout, HandleAccess::Read, session)
        }
        _ => Ok(result_err(ty, "resource-closed")),
    }
}

pub open spec fn process_child_stderr(ty: TypeView, args: Seq<ValueView>, run: RunView, session: SessionView) -> Outcome {
    match crate::execute::lists::given(args, 0, crate::execute::values::as_handle(args[0])) {
        Err(failure) => Err(HaltView::Failed(failure)),
        Ok(id) => if session.files.is_full() {
            Ok((crate::execute::values::err_value(ty, "resource-exhausted"@), session))
        } else {
            match session.files.get(id) {
                Some(FileHandle::Child { stdin, stdout, stderr }) => if stderr {
                    match crate::execute::session::asked(
                        session,
                        run,
                        RequestView::TakePipe { child: id, pipe: PipeKind::Stderr, id: session.files.next },
                    ) {
                        Err(halt) => Err(halt),
                        Ok((reply, session)) => crate::execute::session::opened(
                            ErrorFamily::Processes,
                            ty,
                            reply,
                            FileHandle::ChildStderr,
                            HandleAccess::Read,
                            SessionView { files: session.files.replaced(id, FileHandle::Child { stdin, stdout, stderr: false }), ..session },
                        ),
                    }
                } else {
                    Ok((crate::execute::values::err_value(ty, "unavailable"@), session))
                },
                _ => Ok((crate::execute::values::err_value(ty, "resource-closed"@), session)),
            }
        },
    }
}

fn run_process_child_stderr(
    ty: &TypeRef,
    args: &Vec<RuntimeValue>,
    run: &Run,
    session: &mut Session,
) -> (result: Result<RuntimeValue, Halt>)
    requires
        old(session).well_formed(),
    ensures
        final(session).well_formed(),
        crate::execute::session::stepped(result, *final(session)) == process_child_stderr(
            view::type_ref(*ty),
            view::values(args@),
            run@,
            old(session)@,
        ),
{
    assert(view::values(args@).len() == args@.len());
    if args.len() == 0 {
        return Err(Halt::Failed(missing_argument()));
    }
    let id = match value_handle(&args[0]) {
        Ok(value) => value,
        Err(failure) => return Err(Halt::Failed(failure)),
    };
    if session.files.at_capacity() {
        return Ok(result_err(ty, "resource-exhausted"));
    }
    match session.files.get(id) {
        Some(FileHandle::Child { stdin, stdout, stderr }) => {
            if !stderr {
                return Ok(result_err(ty, "unavailable"));
            }
            let request = HostRequest::TakePipe { child: id, pipe: PipeKind::Stderr, id: session.files.next_id() };
            let reply = match session.ask(run, request) {
                Ok(value) => value,
                Err(halt) => return Err(halt),
            };
            session.files.replace(id, FileHandle::Child { stdin, stdout, stderr: false });
            open_answer(ErrorFamily::Processes, ty, reply, FileHandle::ChildStderr, HandleAccess::Read, session)
        }
        _ => Ok(result_err(ty, "resource-closed")),
    }
}

/// What an operation on processes does; nothing for any other name.
pub open spec fn processes(name: Seq<char>, ty: TypeView, args: Seq<ValueView>, run: RunView, session: SessionView) -> Option<Outcome> {
    if name == "process_run"@ {
        Some(process_run(ty, args, run, session))
    } else if name == "process_spawn"@ {
        Some(process_spawn(ty, args, run, session))
    } else if name == "process_wait"@ {
        Some(process_wait(ty, args, run, session))
    } else if name == "process_kill"@ {
        Some(process_kill(ty, args, run, session))
    } else if name == "process_child_stdin"@ {
        Some(process_child_stdin(ty, args, run, session))
    } else if name == "process_child_stdout"@ {
        Some(process_child_stdout(ty, args, run, session))
    } else if name == "process_child_stderr"@ {
        Some(process_child_stderr(ty, args, run, session))
    } else {
        None
    }
}

pub(crate) fn run_processes(
    name: &str,
    ty: &TypeRef,
    args: &Vec<RuntimeValue>,
    run: &Run,
    session: &mut Session,
) -> (result: Option<Result<RuntimeValue, Halt>>)
    requires
        old(session).well_formed(),
    ensures
        final(session).well_formed(),
        match result {
            Some(result) => processes(
                name@,
                view::type_ref(*ty),
                view::values(args@),
                run@,
                old(session)@,
            ) == Some(crate::execute::session::stepped(result, *final(session))),
            None => processes(
                name@,
                view::type_ref(*ty),
                view::values(args@),
                run@,
                old(session)@,
            ) is None && final(session)@ == old(session)@,
        },
{
    assert(view::values(args@).len() == args@.len());
    if same_text(name, "process_run") {
        Some(run_process_run(ty, args, run, session))
    } else if same_text(name, "process_spawn") {
        Some(run_process_spawn(ty, args, run, session))
    } else if same_text(name, "process_wait") {
        Some(run_process_wait(ty, args, run, session))
    } else if same_text(name, "process_kill") {
        Some(run_process_kill(ty, args, run, session))
    } else if same_text(name, "process_child_stdin") {
        Some(run_process_child_stdin(ty, args, run, session))
    } else if same_text(name, "process_child_stdout") {
        Some(run_process_child_stdout(ty, args, run, session))
    } else if same_text(name, "process_child_stderr") {
        Some(run_process_child_stderr(ty, args, run, session))
    } else {
        None
    }
}

} // verus!
