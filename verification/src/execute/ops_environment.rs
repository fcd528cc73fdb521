//! Environment variables.
use vstd::prelude::*;
use crate::execute::host_view::RequestView;
use crate::lowered::ir::{RuntimeValue, TypeRef};
use crate::lowered::view::{self, TypeView, ValueView};
use crate::execute::environment::{
    get_variable, is_valid_env_name, list_readable, names_of, remove_variable, set_variable,
};
use crate::execute::host::{HostReply, HostRequest};
use crate::execute::host_view::ReplyView;
use crate::execute::lists::{optional_text, missing_argument};
use crate::execute::policy::ensure_policy_scope;
use crate::execute::session::{
    read_answer, unexpected_reply, ErrorFamily, Halt, HaltView, Outcome, Run, RunView, Session, SessionView, Shape,
};
use crate::execute::values::{ok_or_error, result_err, result_ok, runtime_texts, value_policy, value_str};
use crate::lowered::ir::CapabilityDomain;
use crate::text::{owned, same_text};

verus! {

pub open spec fn env_get(ty: TypeView, args: Seq<ValueView>, run: RunView, session: SessionView) -> Outcome {
    match crate::execute::lists::given(args, 0, crate::execute::values::as_text(args[0])) {
        Err(failure) => Err(HaltView::Failed(failure)),
        Ok(name) => match crate::execute::lists::given(args, 1, crate::execute::values::as_policy(args[1])) {
            Err(failure) => Err(HaltView::Failed(failure)),
            Ok(policy) => if crate::execute::policy::scope_check(policy, CapabilityDomain::EnvRead, name) is Err {
                Ok((crate::execute::values::err_value(ty, "permission-denied"@), session))
            } else {
                match session.environment {
                    Some(pairs) => Ok(
                        (
                            crate::execute::values::or_error(
                                ty,
                                crate::execute::lists::text_option(
                                    crate::execute::environment::variable(pairs, name),
                                ),
                                "not-found"@,
                            ),
                            session,
                        ),
                    ),
                    None => match crate::execute::session::asked(session, run, RequestView::EnvGet { name }) {
                        Err(halt) => Err(halt),
                        Ok((reply, session)) => match crate::execute::session::answer(ErrorFamily::Files, ty, reply, Shape::Text) {
                            Err(failure) => Err(HaltView::Failed(failure)),
                            Ok(value) => Ok((value, session)),
                        },
                    },
                }
            },
        },
    }
}

fn run_env_get(
    ty: &TypeRef,
    args: &Vec<RuntimeValue>,
    run: &Run,
    session: &mut Session,
) -> (result: Result<RuntimeValue, Halt>)
    requires
        old(session).well_formed(),
    ensures
        final(session).well_formed(),
        crate::execute::session::stepped(result, *final(session)) == env_get(
            view::type_ref(*ty),
            view::values(args@),
            run@,
            old(session)@,
        ),
{
    assert(view::values(args@).len() == args@.len());
    if args.len() == 0 {
        return Err(Halt::Failed(missing_argument()));
    }
    let name = match value_str(&args[0]) {
        Ok(value) => value,
        Err(failure) => return Err(Halt::Failed(failure)),
    };
    if args.len() <= 1 {
        return Err(Halt::Failed(missing_argument()));
    }
    let policy = match value_policy(&args[1]) {
        Ok(value) => value,
        Err(failure) => return Err(Halt::Failed(failure)),
    };
    if ensure_policy_scope(policy, CapabilityDomain::EnvRead, name).is_err() {
        return Ok(result_err(ty, "permission-denied"));
    }
    match &session.environment {
        Some(pairs) => {
            let found = get_variable(pairs, name);
            return Ok(ok_or_error(ty, optional_text(found), "not-found"));
        }
        None => {}
    }
    let request = HostRequest::EnvGet { name: owned(name) };
    let reply = match session.ask(run, request) {
        Ok(value) => value,
        Err(halt) => return Err(halt),
    };
    match read_answer(ErrorFamily::Files, ty, reply, Shape::Text) {
        Ok(value) => Ok(value),
        Err(failure) => Err(Halt::Failed(failure)),
    }
}

pub open spec fn env_set(ty: TypeView, args: Seq<ValueView>, run: RunView, session: SessionView) -> Outcome {
    match crate::execute::lists::given(args, 0, crate::execute::values::as_text(args[0])) {
        Err(failure) => Err(HaltView::Failed(failure)),
        Ok(name) => match crate::execute::lists::given(args, 1, crate::execute::values::as_text(args[1])) {
            Err(failure) => Err(HaltView::Failed(failure)),
            Ok(value) => match crate::execute::lists::given(args, 2, crate::execute::values::as_policy(args[2])) {
                Err(failure) => Err(HaltView::Failed(failure)),
                Ok(policy) => if crate::execute::policy::scope_check(policy, CapabilityDomain::EnvWrite, name) is Err {
                    Ok((crate::execute::values::err_value(ty, "permission-denied"@), session))
                } else if !crate::execute::environment::valid_name(name) {
                    Ok((crate::execute::values::err_value(ty, "invalid-name"@), session))
                } else {
                    match session.environment {
                        Some(pairs) => Ok(
                            (
                                crate::execute::values::ok_value(ty, ValueView::Void),
                                SessionView {
                                    environment: Some(crate::execute::environment::with_variable(pairs, name, value)),
                                    ..session
                                },
                            ),
                        ),
                        None => match crate::execute::session::asked(session, run, RequestView::EnvSet { name, value }) {
                            Err(halt) => Err(halt),
                            Ok((_, session)) => Ok((crate::execute::values::ok_value(ty, ValueView::Void), session)),
                        },
                    }
                },
            },
        },
    }
}

fn run_env_set(
    ty: &TypeRef,
    args: &Vec<RuntimeValue>,
    run: &Run,
    session: &mut Session,
) -> (result: Result<RuntimeValue, Halt>)
    requires
        old(session).well_formed(),
    ensures
        final(session).well_formed(),
        crate::execute::session::stepped(result, *final(session)) == env_set(
            view::type_ref(*ty),
            view::values(args@),
            run@,
            old(session)@,
        ),
{
    assert(view::values(args@).len() == args@.len());
    if args.len() == 0 {
        return Err(Halt::Failed(missing_argument()));
    }
    let name = match value_str(&args[0]) {
        Ok(value) => value,
        Err(failure) => return Err(Halt::Failed(failure)),
    };
    if args.len() <= 1 {
        return Err(Halt::Failed(missing_argument()));
    }
    let text = match value_str(&args[1]) {
        Ok(value) => value,
        Err(failure) => return Err(Halt::Failed(failure)),
    };
    if args.len() <= 2 {
        return Err(Halt::Failed(missing_argument()));
    }
    let policy = match value_policy(&args[2]) {
        Ok(value) => value,
        Err(failure) => return Err(Halt::Failed(failure)),
    };
    if ensure_policy_scope(policy, CapabilityDomain::EnvWrite, name).is_err() {
        return Ok(result_err(ty, "permission-denied"));
    }
    if !is_valid_env_name(name) {
        return Ok(result_err(ty, "invalid-name"));
    }
    match &mut session.environment {
        Some(pairs) => {
            set_variable(pairs, name, text);
            return Ok(result_ok(ty, RuntimeValue::Void));
        }
        None => {}
    }
    let request = HostRequest::EnvSet { name: owned(name), value: owned(text) };
    match session.ask(run, request) {
        Ok(_) => Ok(result_ok(ty, RuntimeValue::Void)),
        Err(halt) => Err(halt),
    }
}

pub open spec fn env_remove(ty: TypeView, args: Seq<ValueView>, run: RunView, session: SessionView) -> Outcome {
    match crate::execute::lists::given(args, 0, crate::execute::values::as_text(args[0])) {
        Err(failure) => Err(HaltView::Failed(failure)),
        Ok(name) => match crate::execute::lists::given(args, 1, crate::execute::values::as_policy(args[1])) {
            Err(failure) => Err(HaltView::Failed(failure)),
            Ok(policy) => if crate::execute::policy::scope_check(policy, CapabilityDomain::EnvWrite, name) is Err {
                Ok((crate::execute::values::err_value(ty, "permission-denied"@), session))
            } else if !crate::execute::environment::valid_name(name) {
                Ok((crate::execute::values::err_value(ty, "invalid-name"@), session))
            } else {
                match session.environment {
                    Some(pairs) => Ok(
                        (
                            crate::execute::values::ok_value(ty, ValueView::Void),
                            SessionView {
                                environment: Some(crate::execute::environment::without_variable(pairs, name)),
                                ..session
                            },
                        ),
                    ),
                    None => match crate::execute::session::asked(session, run, RequestView::EnvRemove { name }) {
                        Err(halt) => Err(halt),
                        Ok((_, session)) => Ok((crate::execute::values::ok_value(ty, ValueView::Void), session)),
                    },
                }
            },
        },
    }
}

fn run_env_remove(
    ty: &TypeRef,
    args: &Vec<RuntimeValue>,
    run: &Run,
    session: &mut Session,
) -> (result: Result<RuntimeValue, Halt>)
    requires
        old(session).well_formed(),
    ensures
        final(session).well_formed(),
        crate::execute::session::stepped(result, *final(session)) == env_remove(
            view::type_ref(*ty),
            view::values(args@),
            run@,
            old(session)@,
        ),
{
    assert(view::values(args@).len() == args@.len());
    if args.len() == 0 {
        return Err(Halt::Failed(missing_argument()));
    }
    let name = match value_str(&args[0]) {
        Ok(value) => value,
        Err(failure) => return Err(Halt::Failed(failure)),
    };
    if args.len() <= 1 {
        return Err(Halt::Failed(missing_argument()));
    }
    let policy = match value_policy(&args[1]) {
        Ok(value) => value,
        Err(failure) => return Err(Halt::Failed(failure)),
    };
    if ensure_policy_scope(policy, CapabilityDomain::EnvWrite, name).is_err() {
        return Ok(result_err(ty, "permission-denied"));
    }
    if !is_valid_env_name(name) {
        return Ok(result_err(ty, "invalid-name"));
    }
    match &mut session.environment {
        Some(pairs) => {
            remove_variable(pairs, name);
            return Ok(result_ok(ty, RuntimeValue::Void));
        }
        None => {}
    }
    let request = HostRequest::EnvRemove { name: owned(name) };
    match session.ask(run, request) {
        Ok(_) => Ok(result_ok(ty, RuntimeValue::Void)),
        Err(halt) => Err(halt),
    }
}

pub open spec fn env_list(args: Seq<ValueView>, run: RunView, session: SessionView) -> Outcome {
    match crate::execute::lists::given(args, 0, crate::execute::values::as_policy(args[0])) {
        Err(failure) => Err(HaltView::Failed(failure)),
        Ok(policy) => match session.environment {
            Some(pairs) => Ok(
                (
                    crate::execute::values::text_array(
                        crate::execute::environment::readable_names(
                            crate::execute::environment::variable_names(pairs),
                            policy,
                        ),
                    ),
                    session,
                ),
            ),
            None => match crate::execute::session::asked(session, run, RequestView::EnvNames) {
                Err(halt) => Err(halt),
                Ok((reply, session)) => match reply {
                    ReplyView::Texts(names) => Ok(
                        (
                            crate::execute::values::text_array(
                                crate::execute::environment::readable_names(names, policy),
                            ),
                            session,
                        ),
                    ),
                    _ => Err(HaltView::Failed(crate::execute::session::unexpected())),
                },
            },
        },
    }
}

fn run_env_list(args: &Vec<RuntimeValue>, run: &Run, session: &mut Session) -> (result: Result<RuntimeValue, Halt>)
    requires
        old(session).well_formed(),
    ensures
        final(session).well_formed(),
        crate::execute::session::stepped(result, *final(session)) == env_list(
            view::values(args@),
            run@,
            old(session)@,
        ),
{
    assert(view::values(args@).len() == args@.len());
    if args.len() == 0 {
        return Err(Halt::Failed(missing_argument()));
    }
    let policy = match value_policy(&args[0]) {
        Ok(value) => value,
        Err(failure) => return Err(Halt::Failed(failure)),
    };
    match &session.environment {
        Some(pairs) => {
            let names = names_of(pairs);
            return Ok(runtime_texts(&list_readable(&names, policy)));
        }
        None => {}
    }
    let request = HostRequest::EnvNames;
    let reply = match session.ask(run, request) {
        Ok(value) => value,
        Err(halt) => return Err(halt),
    };
    match reply {
        HostReply::Texts(names) => Ok(runtime_texts(&list_readable(names, policy))),
        _ => Err(Halt::Failed(unexpected_reply())),
    }
}

/// What an operation on environment variables does; nothing for any other name.
pub open spec fn environment(name: Seq<char>, ty: TypeView, args: Seq<ValueView>, run: RunView, session: SessionView) -> Option<Outcome> {
    if name == "env_get"@ {
        Some(env_get(ty, args, run, session))
    } else if name == "env_set"@ {
        Some(env_set(ty, args, run, session))
    } else if name == "env_remove"@ {
        Some(env_remove(ty, args, run, session))
    } else if name == "env_list"@ {
        Some(env_list(args, run, session))
    } else {
        None
    }
}

pub(crate) fn run_environment(
    name: &str,
    ty: &TypeRef,
    args: &Vec<RuntimeValue>,
    run: &Run,
    session: &mut Session,
) -> (result: Option<Result<RuntimeValue, Halt>>)
    requires
        old(session).well_formed(),
    ensures
        final(session).well_formed(),
        match result {
            Some(result) => environment(
                name@,
                view::type_ref(*ty),
                view::values(args@),
                run@,
                old(session)@,
            ) == Some(crate::execute::session::stepped(result, *final(session))),
            None => environment(
                name@,
                view::type_ref(*ty),
                view::values(args@),
                run@,
                old(session)@,
            ) is None && final(session)@ == old(session)@,
        },
{
    assert(view::values(args@).len() == args@.len());
    if same_text(name, "env_get") {
        Some(run_env_get(ty, args, run, session))
    } else if same_text(name, "env_set") {
        Some(run_env_set(ty, args, run, session))
    } else if same_text(name, "env_remove") {
        Some(run_env_remove(ty, args, run, session))
    } else if same_text(name, "env_list") {
        Some(run_env_list(args, run, session))
    } else {
        None
    }
}

} // verus!
