//! Calls of host imports.
use vstd::prelude::*;
use crate::execute::failure::{Failure, PartView};
use crate::execute::lists::too_few_arguments;
use crate::execute::ops_bytes::run_bytes;
use crate::execute::ops_collections::run_collections;
use crate::execute::ops_environment::run_environment;
use crate::execute::ops_files::run_file_system;
use crate::execute::ops_network::run_network;
use crate::execute::ops_process::run_processes;
use crate::execute::ops_streams::run_streams;
use crate::execute::ops_system::run_system;
use crate::execute::ops_text::run_texts;
use crate::execute::primitive::settle;
use crate::execute::semantics;
use crate::execute::session::{Halt, Run, Session};
use crate::execute::values::{value_bool, value_eq, value_policy, value_str};
use crate::lowered::ir::{HostImport, HostImportName, ParamKind, RuntimeValue, TypeRef};
use crate::lowered::view;
use crate::text::{concat_five, concat_three, decimal_text, same_text};

verus! {

/// An operation of the standard module.
pub fn exec_vibra_v1(name: &str, ty: &TypeRef, args: &Vec<RuntimeValue>, run: &Run, session: &mut Session) -> (result: Result<
    RuntimeValue,
    Halt,
>)
    requires
        old(session).well_formed(),
    ensures
        final(session).well_formed(),
        crate::execute::session::stepped(result, *final(session)) == semantics::vibra_v1(
            name@,
            view::type_ref(*ty),
            view::values(args@),
            run@,
            old(session)@,
        ),
{
    reveal(semantics::vibra_v1);
    let limit: usize = run.config.max_alloc_len;
    match run_collections(name, ty, args, limit, &session.cells) {
        Some(result) => return settle(result),
        None => {}
    }
    match run_texts(name, ty, args, limit, &session.cells) {
        Some(result) => return settle(result),
        None => {}
    }
    match run_bytes(name, ty, args, limit, &session.cells) {
        Some(result) => return settle(result),
        None => {}
    }
    match run_streams(name, ty, args, run, session) {
        Some(result) => return result,
        None => {}
    }
    match run_file_system(name, ty, args, run, session) {
        Some(result) => return result,
        None => {}
    }
    match run_environment(name, ty, args, run, session) {
        Some(result) => return result,
        None => {}
    }
    match run_network(name, ty, args, run, session) {
        Some(result) => return result,
        None => {}
    }
    match run_processes(name, ty, args, run, session) {
        Some(result) => return result,
        None => {}
    }
    match run_system(name, ty, args, run, session) {
        Some(result) => return result,
        None => {}
    }
    let text = concat_three("unsupported vibra_v1 import `", name, "`");
    Err(Halt::Failed(Failure::text(text.as_str())))
}

/// An operation of the test module.
pub fn exec_vibra_test(name: &str, args: &Vec<RuntimeValue>, session: &Session) -> (result: Result<RuntimeValue, Halt>)
    ensures
        crate::execute::session::stepped(result, *session) == semantics::vibra_test(
            name@,
            view::values(args@),
            session@,
        ),
{
    assert(view::values(args@).len() == args@.len());
    if same_text(name, "assert") {
        if args.len() < 1 {
            return Err(Halt::Failed(too_few_arguments(name)));
        }
        match value_bool(&args[0]) {
            Ok(true) => Ok(RuntimeValue::Void),
            Ok(false) => Err(Halt::Failed(Failure::text("assertion failed"))),
            Err(failure) => Err(Halt::Failed(failure)),
        }
    } else if same_text(name, "fail") {
        if args.len() < 1 {
            return Err(Halt::Failed(too_few_arguments(name)));
        }
        match value_str(&args[0]) {
            Ok(text) => Err(Halt::Failed(Failure::text(text))),
            Err(failure) => Err(Halt::Failed(failure)),
        }
    } else if same_text(name, "assert-eq-bool") || same_text(name, "assert-eq-int") || same_text(
        name,
        "assert-eq-float",
    ) || same_text(name, "assert-eq-str") {
        if args.len() < 2 {
            return Err(Halt::Failed(too_few_arguments(name)));
        }
        assert(view::values(session.cells@).len() == session.cells@.len());
        if value_eq(&args[0], &args[1], &session.cells, session.cells.len()) {
            Ok(RuntimeValue::Void)
        } else {
            Err(Halt::Failed(Failure::mismatch(&args[1], &args[0])))
        }
    } else {
        let text = concat_three("unsupported vibra_test import `", name, "`");
        Err(Halt::Failed(Failure::text(text.as_str())))
    }
}

fn capability_context(import: &HostImportName, position: usize) -> (text: String)
    ensures
        text@ == "host import `"@ + import.module@ + "."@ + import.name@
            + "` requires a `$policy` capability in position "@ + crate::text::decimal(position as nat) + ": "@,
{
    let number = decimal_text(position as u64);
    let mut text = concat_five(
        "host import `",
        import.module.as_str(),
        ".",
        import.name.as_str(),
        "` requires a `$policy` capability in position ",
    );
    text.append(number.as_str());
    text.append(": ");
    text
}

/// Checks that every capability position holds a narrowed capability.
fn check_capabilities(params: &Vec<ParamKind>, args: &Vec<RuntimeValue>, import: &HostImportName) -> (result: Result<
    (),
    Failure,
>)
    ensures
        match result {
            Ok(_) => semantics::capability_check(
                params@,
                0,
                view::values(args@),
                view::host_import_name(*import),
            ) is Ok,
            Err(failure) => semantics::capability_check(
                params@,
                0,
                view::values(args@),
                view::host_import_name(*import),
            ) == Err::<(), Seq<PartView>>(failure@),
        },
{
    let ghost all = view::values(args@);
    let ghost name = view::host_import_name(*import);
    let mut i: usize = 0;
    while i < params.len() && i < args.len()
        invariant
            i <= params.len(),
            all == view::values(args@),
            name == view::host_import_name(*import),
            semantics::capability_check(params@, 0, all, name) == semantics::capability_check(
                params@,
                i as int,
                all,
                name,
            ),
        decreases params.len() - i,
    {
        assert(all[i as int] == view::value(args@[i as int]));
        match params[i] {
            ParamKind::Plain => {}
            ParamKind::Capability(_) => match value_policy(&args[i]) {
                Ok(_) => {}
                Err(failure) => {
                    let context = capability_context(import, i);
                    return Err(failure.within(context.as_str()));
                }
            },
        }
        i += 1;
    }
    Ok(())
}

/// Calls a host import with its arguments evaluated.
pub fn call_host(
    import: &HostImportName,
    entry: &HostImport,
    ty: &TypeRef,
    args: &Vec<RuntimeValue>,
    run: &Run,
    session: &mut Session,
) -> (result: Result<RuntimeValue, Halt>)
    requires
        old(session).well_formed(),
    ensures
        final(session).well_formed(),
        crate::execute::session::stepped(result, *final(session)) == semantics::host_called(
            view::host_import_name(*import),
            view::host_import(*entry),
            view::type_ref(*ty),
            view::values(args@),
            run@,
            old(session)@,
        ),
{
    match check_capabilities(&entry.params, args, import) {
        Ok(_) => {}
        Err(failure) => return Err(Halt::Failed(failure)),
    }
    if same_text(import.module.as_str(), "vibra_v1") {
        exec_vibra_v1(import.name.as_str(), ty, args, run, session)
    } else if same_text(import.module.as_str(), "vibra_test") {
        exec_vibra_test(import.name.as_str(), args, session)
    } else {
        let text = concat_three("unsupported host module `", import.module.as_str(), "`");
        Err(Halt::Failed(Failure::text(text.as_str())))
    }
}

fn find_import<'a>(imports: &'a Vec<HostImport>, name: &HostImportName) -> (result: Option<&'a HostImport>)
    ensures
        match result {
            Some(entry) => semantics::import_from(
                view::host_imports(imports@),
                0,
                view::host_import_name(*name),
            ) == Some(view::host_import(*entry)),
            None => semantics::import_from(view::host_imports(imports@), 0, view::host_import_name(*name)) is None,
        },
{
    let ghost all = view::host_imports(imports@);
    let ghost wanted = view::host_import_name(*name);
    let mut i: usize = 0;
    while i < imports.len()
        invariant
            i <= imports.len(),
            all == view::host_imports(imports@),
            wanted == view::host_import_name(*name),
            semantics::import_from(all, 0, wanted) == semantics::import_from(all, i as int, wanted),
        decreases imports.len() - i,
    {
        assert(all[i as int] == view::host_import(imports@[i as int]));
        if same_text(imports[i].module.as_str(), name.module.as_str()) && same_text(
            imports[i].name.as_str(),
            name.name.as_str(),
        ) {
            return Some(&imports[i]);
        }
        i += 1;
    }
    None
}

/// The host import that a wrapper targets, when it takes `count` arguments.
pub(crate) fn target<'a>(symbol: &str, import: &HostImportName, count: usize, run: &Run<'a>) -> (result: Result<
    &'a HostImport,
    Failure,
>)
    ensures
        match result {
            Ok(entry) => semantics::targeted(symbol@, view::host_import_name(*import), count as nat, run@) == Ok::<
                crate::lowered::view::HostImportView,
                Seq<PartView>,
            >(view::host_import(*entry)),
            Err(failure) => semantics::targeted(symbol@, view::host_import_name(*import), count as nat, run@) == Err::<
                crate::lowered::view::HostImportView,
                Seq<PartView>,
            >(failure@),
        },
{
    let entry = match find_import(&run.program.imports, import) {
        Some(entry) => entry,
        None => {
            let mut text = concat_three("E-WASM-002: `", symbol, "` targets unknown host import `");
            text.append(import.module.as_str());
            text.append(".");
            text.append(import.name.as_str());
            text.append("`");
            return Err(Failure::text(text.as_str()));
        }
    };
    if count != entry.params.len() {
        let passed = decimal_text(count as u64);
        let taken = decimal_text(entry.params.len() as u64);
        let mut text = concat_three("E-WASM-003: `", symbol, "` passes ");
        text.append(passed.as_str());
        text.append(" args to host import `");
        text.append(import.module.as_str());
        text.append(".");
        text.append(import.name.as_str());
        text.append("` which takes ");
        text.append(taken.as_str());
        return Err(Failure::text(text.as_str()));
    }
    Ok(entry)
}

} // verus!
