use vibra::body_semantics::{validate_function_body, validate_task_handles, validate_unhandled_values};
use vibra::effect_inference::{
    call_edges_for_statements, effect_label_display, infer_expr, infer_function, infer_program, infer_statements,
    validate_declared_effects,
    validate_entry_effects,
};
use vibra::effect_semantics::EffectTables;
use vibra::execute::bindings::Bindings;
use vibra::execute::eval::{eval_lowered_exec, iteration_items, run_lowered};
use vibra::execute::files::{FileHandle, FileTable, HandleLifecycleError};
use vibra::execute::host::{HostReply, HostRequest};
use vibra::execute::policy::{ensure_policy_scope, intersect_scopes};
use vibra::execute::primitive::checked_integer_result;
use vibra::execute::random::answer_random;
use vibra::execute::session::{Halt, RunConfig};
use vibra::execute::tasks::SourceTaskRuntime;
use vibra::execute::values::{materialize_runtime_value, show_type, value_i64, value_string};
use vibra::lowered::tables::put_function;
use vibra::lowered::ir::{
    CapabilityDomain, CapabilityType, CapabilityValue, EffectLabel, EffectRow, Expr, FunctionBody, FunctionEntry, FunctionSig, FunctionVisibility, HostImport,
    HostImportName, LetValue, LoweredExec, LoweredProgram, ParamKind, PolicyDomain, PolicyGroup, PolicyRequirement,
    PolicyScope, PolicyType, PrimitiveOp, RuntimeValue, Statement, TypeRef,
};

fn text(value: &str) -> String {
    value.to_string()
}

fn config() -> RunConfig {
    RunConfig {
        max_open_files: 8,
        max_alloc_len: 1024,
        program_name: text("program"),
        argv: vec![],
        approved: PolicyType { domains: vec![] },
        working_dir: None,
        environment: None,
        clock: None,
    }
}

fn program(statements: Vec<Statement>, imports: Vec<HostImport>) -> LoweredProgram {
    LoweredProgram { statements, functions: vec![], main_arg_bindings: vec![], impls: vec![], imports }
}

fn number(value: i64) -> Expr {
    Expr::Value(RuntimeValue::Int(value))
}

fn variable(name: &str) -> Expr {
    Expr::VarRef(text(name))
}

fn primitive(op: PrimitiveOp, left: Expr, right: Expr) -> Expr {
    Expr::Primitive { op, args: vec![left, right], operand_type: TypeRef::Int64, return_type: TypeRef::Int64 }
}

fn evaluate(expr: Expr) -> Result<RuntimeValue, Halt> {
    let exec = LoweredExec { expr, program: program(vec![], vec![]) };
    eval_lowered_exec(&exec, &Bindings::new(), &config(), &vec![], 1000).map(|outcome| outcome.0)
}

fn failure_text(halt: Halt) -> String {
    match halt {
        Halt::Failed(failure) => format!("{failure:?}"),
        other => panic!("expected a failure, got {other:?}"),
    }
}

fn import(name: &str, params: Vec<ParamKind>) -> HostImport {
    HostImport { module: text("vibra_v1"), name: text(name), params, effects: vec![] }
}

fn host_call(name: &str, args: Vec<Expr>, return_type: TypeRef) -> Expr {
    Expr::HostCall {
        import: HostImportName { module: text("vibra_v1"), name: text(name) },
        args,
        intrinsic: false,
        return_type,
    }
}

#[test]
fn close_is_linear_and_classifies_minted_ids_as_closed() {
    let mut table = FileTable::new(1);
    let id = table.insert(FileHandle::File);
    assert_eq!(table.open_resource_count(), 1);
    assert_eq!(table.close(id), Ok(()));
    assert_eq!(table.open_resource_count(), 0);
    assert_eq!(table.lifecycle_error(id), Some(HandleLifecycleError::Closed));
    assert_eq!(table.close(id), Err(HandleLifecycleError::Closed));
    assert_eq!(table.lifecycle_error(u64::MAX), Some(HandleLifecycleError::Invalid));
}

#[test]
fn stdin_is_singleton_and_cannot_grow_the_table() {
    let mut table = FileTable::new(1);
    let first = table.insert_stdin();
    let second = table.insert_stdin();
    assert_eq!(first, second);
    assert_eq!(table.open_resource_count(), 0);
}

#[test]
fn reserved_output_close_is_a_noop() {
    let mut table = FileTable::new(1);
    assert_eq!(table.close(1), Ok(()));
    assert_eq!(table.close(1), Ok(()));
    assert_eq!(table.lifecycle_error(1), None);
}

#[test]
fn repeated_open_close_uses_constant_lifecycle_metadata() {
    let mut table = FileTable::new(1);
    for _ in 0..10_000 {
        let id = table.insert(FileHandle::File);
        assert_eq!(table.close(id), Ok(()));
        assert_eq!(table.lifecycle_error(id), Some(HandleLifecycleError::Closed));
    }
    assert_eq!(table.len(), 2);
    assert_eq!(table.open_resource_count(), 0);
    assert_eq!(table.lifecycle_error(table.next_id()), Some(HandleLifecycleError::Invalid));
}

#[test]
fn joining_consumes_the_task_handle() {
    let mut tasks = SourceTaskRuntime::new();
    let id = tasks.spawn(RuntimeValue::Int(5));
    assert_eq!(tasks.pending(), 1);
    assert_eq!(value_i64(&tasks.join(id).unwrap()).unwrap(), 5);
    assert_eq!(tasks.pending(), 0);
    assert!(tasks.join(id).is_err());
}

#[test]
fn integer_arithmetic_is_checked() {
    let sum = evaluate(primitive(PrimitiveOp::Add, number(40), number(2))).unwrap();
    assert_eq!(value_i64(&sum).unwrap(), 42);
    let quotient = evaluate(primitive(PrimitiveOp::Divide, number(-7), number(2))).unwrap();
    assert_eq!(value_i64(&quotient).unwrap(), -3);
    let rest = evaluate(primitive(PrimitiveOp::Remainder, number(-7), number(2))).unwrap();
    assert_eq!(value_i64(&rest).unwrap(), -1);
    assert!(evaluate(primitive(PrimitiveOp::Add, number(i64::MAX), number(1))).is_err());
    assert!(evaluate(primitive(PrimitiveOp::Divide, number(1), number(0))).is_err());
    assert!(checked_integer_result(&TypeRef::UInt8, 256).is_err());
    assert!(checked_integer_result(&TypeRef::UInt8, 255).is_ok());
}

#[test]
fn ranges_are_walked_and_zero_steps_refused() {
    let items = iteration_items(RuntimeValue::Range { start: 0, end: 6, step: 2 }, 100).unwrap();
    let numbers: Vec<i64> = items.iter().map(|item| value_i64(item).unwrap()).collect();
    assert_eq!(numbers, [0, 2, 4]);
    let failure = iteration_items(RuntimeValue::Range { start: 0, end: 6, step: 0 }, 100).unwrap_err();
    assert!(format!("{failure:?}").contains("E-ITER-002"), "{failure:?}");
}

#[test]
fn loops_run_within_their_budget() {
    let body = vec![Statement::Assign {
        var: text("n"),
        value: primitive(PrimitiveOp::Add, variable("n"), variable("i")),
    }];
    let statements = vec![
        Statement::Let { var: text("n"), value: LetValue::Expr(Expr::Mutable(Box::new(number(0)))) },
        Statement::For {
            var: text("i"),
            source: Expr::Array(vec![number(1), number(2), number(3)]),
            body,
        },
    ];
    let program = program(statements, vec![]);
    assert!(run_lowered(&program, &config(), &vec![], 1000).is_ok());
    let endless = LoweredProgram {
        statements: vec![Statement::While { cond: Expr::Value(RuntimeValue::Bool(true)), body: vec![] }],
        functions: vec![],
        main_arg_bindings: vec![],
        impls: vec![],
        imports: vec![],
    };
    assert!(matches!(run_lowered(&endless, &config(), &vec![], 50), Err(Halt::Exhausted)));
}

fn any(domain: CapabilityDomain) -> PolicyType {
    PolicyType {
        domains: vec![PolicyDomain {
            domain,
            groups: vec![PolicyGroup { requirement: PolicyRequirement::Mandatory, scopes: vec![PolicyScope::Any] }],
        }],
    }
}

#[test]
fn runs_wait_for_the_host_and_go_on() {
    let approved = RuntimeValue::Capability(CapabilityValue {
        capability: CapabilityType {
            domain: CapabilityDomain::Clock,
            groups: vec![PolicyGroup { requirement: PolicyRequirement::Mandatory, scopes: vec![PolicyScope::Any] }],
        },
        policy: any(CapabilityDomain::Clock),
    });
    let call = host_call("clock_monotonic_millis", vec![Expr::Value(approved)], TypeRef::Int64);
    let clock = import("clock_monotonic_millis", vec![ParamKind::Plain]);
    let exec = LoweredExec { expr: call, program: program(vec![], vec![clock]) };
    let waiting = eval_lowered_exec(&exec, &Bindings::new(), &config(), &vec![], 100);
    match waiting {
        Err(Halt::Waiting(HostRequest::MonotonicClock)) => {}
        Err(halt) => panic!("unexpected halt {halt:?}"),
        Ok(_) => panic!("expected the run to wait"),
    }
    let replies = vec![HostReply::Count(12)];
    let done = eval_lowered_exec(&exec, &Bindings::new(), &config(), &replies, 100).unwrap();
    assert_eq!(value_i64(&done.0).unwrap(), 12);
    let more = vec![HostReply::Count(12), HostReply::Count(99)];
    let again = eval_lowered_exec(&exec, &Bindings::new(), &config(), &more, 5000).unwrap();
    assert_eq!(value_i64(&again.0).unwrap(), 12);
}

#[test]
fn text_operations_follow_unicode() {
    let run = |expr: Expr| {
        let imports = ["str_scalar_len", "str_uppercase", "str_trim"]
            .iter()
            .map(|name| import(name, vec![ParamKind::Plain]))
            .collect();
        let exec = LoweredExec { expr, program: program(vec![], imports) };
        eval_lowered_exec(&exec, &Bindings::new(), &config(), &vec![], 100).unwrap().0
    };
    let word = || Expr::Value(RuntimeValue::Str(text("straße")));
    assert_eq!(value_i64(&run(host_call("str_scalar_len", vec![word()], TypeRef::Int64))).unwrap(), 6);
    let text_in = |value: RuntimeValue| match value {
        RuntimeValue::Enum { payload: Some(payload), .. } => value_string(&payload).unwrap(),
        other => value_string(&other).unwrap(),
    };
    assert_eq!(text_in(run(host_call("str_uppercase", vec![word()], TypeRef::Str))), "STRASSE");
    let padded = Expr::Value(RuntimeValue::Str(text("\u{2003}x\n")));
    assert_eq!(text_in(run(host_call("str_trim", vec![padded], TypeRef::Str))), "x");
}

#[test]
fn unknown_variables_and_imports_fail() {
    assert!(failure_text(evaluate(variable("nothing")).unwrap_err()).contains("nothing"));
    assert!(evaluate(host_call("missing", vec![], TypeRef::Void)).is_err());
}

fn policy(prefix: &str) -> PolicyType {
    PolicyType {
        domains: vec![PolicyDomain {
            domain: CapabilityDomain::Random,
            groups: vec![PolicyGroup {
                requirement: PolicyRequirement::Mandatory,
                scopes: vec![PolicyScope::Exact(text(prefix))],
            }],
        }],
    }
}

#[test]
fn scopes_are_checked_and_intersected() {
    assert!(ensure_policy_scope(&policy("*"), CapabilityDomain::Random, "*").is_ok());
    assert!(ensure_policy_scope(&policy("*"), CapabilityDomain::Clock, "*").is_err());
    let same = intersect_scopes(&PolicyScope::Exact(text("a")), &PolicyScope::Exact(text("a")), &None);
    assert!(same.is_some());
    let other = intersect_scopes(&PolicyScope::Exact(text("a")), &PolicyScope::Exact(text("b")), &None);
    assert!(other.is_none());
}

#[test]
fn random_replies_have_the_asked_length() {
    match (answer_random(32), answer_random(32)) {
        (HostReply::Bytes(first), HostReply::Bytes(second)) => {
            assert_eq!(first.len(), 32);
            assert_ne!(first, second);
        }
        other => panic!("unexpected replies {other:?}"),
    }
}

fn function(key: &str, effects: Vec<EffectLabel>, statements: Vec<Statement>) -> FunctionEntry {
    FunctionEntry {
        key: text(key),
        signature: FunctionSig {
            alias: text("m"),
            symbol: text(key),
            visibility: FunctionVisibility::Public,
            interface_method: false,
            owner_effect: None,
            type_params: vec![],
            parameters: vec![],
            arg_names: vec![],
            return_type: TypeRef::Void,
            effects: EffectRow { labels: effects },
            body: FunctionBody::User { statements },
        },
    }
}

fn label(domain: &str, action: &str) -> EffectLabel {
    EffectLabel { domain: text(domain), action: text(action) }
}

#[test]
fn effects_flow_from_imports_to_callers() {
    let mut clock = import("clock_monotonic_millis", vec![]);
    clock.effects = vec![label("clock", "read")];
    let tables = EffectTables { imports: vec![clock], intrinsics: vec![] };
    let inner = function(
        "inner",
        vec![label("clock", "read")],
        vec![Statement::Eval(host_call("clock_monotonic_millis", vec![], TypeRef::Int64))],
    );
    let outer = function(
        "outer",
        vec![],
        vec![Statement::Call(vibra::lowered::ir::Call { callee_key: text("inner"), args: vec![], type_args: vec![] })],
    );
    let entries = vec![inner, outer];
    let inferred = infer_program(&entries, &tables);
    assert_eq!(inferred.functions.len(), 2);
    assert_eq!(inferred.functions[1].witnesses.len(), 1);
    assert_eq!(effect_label_display(&inferred.functions[1].witnesses[0].label), "clock.read");
    assert_eq!(inferred.call_edges[1], ["inner"]);
    let call = || Statement::Call(vibra::lowered::ir::Call { callee_key: text("inner"), args: vec![], type_args: vec![] });
    assert_eq!(call_edges_for_statements(&vec![call()], &tables), ["inner"]);
    let direct = infer_expr(&host_call("clock_monotonic_millis", vec![], TypeRef::Int64), &entries, &tables);
    assert_eq!(effect_label_display(&direct.witnesses[0].label), "clock.read");
    let own = infer_function(&entries[1].signature, Some(1), &entries, &tables);
    assert_eq!(own.witnesses.len(), 1);
    let none = EffectRow { labels: vec![] };
    assert!(validate_entry_effects(&vec![call()], Some(&none), &entries, &tables).is_err());
    assert!(validate_entry_effects(&vec![call()], None, &entries, &tables).is_ok());
    let allowed = EffectRow { labels: vec![label("clock", "read")] };
    assert!(validate_entry_effects(&vec![call()], Some(&allowed), &entries, &tables).is_ok());
    assert!(validate_unhandled_values(&vec![call()], &entries, &vec![], vec![]).is_empty());
    let mut warnings = vec![];
    assert!(validate_declared_effects(&entries, &tables, &mut warnings).is_err());
    assert_eq!(effect_label_display(&label("net", "")), "net");
}

#[test]
fn bodies_return_and_handles_are_joined() {
    assert!(validate_function_body(&vec![], &TypeRef::Void).is_ok());
    assert!(validate_function_body(&vec![], &TypeRef::Int64).is_err());
    assert!(validate_function_body(&vec![Statement::Return(number(1))], &TypeRef::Int64).is_ok());
    let spawn = || Statement::Spawn { handle: text("h"), captures: vec![], value: number(1) };
    let join = || Statement::Join { handle: text("h"), var: text("x") };
    assert!(validate_task_handles(&vec![spawn(), join()]).is_ok());
    assert!(validate_task_handles(&vec![spawn()]).is_err());
    assert!(validate_task_handles(&vec![spawn(), join(), join()]).is_err());
}

#[test]
fn types_are_shown_by_name() {
    assert_eq!(show_type(&TypeRef::Named(text("widget"))), "Named(\"widget\")");
}

#[test]
fn functions_are_complained_about_in_key_order() {
    let mut clock = import("clock_monotonic_millis", vec![]);
    clock.effects = vec![label("clock", "read")];
    let tables = EffectTables { imports: vec![clock], intrinsics: vec![] };
    let reads = || vec![Statement::Eval(host_call("clock_monotonic_millis", vec![], TypeRef::Int64))];
    let mut entries = vec![];
    put_function(&mut entries, function("m.second", vec![], reads()));
    put_function(&mut entries, function("m.third", vec![], vec![]));
    put_function(&mut entries, function("m.first", vec![], reads()));
    put_function(&mut entries, function("m.third", vec![], reads()));
    let keys: Vec<&str> = entries.iter().map(|entry| entry.key.as_str()).collect();
    assert_eq!(keys, ["m.first", "m.second", "m.third"]);
    let mut warnings = vec![];
    let error = format!("{:?}", validate_declared_effects(&entries, &tables, &mut warnings).unwrap_err());
    assert!(error.contains("m.first"), "{error}");
    assert!(!error.contains("m.second"), "{error}");
    assert_eq!(infer_program(&entries, &tables).functions[2].witnesses.len(), 1);
}

#[test]
fn effects_of_bodies_add_up() {
    let mut clock = import("clock_monotonic_millis", vec![]);
    clock.effects = vec![label("clock", "read")];
    let mut random = import("random_bytes", vec![]);
    random.effects = vec![label("random", "read")];
    let tables = EffectTables { imports: vec![clock, random], intrinsics: vec![] };
    let call = |name: &str| Statement::Eval(host_call(name, vec![], TypeRef::Int64));
    let labels = |body: Vec<Statement>| {
        let found = infer_statements(&body, &vec![], &tables);
        let mut names: Vec<String> = found.witnesses.iter().map(|found| effect_label_display(&found.label)).collect();
        names.sort();
        names
    };
    assert!(labels(vec![]).is_empty());
    assert_eq!(labels(vec![call("clock_monotonic_millis")]), ["clock.read"]);
    assert_eq!(labels(vec![call("random_bytes")]), ["random.read"]);
    assert_eq!(labels(vec![call("clock_monotonic_millis"), call("random_bytes")]), ["clock.read", "random.read"]);
    let task = Statement::Task { captures: vec![], body: vec![call("random_bytes")] };
    assert_eq!(labels(vec![task]), ["random.read"]);
}

#[test]
fn chains_of_places_are_read_to_their_end() {
    let cells = vec![
        RuntimeValue::Mutable(1),
        RuntimeValue::Mutable(2),
        RuntimeValue::Int(7),
        RuntimeValue::Mutable(3),
    ];
    let end = materialize_runtime_value(&RuntimeValue::Mutable(0), &cells).unwrap();
    assert!(matches!(end, RuntimeValue::Int(7)));
    assert!(matches!(materialize_runtime_value(&end, &cells), Some(RuntimeValue::Int(7))));
    assert!(materialize_runtime_value(&RuntimeValue::Mutable(3), &cells).is_none());
    assert!(materialize_runtime_value(&RuntimeValue::Mutable(9), &cells).is_none());
}

#[test]
fn operands_are_missed_only_where_they_are_read() {
    let lone = |op: PrimitiveOp, ty: fn() -> TypeRef, into: TypeRef, value: RuntimeValue| {
        evaluate(Expr::Primitive { op, args: vec![Expr::Value(value)], operand_type: ty(), return_type: into })
    };
    let bool_type = || TypeRef::Bool;
    let int_type = || TypeRef::Int64;
    let text_type = || TypeRef::Str;
    let shown = |result: Result<RuntimeValue, Halt>| format!("{result:?}");
    let missing = "E-OP-001: an operand is missing";
    assert!(shown(lone(PrimitiveOp::And, bool_type, TypeRef::Bool, RuntimeValue::Bool(false))).contains("Ok(Bool(false))"));
    assert!(shown(lone(PrimitiveOp::Or, bool_type, TypeRef::Bool, RuntimeValue::Bool(true))).contains("Ok(Bool(true))"));
    assert!(shown(lone(PrimitiveOp::And, bool_type, TypeRef::Bool, RuntimeValue::Bool(true))).contains(missing));
    assert!(shown(lone(PrimitiveOp::Or, bool_type, TypeRef::Bool, RuntimeValue::Bool(false))).contains(missing));
    assert!(shown(lone(PrimitiveOp::Equal, bool_type, TypeRef::Bool, RuntimeValue::Int(1))).contains("expected boolean operand"));
    assert!(shown(lone(PrimitiveOp::Add, bool_type, TypeRef::Bool, RuntimeValue::Bool(true))).contains("invalid boolean operation"));
    assert!(shown(lone(PrimitiveOp::Add, text_type, TypeRef::Str, RuntimeValue::Str(text("a")))).contains("invalid string operation"));
    assert!(shown(lone(PrimitiveOp::Add, int_type, TypeRef::Int64, RuntimeValue::Int(1))).contains(missing));
    assert!(shown(lone(PrimitiveOp::LessThan, int_type, TypeRef::Int64, RuntimeValue::Bool(true))).contains("expected integer operand"));
    assert!(lone(PrimitiveOp::Convert, int_type, TypeRef::Int8, RuntimeValue::Int(7)).is_ok());
    assert!(shown(lone(PrimitiveOp::Convert, int_type, TypeRef::Int8, RuntimeValue::Int(700))).contains(missing));
    assert!(evaluate(primitive(PrimitiveOp::Add, number(1), number(2))).is_ok());
}

#[test]
fn arguments_are_missed_only_where_they_are_read() {
    let call = |name: &str, args: Vec<RuntimeValue>| {
        let plain = args.iter().map(|_| ParamKind::Plain).collect();
        let exec = LoweredExec {
            expr: host_call(name, args.into_iter().map(Expr::Value).collect(), TypeRef::Bool),
            program: program(vec![], vec![import(name, plain)]),
        };
        format!("{:?}", eval_lowered_exec(&exec, &Bindings::new(), &config(), &vec![], 100).map(|found| found.0))
    };
    assert!(call("array_contains", vec![RuntimeValue::Array(vec![])]).contains("Bool(false)"));
    assert!(call("array_contains", vec![RuntimeValue::Int(1)]).contains("array_contains expects an array"));
    let one = RuntimeValue::Array(vec![RuntimeValue::Int(1)]);
    assert!(call("array_contains", vec![one]).contains("too few arguments"));
    assert!(call("str_contains", vec![RuntimeValue::Int(1)]).contains("expected string"));
    assert!(call("str_contains", vec![RuntimeValue::Str(text("a"))]).contains("too few arguments"));
}

#[test]
fn records_are_kept_in_name_order() {
    let field = |name: &str, value: i64| vibra::lowered::ir::FieldExpr { name: text(name), value: number(value) };
    let record = evaluate(Expr::Record(vec![field("b", 1), field("a", 2), field("b", 3)])).unwrap();
    let RuntimeValue::Record(fields) = record else {
        panic!("expected record");
    };
    let names: Vec<&str> = fields.iter().map(|field| field.name.as_str()).collect();
    assert_eq!(names, ["a", "b"]);
    assert!(matches!(fields[1].value, RuntimeValue::Int(3)));
    let value = |name: &str, value: i64| vibra::lowered::ir::FieldValue { name: text(name), value: RuntimeValue::Int(value) };
    let left = RuntimeValue::Record(vec![value("a", 1), value("b", 2)]);
    let right = RuntimeValue::Record(vec![value("b", 2), value("a", 1)]);
    assert!(vibra::execute::values::value_eq(&left, &right, &vec![], 0));
    let other = RuntimeValue::Record(vec![value("a", 1), value("c", 2)]);
    assert!(!vibra::execute::values::value_eq(&left, &other, &vec![], 0));
    let read = |name: &str, variable_name: &str| vibra::lowered::ir::FieldExpr {
        name: text(name),
        value: variable(variable_name),
    };
    let halt = evaluate(Expr::Record(vec![read("b", "later"), read("a", "sooner")])).unwrap_err();
    assert!(failure_text(halt).contains("sooner"));
}

#[test]
fn warnings_stay_behind_an_error() {
    let mut clock = import("clock_monotonic_millis", vec![]);
    clock.effects = vec![label("clock", "read")];
    let tables = EffectTables { imports: vec![clock], intrinsics: vec![] };
    let reads = vec![Statement::Eval(host_call("clock_monotonic_millis", vec![], TypeRef::Int64))];
    let mut entries = vec![];
    put_function(&mut entries, function("a", vec![label("net", "listen"), label("net", "connect")], vec![]));
    put_function(&mut entries, function("b", vec![], reads));
    put_function(&mut entries, function("c", vec![label("net", "connect")], vec![]));
    let mut warnings = vec![text("before")];
    let error = validate_declared_effects(&entries, &tables, &mut warnings).unwrap_err();
    assert!(format!("{error:?}").contains("`b`"));
    assert_eq!(
        warnings,
        ["before", "W-EFFECT-001: `a` over-declares net.connect net.listen; inferred effects: no effects"]
    );
}
