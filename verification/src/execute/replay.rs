//! Replies that were used stay used: a run that goes on with more replies does
//! again what it did.
use vstd::prelude::*;
use crate::execute::pattern::MatchContext;
use crate::execute::semantics::{self, Env, FlowView};
use crate::execute::session::{HaltView, RunView, SessionView};
use crate::execute::{
    ops_environment, ops_files, ops_network, ops_process, ops_streams, ops_system, primitive,
};
use crate::lowered::ir::PrimitiveOp;
use crate::lowered::view::{
    CallView, ExprView, FieldExprView, FieldValueView, FunctionBodyView, FunctionSigView, HostImportNameView, HostImportView,
    LetValueView, MatchArmView, StatementView, TypeView, ValueView, WasmArgSpecView,
};

verus! {

/// Whether a run is another one with further replies.
pub open spec fn continues(run: RunView, longer: RunView) -> bool {
    &&& run.program == longer.program
    &&& run.config == longer.config
    &&& run.replies.len() <= longer.replies.len()
    &&& forall|i: int| 0 <= i < run.replies.len() ==> run.replies[i] == #[trigger] longer.replies[i]
}

/// Whether an outcome does not wait for a reply.
pub open spec fn settled<T>(result: Result<T, HaltView>) -> bool {
    match result {
        Err(HaltView::Waiting(_)) => false,
        _ => true,
    }
}

// Host operations.

proof fn lemma_env_get(ty: TypeView, args: Seq<ValueView>, run: RunView, longer: RunView, session: SessionView)
    requires
        continues(run, longer),
    ensures
        settled(
            ops_environment::env_get(ty, args, run, session),
        ) ==> ops_environment::env_get(ty, args, longer, session) == ops_environment::env_get(ty, args, run, session),
{
}

proof fn lemma_env_set(ty: TypeView, args: Seq<ValueView>, run: RunView, longer: RunView, session: SessionView)
    requires
        continues(run, longer),
    ensures
        settled(
            ops_environment::env_set(ty, args, run, session),
        ) ==> ops_environment::env_set(ty, args, longer, session) == ops_environment::env_set(ty, args, run, session),
{
}

proof fn lemma_env_remove(ty: TypeView, args: Seq<ValueView>, run: RunView, longer: RunView, session: SessionView)
    requires
        continues(run, longer),
    ensures
        settled(
            ops_environment::env_remove(ty, args, run, session),
        ) ==> ops_environment::env_remove(ty, args, longer, session) == ops_environment::env_remove(ty, args, run, session),
{
}

proof fn lemma_env_list(args: Seq<ValueView>, run: RunView, longer: RunView, session: SessionView)
    requires
        continues(run, longer),
    ensures
        settled(
            ops_environment::env_list(args, run, session),
        ) ==> ops_environment::env_list(args, longer, session) == ops_environment::env_list(args, run, session),
{
}

proof fn lemma_environment(
    name: Seq<char>,
    ty: TypeView,
    args: Seq<ValueView>,
    run: RunView,
    longer: RunView,
    session: SessionView,
)
    requires
        continues(run, longer),
    ensures
        match ops_environment::environment(name, ty, args, run, session) {
            Some(outcome) => settled(outcome) ==> ops_environment::environment(
                name,
                ty,
                args,
                longer,
                session,
            ) == Some(outcome),
            None => ops_environment::environment(name, ty, args, longer, session) is None,
        },
{
    lemma_env_get(ty, args, run, longer, session);
    lemma_env_set(ty, args, run, longer, session);
    lemma_env_remove(ty, args, run, longer, session);
    lemma_env_list(args, run, longer, session);
}

proof fn lemma_fs_open_read(ty: TypeView, args: Seq<ValueView>, run: RunView, longer: RunView, session: SessionView)
    requires
        continues(run, longer),
    ensures
        settled(
            ops_files::fs_open_read(ty, args, run, session),
        ) ==> ops_files::fs_open_read(ty, args, longer, session) == ops_files::fs_open_read(ty, args, run, session),
{
}

proof fn lemma_fs_open_write(ty: TypeView, args: Seq<ValueView>, run: RunView, longer: RunView, session: SessionView)
    requires
        continues(run, longer),
    ensures
        settled(
            ops_files::fs_open_write(ty, args, run, session),
        ) ==> ops_files::fs_open_write(ty, args, longer, session) == ops_files::fs_open_write(ty, args, run, session),
{
}

proof fn lemma_fs_open_write_options(
    ty: TypeView,
    args: Seq<ValueView>,
    run: RunView,
    longer: RunView,
    session: SessionView,
)
    requires
        continues(run, longer),
    ensures
        settled(
            ops_files::fs_open_write_options(ty, args, run, session),
        ) ==> ops_files::fs_open_write_options(ty, args, longer, session) == ops_files::fs_open_write_options(ty, args, run, session),
{
}

proof fn lemma_fs_open_append(ty: TypeView, args: Seq<ValueView>, run: RunView, longer: RunView, session: SessionView)
    requires
        continues(run, longer),
    ensures
        settled(
            ops_files::fs_open_append(ty, args, run, session),
        ) ==> ops_files::fs_open_append(ty, args, longer, session) == ops_files::fs_open_append(ty, args, run, session),
{
}

proof fn lemma_fs_open_read_write(
    ty: TypeView,
    args: Seq<ValueView>,
    run: RunView,
    longer: RunView,
    session: SessionView,
)
    requires
        continues(run, longer),
    ensures
        settled(
            ops_files::fs_open_read_write(ty, args, run, session),
        ) ==> ops_files::fs_open_read_write(ty, args, longer, session) == ops_files::fs_open_read_write(ty, args, run, session),
{
}

proof fn lemma_fs_read_to_string(
    ty: TypeView,
    args: Seq<ValueView>,
    run: RunView,
    longer: RunView,
    session: SessionView,
)
    requires
        continues(run, longer),
    ensures
        settled(
            ops_files::fs_read_to_string(ty, args, run, session),
        ) ==> ops_files::fs_read_to_string(ty, args, longer, session) == ops_files::fs_read_to_string(ty, args, run, session),
{
}

proof fn lemma_fs_write_string_all(
    ty: TypeView,
    args: Seq<ValueView>,
    run: RunView,
    longer: RunView,
    session: SessionView,
)
    requires
        continues(run, longer),
    ensures
        settled(
            ops_files::fs_write_string_all(ty, args, run, session),
        ) ==> ops_files::fs_write_string_all(ty, args, longer, session) == ops_files::fs_write_string_all(ty, args, run, session),
{
}

proof fn lemma_fs_append_string(
    ty: TypeView,
    args: Seq<ValueView>,
    run: RunView,
    longer: RunView,
    session: SessionView,
)
    requires
        continues(run, longer),
    ensures
        settled(
            ops_files::fs_append_string(ty, args, run, session),
        ) ==> ops_files::fs_append_string(ty, args, longer, session) == ops_files::fs_append_string(ty, args, run, session),
{
}

proof fn lemma_fs_exists(args: Seq<ValueView>, run: RunView, longer: RunView, session: SessionView)
    requires
        continues(run, longer),
    ensures
        settled(
            ops_files::fs_exists(args, run, session),
        ) ==> ops_files::fs_exists(args, longer, session) == ops_files::fs_exists(args, run, session),
{
}

proof fn lemma_fs_create_dir_all(
    ty: TypeView,
    args: Seq<ValueView>,
    run: RunView,
    longer: RunView,
    session: SessionView,
)
    requires
        continues(run, longer),
    ensures
        settled(
            ops_files::fs_create_dir_all(ty, args, run, session),
        ) ==> ops_files::fs_create_dir_all(ty, args, longer, session) == ops_files::fs_create_dir_all(ty, args, run, session),
{
}

proof fn lemma_fs_remove_file(ty: TypeView, args: Seq<ValueView>, run: RunView, longer: RunView, session: SessionView)
    requires
        continues(run, longer),
    ensures
        settled(
            ops_files::fs_remove_file(ty, args, run, session),
        ) ==> ops_files::fs_remove_file(ty, args, longer, session) == ops_files::fs_remove_file(ty, args, run, session),
{
}

proof fn lemma_fs_remove_dir(ty: TypeView, args: Seq<ValueView>, run: RunView, longer: RunView, session: SessionView)
    requires
        continues(run, longer),
    ensures
        settled(
            ops_files::fs_remove_dir(ty, args, run, session),
        ) ==> ops_files::fs_remove_dir(ty, args, longer, session) == ops_files::fs_remove_dir(ty, args, run, session),
{
}

proof fn lemma_fs_read_dir(ty: TypeView, args: Seq<ValueView>, run: RunView, longer: RunView, session: SessionView)
    requires
        continues(run, longer),
    ensures
        settled(
            ops_files::fs_read_dir(ty, args, run, session),
        ) ==> ops_files::fs_read_dir(ty, args, longer, session) == ops_files::fs_read_dir(ty, args, run, session),
{
}

proof fn lemma_fs_read_dir_entries(
    ty: TypeView,
    args: Seq<ValueView>,
    run: RunView,
    longer: RunView,
    session: SessionView,
)
    requires
        continues(run, longer),
    ensures
        settled(
            ops_files::fs_read_dir_entries(ty, args, run, session),
        ) ==> ops_files::fs_read_dir_entries(ty, args, longer, session) == ops_files::fs_read_dir_entries(ty, args, run, session),
{
}

proof fn lemma_fs_metadata(ty: TypeView, args: Seq<ValueView>, run: RunView, longer: RunView, session: SessionView)
    requires
        continues(run, longer),
    ensures
        settled(
            ops_files::fs_metadata(ty, args, run, session),
        ) ==> ops_files::fs_metadata(ty, args, longer, session) == ops_files::fs_metadata(ty, args, run, session),
{
}

proof fn lemma_fs_canonicalize(
    ty: TypeView,
    args: Seq<ValueView>,
    run: RunView,
    longer: RunView,
    session: SessionView,
)
    requires
        continues(run, longer),
    ensures
        settled(
            ops_files::fs_canonicalize(ty, args, run, session),
        ) ==> ops_files::fs_canonicalize(ty, args, longer, session) == ops_files::fs_canonicalize(ty, args, run, session),
{
}

proof fn lemma_fs_rename(ty: TypeView, args: Seq<ValueView>, run: RunView, longer: RunView, session: SessionView)
    requires
        continues(run, longer),
    ensures
        settled(
            ops_files::fs_rename(ty, args, run, session),
        ) ==> ops_files::fs_rename(ty, args, longer, session) == ops_files::fs_rename(ty, args, run, session),
{
}

proof fn lemma_fs_copy(ty: TypeView, args: Seq<ValueView>, run: RunView, longer: RunView, session: SessionView)
    requires
        continues(run, longer),
    ensures
        settled(
            ops_files::fs_copy(ty, args, run, session),
        ) ==> ops_files::fs_copy(ty, args, longer, session) == ops_files::fs_copy(ty, args, run, session),
{
}

proof fn lemma_file_system(
    name: Seq<char>,
    ty: TypeView,
    args: Seq<ValueView>,
    run: RunView,
    longer: RunView,
    session: SessionView,
)
    requires
        continues(run, longer),
    ensures
        match ops_files::file_system(name, ty, args, run, session) {
            Some(outcome) => settled(outcome) ==> ops_files::file_system(
                name,
                ty,
                args,
                longer,
                session,
            ) == Some(outcome),
            None => ops_files::file_system(name, ty, args, longer, session) is None,
        },
{
    lemma_fs_open_read(ty, args, run, longer, session);
    lemma_fs_open_write(ty, args, run, longer, session);
    lemma_fs_open_write_options(ty, args, run, longer, session);
    lemma_fs_open_append(ty, args, run, longer, session);
    lemma_fs_open_read_write(ty, args, run, longer, session);
    lemma_fs_read_to_string(ty, args, run, longer, session);
    lemma_fs_write_string_all(ty, args, run, longer, session);
    lemma_fs_append_string(ty, args, run, longer, session);
    lemma_fs_exists(args, run, longer, session);
    lemma_fs_create_dir_all(ty, args, run, longer, session);
    lemma_fs_remove_file(ty, args, run, longer, session);
    lemma_fs_remove_dir(ty, args, run, longer, session);
    lemma_fs_read_dir(ty, args, run, longer, session);
    lemma_fs_read_dir_entries(ty, args, run, longer, session);
    lemma_fs_metadata(ty, args, run, longer, session);
    lemma_fs_canonicalize(ty, args, run, longer, session);
    lemma_fs_rename(ty, args, run, longer, session);
    lemma_fs_copy(ty, args, run, longer, session);
}

proof fn lemma_net_address_parse(
    ty: TypeView,
    args: Seq<ValueView>,
    run: RunView,
    longer: RunView,
    session: SessionView,
)
    requires
        continues(run, longer),
    ensures
        settled(
            ops_network::net_address_parse(ty, args, run, session),
        ) ==> ops_network::net_address_parse(ty, args, longer, session) == ops_network::net_address_parse(ty, args, run, session),
{
}

proof fn lemma_net_resolve(ty: TypeView, args: Seq<ValueView>, run: RunView, longer: RunView, session: SessionView)
    requires
        continues(run, longer),
    ensures
        settled(
            ops_network::net_resolve(ty, args, run, session),
        ) ==> ops_network::net_resolve(ty, args, longer, session) == ops_network::net_resolve(ty, args, run, session),
{
}

proof fn lemma_net_connect(ty: TypeView, args: Seq<ValueView>, run: RunView, longer: RunView, session: SessionView)
    requires
        continues(run, longer),
    ensures
        settled(
            ops_network::net_connect(ty, args, run, session),
        ) ==> ops_network::net_connect(ty, args, longer, session) == ops_network::net_connect(ty, args, run, session),
{
}

proof fn lemma_net_listen(ty: TypeView, args: Seq<ValueView>, run: RunView, longer: RunView, session: SessionView)
    requires
        continues(run, longer),
    ensures
        settled(
            ops_network::net_listen(ty, args, run, session),
        ) ==> ops_network::net_listen(ty, args, longer, session) == ops_network::net_listen(ty, args, run, session),
{
}

proof fn lemma_net_accept(ty: TypeView, args: Seq<ValueView>, run: RunView, longer: RunView, session: SessionView)
    requires
        continues(run, longer),
    ensures
        settled(
            ops_network::net_accept(ty, args, run, session),
        ) ==> ops_network::net_accept(ty, args, longer, session) == ops_network::net_accept(ty, args, run, session),
{
}

proof fn lemma_net_local_address(
    ty: TypeView,
    args: Seq<ValueView>,
    run: RunView,
    longer: RunView,
    session: SessionView,
)
    requires
        continues(run, longer),
    ensures
        settled(
            ops_network::net_local_address(ty, args, run, session),
        ) ==> ops_network::net_local_address(ty, args, longer, session) == ops_network::net_local_address(ty, args, run, session),
{
}

proof fn lemma_net_set_deadline(
    ty: TypeView,
    args: Seq<ValueView>,
    run: RunView,
    longer: RunView,
    session: SessionView,
)
    requires
        continues(run, longer),
    ensures
        settled(
            ops_network::net_set_deadline(ty, args, run, session),
        ) ==> ops_network::net_set_deadline(ty, args, longer, session) == ops_network::net_set_deadline(ty, args, run, session),
{
}

proof fn lemma_net_shutdown(ty: TypeView, args: Seq<ValueView>, run: RunView, longer: RunView, session: SessionView)
    requires
        continues(run, longer),
    ensures
        settled(
            ops_network::net_shutdown(ty, args, run, session),
        ) ==> ops_network::net_shutdown(ty, args, longer, session) == ops_network::net_shutdown(ty, args, run, session),
{
}

proof fn lemma_net_udp_bind(ty: TypeView, args: Seq<ValueView>, run: RunView, longer: RunView, session: SessionView)
    requires
        continues(run, longer),
    ensures
        settled(
            ops_network::net_udp_bind(ty, args, run, session),
        ) ==> ops_network::net_udp_bind(ty, args, longer, session) == ops_network::net_udp_bind(ty, args, run, session),
{
}

proof fn lemma_net_udp_connect(
    ty: TypeView,
    args: Seq<ValueView>,
    run: RunView,
    longer: RunView,
    session: SessionView,
)
    requires
        continues(run, longer),
    ensures
        settled(
            ops_network::net_udp_connect(ty, args, run, session),
        ) ==> ops_network::net_udp_connect(ty, args, longer, session) == ops_network::net_udp_connect(ty, args, run, session),
{
}

proof fn lemma_net_udp_send_to(
    ty: TypeView,
    args: Seq<ValueView>,
    run: RunView,
    longer: RunView,
    session: SessionView,
)
    requires
        continues(run, longer),
    ensures
        settled(
            ops_network::net_udp_send_to(ty, args, run, session),
        ) ==> ops_network::net_udp_send_to(ty, args, longer, session) == ops_network::net_udp_send_to(ty, args, run, session),
{
}

proof fn lemma_net_udp_recv_from(
    ty: TypeView,
    args: Seq<ValueView>,
    run: RunView,
    longer: RunView,
    session: SessionView,
)
    requires
        continues(run, longer),
    ensures
        settled(
            ops_network::net_udp_recv_from(ty, args, run, session),
        ) ==> ops_network::net_udp_recv_from(ty, args, longer, session) == ops_network::net_udp_recv_from(ty, args, run, session),
{
}

proof fn lemma_network(
    name: Seq<char>,
    ty: TypeView,
    args: Seq<ValueView>,
    run: RunView,
    longer: RunView,
    session: SessionView,
)
    requires
        continues(run, longer),
    ensures
        match ops_network::network(name, ty, args, run, session) {
            Some(outcome) => settled(outcome) ==> ops_network::network(
                name,
                ty,
                args,
                longer,
                session,
            ) == Some(outcome),
            None => ops_network::network(name, ty, args, longer, session) is None,
        },
{
    lemma_net_address_parse(ty, args, run, longer, session);
    lemma_net_resolve(ty, args, run, longer, session);
    lemma_net_connect(ty, args, run, longer, session);
    lemma_net_listen(ty, args, run, longer, session);
    lemma_net_accept(ty, args, run, longer, session);
    lemma_net_local_address(ty, args, run, longer, session);
    lemma_net_set_deadline(ty, args, run, longer, session);
    lemma_net_shutdown(ty, args, run, longer, session);
    lemma_net_udp_bind(ty, args, run, longer, session);
    lemma_net_udp_connect(ty, args, run, longer, session);
    lemma_net_udp_send_to(ty, args, run, longer, session);
    lemma_net_udp_recv_from(ty, args, run, longer, session);
}

proof fn lemma_process_run(ty: TypeView, args: Seq<ValueView>, run: RunView, longer: RunView, session: SessionView)
    requires
        continues(run, longer),
    ensures
        settled(
            ops_process::process_run(ty, args, run, session),
        ) ==> ops_process::process_run(ty, args, longer, session) == ops_process::process_run(ty, args, run, session),
{
}

proof fn lemma_process_spawn(ty: TypeView, args: Seq<ValueView>, run: RunView, longer: RunView, session: SessionView)
    requires
        continues(run, longer),
    ensures
        settled(
            ops_process::process_spawn(ty, args, run, session),
        ) ==> ops_process::process_spawn(ty, args, longer, session) == ops_process::process_spawn(ty, args, run, session),
{
}

proof fn lemma_process_wait(ty: TypeView, args: Seq<ValueView>, run: RunView, longer: RunView, session: SessionView)
    requires
        continues(run, longer),
    ensures
        settled(
            ops_process::process_wait(ty, args, run, session),
        ) ==> ops_process::process_wait(ty, args, longer, session) == ops_process::process_wait(ty, args, run, session),
{
}

proof fn lemma_process_kill(ty: TypeView, args: Seq<ValueView>, run: RunView, longer: RunView, session: SessionView)
    requires
        continues(run, longer),
    ensures
        settled(
            ops_process::process_kill(ty, args, run, session),
        ) ==> ops_process::process_kill(ty, args, longer, session) == ops_process::process_kill(ty, args, run, session),
{
}

proof fn lemma_process_child_stdin(
    ty: TypeView,
    args: Seq<ValueView>,
    run: RunView,
    longer: RunView,
    session: SessionView,
)
    requires
        continues(run, longer),
    ensures
        settled(
            ops_process::process_child_stdin(ty, args, run, session),
        ) ==> ops_process::process_child_stdin(ty, args, longer, session) == ops_process::process_child_stdin(ty, args, run, session),
{
}

proof fn lemma_process_child_stdout(
    ty: TypeView,
    args: Seq<ValueView>,
    run: RunView,
    longer: RunView,
    session: SessionView,
)
    requires
        continues(run, longer),
    ensures
        settled(
            ops_process::process_child_stdout(ty, args, run, session),
        ) ==> ops_process::process_child_stdout(ty, args, longer, session) == ops_process::process_child_stdout(ty, args, run, session),
{
}

proof fn lemma_process_child_stderr(
    ty: TypeView,
    args: Seq<ValueView>,
    run: RunView,
    longer: RunView,
    session: SessionView,
)
    requires
        continues(run, longer),
    ensures
        settled(
            ops_process::process_child_stderr(ty, args, run, session),
        ) ==> ops_process::process_child_stderr(ty, args, longer, session) == ops_process::process_child_stderr(ty, args, run, session),
{
}

proof fn lemma_processes(
    name: Seq<char>,
    ty: TypeView,
    args: Seq<ValueView>,
    run: RunView,
    longer: RunView,
    session: SessionView,
)
    requires
        continues(run, longer),
    ensures
        match ops_process::processes(name, ty, args, run, session) {
            Some(outcome) => settled(outcome) ==> ops_process::processes(
                name,
                ty,
                args,
                longer,
                session,
            ) == Some(outcome),
            None => ops_process::processes(name, ty, args, longer, session) is None,
        },
{
    lemma_process_run(ty, args, run, longer, session);
    lemma_process_spawn(ty, args, run, longer, session);
    lemma_process_wait(ty, args, run, longer, session);
    lemma_process_kill(ty, args, run, longer, session);
    lemma_process_child_stdin(ty, args, run, longer, session);
    lemma_process_child_stdout(ty, args, run, longer, session);
    lemma_process_child_stderr(ty, args, run, longer, session);
}

proof fn lemma_stdin_open(args: Seq<ValueView>, run: RunView, longer: RunView, session: SessionView)
    requires
        continues(run, longer),
    ensures
        settled(
            ops_streams::stdin_open(args, run, session),
        ) ==> ops_streams::stdin_open(args, longer, session) == ops_streams::stdin_open(args, run, session),
{
}

proof fn lemma_stdout_open(run: RunView, longer: RunView, session: SessionView)
    requires
        continues(run, longer),
    ensures
        settled(
            ops_streams::stdout_open(run, session),
        ) ==> ops_streams::stdout_open(longer, session) == ops_streams::stdout_open(run, session),
{
}

proof fn lemma_stderr_open(run: RunView, longer: RunView, session: SessionView)
    requires
        continues(run, longer),
    ensures
        settled(
            ops_streams::stderr_open(run, session),
        ) ==> ops_streams::stderr_open(longer, session) == ops_streams::stderr_open(run, session),
{
}

proof fn lemma_fd_read(ty: TypeView, args: Seq<ValueView>, run: RunView, longer: RunView, session: SessionView)
    requires
        continues(run, longer),
    ensures
        settled(
            ops_streams::fd_read(ty, args, run, session),
        ) ==> ops_streams::fd_read(ty, args, longer, session) == ops_streams::fd_read(ty, args, run, session),
{
}

proof fn lemma_fd_read_bytes(ty: TypeView, args: Seq<ValueView>, run: RunView, longer: RunView, session: SessionView)
    requires
        continues(run, longer),
    ensures
        settled(
            ops_streams::fd_read_bytes(ty, args, run, session),
        ) ==> ops_streams::fd_read_bytes(ty, args, longer, session) == ops_streams::fd_read_bytes(ty, args, run, session),
{
}

proof fn lemma_fd_read_line(ty: TypeView, args: Seq<ValueView>, run: RunView, longer: RunView, session: SessionView)
    requires
        continues(run, longer),
    ensures
        settled(
            ops_streams::fd_read_line(ty, args, run, session),
        ) ==> ops_streams::fd_read_line(ty, args, longer, session) == ops_streams::fd_read_line(ty, args, run, session),
{
}

proof fn lemma_fd_read_bytes_up_to(
    ty: TypeView,
    args: Seq<ValueView>,
    run: RunView,
    longer: RunView,
    session: SessionView,
)
    requires
        continues(run, longer),
    ensures
        settled(
            ops_streams::fd_read_bytes_up_to(ty, args, run, session),
        ) ==> ops_streams::fd_read_bytes_up_to(ty, args, longer, session) == ops_streams::fd_read_bytes_up_to(ty, args, run, session),
{
}

proof fn lemma_fd_write(ty: TypeView, args: Seq<ValueView>, run: RunView, longer: RunView, session: SessionView)
    requires
        continues(run, longer),
    ensures
        settled(
            ops_streams::fd_write(ty, args, run, session),
        ) ==> ops_streams::fd_write(ty, args, longer, session) == ops_streams::fd_write(ty, args, run, session),
{
}

proof fn lemma_fd_write_bytes(ty: TypeView, args: Seq<ValueView>, run: RunView, longer: RunView, session: SessionView)
    requires
        continues(run, longer),
    ensures
        settled(
            ops_streams::fd_write_bytes(ty, args, run, session),
        ) ==> ops_streams::fd_write_bytes(ty, args, longer, session) == ops_streams::fd_write_bytes(ty, args, run, session),
{
}

proof fn lemma_fd_write_bytes_some(
    ty: TypeView,
    args: Seq<ValueView>,
    run: RunView,
    longer: RunView,
    session: SessionView,
)
    requires
        continues(run, longer),
    ensures
        settled(
            ops_streams::fd_write_bytes_some(ty, args, run, session),
        ) ==> ops_streams::fd_write_bytes_some(ty, args, longer, session) == ops_streams::fd_write_bytes_some(ty, args, run, session),
{
}

proof fn lemma_fd_sync(ty: TypeView, args: Seq<ValueView>, run: RunView, longer: RunView, session: SessionView)
    requires
        continues(run, longer),
    ensures
        settled(
            ops_streams::fd_sync(ty, args, run, session),
        ) ==> ops_streams::fd_sync(ty, args, longer, session) == ops_streams::fd_sync(ty, args, run, session),
{
}

proof fn lemma_fd_close(ty: TypeView, args: Seq<ValueView>, run: RunView, longer: RunView, session: SessionView)
    requires
        continues(run, longer),
    ensures
        settled(
            ops_streams::fd_close(ty, args, run, session),
        ) ==> ops_streams::fd_close(ty, args, longer, session) == ops_streams::fd_close(ty, args, run, session),
{
}

proof fn lemma_streams(
    name: Seq<char>,
    ty: TypeView,
    args: Seq<ValueView>,
    run: RunView,
    longer: RunView,
    session: SessionView,
)
    requires
        continues(run, longer),
    ensures
        match ops_streams::streams(name, ty, args, run, session) {
            Some(outcome) => settled(outcome) ==> ops_streams::streams(
                name,
                ty,
                args,
                longer,
                session,
            ) == Some(outcome),
            None => ops_streams::streams(name, ty, args, longer, session) is None,
        },
{
    lemma_stdin_open(args, run, longer, session);
    lemma_stdout_open(run, longer, session);
    lemma_stderr_open(run, longer, session);
    lemma_fd_read(ty, args, run, longer, session);
    lemma_fd_read_bytes(ty, args, run, longer, session);
    lemma_fd_read_line(ty, args, run, longer, session);
    lemma_fd_read_bytes_up_to(ty, args, run, longer, session);
    lemma_fd_write(ty, args, run, longer, session);
    lemma_fd_write_bytes(ty, args, run, longer, session);
    lemma_fd_write_bytes_some(ty, args, run, longer, session);
    lemma_fd_sync(ty, args, run, longer, session);
    lemma_fd_close(ty, args, run, longer, session);
}

proof fn lemma_clock_now_unix_millis(args: Seq<ValueView>, run: RunView, longer: RunView, session: SessionView)
    requires
        continues(run, longer),
    ensures
        settled(
            ops_system::clock_now_unix_millis(args, run, session),
        ) ==> ops_system::clock_now_unix_millis(args, longer, session) == ops_system::clock_now_unix_millis(args, run, session),
{
}

proof fn lemma_clock_monotonic_millis(args: Seq<ValueView>, run: RunView, longer: RunView, session: SessionView)
    requires
        continues(run, longer),
    ensures
        settled(
            ops_system::clock_monotonic_millis(args, run, session),
        ) ==> ops_system::clock_monotonic_millis(args, longer, session) == ops_system::clock_monotonic_millis(args, run, session),
{
}

proof fn lemma_clock_sleep_millis(args: Seq<ValueView>, run: RunView, longer: RunView, session: SessionView)
    requires
        continues(run, longer),
    ensures
        settled(
            ops_system::clock_sleep_millis(args, run, session),
        ) ==> ops_system::clock_sleep_millis(args, longer, session) == ops_system::clock_sleep_millis(args, run, session),
{
}

proof fn lemma_random_bytes(args: Seq<ValueView>, run: RunView, longer: RunView, session: SessionView)
    requires
        continues(run, longer),
    ensures
        settled(
            ops_system::random_bytes(args, run, session),
        ) ==> ops_system::random_bytes(args, longer, session) == ops_system::random_bytes(args, run, session),
{
}

proof fn lemma_system_info(args: Seq<ValueView>, run: RunView, longer: RunView, session: SessionView)
    requires
        continues(run, longer),
    ensures
        settled(
            ops_system::system_info(args, run, session),
        ) ==> ops_system::system_info(args, longer, session) == ops_system::system_info(args, run, session),
{
}

proof fn lemma_system_args(args: Seq<ValueView>, run: RunView, longer: RunView, session: SessionView)
    requires
        continues(run, longer),
    ensures
        settled(
            ops_system::system_args(args, run, session),
        ) ==> ops_system::system_args(args, longer, session) == ops_system::system_args(args, run, session),
{
}

proof fn lemma_system_current_dir(
    ty: TypeView,
    args: Seq<ValueView>,
    run: RunView,
    longer: RunView,
    session: SessionView,
)
    requires
        continues(run, longer),
    ensures
        settled(
            ops_system::system_current_dir(ty, args, run, session),
        ) ==> ops_system::system_current_dir(ty, args, longer, session) == ops_system::system_current_dir(ty, args, run, session),
{
}

proof fn lemma_system_executable(
    ty: TypeView,
    args: Seq<ValueView>,
    run: RunView,
    longer: RunView,
    session: SessionView,
)
    requires
        continues(run, longer),
    ensures
        settled(
            ops_system::system_executable(ty, args, run, session),
        ) ==> ops_system::system_executable(ty, args, longer, session) == ops_system::system_executable(ty, args, run, session),
{
}

proof fn lemma_system_temp_dir(args: Seq<ValueView>, run: RunView, longer: RunView, session: SessionView)
    requires
        continues(run, longer),
    ensures
        settled(
            ops_system::system_temp_dir(args, run, session),
        ) ==> ops_system::system_temp_dir(args, longer, session) == ops_system::system_temp_dir(args, run, session),
{
}

proof fn lemma_parse_float64(ty: TypeView, args: Seq<ValueView>, run: RunView, longer: RunView, session: SessionView)
    requires
        continues(run, longer),
    ensures
        settled(
            ops_system::parse_float64(ty, args, run, session),
        ) ==> ops_system::parse_float64(ty, args, longer, session) == ops_system::parse_float64(ty, args, run, session),
{
}

proof fn lemma_format_float64(args: Seq<ValueView>, run: RunView, longer: RunView, session: SessionView)
    requires
        continues(run, longer),
    ensures
        settled(
            ops_system::format_float64(args, run, session),
        ) ==> ops_system::format_float64(args, longer, session) == ops_system::format_float64(args, run, session),
{
}

proof fn lemma_system(
    name: Seq<char>,
    ty: TypeView,
    args: Seq<ValueView>,
    run: RunView,
    longer: RunView,
    session: SessionView,
)
    requires
        continues(run, longer),
    ensures
        match ops_system::system(name, ty, args, run, session) {
            Some(outcome) => settled(outcome) ==> ops_system::system(
                name,
                ty,
                args,
                longer,
                session,
            ) == Some(outcome),
            None => ops_system::system(name, ty, args, longer, session) is None,
        },
{
    lemma_clock_now_unix_millis(args, run, longer, session);
    lemma_clock_monotonic_millis(args, run, longer, session);
    lemma_clock_sleep_millis(args, run, longer, session);
    lemma_random_bytes(args, run, longer, session);
    lemma_system_info(args, run, longer, session);
    lemma_system_args(args, run, longer, session);
    lemma_system_current_dir(ty, args, run, longer, session);
    lemma_system_executable(ty, args, run, longer, session);
    lemma_system_temp_dir(args, run, longer, session);
    lemma_parse_float64(ty, args, run, longer, session);
    lemma_format_float64(args, run, longer, session);
}

proof fn lemma_converted(value: ValueView, target: TypeView, run: RunView, longer: RunView, session: SessionView)
    requires
        continues(run, longer),
    ensures
        settled(
            primitive::converted(value, target, run, session),
        ) ==> primitive::converted(value, target, longer, session) == primitive::converted(value, target, run, session),
{
}

proof fn lemma_float_operation(
    op: PrimitiveOp,
    ty: TypeView,
    values: Seq<ValueView>,
    run: RunView,
    longer: RunView,
    session: SessionView,
)
    requires
        continues(run, longer),
    ensures
        settled(
            primitive::float_operation(op, ty, values, run, session),
        ) ==> primitive::float_operation(op, ty, values, longer, session) == primitive::float_operation(op, ty, values, run, session),
{
}

proof fn lemma_conversion(
    values: Seq<ValueView>,
    target: TypeView,
    run: RunView,
    longer: RunView,
    session: SessionView,
)
    requires
        continues(run, longer),
    ensures
        settled(
            primitive::conversion(values, target, run, session),
        ) ==> primitive::conversion(values, target, longer, session) == primitive::conversion(values, target, run, session),
{
    lemma_converted(values[0], target, run, longer, session);
    match primitive::converted(values[0], target, run, session) {
        Ok((_, next)) => lemma_converted(values[1], target, run, longer, next),
        Err(_) => {}
    }
}

proof fn lemma_primitive(
    op: PrimitiveOp,
    operand_type: TypeView,
    return_type: TypeView,
    values: Seq<ValueView>,
    run: RunView,
    longer: RunView,
    session: SessionView,
)
    requires
        continues(run, longer),
    ensures
        settled(
            primitive::primitive(op, operand_type, return_type, values, run, session),
        ) ==> primitive::primitive(op, operand_type, return_type, values, longer, session) == primitive::primitive(op, operand_type, return_type, values, run, session),
{
    lemma_conversion(values, return_type, run, longer, session);
    lemma_float_operation(op, operand_type, values, run, longer, session);
}

proof fn lemma_vibra_v1(
    name: Seq<char>,
    ty: TypeView,
    args: Seq<ValueView>,
    run: RunView,
    longer: RunView,
    session: SessionView,
)
    requires
        continues(run, longer),
    ensures
        settled(
            semantics::vibra_v1(name, ty, args, run, session),
        ) ==> semantics::vibra_v1(name, ty, args, longer, session) == semantics::vibra_v1(name, ty, args, run, session),
{
    reveal(semantics::vibra_v1);
    lemma_environment(name, ty, args, run, longer, session);
    lemma_file_system(name, ty, args, run, longer, session);
    lemma_network(name, ty, args, run, longer, session);
    lemma_processes(name, ty, args, run, longer, session);
    lemma_streams(name, ty, args, run, longer, session);
    lemma_system(name, ty, args, run, longer, session);
}

proof fn lemma_host_called(
    import: HostImportNameView,
    entry: HostImportView,
    ty: TypeView,
    args: Seq<ValueView>,
    run: RunView,
    longer: RunView,
    session: SessionView,
)
    requires
        continues(run, longer),
    ensures
        settled(
            semantics::host_called(import, entry, ty, args, run, session),
        ) ==> semantics::host_called(import, entry, ty, args, longer, session) == semantics::host_called(import, entry, ty, args, run, session),
{
    lemma_vibra_v1(import.name, ty, args, run, longer, session);
}

// Programs.

proof fn lemma_evaluated(expr: ExprView, env: Env, run: RunView, longer: RunView, session: SessionView, budget: nat)
    requires
        continues(run, longer),
        settled(semantics::evaluated(expr, env, run, session, budget)),
    ensures
        semantics::evaluated(
            expr,
            env,
            longer,
            session,
            budget,
        ) == semantics::evaluated(expr, env, run, session, budget),
    decreases budget, 0int, expr, 0int, 0int,
{
    match expr {
        ExprView::Value(_) | ExprView::VarRef(_) => {}
        ExprView::Mutable(inner) => if semantics::lent(*inner, env) is None {
            lemma_evaluated(*inner, env, run, longer, session, budget);
        },
        ExprView::Reference { target, .. } => match *target {
            ExprView::VarRef(_) => {}
            _ => lemma_evaluated(*target, env, run, longer, session, budget),
        },
        ExprView::Call { call, .. } => lemma_called(call, env, run, longer, session, budget),
        ExprView::HostCall { import, args, return_type, .. } => {
            lemma_evaluated_all(args, 0, Seq::empty(), env, run, longer, session, budget);
            match semantics::evaluated_all(args, 0, Seq::empty(), env, run, session, budget) {
                Err(_) => {}
                Ok((values, next)) => match semantics::targeted(import.name, import, values.len(), run) {
                    Err(_) => {}
                    Ok(entry) => lemma_host_called(import, entry, return_type, values, run, longer, next),
                },
            }
        }
        ExprView::Primitive { op, args, operand_type, return_type } => {
            lemma_evaluated_all(args, 0, Seq::empty(), env, run, longer, session, budget);
            match semantics::evaluated_all(args, 0, Seq::empty(), env, run, session, budget) {
                Err(_) => {}
                Ok((values, next)) => lemma_primitive(op, operand_type, return_type, values, run, longer, next),
            }
        }
        ExprView::Cast { from, .. } => lemma_evaluated(*from, env, run, longer, session, budget),
        ExprView::PolicyNarrow { from, .. } => lemma_evaluated(*from, env, run, longer, session, budget),
        ExprView::EnumConstructor { payload, .. } => match payload {
            None => {}
            Some(part) => lemma_evaluated(*part, env, run, longer, session, budget),
        },
        ExprView::Record(fields) => lemma_evaluated_fields(
            fields,
            crate::lowered::field_order::name_order(fields, fields.len() as int),
            0,
            Seq::empty(),
            env,
            run,
            longer,
            session,
            budget,
        ),
        ExprView::Tuple(items) => lemma_evaluated_all(items, 0, Seq::empty(), env, run, longer, session, budget),
        ExprView::Array(items) => lemma_evaluated_all(items, 0, Seq::empty(), env, run, longer, session, budget),
        ExprView::Mapping(items) => lemma_evaluated_pairs(items, 0, Seq::empty(), env, run, longer, session, budget),
        ExprView::Range { start, end, step } => {
            lemma_evaluated_int(*start, env, run, longer, session, budget);
            match semantics::evaluated_int(*start, env, run, session, budget) {
                Err(_) => {}
                Ok((_, next)) => {
                    lemma_evaluated_int(*end, env, run, longer, next, budget);
                    match semantics::evaluated_int(*end, env, run, next, budget) {
                        Err(_) => {}
                        Ok((_, last)) => lemma_evaluated_int(*step, env, run, longer, last, budget),
                    }
                }
            }
        }
        ExprView::If { cond, then_e, else_e } => {
            lemma_evaluated(*cond, env, run, longer, session, budget);
            match semantics::evaluated(*cond, env, run, session, budget) {
                Err(_) => {}
                Ok((value, next)) => match value {
                    ValueView::Bool(true) => lemma_evaluated(*then_e, env, run, longer, next, budget),
                    ValueView::Bool(false) => lemma_evaluated(*else_e, env, run, longer, next, budget),
                    _ => {}
                },
            }
        }
    }
}

proof fn lemma_evaluated_int(
    expr: ExprView,
    env: Env,
    run: RunView,
    longer: RunView,
    session: SessionView,
    budget: nat,
)
    requires
        continues(run, longer),
        settled(semantics::evaluated_int(expr, env, run, session, budget)),
    ensures
        semantics::evaluated_int(
            expr,
            env,
            longer,
            session,
            budget,
        ) == semantics::evaluated_int(expr, env, run, session, budget),
    decreases budget, 0int, expr, 1int, 0int,
{
    lemma_evaluated(expr, env, run, longer, session, budget);
}

proof fn lemma_evaluated_all(
    exprs: Seq<ExprView>,
    from: int,
    done: Seq<ValueView>,
    env: Env,
    run: RunView,
    longer: RunView,
    session: SessionView,
    budget: nat,
)
    requires
        continues(run, longer),
        settled(semantics::evaluated_all(exprs, from, done, env, run, session, budget)),
    ensures
        semantics::evaluated_all(
            exprs,
            from,
            done,
            env,
            longer,
            session,
            budget,
        ) == semantics::evaluated_all(exprs, from, done, env, run, session, budget),
    decreases budget, 0int, exprs, 0int, exprs.len() - from,
{
    if 0 <= from < exprs.len() {
        lemma_evaluated(exprs[from], env, run, longer, session, budget);
        match semantics::evaluated(exprs[from], env, run, session, budget) {
            Err(_) => {}
            Ok((value, next)) => lemma_evaluated_all(
                exprs,
                from + 1,
                done.push(value),
                env,
                run,
                longer,
                next,
                budget,
            ),
        }
    }
}

proof fn lemma_evaluated_fields(
    fields: Seq<FieldExprView>,
    order: Seq<int>,
    from: int,
    done: Seq<FieldValueView>,
    env: Env,
    run: RunView,
    longer: RunView,
    session: SessionView,
    budget: nat,
)
    requires
        continues(run, longer),
        settled(semantics::evaluated_fields(fields, order, from, done, env, run, session, budget)),
    ensures
        semantics::evaluated_fields(
            fields,
            order,
            from,
            done,
            env,
            longer,
            session,
            budget,
        ) == semantics::evaluated_fields(fields, order, from, done, env, run, session, budget),
    decreases budget, 0int, fields, 0int, order.len() - from,
{
    if 0 <= from < order.len() && 0 <= order[from] < fields.len() {
        lemma_evaluated(fields[order[from]].value, env, run, longer, session, budget);
        match semantics::evaluated(fields[order[from]].value, env, run, session, budget) {
            Err(_) => {}
            Ok((value, next)) => lemma_evaluated_fields(
                fields,
                order,
                from + 1,
                crate::execute::records::with_named(done, 0, FieldValueView { name: fields[order[from]].name, value }),
                env,
                run,
                longer,
                next,
                budget,
            ),
        }
    }
}

proof fn lemma_evaluated_pairs(
    items: Seq<(ExprView, ExprView)>,
    from: int,
    done: Seq<(ValueView, ValueView)>,
    env: Env,
    run: RunView,
    longer: RunView,
    session: SessionView,
    budget: nat,
)
    requires
        continues(run, longer),
        settled(semantics::evaluated_pairs(items, from, done, env, run, session, budget)),
    ensures
        semantics::evaluated_pairs(
            items,
            from,
            done,
            env,
            longer,
            session,
            budget,
        ) == semantics::evaluated_pairs(items, from, done, env, run, session, budget),
    decreases budget, 0int, items, 0int, items.len() - from,
{
    if 0 <= from < items.len() {
        lemma_evaluated(items[from].0, env, run, longer, session, budget);
        match semantics::evaluated(items[from].0, env, run, session, budget) {
            Err(_) => {}
            Ok((key, next)) => {
                lemma_evaluated(items[from].1, env, run, longer, next, budget);
                match semantics::evaluated(items[from].1, env, run, next, budget) {
                    Err(_) => {}
                    Ok((value, last)) => lemma_evaluated_pairs(
                        items,
                        from + 1,
                        semantics::with_pair(done, key, value, last.cells),
                        env,
                        run,
                        longer,
                        last,
                        budget,
                    ),
                }
            }
        }
    }
}

proof fn lemma_bound_args(
    symbol: Seq<char>,
    names: Seq<Seq<char>>,
    next: int,
    args: Seq<ExprView>,
    env: Env,
    scope: Env,
    run: RunView,
    longer: RunView,
    session: SessionView,
    budget: nat,
)
    requires
        continues(run, longer),
        settled(semantics::bound_args(symbol, names, next, args, env, scope, run, session, budget)),
    ensures
        semantics::bound_args(symbol, names, next, args, env, scope, longer, session, budget) == semantics::bound_args(
            symbol,
            names,
            next,
            args,
            env,
            scope,
            run,
            session,
            budget,
        ),
    decreases budget, 0int, args, 0int, names.len() - next,
{
    if 0 <= next < names.len() && next < args.len() {
        lemma_evaluated(args[next], env, run, longer, session, budget);
        match semantics::evaluated(args[next], env, run, session, budget) {
            Err(_) => {}
            Ok((value, last)) => lemma_bound_args(
                symbol,
                names,
                next + 1,
                args,
                env,
                scope.insert("args."@ + names[next], value),
                run,
                longer,
                last,
                budget,
            ),
        }
    }
}

proof fn lemma_forwarded(
    signature: FunctionSigView,
    specs: Seq<WasmArgSpecView>,
    next: int,
    args: Seq<ExprView>,
    done: Seq<ValueView>,
    env: Env,
    run: RunView,
    longer: RunView,
    session: SessionView,
    budget: nat,
)
    requires
        continues(run, longer),
        settled(semantics::forwarded(signature, specs, next, args, done, env, run, session, budget)),
    ensures
        semantics::forwarded(
            signature,
            specs,
            next,
            args,
            done,
            env,
            longer,
            session,
            budget,
        ) == semantics::forwarded(signature, specs, next, args, done, env, run, session, budget),
    decreases budget, 0int, args, 0int, specs.len() - next,
{
    if 0 <= next < specs.len() {
        match specs[next] {
            WasmArgSpecView::ConstInt(value) => lemma_forwarded(
                signature,
                specs,
                next + 1,
                args,
                done.push(ValueView::Int(value)),
                env,
                run,
                longer,
                session,
                budget,
            ),
            WasmArgSpecView::ConstStr(value) => lemma_forwarded(
                signature,
                specs,
                next + 1,
                args,
                done.push(ValueView::Str(value)),
                env,
                run,
                longer,
                session,
                budget,
            ),
            WasmArgSpecView::Arg(name) => {
                let place = semantics::name_place(signature.arg_names, 0, name);
                if 0 <= place < signature.arg_names.len() && place < args.len() {
                    lemma_evaluated(args[place], env, run, longer, session, budget);
                    match semantics::evaluated(args[place], env, run, session, budget) {
                        Err(_) => {}
                        Ok((value, last)) => lemma_forwarded(
                            signature,
                            specs,
                            next + 1,
                            args,
                            done.push(value),
                            env,
                            run,
                            longer,
                            last,
                            budget,
                        ),
                    }
                }
            }
        }
    }
}

proof fn lemma_called(call: CallView, env: Env, run: RunView, longer: RunView, session: SessionView, budget: nat)
    requires
        continues(run, longer),
        settled(semantics::called(call, env, run, session, budget)),
    ensures
        semantics::called(call, env, longer, session, budget) == semantics::called(call, env, run, session, budget),
    decreases budget, 0int, call, 0int, 0int,
{
    match semantics::function_from(run.program.functions, 0, call.callee_key) {
        None => {}
        Some(signature) => match signature.body {
            FunctionBodyView::User { statements } => {
                lemma_bound_args(
                    signature.symbol,
                    signature.arg_names,
                    0,
                    call.args,
                    env,
                    Map::empty(),
                    run,
                    longer,
                    session,
                    budget,
                );
                match semantics::bound_args(signature.symbol, signature.arg_names, 0, call.args, env, Map::empty(), run, session, budget) {
                    Err(_) => {}
                    Ok((scope, next)) => if budget > 0 {
                        lemma_executed_block(statements, 0, scope, run, longer, next, (budget - 1) as nat);
                    },
                }
            }
            FunctionBodyView::Wasm { import, wasm_args } => match semantics::targeted(signature.symbol, import, wasm_args.len(), run) {
                Err(_) => {}
                Ok(entry) => {
                    lemma_forwarded(
                        signature,
                        wasm_args,
                        0,
                        call.args,
                        Seq::empty(),
                        env,
                        run,
                        longer,
                        session,
                        budget,
                    );
                    match semantics::forwarded(signature, wasm_args, 0, call.args, Seq::empty(), env, run, session, budget) {
                        Err(_) => {}
                        Ok((values, next)) => lemma_host_called(
                            import,
                            entry,
                            signature.return_type,
                            values,
                            run,
                            longer,
                            next,
                        ),
                    }
                }
            },
        },
    }
}

proof fn lemma_executed(
    stmt: StatementView,
    env: Env,
    run: RunView,
    longer: RunView,
    session: SessionView,
    budget: nat,
)
    requires
        continues(run, longer),
        settled(semantics::executed(stmt, env, run, session, budget)),
    ensures
        semantics::executed(
            stmt,
            env,
            longer,
            session,
            budget,
        ) == semantics::executed(stmt, env, run, session, budget),
    decreases budget, 2int, stmt, 1int, 0int,
{
    match stmt {
        StatementView::Return(expr) => lemma_evaluated(expr, env, run, longer, session, budget),
        StatementView::Call(call) => lemma_called(call, env, run, longer, session, budget),
        StatementView::Let { value, .. } => lemma_let_value(value, env, run, longer, session, budget),
        StatementView::Assign { value, .. } => lemma_evaluated(value, env, run, longer, session, budget),
        StatementView::Match { target, arms } => {
            lemma_evaluated(target, env, run, longer, session, budget);
            match semantics::evaluated(target, env, run, session, budget) {
                Err(_) => {}
                Ok((value, next)) => lemma_executed_arms(arms, 0, value, env, run, longer, next, budget),
            }
        }
        StatementView::Eval(expr) => lemma_evaluated(expr, env, run, longer, session, budget),
        StatementView::If { cond, then_body, else_body } => {
            lemma_evaluated(cond, env, run, longer, session, budget);
            match semantics::evaluated(cond, env, run, session, budget) {
                Err(_) => {}
                Ok((value, next)) => match value {
                    ValueView::Bool(true) => lemma_executed_block(then_body, 0, env, run, longer, next, budget),
                    ValueView::Bool(false) => lemma_executed_block(else_body, 0, env, run, longer, next, budget),
                    _ => {}
                },
            }
        }
        StatementView::While { cond, body } => lemma_looped(cond, body, env, run, longer, session, budget),
        StatementView::For { var, source, body } => {
            lemma_evaluated(source, env, run, longer, session, budget);
            match semantics::evaluated(source, env, run, session, budget) {
                Err(_) => {}
                Ok((value, next)) => match semantics::traversed(value, run.config.max_alloc_len) {
                    Err(_) => {}
                    Ok(items) => lemma_each_executed(var, items, 0, body, env, run, longer, next, budget),
                },
            }
        }
        StatementView::Task { captures, body } => match semantics::captured(captures, 0, env, Map::empty()) {
            Err(_) => {}
            Ok(scope) => lemma_executed_block(body, 0, scope, run, longer, session, budget),
        },
        StatementView::Spawn { captures, value, .. } => match semantics::captured(captures, 0, env, Map::empty()) {
            Err(_) => {}
            Ok(scope) => lemma_evaluated(value, scope, run, longer, session, budget),
        },
        StatementView::Join { .. } | StatementView::Break | StatementView::Continue => {}
    }
}

proof fn lemma_let_value(
    value: LetValueView,
    env: Env,
    run: RunView,
    longer: RunView,
    session: SessionView,
    budget: nat,
)
    requires
        continues(run, longer),
        settled(semantics::let_value(value, env, run, session, budget)),
    ensures
        semantics::let_value(
            value,
            env,
            longer,
            session,
            budget,
        ) == semantics::let_value(value, env, run, session, budget),
    decreases budget, 1int, value, 1int, 0int,
{
    match value {
        LetValueView::Call(call) => lemma_called(call, env, run, longer, session, budget),
        LetValueView::Expr(expr) => lemma_evaluated(expr, env, run, longer, session, budget),
    }
}

proof fn lemma_executed_block(
    stmts: Seq<StatementView>,
    from: int,
    env: Env,
    run: RunView,
    longer: RunView,
    session: SessionView,
    budget: nat,
)
    requires
        continues(run, longer),
        settled(semantics::executed_block(stmts, from, env, run, session, budget)),
    ensures
        semantics::executed_block(
            stmts,
            from,
            env,
            longer,
            session,
            budget,
        ) == semantics::executed_block(stmts, from, env, run, session, budget),
    decreases budget, 2int, stmts, 0int, stmts.len() - from,
{
    if 0 <= from < stmts.len() {
        lemma_executed(stmts[from], env, run, longer, session, budget);
        match semantics::executed(stmts[from], env, run, session, budget) {
            Err(_) => {}
            Ok((flow, scope, next)) => if flow is Next {
                lemma_executed_block(stmts, from + 1, scope, run, longer, next, budget);
            },
        }
    }
}

proof fn lemma_executed_arms(
    arms: Seq<MatchArmView>,
    from: int,
    value: ValueView,
    env: Env,
    run: RunView,
    longer: RunView,
    session: SessionView,
    budget: nat,
)
    requires
        continues(run, longer),
        settled(semantics::executed_arms(arms, from, value, env, run, session, budget)),
    ensures
        semantics::executed_arms(
            arms,
            from,
            value,
            env,
            longer,
            session,
            budget,
        ) == semantics::executed_arms(arms, from, value, env, run, session, budget),
    decreases budget, 2int, arms, 0int, arms.len() - from,
{
    if 0 <= from < arms.len() {
        let context = MatchContext { impls: run.program.impls, cells: session.cells };
        let (found, scope) = crate::execute::pattern::matched(arms[from].pattern, value, context, env);
        if found {
            lemma_executed_block(arms[from].body, 0, scope, run, longer, session, budget);
        } else {
            lemma_executed_arms(arms, from + 1, value, env, run, longer, session, budget);
        }
    }
}

proof fn lemma_looped(
    cond: ExprView,
    body: Seq<StatementView>,
    env: Env,
    run: RunView,
    longer: RunView,
    session: SessionView,
    budget: nat,
)
    requires
        continues(run, longer),
        settled(semantics::looped(cond, body, env, run, session, budget)),
    ensures
        semantics::looped(
            cond,
            body,
            env,
            longer,
            session,
            budget,
        ) == semantics::looped(cond, body, env, run, session, budget),
    decreases budget, 2int, body, 2int, 0int,
{
    if budget > 0 {
        let left = (budget - 1) as nat;
        lemma_evaluated(cond, env, run, longer, session, left);
        match semantics::evaluated(cond, env, run, session, left) {
            Err(_) => {}
            Ok((value, next)) => match value {
                ValueView::Bool(true) => {
                    lemma_executed_block(body, 0, env, run, longer, next, left);
                    match semantics::executed_block(body, 0, env, run, next, left) {
                        Err(_) => {}
                        Ok((flow, scope, last)) => match flow {
                            FlowView::Next | FlowView::Continue => lemma_looped(
                                cond,
                                body,
                                scope,
                                run,
                                longer,
                                last,
                                left,
                            ),
                            _ => {}
                        },
                    }
                }
                _ => {}
            },
        }
    }
}

proof fn lemma_each_executed(
    var: Seq<char>,
    items: Seq<ValueView>,
    next: int,
    body: Seq<StatementView>,
    env: Env,
    run: RunView,
    longer: RunView,
    session: SessionView,
    budget: nat,
)
    requires
        continues(run, longer),
        settled(semantics::each_executed(var, items, next, body, env, run, session, budget)),
    ensures
        semantics::each_executed(
            var,
            items,
            next,
            body,
            env,
            longer,
            session,
            budget,
        ) == semantics::each_executed(var, items, next, body, env, run, session, budget),
    decreases budget, 2int, body, 1int, items.len() - next,
{
    if 0 <= next < items.len() {
        let scope = env.insert(var, items[next]);
        lemma_executed_block(body, 0, scope, run, longer, session, budget);
        match semantics::executed_block(body, 0, scope, run, session, budget) {
            Err(_) => {}
            Ok((flow, _, last)) => match flow {
                FlowView::Next | FlowView::Continue => lemma_each_executed(
                    var,
                    items,
                    next + 1,
                    body,
                    env,
                    run,
                    longer,
                    last,
                    budget,
                ),
                _ => {}
            },
        }
    }
}

proof fn lemma_ran(from: int, env: Env, run: RunView, longer: RunView, session: SessionView, budget: nat)
    requires
        continues(run, longer),
        settled(semantics::ran(from, env, run, session, budget)),
    ensures
        semantics::ran(from, env, longer, session, budget) == semantics::ran(from, env, run, session, budget),
    decreases run.program.statements.len() - from,
{
    if 0 <= from < run.program.statements.len() {
        lemma_executed(run.program.statements[from], env, run, longer, session, budget);
        match semantics::executed(run.program.statements[from], env, run, session, budget) {
            Err(_) => {}
            Ok((flow, scope, next)) => if flow is Next {
                lemma_ran(from + 1, scope, run, longer, next, budget);
            },
        }
    }
}

// Laws.

/// A program that ends, fails or runs out of its budget on the replies so far
/// does the same when there are more.
pub proof fn law_more_replies_change_nothing(run: RunView, longer: RunView, budget: nat)
    requires
        continues(run, longer),
        settled(semantics::program_run(run, budget)),
    ensures
        semantics::program_run(longer, budget) == semantics::program_run(run, budget),
{
    match semantics::seeded(run.program.main_arg_bindings, 0, run.config, Map::empty()) {
        Err(_) => {}
        Ok(env) => lemma_ran(0, env, run, longer, SessionView::initial(run.config), budget),
    }
}

/// The same holds of an expression.
pub proof fn law_more_replies_keep_values(
    expr: ExprView,
    env: Env,
    run: RunView,
    longer: RunView,
    session: SessionView,
    budget: nat,
)
    requires
        continues(run, longer),
        settled(semantics::evaluated(expr, env, run, session, budget)),
    ensures
        semantics::evaluated(
            expr,
            env,
            longer,
            session,
            budget,
        ) == semantics::evaluated(expr, env, run, session, budget),
{
    lemma_evaluated(expr, env, run, longer, session, budget);
}

} // verus!
