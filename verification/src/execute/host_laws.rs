//! What is asked of the host, and with whose authority.
use vstd::prelude::*;
use crate::execute::host_view::{EnvPairView, RequestView};
use crate::execute::library_laws::{went_well, went_wrong};
use crate::execute::session::{HaltView, Outcome, RunView, SessionView};
use crate::execute::{
    authority, environment, ops_environment, ops_files, ops_network, ops_process, ops_streams, ops_system, policy,
};
use crate::lowered::ir::CapabilityDomain;
use crate::lowered::view::{CapabilityValueView, TypeView, ValueView};

verus! {

// Names.

/// Each operation on files is called by its name.
pub proof fn law_file_operations_have_their_names(ty: TypeView, args: Seq<ValueView>, run: RunView, session: SessionView)
    ensures
        ops_files::file_system("fs_open_read"@, ty, args, run, session) == Some(ops_files::fs_open_read(ty, args, run, session)),
        ops_files::file_system("fs_open_write"@, ty, args, run, session) == Some(ops_files::fs_open_write(ty, args, run, session)),
        ops_files::file_system("fs_open_write_options"@, ty, args, run, session) == Some(ops_files::fs_open_write_options(ty, args, run, session)),
        ops_files::file_system("fs_open_append"@, ty, args, run, session) == Some(ops_files::fs_open_append(ty, args, run, session)),
        ops_files::file_system("fs_open_read_write"@, ty, args, run, session) == Some(ops_files::fs_open_read_write(ty, args, run, session)),
        ops_files::file_system("fs_read_to_string"@, ty, args, run, session) == Some(ops_files::fs_read_to_string(ty, args, run, session)),
        ops_files::file_system("fs_write_string_all"@, ty, args, run, session) == Some(ops_files::fs_write_string_all(ty, args, run, session)),
        ops_files::file_system("fs_append_string"@, ty, args, run, session) == Some(ops_files::fs_append_string(ty, args, run, session)),
        ops_files::file_system("fs_exists"@, ty, args, run, session) == Some(ops_files::fs_exists(args, run, session)),
        ops_files::file_system("fs_create_dir_all"@, ty, args, run, session) == Some(ops_files::fs_create_dir_all(ty, args, run, session)),
        ops_files::file_system("fs_remove_file"@, ty, args, run, session) == Some(ops_files::fs_remove_file(ty, args, run, session)),
        ops_files::file_system("fs_remove_dir"@, ty, args, run, session) == Some(ops_files::fs_remove_dir(ty, args, run, session)),
        ops_files::file_system("fs_read_dir"@, ty, args, run, session) == Some(ops_files::fs_read_dir(ty, args, run, session)),
        ops_files::file_system("fs_read_dir_entries"@, ty, args, run, session) == Some(ops_files::fs_read_dir_entries(ty, args, run, session)),
        ops_files::file_system("fs_metadata"@, ty, args, run, session) == Some(ops_files::fs_metadata(ty, args, run, session)),
        ops_files::file_system("fs_canonicalize"@, ty, args, run, session) == Some(ops_files::fs_canonicalize(ty, args, run, session)),
        ops_files::file_system("fs_rename"@, ty, args, run, session) == Some(ops_files::fs_rename(ty, args, run, session)),
        ops_files::file_system("fs_copy"@, ty, args, run, session) == Some(ops_files::fs_copy(ty, args, run, session)),
{
    reveal_strlit("fs_open_read");
    reveal_strlit("fs_open_write");
    reveal_strlit("fs_open_write_options");
    reveal_strlit("fs_open_append");
    reveal_strlit("fs_open_read_write");
    reveal_strlit("fs_read_to_string");
    reveal_strlit("fs_write_string_all");
    reveal_strlit("fs_append_string");
    reveal_strlit("fs_exists");
    reveal_strlit("fs_create_dir_all");
    reveal_strlit("fs_remove_file");
    reveal_strlit("fs_remove_dir");
    reveal_strlit("fs_read_dir");
    reveal_strlit("fs_read_dir_entries");
    reveal_strlit("fs_metadata");
    reveal_strlit("fs_canonicalize");
    reveal_strlit("fs_rename");
    reveal_strlit("fs_copy");
    assert("fs_open_read"@.len() == 12);
    assert("fs_open_write"@.len() == 13);
    assert("fs_open_write_options"@.len() == 21);
    assert("fs_open_append"@.len() == 14);
    assert("fs_open_read_write"@.len() == 18);
    assert("fs_read_to_string"@.len() == 17);
    assert("fs_write_string_all"@.len() == 19);
    assert("fs_append_string"@.len() == 16);
    assert("fs_exists"@.len() == 9);
    assert("fs_create_dir_all"@.len() == 17);
    assert("fs_remove_file"@.len() == 14);
    assert("fs_remove_dir"@.len() == 13);
    assert("fs_read_dir"@.len() == 11);
    assert("fs_read_dir_entries"@.len() == 19);
    assert("fs_metadata"@.len() == 11);
    assert("fs_canonicalize"@.len() == 15);
    assert("fs_rename"@.len() == 9);
    assert("fs_copy"@.len() == 7);
    assert("fs_read_to_string"@[3] == 'r' && "fs_create_dir_all"@[3] == 'c');
    assert("fs_open_append"@[3] == 'o' && "fs_remove_file"@[3] == 'r');
    assert("fs_open_write"@[3] == 'o' && "fs_remove_dir"@[3] == 'r');
    assert("fs_write_string_all"@[3] == 'w' && "fs_read_dir_entries"@[3] == 'r');
    assert("fs_read_dir"@[3] == 'r' && "fs_metadata"@[3] == 'm');
    assert("fs_exists"@[3] == 'e' && "fs_rename"@[3] == 'r');
}

/// Each operation on the environment is called by its name.
pub proof fn law_environment_operations_have_their_names(ty: TypeView, args: Seq<ValueView>, run: RunView, session: SessionView)
    ensures
        ops_environment::environment("env_get"@, ty, args, run, session) == Some(ops_environment::env_get(ty, args, run, session)),
        ops_environment::environment("env_set"@, ty, args, run, session) == Some(ops_environment::env_set(ty, args, run, session)),
        ops_environment::environment("env_remove"@, ty, args, run, session) == Some(ops_environment::env_remove(ty, args, run, session)),
        ops_environment::environment("env_list"@, ty, args, run, session) == Some(ops_environment::env_list(args, run, session)),
{
    reveal_strlit("env_get");
    reveal_strlit("env_set");
    reveal_strlit("env_remove");
    reveal_strlit("env_list");
    assert("env_get"@.len() == 7);
    assert("env_set"@.len() == 7);
    assert("env_remove"@.len() == 10);
    assert("env_list"@.len() == 8);
    assert("env_get"@[4] == 'g' && "env_set"@[4] == 's');
}

/// Each operation on streams is called by its name.
pub proof fn law_stream_operations_have_their_names(ty: TypeView, args: Seq<ValueView>, run: RunView, session: SessionView)
    ensures
        ops_streams::streams("stdin_open"@, ty, args, run, session) == Some(ops_streams::stdin_open(args, run, session)),
        ops_streams::streams("stdout_open"@, ty, args, run, session) == Some(ops_streams::stdout_open(run, session)),
        ops_streams::streams("stderr_open"@, ty, args, run, session) == Some(ops_streams::stderr_open(run, session)),
        ops_streams::streams("fd_read"@, ty, args, run, session) == Some(ops_streams::fd_read(ty, args, run, session)),
        ops_streams::streams("fd_read_bytes"@, ty, args, run, session) == Some(ops_streams::fd_read_bytes(ty, args, run, session)),
        ops_streams::streams("fd_read_line"@, ty, args, run, session) == Some(ops_streams::fd_read_line(ty, args, run, session)),
        ops_streams::streams("fd_read_bytes_up_to"@, ty, args, run, session) == Some(ops_streams::fd_read_bytes_up_to(ty, args, run, session)),
        ops_streams::streams("fd_write"@, ty, args, run, session) == Some(ops_streams::fd_write(ty, args, run, session)),
        ops_streams::streams("fd_write_bytes"@, ty, args, run, session) == Some(ops_streams::fd_write_bytes(ty, args, run, session)),
        ops_streams::streams("fd_write_bytes_some"@, ty, args, run, session) == Some(ops_streams::fd_write_bytes_some(ty, args, run, session)),
        ops_streams::streams("fd_sync"@, ty, args, run, session) == Some(ops_streams::fd_sync(ty, args, run, session)),
        ops_streams::streams("fd_close"@, ty, args, run, session) == Some(ops_streams::fd_close(ty, args, run, session)),
{
    reveal_strlit("stdin_open");
    reveal_strlit("stdout_open");
    reveal_strlit("stderr_open");
    reveal_strlit("fd_read");
    reveal_strlit("fd_read_bytes");
    reveal_strlit("fd_read_line");
    reveal_strlit("fd_read_bytes_up_to");
    reveal_strlit("fd_write");
    reveal_strlit("fd_write_bytes");
    reveal_strlit("fd_write_bytes_some");
    reveal_strlit("fd_sync");
    reveal_strlit("fd_close");
    assert("stdin_open"@.len() == 10);
    assert("stdout_open"@.len() == 11);
    assert("stderr_open"@.len() == 11);
    assert("fd_read"@.len() == 7);
    assert("fd_read_bytes"@.len() == 13);
    assert("fd_read_line"@.len() == 12);
    assert("fd_read_bytes_up_to"@.len() == 19);
    assert("fd_write"@.len() == 8);
    assert("fd_write_bytes"@.len() == 14);
    assert("fd_write_bytes_some"@.len() == 19);
    assert("fd_sync"@.len() == 7);
    assert("fd_close"@.len() == 8);
    assert("stdout_open"@[3] == 'o' && "stderr_open"@[3] == 'e');
    assert("fd_read_bytes_up_to"@[3] == 'r' && "fd_write_bytes_some"@[3] == 'w');
    assert("fd_read"@[3] == 'r' && "fd_sync"@[3] == 's');
    assert("fd_write"@[3] == 'w' && "fd_close"@[3] == 'c');
}

/// Each operation on processes is called by its name.
pub proof fn law_process_operations_have_their_names(ty: TypeView, args: Seq<ValueView>, run: RunView, session: SessionView)
    ensures
        ops_process::processes("process_run"@, ty, args, run, session) == Some(ops_process::process_run(ty, args, run, session)),
        ops_process::processes("process_spawn"@, ty, args, run, session) == Some(ops_process::process_spawn(ty, args, run, session)),
        ops_process::processes("process_wait"@, ty, args, run, session) == Some(ops_process::process_wait(ty, args, run, session)),
        ops_process::processes("process_kill"@, ty, args, run, session) == Some(ops_process::process_kill(ty, args, run, session)),
        ops_process::processes("process_child_stdin"@, ty, args, run, session) == Some(ops_process::process_child_stdin(ty, args, run, session)),
        ops_process::processes("process_child_stdout"@, ty, args, run, session) == Some(ops_process::process_child_stdout(ty, args, run, session)),
        ops_process::processes("process_child_stderr"@, ty, args, run, session) == Some(ops_process::process_child_stderr(ty, args, run, session)),
{
    reveal_strlit("process_run");
    reveal_strlit("process_spawn");
    reveal_strlit("process_wait");
    reveal_strlit("process_kill");
    reveal_strlit("process_child_stdin");
    reveal_strlit("process_child_stdout");
    reveal_strlit("process_child_stderr");
    assert("process_run"@.len() == 11);
    assert("process_spawn"@.len() == 13);
    assert("process_wait"@.len() == 12);
    assert("process_kill"@.len() == 12);
    assert("process_child_stdin"@.len() == 19);
    assert("process_child_stdout"@.len() == 20);
    assert("process_child_stderr"@.len() == 20);
    assert("process_wait"@[8] == 'w' && "process_kill"@[8] == 'k');
    assert("process_child_stdout"@[17] == 'o' && "process_child_stderr"@[17] == 'e');
}

/// Each operation on the network is called by its name.
pub proof fn law_network_operations_have_their_names(ty: TypeView, args: Seq<ValueView>, run: RunView, session: SessionView)
    ensures
        ops_network::network("net_address_parse"@, ty, args, run, session) == Some(ops_network::net_address_parse(ty, args, run, session)),
        ops_network::network("net_resolve"@, ty, args, run, session) == Some(ops_network::net_resolve(ty, args, run, session)),
        ops_network::network("net_connect"@, ty, args, run, session) == Some(ops_network::net_connect(ty, args, run, session)),
        ops_network::network("net_listen"@, ty, args, run, session) == Some(ops_network::net_listen(ty, args, run, session)),
        ops_network::network("net_accept"@, ty, args, run, session) == Some(ops_network::net_accept(ty, args, run, session)),
        ops_network::network("net_local_address"@, ty, args, run, session) == Some(ops_network::net_local_address(ty, args, run, session)),
        ops_network::network("net_set_deadline"@, ty, args, run, session) == Some(ops_network::net_set_deadline(ty, args, run, session)),
        ops_network::network("net_shutdown"@, ty, args, run, session) == Some(ops_network::net_shutdown(ty, args, run, session)),
        ops_network::network("net_udp_bind"@, ty, args, run, session) == Some(ops_network::net_udp_bind(ty, args, run, session)),
        ops_network::network("net_udp_connect"@, ty, args, run, session) == Some(ops_network::net_udp_connect(ty, args, run, session)),
        ops_network::network("net_udp_send_to"@, ty, args, run, session) == Some(ops_network::net_udp_send_to(ty, args, run, session)),
        ops_network::network("net_udp_recv_from"@, ty, args, run, session) == Some(ops_network::net_udp_recv_from(ty, args, run, session)),
{
    reveal_strlit("net_address_parse");
    reveal_strlit("net_resolve");
    reveal_strlit("net_connect");
    reveal_strlit("net_listen");
    reveal_strlit("net_accept");
    reveal_strlit("net_local_address");
    reveal_strlit("net_set_deadline");
    reveal_strlit("net_shutdown");
    reveal_strlit("net_udp_bind");
    reveal_strlit("net_udp_connect");
    reveal_strlit("net_udp_send_to");
    reveal_strlit("net_udp_recv_from");
    assert("net_address_parse"@.len() == 17);
    assert("net_resolve"@.len() == 11);
    assert("net_connect"@.len() == 11);
    assert("net_listen"@.len() == 10);
    assert("net_accept"@.len() == 10);
    assert("net_local_address"@.len() == 17);
    assert("net_set_deadline"@.len() == 16);
    assert("net_shutdown"@.len() == 12);
    assert("net_udp_bind"@.len() == 12);
    assert("net_udp_connect"@.len() == 15);
    assert("net_udp_send_to"@.len() == 15);
    assert("net_udp_recv_from"@.len() == 17);
    assert("net_resolve"@[4] == 'r' && "net_connect"@[4] == 'c');
    assert("net_listen"@[4] == 'l' && "net_accept"@[4] == 'a');
    assert("net_address_parse"@[4] == 'a' && "net_local_address"@[4] == 'l');
    assert("net_shutdown"@[4] == 's' && "net_udp_bind"@[4] == 'u');
    assert("net_udp_connect"@[8] == 'c' && "net_udp_send_to"@[8] == 's');
    assert("net_address_parse"@[4] == 'a' && "net_udp_recv_from"@[4] == 'u');
    assert("net_local_address"@[4] == 'l' && "net_udp_recv_from"@[4] == 'u');
}

/// Each operation on clocks, chance and the system is called by its name.
pub proof fn law_system_operations_have_their_names(ty: TypeView, args: Seq<ValueView>, run: RunView, session: SessionView)
    ensures
        ops_system::system("clock_now_unix_millis"@, ty, args, run, session) == Some(ops_system::clock_now_unix_millis(args, run, session)),
        ops_system::system("clock_monotonic_millis"@, ty, args, run, session) == Some(ops_system::clock_monotonic_millis(args, run, session)),
        ops_system::system("clock_sleep_millis"@, ty, args, run, session) == Some(ops_system::clock_sleep_millis(args, run, session)),
        ops_system::system("random_bytes"@, ty, args, run, session) == Some(ops_system::random_bytes(args, run, session)),
        ops_system::system("system_info"@, ty, args, run, session) == Some(ops_system::system_info(args, run, session)),
        ops_system::system("system_args"@, ty, args, run, session) == Some(ops_system::system_args(args, run, session)),
        ops_system::system("system_current_dir"@, ty, args, run, session) == Some(ops_system::system_current_dir(ty, args, run, session)),
        ops_system::system("system_executable"@, ty, args, run, session) == Some(ops_system::system_executable(ty, args, run, session)),
        ops_system::system("system_temp_dir"@, ty, args, run, session) == Some(ops_system::system_temp_dir(args, run, session)),
        ops_system::system("parse_float64"@, ty, args, run, session) == Some(ops_system::parse_float64(ty, args, run, session)),
        ops_system::system("format_float64"@, ty, args, run, session) == Some(ops_system::format_float64(args, run, session)),
{
    reveal_strlit("clock_now_unix_millis");
    reveal_strlit("clock_monotonic_millis");
    reveal_strlit("clock_sleep_millis");
    reveal_strlit("random_bytes");
    reveal_strlit("system_info");
    reveal_strlit("system_args");
    reveal_strlit("system_current_dir");
    reveal_strlit("system_executable");
    reveal_strlit("system_temp_dir");
    reveal_strlit("parse_float64");
    reveal_strlit("format_float64");
    assert("clock_now_unix_millis"@.len() == 21);
    assert("clock_monotonic_millis"@.len() == 22);
    assert("clock_sleep_millis"@.len() == 18);
    assert("random_bytes"@.len() == 12);
    assert("system_info"@.len() == 11);
    assert("system_args"@.len() == 11);
    assert("system_current_dir"@.len() == 18);
    assert("system_executable"@.len() == 17);
    assert("system_temp_dir"@.len() == 15);
    assert("parse_float64"@.len() == 13);
    assert("format_float64"@.len() == 14);
    assert("system_info"@[7] == 'i' && "system_args"@[7] == 'a');
    assert("clock_sleep_millis"@[0] == 'c' && "system_current_dir"@[0] == 's');
}

// Files.

/// Whether a capability lets a path be used in a domain, as what place, and with which
/// session behind it.
pub open spec fn lets(
    path: Seq<char>,
    capability: CapabilityValueView,
    domain: CapabilityDomain,
    run: RunView,
    session: SessionView,
    place: Seq<char>,
    next: SessionView,
) -> bool {
    authority::resolved(path, capability.policy, domain, run, session) == Ok::<
        (Result<Seq<char>, Seq<crate::execute::failure::PartView>>, SessionView),
        HaltView,
    >((Ok(place), next))
}

/// Whether a capability does not let a path be used in a domain.
pub open spec fn forbids(
    path: Seq<char>,
    capability: CapabilityValueView,
    domain: CapabilityDomain,
    run: RunView,
    session: SessionView,
    next: SessionView,
) -> bool {
    authority::resolved(path, capability.policy, domain, run, session) matches Ok((Err(_), left)) && left == next
}

/// Whether an outcome is a refusal that asks the host for nothing more.
pub open spec fn is_refused(outcome: Outcome, next: SessionView) -> bool {
    outcome matches Ok((value, left)) && left == next && went_wrong(value)
}

/// An operation on a path asks the host for what it is named after, at the place that
/// the capability lets it use, reading with the authority to read and changing with the
/// authority to write. Where the capability forbids the path it asks for nothing.
pub proof fn law_file_operations_ask_within_their_authority(
    ty: TypeView,
    path: Seq<char>,
    contents: Seq<char>,
    capability: CapabilityValueView,
    run: RunView,
    session: SessionView,
    place: Seq<char>,
    next: SessionView,
)
    requires
        next.used == run.replies.len(),
    ensures
        ({
            let args = seq![ValueView::Str(path), ValueView::Capability(capability)];
            &&& lets(path, capability, CapabilityDomain::FsRead, run, session, place, next) ==> ops_files::fs_read_to_string(
                ty,
                args,
                run,
                session,
            ) == Outcome::Err(HaltView::Waiting(RequestView::ReadFile { path: place }))
            &&& forbids(path, capability, CapabilityDomain::FsRead, run, session, next) ==> is_refused(
                ops_files::fs_read_to_string(ty, args, run, session),
                next,
            )
            &&& lets(path, capability, CapabilityDomain::FsWrite, run, session, place, next) ==> ops_files::fs_create_dir_all(
                ty,
                args,
                run,
                session,
            ) == Outcome::Err(HaltView::Waiting(RequestView::CreateDirs { path: place }))
            &&& forbids(path, capability, CapabilityDomain::FsWrite, run, session, next) ==> is_refused(
                ops_files::fs_create_dir_all(ty, args, run, session),
                next,
            )
            &&& lets(path, capability, CapabilityDomain::FsWrite, run, session, place, next) ==> ops_files::fs_remove_file(
                ty,
                args,
                run,
                session,
            ) == Outcome::Err(HaltView::Waiting(RequestView::RemoveFile { path: place }))
            &&& forbids(path, capability, CapabilityDomain::FsWrite, run, session, next) ==> is_refused(
                ops_files::fs_remove_file(ty, args, run, session),
                next,
            )
            &&& lets(path, capability, CapabilityDomain::FsWrite, run, session, place, next) ==> ops_files::fs_remove_dir(
                ty,
                args,
                run,
                session,
            ) == Outcome::Err(HaltView::Waiting(RequestView::RemoveDir { path: place }))
            &&& forbids(path, capability, CapabilityDomain::FsWrite, run, session, next) ==> is_refused(
                ops_files::fs_remove_dir(ty, args, run, session),
                next,
            )
            &&& lets(path, capability, CapabilityDomain::FsRead, run, session, place, next) ==> ops_files::fs_read_dir(
                ty,
                args,
                run,
                session,
            ) == Outcome::Err(HaltView::Waiting(RequestView::ListNames { path: place }))
            &&& forbids(path, capability, CapabilityDomain::FsRead, run, session, next) ==> is_refused(
                ops_files::fs_read_dir(ty, args, run, session),
                next,
            )
            &&& lets(path, capability, CapabilityDomain::FsRead, run, session, place, next) ==> ops_files::fs_read_dir_entries(
                ty,
                args,
                run,
                session,
            ) == Outcome::Err(HaltView::Waiting(RequestView::ListEntries { path: place }))
            &&& forbids(path, capability, CapabilityDomain::FsRead, run, session, next) ==> is_refused(
                ops_files::fs_read_dir_entries(ty, args, run, session),
                next,
            )
            &&& lets(path, capability, CapabilityDomain::FsRead, run, session, place, next) ==> ops_files::fs_metadata(
                ty,
                args,
                run,
                session,
            ) == Outcome::Err(HaltView::Waiting(RequestView::Metadata { path: place }))
            &&& forbids(path, capability, CapabilityDomain::FsRead, run, session, next) ==> is_refused(
                ops_files::fs_metadata(ty, args, run, session),
                next,
            )
            &&& lets(path, capability, CapabilityDomain::FsRead, run, session, place, next) ==> ops_files::fs_canonicalize(
                ty,
                args,
                run,
                session,
            ) == Outcome::Err(HaltView::Waiting(RequestView::Canonicalize { path: place }))
            &&& forbids(path, capability, CapabilityDomain::FsRead, run, session, next) ==> is_refused(
                ops_files::fs_canonicalize(ty, args, run, session),
                next,
            )
            &&& lets(path, capability, CapabilityDomain::FsRead, run, session, place, next) ==> ops_files::fs_exists(
                args,
                run,
                session,
            ) == Outcome::Err(HaltView::Waiting(RequestView::PathExists { path: place }))
            &&& forbids(path, capability, CapabilityDomain::FsRead, run, session, next) ==> (ops_files::fs_exists(
                args,
                run,
                session,
            ) matches Err(HaltView::Failed(_)))
        }),
        ({
            let args = seq![ValueView::Str(path), ValueView::Str(contents), ValueView::Capability(capability)];
            &&& lets(path, capability, CapabilityDomain::FsWrite, run, session, place, next)
                ==> ops_files::fs_write_string_all(ty, args, run, session) == Outcome::Err(
                HaltView::Waiting(RequestView::WriteFile { path: place, contents }),
            ) && ops_files::fs_append_string(ty, args, run, session) == Outcome::Err(
                HaltView::Waiting(RequestView::AppendFile { path: place, contents }),
            )
            &&& forbids(path, capability, CapabilityDomain::FsWrite, run, session, next) ==> is_refused(
                ops_files::fs_write_string_all(ty, args, run, session),
                next,
            ) && is_refused(ops_files::fs_append_string(ty, args, run, session), next)
        }),
{
    let two = seq![ValueView::Str(path), ValueView::Capability(capability)];
    let three = seq![ValueView::Str(path), ValueView::Str(contents), ValueView::Capability(capability)];
    assert(two[0] == ValueView::Str(path) && two[1] == ValueView::Capability(capability));
    assert(three[0] == ValueView::Str(path) && three[1] == ValueView::Str(contents) && three[2]
        == ValueView::Capability(capability));
}

/// Opening asks the host to open the file for what the operation is named after: reading
/// with the authority to read, writing and appending with the authority to write; only
/// writing empties the file.
pub proof fn law_files_are_opened_for_what_is_asked(
    ty: TypeView,
    path: Seq<char>,
    capability: CapabilityValueView,
    run: RunView,
    session: SessionView,
    place: Seq<char>,
    next: SessionView,
)
    requires
        next.used == run.replies.len(),
    ensures
        ({
            let args = seq![ValueView::Str(path), ValueView::Capability(capability)];
            &&& lets(path, capability, CapabilityDomain::FsRead, run, session, place, next) ==> (ops_files::fs_open_read(
                ty,
                args,
                run,
                session,
            ) matches Err(HaltView::Waiting(request)) ==> (request matches RequestView::OpenFile { path: at, options, .. }
                && at == place && options.read && !options.write && !options.append && !options.truncate
                && !options.create))
            &&& lets(path, capability, CapabilityDomain::FsWrite, run, session, place, next) ==> (
            ops_files::fs_open_write(ty, args, run, session) matches Err(HaltView::Waiting(request)) ==> (request
                matches RequestView::OpenFile { path: at, options, .. } && at == place && options.write && !options.read
                && options.truncate && options.create && !options.append))
            &&& lets(path, capability, CapabilityDomain::FsWrite, run, session, place, next) ==> (
            ops_files::fs_open_append(ty, args, run, session) matches Err(HaltView::Waiting(request)) ==> (request
                matches RequestView::OpenFile { path: at, options, .. } && at == place && options.append
                && !options.truncate && options.create && !options.read))
            &&& forbids(path, capability, CapabilityDomain::FsRead, run, session, next) ==> is_refused(
                ops_files::fs_open_read(ty, args, run, session),
                next,
            )
            &&& forbids(path, capability, CapabilityDomain::FsWrite, run, session, next) ==> is_refused(
                ops_files::fs_open_write(ty, args, run, session),
                next,
            ) && is_refused(ops_files::fs_open_append(ty, args, run, session), next)
        }),
{
    let two = seq![ValueView::Str(path), ValueView::Capability(capability)];
    assert(two[0] == ValueView::Str(path) && two[1] == ValueView::Capability(capability));
}

/// Renaming and copying go from the first path to the second; both need authority, and
/// copying only reads the first.
pub proof fn law_files_go_from_the_first_path_to_the_second(
    ty: TypeView,
    source: Seq<char>,
    target: Seq<char>,
    reading: CapabilityValueView,
    writing: CapabilityValueView,
    run: RunView,
    session: SessionView,
    from: Seq<char>,
    middle: SessionView,
    to: Seq<char>,
    next: SessionView,
)
    requires
        next.used == run.replies.len(),
    ensures
        lets(source, reading, CapabilityDomain::FsRead, run, session, from, middle) && lets(
            target,
            writing,
            CapabilityDomain::FsWrite,
            run,
            middle,
            to,
            next,
        ) ==> ops_files::fs_copy(
            ty,
            seq![
                ValueView::Str(source),
                ValueView::Str(target),
                ValueView::Capability(reading),
                ValueView::Capability(writing),
            ],
            run,
            session,
        ) == Outcome::Err(HaltView::Waiting(RequestView::CopyFile { from, to })),
        lets(source, writing, CapabilityDomain::FsWrite, run, session, from, middle) && lets(
            target,
            writing,
            CapabilityDomain::FsWrite,
            run,
            middle,
            to,
            next,
        ) ==> ops_files::fs_rename(
            ty,
            seq![ValueView::Str(source), ValueView::Str(target), ValueView::Capability(writing)],
            run,
            session,
        ) == Outcome::Err(HaltView::Waiting(RequestView::Rename { from, to })),
{
    let three = seq![ValueView::Str(source), ValueView::Str(target), ValueView::Capability(writing)];
    let four = seq![
        ValueView::Str(source),
        ValueView::Str(target),
        ValueView::Capability(reading),
        ValueView::Capability(writing),
    ];
    assert(three[0] == ValueView::Str(source) && three[1] == ValueView::Str(target) && three[2]
        == ValueView::Capability(writing));
    assert(four[0] == ValueView::Str(source) && four[1] == ValueView::Str(target) && four[2] == ValueView::Capability(
        reading,
    ) && four[3] == ValueView::Capability(writing));
}

// The environment.

proof fn lemma_variable_place(pairs: Seq<EnvPairView>, from: int, name: Seq<char>)
    requires
        0 <= from <= pairs.len(),
    ensures
        ({
            let place = environment::variable_place(pairs, from, name);
            &&& from <= place <= pairs.len()
            &&& place < pairs.len() ==> pairs[place].name == name
            &&& forall|i: int| from <= i < place ==> (#[trigger] pairs[i]).name != name
        }),
    decreases pairs.len() - from,
{
    if from < pairs.len() && pairs[from].name != name {
        lemma_variable_place(pairs, from + 1, name);
    }
}

proof fn lemma_place_is(pairs: Seq<EnvPairView>, from: int, place: int, name: Seq<char>)
    requires
        0 <= from <= place <= pairs.len(),
        place < pairs.len() ==> pairs[place].name == name,
        forall|i: int| from <= i < place ==> (#[trigger] pairs[i]).name != name,
    ensures
        environment::variable_place(pairs, from, name) == place,
    decreases place - from,
{
    if from < place {
        lemma_place_is(pairs, from + 1, place, name);
    }
}

/// A variable that is set has the value it was set to, and every other variable the one
/// it had; one that is removed is gone, where each name is there once.
pub proof fn law_variables_are_set_and_removed(
    pairs: Seq<EnvPairView>,
    name: Seq<char>,
    value: Seq<char>,
    other: Seq<char>,
)
    requires
        forall|i: int, j: int| 0 <= i < j < pairs.len() ==> (#[trigger] pairs[i]).name != (#[trigger] pairs[j]).name,
    ensures
        environment::variable(environment::with_variable(pairs, name, value), name) == Some(value),
        other != name ==> environment::variable(environment::with_variable(pairs, name, value), other)
            == environment::variable(pairs, other),
        environment::variable(environment::without_variable(pairs, name), name) is None,
        other != name ==> environment::variable(environment::without_variable(pairs, name), other)
            == environment::variable(pairs, other),
{
    let place = environment::variable_place(pairs, 0, name);
    let second = environment::variable_place(pairs, 0, other);
    lemma_variable_place(pairs, 0, name);
    lemma_variable_place(pairs, 0, other);
    let with = environment::with_variable(pairs, name, value);
    let without = environment::without_variable(pairs, name);
    assert forall|i: int| 0 <= i < place implies (#[trigger] with[i]).name != name by {
        assert(with[i] == pairs[i]);
    }
    lemma_place_is(with, 0, place, name);
    assert forall|i: int| 0 <= i < without.len() implies (#[trigger] without[i]).name != name by {
        if i < place {
            assert(without[i] == pairs[i]);
        } else if place < pairs.len() {
            assert(without[i] == pairs[i + 1]);
            assert(pairs[place].name != pairs[i + 1].name);
        }
    }
    lemma_place_is(without, 0, without.len() as int, name);
    if other != name {
        if second < pairs.len() {
            assert forall|i: int| 0 <= i < second implies (#[trigger] with[i]).name != other by {
                assert(with[i].name == pairs[i].name);
            }
            assert(second != place);
            lemma_place_is(with, 0, second, other);
            let moved = if second < place || place >= pairs.len() { second } else { second - 1 };
            assert forall|i: int| 0 <= i < moved implies (#[trigger] without[i]).name != other by {
                if place < pairs.len() && i >= place {
                    assert(without[i] == pairs[i + 1]);
                } else {
                    assert(without[i] == pairs[i]);
                }
            }
            assert(without[moved] == pairs[second]);
            lemma_place_is(without, 0, moved, other);
        } else {
            assert forall|i: int| 0 <= i < with.len() implies (#[trigger] with[i]).name != other by {
                if i < pairs.len() {
                    assert(with[i].name == pairs[i].name);
                }
            }
            lemma_place_is(with, 0, with.len() as int, other);
            assert forall|i: int| 0 <= i < without.len() implies (#[trigger] without[i]).name != other by {
                if place < pairs.len() && i >= place {
                    assert(without[i] == pairs[i + 1]);
                } else {
                    assert(without[i] == pairs[i]);
                }
            }
            lemma_place_is(without, 0, without.len() as int, other);
        }
    }
}

/// Variables are read with the authority to read and changed with the authority to
/// write; without it nothing is read, changed or asked for. A given environment answers
/// by itself, else the host is asked.
pub proof fn law_the_environment_is_guarded(
    ty: TypeView,
    name: Seq<char>,
    value: Seq<char>,
    capability: CapabilityValueView,
    run: RunView,
    session: SessionView,
)
    requires
        session.used == run.replies.len(),
    ensures
        ({
            let two = seq![ValueView::Str(name), ValueView::Capability(capability)];
            let three = seq![ValueView::Str(name), ValueView::Str(value), ValueView::Capability(capability)];
            let reads = policy::scope_check(capability.policy, CapabilityDomain::EnvRead, name) is Ok;
            let writes = policy::scope_check(capability.policy, CapabilityDomain::EnvWrite, name) is Ok
                && environment::valid_name(name);
            &&& !reads ==> is_refused(ops_environment::env_get(ty, two, run, session), session)
            &&& !writes ==> is_refused(ops_environment::env_set(ty, three, run, session), session) && is_refused(
                ops_environment::env_remove(ty, two, run, session),
                session,
            )
            &&& reads && session.environment is None ==> ops_environment::env_get(ty, two, run, session) == Outcome::Err(
                HaltView::Waiting(RequestView::EnvGet { name }),
            )
            &&& writes && session.environment is None ==> ops_environment::env_set(ty, three, run, session)
                == Outcome::Err(HaltView::Waiting(RequestView::EnvSet { name, value })) && ops_environment::env_remove(
                ty,
                two,
                run,
                session,
            ) == Outcome::Err(HaltView::Waiting(RequestView::EnvRemove { name }))
            &&& session.environment matches Some(pairs) ==> {
                &&& reads && environment::variable(pairs, name) is Some ==> ops_environment::env_get(
                    ty,
                    two,
                    run,
                    session,
                ) == Outcome::Ok(
                    (went_well(ty, ValueView::Str(environment::variable(pairs, name)->Some_0)), session),
                )
                &&& reads && environment::variable(pairs, name) is None ==> is_refused(
                    ops_environment::env_get(ty, two, run, session),
                    session,
                )
                &&& writes ==> ops_environment::env_set(ty, three, run, session) == Outcome::Ok(
                    (
                        went_well(ty, ValueView::Void),
                        SessionView { environment: Some(environment::with_variable(pairs, name, value)), ..session },
                    ),
                )
                &&& writes ==> ops_environment::env_remove(ty, two, run, session) == Outcome::Ok(
                    (
                        went_well(ty, ValueView::Void),
                        SessionView { environment: Some(environment::without_variable(pairs, name)), ..session },
                    ),
                )
            }
        }),
{
    let two = seq![ValueView::Str(name), ValueView::Capability(capability)];
    let three = seq![ValueView::Str(name), ValueView::Str(value), ValueView::Capability(capability)];
    assert(two[0] == ValueView::Str(name) && two[1] == ValueView::Capability(capability));
    assert(three[0] == ValueView::Str(name) && three[1] == ValueView::Str(value) && three[2] == ValueView::Capability(
        capability,
    ));
}

// Streams, processes, the network and the system.

/// An operation on a handle asks the host for what it is named after, on that handle,
/// with what it was given; on a handle that is not open it asks for nothing.
pub proof fn law_stream_operations_ask_for_their_handle(
    ty: TypeView,
    handle: crate::lowered::ir::HostHandle,
    text: Seq<char>,
    bytes: ValueView,
    content: Seq<u8>,
    limit: i64,
    run: RunView,
    session: SessionView,
)
    requires
        crate::execute::values::as_bytes(bytes) == Ok::<Seq<u8>, Seq<crate::execute::failure::PartView>>(content),
        !(bytes is HostHandle),
    ensures
        ({
            let id = handle.id;
            let one = seq![ValueView::HostHandle(handle)];
            let texts = seq![ValueView::HostHandle(handle), ValueView::Str(text)];
            let data = seq![ValueView::HostHandle(handle), bytes];
            let number = seq![ValueView::HostHandle(handle), ValueView::Int(limit)];
            &&& ops_streams::fd_read(ty, one, run, session) matches Err(HaltView::Waiting(request)) ==> request == (RequestView::ReadText { id })
            &&& ops_streams::fd_read_bytes(ty, one, run, session) matches Err(HaltView::Waiting(request)) ==> request == (RequestView::ReadBytes { id })
            &&& ops_streams::fd_read_line(ty, one, run, session) matches Err(HaltView::Waiting(request)) ==> request == (RequestView::ReadLine { id })
            &&& ops_streams::fd_sync(ty, one, run, session) matches Err(HaltView::Waiting(request)) ==> request == (RequestView::Flush { id })
            &&& ops_streams::fd_close(ty, one, run, session) matches Err(HaltView::Waiting(request)) ==> request == (RequestView::Close { id })
            &&& ops_streams::fd_read_bytes_up_to(ty, number, run, session) matches Err(HaltView::Waiting(request)) ==> (request matches RequestView::ReadUpTo { id: at, limit: most } && at == id && most <= run.config.max_alloc_len && (0 <= limit <= run.config.max_alloc_len ==> most == limit))
            &&& ops_streams::fd_write(ty, texts, run, session) matches Err(HaltView::Waiting(request)) ==> request == (RequestView::WriteAll { id, bytes: vstd::utf8::encode_utf8(text) })
            &&& ops_streams::fd_write_bytes(ty, data, run, session) matches Err(HaltView::Waiting(request)) ==> request == (RequestView::WriteAll { id, bytes: content })
            &&& ops_streams::fd_write_bytes_some(ty, data, run, session) matches Err(HaltView::Waiting(request)) ==> request == (RequestView::WriteSome { id, bytes: content })
            &&& session.files.lifecycle(id) is Some ==> !(ops_streams::fd_read(ty, one, run, session) matches Err(HaltView::Waiting(_)))
            &&& session.files.lifecycle(id) is Some ==> !(ops_streams::fd_read_bytes(ty, one, run, session) matches Err(HaltView::Waiting(_)))
            &&& session.files.lifecycle(id) is Some ==> !(ops_streams::fd_read_line(ty, one, run, session) matches Err(HaltView::Waiting(_)))
            &&& session.files.lifecycle(id) is Some ==> !(ops_streams::fd_sync(ty, one, run, session) matches Err(HaltView::Waiting(_)))
            &&& session.files.lifecycle(id) is Some ==> !(ops_streams::fd_close(ty, one, run, session) matches Err(HaltView::Waiting(_)))
            &&& session.files.lifecycle(id) is Some ==> !(ops_streams::fd_write(ty, texts, run, session) matches Err(HaltView::Waiting(_)))
            &&& ops_process::process_wait(ty, one, run, session) matches Err(HaltView::Waiting(request)) ==> request == (RequestView::WaitProcess { id })
            &&& ops_process::process_kill(ty, one, run, session) matches Err(HaltView::Waiting(request)) ==> request == (RequestView::KillProcess { id })
            &&& ops_process::process_child_stdin(ty, one, run, session) matches Err(HaltView::Waiting(request)) ==> request == (RequestView::TakePipe { child: id, pipe: crate::execute::host::PipeKind::Stdin, id: session.files.next })
            &&& ops_process::process_child_stdout(ty, one, run, session) matches Err(HaltView::Waiting(request)) ==> request == (RequestView::TakePipe { child: id, pipe: crate::execute::host::PipeKind::Stdout, id: session.files.next })
            &&& ops_process::process_child_stderr(ty, one, run, session) matches Err(HaltView::Waiting(request)) ==> request == (RequestView::TakePipe { child: id, pipe: crate::execute::host::PipeKind::Stderr, id: session.files.next })
            &&& ops_network::net_accept(ty, one, run, session) matches Err(HaltView::Waiting(request)) ==> request == (RequestView::Accept { listener: id, id: session.files.next })
            &&& ops_network::net_local_address(ty, one, run, session) matches Err(HaltView::Waiting(request)) ==> request == (RequestView::LocalAddress { id })
            &&& ops_network::net_set_deadline(ty, number, run, session) matches Err(HaltView::Waiting(request)) ==> (request matches RequestView::SetDeadline { id: at, millis } && at == id && millis == limit)
            &&& ops_network::net_udp_recv_from(ty, number, run, session) matches Err(HaltView::Waiting(request)) ==> (request matches RequestView::UdpReceive { id: at, .. } && at == id)
        }),
{
    let one = seq![ValueView::HostHandle(handle)];
    let texts = seq![ValueView::HostHandle(handle), ValueView::Str(text)];
    let data = seq![ValueView::HostHandle(handle), bytes];
    let number = seq![ValueView::HostHandle(handle), ValueView::Int(limit)];
    assert(one[0] == ValueView::HostHandle(handle) && texts[0] == ValueView::HostHandle(handle) && data[0]
        == ValueView::HostHandle(handle) && number[0] == ValueView::HostHandle(handle));
    assert(texts[1] == ValueView::Str(text) && data[1] == bytes && number[1] == ValueView::Int(limit));
    assert(crate::execute::values::as_handle(ValueView::HostHandle(handle)) == Ok::<
        u64,
        Seq<crate::execute::failure::PartView>,
    >(handle.id));
}

/// The network is used for what an operation is named after, at the address it was
/// given, and only where the capability admits the address: connecting and sending with
/// the authority to connect, listening and binding with the authority to listen.
pub proof fn law_the_network_is_guarded(
    ty: TypeView,
    target: Seq<char>,
    capability: CapabilityValueView,
    handle: crate::lowered::ir::HostHandle,
    bytes: ValueView,
    content: Seq<u8>,
    run: RunView,
    session: SessionView,
)
    requires
        crate::execute::values::as_bytes(bytes) == Ok::<Seq<u8>, Seq<crate::execute::failure::PartView>>(content),
    ensures
        ({
            let two = seq![ValueView::Str(target), ValueView::Capability(capability)];
            let three = seq![ValueView::HostHandle(handle), ValueView::Str(target), ValueView::Capability(capability)];
            let four = seq![
                ValueView::HostHandle(handle),
                bytes,
                ValueView::Str(target),
                ValueView::Capability(capability),
            ];
            let connects = policy::scope_check(capability.policy, CapabilityDomain::NetConnect, target) is Ok;
            let listens = policy::scope_check(capability.policy, CapabilityDomain::NetListen, target) is Ok;
            &&& ops_network::net_resolve(ty, two, run, session) matches Err(HaltView::Waiting(request)) ==> connects && request == (RequestView::ResolveAddress { target })
            &&& ops_network::net_connect(ty, two, run, session) matches Err(HaltView::Waiting(request)) ==> connects && request == (RequestView::Connect { target, id: session.files.next })
            &&& ops_network::net_listen(ty, two, run, session) matches Err(HaltView::Waiting(request)) ==> listens && request == (RequestView::Listen { target, id: session.files.next })
            &&& ops_network::net_udp_bind(ty, two, run, session) matches Err(HaltView::Waiting(request)) ==> listens && request == (RequestView::UdpBind { target, id: session.files.next })
            &&& ops_network::net_udp_connect(ty, three, run, session) matches Err(HaltView::Waiting(request)) ==> connects && request == (RequestView::UdpConnect { id: handle.id, target })
            &&& ops_network::net_udp_send_to(ty, four, run, session) matches Err(HaltView::Waiting(request)) ==> connects && request == (RequestView::UdpSend { id: handle.id, bytes: content, target })
        }),
{
    let two = seq![ValueView::Str(target), ValueView::Capability(capability)];
    let three = seq![ValueView::HostHandle(handle), ValueView::Str(target), ValueView::Capability(capability)];
    let four = seq![
        ValueView::HostHandle(handle),
        bytes,
        ValueView::Str(target),
        ValueView::Capability(capability),
    ];
    assert(two[0] == ValueView::Str(target) && two[1] == ValueView::Capability(capability));
    assert(three[0] == ValueView::HostHandle(handle) && three[1] == ValueView::Str(target) && three[2]
        == ValueView::Capability(capability));
    assert(four[0] == ValueView::HostHandle(handle) && four[1] == bytes && four[2] == ValueView::Str(target) && four[3]
        == ValueView::Capability(capability));
    assert(crate::execute::values::as_handle(ValueView::HostHandle(handle)) == Ok::<
        u64,
        Seq<crate::execute::failure::PartView>,
    >(handle.id));
}

/// Clocks, chance and the system are asked for what an operation is named after, and only
/// where the capability is for it; a process is run only where the capability admits its
/// executable.
pub proof fn law_the_system_is_guarded(
    ty: TypeView,
    capability: CapabilityValueView,
    command: ValueView,
    number: i64,
    run: RunView,
    session: SessionView,
)
    ensures
        ({
            let one = seq![ValueView::Capability(capability)];
            let two = seq![ValueView::Int(number), ValueView::Capability(capability)];
            let process = seq![command, ValueView::Capability(capability)];
            let clock = policy::scope_check(capability.policy, CapabilityDomain::Clock, "*"@) is Ok;
            let random = policy::scope_check(capability.policy, CapabilityDomain::Random, "*"@) is Ok;
            let info = policy::scope_check(capability.policy, CapabilityDomain::SystemInfo, "*"@) is Ok;
            &&& ops_system::clock_now_unix_millis(one, run, session) matches Err(HaltView::Waiting(request)) ==> clock && request == RequestView::WallClock
            &&& ops_system::clock_monotonic_millis(one, run, session) matches Err(HaltView::Waiting(request)) ==> clock && request == RequestView::MonotonicClock
            &&& ops_system::system_info(one, run, session) matches Err(HaltView::Waiting(request)) ==> info && request == RequestView::SystemInfo
            &&& ops_system::system_temp_dir(one, run, session) matches Err(HaltView::Waiting(request)) ==> info && request == RequestView::TempDir
            &&& ops_system::system_current_dir(ty, one, run, session) matches Err(HaltView::Waiting(request)) ==> info && request == RequestView::CurrentDir
            &&& ops_system::system_executable(ty, one, run, session) matches Err(HaltView::Waiting(request)) ==> info && request == RequestView::CurrentExe
            &&& ops_system::clock_sleep_millis(two, run, session) matches Err(HaltView::Waiting(request)) ==> clock && (request matches RequestView::Sleep { millis } && millis == number)
            &&& ops_system::random_bytes(two, run, session) matches Err(HaltView::Waiting(request)) ==> random && (request matches RequestView::Random { len } && len == number)
            &&& ops_process::process_run(ty, process, run, session) matches Err(HaltView::Waiting(request)) ==> (ops_process::command_executable(command) matches Ok(executable) && policy::scope_check(capability.policy, CapabilityDomain::ProcessRun, executable) is Ok && (request matches RequestView::RunProcess { command: asked, .. } && asked.executable == executable))
            &&& ops_process::process_spawn(ty, process, run, session) matches Err(HaltView::Waiting(request)) ==> (ops_process::command_executable(command) matches Ok(executable) && policy::scope_check(capability.policy, CapabilityDomain::ProcessRun, executable) is Ok && (request matches RequestView::SpawnProcess { command: asked, .. } && asked.executable == executable))
        }),
{
    let one = seq![ValueView::Capability(capability)];
    let two = seq![ValueView::Int(number), ValueView::Capability(capability)];
    let process = seq![command, ValueView::Capability(capability)];
    assert(one[0] == ValueView::Capability(capability));
    assert(two[0] == ValueView::Int(number) && two[1] == ValueView::Capability(capability));
    assert(process[0] == command && process[1] == ValueView::Capability(capability));
}

} // verus!
