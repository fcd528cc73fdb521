//! What requests and replies hold, as mathematical values.
use vstd::prelude::*;
use crate::execute::files::IoFailureView;
use crate::execute::host::{
    DirEntry, EnvPair, HostReply, HostRequest, OpenOptions, PipeKind, ProcessCommand, ShutdownSide, StdioMode,
};
use crate::lowered::ir::PrimitiveOp;

verus! {

pub struct EnvPairView {
    pub name: Seq<char>,
    pub value: Seq<char>,
}

pub struct ProcessCommandView {
    pub executable: Seq<char>,
    pub arguments: Seq<Seq<char>>,
    pub environment: Seq<EnvPairView>,
    pub cwd: Seq<char>,
    pub stdio: StdioMode,
}

pub struct DirEntryView {
    pub name: Seq<char>,
    pub is_dir: bool,
    pub size: u64,
}

#[allow(inconsistent_fields)]
pub enum RequestView {
    ReadText { id: u64 },
    ReadBytes { id: u64 },
    ReadLine { id: u64 },
    ReadUpTo { id: u64, limit: u64 },
    WriteAll { id: u64, bytes: Seq<u8> },
    WriteSome { id: u64, bytes: Seq<u8> },
    Flush { id: u64 },
    Close { id: u64 },
    Locate { path: Seq<char>, roots: Seq<Seq<char>> },
    OpenFile { path: Seq<char>, options: OpenOptions, id: u64 },
    ReadFile { path: Seq<char> },
    WriteFile { path: Seq<char>, contents: Seq<char> },
    AppendFile { path: Seq<char>, contents: Seq<char> },
    PathExists { path: Seq<char> },
    CreateDirs { path: Seq<char> },
    RemoveFile { path: Seq<char> },
    RemoveDir { path: Seq<char> },
    ListNames { path: Seq<char> },
    ListEntries { path: Seq<char> },
    Metadata { path: Seq<char> },
    Canonicalize { path: Seq<char> },
    Rename { from: Seq<char>, to: Seq<char> },
    CopyFile { from: Seq<char>, to: Seq<char> },
    EnvGet { name: Seq<char> },
    EnvSet { name: Seq<char>, value: Seq<char> },
    EnvRemove { name: Seq<char> },
    EnvNames,
    ParseAddress { text: Seq<char> },
    ResolveAddress { target: Seq<char> },
    Connect { target: Seq<char>, id: u64 },
    Listen { target: Seq<char>, id: u64 },
    Accept { listener: u64, id: u64 },
    LocalAddress { id: u64 },
    SetDeadline { id: u64, millis: u64 },
    ShutDown { id: u64, side: ShutdownSide },
    UdpBind { target: Seq<char>, id: u64 },
    UdpConnect { id: u64, target: Seq<char> },
    UdpSend { id: u64, bytes: Seq<u8>, target: Seq<char> },
    UdpReceive { id: u64, limit: u64 },
    RunProcess { command: ProcessCommandView },
    SpawnProcess { command: ProcessCommandView, id: u64 },
    WaitProcess { id: u64 },
    KillProcess { id: u64 },
    TakePipe { child: u64, pipe: PipeKind, id: u64 },
    WallClock,
    MonotonicClock,
    Sleep { millis: u64 },
    Random { len: u64 },
    SystemInfo,
    CurrentDir,
    CurrentExe,
    TempDir,
    FloatArithmetic { op: PrimitiveOp, left: u64, right: u64, single: bool },
    IntToFloat { value: i64, single: bool },
    FloatToFloat { bits: u64, single: bool },
    FloatToInt { bits: u64 },
    ParseFloat { text: Seq<char> },
    FormatFloat { bits: u64 },
}

#[allow(inconsistent_fields)]
pub enum ReplyView {
    Failed(IoFailureView),
    Done,
    Text(Seq<char>),
    Bytes(Seq<u8>),
    Count(u64),
    Flag(bool),
    Texts(Seq<Seq<char>>),
    Entries(Seq<DirEntryView>),
    Metadata { size: u64, is_dir: bool },
    Located { authority: Option<Seq<char>>, roots: Seq<Seq<char>> },
    Datagram { data: Seq<u8>, from: Seq<char> },
    Exited { success: bool, code: i64, stdout: Seq<u8>, stderr: Seq<u8> },
    System { architecture: Seq<char>, family: Seq<char>, operating_system: Seq<char> },
    Float(u64),
    ExactFloat(Option<u64>),
    ExactInt(Option<i64>),
}

pub open spec fn env_pair(node: EnvPair) -> EnvPairView {
    EnvPairView {
        name: node.name@,
        value: node.value@,
    }
}

pub open spec fn process_command(node: ProcessCommand) -> ProcessCommandView {
    ProcessCommandView {
        executable: node.executable@,
        arguments: crate::lowered::view::texts(node.arguments@),
        environment: self::env_pairs(node.environment@),
        cwd: node.cwd@,
        stdio: node.stdio,
    }
}

pub open spec fn dir_entry(node: DirEntry) -> DirEntryView {
    DirEntryView {
        name: node.name@,
        is_dir: node.is_dir,
        size: node.size,
    }
}

pub open spec fn request(node: HostRequest) -> RequestView {
    match node {
        HostRequest::ReadText { id } => RequestView::ReadText {
            id: id,
        },
        HostRequest::ReadBytes { id } => RequestView::ReadBytes {
            id: id,
        },
        HostRequest::ReadLine { id } => RequestView::ReadLine {
            id: id,
        },
        HostRequest::ReadUpTo { id, limit } => RequestView::ReadUpTo {
            id: id,
            limit: limit,
        },
        HostRequest::WriteAll { id, bytes } => RequestView::WriteAll {
            id: id,
            bytes: bytes@,
        },
        HostRequest::WriteSome { id, bytes } => RequestView::WriteSome {
            id: id,
            bytes: bytes@,
        },
        HostRequest::Flush { id } => RequestView::Flush {
            id: id,
        },
        HostRequest::Close { id } => RequestView::Close {
            id: id,
        },
        HostRequest::Locate { path, roots } => RequestView::Locate {
            path: path@,
            roots: crate::lowered::view::texts(roots@),
        },
        HostRequest::OpenFile { path, options, id } => RequestView::OpenFile {
            path: path@,
            options: options,
            id: id,
        },
        HostRequest::ReadFile { path } => RequestView::ReadFile {
            path: path@,
        },
        HostRequest::WriteFile { path, contents } => RequestView::WriteFile {
            path: path@,
            contents: contents@,
        },
        HostRequest::AppendFile { path, contents } => RequestView::AppendFile {
            path: path@,
            contents: contents@,
        },
        HostRequest::PathExists { path } => RequestView::PathExists {
            path: path@,
        },
        HostRequest::CreateDirs { path } => RequestView::CreateDirs {
            path: path@,
        },
        HostRequest::RemoveFile { path } => RequestView::RemoveFile {
            path: path@,
        },
        HostRequest::RemoveDir { path } => RequestView::RemoveDir {
            path: path@,
        },
        HostRequest::ListNames { path } => RequestView::ListNames {
            path: path@,
        },
        HostRequest::ListEntries { path } => RequestView::ListEntries {
            path: path@,
        },
        HostRequest::Metadata { path } => RequestView::Metadata {
            path: path@,
        },
        HostRequest::Canonicalize { path } => RequestView::Canonicalize {
            path: path@,
        },
        HostRequest::Rename { from, to } => RequestView::Rename {
            from: from@,
            to: to@,
        },
        HostRequest::CopyFile { from, to } => RequestView::CopyFile {
            from: from@,
            to: to@,
        },
        HostRequest::EnvGet { name } => RequestView::EnvGet {
            name: name@,
        },
        HostRequest::EnvSet { name, value } => RequestView::EnvSet {
            name: name@,
            value: value@,
        },
        HostRequest::EnvRemove { name } => RequestView::EnvRemove {
            name: name@,
        },
        HostRequest::EnvNames => RequestView::EnvNames,
        HostRequest::ParseAddress { text } => RequestView::ParseAddress {
            text: text@,
        },
        HostRequest::ResolveAddress { target } => RequestView::ResolveAddress {
            target: target@,
        },
        HostRequest::Connect { target, id } => RequestView::Connect {
            target: target@,
            id: id,
        },
        HostRequest::Listen { target, id } => RequestView::Listen {
            target: target@,
            id: id,
        },
        HostRequest::Accept { listener, id } => RequestView::Accept {
            listener: listener,
            id: id,
        },
        HostRequest::LocalAddress { id } => RequestView::LocalAddress {
            id: id,
        },
        HostRequest::SetDeadline { id, millis } => RequestView::SetDeadline {
            id: id,
            millis: millis,
        },
        HostRequest::ShutDown { id, side } => RequestView::ShutDown {
            id: id,
            side: side,
        },
        HostRequest::UdpBind { target, id } => RequestView::UdpBind {
            target: target@,
            id: id,
        },
        HostRequest::UdpConnect { id, target } => RequestView::UdpConnect {
            id: id,
            target: target@,
        },
        HostRequest::UdpSend { id, bytes, target } => RequestView::UdpSend {
            id: id,
            bytes: bytes@,
            target: target@,
        },
        HostRequest::UdpReceive { id, limit } => RequestView::UdpReceive {
            id: id,
            limit: limit,
        },
        HostRequest::RunProcess { command } => RequestView::RunProcess {
            command: self::process_command(command),
        },
        HostRequest::SpawnProcess { command, id } => RequestView::SpawnProcess {
            command: self::process_command(command),
            id: id,
        },
        HostRequest::WaitProcess { id } => RequestView::WaitProcess {
            id: id,
        },
        HostRequest::KillProcess { id } => RequestView::KillProcess {
            id: id,
        },
        HostRequest::TakePipe { child, pipe, id } => RequestView::TakePipe {
            child: child,
            pipe: pipe,
            id: id,
        },
        HostRequest::WallClock => RequestView::WallClock,
        HostRequest::MonotonicClock => RequestView::MonotonicClock,
        HostRequest::Sleep { millis } => RequestView::Sleep {
            millis: millis,
        },
        HostRequest::Random { len } => RequestView::Random {
            len: len,
        },
        HostRequest::SystemInfo => RequestView::SystemInfo,
        HostRequest::CurrentDir => RequestView::CurrentDir,
        HostRequest::CurrentExe => RequestView::CurrentExe,
        HostRequest::TempDir => RequestView::TempDir,
        HostRequest::FloatArithmetic { op, left, right, single } => RequestView::FloatArithmetic {
            op: op,
            left: left,
            right: right,
            single: single,
        },
        HostRequest::IntToFloat { value, single } => RequestView::IntToFloat {
            value: value,
            single: single,
        },
        HostRequest::FloatToFloat { bits, single } => RequestView::FloatToFloat {
            bits: bits,
            single: single,
        },
        HostRequest::FloatToInt { bits } => RequestView::FloatToInt {
            bits: bits,
        },
        HostRequest::ParseFloat { text } => RequestView::ParseFloat {
            text: text@,
        },
        HostRequest::FormatFloat { bits } => RequestView::FormatFloat {
            bits: bits,
        },
    }
}

pub open spec fn reply(node: HostReply) -> ReplyView {
    match node {
        HostReply::Failed(value) => ReplyView::Failed(value@),
        HostReply::Done => ReplyView::Done,
        HostReply::Text(value) => ReplyView::Text(value@),
        HostReply::Bytes(values) => ReplyView::Bytes(values@),
        HostReply::Count(value) => ReplyView::Count(value),
        HostReply::Flag(value) => ReplyView::Flag(value),
        HostReply::Texts(values) => ReplyView::Texts(crate::lowered::view::texts(values@)),
        HostReply::Entries(values) => ReplyView::Entries(self::dir_entries(values@)),
        HostReply::Metadata { size, is_dir } => ReplyView::Metadata {
            size: size,
            is_dir: is_dir,
        },
        HostReply::Located { authority, roots } => ReplyView::Located {
            authority: match authority {
                Some(inner) => Some(inner@),
                None => None,
            },
            roots: crate::lowered::view::texts(roots@),
        },
        HostReply::Datagram { data, from } => ReplyView::Datagram {
            data: data@,
            from: from@,
        },
        HostReply::Exited { success, code, stdout, stderr } => ReplyView::Exited {
            success: success,
            code: code,
            stdout: stdout@,
            stderr: stderr@,
        },
        HostReply::System { architecture, family, operating_system } => ReplyView::System {
            architecture: architecture@,
            family: family@,
            operating_system: operating_system@,
        },
        HostReply::Float(value) => ReplyView::Float(value),
        HostReply::ExactFloat(value) => ReplyView::ExactFloat(value),
        HostReply::ExactInt(value) => ReplyView::ExactInt(value),
    }
}

pub open spec fn dir_entries(nodes: Seq<DirEntry>) -> Seq<DirEntryView> {
    Seq::new(nodes.len(), |i: int| self::dir_entry(nodes[i]))
}

pub open spec fn env_pairs(nodes: Seq<EnvPair>) -> Seq<EnvPairView> {
    Seq::new(nodes.len(), |i: int| self::env_pair(nodes[i]))
}

pub proof fn lemma_env_pairs_push(nodes: Seq<EnvPair>, node: EnvPair)
    ensures
        self::env_pairs(nodes.push(node)) == self::env_pairs(nodes).push(self::env_pair(node)),
{
    assert(self::env_pairs(nodes.push(node)) =~= self::env_pairs(nodes).push(self::env_pair(node)));
}

pub open spec fn replies(nodes: Seq<HostReply>) -> Seq<ReplyView> {
    Seq::new(nodes.len(), |i: int| self::reply(nodes[i]))
}

} // verus!
