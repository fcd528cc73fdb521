//! What a run asks of its host, and what the host answers.
use vstd::prelude::*;
use crate::execute::files::IoFailure;
use crate::lowered::ir::PrimitiveOp;

verus! {

/// How a file is opened.
#[derive(Debug, Clone, Copy, PartialEq, Eq, Structural)]
pub struct OpenOptions {
    pub read: bool,
    pub write: bool,
    pub append: bool,
    pub truncate: bool,
    pub create: bool,
    pub create_new: bool,
}

/// What becomes of a child's standard streams.
#[derive(Debug, Clone, Copy, PartialEq, Eq, Structural)]
pub enum StdioMode {
    Capture,
    Stream,
    Inherit,
    Discard,
}

/// One of a child's pipes.
#[derive(Debug, Clone, Copy, PartialEq, Eq, Structural)]
pub enum PipeKind {
    Stdin,
    Stdout,
    Stderr,
}

/// Which half of a connection is shut down.
#[derive(Debug, Clone, Copy, PartialEq, Eq, Structural)]
pub enum ShutdownSide {
    Read,
    Write,
    Both,
}

#[derive(Debug)]
pub struct EnvPair {
    pub name: String,
    pub value: String,
}

/// A process to start. An empty `cwd` means the current directory.
#[derive(Debug)]
pub struct ProcessCommand {
    pub executable: String,
    pub arguments: Vec<String>,
    pub environment: Vec<EnvPair>,
    pub cwd: String,
    pub stdio: StdioMode,
}

/// Work that only the host can do. Where the work opens a resource, `id` is the
/// handle under which the resource is known from then on.
#[allow(inconsistent_fields)]
#[derive(Debug)]
pub enum HostRequest {
    ReadText {
        id: u64,
    },
    ReadBytes {
        id: u64,
    },
    ReadLine {
        id: u64,
    },
    ReadUpTo {
        id: u64,
        limit: u64,
    },
    WriteAll {
        id: u64,
        bytes: Vec<u8>,
    },
    WriteSome {
        id: u64,
        bytes: Vec<u8>,
    },
    Flush {
        id: u64,
    },
    Close {
        id: u64,
    },
    Locate {
        path: String,
        roots: Vec<String>,
    },
    OpenFile {
        path: String,
        options: OpenOptions,
        id: u64,
    },
    ReadFile {
        path: String,
    },
    WriteFile {
        path: String,
        contents: String,
    },
    AppendFile {
        path: String,
        contents: String,
    },
    PathExists {
        path: String,
    },
    CreateDirs {
        path: String,
    },
    RemoveFile {
        path: String,
    },
    RemoveDir {
        path: String,
    },
    ListNames {
        path: String,
    },
    ListEntries {
        path: String,
    },
    Metadata {
        path: String,
    },
    Canonicalize {
        path: String,
    },
    Rename {
        from: String,
        to: String,
    },
    CopyFile {
        from: String,
        to: String,
    },
    EnvGet {
        name: String,
    },
    EnvSet {
        name: String,
        value: String,
    },
    EnvRemove {
        name: String,
    },
    EnvNames,
    ParseAddress {
        text: String,
    },
    ResolveAddress {
        target: String,
    },
    Connect {
        target: String,
        id: u64,
    },
    Listen {
        target: String,
        id: u64,
    },
    Accept {
        listener: u64,
        id: u64,
    },
    LocalAddress {
        id: u64,
    },
    SetDeadline {
        id: u64,
        millis: u64,
    },
    ShutDown {
        id: u64,
        side: ShutdownSide,
    },
    UdpBind {
        target: String,
        id: u64,
    },
    UdpConnect {
        id: u64,
        target: String,
    },
    UdpSend {
        id: u64,
        bytes: Vec<u8>,
        target: String,
    },
    UdpReceive {
        id: u64,
        limit: u64,
    },
    RunProcess {
        command: ProcessCommand,
    },
    SpawnProcess {
        command: ProcessCommand,
        id: u64,
    },
    WaitProcess {
        id: u64,
    },
    KillProcess {
        id: u64,
    },
    TakePipe {
        child: u64,
        pipe: PipeKind,
        id: u64,
    },
    WallClock,
    MonotonicClock,
    Sleep {
        millis: u64,
    },
    Random {
        len: u64,
    },
    SystemInfo,
    CurrentDir,
    CurrentExe,
    TempDir,
    FloatArithmetic {
        op: PrimitiveOp,
        left: u64,
        right: u64,
        single: bool,
    },
    IntToFloat {
        value: i64,
        single: bool,
    },
    FloatToFloat {
        bits: u64,
        single: bool,
    },
    FloatToInt {
        bits: u64,
    },
    ParseFloat {
        text: String,
    },
    FormatFloat {
        bits: u64,
    },
}

/// One entry of a directory.
#[derive(Debug)]
pub struct DirEntry {
    pub name: String,
    pub is_dir: bool,
    pub size: u64,
}

/// What the host answers. `Failed` answers any request that can fail in the
/// operating system.
#[allow(inconsistent_fields)]
#[derive(Debug)]
pub enum HostReply {
    Failed(IoFailure),
    Done,
    Text(String),
    Bytes(Vec<u8>),
    Count(u64),
    Flag(bool),
    Texts(Vec<String>),
    Entries(Vec<DirEntry>),
    Metadata {
        size: u64,
        is_dir: bool,
    },
    Located {
        authority: Option<String>,
        roots: Vec<String>,
    },
    Datagram {
        data: Vec<u8>,
        from: String,
    },
    Exited {
        success: bool,
        code: i64,
        stdout: Vec<u8>,
        stderr: Vec<u8>,
    },
    System {
        architecture: String,
        family: String,
        operating_system: String,
    },
    Float(u64),
    ExactFloat(Option<u64>),
    ExactInt(Option<i64>),
}

} // verus!
