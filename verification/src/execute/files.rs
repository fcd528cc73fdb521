//! The table of host resources that a run holds open.
use vstd::prelude::*;
use crate::text::{concat_three, decimal_text, owned};

verus! {

/// What a handle stands for. A child process keeps track of the pipes that have
/// not been taken from it.
#[derive(Debug, Clone, Copy, PartialEq, Eq, Structural)]
pub enum FileHandle {
    Stdin,
    Stdout,
    Stderr,
    File,
    Child {
        stdin: bool,
        stdout: bool,
        stderr: bool,
    },
    ChildStdin,
    ChildStdout,
    ChildStderr,
    TcpStream,
    TcpListener,
    UdpSocket,
}

/// The kinds of operating-system errors that are told apart.
#[derive(Debug, Clone, Copy, PartialEq, Eq, Structural)]
pub enum IoKind {
    NotFound,
    PermissionDenied,
    AlreadyExists,
    InvalidInput,
    AddrInUse,
    AddrNotAvailable,
    ConnectionRefused,
    ConnectionReset,
    ConnectionAborted,
    NotConnected,
    TimedOut,
    WouldBlock,
    Other,
}

/// A failed input or output operation.
#[derive(Debug)]
pub struct IoFailure {
    pub kind: IoKind,
    pub message: String,
}

pub struct IoFailureView {
    pub kind: IoKind,
    pub message: Seq<char>,
}

impl IoFailure {
    pub open spec fn view(&self) -> IoFailureView {
        IoFailureView { kind: self.kind, message: self.message@ }
    }

    /// A refusal that the operating system was not asked about.
    pub fn invalid(message: &str) -> (failure: IoFailure)
        ensures
            failure@ == invalid_input(message@),
    {
        IoFailure { kind: IoKind::InvalidInput, message: owned(message) }
    }
}

pub open spec fn invalid_input(message: Seq<char>) -> IoFailureView {
    IoFailureView { kind: IoKind::InvalidInput, message }
}

/// Why a handle cannot be used.
#[derive(Debug, Clone, Copy, PartialEq, Eq, Structural)]
pub enum HandleLifecycleError {
    Closed,
    Invalid,
}

impl HandleLifecycleError {
    pub open spec fn tag_text(self) -> Seq<char> {
        match self {
            HandleLifecycleError::Closed => "resource-closed"@,
            HandleLifecycleError::Invalid => "invalid-handle"@,
        }
    }

    pub fn tag(self) -> (tag: &'static str)
        ensures
            tag@ == self.tag_text(),
    {
        match self {
            HandleLifecycleError::Closed => "resource-closed",
            HandleLifecycleError::Invalid => "invalid-handle",
        }
    }
}

impl FileHandle {
    /// Whether the run owns the resource, rather than borrowing a standard stream.
    pub open spec fn is_owned(self) -> bool {
        !(self is Stdin || self is Stdout || self is Stderr)
    }

    pub(crate) fn owns(&self) -> (result: bool)
        ensures
            result == self.is_owned(),
    {
        match self {
            FileHandle::Stdin | FileHandle::Stdout | FileHandle::Stderr => false,
            _ => true,
        }
    }

    /// Why bytes cannot be written to the handle.
    pub open spec fn write_refusal(self) -> Option<IoFailureView> {
        match self {
            FileHandle::Stdin | FileHandle::ChildStdout | FileHandle::ChildStderr => Some(
                invalid_input("handle is not writable"@),
            ),
            FileHandle::TcpListener | FileHandle::UdpSocket => Some(invalid_input("handle is not a byte stream"@)),
            FileHandle::Child { .. } => Some(invalid_input("process handle is not writable"@)),
            _ => None,
        }
    }

    pub fn writable(&self) -> (result: Result<(), IoFailure>)
        ensures
            match result {
                Ok(_) => self.write_refusal() is None,
                Err(failure) => self.write_refusal() == Some(failure@),
            },
    {
        match self {
            FileHandle::Stdin | FileHandle::ChildStdout | FileHandle::ChildStderr => Err(
                IoFailure::invalid("handle is not writable"),
            ),
            FileHandle::TcpListener | FileHandle::UdpSocket => Err(IoFailure::invalid("handle is not a byte stream")),
            FileHandle::Child { .. } => Err(IoFailure::invalid("process handle is not writable")),
            _ => Ok(()),
        }
    }

    /// Whether the handle can be read from.
    pub open spec fn is_readable(self) -> bool {
        self is Stdin || self is File || self is TcpStream || self is ChildStdout || self is ChildStderr
    }

    pub fn readable(&self) -> (result: bool)
        ensures
            result == self.is_readable(),
    {
        match self {
            FileHandle::Stdin | FileHandle::File | FileHandle::TcpStream => true,
            FileHandle::ChildStdout | FileHandle::ChildStderr => true,
            _ => false,
        }
    }

    /// Whether flushing the handle reaches the operating system.
    pub open spec fn has_buffer(self) -> bool {
        self is Stdout || self is Stderr || self is File || self is ChildStdin || self is TcpStream
    }

    pub fn buffered(&self) -> (result: bool)
        ensures
            result == self.has_buffer(),
    {
        match self {
            FileHandle::Stdout | FileHandle::Stderr | FileHandle::File => true,
            FileHandle::ChildStdin | FileHandle::TcpStream => true,
            _ => false,
        }
    }
}

/// The entries of a table in the order in which they were added.
pub struct TableView {
    pub next: u64,
    pub handles: Seq<(u64, FileHandle)>,
    pub limit: usize,
}

/// The place of `id` in `handles[from..]`, or the length.
pub open spec fn place_of(handles: Seq<(u64, FileHandle)>, from: int, id: u64) -> int
    decreases handles.len() - from,
{
    if from < 0 || from >= handles.len() {
        handles.len() as int
    } else if handles[from].0 == id {
        from
    } else {
        place_of(handles, from + 1, id)
    }
}

/// The place of the first standard-input handle, or the length.
pub open spec fn stdin_place(handles: Seq<(u64, FileHandle)>, from: int) -> int
    decreases handles.len() - from,
{
    if from < 0 || from >= handles.len() {
        handles.len() as int
    } else if handles[from].1 is Stdin {
        from
    } else {
        stdin_place(handles, from + 1)
    }
}

/// How many of the first `count` handles are owned.
pub open spec fn owned_count(handles: Seq<(u64, FileHandle)>, count: int) -> nat
    decreases count,
{
    if count <= 0 {
        0
    } else if handles[count - 1].1.is_owned() {
        owned_count(handles, count - 1) + 1
    } else {
        owned_count(handles, count - 1)
    }
}

impl TableView {
    /// A table with the two borrowed output streams.
    pub open spec fn initial(limit: usize) -> TableView {
        TableView { next: 3, handles: seq![(1u64, FileHandle::Stdout), (2u64, FileHandle::Stderr)], limit }
    }

    pub open spec fn well_formed(self) -> bool {
        &&& self.next >= 3
        &&& forall|i: int| 0 <= i < self.handles.len() ==> 1 <= (#[trigger] self.handles[i]).0 < self.next
        &&& forall|i: int, j: int|
            0 <= i < j < self.handles.len() ==> (#[trigger] self.handles[i]).0 != (#[trigger] self.handles[j]).0
        &&& forall|i: int, j: int|
            0 <= i < j < self.handles.len() ==> !((#[trigger] self.handles[i]).1 is Stdin && (
            #[trigger] self.handles[j]).1 is Stdin)
    }

    pub open spec fn get(self, id: u64) -> Option<FileHandle> {
        let place = place_of(self.handles, 0, id);
        if place < self.handles.len() {
            Some(self.handles[place].1)
        } else {
            None
        }
    }

    pub open spec fn open_resources(self) -> nat {
        owned_count(self.handles, self.handles.len() as int)
    }

    /// Whether the limit leaves no room for one more owned resource.
    pub open spec fn is_full(self) -> bool {
        self.limit != 0 && self.open_resources() >= self.limit
    }

    /// The table with one more handle, under the next id.
    pub open spec fn registered(self, handle: FileHandle) -> TableView {
        TableView { next: (self.next + 1) as u64, handles: self.handles.push((self.next, handle)), limit: self.limit }
    }

    /// The table without `id`.
    pub open spec fn removed(self, id: u64) -> TableView {
        let place = place_of(self.handles, 0, id);
        if place < self.handles.len() {
            TableView { next: self.next, handles: self.handles.remove(place), limit: self.limit }
        } else {
            self
        }
    }

    /// The table with another handle under `id`.
    pub open spec fn replaced(self, id: u64, handle: FileHandle) -> TableView {
        let place = place_of(self.handles, 0, id);
        if place < self.handles.len() {
            TableView { next: self.next, handles: self.handles.update(place, (id, handle)), limit: self.limit }
        } else {
            self
        }
    }

    /// An id that was handed out once is closed; any other was never valid.
    pub open spec fn absent(self, id: u64) -> HandleLifecycleError {
        if 3 <= id < self.next {
            HandleLifecycleError::Closed
        } else {
            HandleLifecycleError::Invalid
        }
    }

    pub open spec fn lifecycle(self, id: u64) -> Option<HandleLifecycleError> {
        if self.get(id) is Some {
            None
        } else {
            Some(self.absent(id))
        }
    }

    /// Closing leaves the standard streams alone.
    pub open spec fn close(self, id: u64) -> (TableView, Result<(), HandleLifecycleError>) {
        match self.get(id) {
            None => (self, Err(self.absent(id))),
            Some(handle) => if handle.is_owned() {
                (self.removed(id), Ok(()))
            } else {
                (self, Ok(()))
            },
        }
    }

    /// The table that holds a standard-input handle, and its id.
    pub open spec fn stdin_opened(self) -> (TableView, u64) {
        let place = stdin_place(self.handles, 0);
        if place < self.handles.len() {
            (self, self.handles[place].0)
        } else {
            (self.registered(FileHandle::Stdin), self.next)
        }
    }
}

pub proof fn lemma_place(handles: Seq<(u64, FileHandle)>, from: int, id: u64)
    requires
        0 <= from <= handles.len(),
    ensures
        from <= place_of(handles, from, id) <= handles.len(),
        place_of(handles, from, id) < handles.len() ==> handles[place_of(handles, from, id)].0 == id,
        forall|i: int| from <= i < place_of(handles, from, id) ==> (#[trigger] handles[i]).0 != id,
    decreases handles.len() - from,
{
    if from < handles.len() && handles[from].0 != id {
        lemma_place(handles, from + 1, id);
    }
}

pub proof fn lemma_stdin_place(handles: Seq<(u64, FileHandle)>, from: int)
    requires
        0 <= from <= handles.len(),
    ensures
        from <= stdin_place(handles, from) <= handles.len(),
        stdin_place(handles, from) < handles.len() ==> handles[stdin_place(handles, from)].1 is Stdin,
        forall|i: int| from <= i < stdin_place(handles, from) ==> !((#[trigger] handles[i]).1 is Stdin),
    decreases handles.len() - from,
{
    if from < handles.len() && !(handles[from].1 is Stdin) {
        lemma_stdin_place(handles, from + 1);
    }
}

/// The table of open host resources. Ids are handed out once: they only grow.
#[derive(Debug)]
pub struct FileTable {
    next: u64,
    handles: Vec<(u64, FileHandle)>,
    limit: usize,
}

impl FileTable {
    pub closed spec fn view(&self) -> TableView {
        TableView { next: self.next, handles: self.handles@, limit: self.limit }
    }

    /// A table with the borrowed output streams; standard input is there only
    /// once it has been opened. A limit of zero means no limit.
    pub fn new(limit: usize) -> (table: FileTable)
        ensures
            table@ == TableView::initial(limit),
            table@.well_formed(),
    {
        let mut handles: Vec<(u64, FileHandle)> = Vec::new();
        handles.push((1, FileHandle::Stdout));
        handles.push((2, FileHandle::Stderr));
        let table = FileTable { next: 3, handles, limit };
        assert(table@.handles =~= TableView::initial(limit).handles);
        table
    }

    fn position(&self, id: u64) -> (place: usize)
        ensures
            place as int == place_of(self@.handles, 0, id),
            place <= self.handles@.len(),
    {
        let mut i: usize = 0;
        while i < self.handles.len()
            invariant
                i <= self.handles.len(),
                place_of(self.handles@, 0, id) == place_of(self.handles@, i as int, id),
            decreases self.handles.len() - i,
        {
            if self.handles[i].0 == id {
                return i;
            }
            i += 1;
        }
        i
    }

    /// What `id` stands for.
    pub fn get(&self, id: u64) -> (handle: Option<FileHandle>)
        ensures
            handle == self@.get(id),
    {
        let place = self.position(id);
        if place < self.handles.len() {
            Some(self.handles[place].1)
        } else {
            None
        }
    }

    /// The id that the next resource gets.
    pub fn next_id(&self) -> (id: u64)
        ensures
            id == self@.next,
    {
        self.next
    }

    /// How many handles there are, borrowed streams counted.
    pub fn len(&self) -> (count: usize)
        ensures
            count == self@.handles.len(),
    {
        self.handles.len()
    }

    /// How many owned resources are open.
    pub fn open_resource_count(&self) -> (count: usize)
        ensures
            count == self@.open_resources(),
    {
        let mut count: usize = 0;
        let mut i: usize = 0;
        while i < self.handles.len()
            invariant
                i <= self.handles.len(),
                count <= i,
                count == owned_count(self.handles@, i as int),
            decreases self.handles.len() - i,
        {
            if self.handles[i].1.owns() {
                count += 1;
            }
            i += 1;
        }
        count
    }

    /// Whether one more owned resource would exceed the limit.
    pub fn at_capacity(&self) -> (full: bool)
        ensures
            full == self@.is_full(),
    {
        self.limit != 0 && self.open_resource_count() >= self.limit
    }

    /// Adds a resource under a new id.
    pub fn insert(&mut self, handle: FileHandle) -> (id: u64)
        requires
            old(self)@.next < u64::MAX,
        ensures
            id == old(self)@.next,
            final(self)@ == old(self)@.registered(handle),
            old(self)@.well_formed() && !(handle is Stdin) ==> final(self)@.well_formed(),
    {
        let id = self.next;
        self.next = self.next + 1;
        self.handles.push((id, handle));
        id
    }

    /// The standard-input handle; there is at most one.
    pub fn insert_stdin(&mut self) -> (id: u64)
        requires
            old(self)@.next < u64::MAX,
        ensures
            (final(self)@, id) == old(self)@.stdin_opened(),
            old(self)@.well_formed() ==> final(self)@.well_formed(),
    {
        let mut i: usize = 0;
        while i < self.handles.len()
            invariant
                i <= self.handles.len(),
                *self == *old(self),
                stdin_place(self.handles@, 0) == stdin_place(self.handles@, i as int),
            decreases self.handles.len() - i,
        {
            if matches!(self.handles[i].1, FileHandle::Stdin) {
                return self.handles[i].0;
            }
            i += 1;
        }
        proof {
            lemma_stdin_place(self.handles@, 0);
        }
        let ghost before = self@;
        let id = self.insert(FileHandle::Stdin);
        assert(before.well_formed() ==> self@.well_formed());
        id
    }

    /// Takes `id` out of the table, whatever it stands for.
    pub fn remove(&mut self, id: u64) -> (handle: Option<FileHandle>)
        ensures
            handle == old(self)@.get(id),
            final(self)@ == old(self)@.removed(id),
            old(self)@.well_formed() ==> final(self)@.well_formed(),
    {
        let place = self.position(id);
        if place < self.handles.len() {
            let entry = self.handles.remove(place);
            Some(entry.1)
        } else {
            None
        }
    }

    /// Puts another handle under `id`.
    pub fn replace(&mut self, id: u64, handle: FileHandle)
        ensures
            final(self)@ == old(self)@.replaced(id, handle),
            old(self)@.well_formed() && !(handle is Stdin) ==> final(self)@.well_formed(),
    {
        let place = self.position(id);
        proof {
            lemma_place(self.handles@, 0, id);
        }
        if place < self.handles.len() {
            self.handles[place] = (id, handle);
        }
    }

    /// Closes `id`. The standard streams stay open.
    pub fn close(&mut self, id: u64) -> (result: Result<(), HandleLifecycleError>)
        ensures
            (final(self)@, result) == old(self)@.close(id),
            old(self)@.well_formed() ==> final(self)@.well_formed(),
    {
        match self.get(id) {
            None => Err(self.classify_absent(id)),
            Some(handle) => {
                if handle.owns() {
                    self.remove(id);
                }
                Ok(())
            }
        }
    }

    /// Why `id` cannot be used, if it cannot.
    pub fn lifecycle_error(&self, id: u64) -> (error: Option<HandleLifecycleError>)
        ensures
            error == self@.lifecycle(id),
    {
        match self.get(id) {
            Some(_) => None,
            None => Some(self.classify_absent(id)),
        }
    }

    fn classify_absent(&self, id: u64) -> (error: HandleLifecycleError)
        ensures
            error == self@.absent(id),
    {
        if 3 <= id && id < self.next {
            HandleLifecycleError::Closed
        } else {
            HandleLifecycleError::Invalid
        }
    }
}

pub open spec fn invalid_handle_text(id: u64) -> Seq<char> {
    "invalid file handle `"@ + crate::text::decimal(id as nat) + "`"@
}

pub(crate) fn invalid_handle_message(id: u64) -> (text: String)
    ensures
        text@ == invalid_handle_text(id),
{
    let number = decimal_text(id);
    concat_three("invalid file handle `", number.as_str(), "`")
}

// Laws.

proof fn lemma_place_removed(handles: Seq<(u64, FileHandle)>, place: int, from: int, id: u64)
    requires
        0 <= from <= handles.len() - 1,
        0 <= place < handles.len(),
        handles[place].0 == id,
        forall|i: int| 0 <= i < handles.len() && i != place ==> (#[trigger] handles[i]).0 != id,
    ensures
        place_of(handles.remove(place), from, id) == handles.len() - 1,
    decreases handles.len() - from,
{
    let rest = handles.remove(place);
    if from < rest.len() {
        assert(rest[from].0 != id) by {
            if from < place {
                assert(rest[from] == handles[from]);
            } else {
                assert(rest[from] == handles[from + 1]);
            }
        }
        lemma_place_removed(handles, place, from + 1, id);
    }
}

/// Closing is linear: an owned resource closes once, and from then on its id is
/// known as closed.
pub proof fn law_close_is_linear(table: TableView, id: u64)
    requires
        table.well_formed(),
        table.get(id) matches Some(handle) && handle.is_owned(),
        id >= 3,
    ensures
        table.close(id).1 == Ok::<(), HandleLifecycleError>(()),
        table.close(id).0.lifecycle(id) == Some(HandleLifecycleError::Closed),
        table.close(id).0.close(id) == (
            table.close(id).0,
            Err::<(), HandleLifecycleError>(HandleLifecycleError::Closed),
        ),
{
    lemma_place(table.handles, 0, id);
    let place = place_of(table.handles, 0, id);
    assert forall|i: int| 0 <= i < table.handles.len() && i != place implies (#[trigger] table.handles[i]).0 != id by {
        if i < place {
            assert(table.handles[i].0 != table.handles[place].0);
        } else {
            assert(table.handles[place].0 != table.handles[i].0);
        }
    }
    lemma_place_removed(table.handles, place, 0, id);
}

/// Closing a standard stream changes nothing.
pub proof fn law_standard_streams_stay_open(table: TableView, id: u64)
    requires
        table.get(id) matches Some(handle) && !handle.is_owned(),
    ensures
        table.close(id) == (table, Ok::<(), HandleLifecycleError>(())),
{
}

/// Opening standard input twice gives one handle and leaves the table as it was.
pub proof fn law_stdin_is_a_singleton(table: TableView)
    requires
        table.well_formed(),
        table.next < u64::MAX,
    ensures
        table.stdin_opened().0.stdin_opened() == table.stdin_opened(),
        table.stdin_opened().0.open_resources() == table.open_resources(),
{
    lemma_stdin_place(table.handles, 0);
    let opened = table.stdin_opened().0;
    lemma_stdin_place(opened.handles, 0);
    if stdin_place(table.handles, 0) == table.handles.len() {
        let last = table.handles.len() as int;
        assert(opened.handles[last].1 is Stdin);
        let place = stdin_place(opened.handles, 0);
        assert(place == last) by {
            if place < last {
                assert(opened.handles[place] == table.handles[place]);
            }
            if place > last {
                assert(!(opened.handles[last].1 is Stdin));
            }
        }
        lemma_owned_prefix(table.handles, opened.handles, last);
    }
}

proof fn lemma_owned_prefix(short: Seq<(u64, FileHandle)>, long: Seq<(u64, FileHandle)>, count: int)
    requires
        0 <= count <= short.len() <= long.len(),
        forall|i: int| 0 <= i < count ==> short[i] == long[i],
    ensures
        owned_count(short, count) == owned_count(long, count),
    decreases count,
{
    if count > 0 {
        lemma_owned_prefix(short, long, count - 1);
    }
}

} // verus!
