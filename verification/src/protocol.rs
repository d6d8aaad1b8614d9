//! What passes between an operation and the host: the requests an operation
//! makes, one at a time, and the host's reply to each.

use vstd::prelude::*;

verus! {

/// The rights a process is opened with.
#[derive(Clone, Copy, Debug, PartialEq, Eq, Structural)]
pub enum AccessRights {
    /// Querying information and reading memory: enough to list modules.
    Enumerate,
    /// Reading memory only.
    Read,
    /// Every right: needed to write and to allocate.
    Full,
}

/// One call the host is asked to make.
#[derive(Clone, Debug, PartialEq, Eq)]
pub enum Request {
    /// Open the process `pid` with `rights`.
    OpenProcess { pid: u32, rights: AccessRights },
    /// Take a snapshot of all running processes.
    TakeSnapshot,
    /// Report the first process of the snapshot.
    FirstProcess,
    /// Report the next process of the snapshot.
    NextProcess,
    /// List up to `capacity` module handles of the open process.
    EnumerateModules { capacity: usize },
    /// Retrieve the base name of `module` into a buffer of `capacity` bytes.
    ModuleName { module: usize, capacity: usize },
    /// Read `size` bytes at `address` in one transfer.
    Read { address: usize, size: usize },
    /// Write `data` at `address` in one transfer.
    Write { address: usize, data: Vec<u8> },
    /// Commit a new readable, writable and executable region of `size` bytes.
    Allocate { size: usize },
    /// Release the handle that was acquired.
    Close,
}

/// A request as a mathematical value.
pub enum RequestView {
    OpenProcess { pid: u32, rights: AccessRights },
    TakeSnapshot,
    FirstProcess,
    NextProcess,
    EnumerateModules { capacity: usize },
    ModuleName { module: usize, capacity: usize },
    Read { address: usize, size: usize },
    Write { address: usize, data: Seq<u8> },
    Allocate { size: usize },
    Close,
}

impl View for Request {
    type V = RequestView;

    open spec fn view(&self) -> RequestView {
        match *self {
            Request::OpenProcess { pid, rights } => RequestView::OpenProcess { pid, rights },
            Request::TakeSnapshot => RequestView::TakeSnapshot,
            Request::FirstProcess => RequestView::FirstProcess,
            Request::NextProcess => RequestView::NextProcess,
            Request::EnumerateModules { capacity } => RequestView::EnumerateModules { capacity },
            Request::ModuleName { module, capacity } => RequestView::ModuleName {
                module,
                capacity,
            },
            Request::Read { address, size } => RequestView::Read { address, size },
            Request::Write { address, data } => RequestView::Write { address, data: data@ },
            Request::Allocate { size } => RequestView::Allocate { size },
            Request::Close => RequestView::Close,
        }
    }
}

/// What the host answered to a request.
///
/// A reply of a kind that the pending request cannot have is taken as the
/// failure of that request.
#[derive(Clone, Debug, PartialEq, Eq)]
pub enum Reply {
    /// The call failed.
    Failed,
    /// The call succeeded and carries no value: a process opened, a snapshot
    /// taken, data written, a handle released.
    Done,
    /// The bytes that a read or a name retrieval put into the buffer.
    Bytes(Vec<u8>),
    /// The base address of a new region.
    Address(usize),
    /// The array of module handles as the host filled it, and the number of
    /// bytes the full list takes.
    Modules { handles: Vec<usize>, bytes_needed: u32 },
    /// One process of a snapshot: its identifier and the buffer that holds
    /// its executable's name in UTF-16.
    Process { pid: u32, exe_file: Vec<u16> },
}

/// A reply as a mathematical value.
pub enum ReplyView {
    Failed,
    Done,
    Bytes(Seq<u8>),
    Address(usize),
    Modules { handles: Seq<usize>, bytes_needed: u32 },
    Process { pid: u32, exe_file: Seq<u16> },
}

impl View for Reply {
    type V = ReplyView;

    open spec fn view(&self) -> ReplyView {
        match *self {
            Reply::Failed => ReplyView::Failed,
            Reply::Done => ReplyView::Done,
            Reply::Bytes(bytes) => ReplyView::Bytes(bytes@),
            Reply::Address(address) => ReplyView::Address(address),
            Reply::Modules { handles, bytes_needed } => ReplyView::Modules {
                handles: handles@,
                bytes_needed,
            },
            Reply::Process { pid, exe_file } => ReplyView::Process { pid, exe_file: exe_file@ },
        }
    }
}

} // verus!
