//! The operations the library carries out, and what each yields.

use crate::error::MemoryError;
use crate::protocol::AccessRights;
use vstd::prelude::*;

verus! {

/// Work on one open process.
#[derive(Clone, Debug, PartialEq, Eq)]
pub enum Task {
    /// Find the load address of the module called `name`.
    ModuleBase { name: String },
    /// Commit a new region of `size` bytes.
    Allocate { size: usize },
    /// Read `size` bytes at `address`.
    Read { address: usize, size: usize },
    /// Write `data` at `address`.
    Write { address: usize, data: Vec<u8> },
    /// Follow the pointer chain from `base` through `offsets`, then read
    /// `size` bytes where it ends.
    ReadChained { base: usize, offsets: Vec<usize>, size: usize },
    /// Follow the pointer chain from `base` through `offsets`, then write
    /// `data` where it ends.
    WriteChained { base: usize, offsets: Vec<usize>, data: Vec<u8> },
}

/// A task as a mathematical value.
pub enum TaskView {
    ModuleBase { name: Seq<char> },
    Allocate { size: usize },
    Read { address: usize, size: usize },
    Write { address: usize, data: Seq<u8> },
    ReadChained { base: usize, offsets: Seq<usize>, size: usize },
    WriteChained { base: usize, offsets: Seq<usize>, data: Seq<u8> },
}

impl View for Task {
    type V = TaskView;

    open spec fn view(&self) -> TaskView {
        match *self {
            Task::ModuleBase { name } => TaskView::ModuleBase { name: name@ },
            Task::Allocate { size } => TaskView::Allocate { size },
            Task::Read { address, size } => TaskView::Read { address, size },
            Task::Write { address, data } => TaskView::Write { address, data: data@ },
            Task::ReadChained { base, offsets, size } => TaskView::ReadChained {
                base,
                offsets: offsets@,
                size,
            },
            Task::WriteChained { base, offsets, data } => TaskView::WriteChained {
                base,
                offsets: offsets@,
                data: data@,
            },
        }
    }
}

/// One self-contained operation: it acquires what it needs from the host,
/// works, and releases it again.
#[derive(Clone, Debug, PartialEq, Eq)]
pub enum Operation {
    /// Find the process whose executable is called `name`.
    Locate { name: String },
    /// Open the process `pid` and carry out `task` on it.
    Access { pid: u32, task: Task },
}

/// An operation as a mathematical value.
pub enum OperationView {
    Locate { name: Seq<char> },
    Access { pid: u32, task: TaskView },
}

impl View for Operation {
    type V = OperationView;

    open spec fn view(&self) -> OperationView {
        match *self {
            Operation::Locate { name } => OperationView::Locate { name: name@ },
            Operation::Access { pid, task } => OperationView::Access { pid, task: task@ },
        }
    }
}

/// The value of an operation that went through.
#[derive(Clone, Debug, PartialEq, Eq)]
pub enum Success {
    /// The identifier of the process that was found.
    Process(u32),
    /// The load address of a module, or the base of a new region.
    Address(usize),
    /// The bytes that were read.
    Bytes(Vec<u8>),
    /// The data was written.
    Written,
}

/// A success as a mathematical value.
pub enum SuccessView {
    Process(u32),
    Address(usize),
    Bytes(Seq<u8>),
    Written,
}

impl View for Success {
    type V = SuccessView;

    open spec fn view(&self) -> SuccessView {
        match *self {
            Success::Process(pid) => SuccessView::Process(pid),
            Success::Address(address) => SuccessView::Address(address),
            Success::Bytes(bytes) => SuccessView::Bytes(bytes@),
            Success::Written => SuccessView::Written,
        }
    }
}

/// How an operation ended.
pub type Outcome = Result<Success, MemoryError>;

/// An outcome as a mathematical value.
pub type OutcomeView = Result<SuccessView, MemoryError>;

/// The mathematical value of an outcome.
pub open spec fn outcome_view(outcome: Outcome) -> OutcomeView {
    match outcome {
        Ok(success) => Ok(success@),
        Err(error) => Err(error),
    }
}

/// The least rights a task needs: every right to write or allocate, reading
/// to read, querying and reading to list modules.
pub open spec fn required_rights(task: TaskView) -> AccessRights {
    match task {
        TaskView::ModuleBase { .. } => AccessRights::Enumerate,
        TaskView::Read { .. } | TaskView::ReadChained { .. } => AccessRights::Read,
        TaskView::Allocate { .. } | TaskView::Write { .. } | TaskView::WriteChained {
            ..
        } => AccessRights::Full,
    }
}

impl Task {
    /// The rights the process must be opened with to carry the work out.
    pub fn rights(&self) -> (rights: AccessRights)
        ensures
            rights == required_rights(self@),
    {
        match self {
            Task::ModuleBase { .. } => AccessRights::Enumerate,
            Task::Read { .. } | Task::ReadChained { .. } => AccessRights::Read,
            Task::Allocate { .. } | Task::Write { .. } | Task::WriteChained {
                ..
            } => AccessRights::Full,
        }
    }
}

} // verus!
