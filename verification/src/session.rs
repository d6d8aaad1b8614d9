//! One operation as a state machine.
//!
//! A session begins by asking the host for a handle, works through the
//! requests of its task, releases the handle and only then hands out how the
//! operation ended. The transition function [`next`] says, for every state
//! and every reply, what is asked next.

use crate::address::{pointer_bytes, pointer_width};
use crate::chain::{follow_pointer, hop};
use crate::error::MemoryError;
use crate::locator::{names_process, process_is_named};
use crate::memory::{
    allocate_outcome, finish_allocate, finish_read, finish_write, read_outcome, write_outcome,
};
use crate::modules::{
    count_listed, listed_modules, module_is_named, names_module, MODULE_CAPACITY,
    MODULE_NAME_CAPACITY,
};
use crate::operation::{
    outcome_view, required_rights, Operation, OperationView, Outcome, OutcomeView, Success,
    SuccessView, Task, TaskView,
};
use crate::protocol::{Reply, ReplyView, Request, RequestView};
use vstd::prelude::*;
use vstd::utf8::encode_utf8;

verus! {

/// The transfer that ends a task: a read of `size` bytes or a write of `data`.
pub enum TransferView {
    Read { size: usize },
    Write { data: Seq<u8> },
}

/// The state of a session: which request is pending, and what is still to do
/// once it is answered.
pub enum SessionView {
    /// The process is being opened for `task`.
    Opening { task: TaskView },
    /// The snapshot of processes is being taken.
    Snapshot { name: Seq<char> },
    /// A process of the snapshot is being reported.
    Scanning { name: Seq<char> },
    /// A chain is being walked: the pointer at the current address is being
    /// read, and `offsets[next]` will be added to it.
    Walking { transfer: TransferView, offsets: Seq<usize>, next: nat },
    /// The bytes are being read.
    Reading { size: usize },
    /// The data is being written.
    Writing,
    /// The region is being committed.
    Allocating,
    /// The modules are being listed.
    Listing { name: Seq<char> },
    /// The base name of `modules[index]` is being retrieved.
    Naming { name: Seq<char>, modules: Seq<usize>, index: nat },
    /// The handle is being released; `outcome` is how the operation ended.
    Closing { outcome: OutcomeView },
}

/// One step of a session: either the next state and the request to make, or
/// the end of the operation.
pub enum StepView {
    Continue { session: SessionView, request: RequestView },
    Finished { outcome: OutcomeView },
}

impl SessionView {
    /// The states a session can be in: an index always points at an entry.
    pub open spec fn wf(self) -> bool {
        match self {
            SessionView::Walking { offsets, next, .. } => next < offsets.len(),
            SessionView::Naming { modules, index, .. } => index < modules.len(),
            _ => true,
        }
    }

    /// Whether the session holds a handle that it has not yet asked the host
    /// to release.
    pub open spec fn holds_handle(self) -> bool {
        match self {
            SessionView::Opening { .. } | SessionView::Snapshot { .. } | SessionView::Closing {
                ..
            } => false,
            _ => true,
        }
    }
}

/// The step that releases the handle and keeps `outcome` for the end.
pub open spec fn release(outcome: OutcomeView) -> StepView {
    StepView::Continue { session: SessionView::Closing { outcome }, request: RequestView::Close }
}

/// The step that makes the final transfer at `address`.
pub open spec fn transfer_at(transfer: TransferView, address: usize) -> StepView {
    match transfer {
        TransferView::Read { size } => StepView::Continue {
            session: SessionView::Reading { size },
            request: RequestView::Read { address, size },
        },
        TransferView::Write { data } => StepView::Continue {
            session: SessionView::Writing,
            request: RequestView::Write { address, data },
        },
    }
}

/// The step taken with `address` reached and the offsets from `next` on still
/// to apply: the read of the pointer stored there, or, with no offset left,
/// the transfer.
pub open spec fn walk_from(
    transfer: TransferView,
    offsets: Seq<usize>,
    next: nat,
    address: usize,
) -> StepView {
    if next < offsets.len() {
        StepView::Continue {
            session: SessionView::Walking { transfer, offsets, next },
            request: RequestView::Read { address, size: pointer_bytes() as usize },
        }
    } else {
        transfer_at(transfer, address)
    }
}

/// The step taken with the modules before `index` found not to match: the
/// retrieval of the next name, or, with no module left, the release.
pub open spec fn scan_from(name: Seq<char>, modules: Seq<usize>, index: nat) -> StepView {
    if index < modules.len() {
        StepView::Continue {
            session: SessionView::Naming { name, modules, index },
            request: RequestView::ModuleName {
                module: modules[index as int],
                capacity: MODULE_NAME_CAPACITY,
            },
        }
    } else {
        release(Err(MemoryError::ModuleNotFound))
    }
}

/// The first step of a task on a process that has just been opened.
pub open spec fn after_open(task: TaskView) -> StepView {
    match task {
        TaskView::ModuleBase { name } => StepView::Continue {
            session: SessionView::Listing { name },
            request: RequestView::EnumerateModules { capacity: MODULE_CAPACITY },
        },
        TaskView::Allocate { size } => StepView::Continue {
            session: SessionView::Allocating,
            request: RequestView::Allocate { size },
        },
        TaskView::Read { address, size } => transfer_at(TransferView::Read { size }, address),
        TaskView::Write { address, data } => transfer_at(TransferView::Write { data }, address),
        TaskView::ReadChained { base, offsets, size } => walk_from(
            TransferView::Read { size },
            offsets,
            0,
            base,
        ),
        TaskView::WriteChained { base, offsets, data } => walk_from(
            TransferView::Write { data },
            offsets,
            0,
            base,
        ),
    }
}

/// How an operation starts: the state it is in and its first request, which
/// acquires the handle with the least rights that suffice.
pub open spec fn start(operation: OperationView) -> (SessionView, RequestView) {
    match operation {
        OperationView::Locate { name } => (
            SessionView::Snapshot { name },
            RequestView::TakeSnapshot,
        ),
        OperationView::Access { pid, task } => (
            SessionView::Opening { task },
            RequestView::OpenProcess { pid, rights: required_rights(task) },
        ),
    }
}

/// The transition function: what a session in state `session` does with the
/// host's `reply` to its pending request.
pub open spec fn next(session: SessionView, reply: ReplyView) -> StepView {
    match session {
        SessionView::Opening { task } => match reply {
            ReplyView::Done => after_open(task),
            _ => StepView::Finished { outcome: Err(MemoryError::ProcessOpenFailed) },
        },
        SessionView::Snapshot { name } => match reply {
            ReplyView::Done => StepView::Continue {
                session: SessionView::Scanning { name },
                request: RequestView::FirstProcess,
            },
            _ => StepView::Finished { outcome: Err(MemoryError::ProcessNotFound) },
        },
        SessionView::Scanning { name } => match reply {
            ReplyView::Process { pid, exe_file } => if names_process(exe_file, name) {
                release(Ok(SuccessView::Process(pid)))
            } else {
                StepView::Continue {
                    session: SessionView::Scanning { name },
                    request: RequestView::NextProcess,
                }
            },
            _ => release(Err(MemoryError::ProcessNotFound)),
        },
        SessionView::Walking { transfer, offsets, next } => match hop(
            reply,
            offsets[next as int],
        ) {
            Ok(address) => walk_from(transfer, offsets, next + 1, address),
            Err(error) => release(Err(error)),
        },
        SessionView::Reading { size } => release(read_outcome(reply, size)),
        SessionView::Writing => release(write_outcome(reply)),
        SessionView::Allocating => release(allocate_outcome(reply)),
        SessionView::Listing { name } => match reply {
            ReplyView::Modules { handles, bytes_needed } => scan_from(
                name,
                listed_modules(handles, bytes_needed),
                0,
            ),
            _ => release(Err(MemoryError::ModuleNotFound)),
        },
        SessionView::Naming { name, modules, index } => match reply {
            ReplyView::Bytes(written) if names_module(written, encode_utf8(name)) => release(
                Ok(SuccessView::Address(modules[index as int])),
            ),
            _ => scan_from(name, modules, index + 1),
        },
        SessionView::Closing { outcome } => StepView::Finished { outcome },
    }
}

/// The transfer that ends a task, holding the data of a write until then.
#[derive(Debug)]
enum Transfer {
    Read { size: usize },
    Write { data: Vec<u8> },
}

impl View for Transfer {
    type V = TransferView;

    closed spec fn view(&self) -> TransferView {
        match *self {
            Transfer::Read { size } => TransferView::Read { size },
            Transfer::Write { data } => TransferView::Write { data: data@ },
        }
    }
}

/// The states of a session, each holding what the steps to come need.
#[derive(Debug)]
enum Phase {
    Opening { task: Task },
    Snapshot { name: String },
    Scanning { name: String },
    Walking { transfer: Transfer, offsets: Vec<usize>, next: usize },
    Reading { size: usize },
    Writing,
    Allocating,
    Listing { name: String },
    Naming { name: String, modules: Vec<usize>, index: usize },
    Closing { outcome: Outcome },
}

impl View for Phase {
    type V = SessionView;

    closed spec fn view(&self) -> SessionView {
        match *self {
            Phase::Opening { task } => SessionView::Opening { task: task@ },
            Phase::Snapshot { name } => SessionView::Snapshot { name: name@ },
            Phase::Scanning { name } => SessionView::Scanning { name: name@ },
            Phase::Walking { transfer, offsets, next } => SessionView::Walking {
                transfer: transfer@,
                offsets: offsets@,
                next: next as nat,
            },
            Phase::Reading { size } => SessionView::Reading { size },
            Phase::Writing => SessionView::Writing,
            Phase::Allocating => SessionView::Allocating,
            Phase::Listing { name } => SessionView::Listing { name: name@ },
            Phase::Naming { name, modules, index } => SessionView::Naming {
                name: name@,
                modules: modules@,
                index: index as nat,
            },
            Phase::Closing { outcome } => SessionView::Closing { outcome: outcome_view(outcome) },
        }
    }
}

/// An operation under way.
#[derive(Debug)]
pub struct Session {
    phase: Phase,
}

impl View for Session {
    type V = SessionView;

    closed spec fn view(&self) -> SessionView {
        self.phase@
    }
}

/// What a session does with a reply.
#[derive(Debug)]
pub enum Progress {
    /// The operation goes on: make `request` and hand its reply to `session`.
    Continue { session: Session, request: Request },
    /// The operation is over.
    Finished { outcome: Outcome },
}

impl View for Progress {
    type V = StepView;

    open spec fn view(&self) -> StepView {
        match *self {
            Progress::Continue { session, request } => StepView::Continue {
                session: session@,
                request: request@,
            },
            Progress::Finished { outcome } => StepView::Finished {
                outcome: outcome_view(outcome),
            },
        }
    }
}

/// Asks for the release of the handle, keeping `outcome` for the end.
fn releasing(outcome: Outcome) -> (progress: Progress)
    ensures
        progress@ == release(outcome_view(outcome)),
{
    Progress::Continue {
        session: Session { phase: Phase::Closing { outcome } },
        request: Request::Close,
    }
}

/// Asks for the final transfer at `address`.
fn transferring(transfer: Transfer, address: usize) -> (progress: Progress)
    ensures
        progress@ == transfer_at(transfer@, address),
{
    match transfer {
        Transfer::Read { size } => Progress::Continue {
            session: Session { phase: Phase::Reading { size } },
            request: Request::Read { address, size },
        },
        Transfer::Write { data } => Progress::Continue {
            session: Session { phase: Phase::Writing },
            request: Request::Write { address, data },
        },
    }
}

/// Goes on with the walk at `address`: the next pointer is read, or, with no
/// offset left, the transfer is made.
fn walking(transfer: Transfer, offsets: Vec<usize>, next: usize, address: usize) -> (progress:
    Progress)
    ensures
        progress@ == walk_from(transfer@, offsets@, next as nat, address),
{
    if next < offsets.len() {
        Progress::Continue {
            session: Session { phase: Phase::Walking { transfer, offsets, next } },
            request: Request::Read { address, size: pointer_width() },
        }
    } else {
        transferring(transfer, address)
    }
}

/// Goes on with the scan of modules at `index`.
fn scanning(name: String, modules: Vec<usize>, index: usize) -> (progress: Progress)
    ensures
        progress@ == scan_from(name@, modules@, index as nat),
{
    if index < modules.len() {
        let module = modules[index];
        Progress::Continue {
            session: Session { phase: Phase::Naming { name, modules, index } },
            request: Request::ModuleName { module, capacity: MODULE_NAME_CAPACITY },
        }
    } else {
        releasing(Err(MemoryError::ModuleNotFound))
    }
}

/// Takes the first step of `task` on the process that has just been opened.
fn opened(task: Task) -> (progress: Progress)
    ensures
        progress@ == after_open(task@),
{
    match task {
        Task::ModuleBase { name } => Progress::Continue {
            session: Session { phase: Phase::Listing { name } },
            request: Request::EnumerateModules { capacity: MODULE_CAPACITY },
        },
        Task::Allocate { size } => Progress::Continue {
            session: Session { phase: Phase::Allocating },
            request: Request::Allocate { size },
        },
        Task::Read { address, size } => transferring(Transfer::Read { size }, address),
        Task::Write { address, data } => transferring(Transfer::Write { data }, address),
        Task::ReadChained { base, offsets, size } => walking(
            Transfer::Read { size },
            offsets,
            0,
            base,
        ),
        Task::WriteChained { base, offsets, data } => walking(
            Transfer::Write { data },
            offsets,
            0,
            base,
        ),
    }
}

impl Session {
    #[verifier::type_invariant]
    spec fn inv(self) -> bool {
        self.phase@.wf()
    }

    /// Starts an operation: the session, and the request that acquires its
    /// handle.
    pub fn begin(operation: Operation) -> (started: (Session, Request))
        ensures
            (started.0@, started.1@) == start(operation@),
    {
        match operation {
            Operation::Locate { name } => (
                Session { phase: Phase::Snapshot { name } },
                Request::TakeSnapshot,
            ),
            Operation::Access { pid, task } => {
                let rights = task.rights();
                (Session { phase: Phase::Opening { task } }, Request::OpenProcess { pid, rights })
            },
        }
    }

    /// Takes the host's reply to the pending request and says what follows.
    pub fn step(self, reply: Reply) -> (progress: Progress)
        ensures
            progress@ == next(self@, reply@),
    {
        proof {
            use_type_invariant(&self);
        }
        match self.phase {
            Phase::Opening { task } => match reply {
                Reply::Done => opened(task),
                _ => Progress::Finished { outcome: Err(MemoryError::ProcessOpenFailed) },
            },
            Phase::Snapshot { name } => match reply {
                Reply::Done => Progress::Continue {
                    session: Session { phase: Phase::Scanning { name } },
                    request: Request::FirstProcess,
                },
                _ => Progress::Finished { outcome: Err(MemoryError::ProcessNotFound) },
            },
            Phase::Scanning { name } => match reply {
                Reply::Process { pid, exe_file } => {
                    if process_is_named(exe_file.as_slice(), &name) {
                        releasing(Ok(Success::Process(pid)))
                    } else {
                        Progress::Continue {
                            session: Session { phase: Phase::Scanning { name } },
                            request: Request::NextProcess,
                        }
                    }
                },
                _ => releasing(Err(MemoryError::ProcessNotFound)),
            },
            Phase::Walking { transfer, offsets, next } => {
                assert(next < offsets.len());
                match follow_pointer(&reply, offsets[next]) {
                    Ok(address) => walking(transfer, offsets, next + 1, address),
                    Err(error) => releasing(Err(error)),
                }
            },
            Phase::Reading { size } => releasing(finish_read(reply, size)),
            Phase::Writing => releasing(finish_write(reply)),
            Phase::Allocating => releasing(finish_allocate(reply)),
            Phase::Listing { name } => match reply {
                Reply::Modules { handles, bytes_needed } => {
                    let count = count_listed(handles.as_slice(), bytes_needed);
                    let mut modules = handles;
                    modules.truncate(count);
                    scanning(name, modules, 0)
                },
                _ => releasing(Err(MemoryError::ModuleNotFound)),
            },
            Phase::Naming { name, modules, index } => {
                assert(index < modules.len());
                let found = match &reply {
                    Reply::Bytes(written) => module_is_named(written.as_slice(), name.as_str()),
                    _ => false,
                };
                if found {
                    releasing(Ok(Success::Address(modules[index])))
                } else {
                    scanning(name, modules, index + 1)
                }
            },
            Phase::Closing { outcome } => Progress::Finished { outcome },
        }
    }
}

} // verus!
