//! Whole runs of an operation against a host, and what holds of every run.
//!
//! A host is modelled by what it answers: to the request made as the `n`-th
//! of a run, it gives some reply. Nothing else is assumed of it, so it may
//! fail any call and change the target's memory between any two.

use crate::error::MemoryError;
use crate::modules::MODULE_CAPACITY;
use crate::operation::{required_rights, OperationView, OutcomeView, SuccessView, TaskView};
use crate::protocol::{ReplyView, RequestView};
use crate::session::{next, start, SessionView, StepView, TransferView};
use vstd::prelude::*;

verus! {

/// A host: its reply to the request made as the `n`-th of a run.
pub type Host = spec_fn(nat, RequestView) -> ReplyView;

/// What a run shows from outside: the requests made, the reply to each, and
/// the outcome once the operation is over.
pub struct Run {
    pub requests: Seq<RequestView>,
    pub replies: Seq<ReplyView>,
    pub outcome: Option<OutcomeView>,
}

/// The run of a session whose pending request is `request`, made as the
/// `made`-th of the run, against a host that serves at most `fuel` requests.
pub open spec fn run_from(
    host: Host,
    session: SessionView,
    request: RequestView,
    made: nat,
    fuel: nat,
) -> Run
    decreases fuel,
{
    if fuel == 0 {
        Run { requests: Seq::empty(), replies: Seq::empty(), outcome: None }
    } else {
        let reply = host(made, request);
        match next(session, reply) {
            StepView::Finished { outcome } => Run {
                requests: seq![request],
                replies: seq![reply],
                outcome: Some(outcome),
            },
            StepView::Continue { session: following, request: asked } => {
                let rest = run_from(host, following, asked, made + 1, (fuel - 1) as nat);
                Run {
                    requests: seq![request] + rest.requests,
                    replies: seq![reply] + rest.replies,
                    outcome: rest.outcome,
                }
            },
        }
    }
}

/// The run of an operation from its start, its first request being the
/// `made`-th that the host is asked.
pub open spec fn run_after(host: Host, operation: OperationView, made: nat, fuel: nat) -> Run {
    run_from(host, start(operation).0, start(operation).1, made, fuel)
}

/// The run of an operation against a host that has not been asked anything
/// before.
pub open spec fn run(host: Host, operation: OperationView, fuel: nat) -> Run {
    run_after(host, operation, 0, fuel)
}

/// Whether a request asks the host for a handle.
pub open spec fn is_acquisition(request: RequestView) -> bool {
    request is OpenProcess || request is TakeSnapshot
}

/// How many handles the host handed out: the requests for one that it
/// answered with success.
pub open spec fn acquisitions(requests: Seq<RequestView>, replies: Seq<ReplyView>) -> nat
    decreases requests.len(),
{
    if requests.len() == 0 || replies.len() == 0 {
        0
    } else {
        let first: nat = if is_acquisition(requests[0]) && replies[0] is Done {
            1
        } else {
            0
        };
        first + acquisitions(requests.drop_first(), replies.drop_first())
    }
}

/// How many handles the host was asked to release.
pub open spec fn releases(requests: Seq<RequestView>) -> nat
    decreases requests.len(),
{
    if requests.len() == 0 {
        0
    } else {
        let first: nat = if requests[0] is Close {
            1
        } else {
            0
        };
        first + releases(requests.drop_first())
    }
}

/// How many requests a task on a process makes at most, the opening and the
/// release included.
pub open spec fn request_bound(task: TaskView) -> nat {
    match task {
        TaskView::ModuleBase { .. } => MODULE_CAPACITY as nat + 3,
        TaskView::Allocate { .. } | TaskView::Read { .. } | TaskView::Write { .. } => 3,
        TaskView::ReadChained { offsets, .. } | TaskView::WriteChained { offsets, .. } =>
            offsets.len() + 3,
    }
}

/// How many handles a session in this state holds: one from the moment the
/// host grants it until the release has been answered.
spec fn held_before(session: SessionView) -> nat {
    if session.holds_handle() || session is Closing {
        1
    } else {
        0
    }
}

/// Whether `request` is one that a session in this state can be waiting on.
spec fn waits_on(session: SessionView, request: RequestView) -> bool {
    match session {
        SessionView::Opening { .. } => request is OpenProcess,
        SessionView::Snapshot { .. } => request is TakeSnapshot,
        SessionView::Closing { .. } => request is Close,
        _ => !is_acquisition(request) && !(request is Close),
    }
}

/// Whether the requests still to come are bounded by the state alone. A scan
/// of processes goes on for as long as the host reports one.
spec fn bounded(session: SessionView) -> bool {
    !(session is Snapshot) && !(session is Scanning)
}

/// How many requests a session in a bounded state still makes at most, the
/// pending one included.
spec fn remaining(session: SessionView) -> nat {
    match session {
        SessionView::Opening { task } => request_bound(task),
        SessionView::Walking { offsets, next, .. } => (offsets.len() - next + 2) as nat,
        SessionView::Listing { .. } => MODULE_CAPACITY as nat + 2,
        SessionView::Naming { modules, index, .. } => (modules.len() - index + 1) as nat,
        SessionView::Closing { .. } => 1,
        _ => 2,
    }
}

/// One step keeps the state well formed, never lets go of the handle except
/// by asking for its release, and brings a bounded session closer to its end.
proof fn lemma_step_shape(session: SessionView, reply: ReplyView)
    requires
        session.wf(),
        session is Naming ==> session->modules.len() <= MODULE_CAPACITY,
    ensures
        match next(session, reply) {
            StepView::Continue { session: following, request } => {
                &&& following.wf()
                &&& following is Naming ==> following->modules.len() <= MODULE_CAPACITY
                &&& waits_on(following, request)
                &&& !(session is Closing)
                &&& held_before(following) == 1
                &&& held_before(session) == 0 ==> reply is Done
                &&& bounded(session) ==> bounded(following) && remaining(following) < remaining(
                    session,
                )
            },
            StepView::Finished { .. } => {
                ||| session is Closing
                ||| held_before(session) == 0 && !(reply is Done)
            },
        },
{
}

/// The accounting of handles for the rest of a run, from any state.
proof fn lemma_run_accounting(
    host: Host,
    session: SessionView,
    request: RequestView,
    made: nat,
    fuel: nat,
)
    requires
        session.wf(),
        session is Naming ==> session->modules.len() <= MODULE_CAPACITY,
        waits_on(session, request),
    ensures
        ({
            let run = run_from(host, session, request, made, fuel);
            &&& run.requests.len() == run.replies.len() <= fuel
            &&& acquisitions(run.requests, run.replies) + held_before(session) <= 1
            &&& releases(run.requests) <= held_before(session) + acquisitions(
                run.requests,
                run.replies,
            )
            &&& run.outcome is Some ==> releases(run.requests) == held_before(session)
                + acquisitions(run.requests, run.replies)
            &&& forall|i: int|
                0 <= i < run.requests.len() && run.requests[i] is Close ==> i + 1
                    == run.requests.len() && run.outcome is Some
            &&& forall|i: int|
                0 < i < run.requests.len() ==> !is_acquisition(#[trigger] run.requests[i])
            &&& bounded(session) && fuel >= remaining(session) ==> run.outcome is Some
        }),
    decreases fuel,
{
    if fuel > 0 {
        let reply = host(made, request);
        lemma_step_shape(session, reply);
        match next(session, reply) {
            StepView::Finished { outcome } => {
                let run = run_from(host, session, request, made, fuel);
                assert(run.requests.drop_first() =~= Seq::<RequestView>::empty());
                assert(run.replies.drop_first() =~= Seq::<ReplyView>::empty());
                assert(releases(run.requests.drop_first()) == 0);
                assert(acquisitions(run.requests.drop_first(), run.replies.drop_first()) == 0);
            },
            StepView::Continue { session: following, request: asked } => {
                let rest = run_from(host, following, asked, made + 1, (fuel - 1) as nat);
                lemma_run_accounting(host, following, asked, made + 1, (fuel - 1) as nat);
                let run = run_from(host, session, request, made, fuel);
                assert(run.requests.drop_first() =~= rest.requests);
                assert(run.replies.drop_first() =~= rest.replies);
                assert(run.requests[0] == request);
                assert(run.replies[0] == reply);
                assert forall|i: int|
                    0 <= i < run.requests.len() && run.requests[i] is Close implies i + 1
                    == run.requests.len() && run.outcome is Some by {
                    if i > 0 {
                        assert(run.requests[i] == rest.requests[i - 1]);
                    }
                }
                assert forall|i: int| 0 < i < run.requests.len() implies !is_acquisition(
                    #[trigger] run.requests[i],
                ) by {
                    assert(run.requests[i] == rest.requests[i - 1]);
                    if i == 1 {
                        lemma_first_request(host, following, asked, made + 1, (fuel - 1) as nat);
                    }
                }
            },
        }
    }
}

/// A run that is served at all starts with the pending request.
proof fn lemma_first_request(
    host: Host,
    session: SessionView,
    request: RequestView,
    made: nat,
    fuel: nat,
)
    requires
        fuel > 0,
    ensures
        run_from(host, session, request, made, fuel).requests.len() > 0,
        run_from(host, session, request, made, fuel).requests[0] == request,
        run_from(host, session, request, made, fuel).replies.len() > 0,
        run_from(host, session, request, made, fuel).replies[0] == host(made, request),
{
}

/// Handle hygiene: whatever the host answers, an operation asks for exactly
/// one handle, with its first request; it never asks for more releases than
/// it was handed handles; once it is over it has asked for the release of
/// every handle it was handed, exactly once; and the release is the last
/// thing it asks for.
pub proof fn law_handles_are_released(host: Host, operation: OperationView, fuel: nat)
    ensures
        ({
            let run = run(host, operation, fuel);
            &&& run.requests.len() == run.replies.len() <= fuel
            &&& fuel > 0 ==> run.requests.len() > 0 && is_acquisition(run.requests[0])
            &&& forall|i: int|
                0 < i < run.requests.len() ==> !is_acquisition(#[trigger] run.requests[i])
            &&& acquisitions(run.requests, run.replies) <= 1
            &&& releases(run.requests) <= acquisitions(run.requests, run.replies)
            &&& run.outcome is Some ==> releases(run.requests) == acquisitions(
                run.requests,
                run.replies,
            )
            &&& forall|i: int|
                0 <= i < run.requests.len() && run.requests[i] is Close ==> i + 1
                    == run.requests.len() && run.outcome is Some
        }),
{
    let (session, request) = start(operation);
    lemma_run_accounting(host, session, request, 0, fuel);
    if fuel > 0 {
        lemma_first_request(host, session, request, 0, fuel);
    }
}

/// Every operation on a process is over after a bounded number of requests,
/// whatever the host answers.
pub proof fn law_access_finishes(host: Host, pid: u32, task: TaskView, fuel: nat)
    requires
        fuel >= request_bound(task),
    ensures
        run(host, OperationView::Access { pid, task }, fuel).outcome is Some,
        run(host, OperationView::Access { pid, task }, fuel).requests.len() <= request_bound(task),
{
    let (session, request) = start(OperationView::Access { pid, task });
    lemma_run_accounting(host, session, request, 0, fuel);
    lemma_run_accounting(host, session, request, 0, request_bound(task));
    lemma_more_fuel(host, session, request, 0, request_bound(task), fuel);
}

/// A run that is over stays as it is when the host would serve more.
proof fn lemma_more_fuel(
    host: Host,
    session: SessionView,
    request: RequestView,
    made: nat,
    fuel: nat,
    more: nat,
)
    requires
        fuel <= more,
        run_from(host, session, request, made, fuel).outcome is Some,
    ensures
        run_from(host, session, request, made, more) == run_from(
            host,
            session,
            request,
            made,
            fuel,
        ),
    decreases fuel,
{
    if fuel > 0 {
        match next(session, host(made, request)) {
            StepView::Finished { .. } => {},
            StepView::Continue { session: following, request: asked } => {
                lemma_more_fuel(
                    host,
                    following,
                    asked,
                    made + 1,
                    (fuel - 1) as nat,
                    (more - 1) as nat,
                );
            },
        }
    }
}

/// The request that opens the process for `task`.
pub open spec fn opening(pid: u32, task: TaskView) -> RequestView {
    RequestView::OpenProcess { pid, rights: required_rights(task) }
}

/// A process that cannot be opened is not touched: the operation ends with
/// that failure, and nothing is asked of the host but the opening.
pub proof fn law_unopened_process_is_left_alone(host: Host, pid: u32, task: TaskView, fuel: nat)
    requires
        fuel > 0,
        !(host(0, opening(pid, task)) is Done),
    ensures
        run(host, OperationView::Access { pid, task }, fuel).requests == seq![opening(pid, task)],
        run(host, OperationView::Access { pid, task }, fuel).outcome == Some(
            Err::<SuccessView, MemoryError>(MemoryError::ProcessOpenFailed),
        ),
{
}

/// What the final transfer of a task may yield.
pub open spec fn transfer_yields(transfer: TransferView, outcome: OutcomeView) -> bool {
    ||| outcome == Err::<SuccessView, MemoryError>(MemoryError::TransferFailed)
    ||| match transfer {
        TransferView::Read { size } => outcome matches Ok(SuccessView::Bytes(bytes))
            && bytes.len() == size,
        TransferView::Write { .. } => outcome == Ok::<SuccessView, MemoryError>(
            SuccessView::Written,
        ),
    }
}

/// The outcomes an operation can have: the value of its kind, or one of the
/// errors that its steps can meet.
pub open spec fn yields(operation: OperationView, outcome: OutcomeView) -> bool {
    match operation {
        OperationView::Locate { .. } => {
            ||| outcome matches Ok(SuccessView::Process(_))
            ||| outcome == Err::<SuccessView, MemoryError>(MemoryError::ProcessNotFound)
        },
        OperationView::Access { task, .. } => {
            ||| outcome == Err::<SuccessView, MemoryError>(MemoryError::ProcessOpenFailed)
            ||| match task {
                TaskView::ModuleBase { .. } => {
                    ||| outcome matches Ok(SuccessView::Address(_))
                    ||| outcome == Err::<SuccessView, MemoryError>(MemoryError::ModuleNotFound)
                },
                TaskView::Allocate { .. } => {
                    ||| outcome matches Ok(SuccessView::Address(address)) && address != 0
                    ||| outcome == Err::<SuccessView, MemoryError>(MemoryError::AllocationFailed)
                },
                TaskView::Read { size, .. } => transfer_yields(
                    TransferView::Read { size },
                    outcome,
                ),
                TaskView::Write { data, .. } => transfer_yields(
                    TransferView::Write { data },
                    outcome,
                ),
                TaskView::ReadChained { size, .. } => {
                    ||| transfer_yields(TransferView::Read { size }, outcome)
                    ||| outcome == Err::<SuccessView, MemoryError>(MemoryError::DereferenceFailed)
                    ||| outcome == Err::<SuccessView, MemoryError>(MemoryError::AddressOverflow)
                },
                TaskView::WriteChained { data, .. } => {
                    ||| transfer_yields(TransferView::Write { data }, outcome)
                    ||| outcome == Err::<SuccessView, MemoryError>(MemoryError::DereferenceFailed)
                    ||| outcome == Err::<SuccessView, MemoryError>(MemoryError::AddressOverflow)
                },
            }
        },
    }
}

/// The outcomes that a session in this state can still end with.
spec fn may_yield(session: SessionView, outcome: OutcomeView) -> bool {
    match session {
        SessionView::Opening { task } => yields(OperationView::Access { pid: 0, task }, outcome),
        SessionView::Snapshot { name } | SessionView::Scanning { name } => yields(
            OperationView::Locate { name },
            outcome,
        ),
        SessionView::Walking { transfer, .. } => {
            ||| transfer_yields(transfer, outcome)
            ||| outcome == Err::<SuccessView, MemoryError>(MemoryError::DereferenceFailed)
            ||| outcome == Err::<SuccessView, MemoryError>(MemoryError::AddressOverflow)
        },
        SessionView::Reading { size } => transfer_yields(TransferView::Read { size }, outcome),
        SessionView::Writing => transfer_yields(
            TransferView::Write { data: Seq::empty() },
            outcome,
        ),
        SessionView::Allocating => {
            ||| outcome matches Ok(SuccessView::Address(address)) && address != 0
            ||| outcome == Err::<SuccessView, MemoryError>(MemoryError::AllocationFailed)
        },
        SessionView::Listing { .. } | SessionView::Naming { .. } => {
            ||| outcome matches Ok(SuccessView::Address(_))
            ||| outcome == Err::<SuccessView, MemoryError>(MemoryError::ModuleNotFound)
        },
        SessionView::Closing { outcome: kept } => outcome == kept,
    }
}

/// A step never widens the outcomes that are still possible.
proof fn lemma_step_yields(session: SessionView, reply: ReplyView, outcome: OutcomeView)
    requires
        session.wf(),
    ensures
        match next(session, reply) {
            StepView::Continue { session: following, .. } => following.wf() && (may_yield(
                following,
                outcome,
            ) ==> may_yield(session, outcome)),
            StepView::Finished { outcome: reached } => may_yield(session, reached),
        },
{
}

/// A run ends with one of the outcomes possible in the state it starts from.
proof fn lemma_run_yields(
    host: Host,
    session: SessionView,
    request: RequestView,
    made: nat,
    fuel: nat,
)
    requires
        session.wf(),
    ensures
        ({
            let run = run_from(host, session, request, made, fuel);
            run.outcome is Some ==> may_yield(session, run.outcome->0)
        }),
    decreases fuel,
{
    if fuel > 0 {
        let reply = host(made, request);
        match next(session, reply) {
            StepView::Finished { outcome } => {
                lemma_step_yields(session, reply, outcome);
            },
            StepView::Continue { session: following, request: asked } => {
                let rest = run_from(host, following, asked, made + 1, (fuel - 1) as nat);
                if rest.outcome is Some {
                    lemma_step_yields(session, reply, rest.outcome->0);
                    lemma_run_yields(host, following, asked, made + 1, (fuel - 1) as nat);
                }
            },
        }
    }
}

/// Every operation ends with the value of its kind or with one of its own
/// errors, whatever the host answers: a read with bytes of the length asked
/// for, a search with what it looked for, and no operation with an error of a
/// step it does not take.
pub proof fn law_outcome_is_of_its_kind(host: Host, operation: OperationView, fuel: nat)
    ensures
        ({
            let run = run(host, operation, fuel);
            run.outcome is Some ==> yields(operation, run.outcome->0)
        }),
{
    let (session, request) = start(operation);
    lemma_run_yields(host, session, request, 0, fuel);
}

} // verus!
