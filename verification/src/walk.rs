//! Transfers, allocations and chain walks as whole runs: which requests they
//! make of the host, in which order, and what they yield.

use crate::chain::{dereference, dereferences, hop, resolve, Memory};
use crate::error::MemoryError;
use crate::memory::{allocate_outcome, read_outcome, write_outcome};
use crate::operation::{OperationView, OutcomeView, SuccessView, TaskView};
use crate::protocol::{ReplyView, RequestView};
use crate::run::{opening, run, run_after, run_from, Host};
use crate::session::{transfer_at, walk_from, TransferView};
use vstd::prelude::*;

verus! {

/// The task that walks a chain and ends in `transfer`.
pub open spec fn chained_task(
    base: usize,
    offsets: Seq<usize>,
    transfer: TransferView,
) -> TaskView {
    match transfer {
        TransferView::Read { size } => TaskView::ReadChained { base, offsets, size },
        TransferView::Write { data } => TaskView::WriteChained { base, offsets, data },
    }
}

/// The task that makes `transfer` at `address` without any walk.
pub open spec fn direct_task(address: usize, transfer: TransferView) -> TaskView {
    match transfer {
        TransferView::Read { size } => TaskView::Read { address, size },
        TransferView::Write { data } => TaskView::Write { address, data },
    }
}

/// The request that makes `transfer` at `address`.
pub open spec fn transfer_request(transfer: TransferView, address: usize) -> RequestView {
    match transfer {
        TransferView::Read { size } => RequestView::Read { address, size },
        TransferView::Write { data } => RequestView::Write { address, data },
    }
}

/// What `transfer` yields, given the host's reply to it.
pub open spec fn transfer_outcome(transfer: TransferView, reply: ReplyView) -> OutcomeView {
    match transfer {
        TransferView::Read { size } => read_outcome(reply, size),
        TransferView::Write { .. } => write_outcome(reply),
    }
}

/// Whether a host answers every read of a pointer from `memory`, whenever it
/// is made.
pub open spec fn reads_from(host: Host, memory: Memory) -> bool {
    forall|made: nat, address: usize| #[trigger]
        host(made, dereference(address)) == memory(address)
}

/// The run of the final transfer and the release that follows it.
proof fn lemma_transfer(
    host: Host,
    transfer: TransferView,
    address: usize,
    made: nat,
    fuel: nat,
)
    requires
        fuel >= 2,
    ensures
        ({
            let step = transfer_at(transfer, address);
            let run = run_from(host, step->session, step->request, made, fuel);
            let request = transfer_request(transfer, address);
            &&& step is Continue
            &&& run.requests == seq![request, RequestView::Close]
            &&& run.outcome == Some(transfer_outcome(transfer, host(made, request)))
        }),
{
    reveal_with_fuel(run_from, 3);
    let step = transfer_at(transfer, address);
    let run = run_from(host, step->session, step->request, made, fuel);
    assert(run.requests =~= seq![transfer_request(transfer, address), RequestView::Close]);
}

/// A read is one transfer: on a process that opens, exactly the bytes asked
/// for are requested, once, at the address given, and what the host read is
/// the outcome, unchanged. A write likewise hands the host the address and
/// the data as they were given, once, and succeeds where the host does.
pub proof fn law_transfer_is_single(
    host: Host,
    pid: u32,
    address: usize,
    transfer: TransferView,
    made: nat,
    fuel: nat,
)
    requires
        fuel >= 3,
        host(made, opening(pid, direct_task(address, transfer))) is Done,
    ensures
        ({
            let task = direct_task(address, transfer);
            let run = run_after(host, OperationView::Access { pid, task }, made, fuel);
            let request = transfer_request(transfer, address);
            &&& run.requests == seq![opening(pid, task), request, RequestView::Close]
            &&& run.outcome == Some(transfer_outcome(transfer, host(made + 1, request)))
        }),
{
    let task = direct_task(address, transfer);
    lemma_transfer(host, transfer, address, made + 1, (fuel - 1) as nat);
    let run = run_after(host, OperationView::Access { pid, task }, made, fuel);
    assert(run.requests =~= seq![
        opening(pid, task),
        transfer_request(transfer, address),
        RequestView::Close,
    ]);
}

/// What is written can be read back, as far as that lies with the library. A
/// write is followed at once by a read of as many bytes at the same address.
/// Where the host opens the process both times, completes the write, and
/// then reads the bytes that it was handed, the write succeeds with three
/// requests and the read yields those bytes, unchanged.
pub proof fn law_round_trip(host: Host, pid: u32, address: usize, data: Seq<u8>, fuel: nat)
    requires
        fuel >= 3,
        data.len() <= usize::MAX,
        host(0, opening(pid, TaskView::Write { address, data })) is Done,
        host(1, RequestView::Write { address, data }) is Done,
        host(3, opening(pid, TaskView::Read { address, size: data.len() as usize })) is Done,
        host(4, RequestView::Read { address, size: data.len() as usize }) == ReplyView::Bytes(
            data,
        ),
    ensures
        ({
            let write = OperationView::Access { pid, task: TaskView::Write { address, data } };
            let read = OperationView::Access {
                pid,
                task: TaskView::Read { address, size: data.len() as usize },
            };
            &&& run(host, write, fuel).requests.len() == 3
            &&& run(host, write, fuel).outcome == Some(
                Ok::<SuccessView, MemoryError>(SuccessView::Written),
            )
            &&& run_after(host, read, 3, fuel).outcome == Some(
                Ok::<SuccessView, MemoryError>(SuccessView::Bytes(data)),
            )
        }),
{
    law_transfer_is_single(host, pid, address, TransferView::Write { data }, 0, fuel);
    law_transfer_is_single(
        host,
        pid,
        address,
        TransferView::Read { size: data.len() as usize },
        3,
        fuel,
    );
}

/// A chain without offsets is the plain transfer at its base: the same
/// requests are made, with no pointer read, and the outcome is the same.
pub proof fn law_empty_chain_is_direct(
    host: Host,
    pid: u32,
    base: usize,
    transfer: TransferView,
    fuel: nat,
)
    ensures
        run(
            host,
            OperationView::Access { pid, task: chained_task(base, Seq::empty(), transfer) },
            fuel,
        ) == run(host, OperationView::Access { pid, task: direct_task(base, transfer) }, fuel),
{
    reveal_with_fuel(run_from, 2);
}

/// The run of a walk from any point of its chain.
proof fn lemma_walk(
    host: Host,
    memory: Memory,
    transfer: TransferView,
    offsets: Seq<usize>,
    at: nat,
    address: usize,
    made: nat,
    fuel: nat,
)
    requires
        reads_from(host, memory),
        at <= offsets.len(),
        fuel >= offsets.len() - at + 2,
    ensures
        ({
            let step = walk_from(transfer, offsets, at, address);
            let run = run_from(host, step->session, step->request, made, fuel);
            let rest = offsets.skip(at as int);
            let walk = dereferences(memory, address, rest);
            &&& step is Continue
            &&& match resolve(memory, address, rest) {
                Ok(end) => {
                    &&& walk.len() == rest.len()
                    &&& run.requests == walk + seq![
                        transfer_request(transfer, end),
                        RequestView::Close,
                    ]
                    &&& run.outcome == Some(
                        transfer_outcome(
                            transfer,
                            host(made + rest.len(), transfer_request(transfer, end)),
                        ),
                    )
                },
                Err(error) => {
                    &&& run.requests == walk + seq![RequestView::Close]
                    &&& run.outcome == Some(Err::<SuccessView, MemoryError>(error))
                },
            }
        }),
    decreases offsets.len() - at,
{
    let step = walk_from(transfer, offsets, at, address);
    let run = run_from(host, step->session, step->request, made, fuel);
    let rest = offsets.skip(at as int);
    let walk = dereferences(memory, address, rest);
    if at == offsets.len() {
        lemma_transfer(host, transfer, address, made, fuel);
        assert(walk + seq![transfer_request(transfer, address), RequestView::Close] =~= seq![
            transfer_request(transfer, address),
            RequestView::Close,
        ]);
    } else {
        assert(rest[0] == offsets[at as int]);
        assert(rest.drop_first() =~= offsets.skip(at as int + 1));
        assert(host(made, dereference(address)) == memory(address));
        match hop(memory(address), offsets[at as int]) {
            Ok(reached) => {
                lemma_walk(
                    host,
                    memory,
                    transfer,
                    offsets,
                    at + 1,
                    reached,
                    made + 1,
                    (fuel - 1) as nat,
                );
                let following = walk_from(transfer, offsets, at + 1, reached);
                let after = run_from(
                    host,
                    following->session,
                    following->request,
                    made + 1,
                    (fuel - 1) as nat,
                );
                assert(run.requests == seq![dereference(address)] + after.requests);
                let shorter = dereferences(memory, reached, rest.drop_first());
                assert(walk == seq![dereference(address)] + shorter);
                match resolve(memory, address, rest) {
                    Ok(end) => {
                        assert(run.requests =~= walk + seq![
                            transfer_request(transfer, end),
                            RequestView::Close,
                        ]);
                    },
                    Err(_) => {
                        assert(run.requests =~= walk + seq![RequestView::Close]);
                    },
                }
            },
            Err(error) => {
                reveal_with_fuel(run_from, 3);
                assert(walk =~= seq![dereference(address)]);
                assert(run.requests =~= walk + seq![RequestView::Close]);
            },
        }
    }
}

/// A chained operation walks its chain and nothing else. Against a host that
/// opens the process and answers the reads of pointers from `memory`, the
/// requests are: the opening; the read of one pointer for each hop, up to and
/// including the first that fails; the transfer at the address the chain
/// resolves to, only where it resolves; the release. The outcome is that of
/// the transfer, or the error of the hop that failed.
pub proof fn law_walk_follows_chain(
    host: Host,
    memory: Memory,
    pid: u32,
    base: usize,
    offsets: Seq<usize>,
    transfer: TransferView,
    fuel: nat,
)
    requires
        reads_from(host, memory),
        host(0, opening(pid, chained_task(base, offsets, transfer))) is Done,
        fuel >= offsets.len() + 3,
    ensures
        ({
            let task = chained_task(base, offsets, transfer);
            let run = run(host, OperationView::Access { pid, task }, fuel);
            let walk = dereferences(memory, base, offsets);
            match resolve(memory, base, offsets) {
                Ok(end) => {
                    &&& walk.len() == offsets.len()
                    &&& run.requests == seq![opening(pid, task)] + walk + seq![
                        transfer_request(transfer, end),
                        RequestView::Close,
                    ]
                    &&& run.outcome == Some(
                        transfer_outcome(
                            transfer,
                            host(offsets.len() + 1, transfer_request(transfer, end)),
                        ),
                    )
                },
                Err(error) => {
                    &&& run.requests == seq![opening(pid, task)] + walk + seq![RequestView::Close]
                    &&& run.outcome == Some(Err::<SuccessView, MemoryError>(error))
                },
            }
        }),
{
    let task = chained_task(base, offsets, transfer);
    lemma_walk(host, memory, transfer, offsets, 0, base, 1, (fuel - 1) as nat);
    assert(offsets.skip(0) =~= offsets);
    let run = run(host, OperationView::Access { pid, task }, fuel);
    let step = walk_from(transfer, offsets, 0, base);
    let after = run_from(host, step->session, step->request, 1, (fuel - 1) as nat);
    assert(run.requests == seq![opening(pid, task)] + after.requests);
    let walk = dereferences(memory, base, offsets);
    match resolve(memory, base, offsets) {
        Ok(end) => {
            assert(run.requests =~= seq![opening(pid, task)] + walk + seq![
                transfer_request(transfer, end),
                RequestView::Close,
            ]);
        },
        Err(_) => {
            assert(run.requests =~= seq![opening(pid, task)] + walk + seq![RequestView::Close]);
        },
    }
}

/// An allocation is one call: on a process that opens, a region of the size
/// given is asked for once, and the address the host gives, unless it is
/// null, is the outcome.
pub proof fn law_allocation_is_single(host: Host, pid: u32, size: usize, fuel: nat)
    requires
        fuel >= 3,
        host(0, opening(pid, TaskView::Allocate { size })) is Done,
    ensures
        ({
            let task = TaskView::Allocate { size };
            let run = run(host, OperationView::Access { pid, task }, fuel);
            let request = RequestView::Allocate { size };
            &&& run.requests == seq![opening(pid, task), request, RequestView::Close]
            &&& run.outcome == Some(allocate_outcome(host(1, request)))
        }),
{
    reveal_with_fuel(run_from, 4);
    let task = TaskView::Allocate { size };
    let run = run(host, OperationView::Access { pid, task }, fuel);
    assert(run.requests =~= seq![
        opening(pid, task),
        RequestView::Allocate { size },
        RequestView::Close,
    ]);
}

} // verus!
