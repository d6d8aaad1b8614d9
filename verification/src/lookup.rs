//! What the searches yield: the first process and the first module, in the
//! host's order, that carries the name looked for.

use crate::error::MemoryError;
use crate::locator::names_process;
use crate::modules::{listed_modules, names_module, MODULE_CAPACITY, MODULE_NAME_CAPACITY};
use crate::operation::{OperationView, SuccessView, TaskView};
use crate::protocol::{ReplyView, RequestView};
use crate::run::{opening, run, run_from, Host};
use crate::session::{scan_from, SessionView};
use vstd::prelude::*;
use vstd::utf8::encode_utf8;

verus! {

/// One process of a snapshot: its identifier and the buffer with its
/// executable's name.
pub struct ProcessEntry {
    pub pid: u32,
    pub exe_file: Seq<u16>,
}

/// The request for the `index`-th process of a snapshot.
pub open spec fn process_request(index: int) -> RequestView {
    if index == 0 {
        RequestView::FirstProcess
    } else {
        RequestView::NextProcess
    }
}

/// The position of the first process called `wanted`, if there is one.
pub open spec fn first_named_process(processes: Seq<ProcessEntry>, wanted: Seq<char>) -> Option<
    int,
>
    decreases processes.len(),
{
    if processes.len() == 0 {
        None
    } else if names_process(processes[0].exe_file, wanted) {
        Some(0)
    } else {
        match first_named_process(processes.drop_first(), wanted) {
            Some(position) => Some(position + 1),
            None => None,
        }
    }
}

/// Whether a host takes the snapshot and then reports exactly `processes`,
/// in that order, followed by the end of the snapshot.
pub open spec fn reports(host: Host, processes: Seq<ProcessEntry>) -> bool {
    &&& host(0, RequestView::TakeSnapshot) is Done
    &&& forall|i: int|
        0 <= i < processes.len() ==> #[trigger] host((i + 1) as nat, process_request(i))
            == (ReplyView::Process { pid: processes[i].pid, exe_file: processes[i].exe_file })
    &&& !(host(processes.len() + 1, process_request(processes.len() as int)) is Process)
}

/// The position of the first module whose retrieved name is `wanted`, if
/// there is one. `names[i]` is the host's reply to the retrieval of the name
/// of the `i`-th module.
pub open spec fn first_named_module(names: Seq<ReplyView>, wanted: Seq<u8>) -> Option<int>
    decreases names.len(),
{
    if names.len() == 0 {
        None
    } else if names[0] matches ReplyView::Bytes(written) && names_module(written, wanted) {
        Some(0)
    } else {
        match first_named_module(names.drop_first(), wanted) {
            Some(position) => Some(position + 1),
            None => None,
        }
    }
}

/// The request for the base name of `module`.
pub open spec fn name_request(module: usize) -> RequestView {
    RequestView::ModuleName { module, capacity: MODULE_NAME_CAPACITY }
}

/// The request for the list of modules.
pub open spec fn listing_request() -> RequestView {
    RequestView::EnumerateModules { capacity: MODULE_CAPACITY }
}

/// Whether a host opens the process, answers the listing with `handles` and
/// `bytes_needed`, and answers the retrieval of the name of the `i`-th module
/// listed with `names[i]`.
pub open spec fn lists(
    host: Host,
    pid: u32,
    name: Seq<char>,
    handles: Seq<usize>,
    bytes_needed: u32,
    names: Seq<ReplyView>,
) -> bool {
    let modules = listed_modules(handles, bytes_needed);
    &&& host(0, opening(pid, TaskView::ModuleBase { name })) is Done
    &&& host(1, listing_request()) == (ReplyView::Modules { handles, bytes_needed })
    &&& names.len() == modules.len()
    &&& forall|i: int|
        0 <= i < modules.len() ==> #[trigger] host((i + 2) as nat, name_request(modules[i]))
            == names[i]
}

/// What the position found means: the process there carries the name, and
/// none before it does; where none is found, no process carries it.
pub proof fn law_first_named_process_is_first(processes: Seq<ProcessEntry>, wanted: Seq<char>)
    ensures
        match first_named_process(processes, wanted) {
            Some(position) => {
                &&& 0 <= position < processes.len()
                &&& names_process(processes[position].exe_file, wanted)
                &&& forall|i: int|
                    0 <= i < position ==> !names_process(
                        #[trigger] processes[i].exe_file,
                        wanted,
                    )
            },
            None => forall|i: int|
                0 <= i < processes.len() ==> !names_process(
                    #[trigger] processes[i].exe_file,
                    wanted,
                ),
        },
    decreases processes.len(),
{
    if processes.len() > 0 && !names_process(processes[0].exe_file, wanted) {
        let rest = processes.drop_first();
        law_first_named_process_is_first(rest, wanted);
        match first_named_process(rest, wanted) {
            Some(position) => {
                assert(rest[position] == processes[position + 1]);
                assert forall|i: int| 0 <= i < position + 1 implies !names_process(
                    #[trigger] processes[i].exe_file,
                    wanted,
                ) by {
                    if i > 0 {
                        assert(rest[i - 1] == processes[i]);
                    }
                }
            },
            None => {
                assert forall|i: int| 0 <= i < processes.len() implies !names_process(
                    #[trigger] processes[i].exe_file,
                    wanted,
                ) by {
                    if i > 0 {
                        assert(rest[i - 1] == processes[i]);
                    }
                }
            },
        }
    }
}

/// The run of a scan of processes from any point of the snapshot.
proof fn lemma_scan_processes(
    host: Host,
    processes: Seq<ProcessEntry>,
    name: Seq<char>,
    at: int,
    fuel: nat,
)
    requires
        reports(host, processes),
        0 <= at <= processes.len(),
        fuel >= processes.len() - at + 2,
    ensures
        ({
            let run = run_from(
                host,
                SessionView::Scanning { name },
                process_request(at),
                (at + 1) as nat,
                fuel,
            );
            match first_named_process(processes.skip(at), name) {
                Some(position) => {
                    &&& run.outcome == Some(
                        Ok::<SuccessView, MemoryError>(
                            SuccessView::Process(processes[at + position].pid),
                        ),
                    )
                    &&& run.requests.len() == position + 2
                },
                None => {
                    &&& run.outcome == Some(
                        Err::<SuccessView, MemoryError>(MemoryError::ProcessNotFound),
                    )
                    &&& run.requests.len() == processes.len() - at + 2
                },
            }
        }),
    decreases processes.len() - at,
{
    reveal_with_fuel(run_from, 3);
    let rest = processes.skip(at);
    if at < processes.len() {
        assert(rest[0] == processes[at]);
        assert(rest.drop_first() =~= processes.skip(at + 1));
        assert(host((at + 1) as nat, process_request(at)) == (ReplyView::Process {
            pid: processes[at].pid,
            exe_file: processes[at].exe_file,
        }));
        if !names_process(processes[at].exe_file, name) {
            lemma_scan_processes(host, processes, name, at + 1, (fuel - 1) as nat);
        }
    }
}

/// Locating a process yields the first one, in the order of the snapshot,
/// whose executable carries the name; where none does, the explicit
/// `ProcessNotFound`. Either way the processes are asked for one by one up to
/// that point and no further, and the snapshot is released.
pub proof fn law_locate_finds_first(
    host: Host,
    processes: Seq<ProcessEntry>,
    name: Seq<char>,
    fuel: nat,
)
    requires
        reports(host, processes),
        fuel >= processes.len() + 3,
    ensures
        ({
            let run = run(host, OperationView::Locate { name }, fuel);
            &&& run.requests.last() is Close
            &&& match first_named_process(processes, name) {
                Some(position) => {
                    &&& run.outcome == Some(
                        Ok::<SuccessView, MemoryError>(
                            SuccessView::Process(processes[position].pid),
                        ),
                    )
                    &&& run.requests.len() == position + 3
                },
                None => {
                    &&& run.outcome == Some(
                        Err::<SuccessView, MemoryError>(MemoryError::ProcessNotFound),
                    )
                    &&& run.requests.len() == processes.len() + 3
                },
            }
        }),
{
    lemma_scan_processes(host, processes, name, 0, (fuel - 1) as nat);
    assert(processes.skip(0) =~= processes);
    crate::run::law_handles_are_released(host, OperationView::Locate { name }, fuel);
    let run = run(host, OperationView::Locate { name }, fuel);
    assert(run.requests.len() > 0);
    assert(crate::run::releases(run.requests) == 1) by {
        lemma_acquired_once(run.requests, run.replies);
    }
    lemma_release_is_made(run.requests);
}

/// A run whose first request was granted a handle counts that handle.
proof fn lemma_acquired_once(requests: Seq<RequestView>, replies: Seq<ReplyView>)
    requires
        requests.len() > 0,
        replies.len() > 0,
        crate::run::is_acquisition(requests[0]),
        replies[0] is Done,
    ensures
        crate::run::acquisitions(requests, replies) >= 1,
{
}

/// A run that counts a release holds a request for one.
proof fn lemma_release_is_made(requests: Seq<RequestView>)
    requires
        crate::run::releases(requests) > 0,
    ensures
        exists|i: int| 0 <= i < requests.len() && requests[i] is Close,
    decreases requests.len(),
{
    if requests.len() > 0 {
        if requests[0] is Close {
        } else {
            lemma_release_is_made(requests.drop_first());
            let i = choose|i: int|
                0 <= i < requests.drop_first().len() && requests.drop_first()[i] is Close;
            assert(requests[i + 1] is Close);
        }
    }
}

/// What the position found means: the name retrieved for the module there is
/// the name looked for, and none before it is; where none is found, no
/// module's name is.
pub proof fn law_first_named_module_is_first(names: Seq<ReplyView>, wanted: Seq<u8>)
    ensures
        match first_named_module(names, wanted) {
            Some(position) => {
                &&& 0 <= position < names.len()
                &&& names[position] matches ReplyView::Bytes(written) && names_module(
                    written,
                    wanted,
                )
                &&& forall|i: int|
                    0 <= i < position ==> !(#[trigger] names[i] matches ReplyView::Bytes(written)
                        && names_module(written, wanted))
            },
            None => forall|i: int|
                0 <= i < names.len() ==> !(#[trigger] names[i] matches ReplyView::Bytes(written)
                    && names_module(written, wanted)),
        },
    decreases names.len(),
{
    if names.len() > 0 && !(names[0] matches ReplyView::Bytes(written) && names_module(
        written,
        wanted,
    )) {
        let rest = names.drop_first();
        law_first_named_module_is_first(rest, wanted);
        match first_named_module(rest, wanted) {
            Some(position) => {
                assert(rest[position] == names[position + 1]);
                assert forall|i: int| 0 <= i < position + 1 implies !(
                #[trigger] names[i] matches ReplyView::Bytes(written) && names_module(
                    written,
                    wanted,
                )) by {
                    if i > 0 {
                        assert(rest[i - 1] == names[i]);
                    }
                }
            },
            None => {
                assert forall|i: int| 0 <= i < names.len() implies !(
                #[trigger] names[i] matches ReplyView::Bytes(written) && names_module(
                    written,
                    wanted,
                )) by {
                    if i > 0 {
                        assert(rest[i - 1] == names[i]);
                    }
                }
            },
        }
    }
}

/// The run of a scan of modules from any point of the listing.
proof fn lemma_scan_modules(
    host: Host,
    name: Seq<char>,
    modules: Seq<usize>,
    names: Seq<ReplyView>,
    at: int,
    fuel: nat,
)
    requires
        names.len() == modules.len(),
        forall|i: int|
            0 <= i < modules.len() ==> #[trigger] host((i + 2) as nat, name_request(modules[i]))
                == names[i],
        0 <= at <= modules.len(),
        fuel >= modules.len() - at + 1,
    ensures
        ({
            let step = scan_from(name, modules, at as nat);
            let run = run_from(host, step->session, step->request, (at + 2) as nat, fuel);
            &&& step is Continue
            &&& match first_named_module(names.skip(at), encode_utf8(name)) {
                Some(position) => {
                    &&& run.outcome == Some(
                        Ok::<SuccessView, MemoryError>(
                            SuccessView::Address(modules[at + position]),
                        ),
                    )
                    &&& run.requests.len() == position + 2
                },
                None => {
                    &&& run.outcome == Some(
                        Err::<SuccessView, MemoryError>(MemoryError::ModuleNotFound),
                    )
                    &&& run.requests.len() == modules.len() - at + 1
                },
            }
        }),
    decreases modules.len() - at,
{
    reveal_with_fuel(run_from, 3);
    let rest = names.skip(at);
    if at < modules.len() {
        assert(rest[0] == names[at]);
        assert(rest.drop_first() =~= names.skip(at + 1));
        assert(host((at + 2) as nat, name_request(modules[at])) == names[at]);
        if !(names[at] matches ReplyView::Bytes(written) && names_module(
            written,
            encode_utf8(name),
        )) {
            lemma_scan_modules(host, name, modules, names, at + 1, (fuel - 1) as nat);
        }
    }
}

/// Resolving a module yields the load address of the first module, in the
/// order of the listing, whose retrieved name is the name looked for; where
/// none is, `ModuleNotFound`. The names are retrieved one by one up to that
/// point and no further, and the process is released.
pub proof fn law_module_base_finds_first(
    host: Host,
    pid: u32,
    name: Seq<char>,
    handles: Seq<usize>,
    bytes_needed: u32,
    names: Seq<ReplyView>,
    fuel: nat,
)
    requires
        lists(host, pid, name, handles, bytes_needed, names),
        fuel >= names.len() + 3,
    ensures
        ({
            let task = TaskView::ModuleBase { name };
            let run = run(host, OperationView::Access { pid, task }, fuel);
            let modules = listed_modules(handles, bytes_needed);
            match first_named_module(names, encode_utf8(name)) {
                Some(position) => {
                    &&& run.outcome == Some(
                        Ok::<SuccessView, MemoryError>(SuccessView::Address(modules[position])),
                    )
                    &&& run.requests.len() == position + 4
                },
                None => {
                    &&& run.outcome == Some(
                        Err::<SuccessView, MemoryError>(MemoryError::ModuleNotFound),
                    )
                    &&& run.requests.len() == modules.len() + 3
                },
            }
        }),
{
    reveal_with_fuel(run_from, 3);
    let modules = listed_modules(handles, bytes_needed);
    lemma_scan_modules(host, name, modules, names, 0, (fuel - 2) as nat);
    assert(names.skip(0) =~= names);
}

/// A process whose modules cannot be listed has no module of any name: the
/// operation ends with `ModuleNotFound` after releasing the process.
pub proof fn law_unlisted_modules_are_not_found(host: Host, pid: u32, name: Seq<char>, fuel: nat)
    requires
        fuel >= 3,
        host(0, opening(pid, TaskView::ModuleBase { name })) is Done,
        !(host(1, listing_request()) is Modules),
    ensures
        ({
            let task = TaskView::ModuleBase { name };
            let run = run(host, OperationView::Access { pid, task }, fuel);
            &&& run.requests == seq![opening(pid, task), listing_request(), RequestView::Close]
            &&& run.outcome == Some(Err::<SuccessView, MemoryError>(MemoryError::ModuleNotFound))
        }),
{
    reveal_with_fuel(run_from, 4);
    let task = TaskView::ModuleBase { name };
    let run = run(host, OperationView::Access { pid, task }, fuel);
    assert(run.requests =~= seq![opening(pid, task), listing_request(), RequestView::Close]);
}

/// A snapshot that cannot be taken holds no process: locating ends with
/// `ProcessNotFound`, and nothing else is asked of the host.
pub proof fn law_missing_snapshot_is_not_found(host: Host, name: Seq<char>, fuel: nat)
    requires
        fuel >= 1,
        !(host(0, RequestView::TakeSnapshot) is Done),
    ensures
        ({
            let run = run(host, OperationView::Locate { name }, fuel);
            &&& run.requests == seq![RequestView::TakeSnapshot]
            &&& run.outcome == Some(Err::<SuccessView, MemoryError>(MemoryError::ProcessNotFound))
        }),
{
}

} // verus!
