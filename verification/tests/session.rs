use procmem::address::pointer_width;
use procmem::boundary::{address_or_message, bytes_or_empty, process_or_none, was_written};
use procmem::error::MemoryError;
use procmem::modules::{MODULE_CAPACITY, MODULE_NAME_CAPACITY};
use procmem::operation::{Operation, Outcome, Success, Task};
use procmem::protocol::{AccessRights, Reply, Request};
use procmem::session::{Progress, Session};

const BASE: usize = 0x10_000;

/// A host made of plain data: one process with a block of memory, a list of
/// modules and a list of running processes.
struct Mock {
    pid: u32,
    memory: Vec<u8>,
    modules: Vec<(usize, Vec<u8>)>,
    processes: Vec<(u32, Vec<u16>)>,
    snapshot_fails: bool,
    listing_fails: bool,
    next_region: usize,
    cursor: usize,
    fail_at: Option<usize>,
    open: u32,
    opened: u32,
    closed: u32,
    log: Vec<Request>,
}

impl Mock {
    fn new() -> Mock {
        Mock {
            pid: 100,
            memory: vec![0; 256],
            modules: Vec::new(),
            processes: Vec::new(),
            snapshot_fails: false,
            listing_fails: false,
            next_region: 0x7000_0000,
            cursor: 0,
            fail_at: None,
            open: 0,
            opened: 0,
            closed: 0,
            log: Vec::new(),
        }
    }

    fn range(&self, address: usize, size: usize) -> Option<std::ops::Range<usize>> {
        let start = address.checked_sub(BASE)?;
        let end = start.checked_add(size)?;
        if end <= self.memory.len() {
            Some(start..end)
        } else {
            None
        }
    }

    fn store_pointer(&mut self, address: usize, value: usize) {
        let range = self.range(address, pointer_width()).unwrap();
        self.memory[range].copy_from_slice(&value.to_le_bytes());
    }

    fn process(&mut self) -> Reply {
        match self.processes.get(self.cursor) {
            Some((pid, exe_file)) => {
                self.cursor += 1;
                Reply::Process { pid: *pid, exe_file: exe_file.clone() }
            }
            None => Reply::Failed,
        }
    }

    fn answer(&mut self, request: &Request) -> Reply {
        self.log.push(request.clone());
        if self.fail_at == Some(self.log.len() - 1) && *request != Request::Close {
            return Reply::Failed;
        }
        match request {
            Request::OpenProcess { pid, .. } => {
                if *pid == self.pid {
                    self.open += 1;
                    self.opened += 1;
                    Reply::Done
                } else {
                    Reply::Failed
                }
            }
            Request::TakeSnapshot => {
                if self.snapshot_fails {
                    Reply::Failed
                } else {
                    self.open += 1;
                    self.opened += 1;
                    self.cursor = 0;
                    Reply::Done
                }
            }
            Request::FirstProcess => {
                self.cursor = 0;
                self.process()
            }
            Request::NextProcess => self.process(),
            Request::EnumerateModules { capacity } => {
                if self.listing_fails {
                    return Reply::Failed;
                }
                let mut handles = vec![0usize; *capacity];
                for (slot, (handle, _)) in handles.iter_mut().zip(self.modules.iter()) {
                    *slot = *handle;
                }
                Reply::Modules {
                    handles,
                    bytes_needed: (self.modules.len() * pointer_width()) as u32,
                }
            }
            Request::ModuleName { module, capacity } => {
                match self.modules.iter().find(|(handle, _)| handle == module) {
                    Some((_, name)) if !name.is_empty() => {
                        Reply::Bytes(name[..name.len().min(*capacity)].to_vec())
                    }
                    _ => Reply::Failed,
                }
            }
            Request::Read { address, size } => match self.range(*address, *size) {
                Some(range) => Reply::Bytes(self.memory[range].to_vec()),
                None => Reply::Failed,
            },
            Request::Write { address, data } => match self.range(*address, data.len()) {
                Some(range) => {
                    self.memory[range].copy_from_slice(data);
                    Reply::Done
                }
                None => Reply::Failed,
            },
            Request::Allocate { size } => {
                if *size == 0 {
                    Reply::Failed
                } else {
                    let address = self.next_region;
                    self.next_region += *size;
                    Reply::Address(address)
                }
            }
            Request::Close => {
                assert!(self.open > 0, "released a handle that is not held");
                self.open -= 1;
                self.closed += 1;
                Reply::Done
            }
        }
    }

    fn perform(&mut self, operation: Operation) -> Outcome {
        let (mut session, mut request) = Session::begin(operation);
        loop {
            let reply = self.answer(&request);
            match session.step(reply) {
                Progress::Continue { session: following, request: asked } => {
                    session = following;
                    request = asked;
                }
                Progress::Finished { outcome } => return outcome,
            }
        }
    }

    fn access(&mut self, task: Task) -> Outcome {
        let pid = self.pid;
        self.perform(Operation::Access { pid, task })
    }
}

fn wide_padded(text: &str) -> Vec<u16> {
    let mut units: Vec<u16> = text.encode_utf16().collect();
    units.resize(260, 0);
    units
}

fn pointer_read(address: usize) -> Request {
    Request::Read { address, size: pointer_width() }
}

fn step_on(session: Session, reply: Reply) -> (Session, Request) {
    match session.step(reply) {
        Progress::Continue { session, request } => (session, request),
        Progress::Finished { outcome } => panic!("finished early with {:?}", outcome),
    }
}

fn finish(session: Session, reply: Reply) -> Outcome {
    match session.step(reply) {
        Progress::Finished { outcome } => outcome,
        Progress::Continue { request, .. } => panic!("went on with {:?}", request),
    }
}

#[test]
fn read_opens_reads_closes() {
    let (session, first) = Session::begin(Operation::Access {
        pid: 7,
        task: Task::Read { address: 0x1000, size: 2 },
    });
    assert_eq!(first, Request::OpenProcess { pid: 7, rights: AccessRights::Read });
    let (session, request) = step_on(session, Reply::Done);
    assert_eq!(request, Request::Read { address: 0x1000, size: 2 });
    let (session, request) = step_on(session, Reply::Bytes(vec![1, 2]));
    assert_eq!(request, Request::Close);
    assert_eq!(finish(session, Reply::Done), Ok(Success::Bytes(vec![1, 2])));
}

#[test]
fn write_opens_writes_closes() {
    let (session, first) = Session::begin(Operation::Access {
        pid: 7,
        task: Task::Write { address: 0x2000, data: vec![5, 6, 7] },
    });
    assert_eq!(first, Request::OpenProcess { pid: 7, rights: AccessRights::Full });
    let (session, request) = step_on(session, Reply::Done);
    assert_eq!(request, Request::Write { address: 0x2000, data: vec![5, 6, 7] });
    let (session, request) = step_on(session, Reply::Done);
    assert_eq!(request, Request::Close);
    assert_eq!(finish(session, Reply::Done), Ok(Success::Written));
}

#[test]
fn release_reply_is_ignored() {
    let (session, _) = Session::begin(Operation::Access {
        pid: 7,
        task: Task::Write { address: 0x2000, data: vec![5] },
    });
    let (session, _) = step_on(session, Reply::Done);
    let (session, request) = step_on(session, Reply::Done);
    assert_eq!(request, Request::Close);
    assert_eq!(finish(session, Reply::Failed), Ok(Success::Written));
}

#[test]
fn failed_open_ends_at_once() {
    let (session, _) = Session::begin(Operation::Access {
        pid: 7,
        task: Task::Read { address: 0x1000, size: 2 },
    });
    assert_eq!(finish(session, Reply::Failed), Err(MemoryError::ProcessOpenFailed));
    let mut host = Mock::new();
    let outcome = host.perform(Operation::Access {
        pid: 1,
        task: Task::Write { address: BASE, data: vec![1] },
    });
    assert_eq!(outcome, Err(MemoryError::ProcessOpenFailed));
    assert_eq!(host.log, vec![Request::OpenProcess { pid: 1, rights: AccessRights::Full }]);
    assert_eq!(host.memory, vec![0; 256]);
}

#[test]
fn unexpected_reply_counts_as_failure() {
    let (session, _) = Session::begin(Operation::Access {
        pid: 7,
        task: Task::Read { address: 0x1000, size: 2 },
    });
    assert_eq!(finish(session, Reply::Address(3)), Err(MemoryError::ProcessOpenFailed));
    let (session, _) = Session::begin(Operation::Access {
        pid: 7,
        task: Task::Read { address: 0x1000, size: 2 },
    });
    let (session, _) = step_on(session, Reply::Done);
    let (session, request) = step_on(session, Reply::Done);
    assert_eq!(request, Request::Close);
    assert_eq!(finish(session, Reply::Done), Err(MemoryError::TransferFailed));
}

#[test]
fn short_read_is_a_failed_transfer() {
    let (session, _) = Session::begin(Operation::Access {
        pid: 7,
        task: Task::Read { address: 0x1000, size: 4 },
    });
    let (session, _) = step_on(session, Reply::Done);
    let (session, request) = step_on(session, Reply::Bytes(vec![1, 2, 3]));
    assert_eq!(request, Request::Close);
    assert_eq!(finish(session, Reply::Done), Err(MemoryError::TransferFailed));
}

#[test]
fn write_then_read_round_trips() {
    let mut host = Mock::new();
    for (address, data) in [
        (BASE, vec![1u8, 2, 3, 4]),
        (BASE + 17, vec![0xFF]),
        (BASE + 250, vec![9, 8, 7, 6, 5, 4]),
        (BASE + 3, vec![]),
    ] {
        let size = data.len();
        let written = host.access(Task::Write { address, data: data.clone() });
        assert!(was_written(&written));
        let read = host.access(Task::Read { address, size });
        assert_eq!(read, Ok(Success::Bytes(data.clone())));
        assert_eq!(bytes_or_empty(read), data);
    }
}

#[test]
fn out_of_bounds_transfers_fail() {
    let mut host = Mock::new();
    let read = host.access(Task::Read { address: BASE + 250, size: 7 });
    assert_eq!(read, Err(MemoryError::TransferFailed));
    assert_eq!(bytes_or_empty(read), Vec::<u8>::new());
    let written = host.access(Task::Write { address: 4, data: vec![1] });
    assert_eq!(written, Err(MemoryError::TransferFailed));
    assert!(!was_written(&written));
    assert_eq!(host.opened, 2);
    assert_eq!(host.closed, 2);
}

#[test]
fn chain_resolves_like_manual_hops() {
    let mut host = Mock::new();
    host.store_pointer(BASE, BASE + 0x20);
    host.store_pointer(BASE + 0x28, BASE + 0x40);
    host.store_pointer(BASE + 0x50, BASE + 0x80);
    host.memory[0x84..0x88].copy_from_slice(&[0xAA, 0xBB, 0xCC, 0xDD]);
    let offsets = vec![0x8usize, 0x10, 0x4];

    let mut current = BASE;
    for offset in &offsets {
        let bytes = bytes_or_empty(host.access(Task::Read {
            address: current,
            size: pointer_width(),
        }));
        let pointer = usize::from_le_bytes(bytes.try_into().unwrap());
        current = pointer + offset;
    }
    assert_eq!(current, BASE + 0x84);
    let manual = host.access(Task::Read { address: current, size: 4 });

    host.log.clear();
    let chained = host.access(Task::ReadChained { base: BASE, offsets, size: 4 });
    assert_eq!(chained, manual);
    assert_eq!(chained, Ok(Success::Bytes(vec![0xAA, 0xBB, 0xCC, 0xDD])));
    assert_eq!(
        host.log,
        vec![
            Request::OpenProcess { pid: 100, rights: AccessRights::Read },
            pointer_read(BASE),
            pointer_read(BASE + 0x28),
            pointer_read(BASE + 0x50),
            Request::Read { address: BASE + 0x84, size: 4 },
            Request::Close,
        ]
    );
}

#[test]
fn chained_write_lands_at_resolved_address() {
    let mut host = Mock::new();
    host.store_pointer(BASE + 8, BASE + 0x30);
    host.store_pointer(BASE + 0x30, BASE + 0x60);
    let outcome = host.access(Task::WriteChained {
        base: BASE + 8,
        offsets: vec![0, 0x10],
        data: vec![1, 2, 3],
    });
    assert_eq!(outcome, Ok(Success::Written));
    assert!(was_written(&outcome));
    assert_eq!(&host.memory[0x70..0x73], &[1, 2, 3]);
    assert_eq!(
        host.log,
        vec![
            Request::OpenProcess { pid: 100, rights: AccessRights::Full },
            pointer_read(BASE + 8),
            pointer_read(BASE + 0x30),
            Request::Write { address: BASE + 0x70, data: vec![1, 2, 3] },
            Request::Close,
        ]
    );
}

#[test]
fn overflow_is_detected_and_ends_walk() {
    let mut host = Mock::new();
    host.store_pointer(BASE, BASE + 0x10);
    host.store_pointer(BASE + 0x10, usize::MAX);
    host.store_pointer(BASE + 0x20, BASE);
    let before = host.memory.clone();
    let outcome = host.access(Task::WriteChained {
        base: BASE,
        offsets: vec![0, 1, 0x20],
        data: vec![7; 4],
    });
    assert_eq!(outcome, Err(MemoryError::AddressOverflow));
    assert!(!was_written(&outcome));
    assert_eq!(host.memory, before);
    assert_eq!(
        host.log,
        vec![
            Request::OpenProcess { pid: 100, rights: AccessRights::Full },
            pointer_read(BASE),
            pointer_read(BASE + 0x10),
            Request::Close,
        ]
    );
    let read = host.access(Task::ReadChained { base: BASE, offsets: vec![0, 1, 0x20], size: 4 });
    assert_eq!(read, Err(MemoryError::AddressOverflow));
    assert_eq!(bytes_or_empty(read), Vec::<u8>::new());
}

#[test]
fn largest_address_is_not_an_overflow() {
    let mut host = Mock::new();
    host.store_pointer(BASE, usize::MAX - 4);
    let outcome = host.access(Task::ReadChained { base: BASE, offsets: vec![4], size: 1 });
    assert_eq!(outcome, Err(MemoryError::TransferFailed));
    assert_eq!(host.log[2], Request::Read { address: usize::MAX, size: 1 });
}

#[test]
fn failed_hop_skips_later_hops_and_transfer() {
    let mut host = Mock::new();
    host.store_pointer(BASE, BASE + 0x10);
    host.store_pointer(BASE + 0x18, 0x40);
    let before = host.memory.clone();
    let outcome = host.access(Task::WriteChained {
        base: BASE,
        offsets: vec![8, 0, 0x10, 0x20],
        data: vec![1],
    });
    assert_eq!(outcome, Err(MemoryError::DereferenceFailed));
    assert_eq!(host.memory, before);
    assert_eq!(
        host.log,
        vec![
            Request::OpenProcess { pid: 100, rights: AccessRights::Full },
            pointer_read(BASE),
            pointer_read(BASE + 0x18),
            pointer_read(0x40),
            Request::Close,
        ]
    );
    assert_eq!(host.opened, 1);
    assert_eq!(host.closed, 1);
}

#[test]
fn first_hop_failure_reads_once() {
    let mut host = Mock::new();
    let outcome = host.access(Task::ReadChained { base: 8, offsets: vec![1, 2, 3], size: 4 });
    assert_eq!(outcome, Err(MemoryError::DereferenceFailed));
    assert_eq!(host.log.len(), 3);
    assert_eq!(host.log[1], pointer_read(8));
    assert_eq!(host.log[2], Request::Close);
}

#[test]
fn empty_chain_is_the_base() {
    let mut host = Mock::new();
    host.memory[0x30..0x33].copy_from_slice(&[4, 5, 6]);
    let chained = host.access(Task::ReadChained { base: BASE + 0x30, offsets: vec![], size: 3 });
    let chained_log = std::mem::take(&mut host.log);
    let direct = host.access(Task::Read { address: BASE + 0x30, size: 3 });
    assert_eq!(chained, Ok(Success::Bytes(vec![4, 5, 6])));
    assert_eq!(chained, direct);
    assert_eq!(chained_log, host.log);
    assert_eq!(
        chained_log,
        vec![
            Request::OpenProcess { pid: 100, rights: AccessRights::Read },
            Request::Read { address: BASE + 0x30, size: 3 },
            Request::Close,
        ]
    );
    let written =
        host.access(Task::WriteChained { base: BASE + 0x30, offsets: vec![], data: vec![1] });
    assert_eq!(written, Ok(Success::Written));
    assert_eq!(host.memory[0x30], 1);
}

#[test]
fn locate_returns_first_match() {
    let mut host = Mock::new();
    host.processes = vec![
        (4, wide_padded("System")),
        (812, wide_padded("svchost.exe")),
        (900, wide_padded("game.exe")),
        (1200, wide_padded("svchost.exe")),
        (1300, wide_padded("game.exe")),
    ];
    let outcome = host.perform(Operation::Locate { name: "game.exe".to_string() });
    assert_eq!(outcome, Ok(Success::Process(900)));
    assert_eq!(process_or_none(&outcome), Some(900));
    assert_eq!(
        host.log,
        vec![
            Request::TakeSnapshot,
            Request::FirstProcess,
            Request::NextProcess,
            Request::NextProcess,
            Request::Close,
        ]
    );
    let outcome = host.perform(Operation::Locate { name: "svchost.exe".to_string() });
    assert_eq!(outcome, Ok(Success::Process(812)));
    let outcome = host.perform(Operation::Locate { name: "System".to_string() });
    assert_eq!(outcome, Ok(Success::Process(4)));
}

#[test]
fn locate_compares_file_name_only() {
    let mut host = Mock::new();
    host.processes = vec![
        (10, wide_padded("C:\\tools\\other.exe")),
        (11, wide_padded("C:\\tools\\game.exe")),
    ];
    let outcome = host.perform(Operation::Locate { name: "game.exe".to_string() });
    assert_eq!(outcome, Ok(Success::Process(11)));
    let outcome = host.perform(Operation::Locate { name: "Game.exe".to_string() });
    assert_eq!(outcome, Err(MemoryError::ProcessNotFound));
    let outcome = host.perform(Operation::Locate { name: "C:\\tools\\game.exe".to_string() });
    assert_eq!(outcome, Err(MemoryError::ProcessNotFound));
}

#[test]
fn missing_process_is_absent() {
    let mut host = Mock::new();
    host.processes = vec![(4, wide_padded("System")), (812, wide_padded("svchost.exe"))];
    let outcome = host.perform(Operation::Locate { name: "nothing.exe".to_string() });
    assert_eq!(outcome, Err(MemoryError::ProcessNotFound));
    assert_eq!(process_or_none(&outcome), None);
    assert_eq!(
        host.log,
        vec![
            Request::TakeSnapshot,
            Request::FirstProcess,
            Request::NextProcess,
            Request::NextProcess,
            Request::Close,
        ]
    );
    assert_eq!(host.opened, 1);
    assert_eq!(host.closed, 1);
}

#[test]
fn empty_snapshot_is_released() {
    let mut host = Mock::new();
    let outcome = host.perform(Operation::Locate { name: "game.exe".to_string() });
    assert_eq!(outcome, Err(MemoryError::ProcessNotFound));
    assert_eq!(host.log, vec![Request::TakeSnapshot, Request::FirstProcess, Request::Close]);
}

#[test]
fn failed_snapshot_is_absent() {
    let mut host = Mock::new();
    host.snapshot_fails = true;
    host.processes = vec![(900, wide_padded("game.exe"))];
    let outcome = host.perform(Operation::Locate { name: "game.exe".to_string() });
    assert_eq!(outcome, Err(MemoryError::ProcessNotFound));
    assert_eq!(process_or_none(&outcome), None);
    assert_eq!(host.log, vec![Request::TakeSnapshot]);
    assert_eq!(host.opened, 0);
    assert_eq!(host.closed, 0);
}

#[test]
fn module_base_returns_first_match() {
    let mut host = Mock::new();
    host.modules = vec![
        (0x40_0000, b"game.exe".to_vec()),
        (0x7FF0_0000, b"ntdll.dll".to_vec()),
        (0x7FF1_0000, b"engine.dll".to_vec()),
        (0x7FF2_0000, b"engine.dll".to_vec()),
    ];
    let outcome = host.access(Task::ModuleBase { name: "engine.dll".to_string() });
    assert_eq!(outcome, Ok(Success::Address(0x7FF1_0000)));
    assert_eq!(address_or_message(&outcome), Ok(0x7FF1_0000));
    assert_eq!(
        host.log,
        vec![
            Request::OpenProcess { pid: 100, rights: AccessRights::Enumerate },
            Request::EnumerateModules { capacity: MODULE_CAPACITY },
            Request::ModuleName { module: 0x40_0000, capacity: MODULE_NAME_CAPACITY },
            Request::ModuleName { module: 0x7FF0_0000, capacity: MODULE_NAME_CAPACITY },
            Request::ModuleName { module: 0x7FF1_0000, capacity: MODULE_NAME_CAPACITY },
            Request::Close,
        ]
    );
}

#[test]
fn missing_module_is_not_found() {
    let mut host = Mock::new();
    host.modules = vec![(0x40_0000, b"game.exe".to_vec()), (0x7FF0_0000, b"ntdll.dll".to_vec())];
    let outcome = host.access(Task::ModuleBase { name: "absent.dll".to_string() });
    assert_eq!(outcome, Err(MemoryError::ModuleNotFound));
    assert_eq!(address_or_message(&outcome), Err("Module not found".to_string()));
    let outcome = host.access(Task::ModuleBase { name: "NTDLL.DLL".to_string() });
    assert_eq!(outcome, Err(MemoryError::ModuleNotFound));
    assert_eq!(host.opened, 2);
    assert_eq!(host.closed, 2);
}

#[test]
fn unnamed_module_is_skipped() {
    let mut host = Mock::new();
    host.modules = vec![
        (0x40_0000, Vec::new()),
        (0x50_0000, vec![0xFF, 0xFE]),
        (0x60_0000, b"engine.dll".to_vec()),
    ];
    let outcome = host.access(Task::ModuleBase { name: "engine.dll".to_string() });
    assert_eq!(outcome, Ok(Success::Address(0x60_0000)));
    let outcome = host.access(Task::ModuleBase { name: String::new() });
    assert_eq!(outcome, Err(MemoryError::ModuleNotFound));
}

#[test]
fn failed_listing_is_not_found() {
    let mut host = Mock::new();
    host.listing_fails = true;
    host.modules = vec![(0x40_0000, b"game.exe".to_vec())];
    let outcome = host.access(Task::ModuleBase { name: "game.exe".to_string() });
    assert_eq!(outcome, Err(MemoryError::ModuleNotFound));
    assert_eq!(
        host.log,
        vec![
            Request::OpenProcess { pid: 100, rights: AccessRights::Enumerate },
            Request::EnumerateModules { capacity: MODULE_CAPACITY },
            Request::Close,
        ]
    );
}

#[test]
fn empty_listing_is_not_found() {
    let mut host = Mock::new();
    let outcome = host.access(Task::ModuleBase { name: "game.exe".to_string() });
    assert_eq!(outcome, Err(MemoryError::ModuleNotFound));
    assert_eq!(host.log.len(), 3);
}

#[test]
fn listing_is_bounded_by_capacity() {
    let mut host = Mock::new();
    for index in 0..(MODULE_CAPACITY + 40) {
        host.modules.push((0x10_0000 + index * 0x1000, format!("m{}.dll", index).into_bytes()));
    }
    let last_listed = format!("m{}.dll", MODULE_CAPACITY - 1);
    let outcome = host.access(Task::ModuleBase { name: last_listed });
    assert_eq!(outcome, Ok(Success::Address(0x10_0000 + (MODULE_CAPACITY - 1) * 0x1000)));
    host.log.clear();
    let beyond = format!("m{}.dll", MODULE_CAPACITY);
    let outcome = host.access(Task::ModuleBase { name: beyond });
    assert_eq!(outcome, Err(MemoryError::ModuleNotFound));
    assert_eq!(host.log.len(), MODULE_CAPACITY + 3);
}

#[test]
fn long_module_name_arrives_cut() {
    let mut host = Mock::new();
    let long = "n".repeat(MODULE_NAME_CAPACITY + 20);
    host.modules = vec![(0x40_0000, long.clone().into_bytes())];
    let outcome = host.access(Task::ModuleBase { name: long });
    assert_eq!(outcome, Err(MemoryError::ModuleNotFound));
    let outcome = host.access(Task::ModuleBase { name: "n".repeat(MODULE_NAME_CAPACITY) });
    assert_eq!(outcome, Ok(Success::Address(0x40_0000)));
}

#[test]
fn allocate_returns_region_base() {
    let mut host = Mock::new();
    let outcome = host.access(Task::Allocate { size: 4096 });
    assert_eq!(outcome, Ok(Success::Address(0x7000_0000)));
    assert_eq!(address_or_message(&outcome), Ok(0x7000_0000));
    assert_eq!(
        host.log,
        vec![
            Request::OpenProcess { pid: 100, rights: AccessRights::Full },
            Request::Allocate { size: 4096 },
            Request::Close,
        ]
    );
    let outcome = host.access(Task::Allocate { size: 16 });
    assert_eq!(outcome, Ok(Success::Address(0x7000_1000)));
}

#[test]
fn refused_allocation_fails() {
    let mut host = Mock::new();
    let outcome = host.access(Task::Allocate { size: 0 });
    assert_eq!(outcome, Err(MemoryError::AllocationFailed));
    assert_eq!(address_or_message(&outcome), Err("Failed to allocate memory".to_string()));
    let outcome = host.perform(Operation::Access { pid: 5, task: Task::Allocate { size: 64 } });
    assert_eq!(address_or_message(&outcome), Err("Failed to open process".to_string()));
    let (session, _) =
        Session::begin(Operation::Access { pid: 5, task: Task::Allocate { size: 64 } });
    let (session, _) = step_on(session, Reply::Done);
    let (session, request) = step_on(session, Reply::Address(0));
    assert_eq!(request, Request::Close);
    assert_eq!(finish(session, Reply::Done), Err(MemoryError::AllocationFailed));
}

#[test]
fn handles_balance_on_every_path() {
    let mut host = Mock::new();
    host.store_pointer(BASE, BASE + 0x10);
    host.store_pointer(BASE + 0x10, usize::MAX);
    host.modules = vec![(0x40_0000, b"game.exe".to_vec())];
    host.processes = vec![(900, wide_padded("game.exe"))];
    let operations = vec![
        Operation::Locate { name: "game.exe".to_string() },
        Operation::Locate { name: "absent.exe".to_string() },
        Operation::Access { pid: 100, task: Task::Read { address: BASE, size: 8 } },
        Operation::Access { pid: 100, task: Task::Read { address: 0, size: 8 } },
        Operation::Access { pid: 100, task: Task::Write { address: BASE, data: vec![1] } },
        Operation::Access { pid: 100, task: Task::Write { address: 0, data: vec![1] } },
        Operation::Access { pid: 100, task: Task::Allocate { size: 32 } },
        Operation::Access { pid: 100, task: Task::Allocate { size: 0 } },
        Operation::Access { pid: 100, task: Task::ModuleBase { name: "game.exe".to_string() } },
        Operation::Access { pid: 100, task: Task::ModuleBase { name: "no.dll".to_string() } },
        Operation::Access {
            pid: 100,
            task: Task::ReadChained { base: BASE + 0x40, offsets: vec![0x10], size: 4 },
        },
        Operation::Access {
            pid: 100,
            task: Task::ReadChained { base: BASE + 0x40, offsets: vec![0x10, 1], size: 4 },
        },
        Operation::Access {
            pid: 100,
            task: Task::WriteChained { base: BASE + 8, offsets: vec![8, 1], data: vec![2] },
        },
        Operation::Access {
            pid: 100,
            task: Task::WriteChained { base: 0, offsets: vec![0], data: vec![2] },
        },
    ];
    let count = operations.len() as u32;
    for operation in operations {
        let before = host.log.len();
        host.perform(operation);
        assert_eq!(host.open, 0);
        assert_eq!(host.opened, host.closed);
        assert_eq!(host.log.last(), Some(&Request::Close));
        let closes = host.log[before..].iter().filter(|r| **r == Request::Close).count();
        assert_eq!(closes, 1);
    }
    assert_eq!(host.opened, count);

    host.snapshot_fails = true;
    host.perform(Operation::Locate { name: "game.exe".to_string() });
    host.perform(Operation::Access { pid: 1, task: Task::Read { address: BASE, size: 1 } });
    assert_eq!(host.opened, count);
    assert_eq!(host.closed, count);
    assert_eq!(host.open, 0);
}

#[test]
fn handles_balance_when_any_call_fails() {
    let operations = vec![
        Operation::Locate { name: "last.exe".to_string() },
        Operation::Access { pid: 100, task: Task::Read { address: BASE, size: 8 } },
        Operation::Access { pid: 100, task: Task::Write { address: BASE + 64, data: vec![1] } },
        Operation::Access { pid: 100, task: Task::Allocate { size: 32 } },
        Operation::Access { pid: 100, task: Task::ModuleBase { name: "c.dll".to_string() } },
        Operation::Access {
            pid: 100,
            task: Task::ReadChained { base: BASE, offsets: vec![0, 0, 0], size: 4 },
        },
        Operation::Access {
            pid: 100,
            task: Task::WriteChained { base: BASE, offsets: vec![0, 0, 0], data: vec![2] },
        },
    ];
    for operation in operations {
        for failing in 0..8 {
            let mut host = Mock::new();
            host.store_pointer(BASE, BASE + 0x10);
            host.store_pointer(BASE + 0x10, BASE + 0x20);
            host.store_pointer(BASE + 0x20, BASE + 0x30);
            host.modules = vec![
                (0x40_0000, b"a.dll".to_vec()),
                (0x50_0000, b"b.dll".to_vec()),
                (0x60_0000, b"c.dll".to_vec()),
            ];
            host.processes = vec![
                (1, wide_padded("first.exe")),
                (2, wide_padded("second.exe")),
                (3, wide_padded("last.exe")),
            ];
            host.fail_at = Some(failing);
            host.perform(operation.clone());
            assert_eq!(host.open, 0);
            assert_eq!(host.opened, host.closed);
            assert!(host.opened <= 1);
            let closes = host.log.iter().filter(|r| **r == Request::Close).count() as u32;
            assert_eq!(closes, host.opened);
            if host.opened == 1 {
                assert_eq!(host.log.last(), Some(&Request::Close));
            } else {
                assert_eq!(host.log.len(), 1);
            }
        }
    }
}

#[test]
fn failed_name_retrieval_moves_on() {
    let mut host = Mock::new();
    host.modules = vec![
        (0x40_0000, b"a.dll".to_vec()),
        (0x50_0000, b"b.dll".to_vec()),
        (0x60_0000, b"b.dll".to_vec()),
    ];
    host.fail_at = Some(3);
    let outcome = host.access(Task::ModuleBase { name: "b.dll".to_string() });
    assert_eq!(outcome, Ok(Success::Address(0x60_0000)));
}
