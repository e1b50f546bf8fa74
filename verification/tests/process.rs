use honeyos::manager::{Action, ProcessManager};
use honeyos::memory::{LinearMemory, MemoryError, PAGE_SIZE};
use honeyos::process::{Process, ProcessError, ProcessState};
use honeyos::thread::{Launch, Thread, ThreadError, ThreadPool, ThreadRequest};
use uuid::Uuid;

/// A module that defines one shared memory of 1 page, capped at 4.
fn module() -> Vec<u8> {
    vec![0x00, 0x61, 0x73, 0x6d, 0x01, 0x00, 0x00, 0x00, 0x05, 0x04, 0x01, 0x03, 0x01, 0x04]
}

/// A module that defines one memory of `initial` pages (below 128), capped
/// at `maximum`.
fn module_with(initial: u8, maximum: u8) -> Vec<u8> {
    vec![0x00, 0x61, 0x73, 0x6d, 0x01, 0x00, 0x00, 0x00, 0x05, 0x04, 0x01, 0x01, initial, maximum]
}

#[test]
fn new_process_is_pending() {
    let process = Process::new(7, module(), "shell", "c:/home").unwrap();
    assert_eq!(process.id(), 7);
    assert_eq!(process.title(), "shell");
    assert_eq!(process.cwd(), "c:/home");
    assert_eq!(process.state(), ProcessState::Pending);
    assert!(process.is_alive());
    assert_eq!(process.ctx().pid(), 7);
    assert_eq!(process.ctx().module(), &module());
    assert_eq!(process.ctx().memory().byte_length(), PAGE_SIZE);
    assert_eq!(process.ctx().memory().maximum(), Some(4));
    assert!(process.ctx().memory().inner().is_shared());
    assert_eq!(process.stdout().buffer(), "");
    assert_eq!(process.thread_pool().pid(), 7);
    assert_eq!(process.thread_pool().thread_amount(), 0);
}

#[test]
fn process_without_requirements_is_refused() {
    assert!(matches!(
        Process::new(1, vec![0, 0x61, 0x73, 0x6d], "t", ""),
        Err(ProcessError::MalformedModule)
    ));
    assert!(matches!(Process::new(1, Vec::new(), "t", ""), Err(ProcessError::MalformedModule)));
    // 70000 pages: 0xf0 0xa2 0x04 in the variable-length encoding.
    let too_large =
        vec![0x00, 0x61, 0x73, 0x6d, 0x01, 0x00, 0x00, 0x00, 0x05, 0x05, 0x01, 0x00, 0xf0, 0xa2, 0x04];
    assert!(matches!(
        Process::new(1, too_large, "t", ""),
        Err(ProcessError::Memory(MemoryError::TooLarge))
    ));
    assert!(matches!(
        Process::new(1, module_with(3, 2), "t", ""),
        Err(ProcessError::Memory(MemoryError::ExceedsMaximum))
    ));
    assert!(Process::new(1, module_with(2, 2), "t", "").is_ok());
}

#[test]
fn spawn_commits_only_a_pending_process_whose_unit_runs() {
    let mut process = Process::new(1, module(), "t", "").unwrap();
    assert!(matches!(
        process.spawn(Launch::CreationFailed("no worker".to_string())),
        Err(ProcessError::WorkerCreation(why)) if why == "no worker"
    ));
    assert_eq!(process.state(), ProcessState::Pending);
    assert!(matches!(
        process.spawn(Launch::MessagingFailed("no message".to_string())),
        Err(ProcessError::WorkerMessaging(why)) if why == "no message"
    ));
    assert_eq!(process.state(), ProcessState::Pending);
    assert!(process.spawn(Launch::Started).is_ok());
    assert_eq!(process.state(), ProcessState::Running);
    assert!(matches!(process.spawn(Launch::Started), Err(ProcessError::NotPending)));
    assert_eq!(process.state(), ProcessState::Running);
}

#[test]
fn dead_is_final() {
    let mut process = Process::new(1, module(), "t", "").unwrap();
    process.spawn(Launch::Started).unwrap();
    process.exited();
    assert!(!process.is_alive());
    assert!(matches!(process.spawn(Launch::Started), Err(ProcessError::NotPending)));
    assert_eq!(process.state(), ProcessState::Dead);
    process.spawn_thread(4, Launch::Started).unwrap();
    assert_eq!(process.state(), ProcessState::Dead);
    let ended = process.kill();
    assert!(!ended.primary);
    assert_eq!(ended.threads, vec![0]);
    assert_eq!(process.state(), ProcessState::Dead);
}

#[test]
fn kill_ends_every_thread() {
    let mut process = Process::new(1, module(), "t", "").unwrap();
    process.spawn(Launch::Started).unwrap();
    assert_eq!(process.spawn_thread(100, Launch::Started).unwrap(), 0);
    assert_eq!(process.spawn_thread(200, Launch::Started).unwrap(), 1);
    assert!(process.thread_pool().alive(0));
    assert!(process.thread_pool().alive(1));
    let ended = process.kill();
    assert!(ended.primary);
    assert_eq!(ended.threads, vec![0, 1]);
    assert!(!process.is_alive());
    assert!(!process.thread_pool().alive(0));
    assert!(!process.thread_pool().alive(1));
}

#[test]
fn thread_ids_rise_and_are_never_given_twice() {
    let mut pool = ThreadPool::new(9);
    assert_eq!(pool.spawn(1, Launch::Started).unwrap(), 0);
    assert!(matches!(
        pool.spawn(1, Launch::CreationFailed("x".to_string())),
        Err(ThreadError::WorkerCreation(why)) if why == "x"
    ));
    assert!(matches!(
        pool.spawn(1, Launch::MessagingFailed("y".to_string())),
        Err(ThreadError::WorkerMessaging(why)) if why == "y"
    ));
    assert_eq!(pool.thread_amount(), 1);
    assert_eq!(pool.spawn(2, Launch::Started).unwrap(), 1);
    pool.exited(0);
    assert_eq!(pool.spawn(3, Launch::Started).unwrap(), 2);
    assert!(!pool.alive(0));
    assert!(pool.alive(1));
    assert!(pool.alive(2));
    assert!(!pool.alive(3));
    assert_eq!(pool.thread(0), Some(Thread { entry: 1, alive: false }));
    assert_eq!(pool.thread(1), Some(Thread { entry: 2, alive: true }));
    assert_eq!(pool.thread(2), Some(Thread { entry: 3, alive: true }));
    assert_eq!(pool.thread(3), None);
}

#[test]
fn kill_of_a_thread() {
    let mut pool = ThreadPool::new(9);
    pool.spawn(1, Launch::Started).unwrap();
    pool.spawn(1, Launch::Started).unwrap();
    assert!(pool.kill(1).is_ok());
    assert!(pool.alive(0));
    assert!(!pool.alive(1));
    assert!(matches!(pool.kill(2), Err(ThreadError::NoSuchThread(2))));
    pool.exited(17);
    assert_eq!(pool.thread_amount(), 2);
    assert_eq!(pool.kill_all(), vec![0]);
    assert!(!pool.alive(0));
    assert_eq!(pool.kill_all(), Vec::<u32>::new());
}

#[test]
fn thread_exit_of_a_process() {
    let mut process = Process::new(1, module(), "t", "").unwrap();
    process.spawn_thread(1, Launch::Started).unwrap();
    process.spawn_thread(2, Launch::Started).unwrap();
    process.thread_exited(0);
    assert!(!process.thread_pool().alive(0));
    assert!(process.thread_pool().alive(1));
    assert!(process.is_alive());
}

#[test]
fn context_gives_access_to_memory_output_and_directory() {
    let mut process = Process::new(1, module(), "t", "/a/./b").unwrap();
    assert_eq!(process.cwd(), "/a/./b");
    let ctx = process.ctx_mut();
    ctx.set_cwd("c:/x/../y//z/.");
    let ptr = ctx.memory_mut().allocate(16).unwrap();
    ctx.memory_mut().write(ptr, b"hi\0");
    ctx.stdout_mut().writeln("out");
    ctx.stdout_mut().sync();
    assert_eq!(process.cwd(), "c:/y/z");
    assert_eq!(process.ctx().memory().read_str(ptr), Some("hi".to_string()));
    assert_eq!(process.stdout().buffer(), "out\n");
}

#[test]
fn worker_context_keeps_regions_over_another_buffer() {
    let mut process = Process::new(1, module(), "t", "home").unwrap();
    let ptr = process.ctx_mut().memory_mut().allocate(10).unwrap();
    process.ctx_mut().stdout_mut().write("x");
    let mut buffer = LinearMemory::new(1, true).unwrap();
    buffer.set(&[4, 5], ptr);
    let worker = process.ctx().new_worker(buffer);
    assert_eq!(worker.pid(), 1);
    assert_eq!(worker.cwd(), "home");
    assert_eq!(worker.module(), &module());
    assert_eq!(worker.memory().regions(), process.ctx().memory().regions());
    assert_eq!(worker.memory().read(ptr, 2), vec![4, 5]);
    assert_eq!(worker.stdout().process_buffer(), process.stdout().process_buffer());
    assert_eq!(process.ctx().memory().read(ptr, 2), vec![0, 0]);
}

#[test]
fn two_phase_spawn() {
    let mut manager = ProcessManager::new();
    let pid = manager.spawn(module(), Some("init"), "c:/").unwrap();
    // Requested: in the table, pending, queued.
    assert_eq!(manager.process(pid).unwrap().state(), ProcessState::Pending);
    assert_eq!(manager.process(pid).unwrap().title(), "init");
    assert_eq!(manager.requests(), &vec![pid]);
    // The update hands the start to the driver.
    assert_eq!(manager.update(), vec![Action::StartProcess { pid }]);
    assert!(manager.requests().is_empty());
    assert_eq!(manager.process(pid).unwrap().state(), ProcessState::Pending);
    // The driver commits.
    manager.process_mut(pid).unwrap().spawn(Launch::Started).unwrap();
    assert_eq!(manager.process(pid).unwrap().state(), ProcessState::Running);
    assert_eq!(manager.update(), Vec::<Action>::new());
    assert!(manager.process(pid).is_some());
}

#[test]
fn killed_process_is_reaped() {
    let mut manager = ProcessManager::new();
    let pid = manager.spawn(module(), None, "c:/").unwrap();
    manager.update();
    manager.process_mut(pid).unwrap().spawn(Launch::Started).unwrap();
    manager.process_mut(pid).unwrap().kill();
    assert!(!manager.process(pid).unwrap().is_alive());
    manager.update();
    assert!(manager.process(pid).is_none());
    assert!(manager.processes().is_empty());
}

#[test]
fn process_killed_while_pending_is_reaped_and_not_started() {
    let mut manager = ProcessManager::new();
    let doomed = manager.spawn(module(), None, "").unwrap();
    let kept = manager.spawn(module(), None, "").unwrap();
    manager.spawn_thread(doomed, 11);
    manager.spawn_thread(kept, 22);
    manager.spawn_thread(kept, 33);
    manager.process_mut(doomed).unwrap().kill();
    assert_eq!(
        manager.update(),
        vec![
            Action::StartProcess { pid: kept },
            Action::StartThread { pid: kept, fptr: 22 },
            Action::StartThread { pid: kept, fptr: 33 },
        ]
    );
    assert!(manager.process(doomed).is_none());
    assert!(manager.thread_requests().is_empty());
    assert_eq!(manager.processes(), vec![kept]);
}

#[test]
fn thread_requests_are_queued_until_the_update() {
    let mut manager = ProcessManager::new();
    let pid = manager.spawn(module(), None, "").unwrap();
    manager.update();
    manager.spawn_thread(pid, 5);
    manager.spawn_thread(99, 6);
    assert_eq!(
        manager.thread_requests(),
        &vec![ThreadRequest { pid, fptr: 5 }, ThreadRequest { pid: 99, fptr: 6 }]
    );
    assert_eq!(manager.update(), vec![Action::StartThread { pid, fptr: 5 }]);
    let id = manager.process_mut(pid).unwrap().spawn_thread(5, Launch::Started).unwrap();
    assert_eq!(id, 0);
    assert!(manager.process(pid).unwrap().thread_pool().alive(0));
}

#[test]
fn spawned_ids_are_pairwise_distinct() {
    let mut manager = ProcessManager::new();
    let mut ids = Vec::new();
    for _ in 0..64 {
        ids.push(manager.spawn(module(), None, "").unwrap());
    }
    for i in 0..ids.len() {
        for j in 0..i {
            assert_ne!(ids[i], ids[j]);
        }
    }
    let mut listed = manager.processes();
    listed.sort();
    ids.sort();
    assert_eq!(listed, ids);
}

#[test]
fn spawned_ids_are_random_uuids() {
    let mut manager = ProcessManager::new();
    let pid = manager.spawn(module(), None, "").unwrap();
    let uuid = Uuid::from_u128(pid);
    assert_eq!(uuid.get_version_num(), 4);
    assert_eq!(pid & 0xF000_C000_0000_0000_0000, 0x4000_8000_0000_0000_0000);
}

#[test]
fn untitled_process_is_named_by_its_id() {
    let mut manager = ProcessManager::new();
    let pid = manager
        .spawn_with_id(0xa1a2a3a4b1b2c1c2d1d2d3d4d5d6d7d8, module(), None, "")
        .unwrap();
    assert_eq!(manager.process(pid).unwrap().title(), "a1a2a3a4-b1b2-c1c2-d1d2-d3d4d5d6d7d8");
    let other = manager.spawn(module(), None, "").unwrap();
    assert_eq!(manager.process(other).unwrap().title(), Uuid::from_u128(other).to_string());
    let low = manager.spawn_with_id(0x0f, module(), None, "").unwrap();
    assert_eq!(manager.process(low).unwrap().title(), "00000000-0000-0000-0000-00000000000f");
}

#[test]
fn spawn_under_a_taken_id_is_refused() {
    let mut manager = ProcessManager::new();
    manager.spawn_with_id(5, module(), Some("first"), "").unwrap();
    assert!(matches!(
        manager.spawn_with_id(5, module(), Some("second"), ""),
        Err(ProcessError::IdInUse(5))
    ));
    assert_eq!(manager.process(5).unwrap().title(), "first");
    assert_eq!(manager.requests(), &vec![5]);
}

#[test]
fn spawn_of_a_malformed_module_leaves_the_table_alone() {
    let mut manager = ProcessManager::new();
    assert!(matches!(
        manager.spawn(vec![1, 2, 3], None, ""),
        Err(ProcessError::MalformedModule)
    ));
    assert!(manager.processes().is_empty());
    assert!(manager.requests().is_empty());
    assert_eq!(manager.update(), Vec::<Action>::new());
}

#[test]
fn requests_can_be_changed_in_place() {
    let mut manager = ProcessManager::new();
    let pid = manager.spawn(module(), None, "").unwrap();
    manager.requests_mut().clear();
    assert_eq!(manager.update(), Vec::<Action>::new());
    assert_eq!(manager.process(pid).unwrap().state(), ProcessState::Pending);
}
