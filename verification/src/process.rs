//! One process: a module instance with its context and its threads.

use crate::context::{CtxView, ProcessCtx};
use crate::ident::ProcessId;
use crate::memory::{zeros, Memory, MemoryError, MemoryView, MAX_PAGES, PAGE_SIZE};
use crate::requirements::{requirements_of, WasmRequirements};
use crate::stdout::{ProcessStdOut, StdoutView};
use crate::thread::{Launch, PoolView, ThreadError, ThreadPool};
use vstd::prelude::*;

verus! {

/// Where a process stands in its life. It moves forward only: from pending
/// to running when its execution unit starts, and to dead when that unit
/// ends or the process is killed.
#[derive(Debug, Clone, Copy, PartialEq, Eq, Structural)]
pub enum ProcessState {
    /// Made and waiting for its execution unit.
    Pending,
    /// Its execution unit runs.
    Running,
    /// Ended or killed.
    Dead,
}

/// The execution units to end when a process is killed.
#[derive(Debug)]
pub struct Termination {
    /// Whether the execution unit of the process itself runs.
    pub primary: bool,
    /// The ids of the threads whose execution units run, in rising order.
    pub threads: Vec<u32>,
}

/// Why a process operation failed.
#[derive(Debug)]
pub enum ProcessError {
    /// The memory requirements of the module could not be read.
    MalformedModule,
    /// The memory of the process could not be made.
    Memory(MemoryError),
    /// The process is not waiting for its execution unit.
    NotPending,
    /// The execution unit could not be made.
    WorkerCreation(String),
    /// The execution unit was made but could not be told what to run.
    WorkerMessaging(String),
    /// The identifier is taken by another process.
    IdInUse(ProcessId),
}

/// The state of a process.
pub struct ProcessView {
    pub id: ProcessId,
    pub title: Seq<char>,
    pub state: ProcessState,
    pub ctx: CtxView,
    pub pool: PoolView,
}

impl ProcessView {
    /// The memory is well formed, every thread id fits 32 bits, and the
    /// context and the pool belong to this process.
    pub open spec fn wf(self) -> bool {
        &&& self.ctx.wf()
        &&& self.pool.threads.len() <= u32::MAX
        &&& self.ctx.pid == self.id
        &&& self.pool.pid == self.id
    }

    /// The process as it is made: pending, with no thread, no output, no
    /// region and a zeroed memory of the size the module asks for.
    pub open spec fn fresh(id: ProcessId, module: Seq<u8>, title: Seq<char>, cwd: Seq<char>) -> ProcessView {
        let requirements = requirements_of(module).unwrap();
        ProcessView {
            id,
            title,
            state: ProcessState::Pending,
            ctx: CtxView {
                pid: id,
                stdout: StdoutView { pending: Seq::empty(), text: Seq::empty() },
                memory: MemoryView {
                    regions: Seq::empty(),
                    bytes: zeros(requirements.initial_memory * PAGE_SIZE),
                    maximum: requirements.maximum_memory,
                },
                shared: requirements.shared_memory,
                cwd,
                module,
            },
            pool: PoolView { pid: id, threads: Seq::empty() },
        }
    }

    /// Why no process can be made for the module `module`, if none can:
    /// its memory requirements cannot be read, or no memory can be made to
    /// meet them.
    pub open spec fn refusal(module: Seq<u8>) -> Option<ProcessError> {
        match requirements_of(module) {
            None => Some(ProcessError::MalformedModule),
            Some(req) => if req.initial_memory > MAX_PAGES {
                Some(ProcessError::Memory(MemoryError::TooLarge))
            } else if req.maximum_memory matches Some(cap) && req.initial_memory > cap {
                Some(ProcessError::Memory(MemoryError::ExceedsMaximum))
            } else {
                None
            },
        }
    }

    /// Whether the process has neither ended nor been killed.
    pub open spec fn alive(self) -> bool {
        self.state != ProcessState::Dead
    }

    /// What committing the spawn does, given what became of the attempt to
    /// start the execution unit: a pending process whose unit runs is
    /// running; in every other case nothing changes and the reason is
    /// returned.
    pub open spec fn spawn(self, launch: Launch) -> (ProcessView, Result<(), ProcessError>) {
        if self.state != ProcessState::Pending {
            (self, Err(ProcessError::NotPending))
        } else {
            match launch {
                Launch::Started => (ProcessView { state: ProcessState::Running, ..self }, Ok(())),
                Launch::CreationFailed(why) => (self, Err(ProcessError::WorkerCreation(why))),
                Launch::MessagingFailed(why) => (self, Err(ProcessError::WorkerMessaging(why))),
            }
        }
    }

    /// The process after its execution unit ended.
    pub open spec fn exited(self) -> ProcessView {
        ProcessView { state: ProcessState::Dead, ..self }
    }

    /// The process after it was killed: dead, and so is every thread.
    pub open spec fn killed(self) -> ProcessView {
        ProcessView { state: ProcessState::Dead, pool: self.pool.killed(), ..self }
    }
}

/// A process.
pub struct Process {
    id: ProcessId,
    title: String,
    ctx: ProcessCtx,
    state: ProcessState,
    thread_pool: ThreadPool,
}

impl View for Process {
    type V = ProcessView;

    closed spec fn view(&self) -> ProcessView {
        ProcessView {
            id: self.id,
            title: self.title@,
            state: self.state,
            ctx: self.ctx@,
            pool: self.thread_pool@,
        }
    }
}

impl Process {
    /// The invariant of a process: that of its view.
    pub open spec fn wf(&self) -> bool {
        self@.wf()
    }

    /// Makes a process for the module `wasm_bin` with a memory as the module
    /// asks for. The process is pending: nothing runs yet.
    pub fn new(id: ProcessId, wasm_bin: Vec<u8>, title: &str, working_directory: &str) -> (r: Result<
        Process,
        ProcessError,
    >)
        ensures
            match r {
                Ok(p) => {
                    &&& ProcessView::refusal(wasm_bin@) is None
                    &&& p.wf()
                    &&& p@ == ProcessView::fresh(id, wasm_bin@, title@, working_directory@)
                },
                Err(e) => ProcessView::refusal(wasm_bin@) == Some(e),
            },
    {
        let stdout = ProcessStdOut::new();
        let ctx = create_context(id, wasm_bin, stdout, working_directory.to_owned())?;
        let thread_pool = ThreadPool::new(id);
        Ok(Process { id, title: title.to_owned(), ctx, state: ProcessState::Pending, thread_pool })
    }

    /// Commits the spawn, given what became of the attempt to start the
    /// execution unit of the process.
    pub fn spawn(&mut self, launch: Launch) -> (r: Result<(), ProcessError>)
        ensures
            (final(self)@, r) == old(self)@.spawn(launch),
            old(self).wf() ==> final(self).wf(),
    {
        match self.state {
            ProcessState::Pending => {},
            _ => {
                return Err(ProcessError::NotPending);
            },
        }
        match launch {
            Launch::Started => {
                self.state = ProcessState::Running;
                Ok(())
            },
            Launch::CreationFailed(why) => Err(ProcessError::WorkerCreation(why)),
            Launch::MessagingFailed(why) => Err(ProcessError::WorkerMessaging(why)),
        }
    }

    /// Registers a thread that starts at the function `f_ptr`, given what
    /// became of the attempt to start its execution unit, and returns its id.
    pub fn spawn_thread(&mut self, f_ptr: u32, launch: Launch) -> (r: Result<u32, ThreadError>)
        requires
            old(self).wf(),
        ensures
            final(self).wf(),
            final(self)@ == (ProcessView { pool: old(self)@.pool.spawn(f_ptr, launch).0, ..old(self)@ }),
            r == old(self)@.pool.spawn(f_ptr, launch).1,
    {
        self.thread_pool.spawn(f_ptr, launch)
    }

    /// Kills the process and all its threads. Returns the execution units
    /// that the caller has to end: that of the process where it was
    /// running, and those of the threads that were alive.
    pub fn kill(&mut self) -> (r: Termination)
        requires
            old(self).wf(),
        ensures
            final(self).wf(),
            final(self)@ == old(self)@.killed(),
            r.primary == (old(self)@.state == ProcessState::Running),
            r.threads@ == old(self)@.pool.live_ids(old(self)@.pool.threads.len() as int),
    {
        let primary = match self.state {
            ProcessState::Running => true,
            _ => false,
        };
        let threads = self.thread_pool.kill_all();
        self.state = ProcessState::Dead;
        Termination { primary, threads }
    }

    /// Takes note that the execution unit of the process has ended.
    pub fn exited(&mut self)
        ensures
            final(self)@ == old(self)@.exited(),
            old(self).wf() ==> final(self).wf(),
    {
        self.state = ProcessState::Dead;
    }

    /// Takes note that the execution unit of thread `id` has ended.
    pub fn thread_exited(&mut self, id: u32)
        ensures
            final(self)@ == (ProcessView { pool: old(self)@.pool.exited(id), ..old(self)@ }),
            old(self).wf() ==> final(self).wf(),
    {
        self.thread_pool.exited(id);
    }

    /// The id.
    pub fn id(&self) -> (r: ProcessId)
        ensures
            r == self@.id,
    {
        self.id
    }

    /// The title.
    pub fn title(&self) -> (r: &str)
        ensures
            r@ == self@.title,
    {
        self.title.as_str()
    }

    /// The context.
    pub fn ctx(&self) -> (r: &ProcessCtx)
        ensures
            r@ == self@.ctx,
    {
        &self.ctx
    }

    /// The context, to change what the process holds through it. The
    /// process holds afterwards what the context was left as.
    pub fn ctx_mut(&mut self) -> (r: &mut ProcessCtx)
        ensures
            r@ == old(self)@.ctx,
            final(self)@ == (ProcessView { ctx: final(r)@, ..old(self)@ }),
    {
        &mut self.ctx
    }

    /// The threads.
    pub fn thread_pool(&self) -> (r: &ThreadPool)
        ensures
            r@ == self@.pool,
    {
        &self.thread_pool
    }

    /// Where the process stands in its life.
    pub fn state(&self) -> (r: ProcessState)
        ensures
            r == self@.state,
    {
        self.state
    }

    /// Whether the process has neither ended nor been killed. A pending
    /// process is alive.
    pub fn is_alive(&self) -> (r: bool)
        ensures
            r == self@.alive(),
    {
        match self.state {
            ProcessState::Dead => false,
            _ => true,
        }
    }

    /// The output stream.
    pub fn stdout(&self) -> (r: &ProcessStdOut)
        ensures
            r@ == self@.ctx.stdout,
    {
        self.ctx.stdout()
    }

    /// The working directory.
    pub fn cwd(&self) -> (r: String)
        ensures
            r@ == self@.ctx.cwd,
    {
        self.ctx.cwd()
    }
}

/// Makes the context of a process: reads what the module asks of its
/// memory and makes a memory to meet it.
fn create_context(pid: ProcessId, bin: Vec<u8>, stdout: ProcessStdOut, cwd: String) -> (r: Result<
    ProcessCtx,
    ProcessError,
>)
    ensures
        match r {
            Ok(ctx) => {
                &&& ProcessView::refusal(bin@) is None
                &&& ctx.wf()
                &&& ctx@ == (CtxView {
                    stdout: stdout@,
                    ..ProcessView::fresh(pid, bin@, Seq::empty(), cwd@).ctx
                })
            },
            Err(e) => ProcessView::refusal(bin@) == Some(e),
        },
{
    let requirements = match WasmRequirements::parse(bin.as_slice()) {
        Some(requirements) => requirements,
        None => {
            return Err(ProcessError::MalformedModule);
        },
    };
    match Memory::new(
        requirements.initial_memory,
        requirements.maximum_memory,
        requirements.shared_memory,
    ) {
        Ok(memory) => Ok(ProcessCtx::new(pid, memory, stdout, cwd, bin)),
        Err(e) => Err(ProcessError::Memory(e)),
    }
}

} // verus!
