//! The threads of a process.

use crate::ident::ProcessId;
use vstd::prelude::*;

verus! {

/// Why a thread operation failed.
#[derive(Debug)]
pub enum ThreadError {
    /// The pool has no thread with this id.
    NoSuchThread(u32),
    /// The execution unit could not be made.
    WorkerCreation(String),
    /// The execution unit was made but could not be told what to run.
    WorkerMessaging(String),
    /// Every thread id has been given out.
    Exhausted,
}

/// A request to start a thread of process `pid` at the function `fptr`.
#[derive(Debug, Clone, Copy, PartialEq, Eq, Structural)]
pub struct ThreadRequest {
    pub pid: ProcessId,
    pub fptr: u32,
}

/// What became of the attempt to start an execution unit.
#[derive(Debug)]
pub enum Launch {
    /// The unit runs.
    Started,
    /// The unit could not be made.
    CreationFailed(String),
    /// The unit was made but could not be told what to run.
    MessagingFailed(String),
}

/// A thread of a process: the function it was started at, and whether it
/// has neither ended nor been killed.
#[derive(Debug, Clone, Copy, PartialEq, Eq, Structural)]
pub struct Thread {
    pub entry: u32,
    pub alive: bool,
}

/// The state of a thread pool: the process it belongs to and the threads
/// registered so far. Ids are given out from 0 upwards and never taken
/// back, so the id of a thread is its place here.
pub struct PoolView {
    pub pid: ProcessId,
    pub threads: Seq<Thread>,
}

impl PoolView {
    /// What registering a thread that starts at the function `entry` does,
    /// given what became of the attempt to start its execution unit: where
    /// the unit runs and an id is left, the thread gets the next id and is
    /// alive; else nothing changes and the reason is returned.
    pub open spec fn spawn(self, entry: u32, launch: Launch) -> (PoolView, Result<u32, ThreadError>) {
        match launch {
            Launch::Started => if self.threads.len() < u32::MAX {
                (
                    PoolView { threads: self.threads.push(Thread { entry, alive: true }), ..self },
                    Ok(self.threads.len() as u32),
                )
            } else {
                (self, Err(ThreadError::Exhausted))
            },
            Launch::CreationFailed(why) => (self, Err(ThreadError::WorkerCreation(why))),
            Launch::MessagingFailed(why) => (self, Err(ThreadError::WorkerMessaging(why))),
        }
    }

    /// The pool after thread `id` ended. A thread that does not exist is
    /// not made by this.
    pub open spec fn exited(self, id: u32) -> PoolView {
        if id < self.threads.len() {
            PoolView {
                threads: self.threads.update(id as int, Thread { alive: false, ..self.threads[id as int] }),
                ..self
            }
        } else {
            self
        }
    }

    /// What killing thread `id` does: the thread is no longer alive. Where
    /// there is no such thread nothing changes and that is returned.
    pub open spec fn kill(self, id: u32) -> (PoolView, Result<(), ThreadError>) {
        if id < self.threads.len() {
            (self.exited(id), Ok(()))
        } else {
            (self, Err(ThreadError::NoSuchThread(id)))
        }
    }

    /// The pool after every thread was killed.
    pub open spec fn killed(self) -> PoolView {
        PoolView {
            threads: Seq::new(self.threads.len(), |i: int| Thread { alive: false, ..self.threads[i] }),
            ..self
        }
    }

    /// The ids of the threads that are alive, in rising order, among the
    /// first `k` ids.
    pub open spec fn live_ids(self, k: int) -> Seq<u32>
        decreases k,
    {
        if k <= 0 {
            Seq::empty()
        } else if self.threads[k - 1].alive {
            self.live_ids(k - 1).push((k - 1) as u32)
        } else {
            self.live_ids(k - 1)
        }
    }
}

/// The thread pool of a process.
#[derive(Debug)]
pub struct ThreadPool {
    pid: ProcessId,
    threads: Vec<Thread>,
}

impl View for ThreadPool {
    type V = PoolView;

    closed spec fn view(&self) -> PoolView {
        PoolView { pid: self.pid, threads: self.threads@ }
    }
}

impl ThreadPool {
    /// Every thread has an id that fits 32 bits.
    pub open spec fn wf(&self) -> bool {
        self@.threads.len() <= u32::MAX
    }

    /// An empty pool for process `pid`.
    pub fn new(pid: ProcessId) -> (r: Self)
        ensures
            r.wf(),
            r@ == (PoolView { pid, threads: Seq::empty() }),
    {
        ThreadPool { pid, threads: Vec::new() }
    }

    /// The process that the pool belongs to.
    pub fn pid(&self) -> (r: ProcessId)
        ensures
            r == self@.pid,
    {
        self.pid
    }

    /// The number of ids given out so far, which is the id that the next
    /// thread gets.
    pub fn thread_amount(&self) -> (r: u32)
        requires
            self.wf(),
        ensures
            r == self@.threads.len(),
    {
        self.threads.len() as u32
    }

    /// Registers a thread whose execution unit the caller tried to start at
    /// the function `f_ptr`. Where the unit runs, the thread gets the next
    /// id and is alive. Where it does not, or no id is left, nothing
    /// changes.
    pub fn spawn(&mut self, f_ptr: u32, launch: Launch) -> (r: Result<u32, ThreadError>)
        requires
            old(self).wf(),
        ensures
            final(self).wf(),
            (final(self)@, r) == old(self)@.spawn(f_ptr, launch),
    {
        match launch {
            Launch::Started => {
                if self.threads.len() >= u32::MAX as usize {
                    return Err(ThreadError::Exhausted);
                }
                let id = self.threads.len() as u32;
                self.threads.push(Thread { entry: f_ptr, alive: true });
                Ok(id)
            },
            Launch::CreationFailed(why) => Err(ThreadError::WorkerCreation(why)),
            Launch::MessagingFailed(why) => Err(ThreadError::WorkerMessaging(why)),
        }
    }

    /// Thread `id`, if there is one.
    pub fn thread(&self, id: u32) -> (r: Option<Thread>)
        ensures
            r == (if id < self@.threads.len() {
                Some(self@.threads[id as int])
            } else {
                None
            }),
    {
        if (id as usize) < self.threads.len() {
            Some(self.threads[id as usize])
        } else {
            None
        }
    }

    /// Whether thread `id` exists and has neither ended nor been killed.
    pub fn alive(&self, id: u32) -> (r: bool)
        ensures
            r == (id < self@.threads.len() && self@.threads[id as int].alive),
    {
        (id as usize) < self.threads.len() && self.threads[id as usize].alive
    }

    /// Takes note that the execution unit of thread `id` has ended.
    pub fn exited(&mut self, id: u32)
        ensures
            final(self)@ == old(self)@.exited(id),
            old(self).wf() ==> final(self).wf(),
    {
        if (id as usize) < self.threads.len() {
            let thread = self.threads[id as usize];
            self.threads.set(id as usize, Thread { entry: thread.entry, alive: false });
        }
    }

    /// Kills thread `id`: it is no longer alive, and the caller ends its
    /// execution unit. Fails, with nothing changed, where there is no such
    /// thread.
    pub fn kill(&mut self, id: u32) -> (r: Result<(), ThreadError>)
        ensures
            (final(self)@, r) == old(self)@.kill(id),
            old(self).wf() ==> final(self).wf(),
    {
        if (id as usize) < self.threads.len() {
            self.exited(id);
            Ok(())
        } else {
            Err(ThreadError::NoSuchThread(id))
        }
    }

    /// Kills every thread and returns the ids of those that were alive, in
    /// rising order: the execution units that the caller has to end.
    pub fn kill_all(&mut self) -> (r: Vec<u32>)
        requires
            old(self).wf(),
        ensures
            final(self).wf(),
            final(self)@ == old(self)@.killed(),
            r@ == old(self)@.live_ids(old(self)@.threads.len() as int),
    {
        let mut ended: Vec<u32> = Vec::new();
        let mut i: usize = 0;
        while i < self.threads.len()
            invariant
                i <= self.threads@.len(),
                self.pid == old(self).pid,
                self.threads@.len() == old(self).threads@.len(),
                self.threads@.len() <= u32::MAX,
                forall|j: int|
                    0 <= j < i ==> #[trigger] self.threads@[j] == (Thread {
                        alive: false,
                        ..old(self).threads@[j]
                    }),
                forall|j: int| i <= j < self.threads@.len() ==> #[trigger] self.threads@[j] == old(self).threads@[j],
                ended@ == old(self)@.live_ids(i as int),
            decreases self.threads@.len() - i,
        {
            let thread = self.threads[i];
            if thread.alive {
                ended.push(i as u32);
                self.threads.set(i, Thread { entry: thread.entry, alive: false });
            }
            i += 1;
        }
        assert(self@.threads =~= old(self)@.killed().threads);
        ended
    }
}

} // verus!
