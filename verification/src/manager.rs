//! The process table and its two-phase spawn.
//!
//! A spawn makes a pending process and queues it. The next update drops the
//! processes that are dead and hands the queued work to the driver: the
//! processes and threads whose execution units it has to start. The driver
//! reports what became of each through the process itself.

use crate::ident::{hyphenated, id_text, random_id, ProcessId};
use crate::process::{Process, ProcessError, ProcessView};
use crate::table::{entries, ProcessTable};
use crate::thread::ThreadRequest;
use vstd::prelude::*;

verus! {

/// What the driver has to do after an update.
#[derive(Debug, Clone, Copy, PartialEq, Eq, Structural)]
pub enum Action {
    /// Start the execution unit of process `pid`, then commit with
    /// `Process::spawn`.
    StartProcess { pid: ProcessId },
    /// Start an execution unit of process `pid` at the function `fptr`, then
    /// commit with `Process::spawn_thread`.
    StartThread { pid: ProcessId, fptr: u32 },
}

/// The processes among the first `k` of `requests` that `table` still
/// holds, in order, each as the order to start it.
pub open spec fn released_spawns(
    requests: Seq<ProcessId>,
    table: Map<ProcessId, ProcessView>,
    k: int,
) -> Seq<Action>
    decreases k,
{
    if k <= 0 {
        Seq::empty()
    } else if table.contains_key(requests[k - 1]) {
        released_spawns(requests, table, k - 1).push(Action::StartProcess { pid: requests[k - 1] })
    } else {
        released_spawns(requests, table, k - 1)
    }
}

/// The threads among the first `k` of `requests` whose process `table`
/// still holds, in order, each as the order to start it.
pub open spec fn released_threads(
    requests: Seq<ThreadRequest>,
    table: Map<ProcessId, ProcessView>,
    k: int,
) -> Seq<Action>
    decreases k,
{
    if k <= 0 {
        Seq::empty()
    } else if table.contains_key(requests[k - 1].pid) {
        released_threads(requests, table, k - 1).push(
            Action::StartThread { pid: requests[k - 1].pid, fptr: requests[k - 1].fptr },
        )
    } else {
        released_threads(requests, table, k - 1)
    }
}

/// The state of a process manager: the table, the processes queued for
/// their start and the threads queued for theirs, oldest first.
pub struct ManagerView {
    pub processes: Map<ProcessId, ProcessView>,
    pub spawn_requests: Seq<ProcessId>,
    pub thread_requests: Seq<ThreadRequest>,
}

impl ManagerView {
    /// Every process in the table is well formed and stands under its own
    /// id.
    pub open spec fn wf(self) -> bool {
        forall|id: ProcessId| #[trigger]
            self.processes.contains_key(id) ==> self.processes[id].wf() && self.processes[id].id == id
    }

    /// What a spawn with the identifier `id` does. Where the identifier is
    /// free and a process can be made, the process is put in the table,
    /// pending, and queued for its start. Its title is `title`, or the text
    /// of its identifier where none is given. In every other case nothing
    /// changes and the reason is returned.
    pub open spec fn spawn_with(
        self,
        id: ProcessId,
        module: Seq<u8>,
        title: Option<Seq<char>>,
        cwd: Seq<char>,
    ) -> (ManagerView, Result<ProcessId, ProcessError>) {
        if self.processes.contains_key(id) {
            (self, Err(ProcessError::IdInUse(id)))
        } else {
            match ProcessView::refusal(module) {
                Some(e) => (self, Err(e)),
                None => (
                    ManagerView {
                        processes: self.processes.insert(
                            id,
                            ProcessView::fresh(
                                id,
                                module,
                                match title {
                                    Some(title) => title,
                                    None => hyphenated(id),
                                },
                                cwd,
                            ),
                        ),
                        spawn_requests: self.spawn_requests.push(id),
                        ..self
                    },
                    Ok(id),
                ),
            }
        }
    }

    /// The state after a thread of process `pid` was queued for its start
    /// at the function `fptr`.
    pub open spec fn spawn_thread(self, pid: ProcessId, fptr: u32) -> ManagerView {
        ManagerView { thread_requests: self.thread_requests.push(ThreadRequest { pid, fptr }), ..self }
    }

    /// The table without the processes that are dead.
    pub open spec fn reaped(self) -> Map<ProcessId, ProcessView> {
        Map::new(
            |id: ProcessId| self.processes.contains_key(id) && self.processes[id].alive(),
            |id: ProcessId| self.processes[id],
        )
    }

    /// What an update does. The dead processes leave the table. Then both
    /// queues are emptied into the orders for the driver: first the queued
    /// processes, then the queued threads, each in the order of its queue,
    /// without those whose process is no longer in the table.
    pub open spec fn update(self) -> (ManagerView, Seq<Action>) {
        (
            ManagerView {
                processes: self.reaped(),
                spawn_requests: Seq::empty(),
                thread_requests: Seq::empty(),
            },
            released_spawns(self.spawn_requests, self.reaped(), self.spawn_requests.len() as int)
                + released_threads(
                self.thread_requests,
                self.reaped(),
                self.thread_requests.len() as int,
            ),
        )
    }
}

/// What each process of a table is.
pub open spec fn process_views(table: Map<ProcessId, Process>) -> Map<ProcessId, ProcessView> {
    table.map_values(|p: Process| p@)
}

/// A manager for the processes of the kernel.
pub struct ProcessManager {
    processes: ProcessTable,
    spawn_requests: Vec<ProcessId>,
    thread_requests: Vec<ThreadRequest>,
}

impl View for ProcessManager {
    type V = ManagerView;

    closed spec fn view(&self) -> ManagerView {
        ManagerView {
            processes: process_views(entries(self.processes)),
            spawn_requests: self.spawn_requests@,
            thread_requests: self.thread_requests@,
        }
    }
}

impl ProcessManager {
    /// The invariant of a manager: that of its view.
    pub open spec fn wf(&self) -> bool {
        self@.wf()
    }

    /// A manager with no process and nothing queued.
    pub fn new() -> (r: Self)
        ensures
            r.wf(),
            r@ == (ManagerView {
                processes: Map::empty(),
                spawn_requests: Seq::empty(),
                thread_requests: Seq::empty(),
            }),
    {
        let r = ProcessManager {
            processes: ProcessTable::new(),
            spawn_requests: Vec::new(),
            thread_requests: Vec::new(),
        };
        assert(r@.processes =~= Map::empty());
        r
    }

    /// Spawns a process for the module `wasm_bin` under the identifier `id`.
    /// The process is made and queued; the next update hands it to the
    /// driver for its start.
    pub fn spawn_with_id(
        &mut self,
        id: ProcessId,
        wasm_bin: Vec<u8>,
        title: Option<&str>,
        working_directory: &str,
    ) -> (r: Result<ProcessId, ProcessError>)
        requires
            old(self).wf(),
        ensures
            final(self).wf(),
            (final(self)@, r) == old(self)@.spawn_with(
                id,
                wasm_bin@,
                match title {
                    Some(title) => Some(title@),
                    None => None,
                },
                working_directory@,
            ),
    {
        if self.processes.get(id).is_some() {
            return Err(ProcessError::IdInUse(id));
        }
        let process = match title {
            Some(title) => Process::new(id, wasm_bin, title, working_directory),
            None => {
                let title = id_text(id);
                Process::new(id, wasm_bin, title.as_str(), working_directory)
            },
        };
        match process {
            Ok(process) => {
                let ghost view = process@;
                self.processes.insert(id, process);
                self.spawn_requests.push(id);
                assert(self@.processes =~= old(self)@.processes.insert(id, view));
                Ok(id)
            },
            Err(e) => Err(e),
        }
    }

    /// Spawns a process for the module `wasm_bin` under an identifier drawn
    /// at random, and returns the identifier.
    pub fn spawn(
        &mut self,
        wasm_bin: Vec<u8>,
        title: Option<&str>,
        working_directory: &str,
    ) -> (r: Result<ProcessId, ProcessError>)
        requires
            old(self).wf(),
        ensures
            final(self).wf(),
            match r {
                Ok(id) => (final(self)@, r) == old(self)@.spawn_with(
                    id,
                    wasm_bin@,
                    match title {
                        Some(title) => Some(title@),
                        None => None,
                    },
                    working_directory@,
                ),
                Err(ProcessError::IdInUse(id)) => old(self)@.processes.contains_key(id) && final(self)@
                    == old(self)@,
                Err(e) => ProcessView::refusal(wasm_bin@) == Some(e) && final(self)@ == old(self)@,
            },
    {
        let id = random_id();
        self.spawn_with_id(id, wasm_bin, title, working_directory)
    }

    /// Queues a thread of process `pid` for its start at the function
    /// `fptr`.
    pub fn spawn_thread(&mut self, pid: ProcessId, fptr: u32)
        ensures
            final(self)@ == old(self)@.spawn_thread(pid, fptr),
            old(self).wf() ==> final(self).wf(),
    {
        self.thread_requests.push(ThreadRequest { pid, fptr });
    }

    /// Drops the dead processes from the table, empties both queues and
    /// returns the orders for the driver.
    pub fn update(&mut self) -> (r: Vec<Action>)
        requires
            old(self).wf(),
        ensures
            final(self).wf(),
            (final(self)@, r@) == old(self)@.update(),
    {
        let ids = self.processes.keys();
        let mut i: usize = 0;
        while i < ids.len()
            invariant
                i <= ids@.len(),
                ids@.no_duplicates(),
                ids@.to_set() == entries(old(self).processes).dom(),
                self.spawn_requests == old(self).spawn_requests,
                self.thread_requests == old(self).thread_requests,
                entries(self.processes) =~= Map::new(
                    |id: ProcessId|
                        entries(old(self).processes).contains_key(id) && (entries(
                            old(self).processes,
                        )[id]@.alive() || !ids@.take(i as int).contains(id)),
                    |id: ProcessId| entries(old(self).processes)[id],
                ),
            decreases ids@.len() - i,
        {
            let id = ids[i];
            assert(ids@.to_set().contains(id));
            let dead = match self.processes.get(id) {
                Some(process) => !process.is_alive(),
                None => false,
            };
            if dead {
                self.processes.remove(id);
            }
            proof {
                let before = ids@.take(i as int);
                let now = ids@.take(i + 1);
                assert(now =~= before.push(id));
                assert forall|k: ProcessId| now.contains(k) <==> (before.contains(k) || k == id) by {
                    if before.contains(k) {
                        let j = choose|j: int| 0 <= j < before.len() && before[j] == k;
                        assert(now[j] == k);
                    }
                    if k == id {
                        assert(now[i as int] == k);
                    }
                }
            }
            i += 1;
        }
        proof {
            assert(ids@.take(ids@.len() as int) =~= ids@);
            assert forall|k: ProcessId| entries(old(self).processes).contains_key(k) implies ids@.contains(
                k,
            ) by {
                assert(ids@.to_set().contains(k));
            }
            assert(self@.processes =~= old(self)@.reaped());
        }
        let mut orders: Vec<Action> = Vec::new();
        let mut j: usize = 0;
        while j < self.spawn_requests.len()
            invariant
                j <= self.spawn_requests@.len(),
                self.spawn_requests == old(self).spawn_requests,
                self.thread_requests == old(self).thread_requests,
                self@.processes == old(self)@.reaped(),
                orders@ == released_spawns(self.spawn_requests@, self@.processes, j as int),
            decreases self.spawn_requests@.len() - j,
        {
            let id = self.spawn_requests[j];
            if self.processes.get(id).is_some() {
                orders.push(Action::StartProcess { pid: id });
            }
            j += 1;
        }
        let ghost spawns = orders@;
        let mut k: usize = 0;
        while k < self.thread_requests.len()
            invariant
                k <= self.thread_requests@.len(),
                self.spawn_requests == old(self).spawn_requests,
                self.thread_requests == old(self).thread_requests,
                self@.processes == old(self)@.reaped(),
                orders@ == spawns + released_threads(self.thread_requests@, self@.processes, k as int),
            decreases self.thread_requests@.len() - k,
        {
            let request = self.thread_requests[k];
            if self.processes.get(request.pid).is_some() {
                orders.push(Action::StartThread { pid: request.pid, fptr: request.fptr });
            }
            k += 1;
            assert(orders@ =~= spawns + released_threads(
                self.thread_requests@,
                self@.processes,
                k as int,
            ));
        }
        self.spawn_requests.clear();
        self.thread_requests.clear();
        orders
    }

    /// The ids of all processes, in an order that nothing is said about.
    pub fn processes(&self) -> (r: Vec<ProcessId>)
        ensures
            r@.no_duplicates(),
            r@.to_set() == self@.processes.dom(),
    {
        let ids = self.processes.keys();
        assert(ids@.to_set() =~= self@.processes.dom());
        ids
    }

    /// The process under `id`, if there is one.
    pub fn process(&self, id: ProcessId) -> (r: Option<&Process>)
        ensures
            match r {
                Some(process) => self@.processes.contains_key(id) && process@ == self@.processes[id],
                None => !self@.processes.contains_key(id),
            },
    {
        self.processes.get(id)
    }

    /// The process under `id`, if there is one, to change it. The table
    /// holds afterwards what the process was left as.
    pub fn process_mut(&mut self, id: ProcessId) -> (r: Option<&mut Process>)
        ensures
            match r {
                Some(process) => {
                    &&& old(self)@.processes.contains_key(id)
                    &&& process@ == old(self)@.processes[id]
                    &&& final(self)@ == (ManagerView {
                        processes: old(self)@.processes.insert(id, final(process)@),
                        ..old(self)@
                    })
                },
                None => !old(self)@.processes.contains_key(id) && final(self)@ == old(self)@,
            },
    {
        proof {
            let table = entries(self.processes);
            assert forall|process: Process| #[trigger]
                process_views(table.insert(id, process)) == process_views(table).insert(
                    id,
                    process@,
                ) by {
                assert(process_views(table.insert(id, process)) =~= process_views(table).insert(
                    id,
                    process@,
                ));
            }
        }
        self.processes.get_mut(id)
    }

    /// The processes queued for their start, oldest first.
    pub fn requests(&self) -> (r: &Vec<ProcessId>)
        ensures
            r@ == self@.spawn_requests,
    {
        &self.spawn_requests
    }

    /// The processes queued for their start, to change the queue. The
    /// manager holds afterwards what the queue was left as.
    pub fn requests_mut(&mut self) -> (r: &mut Vec<ProcessId>)
        ensures
            r@ == old(self)@.spawn_requests,
            final(self)@ == (ManagerView { spawn_requests: final(r)@, ..old(self)@ }),
    {
        &mut self.spawn_requests
    }

    /// The threads queued for their start, oldest first.
    pub fn thread_requests(&self) -> (r: &Vec<ThreadRequest>)
        ensures
            r@ == self@.thread_requests,
    {
        &self.thread_requests
    }
}

} // verus!
