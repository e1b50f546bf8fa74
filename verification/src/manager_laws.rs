//! What holds of the process table and of the life of a process, whatever
//! the state and the input.

use crate::ident::ProcessId;
use crate::manager::{released_spawns, Action, ManagerView};
use crate::process::{ProcessError, ProcessState, ProcessView};
use crate::thread::{Launch, PoolView};
use vstd::prelude::*;

verus! {

/// What one spawn is given.
pub struct SpawnArgs {
    pub id: ProcessId,
    pub module: Seq<u8>,
    pub title: Option<Seq<char>>,
    pub cwd: Seq<char>,
}

/// The state after the first `k` of `spawns`, one after the other.
pub open spec fn spawn_all(m: ManagerView, spawns: Seq<SpawnArgs>, k: int) -> ManagerView
    decreases k,
{
    if k <= 0 {
        m
    } else {
        let a = spawns[k - 1];
        spawn_all(m, spawns, k - 1).spawn_with(a.id, a.module, a.title, a.cwd).0
    }
}

/// What spawn number `k` of `spawns` returns.
pub open spec fn spawn_result(m: ManagerView, spawns: Seq<SpawnArgs>, k: int) -> Result<
    ProcessId,
    ProcessError,
> {
    let a = spawns[k];
    spawn_all(m, spawns, k).spawn_with(a.id, a.module, a.title, a.cwd).1
}

/// A spawn keeps the manager well formed and the processes that were in
/// the table as they were.
pub proof fn lemma_spawn_keeps(
    m: ManagerView,
    id: ProcessId,
    module: Seq<u8>,
    title: Option<Seq<char>>,
    cwd: Seq<char>,
)
    requires
        m.wf(),
    ensures
        m.spawn_with(id, module, title, cwd).0.wf(),
        forall|other: ProcessId| #[trigger]
            m.processes.contains_key(other) ==> m.spawn_with(
                id,
                module,
                title,
                cwd,
            ).0.processes.contains_key(other) && m.spawn_with(
                id,
                module,
                title,
                cwd,
            ).0.processes[other] == m.processes[other],
        m.spawn_with(id, module, title, cwd).1 is Err ==> m.spawn_with(
            id,
            module,
            title,
            cwd,
        ).0 == m,
{
}

/// A process that is in the table stays there through any number of
/// spawns.
pub proof fn lemma_spawns_keep(m: ManagerView, spawns: Seq<SpawnArgs>, i: int, j: int, id: ProcessId)
    requires
        0 <= i <= j <= spawns.len(),
        spawn_all(m, spawns, i).processes.contains_key(id),
    ensures
        spawn_all(m, spawns, j).processes.contains_key(id),
    decreases j - i,
{
    if i < j {
        lemma_spawns_keep(m, spawns, i, j - 1, id);
    }
}

/// Identifiers are unique: of any number of spawns made one after the
/// other, no two that succeed return the same identifier.
pub proof fn lemma_spawned_ids_distinct(m: ManagerView, spawns: Seq<SpawnArgs>, i: int, j: int)
    requires
        0 <= i < j < spawns.len(),
        spawn_result(m, spawns, i) is Ok,
        spawn_result(m, spawns, j) is Ok,
    ensures
        spawn_result(m, spawns, i)->Ok_0 != spawn_result(m, spawns, j)->Ok_0,
{
    let first = spawn_result(m, spawns, i)->Ok_0;
    assert(spawn_all(m, spawns, i + 1).processes.contains_key(first));
    lemma_spawns_keep(m, spawns, i + 1, j, first);
}

/// The table after an update holds the processes that were alive, each as
/// it was, and no other.
pub proof fn lemma_update_keeps_the_living(m: ManagerView, id: ProcessId)
    requires
        m.wf(),
    ensures
        m.update().0.wf(),
        m.update().0.processes.contains_key(id) <==> m.processes.contains_key(id) && m.processes[id].alive(),
        m.update().0.processes.contains_key(id) ==> m.update().0.processes[id] == m.processes[id],
{
}

/// Among the orders of an update is the start of every queued process that
/// the table still holds.
pub proof fn lemma_released(requests: Seq<ProcessId>, table: Map<ProcessId, ProcessView>, k: int, i: int)
    requires
        0 <= i < k <= requests.len(),
        table.contains_key(requests[i]),
    ensures
        released_spawns(requests, table, k).contains(Action::StartProcess { pid: requests[i] }),
    decreases k,
{
    let order = Action::StartProcess { pid: requests[i] };
    if i < k - 1 {
        lemma_released(requests, table, k - 1, i);
        let before = released_spawns(requests, table, k - 1);
        let at = choose|at: int| 0 <= at < before.len() && before[at] == order;
        assert(released_spawns(requests, table, k)[at] == order);
    } else {
        let now = released_spawns(requests, table, k);
        assert(now[now.len() - 1] == order);
    }
}

/// The spawn has two phases. Right after a spawn that succeeds the process
/// is in the table and pending. The next update hands its start to the
/// driver and leaves it in the table, still pending: it runs only once the
/// driver has started its execution unit and committed.
pub proof fn lemma_two_phase_spawn(
    m: ManagerView,
    id: ProcessId,
    module: Seq<u8>,
    title: Option<Seq<char>>,
    cwd: Seq<char>,
)
    requires
        m.wf(),
        m.spawn_with(id, module, title, cwd).1 is Ok,
    ensures
        m.spawn_with(id, module, title, cwd).1 == Ok::<ProcessId, ProcessError>(id),
        m.spawn_with(id, module, title, cwd).0.processes.contains_key(id),
        m.spawn_with(id, module, title, cwd).0.processes[id].state == ProcessState::Pending,
        m.spawn_with(id, module, title, cwd).0.update().0.processes.contains_key(id),
        m.spawn_with(id, module, title, cwd).0.update().0.processes[id].state
            == ProcessState::Pending,
        m.spawn_with(id, module, title, cwd).0.update().1.contains(
            Action::StartProcess { pid: id },
        ),
{
    let after = m.spawn_with(id, module, title, cwd).0;
    assert(after.spawn_requests.last() == id);
    lemma_released(
        after.spawn_requests,
        after.reaped(),
        after.spawn_requests.len() as int,
        after.spawn_requests.len() - 1,
    );
    let spawns = released_spawns(after.spawn_requests, after.reaped(), after.spawn_requests.len() as int);
    let order = Action::StartProcess { pid: id };
    let at = choose|at: int| 0 <= at < spawns.len() && spawns[at] == order;
    assert(after.update().1[at] == order);
}

/// A process that was killed is not alive, and the next update takes it
/// from the table.
pub proof fn lemma_killed_is_reaped(m: ManagerView, id: ProcessId)
    requires
        m.processes.contains_key(id),
    ensures
        !m.processes[id].killed().alive(),
        !(ManagerView { processes: m.processes.insert(id, m.processes[id].killed()), ..m }).update().0.processes.contains_key(
            id,
        ),
{
}

/// Killing a process kills every thread of it: none is alive afterwards,
/// and each is still the thread it was.
pub proof fn lemma_kill_ends_all_threads(p: ProcessView, thread: int)
    requires
        0 <= thread < p.pool.threads.len(),
    ensures
        p.killed().state == ProcessState::Dead,
        p.killed().pool.threads.len() == p.pool.threads.len(),
        !p.killed().pool.threads[thread].alive,
        p.killed().pool.threads[thread].entry == p.pool.threads[thread].entry,
{
}

/// Dead is final: whatever happens to a dead process, it stays dead.
pub proof fn lemma_dead_stays_dead(p: ProcessView, launch: Launch, entry: u32, thread: u32)
    requires
        p.state == ProcessState::Dead,
    ensures
        p.spawn(launch).0.state == ProcessState::Dead,
        p.exited().state == ProcessState::Dead,
        p.killed().state == ProcessState::Dead,
        (ProcessView { pool: p.pool.spawn(entry, launch).0, ..p }).state == ProcessState::Dead,
        (ProcessView { pool: p.pool.exited(thread), ..p }).state == ProcessState::Dead,
{
}

/// A thread that is not alive stays so, and ids are never given out twice:
/// whatever happens to a pool, the threads it had keep their ids and their
/// entries, and none of them comes back to life.
pub proof fn lemma_threads_never_return(pool: PoolView, launch: Launch, entry: u32, thread: u32, i: int)
    requires
        0 <= i < pool.threads.len(),
    ensures
        pool.spawn(entry, launch).0.threads.len() >= pool.threads.len(),
        pool.spawn(entry, launch).0.threads[i] == pool.threads[i],
        pool.spawn(entry, launch).1 is Ok ==> pool.spawn(entry, launch).1->Ok_0 == pool.threads.len(),
        pool.exited(thread).threads.len() == pool.threads.len(),
        pool.exited(thread).threads[i].alive ==> pool.threads[i].alive,
        pool.exited(thread).threads[i].entry == pool.threads[i].entry,
        pool.kill(thread).0.threads.len() == pool.threads.len(),
        pool.kill(thread).0.threads[i].alive ==> pool.threads[i].alive,
        pool.killed().threads.len() == pool.threads.len(),
        !pool.killed().threads[i].alive,
{
}

} // verus!
