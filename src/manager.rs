use vstd::prelude::*;

use crate::event::{is_event, EventType, ProcessEvent};
use crate::platform::is_running_by_pid;
use crate::status::{
    lemma_process_index_found,
    dep_ok, deps_healthy, find_process_index, process_index, same_name, copy_names, service_index,
    started, with_health, same_queues, PendingService, ProcessRuntimeInfo, Supervisor, SupervisorError,
};

verus! {

/// What a start request leaves for the caller to do.
#[derive(Clone, Copy, Debug, PartialEq, Eq, Structural)]
pub enum StartAction {
    /// The recorded process is alive; Running was emitted again.
    AlreadyRunning,
    /// A worker must spawn the service's child and wait for it.
    Spawn,
}

/// What a stop request leaves for the caller to do.
#[derive(Clone, Copy, Debug, PartialEq, Eq, Structural)]
pub enum StopAction {
    /// There is no live process to stop.
    NotRunning,
    /// Terminate this process, wait for it, then kill it if it is still alive.
    Terminate { pid: u32 },
}

/// Work the event handler hands to the caller.
#[derive(Debug)]
pub enum Command {
    /// Spawn a worker that starts the service's child.
    Spawn { name: String },
    /// Spawn a health watcher for the service.
    StartWatcher { name: String },
}

// ---------------------------------------------------------------- model

/// The registry after a stop request: the service is marked as stopped by
/// the supervisor, whether or not a PID is recorded.
pub open spec fn stop_mark(procs: Seq<ProcessRuntimeInfo>, name: Seq<char>) -> Seq<ProcessRuntimeInfo> {
    match process_index(procs, name, 0) {
        Some(i) => procs.update(i, ProcessRuntimeInfo { stopped_by_supervisor: true, ..procs[i] }),
        None => procs,
    }
}

/// The registry after a restart request: the stop mark only when the recorded
/// process is alive.
pub open spec fn restart_mark(procs: Seq<ProcessRuntimeInfo>, name: Seq<char>, alive: bool) -> Seq<
    ProcessRuntimeInfo,
> {
    match process_index(procs, name, 0) {
        Some(i) => if procs[i].pid is Some && alive {
            stop_mark(procs, name)
        } else {
            procs
        },
        None => procs,
    }
}

pub open spec fn pending_view(p: Seq<PendingService>) -> Seq<(Seq<char>, Seq<String>)> {
    p.map_values(|x: PendingService| (x.name@, x.depends@))
}

/// Entries that a start of `names` adds to the pending queue: each
/// registered service whose dependencies are not all healthy, with its
/// dependency list.
pub open spec fn newly_pending(procs: Seq<ProcessRuntimeInfo>, names: Seq<String>) -> Seq<
    (Seq<char>, Seq<String>),
>
    decreases names.len(),
{
    if names.len() == 0 {
        Seq::empty()
    } else {
        let rest = newly_pending(procs, names.drop_last());
        let n = names.last()@;
        match process_index(procs, n, 0) {
            Some(i) => if dep_ok(procs, n) {
                rest
            } else {
                rest.push((n, procs[i].depends_on@))
            },
            None => rest,
        }
    }
}

/// Pending entries whose dependency snapshot is not yet all healthy.
pub open spec fn still_pending(procs: Seq<ProcessRuntimeInfo>, p: Seq<PendingService>) -> Seq<
    (Seq<char>, Seq<String>),
>
    decreases p.len(),
{
    if p.len() == 0 {
        Seq::empty()
    } else {
        let rest = still_pending(procs, p.drop_last());
        if deps_healthy(procs, p.last().depends@) {
            rest
        } else {
            rest.push((p.last().name@, p.last().depends@))
        }
    }
}

/// `p` without the entries named `name`, order kept.
pub open spec fn drop_named(p: Seq<(Seq<char>, Seq<String>)>, name: Seq<char>) -> Seq<
    (Seq<char>, Seq<String>),
>
    decreases p.len(),
{
    if p.len() == 0 {
        Seq::empty()
    } else if p.last().0 == name {
        drop_named(p.drop_last(), name)
    } else {
        drop_named(p.drop_last(), name).push(p.last())
    }
}

pub open spec fn watched(w: Seq<String>, name: Seq<char>) -> bool {
    exists|k: int| 0 <= k < w.len() && (#[trigger] w[k])@ == name
}

/// The configuration of service `name` enables health checks.
pub open spec fn has_healthcheck(s: Supervisor, name: Seq<char>) -> bool {
    match service_index(s.config.services@, name, 0) {
        Some(i) => s.config.services@[i].healthcheck is Some,
        None => false,
    }
}

// ---------------------------------------------------------------- laws

/// Stopping twice leaves the registry as stopping once.
pub proof fn lemma_stop_idempotent(procs: Seq<ProcessRuntimeInfo>, name: Seq<char>)
    ensures
        stop_mark(stop_mark(procs, name), name) == stop_mark(procs, name),
{
    let once = stop_mark(procs, name);
    lemma_process_index_found(procs, name, 0);
    if let Some(i) = process_index(procs, name, 0) {
        lemma_process_index_update(procs, name, 0, i, ProcessRuntimeInfo { stopped_by_supervisor: true, ..procs[i] });
        assert(once.update(i, ProcessRuntimeInfo { stopped_by_supervisor: true, ..once[i] }) =~= once);
    }
}

/// Restart is stop then start: once the start that follows either of them
/// has recorded the new process, the service's record is the same.
pub proof fn lemma_restart_is_stop_then_start(
    procs: Seq<ProcessRuntimeInfo>,
    name: Seq<char>,
    alive: bool,
    pid: u32,
    is_child: bool,
    now: u64,
)
    requires
        process_index(procs, name, 0) is Some,
    ensures
        ({
            let i = process_index(procs, name, 0)->0;
            &&& process_index(stop_mark(procs, name), name, 0) == Some(i)
            &&& process_index(restart_mark(procs, name, alive), name, 0) == Some(i)
            &&& stop_mark(procs, name).update(i, started(stop_mark(procs, name)[i], pid, is_child, now))
                == restart_mark(procs, name, alive).update(
                i,
                started(restart_mark(procs, name, alive)[i], pid, is_child, now),
            )
        }),
{
    let i = process_index(procs, name, 0)->0;
    lemma_process_index_found(procs, name, 0);
    lemma_process_index_update(procs, name, 0, i, ProcessRuntimeInfo { stopped_by_supervisor: true, ..procs[i] });
    let a = stop_mark(procs, name);
    let b = restart_mark(procs, name, alive);
    assert(a.update(i, started(a[i], pid, is_child, now)) =~= b.update(i, started(b[i], pid, is_child, now)));
}

/// Replacing the found record by one of the same name keeps the lookup.
proof fn lemma_process_index_update(
    procs: Seq<ProcessRuntimeInfo>,
    name: Seq<char>,
    from: int,
    i: int,
    r: ProcessRuntimeInfo,
)
    requires
        0 <= from,
        process_index(procs, name, from) == Some(i),
        r.name == procs[i].name,
    ensures
        process_index(procs.update(i, r), name, from) == Some(i),
    decreases procs.len() - from,
{
    lemma_process_index_found(procs, name, from);
    if from < i {
        lemma_process_index_update(procs, name, from + 1, i, r);
    }
}

/// The PID recorded for service `name`.
pub open spec fn pid_of(procs: Seq<ProcessRuntimeInfo>, name: Seq<char>) -> Option<u32> {
    match process_index(procs, name, 0) {
        Some(i) => procs[i].pid,
        None => None,
    }
}

/// The first `k` names are registered.
pub open spec fn known_prefix(procs: Seq<ProcessRuntimeInfo>, names: Seq<String>, k: int) -> bool {
    forall|j: int| 0 <= j < k ==> process_index(procs, (#[trigger] names[j])@, 0) is Some
}

/// The registry after stop requests for the first `k` names.
pub open spec fn marked(procs: Seq<ProcessRuntimeInfo>, names: Seq<String>, k: nat) -> Seq<
    ProcessRuntimeInfo,
>
    decreases k,
{
    if k == 0 {
        procs
    } else {
        stop_mark(marked(procs, names, (k - 1) as nat), names[k - 1]@)
    }
}

/// The liveness answer for position `k` (false past the end).
pub open spec fn answer_at(alive: Seq<bool>, k: int) -> bool {
    0 <= k < alive.len() && alive[k]
}

/// The processes to terminate for the first `k` names, in their order: the
/// recorded PIDs that were found alive.
pub open spec fn stopped_pids(
    procs: Seq<ProcessRuntimeInfo>,
    names: Seq<String>,
    alive: Seq<bool>,
    k: nat,
) -> Seq<u32>
    decreases k,
{
    if k == 0 {
        Seq::empty()
    } else {
        let rest = stopped_pids(procs, names, alive, (k - 1) as nat);
        match pid_of(procs, names[k - 1]@) {
            Some(p) => if answer_at(alive, k - 1) {
                rest.push(p)
            } else {
                rest
            },
            None => rest,
        }
    }
}

/// Outcome of stop requests for `names`: every name up to the first
/// unregistered one is marked stopped, and its live recorded PID is returned,
/// in order; an unregistered name ends the run with its error.
pub open spec fn stops_done(
    procs: Seq<ProcessRuntimeInfo>,
    names: Seq<String>,
    alive: Seq<bool>,
    after: Seq<ProcessRuntimeInfo>,
    pids: Seq<u32>,
    result: Result<(), SupervisorError>,
) -> bool {
    match result {
        Ok(()) => {
            &&& known_prefix(procs, names, names.len() as int)
            &&& after == marked(procs, names, names.len())
            &&& pids == stopped_pids(procs, names, alive, names.len())
        },
        Err(SupervisorError::UnknownService { name }) => exists|k: int|
            0 <= k < names.len() && known_prefix(procs, names, k) && process_index(
                procs,
                (#[trigger] names[k])@,
                0,
            ) is None && name@ == names[k]@ && after == marked(procs, names, k as nat) && pids
                == stopped_pids(procs, names, alive, k as nat),
    }
}

/// A scan of `pending` spawned the services `spawned` and appended the
/// Running events from `before` to `after`, for the liveness answers `alive`.
pub open spec fn pending_scan_outcome(
    procs: Seq<ProcessRuntimeInfo>,
    pending: Seq<PendingService>,
    alive: Seq<bool>,
    spawned: Seq<Seq<char>>,
    before: Seq<ProcessEvent>,
    after: Seq<ProcessEvent>,
) -> bool {
    &&& spawned == pending_spawn_names(procs, pending, alive, pending.len())
    &&& event_views(after) == event_views(before) + pending_running_events(
        procs,
        pending,
        alive,
        pending.len(),
    )
}

/// The service a command is for.
pub open spec fn command_name(c: Command) -> Seq<char> {
    match c {
        Command::Spawn { name } => name@,
        Command::StartWatcher { name } => name@,
    }
}

pub open spec fn command_names(cs: Seq<Command>) -> Seq<Seq<char>> {
    cs.map_values(|c: Command| command_name(c))
}

/// What an event says: service, kind, PID and data.
pub open spec fn event_view(e: ProcessEvent) -> (Seq<char>, EventType, Option<u32>, Option<String>) {
    (e.service_name@, e.event_type, e.pid, e.data)
}

pub open spec fn event_views(es: Seq<ProcessEvent>) -> Seq<(Seq<char>, EventType, Option<u32>, Option<String>)> {
    es.map_values(|e: ProcessEvent| event_view(e))
}

/// Starting registered service `name` spawns a child: no live process is on
/// record (`alive` is the liveness answer for its recorded PID).
pub open spec fn launch_spawns(procs: Seq<ProcessRuntimeInfo>, name: Seq<char>, alive: bool) -> bool {
    process_index(procs, name, 0) is Some && !(pid_of(procs, name) is Some && alive)
}

/// Starting registered service `name` finds its recorded process alive.
pub open spec fn launch_reruns(procs: Seq<ProcessRuntimeInfo>, name: Seq<char>, alive: bool) -> bool {
    process_index(procs, name, 0) is Some && pid_of(procs, name) is Some && alive
}

/// Names a start of the first `k` of `names` spawns, in order.
pub open spec fn start_spawn_names(
    procs: Seq<ProcessRuntimeInfo>,
    names: Seq<String>,
    alive: Seq<bool>,
    k: nat,
) -> Seq<Seq<char>>
    decreases k,
{
    if k == 0 {
        Seq::empty()
    } else {
        let rest = start_spawn_names(procs, names, alive, (k - 1) as nat);
        let n = names[k - 1]@;
        if dep_ok(procs, n) && launch_spawns(procs, n, answer_at(alive, k - 1)) {
            rest.push(n)
        } else {
            rest
        }
    }
}

/// Running events a start of the first `k` of `names` emits, in order.
pub open spec fn start_running_events(
    procs: Seq<ProcessRuntimeInfo>,
    names: Seq<String>,
    alive: Seq<bool>,
    k: nat,
) -> Seq<(Seq<char>, EventType, Option<u32>, Option<String>)>
    decreases k,
{
    if k == 0 {
        Seq::empty()
    } else {
        let rest = start_running_events(procs, names, alive, (k - 1) as nat);
        let n = names[k - 1]@;
        if dep_ok(procs, n) && launch_reruns(procs, n, answer_at(alive, k - 1)) {
            rest.push((n, EventType::Running, pid_of(procs, n), None))
        } else {
            rest
        }
    }
}

/// Names a scan of the first `k` pending entries spawns, in queue order.
pub open spec fn pending_spawn_names(
    procs: Seq<ProcessRuntimeInfo>,
    p: Seq<PendingService>,
    alive: Seq<bool>,
    k: nat,
) -> Seq<Seq<char>>
    decreases k,
{
    if k == 0 {
        Seq::empty()
    } else {
        let rest = pending_spawn_names(procs, p, alive, (k - 1) as nat);
        let e = p[k - 1];
        if deps_healthy(procs, e.depends@) && launch_spawns(procs, e.name@, answer_at(alive, k - 1)) {
            rest.push(e.name@)
        } else {
            rest
        }
    }
}

/// Running events a scan of the first `k` pending entries emits.
pub open spec fn pending_running_events(
    procs: Seq<ProcessRuntimeInfo>,
    p: Seq<PendingService>,
    alive: Seq<bool>,
    k: nat,
) -> Seq<(Seq<char>, EventType, Option<u32>, Option<String>)>
    decreases k,
{
    if k == 0 {
        Seq::empty()
    } else {
        let rest = pending_running_events(procs, p, alive, (k - 1) as nat);
        let e = p[k - 1];
        if deps_healthy(procs, e.depends@) && launch_reruns(procs, e.name@, answer_at(alive, k - 1)) {
            rest.push((e.name@, EventType::Running, pid_of(procs, e.name@), None))
        } else {
            rest
        }
    }
}

/// One more answer leaves the results for the first `j` names alone.
proof fn lemma_answers_prefix_at(procs: Seq<ProcessRuntimeInfo>, names: Seq<String>, alive: Seq<bool>, a: bool, k: nat, j: nat)
    requires
        alive.len() == k,
        j <= k,
    ensures
        start_spawn_names(procs, names, alive.push(a), j) == start_spawn_names(procs, names, alive, j),
        start_running_events(procs, names, alive.push(a), j) == start_running_events(procs, names, alive, j),
    decreases j,
{
    if j > 0 {
        lemma_answers_prefix_at(procs, names, alive, a, k, (j - 1) as nat);
        assert(answer_at(alive.push(a), j - 1) == answer_at(alive, j - 1));
    }
}

/// One more answer leaves the results for the first `j` entries alone.
proof fn lemma_pending_answers_prefix_at(procs: Seq<ProcessRuntimeInfo>, p: Seq<PendingService>, alive: Seq<bool>, a: bool, k: nat, j: nat)
    requires
        alive.len() == k,
        j <= k,
    ensures
        pending_spawn_names(procs, p, alive.push(a), j) == pending_spawn_names(procs, p, alive, j),
        pending_running_events(procs, p, alive.push(a), j) == pending_running_events(procs, p, alive, j),
    decreases j,
{
    if j > 0 {
        lemma_pending_answers_prefix_at(procs, p, alive, a, k, (j - 1) as nat);
        assert(answer_at(alive.push(a), j - 1) == answer_at(alive, j - 1));
    }
}

/// Stop marks keep every record's name and PID.
proof fn lemma_marked_keeps_records(procs: Seq<ProcessRuntimeInfo>, names: Seq<String>, k: nat)
    ensures
        marked(procs, names, k).len() == procs.len(),
        forall|j: int| 0 <= j < procs.len() ==> (#[trigger] marked(procs, names, k)[j]).name == procs[j].name,
        forall|j: int| 0 <= j < procs.len() ==> (#[trigger] marked(procs, names, k)[j]).pid == procs[j].pid,
    decreases k,
{
    if k > 0 {
        let prev = marked(procs, names, (k - 1) as nat);
        lemma_marked_keeps_records(procs, names, (k - 1) as nat);
        lemma_stop_mark_names(prev, names[k - 1]@);
        assert forall|j: int| 0 <= j < procs.len() implies (#[trigger] marked(procs, names, k)[j]).name
            == procs[j].name && marked(procs, names, k)[j].pid == procs[j].pid by {
            assert(marked(procs, names, k)[j] == stop_mark(prev, names[k - 1]@)[j]);
            assert(prev[j].name == procs[j].name);
        }
    }
}

/// A stop request changes no record's name or PID.
proof fn lemma_stop_mark_names(procs: Seq<ProcessRuntimeInfo>, name: Seq<char>)
    ensures
        stop_mark(procs, name).len() == procs.len(),
        forall|j: int| 0 <= j < procs.len() ==> (#[trigger] stop_mark(procs, name)[j]).name == procs[j].name,
        forall|j: int| 0 <= j < procs.len() ==> (#[trigger] stop_mark(procs, name)[j]).pid == procs[j].pid,
{
    lemma_process_index_found(procs, name, 0);
}

/// Registries whose records carry the same names answer lookups alike.
proof fn lemma_same_names_same_index(
    a: Seq<ProcessRuntimeInfo>,
    b: Seq<ProcessRuntimeInfo>,
    name: Seq<char>,
    from: int,
)
    requires
        0 <= from,
        a.len() == b.len(),
        forall|j: int| 0 <= j < a.len() ==> (#[trigger] a[j]).name == b[j].name,
    ensures
        process_index(a, name, from) == process_index(b, name, from),
    decreases a.len() - from,
{
    if from < a.len() {
        assert(a[from].name == b[from].name);
        lemma_same_names_same_index(a, b, name, from + 1);
    }
}

impl Supervisor {
    /// Start decision for service `name`, given whether its recorded PID is
    /// alive: with a live recorded process, Running is emitted again and no
    /// child is spawned; otherwise a spawn is requested.
    pub fn start_service_given(&mut self, name: &str, alive: bool) -> (r: Result<
        StartAction,
        SupervisorError,
    >)
        ensures
            match process_index(old(self).processes@, name@, 0) {
                None => r is Err && *final(self) == *old(self),
                Some(i) => if old(self).processes@[i].pid is Some && alive {
                    &&& r == Ok::<StartAction, SupervisorError>(StartAction::AlreadyRunning)
                    &&& final(self).processes == old(self).processes
                    &&& same_queues(*old(self), *final(self))
                    &&& final(self).events@.len() == old(self).events@.len() + 1
                    &&& final(self).events@.drop_last() == old(self).events@
                    &&& is_event(
                        final(self).events@.last(),
                        name@,
                        EventType::Running,
                        old(self).processes@[i].pid,
                    )
                    &&& final(self).events@.last().data is None
                } else {
                    r == Ok::<StartAction, SupervisorError>(StartAction::Spawn) && *final(self)
                        == *old(self)
                },
            },
    {
        match find_process_index(&self.processes, name) {
            None => Err(SupervisorError::UnknownService { name: String::from_str(name) }),
            Some(i) => {
                let pid = self.processes[i].pid;
                if pid.is_some() && alive {
                    self.send_process_event(name, EventType::Running, None, pid);
                    Ok(StartAction::AlreadyRunning)
                } else {
                    Ok(StartAction::Spawn)
                }
            },
        }
    }

    /// Start request for service `name`: asks the operating system whether
    /// the recorded PID is alive and decides as `start_service_given`.
    pub fn start_service(&mut self, name: &str) -> (r: Result<StartAction, SupervisorError>)
        ensures
            r is Err <==> process_index(old(self).processes@, name@, 0) is None,
            r is Err ==> *final(self) == *old(self),
            r == Ok::<StartAction, SupervisorError>(StartAction::Spawn) ==> *final(self)
                == *old(self),
            r == Ok::<StartAction, SupervisorError>(StartAction::AlreadyRunning) ==> {
                let i = process_index(old(self).processes@, name@, 0)->0;
                &&& old(self).processes@[i].pid is Some
                &&& final(self).processes == old(self).processes
                &&& same_queues(*old(self), *final(self))
                &&& final(self).events@.len() == old(self).events@.len() + 1
                &&& final(self).events@.drop_last() == old(self).events@
                &&& is_event(
                    final(self).events@.last(),
                    name@,
                    EventType::Running,
                    old(self).processes@[i].pid,
                )
                &&& final(self).events@.last().data is None
            },
            (process_index(old(self).processes@, name@, 0) matches Some(i)
                && old(self).processes@[i].pid is None) ==> r == Ok::<
                StartAction,
                SupervisorError,
            >(StartAction::Spawn),
    {
        let alive = match find_process_index(&self.processes, name) {
            Some(i) => match self.processes[i].pid {
                Some(p) => is_running_by_pid(p),
                None => false,
            },
            None => false,
        };
        self.start_service_given(name, alive)
    }

    /// Stop decision for service `name`, given whether its recorded PID is
    /// alive. A recorded PID marks the service as stopped by the supervisor;
    /// a live one is to be terminated.
    pub fn stop_service_given(&mut self, name: &str, alive: bool) -> (r: Result<
        StopAction,
        SupervisorError,
    >)
        ensures
            r matches Err(SupervisorError::UnknownService { name: n }) ==> n@ == name@,
            match process_index(old(self).processes@, name@, 0) {
                None => r is Err && *final(self) == *old(self),
                Some(i) => {
                    &&& final(self).processes@ == stop_mark(old(self).processes@, name@)
                    &&& same_queues(*old(self), *final(self))
                    &&& final(self).events == old(self).events
                    &&& r == Ok::<StopAction, SupervisorError>(
                        match old(self).processes@[i].pid {
                            Some(p) => if alive {
                                StopAction::Terminate { pid: p }
                            } else {
                                StopAction::NotRunning
                            },
                            None => StopAction::NotRunning,
                        },
                    )
                },
            },
    {
        match find_process_index(&self.processes, name) {
            None => Err(SupervisorError::UnknownService { name: String::from_str(name) }),
            Some(i) => {
                self.processes[i].stopped_by_supervisor = true;
                assert(self.processes@ =~= stop_mark(old(self).processes@, name@));
                match self.processes[i].pid {
                    Some(p) => if alive {
                        Ok(StopAction::Terminate { pid: p })
                    } else {
                        Ok(StopAction::NotRunning)
                    },
                    None => Ok(StopAction::NotRunning),
                }
            },
        }
    }

    /// Stop request for service `name`: asks the operating system whether
    /// the recorded PID is alive and decides as `stop_service_given`. The
    /// caller then terminates the returned process, polls it every 200 ms for
    /// up to 2 s, and kills it if it is still alive.
    pub fn stop_service(&mut self, name: &str) -> (r: Result<StopAction, SupervisorError>)
        ensures
            r is Err <==> process_index(old(self).processes@, name@, 0) is None,
            r matches Err(SupervisorError::UnknownService { name: n }) ==> n@ == name@,
            r is Err ==> *final(self) == *old(self),
            final(self).processes@ == stop_mark(old(self).processes@, name@),
            same_queues(*old(self), *final(self)),
            final(self).events == old(self).events,
            r matches Ok(StopAction::Terminate { pid }) ==> old(self).processes@[process_index(
                old(self).processes@,
                name@,
                0,
            )->0].pid == Some(pid),
            (process_index(old(self).processes@, name@, 0) matches Some(i)
                && old(self).processes@[i].pid is None) ==> r == Ok::<
                StopAction,
                SupervisorError,
            >(StopAction::NotRunning),
    {
        let alive = match find_process_index(&self.processes, name) {
            Some(i) => match self.processes[i].pid {
                Some(p) => is_running_by_pid(p),
                None => false,
            },
            None => false,
        };
        self.stop_service_given(name, alive)
    }

    /// Stop requests for `names`, in order, with `alive[k]` the liveness of
    /// the PID recorded for `names[k]` (false where `alive` is shorter). It
    /// stops at the first unregistered name and returns its error. Returns,
    /// in the order of the names, the processes the caller must terminate.
    pub fn stop_services_given(&mut self, names: &Vec<String>, alive: &Vec<bool>) -> (r: (
        Vec<u32>,
        Result<(), SupervisorError>,
    ))
        ensures
            same_queues(*old(self), *final(self)),
            final(self).events == old(self).events,
            stops_done(old(self).processes@, names@, alive@, final(self).processes@, r.0@, r.1),
    {
        let mut pids: Vec<u32> = Vec::new();
        let mut k: usize = 0;
        while k < names.len()
            invariant
                k <= names.len(),
                same_queues(*old(self), *self),
                self.events == old(self).events,
                known_prefix(old(self).processes@, names@, k as int),
                self.processes@ == marked(old(self).processes@, names@, k as nat),
                pids@ == stopped_pids(old(self).processes@, names@, alive@, k as nat),
            decreases names.len() - k,
        {
            let ghost before = self.processes@;
            proof {
                lemma_marked_keeps_records(old(self).processes@, names@, k as nat);
                lemma_same_names_same_index(before, old(self).processes@, names@[k as int]@, 0);
                lemma_process_index_found(old(self).processes@, names@[k as int]@, 0);
                assert(names@[k as int]@ == names[k as int]@);
            }
            let answer = k < alive.len() && alive[k];
            match self.stop_service_given(names[k].as_str(), answer) {
                Err(e) => {
                    proof {
                        assert(stops_done(old(self).processes@, names@, alive@, self.processes@, pids@, Err(e))) by {
                            assert(self.processes@ == marked(old(self).processes@, names@, k as nat));
                        }
                    }
                    return (pids, Err(e));
                },
                Ok(StopAction::Terminate { pid }) => {
                    pids.push(pid);
                },
                Ok(StopAction::NotRunning) => {},
            }
            proof {
                assert(marked(old(self).processes@, names@, (k + 1) as nat) == stop_mark(
                    marked(old(self).processes@, names@, k as nat),
                    names@[k as int]@,
                ));
                assert(known_prefix(old(self).processes@, names@, k + 1)) by {
                    assert forall|j: int| 0 <= j < k + 1 implies process_index(
                        old(self).processes@,
                        (#[trigger] names@[j])@,
                        0,
                    ) is Some by {}
                }
            }
            k = k + 1;
        }
        (pids, Ok(()))
    }

    /// Stop requests for `names`, in order, as `stop_services_given` with
    /// the operating system's answer for each recorded PID.
    pub fn stop_services(&mut self, names: &Vec<String>) -> (r: (
        Vec<u32>,
        Result<(), SupervisorError>,
    ))
        ensures
            same_queues(*old(self), *final(self)),
            final(self).events == old(self).events,
            exists|alive: Seq<bool>|
                stops_done(old(self).processes@, names@, alive, final(self).processes@, r.0@, r.1),
    {
        let mut alive: Vec<bool> = Vec::new();
        let mut k: usize = 0;
        while k < names.len()
            invariant
                k <= names.len(),
            decreases names.len() - k,
        {
            let a = match find_process_index(&self.processes, names[k].as_str()) {
                Some(i) => match self.processes[i].pid {
                    Some(p) => is_running_by_pid(p),
                    None => false,
                },
                None => false,
            };
            alive.push(a);
            k = k + 1;
        }
        self.stop_services_given(names, &alive)
    }

    /// Restart decision for service `name`, given whether its recorded PID is
    /// alive: a running service is stopped as by `stop_service_given`; the
    /// caller completes the termination and then calls `start_service`.
    pub fn restart_service_given(&mut self, name: &str, alive: bool) -> (r: Result<
        StopAction,
        SupervisorError,
    >)
        ensures
            match process_index(old(self).processes@, name@, 0) {
                None => r is Err && *final(self) == *old(self),
                Some(i) => {
                    &&& final(self).processes@ == restart_mark(old(self).processes@, name@, alive)
                    &&& same_queues(*old(self), *final(self))
                    &&& final(self).events == old(self).events
                    &&& r == Ok::<StopAction, SupervisorError>(
                        match old(self).processes@[i].pid {
                            Some(p) => if alive {
                                StopAction::Terminate { pid: p }
                            } else {
                                StopAction::NotRunning
                            },
                            None => StopAction::NotRunning,
                        },
                    )
                },
            },
    {
        match find_process_index(&self.processes, name) {
            None => Err(SupervisorError::UnknownService { name: String::from_str(name) }),
            Some(i) => {
                if self.processes[i].pid.is_some() && alive {
                    self.stop_service_given(name, alive)
                } else {
                    Ok(StopAction::NotRunning)
                }
            },
        }
    }

    /// Restart request for service `name`; decides as
    /// `restart_service_given` with the operating system's answer.
    pub fn restart_service(&mut self, name: &str) -> (r: Result<StopAction, SupervisorError>)
        ensures
            r is Err <==> process_index(old(self).processes@, name@, 0) is None,
            same_queues(*old(self), *final(self)),
            final(self).events == old(self).events,
            r matches Ok(StopAction::Terminate { pid }) ==> final(self).processes@ == stop_mark(
                old(self).processes@,
                name@,
            ),
            r matches Ok(StopAction::NotRunning) ==> final(self).processes@ == old(self).processes@,
    {
        let alive = match find_process_index(&self.processes, name) {
            Some(i) => match self.processes[i].pid {
                Some(p) => is_running_by_pid(p),
                None => false,
            },
            None => false,
        };
        self.restart_service_given(name, alive)
    }

    // ------------------------------------------------------------ pending queue

    /// Queues service `name` until `depends` are all healthy.
    pub fn add_pending_service(&mut self, name: &str, depends: Vec<String>)
        ensures
            pending_view(final(self).pending@) == pending_view(old(self).pending@).push(
                (name@, depends@),
            ),
            final(self).processes == old(self).processes,
            final(self).config == old(self).config,
            final(self).watching == old(self).watching,
            final(self).events == old(self).events,
    {
        self.pending.push(PendingService { name: String::from_str(name), depends });
        assert(pending_view(self.pending@) =~= pending_view(old(self).pending@).push(
            (name@, depends@),
        ));
    }

    /// Removes every pending entry of service `name`, keeping the others in
    /// order.
    pub fn remove_pending_service(&mut self, name: &str)
        ensures
            pending_view(final(self).pending@) == drop_named(pending_view(old(self).pending@), name@),
            final(self).processes == old(self).processes,
            final(self).config == old(self).config,
            final(self).watching == old(self).watching,
            final(self).events == old(self).events,
    {
        let mut kept: Vec<PendingService> = Vec::new();
        let mut old_list: Vec<PendingService> = Vec::new();
        std::mem::swap(&mut old_list, &mut self.pending);
        let mut k: usize = 0;
        while k < old_list.len()
            invariant
                k <= old_list.len(),
                old_list@ == old(self).pending@,
                pending_view(kept@) == drop_named(pending_view(old_list@.subrange(0, k as int)), name@),
            decreases old_list.len() - k,
        {
            let keep = !same_name(&old_list[k].name, name);
            let ghost kept_before = kept@;
            if keep {
                let entry = PendingService {
                    name: old_list[k].name.clone(),
                    depends: copy_names(&old_list[k].depends),
                };
                kept.push(entry);
                assert(kept@.last().name@ == old_list@[k as int].name@);
                assert(kept@.last().depends@ == old_list@[k as int].depends@);
                assert(pending_view(kept@) =~= pending_view(kept_before).push(
                    (old_list@[k as int].name@, old_list@[k as int].depends@),
                ));
            }
            assert(pending_view(old_list@.subrange(0, k + 1)).drop_last() =~= pending_view(
                old_list@.subrange(0, k as int),
            ));
            assert(pending_view(old_list@.subrange(0, k + 1)).last() == (
                old_list@[k as int].name@,
                old_list@[k as int].depends@,
            ));
            k = k + 1;
        }
        assert(old_list@.subrange(0, old_list.len() as int) =~= old_list@);
        self.pending = kept;
    }

    /// The first pending entry of service `name`.
    pub fn find_readonly_pending_info(&self, name: &str) -> (r: Option<&PendingService>)
        ensures
            r matches Some(p) ==> p.name@ == name@ && exists|k: int|
                0 <= k < self.pending@.len() && self.pending@[k] == *p,
            r is None ==> forall|k: int|
                0 <= k < self.pending@.len() ==> (#[trigger] self.pending@[k]).name@ != name@,
    {
        let mut k: usize = 0;
        while k < self.pending.len()
            invariant
                k <= self.pending.len(),
                forall|q: int| 0 <= q < k ==> (#[trigger] self.pending@[q]).name@ != name@,
            decreases self.pending.len() - k,
        {
            if same_name(&self.pending[k].name, name) {
                return Some(&self.pending[k]);
            }
            k = k + 1;
        }
        None
    }

    /// Start requests for `names`, in order. An unregistered name is skipped.
    /// A service whose dependencies are all healthy is started as by
    /// `start_service`: with a live recorded process Running is emitted
    /// again, otherwise its name is returned for a worker to spawn. Any other
    /// service is queued as pending with its dependency list.
    pub fn start_services(&mut self, names: &Vec<String>) -> (r: Vec<String>)
        ensures
            final(self).processes == old(self).processes,
            final(self).config == old(self).config,
            final(self).watching == old(self).watching,
            pending_view(final(self).pending@) == pending_view(old(self).pending@) + newly_pending(
                old(self).processes@,
                names@,
            ),
            exists|alive: Seq<bool>|
                {
                    &&& crate::config::names_of(r@) == start_spawn_names(
                        old(self).processes@,
                        names@,
                        alive,
                        names.len() as nat,
                    )
                    &&& event_views(final(self).events@) == event_views(old(self).events@)
                        + start_running_events(old(self).processes@, names@, alive, names.len() as nat)
                },
    {
        let mut spawns: Vec<String> = Vec::new();
        let ghost mut answers: Seq<bool> = Seq::empty();
        let mut k: usize = 0;
        while k < names.len()
            invariant
                k <= names.len(),
                answers.len() == k,
                self.processes == old(self).processes,
                self.config == old(self).config,
                self.watching == old(self).watching,
                pending_view(self.pending@) == pending_view(old(self).pending@) + newly_pending(
                    old(self).processes@,
                    names@.subrange(0, k as int),
                ),
                crate::config::names_of(spawns@) == start_spawn_names(old(self).processes@, names@, answers, k as nat),
                event_views(self.events@) == event_views(old(self).events@) + start_running_events(
                    old(self).processes@,
                    names@,
                    answers,
                    k as nat,
                ),
            decreases names.len() - k,
        {
            let name = names[k].as_str();
            let ghost sub = names@.subrange(0, k + 1);
            let ghost events_before = self.events@;
            let ghost spawns_before = spawns@;
            let ghost mut a: bool = false;
            proof {
                assert(sub.drop_last() =~= names@.subrange(0, k as int));
                assert(sub.last() == names@[k as int]);
                assert(name@ == names@[k as int]@);
            }
            match find_process_index(&self.processes, name) {
                None => {},
                Some(i) => {
                    if self.check_dep_ok(name) {
                        match self.start_service(name) {
                            Ok(StartAction::Spawn) => {
                                spawns.push(names[k].clone());
                            },
                            Ok(StartAction::AlreadyRunning) => {
                                proof {
                                    a = true;
                                }
                            },
                            Err(_) => {},
                        }
                    } else {
                        let deps = copy_names(&self.processes[i].depends_on);
                        self.add_pending_service(name, deps);
                    }
                },
            }
            proof {
                let answers2 = answers.push(a);
                lemma_answers_prefix_at(old(self).processes@, names@, answers, a, k as nat, k as nat);
                assert(answer_at(answers2, k as int) == a);
                assert(crate::config::names_of(spawns@) =~= start_spawn_names(old(self).processes@, names@, answers2, (k + 1) as nat)) by {
                    if spawns@.len() > spawns_before.len() {
                        assert(crate::config::names_of(spawns@) =~= crate::config::names_of(spawns_before).push(names@[k as int]@));
                    } else {
                        assert(spawns@ == spawns_before);
                    }
                }
                assert(event_views(self.events@) =~= event_views(old(self).events@) + start_running_events(
                    old(self).processes@,
                    names@,
                    answers2,
                    (k + 1) as nat,
                )) by {
                    if self.events@.len() > events_before.len() {
                        assert(self.events@ == events_before.push(self.events@.last()));
                        assert(event_views(self.events@) =~= event_views(events_before).push(event_view(self.events@.last())));
                    } else {
                        assert(self.events@ == events_before);
                    }
                }
                answers = answers2;
            }
            k = k + 1;
        }
        assert(names@.subrange(0, names.len() as int) =~= names@);
        spawns
    }

    /// Starts every pending service whose dependency list is now all healthy
    /// and removes it from the queue; the others stay, in order. A started
    /// service with a live recorded process gets Running again; the names of
    /// the others are returned for workers to spawn, in queue order.
    pub fn try_start_pending_service(&mut self) -> (r: Vec<String>)
        ensures
            final(self).processes == old(self).processes,
            final(self).config == old(self).config,
            final(self).watching == old(self).watching,
            pending_view(final(self).pending@) == still_pending(old(self).processes@, old(self).pending@),
            exists|alive: Seq<bool>|
                {
                    &&& crate::config::names_of(r@) == pending_spawn_names(
                        old(self).processes@,
                        old(self).pending@,
                        alive,
                        old(self).pending@.len(),
                    )
                    &&& event_views(final(self).events@) == event_views(old(self).events@)
                        + pending_running_events(
                        old(self).processes@,
                        old(self).pending@,
                        alive,
                        old(self).pending@.len(),
                    )
                },
    {
        let mut spawns: Vec<String> = Vec::new();
        let mut waiting: Vec<PendingService> = Vec::new();
        let mut queue: Vec<PendingService> = Vec::new();
        std::mem::swap(&mut queue, &mut self.pending);
        let ghost mut answers: Seq<bool> = Seq::empty();
        let mut k: usize = 0;
        while k < queue.len()
            invariant
                k <= queue.len(),
                answers.len() == k,
                queue@ == old(self).pending@,
                self.processes == old(self).processes,
                self.config == old(self).config,
                self.watching == old(self).watching,
                pending_view(waiting@) == still_pending(old(self).processes@, queue@.subrange(0, k as int)),
                crate::config::names_of(spawns@) == pending_spawn_names(old(self).processes@, queue@, answers, k as nat),
                event_views(self.events@) == event_views(old(self).events@) + pending_running_events(
                    old(self).processes@,
                    queue@,
                    answers,
                    k as nat,
                ),
            decreases queue.len() - k,
        {
            let ghost sub = queue@.subrange(0, k + 1);
            let ghost events_before = self.events@;
            let ghost spawns_before = spawns@;
            let ghost mut a: bool = false;
            proof {
                assert(sub.drop_last() =~= queue@.subrange(0, k as int));
                assert(sub.last() == queue@[k as int]);
            }
            if self.deps_healthy_now(&queue[k].depends) {
                match self.start_service(queue[k].name.as_str()) {
                    Ok(StartAction::Spawn) => {
                        spawns.push(queue[k].name.clone());
                    },
                    Ok(StartAction::AlreadyRunning) => {
                        proof {
                            a = true;
                        }
                    },
                    Err(_) => {},
                }
            } else {
                let ghost before = waiting@;
                waiting.push(PendingService {
                    name: queue[k].name.clone(),
                    depends: copy_names(&queue[k].depends),
                });
                assert(waiting@.last().name@ == queue@[k as int].name@);
                assert(waiting@.last().depends@ == queue@[k as int].depends@);
                assert(pending_view(waiting@) =~= pending_view(before).push(
                    (queue@[k as int].name@, queue@[k as int].depends@),
                ));
            }
            proof {
                let answers2 = answers.push(a);
                lemma_pending_answers_prefix_at(old(self).processes@, queue@, answers, a, k as nat, k as nat);
                assert(answer_at(answers2, k as int) == a);
                assert(crate::config::names_of(spawns@) =~= pending_spawn_names(old(self).processes@, queue@, answers2, (k + 1) as nat)) by {
                    if spawns@.len() > spawns_before.len() {
                        assert(crate::config::names_of(spawns@) =~= crate::config::names_of(spawns_before).push(queue@[k as int].name@));
                    } else {
                        assert(spawns@ == spawns_before);
                    }
                }
                assert(event_views(self.events@) =~= event_views(old(self).events@) + pending_running_events(
                    old(self).processes@,
                    queue@,
                    answers2,
                    (k + 1) as nat,
                )) by {
                    if self.events@.len() > events_before.len() {
                        assert(self.events@ == events_before.push(self.events@.last()));
                        assert(event_views(self.events@) =~= event_views(events_before).push(event_view(self.events@.last())));
                    } else {
                        assert(self.events@ == events_before);
                    }
                }
                answers = answers2;
            }
            k = k + 1;
        }
        assert(queue@.subrange(0, queue.len() as int) =~= queue@);
        self.pending = waiting;
        spawns
    }

    // ------------------------------------------------------------ health watch set

    /// True iff a health watcher for service `name` is active.
    pub fn is_watching(&self, name: &str) -> (r: bool)
        ensures
            r == watched(self.watching@, name@),
    {
        let mut k: usize = 0;
        while k < self.watching.len()
            invariant
                k <= self.watching.len(),
                forall|q: int| 0 <= q < k ==> (#[trigger] self.watching@[q])@ != name@,
            decreases self.watching.len() - k,
        {
            if same_name(&self.watching[k], name) {
                return true;
            }
            k = k + 1;
        }
        false
    }

    /// Marks a health watcher for service `name` as active.
    pub fn set_watch_flag(&mut self, name: &str)
        ensures
            watched(final(self).watching@, name@),
            forall|n: Seq<char>| n != name@ ==> watched(final(self).watching@, n) == watched(old(self).watching@, n),
            final(self).processes == old(self).processes,
            final(self).config == old(self).config,
            final(self).pending == old(self).pending,
            final(self).events == old(self).events,
    {
        if !self.is_watching(name) {
            self.watching.push(String::from_str(name));
            proof {
                assert(self.watching@[self.watching@.len() - 1]@ == name@);
                assert forall|n: Seq<char>| n != name@ implies watched(self.watching@, n) == watched(old(self).watching@, n) by {
                    if watched(self.watching@, n) {
                        let k = choose|k: int| 0 <= k < self.watching@.len() && (#[trigger] self.watching@[k])@ == n;
                        assert(old(self).watching@[k] == self.watching@[k]);
                    }
                    if watched(old(self).watching@, n) {
                        let k = choose|k: int| 0 <= k < old(self).watching@.len() && (#[trigger] old(self).watching@[k])@ == n;
                        assert(old(self).watching@[k] == self.watching@[k]);
                    }
                }
            }
        }
    }

    /// Enables the health watcher of service `name`. Returns true iff a new
    /// watcher must be spawned: the service's configuration has a health
    /// check and no watcher is active yet.
    pub fn start_watch(&mut self, name: &str) -> (r: bool)
        ensures
            r == (has_healthcheck(*old(self), name@) && !watched(old(self).watching@, name@)),
            has_healthcheck(*old(self), name@) ==> watched(final(self).watching@, name@),
            forall|n: Seq<char>| n != name@ ==> watched(final(self).watching@, n) == watched(old(self).watching@, n),
            !has_healthcheck(*old(self), name@) ==> final(self).watching == old(self).watching,
            final(self).processes == old(self).processes,
            final(self).config == old(self).config,
            final(self).pending == old(self).pending,
            final(self).events == old(self).events,
    {
        let enabled = match self.find_service_config(name) {
            Some(c) => c.healthcheck.is_some(),
            None => false,
        };
        if !enabled {
            return false;
        }
        if self.is_watching(name) {
            return false;
        }
        self.set_watch_flag(name);
        true
    }

    /// Disables the health watcher of service `name`; its worker exits at its
    /// next check.
    pub fn stop_watch(&mut self, name: &str)
        ensures
            !watched(final(self).watching@, name@),
            forall|n: Seq<char>| n != name@ ==> watched(final(self).watching@, n) == watched(old(self).watching@, n),
            final(self).processes == old(self).processes,
            final(self).config == old(self).config,
            final(self).pending == old(self).pending,
            final(self).events == old(self).events,
    {
        let mut list: Vec<String> = Vec::new();
        std::mem::swap(&mut list, &mut self.watching);
        let mut kept: Vec<String> = Vec::new();
        let mut k: usize = 0;
        while k < list.len()
            invariant
                k <= list.len(),
                list@ == old(self).watching@,
                forall|q: int| 0 <= q < kept@.len() ==> (#[trigger] kept@[q])@ != name@,
                forall|q: int| 0 <= q < kept@.len() ==> exists|j: int| 0 <= j < k && list@[j]@ == (#[trigger] kept@[q])@,
                forall|j: int| 0 <= j < k && (#[trigger] list@[j])@ != name@ ==> watched(kept@, list@[j]@),
            decreases list.len() - k,
        {
            if !same_name(&list[k], name) {
                let ghost before = kept@;
                kept.push(list[k].clone());
                proof {
                    assert forall|j: int| 0 <= j < k + 1 && (#[trigger] list@[j])@ != name@ implies watched(kept@, list@[j]@) by {
                        if j < k {
                            let q = choose|q: int| 0 <= q < before.len() && (#[trigger] before[q])@ == list@[j]@;
                            assert(kept@[q] == before[q]);
                        } else {
                            assert(kept@[kept@.len() - 1] == list@[j]);
                        }
                    }
                    assert forall|q: int| 0 <= q < kept@.len() implies exists|j: int| 0 <= j < k + 1 && list@[j]@ == (#[trigger] kept@[q])@ by {
                        if q < before.len() {
                            assert(kept@[q] == before[q]);
                        } else {
                            assert(list@[k as int]@ == kept@[q]@);
                        }
                    }
                }
            }
            k = k + 1;
        }
        self.watching = kept;
        proof {
            assert forall|n: Seq<char>| n != name@ implies watched(self.watching@, n) == watched(old(self).watching@, n) by {
                if watched(old(self).watching@, n) {
                    let j = choose|j: int| 0 <= j < list@.len() && (#[trigger] list@[j])@ == n;
                    assert(watched(kept@, list@[j]@));
                }
                if watched(self.watching@, n) {
                    let q = choose|q: int| 0 <= q < kept@.len() && (#[trigger] kept@[q])@ == n;
                    let j = choose|j: int| 0 <= j < list@.len() && list@[j]@ == (#[trigger] kept@[q])@;
                    assert(list@[j]@ == n);
                }
            }
        }
    }

    // ------------------------------------------------------------ event handling

    /// Reacts to one event of the queue. Running enables the service's health
    /// watcher; Stopped disables it; Exited changes nothing; Unhealthy and
    /// Healthy set the service's health, and Healthy then starts the pending
    /// services whose dependencies are now all healthy. Returns the workers
    /// the caller must spawn.
    pub fn handle_process_event(&mut self, event: &ProcessEvent) -> (r: Vec<Command>)
        ensures
            final(self).config == old(self).config,
            event.event_type == EventType::Running ==> {
                &&& final(self).processes == old(self).processes
                &&& final(self).pending == old(self).pending
                &&& has_healthcheck(*old(self), event.service_name@) ==> watched(
                    final(self).watching@,
                    event.service_name@,
                )
                &&& (r@.len() == 1) == (has_healthcheck(*old(self), event.service_name@) && !watched(
                    old(self).watching@,
                    event.service_name@,
                ))
                &&& r@.len() <= 1
                &&& r@.len() == 1 ==> (r@[0] matches Command::StartWatcher { name } && name@
                    == event.service_name@)
                &&& !has_healthcheck(*old(self), event.service_name@) ==> final(self).watching
                    == old(self).watching
                &&& final(self).events == old(self).events
            },
            event.event_type == EventType::Exited ==> *final(self) == *old(self) && r@.len() == 0,
            event.event_type == EventType::Stopped ==> {
                &&& !watched(final(self).watching@, event.service_name@)
                &&& final(self).processes == old(self).processes
                &&& final(self).pending == old(self).pending
                &&& r@.len() == 0
            },
            event.event_type == EventType::Unhealthy ==> {
                &&& final(self).processes@ == set_health(old(self).processes@, event.service_name@, false)
                &&& final(self).pending == old(self).pending
                &&& final(self).watching == old(self).watching
                &&& r@.len() == 0
            },
            event.event_type == EventType::Healthy ==> {
                let after = set_health(old(self).processes@, event.service_name@, true);
                &&& final(self).processes@ == after
                &&& pending_view(final(self).pending@) == still_pending(after, old(self).pending@)
                &&& final(self).watching == old(self).watching
                &&& exists|alive: Seq<bool>|
                    pending_scan_outcome(
                        after,
                        old(self).pending@,
                        alive,
                        command_names(r@),
                        old(self).events@,
                        final(self).events@,
                    )
                &&& forall|k: int| 0 <= k < r@.len() ==> (#[trigger] r@[k]) is Spawn
            },
    {
        let name = event.service_name.as_str();
        match event.event_type {
            EventType::Running => {
                let mut out: Vec<Command> = Vec::new();
                if self.start_watch(name) {
                    out.push(Command::StartWatcher { name: event.service_name.clone() });
                }
                out
            },
            EventType::Exited => Vec::new(),
            EventType::Stopped => {
                self.stop_watch(name);
                Vec::new()
            },
            EventType::Unhealthy => {
                let _ = self.change_proc_health_status(name, false);
                Vec::new()
            },
            EventType::Healthy => {
                let _ = self.change_proc_health_status(name, true);
                let ghost mid = *self;
                let names = self.try_start_pending_service();
                let ghost alive = choose|alive: Seq<bool>|
                    {
                        &&& crate::config::names_of(names@) == pending_spawn_names(
                            mid.processes@,
                            mid.pending@,
                            alive,
                            mid.pending@.len(),
                        )
                        &&& event_views(self.events@) == event_views(mid.events@)
                            + pending_running_events(mid.processes@, mid.pending@, alive, mid.pending@.len())
                    };
                let mut out: Vec<Command> = Vec::new();
                let mut k: usize = 0;
                while k < names.len()
                    invariant
                        k <= names.len(),
                        out@.len() == k,
                        forall|q: int| 0 <= q < k ==> (#[trigger] out@[q]) is Spawn,
                        command_names(out@) == crate::config::names_of(names@.subrange(0, k as int)),
                    decreases names.len() - k,
                {
                    let ghost before = out@;
                    out.push(Command::Spawn { name: names[k].clone() });
                    assert(command_names(out@) =~= command_names(before).push(names@[k as int]@));
                    assert(crate::config::names_of(names@.subrange(0, k + 1)) =~= crate::config::names_of(
                        names@.subrange(0, k as int),
                    ).push(names@[k as int]@));
                    k = k + 1;
                }
                assert(names@.subrange(0, names.len() as int) =~= names@);
                assert(pending_scan_outcome(
                    mid.processes@,
                    mid.pending@,
                    alive,
                    command_names(out@),
                    mid.events@,
                    self.events@,
                ));
                assert(mid.processes@ == set_health(old(self).processes@, event.service_name@, true));
                assert(mid.pending@ == old(self).pending@);
                assert(mid.events@ == old(self).events@);
                assert(pending_scan_outcome(
                    set_health(old(self).processes@, event.service_name@, true),
                    old(self).pending@,
                    alive,
                    command_names(out@),
                    old(self).events@,
                    self.events@,
                ));
                out
            },
        }
    }
}

/// The registry after setting the health of the record named `name`.
pub open spec fn set_health(procs: Seq<ProcessRuntimeInfo>, name: Seq<char>, h: bool) -> Seq<
    ProcessRuntimeInfo,
> {
    match process_index(procs, name, 0) {
        Some(i) => procs.update(i, with_health(procs[i], h)),
        None => procs,
    }
}

} // verus!
