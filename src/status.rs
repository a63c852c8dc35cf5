use vstd::prelude::*;

use crate::config::{deps_of, GlobalConfig, ServiceConfig};
use crate::event::{is_event, EventType, ProcessEvent};
use crate::platform::is_running_by_pid;

verus! {

/// Runtime state of one service. The registry holds one per configured service.
#[derive(Debug)]
pub struct ProcessRuntimeInfo {
    pub name: String,
    /// Present iff the supervisor believes the child is alive.
    pub pid: Option<u32>,
    /// False when the process was adopted from a PID file.
    pub is_child_process: bool,
    /// Unknown, healthy or unhealthy.
    pub health: Option<bool>,
    /// The service's declared dependencies.
    pub depends_on: Vec<String>,
    /// True from a deliberate stop request until the next start.
    pub stopped_by_supervisor: bool,
    /// Seconds since the epoch.
    pub last_start_time: Option<u64>,
    pub last_stop_time: Option<u64>,
    pub exit_err: Option<String>,
}

/// A service waiting for its dependencies to become healthy.
#[derive(Debug)]
pub struct PendingService {
    pub name: String,
    pub depends: Vec<String>,
}

/// A PID read from a service's PID file at start-up.
#[derive(Debug)]
pub struct RecordedPid {
    pub name: String,
    pub pid: u32,
}

/// Errors of registry operations.
#[derive(Debug, PartialEq, Eq)]
pub enum SupervisorError {
    /// No service of this name is registered.
    UnknownService { name: String },
}

/// The supervision engine's state: configuration, runtime registry, pending
/// queue, health-watch set and the queue of events not yet consumed.
#[derive(Debug)]
pub struct Supervisor {
    pub config: GlobalConfig,
    pub processes: Vec<ProcessRuntimeInfo>,
    pub pending: Vec<PendingService>,
    pub watching: Vec<String>,
    pub events: Vec<ProcessEvent>,
}

// ---------------------------------------------------------------- lookups

/// Position of the first service named `name` at or after `from`.
pub open spec fn service_index(s: Seq<ServiceConfig>, name: Seq<char>, from: int) -> Option<int>
    decreases s.len() - from,
{
    if from < 0 || from >= s.len() {
        None
    } else if s[from].name@ == name {
        Some(from)
    } else {
        service_index(s, name, from + 1)
    }
}

/// Position of the first runtime record named `name` at or after `from`.
pub open spec fn process_index(s: Seq<ProcessRuntimeInfo>, name: Seq<char>, from: int) -> Option<
    int,
>
    decreases s.len() - from,
{
    if from < 0 || from >= s.len() {
        None
    } else if s[from].name@ == name {
        Some(from)
    } else {
        process_index(s, name, from + 1)
    }
}

/// Where the lookup of `name` lands.
pub proof fn lemma_process_index_found(s: Seq<ProcessRuntimeInfo>, name: Seq<char>, from: int)
    requires
        0 <= from,
    ensures
        process_index(s, name, from) matches Some(i) ==> from <= i < s.len() && s[i].name@ == name,
        process_index(s, name, from) is None ==> forall|j: int|
            from <= j < s.len() ==> (#[trigger] s[j]).name@ != name,
    decreases s.len() - from,
{
    if from < s.len() {
        lemma_process_index_found(s, name, from + 1);
    }
}

proof fn lemma_service_index_found(s: Seq<ServiceConfig>, name: Seq<char>, from: int)
    requires
        0 <= from,
    ensures
        service_index(s, name, from) matches Some(i) ==> from <= i < s.len() && s[i].name@ == name,
        service_index(s, name, from) is None ==> forall|j: int|
            from <= j < s.len() ==> (#[trigger] s[j]).name@ != name,
    decreases s.len() - from,
{
    if from < s.len() {
        lemma_service_index_found(s, name, from + 1);
    }
}

/// Same text.
pub fn same_name(a: &String, b: &str) -> (r: bool)
    ensures
        r == (a@ == b@),
{
    let b2 = String::from_str(b);
    *a == b2
}

/// A copy of a list of names.
pub fn copy_names(v: &Vec<String>) -> (r: Vec<String>)
    ensures
        r@ == v@,
{
    let mut r: Vec<String> = Vec::new();
    let mut i: usize = 0;
    while i < v.len()
        invariant
            i <= v.len(),
            r@ == v@.subrange(0, i as int),
        decreases v.len() - i,
    {
        r.push(v[i].clone());
        i = i + 1;
        assert(r@ == v@.subrange(0, i as int));
    }
    assert(v@.subrange(0, v.len() as int) =~= v@);
    r
}

/// Position of the first service named `name` in `services`.
pub fn find_service_index(services: &Vec<ServiceConfig>, name: &str) -> (r: Option<usize>)
    ensures
        match r {
            Some(i) => service_index(services@, name@, 0) == Some(i as int),
            None => service_index(services@, name@, 0) is None,
        },
        r matches Some(i) ==> i < services.len() && services@[i as int].name@ == name@,
{
    proof {
        lemma_service_index_found(services@, name@, 0);
    }
    let mut i: usize = 0;
    while i < services.len()
        invariant
            i <= services.len(),
            service_index(services@, name@, 0) == service_index(services@, name@, i as int),
        decreases services.len() - i,
    {
        if same_name(&services[i].name, name) {
            return Some(i);
        }
        i = i + 1;
    }
    None
}

/// Position of the first runtime record named `name`.
pub fn find_process_index(processes: &Vec<ProcessRuntimeInfo>, name: &str) -> (r: Option<usize>)
    ensures
        match r {
            Some(i) => process_index(processes@, name@, 0) == Some(i as int),
            None => process_index(processes@, name@, 0) is None,
        },
        r matches Some(i) ==> i < processes.len() && processes@[i as int].name@ == name@,
{
    proof {
        lemma_process_index_found(processes@, name@, 0);
    }
    let mut i: usize = 0;
    while i < processes.len()
        invariant
            i <= processes.len(),
            process_index(processes@, name@, 0) == process_index(processes@, name@, i as int),
        decreases processes.len() - i,
    {
        if same_name(&processes[i].name, name) {
            return Some(i);
        }
        i = i + 1;
    }
    None
}

/// The record a start-up creates for a service: adopted with the recorded PID
/// when that PID was found alive, otherwise a fresh record with no process.
pub open spec fn initial_record(
    r: ProcessRuntimeInfo,
    name: Seq<char>,
    deps: Seq<String>,
    recorded: Option<u32>,
    alive: bool,
    now: u64,
) -> bool {
    &&& r.name@ == name
    &&& r.depends_on@ == deps
    &&& r.health is None
    &&& !r.stopped_by_supervisor
    &&& r.last_stop_time is None
    &&& r.exit_err is None
    &&& if recorded is Some && alive {
        &&& r.pid == recorded
        &&& !r.is_child_process
        &&& r.last_start_time == Some(now)
    } else {
        &&& r.pid is None
        &&& r.is_child_process
        &&& r.last_start_time is None
    }
}

/// The record start-up leaves for a service: either fresh (no process, not
/// adopted) or adopting a PID that was recorded for this service.
pub open spec fn startup_record(
    r: ProcessRuntimeInfo,
    name: Seq<char>,
    deps: Seq<String>,
    recorded: Seq<RecordedPid>,
    now: u64,
) -> bool {
    &&& r.name@ == name
    &&& r.depends_on@ == deps
    &&& r.health is None
    &&& !r.stopped_by_supervisor
    &&& r.last_stop_time is None
    &&& r.exit_err is None
    &&& match r.pid {
        None => r.is_child_process && r.last_start_time is None,
        Some(p) => {
            &&& !r.is_child_process
            &&& r.last_start_time == Some(now)
            &&& exists|k: int|
                0 <= k < recorded.len() && (#[trigger] recorded[k]).name@ == name && recorded[k].pid
                    == p
        },
    }
}

/// Builds a service's start-up record, given the PID its PID file held (if
/// any) and whether that process is alive.
pub fn runtime_record(
    name: &String,
    deps: &Vec<String>,
    recorded: Option<u32>,
    alive: bool,
    now: u64,
) -> (r: ProcessRuntimeInfo)
    ensures
        initial_record(r, name@, deps@, recorded, alive, now),
{
    let adopted = recorded.is_some() && alive;
    ProcessRuntimeInfo {
        name: name.clone(),
        pid: if adopted {
            recorded
        } else {
            None
        },
        is_child_process: !adopted,
        health: None,
        depends_on: copy_names(deps),
        stopped_by_supervisor: false,
        last_start_time: if adopted {
            Some(now)
        } else {
            None
        },
        last_stop_time: None,
        exit_err: None,
    }
}

/// The PID recorded for `name`, if any.
fn recorded_pid(recorded: &Vec<RecordedPid>, name: &str) -> (r: Option<u32>)
    ensures
        r matches Some(p) ==> exists|k: int|
            0 <= k < recorded.len() && (#[trigger] recorded@[k]).name@ == name@ && recorded@[k].pid
                == p,
{
    let mut k: usize = 0;
    while k < recorded.len()
        invariant
            k <= recorded.len(),
        decreases recorded.len() - k,
    {
        if same_name(&recorded[k].name, name) {
            return Some(recorded[k].pid);
        }
        k = k + 1;
    }
    None
}

/// The names in `v` are pairwise distinct.
pub open spec fn distinct_names(v: Seq<String>) -> bool {
    forall|a: int, b: int| 0 <= a < b < v.len() ==> v[a]@ != v[b]@
}

impl Supervisor {
    /// A supervisor over `config` with an empty registry.
    pub fn new(config: GlobalConfig) -> (r: Supervisor)
        ensures
            r.config == config,
            r.processes@.len() == 0,
            r.pending@.len() == 0,
            r.watching@.len() == 0,
            r.events@.len() == 0,
    {
        Supervisor {
            config,
            processes: Vec::new(),
            pending: Vec::new(),
            watching: Vec::new(),
            events: Vec::new(),
        }
    }

    /// Replaces the configuration.
    pub fn set_config(&mut self, config: GlobalConfig)
        ensures
            final(self).config == config,
            final(self).processes == old(self).processes,
            final(self).pending == old(self).pending,
            final(self).watching == old(self).watching,
            final(self).events == old(self).events,
    {
        self.config = config;
    }

    pub fn current_config(&self) -> (r: &GlobalConfig)
        ensures
            *r == self.config,
    {
        &self.config
    }

    /// The configuration of the first service named `name`.
    pub fn find_service_config(&self, name: &str) -> (r: Option<&ServiceConfig>)
        ensures
            match service_index(self.config.services@, name@, 0) {
                Some(i) => r == Some(&self.config.services@[i]),
                None => r is None,
            },
    {
        match find_service_index(&self.config.services, name) {
            Some(i) => Some(&self.config.services[i]),
            None => None,
        }
    }

    /// Appends an event to the queue.
    pub fn send_process_event(
        &mut self,
        service_name: &str,
        event_type: EventType,
        data: Option<String>,
        pid: Option<u32>,
    )
        ensures
            final(self).events@.len() == old(self).events@.len() + 1,
            final(self).events@.drop_last() == old(self).events@,
            is_event(final(self).events@.last(), service_name@, event_type, pid),
            final(self).events@.last().data == data,
            final(self).config == old(self).config,
            final(self).processes == old(self).processes,
            final(self).pending == old(self).pending,
            final(self).watching == old(self).watching,
    {
        self.events.push(
            ProcessEvent { service_name: String::from_str(service_name), pid, event_type, data },
        );
        assert(self.events@.drop_last() =~= old(self).events@);
    }

    /// Hands out the queued events, oldest first, and empties the queue.
    pub fn take_events(&mut self) -> (r: Vec<ProcessEvent>)
        ensures
            r@ == old(self).events@,
            final(self).events@.len() == 0,
            final(self).config == old(self).config,
            final(self).processes == old(self).processes,
            final(self).pending == old(self).pending,
            final(self).watching == old(self).watching,
    {
        let mut out: Vec<ProcessEvent> = Vec::new();
        std::mem::swap(&mut out, &mut self.events);
        out
    }

    /// Builds the registry: one record per name of `start_orders`, in that
    /// order, each with its service's dependencies. A service whose recorded
    /// PID is alive is adopted (`is_child_process == false`). Fails, leaving
    /// the registry as it was, when a name has no configured service or
    /// appears twice.
    pub fn init_processes(
        &mut self,
        start_orders: &Vec<String>,
        recorded: &Vec<RecordedPid>,
        now: u64,
    ) -> (r: Result<(), crate::config::ConfigError>)
        ensures
            r is Ok <==> (forall|k: int|
                0 <= k < start_orders.len() ==> service_index(
                    old(self).config.services@,
                    (#[trigger] start_orders@[k])@,
                    0,
                ) is Some) && distinct_names(start_orders@),
            r is Ok ==> final(self).processes@.len() == start_orders@.len(),
            r is Ok ==> forall|k: int|
                0 <= k < start_orders.len() ==> startup_record(
                    #[trigger] final(self).processes@[k],
                    start_orders@[k]@,
                    deps_of(old(self).config.services@[service_index(old(self).config.services@, start_orders@[k]@, 0)->0]),
                    recorded@,
                    now,
                ),
            r is Err ==> final(self).processes == old(self).processes,
            final(self).config == old(self).config,
            final(self).pending == old(self).pending,
            final(self).watching == old(self).watching,
            final(self).events == old(self).events,
    {
        let mut table: Vec<ProcessRuntimeInfo> = Vec::new();
        let mut k: usize = 0;
        while k < start_orders.len()
            invariant
                k <= start_orders.len(),
                table@.len() == k,
                forall|q: int| 0 <= q < k ==> (#[trigger] table@[q]).name@ == start_orders@[q]@,
                forall|q: int|
                    0 <= q < k ==> service_index(
                        self.config.services@,
                        (#[trigger] start_orders@[q])@,
                        0,
                    ) is Some,
                distinct_names(start_orders@.subrange(0, k as int)),
                forall|q: int|
                    0 <= q < k ==> startup_record(
                        #[trigger] table@[q],
                        start_orders@[q]@,
                        deps_of(self.config.services@[service_index(self.config.services@, start_orders@[q]@, 0)->0]),
                        recorded@,
                        now,
                    ),
            decreases start_orders.len() - k,
        {
            let name = &start_orders[k];
            let ci = match find_service_index(&self.config.services, name.as_str()) {
                Some(ci) => ci,
                None => {
                    assert(service_index(self.config.services@, start_orders@[k as int]@, 0) is None);
                    return Err(crate::config::ConfigError::ServiceNotFound { name: name.clone() });
                },
            };
            if let Some(dup) = find_process_index(&table, name.as_str()) {
                proof {
                    assert(!distinct_names(start_orders@)) by {
                        assert(start_orders@[dup as int]@ == start_orders@[k as int]@);
                    }
                }
                return Err(crate::config::ConfigError::DuplicateService { name: name.clone() });
            }
            proof {
                lemma_process_index_found(table@, name@, 0);
            }
            let empty: Vec<String> = Vec::new();
            let deps = match &self.config.services[ci].depends_on {
                Some(d) => d,
                None => &empty,
            };
            assert(deps@ == deps_of(self.config.services@[ci as int]));
            let rec = recorded_pid(recorded, name.as_str());
            let alive = match rec {
                Some(p) => is_running_by_pid(p),
                None => false,
            };
            let record = runtime_record(name, deps, rec, alive, now);
            let ghost t0 = table@;
            table.push(record);
            proof {
                let sub = start_orders@.subrange(0, k + 1);
                assert forall|a: int, b: int|
                    #![trigger sub[a], sub[b]]
                    0 <= a < b < k + 1 implies sub[a]@ != sub[b]@ by {
                    assert(sub[a] == start_orders@[a]);
                    assert(sub[b] == start_orders@[b]);
                    if b == k {
                        assert(t0[a].name@ == start_orders@[a]@);
                    } else {
                        assert(start_orders@.subrange(0, k as int)[a] == start_orders@[a]);
                        assert(start_orders@.subrange(0, k as int)[b] == start_orders@[b]);
                    }
                }
                assert forall|q: int|
                    0 <= q < k + 1 implies startup_record(
                    #[trigger] table@[q],
                    start_orders@[q]@,
                    deps_of(self.config.services@[service_index(self.config.services@, start_orders@[q]@, 0)->0]),
                    recorded@,
                    now,
                ) by {
                    if q == k {
                        assert(start_orders@[q]@ == name@);
                        assert(service_index(self.config.services@, start_orders@[q]@, 0)->0 == ci);
                    } else {
                        assert(table@[q] == t0[q]);
                    }
                }
            }
            k = k + 1;
        }
        assert(start_orders@.subrange(0, start_orders.len() as int) =~= start_orders@);
        self.processes = table;
        Ok(())
    }

    /// A snapshot of the record of service `name`.
    pub fn find_readonly_proc_runtime(&self, name: &str) -> (r: Result<
        &ProcessRuntimeInfo,
        SupervisorError,
    >)
        ensures
            match process_index(self.processes@, name@, 0) {
                Some(i) => r == Ok::<&ProcessRuntimeInfo, SupervisorError>(&self.processes@[i]),
                None => r matches Err(SupervisorError::UnknownService { name: n }) && n@ == name@,
            },
    {
        match find_process_index(&self.processes, name) {
            Some(i) => Ok(&self.processes[i]),
            None => Err(SupervisorError::UnknownService { name: String::from_str(name) }),
        }
    }

    /// Names of all registered services, in registry (start) order.
    pub fn get_all_process_name(&self) -> (r: Vec<String>)
        ensures
            r@.len() == self.processes@.len(),
            forall|k: int| 0 <= k < r@.len() ==> (#[trigger] r@[k])@ == self.processes@[k].name@,
    {
        let mut names: Vec<String> = Vec::new();
        let mut k: usize = 0;
        while k < self.processes.len()
            invariant
                k <= self.processes.len(),
                names@.len() == k,
                forall|q: int| 0 <= q < k ==> (#[trigger] names@[q])@ == self.processes@[q].name@,
            decreases self.processes.len() - k,
        {
            names.push(self.processes[k].name.clone());
            k = k + 1;
        }
        names
    }

    /// Sets the health of service `name`.
    pub fn change_proc_health_status(&mut self, name: &str, health: bool) -> (r: Result<
        (),
        SupervisorError,
    >)
        ensures
            match process_index(old(self).processes@, name@, 0) {
                Some(i) => r is Ok && final(self).processes@ == old(self).processes@.update(
                    i,
                    with_health(old(self).processes@[i], health),
                ),
                None => r is Err && final(self).processes == old(self).processes,
            },
            same_queues(*old(self), *final(self)),
            final(self).events == old(self).events,
    {
        match find_process_index(&self.processes, name) {
            Some(i) => {
                self.processes[i].health = Some(health);
                Ok(())
            },
            None => Err(SupervisorError::UnknownService { name: String::from_str(name) }),
        }
    }

    /// The health of service `name`: unknown (also for an unregistered name),
    /// healthy or unhealthy.
    pub fn is_heathy(&self, name: &str) -> (r: Option<bool>)
        ensures
            r == health_of(self.processes@, name@),
    {
        match find_process_index(&self.processes, name) {
            Some(i) => self.processes[i].health,
            None => None,
        }
    }

    /// True iff service `name` is registered and every one of its declared
    /// dependencies is a registered service whose health is healthy.
    pub fn check_dep_ok(&self, name: &str) -> (r: bool)
        ensures
            r == dep_ok(self.processes@, name@),
    {
        match find_process_index(&self.processes, name) {
            None => false,
            Some(i) => self.deps_healthy_now(&self.processes[i].depends_on),
        }
    }

    /// True iff every name of `deps` is a registered, healthy service.
    pub fn deps_healthy_now(&self, deps: &Vec<String>) -> (r: bool)
        ensures
            r == deps_healthy(self.processes@, deps@),
    {
        let mut k: usize = 0;
        while k < deps.len()
            invariant
                k <= deps.len(),
                forall|q: int| 0 <= q < k ==> healthy(self.processes@, (#[trigger] deps@[q])@),
            decreases deps.len() - k,
        {
            if self.is_heathy(deps[k].as_str()) != Some(true) {
                assert(!healthy(self.processes@, deps@[k as int]@));
                return false;
            }
            k = k + 1;
        }
        true
    }

    /// True iff service `name` has a PID on record and the operating system
    /// reports that PID alive. False for an unregistered name.
    pub fn is_running_by_name(&self, name: &str) -> (r: bool)
        ensures
            r ==> (process_index(self.processes@, name@, 0) matches Some(i)
                && self.processes@[i].pid is Some),
    {
        match find_process_index(&self.processes, name) {
            None => false,
            Some(i) => match self.processes[i].pid {
                None => false,
                Some(p) => is_running_by_pid(p),
            },
        }
    }

    /// Records that service `name` runs as process `pid` (spawned by this
    /// supervisor iff `is_child_process`), started at `now`, and emits Running.
    pub fn update_proc_to_started(
        &mut self,
        name: &str,
        pid: u32,
        is_child_process: bool,
        now: u64,
    ) -> (r: Result<(), SupervisorError>)
        ensures
            match process_index(old(self).processes@, name@, 0) {
                Some(i) => {
                    &&& r is Ok
                    &&& final(self).processes@ == old(self).processes@.update(
                        i,
                        started(old(self).processes@[i], pid, is_child_process, now),
                    )
                    &&& final(self).events@.len() == old(self).events@.len() + 1
                    &&& final(self).events@.drop_last() == old(self).events@
                    &&& is_event(final(self).events@.last(), name@, EventType::Running, Some(pid))
                    &&& final(self).events@.last().data is None
                },
                None => {
                    &&& r is Err
                    &&& final(self).processes == old(self).processes
                    &&& final(self).events == old(self).events
                },
            },
            same_queues(*old(self), *final(self)),
    {
        match find_process_index(&self.processes, name) {
            Some(i) => {
                self.processes[i].pid = Some(pid);
                self.processes[i].last_start_time = Some(now);
                self.processes[i].stopped_by_supervisor = false;
                self.processes[i].is_child_process = is_child_process;
                assert(self.processes@[i as int] == started(old(self).processes@[i as int], pid, is_child_process, now));
                assert(self.processes@ =~= old(self).processes@.update(i as int, started(old(self).processes@[i as int], pid, is_child_process, now)));
                self.send_process_event(name, EventType::Running, None, Some(pid));
                Ok(())
            },
            None => Err(SupervisorError::UnknownService { name: String::from_str(name) }),
        }
    }

    /// Records that process `pid` of service `name` ended at `now` with
    /// `exit_msg`, and emits Stopped when the supervisor asked for the stop,
    /// Exited otherwise, carrying `exit_msg` as data.
    pub fn update_proc_to_stopped(&mut self, name: &str, exit_msg: &str, pid: u32, now: u64) -> (r:
        Result<(), SupervisorError>)
        ensures
            match process_index(old(self).processes@, name@, 0) {
                Some(i) => {
                    &&& r is Ok
                    &&& final(self).processes@ == old(self).processes@.update(
                        i,
                        final(self).processes@[i],
                    )
                    &&& stopped(old(self).processes@[i], final(self).processes@[i], exit_msg@, now)
                    &&& final(self).events@.len() == old(self).events@.len() + 1
                    &&& final(self).events@.drop_last() == old(self).events@
                    &&& is_event(
                        final(self).events@.last(),
                        name@,
                        if old(self).processes@[i].stopped_by_supervisor {
                            EventType::Stopped
                        } else {
                            EventType::Exited
                        },
                        Some(pid),
                    )
                    &&& final(self).events@.last().data matches Some(d) && d@ == exit_msg@
                },
                None => {
                    &&& r is Err
                    &&& final(self).processes == old(self).processes
                    &&& final(self).events == old(self).events
                },
            },
            same_queues(*old(self), *final(self)),
    {
        match find_process_index(&self.processes, name) {
            Some(i) => {
                self.processes[i].pid = None;
                self.processes[i].last_stop_time = Some(now);
                self.processes[i].exit_err = Some(String::from_str(exit_msg));
                assert(self.processes@ =~= old(self).processes@.update(i as int, self.processes@[i as int]));
                let event_type = if self.processes[i].stopped_by_supervisor {
                    EventType::Stopped
                } else {
                    EventType::Exited
                };
                self.send_process_event(name, event_type, Some(String::from_str(exit_msg)), Some(pid));
                Ok(())
            },
            None => Err(SupervisorError::UnknownService { name: String::from_str(name) }),
        }
    }
}

// ---------------------------------------------------------------- registry model

/// The configuration, pending queue and watch set are the same.
pub open spec fn same_queues(a: Supervisor, b: Supervisor) -> bool {
    &&& a.config == b.config
    &&& a.pending == b.pending
    &&& a.watching == b.watching
}

pub open spec fn with_health(r: ProcessRuntimeInfo, h: bool) -> ProcessRuntimeInfo {
    ProcessRuntimeInfo { health: Some(h), ..r }
}

pub open spec fn started(r: ProcessRuntimeInfo, pid: u32, is_child: bool, now: u64) -> ProcessRuntimeInfo {
    ProcessRuntimeInfo {
        pid: Some(pid),
        last_start_time: Some(now),
        stopped_by_supervisor: false,
        is_child_process: is_child,
        ..r
    }
}

/// `n` is `r` after its process ended at `now` with message `msg`.
pub open spec fn stopped(r: ProcessRuntimeInfo, n: ProcessRuntimeInfo, msg: Seq<char>, now: u64) -> bool {
    &&& n.name == r.name
    &&& n.pid is None
    &&& n.is_child_process == r.is_child_process
    &&& n.health == r.health
    &&& n.depends_on == r.depends_on
    &&& n.stopped_by_supervisor == r.stopped_by_supervisor
    &&& n.last_start_time == r.last_start_time
    &&& n.last_stop_time == Some(now)
    &&& n.exit_err matches Some(m) && m@ == msg
}

/// Health of the record named `name`; unknown when there is none.
pub open spec fn health_of(procs: Seq<ProcessRuntimeInfo>, name: Seq<char>) -> Option<bool> {
    match process_index(procs, name, 0) {
        Some(i) => procs[i].health,
        None => None,
    }
}

pub open spec fn healthy(procs: Seq<ProcessRuntimeInfo>, name: Seq<char>) -> bool {
    health_of(procs, name) == Some(true)
}

pub open spec fn deps_healthy(procs: Seq<ProcessRuntimeInfo>, deps: Seq<String>) -> bool {
    forall|k: int| 0 <= k < deps.len() ==> healthy(procs, (#[trigger] deps[k])@)
}

/// Service `name` is registered and all its dependencies are healthy.
pub open spec fn dep_ok(procs: Seq<ProcessRuntimeInfo>, name: Seq<char>) -> bool {
    match process_index(procs, name, 0) {
        Some(i) => deps_healthy(procs, procs[i].depends_on@),
        None => false,
    }
}

} // verus!
