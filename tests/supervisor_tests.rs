use process_compose::config::{
    analyze_service_dependencies, ConfigError, GlobalConfig, HealthCheckConfig, HealthCheckType,
    ServiceConfig,
};
use process_compose::event::{EventType, ProcessEvent};
use process_compose::manager::{Command, StartAction, StopAction};
use process_compose::status::{RecordedPid, Supervisor, SupervisorError};

fn process_check() -> HealthCheckConfig {
    HealthCheckConfig {
        test_type: HealthCheckType::Proccess,
        test_target: String::new(),
        interval: 5,
        max_failures: 1,
        start_period: Some(0),
    }
}

fn service(name: &str, deps: Option<Vec<&str>>, check: bool) -> ServiceConfig {
    ServiceConfig {
        name: name.to_string(),
        log_redirect: false,
        log_pattern: None,
        healthcheck: if check { Some(process_check()) } else { None },
        start_cmd: vec!["sleep".to_string(), "100".to_string()],
        depends_on: deps.map(|d| d.iter().map(|s| s.to_string()).collect()),
    }
}

fn global(services: Vec<ServiceConfig>) -> GlobalConfig {
    GlobalConfig {
        log_level: "info".to_string(),
        app_data_home: "/app/data".to_string(),
        sys_service_name: "process-compose".to_string(),
        sys_service_desc: String::new(),
        services,
        api: None,
    }
}

fn chain_supervisor() -> Supervisor {
    let config = global(vec![
        service("a", None, true),
        service("b", Some(vec!["a"]), true),
        service("c", Some(vec!["b"]), true),
    ]);
    let order = analyze_service_dependencies(&config.services).unwrap();
    let mut sup = Supervisor::new(config);
    sup.init_processes(&order, &Vec::new(), 100).unwrap();
    sup
}

fn event(name: &str, t: EventType, pid: Option<u32>) -> ProcessEvent {
    ProcessEvent { service_name: name.to_string(), pid, event_type: t, data: None }
}

fn spawned_names(cmds: &[Command]) -> Vec<String> {
    cmds.iter()
        .filter_map(|c| match c {
            Command::Spawn { name } => Some(name.clone()),
            _ => None,
        })
        .collect()
}

// a PID that no process has
const DEAD_PID: u32 = 4_000_000;

#[test]
fn linear_chain_starts_in_dependency_order() {
    let mut sup = chain_supervisor();
    let all = sup.get_all_process_name();
    assert_eq!(all, vec!["a", "b", "c"]);
    let spawns = sup.start_services(&all);
    assert_eq!(spawns, vec!["a"]);
    let pending: Vec<&str> = sup.pending.iter().map(|p| p.name.as_str()).collect();
    assert_eq!(pending, vec!["b", "c"]);

    sup.update_proc_to_started("a", DEAD_PID, true, 101).unwrap();
    let events = sup.take_events();
    assert_eq!(events.len(), 1);
    assert_eq!(events[0].event_type, EventType::Running);
    let cmds = sup.handle_process_event(&events[0]);
    assert!(matches!(&cmds[..], [Command::StartWatcher { name }] if name == "a"));

    let cmds = sup.handle_process_event(&event("a", EventType::Healthy, None));
    assert_eq!(spawned_names(&cmds), vec!["b"]);
    let pending: Vec<&str> = sup.pending.iter().map(|p| p.name.as_str()).collect();
    assert_eq!(pending, vec!["c"]);

    sup.update_proc_to_started("b", DEAD_PID - 1, true, 102).unwrap();
    let cmds = sup.handle_process_event(&event("b", EventType::Healthy, None));
    assert_eq!(spawned_names(&cmds), vec!["c"]);
    assert!(sup.pending.is_empty());
}

#[test]
fn cycle_rejected_before_registry_changes() {
    let config = global(vec![
        service("s1", Some(vec!["s2"]), false),
        service("s2", Some(vec!["s3"]), false),
        service("s3", Some(vec!["s1"]), false),
    ]);
    assert_eq!(analyze_service_dependencies(&config.services), Err(ConfigError::DependencyCycle));
    let sup = Supervisor::new(config);
    assert!(sup.processes.is_empty());
}

#[test]
fn start_of_live_recorded_process_emits_running_without_spawn() {
    let me: u32 = 1; // init: always alive
    let config = global(vec![service("svc", None, false)]);
    let mut sup = Supervisor::new(config);
    let recorded = vec![RecordedPid { name: "svc".to_string(), pid: me }];
    sup.init_processes(&vec!["svc".to_string()], &recorded, 7).unwrap();
    let rec = sup.find_readonly_proc_runtime("svc").unwrap();
    assert_eq!(rec.pid, Some(me));
    assert!(!rec.is_child_process);
    assert_eq!(rec.last_start_time, Some(7));

    assert_eq!(sup.start_service("svc"), Ok(StartAction::AlreadyRunning));
    let events = sup.take_events();
    assert_eq!(events.len(), 1);
    assert_eq!(events[0].event_type, EventType::Running);
    assert_eq!(events[0].pid, Some(me));
    assert_eq!(sup.start_service_given("svc", true), Ok(StartAction::AlreadyRunning));
}

#[test]
fn dead_recorded_pid_is_not_adopted() {
    let config = global(vec![service("svc", None, false)]);
    let mut sup = Supervisor::new(config);
    let recorded = vec![RecordedPid { name: "svc".to_string(), pid: DEAD_PID }];
    sup.init_processes(&vec!["svc".to_string()], &recorded, 7).unwrap();
    let rec = sup.find_readonly_proc_runtime("svc").unwrap();
    assert_eq!(rec.pid, None);
    assert!(rec.is_child_process);
    assert_eq!(sup.start_service("svc"), Ok(StartAction::Spawn));
}

#[test]
fn adopted_process_is_still_terminated_by_stop() {
    let me: u32 = 1; // init: always alive
    let config = global(vec![service("svc", None, false)]);
    let mut sup = Supervisor::new(config);
    let recorded = vec![RecordedPid { name: "svc".to_string(), pid: me }];
    sup.init_processes(&vec!["svc".to_string()], &recorded, 7).unwrap();
    assert_eq!(sup.stop_service("svc"), Ok(StopAction::Terminate { pid: me }));
    assert!(sup.processes[0].stopped_by_supervisor);
}

#[test]
fn orderly_shutdown_stops_each_service_in_order() {
    let mut sup = chain_supervisor();
    for (k, n) in ["a", "b", "c"].iter().enumerate() {
        sup.update_proc_to_started(n, 500 + k as u32, true, 1).unwrap();
        let _ = sup.handle_process_event(&event(n, EventType::Running, Some(500 + k as u32)));
    }
    sup.take_events();
    assert!(sup.is_watching("a") && sup.is_watching("b") && sup.is_watching("c"));
    let names = sup.get_all_process_name();
    let mut order = Vec::new();
    for n in &names {
        match sup.stop_service_given(n, true).unwrap() {
            StopAction::Terminate { pid } => order.push(pid),
            StopAction::NotRunning => panic!("service should be running"),
        }
    }
    assert_eq!(order, vec![500, 501, 502]);
    for (k, n) in names.iter().enumerate() {
        sup.update_proc_to_stopped(n, "exit code: 0", 500 + k as u32, 9).unwrap();
    }
    let events = sup.take_events();
    assert_eq!(events.len(), 3);
    for (k, e) in events.iter().enumerate() {
        assert_eq!(e.event_type, EventType::Stopped);
        assert_eq!(e.service_name, names[k]);
        let _ = sup.handle_process_event(e);
    }
    assert!(!sup.is_watching("a") && !sup.is_watching("b") && !sup.is_watching("c"));
    for r in &sup.processes {
        assert_eq!(r.pid, None);
        assert_eq!(r.last_stop_time, Some(9));
    }
}

#[test]
fn stop_services_collects_pids_and_stops_at_unknown_name() {
    let mut sup = chain_supervisor();
    sup.update_proc_to_started("a", DEAD_PID, true, 1).unwrap();
    let names = vec!["a".to_string(), "nope".to_string(), "b".to_string()];
    let (pids, result) = sup.stop_services(&names);
    assert!(pids.is_empty());
    assert_eq!(result, Err(SupervisorError::UnknownService { name: "nope".to_string() }));
    assert!(sup.processes[0].stopped_by_supervisor);
}

#[test]
fn spontaneous_exit_reports_exited_with_code() {
    let mut sup = chain_supervisor();
    sup.update_proc_to_started("a", 321, true, 1).unwrap();
    sup.take_events();
    sup.update_proc_to_stopped("a", "exit code: 7", 321, 2).unwrap();
    let events = sup.take_events();
    assert_eq!(events.len(), 1);
    assert_eq!(events[0].event_type, EventType::Exited);
    assert_eq!(events[0].data.as_deref(), Some("exit code: 7"));
    assert_eq!(events[0].pid, Some(321));
    let rec = sup.find_readonly_proc_runtime("a").unwrap();
    assert_eq!(rec.pid, None);
    assert_eq!(rec.exit_err.as_deref(), Some("exit code: 7"));
    // the liveness probe now fails
    assert!(!sup.test_with_process("a"));
}

#[test]
fn stop_twice_is_stop_once() {
    let mut sup = chain_supervisor();
    sup.update_proc_to_started("a", 77, true, 1).unwrap();
    assert_eq!(sup.stop_service_given("a", true), Ok(StopAction::Terminate { pid: 77 }));
    assert!(sup.processes[0].stopped_by_supervisor);
    sup.update_proc_to_stopped("a", "exit code: 0", 77, 2).unwrap();
    let events = sup.take_events();
    assert_eq!(events.last().unwrap().event_type, EventType::Stopped);
    assert_eq!(sup.stop_service("a"), Ok(StopAction::NotRunning));
    assert_eq!(sup.stop_service("a"), Ok(StopAction::NotRunning));
    assert!(sup.take_events().is_empty());
}

#[test]
fn restart_of_running_service_stops_it_first() {
    let mut sup = chain_supervisor();
    sup.update_proc_to_started("a", 88, true, 1).unwrap();
    assert_eq!(sup.restart_service_given("a", true), Ok(StopAction::Terminate { pid: 88 }));
    assert!(sup.processes[0].stopped_by_supervisor);
    sup.update_proc_to_stopped("a", "exit code: 0", 88, 2).unwrap();
    assert_eq!(sup.start_service("a"), Ok(StartAction::Spawn));
    sup.update_proc_to_started("a", 89, true, 3).unwrap();
    assert!(!sup.processes[0].stopped_by_supervisor);
    let kinds: Vec<EventType> = sup.take_events().iter().map(|e| e.event_type).collect();
    assert_eq!(kinds, vec![EventType::Running, EventType::Stopped, EventType::Running]);
}

#[test]
fn restart_of_stopped_service_only_starts() {
    let mut sup = chain_supervisor();
    assert_eq!(sup.restart_service("a"), Ok(StopAction::NotRunning));
    assert!(!sup.processes[0].stopped_by_supervisor);
    assert!(sup.restart_service("zzz").is_err());
}

#[test]
fn health_status_and_dependency_check() {
    let mut sup = chain_supervisor();
    assert_eq!(sup.is_heathy("a"), None);
    assert!(!sup.check_dep_ok("b"));
    assert!(sup.check_dep_ok("a"));
    sup.change_proc_health_status("a", true).unwrap();
    assert_eq!(sup.is_heathy("a"), Some(true));
    assert!(sup.check_dep_ok("b"));
    let _ = sup.handle_process_event(&event("a", EventType::Unhealthy, None));
    assert_eq!(sup.is_heathy("a"), Some(false));
    assert!(!sup.check_dep_ok("b"));
    assert!(sup.change_proc_health_status("zzz", true).is_err());
    assert!(!sup.check_dep_ok("zzz"));
    assert_eq!(sup.is_heathy("zzz"), None);
}

#[test]
fn init_processes_errors() {
    let config = global(vec![service("a", None, false)]);
    let mut sup = Supervisor::new(config);
    assert_eq!(
        sup.init_processes(&vec!["a".to_string(), "b".to_string()], &Vec::new(), 0),
        Err(ConfigError::ServiceNotFound { name: "b".to_string() })
    );
    assert_eq!(
        sup.init_processes(&vec!["a".to_string(), "a".to_string()], &Vec::new(), 0),
        Err(ConfigError::DuplicateService { name: "a".to_string() })
    );
    assert!(sup.processes.is_empty());
    assert_eq!(
        sup.find_readonly_proc_runtime("a").err(),
        Some(SupervisorError::UnknownService { name: "a".to_string() })
    );
}

#[test]
fn pending_queue_add_find_remove() {
    let mut sup = chain_supervisor();
    sup.add_pending_service("b", vec!["a".to_string()]);
    sup.add_pending_service("c", vec!["b".to_string()]);
    assert_eq!(sup.find_readonly_pending_info("c").unwrap().depends, vec!["b"]);
    sup.remove_pending_service("b");
    assert!(sup.find_readonly_pending_info("b").is_none());
    assert_eq!(sup.pending.len(), 1);
}

#[test]
fn watcher_only_for_services_with_health_checks() {
    let config = global(vec![service("plain", None, false), service("checked", None, true)]);
    let mut sup = Supervisor::new(config);
    assert!(!sup.start_watch("plain"));
    assert!(sup.start_watch("checked"));
    assert!(!sup.start_watch("checked"));
    assert!(sup.is_watching("checked"));
    sup.stop_watch("checked");
    assert!(!sup.is_watching("checked"));
}

#[test]
fn find_service_config_and_paths() {
    let sup = chain_supervisor();
    assert_eq!(sup.find_service_config("b").unwrap().name, "b");
    assert!(sup.find_service_config("x").is_none());
    assert_eq!(sup.current_config().app_data_home, "/app/data");
    assert_eq!(sup.get_service_home("a"), "/app/data/a");
    assert_eq!(sup.get_service_log_dir("a"), "/app/data/a/logs");
    assert_eq!(sup.get_service_data_dir("a"), "/app/data/a/data");
    assert_eq!(sup.get_pid_file("a"), "/app/data/a/pid");
}

#[test]
fn send_and_take_events_keep_order() {
    let mut sup = chain_supervisor();
    sup.send_process_event("a", EventType::Healthy, None, None);
    sup.send_process_event("b", EventType::Exited, Some("boom".to_string()), Some(3));
    let events = sup.take_events();
    assert_eq!(events.len(), 2);
    assert_eq!(events[0].service_name, "a");
    assert_eq!(events[1].data.as_deref(), Some("boom"));
    assert!(sup.take_events().is_empty());
}

#[test]
fn stop_without_pid_still_marks_the_service() {
    let mut sup = chain_supervisor();
    assert_eq!(sup.stop_service("a"), Ok(StopAction::NotRunning));
    assert!(sup.processes[0].stopped_by_supervisor);
    assert!(!sup.processes[1].stopped_by_supervisor);
    assert_eq!(sup.stop_service_given("b", true), Ok(StopAction::NotRunning));
    assert!(sup.processes[1].stopped_by_supervisor);
}

#[test]
fn stop_services_returns_live_pids_in_name_order() {
    let mut sup = chain_supervisor();
    sup.update_proc_to_started("a", 10, true, 1).unwrap();
    sup.update_proc_to_started("c", 30, true, 1).unwrap();
    let names = vec!["c".to_string(), "b".to_string(), "a".to_string()];
    let (pids, result) = sup.stop_services_given(&names, &vec![true, true, true]);
    assert_eq!(result, Ok(()));
    assert_eq!(pids, vec![30, 10]);
    assert!(sup.processes.iter().all(|r| r.stopped_by_supervisor));

    let mut sup = chain_supervisor();
    sup.update_proc_to_started("a", 10, true, 1).unwrap();
    sup.update_proc_to_started("b", 20, true, 1).unwrap();
    let names = vec!["a".to_string(), "b".to_string(), "x".to_string(), "c".to_string()];
    let (pids, result) = sup.stop_services_given(&names, &vec![false, true]);
    assert_eq!(pids, vec![20]);
    assert_eq!(result, Err(SupervisorError::UnknownService { name: "x".to_string() }));
    assert!(sup.processes[0].stopped_by_supervisor && sup.processes[1].stopped_by_supervisor);
    assert!(!sup.processes[2].stopped_by_supervisor);
}

#[test]
fn pending_scan_starts_only_ready_entries() {
    let mut sup = chain_supervisor();
    let all = sup.get_all_process_name();
    sup.start_services(&all);
    sup.change_proc_health_status("a", true).unwrap();
    let spawns = sup.try_start_pending_service();
    assert_eq!(spawns, vec!["b"]);
    assert_eq!(sup.pending.len(), 1);
    assert_eq!(sup.pending[0].name, "c");
    assert!(sup.try_start_pending_service().is_empty());
    sup.change_proc_health_status("b", true).unwrap();
    assert_eq!(sup.try_start_pending_service(), vec!["c"]);
    assert!(sup.pending.is_empty());
}

#[test]
fn ready_service_with_live_pid_gets_running_instead_of_spawn() {
    let config = global(vec![service("svc", None, false)]);
    let mut sup = Supervisor::new(config);
    let recorded = vec![RecordedPid { name: "svc".to_string(), pid: 1 }];
    sup.init_processes(&vec!["svc".to_string()], &recorded, 7).unwrap();
    let spawns = sup.start_services(&vec!["svc".to_string(), "ghost".to_string()]);
    assert!(spawns.is_empty());
    let events = sup.take_events();
    assert_eq!(events.len(), 1);
    assert_eq!(events[0].event_type, EventType::Running);
    assert_eq!(events[0].pid, Some(1));
}
