use process_compose::config::{HealthCheckConfig, HealthCheckType, ServiceConfig};
use process_compose::env::{
    app_data_home_for, default_app_data_home, format_date, is_run_as_service, join_path,
    parse_service_action, redirect_log_file_path, run_mode, spawn_plan, Args, Date, RunMode,
    ServiceAction,
};
use process_compose::event::EventType;
use process_compose::health::{
    command_result, http_result, split_words, tcp_result, HttpAnswer,
    check, check_interval, command_probe, next_watch_step, start_delay, Probe, ProbeError,
    ProbeResult,
};
use process_compose::logger::{change_log_level, LogLevel};
use process_compose::platform::{
    kill_process, raw_pid, signal_target, stop_wait_step, terminate_process, PlatformError,
    StopWait,
};
use process_compose::sys_service::{LinuxSysService, WindowsSysService};

fn http_check(max_failures: i32, start_period: Option<i32>) -> HealthCheckConfig {
    HealthCheckConfig {
        test_type: HealthCheckType::Http,
        test_target: "http://127.0.0.1:1/".to_string(),
        interval: 5,
        max_failures,
        start_period,
    }
}

fn cmd_check(target: &str) -> HealthCheckConfig {
    HealthCheckConfig {
        test_type: HealthCheckType::Cmd,
        test_target: target.to_string(),
        interval: 5,
        max_failures: 1,
        start_period: None,
    }
}

#[test]
fn restart_after_failures_exceed_threshold() {
    let cfg = http_check(1, Some(3));
    let mut failures = 0;
    let tick1 = next_watch_step(&mut failures, ProbeResult::Failure, &cfg);
    assert_eq!(failures, 1);
    assert_eq!(tick1.event, Some(EventType::Unhealthy));
    assert!(!tick1.restart);
    assert_eq!(tick1.sleep_secs, 5);
    let tick2 = next_watch_step(&mut failures, ProbeResult::Failure, &cfg);
    assert_eq!(failures, 2);
    assert_eq!(tick2.event, Some(EventType::Unhealthy));
    assert!(tick2.restart);
    assert_eq!(tick2.sleep_secs, 8);
}

#[test]
fn success_resets_failures() {
    let cfg = http_check(3, None);
    let mut failures = 2;
    let step = next_watch_step(&mut failures, ProbeResult::Success, &cfg);
    assert_eq!(failures, 0);
    assert_eq!(step.event, Some(EventType::Healthy));
    assert!(!step.restart);
}

#[test]
fn failure_count_stops_at_max() {
    let cfg = http_check(i32::MAX, None);
    let mut failures = i32::MAX;
    let step = next_watch_step(&mut failures, ProbeResult::Failure, &cfg);
    assert_eq!(failures, i32::MAX);
    assert!(!step.restart);
}

#[test]
fn interval_below_five_is_clamped() {
    assert_eq!(check_interval(1), 5);
    assert_eq!(check_interval(-3), 5);
    assert_eq!(check_interval(5), 5);
    assert_eq!(check_interval(12), 12);
    let mut cfg = http_check(1, None);
    cfg.interval = 2;
    let mut failures = 0;
    assert_eq!(next_watch_step(&mut failures, ProbeResult::Success, &cfg).sleep_secs, 5);
}

#[test]
fn start_delay_values() {
    assert_eq!(start_delay(None), 0);
    assert_eq!(start_delay(Some(-4)), 0);
    assert_eq!(start_delay(Some(9)), 9);
}

#[test]
fn test_cmd_empty() {
    assert!(check(&cmd_check("")).is_err());
}

#[test]
fn empty_command_probe_is_an_error_that_does_not_count() {
    assert_eq!(check(&cmd_check("   ")).err(), Some(ProbeError::EmptyCommand));
    let cfg = cmd_check("");
    let mut failures = 1;
    for _ in 0..3 {
        let step = next_watch_step(&mut failures, ProbeResult::Error, &cfg);
        assert_eq!(step.event, None);
        assert!(!step.restart);
        assert_eq!(step.sleep_secs, 5);
    }
    assert_eq!(failures, 1);
}

#[test]
fn command_probe_splits_words() {
    match check(&cmd_check("  echo Hello\tWorld ")).unwrap() {
        Probe::Cmd { program, args } => {
            assert_eq!(program, "echo");
            assert_eq!(args, vec!["Hello", "World"]);
        }
        other => panic!("unexpected probe {:?}", other),
    }
    assert_eq!(command_probe(Vec::new()).err(), Some(ProbeError::EmptyCommand));
}

#[test]
fn probe_kinds_follow_test_type() {
    assert!(matches!(check(&http_check(1, None)), Ok(Probe::Http { url }) if url == "http://127.0.0.1:1/"));
    let mut tcp = http_check(1, None);
    tcp.test_type = HealthCheckType::Tcp;
    tcp.test_target = "localhost:80".to_string();
    assert!(matches!(check(&tcp), Ok(Probe::Tcp { address }) if address == "localhost:80"));
    tcp.test_type = HealthCheckType::Proccess;
    assert!(matches!(check(&tcp), Ok(Probe::Process)));
}

#[test]
fn health_check_type_names() {
    assert_eq!(HealthCheckType::from_str("http"), HealthCheckType::Http);
    assert_eq!(HealthCheckType::from_str("tcp"), HealthCheckType::Tcp);
    assert_eq!(HealthCheckType::from_str("cmd"), HealthCheckType::Cmd);
    assert_eq!(HealthCheckType::from_str("process"), HealthCheckType::Proccess);
    assert_eq!(HealthCheckType::from_str("HTTP"), HealthCheckType::Proccess);
}

#[test]
fn log_levels() {
    assert_eq!(change_log_level(""), Some(LogLevel::Info));
    assert_eq!(change_log_level("debug"), Some(LogLevel::Debug));
    assert_eq!(change_log_level("WaRn"), Some(LogLevel::Warn));
    assert_eq!(change_log_level("off"), Some(LogLevel::Off));
    assert_eq!(change_log_level("trace"), Some(LogLevel::Trace));
    assert_eq!(change_log_level("verbose"), None);
}

#[test]
fn signals_to_group_leaders_go_to_the_group() {
    assert_eq!(signal_target(42, 42), -42);
    assert_eq!(signal_target(42, 7), 42);
    assert_eq!(raw_pid(17), Ok(17));
    assert_eq!(raw_pid(u32::MAX), Err(PlatformError::PidOutOfRange));
    assert_eq!(terminate_process(u32::MAX), Err(PlatformError::PidOutOfRange));
    assert_eq!(kill_process(3_000_000_000), Err(PlatformError::PidOutOfRange));
}

#[test]
fn signalling_a_missing_process_fails() {
    assert!(matches!(terminate_process(4_000_000), Err(PlatformError::Os { .. })));
}

#[test]
fn stop_waits_two_seconds_then_kills() {
    assert_eq!(stop_wait_step(false, 0), StopWait::Done);
    assert_eq!(stop_wait_step(true, 0), StopWait::Poll { millis: 200 });
    assert_eq!(stop_wait_step(true, 2000), StopWait::Poll { millis: 200 });
    assert_eq!(stop_wait_step(true, 2001), StopWait::Kill);
    assert_eq!(stop_wait_step(false, 5000), StopWait::Done);
}

#[test]
fn dates_and_log_file_names() {
    assert_eq!(format_date(Date { year: 2024, month: 3, day: 7 }), "20240307");
    assert_eq!(format_date(Date { year: 1999, month: 12, day: 31 }), "19991231");
    assert_eq!(
        redirect_log_file_path("/data/web/logs", "out", Date { year: 2024, month: 11, day: 2 }),
        "/data/web/logs/out_20241102.log"
    );
}

#[test]
fn data_home_defaults() {
    assert_eq!(app_data_home_for(None), "./.process-compose");
    assert_eq!(app_data_home_for(Some("/home/u".to_string())), "/home/u/.process-compose");
    assert!(default_app_data_home().ends_with("/.process-compose"));
    assert_eq!(join_path("a", "b"), "a/b");
}

fn svc(cmd: Vec<&str>, log_redirect: bool) -> ServiceConfig {
    ServiceConfig {
        name: "web".to_string(),
        log_redirect,
        log_pattern: None,
        healthcheck: None,
        start_cmd: cmd.iter().map(|s| s.to_string()).collect(),
        depends_on: None,
    }
}

#[test]
fn spawn_plans() {
    let p = spawn_plan("/opt/pc", &svc(vec!["./bin/server", "--port", "80"], true)).unwrap();
    assert_eq!(p.program, "/opt/pc/web/bin/server");
    assert_eq!(p.args, vec!["--port", "80"]);
    assert_eq!(p.current_dir.as_deref(), Some("/opt/pc/web"));
    assert!(p.log_redirect);
    let p = spawn_plan("/opt/pc", &svc(vec!["sleep", "10"], false)).unwrap();
    assert_eq!(p.program, "sleep");
    assert_eq!(p.current_dir, None);
    assert!(!p.log_redirect);
    let p = spawn_plan("/opt/pc", &svc(vec!["/usr/bin/env"], false)).unwrap();
    assert_eq!(p.current_dir.as_deref(), Some("/opt/pc/web"));
    assert!(p.args.is_empty());
    assert!(spawn_plan("/opt/pc", &svc(vec![], false)).is_none());
}

#[test]
fn command_line_modes() {
    let args = |a: Option<&str>, s: bool| Args { service_action: a.map(|x| x.to_string()), run_as_service: s };
    assert_eq!(run_mode(&args(None, false)), RunMode::Foreground);
    assert_eq!(run_mode(&args(None, true)), RunMode::AsService);
    assert!(is_run_as_service(&args(None, true)));
    assert_eq!(run_mode(&args(Some("install"), true)), RunMode::Control { action: Some(ServiceAction::Install) });
    assert_eq!(run_mode(&args(Some("bogus"), false)), RunMode::Control { action: None });
    assert_eq!(parse_service_action("uninstall"), Some(ServiceAction::Uninstall));
    assert_eq!(parse_service_action("start"), Some(ServiceAction::Start));
    assert_eq!(parse_service_action("stop"), Some(ServiceAction::Stop));
    let _ = LinuxSysService::new();
    let _ = WindowsSysService::new();
}

#[test]
fn probe_outcomes() {
    assert_eq!(http_result(HttpAnswer::Status { code: 200 }), ProbeResult::Success);
    assert_eq!(http_result(HttpAnswer::Status { code: 299 }), ProbeResult::Success);
    assert_eq!(http_result(HttpAnswer::Status { code: 300 }), ProbeResult::Failure);
    assert_eq!(http_result(HttpAnswer::Status { code: 503 }), ProbeResult::Failure);
    assert_eq!(http_result(HttpAnswer::NoResponse), ProbeResult::Failure);
    assert_eq!(http_result(HttpAnswer::BadRequest), ProbeResult::Error);
    assert_eq!(tcp_result(false, false), ProbeResult::Error);
    assert_eq!(tcp_result(true, false), ProbeResult::Failure);
    assert_eq!(tcp_result(true, true), ProbeResult::Success);
    assert_eq!(command_result(None), ProbeResult::Error);
    assert_eq!(command_result(Some(true)), ProbeResult::Success);
    assert_eq!(command_result(Some(false)), ProbeResult::Failure);
}

#[test]
fn refused_http_probe_leads_to_restart() {
    let cfg = http_check(1, Some(0));
    let mut failures = 0;
    let tick1 = next_watch_step(&mut failures, http_result(HttpAnswer::NoResponse), &cfg);
    assert!(!tick1.restart);
    let tick2 = next_watch_step(&mut failures, http_result(HttpAnswer::NoResponse), &cfg);
    assert!(tick2.restart);
    assert_eq!(failures, 2);
}

#[test]
fn words_of_command_lines() {
    assert!(split_words("").is_empty());
    assert!(split_words(" \t\n").is_empty());
    assert_eq!(split_words("a"), vec!["a"]);
    assert_eq!(split_words("  ls  -l\t/tmp \n"), vec!["ls", "-l", "/tmp"]);
    assert_eq!(split_words("x\u{3000}y\u{a0}z"), vec!["x", "y", "z"]);
    assert_eq!(split_words("héllo wörld"), vec!["héllo", "wörld"]);
}
