use process_compose::config::{
    analyze_service_dependencies, default_check_interval, default_log_level, default_max_failures,
    default_service_name, default_sys_service_desc, default_sys_service_name, ConfigError,
    ServiceConfig,
};

fn create_service_config(name: &str, depends_on: Vec<&str>) -> ServiceConfig {
    ServiceConfig {
        name: name.to_string(),
        depends_on: Some(depends_on.iter().map(|&s| s.to_string()).collect()),
        log_redirect: false,
        log_pattern: None,
        healthcheck: None,
        start_cmd: vec!["".to_owned()],
    }
}

fn independent(name: &str) -> ServiceConfig {
    ServiceConfig {
        name: name.to_string(),
        depends_on: None,
        log_redirect: false,
        log_pattern: None,
        healthcheck: None,
        start_cmd: vec!["true".to_owned()],
    }
}

#[test]
fn test_analyze_service_dependencies_no_dependencies() {
    let services = vec![
        create_service_config("service1", vec![]),
        create_service_config("service2", vec![]),
    ];
    let result = analyze_service_dependencies(&services).unwrap();
    assert_eq!(result, vec!["service1", "service2"]);
}

#[test]
fn test_analyze_service_dependencies_with_dependencies() {
    let services = vec![
        create_service_config("service1", vec!["service2"]),
        create_service_config("service2", vec!["service3"]),
        create_service_config("service3", vec![]),
    ];
    let result = analyze_service_dependencies(&services).unwrap();
    assert_eq!(result, vec!["service3", "service2", "service1"]);
}

#[test]
fn test_analyze_service_dependencies_with_circular_dependencies() {
    let services = vec![
        create_service_config("service1", vec!["service2"]),
        create_service_config("service2", vec!["service3"]),
        create_service_config("service3", vec!["service1"]),
    ];
    let result = analyze_service_dependencies(&services);
    assert!(result.is_err());
}

#[test]
fn resolver_puts_services_without_depends_on_first() {
    let services = vec![
        create_service_config("c", vec!["b"]),
        independent("a"),
        create_service_config("b", vec!["a"]),
        independent("d"),
    ];
    let result = analyze_service_dependencies(&services).unwrap();
    assert_eq!(result, vec!["a", "d", "b", "c"]);
}

#[test]
fn resolver_handles_chains_deeper_than_five() {
    let names = ["s0", "s1", "s2", "s3", "s4", "s5", "s6", "s7", "s8"];
    // listed last-first so that every round places a single service
    let mut services = Vec::new();
    for k in (1..names.len()).rev() {
        services.push(create_service_config(names[k], vec![names[k - 1]]));
    }
    services.push(independent("s0"));
    let result = analyze_service_dependencies(&services).unwrap();
    assert_eq!(result, names.to_vec());
}

#[test]
fn resolver_output_respects_every_dependency() {
    let services = vec![
        create_service_config("web", vec!["api", "cache"]),
        create_service_config("api", vec!["db"]),
        independent("db"),
        create_service_config("cache", vec![]),
        create_service_config("worker", vec!["db", "cache"]),
    ];
    let order = analyze_service_dependencies(&services).unwrap();
    assert_eq!(order.len(), services.len());
    for s in &services {
        let pos = order.iter().position(|n| *n == s.name).unwrap();
        for d in s.depends_on.clone().unwrap_or_default() {
            let dpos = order.iter().position(|n| *n == d).unwrap();
            assert!(dpos < pos);
        }
    }
}

#[test]
fn resolver_rejects_three_service_cycle() {
    let services = vec![
        create_service_config("s1", vec!["s2"]),
        create_service_config("s2", vec!["s3"]),
        create_service_config("s3", vec!["s1"]),
    ];
    assert_eq!(analyze_service_dependencies(&services), Err(ConfigError::DependencyCycle));
}

#[test]
fn resolver_rejects_self_dependency() {
    let services = vec![independent("a"), create_service_config("b", vec!["b"])];
    assert_eq!(analyze_service_dependencies(&services), Err(ConfigError::DependencyCycle));
}

#[test]
fn resolver_reports_unknown_dependency() {
    let services = vec![create_service_config("a", vec!["missing"])];
    assert_eq!(
        analyze_service_dependencies(&services),
        Err(ConfigError::UnknownDependency {
            service: "a".to_string(),
            dependency: "missing".to_string(),
        })
    );
}

#[test]
fn resolver_accepts_empty_config() {
    let services: Vec<ServiceConfig> = Vec::new();
    assert_eq!(analyze_service_dependencies(&services), Ok(Vec::<String>::new()));
}

#[test]
fn config_defaults() {
    assert_eq!(default_log_level(), "info");
    assert_eq!(default_sys_service_name(), "process-compose");
    assert_eq!(default_sys_service_desc(), "Process Monitoring and Management Tool");
    assert_eq!(default_service_name(), "");
    assert_eq!(default_check_interval(), 5);
    assert_eq!(default_max_failures(), 1);
}
