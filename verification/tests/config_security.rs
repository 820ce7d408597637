use turbine::ContainerConfig;
use turbine::PortMapping;
use turbine::ResourceLimits;
use turbine::RestartPolicy;
use turbine::SecurityManager;
use turbine::TurbineError;
use turbine::VolumeMount;
use turbine::env_get;
use turbine::env_set;

fn base_config(name: &str, image: &str) -> ContainerConfig {
    let mut config = ContainerConfig::default();
    config.name = name.to_string();
    config.image = image.to_string();
    config
}

#[test]
fn default_config_fields() {
    let config = ContainerConfig::default();
    assert_eq!(config.name, "");
    assert_eq!(config.image, "");
    assert_eq!(config.command, vec!["/bin/sh".to_string()]);
    assert_eq!(config.working_dir.as_deref(), Some("/app"));
    assert!(config.environment.is_empty());
    assert!(config.ports.is_empty());
    assert!(config.volumes.is_empty());
    assert_eq!(config.resources.memory_mb, Some(512));
    assert_eq!(config.resources.cpu_quota_milli, Some(1000));
    assert_eq!(config.resources.disk_mb, Some(1024));
    assert_eq!(config.resources.max_processes, Some(256));
    assert_eq!(config.network.dns, vec!["8.8.8.8".to_string(), "8.8.4.4".to_string()]);
    assert!(matches!(config.restart_policy, RestartPolicy::Never));
}

#[test]
fn validate_rejects_empty_name() {
    let config = base_config("", "/img");
    let err = config.validate().unwrap_err();
    assert!(matches!(err, TurbineError::ConfigError(_)));
    assert_eq!(err.message(), "Container name cannot be empty");
}

#[test]
fn validate_rejects_empty_image() {
    let config = base_config("web", "");
    let err = config.validate().unwrap_err();
    assert_eq!(err.message(), "Container image cannot be empty");
}

#[test]
fn validate_rejects_zero_port() {
    let mut config = base_config("web", "/img");
    config.ports.push(PortMapping { host_port: 0, container_port: 80, protocol: "tcp".to_string() });
    let err = config.validate().unwrap_err();
    assert_eq!(err.message(), "Invalid port mapping");
}

#[test]
fn validate_rejects_uid_zero_with_other_user() {
    let mut config = base_config("web", "/img");
    config.set_user("alice".to_string(), Some(0), Some(0));
    let err = config.validate().unwrap_err();
    assert_eq!(err.message(), "UID 0 should only be used with user 'root'");
}

#[test]
fn validate_rejects_uid_zero_without_user() {
    let mut config = base_config("web", "/img");
    config.uid = Some(0);
    let err = config.validate().unwrap_err();
    assert_eq!(err.message(), "UID 0 should only be used with user 'root'");
}

#[test]
fn validate_accepts_uid_zero_with_root_user() {
    let mut config = base_config("web", "/img");
    config.set_root_user();
    assert!(config.validate().is_ok());
}

#[test]
fn validate_rejects_missing_volume_host_path() {
    let mut config = base_config("web", "/img");
    config.volumes.push(VolumeMount {
        host_path: "/definitely/not/a/path/anywhere".to_string(),
        container_path: "/data".to_string(),
        readonly: true,
    });
    let err = config.validate().unwrap_err();
    assert!(matches!(err, TurbineError::ConfigError(_)));
    assert!(err.message().starts_with("Host path does not exist: "));
}

#[test]
fn set_web_defaults_fills_ports_and_environment() {
    let mut config = base_config("web", "/img");
    config.set_web_defaults(3000);
    assert_eq!(config.ports.len(), 1);
    assert_eq!(config.ports[0].host_port, 3000);
    assert_eq!(config.ports[0].container_port, 8080);
    assert_eq!(config.ports[0].protocol, "tcp");
    assert_eq!(env_get(&config.environment, "PORT").as_deref(), Some("8080"));
    assert_eq!(env_get(&config.environment, "NODE_ENV").as_deref(), Some("production"));
    assert!(matches!(config.restart_policy, RestartPolicy::Always));
    assert_eq!(config.resources.memory_mb, Some(512));
    assert_eq!(config.resources.cpu_quota_milli, Some(1000));
}

#[test]
fn set_web_defaults_fills_missing_limits() {
    let mut config = base_config("web", "/img");
    config.resources.memory_mb = None;
    config.resources.cpu_quota_milli = None;
    config.set_web_defaults(3000);
    assert_eq!(config.resources.memory_mb, Some(256));
    assert_eq!(config.resources.cpu_quota_milli, Some(500));
}

#[test]
fn set_nobody_user_sets_conventional_ids() {
    let mut config = base_config("web", "/img");
    config.add_groups(vec![7, 3]);
    config.set_nobody_user();
    assert_eq!(config.user.as_deref(), Some("nobody"));
    assert_eq!(config.uid, Some(65534));
    assert_eq!(config.gid, Some(65534));
    assert!(config.groups.is_none());
}

#[test]
fn add_groups_merges_sorted_and_unique() {
    let mut config = base_config("web", "/img");
    config.add_groups(vec![5, 2, 5]);
    assert_eq!(config.groups.as_deref(), Some(&[2, 5][..]));
    config.add_groups(vec![2, 9, 1]);
    assert_eq!(config.groups.as_deref(), Some(&[1, 2, 5, 9][..]));
}

#[test]
fn env_set_replaces_existing_key() {
    let mut env: Vec<(String, String)> = Vec::new();
    env_set(&mut env, "HOME", "/root");
    env_set(&mut env, "TERM", "xterm");
    env_set(&mut env, "HOME", "/app");
    assert_eq!(env_get(&env, "HOME").as_deref(), Some("/app"));
    assert_eq!(env_get(&env, "TERM").as_deref(), Some("xterm"));
    assert_eq!(env.len(), 2);
}

#[test]
fn sanitize_environment_drops_poisoned_loader_vars() {
    let manager = SecurityManager::new_rootless();
    let mut env: Vec<(String, String)> = Vec::new();
    env_set(&mut env, "LD_PRELOAD", "/etc/evil.so");
    env_set(&mut env, "LD_LIBRARY_PATH", "/opt/safe/lib");
    env_set(&mut env, "PATH", "/usr/bin");
    manager.sanitize_environment(&mut env).unwrap();
    assert!(env_get(&env, "LD_PRELOAD").is_none());
    assert_eq!(env_get(&env, "LD_LIBRARY_PATH").as_deref(), Some("/opt/safe/lib"));
    assert_eq!(env_get(&env, "PATH").as_deref(), Some("/usr/bin"));
    assert_eq!(env_get(&env, "TURBINE_CONTAINER").as_deref(), Some("true"));
    assert_eq!(env_get(&env, "TURBINE_ROOTLESS").as_deref(), Some("true"));
    assert_eq!(env_get(&env, "HOME").as_deref(), Some("/app"));
}

#[test]
fn sanitize_environment_overrides_previous_home() {
    let manager = SecurityManager::new_rootless();
    let mut env: Vec<(String, String)> = Vec::new();
    env_set(&mut env, "HOME", "/root");
    manager.sanitize_environment(&mut env).unwrap();
    assert_eq!(env_get(&env, "HOME").as_deref(), Some("/app"));
    assert_eq!(env.len(), 3);
}

#[test]
fn validate_image_security_rejects_traversal() {
    let manager = SecurityManager::new_rootless();
    let err = manager.validate_image_security("/images/../etc").unwrap_err();
    assert_eq!(err.message(), "Image path contains directory traversal");
}

#[test]
fn validate_image_security_rejects_bare_relative() {
    let manager = SecurityManager::new_rootless();
    let err = manager.validate_image_security("images/web").unwrap_err();
    assert_eq!(err.message(), "Image path must be absolute or relative to current directory");
    assert!(manager.validate_image_security("./images/web").is_ok());
    assert!(manager.validate_image_security("/images/web").is_ok());
}

#[test]
fn validate_resource_limits_enforces_ceilings() {
    let manager = SecurityManager::new_rootless();
    let mut limits = ResourceLimits::default();
    assert!(manager.validate_resource_limits(&limits).is_ok());
    limits.memory_mb = Some(4096);
    let err = manager.validate_resource_limits(&limits).unwrap_err();
    assert_eq!(err.message(), "Memory limit cannot exceed 2GB in rootless mode");
    limits.memory_mb = Some(2048);
    limits.cpu_quota_milli = Some(1500);
    let err = manager.validate_resource_limits(&limits).unwrap_err();
    assert_eq!(err.message(), "CPU quota cannot exceed 1.0 in rootless mode");
    limits.cpu_quota_milli = Some(1000);
    limits.max_processes = Some(1024);
    let err = manager.validate_resource_limits(&limits).unwrap_err();
    assert_eq!(err.message(), "Process limit cannot exceed 512 in rootless mode");
}

#[test]
fn validate_volumes_rejects_restricted_prefix() {
    let manager = SecurityManager::new_rootless();
    let volumes = vec![VolumeMount {
        host_path: "/etc/passwd".to_string(),
        container_path: "/data".to_string(),
        readonly: true,
    }];
    let err = manager.validate_volumes(&volumes).unwrap_err();
    assert!(matches!(err, TurbineError::SecurityError(_)));
    assert_eq!(err.message(), "Access to path '/etc/passwd' is restricted");
}

#[test]
fn validate_volumes_accepts_tmp() {
    let manager = SecurityManager::new_rootless();
    let volumes = vec![VolumeMount {
        host_path: "/tmp".to_string(),
        container_path: "/data".to_string(),
        readonly: false,
    }];
    assert!(manager.validate_volumes(&volumes).is_ok());
}

#[test]
fn validate_volumes_rejects_missing_path() {
    let manager = SecurityManager::new_rootless();
    let volumes = vec![VolumeMount {
        host_path: "/definitely/not/a/path/anywhere".to_string(),
        container_path: "/data".to_string(),
        readonly: true,
    }];
    let err = manager.validate_volumes(&volumes).unwrap_err();
    assert_eq!(err.message(), "Host path '/definitely/not/a/path/anywhere' does not exist");
}

#[test]
fn validate_user_traditional_rejects_root() {
    let manager = SecurityManager::new();
    let err = manager.validate_user_traditional(&Some("root".to_string())).unwrap_err();
    assert_eq!(err.message(), "Running containers as root is not allowed");
    let err = manager.validate_user_traditional(&Some("alice".to_string())).unwrap_err();
    assert_eq!(err.message(), "User 'alice' is not allowed to run containers");
    assert!(manager.validate_user_traditional(&Some("turbine".to_string())).is_ok());
    assert!(manager.validate_user_traditional(&None).is_ok());
}

#[test]
fn is_system_path_covers_the_usual_trees() {
    let manager = SecurityManager::new_rootless();
    assert!(manager.is_system_path("/etc/hosts"));
    assert!(manager.is_system_path("/usr/lib/libc.so"));
    assert!(manager.is_system_path("/boot/vmlinuz"));
    assert!(!manager.is_system_path("/home/user"));
    assert!(!manager.is_system_path("relative"));
}

#[test]
fn resource_limit_plan_triples() {
    let manager = SecurityManager::new_rootless();
    let limits = ResourceLimits::default();
    let plan = manager.resource_limit_plan(&limits);
    assert_eq!(
        plan,
        vec![
            (turbine::LimitKind::AddressSpace, 512 * 1024 * 1024),
            (turbine::LimitKind::ProcessCount, 256),
            (turbine::LimitKind::FileSize, 1024 * 1024 * 1024),
        ]
    );
    let empty = ResourceLimits {
        memory_mb: None,
        cpu_quota_milli: None,
        disk_mb: None,
        max_processes: None,
    };
    assert!(manager.resource_limit_plan(&empty).is_empty());
    assert!(manager.apply_resource_limits(&empty).is_ok());
}

#[test]
fn uid_gid_mapping_writes_in_kernel_order() {
    let manager = SecurityManager::new_rootless();
    let writes = manager.uid_gid_mapping_writes(4242, 1000, 1000, 1000, 1000);
    assert_eq!(writes.len(), 3);
    assert_eq!(writes[0].0, "/proc/4242/uid_map");
    assert_eq!(writes[0].1, "1000 1000 1");
    assert_eq!(writes[1].0, "/proc/4242/setgroups");
    assert_eq!(writes[1].1, "deny");
    assert_eq!(writes[2].0, "/proc/4242/gid_map");
    assert_eq!(writes[2].1, "1000 1000 1");
}

#[test]
fn user_namespace_support_decision() {
    let manager = SecurityManager::new_rootless();
    let err = manager.user_namespace_supported(false, &None).unwrap_err();
    assert_eq!(err.message(), "User namespaces not supported by kernel");
    assert!(manager.user_namespace_supported(true, &None).is_ok());
    assert!(manager.user_namespace_supported(true, &Some("1\n".to_string())).is_ok());
    let err = manager.user_namespace_supported(true, &Some(" 0\n".to_string())).unwrap_err();
    assert!(matches!(err, TurbineError::SecurityError(_)));
}

#[test]
fn proc_file_parsing() {
    assert_eq!(turbine::parse_u64("0"), Some(0));
    assert_eq!(turbine::parse_u64("18446744073709551615"), Some(u64::MAX));
    assert_eq!(turbine::parse_u64("18446744073709551616"), None);
    assert_eq!(turbine::parse_u64(""), None);
    assert_eq!(turbine::parse_u64("12a"), None);

    let status = "Name:\tweb\nVmPeak:\t  900 kB\nVmRSS:\t  512 kB\nThreads:\t1\n";
    assert_eq!(turbine::memory_usage_from_status(status), 512 * 1024);
    assert_eq!(turbine::memory_usage_from_status("Name: web\n"), 0);

    let stat = "1234 (web) S 1 1 1 0 -1 4194560 100 0 0 0 77 23 0 0 20 0 1 0";
    assert_eq!(turbine::cpu_jiffies_from_stat(stat), 100);
    assert_eq!(turbine::cpu_jiffies_from_stat("short"), 0);
}

#[test]
fn error_messages_round_trip() {
    let e = TurbineError::NetworkError("no route".to_string());
    assert_eq!(e.message(), "no route");
    let e = TurbineError::FilesystemError("gone".to_string());
    assert_eq!(e.message(), "gone");
}
