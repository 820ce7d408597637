use turbine::ContainerConfig;
use turbine::ContainerState;
use turbine::StopAction;
use turbine::TurbineError;
use turbine::TurbineRuntime;
use turbine::VolumeMount;

// A pid far above the kernel's default pid ceiling, so the best-effort
// signals in the library reach no real process.
const FAKE_PID: u32 = 399_999_990;

fn web_true_config(name: &str) -> ContainerConfig {
    let mut config = ContainerConfig::default();
    config.name = name.to_string();
    config.image = "./img".to_string();
    config.command = vec!["/bin/true".to_string()];
    config
}

fn created(rt: &mut TurbineRuntime, name: &str) -> String {
    let container = rt.prepare_container(web_true_config(name)).unwrap();
    rt.register_container(container).unwrap()
}

#[test]
fn create_and_start_minimal() {
    let mut rt = TurbineRuntime::new("/tmp/turbine", true);
    let container = rt.prepare_container(web_true_config("web")).unwrap();
    assert_eq!(container.id.len(), 36);
    assert!(matches!(container.state, ContainerState::Created));
    assert!(container.pid.is_none());
    assert_eq!(container.root_path, format!("/tmp/turbine/{}", container.id));

    let id = rt.register_container(container).unwrap();
    let listed = rt.list_containers();
    assert_eq!(listed.len(), 1);
    assert!(matches!(listed[0].state, ContainerState::Created));

    rt.start_container(&id, FAKE_PID).unwrap();
    let c = rt.get_container(&id).unwrap();
    assert!(matches!(c.state, ContainerState::Running));
    assert_eq!(c.pid, Some(FAKE_PID));
    assert!(c.started_at.is_some());
    assert_eq!(rt.get_running_containers(), vec![id.clone()]);
    assert!(rt.require_running(&id).is_ok());
}

#[test]
fn port_conflict_second_container_refused() {
    let mut rt = TurbineRuntime::new("/tmp/turbine", true);
    let mut first = web_true_config("one");
    first.set_web_defaults(8080);
    let first = rt.prepare_container(first).unwrap();
    rt.register_container(first).unwrap();

    let mut second = web_true_config("two");
    second.set_web_defaults(8080);
    let second = rt.prepare_container(second).unwrap();
    let err = rt.register_container(second).unwrap_err();
    assert!(matches!(err, TurbineError::NetworkError(_)));
    assert_eq!(err.message(), "Port 8080 is already in use");
    assert_eq!(rt.list_containers().len(), 1);
}

#[test]
fn graceful_stop_keeps_running_until_finished() {
    let mut rt = TurbineRuntime::new("/tmp/turbine", true);
    let id = created(&mut rt, "sleeper");
    rt.start_container(&id, FAKE_PID).unwrap();

    let action = rt.stop_container(&id, false).unwrap();
    assert_eq!(action, StopAction::TermSent(FAKE_PID));
    let c = rt.get_container(&id).unwrap();
    assert!(matches!(c.state, ContainerState::Running));

    // The graceful wait timed out; a forced stop still lands.
    let action = rt.stop_container(&id, true).unwrap();
    assert_eq!(action, StopAction::NotTracked);
    let c = rt.get_container(&id).unwrap();
    assert!(matches!(c.state, ContainerState::Stopped));
    assert!(c.pid.is_none());
    assert!(c.stopped_at.is_some());
}

#[test]
fn finish_stop_completes_a_graceful_stop() {
    let mut rt = TurbineRuntime::new("/tmp/turbine", true);
    let id = created(&mut rt, "sleeper");
    rt.start_container(&id, FAKE_PID).unwrap();
    rt.stop_container(&id, false).unwrap();
    rt.finish_stop(&id).unwrap();
    let c = rt.get_container(&id).unwrap();
    assert!(matches!(c.state, ContainerState::Stopped));
    assert!(c.pid.is_none());
}

#[test]
fn restricted_volume_refused_and_not_registered() {
    let mut rt = TurbineRuntime::new("/tmp/turbine", true);
    let mut config = web_true_config("vol");
    config.volumes.push(VolumeMount {
        host_path: "/etc/passwd".to_string(),
        container_path: "/data".to_string(),
        readonly: true,
    });
    let err = rt.prepare_container(config).unwrap_err();
    assert!(matches!(err, TurbineError::SecurityError(_)));
    assert!(rt.list_containers().is_empty());
    assert!(rt.network.allocated_ips.is_empty());
}

#[test]
fn wrong_state_calls_change_nothing() {
    let mut rt = TurbineRuntime::new("/tmp/turbine", true);
    let id = created(&mut rt, "web");

    // A Created container cannot be stopped, paused or resumed.
    let err = rt.stop_container(&id, false).unwrap_err();
    assert!(matches!(err, TurbineError::ContainerError(_)));
    assert_eq!(err.message(), "Container is not running");
    let err = rt.pause_container(&id).unwrap_err();
    assert_eq!(err.message(), "Container is not running");
    let err = rt.resume_container(&id).unwrap_err();
    assert_eq!(err.message(), "Container is not paused");
    let c = rt.get_container(&id).unwrap();
    assert!(matches!(c.state, ContainerState::Created));
    assert!(c.pid.is_none());

    // A Running container cannot be started again.
    rt.start_container(&id, FAKE_PID).unwrap();
    let err = rt.start_container(&id, FAKE_PID).unwrap_err();
    assert_eq!(err.message(), "Container is already running");
    let c = rt.get_container(&id).unwrap();
    assert!(matches!(c.state, ContainerState::Running));

    // An unknown id is an error for every operation.
    let err = rt.start_container("no-such-id", FAKE_PID).unwrap_err();
    assert_eq!(err.message(), "Container not found");
    let err = rt.remove_container("no-such-id", false).unwrap_err();
    assert_eq!(err.message(), "Container not found");
}

#[test]
fn leader_pid_tracks_the_state_machine() {
    let mut rt = TurbineRuntime::new("/tmp/turbine", true);
    let id = created(&mut rt, "web");
    let c = rt.get_container(&id).unwrap();
    assert!(c.pid.is_none() && matches!(c.state, ContainerState::Created));

    rt.start_container(&id, FAKE_PID).unwrap();
    let c = rt.get_container(&id).unwrap();
    assert!(c.pid.is_some() && matches!(c.state, ContainerState::Running));

    rt.stop_container(&id, true).unwrap();
    let c = rt.get_container(&id).unwrap();
    assert!(c.pid.is_none() && matches!(c.state, ContainerState::Stopped));

    rt.start_container(&id, FAKE_PID).unwrap();
    let c = rt.get_container(&id).unwrap();
    assert!(c.pid.is_some() && matches!(c.state, ContainerState::Running));
}

#[test]
fn remove_clears_every_table() {
    let mut rt = TurbineRuntime::new("/tmp/turbine", true);
    let mut config = web_true_config("web");
    config.set_web_defaults(9999);
    let container = rt.prepare_container(config).unwrap();
    let id = rt.register_container(container).unwrap();
    rt.start_container(&id, FAKE_PID).unwrap();

    let err = rt.remove_container(&id, false).unwrap_err();
    assert_eq!(err.message(), "Container is running. Use force=true to remove running container");

    let removed = rt.remove_container(&id, true).unwrap();
    assert_eq!(removed.id, id);
    assert!(matches!(removed.state, ContainerState::Stopped));
    assert!(rt.list_containers().is_empty());
    assert!(rt.network.allocated_ips.iter().all(|e| e.0 != id));
    assert!(rt.network.port_mappings.iter().all(|e| e.1 != id));
    assert!(rt.network.container_ports.iter().all(|e| e.0 != id));
    assert!(rt.process.running.iter().all(|e| e.0 != id));
}

#[test]
fn cleanup_removes_running_and_is_idempotent() {
    let mut rt = TurbineRuntime::new("/tmp/turbine", true);
    let running_id = created(&mut rt, "running");
    let stopped_id = created(&mut rt, "stopped");
    rt.start_container(&running_id, FAKE_PID).unwrap();

    rt.cleanup().unwrap();
    let after_first: Vec<String> = rt.list_containers().iter().map(|c| c.id.clone()).collect();
    assert_eq!(after_first, vec![stopped_id.clone()]);
    assert!(rt.process.running.is_empty());
    let ports_after_first = rt.network.port_mappings.len();

    rt.cleanup().unwrap();
    let after_second: Vec<String> = rt.list_containers().iter().map(|c| c.id.clone()).collect();
    assert_eq!(after_second, after_first);
    assert!(rt.process.running.is_empty());
    assert_eq!(rt.network.port_mappings.len(), ports_after_first);
}

#[test]
fn duplicate_names_are_allowed_but_findable() {
    let mut rt = TurbineRuntime::new("/tmp/turbine", true);
    let a = created(&mut rt, "same");
    let _b = created(&mut rt, "same");
    let found = rt.registry.find_by_name("same").unwrap();
    assert_eq!(found.id, a);
    assert!(rt.registry.find_by_name("other").is_none());
}

#[test]
fn registry_rejects_duplicate_ids() {
    let mut rt = TurbineRuntime::new("/tmp/turbine", true);
    let container = rt.prepare_container(web_true_config("web")).unwrap();
    let copy = container.clone();
    rt.register_container(container).unwrap();
    let err = rt.register_container(copy).unwrap_err();
    assert!(matches!(err, TurbineError::ContainerError(_)));
}

#[test]
fn web_config_carries_the_web_defaults() {
    let rt = TurbineRuntime::new("/tmp/turbine", true);
    let config = rt.web_config("app".to_string(), "/img".to_string(), 8081);
    assert_eq!(config.name, "app");
    assert_eq!(config.image, "/img");
    assert_eq!(config.ports.len(), 1);
    assert_eq!(config.ports[0].host_port, 8081);
    assert_eq!(config.ports[0].container_port, 8080);
    assert!(matches!(config.restart_policy, turbine::RestartPolicy::Always));
}

#[test]
fn filesystem_plans_match_the_layout() {
    let rt = TurbineRuntime::new("/tmp/turbine", true);
    let mut config = web_true_config("web");
    config.volumes.push(VolumeMount {
        host_path: "/tmp".to_string(),
        container_path: "/data/cache".to_string(),
        readonly: true,
    });
    let container = rt.prepare_container(config).unwrap();
    let root = container.root_path.clone();

    let dirs = rt.filesystem.root_directories(&container);
    assert_eq!(dirs.len(), 10);
    assert_eq!(dirs[0], root);
    assert_eq!(dirs[1], format!("{root}/bin"));
    assert_eq!(dirs[9], format!("{root}/app"));

    let files = rt.filesystem.seed_files(&container);
    assert_eq!(files.len(), 4);
    assert_eq!(files[0].0, format!("{root}/etc/resolv.conf"));
    assert_eq!(files[0].1, "nameserver 8.8.8.8\nnameserver 8.8.4.4\n");
    assert_eq!(files[1].1, "turbine:x:1000:1000:Turbine User:/app:/bin/sh\n");
    assert_eq!(files[2].1, "turbine:x:1000:\n");
    assert_eq!(files[3].1, "127.0.0.1 localhost\n::1 localhost\n");

    let mounts = rt.filesystem.volume_mounts(&container);
    assert_eq!(mounts.len(), 1);
    assert_eq!(mounts[0].source, "/tmp");
    assert_eq!(mounts[0].target, format!("{root}/data/cache"));
    assert!(mounts[0].readonly);

    let (workdir, mode) = rt.filesystem.working_directory_plan(&container).unwrap();
    assert_eq!(workdir, format!("{root}/app"));
    assert_eq!(mode, 0o755);

    let targets = rt.filesystem.unmount_targets(&container);
    assert_eq!(targets, vec![format!("{root}/data/cache")]);
}

#[test]
fn rootless_filesystem_dirs_with_modes() {
    let rt = TurbineRuntime::new("/tmp/turbine", true);
    let container = rt.prepare_container(web_true_config("web")).unwrap();
    let root = container.root_path.clone();
    let dirs = rt.security.rootless_filesystem_dirs(&container);
    assert_eq!(dirs.len(), 4);
    assert_eq!(dirs[0], (format!("{root}/proc"), 0o555));
    assert_eq!(dirs[1], (format!("{root}/sys"), 0o555));
    assert_eq!(dirs[2], (format!("{root}/dev"), 0o755));
    assert_eq!(dirs[3], (format!("{root}/tmp"), 0o1777));
}

#[test]
fn prepare_roots_the_tree_under_the_base_path() {
    let rt = TurbineRuntime::new("/var/tmp/turbine-alt", true);
    let container = rt.prepare_container(web_true_config("web")).unwrap();
    assert_eq!(container.root_path, format!("/var/tmp/turbine-alt/{}", container.id));
}

#[test]
fn pause_on_dead_leader_reports_process_error() {
    let mut rt = TurbineRuntime::new("/tmp/turbine", true);
    let id = created(&mut rt, "web");
    rt.start_container(&id, FAKE_PID).unwrap();
    // The leader pid points at no live process, so the stop signal is
    // refused by the kernel and the record must stay Running.
    let err = rt.pause_container(&id).unwrap_err();
    assert!(matches!(err, TurbineError::ProcessError(_)));
    let c = rt.get_container(&id).unwrap();
    assert!(matches!(c.state, ContainerState::Running));
}

#[test]
fn container_helpers_expose_identity() {
    let mut config = web_true_config("web");
    config.set_user("alice".to_string(), Some(1000), Some(1000));
    config.add_groups(vec![4, 2]);
    let container = turbine::Container::new(config).unwrap();
    assert_eq!(container.get_user().map(|s| s.as_str()), Some("alice"));
    assert_eq!(container.get_uid(), Some(1000));
    assert_eq!(container.get_gid(), Some(1000));
    assert_eq!(container.get_groups().map(|g| g.clone()), Some(vec![2, 4]));
    assert!(!container.is_running());
    assert!(!container.is_stopped());
}
