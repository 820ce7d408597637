use turbine::Container;
use turbine::ContainerConfig;
use turbine::IpAddress;
use turbine::NetworkManager;
use turbine::PortMapping;
use turbine::ProcessManager;
use turbine::StopAction;
use turbine::TurbineError;
use turbine::u64_to_hex_string;
use turbine::u64_to_string;

fn named_config(name: &str) -> ContainerConfig {
    let mut config = ContainerConfig::default();
    config.name = name.to_string();
    config.image = "/img".to_string();
    config
}

fn make_container(name: &str) -> Container {
    Container::new(named_config(name)).unwrap()
}

#[test]
fn decimal_and_hex_rendering() {
    assert_eq!(u64_to_string(0), "0");
    assert_eq!(u64_to_string(65535), "65535");
    assert_eq!(u64_to_string(1234567890), "1234567890");
    assert_eq!(u64_to_hex_string(0), "0");
    assert_eq!(u64_to_hex_string(0xfd00), "fd00");
    assert_eq!(u64_to_hex_string(48879), "beef");
}

#[test]
fn ip_rendering() {
    assert_eq!(NetworkManager::ipv4_to_string(0x0A58_0002), "10.88.0.2");
    assert_eq!(NetworkManager::ipv4_to_string(0xFFFF_FFFF), "255.255.255.255");
    let fd2 = (0xfd00u128) << 112 | 2;
    assert_eq!(NetworkManager::ipv6_to_string(fd2), "fd00:0:0:0:0:0:0:2");
    assert_eq!(NetworkManager::ip_to_string(&IpAddress::V4(0x0A58_0003)), "10.88.0.3");
}

#[test]
fn single_stack_allocation_starts_at_two() {
    let mut nm = NetworkManager::new("turbine0".to_string(), false);
    let a = nm.allocate_ips("first-id").unwrap();
    assert_eq!(a, vec![IpAddress::V4(0x0A58_0002)]);
    let b = nm.allocate_ips("second-id").unwrap();
    assert_eq!(b, vec![IpAddress::V4(0x0A58_0003)]);
    let again = nm.allocate_ips("first-id").unwrap();
    assert_eq!(again, vec![IpAddress::V4(0x0A58_0002)]);
}

#[test]
fn dual_stack_allocation_matches_both_families() {
    let config = turbine::network::NetworkConfig::DualStack {
        ipv4_subnet: 0x0A58_0000,
        ipv4_prefix: 24,
        ipv6_subnet: (0xfd00u128) << 112,
        ipv6_prefix: 64,
    };
    let mut nm = NetworkManager::with_config("turbine0".to_string(), config, false);
    let base6 = (0xfd00u128) << 112;
    let a = nm.allocate_ips("one").unwrap();
    assert_eq!(a, vec![IpAddress::V4(0x0A58_0002), IpAddress::V6(base6 + 2)]);
    let b = nm.allocate_ips("two").unwrap();
    assert_eq!(b, vec![IpAddress::V4(0x0A58_0003), IpAddress::V6(base6 + 3)]);
    let c = nm.allocate_ips("three").unwrap();
    assert_eq!(c, vec![IpAddress::V4(0x0A58_0004), IpAddress::V6(base6 + 4)]);
}

#[test]
fn port_conflict_is_refused_atomically() {
    let mut nm = NetworkManager::new("turbine0".to_string(), true);
    let mut first = named_config("one");
    first.set_web_defaults(8080);
    let first = Container::new(first).unwrap();
    nm.setup_container_network(&first).unwrap();
    assert_eq!(nm.port_mappings.len(), 1);
    assert_eq!(nm.port_mappings[0].0, 8080);
    assert_eq!(nm.port_mappings[0].1, first.id);

    let mut second = named_config("two");
    second.set_web_defaults(8080);
    let second = Container::new(second).unwrap();
    let before_ips = nm.allocated_ips.len();
    let err = nm.setup_container_network(&second).unwrap_err();
    assert!(matches!(err, TurbineError::NetworkError(_)));
    assert_eq!(err.message(), "Port 8080 is already in use");
    assert_eq!(nm.port_mappings.len(), 1);
    assert_eq!(nm.allocated_ips.len(), before_ips);
}

#[test]
fn cleanup_container_network_clears_every_table() {
    let mut nm = NetworkManager::new("turbine0".to_string(), true);
    let mut config = named_config("one");
    config.set_web_defaults(9090);
    let container = Container::new(config).unwrap();
    nm.setup_container_network(&container).unwrap();
    assert!(nm.get_container_ips(&container.id).is_some());
    nm.cleanup_container_network(&container).unwrap();
    assert!(nm.get_container_ips(&container.id).is_none());
    assert!(nm.port_mappings.iter().all(|pm| pm.1 != container.id));
    assert!(nm.container_ports.iter().all(|cp| cp.0 != container.id));
}

#[test]
fn veth_names_and_script() {
    let nm = NetworkManager::new("turbine0".to_string(), false);
    let container = make_container("one");
    let id8: String = container.id.chars().take(8).collect();
    assert_eq!(nm.veth_host_name(&container), format!("veth-{}", id8));
    assert_eq!(nm.veth_container_name(&container), format!("veth-c-{}", id8));
    let script = nm.veth_setup_script(&container);
    assert_eq!(
        script,
        format!(
            "ip link add veth-{id8} type veth peer name veth-c-{id8}\nip link set veth-{id8} master turbine0\nip link set veth-{id8} up\nip link set turbine0 up\n"
        )
    );
}

#[test]
fn netns_path_and_bridge_command() {
    let nm = NetworkManager::new("turbine0".to_string(), false);
    assert_eq!(nm.netns_path(), "/tmp/turbine-netns/turbine0");
    assert_eq!(nm.bridge_ip_command(), "ip addr add 10.88.0.1/24 dev turbine0");
}

#[test]
fn interface_config_args_for_ipv4() {
    let nm = NetworkManager::new("turbine0".to_string(), false);
    let args = nm.interface_config_args("veth-c-abc", &IpAddress::V4(0x0A58_0002));
    assert_eq!(
        args,
        vec![
            "--net=/tmp/turbine-netns/turbine0",
            "ip",
            "-4",
            "addr",
            "add",
            "10.88.0.2/24",
            "dev",
            "veth-c-abc",
        ]
    );
}

#[test]
fn port_forward_rule_for_each_family() {
    let nm = NetworkManager::new("turbine0".to_string(), false);
    let port = PortMapping { host_port: 8080, container_port: 80, protocol: "tcp".to_string() };
    let (binary, args) = nm.port_forward_rule(&IpAddress::V4(0x0A58_0002), &port);
    assert_eq!(binary, "iptables");
    assert_eq!(
        args,
        vec![
            "-t",
            "nat",
            "-A",
            "PREROUTING",
            "-p",
            "tcp",
            "--dport",
            "8080",
            "-j",
            "DNAT",
            "--to-destination",
            "10.88.0.2:80",
        ]
    );
    let base6 = (0xfd00u128) << 112;
    let (binary6, args6) = nm.port_forward_rule(&IpAddress::V6(base6 + 2), &port);
    assert_eq!(binary6, "ip6tables");
    assert_eq!(args6[11], "[fd00:0:0:0:0:0:0:2]:80");
}

#[test]
fn slirp4netns_args_include_port_forwards() {
    let mut nm = NetworkManager::new("turbine0".to_string(), true);
    let mut config = named_config("one");
    config.set_web_defaults(8088);
    let container = Container::new(config).unwrap();
    nm.setup_container_network(&container).unwrap();
    let args = nm.slirp4netns_args(1234, &container.id).unwrap();
    assert_eq!(
        args,
        vec![
            "--configure",
            "--mtu=65520",
            "--disable-host-loopback",
            "1234",
            "tap0",
            "--port-forward",
            "tcp:8088-tcp:8080",
        ]
    );
}

#[test]
fn slirp4netns_refused_without_the_binary() {
    let nm = NetworkManager::new("turbine0".to_string(), false);
    let err = nm.slirp4netns_args(1234, "whatever").unwrap_err();
    assert_eq!(err.message(), "slirp4netns not available");
}

#[test]
fn build_command_plan_shape() {
    let pm = ProcessManager::new();
    let mut config = named_config("one");
    config.command = vec!["/bin/echo".to_string(), "hi".to_string()];
    config.uid = Some(1000);
    config.gid = Some(1000);
    let container = Container::new(config).unwrap();
    let plan = pm.build_command(&container).unwrap();
    assert_eq!(plan.program, "unshare");
    let mut expected = vec![
        "--pid".to_string(),
        "--net".to_string(),
        "--mount".to_string(),
        "--uts".to_string(),
        "--ipc".to_string(),
        "--fork".to_string(),
        "chroot".to_string(),
        container.root_path.clone(),
    ];
    expected.push("/bin/echo".to_string());
    expected.push("hi".to_string());
    assert_eq!(plan.args, expected);
    assert_eq!(plan.uid, Some(1000));
    assert_eq!(plan.gid, Some(1000));
    assert_eq!(plan.working_dir.as_deref(), Some("/app"));
}

#[test]
fn process_tracking_and_stop_actions() {
    let mut pm = ProcessManager::new();
    pm.record_start("c-one", 399999900);
    assert!(pm.is_running("c-one"));
    assert_eq!(pm.leader_pid("c-one"), Some(399999900));
    assert_eq!(pm.get_running_containers(), vec!["c-one".to_string()]);

    let action = pm.stop_container("c-one", false).unwrap();
    assert_eq!(action, StopAction::TermSent(399999900));
    assert!(!pm.is_running("c-one"));

    let action = pm.stop_container("c-one", true).unwrap();
    assert_eq!(action, StopAction::NotTracked);

    pm.record_start("c-two", 399999901);
    let action = pm.stop_container("c-two", true).unwrap();
    assert_eq!(action, StopAction::Killed(399999901));

    pm.record_start("c-three", 399999902);
    let killed = pm.cleanup_all().unwrap();
    assert_eq!(killed, vec![399999902]);
    assert!(pm.get_running_containers().is_empty());
}

#[test]
fn pause_and_resume_report_the_signaled_pid() {
    let mut pm = ProcessManager::new();
    assert_eq!(pm.pause_container("nobody-home").unwrap(), None);
    assert_eq!(pm.resume_container("nobody-home").unwrap(), None);
    pm.record_start("c-one", 399999903);
    // The pid points at no live process, so the kernel refuses the signal.
    let err = pm.pause_container("c-one").unwrap_err();
    assert_eq!(err.message(), "Failed to send signal");
    let err = pm.resume_container("c-one").unwrap_err();
    assert_eq!(err.message(), "Failed to send signal");
}

#[test]
fn exec_command_args_target_the_leader() {
    let mut pm = ProcessManager::new();
    let container = make_container("one");
    pm.record_start(&container.id, 399999900);
    let args = pm.exec_command_args(&container, &vec!["/bin/ls".to_string()]);
    let expected = vec![
        "--target".to_string(),
        "399999900".to_string(),
        "--pid".to_string(),
        "--net".to_string(),
        "--mount".to_string(),
        "--uts".to_string(),
        "--ipc".to_string(),
        "chroot".to_string(),
        container.root_path.clone(),
        "/bin/ls".to_string(),
    ];
    assert_eq!(args, expected);
}
