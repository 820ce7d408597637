use vstd::prelude::*;
use vstd::string::*;
use crate::config::ContainerConfig;
use crate::config::spec_pure_valid;
use crate::container::Container;
use crate::container::ContainerRegistry;
use crate::container::ContainerState;
use crate::container::pid_state_consistent;
use crate::errors::TurbineError;
use crate::filesystem::FilesystemManager;
use crate::network::NetworkManager;
use crate::network::spec_port_conflict;
use crate::process::ProcessManager;
use crate::security::SecurityManager;
use crate::security::spec_config_security_ok;
use crate::security::spec_security_ok;
use crate::textutil::contains_seq;
use crate::textutil::starts_with_seq;

verus! {

/// One sample of a running container's resource use. The CPU time is in
/// scheduler ticks.
#[derive(Debug)]
pub struct ContainerStats {
    pub container_id: String,
    pub memory_usage: u64,
    pub cpu_jiffies: u64,
    pub network_rx: u64,
    pub network_tx: u64,
    pub uptime: i64,
}

/// Some configured mapping publishes this host port.
pub open spec fn has_port(ports: Seq<crate::config::PortMapping>, p: u16) -> bool {
    exists|k: int| 0 <= k < ports.len() && ports[k].host_port == p
}

/// The port table forwards `p` to the container with this id.
pub open spec fn mapped_to(pm: Seq<(u16, String)>, p: u16, id: Seq<char>) -> bool {
    exists|i: int| 0 <= i < pm.len() && pm[i].0 == p && pm[i].1@ == id
}

/// The orchestrator: owns the registry and the managers, and enforces
/// the container state machine over them.
pub struct TurbineRuntime {
    pub registry: ContainerRegistry,
    pub filesystem: FilesystemManager,
    pub network: NetworkManager,
    pub process: ProcessManager,
    pub security: SecurityManager,
    pub base_path: String,
}

impl TurbineRuntime {
    /// Every record's leader pid agrees with its state: present exactly
    /// in Running and Paused.
    pub open spec fn pids_consistent(&self) -> bool {
        forall|i: int|
            0 <= i < self.registry@.len() ==> pid_state_consistent(#[trigger] self.registry@[i])
    }

    /// Every table entry in the managers belongs to a registered
    /// container.
    pub open spec fn ids_registered(&self) -> bool {
        &&& (forall|i: int|
            0 <= i < self.network.allocated_ips@.len() ==> self.registry.contains_id(
                (#[trigger] self.network.allocated_ips@[i]).0@,
            ))
        &&& (forall|i: int|
            0 <= i < self.network.port_mappings@.len() ==> self.registry.contains_id(
                (#[trigger] self.network.port_mappings@[i]).1@,
            ))
        &&& (forall|i: int|
            0 <= i < self.network.container_ports@.len() ==> self.registry.contains_id(
                (#[trigger] self.network.container_ports@[i]).0@,
            ))
        &&& (forall|i: int|
            0 <= i < self.process.running@.len() ==> self.registry.contains_id(
                (#[trigger] self.process.running@[i]).0@,
            ))
    }

    /// The port table and the registry agree: a forwarded host port is
    /// one its owner configures, and every configured port of a
    /// registered container is forwarded to it.
    pub open spec fn ports_mapped(&self) -> bool {
        &&& (forall|i: int, j: int|
            #![trigger self.network.port_mappings@[i], self.registry@[j]]
            0 <= i < self.network.port_mappings@.len() && 0 <= j < self.registry@.len()
                && self.registry@[j].id@ == self.network.port_mappings@[i].1@ ==> has_port(
                self.registry@[j].config.ports@,
                self.network.port_mappings@[i].0,
            ))
        &&& (forall|j: int, k: int|
            #![trigger self.registry@[j].config.ports@[k]]
            0 <= j < self.registry@.len() && 0 <= k < self.registry@[j].config.ports@.len()
                ==> mapped_to(
                self.network.port_mappings@,
                self.registry@[j].config.ports@[k].host_port,
                self.registry@[j].id@,
            ))
    }

    /// The orchestrator's global invariant: every component is
    /// well-formed and the cross-component facts hold.
    pub open spec fn wf(&self) -> bool {
        &&& self.registry.wf()
        &&& self.network.wf()
        &&& self.process.wf()
        &&& self.pids_consistent()
        &&& self.ids_registered()
        &&& self.ports_mapped()
    }

    /// The component views, all together; two runtimes with equal views
    /// behave alike.
    pub open spec fn same_views(a: TurbineRuntime, b: TurbineRuntime) -> bool {
        &&& a.registry@ == b.registry@
        &&& a.network.allocated_ips@ == b.network.allocated_ips@
        &&& a.network.port_mappings@ == b.network.port_mappings@
        &&& a.network.container_ports@ == b.network.container_ports@
        &&& a.process.running@ == b.process.running@
    }

    /// A runtime rooted at `base_path` over the default bridge. The
    /// caller says whether slirp4netns is available on this host.
    pub fn new(base_path: &str, use_slirp4netns: bool) -> (r: Self)
        ensures
            r.wf(),
            r.registry@.len() == 0,
            r.network.allocated_ips@.len() == 0,
            r.network.port_mappings@.len() == 0,
            r.network.container_ports@.len() == 0,
            r.process.running@.len() == 0,
            r.base_path@ == base_path@,
            r.filesystem.base_path@ == base_path@,
            r.network.bridge_name@ == "turbine0"@,
            r.network.network_config == (crate::network::NetworkConfig::IPv4 {
                subnet: 0x0A58_0000u32,
                prefix: 24u8,
            }),
            r.network.netns_dir@ == "/tmp/turbine-netns"@,
            r.network.use_slirp4netns == use_slirp4netns,
            r.security.use_user_namespaces,
            r.security.allowed_users@.len() == 1,
            r.security.allowed_users@[0]@ == "turbine"@,
            crate::security::spec_default_restricted(r.security.restricted_paths@),
    {
        TurbineRuntime {
            registry: ContainerRegistry::new(),
            filesystem: FilesystemManager::new(base_path),
            network: NetworkManager::new("turbine0".to_owned(), use_slirp4netns),
            process: ProcessManager::new(),
            security: SecurityManager::new(),
            base_path: base_path.to_owned(),
        }
    }

    /// Validates a configuration and builds the record for it: the
    /// security policy, the sanitized environment, the image path rule,
    /// and the configuration's own checks, in that order. Nothing is
    /// registered yet. On a config without volumes the outcome is fully
    /// determined by the pure checks.
    pub fn prepare_container(&self, config: ContainerConfig) -> (r: Result<
        Container,
        TurbineError,
    >)
        ensures
            r matches Ok(c) ==> {
                &&& c.state matches ContainerState::Created
                &&& c.pid is None
                &&& c.id@.len() == 36
                &&& c.root_path@ == self.base_path@ + "/"@ + c.id@
                &&& spec_security_ok(self.security, c)
                &&& spec_pure_valid(c.config)
                &&& !contains_seq(c.config.image@, ".."@)
                &&& (starts_with_seq(c.config.image@, "/"@) || starts_with_seq(
                    c.config.image@,
                    "./"@,
                ))
                &&& c.config.name == config.name
                &&& c.config.image == config.image
                &&& c.config.command == config.command
                &&& c.config.working_dir == config.working_dir
                &&& c.config.ports == config.ports
                &&& c.config.volumes == config.volumes
                &&& c.config.resources == config.resources
                &&& c.config.network == config.network
                &&& c.config.user == config.user
                &&& c.config.uid == config.uid
                &&& c.config.gid == config.gid
                &&& c.config.groups == config.groups
                &&& c.config.restart_policy == config.restart_policy
            },
            r matches Err(e) ==> (e matches TurbineError::SecurityError(_) || e
                matches TurbineError::ConfigError(_)),
            config.volumes@.len() == 0 && spec_config_security_ok(self.security, config)
                && spec_pure_valid(config) && !contains_seq(config.image@, ".."@) && (
            starts_with_seq(config.image@, "/"@) || starts_with_seq(config.image@, "./"@))
                ==> r is Ok,
            !crate::security::spec_volumes_unrestricted(
                config.volumes@,
                self.security.restricted_paths@,
            ) ==> r matches Err(TurbineError::SecurityError(_)),
    {
        let ghost given = config;
        let mut config = config;
        let sanitized = self.security.sanitize_environment(&mut config.environment);
        if let Err(e) = sanitized {
            return Err(e);
        }
        let mut container = match Container::new(config) {
            Ok(c) => c,
            Err(e) => {
                return Err(e);
            },
        };
        let mut rooted = self.base_path.clone();
        rooted.append("/");
        rooted.append(container.id.as_str());
        container.root_path = rooted;
        proof {
            assert(spec_config_security_ok(self.security, given) ==> spec_security_ok(
                self.security,
                container,
            )) by {
                assert(container.config.uid == given.uid && container.config.gid == given.gid
                    && container.config.user == given.user && container.config.volumes
                    == given.volumes && container.config.resources == given.resources
                    && container.config.ports == given.ports);
            }
        }
        self.security.validate_container_security(&container)?;
        self.security.validate_image_security(container.config.image.as_str())?;
        container.config.validate()?;
        Ok(container)
    }

    /// Registers a prepared record and wires its network state: either
    /// the container ends up in the registry with its ports forwarded
    /// and its addresses allocated, or nothing changes at all.
    #[verifier::rlimit(100)]
    pub fn register_container(&mut self, container: Container) -> (r: Result<String, TurbineError>)
        requires
            old(self).wf(),
            container.state matches ContainerState::Created,
            container.pid is None,
        ensures
            final(self).wf(),
            final(self).base_path == old(self).base_path,
            r is Err ==> Self::same_views(*old(self), *final(self)),
            r is Ok <==> (!old(self).registry.contains_id(container.id@) && !spec_port_conflict(
                old(self).network,
                container.config.ports@,
            ) && (old(self).network.has_alloc(container.id@) || old(self).network.can_allocate())),
            r matches Ok(id) ==> {
                &&& id@ == container.id@
                &&& final(self).registry@ == old(self).registry@.push(container)
                &&& final(self).process.running@ == old(self).process.running@
            },
            old(self).registry.contains_id(container.id@) ==> r matches Err(
                TurbineError::ContainerError(_),
            ),
            r matches Err(e) ==> (e matches TurbineError::ContainerError(_) || e
                matches TurbineError::NetworkError(_)),
    {
        let present = self.registry.get(container.id.as_str());
        if present.is_some() {
            return Err(
                TurbineError::ContainerError("Container id is already registered".to_owned()),
            );
        }
        proof {
            assert(!old(self).network.has_alloc(container.id@)) by {
                if old(self).network.has_alloc(container.id@) {
                    let i = choose|i: int|
                        0 <= i < old(self).network.allocated_ips@.len() && old(self).network.allocated_ips@[i].0@ == container.id@;
                    assert(old(self).registry.contains_id(
                        old(self).network.allocated_ips@[i].0@,
                    ));
                }
            }
            assert(!old(self).network.has_ports(container.id@)) by {
                if old(self).network.has_ports(container.id@) {
                    let i = choose|i: int|
                        0 <= i < old(self).network.container_ports@.len() && old(self).network.container_ports@[i].0@ == container.id@;
                    assert(old(self).registry.contains_id(
                        old(self).network.container_ports@[i].0@,
                    ));
                }
            }
        }
        self.network.setup_container_network(&container)?;
        let ghost mid = *self;
        let ghost c = container;
        let id_str = container.id.clone();
        let reg_result = self.registry.register(container);
        proof {
            assert(reg_result.is_ok());
        }
        match reg_result {
            Err(_) => Err(TurbineError::RuntimeError("Registry refused a fresh id".to_owned())),
            Ok(()) => {
                proof {
                    lemma_register_preserves_wf(*old(self), mid, *self, c);
                }
                Ok(id_str)
            },
        }
    }

    /// Moves a container to Running under a freshly spawned leader pid:
    /// allowed from Created and Stopped only; any other state is refused
    /// untouched.
    pub fn start_container(&mut self, container_id: &str, pid: u32) -> (r: Result<
        (),
        TurbineError,
    >)
        requires
            old(self).wf(),
            1 <= pid <= 0x7FFF_FFFF,
        ensures
            final(self).wf(),
            r is Ok <==> (old(self).registry.contains_id(container_id@) && (old(self).registry@[
                old(self).registry.idx_of(container_id@)].state matches ContainerState::Created
                || old(self).registry@[old(self).registry.idx_of(container_id@)].state
                matches ContainerState::Stopped)),
            r is Err ==> Self::same_views(*old(self), *final(self)),
            r matches Err(e) ==> e matches TurbineError::ContainerError(_),
            !old(self).registry.contains_id(container_id@) ==> (r matches Err(
                TurbineError::ContainerError(m),
            ) && m@ == "Container not found"@),
            old(self).registry.contains_id(container_id@) && !(old(self).registry@[old(self).registry.idx_of(container_id@)].state matches ContainerState::Created) && !(old(self).registry@[old(self).registry.idx_of(container_id@)].state
                matches ContainerState::Stopped) ==> (r matches Err(TurbineError::ContainerError(
                m,
            )) && m@ == "Container is already running"@),
            r is Ok ==> {
                let i = old(self).registry.idx_of(container_id@);
                &&& final(self).registry@.len() == old(self).registry@.len()
                &&& (forall|j: int|
                    0 <= j < old(self).registry@.len() && j != i
                        ==> final(self).registry@[j] == old(self).registry@[j])
                &&& final(self).registry@[i].state matches ContainerState::Running
                &&& final(self).registry@[i].pid == Some(pid)
                &&& final(self).registry@[i].started_at is Some
                &&& final(self).registry@[i].id == old(self).registry@[i].id
                &&& final(self).registry@[i].config == old(self).registry@[i].config
                &&& final(self).process.tracks(container_id@)
                &&& final(self).network == old(self).network
            },
    {
        let ghost pre = *old(self);
        match self.registry.get_mut(container_id) {
            None => Err(TurbineError::ContainerError("Container not found".to_owned())),
            Some(c) => {
                let startable = match c.state {
                    ContainerState::Created => true,
                    ContainerState::Stopped => true,
                    _ => false,
                };
                if !startable {
                    proof {
                        assert(pre.registry@.update(pre.registry.idx_of(container_id@), *c)
                            =~= pre.registry@);
                    }
                    return Err(
                        TurbineError::ContainerError("Container is already running".to_owned()),
                    );
                }
                self.process.record_start(container_id, pid);
                c.set_pid(pid);
                c.set_state(ContainerState::Running);
                proof {
                    let i = pre.registry.idx_of(container_id@);
                    assert(forall|j: int|
                        0 <= j < pre.registry@.len() && j != i ==> self.registry@[j]
                            == pre.registry@[j]);
                    assert forall|t: int|
                        0 <= t < self.process.running@.len() implies pre.registry.contains_id(
                        (#[trigger] self.process.running@[t]).0@,
                    ) || self.process.running@[t].0@ == pre.registry@[i].id@ by {
                        if t < self.process.running@.len() - 1 {
                            if pre.process.tracks(container_id@) {
                                let a = pre.process.track_idx(container_id@);
                                assert(0 <= a < pre.process.running@.len()
                                    && pre.process.running@[a].0@ == container_id@);
                                assert(self.process.running@.drop_last()
                                    == pre.process.running@.remove(a));
                                assert(pre.process.running@.remove(a).len()
                                    == pre.process.running@.len() - 1);
                                assert(self.process.running@[t]
                                    == self.process.running@.drop_last()[t]);
                                if t < a {
                                    assert(pre.process.running@.remove(a)[t]
                                        == pre.process.running@[t]);
                                } else {
                                    assert(t + 1 < pre.process.running@.len());
                                    assert(pre.process.running@.remove(a)[t]
                                        == pre.process.running@[t + 1]);
                                }
                            } else {
                                assert(self.process.running@.drop_last()
                                    == pre.process.running@);
                                assert(self.process.running@[t] == pre.process.running@[t]);
                            }
                        } else {
                            assert(self.process.running@[t].0@ == container_id@);
                        }
                    }
                    lemma_update_preserves_wf(pre, *self, i);
                }
                Ok(())
            },
        }
    }

    /// Moves a Running or Paused container toward Stopped. With force the
    /// leader is killed and the record goes to Stopped at once. Without
    /// force a termination signal is sent and the record stays as it was
    /// until the caller has waited the exit out and calls
    /// `finish_stop`; a container with no tracked leader goes to Stopped
    /// directly.
    pub fn stop_container(&mut self, container_id: &str, force: bool) -> (r: Result<
        crate::process::StopAction,
        TurbineError,
    >)
        requires
            old(self).wf(),
        ensures
            final(self).wf(),
            r is Ok <==> (old(self).registry.contains_id(container_id@) && (old(self).registry@[
                old(self).registry.idx_of(container_id@)].state matches ContainerState::Running
                || old(self).registry@[old(self).registry.idx_of(container_id@)].state
                matches ContainerState::Paused)),
            r is Err ==> Self::same_views(*old(self), *final(self)),
            r matches Err(e) ==> e matches TurbineError::ContainerError(_),
            !old(self).registry.contains_id(container_id@) ==> (r matches Err(
                TurbineError::ContainerError(m),
            ) && m@ == "Container not found"@),
            old(self).registry.contains_id(container_id@) && !(old(self).registry@[old(self).registry.idx_of(container_id@)].state matches ContainerState::Running) && !(old(self).registry@[old(self).registry.idx_of(container_id@)].state
                matches ContainerState::Paused) ==> (r matches Err(TurbineError::ContainerError(
                m,
            )) && m@ == "Container is not running"@),
            r matches Ok(a) ==> {
                let i = old(self).registry.idx_of(container_id@);
                &&& (old(self).process.tracks(container_id@) ==> a == (if force {
                    crate::process::StopAction::Killed(
                        old(self).process.running@[old(self).process.track_idx(container_id@)].1,
                    )
                } else {
                    crate::process::StopAction::TermSent(
                        old(self).process.running@[old(self).process.track_idx(container_id@)].1,
                    )
                }))
                &&& (!old(self).process.tracks(container_id@) ==> a
                    == crate::process::StopAction::NotTracked)
                &&& !final(self).process.tracks(container_id@)
                &&& final(self).network == old(self).network
                &&& final(self).registry@.len() == old(self).registry@.len()
                &&& (forall|j: int|
                    0 <= j < old(self).registry@.len() && j != i
                        ==> final(self).registry@[j] == old(self).registry@[j])
                &&& final(self).registry@[i].id == old(self).registry@[i].id
                &&& final(self).registry@[i].config == old(self).registry@[i].config
                &&& ((force || a matches crate::process::StopAction::NotTracked) ==> ((final(self).registry@[i].state matches ContainerState::Stopped) && final(self).registry@[
                    i].pid is None && final(self).registry@[i].stopped_at is Some))
                &&& ((!force && a matches crate::process::StopAction::TermSent(_)) ==> final(self).registry@[i] == old(self).registry@[i])
            },
    {
        let ghost pre = *old(self);
        match self.registry.get_mut(container_id) {
            None => Err(TurbineError::ContainerError("Container not found".to_owned())),
            Some(c) => {
                let stoppable = match c.state {
                    ContainerState::Running => true,
                    ContainerState::Paused => true,
                    _ => false,
                };
                if !stoppable {
                    proof {
                        assert(pre.registry@.update(pre.registry.idx_of(container_id@), *c)
                            =~= pre.registry@);
                    }
                    return Err(
                        TurbineError::ContainerError("Container is not running".to_owned()),
                    );
                }
                let action = match self.process.stop_container(container_id, force) {
                    Ok(a) => a,
                    Err(e) => {
                        proof {
                            assert(pre.registry@.update(pre.registry.idx_of(container_id@), *c)
                                =~= pre.registry@);
                        }
                        return Err(e);
                    },
                };
                let finish_now = force || matches!(action, crate::process::StopAction::NotTracked);
                if finish_now {
                    c.set_state(ContainerState::Stopped);
                } else {
                    proof {
                        assert(pre.registry@.update(pre.registry.idx_of(container_id@), *c)
                            =~= pre.registry@.update(
                            pre.registry.idx_of(container_id@),
                            pre.registry@[pre.registry.idx_of(container_id@)],
                        ));
                    }
                }
                proof {
                    let i = pre.registry.idx_of(container_id@);
                    assert(forall|j: int|
                        0 <= j < pre.registry@.len() && j != i ==> self.registry@[j]
                            == pre.registry@[j]);
                    assert(pre.registry@.update(i, pre.registry@[i]) =~= pre.registry@);
                    assert forall|t: int|
                        0 <= t < self.process.running@.len() implies pre.registry.contains_id(
                        (#[trigger] self.process.running@[t]).0@,
                    ) || self.process.running@[t].0@ == pre.registry@[i].id@ by {
                        if pre.process.tracks(container_id@) {
                            let a = pre.process.track_idx(container_id@);
                            assert(self.process.running@ == pre.process.running@.remove(a));
                            if t < a {
                                assert(self.process.running@[t] == pre.process.running@[t]);
                            } else {
                                assert(self.process.running@[t] == pre.process.running@[t + 1]);
                            }
                        } else {
                            assert(self.process.running@[t] == pre.process.running@[t]);
                        }
                    }
                    lemma_update_preserves_wf(pre, *self, i);
                }
                Ok(action)
            },
        }
    }

    /// Completes a graceful stop after the leader's exit has been waited
    /// out: the record goes to Stopped and loses its pid.
    pub fn finish_stop(&mut self, container_id: &str) -> (r: Result<(), TurbineError>)
        requires
            old(self).wf(),
        ensures
            final(self).wf(),
            r is Ok <==> (old(self).registry.contains_id(container_id@) && (old(self).registry@[
                old(self).registry.idx_of(container_id@)].state matches ContainerState::Running
                || old(self).registry@[old(self).registry.idx_of(container_id@)].state
                matches ContainerState::Paused)),
            r is Err ==> Self::same_views(*old(self), *final(self)),
            r matches Err(e) ==> e matches TurbineError::ContainerError(_),
            !old(self).registry.contains_id(container_id@) ==> (r matches Err(
                TurbineError::ContainerError(m),
            ) && m@ == "Container not found"@),
            old(self).registry.contains_id(container_id@) && !(old(self).registry@[old(self).registry.idx_of(container_id@)].state matches ContainerState::Running) && !(old(self).registry@[old(self).registry.idx_of(container_id@)].state
                matches ContainerState::Paused) ==> (r matches Err(TurbineError::ContainerError(
                m,
            )) && m@ == "Container is not running"@),
            r is Ok ==> {
                let i = old(self).registry.idx_of(container_id@);
                &&& final(self).registry@.len() == old(self).registry@.len()
                &&& (forall|j: int|
                    0 <= j < old(self).registry@.len() && j != i
                        ==> final(self).registry@[j] == old(self).registry@[j])
                &&& final(self).registry@[i].state matches ContainerState::Stopped
                &&& final(self).registry@[i].pid is None
                &&& final(self).registry@[i].stopped_at is Some
                &&& final(self).registry@[i].id == old(self).registry@[i].id
                &&& final(self).registry@[i].config == old(self).registry@[i].config
                &&& final(self).network == old(self).network
                &&& final(self).process == old(self).process
            },
    {
        let ghost pre = *old(self);
        match self.registry.get_mut(container_id) {
            None => Err(TurbineError::ContainerError("Container not found".to_owned())),
            Some(c) => {
                let stoppable = match c.state {
                    ContainerState::Running => true,
                    ContainerState::Paused => true,
                    _ => false,
                };
                if !stoppable {
                    proof {
                        assert(pre.registry@.update(pre.registry.idx_of(container_id@), *c)
                            =~= pre.registry@);
                    }
                    return Err(
                        TurbineError::ContainerError("Container is not running".to_owned()),
                    );
                }
                c.set_state(ContainerState::Stopped);
                proof {
                    let i = pre.registry.idx_of(container_id@);
                    assert(forall|j: int|
                        0 <= j < pre.registry@.len() && j != i ==> self.registry@[j]
                            == pre.registry@[j]);
                    lemma_update_preserves_wf(pre, *self, i);
                }
                Ok(())
            },
        }
    }

    /// Suspends a Running container: the stop signal goes to the leader
    /// and the record moves to Paused. Any other state, or a refused
    /// signal, changes nothing.
    pub fn pause_container(&mut self, container_id: &str) -> (r: Result<(), TurbineError>)
        requires
            old(self).wf(),
        ensures
            final(self).wf(),
            r is Ok ==> (old(self).registry.contains_id(container_id@) && old(self).registry@[old(self).registry.idx_of(container_id@)].state matches ContainerState::Running),
            !old(self).registry.contains_id(container_id@) ==> (r matches Err(
                TurbineError::ContainerError(_),
            )),
            r is Err ==> Self::same_views(*old(self), *final(self)),
            r matches Err(e) ==> (e matches TurbineError::ContainerError(_) || e
                matches TurbineError::ProcessError(_)),
            r is Ok ==> {
                let i = old(self).registry.idx_of(container_id@);
                &&& final(self).registry@.len() == old(self).registry@.len()
                &&& (forall|j: int|
                    0 <= j < old(self).registry@.len() && j != i
                        ==> final(self).registry@[j] == old(self).registry@[j])
                &&& final(self).registry@[i].state matches ContainerState::Paused
                &&& final(self).registry@[i].pid == old(self).registry@[i].pid
                &&& final(self).registry@[i].id == old(self).registry@[i].id
                &&& final(self).registry@[i].config == old(self).registry@[i].config
                &&& final(self).network == old(self).network
                &&& final(self).process == old(self).process
            },
    {
        let ghost pre = *old(self);
        match self.registry.get_mut(container_id) {
            None => Err(TurbineError::ContainerError("Container not found".to_owned())),
            Some(c) => {
                let running = matches!(c.state, ContainerState::Running);
                if !running {
                    proof {
                        assert(pre.registry@.update(pre.registry.idx_of(container_id@), *c)
                            =~= pre.registry@);
                    }
                    return Err(
                        TurbineError::ContainerError("Container is not running".to_owned()),
                    );
                }
                match self.process.pause_container(container_id) {
                    Err(e) => {
                        proof {
                            assert(pre.registry@.update(pre.registry.idx_of(container_id@), *c)
                                =~= pre.registry@);
                        }
                        Err(e)
                    },
                    Ok(_) => {
                        c.set_state(ContainerState::Paused);
                        proof {
                            let i = pre.registry.idx_of(container_id@);
                            assert(forall|j: int|
                                0 <= j < pre.registry@.len() && j != i ==> self.registry@[j]
                                    == pre.registry@[j]);
                            lemma_update_preserves_wf(pre, *self, i);
                        }
                        Ok(())
                    },
                }
            },
        }
    }

    /// Wakes a Paused container: the continue signal goes to the leader
    /// and the record moves back to Running. Any other state, or a
    /// refused signal, changes nothing.
    pub fn resume_container(&mut self, container_id: &str) -> (r: Result<(), TurbineError>)
        requires
            old(self).wf(),
        ensures
            final(self).wf(),
            r is Ok ==> (old(self).registry.contains_id(container_id@) && old(self).registry@[old(self).registry.idx_of(container_id@)].state matches ContainerState::Paused),
            !old(self).registry.contains_id(container_id@) ==> (r matches Err(
                TurbineError::ContainerError(_),
            )),
            r is Err ==> Self::same_views(*old(self), *final(self)),
            r matches Err(e) ==> (e matches TurbineError::ContainerError(_) || e
                matches TurbineError::ProcessError(_)),
            r is Ok ==> {
                let i = old(self).registry.idx_of(container_id@);
                &&& final(self).registry@.len() == old(self).registry@.len()
                &&& (forall|j: int|
                    0 <= j < old(self).registry@.len() && j != i
                        ==> final(self).registry@[j] == old(self).registry@[j])
                &&& final(self).registry@[i].state matches ContainerState::Running
                &&& final(self).registry@[i].pid == old(self).registry@[i].pid
                &&& final(self).registry@[i].started_at is Some
                &&& final(self).registry@[i].id == old(self).registry@[i].id
                &&& final(self).registry@[i].config == old(self).registry@[i].config
                &&& final(self).network == old(self).network
                &&& final(self).process == old(self).process
            },
    {
        let ghost pre = *old(self);
        match self.registry.get_mut(container_id) {
            None => Err(TurbineError::ContainerError("Container not found".to_owned())),
            Some(c) => {
                let paused = matches!(c.state, ContainerState::Paused);
                if !paused {
                    proof {
                        assert(pre.registry@.update(pre.registry.idx_of(container_id@), *c)
                            =~= pre.registry@);
                    }
                    return Err(
                        TurbineError::ContainerError("Container is not paused".to_owned()),
                    );
                }
                match self.process.resume_container(container_id) {
                    Err(e) => {
                        proof {
                            assert(pre.registry@.update(pre.registry.idx_of(container_id@), *c)
                                =~= pre.registry@);
                        }
                        Err(e)
                    },
                    Ok(_) => {
                        c.set_state(ContainerState::Running);
                        proof {
                            let i = pre.registry.idx_of(container_id@);
                            assert(forall|j: int|
                                0 <= j < pre.registry@.len() && j != i ==> self.registry@[j]
                                    == pre.registry@[j]);
                            lemma_update_preserves_wf(pre, *self, i);
                        }
                        Ok(())
                    },
                }
            },
        }
    }

    /// Takes a container out of the world: its leader is killed if one is
    /// tracked, its network state is cleared, and its record leaves the
    /// registry. A Running container is refused unless forced. The
    /// removed record is handed back, moved to Stopped when it was
    /// running, so its host-side tree can still be torn down.
    pub fn remove_container(&mut self, container_id: &str, force: bool) -> (r: Result<
        Container,
        TurbineError,
    >)
        requires
            old(self).wf(),
        ensures
            final(self).wf(),
            r is Err ==> Self::same_views(*old(self), *final(self)),
            r matches Err(e) ==> e matches TurbineError::ContainerError(_),
            !old(self).registry.contains_id(container_id@) ==> (r matches Err(
                TurbineError::ContainerError(m),
            ) && m@ == "Container not found"@),
            old(self).registry.contains_id(container_id@) && !force && (old(self).registry@[old(self).registry.idx_of(container_id@)].state matches ContainerState::Running) ==> (r
                matches Err(TurbineError::ContainerError(m)) && m@
                == "Container is running. Use force=true to remove running container"@),
            r is Ok <==> (old(self).registry.contains_id(container_id@) && (force || !(old(self).registry@[old(self).registry.idx_of(container_id@)].state
                matches ContainerState::Running))),
            r matches Ok(c) ==> {
                &&& c.id@ == container_id@
                &&& final(self).registry@ == old(self).registry@.remove(
                    old(self).registry.idx_of(container_id@),
                )
                &&& !final(self).registry.contains_id(container_id@)
                &&& !final(self).network.has_alloc(container_id@)
                &&& !final(self).network.has_ports(container_id@)
                &&& (forall|t: int|
                    0 <= t < final(self).network.port_mappings@.len() ==> (#[trigger] final(self).network.port_mappings@[t]).1@ != container_id@)
                &&& !final(self).process.tracks(container_id@)
                &&& final(self).process.running@ == (if old(self).process.tracks(container_id@) {
                    old(self).process.running@.remove(
                        old(self).process.track_idx(container_id@),
                    )
                } else {
                    old(self).process.running@
                })
            },
    {
        let ghost pre = *old(self);
        let was_running: bool;
        match self.registry.get(container_id) {
            None => {
                return Err(TurbineError::ContainerError("Container not found".to_owned()));
            },
            Some(c) => {
                was_running = c.is_running();
                proof {
                    let j = choose|j: int|
                        0 <= j < pre.registry@.len() && pre.registry@[j] == *c;
                    let i = pre.registry.idx_of(container_id@);
                    assert(pre.registry@[i].id@ == container_id@);
                    if i != j {
                        assert(pre.registry@[i].id@ == pre.registry@[j].id@);
                    }
                    assert(pre.registry@[i] == *c);
                }
                if was_running && !force {
                    return Err(
                        TurbineError::ContainerError(
                            "Container is running. Use force=true to remove running container".to_owned(),
                        ),
                    );
                }
            },
        }
        let stop_result = self.process.stop_container(container_id, true);
        proof {
            assert(stop_result.is_ok());
        }
        match self.registry.remove(container_id) {
            None => {
                proof {
                    assert(false);
                }
                Err(TurbineError::ContainerError("Container not found".to_owned()))
            },
            Some(removed) => {
                let cleanup_result = self.network.cleanup_container_network(&removed);
                proof {
                    assert(cleanup_result.is_ok());
                }
                let mut removed = removed;
                if was_running {
                    removed.set_state(ContainerState::Stopped);
                }
                proof {
                    lemma_remove_preserves_wf(pre, *self, container_id@);
                }
                Ok(removed)
            },
        }
    }

    /// One sweep over the whole runtime: every tracked leader is killed
    /// and forgotten, and every Running container is removed with force.
    /// Containers in any other state keep their records. A second sweep
    /// finds nothing to do.
    pub fn cleanup(&mut self) -> (r: Result<(), TurbineError>)
        requires
            old(self).wf(),
        ensures
            final(self).wf(),
            r.is_ok(),
            Self::cleanup_rel(*old(self), *final(self)),
    {
        let first = self.registry.first_running_id();
        if first.is_none() && self.process.running.len() == 0 {
            return Ok(());
        }
        let killed = self.process.cleanup_all();
        proof {
            assert(killed.is_ok());
        }
        let mut target = self.registry.first_running_id();
        while target.is_some()
            invariant
                self.wf(),
                self.process.running@.len() == 0,
                match target {
                    Some(s) => self.registry.contains_id(s@) && (self.registry@[
                        self.registry.idx_of(s@)].state matches ContainerState::Running),
                    None => forall|i: int|
                        0 <= i < self.registry@.len() ==> !((#[trigger] self.registry@[i]).state
                            matches ContainerState::Running),
                },
            decreases self.registry@.len(),
        {
            let id = match target {
                Some(s) => s,
                None => {
                    proof {
                        assert(false);
                    }
                    return Ok(());
                },
            };
            let ghost len_before = self.registry@.len();
            let removed = self.remove_container(id.as_str(), true);
            proof {
                assert(removed.is_ok());
                assert(self.registry@.len() < len_before);
            }
            target = self.registry.first_running_id();
        }
        Ok(())
    }

    /// Deep copies of every record, in registry order.
    pub fn list_containers(&self) -> (r: Vec<Container>)
        ensures
            r@.len() == self.registry@.len(),
            forall|i: int|
                0 <= i < r@.len() ==> (#[trigger] r@[i]).deep_view()
                    == self.registry@[i].deep_view(),
    {
        let entries = self.registry.list();
        let n = entries.len();
        let mut r: Vec<Container> = Vec::new();
        let mut i: usize = 0;
        while i < n
            invariant
                n == entries@.len(),
                entries@.len() == self.registry@.len(),
                forall|k: int| 0 <= k < n ==> *(#[trigger] entries@[k]) == self.registry@[k],
                i <= n,
                r@.len() == i,
                forall|k: int|
                    0 <= k < i ==> (#[trigger] r@[k]).deep_view()
                        == self.registry@[k].deep_view(),
            decreases n - i,
        {
            r.push(entries[i].clone());
            i += 1;
        }
        r
    }

    /// A deep copy of the record with this id.
    pub fn get_container(&self, container_id: &str) -> (r: Result<Container, TurbineError>)
        requires
            self.wf(),
        ensures
            r is Ok <==> self.registry.contains_id(container_id@),
            r matches Ok(c) ==> c.deep_view() == self.registry@[self.registry.idx_of(
                container_id@,
            )].deep_view(),
            r matches Err(e) ==> e matches TurbineError::ContainerError(m) && m@
                == "Container not found"@,
    {
        match self.registry.get(container_id) {
            None => Err(TurbineError::ContainerError("Container not found".to_owned())),
            Some(c) => {
                proof {
                    let j = choose|j: int|
                        0 <= j < self.registry@.len() && self.registry@[j] == *c;
                    let i = self.registry.idx_of(container_id@);
                    assert(self.registry@[i].id@ == container_id@);
                    if i != j {
                        assert(self.registry@[i].id@ == self.registry@[j].id@);
                    }
                    assert(self.registry@[i] == *c);
                }
                Ok(c.clone())
            },
        }
    }

    /// The ids of every container with a tracked leader.
    pub fn get_running_containers(&self) -> (r: Vec<String>)
        ensures
            r@.len() == self.process.running@.len(),
            forall|i: int| 0 <= i < r@.len() ==> (#[trigger] r@[i])@ == self.process.running@[i].0@,
    {
        self.process.get_running_containers()
    }

    /// The precondition shared by logs, exec and stats: the container must exist
    /// and be Running.
    pub fn require_running(&self, container_id: &str) -> (r: Result<(), TurbineError>)
        requires
            self.wf(),
        ensures
            r is Ok <==> (self.registry.contains_id(container_id@) && (self.registry@[
                self.registry.idx_of(container_id@)].state matches ContainerState::Running)),
            !self.registry.contains_id(container_id@) ==> (r matches Err(
                TurbineError::ContainerError(m),
            ) && m@ == "Container not found"@),
            self.registry.contains_id(container_id@) && !(self.registry@[self.registry.idx_of(
                container_id@,
            )].state matches ContainerState::Running) ==> (r matches Err(
                TurbineError::ContainerError(m),
            ) && m@ == "Container is not running"@),
    {
        match self.registry.get(container_id) {
            None => Err(TurbineError::ContainerError("Container not found".to_owned())),
            Some(c) => {
                proof {
                    let j = choose|j: int|
                        0 <= j < self.registry@.len() && self.registry@[j] == *c;
                    let i = self.registry.idx_of(container_id@);
                    assert(self.registry@[i].id@ == container_id@);
                    if i != j {
                        assert(self.registry@[i].id@ == self.registry@[j].id@);
                    }
                    assert(self.registry@[i] == *c);
                }
                if c.is_running() {
                    Ok(())
                } else {
                    Err(TurbineError::ContainerError("Container is not running".to_owned()))
                }
            },
        }
    }

    /// The configuration `deploy` uses for a web app: the given name and
    /// image on the defaults, with the web port mapping and environment.
    pub fn web_config(&self, name: String, image: String, port: u16) -> (r: ContainerConfig)
        ensures
            r.name == name,
            r.image == image,
            r.ports@.len() == 1,
            r.ports@[0].host_port == port,
            r.ports@[0].container_port == 8080u16,
            r.ports@[0].protocol@ == "tcp"@,
            r.environment@.len() == 2,
            r.environment@[0].0@ == "PORT"@,
            r.environment@[0].1@ == "8080"@,
            r.environment@[1].0@ == "NODE_ENV"@,
            r.environment@[1].1@ == "production"@,
            r.restart_policy == crate::config::RestartPolicy::Always,
            r.resources.memory_mb == Some(512u64),
            r.resources.cpu_quota_milli == Some(1000u64),
            r.volumes@.len() == 0,
            r.user is None,
            r.uid is None,
    {
        let mut config = ContainerConfig::default();
        config.name = name;
        config.image = image;
        config.set_web_defaults(port);
        proof {
            reveal(Seq::filter);
            assert(config.environment@.drop_last().drop_last() =~= Seq::<(
                String,
                String,
            )>::empty());
            assert(config.environment@.len() == 2);
            assert(config.environment@[0] == config.environment@.drop_last().last());
            assert(config.ports@.len() == 1);
            assert(config.ports@[0] == config.ports@.last());
        }
        config
    }

    /// What one cleanup pass promises: all leaders forgotten, no Running
    /// record left, and a pass over an already-clean runtime leaves
    /// every view as it was.
    pub open spec fn cleanup_rel(pre: TurbineRuntime, post: TurbineRuntime) -> bool {
        &&& post.process.running@.len() == 0
        &&& (forall|i: int|
            0 <= i < post.registry@.len() ==> !((#[trigger] post.registry@[i]).state
                matches ContainerState::Running))
        &&& ((pre.process.running@.len() == 0 && (forall|i: int|
            0 <= i < pre.registry@.len() ==> !((#[trigger] pre.registry@[i]).state
                matches ContainerState::Running))) ==> Self::same_views(pre, post))
    }
}

/// Cleanup is idempotent: after one pass, a second pass changes no view
/// of the runtime.
pub proof fn lemma_cleanup_idempotent(a: TurbineRuntime, b: TurbineRuntime, c: TurbineRuntime)
    requires
        TurbineRuntime::cleanup_rel(a, b),
        TurbineRuntime::cleanup_rel(b, c),
    ensures
        TurbineRuntime::same_views(b, c),
{
}

/// In a well-formed runtime, a record carries a leader pid exactly while
/// it is Running or Paused.
pub proof fn lemma_leader_pid_matches_state(rt: TurbineRuntime, i: int)
    requires
        rt.wf(),
        0 <= i < rt.registry@.len(),
    ensures
        rt.registry@[i].pid is Some <==> (rt.registry@[i].state matches ContainerState::Running
            || rt.registry@[i].state matches ContainerState::Paused),
{
    assert(pid_state_consistent(rt.registry@[i]));
}

/// In a well-formed runtime, every forwarded host port belongs to
/// exactly one registered container, which configures that port; and
/// every configured port of a registered container is forwarded to it.
pub proof fn lemma_port_table_consistent(rt: TurbineRuntime, i: int)
    requires
        rt.wf(),
        0 <= i < rt.network.port_mappings@.len(),
    ensures
        rt.registry.contains_id(rt.network.port_mappings@[i].1@),
        forall|j: int|
            0 <= j < rt.registry@.len() && (#[trigger] rt.registry@[j]).id@
                == rt.network.port_mappings@[i].1@ ==> has_port(
                rt.registry@[j].config.ports@,
                rt.network.port_mappings@[i].0,
            ),
        forall|j: int, k: int|
            0 <= j < rt.registry@.len() && 0 <= k < rt.registry@[j].config.ports@.len()
                ==> mapped_to(
                rt.network.port_mappings@,
                (#[trigger] rt.registry@[j].config.ports@[k]).host_port,
                rt.registry@[j].id@,
            ),
{
    assert(rt.registry.contains_id((rt.network.port_mappings@[i]).1@));
    assert forall|j: int|
        0 <= j < rt.registry@.len() && (#[trigger] rt.registry@[j]).id@
            == rt.network.port_mappings@[i].1@ implies has_port(
        rt.registry@[j].config.ports@,
        rt.network.port_mappings@[i].0,
    ) by {
        assert(rt.network.port_mappings@[i] == rt.network.port_mappings@[i]);
    }
}

/// In a well-formed runtime, every registered allocation holds one
/// address per configured family, in family order, and no address is
/// ever handed to two containers.
pub proof fn lemma_allocations_consistent(rt: TurbineRuntime)
    requires
        rt.wf(),
    ensures
        forall|i: int|
            0 <= i < rt.network.allocated_ips@.len() ==> crate::network::spec_alloc_shape(
                rt.network.network_config,
                (#[trigger] rt.network.allocated_ips@[i]).1@,
            ),
        forall|i: int, k: int, j: int, l: int|
            0 <= i < rt.network.allocated_ips@.len() && 0 <= k
                < rt.network.allocated_ips@[i].1@.len() && 0 <= j
                < rt.network.allocated_ips@.len() && 0 <= l
                < rt.network.allocated_ips@[j].1@.len() && (i != j || k != l)
                ==> rt.network.allocated_ips@[i].1@[k] != rt.network.allocated_ips@[j].1@[l],
        forall|i: int|
            0 <= i < rt.network.allocated_ips@.len() ==> rt.registry.contains_id(
                (#[trigger] rt.network.allocated_ips@[i]).0@,
            ),
{
}

/// Removing one record together with everything the managers hold for
/// it keeps the orchestrator's invariant.
#[verifier::rlimit(100)]
proof fn lemma_remove_preserves_wf(pre: TurbineRuntime, post: TurbineRuntime, id: Seq<char>)
    requires
        pre.wf(),
        pre.registry.contains_id(id),
        post.registry@ == pre.registry@.remove(pre.registry.idx_of(id)),
        post.registry.wf(),
        post.network.wf(),
        post.process.wf(),
        forall|t: int|
            0 <= t < post.network.port_mappings@.len() ==> (#[trigger] post.network.port_mappings@[
                t]).1@ != id && pre.network.port_mappings@.contains(
                post.network.port_mappings@[t],
            ),
        forall|t: int|
            0 <= t < pre.network.port_mappings@.len() && (#[trigger] pre.network.port_mappings@[
                t]).1@ != id ==> post.network.port_mappings@.contains(
                pre.network.port_mappings@[t],
            ),
        post.network.allocated_ips@ == (if pre.network.has_alloc(id) {
            pre.network.allocated_ips@.remove(pre.network.alloc_idx(id))
        } else {
            pre.network.allocated_ips@
        }),
        post.network.container_ports@ == (if pre.network.has_ports(id) {
            pre.network.container_ports@.remove(pre.network.ports_idx(id))
        } else {
            pre.network.container_ports@
        }),
        post.process.running@ == (if pre.process.tracks(id) {
            pre.process.running@.remove(pre.process.track_idx(id))
        } else {
            pre.process.running@
        }),
    ensures
        post.wf(),
{
    let i = pre.registry.idx_of(id);
    let oldr = pre.registry@;
    let newr = post.registry@;
    assert(0 <= i < oldr.len() && oldr[i].id@ == id);
    assert(forall|j: int|
        0 <= j < newr.len() ==> #[trigger] newr[j] == (if j < i {
            oldr[j]
        } else {
            oldr[j + 1]
        }));
    assert forall|x: Seq<char>|
        #![trigger post.registry.contains_id(x)]
        post.registry.contains_id(x) == (pre.registry.contains_id(x) && x != id) by {
        if post.registry.contains_id(x) {
            let a = choose|a: int| 0 <= a < newr.len() && newr[a].id@ == x;
            if a < i {
                assert(oldr[a].id@ == x);
                if x == id {
                    assert(oldr[a].id@ == oldr[i].id@);
                }
            } else {
                assert(oldr[a + 1].id@ == x);
                if x == id {
                    assert(oldr[a + 1].id@ == oldr[i].id@);
                }
            }
        }
        if pre.registry.contains_id(x) && x != id {
            let a = choose|a: int| 0 <= a < oldr.len() && oldr[a].id@ == x;
            assert(a != i);
            if a < i {
                assert(newr[a].id@ == x);
            } else {
                assert(newr[a - 1].id@ == x);
            }
        }
    }
    assert(post.pids_consistent()) by {
        assert(forall|j: int| 0 <= j < newr.len() ==> pid_state_consistent(#[trigger] newr[j]));
    }
    let opm = pre.network.port_mappings@;
    let npm = post.network.port_mappings@;
    assert(forall|t: int|
        0 <= t < npm.len() ==> (#[trigger] npm[t]).1@ != id && opm.contains(npm[t]));
    assert(post.ids_registered()) by {
        assert forall|t: int|
            0 <= t < post.network.allocated_ips@.len() implies post.registry.contains_id(
            (#[trigger] post.network.allocated_ips@[t]).0@,
        ) by {
            if pre.network.has_alloc(id) {
                let a = pre.network.alloc_idx(id);
                assert(0 <= a < pre.network.allocated_ips@.len()
                    && pre.network.allocated_ips@[a].0@ == id);
                let src = if t < a { t } else { t + 1 };
                assert(post.network.allocated_ips@[t] == pre.network.allocated_ips@[src]);
                assert(pre.registry.contains_id(pre.network.allocated_ips@[src].0@));
                assert(pre.network.allocated_ips@[src].0@ != id);
            } else {
                assert(post.network.allocated_ips@[t] == pre.network.allocated_ips@[t]);
                assert(pre.registry.contains_id(pre.network.allocated_ips@[t].0@));
                assert(pre.network.allocated_ips@[t].0@ != id) by {
                    if pre.network.allocated_ips@[t].0@ == id {
                        assert(pre.network.has_alloc(id));
                    }
                }
            }
        }
        assert forall|t: int|
            0 <= t < npm.len() implies post.registry.contains_id((#[trigger] npm[t]).1@) by {
            let a = choose|a: int| 0 <= a < opm.len() && opm[a] == npm[t];
            assert(pre.registry.contains_id(opm[a].1@));
        }
        assert forall|t: int|
            0 <= t < post.network.container_ports@.len() implies post.registry.contains_id(
            (#[trigger] post.network.container_ports@[t]).0@,
        ) by {
            if pre.network.has_ports(id) {
                let a = pre.network.ports_idx(id);
                assert(0 <= a < pre.network.container_ports@.len()
                    && pre.network.container_ports@[a].0@ == id);
                let src = if t < a { t } else { t + 1 };
                assert(post.network.container_ports@[t] == pre.network.container_ports@[src]);
                assert(pre.registry.contains_id(pre.network.container_ports@[src].0@));
                assert(pre.network.container_ports@[src].0@ != id);
            } else {
                assert(post.network.container_ports@[t] == pre.network.container_ports@[t]);
                assert(pre.registry.contains_id(pre.network.container_ports@[t].0@));
                assert(pre.network.container_ports@[t].0@ != id) by {
                    if pre.network.container_ports@[t].0@ == id {
                        assert(pre.network.has_ports(id));
                    }
                }
            }
        }
        assert forall|t: int|
            0 <= t < post.process.running@.len() implies post.registry.contains_id(
            (#[trigger] post.process.running@[t]).0@,
        ) by {
            if pre.process.tracks(id) {
                let a = pre.process.track_idx(id);
                assert(0 <= a < pre.process.running@.len() && pre.process.running@[a].0@ == id);
                let src = if t < a { t } else { t + 1 };
                assert(post.process.running@[t] == pre.process.running@[src]);
                assert(pre.registry.contains_id(pre.process.running@[src].0@));
                assert(pre.process.running@[src].0@ != id);
            } else {
                assert(post.process.running@[t] == pre.process.running@[t]);
                assert(pre.registry.contains_id(pre.process.running@[t].0@));
                assert(pre.process.running@[t].0@ != id) by {
                    if pre.process.running@[t].0@ == id {
                        assert(pre.process.tracks(id));
                    }
                }
            }
        }
    }
    assert forall|a: int, j: int|
        #![trigger npm[a], newr[j]]
        0 <= a < npm.len() && 0 <= j < newr.len() && newr[j].id@ == npm[a].1@ implies has_port(
        newr[j].config.ports@,
        npm[a].0,
    ) by {
        let a0 = choose|a0: int| 0 <= a0 < opm.len() && opm[a0] == npm[a];
        let js = if j < i { j } else { j + 1 };
        assert(newr[j] == oldr[js]);
        assert(oldr[js].id@ == opm[a0].1@);
        assert(has_port(oldr[js].config.ports@, opm[a0].0));
    }
    assert forall|j: int, k: int|
        #![trigger newr[j].config.ports@[k]]
        0 <= j < newr.len() && 0 <= k < newr[j].config.ports@.len() implies mapped_to(
        npm,
        newr[j].config.ports@[k].host_port,
        newr[j].id@,
    ) by {
        let js = if j < i { j } else { j + 1 };
        assert(newr[j] == oldr[js]);
        assert(oldr[js].config.ports@[k] == oldr[js].config.ports@[k]);
        assert(mapped_to(opm, oldr[js].config.ports@[k].host_port, oldr[js].id@));
        let t = choose|t: int|
            0 <= t < opm.len() && opm[t].0 == oldr[js].config.ports@[k].host_port && opm[t].1@
                == oldr[js].id@;
        assert(oldr[js].id@ != id) by {
            if js != i && oldr[js].id@ == oldr[i].id@ {
                assert(false);
            }
        }
        assert(opm[t].1@ != id);
        assert(npm.contains(opm[t]));
        let w = choose|w: int| 0 <= w < npm.len() && npm[w] == opm[t];
        assert(npm[w].0 == newr[j].config.ports@[k].host_port && npm[w].1@ == newr[j].id@);
    }
    assert(post.ports_mapped());
}

/// Replacing one record by another with the same id and ports, and
/// touching the process table only with entries the registry knows,
/// keeps the orchestrator's invariant.
#[verifier::rlimit(100)]
proof fn lemma_update_preserves_wf(pre: TurbineRuntime, post: TurbineRuntime, i: int)
    requires
        pre.wf(),
        0 <= i < pre.registry@.len(),
        post.registry@.len() == pre.registry@.len(),
        forall|j: int|
            0 <= j < pre.registry@.len() && j != i ==> post.registry@[j] == pre.registry@[j],
        post.registry@[i].id@ == pre.registry@[i].id@,
        post.registry@[i].config.ports@ == pre.registry@[i].config.ports@,
        pid_state_consistent(post.registry@[i]),
        post.network == pre.network,
        forall|t: int|
            0 <= t < post.process.running@.len() ==> pre.registry.contains_id(
                (#[trigger] post.process.running@[t]).0@,
            ) || post.process.running@[t].0@ == pre.registry@[i].id@,
        post.process.wf(),
    ensures
        post.wf(),
{
    let oldr = pre.registry@;
    let newr = post.registry@;
    assert(forall|j: int| 0 <= j < newr.len() ==> (#[trigger] newr[j]).id@ == oldr[j].id@);
    assert(post.registry.wf());
    assert forall|id: Seq<char>|
        #![trigger post.registry.contains_id(id)]
        pre.registry.contains_id(id) == post.registry.contains_id(id) by {
        if pre.registry.contains_id(id) {
            let a = choose|a: int| 0 <= a < oldr.len() && oldr[a].id@ == id;
            assert(newr[a].id@ == id);
        }
        if post.registry.contains_id(id) {
            let a = choose|a: int| 0 <= a < newr.len() && newr[a].id@ == id;
            assert(oldr[a].id@ == id);
        }
    }
    assert(post.pids_consistent()) by {
        assert(forall|j: int|
            0 <= j < newr.len() ==> pid_state_consistent(#[trigger] newr[j]));
    }
    assert(post.ids_registered()) by {
        assert(post.registry.contains_id(pre.registry@[i].id@)) by {
            assert(newr[i].id@ == pre.registry@[i].id@);
        }
        assert(forall|t: int|
            0 <= t < post.network.allocated_ips@.len() ==> post.registry.contains_id(
                (#[trigger] post.network.allocated_ips@[t]).0@,
            ));
        assert(forall|t: int|
            0 <= t < post.network.port_mappings@.len() ==> post.registry.contains_id(
                (#[trigger] post.network.port_mappings@[t]).1@,
            ));
        assert(forall|t: int|
            0 <= t < post.network.container_ports@.len() ==> post.registry.contains_id(
                (#[trigger] post.network.container_ports@[t]).0@,
            ));
        assert(forall|t: int|
            0 <= t < post.process.running@.len() ==> post.registry.contains_id(
                (#[trigger] post.process.running@[t]).0@,
            ));
    }
    let pm = post.network.port_mappings@;
    assert forall|a: int, j: int|
        #![trigger pm[a], newr[j]]
        0 <= a < pm.len() && 0 <= j < newr.len() && newr[j].id@ == pm[a].1@ implies has_port(
        newr[j].config.ports@,
        pm[a].0,
    ) by {
        assert(pre.network.port_mappings@[a] == pm[a]);
        assert(oldr[j].id@ == pm[a].1@);
        assert(has_port(oldr[j].config.ports@, pm[a].0));
        assert(newr[j].config.ports@ == oldr[j].config.ports@);
    }
    assert forall|j: int, k: int|
        #![trigger newr[j].config.ports@[k]]
        0 <= j < newr.len() && 0 <= k < newr[j].config.ports@.len() implies mapped_to(
        pm,
        newr[j].config.ports@[k].host_port,
        newr[j].id@,
    ) by {
        assert(newr[j].config.ports@ == oldr[j].config.ports@);
        assert(oldr[j].config.ports@[k] == oldr[j].config.ports@[k]);
        assert(mapped_to(
            pre.network.port_mappings@,
            oldr[j].config.ports@[k].host_port,
            oldr[j].id@,
        ));
    }
    assert(post.ports_mapped());
}

/// Registering a fresh, consistent record on top of an atomic network
/// setup keeps the orchestrator's invariant.
#[verifier::rlimit(100)]
proof fn lemma_register_preserves_wf(
    pre: TurbineRuntime,
    mid: TurbineRuntime,
    post: TurbineRuntime,
    c: Container,
)
    requires
        pre.wf(),
        c.state matches ContainerState::Created,
        c.pid is None,
        !pre.registry.contains_id(c.id@),
        !pre.network.has_alloc(c.id@),
        !pre.network.has_ports(c.id@),
        mid.network.wf(),
        mid.network.allocated_ips@.len() == pre.network.allocated_ips@.len() + 1,
        mid.network.allocated_ips@.drop_last() == pre.network.allocated_ips@,
        mid.network.allocated_ips@.last().0@ == c.id@,
        mid.network.port_mappings@.len() == pre.network.port_mappings@.len()
            + c.config.ports@.len(),
        mid.network.port_mappings@.subrange(0, pre.network.port_mappings@.len() as int)
            == pre.network.port_mappings@,
        forall|k: int|
            #![trigger c.config.ports@[k]]
            0 <= k < c.config.ports@.len() ==> mid.network.port_mappings@[
                pre.network.port_mappings@.len() + k].0 == c.config.ports@[k].host_port
                && mid.network.port_mappings@[pre.network.port_mappings@.len() + k].1@ == c.id@,
        mid.network.container_ports@.len() >= 1,
        mid.network.container_ports@.last().0@ == c.id@,
        mid.network.container_ports@.drop_last() == pre.network.container_ports@,
        mid.process.running@ == pre.process.running@,
        post.network == mid.network,
        post.process == mid.process,
        post.registry@ == pre.registry@.push(c),
        post.registry.wf(),
    ensures
        post.wf(),
{
    let oldr = pre.registry@;
    let newr = post.registry@;
    assert(forall|i: int| 0 <= i < oldr.len() ==> newr[i] == oldr[i]);
    assert(newr[oldr.len() as int] == c);
    assert forall|id: Seq<char>|
        pre.registry.contains_id(id) implies #[trigger] post.registry.contains_id(id) by {
        let i = choose|i: int| 0 <= i < oldr.len() && oldr[i].id@ == id;
        assert(newr[i].id@ == id);
    }
    assert(post.registry.contains_id(c.id@)) by {
        assert(newr[oldr.len() as int].id@ == c.id@);
    }
    assert(post.pids_consistent()) by {
        assert(forall|i: int| 0 <= i < newr.len() ==> pid_state_consistent(#[trigger] newr[i]))
            by {
            assert(pid_state_consistent(c));
        }
    }
    let opm = pre.network.port_mappings@;
    let npm = post.network.port_mappings@;
    assert(forall|i: int| 0 <= i < opm.len() ==> #[trigger] npm[i] == opm[i]);
    assert forall|i: int|
        opm.len() <= i < npm.len() implies (#[trigger] npm[i]).1@ == c.id@ && npm[i].0
        == c.config.ports@[i - opm.len()].host_port by {
        let k = i - opm.len();
        assert(0 <= k < c.config.ports@.len());
        assert(c.config.ports@[k] == c.config.ports@[k]);
        assert(mid.network.port_mappings@[pre.network.port_mappings@.len() + k].0
            == c.config.ports@[k].host_port);
        assert(npm == mid.network.port_mappings@);
        assert(pre.network.port_mappings@.len() == opm.len());
        assert(npm[i].0 == c.config.ports@[k].host_port);
        assert(npm[i].1@ == c.id@);
    }
    assert(post.ids_registered()) by {
        assert(forall|i: int|
            0 <= i < post.network.allocated_ips@.len() ==> post.registry.contains_id(
                (#[trigger] post.network.allocated_ips@[i]).0@,
            )) by {
            assert(forall|i: int|
                0 <= i < post.network.allocated_ips@.len() - 1
                    ==> #[trigger] post.network.allocated_ips@[i]
                    == pre.network.allocated_ips@[i]);
            assert(post.network.allocated_ips@.last().0@ == c.id@);
        }
        assert(forall|i: int|
            0 <= i < npm.len() ==> post.registry.contains_id((#[trigger] npm[i]).1@));
        assert(forall|i: int|
            0 <= i < post.network.container_ports@.len() ==> post.registry.contains_id(
                (#[trigger] post.network.container_ports@[i]).0@,
            )) by {
            assert(forall|i: int|
                0 <= i < post.network.container_ports@.len() - 1
                    ==> #[trigger] post.network.container_ports@[i]
                    == pre.network.container_ports@[i]);
            assert(post.network.container_ports@.last().0@ == c.id@);
        }
        assert(forall|i: int|
            0 <= i < post.process.running@.len() ==> post.registry.contains_id(
                (#[trigger] post.process.running@[i]).0@,
            ));
    }
    assert forall|i: int, j: int|
        #![trigger npm[i], newr[j]]
        0 <= i < npm.len() && 0 <= j < newr.len() && newr[j].id@ == npm[i].1@ implies has_port(
        newr[j].config.ports@,
        npm[i].0,
    ) by {
        if i < opm.len() {
            if j < oldr.len() {
                assert(oldr[j].id@ == opm[i].1@);
                assert(has_port(oldr[j].config.ports@, opm[i].0));
            } else {
                assert(newr[j] == c);
                assert(pre.registry.contains_id(opm[i].1@));
                let a = choose|a: int| 0 <= a < oldr.len() && oldr[a].id@ == opm[i].1@;
                assert(false);
            }
        } else {
            let k = i - opm.len();
            if j < oldr.len() {
                assert(oldr[j].id@ == c.id@);
                assert(pre.registry.contains_id(c.id@)) by {
                    assert(oldr[j].id@ == c.id@);
                }
                assert(false);
            } else {
                assert(newr[j] == c);
                assert(has_port(c.config.ports@, npm[i].0)) by {
                    assert(c.config.ports@[k].host_port == npm[i].0);
                }
            }
        }
    }
    assert forall|j: int, k: int|
        #![trigger newr[j].config.ports@[k]]
        0 <= j < newr.len() && 0 <= k < newr[j].config.ports@.len() implies mapped_to(
        npm,
        newr[j].config.ports@[k].host_port,
        newr[j].id@,
    ) by {
        if j < oldr.len() {
            assert(newr[j] == oldr[j]);
            assert(oldr[j].config.ports@[k] == oldr[j].config.ports@[k]);
            assert(mapped_to(opm, oldr[j].config.ports@[k].host_port, oldr[j].id@));
            let i = choose|i: int|
                0 <= i < opm.len() && opm[i].0 == oldr[j].config.ports@[k].host_port && opm[i].1@
                    == oldr[j].id@;
            assert(npm[i] == opm[i]);
            assert(mapped_to(npm, newr[j].config.ports@[k].host_port, newr[j].id@)) by {
                assert(npm[i].0 == newr[j].config.ports@[k].host_port && npm[i].1@ == newr[
                    j].id@);
            }
        } else {
            assert(newr[j] == c);
            let i = opm.len() + k;
            assert(c.config.ports@[k] == c.config.ports@[k]);
            assert(mapped_to(npm, newr[j].config.ports@[k].host_port, newr[j].id@)) by {
                assert(npm[i].0 == c.config.ports@[k].host_port && npm[i].1@ == c.id@);
            }
        }
    }
    assert(post.ports_mapped());
}

} // verus!