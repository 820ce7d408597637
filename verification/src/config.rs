use vstd::prelude::*;
use vstd::string::*;
use crate::errors::TurbineError;
use crate::sys;
use crate::textutil::str_eq;

verus! {

/// One published port: a host port forwarded to a container port.
#[derive(Debug)]
pub struct PortMapping {
    pub host_port: u16,
    pub container_port: u16,
    pub protocol: String,
}

/// One bind-mounted volume: a host path attached at a container path.
#[derive(Debug)]
pub struct VolumeMount {
    pub host_path: String,
    pub container_path: String,
    pub readonly: bool,
}

/// Per-container resource bounds. The CPU quota is kept in thousandths of
/// a core, so a full core is 1000.
#[derive(Debug, Clone, Copy)]
pub struct ResourceLimits {
    pub memory_mb: Option<u64>,
    pub cpu_quota_milli: Option<u64>,
    pub disk_mb: Option<u64>,
    pub max_processes: Option<u32>,
}

/// Name resolution and bridge settings carried by a container's config.
#[derive(Debug)]
pub struct NetworkConfig {
    pub bridge: Option<String>,
    pub dns: Vec<String>,
    pub hostname: Option<String>,
}

/// What an external supervisor should do when the container exits.
#[derive(Debug, Clone, Copy, PartialEq, Eq, Structural)]
pub enum RestartPolicy {
    Never,
    Always,
    OnFailure,
    UnlessStopped,
}

/// The immutable per-container specification consumed by the runtime.
/// The environment is an association list; its keys are kept unique by the
/// operations that touch it.
#[derive(Debug)]
pub struct ContainerConfig {
    pub name: String,
    pub image: String,
    pub command: Vec<String>,
    pub working_dir: Option<String>,
    pub environment: Vec<(String, String)>,
    pub ports: Vec<PortMapping>,
    pub volumes: Vec<VolumeMount>,
    pub resources: ResourceLimits,
    pub network: NetworkConfig,
    pub user: Option<String>,
    pub uid: Option<u32>,
    pub gid: Option<u32>,
    pub groups: Option<Vec<u32>>,
    pub restart_policy: RestartPolicy,
}

/// The mathematical value of a `PortMapping`.
#[verifier::ext_equal]
pub struct PortMappingView {
    pub host_port: u16,
    pub container_port: u16,
    pub protocol: Seq<char>,
}

impl DeepView for PortMapping {
    type V = PortMappingView;

    open spec fn deep_view(&self) -> PortMappingView {
        PortMappingView {
            host_port: self.host_port,
            container_port: self.container_port,
            protocol: self.protocol@,
        }
    }
}

/// The mathematical value of a `VolumeMount`.
#[verifier::ext_equal]
pub struct VolumeMountView {
    pub host_path: Seq<char>,
    pub container_path: Seq<char>,
    pub readonly: bool,
}

impl DeepView for VolumeMount {
    type V = VolumeMountView;

    open spec fn deep_view(&self) -> VolumeMountView {
        VolumeMountView {
            host_path: self.host_path@,
            container_path: self.container_path@,
            readonly: self.readonly,
        }
    }
}

/// The mathematical value of a `NetworkConfig`.
#[verifier::ext_equal]
pub struct NetworkConfigView {
    pub bridge: Option<Seq<char>>,
    pub dns: Seq<Seq<char>>,
    pub hostname: Option<Seq<char>>,
}

impl DeepView for NetworkConfig {
    type V = NetworkConfigView;

    open spec fn deep_view(&self) -> NetworkConfigView {
        NetworkConfigView {
            bridge: self.bridge.deep_view(),
            dns: self.dns.deep_view(),
            hostname: self.hostname.deep_view(),
        }
    }
}

/// The mathematical value of a `ContainerConfig`.
#[verifier::ext_equal]
pub struct ConfigView {
    pub name: Seq<char>,
    pub image: Seq<char>,
    pub command: Seq<Seq<char>>,
    pub working_dir: Option<Seq<char>>,
    pub environment: Seq<(Seq<char>, Seq<char>)>,
    pub ports: Seq<PortMappingView>,
    pub volumes: Seq<VolumeMountView>,
    pub resources: ResourceLimits,
    pub network: NetworkConfigView,
    pub user: Option<Seq<char>>,
    pub uid: Option<u32>,
    pub gid: Option<u32>,
    pub groups: Option<Seq<u32>>,
    pub restart_policy: RestartPolicy,
}

impl DeepView for ContainerConfig {
    type V = ConfigView;

    open spec fn deep_view(&self) -> ConfigView {
        ConfigView {
            name: self.name@,
            image: self.image@,
            command: self.command.deep_view(),
            working_dir: self.working_dir.deep_view(),
            environment: self.environment.deep_view(),
            ports: self.ports.deep_view(),
            volumes: self.volumes.deep_view(),
            resources: self.resources,
            network: self.network.deep_view(),
            user: self.user.deep_view(),
            uid: self.uid,
            gid: self.gid,
            groups: match self.groups {
                Some(g) => Some(g@),
                None => None,
            },
            restart_policy: self.restart_policy,
        }
    }
}

impl Clone for PortMapping {
    fn clone(&self) -> (r: Self)
        ensures
            r.deep_view() == self.deep_view(),
    {
        PortMapping {
            host_port: self.host_port,
            container_port: self.container_port,
            protocol: self.protocol.clone(),
        }
    }
}

impl Clone for VolumeMount {
    fn clone(&self) -> (r: Self)
        ensures
            r.deep_view() == self.deep_view(),
    {
        VolumeMount {
            host_path: self.host_path.clone(),
            container_path: self.container_path.clone(),
            readonly: self.readonly,
        }
    }
}

impl Clone for NetworkConfig {
    fn clone(&self) -> (r: Self)
        ensures
            r.deep_view() == self.deep_view(),
    {
        let r = NetworkConfig {
            bridge: self.bridge.clone(),
            dns: self.dns.clone(),
            hostname: self.hostname.clone(),
        };
        proof {
            assert(r.dns.deep_view() =~= self.dns.deep_view());
            assert(r.deep_view() =~= self.deep_view());
        }
        r
    }
}

/// Copies an association list pair by pair.
pub(crate) fn clone_env(env: &Vec<(String, String)>) -> (r: Vec<(String, String)>)
    ensures
        r.deep_view() == env.deep_view(),
        r@.len() == env@.len(),
        forall|i: int| 0 <= i < env@.len() ==> r@[i].0@ == env@[i].0@ && r@[i].1@ == env@[i].1@,
{
    let n = env.len();
    let mut r: Vec<(String, String)> = Vec::new();
    let mut i: usize = 0;
    while i < n
        invariant
            n == env@.len(),
            i <= n,
            r@.len() == i,
            forall|k: int| 0 <= k < i ==> r@[k].0@ == env@[k].0@ && r@[k].1@ == env@[k].1@,
        decreases n - i,
    {
        r.push((env[i].0.clone(), env[i].1.clone()));
        i += 1;
    }
    proof {
        assert(r.deep_view() =~= env.deep_view());
    }
    r
}

impl Clone for ContainerConfig {
    fn clone(&self) -> (r: Self)
        ensures
            r.deep_view() == self.deep_view(),
    {
        let r = ContainerConfig {
            name: self.name.clone(),
            image: self.image.clone(),
            command: self.command.clone(),
            working_dir: self.working_dir.clone(),
            environment: clone_env(&self.environment),
            ports: self.ports.clone(),
            volumes: self.volumes.clone(),
            resources: self.resources,
            network: self.network.clone(),
            user: self.user.clone(),
            uid: self.uid,
            gid: self.gid,
            groups: self.groups.clone(),
            restart_policy: self.restart_policy,
        };
        proof {
            assert(r.command.deep_view() =~= self.command.deep_view());
            assert(r.ports.deep_view() =~= self.ports.deep_view());
            assert(r.volumes.deep_view() =~= self.volumes.deep_view());
            assert(r.deep_view().groups == self.deep_view().groups) by {
                if self.groups is Some {
                    assert(cloned::<Vec<u32>>(self.groups.unwrap(), r.groups.unwrap()));
                    assert(r.groups.unwrap()@ =~= self.groups.unwrap()@);
                }
            }
            assert(r.deep_view() =~= self.deep_view());
        }
        r
    }
}

/// Every port mapping names two non-zero ports.
pub open spec fn spec_ports_valid(ports: Seq<PortMapping>) -> bool {
    forall|i: int|
        0 <= i < ports.len() ==> ports[i].host_port != 0 && ports[i].container_port != 0
}

/// Uid 0 demands a user named "root"; any other user, or none at all,
/// is refused with it.
pub open spec fn spec_uid_user_ok(user: Option<String>, uid: Option<u32>) -> bool {
    uid == Some(0u32) ==> (user matches Some(u) && u@ == "root"@)
}

/// The checks of `validate` that do not look at the filesystem.
pub open spec fn spec_pure_valid(cfg: ContainerConfig) -> bool {
    &&& cfg.name@.len() > 0
    &&& cfg.image@.len() > 0
    &&& spec_ports_valid(cfg.ports@)
    &&& spec_uid_user_ok(cfg.user, cfg.uid)
}

/// An environment entry survives `env_set(k, _)` when its key is not `k`.
pub open spec fn env_other_key(p: (String, String), k: Seq<char>) -> bool {
    p.0@ != k
}

impl Default for ResourceLimits {
    /// Defaults: 512 MiB of memory, a full core, 1024 MiB of disk,
    /// 256 processes.
    fn default() -> (r: Self)
        ensures
            r.memory_mb == Some(512u64),
            r.cpu_quota_milli == Some(1000u64),
            r.disk_mb == Some(1024u64),
            r.max_processes == Some(256u32),
    {
        ResourceLimits {
            memory_mb: Some(512),
            cpu_quota_milli: Some(1000),
            disk_mb: Some(1024),
            max_processes: Some(256),
        }
    }
}

impl Default for NetworkConfig {
    /// Defaults: no bridge, the two well-known public resolvers, no hostname.
    fn default() -> (r: Self)
        ensures
            r.bridge is None,
            r.dns@.len() == 2,
            r.dns@[0]@ == "8.8.8.8"@,
            r.dns@[1]@ == "8.8.4.4"@,
            r.hostname is None,
    {
        let mut dns: Vec<String> = Vec::new();
        dns.push("8.8.8.8".to_owned());
        dns.push("8.8.4.4".to_owned());
        NetworkConfig { bridge: None, dns, hostname: None }
    }
}

impl Default for ContainerConfig {
    /// An empty config: no name or image yet, `/bin/sh` as the command,
    /// `/app` as the working directory, default limits and network settings.
    fn default() -> (r: Self)
        ensures
            r.name@.len() == 0,
            r.image@.len() == 0,
            r.command@.len() == 1,
            r.command@[0]@ == "/bin/sh"@,
            r.working_dir matches Some(w) && w@ == "/app"@,
            r.environment@.len() == 0,
            r.ports@.len() == 0,
            r.volumes@.len() == 0,
            r.resources == (ResourceLimits {
                memory_mb: Some(512u64),
                cpu_quota_milli: Some(1000u64),
                disk_mb: Some(1024u64),
                max_processes: Some(256u32),
            }),
            r.network.bridge is None,
            r.network.dns@.len() == 2,
            r.network.dns@[0]@ == "8.8.8.8"@,
            r.network.dns@[1]@ == "8.8.4.4"@,
            r.network.hostname is None,
            r.user is None,
            r.uid is None,
            r.gid is None,
            r.groups is None,
            r.restart_policy == RestartPolicy::Never,
    {
        let mut command: Vec<String> = Vec::new();
        command.push("/bin/sh".to_owned());
        ContainerConfig {
            name: String::new(),
            image: String::new(),
            command,
            working_dir: Some("/app".to_owned()),
            environment: Vec::new(),
            ports: Vec::new(),
            volumes: Vec::new(),
            resources: ResourceLimits::default(),
            network: NetworkConfig::default(),
            user: None,
            uid: None,
            gid: None,
            groups: None,
            restart_policy: RestartPolicy::Never,
        }
    }
}

/// Sets `key` to `value` in the association list: every entry with that key
/// is dropped and the new pair is appended.
pub fn env_set(env: &mut Vec<(String, String)>, key: &str, value: &str)
    ensures
        final(env)@.len() >= 1,
        final(env)@.drop_last() == old(env)@.filter(|p: (String, String)| env_other_key(p, key@)),
        final(env)@.last().0@ == key@,
        final(env)@.last().1@ == value@,
{
    let mut out: Vec<(String, String)> = Vec::new();
    let n = env.len();
    let mut i: usize = 0;
    while i < n
        invariant
            n == env@.len(),
            i <= n,
            out@ == env@.subrange(0, i as int).filter(|p: (String, String)| env_other_key(p, key@)),
        decreases n - i,
    {
        let keep = !str_eq(env[i].0.as_str(), key);
        proof {
            reveal(Seq::filter);
            assert(env@.subrange(0, i + 1).drop_last() =~= env@.subrange(0, i as int));
            assert(env@.subrange(0, i + 1).last() == env@[i as int]);
        }
        if keep {
            out.push((env[i].0.clone(), env[i].1.clone()));
        }
        assert(out@ =~= env@.subrange(0, i + 1).filter(|p: (String, String)| env_other_key(p, key@)));
        i += 1;
    }
    assert(env@.subrange(0, n as int) =~= env@);
    out.push((key.to_owned(), value.to_owned()));
    assert(out@.drop_last() =~= env@.filter(|p: (String, String)| env_other_key(p, key@)));
    *env = out;
}

/// Looks `key` up in the association list; the value of the first entry
/// with that key, if any.
pub fn env_get(env: &Vec<(String, String)>, key: &str) -> (r: Option<String>)
    ensures
        match r {
            Some(v) => exists|i: int|
                0 <= i < env@.len() && env@[i].0@ == key@ && env@[i].1@ == v@,
            None => forall|i: int| 0 <= i < env@.len() ==> env@[i].0@ != key@,
        },
{
    let n = env.len();
    let mut i: usize = 0;
    while i < n
        invariant
            n == env@.len(),
            i <= n,
            forall|k: int| 0 <= k < i ==> env@[k].0@ != key@,
        decreases n - i,
    {
        if str_eq(env[i].0.as_str(), key) {
            return Some(env[i].1.clone());
        }
        i += 1;
    }
    None
}

impl ContainerConfig {
    /// Rejects an empty name or image, a zero port, a volume whose host
    /// path cannot be found, and uid 0 with a user other than "root".
    /// Only the volume check looks at the filesystem, so on a config
    /// without volumes the outcome is fully determined.
    pub fn validate(&self) -> (r: Result<(), TurbineError>)
        ensures
            r.is_ok() ==> spec_pure_valid(*self),
            self.name@.len() == 0 ==> (r matches Err(TurbineError::ConfigError(m))
                && m@ == "Container name cannot be empty"@),
            self.name@.len() > 0 && self.image@.len() == 0 ==> (r matches Err(
                TurbineError::ConfigError(m),
            ) && m@ == "Container image cannot be empty"@),
            self.name@.len() > 0 && self.image@.len() > 0 && !spec_ports_valid(self.ports@) ==> (r
                matches Err(TurbineError::ConfigError(m)) && m@ == "Invalid port mapping"@),
            self.name@.len() > 0 && self.image@.len() > 0 && spec_ports_valid(self.ports@)
                && self.volumes@.len() == 0 && !spec_uid_user_ok(self.user, self.uid) ==> (r
                matches Err(TurbineError::ConfigError(m))
                && m@ == "UID 0 should only be used with user 'root'"@),
            self.name@.len() > 0 && self.image@.len() > 0 && spec_ports_valid(self.ports@)
                && self.volumes@.len() == 0 && spec_uid_user_ok(self.user, self.uid)
                ==> r.is_ok(),
            r is Err ==> r matches Err(TurbineError::ConfigError(_)),
    {
        if self.name.as_str().unicode_len() == 0 {
            return Err(TurbineError::ConfigError("Container name cannot be empty".to_owned()));
        }
        if self.image.as_str().unicode_len() == 0 {
            return Err(TurbineError::ConfigError("Container image cannot be empty".to_owned()));
        }
        let nports = self.ports.len();
        let mut i: usize = 0;
        while i < nports
            invariant
                self.name@.len() > 0,
                self.image@.len() > 0,
                nports == self.ports@.len(),
                i <= nports,
                forall|k: int|
                    0 <= k < i ==> self.ports@[k].host_port != 0 && self.ports@[k].container_port
                        != 0,
            decreases nports - i,
        {
            if self.ports[i].host_port == 0 || self.ports[i].container_port == 0 {
                return Err(TurbineError::ConfigError("Invalid port mapping".to_owned()));
            }
            i += 1;
        }
        let nvols = self.volumes.len();
        let mut j: usize = 0;
        while j < nvols
            invariant
                self.name@.len() > 0,
                self.image@.len() > 0,
                spec_ports_valid(self.ports@),
                nvols == self.volumes@.len(),
                j <= nvols,
            decreases nvols - j,
        {
            if !sys::path_exists(self.volumes[j].host_path.as_str()) {
                let mut m = "Host path does not exist: ".to_owned();
                m.append(self.volumes[j].host_path.as_str());
                return Err(TurbineError::ConfigError(m));
            }
            j += 1;
        }
        if let Some(uid) = self.uid {
            if uid == 0 {
                let root_named = match &self.user {
                    Some(user) => str_eq(user.as_str(), "root"),
                    None => false,
                };
                if !root_named {
                    return Err(
                        TurbineError::ConfigError(
                            "UID 0 should only be used with user 'root'".to_owned(),
                        ),
                    );
                }
            }
        }
        Ok(())
    }

    /// Appends a tcp mapping of `port` to container port 8080, sets the
    /// PORT and NODE_ENV variables, switches the restart policy to Always,
    /// and fills in the web defaults for missing memory and CPU limits.
    pub fn set_web_defaults(&mut self, port: u16)
        ensures
            final(self).ports@.len() == old(self).ports@.len() + 1,
            final(self).ports@.drop_last() == old(self).ports@,
            final(self).ports@.last().host_port == port,
            final(self).ports@.last().container_port == 8080u16,
            final(self).ports@.last().protocol@ == "tcp"@,
            final(self).environment@.len() >= 2,
            final(self).environment@.drop_last().drop_last() == old(self).environment@.filter(
                |p: (String, String)| env_other_key(p, "PORT"@) && env_other_key(p, "NODE_ENV"@),
            ),
            final(self).environment@[final(self).environment@.len() - 2].0@ == "PORT"@,
            final(self).environment@[final(self).environment@.len() - 2].1@ == "8080"@,
            final(self).environment@.last().0@ == "NODE_ENV"@,
            final(self).environment@.last().1@ == "production"@,
            final(self).restart_policy == RestartPolicy::Always,
            final(self).resources.memory_mb == if old(self).resources.memory_mb is None {
                Some(256u64)
            } else {
                old(self).resources.memory_mb
            },
            final(self).resources.cpu_quota_milli == if old(self).resources.cpu_quota_milli is None {
                Some(500u64)
            } else {
                old(self).resources.cpu_quota_milli
            },
            final(self).resources.disk_mb == old(self).resources.disk_mb,
            final(self).resources.max_processes == old(self).resources.max_processes,
            final(self).name == old(self).name,
            final(self).image == old(self).image,
            final(self).command == old(self).command,
            final(self).working_dir == old(self).working_dir,
            final(self).volumes == old(self).volumes,
            final(self).network == old(self).network,
            final(self).user == old(self).user,
            final(self).uid == old(self).uid,
            final(self).gid == old(self).gid,
            final(self).groups == old(self).groups,
    {
        self.ports.push(
            PortMapping { host_port: port, container_port: 8080, protocol: "tcp".to_owned() },
        );
        assert(self.ports@.drop_last() =~= old(self).ports@);
        let ghost env0 = self.environment@;
        env_set(&mut self.environment, "PORT", "8080");
        let ghost env1 = self.environment@;
        env_set(&mut self.environment, "NODE_ENV", "production");
        proof {
            reveal_strlit("PORT");
            reveal_strlit("NODE_ENV");
            assert("PORT"@.len() == 4);
            assert("NODE_ENV"@.len() == 8);
            assert("PORT"@ != "NODE_ENV"@);
            crate::textutil::lemma_filter_filter(
                env0,
                |p: (String, String)| env_other_key(p, "PORT"@),
                |p: (String, String)| env_other_key(p, "NODE_ENV"@),
                |p: (String, String)| env_other_key(p, "PORT"@) && env_other_key(p, "NODE_ENV"@),
            );
            assert(env1.drop_last().filter(|p: (String, String)| env_other_key(p, "NODE_ENV"@))
                == env0.filter(
                |p: (String, String)| env_other_key(p, "PORT"@) && env_other_key(p, "NODE_ENV"@),
            ));
            reveal(Seq::filter);
            assert(env1.filter(|p: (String, String)| env_other_key(p, "NODE_ENV"@))
                =~= env1.drop_last().filter(
                |p: (String, String)| env_other_key(p, "NODE_ENV"@),
            ).push(env1.last())) by {
                assert(env1.drop_last().push(env1.last()) =~= env1);
                assert(env_other_key(env1.last(), "NODE_ENV"@));
            }
            assert(self.environment@.drop_last().drop_last() =~= env1.drop_last().filter(
                |p: (String, String)| env_other_key(p, "NODE_ENV"@),
            ));
            assert(self.environment@.drop_last().len() >= 1);
            assert(self.environment@.drop_last().last() == env1.last());
            assert(self.environment@[self.environment@.len() - 2] == self.environment@.drop_last().last());
        }
        self.restart_policy = RestartPolicy::Always;
        if self.resources.memory_mb.is_none() {
            self.resources.memory_mb = Some(256);
        }
        if self.resources.cpu_quota_milli.is_none() {
            self.resources.cpu_quota_milli = Some(500);
        }
    }

    /// Records the user name and, when given, the numeric uid and gid.
    pub fn set_user(&mut self, user: String, uid: Option<u32>, gid: Option<u32>)
        ensures
            *final(self) == (ContainerConfig {
                user: Some(user),
                uid,
                gid,
                ..*old(self)
            }),
    {
        self.user = Some(user);
        self.uid = uid;
        self.gid = gid;
    }

    /// Switches the config to the root user: uid 0, gid 0, no
    /// supplementary groups.
    pub fn set_root_user(&mut self)
        ensures
            final(self).user matches Some(u) && u@ == "root"@,
            final(self).uid == Some(0u32),
            final(self).gid == Some(0u32),
            final(self).groups is None,
            final(self).name == old(self).name,
            final(self).image == old(self).image,
            final(self).command == old(self).command,
            final(self).working_dir == old(self).working_dir,
            final(self).environment == old(self).environment,
            final(self).ports == old(self).ports,
            final(self).volumes == old(self).volumes,
            final(self).resources == old(self).resources,
            final(self).network == old(self).network,
            final(self).restart_policy == old(self).restart_policy,
    {
        self.user = Some("root".to_owned());
        self.uid = Some(0);
        self.gid = Some(0);
        self.groups = None;
    }

    /// Switches the config to the conventional unprivileged user: uid and
    /// gid 65534, no supplementary groups.
    pub fn set_nobody_user(&mut self)
        ensures
            final(self).user matches Some(u) && u@ == "nobody"@,
            final(self).uid == Some(65534u32),
            final(self).gid == Some(65534u32),
            final(self).groups is None,
            final(self).name == old(self).name,
            final(self).image == old(self).image,
            final(self).command == old(self).command,
            final(self).working_dir == old(self).working_dir,
            final(self).environment == old(self).environment,
            final(self).ports == old(self).ports,
            final(self).volumes == old(self).volumes,
            final(self).resources == old(self).resources,
            final(self).network == old(self).network,
            final(self).restart_policy == old(self).restart_policy,
    {
        self.user = Some("nobody".to_owned());
        self.uid = Some(65534);
        self.gid = Some(65534);
        self.groups = None;
    }

    /// Merges the given gids into the supplementary groups: the result
    /// is always sorted and free of duplicates, and holds exactly the
    /// old gids, if any, together with the given ones.
    pub fn add_groups(&mut self, groups: Vec<u32>)
        ensures
            final(self).groups matches Some(g) && (spec_strictly_sorted(g@) && (forall|x: u32|
                g@.contains(x) <==> ((old(self).groups matches Some(e) && e@.contains(x))
                    || groups@.contains(x)))),
            final(self).name == old(self).name,
            final(self).image == old(self).image,
            final(self).command == old(self).command,
            final(self).working_dir == old(self).working_dir,
            final(self).environment == old(self).environment,
            final(self).ports == old(self).ports,
            final(self).volumes == old(self).volumes,
            final(self).resources == old(self).resources,
            final(self).network == old(self).network,
            final(self).user == old(self).user,
            final(self).uid == old(self).uid,
            final(self).gid == old(self).gid,
            final(self).restart_policy == old(self).restart_policy,
    {
        let mut merged: Vec<u32> = Vec::new();
        let existing = self.groups.take();
        if let Some(e) = &existing {
            let ne = e.len();
            let mut i: usize = 0;
            while i < ne
                invariant
                    ne == e@.len(),
                    i <= ne,
                    spec_strictly_sorted(merged@),
                    forall|x: u32| merged@.contains(x) <==> e@.subrange(0, i as int).contains(x),
                decreases ne - i,
            {
                proof {
                    assert(e@.subrange(0, i + 1) =~= e@.subrange(0, i as int).push(e@[i as int]));
                    crate::textutil::lemma_contains_push(e@.subrange(0, i as int), e@[i as int]);
                }
                sorted_insert(&mut merged, e[i]);
                i += 1;
            }
            assert(e@.subrange(0, ne as int) =~= e@);
        }
        let ng = groups.len();
        let mut j: usize = 0;
        while j < ng
            invariant
                ng == groups@.len(),
                j <= ng,
                spec_strictly_sorted(merged@),
                forall|x: u32|
                    merged@.contains(x) <==> ((existing matches Some(e) && e@.contains(x))
                        || groups@.subrange(0, j as int).contains(x)),
            decreases ng - j,
        {
            proof {
                assert(groups@.subrange(0, j + 1) =~= groups@.subrange(0, j as int).push(
                    groups@[j as int],
                ));
                crate::textutil::lemma_contains_push(groups@.subrange(0, j as int), groups@[j as int]);
            }
            sorted_insert(&mut merged, groups[j]);
            j += 1;
        }
        assert(groups@.subrange(0, ng as int) =~= groups@);
        self.groups = Some(merged);
    }
}

/// No element repeats and the order is increasing.
pub open spec fn spec_strictly_sorted(s: Seq<u32>) -> bool {
    forall|i: int, j: int| 0 <= i < j < s.len() ==> s[i] < s[j]
}

/// Inserts `x` into a strictly sorted vector, keeping it strictly sorted;
/// a value already present is left alone.
fn sorted_insert(v: &mut Vec<u32>, x: u32)
    requires
        spec_strictly_sorted(old(v)@),
    ensures
        spec_strictly_sorted(final(v)@),
        forall|y: u32| final(v)@.contains(y) <==> (old(v)@.contains(y) || y == x),
{
    let n = v.len();
    let mut i: usize = 0;
    while i < n
        invariant
            n == v@.len(),
            i <= n,
            v@ == old(v)@,
            spec_strictly_sorted(v@),
            forall|k: int| 0 <= k < i ==> v@[k] < x,
        decreases n - i,
    {
        if v[i] == x {
            proof {
                assert(v@.contains(x)) by {
                    assert(v@[i as int] == x);
                }
            }
            return ;
        }
        if v[i] > x {
            let ghost pre = v@;
            v.insert(i, x);
            proof {
                assert(spec_strictly_sorted(v@)) by {
                    assert(forall|a: int, b: int|
                        0 <= a < b < v@.len() ==> v@[a] < v@[b]) by {
                        assert(forall|k: int| 0 <= k < i ==> v@[k] == pre[k]);
                        assert(v@[i as int] == x);
                        assert(forall|k: int|
                            i < k < v@.len() ==> v@[k] == pre[k - 1]);
                    }
                }
                assert(forall|y: u32| v@.contains(y) <==> (pre.contains(y) || y == x)) by {
                    assert(forall|k: int| 0 <= k < i ==> v@[k] == pre[k]);
                    assert(v@[i as int] == x);
                    assert(forall|k: int| i < k < v@.len() ==> v@[k] == pre[k - 1]);
                    assert(forall|y: u32| pre.contains(y) ==> v@.contains(y)) by {
                        assert(forall|k: int|
                            0 <= k < pre.len() ==> #[trigger] pre[k] == (if k < i {
                                v@[k]
                            } else {
                                v@[k + 1]
                            }));
                    }
                    assert(v@.contains(x));
                }
            }
            return ;
        }
        i += 1;
    }
    let ghost pre = v@;
    v.push(x);
    proof {
        assert(forall|k: int| 0 <= k < pre.len() ==> v@[k] == pre[k]);
        assert(v@[pre.len() as int] == x);
        assert(spec_strictly_sorted(v@));
        assert(forall|y: u32| v@.contains(y) <==> (pre.contains(y) || y == x)) by {
            assert(forall|y: u32| pre.contains(y) ==> v@.contains(y)) by {
                assert(forall|k: int|
                    0 <= k < pre.len() ==> #[trigger] pre[k] == v@[k]);
            }
            assert(v@.contains(x));
        }
    }
}

} // verus!
