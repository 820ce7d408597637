use vstd::prelude::*;
use vstd::string::*;
use crate::config::ResourceLimits;
use crate::config::VolumeMount;
use crate::config::env_other_key;
use crate::container::Container;
use crate::errors::TurbineError;
use crate::sys;
use crate::textutil::contains_seq;
use crate::textutil::dec_seq;
use crate::textutil::starts_with_seq;
use crate::textutil::str_contains;
use crate::textutil::str_eq;
use crate::textutil::str_starts_with;
use crate::textutil::u64_to_string;

verus! {

/// Validates container policy and prepares the rootless user-namespace
/// material. It holds no mutable state.
pub struct SecurityManager {
    pub allowed_users: Vec<String>,
    pub restricted_paths: Vec<String>,
    pub use_user_namespaces: bool,
}

/// `p` begins with one of the prefixes.
pub open spec fn spec_starts_with_any(p: Seq<char>, prefixes: Seq<String>) -> bool {
    exists|k: int| 0 <= k < prefixes.len() && starts_with_seq(p, prefixes[k]@)
}

/// The five path prefixes a volume may never come from.
pub open spec fn spec_default_restricted(paths: Seq<String>) -> bool {
    &&& paths.len() == 5
    &&& paths[0]@ == "/etc/passwd"@
    &&& paths[1]@ == "/etc/shadow"@
    &&& paths[2]@ == "/etc/group"@
    &&& paths[3]@ == "/proc"@
    &&& paths[4]@ == "/sys"@
}

/// Uid and gid, where given, fit the single-range user-namespace mapping.
pub open spec fn spec_ids_mappable(uid: Option<u32>, gid: Option<u32>) -> bool {
    &&& (uid matches Some(u) ==> u <= 65535)
    &&& (gid matches Some(g) ==> g <= 65535)
}

/// The traditional (non-namespace) user policy: never root, and when an
/// allow-list is present the user must be on it.
pub open spec fn spec_user_allowed(user: Option<Seq<char>>, allowed: Seq<String>) -> bool {
    match user {
        Some(u) => u != "root"@ && (allowed.len() == 0 || exists|k: int|
            0 <= k < allowed.len() && allowed[k]@ == u),
        None => true,
    }
}

/// The rootless resource policy bounds.
pub open spec fn spec_limits_allowed(r: ResourceLimits) -> bool {
    &&& (r.memory_mb matches Some(m) ==> m <= 2048)
    &&& (r.cpu_quota_milli matches Some(c) ==> c <= 1000)
    &&& (r.max_processes matches Some(p) ==> p <= 512)
}

/// Every published host port is unprivileged.
pub open spec fn spec_ports_unprivileged(c: Container) -> bool {
    forall|i: int| 0 <= i < c.config.ports@.len() ==> c.config.ports@[i].host_port >= 1024
}

/// No volume host path begins with a restricted prefix.
pub open spec fn spec_volumes_unrestricted(volumes: Seq<VolumeMount>, paths: Seq<String>) -> bool {
    forall|i: int|
        0 <= i < volumes.len() ==> !spec_starts_with_any(volumes[i].host_path@, paths)
}

/// Everything `validate_container_security` checks without looking at the
/// filesystem.
pub open spec fn spec_security_ok(m: SecurityManager, c: Container) -> bool {
    &&& (m.use_user_namespaces ==> spec_ids_mappable(c.config.uid, c.config.gid))
    &&& (!m.use_user_namespaces ==> spec_user_allowed(
        match c.config.user {
            Some(u) => Some(u@),
            None => None,
        },
        m.allowed_users@,
    ))
    &&& spec_volumes_unrestricted(c.config.volumes@, m.restricted_paths@)
    &&& spec_limits_allowed(c.config.resources)
    &&& spec_ports_unprivileged(c)
}

/// Everything the security policy checks of a configuration, stated on
/// the configuration itself; the environment plays no part in it.
pub open spec fn spec_config_security_ok(m: SecurityManager, cfg: crate::config::ContainerConfig) -> bool {
    &&& (m.use_user_namespaces ==> spec_ids_mappable(cfg.uid, cfg.gid))
    &&& (!m.use_user_namespaces ==> spec_user_allowed(
        match cfg.user {
            Some(u) => Some(u@),
            None => None,
        },
        m.allowed_users@,
    ))
    &&& spec_volumes_unrestricted(cfg.volumes@, m.restricted_paths@)
    &&& spec_limits_allowed(cfg.resources)
    &&& (forall|i: int| 0 <= i < cfg.ports@.len() ==> (#[trigger] cfg.ports@[i]).host_port >= 1024)
}

/// The rlimit values a configuration calls for: megabytes scaled to
/// bytes for the address space and the file size, the raw count for
/// processes; absent fields contribute nothing.
pub open spec fn spec_limit_plan(r: ResourceLimits) -> Seq<(sys::LimitKind, u64)> {
    (match r.memory_mb {
        Some(m) => seq![(sys::LimitKind::AddressSpace, (m * 1024 * 1024) as u64)],
        None => Seq::empty(),
    }) + (match r.max_processes {
        Some(p) => seq![(sys::LimitKind::ProcessCount, p as u64)],
        None => Seq::empty(),
    }) + (match r.disk_mb {
        Some(d) => seq![(sys::LimitKind::FileSize, (d * 1024 * 1024) as u64)],
        None => Seq::empty(),
    })
}

/// An LD_* value that reaches outside the container image.
pub open spec fn spec_bad_ld_value(v: Seq<char>) -> bool {
    contains_seq(v, ".."@) || contains_seq(v, "/etc"@) || contains_seq(v, "/usr"@)
}

/// An environment entry that sanitization keeps: not a poisoned loader
/// variable, and not one of the keys that are re-inserted afterwards.
pub open spec fn spec_env_keep(p: (String, String)) -> bool {
    &&& !((p.0@ == "LD_PRELOAD"@ || p.0@ == "LD_LIBRARY_PATH"@) && spec_bad_ld_value(p.1@))
    &&& env_other_key(p, "TURBINE_CONTAINER"@)
    &&& env_other_key(p, "TURBINE_ROOTLESS"@)
    &&& env_other_key(p, "HOME"@)
}

fn restricted_list() -> (r: Vec<String>)
    ensures
        spec_default_restricted(r@),
{
    let mut r: Vec<String> = Vec::new();
    r.push("/etc/passwd".to_owned());
    r.push("/etc/shadow".to_owned());
    r.push("/etc/group".to_owned());
    r.push("/proc".to_owned());
    r.push("/sys".to_owned());
    r
}

fn starts_with_any(p: &str, prefixes: &Vec<String>) -> (r: bool)
    ensures
        r == spec_starts_with_any(p@, prefixes@),
{
    let n = prefixes.len();
    let mut i: usize = 0;
    while i < n
        invariant
            n == prefixes@.len(),
            i <= n,
            forall|k: int| 0 <= k < i ==> !starts_with_seq(p@, prefixes@[k]@),
        decreases n - i,
    {
        if str_starts_with(p, prefixes[i].as_str()) {
            return true;
        }
        i += 1;
    }
    false
}

impl SecurityManager {
    /// The traditional profile: only the runtime's own user may be named,
    /// the usual paths are restricted, user namespaces are used.
    pub fn new() -> (r: Self)
        ensures
            r.allowed_users@.len() == 1,
            r.allowed_users@[0]@ == "turbine"@,
            spec_default_restricted(r.restricted_paths@),
            r.use_user_namespaces,
    {
        let mut allowed_users: Vec<String> = Vec::new();
        allowed_users.push("turbine".to_owned());
        SecurityManager {
            allowed_users,
            restricted_paths: restricted_list(),
            use_user_namespaces: true,
        }
    }

    /// The rootless profile: any user, the same restricted paths, user
    /// namespaces on.
    pub fn new_rootless() -> (r: Self)
        ensures
            r.allowed_users@.len() == 0,
            spec_default_restricted(r.restricted_paths@),
            r.use_user_namespaces,
    {
        SecurityManager {
            allowed_users: Vec::new(),
            restricted_paths: restricted_list(),
            use_user_namespaces: true,
        }
    }

    /// Runs the whole policy over one container: user rules, volumes,
    /// resource limits, published ports. Only the volume checks look at
    /// the filesystem, so on a config without volumes the outcome is
    /// fully determined.
    pub fn validate_container_security(&self, container: &Container) -> (r: Result<
        (),
        TurbineError,
    >)
        ensures
            r.is_ok() ==> spec_security_ok(*self, *container),
            !spec_security_ok(*self, *container) ==> r is Err,
            container.config.volumes@.len() == 0 && spec_security_ok(*self, *container)
                ==> r.is_ok(),
            r matches Err(e) ==> e matches TurbineError::SecurityError(_),
    {
        if self.use_user_namespaces {
            self.validate_user_namespace_config(container.config.uid, container.config.gid)?;
        } else {
            self.validate_user_traditional(&container.config.user)?;
        }
        self.validate_volumes(&container.config.volumes)?;
        self.validate_resource_limits(&container.config.resources)?;
        self.validate_network_security(container)?;
        Ok(())
    }

    /// In user-namespace mode only the id range is checked: both ids must
    /// fit the single-range mapping.
    fn validate_user_namespace_config(&self, uid: Option<u32>, gid: Option<u32>) -> (r: Result<
        (),
        TurbineError,
    >)
        ensures
            r.is_ok() <==> spec_ids_mappable(uid, gid),
            uid matches Some(u) && u > 65535 ==> (r matches Err(TurbineError::SecurityError(m))
                && m@ == "UID too large for user namespace mapping"@),
            !(uid matches Some(u) && u > 65535) && (gid matches Some(g) && g > 65535) ==> (r
                matches Err(TurbineError::SecurityError(m))
                && m@ == "GID too large for user namespace mapping"@),
    {
        if let Some(u) = uid {
            if u > 65535 {
                return Err(
                    TurbineError::SecurityError(
                        "UID too large for user namespace mapping".to_owned(),
                    ),
                );
            }
        }
        if let Some(g) = gid {
            if g > 65535 {
                return Err(
                    TurbineError::SecurityError(
                        "GID too large for user namespace mapping".to_owned(),
                    ),
                );
            }
        }
        Ok(())
    }

    /// Without user namespaces, root is refused outright and a non-empty
    /// allow-list must name the user.
    pub fn validate_user_traditional(&self, user: &Option<String>) -> (r: Result<
        (),
        TurbineError,
    >)
        ensures
            r.is_ok() <==> spec_user_allowed(
                match *user {
                    Some(u) => Some(u@),
                    None => None,
                },
                self.allowed_users@,
            ),
            user matches Some(u) && u@ == "root"@ ==> (r matches Err(TurbineError::SecurityError(
                m,
            )) && m@ == "Running containers as root is not allowed"@),
            r matches Err(e) ==> e matches TurbineError::SecurityError(_),
    {
        if let Some(username) = user {
            if str_eq(username.as_str(), "root") {
                return Err(
                    TurbineError::SecurityError(
                        "Running containers as root is not allowed".to_owned(),
                    ),
                );
            }
            let n = self.allowed_users.len();
            if n > 0 {
                let mut i: usize = 0;
                while i < n
                    invariant
                        n == self.allowed_users@.len(),
                        n > 0,
                        i <= n,
                        user matches Some(u) && u@ == username@,
                        username@ != "root"@,
                        forall|k: int| 0 <= k < i ==> self.allowed_users@[k]@ != username@,
                    decreases n - i,
                {
                    if str_eq(self.allowed_users[i].as_str(), username.as_str()) {
                        return Ok(());
                    }
                    i += 1;
                }
                let mut m = "User '".to_owned();
                m.append(username.as_str());
                m.append("' is not allowed to run containers");
                return Err(TurbineError::SecurityError(m));
            }
        }
        Ok(())
    }

    /// Volume policy: no restricted prefix, the host path must be
    /// reachable, and a writable mount needs write access. The last two
    /// depend on the filesystem, so only the prefix rule is owed exactly.
    pub fn validate_volumes(&self, volumes: &Vec<VolumeMount>) -> (r: Result<(), TurbineError>)
        ensures
            r.is_ok() ==> spec_volumes_unrestricted(volumes@, self.restricted_paths@),
            !spec_volumes_unrestricted(volumes@, self.restricted_paths@) ==> r is Err,
            volumes@.len() == 0 ==> r.is_ok(),
            r matches Err(e) ==> e matches TurbineError::SecurityError(_),
            volumes@.len() > 0 && spec_starts_with_any(
                volumes@[0].host_path@,
                self.restricted_paths@,
            ) ==> (r matches Err(TurbineError::SecurityError(m)) && m@ == "Access to path '"@
                + volumes@[0].host_path@ + "' is restricted"@),
    {
        let n = volumes.len();
        let mut i: usize = 0;
        while i < n
            invariant
                n == volumes@.len(),
                i <= n,
                forall|k: int|
                    0 <= k < i ==> !spec_starts_with_any(
                        volumes@[k].host_path@,
                        self.restricted_paths@,
                    ),
            decreases n - i,
        {
            let vol = &volumes[i];
            if starts_with_any(vol.host_path.as_str(), &self.restricted_paths) {
                let mut m = "Access to path '".to_owned();
                m.append(vol.host_path.as_str());
                m.append("' is restricted");
                return Err(TurbineError::SecurityError(m));
            }
            if !sys::path_exists(vol.host_path.as_str()) {
                let mut m = "Host path '".to_owned();
                m.append(vol.host_path.as_str());
                m.append("' does not exist");
                return Err(TurbineError::SecurityError(m));
            }
            if !vol.readonly {
                if !sys::path_writable(vol.host_path.as_str()) {
                    let mut m = "No write access to path '".to_owned();
                    m.append(vol.host_path.as_str());
                    m.append("'");
                    return Err(TurbineError::SecurityError(m));
                }
            }
            i += 1;
        }
        Ok(())
    }

    /// The rootless resource ceilings: 2048 MiB of memory, one core, 512
    /// processes.
    pub fn validate_resource_limits(&self, resources: &ResourceLimits) -> (r: Result<
        (),
        TurbineError,
    >)
        ensures
            r.is_ok() <==> spec_limits_allowed(*resources),
            resources.memory_mb matches Some(m) && m > 2048 ==> (r matches Err(
                TurbineError::SecurityError(msg),
            ) && msg@ == "Memory limit cannot exceed 2GB in rootless mode"@),
            r matches Err(e) ==> e matches TurbineError::SecurityError(_),
    {
        if let Some(memory) = resources.memory_mb {
            if memory > 2048 {
                return Err(
                    TurbineError::SecurityError(
                        "Memory limit cannot exceed 2GB in rootless mode".to_owned(),
                    ),
                );
            }
        }
        if let Some(cpu) = resources.cpu_quota_milli {
            if cpu > 1000 {
                return Err(
                    TurbineError::SecurityError(
                        "CPU quota cannot exceed 1.0 in rootless mode".to_owned(),
                    ),
                );
            }
        }
        if let Some(processes) = resources.max_processes {
            if processes > 512 {
                return Err(
                    TurbineError::SecurityError(
                        "Process limit cannot exceed 512 in rootless mode".to_owned(),
                    ),
                );
            }
        }
        Ok(())
    }

    /// Rootless mode may not claim privileged host ports.
    fn validate_network_security(&self, container: &Container) -> (r: Result<(), TurbineError>)
        ensures
            r.is_ok() <==> spec_ports_unprivileged(*container),
            r matches Err(e) ==> e matches TurbineError::SecurityError(_),
    {
        let n = container.config.ports.len();
        let mut i: usize = 0;
        while i < n
            invariant
                n == container.config.ports@.len(),
                i <= n,
                forall|k: int| 0 <= k < i ==> container.config.ports@[k].host_port >= 1024,
            decreases n - i,
        {
            let port = container.config.ports[i].host_port;
            if port < 1024 {
                let mut m = "Privileged port ".to_owned();
                m.append(u64_to_string(port as u64).as_str());
                m.append(" is not allowed in rootless mode");
                return Err(TurbineError::SecurityError(m));
            }
            i += 1;
        }
        Ok(())
    }

    /// Whether the path lies under one of the usual system trees.
    pub fn is_system_path(&self, path: &str) -> (r: bool)
        ensures
            r == (starts_with_seq(path@, "/etc"@) || starts_with_seq(path@, "/usr"@)
                || starts_with_seq(path@, "/lib"@) || starts_with_seq(path@, "/bin"@)
                || starts_with_seq(path@, "/sbin"@) || starts_with_seq(path@, "/boot"@)),
    {
        str_starts_with(path, "/etc") || str_starts_with(path, "/usr") || str_starts_with(
            path,
            "/lib",
        ) || str_starts_with(path, "/bin") || str_starts_with(path, "/sbin") || str_starts_with(
            path,
            "/boot",
        )
    }

    /// The image path may not climb out with `..` and must be absolute or
    /// `./`-relative.
    pub fn validate_image_security(&self, image_path: &str) -> (r: Result<(), TurbineError>)
        ensures
            r.is_ok() <==> (!contains_seq(image_path@, ".."@) && (starts_with_seq(image_path@, "/"@)
                || starts_with_seq(image_path@, "./"@))),
            contains_seq(image_path@, ".."@) ==> (r matches Err(TurbineError::SecurityError(m))
                && m@ == "Image path contains directory traversal"@),
            !contains_seq(image_path@, ".."@) && !(starts_with_seq(image_path@, "/"@)
                || starts_with_seq(image_path@, "./"@)) ==> (r matches Err(
                TurbineError::SecurityError(m),
            ) && m@ == "Image path must be absolute or relative to current directory"@),
    {
        if str_contains(image_path, "..") {
            return Err(
                TurbineError::SecurityError("Image path contains directory traversal".to_owned()),
            );
        }
        if !str_starts_with(image_path, "/") && !str_starts_with(image_path, "./") {
            return Err(
                TurbineError::SecurityError(
                    "Image path must be absolute or relative to current directory".to_owned(),
                ),
            );
        }
        Ok(())
    }

    /// Drops LD_PRELOAD and LD_LIBRARY_PATH entries whose value reaches
    /// into `..`, `/etc` or `/usr`, then sets the two runtime markers and
    /// HOME. Always succeeds.
    pub fn sanitize_environment(&self, env: &mut Vec<(String, String)>) -> (r: Result<
        (),
        TurbineError,
    >)
        ensures
            r.is_ok(),
            final(env)@.len() == old(env)@.filter(|p: (String, String)| spec_env_keep(p)).len()
                + 3,
            final(env)@.subrange(0, final(env)@.len() - 3) == old(env)@.filter(
                |p: (String, String)| spec_env_keep(p),
            ),
            final(env)@[final(env)@.len() - 3].0@ == "TURBINE_CONTAINER"@,
            final(env)@[final(env)@.len() - 3].1@ == "true"@,
            final(env)@[final(env)@.len() - 2].0@ == "TURBINE_ROOTLESS"@,
            final(env)@[final(env)@.len() - 2].1@ == "true"@,
            final(env)@[final(env)@.len() - 1].0@ == "HOME"@,
            final(env)@[final(env)@.len() - 1].1@ == "/app"@,
    {
        let n = env.len();
        let mut out: Vec<(String, String)> = Vec::new();
        let mut i: usize = 0;
        while i < n
            invariant
                n == env@.len(),
                i <= n,
                out@ == env@.subrange(0, i as int).filter(|p: (String, String)| spec_env_keep(p)),
            decreases n - i,
        {
            let p = &env[i];
            let dangerous = str_eq(p.0.as_str(), "LD_PRELOAD") || str_eq(
                p.0.as_str(),
                "LD_LIBRARY_PATH",
            );
            let bad = dangerous && (str_contains(p.1.as_str(), "..") || str_contains(
                p.1.as_str(),
                "/etc",
            ) || str_contains(p.1.as_str(), "/usr"));
            let replaced = str_eq(p.0.as_str(), "TURBINE_CONTAINER") || str_eq(
                p.0.as_str(),
                "TURBINE_ROOTLESS",
            ) || str_eq(p.0.as_str(), "HOME");
            proof {
                reveal(Seq::filter);
                assert(env@.subrange(0, i + 1).drop_last() =~= env@.subrange(0, i as int));
                assert(env@.subrange(0, i + 1).last() == env@[i as int]);
            }
            if !bad && !replaced {
                out.push((p.0.clone(), p.1.clone()));
            }
            assert(out@ =~= env@.subrange(0, i + 1).filter(
                |p: (String, String)| spec_env_keep(p),
            ));
            i += 1;
        }
        assert(env@.subrange(0, n as int) =~= env@);
        out.push(("TURBINE_CONTAINER".to_owned(), "true".to_owned()));
        out.push(("TURBINE_ROOTLESS".to_owned(), "true".to_owned()));
        out.push(("HOME".to_owned(), "/app".to_owned()));
        assert(out@.subrange(0, out@.len() - 3) =~= env@.filter(
            |p: (String, String)| spec_env_keep(p),
        ));
        *env = out;
        Ok(())
    }

    /// The three writes that establish a single-range uid/gid mapping for
    /// the child, in the order the kernel demands: uid_map, then the
    /// setgroups deny, then gid_map.
    pub fn uid_gid_mapping_writes(
        &self,
        child_pid: u32,
        host_uid: u32,
        host_gid: u32,
        container_uid: u32,
        container_gid: u32,
    ) -> (r: Vec<(String, String)>)
        ensures
            r@.len() == 3,
            r@[0].0@ == "/proc/"@ + dec_seq(child_pid as nat) + "/uid_map"@,
            r@[0].1@ == dec_seq(container_uid as nat) + " "@ + dec_seq(host_uid as nat) + " 1"@,
            r@[1].0@ == "/proc/"@ + dec_seq(child_pid as nat) + "/setgroups"@,
            r@[1].1@ == "deny"@,
            r@[2].0@ == "/proc/"@ + dec_seq(child_pid as nat) + "/gid_map"@,
            r@[2].1@ == dec_seq(container_gid as nat) + " "@ + dec_seq(host_gid as nat) + " 1"@,
    {
        let pid_str = u64_to_string(child_pid as u64);
        let mut uid_map_path = "/proc/".to_owned();
        uid_map_path.append(pid_str.as_str());
        uid_map_path.append("/uid_map");
        let mut setgroups_path = "/proc/".to_owned();
        setgroups_path.append(pid_str.as_str());
        setgroups_path.append("/setgroups");
        let mut gid_map_path = "/proc/".to_owned();
        gid_map_path.append(pid_str.as_str());
        gid_map_path.append("/gid_map");
        let mut uid_map = u64_to_string(container_uid as u64);
        uid_map.append(" ");
        uid_map.append(u64_to_string(host_uid as u64).as_str());
        uid_map.append(" 1");
        let mut gid_map = u64_to_string(container_gid as u64);
        gid_map.append(" ");
        gid_map.append(u64_to_string(host_gid as u64).as_str());
        gid_map.append(" 1");
        let mut r: Vec<(String, String)> = Vec::new();
        r.push((uid_map_path, uid_map));
        r.push((setgroups_path, "deny".to_owned()));
        r.push((gid_map_path, gid_map));
        r
    }

    /// The uid and gid the child should assume inside the namespace: the
    /// configured ids, or 0 (root inside the container) when unset.
    pub fn namespace_identity(&self, container: &Container) -> (r: (u32, u32))
        ensures
            r.0 == (match container.config.uid {
                Some(u) => u,
                None => 0u32,
            }),
            r.1 == (match container.config.gid {
                Some(g) => g,
                None => 0u32,
            }),
    {
        let uid = match container.config.uid {
            Some(u) => u,
            None => 0,
        };
        let gid = match container.config.gid {
            Some(g) => g,
            None => 0,
        };
        (uid, gid)
    }

    /// Decides kernel support for unprivileged user namespaces from what
    /// the host shows: whether `/proc/self/ns/user` exists, and what
    /// `/proc/sys/kernel/unprivileged_userns_clone` holds, when present.
    pub fn user_namespace_supported(
        &self,
        ns_file_exists: bool,
        clone_setting: &Option<String>,
    ) -> (r: Result<(), TurbineError>)
        ensures
            !ns_file_exists ==> (r matches Err(TurbineError::SecurityError(m))
                && m@ == "User namespaces not supported by kernel"@),
            ns_file_exists && (clone_setting matches Some(s) && spec_trimmed_zero(s@)) ==> (r
                matches Err(TurbineError::SecurityError(_))),
            ns_file_exists && !(clone_setting matches Some(s) && spec_trimmed_zero(s@))
                ==> r.is_ok(),
    {
        if !ns_file_exists {
            return Err(
                TurbineError::SecurityError("User namespaces not supported by kernel".to_owned()),
            );
        }
        if let Some(setting) = clone_setting {
            if trimmed_is_zero(setting.as_str()) {
                return Err(
                    TurbineError::SecurityError(
                        "Unprivileged user namespaces are disabled on this host".to_owned(),
                    ),
                );
            }
        }
        Ok(())
    }

    /// The limits the configuration asks for, in application order: the
    /// address space in bytes, the process count, the file size in
    /// bytes; each is set with soft equal to hard. Missing limits are
    /// skipped.
    pub fn resource_limit_plan(&self, resources: &ResourceLimits) -> (r: Vec<(
        sys::LimitKind,
        u64,
    )>)
        requires
            resources.memory_mb matches Some(m) ==> m < 0x1000_0000_0000,
            resources.disk_mb matches Some(d) ==> d < 0x1000_0000_0000,
        ensures
            r@ == spec_limit_plan(*resources),
    {
        let mut r: Vec<(sys::LimitKind, u64)> = Vec::new();
        if let Some(memory_mb) = resources.memory_mb {
            r.push((sys::LimitKind::AddressSpace, memory_mb * 1024 * 1024));
        }
        if let Some(max_processes) = resources.max_processes {
            r.push((sys::LimitKind::ProcessCount, max_processes as u64));
        }
        if let Some(disk_mb) = resources.disk_mb {
            r.push((sys::LimitKind::FileSize, disk_mb * 1024 * 1024));
        }
        assert(r@ =~= spec_limit_plan(*resources));
        r
    }

    /// Applies the configured rlimits to the calling process, exactly the
    /// triples of `resource_limit_plan`, in order, soft equal to hard.
    /// A configuration without limits always succeeds; whether the kernel
    /// accepts the rest depends on the host, so of a refusal only the
    /// kind and message are owed.
    pub fn apply_resource_limits(&self, resources: &ResourceLimits) -> (r: Result<
        (),
        TurbineError,
    >)
        requires
            resources.memory_mb matches Some(m) ==> m < 0x1000_0000_0000,
            resources.disk_mb matches Some(d) ==> d < 0x1000_0000_0000,
        ensures
            spec_limit_plan(*resources).len() == 0 ==> r.is_ok(),
            r matches Err(e) ==> e matches TurbineError::SecurityError(_),
    {
        let plan = self.resource_limit_plan(resources);
        let n = plan.len();
        let mut i: usize = 0;
        while i < n
            invariant
                n == plan@.len(),
                plan@ == spec_limit_plan(*resources),
                i <= n,
            decreases n - i,
        {
            let (kind, value) = (plan[i].0, plan[i].1);
            if !sys::set_rlimit(&kind, value, value) {
                let m = match kind {
                    sys::LimitKind::AddressSpace => "Failed to set memory limit",
                    sys::LimitKind::ProcessCount => "Failed to set process limit",
                    sys::LimitKind::FileSize => "Failed to set disk limit",
                };
                return Err(TurbineError::SecurityError(m.to_owned()));
            }
            i += 1;
        }
        Ok(())
    }

    /// The directories every rootless root tree needs, with their modes:
    /// proc and sys read-only, dev normal, tmp sticky and world-writable.
    pub fn rootless_filesystem_dirs(&self, container: &Container) -> (r: Vec<(String, u32)>)
        ensures
            r@.len() == 4,
            r@[0].0@ == container.root_path@ + "/proc"@,
            r@[0].1 == 0o555u32,
            r@[1].0@ == container.root_path@ + "/sys"@,
            r@[1].1 == 0o555u32,
            r@[2].0@ == container.root_path@ + "/dev"@,
            r@[2].1 == 0o755u32,
            r@[3].0@ == container.root_path@ + "/tmp"@,
            r@[3].1 == 0o1777u32,
    {
        let mut r: Vec<(String, u32)> = Vec::new();
        let mut proc_dir = container.root_path.clone();
        proc_dir.append("/proc");
        r.push((proc_dir, 0o555));
        let mut sys_dir = container.root_path.clone();
        sys_dir.append("/sys");
        r.push((sys_dir, 0o555));
        let mut dev_dir = container.root_path.clone();
        dev_dir.append("/dev");
        r.push((dev_dir, 0o755));
        let mut tmp_dir = container.root_path.clone();
        tmp_dir.append("/tmp");
        r.push((tmp_dir, 0o1777));
        r
    }
}

impl Default for SecurityManager {
    /// The rootless profile is the default.
    fn default() -> (r: Self)
        ensures
            r.allowed_users@.len() == 0,
            spec_default_restricted(r.restricted_paths@),
            r.use_user_namespaces,
    {
        SecurityManager::new_rootless()
    }
}

/// What counts as whitespace when the kernel setting is trimmed.
pub open spec fn spec_space(c: char) -> bool {
    c == ' ' || c == '\n' || c == '\t' || c == '\r'
}

/// The text holds exactly one non-whitespace character, and it is '0'.
/// This is what `trim` leaving the single digit zero means.
pub open spec fn spec_trimmed_zero(s: Seq<char>) -> bool {
    exists|i: int|
        0 <= i < s.len() && s[i] == '0' && (forall|j: int|
            0 <= j < s.len() && j != i ==> spec_space(s[j]))
}

fn trimmed_is_zero(s: &str) -> (r: bool)
    ensures
        r == spec_trimmed_zero(s@),
{
    let n = s.unicode_len();
    let mut seen_zero: bool = false;
    let ghost mut zero_at: int = 0;
    let mut i: usize = 0;
    while i < n
        invariant
            n == s@.len(),
            i <= n,
            seen_zero ==> 0 <= zero_at < i && s@[zero_at] == '0',
            forall|j: int| 0 <= j < i && (seen_zero ==> j != zero_at) ==> spec_space(s@[j]),
            !seen_zero ==> forall|j: int| 0 <= j < i ==> spec_space(s@[j]),
        decreases n - i,
    {
        let c = s.get_char(i);
        let sp = c == ' ' || c == '\n' || c == '\t' || c == '\r';
        if !sp {
            if c == '0' && !seen_zero {
                seen_zero = true;
                proof {
                    zero_at = i as int;
                }
            } else {
                assert(!spec_trimmed_zero(s@)) by {
                    if exists|k: int|
                        0 <= k < s@.len() && s@[k] == '0' && (forall|j: int|
                            0 <= j < s@.len() && j != k ==> spec_space(s@[j])) {
                        let k = choose|k: int|
                            0 <= k < s@.len() && s@[k] == '0' && (forall|j: int|
                                0 <= j < s@.len() && j != k ==> spec_space(s@[j]));
                        if k != i as int {
                            assert(spec_space(s@[i as int]));
                        } else {
                            if seen_zero && zero_at != k {
                                assert(spec_space(s@[zero_at]));
                            }
                        }
                    }
                }
                return false;
            }
        }
        i += 1;
    }
    if seen_zero {
        assert(spec_trimmed_zero(s@)) by {
            assert(s@[zero_at] == '0' && (forall|j: int|
                0 <= j < s@.len() && j != zero_at ==> spec_space(s@[j])));
        }
    } else {
        assert(!spec_trimmed_zero(s@)) by {
            if exists|k: int|
                0 <= k < s@.len() && s@[k] == '0' && (forall|j: int|
                    0 <= j < s@.len() && j != k ==> spec_space(s@[j])) {
                let k = choose|k: int|
                    0 <= k < s@.len() && s@[k] == '0' && (forall|j: int|
                        0 <= j < s@.len() && j != k ==> spec_space(s@[j]));
                assert(spec_space(s@[k]));
            }
        }
    }
    seen_zero
}

} // verus!
