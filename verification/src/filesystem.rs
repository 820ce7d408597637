use vstd::prelude::*;
use vstd::string::*;
use crate::container::Container;
use crate::textutil::str_starts_with;

verus! {

/// One bind mount to perform: attach `source` at `target`, read-only when
/// asked.
#[derive(Debug)]
pub struct MountOp {
    pub source: String,
    pub target: String,
    pub readonly: bool,
}

/// Computes every path and file of a container's root tree. It performs
/// no filesystem work itself; the paths and contents it returns are the
/// contract for whoever does.
pub struct FilesystemManager {
    pub base_path: String,
}

/// The `resolv.conf` text for a list of nameservers: one
/// `nameserver X` line per entry.
pub open spec fn spec_resolv_conf(dns: Seq<Seq<char>>) -> Seq<char>
    decreases dns.len(),
{
    if dns.len() == 0 {
        Seq::empty()
    } else {
        spec_resolv_conf(dns.drop_last()) + "nameserver "@ + dns.last() + "\n"@
    }
}

/// A container path relative to the root: the one leading slash is
/// dropped.
pub open spec fn spec_strip_slash(s: Seq<char>) -> Seq<char> {
    if s.len() > 0 && s[0] == '/' {
        s.subrange(1, s.len() as int)
    } else {
        s
    }
}

/// Where a container path lands inside the root tree.
pub open spec fn spec_volume_target(root: Seq<char>, container_path: Seq<char>) -> Seq<char> {
    root + "/"@ + spec_strip_slash(container_path)
}

fn strip_leading_slash(s: &str) -> (r: &str)
    ensures
        r@ == spec_strip_slash(s@),
{
    if str_starts_with(s, "/") {
        proof {
            reveal_strlit("/");
            assert("/"@.len() == 1);
            assert(s@.subrange(0, 1)[0] == s@[0]);
            assert("/"@[0] == '/');
            assert(s@[0] == '/');
        }
        let n = s.unicode_len();
        let r = s.substring_char(1, n);
        r
    } else {
        proof {
            reveal_strlit("/");
            if s@.len() > 0 && s@[0] == '/' {
                assert(s@.subrange(0, 1)[0] == '/');
                assert("/"@.len() == 1);
                assert(s@.subrange(0, 1) =~= "/"@);
            }
        }
        s
    }
}

impl FilesystemManager {
    /// A manager rooted at `base_path`.
    pub fn new(base_path: &str) -> (r: Self)
        ensures
            r.base_path@ == base_path@,
    {
        FilesystemManager { base_path: base_path.to_owned() }
    }

    /// The directories of a fresh root tree, in creation order: the root
    /// itself, then its nine standard subdirectories.
    pub fn root_directories(&self, container: &Container) -> (r: Vec<String>)
        ensures
            r@.len() == 10,
            r@[0]@ == container.root_path@,
            r@[1]@ == container.root_path@ + "/bin"@,
            r@[2]@ == container.root_path@ + "/etc"@,
            r@[3]@ == container.root_path@ + "/lib"@,
            r@[4]@ == container.root_path@ + "/tmp"@,
            r@[5]@ == container.root_path@ + "/var"@,
            r@[6]@ == container.root_path@ + "/proc"@,
            r@[7]@ == container.root_path@ + "/sys"@,
            r@[8]@ == container.root_path@ + "/dev"@,
            r@[9]@ == container.root_path@ + "/app"@,
    {
        let mut r: Vec<String> = Vec::new();
        r.push(container.root_path.clone());
        let mut bin = container.root_path.clone();
        bin.append("/bin");
        r.push(bin);
        let mut etc = container.root_path.clone();
        etc.append("/etc");
        r.push(etc);
        let mut lib = container.root_path.clone();
        lib.append("/lib");
        r.push(lib);
        let mut tmp = container.root_path.clone();
        tmp.append("/tmp");
        r.push(tmp);
        let mut var = container.root_path.clone();
        var.append("/var");
        r.push(var);
        let mut proc_dir = container.root_path.clone();
        proc_dir.append("/proc");
        r.push(proc_dir);
        let mut sys_dir = container.root_path.clone();
        sys_dir.append("/sys");
        r.push(sys_dir);
        let mut dev = container.root_path.clone();
        dev.append("/dev");
        r.push(dev);
        let mut app = container.root_path.clone();
        app.append("/app");
        r.push(app);
        r
    }

    /// The files that seed `/etc` of a new root tree, as full paths and
    /// exact contents: `resolv.conf` built from the configured
    /// nameservers, a single unprivileged `passwd` entry, its group, and
    /// the loopback hosts.
    pub fn seed_files(&self, container: &Container) -> (r: Vec<(String, String)>)
        ensures
            r@.len() == 4,
            r@[0].0@ == container.root_path@ + "/etc/resolv.conf"@,
            r@[0].1@ == spec_resolv_conf(container.config.network.dns.deep_view()),
            r@[1].0@ == container.root_path@ + "/etc/passwd"@,
            r@[1].1@ == "turbine:x:1000:1000:Turbine User:/app:/bin/sh\n"@,
            r@[2].0@ == container.root_path@ + "/etc/group"@,
            r@[2].1@ == "turbine:x:1000:\n"@,
            r@[3].0@ == container.root_path@ + "/etc/hosts"@,
            r@[3].1@ == "127.0.0.1 localhost\n::1 localhost\n"@,
    {
        let dns = &container.config.network.dns;
        let n = dns.len();
        let mut resolv = String::new();
        let mut i: usize = 0;
        while i < n
            invariant
                n == dns@.len(),
                i <= n,
                resolv@ == spec_resolv_conf(dns.deep_view().subrange(0, i as int)),
            decreases n - i,
        {
            resolv.append("nameserver ");
            resolv.append(dns[i].as_str());
            resolv.append("\n");
            proof {
                assert(dns.deep_view().subrange(0, i + 1).drop_last() =~= dns.deep_view().subrange(
                    0,
                    i as int,
                ));
                assert(dns.deep_view().subrange(0, i + 1).last() == dns@[i as int]@);
            }
            i += 1;
        }
        assert(dns.deep_view().subrange(0, n as int) =~= dns.deep_view());
        let mut r: Vec<(String, String)> = Vec::new();
        let mut resolv_path = container.root_path.clone();
        resolv_path.append("/etc/resolv.conf");
        r.push((resolv_path, resolv));
        let mut passwd_path = container.root_path.clone();
        passwd_path.append("/etc/passwd");
        r.push((passwd_path, "turbine:x:1000:1000:Turbine User:/app:/bin/sh\n".to_owned()));
        let mut group_path = container.root_path.clone();
        group_path.append("/etc/group");
        r.push((group_path, "turbine:x:1000:\n".to_owned()));
        let mut hosts_path = container.root_path.clone();
        hosts_path.append("/etc/hosts");
        r.push((hosts_path, "127.0.0.1 localhost\n::1 localhost\n".to_owned()));
        r
    }

    /// The bind mounts of the configured volumes, in order. Each target
    /// is the container path, stripped of its leading slash, joined under
    /// the root.
    pub fn volume_mounts(&self, container: &Container) -> (r: Vec<MountOp>)
        ensures
            r@.len() == container.config.volumes@.len(),
            forall|i: int|
                0 <= i < r@.len() ==> r@[i].source@ == container.config.volumes@[i].host_path@
                    && r@[i].target@ == spec_volume_target(
                    container.root_path@,
                    container.config.volumes@[i].container_path@,
                ) && r@[i].readonly == container.config.volumes@[i].readonly,
    {
        let volumes = &container.config.volumes;
        let n = volumes.len();
        let mut r: Vec<MountOp> = Vec::new();
        let mut i: usize = 0;
        while i < n
            invariant
                n == volumes@.len(),
                i <= n,
                r@.len() == i,
                forall|k: int|
                    0 <= k < i ==> r@[k].source@ == volumes@[k].host_path@ && r@[k].target@
                        == spec_volume_target(
                        container.root_path@,
                        volumes@[k].container_path@,
                    ) && r@[k].readonly == volumes@[k].readonly,
            decreases n - i,
        {
            let vol = &volumes[i];
            let mut target = container.root_path.clone();
            target.append("/");
            target.append(strip_leading_slash(vol.container_path.as_str()));
            r.push(
                MountOp { source: vol.host_path.clone(), target, readonly: vol.readonly },
            );
            i += 1;
        }
        r
    }

    /// The volume targets to unmount during cleanup, in mount order.
    pub fn unmount_targets(&self, container: &Container) -> (r: Vec<String>)
        ensures
            r@.len() == container.config.volumes@.len(),
            forall|i: int|
                0 <= i < r@.len() ==> r@[i]@ == spec_volume_target(
                    container.root_path@,
                    container.config.volumes@[i].container_path@,
                ),
    {
        let volumes = &container.config.volumes;
        let n = volumes.len();
        let mut r: Vec<String> = Vec::new();
        let mut i: usize = 0;
        while i < n
            invariant
                n == volumes@.len(),
                i <= n,
                r@.len() == i,
                forall|k: int|
                    0 <= k < i ==> r@[k]@ == spec_volume_target(
                        container.root_path@,
                        volumes@[k].container_path@,
                    ),
            decreases n - i,
        {
            let vol = &volumes[i];
            let mut target = container.root_path.clone();
            target.append("/");
            target.append(strip_leading_slash(vol.container_path.as_str()));
            r.push(target);
            i += 1;
        }
        r
    }

    /// Where the configured working directory lives inside the root tree
    /// and the permission mode it takes, when one is set.
    pub fn working_directory_plan(&self, container: &Container) -> (r: Option<(String, u32)>)
        ensures
            container.config.working_dir matches Some(w) ==> (r matches Some(p) && (p.0@
                == spec_volume_target(container.root_path@, w@) && p.1 == 0o755u32)),
            container.config.working_dir is None ==> r is None,
    {
        match &container.config.working_dir {
            Some(working_dir) => {
                let mut p = container.root_path.clone();
                p.append("/");
                p.append(strip_leading_slash(working_dir.as_str()));
                Some((p, 0o755))
            },
            None => None,
        }
    }
}

} // verus!
