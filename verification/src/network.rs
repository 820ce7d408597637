use vstd::prelude::*;
use vstd::string::*;
use crate::config::PortMapping;
use crate::container::Container;
use crate::errors::TurbineError;
use crate::textutil::str_eq;
use crate::textutil::u64_to_hex_string;
use crate::textutil::u64_to_string;

verus! {

/// A concrete address: IPv4 as 32 bits, IPv6 as 128.
#[derive(Debug, Clone, Copy, PartialEq, Eq, Structural)]
pub enum IpAddress {
    V4(u32),
    V6(u128),
}

/// The address families the manager hands out: one subnet per family in
/// use. Subnets are the network address as an integer.
#[derive(Debug, Clone, Copy)]
pub enum NetworkConfig {
    IPv4 { subnet: u32, prefix: u8 },
    IPv6 { subnet: u128, prefix: u8 },
    DualStack { ipv4_subnet: u32, ipv4_prefix: u8, ipv6_subnet: u128, ipv6_prefix: u8 },
}

impl Default for NetworkConfig {
    /// The default pool: 10.88.0.0/24.
    fn default() -> (r: Self)
        ensures
            r == (NetworkConfig::IPv4 { subnet: 0x0A58_0000u32, prefix: 24u8 }),
    {
        NetworkConfig::IPv4 { subnet: 0x0A58_0000, prefix: 24 }
    }
}

/// The IPv4 network base: the subnet with its host byte cleared.
pub open spec fn spec_v4_base(subnet: u32) -> int {
    subnet - (subnet % 256)
}

/// The IPv6 network base: the subnet with its host segment cleared.
pub open spec fn spec_v6_base(subnet: u128) -> int {
    subnet - (subnet % 0x10000)
}

/// The IPv4 address with host part `s` in the subnet.
pub open spec fn spec_v4_at(subnet: u32, s: int) -> IpAddress {
    IpAddress::V4((spec_v4_base(subnet) + s) as u32)
}

/// The IPv6 address with host part `s` in the subnet.
pub open spec fn spec_v6_at(subnet: u128, s: int) -> IpAddress {
    IpAddress::V6((spec_v6_base(subnet) + s) as u128)
}

/// Allocates addresses and records port forwarding for containers. All
/// three tables key their entries by container id; the port table is
/// keyed by host port.
pub struct NetworkManager {
    pub bridge_name: String,
    pub network_config: NetworkConfig,
    pub allocated_ips: Vec<(String, Vec<IpAddress>)>,
    pub port_mappings: Vec<(u16, String)>,
    pub container_ports: Vec<(String, Vec<PortMapping>)>,
    pub netns_dir: String,
    pub use_slirp4netns: bool,
}

/// `ip` is the free IPv4 address with the lowest host part of the
/// subnet, scanning from 2: every lower candidate is already taken.
pub open spec fn spec_lowest_free_v4(m: NetworkManager, subnet: u32, ip: IpAddress) -> bool {
    exists|s: int|
        #![trigger spec_v4_at(subnet, s)]
        2 <= s < 255 && ip == spec_v4_at(subnet, s) && !m.ip_allocated(ip) && (forall|t: int|
            #![trigger spec_v4_at(subnet, t)]
            2 <= t < s ==> m.ip_allocated(spec_v4_at(subnet, t)))
}

/// `ip` is the free IPv6 address with the lowest host part of the
/// subnet, scanning from 2.
pub open spec fn spec_lowest_free_v6(m: NetworkManager, subnet: u128, ip: IpAddress) -> bool {
    exists|s: int|
        #![trigger spec_v6_at(subnet, s)]
        2 <= s < 0xFFFF && ip == spec_v6_at(subnet, s) && !m.ip_allocated(ip) && (forall|t: int|
            #![trigger spec_v6_at(subnet, t)]
            2 <= t < s ==> m.ip_allocated(spec_v6_at(subnet, t)))
}

/// A fresh allocation is the lowest free address of every configured
/// subnet, one per family, in family order.
pub open spec fn spec_lowest_free_alloc(m: NetworkManager, ips: Seq<IpAddress>) -> bool {
    match m.network_config {
        NetworkConfig::IPv4 { subnet, .. } => ips.len() == 1 && spec_lowest_free_v4(
            m,
            subnet,
            ips[0],
        ),
        NetworkConfig::IPv6 { subnet, .. } => ips.len() == 1 && spec_lowest_free_v6(
            m,
            subnet,
            ips[0],
        ),
        NetworkConfig::DualStack { ipv4_subnet, ipv6_subnet, .. } => ips.len() == 2
            && spec_lowest_free_v4(m, ipv4_subnet, ips[0]) && spec_lowest_free_v6(
            m,
            ipv6_subnet,
            ips[1],
        ),
    }
}

/// One port of a fresh list collides with the table or with an earlier
/// entry of the same list.
pub open spec fn spec_conflict_at(m: NetworkManager, ports: Seq<PortMapping>, k: int) -> bool {
    m.port_taken(ports[k].host_port) || (exists|j: int|
        0 <= j < k && ports[j].host_port == ports[k].host_port)
}

/// A fresh port list collides with the table or with itself.
pub open spec fn spec_port_conflict(m: NetworkManager, ports: Seq<PortMapping>) -> bool {
    (exists|i: int| 0 <= i < ports.len() && m.port_taken(ports[i].host_port)) || (exists|
        i: int,
        j: int,
    | 0 <= i < j < ports.len() && ports[i].host_port == ports[j].host_port)
}

/// The dotted-decimal text of an IPv4 address.
pub open spec fn spec_ipv4_str(ip: u32) -> Seq<char> {
    crate::textutil::dec_seq((ip / 0x100_0000) as nat) + "."@ + crate::textutil::dec_seq(
        ((ip / 0x1_0000) % 256) as nat,
    ) + "."@ + crate::textutil::dec_seq(((ip / 256) % 256) as nat) + "."@
        + crate::textutil::dec_seq((ip % 256) as nat)
}

/// The full eight-segment lowercase hexadecimal text of an IPv6 address.
pub open spec fn spec_ipv6_str(ip: u128) -> Seq<char> {
    crate::textutil::hex_seq(((ip / 0x1_0000_0000_0000_0000_0000_0000_0000u128) % 0x10000) as nat)
        + ":"@ + crate::textutil::hex_seq(
        ((ip / 0x1_0000_0000_0000_0000_0000_0000u128) % 0x10000) as nat,
    ) + ":"@ + crate::textutil::hex_seq(
        ((ip / 0x1_0000_0000_0000_0000_0000u128) % 0x10000) as nat,
    ) + ":"@ + crate::textutil::hex_seq(((ip / 0x1_0000_0000_0000_0000u128) % 0x10000) as nat)
        + ":"@ + crate::textutil::hex_seq(((ip / 0x1_0000_0000_0000u128) % 0x10000) as nat) + ":"@
        + crate::textutil::hex_seq(((ip / 0x1_0000_0000u128) % 0x10000) as nat) + ":"@
        + crate::textutil::hex_seq(((ip / 0x1_0000u128) % 0x10000) as nat) + ":"@
        + crate::textutil::hex_seq((ip % 0x10000) as nat)
}

/// The text of either address family.
pub open spec fn spec_ip_str(ip: IpAddress) -> Seq<char> {
    match ip {
        IpAddress::V4(v) => spec_ipv4_str(v),
        IpAddress::V6(v) => spec_ipv6_str(v),
    }
}

/// The prefix length that goes with an address under this configuration.
pub open spec fn spec_family_prefix(cfg: NetworkConfig, ip: IpAddress) -> u8 {
    match ip {
        IpAddress::V4(_) => match cfg {
            NetworkConfig::IPv4 { prefix, .. } => prefix,
            NetworkConfig::DualStack { ipv4_prefix, .. } => ipv4_prefix,
            _ => 24,
        },
        IpAddress::V6(_) => match cfg {
            NetworkConfig::IPv6 { prefix, .. } => prefix,
            NetworkConfig::DualStack { ipv6_prefix, .. } => ipv6_prefix,
            _ => 64,
        },
    }
}

/// The veth wiring script: create the pair, enslave the host end to the
/// bridge, bring the host end and the bridge up.
pub open spec fn spec_veth_script(id: Seq<char>, bridge: Seq<char>) -> Seq<char> {
    let vh = "veth-"@ + id.subrange(0, 8);
    let vc = "veth-c-"@ + id.subrange(0, 8);
    "ip link add "@ + vh + " type veth peer name "@ + vc + "\n"@ + "ip link set "@ + vh
        + " master "@ + bridge + "\n"@ + "ip link set "@ + vh + " up\n"@ + "ip link set "@ + bridge
        + " up\n"@
}

/// The address the bridge takes in an IPv4 subnet: host part 1.
pub open spec fn spec_v4_bridge_part(subnet: u32, prefix: u8, bridge: Seq<char>) -> Seq<char> {
    "ip addr add "@ + crate::textutil::dec_seq((subnet / 0x100_0000) as nat) + "."@
        + crate::textutil::dec_seq(((subnet / 0x1_0000) % 256) as nat) + "."@
        + crate::textutil::dec_seq(((subnet / 256) % 256) as nat) + ".1/"@
        + crate::textutil::dec_seq(prefix as nat) + " dev "@ + bridge
}

/// The address the bridge takes in an IPv6 subnet: host part 1.
pub open spec fn spec_v6_bridge_part(subnet: u128, prefix: u8, bridge: Seq<char>) -> Seq<char> {
    "ip addr add "@ + crate::textutil::hex_seq(
        ((subnet / 0x1_0000_0000_0000_0000_0000_0000_0000u128) % 0x10000) as nat,
    ) + ":"@ + crate::textutil::hex_seq(
        ((subnet / 0x1_0000_0000_0000_0000_0000_0000u128) % 0x10000) as nat,
    ) + ":"@ + crate::textutil::hex_seq(
        ((subnet / 0x1_0000_0000_0000_0000_0000u128) % 0x10000) as nat,
    ) + ":"@ + crate::textutil::hex_seq(((subnet / 0x1_0000_0000_0000_0000u128) % 0x10000) as nat)
        + ":"@ + crate::textutil::hex_seq(((subnet / 0x1_0000_0000_0000u128) % 0x10000) as nat)
        + ":"@ + crate::textutil::hex_seq(((subnet / 0x1_0000_0000u128) % 0x10000) as nat) + ":"@
        + crate::textutil::hex_seq(((subnet / 0x1_0000u128) % 0x10000) as nat) + ":1/"@
        + crate::textutil::dec_seq(prefix as nat) + " dev "@ + bridge
}

/// The per-port slirp4netns arguments: a `--port-forward` flag and a
/// `tcp:H-tcp:C` spec for each recorded mapping, in order.
pub open spec fn spec_port_forward_args(ports: Seq<PortMapping>) -> Seq<Seq<char>>
    decreases ports.len(),
{
    if ports.len() == 0 {
        Seq::empty()
    } else {
        spec_port_forward_args(ports.drop_last()).push("--port-forward"@).push(
            "tcp:"@ + crate::textutil::dec_seq(ports.last().host_port as nat) + "-tcp:"@
                + crate::textutil::dec_seq(ports.last().container_port as nat),
        )
    }
}

/// The whole slirp4netns argument list for a leader pid and a recorded
/// port list.
pub open spec fn spec_slirp_args(pid: nat, ports: Seq<PortMapping>) -> Seq<Seq<char>> {
    seq![
        "--configure"@,
        "--mtu=65520"@,
        "--disable-host-loopback"@,
        crate::textutil::dec_seq(pid),
        "tap0"@,
    ] + spec_port_forward_args(ports)
}

/// The command that assigns the bridge its addresses, one part per
/// configured family.
pub open spec fn spec_bridge_ip_command(cfg: NetworkConfig, bridge: Seq<char>) -> Seq<char> {
    match cfg {
        NetworkConfig::IPv4 { subnet, prefix } => spec_v4_bridge_part(subnet, prefix, bridge),
        NetworkConfig::IPv6 { subnet, prefix } => spec_v6_bridge_part(subnet, prefix, bridge),
        NetworkConfig::DualStack { ipv4_subnet, ipv4_prefix, ipv6_subnet, ipv6_prefix } =>
            spec_v4_bridge_part(ipv4_subnet, ipv4_prefix, bridge) + " && "@ + spec_v6_bridge_part(
            ipv6_subnet,
            ipv6_prefix,
            bridge,
        ),
    }
}

/// One allocation holds the right addresses for the configured families:
/// one IPv4, one IPv6, or exactly the pair, in that order.
pub open spec fn spec_alloc_shape(cfg: NetworkConfig, ips: Seq<IpAddress>) -> bool {
    match cfg {
        NetworkConfig::IPv4 { .. } => ips.len() == 1 && ips[0] is V4,
        NetworkConfig::IPv6 { .. } => ips.len() == 1 && ips[0] is V6,
        NetworkConfig::DualStack { .. } => ips.len() == 2 && ips[0] is V4 && ips[1] is V6,
    }
}

impl NetworkManager {
    /// Some container holds this address.
    pub open spec fn ip_allocated(&self, ip: IpAddress) -> bool {
        exists|i: int, k: int|
            0 <= i < self.allocated_ips@.len() && 0 <= k < self.allocated_ips@[i].1@.len()
                && self.allocated_ips@[i].1@[k] == ip
    }

    /// This container id has an allocation entry.
    pub open spec fn has_alloc(&self, id: Seq<char>) -> bool {
        exists|i: int| 0 <= i < self.allocated_ips@.len() && self.allocated_ips@[i].0@ == id
    }

    /// The position of this container's allocation entry.
    pub open spec fn alloc_idx(&self, id: Seq<char>) -> int {
        choose|i: int| 0 <= i < self.allocated_ips@.len() && self.allocated_ips@[i].0@ == id
    }

    /// This host port is already forwarded.
    pub open spec fn port_taken(&self, p: u16) -> bool {
        exists|i: int| 0 <= i < self.port_mappings@.len() && self.port_mappings@[i].0 == p
    }

    /// This container id has a recorded port list.
    pub open spec fn has_ports(&self, id: Seq<char>) -> bool {
        exists|i: int| 0 <= i < self.container_ports@.len() && self.container_ports@[i].0@ == id
    }

    /// The manager's tables are consistent: entries are uniquely keyed,
    /// every allocation has the shape of the configured families, and no
    /// address is handed out twice.
    pub open spec fn wf(&self) -> bool {
        &&& (forall|i: int, j: int|
            0 <= i < j < self.allocated_ips@.len() ==> self.allocated_ips@[i].0@
                != self.allocated_ips@[j].0@)
        &&& (forall|i: int, j: int|
            0 <= i < j < self.port_mappings@.len() ==> self.port_mappings@[i].0
                != self.port_mappings@[j].0)
        &&& (forall|i: int, j: int|
            0 <= i < j < self.container_ports@.len() ==> self.container_ports@[i].0@
                != self.container_ports@[j].0@)
        &&& (forall|i: int|
            0 <= i < self.allocated_ips@.len() ==> spec_alloc_shape(
                self.network_config,
                #[trigger] self.allocated_ips@[i].1@,
            ))
        &&& (forall|i: int, k: int, j: int, l: int|
            0 <= i < self.allocated_ips@.len() && 0 <= k < self.allocated_ips@[i].1@.len() && 0
                <= j < self.allocated_ips@.len() && 0 <= l < self.allocated_ips@[j].1@.len() && (i
                != j || k != l) ==> self.allocated_ips@[i].1@[k] != self.allocated_ips@[j].1@[l])
    }

    /// A manager over the given bridge with the default IPv4 pool. The
    /// caller says whether slirp4netns is available on this host.
    pub fn new(bridge_name: String, use_slirp4netns: bool) -> (r: Self)
        ensures
            r.bridge_name == bridge_name,
            r.network_config == (NetworkConfig::IPv4 { subnet: 0x0A58_0000u32, prefix: 24u8 }),
            r.allocated_ips@.len() == 0,
            r.port_mappings@.len() == 0,
            r.container_ports@.len() == 0,
            r.netns_dir@ == "/tmp/turbine-netns"@,
            r.use_slirp4netns == use_slirp4netns,
            r.wf(),
    {
        NetworkManager {
            bridge_name,
            network_config: NetworkConfig::default(),
            allocated_ips: Vec::new(),
            port_mappings: Vec::new(),
            container_ports: Vec::new(),
            netns_dir: "/tmp/turbine-netns".to_owned(),
            use_slirp4netns,
        }
    }

    /// A manager with an explicit address configuration.
    pub fn with_config(bridge_name: String, config: NetworkConfig, use_slirp4netns: bool) -> (r:
        Self)
        ensures
            r.bridge_name == bridge_name,
            r.network_config == config,
            r.allocated_ips@.len() == 0,
            r.port_mappings@.len() == 0,
            r.container_ports@.len() == 0,
            r.netns_dir@ == "/tmp/turbine-netns"@,
            r.use_slirp4netns == use_slirp4netns,
            r.wf(),
    {
        NetworkManager {
            bridge_name,
            network_config: config,
            allocated_ips: Vec::new(),
            port_mappings: Vec::new(),
            container_ports: Vec::new(),
            netns_dir: "/tmp/turbine-netns".to_owned(),
            use_slirp4netns,
        }
    }

    fn ip_in_use(&self, ip: IpAddress) -> (r: bool)
        ensures
            r == self.ip_allocated(ip),
    {
        let n = self.allocated_ips.len();
        let mut i: usize = 0;
        while i < n
            invariant
                n == self.allocated_ips@.len(),
                i <= n,
                forall|a: int, k: int|
                    0 <= a < i && 0 <= k < self.allocated_ips@[a].1@.len()
                        ==> self.allocated_ips@[a].1@[k] != ip,
            decreases n - i,
        {
            let ips = &self.allocated_ips[i].1;
            let m = ips.len();
            let mut k: usize = 0;
            while k < m
                invariant
                    n == self.allocated_ips@.len(),
                    i < n,
                    m == self.allocated_ips@[i as int].1@.len(),
                    ips == &self.allocated_ips@[i as int].1,
                    k <= m,
                    forall|l: int| 0 <= l < k ==> self.allocated_ips@[i as int].1@[l] != ip,
                decreases m - k,
            {
                if ips[k] == ip {
                    return true;
                }
                k += 1;
            }
            i += 1;
        }
        false
    }

    /// The lowest free host suffix in the IPv4 subnet, scanning from 2 and
    /// stopping before 255.
    fn allocate_ipv4(&self, subnet: u32) -> (r: Result<u32, TurbineError>)
        ensures
            r matches Ok(ip) ==> exists|s: int|
                #![trigger spec_v4_at(subnet, s)]
                2 <= s < 255 && IpAddress::V4(ip) == spec_v4_at(subnet, s) && !self.ip_allocated(
                    IpAddress::V4(ip),
                ) && (forall|t: int|
                    #![trigger spec_v4_at(subnet, t)]
                    2 <= t < s ==> self.ip_allocated(spec_v4_at(subnet, t))),
            r is Err ==> forall|t: int|
                #![trigger spec_v4_at(subnet, t)]
                2 <= t < 255 ==> self.ip_allocated(spec_v4_at(subnet, t)),
            r matches Err(e) ==> e matches TurbineError::NetworkError(m) && m@
                == "No available IPv4 addresses in subnet"@,
    {
        let base = subnet - (subnet % 256);
        proof {
            assert(base % 256 == 0 && base <= 0xFFFF_FF00) by (nonlinear_arith)
                requires
                    base == subnet - (subnet % 256),
            ;
        }
        let mut suffix: u32 = 2;
        while suffix < 255
            invariant
                base == spec_v4_base(subnet),
                base <= 0xFFFF_FF00,
                2 <= suffix <= 255,
                forall|t: int|
                    #![trigger spec_v4_at(subnet, t)]
                    2 <= t < suffix ==> self.ip_allocated(spec_v4_at(subnet, t)),
            decreases 255 - suffix,
        {
            let candidate = base + suffix;
            if !self.ip_in_use(IpAddress::V4(candidate)) {
                proof {
                    assert(spec_v4_at(subnet, suffix as int) == IpAddress::V4(candidate));
                }
                return Ok(candidate);
            }
            suffix += 1;
        }
        Err(TurbineError::NetworkError("No available IPv4 addresses in subnet".to_owned()))
    }

    /// The lowest free host suffix in the IPv6 subnet, scanning from 2 and
    /// stopping before 0xFFFF.
    fn allocate_ipv6(&self, subnet: u128) -> (r: Result<u128, TurbineError>)
        ensures
            r matches Ok(ip) ==> exists|s: int|
                #![trigger spec_v6_at(subnet, s)]
                2 <= s < 0xFFFF && IpAddress::V6(ip) == spec_v6_at(subnet, s)
                    && !self.ip_allocated(IpAddress::V6(ip)) && (forall|t: int|
                    #![trigger spec_v6_at(subnet, t)]
                    2 <= t < s ==> self.ip_allocated(spec_v6_at(subnet, t))),
            r is Err ==> forall|t: int|
                #![trigger spec_v6_at(subnet, t)]
                2 <= t < 0xFFFF ==> self.ip_allocated(spec_v6_at(subnet, t)),
            r matches Err(e) ==> e matches TurbineError::NetworkError(m) && m@
                == "No available IPv6 addresses in subnet"@,
    {
        let base = subnet - (subnet % 0x10000);
        proof {
            assert(base % 0x10000 == 0 && base <= 0xFFFF_FFFF_FFFF_FFFF_FFFF_FFFF_FFFF_0000u128)
                by (nonlinear_arith)
                requires
                    base == subnet - (subnet % 0x10000),
            ;
        }
        let mut suffix: u32 = 2;
        while suffix < 0xFFFF
            invariant
                base == spec_v6_base(subnet),
                base <= 0xFFFF_FFFF_FFFF_FFFF_FFFF_FFFF_FFFF_0000u128,
                2 <= suffix <= 0xFFFF,
                forall|t: int|
                    #![trigger spec_v6_at(subnet, t)]
                    2 <= t < suffix ==> self.ip_allocated(spec_v6_at(subnet, t)),
            decreases 0xFFFF - suffix,
        {
            let candidate = base + (suffix as u128);
            if !self.ip_in_use(IpAddress::V6(candidate)) {
                proof {
                    assert(spec_v6_at(subnet, suffix as int) == IpAddress::V6(candidate));
                }
                return Ok(candidate);
            }
            suffix += 1;
        }
        Err(TurbineError::NetworkError("No available IPv6 addresses in subnet".to_owned()))
    }

    /// Fresh addresses can still be carved out of every configured
    /// subnet.
    pub open spec fn can_allocate(&self) -> bool {
        match self.network_config {
            NetworkConfig::IPv4 { subnet, .. } => exists|s: int|
                #![trigger spec_v4_at(subnet, s)]
                2 <= s < 255 && !self.ip_allocated(spec_v4_at(subnet, s)),
            NetworkConfig::IPv6 { subnet, .. } => exists|s: int|
                #![trigger spec_v6_at(subnet, s)]
                2 <= s < 0xFFFF && !self.ip_allocated(spec_v6_at(subnet, s)),
            NetworkConfig::DualStack { ipv4_subnet, ipv6_subnet, .. } => (exists|s: int|
                #![trigger spec_v4_at(ipv4_subnet, s)]
                2 <= s < 255 && !self.ip_allocated(spec_v4_at(ipv4_subnet, s))) && (exists|s: int|
                #![trigger spec_v6_at(ipv6_subnet, s)]
                2 <= s < 0xFFFF && !self.ip_allocated(spec_v6_at(ipv6_subnet, s))),
        }
    }

    /// Hands the container its addresses: the ones it already holds, or
    /// fresh ones, the lowest free suffix of each configured subnet,
    /// scanning from host part 2. Nothing else in the manager moves.
    pub fn allocate_ips(&mut self, container_id: &str) -> (r: Result<Vec<IpAddress>, TurbineError>)
        requires
            old(self).wf(),
        ensures
            final(self).wf(),
            final(self).bridge_name == old(self).bridge_name,
            final(self).network_config == old(self).network_config,
            final(self).port_mappings == old(self).port_mappings,
            final(self).container_ports == old(self).container_ports,
            final(self).netns_dir == old(self).netns_dir,
            final(self).use_slirp4netns == old(self).use_slirp4netns,
            old(self).has_alloc(container_id@) ==> (r matches Ok(ips) && ips@ == old(self).allocated_ips@[old(self).alloc_idx(container_id@)].1@) && final(self).allocated_ips
                == old(self).allocated_ips,
            !old(self).has_alloc(container_id@) && r is Ok ==> (r matches Ok(ips) && {
                &&& final(self).allocated_ips@.len() == old(self).allocated_ips@.len() + 1
                &&& final(self).allocated_ips@.drop_last() == old(self).allocated_ips@
                &&& final(self).allocated_ips@.last().0@ == container_id@
                &&& final(self).allocated_ips@.last().1@ == ips@
                &&& spec_alloc_shape(old(self).network_config, ips@)
                &&& spec_lowest_free_alloc(*old(self), ips@)
                &&& (forall|k: int| 0 <= k < ips@.len() ==> !old(self).ip_allocated(ips@[k]))
            }),
            !old(self).has_alloc(container_id@) && r is Err ==> final(self).allocated_ips == old(self).allocated_ips,
            r is Err ==> (r matches Err(e) && e matches TurbineError::NetworkError(_)),
            r is Ok <==> (old(self).has_alloc(container_id@) || old(self).can_allocate()),
    {
        let idx = self.alloc_index_of(container_id);
        if let Some(i) = idx {
            proof {
                assert(self.alloc_idx(container_id@) == i as int) by {
                    let j = self.alloc_idx(container_id@);
                    assert(self.allocated_ips@[j].0@ == container_id@);
                    if j != i as int {
                        assert(self.allocated_ips@[j].0@ == self.allocated_ips@[i as int].0@);
                    }
                }
            }
            let ips = self.allocated_ips[i].1.clone();
            assert(ips@ =~= self.allocated_ips@[i as int].1@);
            return Ok(ips);
        }
        let mut ips: Vec<IpAddress> = Vec::new();
        match self.network_config {
            NetworkConfig::IPv4 { subnet, .. } => {
                let ip = self.allocate_ipv4(subnet)?;
                ips.push(IpAddress::V4(ip));
            },
            NetworkConfig::IPv6 { subnet, .. } => {
                let ip = self.allocate_ipv6(subnet)?;
                ips.push(IpAddress::V6(ip));
            },
            NetworkConfig::DualStack { ipv4_subnet, ipv6_subnet, .. } => {
                let ip4 = self.allocate_ipv4(ipv4_subnet)?;
                let ip6 = self.allocate_ipv6(ipv6_subnet)?;
                ips.push(IpAddress::V4(ip4));
                ips.push(IpAddress::V6(ip6));
            },
        }
        let stored = ips.clone();
        assert(stored@ =~= ips@);
        let ghost pre = self.allocated_ips@;
        self.allocated_ips.push((container_id.to_owned(), stored));
        proof {
            assert(self.allocated_ips@.drop_last() =~= pre);
            assert forall|i: int, k: int, j: int, l: int|
                0 <= i < self.allocated_ips@.len() && 0 <= k < self.allocated_ips@[i].1@.len() && 0
                    <= j < self.allocated_ips@.len() && 0 <= l < self.allocated_ips@[j].1@.len()
                    && (i != j || k != l) implies self.allocated_ips@[i].1@[k]
                != self.allocated_ips@[j].1@[l] by {
                let newi = pre.len() as int;
                if i == newi && j == newi {
                    assert(ips@[k] != ips@[l]);
                } else if i == newi {
                    assert(!old(self).ip_allocated(ips@[k]));
                } else if j == newi {
                    assert(!old(self).ip_allocated(ips@[l]));
                }
            }
        }
        Ok(ips)
    }

    fn alloc_index_of(&self, container_id: &str) -> (r: Option<usize>)
        ensures
            match r {
                Some(i) => i < self.allocated_ips@.len() && self.allocated_ips@[i as int].0@
                    == container_id@ && self.has_alloc(container_id@),
                None => !self.has_alloc(container_id@),
            },
    {
        let n = self.allocated_ips.len();
        let mut i: usize = 0;
        while i < n
            invariant
                n == self.allocated_ips@.len(),
                i <= n,
                forall|k: int| 0 <= k < i ==> self.allocated_ips@[k].0@ != container_id@,
            decreases n - i,
        {
            if str_eq(self.allocated_ips[i].0.as_str(), container_id) {
                return Some(i);
            }
            i += 1;
        }
        None
    }

    /// The container's recorded addresses, if any.
    pub fn get_container_ips(&self, container_id: &str) -> (r: Option<&Vec<IpAddress>>)
        requires
            self.wf(),
        ensures
            match r {
                Some(ips) => self.has_alloc(container_id@) && ips@
                    == self.allocated_ips@[self.alloc_idx(container_id@)].1@,
                None => !self.has_alloc(container_id@),
            },
    {
        match self.alloc_index_of(container_id) {
            Some(i) => {
                proof {
                    let j = self.alloc_idx(container_id@);
                    assert(self.allocated_ips@[j].0@ == container_id@);
                    if j != i as int {
                        assert(self.allocated_ips@[j].0@ == self.allocated_ips@[i as int].0@);
                    }
                }
                Some(&self.allocated_ips[i].1)
            },
            None => None,
        }
    }

    /// The position of this container's recorded port list.
    pub open spec fn ports_idx(&self, id: Seq<char>) -> int {
        choose|i: int| 0 <= i < self.container_ports@.len() && self.container_ports@[i].0@ == id
    }

    fn ports_index_of(&self, container_id: &str) -> (r: Option<usize>)
        ensures
            match r {
                Some(i) => i < self.container_ports@.len() && self.container_ports@[i as int].0@
                    == container_id@ && self.has_ports(container_id@),
                None => !self.has_ports(container_id@),
            },
    {
        let n = self.container_ports.len();
        let mut i: usize = 0;
        while i < n
            invariant
                n == self.container_ports@.len(),
                i <= n,
                forall|k: int| 0 <= k < i ==> self.container_ports@[k].0@ != container_id@,
            decreases n - i,
        {
            if str_eq(self.container_ports[i].0.as_str(), container_id) {
                return Some(i);
            }
            i += 1;
        }
        None
    }

    fn port_in_use(&self, p: u16) -> (r: bool)
        ensures
            r == self.port_taken(p),
    {
        let n = self.port_mappings.len();
        let mut i: usize = 0;
        while i < n
            invariant
                n == self.port_mappings@.len(),
                i <= n,
                forall|k: int| 0 <= k < i ==> self.port_mappings@[k].0 != p,
            decreases n - i,
        {
            if self.port_mappings[i].0 == p {
                return true;
            }
            i += 1;
        }
        false
    }

    /// Wires the container into the tables: refuses a host port that is
    /// already forwarded or repeated in the config, allocates addresses,
    /// and records the port list and the forwarding entries. Either all
    /// of it is recorded, or nothing changes.
    pub fn setup_container_network(&mut self, container: &Container) -> (r: Result<
        (),
        TurbineError,
    >)
        requires
            old(self).wf(),
        ensures
            final(self).wf(),
            final(self).bridge_name == old(self).bridge_name,
            final(self).network_config == old(self).network_config,
            final(self).netns_dir == old(self).netns_dir,
            final(self).use_slirp4netns == old(self).use_slirp4netns,
            r is Err ==> final(self).allocated_ips == old(self).allocated_ips && final(self).port_mappings == old(self).port_mappings && final(self).container_ports == old(self).container_ports,
            r matches Err(e) ==> e matches TurbineError::NetworkError(_),
            r is Ok <==> (!spec_port_conflict(*old(self), container.config.ports@) && (old(self).has_alloc(container.id@) || old(self).can_allocate())),
            spec_port_conflict(*old(self), container.config.ports@) ==> (r matches Err(
                TurbineError::NetworkError(m),
            ) && exists|k: int|
                #![trigger container.config.ports@[k]]
                0 <= k < container.config.ports@.len() && spec_conflict_at(
                    *old(self),
                    container.config.ports@,
                    k,
                ) && m@ == "Port "@ + crate::textutil::dec_seq(
                    container.config.ports@[k].host_port as nat,
                ) + " is already in use"@),
            r is Ok ==> {
                &&& (old(self).has_alloc(container.id@) ==> final(self).allocated_ips == old(self).allocated_ips)
                &&& (!old(self).has_alloc(container.id@) ==> final(self).allocated_ips@.len()
                    == old(self).allocated_ips@.len() + 1 && final(self).allocated_ips@.drop_last()
                    == old(self).allocated_ips@ && final(self).allocated_ips@.last().0@
                    == container.id@ && spec_lowest_free_alloc(
                    *old(self),
                    final(self).allocated_ips@.last().1@,
                ))
                &&& final(self).port_mappings@.len() == old(self).port_mappings@.len()
                    + container.config.ports@.len()
                &&& final(self).port_mappings@.subrange(0, old(self).port_mappings@.len() as int)
                    == old(self).port_mappings@
                &&& (forall|k: int|
                    #![trigger container.config.ports@[k]]
                    0 <= k < container.config.ports@.len() ==> final(self).port_mappings@[old(self).port_mappings@.len() + k].0 == container.config.ports@[k].host_port && final(self).port_mappings@[old(self).port_mappings@.len() + k].1@ == container.id@)
                &&& final(self).container_ports@.len() >= 1
                &&& final(self).container_ports@.last().0@ == container.id@
                &&& final(self).container_ports@.last().1.deep_view()
                    == container.config.ports.deep_view()
                &&& final(self).container_ports@.drop_last() == (if old(self).has_ports(
                    container.id@,
                ) {
                    old(self).container_ports@.remove(old(self).ports_idx(container.id@))
                } else {
                    old(self).container_ports@
                })
                &&& final(self).has_alloc(container.id@)
            },
    {
        let ports = &container.config.ports;
        let n = ports.len();
        let mut i: usize = 0;
        while i < n
            invariant
                n == ports@.len(),
                ports == &container.config.ports,
                i <= n,
                *self == *old(self),
                old(self).wf(),
                forall|k: int| 0 <= k < i ==> !old(self).port_taken(ports@[k].host_port),
                forall|k: int, l: int|
                    0 <= k < l < i ==> ports@[k].host_port != ports@[l].host_port,
            decreases n - i,
        {
            let p = ports[i].host_port;
            if self.port_in_use(p) {
                let mut m = "Port ".to_owned();
                m.append(u64_to_string(p as u64).as_str());
                m.append(" is already in use");
                proof {
                    assert(container.config.ports@[i as int] == ports@[i as int]);
                    assert(spec_conflict_at(*old(self), container.config.ports@, i as int));
                    assert(m@ =~= "Port "@ + crate::textutil::dec_seq(
                        container.config.ports@[i as int].host_port as nat,
                    ) + " is already in use"@);
                }
                return Err(TurbineError::NetworkError(m));
            }
            let mut j: usize = 0;
            while j < i
                invariant
                    n == ports@.len(),
                    ports == &container.config.ports,
                    j <= i < n,
                    *self == *old(self),
                    old(self).wf(),
                    p == ports@[i as int].host_port,
                    forall|l: int| 0 <= l < j ==> ports@[l].host_port != ports@[i as int].host_port,
                decreases i - j,
            {
                if ports[j].host_port == p {
                    proof {
                        assert(ports@[j as int].host_port == ports@[i as int].host_port);
                        assert(spec_port_conflict(*old(self), container.config.ports@));
                        assert(container.config.ports@[i as int] == ports@[i as int]);
                        assert(spec_conflict_at(*old(self), container.config.ports@, i as int));
                    }
                    let mut m = "Port ".to_owned();
                    m.append(u64_to_string(p as u64).as_str());
                    m.append(" is already in use");
                    proof {
                        assert(m@ =~= "Port "@ + crate::textutil::dec_seq(
                            container.config.ports@[i as int].host_port as nat,
                        ) + " is already in use"@);
                    }
                    return Err(TurbineError::NetworkError(m));
                }
                j += 1;
            }
            i += 1;
        }
        assert(!spec_port_conflict(*old(self), container.config.ports@));
        self.allocate_ips(container.id.as_str())?;
        let ghost after_alloc = *self;
        let existing = self.ports_index_of(container.id.as_str());
        if let Some(idx) = existing {
            proof {
                assert(after_alloc.ports_idx(container.id@) == idx as int) by {
                    let j = after_alloc.ports_idx(container.id@);
                    assert(after_alloc.container_ports@[j].0@ == container.id@);
                    if j != idx as int {
                        assert(after_alloc.container_ports@[j].0@ == after_alloc.container_ports@[
                            idx as int].0@);
                    }
                }
            }
            self.container_ports.remove(idx);
            proof {
                let pre = after_alloc.container_ports@;
                let k = after_alloc.ports_idx(container.id@);
                assert(forall|a: int|
                    0 <= a < self.container_ports@.len() ==> self.container_ports@[a] == (if a < k {
                        pre[a]
                    } else {
                        pre[a + 1]
                    }));
                assert(!self.has_ports(container.id@)) by {
                    if exists|a: int|
                        0 <= a < self.container_ports@.len() && self.container_ports@[a].0@
                            == container.id@ {
                        let a = choose|a: int|
                            0 <= a < self.container_ports@.len() && self.container_ports@[a].0@
                                == container.id@;
                        if a < k {
                            assert(pre[a].0@ == pre[k].0@);
                        } else {
                            assert(pre[a + 1].0@ == pre[k].0@);
                        }
                    }
                }
            }
        }
        let ghost cp_base = self.container_ports@;
        let recorded = container.config.ports.clone();
        proof {
            assert(recorded.deep_view() =~= container.config.ports.deep_view());
        }
        self.container_ports.push((container.id.clone(), recorded));
        proof {
            assert(self.container_ports@.drop_last() =~= cp_base);
            assert(forall|a: int, b: int|
                0 <= a < b < self.container_ports@.len() ==> self.container_ports@[a].0@
                    != self.container_ports@[b].0@) by {
                assert(forall|a: int|
                    0 <= a < cp_base.len() ==> self.container_ports@[a] == cp_base[a]);
                assert(self.container_ports@.last().0@ == container.id@);
            }
        }
        let ghost mid = *self;
        let mut k: usize = 0;
        while k < n
            invariant
                n == ports@.len(),
                ports == &container.config.ports,
                k <= n,
                mid.wf(),
                forall|a: int| 0 <= a < n ==> !old(self).port_taken(ports@[a].host_port),
                forall|a: int, b: int|
                    0 <= a < b < n ==> ports@[a].host_port != ports@[b].host_port,
                mid.port_mappings@ == old(self).port_mappings@,
                self.port_mappings@.len() == mid.port_mappings@.len() + k,
                self.port_mappings@.subrange(0, mid.port_mappings@.len() as int)
                    == mid.port_mappings@,
                forall|a: int|
                    0 <= a < k ==> self.port_mappings@[mid.port_mappings@.len() + a].0 == ports@[
                        a].host_port && self.port_mappings@[mid.port_mappings@.len() + a].1@
                        == container.id@,
                forall|a: int, b: int|
                    0 <= a < b < self.port_mappings@.len() ==> self.port_mappings@[a].0
                        != self.port_mappings@[b].0,
                self.allocated_ips == mid.allocated_ips,
                self.container_ports == mid.container_ports,
                self.bridge_name == mid.bridge_name,
                self.network_config == mid.network_config,
                self.netns_dir == mid.netns_dir,
                self.use_slirp4netns == mid.use_slirp4netns,
            decreases n - k,
        {
            let ghost pm_pre = self.port_mappings@;
            self.port_mappings.push((ports[k].host_port, container.id.clone()));
            proof {
                assert(self.port_mappings@.drop_last() =~= pm_pre);
                assert(self.port_mappings@.subrange(0, mid.port_mappings@.len() as int)
                    =~= pm_pre.subrange(0, mid.port_mappings@.len() as int));
                assert forall|a: int, b: int|
                    0 <= a < b < self.port_mappings@.len() implies self.port_mappings@[a].0
                    != self.port_mappings@[b].0 by {
                    if b == self.port_mappings@.len() - 1 {
                        if a < mid.port_mappings@.len() {
                            assert(self.port_mappings@[a] == mid.port_mappings@[a]);
                            assert(!old(self).port_taken(ports@[k as int].host_port));
                        } else {
                            assert(ports@[a - mid.port_mappings@.len()].host_port != ports@[
                                k as int].host_port);
                        }
                    }
                }
            }
            k += 1;
        }
        proof {
            assert(self.wf()) by {
                assert(forall|a: int|
                    0 <= a < self.allocated_ips@.len() ==> self.allocated_ips@[a]
                        == mid.allocated_ips@[a]);
                assert(forall|a: int|
                    0 <= a < self.container_ports@.len() ==> self.container_ports@[a]
                        == mid.container_ports@[a]);
            }
            assert(self.has_alloc(container.id@)) by {
                if after_alloc.has_alloc(container.id@) {
                    let a = choose|a: int|
                        0 <= a < after_alloc.allocated_ips@.len()
                            && after_alloc.allocated_ips@[a].0@ == container.id@;
                    assert(self.allocated_ips@[a].0@ == container.id@);
                }
            }
        }
        Ok(())
    }

    /// Clears everything the container holds in the tables: its port
    /// forwarding entries, its addresses, and its recorded port list.
    pub fn cleanup_container_network(&mut self, container: &Container) -> (r: Result<
        (),
        TurbineError,
    >)
        requires
            old(self).wf(),
        ensures
            final(self).wf(),
            r.is_ok(),
            final(self).bridge_name == old(self).bridge_name,
            final(self).network_config == old(self).network_config,
            final(self).netns_dir == old(self).netns_dir,
            final(self).use_slirp4netns == old(self).use_slirp4netns,
            final(self).port_mappings@ == old(self).port_mappings@.filter(
                |pm: (u16, String)| pm.1@ != container.id@,
            ),
            final(self).allocated_ips@ == (if old(self).has_alloc(container.id@) {
                old(self).allocated_ips@.remove(old(self).alloc_idx(container.id@))
            } else {
                old(self).allocated_ips@
            }),
            final(self).container_ports@ == (if old(self).has_ports(container.id@) {
                old(self).container_ports@.remove(old(self).ports_idx(container.id@))
            } else {
                old(self).container_ports@
            }),
            !final(self).has_alloc(container.id@),
            !final(self).has_ports(container.id@),
            forall|i: int|
                0 <= i < final(self).port_mappings@.len() ==> (#[trigger] final(self).port_mappings@[i]).1@ != container.id@,
            forall|t: int|
                0 <= t < final(self).port_mappings@.len() ==> old(self).port_mappings@.contains(
                    #[trigger] final(self).port_mappings@[t],
                ),
            forall|t: int|
                0 <= t < old(self).port_mappings@.len() && (#[trigger] old(self).port_mappings@[t]).1@ != container.id@ ==> final(self).port_mappings@.contains(
                    old(self).port_mappings@[t],
                ),
    {
        let n = self.port_mappings.len();
        let mut kept: Vec<(u16, String)> = Vec::new();
        let mut i: usize = 0;
        while i < n
            invariant
                n == self.port_mappings@.len(),
                i <= n,
                self == old(self),
                kept@ == self.port_mappings@.subrange(0, i as int).filter(
                    |pm: (u16, String)| pm.1@ != container.id@,
                ),
            decreases n - i,
        {
            let keep = !str_eq(self.port_mappings[i].1.as_str(), container.id.as_str());
            proof {
                reveal(Seq::filter);
                assert(self.port_mappings@.subrange(0, i + 1).drop_last() =~= self.port_mappings@
                    .subrange(0, i as int));
                assert(self.port_mappings@.subrange(0, i + 1).last() == self.port_mappings@[
                    i as int]);
            }
            if keep {
                kept.push((self.port_mappings[i].0, self.port_mappings[i].1.clone()));
                proof {
                    let p = self.port_mappings@[i as int];
                    let q = kept@.last();
                    assert(q.0 == p.0);
                    assert(q.1 == p.1);
                    assert(kept@.drop_last().push(q) =~= kept@);
                }
            }
            assert(kept@ =~= self.port_mappings@.subrange(0, i + 1).filter(
                |pm: (u16, String)| pm.1@ != container.id@,
            ));
            i += 1;
        }
        proof {
            assert(self.port_mappings@.subrange(0, n as int) =~= self.port_mappings@);
        }
        let ghost pre = *old(self);
        self.port_mappings = kept;
        proof {
            crate::textutil::lemma_filter_distinct_keys(
                pre.port_mappings@,
                |pm: (u16, String)| pm.1@ != container.id@,
                |pm: (u16, String)| pm.0,
            );
            assert forall|a: int|
                0 <= a < self.port_mappings@.len() implies (#[trigger] self.port_mappings@[a]).1@
                != container.id@ by {
                pre.port_mappings@.lemma_filter_pred(
                    |pm: (u16, String)| pm.1@ != container.id@,
                    a,
                );
            }
            crate::textutil::lemma_filter_members(
                pre.port_mappings@,
                |pm: (u16, String)| pm.1@ != container.id@,
            );
            assert forall|t: int|
                0 <= t < self.port_mappings@.len() implies pre.port_mappings@.contains(
                #[trigger] self.port_mappings@[t],
            ) by {
                assert(self.port_mappings@.contains(self.port_mappings@[t]));
            }
            assert forall|t: int|
                0 <= t < pre.port_mappings@.len() && (#[trigger] pre.port_mappings@[t]).1@
                    != container.id@ implies self.port_mappings@.contains(
                pre.port_mappings@[t],
            ) by {
                pre.port_mappings@.lemma_filter_contains(
                    |pm: (u16, String)| pm.1@ != container.id@,
                    t,
                );
            }
        }
        let alloc_idx = self.alloc_index_of(container.id.as_str());
        if let Some(idx) = alloc_idx {
            proof {
                assert(pre.alloc_idx(container.id@) == idx as int) by {
                    let j = pre.alloc_idx(container.id@);
                    assert(pre.allocated_ips@[j].0@ == container.id@);
                    if j != idx as int {
                        assert(pre.allocated_ips@[j].0@ == pre.allocated_ips@[idx as int].0@);
                    }
                }
            }
            let ghost aips = self.allocated_ips@;
            self.allocated_ips.remove(idx);
            proof {
                assert(forall|a: int|
                    0 <= a < self.allocated_ips@.len() ==> self.allocated_ips@[a] == (if a < (
                    idx as int) {
                        aips[a]
                    } else {
                        aips[a + 1]
                    }));
                assert(!self.has_alloc(container.id@)) by {
                    if exists|a: int|
                        0 <= a < self.allocated_ips@.len() && self.allocated_ips@[a].0@
                            == container.id@ {
                        let a = choose|a: int|
                            0 <= a < self.allocated_ips@.len() && self.allocated_ips@[a].0@
                                == container.id@;
                        if a < idx as int {
                            assert(aips[a].0@ == aips[idx as int].0@);
                        } else {
                            assert(aips[a + 1].0@ == aips[idx as int].0@);
                        }
                    }
                }
            }
        }
        let cp_idx = self.ports_index_of(container.id.as_str());
        if let Some(idx) = cp_idx {
            proof {
                assert(pre.ports_idx(container.id@) == idx as int) by {
                    let j = pre.ports_idx(container.id@);
                    assert(pre.container_ports@[j].0@ == container.id@);
                    if j != idx as int {
                        assert(pre.container_ports@[j].0@ == pre.container_ports@[idx as int].0@);
                    }
                }
            }
            let ghost cps = self.container_ports@;
            self.container_ports.remove(idx);
            proof {
                assert(forall|a: int|
                    0 <= a < self.container_ports@.len() ==> self.container_ports@[a] == (if a < (
                    idx as int) {
                        cps[a]
                    } else {
                        cps[a + 1]
                    }));
                assert(!self.has_ports(container.id@)) by {
                    if exists|a: int|
                        0 <= a < self.container_ports@.len() && self.container_ports@[a].0@
                            == container.id@ {
                        let a = choose|a: int|
                            0 <= a < self.container_ports@.len() && self.container_ports@[a].0@
                                == container.id@;
                        if a < idx as int {
                            assert(cps[a].0@ == cps[idx as int].0@);
                        } else {
                            assert(cps[a + 1].0@ == cps[idx as int].0@);
                        }
                    }
                }
            }
        }
        Ok(())
    }

    /// The dotted-decimal rendering of an IPv4 address.
    pub fn ipv4_to_string(ip: u32) -> (r: String)
        ensures
            r@ == spec_ipv4_str(ip),
    {
        let mut r = u64_to_string((ip / 0x100_0000) as u64);
        r.append(".");
        r.append(u64_to_string(((ip / 0x1_0000) % 256) as u64).as_str());
        r.append(".");
        r.append(u64_to_string(((ip / 256) % 256) as u64).as_str());
        r.append(".");
        r.append(u64_to_string((ip % 256) as u64).as_str());
        assert(r@ =~= spec_ipv4_str(ip));
        r
    }

    /// The full eight-segment lowercase hexadecimal rendering of an IPv6
    /// address, without zero compression.
    pub fn ipv6_to_string(ip: u128) -> (r: String)
        ensures
            r@ == spec_ipv6_str(ip),
    {
        let mut r = u64_to_hex_string(((ip / 0x1_0000_0000_0000_0000_0000_0000_0000u128) % 0x10000) as u64);
        r.append(":");
        r.append(u64_to_hex_string(((ip / 0x1_0000_0000_0000_0000_0000_0000u128) % 0x10000) as u64).as_str());
        r.append(":");
        r.append(u64_to_hex_string(((ip / 0x1_0000_0000_0000_0000_0000u128) % 0x10000) as u64).as_str());
        r.append(":");
        r.append(u64_to_hex_string(((ip / 0x1_0000_0000_0000_0000u128) % 0x10000) as u64).as_str());
        r.append(":");
        r.append(u64_to_hex_string(((ip / 0x1_0000_0000_0000u128) % 0x10000) as u64).as_str());
        r.append(":");
        r.append(u64_to_hex_string(((ip / 0x1_0000_0000u128) % 0x10000) as u64).as_str());
        r.append(":");
        r.append(u64_to_hex_string(((ip / 0x1_0000u128) % 0x10000) as u64).as_str());
        r.append(":");
        r.append(u64_to_hex_string((ip % 0x10000) as u64).as_str());
        assert(r@ =~= spec_ipv6_str(ip));
        r
    }

    /// The text form of either address family.
    pub fn ip_to_string(ip: &IpAddress) -> (r: String)
        ensures
            r@ == spec_ip_str(*ip),
    {
        match ip {
            IpAddress::V4(v) => Self::ipv4_to_string(*v),
            IpAddress::V6(v) => Self::ipv6_to_string(*v),
        }
    }

    /// The file that pins the managed network namespace.
    pub fn netns_path(&self) -> (r: String)
        ensures
            r@ == self.netns_dir@ + "/"@ + self.bridge_name@,
    {
        let mut r = self.netns_dir.clone();
        r.append("/");
        r.append(self.bridge_name.as_str());
        r
    }

    /// The host-side name of the container's veth pair.
    pub fn veth_host_name(&self, container: &Container) -> (r: String)
        requires
            container.id@.len() >= 8,
        ensures
            r@ == "veth-"@ + container.id@.subrange(0, 8),
    {
        let mut r = "veth-".to_owned();
        r.append(container.id.as_str().substring_char(0, 8));
        r
    }

    /// The container-side name of the veth pair.
    pub fn veth_container_name(&self, container: &Container) -> (r: String)
        requires
            container.id@.len() >= 8,
        ensures
            r@ == "veth-c-"@ + container.id@.subrange(0, 8),
    {
        let mut r = "veth-c-".to_owned();
        r.append(container.id.as_str().substring_char(0, 8));
        r
    }

    /// The script that creates the veth pair inside the namespace,
    /// attaches the host end to the bridge, and brings both up.
    pub fn veth_setup_script(&self, container: &Container) -> (r: String)
        requires
            container.id@.len() >= 8,
        ensures
            r@ == spec_veth_script(container.id@, self.bridge_name@),
    {
        let vh = self.veth_host_name(container);
        let vc = self.veth_container_name(container);
        let mut r = "ip link add ".to_owned();
        r.append(vh.as_str());
        r.append(" type veth peer name ");
        r.append(vc.as_str());
        r.append("\n");
        r.append("ip link set ");
        r.append(vh.as_str());
        r.append(" master ");
        r.append(self.bridge_name.as_str());
        r.append("\n");
        r.append("ip link set ");
        r.append(vh.as_str());
        r.append(" up\n");
        r.append("ip link set ");
        r.append(self.bridge_name.as_str());
        r.append(" up\n");
        assert(r@ =~= spec_veth_script(container.id@, self.bridge_name@));
        r
    }

    /// The prefix length for this address under the configured pools.
    pub fn family_prefix(&self, ip: &IpAddress) -> (r: u8)
        ensures
            r == spec_family_prefix(self.network_config, *ip),
    {
        match ip {
            IpAddress::V4(_) => match self.network_config {
                NetworkConfig::IPv4 { prefix, .. } => prefix,
                NetworkConfig::DualStack { ipv4_prefix, .. } => ipv4_prefix,
                _ => 24,
            },
            IpAddress::V6(_) => match self.network_config {
                NetworkConfig::IPv6 { prefix, .. } => prefix,
                NetworkConfig::DualStack { ipv6_prefix, .. } => ipv6_prefix,
                _ => 64,
            },
        }
    }

    /// The nsenter arguments that put one address, with the right family
    /// flag and prefix, on an interface inside the namespace.
    pub fn interface_config_args(&self, interface: &str, ip: &IpAddress) -> (r: Vec<String>)
        ensures
            r@.len() == 8,
            r@[0]@ == "--net="@ + self.netns_dir@ + "/"@ + self.bridge_name@,
            r@[1]@ == "ip"@,
            r@[2]@ == (match *ip {
                IpAddress::V4(_) => "-4"@,
                IpAddress::V6(_) => "-6"@,
            }),
            r@[3]@ == "addr"@,
            r@[4]@ == "add"@,
            r@[5]@ == spec_ip_str(*ip) + "/"@ + crate::textutil::dec_seq(
                spec_family_prefix(self.network_config, *ip) as nat,
            ),
            r@[6]@ == "dev"@,
            r@[7]@ == interface@,
    {
        let mut r: Vec<String> = Vec::new();
        let mut net = "--net=".to_owned();
        net.append(self.netns_path().as_str());
        assert(net@ =~= "--net="@ + self.netns_dir@ + "/"@ + self.bridge_name@);
        r.push(net);
        r.push("ip".to_owned());
        let fam = match ip {
            IpAddress::V4(_) => "-4",
            IpAddress::V6(_) => "-6",
        };
        r.push(fam.to_owned());
        r.push("addr".to_owned());
        r.push("add".to_owned());
        let mut with_mask = Self::ip_to_string(ip);
        with_mask.append("/");
        with_mask.append(u64_to_string(self.family_prefix(ip) as u64).as_str());
        r.push(with_mask);
        r.push("dev".to_owned());
        r.push(interface.to_owned());
        r
    }

    /// The command that gives the bridge its first host address in each
    /// configured subnet.
    pub fn bridge_ip_command(&self) -> (r: String)
        ensures
            r@ == spec_bridge_ip_command(self.network_config, self.bridge_name@),
    {
        match self.network_config {
            NetworkConfig::IPv4 { subnet, prefix } => {
                let r = self.v4_bridge_part(subnet, prefix);
                r
            },
            NetworkConfig::IPv6 { subnet, prefix } => {
                let r = self.v6_bridge_part(subnet, prefix);
                r
            },
            NetworkConfig::DualStack { ipv4_subnet, ipv4_prefix, ipv6_subnet, ipv6_prefix } => {
                let mut r = self.v4_bridge_part(ipv4_subnet, ipv4_prefix);
                r.append(" && ");
                r.append(self.v6_bridge_part(ipv6_subnet, ipv6_prefix).as_str());
                assert(r@ =~= spec_bridge_ip_command(self.network_config, self.bridge_name@));
                r
            },
        }
    }

    fn v4_bridge_part(&self, subnet: u32, prefix: u8) -> (r: String)
        ensures
            r@ == spec_v4_bridge_part(subnet, prefix, self.bridge_name@),
    {
        let mut r = "ip addr add ".to_owned();
        r.append(u64_to_string((subnet / 0x100_0000) as u64).as_str());
        r.append(".");
        r.append(u64_to_string(((subnet / 0x1_0000) % 256) as u64).as_str());
        r.append(".");
        r.append(u64_to_string(((subnet / 256) % 256) as u64).as_str());
        r.append(".1/");
        r.append(u64_to_string(prefix as u64).as_str());
        r.append(" dev ");
        r.append(self.bridge_name.as_str());
        assert(r@ =~= spec_v4_bridge_part(subnet, prefix, self.bridge_name@));
        r
    }

    fn v6_bridge_part(&self, subnet: u128, prefix: u8) -> (r: String)
        ensures
            r@ == spec_v6_bridge_part(subnet, prefix, self.bridge_name@),
    {
        let mut r = "ip addr add ".to_owned();
        r.append(u64_to_hex_string(((subnet / 0x1_0000_0000_0000_0000_0000_0000_0000u128) % 0x10000) as u64).as_str());
        r.append(":");
        r.append(u64_to_hex_string(((subnet / 0x1_0000_0000_0000_0000_0000_0000u128) % 0x10000) as u64).as_str());
        r.append(":");
        r.append(u64_to_hex_string(((subnet / 0x1_0000_0000_0000_0000_0000u128) % 0x10000) as u64).as_str());
        r.append(":");
        r.append(u64_to_hex_string(((subnet / 0x1_0000_0000_0000_0000u128) % 0x10000) as u64).as_str());
        r.append(":");
        r.append(u64_to_hex_string(((subnet / 0x1_0000_0000_0000u128) % 0x10000) as u64).as_str());
        r.append(":");
        r.append(u64_to_hex_string(((subnet / 0x1_0000_0000u128) % 0x10000) as u64).as_str());
        r.append(":");
        r.append(u64_to_hex_string(((subnet / 0x1_0000u128) % 0x10000) as u64).as_str());
        r.append(":1/");
        r.append(u64_to_string(prefix as u64).as_str());
        r.append(" dev ");
        r.append(self.bridge_name.as_str());
        assert(r@ =~= spec_v6_bridge_part(subnet, prefix, self.bridge_name@));
        r
    }

    /// One DNAT rule that publishes a host port toward the container
    /// address: the binary to run and its arguments.
    pub fn port_forward_rule(&self, ip: &IpAddress, port: &PortMapping) -> (r: (String, Vec<
        String,
    >))
        ensures
            r.0@ == (match *ip {
                IpAddress::V4(_) => "iptables"@,
                IpAddress::V6(_) => "ip6tables"@,
            }),
            r.1@.len() == 12,
            r.1@[0]@ == "-t"@,
            r.1@[1]@ == "nat"@,
            r.1@[2]@ == "-A"@,
            r.1@[3]@ == "PREROUTING"@,
            r.1@[4]@ == "-p"@,
            r.1@[5]@ == "tcp"@,
            r.1@[6]@ == "--dport"@,
            r.1@[7]@ == crate::textutil::dec_seq(port.host_port as nat),
            r.1@[8]@ == "-j"@,
            r.1@[9]@ == "DNAT"@,
            r.1@[10]@ == "--to-destination"@,
            r.1@[11]@ == (match *ip {
                IpAddress::V4(_) => spec_ip_str(*ip) + ":"@ + crate::textutil::dec_seq(
                    port.container_port as nat,
                ),
                IpAddress::V6(_) => "["@ + spec_ip_str(*ip) + "]:"@ + crate::textutil::dec_seq(
                    port.container_port as nat,
                ),
            }),
    {
        let binary = match ip {
            IpAddress::V4(_) => "iptables",
            IpAddress::V6(_) => "ip6tables",
        };
        let mut args: Vec<String> = Vec::new();
        args.push("-t".to_owned());
        args.push("nat".to_owned());
        args.push("-A".to_owned());
        args.push("PREROUTING".to_owned());
        args.push("-p".to_owned());
        args.push("tcp".to_owned());
        args.push("--dport".to_owned());
        args.push(u64_to_string(port.host_port as u64));
        args.push("-j".to_owned());
        args.push("DNAT".to_owned());
        args.push("--to-destination".to_owned());
        let dest = match ip {
            IpAddress::V4(_) => {
                let mut d = Self::ip_to_string(ip);
                d.append(":");
                d.append(u64_to_string(port.container_port as u64).as_str());
                d
            },
            IpAddress::V6(_) => {
                let mut d = "[".to_owned();
                d.append(Self::ip_to_string(ip).as_str());
                d.append("]:");
                d.append(u64_to_string(port.container_port as u64).as_str());
                d
            },
        };
        args.push(dest);
        (binary.to_owned(), args)
    }

    /// The slirp4netns invocation for a leader pid: configure a tap
    /// device over the leader's namespace and forward every recorded
    /// port. Refused when this host has no slirp4netns.
    pub fn slirp4netns_args(&self, container_pid: u32, container_id: &str) -> (r: Result<
        Vec<String>,
        TurbineError,
    >)
        requires
            self.wf(),
        ensures
            !self.use_slirp4netns ==> (r matches Err(TurbineError::NetworkError(m)) && m@
                == "slirp4netns not available"@),
            self.use_slirp4netns ==> (r matches Ok(args) && args@.map_values(|a: String| a@)
                == spec_slirp_args(
                container_pid as nat,
                if self.has_ports(container_id@) {
                    self.container_ports@[self.ports_idx(container_id@)].1@
                } else {
                    Seq::empty()
                },
            )),
    {
        if !self.use_slirp4netns {
            return Err(TurbineError::NetworkError("slirp4netns not available".to_owned()));
        }
        let mut args: Vec<String> = Vec::new();
        args.push("--configure".to_owned());
        args.push("--mtu=65520".to_owned());
        args.push("--disable-host-loopback".to_owned());
        args.push(u64_to_string(container_pid as u64));
        args.push("tap0".to_owned());
        let idx = self.ports_index_of(container_id);
        if let Some(i) = idx {
            proof {
                assert(self.ports_idx(container_id@) == i as int) by {
                    let j = self.ports_idx(container_id@);
                    assert(self.container_ports@[j].0@ == container_id@);
                    if j != i as int {
                        assert(self.container_ports@[j].0@ == self.container_ports@[i as int].0@);
                    }
                }
            }
            let ports = &self.container_ports[i].1;
            let n = ports.len();
            let mut k: usize = 0;
            assert(args@.map_values(|a: String| a@) =~= spec_slirp_args(
                container_pid as nat,
                ports@.subrange(0, 0),
            ));
            while k < n
                invariant
                    n == ports@.len(),
                    ports == &self.container_ports@[i as int].1,
                    i < self.container_ports@.len(),
                    k <= n,
                    args@.map_values(|a: String| a@) == spec_slirp_args(
                        container_pid as nat,
                        ports@.subrange(0, k as int),
                    ),
                decreases n - k,
            {
                let ghost base = args@;
                args.push("--port-forward".to_owned());
                let mut fwd = "tcp:".to_owned();
                fwd.append(u64_to_string(ports[k].host_port as u64).as_str());
                fwd.append("-tcp:");
                fwd.append(u64_to_string(ports[k].container_port as u64).as_str());
                assert(fwd@ =~= "tcp:"@ + crate::textutil::dec_seq(ports@[k as int].host_port as nat)
                    + "-tcp:"@ + crate::textutil::dec_seq(ports@[k as int].container_port as nat));
                args.push(fwd);
                proof {
                    let sub1 = ports@.subrange(0, k + 1);
                    assert(sub1.len() == k + 1);
                    assert(sub1.drop_last() =~= ports@.subrange(0, k as int));
                    assert(sub1.last() == ports@[k as int]);
                    assert(spec_port_forward_args(sub1) == spec_port_forward_args(
                        ports@.subrange(0, k as int),
                    ).push("--port-forward"@).push(
                        "tcp:"@ + crate::textutil::dec_seq(ports@[k as int].host_port as nat)
                            + "-tcp:"@ + crate::textutil::dec_seq(
                            ports@[k as int].container_port as nat,
                        ),
                    ));
                    let m0 = base.map_values(|a: String| a@);
                    let pfa0 = spec_port_forward_args(ports@.subrange(0, k as int));
                    assert(m0.len() == 5 + pfa0.len());
                    assert(args@.len() == base.len() + 2);
                    assert(args@[base.len() as int]@ == "--port-forward"@);
                    assert(forall|x: int| 0 <= x < base.len() ==> args@[x] == base[x]);
                    assert(args@.map_values(|a: String| a@) =~~= spec_slirp_args(
                        container_pid as nat,
                        sub1,
                    )) by {
                        let m1 = args@.map_values(|a: String| a@);
                        let rhs = spec_slirp_args(container_pid as nat, sub1);
                        assert(m1.len() == rhs.len());
                        assert(forall|x: int| 0 <= x < m1.len() ==> m1[x] == args@[x]@);
                        assert(forall|x: int| 0 <= x < m0.len() ==> m0[x] == base[x]@);
                        assert forall|x: int| 0 <= x < m1.len() implies m1[x] =~= rhs[x] by {
                            if x < base.len() {
                                assert(m1[x] == m0[x]);
                                assert(m0[x] == (seq![
                                    "--configure"@,
                                    "--mtu=65520"@,
                                    "--disable-host-loopback"@,
                                    crate::textutil::dec_seq(container_pid as nat),
                                    "tap0"@,
                                ] + pfa0)[x]);
                            } else if x == base.len() {
                                assert(m1[x] == "--port-forward"@);
                            } else {
                                assert(m1[x] == args@.last()@);
                            }
                        }
                    }
                }
                k += 1;
            }
            assert(ports@.subrange(0, n as int) =~= ports@);
            Ok(args)
        } else {
            assert(args@.map_values(|a: String| a@) =~= spec_slirp_args(
                container_pid as nat,
                Seq::empty(),
            ));
            Ok(args)
        }
    }

    /// The configured address families.
    pub fn network_config(&self) -> (r: &NetworkConfig)
        ensures
            *r == self.network_config,
    {
        &self.network_config
    }

    /// Whether this manager runs in userspace (slirp4netns) mode.
    pub fn is_using_slirp4netns(&self) -> (r: bool)
        ensures
            r == self.use_slirp4netns,
    {
        self.use_slirp4netns
    }
}

} // verus!
