pub mod config;
pub mod container;
pub mod errors;
pub mod filesystem;
pub mod network;
pub mod procfs;
pub mod process;
pub mod runtime;
pub mod security;
pub mod sys;
mod textutil;

pub use config::ContainerConfig;
pub use config::NetworkConfig;
pub use config::PortMapping;
pub use config::ResourceLimits;
pub use config::RestartPolicy;
pub use config::VolumeMount;
pub use config::env_get;
pub use config::env_set;
pub use container::Container;
pub use container::ContainerRegistry;
pub use container::ContainerState;
pub use errors::TurbineError;
pub use filesystem::FilesystemManager;
pub use filesystem::MountOp;
pub use network::IpAddress;
pub use network::NetworkManager;
pub use procfs::cpu_jiffies_from_stat;
pub use procfs::memory_usage_from_status;
pub use procfs::parse_u64;
pub use process::CommandPlan;
pub use process::ProcessManager;
pub use process::StopAction;
pub use runtime::ContainerStats;
pub use runtime::TurbineRuntime;
pub use security::SecurityManager;
pub use runtime::lemma_allocations_consistent;
pub use runtime::lemma_cleanup_idempotent;
pub use runtime::lemma_leader_pid_matches_state;
pub use runtime::lemma_port_table_consistent;
pub use sys::LimitKind;
pub use sys::SignalKind;
pub use textutil::str_contains;
pub use textutil::str_eq;
pub use textutil::str_starts_with;
pub use textutil::u64_to_hex_string;
pub use textutil::u64_to_string;
