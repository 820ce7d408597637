use vstd::prelude::*;

verus! {

/// The signals the runtime sends to container leader processes.
#[derive(Clone, Copy, Debug, PartialEq, Eq, Structural)]
pub enum SignalKind {
    Term,
    Kill,
    Stop,
    Cont,
}

/// The per-process resource limits the runtime applies before exec.
#[derive(Clone, Copy, Debug, PartialEq, Eq, Structural)]
pub enum LimitKind {
    AddressSpace,
    ProcessCount,
    FileSize,
}

/// Relies on uuid's `Uuid::new_v4` and its `Display` impl: a fresh random
/// UUIDv4 rendered in the hyphenated lowercase form, which is always
/// 36 characters long. The value is random, so nothing more is promised.
#[verifier::external_body]
pub(crate) fn fresh_container_id() -> (r: String)
    ensures
        r@.len() == 36,
{
    uuid::Uuid::new_v4().to_string()
}

/// Relies on chrono's `Utc::now` and `DateTime::timestamp_millis`: the
/// current UTC time in milliseconds since the Unix epoch. The value depends
/// on the clock, so nothing is promised of it.
#[verifier::external_body]
pub(crate) fn now_millis() -> i64 {
    chrono::Utc::now().timestamp_millis()
}

/// Relies on nix's `sys::stat::stat`: whether the path can be stat'ed,
/// that is, it exists and is reachable by the calling process. The outcome
/// depends on the state of the filesystem, so nothing is promised of it.
#[verifier::external_body]
pub(crate) fn path_exists(path: &str) -> bool {
    nix::sys::stat::stat(path).is_ok()
}

/// Relies on nix's `unistd::access` with `W_OK`: whether the calling
/// process may write to the path. The outcome depends on the state of the
/// filesystem, so nothing is promised of it.
#[verifier::external_body]
pub(crate) fn path_writable(path: &str) -> bool {
    nix::unistd::access(path, nix::unistd::AccessFlags::W_OK).is_ok()
}

/// Relies on nix's `sys::signal::kill`: sends the chosen signal to the
/// process with the given pid; true when the kernel accepted the signal.
/// Pid 0 and pids above `i32::MAX` are excluded, so the call can never
/// turn into a process-group kill.
#[verifier::external_body]
pub(crate) fn send_signal(pid: u32, kind: &SignalKind) -> bool
    requires
        1 <= pid <= 0x7FFF_FFFF,
{
    let sig = match kind {
        SignalKind::Term => nix::sys::signal::Signal::SIGTERM,
        SignalKind::Kill => nix::sys::signal::Signal::SIGKILL,
        SignalKind::Stop => nix::sys::signal::Signal::SIGSTOP,
        SignalKind::Cont => nix::sys::signal::Signal::SIGCONT,
    };
    nix::sys::signal::kill(nix::unistd::Pid::from_raw(pid as i32), sig).is_ok()
}

/// Relies on nix's `sys::resource::setrlimit`: sets the soft and hard
/// bounds of the chosen per-process limit; true on success.
#[verifier::external_body]
pub(crate) fn set_rlimit(kind: &LimitKind, soft: u64, hard: u64) -> bool {
    let res = match kind {
        LimitKind::AddressSpace => nix::sys::resource::Resource::RLIMIT_AS,
        LimitKind::ProcessCount => nix::sys::resource::Resource::RLIMIT_NPROC,
        LimitKind::FileSize => nix::sys::resource::Resource::RLIMIT_FSIZE,
    };
    nix::sys::resource::setrlimit(res, soft, hard).is_ok()
}

} // verus!
