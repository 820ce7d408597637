use vstd::prelude::*;
use vstd::string::*;
use crate::container::Container;
use crate::errors::TurbineError;
use crate::sys;
use crate::sys::SignalKind;
use crate::textutil::dec_seq;
use crate::textutil::str_eq;
use crate::textutil::u64_to_string;

verus! {

/// Everything needed to spawn a container leader: the program and its
/// arguments, the environment, the working directory, and the identity
/// to assume in the child before exec. The kernel demands gid and
/// supplementary groups before uid.
pub struct CommandPlan {
    pub program: String,
    pub args: Vec<String>,
    pub env: Vec<(String, String)>,
    pub working_dir: Option<String>,
    pub uid: Option<u32>,
    pub gid: Option<u32>,
    pub groups: Option<Vec<u32>>,
}

/// What a stop request did: the container had no tracked leader, the
/// leader was killed outright, or a polite termination signal went out
/// and the caller still has to wait for the exit.
#[derive(Debug, Clone, Copy, PartialEq, Eq, Structural)]
pub enum StopAction {
    NotTracked,
    Killed(u32),
    TermSent(u32),
}

/// The namespace flags handed to unshare for every leader.
pub open spec fn spec_unshare_flags() -> Seq<Seq<char>> {
    seq!["--pid"@, "--net"@, "--mount"@, "--uts"@, "--ipc"@, "--fork"@]
}

/// The expected leader argv, after the program name: the unshare flags,
/// then chroot into the root path, then the configured command.
pub open spec fn spec_leader_args(root: Seq<char>, command: Seq<Seq<char>>) -> Seq<Seq<char>> {
    spec_unshare_flags() + seq!["chroot"@, root] + command
}

/// The expected nsenter argv for a one-shot command: target the leader's
/// namespaces when a leader is tracked, then chroot and the command.
pub open spec fn spec_exec_args(
    pid: Option<u32>,
    root: Seq<char>,
    command: Seq<Seq<char>>,
) -> Seq<Seq<char>> {
    (match pid {
        Some(p) => seq![
            "--target"@,
            dec_seq(p as nat),
            "--pid"@,
            "--net"@,
            "--mount"@,
            "--uts"@,
            "--ipc"@,
        ],
        None => Seq::empty(),
    }) + seq!["chroot"@, root] + command
}

fn push_all(dst: &mut Vec<String>, src: &Vec<String>)
    ensures
        final(dst)@.map_values(|a: String| a@) == old(dst)@.map_values(|a: String| a@)
            + src.deep_view(),
        final(dst)@.len() == old(dst)@.len() + src@.len(),
{
    let ghost base = dst@.map_values(|a: String| a@);
    let n = src.len();
    let mut i: usize = 0;
    while i < n
        invariant
            n == src@.len(),
            base == old(dst)@.map_values(|a: String| a@),
            dst@.len() == old(dst)@.len() + i,
            i <= n,
            dst@.map_values(|a: String| a@) == base + src.deep_view().subrange(0, i as int),
        decreases n - i,
    {
        let ghost pre = dst@;
        dst.push(src[i].clone());
        proof {
            let m1 = dst@.map_values(|a: String| a@);
            let rhs = base + src.deep_view().subrange(0, i + 1);
            assert(forall|x: int| 0 <= x < pre.len() ==> dst@[x] == pre[x]);
            assert(dst@[pre.len() as int] == src@[i as int]);
            assert(m1.len() == rhs.len());
            assert forall|x: int| 0 <= x < m1.len() implies m1[x] == rhs[x] by {
                assert(m1[x] == dst@[x]@);
                if x < pre.len() {
                    assert(dst@[x] == pre[x]);
                    assert(pre.map_values(|a: String| a@)[x] == pre[x]@);
                    assert((base + src.deep_view().subrange(0, i as int))[x] == pre[x]@);
                    if x >= base.len() {
                        assert(src.deep_view().subrange(0, i as int)[x - base.len()]
                            == src.deep_view()[x - base.len()]);
                        assert(src.deep_view().subrange(0, i + 1)[x - base.len()]
                            == src.deep_view()[x - base.len()]);
                    }
                } else {
                    assert(dst@[x] == src@[i as int]);
                    assert(src.deep_view().subrange(0, i + 1)[i as int] == src.deep_view()[
                        i as int]);
                    assert(src.deep_view()[i as int] == src@[i as int]@);
                }
            }
            assert(m1 =~= rhs);
        }
        i += 1;
    }
    assert(src.deep_view().subrange(0, n as int) =~= src.deep_view());
}

/// Tracks the leader pid of every container this manager has spawned.
pub struct ProcessManager {
    pub running: Vec<(String, u32)>,
}

impl ProcessManager {
    /// Container ids are unique, and every tracked pid is a real signed
    /// pid: at least 1 and within the signed range.
    pub open spec fn wf(&self) -> bool {
        &&& (forall|i: int, j: int|
            0 <= i < j < self.running@.len() ==> self.running@[i].0@ != self.running@[j].0@)
        &&& (forall|i: int|
            0 <= i < self.running@.len() ==> 1 <= (#[trigger] self.running@[i].1)
                <= 0x7FFF_FFFF)
    }

    /// This container has a tracked leader.
    pub open spec fn tracks(&self, id: Seq<char>) -> bool {
        exists|i: int| 0 <= i < self.running@.len() && self.running@[i].0@ == id
    }

    /// The position of the container's entry.
    pub open spec fn track_idx(&self, id: Seq<char>) -> int {
        choose|i: int| 0 <= i < self.running@.len() && self.running@[i].0@ == id
    }

    /// An empty manager.
    pub fn new() -> (r: Self)
        ensures
            r.running@.len() == 0,
            r.wf(),
    {
        ProcessManager { running: Vec::new() }
    }

    fn index_of(&self, container_id: &str) -> (r: Option<usize>)
        ensures
            match r {
                Some(i) => i < self.running@.len() && self.running@[i as int].0@ == container_id@
                    && self.tracks(container_id@),
                None => !self.tracks(container_id@),
            },
    {
        let n = self.running.len();
        let mut i: usize = 0;
        while i < n
            invariant
                n == self.running@.len(),
                i <= n,
                forall|k: int| 0 <= k < i ==> self.running@[k].0@ != container_id@,
            decreases n - i,
        {
            if str_eq(self.running[i].0.as_str(), container_id) {
                return Some(i);
            }
            i += 1;
        }
        None
    }

    /// The plan for spawning this container's leader: unshare the five
    /// namespaces with a fork, chroot into the root tree, run the
    /// configured command under the configured identity and environment.
    pub fn build_command(&self, container: &Container) -> (r: Result<CommandPlan, TurbineError>)
        ensures
            r matches Ok(p) && {
                &&& p.program@ == "unshare"@
                &&& p.args@.map_values(|a: String| a@) == spec_leader_args(
                    container.root_path@,
                    container.config.command.deep_view(),
                )
                &&& p.env.deep_view() == container.config.environment.deep_view()
                &&& p.working_dir.deep_view() == container.config.working_dir.deep_view()
                &&& p.uid == container.config.uid
                &&& p.gid == container.config.gid
                &&& (p.groups is Some <==> container.config.groups is Some)
                &&& (container.config.groups is Some ==> p.groups.unwrap()@
                    == container.config.groups.unwrap()@)
            },
    {
        let mut args: Vec<String> = Vec::new();
        args.push("--pid".to_owned());
        args.push("--net".to_owned());
        args.push("--mount".to_owned());
        args.push("--uts".to_owned());
        args.push("--ipc".to_owned());
        args.push("--fork".to_owned());
        args.push("chroot".to_owned());
        args.push(container.root_path.clone());
        assert(args@.map_values(|a: String| a@) =~= spec_unshare_flags() + seq![
            "chroot"@,
            container.root_path@,
        ]);
        push_all(&mut args, &container.config.command);
        proof {
            assert(args@.map_values(|a: String| a@) =~= spec_leader_args(
                container.root_path@,
                container.config.command.deep_view(),
            ));
        }
        let env = crate::config::clone_env(&container.config.environment);
        let working_dir = container.config.working_dir.clone();
        let groups = container.config.groups.clone();
        proof {
            if container.config.groups is Some {
                assert(cloned::<Vec<u32>>(
                    container.config.groups.unwrap(),
                    groups.unwrap(),
                ));
                assert(groups.unwrap()@ =~= container.config.groups.unwrap()@);
            }
            if container.config.working_dir is Some {
                assert(cloned::<String>(
                    container.config.working_dir.unwrap(),
                    working_dir.unwrap(),
                ));
                assert(working_dir.unwrap() == container.config.working_dir.unwrap());
            }
            assert(working_dir.deep_view() == container.config.working_dir.deep_view());
            assert(container.config.groups is Some ==> groups is Some && groups.unwrap()@
                == container.config.groups.unwrap()@);
        }
        Ok(
            CommandPlan {
                program: "unshare".to_owned(),
                args,
                env,
                working_dir,
                uid: container.config.uid,
                gid: container.config.gid,
                groups,
            },
        )
    }

    /// Records a freshly spawned leader, replacing any stale entry for
    /// the same container.
    pub fn record_start(&mut self, container_id: &str, pid: u32)
        requires
            old(self).wf(),
            1 <= pid <= 0x7FFF_FFFF,
        ensures
            final(self).wf(),
            final(self).running@.len() >= 1,
            final(self).running@.last().0@ == container_id@,
            final(self).running@.last().1 == pid,
            final(self).running@.drop_last() == (if old(self).tracks(container_id@) {
                old(self).running@.remove(old(self).track_idx(container_id@))
            } else {
                old(self).running@
            }),
            final(self).tracks(container_id@),
    {
        let ghost pre = *old(self);
        let idx = self.index_of(container_id);
        if let Some(i) = idx {
            proof {
                assert(pre.track_idx(container_id@) == i as int) by {
                    let j = pre.track_idx(container_id@);
                    assert(pre.running@[j].0@ == container_id@);
                    if j != i as int {
                        assert(pre.running@[j].0@ == pre.running@[i as int].0@);
                    }
                }
            }
            self.running.remove(i);
            proof {
                assert(forall|a: int|
                    0 <= a < self.running@.len() ==> self.running@[a] == (if a < i as int {
                        pre.running@[a]
                    } else {
                        pre.running@[a + 1]
                    }));
                assert(!self.tracks(container_id@)) by {
                    if exists|a: int|
                        0 <= a < self.running@.len() && self.running@[a].0@ == container_id@ {
                        let a = choose|a: int|
                            0 <= a < self.running@.len() && self.running@[a].0@ == container_id@;
                        if a < i as int {
                            assert(pre.running@[a].0@ == pre.running@[i as int].0@);
                        } else {
                            assert(pre.running@[a + 1].0@ == pre.running@[i as int].0@);
                        }
                    }
                }
            }
        }
        let ghost mid = self.running@;
        self.running.push((container_id.to_owned(), pid));
        proof {
            assert(self.running@.drop_last() =~= mid);
            assert(forall|a: int| 0 <= a < mid.len() ==> self.running@[a] == mid[a]);
        }
    }

    /// Asks the leader to stop. With force the leader is killed on the
    /// spot and the entry dropped; without force a termination signal is
    /// sent, the entry is dropped, and the caller must still wait out
    /// the exit. Signals to an already-gone process are not an error.
    pub fn stop_container(&mut self, container_id: &str, force: bool) -> (r: Result<
        StopAction,
        TurbineError,
    >)
        requires
            old(self).wf(),
        ensures
            final(self).wf(),
            r.is_ok(),
            !old(self).tracks(container_id@) ==> r == Ok::<StopAction, TurbineError>(
                StopAction::NotTracked,
            ) && final(self).running@ == old(self).running@,
            old(self).tracks(container_id@) ==> {
                &&& final(self).running@ == old(self).running@.remove(
                    old(self).track_idx(container_id@),
                )
                &&& r == Ok::<StopAction, TurbineError>(
                    if force {
                        StopAction::Killed(old(self).running@[old(self).track_idx(container_id@)].1)
                    } else {
                        StopAction::TermSent(
                            old(self).running@[old(self).track_idx(container_id@)].1,
                        )
                    },
                )
            },
            !final(self).tracks(container_id@),
    {
        let ghost pre = *old(self);
        let idx = self.index_of(container_id);
        match idx {
            None => Ok(StopAction::NotTracked),
            Some(i) => {
                proof {
                    assert(pre.track_idx(container_id@) == i as int) by {
                        let j = pre.track_idx(container_id@);
                        assert(pre.running@[j].0@ == container_id@);
                        if j != i as int {
                            assert(pre.running@[j].0@ == pre.running@[i as int].0@);
                        }
                    }
                }
                let pid = self.running[i].1;
                self.running.remove(i);
                proof {
                    assert(forall|a: int|
                        0 <= a < self.running@.len() ==> self.running@[a] == (if a < i as int {
                            pre.running@[a]
                        } else {
                            pre.running@[a + 1]
                        }));
                    assert(!self.tracks(container_id@)) by {
                        if exists|a: int|
                            0 <= a < self.running@.len() && self.running@[a].0@ == container_id@ {
                            let a = choose|a: int|
                                0 <= a < self.running@.len() && self.running@[a].0@
                                    == container_id@;
                            if a < i as int {
                                assert(pre.running@[a].0@ == pre.running@[i as int].0@);
                            } else {
                                assert(pre.running@[a + 1].0@ == pre.running@[i as int].0@);
                            }
                        }
                    }
                }
                if force {
                    let _accepted = sys::send_signal(pid, &SignalKind::Kill);
                    Ok(StopAction::Killed(pid))
                } else {
                    let _accepted = sys::send_signal(pid, &SignalKind::Term);
                    Ok(StopAction::TermSent(pid))
                }
            },
        }
    }

    /// Sends the stop signal to the tracked leader and reports its pid;
    /// a container without one is left alone. Whether the kernel accepts
    /// the signal depends on the host, so a refusal is also possible.
    pub fn pause_container(&self, container_id: &str) -> (r: Result<Option<u32>, TurbineError>)
        requires
            self.wf(),
        ensures
            !self.tracks(container_id@) ==> r == Ok::<Option<u32>, TurbineError>(None),
            self.tracks(container_id@) ==> (r == Ok::<Option<u32>, TurbineError>(
                Some(self.running@[self.track_idx(container_id@)].1),
            ) || (r matches Err(TurbineError::ProcessError(m)) && m@ == "Failed to send signal"@)),
    {
        match self.index_of(container_id) {
            None => Ok(None),
            Some(i) => {
                proof {
                    assert(self.track_idx(container_id@) == i as int) by {
                        let j = self.track_idx(container_id@);
                        assert(self.running@[j].0@ == container_id@);
                        if j != i as int {
                            assert(self.running@[j].0@ == self.running@[i as int].0@);
                        }
                    }
                }
                let pid = self.running[i].1;
                if sys::send_signal(pid, &SignalKind::Stop) {
                    Ok(Some(pid))
                } else {
                    Err(TurbineError::ProcessError("Failed to send signal".to_owned()))
                }
            },
        }
    }

    /// Sends the continue signal to the tracked leader and reports its
    /// pid; a container without one is left alone.
    pub fn resume_container(&self, container_id: &str) -> (r: Result<Option<u32>, TurbineError>)
        requires
            self.wf(),
        ensures
            !self.tracks(container_id@) ==> r == Ok::<Option<u32>, TurbineError>(None),
            self.tracks(container_id@) ==> (r == Ok::<Option<u32>, TurbineError>(
                Some(self.running@[self.track_idx(container_id@)].1),
            ) || (r matches Err(TurbineError::ProcessError(m)) && m@ == "Failed to send signal"@)),
    {
        match self.index_of(container_id) {
            None => Ok(None),
            Some(i) => {
                proof {
                    assert(self.track_idx(container_id@) == i as int) by {
                        let j = self.track_idx(container_id@);
                        assert(self.running@[j].0@ == container_id@);
                        if j != i as int {
                            assert(self.running@[j].0@ == self.running@[i as int].0@);
                        }
                    }
                }
                let pid = self.running[i].1;
                if sys::send_signal(pid, &SignalKind::Cont) {
                    Ok(Some(pid))
                } else {
                    Err(TurbineError::ProcessError("Failed to send signal".to_owned()))
                }
            },
        }
    }

    /// Whether a leader is tracked for this container.
    pub fn is_running(&self, container_id: &str) -> (r: bool)
        ensures
            r == self.tracks(container_id@),
    {
        self.index_of(container_id).is_some()
    }

    /// The tracked leader pid of this container, if any.
    pub fn leader_pid(&self, container_id: &str) -> (r: Option<u32>)
        requires
            self.wf(),
        ensures
            match r {
                Some(p) => self.tracks(container_id@) && p == self.running@[self.track_idx(
                    container_id@,
                )].1,
                None => !self.tracks(container_id@),
            },
    {
        match self.index_of(container_id) {
            Some(i) => {
                proof {
                    assert(self.track_idx(container_id@) == i as int) by {
                        let j = self.track_idx(container_id@);
                        assert(self.running@[j].0@ == container_id@);
                        if j != i as int {
                            assert(self.running@[j].0@ == self.running@[i as int].0@);
                        }
                    }
                }
                Some(self.running[i].1)
            },
            None => None,
        }
    }

    /// The nsenter argv for a one-shot command inside the container:
    /// target the tracked leader's namespaces when there is one, then
    /// chroot and run.
    pub fn exec_command_args(&self, container: &Container, command: &Vec<String>) -> (r: Vec<
        String,
    >)
        requires
            self.wf(),
        ensures
            r@.map_values(|a: String| a@) == spec_exec_args(
                if self.tracks(container.id@) {
                    Some(self.running@[self.track_idx(container.id@)].1)
                } else {
                    None
                },
                container.root_path@,
                command.deep_view(),
            ),
    {
        let mut args: Vec<String> = Vec::new();
        let pid = self.leader_pid(container.id.as_str());
        if let Some(p) = pid {
            args.push("--target".to_owned());
            args.push(u64_to_string(p as u64));
            args.push("--pid".to_owned());
            args.push("--net".to_owned());
            args.push("--mount".to_owned());
            args.push("--uts".to_owned());
            args.push("--ipc".to_owned());
        }
        args.push("chroot".to_owned());
        args.push(container.root_path.clone());
        proof {
            assert(args@.map_values(|a: String| a@) =~= (match (if self.tracks(container.id@) {
                Some(self.running@[self.track_idx(container.id@)].1)
            } else {
                None
            }) {
                Some(p) => seq![
                    "--target"@,
                    dec_seq(p as nat),
                    "--pid"@,
                    "--net"@,
                    "--mount"@,
                    "--uts"@,
                    "--ipc"@,
                ],
                None => Seq::<Seq<char>>::empty(),
            }) + seq!["chroot"@, container.root_path@]);
        }
        push_all(&mut args, command);
        proof {
            assert(args@.map_values(|a: String| a@) =~= spec_exec_args(
                if self.tracks(container.id@) {
                    Some(self.running@[self.track_idx(container.id@)].1)
                } else {
                    None
                },
                container.root_path@,
                command.deep_view(),
            ));
        }
        args
    }

    /// The ids of every container with a tracked leader, in table order.
    pub fn get_running_containers(&self) -> (r: Vec<String>)
        ensures
            r@.len() == self.running@.len(),
            forall|i: int| 0 <= i < r@.len() ==> r@[i]@ == self.running@[i].0@,
    {
        let n = self.running.len();
        let mut r: Vec<String> = Vec::new();
        let mut i: usize = 0;
        while i < n
            invariant
                n == self.running@.len(),
                i <= n,
                r@.len() == i,
                forall|k: int| 0 <= k < i ==> r@[k]@ == self.running@[k].0@,
            decreases n - i,
        {
            r.push(self.running[i].0.clone());
            i += 1;
        }
        r
    }

    /// Kills every tracked leader outright and forgets them all; the
    /// pids the kill signal went to are handed back, in table order.
    pub fn cleanup_all(&mut self) -> (r: Result<Vec<u32>, TurbineError>)
        requires
            old(self).wf(),
        ensures
            r matches Ok(pids) && (pids@.len() == old(self).running@.len() && (forall|i: int|
                0 <= i < pids@.len() ==> pids@[i] == old(self).running@[i].1)),
            final(self).running@.len() == 0,
            final(self).wf(),
    {
        let n = self.running.len();
        let mut pids: Vec<u32> = Vec::new();
        let mut i: usize = 0;
        while i < n
            invariant
                n == self.running@.len(),
                i <= n,
                self.wf(),
                *self == *old(self),
                pids@.len() == i,
                forall|k: int| 0 <= k < i ==> pids@[k] == self.running@[k].1,
            decreases n - i,
        {
            let pid = self.running[i].1;
            let _accepted = sys::send_signal(pid, &SignalKind::Kill);
            pids.push(pid);
            i += 1;
        }
        self.running.clear();
        Ok(pids)
    }
}

} // verus!
