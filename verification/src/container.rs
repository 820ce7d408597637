use vstd::prelude::*;
use vstd::string::*;
use crate::config::ConfigView;
use crate::config::ContainerConfig;
use crate::errors::TurbineError;
use crate::sys;
use crate::textutil::str_eq;

verus! {

/// The lifecycle state of a container.
#[derive(Debug)]
pub enum ContainerState {
    Created,
    Running,
    Stopped,
    Paused,
    Error(String),
}

/// The mathematical value of a `ContainerState`.
#[verifier::ext_equal]
pub enum StateView {
    Created,
    Running,
    Stopped,
    Paused,
    Error(Seq<char>),
}

impl DeepView for ContainerState {
    type V = StateView;

    open spec fn deep_view(&self) -> StateView {
        match self {
            ContainerState::Created => StateView::Created,
            ContainerState::Running => StateView::Running,
            ContainerState::Stopped => StateView::Stopped,
            ContainerState::Paused => StateView::Paused,
            ContainerState::Error(m) => StateView::Error(m@),
        }
    }
}

impl Clone for ContainerState {
    fn clone(&self) -> (r: Self)
        ensures
            r.deep_view() == self.deep_view(),
    {
        match self {
            ContainerState::Created => ContainerState::Created,
            ContainerState::Running => ContainerState::Running,
            ContainerState::Stopped => ContainerState::Stopped,
            ContainerState::Paused => ContainerState::Paused,
            ContainerState::Error(m) => ContainerState::Error(m.clone()),
        }
    }
}

/// The runtime record of one container.
#[derive(Debug)]
pub struct Container {
    pub id: String,
    pub config: ContainerConfig,
    pub state: ContainerState,
    pub pid: Option<u32>,
    pub root_path: String,
    pub created_at: i64,
    pub started_at: Option<i64>,
    pub stopped_at: Option<i64>,
}

/// The mathematical value of a `Container`.
#[verifier::ext_equal]
pub struct ContainerView {
    pub id: Seq<char>,
    pub config: ConfigView,
    pub state: StateView,
    pub pid: Option<u32>,
    pub root_path: Seq<char>,
    pub created_at: i64,
    pub started_at: Option<i64>,
    pub stopped_at: Option<i64>,
}

impl DeepView for Container {
    type V = ContainerView;

    open spec fn deep_view(&self) -> ContainerView {
        ContainerView {
            id: self.id@,
            config: self.config.deep_view(),
            state: self.state.deep_view(),
            pid: self.pid,
            root_path: self.root_path@,
            created_at: self.created_at,
            started_at: self.started_at,
            stopped_at: self.stopped_at,
        }
    }
}

impl Clone for Container {
    fn clone(&self) -> (r: Self)
        ensures
            r.deep_view() == self.deep_view(),
    {
        let r = Container {
            id: self.id.clone(),
            config: self.config.clone(),
            state: self.state.clone(),
            pid: self.pid,
            root_path: self.root_path.clone(),
            created_at: self.created_at,
            started_at: self.started_at,
            stopped_at: self.stopped_at,
        };
        proof {
            assert(r.deep_view() =~= self.deep_view());
        }
        r
    }
}

/// The leader pid is recorded exactly while the container is running or
/// paused.
pub open spec fn pid_state_consistent(c: Container) -> bool {
    c.pid is Some <==> (c.state matches ContainerState::Running || c.state
        matches ContainerState::Paused)
}

impl Container {
    /// Builds a fresh record: a random 36-character id, state Created, no
    /// leader pid, and the current time as the creation stamp. The root
    /// path starts under the default base `/tmp/turbine/`; the
    /// orchestrator re-roots it under its own base path.
    pub fn new(config: ContainerConfig) -> (r: Result<Container, TurbineError>)
        ensures
            r matches Ok(c) && (c.config == config && (c.state matches ContainerState::Created)
                && c.pid is None && c.id@.len() == 36 && c.root_path@ == "/tmp/turbine/"@ + c.id@
                && c.started_at is None && c.stopped_at is None),
    {
        let id = sys::fresh_container_id();
        let mut root_path = "/tmp/turbine/".to_owned();
        root_path.append(id.as_str());
        Ok(
            Container {
                id,
                config,
                state: ContainerState::Created,
                pid: None,
                root_path,
                created_at: sys::now_millis(),
                started_at: None,
                stopped_at: None,
            },
        )
    }

    /// Whether the container is in the Running state.
    pub fn is_running(&self) -> (r: bool)
        ensures
            r == (self.state matches ContainerState::Running),
    {
        matches!(self.state, ContainerState::Running)
    }

    /// Whether the container is in the Stopped state.
    pub fn is_stopped(&self) -> (r: bool)
        ensures
            r == (self.state matches ContainerState::Stopped),
    {
        matches!(self.state, ContainerState::Stopped)
    }

    /// Moves the record to `state`. Entering Running stamps `started_at`
    /// and clears `stopped_at`; entering Stopped stamps `stopped_at` and
    /// clears the leader pid; other states touch nothing else.
    pub fn set_state(&mut self, state: ContainerState)
        ensures
            final(self).state == state,
            state matches ContainerState::Running ==> final(self).started_at is Some
                && final(self).stopped_at is None
                && final(self).pid == old(self).pid,
            state matches ContainerState::Stopped ==> final(self).stopped_at is Some
                && final(self).pid is None
                && final(self).started_at == old(self).started_at,
            !(state matches ContainerState::Running) && !(state
                matches ContainerState::Stopped) ==> final(self).pid == old(self).pid
                && final(self).started_at == old(self).started_at
                && final(self).stopped_at == old(self).stopped_at,
            final(self).id == old(self).id,
            final(self).config == old(self).config,
            final(self).root_path == old(self).root_path,
            final(self).created_at == old(self).created_at,
    {
        match state {
            ContainerState::Running => {
                self.started_at = Some(sys::now_millis());
                self.stopped_at = None;
            },
            ContainerState::Stopped => {
                self.stopped_at = Some(sys::now_millis());
                self.pid = None;
            },
            _ => {},
        }
        self.state = state;
    }

    /// Records the leader pid.
    pub fn set_pid(&mut self, pid: u32)
        ensures
            *final(self) == (Container { pid: Some(pid), ..*old(self) }),
    {
        self.pid = Some(pid);
    }

    /// The configured user name, if any.
    pub fn get_user(&self) -> (r: Option<&String>)
        ensures
            (r is Some) == (self.config.user is Some),
            r matches Some(u) ==> self.config.user matches Some(w) && *u == w,
    {
        self.config.user.as_ref()
    }

    /// The configured uid, if any.
    pub fn get_uid(&self) -> (r: Option<u32>)
        ensures
            r == self.config.uid,
    {
        self.config.uid
    }

    /// The configured gid, if any.
    pub fn get_gid(&self) -> (r: Option<u32>)
        ensures
            r == self.config.gid,
    {
        self.config.gid
    }

    /// The configured supplementary groups, if any.
    pub fn get_groups(&self) -> (r: Option<&Vec<u32>>)
        ensures
            (r is Some) == (self.config.groups is Some),
            r matches Some(g) ==> self.config.groups matches Some(w) && *g == w,
    {
        self.config.groups.as_ref()
    }
}

/// The keyed store of container records. Ids are unique; the name is only
/// a soft secondary index.
pub struct ContainerRegistry {
    containers: Vec<Container>,
}

impl View for ContainerRegistry {
    type V = Seq<Container>;

    closed spec fn view(&self) -> Seq<Container> {
        self.containers@
    }
}

impl ContainerRegistry {
    /// No two records share an id.
    pub open spec fn wf(&self) -> bool {
        forall|i: int, j: int|
            0 <= i < j < self@.len() ==> self@[i].id@ != self@[j].id@
    }

    /// Some record carries this id.
    pub open spec fn contains_id(&self, id: Seq<char>) -> bool {
        exists|i: int| 0 <= i < self@.len() && self@[i].id@ == id
    }

    /// The position of the record with this id.
    pub open spec fn idx_of(&self, id: Seq<char>) -> int {
        choose|i: int| 0 <= i < self@.len() && self@[i].id@ == id
    }

    /// An empty registry.
    pub fn new() -> (r: Self)
        ensures
            r@.len() == 0,
            r.wf(),
    {
        ContainerRegistry { containers: Vec::new() }
    }

    fn index_of(&self, id: &str) -> (r: Option<usize>)
        ensures
            match r {
                Some(i) => i < self@.len() && self@[i as int].id@ == id@ && self.contains_id(id@),
                None => !self.contains_id(id@),
            },
    {
        let n = self.containers.len();
        let mut i: usize = 0;
        while i < n
            invariant
                n == self@.len(),
                i <= n,
                forall|k: int| 0 <= k < i ==> self@[k].id@ != id@,
            decreases n - i,
        {
            if str_eq(self.containers[i].id.as_str(), id) {
                return Some(i);
            }
            i += 1;
        }
        None
    }

    /// Adds a record under its id; a second record with an id already
    /// present is refused.
    pub fn register(&mut self, container: Container) -> (r: Result<(), TurbineError>)
        ensures
            !old(self).contains_id(container.id@) ==> r.is_ok() && final(self)@ == old(self)@.push(container),
            old(self).contains_id(container.id@) ==> (r matches Err(TurbineError::ContainerError(
                m,
            )) && m@ == "Container id is already registered"@) && final(self)@ == old(self)@,
            old(self).wf() ==> final(self).wf(),
    {
        let dup = self.index_of(container.id.as_str());
        if dup.is_some() {
            return Err(
                TurbineError::ContainerError("Container id is already registered".to_owned()),
            );
        }
        proof {
            crate::textutil::lemma_contains_push(self@, container);
        }
        self.containers.push(container);
        proof {
            if old(self).wf() {
                assert(forall|k: int| 0 <= k < old(self)@.len() ==> self@[k] == old(self)@[k]);
            }
        }
        Ok(())
    }

    /// The record with this id, if present.
    pub fn get(&self, id: &str) -> (r: Option<&Container>)
        ensures
            match r {
                Some(c) => self.contains_id(id@) && c.id@ == id@ && exists|i: int|
                    0 <= i < self@.len() && self@[i] == *c,
                None => !self.contains_id(id@),
            },
    {
        match self.index_of(id) {
            Some(i) => Some(&self.containers[i]),
            None => None,
        }
    }

    /// A mutable borrow of the record with this id, if present. The final
    /// registry holds whatever the caller leaves behind the borrow.
    pub fn get_mut(&mut self, id: &str) -> (r: Option<&mut Container>)
        requires
            old(self).wf(),
        ensures
            match r {
                Some(c) => {
                    &&& old(self).contains_id(id@)
                    &&& *c == old(self)@[old(self).idx_of(id@)]
                    &&& c.id@ == id@
                    &&& final(self)@ == old(self)@.update(old(self).idx_of(id@), *final(c))
                },
                None => !old(self).contains_id(id@) && final(self)@ == old(self)@,
            },
    {
        match self.index_of(id) {
            Some(i) => {
                proof {
                    assert(old(self)@[old(self).idx_of(id@)].id@ == id@);
                    assert(old(self).idx_of(id@) == i as int) by {
                        let j = old(self).idx_of(id@);
                        if j != i as int {
                            assert(old(self)@[j].id@ == old(self)@[i as int].id@);
                        }
                    }
                }
                Some(&mut self.containers[i])
            },
            None => None,
        }
    }

    /// Removes and returns the record with this id, if present.
    pub fn remove(&mut self, id: &str) -> (r: Option<Container>)
        requires
            old(self).wf(),
        ensures
            match r {
                Some(c) => {
                    &&& old(self).contains_id(id@)
                    &&& c == old(self)@[old(self).idx_of(id@)]
                    &&& final(self)@ == old(self)@.remove(old(self).idx_of(id@))
                },
                None => !old(self).contains_id(id@) && final(self)@ == old(self)@,
            },
            final(self).wf(),
            !final(self).contains_id(id@),
    {
        let r = match self.index_of(id) {
            Some(i) => {
                proof {
                    assert(old(self).idx_of(id@) == i as int) by {
                        assert(old(self)@[old(self).idx_of(id@)].id@ == id@);
                        let j = old(self).idx_of(id@);
                        if j != i as int {
                            assert(old(self)@[j].id@ == old(self)@[i as int].id@);
                        }
                    }
                }
                Some(self.containers.remove(i))
            },
            None => None,
        };
        proof {
            if old(self).contains_id(id@) {
                let i = old(self).idx_of(id@);
                assert(forall|k: int|
                    0 <= k < self@.len() ==> self@[k] == (if k < i {
                        old(self)@[k]
                    } else {
                        old(self)@[k + 1]
                    }));
                assert(final(self).wf() == self.wf());
                assert(!self.contains_id(id@)) by {
                    if exists|k: int| 0 <= k < self@.len() && self@[k].id@ == id@ {
                        let k = choose|k: int| 0 <= k < self@.len() && self@[k].id@ == id@;
                        if k < i {
                            assert(old(self)@[k].id@ == old(self)@[i].id@);
                        } else {
                            assert(old(self)@[k + 1].id@ == old(self)@[i].id@);
                        }
                    }
                }
            }
        }
        r
    }

    /// Borrows of every record, in registry order.
    pub fn list(&self) -> (r: Vec<&Container>)
        ensures
            r@.len() == self@.len(),
            forall|i: int| 0 <= i < r@.len() ==> *r@[i] == self@[i],
    {
        let n = self.containers.len();
        let mut r: Vec<&Container> = Vec::new();
        let mut i: usize = 0;
        while i < n
            invariant
                n == self@.len(),
                i <= n,
                r@.len() == i,
                forall|k: int| 0 <= k < i ==> *r@[k] == self@[k],
            decreases n - i,
        {
            r.push(&self.containers[i]);
            i += 1;
        }
        r
    }

    /// The first record whose config carries this name, if any.
    pub fn find_by_name(&self, name: &str) -> (r: Option<&Container>)
        ensures
            match r {
                Some(c) => c.config.name@ == name@ && exists|i: int|
                    0 <= i < self@.len() && self@[i] == *c,
                None => forall|i: int| 0 <= i < self@.len() ==> self@[i].config.name@ != name@,
            },
    {
        let n = self.containers.len();
        let mut i: usize = 0;
        while i < n
            invariant
                n == self@.len(),
                i <= n,
                forall|k: int| 0 <= k < i ==> self@[k].config.name@ != name@,
            decreases n - i,
        {
            if str_eq(self.containers[i].config.name.as_str(), name) {
                return Some(&self.containers[i]);
            }
            i += 1;
        }
        None
    }

    /// The id of some record in the Running state, if any.
    pub fn first_running_id(&self) -> (r: Option<String>)
        requires
            self.wf(),
        ensures
            match r {
                Some(s) => self.contains_id(s@) && (self@[self.idx_of(s@)].state
                    matches ContainerState::Running),
                None => forall|i: int|
                    0 <= i < self@.len() ==> !((#[trigger] self@[i]).state
                        matches ContainerState::Running),
            },
    {
        let n = self.containers.len();
        let mut i: usize = 0;
        while i < n
            invariant
                n == self@.len(),
                self.wf(),
                i <= n,
                forall|k: int|
                    0 <= k < i ==> !((#[trigger] self@[k]).state matches ContainerState::Running),
            decreases n - i,
        {
            if self.containers[i].is_running() {
                let id = self.containers[i].id.clone();
                proof {
                    assert(self.contains_id(id@)) by {
                        assert(self@[i as int].id@ == id@);
                    }
                    assert(self.idx_of(id@) == i as int) by {
                        let j = self.idx_of(id@);
                        assert(self@[j].id@ == id@);
                        if j != i as int {
                            assert(self@[j].id@ == self@[i as int].id@);
                        }
                    }
                }
                return Some(id);
            }
            i += 1;
        }
        None
    }

    /// Borrows of the records in the Running state, in registry order.
    pub fn find_running(&self) -> (r: Vec<&Container>)
        ensures
            r@.map_values(|c: &Container| *c) == self@.filter(
                |c: Container| c.state matches ContainerState::Running,
            ),
    {
        let n = self.containers.len();
        let mut r: Vec<&Container> = Vec::new();
        let mut i: usize = 0;
        while i < n
            invariant
                n == self@.len(),
                i <= n,
                r@.map_values(|c: &Container| *c) == self@.subrange(0, i as int).filter(
                    |c: Container| c.state matches ContainerState::Running,
                ),
            decreases n - i,
        {
            proof {
                reveal(Seq::filter);
                assert(self@.subrange(0, i + 1).drop_last() =~= self@.subrange(0, i as int));
                assert(self@.subrange(0, i + 1).last() == self@[i as int]);
            }
            let is_run = self.containers[i].is_running();
            if is_run {
                r.push(&self.containers[i]);
            }
            assert(r@.map_values(|c: &Container| *c) =~= self@.subrange(0, i + 1).filter(
                |c: Container| c.state matches ContainerState::Running,
            ));
            i += 1;
        }
        assert(self@.subrange(0, n as int) =~= self@);
        r
    }
}

} // verus!
