//! Child lifecycle management for the supervisor.
//!
//! [`ChildLifecycle`] keeps the state of every child: which generation runs,
//! whether it is alive, whether it may still be cancelled, and what it last
//! reported. Spawning, cancelling and waiting are up to the caller, who tells
//! the lifecycle what happened.

use std::collections::HashMap;

use vstd::prelude::*;

use crate::agent::runner::ProgressState;
use crate::error::SupervisorError;
use crate::ids::AgentId;
use crate::name_map::NameMap;
use crate::sequences;
use crate::supervisor::child::ChildSpec;
use crate::supervisor::ChildExit;
use crate::text::join2;
use crate::time::Duration;
use crate::time::Instant;

verus! {

broadcast use vstd::std_specs::hash::group_hash_axioms;

/// Runtime state for a single child.
#[derive(Debug, Clone, Copy, PartialEq, Eq, Structural)]
pub struct ChildRecord {
    /// Stable logical ID for this child.
    pub id: AgentId,
    /// Current generation (0 = first start, 1 = first restart, ...).
    pub generation: u64,
    /// Whether the current generation has not been cancelled yet.
    pub cancellable: bool,
    /// What the current generation last reported, for hang detection.
    pub progress: Option<ProgressState>,
    /// Whether the child is currently running.
    pub alive: bool,
    /// Whether the child was detected as hung (affects restart decision).
    pub hung: bool,
}

impl ChildRecord {
    /// The record of a child that was just started for the first time.
    pub open spec fn started(id: AgentId, progress: ProgressState) -> ChildRecord {
        ChildRecord {
            id,
            generation: 0,
            cancellable: true,
            progress: Some(progress),
            alive: true,
            hung: false,
        }
    }

    /// The record after the child's task ended.
    pub open spec fn exited(self) -> ChildRecord {
        ChildRecord { cancellable: false, progress: None, alive: false, hung: false, ..self }
    }

    /// The record after the child was started anew.
    pub open spec fn restarted(self, progress: ProgressState) -> ChildRecord {
        ChildRecord {
            generation: (self.generation + 1) as u64,
            cancellable: true,
            progress: Some(progress),
            alive: true,
            ..self
        }
    }

    /// The record after the child was cancelled.
    pub open spec fn cancelled(self) -> ChildRecord {
        ChildRecord { cancellable: false, ..self }
    }
}

/// Information about a child exit.
#[derive(Debug)]
pub struct ChildExitInfo {
    /// Name of the child that exited.
    pub name: String,
    /// Generation at time of exit.
    pub generation: u64,
    /// Why the child exited.
    pub exit: ChildExit,
    /// Whether the child was marked as hung before exit.
    pub hung: bool,
}

/// Information about a hung child.
#[derive(Debug)]
pub struct HungChild {
    /// Name of the hung child.
    pub name: String,
    /// Generation of the hung child.
    pub generation: u64,
    /// How long since last progress.
    pub elapsed: Duration,
}

/// A child by name and identifier.
#[derive(Debug)]
pub struct ChildAddress {
    /// Name of the child.
    pub name: String,
    /// Its stable identifier.
    pub id: AgentId,
}

/// What is needed to start a dead child anew.
#[derive(Debug, Clone, Copy, PartialEq, Eq, Structural)]
pub struct RestartPlan {
    /// The child's stable identifier.
    pub id: AgentId,
    /// The generation that ended.
    pub old_gen: u64,
    /// The generation to start.
    pub new_gen: u64,
}

/// The exit of a task: what it returned, or the message of its panic.
pub fn normalize_exit(result: Result<ChildExit, String>) -> (r: ChildExit)
    ensures
        match result {
            Ok(exit) => r == exit,
            Err(panic) => r matches ChildExit::Failed(what) && what@ == "task panicked: "@ + panic@,
        },
{
    match result {
        Ok(exit) => exit,
        Err(panic) => ChildExit::Failed(join2("task panicked: ", panic.as_str())),
    }
}

/// What a [`ChildLifecycle`] knows.
#[verifier::ext_equal]
pub struct LifecycleView {
    /// The children by name.
    pub children: Map<Seq<char>, ChildRecord>,
    /// The names of the children in order of their first start.
    pub names: Seq<Seq<char>>,
    /// Which child each running task belongs to.
    pub tasks: Map<u64, Seq<char>>,
}

/// Whether a child is hung: it runs, it is busy, and longer than the timeout of
/// its specification has passed since it last reported progress.
pub open spec fn is_hung(
    children: Map<Seq<char>, ChildRecord>,
    specs: Map<Seq<char>, ChildSpec>,
    name: Seq<char>,
    now: Instant,
) -> bool {
    &&& children[name].alive
    &&& specs.dom().contains(name)
    &&& specs[name].hang_timeout matches Some(timeout)
    &&& children[name].progress matches Some(progress)
    &&& progress.busy
    &&& progress.last_progress.spec_older_than(timeout, now)
}

impl LifecycleView {
    /// The lifecycle with nothing in it.
    pub open spec fn empty() -> LifecycleView {
        LifecycleView { children: Map::empty(), names: Seq::empty(), tasks: Map::empty() }
    }

    /// The names are the children, each once.
    pub open spec fn consistent(self) -> bool {
        &&& self.names.no_duplicates()
        &&& forall|name: Seq<char>| #[trigger]
            self.names.contains(name) <==> self.children.dom().contains(name)
        &&& forall|i: int|
            0 <= i < self.names.len() ==> self.children.dom().contains(#[trigger] self.names[i])
    }

    /// After the first start of `name` as `task`.
    pub open spec fn started(
        self,
        name: Seq<char>,
        id: AgentId,
        task: u64,
        progress: ProgressState,
    ) -> LifecycleView {
        LifecycleView {
            children: self.children.insert(name, ChildRecord::started(id, progress)),
            names: if self.children.dom().contains(name) {
                self.names
            } else {
                self.names.push(name)
            },
            tasks: self.tasks.insert(task, name),
        }
    }

    /// The child that `task` belongs to, if it is known.
    pub open spec fn owner(self, task: u64) -> Option<Seq<char>> {
        if self.tasks.dom().contains(task) && self.children.dom().contains(self.tasks[task]) {
            Some(self.tasks[task])
        } else {
            None
        }
    }

    /// After the end of `task`.
    pub open spec fn exited(self, task: u64) -> LifecycleView {
        LifecycleView {
            tasks: self.tasks.remove(task),
            children: match self.owner(task) {
                Some(name) => self.children.insert(name, self.children[name].exited()),
                None => self.children,
            },
            ..self
        }
    }

    /// After the restart of `name` as `task`.
    pub open spec fn restarted(
        self,
        name: Seq<char>,
        task: u64,
        progress: ProgressState,
    ) -> LifecycleView {
        LifecycleView {
            children: self.children.insert(name, self.children[name].restarted(progress)),
            tasks: self.tasks.insert(task, name),
            ..self
        }
    }

    /// After `name` was cancelled.
    pub open spec fn stopped(self, name: Seq<char>) -> LifecycleView {
        LifecycleView {
            children: if self.children.dom().contains(name) {
                self.children.insert(name, self.children[name].cancelled())
            } else {
                self.children
            },
            ..self
        }
    }

    /// After `name` was cancelled and marked as hung.
    pub open spec fn cancelled(self, name: Seq<char>) -> LifecycleView {
        LifecycleView {
            children: if self.children.dom().contains(name) {
                self.children.insert(
                    name,
                    ChildRecord { hung: true, ..self.children[name].cancelled() },
                )
            } else {
                self.children
            },
            ..self
        }
    }

    /// After all children but `exclude` were cancelled.
    pub open spec fn all_cancelled(self, exclude: Option<Seq<char>>) -> LifecycleView {
        LifecycleView {
            children: self.children.map_entries(
                |name: Seq<char>, child: ChildRecord|
                    if exclude == Some(name) {
                        child
                    } else {
                        child.cancelled()
                    },
            ),
            ..self
        }
    }

    /// The children other than `exclude` that can still be cancelled.
    pub open spec fn cancellable(self, exclude: Option<Seq<char>>) -> Seq<Seq<char>> {
        self.names.filter(
            |name: Seq<char>| self.children[name].cancellable && exclude != Some(name),
        )
    }

    /// Picks the children that run, other than `exclude`.
    pub open spec fn runs_beside(self, exclude: Seq<char>) -> spec_fn(Seq<char>) -> bool {
        |name: Seq<char>| self.children[name].alive && name != exclude
    }

    /// The children that run, other than `exclude`.
    pub open spec fn alive_except(self, exclude: Seq<char>) -> Seq<Seq<char>> {
        self.names.filter(self.runs_beside(exclude))
    }

    /// The children that are hung at `now`.
    pub open spec fn hung_at(self, specs: Map<Seq<char>, ChildSpec>, now: Instant) -> Seq<
        Seq<char>,
    > {
        self.names.filter(|name: Seq<char>| is_hung(self.children, specs, name, now))
    }
}

/// Manages child lifecycle: starts, exits, hang detection.
pub struct ChildLifecycle {
    children: NameMap<ChildRecord>,
    tasks: HashMap<u64, String>,
}

impl View for ChildLifecycle {
    type V = LifecycleView;

    closed spec fn view(&self) -> LifecycleView {
        LifecycleView {
            children: self.children@,
            names: self.children.names(),
            tasks: self.tasks@.map_values(|name: String| name@),
        }
    }
}

impl ChildLifecycle {
    /// Every child has one record.
    pub closed spec fn wf(&self) -> bool {
        self.children.wf()
    }

    /// The names are the children, each once.
    pub proof fn lemma_consistent(&self)
        requires
            self.wf(),
        ensures
            self@.consistent(),
    {
        self.children.lemma_names();
    }

    /// Creates a lifecycle without children.
    pub fn new() -> (r: Self)
        ensures
            r.wf(),
            r@ == LifecycleView::empty(),
    {
        let r = ChildLifecycle { children: NameMap::new(), tasks: HashMap::new() };
        assert(r@.tasks =~= Map::empty());
        r
    }

    /// Records that a child was started as `task`. A child of the same name is
    /// replaced.
    pub fn record_start(&mut self, name: &str, id: AgentId, task: u64, progress: ProgressState)
        requires
            old(self).wf(),
        ensures
            final(self).wf(),
            final(self)@ == old(self)@.started(name@, id, task, progress),
    {
        self.tasks.insert(task, name.to_owned());
        self.children.insert(
            name.to_owned(),
            ChildRecord {
                id,
                generation: 0,
                cancellable: true,
                progress: Some(progress),
                alive: true,
                hung: false,
            },
        );
        assert(self@.tasks =~= old(self)@.tasks.insert(task, name@));
    }

    /// Records that `task` ended, and says which child that was.
    pub fn process_exit(&mut self, task: u64, exit: ChildExit) -> (r: Option<ChildExitInfo>)
        requires
            old(self).wf(),
        ensures
            final(self).wf(),
            final(self)@ == old(self)@.exited(task),
            match r {
                Some(info) => {
                    &&& old(self)@.owner(task) == Some(info.name@)
                    &&& info.generation == old(self)@.children[info.name@].generation
                    &&& info.exit == exit
                    &&& info.hung == old(self)@.children[info.name@].hung
                },
                None => old(self)@.owner(task) is None,
            },
    {
        let removed = self.tasks.remove(&task);
        assert(self@.tasks =~= old(self)@.tasks.remove(task));
        match removed {
            None => None,
            Some(name) => {
                match self.children.get_mut(name.as_str()) {
                    None => None,
                    Some(child) => {
                        let generation = child.generation;
                        let hung = child.hung;
                        child.alive = false;
                        child.cancellable = false;
                        child.progress = None;
                        child.hung = false;
                        Some(ChildExitInfo { name, generation, exit, hung })
                    },
                }
            },
        }
    }

    /// Takes over what a running child reports of its progress.
    pub fn observe(&mut self, name: &str, progress: ProgressState)
        requires
            old(self).wf(),
        ensures
            final(self).wf(),
            final(self)@ == (LifecycleView {
                children: if old(self)@.children.dom().contains(name@)
                    && old(self)@.children[name@].progress is Some {
                    old(self)@.children.insert(
                        name@,
                        ChildRecord {
                            progress: Some(progress),
                            ..old(self)@.children[name@]
                        },
                    )
                } else {
                    old(self)@.children
                },
                ..old(self)@
            }),
    {
        let ghost before = self.children@;
        match self.children.get_mut(name) {
            None => {},
            Some(child) => {
                if child.progress.is_some() {
                    child.progress = Some(progress);
                } else {
                    assert(before.insert(name@, *child) =~= before);
                }
            },
        }
    }

    /// Checks all alive children for hang condition.
    ///
    /// Returns the hung children. Caller decides how to handle
    /// (emit event, cancel, etc.).
    pub fn check_hangs(&self, specs: &NameMap<ChildSpec>, now: Instant) -> (r: Vec<HungChild>)
        requires
            self.wf(),
            specs.wf(),
        ensures
            r@.len() == self@.hung_at(specs@, now).len(),
            forall|i: int|
                0 <= i < r@.len() ==> {
                    let name = self@.hung_at(specs@, now)[i];
                    &&& (#[trigger] r@[i]).name@ == name
                    &&& r@[i].generation == self@.children[name].generation
                    &&& self@.children[name].progress matches Some(progress)
                    &&& r@[i].elapsed.nanos == now.nanos - progress.last_progress.nanos
                },
    {
        let ghost names = self@.names;
        let ghost keep = |name: Seq<char>| is_hung(self@.children, specs@, name, now);
        let mut hung: Vec<HungChild> = Vec::new();
        let mut i: usize = 0;
        proof {
            sequences::lemma_filter_ends(names, keep);
        }
        while i < self.children.len()
            invariant
                self.wf(),
                specs.wf(),
                names == self@.names,
                i <= names.len(),
                keep == (|name: Seq<char>| is_hung(self@.children, specs@, name, now)),
                hung@.len() == names.take(i as int).filter(keep).len(),
                forall|j: int|
                    0 <= j < hung@.len() ==> {
                        let name = names.take(i as int).filter(keep)[j];
                        &&& (#[trigger] hung@[j]).name@ == name
                        &&& hung@[j].generation == self@.children[name].generation
                        &&& self@.children[name].progress matches Some(progress)
                        &&& hung@[j].elapsed.nanos == now.nanos - progress.last_progress.nanos
                    },
            decreases names.len() - i,
        {
            let name = self.children.name_at(i);
            let child = self.children.value_at(i);
            proof {
                sequences::lemma_filter_step(names, i as int, keep);
            }
            if child.alive {
                match specs.get(name.as_str()) {
                    None => {},
                    Some(spec) => {
                        match (spec.hang_timeout, child.progress) {
                            (Some(timeout), Some(progress)) => {
                                if progress.busy && progress.last_progress.older_than(
                                    timeout,
                                    now,
                                ) {
                                    hung.push(
                                        HungChild {
                                            name: name.clone(),
                                            generation: child.generation,
                                            elapsed: progress.last_progress.elapsed(now),
                                        },
                                    );
                                }
                            },
                            _ => {},
                        }
                    },
                }
            }
            i += 1;
        }
        proof {
            sequences::lemma_filter_ends(names, keep);
        }
        hung
    }

    /// Marks a child as cancelled. Returns whether its current generation has yet
    /// to be told to stop.
    pub fn stop_child(&mut self, name: &str) -> (r: bool)
        requires
            old(self).wf(),
        ensures
            final(self).wf(),
            final(self)@ == old(self)@.stopped(name@),
            r == (old(self)@.children.dom().contains(name@)
                && old(self)@.children[name@].cancellable),
    {
        match self.children.get_mut(name) {
            None => false,
            Some(child) => {
                let cancellable = child.cancellable;
                child.cancellable = false;
                cancellable
            },
        }
    }

    /// Marks a child as cancelled and as hung. Returns whether its current
    /// generation has yet to be told to stop.
    pub fn cancel_child(&mut self, name: &str) -> (r: bool)
        requires
            old(self).wf(),
        ensures
            final(self).wf(),
            final(self)@ == old(self)@.cancelled(name@),
            r == (old(self)@.children.dom().contains(name@)
                && old(self)@.children[name@].cancellable),
    {
        match self.children.get_mut(name) {
            None => false,
            Some(child) => {
                let cancellable = child.cancellable;
                child.cancellable = false;
                child.hung = true;
                cancellable
            },
        }
    }

    /// What is needed to start a dead child with a new generation.
    ///
    /// Fails if the child is unknown or still alive.
    pub fn plan_restart(&self, name: &str) -> (r: Result<RestartPlan, SupervisorError>)
        requires
            self.wf(),
            self@.children.dom().contains(name@) && !self@.children[name@].alive
                ==> self@.children[name@].generation < u64::MAX,
        ensures
            match r {
                Ok(plan) => {
                    &&& self@.children.dom().contains(name@)
                    &&& !self@.children[name@].alive
                    &&& plan.id == self@.children[name@].id
                    &&& plan.old_gen == self@.children[name@].generation
                    &&& plan.new_gen == self@.children[name@].generation + 1
                },
                Err(SupervisorError::ChildNotFound(what)) => what@ == name@
                    && !self@.children.dom().contains(name@),
                Err(SupervisorError::SpawnFailed(what)) => what@
                    == "cannot restart: child is still alive"@ && self@.children.dom().contains(
                    name@,
                ) && self@.children[name@].alive,
                Err(_) => false,
            },
    {
        match self.children.get(name) {
            None => Err(SupervisorError::ChildNotFound(name.to_owned())),
            Some(child) => {
                if child.alive {
                    Err(
                        SupervisorError::SpawnFailed(
                            "cannot restart: child is still alive".to_owned(),
                        ),
                    )
                } else {
                    Ok(
                        RestartPlan {
                            id: child.id,
                            old_gen: child.generation,
                            new_gen: child.generation + 1,
                        },
                    )
                }
            },
        }
    }

    /// Records that a dead child was started anew as `task`, and returns its
    /// new generation.
    pub fn record_restart(&mut self, name: &str, task: u64, progress: ProgressState) -> (r: u64)
        requires
            old(self).wf(),
            old(self)@.children.dom().contains(name@),
            old(self)@.children[name@].generation < u64::MAX,
        ensures
            final(self).wf(),
            final(self)@ == old(self)@.restarted(name@, task, progress),
            r == old(self)@.children[name@].generation + 1,
    {
        self.tasks.insert(task, name.to_owned());
        assert(self@.tasks =~= old(self)@.tasks.insert(task, name@));
        match self.children.get_mut(name) {
            None => 0,
            Some(child) => {
                child.generation = child.generation + 1;
                child.progress = Some(progress);
                child.cancellable = true;
                child.alive = true;
                child.generation
            },
        }
    }

    /// The stable address of a named child, dead or alive.
    pub fn get_handle(&self, name: &str) -> (r: Option<ChildAddress>)
        requires
            self.wf(),
        ensures
            match r {
                Some(address) => self@.children.dom().contains(name@) && address.name@ == name@
                    && address.id == self@.children[name@].id,
                None => !self@.children.dom().contains(name@),
            },
    {
        match self.children.get(name) {
            None => None,
            Some(child) => Some(ChildAddress { name: name.to_owned(), id: child.id }),
        }
    }

    /// The addresses of all alive children except `exclude`.
    pub fn peers_excluding(&self, exclude: &str) -> (r: Vec<ChildAddress>)
        requires
            self.wf(),
        ensures
            r@.len() == self@.alive_except(exclude@).len(),
            forall|i: int|
                0 <= i < r@.len() ==> {
                    &&& (#[trigger] r@[i]).name@ == self@.alive_except(exclude@)[i]
                    &&& r@[i].id == self@.children[r@[i].name@].id
                },
    {
        let ghost names = self@.names;
        let ghost keep = self@.runs_beside(exclude@);
        let excluded = exclude.to_owned();
        let mut peers: Vec<ChildAddress> = Vec::new();
        let mut i: usize = 0;
        proof {
            sequences::lemma_filter_ends(names, keep);
        }
        while i < self.children.len()
            invariant
                self.wf(),
                names == self@.names,
                i <= names.len(),
                excluded@ == exclude@,
                keep == self@.runs_beside(exclude@),
                peers@.len() == names.take(i as int).filter(keep).len(),
                forall|j: int|
                    0 <= j < peers@.len() ==> {
                        &&& (#[trigger] peers@[j]).name@ == names.take(i as int).filter(keep)[j]
                        &&& peers@[j].id == self@.children[peers@[j].name@].id
                    },
            decreases names.len() - i,
        {
            let name = self.children.name_at(i);
            let child = self.children.value_at(i);
            proof {
                sequences::lemma_filter_step(names, i as int, keep);
            }
            if child.alive && *name != excluded {
                peers.push(ChildAddress { name: name.clone(), id: child.id });
            }
            i += 1;
        }
        proof {
            sequences::lemma_filter_ends(names, keep);
        }
        peers
    }

    fn cancel_where(&mut self, exclude: Option<String>) -> (r: Vec<String>)
        requires
            old(self).wf(),
        ensures
            final(self).wf(),
            ({
                let excluded = sequences::text_of(exclude);
                &&& final(self)@ == old(self)@.all_cancelled(excluded)
                &&& sequences::texts(r@) == old(self)@.cancellable(excluded)
            }),
    {
        let ghost before = *self;
        let ghost names = self@.names;
        let ghost excluded = sequences::text_of(exclude);
        let ghost goal = before@.all_cancelled(excluded);
        let ghost keep = |name: Seq<char>|
            before@.children[name].cancellable && excluded != Some(name);
        let mut cancelled: Vec<String> = Vec::new();
        let count = self.children.len();
        let mut i: usize = 0;
        proof {
            self.children.lemma_names();
            sequences::lemma_filter_ends(names, keep);
            assert(sequences::texts(cancelled@) =~= Seq::<Seq<char>>::empty());
        }
        while i < count
            invariant
                i <= count,
                count == names.len(),
                names == before@.names,
                names == self.children.names(),
                names.no_duplicates(),
                self.wf(),
                self.tasks == before.tasks,
                goal == before@.all_cancelled(excluded),
                excluded == sequences::text_of(exclude),
                keep == (|name: Seq<char>|
                    before@.children[name].cancellable && excluded != Some(name)),
                self.children@.dom() == before@.children.dom(),
                forall|j: int|
                    0 <= j < count ==> before@.children.dom().contains(#[trigger] names[j]),
                forall|j: int|
                    0 <= j < i ==> self.children@[#[trigger] names[j]] == goal.children[names[j]],
                forall|j: int|
                    i <= j < count ==> self.children@[#[trigger] names[j]]
                        == before@.children[names[j]],
                sequences::texts(cancelled@) == names.take(i as int).filter(keep),
            decreases count - i,
        {
            let ghost name = names[i as int];
            let this = self.children.name_at(i).clone();
            proof {
                sequences::lemma_filter_step(names, i as int, keep);
            }
            let spared = match &exclude {
                Some(other) => *other == this,
                None => false,
            };
            let child = self.children.value_at_mut(i);
            if !spared {
                if child.cancellable {
                    proof {
                        sequences::lemma_texts_push(cancelled@, this);
                    }
                    cancelled.push(this);
                }
                child.cancellable = false;
            }
            assert(self.children@[name] == goal.children[name]);
            i += 1;
        }
        proof {
            sequences::lemma_filter_ends(names, keep);
            before.children.lemma_names();
            assert forall|name: Seq<char>| self@.children.dom().contains(
                name,
            ) implies self@.children[name] == goal.children[name] by {
                assert(names.contains(name));
                let j = names.index_of(name);
                assert(names[j] == name);
            }
            assert(self@.children =~= goal.children);
        }
        cancelled
    }

    /// Marks all children as cancelled. Returns the names of those that have
    /// yet to be told to stop.
    pub fn cancel_all(&mut self) -> (r: Vec<String>)
        requires
            old(self).wf(),
        ensures
            final(self).wf(),
            final(self)@ == old(self)@.all_cancelled(None),
            sequences::texts(r@) == old(self)@.cancellable(None),
    {
        self.cancel_where(None)
    }

    /// Marks all children except the specified one as cancelled. Returns the
    /// names of those that have yet to be told to stop.
    pub fn cancel_all_except(&mut self, exclude: &str) -> (r: Vec<String>)
        requires
            old(self).wf(),
        ensures
            final(self).wf(),
            final(self)@ == old(self)@.all_cancelled(Some(exclude@)),
            sequences::texts(r@) == old(self)@.cancellable(Some(exclude@)),
    {
        self.cancel_where(Some(exclude.to_owned()))
    }

    /// Forgets all tasks, once every one of them has ended.
    pub fn clear_tasks(&mut self)
        requires
            old(self).wf(),
        ensures
            final(self).wf(),
            final(self)@ == (LifecycleView { tasks: Map::empty(), ..old(self)@ }),
    {
        self.tasks.clear();
        assert(self@.tasks =~= Map::empty());
    }

    /// The record of a child.
    pub fn get(&self, name: &str) -> (r: Option<ChildRecord>)
        requires
            self.wf(),
        ensures
            match r {
                Some(child) => self@.children.dom().contains(name@) && child
                    == self@.children[name@],
                None => !self@.children.dom().contains(name@),
            },
    {
        match self.children.get(name) {
            Some(child) => Some(*child),
            None => None,
        }
    }

    /// The number of tracked children.
    pub fn len(&self) -> (r: usize)
        ensures
            r == self@.names.len(),
    {
        self.children.len()
    }

    /// The child at place `i` in order of first start.
    pub fn child_at(&self, i: usize) -> (r: (String, ChildRecord))
        requires
            self.wf(),
            i < self@.names.len(),
        ensures
            r.0@ == self@.names[i as int],
            r.1 == self@.children[self@.names[i as int]],
    {
        (self.children.name_at(i).clone(), *self.children.value_at(i))
    }

    /// Returns true if no children are being tracked.
    pub fn is_empty(&self) -> (r: bool)
        ensures
            r == (self@.names.len() == 0),
    {
        self.children.len() == 0
    }
}

/// The hung children are those, in order of first start, that run, that have a
/// timeout, and that last said that they are busy, longer ago than the timeout.
pub proof fn law_hung_children_are_busy_and_overdue(
    life: LifecycleView,
    specs: Map<Seq<char>, ChildSpec>,
    now: Instant,
)
    ensures
        life.hung_at(specs, now) == life.names.filter(
            |name: Seq<char>|
                life.children[name].alive && specs.dom().contains(name) && (match (
                    specs[name].hang_timeout,
                    life.children[name].progress,
                ) {
                    (Some(timeout), Some(progress)) => progress.busy && now.nanos
                        - progress.last_progress.nanos > timeout.nanos,
                    _ => false,
                }),
        ),
{
    let hung = |name: Seq<char>| is_hung(life.children, specs, name, now);
    let overdue = |name: Seq<char>|
        life.children[name].alive && specs.dom().contains(name) && (match (
            specs[name].hang_timeout,
            life.children[name].progress,
        ) {
            (Some(timeout), Some(progress)) => progress.busy && now.nanos
                - progress.last_progress.nanos > timeout.nanos,
            _ => false,
        });
    assert(hung =~= overdue);
}

/// A child that last said that it is not busy waits for work: it is not hung,
/// however long ago that was. Nor is a dead child, one without a timeout, or one
/// whose last report is not older than the timeout.
pub proof fn law_waiting_children_are_not_hung(
    life: LifecycleView,
    specs: Map<Seq<char>, ChildSpec>,
    name: Seq<char>,
    now: Instant,
)
    requires
        ({
            ||| life.children[name].progress matches Some(progress) && !progress.busy
            ||| life.children[name].progress is None
            ||| !life.children[name].alive
            ||| specs[name].hang_timeout is None
            ||| !specs.dom().contains(name)
            ||| life.children[name].progress matches Some(progress)
                && specs[name].hang_timeout matches Some(timeout) && now.nanos
                <= progress.last_progress.nanos + timeout.nanos
        }),
    ensures
        !life.hung_at(specs, now).contains(name),
        !is_hung(life.children, specs, name, now),
{
    let hung = |name: Seq<char>| is_hung(life.children, specs, name, now);
    sequences::lemma_filter_subset(life.names, hung);
    assert(!hung(name));
}

/// A child that was started runs in generation 0, has not been told to stop, and
/// is not hung. Its task is its own; the other children stay as they were.
pub proof fn law_start_makes_a_running_child(
    life: LifecycleView,
    name: Seq<char>,
    other: Seq<char>,
    id: AgentId,
    task: u64,
    progress: ProgressState,
)
    requires
        other != name,
    ensures
        ({
            let after = life.started(name, id, task, progress);
            &&& after.children.dom() == life.children.dom().insert(name)
            &&& after.children[name].id == id
            &&& after.children[name].generation == 0
            &&& after.children[name].alive
            &&& after.children[name].cancellable
            &&& !after.children[name].hung
            &&& after.children[name].progress == Some(progress)
            &&& after.children[other] == life.children[other]
            &&& after.owner(task) == Some(name)
            &&& life.consistent() ==> after.consistent()
        }),
{
    let after = life.started(name, id, task, progress);
    assert(after.children.dom() =~= life.children.dom().insert(name));
    if life.consistent() {
        lemma_start_is_consistent(life, name, id, task, progress);
    }
}

proof fn lemma_start_is_consistent(
    life: LifecycleView,
    name: Seq<char>,
    id: AgentId,
    task: u64,
    progress: ProgressState,
)
    requires
        life.consistent(),
    ensures
        life.started(name, id, task, progress).consistent(),
{
    let after = life.started(name, id, task, progress);
    if !life.children.dom().contains(name) {
        assert(!life.names.contains(name));
        assert forall|n: Seq<char>| #[trigger]
            after.names.contains(n) <==> after.children.dom().contains(n) by {
            if life.names.contains(n) {
                let i = life.names.index_of(n);
                assert(after.names[i] == n);
            }
            if after.names.contains(n) && n != name {
                let i = after.names.index_of(n);
                assert(life.names[i] == n);
            }
            assert(after.names[life.names.len() as int] == name);
            assert(life.names.contains(n) <==> life.children.dom().contains(n));
        }
        assert forall|i: int, j: int|
            0 <= i < j < after.names.len() implies after.names[i] != after.names[j] by {
            if j == life.names.len() {
                assert(life.names.contains(life.names[i]));
            }
        }
        assert forall|i: int| 0 <= i < after.names.len() implies after.children.dom().contains(
            #[trigger] after.names[i],
        ) by {
            assert(after.names.contains(after.names[i]));
        }
    } else {
        assert forall|n: Seq<char>| #[trigger]
            after.names.contains(n) <==> after.children.dom().contains(n) by {
            assert(life.names.contains(n) <==> life.children.dom().contains(n));
        }
    }
}

/// A child whose task ended is dead and reports nothing, keeps its identifier and
/// its generation, and its hang is forgotten. The task belongs to nobody any more;
/// the other children and the other tasks stay as they were.
pub proof fn law_exit_leaves_a_dead_child(
    life: LifecycleView,
    task: u64,
    other: Seq<char>,
    other_task: u64,
)
    requires
        life.owner(task) != Some(other),
        other_task != task,
    ensures
        ({
            let after = life.exited(task);
            &&& after.owner(task) is None
            &&& after.owner(other_task) == life.owner(other_task)
            &&& after.names == life.names
            &&& after.children.dom() == life.children.dom()
            &&& after.children[other] == life.children[other]
            &&& life.owner(task) matches Some(name) ==> {
                &&& life.tasks[task] == name
                &&& life.children.dom().contains(name)
                &&& !after.children[name].alive
                &&& !after.children[name].hung
                &&& !after.children[name].cancellable
                &&& after.children[name].progress is None
                &&& after.children[name].id == life.children[name].id
                &&& after.children[name].generation == life.children[name].generation
            }
            &&& life.owner(task) is None ==> after.children == life.children
        }),
{
    let after = life.exited(task);
    assert(after.children.dom() =~= life.children.dom());
}

/// A task belongs to a child if and only if it was started for it and the child is
/// known.
pub proof fn law_tasks_belong_to_children(life: LifecycleView, task: u64, name: Seq<char>)
    ensures
        life.owner(task) == Some(name) <==> life.tasks.dom().contains(task) && life.tasks[task]
            == name && life.children.dom().contains(name),
{
}

/// A child that was started anew runs, one generation on, under its identifier; it
/// can be told to stop, and its task is its own. The other children stay as they
/// were.
pub proof fn law_restart_makes_a_running_child(
    life: LifecycleView,
    name: Seq<char>,
    other: Seq<char>,
    task: u64,
    progress: ProgressState,
)
    requires
        life.children.dom().contains(name),
        life.children[name].generation < u64::MAX,
        other != name,
    ensures
        ({
            let after = life.restarted(name, task, progress);
            &&& after.names == life.names
            &&& after.children.dom() == life.children.dom()
            &&& after.children[name].id == life.children[name].id
            &&& after.children[name].generation == life.children[name].generation + 1
            &&& after.children[name].alive
            &&& after.children[name].cancellable
            &&& after.children[name].progress == Some(progress)
            &&& after.children[other] == life.children[other]
            &&& after.owner(task) == Some(name)
        }),
{
    assert(life.restarted(name, task, progress).children.dom() =~= life.children.dom());
}

/// A child that is told to stop, on request or because it hangs, is told so once.
/// It runs on until its task ends, and only the one that hangs is marked as hung.
/// The other children stay as they were.
pub proof fn law_cancelling_is_not_ending(life: LifecycleView, name: Seq<char>, other: Seq<char>)
    requires
        life.children.dom().contains(name),
        other != name,
    ensures
        ({
            let before = life.children[name];
            let stopped = life.stopped(name);
            let hung = life.cancelled(name);
            &&& stopped.children[name] == (ChildRecord { cancellable: false, ..before })
            &&& hung.children[name] == (ChildRecord { cancellable: false, hung: true, ..before })
            &&& stopped.children[other] == life.children[other]
            &&& hung.children[other] == life.children[other]
            &&& stopped.children.dom() == life.children.dom()
            &&& hung.children.dom() == life.children.dom()
            &&& stopped.names == life.names && hung.names == life.names
            &&& stopped.tasks == life.tasks && hung.tasks == life.tasks
        }),
{
    assert(life.stopped(name).children.dom() =~= life.children.dom());
    assert(life.cancelled(name).children.dom() =~= life.children.dom());
}

/// To cancel all children but one tells exactly those to stop that have not been
/// told yet, and nothing else about them changes. The one is spared.
pub proof fn law_cancelling_all_spares_one(
    life: LifecycleView,
    exclude: Option<Seq<char>>,
    name: Seq<char>,
)
    requires
        life.children.dom().contains(name),
        life.consistent(),
    ensures
        ({
            let after = life.all_cancelled(exclude);
            &&& life.cancellable(exclude).contains(name) <==> life.children[name].cancellable
                && exclude != Some(name)
            &&& exclude == Some(name) ==> after.children[name] == life.children[name]
            &&& exclude != Some(name) ==> after.children[name] == (ChildRecord {
                cancellable: false,
                ..life.children[name]
            })
            &&& !after.cancellable(exclude).contains(name)
            &&& after.children.dom() == life.children.dom()
            &&& after.names == life.names
            &&& after.tasks == life.tasks
        }),
{
    let after = life.all_cancelled(exclude);
    assert(after.children.dom() =~= life.children.dom());
    let before_stop = |name: Seq<char>| life.children[name].cancellable && exclude != Some(name);
    let after_stop = |name: Seq<char>| after.children[name].cancellable && exclude != Some(name);
    sequences::lemma_filter_subset(life.names, before_stop);
    sequences::lemma_filter_subset(after.names, after_stop);
    assert(life.names.contains(name));
}

/// The children beside one are all the others that run, in order of first start.
pub proof fn law_siblings_are_all_the_others_that_run(
    life: LifecycleView,
    exclude: Seq<char>,
    name: Seq<char>,
)
    requires
        life.consistent(),
    ensures
        life.alive_except(exclude).contains(name) <==> life.children.dom().contains(name)
            && life.children[name].alive && name != exclude,
        life.alive_except(exclude).no_duplicates(),
{
    sequences::lemma_filter_subset(life.names, life.runs_beside(exclude));
    assert(life.names.contains(name) <==> life.children.dom().contains(name));
}

} // verus!
