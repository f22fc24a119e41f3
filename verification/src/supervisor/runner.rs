//! The supervisor's decisions.
//!
//! [`SupervisorRunner`] holds the state of a supervisor and decides what
//! happens on each occasion: a command, the end of a child's task, a hang
//! check, a restart that falls due. Whoever drives it performs what it orders
//! (spawning, cancelling, waiting, emitting events) and reports back.

use vstd::prelude::*;

use crate::agent::runner::ProgressState;
use crate::budget::BudgetTracker;
use crate::budget::BudgetView;
use crate::error::SupervisorError;
use crate::ids::AgentId;
use crate::name_map::NameMap;
use crate::sequences;
use crate::supervisor::child::ChildSpec;
use crate::supervisor::config::ChildRestart;
use crate::supervisor::config::SupervisorConfig;
use crate::supervisor::event;
use crate::supervisor::event::EventView;
use crate::supervisor::event::SupervisorEvent;
use crate::supervisor::lifecycle;
use crate::supervisor::lifecycle::ChildAddress;
use crate::supervisor::lifecycle::ChildLifecycle;
use crate::supervisor::lifecycle::ChildRecord;
use crate::supervisor::lifecycle::LifecycleView;
use crate::supervisor::restart_manager::ChildRestartView;
use crate::supervisor::restart_manager::ManagerView;
use crate::supervisor::restart_manager::RestartDecision;
use crate::supervisor::restart_manager::RestartManager;
use crate::supervisor::tracker::IntensityView;
use crate::supervisor::tracker::TrackerView;
use crate::supervisor::ChildExit;
use crate::supervisor::ChildStatus;
use crate::time::Duration;
use crate::time::Instant;

verus! {

/// A restart that waits for its delay to pass.
#[derive(Debug)]
pub struct PendingRestart {
    /// The child to restart.
    pub name: String,
    /// When the delay has passed.
    pub when: Instant,
    /// The generation that ended.
    pub old_gen: u64,
}

/// What a [`PendingRestart`] holds.
pub struct PendingView {
    /// The child to restart.
    pub name: Seq<char>,
    /// When the delay has passed.
    pub when: Instant,
    /// The generation that ended.
    pub old_gen: u64,
}

impl View for PendingRestart {
    type V = PendingView;

    open spec fn view(&self) -> PendingView {
        PendingView { name: self.name@, when: self.when, old_gen: self.old_gen }
    }
}

/// An order to spawn a child.
#[derive(Debug)]
pub struct SpawnOrder {
    /// The child to spawn.
    pub name: String,
    /// Its stable identifier.
    pub id: AgentId,
    /// The generation to start.
    pub generation: u64,
    /// The siblings that run.
    pub peers: Vec<ChildAddress>,
}

/// What follows the end of a child's task.
#[derive(Debug)]
pub enum ExitStep {
    /// Nothing more is to be done now.
    Continue,
    /// All children are to be stopped and started anew.
    RestartAll {
        /// The child whose exit caused the restart.
        trigger: String,
    },
    /// The supervisor gives up: all children are to be stopped.
    GiveUp {
        /// The restarts ever recorded for all children.
        total_restarts: u64,
    },
}

/// What an [`ExitStep`] holds.
pub enum ExitStepView {
    /// See [`ExitStep::Continue`].
    Continue,
    /// See [`ExitStep::RestartAll`].
    RestartAll { trigger: Seq<char> },
    /// See [`ExitStep::GiveUp`].
    GiveUp { total_restarts: u64 },
}

impl View for ExitStep {
    type V = ExitStepView;

    open spec fn view(&self) -> ExitStepView {
        match *self {
            ExitStep::Continue => ExitStepView::Continue,
            ExitStep::RestartAll { trigger } => ExitStepView::RestartAll { trigger: trigger@ },
            ExitStep::GiveUp { total_restarts } => ExitStepView::GiveUp { total_restarts },
        }
    }
}

/// What is to be done about a hung child.
#[derive(Debug)]
pub struct HangReport {
    /// The event to emit.
    pub event: SupervisorEvent,
    /// The hung child.
    pub name: String,
    /// Whether the child has yet to be told to stop.
    pub cancel: bool,
}

/// What a [`SupervisorRunner`] knows.
#[verifier::ext_equal]
pub struct SupervisorView {
    /// The children.
    pub life: LifecycleView,
    /// The specifications of the children by name.
    pub specs: Map<Seq<char>, ChildSpec>,
    /// The names in order of successful starts.
    pub order: Seq<Seq<char>>,
    /// Restart policies, limits and histories.
    pub manager: ManagerView,
    /// The restarts that wait for their delay to pass.
    pub pending: Seq<PendingView>,
    /// Whether the supervisor was told to shut down.
    pub cancelled: bool,
}

/// The budget event for the exit of `name`: what is on its account, if it has a
/// limit of its own. Without a tracker the event carries no figures. An agent
/// without a limit of its own was stopped by the global one, which has an event
/// of its own.
pub open spec fn budget_events(
    name: Seq<char>,
    exit: ChildExit,
    budget: Option<BudgetView>,
) -> Seq<EventView> {
    if !(exit is BudgetExceeded) {
        Seq::empty()
    } else {
        match budget {
            None => seq![EventView::BudgetExceeded { name, used: 0, limit: 0 }],
            Some(budget) => if budget.agents.dom().contains(name) {
                match budget.agents[name].limit {
                    Some(limit) => seq![
                        EventView::BudgetExceeded { name, used: budget.agents[name].used, limit },
                    ],
                    None => Seq::empty(),
                }
            } else {
                Seq::empty()
            },
        }
    }
}

/// What an optional budget tracker knows.
pub open spec fn budget_view(budget: Option<&BudgetTracker>) -> Option<BudgetView> {
    match budget {
        Some(budget) => Some(budget@),
        None => None,
    }
}

impl SupervisorView {
    /// After a child was taken on: it has its specification and a clean record.
    pub open spec fn taken_on(self, spec: ChildSpec) -> SupervisorView {
        SupervisorView {
            specs: self.specs.insert(spec.name@, spec),
            manager: ManagerView {
                children: self.manager.children.insert(
                    spec.name@,
                    ChildRestartView {
                        policy: spec.restart,
                        tracker: TrackerView {
                            stamps: Seq::empty(),
                            policy: spec.config.restart_policy,
                            total_restarts: 0,
                        },
                    },
                ),
                ..self.manager
            },
            ..self
        }
    }

    /// Whether a list tells how every child is, in order of first start.
    pub open spec fn are_statuses(self, list: Seq<ChildStatus>) -> bool {
        &&& list.len() == self.life.names.len()
        &&& forall|i: int|
            0 <= i < list.len() ==> {
                let name = self.life.names[i];
                &&& (#[trigger] list[i]).name@ == name
                &&& list[i].alive == self.life.children[name].alive
                &&& list[i].generation == self.life.children[name].generation
                &&& list[i].restart_count == self.manager.restart_count(name)
            }
    }

    /// Whether `event` tells that `name` is started anew, after a delay or not.
    pub open spec fn is_restart_event(
        self,
        name: Seq<char>,
        delayed: bool,
        event: SupervisorEvent,
    ) -> bool {
        &&& event matches SupervisorEvent::ChildRestarted { name: n, old_gen, new_gen, delay }
        &&& n@ == name
        &&& old_gen == self.life.children[name].generation
        &&& new_gen == old_gen + 1
        &&& delay.nanos == (if delayed {
            self.manager.backoff(name)
        } else {
            0
        })
    }

    /// Whether `order` starts the known child `name` anew.
    pub open spec fn is_respawn(self, order: SpawnOrder, name: Seq<char>) -> bool {
        &&& order.name@ == name
        &&& order.id == self.life.children[name].id
        &&& order.generation == self.life.children[name].generation + 1
        &&& self.are_peers(order.peers@, name)
    }

    /// Whether `restart` was taken out of the restarts that wait, and `after` is what is
    /// left.
    pub open spec fn is_taken_out(
        self,
        now: Instant,
        restart: PendingView,
        after: SupervisorView,
    ) -> bool {
        exists|i: int| #[trigger]
            is_first_ready(self.pending, now, i) && restart == self.pending[i] && after == (
            SupervisorView {
                pending: self.pending.update(i, self.pending.last()).drop_last(),
                ..self
            })
    }

    /// The decision on the exit of `name`.
    pub open spec fn decision(self, name: Seq<char>, exit: ChildExit, now: Instant) -> RestartDecision {
        self.manager.decision(name, exit, self.life.children[name].hung, now)
    }

    /// After the end of `task`: the child is dead; unless the supervisor shuts
    /// down, the restart is recorded, and put off by its delay if only this
    /// child is to be restarted.
    pub open spec fn after_exit(self, task: u64, exit: ChildExit, now: Instant) -> SupervisorView {
        let gone = SupervisorView { life: self.life.exited(task), ..self };
        match self.life.owner(task) {
            None => gone,
            Some(name) => if self.cancelled {
                gone
            } else {
                SupervisorView {
                    manager: self.manager.decided(name, exit, self.life.children[name].hung, now),
                    pending: match self.decision(name, exit, now) {
                        RestartDecision::RestartAfter { delay } => self.pending.push(
                            PendingView {
                                name,
                                when: Instant { nanos: (now.nanos + delay.nanos) as u128 },
                                old_gen: self.life.children[name].generation,
                            },
                        ),
                        _ => self.pending,
                    },
                    ..gone
                }
            },
        }
    }

    /// The events of the end of `task`: the exit, the budget that ended it, and
    /// the limit that forbids a restart.
    pub open spec fn exit_events(
        self,
        task: u64,
        exit: ChildExit,
        budget: Option<BudgetView>,
        now: Instant,
    ) -> Seq<EventView> {
        match self.life.owner(task) {
            None => Seq::empty(),
            Some(name) => seq![
                EventView::ChildExited {
                    name,
                    generation: self.life.children[name].generation,
                    exit,
                },
            ] + budget_events(name, exit, budget) + (if self.cancelled {
                Seq::empty()
            } else {
                match self.decision(name, exit, now) {
                    RestartDecision::ChildLimitExceeded { restarts } => seq![
                        EventView::ChildRestartLimitExceeded { name, restarts },
                    ],
                    RestartDecision::IntensityExceeded { total_restarts } => seq![
                        EventView::RestartIntensityExceeded { total_restarts },
                    ],
                    _ => Seq::empty(),
                }
            }),
        }
    }

    /// What follows the end of `task`.
    pub open spec fn exit_step(self, task: u64, exit: ChildExit, now: Instant) -> ExitStepView {
        match self.life.owner(task) {
            None => ExitStepView::Continue,
            Some(name) => if self.cancelled {
                ExitStepView::Continue
            } else {
                match self.decision(name, exit, now) {
                    RestartDecision::RestartAll => ExitStepView::RestartAll { trigger: name },
                    RestartDecision::IntensityExceeded { total_restarts } => ExitStepView::GiveUp {
                        total_restarts,
                    },
                    _ => ExitStepView::Continue,
                }
            },
        }
    }

    /// The children that a cascade starts anew, in order of their starts.
    pub open spec fn cascade(self) -> Seq<Seq<char>> {
        if self.cancelled {
            Seq::empty()
        } else {
            self.order.filter(
                |name: Seq<char>|
                    self.specs.dom().contains(name) && !(self.specs[name].restart is Temporary),
            )
        }
    }

    /// Whether a restart that fell due still applies: the child is dead, and it
    /// has not been started since.
    pub open spec fn still_due(self, restart: PendingView) -> bool {
        &&& self.life.children.dom().contains(restart.name)
        &&& !self.life.children[restart.name].alive
        &&& self.life.children[restart.name].generation == restart.old_gen
        &&& self.specs.dom().contains(restart.name)
    }

    /// After the hung children were cancelled.
    pub open spec fn hung_cancelled(self, now: Instant) -> SupervisorView {
        SupervisorView {
            life: LifecycleView {
                children: self.life.children.map_entries(
                    |name: Seq<char>, child: ChildRecord|
                        if lifecycle::is_hung(
                            self.life.children,
                            self.specs,
                            name,
                            now,
                        ) {
                            ChildRecord { hung: true, ..child.cancelled() }
                        } else {
                            child
                        },
                ),
                ..self.life
            },
            ..self
        }
    }

    /// After `name` reported its progress; only a child that runs is heard.
    pub open spec fn observed(self, name: Seq<char>, progress: ProgressState) -> SupervisorView {
        SupervisorView {
            life: LifecycleView {
                children: if self.life.children.dom().contains(name)
                    && self.life.children[name].progress is Some {
                    self.life.children.insert(
                        name,
                        ChildRecord { progress: Some(progress), ..self.life.children[name] },
                    )
                } else {
                    self.life.children
                },
                ..self.life
            },
            ..self
        }
    }

    /// The counters can count and the delays lie on the clock.
    pub open spec fn room(self, now: Instant) -> bool {
        &&& self.manager.room()
        &&& self.manager.delays_fit(now)
        &&& self.generations_fit()
    }

    /// Every dead child can have one more generation.
    pub open spec fn generations_fit(self) -> bool {
        forall|name: Seq<char>| #[trigger]
            self.life.children.dom().contains(name) && !self.life.children[name].alive
                ==> self.life.children[name].generation < u64::MAX
    }

    /// Every child has a specification, and the restart policies are those of
    /// the specifications.
    pub open spec fn aligned(self) -> bool {
        &&& forall|name: Seq<char>| #[trigger]
            self.life.children.dom().contains(name) ==> self.specs.dom().contains(name)
        &&& forall|name: Seq<char>| #[trigger]
            self.specs.dom().contains(name) <==> self.manager.children.dom().contains(name)
        &&& forall|name: Seq<char>| #[trigger]
            self.specs.dom().contains(name) ==> self.manager.children[name].policy
                == self.specs[name].restart
    }
}

/// Whether `i` is the first restart in the list whose delay has passed.
pub open spec fn is_first_ready(pending: Seq<PendingView>, now: Instant, i: int) -> bool {
    &&& 0 <= i < pending.len()
    &&& pending[i].when.nanos <= now.nanos
    &&& forall|j: int| 0 <= j < i ==> (#[trigger] pending[j]).when.nanos > now.nanos
}

/// Whether `r` is when the first of the restarts that wait falls due.
pub open spec fn is_next_due(pending: Seq<PendingView>, r: Option<Instant>) -> bool {
    match r {
        None => pending.len() == 0,
        Some(when) => {
            &&& exists|i: int| 0 <= i < pending.len() && (#[trigger] pending[i]).when == when
            &&& forall|i: int|
                0 <= i < pending.len() ==> when.nanos <= (#[trigger] pending[i]).when.nanos
        },
    }
}

/// The state of a supervisor.
pub struct SupervisorRunner {
    lifecycle: ChildLifecycle,
    specs: NameMap<ChildSpec>,
    child_order: Vec<String>,
    restart_mgr: RestartManager,
    pending_restarts: Vec<PendingRestart>,
    cancelled: bool,
}

impl View for SupervisorRunner {
    type V = SupervisorView;

    closed spec fn view(&self) -> SupervisorView {
        SupervisorView {
            life: self.lifecycle@,
            specs: self.specs@,
            order: sequences::texts(self.child_order@),
            manager: self.restart_mgr@,
            pending: self.pending_restarts@.map_values(|p: PendingRestart| p@),
            cancelled: self.cancelled,
        }
    }
}

impl SupervisorRunner {
    /// The parts are well-formed.
    pub closed spec fn wf(&self) -> bool {
        self.lifecycle.wf() && self.specs.wf() && self.restart_mgr.wf()
    }

    /// The names of the children are its children, each once.
    pub proof fn lemma_consistent(&self)
        requires
            self.wf(),
        ensures
            self@.life.consistent(),
    {
        self.lifecycle.lemma_consistent();
    }

    /// A supervisor without children.
    pub fn new(config: &SupervisorConfig) -> (r: Self)
        ensures
            r.wf(),
            r@ == (SupervisorView {
                life: LifecycleView::empty(),
                specs: Map::empty(),
                order: Seq::empty(),
                manager: ManagerView {
                    strategy: config.strategy,
                    children: Map::empty(),
                    intensity: IntensityView {
                        stamps: Seq::empty(),
                        intensity: config.intensity,
                        total_restarts: 0,
                    },
                },
                pending: Seq::empty(),
                cancelled: false,
            }),
    {
        let r = SupervisorRunner {
            lifecycle: ChildLifecycle::new(),
            specs: NameMap::new(),
            child_order: Vec::new(),
            restart_mgr: RestartManager::new(config),
            pending_restarts: Vec::new(),
            cancelled: false,
        };
        assert(r@.order =~= Seq::empty());
        assert(r@.pending =~= Seq::empty());
        r
    }

    /// Whether the counters can count and the delays lie on the clock.
    pub fn has_room(&self, now: Instant) -> (r: bool)
        requires
            self.wf(),
        ensures
            r == self@.room(now),
    {
        if !self.restart_mgr.has_room() || !self.restart_mgr.delays_fit(now) {
            return false;
        }
        let mut i: usize = 0;
        while i < self.lifecycle.len()
            invariant
                self.wf(),
                i <= self@.life.names.len(),
                forall|j: int|
                    0 <= j < i ==> {
                        let child = self@.life.children[#[trigger] self@.life.names[j]];
                        !child.alive ==> child.generation < u64::MAX
                    },
                self@.manager.room(),
                self@.manager.delays_fit(now),
            decreases self@.life.names.len() - i,
        {
            let (name, child) = self.lifecycle.child_at(i);
            if !child.alive && child.generation == u64::MAX {
                proof {
                    self.lifecycle.lemma_consistent();
                    assert(self@.life.children.dom().contains(self@.life.names[i as int]));
                }
                return false;
            }
            i += 1;
        }
        proof {
            self.lifecycle.lemma_consistent();
            assert forall|name: Seq<char>| #[trigger]
                self@.life.children.dom().contains(name)
                    && !self@.life.children[name].alive implies self@.life.children[name].generation
                < u64::MAX by {
                assert(self@.life.names.contains(name));
                let j = self@.life.names.index_of(name);
                assert(self@.life.names[j] == name);
            }
        }
        true
    }

    /// Takes on a new child: its specification is stored, its restarts are
    /// tracked afresh, its budget is registered. Orders its first spawn, with
    /// the siblings that run as its peers.
    pub fn start_child(&mut self, spec: ChildSpec, budget: Option<&mut BudgetTracker>) -> (r:
        SpawnOrder)
        requires
            old(self).wf(),
            budget matches Some(b) ==> b.wf(),
        ensures
            final(self).wf(),
            final(self)@ == (SupervisorView {
                specs: old(self)@.specs.insert(spec.name@, spec),
                manager: ManagerView {
                    children: old(self)@.manager.children.insert(
                        spec.name@,
                        ChildRestartView {
                            policy: spec.restart,
                            tracker: TrackerView {
                                stamps: Seq::empty(),
                                policy: spec.config.restart_policy,
                                total_restarts: 0,
                            },
                        },
                    ),
                    ..old(self)@.manager
                },
                ..old(self)@
            }),
            final(self)@ == old(self)@.taken_on(spec),
            budget matches Some(b) ==> final(b).wf() && final(b)@ == b@.registered(
                spec.name@,
                spec.token_budget,
            ),
            r.name@ == spec.name@,
            r.generation == 0,
            crate::ids::is_random_id(r.id.value),
            old(self)@.are_peers(r.peers@, spec.name@),
    {
        let name = spec.name.clone();
        let peers = self.lifecycle.peers_excluding(name.as_str());
        self.restart_mgr.register(name.as_str(), spec.restart, &spec.config.restart_policy);
        if let Some(budget) = budget {
            budget.register_agent(name.as_str(), spec.token_budget);
        }
        self.specs.insert(name.clone(), spec);
        SpawnOrder { name, id: AgentId::new(), generation: 0, peers }
    }

    /// Records that the first spawn of a child succeeded, as `task`. Returns the
    /// event to emit.
    pub fn child_started(&mut self, name: &str, id: AgentId, task: u64, progress: ProgressState) -> (r:
        SupervisorEvent)
        requires
            old(self).wf(),
        ensures
            final(self).wf(),
            final(self)@ == (SupervisorView {
                life: old(self)@.life.started(name@, id, task, progress),
                order: old(self)@.order.push(name@),
                ..old(self)@
            }),
            r@ == (EventView::ChildStarted { name: name@, generation: 0 }),
    {
        self.lifecycle.record_start(name, id, task, progress);
        let started = name.to_owned();
        proof {
            sequences::lemma_texts_push(self.child_order@, started);
        }
        self.child_order.push(started);
        SupervisorEvent::ChildStarted { name: name.to_owned(), generation: 0 }
    }

    /// Stops a child. Returns whether its current generation has yet to be told
    /// to stop. The child does not count as hung: its policy decides on the exit
    /// as on any other.
    pub fn stop_child(&mut self, name: &str) -> (r: Result<bool, SupervisorError>)
        requires
            old(self).wf(),
        ensures
            final(self).wf(),
            match r {
                Ok(cancel) => {
                    &&& old(self)@.life.children.dom().contains(name@)
                    &&& cancel == old(self)@.life.children[name@].cancellable
                    &&& final(self)@ == (SupervisorView {
                        life: old(self)@.life.stopped(name@),
                        ..old(self)@
                    })
                },
                Err(error) => {
                    &&& !old(self)@.life.children.dom().contains(name@)
                    &&& error matches SupervisorError::ChildNotFound(what)
                    &&& what@ == name@
                    &&& final(self)@ == old(self)@
                },
            },
    {
        if self.lifecycle.get(name).is_none() {
            return Err(SupervisorError::ChildNotFound(name.to_owned()));
        }
        Ok(self.lifecycle.stop_child(name))
    }

    /// Looks up a child's stable address by name.
    pub fn child(&self, name: &str) -> (r: Option<ChildAddress>)
        requires
            self.wf(),
        ensures
            match r {
                Some(address) => self@.life.children.dom().contains(name@) && address.name@ == name@
                    && address.id == self@.life.children[name@].id,
                None => !self@.life.children.dom().contains(name@),
            },
    {
        self.lifecycle.get_handle(name)
    }

    /// The status of every child, in order of first start.
    pub fn list_children(&self) -> (r: Vec<ChildStatus>)
        requires
            self.wf(),
        ensures
            r@.len() == self@.life.names.len(),
            forall|i: int|
                0 <= i < r@.len() ==> {
                    let name = self@.life.names[i];
                    &&& (#[trigger] r@[i]).name@ == name
                    &&& r@[i].alive == self@.life.children[name].alive
                    &&& r@[i].generation == self@.life.children[name].generation
                    &&& r@[i].restart_count == self@.manager.restart_count(name)
                },
            self@.are_statuses(r@),
    {
        let mut list: Vec<ChildStatus> = Vec::new();
        let mut i: usize = 0;
        while i < self.lifecycle.len()
            invariant
                self.wf(),
                i <= self@.life.names.len(),
                list@.len() == i,
                forall|j: int|
                    0 <= j < i ==> {
                        let name = self@.life.names[j];
                        &&& (#[trigger] list@[j]).name@ == name
                        &&& list@[j].alive == self@.life.children[name].alive
                        &&& list@[j].generation == self@.life.children[name].generation
                        &&& list@[j].restart_count == self@.manager.restart_count(name)
                    },
            decreases self@.life.names.len() - i,
        {
            let (name, child) = self.lifecycle.child_at(i);
            let restart_count = self.restart_mgr.child_restart_count(name.as_str());
            list.push(
                ChildStatus {
                    name,
                    alive: child.alive,
                    generation: child.generation,
                    restart_count,
                },
            );
            i += 1;
        }
        list
    }

    /// Takes over what a running child reports of its progress.
    pub fn observe(&mut self, name: &str, progress: ProgressState)
        requires
            old(self).wf(),
        ensures
            final(self).wf(),
            final(self)@ == old(self)@.observed(name@, progress),
    {
        self.lifecycle.observe(name, progress);
    }

    /// The end of a child's task: records it, decides on the restart, and says
    /// which events to emit and what comes next.
    pub fn handle_child_exit(
        &mut self,
        task: u64,
        exit: ChildExit,
        budget: Option<&BudgetTracker>,
        now: Instant,
    ) -> (r: (Vec<SupervisorEvent>, ExitStep))
        requires
            old(self).wf(),
            budget matches Some(b) ==> b.wf(),
            old(self)@.manager.room(),
            old(self)@.manager.delays_fit(now),
        ensures
            final(self).wf(),
            final(self)@ == old(self)@.after_exit(task, exit, now),
            event::told(r.0@) == old(self)@.exit_events(task, exit, budget_view(budget), now),
            r.1@ == old(self)@.exit_step(task, exit, now),
    {
        let ghost before = self@;
        let mut events: Vec<SupervisorEvent> = Vec::new();
        let info = match self.lifecycle.process_exit(task, exit) {
            Some(info) => info,
            None => {
                assert(event::told(events@) =~= Seq::empty());
                return (events, ExitStep::Continue);
            },
        };
        let name = info.name;
        let generation = info.generation;
        let exit = info.exit;
        events.push(
            SupervisorEvent::ChildExited { name: name.clone(), generation, exit: exit.clone() },
        );
        if let ChildExit::BudgetExceeded = exit {
            match budget {
                None => {
                    events.push(
                        SupervisorEvent::BudgetExceeded { name: name.clone(), used: 0, limit: 0 },
                    );
                },
                Some(budget) => {
                    if let Some(usage) = budget.agent_usage(name.as_str()) {
                        if let Some(limit) = usage.limit {
                            events.push(
                                SupervisorEvent::BudgetExceeded {
                                    name: name.clone(),
                                    used: usage.used,
                                    limit,
                                },
                            );
                        }
                    }
                },
            }
        }
        let ghost first = seq![EventView::ChildExited { name: name@, generation, exit }]
            + budget_events(name@, exit, budget_view(budget));
        assert(event::told(events@) =~= first);
        if self.cancelled {
            assert(first + Seq::<EventView>::empty() =~= first);
            return (events, ExitStep::Continue);
        }
        let decision = self.restart_mgr.decide(name.as_str(), &exit, info.hung, now);
        assert(decision == before.decision(name@, exit, now));
        match decision {
            RestartDecision::NoRestart => {
                assert(first + Seq::<EventView>::empty() =~= first);
                (events, ExitStep::Continue)
            },
            RestartDecision::RestartAfter { delay } => {
                proof {
                    assert(first + Seq::<EventView>::empty() =~= first);
                    assert(before.manager.children.dom().contains(name@));
                    assert(delay.nanos
                        <= before.manager.children[name@].tracker.policy.backoff_max.nanos);
                }
                let restart = PendingRestart { name, when: now.after(delay), old_gen: generation };
                let ghost pending = self.pending_restarts@;
                self.pending_restarts.push(restart);
                assert(pending.push(restart).map_values(|p: PendingRestart| p@)
                    =~= pending.map_values(|p: PendingRestart| p@).push(restart@));
                (events, ExitStep::Continue)
            },
            RestartDecision::RestartAll => {
                assert(first + Seq::<EventView>::empty() =~= first);
                (events, ExitStep::RestartAll { trigger: name })
            },
            RestartDecision::ChildLimitExceeded { restarts } => {
                events.push(
                    SupervisorEvent::ChildRestartLimitExceeded { name: name.clone(), restarts },
                );
                assert(event::told(events@) =~= first + seq![
                    EventView::ChildRestartLimitExceeded { name: name@, restarts },
                ]);
                (events, ExitStep::Continue)
            },
            RestartDecision::IntensityExceeded { total_restarts } => {
                events.push(SupervisorEvent::RestartIntensityExceeded { total_restarts });
                assert(event::told(events@) =~= first + seq![
                    EventView::RestartIntensityExceeded { total_restarts },
                ]);
                (events, ExitStep::GiveUp { total_restarts })
            },
        }
    }

    /// First step of restarting all children: all but the one that caused it
    /// are cancelled. Returns those that have yet to be told to stop.
    pub fn cancel_siblings(&mut self, trigger: &str) -> (r: Vec<String>)
        requires
            old(self).wf(),
        ensures
            final(self).wf(),
            final(self)@ == (SupervisorView {
                life: old(self)@.life.all_cancelled(Some(trigger@)),
                ..old(self)@
            }),
            sequences::texts(r@) == old(self)@.life.cancellable(Some(trigger@)),
    {
        self.lifecycle.cancel_all_except(trigger)
    }

    /// Records the end of a task while the children are being drained: nothing
    /// is decided on it.
    pub fn drain_exit(&mut self, task: u64, exit: ChildExit)
        requires
            old(self).wf(),
        ensures
            final(self).wf(),
            final(self)@ == (SupervisorView { life: old(self)@.life.exited(task), ..old(self)@ }),
    {
        let _info = self.lifecycle.process_exit(task, exit);
    }

    /// All tasks have ended.
    pub fn drained(&mut self)
        requires
            old(self).wf(),
        ensures
            final(self).wf(),
            final(self)@ == (SupervisorView {
                life: LifecycleView { tasks: Map::empty(), ..old(self)@.life },
                ..old(self)@
            }),
    {
        self.lifecycle.clear_tasks();
    }

    /// Second step of restarting all children, once they have ended: records the
    /// restart. Returns the children to start anew, or, if the supervisor-wide
    /// limit is exceeded, the number of restarts.
    pub fn begin_cascade(&mut self, now: Instant) -> (r: Result<Vec<String>, u64>)
        requires
            old(self).wf(),
            old(self)@.manager.room(),
        ensures
            final(self).wf(),
            final(self)@ == (SupervisorView {
                manager: old(self)@.manager.all_recorded(now),
                ..old(self)@
            }),
            match r {
                Ok(names) => !final(self)@.manager.intensity.over_limit() && sequences::texts(
                    names@,
                ) == old(self)@.cascade(),
                Err(total_restarts) => final(self)@.manager.intensity.over_limit()
                    && total_restarts == final(self)@.manager.intensity.total_restarts,
            },
    {
        if !self.restart_mgr.record_all(now) {
            return Err(self.restart_mgr.intensity_total_restarts());
        }
        let mut names: Vec<String> = Vec::new();
        assert(sequences::texts(names@) =~= Seq::<Seq<char>>::empty());
        if self.cancelled {
            return Ok(names);
        }
        let ghost order = self@.order;
        let ghost specs = self.specs@;
        let ghost keep = |name: Seq<char>|
            specs.dom().contains(name) && !(specs[name].restart is Temporary);
        let mut i: usize = 0;
        proof {
            sequences::lemma_filter_ends(order, keep);
        }
        while i < self.child_order.len()
            invariant
                self.wf(),
                order == sequences::texts(self.child_order@),
                specs == self.specs@,
                i <= order.len(),
                keep == (|name: Seq<char>|
                    specs.dom().contains(name) && !(specs[name].restart is Temporary)),
                sequences::texts(names@) == order.take(i as int).filter(keep),
            decreases order.len() - i,
        {
            let name = self.child_order[i].clone();
            proof {
                assert(order[i as int] == name@);
                sequences::lemma_filter_step(order, i as int, keep);
            }
            match self.specs.get(name.as_str()) {
                None => {},
                Some(spec) => {
                    match spec.restart {
                        ChildRestart::Temporary => {},
                        _ => {
                            proof {
                                sequences::lemma_texts_push(names@, name);
                            }
                            names.push(name);
                        },
                    }
                },
            }
            i += 1;
        }
        proof {
            sequences::lemma_filter_ends(order, keep);
        }
        Ok(names)
    }

    /// Orders the spawn of one child of a cascade, with the siblings that run
    /// again as its peers. A child that cannot be started anew is reported.
    pub fn plan_cascade_restart(&self, name: &str) -> (r: Result<SpawnOrder, SupervisorEvent>)
        requires
            self.wf(),
            self@.generations_fit(),
        ensures
            ({
                let known = self@.life.children.dom().contains(name@);
                let child = self@.life.children[name@];
                match r {
                    Ok(order) => {
                        &&& known && !child.alive
                        &&& order.name@ == name@
                        &&& order.id == child.id
                        &&& order.generation == child.generation + 1
                        &&& self@.are_peers(order.peers@, name@)
                        &&& self@.is_respawn(order, name@)
                    },
                    Err(event) => {
                        &&& !known || child.alive
                        &&& event@ == (EventView::ChildSpawnFailed {
                            name: name@,
                            error: if known {
                                "failed to spawn agent: "@
                                    + "cannot restart: child is still alive"@
                            } else {
                                "child not found: "@ + name@
                            },
                        })
                    },
                }
            }),
    {
        match self.lifecycle.plan_restart(name) {
            Ok(plan) => Ok(
                SpawnOrder {
                    name: name.to_owned(),
                    id: plan.id,
                    generation: plan.new_gen,
                    peers: self.lifecycle.peers_excluding(name),
                },
            ),
            Err(error) => Err(
                SupervisorEvent::ChildSpawnFailed {
                    name: name.to_owned(),
                    error: error.to_string(),
                },
            ),
        }
    }

    /// Orders the spawn of a child whose delay has passed, unless the child has
    /// been started since or is gone.
    pub fn plan_pending_restart(&self, restart: &PendingRestart) -> (r: Option<SpawnOrder>)
        requires
            self.wf(),
            self@.generations_fit(),
        ensures
            match r {
                Some(order) => {
                    let child = self@.life.children[restart.name@];
                    &&& self@.still_due(restart@)
                    &&& order.name@ == restart.name@
                    &&& order.id == child.id
                    &&& order.generation == child.generation + 1
                    &&& self@.are_peers(order.peers@, restart.name@)
                    &&& self@.is_respawn(order, restart.name@)
                },
                None => !self@.still_due(restart@),
            },
    {
        let name = restart.name.as_str();
        let child = match self.lifecycle.get(name) {
            None => {
                return None;
            },
            Some(child) => child,
        };
        if child.alive || child.generation != restart.old_gen {
            return None;
        }
        if !self.specs.contains(name) {
            return None;
        }
        match self.lifecycle.plan_restart(name) {
            Err(_) => None,
            Ok(plan) => Some(
                SpawnOrder {
                    name: name.to_owned(),
                    id: plan.id,
                    generation: plan.new_gen,
                    peers: self.lifecycle.peers_excluding(name),
                },
            ),
        }
    }

    /// Records that a child was started anew as `task`. Returns the event to
    /// emit; a restart that was put off carries the child's current delay.
    pub fn child_restarted(
        &mut self,
        name: &str,
        task: u64,
        progress: ProgressState,
        delayed: bool,
    ) -> (r: SupervisorEvent)
        requires
            old(self).wf(),
            old(self)@.life.children.dom().contains(name@),
            old(self)@.life.children[name@].generation < u64::MAX,
        ensures
            final(self).wf(),
            final(self)@ == (SupervisorView {
                life: old(self)@.life.restarted(name@, task, progress),
                ..old(self)@
            }),
            r matches SupervisorEvent::ChildRestarted { name: n, old_gen, new_gen, delay } && n@
                == name@ && old_gen == old(self)@.life.children[name@].generation && new_gen
                == old_gen + 1 && delay.nanos == (if delayed {
                old(self)@.manager.backoff(name@)
            } else {
                0
            }),
            old(self)@.is_restart_event(name@, delayed, r),
    {
        let new_gen = self.lifecycle.record_restart(name, task, progress);
        let delay = if delayed {
            self.restart_mgr.backoff_delay(name)
        } else {
            Duration { nanos: 0 }
        };
        SupervisorEvent::ChildRestarted {
            name: name.to_owned(),
            old_gen: new_gen - 1,
            new_gen,
            delay,
        }
    }

    /// The supervisor begins its work: returns the event to emit.
    pub fn begin(&self) -> (r: SupervisorEvent)
        ensures
            r@ == EventView::SupervisorStarted,
    {
        SupervisorEvent::SupervisorStarted
    }

    /// All children are to be stopped: returns the event to emit and the
    /// children that have yet to be told to stop.
    pub fn begin_drain(&mut self) -> (r: (SupervisorEvent, Vec<String>))
        requires
            old(self).wf(),
        ensures
            final(self).wf(),
            final(self)@ == (SupervisorView {
                life: old(self)@.life.all_cancelled(None),
                ..old(self)@
            }),
            r.0@ == EventView::SupervisorStopping,
            sequences::texts(r.1@) == old(self)@.life.cancellable(None),
    {
        (SupervisorEvent::SupervisorStopping, self.lifecycle.cancel_all())
    }

    /// The supervisor shuts down: no child is restarted any more.
    pub fn cancel(&mut self)
        requires
            old(self).wf(),
        ensures
            final(self).wf(),
            final(self)@ == (SupervisorView { cancelled: true, ..old(self)@ }),
    {
        self.cancelled = true;
    }

    /// Whether the supervisor shuts down.
    pub fn is_cancelled(&self) -> (r: bool)
        ensures
            r == self@.cancelled,
    {
        self.cancelled
    }

    /// When the next restart falls due.
    pub fn next_pending_restart(&self) -> (r: Option<Instant>)
        ensures
            match r {
                None => self@.pending.len() == 0,
                Some(when) => {
                    &&& exists|i: int|
                        0 <= i < self@.pending.len() && (#[trigger] self@.pending[i]).when == when
                    &&& forall|i: int|
                        0 <= i < self@.pending.len() ==> when.nanos <= (
                        #[trigger] self@.pending[i]).when.nanos
                },
            },
            is_next_due(self@.pending, r),
    {
        if self.pending_restarts.len() == 0 {
            return None;
        }
        let mut when = self.pending_restarts[0].when;
        let mut i: usize = 1;
        assert(self@.pending[0].when == when);
        while i < self.pending_restarts.len()
            invariant
                1 <= i <= self@.pending.len(),
                self@.pending.len() == self.pending_restarts@.len(),
                exists|j: int|
                    0 <= j < self@.pending.len() && (#[trigger] self@.pending[j]).when == when,
                forall|j: int|
                    0 <= j < i ==> when.nanos <= (#[trigger] self@.pending[j]).when.nanos,
            decreases self@.pending.len() - i,
        {
            assert(self@.pending[i as int].when == self.pending_restarts@[i as int].when);
            if self.pending_restarts[i].when.nanos < when.nanos {
                when = self.pending_restarts[i].when;
            }
            i += 1;
        }
        Some(when)
    }

    /// Takes out the first restart in the list whose delay has passed. The last
    /// one takes its place.
    pub fn pop_ready_restart(&mut self, now: Instant) -> (r: Option<PendingRestart>)
        requires
            old(self).wf(),
        ensures
            final(self).wf(),
            match r {
                None => {
                    &&& forall|i: int|
                        0 <= i < old(self)@.pending.len() ==> (
                        #[trigger] old(self)@.pending[i]).when.nanos > now.nanos
                    &&& final(self)@ == old(self)@
                },
                Some(restart) => exists|i: int| #[trigger]
                    is_first_ready(old(self)@.pending, now, i) && restart@ == old(self)@.pending[i]
                        && final(self)@ == (SupervisorView {
                        pending: old(self)@.pending.update(
                            i,
                            old(self)@.pending.last(),
                        ).drop_last(),
                        ..old(self)@
                    }),
            },
            r matches Some(restart) ==> old(self)@.is_taken_out(now, restart@, final(self)@),
    {
        let ghost before = self@.pending;
        let mut i: usize = 0;
        while i < self.pending_restarts.len()
            invariant
                *self == *old(self),
                self.wf(),
                before == self@.pending,
                before.len() == self.pending_restarts@.len(),
                i <= before.len(),
                forall|j: int| 0 <= j < i ==> (#[trigger] before[j]).when.nanos > now.nanos,
            decreases before.len() - i,
        {
            assert(before[i as int].when == self.pending_restarts@[i as int].when);
            if self.pending_restarts[i].when.nanos <= now.nanos {
                let restart = self.pending_restarts.swap_remove(i);
                assert(is_first_ready(before, now, i as int));
                assert(self@.pending =~= before.update(i as int, before.last()).drop_last());
                return Some(restart);
            }
            i += 1;
        }
        None
    }

    /// Reports every hung child and marks it as cancelled and hung.
    pub fn check_hangs(&mut self, now: Instant) -> (r: Vec<HangReport>)
        requires
            old(self).wf(),
        ensures
            final(self).wf(),
            final(self)@ == old(self)@.hung_cancelled(now),
            old(self)@.are_hang_reports(r@, now),
    {
        let ghost before = self@;
        let hangs = self.lifecycle.check_hangs(&self.specs, now);
        let ghost names = before.life.hung_at(before.specs, now);
        let mut reports: Vec<HangReport> = Vec::new();
        let mut i: usize = 0;
        proof {
            self.lifecycle.lemma_consistent();
            lemma_hung_names(before, now);
        }
        while i < hangs.len()
            invariant
                self.wf(),
                before.life.consistent(),
                names == before.life.hung_at(before.specs, now),
                names.no_duplicates(),
                forall|j: int|
                    0 <= j < names.len() ==> before.life.children.dom().contains(
                        #[trigger] names[j],
                    ) && lifecycle::is_hung(before.life.children, before.specs, names[j], now),
                i <= hangs@.len(),
                hangs@.len() == names.len(),
                forall|j: int|
                    0 <= j < hangs@.len() ==> {
                        let name = names[j];
                        &&& (#[trigger] hangs@[j]).name@ == name
                        &&& hangs@[j].generation == before.life.children[name].generation
                        &&& before.life.children[name].progress matches Some(progress)
                        &&& hangs@[j].elapsed.nanos == now.nanos - progress.last_progress.nanos
                    },
                self@ == (SupervisorView { life: self@.life, ..before }),
                self@.life == (LifecycleView { children: self@.life.children, ..before.life }),
                self@.life.children.dom() == before.life.children.dom(),
                forall|name: Seq<char>| #[trigger]
                    before.life.children.dom().contains(name) ==> self@.life.children[name] == (if names.take(
                        i as int,
                    ).contains(name) {
                        ChildRecord { hung: true, ..before.life.children[name].cancelled() }
                    } else {
                        before.life.children[name]
                    }),
                reports@.len() == i,
                forall|j: int| 0 <= j < i ==> before.is_hang_report(#[trigger] reports@[j], names[j], now),
            decreases hangs@.len() - i,
        {
            let hung = &hangs[i];
            let ghost name = names[i as int];
            proof {
                assert(names.take(i + 1) =~= names.take(i as int).push(name));
                if names.take(i as int).contains(name) {
                    let j = names.take(i as int).index_of(name);
                    assert(names[j] == name);
                }
            }
            let cancel = self.lifecycle.cancel_child(hung.name.as_str());
            assert forall|n: Seq<char>| #[trigger] before.life.children.dom().contains(n) implies self@.life.children[n] == (if names.take(i + 1).contains(n) {
                ChildRecord { hung: true, ..before.life.children[n].cancelled() }
            } else {
                before.life.children[n]
            }) by {
                if n == name {
                    assert(names.take(i as int).push(name)[i as int] == name);
                } else if names.take(i as int).contains(n) {
                    let j = names.take(i as int).index_of(n);
                    assert(names.take(i as int).push(name)[j] == n);
                } else if names.take(i + 1).contains(n) {
                    let j = names.take(i + 1).index_of(n);
                    assert(names.take(i as int)[j] == n);
                }
            }
            reports.push(
                HangReport {
                    event: SupervisorEvent::HangDetected {
                        name: hung.name.clone(),
                        generation: hung.generation,
                        elapsed: hung.elapsed,
                    },
                    name: hung.name.clone(),
                    cancel,
                },
            );
            i += 1;
        }
        proof {
            assert(names.take(names.len() as int) =~= names);
            let goal = before.hung_cancelled(now);
            assert forall|n: Seq<char>| #[trigger] before.life.children.dom().contains(n) implies self@.life.children[n] == goal.life.children[n] by {
                lemma_hung_membership(before, n, now);
            }
            assert(self@.life.children =~= goal.life.children);
        }
        reports
    }

    /// The periodic check: hung children are reported and cancelled. If the
    /// budget of the run is exhausted, the event that says so is returned too,
    /// and the supervisor is to be drained.
    pub fn tick(&mut self, now: Instant, budget: Option<&BudgetTracker>) -> (r: (
        Vec<HangReport>,
        Option<SupervisorEvent>,
    ))
        requires
            old(self).wf(),
        ensures
            final(self).wf(),
            final(self)@ == old(self)@.hung_cancelled(now),
            old(self)@.are_hang_reports(r.0@, now),
            is_global_budget_event(budget_view(budget), r.1),
    {
        let reports = self.check_hangs(now);
        (reports, check_global_budget(budget))
    }
}

/// Whether `event` is the event of an exhausted run: there is one if and only if
/// the global budget is tripped.
pub open spec fn is_global_budget_event(
    budget: Option<BudgetView>,
    event: Option<SupervisorEvent>,
) -> bool {
    match event {
        Some(event) => {
            &&& budget matches Some(budget)
            &&& budget.global.tripped
            &&& event@ == (EventView::BudgetExceeded {
                name: "__global__"@,
                used: budget.global.used,
                limit: match budget.global.limit {
                    Some(limit) => limit,
                    None => 0,
                },
            })
        },
        None => budget matches Some(budget) ==> !budget.global.tripped,
    }
}

/// The event to emit if the budget of the run is exhausted.
pub fn check_global_budget(budget: Option<&BudgetTracker>) -> (r: Option<SupervisorEvent>)
    ensures
        is_global_budget_event(budget_view(budget), r),
{
    match budget {
        None => None,
        Some(budget) => {
            if !budget.is_global_exceeded() {
                return None;
            }
            let usage = budget.run_usage();
            let limit = match usage.limit {
                Some(limit) => limit,
                None => 0,
            };
            Some(
                SupervisorEvent::BudgetExceeded {
                    name: "__global__".to_owned(),
                    used: usage.used,
                    limit,
                },
            )
        },
    }
}

/// The error of a start whose spawn failed.
pub fn start_failed(error: &SupervisorError) -> (r: SupervisorError)
    ensures
        r matches SupervisorError::SpawnFailed(what) && what@ == error.text(),
{
    SupervisorError::SpawnFailed(error.to_string())
}

/// The event of a restart whose spawn failed.
pub fn restart_failed(name: &str, error: &SupervisorError) -> (r: SupervisorEvent)
    ensures
        r@ == (EventView::ChildSpawnFailed {
            name: name@,
            error: "failed to spawn agent: "@ + error.text(),
        }),
{
    let failed = start_failed(error);
    SupervisorEvent::ChildSpawnFailed { name: name.to_owned(), error: failed.to_string() }
}

proof fn lemma_hung_names(state: SupervisorView, now: Instant)
    requires
        state.life.consistent(),
    ensures
        ({
            let names = state.life.hung_at(state.specs, now);
            &&& names.no_duplicates()
            &&& forall|j: int|
                0 <= j < names.len() ==> state.life.children.dom().contains(#[trigger] names[j])
                    && lifecycle::is_hung(state.life.children, state.specs, names[j], now)
        }),
{
    let keep = |name: Seq<char>| lifecycle::is_hung(state.life.children, state.specs, name, now);
    sequences::lemma_filter_subset(state.life.names, keep);
    let names = state.life.hung_at(state.specs, now);
    assert forall|j: int| 0 <= j < names.len() implies state.life.children.dom().contains(
        #[trigger] names[j],
    ) && lifecycle::is_hung(state.life.children, state.specs, names[j], now) by {
        assert(keep(names[j]));
        assert(state.life.names.contains(names[j]));
    }
}

proof fn lemma_hung_membership(state: SupervisorView, name: Seq<char>, now: Instant)
    requires
        state.life.consistent(),
        state.life.children.dom().contains(name),
    ensures
        state.life.hung_at(state.specs, now).contains(name) <==> lifecycle::is_hung(
            state.life.children,
            state.specs,
            name,
            now,
        ),
{
    let keep = |name: Seq<char>| lifecycle::is_hung(state.life.children, state.specs, name, now);
    sequences::lemma_filter_subset(state.life.names, keep);
    assert(state.life.names.contains(name));
    let names = state.life.hung_at(state.specs, now);
    if names.contains(name) {
        let j = names.index_of(name);
        assert(keep(names[j]));
    }
}

impl SupervisorView {
    /// The peers of `name` are the siblings that run, in order of their first
    /// starts.
    pub open spec fn are_peers(self, peers: Seq<ChildAddress>, name: Seq<char>) -> bool {
        &&& peers.len() == self.life.alive_except(name).len()
        &&& forall|i: int|
            0 <= i < peers.len() ==> {
                &&& (#[trigger] peers[i]).name@ == self.life.alive_except(name)[i]
                &&& peers[i].id == self.life.children[peers[i].name@].id
            }
    }

    /// The report on the hung child `name`.
    pub open spec fn is_hang_report(self, report: HangReport, name: Seq<char>, now: Instant) -> bool {
        &&& report.name@ == name
        &&& report.cancel == self.life.children[name].cancellable
        &&& self.life.children[name].progress matches Some(progress)
        &&& report.event matches SupervisorEvent::HangDetected { name: n, generation, elapsed }
        &&& n@ == name
        &&& generation == self.life.children[name].generation
        &&& elapsed.nanos == now.nanos - progress.last_progress.nanos
    }

    /// One report for each hung child, in order of first start.
    pub open spec fn are_hang_reports(self, reports: Seq<HangReport>, now: Instant) -> bool {
        let names = self.life.hung_at(self.specs, now);
        &&& reports.len() == names.len()
        &&& forall|i: int|
            0 <= i < reports.len() ==> self.is_hang_report(#[trigger] reports[i], names[i], now)
    }
}

/// What is said where the supervisor-wide limit is exceeded after `total_restarts`:
/// the event to emit, and the error with which the supervisor ends.
pub fn give_up(total_restarts: u64) -> (r: (SupervisorEvent, SupervisorError))
    ensures
        r.0@ == (EventView::RestartIntensityExceeded { total_restarts }),
        r.1 == (SupervisorError::RestartIntensityExceeded { total_restarts }),
{
    (
        SupervisorEvent::RestartIntensityExceeded { total_restarts },
        SupervisorError::RestartIntensityExceeded { total_restarts },
    )
}

/// A child keeps its identifier across restarts, its generation grows by one
/// each time, and it runs again.
pub proof fn law_restart_keeps_identity(
    life: LifecycleView,
    name: Seq<char>,
    task: u64,
    progress: ProgressState,
)
    requires
        life.children.dom().contains(name),
        life.children[name].generation < u64::MAX,
    ensures
        ({
            let after = life.restarted(name, task, progress).children[name];
            &&& after.id == life.children[name].id
            &&& after.generation == life.children[name].generation + 1
            &&& after.alive
        }),
{
}

/// A restart that fell due is carried out at most once: after the child was
/// started anew, an order for the generation before no longer applies.
pub proof fn law_stale_restart_is_ignored(
    state: SupervisorView,
    restart: PendingView,
    task: u64,
    progress: ProgressState,
)
    requires
        state.still_due(restart),
        restart.old_gen < u64::MAX,
    ensures
        !(SupervisorView {
            life: state.life.restarted(restart.name, task, progress),
            ..state
        }).still_due(restart),
{
}

/// No child is its own peer, and no dead child is a peer.
pub proof fn law_peers_are_living_siblings(
    state: SupervisorView,
    peers: Seq<ChildAddress>,
    child: Seq<char>,
    i: int,
)
    requires
        state.are_peers(peers, child),
        0 <= i < peers.len(),
    ensures
        peers[i].name@ != child,
        state.life.names.contains(peers[i].name@),
        state.life.children[peers[i].name@].alive,
{
    let keep = state.life.runs_beside(child);
    sequences::lemma_filter_subset(state.life.names, keep);
    assert(keep(state.life.alive_except(child)[i]));
}

/// The end of a task leaves all children but the one it belongs to as they were,
/// and that one is dead.
pub proof fn law_exit_is_local(
    state: SupervisorView,
    task: u64,
    exit: ChildExit,
    now: Instant,
    other: Seq<char>,
)
    requires
        state.life.owner(task) != Some(other),
    ensures
        ({
            let after = state.after_exit(task, exit, now);
            &&& after.life.children.dom() == state.life.children.dom()
            &&& after.life.children[other] == state.life.children[other]
            &&& state.life.owner(task) matches Some(name) ==> !after.life.children[name].alive
        }),
{
    assert(state.after_exit(task, exit, now).life.children.dom() =~= state.life.children.dom());
}

/// A supervisor that shuts down restarts no child.
pub proof fn law_no_restart_while_shutting_down(
    state: SupervisorView,
    task: u64,
    exit: ChildExit,
    now: Instant,
)
    requires
        state.cancelled,
    ensures
        state.exit_step(task, exit, now) is Continue,
        state.after_exit(task, exit, now).pending == state.pending,
        state.after_exit(task, exit, now).manager == state.manager,
        state.cascade() == Seq::<Seq<char>>::empty(),
{
}

/// A child whose budget is exhausted is not restarted: no restart is put off,
/// none is recorded, and its siblings go on.
pub proof fn law_budget_exit_schedules_nothing(state: SupervisorView, task: u64, now: Instant)
    ensures
        state.exit_step(task, ChildExit::BudgetExceeded, now) is Continue,
        state.after_exit(task, ChildExit::BudgetExceeded, now).pending == state.pending,
        state.after_exit(task, ChildExit::BudgetExceeded, now).manager == state.manager,
{
}

/// A child that was stopped on request and shuts down stays down, unless its
/// policy is to restart it always: no restart is put off, none is recorded, and
/// its siblings go on.
pub proof fn law_stopped_child_stays_down(
    state: SupervisorView,
    name: Seq<char>,
    task: u64,
    now: Instant,
)
    requires
        state.aligned(),
        state.life.owner(task) == Some(name),
        state.life.children.dom().contains(name),
        !state.life.children[name].hung,
        !(state.specs[name].restart is Permanent),
    ensures
        ({
            let stopped = SupervisorView { life: state.life.stopped(name), ..state };
            let after = stopped.after_exit(task, ChildExit::Shutdown, now);
            &&& !after.life.children[name].alive
            &&& after.pending == state.pending
            &&& after.manager == state.manager
            &&& stopped.exit_step(task, ChildExit::Shutdown, now) is Continue
        }),
{
}

/// A cascade starts no temporary child, and only children that have a
/// specification.
pub proof fn law_cascade_spares_temporary(state: SupervisorView, name: Seq<char>)
    requires
        state.cascade().contains(name),
    ensures
        state.order.contains(name),
        state.specs.dom().contains(name),
        !(state.specs[name].restart is Temporary),
{
    let keep = |n: Seq<char>| state.specs.dom().contains(n) && !(state.specs[n].restart is Temporary);
    sequences::lemma_filter_subset(state.order, keep);
    if !state.cancelled {
        let i = state.cascade().index_of(name);
        assert(keep(state.cascade()[i]));
    }
}

/// A hung child is told to stop at most once per generation: after the check no
/// child is both hung and cancellable.
pub proof fn law_hang_check_cancels_once(state: SupervisorView, name: Seq<char>, now: Instant)
    requires
        state.life.children.dom().contains(name),
        lifecycle::is_hung(state.life.children, state.specs, name, now),
    ensures
        !state.hung_cancelled(now).life.children[name].cancellable,
        state.hung_cancelled(now).life.children[name].hung,
{
}

/// Restart policies and specifications are aligned in a supervisor without
/// children, and stay so whatever happens to it: a child is taken on, is started
/// once it has a specification, reports, is stopped, exits or is restarted; hung
/// children or all but one are cancelled; the children are drained; a cascade is
/// recorded; restarts are put off or carried out; the supervisor shuts down.
pub proof fn law_policies_stay_aligned(
    state: SupervisorView,
    spec: ChildSpec,
    view: ChildRestartView,
    task: u64,
    exit: ChildExit,
    name: Seq<char>,
    id: AgentId,
    progress: ProgressState,
    exclude: Option<Seq<char>>,
    pending: Seq<PendingView>,
    now: Instant,
)
    requires
        state.aligned(),
        view.policy == spec.restart,
    ensures
        (SupervisorView {
            life: LifecycleView::empty(),
            specs: Map::empty(),
            manager: ManagerView { children: Map::empty(), ..state.manager },
            ..state
        }).aligned(),
        (SupervisorView {
            specs: state.specs.insert(spec.name@, spec),
            manager: ManagerView {
                children: state.manager.children.insert(spec.name@, view),
                ..state.manager
            },
            ..state
        }).aligned(),
        state.specs.dom().contains(name) ==> (SupervisorView {
            life: state.life.started(name, id, task, progress),
            order: state.order.push(name),
            ..state
        }).aligned(),
        state.after_exit(task, exit, now).aligned(),
        (SupervisorView { manager: state.manager.all_recorded(now), ..state }).aligned(),
        state.life.children.dom().contains(name) ==> (SupervisorView {
            life: state.life.restarted(name, task, progress),
            ..state
        }).aligned(),
        state.hung_cancelled(now).aligned(),
        (SupervisorView { life: state.life.stopped(name), ..state }).aligned(),
        state.observed(name, progress).aligned(),
        (SupervisorView { life: state.life.all_cancelled(exclude), ..state }).aligned(),
        (SupervisorView { life: state.life.exited(task), ..state }).aligned(),
        (SupervisorView {
            life: LifecycleView { tasks: Map::empty(), ..state.life },
            ..state
        }).aligned(),
        (SupervisorView { pending, ..state }).aligned(),
        (SupervisorView { cancelled: true, ..state }).aligned(),
{
    let started = SupervisorView {
        specs: state.specs.insert(spec.name@, spec),
        manager: ManagerView {
            children: state.manager.children.insert(spec.name@, view),
            ..state.manager
        },
        ..state
    };
    assert forall|n: Seq<char>| #[trigger] started.specs.dom().contains(n) implies (
    started.manager.children[n].policy == started.specs[n].restart) by {
        if n != spec.name@ {
            assert(state.specs.dom().contains(n));
        }
    }
    assert forall|n: Seq<char>| #[trigger]
        started.specs.dom().contains(n) <==> started.manager.children.dom().contains(n) by {
        assert(state.specs.dom().contains(n) <==> state.manager.children.dom().contains(n));
    }
    let after = state.after_exit(task, exit, now);
    assert forall|n: Seq<char>| #[trigger] after.life.children.dom().contains(n) implies (
    after.specs.dom().contains(n)) by {
        assert(state.life.children.dom().contains(n));
    }
    assert forall|n: Seq<char>| #[trigger]
        after.specs.dom().contains(n) <==> after.manager.children.dom().contains(n) by {
        assert(state.specs.dom().contains(n) <==> state.manager.children.dom().contains(n));
    }
}

/// A child whose last report says that it is not busy is left alone by the hang
/// check, however long ago it reported: nothing is said of it, and its record stays
/// as it was. So is a child that is not overdue.
pub proof fn law_hang_check_leaves_waiting_children_alone(
    state: SupervisorView,
    reports: Seq<HangReport>,
    name: Seq<char>,
    now: Instant,
)
    requires
        state.life.consistent(),
        state.life.children.dom().contains(name),
        state.are_hang_reports(reports, now),
        state.life.children[name].progress matches Some(progress) ==> !progress.busy || (
        state.specs[name].hang_timeout matches Some(timeout) ==> now.nanos
            <= progress.last_progress.nanos + timeout.nanos),
    ensures
        !state.life.hung_at(state.specs, now).contains(name),
        state.hung_cancelled(now).life.children[name] == state.life.children[name],
        forall|i: int| 0 <= i < reports.len() ==> (#[trigger] reports[i]).name@ != name,
{
    lifecycle::law_waiting_children_are_not_hung(state.life, state.specs, name, now);
    let names = state.life.hung_at(state.specs, now);
    assert forall|i: int| 0 <= i < reports.len() implies (#[trigger] reports[i]).name@ != name by {
        assert(state.is_hang_report(reports[i], names[i], now));
        assert(names.contains(names[i]));
    }
}

/// A child that runs, is busy, and has not reported for longer than its timeout is
/// reported, with the time since its last report, and is told to stop unless it has
/// been. It is marked as hung; all else about it stays, and so does every child
/// that is not hung.
pub proof fn law_overdue_children_are_reported_and_cancelled(
    state: SupervisorView,
    reports: Seq<HangReport>,
    name: Seq<char>,
    now: Instant,
)
    requires
        state.life.consistent(),
        state.life.children.dom().contains(name),
        state.are_hang_reports(reports, now),
        state.life.children[name].alive,
        state.specs.dom().contains(name),
        state.specs[name].hang_timeout matches Some(timeout)
            && state.life.children[name].progress matches Some(progress) && progress.busy
            && now.nanos - progress.last_progress.nanos > timeout.nanos,
    ensures
        exists|i: int|
            0 <= i < reports.len() && (#[trigger] reports[i]).name@ == name && reports[i].cancel
                == state.life.children[name].cancellable && (
            reports[i].event matches SupervisorEvent::HangDetected { name: n, generation, elapsed }
                && n@ == name && generation == state.life.children[name].generation
                && elapsed.nanos == now.nanos
                - state.life.children[name].progress->0.last_progress.nanos),
        state.hung_cancelled(now).life.children[name] == (ChildRecord {
            cancellable: false,
            hung: true,
            ..state.life.children[name]
        }),
        state.hung_cancelled(now).life.children.dom() == state.life.children.dom(),
        state.hung_cancelled(now).life.tasks == state.life.tasks,
        state.hung_cancelled(now).pending == state.pending,
        state.hung_cancelled(now).manager == state.manager,
        state.hung_cancelled(now).specs == state.specs,
        state.hung_cancelled(now).cancelled == state.cancelled,
{
    lemma_hung_membership(state, name, now);
    let names = state.life.hung_at(state.specs, now);
    let i = names.index_of(name);
    assert(names[i] == name);
    assert(state.is_hang_report(reports[i], names[i], now));
    assert(state.hung_cancelled(now).life.children.dom() =~= state.life.children.dom());
}

/// A hung child comes back: once the hang check told it to stop, its exit as shut
/// down calls for a restart like a failure, unless it is temporary.
pub proof fn law_hung_child_is_restarted(
    state: SupervisorView,
    name: Seq<char>,
    task: u64,
    at: Instant,
    now: Instant,
)
    requires
        state.aligned(),
        !state.cancelled,
        state.life.owner(task) == Some(name),
        state.life.children[name].alive,
        state.specs[name].hang_timeout matches Some(timeout)
            && state.life.children[name].progress matches Some(progress) && progress.busy
            && at.nanos - progress.last_progress.nanos > timeout.nanos,
        !(state.specs[name].restart is Temporary),
    ensures
        ({
            let checked = state.hung_cancelled(at);
            let decision = checked.decision(name, ChildExit::Shutdown, now);
            &&& checked.life.owner(task) == Some(name)
            &&& !(decision is NoRestart)
            &&& decision is RestartAfter ==> checked.after_exit(
                task,
                ChildExit::Shutdown,
                now,
            ).pending.len() == state.pending.len() + 1
        }),
{
    assert(state.life.children.dom().contains(name));
    assert(state.specs.dom().contains(name));
    assert(state.manager.children.dom().contains(name));
}

/// The end of a child's task is decided on with what is known of the child, its
/// hang among it. A restart that is granted to the child alone is put off by its
/// delay, for the generation that ended; nothing else is put off. Neither the
/// specifications nor the order of starts change.
pub proof fn law_restart_waits_for_its_delay(
    state: SupervisorView,
    task: u64,
    name: Seq<char>,
    exit: ChildExit,
    now: Instant,
)
    requires
        state.life.owner(task) == Some(name),
        !state.cancelled,
        state.manager.delays_fit(now),
    ensures
        ({
            let after = state.after_exit(task, exit, now);
            let hung = state.life.children[name].hung;
            &&& after.manager == state.manager.decided(name, exit, hung, now)
            &&& match state.manager.decision(name, exit, hung, now) {
                RestartDecision::RestartAfter { delay } => {
                    &&& after.pending.len() == state.pending.len() + 1
                    &&& after.pending.drop_last() == state.pending
                    &&& after.pending.last().name == name
                    &&& after.pending.last().when.nanos == now.nanos + delay.nanos
                    &&& after.pending.last().old_gen == state.life.children[name].generation
                },
                _ => after.pending == state.pending,
            }
            &&& after.life == state.life.exited(task)
            &&& after.specs == state.specs
            &&& after.order == state.order
            &&& after.cancelled == state.cancelled
        }),
{
    let after = state.after_exit(task, exit, now);
    let decision = state.manager.decision(name, exit, state.life.children[name].hung, now);
    if decision is RestartAfter {
        assert(state.manager.children.dom().contains(name));
        assert(after.pending.drop_last() =~= state.pending);
    }
}

/// What is told of the end of a task: first the exit itself, then the budget if
/// that ended it, then the limit if one forbids the restart. The supervisor gives
/// up exactly where its own limit is exceeded, and restarts all children exactly
/// where the decision says so. Of a task that belongs to nobody nothing is told.
pub proof fn law_exits_are_told(
    state: SupervisorView,
    task: u64,
    exit: ChildExit,
    budget: Option<BudgetView>,
    now: Instant,
)
    ensures
        ({
            let events = state.exit_events(task, exit, budget, now);
            let step = state.exit_step(task, exit, now);
            match state.life.owner(task) {
                None => events.len() == 0 && step is Continue,
                Some(name) => {
                    let child = state.life.children[name];
                    let decision = state.manager.decision(name, exit, child.hung, now);
                    &&& events.len() >= 1
                    &&& events[0] == (EventView::ChildExited {
                        name,
                        generation: child.generation,
                        exit,
                    })
                    &&& exit is BudgetExceeded && budget is None ==> events.contains(
                        EventView::BudgetExceeded { name, used: 0, limit: 0 },
                    )
                    &&& exit is BudgetExceeded && (budget matches Some(budget)
                        && budget.agents.dom().contains(name)
                        && budget.agents[name].limit is Some) ==> events.contains(
                        EventView::BudgetExceeded {
                            name,
                            used: budget->0.agents[name].used,
                            limit: budget->0.agents[name].limit->0,
                        },
                    )
                    &&& !(exit is BudgetExceeded) && !(decision is ChildLimitExceeded) && !(
                    decision is IntensityExceeded) ==> events.len() == 1
                    &&& state.cancelled ==> step is Continue
                    &&& !state.cancelled ==> match decision {
                        RestartDecision::ChildLimitExceeded { restarts } => {
                            &&& step is Continue
                            &&& events.last() == (EventView::ChildRestartLimitExceeded {
                                name,
                                restarts,
                            })
                        },
                        RestartDecision::IntensityExceeded { total_restarts } => {
                            &&& step == (ExitStepView::GiveUp { total_restarts })
                            &&& events.last() == (EventView::RestartIntensityExceeded {
                                total_restarts,
                            })
                        },
                        RestartDecision::RestartAll => step == (ExitStepView::RestartAll {
                            trigger: name,
                        }),
                        _ => step is Continue,
                    }
                },
            }
        }),
{
    let events = state.exit_events(task, exit, budget, now);
    if let Some(name) = state.life.owner(task) {
        if exit is BudgetExceeded && budget_events(name, exit, budget).len() > 0 {
            assert(events[1] == budget_events(name, exit, budget)[0]);
            assert(events.contains(events[1]));
        }
    }
}

/// A cascade starts every child anew that has a specification and is not temporary,
/// in the order of their starts, unless the supervisor shuts down.
pub proof fn law_cascade_starts_all_others(state: SupervisorView, name: Seq<char>)
    requires
        !state.cancelled,
    ensures
        state.cascade().contains(name) <==> state.order.contains(name)
            && state.specs.dom().contains(name) && !(state.specs[name].restart is Temporary),
        state.cascade() == state.order.filter(
            |n: Seq<char>|
                state.specs.dom().contains(n) && (state.specs[n].restart is Permanent
                    || state.specs[n].restart is Transient),
        ),
{
    let keep = |n: Seq<char>| state.specs.dom().contains(n) && !(state.specs[n].restart is Temporary);
    let wanted = |n: Seq<char>|
        state.specs.dom().contains(n) && (state.specs[n].restart is Permanent
            || state.specs[n].restart is Transient);
    assert(keep =~= wanted);
    sequences::lemma_filter_subset(state.order, keep);
}

/// A restart that was put off at an exit is due when its delay has passed, as long
/// as nothing was done to the child since.
pub proof fn law_put_off_restarts_fall_due(
    state: SupervisorView,
    task: u64,
    name: Seq<char>,
    exit: ChildExit,
    now: Instant,
)
    requires
        state.aligned(),
        !state.cancelled,
        state.life.owner(task) == Some(name),
        state.manager.decision(
            name,
            exit,
            state.life.children[name].hung,
            now,
        ) is RestartAfter,
    ensures
        ({
            let after = state.after_exit(task, exit, now);
            after.still_due(after.pending.last())
        }),
{
    assert(state.life.children.dom().contains(name));
}

/// A restart is still due only for a child that is known, dead, of the generation
/// that ended, and specified.
pub proof fn law_only_dead_children_are_due(state: SupervisorView, restart: PendingView)
    ensures
        state.still_due(restart) <==> state.life.children.dom().contains(restart.name)
            && state.specs.dom().contains(restart.name) && !state.life.children[restart.name].alive
            && state.life.children[restart.name].generation == restart.old_gen,
{
}

/// Every sibling that runs is a peer, under its own identifier.
pub proof fn law_every_living_sibling_is_a_peer(
    state: SupervisorView,
    peers: Seq<ChildAddress>,
    child: Seq<char>,
    other: Seq<char>,
)
    requires
        state.life.consistent(),
        state.are_peers(peers, child),
        state.life.children.dom().contains(other),
        state.life.children[other].alive,
        other != child,
    ensures
        exists|i: int|
            0 <= i < peers.len() && (#[trigger] peers[i]).name@ == other && peers[i].id
                == state.life.children[other].id,
{
    lifecycle::law_siblings_are_all_the_others_that_run(state.life, child, other);
    let names = state.life.alive_except(child);
    let i = names.index_of(other);
    assert(peers[i].name@ == names[i]);
}

/// A report of progress is taken over for a child that runs and for no other; all
/// else stays as it was.
pub proof fn law_progress_is_taken_over(
    state: SupervisorView,
    name: Seq<char>,
    other: Seq<char>,
    progress: ProgressState,
)
    requires
        other != name,
    ensures
        ({
            let after = state.observed(name, progress);
            let heard = state.life.children.dom().contains(name)
                && state.life.children[name].progress is Some;
            &&& heard ==> after.life.children[name] == (ChildRecord {
                progress: Some(progress),
                ..state.life.children[name]
            })
            &&& !heard ==> after == state
            &&& after.life.children.dom() == state.life.children.dom()
            &&& after.life.children[other] == state.life.children[other]
            &&& after.life.names == state.life.names
            &&& after.life.tasks == state.life.tasks
            &&& after.manager == state.manager
            &&& after.pending == state.pending
            &&& after.specs == state.specs
        }),
{
    assert(state.observed(name, progress).life.children.dom() =~= state.life.children.dom());
}

/// The supervisor says that the budget of the run is exhausted if and only if it
/// is, with what was used and what was allowed.
pub proof fn law_exhausted_run_is_told(budget: BudgetView, event: Option<SupervisorEvent>)
    requires
        is_global_budget_event(Some(budget), event),
    ensures
        event is Some <==> budget.global.tripped,
        event matches Some(told) ==> {
            &&& told matches SupervisorEvent::BudgetExceeded { name, used, limit }
            &&& name@ == "__global__"@
            &&& used == budget.global.used
            &&& budget.global.limit matches Some(allowed) ==> limit == allowed
        },
{
}

/// A child that is taken on is restarted by the policy and within the limits of its
/// specification, and nothing counts against it yet. The other children, and what waits
/// to be restarted, stay as they were.
pub proof fn law_taken_on_children_have_a_clean_record(
    state: SupervisorView,
    spec: ChildSpec,
    other: Seq<char>,
)
    requires
        other != spec.name@,
    ensures
        ({
            let after = state.taken_on(spec);
            let record = after.manager.children[spec.name@];
            &&& after.specs.dom().contains(spec.name@)
            &&& after.specs[spec.name@] == spec
            &&& after.manager.children.dom().contains(spec.name@)
            &&& record.policy == spec.restart
            &&& record.tracker.policy == spec.config.restart_policy
            &&& record.tracker.stamps.len() == 0
            &&& after.manager.restart_count(spec.name@) == 0
            &&& after.specs[other] == state.specs[other]
            &&& after.manager.children[other] == state.manager.children[other]
            &&& after.manager.intensity == state.manager.intensity
            &&& after.manager.strategy == state.manager.strategy
            &&& after.life == state.life
            &&& after.order == state.order
            &&& after.pending == state.pending
            &&& after.cancelled == state.cancelled
        }),
{
}

/// A child that is started anew goes on under its name and identifier, one generation
/// on, and knows its living siblings.
pub proof fn law_respawned_child_goes_on(
    state: SupervisorView,
    order: SpawnOrder,
    name: Seq<char>,
    i: int,
)
    requires
        state.life.consistent(),
        state.is_respawn(order, name),
    ensures
        order.name@ == name,
        order.id == state.life.children[name].id,
        order.generation == state.life.children[name].generation + 1,
        0 <= i < order.peers@.len() ==> order.peers@[i].name@ != name
            && state.life.children[order.peers@[i].name@].alive,
{
    if 0 <= i < order.peers@.len() {
        law_peers_are_living_siblings(state, order.peers@, name, i);
    }
}

/// A restart is carried out once its delay has passed and not before, and each only
/// once: what is taken out was waiting and is due, and all the others go on waiting.
pub proof fn law_due_restarts_are_taken_out_once(
    state: SupervisorView,
    now: Instant,
    restart: PendingView,
    after: SupervisorView,
)
    requires
        state.is_taken_out(now, restart, after),
    ensures
        restart.when.nanos <= now.nanos,
        state.pending.contains(restart),
        after.pending.len() == state.pending.len() - 1,
        after.pending.to_multiset() == state.pending.to_multiset().remove(restart),
        after.life == state.life,
        after.manager == state.manager,
        after.specs == state.specs,
{
    broadcast use vstd::seq_lib::group_to_multiset_ensures;

    let i = choose|i: int| #[trigger]
        is_first_ready(state.pending, now, i) && restart == state.pending[i] && after == (
        SupervisorView {
            pending: state.pending.update(i, state.pending.last()).drop_last(),
            ..state
        });
    let waiting = state.pending;
    assert(waiting[i] == restart);
    let last = waiting.len() - 1;
    let init = waiting.drop_last();
    assert(waiting =~= init.push(waiting.last()));
    assert(waiting.to_multiset() =~= init.to_multiset().insert(waiting.last()));
    if i == last {
        assert(after.pending =~= init);
        assert(after.pending.to_multiset() =~= waiting.to_multiset().remove(restart));
    } else {
        assert(after.pending =~= init.update(i, waiting.last()));
        assert(init.update(i, waiting.last()) =~= init.remove(i).insert(i, waiting.last()));
        assert(init.remove(i).to_multiset() =~= init.to_multiset().remove(init[i]));
        vstd::seq_lib::to_multiset_insert(init.remove(i), i, waiting.last());
        assert(after.pending.to_multiset() =~= waiting.to_multiset().remove(restart));
    }
}

/// Whoever waits until the next restart falls due finds one that is, and before that
/// none is.
pub proof fn law_next_due_is_the_earliest(
    pending: Seq<PendingView>,
    r: Option<Instant>,
    now: Instant,
)
    requires
        is_next_due(pending, r),
    ensures
        r is None <==> pending.len() == 0,
        (r matches Some(when) && when.nanos <= now.nanos) <==> exists|i: int|
            0 <= i < pending.len() && (#[trigger] pending[i]).when.nanos <= now.nanos,
{
    if let Some(when) = r {
        let i = choose|i: int| 0 <= i < pending.len() && (#[trigger] pending[i]).when == when;
        assert(pending[i].when == when);
    }
}

/// A list of statuses tells of every child exactly once whether it runs, in which
/// generation, and how often it was restarted.
pub proof fn law_every_child_is_listed_once(
    state: SupervisorView,
    list: Seq<ChildStatus>,
    name: Seq<char>,
)
    requires
        state.life.consistent(),
        state.are_statuses(list),
        state.life.children.dom().contains(name),
    ensures
        exists|i: int|
            0 <= i < list.len() && (#[trigger] list[i]).name@ == name && list[i].alive
                == state.life.children[name].alive && list[i].generation
                == state.life.children[name].generation && (
            state.manager.children.dom().contains(name) ==> list[i].restart_count
                == state.manager.children[name].tracker.total_restarts),
        forall|i: int, j: int|
            0 <= i < list.len() && 0 <= j < list.len() && (#[trigger] list[i]).name@ == (
            #[trigger] list[j]).name@ ==> i == j,
{
    assert(state.life.names.contains(name));
    let i = state.life.names.index_of(name);
    assert(list[i].name@ == state.life.names[i]);
}

/// A restart is told with the generation that ended, the one that began, and the delay
/// that the child waited for, none in a cascade.
pub proof fn law_restarts_are_told(
    state: SupervisorView,
    name: Seq<char>,
    delayed: bool,
    event: SupervisorEvent,
    task: u64,
    progress: ProgressState,
)
    requires
        state.life.children.dom().contains(name),
        state.life.children[name].generation < u64::MAX,
        state.is_restart_event(name, delayed, event),
    ensures
        event matches SupervisorEvent::ChildRestarted { name: n, old_gen, new_gen, delay } && {
            &&& n@ == name
            &&& old_gen == state.life.children[name].generation
            &&& new_gen == state.life.restarted(name, task, progress).children[name].generation
            &&& !delayed ==> delay.nanos == 0
            &&& delayed && state.manager.children.dom().contains(name) ==> delay.nanos
                == state.manager.children[name].tracker.backoff()
        },
{
}

} // verus!
