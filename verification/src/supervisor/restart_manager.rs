//! Restart decisions.
//!
//! [`RestartManager::decide`] is the single entry point for restart decisions:
//! it weighs the child's restart policy, its restart limit, the
//! supervisor-wide rate limit and the strategy. It never waits; the caller
//! schedules the delay that it returns.

use vstd::arithmetic::power2;
use vstd::prelude::*;

use crate::config::RestartPolicy;
use crate::name_map::NameMap;
use crate::supervisor::config::ChildRestart;
use crate::supervisor::config::Strategy;
use crate::supervisor::config::SupervisorConfig;
use crate::supervisor::tracker;
use crate::supervisor::tracker::IntensityTracker;
use crate::supervisor::tracker::IntensityView;
use crate::supervisor::tracker::RestartTracker;
use crate::supervisor::tracker::TrackerView;
use crate::supervisor::ChildExit;
use crate::time::Duration;
use crate::time::Instant;

verus! {

/// What the supervisor should do after a child exits.
///
/// The supervisor is responsible for scheduling any backoff delay and
/// executing the restart or shutdown.
#[derive(Debug, Clone, Copy, PartialEq, Eq, Structural)]
pub enum RestartDecision {
    /// Restart this child after the specified backoff delay.
    RestartAfter {
        /// The backoff delay.
        delay: Duration,
    },
    /// Restart all children in insertion order (OneForAll cascade).
    RestartAll,
    /// Don't restart (Temporary child, or Transient with normal exit).
    NoRestart,
    /// Per-child restart limit exceeded; child will not be restarted again.
    ChildLimitExceeded {
        /// The restarts ever recorded for the child.
        restarts: u64,
    },
    /// Supervisor-wide intensity limit exceeded; supervisor shuts down.
    IntensityExceeded {
        /// The restarts ever recorded for all children.
        total_restarts: u64,
    },
}

/// Restart policy and restart history of one child.
pub struct ChildRestartState {
    policy: ChildRestart,
    tracker: RestartTracker,
}

/// What the manager knows of one child.
#[verifier::ext_equal]
pub struct ChildRestartView {
    /// When the child is restarted.
    pub policy: ChildRestart,
    /// Its restarts.
    pub tracker: TrackerView,
}

impl View for ChildRestartState {
    type V = ChildRestartView;

    closed spec fn view(&self) -> ChildRestartView {
        ChildRestartView { policy: self.policy, tracker: self.tracker@ }
    }
}

/// What a [`RestartManager`] knows.
#[verifier::ext_equal]
pub struct ManagerView {
    /// Who is restarted when one child fails.
    pub strategy: Strategy,
    /// The registered children by name.
    pub children: Map<Seq<char>, ChildRestartView>,
    /// The restarts of all children.
    pub intensity: IntensityView,
}

impl ManagerView {
    /// Whether the exit calls for a restart: the child is known, its budget is
    /// not exhausted, and its policy restarts it. A hung child counts as failed
    /// whatever its exit.
    pub open spec fn wants_restart(self, name: Seq<char>, exit: ChildExit, hung: bool) -> bool {
        &&& !(exit is BudgetExceeded)
        &&& self.children.dom().contains(name)
        &&& self.children[name].policy.restarts(hung || exit is Failed)
    }

    /// The manager with a restart of `name` recorded for the child.
    pub open spec fn child_recorded(self, name: Seq<char>, now: Instant) -> ManagerView {
        let child = self.children[name];
        ManagerView {
            children: self.children.insert(
                name,
                ChildRestartView { tracker: child.tracker.recorded(now), ..child },
            ),
            ..self
        }
    }

    /// The manager with a restart recorded for the supervisor as a whole.
    pub open spec fn intensity_recorded(self, now: Instant) -> ManagerView {
        ManagerView { intensity: self.intensity.recorded(now), ..self }
    }

    /// The manager after the exit of `name`. A restart that the child's own
    /// limit forbids does not count against the supervisor's.
    pub open spec fn decided(
        self,
        name: Seq<char>,
        exit: ChildExit,
        hung: bool,
        now: Instant,
    ) -> ManagerView {
        if !self.wants_restart(name, exit, hung) {
            self
        } else if self.child_recorded(name, now).children[name].tracker.over_limit() {
            self.child_recorded(name, now)
        } else {
            self.child_recorded(name, now).intensity_recorded(now)
        }
    }

    /// The decision on the exit of `name`, read off the manager after the exit.
    pub open spec fn decision(
        self,
        name: Seq<char>,
        exit: ChildExit,
        hung: bool,
        now: Instant,
    ) -> RestartDecision {
        let after = self.decided(name, exit, hung, now);
        let tracker = after.children[name].tracker;
        if !self.wants_restart(name, exit, hung) {
            RestartDecision::NoRestart
        } else if tracker.over_limit() {
            RestartDecision::ChildLimitExceeded { restarts: tracker.total_restarts as u64 }
        } else if after.intensity.over_limit() {
            RestartDecision::IntensityExceeded {
                total_restarts: after.intensity.total_restarts as u64,
            }
        } else {
            match self.strategy {
                Strategy::OneForOne => RestartDecision::RestartAfter {
                    delay: Duration { nanos: tracker.backoff() as u128 },
                },
                Strategy::OneForAll => RestartDecision::RestartAll,
            }
        }
    }

    /// The manager after a cascade at `now`: one restart for every child that is
    /// not temporary, and one for the supervisor.
    pub open spec fn all_recorded(self, now: Instant) -> ManagerView {
        ManagerView {
            children: self.children.map_values(
                |child: ChildRestartView|
                    if child.policy is Temporary {
                        child
                    } else {
                        ChildRestartView { tracker: child.tracker.recorded(now), ..child }
                    },
            ),
            ..self.intensity_recorded(now)
        }
    }

    /// The restart counters can still count.
    pub open spec fn room(self) -> bool {
        &&& self.intensity.total_restarts < u64::MAX
        &&& forall|name: Seq<char>| #[trigger]
            self.children.dom().contains(name) ==> self.children[name].tracker.total_restarts
                < u64::MAX
    }

    /// The longest delay of every child, counted from `now`, lies on the clock.
    pub open spec fn delays_fit(self, now: Instant) -> bool {
        forall|name: Seq<char>| #[trigger]
            self.children.dom().contains(name) ==> now.has_room(
                self.children[name].tracker.policy.backoff_max,
            )
    }

    /// The restarts ever recorded for `name`; none for an unknown child.
    pub open spec fn restart_count(self, name: Seq<char>) -> nat {
        if self.children.dom().contains(name) {
            self.children[name].tracker.total_restarts
        } else {
            0
        }
    }

    /// The delay before the next start of `name` in nanoseconds; zero for an
    /// unknown child.
    pub open spec fn backoff(self, name: Seq<char>) -> nat {
        if self.children.dom().contains(name) {
            self.children[name].tracker.backoff()
        } else {
            0
        }
    }
}

/// Coordinates restart decisions, backoff calculation, and limit enforcement.
pub struct RestartManager {
    strategy: Strategy,
    children: NameMap<ChildRestartState>,
    intensity: IntensityTracker,
}

impl View for RestartManager {
    type V = ManagerView;

    closed spec fn view(&self) -> ManagerView {
        ManagerView {
            strategy: self.strategy,
            children: self.children@.map_values(|child: ChildRestartState| child@),
            intensity: self.intensity@,
        }
    }
}

impl RestartManager {
    /// Every child is registered once.
    pub closed spec fn wf(&self) -> bool {
        self.children.wf()
    }

    /// Creates a new manager with supervisor-wide config.
    pub fn new(config: &SupervisorConfig) -> (r: Self)
        ensures
            r.wf(),
            r@ == (ManagerView {
                strategy: config.strategy,
                children: Map::empty(),
                intensity: IntensityView {
                    stamps: Seq::empty(),
                    intensity: config.intensity,
                    total_restarts: 0,
                },
            }),
    {
        let r = RestartManager {
            strategy: config.strategy,
            children: NameMap::new(),
            intensity: IntensityTracker::new(config.intensity),
        };
        assert(r@.children =~= Map::empty());
        r
    }

    /// Registers a child for restart tracking. A child registered anew starts
    /// with a clean record.
    pub fn register(&mut self, name: &str, restart: ChildRestart, restart_policy: &RestartPolicy)
        requires
            old(self).wf(),
        ensures
            final(self).wf(),
            final(self)@ == (ManagerView {
                children: old(self)@.children.insert(
                    name@,
                    ChildRestartView {
                        policy: restart,
                        tracker: TrackerView {
                            stamps: Seq::empty(),
                            policy: *restart_policy,
                            total_restarts: 0,
                        },
                    },
                ),
                ..old(self)@
            }),
    {
        let state = ChildRestartState {
            policy: restart,
            tracker: RestartTracker::new(restart_policy),
        };
        self.children.insert(name.to_owned(), state);
        assert(self@.children =~= old(self)@.children.insert(name@, state@));
    }

    /// Whether the restart counters can still count.
    pub fn has_room(&self) -> (r: bool)
        requires
            self.wf(),
        ensures
            r == self@.room(),
    {
        if self.intensity.total_restarts() == u64::MAX {
            return false;
        }
        let mut i: usize = 0;
        while i < self.children.len()
            invariant
                self.wf(),
                i <= self.children.names().len(),
                forall|j: int|
                    0 <= j < i ==> self@.children[#[trigger] self.children.names()[j]].tracker.total_restarts
                        < u64::MAX,
                self@.intensity.total_restarts < u64::MAX,
            decreases self.children.names().len() - i,
        {
            let child = self.children.value_at(i);
            if child.tracker.total_restarts() == u64::MAX {
                assert(self@.children.dom().contains(self.children.names()[i as int]));
                return false;
            }
            i += 1;
        }
        proof {
            self.children.lemma_names();
            assert forall|name: Seq<char>| #[trigger] self@.children.dom().contains(
                name,
            ) implies self@.children[name].tracker.total_restarts < u64::MAX by {
                assert(self.children.names().contains(name));
                let j = self.children.names().index_of(name);
                assert(self.children.names()[j] == name);
            }
        }
        true
    }

    /// Whether the longest delay of every child, counted from `now`, lies on
    /// the clock.
    pub fn delays_fit(&self, now: Instant) -> (r: bool)
        requires
            self.wf(),
        ensures
            r == self@.delays_fit(now),
    {
        let mut i: usize = 0;
        while i < self.children.len()
            invariant
                self.wf(),
                i <= self.children.names().len(),
                forall|j: int|
                    0 <= j < i ==> now.has_room(
                        self@.children[#[trigger] self.children.names()[j]].tracker.policy.backoff_max,
                    ),
            decreases self.children.names().len() - i,
        {
            let child = self.children.value_at(i);
            let policy = child.tracker.policy();
            if u128::MAX - now.nanos < policy.backoff_max.nanos {
                assert(self@.children.dom().contains(self.children.names()[i as int]));
                return false;
            }
            i += 1;
        }
        proof {
            self.children.lemma_names();
            assert forall|name: Seq<char>| #[trigger] self@.children.dom().contains(
                name,
            ) implies now.has_room(self@.children[name].tracker.policy.backoff_max) by {
                assert(self.children.names().contains(name));
                let j = self.children.names().index_of(name);
                assert(self.children.names()[j] == name);
            }
        }
        true
    }

    /// The main entry point: this child exited, what now?
    ///
    /// Checks the restart policy, the child's restart limit, the
    /// supervisor-wide limit and the strategy, in this order.
    pub fn decide(&mut self, name: &str, exit: &ChildExit, hung: bool, now: Instant) -> (r:
        RestartDecision)
        requires
            old(self).wf(),
            old(self)@.room(),
        ensures
            final(self).wf(),
            final(self)@ == old(self)@.decided(name@, *exit, hung, now),
            r == old(self)@.decision(name@, *exit, hung, now),
    {
        // Budget exhaustion is terminal: the counter is latched, so a restart
        // is futile. Nothing is recorded.
        if let ChildExit::BudgetExceeded = exit {
            return RestartDecision::NoRestart;
        }
        let ghost before = *self;
        let is_failure = hung || exit.is_failure();
        let mut over_limit = false;
        let mut restarts: u64 = 0;
        let mut delay = Duration { nanos: 0 };
        match self.children.get_mut(name) {
            None => {
                return RestartDecision::NoRestart;
            },
            Some(child) => {
                assert(before@.children.dom().contains(name@));
                assert(child@ == before@.children[name@]);
                if !child.policy.should_restart(is_failure) {
                    assert(before.children@.insert(name@, *child) =~= before.children@);
                    return RestartDecision::NoRestart;
                }
                child.tracker.record(now);
                over_limit = child.tracker.exceeded();
                restarts = child.tracker.total_restarts();
                delay = child.tracker.backoff_delay();
            },
        }
        assert(self@.children =~= before@.child_recorded(name@, now).children);
        if over_limit {
            return RestartDecision::ChildLimitExceeded { restarts };
        }
        self.intensity.record(now);
        if self.intensity.exceeded() {
            return RestartDecision::IntensityExceeded {
                total_restarts: self.intensity.total_restarts(),
            };
        }
        match self.strategy {
            Strategy::OneForOne => RestartDecision::RestartAfter { delay },
            Strategy::OneForAll => RestartDecision::RestartAll,
        }
    }

    /// For OneForAll: records a restart for all children except the temporary
    /// ones, and one for the supervisor. Returns `true` if the restart should
    /// proceed, `false` if the supervisor-wide limit is exceeded.
    pub fn record_all(&mut self, now: Instant) -> (r: bool)
        requires
            old(self).wf(),
            old(self)@.room(),
        ensures
            final(self).wf(),
            final(self)@ == old(self)@.all_recorded(now),
            r == !final(self)@.intensity.over_limit(),
    {
        let ghost before = *self;
        let ghost names = self.children.names();
        let ghost goal = before@.all_recorded(now);
        proof {
            self.children.lemma_names();
        }
        let count = self.children.len();
        let mut i: usize = 0;
        while i < count
            invariant
                i <= count,
                count == names.len(),
                names == before.children.names(),
                names == self.children.names(),
                names.no_duplicates(),
                self.wf(),
                before@.room(),
                goal == before@.all_recorded(now),
                self.strategy == before.strategy,
                self.intensity == before.intensity,
                self.children@.dom() == before.children@.dom(),
                forall|j: int|
                    0 <= j < count ==> before.children@.dom().contains(#[trigger] names[j]),
                forall|j: int|
                    0 <= j < i ==> self.children@[#[trigger] names[j]]@ == goal.children[names[j]],
                forall|j: int|
                    i <= j < count ==> self.children@[#[trigger] names[j]]
                        == before.children@[names[j]],
            decreases count - i,
        {
            let ghost name = names[i as int];
            assert(before@.children.dom().contains(name));
            let child = self.children.value_at_mut(i);
            match child.policy {
                ChildRestart::Temporary => {},
                _ => {
                    child.tracker.record(now);
                },
            }
            assert(self.children@[name]@ == goal.children[name]);
            i += 1;
        }
        proof {
            before.children.lemma_names();
            assert forall|name: Seq<char>| self@.children.dom().contains(
                name,
            ) implies self@.children[name] == goal.children[name] by {
                assert(names.contains(name));
                let j = names.index_of(name);
                assert(names[j] == name);
            }
            assert(self@.children =~= goal.children);
        }
        self.intensity.record(now);
        !self.intensity.exceeded()
    }

    /// Returns the total restarts tracked by the intensity tracker.
    pub fn intensity_total_restarts(&self) -> (r: u64)
        ensures
            r == self@.intensity.total_restarts,
    {
        self.intensity.total_restarts()
    }

    /// Returns the total restart count for a child.
    pub fn child_restart_count(&self, name: &str) -> (r: u64)
        requires
            self.wf(),
        ensures
            r == self@.restart_count(name@),
    {
        match self.children.get(name) {
            Some(child) => child.tracker.total_restarts(),
            None => 0,
        }
    }

    /// Returns current backoff delay for a child.
    pub fn backoff_delay(&self, name: &str) -> (r: Duration)
        requires
            self.wf(),
        ensures
            r.nanos == self@.backoff(name@),
    {
        match self.children.get(name) {
            Some(child) => child.tracker.backoff_delay(),
            None => Duration { nanos: 0 },
        }
    }
}

/// A child whose budget is exhausted is never restarted, whatever its policy,
/// and its exit does not use up any restart quota.
pub proof fn law_budget_exit_is_terminal(
    manager: ManagerView,
    name: Seq<char>,
    hung: bool,
    now: Instant,
)
    ensures
        manager.decision(name, ChildExit::BudgetExceeded, hung, now) is NoRestart,
        manager.decided(name, ChildExit::BudgetExceeded, hung, now) == manager,
{
}

/// Temporary children are never restarted; permanent ones always are, unless
/// their budget or a limit stands against it; transient ones only after a
/// failure or a hang.
pub proof fn law_policies(
    manager: ManagerView,
    name: Seq<char>,
    exit: ChildExit,
    hung: bool,
    now: Instant,
)
    requires
        manager.children.dom().contains(name),
        !(exit is BudgetExceeded),
    ensures
        ({
            let decision = manager.decision(name, exit, hung, now);
            match manager.children[name].policy {
                ChildRestart::Temporary => decision is NoRestart,
                ChildRestart::Permanent => !(decision is NoRestart),
                ChildRestart::Transient => decision is NoRestart <==> !(exit is Failed) && !hung,
            }
        }),
{
}

/// Whenever a restart is granted, the restarts in the child's window and in the
/// supervisor's window are within their limits.
pub proof fn law_granted_restarts_are_within_limits(
    manager: ManagerView,
    name: Seq<char>,
    exit: ChildExit,
    hung: bool,
    now: Instant,
)
    requires
        manager.decision(name, exit, hung, now) is RestartAfter || manager.decision(
            name,
            exit,
            hung,
            now,
        ) is RestartAll,
    ensures
        ({
            let after = manager.decided(name, exit, hung, now);
            &&& after.children[name].tracker.stamps.len()
                <= after.children[name].tracker.policy.max_restarts
            &&& after.intensity.stamps.len() <= after.intensity.intensity.max_restarts
        }),
{
}

/// The exit of one child leaves what is known of every other child as it was.
pub proof fn law_decisions_do_not_touch_siblings(
    manager: ManagerView,
    name: Seq<char>,
    other: Seq<char>,
    exit: ChildExit,
    hung: bool,
    now: Instant,
)
    requires
        other != name,
    ensures
        ({
            let after = manager.decided(name, exit, hung, now);
            &&& after.children.dom() == manager.children.dom()
            &&& after.children[other] == manager.children[other]
        }),
{
    assert(manager.decided(name, exit, hung, now).children.dom() =~= manager.children.dom());
}

/// A cascade leaves the temporary children as they were and counts one restart
/// for every other child and for the supervisor.
pub proof fn law_cascade_counts(manager: ManagerView, name: Seq<char>, now: Instant)
    requires
        manager.children.dom().contains(name),
    ensures
        ({
            let after = manager.all_recorded(now);
            &&& after.children.dom() == manager.children.dom()
            &&& after.intensity.total_restarts == manager.intensity.total_restarts + 1
            &&& if manager.children[name].policy is Temporary {
                after.children[name] == manager.children[name]
            } else {
                after.restart_count(name) == manager.restart_count(name) + 1
            }
        }),
{
    assert(manager.all_recorded(now).children.dom() =~= manager.children.dom());
}

/// An exit that calls for a restart is decided by what lies in the two windows, the
/// restart now among it. The child's own limit comes first, then that of the
/// supervisor, then the strategy. The delay is the base, doubled once for every
/// earlier restart in the child's window, and never more than the cap.
pub proof fn law_decision_follows_the_counts(
    manager: ManagerView,
    name: Seq<char>,
    exit: ChildExit,
    hung: bool,
    now: Instant,
)
    requires
        manager.children.dom().contains(name),
        !(exit is BudgetExceeded),
        match manager.children[name].policy {
            ChildRestart::Permanent => true,
            ChildRestart::Transient => hung || exit is Failed,
            ChildRestart::Temporary => false,
        },
        tracker::ascending(manager.children[name].tracker.stamps.push(now)),
        tracker::ascending(manager.intensity.stamps.push(now)),
        manager.room(),
    ensures
        ({
            let child = manager.children[name].tracker;
            let all = manager.intensity;
            let own = child.stamps.push(now).filter(
                |t: Instant| t.nanos + child.policy.window.nanos >= now.nanos,
            ).len();
            let common = all.stamps.push(now).filter(
                |t: Instant| t.nanos + all.intensity.window.nanos >= now.nanos,
            ).len();
            let doubled = child.policy.backoff_base.nanos as nat * power2::pow2((own - 1) as nat);
            let decision = manager.decision(name, exit, hung, now);
            let after = manager.decided(name, exit, hung, now);
            &&& own >= 1
            &&& common >= 1
            &&& after.children[name].tracker.total_restarts == child.total_restarts + 1
            &&& after.children[name].tracker.stamps.len() == own
            &&& if own > child.policy.max_restarts {
                &&& decision == (RestartDecision::ChildLimitExceeded {
                    restarts: (child.total_restarts + 1) as u64,
                })
                &&& after.intensity == all
            } else {
                &&& after.intensity.total_restarts == all.total_restarts + 1
                &&& after.intensity.stamps.len() == common
                &&& if common > all.intensity.max_restarts {
                    decision == (RestartDecision::IntensityExceeded {
                        total_restarts: (all.total_restarts + 1) as u64,
                    })
                } else if manager.strategy is OneForAll {
                    decision is RestartAll
                } else {
                    &&& decision matches RestartDecision::RestartAfter { delay }
                    &&& delay.nanos == (if doubled <= child.policy.backoff_max.nanos {
                        doubled
                    } else {
                        child.policy.backoff_max.nanos as nat
                    })
                }
            }
        }),
{
    let child = manager.children[name].tracker;
    tracker::law_child_limit_counts_the_window(child, now);
    tracker::law_intensity_counts_the_window(manager.intensity, now);
    tracker::law_old_restarts_are_forgotten(child, manager.intensity, now);
}

/// A restart is granted whenever the child's policy calls for one and neither
/// window holds more restarts than its limit allows.
pub proof fn law_restarts_within_limits_are_granted(
    manager: ManagerView,
    name: Seq<char>,
    exit: ChildExit,
    hung: bool,
    now: Instant,
)
    requires
        manager.children.dom().contains(name),
        !(exit is BudgetExceeded),
        manager.children[name].policy is Permanent || (manager.children[name].policy is Transient
            && (hung || exit is Failed)),
        tracker::ascending(manager.children[name].tracker.stamps.push(now)),
        tracker::ascending(manager.intensity.stamps.push(now)),
        manager.room(),
        manager.children[name].tracker.stamps.push(now).filter(
            |t: Instant|
                t.nanos + manager.children[name].tracker.policy.window.nanos >= now.nanos,
        ).len() <= manager.children[name].tracker.policy.max_restarts,
        manager.intensity.stamps.push(now).filter(
            |t: Instant| t.nanos + manager.intensity.intensity.window.nanos >= now.nanos,
        ).len() <= manager.intensity.intensity.max_restarts,
    ensures
        manager.strategy is OneForOne ==> manager.decision(name, exit, hung, now) is RestartAfter,
        manager.strategy is OneForAll ==> manager.decision(name, exit, hung, now) is RestartAll,
{
    law_decision_follows_the_counts(manager, name, exit, hung, now);
    let child = manager.children[name].tracker;
    let all = manager.intensity;
    assert((|t: Instant|
        t.nanos + manager.children[name].tracker.policy.window.nanos >= now.nanos) =~= (|
        t: Instant,
    | t.nanos + child.policy.window.nanos >= now.nanos));
    assert((|t: Instant| t.nanos + manager.intensity.intensity.window.nanos >= now.nanos) =~= (|
        t: Instant,
    | t.nanos + all.intensity.window.nanos >= now.nanos));
}

/// A child that is not restarted leaves the manager as it was; a child that was
/// never registered is not restarted. No exit changes a policy or the strategy.
pub proof fn law_no_restart_leaves_no_trace(
    manager: ManagerView,
    name: Seq<char>,
    exit: ChildExit,
    hung: bool,
    now: Instant,
)
    ensures
        ({
            let decision = manager.decision(name, exit, hung, now);
            let after = manager.decided(name, exit, hung, now);
            &&& decision is NoRestart ==> after == manager
            &&& !manager.children.dom().contains(name) ==> decision is NoRestart
            &&& after.strategy == manager.strategy
            &&& after.intensity.intensity == manager.intensity.intensity
            &&& manager.children.dom().contains(name) ==> after.children[name].policy
                == manager.children[name].policy && after.children[name].tracker.policy
                == manager.children[name].tracker.policy
        }),
{
}

/// A cascade counts as one restart in the window of the supervisor and of every
/// child that is not temporary, and changes no policy.
pub proof fn law_cascade_counts_in_the_windows(
    manager: ManagerView,
    name: Seq<char>,
    now: Instant,
)
    requires
        manager.children.dom().contains(name),
        !(manager.children[name].policy is Temporary),
        tracker::ascending(manager.children[name].tracker.stamps.push(now)),
        tracker::ascending(manager.intensity.stamps.push(now)),
    ensures
        ({
            let child = manager.children[name].tracker;
            let all = manager.intensity;
            let after = manager.all_recorded(now);
            &&& after.strategy == manager.strategy
            &&& after.children[name].policy == manager.children[name].policy
            &&& after.children[name].tracker.policy == child.policy
            &&& after.children[name].tracker.stamps == child.stamps.push(now).filter(
                |t: Instant| t.nanos + child.policy.window.nanos >= now.nanos,
            )
            &&& after.intensity.intensity == all.intensity
            &&& after.intensity.stamps == all.stamps.push(now).filter(
                |t: Instant| t.nanos + all.intensity.window.nanos >= now.nanos,
            )
            &&& after.intensity.over_limit() <==> after.intensity.stamps.len()
                > all.intensity.max_restarts
        }),
{
    tracker::law_child_limit_counts_the_window(manager.children[name].tracker, now);
    tracker::law_intensity_counts_the_window(manager.intensity, now);
}

/// What is told of a child that is known is its own; of any other child there is
/// nothing to tell.
pub proof fn law_counts_are_of_the_child(manager: ManagerView, name: Seq<char>)
    ensures
        manager.children.dom().contains(name) ==> manager.restart_count(name)
            == manager.children[name].tracker.total_restarts && manager.backoff(name)
            == manager.children[name].tracker.backoff(),
        !manager.children.dom().contains(name) ==> manager.restart_count(name) == 0
            && manager.backoff(name) == 0,
{
}

} // verus!
