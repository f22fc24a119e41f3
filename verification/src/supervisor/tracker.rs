//! Windowed restart counters.
//!
//! [`RestartTracker`] tracks per-child restarts with exponential backoff.
//! [`IntensityTracker`] tracks supervisor-wide restart frequency.

use std::collections::VecDeque;

use vstd::arithmetic::power2;
use vstd::prelude::*;

use crate::config::RestartPolicy;
use crate::supervisor::config::RestartIntensity;
use crate::time::Duration;
use crate::time::Instant;

verus! {

/// `stamps` without the points at its front that lie more than `window`
/// before `now`.
pub open spec fn evict(stamps: Seq<Instant>, window: Duration, now: Instant) -> Seq<Instant>
    decreases stamps.len(),
{
    if stamps.len() > 0 && stamps[0].spec_older_than(window, now) {
        evict(stamps.drop_first(), window, now)
    } else {
        stamps
    }
}

/// `base` doubled `doublings` times, but never more than `cap`, in nanoseconds.
pub open spec fn capped_backoff(base: Duration, doublings: nat, cap: Duration) -> nat {
    let delay = base.nanos as nat * power2::pow2(doublings);
    if delay <= cap.nanos {
        delay
    } else {
        cap.nanos as nat
    }
}

/// What a [`RestartTracker`] knows.
#[verifier::ext_equal]
pub struct TrackerView {
    /// The restarts that still count, oldest first.
    pub stamps: Seq<Instant>,
    /// How restarts are limited and delayed.
    pub policy: RestartPolicy,
    /// The number of restarts ever recorded.
    pub total_restarts: nat,
}

impl TrackerView {
    /// After a restart at `now`: the restart counts, and those that lie more
    /// than the window back no longer do.
    pub open spec fn recorded(self, now: Instant) -> TrackerView {
        TrackerView {
            stamps: evict(self.stamps.push(now), self.policy.window, now),
            policy: self.policy,
            total_restarts: self.total_restarts + 1,
        }
    }

    /// More restarts count than the policy allows.
    pub open spec fn over_limit(self) -> bool {
        self.stamps.len() > self.policy.max_restarts
    }

    /// The delay before the next start, in nanoseconds: the base after the
    /// first restart in the window, doubled with each further one, capped.
    pub open spec fn backoff(self) -> nat {
        capped_backoff(
            self.policy.backoff_base,
            if self.stamps.len() > 0 {
                (self.stamps.len() - 1) as nat
            } else {
                0
            },
            self.policy.backoff_max,
        )
    }
}

/// What an [`IntensityTracker`] knows.
#[verifier::ext_equal]
pub struct IntensityView {
    /// The restarts that still count, oldest first.
    pub stamps: Seq<Instant>,
    /// The rate limit.
    pub intensity: RestartIntensity,
    /// The number of restarts ever recorded.
    pub total_restarts: nat,
}

impl IntensityView {
    /// After a restart at `now`.
    pub open spec fn recorded(self, now: Instant) -> IntensityView {
        IntensityView {
            stamps: evict(self.stamps.push(now), self.intensity.window, now),
            intensity: self.intensity,
            total_restarts: self.total_restarts + 1,
        }
    }

    /// More restarts count than the rate limit allows.
    pub open spec fn over_limit(self) -> bool {
        self.stamps.len() > self.intensity.max_restarts
    }
}

fn evict_old(stamps: &mut VecDeque<Instant>, window: Duration, now: Instant)
    ensures
        final(stamps)@ == evict(old(stamps)@, window, now),
{
    while stamps.len() > 0 && stamps[0].older_than(window, now)
        invariant
            evict(stamps@, window, now) == evict(old(stamps)@, window, now),
        decreases stamps@.len(),
    {
        let ghost before = stamps@;
        let dropped = stamps.pop_front();
        assert(stamps@ =~= before.drop_first());
    }
}

/// Restarts of one child.
pub struct RestartTracker {
    timestamps: VecDeque<Instant>,
    policy: RestartPolicy,
    total_restarts: u64,
}

impl View for RestartTracker {
    type V = TrackerView;

    closed spec fn view(&self) -> TrackerView {
        TrackerView {
            stamps: self.timestamps@,
            policy: self.policy,
            total_restarts: self.total_restarts as nat,
        }
    }
}

impl RestartTracker {
    /// A tracker with no restarts.
    pub fn new(policy: &RestartPolicy) -> (r: Self)
        ensures
            r@ == (TrackerView {
                stamps: Seq::empty(),
                policy: *policy,
                total_restarts: 0,
            }),
    {
        RestartTracker { timestamps: VecDeque::new(), policy: *policy, total_restarts: 0 }
    }

    /// The number of restarts ever recorded.
    pub fn total_restarts(&self) -> (r: u64)
        ensures
            r == self@.total_restarts,
    {
        self.total_restarts
    }

    /// The policy this tracker applies.
    pub fn policy(&self) -> (r: RestartPolicy)
        ensures
            r == self@.policy,
    {
        self.policy
    }

    /// Records a restart at `now`.
    pub fn record(&mut self, now: Instant)
        requires
            old(self)@.total_restarts < u64::MAX,
        ensures
            final(self)@ == old(self)@.recorded(now),
    {
        self.total_restarts = self.total_restarts + 1;
        self.timestamps.push_back(now);
        evict_old(&mut self.timestamps, self.policy.window, now);
    }

    /// Whether more restarts lie in the window than the policy allows.
    pub fn exceeded(&self) -> (r: bool)
        ensures
            r == self@.over_limit(),
    {
        self.timestamps.len() > self.policy.max_restarts as usize
    }

    /// The delay before the child is started again.
    pub fn backoff_delay(&self) -> (r: Duration)
        ensures
            r.nanos == self@.backoff(),
    {
        let base = self.policy.backoff_base;
        let cap = self.policy.backoff_max;
        let len = self.timestamps.len();
        let doublings: usize = if len > 0 {
            len - 1
        } else {
            0
        };
        let mut delay: u128 = if base.nanos <= cap.nanos {
            base.nanos
        } else {
            cap.nanos
        };
        let mut i: usize = 0;
        proof {
            power2::lemma2_to64();
            assert(base.nanos as nat * power2::pow2(0) == base.nanos);
        }
        while i < doublings
            invariant
                i <= doublings,
                delay == capped_backoff(base, i as nat, cap),
            decreases doublings - i,
        {
            proof {
                lemma_backoff_step(base, i as nat, cap);
            }
            if delay > cap.nanos - delay {
                delay = cap.nanos;
            } else {
                delay = delay + delay;
            }
            i += 1;
        }
        Duration { nanos: delay }
    }
}

proof fn lemma_backoff_step(base: Duration, i: nat, cap: Duration)
    ensures
        capped_backoff(base, i, cap) <= cap.nanos,
        capped_backoff(base, i + 1, cap) == (if 2 * capped_backoff(base, i, cap) <= cap.nanos {
            2 * capped_backoff(base, i, cap)
        } else {
            cap.nanos as nat
        }),
{
    power2::lemma_pow2_unfold(i + 1);
    power2::lemma_pow2_pos(i);
    let p = power2::pow2(i);
    let b = base.nanos as nat;
    assert(b * (2 * p) == 2 * (b * p)) by (nonlinear_arith);
}

/// Restarts of all children of a supervisor.
pub struct IntensityTracker {
    timestamps: VecDeque<Instant>,
    intensity: RestartIntensity,
    total_restarts: u64,
}

impl View for IntensityTracker {
    type V = IntensityView;

    closed spec fn view(&self) -> IntensityView {
        IntensityView {
            stamps: self.timestamps@,
            intensity: self.intensity,
            total_restarts: self.total_restarts as nat,
        }
    }
}

impl IntensityTracker {
    /// A tracker with no restarts.
    pub fn new(intensity: RestartIntensity) -> (r: Self)
        ensures
            r@ == (IntensityView { stamps: Seq::empty(), intensity, total_restarts: 0 }),
    {
        IntensityTracker { timestamps: VecDeque::new(), intensity, total_restarts: 0 }
    }

    /// The number of restarts ever recorded.
    pub fn total_restarts(&self) -> (r: u64)
        ensures
            r == self@.total_restarts,
    {
        self.total_restarts
    }

    /// Records a restart at `now`.
    pub fn record(&mut self, now: Instant)
        requires
            old(self)@.total_restarts < u64::MAX,
        ensures
            final(self)@ == old(self)@.recorded(now),
    {
        self.total_restarts = self.total_restarts + 1;
        self.timestamps.push_back(now);
        evict_old(&mut self.timestamps, self.intensity.window, now);
    }

    /// Whether more restarts lie in the window than the rate limit allows.
    pub fn exceeded(&self) -> (r: bool)
        ensures
            r == self@.over_limit(),
    {
        self.timestamps.len() > self.intensity.max_restarts as usize
    }
}

/// Whether the points are recorded in the order of time.
pub open spec fn ascending(stamps: Seq<Instant>) -> bool {
    forall|i: int, j: int| 0 <= i <= j < stamps.len() ==> stamps[i].nanos <= stamps[j].nanos
}

/// While the clock does not run backwards, what is kept are exactly the points
/// that lie within the window, and they stay in the order of time.
pub proof fn law_window_keeps_recent(stamps: Seq<Instant>, window: Duration, now: Instant)
    requires
        ascending(stamps),
    ensures
        evict(stamps, window, now) == stamps.filter(
            |t: Instant| !t.spec_older_than(window, now),
        ),
        ascending(evict(stamps, window, now)),
    decreases stamps.len(),
{
    let recent = |t: Instant| !t.spec_older_than(window, now);
    if stamps.len() > 0 {
        let rest = stamps.drop_first();
        assert(stamps =~= seq![stamps[0]] + rest);
        Seq::filter_distributes_over_add(seq![stamps[0]], rest, recent);
        assert(seq![stamps[0]].filter(recent) == if recent(stamps[0]) {
            seq![stamps[0]]
        } else {
            Seq::empty()
        }) by {
            reveal_with_fuel(Seq::filter, 2);
            assert(seq![stamps[0]].drop_last() =~= Seq::empty());
        }
        law_window_keeps_recent(rest, window, now);
        if recent(stamps[0]) {
            assert(evict(rest, window, now) == rest) by {
                if rest.len() > 0 {
                    assert(rest[0] == stamps[1]);
                }
            }
            assert(stamps.filter(recent) =~= stamps);
        } else {
            assert(stamps.filter(recent) =~= rest.filter(recent));
        }
    } else {
        assert(stamps.filter(recent) =~= stamps) by {
            reveal_with_fuel(Seq::filter, 1);
        }
    }
}

/// A further restart never shortens the delay, and no delay exceeds the cap.
pub proof fn law_backoff_grows_to_cap(before: TrackerView, after: TrackerView)
    requires
        before.policy == after.policy,
        before.stamps.len() <= after.stamps.len(),
    ensures
        before.backoff() <= after.backoff(),
        after.backoff() <= after.policy.backoff_max.nanos,
{
    let i: nat = if before.stamps.len() > 0 {
        (before.stamps.len() - 1) as nat
    } else {
        0
    };
    let j: nat = if after.stamps.len() > 0 {
        (after.stamps.len() - 1) as nat
    } else {
        0
    };
    let p = power2::pow2(i);
    let q = power2::pow2(j);
    if i < j {
        power2::lemma_pow2_strictly_increases(i, j);
    }
    let b = before.policy.backoff_base.nanos as nat;
    assert(b * p <= b * q) by (nonlinear_arith)
        requires
            p <= q,
    ;
}

/// Until the cap is reached, each further restart doubles the delay.
pub proof fn law_backoff_doubles(before: TrackerView, after: TrackerView)
    requires
        before.policy == after.policy,
        before.stamps.len() > 0,
        after.stamps.len() == before.stamps.len() + 1,
    ensures
        after.backoff() == (if 2 * before.backoff() <= after.policy.backoff_max.nanos {
            2 * before.backoff()
        } else {
            after.policy.backoff_max.nanos as nat
        }),
{
    lemma_backoff_step(
        before.policy.backoff_base,
        (before.stamps.len() - 1) as nat,
        before.policy.backoff_max,
    );
}

proof fn lemma_recent(stamps: Seq<Instant>, window: Duration, now: Instant)
    requires
        ascending(stamps),
    ensures
        evict(stamps, window, now) == stamps.filter(
            |t: Instant| t.nanos + window.nanos >= now.nanos,
        ),
{
    law_window_keeps_recent(stamps, window, now);
    let kept = |t: Instant| !t.spec_older_than(window, now);
    let recent = |t: Instant| t.nanos + window.nanos >= now.nanos;
    assert(kept =~= recent);
}

/// The restarts that count against the supervisor-wide limit after a restart at
/// `now` are exactly the recorded ones that lie at most the window back, this one
/// among them, and the limit is exceeded if and only if they are more than it
/// allows. Every restart adds one to the total.
pub proof fn law_intensity_counts_the_window(tracker: IntensityView, now: Instant)
    requires
        ascending(tracker.stamps.push(now)),
    ensures
        ({
            let after = tracker.recorded(now);
            let recent = tracker.stamps.push(now).filter(
                |t: Instant| t.nanos + tracker.intensity.window.nanos >= now.nanos,
            );
            &&& after.stamps == recent
            &&& after.over_limit() <==> recent.len() > tracker.intensity.max_restarts
            &&& after.intensity == tracker.intensity
            &&& after.total_restarts == tracker.total_restarts + 1
            &&& ascending(after.stamps)
        }),
{
    lemma_recent(tracker.stamps.push(now), tracker.intensity.window, now);
    law_window_keeps_recent(tracker.stamps.push(now), tracker.intensity.window, now);
}

/// The restarts that count against a child's limit after a restart at `now` are
/// exactly the recorded ones that lie at most the window back, this one among
/// them, and the limit is exceeded if and only if they are more than it allows.
/// Every restart adds one to the total.
pub proof fn law_child_limit_counts_the_window(tracker: TrackerView, now: Instant)
    requires
        ascending(tracker.stamps.push(now)),
    ensures
        ({
            let after = tracker.recorded(now);
            let recent = tracker.stamps.push(now).filter(
                |t: Instant| t.nanos + tracker.policy.window.nanos >= now.nanos,
            );
            &&& after.stamps == recent
            &&& after.over_limit() <==> recent.len() > tracker.policy.max_restarts
            &&& after.policy == tracker.policy
            &&& after.total_restarts == tracker.total_restarts + 1
            &&& ascending(after.stamps)
        }),
{
    lemma_recent(tracker.stamps.push(now), tracker.policy.window, now);
    law_window_keeps_recent(tracker.stamps.push(now), tracker.policy.window, now);
}

/// A restart is always among those that count right after it, and once more than
/// the window has passed since the restarts before it, it is the only one.
pub proof fn law_old_restarts_are_forgotten(
    child: TrackerView,
    all: IntensityView,
    now: Instant,
)
    ensures
        child.recorded(now).stamps.len() > 0,
        child.recorded(now).stamps.last() == now,
        all.recorded(now).stamps.len() > 0,
        all.recorded(now).stamps.last() == now,
        (forall|i: int|
            0 <= i < child.stamps.len() ==> (#[trigger] child.stamps[i]).nanos
                + child.policy.window.nanos < now.nanos) ==> child.recorded(now).stamps == seq![now],
        (forall|i: int|
            0 <= i < all.stamps.len() ==> (#[trigger] all.stamps[i]).nanos
                + all.intensity.window.nanos < now.nanos) ==> all.recorded(now).stamps == seq![now],
{
    lemma_evict_ends(child.stamps, child.policy.window, now);
    lemma_evict_ends(all.stamps, all.intensity.window, now);
}

proof fn lemma_evict_ends(stamps: Seq<Instant>, window: Duration, now: Instant)
    ensures
        evict(stamps.push(now), window, now).len() > 0,
        evict(stamps.push(now), window, now).last() == now,
        (forall|i: int|
            0 <= i < stamps.len() ==> (#[trigger] stamps[i]).nanos + window.nanos < now.nanos)
            ==> evict(stamps.push(now), window, now) == seq![now],
    decreases stamps.len(),
{
    let all = stamps.push(now);
    if stamps.len() == 0 {
        assert(all =~= seq![now]);
    } else if all[0].spec_older_than(window, now) {
        let rest = stamps.drop_first();
        assert(all.drop_first() =~= rest.push(now));
        lemma_evict_ends(rest, window, now);
        assert(forall|i: int| 0 <= i < rest.len() ==> rest[i] == stamps[i + 1]);
    }
}

/// The first restart in a window waits for the base delay, or for the cap if that
/// is shorter.
pub proof fn law_first_backoff_is_the_base(tracker: TrackerView)
    requires
        tracker.stamps.len() <= 1,
    ensures
        tracker.backoff() == (if tracker.policy.backoff_base.nanos
            <= tracker.policy.backoff_max.nanos {
            tracker.policy.backoff_base.nanos
        } else {
            tracker.policy.backoff_max.nanos
        }),
{
    power2::lemma2_to64();
    let base = tracker.policy.backoff_base.nanos as nat;
    assert(base * power2::pow2(0) == base);
}

} // verus!
