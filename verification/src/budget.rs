//! Token budget enforcement for swarm runs.
//!
//! Two levels of limits: a global cap on the entire run and optional
//! per-agent quotas.
//!
//! Charging happens after the LLM response arrives (post-call), so
//! overshoot is bounded by the number of in-flight calls at the moment
//! a limit is crossed. Once tripped, the flag is latched: subsequent
//! chat calls fail immediately without contacting the provider.

use vstd::prelude::*;

use crate::error::AgentError;
use crate::name_map::NameMap;

verus! {

/// Read-only snapshot of global token usage.
#[derive(Debug, Clone, Copy, PartialEq, Eq, Structural)]
pub struct RunUsage {
    /// Tokens consumed so far.
    pub used: u64,
    /// Configured limit (`None` = unlimited).
    pub limit: Option<u64>,
}

/// Read-only snapshot of per-agent token usage.
#[derive(Debug, Clone, Copy, PartialEq, Eq, Structural)]
pub struct AgentUsage {
    /// Tokens consumed by this agent.
    pub used: u64,
    /// Configured limit for this agent (`None` = unlimited).
    pub limit: Option<u64>,
}

/// One counter with its limit.
#[derive(Debug, Clone, Copy, PartialEq, Eq, Structural)]
pub struct Account {
    /// Tokens charged, modulo the counter's range.
    pub used: u64,
    /// Configured limit (`None` = unlimited).
    pub limit: Option<u64>,
    /// Whether a charge has crossed the limit since the flag was last cleared.
    pub tripped: bool,
}

impl Account {
    /// An account with nothing charged.
    pub open spec fn fresh(limit: Option<u64>) -> Account {
        Account { used: 0, limit, tripped: false }
    }

    /// Whether charging `tokens` crosses the limit. The sum is cut off at the
    /// largest number that the counter holds, which no limit lies below.
    pub open spec fn crosses(self, tokens: u64) -> bool {
        match self.limit {
            Some(limit) => self.used + tokens > limit && limit < u64::MAX,
            None => false,
        }
    }

    /// After a charge of `tokens`. The tokens always count.
    pub open spec fn charged(self, tokens: u64) -> Account {
        Account {
            used: self.used.wrapping_add(tokens),
            limit: self.limit,
            tripped: self.tripped || self.crosses(tokens),
        }
    }

    /// With another limit. A limit that the usage does not exceed clears the
    /// flag.
    pub open spec fn relimited(self, limit: Option<u64>) -> Account {
        Account {
            used: self.used,
            limit,
            tripped: self.tripped && (limit matches Some(l) && l < self.used),
        }
    }

    /// With the usage set to zero and the flag cleared.
    pub open spec fn reset(self) -> Account {
        Account { used: 0, limit: self.limit, tripped: false }
    }

    /// A tripped account has more on it than its limit.
    pub open spec fn consistent(self) -> bool {
        self.tripped ==> (self.limit matches Some(limit) && limit < self.used)
    }

    fn charge(&mut self, tokens: u64) -> (r: bool)
        ensures
            *final(self) == old(self).charged(tokens),
            r == old(self).crosses(tokens),
    {
        let sum = self.used.saturating_add(tokens);
        self.used = self.used.wrapping_add(tokens);
        match self.limit {
            Some(limit) => {
                if sum > limit {
                    self.tripped = true;
                    true
                } else {
                    false
                }
            },
            None => false,
        }
    }

    fn set_limit(&mut self, limit: Option<u64>)
        ensures
            *final(self) == old(self).relimited(limit),
    {
        self.limit = limit;
        let clear = match limit {
            None => true,
            Some(l) => l >= self.used,
        };
        if clear {
            self.tripped = false;
        }
    }
}

/// The tokens on all accounts together.
pub open spec fn total_used(accounts: Map<Seq<char>, Account>) -> nat
    decreases accounts.dom().len(),
    when accounts.dom().finite()
{
    if accounts.dom().is_empty() {
        0
    } else {
        let name = accounts.dom().choose();
        accounts[name].used as nat + total_used(accounts.remove(name))
    }
}

/// The total is what one account holds and the total of the others, whichever
/// account is taken out.
pub proof fn lemma_total_splits(accounts: Map<Seq<char>, Account>, name: Seq<char>)
    requires
        accounts.dom().finite(),
        accounts.dom().contains(name),
    ensures
        total_used(accounts) == accounts[name].used + total_used(accounts.remove(name)),
    decreases accounts.dom().len(),
{
    let first = accounts.dom().choose();
    if first != name {
        lemma_total_splits(accounts.remove(first), name);
        lemma_total_splits(accounts.remove(name), first);
        assert(accounts.remove(first).remove(name) =~= accounts.remove(name).remove(first));
    }
}

/// What a [`BudgetTracker`] knows.
#[verifier::ext_equal]
pub struct BudgetView {
    /// The account of the entire run.
    pub global: Account,
    /// The accounts of the registered agents by name.
    pub agents: Map<Seq<char>, Account>,
}

impl BudgetView {
    /// Whether the agent's own account is tripped.
    pub open spec fn agent_exceeded(self, name: Seq<char>) -> bool {
        self.agents.dom().contains(name) && self.agents[name].tripped
    }

    /// Whether the account of the run or that of the agent is tripped.
    pub open spec fn exceeded(self, name: Seq<char>) -> bool {
        self.global.tripped || self.agent_exceeded(name)
    }

    /// Whether charging `tokens` to `name` crosses a limit.
    pub open spec fn crosses(self, name: Seq<char>, tokens: u64) -> bool {
        self.global.crosses(tokens) || (self.agents.dom().contains(name)
            && self.agents[name].crosses(tokens))
    }

    /// After a charge of `tokens` to `name`: both accounts are charged.
    pub open spec fn charged(self, name: Seq<char>, tokens: u64) -> BudgetView {
        BudgetView {
            global: self.global.charged(tokens),
            agents: if self.agents.dom().contains(name) {
                self.agents.insert(name, self.agents[name].charged(tokens))
            } else {
                self.agents
            },
        }
    }

    /// After `name` was registered: an agent that has an account keeps it.
    pub open spec fn registered(self, name: Seq<char>, limit: Option<u64>) -> BudgetView {
        if self.agents.dom().contains(name) {
            self
        } else {
            BudgetView { agents: self.agents.insert(name, Account::fresh(limit)), ..self }
        }
    }

    /// With another limit for `name`; an unknown agent changes nothing.
    pub open spec fn agent_relimited(self, name: Seq<char>, limit: Option<u64>) -> BudgetView {
        if self.agents.dom().contains(name) {
            BudgetView {
                agents: self.agents.insert(name, self.agents[name].relimited(limit)),
                ..self
            }
        } else {
            self
        }
    }

    /// With the account of `name` reset; an unknown agent changes nothing.
    pub open spec fn agent_reset(self, name: Seq<char>) -> BudgetView {
        if self.agents.dom().contains(name) {
            BudgetView { agents: self.agents.insert(name, self.agents[name].reset()), ..self }
        } else {
            self
        }
    }

    /// What the run used is what its agents used together.
    pub open spec fn balanced(self) -> bool {
        &&& self.agents.dom().finite()
        &&& self.global.used == total_used(self.agents)
    }

    /// Every tripped account has more on it than its limit.
    pub open spec fn consistent(self) -> bool {
        &&& self.global.consistent()
        &&& forall|name: Seq<char>| #[trigger]
            self.agents.dom().contains(name) ==> self.agents[name].consistent()
    }
}

/// Builder for [`BudgetTracker`].
#[derive(Debug)]
pub struct BudgetTrackerBuilder {
    global_limit: Option<u64>,
}

impl BudgetTrackerBuilder {
    /// The global limit set so far.
    pub closed spec fn spec_limit(&self) -> Option<u64> {
        self.global_limit
    }

    /// Sets the global token limit for the entire run.
    pub fn global_limit(self, limit: u64) -> (r: Self)
        ensures
            r.spec_limit() == Some(limit),
    {
        BudgetTrackerBuilder { global_limit: Some(limit) }
    }

    /// Builds the tracker. "Unconnected" because there is no wired
    /// event emitter or cancellation token yet: those can be added later.
    pub fn build_unconnected(self) -> (r: BudgetTracker)
        ensures
            r.wf(),
            r@ == (BudgetView { global: Account::fresh(self.spec_limit()), agents: Map::empty() }),
    {
        BudgetTracker {
            global: Account { used: 0, limit: self.global_limit, tripped: false },
            agents: NameMap::new(),
        }
    }
}

/// Token budget tracker.
///
/// Tracks both a global run-level budget and per-agent quotas.
/// Each agent charges only its own direct LLM token usage: nested
/// agent calls are charged by those agents individually, avoiding
/// double-counting.
pub struct BudgetTracker {
    global: Account,
    agents: NameMap<Account>,
}

impl View for BudgetTracker {
    type V = BudgetView;

    closed spec fn view(&self) -> BudgetView {
        BudgetView { global: self.global, agents: self.agents@ }
    }
}

impl BudgetTracker {
    /// Every agent has one account.
    pub closed spec fn wf(&self) -> bool {
        self.agents.wf()
    }

    /// The registered agents in order of registration.
    pub closed spec fn names(&self) -> Seq<Seq<char>> {
        self.agents.names()
    }

    /// Creates a new builder.
    pub fn builder() -> (r: BudgetTrackerBuilder)
        ensures
            r.spec_limit() is None,
    {
        BudgetTrackerBuilder { global_limit: None }
    }

    /// Register a per-agent budget slot. Called by the supervisor on spawn.
    ///
    /// If the agent was already registered (e.g. after restart), the
    /// existing counters are preserved: usage persists across restarts.
    pub fn register_agent(&mut self, name: &str, limit: Option<u64>)
        requires
            old(self).wf(),
        ensures
            final(self).wf(),
            final(self)@ == old(self)@.registered(name@, limit),
    {
        if !self.agents.contains(name) {
            self.agents.insert(name.to_owned(), Account { used: 0, limit, tripped: false });
        }
    }

    /// Returns `true` if the budget for the given agent has been tripped.
    pub fn is_agent_exceeded(&self, name: &str) -> (r: bool)
        requires
            self.wf(),
        ensures
            r == self@.agent_exceeded(name@),
    {
        match self.agents.get(name) {
            Some(account) => account.tripped,
            None => false,
        }
    }

    /// Returns `true` if either the global or per-agent budget has been tripped.
    pub fn is_exceeded(&self, agent_name: &str) -> (r: bool)
        requires
            self.wf(),
        ensures
            r == self@.exceeded(agent_name@),
    {
        self.is_global_exceeded() || self.is_agent_exceeded(agent_name)
    }

    /// Charge tokens against both the agent's quota and the global budget.
    ///
    /// Both counters are always incremented (reflecting actual spend).
    /// Returns `Err(AgentError::BudgetExceeded)` if either limit is crossed.
    pub fn charge(&mut self, agent_name: &str, tokens: u64) -> (r: Result<(), AgentError>)
        requires
            old(self).wf(),
        ensures
            final(self).wf(),
            final(self)@ == old(self)@.charged(agent_name@, tokens),
            match r {
                Ok(()) => !old(self)@.crosses(agent_name@, tokens),
                Err(error) => error is BudgetExceeded && old(self)@.crosses(agent_name@, tokens),
            },
    {
        let global_exceeded = self.global.charge(tokens);
        let mut agent_exceeded = false;
        match self.agents.get_mut(agent_name) {
            Some(account) => {
                agent_exceeded = account.charge(tokens);
            },
            None => {},
        }
        if global_exceeded || agent_exceeded {
            Err(AgentError::BudgetExceeded)
        } else {
            Ok(())
        }
    }

    /// Charge tokens against the global budget only.
    pub fn charge_global(&mut self, tokens: u64) -> (r: Result<(), AgentError>)
        requires
            old(self).wf(),
        ensures
            final(self).wf(),
            final(self)@ == (BudgetView {
                global: old(self)@.global.charged(tokens),
                ..old(self)@
            }),
            match r {
                Ok(()) => !old(self)@.global.crosses(tokens),
                Err(error) => error is BudgetExceeded && old(self)@.global.crosses(tokens),
            },
    {
        if self.global.charge(tokens) {
            Err(AgentError::BudgetExceeded)
        } else {
            Ok(())
        }
    }

    /// Returns current global usage snapshot.
    pub fn run_usage(&self) -> (r: RunUsage)
        ensures
            r.used == self@.global.used,
            r.limit == self@.global.limit,
    {
        RunUsage { used: self.global.used, limit: self.global.limit }
    }

    /// Query per-agent usage.
    pub fn agent_usage(&self, name: &str) -> (r: Option<AgentUsage>)
        requires
            self.wf(),
        ensures
            match r {
                Some(usage) => self@.agents.dom().contains(name@) && usage.used
                    == self@.agents[name@].used && usage.limit == self@.agents[name@].limit,
                None => !self@.agents.dom().contains(name@),
            },
    {
        match self.agents.get(name) {
            Some(account) => Some(AgentUsage { used: account.used, limit: account.limit }),
            None => None,
        }
    }

    /// Update the global token limit at runtime.
    ///
    /// If the new limit covers current usage, the tripped flag is cleared
    /// so that subsequent charges can succeed again.
    pub fn set_global_limit(&mut self, new_limit: u64)
        requires
            old(self).wf(),
        ensures
            final(self).wf(),
            final(self)@ == (BudgetView {
                global: old(self)@.global.relimited(Some(new_limit)),
                ..old(self)@
            }),
    {
        self.global.set_limit(Some(new_limit));
    }

    /// Update the token limit for a registered agent.
    ///
    /// If the agent exists and the new limit covers its current usage (or
    /// removes the limit), the tripped flag is cleared. If the agent is not
    /// registered this is a no-op.
    pub fn set_agent_limit(&mut self, name: &str, new_limit: Option<u64>)
        requires
            old(self).wf(),
        ensures
            final(self).wf(),
            final(self)@ == old(self)@.agent_relimited(name@, new_limit),
    {
        match self.agents.get_mut(name) {
            Some(account) => {
                account.set_limit(new_limit);
            },
            None => {},
        }
    }

    /// Reset a registered agent's usage to zero.
    ///
    /// Clears both the usage counter and the tripped flag while
    /// preserving the configured limit. No-op if the agent is not
    /// registered.
    pub fn reset_agent(&mut self, name: &str)
        requires
            old(self).wf(),
        ensures
            final(self).wf(),
            final(self)@ == old(self)@.agent_reset(name@),
    {
        match self.agents.get_mut(name) {
            Some(account) => {
                account.used = 0;
                account.tripped = false;
            },
            None => {},
        }
    }

    /// Snapshot all registered agents and their current usage.
    pub fn list_agents(&self) -> (r: Vec<(String, AgentUsage)>)
        requires
            self.wf(),
        ensures
            r@.len() == self.names().len(),
            forall|i: int|
                0 <= i < r@.len() ==> {
                    &&& (#[trigger] r@[i]).0@ == self.names()[i]
                    &&& r@[i].1.used == self@.agents[self.names()[i]].used
                    &&& r@[i].1.limit == self@.agents[self.names()[i]].limit
                },
            self.names().no_duplicates(),
            forall|name: Seq<char>| #[trigger]
                self.names().contains(name) <==> self@.agents.dom().contains(name),
    {
        let mut list: Vec<(String, AgentUsage)> = Vec::new();
        let mut i: usize = 0;
        while i < self.agents.len()
            invariant
                self.wf(),
                i <= self.agents.names().len(),
                list@.len() == i,
                forall|j: int|
                    0 <= j < i ==> {
                        &&& (#[trigger] list@[j]).0@ == self.names()[j]
                        &&& list@[j].1.used == self@.agents[self.names()[j]].used
                        &&& list@[j].1.limit == self@.agents[self.names()[j]].limit
                    },
            decreases self.agents.names().len() - i,
        {
            let account = self.agents.value_at(i);
            list.push(
                (
                    self.agents.name_at(i).clone(),
                    AgentUsage { used: account.used, limit: account.limit },
                ),
            );
            i += 1;
        }
        proof {
            self.agents.lemma_names();
        }
        list
    }

    /// Whether the global budget has been tripped.
    pub fn is_global_exceeded(&self) -> (r: bool)
        ensures
            r == self@.global.tripped,
    {
        self.global.tripped
    }
}

/// Once an account is tripped, no charge and no registration clears it.
pub proof fn law_trip_is_latched(
    budget: BudgetView,
    agent: Seq<char>,
    charged: Seq<char>,
    tokens: u64,
    limit: Option<u64>,
)
    requires
        budget.exceeded(agent),
    ensures
        budget.charged(charged, tokens).exceeded(agent),
        budget.registered(charged, limit).exceeded(agent),
{
}

/// A charge that crosses a limit trips the account at once.
pub proof fn law_crossing_trips(budget: BudgetView, name: Seq<char>, tokens: u64)
    requires
        budget.crosses(name, tokens),
    ensures
        budget.charged(name, tokens).exceeded(name),
{
}

/// Both counters are always charged, also by the charge that crosses a limit,
/// and no other agent's account changes.
pub proof fn law_charge_counts_everywhere(
    budget: BudgetView,
    name: Seq<char>,
    other: Seq<char>,
    tokens: u64,
)
    requires
        budget.agents.dom().contains(name),
        budget.global.used + tokens <= u64::MAX,
        budget.agents[name].used + tokens <= u64::MAX,
        other != name,
    ensures
        budget.charged(name, tokens).global.used == budget.global.used + tokens,
        budget.charged(name, tokens).agents[name].used == budget.agents[name].used + tokens,
        budget.charged(name, tokens).agents[other] == budget.agents[other],
        budget.charged(name, tokens).agents.dom() == budget.agents.dom(),
{
    assert(budget.charged(name, tokens).agents.dom() =~= budget.agents.dom());
}

/// A new run is balanced: what it used is what its agents used together. It stays
/// so while only registered agents are charged and the counter of the run does not
/// run over its range, whatever agents are registered and whatever limits are set.
pub proof fn law_run_usage_is_the_sum_over_agents(
    budget: BudgetView,
    name: Seq<char>,
    tokens: u64,
    limit: Option<u64>,
)
    requires
        budget.balanced(),
    ensures
        (BudgetView { global: Account::fresh(limit), agents: Map::empty() }).balanced(),
        budget.agents.dom().contains(name) && budget.global.used + tokens <= u64::MAX
            ==> budget.charged(name, tokens).balanced(),
        budget.registered(name, limit).balanced(),
        budget.agent_relimited(name, limit).balanced(),
        (BudgetView { global: budget.global.relimited(limit), ..budget }).balanced(),
{
    if budget.agents.dom().contains(name) {
        lemma_total_splits(budget.agents, name);
        let charged = budget.charged(name, tokens).agents;
        lemma_total_splits(charged, name);
        assert(charged.remove(name) =~= budget.agents.remove(name));
        let relimited = budget.agent_relimited(name, limit).agents;
        lemma_total_splits(relimited, name);
        assert(relimited.remove(name) =~= budget.agents.remove(name));
    } else {
        let registered = budget.registered(name, limit).agents;
        lemma_total_splits(registered, name);
        assert(registered.remove(name) =~= budget.agents);
    }
}

/// Registering an agent again, as a restart does, keeps its usage and limit.
pub proof fn law_usage_survives_restart(budget: BudgetView, name: Seq<char>, limit: Option<u64>)
    requires
        budget.agents.dom().contains(name),
    ensures
        budget.registered(name, limit) == budget,
{
}

/// A limit that covers the usage lets an agent go on; a lower one does not.
pub proof fn law_raising_the_limit_untrips(account: Account, limit: u64)
    requires
        account.tripped,
    ensures
        account.relimited(Some(limit)).tripped <==> limit < account.used,
        !account.relimited(None).tripped,
{
}

/// A reset clears usage and flag and keeps the limit.
pub proof fn law_reset_keeps_limit(budget: BudgetView, name: Seq<char>)
    requires
        budget.agents.dom().contains(name),
    ensures
        budget.agent_reset(name).agents[name] == Account::fresh(budget.agents[name].limit),
        budget.agent_reset(name).global == budget.global,
{
}

/// As long as no counter runs over its range, every tripped account has more
/// on it than its limit, whatever is done to the tracker.
pub proof fn law_tripped_means_over_limit(
    budget: BudgetView,
    name: Seq<char>,
    tokens: u64,
    limit: Option<u64>,
    global_limit: u64,
)
    requires
        budget.consistent(),
        budget.global.used + tokens <= u64::MAX,
        budget.agents.dom().contains(name) ==> budget.agents[name].used + tokens <= u64::MAX,
    ensures
        budget.charged(name, tokens).consistent(),
        budget.registered(name, limit).consistent(),
        budget.agent_relimited(name, limit).consistent(),
        budget.agent_reset(name).consistent(),
        (BudgetView {
            global: budget.global.relimited(Some(global_limit)),
            ..budget
        }).consistent(),
{
    assert forall|n: Seq<char>| #[trigger]
        budget.charged(name, tokens).agents.dom().contains(n) implies budget.charged(
        name,
        tokens,
    ).agents[n].consistent() by {
        assert(budget.agents.dom().contains(n));
    }
    assert forall|n: Seq<char>| #[trigger]
        budget.registered(name, limit).agents.dom().contains(n) implies budget.registered(
        name,
        limit,
    ).agents[n].consistent() by {
        if budget.agents.dom().contains(n) {
        }
    }
    assert forall|n: Seq<char>| #[trigger]
        budget.agent_relimited(name, limit).agents.dom().contains(n) implies budget.agent_relimited(
        name,
        limit,
    ).agents[n].consistent() by {
        assert(budget.agents.dom().contains(n));
    }
    assert forall|n: Seq<char>| #[trigger]
        budget.agent_reset(name).agents.dom().contains(n) implies budget.agent_reset(
        name,
    ).agents[n].consistent() by {
        assert(budget.agents.dom().contains(n));
    }
}

/// A charge crosses a limit if and only if it takes the sum above it. The sum is
/// kept in any case, and so is the limit; the account is tripped from the first
/// charge on that crosses.
pub proof fn law_charge_adds_up(account: Account, tokens: u64)
    requires
        account.used + tokens <= u64::MAX,
    ensures
        account.crosses(tokens) <==> (account.limit matches Some(limit) && account.used + tokens
            > limit),
        account.charged(tokens).used == account.used + tokens,
        account.charged(tokens).limit == account.limit,
        account.charged(tokens).tripped <==> account.tripped || (account.limit matches Some(limit)
            && account.used + tokens > limit),
{
}

/// A charge passes if and only if neither the sum of the run nor that of the agent
/// rises above its limit; an agent that is not registered has none.
pub proof fn law_charge_passes_within_the_limits(
    budget: BudgetView,
    name: Seq<char>,
    tokens: u64,
)
    requires
        budget.global.used + tokens <= u64::MAX,
        budget.agents.dom().contains(name) ==> budget.agents[name].used + tokens <= u64::MAX,
    ensures
        !budget.crosses(name, tokens) <==> {
            &&& budget.global.limit matches Some(limit) ==> budget.global.used + tokens <= limit
            &&& budget.agents.dom().contains(name) ==> (
            budget.agents[name].limit matches Some(limit) ==> budget.agents[name].used + tokens
                <= limit)
        },
        !budget.agents.dom().contains(name) ==> budget.charged(name, tokens).agents
            == budget.agents,
        budget.charged(name, tokens).global.used == budget.global.used + tokens,
{
}

/// An agent may not go on if and only if the run or the agent itself is tripped. No
/// other agent matters.
pub proof fn law_only_own_and_run_budget_stop_an_agent(budget: BudgetView, name: Seq<char>)
    ensures
        budget.exceeded(name) <==> budget.global.tripped || (budget.agents.dom().contains(name)
            && budget.agents[name].tripped),
        budget.agent_exceeded(name) <==> budget.agents.dom().contains(name)
            && budget.agents[name].tripped,
{
}

/// An agent that is registered for the first time has nothing on its account and
/// the limit it is given. The run and the other agents stay as they were.
pub proof fn law_registration_opens_an_account(
    budget: BudgetView,
    name: Seq<char>,
    other: Seq<char>,
    limit: Option<u64>,
)
    requires
        !budget.agents.dom().contains(name),
        other != name,
    ensures
        ({
            let after = budget.registered(name, limit);
            &&& after.agents.dom() == budget.agents.dom().insert(name)
            &&& after.agents[name].used == 0
            &&& after.agents[name].limit == limit
            &&& !after.agents[name].tripped
            &&& after.agents[other] == budget.agents[other]
            &&& after.global == budget.global
        }),
{
    assert(budget.registered(name, limit).agents.dom() =~= budget.agents.dom().insert(name));
}

/// A new limit and a reset concern one account: its usage stays with a new limit and
/// is gone with a reset, an account that is not tripped does not become so, and the
/// run and the other agents stay as they were.
pub proof fn law_limits_and_resets_are_local(
    budget: BudgetView,
    name: Seq<char>,
    other: Seq<char>,
    limit: Option<u64>,
)
    requires
        other != name,
    ensures
        ({
            let limited = budget.agent_relimited(name, limit);
            let reset = budget.agent_reset(name);
            &&& limited.global == budget.global && reset.global == budget.global
            &&& limited.agents.dom() == budget.agents.dom() && reset.agents.dom()
                == budget.agents.dom()
            &&& limited.agents[other] == budget.agents[other] && reset.agents[other]
                == budget.agents[other]
            &&& budget.agents.dom().contains(name) ==> {
                let account = budget.agents[name];
                &&& limited.agents[name].used == account.used
                &&& limited.agents[name].limit == limit
                &&& limited.agents[name].tripped <==> account.tripped && (
                limit matches Some(allowed) && account.used > allowed)
                &&& reset.agents[name].used == 0
                &&& reset.agents[name].limit == account.limit
                &&& !reset.agents[name].tripped
            }
        }),
{
    assert(budget.agent_relimited(name, limit).agents.dom() =~= budget.agents.dom());
    assert(budget.agent_reset(name).agents.dom() =~= budget.agents.dom());
}

/// An account after a series of charges.
pub open spec fn after_charges(account: Account, charges: Seq<u64>) -> Account
    decreases charges.len(),
{
    if charges.len() == 0 {
        account
    } else {
        after_charges(account, charges.drop_last()).charged(charges.last())
    }
}

/// What a series of charges comes to.
pub open spec fn sum_of(charges: Seq<u64>) -> nat
    decreases charges.len(),
{
    if charges.len() == 0 {
        0
    } else {
        sum_of(charges.drop_last()) + charges.last() as nat
    }
}

/// An account holds the sum of all charges, and is tripped if and only if that sum
/// is more than its limit.
pub proof fn law_account_is_tripped_by_the_sum(limit: Option<u64>, charges: Seq<u64>)
    requires
        sum_of(charges) <= u64::MAX,
    ensures
        ({
            let account = after_charges(Account::fresh(limit), charges);
            &&& account.used == sum_of(charges)
            &&& account.limit == limit
            &&& account.tripped <==> (limit matches Some(allowed) && sum_of(charges) > allowed)
        }),
    decreases charges.len(),
{
    if charges.len() > 0 {
        law_account_is_tripped_by_the_sum(limit, charges.drop_last());
        law_charge_adds_up(
            after_charges(Account::fresh(limit), charges.drop_last()),
            charges.last(),
        );
    }
}

} // verus!
