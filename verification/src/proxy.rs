//! The state that the proxy keeps per provider, and the selection of the
//! provider that gets the next attempt.
//!
//! The state is a plain value: whoever shares it between tasks puts it
//! behind a lock of their own. Operations that depend on the time take the
//! current UNIX second as `now`.

use vstd::prelude::*;
use vstd::string::*;
use crate::clock::unix_now;
use crate::interactive::InteractiveProviderManager;
use crate::provider::{HealthView, LimiterView, Provider, ProviderHealth, RateLimiter};
use crate::table::NameTable;

verus! {

/// Requests per window and provider when nothing else is asked for.
pub const DEFAULT_RATE_LIMIT: usize = 5;

/// The proxy state as a value.
///
/// `limiters`, `usage` and `disabled` have an entry for every name: a
/// provider never seen has an empty limiter, no usage, and is enabled.
/// `health` and `status` hold the names seen so far.
pub struct StateView {
    pub cursor: nat,
    pub rate_limit: nat,
    pub limiters: Map<Seq<char>, LimiterView>,
    pub health: Map<Seq<char>, HealthView>,
    pub status: Map<Seq<char>, u16>,
    pub usage: Map<Seq<char>, u64>,
    /// Sum of all tokens counted, over all names.
    pub total_usage: nat,
    pub disabled: Map<Seq<char>, bool>,
}

/// The sum of two counters, held at the largest value that fits.
pub open spec fn saturating_sum(a: u64, b: u64) -> u64 {
    if a + b > u64::MAX {
        u64::MAX
    } else {
        (a + b) as u64
    }
}

impl StateView {
    pub open spec fn wf(self) -> bool {
        &&& self.rate_limit >= 1
        &&& forall|name: Seq<char>|
            (#[trigger] self.limiters[name]).wf() && self.limiters[name].limit() == self.rate_limit
        &&& forall|name: Seq<char>|
            self.health.dom().contains(name) ==> (#[trigger] self.health[name]).wf()
    }

    /// The state of a proxy that has seen no request.
    pub open spec fn initial(rate_limit: nat) -> StateView {
        StateView {
            cursor: 0,
            rate_limit,
            limiters: Map::new(|name: Seq<char>| true, |name: Seq<char>| LimiterView::fresh(rate_limit)),
            health: Map::empty(),
            status: Map::empty(),
            usage: Map::new(|name: Seq<char>| true, |name: Seq<char>| 0u64),
            total_usage: 0,
            disabled: Map::new(|name: Seq<char>| true, |name: Seq<char>| false),
        }
    }

    /// The tracker of `name`; one first looked at at `now` is created then.
    pub open spec fn health_of(self, name: Seq<char>, now: u64) -> HealthView {
        if self.health.dom().contains(name) {
            self.health[name]
        } else {
            HealthView::fresh(now)
        }
    }

    /// Whether the limiter of `name` admits a request at `now`.
    pub open spec fn admits(self, name: Seq<char>, now: u64) -> bool {
        self.limiters[name].admits(now)
    }

    /// The score of `name` as read at `now`.
    pub open spec fn score_at(self, name: Seq<char>, now: u64) -> nat {
        self.health_of(name, now).drifted(now).score
    }

    /// Whether `name` is healthy as read at `now`.
    pub open spec fn healthy_at(self, name: Seq<char>, now: u64) -> bool {
        self.health_of(name, now).drifted(now).healthy()
    }

    /// The state after one request to `name` was counted at `now`.
    pub open spec fn requested(self, name: Seq<char>, now: u64) -> StateView {
        StateView { limiters: self.limiters.insert(name, self.limiters[name].recorded(now)), ..self }
    }

    /// The state after the health of `name` was read at `now`.
    pub open spec fn read(self, name: Seq<char>, now: u64) -> StateView {
        StateView { health: self.health.insert(name, self.health_of(name, now).drifted(now)), ..self }
    }

    /// The state after a success of `name` at `now`.
    pub open spec fn succeeded(self, name: Seq<char>, now: u64) -> StateView {
        StateView {
            health: self.health.insert(name, self.health_of(name, now).succeeded(now)),
            ..self
        }
    }

    /// The state after a failure of `name` at `now`.
    pub open spec fn failed(self, name: Seq<char>, now: u64) -> StateView {
        StateView { health: self.health.insert(name, self.health_of(name, now).failed(now)), ..self }
    }

    /// The state after an emergency recovery of `name` at `now`.
    pub open spec fn revived(self, name: Seq<char>, now: u64) -> StateView {
        StateView { health: self.health.insert(name, self.health_of(name, now).revived(now)), ..self }
    }

    /// The state after `name` answered with `code`; zero stands for a
    /// network error.
    pub open spec fn with_status(self, name: Seq<char>, code: u16) -> StateView {
        StateView { status: self.status.insert(name, code), ..self }
    }

    /// The state after `tokens` more tokens were counted for `name`.
    pub open spec fn with_usage(self, name: Seq<char>, tokens: u64) -> StateView {
        StateView {
            usage: self.usage.insert(name, saturating_sum(self.usage[name], tokens)),
            total_usage: self.total_usage + (saturating_sum(self.usage[name], tokens)
                - self.usage[name]) as nat,
            ..self
        }
    }

    /// The state after the switch of `name` was toggled.
    pub open spec fn toggled(self, name: Seq<char>) -> StateView {
        StateView { disabled: self.disabled.insert(name, !self.disabled[name]), ..self }
    }

    /// The state after the round-robin cursor moved on by one.
    pub open spec fn advanced(self) -> StateView {
        StateView {
            cursor: if self.cursor == usize::MAX {
                0
            } else {
                self.cursor + 1
            },
            ..self
        }
    }

    /// The state after an emergency recovery of the first `count` of
    /// `providers`, in order.
    pub open spec fn revived_all(self, providers: Seq<Provider>, count: int, now: u64) -> StateView
        decreases count,
    {
        if count <= 0 {
            self
        } else {
            self.revived_all(providers, count - 1, now).revived(providers[count - 1].name@, now)
        }
    }

    /// Whether `name` may be chosen at `now`: it is enabled and its limiter
    /// admits a request and, where `strict`, it is healthy as read then.
    pub open spec fn eligible(self, name: Seq<char>, now: u64, strict: bool) -> bool {
        &&& !self.disabled[name]
        &&& self.admits(name, now)
        &&& (strict ==> self.healthy_at(name, now))
    }

    /// Whether the provider at place `index` may be chosen at `now`: `skip`
    /// does not mark the place, and the provider is eligible.
    pub open spec fn open_place(
        self,
        providers: Seq<Provider>,
        index: int,
        now: u64,
        strict: bool,
        skip: Seq<bool>,
    ) -> bool {
        !skipped(skip, index) && self.eligible(providers[index].name@, now, strict)
    }

    /// One pass over `providers`, from `offset` places after `start` to the
    /// end of the round: the state afterwards and the place chosen. A place
    /// that `skip` marks is passed over, and so is a provider that is
    /// disabled or not admitted; in a strict
    /// pass the health of every other one is read, and the first healthy one
    /// is chosen; in a lax pass the first other one is chosen.
    pub open spec fn scan(
        self,
        providers: Seq<Provider>,
        start: int,
        offset: int,
        now: u64,
        strict: bool,
        skip: Seq<bool>,
    ) -> (StateView, Option<int>)
        decreases providers.len() - offset,
    {
        if offset < 0 || offset >= providers.len() {
            (self, None)
        } else {
            let index = rotate(start, offset, providers.len() as int);
            let name = providers[index].name@;
            if skipped(skip, index) || self.disabled[name] || !self.admits(name, now) {
                self.scan(providers, start, offset + 1, now, strict, skip)
            } else if !strict {
                (self, Some(index))
            } else {
                let next = self.read(name, now);
                if next.health[name].healthy() {
                    (next, Some(index))
                } else {
                    next.scan(providers, start, offset + 1, now, strict, skip)
                }
            }
        }
    }

    /// A selection that starts at place `start` and passes over the places
    /// that `skip` marks: a strict pass and, if that finds nobody, a lax one.
    pub open spec fn selected(
        self,
        providers: Seq<Provider>,
        start: int,
        now: u64,
        skip: Seq<bool>,
    ) -> (StateView, Option<int>) {
        let first = self.scan(providers, start, 0, now, true, skip);
        if first.1.is_some() {
            first
        } else {
            first.0.scan(providers, start, 0, now, false, skip)
        }
    }

    /// The state after the health of each of `providers` from place `from`
    /// on was read at `now`, up to and including the first whose score is
    /// then above `threshold`; and whether none was found.
    pub open spec fn read_until(
        self,
        providers: Seq<Provider>,
        from: int,
        now: u64,
        threshold: nat,
    ) -> (StateView, bool)
        decreases providers.len() - from,
    {
        if from < 0 || from >= providers.len() {
            (self, true)
        } else {
            let name = providers[from].name@;
            let next = self.read(name, now);
            if next.health[name].score > threshold {
                (next, false)
            } else {
                next.read_until(providers, from + 1, now, threshold)
            }
        }
    }
}

/// Whether `skip` marks the place `index`.
pub open spec fn skipped(skip: Seq<bool>, index: int) -> bool {
    0 <= index < skip.len() && skip[index]
}

/// The marks that mark no place.
pub open spec fn no_skip() -> Seq<bool> {
    Seq::empty()
}

/// The place at which a round over `n` providers starts for a cursor or a
/// seed: its remainder.
pub open spec fn round_start(cursor: nat, n: nat) -> int {
    if n > 0 {
        (cursor % n) as int
    } else {
        0
    }
}

/// The place `offset` steps after `start` on a round of `n` places.
pub open spec fn rotate(start: int, offset: int, n: int) -> int {
    if start + offset >= n {
        start + offset - n
    } else {
        start + offset
    }
}

/// Sum of a list of counters.
pub open spec fn sum_of(values: Seq<u64>) -> nat
    decreases values.len(),
{
    if values.len() == 0 {
        0
    } else {
        sum_of(values.drop_last()) + values.last() as nat
    }
}

/// Replacing one counter changes the sum by the difference.
pub proof fn lemma_sum_update(values: Seq<u64>, i: int, v: u64)
    requires
        0 <= i < values.len(),
    ensures
        sum_of(values.update(i, v)) + values[i] == sum_of(values) + v,
    decreases values.len(),
{
    let after = values.update(i, v);
    if i == values.len() - 1 {
        assert(after.drop_last() =~= values.drop_last());
    } else {
        lemma_sum_update(values.drop_last(), i, v);
        assert(after.drop_last() =~= values.drop_last().update(i, v));
    }
}

/// One more counter adds to the sum.
pub proof fn lemma_sum_push(values: Seq<u64>, v: u64)
    ensures
        sum_of(values.push(v)) == sum_of(values) + v,
{
    assert(values.push(v).drop_last() =~= values);
}

/// The healthy providers among the first `count` of `providers`, and the sum
/// of the scores, each as read at `now` in turn; and the state after the
/// reading.
pub open spec fn survey(s: StateView, providers: Seq<Provider>, count: int, now: u64) -> (
    StateView,
    nat,
    nat,
)
    decreases count,
{
    if count <= 0 {
        (s, 0, 0)
    } else {
        let before = survey(s, providers, count - 1, now);
        let name = providers[count - 1].name@;
        let after = before.0.read(name, now);
        let score = after.health[name].score;
        (
            after,
            before.1 + if score > 20 {
                1nat
            } else {
                0nat
            },
            before.2 + score,
        )
    }
}

/// Whether every one of `providers` is disabled in `disabled`.
pub open spec fn all_disabled(disabled: Map<Seq<char>, bool>, providers: Seq<Provider>) -> bool {
    forall|i: int| 0 <= i < providers.len() ==> disabled[#[trigger] providers[i].name@]
}

/// State of the proxy: the round-robin cursor, and per provider name the
/// rate limiter, the health tracker, the last response status, the tokens
/// counted and the operator's switch.
pub struct ProxyState {
    pub(crate) round_robin_counter: usize,
    pub(crate) rate_limiters: NameTable<RateLimiter>,
    pub(crate) provider_health: NameTable<ProviderHealth>,
    pub(crate) last_status_codes: NameTable<u16>,
    pub(crate) token_usage: NameTable<u64>,
    pub(crate) rate_limit: usize,
    pub(crate) interactive_manager: InteractiveProviderManager,
}

impl View for ProxyState {
    type V = StateView;

    closed spec fn view(&self) -> StateView {
        StateView {
            cursor: self.round_robin_counter as nat,
            rate_limit: self.rate_limit as nat,
            limiters: Map::new(
                |name: Seq<char>| true,
                |name: Seq<char>|
                    if self.rate_limiters.views().dom().contains(name) {
                        self.rate_limiters.views()[name]
                    } else {
                        LimiterView::fresh(self.rate_limit as nat)
                    },
            ),
            health: self.provider_health.views(),
            status: self.last_status_codes.views(),
            usage: Map::new(
                |name: Seq<char>| true,
                |name: Seq<char>|
                    if self.token_usage.views().dom().contains(name) {
                        self.token_usage.views()[name]
                    } else {
                        0u64
                    },
            ),
            total_usage: sum_of(self.token_usage.items()),
            disabled: self.interactive_manager@,
        }
    }
}

impl ProxyState {
    spec fn limiters_ok(&self) -> bool {
        &&& self.rate_limiters.wf()
        &&& forall|i: int|
            0 <= i < self.rate_limiters.values.len() ==> (#[trigger] self.rate_limiters.values[i]).wf()
                && self.rate_limiters.values[i]@.limit() == self.rate_limit
    }

    spec fn health_ok(&self) -> bool {
        &&& self.provider_health.wf()
        &&& forall|i: int|
            0 <= i < self.provider_health.values.len() ==> (
            #[trigger] self.provider_health.values[i]).wf()
    }

    /// The rows of the operator's list, as last laid out.
    pub closed spec fn manager_rows(&self) -> Seq<crate::interactive::ProviderRow> {
        self.interactive_manager.rows()
    }

    /// Validity: every limiter has the capacity of the state, which is at
    /// least one, and every tracker is valid.
    pub closed spec fn wf(&self) -> bool {
        &&& self.rate_limit >= 1
        &&& self.limiters_ok()
        &&& self.health_ok()
        &&& self.last_status_codes.wf()
        &&& self.token_usage.wf()
        &&& self.interactive_manager.wf()
    }

    /// A valid state has a valid model.
    pub proof fn lemma_wf_view(&self)
        requires
            self.wf(),
        ensures
            self@.wf(),
    {
        assert forall|name: Seq<char>|
            (#[trigger] self@.limiters[name]).wf() && self@.limiters[name].limit()
                == self@.rate_limit by {
            if self.rate_limiters.has(name) {
                let i = self.rate_limiters.slot(name);
                self.rate_limiters.lemma_slot(name);
                self.rate_limiters.lemma_entry(i);
                self.rate_limiters.values[i].lemma_wf_view();
            }
        }
        assert forall|name: Seq<char>| self@.health.dom().contains(name) implies (
        #[trigger] self@.health[name]).wf() by {
            let i = self.provider_health.slot(name);
            self.provider_health.lemma_slot(name);
            self.provider_health.lemma_entry(i);
            self.provider_health.values[i].lemma_wf_view();
        }
    }

    /// A state with the default rate limit.
    pub fn new() -> (r: ProxyState)
        ensures
            r.wf(),
            r@ == StateView::initial(DEFAULT_RATE_LIMIT as nat),
    {
        ProxyState::new_with_rate_limit(DEFAULT_RATE_LIMIT)
    }

    /// A state that admits `rate_limit` requests per window and provider.
    pub fn new_with_rate_limit(rate_limit: usize) -> (r: ProxyState)
        requires
            rate_limit >= 1,
        ensures
            r.wf(),
            r@ == StateView::initial(rate_limit as nat),
    {
        let r = ProxyState {
            round_robin_counter: 0,
            rate_limiters: NameTable::new(),
            provider_health: NameTable::new(),
            last_status_codes: NameTable::new(),
            token_usage: NameTable::new(),
            rate_limit,
            interactive_manager: InteractiveProviderManager::new(),
        };
        proof {
            let v = StateView::initial(rate_limit as nat);
            assert(r@.limiters =~= v.limiters);
            assert(r@.usage =~= v.usage);
            assert(r@.disabled =~= v.disabled);
        }
        r
    }

    /// Requests per window and provider.
    pub fn get_rate_limit(&self) -> (r: usize)
        ensures
            r == self@.rate_limit,
    {
        self.rate_limit
    }

    /// The round-robin cursor.
    pub fn get_round_robin_counter(&self) -> (r: usize)
        ensures
            r == self@.cursor,
    {
        self.round_robin_counter
    }

    /// Whether the provider called `provider_name` is disabled.
    pub fn is_provider_disabled(&self, provider_name: &str) -> (r: bool)
        requires
            self.wf(),
        ensures
            r == self@.disabled[provider_name@],
    {
        self.interactive_manager.is_provider_disabled(provider_name)
    }

    /// Toggles the switch of the provider called `provider_name`, and says
    /// whether it is disabled now.
    pub fn toggle_provider(&mut self, provider_name: &str) -> (r: bool)
        requires
            old(self).wf(),
        ensures
            final(self).wf(),
            final(self)@ == old(self)@.toggled(provider_name@),
            r == final(self)@.disabled[provider_name@],
    {
        self.interactive_manager.toggle_provider(provider_name)
    }

    /// Lays the rows of the operator's list out anew for `providers`.
    pub fn set_provider_rows(&mut self, providers: &Vec<Provider>)
        requires
            old(self).wf(),
        ensures
            final(self).wf(),
            final(self)@ == old(self)@,
            final(self).manager_rows().len() <= providers.len(),
            forall|i: int|
                0 <= i < final(self).manager_rows().len() ==> {
                    &&& (#[trigger] final(self).manager_rows()[i]).index == i
                    &&& final(self).manager_rows()[i].provider_name@ == providers[i].name@
                    &&& final(self).manager_rows()[i].y_position == crate::interactive::row_of(i)
                },
    {
        self.interactive_manager.set_rows(providers);
    }

    /// The operator's switches.
    pub fn manager(&self) -> (r: &InteractiveProviderManager)
        requires
            self.wf(),
        ensures
            r.wf(),
            r@ == self@.disabled,
    {
        &self.interactive_manager
    }

    /// Whether the limiter of `provider_name` admits a request at `now`.
    pub fn can_request_at(&self, provider_name: &str, now: u64) -> (r: bool)
        requires
            self.wf(),
        ensures
            r == self@.admits(provider_name@, now),
    {
        match self.rate_limiters.position(provider_name) {
            Some(i) => self.rate_limiters.values[i].can_request_at(now),
            None => true,
        }
    }

    /// The place of the limiter of `name`, which is made if there is none.
    fn limiter_slot(&mut self, name: &str) -> (i: usize)
        requires
            old(self).wf(),
        ensures
            final(self).wf(),
            final(self)@ == old(self)@,
            i < final(self).rate_limiters.values.len(),
            final(self).rate_limiters.names[i as int]@ == name@,
            final(self).rate_limiters.values[i as int]@ == old(self)@.limiters[name@],
    {
        match self.rate_limiters.position(name) {
            Some(i) => i,
            None => {
                let fresh = RateLimiter::new(self.rate_limit);
                let i = self.rate_limiters.push_new(name, fresh);
                assert(self@.limiters =~= old(self)@.limiters);
                i
            },
        }
    }

    /// Counts one request to `provider_name` at `now`.
    pub fn record_request_at(&mut self, provider_name: &str, now: u64)
        requires
            old(self).wf(),
        ensures
            final(self).wf(),
            final(self)@ == old(self)@.requested(provider_name@, now),
    {
        let i = self.limiter_slot(provider_name);
        let ghost before = self.rate_limiters;
        self.rate_limiters.values[i].record_request_at(now);
        proof {
            before.lemma_entry_changed(&self.rate_limiters, i as int);
            assert forall|j: int| 0 <= j < self.rate_limiters.values.len() implies (
            #[trigger] self.rate_limiters.values[j]).wf() && self.rate_limiters.values[j]@.limit()
                == self.rate_limit by {
                if j != i {
                    assert(self.rate_limiters.values[j] == before.values[j]);
                }
            }
            assert(self@.limiters =~= old(self)@.requested(provider_name@, now).limiters);
        }
    }

    /// Requests to `provider_name` counted in the window that ends at `now`.
    pub fn get_current_requests_at(&self, provider_name: &str, now: u64) -> (r: usize)
        requires
            self.wf(),
        ensures
            r as nat == self@.limiters[provider_name@].current(now),
            r <= self@.rate_limit,
    {
        match self.rate_limiters.position(provider_name) {
            Some(i) => self.rate_limiters.values[i].current_requests_at(now),
            None => {
                proof {
                    lemma_fresh_is_empty(self.rate_limit as nat, now);
                }
                0
            },
        }
    }

    /// The place of the tracker of `name`, which is made at `now` if there
    /// is none.
    fn health_slot(&mut self, name: &str, now: u64) -> (i: usize)
        requires
            old(self).wf(),
        ensures
            final(self).wf(),
            final(self)@ == (StateView {
                health: old(self)@.health.insert(name@, old(self)@.health_of(name@, now)),
                ..old(self)@
            }),
            i < final(self).provider_health.values.len(),
            final(self).provider_health.names[i as int]@ == name@,
            final(self).provider_health.values[i as int]@ == old(self)@.health_of(name@, now),
    {
        match self.provider_health.position(name) {
            Some(i) => {
                assert(self@.health =~= old(self)@.health.insert(
                    name@,
                    old(self)@.health_of(name@, now),
                ));
                i
            },
            None => {
                let fresh = ProviderHealth::new_at(now);
                self.provider_health.push_new(name, fresh)
            },
        }
    }

    /// Records a success of `provider_name` at `now`.
    pub fn record_provider_success_at(&mut self, provider_name: &str, now: u64)
        requires
            old(self).wf(),
        ensures
            final(self).wf(),
            final(self)@ == old(self)@.succeeded(provider_name@, now),
    {
        let i = self.health_slot(provider_name, now);
        let ghost before = self.provider_health;
        self.provider_health.values[i].record_success_at(now);
        proof {
            before.lemma_entry_changed(&self.provider_health, i as int);
            assert(self@.health =~= old(self)@.succeeded(provider_name@, now).health);
        }
    }

    /// Records a failure of `provider_name` at `now`.
    pub fn record_provider_failure_at(&mut self, provider_name: &str, now: u64)
        requires
            old(self).wf(),
        ensures
            final(self).wf(),
            final(self)@ == old(self)@.failed(provider_name@, now),
    {
        let i = self.health_slot(provider_name, now);
        let ghost before = self.provider_health;
        self.provider_health.values[i].record_failure_at(now);
        proof {
            before.lemma_entry_changed(&self.provider_health, i as int);
            assert(self@.health =~= old(self)@.failed(provider_name@, now).health);
        }
    }

    /// Gives `provider_name` an emergency recovery at `now`.
    pub fn emergency_recovery_at(&mut self, provider_name: &str, now: u64)
        requires
            old(self).wf(),
        ensures
            final(self).wf(),
            final(self)@ == old(self)@.revived(provider_name@, now),
    {
        let i = self.health_slot(provider_name, now);
        let ghost before = self.provider_health;
        self.provider_health.values[i].emergency_recovery_at(now);
        proof {
            before.lemma_entry_changed(&self.provider_health, i as int);
            assert(self@.health =~= old(self)@.revived(provider_name@, now).health);
        }
    }

    /// The score of `provider_name` as read at `now`, after idle drift.
    pub fn get_provider_health_score_at(&mut self, provider_name: &str, now: u64) -> (r: u8)
        requires
            old(self).wf(),
        ensures
            final(self).wf(),
            final(self)@ == old(self)@.read(provider_name@, now),
            r as nat == old(self)@.score_at(provider_name@, now),
            r as nat == final(self)@.health[provider_name@].score,
            r <= 100,
    {
        let i = self.health_slot(provider_name, now);
        let ghost before = self.provider_health;
        let r = self.provider_health.values[i].get_health_score_at(now);
        proof {
            before.lemma_entry_changed(&self.provider_health, i as int);
            assert(self@.health =~= old(self)@.read(provider_name@, now).health);
        }
        r
    }

    /// Whether `provider_name` is healthy as read at `now`.
    pub fn is_provider_healthy_at(&mut self, provider_name: &str, now: u64) -> (r: bool)
        requires
            old(self).wf(),
        ensures
            final(self).wf(),
            final(self)@ == old(self)@.read(provider_name@, now),
            r == old(self)@.healthy_at(provider_name@, now),
            r == final(self)@.health[provider_name@].healthy(),
    {
        self.get_provider_health_score_at(provider_name, now) > 20
    }

    /// Notes the status with which `provider_name` answered last; zero
    /// stands for a network error.
    pub fn record_status_code(&mut self, provider_name: &str, status_code: u16)
        requires
            old(self).wf(),
        ensures
            final(self).wf(),
            final(self)@ == old(self)@.with_status(provider_name@, status_code),
    {
        self.last_status_codes.insert(provider_name, status_code);
    }

    /// The status with which `provider_name` answered last, if it ever did.
    pub fn get_last_status_code(&self, provider_name: &str) -> (r: Option<u16>)
        requires
            self.wf(),
        ensures
            r == if self@.status.dom().contains(provider_name@) {
                Some(self@.status[provider_name@])
            } else {
                None
            },
    {
        self.last_status_codes.get(provider_name)
    }

    /// Counts `tokens` more tokens for `provider_name`. The counter stays at
    /// the largest value once it is reached.
    pub fn record_token_usage(&mut self, provider_name: &str, tokens: u64)
        requires
            old(self).wf(),
        ensures
            final(self).wf(),
            final(self)@ == old(self)@.with_usage(provider_name@, tokens),
    {
        let current = self.get_token_usage(provider_name);
        let sum = if tokens <= u64::MAX - current {
            current + tokens
        } else {
            u64::MAX
        };
        proof {
            let table = self.token_usage;
            if table.views().dom().contains(provider_name@) {
                table.lemma_slot(provider_name@);
                table.lemma_entry(table.slot(provider_name@));
                lemma_sum_update(table.items(), table.slot(provider_name@), sum);
            } else {
                lemma_sum_push(table.items(), sum);
            }
        }
        self.token_usage.insert(provider_name, sum);
        assert(self@.usage =~= old(self)@.with_usage(provider_name@, tokens).usage);
    }

    /// Tokens counted for all providers together. The result stays at the
    /// largest number that fits.
    pub fn get_total_token_usage(&self) -> (r: u64)
        requires
            self.wf(),
        ensures
            r as nat == if self@.total_usage <= u64::MAX {
                self@.total_usage
            } else {
                u64::MAX as nat
            },
    {
        let mut total: u64 = 0;
        let mut i: usize = 0;
        let n = self.token_usage.values.len();
        assert(self.token_usage.items().subrange(0, 0) =~= Seq::<u64>::empty());
        while i < n
            invariant
                n == self.token_usage.values.len(),
                i <= n,
                total as nat == if sum_of(self.token_usage.items().subrange(0, i as int)) <= u64::MAX {
                    sum_of(self.token_usage.items().subrange(0, i as int))
                } else {
                    u64::MAX as nat
                },
            decreases n - i,
        {
            let v = self.token_usage.values[i];
            proof {
                let items = self.token_usage.items();
                assert(items.subrange(0, i + 1) =~= items.subrange(0, i as int).push(v));
                lemma_sum_push(items.subrange(0, i as int), v);
            }
            total = if v > u64::MAX - total {
                u64::MAX
            } else {
                total + v
            };
            i = i + 1;
        }
        assert(self.token_usage.items().subrange(0, n as int) =~= self.token_usage.items());
        total
    }

    /// How many of `providers` are healthy, and the mean of their scores
    /// rounded down, each score as read at `now` in turn. Without providers
    /// the mean is zero.
    pub fn health_summary_at(&mut self, providers: &Vec<Provider>, now: u64) -> (r: (usize, u32))
        requires
            old(self).wf(),
        ensures
            final(self).wf(),
            final(self)@ == survey(old(self)@, providers@, providers.len() as int, now).0,
            r.0 == survey(old(self)@, providers@, providers.len() as int, now).1,
            providers.len() > 0 ==> r.1 == survey(
                old(self)@,
                providers@,
                providers.len() as int,
                now,
            ).2 / providers.len() as nat,
            providers.len() == 0 ==> r.1 == 0,
            r.0 <= providers.len(),
            r.1 <= 100,
    {
        let mut healthy: usize = 0;
        let mut total: u128 = 0;
        let mut i: usize = 0;
        while i < providers.len()
            invariant
                self.wf(),
                i <= providers.len(),
                healthy <= i,
                total <= 100 * i,
                self@ == survey(old(self)@, providers@, i as int, now).0,
                healthy == survey(old(self)@, providers@, i as int, now).1,
                total == survey(old(self)@, providers@, i as int, now).2,
            decreases providers.len() - i,
        {
            let score = self.get_provider_health_score_at(providers[i].name.as_str(), now);
            if score > 20 {
                healthy = healthy + 1;
            }
            total = total + score as u128;
            i = i + 1;
        }
        if providers.len() == 0 {
            (healthy, 0)
        } else {
            let count = providers.len() as u128;
            let mean = total / count;
            assert(mean <= 100) by (nonlinear_arith)
                requires
                    total <= 100 * count,
                    mean == total / count,
                    count > 0,
            ;
            (healthy, mean as u32)
        }
    }

    /// Tokens counted for `provider_name`.
    pub fn get_token_usage(&self, provider_name: &str) -> (r: u64)
        requires
            self.wf(),
        ensures
            r == self@.usage[provider_name@],
    {
        match self.token_usage.get(provider_name) {
            Some(n) => n,
            None => 0,
        }
    }

    /// Whether none of `providers` is healthy as read at `now`. The health
    /// of each is read in order, up to the first healthy one.
    pub fn all_providers_unhealthy_at(&mut self, providers: &Vec<Provider>, now: u64) -> (r: bool)
        requires
            old(self).wf(),
        ensures
            final(self).wf(),
            (final(self)@, r) == old(self)@.read_until(providers@, 0, now, 20),
    {
        let ghost stop: nat = 20;
        let mut i: usize = 0;
        while i < providers.len()
            invariant
                self.wf(),
                stop == 20,
                i <= providers.len(),
                self@.read_until(providers@, i as int, now, stop) == old(self)@.read_until(
                    providers@,
                    0,
                    now,
                    stop,
                ),
            decreases providers.len() - i,
        {
            let ghost pre = self@;
            let healthy = self.is_provider_healthy_at(providers[i].name.as_str(), now);
            assert(pre.read_until(providers@, i as int, now, stop) == if healthy {
                (self@, false)
            } else {
                self@.read_until(providers@, i + 1, now, stop)
            });
            if healthy {
                return false;
            }
            i = i + 1;
        }
        true
    }

    /// Whether every one of `providers` has score zero as read at `now`.
    /// The health of each is read in order, up to the first that is not
    /// down.
    pub fn all_providers_down_at(&mut self, providers: &Vec<Provider>, now: u64) -> (r: bool)
        requires
            old(self).wf(),
        ensures
            final(self).wf(),
            (final(self)@, r) == old(self)@.read_until(providers@, 0, now, 0),
    {
        let ghost stop: nat = 0;
        let mut i: usize = 0;
        while i < providers.len()
            invariant
                self.wf(),
                stop == 0,
                i <= providers.len(),
                self@.read_until(providers@, i as int, now, stop) == old(self)@.read_until(
                    providers@,
                    0,
                    now,
                    stop,
                ),
            decreases providers.len() - i,
        {
            let ghost pre = self@;
            let score = self.get_provider_health_score_at(providers[i].name.as_str(), now);
            assert(pre.read_until(providers@, i as int, now, stop) == if score > 0 {
                (self@, false)
            } else {
                self@.read_until(providers@, i + 1, now, stop)
            });
            if score > 0 {
                return false;
            }
            i = i + 1;
        }
        true
    }

    /// Whether every one of `providers` is disabled; true of no providers.
    pub fn all_providers_disabled(&self, providers: &Vec<Provider>) -> (r: bool)
        requires
            self.wf(),
        ensures
            r == all_disabled(self@.disabled, providers@),
    {
        let mut i: usize = 0;
        while i < providers.len()
            invariant
                self.wf(),
                i <= providers.len(),
                forall|j: int| 0 <= j < i ==> self@.disabled[#[trigger] providers[j].name@],
            decreases providers.len() - i,
        {
            if !self.is_provider_disabled(providers[i].name.as_str()) {
                return false;
            }
            i = i + 1;
        }
        true
    }

    /// Gives every one of `providers` an emergency recovery at `now`.
    pub fn emergency_recovery_all_at(&mut self, providers: &Vec<Provider>, now: u64)
        requires
            old(self).wf(),
        ensures
            final(self).wf(),
            final(self)@ == old(self)@.revived_all(providers@, providers.len() as int, now),
    {
        let mut i: usize = 0;
        while i < providers.len()
            invariant
                self.wf(),
                i <= providers.len(),
                self@ == old(self)@.revived_all(providers@, i as int, now),
            decreases providers.len() - i,
        {
            self.emergency_recovery_at(providers[i].name.as_str(), now);
            i = i + 1;
        }
    }

    /// One pass of the selection, from place `start` once round.
    fn scan_pass(
        &mut self,
        providers: &Vec<Provider>,
        start: usize,
        now: u64,
        strict: bool,
        skip: &Vec<bool>,
    ) -> (r: Option<usize>)
        requires
            old(self).wf(),
            start < providers.len(),
        ensures
            final(self).wf(),
            final(self)@ == old(self)@.scan(providers@, start as int, 0, now, strict, skip@).0,
            found(r) == old(self)@.scan(providers@, start as int, 0, now, strict, skip@).1,
    {
        let n = providers.len();
        let mut i: usize = 0;
        while i < n
            invariant
                self.wf(),
                n == providers.len(),
                start < n,
                i <= n,
                self@.scan(providers@, start as int, i as int, now, strict, skip@) == old(self)@.scan(
                    providers@,
                    start as int,
                    0,
                    now,
                    strict,
        skip@,
                ),
            decreases n - i,
        {
            let index = if i >= n - start {
                i - (n - start)
            } else {
                start + i
            };
            assert(index == rotate(start as int, i as int, n as int));
            let name = providers[index].name.as_str();
            let marked = index < skip.len() && skip[index];
            if !marked && !self.is_provider_disabled(name) && self.can_request_at(name, now) {
                if !strict {
                    return Some(index);
                }
                let ghost pre = self@;
                let healthy = self.is_provider_healthy_at(name, now);
                assert(pre.scan(providers@, start as int, i as int, now, strict, skip@) == if healthy {
                    (self@, Some(index as int))
                } else {
                    self@.scan(providers@, start as int, i + 1, now, strict, skip@)
                });
                if healthy {
                    return Some(index);
                }
            }
            i = i + 1;
        }
        None
    }

    /// A selection that starts at place `start`.
    fn select_from(&mut self, providers: &Vec<Provider>, start: usize, now: u64, skip: &Vec<bool>) -> (r:
        Option<usize>)
        requires
            old(self).wf(),
            start < providers.len(),
        ensures
            final(self).wf(),
            final(self)@ == old(self)@.selected(providers@, start as int, now, skip@).0,
            found(r) == old(self)@.selected(providers@, start as int, now, skip@).1,
    {
        match self.scan_pass(providers, start, now, true, skip) {
            Some(index) => Some(index),
            None => self.scan_pass(providers, start, now, false, skip),
        }
    }

    /// Chooses the provider for the next attempt, in round-robin order: the
    /// round starts at the cursor, which moves on by one. With no providers
    /// nothing is chosen and the cursor stays.
    pub fn select_next_provider_at(&mut self, providers: &Vec<Provider>, now: u64) -> (r: Option<usize>)
        requires
            old(self).wf(),
        ensures
            final(self).wf(),
            providers.len() == 0 ==> r.is_none() && final(self)@ == old(self)@,
            providers.len() > 0 ==> {
                let start = round_start(old(self)@.cursor, providers.len() as nat);
                &&& final(self)@ == old(self)@.advanced().selected(providers@, start, now, no_skip()).0
                &&& found(r) == old(self)@.advanced().selected(providers@, start, now, no_skip()).1
            },
    {
        let skip: Vec<bool> = Vec::new();
        assert(skip@ =~= no_skip());
        self.select_next_untried_at(providers, &skip, now)
    }

    /// Chooses the provider for the next attempt, in round-robin order, from
    /// the places that `skip` does not mark: the round starts at the cursor,
    /// which moves on by one. With no providers nothing is chosen and the
    /// cursor stays.
    pub fn select_next_untried_at(&mut self, providers: &Vec<Provider>, skip: &Vec<bool>, now: u64) -> (r:
        Option<usize>)
        requires
            old(self).wf(),
        ensures
            final(self).wf(),
            providers.len() == 0 ==> r.is_none() && final(self)@ == old(self)@,
            providers.len() > 0 ==> {
                let start = round_start(old(self)@.cursor, providers.len() as nat);
                &&& final(self)@ == old(self)@.advanced().selected(providers@, start, now, skip@).0
                &&& found(r) == old(self)@.advanced().selected(providers@, start, now, skip@).1
            },
    {
        if providers.len() == 0 {
            return None;
        }
        let start = self.round_robin_counter % providers.len();
        self.round_robin_counter = if self.round_robin_counter == usize::MAX {
            0
        } else {
            self.round_robin_counter + 1
        };
        self.select_from(providers, start, now, skip)
    }

    /// Chooses the provider for the next attempt in a round that starts at
    /// place `seed` modulo the number of providers. The cursor stays.
    pub fn select_provider_randomly_at(&mut self, providers: &Vec<Provider>, seed: usize, now: u64) -> (r:
        Option<usize>)
        requires
            old(self).wf(),
        ensures
            final(self).wf(),
            providers.len() == 0 ==> r.is_none() && final(self)@ == old(self)@,
            providers.len() > 0 ==> {
                let start = round_start(seed as nat, providers.len() as nat);
                &&& final(self)@ == old(self)@.selected(providers@, start, now, no_skip()).0
                &&& found(r) == old(self)@.selected(providers@, start, now, no_skip()).1
            },
    {
        if providers.len() == 0 {
            return None;
        }
        let start = seed % providers.len();
        let skip: Vec<bool> = Vec::new();
        assert(skip@ =~= no_skip());
        self.select_from(providers, start, now, &skip)
    }
}

/// A place in a list, as the selection's model gives it.
pub open spec fn found(r: Option<usize>) -> Option<int> {
    match r {
        Some(i) => Some(i as int),
        None => None,
    }
}

/// Reading the health of one provider changes neither who is enabled or
/// admitted nor who is healthy as read at the same second.
pub proof fn lemma_read_keeps_eligibility(s: StateView, read: Seq<char>, now: u64)
    ensures
        forall|name: Seq<char>, strict: bool|
            s.read(read, now).eligible(name, now, strict) == s.eligible(name, now, strict),
        s.read(read, now).health[read].healthy() == s.healthy_at(read, now),
{
    let t = s.read(read, now);
    assert forall|name: Seq<char>, strict: bool|
        t.eligible(name, now, strict) == s.eligible(name, now, strict) by {
        if name == read {
            assert(t.health_of(name, now) == s.health_of(name, now).drifted(now));
        } else {
            assert(t.health_of(name, now) == s.health_of(name, now));
        }
    }
}

/// What one pass chooses: the first provider, in the order of the round,
/// that is eligible in the state before the pass; and nobody exactly when no
/// provider from `offset` on is eligible. A pass changes nobody's
/// eligibility, nor anything but health.
pub proof fn lemma_scan_chooses_first_eligible(
    s: StateView,
    providers: Seq<Provider>,
    start: int,
    offset: int,
    now: u64,
    strict: bool,
    skip: Seq<bool>,
)
    requires
        0 <= start < providers.len(),
        0 <= offset <= providers.len(),
    ensures
        ({
            let n = providers.len() as int;
            let after = s.scan(providers, start, offset, now, strict, skip).0;
            let choice = s.scan(providers, start, offset, now, strict, skip).1;
            &&& after.disabled == s.disabled
            &&& after.limiters == s.limiters
            &&& after.status == s.status
            &&& after.usage == s.usage
            &&& after.cursor == s.cursor
            &&& after.rate_limit == s.rate_limit
            &&& forall|name: Seq<char>, any: bool|
                after.eligible(name, now, any) == s.eligible(name, now, any)
            &&& match choice {
                Some(index) => exists|k: int|
                    {
                        &&& offset <= k < n
                        &&& index == rotate(start, k, n)
                        &&& s.open_place(providers, index, now, strict, skip)
                        &&& forall|j: int|
                            offset <= j < k ==> !s.open_place(providers, #[trigger] rotate(start, j, n), now, strict, skip)
                    },
                None => forall|j: int|
                    offset <= j < n ==> !s.open_place(providers, #[trigger] rotate(start, j, n), now, strict, skip),
            }
        }),
    decreases providers.len() - offset,
{
    let n = providers.len() as int;
    if offset < n {
        let index = rotate(start, offset, n);
        let name = providers[index].name@;
        if skipped(skip, index) || s.disabled[name] || !s.admits(name, now) {
            lemma_scan_chooses_first_eligible(s, providers, start, offset + 1, now, strict, skip);
            let choice = s.scan(providers, start, offset, now, strict, skip).1;
            match choice {
                Some(found) => {
                    let k = choose|k: int|
                        {
                            &&& offset + 1 <= k < n
                            &&& found == rotate(start, k, n)
                            &&& s.open_place(providers, found, now, strict, skip)
                            &&& forall|j: int|
                                offset + 1 <= j < k ==> !s.open_place(providers, #[trigger] rotate(start, j, n), now, strict, skip)
                        };
                    assert(offset <= k < n && found == rotate(start, k, n));
                },
                None => {},
            }
        } else if !strict {
            assert(offset <= offset < n && index == rotate(start, offset, n));
        } else {
            let next = s.read(name, now);
            lemma_read_keeps_eligibility(s, name, now);
            if next.health[name].healthy() {
                assert(offset <= offset < n && index == rotate(start, offset, n));
            } else {
                lemma_scan_chooses_first_eligible(next, providers, start, offset + 1, now, strict, skip);
                let choice = s.scan(providers, start, offset, now, strict, skip).1;
                match choice {
                    Some(found) => {
                        let k = choose|k: int|
                            {
                                &&& offset + 1 <= k < n
                                &&& found == rotate(start, k, n)
                                &&& next.open_place(providers, found, now, strict, skip)
                                &&& forall|j: int|
                                    offset + 1 <= j < k ==> !next.open_place(providers, #[trigger] rotate(start, j, n), now, strict, skip)
                            };
                        assert(offset <= k < n && found == rotate(start, k, n));
                    },
                    None => {},
                }
            }
        }
    }
}

/// What a selection gives. It never chooses a disabled provider, nor one
/// whose limiter refuses. If some provider is enabled, admitted and healthy,
/// the first such in the order of the round is chosen. Failing that, the
/// first that is enabled and admitted is chosen; and nobody is chosen exactly
/// when every provider is disabled or refused by its limiter.
pub proof fn lemma_selection(
    s: StateView,
    providers: Seq<Provider>,
    start: int,
    now: u64,
    skip: Seq<bool>,
)
    requires
        0 <= start < providers.len(),
    ensures
        ({
            let n = providers.len() as int;
            let choice = s.selected(providers, start, now, skip).1;
            let strict = exists|j: int|
                0 <= j < n && s.open_place(providers, #[trigger] rotate(start, j, n), now, true, skip);
            &&& match choice {
                Some(index) => exists|k: int|
                    {
                        &&& 0 <= k < n
                        &&& index == rotate(start, k, n)
                        &&& 0 <= index < n
                        &&& !skipped(skip, index)
                        &&& !s.disabled[providers[index].name@]
                        &&& s.admits(providers[index].name@, now)
                        &&& s.open_place(providers, index, now, strict, skip)
                        &&& forall|j: int|
                            0 <= j < k ==> !s.open_place(providers, #[trigger] rotate(start, j, n), now, strict, skip)
                    },
                None => forall|j: int|
                    0 <= j < n ==> !s.open_place(providers, #[trigger] rotate(start, j, n), now, false, skip),
            }
            &&& s.selected(providers, start, now, skip).0.disabled == s.disabled
            &&& s.selected(providers, start, now, skip).0.limiters == s.limiters
            &&& s.selected(providers, start, now, skip).0.status == s.status
            &&& s.selected(providers, start, now, skip).0.usage == s.usage
            &&& s.selected(providers, start, now, skip).0.cursor == s.cursor
        }),
{
    let n = providers.len() as int;
    lemma_scan_chooses_first_eligible(s, providers, start, 0, now, true, skip);
    let first = s.scan(providers, start, 0, now, true, skip);
    if first.1.is_none() {
        lemma_scan_chooses_first_eligible(first.0, providers, start, 0, now, false, skip);
        assert forall|j: int| 0 <= j < n implies !s.open_place(providers, #[trigger] rotate(start, j, n), now, true, skip) by {}
    } else {
        let index = first.1.unwrap();
        let k = choose|k: int|
            {
                &&& 0 <= k < n
                &&& index == rotate(start, k, n)
                &&& s.open_place(providers, index, now, true, skip)
                &&& forall|j: int|
                    0 <= j < k ==> !s.open_place(providers, #[trigger] rotate(start, j, n), now, true, skip)
            };
        assert(s.open_place(providers, rotate(start, k, n), now, true, skip));
    }
}

/// What reading the health of providers one after the other finds: nobody
/// has a score above `threshold` exactly when nobody has one as read at `now`
/// in the state before the reading. The reading changes nothing but health.
pub proof fn lemma_read_until_judges(
    s: StateView,
    providers: Seq<Provider>,
    from: int,
    now: u64,
    threshold: nat,
)
    requires
        0 <= from <= providers.len(),
    ensures
        s.read_until(providers, from, now, threshold).1 <==> forall|i: int|
            from <= i < providers.len() ==> s.score_at(#[trigger] providers[i].name@, now)
                <= threshold,
        forall|name: Seq<char>|
            s.read_until(providers, from, now, threshold).0.score_at(name, now) == s.score_at(
                name,
                now,
            ),
        s.read_until(providers, from, now, threshold).0.limiters == s.limiters,
        s.read_until(providers, from, now, threshold).0.disabled == s.disabled,
        s.read_until(providers, from, now, threshold).0.status == s.status,
        s.read_until(providers, from, now, threshold).0.usage == s.usage,
        s.read_until(providers, from, now, threshold).0.cursor == s.cursor,
    decreases providers.len() - from,
{
    if from < providers.len() {
        let name = providers[from].name@;
        let next = s.read(name, now);
        assert forall|other: Seq<char>| next.score_at(other, now) == s.score_at(other, now) by {
            if other == name {
                assert(next.health_of(other, now) == s.health_of(other, now).drifted(now));
            } else {
                assert(next.health_of(other, now) == s.health_of(other, now));
            }
        }
        assert(next.health[name].score == s.score_at(name, now));
        if next.health[name].score > threshold {
            assert(s.score_at(providers[from].name@, now) > threshold);
        } else {
            lemma_read_until_judges(next, providers, from + 1, now, threshold);
            assert forall|i: int| from <= i < providers.len() && s.read_until(
                providers,
                from,
                now,
                threshold,
            ).1 implies s.score_at(#[trigger] providers[i].name@, now) <= threshold by {
                if i > from {
                    assert(next.score_at(providers[i].name@, now) <= threshold);
                }
            }
            if forall|i: int|
                from <= i < providers.len() ==> s.score_at(#[trigger] providers[i].name@, now)
                    <= threshold {
                assert forall|i: int| from + 1 <= i < providers.len() implies next.score_at(
                    #[trigger] providers[i].name@,
                    now,
                ) <= threshold by {
                    assert(s.score_at(providers[i].name@, now) <= threshold);
                }
            }
        }
    }
}

/// A limiter that has seen no request counts none in any window.
pub proof fn lemma_fresh_is_empty(limit: nat, now: u64)
    ensures
        LimiterView::fresh(limit).current(now) == 0,
{
    lemma_zero_slots_count_none(LimiterView::fresh(limit).slots, now);
}

/// Slots never written count for nothing.
pub proof fn lemma_zero_slots_count_none(slots: Seq<u64>, now: u64)
    requires
        forall|i: int| 0 <= i < slots.len() ==> slots[i] == 0,
    ensures
        crate::provider::count_recent(slots, now) == 0,
    decreases slots.len(),
{
    if slots.len() > 0 {
        lemma_zero_slots_count_none(slots.drop_last(), now);
    }
}

impl ProxyState {
    /// Whether the limiter of `provider_name` admits a request now.
    pub fn can_request(&self, provider_name: &str) -> (r: bool)
        requires
            self.wf(),
        ensures
            exists|now: u64| r == self@.admits(provider_name@, now),
    {
        self.can_request_at(provider_name, unix_now())
    }

    /// Counts one request to `provider_name`, made now.
    pub fn record_request(&mut self, provider_name: &str)
        requires
            old(self).wf(),
        ensures
            final(self).wf(),
            exists|now: u64| final(self)@ == old(self)@.requested(provider_name@, now),
    {
        self.record_request_at(provider_name, unix_now())
    }

    /// Requests to `provider_name` counted in the window that ends now.
    pub fn get_current_requests(&self, provider_name: &str) -> (r: usize)
        requires
            self.wf(),
        ensures
            exists|now: u64| r as nat == self@.limiters[provider_name@].current(now),
            r <= self@.rate_limit,
    {
        self.get_current_requests_at(provider_name, unix_now())
    }

    /// Records a success of `provider_name`, had now.
    pub fn record_provider_success(&mut self, provider_name: &str)
        requires
            old(self).wf(),
        ensures
            final(self).wf(),
            exists|now: u64| final(self)@ == old(self)@.succeeded(provider_name@, now),
    {
        self.record_provider_success_at(provider_name, unix_now())
    }

    /// Records a failure of `provider_name`, had now.
    pub fn record_provider_failure(&mut self, provider_name: &str)
        requires
            old(self).wf(),
        ensures
            final(self).wf(),
            exists|now: u64| final(self)@ == old(self)@.failed(provider_name@, now),
    {
        self.record_provider_failure_at(provider_name, unix_now())
    }

    /// The score of `provider_name` as read now, after idle drift.
    pub fn get_provider_health_score(&mut self, provider_name: &str) -> (r: u8)
        requires
            old(self).wf(),
        ensures
            final(self).wf(),
            exists|now: u64|
                final(self)@ == old(self)@.read(provider_name@, now) && r as nat == old(
                    self,
                )@.score_at(provider_name@, now),
            r as nat == final(self)@.health[provider_name@].score,
            r <= 100,
    {
        self.get_provider_health_score_at(provider_name, unix_now())
    }

    /// Whether `provider_name` is healthy as read now.
    pub fn is_provider_healthy(&mut self, provider_name: &str) -> (r: bool)
        requires
            old(self).wf(),
        ensures
            final(self).wf(),
            exists|now: u64|
                final(self)@ == old(self)@.read(provider_name@, now) && r == old(self)@.healthy_at(
                    provider_name@,
                    now,
                ),
            r == final(self)@.health[provider_name@].healthy(),
    {
        self.is_provider_healthy_at(provider_name, unix_now())
    }

    /// Whether none of `providers` is healthy as read now.
    pub fn all_providers_unhealthy(&mut self, providers: &Vec<Provider>) -> (r: bool)
        requires
            old(self).wf(),
        ensures
            final(self).wf(),
            exists|now: u64| (final(self)@, r) == old(self)@.read_until(providers@, 0, now, 20),
    {
        self.all_providers_unhealthy_at(providers, unix_now())
    }

    /// Whether every one of `providers` has score zero as read now.
    pub fn all_providers_down(&mut self, providers: &Vec<Provider>) -> (r: bool)
        requires
            old(self).wf(),
        ensures
            final(self).wf(),
            exists|now: u64| (final(self)@, r) == old(self)@.read_until(providers@, 0, now, 0),
    {
        self.all_providers_down_at(providers, unix_now())
    }

    /// Gives every one of `providers` an emergency recovery, as of now.
    pub fn emergency_recovery_all(&mut self, providers: &Vec<Provider>)
        requires
            old(self).wf(),
        ensures
            final(self).wf(),
            exists|now: u64|
                final(self)@ == old(self)@.revived_all(providers@, providers.len() as int, now),
    {
        self.emergency_recovery_all_at(providers, unix_now())
    }

    /// Chooses the provider for the next attempt, in round-robin order, as
    /// of now.
    pub fn select_next_provider(&mut self, providers: &Vec<Provider>) -> (r: Option<usize>)
        requires
            old(self).wf(),
        ensures
            final(self).wf(),
            providers.len() == 0 ==> r.is_none() && final(self)@ == old(self)@,
            providers.len() > 0 ==> exists|now: u64|
                {
                    &&& final(self)@ == (#[trigger] old(self)@.advanced().selected(
                        providers@,
                        round_start(old(self)@.cursor, providers.len() as nat),
                        now,
        no_skip(),
                    )).0
                    &&& found(r) == old(self)@.advanced().selected(
                        providers@,
                        round_start(old(self)@.cursor, providers.len() as nat),
                        now,
        no_skip(),
                    ).1
                },
    {
        self.select_next_provider_at(providers, unix_now())
    }

    /// Chooses the provider for the next attempt in a round that starts at
    /// place `seed` modulo the number of providers, as of now.
    pub fn select_provider_randomly(&mut self, providers: &Vec<Provider>, seed: usize) -> (r: Option<
        usize,
    >)
        requires
            old(self).wf(),
        ensures
            final(self).wf(),
            providers.len() == 0 ==> r.is_none() && final(self)@ == old(self)@,
            providers.len() > 0 ==> exists|now: u64|
                {
                    &&& final(self)@ == (#[trigger] old(self)@.selected(
                        providers@,
                        round_start(seed as nat, providers.len() as nat),
                        now,
        no_skip(),
                    )).0
                    &&& found(r) == old(self)@.selected(
                        providers@,
                        round_start(seed as nat, providers.len() as nat),
                        now,
        no_skip(),
                    ).1
                },
    {
        self.select_provider_randomly_at(providers, seed, unix_now())
    }

    /// How many of `providers` are healthy, and the mean of their scores
    /// rounded down, each score as read now.
    pub fn health_summary(&mut self, providers: &Vec<Provider>) -> (r: (usize, u32))
        requires
            old(self).wf(),
        ensures
            final(self).wf(),
            exists|now: u64|
                {
                    &&& final(self)@ == (#[trigger] survey(
                        old(self)@,
                        providers@,
                        providers.len() as int,
                        now,
                    )).0
                    &&& r.0 == survey(old(self)@, providers@, providers.len() as int, now).1
                    &&& providers.len() > 0 ==> r.1 == survey(
                        old(self)@,
                        providers@,
                        providers.len() as int,
                        now,
                    ).2 / providers.len() as nat
                },
            providers.len() == 0 ==> r.1 == 0,
            r.0 <= providers.len(),
            r.1 <= 100,
    {
        self.health_summary_at(providers, unix_now())
    }
}

} // verus!
