//! The dispatcher: which upstream gets a request, what follows from its
//! answer, and what the proxy answers itself when nobody is left.
//!
//! The dispatcher does not talk to upstreams. It is a state machine: a step
//! takes the proxy state and what happened and gives the next thing to do.
//! Whoever drives it sends the request when told `Forward`, and comes back
//! with the outcome.

use vstd::prelude::*;
use vstd::string::*;
use crate::clock::unix_now;
use crate::provider::Provider;
use crate::proxy::{all_disabled, lemma_selection, round_start, ProxyState, StateView};

verus! {

/// The answers that the proxy writes itself.
#[derive(Clone, Copy, Debug, PartialEq, Eq)]
pub enum ProxyReply {
    /// The body of the inbound request could not be read.
    BadRequest,
    /// No provider is configured.
    NoProviders,
    /// The operator has disabled every provider.
    AllDisabled,
    /// Every attempt of a normal dispatch failed.
    Exhausted,
    /// Every attempt of an emergency dispatch failed.
    EmergencyExhausted,
}

impl ProxyReply {
    pub open spec fn spec_status(self) -> u16 {
        match self {
            ProxyReply::BadRequest => 400,
            _ => 503,
        }
    }

    pub open spec fn spec_retry_after(self) -> Option<u32> {
        match self {
            ProxyReply::BadRequest => None,
            ProxyReply::NoProviders => Some(60u32),
            ProxyReply::AllDisabled => Some(30u32),
            ProxyReply::Exhausted => Some(30u32),
            ProxyReply::EmergencyExhausted => Some(120u32),
        }
    }

    pub open spec fn spec_body(self) -> Seq<char> {
        match self {
            ProxyReply::BadRequest => "Bad Request"@,
            ProxyReply::NoProviders => "No providers configured"@,
            ProxyReply::AllDisabled => "All providers are disabled by user. Please enable at least one provider."@,
            ProxyReply::Exhausted => "Service temporarily unavailable - all providers failed"@,
            ProxyReply::EmergencyExhausted => "Service unavailable - all providers are down. Please try again in 2 minutes."@,
        }
    }

    /// The HTTP status of the answer.
    pub fn status(&self) -> (r: u16)
        ensures
            r == self.spec_status(),
    {
        match self {
            ProxyReply::BadRequest => 400,
            _ => 503,
        }
    }

    /// Seconds for the `Retry-After` header, where the answer has one.
    pub fn retry_after(&self) -> (r: Option<u32>)
        ensures
            r == self.spec_retry_after(),
    {
        match self {
            ProxyReply::BadRequest => None,
            ProxyReply::NoProviders => Some(60),
            ProxyReply::AllDisabled => Some(30),
            ProxyReply::Exhausted => Some(30),
            ProxyReply::EmergencyExhausted => Some(120),
        }
    }

    /// The text of the answer.
    pub fn body(&self) -> (r: &'static str)
        ensures
            r@ == self.spec_body(),
    {
        match self {
            ProxyReply::BadRequest => "Bad Request",
            ProxyReply::NoProviders => "No providers configured",
            ProxyReply::AllDisabled => "All providers are disabled by user. Please enable at least one provider.",
            ProxyReply::Exhausted => "Service temporarily unavailable - all providers failed",
            ProxyReply::EmergencyExhausted => "Service unavailable - all providers are down. Please try again in 2 minutes.",
        }
    }
}

/// How a dispatch goes about its attempts.
#[derive(Clone, Copy, Debug, PartialEq, Eq)]
pub enum DispatchMode {
    /// Some provider is healthy: each attempt goes to a selected provider.
    Normal,
    /// No provider is healthy: every enabled provider is tried once, in the
    /// order of the configuration.
    Emergency,
}

/// How an attempt ended.
#[derive(Clone, Copy, Debug, PartialEq, Eq)]
pub enum Outcome {
    /// The upstream answered with this status.
    Status(u16),
    /// The request did not get an answer.
    NetworkError,
}

/// What the driver of a dispatch does next.
#[derive(Clone, Copy, Debug, PartialEq, Eq)]
pub enum Action {
    /// Send the request to the provider at this place, and come back with
    /// the outcome.
    Forward(usize),
    /// Hand the answer of the provider at this place to the client, as it is.
    Relay(usize),
    /// Answer the client with this.
    Reply(ProxyReply),
}

/// Where the dispatch of one inbound request stands.
#[derive(Clone, Debug, PartialEq, Eq)]
pub struct Dispatch {
    pub mode: DispatchMode,
    /// Normal mode: selections made. Emergency mode: providers gone through.
    pub progress: usize,
    /// Requests that the driver was told to send.
    pub forwarded: usize,
    /// The provider whose outcome is awaited.
    pub pending: Option<usize>,
    /// For each place, whether a request of this dispatch went to it.
    pub tried: Vec<bool>,
    /// The places that the last step counted as failed without a request,
    /// because their limiter refused, in the order in which it came to them.
    pub refused: Vec<usize>,
}

/// A dispatch as a value.
pub struct DispatchView {
    pub mode: DispatchMode,
    pub progress: usize,
    pub forwarded: usize,
    pub pending: Option<usize>,
    pub tried: Seq<bool>,
    pub refused: Seq<usize>,
}

impl View for Dispatch {
    type V = DispatchView;

    open spec fn view(&self) -> DispatchView {
        DispatchView {
            mode: self.mode,
            progress: self.progress,
            forwarded: self.forwarded,
            pending: self.pending,
            tried: self.tried@,
            refused: self.refused@,
        }
    }
}

impl DispatchView {
    /// Validity for a list of `n` providers. Every place has its mark, and
    /// the place that is awaited has been sent to. In emergency mode nothing
    /// went to the places not yet gone through.
    pub open spec fn wf(self, n: nat) -> bool {
        &&& self.forwarded <= self.progress <= n
        &&& self.tried.len() == n
        &&& match self.pending {
            Some(i) => i < n && self.tried[i as int],
            None => true,
        }
        &&& (self.mode is Emergency ==> forall|j: int| self.progress <= j < n ==> !self.tried[j])
    }

    /// A dispatch over `n` providers that has done nothing yet.
    pub open spec fn idle(mode: DispatchMode, n: nat) -> DispatchView {
        DispatchView {
            mode,
            progress: 0,
            forwarded: 0,
            pending: None,
            tried: Seq::new(n, |i: int| false),
            refused: Seq::empty(),
        }
    }

    /// The dispatch at the start of a step: nothing is awaited, and no place
    /// has been refused in this step.
    pub open spec fn cleared(self) -> DispatchView {
        DispatchView { pending: None, refused: Seq::empty(), ..self }
    }

    /// The dispatch after one more provider was passed over.
    pub open spec fn passed(self) -> DispatchView {
        DispatchView { progress: (self.progress + 1) as usize, ..self }
    }

    /// The dispatch after the limiter of the provider it stands at refused.
    pub open spec fn turned_away(self) -> DispatchView {
        DispatchView {
            progress: (self.progress + 1) as usize,
            refused: self.refused.push(self.progress),
            ..self
        }
    }

    /// The dispatch after one more selection or provider, with the request
    /// sent to the provider at place `i`.
    pub open spec fn sent(self, i: usize) -> DispatchView {
        DispatchView {
            progress: (self.progress + 1) as usize,
            forwarded: (self.forwarded + 1) as usize,
            pending: Some(i),
            tried: self.tried.update(i as int, true),
            ..self
        }
    }
}

/// Whether a status is one of success, 200 to 299.
pub open spec fn is_success(code: u16) -> bool {
    200 <= code < 300
}

/// What a step of the dispatcher gives: the proxy state after it, where the
/// dispatch stands, and what to do.
pub struct Step {
    pub state: StateView,
    pub dispatch: DispatchView,
    pub action: Action,
}

impl StateView {
    /// The state after an attempt at `name` was refused by its limiter, or
    /// got no answer: a failure, and status zero.
    pub open spec fn unanswered(self, name: Seq<char>, now: u64) -> StateView {
        self.failed(name, now).with_status(name, 0)
    }

    /// The state after `name` answered with `code`, of which `tokens` count
    /// on success.
    pub open spec fn answered(self, name: Seq<char>, code: u16, tokens: u64, now: u64) -> StateView {
        if is_success(code) {
            self.with_status(name, code).succeeded(name, now).with_usage(name, tokens)
        } else {
            self.with_status(name, code).failed(name, now)
        }
    }

    /// Emergency mode, from where `d` stands: the providers are gone through
    /// in the order of the configuration. A disabled one is passed over. One
    /// whose limiter refuses counts as failed without a request, and its
    /// place is noted. The request goes to the first other one.
    pub open spec fn emergency_next(self, providers: Seq<Provider>, d: DispatchView, now: u64) -> Step
        decreases providers.len() - d.progress,
    {
        if d.progress >= providers.len() || providers.len() > usize::MAX {
            Step { state: self, dispatch: d, action: Action::Reply(ProxyReply::EmergencyExhausted) }
        } else {
            let name = providers[d.progress as int].name@;
            if self.disabled[name] {
                self.emergency_next(providers, d.passed(), now)
            } else if !self.admits(name, now) {
                self.unanswered(name, now).emergency_next(providers, d.turned_away(), now)
            } else {
                Step {
                    state: self.requested(name, now),
                    dispatch: d.sent(d.progress),
                    action: Action::Forward(d.progress),
                }
            }
        }
    }

    /// Normal mode, from where `d` stands: after as many selections as there
    /// are providers, or when the selection finds nobody among the places
    /// that no request of this dispatch went to, the dispatch gives up; else
    /// the request goes to the provider selected.
    pub open spec fn normal_next(self, providers: Seq<Provider>, d: DispatchView, now: u64) -> Step {
        if d.progress >= providers.len() {
            Step { state: self, dispatch: d, action: Action::Reply(ProxyReply::Exhausted) }
        } else {
            let start = round_start(self.cursor, providers.len());
            let chosen = self.advanced().selected(providers, start, now, d.tried);
            match chosen.1 {
                Some(index) => Step {
                    state: chosen.0.requested(providers[index].name@, now),
                    dispatch: d.sent(index as usize),
                    action: Action::Forward(index as usize),
                },
                None => Step {
                    state: chosen.0,
                    dispatch: d,
                    action: Action::Reply(ProxyReply::Exhausted),
                },
            }
        }
    }

    /// The next attempt, in the mode of `d`.
    pub open spec fn next(self, providers: Seq<Provider>, d: DispatchView, now: u64) -> Step {
        match d.mode {
            DispatchMode::Normal => self.normal_next(providers, d, now),
            DispatchMode::Emergency => self.emergency_next(providers, d, now),
        }
    }

    /// The start of a dispatch. Without providers, or with all of them
    /// disabled, the proxy answers at once and nothing changes. Else, if
    /// every provider is down, all get an emergency recovery; and the mode is
    /// the emergency one exactly if no provider is healthy then.
    pub open spec fn begun(self, providers: Seq<Provider>, now: u64) -> Step {
        if providers.len() == 0 {
            Step {
                state: self,
                dispatch: DispatchView::idle(DispatchMode::Normal, providers.len()),
                action: Action::Reply(ProxyReply::NoProviders),
            }
        } else if all_disabled(self.disabled, providers) {
            Step {
                state: self,
                dispatch: DispatchView::idle(DispatchMode::Normal, providers.len()),
                action: Action::Reply(ProxyReply::AllDisabled),
            }
        } else {
            let looked = self.read_until(providers, 0, now, 0);
            let lifted = if looked.1 {
                looked.0.revived_all(providers, providers.len() as int, now)
            } else {
                looked.0
            };
            let judged = lifted.read_until(providers, 0, now, 20);
            if judged.1 {
                judged.0.emergency_next(
                    providers,
                    DispatchView::idle(DispatchMode::Emergency, providers.len()),
                    now,
                )
            } else {
                judged.0.normal_next(
                    providers,
                    DispatchView::idle(DispatchMode::Normal, providers.len()),
                    now,
                )
            }
        }
    }

    /// What follows from the outcome of the attempt that `d` awaits. A
    /// status of success ends the dispatch: the provider gets a success and
    /// the tokens, and its answer is relayed. Anything else is a failure of
    /// that provider, and the dispatch goes on to the next attempt.
    pub open spec fn resumed(
        self,
        providers: Seq<Provider>,
        d: DispatchView,
        outcome: Outcome,
        tokens: u64,
        now: u64,
    ) -> Step {
        let place = d.pending.unwrap();
        let name = providers[place as int].name@;
        match outcome {
            Outcome::Status(code) => if is_success(code) {
                Step {
                    state: self.answered(name, code, tokens, now),
                    dispatch: d.cleared(),
                    action: Action::Relay(place),
                }
            } else {
                self.answered(name, code, tokens, now).next(providers, d.cleared(), now)
            },
            Outcome::NetworkError => self.unanswered(name, now).next(providers, d.cleared(), now),
        }
    }
}

/// Marks for `n` places, none of them set.
pub fn unmarked(n: usize) -> (r: Vec<bool>)
    ensures
        r@ == Seq::new(n as nat, |i: int| false),
{
    let mut marks: Vec<bool> = Vec::new();
    while marks.len() < n
        invariant
            marks.len() <= n,
            forall|i: int| 0 <= i < marks.len() ==> !marks[i],
        decreases n - marks.len(),
    {
        marks.push(false);
    }
    assert(marks@ =~= Seq::new(n as nat, |i: int| false));
    marks
}

impl ProxyState {
    /// The next attempt of an emergency dispatch.
    fn emergency_step(&mut self, providers: &Vec<Provider>, dispatch: Dispatch, now: u64) -> (r: (
        Dispatch,
        Action,
    ))
        requires
            old(self).wf(),
            dispatch@.wf(providers.len() as nat),
        ensures
            final(self).wf(),
            (Step { state: final(self)@, dispatch: r.0@, action: r.1 }) == old(self)@.emergency_next(
                providers@,
                dispatch@,
                now,
            ),
    {
        let n = providers.len();
        let ghost start = dispatch@;
        let mut d = dispatch;
        while d.progress < n
            invariant
                self.wf(),
                n == providers.len(),
                d.forwarded <= d.progress <= n,
                d.tried.len() == n,
                start == dispatch@,
                self@.emergency_next(providers@, d@, now) == old(self)@.emergency_next(
                    providers@,
                    start,
                    now,
                ),
            decreases n - d.progress,
        {
            let ghost before = d@;
            let place = d.progress;
            let name = providers[place].name.as_str();
            if self.is_provider_disabled(name) {
                d.progress = place + 1;
                assert(d@ == before.passed());
            } else if !self.can_request_at(name, now) {
                self.record_provider_failure_at(name, now);
                self.record_status_code(name, 0);
                d.progress = place + 1;
                d.refused.push(place);
                assert(d@ == before.turned_away());
            } else {
                self.record_request_at(name, now);
                d.progress = place + 1;
                d.forwarded = d.forwarded + 1;
                d.pending = Some(place);
                d.tried.set(place, true);
                assert(d@ == before.sent(place));
                return (d, Action::Forward(place));
            }
        }
        (d, Action::Reply(ProxyReply::EmergencyExhausted))
    }

    /// The next attempt of a normal dispatch.
    fn normal_step(&mut self, providers: &Vec<Provider>, dispatch: Dispatch, now: u64) -> (r: (
        Dispatch,
        Action,
    ))
        requires
            old(self).wf(),
            dispatch@.wf(providers.len() as nat),
        ensures
            final(self).wf(),
            (Step { state: final(self)@, dispatch: r.0@, action: r.1 }) == old(self)@.normal_next(
                providers@,
                dispatch@,
                now,
            ),
    {
        let mut d = dispatch;
        if d.progress >= providers.len() {
            return (d, Action::Reply(ProxyReply::Exhausted));
        }
        proof {
            let start = round_start(self@.cursor, providers@.len());
            lemma_selection(self@.advanced(), providers@, start, now, d@.tried);
        }
        let ghost before = d@;
        match self.select_next_untried_at(providers, &d.tried, now) {
            Some(index) => {
                self.record_request_at(providers[index].name.as_str(), now);
                d.progress = d.progress + 1;
                d.forwarded = d.forwarded + 1;
                d.pending = Some(index);
                d.tried.set(index, true);
                assert(d@ == before.sent(index));
                (d, Action::Forward(index))
            },
            None => (d, Action::Reply(ProxyReply::Exhausted)),
        }
    }

    /// The next attempt, in the mode of `dispatch`.
    fn next_step(&mut self, providers: &Vec<Provider>, dispatch: Dispatch, now: u64) -> (r: (
        Dispatch,
        Action,
    ))
        requires
            old(self).wf(),
            dispatch@.wf(providers.len() as nat),
        ensures
            final(self).wf(),
            (Step { state: final(self)@, dispatch: r.0@, action: r.1 }) == old(self)@.next(
                providers@,
                dispatch@,
                now,
            ),
    {
        match dispatch.mode {
            DispatchMode::Normal => self.normal_step(providers, dispatch, now),
            DispatchMode::Emergency => self.emergency_step(providers, dispatch, now),
        }
    }

    /// Starts the dispatch of one inbound request at `now`, and says what to
    /// do first.
    pub fn begin_dispatch_at(&mut self, providers: &Vec<Provider>, now: u64) -> (r: (Dispatch, Action))
        requires
            old(self).wf(),
        ensures
            final(self).wf(),
            (Step { state: final(self)@, dispatch: r.0@, action: r.1 }) == old(self)@.begun(
                providers@,
                now,
            ),
            r.0@.wf(providers.len() as nat),
            r.0.forwarded <= 1,
            r.1 is Forward <==> r.0.pending is Some,
            r.1 is Forward ==> r.0.pending == Some(r.1->Forward_0) && r.0.forwarded == 1,
            !(r.1 is Forward) ==> r.0.forwarded == 0,
            !(r.1 is Relay),
    {
        let mut first = Dispatch {
            mode: DispatchMode::Normal,
            progress: 0,
            forwarded: 0,
            pending: None,
            tried: unmarked(providers.len()),
            refused: Vec::new(),
        };
        assert(first@ == DispatchView::idle(DispatchMode::Normal, providers@.len()));
        if providers.len() == 0 {
            return (first, Action::Reply(ProxyReply::NoProviders));
        }
        if self.all_providers_disabled(providers) {
            return (first, Action::Reply(ProxyReply::AllDisabled));
        }
        if self.all_providers_down_at(providers, now) {
            self.emergency_recovery_all_at(providers, now);
        }
        if self.all_providers_unhealthy_at(providers, now) {
            first.mode = DispatchMode::Emergency;
            assert(first@ == DispatchView::idle(DispatchMode::Emergency, providers@.len()));
            proof {
                lemma_next_keeps_count(self@, providers@, first@, now);
            }
            self.emergency_step(providers, first, now)
        } else {
            proof {
                lemma_next_keeps_count(self@, providers@, first@, now);
            }
            self.normal_step(providers, first, now)
        }
    }

    /// Takes the outcome of the attempt that `dispatch` awaits, at `now`,
    /// and says what to do next. `tokens` is what the request counts for if
    /// it succeeded.
    ///
    /// A request never goes to a place that a request of this dispatch went
    /// to before.
    pub fn resume_dispatch_at(
        &mut self,
        providers: &Vec<Provider>,
        dispatch: Dispatch,
        outcome: Outcome,
        tokens: u64,
        now: u64,
    ) -> (r: (Dispatch, Action))
        requires
            old(self).wf(),
            dispatch@.wf(providers.len() as nat),
            dispatch.pending is Some,
        ensures
            final(self).wf(),
            (Step { state: final(self)@, dispatch: r.0@, action: r.1 }) == old(self)@.resumed(
                providers@,
                dispatch@,
                outcome,
                tokens,
                now,
            ),
            r.0@.wf(providers.len() as nat),
            r.1 is Forward <==> r.0.pending is Some,
            r.1 is Forward ==> r.0.pending == Some(r.1->Forward_0) && r.0.forwarded
                == dispatch.forwarded + 1,
            r.1 is Forward ==> !dispatch@.tried[r.1->Forward_0 as int] && r.0@.tried
                == dispatch@.tried.update(r.1->Forward_0 as int, true),
            !(r.1 is Forward) ==> r.0.forwarded == dispatch.forwarded && r.0@.tried
                == dispatch@.tried,
            r.1 is Relay <==> (outcome matches Outcome::Status(code) && is_success(code)),
    {
        let place = match dispatch.pending {
            Some(place) => place,
            None => 0,
        };
        let name = providers[place].name.as_str();
        let mut cleared = dispatch;
        cleared.pending = None;
        cleared.refused = Vec::new();
        assert(cleared@ == dispatch@.cleared());
        match outcome {
            Outcome::Status(code) => {
                self.record_status_code(name, code);
                if 200 <= code && code < 300 {
                    self.record_provider_success_at(name, now);
                    self.record_token_usage(name, tokens);
                    return (cleared, Action::Relay(place));
                }
                self.record_provider_failure_at(name, now);
            },
            Outcome::NetworkError => {
                self.record_provider_failure_at(name, now);
                self.record_status_code(name, 0);
            },
        }
        proof {
            lemma_next_keeps_count(self@, providers@, cleared@, now);
        }
        self.next_step(providers, cleared, now)
    }
}

/// A step to the next attempt sends at most one request, only while fewer
/// requests were sent than there are providers, and never to a place that a
/// request of this dispatch went to before. The dispatch stays valid; the
/// count of requests sent goes up by one, and the place is marked, exactly
/// when the step says `Forward`; and the step never says `Relay`. The places
/// that the step notes as refused are places it went through whose provider
/// is enabled and whose limiter refuses.
pub proof fn lemma_next_keeps_count(s: StateView, providers: Seq<Provider>, d: DispatchView, now: u64)
    requires
        d.wf(providers.len()),
        d.pending is None,
        providers.len() <= usize::MAX,
    ensures
        ({
            let step = s.next(providers, d, now);
            &&& step.dispatch.wf(providers.len())
            &&& step.dispatch.mode == d.mode
            &&& !(step.action is Relay)
            &&& (step.action is Forward <==> step.dispatch.pending is Some)
            &&& (step.action is Forward ==> {
                &&& step.dispatch.pending == Some(step.action->Forward_0)
                &&& step.dispatch.forwarded == d.forwarded + 1
                &&& step.action->Forward_0 < providers.len()
                &&& !d.tried[step.action->Forward_0 as int]
                &&& step.dispatch.tried == d.tried.update(step.action->Forward_0 as int, true)
            })
            &&& (!(step.action is Forward) ==> step.dispatch.forwarded == d.forwarded
                && step.dispatch.tried == d.tried)
            &&& step.dispatch.refused.len() >= d.refused.len()
            &&& forall|k: int|
                d.refused.len() <= k < step.dispatch.refused.len() ==> {
                    let place = #[trigger] step.dispatch.refused[k];
                    &&& d.progress <= place < step.dispatch.progress
                    &&& !s.disabled[providers[place as int].name@]
                    &&& !s.admits(providers[place as int].name@, now)
                }
        }),
    decreases providers.len() - d.progress,
{
    match d.mode {
        DispatchMode::Normal => {
            if d.progress < providers.len() {
                let start = round_start(s.cursor, providers.len());
                lemma_selection(s.advanced(), providers, start, now, d.tried);
            }
        },
        DispatchMode::Emergency => {
            if d.progress < providers.len() {
                let name = providers[d.progress as int].name@;
                if s.disabled[name] {
                    lemma_next_keeps_count(s, providers, d.passed(), now);
                } else if !s.admits(name, now) {
                    let t = s.unanswered(name, now);
                    lemma_next_keeps_count(t, providers, d.turned_away(), now);
                    let step = s.next(providers, d, now);
                    assert(step == t.next(providers, d.turned_away(), now));
                    assert forall|k: int|
                        d.refused.len() <= k < step.dispatch.refused.len() implies {
                        let place = #[trigger] step.dispatch.refused[k];
                        &&& d.progress <= place < step.dispatch.progress
                        &&& !s.disabled[providers[place as int].name@]
                        &&& !s.admits(providers[place as int].name@, now)
                    } by {
                        lemma_refused_prefix(t, providers, d.turned_away(), now);
                        if k == d.refused.len() {
                            assert(step.dispatch.refused[k] == d.turned_away().refused[k]);
                        }
                    }
                }
            }
        },
    }
}

/// A step keeps what was noted as refused before it, and adds to it.
pub proof fn lemma_refused_prefix(s: StateView, providers: Seq<Provider>, d: DispatchView, now: u64)
    requires
        providers.len() <= usize::MAX,
    ensures
        s.next(providers, d, now).dispatch.refused.len() >= d.refused.len(),
        forall|k: int|
            0 <= k < d.refused.len() ==> s.next(providers, d, now).dispatch.refused[k]
                == d.refused[k],
        s.next(providers, d, now).dispatch.progress >= d.progress,
    decreases providers.len() - d.progress,
{
    let after = s.next(providers, d, now).dispatch;
    match d.mode {
        DispatchMode::Normal => {
            assert(after.refused == d.refused);
        },
        DispatchMode::Emergency => {
            if d.progress < providers.len() {
                let name = providers[d.progress as int].name@;
                if s.disabled[name] {
                    lemma_refused_prefix(s, providers, d.passed(), now);
                    assert(after == s.next(providers, d.passed(), now).dispatch);
                } else if !s.admits(name, now) {
                    let t = s.unanswered(name, now);
                    lemma_refused_prefix(t, providers, d.turned_away(), now);
                    assert(after == t.next(providers, d.turned_away(), now).dispatch);
                    assert forall|k: int| 0 <= k < d.refused.len() implies after.refused[k]
                        == d.refused[k] by {
                        assert(d.turned_away().refused[k] == d.refused[k]);
                    }
                } else {
                    assert(after.refused == d.refused);
                }
            } else {
                assert(after == d);
            }
        },
    }
}

/// From its start on, and through every outcome, a dispatch stays valid: it
/// has sent at most as many requests as there are providers, whatever the
/// mode. A step sends at most one request, it sends one exactly when it
/// says `Forward`, and it sends none to a place that a request of this
/// dispatch went to before.
pub proof fn lemma_dispatch_stays_valid(
    s: StateView,
    providers: Seq<Provider>,
    d: DispatchView,
    outcome: Outcome,
    tokens: u64,
    now: u64,
)
    requires
        d.wf(providers.len()),
        d.pending is Some,
        providers.len() <= usize::MAX,
    ensures
        s.begun(providers, now).dispatch.wf(providers.len()),
        s.begun(providers, now).dispatch.forwarded <= 1,
        s.begun(providers, now).dispatch.forwarded <= providers.len(),
        s.begun(providers, now).action is Forward <==> s.begun(providers, now).dispatch.forwarded
            == 1,
        s.resumed(providers, d, outcome, tokens, now).dispatch.wf(providers.len()),
        s.resumed(providers, d, outcome, tokens, now).dispatch.forwarded <= providers.len(),
        s.resumed(providers, d, outcome, tokens, now).dispatch.forwarded == d.forwarded + if s.resumed(
            providers,
            d,
            outcome,
            tokens,
            now,
        ).action is Forward {
            1int
        } else {
            0int
        },
        s.resumed(providers, d, outcome, tokens, now).action is Forward ==> {
            let place = s.resumed(providers, d, outcome, tokens, now).action->Forward_0;
            &&& place < providers.len()
            &&& !d.tried[place as int]
            &&& place != d.pending.unwrap()
            &&& s.resumed(providers, d, outcome, tokens, now).dispatch.tried == d.tried.update(
                place as int,
                true,
            )
        },
{
    if providers.len() > 0 && !all_disabled(s.disabled, providers) {
        let looked = s.read_until(providers, 0, now, 0);
        let lifted = if looked.1 {
            looked.0.revived_all(providers, providers.len() as int, now)
        } else {
            looked.0
        };
        let judged = lifted.read_until(providers, 0, now, 20);
        lemma_next_keeps_count(
            judged.0,
            providers,
            DispatchView::idle(DispatchMode::Emergency, providers.len()),
            now,
        );
        lemma_next_keeps_count(
            judged.0,
            providers,
            DispatchView::idle(DispatchMode::Normal, providers.len()),
            now,
        );
    }
    let name = providers[d.pending.unwrap() as int].name@;
    match outcome {
        Outcome::Status(code) => {
            if !is_success(code) {
                lemma_next_keeps_count(
                    s.answered(name, code, tokens, now),
                    providers,
                    d.cleared(),
                    now,
                );
            }
        },
        Outcome::NetworkError => {
            lemma_next_keeps_count(s.unanswered(name, now), providers, d.cleared(), now);
        },
    }
}

/// A dispatch sends no request when no provider is configured or all are
/// disabled, and leaves the state as it was.
pub proof fn lemma_nothing_sent_when_all_disabled(s: StateView, providers: Seq<Provider>, now: u64)
    requires
        all_disabled(s.disabled, providers),
    ensures
        s.begun(providers, now).action is Reply,
        s.begun(providers, now).state == s,
        s.begun(providers, now).dispatch.forwarded == 0,
        providers.len() > 0 ==> s.begun(providers, now).action == Action::Reply(ProxyReply::AllDisabled),
{
}

/// An answer of success counts once, and for the provider that gave it only:
/// that provider gets one success, nobody else's health changes, and no
/// limiter counts anything. The one request of that attempt was counted when
/// it was sent.
pub proof fn lemma_success_counts_once(
    s: StateView,
    providers: Seq<Provider>,
    d: DispatchView,
    code: u16,
    tokens: u64,
    now: u64,
)
    requires
        d.wf(providers.len()),
        d.pending is Some,
        is_success(code),
    ensures
        ({
            let name = providers[d.pending.unwrap() as int].name@;
            let step = s.resumed(providers, d, Outcome::Status(code), tokens, now);
            &&& step.action == Action::Relay(d.pending.unwrap())
            &&& step.dispatch.forwarded == d.forwarded
            &&& step.state.limiters == s.limiters
            &&& step.state.health == s.health.insert(name, s.health_of(name, now).succeeded(now))
            &&& step.state.status == s.status.insert(name, code)
            &&& forall|other: Seq<char>|
                other != name ==> step.state.health_of(other, now) == s.health_of(other, now)
        }),
{
}

/// Sending a request in normal mode counts it once, for the provider it goes
/// to, which is enabled and admitted and was not sent to before in this
/// dispatch; no other limiter changes.
pub proof fn lemma_forward_counts_once(s: StateView, providers: Seq<Provider>, d: DispatchView, now: u64)
    requires
        d.wf(providers.len()),
        providers.len() <= usize::MAX,
        d.mode == DispatchMode::Normal,
        s.normal_next(providers, d, now).action is Forward,
    ensures
        ({
            let step = s.normal_next(providers, d, now);
            let place = step.action->Forward_0;
            let name = providers[place as int].name@;
            &&& place < providers.len()
            &&& !d.tried[place as int]
            &&& !s.disabled[name]
            &&& s.admits(name, now)
            &&& step.state.limiters == s.limiters.insert(name, s.limiters[name].recorded(now))
        }),
{
    let start = round_start(s.cursor, providers.len());
    lemma_selection(s.advanced(), providers, start, now, d.tried);
    let chosen = s.advanced().selected(providers, start, now, d.tried);
    assert(chosen.0.limiters == s.limiters);
}

impl ProxyState {
    /// Starts the dispatch of one inbound request now, and says what to do
    /// first.
    pub fn begin_dispatch(&mut self, providers: &Vec<Provider>) -> (r: (Dispatch, Action))
        requires
            old(self).wf(),
        ensures
            final(self).wf(),
            exists|now: u64|
                (Step { state: final(self)@, dispatch: r.0@, action: r.1 }) == old(self)@.begun(
                    providers@,
                    now,
                ),
            r.0@.wf(providers.len() as nat),
            r.0.forwarded <= 1,
            r.1 is Forward <==> r.0.pending is Some,
            r.1 is Forward ==> r.0.pending == Some(r.1->Forward_0) && r.0.forwarded == 1,
            !(r.1 is Forward) ==> r.0.forwarded == 0,
            !(r.1 is Relay),
    {
        self.begin_dispatch_at(providers, unix_now())
    }

    /// Takes the outcome of the attempt that `dispatch` awaits, as of now,
    /// and says what to do next.
    pub fn resume_dispatch(
        &mut self,
        providers: &Vec<Provider>,
        dispatch: Dispatch,
        outcome: Outcome,
        tokens: u64,
    ) -> (r: (Dispatch, Action))
        requires
            old(self).wf(),
            dispatch@.wf(providers.len() as nat),
            dispatch.pending is Some,
        ensures
            final(self).wf(),
            exists|now: u64|
                (Step { state: final(self)@, dispatch: r.0@, action: r.1 }) == old(self)@.resumed(
                    providers@,
                    dispatch@,
                    outcome,
                    tokens,
                    now,
                ),
            r.0@.wf(providers.len() as nat),
            r.1 is Forward <==> r.0.pending is Some,
            r.1 is Forward ==> r.0.pending == Some(r.1->Forward_0) && r.0.forwarded
                == dispatch.forwarded + 1,
            r.1 is Forward ==> !dispatch@.tried[r.1->Forward_0 as int] && r.0@.tried
                == dispatch@.tried.update(r.1->Forward_0 as int, true),
            !(r.1 is Forward) ==> r.0.forwarded == dispatch.forwarded && r.0@.tried
                == dispatch@.tried,
            r.1 is Relay <==> (outcome matches Outcome::Status(code) && is_success(code)),
    {
        self.resume_dispatch_at(providers, dispatch, outcome, tokens, unix_now())
    }
}

} // verus!
