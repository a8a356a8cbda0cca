//! Upstream provider records and the two per-provider trackers: the sliding
//! window rate limiter and the health score.
//!
//! Neither tracker reads a clock. Every operation that depends on the time
//! takes the current UNIX second as `now`, so that its effect is a function
//! of its arguments and can be stated exactly.

use vstd::prelude::*;
use vstd::string::*;
use vstd::utf8::{decode_utf8, encode_utf8, encode_utf8_decode_utf8, is_char_boundary};
use crate::clock::unix_now;

verus! {

/// Length of the admission window, in seconds.
pub const WINDOW_SECS: u64 = 60;

/// Silence, in seconds, after which a score below the maximum drifts upwards.
pub const IDLE_SECS: u64 = 300;

/// The highest health score.
pub const MAX_SCORE: u8 = 100;

/// A provider is healthy while its score is above this value.
pub const HEALTHY_ABOVE: u8 = 20;

/// The score that an emergency recovery gives to a provider that was down.
pub const REVIVED_SCORE: u8 = 10;

/// Age of `stamp` seen from `now`. A clock that ran backwards gives age zero.
pub open spec fn age(now: u64, stamp: u64) -> nat {
    if now >= stamp {
        (now - stamp) as nat
    } else {
        0
    }
}

/// Seconds elapsed since `stamp`, saturating at zero.
pub fn elapsed(now: u64, stamp: u64) -> (r: u64)
    ensures
        r as nat == age(now, stamp),
{
    if now >= stamp {
        now - stamp
    } else {
        0
    }
}

/// Whether a slot holds a request made less than a window ago.
pub open spec fn in_window(stamp: u64, now: u64) -> bool {
    stamp > 0 && age(now, stamp) < WINDOW_SECS as nat
}

/// Number of slots that hold a request made less than a window ago.
pub open spec fn count_recent(slots: Seq<u64>, now: u64) -> nat
    decreases slots.len(),
{
    if slots.len() == 0 {
        0
    } else {
        count_recent(slots.drop_last(), now) + if in_window(slots.last(), now) {
            1nat
        } else {
            0nat
        }
    }
}

/// The limiter of one provider, as a value: a ring of timestamps, the slot
/// that the next request overwrites, and how many requests were ever counted,
/// saturating at the capacity.
pub struct LimiterView {
    pub slots: Seq<u64>,
    pub next: nat,
    pub count: nat,
}

impl LimiterView {
    /// Capacity: the most requests admitted within one window.
    pub open spec fn limit(self) -> nat {
        self.slots.len()
    }

    pub open spec fn wf(self) -> bool {
        &&& self.slots.len() >= 1
        &&& self.next < self.slots.len()
        &&& self.count <= self.slots.len()
    }

    /// A limiter that has seen no request.
    pub open spec fn fresh(limit: nat) -> LimiterView {
        LimiterView { slots: Seq::new(limit, |i: int| 0u64), next: 0, count: 0 }
    }

    /// The timestamp that the next request overwrites: the oldest one tracked
    /// once the ring is full.
    pub open spec fn oldest(self) -> u64 {
        self.slots[self.next as int]
    }

    /// A request is admitted while the ring is not full, and afterwards when
    /// the oldest tracked request lies at least a window back.
    pub open spec fn admits(self, now: u64) -> bool {
        self.count < self.limit() || age(now, self.oldest()) >= WINDOW_SECS as nat
    }

    /// The limiter after one request at `now`.
    pub open spec fn recorded(self, now: u64) -> LimiterView {
        LimiterView {
            slots: self.slots.update(self.next as int, now),
            next: if self.next + 1 == self.limit() {
                0
            } else {
                self.next + 1
            },
            count: if self.count < self.limit() {
                self.count + 1
            } else {
                self.count
            },
        }
    }

    /// Requests counted in the window that ends at `now`.
    pub open spec fn current(self, now: u64) -> nat {
        count_recent(self.slots, now)
    }

    /// The limiter after one request at each of `times`, in order.
    pub open spec fn after_requests(self, times: Seq<u64>) -> LimiterView
        decreases times.len(),
    {
        if times.len() == 0 {
            self
        } else {
            self.after_requests(times.drop_last()).recorded(times.last())
        }
    }
}

/// Sliding-window rate limiter of one provider.
#[derive(Debug)]
pub struct RateLimiter {
    /// Ring of request timestamps; zero marks a slot never written.
    timestamps: Vec<u64>,
    /// Write cursor, kept reduced modulo the capacity.
    current_index: usize,
    /// Requests counted so far, saturating at the capacity.
    count: usize,
    /// Capacity of the ring.
    limit: usize,
}

impl View for RateLimiter {
    type V = LimiterView;

    closed spec fn view(&self) -> LimiterView {
        LimiterView {
            slots: self.timestamps@,
            next: self.current_index as nat,
            count: self.count as nat,
        }
    }
}

impl RateLimiter {
    /// Validity: the ring has the capacity asked for, and cursor and count
    /// lie inside it.
    pub closed spec fn wf(&self) -> bool {
        &&& self.timestamps.len() == self.limit
        &&& self@.wf()
    }

    /// A valid limiter has a valid model.
    pub proof fn lemma_wf_view(&self)
        requires
            self.wf(),
        ensures
            self@.wf(),
    {
    }

    /// A limiter that admits `limit` requests per window.
    pub fn new(limit: usize) -> (r: RateLimiter)
        requires
            limit >= 1,
        ensures
            r.wf(),
            r@ == LimiterView::fresh(limit as nat),
    {
        let mut timestamps: Vec<u64> = Vec::new();
        while timestamps.len() < limit
            invariant
                timestamps.len() <= limit,
                forall|i: int| 0 <= i < timestamps.len() ==> timestamps[i] == 0u64,
            decreases limit - timestamps.len(),
        {
            timestamps.push(0u64);
        }
        assert(timestamps@ =~= Seq::new(limit as nat, |i: int| 0u64));
        RateLimiter { timestamps, current_index: 0, count: 0, limit }
    }

    /// Whether a request made at `now` is admitted.
    pub fn can_request_at(&self, now: u64) -> (r: bool)
        requires
            self.wf(),
        ensures
            r == self@.admits(now),
    {
        if self.count < self.limit {
            return true;
        }
        let oldest = self.timestamps[self.current_index];
        elapsed(now, oldest) >= WINDOW_SECS
    }

    /// Counts one request made at `now`, overwriting the oldest slot once the
    /// ring is full.
    pub fn record_request_at(&mut self, now: u64)
        requires
            old(self).wf(),
        ensures
            final(self).wf(),
            final(self)@ == old(self)@.recorded(now),
            final(self)@.limit() == old(self)@.limit(),
    {
        let index = self.current_index;
        self.timestamps.set(index, now);
        self.current_index = if index + 1 == self.limit {
            0
        } else {
            index + 1
        };
        if self.count < self.limit {
            self.count = self.count + 1;
        }
    }

    /// Number of requests counted in the window that ends at `now`.
    pub fn current_requests_at(&self, now: u64) -> (r: usize)
        requires
            self.wf(),
        ensures
            r as nat == self@.current(now),
            r <= self@.limit(),
    {
        let mut found: usize = 0;
        let mut i: usize = 0;
        while i < self.limit
            invariant
                self.wf(),
                i <= self.limit,
                found <= i,
                found as nat == count_recent(self.timestamps@.subrange(0, i as int), now),
            decreases self.limit - i,
        {
            let stamp = self.timestamps[i];
            assert(self.timestamps@.subrange(0, i + 1).drop_last() =~= self.timestamps@.subrange(
                0,
                i as int,
            ));
            if stamp > 0 && elapsed(now, stamp) < WINDOW_SECS {
                found = found + 1;
            }
            i = i + 1;
        }
        assert(self.timestamps@.subrange(0, i as int) =~= self.timestamps@);
        found
    }

    /// Capacity of the limiter.
    pub fn limit(&self) -> (r: usize)
        requires
            self.wf(),
        ensures
            r as nat == self@.limit(),
            r >= 1,
    {
        self.limit
    }
}

/// Slot of the `back`-th most recent request in a ring whose next write goes
/// to `next`.
pub open spec fn slot_back(next: nat, limit: nat, back: nat) -> int {
    if next >= back {
        next - back
    } else {
        next + limit - back
    }
}

/// What a limiter that started empty holds after the requests `times`.
pub open spec fn tracks(v: LimiterView, limit: nat, times: Seq<u64>) -> bool {
    &&& v.wf()
    &&& v.limit() == limit
    &&& v.count == if times.len() < limit {
        times.len()
    } else {
        limit
    }
    &&& (times.len() < limit ==> v.next == times.len())
    &&& forall|back: nat|
        1 <= back <= v.count ==> #[trigger] v.slots[slot_back(v.next, limit, back)] == times[times.len()
            - back]
}

/// A limiter that started empty holds the most recent requests, the oldest of
/// them in the slot that is written next.
pub proof fn lemma_ring_tracks_requests(limit: nat, times: Seq<u64>)
    requires
        limit >= 1,
    ensures
        tracks(LimiterView::fresh(limit).after_requests(times), limit, times),
    decreases times.len(),
{
    let start = LimiterView::fresh(limit);
    if times.len() == 0 {
    } else {
        let before = times.drop_last();
        lemma_ring_tracks_requests(limit, before);
        let v = start.after_requests(before);
        let w = v.recorded(times.last());
        assert(start.after_requests(times) == w);
        assert forall|back: nat| 1 <= back <= w.count implies #[trigger] w.slots[slot_back(
            w.next,
            limit,
            back,
        )] == times[times.len() - back] by {
            if back == 1 {
                assert(slot_back(w.next, limit, 1) == v.next);
            } else {
                let prev = (back - 1) as nat;
                assert(slot_back(w.next, limit, back) == slot_back(v.next, limit, prev));
                assert(v.slots[slot_back(v.next, limit, prev)] == before[before.len() - prev]);
                assert(slot_back(v.next, limit, prev) != v.next);
            }
        }
    }
}

/// Admission after any run of requests on a limiter that started empty: a
/// request at `now` is refused exactly when `limit` requests were made and
/// the `limit`-th most recent of them, the oldest one tracked, is less than a
/// window old.
pub proof fn lemma_refused_iff_oldest_in_window(limit: nat, times: Seq<u64>, now: u64)
    requires
        limit >= 1,
    ensures
        !LimiterView::fresh(limit).after_requests(times).admits(now) <==> (times.len() >= limit
            && age(now, times[times.len() - limit]) < WINDOW_SECS as nat),
{
    lemma_ring_tracks_requests(limit, times);
    let v = LimiterView::fresh(limit).after_requests(times);
    if times.len() >= limit {
        assert(slot_back(v.next, limit, limit) == v.next);
        assert(v.slots[slot_back(v.next, limit, limit)] == times[times.len() - limit]);
    }
}

/// The health tracker of one provider, as a value.
pub struct HealthView {
    pub score: nat,
    pub failures: nat,
    pub successes: nat,
    pub last_updated: u64,
}

/// Points regained by a success that follows `prior_failures` failures in a
/// row and is the `successes`-th success in a row.
pub open spec fn recovery_for(prior_failures: nat, successes: nat) -> nat {
    if prior_failures == 0 {
        if 3 * successes < 15 {
            3 * successes
        } else {
            15
        }
    } else if prior_failures <= 2 {
        10
    } else if prior_failures <= 4 {
        15
    } else if prior_failures <= 10 {
        25
    } else {
        35
    }
}

/// Points lost by the `failures`-th failure in a row at score `score`.
pub open spec fn penalty_for(failures: nat, score: nat) -> nat {
    if failures == 1 {
        5
    } else if failures == 2 {
        10
    } else if failures == 3 {
        20
    } else if failures == 4 {
        35
    } else if 5 <= failures <= 10 {
        50
    } else {
        score
    }
}

/// A streak after one more event of its kind: one longer, and 255 at most.
pub open spec fn streak_after(prev: nat) -> nat {
    if prev >= 255 {
        255
    } else {
        prev + 1
    }
}

impl HealthView {
    pub open spec fn wf(self) -> bool {
        &&& self.score <= MAX_SCORE as nat
        &&& self.failures <= 255
        &&& self.successes <= 255
    }

    /// A tracker created at `now`: full score, no streak.
    pub open spec fn fresh(now: u64) -> HealthView {
        HealthView { score: MAX_SCORE as nat, failures: 0, successes: 0, last_updated: now }
    }

    pub open spec fn healthy(self) -> bool {
        self.score > HEALTHY_ABOVE as nat
    }

    pub open spec fn down(self) -> bool {
        self.score == 0
    }

    /// Idle drift: read after more than five silent minutes, a score below
    /// the maximum gains up to five points and the silence ends.
    pub open spec fn drifted(self, now: u64) -> HealthView {
        if age(now, self.last_updated) > IDLE_SECS as nat && self.score < MAX_SCORE as nat {
            HealthView {
                score: if self.score + 5 <= MAX_SCORE as nat {
                    self.score + 5
                } else {
                    MAX_SCORE as nat
                },
                last_updated: now,
                ..self
            }
        } else {
            self
        }
    }

    /// The tracker after a success at `now`.
    pub open spec fn succeeded(self, now: u64) -> HealthView {
        let gain = recovery_for(self.failures, streak_after(self.successes));
        HealthView {
            score: if self.score + gain <= MAX_SCORE as nat {
                self.score + gain
            } else {
                MAX_SCORE as nat
            },
            failures: 0,
            successes: streak_after(self.successes),
            last_updated: now,
        }
    }

    /// The tracker after a failure at `now`.
    pub open spec fn failed(self, now: u64) -> HealthView {
        let loss = penalty_for(streak_after(self.failures), self.score);
        HealthView {
            score: if self.score >= loss {
                (self.score - loss) as nat
            } else {
                0
            },
            failures: streak_after(self.failures),
            successes: 0,
            last_updated: now,
        }
    }

    /// Emergency recovery at `now`: a provider that is down gets a small
    /// score and a clean failure streak; any other is left alone.
    pub open spec fn revived(self, now: u64) -> HealthView {
        if self.score == 0 {
            HealthView { score: REVIVED_SCORE as nat, failures: 0, last_updated: now, ..self }
        } else {
            self
        }
    }

    /// The tracker after one event.
    pub open spec fn after(self, event: HealthEvent) -> HealthView {
        match event {
            HealthEvent::Success(now) => self.succeeded(now),
            HealthEvent::Failure(now) => self.failed(now),
            HealthEvent::Read(now) => self.drifted(now),
            HealthEvent::Recovery(now) => self.revived(now),
        }
    }

    /// The tracker after a run of events, in order.
    pub open spec fn after_all(self, events: Seq<HealthEvent>) -> HealthView
        decreases events.len(),
    {
        if events.len() == 0 {
            self
        } else {
            self.after_all(events.drop_last()).after(events.last())
        }
    }
}

/// One thing that can happen to a health tracker, with the second at which it
/// happens.
pub enum HealthEvent {
    Success(u64),
    Failure(u64),
    Read(u64),
    Recovery(u64),
}

/// Health tracker of one provider: a score from 0 to 100 that falls fast on
/// failures and climbs back on successes.
#[derive(Debug, Clone, Copy)]
pub struct ProviderHealth {
    health_score: u8,
    consecutive_failures: u8,
    consecutive_successes: u8,
    last_updated: u64,
}

impl View for ProviderHealth {
    type V = HealthView;

    closed spec fn view(&self) -> HealthView {
        HealthView {
            score: self.health_score as nat,
            failures: self.consecutive_failures as nat,
            successes: self.consecutive_successes as nat,
            last_updated: self.last_updated,
        }
    }
}

impl ProviderHealth {
    /// Validity: the score is at most 100.
    pub closed spec fn wf(&self) -> bool {
        self.health_score <= MAX_SCORE
    }

    /// A valid tracker has a valid model.
    pub proof fn lemma_wf_view(&self)
        requires
            self.wf(),
        ensures
            self@.wf(),
    {
    }

    /// A tracker created at `now`, with full score.
    pub fn new_at(now: u64) -> (r: ProviderHealth)
        ensures
            r.wf(),
            r@ == HealthView::fresh(now),
    {
        ProviderHealth {
            health_score: MAX_SCORE,
            consecutive_failures: 0,
            consecutive_successes: 0,
            last_updated: now,
        }
    }

    /// Records a successful request at `now`.
    pub fn record_success_at(&mut self, now: u64)
        requires
            old(self).wf(),
        ensures
            final(self).wf(),
            final(self)@ == old(self)@.succeeded(now),
    {
        self.last_updated = now;
        let previous_failures = self.consecutive_failures;
        self.consecutive_failures = 0;
        let successes: u8 = if self.consecutive_successes == 255 {
            255
        } else {
            self.consecutive_successes + 1
        };
        self.consecutive_successes = successes;
        let current = self.health_score;
        let gain: u8 = if previous_failures == 0 {
            if successes < 5 {
                successes * 3
            } else {
                15
            }
        } else if previous_failures <= 2 {
            10
        } else if previous_failures <= 4 {
            15
        } else if previous_failures <= 10 {
            25
        } else {
            35
        };
        let room: u8 = MAX_SCORE - current;
        self.health_score = if gain <= room {
            current + gain
        } else {
            MAX_SCORE
        };
    }

    /// Records a failed request at `now`.
    pub fn record_failure_at(&mut self, now: u64)
        requires
            old(self).wf(),
        ensures
            final(self).wf(),
            final(self)@ == old(self)@.failed(now),
    {
        self.last_updated = now;
        self.consecutive_successes = 0;
        let failures: u8 = if self.consecutive_failures == 255 {
            255
        } else {
            self.consecutive_failures + 1
        };
        self.consecutive_failures = failures;
        let current = self.health_score;
        let loss: u8 = if failures == 1 {
            5
        } else if failures == 2 {
            10
        } else if failures == 3 {
            20
        } else if failures == 4 {
            35
        } else if failures <= 10 {
            50
        } else {
            current
        };
        self.health_score = if current >= loss {
            current - loss
        } else {
            0
        };
    }

    /// The score as read at `now`, after idle drift.
    pub fn get_health_score_at(&mut self, now: u64) -> (r: u8)
        requires
            old(self).wf(),
        ensures
            final(self).wf(),
            final(self)@ == old(self)@.drifted(now),
            r as nat == final(self)@.score,
            r <= MAX_SCORE,
    {
        if elapsed(now, self.last_updated) > IDLE_SECS {
            let current = self.health_score;
            if current < MAX_SCORE {
                let room: u8 = MAX_SCORE - current;
                self.health_score = if room >= 5 {
                    current + 5
                } else {
                    MAX_SCORE
                };
                self.last_updated = now;
            }
        }
        self.health_score
    }

    /// Whether the score as read at `now` is above 20.
    pub fn is_healthy_at(&mut self, now: u64) -> (r: bool)
        requires
            old(self).wf(),
        ensures
            final(self).wf(),
            final(self)@ == old(self)@.drifted(now),
            r == final(self)@.healthy(),
            r == (final(self)@.score > 20),
    {
        self.get_health_score_at(now) > HEALTHY_ABOVE
    }

    /// Whether the score as read at `now` is zero.
    pub fn is_completely_down_at(&mut self, now: u64) -> (r: bool)
        requires
            old(self).wf(),
        ensures
            final(self).wf(),
            final(self)@ == old(self)@.drifted(now),
            r == final(self)@.down(),
            r == (final(self)@.score == 0),
    {
        self.get_health_score_at(now) == 0
    }

    /// Gives a provider that is down a score of 10 and a clean failure
    /// streak, so that it may be tried again.
    pub fn emergency_recovery_at(&mut self, now: u64)
        requires
            old(self).wf(),
        ensures
            final(self).wf(),
            final(self)@ == old(self)@.revived(now),
    {
        if self.health_score == 0 {
            self.health_score = REVIVED_SCORE;
            self.consecutive_failures = 0;
            self.last_updated = now;
        }
    }

    /// Failures in a row, 255 at most.
    pub fn get_consecutive_failures(&self) -> (r: u8)
        ensures
            r as nat == self@.failures,
    {
        self.consecutive_failures
    }
}

/// Whatever happens to a tracker, in whatever order, its score stays between
/// 0 and 100.
pub proof fn lemma_score_in_range(start: HealthView, events: Seq<HealthEvent>)
    requires
        start.wf(),
    ensures
        start.after_all(events).wf(),
        0 <= start.after_all(events).score <= 100,
    decreases events.len(),
{
    if events.len() > 0 {
        lemma_score_in_range(start, events.drop_last());
    }
}

/// A failure makes the failure streak one longer, up to 255, and never
/// shorter; it ends the success streak. A success does the same the other
/// way round. Nothing but a success or a recovery of a provider that is down
/// ends a failure streak.
pub proof fn lemma_streaks_saturate(h: HealthView, now: u64)
    requires
        h.wf(),
    ensures
        h.failed(now).failures >= 1,
        h.failed(now).failures >= h.failures,
        h.failed(now).failures <= 255,
        h.failed(now).failures == if h.failures < 255 {
            h.failures + 1
        } else {
            255
        },
        h.failed(now).successes == 0,
        h.succeeded(now).successes >= 1,
        h.succeeded(now).successes >= h.successes,
        h.succeeded(now).successes <= 255,
        h.succeeded(now).failures == 0,
        h.drifted(now).failures == h.failures,
        h.drifted(now).successes == h.successes,
        !h.down() ==> h.revived(now).failures == h.failures,
{
}

/// A tracker that is down is, after one emergency recovery, neither healthy
/// nor down, and has no failure streak; this still holds when it is next
/// read, however much later.
pub proof fn lemma_recovery_lifts_from_down(h: HealthView, now: u64, later: u64)
    requires
        h.wf(),
        h.down(),
    ensures
        !h.revived(now).healthy(),
        !h.revived(now).down(),
        h.revived(now).failures == 0,
        !h.revived(now).drifted(later).healthy(),
        !h.revived(now).drifted(later).down(),
        h.revived(now).drifted(later).failures == 0,
{
}

/// One configured upstream. The name is the key of everything that is kept
/// per provider.
#[derive(Debug, Clone)]
pub struct Provider {
    pub name: String,
    pub token: String,
    pub base_url: String,
    pub key_type: String,
}

/// The mask that stands for the hidden part of a token.
pub open spec fn mask() -> Seq<char> {
    seq!['*', '*', '*', '*']
}

/// Whether a token can be shown masked: it has at most eight bytes, or no
/// character of it lies across the end of its first four bytes or across the
/// start of its last four.
pub open spec fn maskable(token: Seq<char>) -> bool {
    let bytes = encode_utf8(token);
    bytes.len() > 8 ==> is_char_boundary(bytes, 4) && is_char_boundary(bytes, bytes.len() - 4)
}

/// A token as shown in logs: the text of its first four bytes and that of
/// its last four around the mask when it has more than eight bytes, else the
/// mask alone.
pub open spec fn masked(token: Seq<char>) -> Seq<char> {
    let bytes = encode_utf8(token);
    if bytes.len() > 8 {
        decode_utf8(bytes.subrange(0, 4)) + mask() + decode_utf8(
            bytes.subrange(bytes.len() - 4, bytes.len() as int),
        )
    } else {
        mask()
    }
}

impl Provider {
    /// Whether the token can be shown masked.
    pub fn can_mask(&self) -> (r: bool)
        ensures
            r == maskable(self.token@),
    {
        let token = self.token.as_str();
        let n = token.as_bytes().len();
        n <= 8 || (token.is_char_boundary(4) && token.is_char_boundary(n - 4))
    }

    /// The token with all but its two ends hidden.
    pub fn masked_token(&self) -> (r: String)
        requires
            maskable(self.token@),
        ensures
            r@ == masked(self.token@),
    {
        broadcast use encode_utf8_decode_utf8;

        proof {
            reveal_strlit("****");
        }
        assert("****"@ =~= mask());
        let token = self.token.as_str();
        let n = token.as_bytes().len();
        if n > 8 {
            let head = token.split_at(4).0;
            let tail = token.split_at(n - 4).1;
            let ghost bytes = encode_utf8(self.token@);
            assert(encode_utf8(head@) == bytes.subrange(0, 4));
            assert(encode_utf8(tail@) == bytes.subrange(bytes.len() - 4, bytes.len() as int));
            assert(head@ == decode_utf8(encode_utf8(head@)));
            assert(tail@ == decode_utf8(encode_utf8(tail@)));
            let mut out = String::from_str(head);
            out.append("****");
            out.append(tail);
            out
        } else {
            String::from_str("****")
        }
    }
}

impl RateLimiter {
    /// Whether a request made now is admitted.
    pub fn can_request(&self) -> (r: bool)
        requires
            self.wf(),
        ensures
            exists|now: u64| r == self@.admits(now),
    {
        self.can_request_at(unix_now())
    }

    /// Counts one request made now.
    pub fn record_request(&mut self)
        requires
            old(self).wf(),
        ensures
            final(self).wf(),
            exists|now: u64| final(self)@ == old(self)@.recorded(now),
            final(self)@.limit() == old(self)@.limit(),
    {
        self.record_request_at(unix_now())
    }

    /// Number of requests counted in the window that ends now.
    pub fn current_requests(&self) -> (r: usize)
        requires
            self.wf(),
        ensures
            exists|now: u64| r as nat == self@.current(now),
            r <= self@.limit(),
    {
        self.current_requests_at(unix_now())
    }
}

impl ProviderHealth {
    /// A tracker created now, with full score.
    pub fn new() -> (r: ProviderHealth)
        ensures
            r.wf(),
            exists|now: u64| r@ == HealthView::fresh(now),
    {
        ProviderHealth::new_at(unix_now())
    }

    /// Records a successful request made now.
    pub fn record_success(&mut self)
        requires
            old(self).wf(),
        ensures
            final(self).wf(),
            exists|now: u64| final(self)@ == old(self)@.succeeded(now),
    {
        self.record_success_at(unix_now())
    }

    /// Records a failed request made now.
    pub fn record_failure(&mut self)
        requires
            old(self).wf(),
        ensures
            final(self).wf(),
            exists|now: u64| final(self)@ == old(self)@.failed(now),
    {
        self.record_failure_at(unix_now())
    }

    /// The score as read now, after idle drift.
    pub fn get_health_score(&mut self) -> (r: u8)
        requires
            old(self).wf(),
        ensures
            final(self).wf(),
            exists|now: u64| final(self)@ == old(self)@.drifted(now),
            r as nat == final(self)@.score,
            r <= MAX_SCORE,
    {
        self.get_health_score_at(unix_now())
    }

    /// Whether the score as read now is above 20.
    pub fn is_healthy(&mut self) -> (r: bool)
        requires
            old(self).wf(),
        ensures
            final(self).wf(),
            exists|now: u64| final(self)@ == old(self)@.drifted(now),
            r == final(self)@.healthy(),
            r == (final(self)@.score > 20),
    {
        self.is_healthy_at(unix_now())
    }

    /// Whether the score as read now is zero.
    pub fn is_completely_down(&mut self) -> (r: bool)
        requires
            old(self).wf(),
        ensures
            final(self).wf(),
            exists|now: u64| final(self)@ == old(self)@.drifted(now),
            r == final(self)@.down(),
            r == (final(self)@.score == 0),
    {
        self.is_completely_down_at(unix_now())
    }

    /// Gives a provider that is down a score of 10 and a clean failure
    /// streak, as of now.
    pub fn emergency_recovery(&mut self)
        requires
            old(self).wf(),
        ensures
            final(self).wf(),
            exists|now: u64| final(self)@ == old(self)@.revived(now),
    {
        self.emergency_recovery_at(unix_now())
    }
}

} // verus!
