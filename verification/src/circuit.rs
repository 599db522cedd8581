//! Failure tracking for one upstream channel.
//!
//! A breaker is `Closed` while the upstream is trusted, `Open` while traffic
//! is held back, and `HalfOpen` while a single trial request is in flight.
//! Time is whatever monotonic count of seconds the caller supplies.

use crate::text::str_eq;
use vstd::prelude::*;

verus! {

#[derive(Clone, Copy, Debug, PartialEq, Eq, Structural)]
pub enum BreakerState {
    Closed,
    Open,
    HalfOpen,
}

/// What the breaker answers when asked whether a request may go upstream.
#[derive(Clone, Copy, Debug, PartialEq, Eq, Structural)]
pub enum Admission {
    /// The upstream is trusted; the request goes through.
    Pass,
    /// The cooldown is over; this request is the one trial.
    Trial,
    /// The upstream is held back; the request fails fast.
    Reject,
}

/// How many failures inside how long a window open the breaker.
#[derive(Clone, Copy, Debug, PartialEq, Eq, Structural)]
pub struct BreakerConfig {
    pub failure_threshold: u32,
    pub window_seconds: u64,
}

/// How many failures open a breaker, unless set otherwise.
pub const DEFAULT_FAILURE_THRESHOLD: u32 = 5;

/// How many seconds a counting window and a cooldown last, unless set
/// otherwise.
pub const DEFAULT_WINDOW_SECONDS: u64 = 60;

/// The settings that a deployment asks for: what it sets, and the default
/// for what it leaves unset.
pub open spec fn settings_of(threshold: Option<u32>, window_seconds: Option<u64>) -> BreakerConfig {
    BreakerConfig {
        failure_threshold: match threshold {
            Some(n) => n,
            None => DEFAULT_FAILURE_THRESHOLD,
        },
        window_seconds: match window_seconds {
            Some(n) => n,
            None => DEFAULT_WINDOW_SECONDS,
        },
    }
}

/// The settings that a deployment asks for.
pub fn breaker_settings(threshold: Option<u32>, window_seconds: Option<u64>) -> (c: BreakerConfig)
    ensures
        c == settings_of(threshold, window_seconds),
{
    BreakerConfig {
        failure_threshold: match threshold {
            Some(n) => n,
            None => DEFAULT_FAILURE_THRESHOLD,
        },
        window_seconds: match window_seconds {
            Some(n) => n,
            None => DEFAULT_WINDOW_SECONDS,
        },
    }
}

/// The breaker of one channel.
#[derive(Clone, Copy, Debug, PartialEq, Eq, Structural)]
pub struct ChannelBreaker {
    pub state: BreakerState,
    /// When the current counting window began.
    pub window_start: u64,
    /// Failures counted in the current window.
    pub failures: u32,
    /// While `Open`: the time from which a trial is permitted.
    pub retry_at: u64,
}

/// `a + b`, held at the largest `u64`.
pub open spec fn clamp_add(a: u64, b: u64) -> u64 {
    if a + b > u64::MAX {
        u64::MAX
    } else {
        (a + b) as u64
    }
}

/// Seconds from `since` to `now`; zero where the clock ran backwards.
pub open spec fn elapsed(now: u64, since: u64) -> u64 {
    if now >= since {
        (now - since) as u64
    } else {
        0
    }
}

/// A breaker that has seen nothing yet.
pub open spec fn fresh() -> ChannelBreaker {
    ChannelBreaker { state: BreakerState::Closed, window_start: 0, failures: 0, retry_at: 0 }
}

/// The answer to a request that arrives at `now`.
pub open spec fn admission_of(b: ChannelBreaker, now: u64) -> Admission {
    match b.state {
        BreakerState::Closed => Admission::Pass,
        BreakerState::Open => if now >= b.retry_at {
            Admission::Trial
        } else {
            Admission::Reject
        },
        BreakerState::HalfOpen => Admission::Reject,
    }
}

/// The breaker after it answered a request at `now`.
pub open spec fn after_check(b: ChannelBreaker, now: u64) -> ChannelBreaker {
    if b.state == BreakerState::Open && now >= b.retry_at {
        ChannelBreaker { state: BreakerState::HalfOpen, ..b }
    } else {
        b
    }
}

/// The breaker after an upstream call succeeded.
pub open spec fn after_success(b: ChannelBreaker) -> ChannelBreaker {
    if b.state == BreakerState::HalfOpen {
        ChannelBreaker { state: BreakerState::Closed, failures: 0, ..b }
    } else {
        b
    }
}

/// Whether a failure at `now` starts a new counting window.
pub open spec fn window_expired(b: ChannelBreaker, cfg: BreakerConfig, now: u64) -> bool {
    b.failures == 0 || elapsed(now, b.window_start) >= cfg.window_seconds
}

/// The failure count once a failure at `now` is added.
pub open spec fn counted(b: ChannelBreaker, cfg: BreakerConfig, now: u64) -> u32 {
    if window_expired(b, cfg, now) {
        1
    } else if b.failures == u32::MAX {
        u32::MAX
    } else {
        (b.failures + 1) as u32
    }
}

/// The breaker after an upstream call failed at `now`.
pub open spec fn after_failure(b: ChannelBreaker, cfg: BreakerConfig, now: u64) -> ChannelBreaker {
    match b.state {
        BreakerState::Closed => {
            let failures = counted(b, cfg, now);
            let window_start = if window_expired(b, cfg, now) {
                now
            } else {
                b.window_start
            };
            if failures >= cfg.failure_threshold {
                ChannelBreaker {
                    state: BreakerState::Open,
                    window_start,
                    failures,
                    retry_at: clamp_add(now, cfg.window_seconds),
                }
            } else {
                ChannelBreaker { state: BreakerState::Closed, window_start, failures, retry_at: b.retry_at }
            }
        },
        BreakerState::HalfOpen => ChannelBreaker {
            state: BreakerState::Open,
            window_start: now,
            failures: b.failures,
            retry_at: clamp_add(now, cfg.window_seconds),
        },
        BreakerState::Open => b,
    }
}

impl ChannelBreaker {
    pub fn new() -> (b: ChannelBreaker)
        ensures
            b == fresh(),
    {
        ChannelBreaker { state: BreakerState::Closed, window_start: 0, failures: 0, retry_at: 0 }
    }

    /// Answers a request that arrives at `now`, and turns an `Open` breaker
    /// whose cooldown is over into `HalfOpen`.
    pub fn check(&mut self, now: u64) -> (a: Admission)
        ensures
            a == admission_of(*old(self), now),
            *final(self) == after_check(*old(self), now),
    {
        match self.state {
            BreakerState::Closed => Admission::Pass,
            BreakerState::Open => {
                if now >= self.retry_at {
                    self.state = BreakerState::HalfOpen;
                    Admission::Trial
                } else {
                    Admission::Reject
                }
            },
            BreakerState::HalfOpen => Admission::Reject,
        }
    }

    /// The answer that a request at `now` would get; the breaker stays as
    /// it is.
    pub fn check_only(&self, now: u64) -> (a: Admission)
        ensures
            a == admission_of(*self, now),
    {
        match self.state {
            BreakerState::Closed => Admission::Pass,
            BreakerState::Open => {
                if now >= self.retry_at {
                    Admission::Trial
                } else {
                    Admission::Reject
                }
            },
            BreakerState::HalfOpen => Admission::Reject,
        }
    }

    /// Records that an upstream call succeeded.
    pub fn record_success(&mut self)
        ensures
            *final(self) == after_success(*old(self)),
    {
        match self.state {
            BreakerState::HalfOpen => {
                self.state = BreakerState::Closed;
                self.failures = 0;
            },
            _ => {},
        }
    }

    /// Records that an upstream call failed at `now`.
    pub fn record_failure(&mut self, cfg: &BreakerConfig, now: u64)
        ensures
            *final(self) == after_failure(*old(self), *cfg, now),
    {
        match self.state {
            BreakerState::Closed => {
                let gone: u64 = if now >= self.window_start {
                    now - self.window_start
                } else {
                    0
                };
                if self.failures == 0 || gone >= cfg.window_seconds {
                    self.window_start = now;
                    self.failures = 1;
                } else if self.failures < u32::MAX {
                    self.failures = self.failures + 1;
                }
                if self.failures >= cfg.failure_threshold {
                    self.state = BreakerState::Open;
                    self.retry_at = now.saturating_add(cfg.window_seconds);
                }
            },
            BreakerState::HalfOpen => {
                self.state = BreakerState::Open;
                self.window_start = now;
                self.retry_at = now.saturating_add(cfg.window_seconds);
            },
            BreakerState::Open => {},
        }
    }
}

/// One channel's breaker, under the channel's id.
pub struct ChannelEntry {
    pub channel: String,
    pub breaker: ChannelBreaker,
}

/// The breaker that `entries` holds for `channel`: the first entry under that
/// id, or a fresh breaker where there is none.
pub open spec fn lookup(entries: Seq<ChannelEntry>, channel: Seq<char>) -> ChannelBreaker
    decreases entries.len(),
{
    if entries.len() == 0 {
        fresh()
    } else if entries[0].channel@ == channel {
        entries[0].breaker
    } else {
        lookup(entries.skip(1), channel)
    }
}

/// The breakers of all channels, with the settings they share.
pub struct CircuitBreaker {
    config: BreakerConfig,
    entries: Vec<ChannelEntry>,
}

impl CircuitBreaker {
    /// The settings that every channel's breaker follows.
    pub closed spec fn config(&self) -> BreakerConfig {
        self.config
    }

    /// The breaker of `channel`; a channel never seen has a fresh one.
    pub closed spec fn breaker_of(&self, channel: Seq<char>) -> ChannelBreaker {
        lookup(self.entries@, channel)
    }

    /// Breakers that open after `failure_threshold` failures inside
    /// `window_seconds`, and stay open as long.
    pub fn new(failure_threshold: u32, window_seconds: u64) -> (r: CircuitBreaker)
        ensures
            r.config() == (BreakerConfig { failure_threshold, window_seconds }),
            forall|channel: Seq<char>| r.breaker_of(channel) == fresh(),
    {
        CircuitBreaker {
            config: BreakerConfig { failure_threshold, window_seconds },
            entries: Vec::new(),
        }
    }

    /// The position of the first entry under `channel`.
    fn position(&self, channel: &str) -> (r: Option<usize>)
        ensures
            match r {
                Some(i) => i < self.entries.len() && self.entries[i as int].channel@ == channel@
                    && self.entries[i as int].breaker == lookup(self.entries@, channel@)
                    && forall|j: int| 0 <= j < i ==> self.entries[j].channel@ != channel@,
                None => lookup(self.entries@, channel@) == fresh() && forall|j: int|
                    0 <= j < self.entries.len() ==> self.entries[j].channel@ != channel@,
            },
    {
        let mut i: usize = 0;
        assert(self.entries@.skip(0) =~= self.entries@);
        while i < self.entries.len()
            invariant
                i <= self.entries.len(),
                lookup(self.entries@, channel@) == lookup(self.entries@.skip(i as int), channel@),
                forall|j: int| 0 <= j < i ==> self.entries[j].channel@ != channel@,
            decreases self.entries.len() - i,
        {
            if str_eq(self.entries[i].channel.as_str(), channel) {
                return Some(i);
            }
            assert(self.entries@.skip(i as int).skip(1) =~= self.entries@.skip(i + 1));
            i = i + 1;
        }
        None
    }

    /// The breaker of `channel` as it stands.
    pub fn snapshot(&self, channel: &str) -> (b: ChannelBreaker)
        ensures
            b == self.breaker_of(channel@),
    {
        match self.position(channel) {
            Some(i) => self.entries[i].breaker,
            None => ChannelBreaker::new(),
        }
    }

    /// The settings that every channel's breaker follows.
    pub fn settings(&self) -> (c: BreakerConfig)
        ensures
            c == self.config(),
    {
        self.config
    }

    /// Answers a request for `channel` that arrives at `now`. Where the
    /// channel's breaker is `Open` and its cooldown is over, this request
    /// becomes the trial and the breaker `HalfOpen`.
    pub fn check(&mut self, channel: &str, now: u64) -> (a: Admission)
        ensures
            a == admission_of(old(self).breaker_of(channel@), now),
            final(self).breaker_of(channel@) == after_check(old(self).breaker_of(channel@), now),
            forall|other: Seq<char>|
                other != channel@ ==> final(self).breaker_of(other) == old(self).breaker_of(other),
            final(self).config() == old(self).config(),
    {
        let mut b: ChannelBreaker = self.snapshot(channel);
        let a: Admission = b.check(now);
        if a == Admission::Trial {
            self.store(channel, b);
        }
        a
    }

    /// Records that a call to `channel` succeeded.
    pub fn record_success(&mut self, channel: &str)
        ensures
            final(self).breaker_of(channel@) == after_success(old(self).breaker_of(channel@)),
            forall|other: Seq<char>|
                other != channel@ ==> final(self).breaker_of(other) == old(self).breaker_of(other),
            final(self).config() == old(self).config(),
    {
        let mut b: ChannelBreaker = self.snapshot(channel);
        b.record_success();
        self.store(channel, b);
    }

    /// Records that a call to `channel` failed at `now`.
    pub fn record_failure(&mut self, channel: &str, now: u64)
        ensures
            final(self).breaker_of(channel@) == after_failure(
                old(self).breaker_of(channel@),
                old(self).config(),
                now,
            ),
            forall|other: Seq<char>|
                other != channel@ ==> final(self).breaker_of(other) == old(self).breaker_of(other),
            final(self).config() == old(self).config(),
    {
        let mut b: ChannelBreaker = self.snapshot(channel);
        let cfg: BreakerConfig = self.config;
        b.record_failure(&cfg, now);
        self.store(channel, b);
    }

    /// Puts `b` in place as the breaker of `channel`.
    fn store(&mut self, channel: &str, b: ChannelBreaker)
        ensures
            final(self).config == old(self).config,
            final(self).breaker_of(channel@) == b,
            forall|other: Seq<char>|
                other != channel@ ==> final(self).breaker_of(other) == old(self).breaker_of(other),
    {
        match self.position(channel) {
            Some(i) => {
                self.entries[i].breaker = b;
                proof {
                    lemma_lookup_update(old(self).entries@, self.entries@, i as int, channel@);
                    assert forall|other: Seq<char>| other != channel@ implies lookup(
                        self.entries@,
                        other,
                    ) == lookup(old(self).entries@, other) by {
                        lemma_lookup_elsewhere(
                            old(self).entries@,
                            self.entries@,
                            i as int,
                            channel@,
                            other,
                        );
                    }
                }
            },
            None => {
                let entry = ChannelEntry { channel: channel.to_owned(), breaker: b };
                self.entries.push(entry);
                proof {
                    lemma_lookup_push(old(self).entries@, entry, channel@);
                    assert forall|other: Seq<char>| other != channel@ implies lookup(
                        self.entries@,
                        other,
                    ) == lookup(old(self).entries@, other) by {
                        lemma_lookup_push_elsewhere(old(self).entries@, entry, other);
                    }
                }
            },
        }
    }
}

/// After the breaker of the first entry under `channel` is replaced, the
/// channel has the new breaker.
proof fn lemma_lookup_update(
    before: Seq<ChannelEntry>,
    after: Seq<ChannelEntry>,
    i: int,
    channel: Seq<char>,
)
    requires
        0 <= i < before.len(),
        after.len() == before.len(),
        after[i].channel@ == channel,
        forall|j: int| 0 <= j < before.len() && j != i ==> after[j] == before[j],
        forall|j: int| 0 <= j < i ==> before[j].channel@ != channel,
    ensures
        lookup(after, channel) == after[i].breaker,
    decreases before.len(),
{
    if i > 0 {
        lemma_lookup_update(before.skip(1), after.skip(1), i - 1, channel);
    }
}

/// Replacing the breaker of an entry under `channel` leaves every other
/// channel's breaker as it was.
proof fn lemma_lookup_elsewhere(
    before: Seq<ChannelEntry>,
    after: Seq<ChannelEntry>,
    i: int,
    channel: Seq<char>,
    other: Seq<char>,
)
    requires
        0 <= i < before.len(),
        after.len() == before.len(),
        before[i].channel@ == channel,
        after[i].channel@ == channel,
        forall|j: int| 0 <= j < before.len() && j != i ==> after[j] == before[j],
        other != channel,
    ensures
        lookup(after, other) == lookup(before, other),
    decreases before.len(),
{
    if i == 0 {
        assert(after.skip(1) =~= before.skip(1));
    } else {
        lemma_lookup_elsewhere(before.skip(1), after.skip(1), i - 1, channel, other);
    }
}

/// A new entry at the end serves its channel where no entry did.
proof fn lemma_lookup_push(before: Seq<ChannelEntry>, entry: ChannelEntry, channel: Seq<char>)
    requires
        entry.channel@ == channel,
        forall|j: int| 0 <= j < before.len() ==> before[j].channel@ != channel,
    ensures
        lookup(before.push(entry), channel) == entry.breaker,
    decreases before.len(),
{
    let after = before.push(entry);
    if before.len() == 0 {
    } else {
        assert(after.skip(1) =~= before.skip(1).push(entry));
        lemma_lookup_push(before.skip(1), entry, channel);
    }
}

/// A new entry at the end leaves every other channel's breaker as it was.
proof fn lemma_lookup_push_elsewhere(before: Seq<ChannelEntry>, entry: ChannelEntry, other: Seq<char>)
    requires
        entry.channel@ != other,
    ensures
        lookup(before.push(entry), other) == lookup(before, other),
    decreases before.len(),
{
    let after = before.push(entry);
    if before.len() == 0 {
        assert(after.skip(1) =~= before);
    } else {
        assert(after.skip(1) =~= before.skip(1).push(entry));
        lemma_lookup_push_elsewhere(before.skip(1), entry, other);
    }
}

/// The breaker after failures at each of `times`, in order.
pub open spec fn after_failures(b: ChannelBreaker, cfg: BreakerConfig, times: Seq<u64>) -> ChannelBreaker
    decreases times.len(),
{
    if times.len() == 0 {
        b
    } else {
        after_failure(after_failures(b, cfg, times.drop_last()), cfg, times.last())
    }
}

/// `times` never goes back, and all of it lies inside one window.
pub open spec fn inside_one_window(cfg: BreakerConfig, times: Seq<u64>) -> bool {
    &&& forall|i: int, j: int| 0 <= i <= j < times.len() ==> times[i] <= times[j]
    &&& times.len() > 0 ==> times.last() - times[0] < cfg.window_seconds
}

/// Fewer failures than the threshold, all inside one window, leave a breaker
/// that had counted nothing `Closed`, with every one of them counted.
pub proof fn law_failures_below_threshold_are_counted(
    b: ChannelBreaker,
    cfg: BreakerConfig,
    times: Seq<u64>,
)
    requires
        b.state == BreakerState::Closed,
        b.failures == 0,
        0 < times.len() < cfg.failure_threshold,
        inside_one_window(cfg, times),
    ensures
        after_failures(b, cfg, times).state == BreakerState::Closed,
        after_failures(b, cfg, times).failures == times.len(),
        after_failures(b, cfg, times).window_start == times[0],
    decreases times.len(),
{
    if times.len() == 1 {
        assert(times.drop_last().len() == 0);
        assert(after_failures(b, cfg, times.drop_last()) == b);
    } else {
        let head = times.drop_last();
        assert(head[0] == times[0]);
        assert(head.last() == times[times.len() - 2]);
        law_failures_below_threshold_are_counted(b, cfg, head);
    }
}

/// Once the failures inside one window reach the threshold, the breaker is
/// `Open`, and every request before its cooldown is over is rejected and
/// leaves it as it is.
pub proof fn law_threshold_opens(b: ChannelBreaker, cfg: BreakerConfig, times: Seq<u64>, now: u64)
    requires
        b.state == BreakerState::Closed,
        b.failures == 0,
        times.len() > 0,
        times.len() == cfg.failure_threshold,
        inside_one_window(cfg, times),
        now < clamp_add(times.last(), cfg.window_seconds),
    ensures
        after_failures(b, cfg, times).state == BreakerState::Open,
        after_failures(b, cfg, times).retry_at == clamp_add(times.last(), cfg.window_seconds),
        admission_of(after_failures(b, cfg, times), now) == Admission::Reject,
        after_check(after_failures(b, cfg, times), now) == after_failures(b, cfg, times),
{
    let head = times.drop_last();
    if head.len() == 0 {
        assert(after_failures(b, cfg, head) == b);
    } else {
        assert(head[0] == times[0]);
        assert(head.last() == times[times.len() - 2]);
        law_failures_below_threshold_are_counted(b, cfg, head);
    }
}

/// Whatever a closed breaker has counted: the failure with which the count
/// of its window reaches the threshold opens it for a whole window, and
/// until then every request is rejected and leaves it as it is.
pub proof fn law_reaching_threshold_opens(b: ChannelBreaker, cfg: BreakerConfig, at: u64, now: u64)
    requires
        b.state == BreakerState::Closed,
        counted(b, cfg, at) >= cfg.failure_threshold,
        now < clamp_add(at, cfg.window_seconds),
    ensures
        after_failure(b, cfg, at).state == BreakerState::Open,
        after_failure(b, cfg, at).retry_at == clamp_add(at, cfg.window_seconds),
        admission_of(after_failure(b, cfg, at), now) == Admission::Reject,
        after_check(after_failure(b, cfg, at), now) == after_failure(b, cfg, at),
{
}

/// A failure that leaves the count of the window below the threshold leaves
/// a closed breaker closed.
pub proof fn law_below_threshold_stays_closed(b: ChannelBreaker, cfg: BreakerConfig, at: u64)
    requires
        b.state == BreakerState::Closed,
        counted(b, cfg, at) < cfg.failure_threshold,
    ensures
        after_failure(b, cfg, at).state == BreakerState::Closed,
        after_failure(b, cfg, at).failures == counted(b, cfg, at),
{
}

/// Once the cooldown of an `Open` breaker is over, the next request is the
/// trial and every request after it is rejected until the trial has ended. A
/// trial that succeeds closes the breaker with nothing counted; one that
/// fails opens it again, for a whole window from the failure.
pub proof fn law_single_trial(b: ChannelBreaker, cfg: BreakerConfig, now: u64, later: u64, end: u64)
    requires
        b.state == BreakerState::Open,
        now >= b.retry_at,
    ensures
        admission_of(b, now) == Admission::Trial,
        after_check(b, now).state == BreakerState::HalfOpen,
        admission_of(after_check(b, now), later) == Admission::Reject,
        after_check(after_check(b, now), later) == after_check(b, now),
        after_success(after_check(b, now)).state == BreakerState::Closed,
        after_success(after_check(b, now)).failures == 0,
        after_failure(after_check(b, now), cfg, end).state == BreakerState::Open,
        after_failure(after_check(b, now), cfg, end).retry_at == clamp_add(end, cfg.window_seconds),
{
}

/// A trial that fails moves the deadline on: where the cooldown lasts at all
/// and the trial ends no earlier than the old deadline and not at the very
/// end of the clock, the new deadline is later than the old one, and every
/// request before it is rejected.
pub proof fn law_failed_trial_extends(b: ChannelBreaker, cfg: BreakerConfig, end: u64, now: u64)
    requires
        b.state == BreakerState::HalfOpen,
        cfg.window_seconds > 0,
        b.retry_at <= end,
        end < u64::MAX,
        now < clamp_add(end, cfg.window_seconds),
    ensures
        after_failure(b, cfg, end).state == BreakerState::Open,
        after_failure(b, cfg, end).retry_at == clamp_add(end, cfg.window_seconds),
        after_failure(b, cfg, end).retry_at > b.retry_at,
        admission_of(after_failure(b, cfg, end), now) == Admission::Reject,
{
}

/// A failure that arrives while the breaker is `Open` changes nothing: the
/// cooldown is set once, by the failure that opened it.
pub proof fn law_open_ignores_failures(b: ChannelBreaker, cfg: BreakerConfig, now: u64)
    requires
        b.state == BreakerState::Open,
    ensures
        after_failure(b, cfg, now) == b,
        after_success(b) == b,
{
}

} // verus!
