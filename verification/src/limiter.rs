//! The quota of the mirror in use.
//!
//! The limiter keeps one record of how many requests may still be made and
//! when the allowance is renewed.  It never sleeps and never reads a clock:
//! the caller passes the current time, in milliseconds on a clock that does
//! not go backwards, and carries out the decision that comes back.  A point
//! in time that would lie beyond `u64::MAX` milliseconds is held at
//! `u64::MAX`.

use vstd::prelude::*;
use reqwest::header::HeaderMap;
use crate::headers::{get_header_u32, get_header_u64, header_u32, header_u64};
use crate::mirror::{is_success, status_is_success, Mirror};

verus! {

/// The length of a quota window.
pub const WINDOW_MS: u64 = 60_000;

/// How long past the renewal a waiting caller sleeps.
pub const GRACE_MS: u64 = 100;

/// The margin added to a renewal time that the server reports, in seconds.
pub const MARGIN_SECS: u64 = 1;

/// The allowance that a new limiter starts with.
pub const INITIAL_QUOTA: u32 = 60;

/// After how many completed downloads a polled quota is read again.
pub const REFRESH_EVERY: u32 = 50;

/// What is known of the mirror's quota.
#[derive(Debug, Clone, Copy, PartialEq, Eq, Structural)]
pub struct RateLimitState {
    /// Requests that may still be made in this window.
    pub remaining: u32,
    /// When the allowance is renewed.
    pub reset_at: u64,
    /// The allowance of a whole window.
    pub limit_cap: u32,
    /// Downloads completed so far.
    pub download_count: u32,
}

/// What a caller that wants to make a request has to do.
#[derive(Debug, Clone, Copy, PartialEq, Eq, Structural)]
pub enum WaitDecision {
    /// One unit of quota was taken: make the request.
    Proceed,
    /// Nothing was taken: sleep this many milliseconds, then ask again.
    Sleep(u64),
}

/// The body of the quota endpoint's reply.
#[derive(Debug, Clone, Copy, PartialEq, Eq, Structural)]
pub struct CatboyRateLimitResponse {
    pub remaining: CatboyRemaining,
    pub types: CatboyTypes,
}

/// What is left of each allowance.
#[derive(Debug, Clone, Copy, PartialEq, Eq, Structural)]
pub struct CatboyRemaining {
    pub download: u32,
}

/// The allowance of each kind of request.
#[derive(Debug, Clone, Copy, PartialEq, Eq, Structural)]
pub struct CatboyTypes {
    pub download: u32,
}

/// What came back from the quota endpoint.
#[derive(Debug, Clone, Copy, PartialEq, Eq)]
pub struct QuotaReply {
    /// The status of the reply.
    pub status: u16,
    /// The body, or `None` where it could not be read.
    pub body: Option<CatboyRateLimitResponse>,
}

/// A point in time, held at `u64::MAX` where it would lie beyond.
pub open spec fn clamp_ms(t: int) -> u64 {
    if t >= u64::MAX {
        u64::MAX
    } else if t <= 0 {
        0
    } else {
        t as u64
    }
}

/// The state of a limiter made at time `now`.
pub open spec fn initial_state(now: u64) -> RateLimitState {
    RateLimitState {
        remaining: INITIAL_QUOTA,
        reset_at: clamp_ms(now + WINDOW_MS),
        limit_cap: INITIAL_QUOTA,
        download_count: 0,
    }
}

/// One request for a unit of quota at time `now`: the state afterwards and
/// the decision.
///
/// A unit that is left is taken.  With none left and the renewal time
/// reached, the allowance is renewed, the next window starts at `now`, and a
/// unit of the new allowance is taken, if it has any.  Otherwise the caller
/// sleeps until `GRACE_MS` past the renewal.
pub open spec fn wait_step(s: RateLimitState, now: u64) -> (RateLimitState, WaitDecision) {
    if s.remaining > 0 {
        (RateLimitState { remaining: (s.remaining - 1) as u32, ..s }, WaitDecision::Proceed)
    } else if now >= s.reset_at {
        let reset_at = clamp_ms(now + WINDOW_MS);
        if s.limit_cap > 0 {
            (
                RateLimitState { remaining: (s.limit_cap - 1) as u32, reset_at, ..s },
                WaitDecision::Proceed,
            )
        } else {
            (
                RateLimitState { reset_at, ..s },
                WaitDecision::Sleep(clamp_ms(reset_at - now + GRACE_MS)),
            )
        }
    } else {
        (s, WaitDecision::Sleep(clamp_ms(s.reset_at - now + GRACE_MS)))
    }
}

/// The number of seconds until renewal that a response reports:
/// `x-ratelimit-reset`, or else `retry-after`.
pub open spec fn reset_hint(h: HeaderMap) -> Option<u64> {
    match header_u64(h, "x-ratelimit-reset"@) {
        Some(secs) => Some(secs),
        None => header_u64(h, "retry-after"@),
    }
}

/// The state after the headers of a response were taken over at time `now`:
/// each value that the headers report replaces the one held, and a reported
/// renewal lies `MARGIN_SECS` later than reported.
pub open spec fn observed(s: RateLimitState, h: HeaderMap, now: u64) -> RateLimitState {
    RateLimitState {
        remaining: match header_u32(h, "x-ratelimit-remaining-minute"@) {
            Some(left) => left,
            None => s.remaining,
        },
        limit_cap: match header_u32(h, "x-ratelimit-limit-minute"@) {
            Some(cap) => cap,
            None => s.limit_cap,
        },
        reset_at: match reset_hint(h) {
            Some(secs) => clamp_ms(now + (secs + MARGIN_SECS) * 1000),
            None => s.reset_at,
        },
        download_count: s.download_count,
    }
}

/// The state after a polled quota was taken over at time `now`.
pub open spec fn polled(s: RateLimitState, data: CatboyRateLimitResponse, now: u64)
    -> RateLimitState {
    RateLimitState {
        remaining: data.remaining.download,
        limit_cap: data.types.download,
        reset_at: clamp_ms(now + WINDOW_MS),
        download_count: s.download_count,
    }
}

/// The quota that a poll of the quota endpoint brought: the body of a reply
/// with success, on a mirror whose quota is polled.  Where the request did not
/// get through (`None`), the reply has no success or its body could not be
/// read, the poll brought nothing.
pub open spec fn polled_quota(mirror: Mirror, reply: Option<QuotaReply>) -> Option<
    CatboyRateLimitResponse,
> {
    match reply {
        Some(r) => if mirror.supports_polled_quota() && is_success(r.status) {
            r.body
        } else {
            None
        },
        None => None,
    }
}

/// The state after a poll of the quota endpoint that ended at time `now`:
/// what the poll brought is taken over, and a poll that brought nothing
/// leaves the state as it is.
pub open spec fn refreshed(s: RateLimitState, mirror: Mirror, reply: Option<QuotaReply>, now: u64)
    -> RateLimitState {
    match polled_quota(mirror, reply) {
        Some(data) => polled(s, data, now),
        None => s,
    }
}

/// `now + ms`, held at `u64::MAX`.
pub fn later(now: u64, ms: u64) -> (t: u64)
    ensures
        t == clamp_ms(now + ms),
{
    now.saturating_add(ms)
}

/// Tracks the quota of one mirror for one run.
#[derive(Debug)]
pub struct RateLimiter {
    mirror: Mirror,
    state: RateLimitState,
}

impl View for RateLimiter {
    type V = RateLimitState;

    closed spec fn view(&self) -> RateLimitState {
        self.state
    }
}

impl RateLimiter {
    /// The mirror whose quota is tracked.
    pub closed spec fn spec_mirror(&self) -> Mirror {
        self.mirror
    }

    #[verifier::when_used_as_spec(spec_mirror)]
    pub fn mirror(&self) -> (m: Mirror)
        ensures
            m == self.spec_mirror(),
    {
        self.mirror
    }

    /// What is known of the quota now.
    pub fn state(&self) -> (s: RateLimitState)
        ensures
            s == self@,
    {
        self.state
    }

    /// A limiter with a full allowance whose first window starts at `now`.
    pub fn new(mirror: Mirror, now: u64) -> (limiter: Self)
        ensures
            limiter.mirror() == mirror,
            limiter@ == initial_state(now),
    {
        RateLimiter {
            mirror,
            state: RateLimitState {
                remaining: INITIAL_QUOTA,
                reset_at: later(now, WINDOW_MS),
                limit_cap: INITIAL_QUOTA,
                download_count: 0,
            },
        }
    }

    /// A limiter that holds the given state.
    pub fn from_state(mirror: Mirror, state: RateLimitState) -> (limiter: Self)
        ensures
            limiter.mirror() == mirror,
            limiter@ == state,
    {
        RateLimiter { mirror, state }
    }

    /// Asks for one unit of quota at time `now`.
    ///
    /// On `Proceed` the unit is taken and the request may be made.  On
    /// `Sleep` the caller gives up its hold on the limiter, sleeps, and asks
    /// again.
    pub fn wait(&mut self, now: u64) -> (decision: WaitDecision)
        ensures
            final(self).mirror() == old(self).mirror(),
            (final(self)@, decision) == wait_step(old(self)@, now),
    {
        if self.state.remaining > 0 {
            self.state.remaining = self.state.remaining - 1;
            return WaitDecision::Proceed;
        }
        if now >= self.state.reset_at {
            self.state.reset_at = later(now, WINDOW_MS);
            if self.state.limit_cap > 0 {
                self.state.remaining = self.state.limit_cap - 1;
                return WaitDecision::Proceed;
            }
        }
        WaitDecision::Sleep(later(self.state.reset_at - now, GRACE_MS))
    }

    /// Takes over what the headers of a response say of the quota, where the
    /// mirror reports it there.  For any other mirror nothing changes.
    pub fn update_from_headers(&mut self, headers: &HeaderMap, now: u64)
        ensures
            final(self).mirror() == old(self).mirror(),
            old(self).mirror().supports_header_feedback() ==> final(self)@ == observed(
                old(self)@,
                *headers,
                now,
            ),
            !old(self).mirror().supports_header_feedback() ==> final(self)@ == old(self)@,
    {
        if self.mirror.supports_header_feedback() {
            if let Some(left) = get_header_u32(headers, "x-ratelimit-remaining-minute") {
                self.state.remaining = left;
            }
            if let Some(cap) = get_header_u32(headers, "x-ratelimit-limit-minute") {
                self.state.limit_cap = cap;
            }
            let hint = match get_header_u64(headers, "x-ratelimit-reset") {
                Some(secs) => Some(secs),
                None => get_header_u64(headers, "retry-after"),
            };
            if let Some(secs) = hint {
                self.state.reset_at = deadline_after_secs(now, secs);
            }
        }
    }

    /// Takes over the outcome of a poll of the quota endpoint that ended at
    /// time `now`: the reply, or `None` where the request did not get through.
    ///
    /// The refresh is best effort and reports no failure.  A reply with
    /// success and a readable body replaces what is held, on a mirror whose
    /// quota is polled.  Anything else leaves the state as it is, and the
    /// limiter goes on with what it holds.
    pub fn refresh_catboy_limits(&mut self, reply: Option<QuotaReply>, now: u64)
        ensures
            final(self).mirror() == old(self).mirror(),
            final(self)@ == refreshed(old(self)@, old(self).mirror(), reply, now),
    {
        if !self.mirror.supports_polled_quota() {
            return;
        }
        if let Some(r) = reply {
            if status_is_success(r.status) {
                if let Some(data) = r.body {
                    self.state.remaining = data.remaining.download;
                    self.state.limit_cap = data.types.download;
                    self.state.reset_at = later(now, WINDOW_MS);
                }
            }
        }
    }

    /// Counts one completed download.  The result says whether the polled
    /// quota is due to be read again: after every `REFRESH_EVERY`th download,
    /// for a mirror whose quota is polled.
    pub fn on_download_complete(&mut self) -> (needs_refresh: bool)
        requires
            old(self)@.download_count < u32::MAX,
        ensures
            final(self).mirror() == old(self).mirror(),
            final(self)@ == (RateLimitState {
                download_count: (old(self)@.download_count + 1) as u32,
                ..old(self)@
            }),
            needs_refresh == (old(self).mirror().supports_polled_quota() && (old(
                self,
            )@.download_count + 1) % (REFRESH_EVERY as int) == 0),
    {
        self.state.download_count = self.state.download_count + 1;
        self.mirror.supports_polled_quota() && self.state.download_count % REFRESH_EVERY == 0
    }
}

/// The time `secs + MARGIN_SECS` seconds after `now`, held at `u64::MAX`.
pub fn deadline_after_secs(now: u64, secs: u64) -> (t: u64)
    ensures
        t == clamp_ms(now + (secs + MARGIN_SECS) * 1000),
{
    let wide: u128 = (secs as u128 + MARGIN_SECS as u128) * 1000 + now as u128;
    if wide >= 0xFFFF_FFFF_FFFF_FFFF {
        0xFFFF_FFFF_FFFF_FFFF
    } else {
        wide as u64
    }
}

} // verus!

verus! {

/// With nothing left and the renewal time reached, a request renews the
/// allowance and is granted at once: one unit of the new allowance is taken
/// and the next window starts at `now`.  An allowance of zero has no unit to
/// take, so this is said of allowances above zero.
pub proof fn lemma_wait_renews_when_due(s: RateLimitState, now: u64)
    requires
        s.remaining == 0,
        s.reset_at <= now,
        s.limit_cap > 0,
    ensures
        wait_step(s, now).1 == WaitDecision::Proceed,
        wait_step(s, now).0.remaining == s.limit_cap - 1,
        wait_step(s, now).0.reset_at == clamp_ms(now + WINDOW_MS),
{
}

/// With nothing left and the renewal time ahead, a request is not granted:
/// the state stays as it is and the caller is told to sleep until `GRACE_MS`
/// past the renewal, which is no earlier than the renewal itself.
pub proof fn lemma_wait_sleeps_until_reset(s: RateLimitState, now: u64)
    requires
        s.remaining == 0,
        now < s.reset_at,
    ensures
        wait_step(s, now).0 == s,
        wait_step(s, now).1 == WaitDecision::Sleep(clamp_ms(s.reset_at - now + GRACE_MS)),
        now + clamp_ms(s.reset_at - now + GRACE_MS) >= s.reset_at,
{
}

/// The state after a run of requests made at the given times, one after the
/// other.
pub open spec fn after_requests(s: RateLimitState, times: Seq<u64>) -> RateLimitState
    decreases times.len(),
{
    if times.len() == 0 {
        s
    } else {
        wait_step(after_requests(s, times.drop_last()), times.last()).0
    }
}

/// With nothing left, no request made before the renewal time is granted,
/// however many are made: each is told to sleep, and the state does not
/// change.
pub proof fn lemma_no_grant_before_reset(s: RateLimitState, times: Seq<u64>)
    requires
        s.remaining == 0,
        forall|i: int| 0 <= i < times.len() ==> #[trigger] times[i] < s.reset_at,
    ensures
        after_requests(s, times) == s,
        forall|i: int|
            0 <= i < times.len() ==> wait_step(
                after_requests(s, times.take(i)),
                #[trigger] times[i],
            ).1 is Sleep,
    decreases times.len(),
{
    if times.len() > 0 {
        let front = times.drop_last();
        assert forall|i: int| 0 <= i < front.len() implies #[trigger] front[i] < s.reset_at by {
            assert(front[i] == times[i]);
        }
        lemma_no_grant_before_reset(s, front);
        assert(times.last() == times[times.len() - 1]);
        assert forall|i: int| 0 <= i < times.len() implies wait_step(
            after_requests(s, times.take(i)),
            #[trigger] times[i],
        ).1 is Sleep by {
            let upto = times.take(i);
            assert forall|k: int| 0 <= k < upto.len() implies #[trigger] upto[k] < s.reset_at by {
                assert(upto[k] == times[k]);
            }
            if i < times.len() - 1 {
                assert(front.take(i) =~= upto);
                assert(front[i] == times[i]);
            } else {
                assert(upto =~= front);
            }
        }
    }
}

/// A remaining allowance that the headers report replaces the one held,
/// whatever that was.
pub proof fn lemma_observed_remaining(s: RateLimitState, h: HeaderMap, now: u64, left: u32)
    requires
        header_u32(h, "x-ratelimit-remaining-minute"@) == Some(left),
    ensures
        observed(s, h, now).remaining == left,
{
}

} // verus!
