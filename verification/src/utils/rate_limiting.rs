//! Sliding-window admission control: a global ceiling per minute and a
//! ceiling per client address per day.
//!
//! The limiter is an owned object, modelled by [`LimiterView`]. Time is
//! passed in, as milliseconds since the epoch.

use crate::utils::keyed::{
    lists_domain, stamp_map_get, stamp_map_insert, stamp_map_keys, stamp_map_new,
    stamp_map_remove, stamp_map_view,
};
use crate::utils::text::{
    append_str, lemma_filter_drops_all, lemma_filter_keeps_all, lemma_push_contains,
    push_decimal, string_of, views,
};
use dashmap::DashMap;
use std::hash::RandomState;
use vstd::prelude::*;

verus! {

/// Length of the global window in milliseconds.
pub const MINUTE_MS: u64 = 60_000;

/// Length of the per-client window in milliseconds.
pub const DAY_MS: u64 = 86_400_000;

/// The test that a stamp passes when it lies less than `window` before `now`.
pub open spec fn within(now: u64, window: u64) -> spec_fn(u64) -> bool {
    |t: u64| t + window > now
}

/// The stamps that lie less than `window` before `now`, in order.
pub open spec fn recent(stamps: Seq<u64>, now: u64, window: u64) -> Seq<u64> {
    stamps.filter(within(now, window))
}

/// A length as a 32-bit count, held at the largest value.
pub open spec fn clamp_u32(n: nat) -> u32 {
    if n > u32::MAX {
        u32::MAX
    } else {
        n as u32
    }
}

fn clamp_len(n: usize) -> (r: u32)
    ensures
        r == clamp_u32(n as nat),
{
    if n > u32::MAX as usize {
        u32::MAX
    } else {
        n as u32
    }
}

/// The stamps of `stamps` that lie less than `window` before `now`.
pub fn retain_recent(stamps: &Vec<u64>, now: u64, window: u64) -> (r: Vec<u64>)
    ensures
        r@ == recent(stamps@, now, window),
{
    let ghost keep = within(now, window);
    let mut r: Vec<u64> = Vec::new();
    let mut i: usize = 0;
    proof {
        reveal(Seq::filter);
        assert(stamps@.take(0) == Seq::<u64>::empty());
    }
    while i < stamps.len()
        invariant
            i <= stamps.len(),
            keep == within(now, window),
            r@ == stamps@.take(i as int).filter(keep),
        decreases stamps.len() - i,
    {
        proof {
            reveal(Seq::filter);
            assert(stamps@.take(i as int + 1).drop_last() == stamps@.take(i as int));
            assert(stamps@.take(i as int + 1).last() == stamps@[i as int]);
        }
        if stamps[i] as u128 + window as u128 > now as u128 {
            r.push(stamps[i]);
        }
        i += 1;
    }
    proof {
        assert(stamps@.take(stamps.len() as int) == stamps@);
    }
    r
}

/// A snapshot of the counters against their ceilings.
#[derive(Debug, Clone, Copy, PartialEq, Eq, Structural)]
pub struct RateLimitInfo {
    pub global_requests_per_minute: u32,
    pub global_limit_per_minute: u32,
    pub ip_requests_per_day: u32,
    pub ip_limit_per_day: u32,
}

/// Why a request was not admitted.
#[derive(Debug, Clone)]
pub enum RateLimitError {
    GlobalLimitExceeded { limit: u32, current: u32 },
    IpLimitExceeded { ip: String, limit: u32, current: u32 },
}

/// The text of a denial.
pub open spec fn denial_message(e: RateLimitError) -> Seq<char> {
    match e {
        RateLimitError::GlobalLimitExceeded { limit, current } => "Global rate limit exceeded: "@
            + crate::utils::text::decimal(current as nat) + "/"@ + crate::utils::text::decimal(
            limit as nat,
        ) + " requests per minute"@,
        RateLimitError::IpLimitExceeded { ip, limit, current } => "IP rate limit exceeded for "@
            + ip@ + ": "@ + crate::utils::text::decimal(current as nat) + "/"@
            + crate::utils::text::decimal(limit as nat) + " requests per day"@,
    }
}

impl RateLimitError {
    /// The HTTP status that goes with a denial: 429, too many requests.
    pub fn status_code(&self) -> (code: u16)
        ensures
            code == 429,
    {
        429
    }

    /// After how many seconds a retry may succeed: a minute for the global
    /// ceiling, an hour for the per-client one.
    pub fn retry_after_seconds(&self) -> (secs: u64)
        ensures
            secs == (match *self {
                RateLimitError::GlobalLimitExceeded { .. } => 60u64,
                RateLimitError::IpLimitExceeded { .. } => 3600u64,
            }),
    {
        match self {
            RateLimitError::GlobalLimitExceeded { .. } => 60,
            RateLimitError::IpLimitExceeded { .. } => 3600,
        }
    }

    /// The text of the denial.
    pub fn message(&self) -> (text: String)
        ensures
            text@ == denial_message(*self),
    {
        let mut out: Vec<char> = Vec::new();
        match self {
            RateLimitError::GlobalLimitExceeded { limit, current } => {
                append_str(&mut out, "Global rate limit exceeded: ");
                push_decimal(*current as u64, &mut out);
                append_str(&mut out, "/");
                push_decimal(*limit as u64, &mut out);
                append_str(&mut out, " requests per minute");
            },
            RateLimitError::IpLimitExceeded { ip, limit, current } => {
                append_str(&mut out, "IP rate limit exceeded for ");
                append_str(&mut out, ip.as_str());
                append_str(&mut out, ": ");
                push_decimal(*current as u64, &mut out);
                append_str(&mut out, "/");
                push_decimal(*limit as u64, &mut out);
                append_str(&mut out, " requests per day");
            },
        }
        string_of(out.as_slice())
    }
}

/// The model of a limiter.
#[verifier::ext_equal]
pub struct LimiterView {
    /// Stamps of the requests admitted globally, oldest first.
    pub global: Seq<u64>,
    /// Stamps of the requests admitted per client address, oldest first.
    pub per_ip: Map<Seq<char>, Seq<u64>>,
    pub minute_limit: u32,
    pub day_limit: u32,
}

/// Whether the global ceiling is reached at `now`.
pub open spec fn global_denied(l: LimiterView, now: u64) -> bool {
    recent(l.global, now, MINUTE_MS).len() >= l.minute_limit
}

/// The limiter after a global check at `now`: stale stamps are gone, and the
/// request is recorded if it was admitted.
pub open spec fn after_global_check(l: LimiterView, now: u64) -> LimiterView {
    let pruned = recent(l.global, now, MINUTE_MS);
    LimiterView {
        global: if global_denied(l, now) {
            pruned
        } else {
            pruned.push(now)
        },
        per_ip: l.per_ip,
        minute_limit: l.minute_limit,
        day_limit: l.day_limit,
    }
}

/// The stamps kept for a client address; none if it is unknown.
pub open spec fn stamps_of(l: LimiterView, ip: Seq<char>) -> Seq<u64> {
    if l.per_ip.contains_key(ip) {
        l.per_ip[ip]
    } else {
        Seq::<u64>::empty()
    }
}

/// Whether the per-client ceiling is reached for `ip` at `now`.
pub open spec fn ip_denied(l: LimiterView, ip: Seq<char>, now: u64) -> bool {
    recent(stamps_of(l, ip), now, DAY_MS).len() >= l.day_limit
}

/// The limiter after a per-client check of `ip` at `now`.
pub open spec fn after_ip_check(l: LimiterView, ip: Seq<char>, now: u64) -> LimiterView {
    let pruned = recent(stamps_of(l, ip), now, DAY_MS);
    LimiterView {
        global: l.global,
        per_ip: l.per_ip.insert(
            ip,
            if ip_denied(l, ip, now) {
                pruned
            } else {
                pruned.push(now)
            },
        ),
        minute_limit: l.minute_limit,
        day_limit: l.day_limit,
    }
}

/// The view of an optional client address.
pub open spec fn ip_view(ip: Option<&str>) -> Option<Seq<char>> {
    match ip {
        Some(s) => Some(s@),
        None => None,
    }
}

/// The limiter after both checks: the global one, and, when that admits and
/// the client address is known, the per-client one.
pub open spec fn after_check(l: LimiterView, ip: Option<Seq<char>>, now: u64) -> LimiterView {
    if global_denied(l, now) || ip is None {
        after_global_check(l, now)
    } else {
        after_ip_check(after_global_check(l, now), ip->0, now)
    }
}

/// The limiter after stale stamps have been pruned at `now` for the client
/// addresses in `done`; addresses left without stamps are forgotten.
pub open spec fn pruned_for(
    per_ip: Map<Seq<char>, Seq<u64>>,
    done: Seq<Seq<char>>,
    now: u64,
) -> Map<Seq<char>, Seq<u64>> {
    Map::new(
        |k: Seq<char>|
            per_ip.contains_key(k) && (done.contains(k) ==> recent(per_ip[k], now, DAY_MS).len()
                > 0),
        |k: Seq<char>|
            if done.contains(k) {
                recent(per_ip[k], now, DAY_MS)
            } else {
                per_ip[k]
            },
    )
}

/// The limiter after the background pruning at `now`.
pub open spec fn after_cleanup(l: LimiterView, now: u64) -> LimiterView {
    LimiterView {
        global: recent(l.global, now, MINUTE_MS),
        per_ip: Map::new(
            |k: Seq<char>| l.per_ip.contains_key(k) && recent(l.per_ip[k], now, DAY_MS).len() > 0,
            |k: Seq<char>| recent(l.per_ip[k], now, DAY_MS),
        ),
        minute_limit: l.minute_limit,
        day_limit: l.day_limit,
    }
}

/// The sliding-window rate limiter.
pub struct RateLimiter {
    ip_requests: DashMap<String, Vec<u64>, RandomState>,
    global_requests: Vec<u64>,
    max_requests_per_minute: u32,
    max_requests_per_day_per_ip: u32,
}

impl View for RateLimiter {
    type V = LimiterView;

    closed spec fn view(&self) -> LimiterView {
        LimiterView {
            global: self.global_requests@,
            per_ip: stamp_map_view(self.ip_requests),
            minute_limit: self.max_requests_per_minute,
            day_limit: self.max_requests_per_day_per_ip,
        }
    }
}

impl RateLimiter {
    /// A limiter that has seen no request.
    pub fn new(max_requests_per_minute: u32, max_requests_per_day_per_ip: u32) -> (limiter: Self)
        ensures
            limiter@.global.len() == 0,
            limiter@.per_ip == (Map::<Seq<char>, Seq<u64>>::empty()),
            limiter@.minute_limit == max_requests_per_minute,
            limiter@.day_limit == max_requests_per_day_per_ip,
    {
        RateLimiter {
            ip_requests: stamp_map_new(),
            global_requests: Vec::new(),
            max_requests_per_minute,
            max_requests_per_day_per_ip,
        }
    }

    /// Checks the global ceiling, then, for a known client address, the
    /// per-client one. An admitted request is recorded in each window that it
    /// passed.
    pub fn check_rate_limit(&mut self, ip: Option<&str>, now: u64) -> (r: Result<
        (),
        RateLimitError,
    >)
        ensures
            final(self)@ == after_check(old(self)@, ip_view(ip), now),
            match r {
                Ok(_) => !global_denied(old(self)@, now) && (ip is Some ==> !ip_denied(
                    old(self)@,
                    ip->0@,
                    now,
                )),
                Err(RateLimitError::GlobalLimitExceeded { limit, current }) => global_denied(
                    old(self)@,
                    now,
                ) && limit == old(self)@.minute_limit && current == clamp_u32(
                    recent(old(self)@.global, now, MINUTE_MS).len(),
                ),
                Err(RateLimitError::IpLimitExceeded { ip: who, limit, current }) => !global_denied(
                    old(self)@,
                    now,
                ) && ip is Some && who@ == ip->0@ && ip_denied(old(self)@, ip->0@, now) && limit
                    == old(self)@.day_limit && current == clamp_u32(
                    recent(stamps_of(old(self)@, ip->0@), now, DAY_MS).len(),
                ),
            },
    {
        match self.check_global_rate_limit(now) {
            Err(e) => {
                return Err(e);
            },
            Ok(_) => {},
        }
        match ip {
            Some(ip_addr) => self.check_ip_rate_limit(ip_addr, now),
            None => Ok(()),
        }
    }

    /// Checks the global ceiling at `now`. The request is denied when the
    /// last minute already holds as many admitted requests as the ceiling;
    /// otherwise it is admitted and recorded.
    pub fn check_global_rate_limit(&mut self, now: u64) -> (r: Result<(), RateLimitError>)
        ensures
            final(self)@ == after_global_check(old(self)@, now),
            match r {
                Ok(_) => !global_denied(old(self)@, now),
                Err(RateLimitError::GlobalLimitExceeded { limit, current }) => global_denied(
                    old(self)@,
                    now,
                ) && limit == old(self)@.minute_limit && current == clamp_u32(
                    recent(old(self)@.global, now, MINUTE_MS).len(),
                ),
                Err(_) => false,
            },
    {
        let mut pruned = retain_recent(&self.global_requests, now, MINUTE_MS);
        if pruned.len() >= self.max_requests_per_minute as usize {
            let current = clamp_len(pruned.len());
            self.global_requests = pruned;
            return Err(
                RateLimitError::GlobalLimitExceeded {
                    limit: self.max_requests_per_minute,
                    current,
                },
            );
        }
        pruned.push(now);
        self.global_requests = pruned;
        Ok(())
    }

    /// Checks the per-client ceiling for `ip` at `now`. The request is denied
    /// when the last day already holds as many admitted requests from `ip` as
    /// the ceiling; otherwise it is admitted and recorded.
    pub fn check_ip_rate_limit(&mut self, ip: &str, now: u64) -> (r: Result<(), RateLimitError>)
        ensures
            final(self)@ == after_ip_check(old(self)@, ip@, now),
            match r {
                Ok(_) => !ip_denied(old(self)@, ip@, now),
                Err(RateLimitError::IpLimitExceeded { ip: who, limit, current }) => who@ == ip@
                    && ip_denied(old(self)@, ip@, now) && limit == old(self)@.day_limit && current
                    == clamp_u32(recent(stamps_of(old(self)@, ip@), now, DAY_MS).len()),
                Err(_) => false,
            },
    {
        let stamps = match stamp_map_get(&self.ip_requests, ip) {
            Some(v) => v,
            None => Vec::new(),
        };
        let mut pruned = retain_recent(&stamps, now, DAY_MS);
        if pruned.len() >= self.max_requests_per_day_per_ip as usize {
            let current = clamp_len(pruned.len());
            stamp_map_insert(&mut self.ip_requests, ip.to_string(), pruned);
            return Err(
                RateLimitError::IpLimitExceeded {
                    ip: ip.to_string(),
                    limit: self.max_requests_per_day_per_ip,
                    current,
                },
            );
        }
        pruned.push(now);
        stamp_map_insert(&mut self.ip_requests, ip.to_string(), pruned);
        Ok(())
    }

    /// The counters at `now`, without recording anything.
    pub fn get_rate_limit_info(&self, ip: Option<&str>, now: u64) -> (info: RateLimitInfo)
        ensures
            info.global_requests_per_minute == clamp_u32(
                recent(self@.global, now, MINUTE_MS).len(),
            ),
            info.global_limit_per_minute == self@.minute_limit,
            info.ip_requests_per_day == (match ip {
                Some(s) => clamp_u32(recent(stamps_of(self@, s@), now, DAY_MS).len()),
                None => 0u32,
            }),
            info.ip_limit_per_day == self@.day_limit,
    {
        let global = retain_recent(&self.global_requests, now, MINUTE_MS);
        let ip_count: u32 = match ip {
            Some(ip_addr) => {
                match stamp_map_get(&self.ip_requests, ip_addr) {
                    Some(stamps) => clamp_len(retain_recent(&stamps, now, DAY_MS).len()),
                    None => {
                        proof {
                            reveal(Seq::filter);
                        }
                        0
                    },
                }
            },
            None => 0,
        };
        RateLimitInfo {
            global_requests_per_minute: clamp_len(global.len()),
            global_limit_per_minute: self.max_requests_per_minute,
            ip_requests_per_day: ip_count,
            ip_limit_per_day: self.max_requests_per_day_per_ip,
        }
    }

    /// The background pruning: drops every stamp that has left its window at
    /// `now`, and forgets client addresses without stamps.
    pub fn cleanup_old_entries(&mut self, now: u64)
        ensures
            final(self)@ == after_cleanup(old(self)@, now),
    {
        let ghost start = stamp_map_view(self.ip_requests);
        let keys = stamp_map_keys(&self.ip_requests);
        let ghost names = views(keys@);
        let mut i: usize = 0;
        proof {
            assert(names.take(0) == Seq::<Seq<char>>::empty());
            assert(start =~= pruned_for(start, names.take(0), now));
        }
        while i < keys.len()
            invariant
                i <= keys.len(),
                names == views(keys@),
                lists_domain(keys@, start),
                self.global_requests == old(self).global_requests,
                self.max_requests_per_minute == old(self).max_requests_per_minute,
                self.max_requests_per_day_per_ip == old(self).max_requests_per_day_per_ip,
                stamp_map_view(self.ip_requests) == pruned_for(start, names.take(i as int), now),
            decreases keys.len() - i,
        {
            let ghost done = names.take(i as int);
            let ghost ki = keys@[i as int]@;
            proof {
                assert(names[i as int] == ki);
                assert(names.contains(ki));
                assert(start.contains_key(ki));
                assert(!done.contains(ki)) by {
                    if done.contains(ki) {
                        let j = choose|j: int| 0 <= j < done.len() && done[j] == ki;
                        assert(names[j] == ki);
                    }
                }
                assert(names.take(i as int + 1) == done.push(ki));
                assert forall|x: Seq<char>| done.push(ki).contains(x) <==> (done.contains(x) || x
                    == ki) by {
                    lemma_push_contains(done, ki, x);
                }
            }
            match stamp_map_get(&self.ip_requests, keys[i].as_str()) {
                Some(stamps) => {
                    let pruned = retain_recent(&stamps, now, DAY_MS);
                    if pruned.len() == 0 {
                        stamp_map_remove(&mut self.ip_requests, keys[i].as_str());
                    } else {
                        stamp_map_insert(&mut self.ip_requests, keys[i].clone(), pruned);
                    }
                },
                None => {},
            }
            proof {
                assert(stamp_map_view(self.ip_requests) =~= pruned_for(start, done.push(ki), now));
            }
            i += 1;
        }
        proof {
            assert(names.take(keys.len() as int) == names);
            assert(stamp_map_view(self.ip_requests) =~= after_cleanup(old(self)@, now).per_ip);
        }
        self.global_requests = retain_recent(&self.global_requests, now, MINUTE_MS);
    }
}

/// The limiter after global checks at each of `times`, in order.
pub open spec fn after_global_checks(l: LimiterView, times: Seq<u64>) -> LimiterView
    decreases times.len(),
{
    if times.len() == 0 {
        l
    } else {
        after_global_check(after_global_checks(l, times.drop_last()), times.last())
    }
}

/// Requests that arrive in order within one window, starting on an empty
/// window and no more of them than the ceiling, are all admitted and
/// recorded.
pub proof fn lemma_admitted_within_window(l: LimiterView, times: Seq<u64>)
    requires
        l.global.len() == 0,
        times.len() <= l.minute_limit,
        forall|i: int, j: int| 0 <= i <= j < times.len() ==> times[i] <= times[j],
        forall|i: int| 0 <= i < times.len() ==> #[trigger] times[i] + MINUTE_MS > times.last(),
    ensures
        after_global_checks(l, times).global == times,
        after_global_checks(l, times).minute_limit == l.minute_limit,
        forall|k: int|
            0 <= k < times.len() ==> !global_denied(
                #[trigger] after_global_checks(l, times.take(k)),
                times[k],
            ),
    decreases times.len(),
{
    if times.len() == 0 {
        assert(l.global == times);
    } else {
        let init = times.drop_last();
        assert forall|i: int| 0 <= i < init.len() implies #[trigger] init[i] + MINUTE_MS
            > init.last() by {
            assert(init[i] == times[i]);
            assert(init.last() == times[init.len() - 1]);
        }
        lemma_admitted_within_window(l, init);
        let before = after_global_checks(l, init);
        let now = times.last();
        assert forall|i: int| 0 <= i < before.global.len() implies within(now, MINUTE_MS)(
            #[trigger] before.global[i],
        ) by {
            assert(before.global[i] == times[i]);
        }
        lemma_filter_keeps_all(before.global, within(now, MINUTE_MS));
        assert(init.push(now) == times);
        assert forall|k: int| 0 <= k < times.len() implies !global_denied(
            #[trigger] after_global_checks(l, times.take(k)),
            times[k],
        ) by {
            if k < init.len() {
                assert(times.take(k) == init.take(k));
                assert(times[k] == init[k]);
            } else {
                assert(times.take(k) == init);
            }
        }
    }
}

/// Rate limit boundary. Once as many requests as the ceiling have been
/// admitted within one window, the next request in that window is denied,
/// and a request that arrives when the window has rolled past all of them
/// is admitted.
pub proof fn lemma_rate_limit_boundary(l: LimiterView, times: Seq<u64>, now: u64)
    requires
        l.global.len() == 0,
        l.minute_limit > 0,
        times.len() == l.minute_limit,
        forall|i: int, j: int| 0 <= i <= j < times.len() ==> times[i] <= times[j],
        forall|i: int| 0 <= i < times.len() ==> #[trigger] times[i] + MINUTE_MS > times.last(),
        times.last() <= now,
    ensures
        times[0] + MINUTE_MS > now ==> global_denied(after_global_checks(l, times), now),
        times.last() + MINUTE_MS <= now ==> !global_denied(after_global_checks(l, times), now),
{
    lemma_admitted_within_window(l, times);
    let full = after_global_checks(l, times);
    if times[0] + MINUTE_MS > now {
        assert forall|i: int| 0 <= i < full.global.len() implies within(now, MINUTE_MS)(
            #[trigger] full.global[i],
        ) by {
            assert(times[0] <= times[i]);
        }
        lemma_filter_keeps_all(full.global, within(now, MINUTE_MS));
    }
    if times.last() + MINUTE_MS <= now {
        assert forall|i: int| 0 <= i < full.global.len() implies !within(now, MINUTE_MS)(
            #[trigger] full.global[i],
        ) by {
            assert(times[i] <= times.last());
        }
        lemma_filter_drops_all(full.global, within(now, MINUTE_MS));
    }
}

} // verus!
