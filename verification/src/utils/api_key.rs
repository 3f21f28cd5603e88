//! The pool of upstream credentials: rotation order, per-credential usage and
//! health, and the deny-list.
//!
//! The pool is an owned object. Its state is modelled by [`PoolView`], and
//! every operation is stated as a function from the model before the call to
//! the model after it. Time is passed in, as milliseconds since the epoch.

use crate::config::settings::Settings;
use crate::models::schemas::opt_view;
use crate::utils::keyed::{
    key_stats_get, key_stats_insert, key_stats_keys, key_stats_new, key_stats_remove,
    key_stats_view, lists_domain,
};
use crate::utils::text::{lemma_filter_keeps_all, lemma_push_contains, str_eq, views};
use dashmap::DashMap;
use rand::seq::SliceRandom;
use std::collections::VecDeque;
use std::hash::RandomState;
use vstd::prelude::*;

verus! {

/// Consecutive failures after which a credential is taken out of rotation.
pub const FAILURE_THRESHOLD: u32 = 5;

/// Length of a UTC day in milliseconds.
pub const MILLIS_PER_DAY: u64 = 86_400_000;

/// Usage and health of one credential.
#[derive(Debug, Clone, Copy, PartialEq, Eq, Structural)]
pub struct ApiKeyStats {
    pub daily_usage: u32,
    pub last_used: u64,
    pub consecutive_failures: u32,
}

/// The model of a pool.
#[verifier::ext_equal]
pub struct PoolView {
    /// Credentials in rotation, head first.
    pub rotation: Seq<Seq<char>>,
    /// Statistics of the credentials that have any.
    pub stats: Map<Seq<char>, ApiKeyStats>,
    /// Credentials that were found invalid, oldest first.
    pub invalid: Seq<Seq<char>>,
    /// Successful uses per day after which a credential is passed over.
    pub daily_limit: u32,
}

/// Statistics of a credential that has not been used yet.
pub open spec fn fresh_stats(now: u64) -> ApiKeyStats {
    ApiKeyStats { daily_usage: 0, last_used: now, consecutive_failures: 0 }
}

impl ApiKeyStats {
    /// Statistics of a credential that has not been used yet, as of `now`.
    pub fn fresh(now: u64) -> (stats: Self)
        ensures
            stats == fresh_stats(now),
    {
        ApiKeyStats { daily_usage: 0, last_used: now, consecutive_failures: 0 }
    }
}

/// `n + 1`, held at the largest value.
pub open spec fn saturating_inc(n: u32) -> u32 {
    if n < u32::MAX {
        (n + 1) as u32
    } else {
        n
    }
}

/// The UTC day, counted from the epoch, in which the instant `t` lies.
pub open spec fn day_of(t: u64) -> int {
    t as int / MILLIS_PER_DAY as int
}

/// Whether a credential may be served without recycling: it has no
/// statistics yet, or its usage today is under the limit.
pub open spec fn usable(p: PoolView, key: Seq<char>) -> bool {
    !p.stats.contains_key(key) || p.stats[key].daily_usage < p.daily_limit
}

/// The first position at or after `i` in the rotation that holds a usable
/// credential; the length of the rotation if there is none.
pub open spec fn first_usable_from(p: PoolView, i: int) -> int
    decreases p.rotation.len() - i,
{
    if i < 0 || i >= p.rotation.len() {
        p.rotation.len() as int
    } else if usable(p, p.rotation[i]) {
        i
    } else {
        first_usable_from(p, i + 1)
    }
}

/// The position in the rotation of the credential that is served next: the
/// first usable one, or the head when every credential is over its quota.
pub open spec fn served_index(p: PoolView) -> int {
    let i = first_usable_from(p, 0);
    if i < p.rotation.len() {
        i
    } else {
        0
    }
}

/// The credential that is served next, if the rotation holds any.
pub open spec fn acquired_key(p: PoolView) -> Option<Seq<char>> {
    if p.rotation.len() == 0 {
        None
    } else {
        Some(p.rotation[served_index(p)])
    }
}

/// The pool after serving a credential: everything up to and including the
/// served one has moved to the tail, and the served one has statistics.
pub open spec fn after_acquire(p: PoolView, now: u64) -> PoolView {
    if p.rotation.len() == 0 {
        p
    } else {
        let i = served_index(p);
        let key = p.rotation[i];
        PoolView {
            rotation: p.rotation.skip(i + 1) + p.rotation.take(i + 1),
            stats: if p.stats.contains_key(key) {
                p.stats
            } else {
                p.stats.insert(key, fresh_stats(now))
            },
            invalid: p.invalid,
            daily_limit: p.daily_limit,
        }
    }
}

/// The test that every credential but `key` passes.
pub open spec fn other_than(key: Seq<char>) -> spec_fn(Seq<char>) -> bool {
    |k: Seq<char>| k != key
}

/// The pool after a credential is invalidated: out of the rotation, without
/// statistics, and on the deny-list once.
pub open spec fn after_invalidate(p: PoolView, key: Seq<char>) -> PoolView {
    PoolView {
        rotation: p.rotation.filter(other_than(key)),
        stats: p.stats.remove(key),
        invalid: if p.invalid.contains(key) {
            p.invalid
        } else {
            p.invalid.push(key)
        },
        daily_limit: p.daily_limit,
    }
}

/// The statistics of a credential after one use.
pub open spec fn stats_after_use(s: ApiKeyStats, success: bool, now: u64) -> ApiKeyStats {
    if success {
        ApiKeyStats {
            daily_usage: saturating_inc(s.daily_usage),
            last_used: now,
            consecutive_failures: 0,
        }
    } else {
        ApiKeyStats {
            daily_usage: s.daily_usage,
            last_used: now,
            consecutive_failures: saturating_inc(s.consecutive_failures),
        }
    }
}

/// The pool after the outcome of one use of `key` is reported. A credential
/// without statistics is left alone. A failure that brings the run of
/// failures to the threshold invalidates the credential.
pub open spec fn after_release(p: PoolView, key: Seq<char>, success: bool, now: u64) -> PoolView {
    if !p.stats.contains_key(key) {
        p
    } else {
        let s = stats_after_use(p.stats[key], success, now);
        let q = PoolView {
            rotation: p.rotation,
            stats: p.stats.insert(key, s),
            invalid: p.invalid,
            daily_limit: p.daily_limit,
        };
        if !success && s.consecutive_failures >= FAILURE_THRESHOLD {
            after_invalidate(q, key)
        } else {
            q
        }
    }
}

/// Statistics with the usage of the day set back to zero.
pub open spec fn zeroed(s: ApiKeyStats) -> ApiKeyStats {
    ApiKeyStats {
        daily_usage: 0,
        last_used: s.last_used,
        consecutive_failures: s.consecutive_failures,
    }
}

/// The pool after the daily reset: every usage counter is zero.
pub open spec fn after_reset(p: PoolView) -> PoolView {
    PoolView {
        rotation: p.rotation,
        stats: Map::new(|k: Seq<char>| p.stats.contains_key(k), |k: Seq<char>| zeroed(p.stats[k])),
        invalid: p.invalid,
        daily_limit: p.daily_limit,
    }
}

/// Whether some credential was last used on a UTC day before that of `now`.
pub open spec fn needs_reset(p: PoolView, now: u64) -> bool {
    exists|k: Seq<char>| p.stats.contains_key(k) && day_of(now) > day_of(p.stats[k].last_used)
}

/// The credentials of the probe results that passed, if `ok`, or that did not.
pub open spec fn probed(results: Seq<(String, bool)>, ok: bool) -> Seq<Seq<char>>
    decreases results.len(),
{
    if results.len() == 0 {
        Seq::<Seq<char>>::empty()
    } else {
        let init = probed(results.drop_last(), ok);
        if results.last().1 == ok {
            init.push(results.last().0@)
        } else {
            init
        }
    }
}

/// Statistics after a probe: fresh ones for every credential that passed,
/// the old ones for the others.
pub open spec fn stats_after_probe(
    stats: Map<Seq<char>, ApiKeyStats>,
    valid: Seq<Seq<char>>,
    now: u64,
) -> Map<Seq<char>, ApiKeyStats> {
    Map::new(
        |k: Seq<char>| stats.contains_key(k) || valid.contains(k),
        |k: Seq<char>|
            if valid.contains(k) {
                fresh_stats(now)
            } else {
                stats[k]
            },
    )
}

/// Calls `SliceRandom::shuffle` with the thread's generator. The order that
/// comes out is random; the credentials are the same ones, each as often as
/// before.
#[verifier::external_body]
fn shuffle(v: &mut Vec<String>)
    ensures
        views(final(v)@).to_multiset() == views(old(v)@).to_multiset(),
{
    let mut rng = rand::rng();
    v.shuffle(&mut rng);
}

/// Shuffles a rotation in place.
fn shuffle_keys(keys: &mut VecDeque<String>)
    ensures
        views(final(keys)@).to_multiset() == views(old(keys)@).to_multiset(),
{
    let ghost orig = views(keys@);
    let mut v: Vec<String> = Vec::new();
    let n = keys.len();
    let mut i: usize = 0;
    while i < n
        invariant
            i <= n,
            n == orig.len(),
            views(keys@) == orig.skip(i as int),
            views(v@) == orig.take(i as int),
        decreases n - i,
    {
        let ghost before = views(v@);
        let ghost queue = views(keys@);
        proof {
            assert(queue.len() == keys@.len());
        }
        match keys.pop_front() {
            Some(k) => {
                v.push(k);
                proof {
                    assert(k@ == queue[0]);
                    assert(views(keys@) == queue.skip(1));
                    assert(queue.skip(1) == orig.skip(i as int + 1));
                    assert(views(v@) == before.push(k@));
                    assert(orig.take(i as int + 1) == orig.take(i as int).push(orig[i as int]));
                }
            },
            None => {},
        }
        i += 1;
    }
    proof {
        assert(orig.take(n as int) == orig);
        assert(views(keys@) == Seq::<Seq<char>>::empty());
    }
    shuffle(&mut v);
    let ghost mixed = views(v@);
    let m = v.len();
    let mut j: usize = 0;
    while j < m
        invariant
            j <= m,
            m == v.len(),
            mixed == views(v@),
            views(keys@) == mixed.take(j as int),
        decreases m - j,
    {
        let ghost before = views(keys@);
        keys.push_back(v[j].clone());
        proof {
            assert(views(keys@) == before.push(v@[j as int]@));
            assert(mixed.take(j as int + 1) == mixed.take(j as int).push(mixed[j as int]));
        }
        j += 1;
    }
    proof {
        assert(mixed.take(m as int) == mixed);
    }
}

/// Takes every occurrence of `key` out of a rotation.
fn remove_from_rotation(keys: &mut VecDeque<String>, key: &str)
    ensures
        views(final(keys)@) == views(old(keys)@).filter(other_than(key@)),
{
    let ghost orig = views(keys@);
    let ghost keep = other_than(key@);
    let mut kept: VecDeque<String> = VecDeque::new();
    let n = keys.len();
    let mut i: usize = 0;
    proof {
        reveal(Seq::filter);
        assert(orig.take(0) == Seq::<Seq<char>>::empty());
    }
    while i < n
        invariant
            i <= n,
            n == orig.len(),
            keep == other_than(key@),
            views(keys@) == orig.skip(i as int),
            views(kept@) == orig.take(i as int).filter(keep),
        decreases n - i,
    {
        let ghost before = views(kept@);
        proof {
            reveal(Seq::filter);
            assert(orig.take(i as int + 1).drop_last() == orig.take(i as int));
            assert(orig.take(i as int + 1).last() == orig[i as int]);
        }
        let ghost queue = views(keys@);
        proof {
            assert(queue.len() == keys@.len());
        }
        match keys.pop_front() {
            Some(k) => {
                proof {
                    assert(k@ == queue[0]);
                    assert(views(keys@) == queue.skip(1));
                    assert(queue.skip(1) == orig.skip(i as int + 1));
                }
                if !str_eq(k.as_str(), key) {
                    kept.push_back(k);
                    proof {
                        assert(views(kept@) == before.push(k@));
                    }
                }
            },
            None => {},
        }
        i += 1;
    }
    proof {
        assert(orig.take(n as int) == orig);
    }
    *keys = kept;
}

/// The rotating pool of upstream credentials.
pub struct ApiKeyManager {
    daily_limit: u32,
    configured_keys: Vec<String>,
    available_keys: VecDeque<String>,
    key_stats: DashMap<String, ApiKeyStats, RandomState>,
    invalid_keys: Vec<String>,
}

impl View for ApiKeyManager {
    type V = PoolView;

    closed spec fn view(&self) -> PoolView {
        PoolView {
            rotation: views(self.available_keys@),
            stats: key_stats_view(self.key_stats),
            invalid: views(self.invalid_keys@),
            daily_limit: self.daily_limit,
        }
    }
}

impl ApiKeyManager {
    /// The credentials that the pool was configured with and that a probe
    /// should try.
    pub closed spec fn configured(&self) -> Seq<Seq<char>> {
        views(self.configured_keys@)
    }

    /// An empty pool for the given settings.
    pub fn new(settings: &Settings) -> (pool: Self)
        ensures
            pool@.rotation.len() == 0,
            pool@.stats == (Map::<Seq<char>, ApiKeyStats>::empty()),
            pool@.invalid.len() == 0,
            pool@.daily_limit == settings.api_key_daily_limit,
            pool.configured() == crate::config::settings::valid_api_keys(
                views(settings.gemini_api_keys@),
                views(settings.invalid_api_keys@),
            ),
    {
        ApiKeyManager {
            daily_limit: settings.api_key_daily_limit,
            configured_keys: settings.get_valid_api_keys(),
            available_keys: VecDeque::new(),
            key_stats: key_stats_new(),
            invalid_keys: Vec::new(),
        }
    }

    /// The credentials to probe before [`ApiKeyManager::initialize`].
    pub fn keys_to_probe(&self) -> (r: Vec<String>)
        ensures
            views(r@) == self.configured(),
    {
        let mut r: Vec<String> = Vec::new();
        let mut i: usize = 0;
        while i < self.configured_keys.len()
            invariant
                i <= self.configured_keys.len(),
                views(r@) == views(self.configured_keys@).take(i as int),
            decreases self.configured_keys.len() - i,
        {
            let ghost before = views(r@);
            r.push(self.configured_keys[i].clone());
            proof {
                assert(views(r@) == before.push(self.configured_keys@[i as int]@));
                assert(views(self.configured_keys@).take(i as int + 1) == views(
                    self.configured_keys@,
                ).take(i as int).push(self.configured_keys@[i as int]@));
            }
            i += 1;
        }
        proof {
            assert(views(self.configured_keys@).take(self.configured_keys.len() as int) == views(
                self.configured_keys@,
            ));
        }
        r
    }

    /// Loads the outcome of the liveness probe. Credentials that passed go
    /// into rotation, in a random order, with fresh statistics; the others go
    /// onto the deny-list. With no results at all the pool is left as it is.
    pub fn initialize(&mut self, results: Vec<(String, bool)>, now: u64)
        ensures
            results@.len() == 0 ==> final(self)@ == old(self)@,
            results@.len() > 0 ==> final(self)@.rotation.to_multiset() == probed(
                results@,
                true,
            ).to_multiset(),
            results@.len() > 0 ==> final(self)@.stats == stats_after_probe(
                old(self)@.stats,
                probed(results@, true),
                now,
            ),
            results@.len() > 0 ==> final(self)@.invalid == old(self)@.invalid + probed(
                results@,
                false,
            ),
            final(self)@.daily_limit == old(self)@.daily_limit,
            final(self).configured() == old(self).configured(),
    {
        if results.len() == 0 {
            return ;
        }
        let ghost before = self@;
        let mut valid: VecDeque<String> = VecDeque::new();
        let mut i: usize = 0;
        proof {
            assert(results@.take(0) == Seq::<(String, bool)>::empty());
            assert(self@.stats =~= stats_after_probe(
                before.stats,
                probed(results@.take(0), true),
                now,
            ));
            assert(self@.invalid =~= before.invalid + probed(results@.take(0), false));
        }
        while i < results.len()
            invariant
                i <= results.len(),
                views(valid@) == probed(results@.take(i as int), true),
                key_stats_view(self.key_stats) == stats_after_probe(
                    before.stats,
                    probed(results@.take(i as int), true),
                    now,
                ),
                views(self.invalid_keys@) == before.invalid + probed(
                    results@.take(i as int),
                    false,
                ),
                self.daily_limit == before.daily_limit,
                self.configured_keys == old(self).configured_keys,
            decreases results.len() - i,
        {
            let ghost seen_ok = probed(results@.take(i as int), true);
            let ghost seen_bad = probed(results@.take(i as int), false);
            let ghost valid_before = views(valid@);
            let ghost invalid_before = views(self.invalid_keys@);
            let ghost stats_before = key_stats_view(self.key_stats);
            proof {
                assert(results@.take(i as int + 1).drop_last() == results@.take(i as int));
                assert(results@.take(i as int + 1).last() == results@[i as int]);
            }
            if results[i].1 {
                valid.push_back(results[i].0.clone());
                key_stats_insert(
                    &mut self.key_stats,
                    results[i].0.clone(),
                    ApiKeyStats { daily_usage: 0, last_used: now, consecutive_failures: 0 },
                );
                proof {
                    let k = results@[i as int].0@;
                    assert(views(valid@) == valid_before.push(k));
                    assert(probed(results@.take(i as int + 1), true) == seen_ok.push(k));
                    assert(probed(results@.take(i as int + 1), false) == seen_bad);
                    let target = stats_after_probe(before.stats, seen_ok.push(k), now);
                    let current = key_stats_view(self.key_stats);
                    assert(current == stats_before.insert(k, fresh_stats(now)));
                    assert(stats_before == stats_after_probe(before.stats, seen_ok, now));
                    assert forall|x: Seq<char>| current.contains_key(x) == target.contains_key(
                        x,
                    ) by {
                        lemma_push_contains(seen_ok, k, x);
                    }
                    assert forall|x: Seq<char>| current.contains_key(x) implies current[x]
                        == target[x] by {
                        lemma_push_contains(seen_ok, k, x);
                    }
                    assert(current =~= target);
                }
            } else {
                self.invalid_keys.push(results[i].0.clone());
                proof {
                    let k = results@[i as int].0@;
                    assert(views(self.invalid_keys@) == invalid_before.push(k));
                    assert(probed(results@.take(i as int + 1), false) == seen_bad.push(k));
                    assert(probed(results@.take(i as int + 1), true) == seen_ok);
                    assert(views(self.invalid_keys@) == before.invalid + seen_bad.push(k));
                }
            }
            i += 1;
        }
        proof {
            assert(results@.take(results.len() as int) == results@);
        }
        shuffle_keys(&mut valid);
        self.available_keys = valid;
    }

    /// Serves the next credential: the first one in rotation order that is
    /// under its daily quota, or, when every credential is over quota, the
    /// head of the rotation. Quota is a soft ceiling: the pool answers with no
    /// credential only when the rotation is empty.
    pub fn get_next_key(&mut self, now: u64) -> (r: Option<String>)
        ensures
            opt_view(r) == acquired_key(old(self)@),
            final(self)@ == after_acquire(old(self)@, now),
            final(self).configured() == old(self).configured(),
    {
        let ghost p = self@;
        let n = self.available_keys.len();
        let mut i: usize = 0;
        proof {
            assert(p.rotation.skip(0) + p.rotation.take(0) == p.rotation);
        }
        while i < n
            invariant
                i <= n,
                n == p.rotation.len(),
                p == old(self)@,
                views(self.available_keys@) == p.rotation.skip(i as int) + p.rotation.take(
                    i as int,
                ),
                key_stats_view(self.key_stats) == p.stats,
                self.daily_limit == p.daily_limit,
                views(self.invalid_keys@) == p.invalid,
                self.configured_keys == old(self).configured_keys,
                first_usable_from(p, 0) == first_usable_from(p, i as int),
            decreases n - i,
        {
            let ghost queue = views(self.available_keys@);
            match self.available_keys.pop_front() {
                None => {
                    return None;
                },
                Some(key) => {
                    proof {
                        assert(key@ == queue[0]);
                        assert(key@ == p.rotation[i as int]);
                        assert(views(self.available_keys@) == queue.skip(1));
                    }
                    let stats = key_stats_get(&self.key_stats, key.as_str());
                    let under_quota = match stats {
                        Some(s) => s.daily_usage < self.daily_limit,
                        None => true,
                    };
                    if under_quota {
                        if stats.is_none() {
                            key_stats_insert(
                                &mut self.key_stats,
                                key.clone(),
                                ApiKeyStats {
                                    daily_usage: 0,
                                    last_used: now,
                                    consecutive_failures: 0,
                                },
                            );
                        }
                        let out = key.clone();
                        self.available_keys.push_back(key);
                        proof {
                            assert(usable(p, p.rotation[i as int]));
                            assert(served_index(p) == i);
                            assert(views(self.available_keys@) == queue.skip(1).push(key@));
                            assert(views(self.available_keys@) == p.rotation.skip(i as int + 1)
                                + p.rotation.take(i as int + 1));
                            assert(self@ == after_acquire(p, now));
                        }
                        return Some(out);
                    } else {
                        self.available_keys.push_back(key);
                        proof {
                            assert(!usable(p, p.rotation[i as int]));
                            assert(views(self.available_keys@) == queue.skip(1).push(key@));
                            assert(views(self.available_keys@) == p.rotation.skip(i as int + 1)
                                + p.rotation.take(i as int + 1));
                        }
                    }
                },
            }
            i += 1;
        }
        proof {
            assert(p.rotation.skip(n as int) + p.rotation.take(n as int) == p.rotation);
            assert(first_usable_from(p, 0) == n);
        }
        let ghost queue = views(self.available_keys@);
        match self.available_keys.pop_front() {
            Some(key) => {
                let out = key.clone();
                self.available_keys.push_back(key);
                proof {
                    assert(served_index(p) == 0);
                    assert(key@ == p.rotation[0]);
                    assert(!usable(p, p.rotation[0]));
                    assert(views(self.available_keys@) == queue.skip(1).push(key@));
                    assert(views(self.available_keys@) == p.rotation.skip(1) + p.rotation.take(1));
                    assert(self@ == after_acquire(p, now));
                }
                Some(out)
            },
            None => None,
        }
    }

    /// Reports the outcome of one use of `key`.
    pub fn mark_key_used(&mut self, key: &str, success: bool, now: u64)
        ensures
            final(self)@ == after_release(old(self)@, key@, success, now),
            final(self).configured() == old(self).configured(),
    {
        match key_stats_get(&self.key_stats, key) {
            None => {},
            Some(s) => {
                if success {
                    let usage: u32 = if s.daily_usage < u32::MAX {
                        s.daily_usage + 1
                    } else {
                        s.daily_usage
                    };
                    key_stats_insert(
                        &mut self.key_stats,
                        key.to_string(),
                        ApiKeyStats { daily_usage: usage, last_used: now, consecutive_failures: 0 },
                    );
                } else {
                    let failures: u32 = if s.consecutive_failures < u32::MAX {
                        s.consecutive_failures + 1
                    } else {
                        s.consecutive_failures
                    };
                    key_stats_insert(
                        &mut self.key_stats,
                        key.to_string(),
                        ApiKeyStats {
                            daily_usage: s.daily_usage,
                            last_used: now,
                            consecutive_failures: failures,
                        },
                    );
                    if failures >= FAILURE_THRESHOLD {
                        self.mark_key_invalid(key);
                    }
                }
            },
        }
    }

    /// Takes `key` out of rotation for good: it leaves the rotation, loses
    /// its statistics and is put on the deny-list. A second call changes
    /// nothing.
    pub fn mark_key_invalid(&mut self, key: &str)
        ensures
            final(self)@ == after_invalidate(old(self)@, key@),
            final(self).configured() == old(self).configured(),
    {
        remove_from_rotation(&mut self.available_keys, key);
        if !crate::config::settings::list_contains(&self.invalid_keys, key) {
            let ghost before = views(self.invalid_keys@);
            self.invalid_keys.push(key.to_string());
            proof {
                assert(views(self.invalid_keys@) == before.push(key@));
            }
        }
        key_stats_remove(&mut self.key_stats, key);
    }

    /// Sets the usage of the day back to zero for every credential.
    pub fn reset_daily_usage(&mut self)
        ensures
            final(self)@ == after_reset(old(self)@),
            final(self).configured() == old(self).configured(),
    {
        let keys = key_stats_keys(&self.key_stats);
        let ghost start = key_stats_view(self.key_stats);
        let mut i: usize = 0;
        while i < keys.len()
            invariant
                i <= keys.len(),
                lists_domain(keys@, start),
                self.available_keys == old(self).available_keys,
                self.invalid_keys == old(self).invalid_keys,
                self.daily_limit == old(self).daily_limit,
                self.configured_keys == old(self).configured_keys,
                key_stats_view(self.key_stats).dom() == start.dom(),
                forall|k: Seq<char>| #[trigger]
                    start.contains_key(k) ==> key_stats_view(self.key_stats)[k] == (if views(
                        keys@,
                    ).take(i as int).contains(k) {
                        zeroed(start[k])
                    } else {
                        start[k]
                    }),
            decreases keys.len() - i,
        {
            let ghost done = views(keys@).take(i as int);
            let ghost current = key_stats_view(self.key_stats);
            let ghost ki = keys@[i as int]@;
            proof {
                assert(views(keys@)[i as int] == ki);
                assert(views(keys@).contains(ki));
                assert(start.contains_key(ki));
                assert(!done.contains(ki)) by {
                    if done.contains(ki) {
                        let j = choose|j: int| 0 <= j < done.len() && done[j] == ki;
                        assert(views(keys@)[j] == ki);
                    }
                }
                assert(views(keys@).take(i as int + 1) == done.push(ki));
                assert forall|x: Seq<char>| done.push(ki).contains(x) <==> (done.contains(x) || x
                    == ki) by {
                    lemma_push_contains(done, ki, x);
                }
            }
            match key_stats_get(&self.key_stats, keys[i].as_str()) {
                Some(s) => {
                    key_stats_insert(
                        &mut self.key_stats,
                        keys[i].clone(),
                        ApiKeyStats {
                            daily_usage: 0,
                            last_used: s.last_used,
                            consecutive_failures: s.consecutive_failures,
                        },
                    );
                    proof {
                        assert(key_stats_view(self.key_stats) == current.insert(
                            ki,
                            zeroed(start[ki]),
                        ));
                        assert(key_stats_view(self.key_stats).dom() =~= start.dom());
                    }
                },
                None => {},
            }
            i += 1;
        }
        proof {
            assert(views(keys@).take(keys.len() as int) == views(keys@));
            assert(key_stats_view(self.key_stats) =~= after_reset(old(self)@).stats);
        }
    }

    /// One tick of the periodic quota sweep: when some credential was last
    /// used on an earlier UTC day than `now`, every usage counter is set back
    /// to zero. Says whether it was.
    pub fn daily_cleanup_tick(&mut self, now: u64) -> (reset: bool)
        ensures
            reset == needs_reset(old(self)@, now),
            final(self)@ == (if reset {
                after_reset(old(self)@)
            } else {
                old(self)@
            }),
            final(self).configured() == old(self).configured(),
    {
        let keys = key_stats_keys(&self.key_stats);
        let today: u64 = now / MILLIS_PER_DAY;
        let mut stale = false;
        let mut i: usize = 0;
        while i < keys.len() && !stale
            invariant
                i <= keys.len(),
                today == day_of(now),
                lists_domain(keys@, key_stats_view(self.key_stats)),
                self@ == old(self)@,
                self.configured_keys == old(self).configured_keys,
                stale ==> needs_reset(self@, now),
                !stale ==> forall|j: int|
                    0 <= j < i ==> day_of(now) <= day_of(
                        key_stats_view(self.key_stats)[#[trigger] views(keys@)[j]].last_used,
                    ),
            decreases keys.len() - i + (if stale { 0int } else { 1int }),
        {
            proof {
                assert(views(keys@)[i as int] == keys@[i as int]@);
                assert(views(keys@).contains(keys@[i as int]@));
            }
            match key_stats_get(&self.key_stats, keys[i].as_str()) {
                Some(s) => {
                    if today > s.last_used / MILLIS_PER_DAY {
                        stale = true;
                        proof {
                            let k = keys@[i as int]@;
                            assert(self@.stats.contains_key(k) && day_of(now) > day_of(
                                self@.stats[k].last_used,
                            ));
                        }
                    }
                },
                None => {},
            }
            if !stale {
                i += 1;
            }
        }
        proof {
            if !stale {
                assert forall|k: Seq<char>| self@.stats.contains_key(k) implies day_of(now)
                    <= day_of(self@.stats[k].last_used) by {
                    assert(views(keys@).contains(k));
                    let j = choose|j: int| 0 <= j < views(keys@).len() && views(keys@)[j] == k;
                    assert(views(keys@)[j] == k);
                }
            }
        }
        if stale {
            self.reset_daily_usage();
        }
        stale
    }

    /// How many credentials are in rotation.
    pub fn available_keys_count(&self) -> (n: usize)
        ensures
            n == self@.rotation.len(),
    {
        self.available_keys.len()
    }

    /// The statistics of every credential that has any, in no particular
    /// order.
    pub fn get_key_stats(&self) -> (r: Vec<(String, ApiKeyStats)>)
        ensures
            lists_domain(r@.map_values(|e: (String, ApiKeyStats)| e.0), self@.stats),
            forall|i: int| 0 <= i < r@.len() ==> (#[trigger] r@[i]).1 == self@.stats[r@[i].0@],
    {
        let keys = key_stats_keys(&self.key_stats);
        let mut r: Vec<(String, ApiKeyStats)> = Vec::new();
        let mut i: usize = 0;
        while i < keys.len()
            invariant
                i <= keys.len(),
                lists_domain(keys@, key_stats_view(self.key_stats)),
                r@.len() == i,
                forall|j: int| 0 <= j < i ==> (#[trigger] r@[j]).0@ == keys@[j]@,
                forall|j: int|
                    0 <= j < i ==> (#[trigger] r@[j]).1 == key_stats_view(self.key_stats)[r@[j].0@],
            decreases keys.len() - i,
        {
            proof {
                assert(views(keys@)[i as int] == keys@[i as int]@);
                assert(views(keys@).contains(keys@[i as int]@));
            }
            match key_stats_get(&self.key_stats, keys[i].as_str()) {
                Some(s) => {
                    r.push((keys[i].clone(), s));
                },
                None => {},
            }
            i += 1;
        }
        proof {
            let firsts = r@.map_values(|e: (String, ApiKeyStats)| e.0);
            assert(views(firsts) =~= views(keys@));
        }
        r
    }

    /// Shuffles the rotation.
    pub fn reset_key_stack(&mut self)
        ensures
            final(self)@.rotation.to_multiset() == old(self)@.rotation.to_multiset(),
            final(self)@.stats == old(self)@.stats,
            final(self)@.invalid == old(self)@.invalid,
            final(self)@.daily_limit == old(self)@.daily_limit,
            final(self).configured() == old(self).configured(),
    {
        shuffle_keys(&mut self.available_keys);
    }
}

/// Where the scan for a usable credential ends: at the first usable position
/// at or after `i`, having passed only credentials that are over quota.
pub proof fn lemma_first_usable(p: PoolView, i: int)
    requires
        0 <= i <= p.rotation.len(),
    ensures
        i <= first_usable_from(p, i) <= p.rotation.len(),
        first_usable_from(p, i) < p.rotation.len() ==> usable(
            p,
            p.rotation[first_usable_from(p, i)],
        ),
        forall|j: int| i <= j < first_usable_from(p, i) ==> !usable(p, #[trigger] p.rotation[j]),
    decreases p.rotation.len() - i,
{
    if i < p.rotation.len() && !usable(p, p.rotation[i]) {
        lemma_first_usable(p, i + 1);
    }
}

/// Quota skip. A credential whose usage has reached the daily limit is not
/// served while some credential in rotation is still usable; the one served
/// is usable. After the daily reset the credential is usable again, provided
/// the limit is not zero.
pub proof fn lemma_quota_skip(p: PoolView, key: Seq<char>)
    requires
        p.stats.contains_key(key),
        p.stats[key].daily_usage >= p.daily_limit,
        exists|i: int| 0 <= i < p.rotation.len() && usable(p, p.rotation[i]),
    ensures
        acquired_key(p) is Some,
        acquired_key(p) != Some(key),
        usable(p, acquired_key(p)->0),
        p.daily_limit > 0 ==> usable(after_reset(p), key),
{
    lemma_first_usable(p, 0);
    let i = choose|i: int| 0 <= i < p.rotation.len() && usable(p, p.rotation[i]);
    assert(first_usable_from(p, 0) <= i);
}

/// Each successful use counts once against the daily quota, up to the
/// largest number that the counter holds.
pub proof fn lemma_success_counts(p: PoolView, key: Seq<char>, now: u64)
    requires
        p.stats.contains_key(key),
    ensures
        after_release(p, key, true, now).stats.contains_key(key),
        after_release(p, key, true, now).stats[key].daily_usage == saturating_inc(
            p.stats[key].daily_usage,
        ),
        after_release(p, key, true, now).stats[key].consecutive_failures == 0,
        after_release(p, key, true, now).rotation == p.rotation,
{
}

/// An invalidated credential is out of the rotation, has no statistics and is
/// on the deny-list.
pub proof fn lemma_invalidate_evicts(p: PoolView, key: Seq<char>)
    ensures
        !after_invalidate(p, key).rotation.contains(key),
        !after_invalidate(p, key).stats.contains_key(key),
        after_invalidate(p, key).invalid.contains(key),
{
    let keep = other_than(key);
    let kept = p.rotation.filter(keep);
    if kept.contains(key) {
        let j = choose|j: int| 0 <= j < kept.len() && kept[j] == key;
        p.rotation.lemma_filter_pred(keep, j);
    }
    if !p.invalid.contains(key) {
        lemma_push_contains(p.invalid, key, key);
    }
}

/// Invalidating a credential twice is the same as invalidating it once.
pub proof fn lemma_invalidate_idempotent(p: PoolView, key: Seq<char>)
    ensures
        after_invalidate(after_invalidate(p, key), key) == after_invalidate(p, key),
{
    let keep = other_than(key);
    let once = after_invalidate(p, key);
    lemma_invalidate_evicts(p, key);
    assert(once.rotation == p.rotation.filter(keep));
    assert forall|i: int| 0 <= i < once.rotation.len() implies keep(#[trigger] once.rotation[i]) by {
        p.rotation.lemma_filter_pred(keep, i);
    }
    lemma_filter_keeps_all(once.rotation, keep);
    assert(once.stats.remove(key) =~= once.stats);
    let twice = after_invalidate(once, key);
    assert(twice.rotation == once.rotation);
    assert(twice.invalid == once.invalid);
    assert(twice =~= once);
}

/// A credential that is not in rotation is not served, and serving another
/// does not bring it back.
pub proof fn lemma_absent_is_not_served(p: PoolView, key: Seq<char>, now: u64)
    requires
        !p.rotation.contains(key),
    ensures
        acquired_key(p) != Some(key),
        !after_acquire(p, now).rotation.contains(key),
{
    if p.rotation.len() > 0 {
        lemma_first_usable(p, 0);
        let i = served_index(p);
        assert(p.rotation.contains(p.rotation[i]));
        let next = after_acquire(p, now).rotation;
        if next.contains(key) {
            let j = choose|j: int| 0 <= j < next.len() && next[j] == key;
            if j < p.rotation.len() - (i + 1) {
                assert(p.rotation[j + i + 1] == key);
            } else {
                assert(p.rotation[j - (p.rotation.len() - (i + 1))] == key);
            }
        }
    }
}

/// Reporting outcomes, invalidating credentials and the daily reset never
/// put a credential into rotation.
pub proof fn lemma_absent_stays_absent(
    p: PoolView,
    key: Seq<char>,
    other: Seq<char>,
    success: bool,
    now: u64,
)
    requires
        !p.rotation.contains(key),
    ensures
        !after_release(p, other, success, now).rotation.contains(key),
        !after_invalidate(p, other).rotation.contains(key),
        !after_reset(p).rotation.contains(key),
{
    let keep = other_than(other);
    if p.rotation.filter(keep).contains(key) {
        p.rotation.lemma_filter_contains_rev(keep, key);
    }
    assert(after_invalidate(p, other).rotation == p.rotation.filter(keep));
    if p.stats.contains_key(other) {
        let s = stats_after_use(p.stats[other], success, now);
        let q = PoolView {
            rotation: p.rotation,
            stats: p.stats.insert(other, s),
            invalid: p.invalid,
            daily_limit: p.daily_limit,
        };
        assert(after_invalidate(q, other).rotation == p.rotation.filter(keep));
    }
}

/// One failure either leaves the credential with a longer run of failures,
/// or evicts it.
proof fn lemma_failure_step(p: PoolView, key: Seq<char>, now: u64)
    requires
        p.stats.contains_key(key),
    ensures
        ({
            let q = after_release(p, key, false, now);
            if saturating_inc(p.stats[key].consecutive_failures) >= FAILURE_THRESHOLD {
                !q.rotation.contains(key) && !q.stats.contains_key(key) && q.invalid.contains(key)
            } else {
                q.stats.contains_key(key) && q.stats[key].consecutive_failures
                    == p.stats[key].consecutive_failures + 1
            }
        }),
{
    let s = stats_after_use(p.stats[key], false, now);
    let q = PoolView {
        rotation: p.rotation,
        stats: p.stats.insert(key, s),
        invalid: p.invalid,
        daily_limit: p.daily_limit,
    };
    lemma_invalidate_evicts(q, key);
}

/// Failure eviction. After five failures in a row a credential that had
/// statistics is out of the rotation, has no statistics and is on the
/// deny-list. By [`lemma_absent_is_not_served`] and
/// [`lemma_absent_stays_absent`] it is not served again until a probe loads
/// it anew.
pub proof fn lemma_failure_eviction(
    p: PoolView,
    key: Seq<char>,
    t1: u64,
    t2: u64,
    t3: u64,
    t4: u64,
    t5: u64,
)
    requires
        p.stats.contains_key(key),
    ensures
        ({
            let q = after_release(
                after_release(
                    after_release(
                        after_release(after_release(p, key, false, t1), key, false, t2),
                        key,
                        false,
                        t3,
                    ),
                    key,
                    false,
                    t4,
                ),
                key,
                false,
                t5,
            );
            !q.rotation.contains(key) && !q.stats.contains_key(key) && q.invalid.contains(key)
        }),
{
    let once = after_release(p, key, false, t1);
    lemma_failure_step(p, key, t1);
    let twice = after_release(once, key, false, t2);
    if once.stats.contains_key(key) {
        lemma_failure_step(once, key, t2);
    }
    let thrice = after_release(twice, key, false, t3);
    if twice.stats.contains_key(key) {
        lemma_failure_step(twice, key, t3);
    }
    let fourth = after_release(thrice, key, false, t4);
    if thrice.stats.contains_key(key) {
        lemma_failure_step(thrice, key, t4);
    }
    if fourth.stats.contains_key(key) {
        lemma_failure_step(fourth, key, t5);
    }
}

} // verus!
