//! Traffic accounting: a log of upstream attempts with rolling aggregates.
//!
//! The accountant is an owned object, modelled by [`AccountantView`]. Time is
//! passed in, as milliseconds since the epoch. Averages and rates are left to
//! the reader of the counters: the aggregates hold sums and counts.

use crate::models::schemas::{duplicate_opt, opt_view};
use crate::utils::keyed::{
    lists_domain, model_map_clear, model_map_get, model_map_insert, model_map_keys,
    model_map_new, model_map_view,
};
use crate::utils::text::{str_eq, views};
use dashmap::DashMap;
use std::hash::RandomState;
use vstd::prelude::*;

verus! {

/// How long a record is retained, in milliseconds: seven days.
pub const RETENTION_MS: u64 = 604_800_000;

/// Window lengths of the rolling counts, in milliseconds.
pub const MINUTE_MS: u64 = 60_000;

pub const HOUR_MS: u64 = 3_600_000;

pub const DAY_MS: u64 = 86_400_000;

/// One upstream attempt.
#[derive(Debug, Clone)]
pub struct ApiCallRecord {
    pub timestamp: u64,
    pub model: String,
    pub tokens_used: u32,
    pub success: bool,
    pub response_time_ms: u64,
    pub ip_address: Option<String>,
}

pub struct RecordView {
    pub timestamp: u64,
    pub model: Seq<char>,
    pub tokens_used: u32,
    pub success: bool,
    pub response_time_ms: u64,
    pub ip_address: Option<Seq<char>>,
}

impl View for ApiCallRecord {
    type V = RecordView;

    open spec fn view(&self) -> RecordView {
        RecordView {
            timestamp: self.timestamp,
            model: self.model@,
            tokens_used: self.tokens_used,
            success: self.success,
            response_time_ms: self.response_time_ms,
            ip_address: opt_view(self.ip_address),
        }
    }
}

impl ApiCallRecord {
    /// A copy with the same contents.
    pub fn duplicate(&self) -> (r: Self)
        ensures
            r@ == self@,
    {
        ApiCallRecord {
            timestamp: self.timestamp,
            model: self.model.clone(),
            tokens_used: self.tokens_used,
            success: self.success,
            response_time_ms: self.response_time_ms,
            ip_address: duplicate_opt(&self.ip_address),
        }
    }
}

/// The views of a list of records.
pub open spec fn record_views(v: Seq<ApiCallRecord>) -> Seq<RecordView> {
    v.map_values(|r: ApiCallRecord| r@)
}

/// The rolling aggregates. Every count and sum is held at the largest value
/// of its type.
#[derive(Debug, Clone, Copy, PartialEq, Eq, Structural)]
pub struct ApiStats {
    pub total_requests: u64,
    pub successful_requests: u64,
    pub failed_requests: u64,
    pub total_tokens: u64,
    pub requests_last_minute: u32,
    pub requests_last_hour: u32,
    pub requests_last_day: u32,
    pub total_response_time_ms: u64,
}

impl Default for ApiStats {
    /// The aggregates of no traffic at all.
    fn default() -> (stats: Self)
        ensures
            stats == (ApiStats {
                total_requests: 0,
                successful_requests: 0,
                failed_requests: 0,
                total_tokens: 0,
                requests_last_minute: 0,
                requests_last_hour: 0,
                requests_last_day: 0,
                total_response_time_ms: 0,
            }),
    {
        ApiStats {
            total_requests: 0,
            successful_requests: 0,
            failed_requests: 0,
            total_tokens: 0,
            requests_last_minute: 0,
            requests_last_hour: 0,
            requests_last_day: 0,
            total_response_time_ms: 0,
        }
    }
}

/// Counters of one model.
#[derive(Debug, Clone, Copy, PartialEq, Eq, Structural)]
pub struct ModelCounters {
    pub request_count: u64,
    pub token_count: u64,
    pub successful_requests: u64,
    pub total_response_time_ms: u64,
}

/// Counters of one model, with its name.
#[derive(Debug, Clone)]
pub struct ModelStats {
    pub model_name: String,
    pub request_count: u64,
    pub token_count: u64,
    pub successful_requests: u64,
    pub total_response_time_ms: u64,
}

/// A number as a 64-bit count, held at the largest value.
pub open spec fn clamp_u64(n: nat) -> u64 {
    if n > u64::MAX {
        u64::MAX
    } else {
        n as u64
    }
}

/// A number as a 32-bit count, held at the largest value.
pub open spec fn clamp_u32(n: nat) -> u32 {
    if n > u32::MAX {
        u32::MAX
    } else {
        n as u32
    }
}

/// How many of `records` pass `pred`.
pub open spec fn count_of(records: Seq<RecordView>, pred: spec_fn(RecordView) -> bool) -> nat
    decreases records.len(),
{
    if records.len() == 0 {
        0
    } else {
        count_of(records.drop_last(), pred) + (if pred(records.last()) {
            1nat
        } else {
            0nat
        })
    }
}

/// The sum of `f` over `records`.
pub open spec fn sum_of(records: Seq<RecordView>, f: spec_fn(RecordView) -> nat) -> nat
    decreases records.len(),
{
    if records.len() == 0 {
        0
    } else {
        sum_of(records.drop_last(), f) + f(records.last())
    }
}

/// The test that a successful attempt passes.
pub open spec fn succeeded() -> spec_fn(RecordView) -> bool {
    |r: RecordView| r.success
}

/// The test that a failed attempt passes.
pub open spec fn failed() -> spec_fn(RecordView) -> bool {
    |r: RecordView| !r.success
}

/// The test that any attempt passes.
pub open spec fn any() -> spec_fn(RecordView) -> bool {
    |r: RecordView| true
}

/// The test that an attempt passes when it lies less than `window` before
/// `now`.
pub open spec fn newer_than(now: u64, window: u64) -> spec_fn(RecordView) -> bool {
    |r: RecordView| r.timestamp + window > now
}

/// The test that an attempt passes when it came from `ip` less than `window`
/// before `now`.
pub open spec fn from_ip_within(ip: Seq<char>, now: u64, window: u64) -> spec_fn(
    RecordView,
) -> bool {
    |r: RecordView| r.timestamp + window > now && r.ip_address == Some(ip)
}

/// The tokens of an attempt.
pub open spec fn tokens() -> spec_fn(RecordView) -> nat {
    |r: RecordView| r.tokens_used as nat
}

/// The latency of an attempt.
pub open spec fn latency() -> spec_fn(RecordView) -> nat {
    |r: RecordView| r.response_time_ms as nat
}

/// The aggregates of `records` as seen at `now`.
pub open spec fn aggregate(records: Seq<RecordView>, now: u64) -> ApiStats {
    ApiStats {
        total_requests: clamp_u64(count_of(records, any())),
        successful_requests: clamp_u64(count_of(records, succeeded())),
        failed_requests: clamp_u64(count_of(records, failed())),
        total_tokens: clamp_u64(sum_of(records, tokens())),
        requests_last_minute: clamp_u32(count_of(records, newer_than(now, MINUTE_MS))),
        requests_last_hour: clamp_u32(count_of(records, newer_than(now, HOUR_MS))),
        requests_last_day: clamp_u32(count_of(records, newer_than(now, DAY_MS))),
        total_response_time_ms: clamp_u64(sum_of(records, latency())),
    }
}

/// `a + b`, held at the largest value.
pub open spec fn sat_add(a: u64, b: u64) -> u64 {
    clamp_u64((a + b) as nat)
}

/// `a + 1`, held at the largest value.
pub open spec fn sat_inc(a: u32) -> u32 {
    clamp_u32((a + 1) as nat)
}

fn add_sat(a: u64, b: u64) -> (r: u64)
    ensures
        r == sat_add(a, b),
{
    if a > u64::MAX - b {
        u64::MAX
    } else {
        a + b
    }
}

fn inc_sat(a: u32) -> (r: u32)
    ensures
        r == sat_inc(a),
{
    if a == u32::MAX {
        u32::MAX
    } else {
        a + 1
    }
}

/// The aggregates with one more attempt counted in.
pub open spec fn absorb(s: ApiStats, r: RecordView, now: u64) -> ApiStats {
    ApiStats {
        total_requests: sat_add(s.total_requests, 1),
        successful_requests: if r.success {
            sat_add(s.successful_requests, 1)
        } else {
            s.successful_requests
        },
        failed_requests: if r.success {
            s.failed_requests
        } else {
            sat_add(s.failed_requests, 1)
        },
        total_tokens: sat_add(s.total_tokens, r.tokens_used as u64),
        requests_last_minute: if r.timestamp + MINUTE_MS > now {
            sat_inc(s.requests_last_minute)
        } else {
            s.requests_last_minute
        },
        requests_last_hour: if r.timestamp + HOUR_MS > now {
            sat_inc(s.requests_last_hour)
        } else {
            s.requests_last_hour
        },
        requests_last_day: if r.timestamp + DAY_MS > now {
            sat_inc(s.requests_last_day)
        } else {
            s.requests_last_day
        },
        total_response_time_ms: sat_add(s.total_response_time_ms, r.response_time_ms),
    }
}

/// The aggregates of a log with one more record are those of the log with
/// the record counted in.
pub proof fn lemma_aggregate_push(records: Seq<RecordView>, r: RecordView, now: u64)
    ensures
        aggregate(records.push(r), now) == absorb(aggregate(records, now), r, now),
{
    let more = records.push(r);
    assert(more.drop_last() == records);
    assert(more.last() == r);
}

/// The counters of a model that has not been called.
pub open spec fn no_calls() -> ModelCounters {
    ModelCounters {
        request_count: 0,
        token_count: 0,
        successful_requests: 0,
        total_response_time_ms: 0,
    }
}

/// The counters of a model with one more attempt counted in.
pub open spec fn bumped(c: ModelCounters, tokens: u32, success: bool, latency: u64) -> ModelCounters {
    ModelCounters {
        request_count: sat_add(c.request_count, 1),
        token_count: sat_add(c.token_count, tokens as u64),
        successful_requests: if success {
            sat_add(c.successful_requests, 1)
        } else {
            c.successful_requests
        },
        total_response_time_ms: sat_add(c.total_response_time_ms, latency),
    }
}

/// The records that lie less than `window` before `now`, in order.
pub open spec fn kept_within(records: Seq<RecordView>, now: u64, window: u64) -> Seq<RecordView> {
    records.filter(newer_than(now, window))
}

/// The records that are younger at `now` than the retention horizon.
pub open spec fn retained(records: Seq<RecordView>, now: u64) -> Seq<RecordView> {
    kept_within(records, now, RETENTION_MS)
}

/// The model of an accountant.
#[verifier::ext_equal]
pub struct AccountantView {
    /// The retained attempts, oldest first.
    pub records: Seq<RecordView>,
    /// Counters per model, over everything ever recorded.
    pub models: Map<Seq<char>, ModelCounters>,
    /// The aggregates as of the last refresh.
    pub cached: ApiStats,
    /// When old records were last swept.
    pub last_cleanup: u64,
}

/// The counters kept for a model; those of an uncalled model if there are
/// none.
pub open spec fn counters_of(a: AccountantView, model: Seq<char>) -> ModelCounters {
    if a.models.contains_key(model) {
        a.models[model]
    } else {
        no_calls()
    }
}

/// The accountant after `record` is appended at `now`: records past the
/// retention horizon are pruned, the model's counters are bumped and the
/// aggregates are recomputed.
pub open spec fn after_record(a: AccountantView, record: RecordView, now: u64) -> AccountantView {
    let records = retained(a.records.push(record), now);
    AccountantView {
        records,
        models: a.models.insert(
            record.model,
            bumped(
                counters_of(a, record.model),
                record.tokens_used,
                record.success,
                record.response_time_ms,
            ),
        ),
        cached: aggregate(records, now),
        last_cleanup: a.last_cleanup,
    }
}

/// The accountant after old records are swept at `now`. The aggregates are
/// refreshed only if a record was dropped.
pub open spec fn after_cleanup(a: AccountantView, now: u64) -> AccountantView {
    let records = retained(a.records, now);
    AccountantView {
        records,
        models: a.models,
        cached: if records.len() != a.records.len() {
            aggregate(records, now)
        } else {
            a.cached
        },
        last_cleanup: a.last_cleanup,
    }
}

/// Whether the periodic sweep is due at `now`: more than an hour after the
/// last one.
pub open spec fn cleanup_due(a: AccountantView, now: u64) -> bool {
    now >= a.last_cleanup && now - a.last_cleanup > HOUR_MS
}

/// The latest `limit` records, newest first.
pub open spec fn latest(records: Seq<RecordView>, limit: usize) -> Seq<RecordView> {
    Seq::new(
        if limit < records.len() {
            limit as nat
        } else {
            records.len()
        },
        |i: int| records[records.len() - 1 - i],
    )
}

/// The items of `v` in reverse order.
fn reversed(v: Vec<ApiCallRecord>) -> (r: Vec<ApiCallRecord>)
    ensures
        r@ == v@.reverse(),
{
    let mut v = v;
    let ghost orig = v@;
    let mut r: Vec<ApiCallRecord> = Vec::new();
    let n = v.len();
    let mut i: usize = 0;
    while i < n
        invariant
            i <= n,
            n == orig.len(),
            v@ == orig.take(n - i),
            r@.len() == i,
            forall|j: int| 0 <= j < i ==> r@[j] == orig[n - 1 - j],
        decreases n - i,
    {
        match v.pop() {
            Some(x) => {
                r.push(x);
            },
            None => {},
        }
        i += 1;
    }
    proof {
        assert(r@ =~= orig.reverse());
    }
    r
}

/// The records of `records` that lie less than `window` before `now`, in
/// order.
fn retain_records(records: Vec<ApiCallRecord>, now: u64, window: u64) -> (r: Vec<ApiCallRecord>)
    ensures
        record_views(r@) == kept_within(record_views(records@), now, window),
        r@.len() <= records@.len(),
{
    let ghost orig = record_views(records@);
    let ghost keep = newer_than(now, window);
    let ghost items = records@;
    let mut rev = reversed(records);
    let mut r: Vec<ApiCallRecord> = Vec::new();
    let n = rev.len();
    let mut i: usize = 0;
    proof {
        reveal(Seq::filter);
        assert(orig.take(0) == Seq::<RecordView>::empty());
        assert(rev@.take(n as int) == rev@);
    }
    while i < n
        invariant
            i <= n,
            n == items.len(),
            orig == record_views(items),
            keep == newer_than(now, window),
            r@.len() <= i,
            rev@ == items.reverse().take(n - i),
            record_views(r@) == orig.take(i as int).filter(keep),
        decreases n - i,
    {
        let ghost before = record_views(r@);
        proof {
            reveal(Seq::filter);
            assert(orig.take(i as int + 1).drop_last() == orig.take(i as int));
            assert(orig.take(i as int + 1).last() == orig[i as int]);
        }
        match rev.pop() {
            Some(x) => {
                proof {
                    assert(x == items.reverse()[n - i - 1]);
                    assert(x == items[i as int]);
                    assert(x@ == orig[i as int]);
                    assert(rev@ == items.reverse().take(n - i - 1));
                }
                if x.timestamp as u128 + window as u128 > now as u128 {
                    r.push(x);
                    proof {
                        assert(record_views(r@) == before.push(x@));
                    }
                }
            },
            None => {},
        }
        i += 1;
    }
    proof {
        assert(orig.take(n as int) == orig);
    }
    r
}

/// The aggregates with `record` counted in.
fn absorb_record(s: ApiStats, record: &ApiCallRecord, now: u64) -> (r: ApiStats)
    ensures
        r == absorb(s, record@, now),
{
    let t = record.timestamp;
    ApiStats {
        total_requests: add_sat(s.total_requests, 1),
        successful_requests: if record.success {
            add_sat(s.successful_requests, 1)
        } else {
            s.successful_requests
        },
        failed_requests: if record.success {
            s.failed_requests
        } else {
            add_sat(s.failed_requests, 1)
        },
        total_tokens: add_sat(s.total_tokens, record.tokens_used as u64),
        requests_last_minute: if t as u128 + MINUTE_MS as u128 > now as u128 {
            inc_sat(s.requests_last_minute)
        } else {
            s.requests_last_minute
        },
        requests_last_hour: if t as u128 + HOUR_MS as u128 > now as u128 {
            inc_sat(s.requests_last_hour)
        } else {
            s.requests_last_hour
        },
        requests_last_day: if t as u128 + DAY_MS as u128 > now as u128 {
            inc_sat(s.requests_last_day)
        } else {
            s.requests_last_day
        },
        total_response_time_ms: add_sat(s.total_response_time_ms, record.response_time_ms),
    }
}

/// The aggregates of `records` as seen at `now`.
fn aggregate_records(records: &Vec<ApiCallRecord>, now: u64) -> (s: ApiStats)
    ensures
        s == aggregate(record_views(records@), now),
{
    let mut s = ApiStats {
        total_requests: 0,
        successful_requests: 0,
        failed_requests: 0,
        total_tokens: 0,
        requests_last_minute: 0,
        requests_last_hour: 0,
        requests_last_day: 0,
        total_response_time_ms: 0,
    };
    let ghost all = record_views(records@);
    let mut i: usize = 0;
    proof {
        assert(all.take(0) == Seq::<RecordView>::empty());
    }
    while i < records.len()
        invariant
            i <= records.len(),
            all == record_views(records@),
            s == aggregate(all.take(i as int), now),
        decreases records.len() - i,
    {
        proof {
            lemma_aggregate_push(all.take(i as int), all[i as int], now);
            assert(all.take(i as int).push(all[i as int]) == all.take(i as int + 1));
        }
        s = absorb_record(s, &records[i], now);
        i += 1;
    }
    proof {
        assert(all.take(records.len() as int) == all);
    }
    s
}

/// The traffic accountant.
pub struct ApiStatsManager {
    call_records: Vec<ApiCallRecord>,
    model_stats: DashMap<String, ModelCounters, RandomState>,
    cached_stats: ApiStats,
    last_cleanup: u64,
}

impl View for ApiStatsManager {
    type V = AccountantView;

    closed spec fn view(&self) -> AccountantView {
        AccountantView {
            records: record_views(self.call_records@),
            models: model_map_view(self.model_stats),
            cached: self.cached_stats,
            last_cleanup: self.last_cleanup,
        }
    }
}

impl ApiStatsManager {
    /// An accountant that has recorded nothing, created at `now`.
    pub fn new(now: u64) -> (accountant: Self)
        ensures
            accountant@.records.len() == 0,
            accountant@.models == (Map::<Seq<char>, ModelCounters>::empty()),
            accountant@.cached == aggregate(Seq::<RecordView>::empty(), now),
            accountant@.last_cleanup == now,
    {
        let records: Vec<ApiCallRecord> = Vec::new();
        let cached = aggregate_records(&records, now);
        proof {
            assert(record_views(records@) == Seq::<RecordView>::empty());
        }
        ApiStatsManager {
            call_records: records,
            model_stats: model_map_new(),
            cached_stats: cached,
            last_cleanup: now,
        }
    }

    /// Records the outcome of one upstream attempt made at `now`.
    pub fn record_api_call(
        &mut self,
        model: String,
        tokens_used: u32,
        success: bool,
        response_time_ms: u64,
        ip_address: Option<String>,
        now: u64,
    )
        ensures
            final(self)@ == after_record(
                old(self)@,
                (RecordView {
                    timestamp: now,
                    model: model@,
                    tokens_used,
                    success,
                    response_time_ms,
                    ip_address: opt_view(ip_address),
                }),
                now,
            ),
    {
        let ghost start = self@;
        let name = model.clone();
        let record = ApiCallRecord {
            timestamp: now,
            model,
            tokens_used,
            success,
            response_time_ms,
            ip_address,
        };
        let ghost grown = record_views(self.call_records@).push(record@);
        let mut records: Vec<ApiCallRecord> = Vec::new();
        std::mem::swap(&mut records, &mut self.call_records);
        records.push(record);
        proof {
            assert(record_views(records@) == grown);
        }
        self.call_records = retain_records(records, now, RETENTION_MS);
        self.update_model_stats(name.as_str(), tokens_used, success, response_time_ms);
        self.update_cached_stats(now);
        proof {
            assert(self@.models =~= after_record(
                start,
                (RecordView {
                    timestamp: now,
                    model: name@,
                    tokens_used,
                    success,
                    response_time_ms,
                    ip_address: opt_view(ip_address),
                }),
                now,
            ).models);
        }
    }

    /// Counts one attempt against the counters of `model`.
    pub fn update_model_stats(&mut self, model: &str, tokens: u32, success: bool, response_time: u64)
        ensures
            final(self)@.models == old(self)@.models.insert(
                model@,
                bumped(counters_of(old(self)@, model@), tokens, success, response_time),
            ),
            final(self)@.records == old(self)@.records,
            final(self)@.cached == old(self)@.cached,
            final(self)@.last_cleanup == old(self)@.last_cleanup,
    {
        let c = match model_map_get(&self.model_stats, model) {
            Some(c) => c,
            None => ModelCounters {
                request_count: 0,
                token_count: 0,
                successful_requests: 0,
                total_response_time_ms: 0,
            },
        };
        let next = ModelCounters {
            request_count: add_sat(c.request_count, 1),
            token_count: add_sat(c.token_count, tokens as u64),
            successful_requests: if success {
                add_sat(c.successful_requests, 1)
            } else {
                c.successful_requests
            },
            total_response_time_ms: add_sat(c.total_response_time_ms, response_time),
        };
        model_map_insert(&mut self.model_stats, model.to_string(), next);
    }

    /// Recomputes the aggregates from the retained records, as seen at `now`.
    pub fn update_cached_stats(&mut self, now: u64)
        ensures
            final(self)@.cached == aggregate(old(self)@.records, now),
            final(self)@.records == old(self)@.records,
            final(self)@.models == old(self)@.models,
            final(self)@.last_cleanup == old(self)@.last_cleanup,
    {
        self.cached_stats = aggregate_records(&self.call_records, now);
    }

    /// The aggregates as of the last refresh. Nothing is recomputed.
    pub fn get_stats(&self) -> (s: ApiStats)
        ensures
            s == self@.cached,
    {
        self.cached_stats
    }

    /// The counters of every model that was called, in no particular order.
    pub fn get_model_stats(&self) -> (r: Vec<ModelStats>)
        ensures
            lists_domain(r@.map_values(|m: ModelStats| m.model_name), self@.models),
            forall|i: int|
                0 <= i < r@.len() ==> counters_in(#[trigger] r@[i]) == self@.models[r@[i].model_name@],
    {
        let keys = model_map_keys(&self.model_stats);
        let mut r: Vec<ModelStats> = Vec::new();
        let mut i: usize = 0;
        while i < keys.len()
            invariant
                i <= keys.len(),
                lists_domain(keys@, model_map_view(self.model_stats)),
                r@.len() == i,
                forall|j: int| 0 <= j < i ==> (#[trigger] r@[j]).model_name@ == keys@[j]@,
                forall|j: int|
                    0 <= j < i ==> counters_in(#[trigger] r@[j]) == model_map_view(
                        self.model_stats,
                    )[r@[j].model_name@],
            decreases keys.len() - i,
        {
            proof {
                assert(views(keys@)[i as int] == keys@[i as int]@);
                assert(views(keys@).contains(keys@[i as int]@));
            }
            match model_map_get(&self.model_stats, keys[i].as_str()) {
                Some(c) => {
                    r.push(
                        ModelStats {
                            model_name: keys[i].clone(),
                            request_count: c.request_count,
                            token_count: c.token_count,
                            successful_requests: c.successful_requests,
                            total_response_time_ms: c.total_response_time_ms,
                        },
                    );
                },
                None => {},
            }
            i += 1;
        }
        proof {
            let names = r@.map_values(|m: ModelStats| m.model_name);
            assert(views(names) =~= views(keys@));
        }
        r
    }

    /// The latest `limit` records, newest first.
    pub fn get_recent_calls(&self, limit: usize) -> (r: Vec<ApiCallRecord>)
        ensures
            record_views(r@) == latest(self@.records, limit),
    {
        let n = self.call_records.len();
        let count: usize = if limit < n {
            limit
        } else {
            n
        };
        let mut r: Vec<ApiCallRecord> = Vec::new();
        let mut i: usize = 0;
        while i < count
            invariant
                i <= count <= n,
                n == self.call_records.len(),
                r@.len() == i,
                forall|j: int| 0 <= j < i ==> (#[trigger] r@[j])@ == self.call_records@[n - 1 - j]@,
            decreases count - i,
        {
            r.push(self.call_records[n - 1 - i].duplicate());
            i += 1;
        }
        proof {
            assert(record_views(r@) =~= latest(self@.records, limit));
        }
        r
    }

    /// Forgets every record and every counter.
    pub fn clear_stats(&mut self, now: u64)
        ensures
            final(self)@.records.len() == 0,
            final(self)@.models == (Map::<Seq<char>, ModelCounters>::empty()),
            final(self)@.cached == aggregate(Seq::<RecordView>::empty(), now),
            final(self)@.last_cleanup == old(self)@.last_cleanup,
    {
        self.call_records = Vec::new();
        model_map_clear(&mut self.model_stats);
        proof {
            assert(record_views(self.call_records@) == Seq::<RecordView>::empty());
        }
        self.cached_stats = aggregate_records(&self.call_records, now);
    }

    /// How many retained attempts came from `ip` in the day before `now`.
    pub fn get_requests_for_ip_last_day(&self, ip: &str, now: u64) -> (n: u32)
        ensures
            n == clamp_u32(count_of(self@.records, from_ip_within(ip@, now, DAY_MS))),
    {
        let ghost all = record_views(self.call_records@);
        let ghost pred = from_ip_within(ip@, now, DAY_MS);
        let mut n: u32 = 0;
        let mut i: usize = 0;
        proof {
            assert(all.take(0) == Seq::<RecordView>::empty());
        }
        while i < self.call_records.len()
            invariant
                i <= self.call_records.len(),
                all == record_views(self.call_records@),
                pred == from_ip_within(ip@, now, DAY_MS),
                n == clamp_u32(count_of(all.take(i as int), pred)),
            decreases self.call_records.len() - i,
        {
            proof {
                assert(all.take(i as int + 1).drop_last() == all.take(i as int));
                assert(all.take(i as int + 1).last() == all[i as int]);
            }
            let record = &self.call_records[i];
            if record.timestamp as u128 + DAY_MS as u128 > now as u128 {
                match &record.ip_address {
                    Some(addr) => {
                        if str_eq(addr.as_str(), ip) {
                            n = inc_sat(n);
                        }
                    },
                    None => {},
                }
            }
            i += 1;
        }
        proof {
            assert(all.take(self.call_records.len() as int) == all);
        }
        n
    }

    /// The client addresses with retained attempts in the day before `now`,
    /// each once, with how many attempts it made in that day.
    pub fn get_requests_per_ip_last_day(&self, now: u64) -> (r: Vec<(String, u32)>)
        ensures
            addresses(r@).no_duplicates(),
            forall|j: int|
                0 <= j < r@.len() ==> (#[trigger] r@[j]).1 == clamp_u32(
                    count_of(self@.records, from_ip_within(r@[j].0@, now, DAY_MS)),
                ),
            forall|ip: Seq<char>|
                addresses(r@).contains(ip) <==> exists|k: int|
                    0 <= k < self@.records.len() && active_from(
                        #[trigger] self@.records[k],
                        ip,
                        now,
                    ),
    {
        let ghost all = record_views(self.call_records@);
        let mut out: Vec<(String, u32)> = Vec::new();
        let mut i: usize = 0;
        while i < self.call_records.len()
            invariant
                i <= self.call_records.len(),
                all == record_views(self.call_records@),
                all == self@.records,
                addresses(out@).no_duplicates(),
                forall|j: int|
                    0 <= j < out@.len() ==> (#[trigger] out@[j]).1 == clamp_u32(
                        count_of(all, from_ip_within(out@[j].0@, now, DAY_MS)),
                    ),
                forall|ip: Seq<char>|
                    addresses(out@).contains(ip) <==> exists|k: int|
                        0 <= k < i && active_from(#[trigger] all[k], ip, now),
            decreases self.call_records.len() - i,
        {
            let record = &self.call_records[i];
            let ghost listed = addresses(out@);
            proof {
                assert(all[i as int] == record@);
            }
            let mut added = false;
            if record.timestamp as u128 + DAY_MS as u128 > now as u128 {
                match &record.ip_address {
                    Some(ip) => {
                        if !address_listed(&out, ip.as_str()) {
                            let count = self.get_requests_for_ip_last_day(ip.as_str(), now);
                            out.push((ip.clone(), count));
                            added = true;
                            proof {
                                assert(addresses(out@) == listed.push(ip@));
                                assert forall|a: int, b: int|
                                    0 <= a < addresses(out@).len() && 0 <= b < addresses(
                                        out@,
                                    ).len() && a != b implies addresses(out@)[a] != addresses(
                                    out@,
                                )[b] by {
                                    if a == listed.len() {
                                        assert(listed[b] == addresses(out@)[b]);
                                        assert(listed.contains(listed[b]));
                                    } else if b == listed.len() {
                                        assert(listed[a] == addresses(out@)[a]);
                                        assert(listed.contains(listed[a]));
                                    } else {
                                        assert(listed[a] == addresses(out@)[a]);
                                        assert(listed[b] == addresses(out@)[b]);
                                    }
                                }
                            }
                        }
                    },
                    None => {},
                }
            }
            proof {
                assert forall|ip: Seq<char>|
                    addresses(out@).contains(ip) <==> exists|k: int|
                        0 <= k < i + 1 && active_from(#[trigger] all[k], ip, now) by {
                    if added {
                        crate::utils::text::lemma_push_contains(
                            listed,
                            record.ip_address->0@,
                            ip,
                        );
                    }
                    if addresses(out@).contains(ip) {
                        if listed.contains(ip) {
                            let k = choose|k: int| 0 <= k < i && active_from(#[trigger] all[k], ip, now);
                            assert(0 <= k < i + 1 && active_from(all[k], ip, now));
                        } else {
                            assert(active_from(all[i as int], ip, now));
                        }
                    }
                    if exists|k: int| 0 <= k < i + 1 && active_from(#[trigger] all[k], ip, now) {
                        let k = choose|k: int|
                            0 <= k < i + 1 && active_from(#[trigger] all[k], ip, now);
                        if k < i {
                            assert(listed.contains(ip));
                        } else {
                            assert(active_from(all[i as int], ip, now));
                        }
                    }
                }
            }
            i += 1;
        }
        out
    }

    /// The attempts and tokens of each of the 24 hours before `now`, oldest
    /// hour first. The hour at position `i` begins `24 - i` hours before
    /// `now`; its label is the instant at which it begins, or the epoch if
    /// that lies before it.
    pub fn get_hourly_stats(&self, now: u64) -> (r: Vec<(u64, u32, u64)>)
        ensures
            r@.len() == 24,
            forall|i: int| 0 <= i < 24 ==> #[trigger] r@[i] == hour_bucket(self@.records, now, 23 - i),
    {
        let ghost all = record_views(self.call_records@);
        let mut out: Vec<(u64, u32, u64)> = Vec::new();
        let mut i: u64 = 0;
        while i < 24
            invariant
                i <= 24,
                all == record_views(self.call_records@),
                all == self@.records,
                out@.len() == i,
                forall|k: int| 0 <= k < i ==> #[trigger] out@[k] == hour_bucket(all, now, 23 - k),
            decreases 24 - i,
        {
            let h: u64 = 23 - i;
            let back: u64 = h * HOUR_MS;
            let label: u64 = if now >= back {
                now - back
            } else {
                0
            };
            let ghost pred = in_hour(now, h as int);
            let ghost weight = hour_tokens(now, h as int);
            let mut count: u32 = 0;
            let mut used: u64 = 0;
            let mut j: usize = 0;
            proof {
                assert(all.take(0) == Seq::<RecordView>::empty());
            }
            while j < self.call_records.len()
                invariant
                    j <= self.call_records.len(),
                    all == record_views(self.call_records@),
                    h <= 23,
                    back == h * HOUR_MS,
                    pred == in_hour(now, h as int),
                    weight == hour_tokens(now, h as int),
                    count == clamp_u32(count_of(all.take(j as int), pred)),
                    used == clamp_u64(sum_of(all.take(j as int), weight)),
                decreases self.call_records.len() - j,
            {
                proof {
                    assert(all.take(j as int + 1).drop_last() == all.take(j as int));
                    assert(all.take(j as int + 1).last() == self.call_records@[j as int]@);
                }
                let record = &self.call_records[j];
                let shifted: u128 = record.timestamp as u128 + back as u128;
                let start: u128 = now as u128;
                let end: u128 = start + HOUR_MS as u128;
                if shifted >= start && shifted < end {
                    count = inc_sat(count);
                    used = add_sat(used, record.tokens_used as u64);
                }
                j += 1;
            }
            proof {
                assert(all.take(self.call_records.len() as int) == all);
            }
            out.push((label, count, used));
            i += 1;
        }
        out
    }

    /// Sweeps records past the retention horizon; the aggregates are
    /// refreshed if any was dropped.
    pub fn cleanup_old_records(&mut self, now: u64)
        ensures
            final(self)@ == after_cleanup(old(self)@, now),
    {
        let old_count = self.call_records.len();
        let mut records: Vec<ApiCallRecord> = Vec::new();
        std::mem::swap(&mut records, &mut self.call_records);
        self.call_records = retain_records(records, now, RETENTION_MS);
        if self.call_records.len() != old_count {
            self.update_cached_stats(now);
        }
    }

    /// Drops the records that lie `max_age_ms` or more before `now`, and
    /// refreshes the aggregates if any was dropped. Says how many were.
    pub fn cleanup_expired_records(&mut self, max_age_ms: u64, now: u64) -> (dropped: usize)
        ensures
            final(self)@.records == kept_within(old(self)@.records, now, max_age_ms),
            dropped == old(self)@.records.len() - final(self)@.records.len(),
            final(self)@.cached == (if dropped > 0 {
                aggregate(final(self)@.records, now)
            } else {
                old(self)@.cached
            }),
            final(self)@.models == old(self)@.models,
            final(self)@.last_cleanup == old(self)@.last_cleanup,
    {
        let old_count = self.call_records.len();
        let mut records: Vec<ApiCallRecord> = Vec::new();
        std::mem::swap(&mut records, &mut self.call_records);
        self.call_records = retain_records(records, now, max_age_ms);
        let dropped = old_count - self.call_records.len();
        if dropped > 0 {
            self.update_cached_stats(now);
        }
        dropped
    }

    /// One tick of the periodic sweep: when more than an hour has passed
    /// since the last sweep, old records are swept. Says whether they were.
    pub fn cleanup_tick(&mut self, now: u64) -> (swept: bool)
        ensures
            swept == cleanup_due(old(self)@, now),
            final(self)@ == (if swept {
                (AccountantView {
                    records: after_cleanup(old(self)@, now).records,
                    models: old(self)@.models,
                    cached: after_cleanup(old(self)@, now).cached,
                    last_cleanup: now,
                })
            } else {
                old(self)@
            }),
    {
        if now >= self.last_cleanup && now - self.last_cleanup > HOUR_MS {
            self.cleanup_old_records(now);
            self.last_cleanup = now;
            true
        } else {
            false
        }
    }
}

/// The addresses of a list of addresses paired with counts.
pub open spec fn addresses(pairs: Seq<(String, u32)>) -> Seq<Seq<char>> {
    pairs.map_values(|p: (String, u32)| p.0@)
}

/// Whether an attempt came from `ip` in the day before `now`.
pub open spec fn active_from(r: RecordView, ip: Seq<char>, now: u64) -> bool {
    r.timestamp + DAY_MS > now && r.ip_address == Some(ip)
}

fn address_listed(pairs: &Vec<(String, u32)>, ip: &str) -> (r: bool)
    ensures
        r == addresses(pairs@).contains(ip@),
{
    let mut i: usize = 0;
    while i < pairs.len()
        invariant
            i <= pairs.len(),
            forall|k: int| 0 <= k < i ==> addresses(pairs@)[k] != ip@,
        decreases pairs.len() - i,
    {
        if str_eq(pairs[i].0.as_str(), ip) {
            proof {
                assert(addresses(pairs@)[i as int] == ip@);
            }
            return true;
        }
        i += 1;
    }
    false
}

/// The test that an attempt passes when it lies in the hour that begins
/// `h + 1` hours before `now`.
pub open spec fn in_hour(now: u64, h: int) -> spec_fn(RecordView) -> bool {
    |r: RecordView| now - h * HOUR_MS <= r.timestamp && r.timestamp < now - h * HOUR_MS + HOUR_MS
}

/// The tokens of an attempt if it lies in the hour, zero otherwise.
pub open spec fn hour_tokens(now: u64, h: int) -> spec_fn(RecordView) -> nat {
    |r: RecordView|
        if in_hour(now, h)(r) {
            r.tokens_used as nat
        } else {
            0
        }
}

/// The hour that begins `h + 1` hours before `now`: its label, its attempts
/// and its tokens.
pub open spec fn hour_bucket(records: Seq<RecordView>, now: u64, h: int) -> (u64, u32, u64) {
    (
        if now >= h * HOUR_MS {
            (now - h * HOUR_MS) as u64
        } else {
            0
        },
        clamp_u32(count_of(records, in_hour(now, h))),
        clamp_u64(sum_of(records, hour_tokens(now, h))),
    )
}

/// The counters that a named set of counters holds.
pub open spec fn counters_in(m: ModelStats) -> ModelCounters {
    ModelCounters {
        request_count: m.request_count,
        token_count: m.token_count,
        successful_requests: m.successful_requests,
        total_response_time_ms: m.total_response_time_ms,
    }
}

} // verus!
