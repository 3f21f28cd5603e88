//! The register of requests in flight.
//!
//! A request is registered under a key. Whether its task has finished is
//! reported to the register; tasks themselves are run, and aborted, by the
//! caller.

use crate::services::gemini::fresh_uuid;
use crate::utils::cache::{hex_lower, push_hex, xxh3_64, xxh3_64_of};
use crate::utils::text::{str_eq, string_of, views};
use vstd::prelude::*;

verus! {

/// The age, in seconds, past which a request counts as old in statistics.
pub const OLD_REQUEST_SECS: u64 = 300;

/// How many registered requests a healthy register holds at most.
pub const MAX_HEALTHY_REQUESTS: usize = 1000;

/// How many old requests a healthy register holds at most.
pub const MAX_HEALTHY_OLD_REQUESTS: usize = 50;

/// A request in flight. The metadata are pairs of a name and a JSON text.
#[derive(Debug, Clone)]
pub struct ActiveRequest {
    pub id: String,
    pub creation_time: u64,
    pub has_task: bool,
    pub finished: bool,
    pub metadata: Option<Vec<(String, String)>>,
}

/// The time for which a request has existed at `now`, in milliseconds; zero
/// if it was created after `now`.
pub open spec fn age_of(r: ActiveRequest, now: u64) -> u64 {
    if now >= r.creation_time {
        (now - r.creation_time) as u64
    } else {
        0
    }
}

/// Whether a request is older at `now` than `seconds`.
pub open spec fn older_than(r: ActiveRequest, now: u64, seconds: u64) -> bool {
    age_of(r, now) > seconds * 1000
}

impl ActiveRequest {
    /// A request created at `now`, under a fresh identifier.
    pub fn new(now: u64) -> (r: Self)
        ensures
            r.id@.len() > 0,
            r.creation_time == now,
            !r.has_task,
            !r.finished,
            r.metadata is None,
    {
        ActiveRequest {
            id: fresh_uuid(),
            creation_time: now,
            has_task: false,
            finished: false,
            metadata: None,
        }
    }

    /// The request under another identifier.
    pub fn with_id(self, id: String) -> (r: Self)
        ensures
            r.id == id,
            r.creation_time == self.creation_time,
            r.has_task == self.has_task,
            r.finished == self.finished,
            r.metadata == self.metadata,
    {
        let mut r = self;
        r.id = id;
        r
    }

    /// The request with metadata.
    pub fn with_metadata(self, metadata: Vec<(String, String)>) -> (r: Self)
        ensures
            r.metadata == Some(metadata),
            r.id == self.id,
            r.creation_time == self.creation_time,
            r.has_task == self.has_task,
            r.finished == self.finished,
    {
        let mut r = self;
        r.metadata = Some(metadata);
        r
    }

    /// The request with a task that runs it.
    pub fn with_task_handle(self) -> (r: Self)
        ensures
            r.has_task,
            !r.finished,
            r.id == self.id,
            r.creation_time == self.creation_time,
            r.metadata == self.metadata,
    {
        let mut r = self;
        r.has_task = true;
        r.finished = false;
        r
    }

    /// The time for which the request has existed at `now`, in milliseconds.
    pub fn age(&self, now: u64) -> (ms: u64)
        ensures
            ms == age_of(*self, now),
    {
        if now >= self.creation_time {
            now - self.creation_time
        } else {
            0
        }
    }

    /// Whether the task of the request has finished. A request without a
    /// task has not.
    pub fn is_finished(&self) -> (r: bool)
        ensures
            r == (self.has_task && self.finished),
    {
        self.has_task && self.finished
    }

    fn is_older_than(&self, now: u64, seconds: u64) -> (r: bool)
        ensures
            r == older_than(*self, now, seconds),
    {
        self.age(now) as u128 > seconds as u128 * 1000
    }
}

/// What the register tells about one request.
#[derive(Debug, Clone)]
pub struct RequestSummary {
    pub id: String,
    pub creation_time: u64,
    pub finished: bool,
}

/// Whether `summary` tells about `request`.
pub open spec fn summarizes(summary: RequestSummary, request: ActiveRequest) -> bool {
    summary.id@ == request.id@ && summary.creation_time == request.creation_time
        && summary.finished == (request.has_task && request.finished)
}

/// What the register tells about one request in detail.
#[derive(Debug, Clone)]
pub struct RequestDetail {
    pub key: String,
    pub id: String,
    pub creation_time: u64,
    pub age_seconds: u64,
    pub is_finished: bool,
    pub has_task_handle: bool,
    pub metadata: Option<Vec<(String, String)>>,
}

/// The metadata of a request, if it has any, by the texts of the pairs.
pub open spec fn optional_metadata(m: Option<Vec<(String, String)>>) -> Option<
    Seq<(Seq<char>, Seq<char>)>,
> {
    match m {
        Some(pairs) => Some(metadata_views(pairs@)),
        None => None,
    }
}

/// Whether `detail` tells about the entry `entry` at `now`.
pub open spec fn details(detail: RequestDetail, entry: (String, ActiveRequest), now: u64) -> bool {
    &&& detail.key@ == entry.0@
    &&& detail.id@ == entry.1.id@
    &&& detail.creation_time == entry.1.creation_time
    &&& detail.age_seconds == age_of(entry.1, now) / 1000
    &&& detail.is_finished == (entry.1.has_task && entry.1.finished)
    &&& detail.has_task_handle == entry.1.has_task
    &&& optional_metadata(detail.metadata) == optional_metadata(entry.1.metadata)
}

/// Counts of the requests in a register.
#[derive(Debug, Clone, Copy, PartialEq, Eq, Structural)]
pub struct RequestStatistics {
    pub total_count: usize,
    pub running_count: usize,
    pub completed_count: usize,
    pub old_requests: usize,
}

/// The keys of a list of registered requests.
pub open spec fn keys_of(entries: Seq<(String, ActiveRequest)>) -> Seq<Seq<char>> {
    entries.map_values(|e: (String, ActiveRequest)| e.0@)
}

/// The test that an entry passes when it is not registered under `key`.
pub open spec fn not_under(key: Seq<char>) -> spec_fn((String, ActiveRequest)) -> bool {
    |e: (String, ActiveRequest)| e.0@ != key
}

/// The test that an entry passes when its task has not finished.
pub open spec fn unfinished() -> spec_fn((String, ActiveRequest)) -> bool {
    |e: (String, ActiveRequest)| !(e.1.has_task && e.1.finished)
}

/// The test that an entry passes when it is to stay at `now`: it is no older
/// than `seconds`, or its task has finished.
pub open spec fn staying(now: u64, seconds: u64) -> spec_fn((String, ActiveRequest)) -> bool {
    |e: (String, ActiveRequest)| !(older_than(e.1, now, seconds) && !(e.1.has_task && e.1.finished))
}

/// The test that an entry passes when it fails `pred`.
pub open spec fn failing(pred: spec_fn((String, ActiveRequest)) -> bool) -> spec_fn(
    (String, ActiveRequest),
) -> bool {
    |e: (String, ActiveRequest)| !pred(e)
}

/// How many entries pass `pred`.
pub open spec fn count_where(
    entries: Seq<(String, ActiveRequest)>,
    pred: spec_fn((String, ActiveRequest)) -> bool,
) -> nat {
    entries.filter(pred).len()
}

/// The statistics of the entries at `now`.
pub open spec fn statistics_of(entries: Seq<(String, ActiveRequest)>, now: u64) -> RequestStatistics {
    RequestStatistics {
        total_count: entries.len() as usize,
        running_count: count_where(entries, unfinished()) as usize,
        completed_count: (entries.len() - count_where(entries, unfinished())) as usize,
        old_requests: count_where(
            entries,
            |e: (String, ActiveRequest)| older_than(e.1, now, OLD_REQUEST_SECS),
        ) as usize,
    }
}

/// Whether statistics are those of a healthy register.
pub open spec fn healthy(s: RequestStatistics) -> bool {
    s.total_count <= MAX_HEALTHY_REQUESTS && s.old_requests <= MAX_HEALTHY_OLD_REQUESTS
}

/// The register of requests in flight.
pub struct ActiveRequestsManager {
    active_requests: Vec<(String, ActiveRequest)>,
}

impl View for ActiveRequestsManager {
    type V = Seq<(String, ActiveRequest)>;

    closed spec fn view(&self) -> Seq<(String, ActiveRequest)> {
        self.active_requests@
    }
}

fn retain_entries(
    entries: Vec<(String, ActiveRequest)>,
    mode: u8,
    key: &str,
    now: u64,
    seconds: u64,
) -> (r: (Vec<(String, ActiveRequest)>, Vec<String>))
    requires
        mode <= 2,
    ensures
        r.0@ == entries@.filter(
            if mode == 0 {
                not_under(key@)
            } else if mode == 1 {
                unfinished()
            } else {
                staying(now, seconds)
            },
        ),
        r.0@.len() + r.1@.len() == entries@.len(),
        views(r.1@) == keys_of(
            entries@.filter(
                failing(
                    if mode == 0 {
                        not_under(key@)
                    } else if mode == 1 {
                        unfinished()
                    } else {
                        staying(now, seconds)
                    },
                ),
            ),
        ),
{
    let ghost keep = if mode == 0 {
        not_under(key@)
    } else if mode == 1 {
        unfinished()
    } else {
        staying(now, seconds)
    };
    let ghost fail = failing(keep);
    let ghost orig = entries@;
    let mut rev = entries;
    let n = rev.len();
    let mut back: Vec<(String, ActiveRequest)> = Vec::new();
    let mut i: usize = 0;
    while i < n
        invariant
            i <= n,
            n == orig.len(),
            rev@ == orig.take(n - i),
            back@.len() == i,
            forall|j: int| 0 <= j < i ==> back@[j] == orig[n - 1 - j],
        decreases n - i,
    {
        match rev.pop() {
            Some(x) => {
                back.push(x);
            },
            None => {},
        }
        i += 1;
    }
    let mut kept: Vec<(String, ActiveRequest)> = Vec::new();
    let mut gone: Vec<String> = Vec::new();
    let mut j: usize = 0;
    proof {
        reveal(Seq::filter);
        assert(orig.take(0) == Seq::<(String, ActiveRequest)>::empty());
        assert(back@.take(n as int) == back@);
        assert(views(gone@) == keys_of(orig.take(0).filter(fail)));
    }
    while j < n
        invariant
            j <= n,
            n == orig.len(),
            mode <= 2,
            keep == (if mode == 0 {
                not_under(key@)
            } else if mode == 1 {
                unfinished()
            } else {
                staying(now, seconds)
            }),
            back@.len() == n - j,
            forall|k: int| 0 <= k < n - j ==> back@[k] == orig[n - 1 - k],
            fail == failing(keep),
            kept@ == orig.take(j as int).filter(keep),
            kept@.len() + gone@.len() == j,
            views(gone@) == keys_of(orig.take(j as int).filter(fail)),
        decreases n - j,
    {
        proof {
            reveal(Seq::filter);
            assert(orig.take(j as int + 1).drop_last() == orig.take(j as int));
            assert(orig.take(j as int + 1).last() == orig[j as int]);
        }
        match back.pop() {
            Some(x) => {
                proof {
                    assert(x == orig[j as int]);
                }
                let keep_it = if mode == 0 {
                    !str_eq(x.0.as_str(), key)
                } else if mode == 1 {
                    !x.1.is_finished()
                } else {
                    !(x.1.is_older_than(now, seconds) && !x.1.is_finished())
                };
                let ghost before = views(gone@);
                let ghost left = orig.take(j as int).filter(fail);
                if keep_it {
                    kept.push(x);
                } else {
                    gone.push(x.0);
                    proof {
                        assert(views(gone@) == before.push(orig[j as int].0@));
                        assert(keys_of(left.push(orig[j as int])) == keys_of(left).push(
                            orig[j as int].0@,
                        ));
                    }
                }
            },
            None => {},
        }
        j += 1;
    }
    proof {
        assert(orig.take(n as int) == orig);
    }
    (kept, gone)
}

impl ActiveRequestsManager {
    /// An empty register.
    pub fn new() -> (m: Self)
        ensures
            m@.len() == 0,
    {
        ActiveRequestsManager { active_requests: Vec::new() }
    }

    /// A register with the given requests.
    pub fn with_requests_pool(requests_pool: Vec<(String, ActiveRequest)>) -> (m: Self)
        ensures
            m@ == requests_pool@,
    {
        ActiveRequestsManager { active_requests: requests_pool }
    }

    /// Registers `request` under `key`, in place of what was registered
    /// under it.
    pub fn add(&mut self, key: String, request: ActiveRequest)
        ensures
            final(self)@ == old(self)@.filter(not_under(key@)).push((key, request)),
    {
        let mut entries: Vec<(String, ActiveRequest)> = Vec::new();
        std::mem::swap(&mut entries, &mut self.active_requests);
        let (mut kept, _) = retain_entries(entries, 0, key.as_str(), 0, 0);
        kept.push((key, request));
        self.active_requests = kept;
    }

    /// Registers `request` under its identifier, and hands the key back.
    pub fn add_auto(&mut self, request: ActiveRequest) -> (key: String)
        ensures
            key@ == request.id@,
            final(self)@.len() > 0,
            final(self)@.last().1 == request,
            final(self)@.last().0@ == request.id@,
            final(self)@.drop_last() == old(self)@.filter(not_under(request.id@)),
    {
        let key = request.id.clone();
        let out = key.clone();
        self.add(key, request);
        out
    }

    /// The position of the request registered under `key`, if there is one.
    fn position(&self, key: &str) -> (r: Option<usize>)
        ensures
            match r {
                Some(i) => i < self@.len() && self@[i as int].0@ == key@ && forall|j: int|
                    0 <= j < i ==> self@[j].0@ != key@,
                None => !keys_of(self@).contains(key@),
            },
    {
        let mut i: usize = 0;
        while i < self.active_requests.len()
            invariant
                i <= self.active_requests.len(),
                forall|j: int| 0 <= j < i ==> self.active_requests@[j].0@ != key@,
            decreases self.active_requests.len() - i,
        {
            if str_eq(self.active_requests[i].0.as_str(), key) {
                return Some(i);
            }
            i += 1;
        }
        proof {
            assert forall|j: int| 0 <= j < keys_of(self@).len() implies keys_of(self@)[j]
                != key@ by {
                assert(keys_of(self@)[j] == self@[j].0@);
            }
        }
        None
    }

    /// Whether a request is registered under `key`.
    pub fn contains(&self, key: &str) -> (r: bool)
        ensures
            r == keys_of(self@).contains(key@),
    {
        match self.position(key) {
            Some(i) => {
                proof {
                    assert(keys_of(self@)[i as int] == key@);
                }
                true
            },
            None => false,
        }
    }

    /// What is registered under `key`: the identifier, the creation time,
    /// and whether the task has finished.
    pub fn get(&self, key: &str) -> (r: Option<RequestSummary>)
        ensures
            r is Some <==> keys_of(self@).contains(key@),
            r is Some ==> exists|i: int|
                0 <= i < self@.len() && (#[trigger] self@[i]).0@ == key@ && summarizes(
                    r->Some_0,
                    self@[i].1,
                ),
    {
        match self.position(key) {
            Some(i) => {
                proof {
                    assert(keys_of(self@)[i as int] == key@);
                }
                let request = &self.active_requests[i].1;
                Some(
                    RequestSummary {
                        id: request.id.clone(),
                        creation_time: request.creation_time,
                        finished: request.is_finished(),
                    },
                )
            },
            None => None,
        }
    }

    /// Takes the request registered under `key` off the register. Says
    /// whether there was one.
    pub fn remove(&mut self, key: &str) -> (removed: bool)
        ensures
            removed == keys_of(old(self)@).contains(key@),
            final(self)@ == old(self)@.filter(not_under(key@)),
    {
        let found = self.contains(key);
        let mut entries: Vec<(String, ActiveRequest)> = Vec::new();
        std::mem::swap(&mut entries, &mut self.active_requests);
        let (kept, _) = retain_entries(entries, 0, key, 0, 0);
        self.active_requests = kept;
        found
    }

    /// Reports that the task of the request registered under `key` has
    /// finished. Says whether there was such a request.
    pub fn mark_finished(&mut self, key: &str) -> (found: bool)
        ensures
            found == keys_of(old(self)@).contains(key@),
            final(self)@.len() == old(self)@.len(),
            forall|i: int|
                0 <= i < old(self)@.len() ==> (#[trigger] final(self)@[i]).0 == old(self)@[i].0
                    && final(self)@[i].1.creation_time == old(self)@[i].1.creation_time,
    {
        match self.position(key) {
            Some(i) => {
                proof {
                    assert(keys_of(self@)[i as int] == key@);
                }
                let mut entry = self.active_requests.remove(i);
                entry.1.has_task = true;
                entry.1.finished = true;
                self.active_requests.insert(i, entry);
                true
            },
            None => false,
        }
    }

    /// How many requests are registered.
    pub fn count(&self) -> (n: usize)
        ensures
            n == self@.len(),
    {
        self.active_requests.len()
    }

    /// Takes the requests whose task has finished off the register. Says how
    /// many there were.
    pub fn clean_completed(&mut self) -> (cleaned: usize)
        ensures
            final(self)@ == old(self)@.filter(unfinished()),
            cleaned == old(self)@.len() - final(self)@.len(),
    {
        let mut entries: Vec<(String, ActiveRequest)> = Vec::new();
        std::mem::swap(&mut entries, &mut self.active_requests);
        let (kept, gone) = retain_entries(entries, 1, "", 0, 0);
        self.active_requests = kept;
        gone.len()
    }

    /// Takes the requests that are older at `now` than `max_age_seconds` and
    /// whose task has not finished off the register, and hands out their
    /// keys; the caller aborts their tasks.
    pub fn clean_long_running(&mut self, max_age_seconds: u64, now: u64) -> (aborted: Vec<String>)
        ensures
            final(self)@ == old(self)@.filter(staying(now, max_age_seconds)),
            views(aborted@) == keys_of(
                old(self)@.filter(failing(staying(now, max_age_seconds))),
            ),
    {
        let mut entries: Vec<(String, ActiveRequest)> = Vec::new();
        std::mem::swap(&mut entries, &mut self.active_requests);
        let (kept, gone) = retain_entries(entries, 2, "", now, max_age_seconds);
        self.active_requests = kept;
        gone
    }

    /// Takes every request off the register. Says how many there were; the
    /// caller aborts their tasks.
    pub fn clean_all(&mut self) -> (count: usize)
        ensures
            final(self)@.len() == 0,
            count == old(self)@.len(),
    {
        let count = self.active_requests.len();
        self.active_requests = Vec::new();
        count
    }

    /// One round of the periodic clean-up at `now`: first the requests
    /// whose task has finished leave the register, then those that are
    /// older than `max_age_seconds`. Says how many finished requests left
    /// and hands out the keys of the others, whose tasks the caller aborts.
    pub fn run_periodic_cleanup(&mut self, max_age_seconds: u64, now: u64) -> (r: (usize, Vec<String>))
        ensures
            final(self)@ == old(self)@.filter(unfinished()).filter(staying(now, max_age_seconds)),
            r.0 == old(self)@.len() - old(self)@.filter(unfinished()).len(),
            views(r.1@) == keys_of(
                old(self)@.filter(unfinished()).filter(failing(staying(now, max_age_seconds))),
            ),
    {
        let cleaned = self.clean_completed();
        let aborted = self.clean_long_running(max_age_seconds, now);
        (cleaned, aborted)
    }

    /// What the register holds at `now`, request by request, in the order
    /// in which the requests were registered.
    pub fn get_detailed_info(&self, now: u64) -> (r: Vec<RequestDetail>)
        ensures
            r@.len() == self@.len(),
            forall|i: int| 0 <= i < r@.len() ==> details(#[trigger] r@[i], self@[i], now),
    {
        let mut r: Vec<RequestDetail> = Vec::new();
        let mut i: usize = 0;
        while i < self.active_requests.len()
            invariant
                i <= self.active_requests.len(),
                r@.len() == i,
                forall|k: int| 0 <= k < i ==> details(#[trigger] r@[k], self@[k], now),
            decreases self.active_requests.len() - i,
        {
            let request = &self.active_requests[i].1;
            let metadata = match &request.metadata {
                Some(pairs) => {
                    let mut copy: Vec<(String, String)> = Vec::new();
                    let mut j: usize = 0;
                    while j < pairs.len()
                        invariant
                            j <= pairs.len(),
                            metadata_views(copy@) == metadata_views(pairs@).take(j as int),
                        decreases pairs.len() - j,
                    {
                        let ghost before = metadata_views(copy@);
                        copy.push((pairs[j].0.clone(), pairs[j].1.clone()));
                        proof {
                            assert(metadata_views(copy@) == before.push(
                                (pairs@[j as int].0@, pairs@[j as int].1@),
                            ));
                        }
                        j += 1;
                    }
                    proof {
                        assert(metadata_views(pairs@).take(pairs.len() as int) == metadata_views(
                            pairs@,
                        ));
                    }
                    Some(copy)
                },
                None => None,
            };
            r.push(
                RequestDetail {
                    key: self.active_requests[i].0.clone(),
                    id: request.id.clone(),
                    creation_time: request.creation_time,
                    age_seconds: request.age(now) / 1000,
                    is_finished: request.is_finished(),
                    has_task_handle: request.has_task,
                    metadata,
                },
            );
            i += 1;
        }
        r
    }

    /// The statistics of the register at `now`.
    pub fn get_statistics(&self, now: u64) -> (s: RequestStatistics)
        ensures
            s == statistics_of(self@, now),
    {
        let ghost all = self@;
        let ghost running = unfinished();
        let ghost old_pred = |e: (String, ActiveRequest)| older_than(e.1, now, OLD_REQUEST_SECS);
        let mut running_count: usize = 0;
        let mut old_requests: usize = 0;
        let mut i: usize = 0;
        proof {
            reveal(Seq::filter);
            assert(all.take(0) == Seq::<(String, ActiveRequest)>::empty());
        }
        while i < self.active_requests.len()
            invariant
                i <= self.active_requests.len(),
                all == self.active_requests@,
                running == unfinished(),
                old_pred == |e: (String, ActiveRequest)| older_than(e.1, now, OLD_REQUEST_SECS),
                running_count == all.take(i as int).filter(running).len(),
                old_requests == all.take(i as int).filter(old_pred).len(),
                running_count <= i,
                old_requests <= i,
            decreases self.active_requests.len() - i,
        {
            proof {
                reveal(Seq::filter);
                assert(all.take(i as int + 1).drop_last() == all.take(i as int));
                assert(all.take(i as int + 1).last() == all[i as int]);
            }
            let request = &self.active_requests[i].1;
            if !request.is_finished() {
                running_count += 1;
            }
            if request.is_older_than(now, OLD_REQUEST_SECS) {
                old_requests += 1;
            }
            i += 1;
        }
        proof {
            assert(all.take(self.active_requests.len() as int) == all);
        }
        RequestStatistics {
            total_count: self.active_requests.len(),
            running_count,
            completed_count: self.active_requests.len() - running_count,
            old_requests,
        }
    }

    /// Whether the register is healthy at `now`: it holds neither too many
    /// requests nor too many old ones.
    pub fn health_check(&self, now: u64) -> (r: bool)
        ensures
            r == healthy(statistics_of(self@, now)),
    {
        let stats = self.get_statistics(now);
        stats.total_count <= MAX_HEALTHY_REQUESTS && stats.old_requests <= MAX_HEALTHY_OLD_REQUESTS
    }
}

/// The name under which the hash of a credential is kept in the metadata.
pub open spec fn key_hash_entry(api_key: Seq<char>) -> (Seq<char>, Seq<char>) {
    (
        "api_key_hash"@,
        crate::utils::cache::json_string_of(
            hex_lower(xxh3_64_of(vstd::utf8::encode_utf8(api_key)) as nat),
        ),
    )
}

/// The views of a list of metadata.
pub open spec fn metadata_views(m: Seq<(String, String)>) -> Seq<(Seq<char>, Seq<char>)> {
    m.map_values(|e: (String, String)| (e.0@, e.1@))
}

/// The metadata of a request: the model, the hash of the credential in
/// place of the credential, and the kind of request, each if given.
pub open spec fn metadata_of(
    model: Option<Seq<char>>,
    api_key: Option<Seq<char>>,
    request_type: Option<Seq<char>>,
) -> Seq<(Seq<char>, Seq<char>)> {
    (match model {
        Some(m) => seq![("model"@, crate::utils::cache::json_string_of(m))],
        None => Seq::<(Seq<char>, Seq<char>)>::empty(),
    }) + (match api_key {
        Some(k) => seq![key_hash_entry(k)],
        None => Seq::<(Seq<char>, Seq<char>)>::empty(),
    }) + (match request_type {
        Some(t) => seq![("request_type"@, crate::utils::cache::json_string_of(t))],
        None => Seq::<(Seq<char>, Seq<char>)>::empty(),
    })
}

/// A request created at `now` with the usual metadata.
pub fn create_request_with_metadata(
    model: Option<&str>,
    api_key: Option<&str>,
    request_type: Option<&str>,
    now: u64,
) -> (r: ActiveRequest)
    ensures
        r.creation_time == now,
        !r.has_task,
        r.metadata is Some,
        metadata_views(r.metadata->0@) == metadata_of(
            crate::utils::auth::str_view(model),
            crate::utils::auth::str_view(api_key),
            crate::utils::auth::str_view(request_type),
        ),
{
    let mut metadata: Vec<(String, String)> = Vec::new();
    match model {
        Some(m) => {
            metadata.push(("model".to_string(), crate::utils::cache::json_string(m)));
        },
        None => {},
    }
    match api_key {
        Some(k) => {
            let hash = xxh3_64(k.as_bytes());
            let mut hex: Vec<char> = Vec::new();
            push_hex(hash, &mut hex);
            let text = string_of(hex.as_slice());
            metadata.push(
                ("api_key_hash".to_string(), crate::utils::cache::json_string(text.as_str())),
            );
        },
        None => {},
    }
    match request_type {
        Some(t) => {
            metadata.push(("request_type".to_string(), crate::utils::cache::json_string(t)));
        },
        None => {},
    }
    proof {
        assert(metadata_views(metadata@) =~= metadata_of(
            crate::utils::auth::str_view(model),
            crate::utils::auth::str_view(api_key),
            crate::utils::auth::str_view(request_type),
        ));
    }
    ActiveRequest::new(now).with_metadata(metadata)
}

} // verus!
