//! The response cache: completed responses kept under the fingerprint of the
//! request that produced them, bounded in age and in number.
//!
//! The cache is an owned object, modelled by [`CacheView`]. Time is passed
//! in, as milliseconds since the epoch; the time to live is in seconds.

use crate::config::settings::Settings;
use crate::models::schemas::{ChatCompletionResponse, ChatCompletionResponseView};
use crate::utils::keyed::{
    cache_map_clear, cache_map_insert, cache_map_len, cache_map_new, cache_map_remove,
    cache_map_touches, cache_map_view, firsts, lemma_listed_domain, lists_domain,
};
use crate::utils::text::{
    append_chars, append_str, chars_of, join, join_chars, lemma_push_contains, string_of, views,
};
use dashmap::DashMap;
use std::collections::VecDeque;
use std::hash::RandomState;
use vstd::prelude::*;
use vstd::string::StringSliceAdditionalSpecFns;

verus! {

/// How many responses are kept under one fingerprint.
pub const MAX_RESPONSES_PER_KEY: usize = 3;

/// One cached response.
#[derive(Debug, Clone)]
pub struct CacheEntry {
    pub response: ChatCompletionResponse,
    pub created_at: u64,
    pub access_count: usize,
}

pub struct EntryView {
    pub response: ChatCompletionResponseView,
    pub created_at: u64,
    pub access_count: usize,
}

impl View for CacheEntry {
    type V = EntryView;

    open spec fn view(&self) -> EntryView {
        EntryView {
            response: self.response@,
            created_at: self.created_at,
            access_count: self.access_count,
        }
    }
}

/// Whether something created at `created_at` is older at `now` than `ttl`
/// seconds. A creation time that lies after `now` counts as expired.
pub open spec fn expired(created_at: u64, now: u64, ttl: u64) -> bool {
    now < created_at || now - created_at > ttl * 1000
}

/// An entry as it is when it enters the cache.
pub open spec fn new_entry(response: ChatCompletionResponseView, now: u64) -> EntryView {
    EntryView { response, created_at: now, access_count: 0 }
}

/// An entry after one more hit.
pub open spec fn hit(e: EntryView) -> EntryView {
    EntryView {
        response: e.response,
        created_at: e.created_at,
        access_count: if e.access_count < usize::MAX {
            (e.access_count + 1) as usize
        } else {
            e.access_count
        },
    }
}

impl CacheEntry {
    /// An entry for a response computed at `now`.
    pub fn new(response: ChatCompletionResponse, now: u64) -> (e: Self)
        ensures
            e@ == new_entry(response@, now),
    {
        CacheEntry { response, created_at: now, access_count: 0 }
    }

    /// Whether the entry is older at `now` than `ttl` seconds.
    pub fn is_expired(&self, now: u64, ttl: u64) -> (r: bool)
        ensures
            r == expired(self.created_at, now, ttl),
    {
        if now < self.created_at {
            true
        } else {
            (now - self.created_at) as u128 > (ttl as u128) * 1000
        }
    }

    /// Counts one hit.
    pub fn access(&mut self)
        ensures
            final(self)@ == hit(old(self)@),
    {
        if self.access_count < usize::MAX {
            self.access_count = self.access_count + 1;
        }
    }
}

/// The views of a queue of entries.
pub open spec fn entry_views(v: Seq<CacheEntry>) -> Seq<EntryView> {
    v.map_values(|e: CacheEntry| e@)
}

/// What is kept under one fingerprint: a short queue of responses, oldest
/// first, and the time of the last hit or insertion.
#[derive(Debug, Clone)]
pub struct CacheSlot {
    pub entries: VecDeque<CacheEntry>,
    pub last_touch: u64,
}

pub struct SlotView {
    pub entries: Seq<EntryView>,
    pub last_touch: u64,
}

impl View for CacheSlot {
    type V = SlotView;

    open spec fn view(&self) -> SlotView {
        SlotView { entries: entry_views(self.entries@), last_touch: self.last_touch }
    }
}

/// The model of a cache.
#[verifier::ext_equal]
pub struct CacheView {
    pub slots: Map<Seq<char>, SlotView>,
    /// Time to live of an entry, in seconds.
    pub ttl: u64,
    /// How many fingerprints the cache may hold.
    pub capacity: usize,
}

/// The view of an optional response.
pub open spec fn response_view(r: Option<ChatCompletionResponse>) -> Option<
    ChatCompletionResponseView,
> {
    match r {
        Some(x) => Some(x@),
        None => None,
    }
}

/// The place of the first entry of `q`, at or after place `i`, that has not
/// expired at `now`; the length of `q` if there is none.
pub open spec fn first_fresh_from(q: Seq<EntryView>, i: int, now: u64, ttl: u64) -> int
    decreases q.len() - i,
{
    if i < 0 || i >= q.len() {
        q.len() as int
    } else if !expired(q[i].created_at, now, ttl) {
        i
    } else {
        first_fresh_from(q, i + 1, now, ttl)
    }
}

/// The place of the first entry of `q` that has not expired at `now`; the
/// length of `q` if there is none.
pub open spec fn first_fresh(q: Seq<EntryView>, now: u64, ttl: u64) -> int {
    first_fresh_from(q, 0, now, ttl)
}

/// What a lookup of `key` at `now` answers: the response of the first entry
/// in the queue that has not expired; nothing only if there is no such
/// entry.
pub open spec fn lookup(c: CacheView, key: Seq<char>, now: u64) -> Option<
    ChatCompletionResponseView,
> {
    if c.slots.contains_key(key) && first_fresh(c.slots[key].entries, now, c.ttl)
        < c.slots[key].entries.len() {
        Some(c.slots[key].entries[first_fresh(c.slots[key].entries, now, c.ttl)].response)
    } else {
        None
    }
}

/// The queue under a fingerprint after a lookup at `now`: the expired
/// entries before the first one that has not expired are dropped, and that
/// one moves to the back with one more hit counted. Where every entry has
/// expired, all are dropped.
pub open spec fn queue_after_get(q: Seq<EntryView>, now: u64, ttl: u64) -> Seq<EntryView> {
    let i = first_fresh(q, now, ttl);
    if i < q.len() {
        q.skip(i + 1).push(hit(q[i]))
    } else {
        Seq::<EntryView>::empty()
    }
}

/// The cache after a lookup of `key` at `now`. On a hit the entry that is
/// answered moves to the back of its queue with one more hit counted, the
/// expired entries before it are dropped, and the slot is touched. On a miss
/// the expired entries are dropped and the slot is not touched.
pub open spec fn after_get(c: CacheView, key: Seq<char>, now: u64) -> CacheView {
    if c.slots.contains_key(key) {
        let slot = c.slots[key];
        let next = SlotView {
            entries: queue_after_get(slot.entries, now, c.ttl),
            last_touch: if first_fresh(slot.entries, now, c.ttl) < slot.entries.len() {
                now
            } else {
                slot.last_touch
            },
        };
        CacheView { slots: c.slots.insert(key, next), ttl: c.ttl, capacity: c.capacity }
    } else {
        c
    }
}

/// The cache after `k` lookups of `key` in a row, all at `now`.
pub open spec fn after_gets(c: CacheView, key: Seq<char>, now: u64, k: nat) -> CacheView
    decreases k,
{
    if k == 0 {
        c
    } else {
        after_gets(after_get(c, key, now), key, now, (k - 1) as nat)
    }
}

/// Where the search for an entry that has not expired ends: at the first
/// such entry at or after `i`, having passed only expired entries.
pub proof fn lemma_first_fresh(q: Seq<EntryView>, i: int, now: u64, ttl: u64)
    requires
        0 <= i <= q.len(),
    ensures
        i <= first_fresh_from(q, i, now, ttl) <= q.len(),
        first_fresh_from(q, i, now, ttl) < q.len() ==> !expired(
            q[first_fresh_from(q, i, now, ttl)].created_at,
            now,
            ttl,
        ),
        forall|j: int|
            i <= j < first_fresh_from(q, i, now, ttl) ==> expired(
                (#[trigger] q[j]).created_at,
                now,
                ttl,
            ),
    decreases q.len() - i,
{
    if i < q.len() && expired(q[i].created_at, now, ttl) {
        lemma_first_fresh(q, i + 1, now, ttl);
    }
}

/// The last `n` items of a queue, or all of it if it has no more.
pub open spec fn keep_last(q: Seq<EntryView>, n: int) -> Seq<EntryView> {
    if q.len() > n {
        q.skip(q.len() - n)
    } else {
        q
    }
}

/// The cache after `response` is stored under `key` at `now`, before capacity
/// is enforced.
pub open spec fn after_insert(
    c: CacheView,
    key: Seq<char>,
    response: ChatCompletionResponseView,
    now: u64,
) -> CacheView {
    let queue = if c.slots.contains_key(key) {
        c.slots[key].entries
    } else {
        Seq::<EntryView>::empty()
    };
    let slot = SlotView {
        entries: keep_last(queue.push(new_entry(response, now)), MAX_RESPONSES_PER_KEY as int),
        last_touch: now,
    };
    CacheView { slots: c.slots.insert(key, slot), ttl: c.ttl, capacity: c.capacity }
}

/// Whether `after` is `before` with capacity enforced: nothing is touched
/// when `before` is within capacity; otherwise exactly the capacity is left,
/// what is left is unchanged, and nothing that was evicted was touched later
/// than anything that stayed.
pub open spec fn evicted(before: CacheView, after: CacheView) -> bool {
    &&& after.ttl == before.ttl
    &&& after.capacity == before.capacity
    &&& before.slots.dom().finite()
    &&& after.slots.dom().finite()
    &&& forall|k: Seq<char>| #[trigger]
        after.slots.contains_key(k) ==> before.slots.contains_key(k) && after.slots[k]
            == before.slots[k]
    &&& if before.slots.dom().len() <= before.capacity {
        after.slots == before.slots
    } else {
        after.slots.dom().len() == before.capacity
    }
    &&& forall|r: Seq<char>, k: Seq<char>|
        #![trigger before.slots.contains_key(r), after.slots.contains_key(k)]
        before.slots.contains_key(r) && !after.slots.contains_key(r) && after.slots.contains_key(k)
            ==> before.slots[r].last_touch <= before.slots[k].last_touch
}

/// The test that an entry passes when it has not expired at `now`.
pub open spec fn is_fresh(now: u64, ttl: u64) -> spec_fn(EntryView) -> bool {
    |e: EntryView| !expired(e.created_at, now, ttl)
}

/// A slot with its expired entries taken out.
pub open spec fn swept_slot(slot: SlotView, now: u64, ttl: u64) -> SlotView {
    SlotView { entries: slot.entries.filter(is_fresh(now, ttl)), last_touch: slot.last_touch }
}

/// The slots after the fingerprints in `done` have been swept: their expired
/// entries are gone, and so are those of them that had nothing else.
pub open spec fn swept_for(
    slots: Map<Seq<char>, SlotView>,
    done: Seq<Seq<char>>,
    now: u64,
    ttl: u64,
) -> Map<Seq<char>, SlotView> {
    Map::new(
        |k: Seq<char>|
            slots.contains_key(k) && (done.contains(k) ==> swept_slot(
                slots[k],
                now,
                ttl,
            ).entries.len() > 0),
        |k: Seq<char>|
            if done.contains(k) {
                swept_slot(slots[k], now, ttl)
            } else {
                slots[k]
            },
    )
}

/// The cache after the expiry sweep at `now`: every expired entry is gone,
/// and so is every fingerprint that has no entry left.
pub open spec fn after_sweep(c: CacheView, now: u64) -> CacheView {
    CacheView {
        slots: Map::new(
            |k: Seq<char>|
                c.slots.contains_key(k) && swept_slot(c.slots[k], now, c.ttl).entries.len() > 0,
            |k: Seq<char>| swept_slot(c.slots[k], now, c.ttl),
        ),
        ttl: c.ttl,
        capacity: c.capacity,
    }
}

/// Taking one name out of a list without repetitions leaves a list without
/// repetitions that holds the other names.
pub proof fn lemma_remove_listed(names: Seq<Seq<char>>, m: int)
    requires
        names.no_duplicates(),
        0 <= m < names.len(),
    ensures
        names.remove(m).no_duplicates(),
        forall|x: Seq<char>| names.remove(m).contains(x) <==> (names.contains(x) && x != names[m]),
{
    let rest = names.remove(m);
    assert forall|i: int, j: int| 0 <= i < rest.len() && 0 <= j < rest.len() && i != j implies rest[i]
        != rest[j] by {
        let a = if i < m {
            i
        } else {
            i + 1
        };
        let b = if j < m {
            j
        } else {
            j + 1
        };
        assert(rest[i] == names[a]);
        assert(rest[j] == names[b]);
    }
    assert forall|x: Seq<char>| rest.contains(x) <==> (names.contains(x) && x != names[m]) by {
        if rest.contains(x) {
            let i = choose|i: int| 0 <= i < rest.len() && rest[i] == x;
            let a = if i < m {
                i
            } else {
                i + 1
            };
            assert(names[a] == x);
        }
        if names.contains(x) && x != names[m] {
            let a = choose|a: int| 0 <= a < names.len() && names[a] == x;
            let i = if a < m {
                a
            } else {
                a - 1
            };
            assert(rest[i] == x);
        }
    }
}

/// The entries of a queue that have not expired at `now`, in order.
fn retain_fresh(entries: VecDeque<CacheEntry>, now: u64, ttl: u64) -> (r: VecDeque<CacheEntry>)
    ensures
        entry_views(r@) == entry_views(entries@).filter(is_fresh(now, ttl)),
{
    let mut entries = entries;
    let ghost orig = entry_views(entries@);
    let ghost keep = is_fresh(now, ttl);
    let mut kept: VecDeque<CacheEntry> = VecDeque::new();
    let n = entries.len();
    let mut i: usize = 0;
    proof {
        reveal(Seq::filter);
        assert(orig.take(0) == Seq::<EntryView>::empty());
        assert(orig.skip(0) == orig);
    }
    while i < n
        invariant
            i <= n,
            n == orig.len(),
            keep == is_fresh(now, ttl),
            entry_views(entries@) == orig.skip(i as int),
            entry_views(kept@) == orig.take(i as int).filter(keep),
        decreases n - i,
    {
        let ghost before = entry_views(kept@);
        let ghost queue = entry_views(entries@);
        proof {
            reveal(Seq::filter);
            assert(orig.take(i as int + 1).drop_last() == orig.take(i as int));
            assert(orig.take(i as int + 1).last() == orig[i as int]);
            assert(queue.len() == entries@.len());
        }
        match entries.pop_front() {
            Some(e) => {
                proof {
                    assert(e@ == queue[0]);
                    assert(entry_views(entries@) == queue.skip(1));
                    assert(queue.skip(1) == orig.skip(i as int + 1));
                }
                if !e.is_expired(now, ttl) {
                    kept.push_back(e);
                    proof {
                        assert(entry_views(kept@) == before.push(e@));
                    }
                }
            },
            None => {},
        }
        i += 1;
    }
    proof {
        assert(orig.take(n as int) == orig);
    }
    kept
}

/// Counts of what a cache holds.
#[derive(Debug, Clone, Copy, PartialEq, Eq, Structural)]
pub struct CacheStats {
    pub total_keys: usize,
    pub total_responses: usize,
    pub expired_entries: usize,
}

/// A number as a machine-sized count, held at the largest value.
pub open spec fn clamp_usize(n: nat) -> usize {
    if n > usize::MAX {
        usize::MAX
    } else {
        n as usize
    }
}

/// Whether `keys` lists the keys of `slots`, each once.
pub open spec fn lists_keys(keys: Seq<Seq<char>>, slots: Map<Seq<char>, SlotView>) -> bool {
    keys.no_duplicates() && forall|k: Seq<char>| slots.contains_key(k) <==> keys.contains(k)
}

/// How many entries of a queue have expired at `now`.
pub open spec fn expired_count(q: Seq<EntryView>, now: u64, ttl: u64) -> nat
    decreases q.len(),
{
    if q.len() == 0 {
        0
    } else {
        expired_count(q.drop_last(), now, ttl) + (if expired(q.last().created_at, now, ttl) {
            1nat
        } else {
            0nat
        })
    }
}

/// How many responses are kept under the fingerprints in `keys`.
pub open spec fn responses_in(slots: Map<Seq<char>, SlotView>, keys: Seq<Seq<char>>) -> nat
    decreases keys.len(),
{
    if keys.len() == 0 {
        0
    } else {
        responses_in(slots, keys.drop_last()) + slots[keys.last()].entries.len()
    }
}

/// How many responses kept under the fingerprints in `keys` have expired at
/// `now`.
pub open spec fn expired_in(
    slots: Map<Seq<char>, SlotView>,
    keys: Seq<Seq<char>>,
    now: u64,
    ttl: u64,
) -> nat
    decreases keys.len(),
{
    if keys.len() == 0 {
        0
    } else {
        expired_in(slots, keys.drop_last(), now, ttl) + expired_count(
            slots[keys.last()].entries,
            now,
            ttl,
        )
    }
}

/// How many entries of a queue have expired at `now`.
fn count_expired(entries: &VecDeque<CacheEntry>, now: u64, ttl: u64) -> (n: usize)
    ensures
        n == expired_count(entry_views(entries@), now, ttl),
        n <= entries@.len(),
{
    let mut n: usize = 0;
    let mut i: usize = 0;
    let ghost all = entry_views(entries@);
    proof {
        assert(all.take(0) == Seq::<EntryView>::empty());
    }
    while i < entries.len()
        invariant
            i <= entries.len(),
            all == entry_views(entries@),
            n <= i,
            n == expired_count(all.take(i as int), now, ttl),
        decreases entries.len() - i,
    {
        proof {
            assert(all.take(i as int + 1).drop_last() == all.take(i as int));
            assert(all.take(i as int + 1).last() == entries@[i as int]@);
        }
        if entries[i].is_expired(now, ttl) {
            n += 1;
        }
        i += 1;
    }
    proof {
        assert(all.take(entries.len() as int) == all);
    }
    n
}

/// The fingerprinted, bounded response cache.
pub struct ResponseCacheManager {
    ttl: u64,
    max_entries: usize,
    cache: DashMap<String, CacheSlot, RandomState>,
}

impl View for ResponseCacheManager {
    type V = CacheView;

    closed spec fn view(&self) -> CacheView {
        CacheView {
            slots: cache_map_view(self.cache),
            ttl: self.ttl,
            capacity: self.max_entries,
        }
    }
}

impl ResponseCacheManager {
    /// An empty cache with the time to live and the capacity of `settings`.
    pub fn new(settings: &Settings) -> (cache: Self)
        ensures
            cache@.slots == (Map::<Seq<char>, SlotView>::empty()),
            cache@.ttl == settings.cache_expiry_time,
            cache@.capacity == settings.max_cache_entries,
    {
        ResponseCacheManager {
            ttl: settings.cache_expiry_time,
            max_entries: settings.max_cache_entries,
            cache: cache_map_new(),
        }
    }

    /// Looks up the response cached under `cache_key`: the first entry of the
    /// queue that has not expired at `now` is answered, if there is one, and
    /// the expired entries that stood before it are dropped.
    pub fn get(&mut self, cache_key: &str, now: u64) -> (r: Option<ChatCompletionResponse>)
        ensures
            response_view(r) == lookup(old(self)@, cache_key@, now),
            final(self)@ == after_get(old(self)@, cache_key@, now),
    {
        let ghost start = self@;
        match cache_map_remove(&mut self.cache, cache_key) {
            None => {
                proof {
                    assert(self@.slots =~= start.slots);
                }
                None
            },
            Some(slot) => {
                let mut slot = slot;
                let ttl = self.ttl;
                let ghost queue = entry_views(slot.entries@);
                let ghost touch = slot.last_touch;
                let ghost first = first_fresh(queue, now, ttl);
                let ghost mut passed: int = 0;
                let mut found: Option<ChatCompletionResponse> = None;
                let mut done = false;
                proof {
                    assert(queue.skip(0) == queue);
                    lemma_first_fresh(queue, 0, now, ttl);
                }
                while !done
                    invariant
                        0 <= passed <= queue.len(),
                        first == first_fresh(queue, now, ttl),
                        !done ==> first_fresh_from(queue, passed, now, ttl) == first,
                        !done ==> entry_views(slot.entries@) == queue.skip(passed),
                        !done ==> slot.last_touch == touch,
                        !done ==> found is None,
                        done ==> entry_views(slot.entries@) == queue_after_get(queue, now, ttl),
                        done ==> slot.last_touch == (if first < queue.len() {
                            now
                        } else {
                            touch
                        }),
                        done ==> response_view(found) == (if first < queue.len() {
                            Some(queue[first].response)
                        } else {
                            None
                        }),
                    decreases
                            (if done {
                                0
                            } else {
                                1 + slot.entries@.len()
                            }),
                {
                    let ghost rest = entry_views(slot.entries@);
                    proof {
                        assert(rest.len() == slot.entries@.len());
                    }
                    match slot.entries.pop_front() {
                        None => {
                            proof {
                                assert(passed == queue.len());
                                assert(first == queue.len());
                                assert(entry_views(slot.entries@) == Seq::<EntryView>::empty());
                            }
                            done = true;
                        },
                        Some(entry) => {
                            let mut entry = entry;
                            proof {
                                assert(entry@ == rest[0]);
                                assert(rest[0] == queue[passed]);
                                assert(entry_views(slot.entries@) == rest.skip(1));
                                assert(rest.skip(1) == queue.skip(passed + 1));
                            }
                            if entry.is_expired(now, ttl) {
                                proof {
                                    passed = passed + 1;
                                }
                            } else {
                                proof {
                                    assert(first == passed);
                                }
                                entry.access();
                                found = Some(entry.response.duplicate());
                                slot.entries.push_back(entry);
                                slot.last_touch = now;
                                proof {
                                    assert(entry_views(slot.entries@) == queue.skip(
                                        passed + 1,
                                    ).push(hit(queue[passed])));
                                }
                                done = true;
                            }
                        },
                    }
                }
                cache_map_insert(&mut self.cache, cache_key.to_string(), slot);
                proof {
                    assert(self@.slots =~= after_get(start, cache_key@, now).slots);
                }
                found
            },
        }
    }

    /// Stores `response` under `cache_key` and enforces capacity. The queue
    /// under one fingerprint holds at most the three latest responses.
    pub fn put(&mut self, cache_key: String, response: ChatCompletionResponse, now: u64)
        ensures
            evicted(after_insert(old(self)@, cache_key@, response@, now), final(self)@),
    {
        let ghost start = self@;
        let mut slot = match cache_map_remove(&mut self.cache, cache_key.as_str()) {
            Some(s) => s,
            None => CacheSlot { entries: VecDeque::new(), last_touch: now },
        };
        let ghost queue = if start.slots.contains_key(cache_key@) {
            start.slots[cache_key@].entries
        } else {
            Seq::<EntryView>::empty()
        };
        proof {
            assert(entry_views(slot.entries@) == queue);
        }
        slot.entries.push_back(CacheEntry::new(response, now));
        let ghost grown = queue.push(new_entry(response@, now));
        proof {
            assert(entry_views(slot.entries@) == grown);
        }
        while slot.entries.len() > MAX_RESPONSES_PER_KEY
            invariant
                entry_views(slot.entries@).len() <= grown.len(),
                grown.len() > MAX_RESPONSES_PER_KEY ==> entry_views(slot.entries@).len()
                    >= MAX_RESPONSES_PER_KEY,
                grown.len() <= MAX_RESPONSES_PER_KEY ==> entry_views(slot.entries@).len()
                    == grown.len(),
                entry_views(slot.entries@) == grown.skip(
                    grown.len() - entry_views(slot.entries@).len(),
                ),
                slot.entries@.len() == entry_views(slot.entries@).len(),
            decreases slot.entries@.len(),
        {
            let ghost current = entry_views(slot.entries@);
            slot.entries.pop_front();
            proof {
                assert(entry_views(slot.entries@) == current.skip(1));
                assert(current.skip(1) == grown.skip(grown.len() - (current.len() - 1)));
            }
        }
        proof {
            if grown.len() <= MAX_RESPONSES_PER_KEY {
                assert(grown.skip(0) == grown);
            }
            assert(entry_views(slot.entries@) == keep_last(grown, MAX_RESPONSES_PER_KEY as int));
        }
        slot.last_touch = now;
        cache_map_insert(&mut self.cache, cache_key, slot);
        proof {
            assert(self@.slots =~= after_insert(start, cache_key@, response@, now).slots);
        }
        self.enforce_size_limit();
    }

    /// How many fingerprints the cache holds.
    pub fn size(&self) -> (n: usize)
        ensures
            self@.slots.dom().finite(),
            n == self@.slots.dom().len(),
    {
        cache_map_len(&self.cache)
    }

    /// Forgets everything.
    pub fn clear(&mut self)
        ensures
            final(self)@.slots == (Map::<Seq<char>, SlotView>::empty()),
            final(self)@.ttl == old(self)@.ttl,
            final(self)@.capacity == old(self)@.capacity,
    {
        cache_map_clear(&mut self.cache);
    }

    /// The expiry sweep: drops every entry that has expired at `now`, and
    /// every fingerprint that has no entry left.
    pub fn cleanup_expired(&mut self, now: u64)
        ensures
            final(self)@ == after_sweep(old(self)@, now),
    {
        let ghost start = self@.slots;
        let ghost ttl = self.ttl;
        let touches = cache_map_touches(&self.cache);
        let ghost names = views(firsts(touches@));
        let mut i: usize = 0;
        proof {
            assert(names.take(0) == Seq::<Seq<char>>::empty());
            assert(start =~= swept_for(start, names.take(0), now, ttl));
        }
        while i < touches.len()
            invariant
                i <= touches.len(),
                names == views(firsts(touches@)),
                lists_domain(firsts(touches@), start),
                ttl == self.ttl,
                self.ttl == old(self).ttl,
                self.max_entries == old(self).max_entries,
                cache_map_view(self.cache) == swept_for(start, names.take(i as int), now, ttl),
            decreases touches.len() - i,
        {
            let ghost done = names.take(i as int);
            let ghost current = cache_map_view(self.cache);
            let ghost ki = touches@[i as int].0@;
            proof {
                assert(names[i as int] == ki);
                assert(names.contains(ki));
                assert(start.contains_key(ki));
                assert(!done.contains(ki)) by {
                    if done.contains(ki) {
                        let j = choose|j: int| 0 <= j < done.len() && done[j] == ki;
                        assert(names[j] == ki);
                    }
                }
                assert(names.take(i as int + 1) == done.push(ki));
                assert forall|x: Seq<char>| done.push(ki).contains(x) <==> (done.contains(x) || x
                    == ki) by {
                    lemma_push_contains(done, ki, x);
                }
            }
            match cache_map_remove(&mut self.cache, touches[i].0.as_str()) {
                Some(slot) => {
                    let last_touch = slot.last_touch;
                    let entries = retain_fresh(slot.entries, now, self.ttl);
                    if entries.len() > 0 {
                        let kept = CacheSlot { entries, last_touch };
                        proof {
                            assert(kept@ == swept_slot(start[ki], now, ttl));
                        }
                        cache_map_insert(&mut self.cache, touches[i].0.clone(), kept);
                    } else {
                        proof {
                            assert(swept_slot(start[ki], now, ttl).entries.len() == 0);
                        }
                    }
                },
                None => {},
            }
            proof {
                assert(cache_map_view(self.cache) =~= swept_for(start, done.push(ki), now, ttl));
            }
            i += 1;
        }
        proof {
            assert(names.take(touches.len() as int) == names);
            assert(cache_map_view(self.cache) =~= after_sweep(old(self)@, now).slots);
        }
    }

    /// How many fingerprints and responses the cache holds, and how many of
    /// the responses have expired at `now`. The cache is left as it was.
    pub fn get_stats(&mut self, now: u64) -> (stats: CacheStats)
        ensures
            final(self)@ == old(self)@,
            exists|keys: Seq<Seq<char>>| #[trigger]
                lists_keys(keys, old(self)@.slots) && stats.total_keys == keys.len()
                    && stats.total_responses == clamp_usize(responses_in(old(self)@.slots, keys))
                    && stats.expired_entries == clamp_usize(
                    expired_in(old(self)@.slots, keys, now, old(self)@.ttl),
                ),
    {
        let ghost start = self@.slots;
        let ghost ttl = self.ttl;
        let touches = cache_map_touches(&self.cache);
        let ghost names = views(firsts(touches@));
        let mut total_responses: usize = 0;
        let mut expired_entries: usize = 0;
        let mut i: usize = 0;
        proof {
            assert(names.take(0) == Seq::<Seq<char>>::empty());
        }
        while i < touches.len()
            invariant
                i <= touches.len(),
                names == views(firsts(touches@)),
                lists_domain(firsts(touches@), start),
                ttl == self.ttl,
                self.ttl == old(self).ttl,
                self.max_entries == old(self).max_entries,
                cache_map_view(self.cache) == start,
                total_responses == clamp_usize(responses_in(start, names.take(i as int))),
                expired_entries == clamp_usize(expired_in(start, names.take(i as int), now, ttl)),
            decreases touches.len() - i,
        {
            let ghost ki = touches@[i as int].0@;
            proof {
                assert(names[i as int] == ki);
                assert(names.contains(ki));
                assert(names.take(i as int + 1).drop_last() == names.take(i as int));
                assert(names.take(i as int + 1).last() == ki);
            }
            match cache_map_remove(&mut self.cache, touches[i].0.as_str()) {
                Some(slot) => {
                    let count = slot.entries.len();
                    let stale = count_expired(&slot.entries, now, self.ttl);
                    total_responses = if total_responses > usize::MAX - count {
                        usize::MAX
                    } else {
                        total_responses + count
                    };
                    expired_entries = if expired_entries > usize::MAX - stale {
                        usize::MAX
                    } else {
                        expired_entries + stale
                    };
                    proof {
                        assert(slot@ == start[ki]);
                        assert(entry_views(slot.entries@).len() == slot.entries@.len());
                    }
                    cache_map_insert(&mut self.cache, touches[i].0.clone(), slot);
                    proof {
                        assert(cache_map_view(self.cache) =~= start);
                    }
                },
                None => {},
            }
            i += 1;
        }
        proof {
            assert(names.take(touches.len() as int) == names);
            assert(lists_keys(names, start));
        }
        CacheStats { total_keys: touches.len(), total_responses, expired_entries }
    }

    /// How many responses in the cache have expired at `now`.
    pub fn count_expired_entries(&mut self, now: u64) -> (n: usize)
        ensures
            final(self)@ == old(self)@,
            exists|keys: Seq<Seq<char>>| #[trigger]
                lists_keys(keys, old(self)@.slots) && n == clamp_usize(
                    expired_in(old(self)@.slots, keys, now, old(self)@.ttl),
                ),
    {
        let ghost start = self@.slots;
        let stats = self.get_stats(now);
        proof {
            let keys = choose|keys: Seq<Seq<char>>| #[trigger]
                lists_keys(keys, start) && stats.total_keys == keys.len() && stats.total_responses
                    == clamp_usize(responses_in(start, keys)) && stats.expired_entries
                    == clamp_usize(expired_in(start, keys, now, self@.ttl));
            assert(lists_keys(keys, start));
        }
        stats.expired_entries
    }

    /// Capacity enforcement: while the cache holds more fingerprints than its
    /// capacity, the one touched longest ago is evicted.
    pub fn enforce_size_limit(&mut self)
        ensures
            evicted(old(self)@, final(self)@),
    {
        let ghost start = self@.slots;
        let n = cache_map_len(&self.cache);
        if n <= self.max_entries {
            return ;
        }
        let excess: usize = n - self.max_entries;
        let mut touches = cache_map_touches(&self.cache);
        proof {
            lemma_listed_domain(firsts(touches@), start);
        }
        let mut k: usize = 0;
        while k < excess
            invariant
                k <= excess,
                excess == n - self.max_entries,
                n == start.dom().len(),
                start.dom().finite(),
                self.ttl == old(self).ttl,
                self.max_entries == old(self).max_entries,
                touches@.len() == n - k,
                lists_domain(firsts(touches@), cache_map_view(self.cache)),
                forall|i: int|
                    0 <= i < touches@.len() ==> (#[trigger] touches@[i]).1 == cache_map_view(
                        self.cache,
                    )[touches@[i].0@].last_touch,
                forall|x: Seq<char>| #[trigger]
                    cache_map_view(self.cache).contains_key(x) ==> start.contains_key(x)
                        && cache_map_view(self.cache)[x] == start[x],
                forall|r: Seq<char>, x: Seq<char>|
                    #![trigger start.contains_key(r), cache_map_view(self.cache).contains_key(x)]
                    start.contains_key(r) && !cache_map_view(self.cache).contains_key(r)
                        && cache_map_view(self.cache).contains_key(x) ==> start[r].last_touch
                        <= start[x].last_touch,
            decreases excess - k,
        {
            let ghost current = cache_map_view(self.cache);
            let ghost listed = touches@;
            let ghost names = views(firsts(touches@));
            let mut m: usize = 0;
            let mut j: usize = 1;
            while j < touches.len()
                invariant
                    1 <= j <= touches.len(),
                    m < j,
                    forall|i: int| 0 <= i < j ==> touches@[m as int].1 <= (#[trigger] touches@[i]).1,
                decreases touches.len() - j,
            {
                if touches[j].1 < touches[m].1 {
                    m = j;
                }
                j += 1;
            }
            let oldest = touches.remove(m);
            cache_map_remove(&mut self.cache, oldest.0.as_str());
            proof {
                let gone = oldest.0@;
                let left = cache_map_view(self.cache);
                assert(names[m as int] == gone);
                assert(names.contains(gone));
                assert(left == current.remove(gone));
                assert(views(firsts(touches@)) == names.remove(m as int));
                lemma_remove_listed(names, m as int);
                assert forall|x: Seq<char>| left.contains_key(x) <==> names.remove(
                    m as int,
                ).contains(x) by {
                    assert(current.contains_key(x) <==> names.contains(x));
                }
                assert(lists_domain(firsts(touches@), left));
                assert forall|i: int| 0 <= i < touches@.len() implies (#[trigger] touches@[i]).1
                    == left[touches@[i].0@].last_touch by {
                    let a = if i < m {
                        i
                    } else {
                        i + 1
                    };
                    assert(touches@[i] == listed[a]);
                    assert(names[a] == listed[a].0@);
                    assert(names.remove(m as int)[i] == names[a]);
                    assert(views(firsts(touches@)).contains(names[a]));
                }
                assert forall|r: Seq<char>, x: Seq<char>|
                    #![trigger start.contains_key(r), left.contains_key(x)]
                    start.contains_key(r) && !left.contains_key(r) && left.contains_key(
                        x,
                    ) implies start[r].last_touch <= start[x].last_touch by {
                    assert(current.contains_key(x));
                    if current.contains_key(r) {
                        assert(r == gone);
                        assert(names.contains(x));
                        let a = choose|a: int| 0 <= a < names.len() && names[a] == x;
                        assert(listed[a].0@ == x);
                        assert(listed[m as int].1 <= listed[a].1);
                        assert(listed[a].1 == current[x].last_touch);
                        assert(listed[m as int].1 == current[gone].last_touch);
                    }
                }
            }
            k += 1;
        }
        proof {
            lemma_listed_domain(firsts(touches@), cache_map_view(self.cache));
        }
    }
}

/// What `xxhash_rust::xxh3::xxh3_64` makes of a run of bytes.
pub uninterp spec fn xxh3_64_of(bytes: Seq<u8>) -> u64;

/// Calls `xxhash_rust::xxh3::xxh3_64`: the 64-bit XXH3 hash of `bytes` with
/// the default seed and secret, a function of the bytes alone.
#[verifier::external_body]
pub(crate) fn xxh3_64(bytes: &[u8]) -> (h: u64)
    ensures
        h == xxh3_64_of(bytes@),
{
    xxhash_rust::xxh3::xxh3_64(bytes)
}

/// What `serde_json::to_string` makes of a string: its JSON string literal,
/// quoted and escaped.
pub uninterp spec fn json_string_of(s: Seq<char>) -> Seq<char>;

/// Calls `serde_json::to_string` on a string, which writes it as a JSON
/// string literal and cannot fail.
#[verifier::external_body]
pub(crate) fn json_string(s: &str) -> (r: String)
    ensures
        r@ == json_string_of(s@),
{
    serde_json::to_string(s).unwrap_or_default()
}

/// The lower-case hexadecimal digit for `d`.
pub open spec fn hex_digit(d: int) -> char {
    if d == 0 {
        '0'
    } else if d == 1 {
        '1'
    } else if d == 2 {
        '2'
    } else if d == 3 {
        '3'
    } else if d == 4 {
        '4'
    } else if d == 5 {
        '5'
    } else if d == 6 {
        '6'
    } else if d == 7 {
        '7'
    } else if d == 8 {
        '8'
    } else if d == 9 {
        '9'
    } else if d == 10 {
        'a'
    } else if d == 11 {
        'b'
    } else if d == 12 {
        'c'
    } else if d == 13 {
        'd'
    } else if d == 14 {
        'e'
    } else {
        'f'
    }
}

/// `n` in lower-case hexadecimal, without leading zeros.
pub open spec fn hex_lower(n: nat) -> Seq<char>
    decreases n,
{
    if n < 16 {
        seq![hex_digit(n as int)]
    } else {
        hex_lower(n / 16).push(hex_digit((n % 16) as int))
    }
}

fn hex_digit_char(d: u64) -> (c: char)
    requires
        d < 16,
    ensures
        c == hex_digit(d as int),
{
    if d == 0 {
        '0'
    } else if d == 1 {
        '1'
    } else if d == 2 {
        '2'
    } else if d == 3 {
        '3'
    } else if d == 4 {
        '4'
    } else if d == 5 {
        '5'
    } else if d == 6 {
        '6'
    } else if d == 7 {
        '7'
    } else if d == 8 {
        '8'
    } else if d == 9 {
        '9'
    } else if d == 10 {
        'a'
    } else if d == 11 {
        'b'
    } else if d == 12 {
        'c'
    } else if d == 13 {
        'd'
    } else if d == 14 {
        'e'
    } else {
        'f'
    }
}

/// Appends `n` in lower-case hexadecimal to `out`.
pub fn push_hex(n: u64, out: &mut Vec<char>)
    ensures
        final(out)@ == old(out)@ + hex_lower(n as nat),
    decreases n,
{
    if n >= 16 {
        push_hex(n / 16, out);
    }
    out.push(hex_digit_char(n % 16));
}

/// The messages that count for the fingerprint: all of them in precise mode,
/// the last `entries` of them otherwise.
pub open spec fn message_window(messages: Seq<Seq<char>>, entries: usize, precise: bool) -> Seq<
    Seq<char>,
> {
    if precise || messages.len() <= entries {
        messages
    } else {
        messages.skip(messages.len() - entries)
    }
}

/// The JSON object that is hashed: the window and the model.
pub open spec fn hash_input(window: Seq<Seq<char>>, model: Seq<char>) -> Seq<char> {
    "{\"messages\":["@ + join(window, ","@) + "],\"model\":"@ + json_string_of(model) + "}"@
}

/// The fingerprint of a request: the model, an underscore, and the XXH3 hash
/// of the hashed object in hexadecimal. Each message is given as its JSON
/// text.
pub open spec fn cache_key_of(
    messages: Seq<Seq<char>>,
    model: Seq<char>,
    entries: usize,
    precise: bool,
) -> Seq<char> {
    model + "_"@ + hex_lower(
        xxh3_64_of(
            vstd::utf8::encode_utf8(hash_input(message_window(messages, entries, precise), model)),
        ) as nat,
    )
}

/// Computes the fingerprint under which a request is cached. `messages`
/// holds the JSON text of each message of the conversation, in order.
pub fn generate_cache_key(
    messages: &[String],
    model: &str,
    calculate_entries: usize,
    precise: bool,
) -> (key: String)
    ensures
        key@ == cache_key_of(views(messages@), model@, calculate_entries, precise),
{
    let start: usize = if precise || messages.len() <= calculate_entries {
        0
    } else {
        messages.len() - calculate_entries
    };
    let ghost window = message_window(views(messages@), calculate_entries, precise);
    proof {
        assert(views(messages@).skip(0) == views(messages@));
        assert(window == views(messages@).skip(start as int));
    }
    let mut parts: Vec<Vec<char>> = Vec::new();
    let mut i: usize = start;
    while i < messages.len()
        invariant
            start <= i <= messages.len(),
            crate::utils::text::char_views(parts@) == views(messages@).subrange(
                start as int,
                i as int,
            ),
        decreases messages.len() - i,
    {
        let ghost before = crate::utils::text::char_views(parts@);
        parts.push(chars_of(messages[i].as_str()));
        proof {
            assert(crate::utils::text::char_views(parts@) == before.push(messages@[i as int]@));
        }
        i += 1;
    }
    proof {
        assert(views(messages@).subrange(start as int, messages.len() as int) == window);
    }
    let comma = chars_of(",");
    let joined = join_chars(&parts, comma.as_slice());
    let mut payload: Vec<char> = Vec::new();
    append_str(&mut payload, "{\"messages\":[");
    append_chars(&mut payload, joined.as_slice());
    append_str(&mut payload, "],\"model\":");
    let quoted = json_string(model);
    append_str(&mut payload, quoted.as_str());
    append_str(&mut payload, "}");
    proof {
        assert(payload@ == hash_input(window, model@));
    }
    let text = string_of(payload.as_slice());
    let hash = xxh3_64(text.as_str().as_bytes());
    let mut key: Vec<char> = chars_of(model);
    append_str(&mut key, "_");
    push_hex(hash, &mut key);
    string_of(key.as_slice())
}

/// Fingerprint purity. The fingerprint depends on nothing but the model, the
/// precision mode and the messages in the window: two requests that agree on
/// these have the same fingerprint, whatever their earlier messages were.
pub proof fn lemma_fingerprint_purity(
    first: Seq<Seq<char>>,
    second: Seq<Seq<char>>,
    model: Seq<char>,
    entries: usize,
    precise: bool,
)
    requires
        message_window(first, entries, precise) == message_window(second, entries, precise),
    ensures
        cache_key_of(first, model, entries, precise) == cache_key_of(
            second,
            model,
            entries,
            precise,
        ),
{
}

/// Capacity convergence. Enforcing capacity leaves no more fingerprints than
/// the capacity, and the expiry sweep never adds one; so after any stores
/// followed by a sweep the cache is within its capacity.
pub proof fn lemma_capacity_convergence(before: CacheView, after: CacheView, now: u64)
    requires
        evicted(before, after),
    ensures
        after.slots.dom().len() <= after.capacity,
        after_sweep(after, now).slots.dom().finite(),
        after_sweep(after, now).slots.dom().len() <= after.capacity,
{
    let swept = after_sweep(after, now).slots;
    assert(swept.dom().subset_of(after.slots.dom()));
    vstd::set_lib::lemma_len_subset(swept.dom(), after.slots.dom());
}

/// Every response that has not expired can be had. An entry at place `p` of
/// the queue that has not expired at `now` is answered by a lookup at `now`
/// after at most `p` lookups before it: each of those answers an entry that
/// stood before it, or drops expired ones, and brings it nearer the head.
pub proof fn lemma_fresh_entry_is_reached(c: CacheView, key: Seq<char>, p: int, now: u64)
    requires
        c.slots.contains_key(key),
        0 <= p < c.slots[key].entries.len(),
        !expired(c.slots[key].entries[p].created_at, now, c.ttl),
    ensures
        lookup(c, key, now) is Some,
        first_fresh(c.slots[key].entries, now, c.ttl) <= p,
        exists|k: nat|
            k <= p && lookup(#[trigger] after_gets(c, key, now, k), key, now) == Some(
                c.slots[key].entries[p].response,
            ),
    decreases p,
{
    let q = c.slots[key].entries;
    let i = first_fresh(q, now, c.ttl);
    lemma_first_fresh(q, 0, now, c.ttl);
    if i == p {
        assert(after_gets(c, key, now, 0) == c);
    } else {
        let next = after_get(c, key, now);
        let moved = q.skip(i + 1).push(hit(q[i]));
        assert(next.slots[key].entries == moved);
        assert(moved[p - i - 1] == q[p]);
        lemma_fresh_entry_is_reached(next, key, p - i - 1, now);
        let k = choose|k: nat|
            k <= p - i - 1 && lookup(#[trigger] after_gets(next, key, now, k), key, now) == Some(
                q[p].response,
            );
        assert(after_gets(c, key, now, k + 1) == after_gets(next, key, now, k));
    }
}

/// Time-to-live boundary. A response stored at `t0` stands last in the queue
/// of its fingerprint. While `now` is not before `t0` and no more than the
/// time to live after it, lookups at `now` hit, and the response is answered
/// after fewer lookups than the queue is long; it is answered at once where
/// every older entry has expired. Outside that span no lookup answers from
/// the stored entry, and a lookup answers nothing at all where nothing under
/// the fingerprint was stored later than `t0`.
pub proof fn lemma_ttl_boundary(
    c: CacheView,
    key: Seq<char>,
    response: ChatCompletionResponseView,
    t0: u64,
    now: u64,
)
    ensures
        ({
            let stored = after_insert(c, key, response, t0);
            let queue = stored.slots[key].entries;
            let within = t0 <= now && now - t0 <= c.ttl * 1000;
            &&& stored.slots.contains_key(key)
            &&& 0 < queue.len() <= MAX_RESPONSES_PER_KEY
            &&& queue.last() == new_entry(response, t0)
            &&& within ==> lookup(stored, key, now) is Some
            &&& within ==> exists|k: nat|
                k < queue.len() && lookup(#[trigger] after_gets(stored, key, now, k), key, now)
                    == Some(response)
            &&& within && (forall|j: int|
                0 <= j < queue.len() - 1 ==> expired((#[trigger] queue[j]).created_at, now, c.ttl))
                ==> lookup(stored, key, now) == Some(response)
            &&& !within ==> first_fresh(queue, now, c.ttl) != queue.len() - 1
            &&& (t0 <= now && !within && forall|j: int|
                0 <= j < queue.len() ==> (#[trigger] queue[j]).created_at <= t0) ==> lookup(
                stored,
                key,
                now,
            ) is None
        }),
{
    let stored = after_insert(c, key, response, t0);
    let queue = stored.slots[key].entries;
    let old_queue = if c.slots.contains_key(key) {
        c.slots[key].entries
    } else {
        Seq::<EntryView>::empty()
    };
    let grown = old_queue.push(new_entry(response, t0));
    assert(queue == keep_last(grown, MAX_RESPONSES_PER_KEY as int));
    assert(queue.last() == grown.last());
    lemma_first_fresh(queue, 0, now, c.ttl);
    if t0 <= now && now - t0 <= c.ttl * 1000 {
        lemma_fresh_entry_is_reached(stored, key, queue.len() - 1, now);
    }
}

/// A lookup never answers an entry that has expired: what it answers is the
/// response of the first entry in the queue that has not expired, and every
/// entry before that one has.
pub proof fn lemma_never_stale(c: CacheView, key: Seq<char>, now: u64)
    requires
        lookup(c, key, now) is Some,
    ensures
        c.slots.contains_key(key),
        ({
            let queue = c.slots[key].entries;
            let i = first_fresh(queue, now, c.ttl);
            &&& 0 <= i < queue.len()
            &&& !expired(queue[i].created_at, now, c.ttl)
            &&& lookup(c, key, now) == Some(queue[i].response)
            &&& forall|j: int| 0 <= j < i ==> expired((#[trigger] queue[j]).created_at, now, c.ttl)
        }),
{
    lemma_first_fresh(c.slots[key].entries, 0, now, c.ttl);
}

} // verus!
