//! Contracts for the concurrent maps that hold per-key state.
//!
//! The maps are `dashmap::DashMap`s keyed by strings. Nothing inside them is
//! visible to the verifier; each kind of map has a name for the mapping it
//! holds, and the functions here say what the map's methods do to that
//! mapping. They are believed, not proved. Every function that changes a map
//! takes it by unique reference, so that no other handle is at work meanwhile.

use crate::utils::api_key::ApiKeyStats;
use crate::utils::cache::{CacheSlot, SlotView};
use crate::utils::stats::ModelCounters;
use crate::utils::text::views;
use dashmap::DashMap;
use std::hash::RandomState;
use vstd::prelude::*;

verus! {

#[verifier::external_type_specification]
#[verifier::external_body]
#[verifier::reject_recursive_types(K)]
#[verifier::reject_recursive_types(V)]
#[verifier::reject_recursive_types(S)]
pub struct ExDashMap<K, V, S>(DashMap<K, V, S>);

/// Whether `keys` lists the domain of a mapping, each key once.
pub open spec fn lists_domain<V>(keys: Seq<String>, m: Map<Seq<char>, V>) -> bool {
    &&& views(keys).no_duplicates()
    &&& forall|k: Seq<char>| m.contains_key(k) <==> views(keys).contains(k)
}

/// Whether a mapping has exactly `n` keys.
pub open spec fn counts_domain<V>(n: usize, m: Map<Seq<char>, V>) -> bool {
    m.dom().finite() && m.dom().len() == n
}

/// The keys of a list of keys paired with stamps.
pub open spec fn firsts(pairs: Seq<(String, u64)>) -> Seq<String> {
    pairs.map_values(|e: (String, u64)| e.0)
}

/// A mapping whose domain is listed is finite, and as large as the list is
/// long.
pub proof fn lemma_listed_domain<V>(keys: Seq<String>, m: Map<Seq<char>, V>)
    requires
        lists_domain(keys, m),
    ensures
        m.dom().finite(),
        m.dom().len() == keys.len(),
{
    let names = views(keys);
    assert(names.no_duplicates());
    assert(names.len() == keys.len());
    names.unique_seq_to_set();
    assert(m.dom() =~= names.to_set()) by {
        assert forall|k: Seq<char>| m.dom().contains(k) <==> names.to_set().contains(k) by {
            assert(m.contains_key(k) <==> names.contains(k));
        }
    }
    vstd::seq_lib::seq_to_set_is_finite(names);
}

/// The mapping from credential to its statistics that a map holds.
pub uninterp spec fn key_stats_view(m: DashMap<String, ApiKeyStats, RandomState>) -> Map<
    Seq<char>,
    ApiKeyStats,
>;

/// `DashMap::new`: a fresh map holds nothing.
#[verifier::external_body]
pub(crate) fn key_stats_new() -> (m: DashMap<String, ApiKeyStats, RandomState>)
    ensures
        key_stats_view(m) == (Map::<Seq<char>, ApiKeyStats>::empty()),
{
    DashMap::new()
}

/// `DashMap::get`: a copy of what `key` is bound to, if it is bound.
#[verifier::external_body]
pub(crate) fn key_stats_get(m: &DashMap<String, ApiKeyStats, RandomState>, key: &str) -> (r: Option<
    ApiKeyStats,
>)
    ensures
        r == (if key_stats_view(*m).contains_key(key@) {
            Some(key_stats_view(*m)[key@])
        } else {
            None
        }),
{
    m.get(key).map(|e| *e.value())
}

/// `DashMap::insert`: binds `key` to `value`, in place of an earlier binding.
#[verifier::external_body]
pub(crate) fn key_stats_insert(
    m: &mut DashMap<String, ApiKeyStats, RandomState>,
    key: String,
    value: ApiKeyStats,
)
    ensures
        key_stats_view(*final(m)) == key_stats_view(*old(m)).insert(key@, value),
{
    m.insert(key, value);
}

/// `DashMap::remove`: unbinds `key`.
#[verifier::external_body]
pub(crate) fn key_stats_remove(m: &mut DashMap<String, ApiKeyStats, RandomState>, key: &str)
    ensures
        key_stats_view(*final(m)) == key_stats_view(*old(m)).remove(key@),
{
    m.remove(key);
}

/// `DashMap::iter`: walks every binding once, in no particular order; the
/// keys are collected as they come.
#[verifier::external_body]
pub(crate) fn key_stats_keys(m: &DashMap<String, ApiKeyStats, RandomState>) -> (r: Vec<String>)
    ensures
        lists_domain(r@, key_stats_view(*m)),
{
    m.iter().map(|e| e.key().clone()).collect()
}

/// The mapping from fingerprint to its cached responses that a map holds.
pub uninterp spec fn cache_map_view(m: DashMap<String, CacheSlot, RandomState>) -> Map<
    Seq<char>,
    SlotView,
>;

/// `DashMap::new`: a fresh map holds nothing.
#[verifier::external_body]
pub(crate) fn cache_map_new() -> (m: DashMap<String, CacheSlot, RandomState>)
    ensures
        cache_map_view(m) == (Map::<Seq<char>, SlotView>::empty()),
{
    DashMap::new()
}

/// `DashMap::insert`: binds `key` to `value`, in place of an earlier binding.
#[verifier::external_body]
pub(crate) fn cache_map_insert(
    m: &mut DashMap<String, CacheSlot, RandomState>,
    key: String,
    value: CacheSlot,
)
    ensures
        cache_map_view(*final(m)) == cache_map_view(*old(m)).insert(key@, value@),
{
    m.insert(key, value);
}

/// `DashMap::remove`: unbinds `key` and hands out what it was bound to.
#[verifier::external_body]
pub(crate) fn cache_map_remove(m: &mut DashMap<String, CacheSlot, RandomState>, key: &str) -> (r:
    Option<CacheSlot>)
    ensures
        cache_map_view(*final(m)) == cache_map_view(*old(m)).remove(key@),
        match r {
            Some(v) => cache_map_view(*old(m)).contains_key(key@) && v@ == cache_map_view(
                *old(m),
            )[key@],
            None => !cache_map_view(*old(m)).contains_key(key@),
        },
{
    m.remove(key).map(|kv| kv.1)
}

/// `DashMap::len`: the number of bindings.
#[verifier::external_body]
pub(crate) fn cache_map_len(m: &DashMap<String, CacheSlot, RandomState>) -> (n: usize)
    ensures
        counts_domain(n, cache_map_view(*m)),
{
    m.len()
}

/// `DashMap::clear`: unbinds every key.
#[verifier::external_body]
pub(crate) fn cache_map_clear(m: &mut DashMap<String, CacheSlot, RandomState>)
    ensures
        cache_map_view(*final(m)) == (Map::<Seq<char>, SlotView>::empty()),
{
    m.clear();
}

/// `DashMap::iter`: walks every binding once, in no particular order; each
/// key is collected with the last-touch stamp of its slot.
#[verifier::external_body]
pub(crate) fn cache_map_touches(m: &DashMap<String, CacheSlot, RandomState>) -> (r: Vec<
    (String, u64),
>)
    ensures
        lists_domain(firsts(r@), cache_map_view(*m)),
        forall|i: int|
            0 <= i < r@.len() ==> (#[trigger] r@[i]).1 == cache_map_view(*m)[r@[i].0@].last_touch,
{
    m.iter().map(|e| (e.key().clone(), e.value().last_touch)).collect()
}

/// The mapping from model name to its counters that a map holds.
pub uninterp spec fn model_map_view(m: DashMap<String, ModelCounters, RandomState>) -> Map<
    Seq<char>,
    ModelCounters,
>;

/// `DashMap::new`: a fresh map holds nothing.
#[verifier::external_body]
pub(crate) fn model_map_new() -> (m: DashMap<String, ModelCounters, RandomState>)
    ensures
        model_map_view(m) == (Map::<Seq<char>, ModelCounters>::empty()),
{
    DashMap::new()
}

/// `DashMap::get`: a copy of what `key` is bound to, if it is bound.
#[verifier::external_body]
pub(crate) fn model_map_get(m: &DashMap<String, ModelCounters, RandomState>, key: &str) -> (r:
    Option<ModelCounters>)
    ensures
        r == (if model_map_view(*m).contains_key(key@) {
            Some(model_map_view(*m)[key@])
        } else {
            None
        }),
{
    m.get(key).map(|e| *e.value())
}

/// `DashMap::insert`: binds `key` to `value`, in place of an earlier binding.
#[verifier::external_body]
pub(crate) fn model_map_insert(
    m: &mut DashMap<String, ModelCounters, RandomState>,
    key: String,
    value: ModelCounters,
)
    ensures
        model_map_view(*final(m)) == model_map_view(*old(m)).insert(key@, value),
{
    m.insert(key, value);
}

/// `DashMap::clear`: unbinds every key.
#[verifier::external_body]
pub(crate) fn model_map_clear(m: &mut DashMap<String, ModelCounters, RandomState>)
    ensures
        model_map_view(*final(m)) == (Map::<Seq<char>, ModelCounters>::empty()),
{
    m.clear();
}

/// `DashMap::iter`: walks every binding once, in no particular order; the
/// keys are collected as they come.
#[verifier::external_body]
pub(crate) fn model_map_keys(m: &DashMap<String, ModelCounters, RandomState>) -> (r: Vec<String>)
    ensures
        lists_domain(r@, model_map_view(*m)),
{
    m.iter().map(|e| e.key().clone()).collect()
}

/// The mapping from client address to its request stamps that a map holds.
pub uninterp spec fn stamp_map_view(m: DashMap<String, Vec<u64>, RandomState>) -> Map<
    Seq<char>,
    Seq<u64>,
>;

/// `DashMap::new`: a fresh map holds nothing.
#[verifier::external_body]
pub(crate) fn stamp_map_new() -> (m: DashMap<String, Vec<u64>, RandomState>)
    ensures
        stamp_map_view(m) == (Map::<Seq<char>, Seq<u64>>::empty()),
{
    DashMap::new()
}

/// `DashMap::get`: a copy of what `key` is bound to, if it is bound.
#[verifier::external_body]
pub(crate) fn stamp_map_get(m: &DashMap<String, Vec<u64>, RandomState>, key: &str) -> (r: Option<
    Vec<u64>,
>)
    ensures
        match r {
            Some(v) => stamp_map_view(*m).contains_key(key@) && v@ == stamp_map_view(*m)[key@],
            None => !stamp_map_view(*m).contains_key(key@),
        },
{
    m.get(key).map(|e| e.value().clone())
}

/// `DashMap::insert`: binds `key` to `value`, in place of an earlier binding.
#[verifier::external_body]
pub(crate) fn stamp_map_insert(
    m: &mut DashMap<String, Vec<u64>, RandomState>,
    key: String,
    value: Vec<u64>,
)
    ensures
        stamp_map_view(*final(m)) == stamp_map_view(*old(m)).insert(key@, value@),
{
    m.insert(key, value);
}

/// `DashMap::remove`: unbinds `key`.
#[verifier::external_body]
pub(crate) fn stamp_map_remove(m: &mut DashMap<String, Vec<u64>, RandomState>, key: &str)
    ensures
        stamp_map_view(*final(m)) == stamp_map_view(*old(m)).remove(key@),
{
    m.remove(key);
}

/// `DashMap::iter`: walks every binding once, in no particular order; the
/// keys are collected as they come.
#[verifier::external_body]
pub(crate) fn stamp_map_keys(m: &DashMap<String, Vec<u64>, RandomState>) -> (r: Vec<String>)
    ensures
        lists_domain(r@, stamp_map_view(*m)),
{
    m.iter().map(|e| e.key().clone()).collect()
}

} // verus!
