//! The settings snapshot and the parsers for its textual sources.

use crate::utils::text::{
    char_views, chars_of, lowercase_of, split, split_on, str_eq, string_of, to_lowercase, trim,
    trimmed, views,
};
use vstd::prelude::*;

verus! {

/// Search-mode switches.
#[derive(Debug, Clone)]
pub struct SearchConfig {
    pub search_mode: bool,
    pub search_prompt: String,
}

/// Recorded calls, each as JSON text.
#[derive(Debug, Clone)]
pub struct ApiCallStats {
    pub calls: Vec<String>,
}

/// Version bookkeeping kept with the settings.
#[derive(Debug, Clone)]
pub struct VersionInfo {
    pub local_version: String,
    pub remote_version: String,
    pub has_update: bool,
}

/// A read-only snapshot of the configuration. Durations are in milliseconds.
#[derive(Debug, Clone)]
pub struct Settings {
    pub password: String,
    pub web_password: String,
    pub gemini_api_keys: Vec<String>,
    pub port: Option<u16>,
    pub fake_streaming: bool,
    pub fake_streaming_interval_ms: u64,
    pub fake_streaming_chunk_size: i32,
    pub fake_streaming_delay_per_chunk_ms: u64,
    pub storage_dir: String,
    pub enable_storage: bool,
    pub concurrent_requests: usize,
    pub increase_concurrent_on_failure: usize,
    pub max_concurrent_requests: usize,
    pub cache_expiry_time: u64,
    pub max_cache_entries: usize,
    pub calculate_cache_entries: usize,
    pub precise_cache: bool,
    pub enable_vertex: bool,
    pub google_credentials_json: String,
    pub enable_vertex_express: bool,
    pub vertex_express_api_key: String,
    pub search: SearchConfig,
    pub random_string: bool,
    pub random_string_length: usize,
    pub max_empty_responses: usize,
    pub show_api_error_message: bool,
    pub max_retry_num: usize,
    pub max_requests_per_minute: u32,
    pub max_requests_per_day_per_ip: u32,
    pub api_key_daily_limit: u32,
    pub blocked_models: Vec<String>,
    pub whitelist_models: Vec<String>,
    pub whitelist_user_agent: Vec<String>,
    pub public_mode: bool,
    pub dashboard_url: String,
    pub allowed_origins: Vec<String>,
    pub nonstream_keepalive_enabled: bool,
    pub nonstream_keepalive_interval_ms: u64,
    pub base_dir: String,
    pub invalid_api_keys: Vec<String>,
    pub version: VersionInfo,
    pub api_call_stats: ApiCallStats,
}

impl Default for Settings {
    fn default() -> (s: Self)
        ensures
            s.password@ == "123"@,
            s.web_password@ == "123"@,
            s.gemini_api_keys@.len() == 0,
            s.invalid_api_keys@.len() == 0,
            s.port == Some(7860u16),
            s.fake_streaming,
            s.cache_expiry_time == 21600,
            s.max_cache_entries == 500,
            s.calculate_cache_entries == 6,
            !s.precise_cache,
            s.max_requests_per_minute == 30,
            s.max_requests_per_day_per_ip == 600,
            s.api_key_daily_limit == 100,
            s.blocked_models@.len() == 0,
            s.whitelist_models@.len() == 0,
            s.whitelist_user_agent@.len() == 0,
            !s.public_mode,
            !s.search.search_mode,
            s.search.search_prompt@ == "（使用搜索工具联网搜索，需要在content中结合搜索内容）"@,
            s.fake_streaming_interval_ms == 1000,
            s.fake_streaming_chunk_size == 10,
            s.fake_streaming_delay_per_chunk_ms == 100,
            s.storage_dir@ == "/rujimi/settings/"@,
            !s.enable_storage,
            s.concurrent_requests == 1,
            s.increase_concurrent_on_failure == 0,
            s.max_concurrent_requests == 3,
            !s.enable_vertex,
            s.google_credentials_json@.len() == 0,
            !s.enable_vertex_express,
            s.vertex_express_api_key@.len() == 0,
            s.random_string,
            s.random_string_length == 5,
            s.max_empty_responses == 5,
            s.show_api_error_message,
            s.max_retry_num == 15,
            s.dashboard_url@.len() == 0,
            s.allowed_origins@.len() == 0,
            s.nonstream_keepalive_enabled,
            s.nonstream_keepalive_interval_ms == 5000,
            s.base_dir@ == "."@,
            s.version.local_version@ == "0.0.0"@,
            s.version.remote_version@ == "0.0.0"@,
            !s.version.has_update,
            s.api_call_stats.calls@.len() == 0,
    {
        Settings {
            password: "123".to_string(),
            web_password: "123".to_string(),
            gemini_api_keys: Vec::new(),
            port: Some(7860),
            fake_streaming: true,
            fake_streaming_interval_ms: 1000,
            fake_streaming_chunk_size: 10,
            fake_streaming_delay_per_chunk_ms: 100,
            storage_dir: "/rujimi/settings/".to_string(),
            enable_storage: false,
            concurrent_requests: 1,
            increase_concurrent_on_failure: 0,
            max_concurrent_requests: 3,
            cache_expiry_time: 21600,
            max_cache_entries: 500,
            calculate_cache_entries: 6,
            precise_cache: false,
            enable_vertex: false,
            google_credentials_json: String::new(),
            enable_vertex_express: false,
            vertex_express_api_key: String::new(),
            search: SearchConfig {
                search_mode: false,
                search_prompt: "（使用搜索工具联网搜索，需要在content中结合搜索内容）".to_string(),
            },
            random_string: true,
            random_string_length: 5,
            max_empty_responses: 5,
            show_api_error_message: true,
            max_retry_num: 15,
            max_requests_per_minute: 30,
            max_requests_per_day_per_ip: 600,
            api_key_daily_limit: 100,
            blocked_models: Vec::new(),
            whitelist_models: Vec::new(),
            whitelist_user_agent: Vec::new(),
            public_mode: false,
            dashboard_url: String::new(),
            allowed_origins: Vec::new(),
            nonstream_keepalive_enabled: true,
            nonstream_keepalive_interval_ms: 5000,
            base_dir: ".".to_string(),
            invalid_api_keys: Vec::new(),
            version: VersionInfo {
                local_version: "0.0.0".to_string(),
                remote_version: "0.0.0".to_string(),
                has_update: false,
            },
            api_call_stats: ApiCallStats { calls: Vec::new() },
        }
    }
}

/// Whether the list `list` holds the string `s`.
pub fn list_contains(list: &Vec<String>, s: &str) -> (r: bool)
    ensures
        r == views(list@).contains(s@),
{
    let mut i: usize = 0;
    while i < list.len()
        invariant
            i <= list.len(),
            forall|k: int| 0 <= k < i ==> views(list@)[k] != s@,
        decreases list.len() - i,
    {
        if str_eq(list[i].as_str(), s) {
            proof {
                assert(views(list@)[i as int] == s@);
            }
            return true;
        }
        i += 1;
    }
    false
}

/// The configured keys that are not on the deny-list, in configured order.
pub open spec fn valid_api_keys(keys: Seq<Seq<char>>, invalid: Seq<Seq<char>>) -> Seq<Seq<char>> {
    keys.filter(|k: Seq<char>| !invalid.contains(k))
}

impl Settings {
    /// The configured upstream keys that are not known to be invalid.
    pub fn get_valid_api_keys(&self) -> (r: Vec<String>)
        ensures
            views(r@) == valid_api_keys(views(self.gemini_api_keys@), views(self.invalid_api_keys@)),
    {
        let mut r: Vec<String> = Vec::new();
        let mut i: usize = 0;
        let ghost keys = views(self.gemini_api_keys@);
        let ghost invalid = views(self.invalid_api_keys@);
        let ghost keep = |k: Seq<char>| !invalid.contains(k);
        proof {
            reveal(Seq::filter);
            assert(keys.take(0) == Seq::<Seq<char>>::empty());
        }
        while i < self.gemini_api_keys.len()
            invariant
                i <= self.gemini_api_keys.len(),
                keys == views(self.gemini_api_keys@),
                invalid == views(self.invalid_api_keys@),
                keep == |k: Seq<char>| !invalid.contains(k),
                views(r@) == keys.take(i as int).filter(keep),
            decreases self.gemini_api_keys.len() - i,
        {
            proof {
                reveal(Seq::filter);
                assert(keys.take(i as int + 1).drop_last() == keys.take(i as int));
                assert(keys.take(i as int + 1).last() == self.gemini_api_keys@[i as int]@);
            }
            let ghost before = views(r@);
            if !list_contains(&self.invalid_api_keys, self.gemini_api_keys[i].as_str()) {
                r.push(self.gemini_api_keys[i].clone());
                proof {
                    assert(views(r@) == before.push(self.gemini_api_keys@[i as int]@));
                }
            }
            i += 1;
        }
        proof {
            assert(keys.take(self.gemini_api_keys.len() as int) == keys);
        }
        r
    }

    /// Replaces the deny-list.
    pub fn update_invalid_keys(&mut self, invalid_keys: Vec<String>)
        ensures
            final(self).invalid_api_keys == invalid_keys,
            final(self).gemini_api_keys == old(self).gemini_api_keys,
            final(self).api_key_daily_limit == old(self).api_key_daily_limit,
    {
        self.invalid_api_keys = invalid_keys;
    }
}

/// Whether a text switches something on: `true`, `1` or `yes`, whatever the
/// case of its letters.
pub open spec fn switched_on(value: Seq<char>) -> bool {
    lowercase_of(value) == "true"@ || lowercase_of(value) == "1"@ || lowercase_of(value)
        == "yes"@
}

/// Reads a switch.
pub fn parse_bool(value: &str) -> (r: bool)
    ensures
        r == switched_on(value@),
{
    let lower = to_lowercase(value);
    str_eq(lower.as_str(), "true") || str_eq(lower.as_str(), "1") || str_eq(lower.as_str(), "yes")
}

/// The test that a text passes when it is not empty.
pub open spec fn not_empty() -> spec_fn(Seq<char>) -> bool {
    |item: Seq<char>| item.len() > 0
}

/// The comma-separated pieces of `value`, each trimmed.
pub open spec fn trimmed_pieces(value: Seq<char>) -> Seq<Seq<char>> {
    split_on(value, ',').map_values(|piece: Seq<char>| trimmed(piece))
}

/// The items of a comma-separated list: the pieces between commas, trimmed,
/// without the empty ones.
pub open spec fn comma_items(value: Seq<char>) -> Seq<Seq<char>> {
    trimmed_pieces(value).filter(not_empty())
}

/// The comma-separated pieces of `value`, each trimmed and put in lowercase.
pub open spec fn lowered_pieces(value: Seq<char>) -> Seq<Seq<char>> {
    split_on(value, ',').map_values(|piece: Seq<char>| lowercase_of(trimmed(piece)))
}

/// The items of a comma-separated list, in lowercase.
pub open spec fn lowered_items(value: Seq<char>) -> Seq<Seq<char>> {
    lowered_pieces(value).filter(not_empty())
}

/// `items` without repetitions: each item at the place of its first
/// occurrence.
pub open spec fn distinct(items: Seq<Seq<char>>) -> Seq<Seq<char>>
    decreases items.len(),
{
    if items.len() == 0 {
        Seq::<Seq<char>>::empty()
    } else {
        let init = distinct(items.drop_last());
        if init.contains(items.last()) {
            init
        } else {
            init.push(items.last())
        }
    }
}

/// Reads a comma-separated list.
pub fn parse_comma_separated(value: &str) -> (r: Vec<String>)
    ensures
        views(r@) == comma_items(value@),
{
    let v = chars_of(value);
    let pieces = split(v.as_slice(), ',');
    let ghost keep = not_empty();
    let ghost clean = trimmed_pieces(value@);
    let mut r: Vec<String> = Vec::new();
    let mut i: usize = 0;
    proof {
        reveal(Seq::filter);
        assert(clean.take(0) == Seq::<Seq<char>>::empty());
    }
    while i < pieces.len()
        invariant
            i <= pieces.len(),
            keep == not_empty(),
            clean == trimmed_pieces(value@),
            char_views(pieces@) == split_on(value@, ','),
            views(r@) == clean.take(i as int).filter(keep),
        decreases pieces.len() - i,
    {
        let ghost before = views(r@);
        proof {
            reveal(Seq::filter);
            assert(clean.take(i as int + 1).drop_last() == clean.take(i as int));
            assert(char_views(pieces@)[i as int] == pieces@[i as int]@);
            assert(clean.take(i as int + 1).last() == trimmed(pieces@[i as int]@));
        }
        let item = trim(pieces[i].as_slice());
        if item.len() > 0 {
            r.push(string_of(item.as_slice()));
            proof {
                assert(views(r@) == before.push(trimmed(pieces@[i as int]@)));
            }
        }
        i += 1;
    }
    proof {
        assert(clean.take(pieces.len() as int) == clean);
    }
    r
}

/// `items` without repetitions.
pub fn without_repetitions(items: Vec<String>) -> (r: Vec<String>)
    ensures
        views(r@) == distinct(views(items@)),
{
    let mut r: Vec<String> = Vec::new();
    let mut i: usize = 0;
    proof {
        assert(views(items@).take(0) == Seq::<Seq<char>>::empty());
    }
    while i < items.len()
        invariant
            i <= items.len(),
            views(r@) == distinct(views(items@).take(i as int)),
        decreases items.len() - i,
    {
        let ghost before = views(r@);
        proof {
            assert(views(items@).take(i as int + 1).drop_last() == views(items@).take(i as int));
            assert(views(items@).take(i as int + 1).last() == items@[i as int]@);
        }
        if !list_contains(&r, items[i].as_str()) {
            r.push(items[i].clone());
            proof {
                assert(views(r@) == before.push(items@[i as int]@));
            }
        }
        i += 1;
    }
    proof {
        assert(views(items@).take(items.len() as int) == views(items@));
    }
    r
}

/// Reads a comma-separated set: the items of the list, each once.
pub fn parse_comma_separated_set(value: &str) -> (r: Vec<String>)
    ensures
        views(r@) == distinct(comma_items(value@)),
{
    without_repetitions(parse_comma_separated(value))
}

/// Reads a comma-separated set in lowercase.
pub fn parse_comma_separated_set_lowercase(value: &str) -> (r: Vec<String>)
    ensures
        views(r@) == distinct(lowered_items(value@)),
{
    let v = chars_of(value);
    let pieces = split(v.as_slice(), ',');
    let ghost keep = not_empty();
    let ghost clean = lowered_pieces(value@);
    let mut items: Vec<String> = Vec::new();
    let mut i: usize = 0;
    proof {
        reveal(Seq::filter);
        assert(clean.take(0) == Seq::<Seq<char>>::empty());
    }
    while i < pieces.len()
        invariant
            i <= pieces.len(),
            keep == not_empty(),
            clean == lowered_pieces(value@),
            char_views(pieces@) == split_on(value@, ','),
            views(items@) == clean.take(i as int).filter(keep),
        decreases pieces.len() - i,
    {
        let ghost before = views(items@);
        proof {
            reveal(Seq::filter);
            assert(clean.take(i as int + 1).drop_last() == clean.take(i as int));
            assert(char_views(pieces@)[i as int] == pieces@[i as int]@);
            assert(clean.take(i as int + 1).last() == lowercase_of(trimmed(pieces@[i as int]@)));
        }
        let item = trim(pieces[i].as_slice());
        let text = string_of(item.as_slice());
        let lower = to_lowercase(text.as_str());
        proof {
            assert(lower@ == lowercase_of(trimmed(pieces@[i as int]@)));
        }
        if !lower.as_str().is_empty() {
            items.push(lower);
            proof {
                assert(views(items@) == before.push(lowercase_of(trimmed(pieces@[i as int]@))));
            }
        }
        i += 1;
    }
    proof {
        assert(clean.take(pieces.len() as int) == clean);
    }
    without_repetitions(items)
}

} // verus!
