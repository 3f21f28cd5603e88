//! The configuration as it is changed at run time.
//!
//! A value arrives as what its JSON would yield for each kind that a setting
//! can have; durations arrive in milliseconds.

use crate::config::settings::{comma_items, parse_comma_separated, SearchConfig, Settings};
use crate::models::schemas::opt_view;
use crate::utils::text::{append_str, chars_of, join, join_chars, str_eq, string_of, views};
use vstd::prelude::*;

verus! {

/// What a JSON value yields when it is read as a switch, as an unsigned
/// number, as a signed number, as a duration in milliseconds, or as text.
#[derive(Debug, Clone)]
pub struct ConfigValue {
    pub as_bool: Option<bool>,
    pub as_u64: Option<u64>,
    pub as_i64: Option<i64>,
    pub as_millis: Option<u64>,
    pub as_str: Option<String>,
}

/// Why a setting was not changed.
#[derive(Debug, Clone, Copy, PartialEq, Eq, Structural)]
pub enum ConfigError {
    /// There is no setting of that name that can be changed.
    UnsupportedKey,
}

impl ConfigError {
    /// The text of the error for the setting named `key`.
    pub fn message(&self, key: &str) -> (r: String)
        ensures
            r@ == "Unsupported configuration key: "@ + key@,
    {
        let mut text: Vec<char> = Vec::new();
        append_str(&mut text, "Unsupported configuration key: ");
        append_str(&mut text, key);
        string_of(text.as_slice())
    }
}

/// `n` as a machine-sized number, keeping the low bits.
pub open spec fn wrapped_usize(n: u64) -> usize {
    (n as int % (usize::MAX as int + 1)) as usize
}

/// `n` as a 32-bit number, keeping the low bits.
pub open spec fn wrapped_u32(n: u64) -> u32 {
    (n as int % 0x1_0000_0000) as u32
}

/// `n` as a signed 32-bit number, keeping the low bits.
pub open spec fn wrapped_i32(n: i64) -> i32 {
    ((n as int + 0x8000_0000) % 0x1_0000_0000 - 0x8000_0000) as i32
}

pub(crate) fn wrap_usize(n: u64) -> (r: usize)
    ensures
        r == wrapped_usize(n),
{
    if n <= usize::MAX as u64 {
        proof {
            vstd::arithmetic::div_mod::lemma_small_mod(n as nat, (usize::MAX as int + 1) as nat);
        }
        n as usize
    } else {
        (n % (usize::MAX as u64 + 1)) as usize
    }
}

pub(crate) fn wrap_u32(n: u64) -> (r: u32)
    ensures
        r == wrapped_u32(n),
{
    (n % 0x1_0000_0000) as u32
}

fn wrap_i32(n: i64) -> (r: i32)
    ensures
        r == wrapped_i32(n),
{
    let shifted: i128 = n as i128 + 0x8000_0000;
    let lifted: i128 = shifted + 0x1_0000_0000_0000_0000;
    proof {
        assert(lifted % 0x1_0000_0000 == (n as int + 0x8000_0000) % 0x1_0000_0000) by {
            assert(lifted == shifted + 0x1_0000_0000 * 0x1_0000_0000);
            vstd::arithmetic::div_mod::lemma_mod_multiples_vanish(
                0x1_0000_0000,
                shifted as int,
                0x1_0000_0000,
            );
        }
    }
    ((lifted % 0x1_0000_0000) - 0x8000_0000) as i32
}

/// Whether `key` names a switch that can be changed.
pub open spec fn switch_key(key: Seq<char>) -> bool {
    key == "fake_streaming"@
        || key == "precise_cache"@
        || key == "enable_vertex"@
        || key == "enable_vertex_express"@
        || key == "random_string"@
        || key == "show_api_error_message"@
        || key == "public_mode"@
        || key == "nonstream_keepalive_enabled"@
        || key == "search_mode"@
}

/// Whether `new` is `old` with a switch named `key` set from `value`.
pub open spec fn switch_updated(old: Settings, new: Settings, key: Seq<char>, value: ConfigValue) -> bool {
    if key == "fake_streaming"@ {
        match value.as_bool {
            Some(b) => new == (Settings { fake_streaming: b, ..old }),
            None => new == old,
        }
    } else if key == "precise_cache"@ {
        match value.as_bool {
            Some(b) => new == (Settings { precise_cache: b, ..old }),
            None => new == old,
        }
    } else if key == "enable_vertex"@ {
        match value.as_bool {
            Some(b) => new == (Settings { enable_vertex: b, ..old }),
            None => new == old,
        }
    } else if key == "enable_vertex_express"@ {
        match value.as_bool {
            Some(b) => new == (Settings { enable_vertex_express: b, ..old }),
            None => new == old,
        }
    } else if key == "random_string"@ {
        match value.as_bool {
            Some(b) => new == (Settings { random_string: b, ..old }),
            None => new == old,
        }
    } else if key == "show_api_error_message"@ {
        match value.as_bool {
            Some(b) => new == (Settings { show_api_error_message: b, ..old }),
            None => new == old,
        }
    } else if key == "public_mode"@ {
        match value.as_bool {
            Some(b) => new == (Settings { public_mode: b, ..old }),
            None => new == old,
        }
    } else if key == "nonstream_keepalive_enabled"@ {
        match value.as_bool {
            Some(b) => new == (Settings { nonstream_keepalive_enabled: b, ..old }),
            None => new == old,
        }
    } else if key == "search_mode"@ {
        match value.as_bool {
            Some(b) => new == (Settings {
                search: (SearchConfig { search_mode: b, ..old.search }),
                ..old
            }),
            None => new == old,
        }
    } else {
        new == old
    }
}

fn update_switch(settings: &mut Settings, key: &str, value: &ConfigValue) -> (handled: bool)
    ensures
        handled == switch_key(key@),
        handled ==> switch_updated(*old(settings), *final(settings), key@, *value),
        !handled ==> *final(settings) == *old(settings),
{
    if str_eq(key, "fake_streaming") {
        match value.as_bool {
            Some(b) => {
                settings.fake_streaming = b;
            },
            None => {},
        }
        true
    } else if str_eq(key, "precise_cache") {
        match value.as_bool {
            Some(b) => {
                settings.precise_cache = b;
            },
            None => {},
        }
        true
    } else if str_eq(key, "enable_vertex") {
        match value.as_bool {
            Some(b) => {
                settings.enable_vertex = b;
            },
            None => {},
        }
        true
    } else if str_eq(key, "enable_vertex_express") {
        match value.as_bool {
            Some(b) => {
                settings.enable_vertex_express = b;
            },
            None => {},
        }
        true
    } else if str_eq(key, "random_string") {
        match value.as_bool {
            Some(b) => {
                settings.random_string = b;
            },
            None => {},
        }
        true
    } else if str_eq(key, "show_api_error_message") {
        match value.as_bool {
            Some(b) => {
                settings.show_api_error_message = b;
            },
            None => {},
        }
        true
    } else if str_eq(key, "public_mode") {
        match value.as_bool {
            Some(b) => {
                settings.public_mode = b;
            },
            None => {},
        }
        true
    } else if str_eq(key, "nonstream_keepalive_enabled") {
        match value.as_bool {
            Some(b) => {
                settings.nonstream_keepalive_enabled = b;
            },
            None => {},
        }
        true
    } else if str_eq(key, "search_mode") {
        match value.as_bool {
            Some(b) => {
                settings.search.search_mode = b;
            },
            None => {},
        }
        true
    } else {
        false
    }
}

/// Whether `key` names a count that can be changed.
pub open spec fn size_key(key: Seq<char>) -> bool {
    key == "concurrent_requests"@
        || key == "increase_concurrent_on_failure"@
        || key == "max_concurrent_requests"@
        || key == "max_cache_entries"@
        || key == "calculate_cache_entries"@
        || key == "random_string_length"@
        || key == "max_empty_responses"@
        || key == "max_retry_num"@
}

/// Whether `new` is `old` with a count named `key` set from `value`.
pub open spec fn size_updated(old: Settings, new: Settings, key: Seq<char>, value: ConfigValue) -> bool {
    if key == "concurrent_requests"@ {
        match value.as_u64 {
            Some(n) => new == (Settings { concurrent_requests: wrapped_usize(n), ..old }),
            None => new == old,
        }
    } else if key == "increase_concurrent_on_failure"@ {
        match value.as_u64 {
            Some(n) => new == (Settings { increase_concurrent_on_failure: wrapped_usize(n), ..old }),
            None => new == old,
        }
    } else if key == "max_concurrent_requests"@ {
        match value.as_u64 {
            Some(n) => new == (Settings { max_concurrent_requests: wrapped_usize(n), ..old }),
            None => new == old,
        }
    } else if key == "max_cache_entries"@ {
        match value.as_u64 {
            Some(n) => new == (Settings { max_cache_entries: wrapped_usize(n), ..old }),
            None => new == old,
        }
    } else if key == "calculate_cache_entries"@ {
        match value.as_u64 {
            Some(n) => new == (Settings { calculate_cache_entries: wrapped_usize(n), ..old }),
            None => new == old,
        }
    } else if key == "random_string_length"@ {
        match value.as_u64 {
            Some(n) => new == (Settings { random_string_length: wrapped_usize(n), ..old }),
            None => new == old,
        }
    } else if key == "max_empty_responses"@ {
        match value.as_u64 {
            Some(n) => new == (Settings { max_empty_responses: wrapped_usize(n), ..old }),
            None => new == old,
        }
    } else if key == "max_retry_num"@ {
        match value.as_u64 {
            Some(n) => new == (Settings { max_retry_num: wrapped_usize(n), ..old }),
            None => new == old,
        }
    } else {
        new == old
    }
}

fn update_size(settings: &mut Settings, key: &str, value: &ConfigValue) -> (handled: bool)
    ensures
        handled == size_key(key@),
        handled ==> size_updated(*old(settings), *final(settings), key@, *value),
        !handled ==> *final(settings) == *old(settings),
{
    if str_eq(key, "concurrent_requests") {
        match value.as_u64 {
            Some(n) => {
                settings.concurrent_requests = wrap_usize(n);
            },
            None => {},
        }
        true
    } else if str_eq(key, "increase_concurrent_on_failure") {
        match value.as_u64 {
            Some(n) => {
                settings.increase_concurrent_on_failure = wrap_usize(n);
            },
            None => {},
        }
        true
    } else if str_eq(key, "max_concurrent_requests") {
        match value.as_u64 {
            Some(n) => {
                settings.max_concurrent_requests = wrap_usize(n);
            },
            None => {},
        }
        true
    } else if str_eq(key, "max_cache_entries") {
        match value.as_u64 {
            Some(n) => {
                settings.max_cache_entries = wrap_usize(n);
            },
            None => {},
        }
        true
    } else if str_eq(key, "calculate_cache_entries") {
        match value.as_u64 {
            Some(n) => {
                settings.calculate_cache_entries = wrap_usize(n);
            },
            None => {},
        }
        true
    } else if str_eq(key, "random_string_length") {
        match value.as_u64 {
            Some(n) => {
                settings.random_string_length = wrap_usize(n);
            },
            None => {},
        }
        true
    } else if str_eq(key, "max_empty_responses") {
        match value.as_u64 {
            Some(n) => {
                settings.max_empty_responses = wrap_usize(n);
            },
            None => {},
        }
        true
    } else if str_eq(key, "max_retry_num") {
        match value.as_u64 {
            Some(n) => {
                settings.max_retry_num = wrap_usize(n);
            },
            None => {},
        }
        true
    } else {
        false
    }
}

/// Whether `key` names a limit that can be changed.
pub open spec fn limit_key(key: Seq<char>) -> bool {
    key == "max_requests_per_minute"@
        || key == "max_requests_per_day_per_ip"@
        || key == "api_key_daily_limit"@
        || key == "cache_expiry_time"@
        || key == "fake_streaming_chunk_size"@
}

/// Whether `new` is `old` with a limit named `key` set from `value`.
pub open spec fn limit_updated(old: Settings, new: Settings, key: Seq<char>, value: ConfigValue) -> bool {
    if key == "max_requests_per_minute"@ {
        match value.as_u64 {
            Some(n) => new == (Settings { max_requests_per_minute: wrapped_u32(n), ..old }),
            None => new == old,
        }
    } else if key == "max_requests_per_day_per_ip"@ {
        match value.as_u64 {
            Some(n) => new == (Settings { max_requests_per_day_per_ip: wrapped_u32(n), ..old }),
            None => new == old,
        }
    } else if key == "api_key_daily_limit"@ {
        match value.as_u64 {
            Some(n) => new == (Settings { api_key_daily_limit: wrapped_u32(n), ..old }),
            None => new == old,
        }
    } else if key == "cache_expiry_time"@ {
        match value.as_u64 {
            Some(n) => new == (Settings { cache_expiry_time: n, ..old }),
            None => new == old,
        }
    } else if key == "fake_streaming_chunk_size"@ {
        match value.as_i64 {
            Some(n) => new == (Settings { fake_streaming_chunk_size: wrapped_i32(n), ..old }),
            None => new == old,
        }
    } else {
        new == old
    }
}

fn update_limit(settings: &mut Settings, key: &str, value: &ConfigValue) -> (handled: bool)
    ensures
        handled == limit_key(key@),
        handled ==> limit_updated(*old(settings), *final(settings), key@, *value),
        !handled ==> *final(settings) == *old(settings),
{
    if str_eq(key, "max_requests_per_minute") {
        match value.as_u64 {
            Some(n) => {
                settings.max_requests_per_minute = wrap_u32(n);
            },
            None => {},
        }
        true
    } else if str_eq(key, "max_requests_per_day_per_ip") {
        match value.as_u64 {
            Some(n) => {
                settings.max_requests_per_day_per_ip = wrap_u32(n);
            },
            None => {},
        }
        true
    } else if str_eq(key, "api_key_daily_limit") {
        match value.as_u64 {
            Some(n) => {
                settings.api_key_daily_limit = wrap_u32(n);
            },
            None => {},
        }
        true
    } else if str_eq(key, "cache_expiry_time") {
        match value.as_u64 {
            Some(n) => {
                settings.cache_expiry_time = n;
            },
            None => {},
        }
        true
    } else if str_eq(key, "fake_streaming_chunk_size") {
        match value.as_i64 {
            Some(n) => {
                settings.fake_streaming_chunk_size = wrap_i32(n);
            },
            None => {},
        }
        true
    } else {
        false
    }
}

/// Whether `key` names a duration that can be changed.
pub open spec fn duration_key(key: Seq<char>) -> bool {
    key == "fake_streaming_interval"@
        || key == "fake_streaming_delay_per_chunk"@
        || key == "nonstream_keepalive_interval"@
}

/// Whether `new` is `old` with a duration named `key` set from `value`.
pub open spec fn duration_updated(old: Settings, new: Settings, key: Seq<char>, value: ConfigValue) -> bool {
    if key == "fake_streaming_interval"@ {
        match value.as_millis {
            Some(n) => new == (Settings { fake_streaming_interval_ms: n, ..old }),
            None => new == old,
        }
    } else if key == "fake_streaming_delay_per_chunk"@ {
        match value.as_millis {
            Some(n) => new == (Settings { fake_streaming_delay_per_chunk_ms: n, ..old }),
            None => new == old,
        }
    } else if key == "nonstream_keepalive_interval"@ {
        match value.as_millis {
            Some(n) => new == (Settings { nonstream_keepalive_interval_ms: n, ..old }),
            None => new == old,
        }
    } else {
        new == old
    }
}

fn update_duration(settings: &mut Settings, key: &str, value: &ConfigValue) -> (handled: bool)
    ensures
        handled == duration_key(key@),
        handled ==> duration_updated(*old(settings), *final(settings), key@, *value),
        !handled ==> *final(settings) == *old(settings),
{
    if str_eq(key, "fake_streaming_interval") {
        match value.as_millis {
            Some(n) => {
                settings.fake_streaming_interval_ms = n;
            },
            None => {},
        }
        true
    } else if str_eq(key, "fake_streaming_delay_per_chunk") {
        match value.as_millis {
            Some(n) => {
                settings.fake_streaming_delay_per_chunk_ms = n;
            },
            None => {},
        }
        true
    } else if str_eq(key, "nonstream_keepalive_interval") {
        match value.as_millis {
            Some(n) => {
                settings.nonstream_keepalive_interval_ms = n;
            },
            None => {},
        }
        true
    } else {
        false
    }
}

/// Whether `key` names a text that can be changed.
pub open spec fn text_key(key: Seq<char>) -> bool {
    key == "google_credentials_json"@
        || key == "vertex_express_api_key"@
        || key == "dashboard_url"@
        || key == "search_prompt"@
        || key == "gemini_api_keys"@
}

/// Whether `new` is `old` with a text named `key` set from `value`.
pub open spec fn text_updated(old: Settings, new: Settings, key: Seq<char>, value: ConfigValue) -> bool {
    if key == "google_credentials_json"@ {
        match value.as_str {
            Some(t) => new.google_credentials_json@ == t@ && (Settings { google_credentials_json: old.google_credentials_json, ..new }) == old,
            None => new == old,
        }
    } else if key == "vertex_express_api_key"@ {
        match value.as_str {
            Some(t) => new.vertex_express_api_key@ == t@ && (Settings { vertex_express_api_key: old.vertex_express_api_key, ..new }) == old,
            None => new == old,
        }
    } else if key == "dashboard_url"@ {
        match value.as_str {
            Some(t) => new.dashboard_url@ == t@ && (Settings { dashboard_url: old.dashboard_url, ..new }) == old,
            None => new == old,
        }
    } else if key == "search_prompt"@ {
        match value.as_str {
            Some(t) => new.search.search_prompt@ == t@ && new.search.search_mode
                == old.search.search_mode && (Settings { search: old.search, ..new }) == old,
            None => new == old,
        }
    } else if key == "gemini_api_keys"@ {
        match value.as_str {
            Some(t) => views(new.gemini_api_keys@) == comma_items(t@) && (Settings {
                gemini_api_keys: old.gemini_api_keys,
                ..new
            }) == old,
            None => new == old,
        }
    } else {
        new == old
    }
}

fn update_text(settings: &mut Settings, key: &str, value: &ConfigValue) -> (handled: bool)
    ensures
        handled == text_key(key@),
        handled ==> text_updated(*old(settings), *final(settings), key@, *value),
        !handled ==> *final(settings) == *old(settings),
{
    if str_eq(key, "google_credentials_json") {
        match &value.as_str {
            Some(t) => {
                settings.google_credentials_json = t.clone();
            },
            None => {},
        }
        true
    } else if str_eq(key, "vertex_express_api_key") {
        match &value.as_str {
            Some(t) => {
                settings.vertex_express_api_key = t.clone();
            },
            None => {},
        }
        true
    } else if str_eq(key, "dashboard_url") {
        match &value.as_str {
            Some(t) => {
                settings.dashboard_url = t.clone();
            },
            None => {},
        }
        true
    } else if str_eq(key, "search_prompt") {
        match &value.as_str {
            Some(t) => {
                settings.search.search_prompt = t.clone();
            },
            None => {},
        }
        true
    } else if str_eq(key, "gemini_api_keys") {
        match &value.as_str {
            Some(t) => {
                settings.gemini_api_keys = parse_comma_separated(t.as_str());
            },
            None => {},
        }
        true
    } else {
        false
    }
}


/// Whether `key` names a setting that can be changed.
pub open spec fn supported_key(key: Seq<char>) -> bool {
    switch_key(key) || size_key(key) || limit_key(key) || duration_key(key) || text_key(key)
}

/// Whether `new` is `old` with the setting named `key` set from `value`. A
/// value of the wrong kind changes nothing.
pub open spec fn updated(old: Settings, new: Settings, key: Seq<char>, value: ConfigValue) -> bool {
    if switch_key(key) {
        switch_updated(old, new, key, value)
    } else if size_key(key) {
        size_updated(old, new, key, value)
    } else if limit_key(key) {
        limit_updated(old, new, key, value)
    } else if duration_key(key) {
        duration_updated(old, new, key, value)
    } else if text_key(key) {
        text_updated(old, new, key, value)
    } else {
        new == old
    }
}

/// Whether `key` names a setting that can be read back.
pub open spec fn readable_key(key: Seq<char>) -> bool {
    key == "fake_streaming"@ || key == "fake_streaming_interval"@ || key
        == "concurrent_requests"@ || key == "enable_vertex"@ || key == "search_mode"@ || key
        == "show_api_error_message"@ || key == "max_requests_per_minute"@ || key
        == "max_requests_per_day_per_ip"@ || key == "gemini_api_keys"@ || key
        == "google_credentials_json"@ || key == "vertex_express_api_key"@
}

/// Whether `v` is a switch and nothing else.
pub open spec fn is_switch(v: ConfigValue, b: bool) -> bool {
    v.as_bool == Some(b) && v.as_u64 is None && v.as_i64 is None && v.as_millis is None
        && v.as_str is None
}

/// Whether `v` is an unsigned number, which reads as a signed one too where
/// it fits, and nothing else.
pub open spec fn is_number(v: ConfigValue, n: u64) -> bool {
    v.as_bool is None && v.as_u64 == Some(n) && v.as_i64 == (if n <= i64::MAX {
        Some(n as i64)
    } else {
        None
    }) && v.as_millis is None && v.as_str is None
}

/// Whether `v` is a text and nothing else.
pub open spec fn is_text(v: ConfigValue, t: Seq<char>) -> bool {
    v.as_bool is None && v.as_u64 is None && v.as_i64 is None && v.as_millis is None
        && opt_view(v.as_str) == Some(t)
}

/// Whether `v` is a duration and nothing else.
pub open spec fn is_duration(v: ConfigValue, ms: u64) -> bool {
    v.as_bool is None && v.as_u64 is None && v.as_i64 is None && v.as_millis == Some(ms)
        && v.as_str is None
}

/// Whether `v` shows the setting named `key`. The upstream keys are shown
/// joined by commas.
pub open spec fn shows_setting(v: ConfigValue, s: Settings, key: Seq<char>) -> bool {
    if key == "fake_streaming"@ {
        is_switch(v, s.fake_streaming)
    } else if key == "fake_streaming_interval"@ {
        is_duration(v, s.fake_streaming_interval_ms)
    } else if key == "concurrent_requests"@ {
        is_number(v, s.concurrent_requests as u64)
    } else if key == "enable_vertex"@ {
        is_switch(v, s.enable_vertex)
    } else if key == "search_mode"@ {
        is_switch(v, s.search.search_mode)
    } else if key == "show_api_error_message"@ {
        is_switch(v, s.show_api_error_message)
    } else if key == "max_requests_per_minute"@ {
        is_number(v, s.max_requests_per_minute as u64)
    } else if key == "max_requests_per_day_per_ip"@ {
        is_number(v, s.max_requests_per_day_per_ip as u64)
    } else if key == "gemini_api_keys"@ {
        is_text(v, join(views(s.gemini_api_keys@), ","@))
    } else if key == "google_credentials_json"@ {
        is_text(v, s.google_credentials_json@)
    } else {
        is_text(v, s.vertex_express_api_key@)
    }
}

fn switch_value(b: bool) -> (v: ConfigValue)
    ensures
        is_switch(v, b),
{
    ConfigValue { as_bool: Some(b), as_u64: None, as_i64: None, as_millis: None, as_str: None }
}

fn number_value(n: u64) -> (v: ConfigValue)
    ensures
        is_number(v, n),
{
    ConfigValue {
        as_bool: None,
        as_u64: Some(n),
        as_i64: if n <= i64::MAX as u64 {
            Some(n as i64)
        } else {
            None
        },
        as_millis: None,
        as_str: None,
    }
}

fn text_value(t: String) -> (v: ConfigValue)
    ensures
        is_text(v, t@),
{
    ConfigValue { as_bool: None, as_u64: None, as_i64: None, as_millis: None, as_str: Some(t) }
}

/// The configuration of the process.
pub struct ConfigManager {
    settings: Settings,
}

impl ConfigManager {
    /// The settings as they are now.
    pub closed spec fn settings(&self) -> Settings {
        self.settings
    }

    /// A manager for the given settings.
    pub fn initialize(settings: Settings) -> (m: Self)
        ensures
            m.settings() == settings,
    {
        ConfigManager { settings }
    }

    /// The settings as they are now.
    pub fn get_settings(&self) -> (s: &Settings)
        ensures
            *s == self.settings(),
    {
        &self.settings
    }

    /// Replaces the settings, as after reading them from disk.
    pub fn replace_settings(&mut self, settings: Settings)
        ensures
            final(self).settings() == settings,
    {
        self.settings = settings;
    }

    /// The value of the setting named `key`, for the settings that can be
    /// read back.
    pub fn get_config_value(&self, key: &str) -> (r: Option<ConfigValue>)
        ensures
            r is Some <==> readable_key(key@),
            r is Some ==> shows_setting(r->0, self.settings(), key@),
    {
        let s = &self.settings;
        if str_eq(key, "fake_streaming") {
            Some(switch_value(s.fake_streaming))
        } else if str_eq(key, "fake_streaming_interval") {
            Some(
                ConfigValue {
                    as_bool: None,
                    as_u64: None,
                    as_i64: None,
                    as_millis: Some(s.fake_streaming_interval_ms),
                    as_str: None,
                },
            )
        } else if str_eq(key, "concurrent_requests") {
            Some(number_value(s.concurrent_requests as u64))
        } else if str_eq(key, "enable_vertex") {
            Some(switch_value(s.enable_vertex))
        } else if str_eq(key, "search_mode") {
            Some(switch_value(s.search.search_mode))
        } else if str_eq(key, "show_api_error_message") {
            Some(switch_value(s.show_api_error_message))
        } else if str_eq(key, "max_requests_per_minute") {
            Some(number_value(s.max_requests_per_minute as u64))
        } else if str_eq(key, "max_requests_per_day_per_ip") {
            Some(number_value(s.max_requests_per_day_per_ip as u64))
        } else if str_eq(key, "gemini_api_keys") {
            let mut parts: Vec<Vec<char>> = Vec::new();
            let mut i: usize = 0;
            while i < s.gemini_api_keys.len()
                invariant
                    i <= s.gemini_api_keys.len(),
                    crate::utils::text::char_views(parts@) == views(s.gemini_api_keys@).take(
                        i as int,
                    ),
                decreases s.gemini_api_keys.len() - i,
            {
                let ghost before = crate::utils::text::char_views(parts@);
                parts.push(chars_of(s.gemini_api_keys[i].as_str()));
                proof {
                    assert(crate::utils::text::char_views(parts@) == before.push(
                        s.gemini_api_keys@[i as int]@,
                    ));
                    assert(views(s.gemini_api_keys@).take(i as int + 1) == views(
                        s.gemini_api_keys@,
                    ).take(i as int).push(s.gemini_api_keys@[i as int]@));
                }
                i += 1;
            }
            proof {
                assert(views(s.gemini_api_keys@).take(s.gemini_api_keys.len() as int) == views(
                    s.gemini_api_keys@,
                ));
            }
            let comma = chars_of(",");
            let joined = join_chars(&parts, comma.as_slice());
            Some(text_value(string_of(joined.as_slice())))
        } else if str_eq(key, "google_credentials_json") {
            Some(text_value(s.google_credentials_json.clone()))
        } else if str_eq(key, "vertex_express_api_key") {
            Some(text_value(s.vertex_express_api_key.clone()))
        } else {
            None
        }
    }

    /// Sets the setting named `key` from `value`. An unknown name is an
    /// error and changes nothing; a value of the wrong kind changes nothing.
    /// The caller writes the settings to disk.
    pub fn update_config(&mut self, key: &str, value: &ConfigValue) -> (r: Result<(), ConfigError>)
        ensures
            r is Ok <==> supported_key(key@),
            r is Err ==> final(self).settings() == old(self).settings(),
            r is Ok ==> updated(old(self).settings(), final(self).settings(), key@, *value),
    {
        let handled = update_switch(&mut self.settings, key, value)
            || update_size(&mut self.settings, key, value)
            || update_limit(&mut self.settings, key, value)
            || update_duration(&mut self.settings, key, value)
            || update_text(&mut self.settings, key, value);
        if handled {
            Ok(())
        } else {
            Err(ConfigError::UnsupportedKey)
        }
    }
}

} // verus!
