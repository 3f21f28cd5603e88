//! The settings as the variables of the process give them.
//!
//! The caller reads the variables and hands them over as pairs of a name and
//! a value; a variable that is not set has no pair.

use crate::config::settings::{
    comma_items, distinct, lowered_items, parse_bool, parse_comma_separated,
    parse_comma_separated_set, parse_comma_separated_set_lowercase, switched_on, ApiCallStats,
    SearchConfig, Settings, VersionInfo,
};
use crate::utils::numbers::{
    millis_spec, parse_millis, parse_signed, parse_unsigned, signed_spec, unsigned_spec,
};
use crate::utils::text::{chars_of, copy_range, str_eq, string_of, views};
use vstd::prelude::*;

verus! {

/// The value of the first variable named `name`, if there is one.
pub open spec fn var_named(vars: Seq<(String, String)>, name: Seq<char>) -> Option<Seq<char>>
    decreases vars.len(),
{
    if vars.len() == 0 {
        None
    } else if vars[0].0@ == name {
        Some(vars[0].1@)
    } else {
        var_named(vars.skip(1), name)
    }
}

/// `s` without the double quotes at its start.
pub open spec fn without_leading_quotes(s: Seq<char>) -> Seq<char>
    decreases s.len(),
{
    if s.len() > 0 && s[0] == '"' {
        without_leading_quotes(s.drop_first())
    } else {
        s
    }
}

/// `s` without the double quotes at its end.
pub open spec fn without_trailing_quotes(s: Seq<char>) -> Seq<char>
    decreases s.len(),
{
    if s.len() > 0 && s.last() == '"' {
        without_trailing_quotes(s.drop_last())
    } else {
        s
    }
}

/// `s` without the double quotes at its start and at its end.
pub open spec fn unquoted(s: Seq<char>) -> Seq<char> {
    without_trailing_quotes(without_leading_quotes(s))
}

/// A value, or the stand-in for a variable that is not set.
pub open spec fn value_or(value: Option<Seq<char>>, unset: Seq<char>) -> Seq<char> {
    match value {
        Some(v) => v,
        None => unset,
    }
}

/// A switch: what the value says, or the stand-in for a variable that is
/// not set.
pub open spec fn switch_or(value: Option<Seq<char>>, unset: bool) -> bool {
    match value {
        Some(v) => switched_on(v),
        None => unset,
    }
}

/// A number up to `max`: what the value writes, or the stand-in where the
/// variable is not set or writes no such number.
pub open spec fn number_or(value: Option<Seq<char>>, unset: u64, max: u64) -> u64 {
    match value {
        Some(v) => match unsigned_spec(v, max) {
            Some(n) => n,
            None => unset,
        },
        None => unset,
    }
}

/// A number from `min` to `max`, with or without a sign.
pub open spec fn signed_or(value: Option<Seq<char>>, unset: i64, min: i64, max: i64) -> i64 {
    match value {
        Some(v) => match signed_spec(v, min, max) {
            Some(n) => n,
            None => unset,
        },
        None => unset,
    }
}

/// A span of time in milliseconds: what the value writes in decimal
/// seconds, or the stand-in where the variable is not set or writes no span.
pub open spec fn millis_or(value: Option<Seq<char>>, unset: u64) -> u64 {
    match value {
        Some(v) => match millis_spec(v) {
            Some(n) => n,
            None => unset,
        },
        None => unset,
    }
}

/// The items of a list: those of the value, none where the variable is not
/// set.
pub open spec fn items_or_none(value: Option<Seq<char>>) -> Seq<Seq<char>> {
    match value {
        Some(v) => comma_items(v),
        None => Seq::<Seq<char>>::empty(),
    }
}

/// The prompt that goes with search mode unless another is set.
pub const DEFAULT_SEARCH_PROMPT: &'static str = "（使用搜索工具联网搜索，需要在content中结合搜索内容）";

/// The directory of stored settings unless another is set.
pub const DEFAULT_STORAGE_DIR: &'static str = "/rujimi/settings/";

/// Whether `s` holds the settings that the variables `vars` give, with
/// `base_dir` as the base directory where there is one.
pub open spec fn loaded(s: Settings, vars: Seq<(String, String)>, base_dir: Option<Seq<char>>) -> bool {
    &&& s.password@ == unquoted(value_or(var_named(vars, "PASSWORD"@), "123"@))
    &&& s.web_password@ == unquoted(value_or(var_named(vars, "WEB_PASSWORD"@), s.password@))
    &&& views(s.gemini_api_keys@) == items_or_none(var_named(vars, "GEMINI_API_KEYS"@))
    &&& s.port == (match var_named(vars, "PORT"@) {
        Some(v) => Some(number_or(Some(v), 7860, 0xffff) as u16),
        None => Some(7860u16),
    })
    &&& s.fake_streaming == switch_or(var_named(vars, "FAKE_STREAMING"@), true)
    &&& s.enable_storage == switch_or(var_named(vars, "ENABLE_STORAGE"@), false)
    &&& s.enable_vertex == switch_or(var_named(vars, "ENABLE_VERTEX"@), false)
    &&& s.enable_vertex_express == switch_or(var_named(vars, "ENABLE_VERTEX_EXPRESS"@), false)
    &&& s.search.search_mode == switch_or(var_named(vars, "SEARCH_MODE"@), false)
    &&& s.random_string == switch_or(var_named(vars, "RANDOM_STRING"@), true)
    &&& s.show_api_error_message == switch_or(var_named(vars, "SHOW_API_ERROR_MESSAGE"@), true)
    &&& s.precise_cache == switch_or(var_named(vars, "PRECISE_CACHE"@), false)
    &&& s.public_mode == switch_or(var_named(vars, "PUBLIC_MODE"@), false)
    &&& s.nonstream_keepalive_enabled == switch_or(
        var_named(vars, "NONSTREAM_KEEPALIVE_ENABLED"@),
        true,
    )
    &&& s.storage_dir@ == value_or(var_named(vars, "STORAGE_DIR"@), DEFAULT_STORAGE_DIR@)
    &&& s.google_credentials_json@ == value_or(var_named(vars, "GOOGLE_CREDENTIALS_JSON"@), ""@)
    &&& s.vertex_express_api_key@ == value_or(var_named(vars, "VERTEX_EXPRESS_API_KEY"@), ""@)
    &&& s.search.search_prompt@ == unquoted(
        value_or(var_named(vars, "SEARCH_PROMPT"@), DEFAULT_SEARCH_PROMPT@),
    )
    &&& s.dashboard_url@ == value_or(var_named(vars, "DASHBOARD_URL"@), ""@)
    &&& s.fake_streaming_interval_ms == millis_or(var_named(vars, "FAKE_STREAMING_INTERVAL"@), 1000)
    &&& s.fake_streaming_chunk_size == signed_or(
        var_named(vars, "FAKE_STREAMING_CHUNK_SIZE"@),
        10,
        i32::MIN as i64,
        i32::MAX as i64,
    )
    &&& s.fake_streaming_delay_per_chunk_ms == millis_or(
        var_named(vars, "FAKE_STREAMING_DELAY_PER_CHUNK"@),
        100,
    )
    &&& s.concurrent_requests == number_or(
        var_named(vars, "CONCURRENT_REQUESTS"@),
        1,
        usize::MAX as u64,
    )
    &&& s.increase_concurrent_on_failure == number_or(
        var_named(vars, "INCREASE_CONCURRENT_ON_FAILURE"@),
        0,
        usize::MAX as u64,
    )
    &&& s.max_concurrent_requests == number_or(
        var_named(vars, "MAX_CONCURRENT_REQUESTS"@),
        3,
        usize::MAX as u64,
    )
    &&& s.cache_expiry_time == number_or(var_named(vars, "CACHE_EXPIRY_TIME"@), 21600, u64::MAX)
    &&& s.max_cache_entries == number_or(
        var_named(vars, "MAX_CACHE_ENTRIES"@),
        500,
        usize::MAX as u64,
    )
    &&& s.calculate_cache_entries == number_or(
        var_named(vars, "CALCULATE_CACHE_ENTRIES"@),
        6,
        usize::MAX as u64,
    )
    &&& s.random_string_length == number_or(
        var_named(vars, "RANDOM_STRING_LENGTH"@),
        5,
        usize::MAX as u64,
    )
    &&& s.max_empty_responses == number_or(
        var_named(vars, "MAX_EMPTY_RESPONSES"@),
        5,
        usize::MAX as u64,
    )
    &&& s.max_retry_num == number_or(var_named(vars, "MAX_RETRY_NUM"@), 15, usize::MAX as u64)
    &&& s.max_requests_per_minute == number_or(
        var_named(vars, "MAX_REQUESTS_PER_MINUTE"@),
        30,
        u32::MAX as u64,
    )
    &&& s.max_requests_per_day_per_ip == number_or(
        var_named(vars, "MAX_REQUESTS_PER_DAY_PER_IP"@),
        600,
        u32::MAX as u64,
    )
    &&& s.api_key_daily_limit == number_or(
        var_named(vars, "API_KEY_DAILY_LIMIT"@),
        100,
        u32::MAX as u64,
    )
    &&& s.nonstream_keepalive_interval_ms == millis_or(
        var_named(vars, "NONSTREAM_KEEPALIVE_INTERVAL"@),
        5000,
    )
    &&& views(s.blocked_models@) == distinct(items_or_none(var_named(vars, "BLOCKED_MODELS"@)))
    &&& views(s.whitelist_models@) == distinct(
        items_or_none(var_named(vars, "WHITELIST_MODELS"@)),
    )
    &&& views(s.whitelist_user_agent@) == distinct(
        lowered_items(value_or(var_named(vars, "WHITELIST_USER_AGENT"@), ""@)),
    )
    &&& views(s.allowed_origins@) == items_or_none(var_named(vars, "ALLOWED_ORIGINS"@))
    &&& views(s.invalid_api_keys@) == items_or_none(var_named(vars, "INVALID_API_KEYS"@))
    &&& s.base_dir@ == value_or(base_dir, "."@)
    &&& s.version.local_version@ == "0.0.0"@
    &&& s.version.remote_version@ == "0.0.0"@
    &&& !s.version.has_update
    &&& s.api_call_stats.calls@.len() == 0
}

/// Looks the variable `name` up among `vars`.
pub fn lookup<'a>(vars: &'a Vec<(String, String)>, name: &str) -> (r: Option<&'a String>)
    ensures
        match r {
            Some(v) => var_named(vars@, name@) == Some(v@),
            None => var_named(vars@, name@) is None,
        },
{
    let mut i: usize = 0;
    proof {
        assert(vars@.skip(0) == vars@);
    }
    while i < vars.len()
        invariant
            i <= vars.len(),
            var_named(vars@, name@) == var_named(vars@.skip(i as int), name@),
        decreases vars.len() - i,
    {
        if str_eq(vars[i].0.as_str(), name) {
            return Some(&vars[i].1);
        }
        proof {
            assert(vars@.skip(i as int).skip(1) == vars@.skip(i as int + 1));
        }
        i += 1;
    }
    None
}

/// Takes the double quotes off the start and the end of a text.
pub fn unquote(value: &str) -> (r: String)
    ensures
        r@ == unquoted(value@),
{
    let v = chars_of(value);
    let mut i: usize = 0;
    proof {
        assert(v@.skip(0) == v@);
    }
    while i < v.len() && v[i] == '"'
        invariant
            i <= v.len(),
            without_leading_quotes(v@) == without_leading_quotes(v@.skip(i as int)),
        decreases v.len() - i,
    {
        proof {
            assert(v@.skip(i as int).drop_first() == v@.skip(i as int + 1));
        }
        i += 1;
    }
    let mut j: usize = v.len();
    proof {
        assert(v@.subrange(i as int, j as int) == v@.skip(i as int));
    }
    while j > i && v[j - 1] == '"'
        invariant
            i <= j <= v.len(),
            without_trailing_quotes(v@.skip(i as int)) == without_trailing_quotes(
                v@.subrange(i as int, j as int),
            ),
        decreases j - i,
    {
        proof {
            assert(v@.subrange(i as int, j as int).drop_last() == v@.subrange(
                i as int,
                j as int - 1,
            ));
        }
        j -= 1;
    }
    let kept = copy_range(v.as_slice(), i, j);
    string_of(kept.as_slice())
}

fn text(vars: &Vec<(String, String)>, name: &str, unset: &str) -> (r: String)
    ensures
        r@ == value_or(var_named(vars@, name@), unset@),
{
    match lookup(vars, name) {
        Some(v) => v.clone(),
        None => unset.to_string(),
    }
}

fn switch(vars: &Vec<(String, String)>, name: &str, unset: bool) -> (r: bool)
    ensures
        r == switch_or(var_named(vars@, name@), unset),
{
    match lookup(vars, name) {
        Some(v) => parse_bool(v.as_str()),
        None => unset,
    }
}

fn number(vars: &Vec<(String, String)>, name: &str, unset: u64, max: u64) -> (r: u64)
    requires
        unset <= max,
    ensures
        r == number_or(var_named(vars@, name@), unset, max),
        r <= max,
{
    match lookup(vars, name) {
        Some(v) => {
            let c = chars_of(v.as_str());
            match parse_unsigned(c.as_slice(), max) {
                Some(n) => {
                    proof {
                        crate::utils::text::lemma_digits_value_nonnegative(
                            crate::utils::numbers::without_plus(c@),
                        );
                    }
                    n
                },
                None => unset,
            }
        },
        None => unset,
    }
}

fn size(vars: &Vec<(String, String)>, name: &str, unset: usize) -> (r: usize)
    ensures
        r == number_or(var_named(vars@, name@), unset as u64, usize::MAX as u64),
{
    number(vars, name, unset as u64, usize::MAX as u64) as usize
}

fn limit(vars: &Vec<(String, String)>, name: &str, unset: u32) -> (r: u32)
    ensures
        r == number_or(var_named(vars@, name@), unset as u64, u32::MAX as u64),
{
    number(vars, name, unset as u64, u32::MAX as u64) as u32
}

fn millis(vars: &Vec<(String, String)>, name: &str, unset: u64) -> (r: u64)
    ensures
        r == millis_or(var_named(vars@, name@), unset),
{
    match lookup(vars, name) {
        Some(v) => {
            let c = chars_of(v.as_str());
            match parse_millis(c.as_slice()) {
                Some(n) => n,
                None => unset,
            }
        },
        None => unset,
    }
}

fn list(vars: &Vec<(String, String)>, name: &str) -> (r: Vec<String>)
    ensures
        views(r@) == items_or_none(var_named(vars@, name@)),
{
    match lookup(vars, name) {
        Some(v) => parse_comma_separated(v.as_str()),
        None => {
            let r: Vec<String> = Vec::new();
            proof {
                assert(views(r@) == Seq::<Seq<char>>::empty());
            }
            r
        },
    }
}

fn set(vars: &Vec<(String, String)>, name: &str) -> (r: Vec<String>)
    ensures
        views(r@) == distinct(items_or_none(var_named(vars@, name@))),
{
    match lookup(vars, name) {
        Some(v) => parse_comma_separated_set(v.as_str()),
        None => {
            let r: Vec<String> = Vec::new();
            proof {
                assert(views(r@) == Seq::<Seq<char>>::empty());
                assert(distinct(Seq::<Seq<char>>::empty()) == Seq::<Seq<char>>::empty());
            }
            r
        },
    }
}

impl Settings {
    /// The settings that the variables `vars` give: each setting has the
    /// value of its variable, or its usual value where the variable is not
    /// set or cannot be read as the setting wants it.
    pub fn load(vars: &Vec<(String, String)>, base_dir: Option<String>) -> (s: Self)
        ensures
            loaded(s, vars@, crate::models::schemas::opt_view(base_dir)),
    {
        let password = unquote(text(vars, "PASSWORD", "123").as_str());
        let web_password = unquote(text(vars, "WEB_PASSWORD", password.as_str()).as_str());
        let port: u16 = match lookup(vars, "PORT") {
            Some(_) => number(vars, "PORT", 7860, 0xffff) as u16,
            None => 7860,
        };
        let chunk_size: i32 = match lookup(vars, "FAKE_STREAMING_CHUNK_SIZE") {
            Some(v) => {
                let c = chars_of(v.as_str());
                match parse_signed(c.as_slice(), i32::MIN as i64, i32::MAX as i64) {
                    Some(n) => n as i32,
                    None => 10,
                }
            },
            None => 10,
        };
        let agents = text(vars, "WHITELIST_USER_AGENT", "");
        Settings {
            password,
            web_password,
            gemini_api_keys: list(vars, "GEMINI_API_KEYS"),
            port: Some(port),
            fake_streaming: switch(vars, "FAKE_STREAMING", true),
            fake_streaming_interval_ms: millis(vars, "FAKE_STREAMING_INTERVAL", 1000),
            fake_streaming_chunk_size: chunk_size,
            fake_streaming_delay_per_chunk_ms: millis(vars, "FAKE_STREAMING_DELAY_PER_CHUNK", 100),
            storage_dir: text(vars, "STORAGE_DIR", DEFAULT_STORAGE_DIR),
            enable_storage: switch(vars, "ENABLE_STORAGE", false),
            concurrent_requests: size(vars, "CONCURRENT_REQUESTS", 1),
            increase_concurrent_on_failure: size(vars, "INCREASE_CONCURRENT_ON_FAILURE", 0),
            max_concurrent_requests: size(vars, "MAX_CONCURRENT_REQUESTS", 3),
            cache_expiry_time: number(vars, "CACHE_EXPIRY_TIME", 21600, u64::MAX),
            max_cache_entries: size(vars, "MAX_CACHE_ENTRIES", 500),
            calculate_cache_entries: size(vars, "CALCULATE_CACHE_ENTRIES", 6),
            precise_cache: switch(vars, "PRECISE_CACHE", false),
            enable_vertex: switch(vars, "ENABLE_VERTEX", false),
            google_credentials_json: text(vars, "GOOGLE_CREDENTIALS_JSON", ""),
            enable_vertex_express: switch(vars, "ENABLE_VERTEX_EXPRESS", false),
            vertex_express_api_key: text(vars, "VERTEX_EXPRESS_API_KEY", ""),
            search: SearchConfig {
                search_mode: switch(vars, "SEARCH_MODE", false),
                search_prompt: unquote(text(vars, "SEARCH_PROMPT", DEFAULT_SEARCH_PROMPT).as_str()),
            },
            random_string: switch(vars, "RANDOM_STRING", true),
            random_string_length: size(vars, "RANDOM_STRING_LENGTH", 5),
            max_empty_responses: size(vars, "MAX_EMPTY_RESPONSES", 5),
            show_api_error_message: switch(vars, "SHOW_API_ERROR_MESSAGE", true),
            max_retry_num: size(vars, "MAX_RETRY_NUM", 15),
            max_requests_per_minute: limit(vars, "MAX_REQUESTS_PER_MINUTE", 30),
            max_requests_per_day_per_ip: limit(vars, "MAX_REQUESTS_PER_DAY_PER_IP", 600),
            api_key_daily_limit: limit(vars, "API_KEY_DAILY_LIMIT", 100),
            blocked_models: set(vars, "BLOCKED_MODELS"),
            whitelist_models: set(vars, "WHITELIST_MODELS"),
            whitelist_user_agent: parse_comma_separated_set_lowercase(agents.as_str()),
            public_mode: switch(vars, "PUBLIC_MODE", false),
            dashboard_url: text(vars, "DASHBOARD_URL", ""),
            allowed_origins: list(vars, "ALLOWED_ORIGINS"),
            nonstream_keepalive_enabled: switch(vars, "NONSTREAM_KEEPALIVE_ENABLED", true),
            nonstream_keepalive_interval_ms: millis(vars, "NONSTREAM_KEEPALIVE_INTERVAL", 5000),
            base_dir: match base_dir {
                Some(dir) => dir,
                None => ".".to_string(),
            },
            invalid_api_keys: list(vars, "INVALID_API_KEYS"),
            version: VersionInfo {
                local_version: "0.0.0".to_string(),
                remote_version: "0.0.0".to_string(),
                has_update: false,
            },
            api_call_stats: ApiCallStats { calls: Vec::new() },
        }
    }
}

} // verus!
