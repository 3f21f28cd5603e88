//! The administrative surface: what the dashboard shows of the engine, and
//! the operations that an administrator may run on it.

use crate::api::routes::AppState;
use crate::config::manager::{
    wrap_u32, wrap_usize, wrapped_u32, wrapped_usize, ConfigError, ConfigValue,
};
use crate::config::settings::Settings;
use crate::models::schemas::{ApiStats, ConfigInfo, ServiceStatus, VersionInfo};
use crate::utils::api_key::ApiKeyStats;
use crate::utils::auth::{
    authenticate_request, is_authenticated, prefix, prefix_of, scope_of, verify_web_password,
    AuthHeaders, AuthQuery, AuthScope, TOKEN_PREFIX_LEN,
};
use crate::utils::cache::SlotView;
use crate::utils::clock::{show_time, shown_time};
use crate::utils::keyed::lists_domain;
use crate::utils::stats::{aggregate, ModelCounters, RecordView};
use crate::utils::text::{append_str, str_eq, string_of};
use crate::utils::version::{get_current_version, CURRENT_VERSION};
use vstd::prelude::*;

verus! {

/// The status of a request that lacks a valid token.
pub const UNAUTHORIZED: u16 = 401;

/// The status of a request that lacks the rights of an administrator.
pub const FORBIDDEN: u16 = 403;

/// The status of a request with a value of the wrong kind.
pub const BAD_REQUEST: u16 = 400;

/// The statistics of one credential, with the credential named by its first
/// characters only.
#[derive(Debug, Clone)]
pub struct KeyStatInfo {
    pub key_prefix: String,
    pub daily_usage: u32,
    pub last_used: String,
    pub consecutive_failures: u32,
}

/// The form in which the time of last use is shown.
pub const LAST_USED_FORMAT: &'static str = "%Y-%m-%d %H:%M:%S UTC";

/// Whether `info` shows the statistics `stats` of the credential `key`: the
/// first characters of the key followed by an ellipsis, the counters, and
/// the time of last use.
pub open spec fn shows(info: KeyStatInfo, key: Seq<char>, stats: ApiKeyStats) -> bool {
    &&& info.key_prefix@ == prefix_of(key, TOKEN_PREFIX_LEN as int) + "..."@
    &&& info.daily_usage == stats.daily_usage
    &&& info.last_used@ == shown_time(stats.last_used, LAST_USED_FORMAT@)
    &&& info.consecutive_failures == stats.consecutive_failures
}

/// The dashboard's view of the statistics of one credential.
pub fn key_stat_info(key: &str, stats: ApiKeyStats) -> (info: KeyStatInfo)
    ensures
        shows(info, key@, stats),
{
    let mut head = prefix(key, TOKEN_PREFIX_LEN);
    append_str(&mut head, "...");
    let last_used = show_time(stats.last_used, LAST_USED_FORMAT);
    KeyStatInfo {
        key_prefix: string_of(head.as_slice()),
        daily_usage: stats.daily_usage,
        last_used,
        consecutive_failures: stats.consecutive_failures,
    }
}

/// Everything that the dashboard shows.
#[derive(Debug, Clone)]
pub struct DashboardResponse {
    pub status: ServiceStatus,
    pub stats: ApiStats,
    pub config: ConfigInfo,
    pub version: VersionInfo,
    pub key_stats: Vec<KeyStatInfo>,
}

/// The traffic counters as the dashboard shows them.
pub open spec fn shown_stats(s: crate::utils::stats::ApiStats) -> ApiStats {
    ApiStats {
        total_requests: s.total_requests,
        successful_requests: s.successful_requests,
        failed_requests: s.failed_requests,
        tokens_used: s.total_tokens,
        requests_per_minute: s.requests_last_minute,
        requests_per_hour: s.requests_last_hour,
        requests_per_day: s.requests_last_day,
    }
}

/// The switches as the dashboard shows them. The cache counts as enabled
/// when it has room for anything.
pub open spec fn shown_config(settings: Settings) -> ConfigInfo {
    ConfigInfo {
        fake_streaming: settings.fake_streaming,
        concurrent_requests: settings.concurrent_requests,
        cache_enabled: settings.max_cache_entries > 0,
        vertex_enabled: settings.enable_vertex,
        search_mode: settings.search.search_mode,
    }
}

fn stats_for_dashboard(s: crate::utils::stats::ApiStats) -> (r: ApiStats)
    ensures
        r == shown_stats(s),
{
    ApiStats {
        total_requests: s.total_requests,
        successful_requests: s.successful_requests,
        failed_requests: s.failed_requests,
        tokens_used: s.total_tokens,
        requests_per_minute: s.requests_last_minute,
        requests_per_hour: s.requests_last_hour,
        requests_per_day: s.requests_last_day,
    }
}

fn config_for_dashboard(settings: &Settings) -> (r: ConfigInfo)
    ensures
        r == shown_config(*settings),
{
    ConfigInfo {
        fake_streaming: settings.fake_streaming,
        concurrent_requests: settings.concurrent_requests,
        cache_enabled: settings.max_cache_entries > 0,
        vertex_enabled: settings.enable_vertex,
        search_mode: settings.search.search_mode,
    }
}

/// The traffic counters, for an authenticated caller.
pub fn get_stats(state: &AppState, headers: &AuthHeaders, query: &AuthQuery) -> (r: Result<
    ApiStats,
    u16,
>)
    ensures
        r == (if is_authenticated(*headers, *query, state.settings) {
            Ok::<ApiStats, u16>(shown_stats(state@.accountant.cached))
        } else {
            Err::<ApiStats, u16>(UNAUTHORIZED)
        }),
{
    if !authenticate_request(headers, query, &state.settings).authenticated {
        return Err(UNAUTHORIZED);
    }
    Ok(stats_for_dashboard(state.stats_manager.get_stats()))
}

/// The switches, for an authenticated caller.
pub fn get_config(state: &AppState, headers: &AuthHeaders, query: &AuthQuery) -> (r: Result<
    ConfigInfo,
    u16,
>)
    ensures
        r == (if is_authenticated(*headers, *query, state.settings) {
            Ok::<ConfigInfo, u16>(shown_config(state.settings))
        } else {
            Err::<ConfigInfo, u16>(UNAUTHORIZED)
        }),
{
    if !authenticate_request(headers, query, &state.settings).authenticated {
        return Err(UNAUTHORIZED);
    }
    Ok(config_for_dashboard(&state.settings))
}

/// The keys of a list of credential statistics.
pub open spec fn stat_keys(pairs: Seq<(String, ApiKeyStats)>) -> Seq<String> {
    pairs.map_values(|e: (String, ApiKeyStats)| e.0)
}

/// Whether `shown` is what the dashboard shows of the statistics `stats`:
/// one entry for each credential that has statistics, in some order.
pub open spec fn key_stats_shown(shown: Seq<KeyStatInfo>, stats: Map<Seq<char>, ApiKeyStats>) -> bool {
    exists|raw: Seq<(String, ApiKeyStats)>| #[trigger]
        lists_domain(stat_keys(raw), stats) && raw.len() == shown.len() && forall|i: int|
            0 <= i < raw.len() ==> raw[i].1 == stats[raw[i].0@] && shows(
                #[trigger] shown[i],
                raw[i].0@,
                raw[i].1,
            )
}

fn key_stats_for_dashboard(state: &AppState) -> (r: Vec<KeyStatInfo>)
    ensures
        key_stats_shown(r@, state@.pool.stats),
{
    let raw = state.key_manager.get_key_stats();
    let mut out: Vec<KeyStatInfo> = Vec::new();
    let mut i: usize = 0;
    while i < raw.len()
        invariant
            i <= raw.len(),
            out@.len() == i,
            forall|k: int| 0 <= k < i ==> shows(#[trigger] out@[k], raw@[k].0@, raw@[k].1),
        decreases raw.len() - i,
    {
        out.push(key_stat_info(raw[i].0.as_str(), raw[i].1));
        i += 1;
    }
    proof {
        assert(stat_keys(raw@) == raw@.map_values(|e: (String, ApiKeyStats)| e.0));
        assert(lists_domain(stat_keys(raw@), state@.pool.stats) && raw@.len() == out@.len()
            && forall|i: int|
            0 <= i < raw@.len() ==> raw@[i].1 == state@.pool.stats[raw@[i].0@] && shows(
                #[trigger] out@[i],
                raw@[i].0@,
                raw@[i].1,
            ));
    }
    out
}

/// The statistics of every credential, for an authenticated caller. The
/// credentials come in no particular order.
pub fn get_key_stats(state: &AppState, headers: &AuthHeaders, query: &AuthQuery) -> (r: Result<
    Vec<KeyStatInfo>,
    u16,
>)
    ensures
        r is Ok <==> is_authenticated(*headers, *query, state.settings),
        r is Err ==> r == Err::<Vec<KeyStatInfo>, u16>(UNAUTHORIZED),
        r is Ok ==> key_stats_shown(r->Ok_0@, state@.pool.stats),
{
    if !authenticate_request(headers, query, &state.settings).authenticated {
        return Err(UNAUTHORIZED);
    }
    Ok(key_stats_for_dashboard(state))
}

/// Everything that the dashboard shows, for an authenticated caller.
pub fn get_dashboard_data(
    state: &AppState,
    headers: &AuthHeaders,
    query: &AuthQuery,
    now: u64,
) -> (r: Result<DashboardResponse, u16>)
    ensures
        r is Ok <==> is_authenticated(*headers, *query, state.settings),
        r is Err ==> r == Err::<DashboardResponse, u16>(UNAUTHORIZED),
        r is Ok ==> {
            &&& r->Ok_0.status.running
            &&& r->Ok_0.status.uptime == now / 1000
            &&& r->Ok_0.status.api_keys_available == state@.pool.rotation.len()
            &&& r->Ok_0.status.cache_entries == state@.cache.slots.dom().len()
            &&& r->Ok_0.stats == shown_stats(state@.accountant.cached)
            &&& r->Ok_0.config == shown_config(state.settings)
            &&& r->Ok_0.version.current@ == CURRENT_VERSION@
            &&& r->Ok_0.version.latest is None
            &&& !r->Ok_0.version.update_available
            &&& key_stats_shown(r->Ok_0.key_stats@, state@.pool.stats)
        },
{
    if !authenticate_request(headers, query, &state.settings).authenticated {
        return Err(UNAUTHORIZED);
    }
    Ok(
        DashboardResponse {
            status: ServiceStatus {
                running: true,
                uptime: now / 1000,
                api_keys_available: state.key_manager.available_keys_count(),
                cache_entries: state.cache_manager.size(),
            },
            stats: stats_for_dashboard(state.stats_manager.get_stats()),
            config: config_for_dashboard(&state.settings),
            version: VersionInfo {
                current: get_current_version(),
                latest: None,
                update_available: false,
            },
            key_stats: key_stats_for_dashboard(state),
        },
    )
}

/// What stands between a caller and an administrative operation: nothing for
/// an administrator, else the status that turns the caller away.
pub open spec fn admin_gate(headers: AuthHeaders, query: AuthQuery, settings: Settings) -> Option<
    u16,
> {
    if !is_authenticated(headers, query, settings) {
        Some(UNAUTHORIZED)
    } else if scope_of(headers, query, settings) != AuthScope::Admin {
        Some(FORBIDDEN)
    } else {
        None
    }
}

fn check_admin(headers: &AuthHeaders, query: &AuthQuery, settings: &Settings) -> (r: Option<u16>)
    ensures
        r == admin_gate(*headers, *query, *settings),
{
    let auth = authenticate_request(headers, query, settings);
    if !auth.authenticated {
        return Some(UNAUTHORIZED);
    }
    match auth.scope {
        AuthScope::Admin => None,
        _ => Some(FORBIDDEN),
    }
}

/// Forgets every traffic record and counter, for an administrator.
pub fn reset_stats(state: &mut AppState, headers: &AuthHeaders, query: &AuthQuery, now: u64) -> (r:
    Result<(), u16>)
    ensures
        final(state).settings == old(state).settings,
        final(state)@.pool == old(state)@.pool,
        final(state)@.cache == old(state)@.cache,
        final(state)@.limiter == old(state)@.limiter,
        match admin_gate(*headers, *query, old(state).settings) {
            Some(status) => r == Err::<(), u16>(status) && final(state)@ == old(state)@,
            None => r is Ok && final(state)@.accountant.records.len() == 0 && final(state)@.accountant.models == (Map::<Seq<char>, ModelCounters>::empty()) && final(state)@.accountant.cached == aggregate(Seq::<RecordView>::empty(), now),
        },
{
    match check_admin(headers, query, &state.settings) {
        Some(status) => Err(status),
        None => {
            state.stats_manager.clear_stats(now);
            Ok(())
        },
    }
}

/// Empties the response cache, for an administrator.
pub fn clear_cache(state: &mut AppState, headers: &AuthHeaders, query: &AuthQuery) -> (r: Result<
    (),
    u16,
>)
    ensures
        final(state).settings == old(state).settings,
        final(state)@.pool == old(state)@.pool,
        final(state)@.accountant == old(state)@.accountant,
        final(state)@.limiter == old(state)@.limiter,
        match admin_gate(*headers, *query, old(state).settings) {
            Some(status) => r == Err::<(), u16>(status) && final(state)@ == old(state)@,
            None => r is Ok && final(state)@.cache.slots == (Map::<Seq<char>, SlotView>::empty())
                && final(state)@.cache.ttl == old(state)@.cache.ttl && final(state)@.cache.capacity == old(state)@.cache.capacity,
        },
{
    match check_admin(headers, query, &state.settings) {
        Some(status) => Err(status),
        None => {
            state.cache_manager.clear();
            Ok(())
        },
    }
}

/// Sets the usage of the day back to zero for every credential, for an
/// administrator.
pub fn reset_keys(state: &mut AppState, headers: &AuthHeaders, query: &AuthQuery) -> (r: Result<
    (),
    u16,
>)
    ensures
        final(state).settings == old(state).settings,
        final(state)@.cache == old(state)@.cache,
        final(state)@.accountant == old(state)@.accountant,
        final(state)@.limiter == old(state)@.limiter,
        match admin_gate(*headers, *query, old(state).settings) {
            Some(status) => r == Err::<(), u16>(status) && final(state)@ == old(state)@,
            None => r is Ok && final(state)@.pool == crate::utils::api_key::after_reset(
                old(state)@.pool,
            ),
        },
{
    match check_admin(headers, query, &state.settings) {
        Some(status) => Err(status),
        None => {
            state.key_manager.reset_daily_usage();
            Ok(())
        },
    }
}

/// What a request to change a setting comes to.
#[derive(Debug, Clone, Copy, PartialEq, Eq, Structural)]
pub enum ConfigUpdateStatus {
    /// The value is fit for the setting.
    Accepted,
    /// The dashboard cannot change a setting of that name.
    Unsupported,
}

impl ConfigUpdateStatus {
    /// The word under which the outcome is reported.
    pub fn status(&self) -> (r: String)
        ensures
            r@ == (match *self {
                ConfigUpdateStatus::Accepted => "success"@,
                ConfigUpdateStatus::Unsupported => "error"@,
            }),
    {
        match self {
            ConfigUpdateStatus::Accepted => "success".to_string(),
            ConfigUpdateStatus::Unsupported => "error".to_string(),
        }
    }

    /// The text with which the outcome is reported for the setting named
    /// `key`.
    pub fn message(&self, key: &str) -> (r: String)
        ensures
            r@ == (match *self {
                ConfigUpdateStatus::Accepted => "Configuration item "@ + key@ + " updated"@,
                ConfigUpdateStatus::Unsupported => "Unsupported configuration key: "@ + key@,
            }),
    {
        match self {
            ConfigUpdateStatus::Accepted => {
                let mut text: Vec<char> = Vec::new();
                append_str(&mut text, "Configuration item ");
                append_str(&mut text, key);
                append_str(&mut text, " updated");
                string_of(text.as_slice())
            },
            ConfigUpdateStatus::Unsupported => ConfigError::UnsupportedKey.message(key),
        }
    }
}

/// Whether `value` is fit for the setting named `key`: a switch for a
/// switch, a number that is not zero for a count or a limit, a text for the
/// upstream keys.
pub open spec fn value_fits(key: Seq<char>, value: ConfigValue) -> bool {
    if key == "fake_streaming"@ || key == "search_mode"@ || key == "random_string"@ || key
        == "enable_vertex"@ {
        value.as_bool is Some
    } else if key == "concurrent_requests"@ {
        value.as_u64 is Some && wrapped_usize(value.as_u64->0) > 0
    } else if key == "cache_expiry_time"@ {
        value.as_u64 is Some && value.as_u64->0 > 0
    } else if key == "max_requests_per_minute"@ || key == "max_requests_per_day_per_ip"@ {
        value.as_u64 is Some && wrapped_u32(value.as_u64->0) > 0
    } else {
        value.as_str is Some
    }
}

/// Whether the dashboard can change the setting named `key`.
pub open spec fn dashboard_key(key: Seq<char>) -> bool {
    key == "fake_streaming"@ || key == "search_mode"@ || key == "random_string"@ || key
        == "enable_vertex"@ || key == "concurrent_requests"@ || key == "cache_expiry_time"@ || key
        == "max_requests_per_minute"@ || key == "max_requests_per_day_per_ip"@ || key
        == "gemini_api_keys"@
}

/// What a request to change a setting comes to: unauthorized without the
/// dashboard password, a bad request with a value that does not fit.
pub open spec fn update_verdict(
    settings: Settings,
    password: Seq<char>,
    key: Seq<char>,
    value: ConfigValue,
) -> Result<ConfigUpdateStatus, u16> {
    if password != settings.web_password@ {
        Err(UNAUTHORIZED)
    } else if !dashboard_key(key) {
        Ok(ConfigUpdateStatus::Unsupported)
    } else if value_fits(key, value) {
        Ok(ConfigUpdateStatus::Accepted)
    } else {
        Err(BAD_REQUEST)
    }
}

/// Judges a request to change a setting. The change itself is made by the
/// configuration manager.
pub fn update_config(settings: &Settings, password: &str, key: &str, value: &ConfigValue) -> (r:
    Result<ConfigUpdateStatus, u16>)
    ensures
        r == update_verdict(*settings, password@, key@, *value),
{
    if !verify_web_password(password, settings) {
        return Err(UNAUTHORIZED);
    }
    let fits = if str_eq(key, "fake_streaming") || str_eq(key, "search_mode") || str_eq(
        key,
        "random_string",
    ) || str_eq(key, "enable_vertex") {
        value.as_bool.is_some()
    } else if str_eq(key, "concurrent_requests") {
        match value.as_u64 {
            Some(n) => wrap_usize(n) > 0,
            None => false,
        }
    } else if str_eq(key, "cache_expiry_time") {
        match value.as_u64 {
            Some(n) => n > 0,
            None => false,
        }
    } else if str_eq(key, "max_requests_per_minute") || str_eq(key, "max_requests_per_day_per_ip") {
        match value.as_u64 {
            Some(n) => wrap_u32(n) > 0,
            None => false,
        }
    } else if str_eq(key, "gemini_api_keys") {
        value.as_str.is_some()
    } else {
        return Ok(ConfigUpdateStatus::Unsupported);
    };
    if fits {
        Ok(ConfigUpdateStatus::Accepted)
    } else {
        Err(BAD_REQUEST)
    }
}

} // verus!
