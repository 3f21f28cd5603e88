//! The per-request pipeline: admission, cache lookup, credential
//! acquisition, and the bookkeeping that follows an upstream outcome, for
//! plain, emulated-streaming and streaming requests.
//!
//! The pipeline never waits. The caller performs the upstream call and hands
//! its outcome back: [`chat_completions`] decides what to do with a request,
//! [`handle_non_streaming_request`], [`handle_fake_streaming`] and
//! [`handle_real_streaming`] with [`StreamSession::on_event`] decide what
//! follows each outcome. Time is passed in, as milliseconds since the epoch.

use crate::config::settings::{list_contains, Settings};
use crate::models::schemas::{
    duplicate_opt, is_content_chunk, opt_view, total_tokens_of, ChatCompletionChunk,
    ChatCompletionRequest, ChatCompletionResponse, ChatCompletionResponseView, ErrorResponse,
    Model, ModelResponse,
};
use crate::utils::api_key::{acquired_key, after_acquire, after_release, ApiKeyManager, PoolView};
use crate::utils::auth::{
    agent_allowed, authenticate_request, is_authenticated, validate_user_agent, AuthHeaders,
    AuthQuery,
};
use crate::utils::cache::{
    after_get, after_insert, cache_key_of, evicted, generate_cache_key, lookup, CacheView,
    ResponseCacheManager,
};
use crate::utils::rate_limiting::{
    after_check, global_denied, ip_denied, LimiterView, RateLimiter,
};
use crate::utils::response::{byte_count, create_error_json, estimate_tokens, estimated_tokens};
use crate::utils::stats::{
    after_record, clamp_u32, count_of, from_ip_within, AccountantView, ApiStatsManager,
    RecordView, DAY_MS,
};
use crate::utils::text::{chars_of, split, split_on, string_of, trim, trimmed, views};
use vstd::prelude::*;

verus! {

/// Headers that may carry the address of the client.
#[derive(Debug, Clone)]
pub struct ForwardedHeaders {
    pub x_forwarded_for: Option<String>,
    pub x_real_ip: Option<String>,
    pub cf_connecting_ip: Option<String>,
}

/// What the pipeline reads of the envelope of a request.
#[derive(Debug, Clone)]
pub struct RequestMeta {
    pub auth: AuthHeaders,
    pub query: AuthQuery,
    pub user_agent: Option<String>,
    pub forwarded: ForwardedHeaders,
}

/// How the upstream is to be called and the answer delivered.
#[derive(Debug, Clone, Copy, PartialEq, Eq, Structural)]
pub enum DispatchMode {
    /// One upstream call, one response.
    NonStreaming,
    /// One upstream call, delivered as a stream of one data event.
    FakeStreaming,
    /// Upstream chunks are passed through as they arrive.
    RealStreaming,
}

/// The context of one request between admission and completion.
#[derive(Debug, Clone)]
pub struct InFlightRequest {
    pub api_key: String,
    pub cache_key: Option<String>,
    pub model: String,
    pub client_ip: Option<String>,
    pub start_time: u64,
    pub mode: DispatchMode,
}

/// Why a request was not served.
#[derive(Debug, Clone)]
pub enum GatewayError {
    Authentication,
    ForbiddenAgent,
    RateLimited { message: String, retry_after: u64 },
    ModelNotAllowed,
    NoCredentialsAvailable,
    Upstream { message: String },
    StreamAbort { message: String },
}

/// The type under which an error is reported.
pub open spec fn error_type_of(e: GatewayError) -> Seq<char> {
    match e {
        GatewayError::Authentication => "authentication_error"@,
        GatewayError::ForbiddenAgent => "forbidden_error"@,
        GatewayError::RateLimited { .. } => "rate_limit_error"@,
        GatewayError::ModelNotAllowed => "invalid_model"@,
        GatewayError::NoCredentialsAvailable => "service_unavailable"@,
        GatewayError::Upstream { .. } => "api_error"@,
        GatewayError::StreamAbort { .. } => "stream_error"@,
    }
}

/// The message with which an error is reported.
pub open spec fn error_message_of(e: GatewayError) -> Seq<char> {
    match e {
        GatewayError::Authentication => "Unauthorized"@,
        GatewayError::ForbiddenAgent => "Forbidden user agent"@,
        GatewayError::RateLimited { message, .. } => message@,
        GatewayError::ModelNotAllowed => "Model not allowed"@,
        GatewayError::NoCredentialsAvailable => "No API keys available"@,
        GatewayError::Upstream { message } => message@,
        GatewayError::StreamAbort { message } => message@,
    }
}

/// The HTTP status with which an error is reported.
pub open spec fn error_status_of(e: GatewayError) -> u16 {
    match e {
        GatewayError::Authentication => 401,
        GatewayError::ForbiddenAgent => 403,
        GatewayError::RateLimited { .. } => 429,
        GatewayError::ModelNotAllowed => 400,
        GatewayError::NoCredentialsAvailable => 503,
        GatewayError::Upstream { .. } => 500,
        GatewayError::StreamAbort { .. } => 500,
    }
}

impl GatewayError {
    /// The type under which the error is reported.
    pub fn error_type(&self) -> (r: String)
        ensures
            r@ == error_type_of(*self),
    {
        match self {
            GatewayError::Authentication => "authentication_error".to_string(),
            GatewayError::ForbiddenAgent => "forbidden_error".to_string(),
            GatewayError::RateLimited { .. } => "rate_limit_error".to_string(),
            GatewayError::ModelNotAllowed => "invalid_model".to_string(),
            GatewayError::NoCredentialsAvailable => "service_unavailable".to_string(),
            GatewayError::Upstream { .. } => "api_error".to_string(),
            GatewayError::StreamAbort { .. } => "stream_error".to_string(),
        }
    }

    /// The message with which the error is reported.
    pub fn message(&self) -> (r: String)
        ensures
            r@ == error_message_of(*self),
    {
        match self {
            GatewayError::Authentication => "Unauthorized".to_string(),
            GatewayError::ForbiddenAgent => "Forbidden user agent".to_string(),
            GatewayError::RateLimited { message, .. } => message.clone(),
            GatewayError::ModelNotAllowed => "Model not allowed".to_string(),
            GatewayError::NoCredentialsAvailable => "No API keys available".to_string(),
            GatewayError::Upstream { message } => message.clone(),
            GatewayError::StreamAbort { message } => message.clone(),
        }
    }

    /// The HTTP status with which the error is reported.
    pub fn status(&self) -> (r: u16)
        ensures
            r == error_status_of(*self),
    {
        match self {
            GatewayError::Authentication => 401,
            GatewayError::ForbiddenAgent => 403,
            GatewayError::RateLimited { .. } => 429,
            GatewayError::ModelNotAllowed => 400,
            GatewayError::NoCredentialsAvailable => 503,
            GatewayError::Upstream { .. } => 500,
            GatewayError::StreamAbort { .. } => 500,
        }
    }

    /// After how many seconds a retry may succeed, for a rate-limit denial.
    pub fn retry_after_seconds(&self) -> (r: Option<u64>)
        ensures
            r == (match *self {
                GatewayError::RateLimited { retry_after, .. } => Some(retry_after),
                _ => None::<u64>,
            }),
    {
        match self {
            GatewayError::RateLimited { retry_after, .. } => Some(*retry_after),
            _ => None,
        }
    }

    /// The structured payload that the client receives.
    pub fn payload(&self) -> (r: ErrorResponse)
        ensures
            r.error.message@ == error_message_of(*self),
            r.error.error_type@ == error_type_of(*self),
            r.error.code is None,
            r.error.param is None,
    {
        let message = self.message();
        let error_type = self.error_type();
        create_error_json(message.as_str(), error_type.as_str())
    }
}

/// What admission decides.
#[derive(Debug, Clone)]
pub enum Admission {
    /// The request is turned away.
    Rejected(GatewayError),
    /// The answer was in the cache.
    Cached(ChatCompletionResponse),
    /// The upstream is to be called with the credential of the context.
    Dispatch(InFlightRequest),
}

/// What a plain request is answered with.
#[derive(Debug, Clone)]
pub enum Reply {
    Json(ChatCompletionResponse),
    Error(GatewayError),
}

/// One step of what a streaming client receives.
#[derive(Debug, Clone)]
pub enum StreamEvent {
    /// A data event with a translated upstream chunk.
    Chunk(ChatCompletionChunk),
    /// A data event with a complete response.
    Response(ChatCompletionResponse),
    /// A data event with an error payload.
    Error(ErrorResponse),
    /// The end of the stream.
    Done,
}

/// The kind of a stream event.
#[derive(Debug, Clone, Copy, PartialEq, Eq, Structural)]
pub enum EventKind {
    Data,
    Error,
    Done,
}

/// The kind of a stream event.
pub open spec fn kind_of(e: StreamEvent) -> EventKind {
    match e {
        StreamEvent::Chunk(_) => EventKind::Data,
        StreamEvent::Response(_) => EventKind::Data,
        StreamEvent::Error(_) => EventKind::Error,
        StreamEvent::Done => EventKind::Done,
    }
}

/// The kinds of a run of stream events.
pub open spec fn kinds_of(events: Seq<StreamEvent>) -> Seq<EventKind> {
    events.map_values(|e: StreamEvent| kind_of(e))
}

/// The shared services of the engine.
pub struct AppState {
    pub settings: Settings,
    pub key_manager: ApiKeyManager,
    pub cache_manager: ResponseCacheManager,
    pub stats_manager: ApiStatsManager,
    pub rate_limiter: RateLimiter,
}

/// The model of the engine: the models of its services.
#[verifier::ext_equal]
pub struct EngineView {
    pub pool: PoolView,
    pub cache: CacheView,
    pub accountant: AccountantView,
    pub limiter: LimiterView,
}

impl View for AppState {
    type V = EngineView;

    open spec fn view(&self) -> EngineView {
        EngineView {
            pool: self.key_manager@,
            cache: self.cache_manager@,
            accountant: self.stats_manager@,
            limiter: self.rate_limiter@,
        }
    }
}

impl AppState {
    /// The services for the given settings, all empty, created at `now`.
    pub fn new(settings: Settings, now: u64) -> (state: Self)
        ensures
            state.settings == settings,
            state@.pool.rotation.len() == 0,
            state@.pool.daily_limit == settings.api_key_daily_limit,
            state@.cache.slots.dom() =~= Set::<Seq<char>>::empty(),
            state@.cache.ttl == settings.cache_expiry_time,
            state@.cache.capacity == settings.max_cache_entries,
            state@.accountant.records.len() == 0,
            state@.limiter.global.len() == 0,
            state@.limiter.minute_limit == settings.max_requests_per_minute,
            state@.limiter.day_limit == settings.max_requests_per_day_per_ip,
    {
        let key_manager = ApiKeyManager::new(&settings);
        let cache_manager = ResponseCacheManager::new(&settings);
        let stats_manager = ApiStatsManager::new(now);
        let rate_limiter = RateLimiter::new(
            settings.max_requests_per_minute,
            settings.max_requests_per_day_per_ip,
        );
        AppState { settings, key_manager, cache_manager, stats_manager, rate_limiter }
    }
}

/// The first address that a forwarding header names.
pub open spec fn first_address(value: Seq<char>) -> Seq<char> {
    trimmed(split_on(value, ',')[0])
}

/// The address of the client, from the first forwarding header that is
/// present.
pub open spec fn client_ip_of(f: ForwardedHeaders) -> Option<Seq<char>> {
    if f.x_forwarded_for is Some {
        Some(first_address(f.x_forwarded_for->0@))
    } else if f.x_real_ip is Some {
        Some(first_address(f.x_real_ip->0@))
    } else if f.cf_connecting_ip is Some {
        Some(first_address(f.cf_connecting_ip->0@))
    } else {
        None
    }
}

fn first_address_of(value: &str) -> (r: String)
    ensures
        r@ == first_address(value@),
{
    let v = chars_of(value);
    let pieces = split(v.as_slice(), ',');
    proof {
        assert(crate::utils::text::char_views(pieces@)[0] == pieces@[0]@);
    }
    let t = trim(pieces[0].as_slice());
    string_of(t.as_slice())
}

/// Finds the address of the client.
pub fn extract_client_ip(forwarded: &ForwardedHeaders) -> (r: Option<String>)
    ensures
        opt_view(r) == client_ip_of(*forwarded),
{
    match &forwarded.x_forwarded_for {
        Some(v) => {
            return Some(first_address_of(v.as_str()));
        },
        None => {},
    }
    match &forwarded.x_real_ip {
        Some(v) => {
            return Some(first_address_of(v.as_str()));
        },
        None => {},
    }
    match &forwarded.cf_connecting_ip {
        Some(v) => Some(first_address_of(v.as_str())),
        None => None,
    }
}

/// Whether a model may be used: with a whitelist, only what is on it;
/// without one, everything that is not blocked.
pub open spec fn model_allowed(model: Seq<char>, settings: Settings) -> bool {
    if settings.whitelist_models@.len() > 0 {
        views(settings.whitelist_models@).contains(model)
    } else {
        !views(settings.blocked_models@).contains(model)
    }
}

/// Checks a model against the whitelist and the blocklist.
pub fn is_model_allowed(model: &str, settings: &Settings) -> (r: bool)
    ensures
        r == model_allowed(model@, *settings),
{
    if settings.whitelist_models.len() > 0 {
        return list_contains(&settings.whitelist_models, model);
    }
    !list_contains(&settings.blocked_models, model)
}

/// The identifiers under which the models are listed: each model, followed
/// by its search variant when search is switched on and the name begins with
/// `gemini`.
pub open spec fn listed_ids(models: Seq<Seq<char>>, search: bool) -> Seq<Seq<char>>
    decreases models.len(),
{
    if models.len() == 0 {
        Seq::<Seq<char>>::empty()
    } else {
        let init = listed_ids(models.drop_last(), search).push(models.last());
        if search && crate::utils::text::starts_with(models.last(), "gemini"@) {
            init.push(models.last() + "-search"@)
        } else {
            init
        }
    }
}

/// The identifiers of a list of models.
pub open spec fn model_ids(models: Seq<Model>) -> Seq<Seq<char>> {
    models.map_values(|m: Model| m.id@)
}

/// The model list for the client: a model object for each listed identifier,
/// owned by the provider and created at `created`.
pub fn list_models(available_models: &Vec<String>, settings: &Settings, created: u64) -> (r:
    ModelResponse)
    ensures
        r.object@ == "list"@,
        model_ids(r.data@) == listed_ids(views(available_models@), settings.search.search_mode),
        forall|i: int|
            0 <= i < r.data@.len() ==> (#[trigger] r.data@[i]).object@ == "model"@
                && r.data@[i].created == created && r.data@[i].owned_by@ == "google"@,
{
    let mut data: Vec<Model> = Vec::new();
    let mut i: usize = 0;
    let ghost names = views(available_models@);
    proof {
        assert(names.take(0) == Seq::<Seq<char>>::empty());
        assert(model_ids(data@) =~= Seq::<Seq<char>>::empty());
    }
    while i < available_models.len()
        invariant
            i <= available_models.len(),
            names == views(available_models@),
            model_ids(data@) == listed_ids(names.take(i as int), settings.search.search_mode),
            forall|k: int|
                0 <= k < data@.len() ==> (#[trigger] data@[k]).object@ == "model"@
                    && data@[k].created == created && data@[k].owned_by@ == "google"@,
        decreases available_models.len() - i,
    {
        let name = &available_models[i];
        let ghost before = model_ids(data@);
        proof {
            assert(names.take(i as int + 1).drop_last() == names.take(i as int));
            assert(names.take(i as int + 1).last() == name@);
        }
        data.push(
            Model {
                id: name.clone(),
                object: "model".to_string(),
                created,
                owned_by: "google".to_string(),
            },
        );
        proof {
            assert(model_ids(data@) == before.push(name@));
        }
        if settings.search.search_mode && crate::utils::text::str_starts_with(
            name.as_str(),
            "gemini",
        ) {
            let mut id = chars_of(name.as_str());
            crate::utils::text::append_str(&mut id, "-search");
            data.push(
                Model {
                    id: string_of(id.as_slice()),
                    object: "model".to_string(),
                    created,
                    owned_by: "google".to_string(),
                },
            );
            proof {
                assert(model_ids(data@) == before.push(name@).push(name@ + "-search"@));
            }
        }
        i += 1;
    }
    proof {
        assert(names.take(available_models.len() as int) == names);
    }
    ModelResponse { object: "list".to_string(), data }
}

/// Whether the accountant already holds as many attempts from the client in
/// the last day as one client may make.
pub open spec fn daily_gate_denied(
    a: AccountantView,
    ip: Option<Seq<char>>,
    limit: u32,
    now: u64,
) -> bool {
    ip is Some && clamp_u32(count_of(a.records, from_ip_within(ip->0, now, DAY_MS))) >= limit
}

/// Whether the sliding windows turn the request away.
pub open spec fn limiter_denied(l: LimiterView, ip: Option<Seq<char>>, now: u64) -> bool {
    global_denied(l, now) || (ip is Some && ip_denied(l, ip->0, now))
}

/// Whether any rate gate turns the request away.
pub open spec fn throttled(s: EngineView, ip: Option<Seq<char>>, limit: u32, now: u64) -> bool {
    daily_gate_denied(s.accountant, ip, limit, now) || limiter_denied(s.limiter, ip, now)
}

/// The retry hint that goes with a rate denial: a minute for the global
/// window, an hour for the per-client gates.
pub open spec fn retry_hint(s: EngineView, ip: Option<Seq<char>>, limit: u32, now: u64) -> u64 {
    if !daily_gate_denied(s.accountant, ip, limit, now) && global_denied(s.limiter, now) {
        60
    } else {
        3600
    }
}

/// The limiter after the rate gates: untouched when the accountant's gate
/// denies, checked otherwise.
pub open spec fn limiter_after_gates(
    s: EngineView,
    ip: Option<Seq<char>>,
    limit: u32,
    now: u64,
) -> LimiterView {
    if daily_gate_denied(s.accountant, ip, limit, now) {
        s.limiter
    } else {
        after_check(s.limiter, ip, now)
    }
}

/// Applies the rate gates: the accountant's count of the client's last day,
/// then the sliding windows. Both must admit.
pub fn check_rate_limits(state: &mut AppState, client_ip: &Option<String>, now: u64) -> (r: Result<
    (),
    GatewayError,
>)
    ensures
        final(state).settings == old(state).settings,
        final(state)@.pool == old(state)@.pool,
        final(state)@.cache == old(state)@.cache,
        final(state)@.accountant == old(state)@.accountant,
        final(state)@.limiter == limiter_after_gates(
            old(state)@,
            opt_view(*client_ip),
            old(state).settings.max_requests_per_day_per_ip,
            now,
        ),
        match r {
            Ok(_) => !throttled(
                old(state)@,
                opt_view(*client_ip),
                old(state).settings.max_requests_per_day_per_ip,
                now,
            ),
            Err(GatewayError::RateLimited { retry_after, .. }) => throttled(
                old(state)@,
                opt_view(*client_ip),
                old(state).settings.max_requests_per_day_per_ip,
                now,
            ) && retry_after == retry_hint(
                old(state)@,
                opt_view(*client_ip),
                old(state).settings.max_requests_per_day_per_ip,
                now,
            ),
            Err(_) => false,
        },
{
    match client_ip {
        Some(ip) => {
            let today = state.stats_manager.get_requests_for_ip_last_day(ip.as_str(), now);
            if today >= state.settings.max_requests_per_day_per_ip {
                return Err(
                    GatewayError::RateLimited {
                        message: "Rate limit exceeded".to_string(),
                        retry_after: 3600,
                    },
                );
            }
        },
        None => {},
    }
    let ip: Option<&str> = match client_ip {
        Some(s) => Some(s.as_str()),
        None => None,
    };
    match state.rate_limiter.check_rate_limit(ip, now) {
        Ok(_) => Ok(()),
        Err(e) => {
            let retry_after = e.retry_after_seconds();
            Err(GatewayError::RateLimited { message: e.message(), retry_after })
        },
    }
}

/// The mode in which a streaming request is served.
pub open spec fn streaming_mode(settings: Settings) -> DispatchMode {
    if settings.fake_streaming {
        DispatchMode::FakeStreaming
    } else {
        DispatchMode::RealStreaming
    }
}

/// Chooses between emulated and real streaming.
pub fn handle_streaming_request(settings: &Settings) -> (mode: DispatchMode)
    ensures
        mode == streaming_mode(*settings),
{
    if settings.fake_streaming {
        DispatchMode::FakeStreaming
    } else {
        DispatchMode::RealStreaming
    }
}

/// The fingerprint of a request under the given settings.
pub open spec fn fingerprint(request: ChatCompletionRequest, settings: Settings) -> Seq<char> {
    cache_key_of(
        views(request.messages@),
        request.model@,
        settings.calculate_cache_entries,
        settings.precise_cache,
    )
}

/// What admission comes to.
pub enum Verdict {
    Unauthorized,
    ForbiddenAgent,
    Throttled,
    ModelNotAllowed,
    CacheHit,
    NoCredentials,
    Dispatch,
}

/// What admission comes to for a request, by the first gate that stops it.
pub open spec fn verdict(
    s: EngineView,
    settings: Settings,
    meta: RequestMeta,
    request: ChatCompletionRequest,
    now: u64,
) -> Verdict {
    let ip = client_ip_of(meta.forwarded);
    if !is_authenticated(meta.auth, meta.query, settings) {
        Verdict::Unauthorized
    } else if !agent_allowed(opt_view(meta.user_agent), views(settings.whitelist_user_agent@)) {
        Verdict::ForbiddenAgent
    } else if throttled(s, ip, settings.max_requests_per_day_per_ip, now) {
        Verdict::Throttled
    } else if !model_allowed(request.model@, settings) {
        Verdict::ModelNotAllowed
    } else if !request.stream && lookup(s.cache, fingerprint(request, settings), now) is Some {
        Verdict::CacheHit
    } else if s.pool.rotation.len() == 0 {
        Verdict::NoCredentials
    } else {
        Verdict::Dispatch
    }
}

/// The record of a cache hit.
pub open spec fn hit_record(
    request: ChatCompletionRequest,
    response: ChatCompletionResponseView,
    ip: Option<Seq<char>>,
    now: u64,
) -> RecordView {
    RecordView {
        timestamp: now,
        model: request.model@,
        tokens_used: total_tokens_of(response),
        success: true,
        response_time_ms: 0,
        ip_address: ip,
    }
}

/// The engine after admission. Authentication and the user agent are decided
/// without touching anything. The rate gates touch only the limiter. The
/// cache is consulted only for plain requests, and only a cache hit is
/// accounted. Only a dispatch touches the pool.
pub open spec fn after_admission(
    s: EngineView,
    settings: Settings,
    meta: RequestMeta,
    request: ChatCompletionRequest,
    now: u64,
) -> EngineView {
    let ip = client_ip_of(meta.forwarded);
    let key = fingerprint(request, settings);
    let limiter = limiter_after_gates(s, ip, settings.max_requests_per_day_per_ip, now);
    let cache = if request.stream {
        s.cache
    } else {
        after_get(s.cache, key, now)
    };
    match verdict(s, settings, meta, request, now) {
        Verdict::Unauthorized => s,
        Verdict::ForbiddenAgent => s,
        Verdict::Throttled => EngineView {
            pool: s.pool,
            cache: s.cache,
            accountant: s.accountant,
            limiter,
        },
        Verdict::ModelNotAllowed => EngineView {
            pool: s.pool,
            cache: s.cache,
            accountant: s.accountant,
            limiter,
        },
        Verdict::CacheHit => EngineView {
            pool: s.pool,
            cache,
            accountant: after_record(
                s.accountant,
                hit_record(request, lookup(s.cache, key, now)->0, ip, now),
                now,
            ),
            limiter,
        },
        Verdict::NoCredentials => EngineView {
            pool: s.pool,
            cache,
            accountant: s.accountant,
            limiter,
        },
        Verdict::Dispatch => EngineView {
            pool: after_acquire(s.pool, now),
            cache,
            accountant: s.accountant,
            limiter,
        },
    }
}

/// The mode in which a request is served.
pub open spec fn mode_of(request: ChatCompletionRequest, settings: Settings) -> DispatchMode {
    if request.stream {
        streaming_mode(settings)
    } else {
        DispatchMode::NonStreaming
    }
}

/// Whether `a` is what admission answers for the request.
pub open spec fn admission_matches(
    a: Admission,
    s: EngineView,
    settings: Settings,
    meta: RequestMeta,
    request: ChatCompletionRequest,
    now: u64,
) -> bool {
    let ip = client_ip_of(meta.forwarded);
    let key = fingerprint(request, settings);
    match verdict(s, settings, meta, request, now) {
        Verdict::Unauthorized => a matches Admission::Rejected(GatewayError::Authentication),
        Verdict::ForbiddenAgent => a matches Admission::Rejected(GatewayError::ForbiddenAgent),
        Verdict::Throttled => a matches Admission::Rejected(
            GatewayError::RateLimited { retry_after, .. },
        ) && retry_after == retry_hint(s, ip, settings.max_requests_per_day_per_ip, now),
        Verdict::ModelNotAllowed => a matches Admission::Rejected(GatewayError::ModelNotAllowed),
        Verdict::CacheHit => a matches Admission::Cached(r) && Some(r@) == lookup(
            s.cache,
            key,
            now,
        ),
        Verdict::NoCredentials => a matches Admission::Rejected(
            GatewayError::NoCredentialsAvailable,
        ),
        Verdict::Dispatch => a matches Admission::Dispatch(f) && Some(f.api_key@) == acquired_key(
            s.pool,
        ) && f.mode == mode_of(request, settings) && opt_view(f.cache_key) == (if request.stream {
            None
        } else {
            Some(key)
        }) && f.model@ == request.model@ && opt_view(f.client_ip) == ip && f.start_time == now,
    }
}

/// Admission of a chat request: authentication, user agent, rate gates,
/// model policy, cache lookup for plain requests, and the acquisition of a
/// credential.
pub fn chat_completions(
    state: &mut AppState,
    meta: &RequestMeta,
    request: &ChatCompletionRequest,
    now: u64,
) -> (a: Admission)
    ensures
        final(state).settings == old(state).settings,
        final(state)@ == after_admission(old(state)@, old(state).settings, *meta, *request, now),
        admission_matches(a, old(state)@, old(state).settings, *meta, *request, now),
{
    let auth = authenticate_request(&meta.auth, &meta.query, &state.settings);
    if !auth.authenticated {
        return Admission::Rejected(GatewayError::Authentication);
    }
    let agent: Option<&str> = match &meta.user_agent {
        Some(s) => Some(s.as_str()),
        None => None,
    };
    if !validate_user_agent(agent, &state.settings) {
        return Admission::Rejected(GatewayError::ForbiddenAgent);
    }
    let client_ip = extract_client_ip(&meta.forwarded);
    match check_rate_limits(state, &client_ip, now) {
        Err(e) => {
            return Admission::Rejected(e);
        },
        Ok(_) => {},
    }
    if !is_model_allowed(request.model.as_str(), &state.settings) {
        return Admission::Rejected(GatewayError::ModelNotAllowed);
    }
    let mut cache_key: Option<String> = None;
    if !request.stream {
        let key = generate_cache_key(
            request.messages.as_slice(),
            request.model.as_str(),
            state.settings.calculate_cache_entries,
            state.settings.precise_cache,
        );
        match state.cache_manager.get(key.as_str(), now) {
            Some(cached) => {
                let tokens = cached.total_tokens();
                state.stats_manager.record_api_call(
                    request.model.clone(),
                    tokens,
                    true,
                    0,
                    duplicate_opt(&client_ip),
                    now,
                );
                return Admission::Cached(cached);
            },
            None => {},
        }
        cache_key = Some(key);
    }
    let api_key = match state.key_manager.get_next_key(now) {
        Some(key) => key,
        None => {
            return Admission::Rejected(GatewayError::NoCredentialsAvailable);
        },
    };
    let mode = if request.stream {
        handle_streaming_request(&state.settings)
    } else {
        DispatchMode::NonStreaming
    };
    Admission::Dispatch(
        InFlightRequest {
            api_key,
            cache_key,
            model: request.model.clone(),
            client_ip,
            start_time: now,
            mode,
        },
    )
}

/// The time that a request has been in flight at `now`.
pub open spec fn latency_of(flight: InFlightRequest, now: u64) -> u64 {
    if now >= flight.start_time {
        (now - flight.start_time) as u64
    } else {
        0
    }
}

/// The record of an upstream outcome.
pub open spec fn outcome_record(
    flight: InFlightRequest,
    tokens: u32,
    success: bool,
    now: u64,
) -> RecordView {
    RecordView {
        timestamp: now,
        model: flight.model@,
        tokens_used: tokens,
        success,
        response_time_ms: latency_of(flight, now),
        ip_address: opt_view(flight.client_ip),
    }
}

/// The engine after an upstream outcome is accounted and reported to the
/// pool; the cache is not touched.
pub open spec fn after_outcome(
    s: EngineView,
    flight: InFlightRequest,
    tokens: u32,
    success: bool,
    key_ok: bool,
    now: u64,
) -> EngineView {
    EngineView {
        pool: after_release(s.pool, flight.api_key@, key_ok, now),
        cache: s.cache,
        accountant: after_record(s.accountant, outcome_record(flight, tokens, success, now), now),
        limiter: s.limiter,
    }
}

/// Accounts an upstream outcome and reports it to the pool.
fn settle(
    state: &mut AppState,
    flight: &InFlightRequest,
    tokens: u32,
    success: bool,
    key_ok: bool,
    now: u64,
)
    ensures
        final(state).settings == old(state).settings,
        final(state)@ == after_outcome(old(state)@, *flight, tokens, success, key_ok, now),
{
    let latency: u64 = if now >= flight.start_time {
        now - flight.start_time
    } else {
        0
    };
    state.stats_manager.record_api_call(
        flight.model.clone(),
        tokens,
        success,
        latency,
        duplicate_opt(&flight.client_ip),
        now,
    );
    state.key_manager.mark_key_used(flight.api_key.as_str(), key_ok, now);
}

/// The view of an upstream outcome.
pub open spec fn outcome_view(outcome: Result<ChatCompletionResponse, String>) -> Result<
    ChatCompletionResponseView,
    Seq<char>,
> {
    match outcome {
        Ok(r) => Ok(r@),
        Err(m) => Err(m@),
    }
}

/// The tokens that an upstream outcome reports; none for a failure.
pub open spec fn outcome_tokens(outcome: Result<ChatCompletionResponseView, Seq<char>>) -> u32 {
    match outcome {
        Ok(r) => total_tokens_of(r),
        Err(_) => 0,
    }
}

/// Completion of a plain request. A success is accounted with its tokens and
/// latency, the credential is marked healthy, the response is cached under
/// the fingerprint of the request and answered. A failure is accounted, the
/// credential is marked failed, and a structured error is answered; nothing
/// is retried.
pub fn handle_non_streaming_request(
    state: &mut AppState,
    flight: &InFlightRequest,
    outcome: Result<ChatCompletionResponse, String>,
    now: u64,
) -> (reply: Reply)
    ensures
        final(state).settings == old(state).settings,
        final(state)@.pool == after_outcome(
            old(state)@,
            *flight,
            outcome_tokens(outcome_view(outcome)),
            outcome is Ok,
            outcome is Ok,
            now,
        ).pool,
        final(state)@.accountant == after_outcome(
            old(state)@,
            *flight,
            outcome_tokens(outcome_view(outcome)),
            outcome is Ok,
            outcome is Ok,
            now,
        ).accountant,
        final(state)@.limiter == old(state)@.limiter,
        match outcome {
            Ok(response) => reply matches Reply::Json(r) && r@ == response@ && (match flight.cache_key {
                Some(key) => evicted(
                    after_insert(old(state)@.cache, key@, response@, now),
                    final(state)@.cache,
                ),
                None => final(state)@.cache == old(state)@.cache,
            }),
            Err(message) => reply matches Reply::Error(GatewayError::Upstream { message: m }) && m@
                == message@ && final(state)@.cache == old(state)@.cache,
        },
{
    match outcome {
        Ok(response) => {
            settle(state, flight, response.total_tokens(), true, true, now);
            match &flight.cache_key {
                Some(key) => {
                    state.cache_manager.put(key.clone(), response.duplicate(), now);
                },
                None => {},
            }
            Reply::Json(response)
        },
        Err(message) => {
            settle(state, flight, 0, false, false, now);
            Reply::Error(GatewayError::Upstream { message })
        },
    }
}

/// Completion of an emulated-streaming request: the outcome of the one
/// upstream call is delivered as exactly one data event, followed by the end
/// of the stream. The outcome is accounted and reported to the pool as for a
/// plain request; nothing is cached.
pub fn handle_fake_streaming(
    state: &mut AppState,
    flight: &InFlightRequest,
    outcome: Result<ChatCompletionResponse, String>,
    now: u64,
) -> (events: Vec<StreamEvent>)
    ensures
        final(state).settings == old(state).settings,
        final(state)@ == after_outcome(
            old(state)@,
            *flight,
            outcome_tokens(outcome_view(outcome)),
            outcome is Ok,
            outcome is Ok,
            now,
        ),
        events@.len() == 2,
        events@[1] is Done,
        match outcome {
            Ok(response) => events@[0] matches StreamEvent::Response(r) && r@ == response@,
            Err(message) => events@[0] matches StreamEvent::Error(e) && e.error.message@
                == message@ && e.error.error_type@ == "api_error"@,
        },
{
    let mut events: Vec<StreamEvent> = Vec::new();
    match outcome {
        Ok(response) => {
            settle(state, flight, response.total_tokens(), true, true, now);
            events.push(StreamEvent::Response(response));
        },
        Err(message) => {
            settle(state, flight, 0, false, false, now);
            events.push(StreamEvent::Error(create_error_json(message.as_str(), "api_error")));
        },
    }
    events.push(StreamEvent::Done);
    events
}

/// What the upstream stream, or the client, does next.
#[derive(Debug, Clone)]
pub enum UpstreamEvent {
    /// The upstream sent a chunk with this text; `id` names the translated
    /// chunk.
    Chunk { id: String, content: String },
    /// The upstream failed in mid-stream.
    Failed { message: String },
    /// The upstream finished.
    Ended,
    /// The client went away.
    ClientGone,
}

/// A streaming response in progress.
pub struct StreamSession {
    flight: InFlightRequest,
    tokens: u32,
    finished: bool,
}

/// Estimated tokens added up, held at the largest value.
pub open spec fn more_tokens(tokens: u32, content_bytes: nat) -> u32 {
    clamp_u32((tokens + estimated_tokens(content_bytes)) as nat)
}

impl StreamSession {
    /// The request that the stream answers.
    pub closed spec fn flight(&self) -> InFlightRequest {
        self.flight
    }

    /// The estimated tokens of the chunks passed through so far.
    pub closed spec fn tokens(&self) -> u32 {
        self.tokens
    }

    /// Whether the stream has ended, one way or another.
    pub closed spec fn finished(&self) -> bool {
        self.finished
    }

    /// Whether the stream has ended.
    pub fn is_finished(&self) -> (r: bool)
        ensures
            r == self.finished(),
    {
        self.finished
    }

    /// One step of a streaming response. A chunk is translated and passed on.
    /// An upstream failure gives exactly one error event and ends the stream;
    /// the credential is marked failed and a failed attempt is accounted.
    /// The end of the upstream ends the stream; the credential is marked
    /// healthy and the attempt is accounted with the estimated tokens. When
    /// the client goes away nothing more is sent; the credential is released
    /// as healthy and an aborted attempt is accounted. After the end nothing
    /// is sent and nothing changes.
    pub fn on_event(&mut self, state: &mut AppState, event: UpstreamEvent, now: u64) -> (events: Vec<
        StreamEvent,
    >)
        ensures
            final(state).settings == old(state).settings,
            final(self).flight() == old(self).flight(),
            kinds_of(events@) == step_kinds(old(self).finished(), upstream_kind(event)),
            final(self).finished() == step_finished(old(self).finished(), upstream_kind(event)),
            old(self).finished() ==> events@.len() == 0 && final(self).finished(),
            old(self).finished() ==> final(self).tokens() == old(self).tokens(),
            old(self).finished() ==> final(state)@ == old(state)@,
            !old(self).finished() ==> (match event {
                UpstreamEvent::Chunk { id, content } => {
                    &&& events@.len() == 1
                    &&& events@[0] matches StreamEvent::Chunk(c) && is_content_chunk(
                        c,
                        id@,
                        now / 1000,
                        old(self).flight().model@,
                        content@,
                    )
                    &&& !final(self).finished()
                    &&& final(self).tokens() == more_tokens(
                        old(self).tokens(),
                        byte_count(content@) as nat,
                    )
                    &&& final(state)@ == old(state)@
                },
                UpstreamEvent::Failed { message } => {
                    &&& events@.len() == 2
                    &&& events@[0] matches StreamEvent::Error(e) && e.error.message@ == message@
                        && e.error.error_type@ == "stream_error"@
                    &&& events@[1] is Done
                    &&& final(self).finished()
                    &&& final(state)@ == after_outcome(
                        old(state)@,
                        old(self).flight(),
                        0,
                        false,
                        false,
                        now,
                    )
                },
                UpstreamEvent::Ended => {
                    &&& events@.len() == 1
                    &&& events@[0] is Done
                    &&& final(self).finished()
                    &&& final(state)@ == after_outcome(
                        old(state)@,
                        old(self).flight(),
                        old(self).tokens(),
                        true,
                        true,
                        now,
                    )
                },
                UpstreamEvent::ClientGone => {
                    &&& events@.len() == 0
                    &&& final(self).finished()
                    &&& final(state)@ == after_outcome(
                        old(state)@,
                        old(self).flight(),
                        old(self).tokens(),
                        false,
                        true,
                        now,
                    )
                },
            }),
    {
        let mut events: Vec<StreamEvent> = Vec::new();
        if self.finished {
            return events;
        }
        match event {
            UpstreamEvent::Chunk { id, content } => {
                let estimate = estimate_tokens(content.as_str());
                self.tokens = if self.tokens > u32::MAX - estimate {
                    u32::MAX
                } else {
                    self.tokens + estimate
                };
                events.push(
                    StreamEvent::Chunk(
                        ChatCompletionChunk::with_content(
                            id,
                            now / 1000,
                            self.flight.model.clone(),
                            content,
                        ),
                    ),
                );
            },
            UpstreamEvent::Failed { message } => {
                self.finished = true;
                settle(state, &self.flight, 0, false, false, now);
                events.push(
                    StreamEvent::Error(create_error_json(message.as_str(), "stream_error")),
                );
                events.push(StreamEvent::Done);
            },
            UpstreamEvent::Ended => {
                self.finished = true;
                settle(state, &self.flight, self.tokens, true, true, now);
                events.push(StreamEvent::Done);
            },
            UpstreamEvent::ClientGone => {
                self.finished = true;
                settle(state, &self.flight, self.tokens, false, true, now);
            },
        }
        events
    }
}

/// The kind of an upstream event.
#[derive(Debug, Clone, Copy, PartialEq, Eq, Structural)]
pub enum UpstreamKind {
    Chunk,
    Failed,
    Ended,
    ClientGone,
}

/// The kind of an upstream event.
pub open spec fn upstream_kind(e: UpstreamEvent) -> UpstreamKind {
    match e {
        UpstreamEvent::Chunk { .. } => UpstreamKind::Chunk,
        UpstreamEvent::Failed { .. } => UpstreamKind::Failed,
        UpstreamEvent::Ended => UpstreamKind::Ended,
        UpstreamEvent::ClientGone => UpstreamKind::ClientGone,
    }
}

/// What a stream sends for one upstream event.
pub open spec fn step_kinds(finished: bool, e: UpstreamKind) -> Seq<EventKind> {
    if finished {
        Seq::<EventKind>::empty()
    } else {
        match e {
            UpstreamKind::Chunk => seq![EventKind::Data],
            UpstreamKind::Failed => seq![EventKind::Error, EventKind::Done],
            UpstreamKind::Ended => seq![EventKind::Done],
            UpstreamKind::ClientGone => Seq::<EventKind>::empty(),
        }
    }
}

/// Whether a stream has ended after one upstream event.
pub open spec fn step_finished(finished: bool, e: UpstreamKind) -> bool {
    finished || e != UpstreamKind::Chunk
}

/// What a stream sends for a run of upstream events.
pub open spec fn run_kinds(finished: bool, events: Seq<UpstreamKind>) -> Seq<EventKind>
    decreases events.len(),
{
    if events.len() == 0 {
        Seq::<EventKind>::empty()
    } else {
        step_kinds(finished, events[0]) + run_kinds(
            step_finished(finished, events[0]),
            events.drop_first(),
        )
    }
}

/// A stream that has ended sends nothing more.
pub proof fn lemma_finished_stream_is_silent(events: Seq<UpstreamKind>)
    ensures
        run_kinds(true, events).len() == 0,
    decreases events.len(),
{
    if events.len() > 0 {
        lemma_finished_stream_is_silent(events.drop_first());
    }
}

/// A stream ends at most once, and an error is its last word. Whatever the
/// upstream and the client do, the end of the stream is sent at most once
/// and nothing follows it, and an error event is sent at most once, right
/// before the end.
pub proof fn lemma_stream_ends_once(events: Seq<UpstreamKind>)
    ensures
        forall|i: int|
            0 <= i < run_kinds(false, events).len() && #[trigger] run_kinds(false, events)[i]
                == EventKind::Done ==> i == run_kinds(false, events).len() - 1,
        forall|i: int|
            0 <= i < run_kinds(false, events).len() && #[trigger] run_kinds(false, events)[i]
                == EventKind::Error ==> i == run_kinds(false, events).len() - 2,
    decreases events.len(),
{
    if events.len() > 0 {
        let rest = events.drop_first();
        if events[0] == UpstreamKind::Chunk {
            lemma_stream_ends_once(rest);
            let tail = run_kinds(false, rest);
            let out = run_kinds(false, events);
            assert(out == seq![EventKind::Data] + tail);
            assert forall|i: int| 0 <= i < out.len() && #[trigger] out[i]
                == EventKind::Done implies i == out.len() - 1 by {
                assert(out[i] == tail[i - 1]);
            }
            assert forall|i: int| 0 <= i < out.len() && #[trigger] out[i]
                == EventKind::Error implies i == out.len() - 2 by {
                assert(out[i] == tail[i - 1]);
            }
        } else {
            lemma_finished_stream_is_silent(rest);
            assert(run_kinds(false, events) == step_kinds(false, events[0]));
        }
    }
}

/// Chunks, then a failure: a stream whose upstream sends `chunks` chunks and
/// then fails sends as many data events, one error event and the end,
/// whatever follows.
pub proof fn lemma_failure_after_chunks(chunks: nat, rest: Seq<UpstreamKind>)
    ensures
        run_kinds(
            false,
            Seq::new(chunks, |i: int| UpstreamKind::Chunk) + seq![UpstreamKind::Failed] + rest,
        ) == Seq::new(chunks, |i: int| EventKind::Data) + seq![EventKind::Error, EventKind::Done],
    decreases chunks,
{
    let events = Seq::new(chunks, |i: int| UpstreamKind::Chunk) + seq![UpstreamKind::Failed] + rest;
    if chunks == 0 {
        assert(events.drop_first() == rest);
        lemma_finished_stream_is_silent(rest);
        assert(run_kinds(false, events) == seq![EventKind::Error, EventKind::Done]);
        assert(Seq::new(0, |i: int| EventKind::Data) + seq![EventKind::Error, EventKind::Done]
            == seq![EventKind::Error, EventKind::Done]);
    } else {
        let fewer = (chunks - 1) as nat;
        lemma_failure_after_chunks(fewer, rest);
        assert(events.drop_first() == Seq::new(fewer, |i: int| UpstreamKind::Chunk) + seq![
            UpstreamKind::Failed,
        ] + rest);
        assert(seq![EventKind::Data] + (Seq::new(fewer, |i: int| EventKind::Data) + seq![
            EventKind::Error,
            EventKind::Done,
        ]) == Seq::new(chunks, |i: int| EventKind::Data) + seq![
            EventKind::Error,
            EventKind::Done,
        ]);
    }
}

/// Admission of an embedding request: authentication and the acquisition of
/// a credential.
pub fn embeddings(state: &mut AppState, meta: &RequestMeta, model: &str, now: u64) -> (r: Result<
    InFlightRequest,
    GatewayError,
>)
    ensures
        final(state).settings == old(state).settings,
        final(state)@.cache == old(state)@.cache,
        final(state)@.accountant == old(state)@.accountant,
        final(state)@.limiter == old(state)@.limiter,
        if !is_authenticated(meta.auth, meta.query, old(state).settings) {
            r matches Err(GatewayError::Authentication) && final(state)@.pool == old(state)@.pool
        } else if old(state)@.pool.rotation.len() == 0 {
            r matches Err(GatewayError::NoCredentialsAvailable) && final(state)@.pool == old(
                state,
            )@.pool
        } else {
            r matches Ok(f) && Some(f.api_key@) == acquired_key(old(state)@.pool) && f.model@
                == model@ && f.cache_key is None && opt_view(f.client_ip) == client_ip_of(
                meta.forwarded,
            ) && f.start_time == now && f.mode == DispatchMode::NonStreaming && final(state)@.pool
                == after_acquire(old(state)@.pool, now)
        },
{
    let auth = authenticate_request(&meta.auth, &meta.query, &state.settings);
    if !auth.authenticated {
        return Err(GatewayError::Authentication);
    }
    let client_ip = extract_client_ip(&meta.forwarded);
    match state.key_manager.get_next_key(now) {
        Some(api_key) => Ok(
            InFlightRequest {
                api_key,
                cache_key: None,
                model: model.to_string(),
                client_ip,
                start_time: now,
                mode: DispatchMode::NonStreaming,
            },
        ),
        None => Err(GatewayError::NoCredentialsAvailable),
    }
}

/// Completion of an embedding request. A success, with the tokens that it
/// used, is accounted and the credential is marked healthy; a failure is
/// accounted, the credential is marked failed and a structured error is
/// answered.
pub fn handle_embedding_outcome(
    state: &mut AppState,
    flight: &InFlightRequest,
    outcome: Result<u32, String>,
    now: u64,
) -> (r: Option<GatewayError>)
    ensures
        final(state).settings == old(state).settings,
        match outcome {
            Ok(tokens) => r is None && final(state)@ == after_outcome(
                old(state)@,
                *flight,
                tokens,
                true,
                true,
                now,
            ),
            Err(message) => r matches Some(GatewayError::Upstream { message: m }) && m@
                == message@ && final(state)@ == after_outcome(
                old(state)@,
                *flight,
                0,
                false,
                false,
                now,
            ),
        },
{
    match outcome {
        Ok(tokens) => {
            settle(state, flight, tokens, true, true, now);
            None
        },
        Err(message) => {
            settle(state, flight, 0, false, false, now);
            Some(GatewayError::Upstream { message })
        },
    }
}

/// The start of a real-streaming response. When the upstream refused the
/// stream, the credential is marked failed, a failed attempt is accounted and
/// a structured error is answered in place of a stream. Otherwise a session
/// begins and nothing changes yet.
pub fn handle_real_streaming(
    state: &mut AppState,
    flight: InFlightRequest,
    started: Result<(), String>,
    now: u64,
) -> (r: Result<StreamSession, GatewayError>)
    ensures
        final(state).settings == old(state).settings,
        match started {
            Ok(_) => r matches Ok(session) && session.flight() == flight && session.tokens() == 0
                && !session.finished() && final(state)@ == old(state)@,
            Err(message) => r matches Err(GatewayError::StreamAbort { message: m }) && m@
                == message@ && final(state)@ == after_outcome(
                old(state)@,
                flight,
                0,
                false,
                false,
                now,
            ),
        },
{
    match started {
        Ok(_) => Ok(StreamSession { flight, tokens: 0, finished: false }),
        Err(message) => {
            settle(state, &flight, 0, false, false, now);
            Err(GatewayError::StreamAbort { message })
        },
    }
}

} // verus!
