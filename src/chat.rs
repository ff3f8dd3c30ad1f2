use vstd::prelude::*;

use crate::cache::{after_get, after_put, get_result, LruTtlCache};
use crate::metrics::Counter;
use crate::models::{messages_view, ChatMessage, Provider, RouteChoice};
use crate::normalize::{byte_len, trim_messages, window, MessageView};
use crate::routing::{
    char_prefix, choose_route, expected_route, forced_cloud_route, last_content, prefix_chars,
    provider_label, response_cache_key, route_view, RoutingConfig,
};

verus! {

/// Answers of this many UTF-8 bytes or more are not cached.
pub const MAX_CACHEABLE_BYTES: usize = 8000;

/// The diagnostic copy of the newest message keeps this many characters.
pub const LAST_QUERY_CHARS: usize = 120;

/// What a chat request needs of the service configuration.
#[derive(Clone, Debug)]
pub struct ChatSettings {
    pub routing: RoutingConfig,
    /// The service is forced into cloud-only mode.
    pub cloud_mode: bool,
    pub max_input_chars: usize,
    pub system_prompt: String,
}

/// A request that cannot be served.
#[derive(Clone, Copy, Debug, PartialEq, Eq, Structural)]
pub enum ChatError {
    EmptyMessages,
}

impl ChatError {
    /// The short machine-readable message sent to the client.
    pub fn message(&self) -> (r: String)
        ensures
            r@ == "messages cannot be empty"@,
    {
        String::from_str("messages cannot be empty")
    }
}

/// Everything decided for a request before the cache is consulted.
#[derive(Clone, Debug)]
pub struct ChatPlan {
    /// The normalised conversation window sent upstream.
    pub window: Vec<ChatMessage>,
    pub route: RouteChoice,
    pub cache_key: String,
    /// The newest accepted message, cut to its first characters; empty when
    /// every message was dropped.
    pub last_query: String,
    /// "provider:model:tier:reason".
    pub route_summary: String,
}

/// The route for a window under the settings.
pub open spec fn planned_route(s: ChatSettings, w: Seq<MessageView>) -> (Provider, Seq<char>, Seq<char>, Seq<char>) {
    if s.cloud_mode {
        (Provider::Cloud, s.routing.cloud_model@, "forced-cloud"@, "mode=cloud"@)
    } else {
        expected_route(s.routing, w)
    }
}

pub open spec fn label_of(p: Provider) -> Seq<char> {
    match p {
        Provider::Local => "local"@,
        Provider::Cloud => "cloud"@,
    }
}

/// "provider:model:tier:reason" for a route.
pub open spec fn summary_of(r: (Provider, Seq<char>, Seq<char>, Seq<char>)) -> Seq<char> {
    label_of(r.0) + ":"@ + r.1 + ":"@ + r.2 + ":"@ + r.3
}

/// The cache key for a model and a window.
pub open spec fn cache_key_of(model: Seq<char>, w: Seq<MessageView>) -> Seq<char> {
    model + "::"@ + prefix_chars(last_content(w), 500)
}

/// The diagnostic copy of the newest accepted message of a window.
pub open spec fn last_query_of(w: Seq<MessageView>) -> Seq<char> {
    if w.len() > 1 {
        prefix_chars(w.last().1, 120)
    } else {
        Seq::empty()
    }
}

/// Normalises the messages, selects the route (forced to the cloud in cloud
/// mode) and derives the cache key and the diagnostics; an empty message
/// list is refused.
pub fn plan_chat(settings: &ChatSettings, messages: Vec<ChatMessage>) -> (r: Result<ChatPlan, ChatError>)
    ensures
        messages@.len() == 0 <==> r is Err,
        r is Err ==> r == Err::<ChatPlan, ChatError>(ChatError::EmptyMessages),
        match r {
            Ok(p) => {
                let w = window(messages_view(messages@), settings.max_input_chars as nat, settings.system_prompt@);
                &&& messages_view(p.window@) == w
                &&& route_view(p.route) == planned_route(*settings, w)
                &&& p.cache_key@ == cache_key_of(p.route.model@, w)
                &&& p.last_query@ == last_query_of(w)
                &&& p.route_summary@ == summary_of(route_view(p.route))
            },
            Err(_) => true,
        },
{
    if messages.len() == 0 {
        return Err(ChatError::EmptyMessages);
    }
    let window = trim_messages(messages, settings.max_input_chars, settings.system_prompt.as_str());
    let last_query = if window.len() > 1 {
        char_prefix(window[window.len() - 1].content.as_str(), LAST_QUERY_CHARS)
    } else {
        String::new()
    };
    let route = if settings.cloud_mode {
        forced_cloud_route(&settings.routing.cloud_model)
    } else {
        choose_route(&settings.routing, window.as_slice())
    };
    let route_summary = String::from_str(provider_label(&route.provider))
        .concat(":")
        .concat(route.model.as_str())
        .concat(":")
        .concat(route.tier.as_str())
        .concat(":")
        .concat(route.reason.as_str());
    let cache_key = response_cache_key(route.model.as_str(), window.as_slice());
    Ok(ChatPlan { window, route, cache_key, last_query, route_summary })
}

/// How the response begins.
#[derive(Clone, Debug)]
pub enum Reply {
    /// The whole cached answer, sent as one chunk; no backend is asked.
    Cached(String),
    /// A streamed answer from the chosen backend.
    Stream,
}

/// Consults the cache for a planned request at `now`: a hit answers from the
/// cache and counts a hit, a miss asks for a fetch and counts a miss.
pub fn check_cache(cache: &mut LruTtlCache, key: &String, now: u64) -> (r: (Reply, Counter))
    requires
        old(cache).wf(),
    ensures
        final(cache).wf(),
        final(cache)@ == after_get(old(cache)@, key@, now),
        final(cache).capacity_spec() == old(cache).capacity_spec(),
        final(cache).ttl_spec() == old(cache).ttl_spec(),
        match r.0 {
            Reply::Cached(v) => get_result(old(cache)@, key@, now) == Some(v@) && r.1 == Counter::CacheHit,
            Reply::Stream => get_result(old(cache)@, key@, now).is_none() && r.1 == Counter::CacheMiss,
        },
{
    match cache.get(key.as_str(), now) {
        Some(v) => (Reply::Cached(v), Counter::CacheHit),
        None => (Reply::Stream, Counter::CacheMiss),
    }
}

/// How an upstream fetch ended.
#[derive(Clone, Debug)]
pub enum FetchOutcome {
    /// The stream finished; the concatenation of every forwarded fragment.
    Completed(String),
    /// A transport error or a non-success status, described.
    Failed(String),
    /// The deadline passed first.
    TimedOut,
}

pub open spec fn fallback_for_error(e: Seq<char>) -> Seq<char> {
    "Runtime fallback response: "@ + e + ". Infrastructure is up; retry should recover."@
}

pub open spec fn fallback_for_timeout() -> Seq<char> {
    "Runtime fallback response: upstream timeout. Infrastructure is up; retry should recover."@
}

/// An answer is cached when it is non-empty and under the size ceiling.
pub open spec fn cacheable(text: Seq<char>) -> bool {
    0 < byte_len(text) < 8000
}

/// Closes a fetch at `now`: a completed, cacheable answer is written to the
/// cache under `key`; a failure or a timeout leaves the cache alone and gives
/// the one fallback notice to send in place of the answer, with the one
/// counter it adds to.
pub fn finish_fetch(cache: &mut LruTtlCache, key: String, outcome: FetchOutcome, now: u64) -> (r: Option<(String, Counter)>)
    requires
        old(cache).wf(),
    ensures
        final(cache).wf(),
        final(cache).capacity_spec() == old(cache).capacity_spec(),
        final(cache).ttl_spec() == old(cache).ttl_spec(),
        match outcome {
            FetchOutcome::Completed(t) => r.is_none() && if cacheable(t@) {
                final(cache)@ == after_put(old(cache)@, key@, t@, now, old(cache).ttl_spec(), old(cache).capacity_spec())
            } else {
                final(cache)@ == old(cache)@
            },
            FetchOutcome::Failed(e) => final(cache)@ == old(cache)@ && r.is_some()
                && r.unwrap().0@ == fallback_for_error(e@) && r.unwrap().1 == Counter::Fallback,
            FetchOutcome::TimedOut => final(cache)@ == old(cache)@ && r.is_some()
                && r.unwrap().0@ == fallback_for_timeout() && r.unwrap().1 == Counter::Fallback,
        },
{
    match outcome {
        FetchOutcome::Completed(text) => {
            let n = text.as_str().as_bytes().len();
            if 0 < n && n < MAX_CACHEABLE_BYTES {
                cache.put(key, text, now);
            }
            None
        },
        FetchOutcome::Failed(e) => Some(
            (
                String::from_str("Runtime fallback response: ")
                    .concat(e.as_str())
                    .concat(". Infrastructure is up; retry should recover."),
                Counter::Fallback,
            ),
        ),
        FetchOutcome::TimedOut => Some(
            (
                String::from_str(
                    "Runtime fallback response: upstream timeout. Infrastructure is up; retry should recover.",
                ),
                Counter::Fallback,
            ),
        ),
    }
}

/// A cloud fetch needs a credential: refused, before any request, when none
/// is configured.
pub fn check_cloud_key(key: &str) -> (r: Result<(), String>)
    ensures
        key@.len() == 0 <==> r is Err,
        match r {
            Err(e) => e@ == "cloud api key missing"@,
            Ok(_) => true,
        },
{
    if key.is_empty() {
        Err(String::from_str("cloud api key missing"))
    } else {
        Ok(())
    }
}

/// The counter that a route adds to.
pub fn route_counter(provider: Provider) -> (r: Counter)
    ensures
        r == (match provider {
            Provider::Local => Counter::LocalRoute,
            Provider::Cloud => Counter::CloudRoute,
        }),
{
    match provider {
        Provider::Local => Counter::LocalRoute,
        Provider::Cloud => Counter::CloudRoute,
    }
}

} // verus!
