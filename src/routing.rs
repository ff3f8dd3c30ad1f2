use vstd::prelude::*;

use crate::models::{messages_view, ChatMessage, Provider, RouteChoice};
use crate::normalize::{byte_len, MessageView};
use crate::text::{decimal, decimal_text, has_substring, lower_of, lowercase, text_contains};

verus! {

/// The cache key keeps this many characters of the newest message.
pub const KEY_PREFIX_CHARS: usize = 500;

/// What route selection reads of the service configuration.
#[derive(Clone, Debug)]
pub struct RoutingConfig {
    pub smart_routing: bool,
    pub cloud_escalation: bool,
    pub cloud_api_key: String,
    pub ollama_model: String,
    pub local_model_fast: String,
    pub local_model_balanced: String,
    pub local_model_quality: String,
    pub cloud_model: String,
}

/// The content of the newest message, or nothing for an empty window.
pub open spec fn last_content(w: Seq<MessageView>) -> Seq<char> {
    if w.len() == 0 {
        Seq::empty()
    } else {
        w.last().1
    }
}

pub open spec fn hit(lower: Seq<char>, term: Seq<char>) -> int {
    if has_substring(lower, term) {
        1
    } else {
        0
    }
}

/// One point for each signal term that the lower-cased text contains.
pub open spec fn signal_hits(lower: Seq<char>) -> int {
    hit(lower, "architecture"@) + hit(lower, "optimize"@) + hit(lower, "benchmark"@)
        + hit(lower, "latency"@) + hit(lower, "throughput"@) + hit(lower, "algorithm"@)
        + hit(lower, "debug"@) + hit(lower, "refactor"@) + hit(lower, "rust"@)
        + hit(lower, "typescript"@) + hit(lower, "docker"@) + hit(lower, "api"@)
        + hit(lower, "stream"@)
}

/// The complexity score of a newest message `latest`, whose lower-cased form
/// is `lower`, in a window of `count` messages (the system message included).
pub open spec fn score_of(latest: Seq<char>, lower: Seq<char>, count: nat) -> int {
    (if byte_len(latest) > 400 { 2int } else { 0int })
        + (if byte_len(latest) > 900 { 2int } else { 0int })
        + (if count > 8 { 2int } else { 0int })
        + signal_hits(lower)
        + (if has_substring(latest, "```"@) { 2int } else { 0int })
}

/// The complexity score of a newest message `latest` in a window of `count`
/// messages.
pub open spec fn complexity(latest: Seq<char>, count: nat) -> int {
    score_of(latest, lower_of(latest), count)
}

/// The complexity score of a window.
pub open spec fn window_complexity(w: Seq<MessageView>) -> int {
    complexity(last_content(w), w.len())
}

/// The route (provider, model, tier, reason) chosen for a window.
pub open spec fn expected_route(cfg: RoutingConfig, w: Seq<MessageView>) -> (
    Provider,
    Seq<char>,
    Seq<char>,
    Seq<char>,
) {
    let score = window_complexity(w);
    let reason = "complexity="@ + decimal(score as nat);
    if !cfg.smart_routing {
        (Provider::Local, cfg.ollama_model@, "default"@, "smart-routing-disabled"@)
    } else if score >= 10 && cfg.cloud_escalation && cfg.cloud_api_key@.len() > 0 {
        (Provider::Cloud, cfg.cloud_model@, "escalated"@, reason)
    } else if score >= 8 {
        (Provider::Local, cfg.local_model_quality@, "quality"@, reason)
    } else if score >= 4 {
        (Provider::Local, cfg.local_model_balanced@, "balanced"@, reason)
    } else {
        (Provider::Local, cfg.local_model_fast@, "fast"@, reason)
    }
}

pub open spec fn route_view(r: RouteChoice) -> (Provider, Seq<char>, Seq<char>, Seq<char>) {
    (r.provider, r.model@, r.tier@, r.reason@)
}

fn points(b: bool, n: i32) -> (r: i32)
    requires
        0 <= n <= 2,
    ensures
        r == (if b { n } else { 0 }),
{
    if b {
        n
    } else {
        0
    }
}

fn term_point(lower: &str, term: &str) -> (r: i32)
    ensures
        r == hit(lower@, term@),
{
    points(text_contains(lower, term), 1)
}

/// Scores a newest message `latest` given its lower-cased form `lower`, in a
/// window of `count` messages: two points past 400 bytes and two more past
/// 900, two for more than eight messages, one per signal term found in
/// `lower`, two for a fenced code block.
pub fn score_lowered(latest: &str, lower: &str, count: usize) -> (r: i32)
    ensures
        r as int == score_of(latest@, lower@, count as nat),
        r >= 0,
{
    let latest_len = latest.as_bytes().len();
    let l = lower;
    let size = points(latest_len > 400, 2) + points(latest_len > 900, 2) + points(count > 8, 2);
    let terms = term_point(l, "architecture") + term_point(l, "optimize") + term_point(l, "benchmark")
        + term_point(l, "latency") + term_point(l, "throughput") + term_point(l, "algorithm")
        + term_point(l, "debug") + term_point(l, "refactor") + term_point(l, "rust")
        + term_point(l, "typescript") + term_point(l, "docker") + term_point(l, "api")
        + term_point(l, "stream");
    let code = points(text_contains(latest, "```"), 2);
    size + terms + code
}

/// Scores how demanding the newest message of a window is: its length, the
/// window's length, signal terms (matched without regard to case) and fenced
/// code.
pub fn score_query_complexity(messages: &[ChatMessage]) -> (r: i32)
    ensures
        r as int == window_complexity(messages_view(messages@)),
        r >= 0,
{
    let ghost w = messages_view(messages@);
    let empty = String::new();
    let latest: &str = if messages.len() == 0 {
        empty.as_str()
    } else {
        messages[messages.len() - 1].content.as_str()
    };
    assert(latest@ == last_content(w));
    let lower = lowercase(latest);
    score_lowered(latest, lower.as_str(), messages.len())
}

fn route(provider: Provider, model: &String, tier: &str, reason: String) -> (r: RouteChoice)
    ensures
        route_view(r) == (provider, model@, tier@, reason@),
{
    RouteChoice { provider, model: model.clone(), tier: String::from_str(tier), reason }
}

/// Picks backend and model tier for a window: the default local model when
/// smart routing is off; otherwise by complexity score, escalating to the
/// cloud only when it is enabled and a credential is configured.
pub fn choose_route(cfg: &RoutingConfig, messages: &[ChatMessage]) -> (r: RouteChoice)
    ensures
        route_view(r) == expected_route(*cfg, messages_view(messages@)),
{
    if !cfg.smart_routing {
        return route(Provider::Local, &cfg.ollama_model, "default", String::from_str("smart-routing-disabled"));
    }
    let score = score_query_complexity(messages);
    let reason = String::from_str("complexity=").concat(decimal_text(score as u32).as_str());
    if score >= 10 && cfg.cloud_escalation && !cfg.cloud_api_key.as_str().is_empty() {
        route(Provider::Cloud, &cfg.cloud_model, "escalated", reason)
    } else if score >= 8 {
        route(Provider::Local, &cfg.local_model_quality, "quality", reason)
    } else if score >= 4 {
        route(Provider::Local, &cfg.local_model_balanced, "balanced", reason)
    } else {
        route(Provider::Local, &cfg.local_model_fast, "fast", reason)
    }
}

/// The route of a service forced into cloud-only mode.
pub fn forced_cloud_route(cloud_model: &String) -> (r: RouteChoice)
    ensures
        route_view(r) == (Provider::Cloud, cloud_model@, "forced-cloud"@, "mode=cloud"@),
{
    route(Provider::Cloud, cloud_model, "forced-cloud", String::from_str("mode=cloud"))
}

/// The label of a provider.
pub fn provider_label(provider: &Provider) -> (r: &'static str)
    ensures
        r@ == (match provider {
            Provider::Local => "local"@,
            Provider::Cloud => "cloud"@,
        }),
{
    match provider {
        Provider::Local => "local",
        Provider::Cloud => "cloud",
    }
}

/// The first `n` characters of `s` (all of them when it is shorter).
pub open spec fn prefix_chars(s: Seq<char>, n: nat) -> Seq<char> {
    if s.len() <= n {
        s
    } else {
        s.take(n as int)
    }
}

pub(crate) fn char_prefix(s: &str, n: usize) -> (r: String)
    ensures
        r@ == prefix_chars(s@, n as nat),
{
    let len = s.unicode_len();
    let end = if len <= n { len } else { n };
    let r = String::from_str(s.substring_char(0, end));
    assert(r@ =~= prefix_chars(s@, n as nat));
    r
}

/// The cache key of an answer: the model, "::", then the first 500
/// characters of the newest message.
pub fn response_cache_key(model: &str, messages: &[ChatMessage]) -> (r: String)
    ensures
        r@ == model@ + "::"@ + prefix_chars(last_content(messages_view(messages@)), 500),
{
    let ghost w = messages_view(messages@);
    let empty = String::new();
    let latest: &str = if messages.len() == 0 {
        empty.as_str()
    } else {
        messages[messages.len() - 1].content.as_str()
    };
    assert(latest@ == last_content(w));
    let prefix = char_prefix(latest, KEY_PREFIX_CHARS);
    String::from_str(model).concat("::").concat(prefix.as_str())
}

proof fn lemma_byte_len_at_least_chars(s: Seq<char>)
    ensures
        byte_len(s) >= s.len(),
    decreases s.len(),
{
    if s.len() > 0 {
        lemma_byte_len_at_least_chars(s.drop_first());
    }
}

/// With smart routing on and cloud escalation off, a window of a system
/// message and eight turns whose newest turn is 1000 characters long and
/// holds a fenced code block scores at least 8 and goes to the quality tier.
pub proof fn law_long_code_turn_is_quality(cfg: RoutingConfig, w: Seq<MessageView>)
    requires
        cfg.smart_routing,
        !cfg.cloud_escalation,
        w.len() == 9,
        w.last().1.len() == 1000,
        has_substring(w.last().1, "```"@),
    ensures
        window_complexity(w) >= 8,
        expected_route(cfg, w).0 == Provider::Local,
        expected_route(cfg, w).2 == "quality"@,
{
    lemma_byte_len_at_least_chars(w.last().1);
    let lower = lower_of(w.last().1);
    assert(signal_hits(lower) >= 0);
}

} // verus!
