use campus_api::models::{ChatMessage, Provider};
use campus_api::routing::{
    choose_route, forced_cloud_route, provider_label, response_cache_key, score_lowered, score_query_complexity,
    RoutingConfig,
};

fn msg(role: &str, content: &str) -> ChatMessage {
    ChatMessage { role: role.to_string(), content: content.to_string() }
}

fn cfg(smart: bool, escalation: bool, key: &str) -> RoutingConfig {
    RoutingConfig {
        smart_routing: smart,
        cloud_escalation: escalation,
        cloud_api_key: key.to_string(),
        ollama_model: "base".to_string(),
        local_model_fast: "fast-m".to_string(),
        local_model_balanced: "balanced-m".to_string(),
        local_model_quality: "quality-m".to_string(),
        cloud_model: "cloud-m".to_string(),
    }
}

fn long_code_window() -> Vec<ChatMessage> {
    let mut w = vec![msg("system", "p")];
    for _ in 0..7 {
        w.push(msg("user", "earlier turn"));
    }
    let mut last = String::from("```\n");
    while last.len() < 996 {
        last.push('x');
    }
    last.push_str("\n```");
    assert_eq!(last.chars().count(), 1000);
    w.push(msg("user", &last));
    w
}

#[test]
fn short_history_hi_scores_zero_and_is_fast() {
    let w = vec![msg("system", "p"), msg("user", "hello there"), msg("user", "hi")];
    assert_eq!(score_query_complexity(&w), 0);
    let r = choose_route(&cfg(true, false, ""), &w);
    assert_eq!(r.provider, Provider::Local);
    assert_eq!(r.tier, "fast");
    assert_eq!(r.model, "fast-m");
    assert_eq!(r.reason, "complexity=0");
}

#[test]
fn smart_routing_disabled_gives_default() {
    let w = long_code_window();
    let r = choose_route(&cfg(false, true, "key"), &w);
    assert_eq!(r.provider, Provider::Local);
    assert_eq!(r.model, "base");
    assert_eq!(r.tier, "default");
    assert_eq!(r.reason, "smart-routing-disabled");
}

#[test]
fn eight_turns_long_code_is_quality() {
    let w = long_code_window();
    assert_eq!(w.len(), 9);
    assert!(score_query_complexity(&w) >= 8);
    let r = choose_route(&cfg(true, false, ""), &w);
    assert_eq!(r.provider, Provider::Local);
    assert_eq!(r.tier, "quality");
    assert_eq!(r.model, "quality-m");
}

#[test]
fn signal_terms_match_without_case() {
    let w = vec![msg("system", "p"), msg("user", "DEBUG the API Stream latency")];
    assert_eq!(score_query_complexity(&w), 4);
    let r = choose_route(&cfg(true, false, ""), &w);
    assert_eq!(r.tier, "balanced");
    assert_eq!(r.reason, "complexity=4");
}

#[test]
fn escalates_with_credential_only() {
    let mut w = long_code_window();
    w.pop();
    let mut last = String::from("```rust architecture benchmark ");
    while last.len() < 1000 {
        last.push('y');
    }
    w.push(msg("user", &last));
    let s = score_query_complexity(&w);
    assert!(s >= 10);
    let r = choose_route(&cfg(true, true, "SECRET-REDACTED"), &w);
    assert_eq!(r.provider, Provider::Cloud);
    assert_eq!(r.tier, "escalated");
    assert_eq!(r.model, "cloud-m");
    assert_eq!(r.reason, format!("complexity={}", s));
    let r = choose_route(&cfg(true, true, ""), &w);
    assert_eq!(r.provider, Provider::Local);
    assert_eq!(r.tier, "quality");
}

#[test]
fn forced_cloud_route_fields() {
    let r = forced_cloud_route(&"cloud-m".to_string());
    assert_eq!(r.provider, Provider::Cloud);
    assert_eq!(r.tier, "forced-cloud");
    assert_eq!(r.reason, "mode=cloud");
}

#[test]
fn labels_and_cache_key() {
    assert_eq!(provider_label(&Provider::Local), "local");
    assert_eq!(provider_label(&Provider::Cloud), "cloud");
    let w = vec![msg("system", "p"), msg("user", "question")];
    assert_eq!(response_cache_key("m1", &w), "m1::question");
    let long: String = std::iter::repeat('é').take(600).collect();
    let w = vec![msg("system", "p"), msg("user", &long)];
    let key = response_cache_key("m", &w);
    assert_eq!(key.chars().count(), 3 + 500);
    assert_eq!(response_cache_key("m", &[]), "m::");
}

#[test]
fn score_from_given_lowered_text() {
    assert_eq!(score_lowered("x", "docker api", 1), 2);
    assert_eq!(score_lowered("DOCKER", "docker", 9), 3);
    assert_eq!(score_lowered("```", "", 2), 2);
}
