use campus_api::cache::LruTtlCache;
use campus_api::chat::{check_cache, check_cloud_key, finish_fetch, plan_chat, route_counter, ChatError, ChatSettings, FetchOutcome, Reply};
use campus_api::metrics::{Counter, RuntimeMetrics};
use campus_api::models::{ChatMessage, Provider};
use campus_api::routing::RoutingConfig;

fn settings(cloud_mode: bool) -> ChatSettings {
    ChatSettings {
        routing: RoutingConfig {
            smart_routing: true,
            cloud_escalation: false,
            cloud_api_key: String::new(),
            ollama_model: "base".to_string(),
            local_model_fast: "fast-m".to_string(),
            local_model_balanced: "balanced-m".to_string(),
            local_model_quality: "quality-m".to_string(),
            cloud_model: "cloud-m".to_string(),
        },
        cloud_mode,
        max_input_chars: 12000,
        system_prompt: "be precise".to_string(),
    }
}

fn user(content: &str) -> ChatMessage {
    ChatMessage { role: "user".to_string(), content: content.to_string() }
}

#[test]
fn empty_messages_rejected() {
    let r = plan_chat(&settings(false), vec![]);
    assert!(matches!(r, Err(ChatError::EmptyMessages)));
    assert_eq!(ChatError::EmptyMessages.message(), "messages cannot be empty");
}

#[test]
fn cloud_mode_forces_cloud() {
    let p = plan_chat(&settings(true), vec![user("hi")]).ok().unwrap();
    assert_eq!(p.route.provider, Provider::Cloud);
    assert_eq!(p.route.tier, "forced-cloud");
    assert_eq!(p.route_summary, "cloud:cloud-m:forced-cloud:mode=cloud");
    assert_eq!(p.cache_key, "cloud-m::hi");
    assert_eq!(route_counter(p.route.provider), Counter::CloudRoute);
}

#[test]
fn last_query_is_cut_to_120_chars() {
    let long: String = std::iter::repeat('q').take(300).collect();
    let p = plan_chat(&settings(false), vec![user(&long)]).ok().unwrap();
    assert_eq!(p.last_query.chars().count(), 120);
    assert_eq!(p.window.len(), 2);
}

#[test]
fn cache_hit_counts_only_a_hit() {
    let mut cache = LruTtlCache::new(10, 60);
    cache.put("k".to_string(), "answer".to_string(), 0);
    let (reply, counter) = check_cache(&mut cache, &"k".to_string(), 10);
    assert!(matches!(reply, Reply::Cached(ref v) if v == "answer"));
    assert_eq!(counter, Counter::CacheHit);
}

#[test]
fn timeout_gives_one_fallback_notice() {
    let mut cache = LruTtlCache::new(10, 60);
    let metrics = RuntimeMetrics::new();
    let end = finish_fetch(&mut cache, "k".to_string(), FetchOutcome::TimedOut, 0);
    let mut notices: Vec<String> = Vec::new();
    for (notice, counter) in end {
        assert_eq!(counter, Counter::Fallback);
        metrics.record(counter);
        notices.push(notice);
    }
    assert_eq!(
        notices,
        vec!["Runtime fallback response: upstream timeout. Infrastructure is up; retry should recover.".to_string()]
    );
    assert_eq!(metrics.snapshot().fallback_responses_total, 1);
    assert_eq!(cache.len(), 0);
}

#[test]
fn failure_notice_names_the_error() {
    let mut cache = LruTtlCache::new(10, 60);
    let n = finish_fetch(&mut cache, "k".to_string(), FetchOutcome::Failed("status 503".to_string()), 0);
    assert_eq!(
        n,
        Some((
            "Runtime fallback response: status 503. Infrastructure is up; retry should recover.".to_string(),
            Counter::Fallback
        ))
    );
    assert_eq!(cache.len(), 0);
}

#[test]
fn oversized_answer_is_not_cached() {
    let mut cache = LruTtlCache::new(10, 60);
    let text: String = std::iter::repeat('a').take(9000).collect();
    let n = finish_fetch(&mut cache, "k".to_string(), FetchOutcome::Completed(text), 0);
    assert_eq!(n, None);
    assert_eq!(cache.len(), 0);
}

#[test]
fn empty_answer_is_not_cached() {
    let mut cache = LruTtlCache::new(10, 60);
    assert_eq!(finish_fetch(&mut cache, "k".to_string(), FetchOutcome::Completed(String::new()), 0), None);
    assert_eq!(cache.len(), 0);
}

#[test]
fn end_to_end_miss_then_hit() {
    let s = settings(false);
    let mut cache = LruTtlCache::new(120, 900);
    let content = "Explain throughput optimization for a distributed cache";
    let p = plan_chat(&s, vec![user(content)]).ok().unwrap();
    assert_eq!(p.route.provider, Provider::Local);
    assert_eq!(p.route.tier, "fast");
    assert_eq!(p.route.reason, "complexity=1");
    assert_eq!(p.route_summary, "local:fast-m:fast:complexity=1");
    assert_eq!(p.last_query, content);
    let (reply, counter) = check_cache(&mut cache, &p.cache_key, 1_000);
    assert!(matches!(reply, Reply::Stream));
    assert_eq!(counter, Counter::CacheMiss);
    assert_eq!(finish_fetch(&mut cache, p.cache_key.clone(), FetchOutcome::Completed("Answer.".to_string()), 2_000), None);
    let q = plan_chat(&s, vec![user(content)]).ok().unwrap();
    assert_eq!(q.route.model, p.route.model);
    let (reply, counter) = check_cache(&mut cache, &q.cache_key, 3_000);
    assert!(matches!(reply, Reply::Cached(ref v) if v == "Answer."));
    assert_eq!(counter, Counter::CacheHit);
}

#[test]
fn last_query_empty_when_everything_dropped() {
    let p = plan_chat(&settings(false), vec![user("   ")]).ok().unwrap();
    assert_eq!(p.window.len(), 1);
    assert_eq!(p.last_query, "");
}

#[test]
fn cloud_key_required() {
    assert_eq!(check_cloud_key(""), Err("cloud api key missing".to_string()));
    assert_eq!(check_cloud_key("SECRET-REDACTED"), Ok(()));
}
