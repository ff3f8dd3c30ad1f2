use vstd::prelude::*;

verus! {

/// One conversation turn.
#[derive(Clone, Debug)]
pub struct ChatMessage {
    pub role: String,
    pub content: String,
}

impl View for ChatMessage {
    type V = (Seq<char>, Seq<char>);

    /// A message is seen as the pair (role, content).
    open spec fn view(&self) -> (Seq<char>, Seq<char>) {
        (self.role@, self.content@)
    }
}

/// The messages of a vector, seen as (role, content) pairs.
pub open spec fn messages_view(v: Seq<ChatMessage>) -> Seq<(Seq<char>, Seq<char>)> {
    v.map_values(|m: ChatMessage| m@)
}

/// The body of an incoming chat request.
#[derive(Clone, Debug)]
pub struct ChatRequest {
    pub messages: Vec<ChatMessage>,
}

/// The body of a utility-generation request.
#[derive(Clone, Debug)]
pub struct UtilityGenerateRequest {
    pub template: Option<String>,
    pub prompt: String,
}

/// One entry of the static template list.
#[derive(Clone, Debug)]
pub struct UtilityTemplate {
    pub id: &'static str,
    pub title: &'static str,
    pub description: &'static str,
}

/// The answer to a utility-generation request.
#[derive(Clone, Debug)]
pub struct UtilityGenerateResponse {
    pub result: String,
}

/// A short machine-readable error body.
#[derive(Clone, Debug)]
pub struct ErrorResponse {
    pub error: String,
}

/// The routing part of the health report.
#[derive(Clone, Debug)]
pub struct RoutingHealth {
    pub smart: bool,
    pub cloud_escalation: bool,
    pub fast: String,
    pub balanced: String,
    pub quality: String,
}

/// The health report.
#[derive(Clone, Debug)]
pub struct HealthResponse {
    pub ok: bool,
    pub mode: String,
    pub model: String,
    pub routing: RoutingHealth,
}

/// A snapshot of the process-wide counters.
#[derive(Clone, Copy, Debug, PartialEq, Eq, Structural)]
pub struct MetricsResponse {
    pub requests_total: u64,
    pub chat_requests_total: u64,
    pub cache_hits_total: u64,
    pub cache_misses_total: u64,
    pub local_routes_total: u64,
    pub cloud_routes_total: u64,
    pub fallback_responses_total: u64,
}

/// Which backend answers a request.
#[derive(Clone, Copy, Debug, PartialEq, Eq, Structural)]
pub enum Provider {
    Local,
    Cloud,
}

/// The outcome of route selection.
#[derive(Clone, Debug)]
pub struct RouteChoice {
    pub provider: Provider,
    pub model: String,
    pub tier: String,
    pub reason: String,
}

} // verus!
