//! Data model shared by the gateway: providers, OpenAI-compatible requests and
//! responses, rate-limit settings, sessions, decision records and backends.
//!
//! Floating-point request parameters (temperature, top-p, penalties) are held as
//! their IEEE-754 single-precision bit patterns (`f32::to_bits`); the gateway only
//! carries them from one format to another and never computes with them.
use vstd::prelude::*;
use crate::clock::{now_unix_secs, new_uuid_v4};
use crate::text::{concat2, str_eq};

verus! {

/// The JSON value type of `serde_json`, carried through opaquely (tool schemas,
/// tool inputs, log probabilities).
#[verifier::external_type_specification]
#[verifier::external_body]
pub struct ExJsonValue(serde_json::Value);

/// `serde_json::Value::clone` gives back an equal value.
pub assume_specification[ <serde_json::Value as Clone>::clone ](v: &serde_json::Value) -> (r: serde_json::Value)
    ensures
        r == *v,
;

// ============================================================================
// Providers
// ============================================================================

#[derive(Debug, Clone)]
pub struct Provider {
    pub id: String,
    pub name: String,
    pub provider_type: ProviderType,
    pub endpoint: String,
    pub api_key: String,
    pub priority: i32,
    pub weight: i32,
    pub enabled: bool,
    pub proxy: Option<ProxyConfig>,
    pub created_at: i64,
    pub updated_at: i64,
}

#[derive(Debug, Clone, Copy, PartialEq, Eq, Hash, Structural)]
pub enum ProviderType {
    Anthropic,
    OpenAI,
    Gemini,
    Custom,
}

impl ProviderType {
    /// The lower-case name of the provider type, as it is displayed and serialised.
    pub open spec fn spec_name(self) -> Seq<char> {
        match self {
            ProviderType::Anthropic => "anthropic"@,
            ProviderType::OpenAI => "openai"@,
            ProviderType::Gemini => "gemini"@,
            ProviderType::Custom => "custom"@,
        }
    }

    /// The lower-case name of the provider type.
    pub fn as_str(&self) -> (s: &'static str)
        ensures
            s@ == self.spec_name(),
    {
        match self {
            ProviderType::Anthropic => "anthropic",
            ProviderType::OpenAI => "openai",
            ProviderType::Gemini => "gemini",
            ProviderType::Custom => "custom",
        }
    }
}

#[derive(Debug, Clone)]
pub struct ProxyConfig {
    pub proxy_type: ProxyType,
    pub url: String,
    pub auth: Option<ProxyAuth>,
}

#[derive(Debug, Clone, Copy, PartialEq, Eq, Structural)]
pub enum ProxyType {
    Http,
    Https,
    Socks5,
}

impl ProxyType {
    pub open spec fn spec_name(self) -> Seq<char> {
        match self {
            ProxyType::Http => "http"@,
            ProxyType::Https => "https"@,
            ProxyType::Socks5 => "socks5"@,
        }
    }

    /// The lower-case name of the proxy type.
    pub fn as_str(&self) -> (s: &'static str)
        ensures
            s@ == self.spec_name(),
    {
        match self {
            ProxyType::Http => "http",
            ProxyType::Https => "https",
            ProxyType::Socks5 => "socks5",
        }
    }
}

#[derive(Debug, Clone)]
pub struct ProxyAuth {
    pub username: String,
    pub password: String,
}

// ============================================================================
// Chat completion request / response (OpenAI compatible)
// ============================================================================

#[derive(Debug, Clone)]
pub struct ChatCompletionRequest {
    pub model: String,
    pub messages: Vec<Message>,
    /// Bit pattern of the `f32` temperature.
    pub temperature: Option<u32>,
    pub max_tokens: Option<u32>,
    /// Bit pattern of the `f32` nucleus-sampling parameter.
    pub top_p: Option<u32>,
    pub n: Option<u32>,
    pub stream: bool,
    pub stop: Option<Vec<String>>,
    /// Bit pattern of the `f32` presence penalty.
    pub presence_penalty: Option<u32>,
    /// Bit pattern of the `f32` frequency penalty.
    pub frequency_penalty: Option<u32>,
    pub user: Option<String>,
    pub tools: Option<Vec<Tool>>,
    pub tool_choice: Option<ToolChoice>,
}

#[derive(Debug, Clone)]
pub struct Message {
    pub role: String,
    pub content: Option<String>,
    pub name: Option<String>,
    pub tool_calls: Option<Vec<ToolCall>>,
    pub tool_call_id: Option<String>,
}

#[derive(Debug, Clone)]
pub struct Tool {
    /// Serialised as `type`.
    pub tool_type: String,
    pub function: ToolFunction,
}

#[derive(Debug, Clone)]
pub struct ToolFunction {
    pub name: String,
    pub description: Option<String>,
    pub parameters: serde_json::Value,
}

#[derive(Debug, Clone)]
pub enum ToolChoice {
    Auto,
    /// Serialised as `none`: no tool may be called.
    NoTool,
    Required,
    /// `choice_type` is serialised as `type`.
    Specific { choice_type: String, function: ToolChoiceFunction },
}

#[derive(Debug, Clone)]
pub struct ToolChoiceFunction {
    pub name: String,
}

#[derive(Debug, Clone)]
pub struct ToolCall {
    pub id: String,
    /// Serialised as `type`.
    pub call_type: String,
    pub function: FunctionCall,
}

#[derive(Debug, Clone)]
pub struct FunctionCall {
    pub name: String,
    pub arguments: String,
}

#[derive(Debug, Clone)]
pub struct ChatCompletionResponse {
    pub id: String,
    pub object: String,
    pub created: i64,
    pub model: String,
    pub choices: Vec<Choice>,
    pub usage: Usage,
    pub system_fingerprint: Option<String>,
}

#[derive(Debug, Clone)]
pub struct Choice {
    pub index: u32,
    pub message: Message,
    pub finish_reason: Option<String>,
    pub logprobs: Option<serde_json::Value>,
}

#[derive(Debug, Clone)]
pub struct Usage {
    pub prompt_tokens: u32,
    pub completion_tokens: u32,
    pub total_tokens: u32,
    pub prompt_tokens_details: Option<TokenDetails>,
    pub completion_tokens_details: Option<TokenDetails>,
}

#[derive(Debug, Clone, Copy, PartialEq, Eq, Structural)]
pub struct TokenDetails {
    pub cached_tokens: Option<u32>,
    pub reasoning_tokens: Option<u32>,
}

// ============================================================================
// Streaming
// ============================================================================

#[derive(Debug, Clone)]
pub struct ChatCompletionChunk {
    pub id: String,
    pub object: String,
    pub created: i64,
    pub model: String,
    pub choices: Vec<ChunkChoice>,
    pub system_fingerprint: Option<String>,
}

#[derive(Debug, Clone)]
pub struct ChunkChoice {
    pub index: u32,
    pub delta: Delta,
    pub finish_reason: Option<String>,
    pub logprobs: Option<serde_json::Value>,
}

#[derive(Debug, Clone)]
pub struct Delta {
    pub role: Option<String>,
    pub content: Option<String>,
    pub tool_calls: Option<Vec<ToolCall>>,
}

// ============================================================================
// Rate limiting
// ============================================================================

#[derive(Debug, Clone, Copy, PartialEq, Eq, Structural)]
pub struct RateLimitConfig {
    pub rpm: Option<u32>,
    pub tokens_per_5h: Option<u64>,
    pub tokens_per_week: Option<u64>,
    pub tokens_per_month: Option<u64>,
    pub max_concurrent_sessions: Option<u32>,
}

impl Default for RateLimitConfig {
    /// No limit of any kind.
    fn default() -> (c: Self)
        ensures
            c.rpm is None,
            c.tokens_per_5h is None,
            c.tokens_per_week is None,
            c.tokens_per_month is None,
            c.max_concurrent_sessions is None,
    {
        RateLimitConfig {
            rpm: None,
            tokens_per_5h: None,
            tokens_per_week: None,
            tokens_per_month: None,
            max_concurrent_sessions: None,
        }
    }
}

// ============================================================================
// Sessions and decisions
// ============================================================================

#[derive(Debug, Clone)]
pub struct Session {
    pub id: String,
    pub backend_id: String,
    pub created_at: i64,
    pub last_activity: i64,
    pub expired: bool,
}

#[derive(Debug, Clone)]
pub struct SessionInfo {
    pub id: String,
    pub backend_id: String,
    pub provider_name: String,
    pub created_at: i64,
    pub last_activity: i64,
    pub duration_seconds: u64,
}

#[derive(Debug, Clone)]
pub struct DecisionRecord {
    pub step_number: u32,
    pub action: DecisionAction,
    pub provider_id: Option<String>,
    pub reason: String,
    pub timestamp: i64,
}

#[derive(Debug, Clone, Copy, PartialEq, Eq, Structural)]
pub enum DecisionAction {
    Selected,
    Failed,
    Retried,
    Redirected,
    CircuitBreakerOpen,
    RateLimited,
}

impl DecisionAction {
    pub open spec fn spec_name(self) -> Seq<char> {
        match self {
            DecisionAction::Selected => "selected"@,
            DecisionAction::Failed => "failed"@,
            DecisionAction::Retried => "retried"@,
            DecisionAction::Redirected => "redirected"@,
            DecisionAction::CircuitBreakerOpen => "circuit_breaker_open"@,
            DecisionAction::RateLimited => "rate_limited"@,
        }
    }

    /// The name under which the action is displayed.
    pub fn as_str(&self) -> (s: &'static str)
        ensures
            s@ == self.spec_name(),
    {
        match self {
            DecisionAction::Selected => "selected",
            DecisionAction::Failed => "failed",
            DecisionAction::Retried => "retried",
            DecisionAction::Redirected => "redirected",
            DecisionAction::CircuitBreakerOpen => "circuit_breaker_open",
            DecisionAction::RateLimited => "rate_limited",
        }
    }
}

#[derive(Debug, Clone, Copy, PartialEq, Eq, Structural)]
pub enum UsageStatus {
    Success,
    Failed,
    RateLimited,
    CircuitBreakerOpen,
}

impl UsageStatus {
    pub open spec fn spec_name(self) -> Seq<char> {
        match self {
            UsageStatus::Success => "success"@,
            UsageStatus::Failed => "failed"@,
            UsageStatus::RateLimited => "rate_limited"@,
            UsageStatus::CircuitBreakerOpen => "circuit_breaker_open"@,
        }
    }

    /// The name under which the status is displayed and stored.
    pub fn as_str(&self) -> (s: &'static str)
        ensures
            s@ == self.spec_name(),
    {
        match self {
            UsageStatus::Success => "success",
            UsageStatus::Failed => "failed",
            UsageStatus::RateLimited => "rate_limited",
            UsageStatus::CircuitBreakerOpen => "circuit_breaker_open",
        }
    }

    /// The status stored under the name `s`; any other text is refused with
    /// `Invalid usage status: S`.
    /// Status names read back: two statuses with the same name are the same,
    /// so `parse` of a status's name gives that status.
    pub proof fn lemma_status_names_distinct(a: UsageStatus, b: UsageStatus)
        requires
            a.spec_name() == b.spec_name(),
        ensures
            a == b,
    {
        reveal_strlit("success");
        reveal_strlit("failed");
        reveal_strlit("rate_limited");
        reveal_strlit("circuit_breaker_open");
        assert("success"@.len() == 7);
        assert("failed"@.len() == 6);
        assert("rate_limited"@.len() == 12);
        assert("circuit_breaker_open"@.len() == 20);
        assert(a.spec_name().len() == b.spec_name().len());
    }

    pub fn parse(s: &str) -> (r: Result<UsageStatus, String>)
        ensures
            match r {
                Ok(st) => st.spec_name() == s@,
                Err(m) => m@ == "Invalid usage status: "@ + s@ && s@ != "success"@ && s@ != "failed"@
                    && s@ != "rate_limited"@ && s@ != "circuit_breaker_open"@,
            },
    {
        if str_eq(s, "success") {
            Ok(UsageStatus::Success)
        } else if str_eq(s, "failed") {
            Ok(UsageStatus::Failed)
        } else if str_eq(s, "rate_limited") {
            Ok(UsageStatus::RateLimited)
        } else if str_eq(s, "circuit_breaker_open") {
            Ok(UsageStatus::CircuitBreakerOpen)
        } else {
            Err(concat2("Invalid usage status: ", s))
        }
    }
}

impl std::str::FromStr for UsageStatus {
    type Err = String;

    fn from_str(s: &str) -> (r: Result<UsageStatus, String>)
        ensures
            match r {
                Ok(st) => st.spec_name() == s@,
                Err(m) => m@ == "Invalid usage status: "@ + s@ && s@ != "success"@ && s@ != "failed"@
                    && s@ != "rate_limited"@ && s@ != "circuit_breaker_open"@,
            },
    {
        UsageStatus::parse(s)
    }
}

/// The usage of one request, as logged. The cost is held as the bit pattern
/// of its `f64` value in US dollars.
#[derive(Debug, Clone)]
pub struct UsageLog {
    pub id: String,
    pub session_id: Option<String>,
    pub provider_id: String,
    pub model: String,
    pub prompt_tokens: i32,
    pub completion_tokens: i32,
    pub total_tokens: i32,
    pub cost_usd_bits: u64,
    pub latency_ms: Option<i32>,
    pub status: String,
    pub error_message: Option<String>,
    pub created_at: i64,
}

impl UsageLog {
    /// A successful request's log with id `id`, created at `now`: the token
    /// counts of `usage` (as `i32`), no cost (the bits of `0.0`) and no
    /// latency.
    pub fn new_at(id: String, session_id: Option<String>, provider_id: String, model: String, usage: &Usage, now: i64) -> (l: Self)
        ensures
            l.id == id,
            l.session_id == session_id,
            l.provider_id == provider_id,
            l.model == model,
            l.prompt_tokens == usage.prompt_tokens as i32,
            l.completion_tokens == usage.completion_tokens as i32,
            l.total_tokens == usage.total_tokens as i32,
            l.cost_usd_bits == 0,
            l.latency_ms is None,
            l.status@ == "success"@,
            l.error_message is None,
            l.created_at == now,
    {
        UsageLog {
            id,
            session_id,
            provider_id,
            model,
            prompt_tokens: usage.prompt_tokens as i32,
            completion_tokens: usage.completion_tokens as i32,
            total_tokens: usage.total_tokens as i32,
            cost_usd_bits: 0,
            latency_ms: None,
            status: String::from_str(UsageStatus::Success.as_str()),
            error_message: None,
            created_at: now,
        }
    }

    /// A successful request's log with a random id, created now.
    pub fn new(session_id: Option<String>, provider_id: String, model: String, usage: &Usage) -> (l: Self)
        ensures
            l.id@.len() == 36,
            l.session_id == session_id,
            l.provider_id == provider_id,
            l.model == model,
            l.prompt_tokens == usage.prompt_tokens as i32,
            l.completion_tokens == usage.completion_tokens as i32,
            l.total_tokens == usage.total_tokens as i32,
            l.cost_usd_bits == 0,
            l.latency_ms is None,
            l.status@ == "success"@,
            l.error_message is None,
    {
        let now = now_unix_secs();
        UsageLog::new_at(new_uuid_v4(), session_id, provider_id, model, usage, now)
    }

    /// The log with this cost (the bits of an `f64` in US dollars).
    pub fn with_cost(self, cost_usd_bits: u64) -> (l: Self)
        ensures
            l == (UsageLog { cost_usd_bits, ..self }),
    {
        UsageLog { cost_usd_bits, ..self }
    }

    pub fn with_latency(self, latency_ms: i32) -> (l: Self)
        ensures
            l == (UsageLog { latency_ms: Some(latency_ms), ..self }),
    {
        UsageLog { latency_ms: Some(latency_ms), ..self }
    }

    /// The log with this status.
    pub fn with_status(self, status: UsageStatus) -> (l: Self)
        ensures
            l.status@ == status.spec_name(),
            l == (UsageLog { status: l.status, ..self }),
    {
        UsageLog { status: String::from_str(status.as_str()), ..self }
    }

    /// The log of a failed request: the error message, and the status
    /// `failed`.
    pub fn with_error(self, error_message: String) -> (l: Self)
        ensures
            l.status@ == "failed"@,
            l.error_message == Some(error_message),
            l == (UsageLog { status: l.status, error_message: Some(error_message), ..self }),
    {
        UsageLog { error_message: Some(error_message), status: String::from_str(UsageStatus::Failed.as_str()), ..self }
    }

    /// The stored status, read back.
    pub fn get_status(&self) -> (r: Result<UsageStatus, String>)
        ensures
            match r {
                Ok(st) => st.spec_name() == self.status@,
                Err(m) => m@ == "Invalid usage status: "@ + self.status@,
            },
    {
        UsageStatus::parse(self.status.as_str())
    }
}

#[derive(Debug, Clone)]
pub struct ModelRedirect {
    pub id: String,
    pub source_model: String,
    pub target_model: String,
    pub target_provider_id: String,
    pub enabled: bool,
    pub created_at: i64,
}

#[derive(Debug, Clone, Copy, PartialEq, Eq, Structural)]
pub enum CircuitState {
    Closed,
    Open,
    HalfOpen,
}

impl CircuitState {
    pub open spec fn spec_name(self) -> Seq<char> {
        match self {
            CircuitState::Closed => "closed"@,
            CircuitState::Open => "open"@,
            CircuitState::HalfOpen => "half_open"@,
        }
    }

    /// The name under which the state is displayed.
    pub fn as_str(&self) -> (s: &'static str)
        ensures
            s@ == self.spec_name(),
    {
        match self {
            CircuitState::Closed => "closed",
            CircuitState::Open => "open",
            CircuitState::HalfOpen => "half_open",
        }
    }
}

#[derive(Debug, Clone)]
pub struct CircuitBreakerState {
    pub provider_id: String,
    pub state: CircuitState,
    pub failure_count: u32,
    pub success_count: u32,
    pub last_failure: Option<i64>,
    pub opened_at: Option<i64>,
}

// ============================================================================
// Backends and load balancing
// ============================================================================

#[derive(Debug, Clone)]
pub struct Backend {
    pub provider: Provider,
    pub rate_limit_config: Option<RateLimitConfig>,
}

#[derive(Debug, Clone, Copy, PartialEq, Eq, Structural)]
pub enum LoadBalancingStrategy {
    WeightedRoundRobin,
    PriorityBased,
    LeastLatency,
}

impl Default for LoadBalancingStrategy {
    fn default() -> (s: Self)
        ensures
            s == LoadBalancingStrategy::PriorityBased,
    {
        LoadBalancingStrategy::PriorityBased
    }
}

// ============================================================================
// Constructors and builders
// ============================================================================

impl Provider {
    /// A new enabled provider with a fresh random id, created and updated now,
    /// priority 0, weight 1 and no proxy.
    pub fn new(name: String, provider_type: ProviderType, endpoint: String, api_key: String) -> (p: Self)
        ensures
            p.id@.len() == 36,
            p.name == name,
            p.provider_type == provider_type,
            p.endpoint == endpoint,
            p.api_key == api_key,
            p.priority == 0,
            p.weight == 1,
            p.enabled,
            p.proxy is None,
            p.created_at == p.updated_at,
    {
        let now = now_unix_secs();
        Provider {
            id: new_uuid_v4(),
            name,
            provider_type,
            endpoint,
            api_key,
            priority: 0,
            weight: 1,
            enabled: true,
            proxy: None,
            created_at: now,
            updated_at: now,
        }
    }

    pub fn with_priority(self, priority: i32) -> (p: Self)
        ensures
            p == (Provider { priority, ..self }),
    {
        Provider { priority, ..self }
    }

    pub fn with_weight(self, weight: i32) -> (p: Self)
        ensures
            p == (Provider { weight, ..self }),
    {
        Provider { weight, ..self }
    }

    pub fn with_proxy(self, proxy: ProxyConfig) -> (p: Self)
        ensures
            p == (Provider { proxy: Some(proxy), ..self }),
    {
        Provider { proxy: Some(proxy), ..self }
    }

    /// Sets `updated_at` to the current time; nothing else changes.
    pub fn update_timestamp(&mut self)
        ensures
            *final(self) == (Provider { updated_at: final(self).updated_at, ..*old(self) }),
    {
        self.updated_at = now_unix_secs();
    }
}

impl ChatCompletionResponse {
    /// A `chat.completion` response created now, without system fingerprint.
    pub fn new(id: String, model: String, choices: Vec<Choice>, usage: Usage) -> (r: Self)
        ensures
            r.id == id,
            r.object@ == "chat.completion"@,
            r.model == model,
            r.choices == choices,
            r.usage == usage,
            r.system_fingerprint is None,
    {
        ChatCompletionResponse {
            id,
            object: String::from_str("chat.completion"),
            created: now_unix_secs(),
            model,
            choices,
            usage,
            system_fingerprint: None,
        }
    }
}

impl ChatCompletionChunk {
    /// A `chat.completion.chunk` created now, without system fingerprint.
    pub fn new(id: String, model: String, choices: Vec<ChunkChoice>) -> (c: Self)
        ensures
            c.id == id,
            c.object@ == "chat.completion.chunk"@,
            c.model == model,
            c.choices == choices,
            c.system_fingerprint is None,
    {
        ChatCompletionChunk {
            id,
            object: String::from_str("chat.completion.chunk"),
            created: now_unix_secs(),
            model,
            choices,
            system_fingerprint: None,
        }
    }
}

impl Usage {
    /// Usage of `prompt_tokens + completion_tokens` tokens in all, without details.
    pub fn new(prompt_tokens: u32, completion_tokens: u32) -> (u: Self)
        requires
            prompt_tokens + completion_tokens <= u32::MAX,
        ensures
            u.prompt_tokens == prompt_tokens,
            u.completion_tokens == completion_tokens,
            u.total_tokens == prompt_tokens + completion_tokens,
            u.prompt_tokens_details is None,
            u.completion_tokens_details is None,
    {
        Usage {
            prompt_tokens,
            completion_tokens,
            total_tokens: prompt_tokens + completion_tokens,
            prompt_tokens_details: None,
            completion_tokens_details: None,
        }
    }

    /// Records the number of reasoning tokens among the completion tokens.
    pub fn with_reasoning_tokens(self, reasoning_tokens: u32) -> (u: Self)
        ensures
            u == (Usage {
                completion_tokens_details: Some(
                    TokenDetails { cached_tokens: None, reasoning_tokens: Some(reasoning_tokens) },
                ),
                ..self
            }),
    {
        Usage {
            completion_tokens_details: Some(
                TokenDetails { cached_tokens: None, reasoning_tokens: Some(reasoning_tokens) },
            ),
            ..self
        }
    }
}

impl Session {
    /// A fresh, unexpired session on `backend_id`, created at `now`.
    pub fn new_at(id: String, backend_id: String, now: i64) -> (s: Self)
        ensures
            s == (Session { id, backend_id, created_at: now, last_activity: now, expired: false }),
    {
        Session { id, backend_id, created_at: now, last_activity: now, expired: false }
    }

    /// A fresh session with a random id on `backend_id`, created now.
    pub fn new(backend_id: String) -> (s: Self)
        ensures
            s.id@.len() == 36,
            s.backend_id == backend_id,
            s.created_at == s.last_activity,
            !s.expired,
    {
        let now = now_unix_secs();
        Session::new_at(new_uuid_v4(), backend_id, now)
    }

    /// A session has expired when more than `ttl_seconds` passed since its last activity.
    pub open spec fn spec_is_expired_at(self, now: int, ttl_seconds: int) -> bool {
        now - self.last_activity > ttl_seconds
    }

    /// Whether the session has expired at time `now`.
    pub fn is_expired_at(&self, now: i64, ttl_seconds: i64) -> (b: bool)
        ensures
            b == self.spec_is_expired_at(now as int, ttl_seconds as int),
    {
        (now as i128) - (self.last_activity as i128) > ttl_seconds as i128
    }

    /// Whether the session has expired by now.
    pub fn is_expired(&self, ttl_seconds: i64) -> (b: bool)
        ensures
            exists|now: i64| b == self.spec_is_expired_at(now as int, ttl_seconds as int),
    {
        let now = now_unix_secs();
        self.is_expired_at(now, ttl_seconds)
    }

    /// Marks activity at time `now`.
    pub fn update_activity_at(&mut self, now: i64)
        ensures
            *final(self) == (Session { last_activity: now, ..*old(self) }),
    {
        self.last_activity = now;
    }

    /// Marks activity now.
    pub fn update_activity(&mut self)
        ensures
            *final(self) == (Session { last_activity: final(self).last_activity, ..*old(self) }),
    {
        self.last_activity = now_unix_secs();
    }
}

impl DecisionRecord {
    /// A record of step `step_number`, without provider, stamped `timestamp`.
    pub fn new_at(step_number: u32, action: DecisionAction, reason: String, timestamp: i64) -> (r: Self)
        ensures
            r == (DecisionRecord { step_number, action, provider_id: None, reason, timestamp }),
    {
        DecisionRecord { step_number, action, provider_id: None, reason, timestamp }
    }

    /// A record of step `step_number`, without provider, stamped now.
    pub fn new(step_number: u32, action: DecisionAction, reason: String) -> (r: Self)
        ensures
            r.step_number == step_number,
            r.action == action,
            r.provider_id is None,
            r.reason == reason,
    {
        let now = now_unix_secs();
        DecisionRecord::new_at(step_number, action, reason, now)
    }

    pub fn with_provider(self, provider_id: String) -> (r: Self)
        ensures
            r == (DecisionRecord { provider_id: Some(provider_id), ..self }),
    {
        DecisionRecord { provider_id: Some(provider_id), ..self }
    }
}

impl ModelRedirect {
    /// An enabled redirect with a fresh random id, created now.
    pub fn new(source_model: String, target_model: String, target_provider_id: String) -> (r: Self)
        ensures
            r.id@.len() == 36,
            r.source_model == source_model,
            r.target_model == target_model,
            r.target_provider_id == target_provider_id,
            r.enabled,
    {
        let now = now_unix_secs();
        ModelRedirect {
            id: new_uuid_v4(),
            source_model,
            target_model,
            target_provider_id,
            enabled: true,
            created_at: now,
        }
    }
}

impl Backend {
    pub fn new(provider: Provider) -> (b: Self)
        ensures
            b == (Backend { provider, rate_limit_config: None }),
    {
        Backend { provider, rate_limit_config: None }
    }

    pub fn with_rate_limit(self, config: RateLimitConfig) -> (b: Self)
        ensures
            b == (Backend { rate_limit_config: Some(config), ..self }),
    {
        Backend { rate_limit_config: Some(config), ..self }
    }
}

} // verus!
