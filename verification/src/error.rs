//! Error types of the gateway. Errors raised by outside components (the database,
//! the HTTP client, the file system, JSON handling) are carried as their message.
use vstd::prelude::*;
use crate::text::{concat2, concat3, dec_nat, push_dec_u64};

verus! {

/// Top-level application error.
#[derive(Debug)]
pub enum AppError {
    Router(RouterError),
    RateLimit(RateLimitError),
    Provider(ProviderError),
    /// A database error, by its message.
    Database(String),
    CircuitBreakerOpen(String),
    Crypto(CryptoError),
    Validation(ValidationError),
    /// An HTTP client error, by its message.
    Http(String),
    /// An I/O error, by its message.
    Io(String),
    /// A JSON (de)serialisation error, by its message.
    Serialization(String),
    Config(String),
    NotFound(String),
    InvalidInput(String),
    Internal(String),
}

#[derive(Debug)]
pub enum RouterError {
    NoAvailableBackends(String),
    AllBackendsFailed(usize),
    ModelNotFound(String),
    SelectionFailed(String),
    ForwardingFailed(String),
    SessionError(String),
    RedirectError(String),
    InvalidBackend(String),
}

#[derive(Debug)]
pub enum RateLimitError {
    RpmExceeded { provider_id: String, retry_after_secs: u64 },
    TokenQuotaExceeded { provider_id: String, window: String },
    ConcurrencyExceeded(String),
    StorageError(String),
    CheckFailed(String),
}

#[derive(Debug)]
pub enum ProviderError {
    NotFound(String),
    Disabled(String),
    InvalidConfig(String),
    ApiError(String),
    AuthenticationFailed(String),
    Timeout(String),
    ConnectionFailed(String),
    UnsupportedType(String),
    FormatConversion(String),
    ResponseError(String),
    ProxyError(String),
}

#[derive(Debug)]
pub enum CryptoError {
    EncryptionFailed(String),
    DecryptionFailed(String),
    KeyGenerationFailed(String),
    KeyringError(String),
    InvalidKeyFormat(String),
}

#[derive(Debug)]
pub enum ValidationError {
    InvalidField { field: String, message: String },
    MissingField(String),
    InvalidFormat(String),
    Failed(String),
}

#[derive(Debug)]
pub enum CircuitBreakerError {
    Open(String),
    StateTransitionFailed(String),
    ConfigError(String),
}

#[derive(Debug)]
pub enum SessionError {
    NotFound(String),
    Expired(String),
    CreationFailed(String),
    UpdateFailed(String),
}

impl RouterError {
    /// The message under which the error is displayed.
    pub open spec fn spec_message(&self) -> Seq<char> {
        match self {
            RouterError::NoAvailableBackends(x) => "No available backends for model: "@ + x@,
            RouterError::AllBackendsFailed(n) => "All backends failed after "@ + dec_nat(*n as nat) + " retries"@,
            RouterError::ModelNotFound(x) => "Model not found: "@ + x@,
            RouterError::SelectionFailed(x) => "Backend selection failed: "@ + x@,
            RouterError::ForwardingFailed(x) => "Request forwarding failed: "@ + x@,
            RouterError::SessionError(x) => "Session error: "@ + x@,
            RouterError::RedirectError(x) => "Model redirect error: "@ + x@,
            RouterError::InvalidBackend(x) => "Invalid backend configuration: "@ + x@,
        }
    }

    /// The message under which the error is displayed.
    pub fn to_string(&self) -> (s: String)
        ensures
            s@ == self.spec_message(),
    {
        match self {
            RouterError::NoAvailableBackends(x) => concat2("No available backends for model: ", x.as_str()),
            RouterError::AllBackendsFailed(n) => {
                let mut s = String::from_str("All backends failed after ");
                push_dec_u64(&mut s, *n as u64);
                s.append(" retries");
                s
            },
            RouterError::ModelNotFound(x) => concat2("Model not found: ", x.as_str()),
            RouterError::SelectionFailed(x) => concat2("Backend selection failed: ", x.as_str()),
            RouterError::ForwardingFailed(x) => concat2("Request forwarding failed: ", x.as_str()),
            RouterError::SessionError(x) => concat2("Session error: ", x.as_str()),
            RouterError::RedirectError(x) => concat2("Model redirect error: ", x.as_str()),
            RouterError::InvalidBackend(x) => concat2("Invalid backend configuration: ", x.as_str()),
        }
    }
}

impl ProviderError {
    /// The message under which the error is displayed.
    pub open spec fn spec_message(&self) -> Seq<char> {
        match self {
            ProviderError::NotFound(x) => "Provider not found: "@ + x@,
            ProviderError::Disabled(x) => "Provider is disabled: "@ + x@,
            ProviderError::InvalidConfig(x) => "Invalid provider configuration: "@ + x@,
            ProviderError::ApiError(x) => "Provider API error: "@ + x@,
            ProviderError::AuthenticationFailed(x) => "Provider authentication failed: "@ + x@,
            ProviderError::Timeout(x) => "Provider request timeout: "@ + x@,
            ProviderError::ConnectionFailed(x) => "Provider connection failed: "@ + x@,
            ProviderError::UnsupportedType(x) => "Unsupported provider type: "@ + x@,
            ProviderError::FormatConversion(x) => "Format conversion error: "@ + x@,
            ProviderError::ResponseError(x) => "Provider response error: "@ + x@,
            ProviderError::ProxyError(x) => "Proxy configuration error: "@ + x@,
        }
    }

    /// The message under which the error is displayed.
    pub fn to_string(&self) -> (s: String)
        ensures
            s@ == self.spec_message(),
    {
        match self {
            ProviderError::NotFound(x) => concat2("Provider not found: ", x.as_str()),
            ProviderError::Disabled(x) => concat2("Provider is disabled: ", x.as_str()),
            ProviderError::InvalidConfig(x) => concat2("Invalid provider configuration: ", x.as_str()),
            ProviderError::ApiError(x) => concat2("Provider API error: ", x.as_str()),
            ProviderError::AuthenticationFailed(x) => concat2("Provider authentication failed: ", x.as_str()),
            ProviderError::Timeout(x) => concat2("Provider request timeout: ", x.as_str()),
            ProviderError::ConnectionFailed(x) => concat2("Provider connection failed: ", x.as_str()),
            ProviderError::UnsupportedType(x) => concat2("Unsupported provider type: ", x.as_str()),
            ProviderError::FormatConversion(x) => concat2("Format conversion error: ", x.as_str()),
            ProviderError::ResponseError(x) => concat2("Provider response error: ", x.as_str()),
            ProviderError::ProxyError(x) => concat2("Proxy configuration error: ", x.as_str()),
        }
    }
}

impl CryptoError {
    /// The message under which the error is displayed.
    pub open spec fn spec_message(&self) -> Seq<char> {
        match self {
            CryptoError::EncryptionFailed(x) => "Encryption failed: "@ + x@,
            CryptoError::DecryptionFailed(x) => "Decryption failed: "@ + x@,
            CryptoError::KeyGenerationFailed(x) => "Key generation failed: "@ + x@,
            CryptoError::KeyringError(x) => "Keyring error: "@ + x@,
            CryptoError::InvalidKeyFormat(x) => "Invalid key format: "@ + x@,
        }
    }

    /// The message under which the error is displayed.
    pub fn to_string(&self) -> (s: String)
        ensures
            s@ == self.spec_message(),
    {
        match self {
            CryptoError::EncryptionFailed(x) => concat2("Encryption failed: ", x.as_str()),
            CryptoError::DecryptionFailed(x) => concat2("Decryption failed: ", x.as_str()),
            CryptoError::KeyGenerationFailed(x) => concat2("Key generation failed: ", x.as_str()),
            CryptoError::KeyringError(x) => concat2("Keyring error: ", x.as_str()),
            CryptoError::InvalidKeyFormat(x) => concat2("Invalid key format: ", x.as_str()),
        }
    }
}

impl CircuitBreakerError {
    /// The message under which the error is displayed.
    pub open spec fn spec_message(&self) -> Seq<char> {
        match self {
            CircuitBreakerError::Open(x) => "Circuit breaker is open for provider: "@ + x@,
            CircuitBreakerError::StateTransitionFailed(x) => "Circuit breaker state transition failed: "@ + x@,
            CircuitBreakerError::ConfigError(x) => "Circuit breaker configuration error: "@ + x@,
        }
    }

    /// The message under which the error is displayed.
    pub fn to_string(&self) -> (s: String)
        ensures
            s@ == self.spec_message(),
    {
        match self {
            CircuitBreakerError::Open(x) => concat2("Circuit breaker is open for provider: ", x.as_str()),
            CircuitBreakerError::StateTransitionFailed(x) => concat2("Circuit breaker state transition failed: ", x.as_str()),
            CircuitBreakerError::ConfigError(x) => concat2("Circuit breaker configuration error: ", x.as_str()),
        }
    }
}

impl SessionError {
    /// The message under which the error is displayed.
    pub open spec fn spec_message(&self) -> Seq<char> {
        match self {
            SessionError::NotFound(x) => "Session not found: "@ + x@,
            SessionError::Expired(x) => "Session expired: "@ + x@,
            SessionError::CreationFailed(x) => "Session creation failed: "@ + x@,
            SessionError::UpdateFailed(x) => "Session update failed: "@ + x@,
        }
    }

    /// The message under which the error is displayed.
    pub fn to_string(&self) -> (s: String)
        ensures
            s@ == self.spec_message(),
    {
        match self {
            SessionError::NotFound(x) => concat2("Session not found: ", x.as_str()),
            SessionError::Expired(x) => concat2("Session expired: ", x.as_str()),
            SessionError::CreationFailed(x) => concat2("Session creation failed: ", x.as_str()),
            SessionError::UpdateFailed(x) => concat2("Session update failed: ", x.as_str()),
        }
    }
}

impl RateLimitError {
    /// The message under which the error is displayed.
    pub open spec fn spec_message(&self) -> Seq<char> {
        match self {
            RateLimitError::RpmExceeded { provider_id, retry_after_secs } =>
                "RPM limit exceeded for provider "@ + provider_id@ + ", retry after "@
                    + dec_nat(*retry_after_secs as nat) + "s"@,
            RateLimitError::TokenQuotaExceeded { provider_id, window } =>
                "Token quota exceeded for provider "@ + provider_id@ + " in "@ + window@ + " window"@,
            RateLimitError::ConcurrencyExceeded(x) => "Max concurrent sessions reached for provider: "@ + x@,
            RateLimitError::StorageError(x) => "Rate limiter storage error: "@ + x@,
            RateLimitError::CheckFailed(x) => "Rate limit check failed: "@ + x@,
        }
    }

    /// The message under which the error is displayed.
    pub fn to_string(&self) -> (s: String)
        ensures
            s@ == self.spec_message(),
    {
        match self {
            RateLimitError::RpmExceeded { provider_id, retry_after_secs } => {
                let mut s = concat3("RPM limit exceeded for provider ", provider_id.as_str(), ", retry after ");
                push_dec_u64(&mut s, *retry_after_secs);
                s.append("s");
                s
            },
            RateLimitError::TokenQuotaExceeded { provider_id, window } => {
                let mut s = concat3("Token quota exceeded for provider ", provider_id.as_str(), " in ");
                s.append(window.as_str());
                s.append(" window");
                s
            },
            RateLimitError::ConcurrencyExceeded(x) => concat2("Max concurrent sessions reached for provider: ", x.as_str()),
            RateLimitError::StorageError(x) => concat2("Rate limiter storage error: ", x.as_str()),
            RateLimitError::CheckFailed(x) => concat2("Rate limit check failed: ", x.as_str()),
        }
    }
}

impl ValidationError {
    /// The message under which the error is displayed.
    pub open spec fn spec_message(&self) -> Seq<char> {
        match self {
            ValidationError::InvalidField { field, message } => "Invalid field "@ + field@ + ": "@ + message@,
            ValidationError::MissingField(x) => "Missing required field: "@ + x@,
            ValidationError::InvalidFormat(x) => "Invalid format: "@ + x@,
            ValidationError::Failed(x) => "Validation failed: "@ + x@,
        }
    }

    /// The message under which the error is displayed.
    pub fn to_string(&self) -> (s: String)
        ensures
            s@ == self.spec_message(),
    {
        match self {
            ValidationError::InvalidField { field, message } => {
                let mut s = concat3("Invalid field ", field.as_str(), ": ");
                s.append(message.as_str());
                s
            },
            ValidationError::MissingField(x) => concat2("Missing required field: ", x.as_str()),
            ValidationError::InvalidFormat(x) => concat2("Invalid format: ", x.as_str()),
            ValidationError::Failed(x) => concat2("Validation failed: ", x.as_str()),
        }
    }
}

impl AppError {
    /// The message under which the error is displayed.
    pub open spec fn spec_message(&self) -> Seq<char> {
        match self {
            AppError::Router(e) => "Router error: "@ + e.spec_message(),
            AppError::RateLimit(e) => "Rate limit exceeded: "@ + e.spec_message(),
            AppError::Provider(e) => "Provider error: "@ + e.spec_message(),
            AppError::Database(x) => "Database error: "@ + x@,
            AppError::CircuitBreakerOpen(x) => "Circuit breaker open for provider: "@ + x@,
            AppError::Crypto(e) => "Crypto error: "@ + e.spec_message(),
            AppError::Validation(e) => "Validation error: "@ + e.spec_message(),
            AppError::Http(x) => "HTTP error: "@ + x@,
            AppError::Io(x) => "IO error: "@ + x@,
            AppError::Serialization(x) => "Serialization error: "@ + x@,
            AppError::Config(x) => "Configuration error: "@ + x@,
            AppError::NotFound(x) => "Not found: "@ + x@,
            AppError::InvalidInput(x) => "Invalid input: "@ + x@,
            AppError::Internal(x) => "Internal error: "@ + x@,
        }
    }

    /// The message under which the error is displayed.
    pub fn to_string(&self) -> (s: String)
        ensures
            s@ == self.spec_message(),
    {
        match self {
            AppError::Router(e) => concat2("Router error: ", e.to_string().as_str()),
            AppError::RateLimit(e) => concat2("Rate limit exceeded: ", e.to_string().as_str()),
            AppError::Provider(e) => concat2("Provider error: ", e.to_string().as_str()),
            AppError::Database(x) => concat2("Database error: ", x.as_str()),
            AppError::CircuitBreakerOpen(x) => concat2("Circuit breaker open for provider: ", x.as_str()),
            AppError::Crypto(e) => concat2("Crypto error: ", e.to_string().as_str()),
            AppError::Validation(e) => concat2("Validation error: ", e.to_string().as_str()),
            AppError::Http(x) => concat2("HTTP error: ", x.as_str()),
            AppError::Io(x) => concat2("IO error: ", x.as_str()),
            AppError::Serialization(x) => concat2("Serialization error: ", x.as_str()),
            AppError::Config(x) => concat2("Configuration error: ", x.as_str()),
            AppError::NotFound(x) => concat2("Not found: ", x.as_str()),
            AppError::InvalidInput(x) => concat2("Invalid input: ", x.as_str()),
            AppError::Internal(x) => concat2("Internal error: ", x.as_str()),
        }
    }

    /// The HTTP status, error code, error type and retry hint under which the
    /// error is answered; the message is the error's own except for internal
    /// errors, which are not disclosed.
    pub open spec fn spec_response(&self) -> (u16, Seq<char>, Seq<char>, Option<u64>) {
        match self {
            AppError::RateLimit(e) => (429u16, match e {
                RateLimitError::RpmExceeded { .. } => "rate_limit_exceeded"@,
                RateLimitError::TokenQuotaExceeded { .. } => "token_quota_exceeded"@,
                RateLimitError::ConcurrencyExceeded(_) => "concurrency_exceeded"@,
                _ => "rate_limit_error"@,
            }, "rate_limit_error"@, match e {
                RateLimitError::RpmExceeded { retry_after_secs, .. } => Some(*retry_after_secs),
                _ => None,
            }),
            AppError::Router(e) => (503u16, match e {
                RouterError::NoAvailableBackends(_) => "no_available_backends"@,
                RouterError::AllBackendsFailed(_) => "all_backends_failed"@,
                RouterError::ModelNotFound(_) => "model_not_found"@,
                _ => "router_error"@,
            }, "router_error"@, None),
            AppError::CircuitBreakerOpen(_) => (503u16, "circuit_breaker_open"@, "circuit_breaker_error"@, Some(30u64)),
            AppError::Provider(e) => (502u16, match e {
                ProviderError::NotFound(_) => "provider_not_found"@,
                ProviderError::Disabled(_) => "provider_disabled"@,
                ProviderError::AuthenticationFailed(_) => "authentication_failed"@,
                ProviderError::Timeout(_) => "provider_timeout"@,
                _ => "provider_error"@,
            }, "provider_error"@, None),
            AppError::Validation(_) | AppError::InvalidInput(_) => (400u16, "invalid_request"@, "validation_error"@, None),
            AppError::NotFound(_) => (404u16, "not_found"@, "not_found_error"@, None),
            _ => (500u16, "internal_error"@, "internal_error"@, None),
        }
    }

    /// Whether the error's message is disclosed in its response.
    pub open spec fn discloses_message(&self) -> bool {
        self.spec_response().0 != 500
    }

    /// The response answering the error (see `spec_response`).
    pub fn error_response(&self) -> (r: ErrorResponse)
        ensures
            r.status == self.spec_response().0,
            r.error.code@ == self.spec_response().1,
            r.error.error_type@ == self.spec_response().2,
            r.error.retry_after == self.spec_response().3,
            self.discloses_message() ==> r.error.message@ == self.spec_message(),
            !self.discloses_message() ==> r.error.message@ == "An internal error occurred"@,
    {
        let (status, code, error_type, retry_after): (u16, &str, &str, Option<u64>) = match self {
            AppError::RateLimit(e) => (429, match e {
                RateLimitError::RpmExceeded { .. } => "rate_limit_exceeded",
                RateLimitError::TokenQuotaExceeded { .. } => "token_quota_exceeded",
                RateLimitError::ConcurrencyExceeded(_) => "concurrency_exceeded",
                _ => "rate_limit_error",
            }, "rate_limit_error", match e {
                RateLimitError::RpmExceeded { retry_after_secs, .. } => Some(*retry_after_secs),
                _ => None,
            }),
            AppError::Router(e) => (503, match e {
                RouterError::NoAvailableBackends(_) => "no_available_backends",
                RouterError::AllBackendsFailed(_) => "all_backends_failed",
                RouterError::ModelNotFound(_) => "model_not_found",
                _ => "router_error",
            }, "router_error", None),
            AppError::CircuitBreakerOpen(_) => (503, "circuit_breaker_open", "circuit_breaker_error", Some(30)),
            AppError::Provider(e) => (502, match e {
                ProviderError::NotFound(_) => "provider_not_found",
                ProviderError::Disabled(_) => "provider_disabled",
                ProviderError::AuthenticationFailed(_) => "authentication_failed",
                ProviderError::Timeout(_) => "provider_timeout",
                _ => "provider_error",
            }, "provider_error", None),
            AppError::Validation(_) | AppError::InvalidInput(_) => (400, "invalid_request", "validation_error", None),
            AppError::NotFound(_) => (404, "not_found", "not_found_error", None),
            _ => (500, "internal_error", "internal_error", None),
        };
        let message = if status == 500 { String::from_str("An internal error occurred") } else { self.to_string() };
        ErrorResponse {
            status,
            error: ErrorDetail {
                code: String::from_str(code),
                message,
                error_type: String::from_str(error_type),
                retry_after,
            },
        }
    }
}

/// The body of an error response.
#[derive(Debug, Clone)]
pub struct ErrorDetail {
    pub code: String,
    pub message: String,
    /// Serialised as `type`.
    pub error_type: String,
    pub retry_after: Option<u64>,
}

/// An error response: HTTP status and body.
#[derive(Debug, Clone)]
pub struct ErrorResponse {
    pub status: u16,
    pub error: ErrorDetail,
}

} // verus!
