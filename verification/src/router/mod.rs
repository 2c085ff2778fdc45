//! Backend selection: load balancing and circuit breaking.
pub mod load_balancer;
pub mod circuit_breaker;
pub mod request_router;
