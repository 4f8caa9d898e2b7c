//! Core request-path logic of a reverse-proxy API gateway, with its contracts proved:
//! the error model, backend health and load-balancing strategies, per-backend circuit
//! breaking and the retry budget, rate-limit keys and results, response-cache keys and
//! rules, request and response transforms, IP filtering, route matching and upstream
//! URLs, configuration checks, and the per-request decisions of the proxy pipeline.

pub mod error;
pub mod headers;
pub mod backend;
pub mod ipfilter;
pub mod strategies;
pub mod loadbalancer;
pub mod health;
pub mod circuit;
pub mod retry;
pub mod ratelimit;
pub mod cache;
pub mod transform;
pub mod config;
pub mod router;
pub mod metrics;
pub mod proxy;
pub mod settings;
pub mod auth;
pub mod pipeline;
