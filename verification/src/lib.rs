//! A small random-number service core: inclusive integer ranges with
//! validation and defaults, a shared pseudo-random source, user-agent
//! classification, list shuffling, and plain-text/HTML response rendering,
//! together with a dispatcher for the service's four routes.

pub mod classify;
pub mod handlers;
pub mod range;
pub mod response;
pub mod rng;
pub mod routes;
pub mod text;
