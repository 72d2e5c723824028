//! A small verified HTTP resource server core: a route table with literal
//! and named path segments, typed parameter extraction, a JSON/plain codec,
//! an expense repository over an ordered store, and a compressing
//! response filter.
pub mod bytes;
pub mod codec;
pub mod dispatch;
pub mod handlers;
pub mod json;
pub mod laws;
pub mod middleware;
pub mod routes;
pub mod store;
pub mod types;
