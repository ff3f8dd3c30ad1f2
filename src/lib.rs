//! A chat-completion gateway core: context normalisation, route selection,
//! a bounded LRU/TTL answer cache, decoders for the two upstream streaming
//! formats, and the per-request decisions that tie them together.

pub mod cache;
pub mod chat;
pub mod config;
pub mod models;
pub mod metrics;
pub mod normalize;
pub mod routing;
pub mod stream;
pub mod text;
