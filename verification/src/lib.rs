//! Aggregation of remote feeds into merged per-category feeds, with an
//! expiring cache that prefers stale data over failure.

pub mod atom;
pub mod atom_serialization;
pub mod cache;
pub mod caching_http_client;
pub mod category;
pub mod config;
pub mod error;
pub mod feed;
pub mod feed_provider;
pub mod feed_transformer;
pub mod html;
pub mod http_client;
pub mod links;
pub mod model;
pub mod rss_serialization;
pub mod sequence;
pub mod serialization;
pub mod text;
pub mod time;
