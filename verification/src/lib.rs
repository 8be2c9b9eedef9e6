//! A small local search engine: text analysis, an inverted index with
//! conjunctive search, boolean and phrase matching, ingestion from document
//! sources, the configuration and its overrides, the decisions of the REST
//! front end, wire framing, and the memtable and segments of the storage
//! layer.

pub mod text;
pub mod paths;
pub mod analyzer;
pub mod index;
pub mod searcher;
pub mod engine;
pub mod api;
pub mod ingestion;
pub mod boolean_query;
pub mod positional_queries;
pub mod query_pipeline;
pub mod config;
pub mod daemon_config;
pub mod http;
pub mod wire_framing;
pub mod sharding;
pub mod memtable;
pub mod segment;
pub mod parser;
pub mod crawler;
pub mod session;
pub mod properties;
