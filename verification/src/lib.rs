//! iDB: a unified storage engine whose core logic (wire protocol, query
//! language, changefeeds, ordered logs, space-key mapping and access control)
//! is specified and proved with Verus.

pub mod auth;
pub mod errors;
pub mod text;
pub mod types;
pub mod wire;
pub mod backend;
pub mod benchmark;
pub mod keyspace;
pub mod metrics;
pub mod page;
pub mod changefeed;
pub mod events;
pub mod ast;
pub mod lexer;
pub mod grammar;
pub mod parser;
pub mod query;
pub mod planner;
pub mod bridge;
pub mod keyed;
pub mod ordered_log;
pub mod gateway;
pub mod server;
pub mod accelerator;
pub mod learned_index;
pub mod dimensions;
pub mod space_index;
pub mod durable_index;
pub mod traversal;
pub mod fixture;
pub mod candidates;
pub mod durable_stream;
pub mod watch;
pub mod literal;
