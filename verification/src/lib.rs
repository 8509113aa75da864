//! Storage-side logic of the memory engine: tenant-scoped in-memory stores,
//! migration bookkeeping, cache keys and the text helpers the SQL backends use.

pub mod api_keys;
pub mod backup;
pub mod cache_keys;
pub mod conversions;
pub mod errors;
pub mod events;
pub mod facts;
pub mod hashing;
pub mod ids;
pub mod jobs;
pub mod keyword;
pub mod lance;
pub mod migrations;
pub mod org_plan;
pub mod pagination;
pub mod parse;
pub mod pg_queries;
pub mod qdrant;
pub mod queries;
pub mod rows;
pub mod seqs;
pub mod sql;
pub mod startup;
pub mod text;
pub mod types;
pub mod usage;
pub mod vector;
