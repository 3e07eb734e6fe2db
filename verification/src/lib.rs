//! A self-hosted file storage service core: a content-validation firewall
//! that sniffs magic bytes against the declared name, a content-addressed
//! deduplicating repository, and a durable job queue with at-most-once
//! claim semantics for asynchronous remote fetches. The storage engine,
//! digests, signature tables and identifiers come from outside crates
//! through narrow trusted wrappers; every decision made on top of them is
//! verified.

pub mod config;
pub mod db_utils;
pub mod file_utils;
pub mod handlers;
pub mod hashing;
pub mod strutil;
pub mod worker;
