//! Cache-aside construction of domain objects over a durable relational store and a
//! volatile key-value cache.
//!
//! The library holds the logic: search expressions, cache keys, the warm-up sweep, and
//! the decision machines that drive cache-aside lookups, object construction with a
//! bounded deduplication set, and insert-or-fetch of natural keys. Each machine turns
//! the reply of the last store operation into the next one; the caller performs them.

pub mod textutil;
pub mod err;
pub mod fulltext;
pub mod connect;
pub mod redis;
pub mod borg;
pub mod autocomplete;
