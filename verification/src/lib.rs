//! Verified caches from a blockchain node.
//!
//! Two largely independent cores share this crate. The first coordinates
//! speculative reads of trie nodes: a byte-bounded staging area tracks
//! in-flight and completed prefetches, a caching storage promotes finished
//! slots into a shard cache, and a bounded work queue feeds I/O workers.
//! The second keeps the latest signed accounts data per validator key:
//! batches are filtered, their signatures checked, and the surviving entries
//! committed into an immutable snapshot that readers share.

pub mod account_data;
pub mod accounts_cache;
pub mod accounts_laws;
pub mod bytes;
pub mod keyset;
pub mod kvmap;
pub mod prefetch_api;
pub mod shard_cache;
pub mod sig;
pub mod snapshot;
pub mod split_storage;
pub mod staging;
pub mod staging_laws;
pub mod test_utils;
pub mod tier1;
pub mod trie_storage;
