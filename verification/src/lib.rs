//! A model-routing control plane: for each request it selects the best
//! upstream model endpoint for a logical alias, given capability needs,
//! budget, latency targets, regions and health signals, and emits a route
//! plan with fallbacks, cache hints and a signed stickiness token.  The
//! engine, its caches and its token discipline are verified; the HTTP frame
//! and file loading live outside the library.

pub mod api;
pub mod assoc;
pub mod cache;
pub mod compile;
pub mod config;
pub mod digest;
pub mod embedding;
pub mod engine;
pub mod errors;
pub mod fingerprint;
pub mod health;
pub mod masks;
pub mod rate;
pub mod score;
pub mod stickiness;
pub mod text;
pub mod types;

use vstd::prelude::*;

verus! {

/// Dyadic token-count buckets used in cache fingerprints: estimates that land
/// in the same bucket share a fingerprint slot.
pub open spec fn bucket_tokens_spec(tokens: u32) -> u16 {
    if tokens <= 256 {
        0u16
    } else if tokens <= 512 {
        1u16
    } else if tokens <= 1024 {
        2u16
    } else if tokens <= 2048 {
        3u16
    } else if tokens <= 4096 {
        4u16
    } else if tokens <= 8192 {
        5u16
    } else if tokens <= 16384 {
        6u16
    } else {
        7u16
    }
}

/// Map a token estimate onto its dyadic bucket.
pub fn bucket_tokens(tokens: u32) -> (b: u16)
    ensures
        b == bucket_tokens_spec(tokens),
{
    if tokens <= 256 {
        0
    } else if tokens <= 512 {
        1
    } else if tokens <= 1024 {
        2
    } else if tokens <= 2048 {
        3
    } else if tokens <= 4096 {
        4
    } else if tokens <= 8192 {
        5
    } else if tokens <= 16384 {
        6
    } else {
        7
    }
}

} // verus!
