//! Configuration records.  Loading them from the environment and from files
//! happens outside the library; the engine consumes these plain values.

use vstd::prelude::*;

verus! {

#[derive(Clone, Debug)]
pub struct ServerConfig {
    pub bind_addr: String,
    pub workers: usize,
}

/// Which vectorizer backs the canonical-task index.
#[derive(Clone, Debug)]
pub enum EmbeddingProviderKind {
    FastEmbed { model: String },
    Hashed,
}

#[derive(Clone, Debug)]
pub struct EmbeddingConfig {
    pub canonical_path: String,
    pub top_k: usize,
    pub cache_ttl_ms: u64,
    pub provider: EmbeddingProviderKind,
}

/// Everything the engine is bootstrapped from.  Rates are in thousandths of
/// a token per second; money is in micro-units.
#[derive(Clone, Debug)]
pub struct RouterConfig {
    pub server: ServerConfig,
    pub overlay_dir: String,
    pub cache_ttl_ms: u64,
    pub cache_stale_ms: u64,
    pub sticky_secret: Vec<u8>,
    pub rate_limit_burst_milli: u64,
    pub rate_limit_refill_per_sec_milli: u64,
    pub embedding: Option<EmbeddingConfig>,
}

} // verus!
