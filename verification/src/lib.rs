//! A verified price-oracle core: a registry of named price feeds whose
//! values are produced by consensus among a permissioned set of signers,
//! with round-based signed submission and freshness-filtered aggregation.
//!
//! The state lives in [`oracle::FPOContract`]: a symbol-keyed pair store,
//! caller-owned registries, and a storage-balance ledger. Rounds are
//! committed through the signed submission protocol in [`submit`], whose
//! acceptance condition is stated exactly and proved; batched reads are
//! combined by the aggregation engine in [`aggregate`]. The laws the
//! protocol obeys — round monotonicity, all-or-nothing commits, replay
//! rejection, signer-set authorization, freshness exclusion — are proved
//! in [`laws`]. The only trusted boundary is the ed25519 verification
//! call in [`sig`].

pub mod aggregate;
pub mod callbacks;
pub mod consumer;
pub mod errors;
pub mod laws;
pub mod math;
pub mod oracle;
pub mod price_pair;
pub mod registry;
pub mod requester;
pub mod sig;
pub mod storage_manager;
pub mod store;
pub mod submit;
pub mod wire;
