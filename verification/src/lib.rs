//! Verified core of a token-license lifecycle contract.
//!
//! A token is a uniquely identified digital asset with an owner, a royalty
//! table, and exactly one active license (an opaque blob of terms). At most
//! one *proposed* license may be pending per token. The lifecycle engine
//! enacts propose / approve / accept / replace transitions over the store,
//! and every mutation is paired with an exact accounting of the storage
//! bytes it consumed or freed: the caller's attached payment is charged the
//! byte delta at a configured price per byte, and the excess is refunded.
//! A failed operation leaves the store exactly as it was.

pub mod events;
pub mod lifecycle;
pub mod storage;
pub mod store;
pub mod types;
