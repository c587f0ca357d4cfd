//! A versioned event-record store: one structured event record per logical
//! key, guarded by single-writer-wins optimistic concurrency.
//!
//! The library holds the pure core: the decimal number codec, the generic
//! attribute-value tree and the bidirectional codec between it and the domain
//! record, the error taxonomy, key derivation, and the store protocol with an
//! in-memory store implementing it. A transport-bound adapter lives outside
//! the library and reuses the same codec and protocol decisions.

pub mod attr;
pub mod codec;
pub mod error;
pub mod num;
pub mod store;
pub mod types;
