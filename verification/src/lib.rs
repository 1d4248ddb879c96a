//! EpochDB: an embeddable, persistent key-value store with per-entry
//! metadata (access frequency, creation time, optional absolute expiry),
//! atomic multi-tree transactions, an expiration sweep, a portable
//! backup/restore format, and a RESP-style wire protocol.
//!
//! The storage itself is provided by the `sled` embedded engine; the logic
//! layered on top of it (the three linked namespaces, the metadata codec,
//! the transaction discipline, the backup record stream and the protocol
//! dispatcher) is specified and verified here.

pub mod bytes;
pub mod clock;
pub mod db;
pub mod metadata;
pub mod metrics;
pub mod protocol;
pub mod server;
pub mod strconv;

pub use crate::db::DB;
pub use crate::metadata::Metadata;
