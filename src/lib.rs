//! Partitions of a sled database that generate their own keys: a generator
//! seeded above the partition's greatest key mints every key that direct
//! inserts, batches and transactions write, so none is handed out twice.
pub mod key;
pub mod key_generating;
pub mod laws;
pub mod store;
