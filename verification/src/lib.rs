//! Verified core of a match-history cache: reconciling a local store with a
//! rate-limited remote provider, ingesting records idempotently, and deriving
//! summaries and a reconstructed ranked timeline from what is cached.
//!
//! The library does no input or output. What reaches over a network is
//! written as a machine that is told what came back and says what to ask
//! next: [`ingest`] persists one record, [`reconcile`] brings the store up to
//! the provider's recent records, and [`sync`] runs one synchronization from
//! the health check to the overview. What is computed from stored records is
//! written as functions on those records: [`summary`], [`progress`] and
//! [`activity`].
//!
//! [`store`] holds the store in memory and gives each of its operations its
//! meaning. [`persist`] and [`mirror`] run the first two machines against
//! it, and say what a run comes to: a record is ingested whole or not at all,
//! ingesting it again changes nothing, and reconciling fetches no more than
//! is missing.

pub mod activity;
pub mod calendar;
pub mod db_proxy;
pub mod error;
pub mod ingest;
pub mod mirror;
pub mod models;
pub mod persist;
pub mod plan;
pub mod profile;
pub mod progress;
pub mod rank;
pub mod reconcile;
pub mod riot;
pub mod select;
pub mod store;
pub mod summary;
pub mod sync;
pub mod text;
