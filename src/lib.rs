//! A transcoding job pipeline: media ingestion, per-fragment job bookkeeping,
//! the optimistic claim protocol, command templating and the worker's
//! decision procedure.

pub mod status;
pub mod ids;
pub mod model;
pub mod store;
pub mod template;
pub mod ingest;
pub mod crypto;
pub mod worker;
