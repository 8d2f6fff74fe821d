//! Catalogs files into named profiles: each ingested file is fingerprinted
//! with a content digest and recorded under its profile, while an observer
//! polls a non-blocking progress channel until the batch completes.

pub mod digest;
pub mod progress;
pub mod session;
pub mod store;
pub mod worker;
