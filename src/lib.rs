//! A bounded-concurrency bulk file fetcher, as a verified core: how files are
//! named on disk, what a fetched response turns into, and how a batch of
//! fetches is scheduled under a concurrency limit and tallied.

pub mod batch;
pub mod fetch;
pub mod gzip;
pub mod naming;
