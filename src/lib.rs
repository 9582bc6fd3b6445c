//! A resumable, concurrency-bounded download engine for episode files, with
//! the selection of the closest quality variant among resolved links.
pub mod batch;
pub mod decimal;
pub mod errors;
pub mod gogo;
pub mod manager;
pub mod resolution;
pub mod retry;
pub mod transfer;
