//! Core of a partitioned generator for the "zone" table of a synthetic
//! geospatial benchmark dataset.
//!
//! The library computes, for a dataset of `N` ordered rows split into `K`
//! parts, the exact half-open row range `[offset, offset + limit)` of each
//! part (remainder-fair, contiguous, gap-free), applies such a range to an
//! already-materialized sequence of Arrow record batches by zero-copy
//! slicing, resolves each part's output path, derives the SQL text that maps
//! raw rows to the output schema, and assigns the globally contiguous
//! `z_zonekey` column. Row production, query execution and file writing are
//! external collaborators driven by the caller.

pub mod batch;
pub mod config;
pub mod partition;
pub mod plan;
pub mod text;
pub mod transform;
