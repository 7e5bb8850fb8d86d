//! A table-format engine core: the schema model of a versioned, log-structured table, the
//! schemas of its log actions, extraction of typed columns from columnar batches, scans over
//! a snapshot, and the resolution of row-level deletions.
pub mod actions;
pub mod boundary;
pub mod columnar;
pub mod dv;
pub mod engine_data;
pub mod error;
pub mod extract;
pub mod handle;
pub mod naming;
pub mod reflect;
pub mod scan;
pub mod schema;
