//! Batch compilation driver library.
//!
//! Given source files discovered under an input root, the driver maps each
//! unit through an external source-to-target compile step, annotates any
//! diagnostics with the originating file path, mirrors the input tree under
//! an output root with the target extension, and aggregates the results
//! into a final build report.
//!
//! The modules here hold the pure, verified logic of the driver: path
//! mapping, unit discovery filtering, outcome handling, aggregation and the
//! run-mode decision. File system access, the external compiler and the
//! worker pool live outside the library and exchange plain values with it.

pub mod discovery;
pub mod error;
pub mod outcome;
pub mod paths;
pub mod plan;
pub mod report;
