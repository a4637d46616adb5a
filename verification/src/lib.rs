//! Batch planning for a style-transfer image utility.
//!
//! The library holds the logic of the tool: deriving output paths from
//! input paths, parsing the width/height arguments, validating the run's
//! configuration, filtering glob matches down to regular files, and laying
//! out the per-image synthesis jobs. The surrounding binary performs the
//! filesystem enumeration and drives the synthesis engine.

pub mod batch;
pub mod config;
pub mod numeral;
pub mod outpath;
pub mod pattern;
pub mod resolve;
