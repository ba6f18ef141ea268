//! Score-board library for a multi-rater post competition.
//!
//! Posts are rated by several raters along three dimensions. This crate
//! holds the verified parts of that pipeline: the post catalog and title
//! resolution, the structural side of rater-file ingestion, the stable
//! partition of scores by post, and histogram bucket counting. The
//! floating-point normalization engine itself lives with the surrounding
//! application, outside the verified library.

pub mod aggregate;
pub mod catalog;
pub mod histogram;
pub mod ingest;
pub mod text;

