//! Crossword solve-statistics client library.
//!
//! The verified core: classifying per-puzzle statistics payloads, the calendar
//! date type used to key puzzles, request URL construction, and the
//! date-to-id index built from a lookup response.

pub mod stats;
pub mod text;
pub mod date;
pub mod endpoint;
pub mod index;
