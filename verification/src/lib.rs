//! Core logic for bulk optical-disc video extraction: a debounced
//! drive-readiness state machine, classification of staged disc entries,
//! grouping of multi-part stream files into logical tracks with byte-size
//! accounting, main-title selection, and construction of the external
//! transcoder's concatenation invocation.
//!
//! Everything here is pure computation over plain values; the surrounding
//! application performs the device polling, filesystem walking, mounting and
//! process spawning, and feeds the results into these functions.

pub mod export;
pub mod monitor;
pub mod names;
pub mod tracks;
