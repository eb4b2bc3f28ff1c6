//! Core logic of a terminal system monitor: merging raw host metrics into
//! an immutable snapshot, gating how often the provider is re-queried,
//! ranking processes, measuring directory footprints, classifying metrics
//! into severity bands, and formatting values for display.

pub mod control;
pub mod formatting;
pub mod rank;
pub mod scan;
pub mod sensors;
pub mod snapshot;
pub mod thresholds;
