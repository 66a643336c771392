//! The typed price samples the core consumes.
//!
//! Ingestion, timestamp parsing and time-bucket resampling are external
//! collaborators: they hand the core a sequence of samples that is already
//! sorted by timestamp with no duplicate timestamps. A timestamp is carried
//! as seconds since the Unix epoch; a price is a fixed-point integer in
//! whatever unit the caller chose.

use vstd::prelude::*;

verus! {

/// One aggregated price observation at a point in time.
#[derive(Clone, Copy, Debug, PartialEq, Eq, Structural)]
pub struct Sample {
    /// Seconds since the Unix epoch.
    pub ts: i64,
    /// Price in fixed-point units.
    pub price: i64,
}

} // verus!
