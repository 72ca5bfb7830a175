//! Decision-and-bookkeeping engine of an automated prediction-market bot:
//! a capped activity log, an order ledger with simulated settlement,
//! derived performance statistics and the per-cycle orchestration.
//!
//! Money is held as signed micro-units (one currency unit is 1_000_000) and
//! fractions such as prices, edges and confidences as parts per million.
use vstd::prelude::*;

pub mod bounded_log;
pub mod text;
pub mod models;
pub mod settlement;
pub mod stats;
pub mod messages;
pub mod engine;
pub mod json;
pub mod predictor;
pub mod markets;

verus! {

} // verus!
