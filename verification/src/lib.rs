//! Safety gating for continuously re-extracted virtual objects.
//!
//! Three engines: a versioned snapshot ledger that tracks drift and
//! stability of an artifact across revisions, a stateless safety gate
//! (budgets, classification, redaction), and a per-domain policy seal
//! that records an audit trail of denials.
//!
//! Fractional quantities (confidence, drift, stability) are fixed-point
//! values: a score of 1.0 is represented as [`SCORE_ONE`] (10_000), so
//! one unit is 1/10_000.

pub mod ar_context;
pub mod atlas;
pub mod redaction;
pub mod safety_profile;
pub mod trusted;

pub use safety_profile::ExcavationSafetyProfile;
pub use safety_profile::ExcavationStats;
pub use safety_profile::Classification;
pub use safety_profile::SCORE_ONE;
