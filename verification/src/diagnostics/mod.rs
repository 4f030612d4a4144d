//! Confidence scoring of conversions and the reasons behind a score.

pub mod confidence;
pub mod reason;
