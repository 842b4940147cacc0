//! Rewrites identifier naming conventions in source text through an ordered
//! list of verified pattern rules.

pub mod casing;
pub mod catalogue;
pub mod pattern;
pub mod rules;
pub mod scan;
pub mod text;
