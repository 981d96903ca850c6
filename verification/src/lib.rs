//! Matching core of a command-line path-navigation tool.
//!
//! A user supplies one abbreviation per path component; the core validates
//! each token (`query::abbr::Abbr`) and classifies how well it matches a
//! candidate component name (`query::abbr::Congruence`): an exact
//! case-insensitive match, a wildcard match, or a subsequence match ranked
//! by edit distance. Callers aggregate the per-component classifications to
//! pick the best-matching real path.

pub mod error;
pub mod query;
pub mod utils;
