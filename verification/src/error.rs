use vstd::prelude::*;

verus! {

/// The single failure mode of the matching core: a pattern token that is
/// empty, contains a disallowed character, or consists solely of dots.
/// The offending token is kept verbatim for user-facing diagnostics.
#[derive(Debug, Clone)]
pub enum Error {
    InvalidAbbr(String),
}

} // verus!
