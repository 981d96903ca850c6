use vstd::prelude::*;

verus! {

/// Borrow a path-shaped string for use as a path.
///
/// `std::path::Path` has no Verus model, so inside the library a path is
/// carried as its text; the application layer around the library converts
/// to and from `Path` values at its edge.
pub fn as_path(path: &str) -> (r: &str)
    ensures
        r@ == path@,
{
    path
}

} // verus!
