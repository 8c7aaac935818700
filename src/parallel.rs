//! The worker pool: a parallel map over an index range, collected by index.
use vstd::prelude::*;

use rayon::iter::{IntoParallelIterator, ParallelIterator};

verus! {

/// Relies on rayon's `(0..n).into_par_iter().map(f).collect::<Vec<_>>()`:
/// `f` runs once for every index below `n` on rayon's worker pool, and the
/// collected vector holds the result for index `i` at position `i`, whatever
/// order the workers finish in.
#[verifier::external_body]
pub(crate) fn par_map_indices<T: Send, F: Fn(usize) -> T + Sync + Send>(n: usize, f: F) -> (r: Vec<T>)
    requires
        forall|i: usize| i < n ==> #[trigger] f.requires((i,)),
    ensures
        r@.len() == n,
        forall|i: int| 0 <= i < n ==> f.ensures((i as usize,), #[trigger] r@[i]),
{
    (0..n).into_par_iter().map(f).collect()
}

} // verus!
