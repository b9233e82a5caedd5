//! Fork-join helpers on rayon's worker pool. Their contracts only relay the
//! specifications of the closures they are given.
use rayon::iter::{IntoParallelIterator, ParallelIterator};
use vstd::prelude::*;

verus! {

/// Relies on rayon: `(0..n).into_par_iter().map(f).collect()` calls `f` once
/// for each index below `n`, on any worker, and collects the results in
/// index order (an indexed parallel iterator keeps its order in `collect`).
#[verifier::external_body]
pub(crate) fn par_map_range<T, F>(n: usize, f: F) -> (r: Vec<T>) where
    T: Send,
    F: Fn(usize) -> T + Sync + Send,

    requires
        forall|i: usize| i < n ==> call_requires(f, (i,)),
    ensures
        r@.len() == n,
        forall|i: int| 0 <= i < n ==> call_ensures(f, (i as usize,), #[trigger] r@[i]),
{
    (0..n).into_par_iter().map(f).collect()
}

/// Relies on `rayon::join`: it runs both closures, possibly in parallel, and
/// returns their results as a pair in argument order.
#[verifier::external_body]
pub(crate) fn join<A, B, RA, RB>(a: A, b: B) -> (r: (RA, RB)) where
    A: FnOnce() -> RA + Send,
    B: FnOnce() -> RB + Send,
    RA: Send,
    RB: Send,

    requires
        call_requires(a, ()),
        call_requires(b, ()),
    ensures
        call_ensures(a, (), r.0),
        call_ensures(b, (), r.1),
{
    rayon::join(a, b)
}

} // verus!
