use vstd::prelude::*;

verus! {

/// The one stream of random numbers that a search draws from, handed in by
/// the caller so that a run can be repeated from a fixed seed.
///
/// Nothing is assumed of the values: the search is correct for every value
/// that a source returns, and only its quality depends on their distribution.
pub trait RandomSource {
    /// An integer drawn uniformly from `[0, bound)`; `bound` is at least 1.
    fn below(&mut self, bound: u32) -> u32;

    /// A draw from the normal distribution with mean zero and standard
    /// deviation `scale`, rounded to the nearest integer.
    fn gaussian(&mut self, scale: u32) -> i32;
}

} // verus!
