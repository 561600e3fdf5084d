//! Generic compression strategies over line-oriented output.

pub mod error_only;
pub mod grouping;
pub mod stats;

pub use error_only::ErrorOnly;
pub use grouping::GroupingByPattern;
pub use stats::StatsExtraction;

use crate::RtkError;
use vstd::prelude::*;

verus! {

/// A compression strategy: a name and a function from output text to
/// compressed text.
pub trait Strategy {
    /// The strategy's name.
    spec fn spec_name(&self) -> Seq<char>;

    /// What the strategy makes of `input`.
    spec fn spec_compress(&self, input: Seq<char>) -> Seq<char>;

    fn name(&self) -> (r: &'static str)
        ensures
            r@ == self.spec_name(),
    ;

    fn compress(&self, input: &str) -> (r: Result<String, RtkError>)
        ensures
            r matches Ok(s) && s@ == self.spec_compress(input@),
    ;
}

} // verus!
