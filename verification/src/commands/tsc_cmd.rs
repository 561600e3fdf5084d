//! Repeated lines grouped for `tsc` output.

use crate::commands::CommandModule;
use crate::filter::grouping::grouping;
use crate::filter::{GroupingByPattern, Strategy};
use crate::{Context, ContextView, RtkError};
use vstd::prelude::*;

verus! {

/// Compression module for `tsc`.
pub struct TscModule {
    strategy: GroupingByPattern,
}

impl TscModule {
    pub fn new() -> (r: Self) {
        Self { strategy: GroupingByPattern }
    }
}

impl CommandModule for TscModule {
    open spec fn spec_name(&self) -> Seq<char> {
        "tsc"@
    }

    open spec fn spec_strategy(&self) -> Seq<char> {
        "grouping_by_pattern"@
    }

    open spec fn spec_compress(&self, output: Seq<char>, context: ContextView) -> Seq<char> {
        grouping(output)
    }

    open spec fn accepts(&self, output: Seq<char>, context: ContextView) -> bool {
        true
    }


    fn name(&self) -> (r: &'static str) {
        "tsc"
    }

    fn strategy(&self) -> (r: &'static str) {
        self.strategy.name()
    }

    fn compress(&self, output: &str, context: &Context) -> (r: Result<String, RtkError>) {
        self.strategy.compress(output)
    }
}

} // verus!
