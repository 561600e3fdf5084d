//! Repeated lines grouped for `pnpm` output.

use crate::commands::CommandModule;
use crate::filter::grouping::grouping;
use crate::filter::{GroupingByPattern, Strategy};
use crate::{Context, ContextView, RtkError};
use vstd::prelude::*;

verus! {

/// Compression module for `pnpm`.
pub struct PnpmModule {
    strategy: GroupingByPattern,
}

impl PnpmModule {
    pub fn new() -> (r: Self) {
        Self { strategy: GroupingByPattern }
    }
}

impl CommandModule for PnpmModule {
    open spec fn spec_name(&self) -> Seq<char> {
        "pnpm"@
    }

    open spec fn spec_strategy(&self) -> Seq<char> {
        "grouping_by_pattern"@
    }

    open spec fn spec_compress(&self, output: Seq<char>, context: ContextView) -> Seq<char> {
        grouping(output)
    }

    open spec fn accepts(&self, output: Seq<char>, context: ContextView) -> bool {
        true
    }


    fn name(&self) -> (r: &'static str) {
        "pnpm"
    }

    fn strategy(&self) -> (r: &'static str) {
        self.strategy.name()
    }

    fn compress(&self, output: &str, context: &Context) -> (r: Result<String, RtkError>) {
        self.strategy.compress(output)
    }
}

} // verus!
