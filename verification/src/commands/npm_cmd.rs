//! Errors only for `npm` output.

use crate::commands::CommandModule;
use crate::filter::error_only::error_only;
use crate::filter::{ErrorOnly, Strategy};
use crate::{Context, ContextView, RtkError};
use vstd::prelude::*;

verus! {

/// Compression module for `npm`.
pub struct NpmModule {
    strategy: ErrorOnly,
}

impl NpmModule {
    pub fn new() -> (r: Self) {
        Self { strategy: ErrorOnly }
    }
}

impl CommandModule for NpmModule {
    open spec fn spec_name(&self) -> Seq<char> {
        "npm"@
    }

    open spec fn spec_strategy(&self) -> Seq<char> {
        "error_only"@
    }

    open spec fn spec_compress(&self, output: Seq<char>, context: ContextView) -> Seq<char> {
        error_only(output)
    }

    open spec fn accepts(&self, output: Seq<char>, context: ContextView) -> bool {
        true
    }


    fn name(&self) -> (r: &'static str) {
        "npm"
    }

    fn strategy(&self) -> (r: &'static str) {
        self.strategy.name()
    }

    fn compress(&self, output: &str, context: &Context) -> (r: Result<String, RtkError>) {
        self.strategy.compress(output)
    }
}

} // verus!
