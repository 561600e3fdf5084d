//! What is recorded of a compression: the request and its token counts.

use crate::utils::tokens::{estimate_tokens, token_estimate};
use vstd::prelude::*;

verus! {

/// A compression to record.
pub struct TrackRequest<'a> {
    pub session_id: &'a str,
    pub command: &'a str,
    pub tool: &'a str,
    pub cwd: &'a str,
    pub exit_code: i32,
    pub original: &'a str,
    pub compressed: &'a str,
    pub strategy: &'a str,
    pub module: &'a str,
    pub exec_time_ms: u64,
}

/// The totals of one session.
pub struct SessionStats {
    pub command_count: i64,
    pub total_original_tokens: i64,
    pub total_compressed_tokens: i64,
    pub total_saved_tokens: i64,
}

/// The token counts recorded for a request: of the original, of the
/// compressed text, and the difference (zero when the compressed text is
/// larger).
pub fn token_counts(req: &TrackRequest) -> (r: (usize, usize, usize))
    ensures
        r.0 == token_estimate(req.original@),
        r.1 == token_estimate(req.compressed@),
        r.2 == (if r.0 >= r.1 {
            r.0 - r.1
        } else {
            0
        }),
{
    let original = estimate_tokens(req.original);
    let compressed = estimate_tokens(req.compressed);
    (original, compressed, original.saturating_sub(compressed))
}

} // verus!
