//! Token count estimate for a piece of text.

use crate::text::{char_is_ws, is_ws, to_chars};
use vstd::prelude::*;

verus! {

/// Number of whitespace characters in `s`.
pub open spec fn ws_count(s: Seq<char>) -> nat
    decreases s.len(),
{
    if s.len() == 0 {
        0
    } else {
        ws_count(s.drop_last()) + if is_ws(s.last()) {
            1nat
        } else {
            0nat
        }
    }
}

/// `n / d` rounded up.
pub open spec fn ceil_div(n: nat, d: nat) -> nat
    recommends
        d > 0,
{
    ((n + d - 1) / d as int) as nat
}

/// The token estimate: a quarter of the characters plus a tenth of the
/// whitespace characters, each rounded up, at least one for non-empty text.
pub open spec fn token_estimate(s: Seq<char>) -> nat {
    if s.len() == 0 {
        0
    } else {
        let t = ceil_div(s.len(), 4) + ceil_div(ws_count(s), 10);
        if t < 1 {
            1
        } else {
            t
        }
    }
}

/// Estimates the number of model tokens `text` takes.
pub fn estimate_tokens(text: &str) -> (r: usize)
    ensures
        r == token_estimate(text@),
{
    let v = to_chars(text);
    if v.len() == 0 {
        return 0;
    }
    let mut ws: usize = 0;
    let mut i: usize = 0;
    while i < v.len()
        invariant
            i <= v.len(),
            ws == ws_count(v@.take(i as int)),
            ws <= i,
        decreases v.len() - i,
    {
        assert(v@.take(i + 1).drop_last() == v@.take(i as int));
        if char_is_ws(v[i]) {
            ws += 1;
        }
        i += 1;
    }
    assert(v@.take(v.len() as int) == v@);
    let n = v.len();
    let base = n / 4 + if n % 4 == 0 {
        0
    } else {
        1
    };
    let adj = ws / 10 + if ws % 10 == 0 {
        0
    } else {
        1
    };
    assert(base == ceil_div(n as nat, 4)) by (nonlinear_arith)
        requires
            base == n / 4 + if n % 4 == 0 {
                0int
            } else {
                1int
            },
    ;
    assert(adj == ceil_div(ws as nat, 10)) by (nonlinear_arith)
        requires
            adj == ws / 10 + if ws % 10 == 0 {
                0int
            } else {
                1int
            },
    ;
    let t = base + adj;
    if t < 1 {
        1
    } else {
        t
    }
}

} // verus!
