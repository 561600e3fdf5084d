//! The daemon's request logic: model policies, the fallback for unknown
//! commands, and the values its methods take and give.

pub mod fallback;
pub mod model;
pub mod policy;
pub mod reply;

use crate::commands::pre_execution::{optimize_command, skip, OptimizedSpec};
use vstd::prelude::*;

verus! {

/// Waits for the signals that stop the daemon.
pub struct GracefulShutdown {}

impl GracefulShutdown {
    pub fn new() -> (r: Self) {
        GracefulShutdown {}
    }
}

/// Parameters of the `optimize` method.
pub struct OptimizeParams {
    /// The command to optimize.
    pub command: String,
}

/// Result of the `optimize` method.
pub struct OptimizeResult {
    pub original: String,
    pub optimized: String,
    pub flags_added: Vec<String>,
    pub skipped: bool,
    pub skip_reason: Option<String>,
}

impl OptimizeResult {
    pub open spec fn spec(&self) -> OptimizedSpec {
        OptimizedSpec {
            original: self.original@,
            optimized: self.optimized@,
            flags_added: crate::commands::pre_execution::strings(self.flags_added@),
            skipped: self.skipped,
            skip_reason: crate::commands::pre_execution::opt_string(self.skip_reason),
        }
    }
}

/// What the `optimize` method answers: the optimization of the command, or
/// the command unchanged when flag optimization is disabled.
pub open spec fn optimize_answer(command: Seq<char>, enabled: bool) -> OptimizedSpec {
    if enabled {
        crate::commands::pre_execution::optimize_spec(command)
    } else {
        skip(command, "pre-execution flags disabled in config"@)
    }
}

/// The answer of the `optimize` method.
pub fn optimize_response(params: &OptimizeParams, enabled: bool) -> (r: OptimizeResult)
    ensures
        r.spec() == optimize_answer(params.command@, enabled),
{
    if !enabled {
        let r = OptimizeResult {
            original: String::from_str(params.command.as_str()),
            optimized: String::from_str(params.command.as_str()),
            flags_added: Vec::new(),
            skipped: true,
            skip_reason: Some(String::from_str("pre-execution flags disabled in config")),
        };
        assert(crate::commands::pre_execution::strings(r.flags_added@) =~= Seq::<Seq<char>>::empty());
        return r;
    }
    match optimize_command(params.command.as_str()) {
        Ok(o) => OptimizeResult {
            original: o.original,
            optimized: o.optimized,
            flags_added: o.flags_added,
            skipped: o.skipped,
            skip_reason: o.skip_reason,
        },
        Err(_) => {
            // `optimize_command` always succeeds.
            proof {
                assert(false);
            }
            OptimizeResult {
                original: String::new(),
                optimized: String::new(),
                flags_added: Vec::new(),
                skipped: true,
                skip_reason: None,
            }
        },
    }
}

/// Parameters of the `tee.save` method.
pub struct TeeSaveParams {
    pub command: String,
    pub output: String,
}

/// Result of the `tee.save` method.
pub struct TeeSaveResult {
    pub path: String,
    pub size: usize,
}

/// One file of the `tee.list` result.
pub struct TeeFileInfo {
    pub path: String,
    pub command: String,
    pub timestamp: String,
    pub size: usize,
}

/// Result of the `tee.list` method.
pub struct TeeListResult {
    pub files: Vec<TeeFileInfo>,
    pub total: usize,
}

/// Parameters of the `tee.read` method.
pub struct TeeReadParams {
    pub path: String,
}

/// Result of the `tee.read` method.
pub struct TeeReadResult {
    pub content: String,
    pub size: usize,
}

/// JSON-RPC error code: the request is not valid JSON.
pub const PARSE_ERROR: i32 = -32700;

/// JSON-RPC error code: the request is not a valid request.
pub const INVALID_REQUEST: i32 = -32600;

/// JSON-RPC error code: no such method.
pub const METHOD_NOT_FOUND: i32 = -32601;

/// JSON-RPC error code: the parameters are not valid.
pub const INVALID_PARAMS: i32 = -32602;

/// JSON-RPC error code: the method failed.
pub const INTERNAL_ERROR: i32 = -32603;

/// The methods a request is routed to.
#[derive(Debug, Clone, Copy, PartialEq, Eq, Structural)]
pub enum Route {
    Compress,
    Health,
    Stats,
    Shutdown,
    Optimize,
    TeeSave,
    TeeList,
    TeeRead,
    TeeClear,
}

/// Where a request goes: an error for another protocol version or an
/// unknown method.
pub open spec fn route_of(jsonrpc: Seq<char>, method: Seq<char>) -> Result<Route, (i32, Seq<char>)> {
    if jsonrpc != "2.0"@ {
        Err((INVALID_REQUEST, "Invalid JSON-RPC version (must be \"2.0\")"@))
    } else if method == "compress"@ {
        Ok(Route::Compress)
    } else if method == "health"@ {
        Ok(Route::Health)
    } else if method == "stats"@ {
        Ok(Route::Stats)
    } else if method == "shutdown"@ {
        Ok(Route::Shutdown)
    } else if method == "optimize"@ {
        Ok(Route::Optimize)
    } else if method == "tee_save"@ {
        Ok(Route::TeeSave)
    } else if method == "tee_list"@ {
        Ok(Route::TeeList)
    } else if method == "tee_read"@ {
        Ok(Route::TeeRead)
    } else if method == "tee_clear"@ {
        Ok(Route::TeeClear)
    } else {
        Err((METHOD_NOT_FOUND, "Method not found"@))
    }
}

/// Where a request goes.
pub fn route_request(jsonrpc: &str, method: &str) -> (r: Result<Route, (i32, String)>)
    ensures
        match (r, route_of(jsonrpc@, method@)) {
            (Ok(a), Ok(b)) => a == b,
            (Err((c, m)), Err((d, n))) => c == d && m@ == n,
            _ => false,
        },
{
    let v = crate::text::to_chars(jsonrpc);
    let m = crate::text::to_chars(method);
    if !crate::text::eq_str(&v, "2.0") {
        return Err((INVALID_REQUEST, String::from_str("Invalid JSON-RPC version (must be \"2.0\")")));
    }
    if crate::text::eq_str(&m, "compress") {
        Ok(Route::Compress)
    } else if crate::text::eq_str(&m, "health") {
        Ok(Route::Health)
    } else if crate::text::eq_str(&m, "stats") {
        Ok(Route::Stats)
    } else if crate::text::eq_str(&m, "shutdown") {
        Ok(Route::Shutdown)
    } else if crate::text::eq_str(&m, "optimize") {
        Ok(Route::Optimize)
    } else if crate::text::eq_str(&m, "tee_save") {
        Ok(Route::TeeSave)
    } else if crate::text::eq_str(&m, "tee_list") {
        Ok(Route::TeeList)
    } else if crate::text::eq_str(&m, "tee_read") {
        Ok(Route::TeeRead)
    } else if crate::text::eq_str(&m, "tee_clear") {
        Ok(Route::TeeClear)
    } else {
        Err((METHOD_NOT_FOUND, String::from_str("Method not found")))
    }
}

} // verus!
