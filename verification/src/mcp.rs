//! The MCP server's JSON-RPC dispatch: which lines are messages, which
//! method a request names, which tool a call names, and the errors answered.
//! Reading and writing JSON is left to the caller.
use vstd::prelude::*;

use crate::strings::str_equal;
use crate::text::{owned, push_str};
use crate::whitespace::{trim, trim_str};

verus! {

broadcast use vstd::string::group_string_axioms;

/// The MCP protocol version the server speaks.
pub const PROTOCOL_VERSION: &'static str = "2024-11-05";

/// The name the server reports.
pub const SERVER_NAME: &'static str = "localgpt-gen";

/// JSON-RPC: the method does not exist.
pub const METHOD_NOT_FOUND: i64 = -32601;

/// JSON-RPC: invalid method parameters.
pub const INVALID_PARAMS: i64 = -32602;

/// What the server does with a line read from stdin.
pub enum LineStep {
    /// Blank line: read the next one.
    Skip,
    /// A message to parse: the trimmed line.
    Message(String),
}

/// What the server does with a line read from stdin.
pub fn line_step(line: &str) -> (r: LineStep)
    ensures
        if trim(line@).len() == 0 {
            r is Skip
        } else {
            r matches LineStep::Message(m) && m@ == trim(line@)
        },
{
    let t = trim_str(line);
    if t.as_str().is_empty() {
        LineStep::Skip
    } else {
        LineStep::Message(t)
    }
}

/// A notification the server recognizes.
pub enum NotificationKind {
    /// `notifications/initialized`
    Initialized,
    /// `notifications/cancelled`
    Cancelled,
    /// Any other notification.
    Other,
}

/// Where a message goes.
pub enum Route {
    /// A notification (no ID): handled, never answered.
    Notification(NotificationKind),
    /// `initialize`
    Initialize,
    /// `tools/list`
    ToolsList,
    /// `tools/call`
    ToolsCall,
    /// `ping`
    Ping,
    /// Any other method: answered with a method-not-found error.
    MethodNotFound,
}

/// Where a message with this method (and an ID, or none) goes.
pub open spec fn route_of(has_id: bool, method: Seq<char>) -> Route {
    if !has_id {
        Route::Notification(
            if method == "notifications/initialized"@ {
                NotificationKind::Initialized
            } else if method == "notifications/cancelled"@ {
                NotificationKind::Cancelled
            } else {
                NotificationKind::Other
            },
        )
    } else if method == "initialize"@ {
        Route::Initialize
    } else if method == "tools/list"@ {
        Route::ToolsList
    } else if method == "tools/call"@ {
        Route::ToolsCall
    } else if method == "ping"@ {
        Route::Ping
    } else {
        Route::MethodNotFound
    }
}

/// Where a message with this method goes.
pub fn route(has_id: bool, method: &str) -> (r: Route)
    ensures
        r == route_of(has_id, method@),
{
    if !has_id {
        if str_equal(method, "notifications/initialized") {
            Route::Notification(NotificationKind::Initialized)
        } else if str_equal(method, "notifications/cancelled") {
            Route::Notification(NotificationKind::Cancelled)
        } else {
            Route::Notification(NotificationKind::Other)
        }
    } else if str_equal(method, "initialize") {
        Route::Initialize
    } else if str_equal(method, "tools/list") {
        Route::ToolsList
    } else if str_equal(method, "tools/call") {
        Route::ToolsCall
    } else if str_equal(method, "ping") {
        Route::Ping
    } else {
        Route::MethodNotFound
    }
}

/// A JSON-RPC error object.
pub struct RpcError {
    pub code: i64,
    pub message: String,
}

/// The error for an unknown method.
pub fn method_not_found(method: &str) -> (e: RpcError)
    ensures
        e.code == METHOD_NOT_FOUND,
        e.message@ == "Method not found: "@ + method@,
{
    let mut m = owned("Method not found: ");
    push_str(&mut m, method);
    RpcError { code: METHOD_NOT_FOUND, message: m }
}

/// Which tool a `tools/call` names: the first tool with that name, or the
/// error for a missing or unknown name.
pub fn find_tool(tool_names: &Vec<String>, name: Option<&str>) -> (r: Result<usize, RpcError>)
    ensures
        match name {
            None => r matches Err(e) && e.code == INVALID_PARAMS && e.message@
                == "Missing 'name' parameter"@,
            Some(n) => match r {
                Ok(i) => i < tool_names@.len() && tool_names@[i as int]@ == n@ && forall|j: int|
                    0 <= j < i ==> #[trigger] tool_names@[j]@ != n@,
                Err(e) => e.code == INVALID_PARAMS && e.message@ == "Unknown tool: "@ + n@
                    && forall|j: int| 0 <= j < tool_names@.len() ==> #[trigger] tool_names@[j]@ != n@,
            },
        },
{
    let n = match name {
        Some(n) => n,
        None => {
            return Err(
                RpcError { code: INVALID_PARAMS, message: owned("Missing 'name' parameter") },
            );
        },
    };
    let mut i: usize = 0;
    while i < tool_names.len()
        invariant
            name == Some(n),
            i <= tool_names@.len(),
            forall|j: int| 0 <= j < i ==> #[trigger] tool_names@[j]@ != n@,
        decreases tool_names@.len() - i,
    {
        if str_equal(tool_names[i].as_str(), n) {
            return Ok(i);
        }
        i = i + 1;
    }
    let mut m = owned("Unknown tool: ");
    push_str(&mut m, n);
    Err(RpcError { code: INVALID_PARAMS, message: m })
}

/// The text answered when a tool fails.
pub fn tool_error_text(error: &str) -> (s: String)
    ensures
        s@ == "Error: "@ + error@,
{
    let mut s = owned("Error: ");
    push_str(&mut s, error);
    s
}

} // verus!
