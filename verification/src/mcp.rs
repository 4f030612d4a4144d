//! Routing the requests of the Model Context Protocol server: which action
//! answers a method and, for a tool call, the tool's name.

use vstd::prelude::*;

verus! {

/// What the server does for a request.
#[derive(Debug, Clone, Copy, PartialEq, Eq)]
pub enum McpAction {
    /// `initialize`: the protocol version, capabilities and server info.
    Initialize,
    /// `tools/list`: the tools on offer.
    ListTools,
    /// `tools/call` of `scan_project`.
    ScanProject,
    /// `tools/call` of `detect_config`.
    DetectConfig,
    /// `tools/call` of any other tool: an error result.
    UnknownTool,
    /// Any other method: the JSON-RPC error "Method not found".
    MethodNotFound,
}

pub open spec fn route_spec(method: Seq<char>, tool: Seq<char>) -> McpAction {
    if method == "initialize"@ {
        McpAction::Initialize
    } else if method == "tools/list"@ {
        McpAction::ListTools
    } else if method == "tools/call"@ {
        if tool == "scan_project"@ {
            McpAction::ScanProject
        } else if tool == "detect_config"@ {
            McpAction::DetectConfig
        } else {
            McpAction::UnknownTool
        }
    } else {
        McpAction::MethodNotFound
    }
}

fn is_text(s: &str, t: &str) -> (r: bool)
    ensures
        r == (s@ == t@),
{
    let a = crate::text::chars_of(s);
    let b = crate::text::chars_of(t);
    crate::text::eq_chars(a.as_slice(), b.as_slice())
}

/// The action for a request of `method`; `tool` is the name of the tool
/// called (empty when none is given).
pub fn route(method: &str, tool: &str) -> (r: McpAction)
    ensures
        r == route_spec(method@, tool@),
{
    if is_text(method, "initialize") {
        McpAction::Initialize
    } else if is_text(method, "tools/list") {
        McpAction::ListTools
    } else if is_text(method, "tools/call") {
        if is_text(tool, "scan_project") {
            McpAction::ScanProject
        } else if is_text(tool, "detect_config") {
            McpAction::DetectConfig
        } else {
            McpAction::UnknownTool
        }
    } else {
        McpAction::MethodNotFound
    }
}

/// The path argument of a tool call: the one given, else the current
/// directory `.`.
pub fn tool_path(arg: Option<String>) -> (r: String)
    ensures
        match arg {
            Some(p) => r == p,
            None => r@ == "."@,
        },
{
    match arg {
        Some(p) => p,
        None => String::from_str("."),
    }
}

} // verus!
