use vstd::prelude::*;
use crate::text::strings::str_eq;

verus! {

/// The name the server gives of itself.
pub const SERVER_NAME: &'static str = "mem-agent";

/// The version of the Model Context Protocol that the server speaks.
pub const PROTOCOL_VERSION: &'static str = "2024-11-05";

/// What a JSON-RPC request asks of the server.
#[derive(Debug, Clone, Copy, PartialEq, Eq, Structural)]
pub enum McpMethod {
    /// `initialize`: the server describes itself.
    Initialize,
    /// `tools/list`: the server lists its tools.
    ToolsList,
    /// `tools/call`: a tool is run.
    ToolsCall,
    /// `notifications/initialized`: acknowledged with a null result.
    Initialized,
    /// Anything else: answered with "method not found".
    Unknown,
}

/// The method a request names.
pub open spec fn method_named(name: Seq<char>) -> McpMethod {
    if name == "initialize"@ {
        McpMethod::Initialize
    } else if name == "tools/list"@ {
        McpMethod::ToolsList
    } else if name == "tools/call"@ {
        McpMethod::ToolsCall
    } else if name == "notifications/initialized"@ {
        McpMethod::Initialized
    } else {
        McpMethod::Unknown
    }
}

/// Decides what a request with method `name` asks for.
pub fn route_method(name: &str) -> (r: McpMethod)
    ensures
        r == method_named(name@),
{
    if str_eq(name, "initialize") {
        McpMethod::Initialize
    } else if str_eq(name, "tools/list") {
        McpMethod::ToolsList
    } else if str_eq(name, "tools/call") {
        McpMethod::ToolsCall
    } else if str_eq(name, "notifications/initialized") {
        McpMethod::Initialized
    } else {
        McpMethod::Unknown
    }
}

} // verus!
