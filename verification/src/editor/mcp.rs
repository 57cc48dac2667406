//! The Model Context Protocol surface's decisions: which method a message
//! asks for, which tool a call names, and which protocol revision is spoken.
//! Reading and writing the JSON-RPC lines stays outside.

use vstd::prelude::*;

verus! {

/// The revision of MCP this speaks when a client does not ask for another.
pub const MCP_PROTOCOL_VERSION: &'static str = "2025-06-18";

/// JSON-RPC: the line was not JSON.
pub const PARSE_ERROR: i32 = -32700;
/// JSON-RPC: no such method.
pub const METHOD_NOT_FOUND: i32 = -32601;
/// JSON-RPC: the call's parameters were not usable.
pub const INVALID_PARAMS: i32 = -32602;

/// What an incoming message asks for.
#[derive(Clone, Debug, PartialEq, Eq)]
pub enum McpMethod {
    /// A notification: the protocol forbids answering it.
    Silent,
    Initialize,
    Ping,
    ListTools,
    CallTool,
    /// Answered with `METHOD_NOT_FOUND` and this message.
    Unknown { message: String },
}

pub open spec fn method_of(has_id: bool, method: Seq<char>) -> Option<McpMethod> {
    if !has_id {
        Some(McpMethod::Silent)
    } else if method == "initialize"@ {
        Some(McpMethod::Initialize)
    } else if method == "ping"@ {
        Some(McpMethod::Ping)
    } else if method == "tools/list"@ {
        Some(McpMethod::ListTools)
    } else if method == "tools/call"@ {
        Some(McpMethod::CallTool)
    } else {
        None
    }
}

fn same(a: &str, b: &str) -> (same: bool)
    ensures
        same == (a@ == b@),
{
    let n = a.unicode_len();
    if n != b.unicode_len() {
        return false;
    }
    let mut i: usize = 0;
    while i < n
        invariant
            n == a@.len(),
            n == b@.len(),
            i <= n,
            forall|j: int| 0 <= j < i ==> a@[j] == b@[j],
        decreases n - i,
    {
        if a.get_char(i) != b.get_char(i) {
            return false;
        }
        i = i + 1;
    }
    assert(a@ =~= b@);
    true
}

/// What a message with (or without) an ID asks for with `method`. A message
/// without an ID is a notification and gets no answer; a method this surface
/// does not have is reported by name.
pub fn route(has_id: bool, method: &str) -> (asked: McpMethod)
    ensures
        match method_of(has_id, method@) {
            Some(m) => asked == m,
            None => asked matches McpMethod::Unknown { message } && message@ == "unknown method '"@
                + method@ + "'"@,
        },
{
    if !has_id {
        McpMethod::Silent
    } else if same(method, "initialize") {
        McpMethod::Initialize
    } else if same(method, "ping") {
        McpMethod::Ping
    } else if same(method, "tools/list") {
        McpMethod::ListTools
    } else if same(method, "tools/call") {
        McpMethod::CallTool
    } else {
        let mut message = String::from_str("unknown method '");
        message.append(method);
        message.append("'");
        McpMethod::Unknown { message }
    }
}

/// The two tools: the protocol's own description, and one request.
#[derive(Clone, Copy, Debug, PartialEq, Eq, Structural)]
pub enum McpTool {
    Describe,
    Request,
}

/// The tool a call names, or why it names none.
pub fn tool(name: Option<&str>) -> (named: Result<McpTool, String>)
    ensures
        match name {
            None => named matches Err(m) && m@ == "tools/call needs a tool name"@,
            Some(n) => if n@ == "jutsu_audio_describe"@ {
                named == Ok::<McpTool, String>(McpTool::Describe)
            } else if n@ == "jutsu_audio_request"@ {
                named == Ok::<McpTool, String>(McpTool::Request)
            } else {
                named matches Err(m) && m@ == "unknown tool '"@ + n@ + "'"@
            },
        },
{
    match name {
        None => Err(String::from_str("tools/call needs a tool name")),
        Some(n) => {
            if same(n, "jutsu_audio_describe") {
                Ok(McpTool::Describe)
            } else if same(n, "jutsu_audio_request") {
                Ok(McpTool::Request)
            } else {
                let mut message = String::from_str("unknown tool '");
                message.append(n);
                message.append("'");
                Err(message)
            }
        },
    }
}

/// The revision the handshake answers in: the client's own when it names
/// one, since the handshake is where disagreeing is fatal.
pub fn negotiated_version<'a>(requested: Option<&'a str>) -> (version: &'a str)
    ensures
        version@ == match requested {
            Some(r) => r@,
            None => MCP_PROTOCOL_VERSION@,
        },
{
    match requested {
        Some(r) => r,
        None => MCP_PROTOCOL_VERSION,
    }
}

} // verus!
