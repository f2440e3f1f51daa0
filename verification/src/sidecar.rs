//! Decision core of the status sidecar.
//!
//! The sidecar is a separate process speaking a line-delimited JSON-RPC
//! dialect on stdio; it translates one tool call into an HTTP status POST.
//! The application shell parses each line into a [`JsonRpcRequest`],
//! performs the action this module decides (the POST), and serializes the
//! reply.  Everything the protocol decides — which methods exist, what a
//! notification does, when to report, what to answer — is pinned here,
//! as is the POST retry policy.  The status-report tool is exposed under
//! the wire name `maestro_status`; the sidecar's one job is to translate
//! calls of it into status POSTs.

use vstd::prelude::*;
use crate::strutil::str_eq;

verus! {

/// The payload POSTed to the supervisor's status endpoint.
#[derive(Clone, Debug)]
pub struct StatusPayload {
    pub session_id: u32,
    pub instance_id: String,
    pub state: String,
    pub message: String,
    pub needs_input_prompt: Option<String>,
    pub timestamp: String,
}

/// A JSON-RPC request, reduced to what the sidecar reads: the raw id (to
/// echo back; absent for notifications), the method, and the tool-call
/// fields.
#[derive(Clone, Debug)]
pub struct JsonRpcRequest {
    /// The request id as raw JSON text, `None` for notifications.
    pub id: Option<String>,
    pub method: String,
    /// `params.name` of a `tools/call`.
    pub tool_name: Option<String>,
    /// `params.arguments.state` of a `tools/call`.
    pub tool_state: Option<String>,
    /// `params.arguments.message` of a `tools/call`.
    pub tool_message: Option<String>,
    /// `params.arguments.needsInputPrompt` of a `tools/call`.
    pub tool_prompt: Option<String>,
}

/// The status report the shell must POST before replying.
#[derive(Clone, Debug)]
pub struct ReportAction {
    pub state: String,
    pub message: String,
    pub needs_input_prompt: Option<String>,
}

/// The status tool's argument schema, as plain values the shell
/// serializes: the allowed `state` values, the required argument names,
/// and the optional prompt argument's name.
#[derive(Clone, Debug)]
pub struct StatusToolSchema {
    pub allowed_states: Vec<String>,
    pub required: Vec<String>,
    pub optional_prompt: String,
}

/// True when a schema is the status tool's: `state` restricted to the
/// five agent states, `state` and `message` required, and the prompt
/// argument optional.
pub open spec fn status_schema_ok(s: StatusToolSchema) -> bool {
    &&& s.allowed_states@.len() == 5
    &&& s.allowed_states@[0]@ == "idle"@
    &&& s.allowed_states@[1]@ == "working"@
    &&& s.allowed_states@[2]@ == "needs_input"@
    &&& s.allowed_states@[3]@ == "finished"@
    &&& s.allowed_states@[4]@ == "error"@
    &&& s.required@.len() == 2
    &&& s.required@[0]@ == "state"@
    &&& s.required@[1]@ == "message"@
    &&& s.optional_prompt@ == "needsInputPrompt"@
}

/// Builds the status tool's argument schema.
pub fn status_tool_schema() -> (r: StatusToolSchema)
    ensures
        status_schema_ok(r),
{
    let mut allowed_states: Vec<String> = Vec::new();
    allowed_states.push("idle".to_owned());
    allowed_states.push("working".to_owned());
    allowed_states.push("needs_input".to_owned());
    allowed_states.push("finished".to_owned());
    allowed_states.push("error".to_owned());
    let mut required: Vec<String> = Vec::new();
    required.push("state".to_owned());
    required.push("message".to_owned());
    StatusToolSchema { allowed_states, required, optional_prompt: "needsInputPrompt".to_owned() }
}

/// What the sidecar answers on one request.
#[derive(Clone, Debug)]
pub enum RpcReply {
    /// A notification: no reply at all.
    NoReply,
    /// `initialize`: the protocol version and server identity.
    Initialize { protocol_version: String, server_name: String },
    /// `tools/list`: the single status tool and its argument schema.
    ToolsList { tool_name: String, schema: StatusToolSchema },
    /// `ping`: an empty result.
    Ping,
    /// A successful `tools/call`: a text acknowledgement.
    Ack { text: String },
    /// A `tools/call` for an unknown tool: a text error result.
    UnknownTool { text: String },
    /// An unknown method: a protocol error.
    MethodNotFound { code: i32, message: String },
}

/// Decides one request: the status report to send first (if any) and the
/// reply.  Notifications never produce a reply; `notifications/initialized`
/// reports `idle`.  `initialize`, `tools/list` and `ping` answer from
/// fixed data.  A `tools/call` of the status tool reports the given state
/// (default `working`) and message (default empty) and acknowledges; any
/// other tool name is answered as unknown; any other method gets the
/// standard method-not-found error.
pub fn handle_rpc_request(req: &JsonRpcRequest) -> (r: (Option<ReportAction>, RpcReply))
    ensures
        req.id is None ==> {
            &&& r.1 is NoReply
            &&& (req.method@ == "notifications/initialized"@ ==> (
            r.0 matches Option::Some(a) && a.state@ == "idle"@ && a.message@ == "Ready"@
                && a.needs_input_prompt is None))
            &&& (req.method@ != "notifications/initialized"@ ==> r.0 is None)
        },
        req.id is Some && req.method@ == "initialize"@ ==> {
            &&& r.0 is None
            &&& (r.1 matches RpcReply::Initialize { protocol_version, server_name }
                && protocol_version@ == "2024-11-05"@ && server_name@ == "maestro-mcp-server"@)
        },
        req.id is Some && req.method@ == "tools/list"@ ==> {
            &&& r.0 is None
            &&& (r.1 matches RpcReply::ToolsList { tool_name, schema } && tool_name@
                == "maestro_status"@ && status_schema_ok(schema))
        },
        req.id is Some && req.method@ == "ping"@ ==> r.0 is None && r.1 is Ping,
        req.id is Some && req.method@ == "tools/call"@ ==> {
            if req.tool_name is Some && req.tool_name->0@ == "maestro_status"@ {
                &&& (r.0 matches Option::Some(a) && a.state@ == (match req.tool_state {
                    Option::Some(s) => s@,
                    Option::None => "working"@,
                }) && a.message@ == (match req.tool_message {
                    Option::Some(m) => m@,
                    Option::None => Seq::<char>::empty(),
                }) && (match (a.needs_input_prompt, req.tool_prompt) {
                    (Option::None, Option::None) => true,
                    (Option::Some(x), Option::Some(y)) => x@ == y@,
                    _ => false,
                }))
                &&& (r.1 matches RpcReply::Ack { text } && text@ == "Status reported: "@ + (
                match req.tool_state {
                    Option::Some(s) => s@,
                    Option::None => "working"@,
                }) + " - "@ + (match req.tool_message {
                    Option::Some(m) => m@,
                    Option::None => Seq::<char>::empty(),
                }))
            } else {
                r.0 is None && r.1 is UnknownTool
            }
        },
        req.id is Some && req.method@ != "initialize"@ && req.method@ != "tools/list"@
            && req.method@ != "ping"@ && req.method@ != "tools/call"@ ==> {
            &&& r.0 is None
            &&& (r.1 matches RpcReply::MethodNotFound { code, message } && code == -32601
                && message@ == "Method not found: "@ + req.method@)
        },
{
    proof {
        // the method names are pairwise distinct literals
        reveal_strlit("notifications/initialized");
        reveal_strlit("initialize");
        reveal_strlit("tools/list");
        reveal_strlit("ping");
        reveal_strlit("tools/call");
        assert("initialize"@ != "tools/list"@) by {
            assert("initialize"@[0] == 'i' && "tools/list"@[0] == 't');
        }
        assert("initialize"@ != "tools/call"@) by {
            assert("initialize"@[0] == 'i' && "tools/call"@[0] == 't');
        }
        assert("tools/list"@ != "tools/call"@) by {
            assert("tools/list"@[6] == 'l' && "tools/call"@[6] == 'c');
        }
        assert("ping"@.len() == 4 && "initialize"@.len() == 10 && "tools/list"@.len() == 10
            && "tools/call"@.len() == 10);
    }
    let method = req.method.as_str();
    if req.id.is_none() {
        if str_eq(method, "notifications/initialized") {
            return (
                Some(
                    ReportAction {
                        state: "idle".to_owned(),
                        message: "Ready".to_owned(),
                        needs_input_prompt: None,
                    },
                ),
                RpcReply::NoReply,
            );
        }
        return (None, RpcReply::NoReply);
    }
    if str_eq(method, "initialize") {
        (
            None,
            RpcReply::Initialize {
                protocol_version: "2024-11-05".to_owned(),
                server_name: "maestro-mcp-server".to_owned(),
            },
        )
    } else if str_eq(method, "tools/list") {
        (
            None,
            RpcReply::ToolsList {
                tool_name: "maestro_status".to_owned(),
                schema: status_tool_schema(),
            },
        )
    } else if str_eq(method, "ping") {
        (None, RpcReply::Ping)
    } else if str_eq(method, "tools/call") {
        let is_status_tool = match &req.tool_name {
            Some(n) => str_eq(n.as_str(), "maestro_status"),
            None => false,
        };
        if is_status_tool {
            let state: String = match &req.tool_state {
                Some(s) => s.clone(),
                None => "working".to_owned(),
            };
            let message: String = match &req.tool_message {
                Some(m) => m.clone(),
                None => String::new(),
            };
            let prompt: Option<String> = match &req.tool_prompt {
                Some(p) => Some(p.clone()),
                None => None,
            };
            let mut text = "Status reported: ".to_owned();
            text.append(state.as_str());
            text.append(" - ");
            text.append(message.as_str());
            (
                Some(ReportAction { state, message, needs_input_prompt: prompt }),
                RpcReply::Ack { text },
            )
        } else {
            let mut text = "Unknown tool: ".to_owned();
            match &req.tool_name {
                Some(n) => text.append(n.as_str()),
                None => {},
            }
            (None, RpcReply::UnknownTool { text })
        }
    } else {
        let mut message = "Method not found: ".to_owned();
        message.append(method);
        (None, RpcReply::MethodNotFound { code: -32601, message })
    }
}

/// The POST retry budget: this many attempts in total.
pub const MAX_RETRIES: u32 = 3;

/// What the sidecar does with one HTTP answer.
#[derive(Clone, Copy, Debug, PartialEq, Eq, Structural)]
pub enum RetryDecision {
    /// 2xx (202 included): the report landed; stop.
    Success,
    /// 4xx — for instance 403 from a stale instance id: never retry.
    StopClientError,
    /// Anything else: retry while attempts remain.
    RetryServerError,
}

/// Classifies an HTTP status code for the retry loop.
pub fn classify_response(status: u16) -> (r: RetryDecision)
    ensures
        200 <= status <= 299 ==> r == RetryDecision::Success,
        400 <= status <= 499 ==> r == RetryDecision::StopClientError,
        !(200 <= status <= 299) && !(400 <= status <= 499) ==> r
            == RetryDecision::RetryServerError,
{
    if 200 <= status && status <= 299 {
        RetryDecision::Success
    } else if 400 <= status && status <= 499 {
        RetryDecision::StopClientError
    } else {
        RetryDecision::RetryServerError
    }
}

/// The exponential backoff before retry `attempt` (1-based): 200 ms
/// doubled each further attempt.
pub fn backoff_ms(attempt: u32) -> (r: u64)
    requires
        1 <= attempt <= 16,
    ensures
        attempt == 1 ==> r == 200,
        attempt == 2 ==> r == 400,
        attempt == 3 ==> r == 800,
        r >= 200,
    decreases attempt,
{
    if attempt <= 1 {
        200
    } else {
        let prev = backoff_ms(attempt - 1);
        if prev <= 9223372036854775807 {
            prev * 2
        } else {
            prev
        }
    }
}

/// Builds the POST payload: a missing session id defaults to 0 and a
/// missing instance id to `unknown`, so a misconfigured sidecar still
/// reports (and is rejected by the ingress rather than crashing).
pub fn build_status_payload(
    state: &str,
    message: &str,
    needs_input_prompt: Option<String>,
    session_id: Option<u32>,
    instance_id: &Option<String>,
    timestamp: String,
) -> (r: StatusPayload)
    ensures
        r.session_id == (match session_id {
            Option::Some(i) => i,
            Option::None => 0u32,
        }),
        r.instance_id@ == (match instance_id {
            Option::Some(s) => s@,
            Option::None => "unknown"@,
        }),
        r.state@ == state@,
        r.message@ == message@,
        (match (r.needs_input_prompt, needs_input_prompt) {
            (Option::None, Option::None) => true,
            (Option::Some(x), Option::Some(y)) => x@ == y@,
            _ => false,
        }),
        r.timestamp == timestamp,
{
    StatusPayload {
        session_id: match session_id {
            Some(i) => i,
            None => 0,
        },
        instance_id: match instance_id {
            Some(s) => s.clone(),
            None => "unknown".to_owned(),
        },
        state: state.to_owned(),
        message: message.to_owned(),
        needs_input_prompt,
        timestamp,
    }
}

} // verus!
