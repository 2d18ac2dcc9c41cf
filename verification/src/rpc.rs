//! The answers of the server to JSON-RPC requests of the Model Context Protocol.
use crate::args::{str_arg_of, ArgMap};
use crate::catalog::{spec_catalog, tool_definitions, ToolDef, ToolSpec};
use crate::command::{call_tool, result_view, run_result, spec_call_tool, spec_run_result, words_view, CommandOutput};
use crate::text::str_eq;
use vstd::prelude::*;

verus! {

/// A JSON-RPC request as the server reads it.
#[derive(Debug)]
pub struct Request {
    /// The method the request names.
    pub method: String,
    /// The request's `params` object (empty when it has none or it is not an object).
    pub params: ArgMap,
    /// The object under `params.arguments` (empty when there is none or it is not an object).
    pub arguments: ArgMap,
}

/// The `result` or `error` of the answer to a request.
#[derive(Debug)]
pub enum Reply {
    /// The answer to `initialize`.
    Initialize { protocol_version: String, server_name: String },
    /// The answer to `tools/list`.
    ToolList { tools: Vec<ToolDef> },
    /// The answer to `tools/call`: one text item, flagged when the call failed.
    ToolResult { text: String, is_error: bool },
    /// A JSON-RPC error.
    Error { code: i32, message: String },
}

/// The mathematical content of a [`Reply`].
pub enum ReplyView {
    Initialize { protocol_version: Seq<char>, server_name: Seq<char> },
    ToolList { tools: Seq<ToolSpec> },
    ToolResult { text: Seq<char>, is_error: bool },
    Error { code: i32, message: Seq<char> },
}

impl View for Reply {
    type V = ReplyView;

    open spec fn view(&self) -> ReplyView {
        match self {
            Reply::Initialize { protocol_version, server_name } => ReplyView::Initialize {
                protocol_version: protocol_version@,
                server_name: server_name@,
            },
            Reply::ToolList { tools } => ReplyView::ToolList {
                tools: tools@.map_values(|t: ToolDef| t@),
            },
            Reply::ToolResult { text, is_error } => ReplyView::ToolResult {
                text: text@,
                is_error: *is_error,
            },
            Reply::Error { code, message } => ReplyView::Error { code: *code, message: message@ },
        }
    }
}

/// The kinds of request the server tells apart by their method.
pub enum Route {
    Initialize,
    Initialized,
    ListTools,
    CallTool,
    Unknown,
}

/// The kind of a request with this method.
pub open spec fn route_of(method: Seq<char>) -> Route {
    if method == "initialize"@ {
        Route::Initialize
    } else if method == "notifications/initialized"@ {
        Route::Initialized
    } else if method == "tools/list"@ {
        Route::ListTools
    } else if method == "tools/call"@ {
        Route::CallTool
    } else {
        Route::Unknown
    }
}

/// The JSON-RPC error code for an unknown method.
pub const METHOD_NOT_FOUND: i32 = -32601;

/// The text of the answer to a tool call with the given result: its text, or
/// its error after `Error: `.
pub open spec fn tool_text(r: Result<Seq<char>, Seq<char>>) -> Seq<char> {
    match r {
        Ok(text) => text,
        Err(e) => "Error: "@ + e,
    }
}

/// The answer to a tool call with the given result, flagged as an error when
/// the call failed.
pub open spec fn tool_result_reply(r: Result<Seq<char>, Seq<char>>) -> ReplyView {
    ReplyView::ToolResult { text: tool_text(r), is_error: r is Err }
}

/// The tool that a `tools/call` request names: its `name` string, or the empty name.
pub open spec fn called_name(params: Map<Seq<char>, crate::args::ArgValue>) -> Seq<char> {
    match str_arg_of(params, "name"@) {
        Some(n) => n,
        None => Seq::empty(),
    }
}

/// What the server does with a request: answer it, leave it unanswered, or
/// run `ibmcloud` once with the given arguments and answer with the outcome.
#[derive(Debug)]
pub enum Action {
    /// Answer with this reply.
    Answer(Reply),
    /// Send no answer (a notification).
    Ignore,
    /// Run `ibmcloud` once with these arguments, then answer with [`tool_call_reply`].
    Run(Vec<String>),
}

/// The mathematical content of an [`Action`].
pub enum ActionView {
    Answer(ReplyView),
    Ignore,
    Run(Seq<Seq<char>>),
}

impl View for Action {
    type V = ActionView;

    open spec fn view(&self) -> ActionView {
        match self {
            Action::Answer(r) => ActionView::Answer(r@),
            Action::Ignore => ActionView::Ignore,
            Action::Run(v) => ActionView::Run(words_view(v@)),
        }
    }
}

/// What the server does with a request that has this method, `params` and
/// `arguments`: the answers that need no command, or, for a call of a listed
/// tool, the single run of `ibmcloud` with that tool's command line.
pub open spec fn spec_action(
    method: Seq<char>,
    params: Map<Seq<char>, crate::args::ArgValue>,
    arguments: Map<Seq<char>, crate::args::ArgValue>,
) -> ActionView {
    match route_of(method) {
        Route::Initialize => ActionView::Answer(
            ReplyView::Initialize {
                protocol_version: "2024-11-05"@,
                server_name: "ibmcloud-mcp-server"@,
            },
        ),
        Route::Initialized => ActionView::Ignore,
        Route::ListTools => ActionView::Answer(ReplyView::ToolList { tools: spec_catalog() }),
        Route::CallTool => match spec_call_tool(called_name(params), arguments) {
            Ok(argv) => ActionView::Run(argv),
            Err(m) => ActionView::Answer(tool_result_reply(Err(m))),
        },
        Route::Unknown => ActionView::Answer(
            ReplyView::Error { code: METHOD_NOT_FOUND, message: "method not found: "@ + method },
        ),
    }
}

/// The only JSON-RPC error is the one for an unknown method; a `tools/call`
/// either runs `ibmcloud` once or, for an unknown tool, answers with a tool
/// error and runs nothing; no other request runs anything; and only the
/// `notifications/initialized` notification goes unanswered.
pub proof fn lemma_action_shape(
    method: Seq<char>,
    params: Map<Seq<char>, crate::args::ArgValue>,
    arguments: Map<Seq<char>, crate::args::ArgValue>,
)
    ensures
        spec_action(method, params, arguments) is Ignore <==> route_of(method) is Initialized,
        spec_action(method, params, arguments) is Run <==> (route_of(method) is CallTool && spec_call_tool(
            called_name(params),
            arguments,
        ) is Ok),
        spec_action(method, params, arguments) matches ActionView::Answer(ReplyView::Error { code, .. })
            ==> code == METHOD_NOT_FOUND && route_of(method) is Unknown,
        route_of(method) is CallTool ==> !(spec_action(method, params, arguments) matches ActionView::Answer(
            ReplyView::Error { .. },
        )),
{
}

/// What the server does with a request depends on the request alone, never
/// on earlier requests: two requests that read the same (at any points of a
/// session) get the same action, and so run the same command line.
pub proof fn lemma_no_call_history(a: Request, b: Request)
    requires
        a.method@ == b.method@,
        a.params@ == b.params@,
        a.arguments@ == b.arguments@,
    ensures
        spec_action(a.method@, a.params@, a.arguments@) == spec_action(b.method@, b.params@, b.arguments@),
{
}

/// The answer to a tool call with the given result.
pub fn tool_reply(r: Result<String, String>) -> (reply: Reply)
    ensures
        reply@ == tool_result_reply(result_view(r)),
{
    match r {
        Ok(text) => Reply::ToolResult { text, is_error: false },
        Err(e) => Reply::ToolResult {
            text: String::from_str("Error: ").concat(e.as_str()),
            is_error: true,
        },
    }
}

/// The answer to a tool call, given what its one run of `ibmcloud` gave.
pub fn tool_call_reply(out: Result<CommandOutput, String>) -> (reply: Reply)
    ensures
        reply@ == tool_result_reply(spec_run_result(out)),
{
    tool_reply(run_result(out))
}

/// What to do with a request: answer it, ignore it, or run `ibmcloud` once.
pub fn handle_request(req: &Request) -> (action: Action)
    ensures
        action@ == spec_action(req.method@, req.params@, req.arguments@),
{
    let method = req.method.as_str();
    if str_eq(method, "initialize") {
        Action::Answer(
            Reply::Initialize {
                protocol_version: String::from_str("2024-11-05"),
                server_name: String::from_str("ibmcloud-mcp-server"),
            },
        )
    } else if str_eq(method, "notifications/initialized") {
        Action::Ignore
    } else if str_eq(method, "tools/list") {
        Action::Answer(Reply::ToolList { tools: tool_definitions() })
    } else if str_eq(method, "tools/call") {
        let name = match req.params.str_arg("name") {
            Some(n) => n,
            None => "",
        };
        proof {
            reveal_strlit("");
            assert(""@ =~= Seq::<char>::empty());
        }
        assert(name@ == called_name(req.params@));
        match call_tool(name, &req.arguments) {
            Ok(argv) => Action::Run(argv),
            Err(e) => Action::Answer(tool_reply(Err(e))),
        }
    } else {
        Action::Answer(
            Reply::Error {
                code: METHOD_NOT_FOUND,
                message: String::from_str("method not found: ").concat(method),
            },
        )
    }
}

} // verus!
