use ibmcloud_mcp_server::args::{ArgMap, ArgValue};
use ibmcloud_mcp_server::command::CommandOutput;
use ibmcloud_mcp_server::rpc::{handle_request, tool_call_reply, tool_reply, Action, Reply, Request, METHOD_NOT_FOUND};

fn request(method: &str) -> Request {
    Request { method: method.to_string(), params: ArgMap::new(), arguments: ArgMap::new() }
}

fn call(name: ArgValue, arguments: ArgMap) -> Request {
    let mut params = ArgMap::new();
    params.insert("name".to_string(), name);
    Request { method: "tools/call".to_string(), params, arguments }
}

#[test]
fn initialize_reports_protocol_and_name() {
    match handle_request(&request("initialize")) {
        Action::Answer(Reply::Initialize { protocol_version, server_name }) => {
            assert_eq!(protocol_version, "2024-11-05");
            assert_eq!(server_name, "ibmcloud-mcp-server");
        }
        other => panic!("{:?}", other),
    }
}

#[test]
fn initialized_notification_gets_no_answer() {
    assert!(matches!(handle_request(&request("notifications/initialized")), Action::Ignore));
}

#[test]
fn tools_list_gives_the_catalog() {
    match handle_request(&request("tools/list")) {
        Action::Answer(Reply::ToolList { tools }) => {
            assert_eq!(tools.len(), 88);
            assert_eq!(tools[0].name, "ibmcloud_login");
            assert_eq!(tools[87].name, "ibmcloud_version");
        }
        other => panic!("{:?}", other),
    }
}

#[test]
fn tools_call_runs_the_named_tool_once() {
    let mut arguments = ArgMap::new();
    arguments.insert("name".to_string(), ArgValue::Str("web".to_string()));
    match handle_request(&call(ArgValue::Str("ibmcloud_cf_app".to_string()), arguments)) {
        Action::Run(argv) => assert_eq!(argv, vec!["cf".to_string(), "app".to_string(), "web".to_string()]),
        other => panic!("{:?}", other),
    }
    match handle_request(&call(ArgValue::Str("ibmcloud_account_show".to_string()), ArgMap::new())) {
        Action::Run(argv) => assert_eq!(argv, vec!["account", "show", "--output", "json"]),
        other => panic!("{:?}", other),
    }
}

#[test]
fn tools_call_with_unknown_or_missing_name_runs_nothing() {
    match handle_request(&call(ArgValue::Str("bogus".to_string()), ArgMap::new())) {
        Action::Answer(Reply::ToolResult { text, is_error }) => {
            assert_eq!(text, "Error: Unknown tool: bogus");
            assert!(is_error);
        }
        other => panic!("{:?}", other),
    }
    match handle_request(&call(ArgValue::UInt(3), ArgMap::new())) {
        Action::Answer(Reply::ToolResult { text, is_error }) => {
            assert_eq!(text, "Error: Unknown tool: ");
            assert!(is_error);
        }
        other => panic!("{:?}", other),
    }
}

#[test]
fn tool_call_reply_from_outcome() {
    let ok = CommandOutput { success: true, code: Some(0), stdout: b"cf app web\n".to_vec(), stderr: Vec::new() };
    match tool_call_reply(Ok(ok)) {
        Reply::ToolResult { text, is_error } => {
            assert_eq!(text, "cf app web");
            assert!(!is_error);
        }
        other => panic!("{:?}", other),
    }
    let fail = CommandOutput { success: false, code: Some(3), stdout: Vec::new(), stderr: b"denied".to_vec() };
    match tool_call_reply(Ok(fail)) {
        Reply::ToolResult { text, is_error } => {
            assert_eq!(text, "Error: Error: denied");
            assert!(is_error);
        }
        other => panic!("{:?}", other),
    }
    match tool_call_reply(Err("not found".to_string())) {
        Reply::ToolResult { text, is_error } => {
            assert_eq!(text, "Error: Failed to run ibmcloud: not found");
            assert!(is_error);
        }
        other => panic!("{:?}", other),
    }
}

#[test]
fn answers_do_not_depend_on_earlier_requests() {
    let mut login_args = ArgMap::new();
    login_args.insert("apikey".to_string(), ArgValue::Str("K".to_string()));
    let before = handle_request(&call(ArgValue::Str("ibmcloud_target".to_string()), ArgMap::new()));
    let _ = handle_request(&call(ArgValue::Str("ibmcloud_login".to_string()), login_args));
    let after = handle_request(&call(ArgValue::Str("ibmcloud_target".to_string()), ArgMap::new()));
    match (before, after) {
        (Action::Run(a), Action::Run(b)) => assert_eq!(a, b),
        other => panic!("{:?}", other),
    }
}

#[test]
fn unknown_method_is_a_json_rpc_error() {
    match handle_request(&request("resources/list")) {
        Action::Answer(Reply::Error { code, message }) => {
            assert_eq!(code, -32601);
            assert_eq!(code, METHOD_NOT_FOUND);
            assert_eq!(message, "method not found: resources/list");
        }
        other => panic!("{:?}", other),
    }
}

#[test]
fn tool_reply_flags_errors() {
    match tool_reply(Ok("fine".to_string())) {
        Reply::ToolResult { text, is_error } => {
            assert_eq!(text, "fine");
            assert!(!is_error);
        }
        other => panic!("{:?}", other),
    }
    match tool_reply(Err("bad".to_string())) {
        Reply::ToolResult { text, is_error } => {
            assert_eq!(text, "Error: bad");
            assert!(is_error);
        }
        other => panic!("{:?}", other),
    }
}
