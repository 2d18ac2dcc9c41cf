use ibmcloud_mcp_server::args::{ArgMap, ArgValue};
use ibmcloud_mcp_server::command::{call_tool, command_result, json_output_args, report, run_result, tool_command, CommandOutput};

fn args(pairs: &[(&str, ArgValue)]) -> ArgMap {
    let mut m = ArgMap::new();
    for (k, v) in pairs {
        let v = match v {
            ArgValue::Str(s) => ArgValue::Str(s.clone()),
            ArgValue::Bool(b) => ArgValue::Bool(*b),
            ArgValue::UInt(n) => ArgValue::UInt(*n),
            ArgValue::Other => ArgValue::Other,
        };
        m.insert(k.to_string(), v);
    }
    m
}

fn s(x: &str) -> ArgValue {
    ArgValue::Str(x.to_string())
}

fn words(v: &[&str]) -> Vec<String> {
    v.iter().map(|w| w.to_string()).collect()
}

fn ok_output(stdout: &str) -> CommandOutput {
    CommandOutput { success: true, code: Some(0), stdout: stdout.as_bytes().to_vec(), stderr: Vec::new() }
}

#[test]
fn login_command() {
    let a = args(&[("apikey", s("KEY")), ("sso", ArgValue::Bool(true)), ("region", s("us-south"))]);
    assert_eq!(tool_command("ibmcloud_login", &a).unwrap(), words(&["login", "--apikey", "KEY", "--sso", "-r", "us-south"]));
    let none = ArgMap::new();
    assert_eq!(tool_command("ibmcloud_login", &none).unwrap(), words(&["login"]));
}

#[test]
fn arguments_of_the_wrong_type_are_ignored() {
    let a = args(&[("apikey", ArgValue::Bool(true)), ("sso", s("yes")), ("region", ArgValue::Other)]);
    assert_eq!(tool_command("ibmcloud_login", &a).unwrap(), words(&["login"]));
}

#[test]
fn missing_required_argument_gives_empty_word() {
    let none = ArgMap::new();
    assert_eq!(tool_command("ibmcloud_resource_group_create", &none).unwrap(), words(&["resource", "group-create", ""]));
    assert_eq!(tool_command("ibmcloud_cf_set_env", &none).unwrap(), words(&["cf", "set-env", "", "", ""]));
}

#[test]
fn numbers_are_rendered_in_decimal() {
    let a = args(&[("name", s("app")), ("instances", ArgValue::UInt(3)), ("memory", s("256M"))]);
    assert_eq!(tool_command("ibmcloud_cf_push", &a).unwrap(), words(&["cf", "push", "app", "-m", "256M", "-i", "3"]));
    let b = args(&[("name", s("app")), ("instances", ArgValue::UInt(12)), ("disk", s("1G"))]);
    assert_eq!(tool_command("ibmcloud_cf_scale", &b).unwrap(), words(&["cf", "scale", "app", "-i", "12", "-k", "1G", "-f"]));
}

#[test]
fn worker_pool_resize_defaults_to_one() {
    let a = args(&[("cluster", s("c1")), ("pool", s("p1"))]);
    assert_eq!(
        tool_command("ibmcloud_ks_worker_pool_resize", &a).unwrap(),
        words(&["ks", "worker-pool", "resize", "--cluster", "c1", "--worker-pool", "p1", "--size-per-zone", "1"])
    );
    let b = args(&[("cluster", s("c1")), ("pool", s("p1")), ("size_per_zone", ArgValue::UInt(5))]);
    assert_eq!(tool_command("ibmcloud_ks_worker_pool_resize", &b).unwrap()[8], "5");
}

#[test]
fn cluster_create_picks_infrastructure_by_vpc() {
    let a = args(&[("name", s("k")), ("zone", s("dal10")), ("workers", ArgValue::UInt(2))]);
    assert_eq!(
        tool_command("ibmcloud_ks_cluster_create", &a).unwrap(),
        words(&["ks", "cluster", "create", "classic", "--name", "k", "--zone", "dal10", "--workers", "2"])
    );
    let b = args(&[("name", s("k")), ("zone", s("dal10")), ("vpc_id", s("v1")), ("subnet_id", s("s1"))]);
    assert_eq!(
        tool_command("ibmcloud_ks_cluster_create", &b).unwrap(),
        words(&["ks", "cluster", "create", "vpc-gen2", "--name", "k", "--zone", "dal10", "--vpc-id", "v1", "--subnet-id", "s1"])
    );
}

#[test]
fn logs_are_recent_unless_streamed() {
    let a = args(&[("name", s("app"))]);
    assert_eq!(tool_command("ibmcloud_cf_logs", &a).unwrap(), words(&["cf", "logs", "app", "--recent"]));
    let b = args(&[("name", s("app")), ("stream", ArgValue::Bool(true))]);
    assert_eq!(tool_command("ibmcloud_cf_logs", &b).unwrap(), words(&["cf", "logs", "app"]));
}

#[test]
fn resource_tags_with_and_without_resource() {
    assert_eq!(tool_command("ibmcloud_resource_tags", &ArgMap::new()).unwrap(), words(&["resource", "tags"]));
    let a = args(&[("resource_id", s("crn:1"))]);
    assert_eq!(tool_command("ibmcloud_resource_tags", &a).unwrap(), words(&["resource", "tags", "--tag-type", "user"]));
}

#[test]
fn target_and_policy_commands() {
    let a = args(&[("region", s("eu-de")), ("space", s("dev"))]);
    assert_eq!(tool_command("ibmcloud_target", &a).unwrap(), words(&["target", "-r", "eu-de", "-s", "dev"]));
    let b = args(&[("group", s("g")), ("roles", s("Viewer")), ("service_name", s("cos"))]);
    assert_eq!(
        tool_command("ibmcloud_iam_access_group_policy_create", &b).unwrap(),
        words(&["iam", "access-group-policy-create", "g", "--roles", "Viewer", "--service-name", "cos"])
    );
    let c = args(&[("name", s("k")), ("instance", s("i"))]);
    assert_eq!(
        tool_command("ibmcloud_resource_service_key_create", &c).unwrap(),
        words(&["resource", "service-key-create", "k", "--instance-name", "i"])
    );
}

#[test]
fn unknown_tool_is_an_error() {
    assert_eq!(tool_command("ibmcloud_bogus", &ArgMap::new()).unwrap_err(), "Unknown tool: ibmcloud_bogus");
    assert_eq!(tool_command("", &ArgMap::new()).unwrap_err(), "Unknown tool: ");
}

#[test]
fn json_output_is_added_for_json_subcommands() {
    assert_eq!(json_output_args(words(&["account", "show"])), words(&["account", "show", "--output", "json"]));
    assert_eq!(json_output_args(words(&["api", "https://x"])), words(&["api", "https://x", "--output", "json"]));
    assert_eq!(json_output_args(words(&["cf", "apps"])), words(&["cf", "apps"]));
    assert_eq!(json_output_args(words(&["iam", "users", "-o", "text"])), words(&["iam", "users", "-o", "text"]));
    assert_eq!(json_output_args(words(&["resource", "--output", "yaml"])), words(&["resource", "--output", "yaml"]));
    assert_eq!(json_output_args(Vec::new()), Vec::<String>::new());
}

#[test]
fn json_output_is_idempotent() {
    for a in [words(&["account", "list"]), words(&["cf", "orgs"]), words(&["target"])] {
        let once = json_output_args(a);
        let twice = json_output_args(once.clone());
        assert_eq!(once, twice);
    }
}

#[test]
fn command_results() {
    assert_eq!(command_result(&ok_output("")).unwrap(), "Command completed successfully");
    assert_eq!(command_result(&ok_output("  \n")).unwrap(), "Command completed successfully");
    assert_eq!(command_result(&ok_output(" {\"a\":1}\n")).unwrap(), "{\"a\":1}");
    let both = CommandOutput { success: false, code: Some(1), stdout: b"partial\n".to_vec(), stderr: b" bad thing ".to_vec() };
    assert_eq!(command_result(&both).unwrap_err(), "partial\nError: bad thing");
    let only_err = CommandOutput { success: false, code: Some(1), stdout: Vec::new(), stderr: b"oops".to_vec() };
    assert_eq!(command_result(&only_err).unwrap_err(), "Error: oops");
    let only_out = CommandOutput { success: false, code: Some(1), stdout: b"out".to_vec(), stderr: b"  ".to_vec() };
    assert_eq!(command_result(&only_out).unwrap_err(), "out\n");
    let silent = CommandOutput { success: false, code: Some(2), stdout: Vec::new(), stderr: Vec::new() };
    assert_eq!(command_result(&silent).unwrap_err(), "Command failed with exit code 2");
    let signal = CommandOutput { success: false, code: None, stdout: b" ".to_vec(), stderr: Vec::new() };
    assert_eq!(command_result(&signal).unwrap_err(), "Command failed with exit code -1");
}

#[test]
fn invalid_utf8_output_is_decoded_lossily() {
    let o = CommandOutput { success: true, code: Some(0), stdout: vec![b'a', 0xff, b'b'], stderr: Vec::new() };
    assert_eq!(command_result(&o).unwrap(), "a\u{FFFD}b");
    let e = CommandOutput { success: false, code: Some(1), stdout: Vec::new(), stderr: vec![0xc3, 0xa9, 0x80] };
    assert_eq!(command_result(&e).unwrap_err(), "Error: \u{e9}\u{FFFD}");
}

#[test]
fn report_on_decoded_text() {
    assert_eq!(report(true, Some(0), "\u{3000}x\n", "").unwrap(), "x");
    assert_eq!(report(false, Some(7), "", " ").unwrap_err(), "Command failed with exit code 7");
    assert_eq!(report(false, None, "o", "e").unwrap_err(), "o\nError: e");
}

#[test]
fn run_results() {
    assert_eq!(run_result(Ok(ok_output("[]"))).unwrap(), "[]");
    assert_eq!(run_result(Err("No such file or directory".to_string())).unwrap_err(), "Failed to run ibmcloud: No such file or directory");
}

#[test]
fn call_tool_gives_the_command_to_run() {
    let a = args(&[("name", s("rg1"))]);
    assert_eq!(call_tool("ibmcloud_resource_group_create", &a).unwrap(), words(&["resource", "group-create", "rg1", "--output", "json"]));
    assert_eq!(call_tool("ibmcloud_cf_apps", &ArgMap::new()).unwrap(), words(&["cf", "apps"]));
    assert_eq!(call_tool("ibmcloud_regions", &ArgMap::new()).unwrap(), words(&["regions", "--output", "json"]));
    assert_eq!(call_tool("ibmcloud_unknown", &ArgMap::new()).unwrap_err(), "Unknown tool: ibmcloud_unknown");
}

use ibmcloud_mcp_server::catalog::{tool_definitions, ArgKind};

fn ill_typed(kind: ArgKind) -> Vec<ArgValue> {
    match kind {
        ArgKind::Text => vec![ArgValue::Bool(true), ArgValue::UInt(3), ArgValue::Other],
        ArgKind::Boolean => vec![ArgValue::Bool(false), ArgValue::Str("true".to_string()), ArgValue::UInt(1), ArgValue::Other],
        ArgKind::Number => vec![ArgValue::Str("3".to_string()), ArgValue::Bool(true), ArgValue::Other],
    }
}

#[test]
fn ill_typed_argument_is_treated_as_absent() {
    for t in tool_definitions() {
        for p in &t.params {
            for v in ill_typed(p.kind) {
                let with = args(&[(p.name, v)]);
                assert_eq!(tool_command(t.name, &with).unwrap(), tool_command(t.name, &ArgMap::new()).unwrap(), "{} {}", t.name, p.name);
            }
        }
    }
}

#[test]
fn given_string_and_number_arguments_are_copied() {
    for t in tool_definitions() {
        if t.name == "ibmcloud_resource_tags" {
            continue;
        }
        for p in &t.params {
            match p.kind {
                ArgKind::Text => {
                    let v = format!("value-of-{}", p.name);
                    let a = args(&[(p.name, s(&v))]);
                    assert!(tool_command(t.name, &a).unwrap().contains(&v), "{} {}", t.name, p.name);
                }
                ArgKind::Number => {
                    let a = args(&[(p.name, ArgValue::UInt(90210))]);
                    assert!(tool_command(t.name, &a).unwrap().contains(&"90210".to_string()), "{} {}", t.name, p.name);
                }
                ArgKind::Boolean => {}
            }
        }
    }
    let tags = args(&[("resource_id", s("crn:x"))]);
    assert!(!tool_command("ibmcloud_resource_tags", &tags).unwrap().contains(&"crn:x".to_string()));
}
