use ibmcloud_mcp_server::catalog::{find_tool, tool_definitions, ArgKind, Step, TOOL_COUNT};

const NAMES: [&str; 88] = [
        "ibmcloud_login",
        "ibmcloud_logout",
        "ibmcloud_target",
        "ibmcloud_api",
        "ibmcloud_regions",
        "ibmcloud_account_show",
        "ibmcloud_account_list",
        "ibmcloud_config_list",
        "ibmcloud_resource_groups",
        "ibmcloud_resource_group_create",
        "ibmcloud_resource_service_instances",
        "ibmcloud_resource_service_instance",
        "ibmcloud_resource_service_instance_create",
        "ibmcloud_resource_service_instance_delete",
        "ibmcloud_resource_service_instance_update",
        "ibmcloud_resource_service_keys",
        "ibmcloud_resource_service_key",
        "ibmcloud_resource_service_key_create",
        "ibmcloud_resource_service_key_delete",
        "ibmcloud_resource_search",
        "ibmcloud_resource_tags",
        "ibmcloud_resource_tag_attach",
        "ibmcloud_cf_orgs",
        "ibmcloud_cf_spaces",
        "ibmcloud_cf_apps",
        "ibmcloud_cf_app",
        "ibmcloud_cf_push",
        "ibmcloud_cf_start",
        "ibmcloud_cf_stop",
        "ibmcloud_cf_restart",
        "ibmcloud_cf_delete",
        "ibmcloud_cf_logs",
        "ibmcloud_cf_env",
        "ibmcloud_cf_set_env",
        "ibmcloud_cf_scale",
        "ibmcloud_cf_routes",
        "ibmcloud_cf_services",
        "ibmcloud_cf_marketplace",
        "ibmcloud_cf_create_service",
        "ibmcloud_cf_bind_service",
        "ibmcloud_cf_unbind_service",
        "ibmcloud_ks_clusters",
        "ibmcloud_ks_cluster",
        "ibmcloud_ks_cluster_config",
        "ibmcloud_ks_cluster_create",
        "ibmcloud_ks_cluster_delete",
        "ibmcloud_ks_workers",
        "ibmcloud_ks_worker_pools",
        "ibmcloud_ks_worker_pool_create",
        "ibmcloud_ks_worker_pool_resize",
        "ibmcloud_ks_zones",
        "ibmcloud_ks_versions",
        "ibmcloud_ks_flavors",
        "ibmcloud_cr_namespaces",
        "ibmcloud_cr_namespace_add",
        "ibmcloud_cr_images",
        "ibmcloud_cr_image_rm",
        "ibmcloud_cr_quota",
        "ibmcloud_iam_users",
        "ibmcloud_iam_user_invite",
        "ibmcloud_iam_api_keys",
        "ibmcloud_iam_api_key_create",
        "ibmcloud_iam_api_key_delete",
        "ibmcloud_iam_service_ids",
        "ibmcloud_iam_service_id",
        "ibmcloud_iam_service_id_create",
        "ibmcloud_iam_service_id_delete",
        "ibmcloud_iam_service_api_keys",
        "ibmcloud_iam_service_api_key_create",
        "ibmcloud_iam_access_groups",
        "ibmcloud_iam_access_group",
        "ibmcloud_iam_access_group_create",
        "ibmcloud_iam_access_group_users",
        "ibmcloud_iam_access_group_user_add",
        "ibmcloud_iam_access_group_policies",
        "ibmcloud_iam_access_group_policy_create",
        "ibmcloud_iam_roles",
        "ibmcloud_catalog_search",
        "ibmcloud_catalog_service",
        "ibmcloud_catalog_service_plans",
        "ibmcloud_billing_account_usage",
        "ibmcloud_billing_resource_group_usage",
        "ibmcloud_billing_resource_instances_usage",
        "ibmcloud_billing_org_usage",
        "ibmcloud_plugin_list",
        "ibmcloud_plugin_repo_plugins",
        "ibmcloud_plugin_install",
        "ibmcloud_version",
];

#[test]
fn catalog_lists_every_tool_in_order() {
    let tools = tool_definitions();
    assert_eq!(tools.len(), TOOL_COUNT);
    assert_eq!(tools.len(), 88);
    for (t, n) in tools.iter().zip(NAMES.iter()) {
        assert_eq!(t.name, *n);
    }
}

#[test]
fn catalog_groups_match_the_readme_lists() {
    let tools = tool_definitions();
    let names: Vec<&str> = tools.iter().map(|t| t.name).collect();
    assert_eq!(names.iter().filter(|n| n.starts_with("ibmcloud_cf_")).count(), 19);
    assert_eq!(names.iter().filter(|n| n.starts_with("ibmcloud_ks_")).count(), 12);
    assert_eq!(names.iter().filter(|n| n.starts_with("ibmcloud_cr_")).count(), 5);
    assert_eq!(names.iter().filter(|n| n.starts_with("ibmcloud_iam_")).count(), 19);
    assert_eq!(names.iter().filter(|n| n.starts_with("ibmcloud_resource_")).count(), 14);
    assert!(names.len() > 80);
}

#[test]
fn every_listed_tool_is_found_at_its_position() {
    for (i, n) in NAMES.iter().enumerate() {
        assert_eq!(find_tool(n), Some(i));
    }
    assert_eq!(find_tool("ibmcloud_nope"), None);
    assert_eq!(find_tool(""), None);
    assert_eq!(find_tool("IBMCLOUD_LOGIN"), None);
}

#[test]
fn login_schema() {
    let tools = tool_definitions();
    let login = &tools[0];
    assert_eq!(login.name, "ibmcloud_login");
    assert_eq!(login.description, "Login to IBM Cloud with API key or SSO");
    assert_eq!(login.params.len(), 3);
    assert_eq!(login.params[0].name, "apikey");
    assert_eq!(login.params[0].kind.schema_type(), "string");
    assert_eq!(login.params[1].name, "sso");
    assert_eq!(login.params[1].kind.schema_type(), "boolean");
    assert_eq!(login.params[2].description, "Target region (e.g., us-south)");
    assert!(login.params.iter().all(|p| !p.required));
}

#[test]
fn required_properties_follow_the_schema() {
    let tools = tool_definitions();
    let create = tools.iter().find(|t| t.name == "ibmcloud_resource_service_instance_create").unwrap();
    let req: Vec<&str> = create.params.iter().filter(|p| p.required).map(|p| p.name).collect();
    assert_eq!(req, vec!["name", "service", "plan"]);
    let resize = tools.iter().find(|t| t.name == "ibmcloud_ks_worker_pool_resize").unwrap();
    let spz = resize.params.iter().find(|p| p.name == "size_per_zone").unwrap();
    assert_eq!(spz.kind, ArgKind::Number);
    assert_eq!(spz.kind.schema_type(), "number");
    assert!(spz.required);
}

fn step_key(s: &Step) -> Option<(&'static str, &'static str)> {
    match *s {
        Step::Word(_) => None,
        Step::Value(k) | Step::OptionalValue(k) | Step::FlagValue(_, k) => Some((k, "string")),
        Step::WordIfGiven(k, _) | Step::WordByPresence(k, _, _) => Some((k, "string")),
        Step::Switch(_, k) | Step::SwitchUnless(_, k) => Some((k, "boolean")),
        Step::Count(_, k) | Step::CountOr(k, _) => Some((k, "number")),
    }
}

#[test]
fn every_schema_agrees_with_its_recipe() {
    for t in tool_definitions() {
        for s in &t.recipe {
            if let Some((k, ty)) = step_key(s) {
                let p = t.params.iter().find(|p| p.name == k).expect("declared");
                assert_eq!(p.kind.schema_type(), ty, "{} {}", t.name, k);
                if let Step::Value(_) = s {
                    assert!(p.required, "{} {}", t.name, k);
                }
            }
        }
        for p in &t.params {
            assert!(t.recipe.iter().any(|s| step_key(s).map(|x| x.0) == Some(p.name)), "{} {}", t.name, p.name);
        }
    }
}

#[test]
fn schema_required_lists() {
    let tools = tool_definitions();
    assert_eq!(tools[0].schema_required(), None);
    let create = tools.iter().find(|t| t.name == "ibmcloud_resource_service_instance_create").unwrap();
    assert_eq!(create.schema_required(), Some(vec!["name", "service", "plan"]));
    let policy = tools.iter().find(|t| t.name == "ibmcloud_iam_access_group_policy_create").unwrap();
    assert_eq!(policy.schema_required(), Some(vec!["group", "roles"]));
    for t in &tools {
        let expected: Vec<&str> = t.params.iter().filter(|p| p.required).map(|p| p.name).collect();
        match t.schema_required() {
            Some(v) => assert_eq!(v, expected),
            None => assert!(expected.is_empty()),
        }
    }
}
