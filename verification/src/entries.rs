//! The entries of the tool catalog, the check of each entry's schema against
//! its recipe, and the order of the tool names.
use crate::catalog::{
    always_placed, booleans_read_once, param_copied, param_names_distinct, param_used, params_copied,
    params_read_once, read_once, reads_key, required_placed, schema_agrees, step_agrees,
    step_always_places, step_copies, step_reads, step_shape, steps_shaped, ArgKind, Param, Step, ToolDef,
    ToolSpec, TOOL_COUNT,
};
use crate::text::{lex_lt, lex_lt_at};
use vstd::prelude::*;

verus! {

/// The catalog entry at position `i`, for `i < TOOL_COUNT`.
pub open spec fn spec_tool(i: int) -> ToolSpec {
    if i == 0 {
        ToolSpec {
            name: "ibmcloud_login",
            description: "Login to IBM Cloud with API key or SSO",
            params: seq![
                Param { name: "apikey", kind: ArgKind::Text, description: "IBM Cloud API key", required: false },
                Param { name: "sso", kind: ArgKind::Boolean, description: "Use SSO for login", required: false },
                Param { name: "region", kind: ArgKind::Text, description: "Target region (e.g., us-south)", required: false },
            ],
            recipe: seq![
                Step::Word("login"),
                Step::FlagValue("--apikey", "apikey"),
                Step::Switch("--sso", "sso"),
                Step::FlagValue("-r", "region"),
            ],
        }
    } else if i == 1 {
        ToolSpec {
            name: "ibmcloud_logout",
            description: "Logout from IBM Cloud",
            params: seq![],
            recipe: seq![
                Step::Word("logout"),
            ],
        }
    } else if i == 2 {
        ToolSpec {
            name: "ibmcloud_target",
            description: "View or set target region, resource group, org, and space",
            params: seq![
                Param { name: "region", kind: ArgKind::Text, description: "Target region", required: false },
                Param { name: "resource_group", kind: ArgKind::Text, description: "Target resource group", required: false },
                Param { name: "org", kind: ArgKind::Text, description: "Target Cloud Foundry org", required: false },
                Param { name: "space", kind: ArgKind::Text, description: "Target Cloud Foundry space", required: false },
            ],
            recipe: seq![
                Step::Word("target"),
                Step::FlagValue("-r", "region"),
                Step::FlagValue("-g", "resource_group"),
                Step::FlagValue("-o", "org"),
                Step::FlagValue("-s", "space"),
            ],
        }
    } else if i == 3 {
        ToolSpec {
            name: "ibmcloud_api",
            description: "View or set IBM Cloud API endpoint",
            params: seq![
                Param { name: "endpoint", kind: ArgKind::Text, description: "API endpoint URL", required: false },
            ],
            recipe: seq![
                Step::Word("api"),
                Step::OptionalValue("endpoint"),
            ],
        }
    } else if i == 4 {
        ToolSpec {
            name: "ibmcloud_regions",
            description: "List all IBM Cloud regions",
            params: seq![],
            recipe: seq![
                Step::Word("regions"),
            ],
        }
    } else if i == 5 {
        ToolSpec {
            name: "ibmcloud_account_show",
            description: "Show current IBM Cloud account details",
            params: seq![],
            recipe: seq![
                Step::Word("account"),
                Step::Word("show"),
            ],
        }
    } else if i == 6 {
        ToolSpec {
            name: "ibmcloud_account_list",
            description: "List all available accounts",
            params: seq![],
            recipe: seq![
                Step::Word("account"),
                Step::Word("list"),
            ],
        }
    } else if i == 7 {
        ToolSpec {
            name: "ibmcloud_config_list",
            description: "List IBM Cloud CLI configuration",
            params: seq![],
            recipe: seq![
                Step::Word("config"),
                Step::Word("list"),
            ],
        }
    } else if i == 8 {
        ToolSpec {
            name: "ibmcloud_resource_groups",
            description: "List all resource groups",
            params: seq![],
            recipe: seq![
                Step::Word("resource"),
                Step::Word("groups"),
            ],
        }
    } else if i == 9 {
        ToolSpec {
            name: "ibmcloud_resource_group_create",
            description: "Create a new resource group",
            params: seq![
                Param { name: "name", kind: ArgKind::Text, description: "Name of the resource group", required: true },
            ],
            recipe: seq![
                Step::Word("resource"),
                Step::Word("group-create"),
                Step::Value("name"),
            ],
        }
    } else if i == 10 {
        ToolSpec {
            name: "ibmcloud_resource_service_instances",
            description: "List resource service instances",
            params: seq![
                Param { name: "service_name", kind: ArgKind::Text, description: "Filter by service name", required: false },
                Param { name: "resource_group", kind: ArgKind::Text, description: "Filter by resource group", required: false },
            ],
            recipe: seq![
                Step::Word("resource"),
                Step::Word("service-instances"),
                Step::FlagValue("--service-name", "service_name"),
                Step::FlagValue("-g", "resource_group"),
            ],
        }
    } else if i == 11 {
        ToolSpec {
            name: "ibmcloud_resource_service_instance",
            description: "Show details of a service instance",
            params: seq![
                Param { name: "name", kind: ArgKind::Text, description: "Service instance name", required: true },
            ],
            recipe: seq![
                Step::Word("resource"),
                Step::Word("service-instance"),
                Step::Value("name"),
            ],
        }
    } else if i == 12 {
        ToolSpec {
            name: "ibmcloud_resource_service_instance_create",
            description: "Create a service instance",
            params: seq![
                Param { name: "name", kind: ArgKind::Text, description: "Instance name", required: true },
                Param { name: "service", kind: ArgKind::Text, description: "Service offering", required: true },
                Param { name: "plan", kind: ArgKind::Text, description: "Service plan", required: true },
                Param { name: "location", kind: ArgKind::Text, description: "Target location", required: false },
                Param { name: "resource_group", kind: ArgKind::Text, description: "Resource group", required: false },
                Param { name: "parameters", kind: ArgKind::Text, description: "JSON parameters", required: false },
            ],
            recipe: seq![
                Step::Word("resource"),
                Step::Word("service-instance-create"),
                Step::Value("name"),
                Step::Value("service"),
                Step::Value("plan"),
                Step::FlagValue("-l", "location"),
                Step::FlagValue("-g", "resource_group"),
                Step::FlagValue("-p", "parameters"),
            ],
        }
    } else if i == 13 {
        ToolSpec {
            name: "ibmcloud_resource_service_instance_delete",
            description: "Delete a service instance",
            params: seq![
                Param { name: "name", kind: ArgKind::Text, description: "Instance name", required: true },
                Param { name: "force", kind: ArgKind::Boolean, description: "Force deletion", required: false },
            ],
            recipe: seq![
                Step::Word("resource"),
                Step::Word("service-instance-delete"),
                Step::Value("name"),
                Step::Switch("-f", "force"),
            ],
        }
    } else if i == 14 {
        ToolSpec {
            name: "ibmcloud_resource_service_instance_update",
            description: "Update a service instance",
            params: seq![
                Param { name: "name", kind: ArgKind::Text, description: "Instance name", required: true },
                Param { name: "new_name", kind: ArgKind::Text, description: "New name", required: false },
                Param { name: "plan", kind: ArgKind::Text, description: "New plan ID", required: false },
                Param { name: "parameters", kind: ArgKind::Text, description: "JSON parameters", required: false },
            ],
            recipe: seq![
                Step::Word("resource"),
                Step::Word("service-instance-update"),
                Step::Value("name"),
                Step::FlagValue("-n", "new_name"),
                Step::FlagValue("--service-plan-id", "plan"),
                Step::FlagValue("-p", "parameters"),
            ],
        }
    } else if i == 15 {
        ToolSpec {
            name: "ibmcloud_resource_service_keys",
            description: "List service keys",
            params: seq![
                Param { name: "instance", kind: ArgKind::Text, description: "Filter by instance name", required: false },
            ],
            recipe: seq![
                Step::Word("resource"),
                Step::Word("service-keys"),
                Step::FlagValue("--instance-name", "instance"),
            ],
        }
    } else if i == 16 {
        ToolSpec {
            name: "ibmcloud_resource_service_key",
            description: "Show details of a service key",
            params: seq![
                Param { name: "name", kind: ArgKind::Text, description: "Service key name", required: true },
            ],
            recipe: seq![
                Step::Word("resource"),
                Step::Word("service-key"),
                Step::Value("name"),
            ],
        }
    } else if i == 17 {
        ToolSpec {
            name: "ibmcloud_resource_service_key_create",
            description: "Create a service key for an instance",
            params: seq![
                Param { name: "name", kind: ArgKind::Text, description: "Key name", required: true },
                Param { name: "instance", kind: ArgKind::Text, description: "Instance name", required: true },
                Param { name: "role", kind: ArgKind::Text, description: "Service endpoint/role", required: false },
                Param { name: "parameters", kind: ArgKind::Text, description: "JSON parameters", required: false },
            ],
            recipe: seq![
                Step::Word("resource"),
                Step::Word("service-key-create"),
                Step::Value("name"),
                Step::Word("--instance-name"),
                Step::Value("instance"),
                Step::FlagValue("--service-endpoint", "role"),
                Step::FlagValue("-p", "parameters"),
            ],
        }
    } else if i == 18 {
        ToolSpec {
            name: "ibmcloud_resource_service_key_delete",
            description: "Delete a service key",
            params: seq![
                Param { name: "name", kind: ArgKind::Text, description: "Key name", required: true },
                Param { name: "force", kind: ArgKind::Boolean, description: "Force deletion", required: false },
            ],
            recipe: seq![
                Step::Word("resource"),
                Step::Word("service-key-delete"),
                Step::Value("name"),
                Step::Switch("-f", "force"),
            ],
        }
    } else if i == 19 {
        ToolSpec {
            name: "ibmcloud_resource_search",
            description: "Search for resources",
            params: seq![
                Param { name: "query", kind: ArgKind::Text, description: "Search query", required: true },
            ],
            recipe: seq![
                Step::Word("resource"),
                Step::Word("search"),
                Step::Value("query"),
            ],
        }
    } else if i == 20 {
        ToolSpec {
            name: "ibmcloud_resource_tags",
            description: "List resource tags",
            params: seq![
                Param { name: "resource_id", kind: ArgKind::Text, description: "Resource ID to filter tags", required: false },
            ],
            recipe: seq![
                Step::Word("resource"),
                Step::Word("tags"),
                Step::WordIfGiven("resource_id", "--tag-type"),
                Step::WordIfGiven("resource_id", "user"),
            ],
        }
    } else if i == 21 {
        ToolSpec {
            name: "ibmcloud_resource_tag_attach",
            description: "Attach tags to a resource",
            params: seq![
                Param { name: "tags", kind: ArgKind::Text, description: "Comma-separated tag names", required: true },
                Param { name: "resource_id", kind: ArgKind::Text, description: "Resource CRN", required: true },
            ],
            recipe: seq![
                Step::Word("resource"),
                Step::Word("tag-attach"),
                Step::Word("--tag-names"),
                Step::Value("tags"),
                Step::Word("--resource-id"),
                Step::Value("resource_id"),
            ],
        }
    } else if i == 22 {
        ToolSpec {
            name: "ibmcloud_cf_orgs",
            description: "List Cloud Foundry organizations",
            params: seq![],
            recipe: seq![
                Step::Word("cf"),
                Step::Word("orgs"),
            ],
        }
    } else if i == 23 {
        ToolSpec {
            name: "ibmcloud_cf_spaces",
            description: "List Cloud Foundry spaces",
            params: seq![
                Param { name: "org", kind: ArgKind::Text, description: "Organization name", required: false },
            ],
            recipe: seq![
                Step::Word("cf"),
                Step::Word("spaces"),
                Step::FlagValue("-o", "org"),
            ],
        }
    } else if i == 24 {
        ToolSpec {
            name: "ibmcloud_cf_apps",
            description: "List all Cloud Foundry applications",
            params: seq![],
            recipe: seq![
                Step::Word("cf"),
                Step::Word("apps"),
            ],
        }
    } else if i == 25 {
        ToolSpec {
            name: "ibmcloud_cf_app",
            description: "Show details of a Cloud Foundry app",
            params: seq![
                Param { name: "name", kind: ArgKind::Text, description: "App name", required: true },
            ],
            recipe: seq![
                Step::Word("cf"),
                Step::Word("app"),
                Step::Value("name"),
            ],
        }
    } else if i == 26 {
        ToolSpec {
            name: "ibmcloud_cf_push",
            description: "Push a Cloud Foundry application",
            params: seq![
                Param { name: "name", kind: ArgKind::Text, description: "App name", required: false },
                Param { name: "path", kind: ArgKind::Text, description: "App path", required: false },
                Param { name: "manifest", kind: ArgKind::Text, description: "Manifest file path", required: false },
                Param { name: "memory", kind: ArgKind::Text, description: "Memory limit (e.g., 256M)", required: false },
                Param { name: "instances", kind: ArgKind::Number, description: "Number of instances", required: false },
                Param { name: "buildpack", kind: ArgKind::Text, description: "Buildpack name/URL", required: false },
                Param { name: "docker_image", kind: ArgKind::Text, description: "Docker image to deploy", required: false },
            ],
            recipe: seq![
                Step::Word("cf"),
                Step::Word("push"),
                Step::OptionalValue("name"),
                Step::FlagValue("-p", "path"),
                Step::FlagValue("-f", "manifest"),
                Step::FlagValue("-m", "memory"),
                Step::Count("-i", "instances"),
                Step::FlagValue("-b", "buildpack"),
                Step::FlagValue("--docker-image", "docker_image"),
            ],
        }
    } else if i == 27 {
        ToolSpec {
            name: "ibmcloud_cf_start",
            description: "Start a Cloud Foundry app",
            params: seq![
                Param { name: "name", kind: ArgKind::Text, description: "App name", required: true },
            ],
            recipe: seq![
                Step::Word("cf"),
                Step::Word("start"),
                Step::Value("name"),
            ],
        }
    } else if i == 28 {
        ToolSpec {
            name: "ibmcloud_cf_stop",
            description: "Stop a Cloud Foundry app",
            params: seq![
                Param { name: "name", kind: ArgKind::Text, description: "App name", required: true },
            ],
            recipe: seq![
                Step::Word("cf"),
                Step::Word("stop"),
                Step::Value("name"),
            ],
        }
    } else if i == 29 {
        ToolSpec {
            name: "ibmcloud_cf_restart",
            description: "Restart a Cloud Foundry app",
            params: seq![
                Param { name: "name", kind: ArgKind::Text, description: "App name", required: true },
            ],
            recipe: seq![
                Step::Word("cf"),
                Step::Word("restart"),
                Step::Value("name"),
            ],
        }
    } else if i == 30 {
        ToolSpec {
            name: "ibmcloud_cf_delete",
            description: "Delete a Cloud Foundry app",
            params: seq![
                Param { name: "name", kind: ArgKind::Text, description: "App name", required: true },
                Param { name: "force", kind: ArgKind::Boolean, description: "Force deletion", required: false },
                Param { name: "delete_routes", kind: ArgKind::Boolean, description: "Also delete routes", required: false },
            ],
            recipe: seq![
                Step::Word("cf"),
                Step::Word("delete"),
                Step::Value("name"),
                Step::Switch("-f", "force"),
                Step::Switch("-r", "delete_routes"),
            ],
        }
    } else if i == 31 {
        ToolSpec {
            name: "ibmcloud_cf_logs",
            description: "Show recent logs for a Cloud Foundry app",
            params: seq![
                Param { name: "name", kind: ArgKind::Text, description: "App name", required: true },
                Param { name: "stream", kind: ArgKind::Boolean, description: "Stream logs instead of recent", required: false },
            ],
            recipe: seq![
                Step::Word("cf"),
                Step::Word("logs"),
                Step::Value("name"),
                Step::SwitchUnless("--recent", "stream"),
            ],
        }
    } else if i == 32 {
        ToolSpec {
            name: "ibmcloud_cf_env",
            description: "Show environment variables for a CF app",
            params: seq![
                Param { name: "name", kind: ArgKind::Text, description: "App name", required: true },
            ],
            recipe: seq![
                Step::Word("cf"),
                Step::Word("env"),
                Step::Value("name"),
            ],
        }
    } else if i == 33 {
        ToolSpec {
            name: "ibmcloud_cf_set_env",
            description: "Set an environment variable for a CF app",
            params: seq![
                Param { name: "name", kind: ArgKind::Text, description: "App name", required: true },
                Param { name: "var_name", kind: ArgKind::Text, description: "Variable name", required: true },
                Param { name: "var_value", kind: ArgKind::Text, description: "Variable value", required: true },
            ],
            recipe: seq![
                Step::Word("cf"),
                Step::Word("set-env"),
                Step::Value("name"),
                Step::Value("var_name"),
                Step::Value("var_value"),
            ],
        }
    } else if i == 34 {
        ToolSpec {
            name: "ibmcloud_cf_scale",
            description: "Scale a Cloud Foundry app",
            params: seq![
                Param { name: "name", kind: ArgKind::Text, description: "App name", required: true },
                Param { name: "instances", kind: ArgKind::Number, description: "Number of instances", required: false },
                Param { name: "memory", kind: ArgKind::Text, description: "Memory limit", required: false },
                Param { name: "disk", kind: ArgKind::Text, description: "Disk limit", required: false },
            ],
            recipe: seq![
                Step::Word("cf"),
                Step::Word("scale"),
                Step::Value("name"),
                Step::Count("-i", "instances"),
                Step::FlagValue("-m", "memory"),
                Step::FlagValue("-k", "disk"),
                Step::Word("-f"),
            ],
        }
    } else if i == 35 {
        ToolSpec {
            name: "ibmcloud_cf_routes",
            description: "List Cloud Foundry routes",
            params: seq![],
            recipe: seq![
                Step::Word("cf"),
                Step::Word("routes"),
            ],
        }
    } else if i == 36 {
        ToolSpec {
            name: "ibmcloud_cf_services",
            description: "List Cloud Foundry services",
            params: seq![],
            recipe: seq![
                Step::Word("cf"),
                Step::Word("services"),
            ],
        }
    } else if i == 37 {
        ToolSpec {
            name: "ibmcloud_cf_marketplace",
            description: "List services in the Cloud Foundry marketplace",
            params: seq![
                Param { name: "service", kind: ArgKind::Text, description: "Show plans for a specific service", required: false },
            ],
            recipe: seq![
                Step::Word("cf"),
                Step::Word("marketplace"),
                Step::FlagValue("-e", "service"),
            ],
        }
    } else if i == 38 {
        ToolSpec {
            name: "ibmcloud_cf_create_service",
            description: "Create a Cloud Foundry service instance",
            params: seq![
                Param { name: "service", kind: ArgKind::Text, description: "Service offering", required: true },
                Param { name: "plan", kind: ArgKind::Text, description: "Service plan", required: true },
                Param { name: "instance_name", kind: ArgKind::Text, description: "Instance name", required: true },
                Param { name: "parameters", kind: ArgKind::Text, description: "JSON parameters", required: false },
            ],
            recipe: seq![
                Step::Word("cf"),
                Step::Word("create-service"),
                Step::Value("service"),
                Step::Value("plan"),
                Step::Value("instance_name"),
                Step::FlagValue("-c", "parameters"),
            ],
        }
    } else if i == 39 {
        ToolSpec {
            name: "ibmcloud_cf_bind_service",
            description: "Bind a service to a CF app",
            params: seq![
                Param { name: "app_name", kind: ArgKind::Text, description: "App name", required: true },
                Param { name: "service_instance", kind: ArgKind::Text, description: "Service instance name", required: true },
                Param { name: "parameters", kind: ArgKind::Text, description: "JSON parameters", required: false },
            ],
            recipe: seq![
                Step::Word("cf"),
                Step::Word("bind-service"),
                Step::Value("app_name"),
                Step::Value("service_instance"),
                Step::FlagValue("-c", "parameters"),
            ],
        }
    } else if i == 40 {
        ToolSpec {
            name: "ibmcloud_cf_unbind_service",
            description: "Unbind a service from a CF app",
            params: seq![
                Param { name: "app_name", kind: ArgKind::Text, description: "App name", required: true },
                Param { name: "service_instance", kind: ArgKind::Text, description: "Service instance name", required: true },
            ],
            recipe: seq![
                Step::Word("cf"),
                Step::Word("unbind-service"),
                Step::Value("app_name"),
                Step::Value("service_instance"),
            ],
        }
    } else if i == 41 {
        ToolSpec {
            name: "ibmcloud_ks_clusters",
            description: "List Kubernetes clusters",
            params: seq![
                Param { name: "provider", kind: ArgKind::Text, description: "Infrastructure provider (classic/vpc-gen2)", required: false },
            ],
            recipe: seq![
                Step::Word("ks"),
                Step::Word("clusters"),
                Step::FlagValue("--provider", "provider"),
            ],
        }
    } else if i == 42 {
        ToolSpec {
            name: "ibmcloud_ks_cluster",
            description: "Get details of a Kubernetes cluster",
            params: seq![
                Param { name: "cluster", kind: ArgKind::Text, description: "Cluster name or ID", required: true },
            ],
            recipe: seq![
                Step::Word("ks"),
                Step::Word("cluster"),
                Step::Word("get"),
                Step::Word("--cluster"),
                Step::Value("cluster"),
            ],
        }
    } else if i == 43 {
        ToolSpec {
            name: "ibmcloud_ks_cluster_config",
            description: "Download cluster config for kubectl",
            params: seq![
                Param { name: "cluster", kind: ArgKind::Text, description: "Cluster name or ID", required: true },
                Param { name: "admin", kind: ArgKind::Boolean, description: "Download admin config", required: false },
            ],
            recipe: seq![
                Step::Word("ks"),
                Step::Word("cluster"),
                Step::Word("config"),
                Step::Word("--cluster"),
                Step::Value("cluster"),
                Step::Switch("--admin", "admin"),
            ],
        }
    } else if i == 44 {
        ToolSpec {
            name: "ibmcloud_ks_cluster_create",
            description: "Create a Kubernetes cluster",
            params: seq![
                Param { name: "name", kind: ArgKind::Text, description: "Cluster name", required: true },
                Param { name: "zone", kind: ArgKind::Text, description: "Zone", required: true },
                Param { name: "flavor", kind: ArgKind::Text, description: "Worker node flavor", required: false },
                Param { name: "workers", kind: ArgKind::Number, description: "Number of workers", required: false },
                Param { name: "version", kind: ArgKind::Text, description: "Kubernetes version", required: false },
                Param { name: "vpc_id", kind: ArgKind::Text, description: "VPC ID (uses vpc-gen2 infra)", required: false },
                Param { name: "subnet_id", kind: ArgKind::Text, description: "Subnet ID", required: false },
            ],
            recipe: seq![
                Step::Word("ks"),
                Step::Word("cluster"),
                Step::Word("create"),
                Step::WordByPresence("vpc_id", "vpc-gen2", "classic"),
                Step::Word("--name"),
                Step::Value("name"),
                Step::Word("--zone"),
                Step::Value("zone"),
                Step::FlagValue("--flavor", "flavor"),
                Step::Count("--workers", "workers"),
                Step::FlagValue("--version", "version"),
                Step::FlagValue("--vpc-id", "vpc_id"),
                Step::FlagValue("--subnet-id", "subnet_id"),
            ],
        }
    } else if i == 45 {
        ToolSpec {
            name: "ibmcloud_ks_cluster_delete",
            description: "Delete a Kubernetes cluster",
            params: seq![
                Param { name: "cluster", kind: ArgKind::Text, description: "Cluster name or ID", required: true },
                Param { name: "force", kind: ArgKind::Boolean, description: "Force deletion", required: false },
            ],
            recipe: seq![
                Step::Word("ks"),
                Step::Word("cluster"),
                Step::Word("rm"),
                Step::Word("--cluster"),
                Step::Value("cluster"),
                Step::Switch("-f", "force"),
            ],
        }
    } else if i == 46 {
        ToolSpec {
            name: "ibmcloud_ks_workers",
            description: "List worker nodes in a cluster",
            params: seq![
                Param { name: "cluster", kind: ArgKind::Text, description: "Cluster name or ID", required: true },
            ],
            recipe: seq![
                Step::Word("ks"),
                Step::Word("workers"),
                Step::Word("--cluster"),
                Step::Value("cluster"),
            ],
        }
    } else if i == 47 {
        ToolSpec {
            name: "ibmcloud_ks_worker_pools",
            description: "List worker pools in a cluster",
            params: seq![
                Param { name: "cluster", kind: ArgKind::Text, description: "Cluster name or ID", required: true },
            ],
            recipe: seq![
                Step::Word("ks"),
                Step::Word("worker-pools"),
                Step::Word("--cluster"),
                Step::Value("cluster"),
            ],
        }
    } else if i == 48 {
        ToolSpec {
            name: "ibmcloud_ks_worker_pool_create",
            description: "Create a worker pool",
            params: seq![
                Param { name: "cluster", kind: ArgKind::Text, description: "Cluster name or ID", required: true },
                Param { name: "name", kind: ArgKind::Text, description: "Pool name", required: true },
                Param { name: "flavor", kind: ArgKind::Text, description: "Worker flavor", required: true },
                Param { name: "size_per_zone", kind: ArgKind::Number, description: "Workers per zone", required: false },
            ],
            recipe: seq![
                Step::Word("ks"),
                Step::Word("worker-pool"),
                Step::Word("create"),
                Step::Word("classic"),
                Step::Word("--cluster"),
                Step::Value("cluster"),
                Step::Word("--name"),
                Step::Value("name"),
                Step::Word("--flavor"),
                Step::Value("flavor"),
                Step::Count("--size-per-zone", "size_per_zone"),
            ],
        }
    } else if i == 49 {
        ToolSpec {
            name: "ibmcloud_ks_worker_pool_resize",
            description: "Resize a worker pool",
            params: seq![
                Param { name: "cluster", kind: ArgKind::Text, description: "Cluster name or ID", required: true },
                Param { name: "pool", kind: ArgKind::Text, description: "Pool name", required: true },
                Param { name: "size_per_zone", kind: ArgKind::Number, description: "New size per zone", required: true },
            ],
            recipe: seq![
                Step::Word("ks"),
                Step::Word("worker-pool"),
                Step::Word("resize"),
                Step::Word("--cluster"),
                Step::Value("cluster"),
                Step::Word("--worker-pool"),
                Step::Value("pool"),
                Step::Word("--size-per-zone"),
                Step::CountOr("size_per_zone", 1),
            ],
        }
    } else if i == 50 {
        ToolSpec {
            name: "ibmcloud_ks_zones",
            description: "List available zones for Kubernetes",
            params: seq![
                Param { name: "provider", kind: ArgKind::Text, description: "Infrastructure provider", required: false },
                Param { name: "location", kind: ArgKind::Text, description: "Location filter", required: false },
            ],
            recipe: seq![
                Step::Word("ks"),
                Step::Word("zones"),
                Step::FlagValue("--provider", "provider"),
                Step::FlagValue("--location", "location"),
            ],
        }
    } else if i == 51 {
        ToolSpec {
            name: "ibmcloud_ks_versions",
            description: "List supported Kubernetes versions",
            params: seq![],
            recipe: seq![
                Step::Word("ks"),
                Step::Word("versions"),
            ],
        }
    } else if i == 52 {
        ToolSpec {
            name: "ibmcloud_ks_flavors",
            description: "List available worker node flavors",
            params: seq![
                Param { name: "zone", kind: ArgKind::Text, description: "Zone", required: true },
                Param { name: "provider", kind: ArgKind::Text, description: "Infrastructure provider", required: false },
            ],
            recipe: seq![
                Step::Word("ks"),
                Step::Word("flavors"),
                Step::Word("--zone"),
                Step::Value("zone"),
                Step::FlagValue("--provider", "provider"),
            ],
        }
    } else if i == 53 {
        ToolSpec {
            name: "ibmcloud_cr_namespaces",
            description: "List container registry namespaces",
            params: seq![],
            recipe: seq![
                Step::Word("cr"),
                Step::Word("namespaces"),
            ],
        }
    } else if i == 54 {
        ToolSpec {
            name: "ibmcloud_cr_namespace_add",
            description: "Create a container registry namespace",
            params: seq![
                Param { name: "name", kind: ArgKind::Text, description: "Namespace name", required: true },
                Param { name: "resource_group", kind: ArgKind::Text, description: "Resource group", required: false },
            ],
            recipe: seq![
                Step::Word("cr"),
                Step::Word("namespace-add"),
                Step::Value("name"),
                Step::FlagValue("-g", "resource_group"),
            ],
        }
    } else if i == 55 {
        ToolSpec {
            name: "ibmcloud_cr_images",
            description: "List container images",
            params: seq![
                Param { name: "repository", kind: ArgKind::Text, description: "Repository filter", required: false },
                Param { name: "include_ibm", kind: ArgKind::Boolean, description: "Include IBM images", required: false },
            ],
            recipe: seq![
                Step::Word("cr"),
                Step::Word("images"),
                Step::FlagValue("--repository", "repository"),
                Step::Switch("--include-ibm", "include_ibm"),
            ],
        }
    } else if i == 56 {
        ToolSpec {
            name: "ibmcloud_cr_image_rm",
            description: "Remove a container image",
            params: seq![
                Param { name: "image", kind: ArgKind::Text, description: "Image name", required: true },
                Param { name: "force", kind: ArgKind::Boolean, description: "Force removal", required: false },
            ],
            recipe: seq![
                Step::Word("cr"),
                Step::Word("image-rm"),
                Step::Value("image"),
                Step::Switch("-f", "force"),
            ],
        }
    } else if i == 57 {
        ToolSpec {
            name: "ibmcloud_cr_quota",
            description: "Show container registry quota",
            params: seq![],
            recipe: seq![
                Step::Word("cr"),
                Step::Word("quota"),
            ],
        }
    } else if i == 58 {
        ToolSpec {
            name: "ibmcloud_iam_users",
            description: "List IAM users",
            params: seq![],
            recipe: seq![
                Step::Word("iam"),
                Step::Word("users"),
            ],
        }
    } else if i == 59 {
        ToolSpec {
            name: "ibmcloud_iam_user_invite",
            description: "Invite a user to the account",
            params: seq![
                Param { name: "email", kind: ArgKind::Text, description: "User email", required: true },
                Param { name: "access_groups", kind: ArgKind::Text, description: "Comma-separated access group names", required: false },
            ],
            recipe: seq![
                Step::Word("iam"),
                Step::Word("user-invite"),
                Step::Value("email"),
                Step::FlagValue("--access-groups", "access_groups"),
            ],
        }
    } else if i == 60 {
        ToolSpec {
            name: "ibmcloud_iam_api_keys",
            description: "List IAM API keys",
            params: seq![],
            recipe: seq![
                Step::Word("iam"),
                Step::Word("api-keys"),
            ],
        }
    } else if i == 61 {
        ToolSpec {
            name: "ibmcloud_iam_api_key_create",
            description: "Create an IAM API key",
            params: seq![
                Param { name: "name", kind: ArgKind::Text, description: "Key name", required: true },
                Param { name: "description", kind: ArgKind::Text, description: "Key description", required: false },
                Param { name: "file", kind: ArgKind::Text, description: "File to save key", required: false },
            ],
            recipe: seq![
                Step::Word("iam"),
                Step::Word("api-key-create"),
                Step::Value("name"),
                Step::FlagValue("-d", "description"),
                Step::FlagValue("--file", "file"),
            ],
        }
    } else if i == 62 {
        ToolSpec {
            name: "ibmcloud_iam_api_key_delete",
            description: "Delete an IAM API key",
            params: seq![
                Param { name: "name", kind: ArgKind::Text, description: "Key name", required: true },
                Param { name: "force", kind: ArgKind::Boolean, description: "Force deletion", required: false },
            ],
            recipe: seq![
                Step::Word("iam"),
                Step::Word("api-key-delete"),
                Step::Value("name"),
                Step::Switch("-f", "force"),
            ],
        }
    } else if i == 63 {
        ToolSpec {
            name: "ibmcloud_iam_service_ids",
            description: "List IAM service IDs",
            params: seq![],
            recipe: seq![
                Step::Word("iam"),
                Step::Word("service-ids"),
            ],
        }
    } else if i == 64 {
        ToolSpec {
            name: "ibmcloud_iam_service_id",
            description: "Show details of a service ID",
            params: seq![
                Param { name: "name", kind: ArgKind::Text, description: "Service ID name", required: true },
            ],
            recipe: seq![
                Step::Word("iam"),
                Step::Word("service-id"),
                Step::Value("name"),
            ],
        }
    } else if i == 65 {
        ToolSpec {
            name: "ibmcloud_iam_service_id_create",
            description: "Create a service ID",
            params: seq![
                Param { name: "name", kind: ArgKind::Text, description: "Service ID name", required: true },
                Param { name: "description", kind: ArgKind::Text, description: "Description", required: false },
            ],
            recipe: seq![
                Step::Word("iam"),
                Step::Word("service-id-create"),
                Step::Value("name"),
                Step::FlagValue("-d", "description"),
            ],
        }
    } else if i == 66 {
        ToolSpec {
            name: "ibmcloud_iam_service_id_delete",
            description: "Delete a service ID",
            params: seq![
                Param { name: "name", kind: ArgKind::Text, description: "Service ID name", required: true },
                Param { name: "force", kind: ArgKind::Boolean, description: "Force deletion", required: false },
            ],
            recipe: seq![
                Step::Word("iam"),
                Step::Word("service-id-delete"),
                Step::Value("name"),
                Step::Switch("-f", "force"),
            ],
        }
    } else if i == 67 {
        ToolSpec {
            name: "ibmcloud_iam_service_api_keys",
            description: "List API keys for a service ID",
            params: seq![
                Param { name: "service_id", kind: ArgKind::Text, description: "Service ID", required: true },
            ],
            recipe: seq![
                Step::Word("iam"),
                Step::Word("service-api-keys"),
                Step::Value("service_id"),
            ],
        }
    } else if i == 68 {
        ToolSpec {
            name: "ibmcloud_iam_service_api_key_create",
            description: "Create an API key for a service ID",
            params: seq![
                Param { name: "name", kind: ArgKind::Text, description: "Key name", required: true },
                Param { name: "service_id", kind: ArgKind::Text, description: "Service ID", required: true },
                Param { name: "description", kind: ArgKind::Text, description: "Description", required: false },
                Param { name: "file", kind: ArgKind::Text, description: "File to save key", required: false },
            ],
            recipe: seq![
                Step::Word("iam"),
                Step::Word("service-api-key-create"),
                Step::Value("name"),
                Step::Value("service_id"),
                Step::FlagValue("-d", "description"),
                Step::FlagValue("--file", "file"),
            ],
        }
    } else if i == 69 {
        ToolSpec {
            name: "ibmcloud_iam_access_groups",
            description: "List IAM access groups",
            params: seq![],
            recipe: seq![
                Step::Word("iam"),
                Step::Word("access-groups"),
            ],
        }
    } else if i == 70 {
        ToolSpec {
            name: "ibmcloud_iam_access_group",
            description: "Show details of an access group",
            params: seq![
                Param { name: "name", kind: ArgKind::Text, description: "Access group name", required: true },
            ],
            recipe: seq![
                Step::Word("iam"),
                Step::Word("access-group"),
                Step::Value("name"),
            ],
        }
    } else if i == 71 {
        ToolSpec {
            name: "ibmcloud_iam_access_group_create",
            description: "Create an access group",
            params: seq![
                Param { name: "name", kind: ArgKind::Text, description: "Group name", required: true },
                Param { name: "description", kind: ArgKind::Text, description: "Description", required: false },
            ],
            recipe: seq![
                Step::Word("iam"),
                Step::Word("access-group-create"),
                Step::Value("name"),
                Step::FlagValue("-d", "description"),
            ],
        }
    } else if i == 72 {
        ToolSpec {
            name: "ibmcloud_iam_access_group_users",
            description: "List users in an access group",
            params: seq![
                Param { name: "group", kind: ArgKind::Text, description: "Access group name", required: true },
            ],
            recipe: seq![
                Step::Word("iam"),
                Step::Word("access-group-users"),
                Step::Value("group"),
            ],
        }
    } else if i == 73 {
        ToolSpec {
            name: "ibmcloud_iam_access_group_user_add",
            description: "Add users to an access group",
            params: seq![
                Param { name: "group", kind: ArgKind::Text, description: "Access group name", required: true },
                Param { name: "users", kind: ArgKind::Text, description: "Comma-separated user emails", required: true },
            ],
            recipe: seq![
                Step::Word("iam"),
                Step::Word("access-group-user-add"),
                Step::Value("group"),
                Step::Word("--users"),
                Step::Value("users"),
            ],
        }
    } else if i == 74 {
        ToolSpec {
            name: "ibmcloud_iam_access_group_policies",
            description: "List policies for an access group",
            params: seq![
                Param { name: "group", kind: ArgKind::Text, description: "Access group name", required: true },
            ],
            recipe: seq![
                Step::Word("iam"),
                Step::Word("access-group-policies"),
                Step::Value("group"),
            ],
        }
    } else if i == 75 {
        ToolSpec {
            name: "ibmcloud_iam_access_group_policy_create",
            description: "Create a policy for an access group",
            params: seq![
                Param { name: "group", kind: ArgKind::Text, description: "Access group name", required: true },
                Param { name: "roles", kind: ArgKind::Text, description: "Comma-separated roles", required: true },
                Param { name: "service_name", kind: ArgKind::Text, description: "Service name", required: false },
                Param { name: "resource_group", kind: ArgKind::Text, description: "Resource group name", required: false },
                Param { name: "resource_type", kind: ArgKind::Text, description: "Resource type", required: false },
                Param { name: "resource", kind: ArgKind::Text, description: "Resource", required: false },
            ],
            recipe: seq![
                Step::Word("iam"),
                Step::Word("access-group-policy-create"),
                Step::Value("group"),
                Step::Word("--roles"),
                Step::Value("roles"),
                Step::FlagValue("--service-name", "service_name"),
                Step::FlagValue("--resource-group-name", "resource_group"),
                Step::FlagValue("--resource-type", "resource_type"),
                Step::FlagValue("--resource", "resource"),
            ],
        }
    } else if i == 76 {
        ToolSpec {
            name: "ibmcloud_iam_roles",
            description: "List IAM roles",
            params: seq![
                Param { name: "service", kind: ArgKind::Text, description: "Filter by service name", required: false },
            ],
            recipe: seq![
                Step::Word("iam"),
                Step::Word("roles"),
                Step::FlagValue("--service", "service"),
            ],
        }
    } else if i == 77 {
        ToolSpec {
            name: "ibmcloud_catalog_search",
            description: "Search the IBM Cloud catalog",
            params: seq![
                Param { name: "query", kind: ArgKind::Text, description: "Search query", required: true },
            ],
            recipe: seq![
                Step::Word("catalog"),
                Step::Word("search"),
                Step::Value("query"),
            ],
        }
    } else if i == 78 {
        ToolSpec {
            name: "ibmcloud_catalog_service",
            description: "Show details of a catalog service",
            params: seq![
                Param { name: "service", kind: ArgKind::Text, description: "Service name", required: true },
            ],
            recipe: seq![
                Step::Word("catalog"),
                Step::Word("service"),
                Step::Value("service"),
            ],
        }
    } else if i == 79 {
        ToolSpec {
            name: "ibmcloud_catalog_service_plans",
            description: "List plans for a catalog service",
            params: seq![
                Param { name: "service", kind: ArgKind::Text, description: "Service name", required: true },
            ],
            recipe: seq![
                Step::Word("catalog"),
                Step::Word("service"),
                Step::Value("service"),
            ],
        }
    } else if i == 80 {
        ToolSpec {
            name: "ibmcloud_billing_account_usage",
            description: "Show account billing usage",
            params: seq![
                Param { name: "month", kind: ArgKind::Text, description: "Month (YYYY-MM)", required: false },
            ],
            recipe: seq![
                Step::Word("billing"),
                Step::Word("account-usage"),
                Step::FlagValue("-d", "month"),
            ],
        }
    } else if i == 81 {
        ToolSpec {
            name: "ibmcloud_billing_resource_group_usage",
            description: "Show resource group billing usage",
            params: seq![
                Param { name: "resource_group", kind: ArgKind::Text, description: "Resource group name", required: true },
                Param { name: "month", kind: ArgKind::Text, description: "Month (YYYY-MM)", required: false },
            ],
            recipe: seq![
                Step::Word("billing"),
                Step::Word("resource-group-usage"),
                Step::Value("resource_group"),
                Step::FlagValue("-d", "month"),
            ],
        }
    } else if i == 82 {
        ToolSpec {
            name: "ibmcloud_billing_resource_instances_usage",
            description: "Show billing for resource instances",
            params: seq![
                Param { name: "month", kind: ArgKind::Text, description: "Month (YYYY-MM)", required: false },
                Param { name: "resource_group", kind: ArgKind::Text, description: "Resource group filter", required: false },
            ],
            recipe: seq![
                Step::Word("billing"),
                Step::Word("resource-instances-usage"),
                Step::FlagValue("-d", "month"),
                Step::FlagValue("-g", "resource_group"),
            ],
        }
    } else if i == 83 {
        ToolSpec {
            name: "ibmcloud_billing_org_usage",
            description: "Show Cloud Foundry org billing usage",
            params: seq![
                Param { name: "org", kind: ArgKind::Text, description: "Organization name", required: true },
                Param { name: "month", kind: ArgKind::Text, description: "Month (YYYY-MM)", required: false },
            ],
            recipe: seq![
                Step::Word("billing"),
                Step::Word("org-usage"),
                Step::Value("org"),
                Step::FlagValue("-d", "month"),
            ],
        }
    } else if i == 84 {
        ToolSpec {
            name: "ibmcloud_plugin_list",
            description: "List installed CLI plugins",
            params: seq![],
            recipe: seq![
                Step::Word("plugin"),
                Step::Word("list"),
            ],
        }
    } else if i == 85 {
        ToolSpec {
            name: "ibmcloud_plugin_repo_plugins",
            description: "List available plugins in the repository",
            params: seq![],
            recipe: seq![
                Step::Word("plugin"),
                Step::Word("repo-plugins"),
            ],
        }
    } else if i == 86 {
        ToolSpec {
            name: "ibmcloud_plugin_install",
            description: "Install a CLI plugin",
            params: seq![
                Param { name: "plugin", kind: ArgKind::Text, description: "Plugin name", required: true },
                Param { name: "force", kind: ArgKind::Boolean, description: "Force reinstall", required: false },
            ],
            recipe: seq![
                Step::Word("plugin"),
                Step::Word("install"),
                Step::Value("plugin"),
                Step::Switch("-f", "force"),
            ],
        }
    } else {
        ToolSpec {
            name: "ibmcloud_version",
            description: "Show IBM Cloud CLI version",
            params: seq![],
            recipe: seq![
                Step::Word("version"),
            ],
        }
    }
}

/// The catalog entry at position `i`.
pub fn tool_at(i: usize) -> (r: ToolDef)
    requires
        i < TOOL_COUNT,
    ensures
        r@ == spec_tool(i as int),
{
    if i == 0 {
        let r = ToolDef {
            name: "ibmcloud_login",
            description: "Login to IBM Cloud with API key or SSO",
            params: vec![
                Param { name: "apikey", kind: ArgKind::Text, description: "IBM Cloud API key", required: false },
                Param { name: "sso", kind: ArgKind::Boolean, description: "Use SSO for login", required: false },
                Param { name: "region", kind: ArgKind::Text, description: "Target region (e.g., us-south)", required: false },
            ],
            recipe: vec![
                Step::Word("login"),
                Step::FlagValue("--apikey", "apikey"),
                Step::Switch("--sso", "sso"),
                Step::FlagValue("-r", "region"),
            ],
        };
        assert(r.params@ =~= spec_tool(0).params);
        assert(r.recipe@ =~= spec_tool(0).recipe);
        r
    } else if i == 1 {
        let r = ToolDef {
            name: "ibmcloud_logout",
            description: "Logout from IBM Cloud",
            params: vec![],
            recipe: vec![
                Step::Word("logout"),
            ],
        };
        assert(r.params@ =~= spec_tool(1).params);
        assert(r.recipe@ =~= spec_tool(1).recipe);
        r
    } else if i == 2 {
        let r = ToolDef {
            name: "ibmcloud_target",
            description: "View or set target region, resource group, org, and space",
            params: vec![
                Param { name: "region", kind: ArgKind::Text, description: "Target region", required: false },
                Param { name: "resource_group", kind: ArgKind::Text, description: "Target resource group", required: false },
                Param { name: "org", kind: ArgKind::Text, description: "Target Cloud Foundry org", required: false },
                Param { name: "space", kind: ArgKind::Text, description: "Target Cloud Foundry space", required: false },
            ],
            recipe: vec![
                Step::Word("target"),
                Step::FlagValue("-r", "region"),
                Step::FlagValue("-g", "resource_group"),
                Step::FlagValue("-o", "org"),
                Step::FlagValue("-s", "space"),
            ],
        };
        assert(r.params@ =~= spec_tool(2).params);
        assert(r.recipe@ =~= spec_tool(2).recipe);
        r
    } else if i == 3 {
        let r = ToolDef {
            name: "ibmcloud_api",
            description: "View or set IBM Cloud API endpoint",
            params: vec![
                Param { name: "endpoint", kind: ArgKind::Text, description: "API endpoint URL", required: false },
            ],
            recipe: vec![
                Step::Word("api"),
                Step::OptionalValue("endpoint"),
            ],
        };
        assert(r.params@ =~= spec_tool(3).params);
        assert(r.recipe@ =~= spec_tool(3).recipe);
        r
    } else if i == 4 {
        let r = ToolDef {
            name: "ibmcloud_regions",
            description: "List all IBM Cloud regions",
            params: vec![],
            recipe: vec![
                Step::Word("regions"),
            ],
        };
        assert(r.params@ =~= spec_tool(4).params);
        assert(r.recipe@ =~= spec_tool(4).recipe);
        r
    } else if i == 5 {
        let r = ToolDef {
            name: "ibmcloud_account_show",
            description: "Show current IBM Cloud account details",
            params: vec![],
            recipe: vec![
                Step::Word("account"),
                Step::Word("show"),
            ],
        };
        assert(r.params@ =~= spec_tool(5).params);
        assert(r.recipe@ =~= spec_tool(5).recipe);
        r
    } else if i == 6 {
        let r = ToolDef {
            name: "ibmcloud_account_list",
            description: "List all available accounts",
            params: vec![],
            recipe: vec![
                Step::Word("account"),
                Step::Word("list"),
            ],
        };
        assert(r.params@ =~= spec_tool(6).params);
        assert(r.recipe@ =~= spec_tool(6).recipe);
        r
    } else if i == 7 {
        let r = ToolDef {
            name: "ibmcloud_config_list",
            description: "List IBM Cloud CLI configuration",
            params: vec![],
            recipe: vec![
                Step::Word("config"),
                Step::Word("list"),
            ],
        };
        assert(r.params@ =~= spec_tool(7).params);
        assert(r.recipe@ =~= spec_tool(7).recipe);
        r
    } else if i == 8 {
        let r = ToolDef {
            name: "ibmcloud_resource_groups",
            description: "List all resource groups",
            params: vec![],
            recipe: vec![
                Step::Word("resource"),
                Step::Word("groups"),
            ],
        };
        assert(r.params@ =~= spec_tool(8).params);
        assert(r.recipe@ =~= spec_tool(8).recipe);
        r
    } else if i == 9 {
        let r = ToolDef {
            name: "ibmcloud_resource_group_create",
            description: "Create a new resource group",
            params: vec![
                Param { name: "name", kind: ArgKind::Text, description: "Name of the resource group", required: true },
            ],
            recipe: vec![
                Step::Word("resource"),
                Step::Word("group-create"),
                Step::Value("name"),
            ],
        };
        assert(r.params@ =~= spec_tool(9).params);
        assert(r.recipe@ =~= spec_tool(9).recipe);
        r
    } else if i == 10 {
        let r = ToolDef {
            name: "ibmcloud_resource_service_instances",
            description: "List resource service instances",
            params: vec![
                Param { name: "service_name", kind: ArgKind::Text, description: "Filter by service name", required: false },
                Param { name: "resource_group", kind: ArgKind::Text, description: "Filter by resource group", required: false },
            ],
            recipe: vec![
                Step::Word("resource"),
                Step::Word("service-instances"),
                Step::FlagValue("--service-name", "service_name"),
                Step::FlagValue("-g", "resource_group"),
            ],
        };
        assert(r.params@ =~= spec_tool(10).params);
        assert(r.recipe@ =~= spec_tool(10).recipe);
        r
    } else if i == 11 {
        let r = ToolDef {
            name: "ibmcloud_resource_service_instance",
            description: "Show details of a service instance",
            params: vec![
                Param { name: "name", kind: ArgKind::Text, description: "Service instance name", required: true },
            ],
            recipe: vec![
                Step::Word("resource"),
                Step::Word("service-instance"),
                Step::Value("name"),
            ],
        };
        assert(r.params@ =~= spec_tool(11).params);
        assert(r.recipe@ =~= spec_tool(11).recipe);
        r
    } else if i == 12 {
        let r = ToolDef {
            name: "ibmcloud_resource_service_instance_create",
            description: "Create a service instance",
            params: vec![
                Param { name: "name", kind: ArgKind::Text, description: "Instance name", required: true },
                Param { name: "service", kind: ArgKind::Text, description: "Service offering", required: true },
                Param { name: "plan", kind: ArgKind::Text, description: "Service plan", required: true },
                Param { name: "location", kind: ArgKind::Text, description: "Target location", required: false },
                Param { name: "resource_group", kind: ArgKind::Text, description: "Resource group", required: false },
                Param { name: "parameters", kind: ArgKind::Text, description: "JSON parameters", required: false },
            ],
            recipe: vec![
                Step::Word("resource"),
                Step::Word("service-instance-create"),
                Step::Value("name"),
                Step::Value("service"),
                Step::Value("plan"),
                Step::FlagValue("-l", "location"),
                Step::FlagValue("-g", "resource_group"),
                Step::FlagValue("-p", "parameters"),
            ],
        };
        assert(r.params@ =~= spec_tool(12).params);
        assert(r.recipe@ =~= spec_tool(12).recipe);
        r
    } else if i == 13 {
        let r = ToolDef {
            name: "ibmcloud_resource_service_instance_delete",
            description: "Delete a service instance",
            params: vec![
                Param { name: "name", kind: ArgKind::Text, description: "Instance name", required: true },
                Param { name: "force", kind: ArgKind::Boolean, description: "Force deletion", required: false },
            ],
            recipe: vec![
                Step::Word("resource"),
                Step::Word("service-instance-delete"),
                Step::Value("name"),
                Step::Switch("-f", "force"),
            ],
        };
        assert(r.params@ =~= spec_tool(13).params);
        assert(r.recipe@ =~= spec_tool(13).recipe);
        r
    } else if i == 14 {
        let r = ToolDef {
            name: "ibmcloud_resource_service_instance_update",
            description: "Update a service instance",
            params: vec![
                Param { name: "name", kind: ArgKind::Text, description: "Instance name", required: true },
                Param { name: "new_name", kind: ArgKind::Text, description: "New name", required: false },
                Param { name: "plan", kind: ArgKind::Text, description: "New plan ID", required: false },
                Param { name: "parameters", kind: ArgKind::Text, description: "JSON parameters", required: false },
            ],
            recipe: vec![
                Step::Word("resource"),
                Step::Word("service-instance-update"),
                Step::Value("name"),
                Step::FlagValue("-n", "new_name"),
                Step::FlagValue("--service-plan-id", "plan"),
                Step::FlagValue("-p", "parameters"),
            ],
        };
        assert(r.params@ =~= spec_tool(14).params);
        assert(r.recipe@ =~= spec_tool(14).recipe);
        r
    } else if i == 15 {
        let r = ToolDef {
            name: "ibmcloud_resource_service_keys",
            description: "List service keys",
            params: vec![
                Param { name: "instance", kind: ArgKind::Text, description: "Filter by instance name", required: false },
            ],
            recipe: vec![
                Step::Word("resource"),
                Step::Word("service-keys"),
                Step::FlagValue("--instance-name", "instance"),
            ],
        };
        assert(r.params@ =~= spec_tool(15).params);
        assert(r.recipe@ =~= spec_tool(15).recipe);
        r
    } else if i == 16 {
        let r = ToolDef {
            name: "ibmcloud_resource_service_key",
            description: "Show details of a service key",
            params: vec![
                Param { name: "name", kind: ArgKind::Text, description: "Service key name", required: true },
            ],
            recipe: vec![
                Step::Word("resource"),
                Step::Word("service-key"),
                Step::Value("name"),
            ],
        };
        assert(r.params@ =~= spec_tool(16).params);
        assert(r.recipe@ =~= spec_tool(16).recipe);
        r
    } else if i == 17 {
        let r = ToolDef {
            name: "ibmcloud_resource_service_key_create",
            description: "Create a service key for an instance",
            params: vec![
                Param { name: "name", kind: ArgKind::Text, description: "Key name", required: true },
                Param { name: "instance", kind: ArgKind::Text, description: "Instance name", required: true },
                Param { name: "role", kind: ArgKind::Text, description: "Service endpoint/role", required: false },
                Param { name: "parameters", kind: ArgKind::Text, description: "JSON parameters", required: false },
            ],
            recipe: vec![
                Step::Word("resource"),
                Step::Word("service-key-create"),
                Step::Value("name"),
                Step::Word("--instance-name"),
                Step::Value("instance"),
                Step::FlagValue("--service-endpoint", "role"),
                Step::FlagValue("-p", "parameters"),
            ],
        };
        assert(r.params@ =~= spec_tool(17).params);
        assert(r.recipe@ =~= spec_tool(17).recipe);
        r
    } else if i == 18 {
        let r = ToolDef {
            name: "ibmcloud_resource_service_key_delete",
            description: "Delete a service key",
            params: vec![
                Param { name: "name", kind: ArgKind::Text, description: "Key name", required: true },
                Param { name: "force", kind: ArgKind::Boolean, description: "Force deletion", required: false },
            ],
            recipe: vec![
                Step::Word("resource"),
                Step::Word("service-key-delete"),
                Step::Value("name"),
                Step::Switch("-f", "force"),
            ],
        };
        assert(r.params@ =~= spec_tool(18).params);
        assert(r.recipe@ =~= spec_tool(18).recipe);
        r
    } else if i == 19 {
        let r = ToolDef {
            name: "ibmcloud_resource_search",
            description: "Search for resources",
            params: vec![
                Param { name: "query", kind: ArgKind::Text, description: "Search query", required: true },
            ],
            recipe: vec![
                Step::Word("resource"),
                Step::Word("search"),
                Step::Value("query"),
            ],
        };
        assert(r.params@ =~= spec_tool(19).params);
        assert(r.recipe@ =~= spec_tool(19).recipe);
        r
    } else if i == 20 {
        let r = ToolDef {
            name: "ibmcloud_resource_tags",
            description: "List resource tags",
            params: vec![
                Param { name: "resource_id", kind: ArgKind::Text, description: "Resource ID to filter tags", required: false },
            ],
            recipe: vec![
                Step::Word("resource"),
                Step::Word("tags"),
                Step::WordIfGiven("resource_id", "--tag-type"),
                Step::WordIfGiven("resource_id", "user"),
            ],
        };
        assert(r.params@ =~= spec_tool(20).params);
        assert(r.recipe@ =~= spec_tool(20).recipe);
        r
    } else if i == 21 {
        let r = ToolDef {
            name: "ibmcloud_resource_tag_attach",
            description: "Attach tags to a resource",
            params: vec![
                Param { name: "tags", kind: ArgKind::Text, description: "Comma-separated tag names", required: true },
                Param { name: "resource_id", kind: ArgKind::Text, description: "Resource CRN", required: true },
            ],
            recipe: vec![
                Step::Word("resource"),
                Step::Word("tag-attach"),
                Step::Word("--tag-names"),
                Step::Value("tags"),
                Step::Word("--resource-id"),
                Step::Value("resource_id"),
            ],
        };
        assert(r.params@ =~= spec_tool(21).params);
        assert(r.recipe@ =~= spec_tool(21).recipe);
        r
    } else if i == 22 {
        let r = ToolDef {
            name: "ibmcloud_cf_orgs",
            description: "List Cloud Foundry organizations",
            params: vec![],
            recipe: vec![
                Step::Word("cf"),
                Step::Word("orgs"),
            ],
        };
        assert(r.params@ =~= spec_tool(22).params);
        assert(r.recipe@ =~= spec_tool(22).recipe);
        r
    } else if i == 23 {
        let r = ToolDef {
            name: "ibmcloud_cf_spaces",
            description: "List Cloud Foundry spaces",
            params: vec![
                Param { name: "org", kind: ArgKind::Text, description: "Organization name", required: false },
            ],
            recipe: vec![
                Step::Word("cf"),
                Step::Word("spaces"),
                Step::FlagValue("-o", "org"),
            ],
        };
        assert(r.params@ =~= spec_tool(23).params);
        assert(r.recipe@ =~= spec_tool(23).recipe);
        r
    } else if i == 24 {
        let r = ToolDef {
            name: "ibmcloud_cf_apps",
            description: "List all Cloud Foundry applications",
            params: vec![],
            recipe: vec![
                Step::Word("cf"),
                Step::Word("apps"),
            ],
        };
        assert(r.params@ =~= spec_tool(24).params);
        assert(r.recipe@ =~= spec_tool(24).recipe);
        r
    } else if i == 25 {
        let r = ToolDef {
            name: "ibmcloud_cf_app",
            description: "Show details of a Cloud Foundry app",
            params: vec![
                Param { name: "name", kind: ArgKind::Text, description: "App name", required: true },
            ],
            recipe: vec![
                Step::Word("cf"),
                Step::Word("app"),
                Step::Value("name"),
            ],
        };
        assert(r.params@ =~= spec_tool(25).params);
        assert(r.recipe@ =~= spec_tool(25).recipe);
        r
    } else if i == 26 {
        let r = ToolDef {
            name: "ibmcloud_cf_push",
            description: "Push a Cloud Foundry application",
            params: vec![
                Param { name: "name", kind: ArgKind::Text, description: "App name", required: false },
                Param { name: "path", kind: ArgKind::Text, description: "App path", required: false },
                Param { name: "manifest", kind: ArgKind::Text, description: "Manifest file path", required: false },
                Param { name: "memory", kind: ArgKind::Text, description: "Memory limit (e.g., 256M)", required: false },
                Param { name: "instances", kind: ArgKind::Number, description: "Number of instances", required: false },
                Param { name: "buildpack", kind: ArgKind::Text, description: "Buildpack name/URL", required: false },
                Param { name: "docker_image", kind: ArgKind::Text, description: "Docker image to deploy", required: false },
            ],
            recipe: vec![
                Step::Word("cf"),
                Step::Word("push"),
                Step::OptionalValue("name"),
                Step::FlagValue("-p", "path"),
                Step::FlagValue("-f", "manifest"),
                Step::FlagValue("-m", "memory"),
                Step::Count("-i", "instances"),
                Step::FlagValue("-b", "buildpack"),
                Step::FlagValue("--docker-image", "docker_image"),
            ],
        };
        assert(r.params@ =~= spec_tool(26).params);
        assert(r.recipe@ =~= spec_tool(26).recipe);
        r
    } else if i == 27 {
        let r = ToolDef {
            name: "ibmcloud_cf_start",
            description: "Start a Cloud Foundry app",
            params: vec![
                Param { name: "name", kind: ArgKind::Text, description: "App name", required: true },
            ],
            recipe: vec![
                Step::Word("cf"),
                Step::Word("start"),
                Step::Value("name"),
            ],
        };
        assert(r.params@ =~= spec_tool(27).params);
        assert(r.recipe@ =~= spec_tool(27).recipe);
        r
    } else if i == 28 {
        let r = ToolDef {
            name: "ibmcloud_cf_stop",
            description: "Stop a Cloud Foundry app",
            params: vec![
                Param { name: "name", kind: ArgKind::Text, description: "App name", required: true },
            ],
            recipe: vec![
                Step::Word("cf"),
                Step::Word("stop"),
                Step::Value("name"),
            ],
        };
        assert(r.params@ =~= spec_tool(28).params);
        assert(r.recipe@ =~= spec_tool(28).recipe);
        r
    } else if i == 29 {
        let r = ToolDef {
            name: "ibmcloud_cf_restart",
            description: "Restart a Cloud Foundry app",
            params: vec![
                Param { name: "name", kind: ArgKind::Text, description: "App name", required: true },
            ],
            recipe: vec![
                Step::Word("cf"),
                Step::Word("restart"),
                Step::Value("name"),
            ],
        };
        assert(r.params@ =~= spec_tool(29).params);
        assert(r.recipe@ =~= spec_tool(29).recipe);
        r
    } else if i == 30 {
        let r = ToolDef {
            name: "ibmcloud_cf_delete",
            description: "Delete a Cloud Foundry app",
            params: vec![
                Param { name: "name", kind: ArgKind::Text, description: "App name", required: true },
                Param { name: "force", kind: ArgKind::Boolean, description: "Force deletion", required: false },
                Param { name: "delete_routes", kind: ArgKind::Boolean, description: "Also delete routes", required: false },
            ],
            recipe: vec![
                Step::Word("cf"),
                Step::Word("delete"),
                Step::Value("name"),
                Step::Switch("-f", "force"),
                Step::Switch("-r", "delete_routes"),
            ],
        };
        assert(r.params@ =~= spec_tool(30).params);
        assert(r.recipe@ =~= spec_tool(30).recipe);
        r
    } else if i == 31 {
        let r = ToolDef {
            name: "ibmcloud_cf_logs",
            description: "Show recent logs for a Cloud Foundry app",
            params: vec![
                Param { name: "name", kind: ArgKind::Text, description: "App name", required: true },
                Param { name: "stream", kind: ArgKind::Boolean, description: "Stream logs instead of recent", required: false },
            ],
            recipe: vec![
                Step::Word("cf"),
                Step::Word("logs"),
                Step::Value("name"),
                Step::SwitchUnless("--recent", "stream"),
            ],
        };
        assert(r.params@ =~= spec_tool(31).params);
        assert(r.recipe@ =~= spec_tool(31).recipe);
        r
    } else if i == 32 {
        let r = ToolDef {
            name: "ibmcloud_cf_env",
            description: "Show environment variables for a CF app",
            params: vec![
                Param { name: "name", kind: ArgKind::Text, description: "App name", required: true },
            ],
            recipe: vec![
                Step::Word("cf"),
                Step::Word("env"),
                Step::Value("name"),
            ],
        };
        assert(r.params@ =~= spec_tool(32).params);
        assert(r.recipe@ =~= spec_tool(32).recipe);
        r
    } else if i == 33 {
        let r = ToolDef {
            name: "ibmcloud_cf_set_env",
            description: "Set an environment variable for a CF app",
            params: vec![
                Param { name: "name", kind: ArgKind::Text, description: "App name", required: true },
                Param { name: "var_name", kind: ArgKind::Text, description: "Variable name", required: true },
                Param { name: "var_value", kind: ArgKind::Text, description: "Variable value", required: true },
            ],
            recipe: vec![
                Step::Word("cf"),
                Step::Word("set-env"),
                Step::Value("name"),
                Step::Value("var_name"),
                Step::Value("var_value"),
            ],
        };
        assert(r.params@ =~= spec_tool(33).params);
        assert(r.recipe@ =~= spec_tool(33).recipe);
        r
    } else if i == 34 {
        let r = ToolDef {
            name: "ibmcloud_cf_scale",
            description: "Scale a Cloud Foundry app",
            params: vec![
                Param { name: "name", kind: ArgKind::Text, description: "App name", required: true },
                Param { name: "instances", kind: ArgKind::Number, description: "Number of instances", required: false },
                Param { name: "memory", kind: ArgKind::Text, description: "Memory limit", required: false },
                Param { name: "disk", kind: ArgKind::Text, description: "Disk limit", required: false },
            ],
            recipe: vec![
                Step::Word("cf"),
                Step::Word("scale"),
                Step::Value("name"),
                Step::Count("-i", "instances"),
                Step::FlagValue("-m", "memory"),
                Step::FlagValue("-k", "disk"),
                Step::Word("-f"),
            ],
        };
        assert(r.params@ =~= spec_tool(34).params);
        assert(r.recipe@ =~= spec_tool(34).recipe);
        r
    } else if i == 35 {
        let r = ToolDef {
            name: "ibmcloud_cf_routes",
            description: "List Cloud Foundry routes",
            params: vec![],
            recipe: vec![
                Step::Word("cf"),
                Step::Word("routes"),
            ],
        };
        assert(r.params@ =~= spec_tool(35).params);
        assert(r.recipe@ =~= spec_tool(35).recipe);
        r
    } else if i == 36 {
        let r = ToolDef {
            name: "ibmcloud_cf_services",
            description: "List Cloud Foundry services",
            params: vec![],
            recipe: vec![
                Step::Word("cf"),
                Step::Word("services"),
            ],
        };
        assert(r.params@ =~= spec_tool(36).params);
        assert(r.recipe@ =~= spec_tool(36).recipe);
        r
    } else if i == 37 {
        let r = ToolDef {
            name: "ibmcloud_cf_marketplace",
            description: "List services in the Cloud Foundry marketplace",
            params: vec![
                Param { name: "service", kind: ArgKind::Text, description: "Show plans for a specific service", required: false },
            ],
            recipe: vec![
                Step::Word("cf"),
                Step::Word("marketplace"),
                Step::FlagValue("-e", "service"),
            ],
        };
        assert(r.params@ =~= spec_tool(37).params);
        assert(r.recipe@ =~= spec_tool(37).recipe);
        r
    } else if i == 38 {
        let r = ToolDef {
            name: "ibmcloud_cf_create_service",
            description: "Create a Cloud Foundry service instance",
            params: vec![
                Param { name: "service", kind: ArgKind::Text, description: "Service offering", required: true },
                Param { name: "plan", kind: ArgKind::Text, description: "Service plan", required: true },
                Param { name: "instance_name", kind: ArgKind::Text, description: "Instance name", required: true },
                Param { name: "parameters", kind: ArgKind::Text, description: "JSON parameters", required: false },
            ],
            recipe: vec![
                Step::Word("cf"),
                Step::Word("create-service"),
                Step::Value("service"),
                Step::Value("plan"),
                Step::Value("instance_name"),
                Step::FlagValue("-c", "parameters"),
            ],
        };
        assert(r.params@ =~= spec_tool(38).params);
        assert(r.recipe@ =~= spec_tool(38).recipe);
        r
    } else if i == 39 {
        let r = ToolDef {
            name: "ibmcloud_cf_bind_service",
            description: "Bind a service to a CF app",
            params: vec![
                Param { name: "app_name", kind: ArgKind::Text, description: "App name", required: true },
                Param { name: "service_instance", kind: ArgKind::Text, description: "Service instance name", required: true },
                Param { name: "parameters", kind: ArgKind::Text, description: "JSON parameters", required: false },
            ],
            recipe: vec![
                Step::Word("cf"),
                Step::Word("bind-service"),
                Step::Value("app_name"),
                Step::Value("service_instance"),
                Step::FlagValue("-c", "parameters"),
            ],
        };
        assert(r.params@ =~= spec_tool(39).params);
        assert(r.recipe@ =~= spec_tool(39).recipe);
        r
    } else if i == 40 {
        let r = ToolDef {
            name: "ibmcloud_cf_unbind_service",
            description: "Unbind a service from a CF app",
            params: vec![
                Param { name: "app_name", kind: ArgKind::Text, description: "App name", required: true },
                Param { name: "service_instance", kind: ArgKind::Text, description: "Service instance name", required: true },
            ],
            recipe: vec![
                Step::Word("cf"),
                Step::Word("unbind-service"),
                Step::Value("app_name"),
                Step::Value("service_instance"),
            ],
        };
        assert(r.params@ =~= spec_tool(40).params);
        assert(r.recipe@ =~= spec_tool(40).recipe);
        r
    } else if i == 41 {
        let r = ToolDef {
            name: "ibmcloud_ks_clusters",
            description: "List Kubernetes clusters",
            params: vec![
                Param { name: "provider", kind: ArgKind::Text, description: "Infrastructure provider (classic/vpc-gen2)", required: false },
            ],
            recipe: vec![
                Step::Word("ks"),
                Step::Word("clusters"),
                Step::FlagValue("--provider", "provider"),
            ],
        };
        assert(r.params@ =~= spec_tool(41).params);
        assert(r.recipe@ =~= spec_tool(41).recipe);
        r
    } else if i == 42 {
        let r = ToolDef {
            name: "ibmcloud_ks_cluster",
            description: "Get details of a Kubernetes cluster",
            params: vec![
                Param { name: "cluster", kind: ArgKind::Text, description: "Cluster name or ID", required: true },
            ],
            recipe: vec![
                Step::Word("ks"),
                Step::Word("cluster"),
                Step::Word("get"),
                Step::Word("--cluster"),
                Step::Value("cluster"),
            ],
        };
        assert(r.params@ =~= spec_tool(42).params);
        assert(r.recipe@ =~= spec_tool(42).recipe);
        r
    } else if i == 43 {
        let r = ToolDef {
            name: "ibmcloud_ks_cluster_config",
            description: "Download cluster config for kubectl",
            params: vec![
                Param { name: "cluster", kind: ArgKind::Text, description: "Cluster name or ID", required: true },
                Param { name: "admin", kind: ArgKind::Boolean, description: "Download admin config", required: false },
            ],
            recipe: vec![
                Step::Word("ks"),
                Step::Word("cluster"),
                Step::Word("config"),
                Step::Word("--cluster"),
                Step::Value("cluster"),
                Step::Switch("--admin", "admin"),
            ],
        };
        assert(r.params@ =~= spec_tool(43).params);
        assert(r.recipe@ =~= spec_tool(43).recipe);
        r
    } else if i == 44 {
        let r = ToolDef {
            name: "ibmcloud_ks_cluster_create",
            description: "Create a Kubernetes cluster",
            params: vec![
                Param { name: "name", kind: ArgKind::Text, description: "Cluster name", required: true },
                Param { name: "zone", kind: ArgKind::Text, description: "Zone", required: true },
                Param { name: "flavor", kind: ArgKind::Text, description: "Worker node flavor", required: false },
                Param { name: "workers", kind: ArgKind::Number, description: "Number of workers", required: false },
                Param { name: "version", kind: ArgKind::Text, description: "Kubernetes version", required: false },
                Param { name: "vpc_id", kind: ArgKind::Text, description: "VPC ID (uses vpc-gen2 infra)", required: false },
                Param { name: "subnet_id", kind: ArgKind::Text, description: "Subnet ID", required: false },
            ],
            recipe: vec![
                Step::Word("ks"),
                Step::Word("cluster"),
                Step::Word("create"),
                Step::WordByPresence("vpc_id", "vpc-gen2", "classic"),
                Step::Word("--name"),
                Step::Value("name"),
                Step::Word("--zone"),
                Step::Value("zone"),
                Step::FlagValue("--flavor", "flavor"),
                Step::Count("--workers", "workers"),
                Step::FlagValue("--version", "version"),
                Step::FlagValue("--vpc-id", "vpc_id"),
                Step::FlagValue("--subnet-id", "subnet_id"),
            ],
        };
        assert(r.params@ =~= spec_tool(44).params);
        assert(r.recipe@ =~= spec_tool(44).recipe);
        r
    } else if i == 45 {
        let r = ToolDef {
            name: "ibmcloud_ks_cluster_delete",
            description: "Delete a Kubernetes cluster",
            params: vec![
                Param { name: "cluster", kind: ArgKind::Text, description: "Cluster name or ID", required: true },
                Param { name: "force", kind: ArgKind::Boolean, description: "Force deletion", required: false },
            ],
            recipe: vec![
                Step::Word("ks"),
                Step::Word("cluster"),
                Step::Word("rm"),
                Step::Word("--cluster"),
                Step::Value("cluster"),
                Step::Switch("-f", "force"),
            ],
        };
        assert(r.params@ =~= spec_tool(45).params);
        assert(r.recipe@ =~= spec_tool(45).recipe);
        r
    } else if i == 46 {
        let r = ToolDef {
            name: "ibmcloud_ks_workers",
            description: "List worker nodes in a cluster",
            params: vec![
                Param { name: "cluster", kind: ArgKind::Text, description: "Cluster name or ID", required: true },
            ],
            recipe: vec![
                Step::Word("ks"),
                Step::Word("workers"),
                Step::Word("--cluster"),
                Step::Value("cluster"),
            ],
        };
        assert(r.params@ =~= spec_tool(46).params);
        assert(r.recipe@ =~= spec_tool(46).recipe);
        r
    } else if i == 47 {
        let r = ToolDef {
            name: "ibmcloud_ks_worker_pools",
            description: "List worker pools in a cluster",
            params: vec![
                Param { name: "cluster", kind: ArgKind::Text, description: "Cluster name or ID", required: true },
            ],
            recipe: vec![
                Step::Word("ks"),
                Step::Word("worker-pools"),
                Step::Word("--cluster"),
                Step::Value("cluster"),
            ],
        };
        assert(r.params@ =~= spec_tool(47).params);
        assert(r.recipe@ =~= spec_tool(47).recipe);
        r
    } else if i == 48 {
        let r = ToolDef {
            name: "ibmcloud_ks_worker_pool_create",
            description: "Create a worker pool",
            params: vec![
                Param { name: "cluster", kind: ArgKind::Text, description: "Cluster name or ID", required: true },
                Param { name: "name", kind: ArgKind::Text, description: "Pool name", required: true },
                Param { name: "flavor", kind: ArgKind::Text, description: "Worker flavor", required: true },
                Param { name: "size_per_zone", kind: ArgKind::Number, description: "Workers per zone", required: false },
            ],
            recipe: vec![
                Step::Word("ks"),
                Step::Word("worker-pool"),
                Step::Word("create"),
                Step::Word("classic"),
                Step::Word("--cluster"),
                Step::Value("cluster"),
                Step::Word("--name"),
                Step::Value("name"),
                Step::Word("--flavor"),
                Step::Value("flavor"),
                Step::Count("--size-per-zone", "size_per_zone"),
            ],
        };
        assert(r.params@ =~= spec_tool(48).params);
        assert(r.recipe@ =~= spec_tool(48).recipe);
        r
    } else if i == 49 {
        let r = ToolDef {
            name: "ibmcloud_ks_worker_pool_resize",
            description: "Resize a worker pool",
            params: vec![
                Param { name: "cluster", kind: ArgKind::Text, description: "Cluster name or ID", required: true },
                Param { name: "pool", kind: ArgKind::Text, description: "Pool name", required: true },
                Param { name: "size_per_zone", kind: ArgKind::Number, description: "New size per zone", required: true },
            ],
            recipe: vec![
                Step::Word("ks"),
                Step::Word("worker-pool"),
                Step::Word("resize"),
                Step::Word("--cluster"),
                Step::Value("cluster"),
                Step::Word("--worker-pool"),
                Step::Value("pool"),
                Step::Word("--size-per-zone"),
                Step::CountOr("size_per_zone", 1),
            ],
        };
        assert(r.params@ =~= spec_tool(49).params);
        assert(r.recipe@ =~= spec_tool(49).recipe);
        r
    } else if i == 50 {
        let r = ToolDef {
            name: "ibmcloud_ks_zones",
            description: "List available zones for Kubernetes",
            params: vec![
                Param { name: "provider", kind: ArgKind::Text, description: "Infrastructure provider", required: false },
                Param { name: "location", kind: ArgKind::Text, description: "Location filter", required: false },
            ],
            recipe: vec![
                Step::Word("ks"),
                Step::Word("zones"),
                Step::FlagValue("--provider", "provider"),
                Step::FlagValue("--location", "location"),
            ],
        };
        assert(r.params@ =~= spec_tool(50).params);
        assert(r.recipe@ =~= spec_tool(50).recipe);
        r
    } else if i == 51 {
        let r = ToolDef {
            name: "ibmcloud_ks_versions",
            description: "List supported Kubernetes versions",
            params: vec![],
            recipe: vec![
                Step::Word("ks"),
                Step::Word("versions"),
            ],
        };
        assert(r.params@ =~= spec_tool(51).params);
        assert(r.recipe@ =~= spec_tool(51).recipe);
        r
    } else if i == 52 {
        let r = ToolDef {
            name: "ibmcloud_ks_flavors",
            description: "List available worker node flavors",
            params: vec![
                Param { name: "zone", kind: ArgKind::Text, description: "Zone", required: true },
                Param { name: "provider", kind: ArgKind::Text, description: "Infrastructure provider", required: false },
            ],
            recipe: vec![
                Step::Word("ks"),
                Step::Word("flavors"),
                Step::Word("--zone"),
                Step::Value("zone"),
                Step::FlagValue("--provider", "provider"),
            ],
        };
        assert(r.params@ =~= spec_tool(52).params);
        assert(r.recipe@ =~= spec_tool(52).recipe);
        r
    } else if i == 53 {
        let r = ToolDef {
            name: "ibmcloud_cr_namespaces",
            description: "List container registry namespaces",
            params: vec![],
            recipe: vec![
                Step::Word("cr"),
                Step::Word("namespaces"),
            ],
        };
        assert(r.params@ =~= spec_tool(53).params);
        assert(r.recipe@ =~= spec_tool(53).recipe);
        r
    } else if i == 54 {
        let r = ToolDef {
            name: "ibmcloud_cr_namespace_add",
            description: "Create a container registry namespace",
            params: vec![
                Param { name: "name", kind: ArgKind::Text, description: "Namespace name", required: true },
                Param { name: "resource_group", kind: ArgKind::Text, description: "Resource group", required: false },
            ],
            recipe: vec![
                Step::Word("cr"),
                Step::Word("namespace-add"),
                Step::Value("name"),
                Step::FlagValue("-g", "resource_group"),
            ],
        };
        assert(r.params@ =~= spec_tool(54).params);
        assert(r.recipe@ =~= spec_tool(54).recipe);
        r
    } else if i == 55 {
        let r = ToolDef {
            name: "ibmcloud_cr_images",
            description: "List container images",
            params: vec![
                Param { name: "repository", kind: ArgKind::Text, description: "Repository filter", required: false },
                Param { name: "include_ibm", kind: ArgKind::Boolean, description: "Include IBM images", required: false },
            ],
            recipe: vec![
                Step::Word("cr"),
                Step::Word("images"),
                Step::FlagValue("--repository", "repository"),
                Step::Switch("--include-ibm", "include_ibm"),
            ],
        };
        assert(r.params@ =~= spec_tool(55).params);
        assert(r.recipe@ =~= spec_tool(55).recipe);
        r
    } else if i == 56 {
        let r = ToolDef {
            name: "ibmcloud_cr_image_rm",
            description: "Remove a container image",
            params: vec![
                Param { name: "image", kind: ArgKind::Text, description: "Image name", required: true },
                Param { name: "force", kind: ArgKind::Boolean, description: "Force removal", required: false },
            ],
            recipe: vec![
                Step::Word("cr"),
                Step::Word("image-rm"),
                Step::Value("image"),
                Step::Switch("-f", "force"),
            ],
        };
        assert(r.params@ =~= spec_tool(56).params);
        assert(r.recipe@ =~= spec_tool(56).recipe);
        r
    } else if i == 57 {
        let r = ToolDef {
            name: "ibmcloud_cr_quota",
            description: "Show container registry quota",
            params: vec![],
            recipe: vec![
                Step::Word("cr"),
                Step::Word("quota"),
            ],
        };
        assert(r.params@ =~= spec_tool(57).params);
        assert(r.recipe@ =~= spec_tool(57).recipe);
        r
    } else if i == 58 {
        let r = ToolDef {
            name: "ibmcloud_iam_users",
            description: "List IAM users",
            params: vec![],
            recipe: vec![
                Step::Word("iam"),
                Step::Word("users"),
            ],
        };
        assert(r.params@ =~= spec_tool(58).params);
        assert(r.recipe@ =~= spec_tool(58).recipe);
        r
    } else if i == 59 {
        let r = ToolDef {
            name: "ibmcloud_iam_user_invite",
            description: "Invite a user to the account",
            params: vec![
                Param { name: "email", kind: ArgKind::Text, description: "User email", required: true },
                Param { name: "access_groups", kind: ArgKind::Text, description: "Comma-separated access group names", required: false },
            ],
            recipe: vec![
                Step::Word("iam"),
                Step::Word("user-invite"),
                Step::Value("email"),
                Step::FlagValue("--access-groups", "access_groups"),
            ],
        };
        assert(r.params@ =~= spec_tool(59).params);
        assert(r.recipe@ =~= spec_tool(59).recipe);
        r
    } else if i == 60 {
        let r = ToolDef {
            name: "ibmcloud_iam_api_keys",
            description: "List IAM API keys",
            params: vec![],
            recipe: vec![
                Step::Word("iam"),
                Step::Word("api-keys"),
            ],
        };
        assert(r.params@ =~= spec_tool(60).params);
        assert(r.recipe@ =~= spec_tool(60).recipe);
        r
    } else if i == 61 {
        let r = ToolDef {
            name: "ibmcloud_iam_api_key_create",
            description: "Create an IAM API key",
            params: vec![
                Param { name: "name", kind: ArgKind::Text, description: "Key name", required: true },
                Param { name: "description", kind: ArgKind::Text, description: "Key description", required: false },
                Param { name: "file", kind: ArgKind::Text, description: "File to save key", required: false },
            ],
            recipe: vec![
                Step::Word("iam"),
                Step::Word("api-key-create"),
                Step::Value("name"),
                Step::FlagValue("-d", "description"),
                Step::FlagValue("--file", "file"),
            ],
        };
        assert(r.params@ =~= spec_tool(61).params);
        assert(r.recipe@ =~= spec_tool(61).recipe);
        r
    } else if i == 62 {
        let r = ToolDef {
            name: "ibmcloud_iam_api_key_delete",
            description: "Delete an IAM API key",
            params: vec![
                Param { name: "name", kind: ArgKind::Text, description: "Key name", required: true },
                Param { name: "force", kind: ArgKind::Boolean, description: "Force deletion", required: false },
            ],
            recipe: vec![
                Step::Word("iam"),
                Step::Word("api-key-delete"),
                Step::Value("name"),
                Step::Switch("-f", "force"),
            ],
        };
        assert(r.params@ =~= spec_tool(62).params);
        assert(r.recipe@ =~= spec_tool(62).recipe);
        r
    } else if i == 63 {
        let r = ToolDef {
            name: "ibmcloud_iam_service_ids",
            description: "List IAM service IDs",
            params: vec![],
            recipe: vec![
                Step::Word("iam"),
                Step::Word("service-ids"),
            ],
        };
        assert(r.params@ =~= spec_tool(63).params);
        assert(r.recipe@ =~= spec_tool(63).recipe);
        r
    } else if i == 64 {
        let r = ToolDef {
            name: "ibmcloud_iam_service_id",
            description: "Show details of a service ID",
            params: vec![
                Param { name: "name", kind: ArgKind::Text, description: "Service ID name", required: true },
            ],
            recipe: vec![
                Step::Word("iam"),
                Step::Word("service-id"),
                Step::Value("name"),
            ],
        };
        assert(r.params@ =~= spec_tool(64).params);
        assert(r.recipe@ =~= spec_tool(64).recipe);
        r
    } else if i == 65 {
        let r = ToolDef {
            name: "ibmcloud_iam_service_id_create",
            description: "Create a service ID",
            params: vec![
                Param { name: "name", kind: ArgKind::Text, description: "Service ID name", required: true },
                Param { name: "description", kind: ArgKind::Text, description: "Description", required: false },
            ],
            recipe: vec![
                Step::Word("iam"),
                Step::Word("service-id-create"),
                Step::Value("name"),
                Step::FlagValue("-d", "description"),
            ],
        };
        assert(r.params@ =~= spec_tool(65).params);
        assert(r.recipe@ =~= spec_tool(65).recipe);
        r
    } else if i == 66 {
        let r = ToolDef {
            name: "ibmcloud_iam_service_id_delete",
            description: "Delete a service ID",
            params: vec![
                Param { name: "name", kind: ArgKind::Text, description: "Service ID name", required: true },
                Param { name: "force", kind: ArgKind::Boolean, description: "Force deletion", required: false },
            ],
            recipe: vec![
                Step::Word("iam"),
                Step::Word("service-id-delete"),
                Step::Value("name"),
                Step::Switch("-f", "force"),
            ],
        };
        assert(r.params@ =~= spec_tool(66).params);
        assert(r.recipe@ =~= spec_tool(66).recipe);
        r
    } else if i == 67 {
        let r = ToolDef {
            name: "ibmcloud_iam_service_api_keys",
            description: "List API keys for a service ID",
            params: vec![
                Param { name: "service_id", kind: ArgKind::Text, description: "Service ID", required: true },
            ],
            recipe: vec![
                Step::Word("iam"),
                Step::Word("service-api-keys"),
                Step::Value("service_id"),
            ],
        };
        assert(r.params@ =~= spec_tool(67).params);
        assert(r.recipe@ =~= spec_tool(67).recipe);
        r
    } else if i == 68 {
        let r = ToolDef {
            name: "ibmcloud_iam_service_api_key_create",
            description: "Create an API key for a service ID",
            params: vec![
                Param { name: "name", kind: ArgKind::Text, description: "Key name", required: true },
                Param { name: "service_id", kind: ArgKind::Text, description: "Service ID", required: true },
                Param { name: "description", kind: ArgKind::Text, description: "Description", required: false },
                Param { name: "file", kind: ArgKind::Text, description: "File to save key", required: false },
            ],
            recipe: vec![
                Step::Word("iam"),
                Step::Word("service-api-key-create"),
                Step::Value("name"),
                Step::Value("service_id"),
                Step::FlagValue("-d", "description"),
                Step::FlagValue("--file", "file"),
            ],
        };
        assert(r.params@ =~= spec_tool(68).params);
        assert(r.recipe@ =~= spec_tool(68).recipe);
        r
    } else if i == 69 {
        let r = ToolDef {
            name: "ibmcloud_iam_access_groups",
            description: "List IAM access groups",
            params: vec![],
            recipe: vec![
                Step::Word("iam"),
                Step::Word("access-groups"),
            ],
        };
        assert(r.params@ =~= spec_tool(69).params);
        assert(r.recipe@ =~= spec_tool(69).recipe);
        r
    } else if i == 70 {
        let r = ToolDef {
            name: "ibmcloud_iam_access_group",
            description: "Show details of an access group",
            params: vec![
                Param { name: "name", kind: ArgKind::Text, description: "Access group name", required: true },
            ],
            recipe: vec![
                Step::Word("iam"),
                Step::Word("access-group"),
                Step::Value("name"),
            ],
        };
        assert(r.params@ =~= spec_tool(70).params);
        assert(r.recipe@ =~= spec_tool(70).recipe);
        r
    } else if i == 71 {
        let r = ToolDef {
            name: "ibmcloud_iam_access_group_create",
            description: "Create an access group",
            params: vec![
                Param { name: "name", kind: ArgKind::Text, description: "Group name", required: true },
                Param { name: "description", kind: ArgKind::Text, description: "Description", required: false },
            ],
            recipe: vec![
                Step::Word("iam"),
                Step::Word("access-group-create"),
                Step::Value("name"),
                Step::FlagValue("-d", "description"),
            ],
        };
        assert(r.params@ =~= spec_tool(71).params);
        assert(r.recipe@ =~= spec_tool(71).recipe);
        r
    } else if i == 72 {
        let r = ToolDef {
            name: "ibmcloud_iam_access_group_users",
            description: "List users in an access group",
            params: vec![
                Param { name: "group", kind: ArgKind::Text, description: "Access group name", required: true },
            ],
            recipe: vec![
                Step::Word("iam"),
                Step::Word("access-group-users"),
                Step::Value("group"),
            ],
        };
        assert(r.params@ =~= spec_tool(72).params);
        assert(r.recipe@ =~= spec_tool(72).recipe);
        r
    } else if i == 73 {
        let r = ToolDef {
            name: "ibmcloud_iam_access_group_user_add",
            description: "Add users to an access group",
            params: vec![
                Param { name: "group", kind: ArgKind::Text, description: "Access group name", required: true },
                Param { name: "users", kind: ArgKind::Text, description: "Comma-separated user emails", required: true },
            ],
            recipe: vec![
                Step::Word("iam"),
                Step::Word("access-group-user-add"),
                Step::Value("group"),
                Step::Word("--users"),
                Step::Value("users"),
            ],
        };
        assert(r.params@ =~= spec_tool(73).params);
        assert(r.recipe@ =~= spec_tool(73).recipe);
        r
    } else if i == 74 {
        let r = ToolDef {
            name: "ibmcloud_iam_access_group_policies",
            description: "List policies for an access group",
            params: vec![
                Param { name: "group", kind: ArgKind::Text, description: "Access group name", required: true },
            ],
            recipe: vec![
                Step::Word("iam"),
                Step::Word("access-group-policies"),
                Step::Value("group"),
            ],
        };
        assert(r.params@ =~= spec_tool(74).params);
        assert(r.recipe@ =~= spec_tool(74).recipe);
        r
    } else if i == 75 {
        let r = ToolDef {
            name: "ibmcloud_iam_access_group_policy_create",
            description: "Create a policy for an access group",
            params: vec![
                Param { name: "group", kind: ArgKind::Text, description: "Access group name", required: true },
                Param { name: "roles", kind: ArgKind::Text, description: "Comma-separated roles", required: true },
                Param { name: "service_name", kind: ArgKind::Text, description: "Service name", required: false },
                Param { name: "resource_group", kind: ArgKind::Text, description: "Resource group name", required: false },
                Param { name: "resource_type", kind: ArgKind::Text, description: "Resource type", required: false },
                Param { name: "resource", kind: ArgKind::Text, description: "Resource", required: false },
            ],
            recipe: vec![
                Step::Word("iam"),
                Step::Word("access-group-policy-create"),
                Step::Value("group"),
                Step::Word("--roles"),
                Step::Value("roles"),
                Step::FlagValue("--service-name", "service_name"),
                Step::FlagValue("--resource-group-name", "resource_group"),
                Step::FlagValue("--resource-type", "resource_type"),
                Step::FlagValue("--resource", "resource"),
            ],
        };
        assert(r.params@ =~= spec_tool(75).params);
        assert(r.recipe@ =~= spec_tool(75).recipe);
        r
    } else if i == 76 {
        let r = ToolDef {
            name: "ibmcloud_iam_roles",
            description: "List IAM roles",
            params: vec![
                Param { name: "service", kind: ArgKind::Text, description: "Filter by service name", required: false },
            ],
            recipe: vec![
                Step::Word("iam"),
                Step::Word("roles"),
                Step::FlagValue("--service", "service"),
            ],
        };
        assert(r.params@ =~= spec_tool(76).params);
        assert(r.recipe@ =~= spec_tool(76).recipe);
        r
    } else if i == 77 {
        let r = ToolDef {
            name: "ibmcloud_catalog_search",
            description: "Search the IBM Cloud catalog",
            params: vec![
                Param { name: "query", kind: ArgKind::Text, description: "Search query", required: true },
            ],
            recipe: vec![
                Step::Word("catalog"),
                Step::Word("search"),
                Step::Value("query"),
            ],
        };
        assert(r.params@ =~= spec_tool(77).params);
        assert(r.recipe@ =~= spec_tool(77).recipe);
        r
    } else if i == 78 {
        let r = ToolDef {
            name: "ibmcloud_catalog_service",
            description: "Show details of a catalog service",
            params: vec![
                Param { name: "service", kind: ArgKind::Text, description: "Service name", required: true },
            ],
            recipe: vec![
                Step::Word("catalog"),
                Step::Word("service"),
                Step::Value("service"),
            ],
        };
        assert(r.params@ =~= spec_tool(78).params);
        assert(r.recipe@ =~= spec_tool(78).recipe);
        r
    } else if i == 79 {
        let r = ToolDef {
            name: "ibmcloud_catalog_service_plans",
            description: "List plans for a catalog service",
            params: vec![
                Param { name: "service", kind: ArgKind::Text, description: "Service name", required: true },
            ],
            recipe: vec![
                Step::Word("catalog"),
                Step::Word("service"),
                Step::Value("service"),
            ],
        };
        assert(r.params@ =~= spec_tool(79).params);
        assert(r.recipe@ =~= spec_tool(79).recipe);
        r
    } else if i == 80 {
        let r = ToolDef {
            name: "ibmcloud_billing_account_usage",
            description: "Show account billing usage",
            params: vec![
                Param { name: "month", kind: ArgKind::Text, description: "Month (YYYY-MM)", required: false },
            ],
            recipe: vec![
                Step::Word("billing"),
                Step::Word("account-usage"),
                Step::FlagValue("-d", "month"),
            ],
        };
        assert(r.params@ =~= spec_tool(80).params);
        assert(r.recipe@ =~= spec_tool(80).recipe);
        r
    } else if i == 81 {
        let r = ToolDef {
            name: "ibmcloud_billing_resource_group_usage",
            description: "Show resource group billing usage",
            params: vec![
                Param { name: "resource_group", kind: ArgKind::Text, description: "Resource group name", required: true },
                Param { name: "month", kind: ArgKind::Text, description: "Month (YYYY-MM)", required: false },
            ],
            recipe: vec![
                Step::Word("billing"),
                Step::Word("resource-group-usage"),
                Step::Value("resource_group"),
                Step::FlagValue("-d", "month"),
            ],
        };
        assert(r.params@ =~= spec_tool(81).params);
        assert(r.recipe@ =~= spec_tool(81).recipe);
        r
    } else if i == 82 {
        let r = ToolDef {
            name: "ibmcloud_billing_resource_instances_usage",
            description: "Show billing for resource instances",
            params: vec![
                Param { name: "month", kind: ArgKind::Text, description: "Month (YYYY-MM)", required: false },
                Param { name: "resource_group", kind: ArgKind::Text, description: "Resource group filter", required: false },
            ],
            recipe: vec![
                Step::Word("billing"),
                Step::Word("resource-instances-usage"),
                Step::FlagValue("-d", "month"),
                Step::FlagValue("-g", "resource_group"),
            ],
        };
        assert(r.params@ =~= spec_tool(82).params);
        assert(r.recipe@ =~= spec_tool(82).recipe);
        r
    } else if i == 83 {
        let r = ToolDef {
            name: "ibmcloud_billing_org_usage",
            description: "Show Cloud Foundry org billing usage",
            params: vec![
                Param { name: "org", kind: ArgKind::Text, description: "Organization name", required: true },
                Param { name: "month", kind: ArgKind::Text, description: "Month (YYYY-MM)", required: false },
            ],
            recipe: vec![
                Step::Word("billing"),
                Step::Word("org-usage"),
                Step::Value("org"),
                Step::FlagValue("-d", "month"),
            ],
        };
        assert(r.params@ =~= spec_tool(83).params);
        assert(r.recipe@ =~= spec_tool(83).recipe);
        r
    } else if i == 84 {
        let r = ToolDef {
            name: "ibmcloud_plugin_list",
            description: "List installed CLI plugins",
            params: vec![],
            recipe: vec![
                Step::Word("plugin"),
                Step::Word("list"),
            ],
        };
        assert(r.params@ =~= spec_tool(84).params);
        assert(r.recipe@ =~= spec_tool(84).recipe);
        r
    } else if i == 85 {
        let r = ToolDef {
            name: "ibmcloud_plugin_repo_plugins",
            description: "List available plugins in the repository",
            params: vec![],
            recipe: vec![
                Step::Word("plugin"),
                Step::Word("repo-plugins"),
            ],
        };
        assert(r.params@ =~= spec_tool(85).params);
        assert(r.recipe@ =~= spec_tool(85).recipe);
        r
    } else if i == 86 {
        let r = ToolDef {
            name: "ibmcloud_plugin_install",
            description: "Install a CLI plugin",
            params: vec![
                Param { name: "plugin", kind: ArgKind::Text, description: "Plugin name", required: true },
                Param { name: "force", kind: ArgKind::Boolean, description: "Force reinstall", required: false },
            ],
            recipe: vec![
                Step::Word("plugin"),
                Step::Word("install"),
                Step::Value("plugin"),
                Step::Switch("-f", "force"),
            ],
        };
        assert(r.params@ =~= spec_tool(86).params);
        assert(r.recipe@ =~= spec_tool(86).recipe);
        r
    } else {
        let r = ToolDef {
            name: "ibmcloud_version",
            description: "Show IBM Cloud CLI version",
            params: vec![],
            recipe: vec![
                Step::Word("version"),
            ],
        };
        assert(r.params@ =~= spec_tool(87).params);
        assert(r.recipe@ =~= spec_tool(87).recipe);
        r
    }
}

pub(crate) proof fn lemma_tool_0()
    ensures
        schema_agrees(spec_tool(0)),
{
    let t = spec_tool(0);
    assert forall|k: int| 0 <= k < t.recipe.len() implies step_agrees(t, #[trigger] t.recipe[k]) by {
        if k == 0 {
        } else if k == 1 {
            assert(t.params[0].name@ == "apikey"@);
        } else if k == 2 {
            assert(t.params[1].name@ == "sso"@);
        } else {
            assert(t.params[2].name@ == "region"@);
        }
    }
    assert forall|j: int| 0 <= j < t.params.len() implies param_used(t, #[trigger] t.params[j]) by {
        if j == 0 {
            assert(step_reads(t.recipe[1]) matches Some((key, _)) && key@ == t.params[0].name@);
        } else if j == 1 {
            assert(step_reads(t.recipe[2]) matches Some((key, _)) && key@ == t.params[1].name@);
        } else {
            assert(step_reads(t.recipe[3]) matches Some((key, _)) && key@ == t.params[2].name@);
        }
    }
}

pub(crate) proof fn lemma_copied_0()
    ensures
        params_copied(spec_tool(0)),
{
    let t = spec_tool(0);
    assert forall|j: int| 0 <= j < t.params.len() implies param_copied(t, #[trigger] t.params[j]) by {
        if j == 0 {
            assert(step_copies(t.recipe[1], t.params[0]));
        } else if j == 1 {
        } else {
            assert(step_copies(t.recipe[3], t.params[2]));
        }
    }
}

pub(crate) proof fn lemma_param_names_0()
    ensures
        param_names_distinct(spec_tool(0)),
{
    let t = spec_tool(0);
    assert(t.params[0].name@ != t.params[1].name@) by {
        reveal_strlit("apikey");
        reveal_strlit("sso");
        assert("apikey"@.len() != "sso"@.len());
    }
    assert(t.params[0].name@ != t.params[2].name@) by {
        reveal_strlit("apikey");
        reveal_strlit("region");
        assert("apikey"@[0] != "region"@[0]);
    }
    assert(t.params[1].name@ != t.params[2].name@) by {
        reveal_strlit("sso");
        reveal_strlit("region");
        assert("sso"@.len() != "region"@.len());
    }
    assert forall|a: int, b: int| 0 <= a < t.params.len() && 0 <= b < t.params.len() && a != b implies (#[trigger] t.params[a]).name@ != (#[trigger] t.params[b]).name@ by {
        if a == 0 && b == 1 {
        } else if a == 0 && b == 2 {
        } else if a == 1 && b == 0 {
        } else if a == 1 && b == 2 {
        } else if a == 2 && b == 0 {
        } else if a == 2 && b == 1 {
        }
    }
}

pub(crate) proof fn lemma_tool_1()
    ensures
        schema_agrees(spec_tool(1)),
{
    let t = spec_tool(1);
    assert forall|k: int| 0 <= k < t.recipe.len() implies step_agrees(t, #[trigger] t.recipe[k]) by {
    }
}

pub(crate) proof fn lemma_tool_2()
    ensures
        schema_agrees(spec_tool(2)),
{
    let t = spec_tool(2);
    assert forall|k: int| 0 <= k < t.recipe.len() implies step_agrees(t, #[trigger] t.recipe[k]) by {
        if k == 0 {
        } else if k == 1 {
            assert(t.params[0].name@ == "region"@);
        } else if k == 2 {
            assert(t.params[1].name@ == "resource_group"@);
        } else if k == 3 {
            assert(t.params[2].name@ == "org"@);
        } else {
            assert(t.params[3].name@ == "space"@);
        }
    }
    assert forall|j: int| 0 <= j < t.params.len() implies param_used(t, #[trigger] t.params[j]) by {
        if j == 0 {
            assert(step_reads(t.recipe[1]) matches Some((key, _)) && key@ == t.params[0].name@);
        } else if j == 1 {
            assert(step_reads(t.recipe[2]) matches Some((key, _)) && key@ == t.params[1].name@);
        } else if j == 2 {
            assert(step_reads(t.recipe[3]) matches Some((key, _)) && key@ == t.params[2].name@);
        } else {
            assert(step_reads(t.recipe[4]) matches Some((key, _)) && key@ == t.params[3].name@);
        }
    }
}

pub(crate) proof fn lemma_copied_2()
    ensures
        params_copied(spec_tool(2)),
{
    let t = spec_tool(2);
    assert forall|j: int| 0 <= j < t.params.len() implies param_copied(t, #[trigger] t.params[j]) by {
        if j == 0 {
            assert(step_copies(t.recipe[1], t.params[0]));
        } else if j == 1 {
            assert(step_copies(t.recipe[2], t.params[1]));
        } else if j == 2 {
            assert(step_copies(t.recipe[3], t.params[2]));
        } else {
            assert(step_copies(t.recipe[4], t.params[3]));
        }
    }
}

pub(crate) proof fn lemma_param_names_2()
    ensures
        param_names_distinct(spec_tool(2)),
{
    let t = spec_tool(2);
    assert(t.params[0].name@ != t.params[1].name@) by {
        reveal_strlit("region");
        reveal_strlit("resource_group");
        assert("region"@.len() != "resource_group"@.len());
    }
    assert(t.params[0].name@ != t.params[2].name@) by {
        reveal_strlit("region");
        reveal_strlit("org");
        assert("region"@.len() != "org"@.len());
    }
    assert(t.params[0].name@ != t.params[3].name@) by {
        reveal_strlit("region");
        reveal_strlit("space");
        assert("region"@.len() != "space"@.len());
    }
    assert(t.params[1].name@ != t.params[2].name@) by {
        reveal_strlit("resource_group");
        reveal_strlit("org");
        assert("resource_group"@.len() != "org"@.len());
    }
    assert(t.params[1].name@ != t.params[3].name@) by {
        reveal_strlit("resource_group");
        reveal_strlit("space");
        assert("resource_group"@.len() != "space"@.len());
    }
    assert(t.params[2].name@ != t.params[3].name@) by {
        reveal_strlit("org");
        reveal_strlit("space");
        assert("org"@.len() != "space"@.len());
    }
    assert forall|a: int, b: int| 0 <= a < t.params.len() && 0 <= b < t.params.len() && a != b implies (#[trigger] t.params[a]).name@ != (#[trigger] t.params[b]).name@ by {
        if a == 0 && b == 1 {
        } else if a == 0 && b == 2 {
        } else if a == 0 && b == 3 {
        } else if a == 1 && b == 0 {
        } else if a == 1 && b == 2 {
        } else if a == 1 && b == 3 {
        } else if a == 2 && b == 0 {
        } else if a == 2 && b == 1 {
        } else if a == 2 && b == 3 {
        } else if a == 3 && b == 0 {
        } else if a == 3 && b == 1 {
        } else if a == 3 && b == 2 {
        }
    }
}

pub(crate) proof fn lemma_tool_3()
    ensures
        schema_agrees(spec_tool(3)),
{
    let t = spec_tool(3);
    assert forall|k: int| 0 <= k < t.recipe.len() implies step_agrees(t, #[trigger] t.recipe[k]) by {
        if k == 0 {
        } else {
            assert(t.params[0].name@ == "endpoint"@);
        }
    }
    assert forall|j: int| 0 <= j < t.params.len() implies param_used(t, #[trigger] t.params[j]) by {
        assert(step_reads(t.recipe[1]) matches Some((key, _)) && key@ == t.params[0].name@);
    }
}

pub(crate) proof fn lemma_copied_3()
    ensures
        params_copied(spec_tool(3)),
{
    let t = spec_tool(3);
    assert forall|j: int| 0 <= j < t.params.len() implies param_copied(t, #[trigger] t.params[j]) by {
        assert(step_copies(t.recipe[1], t.params[0]));
    }
}

pub(crate) proof fn lemma_tool_4()
    ensures
        schema_agrees(spec_tool(4)),
{
    let t = spec_tool(4);
    assert forall|k: int| 0 <= k < t.recipe.len() implies step_agrees(t, #[trigger] t.recipe[k]) by {
    }
}

pub(crate) proof fn lemma_tool_5()
    ensures
        schema_agrees(spec_tool(5)),
{
    let t = spec_tool(5);
    assert forall|k: int| 0 <= k < t.recipe.len() implies step_agrees(t, #[trigger] t.recipe[k]) by {
        if k == 0 {
        } else {
        }
    }
}

pub(crate) proof fn lemma_tool_6()
    ensures
        schema_agrees(spec_tool(6)),
{
    let t = spec_tool(6);
    assert forall|k: int| 0 <= k < t.recipe.len() implies step_agrees(t, #[trigger] t.recipe[k]) by {
        if k == 0 {
        } else {
        }
    }
}

pub(crate) proof fn lemma_tool_7()
    ensures
        schema_agrees(spec_tool(7)),
{
    let t = spec_tool(7);
    assert forall|k: int| 0 <= k < t.recipe.len() implies step_agrees(t, #[trigger] t.recipe[k]) by {
        if k == 0 {
        } else {
        }
    }
}

pub(crate) proof fn lemma_tool_8()
    ensures
        schema_agrees(spec_tool(8)),
{
    let t = spec_tool(8);
    assert forall|k: int| 0 <= k < t.recipe.len() implies step_agrees(t, #[trigger] t.recipe[k]) by {
        if k == 0 {
        } else {
        }
    }
}

pub(crate) proof fn lemma_tool_9()
    ensures
        schema_agrees(spec_tool(9)),
{
    let t = spec_tool(9);
    assert forall|k: int| 0 <= k < t.recipe.len() implies step_agrees(t, #[trigger] t.recipe[k]) by {
        if k == 0 {
        } else if k == 1 {
        } else {
            assert(t.params[0].name@ == "name"@);
        }
    }
    assert forall|j: int| 0 <= j < t.params.len() implies param_used(t, #[trigger] t.params[j]) by {
        assert(step_reads(t.recipe[2]) matches Some((key, _)) && key@ == t.params[0].name@);
    }
}

pub(crate) proof fn lemma_copied_9()
    ensures
        params_copied(spec_tool(9)),
{
    let t = spec_tool(9);
    assert forall|j: int| 0 <= j < t.params.len() implies param_copied(t, #[trigger] t.params[j]) by {
        assert(step_copies(t.recipe[2], t.params[0]));
    }
}

pub(crate) proof fn lemma_tool_10()
    ensures
        schema_agrees(spec_tool(10)),
{
    let t = spec_tool(10);
    assert forall|k: int| 0 <= k < t.recipe.len() implies step_agrees(t, #[trigger] t.recipe[k]) by {
        if k == 0 {
        } else if k == 1 {
        } else if k == 2 {
            assert(t.params[0].name@ == "service_name"@);
        } else {
            assert(t.params[1].name@ == "resource_group"@);
        }
    }
    assert forall|j: int| 0 <= j < t.params.len() implies param_used(t, #[trigger] t.params[j]) by {
        if j == 0 {
            assert(step_reads(t.recipe[2]) matches Some((key, _)) && key@ == t.params[0].name@);
        } else {
            assert(step_reads(t.recipe[3]) matches Some((key, _)) && key@ == t.params[1].name@);
        }
    }
}

pub(crate) proof fn lemma_copied_10()
    ensures
        params_copied(spec_tool(10)),
{
    let t = spec_tool(10);
    assert forall|j: int| 0 <= j < t.params.len() implies param_copied(t, #[trigger] t.params[j]) by {
        if j == 0 {
            assert(step_copies(t.recipe[2], t.params[0]));
        } else {
            assert(step_copies(t.recipe[3], t.params[1]));
        }
    }
}

pub(crate) proof fn lemma_param_names_10()
    ensures
        param_names_distinct(spec_tool(10)),
{
    let t = spec_tool(10);
    assert(t.params[0].name@ != t.params[1].name@) by {
        reveal_strlit("service_name");
        reveal_strlit("resource_group");
        assert("service_name"@.len() != "resource_group"@.len());
    }
    assert forall|a: int, b: int| 0 <= a < t.params.len() && 0 <= b < t.params.len() && a != b implies (#[trigger] t.params[a]).name@ != (#[trigger] t.params[b]).name@ by {
        if a == 0 && b == 1 {
        } else if a == 1 && b == 0 {
        }
    }
}

pub(crate) proof fn lemma_tool_11()
    ensures
        schema_agrees(spec_tool(11)),
{
    let t = spec_tool(11);
    assert forall|k: int| 0 <= k < t.recipe.len() implies step_agrees(t, #[trigger] t.recipe[k]) by {
        if k == 0 {
        } else if k == 1 {
        } else {
            assert(t.params[0].name@ == "name"@);
        }
    }
    assert forall|j: int| 0 <= j < t.params.len() implies param_used(t, #[trigger] t.params[j]) by {
        assert(step_reads(t.recipe[2]) matches Some((key, _)) && key@ == t.params[0].name@);
    }
}

pub(crate) proof fn lemma_copied_11()
    ensures
        params_copied(spec_tool(11)),
{
    let t = spec_tool(11);
    assert forall|j: int| 0 <= j < t.params.len() implies param_copied(t, #[trigger] t.params[j]) by {
        assert(step_copies(t.recipe[2], t.params[0]));
    }
}

pub(crate) proof fn lemma_tool_12()
    ensures
        schema_agrees(spec_tool(12)),
{
    let t = spec_tool(12);
    assert forall|k: int| 0 <= k < t.recipe.len() implies step_agrees(t, #[trigger] t.recipe[k]) by {
        if k == 0 {
        } else if k == 1 {
        } else if k == 2 {
            assert(t.params[0].name@ == "name"@);
        } else if k == 3 {
            assert(t.params[1].name@ == "service"@);
        } else if k == 4 {
            assert(t.params[2].name@ == "plan"@);
        } else if k == 5 {
            assert(t.params[3].name@ == "location"@);
        } else if k == 6 {
            assert(t.params[4].name@ == "resource_group"@);
        } else {
            assert(t.params[5].name@ == "parameters"@);
        }
    }
    assert forall|j: int| 0 <= j < t.params.len() implies param_used(t, #[trigger] t.params[j]) by {
        if j == 0 {
            assert(step_reads(t.recipe[2]) matches Some((key, _)) && key@ == t.params[0].name@);
        } else if j == 1 {
            assert(step_reads(t.recipe[3]) matches Some((key, _)) && key@ == t.params[1].name@);
        } else if j == 2 {
            assert(step_reads(t.recipe[4]) matches Some((key, _)) && key@ == t.params[2].name@);
        } else if j == 3 {
            assert(step_reads(t.recipe[5]) matches Some((key, _)) && key@ == t.params[3].name@);
        } else if j == 4 {
            assert(step_reads(t.recipe[6]) matches Some((key, _)) && key@ == t.params[4].name@);
        } else {
            assert(step_reads(t.recipe[7]) matches Some((key, _)) && key@ == t.params[5].name@);
        }
    }
}

pub(crate) proof fn lemma_copied_12()
    ensures
        params_copied(spec_tool(12)),
{
    let t = spec_tool(12);
    assert forall|j: int| 0 <= j < t.params.len() implies param_copied(t, #[trigger] t.params[j]) by {
        if j == 0 {
            assert(step_copies(t.recipe[2], t.params[0]));
        } else if j == 1 {
            assert(step_copies(t.recipe[3], t.params[1]));
        } else if j == 2 {
            assert(step_copies(t.recipe[4], t.params[2]));
        } else if j == 3 {
            assert(step_copies(t.recipe[5], t.params[3]));
        } else if j == 4 {
            assert(step_copies(t.recipe[6], t.params[4]));
        } else {
            assert(step_copies(t.recipe[7], t.params[5]));
        }
    }
}

pub(crate) proof fn lemma_param_names_12()
    ensures
        param_names_distinct(spec_tool(12)),
{
    let t = spec_tool(12);
    assert(t.params[0].name@ != t.params[1].name@) by {
        reveal_strlit("name");
        reveal_strlit("service");
        assert("name"@.len() != "service"@.len());
    }
    assert(t.params[0].name@ != t.params[2].name@) by {
        reveal_strlit("name");
        reveal_strlit("plan");
        assert("name"@[0] != "plan"@[0]);
    }
    assert(t.params[0].name@ != t.params[3].name@) by {
        reveal_strlit("name");
        reveal_strlit("location");
        assert("name"@.len() != "location"@.len());
    }
    assert(t.params[0].name@ != t.params[4].name@) by {
        reveal_strlit("name");
        reveal_strlit("resource_group");
        assert("name"@.len() != "resource_group"@.len());
    }
    assert(t.params[0].name@ != t.params[5].name@) by {
        reveal_strlit("name");
        reveal_strlit("parameters");
        assert("name"@.len() != "parameters"@.len());
    }
    assert(t.params[1].name@ != t.params[2].name@) by {
        reveal_strlit("service");
        reveal_strlit("plan");
        assert("service"@.len() != "plan"@.len());
    }
    assert(t.params[1].name@ != t.params[3].name@) by {
        reveal_strlit("service");
        reveal_strlit("location");
        assert("service"@.len() != "location"@.len());
    }
    assert(t.params[1].name@ != t.params[4].name@) by {
        reveal_strlit("service");
        reveal_strlit("resource_group");
        assert("service"@.len() != "resource_group"@.len());
    }
    assert(t.params[1].name@ != t.params[5].name@) by {
        reveal_strlit("service");
        reveal_strlit("parameters");
        assert("service"@.len() != "parameters"@.len());
    }
    assert(t.params[2].name@ != t.params[3].name@) by {
        reveal_strlit("plan");
        reveal_strlit("location");
        assert("plan"@.len() != "location"@.len());
    }
    assert(t.params[2].name@ != t.params[4].name@) by {
        reveal_strlit("plan");
        reveal_strlit("resource_group");
        assert("plan"@.len() != "resource_group"@.len());
    }
    assert(t.params[2].name@ != t.params[5].name@) by {
        reveal_strlit("plan");
        reveal_strlit("parameters");
        assert("plan"@.len() != "parameters"@.len());
    }
    assert(t.params[3].name@ != t.params[4].name@) by {
        reveal_strlit("location");
        reveal_strlit("resource_group");
        assert("location"@.len() != "resource_group"@.len());
    }
    assert(t.params[3].name@ != t.params[5].name@) by {
        reveal_strlit("location");
        reveal_strlit("parameters");
        assert("location"@.len() != "parameters"@.len());
    }
    assert(t.params[4].name@ != t.params[5].name@) by {
        reveal_strlit("resource_group");
        reveal_strlit("parameters");
        assert("resource_group"@.len() != "parameters"@.len());
    }
    assert forall|a: int, b: int| 0 <= a < t.params.len() && 0 <= b < t.params.len() && a != b implies (#[trigger] t.params[a]).name@ != (#[trigger] t.params[b]).name@ by {
        if a == 0 && b == 1 {
        } else if a == 0 && b == 2 {
        } else if a == 0 && b == 3 {
        } else if a == 0 && b == 4 {
        } else if a == 0 && b == 5 {
        } else if a == 1 && b == 0 {
        } else if a == 1 && b == 2 {
        } else if a == 1 && b == 3 {
        } else if a == 1 && b == 4 {
        } else if a == 1 && b == 5 {
        } else if a == 2 && b == 0 {
        } else if a == 2 && b == 1 {
        } else if a == 2 && b == 3 {
        } else if a == 2 && b == 4 {
        } else if a == 2 && b == 5 {
        } else if a == 3 && b == 0 {
        } else if a == 3 && b == 1 {
        } else if a == 3 && b == 2 {
        } else if a == 3 && b == 4 {
        } else if a == 3 && b == 5 {
        } else if a == 4 && b == 0 {
        } else if a == 4 && b == 1 {
        } else if a == 4 && b == 2 {
        } else if a == 4 && b == 3 {
        } else if a == 4 && b == 5 {
        } else if a == 5 && b == 0 {
        } else if a == 5 && b == 1 {
        } else if a == 5 && b == 2 {
        } else if a == 5 && b == 3 {
        } else if a == 5 && b == 4 {
        }
    }
}

pub(crate) proof fn lemma_tool_13()
    ensures
        schema_agrees(spec_tool(13)),
{
    let t = spec_tool(13);
    assert forall|k: int| 0 <= k < t.recipe.len() implies step_agrees(t, #[trigger] t.recipe[k]) by {
        if k == 0 {
        } else if k == 1 {
        } else if k == 2 {
            assert(t.params[0].name@ == "name"@);
        } else {
            assert(t.params[1].name@ == "force"@);
        }
    }
    assert forall|j: int| 0 <= j < t.params.len() implies param_used(t, #[trigger] t.params[j]) by {
        if j == 0 {
            assert(step_reads(t.recipe[2]) matches Some((key, _)) && key@ == t.params[0].name@);
        } else {
            assert(step_reads(t.recipe[3]) matches Some((key, _)) && key@ == t.params[1].name@);
        }
    }
}

pub(crate) proof fn lemma_copied_13()
    ensures
        params_copied(spec_tool(13)),
{
    let t = spec_tool(13);
    assert forall|j: int| 0 <= j < t.params.len() implies param_copied(t, #[trigger] t.params[j]) by {
        if j == 0 {
            assert(step_copies(t.recipe[2], t.params[0]));
        } else {
        }
    }
}

pub(crate) proof fn lemma_param_names_13()
    ensures
        param_names_distinct(spec_tool(13)),
{
    let t = spec_tool(13);
    assert(t.params[0].name@ != t.params[1].name@) by {
        reveal_strlit("name");
        reveal_strlit("force");
        assert("name"@.len() != "force"@.len());
    }
    assert forall|a: int, b: int| 0 <= a < t.params.len() && 0 <= b < t.params.len() && a != b implies (#[trigger] t.params[a]).name@ != (#[trigger] t.params[b]).name@ by {
        if a == 0 && b == 1 {
        } else if a == 1 && b == 0 {
        }
    }
}

pub(crate) proof fn lemma_tool_14()
    ensures
        schema_agrees(spec_tool(14)),
{
    let t = spec_tool(14);
    assert forall|k: int| 0 <= k < t.recipe.len() implies step_agrees(t, #[trigger] t.recipe[k]) by {
        if k == 0 {
        } else if k == 1 {
        } else if k == 2 {
            assert(t.params[0].name@ == "name"@);
        } else if k == 3 {
            assert(t.params[1].name@ == "new_name"@);
        } else if k == 4 {
            assert(t.params[2].name@ == "plan"@);
        } else {
            assert(t.params[3].name@ == "parameters"@);
        }
    }
    assert forall|j: int| 0 <= j < t.params.len() implies param_used(t, #[trigger] t.params[j]) by {
        if j == 0 {
            assert(step_reads(t.recipe[2]) matches Some((key, _)) && key@ == t.params[0].name@);
        } else if j == 1 {
            assert(step_reads(t.recipe[3]) matches Some((key, _)) && key@ == t.params[1].name@);
        } else if j == 2 {
            assert(step_reads(t.recipe[4]) matches Some((key, _)) && key@ == t.params[2].name@);
        } else {
            assert(step_reads(t.recipe[5]) matches Some((key, _)) && key@ == t.params[3].name@);
        }
    }
}

pub(crate) proof fn lemma_copied_14()
    ensures
        params_copied(spec_tool(14)),
{
    let t = spec_tool(14);
    assert forall|j: int| 0 <= j < t.params.len() implies param_copied(t, #[trigger] t.params[j]) by {
        if j == 0 {
            assert(step_copies(t.recipe[2], t.params[0]));
        } else if j == 1 {
            assert(step_copies(t.recipe[3], t.params[1]));
        } else if j == 2 {
            assert(step_copies(t.recipe[4], t.params[2]));
        } else {
            assert(step_copies(t.recipe[5], t.params[3]));
        }
    }
}

pub(crate) proof fn lemma_param_names_14()
    ensures
        param_names_distinct(spec_tool(14)),
{
    let t = spec_tool(14);
    assert(t.params[0].name@ != t.params[1].name@) by {
        reveal_strlit("name");
        reveal_strlit("new_name");
        assert("name"@.len() != "new_name"@.len());
    }
    assert(t.params[0].name@ != t.params[2].name@) by {
        reveal_strlit("name");
        reveal_strlit("plan");
        assert("name"@[0] != "plan"@[0]);
    }
    assert(t.params[0].name@ != t.params[3].name@) by {
        reveal_strlit("name");
        reveal_strlit("parameters");
        assert("name"@.len() != "parameters"@.len());
    }
    assert(t.params[1].name@ != t.params[2].name@) by {
        reveal_strlit("new_name");
        reveal_strlit("plan");
        assert("new_name"@.len() != "plan"@.len());
    }
    assert(t.params[1].name@ != t.params[3].name@) by {
        reveal_strlit("new_name");
        reveal_strlit("parameters");
        assert("new_name"@.len() != "parameters"@.len());
    }
    assert(t.params[2].name@ != t.params[3].name@) by {
        reveal_strlit("plan");
        reveal_strlit("parameters");
        assert("plan"@.len() != "parameters"@.len());
    }
    assert forall|a: int, b: int| 0 <= a < t.params.len() && 0 <= b < t.params.len() && a != b implies (#[trigger] t.params[a]).name@ != (#[trigger] t.params[b]).name@ by {
        if a == 0 && b == 1 {
        } else if a == 0 && b == 2 {
        } else if a == 0 && b == 3 {
        } else if a == 1 && b == 0 {
        } else if a == 1 && b == 2 {
        } else if a == 1 && b == 3 {
        } else if a == 2 && b == 0 {
        } else if a == 2 && b == 1 {
        } else if a == 2 && b == 3 {
        } else if a == 3 && b == 0 {
        } else if a == 3 && b == 1 {
        } else if a == 3 && b == 2 {
        }
    }
}

pub(crate) proof fn lemma_tool_15()
    ensures
        schema_agrees(spec_tool(15)),
{
    let t = spec_tool(15);
    assert forall|k: int| 0 <= k < t.recipe.len() implies step_agrees(t, #[trigger] t.recipe[k]) by {
        if k == 0 {
        } else if k == 1 {
        } else {
            assert(t.params[0].name@ == "instance"@);
        }
    }
    assert forall|j: int| 0 <= j < t.params.len() implies param_used(t, #[trigger] t.params[j]) by {
        assert(step_reads(t.recipe[2]) matches Some((key, _)) && key@ == t.params[0].name@);
    }
}

pub(crate) proof fn lemma_copied_15()
    ensures
        params_copied(spec_tool(15)),
{
    let t = spec_tool(15);
    assert forall|j: int| 0 <= j < t.params.len() implies param_copied(t, #[trigger] t.params[j]) by {
        assert(step_copies(t.recipe[2], t.params[0]));
    }
}

pub(crate) proof fn lemma_tool_16()
    ensures
        schema_agrees(spec_tool(16)),
{
    let t = spec_tool(16);
    assert forall|k: int| 0 <= k < t.recipe.len() implies step_agrees(t, #[trigger] t.recipe[k]) by {
        if k == 0 {
        } else if k == 1 {
        } else {
            assert(t.params[0].name@ == "name"@);
        }
    }
    assert forall|j: int| 0 <= j < t.params.len() implies param_used(t, #[trigger] t.params[j]) by {
        assert(step_reads(t.recipe[2]) matches Some((key, _)) && key@ == t.params[0].name@);
    }
}

pub(crate) proof fn lemma_copied_16()
    ensures
        params_copied(spec_tool(16)),
{
    let t = spec_tool(16);
    assert forall|j: int| 0 <= j < t.params.len() implies param_copied(t, #[trigger] t.params[j]) by {
        assert(step_copies(t.recipe[2], t.params[0]));
    }
}

pub(crate) proof fn lemma_tool_17()
    ensures
        schema_agrees(spec_tool(17)),
{
    let t = spec_tool(17);
    assert forall|k: int| 0 <= k < t.recipe.len() implies step_agrees(t, #[trigger] t.recipe[k]) by {
        if k == 0 {
        } else if k == 1 {
        } else if k == 2 {
            assert(t.params[0].name@ == "name"@);
        } else if k == 3 {
        } else if k == 4 {
            assert(t.params[1].name@ == "instance"@);
        } else if k == 5 {
            assert(t.params[2].name@ == "role"@);
        } else {
            assert(t.params[3].name@ == "parameters"@);
        }
    }
    assert forall|j: int| 0 <= j < t.params.len() implies param_used(t, #[trigger] t.params[j]) by {
        if j == 0 {
            assert(step_reads(t.recipe[2]) matches Some((key, _)) && key@ == t.params[0].name@);
        } else if j == 1 {
            assert(step_reads(t.recipe[4]) matches Some((key, _)) && key@ == t.params[1].name@);
        } else if j == 2 {
            assert(step_reads(t.recipe[5]) matches Some((key, _)) && key@ == t.params[2].name@);
        } else {
            assert(step_reads(t.recipe[6]) matches Some((key, _)) && key@ == t.params[3].name@);
        }
    }
}

pub(crate) proof fn lemma_copied_17()
    ensures
        params_copied(spec_tool(17)),
{
    let t = spec_tool(17);
    assert forall|j: int| 0 <= j < t.params.len() implies param_copied(t, #[trigger] t.params[j]) by {
        if j == 0 {
            assert(step_copies(t.recipe[2], t.params[0]));
        } else if j == 1 {
            assert(step_copies(t.recipe[4], t.params[1]));
        } else if j == 2 {
            assert(step_copies(t.recipe[5], t.params[2]));
        } else {
            assert(step_copies(t.recipe[6], t.params[3]));
        }
    }
}

pub(crate) proof fn lemma_param_names_17()
    ensures
        param_names_distinct(spec_tool(17)),
{
    let t = spec_tool(17);
    assert(t.params[0].name@ != t.params[1].name@) by {
        reveal_strlit("name");
        reveal_strlit("instance");
        assert("name"@.len() != "instance"@.len());
    }
    assert(t.params[0].name@ != t.params[2].name@) by {
        reveal_strlit("name");
        reveal_strlit("role");
        assert("name"@[0] != "role"@[0]);
    }
    assert(t.params[0].name@ != t.params[3].name@) by {
        reveal_strlit("name");
        reveal_strlit("parameters");
        assert("name"@.len() != "parameters"@.len());
    }
    assert(t.params[1].name@ != t.params[2].name@) by {
        reveal_strlit("instance");
        reveal_strlit("role");
        assert("instance"@.len() != "role"@.len());
    }
    assert(t.params[1].name@ != t.params[3].name@) by {
        reveal_strlit("instance");
        reveal_strlit("parameters");
        assert("instance"@.len() != "parameters"@.len());
    }
    assert(t.params[2].name@ != t.params[3].name@) by {
        reveal_strlit("role");
        reveal_strlit("parameters");
        assert("role"@.len() != "parameters"@.len());
    }
    assert forall|a: int, b: int| 0 <= a < t.params.len() && 0 <= b < t.params.len() && a != b implies (#[trigger] t.params[a]).name@ != (#[trigger] t.params[b]).name@ by {
        if a == 0 && b == 1 {
        } else if a == 0 && b == 2 {
        } else if a == 0 && b == 3 {
        } else if a == 1 && b == 0 {
        } else if a == 1 && b == 2 {
        } else if a == 1 && b == 3 {
        } else if a == 2 && b == 0 {
        } else if a == 2 && b == 1 {
        } else if a == 2 && b == 3 {
        } else if a == 3 && b == 0 {
        } else if a == 3 && b == 1 {
        } else if a == 3 && b == 2 {
        }
    }
}

pub(crate) proof fn lemma_tool_18()
    ensures
        schema_agrees(spec_tool(18)),
{
    let t = spec_tool(18);
    assert forall|k: int| 0 <= k < t.recipe.len() implies step_agrees(t, #[trigger] t.recipe[k]) by {
        if k == 0 {
        } else if k == 1 {
        } else if k == 2 {
            assert(t.params[0].name@ == "name"@);
        } else {
            assert(t.params[1].name@ == "force"@);
        }
    }
    assert forall|j: int| 0 <= j < t.params.len() implies param_used(t, #[trigger] t.params[j]) by {
        if j == 0 {
            assert(step_reads(t.recipe[2]) matches Some((key, _)) && key@ == t.params[0].name@);
        } else {
            assert(step_reads(t.recipe[3]) matches Some((key, _)) && key@ == t.params[1].name@);
        }
    }
}

pub(crate) proof fn lemma_copied_18()
    ensures
        params_copied(spec_tool(18)),
{
    let t = spec_tool(18);
    assert forall|j: int| 0 <= j < t.params.len() implies param_copied(t, #[trigger] t.params[j]) by {
        if j == 0 {
            assert(step_copies(t.recipe[2], t.params[0]));
        } else {
        }
    }
}

pub(crate) proof fn lemma_param_names_18()
    ensures
        param_names_distinct(spec_tool(18)),
{
    let t = spec_tool(18);
    assert(t.params[0].name@ != t.params[1].name@) by {
        reveal_strlit("name");
        reveal_strlit("force");
        assert("name"@.len() != "force"@.len());
    }
    assert forall|a: int, b: int| 0 <= a < t.params.len() && 0 <= b < t.params.len() && a != b implies (#[trigger] t.params[a]).name@ != (#[trigger] t.params[b]).name@ by {
        if a == 0 && b == 1 {
        } else if a == 1 && b == 0 {
        }
    }
}

pub(crate) proof fn lemma_tool_19()
    ensures
        schema_agrees(spec_tool(19)),
{
    let t = spec_tool(19);
    assert forall|k: int| 0 <= k < t.recipe.len() implies step_agrees(t, #[trigger] t.recipe[k]) by {
        if k == 0 {
        } else if k == 1 {
        } else {
            assert(t.params[0].name@ == "query"@);
        }
    }
    assert forall|j: int| 0 <= j < t.params.len() implies param_used(t, #[trigger] t.params[j]) by {
        assert(step_reads(t.recipe[2]) matches Some((key, _)) && key@ == t.params[0].name@);
    }
}

pub(crate) proof fn lemma_copied_19()
    ensures
        params_copied(spec_tool(19)),
{
    let t = spec_tool(19);
    assert forall|j: int| 0 <= j < t.params.len() implies param_copied(t, #[trigger] t.params[j]) by {
        assert(step_copies(t.recipe[2], t.params[0]));
    }
}

pub(crate) proof fn lemma_tool_20()
    ensures
        schema_agrees(spec_tool(20)),
{
    let t = spec_tool(20);
    assert forall|k: int| 0 <= k < t.recipe.len() implies step_agrees(t, #[trigger] t.recipe[k]) by {
        if k == 0 {
        } else if k == 1 {
        } else if k == 2 {
            assert(t.params[0].name@ == "resource_id"@);
        } else {
            assert(t.params[0].name@ == "resource_id"@);
        }
    }
    assert forall|j: int| 0 <= j < t.params.len() implies param_used(t, #[trigger] t.params[j]) by {
        assert(step_reads(t.recipe[2]) matches Some((key, _)) && key@ == t.params[0].name@);
    }
}

pub(crate) proof fn lemma_tool_21()
    ensures
        schema_agrees(spec_tool(21)),
{
    let t = spec_tool(21);
    assert forall|k: int| 0 <= k < t.recipe.len() implies step_agrees(t, #[trigger] t.recipe[k]) by {
        if k == 0 {
        } else if k == 1 {
        } else if k == 2 {
        } else if k == 3 {
            assert(t.params[0].name@ == "tags"@);
        } else if k == 4 {
        } else {
            assert(t.params[1].name@ == "resource_id"@);
        }
    }
    assert forall|j: int| 0 <= j < t.params.len() implies param_used(t, #[trigger] t.params[j]) by {
        if j == 0 {
            assert(step_reads(t.recipe[3]) matches Some((key, _)) && key@ == t.params[0].name@);
        } else {
            assert(step_reads(t.recipe[5]) matches Some((key, _)) && key@ == t.params[1].name@);
        }
    }
}

pub(crate) proof fn lemma_copied_21()
    ensures
        params_copied(spec_tool(21)),
{
    let t = spec_tool(21);
    assert forall|j: int| 0 <= j < t.params.len() implies param_copied(t, #[trigger] t.params[j]) by {
        if j == 0 {
            assert(step_copies(t.recipe[3], t.params[0]));
        } else {
            assert(step_copies(t.recipe[5], t.params[1]));
        }
    }
}

pub(crate) proof fn lemma_param_names_21()
    ensures
        param_names_distinct(spec_tool(21)),
{
    let t = spec_tool(21);
    assert(t.params[0].name@ != t.params[1].name@) by {
        reveal_strlit("tags");
        reveal_strlit("resource_id");
        assert("tags"@.len() != "resource_id"@.len());
    }
    assert forall|a: int, b: int| 0 <= a < t.params.len() && 0 <= b < t.params.len() && a != b implies (#[trigger] t.params[a]).name@ != (#[trigger] t.params[b]).name@ by {
        if a == 0 && b == 1 {
        } else if a == 1 && b == 0 {
        }
    }
}

pub(crate) proof fn lemma_tool_22()
    ensures
        schema_agrees(spec_tool(22)),
{
    let t = spec_tool(22);
    assert forall|k: int| 0 <= k < t.recipe.len() implies step_agrees(t, #[trigger] t.recipe[k]) by {
        if k == 0 {
        } else {
        }
    }
}

pub(crate) proof fn lemma_tool_23()
    ensures
        schema_agrees(spec_tool(23)),
{
    let t = spec_tool(23);
    assert forall|k: int| 0 <= k < t.recipe.len() implies step_agrees(t, #[trigger] t.recipe[k]) by {
        if k == 0 {
        } else if k == 1 {
        } else {
            assert(t.params[0].name@ == "org"@);
        }
    }
    assert forall|j: int| 0 <= j < t.params.len() implies param_used(t, #[trigger] t.params[j]) by {
        assert(step_reads(t.recipe[2]) matches Some((key, _)) && key@ == t.params[0].name@);
    }
}

pub(crate) proof fn lemma_copied_23()
    ensures
        params_copied(spec_tool(23)),
{
    let t = spec_tool(23);
    assert forall|j: int| 0 <= j < t.params.len() implies param_copied(t, #[trigger] t.params[j]) by {
        assert(step_copies(t.recipe[2], t.params[0]));
    }
}

pub(crate) proof fn lemma_tool_24()
    ensures
        schema_agrees(spec_tool(24)),
{
    let t = spec_tool(24);
    assert forall|k: int| 0 <= k < t.recipe.len() implies step_agrees(t, #[trigger] t.recipe[k]) by {
        if k == 0 {
        } else {
        }
    }
}

pub(crate) proof fn lemma_tool_25()
    ensures
        schema_agrees(spec_tool(25)),
{
    let t = spec_tool(25);
    assert forall|k: int| 0 <= k < t.recipe.len() implies step_agrees(t, #[trigger] t.recipe[k]) by {
        if k == 0 {
        } else if k == 1 {
        } else {
            assert(t.params[0].name@ == "name"@);
        }
    }
    assert forall|j: int| 0 <= j < t.params.len() implies param_used(t, #[trigger] t.params[j]) by {
        assert(step_reads(t.recipe[2]) matches Some((key, _)) && key@ == t.params[0].name@);
    }
}

pub(crate) proof fn lemma_copied_25()
    ensures
        params_copied(spec_tool(25)),
{
    let t = spec_tool(25);
    assert forall|j: int| 0 <= j < t.params.len() implies param_copied(t, #[trigger] t.params[j]) by {
        assert(step_copies(t.recipe[2], t.params[0]));
    }
}

pub(crate) proof fn lemma_tool_26()
    ensures
        schema_agrees(spec_tool(26)),
{
    let t = spec_tool(26);
    assert forall|k: int| 0 <= k < t.recipe.len() implies step_agrees(t, #[trigger] t.recipe[k]) by {
        if k == 0 {
        } else if k == 1 {
        } else if k == 2 {
            assert(t.params[0].name@ == "name"@);
        } else if k == 3 {
            assert(t.params[1].name@ == "path"@);
        } else if k == 4 {
            assert(t.params[2].name@ == "manifest"@);
        } else if k == 5 {
            assert(t.params[3].name@ == "memory"@);
        } else if k == 6 {
            assert(t.params[4].name@ == "instances"@);
        } else if k == 7 {
            assert(t.params[5].name@ == "buildpack"@);
        } else {
            assert(t.params[6].name@ == "docker_image"@);
        }
    }
    assert forall|j: int| 0 <= j < t.params.len() implies param_used(t, #[trigger] t.params[j]) by {
        if j == 0 {
            assert(step_reads(t.recipe[2]) matches Some((key, _)) && key@ == t.params[0].name@);
        } else if j == 1 {
            assert(step_reads(t.recipe[3]) matches Some((key, _)) && key@ == t.params[1].name@);
        } else if j == 2 {
            assert(step_reads(t.recipe[4]) matches Some((key, _)) && key@ == t.params[2].name@);
        } else if j == 3 {
            assert(step_reads(t.recipe[5]) matches Some((key, _)) && key@ == t.params[3].name@);
        } else if j == 4 {
            assert(step_reads(t.recipe[6]) matches Some((key, _)) && key@ == t.params[4].name@);
        } else if j == 5 {
            assert(step_reads(t.recipe[7]) matches Some((key, _)) && key@ == t.params[5].name@);
        } else {
            assert(step_reads(t.recipe[8]) matches Some((key, _)) && key@ == t.params[6].name@);
        }
    }
}

pub(crate) proof fn lemma_copied_26()
    ensures
        params_copied(spec_tool(26)),
{
    let t = spec_tool(26);
    assert forall|j: int| 0 <= j < t.params.len() implies param_copied(t, #[trigger] t.params[j]) by {
        if j == 0 {
            assert(step_copies(t.recipe[2], t.params[0]));
        } else if j == 1 {
            assert(step_copies(t.recipe[3], t.params[1]));
        } else if j == 2 {
            assert(step_copies(t.recipe[4], t.params[2]));
        } else if j == 3 {
            assert(step_copies(t.recipe[5], t.params[3]));
        } else if j == 4 {
            assert(step_copies(t.recipe[6], t.params[4]));
        } else if j == 5 {
            assert(step_copies(t.recipe[7], t.params[5]));
        } else {
            assert(step_copies(t.recipe[8], t.params[6]));
        }
    }
}

pub(crate) proof fn lemma_param_names_26()
    ensures
        param_names_distinct(spec_tool(26)),
{
    let t = spec_tool(26);
    assert(t.params[0].name@ != t.params[1].name@) by {
        reveal_strlit("name");
        reveal_strlit("path");
        assert("name"@[0] != "path"@[0]);
    }
    assert(t.params[0].name@ != t.params[2].name@) by {
        reveal_strlit("name");
        reveal_strlit("manifest");
        assert("name"@.len() != "manifest"@.len());
    }
    assert(t.params[0].name@ != t.params[3].name@) by {
        reveal_strlit("name");
        reveal_strlit("memory");
        assert("name"@.len() != "memory"@.len());
    }
    assert(t.params[0].name@ != t.params[4].name@) by {
        reveal_strlit("name");
        reveal_strlit("instances");
        assert("name"@.len() != "instances"@.len());
    }
    assert(t.params[0].name@ != t.params[5].name@) by {
        reveal_strlit("name");
        reveal_strlit("buildpack");
        assert("name"@.len() != "buildpack"@.len());
    }
    assert(t.params[0].name@ != t.params[6].name@) by {
        reveal_strlit("name");
        reveal_strlit("docker_image");
        assert("name"@.len() != "docker_image"@.len());
    }
    assert(t.params[1].name@ != t.params[2].name@) by {
        reveal_strlit("path");
        reveal_strlit("manifest");
        assert("path"@.len() != "manifest"@.len());
    }
    assert(t.params[1].name@ != t.params[3].name@) by {
        reveal_strlit("path");
        reveal_strlit("memory");
        assert("path"@.len() != "memory"@.len());
    }
    assert(t.params[1].name@ != t.params[4].name@) by {
        reveal_strlit("path");
        reveal_strlit("instances");
        assert("path"@.len() != "instances"@.len());
    }
    assert(t.params[1].name@ != t.params[5].name@) by {
        reveal_strlit("path");
        reveal_strlit("buildpack");
        assert("path"@.len() != "buildpack"@.len());
    }
    assert(t.params[1].name@ != t.params[6].name@) by {
        reveal_strlit("path");
        reveal_strlit("docker_image");
        assert("path"@.len() != "docker_image"@.len());
    }
    assert(t.params[2].name@ != t.params[3].name@) by {
        reveal_strlit("manifest");
        reveal_strlit("memory");
        assert("manifest"@.len() != "memory"@.len());
    }
    assert(t.params[2].name@ != t.params[4].name@) by {
        reveal_strlit("manifest");
        reveal_strlit("instances");
        assert("manifest"@.len() != "instances"@.len());
    }
    assert(t.params[2].name@ != t.params[5].name@) by {
        reveal_strlit("manifest");
        reveal_strlit("buildpack");
        assert("manifest"@.len() != "buildpack"@.len());
    }
    assert(t.params[2].name@ != t.params[6].name@) by {
        reveal_strlit("manifest");
        reveal_strlit("docker_image");
        assert("manifest"@.len() != "docker_image"@.len());
    }
    assert(t.params[3].name@ != t.params[4].name@) by {
        reveal_strlit("memory");
        reveal_strlit("instances");
        assert("memory"@.len() != "instances"@.len());
    }
    assert(t.params[3].name@ != t.params[5].name@) by {
        reveal_strlit("memory");
        reveal_strlit("buildpack");
        assert("memory"@.len() != "buildpack"@.len());
    }
    assert(t.params[3].name@ != t.params[6].name@) by {
        reveal_strlit("memory");
        reveal_strlit("docker_image");
        assert("memory"@.len() != "docker_image"@.len());
    }
    assert(t.params[4].name@ != t.params[5].name@) by {
        reveal_strlit("instances");
        reveal_strlit("buildpack");
        assert("instances"@[0] != "buildpack"@[0]);
    }
    assert(t.params[4].name@ != t.params[6].name@) by {
        reveal_strlit("instances");
        reveal_strlit("docker_image");
        assert("instances"@.len() != "docker_image"@.len());
    }
    assert(t.params[5].name@ != t.params[6].name@) by {
        reveal_strlit("buildpack");
        reveal_strlit("docker_image");
        assert("buildpack"@.len() != "docker_image"@.len());
    }
    assert forall|a: int, b: int| 0 <= a < t.params.len() && 0 <= b < t.params.len() && a != b implies (#[trigger] t.params[a]).name@ != (#[trigger] t.params[b]).name@ by {
        if a == 0 && b == 1 {
        } else if a == 0 && b == 2 {
        } else if a == 0 && b == 3 {
        } else if a == 0 && b == 4 {
        } else if a == 0 && b == 5 {
        } else if a == 0 && b == 6 {
        } else if a == 1 && b == 0 {
        } else if a == 1 && b == 2 {
        } else if a == 1 && b == 3 {
        } else if a == 1 && b == 4 {
        } else if a == 1 && b == 5 {
        } else if a == 1 && b == 6 {
        } else if a == 2 && b == 0 {
        } else if a == 2 && b == 1 {
        } else if a == 2 && b == 3 {
        } else if a == 2 && b == 4 {
        } else if a == 2 && b == 5 {
        } else if a == 2 && b == 6 {
        } else if a == 3 && b == 0 {
        } else if a == 3 && b == 1 {
        } else if a == 3 && b == 2 {
        } else if a == 3 && b == 4 {
        } else if a == 3 && b == 5 {
        } else if a == 3 && b == 6 {
        } else if a == 4 && b == 0 {
        } else if a == 4 && b == 1 {
        } else if a == 4 && b == 2 {
        } else if a == 4 && b == 3 {
        } else if a == 4 && b == 5 {
        } else if a == 4 && b == 6 {
        } else if a == 5 && b == 0 {
        } else if a == 5 && b == 1 {
        } else if a == 5 && b == 2 {
        } else if a == 5 && b == 3 {
        } else if a == 5 && b == 4 {
        } else if a == 5 && b == 6 {
        } else if a == 6 && b == 0 {
        } else if a == 6 && b == 1 {
        } else if a == 6 && b == 2 {
        } else if a == 6 && b == 3 {
        } else if a == 6 && b == 4 {
        } else if a == 6 && b == 5 {
        }
    }
}

pub(crate) proof fn lemma_tool_27()
    ensures
        schema_agrees(spec_tool(27)),
{
    let t = spec_tool(27);
    assert forall|k: int| 0 <= k < t.recipe.len() implies step_agrees(t, #[trigger] t.recipe[k]) by {
        if k == 0 {
        } else if k == 1 {
        } else {
            assert(t.params[0].name@ == "name"@);
        }
    }
    assert forall|j: int| 0 <= j < t.params.len() implies param_used(t, #[trigger] t.params[j]) by {
        assert(step_reads(t.recipe[2]) matches Some((key, _)) && key@ == t.params[0].name@);
    }
}

pub(crate) proof fn lemma_copied_27()
    ensures
        params_copied(spec_tool(27)),
{
    let t = spec_tool(27);
    assert forall|j: int| 0 <= j < t.params.len() implies param_copied(t, #[trigger] t.params[j]) by {
        assert(step_copies(t.recipe[2], t.params[0]));
    }
}

pub(crate) proof fn lemma_tool_28()
    ensures
        schema_agrees(spec_tool(28)),
{
    let t = spec_tool(28);
    assert forall|k: int| 0 <= k < t.recipe.len() implies step_agrees(t, #[trigger] t.recipe[k]) by {
        if k == 0 {
        } else if k == 1 {
        } else {
            assert(t.params[0].name@ == "name"@);
        }
    }
    assert forall|j: int| 0 <= j < t.params.len() implies param_used(t, #[trigger] t.params[j]) by {
        assert(step_reads(t.recipe[2]) matches Some((key, _)) && key@ == t.params[0].name@);
    }
}

pub(crate) proof fn lemma_copied_28()
    ensures
        params_copied(spec_tool(28)),
{
    let t = spec_tool(28);
    assert forall|j: int| 0 <= j < t.params.len() implies param_copied(t, #[trigger] t.params[j]) by {
        assert(step_copies(t.recipe[2], t.params[0]));
    }
}

pub(crate) proof fn lemma_tool_29()
    ensures
        schema_agrees(spec_tool(29)),
{
    let t = spec_tool(29);
    assert forall|k: int| 0 <= k < t.recipe.len() implies step_agrees(t, #[trigger] t.recipe[k]) by {
        if k == 0 {
        } else if k == 1 {
        } else {
            assert(t.params[0].name@ == "name"@);
        }
    }
    assert forall|j: int| 0 <= j < t.params.len() implies param_used(t, #[trigger] t.params[j]) by {
        assert(step_reads(t.recipe[2]) matches Some((key, _)) && key@ == t.params[0].name@);
    }
}

pub(crate) proof fn lemma_copied_29()
    ensures
        params_copied(spec_tool(29)),
{
    let t = spec_tool(29);
    assert forall|j: int| 0 <= j < t.params.len() implies param_copied(t, #[trigger] t.params[j]) by {
        assert(step_copies(t.recipe[2], t.params[0]));
    }
}

pub(crate) proof fn lemma_tool_30()
    ensures
        schema_agrees(spec_tool(30)),
{
    let t = spec_tool(30);
    assert forall|k: int| 0 <= k < t.recipe.len() implies step_agrees(t, #[trigger] t.recipe[k]) by {
        if k == 0 {
        } else if k == 1 {
        } else if k == 2 {
            assert(t.params[0].name@ == "name"@);
        } else if k == 3 {
            assert(t.params[1].name@ == "force"@);
        } else {
            assert(t.params[2].name@ == "delete_routes"@);
        }
    }
    assert forall|j: int| 0 <= j < t.params.len() implies param_used(t, #[trigger] t.params[j]) by {
        if j == 0 {
            assert(step_reads(t.recipe[2]) matches Some((key, _)) && key@ == t.params[0].name@);
        } else if j == 1 {
            assert(step_reads(t.recipe[3]) matches Some((key, _)) && key@ == t.params[1].name@);
        } else {
            assert(step_reads(t.recipe[4]) matches Some((key, _)) && key@ == t.params[2].name@);
        }
    }
}

pub(crate) proof fn lemma_copied_30()
    ensures
        params_copied(spec_tool(30)),
{
    let t = spec_tool(30);
    assert forall|j: int| 0 <= j < t.params.len() implies param_copied(t, #[trigger] t.params[j]) by {
        if j == 0 {
            assert(step_copies(t.recipe[2], t.params[0]));
        } else if j == 1 {
        } else {
        }
    }
}

pub(crate) proof fn lemma_param_names_30()
    ensures
        param_names_distinct(spec_tool(30)),
{
    let t = spec_tool(30);
    assert(t.params[0].name@ != t.params[1].name@) by {
        reveal_strlit("name");
        reveal_strlit("force");
        assert("name"@.len() != "force"@.len());
    }
    assert(t.params[0].name@ != t.params[2].name@) by {
        reveal_strlit("name");
        reveal_strlit("delete_routes");
        assert("name"@.len() != "delete_routes"@.len());
    }
    assert(t.params[1].name@ != t.params[2].name@) by {
        reveal_strlit("force");
        reveal_strlit("delete_routes");
        assert("force"@.len() != "delete_routes"@.len());
    }
    assert forall|a: int, b: int| 0 <= a < t.params.len() && 0 <= b < t.params.len() && a != b implies (#[trigger] t.params[a]).name@ != (#[trigger] t.params[b]).name@ by {
        if a == 0 && b == 1 {
        } else if a == 0 && b == 2 {
        } else if a == 1 && b == 0 {
        } else if a == 1 && b == 2 {
        } else if a == 2 && b == 0 {
        } else if a == 2 && b == 1 {
        }
    }
}

pub(crate) proof fn lemma_tool_31()
    ensures
        schema_agrees(spec_tool(31)),
{
    let t = spec_tool(31);
    assert forall|k: int| 0 <= k < t.recipe.len() implies step_agrees(t, #[trigger] t.recipe[k]) by {
        if k == 0 {
        } else if k == 1 {
        } else if k == 2 {
            assert(t.params[0].name@ == "name"@);
        } else {
            assert(t.params[1].name@ == "stream"@);
        }
    }
    assert forall|j: int| 0 <= j < t.params.len() implies param_used(t, #[trigger] t.params[j]) by {
        if j == 0 {
            assert(step_reads(t.recipe[2]) matches Some((key, _)) && key@ == t.params[0].name@);
        } else {
            assert(step_reads(t.recipe[3]) matches Some((key, _)) && key@ == t.params[1].name@);
        }
    }
}

pub(crate) proof fn lemma_copied_31()
    ensures
        params_copied(spec_tool(31)),
{
    let t = spec_tool(31);
    assert forall|j: int| 0 <= j < t.params.len() implies param_copied(t, #[trigger] t.params[j]) by {
        if j == 0 {
            assert(step_copies(t.recipe[2], t.params[0]));
        } else {
        }
    }
}

pub(crate) proof fn lemma_param_names_31()
    ensures
        param_names_distinct(spec_tool(31)),
{
    let t = spec_tool(31);
    assert(t.params[0].name@ != t.params[1].name@) by {
        reveal_strlit("name");
        reveal_strlit("stream");
        assert("name"@.len() != "stream"@.len());
    }
    assert forall|a: int, b: int| 0 <= a < t.params.len() && 0 <= b < t.params.len() && a != b implies (#[trigger] t.params[a]).name@ != (#[trigger] t.params[b]).name@ by {
        if a == 0 && b == 1 {
        } else if a == 1 && b == 0 {
        }
    }
}

pub(crate) proof fn lemma_tool_32()
    ensures
        schema_agrees(spec_tool(32)),
{
    let t = spec_tool(32);
    assert forall|k: int| 0 <= k < t.recipe.len() implies step_agrees(t, #[trigger] t.recipe[k]) by {
        if k == 0 {
        } else if k == 1 {
        } else {
            assert(t.params[0].name@ == "name"@);
        }
    }
    assert forall|j: int| 0 <= j < t.params.len() implies param_used(t, #[trigger] t.params[j]) by {
        assert(step_reads(t.recipe[2]) matches Some((key, _)) && key@ == t.params[0].name@);
    }
}

pub(crate) proof fn lemma_copied_32()
    ensures
        params_copied(spec_tool(32)),
{
    let t = spec_tool(32);
    assert forall|j: int| 0 <= j < t.params.len() implies param_copied(t, #[trigger] t.params[j]) by {
        assert(step_copies(t.recipe[2], t.params[0]));
    }
}

pub(crate) proof fn lemma_tool_33()
    ensures
        schema_agrees(spec_tool(33)),
{
    let t = spec_tool(33);
    assert forall|k: int| 0 <= k < t.recipe.len() implies step_agrees(t, #[trigger] t.recipe[k]) by {
        if k == 0 {
        } else if k == 1 {
        } else if k == 2 {
            assert(t.params[0].name@ == "name"@);
        } else if k == 3 {
            assert(t.params[1].name@ == "var_name"@);
        } else {
            assert(t.params[2].name@ == "var_value"@);
        }
    }
    assert forall|j: int| 0 <= j < t.params.len() implies param_used(t, #[trigger] t.params[j]) by {
        if j == 0 {
            assert(step_reads(t.recipe[2]) matches Some((key, _)) && key@ == t.params[0].name@);
        } else if j == 1 {
            assert(step_reads(t.recipe[3]) matches Some((key, _)) && key@ == t.params[1].name@);
        } else {
            assert(step_reads(t.recipe[4]) matches Some((key, _)) && key@ == t.params[2].name@);
        }
    }
}

pub(crate) proof fn lemma_copied_33()
    ensures
        params_copied(spec_tool(33)),
{
    let t = spec_tool(33);
    assert forall|j: int| 0 <= j < t.params.len() implies param_copied(t, #[trigger] t.params[j]) by {
        if j == 0 {
            assert(step_copies(t.recipe[2], t.params[0]));
        } else if j == 1 {
            assert(step_copies(t.recipe[3], t.params[1]));
        } else {
            assert(step_copies(t.recipe[4], t.params[2]));
        }
    }
}

pub(crate) proof fn lemma_param_names_33()
    ensures
        param_names_distinct(spec_tool(33)),
{
    let t = spec_tool(33);
    assert(t.params[0].name@ != t.params[1].name@) by {
        reveal_strlit("name");
        reveal_strlit("var_name");
        assert("name"@.len() != "var_name"@.len());
    }
    assert(t.params[0].name@ != t.params[2].name@) by {
        reveal_strlit("name");
        reveal_strlit("var_value");
        assert("name"@.len() != "var_value"@.len());
    }
    assert(t.params[1].name@ != t.params[2].name@) by {
        reveal_strlit("var_name");
        reveal_strlit("var_value");
        assert("var_name"@.len() != "var_value"@.len());
    }
    assert forall|a: int, b: int| 0 <= a < t.params.len() && 0 <= b < t.params.len() && a != b implies (#[trigger] t.params[a]).name@ != (#[trigger] t.params[b]).name@ by {
        if a == 0 && b == 1 {
        } else if a == 0 && b == 2 {
        } else if a == 1 && b == 0 {
        } else if a == 1 && b == 2 {
        } else if a == 2 && b == 0 {
        } else if a == 2 && b == 1 {
        }
    }
}

pub(crate) proof fn lemma_tool_34()
    ensures
        schema_agrees(spec_tool(34)),
{
    let t = spec_tool(34);
    assert forall|k: int| 0 <= k < t.recipe.len() implies step_agrees(t, #[trigger] t.recipe[k]) by {
        if k == 0 {
        } else if k == 1 {
        } else if k == 2 {
            assert(t.params[0].name@ == "name"@);
        } else if k == 3 {
            assert(t.params[1].name@ == "instances"@);
        } else if k == 4 {
            assert(t.params[2].name@ == "memory"@);
        } else if k == 5 {
            assert(t.params[3].name@ == "disk"@);
        } else {
        }
    }
    assert forall|j: int| 0 <= j < t.params.len() implies param_used(t, #[trigger] t.params[j]) by {
        if j == 0 {
            assert(step_reads(t.recipe[2]) matches Some((key, _)) && key@ == t.params[0].name@);
        } else if j == 1 {
            assert(step_reads(t.recipe[3]) matches Some((key, _)) && key@ == t.params[1].name@);
        } else if j == 2 {
            assert(step_reads(t.recipe[4]) matches Some((key, _)) && key@ == t.params[2].name@);
        } else {
            assert(step_reads(t.recipe[5]) matches Some((key, _)) && key@ == t.params[3].name@);
        }
    }
}

pub(crate) proof fn lemma_copied_34()
    ensures
        params_copied(spec_tool(34)),
{
    let t = spec_tool(34);
    assert forall|j: int| 0 <= j < t.params.len() implies param_copied(t, #[trigger] t.params[j]) by {
        if j == 0 {
            assert(step_copies(t.recipe[2], t.params[0]));
        } else if j == 1 {
            assert(step_copies(t.recipe[3], t.params[1]));
        } else if j == 2 {
            assert(step_copies(t.recipe[4], t.params[2]));
        } else {
            assert(step_copies(t.recipe[5], t.params[3]));
        }
    }
}

pub(crate) proof fn lemma_param_names_34()
    ensures
        param_names_distinct(spec_tool(34)),
{
    let t = spec_tool(34);
    assert(t.params[0].name@ != t.params[1].name@) by {
        reveal_strlit("name");
        reveal_strlit("instances");
        assert("name"@.len() != "instances"@.len());
    }
    assert(t.params[0].name@ != t.params[2].name@) by {
        reveal_strlit("name");
        reveal_strlit("memory");
        assert("name"@.len() != "memory"@.len());
    }
    assert(t.params[0].name@ != t.params[3].name@) by {
        reveal_strlit("name");
        reveal_strlit("disk");
        assert("name"@[0] != "disk"@[0]);
    }
    assert(t.params[1].name@ != t.params[2].name@) by {
        reveal_strlit("instances");
        reveal_strlit("memory");
        assert("instances"@.len() != "memory"@.len());
    }
    assert(t.params[1].name@ != t.params[3].name@) by {
        reveal_strlit("instances");
        reveal_strlit("disk");
        assert("instances"@.len() != "disk"@.len());
    }
    assert(t.params[2].name@ != t.params[3].name@) by {
        reveal_strlit("memory");
        reveal_strlit("disk");
        assert("memory"@.len() != "disk"@.len());
    }
    assert forall|a: int, b: int| 0 <= a < t.params.len() && 0 <= b < t.params.len() && a != b implies (#[trigger] t.params[a]).name@ != (#[trigger] t.params[b]).name@ by {
        if a == 0 && b == 1 {
        } else if a == 0 && b == 2 {
        } else if a == 0 && b == 3 {
        } else if a == 1 && b == 0 {
        } else if a == 1 && b == 2 {
        } else if a == 1 && b == 3 {
        } else if a == 2 && b == 0 {
        } else if a == 2 && b == 1 {
        } else if a == 2 && b == 3 {
        } else if a == 3 && b == 0 {
        } else if a == 3 && b == 1 {
        } else if a == 3 && b == 2 {
        }
    }
}

pub(crate) proof fn lemma_tool_35()
    ensures
        schema_agrees(spec_tool(35)),
{
    let t = spec_tool(35);
    assert forall|k: int| 0 <= k < t.recipe.len() implies step_agrees(t, #[trigger] t.recipe[k]) by {
        if k == 0 {
        } else {
        }
    }
}

pub(crate) proof fn lemma_tool_36()
    ensures
        schema_agrees(spec_tool(36)),
{
    let t = spec_tool(36);
    assert forall|k: int| 0 <= k < t.recipe.len() implies step_agrees(t, #[trigger] t.recipe[k]) by {
        if k == 0 {
        } else {
        }
    }
}

pub(crate) proof fn lemma_tool_37()
    ensures
        schema_agrees(spec_tool(37)),
{
    let t = spec_tool(37);
    assert forall|k: int| 0 <= k < t.recipe.len() implies step_agrees(t, #[trigger] t.recipe[k]) by {
        if k == 0 {
        } else if k == 1 {
        } else {
            assert(t.params[0].name@ == "service"@);
        }
    }
    assert forall|j: int| 0 <= j < t.params.len() implies param_used(t, #[trigger] t.params[j]) by {
        assert(step_reads(t.recipe[2]) matches Some((key, _)) && key@ == t.params[0].name@);
    }
}

pub(crate) proof fn lemma_copied_37()
    ensures
        params_copied(spec_tool(37)),
{
    let t = spec_tool(37);
    assert forall|j: int| 0 <= j < t.params.len() implies param_copied(t, #[trigger] t.params[j]) by {
        assert(step_copies(t.recipe[2], t.params[0]));
    }
}

pub(crate) proof fn lemma_tool_38()
    ensures
        schema_agrees(spec_tool(38)),
{
    let t = spec_tool(38);
    assert forall|k: int| 0 <= k < t.recipe.len() implies step_agrees(t, #[trigger] t.recipe[k]) by {
        if k == 0 {
        } else if k == 1 {
        } else if k == 2 {
            assert(t.params[0].name@ == "service"@);
        } else if k == 3 {
            assert(t.params[1].name@ == "plan"@);
        } else if k == 4 {
            assert(t.params[2].name@ == "instance_name"@);
        } else {
            assert(t.params[3].name@ == "parameters"@);
        }
    }
    assert forall|j: int| 0 <= j < t.params.len() implies param_used(t, #[trigger] t.params[j]) by {
        if j == 0 {
            assert(step_reads(t.recipe[2]) matches Some((key, _)) && key@ == t.params[0].name@);
        } else if j == 1 {
            assert(step_reads(t.recipe[3]) matches Some((key, _)) && key@ == t.params[1].name@);
        } else if j == 2 {
            assert(step_reads(t.recipe[4]) matches Some((key, _)) && key@ == t.params[2].name@);
        } else {
            assert(step_reads(t.recipe[5]) matches Some((key, _)) && key@ == t.params[3].name@);
        }
    }
}

pub(crate) proof fn lemma_copied_38()
    ensures
        params_copied(spec_tool(38)),
{
    let t = spec_tool(38);
    assert forall|j: int| 0 <= j < t.params.len() implies param_copied(t, #[trigger] t.params[j]) by {
        if j == 0 {
            assert(step_copies(t.recipe[2], t.params[0]));
        } else if j == 1 {
            assert(step_copies(t.recipe[3], t.params[1]));
        } else if j == 2 {
            assert(step_copies(t.recipe[4], t.params[2]));
        } else {
            assert(step_copies(t.recipe[5], t.params[3]));
        }
    }
}

pub(crate) proof fn lemma_param_names_38()
    ensures
        param_names_distinct(spec_tool(38)),
{
    let t = spec_tool(38);
    assert(t.params[0].name@ != t.params[1].name@) by {
        reveal_strlit("service");
        reveal_strlit("plan");
        assert("service"@.len() != "plan"@.len());
    }
    assert(t.params[0].name@ != t.params[2].name@) by {
        reveal_strlit("service");
        reveal_strlit("instance_name");
        assert("service"@.len() != "instance_name"@.len());
    }
    assert(t.params[0].name@ != t.params[3].name@) by {
        reveal_strlit("service");
        reveal_strlit("parameters");
        assert("service"@.len() != "parameters"@.len());
    }
    assert(t.params[1].name@ != t.params[2].name@) by {
        reveal_strlit("plan");
        reveal_strlit("instance_name");
        assert("plan"@.len() != "instance_name"@.len());
    }
    assert(t.params[1].name@ != t.params[3].name@) by {
        reveal_strlit("plan");
        reveal_strlit("parameters");
        assert("plan"@.len() != "parameters"@.len());
    }
    assert(t.params[2].name@ != t.params[3].name@) by {
        reveal_strlit("instance_name");
        reveal_strlit("parameters");
        assert("instance_name"@.len() != "parameters"@.len());
    }
    assert forall|a: int, b: int| 0 <= a < t.params.len() && 0 <= b < t.params.len() && a != b implies (#[trigger] t.params[a]).name@ != (#[trigger] t.params[b]).name@ by {
        if a == 0 && b == 1 {
        } else if a == 0 && b == 2 {
        } else if a == 0 && b == 3 {
        } else if a == 1 && b == 0 {
        } else if a == 1 && b == 2 {
        } else if a == 1 && b == 3 {
        } else if a == 2 && b == 0 {
        } else if a == 2 && b == 1 {
        } else if a == 2 && b == 3 {
        } else if a == 3 && b == 0 {
        } else if a == 3 && b == 1 {
        } else if a == 3 && b == 2 {
        }
    }
}

pub(crate) proof fn lemma_tool_39()
    ensures
        schema_agrees(spec_tool(39)),
{
    let t = spec_tool(39);
    assert forall|k: int| 0 <= k < t.recipe.len() implies step_agrees(t, #[trigger] t.recipe[k]) by {
        if k == 0 {
        } else if k == 1 {
        } else if k == 2 {
            assert(t.params[0].name@ == "app_name"@);
        } else if k == 3 {
            assert(t.params[1].name@ == "service_instance"@);
        } else {
            assert(t.params[2].name@ == "parameters"@);
        }
    }
    assert forall|j: int| 0 <= j < t.params.len() implies param_used(t, #[trigger] t.params[j]) by {
        if j == 0 {
            assert(step_reads(t.recipe[2]) matches Some((key, _)) && key@ == t.params[0].name@);
        } else if j == 1 {
            assert(step_reads(t.recipe[3]) matches Some((key, _)) && key@ == t.params[1].name@);
        } else {
            assert(step_reads(t.recipe[4]) matches Some((key, _)) && key@ == t.params[2].name@);
        }
    }
}

pub(crate) proof fn lemma_copied_39()
    ensures
        params_copied(spec_tool(39)),
{
    let t = spec_tool(39);
    assert forall|j: int| 0 <= j < t.params.len() implies param_copied(t, #[trigger] t.params[j]) by {
        if j == 0 {
            assert(step_copies(t.recipe[2], t.params[0]));
        } else if j == 1 {
            assert(step_copies(t.recipe[3], t.params[1]));
        } else {
            assert(step_copies(t.recipe[4], t.params[2]));
        }
    }
}

pub(crate) proof fn lemma_param_names_39()
    ensures
        param_names_distinct(spec_tool(39)),
{
    let t = spec_tool(39);
    assert(t.params[0].name@ != t.params[1].name@) by {
        reveal_strlit("app_name");
        reveal_strlit("service_instance");
        assert("app_name"@.len() != "service_instance"@.len());
    }
    assert(t.params[0].name@ != t.params[2].name@) by {
        reveal_strlit("app_name");
        reveal_strlit("parameters");
        assert("app_name"@.len() != "parameters"@.len());
    }
    assert(t.params[1].name@ != t.params[2].name@) by {
        reveal_strlit("service_instance");
        reveal_strlit("parameters");
        assert("service_instance"@.len() != "parameters"@.len());
    }
    assert forall|a: int, b: int| 0 <= a < t.params.len() && 0 <= b < t.params.len() && a != b implies (#[trigger] t.params[a]).name@ != (#[trigger] t.params[b]).name@ by {
        if a == 0 && b == 1 {
        } else if a == 0 && b == 2 {
        } else if a == 1 && b == 0 {
        } else if a == 1 && b == 2 {
        } else if a == 2 && b == 0 {
        } else if a == 2 && b == 1 {
        }
    }
}

pub(crate) proof fn lemma_tool_40()
    ensures
        schema_agrees(spec_tool(40)),
{
    let t = spec_tool(40);
    assert forall|k: int| 0 <= k < t.recipe.len() implies step_agrees(t, #[trigger] t.recipe[k]) by {
        if k == 0 {
        } else if k == 1 {
        } else if k == 2 {
            assert(t.params[0].name@ == "app_name"@);
        } else {
            assert(t.params[1].name@ == "service_instance"@);
        }
    }
    assert forall|j: int| 0 <= j < t.params.len() implies param_used(t, #[trigger] t.params[j]) by {
        if j == 0 {
            assert(step_reads(t.recipe[2]) matches Some((key, _)) && key@ == t.params[0].name@);
        } else {
            assert(step_reads(t.recipe[3]) matches Some((key, _)) && key@ == t.params[1].name@);
        }
    }
}

pub(crate) proof fn lemma_copied_40()
    ensures
        params_copied(spec_tool(40)),
{
    let t = spec_tool(40);
    assert forall|j: int| 0 <= j < t.params.len() implies param_copied(t, #[trigger] t.params[j]) by {
        if j == 0 {
            assert(step_copies(t.recipe[2], t.params[0]));
        } else {
            assert(step_copies(t.recipe[3], t.params[1]));
        }
    }
}

pub(crate) proof fn lemma_param_names_40()
    ensures
        param_names_distinct(spec_tool(40)),
{
    let t = spec_tool(40);
    assert(t.params[0].name@ != t.params[1].name@) by {
        reveal_strlit("app_name");
        reveal_strlit("service_instance");
        assert("app_name"@.len() != "service_instance"@.len());
    }
    assert forall|a: int, b: int| 0 <= a < t.params.len() && 0 <= b < t.params.len() && a != b implies (#[trigger] t.params[a]).name@ != (#[trigger] t.params[b]).name@ by {
        if a == 0 && b == 1 {
        } else if a == 1 && b == 0 {
        }
    }
}

pub(crate) proof fn lemma_tool_41()
    ensures
        schema_agrees(spec_tool(41)),
{
    let t = spec_tool(41);
    assert forall|k: int| 0 <= k < t.recipe.len() implies step_agrees(t, #[trigger] t.recipe[k]) by {
        if k == 0 {
        } else if k == 1 {
        } else {
            assert(t.params[0].name@ == "provider"@);
        }
    }
    assert forall|j: int| 0 <= j < t.params.len() implies param_used(t, #[trigger] t.params[j]) by {
        assert(step_reads(t.recipe[2]) matches Some((key, _)) && key@ == t.params[0].name@);
    }
}

pub(crate) proof fn lemma_copied_41()
    ensures
        params_copied(spec_tool(41)),
{
    let t = spec_tool(41);
    assert forall|j: int| 0 <= j < t.params.len() implies param_copied(t, #[trigger] t.params[j]) by {
        assert(step_copies(t.recipe[2], t.params[0]));
    }
}

pub(crate) proof fn lemma_tool_42()
    ensures
        schema_agrees(spec_tool(42)),
{
    let t = spec_tool(42);
    assert forall|k: int| 0 <= k < t.recipe.len() implies step_agrees(t, #[trigger] t.recipe[k]) by {
        if k == 0 {
        } else if k == 1 {
        } else if k == 2 {
        } else if k == 3 {
        } else {
            assert(t.params[0].name@ == "cluster"@);
        }
    }
    assert forall|j: int| 0 <= j < t.params.len() implies param_used(t, #[trigger] t.params[j]) by {
        assert(step_reads(t.recipe[4]) matches Some((key, _)) && key@ == t.params[0].name@);
    }
}

pub(crate) proof fn lemma_copied_42()
    ensures
        params_copied(spec_tool(42)),
{
    let t = spec_tool(42);
    assert forall|j: int| 0 <= j < t.params.len() implies param_copied(t, #[trigger] t.params[j]) by {
        assert(step_copies(t.recipe[4], t.params[0]));
    }
}

pub(crate) proof fn lemma_tool_43()
    ensures
        schema_agrees(spec_tool(43)),
{
    let t = spec_tool(43);
    assert forall|k: int| 0 <= k < t.recipe.len() implies step_agrees(t, #[trigger] t.recipe[k]) by {
        if k == 0 {
        } else if k == 1 {
        } else if k == 2 {
        } else if k == 3 {
        } else if k == 4 {
            assert(t.params[0].name@ == "cluster"@);
        } else {
            assert(t.params[1].name@ == "admin"@);
        }
    }
    assert forall|j: int| 0 <= j < t.params.len() implies param_used(t, #[trigger] t.params[j]) by {
        if j == 0 {
            assert(step_reads(t.recipe[4]) matches Some((key, _)) && key@ == t.params[0].name@);
        } else {
            assert(step_reads(t.recipe[5]) matches Some((key, _)) && key@ == t.params[1].name@);
        }
    }
}

pub(crate) proof fn lemma_copied_43()
    ensures
        params_copied(spec_tool(43)),
{
    let t = spec_tool(43);
    assert forall|j: int| 0 <= j < t.params.len() implies param_copied(t, #[trigger] t.params[j]) by {
        if j == 0 {
            assert(step_copies(t.recipe[4], t.params[0]));
        } else {
        }
    }
}

pub(crate) proof fn lemma_param_names_43()
    ensures
        param_names_distinct(spec_tool(43)),
{
    let t = spec_tool(43);
    assert(t.params[0].name@ != t.params[1].name@) by {
        reveal_strlit("cluster");
        reveal_strlit("admin");
        assert("cluster"@.len() != "admin"@.len());
    }
    assert forall|a: int, b: int| 0 <= a < t.params.len() && 0 <= b < t.params.len() && a != b implies (#[trigger] t.params[a]).name@ != (#[trigger] t.params[b]).name@ by {
        if a == 0 && b == 1 {
        } else if a == 1 && b == 0 {
        }
    }
}

pub(crate) proof fn lemma_tool_44()
    ensures
        schema_agrees(spec_tool(44)),
{
    let t = spec_tool(44);
    assert forall|k: int| 0 <= k < t.recipe.len() implies step_agrees(t, #[trigger] t.recipe[k]) by {
        if k == 0 {
        } else if k == 1 {
        } else if k == 2 {
        } else if k == 3 {
            assert(t.params[5].name@ == "vpc_id"@);
        } else if k == 4 {
        } else if k == 5 {
            assert(t.params[0].name@ == "name"@);
        } else if k == 6 {
        } else if k == 7 {
            assert(t.params[1].name@ == "zone"@);
        } else if k == 8 {
            assert(t.params[2].name@ == "flavor"@);
        } else if k == 9 {
            assert(t.params[3].name@ == "workers"@);
        } else if k == 10 {
            assert(t.params[4].name@ == "version"@);
        } else if k == 11 {
            assert(t.params[5].name@ == "vpc_id"@);
        } else {
            assert(t.params[6].name@ == "subnet_id"@);
        }
    }
    assert forall|j: int| 0 <= j < t.params.len() implies param_used(t, #[trigger] t.params[j]) by {
        if j == 0 {
            assert(step_reads(t.recipe[5]) matches Some((key, _)) && key@ == t.params[0].name@);
        } else if j == 1 {
            assert(step_reads(t.recipe[7]) matches Some((key, _)) && key@ == t.params[1].name@);
        } else if j == 2 {
            assert(step_reads(t.recipe[8]) matches Some((key, _)) && key@ == t.params[2].name@);
        } else if j == 3 {
            assert(step_reads(t.recipe[9]) matches Some((key, _)) && key@ == t.params[3].name@);
        } else if j == 4 {
            assert(step_reads(t.recipe[10]) matches Some((key, _)) && key@ == t.params[4].name@);
        } else if j == 5 {
            assert(step_reads(t.recipe[3]) matches Some((key, _)) && key@ == t.params[5].name@);
        } else {
            assert(step_reads(t.recipe[12]) matches Some((key, _)) && key@ == t.params[6].name@);
        }
    }
}

pub(crate) proof fn lemma_copied_44()
    ensures
        params_copied(spec_tool(44)),
{
    let t = spec_tool(44);
    assert forall|j: int| 0 <= j < t.params.len() implies param_copied(t, #[trigger] t.params[j]) by {
        if j == 0 {
            assert(step_copies(t.recipe[5], t.params[0]));
        } else if j == 1 {
            assert(step_copies(t.recipe[7], t.params[1]));
        } else if j == 2 {
            assert(step_copies(t.recipe[8], t.params[2]));
        } else if j == 3 {
            assert(step_copies(t.recipe[9], t.params[3]));
        } else if j == 4 {
            assert(step_copies(t.recipe[10], t.params[4]));
        } else if j == 5 {
            assert(step_copies(t.recipe[11], t.params[5]));
        } else {
            assert(step_copies(t.recipe[12], t.params[6]));
        }
    }
}

pub(crate) proof fn lemma_param_names_44()
    ensures
        param_names_distinct(spec_tool(44)),
{
    let t = spec_tool(44);
    assert(t.params[0].name@ != t.params[1].name@) by {
        reveal_strlit("name");
        reveal_strlit("zone");
        assert("name"@[0] != "zone"@[0]);
    }
    assert(t.params[0].name@ != t.params[2].name@) by {
        reveal_strlit("name");
        reveal_strlit("flavor");
        assert("name"@.len() != "flavor"@.len());
    }
    assert(t.params[0].name@ != t.params[3].name@) by {
        reveal_strlit("name");
        reveal_strlit("workers");
        assert("name"@.len() != "workers"@.len());
    }
    assert(t.params[0].name@ != t.params[4].name@) by {
        reveal_strlit("name");
        reveal_strlit("version");
        assert("name"@.len() != "version"@.len());
    }
    assert(t.params[0].name@ != t.params[5].name@) by {
        reveal_strlit("name");
        reveal_strlit("vpc_id");
        assert("name"@.len() != "vpc_id"@.len());
    }
    assert(t.params[0].name@ != t.params[6].name@) by {
        reveal_strlit("name");
        reveal_strlit("subnet_id");
        assert("name"@.len() != "subnet_id"@.len());
    }
    assert(t.params[1].name@ != t.params[2].name@) by {
        reveal_strlit("zone");
        reveal_strlit("flavor");
        assert("zone"@.len() != "flavor"@.len());
    }
    assert(t.params[1].name@ != t.params[3].name@) by {
        reveal_strlit("zone");
        reveal_strlit("workers");
        assert("zone"@.len() != "workers"@.len());
    }
    assert(t.params[1].name@ != t.params[4].name@) by {
        reveal_strlit("zone");
        reveal_strlit("version");
        assert("zone"@.len() != "version"@.len());
    }
    assert(t.params[1].name@ != t.params[5].name@) by {
        reveal_strlit("zone");
        reveal_strlit("vpc_id");
        assert("zone"@.len() != "vpc_id"@.len());
    }
    assert(t.params[1].name@ != t.params[6].name@) by {
        reveal_strlit("zone");
        reveal_strlit("subnet_id");
        assert("zone"@.len() != "subnet_id"@.len());
    }
    assert(t.params[2].name@ != t.params[3].name@) by {
        reveal_strlit("flavor");
        reveal_strlit("workers");
        assert("flavor"@.len() != "workers"@.len());
    }
    assert(t.params[2].name@ != t.params[4].name@) by {
        reveal_strlit("flavor");
        reveal_strlit("version");
        assert("flavor"@.len() != "version"@.len());
    }
    assert(t.params[2].name@ != t.params[5].name@) by {
        reveal_strlit("flavor");
        reveal_strlit("vpc_id");
        assert("flavor"@[0] != "vpc_id"@[0]);
    }
    assert(t.params[2].name@ != t.params[6].name@) by {
        reveal_strlit("flavor");
        reveal_strlit("subnet_id");
        assert("flavor"@.len() != "subnet_id"@.len());
    }
    assert(t.params[3].name@ != t.params[4].name@) by {
        reveal_strlit("workers");
        reveal_strlit("version");
        assert("workers"@[0] != "version"@[0]);
    }
    assert(t.params[3].name@ != t.params[5].name@) by {
        reveal_strlit("workers");
        reveal_strlit("vpc_id");
        assert("workers"@.len() != "vpc_id"@.len());
    }
    assert(t.params[3].name@ != t.params[6].name@) by {
        reveal_strlit("workers");
        reveal_strlit("subnet_id");
        assert("workers"@.len() != "subnet_id"@.len());
    }
    assert(t.params[4].name@ != t.params[5].name@) by {
        reveal_strlit("version");
        reveal_strlit("vpc_id");
        assert("version"@.len() != "vpc_id"@.len());
    }
    assert(t.params[4].name@ != t.params[6].name@) by {
        reveal_strlit("version");
        reveal_strlit("subnet_id");
        assert("version"@.len() != "subnet_id"@.len());
    }
    assert(t.params[5].name@ != t.params[6].name@) by {
        reveal_strlit("vpc_id");
        reveal_strlit("subnet_id");
        assert("vpc_id"@.len() != "subnet_id"@.len());
    }
    assert forall|a: int, b: int| 0 <= a < t.params.len() && 0 <= b < t.params.len() && a != b implies (#[trigger] t.params[a]).name@ != (#[trigger] t.params[b]).name@ by {
        if a == 0 && b == 1 {
        } else if a == 0 && b == 2 {
        } else if a == 0 && b == 3 {
        } else if a == 0 && b == 4 {
        } else if a == 0 && b == 5 {
        } else if a == 0 && b == 6 {
        } else if a == 1 && b == 0 {
        } else if a == 1 && b == 2 {
        } else if a == 1 && b == 3 {
        } else if a == 1 && b == 4 {
        } else if a == 1 && b == 5 {
        } else if a == 1 && b == 6 {
        } else if a == 2 && b == 0 {
        } else if a == 2 && b == 1 {
        } else if a == 2 && b == 3 {
        } else if a == 2 && b == 4 {
        } else if a == 2 && b == 5 {
        } else if a == 2 && b == 6 {
        } else if a == 3 && b == 0 {
        } else if a == 3 && b == 1 {
        } else if a == 3 && b == 2 {
        } else if a == 3 && b == 4 {
        } else if a == 3 && b == 5 {
        } else if a == 3 && b == 6 {
        } else if a == 4 && b == 0 {
        } else if a == 4 && b == 1 {
        } else if a == 4 && b == 2 {
        } else if a == 4 && b == 3 {
        } else if a == 4 && b == 5 {
        } else if a == 4 && b == 6 {
        } else if a == 5 && b == 0 {
        } else if a == 5 && b == 1 {
        } else if a == 5 && b == 2 {
        } else if a == 5 && b == 3 {
        } else if a == 5 && b == 4 {
        } else if a == 5 && b == 6 {
        } else if a == 6 && b == 0 {
        } else if a == 6 && b == 1 {
        } else if a == 6 && b == 2 {
        } else if a == 6 && b == 3 {
        } else if a == 6 && b == 4 {
        } else if a == 6 && b == 5 {
        }
    }
}

pub(crate) proof fn lemma_tool_45()
    ensures
        schema_agrees(spec_tool(45)),
{
    let t = spec_tool(45);
    assert forall|k: int| 0 <= k < t.recipe.len() implies step_agrees(t, #[trigger] t.recipe[k]) by {
        if k == 0 {
        } else if k == 1 {
        } else if k == 2 {
        } else if k == 3 {
        } else if k == 4 {
            assert(t.params[0].name@ == "cluster"@);
        } else {
            assert(t.params[1].name@ == "force"@);
        }
    }
    assert forall|j: int| 0 <= j < t.params.len() implies param_used(t, #[trigger] t.params[j]) by {
        if j == 0 {
            assert(step_reads(t.recipe[4]) matches Some((key, _)) && key@ == t.params[0].name@);
        } else {
            assert(step_reads(t.recipe[5]) matches Some((key, _)) && key@ == t.params[1].name@);
        }
    }
}

pub(crate) proof fn lemma_copied_45()
    ensures
        params_copied(spec_tool(45)),
{
    let t = spec_tool(45);
    assert forall|j: int| 0 <= j < t.params.len() implies param_copied(t, #[trigger] t.params[j]) by {
        if j == 0 {
            assert(step_copies(t.recipe[4], t.params[0]));
        } else {
        }
    }
}

pub(crate) proof fn lemma_param_names_45()
    ensures
        param_names_distinct(spec_tool(45)),
{
    let t = spec_tool(45);
    assert(t.params[0].name@ != t.params[1].name@) by {
        reveal_strlit("cluster");
        reveal_strlit("force");
        assert("cluster"@.len() != "force"@.len());
    }
    assert forall|a: int, b: int| 0 <= a < t.params.len() && 0 <= b < t.params.len() && a != b implies (#[trigger] t.params[a]).name@ != (#[trigger] t.params[b]).name@ by {
        if a == 0 && b == 1 {
        } else if a == 1 && b == 0 {
        }
    }
}

pub(crate) proof fn lemma_tool_46()
    ensures
        schema_agrees(spec_tool(46)),
{
    let t = spec_tool(46);
    assert forall|k: int| 0 <= k < t.recipe.len() implies step_agrees(t, #[trigger] t.recipe[k]) by {
        if k == 0 {
        } else if k == 1 {
        } else if k == 2 {
        } else {
            assert(t.params[0].name@ == "cluster"@);
        }
    }
    assert forall|j: int| 0 <= j < t.params.len() implies param_used(t, #[trigger] t.params[j]) by {
        assert(step_reads(t.recipe[3]) matches Some((key, _)) && key@ == t.params[0].name@);
    }
}

pub(crate) proof fn lemma_copied_46()
    ensures
        params_copied(spec_tool(46)),
{
    let t = spec_tool(46);
    assert forall|j: int| 0 <= j < t.params.len() implies param_copied(t, #[trigger] t.params[j]) by {
        assert(step_copies(t.recipe[3], t.params[0]));
    }
}

pub(crate) proof fn lemma_tool_47()
    ensures
        schema_agrees(spec_tool(47)),
{
    let t = spec_tool(47);
    assert forall|k: int| 0 <= k < t.recipe.len() implies step_agrees(t, #[trigger] t.recipe[k]) by {
        if k == 0 {
        } else if k == 1 {
        } else if k == 2 {
        } else {
            assert(t.params[0].name@ == "cluster"@);
        }
    }
    assert forall|j: int| 0 <= j < t.params.len() implies param_used(t, #[trigger] t.params[j]) by {
        assert(step_reads(t.recipe[3]) matches Some((key, _)) && key@ == t.params[0].name@);
    }
}

pub(crate) proof fn lemma_copied_47()
    ensures
        params_copied(spec_tool(47)),
{
    let t = spec_tool(47);
    assert forall|j: int| 0 <= j < t.params.len() implies param_copied(t, #[trigger] t.params[j]) by {
        assert(step_copies(t.recipe[3], t.params[0]));
    }
}

pub(crate) proof fn lemma_tool_48()
    ensures
        schema_agrees(spec_tool(48)),
{
    let t = spec_tool(48);
    assert forall|k: int| 0 <= k < t.recipe.len() implies step_agrees(t, #[trigger] t.recipe[k]) by {
        if k == 0 {
        } else if k == 1 {
        } else if k == 2 {
        } else if k == 3 {
        } else if k == 4 {
        } else if k == 5 {
            assert(t.params[0].name@ == "cluster"@);
        } else if k == 6 {
        } else if k == 7 {
            assert(t.params[1].name@ == "name"@);
        } else if k == 8 {
        } else if k == 9 {
            assert(t.params[2].name@ == "flavor"@);
        } else {
            assert(t.params[3].name@ == "size_per_zone"@);
        }
    }
    assert forall|j: int| 0 <= j < t.params.len() implies param_used(t, #[trigger] t.params[j]) by {
        if j == 0 {
            assert(step_reads(t.recipe[5]) matches Some((key, _)) && key@ == t.params[0].name@);
        } else if j == 1 {
            assert(step_reads(t.recipe[7]) matches Some((key, _)) && key@ == t.params[1].name@);
        } else if j == 2 {
            assert(step_reads(t.recipe[9]) matches Some((key, _)) && key@ == t.params[2].name@);
        } else {
            assert(step_reads(t.recipe[10]) matches Some((key, _)) && key@ == t.params[3].name@);
        }
    }
}

pub(crate) proof fn lemma_copied_48()
    ensures
        params_copied(spec_tool(48)),
{
    let t = spec_tool(48);
    assert forall|j: int| 0 <= j < t.params.len() implies param_copied(t, #[trigger] t.params[j]) by {
        if j == 0 {
            assert(step_copies(t.recipe[5], t.params[0]));
        } else if j == 1 {
            assert(step_copies(t.recipe[7], t.params[1]));
        } else if j == 2 {
            assert(step_copies(t.recipe[9], t.params[2]));
        } else {
            assert(step_copies(t.recipe[10], t.params[3]));
        }
    }
}

pub(crate) proof fn lemma_param_names_48()
    ensures
        param_names_distinct(spec_tool(48)),
{
    let t = spec_tool(48);
    assert(t.params[0].name@ != t.params[1].name@) by {
        reveal_strlit("cluster");
        reveal_strlit("name");
        assert("cluster"@.len() != "name"@.len());
    }
    assert(t.params[0].name@ != t.params[2].name@) by {
        reveal_strlit("cluster");
        reveal_strlit("flavor");
        assert("cluster"@.len() != "flavor"@.len());
    }
    assert(t.params[0].name@ != t.params[3].name@) by {
        reveal_strlit("cluster");
        reveal_strlit("size_per_zone");
        assert("cluster"@.len() != "size_per_zone"@.len());
    }
    assert(t.params[1].name@ != t.params[2].name@) by {
        reveal_strlit("name");
        reveal_strlit("flavor");
        assert("name"@.len() != "flavor"@.len());
    }
    assert(t.params[1].name@ != t.params[3].name@) by {
        reveal_strlit("name");
        reveal_strlit("size_per_zone");
        assert("name"@.len() != "size_per_zone"@.len());
    }
    assert(t.params[2].name@ != t.params[3].name@) by {
        reveal_strlit("flavor");
        reveal_strlit("size_per_zone");
        assert("flavor"@.len() != "size_per_zone"@.len());
    }
    assert forall|a: int, b: int| 0 <= a < t.params.len() && 0 <= b < t.params.len() && a != b implies (#[trigger] t.params[a]).name@ != (#[trigger] t.params[b]).name@ by {
        if a == 0 && b == 1 {
        } else if a == 0 && b == 2 {
        } else if a == 0 && b == 3 {
        } else if a == 1 && b == 0 {
        } else if a == 1 && b == 2 {
        } else if a == 1 && b == 3 {
        } else if a == 2 && b == 0 {
        } else if a == 2 && b == 1 {
        } else if a == 2 && b == 3 {
        } else if a == 3 && b == 0 {
        } else if a == 3 && b == 1 {
        } else if a == 3 && b == 2 {
        }
    }
}

pub(crate) proof fn lemma_tool_49()
    ensures
        schema_agrees(spec_tool(49)),
{
    let t = spec_tool(49);
    assert forall|k: int| 0 <= k < t.recipe.len() implies step_agrees(t, #[trigger] t.recipe[k]) by {
        if k == 0 {
        } else if k == 1 {
        } else if k == 2 {
        } else if k == 3 {
        } else if k == 4 {
            assert(t.params[0].name@ == "cluster"@);
        } else if k == 5 {
        } else if k == 6 {
            assert(t.params[1].name@ == "pool"@);
        } else if k == 7 {
        } else {
            assert(t.params[2].name@ == "size_per_zone"@);
        }
    }
    assert forall|j: int| 0 <= j < t.params.len() implies param_used(t, #[trigger] t.params[j]) by {
        if j == 0 {
            assert(step_reads(t.recipe[4]) matches Some((key, _)) && key@ == t.params[0].name@);
        } else if j == 1 {
            assert(step_reads(t.recipe[6]) matches Some((key, _)) && key@ == t.params[1].name@);
        } else {
            assert(step_reads(t.recipe[8]) matches Some((key, _)) && key@ == t.params[2].name@);
        }
    }
}

pub(crate) proof fn lemma_copied_49()
    ensures
        params_copied(spec_tool(49)),
{
    let t = spec_tool(49);
    assert forall|j: int| 0 <= j < t.params.len() implies param_copied(t, #[trigger] t.params[j]) by {
        if j == 0 {
            assert(step_copies(t.recipe[4], t.params[0]));
        } else if j == 1 {
            assert(step_copies(t.recipe[6], t.params[1]));
        } else {
            assert(step_copies(t.recipe[8], t.params[2]));
        }
    }
}

pub(crate) proof fn lemma_param_names_49()
    ensures
        param_names_distinct(spec_tool(49)),
{
    let t = spec_tool(49);
    assert(t.params[0].name@ != t.params[1].name@) by {
        reveal_strlit("cluster");
        reveal_strlit("pool");
        assert("cluster"@.len() != "pool"@.len());
    }
    assert(t.params[0].name@ != t.params[2].name@) by {
        reveal_strlit("cluster");
        reveal_strlit("size_per_zone");
        assert("cluster"@.len() != "size_per_zone"@.len());
    }
    assert(t.params[1].name@ != t.params[2].name@) by {
        reveal_strlit("pool");
        reveal_strlit("size_per_zone");
        assert("pool"@.len() != "size_per_zone"@.len());
    }
    assert forall|a: int, b: int| 0 <= a < t.params.len() && 0 <= b < t.params.len() && a != b implies (#[trigger] t.params[a]).name@ != (#[trigger] t.params[b]).name@ by {
        if a == 0 && b == 1 {
        } else if a == 0 && b == 2 {
        } else if a == 1 && b == 0 {
        } else if a == 1 && b == 2 {
        } else if a == 2 && b == 0 {
        } else if a == 2 && b == 1 {
        }
    }
}

pub(crate) proof fn lemma_tool_50()
    ensures
        schema_agrees(spec_tool(50)),
{
    let t = spec_tool(50);
    assert forall|k: int| 0 <= k < t.recipe.len() implies step_agrees(t, #[trigger] t.recipe[k]) by {
        if k == 0 {
        } else if k == 1 {
        } else if k == 2 {
            assert(t.params[0].name@ == "provider"@);
        } else {
            assert(t.params[1].name@ == "location"@);
        }
    }
    assert forall|j: int| 0 <= j < t.params.len() implies param_used(t, #[trigger] t.params[j]) by {
        if j == 0 {
            assert(step_reads(t.recipe[2]) matches Some((key, _)) && key@ == t.params[0].name@);
        } else {
            assert(step_reads(t.recipe[3]) matches Some((key, _)) && key@ == t.params[1].name@);
        }
    }
}

pub(crate) proof fn lemma_copied_50()
    ensures
        params_copied(spec_tool(50)),
{
    let t = spec_tool(50);
    assert forall|j: int| 0 <= j < t.params.len() implies param_copied(t, #[trigger] t.params[j]) by {
        if j == 0 {
            assert(step_copies(t.recipe[2], t.params[0]));
        } else {
            assert(step_copies(t.recipe[3], t.params[1]));
        }
    }
}

pub(crate) proof fn lemma_param_names_50()
    ensures
        param_names_distinct(spec_tool(50)),
{
    let t = spec_tool(50);
    assert(t.params[0].name@ != t.params[1].name@) by {
        reveal_strlit("provider");
        reveal_strlit("location");
        assert("provider"@[0] != "location"@[0]);
    }
    assert forall|a: int, b: int| 0 <= a < t.params.len() && 0 <= b < t.params.len() && a != b implies (#[trigger] t.params[a]).name@ != (#[trigger] t.params[b]).name@ by {
        if a == 0 && b == 1 {
        } else if a == 1 && b == 0 {
        }
    }
}

pub(crate) proof fn lemma_tool_51()
    ensures
        schema_agrees(spec_tool(51)),
{
    let t = spec_tool(51);
    assert forall|k: int| 0 <= k < t.recipe.len() implies step_agrees(t, #[trigger] t.recipe[k]) by {
        if k == 0 {
        } else {
        }
    }
}

pub(crate) proof fn lemma_tool_52()
    ensures
        schema_agrees(spec_tool(52)),
{
    let t = spec_tool(52);
    assert forall|k: int| 0 <= k < t.recipe.len() implies step_agrees(t, #[trigger] t.recipe[k]) by {
        if k == 0 {
        } else if k == 1 {
        } else if k == 2 {
        } else if k == 3 {
            assert(t.params[0].name@ == "zone"@);
        } else {
            assert(t.params[1].name@ == "provider"@);
        }
    }
    assert forall|j: int| 0 <= j < t.params.len() implies param_used(t, #[trigger] t.params[j]) by {
        if j == 0 {
            assert(step_reads(t.recipe[3]) matches Some((key, _)) && key@ == t.params[0].name@);
        } else {
            assert(step_reads(t.recipe[4]) matches Some((key, _)) && key@ == t.params[1].name@);
        }
    }
}

pub(crate) proof fn lemma_copied_52()
    ensures
        params_copied(spec_tool(52)),
{
    let t = spec_tool(52);
    assert forall|j: int| 0 <= j < t.params.len() implies param_copied(t, #[trigger] t.params[j]) by {
        if j == 0 {
            assert(step_copies(t.recipe[3], t.params[0]));
        } else {
            assert(step_copies(t.recipe[4], t.params[1]));
        }
    }
}

pub(crate) proof fn lemma_param_names_52()
    ensures
        param_names_distinct(spec_tool(52)),
{
    let t = spec_tool(52);
    assert(t.params[0].name@ != t.params[1].name@) by {
        reveal_strlit("zone");
        reveal_strlit("provider");
        assert("zone"@.len() != "provider"@.len());
    }
    assert forall|a: int, b: int| 0 <= a < t.params.len() && 0 <= b < t.params.len() && a != b implies (#[trigger] t.params[a]).name@ != (#[trigger] t.params[b]).name@ by {
        if a == 0 && b == 1 {
        } else if a == 1 && b == 0 {
        }
    }
}

pub(crate) proof fn lemma_tool_53()
    ensures
        schema_agrees(spec_tool(53)),
{
    let t = spec_tool(53);
    assert forall|k: int| 0 <= k < t.recipe.len() implies step_agrees(t, #[trigger] t.recipe[k]) by {
        if k == 0 {
        } else {
        }
    }
}

pub(crate) proof fn lemma_tool_54()
    ensures
        schema_agrees(spec_tool(54)),
{
    let t = spec_tool(54);
    assert forall|k: int| 0 <= k < t.recipe.len() implies step_agrees(t, #[trigger] t.recipe[k]) by {
        if k == 0 {
        } else if k == 1 {
        } else if k == 2 {
            assert(t.params[0].name@ == "name"@);
        } else {
            assert(t.params[1].name@ == "resource_group"@);
        }
    }
    assert forall|j: int| 0 <= j < t.params.len() implies param_used(t, #[trigger] t.params[j]) by {
        if j == 0 {
            assert(step_reads(t.recipe[2]) matches Some((key, _)) && key@ == t.params[0].name@);
        } else {
            assert(step_reads(t.recipe[3]) matches Some((key, _)) && key@ == t.params[1].name@);
        }
    }
}

pub(crate) proof fn lemma_copied_54()
    ensures
        params_copied(spec_tool(54)),
{
    let t = spec_tool(54);
    assert forall|j: int| 0 <= j < t.params.len() implies param_copied(t, #[trigger] t.params[j]) by {
        if j == 0 {
            assert(step_copies(t.recipe[2], t.params[0]));
        } else {
            assert(step_copies(t.recipe[3], t.params[1]));
        }
    }
}

pub(crate) proof fn lemma_param_names_54()
    ensures
        param_names_distinct(spec_tool(54)),
{
    let t = spec_tool(54);
    assert(t.params[0].name@ != t.params[1].name@) by {
        reveal_strlit("name");
        reveal_strlit("resource_group");
        assert("name"@.len() != "resource_group"@.len());
    }
    assert forall|a: int, b: int| 0 <= a < t.params.len() && 0 <= b < t.params.len() && a != b implies (#[trigger] t.params[a]).name@ != (#[trigger] t.params[b]).name@ by {
        if a == 0 && b == 1 {
        } else if a == 1 && b == 0 {
        }
    }
}

pub(crate) proof fn lemma_tool_55()
    ensures
        schema_agrees(spec_tool(55)),
{
    let t = spec_tool(55);
    assert forall|k: int| 0 <= k < t.recipe.len() implies step_agrees(t, #[trigger] t.recipe[k]) by {
        if k == 0 {
        } else if k == 1 {
        } else if k == 2 {
            assert(t.params[0].name@ == "repository"@);
        } else {
            assert(t.params[1].name@ == "include_ibm"@);
        }
    }
    assert forall|j: int| 0 <= j < t.params.len() implies param_used(t, #[trigger] t.params[j]) by {
        if j == 0 {
            assert(step_reads(t.recipe[2]) matches Some((key, _)) && key@ == t.params[0].name@);
        } else {
            assert(step_reads(t.recipe[3]) matches Some((key, _)) && key@ == t.params[1].name@);
        }
    }
}

pub(crate) proof fn lemma_copied_55()
    ensures
        params_copied(spec_tool(55)),
{
    let t = spec_tool(55);
    assert forall|j: int| 0 <= j < t.params.len() implies param_copied(t, #[trigger] t.params[j]) by {
        if j == 0 {
            assert(step_copies(t.recipe[2], t.params[0]));
        } else {
        }
    }
}

pub(crate) proof fn lemma_param_names_55()
    ensures
        param_names_distinct(spec_tool(55)),
{
    let t = spec_tool(55);
    assert(t.params[0].name@ != t.params[1].name@) by {
        reveal_strlit("repository");
        reveal_strlit("include_ibm");
        assert("repository"@.len() != "include_ibm"@.len());
    }
    assert forall|a: int, b: int| 0 <= a < t.params.len() && 0 <= b < t.params.len() && a != b implies (#[trigger] t.params[a]).name@ != (#[trigger] t.params[b]).name@ by {
        if a == 0 && b == 1 {
        } else if a == 1 && b == 0 {
        }
    }
}

pub(crate) proof fn lemma_tool_56()
    ensures
        schema_agrees(spec_tool(56)),
{
    let t = spec_tool(56);
    assert forall|k: int| 0 <= k < t.recipe.len() implies step_agrees(t, #[trigger] t.recipe[k]) by {
        if k == 0 {
        } else if k == 1 {
        } else if k == 2 {
            assert(t.params[0].name@ == "image"@);
        } else {
            assert(t.params[1].name@ == "force"@);
        }
    }
    assert forall|j: int| 0 <= j < t.params.len() implies param_used(t, #[trigger] t.params[j]) by {
        if j == 0 {
            assert(step_reads(t.recipe[2]) matches Some((key, _)) && key@ == t.params[0].name@);
        } else {
            assert(step_reads(t.recipe[3]) matches Some((key, _)) && key@ == t.params[1].name@);
        }
    }
}

pub(crate) proof fn lemma_copied_56()
    ensures
        params_copied(spec_tool(56)),
{
    let t = spec_tool(56);
    assert forall|j: int| 0 <= j < t.params.len() implies param_copied(t, #[trigger] t.params[j]) by {
        if j == 0 {
            assert(step_copies(t.recipe[2], t.params[0]));
        } else {
        }
    }
}

pub(crate) proof fn lemma_param_names_56()
    ensures
        param_names_distinct(spec_tool(56)),
{
    let t = spec_tool(56);
    assert(t.params[0].name@ != t.params[1].name@) by {
        reveal_strlit("image");
        reveal_strlit("force");
        assert("image"@[0] != "force"@[0]);
    }
    assert forall|a: int, b: int| 0 <= a < t.params.len() && 0 <= b < t.params.len() && a != b implies (#[trigger] t.params[a]).name@ != (#[trigger] t.params[b]).name@ by {
        if a == 0 && b == 1 {
        } else if a == 1 && b == 0 {
        }
    }
}

pub(crate) proof fn lemma_tool_57()
    ensures
        schema_agrees(spec_tool(57)),
{
    let t = spec_tool(57);
    assert forall|k: int| 0 <= k < t.recipe.len() implies step_agrees(t, #[trigger] t.recipe[k]) by {
        if k == 0 {
        } else {
        }
    }
}

pub(crate) proof fn lemma_tool_58()
    ensures
        schema_agrees(spec_tool(58)),
{
    let t = spec_tool(58);
    assert forall|k: int| 0 <= k < t.recipe.len() implies step_agrees(t, #[trigger] t.recipe[k]) by {
        if k == 0 {
        } else {
        }
    }
}

pub(crate) proof fn lemma_tool_59()
    ensures
        schema_agrees(spec_tool(59)),
{
    let t = spec_tool(59);
    assert forall|k: int| 0 <= k < t.recipe.len() implies step_agrees(t, #[trigger] t.recipe[k]) by {
        if k == 0 {
        } else if k == 1 {
        } else if k == 2 {
            assert(t.params[0].name@ == "email"@);
        } else {
            assert(t.params[1].name@ == "access_groups"@);
        }
    }
    assert forall|j: int| 0 <= j < t.params.len() implies param_used(t, #[trigger] t.params[j]) by {
        if j == 0 {
            assert(step_reads(t.recipe[2]) matches Some((key, _)) && key@ == t.params[0].name@);
        } else {
            assert(step_reads(t.recipe[3]) matches Some((key, _)) && key@ == t.params[1].name@);
        }
    }
}

pub(crate) proof fn lemma_copied_59()
    ensures
        params_copied(spec_tool(59)),
{
    let t = spec_tool(59);
    assert forall|j: int| 0 <= j < t.params.len() implies param_copied(t, #[trigger] t.params[j]) by {
        if j == 0 {
            assert(step_copies(t.recipe[2], t.params[0]));
        } else {
            assert(step_copies(t.recipe[3], t.params[1]));
        }
    }
}

pub(crate) proof fn lemma_param_names_59()
    ensures
        param_names_distinct(spec_tool(59)),
{
    let t = spec_tool(59);
    assert(t.params[0].name@ != t.params[1].name@) by {
        reveal_strlit("email");
        reveal_strlit("access_groups");
        assert("email"@.len() != "access_groups"@.len());
    }
    assert forall|a: int, b: int| 0 <= a < t.params.len() && 0 <= b < t.params.len() && a != b implies (#[trigger] t.params[a]).name@ != (#[trigger] t.params[b]).name@ by {
        if a == 0 && b == 1 {
        } else if a == 1 && b == 0 {
        }
    }
}

pub(crate) proof fn lemma_tool_60()
    ensures
        schema_agrees(spec_tool(60)),
{
    let t = spec_tool(60);
    assert forall|k: int| 0 <= k < t.recipe.len() implies step_agrees(t, #[trigger] t.recipe[k]) by {
        if k == 0 {
        } else {
        }
    }
}

pub(crate) proof fn lemma_tool_61()
    ensures
        schema_agrees(spec_tool(61)),
{
    let t = spec_tool(61);
    assert forall|k: int| 0 <= k < t.recipe.len() implies step_agrees(t, #[trigger] t.recipe[k]) by {
        if k == 0 {
        } else if k == 1 {
        } else if k == 2 {
            assert(t.params[0].name@ == "name"@);
        } else if k == 3 {
            assert(t.params[1].name@ == "description"@);
        } else {
            assert(t.params[2].name@ == "file"@);
        }
    }
    assert forall|j: int| 0 <= j < t.params.len() implies param_used(t, #[trigger] t.params[j]) by {
        if j == 0 {
            assert(step_reads(t.recipe[2]) matches Some((key, _)) && key@ == t.params[0].name@);
        } else if j == 1 {
            assert(step_reads(t.recipe[3]) matches Some((key, _)) && key@ == t.params[1].name@);
        } else {
            assert(step_reads(t.recipe[4]) matches Some((key, _)) && key@ == t.params[2].name@);
        }
    }
}

pub(crate) proof fn lemma_copied_61()
    ensures
        params_copied(spec_tool(61)),
{
    let t = spec_tool(61);
    assert forall|j: int| 0 <= j < t.params.len() implies param_copied(t, #[trigger] t.params[j]) by {
        if j == 0 {
            assert(step_copies(t.recipe[2], t.params[0]));
        } else if j == 1 {
            assert(step_copies(t.recipe[3], t.params[1]));
        } else {
            assert(step_copies(t.recipe[4], t.params[2]));
        }
    }
}

pub(crate) proof fn lemma_param_names_61()
    ensures
        param_names_distinct(spec_tool(61)),
{
    let t = spec_tool(61);
    assert(t.params[0].name@ != t.params[1].name@) by {
        reveal_strlit("name");
        reveal_strlit("description");
        assert("name"@.len() != "description"@.len());
    }
    assert(t.params[0].name@ != t.params[2].name@) by {
        reveal_strlit("name");
        reveal_strlit("file");
        assert("name"@[0] != "file"@[0]);
    }
    assert(t.params[1].name@ != t.params[2].name@) by {
        reveal_strlit("description");
        reveal_strlit("file");
        assert("description"@.len() != "file"@.len());
    }
    assert forall|a: int, b: int| 0 <= a < t.params.len() && 0 <= b < t.params.len() && a != b implies (#[trigger] t.params[a]).name@ != (#[trigger] t.params[b]).name@ by {
        if a == 0 && b == 1 {
        } else if a == 0 && b == 2 {
        } else if a == 1 && b == 0 {
        } else if a == 1 && b == 2 {
        } else if a == 2 && b == 0 {
        } else if a == 2 && b == 1 {
        }
    }
}

pub(crate) proof fn lemma_tool_62()
    ensures
        schema_agrees(spec_tool(62)),
{
    let t = spec_tool(62);
    assert forall|k: int| 0 <= k < t.recipe.len() implies step_agrees(t, #[trigger] t.recipe[k]) by {
        if k == 0 {
        } else if k == 1 {
        } else if k == 2 {
            assert(t.params[0].name@ == "name"@);
        } else {
            assert(t.params[1].name@ == "force"@);
        }
    }
    assert forall|j: int| 0 <= j < t.params.len() implies param_used(t, #[trigger] t.params[j]) by {
        if j == 0 {
            assert(step_reads(t.recipe[2]) matches Some((key, _)) && key@ == t.params[0].name@);
        } else {
            assert(step_reads(t.recipe[3]) matches Some((key, _)) && key@ == t.params[1].name@);
        }
    }
}

pub(crate) proof fn lemma_copied_62()
    ensures
        params_copied(spec_tool(62)),
{
    let t = spec_tool(62);
    assert forall|j: int| 0 <= j < t.params.len() implies param_copied(t, #[trigger] t.params[j]) by {
        if j == 0 {
            assert(step_copies(t.recipe[2], t.params[0]));
        } else {
        }
    }
}

pub(crate) proof fn lemma_param_names_62()
    ensures
        param_names_distinct(spec_tool(62)),
{
    let t = spec_tool(62);
    assert(t.params[0].name@ != t.params[1].name@) by {
        reveal_strlit("name");
        reveal_strlit("force");
        assert("name"@.len() != "force"@.len());
    }
    assert forall|a: int, b: int| 0 <= a < t.params.len() && 0 <= b < t.params.len() && a != b implies (#[trigger] t.params[a]).name@ != (#[trigger] t.params[b]).name@ by {
        if a == 0 && b == 1 {
        } else if a == 1 && b == 0 {
        }
    }
}

pub(crate) proof fn lemma_tool_63()
    ensures
        schema_agrees(spec_tool(63)),
{
    let t = spec_tool(63);
    assert forall|k: int| 0 <= k < t.recipe.len() implies step_agrees(t, #[trigger] t.recipe[k]) by {
        if k == 0 {
        } else {
        }
    }
}

pub(crate) proof fn lemma_tool_64()
    ensures
        schema_agrees(spec_tool(64)),
{
    let t = spec_tool(64);
    assert forall|k: int| 0 <= k < t.recipe.len() implies step_agrees(t, #[trigger] t.recipe[k]) by {
        if k == 0 {
        } else if k == 1 {
        } else {
            assert(t.params[0].name@ == "name"@);
        }
    }
    assert forall|j: int| 0 <= j < t.params.len() implies param_used(t, #[trigger] t.params[j]) by {
        assert(step_reads(t.recipe[2]) matches Some((key, _)) && key@ == t.params[0].name@);
    }
}

pub(crate) proof fn lemma_copied_64()
    ensures
        params_copied(spec_tool(64)),
{
    let t = spec_tool(64);
    assert forall|j: int| 0 <= j < t.params.len() implies param_copied(t, #[trigger] t.params[j]) by {
        assert(step_copies(t.recipe[2], t.params[0]));
    }
}

pub(crate) proof fn lemma_tool_65()
    ensures
        schema_agrees(spec_tool(65)),
{
    let t = spec_tool(65);
    assert forall|k: int| 0 <= k < t.recipe.len() implies step_agrees(t, #[trigger] t.recipe[k]) by {
        if k == 0 {
        } else if k == 1 {
        } else if k == 2 {
            assert(t.params[0].name@ == "name"@);
        } else {
            assert(t.params[1].name@ == "description"@);
        }
    }
    assert forall|j: int| 0 <= j < t.params.len() implies param_used(t, #[trigger] t.params[j]) by {
        if j == 0 {
            assert(step_reads(t.recipe[2]) matches Some((key, _)) && key@ == t.params[0].name@);
        } else {
            assert(step_reads(t.recipe[3]) matches Some((key, _)) && key@ == t.params[1].name@);
        }
    }
}

pub(crate) proof fn lemma_copied_65()
    ensures
        params_copied(spec_tool(65)),
{
    let t = spec_tool(65);
    assert forall|j: int| 0 <= j < t.params.len() implies param_copied(t, #[trigger] t.params[j]) by {
        if j == 0 {
            assert(step_copies(t.recipe[2], t.params[0]));
        } else {
            assert(step_copies(t.recipe[3], t.params[1]));
        }
    }
}

pub(crate) proof fn lemma_param_names_65()
    ensures
        param_names_distinct(spec_tool(65)),
{
    let t = spec_tool(65);
    assert(t.params[0].name@ != t.params[1].name@) by {
        reveal_strlit("name");
        reveal_strlit("description");
        assert("name"@.len() != "description"@.len());
    }
    assert forall|a: int, b: int| 0 <= a < t.params.len() && 0 <= b < t.params.len() && a != b implies (#[trigger] t.params[a]).name@ != (#[trigger] t.params[b]).name@ by {
        if a == 0 && b == 1 {
        } else if a == 1 && b == 0 {
        }
    }
}

pub(crate) proof fn lemma_tool_66()
    ensures
        schema_agrees(spec_tool(66)),
{
    let t = spec_tool(66);
    assert forall|k: int| 0 <= k < t.recipe.len() implies step_agrees(t, #[trigger] t.recipe[k]) by {
        if k == 0 {
        } else if k == 1 {
        } else if k == 2 {
            assert(t.params[0].name@ == "name"@);
        } else {
            assert(t.params[1].name@ == "force"@);
        }
    }
    assert forall|j: int| 0 <= j < t.params.len() implies param_used(t, #[trigger] t.params[j]) by {
        if j == 0 {
            assert(step_reads(t.recipe[2]) matches Some((key, _)) && key@ == t.params[0].name@);
        } else {
            assert(step_reads(t.recipe[3]) matches Some((key, _)) && key@ == t.params[1].name@);
        }
    }
}

pub(crate) proof fn lemma_copied_66()
    ensures
        params_copied(spec_tool(66)),
{
    let t = spec_tool(66);
    assert forall|j: int| 0 <= j < t.params.len() implies param_copied(t, #[trigger] t.params[j]) by {
        if j == 0 {
            assert(step_copies(t.recipe[2], t.params[0]));
        } else {
        }
    }
}

pub(crate) proof fn lemma_param_names_66()
    ensures
        param_names_distinct(spec_tool(66)),
{
    let t = spec_tool(66);
    assert(t.params[0].name@ != t.params[1].name@) by {
        reveal_strlit("name");
        reveal_strlit("force");
        assert("name"@.len() != "force"@.len());
    }
    assert forall|a: int, b: int| 0 <= a < t.params.len() && 0 <= b < t.params.len() && a != b implies (#[trigger] t.params[a]).name@ != (#[trigger] t.params[b]).name@ by {
        if a == 0 && b == 1 {
        } else if a == 1 && b == 0 {
        }
    }
}

pub(crate) proof fn lemma_tool_67()
    ensures
        schema_agrees(spec_tool(67)),
{
    let t = spec_tool(67);
    assert forall|k: int| 0 <= k < t.recipe.len() implies step_agrees(t, #[trigger] t.recipe[k]) by {
        if k == 0 {
        } else if k == 1 {
        } else {
            assert(t.params[0].name@ == "service_id"@);
        }
    }
    assert forall|j: int| 0 <= j < t.params.len() implies param_used(t, #[trigger] t.params[j]) by {
        assert(step_reads(t.recipe[2]) matches Some((key, _)) && key@ == t.params[0].name@);
    }
}

pub(crate) proof fn lemma_copied_67()
    ensures
        params_copied(spec_tool(67)),
{
    let t = spec_tool(67);
    assert forall|j: int| 0 <= j < t.params.len() implies param_copied(t, #[trigger] t.params[j]) by {
        assert(step_copies(t.recipe[2], t.params[0]));
    }
}

pub(crate) proof fn lemma_tool_68()
    ensures
        schema_agrees(spec_tool(68)),
{
    let t = spec_tool(68);
    assert forall|k: int| 0 <= k < t.recipe.len() implies step_agrees(t, #[trigger] t.recipe[k]) by {
        if k == 0 {
        } else if k == 1 {
        } else if k == 2 {
            assert(t.params[0].name@ == "name"@);
        } else if k == 3 {
            assert(t.params[1].name@ == "service_id"@);
        } else if k == 4 {
            assert(t.params[2].name@ == "description"@);
        } else {
            assert(t.params[3].name@ == "file"@);
        }
    }
    assert forall|j: int| 0 <= j < t.params.len() implies param_used(t, #[trigger] t.params[j]) by {
        if j == 0 {
            assert(step_reads(t.recipe[2]) matches Some((key, _)) && key@ == t.params[0].name@);
        } else if j == 1 {
            assert(step_reads(t.recipe[3]) matches Some((key, _)) && key@ == t.params[1].name@);
        } else if j == 2 {
            assert(step_reads(t.recipe[4]) matches Some((key, _)) && key@ == t.params[2].name@);
        } else {
            assert(step_reads(t.recipe[5]) matches Some((key, _)) && key@ == t.params[3].name@);
        }
    }
}

pub(crate) proof fn lemma_copied_68()
    ensures
        params_copied(spec_tool(68)),
{
    let t = spec_tool(68);
    assert forall|j: int| 0 <= j < t.params.len() implies param_copied(t, #[trigger] t.params[j]) by {
        if j == 0 {
            assert(step_copies(t.recipe[2], t.params[0]));
        } else if j == 1 {
            assert(step_copies(t.recipe[3], t.params[1]));
        } else if j == 2 {
            assert(step_copies(t.recipe[4], t.params[2]));
        } else {
            assert(step_copies(t.recipe[5], t.params[3]));
        }
    }
}

pub(crate) proof fn lemma_param_names_68()
    ensures
        param_names_distinct(spec_tool(68)),
{
    let t = spec_tool(68);
    assert(t.params[0].name@ != t.params[1].name@) by {
        reveal_strlit("name");
        reveal_strlit("service_id");
        assert("name"@.len() != "service_id"@.len());
    }
    assert(t.params[0].name@ != t.params[2].name@) by {
        reveal_strlit("name");
        reveal_strlit("description");
        assert("name"@.len() != "description"@.len());
    }
    assert(t.params[0].name@ != t.params[3].name@) by {
        reveal_strlit("name");
        reveal_strlit("file");
        assert("name"@[0] != "file"@[0]);
    }
    assert(t.params[1].name@ != t.params[2].name@) by {
        reveal_strlit("service_id");
        reveal_strlit("description");
        assert("service_id"@.len() != "description"@.len());
    }
    assert(t.params[1].name@ != t.params[3].name@) by {
        reveal_strlit("service_id");
        reveal_strlit("file");
        assert("service_id"@.len() != "file"@.len());
    }
    assert(t.params[2].name@ != t.params[3].name@) by {
        reveal_strlit("description");
        reveal_strlit("file");
        assert("description"@.len() != "file"@.len());
    }
    assert forall|a: int, b: int| 0 <= a < t.params.len() && 0 <= b < t.params.len() && a != b implies (#[trigger] t.params[a]).name@ != (#[trigger] t.params[b]).name@ by {
        if a == 0 && b == 1 {
        } else if a == 0 && b == 2 {
        } else if a == 0 && b == 3 {
        } else if a == 1 && b == 0 {
        } else if a == 1 && b == 2 {
        } else if a == 1 && b == 3 {
        } else if a == 2 && b == 0 {
        } else if a == 2 && b == 1 {
        } else if a == 2 && b == 3 {
        } else if a == 3 && b == 0 {
        } else if a == 3 && b == 1 {
        } else if a == 3 && b == 2 {
        }
    }
}

pub(crate) proof fn lemma_tool_69()
    ensures
        schema_agrees(spec_tool(69)),
{
    let t = spec_tool(69);
    assert forall|k: int| 0 <= k < t.recipe.len() implies step_agrees(t, #[trigger] t.recipe[k]) by {
        if k == 0 {
        } else {
        }
    }
}

pub(crate) proof fn lemma_tool_70()
    ensures
        schema_agrees(spec_tool(70)),
{
    let t = spec_tool(70);
    assert forall|k: int| 0 <= k < t.recipe.len() implies step_agrees(t, #[trigger] t.recipe[k]) by {
        if k == 0 {
        } else if k == 1 {
        } else {
            assert(t.params[0].name@ == "name"@);
        }
    }
    assert forall|j: int| 0 <= j < t.params.len() implies param_used(t, #[trigger] t.params[j]) by {
        assert(step_reads(t.recipe[2]) matches Some((key, _)) && key@ == t.params[0].name@);
    }
}

pub(crate) proof fn lemma_copied_70()
    ensures
        params_copied(spec_tool(70)),
{
    let t = spec_tool(70);
    assert forall|j: int| 0 <= j < t.params.len() implies param_copied(t, #[trigger] t.params[j]) by {
        assert(step_copies(t.recipe[2], t.params[0]));
    }
}

pub(crate) proof fn lemma_tool_71()
    ensures
        schema_agrees(spec_tool(71)),
{
    let t = spec_tool(71);
    assert forall|k: int| 0 <= k < t.recipe.len() implies step_agrees(t, #[trigger] t.recipe[k]) by {
        if k == 0 {
        } else if k == 1 {
        } else if k == 2 {
            assert(t.params[0].name@ == "name"@);
        } else {
            assert(t.params[1].name@ == "description"@);
        }
    }
    assert forall|j: int| 0 <= j < t.params.len() implies param_used(t, #[trigger] t.params[j]) by {
        if j == 0 {
            assert(step_reads(t.recipe[2]) matches Some((key, _)) && key@ == t.params[0].name@);
        } else {
            assert(step_reads(t.recipe[3]) matches Some((key, _)) && key@ == t.params[1].name@);
        }
    }
}

pub(crate) proof fn lemma_copied_71()
    ensures
        params_copied(spec_tool(71)),
{
    let t = spec_tool(71);
    assert forall|j: int| 0 <= j < t.params.len() implies param_copied(t, #[trigger] t.params[j]) by {
        if j == 0 {
            assert(step_copies(t.recipe[2], t.params[0]));
        } else {
            assert(step_copies(t.recipe[3], t.params[1]));
        }
    }
}

pub(crate) proof fn lemma_param_names_71()
    ensures
        param_names_distinct(spec_tool(71)),
{
    let t = spec_tool(71);
    assert(t.params[0].name@ != t.params[1].name@) by {
        reveal_strlit("name");
        reveal_strlit("description");
        assert("name"@.len() != "description"@.len());
    }
    assert forall|a: int, b: int| 0 <= a < t.params.len() && 0 <= b < t.params.len() && a != b implies (#[trigger] t.params[a]).name@ != (#[trigger] t.params[b]).name@ by {
        if a == 0 && b == 1 {
        } else if a == 1 && b == 0 {
        }
    }
}

pub(crate) proof fn lemma_tool_72()
    ensures
        schema_agrees(spec_tool(72)),
{
    let t = spec_tool(72);
    assert forall|k: int| 0 <= k < t.recipe.len() implies step_agrees(t, #[trigger] t.recipe[k]) by {
        if k == 0 {
        } else if k == 1 {
        } else {
            assert(t.params[0].name@ == "group"@);
        }
    }
    assert forall|j: int| 0 <= j < t.params.len() implies param_used(t, #[trigger] t.params[j]) by {
        assert(step_reads(t.recipe[2]) matches Some((key, _)) && key@ == t.params[0].name@);
    }
}

pub(crate) proof fn lemma_copied_72()
    ensures
        params_copied(spec_tool(72)),
{
    let t = spec_tool(72);
    assert forall|j: int| 0 <= j < t.params.len() implies param_copied(t, #[trigger] t.params[j]) by {
        assert(step_copies(t.recipe[2], t.params[0]));
    }
}

pub(crate) proof fn lemma_tool_73()
    ensures
        schema_agrees(spec_tool(73)),
{
    let t = spec_tool(73);
    assert forall|k: int| 0 <= k < t.recipe.len() implies step_agrees(t, #[trigger] t.recipe[k]) by {
        if k == 0 {
        } else if k == 1 {
        } else if k == 2 {
            assert(t.params[0].name@ == "group"@);
        } else if k == 3 {
        } else {
            assert(t.params[1].name@ == "users"@);
        }
    }
    assert forall|j: int| 0 <= j < t.params.len() implies param_used(t, #[trigger] t.params[j]) by {
        if j == 0 {
            assert(step_reads(t.recipe[2]) matches Some((key, _)) && key@ == t.params[0].name@);
        } else {
            assert(step_reads(t.recipe[4]) matches Some((key, _)) && key@ == t.params[1].name@);
        }
    }
}

pub(crate) proof fn lemma_copied_73()
    ensures
        params_copied(spec_tool(73)),
{
    let t = spec_tool(73);
    assert forall|j: int| 0 <= j < t.params.len() implies param_copied(t, #[trigger] t.params[j]) by {
        if j == 0 {
            assert(step_copies(t.recipe[2], t.params[0]));
        } else {
            assert(step_copies(t.recipe[4], t.params[1]));
        }
    }
}

pub(crate) proof fn lemma_param_names_73()
    ensures
        param_names_distinct(spec_tool(73)),
{
    let t = spec_tool(73);
    assert(t.params[0].name@ != t.params[1].name@) by {
        reveal_strlit("group");
        reveal_strlit("users");
        assert("group"@[0] != "users"@[0]);
    }
    assert forall|a: int, b: int| 0 <= a < t.params.len() && 0 <= b < t.params.len() && a != b implies (#[trigger] t.params[a]).name@ != (#[trigger] t.params[b]).name@ by {
        if a == 0 && b == 1 {
        } else if a == 1 && b == 0 {
        }
    }
}

pub(crate) proof fn lemma_tool_74()
    ensures
        schema_agrees(spec_tool(74)),
{
    let t = spec_tool(74);
    assert forall|k: int| 0 <= k < t.recipe.len() implies step_agrees(t, #[trigger] t.recipe[k]) by {
        if k == 0 {
        } else if k == 1 {
        } else {
            assert(t.params[0].name@ == "group"@);
        }
    }
    assert forall|j: int| 0 <= j < t.params.len() implies param_used(t, #[trigger] t.params[j]) by {
        assert(step_reads(t.recipe[2]) matches Some((key, _)) && key@ == t.params[0].name@);
    }
}

pub(crate) proof fn lemma_copied_74()
    ensures
        params_copied(spec_tool(74)),
{
    let t = spec_tool(74);
    assert forall|j: int| 0 <= j < t.params.len() implies param_copied(t, #[trigger] t.params[j]) by {
        assert(step_copies(t.recipe[2], t.params[0]));
    }
}

pub(crate) proof fn lemma_tool_75()
    ensures
        schema_agrees(spec_tool(75)),
{
    let t = spec_tool(75);
    assert forall|k: int| 0 <= k < t.recipe.len() implies step_agrees(t, #[trigger] t.recipe[k]) by {
        if k == 0 {
        } else if k == 1 {
        } else if k == 2 {
            assert(t.params[0].name@ == "group"@);
        } else if k == 3 {
        } else if k == 4 {
            assert(t.params[1].name@ == "roles"@);
        } else if k == 5 {
            assert(t.params[2].name@ == "service_name"@);
        } else if k == 6 {
            assert(t.params[3].name@ == "resource_group"@);
        } else if k == 7 {
            assert(t.params[4].name@ == "resource_type"@);
        } else {
            assert(t.params[5].name@ == "resource"@);
        }
    }
    assert forall|j: int| 0 <= j < t.params.len() implies param_used(t, #[trigger] t.params[j]) by {
        if j == 0 {
            assert(step_reads(t.recipe[2]) matches Some((key, _)) && key@ == t.params[0].name@);
        } else if j == 1 {
            assert(step_reads(t.recipe[4]) matches Some((key, _)) && key@ == t.params[1].name@);
        } else if j == 2 {
            assert(step_reads(t.recipe[5]) matches Some((key, _)) && key@ == t.params[2].name@);
        } else if j == 3 {
            assert(step_reads(t.recipe[6]) matches Some((key, _)) && key@ == t.params[3].name@);
        } else if j == 4 {
            assert(step_reads(t.recipe[7]) matches Some((key, _)) && key@ == t.params[4].name@);
        } else {
            assert(step_reads(t.recipe[8]) matches Some((key, _)) && key@ == t.params[5].name@);
        }
    }
}

pub(crate) proof fn lemma_copied_75()
    ensures
        params_copied(spec_tool(75)),
{
    let t = spec_tool(75);
    assert forall|j: int| 0 <= j < t.params.len() implies param_copied(t, #[trigger] t.params[j]) by {
        if j == 0 {
            assert(step_copies(t.recipe[2], t.params[0]));
        } else if j == 1 {
            assert(step_copies(t.recipe[4], t.params[1]));
        } else if j == 2 {
            assert(step_copies(t.recipe[5], t.params[2]));
        } else if j == 3 {
            assert(step_copies(t.recipe[6], t.params[3]));
        } else if j == 4 {
            assert(step_copies(t.recipe[7], t.params[4]));
        } else {
            assert(step_copies(t.recipe[8], t.params[5]));
        }
    }
}

pub(crate) proof fn lemma_param_names_75()
    ensures
        param_names_distinct(spec_tool(75)),
{
    let t = spec_tool(75);
    assert(t.params[0].name@ != t.params[1].name@) by {
        reveal_strlit("group");
        reveal_strlit("roles");
        assert("group"@[0] != "roles"@[0]);
    }
    assert(t.params[0].name@ != t.params[2].name@) by {
        reveal_strlit("group");
        reveal_strlit("service_name");
        assert("group"@.len() != "service_name"@.len());
    }
    assert(t.params[0].name@ != t.params[3].name@) by {
        reveal_strlit("group");
        reveal_strlit("resource_group");
        assert("group"@.len() != "resource_group"@.len());
    }
    assert(t.params[0].name@ != t.params[4].name@) by {
        reveal_strlit("group");
        reveal_strlit("resource_type");
        assert("group"@.len() != "resource_type"@.len());
    }
    assert(t.params[0].name@ != t.params[5].name@) by {
        reveal_strlit("group");
        reveal_strlit("resource");
        assert("group"@.len() != "resource"@.len());
    }
    assert(t.params[1].name@ != t.params[2].name@) by {
        reveal_strlit("roles");
        reveal_strlit("service_name");
        assert("roles"@.len() != "service_name"@.len());
    }
    assert(t.params[1].name@ != t.params[3].name@) by {
        reveal_strlit("roles");
        reveal_strlit("resource_group");
        assert("roles"@.len() != "resource_group"@.len());
    }
    assert(t.params[1].name@ != t.params[4].name@) by {
        reveal_strlit("roles");
        reveal_strlit("resource_type");
        assert("roles"@.len() != "resource_type"@.len());
    }
    assert(t.params[1].name@ != t.params[5].name@) by {
        reveal_strlit("roles");
        reveal_strlit("resource");
        assert("roles"@.len() != "resource"@.len());
    }
    assert(t.params[2].name@ != t.params[3].name@) by {
        reveal_strlit("service_name");
        reveal_strlit("resource_group");
        assert("service_name"@.len() != "resource_group"@.len());
    }
    assert(t.params[2].name@ != t.params[4].name@) by {
        reveal_strlit("service_name");
        reveal_strlit("resource_type");
        assert("service_name"@.len() != "resource_type"@.len());
    }
    assert(t.params[2].name@ != t.params[5].name@) by {
        reveal_strlit("service_name");
        reveal_strlit("resource");
        assert("service_name"@.len() != "resource"@.len());
    }
    assert(t.params[3].name@ != t.params[4].name@) by {
        reveal_strlit("resource_group");
        reveal_strlit("resource_type");
        assert("resource_group"@.len() != "resource_type"@.len());
    }
    assert(t.params[3].name@ != t.params[5].name@) by {
        reveal_strlit("resource_group");
        reveal_strlit("resource");
        assert("resource_group"@.len() != "resource"@.len());
    }
    assert(t.params[4].name@ != t.params[5].name@) by {
        reveal_strlit("resource_type");
        reveal_strlit("resource");
        assert("resource_type"@.len() != "resource"@.len());
    }
    assert forall|a: int, b: int| 0 <= a < t.params.len() && 0 <= b < t.params.len() && a != b implies (#[trigger] t.params[a]).name@ != (#[trigger] t.params[b]).name@ by {
        if a == 0 && b == 1 {
        } else if a == 0 && b == 2 {
        } else if a == 0 && b == 3 {
        } else if a == 0 && b == 4 {
        } else if a == 0 && b == 5 {
        } else if a == 1 && b == 0 {
        } else if a == 1 && b == 2 {
        } else if a == 1 && b == 3 {
        } else if a == 1 && b == 4 {
        } else if a == 1 && b == 5 {
        } else if a == 2 && b == 0 {
        } else if a == 2 && b == 1 {
        } else if a == 2 && b == 3 {
        } else if a == 2 && b == 4 {
        } else if a == 2 && b == 5 {
        } else if a == 3 && b == 0 {
        } else if a == 3 && b == 1 {
        } else if a == 3 && b == 2 {
        } else if a == 3 && b == 4 {
        } else if a == 3 && b == 5 {
        } else if a == 4 && b == 0 {
        } else if a == 4 && b == 1 {
        } else if a == 4 && b == 2 {
        } else if a == 4 && b == 3 {
        } else if a == 4 && b == 5 {
        } else if a == 5 && b == 0 {
        } else if a == 5 && b == 1 {
        } else if a == 5 && b == 2 {
        } else if a == 5 && b == 3 {
        } else if a == 5 && b == 4 {
        }
    }
}

pub(crate) proof fn lemma_tool_76()
    ensures
        schema_agrees(spec_tool(76)),
{
    let t = spec_tool(76);
    assert forall|k: int| 0 <= k < t.recipe.len() implies step_agrees(t, #[trigger] t.recipe[k]) by {
        if k == 0 {
        } else if k == 1 {
        } else {
            assert(t.params[0].name@ == "service"@);
        }
    }
    assert forall|j: int| 0 <= j < t.params.len() implies param_used(t, #[trigger] t.params[j]) by {
        assert(step_reads(t.recipe[2]) matches Some((key, _)) && key@ == t.params[0].name@);
    }
}

pub(crate) proof fn lemma_copied_76()
    ensures
        params_copied(spec_tool(76)),
{
    let t = spec_tool(76);
    assert forall|j: int| 0 <= j < t.params.len() implies param_copied(t, #[trigger] t.params[j]) by {
        assert(step_copies(t.recipe[2], t.params[0]));
    }
}

pub(crate) proof fn lemma_tool_77()
    ensures
        schema_agrees(spec_tool(77)),
{
    let t = spec_tool(77);
    assert forall|k: int| 0 <= k < t.recipe.len() implies step_agrees(t, #[trigger] t.recipe[k]) by {
        if k == 0 {
        } else if k == 1 {
        } else {
            assert(t.params[0].name@ == "query"@);
        }
    }
    assert forall|j: int| 0 <= j < t.params.len() implies param_used(t, #[trigger] t.params[j]) by {
        assert(step_reads(t.recipe[2]) matches Some((key, _)) && key@ == t.params[0].name@);
    }
}

pub(crate) proof fn lemma_copied_77()
    ensures
        params_copied(spec_tool(77)),
{
    let t = spec_tool(77);
    assert forall|j: int| 0 <= j < t.params.len() implies param_copied(t, #[trigger] t.params[j]) by {
        assert(step_copies(t.recipe[2], t.params[0]));
    }
}

pub(crate) proof fn lemma_tool_78()
    ensures
        schema_agrees(spec_tool(78)),
{
    let t = spec_tool(78);
    assert forall|k: int| 0 <= k < t.recipe.len() implies step_agrees(t, #[trigger] t.recipe[k]) by {
        if k == 0 {
        } else if k == 1 {
        } else {
            assert(t.params[0].name@ == "service"@);
        }
    }
    assert forall|j: int| 0 <= j < t.params.len() implies param_used(t, #[trigger] t.params[j]) by {
        assert(step_reads(t.recipe[2]) matches Some((key, _)) && key@ == t.params[0].name@);
    }
}

pub(crate) proof fn lemma_copied_78()
    ensures
        params_copied(spec_tool(78)),
{
    let t = spec_tool(78);
    assert forall|j: int| 0 <= j < t.params.len() implies param_copied(t, #[trigger] t.params[j]) by {
        assert(step_copies(t.recipe[2], t.params[0]));
    }
}

pub(crate) proof fn lemma_tool_79()
    ensures
        schema_agrees(spec_tool(79)),
{
    let t = spec_tool(79);
    assert forall|k: int| 0 <= k < t.recipe.len() implies step_agrees(t, #[trigger] t.recipe[k]) by {
        if k == 0 {
        } else if k == 1 {
        } else {
            assert(t.params[0].name@ == "service"@);
        }
    }
    assert forall|j: int| 0 <= j < t.params.len() implies param_used(t, #[trigger] t.params[j]) by {
        assert(step_reads(t.recipe[2]) matches Some((key, _)) && key@ == t.params[0].name@);
    }
}

pub(crate) proof fn lemma_copied_79()
    ensures
        params_copied(spec_tool(79)),
{
    let t = spec_tool(79);
    assert forall|j: int| 0 <= j < t.params.len() implies param_copied(t, #[trigger] t.params[j]) by {
        assert(step_copies(t.recipe[2], t.params[0]));
    }
}

pub(crate) proof fn lemma_tool_80()
    ensures
        schema_agrees(spec_tool(80)),
{
    let t = spec_tool(80);
    assert forall|k: int| 0 <= k < t.recipe.len() implies step_agrees(t, #[trigger] t.recipe[k]) by {
        if k == 0 {
        } else if k == 1 {
        } else {
            assert(t.params[0].name@ == "month"@);
        }
    }
    assert forall|j: int| 0 <= j < t.params.len() implies param_used(t, #[trigger] t.params[j]) by {
        assert(step_reads(t.recipe[2]) matches Some((key, _)) && key@ == t.params[0].name@);
    }
}

pub(crate) proof fn lemma_copied_80()
    ensures
        params_copied(spec_tool(80)),
{
    let t = spec_tool(80);
    assert forall|j: int| 0 <= j < t.params.len() implies param_copied(t, #[trigger] t.params[j]) by {
        assert(step_copies(t.recipe[2], t.params[0]));
    }
}

pub(crate) proof fn lemma_tool_81()
    ensures
        schema_agrees(spec_tool(81)),
{
    let t = spec_tool(81);
    assert forall|k: int| 0 <= k < t.recipe.len() implies step_agrees(t, #[trigger] t.recipe[k]) by {
        if k == 0 {
        } else if k == 1 {
        } else if k == 2 {
            assert(t.params[0].name@ == "resource_group"@);
        } else {
            assert(t.params[1].name@ == "month"@);
        }
    }
    assert forall|j: int| 0 <= j < t.params.len() implies param_used(t, #[trigger] t.params[j]) by {
        if j == 0 {
            assert(step_reads(t.recipe[2]) matches Some((key, _)) && key@ == t.params[0].name@);
        } else {
            assert(step_reads(t.recipe[3]) matches Some((key, _)) && key@ == t.params[1].name@);
        }
    }
}

pub(crate) proof fn lemma_copied_81()
    ensures
        params_copied(spec_tool(81)),
{
    let t = spec_tool(81);
    assert forall|j: int| 0 <= j < t.params.len() implies param_copied(t, #[trigger] t.params[j]) by {
        if j == 0 {
            assert(step_copies(t.recipe[2], t.params[0]));
        } else {
            assert(step_copies(t.recipe[3], t.params[1]));
        }
    }
}

pub(crate) proof fn lemma_param_names_81()
    ensures
        param_names_distinct(spec_tool(81)),
{
    let t = spec_tool(81);
    assert(t.params[0].name@ != t.params[1].name@) by {
        reveal_strlit("resource_group");
        reveal_strlit("month");
        assert("resource_group"@.len() != "month"@.len());
    }
    assert forall|a: int, b: int| 0 <= a < t.params.len() && 0 <= b < t.params.len() && a != b implies (#[trigger] t.params[a]).name@ != (#[trigger] t.params[b]).name@ by {
        if a == 0 && b == 1 {
        } else if a == 1 && b == 0 {
        }
    }
}

pub(crate) proof fn lemma_tool_82()
    ensures
        schema_agrees(spec_tool(82)),
{
    let t = spec_tool(82);
    assert forall|k: int| 0 <= k < t.recipe.len() implies step_agrees(t, #[trigger] t.recipe[k]) by {
        if k == 0 {
        } else if k == 1 {
        } else if k == 2 {
            assert(t.params[0].name@ == "month"@);
        } else {
            assert(t.params[1].name@ == "resource_group"@);
        }
    }
    assert forall|j: int| 0 <= j < t.params.len() implies param_used(t, #[trigger] t.params[j]) by {
        if j == 0 {
            assert(step_reads(t.recipe[2]) matches Some((key, _)) && key@ == t.params[0].name@);
        } else {
            assert(step_reads(t.recipe[3]) matches Some((key, _)) && key@ == t.params[1].name@);
        }
    }
}

pub(crate) proof fn lemma_copied_82()
    ensures
        params_copied(spec_tool(82)),
{
    let t = spec_tool(82);
    assert forall|j: int| 0 <= j < t.params.len() implies param_copied(t, #[trigger] t.params[j]) by {
        if j == 0 {
            assert(step_copies(t.recipe[2], t.params[0]));
        } else {
            assert(step_copies(t.recipe[3], t.params[1]));
        }
    }
}

pub(crate) proof fn lemma_param_names_82()
    ensures
        param_names_distinct(spec_tool(82)),
{
    let t = spec_tool(82);
    assert(t.params[0].name@ != t.params[1].name@) by {
        reveal_strlit("month");
        reveal_strlit("resource_group");
        assert("month"@.len() != "resource_group"@.len());
    }
    assert forall|a: int, b: int| 0 <= a < t.params.len() && 0 <= b < t.params.len() && a != b implies (#[trigger] t.params[a]).name@ != (#[trigger] t.params[b]).name@ by {
        if a == 0 && b == 1 {
        } else if a == 1 && b == 0 {
        }
    }
}

pub(crate) proof fn lemma_tool_83()
    ensures
        schema_agrees(spec_tool(83)),
{
    let t = spec_tool(83);
    assert forall|k: int| 0 <= k < t.recipe.len() implies step_agrees(t, #[trigger] t.recipe[k]) by {
        if k == 0 {
        } else if k == 1 {
        } else if k == 2 {
            assert(t.params[0].name@ == "org"@);
        } else {
            assert(t.params[1].name@ == "month"@);
        }
    }
    assert forall|j: int| 0 <= j < t.params.len() implies param_used(t, #[trigger] t.params[j]) by {
        if j == 0 {
            assert(step_reads(t.recipe[2]) matches Some((key, _)) && key@ == t.params[0].name@);
        } else {
            assert(step_reads(t.recipe[3]) matches Some((key, _)) && key@ == t.params[1].name@);
        }
    }
}

pub(crate) proof fn lemma_copied_83()
    ensures
        params_copied(spec_tool(83)),
{
    let t = spec_tool(83);
    assert forall|j: int| 0 <= j < t.params.len() implies param_copied(t, #[trigger] t.params[j]) by {
        if j == 0 {
            assert(step_copies(t.recipe[2], t.params[0]));
        } else {
            assert(step_copies(t.recipe[3], t.params[1]));
        }
    }
}

pub(crate) proof fn lemma_param_names_83()
    ensures
        param_names_distinct(spec_tool(83)),
{
    let t = spec_tool(83);
    assert(t.params[0].name@ != t.params[1].name@) by {
        reveal_strlit("org");
        reveal_strlit("month");
        assert("org"@.len() != "month"@.len());
    }
    assert forall|a: int, b: int| 0 <= a < t.params.len() && 0 <= b < t.params.len() && a != b implies (#[trigger] t.params[a]).name@ != (#[trigger] t.params[b]).name@ by {
        if a == 0 && b == 1 {
        } else if a == 1 && b == 0 {
        }
    }
}

pub(crate) proof fn lemma_tool_84()
    ensures
        schema_agrees(spec_tool(84)),
{
    let t = spec_tool(84);
    assert forall|k: int| 0 <= k < t.recipe.len() implies step_agrees(t, #[trigger] t.recipe[k]) by {
        if k == 0 {
        } else {
        }
    }
}

pub(crate) proof fn lemma_tool_85()
    ensures
        schema_agrees(spec_tool(85)),
{
    let t = spec_tool(85);
    assert forall|k: int| 0 <= k < t.recipe.len() implies step_agrees(t, #[trigger] t.recipe[k]) by {
        if k == 0 {
        } else {
        }
    }
}

pub(crate) proof fn lemma_tool_86()
    ensures
        schema_agrees(spec_tool(86)),
{
    let t = spec_tool(86);
    assert forall|k: int| 0 <= k < t.recipe.len() implies step_agrees(t, #[trigger] t.recipe[k]) by {
        if k == 0 {
        } else if k == 1 {
        } else if k == 2 {
            assert(t.params[0].name@ == "plugin"@);
        } else {
            assert(t.params[1].name@ == "force"@);
        }
    }
    assert forall|j: int| 0 <= j < t.params.len() implies param_used(t, #[trigger] t.params[j]) by {
        if j == 0 {
            assert(step_reads(t.recipe[2]) matches Some((key, _)) && key@ == t.params[0].name@);
        } else {
            assert(step_reads(t.recipe[3]) matches Some((key, _)) && key@ == t.params[1].name@);
        }
    }
}

pub(crate) proof fn lemma_copied_86()
    ensures
        params_copied(spec_tool(86)),
{
    let t = spec_tool(86);
    assert forall|j: int| 0 <= j < t.params.len() implies param_copied(t, #[trigger] t.params[j]) by {
        if j == 0 {
            assert(step_copies(t.recipe[2], t.params[0]));
        } else {
        }
    }
}

pub(crate) proof fn lemma_param_names_86()
    ensures
        param_names_distinct(spec_tool(86)),
{
    let t = spec_tool(86);
    assert(t.params[0].name@ != t.params[1].name@) by {
        reveal_strlit("plugin");
        reveal_strlit("force");
        assert("plugin"@.len() != "force"@.len());
    }
    assert forall|a: int, b: int| 0 <= a < t.params.len() && 0 <= b < t.params.len() && a != b implies (#[trigger] t.params[a]).name@ != (#[trigger] t.params[b]).name@ by {
        if a == 0 && b == 1 {
        } else if a == 1 && b == 0 {
        }
    }
}

pub(crate) proof fn lemma_tool_87()
    ensures
        schema_agrees(spec_tool(87)),
{
    let t = spec_tool(87);
    assert forall|k: int| 0 <= k < t.recipe.len() implies step_agrees(t, #[trigger] t.recipe[k]) by {
    }
}

pub(crate) proof fn lemma_steps_0()
    ensures
        steps_shaped(spec_tool(0)),
{
    let t = spec_tool(0);
    assert forall|k: int| 0 <= k < t.recipe.len() implies step_shape(#[trigger] t.recipe[k]) by {
        if k == 0 {
            reveal_strlit("login");
        } else if k == 1 {
            reveal_strlit("--apikey");
        } else if k == 2 {
            reveal_strlit("--sso");
            reveal_strlit("sso");
            reveal_strlit("stream");
            assert("sso"@.len() != "stream"@.len());
        } else {
            reveal_strlit("-r");
        }
    }
}

pub(crate) proof fn lemma_placed_0()
    ensures
        required_placed(spec_tool(0)),
        booleans_read_once(spec_tool(0)),
        params_read_once(spec_tool(0)),
{
    let t = spec_tool(0);
    lemma_param_names_0();
    assert forall|k: int| 0 <= k < t.recipe.len() && k != 1 implies !reads_key(#[trigger] t.recipe[k], t.params[0].name@) by {
        if k == 0 {
        } else if k == 2 {
            assert(reads_key(t.recipe[2], t.params[1].name@));
        } else {
            assert(reads_key(t.recipe[3], t.params[2].name@));
        }
    }
    assert(read_once(t, t.params[0].name@));
    assert forall|k: int| 0 <= k < t.recipe.len() && k != 2 implies !reads_key(#[trigger] t.recipe[k], t.params[1].name@) by {
        if k == 0 {
        } else if k == 1 {
            assert(reads_key(t.recipe[1], t.params[0].name@));
        } else {
            assert(reads_key(t.recipe[3], t.params[2].name@));
        }
    }
    assert(read_once(t, t.params[1].name@));
    assert forall|k: int| 0 <= k < t.recipe.len() && k != 3 implies !reads_key(#[trigger] t.recipe[k], t.params[2].name@) by {
        if k == 0 {
        } else if k == 1 {
            assert(reads_key(t.recipe[1], t.params[0].name@));
        } else {
            assert(reads_key(t.recipe[2], t.params[1].name@));
        }
    }
    assert(read_once(t, t.params[2].name@));
}

pub(crate) proof fn lemma_steps_1()
    ensures
        steps_shaped(spec_tool(1)),
{
    let t = spec_tool(1);
    assert forall|k: int| 0 <= k < t.recipe.len() implies step_shape(#[trigger] t.recipe[k]) by {
        reveal_strlit("logout");
    }
}

pub(crate) proof fn lemma_placed_1()
    ensures
        required_placed(spec_tool(1)),
        booleans_read_once(spec_tool(1)),
        params_read_once(spec_tool(1)),
{
    let t = spec_tool(1);
}

pub(crate) proof fn lemma_steps_2()
    ensures
        steps_shaped(spec_tool(2)),
{
    let t = spec_tool(2);
    assert forall|k: int| 0 <= k < t.recipe.len() implies step_shape(#[trigger] t.recipe[k]) by {
        if k == 0 {
            reveal_strlit("target");
        } else if k == 1 {
            reveal_strlit("-r");
        } else if k == 2 {
            reveal_strlit("-g");
        } else if k == 3 {
            reveal_strlit("-o");
        } else {
            reveal_strlit("-s");
        }
    }
}

pub(crate) proof fn lemma_placed_2()
    ensures
        required_placed(spec_tool(2)),
        booleans_read_once(spec_tool(2)),
        params_read_once(spec_tool(2)),
{
    let t = spec_tool(2);
    lemma_param_names_2();
    assert forall|k: int| 0 <= k < t.recipe.len() && k != 1 implies !reads_key(#[trigger] t.recipe[k], t.params[0].name@) by {
        if k == 0 {
        } else if k == 2 {
            assert(reads_key(t.recipe[2], t.params[1].name@));
        } else if k == 3 {
            assert(reads_key(t.recipe[3], t.params[2].name@));
        } else {
            assert(reads_key(t.recipe[4], t.params[3].name@));
        }
    }
    assert(read_once(t, t.params[0].name@));
    assert forall|k: int| 0 <= k < t.recipe.len() && k != 2 implies !reads_key(#[trigger] t.recipe[k], t.params[1].name@) by {
        if k == 0 {
        } else if k == 1 {
            assert(reads_key(t.recipe[1], t.params[0].name@));
        } else if k == 3 {
            assert(reads_key(t.recipe[3], t.params[2].name@));
        } else {
            assert(reads_key(t.recipe[4], t.params[3].name@));
        }
    }
    assert(read_once(t, t.params[1].name@));
    assert forall|k: int| 0 <= k < t.recipe.len() && k != 3 implies !reads_key(#[trigger] t.recipe[k], t.params[2].name@) by {
        if k == 0 {
        } else if k == 1 {
            assert(reads_key(t.recipe[1], t.params[0].name@));
        } else if k == 2 {
            assert(reads_key(t.recipe[2], t.params[1].name@));
        } else {
            assert(reads_key(t.recipe[4], t.params[3].name@));
        }
    }
    assert(read_once(t, t.params[2].name@));
    assert forall|k: int| 0 <= k < t.recipe.len() && k != 4 implies !reads_key(#[trigger] t.recipe[k], t.params[3].name@) by {
        if k == 0 {
        } else if k == 1 {
            assert(reads_key(t.recipe[1], t.params[0].name@));
        } else if k == 2 {
            assert(reads_key(t.recipe[2], t.params[1].name@));
        } else {
            assert(reads_key(t.recipe[3], t.params[2].name@));
        }
    }
    assert(read_once(t, t.params[3].name@));
}

pub(crate) proof fn lemma_steps_3()
    ensures
        steps_shaped(spec_tool(3)),
{
    let t = spec_tool(3);
    assert forall|k: int| 0 <= k < t.recipe.len() implies step_shape(#[trigger] t.recipe[k]) by {
        if k == 0 {
            reveal_strlit("api");
        } else {
        }
    }
}

pub(crate) proof fn lemma_placed_3()
    ensures
        required_placed(spec_tool(3)),
        booleans_read_once(spec_tool(3)),
        params_read_once(spec_tool(3)),
{
    let t = spec_tool(3);
    assert forall|k: int| 0 <= k < t.recipe.len() && k != 1 implies !reads_key(#[trigger] t.recipe[k], t.params[0].name@) by {
    }
    assert(read_once(t, t.params[0].name@));
}

pub(crate) proof fn lemma_steps_4()
    ensures
        steps_shaped(spec_tool(4)),
{
    let t = spec_tool(4);
    assert forall|k: int| 0 <= k < t.recipe.len() implies step_shape(#[trigger] t.recipe[k]) by {
        reveal_strlit("regions");
    }
}

pub(crate) proof fn lemma_placed_4()
    ensures
        required_placed(spec_tool(4)),
        booleans_read_once(spec_tool(4)),
        params_read_once(spec_tool(4)),
{
    let t = spec_tool(4);
}

pub(crate) proof fn lemma_steps_5()
    ensures
        steps_shaped(spec_tool(5)),
{
    let t = spec_tool(5);
    assert forall|k: int| 0 <= k < t.recipe.len() implies step_shape(#[trigger] t.recipe[k]) by {
        if k == 0 {
            reveal_strlit("account");
        } else {
            reveal_strlit("show");
        }
    }
}

pub(crate) proof fn lemma_placed_5()
    ensures
        required_placed(spec_tool(5)),
        booleans_read_once(spec_tool(5)),
        params_read_once(spec_tool(5)),
{
    let t = spec_tool(5);
}

pub(crate) proof fn lemma_steps_6()
    ensures
        steps_shaped(spec_tool(6)),
{
    let t = spec_tool(6);
    assert forall|k: int| 0 <= k < t.recipe.len() implies step_shape(#[trigger] t.recipe[k]) by {
        if k == 0 {
            reveal_strlit("account");
        } else {
            reveal_strlit("list");
        }
    }
}

pub(crate) proof fn lemma_placed_6()
    ensures
        required_placed(spec_tool(6)),
        booleans_read_once(spec_tool(6)),
        params_read_once(spec_tool(6)),
{
    let t = spec_tool(6);
}

pub(crate) proof fn lemma_steps_7()
    ensures
        steps_shaped(spec_tool(7)),
{
    let t = spec_tool(7);
    assert forall|k: int| 0 <= k < t.recipe.len() implies step_shape(#[trigger] t.recipe[k]) by {
        if k == 0 {
            reveal_strlit("config");
        } else {
            reveal_strlit("list");
        }
    }
}

pub(crate) proof fn lemma_placed_7()
    ensures
        required_placed(spec_tool(7)),
        booleans_read_once(spec_tool(7)),
        params_read_once(spec_tool(7)),
{
    let t = spec_tool(7);
}

pub(crate) proof fn lemma_steps_8()
    ensures
        steps_shaped(spec_tool(8)),
{
    let t = spec_tool(8);
    assert forall|k: int| 0 <= k < t.recipe.len() implies step_shape(#[trigger] t.recipe[k]) by {
        if k == 0 {
            reveal_strlit("resource");
        } else {
            reveal_strlit("groups");
        }
    }
}

pub(crate) proof fn lemma_placed_8()
    ensures
        required_placed(spec_tool(8)),
        booleans_read_once(spec_tool(8)),
        params_read_once(spec_tool(8)),
{
    let t = spec_tool(8);
}

pub(crate) proof fn lemma_steps_9()
    ensures
        steps_shaped(spec_tool(9)),
{
    let t = spec_tool(9);
    assert forall|k: int| 0 <= k < t.recipe.len() implies step_shape(#[trigger] t.recipe[k]) by {
        if k == 0 {
            reveal_strlit("resource");
        } else if k == 1 {
            reveal_strlit("group-create");
        } else {
        }
    }
}

pub(crate) proof fn lemma_placed_9()
    ensures
        required_placed(spec_tool(9)),
        booleans_read_once(spec_tool(9)),
        params_read_once(spec_tool(9)),
{
    let t = spec_tool(9);
    assert forall|j: int| 0 <= j < t.params.len() && (#[trigger] t.params[j]).required implies always_placed(t, t.params[j]) by {
        assert(step_always_places(t.recipe[2], t.params[0]));
    }
    assert forall|k: int| 0 <= k < t.recipe.len() && k != 2 implies !reads_key(#[trigger] t.recipe[k], t.params[0].name@) by {
        if k == 0 {
        } else {
        }
    }
    assert(read_once(t, t.params[0].name@));
}

pub(crate) proof fn lemma_steps_10()
    ensures
        steps_shaped(spec_tool(10)),
{
    let t = spec_tool(10);
    assert forall|k: int| 0 <= k < t.recipe.len() implies step_shape(#[trigger] t.recipe[k]) by {
        if k == 0 {
            reveal_strlit("resource");
        } else if k == 1 {
            reveal_strlit("service-instances");
        } else if k == 2 {
            reveal_strlit("--service-name");
        } else {
            reveal_strlit("-g");
        }
    }
}

pub(crate) proof fn lemma_placed_10()
    ensures
        required_placed(spec_tool(10)),
        booleans_read_once(spec_tool(10)),
        params_read_once(spec_tool(10)),
{
    let t = spec_tool(10);
    lemma_param_names_10();
    assert forall|k: int| 0 <= k < t.recipe.len() && k != 2 implies !reads_key(#[trigger] t.recipe[k], t.params[0].name@) by {
        if k == 0 {
        } else if k == 1 {
        } else {
            assert(reads_key(t.recipe[3], t.params[1].name@));
        }
    }
    assert(read_once(t, t.params[0].name@));
    assert forall|k: int| 0 <= k < t.recipe.len() && k != 3 implies !reads_key(#[trigger] t.recipe[k], t.params[1].name@) by {
        if k == 0 {
        } else if k == 1 {
        } else {
            assert(reads_key(t.recipe[2], t.params[0].name@));
        }
    }
    assert(read_once(t, t.params[1].name@));
}

pub(crate) proof fn lemma_steps_11()
    ensures
        steps_shaped(spec_tool(11)),
{
    let t = spec_tool(11);
    assert forall|k: int| 0 <= k < t.recipe.len() implies step_shape(#[trigger] t.recipe[k]) by {
        if k == 0 {
            reveal_strlit("resource");
        } else if k == 1 {
            reveal_strlit("service-instance");
        } else {
        }
    }
}

pub(crate) proof fn lemma_placed_11()
    ensures
        required_placed(spec_tool(11)),
        booleans_read_once(spec_tool(11)),
        params_read_once(spec_tool(11)),
{
    let t = spec_tool(11);
    assert forall|j: int| 0 <= j < t.params.len() && (#[trigger] t.params[j]).required implies always_placed(t, t.params[j]) by {
        assert(step_always_places(t.recipe[2], t.params[0]));
    }
    assert forall|k: int| 0 <= k < t.recipe.len() && k != 2 implies !reads_key(#[trigger] t.recipe[k], t.params[0].name@) by {
        if k == 0 {
        } else {
        }
    }
    assert(read_once(t, t.params[0].name@));
}

pub(crate) proof fn lemma_steps_12()
    ensures
        steps_shaped(spec_tool(12)),
{
    let t = spec_tool(12);
    assert forall|k: int| 0 <= k < t.recipe.len() implies step_shape(#[trigger] t.recipe[k]) by {
        if k == 0 {
            reveal_strlit("resource");
        } else if k == 1 {
            reveal_strlit("service-instance-create");
        } else if k == 2 {
        } else if k == 3 {
        } else if k == 4 {
        } else if k == 5 {
            reveal_strlit("-l");
        } else if k == 6 {
            reveal_strlit("-g");
        } else {
            reveal_strlit("-p");
        }
    }
}

pub(crate) proof fn lemma_placed_12()
    ensures
        required_placed(spec_tool(12)),
        booleans_read_once(spec_tool(12)),
        params_read_once(spec_tool(12)),
{
    let t = spec_tool(12);
    assert forall|j: int| 0 <= j < t.params.len() && (#[trigger] t.params[j]).required implies always_placed(t, t.params[j]) by {
        if j == 0 {
            assert(step_always_places(t.recipe[2], t.params[0]));
        } else if j == 1 {
            assert(step_always_places(t.recipe[3], t.params[1]));
        } else if j == 2 {
            assert(step_always_places(t.recipe[4], t.params[2]));
        } else if j == 3 {
        } else if j == 4 {
        } else {
        }
    }
    lemma_param_names_12();
    assert forall|k: int| 0 <= k < t.recipe.len() && k != 2 implies !reads_key(#[trigger] t.recipe[k], t.params[0].name@) by {
        if k == 0 {
        } else if k == 1 {
        } else if k == 3 {
            assert(reads_key(t.recipe[3], t.params[1].name@));
        } else if k == 4 {
            assert(reads_key(t.recipe[4], t.params[2].name@));
        } else if k == 5 {
            assert(reads_key(t.recipe[5], t.params[3].name@));
        } else if k == 6 {
            assert(reads_key(t.recipe[6], t.params[4].name@));
        } else {
            assert(reads_key(t.recipe[7], t.params[5].name@));
        }
    }
    assert(read_once(t, t.params[0].name@));
    assert forall|k: int| 0 <= k < t.recipe.len() && k != 3 implies !reads_key(#[trigger] t.recipe[k], t.params[1].name@) by {
        if k == 0 {
        } else if k == 1 {
        } else if k == 2 {
            assert(reads_key(t.recipe[2], t.params[0].name@));
        } else if k == 4 {
            assert(reads_key(t.recipe[4], t.params[2].name@));
        } else if k == 5 {
            assert(reads_key(t.recipe[5], t.params[3].name@));
        } else if k == 6 {
            assert(reads_key(t.recipe[6], t.params[4].name@));
        } else {
            assert(reads_key(t.recipe[7], t.params[5].name@));
        }
    }
    assert(read_once(t, t.params[1].name@));
    assert forall|k: int| 0 <= k < t.recipe.len() && k != 4 implies !reads_key(#[trigger] t.recipe[k], t.params[2].name@) by {
        if k == 0 {
        } else if k == 1 {
        } else if k == 2 {
            assert(reads_key(t.recipe[2], t.params[0].name@));
        } else if k == 3 {
            assert(reads_key(t.recipe[3], t.params[1].name@));
        } else if k == 5 {
            assert(reads_key(t.recipe[5], t.params[3].name@));
        } else if k == 6 {
            assert(reads_key(t.recipe[6], t.params[4].name@));
        } else {
            assert(reads_key(t.recipe[7], t.params[5].name@));
        }
    }
    assert(read_once(t, t.params[2].name@));
    assert forall|k: int| 0 <= k < t.recipe.len() && k != 5 implies !reads_key(#[trigger] t.recipe[k], t.params[3].name@) by {
        if k == 0 {
        } else if k == 1 {
        } else if k == 2 {
            assert(reads_key(t.recipe[2], t.params[0].name@));
        } else if k == 3 {
            assert(reads_key(t.recipe[3], t.params[1].name@));
        } else if k == 4 {
            assert(reads_key(t.recipe[4], t.params[2].name@));
        } else if k == 6 {
            assert(reads_key(t.recipe[6], t.params[4].name@));
        } else {
            assert(reads_key(t.recipe[7], t.params[5].name@));
        }
    }
    assert(read_once(t, t.params[3].name@));
    assert forall|k: int| 0 <= k < t.recipe.len() && k != 6 implies !reads_key(#[trigger] t.recipe[k], t.params[4].name@) by {
        if k == 0 {
        } else if k == 1 {
        } else if k == 2 {
            assert(reads_key(t.recipe[2], t.params[0].name@));
        } else if k == 3 {
            assert(reads_key(t.recipe[3], t.params[1].name@));
        } else if k == 4 {
            assert(reads_key(t.recipe[4], t.params[2].name@));
        } else if k == 5 {
            assert(reads_key(t.recipe[5], t.params[3].name@));
        } else {
            assert(reads_key(t.recipe[7], t.params[5].name@));
        }
    }
    assert(read_once(t, t.params[4].name@));
    assert forall|k: int| 0 <= k < t.recipe.len() && k != 7 implies !reads_key(#[trigger] t.recipe[k], t.params[5].name@) by {
        if k == 0 {
        } else if k == 1 {
        } else if k == 2 {
            assert(reads_key(t.recipe[2], t.params[0].name@));
        } else if k == 3 {
            assert(reads_key(t.recipe[3], t.params[1].name@));
        } else if k == 4 {
            assert(reads_key(t.recipe[4], t.params[2].name@));
        } else if k == 5 {
            assert(reads_key(t.recipe[5], t.params[3].name@));
        } else {
            assert(reads_key(t.recipe[6], t.params[4].name@));
        }
    }
    assert(read_once(t, t.params[5].name@));
}

pub(crate) proof fn lemma_steps_13()
    ensures
        steps_shaped(spec_tool(13)),
{
    let t = spec_tool(13);
    assert forall|k: int| 0 <= k < t.recipe.len() implies step_shape(#[trigger] t.recipe[k]) by {
        if k == 0 {
            reveal_strlit("resource");
        } else if k == 1 {
            reveal_strlit("service-instance-delete");
        } else if k == 2 {
        } else {
            reveal_strlit("-f");
            reveal_strlit("force");
            reveal_strlit("stream");
            assert("force"@.len() != "stream"@.len());
        }
    }
}

pub(crate) proof fn lemma_placed_13()
    ensures
        required_placed(spec_tool(13)),
        booleans_read_once(spec_tool(13)),
        params_read_once(spec_tool(13)),
{
    let t = spec_tool(13);
    lemma_param_names_13();
    assert forall|j: int| 0 <= j < t.params.len() && (#[trigger] t.params[j]).required implies always_placed(t, t.params[j]) by {
        if j == 0 {
            assert(step_always_places(t.recipe[2], t.params[0]));
        } else {
        }
    }
    assert forall|k: int| 0 <= k < t.recipe.len() && k != 2 implies !reads_key(#[trigger] t.recipe[k], t.params[0].name@) by {
        if k == 0 {
        } else if k == 1 {
        } else {
            assert(reads_key(t.recipe[3], t.params[1].name@));
        }
    }
    assert(read_once(t, t.params[0].name@));
    assert forall|k: int| 0 <= k < t.recipe.len() && k != 3 implies !reads_key(#[trigger] t.recipe[k], t.params[1].name@) by {
        if k == 0 {
        } else if k == 1 {
        } else {
            assert(reads_key(t.recipe[2], t.params[0].name@));
        }
    }
    assert(read_once(t, t.params[1].name@));
}

pub(crate) proof fn lemma_steps_14()
    ensures
        steps_shaped(spec_tool(14)),
{
    let t = spec_tool(14);
    assert forall|k: int| 0 <= k < t.recipe.len() implies step_shape(#[trigger] t.recipe[k]) by {
        if k == 0 {
            reveal_strlit("resource");
        } else if k == 1 {
            reveal_strlit("service-instance-update");
        } else if k == 2 {
        } else if k == 3 {
            reveal_strlit("-n");
        } else if k == 4 {
            reveal_strlit("--service-plan-id");
        } else {
            reveal_strlit("-p");
        }
    }
}

pub(crate) proof fn lemma_placed_14()
    ensures
        required_placed(spec_tool(14)),
        booleans_read_once(spec_tool(14)),
        params_read_once(spec_tool(14)),
{
    let t = spec_tool(14);
    assert forall|j: int| 0 <= j < t.params.len() && (#[trigger] t.params[j]).required implies always_placed(t, t.params[j]) by {
        if j == 0 {
            assert(step_always_places(t.recipe[2], t.params[0]));
        } else if j == 1 {
        } else if j == 2 {
        } else {
        }
    }
    lemma_param_names_14();
    assert forall|k: int| 0 <= k < t.recipe.len() && k != 2 implies !reads_key(#[trigger] t.recipe[k], t.params[0].name@) by {
        if k == 0 {
        } else if k == 1 {
        } else if k == 3 {
            assert(reads_key(t.recipe[3], t.params[1].name@));
        } else if k == 4 {
            assert(reads_key(t.recipe[4], t.params[2].name@));
        } else {
            assert(reads_key(t.recipe[5], t.params[3].name@));
        }
    }
    assert(read_once(t, t.params[0].name@));
    assert forall|k: int| 0 <= k < t.recipe.len() && k != 3 implies !reads_key(#[trigger] t.recipe[k], t.params[1].name@) by {
        if k == 0 {
        } else if k == 1 {
        } else if k == 2 {
            assert(reads_key(t.recipe[2], t.params[0].name@));
        } else if k == 4 {
            assert(reads_key(t.recipe[4], t.params[2].name@));
        } else {
            assert(reads_key(t.recipe[5], t.params[3].name@));
        }
    }
    assert(read_once(t, t.params[1].name@));
    assert forall|k: int| 0 <= k < t.recipe.len() && k != 4 implies !reads_key(#[trigger] t.recipe[k], t.params[2].name@) by {
        if k == 0 {
        } else if k == 1 {
        } else if k == 2 {
            assert(reads_key(t.recipe[2], t.params[0].name@));
        } else if k == 3 {
            assert(reads_key(t.recipe[3], t.params[1].name@));
        } else {
            assert(reads_key(t.recipe[5], t.params[3].name@));
        }
    }
    assert(read_once(t, t.params[2].name@));
    assert forall|k: int| 0 <= k < t.recipe.len() && k != 5 implies !reads_key(#[trigger] t.recipe[k], t.params[3].name@) by {
        if k == 0 {
        } else if k == 1 {
        } else if k == 2 {
            assert(reads_key(t.recipe[2], t.params[0].name@));
        } else if k == 3 {
            assert(reads_key(t.recipe[3], t.params[1].name@));
        } else {
            assert(reads_key(t.recipe[4], t.params[2].name@));
        }
    }
    assert(read_once(t, t.params[3].name@));
}

pub(crate) proof fn lemma_steps_15()
    ensures
        steps_shaped(spec_tool(15)),
{
    let t = spec_tool(15);
    assert forall|k: int| 0 <= k < t.recipe.len() implies step_shape(#[trigger] t.recipe[k]) by {
        if k == 0 {
            reveal_strlit("resource");
        } else if k == 1 {
            reveal_strlit("service-keys");
        } else {
            reveal_strlit("--instance-name");
        }
    }
}

pub(crate) proof fn lemma_placed_15()
    ensures
        required_placed(spec_tool(15)),
        booleans_read_once(spec_tool(15)),
        params_read_once(spec_tool(15)),
{
    let t = spec_tool(15);
    assert forall|k: int| 0 <= k < t.recipe.len() && k != 2 implies !reads_key(#[trigger] t.recipe[k], t.params[0].name@) by {
        if k == 0 {
        } else {
        }
    }
    assert(read_once(t, t.params[0].name@));
}

pub(crate) proof fn lemma_steps_16()
    ensures
        steps_shaped(spec_tool(16)),
{
    let t = spec_tool(16);
    assert forall|k: int| 0 <= k < t.recipe.len() implies step_shape(#[trigger] t.recipe[k]) by {
        if k == 0 {
            reveal_strlit("resource");
        } else if k == 1 {
            reveal_strlit("service-key");
        } else {
        }
    }
}

pub(crate) proof fn lemma_placed_16()
    ensures
        required_placed(spec_tool(16)),
        booleans_read_once(spec_tool(16)),
        params_read_once(spec_tool(16)),
{
    let t = spec_tool(16);
    assert forall|j: int| 0 <= j < t.params.len() && (#[trigger] t.params[j]).required implies always_placed(t, t.params[j]) by {
        assert(step_always_places(t.recipe[2], t.params[0]));
    }
    assert forall|k: int| 0 <= k < t.recipe.len() && k != 2 implies !reads_key(#[trigger] t.recipe[k], t.params[0].name@) by {
        if k == 0 {
        } else {
        }
    }
    assert(read_once(t, t.params[0].name@));
}

pub(crate) proof fn lemma_steps_17()
    ensures
        steps_shaped(spec_tool(17)),
{
    let t = spec_tool(17);
    assert forall|k: int| 0 <= k < t.recipe.len() implies step_shape(#[trigger] t.recipe[k]) by {
        if k == 0 {
            reveal_strlit("resource");
        } else if k == 1 {
            reveal_strlit("service-key-create");
        } else if k == 2 {
        } else if k == 3 {
            reveal_strlit("--instance-name");
        } else if k == 4 {
        } else if k == 5 {
            reveal_strlit("--service-endpoint");
        } else {
            reveal_strlit("-p");
        }
    }
}

pub(crate) proof fn lemma_placed_17()
    ensures
        required_placed(spec_tool(17)),
        booleans_read_once(spec_tool(17)),
        params_read_once(spec_tool(17)),
{
    let t = spec_tool(17);
    assert forall|j: int| 0 <= j < t.params.len() && (#[trigger] t.params[j]).required implies always_placed(t, t.params[j]) by {
        if j == 0 {
            assert(step_always_places(t.recipe[2], t.params[0]));
        } else if j == 1 {
            assert(step_always_places(t.recipe[4], t.params[1]));
        } else if j == 2 {
        } else {
        }
    }
    lemma_param_names_17();
    assert forall|k: int| 0 <= k < t.recipe.len() && k != 2 implies !reads_key(#[trigger] t.recipe[k], t.params[0].name@) by {
        if k == 0 {
        } else if k == 1 {
        } else if k == 3 {
        } else if k == 4 {
            assert(reads_key(t.recipe[4], t.params[1].name@));
        } else if k == 5 {
            assert(reads_key(t.recipe[5], t.params[2].name@));
        } else {
            assert(reads_key(t.recipe[6], t.params[3].name@));
        }
    }
    assert(read_once(t, t.params[0].name@));
    assert forall|k: int| 0 <= k < t.recipe.len() && k != 4 implies !reads_key(#[trigger] t.recipe[k], t.params[1].name@) by {
        if k == 0 {
        } else if k == 1 {
        } else if k == 2 {
            assert(reads_key(t.recipe[2], t.params[0].name@));
        } else if k == 3 {
        } else if k == 5 {
            assert(reads_key(t.recipe[5], t.params[2].name@));
        } else {
            assert(reads_key(t.recipe[6], t.params[3].name@));
        }
    }
    assert(read_once(t, t.params[1].name@));
    assert forall|k: int| 0 <= k < t.recipe.len() && k != 5 implies !reads_key(#[trigger] t.recipe[k], t.params[2].name@) by {
        if k == 0 {
        } else if k == 1 {
        } else if k == 2 {
            assert(reads_key(t.recipe[2], t.params[0].name@));
        } else if k == 3 {
        } else if k == 4 {
            assert(reads_key(t.recipe[4], t.params[1].name@));
        } else {
            assert(reads_key(t.recipe[6], t.params[3].name@));
        }
    }
    assert(read_once(t, t.params[2].name@));
    assert forall|k: int| 0 <= k < t.recipe.len() && k != 6 implies !reads_key(#[trigger] t.recipe[k], t.params[3].name@) by {
        if k == 0 {
        } else if k == 1 {
        } else if k == 2 {
            assert(reads_key(t.recipe[2], t.params[0].name@));
        } else if k == 3 {
        } else if k == 4 {
            assert(reads_key(t.recipe[4], t.params[1].name@));
        } else {
            assert(reads_key(t.recipe[5], t.params[2].name@));
        }
    }
    assert(read_once(t, t.params[3].name@));
}

pub(crate) proof fn lemma_steps_18()
    ensures
        steps_shaped(spec_tool(18)),
{
    let t = spec_tool(18);
    assert forall|k: int| 0 <= k < t.recipe.len() implies step_shape(#[trigger] t.recipe[k]) by {
        if k == 0 {
            reveal_strlit("resource");
        } else if k == 1 {
            reveal_strlit("service-key-delete");
        } else if k == 2 {
        } else {
            reveal_strlit("-f");
            reveal_strlit("force");
            reveal_strlit("stream");
            assert("force"@.len() != "stream"@.len());
        }
    }
}

pub(crate) proof fn lemma_placed_18()
    ensures
        required_placed(spec_tool(18)),
        booleans_read_once(spec_tool(18)),
        params_read_once(spec_tool(18)),
{
    let t = spec_tool(18);
    lemma_param_names_18();
    assert forall|j: int| 0 <= j < t.params.len() && (#[trigger] t.params[j]).required implies always_placed(t, t.params[j]) by {
        if j == 0 {
            assert(step_always_places(t.recipe[2], t.params[0]));
        } else {
        }
    }
    assert forall|k: int| 0 <= k < t.recipe.len() && k != 2 implies !reads_key(#[trigger] t.recipe[k], t.params[0].name@) by {
        if k == 0 {
        } else if k == 1 {
        } else {
            assert(reads_key(t.recipe[3], t.params[1].name@));
        }
    }
    assert(read_once(t, t.params[0].name@));
    assert forall|k: int| 0 <= k < t.recipe.len() && k != 3 implies !reads_key(#[trigger] t.recipe[k], t.params[1].name@) by {
        if k == 0 {
        } else if k == 1 {
        } else {
            assert(reads_key(t.recipe[2], t.params[0].name@));
        }
    }
    assert(read_once(t, t.params[1].name@));
}

pub(crate) proof fn lemma_steps_19()
    ensures
        steps_shaped(spec_tool(19)),
{
    let t = spec_tool(19);
    assert forall|k: int| 0 <= k < t.recipe.len() implies step_shape(#[trigger] t.recipe[k]) by {
        if k == 0 {
            reveal_strlit("resource");
        } else if k == 1 {
            reveal_strlit("search");
        } else {
        }
    }
}

pub(crate) proof fn lemma_placed_19()
    ensures
        required_placed(spec_tool(19)),
        booleans_read_once(spec_tool(19)),
        params_read_once(spec_tool(19)),
{
    let t = spec_tool(19);
    assert forall|j: int| 0 <= j < t.params.len() && (#[trigger] t.params[j]).required implies always_placed(t, t.params[j]) by {
        assert(step_always_places(t.recipe[2], t.params[0]));
    }
    assert forall|k: int| 0 <= k < t.recipe.len() && k != 2 implies !reads_key(#[trigger] t.recipe[k], t.params[0].name@) by {
        if k == 0 {
        } else {
        }
    }
    assert(read_once(t, t.params[0].name@));
}

pub(crate) proof fn lemma_steps_20()
    ensures
        steps_shaped(spec_tool(20)),
{
    let t = spec_tool(20);
    assert forall|k: int| 0 <= k < t.recipe.len() implies step_shape(#[trigger] t.recipe[k]) by {
        if k == 0 {
            reveal_strlit("resource");
        } else if k == 1 {
            reveal_strlit("tags");
        } else if k == 2 {
            reveal_strlit("--tag-type");
        } else {
            reveal_strlit("user");
        }
    }
}

pub(crate) proof fn lemma_placed_20()
    ensures
        required_placed(spec_tool(20)),
        booleans_read_once(spec_tool(20)),
        params_read_once(spec_tool(20)),
{
    let t = spec_tool(20);
}

pub(crate) proof fn lemma_steps_21()
    ensures
        steps_shaped(spec_tool(21)),
{
    let t = spec_tool(21);
    assert forall|k: int| 0 <= k < t.recipe.len() implies step_shape(#[trigger] t.recipe[k]) by {
        if k == 0 {
            reveal_strlit("resource");
        } else if k == 1 {
            reveal_strlit("tag-attach");
        } else if k == 2 {
            reveal_strlit("--tag-names");
        } else if k == 3 {
        } else if k == 4 {
            reveal_strlit("--resource-id");
        } else {
        }
    }
}

pub(crate) proof fn lemma_placed_21()
    ensures
        required_placed(spec_tool(21)),
        booleans_read_once(spec_tool(21)),
        params_read_once(spec_tool(21)),
{
    let t = spec_tool(21);
    assert forall|j: int| 0 <= j < t.params.len() && (#[trigger] t.params[j]).required implies always_placed(t, t.params[j]) by {
        if j == 0 {
            assert(step_always_places(t.recipe[3], t.params[0]));
        } else {
            assert(step_always_places(t.recipe[5], t.params[1]));
        }
    }
    lemma_param_names_21();
    assert forall|k: int| 0 <= k < t.recipe.len() && k != 3 implies !reads_key(#[trigger] t.recipe[k], t.params[0].name@) by {
        if k == 0 {
        } else if k == 1 {
        } else if k == 2 {
        } else if k == 4 {
        } else {
            assert(reads_key(t.recipe[5], t.params[1].name@));
        }
    }
    assert(read_once(t, t.params[0].name@));
    assert forall|k: int| 0 <= k < t.recipe.len() && k != 5 implies !reads_key(#[trigger] t.recipe[k], t.params[1].name@) by {
        if k == 0 {
        } else if k == 1 {
        } else if k == 2 {
        } else if k == 3 {
            assert(reads_key(t.recipe[3], t.params[0].name@));
        } else {
        }
    }
    assert(read_once(t, t.params[1].name@));
}

pub(crate) proof fn lemma_steps_22()
    ensures
        steps_shaped(spec_tool(22)),
{
    let t = spec_tool(22);
    assert forall|k: int| 0 <= k < t.recipe.len() implies step_shape(#[trigger] t.recipe[k]) by {
        if k == 0 {
            reveal_strlit("cf");
        } else {
            reveal_strlit("orgs");
        }
    }
}

pub(crate) proof fn lemma_placed_22()
    ensures
        required_placed(spec_tool(22)),
        booleans_read_once(spec_tool(22)),
        params_read_once(spec_tool(22)),
{
    let t = spec_tool(22);
}

pub(crate) proof fn lemma_steps_23()
    ensures
        steps_shaped(spec_tool(23)),
{
    let t = spec_tool(23);
    assert forall|k: int| 0 <= k < t.recipe.len() implies step_shape(#[trigger] t.recipe[k]) by {
        if k == 0 {
            reveal_strlit("cf");
        } else if k == 1 {
            reveal_strlit("spaces");
        } else {
            reveal_strlit("-o");
        }
    }
}

pub(crate) proof fn lemma_placed_23()
    ensures
        required_placed(spec_tool(23)),
        booleans_read_once(spec_tool(23)),
        params_read_once(spec_tool(23)),
{
    let t = spec_tool(23);
    assert forall|k: int| 0 <= k < t.recipe.len() && k != 2 implies !reads_key(#[trigger] t.recipe[k], t.params[0].name@) by {
        if k == 0 {
        } else {
        }
    }
    assert(read_once(t, t.params[0].name@));
}

pub(crate) proof fn lemma_steps_24()
    ensures
        steps_shaped(spec_tool(24)),
{
    let t = spec_tool(24);
    assert forall|k: int| 0 <= k < t.recipe.len() implies step_shape(#[trigger] t.recipe[k]) by {
        if k == 0 {
            reveal_strlit("cf");
        } else {
            reveal_strlit("apps");
        }
    }
}

pub(crate) proof fn lemma_placed_24()
    ensures
        required_placed(spec_tool(24)),
        booleans_read_once(spec_tool(24)),
        params_read_once(spec_tool(24)),
{
    let t = spec_tool(24);
}

pub(crate) proof fn lemma_steps_25()
    ensures
        steps_shaped(spec_tool(25)),
{
    let t = spec_tool(25);
    assert forall|k: int| 0 <= k < t.recipe.len() implies step_shape(#[trigger] t.recipe[k]) by {
        if k == 0 {
            reveal_strlit("cf");
        } else if k == 1 {
            reveal_strlit("app");
        } else {
        }
    }
}

pub(crate) proof fn lemma_placed_25()
    ensures
        required_placed(spec_tool(25)),
        booleans_read_once(spec_tool(25)),
        params_read_once(spec_tool(25)),
{
    let t = spec_tool(25);
    assert forall|j: int| 0 <= j < t.params.len() && (#[trigger] t.params[j]).required implies always_placed(t, t.params[j]) by {
        assert(step_always_places(t.recipe[2], t.params[0]));
    }
    assert forall|k: int| 0 <= k < t.recipe.len() && k != 2 implies !reads_key(#[trigger] t.recipe[k], t.params[0].name@) by {
        if k == 0 {
        } else {
        }
    }
    assert(read_once(t, t.params[0].name@));
}

pub(crate) proof fn lemma_steps_26()
    ensures
        steps_shaped(spec_tool(26)),
{
    let t = spec_tool(26);
    assert forall|k: int| 0 <= k < t.recipe.len() implies step_shape(#[trigger] t.recipe[k]) by {
        if k == 0 {
            reveal_strlit("cf");
        } else if k == 1 {
            reveal_strlit("push");
        } else if k == 2 {
        } else if k == 3 {
            reveal_strlit("-p");
        } else if k == 4 {
            reveal_strlit("-f");
        } else if k == 5 {
            reveal_strlit("-m");
        } else if k == 6 {
            reveal_strlit("-i");
        } else if k == 7 {
            reveal_strlit("-b");
        } else {
            reveal_strlit("--docker-image");
        }
    }
}

pub(crate) proof fn lemma_placed_26()
    ensures
        required_placed(spec_tool(26)),
        booleans_read_once(spec_tool(26)),
        params_read_once(spec_tool(26)),
{
    let t = spec_tool(26);
    lemma_param_names_26();
    assert forall|k: int| 0 <= k < t.recipe.len() && k != 2 implies !reads_key(#[trigger] t.recipe[k], t.params[0].name@) by {
        if k == 0 {
        } else if k == 1 {
        } else if k == 3 {
            assert(reads_key(t.recipe[3], t.params[1].name@));
        } else if k == 4 {
            assert(reads_key(t.recipe[4], t.params[2].name@));
        } else if k == 5 {
            assert(reads_key(t.recipe[5], t.params[3].name@));
        } else if k == 6 {
            assert(reads_key(t.recipe[6], t.params[4].name@));
        } else if k == 7 {
            assert(reads_key(t.recipe[7], t.params[5].name@));
        } else {
            assert(reads_key(t.recipe[8], t.params[6].name@));
        }
    }
    assert(read_once(t, t.params[0].name@));
    assert forall|k: int| 0 <= k < t.recipe.len() && k != 3 implies !reads_key(#[trigger] t.recipe[k], t.params[1].name@) by {
        if k == 0 {
        } else if k == 1 {
        } else if k == 2 {
            assert(reads_key(t.recipe[2], t.params[0].name@));
        } else if k == 4 {
            assert(reads_key(t.recipe[4], t.params[2].name@));
        } else if k == 5 {
            assert(reads_key(t.recipe[5], t.params[3].name@));
        } else if k == 6 {
            assert(reads_key(t.recipe[6], t.params[4].name@));
        } else if k == 7 {
            assert(reads_key(t.recipe[7], t.params[5].name@));
        } else {
            assert(reads_key(t.recipe[8], t.params[6].name@));
        }
    }
    assert(read_once(t, t.params[1].name@));
    assert forall|k: int| 0 <= k < t.recipe.len() && k != 4 implies !reads_key(#[trigger] t.recipe[k], t.params[2].name@) by {
        if k == 0 {
        } else if k == 1 {
        } else if k == 2 {
            assert(reads_key(t.recipe[2], t.params[0].name@));
        } else if k == 3 {
            assert(reads_key(t.recipe[3], t.params[1].name@));
        } else if k == 5 {
            assert(reads_key(t.recipe[5], t.params[3].name@));
        } else if k == 6 {
            assert(reads_key(t.recipe[6], t.params[4].name@));
        } else if k == 7 {
            assert(reads_key(t.recipe[7], t.params[5].name@));
        } else {
            assert(reads_key(t.recipe[8], t.params[6].name@));
        }
    }
    assert(read_once(t, t.params[2].name@));
    assert forall|k: int| 0 <= k < t.recipe.len() && k != 5 implies !reads_key(#[trigger] t.recipe[k], t.params[3].name@) by {
        if k == 0 {
        } else if k == 1 {
        } else if k == 2 {
            assert(reads_key(t.recipe[2], t.params[0].name@));
        } else if k == 3 {
            assert(reads_key(t.recipe[3], t.params[1].name@));
        } else if k == 4 {
            assert(reads_key(t.recipe[4], t.params[2].name@));
        } else if k == 6 {
            assert(reads_key(t.recipe[6], t.params[4].name@));
        } else if k == 7 {
            assert(reads_key(t.recipe[7], t.params[5].name@));
        } else {
            assert(reads_key(t.recipe[8], t.params[6].name@));
        }
    }
    assert(read_once(t, t.params[3].name@));
    assert forall|k: int| 0 <= k < t.recipe.len() && k != 6 implies !reads_key(#[trigger] t.recipe[k], t.params[4].name@) by {
        if k == 0 {
        } else if k == 1 {
        } else if k == 2 {
            assert(reads_key(t.recipe[2], t.params[0].name@));
        } else if k == 3 {
            assert(reads_key(t.recipe[3], t.params[1].name@));
        } else if k == 4 {
            assert(reads_key(t.recipe[4], t.params[2].name@));
        } else if k == 5 {
            assert(reads_key(t.recipe[5], t.params[3].name@));
        } else if k == 7 {
            assert(reads_key(t.recipe[7], t.params[5].name@));
        } else {
            assert(reads_key(t.recipe[8], t.params[6].name@));
        }
    }
    assert(read_once(t, t.params[4].name@));
    assert forall|k: int| 0 <= k < t.recipe.len() && k != 7 implies !reads_key(#[trigger] t.recipe[k], t.params[5].name@) by {
        if k == 0 {
        } else if k == 1 {
        } else if k == 2 {
            assert(reads_key(t.recipe[2], t.params[0].name@));
        } else if k == 3 {
            assert(reads_key(t.recipe[3], t.params[1].name@));
        } else if k == 4 {
            assert(reads_key(t.recipe[4], t.params[2].name@));
        } else if k == 5 {
            assert(reads_key(t.recipe[5], t.params[3].name@));
        } else if k == 6 {
            assert(reads_key(t.recipe[6], t.params[4].name@));
        } else {
            assert(reads_key(t.recipe[8], t.params[6].name@));
        }
    }
    assert(read_once(t, t.params[5].name@));
    assert forall|k: int| 0 <= k < t.recipe.len() && k != 8 implies !reads_key(#[trigger] t.recipe[k], t.params[6].name@) by {
        if k == 0 {
        } else if k == 1 {
        } else if k == 2 {
            assert(reads_key(t.recipe[2], t.params[0].name@));
        } else if k == 3 {
            assert(reads_key(t.recipe[3], t.params[1].name@));
        } else if k == 4 {
            assert(reads_key(t.recipe[4], t.params[2].name@));
        } else if k == 5 {
            assert(reads_key(t.recipe[5], t.params[3].name@));
        } else if k == 6 {
            assert(reads_key(t.recipe[6], t.params[4].name@));
        } else {
            assert(reads_key(t.recipe[7], t.params[5].name@));
        }
    }
    assert(read_once(t, t.params[6].name@));
}

pub(crate) proof fn lemma_steps_27()
    ensures
        steps_shaped(spec_tool(27)),
{
    let t = spec_tool(27);
    assert forall|k: int| 0 <= k < t.recipe.len() implies step_shape(#[trigger] t.recipe[k]) by {
        if k == 0 {
            reveal_strlit("cf");
        } else if k == 1 {
            reveal_strlit("start");
        } else {
        }
    }
}

pub(crate) proof fn lemma_placed_27()
    ensures
        required_placed(spec_tool(27)),
        booleans_read_once(spec_tool(27)),
        params_read_once(spec_tool(27)),
{
    let t = spec_tool(27);
    assert forall|j: int| 0 <= j < t.params.len() && (#[trigger] t.params[j]).required implies always_placed(t, t.params[j]) by {
        assert(step_always_places(t.recipe[2], t.params[0]));
    }
    assert forall|k: int| 0 <= k < t.recipe.len() && k != 2 implies !reads_key(#[trigger] t.recipe[k], t.params[0].name@) by {
        if k == 0 {
        } else {
        }
    }
    assert(read_once(t, t.params[0].name@));
}

pub(crate) proof fn lemma_steps_28()
    ensures
        steps_shaped(spec_tool(28)),
{
    let t = spec_tool(28);
    assert forall|k: int| 0 <= k < t.recipe.len() implies step_shape(#[trigger] t.recipe[k]) by {
        if k == 0 {
            reveal_strlit("cf");
        } else if k == 1 {
            reveal_strlit("stop");
        } else {
        }
    }
}

pub(crate) proof fn lemma_placed_28()
    ensures
        required_placed(spec_tool(28)),
        booleans_read_once(spec_tool(28)),
        params_read_once(spec_tool(28)),
{
    let t = spec_tool(28);
    assert forall|j: int| 0 <= j < t.params.len() && (#[trigger] t.params[j]).required implies always_placed(t, t.params[j]) by {
        assert(step_always_places(t.recipe[2], t.params[0]));
    }
    assert forall|k: int| 0 <= k < t.recipe.len() && k != 2 implies !reads_key(#[trigger] t.recipe[k], t.params[0].name@) by {
        if k == 0 {
        } else {
        }
    }
    assert(read_once(t, t.params[0].name@));
}

pub(crate) proof fn lemma_steps_29()
    ensures
        steps_shaped(spec_tool(29)),
{
    let t = spec_tool(29);
    assert forall|k: int| 0 <= k < t.recipe.len() implies step_shape(#[trigger] t.recipe[k]) by {
        if k == 0 {
            reveal_strlit("cf");
        } else if k == 1 {
            reveal_strlit("restart");
        } else {
        }
    }
}

pub(crate) proof fn lemma_placed_29()
    ensures
        required_placed(spec_tool(29)),
        booleans_read_once(spec_tool(29)),
        params_read_once(spec_tool(29)),
{
    let t = spec_tool(29);
    assert forall|j: int| 0 <= j < t.params.len() && (#[trigger] t.params[j]).required implies always_placed(t, t.params[j]) by {
        assert(step_always_places(t.recipe[2], t.params[0]));
    }
    assert forall|k: int| 0 <= k < t.recipe.len() && k != 2 implies !reads_key(#[trigger] t.recipe[k], t.params[0].name@) by {
        if k == 0 {
        } else {
        }
    }
    assert(read_once(t, t.params[0].name@));
}

pub(crate) proof fn lemma_steps_30()
    ensures
        steps_shaped(spec_tool(30)),
{
    let t = spec_tool(30);
    assert forall|k: int| 0 <= k < t.recipe.len() implies step_shape(#[trigger] t.recipe[k]) by {
        if k == 0 {
            reveal_strlit("cf");
        } else if k == 1 {
            reveal_strlit("delete");
        } else if k == 2 {
        } else if k == 3 {
            reveal_strlit("-f");
            reveal_strlit("force");
            reveal_strlit("stream");
            assert("force"@.len() != "stream"@.len());
        } else {
            reveal_strlit("-r");
            reveal_strlit("delete_routes");
            reveal_strlit("stream");
            assert("delete_routes"@.len() != "stream"@.len());
        }
    }
}

pub(crate) proof fn lemma_placed_30()
    ensures
        required_placed(spec_tool(30)),
        booleans_read_once(spec_tool(30)),
        params_read_once(spec_tool(30)),
{
    let t = spec_tool(30);
    lemma_param_names_30();
    assert forall|j: int| 0 <= j < t.params.len() && (#[trigger] t.params[j]).required implies always_placed(t, t.params[j]) by {
        if j == 0 {
            assert(step_always_places(t.recipe[2], t.params[0]));
        } else if j == 1 {
        } else {
        }
    }
    assert forall|k: int| 0 <= k < t.recipe.len() && k != 2 implies !reads_key(#[trigger] t.recipe[k], t.params[0].name@) by {
        if k == 0 {
        } else if k == 1 {
        } else if k == 3 {
            assert(reads_key(t.recipe[3], t.params[1].name@));
        } else {
            assert(reads_key(t.recipe[4], t.params[2].name@));
        }
    }
    assert(read_once(t, t.params[0].name@));
    assert forall|k: int| 0 <= k < t.recipe.len() && k != 3 implies !reads_key(#[trigger] t.recipe[k], t.params[1].name@) by {
        if k == 0 {
        } else if k == 1 {
        } else if k == 2 {
            assert(reads_key(t.recipe[2], t.params[0].name@));
        } else {
            assert(reads_key(t.recipe[4], t.params[2].name@));
        }
    }
    assert(read_once(t, t.params[1].name@));
    assert forall|k: int| 0 <= k < t.recipe.len() && k != 4 implies !reads_key(#[trigger] t.recipe[k], t.params[2].name@) by {
        if k == 0 {
        } else if k == 1 {
        } else if k == 2 {
            assert(reads_key(t.recipe[2], t.params[0].name@));
        } else {
            assert(reads_key(t.recipe[3], t.params[1].name@));
        }
    }
    assert(read_once(t, t.params[2].name@));
}

pub(crate) proof fn lemma_steps_31()
    ensures
        steps_shaped(spec_tool(31)),
{
    let t = spec_tool(31);
    assert forall|k: int| 0 <= k < t.recipe.len() implies step_shape(#[trigger] t.recipe[k]) by {
        if k == 0 {
            reveal_strlit("cf");
        } else if k == 1 {
            reveal_strlit("logs");
        } else if k == 2 {
        } else {
            reveal_strlit("--recent");
        }
    }
}

pub(crate) proof fn lemma_placed_31()
    ensures
        required_placed(spec_tool(31)),
        booleans_read_once(spec_tool(31)),
        params_read_once(spec_tool(31)),
{
    let t = spec_tool(31);
    lemma_param_names_31();
    assert forall|j: int| 0 <= j < t.params.len() && (#[trigger] t.params[j]).required implies always_placed(t, t.params[j]) by {
        if j == 0 {
            assert(step_always_places(t.recipe[2], t.params[0]));
        } else {
        }
    }
    assert forall|k: int| 0 <= k < t.recipe.len() && k != 2 implies !reads_key(#[trigger] t.recipe[k], t.params[0].name@) by {
        if k == 0 {
        } else if k == 1 {
        } else {
            assert(reads_key(t.recipe[3], t.params[1].name@));
        }
    }
    assert(read_once(t, t.params[0].name@));
    assert forall|k: int| 0 <= k < t.recipe.len() && k != 3 implies !reads_key(#[trigger] t.recipe[k], t.params[1].name@) by {
        if k == 0 {
        } else if k == 1 {
        } else {
            assert(reads_key(t.recipe[2], t.params[0].name@));
        }
    }
    assert(read_once(t, t.params[1].name@));
}

pub(crate) proof fn lemma_steps_32()
    ensures
        steps_shaped(spec_tool(32)),
{
    let t = spec_tool(32);
    assert forall|k: int| 0 <= k < t.recipe.len() implies step_shape(#[trigger] t.recipe[k]) by {
        if k == 0 {
            reveal_strlit("cf");
        } else if k == 1 {
            reveal_strlit("env");
        } else {
        }
    }
}

pub(crate) proof fn lemma_placed_32()
    ensures
        required_placed(spec_tool(32)),
        booleans_read_once(spec_tool(32)),
        params_read_once(spec_tool(32)),
{
    let t = spec_tool(32);
    assert forall|j: int| 0 <= j < t.params.len() && (#[trigger] t.params[j]).required implies always_placed(t, t.params[j]) by {
        assert(step_always_places(t.recipe[2], t.params[0]));
    }
    assert forall|k: int| 0 <= k < t.recipe.len() && k != 2 implies !reads_key(#[trigger] t.recipe[k], t.params[0].name@) by {
        if k == 0 {
        } else {
        }
    }
    assert(read_once(t, t.params[0].name@));
}

pub(crate) proof fn lemma_steps_33()
    ensures
        steps_shaped(spec_tool(33)),
{
    let t = spec_tool(33);
    assert forall|k: int| 0 <= k < t.recipe.len() implies step_shape(#[trigger] t.recipe[k]) by {
        if k == 0 {
            reveal_strlit("cf");
        } else if k == 1 {
            reveal_strlit("set-env");
        } else if k == 2 {
        } else if k == 3 {
        } else {
        }
    }
}

pub(crate) proof fn lemma_placed_33()
    ensures
        required_placed(spec_tool(33)),
        booleans_read_once(spec_tool(33)),
        params_read_once(spec_tool(33)),
{
    let t = spec_tool(33);
    assert forall|j: int| 0 <= j < t.params.len() && (#[trigger] t.params[j]).required implies always_placed(t, t.params[j]) by {
        if j == 0 {
            assert(step_always_places(t.recipe[2], t.params[0]));
        } else if j == 1 {
            assert(step_always_places(t.recipe[3], t.params[1]));
        } else {
            assert(step_always_places(t.recipe[4], t.params[2]));
        }
    }
    lemma_param_names_33();
    assert forall|k: int| 0 <= k < t.recipe.len() && k != 2 implies !reads_key(#[trigger] t.recipe[k], t.params[0].name@) by {
        if k == 0 {
        } else if k == 1 {
        } else if k == 3 {
            assert(reads_key(t.recipe[3], t.params[1].name@));
        } else {
            assert(reads_key(t.recipe[4], t.params[2].name@));
        }
    }
    assert(read_once(t, t.params[0].name@));
    assert forall|k: int| 0 <= k < t.recipe.len() && k != 3 implies !reads_key(#[trigger] t.recipe[k], t.params[1].name@) by {
        if k == 0 {
        } else if k == 1 {
        } else if k == 2 {
            assert(reads_key(t.recipe[2], t.params[0].name@));
        } else {
            assert(reads_key(t.recipe[4], t.params[2].name@));
        }
    }
    assert(read_once(t, t.params[1].name@));
    assert forall|k: int| 0 <= k < t.recipe.len() && k != 4 implies !reads_key(#[trigger] t.recipe[k], t.params[2].name@) by {
        if k == 0 {
        } else if k == 1 {
        } else if k == 2 {
            assert(reads_key(t.recipe[2], t.params[0].name@));
        } else {
            assert(reads_key(t.recipe[3], t.params[1].name@));
        }
    }
    assert(read_once(t, t.params[2].name@));
}

pub(crate) proof fn lemma_steps_34()
    ensures
        steps_shaped(spec_tool(34)),
{
    let t = spec_tool(34);
    assert forall|k: int| 0 <= k < t.recipe.len() implies step_shape(#[trigger] t.recipe[k]) by {
        if k == 0 {
            reveal_strlit("cf");
        } else if k == 1 {
            reveal_strlit("scale");
        } else if k == 2 {
        } else if k == 3 {
            reveal_strlit("-i");
        } else if k == 4 {
            reveal_strlit("-m");
        } else if k == 5 {
            reveal_strlit("-k");
        } else {
            reveal_strlit("-f");
        }
    }
}

pub(crate) proof fn lemma_placed_34()
    ensures
        required_placed(spec_tool(34)),
        booleans_read_once(spec_tool(34)),
        params_read_once(spec_tool(34)),
{
    let t = spec_tool(34);
    assert forall|j: int| 0 <= j < t.params.len() && (#[trigger] t.params[j]).required implies always_placed(t, t.params[j]) by {
        if j == 0 {
            assert(step_always_places(t.recipe[2], t.params[0]));
        } else if j == 1 {
        } else if j == 2 {
        } else {
        }
    }
    lemma_param_names_34();
    assert forall|k: int| 0 <= k < t.recipe.len() && k != 2 implies !reads_key(#[trigger] t.recipe[k], t.params[0].name@) by {
        if k == 0 {
        } else if k == 1 {
        } else if k == 3 {
            assert(reads_key(t.recipe[3], t.params[1].name@));
        } else if k == 4 {
            assert(reads_key(t.recipe[4], t.params[2].name@));
        } else if k == 5 {
            assert(reads_key(t.recipe[5], t.params[3].name@));
        } else {
        }
    }
    assert(read_once(t, t.params[0].name@));
    assert forall|k: int| 0 <= k < t.recipe.len() && k != 3 implies !reads_key(#[trigger] t.recipe[k], t.params[1].name@) by {
        if k == 0 {
        } else if k == 1 {
        } else if k == 2 {
            assert(reads_key(t.recipe[2], t.params[0].name@));
        } else if k == 4 {
            assert(reads_key(t.recipe[4], t.params[2].name@));
        } else if k == 5 {
            assert(reads_key(t.recipe[5], t.params[3].name@));
        } else {
        }
    }
    assert(read_once(t, t.params[1].name@));
    assert forall|k: int| 0 <= k < t.recipe.len() && k != 4 implies !reads_key(#[trigger] t.recipe[k], t.params[2].name@) by {
        if k == 0 {
        } else if k == 1 {
        } else if k == 2 {
            assert(reads_key(t.recipe[2], t.params[0].name@));
        } else if k == 3 {
            assert(reads_key(t.recipe[3], t.params[1].name@));
        } else if k == 5 {
            assert(reads_key(t.recipe[5], t.params[3].name@));
        } else {
        }
    }
    assert(read_once(t, t.params[2].name@));
    assert forall|k: int| 0 <= k < t.recipe.len() && k != 5 implies !reads_key(#[trigger] t.recipe[k], t.params[3].name@) by {
        if k == 0 {
        } else if k == 1 {
        } else if k == 2 {
            assert(reads_key(t.recipe[2], t.params[0].name@));
        } else if k == 3 {
            assert(reads_key(t.recipe[3], t.params[1].name@));
        } else if k == 4 {
            assert(reads_key(t.recipe[4], t.params[2].name@));
        } else {
        }
    }
    assert(read_once(t, t.params[3].name@));
}

pub(crate) proof fn lemma_steps_35()
    ensures
        steps_shaped(spec_tool(35)),
{
    let t = spec_tool(35);
    assert forall|k: int| 0 <= k < t.recipe.len() implies step_shape(#[trigger] t.recipe[k]) by {
        if k == 0 {
            reveal_strlit("cf");
        } else {
            reveal_strlit("routes");
        }
    }
}

pub(crate) proof fn lemma_placed_35()
    ensures
        required_placed(spec_tool(35)),
        booleans_read_once(spec_tool(35)),
        params_read_once(spec_tool(35)),
{
    let t = spec_tool(35);
}

pub(crate) proof fn lemma_steps_36()
    ensures
        steps_shaped(spec_tool(36)),
{
    let t = spec_tool(36);
    assert forall|k: int| 0 <= k < t.recipe.len() implies step_shape(#[trigger] t.recipe[k]) by {
        if k == 0 {
            reveal_strlit("cf");
        } else {
            reveal_strlit("services");
        }
    }
}

pub(crate) proof fn lemma_placed_36()
    ensures
        required_placed(spec_tool(36)),
        booleans_read_once(spec_tool(36)),
        params_read_once(spec_tool(36)),
{
    let t = spec_tool(36);
}

pub(crate) proof fn lemma_steps_37()
    ensures
        steps_shaped(spec_tool(37)),
{
    let t = spec_tool(37);
    assert forall|k: int| 0 <= k < t.recipe.len() implies step_shape(#[trigger] t.recipe[k]) by {
        if k == 0 {
            reveal_strlit("cf");
        } else if k == 1 {
            reveal_strlit("marketplace");
        } else {
            reveal_strlit("-e");
        }
    }
}

pub(crate) proof fn lemma_placed_37()
    ensures
        required_placed(spec_tool(37)),
        booleans_read_once(spec_tool(37)),
        params_read_once(spec_tool(37)),
{
    let t = spec_tool(37);
    assert forall|k: int| 0 <= k < t.recipe.len() && k != 2 implies !reads_key(#[trigger] t.recipe[k], t.params[0].name@) by {
        if k == 0 {
        } else {
        }
    }
    assert(read_once(t, t.params[0].name@));
}

pub(crate) proof fn lemma_steps_38()
    ensures
        steps_shaped(spec_tool(38)),
{
    let t = spec_tool(38);
    assert forall|k: int| 0 <= k < t.recipe.len() implies step_shape(#[trigger] t.recipe[k]) by {
        if k == 0 {
            reveal_strlit("cf");
        } else if k == 1 {
            reveal_strlit("create-service");
        } else if k == 2 {
        } else if k == 3 {
        } else if k == 4 {
        } else {
            reveal_strlit("-c");
        }
    }
}

pub(crate) proof fn lemma_placed_38()
    ensures
        required_placed(spec_tool(38)),
        booleans_read_once(spec_tool(38)),
        params_read_once(spec_tool(38)),
{
    let t = spec_tool(38);
    assert forall|j: int| 0 <= j < t.params.len() && (#[trigger] t.params[j]).required implies always_placed(t, t.params[j]) by {
        if j == 0 {
            assert(step_always_places(t.recipe[2], t.params[0]));
        } else if j == 1 {
            assert(step_always_places(t.recipe[3], t.params[1]));
        } else if j == 2 {
            assert(step_always_places(t.recipe[4], t.params[2]));
        } else {
        }
    }
    lemma_param_names_38();
    assert forall|k: int| 0 <= k < t.recipe.len() && k != 2 implies !reads_key(#[trigger] t.recipe[k], t.params[0].name@) by {
        if k == 0 {
        } else if k == 1 {
        } else if k == 3 {
            assert(reads_key(t.recipe[3], t.params[1].name@));
        } else if k == 4 {
            assert(reads_key(t.recipe[4], t.params[2].name@));
        } else {
            assert(reads_key(t.recipe[5], t.params[3].name@));
        }
    }
    assert(read_once(t, t.params[0].name@));
    assert forall|k: int| 0 <= k < t.recipe.len() && k != 3 implies !reads_key(#[trigger] t.recipe[k], t.params[1].name@) by {
        if k == 0 {
        } else if k == 1 {
        } else if k == 2 {
            assert(reads_key(t.recipe[2], t.params[0].name@));
        } else if k == 4 {
            assert(reads_key(t.recipe[4], t.params[2].name@));
        } else {
            assert(reads_key(t.recipe[5], t.params[3].name@));
        }
    }
    assert(read_once(t, t.params[1].name@));
    assert forall|k: int| 0 <= k < t.recipe.len() && k != 4 implies !reads_key(#[trigger] t.recipe[k], t.params[2].name@) by {
        if k == 0 {
        } else if k == 1 {
        } else if k == 2 {
            assert(reads_key(t.recipe[2], t.params[0].name@));
        } else if k == 3 {
            assert(reads_key(t.recipe[3], t.params[1].name@));
        } else {
            assert(reads_key(t.recipe[5], t.params[3].name@));
        }
    }
    assert(read_once(t, t.params[2].name@));
    assert forall|k: int| 0 <= k < t.recipe.len() && k != 5 implies !reads_key(#[trigger] t.recipe[k], t.params[3].name@) by {
        if k == 0 {
        } else if k == 1 {
        } else if k == 2 {
            assert(reads_key(t.recipe[2], t.params[0].name@));
        } else if k == 3 {
            assert(reads_key(t.recipe[3], t.params[1].name@));
        } else {
            assert(reads_key(t.recipe[4], t.params[2].name@));
        }
    }
    assert(read_once(t, t.params[3].name@));
}

pub(crate) proof fn lemma_steps_39()
    ensures
        steps_shaped(spec_tool(39)),
{
    let t = spec_tool(39);
    assert forall|k: int| 0 <= k < t.recipe.len() implies step_shape(#[trigger] t.recipe[k]) by {
        if k == 0 {
            reveal_strlit("cf");
        } else if k == 1 {
            reveal_strlit("bind-service");
        } else if k == 2 {
        } else if k == 3 {
        } else {
            reveal_strlit("-c");
        }
    }
}

pub(crate) proof fn lemma_placed_39()
    ensures
        required_placed(spec_tool(39)),
        booleans_read_once(spec_tool(39)),
        params_read_once(spec_tool(39)),
{
    let t = spec_tool(39);
    assert forall|j: int| 0 <= j < t.params.len() && (#[trigger] t.params[j]).required implies always_placed(t, t.params[j]) by {
        if j == 0 {
            assert(step_always_places(t.recipe[2], t.params[0]));
        } else if j == 1 {
            assert(step_always_places(t.recipe[3], t.params[1]));
        } else {
        }
    }
    lemma_param_names_39();
    assert forall|k: int| 0 <= k < t.recipe.len() && k != 2 implies !reads_key(#[trigger] t.recipe[k], t.params[0].name@) by {
        if k == 0 {
        } else if k == 1 {
        } else if k == 3 {
            assert(reads_key(t.recipe[3], t.params[1].name@));
        } else {
            assert(reads_key(t.recipe[4], t.params[2].name@));
        }
    }
    assert(read_once(t, t.params[0].name@));
    assert forall|k: int| 0 <= k < t.recipe.len() && k != 3 implies !reads_key(#[trigger] t.recipe[k], t.params[1].name@) by {
        if k == 0 {
        } else if k == 1 {
        } else if k == 2 {
            assert(reads_key(t.recipe[2], t.params[0].name@));
        } else {
            assert(reads_key(t.recipe[4], t.params[2].name@));
        }
    }
    assert(read_once(t, t.params[1].name@));
    assert forall|k: int| 0 <= k < t.recipe.len() && k != 4 implies !reads_key(#[trigger] t.recipe[k], t.params[2].name@) by {
        if k == 0 {
        } else if k == 1 {
        } else if k == 2 {
            assert(reads_key(t.recipe[2], t.params[0].name@));
        } else {
            assert(reads_key(t.recipe[3], t.params[1].name@));
        }
    }
    assert(read_once(t, t.params[2].name@));
}

pub(crate) proof fn lemma_steps_40()
    ensures
        steps_shaped(spec_tool(40)),
{
    let t = spec_tool(40);
    assert forall|k: int| 0 <= k < t.recipe.len() implies step_shape(#[trigger] t.recipe[k]) by {
        if k == 0 {
            reveal_strlit("cf");
        } else if k == 1 {
            reveal_strlit("unbind-service");
        } else if k == 2 {
        } else {
        }
    }
}

pub(crate) proof fn lemma_placed_40()
    ensures
        required_placed(spec_tool(40)),
        booleans_read_once(spec_tool(40)),
        params_read_once(spec_tool(40)),
{
    let t = spec_tool(40);
    assert forall|j: int| 0 <= j < t.params.len() && (#[trigger] t.params[j]).required implies always_placed(t, t.params[j]) by {
        if j == 0 {
            assert(step_always_places(t.recipe[2], t.params[0]));
        } else {
            assert(step_always_places(t.recipe[3], t.params[1]));
        }
    }
    lemma_param_names_40();
    assert forall|k: int| 0 <= k < t.recipe.len() && k != 2 implies !reads_key(#[trigger] t.recipe[k], t.params[0].name@) by {
        if k == 0 {
        } else if k == 1 {
        } else {
            assert(reads_key(t.recipe[3], t.params[1].name@));
        }
    }
    assert(read_once(t, t.params[0].name@));
    assert forall|k: int| 0 <= k < t.recipe.len() && k != 3 implies !reads_key(#[trigger] t.recipe[k], t.params[1].name@) by {
        if k == 0 {
        } else if k == 1 {
        } else {
            assert(reads_key(t.recipe[2], t.params[0].name@));
        }
    }
    assert(read_once(t, t.params[1].name@));
}

pub(crate) proof fn lemma_steps_41()
    ensures
        steps_shaped(spec_tool(41)),
{
    let t = spec_tool(41);
    assert forall|k: int| 0 <= k < t.recipe.len() implies step_shape(#[trigger] t.recipe[k]) by {
        if k == 0 {
            reveal_strlit("ks");
        } else if k == 1 {
            reveal_strlit("clusters");
        } else {
            reveal_strlit("--provider");
        }
    }
}

pub(crate) proof fn lemma_placed_41()
    ensures
        required_placed(spec_tool(41)),
        booleans_read_once(spec_tool(41)),
        params_read_once(spec_tool(41)),
{
    let t = spec_tool(41);
    assert forall|k: int| 0 <= k < t.recipe.len() && k != 2 implies !reads_key(#[trigger] t.recipe[k], t.params[0].name@) by {
        if k == 0 {
        } else {
        }
    }
    assert(read_once(t, t.params[0].name@));
}

pub(crate) proof fn lemma_steps_42()
    ensures
        steps_shaped(spec_tool(42)),
{
    let t = spec_tool(42);
    assert forall|k: int| 0 <= k < t.recipe.len() implies step_shape(#[trigger] t.recipe[k]) by {
        if k == 0 {
            reveal_strlit("ks");
        } else if k == 1 {
            reveal_strlit("cluster");
        } else if k == 2 {
            reveal_strlit("get");
        } else if k == 3 {
            reveal_strlit("--cluster");
        } else {
        }
    }
}

pub(crate) proof fn lemma_placed_42()
    ensures
        required_placed(spec_tool(42)),
        booleans_read_once(spec_tool(42)),
        params_read_once(spec_tool(42)),
{
    let t = spec_tool(42);
    assert forall|j: int| 0 <= j < t.params.len() && (#[trigger] t.params[j]).required implies always_placed(t, t.params[j]) by {
        assert(step_always_places(t.recipe[4], t.params[0]));
    }
    assert forall|k: int| 0 <= k < t.recipe.len() && k != 4 implies !reads_key(#[trigger] t.recipe[k], t.params[0].name@) by {
        if k == 0 {
        } else if k == 1 {
        } else if k == 2 {
        } else {
        }
    }
    assert(read_once(t, t.params[0].name@));
}

pub(crate) proof fn lemma_steps_43()
    ensures
        steps_shaped(spec_tool(43)),
{
    let t = spec_tool(43);
    assert forall|k: int| 0 <= k < t.recipe.len() implies step_shape(#[trigger] t.recipe[k]) by {
        if k == 0 {
            reveal_strlit("ks");
        } else if k == 1 {
            reveal_strlit("cluster");
        } else if k == 2 {
            reveal_strlit("config");
        } else if k == 3 {
            reveal_strlit("--cluster");
        } else if k == 4 {
        } else {
            reveal_strlit("--admin");
            reveal_strlit("admin");
            reveal_strlit("stream");
            assert("admin"@.len() != "stream"@.len());
        }
    }
}

pub(crate) proof fn lemma_placed_43()
    ensures
        required_placed(spec_tool(43)),
        booleans_read_once(spec_tool(43)),
        params_read_once(spec_tool(43)),
{
    let t = spec_tool(43);
    lemma_param_names_43();
    assert forall|j: int| 0 <= j < t.params.len() && (#[trigger] t.params[j]).required implies always_placed(t, t.params[j]) by {
        if j == 0 {
            assert(step_always_places(t.recipe[4], t.params[0]));
        } else {
        }
    }
    assert forall|k: int| 0 <= k < t.recipe.len() && k != 4 implies !reads_key(#[trigger] t.recipe[k], t.params[0].name@) by {
        if k == 0 {
        } else if k == 1 {
        } else if k == 2 {
        } else if k == 3 {
        } else {
            assert(reads_key(t.recipe[5], t.params[1].name@));
        }
    }
    assert(read_once(t, t.params[0].name@));
    assert forall|k: int| 0 <= k < t.recipe.len() && k != 5 implies !reads_key(#[trigger] t.recipe[k], t.params[1].name@) by {
        if k == 0 {
        } else if k == 1 {
        } else if k == 2 {
        } else if k == 3 {
        } else {
            assert(reads_key(t.recipe[4], t.params[0].name@));
        }
    }
    assert(read_once(t, t.params[1].name@));
}

pub(crate) proof fn lemma_steps_44()
    ensures
        steps_shaped(spec_tool(44)),
{
    let t = spec_tool(44);
    assert forall|k: int| 0 <= k < t.recipe.len() implies step_shape(#[trigger] t.recipe[k]) by {
        if k == 0 {
            reveal_strlit("ks");
        } else if k == 1 {
            reveal_strlit("cluster");
        } else if k == 2 {
            reveal_strlit("create");
        } else if k == 3 {
            reveal_strlit("vpc-gen2");
            reveal_strlit("classic");
        } else if k == 4 {
            reveal_strlit("--name");
        } else if k == 5 {
        } else if k == 6 {
            reveal_strlit("--zone");
        } else if k == 7 {
        } else if k == 8 {
            reveal_strlit("--flavor");
        } else if k == 9 {
            reveal_strlit("--workers");
        } else if k == 10 {
            reveal_strlit("--version");
        } else if k == 11 {
            reveal_strlit("--vpc-id");
        } else {
            reveal_strlit("--subnet-id");
        }
    }
}

pub(crate) proof fn lemma_placed_44()
    ensures
        required_placed(spec_tool(44)),
        booleans_read_once(spec_tool(44)),
        params_read_once(spec_tool(44)),
{
    let t = spec_tool(44);
    assert forall|j: int| 0 <= j < t.params.len() && (#[trigger] t.params[j]).required implies always_placed(t, t.params[j]) by {
        if j == 0 {
            assert(step_always_places(t.recipe[5], t.params[0]));
        } else if j == 1 {
            assert(step_always_places(t.recipe[7], t.params[1]));
        } else if j == 2 {
        } else if j == 3 {
        } else if j == 4 {
        } else if j == 5 {
        } else {
        }
    }
    lemma_param_names_44();
    assert forall|k: int| 0 <= k < t.recipe.len() && k != 5 implies !reads_key(#[trigger] t.recipe[k], t.params[0].name@) by {
        if k == 0 {
        } else if k == 1 {
        } else if k == 2 {
        } else if k == 3 {
            assert(reads_key(t.recipe[3], t.params[5].name@));
        } else if k == 4 {
        } else if k == 6 {
        } else if k == 7 {
            assert(reads_key(t.recipe[7], t.params[1].name@));
        } else if k == 8 {
            assert(reads_key(t.recipe[8], t.params[2].name@));
        } else if k == 9 {
            assert(reads_key(t.recipe[9], t.params[3].name@));
        } else if k == 10 {
            assert(reads_key(t.recipe[10], t.params[4].name@));
        } else if k == 11 {
            assert(reads_key(t.recipe[11], t.params[5].name@));
        } else {
            assert(reads_key(t.recipe[12], t.params[6].name@));
        }
    }
    assert(read_once(t, t.params[0].name@));
    assert forall|k: int| 0 <= k < t.recipe.len() && k != 7 implies !reads_key(#[trigger] t.recipe[k], t.params[1].name@) by {
        if k == 0 {
        } else if k == 1 {
        } else if k == 2 {
        } else if k == 3 {
            assert(reads_key(t.recipe[3], t.params[5].name@));
        } else if k == 4 {
        } else if k == 5 {
            assert(reads_key(t.recipe[5], t.params[0].name@));
        } else if k == 6 {
        } else if k == 8 {
            assert(reads_key(t.recipe[8], t.params[2].name@));
        } else if k == 9 {
            assert(reads_key(t.recipe[9], t.params[3].name@));
        } else if k == 10 {
            assert(reads_key(t.recipe[10], t.params[4].name@));
        } else if k == 11 {
            assert(reads_key(t.recipe[11], t.params[5].name@));
        } else {
            assert(reads_key(t.recipe[12], t.params[6].name@));
        }
    }
    assert(read_once(t, t.params[1].name@));
    assert forall|k: int| 0 <= k < t.recipe.len() && k != 8 implies !reads_key(#[trigger] t.recipe[k], t.params[2].name@) by {
        if k == 0 {
        } else if k == 1 {
        } else if k == 2 {
        } else if k == 3 {
            assert(reads_key(t.recipe[3], t.params[5].name@));
        } else if k == 4 {
        } else if k == 5 {
            assert(reads_key(t.recipe[5], t.params[0].name@));
        } else if k == 6 {
        } else if k == 7 {
            assert(reads_key(t.recipe[7], t.params[1].name@));
        } else if k == 9 {
            assert(reads_key(t.recipe[9], t.params[3].name@));
        } else if k == 10 {
            assert(reads_key(t.recipe[10], t.params[4].name@));
        } else if k == 11 {
            assert(reads_key(t.recipe[11], t.params[5].name@));
        } else {
            assert(reads_key(t.recipe[12], t.params[6].name@));
        }
    }
    assert(read_once(t, t.params[2].name@));
    assert forall|k: int| 0 <= k < t.recipe.len() && k != 9 implies !reads_key(#[trigger] t.recipe[k], t.params[3].name@) by {
        if k == 0 {
        } else if k == 1 {
        } else if k == 2 {
        } else if k == 3 {
            assert(reads_key(t.recipe[3], t.params[5].name@));
        } else if k == 4 {
        } else if k == 5 {
            assert(reads_key(t.recipe[5], t.params[0].name@));
        } else if k == 6 {
        } else if k == 7 {
            assert(reads_key(t.recipe[7], t.params[1].name@));
        } else if k == 8 {
            assert(reads_key(t.recipe[8], t.params[2].name@));
        } else if k == 10 {
            assert(reads_key(t.recipe[10], t.params[4].name@));
        } else if k == 11 {
            assert(reads_key(t.recipe[11], t.params[5].name@));
        } else {
            assert(reads_key(t.recipe[12], t.params[6].name@));
        }
    }
    assert(read_once(t, t.params[3].name@));
    assert forall|k: int| 0 <= k < t.recipe.len() && k != 10 implies !reads_key(#[trigger] t.recipe[k], t.params[4].name@) by {
        if k == 0 {
        } else if k == 1 {
        } else if k == 2 {
        } else if k == 3 {
            assert(reads_key(t.recipe[3], t.params[5].name@));
        } else if k == 4 {
        } else if k == 5 {
            assert(reads_key(t.recipe[5], t.params[0].name@));
        } else if k == 6 {
        } else if k == 7 {
            assert(reads_key(t.recipe[7], t.params[1].name@));
        } else if k == 8 {
            assert(reads_key(t.recipe[8], t.params[2].name@));
        } else if k == 9 {
            assert(reads_key(t.recipe[9], t.params[3].name@));
        } else if k == 11 {
            assert(reads_key(t.recipe[11], t.params[5].name@));
        } else {
            assert(reads_key(t.recipe[12], t.params[6].name@));
        }
    }
    assert(read_once(t, t.params[4].name@));
    assert forall|k: int| 0 <= k < t.recipe.len() && k != 12 implies !reads_key(#[trigger] t.recipe[k], t.params[6].name@) by {
        if k == 0 {
        } else if k == 1 {
        } else if k == 2 {
        } else if k == 3 {
            assert(reads_key(t.recipe[3], t.params[5].name@));
        } else if k == 4 {
        } else if k == 5 {
            assert(reads_key(t.recipe[5], t.params[0].name@));
        } else if k == 6 {
        } else if k == 7 {
            assert(reads_key(t.recipe[7], t.params[1].name@));
        } else if k == 8 {
            assert(reads_key(t.recipe[8], t.params[2].name@));
        } else if k == 9 {
            assert(reads_key(t.recipe[9], t.params[3].name@));
        } else if k == 10 {
            assert(reads_key(t.recipe[10], t.params[4].name@));
        } else {
            assert(reads_key(t.recipe[11], t.params[5].name@));
        }
    }
    assert(read_once(t, t.params[6].name@));
}

pub(crate) proof fn lemma_steps_45()
    ensures
        steps_shaped(spec_tool(45)),
{
    let t = spec_tool(45);
    assert forall|k: int| 0 <= k < t.recipe.len() implies step_shape(#[trigger] t.recipe[k]) by {
        if k == 0 {
            reveal_strlit("ks");
        } else if k == 1 {
            reveal_strlit("cluster");
        } else if k == 2 {
            reveal_strlit("rm");
        } else if k == 3 {
            reveal_strlit("--cluster");
        } else if k == 4 {
        } else {
            reveal_strlit("-f");
            reveal_strlit("force");
            reveal_strlit("stream");
            assert("force"@.len() != "stream"@.len());
        }
    }
}

pub(crate) proof fn lemma_placed_45()
    ensures
        required_placed(spec_tool(45)),
        booleans_read_once(spec_tool(45)),
        params_read_once(spec_tool(45)),
{
    let t = spec_tool(45);
    lemma_param_names_45();
    assert forall|j: int| 0 <= j < t.params.len() && (#[trigger] t.params[j]).required implies always_placed(t, t.params[j]) by {
        if j == 0 {
            assert(step_always_places(t.recipe[4], t.params[0]));
        } else {
        }
    }
    assert forall|k: int| 0 <= k < t.recipe.len() && k != 4 implies !reads_key(#[trigger] t.recipe[k], t.params[0].name@) by {
        if k == 0 {
        } else if k == 1 {
        } else if k == 2 {
        } else if k == 3 {
        } else {
            assert(reads_key(t.recipe[5], t.params[1].name@));
        }
    }
    assert(read_once(t, t.params[0].name@));
    assert forall|k: int| 0 <= k < t.recipe.len() && k != 5 implies !reads_key(#[trigger] t.recipe[k], t.params[1].name@) by {
        if k == 0 {
        } else if k == 1 {
        } else if k == 2 {
        } else if k == 3 {
        } else {
            assert(reads_key(t.recipe[4], t.params[0].name@));
        }
    }
    assert(read_once(t, t.params[1].name@));
}

pub(crate) proof fn lemma_steps_46()
    ensures
        steps_shaped(spec_tool(46)),
{
    let t = spec_tool(46);
    assert forall|k: int| 0 <= k < t.recipe.len() implies step_shape(#[trigger] t.recipe[k]) by {
        if k == 0 {
            reveal_strlit("ks");
        } else if k == 1 {
            reveal_strlit("workers");
        } else if k == 2 {
            reveal_strlit("--cluster");
        } else {
        }
    }
}

pub(crate) proof fn lemma_placed_46()
    ensures
        required_placed(spec_tool(46)),
        booleans_read_once(spec_tool(46)),
        params_read_once(spec_tool(46)),
{
    let t = spec_tool(46);
    assert forall|j: int| 0 <= j < t.params.len() && (#[trigger] t.params[j]).required implies always_placed(t, t.params[j]) by {
        assert(step_always_places(t.recipe[3], t.params[0]));
    }
    assert forall|k: int| 0 <= k < t.recipe.len() && k != 3 implies !reads_key(#[trigger] t.recipe[k], t.params[0].name@) by {
        if k == 0 {
        } else if k == 1 {
        } else {
        }
    }
    assert(read_once(t, t.params[0].name@));
}

pub(crate) proof fn lemma_steps_47()
    ensures
        steps_shaped(spec_tool(47)),
{
    let t = spec_tool(47);
    assert forall|k: int| 0 <= k < t.recipe.len() implies step_shape(#[trigger] t.recipe[k]) by {
        if k == 0 {
            reveal_strlit("ks");
        } else if k == 1 {
            reveal_strlit("worker-pools");
        } else if k == 2 {
            reveal_strlit("--cluster");
        } else {
        }
    }
}

pub(crate) proof fn lemma_placed_47()
    ensures
        required_placed(spec_tool(47)),
        booleans_read_once(spec_tool(47)),
        params_read_once(spec_tool(47)),
{
    let t = spec_tool(47);
    assert forall|j: int| 0 <= j < t.params.len() && (#[trigger] t.params[j]).required implies always_placed(t, t.params[j]) by {
        assert(step_always_places(t.recipe[3], t.params[0]));
    }
    assert forall|k: int| 0 <= k < t.recipe.len() && k != 3 implies !reads_key(#[trigger] t.recipe[k], t.params[0].name@) by {
        if k == 0 {
        } else if k == 1 {
        } else {
        }
    }
    assert(read_once(t, t.params[0].name@));
}

pub(crate) proof fn lemma_steps_48()
    ensures
        steps_shaped(spec_tool(48)),
{
    let t = spec_tool(48);
    assert forall|k: int| 0 <= k < t.recipe.len() implies step_shape(#[trigger] t.recipe[k]) by {
        if k == 0 {
            reveal_strlit("ks");
        } else if k == 1 {
            reveal_strlit("worker-pool");
        } else if k == 2 {
            reveal_strlit("create");
        } else if k == 3 {
            reveal_strlit("classic");
        } else if k == 4 {
            reveal_strlit("--cluster");
        } else if k == 5 {
        } else if k == 6 {
            reveal_strlit("--name");
        } else if k == 7 {
        } else if k == 8 {
            reveal_strlit("--flavor");
        } else if k == 9 {
        } else {
            reveal_strlit("--size-per-zone");
        }
    }
}

pub(crate) proof fn lemma_placed_48()
    ensures
        required_placed(spec_tool(48)),
        booleans_read_once(spec_tool(48)),
        params_read_once(spec_tool(48)),
{
    let t = spec_tool(48);
    assert forall|j: int| 0 <= j < t.params.len() && (#[trigger] t.params[j]).required implies always_placed(t, t.params[j]) by {
        if j == 0 {
            assert(step_always_places(t.recipe[5], t.params[0]));
        } else if j == 1 {
            assert(step_always_places(t.recipe[7], t.params[1]));
        } else if j == 2 {
            assert(step_always_places(t.recipe[9], t.params[2]));
        } else {
        }
    }
    lemma_param_names_48();
    assert forall|k: int| 0 <= k < t.recipe.len() && k != 5 implies !reads_key(#[trigger] t.recipe[k], t.params[0].name@) by {
        if k == 0 {
        } else if k == 1 {
        } else if k == 2 {
        } else if k == 3 {
        } else if k == 4 {
        } else if k == 6 {
        } else if k == 7 {
            assert(reads_key(t.recipe[7], t.params[1].name@));
        } else if k == 8 {
        } else if k == 9 {
            assert(reads_key(t.recipe[9], t.params[2].name@));
        } else {
            assert(reads_key(t.recipe[10], t.params[3].name@));
        }
    }
    assert(read_once(t, t.params[0].name@));
    assert forall|k: int| 0 <= k < t.recipe.len() && k != 7 implies !reads_key(#[trigger] t.recipe[k], t.params[1].name@) by {
        if k == 0 {
        } else if k == 1 {
        } else if k == 2 {
        } else if k == 3 {
        } else if k == 4 {
        } else if k == 5 {
            assert(reads_key(t.recipe[5], t.params[0].name@));
        } else if k == 6 {
        } else if k == 8 {
        } else if k == 9 {
            assert(reads_key(t.recipe[9], t.params[2].name@));
        } else {
            assert(reads_key(t.recipe[10], t.params[3].name@));
        }
    }
    assert(read_once(t, t.params[1].name@));
    assert forall|k: int| 0 <= k < t.recipe.len() && k != 9 implies !reads_key(#[trigger] t.recipe[k], t.params[2].name@) by {
        if k == 0 {
        } else if k == 1 {
        } else if k == 2 {
        } else if k == 3 {
        } else if k == 4 {
        } else if k == 5 {
            assert(reads_key(t.recipe[5], t.params[0].name@));
        } else if k == 6 {
        } else if k == 7 {
            assert(reads_key(t.recipe[7], t.params[1].name@));
        } else if k == 8 {
        } else {
            assert(reads_key(t.recipe[10], t.params[3].name@));
        }
    }
    assert(read_once(t, t.params[2].name@));
    assert forall|k: int| 0 <= k < t.recipe.len() && k != 10 implies !reads_key(#[trigger] t.recipe[k], t.params[3].name@) by {
        if k == 0 {
        } else if k == 1 {
        } else if k == 2 {
        } else if k == 3 {
        } else if k == 4 {
        } else if k == 5 {
            assert(reads_key(t.recipe[5], t.params[0].name@));
        } else if k == 6 {
        } else if k == 7 {
            assert(reads_key(t.recipe[7], t.params[1].name@));
        } else if k == 8 {
        } else {
            assert(reads_key(t.recipe[9], t.params[2].name@));
        }
    }
    assert(read_once(t, t.params[3].name@));
}

pub(crate) proof fn lemma_steps_49()
    ensures
        steps_shaped(spec_tool(49)),
{
    let t = spec_tool(49);
    assert forall|k: int| 0 <= k < t.recipe.len() implies step_shape(#[trigger] t.recipe[k]) by {
        if k == 0 {
            reveal_strlit("ks");
        } else if k == 1 {
            reveal_strlit("worker-pool");
        } else if k == 2 {
            reveal_strlit("resize");
        } else if k == 3 {
            reveal_strlit("--cluster");
        } else if k == 4 {
        } else if k == 5 {
            reveal_strlit("--worker-pool");
        } else if k == 6 {
        } else if k == 7 {
            reveal_strlit("--size-per-zone");
        } else {
        }
    }
}

pub(crate) proof fn lemma_placed_49()
    ensures
        required_placed(spec_tool(49)),
        booleans_read_once(spec_tool(49)),
        params_read_once(spec_tool(49)),
{
    let t = spec_tool(49);
    assert forall|j: int| 0 <= j < t.params.len() && (#[trigger] t.params[j]).required implies always_placed(t, t.params[j]) by {
        if j == 0 {
            assert(step_always_places(t.recipe[4], t.params[0]));
        } else if j == 1 {
            assert(step_always_places(t.recipe[6], t.params[1]));
        } else {
            assert(step_always_places(t.recipe[8], t.params[2]));
        }
    }
    lemma_param_names_49();
    assert forall|k: int| 0 <= k < t.recipe.len() && k != 4 implies !reads_key(#[trigger] t.recipe[k], t.params[0].name@) by {
        if k == 0 {
        } else if k == 1 {
        } else if k == 2 {
        } else if k == 3 {
        } else if k == 5 {
        } else if k == 6 {
            assert(reads_key(t.recipe[6], t.params[1].name@));
        } else if k == 7 {
        } else {
            assert(reads_key(t.recipe[8], t.params[2].name@));
        }
    }
    assert(read_once(t, t.params[0].name@));
    assert forall|k: int| 0 <= k < t.recipe.len() && k != 6 implies !reads_key(#[trigger] t.recipe[k], t.params[1].name@) by {
        if k == 0 {
        } else if k == 1 {
        } else if k == 2 {
        } else if k == 3 {
        } else if k == 4 {
            assert(reads_key(t.recipe[4], t.params[0].name@));
        } else if k == 5 {
        } else if k == 7 {
        } else {
            assert(reads_key(t.recipe[8], t.params[2].name@));
        }
    }
    assert(read_once(t, t.params[1].name@));
    assert forall|k: int| 0 <= k < t.recipe.len() && k != 8 implies !reads_key(#[trigger] t.recipe[k], t.params[2].name@) by {
        if k == 0 {
        } else if k == 1 {
        } else if k == 2 {
        } else if k == 3 {
        } else if k == 4 {
            assert(reads_key(t.recipe[4], t.params[0].name@));
        } else if k == 5 {
        } else if k == 6 {
            assert(reads_key(t.recipe[6], t.params[1].name@));
        } else {
        }
    }
    assert(read_once(t, t.params[2].name@));
}

pub(crate) proof fn lemma_steps_50()
    ensures
        steps_shaped(spec_tool(50)),
{
    let t = spec_tool(50);
    assert forall|k: int| 0 <= k < t.recipe.len() implies step_shape(#[trigger] t.recipe[k]) by {
        if k == 0 {
            reveal_strlit("ks");
        } else if k == 1 {
            reveal_strlit("zones");
        } else if k == 2 {
            reveal_strlit("--provider");
        } else {
            reveal_strlit("--location");
        }
    }
}

pub(crate) proof fn lemma_placed_50()
    ensures
        required_placed(spec_tool(50)),
        booleans_read_once(spec_tool(50)),
        params_read_once(spec_tool(50)),
{
    let t = spec_tool(50);
    lemma_param_names_50();
    assert forall|k: int| 0 <= k < t.recipe.len() && k != 2 implies !reads_key(#[trigger] t.recipe[k], t.params[0].name@) by {
        if k == 0 {
        } else if k == 1 {
        } else {
            assert(reads_key(t.recipe[3], t.params[1].name@));
        }
    }
    assert(read_once(t, t.params[0].name@));
    assert forall|k: int| 0 <= k < t.recipe.len() && k != 3 implies !reads_key(#[trigger] t.recipe[k], t.params[1].name@) by {
        if k == 0 {
        } else if k == 1 {
        } else {
            assert(reads_key(t.recipe[2], t.params[0].name@));
        }
    }
    assert(read_once(t, t.params[1].name@));
}

pub(crate) proof fn lemma_steps_51()
    ensures
        steps_shaped(spec_tool(51)),
{
    let t = spec_tool(51);
    assert forall|k: int| 0 <= k < t.recipe.len() implies step_shape(#[trigger] t.recipe[k]) by {
        if k == 0 {
            reveal_strlit("ks");
        } else {
            reveal_strlit("versions");
        }
    }
}

pub(crate) proof fn lemma_placed_51()
    ensures
        required_placed(spec_tool(51)),
        booleans_read_once(spec_tool(51)),
        params_read_once(spec_tool(51)),
{
    let t = spec_tool(51);
}

pub(crate) proof fn lemma_steps_52()
    ensures
        steps_shaped(spec_tool(52)),
{
    let t = spec_tool(52);
    assert forall|k: int| 0 <= k < t.recipe.len() implies step_shape(#[trigger] t.recipe[k]) by {
        if k == 0 {
            reveal_strlit("ks");
        } else if k == 1 {
            reveal_strlit("flavors");
        } else if k == 2 {
            reveal_strlit("--zone");
        } else if k == 3 {
        } else {
            reveal_strlit("--provider");
        }
    }
}

pub(crate) proof fn lemma_placed_52()
    ensures
        required_placed(spec_tool(52)),
        booleans_read_once(spec_tool(52)),
        params_read_once(spec_tool(52)),
{
    let t = spec_tool(52);
    assert forall|j: int| 0 <= j < t.params.len() && (#[trigger] t.params[j]).required implies always_placed(t, t.params[j]) by {
        if j == 0 {
            assert(step_always_places(t.recipe[3], t.params[0]));
        } else {
        }
    }
    lemma_param_names_52();
    assert forall|k: int| 0 <= k < t.recipe.len() && k != 3 implies !reads_key(#[trigger] t.recipe[k], t.params[0].name@) by {
        if k == 0 {
        } else if k == 1 {
        } else if k == 2 {
        } else {
            assert(reads_key(t.recipe[4], t.params[1].name@));
        }
    }
    assert(read_once(t, t.params[0].name@));
    assert forall|k: int| 0 <= k < t.recipe.len() && k != 4 implies !reads_key(#[trigger] t.recipe[k], t.params[1].name@) by {
        if k == 0 {
        } else if k == 1 {
        } else if k == 2 {
        } else {
            assert(reads_key(t.recipe[3], t.params[0].name@));
        }
    }
    assert(read_once(t, t.params[1].name@));
}

pub(crate) proof fn lemma_steps_53()
    ensures
        steps_shaped(spec_tool(53)),
{
    let t = spec_tool(53);
    assert forall|k: int| 0 <= k < t.recipe.len() implies step_shape(#[trigger] t.recipe[k]) by {
        if k == 0 {
            reveal_strlit("cr");
        } else {
            reveal_strlit("namespaces");
        }
    }
}

pub(crate) proof fn lemma_placed_53()
    ensures
        required_placed(spec_tool(53)),
        booleans_read_once(spec_tool(53)),
        params_read_once(spec_tool(53)),
{
    let t = spec_tool(53);
}

pub(crate) proof fn lemma_steps_54()
    ensures
        steps_shaped(spec_tool(54)),
{
    let t = spec_tool(54);
    assert forall|k: int| 0 <= k < t.recipe.len() implies step_shape(#[trigger] t.recipe[k]) by {
        if k == 0 {
            reveal_strlit("cr");
        } else if k == 1 {
            reveal_strlit("namespace-add");
        } else if k == 2 {
        } else {
            reveal_strlit("-g");
        }
    }
}

pub(crate) proof fn lemma_placed_54()
    ensures
        required_placed(spec_tool(54)),
        booleans_read_once(spec_tool(54)),
        params_read_once(spec_tool(54)),
{
    let t = spec_tool(54);
    assert forall|j: int| 0 <= j < t.params.len() && (#[trigger] t.params[j]).required implies always_placed(t, t.params[j]) by {
        if j == 0 {
            assert(step_always_places(t.recipe[2], t.params[0]));
        } else {
        }
    }
    lemma_param_names_54();
    assert forall|k: int| 0 <= k < t.recipe.len() && k != 2 implies !reads_key(#[trigger] t.recipe[k], t.params[0].name@) by {
        if k == 0 {
        } else if k == 1 {
        } else {
            assert(reads_key(t.recipe[3], t.params[1].name@));
        }
    }
    assert(read_once(t, t.params[0].name@));
    assert forall|k: int| 0 <= k < t.recipe.len() && k != 3 implies !reads_key(#[trigger] t.recipe[k], t.params[1].name@) by {
        if k == 0 {
        } else if k == 1 {
        } else {
            assert(reads_key(t.recipe[2], t.params[0].name@));
        }
    }
    assert(read_once(t, t.params[1].name@));
}

pub(crate) proof fn lemma_steps_55()
    ensures
        steps_shaped(spec_tool(55)),
{
    let t = spec_tool(55);
    assert forall|k: int| 0 <= k < t.recipe.len() implies step_shape(#[trigger] t.recipe[k]) by {
        if k == 0 {
            reveal_strlit("cr");
        } else if k == 1 {
            reveal_strlit("images");
        } else if k == 2 {
            reveal_strlit("--repository");
        } else {
            reveal_strlit("--include-ibm");
            reveal_strlit("include_ibm");
            reveal_strlit("stream");
            assert("include_ibm"@.len() != "stream"@.len());
        }
    }
}

pub(crate) proof fn lemma_placed_55()
    ensures
        required_placed(spec_tool(55)),
        booleans_read_once(spec_tool(55)),
        params_read_once(spec_tool(55)),
{
    let t = spec_tool(55);
    lemma_param_names_55();
    assert forall|k: int| 0 <= k < t.recipe.len() && k != 2 implies !reads_key(#[trigger] t.recipe[k], t.params[0].name@) by {
        if k == 0 {
        } else if k == 1 {
        } else {
            assert(reads_key(t.recipe[3], t.params[1].name@));
        }
    }
    assert(read_once(t, t.params[0].name@));
    assert forall|k: int| 0 <= k < t.recipe.len() && k != 3 implies !reads_key(#[trigger] t.recipe[k], t.params[1].name@) by {
        if k == 0 {
        } else if k == 1 {
        } else {
            assert(reads_key(t.recipe[2], t.params[0].name@));
        }
    }
    assert(read_once(t, t.params[1].name@));
}

pub(crate) proof fn lemma_steps_56()
    ensures
        steps_shaped(spec_tool(56)),
{
    let t = spec_tool(56);
    assert forall|k: int| 0 <= k < t.recipe.len() implies step_shape(#[trigger] t.recipe[k]) by {
        if k == 0 {
            reveal_strlit("cr");
        } else if k == 1 {
            reveal_strlit("image-rm");
        } else if k == 2 {
        } else {
            reveal_strlit("-f");
            reveal_strlit("force");
            reveal_strlit("stream");
            assert("force"@.len() != "stream"@.len());
        }
    }
}

pub(crate) proof fn lemma_placed_56()
    ensures
        required_placed(spec_tool(56)),
        booleans_read_once(spec_tool(56)),
        params_read_once(spec_tool(56)),
{
    let t = spec_tool(56);
    lemma_param_names_56();
    assert forall|j: int| 0 <= j < t.params.len() && (#[trigger] t.params[j]).required implies always_placed(t, t.params[j]) by {
        if j == 0 {
            assert(step_always_places(t.recipe[2], t.params[0]));
        } else {
        }
    }
    assert forall|k: int| 0 <= k < t.recipe.len() && k != 2 implies !reads_key(#[trigger] t.recipe[k], t.params[0].name@) by {
        if k == 0 {
        } else if k == 1 {
        } else {
            assert(reads_key(t.recipe[3], t.params[1].name@));
        }
    }
    assert(read_once(t, t.params[0].name@));
    assert forall|k: int| 0 <= k < t.recipe.len() && k != 3 implies !reads_key(#[trigger] t.recipe[k], t.params[1].name@) by {
        if k == 0 {
        } else if k == 1 {
        } else {
            assert(reads_key(t.recipe[2], t.params[0].name@));
        }
    }
    assert(read_once(t, t.params[1].name@));
}

pub(crate) proof fn lemma_steps_57()
    ensures
        steps_shaped(spec_tool(57)),
{
    let t = spec_tool(57);
    assert forall|k: int| 0 <= k < t.recipe.len() implies step_shape(#[trigger] t.recipe[k]) by {
        if k == 0 {
            reveal_strlit("cr");
        } else {
            reveal_strlit("quota");
        }
    }
}

pub(crate) proof fn lemma_placed_57()
    ensures
        required_placed(spec_tool(57)),
        booleans_read_once(spec_tool(57)),
        params_read_once(spec_tool(57)),
{
    let t = spec_tool(57);
}

pub(crate) proof fn lemma_steps_58()
    ensures
        steps_shaped(spec_tool(58)),
{
    let t = spec_tool(58);
    assert forall|k: int| 0 <= k < t.recipe.len() implies step_shape(#[trigger] t.recipe[k]) by {
        if k == 0 {
            reveal_strlit("iam");
        } else {
            reveal_strlit("users");
        }
    }
}

pub(crate) proof fn lemma_placed_58()
    ensures
        required_placed(spec_tool(58)),
        booleans_read_once(spec_tool(58)),
        params_read_once(spec_tool(58)),
{
    let t = spec_tool(58);
}

pub(crate) proof fn lemma_steps_59()
    ensures
        steps_shaped(spec_tool(59)),
{
    let t = spec_tool(59);
    assert forall|k: int| 0 <= k < t.recipe.len() implies step_shape(#[trigger] t.recipe[k]) by {
        if k == 0 {
            reveal_strlit("iam");
        } else if k == 1 {
            reveal_strlit("user-invite");
        } else if k == 2 {
        } else {
            reveal_strlit("--access-groups");
        }
    }
}

pub(crate) proof fn lemma_placed_59()
    ensures
        required_placed(spec_tool(59)),
        booleans_read_once(spec_tool(59)),
        params_read_once(spec_tool(59)),
{
    let t = spec_tool(59);
    assert forall|j: int| 0 <= j < t.params.len() && (#[trigger] t.params[j]).required implies always_placed(t, t.params[j]) by {
        if j == 0 {
            assert(step_always_places(t.recipe[2], t.params[0]));
        } else {
        }
    }
    lemma_param_names_59();
    assert forall|k: int| 0 <= k < t.recipe.len() && k != 2 implies !reads_key(#[trigger] t.recipe[k], t.params[0].name@) by {
        if k == 0 {
        } else if k == 1 {
        } else {
            assert(reads_key(t.recipe[3], t.params[1].name@));
        }
    }
    assert(read_once(t, t.params[0].name@));
    assert forall|k: int| 0 <= k < t.recipe.len() && k != 3 implies !reads_key(#[trigger] t.recipe[k], t.params[1].name@) by {
        if k == 0 {
        } else if k == 1 {
        } else {
            assert(reads_key(t.recipe[2], t.params[0].name@));
        }
    }
    assert(read_once(t, t.params[1].name@));
}

pub(crate) proof fn lemma_steps_60()
    ensures
        steps_shaped(spec_tool(60)),
{
    let t = spec_tool(60);
    assert forall|k: int| 0 <= k < t.recipe.len() implies step_shape(#[trigger] t.recipe[k]) by {
        if k == 0 {
            reveal_strlit("iam");
        } else {
            reveal_strlit("api-keys");
        }
    }
}

pub(crate) proof fn lemma_placed_60()
    ensures
        required_placed(spec_tool(60)),
        booleans_read_once(spec_tool(60)),
        params_read_once(spec_tool(60)),
{
    let t = spec_tool(60);
}

pub(crate) proof fn lemma_steps_61()
    ensures
        steps_shaped(spec_tool(61)),
{
    let t = spec_tool(61);
    assert forall|k: int| 0 <= k < t.recipe.len() implies step_shape(#[trigger] t.recipe[k]) by {
        if k == 0 {
            reveal_strlit("iam");
        } else if k == 1 {
            reveal_strlit("api-key-create");
        } else if k == 2 {
        } else if k == 3 {
            reveal_strlit("-d");
        } else {
            reveal_strlit("--file");
        }
    }
}

pub(crate) proof fn lemma_placed_61()
    ensures
        required_placed(spec_tool(61)),
        booleans_read_once(spec_tool(61)),
        params_read_once(spec_tool(61)),
{
    let t = spec_tool(61);
    assert forall|j: int| 0 <= j < t.params.len() && (#[trigger] t.params[j]).required implies always_placed(t, t.params[j]) by {
        if j == 0 {
            assert(step_always_places(t.recipe[2], t.params[0]));
        } else if j == 1 {
        } else {
        }
    }
    lemma_param_names_61();
    assert forall|k: int| 0 <= k < t.recipe.len() && k != 2 implies !reads_key(#[trigger] t.recipe[k], t.params[0].name@) by {
        if k == 0 {
        } else if k == 1 {
        } else if k == 3 {
            assert(reads_key(t.recipe[3], t.params[1].name@));
        } else {
            assert(reads_key(t.recipe[4], t.params[2].name@));
        }
    }
    assert(read_once(t, t.params[0].name@));
    assert forall|k: int| 0 <= k < t.recipe.len() && k != 3 implies !reads_key(#[trigger] t.recipe[k], t.params[1].name@) by {
        if k == 0 {
        } else if k == 1 {
        } else if k == 2 {
            assert(reads_key(t.recipe[2], t.params[0].name@));
        } else {
            assert(reads_key(t.recipe[4], t.params[2].name@));
        }
    }
    assert(read_once(t, t.params[1].name@));
    assert forall|k: int| 0 <= k < t.recipe.len() && k != 4 implies !reads_key(#[trigger] t.recipe[k], t.params[2].name@) by {
        if k == 0 {
        } else if k == 1 {
        } else if k == 2 {
            assert(reads_key(t.recipe[2], t.params[0].name@));
        } else {
            assert(reads_key(t.recipe[3], t.params[1].name@));
        }
    }
    assert(read_once(t, t.params[2].name@));
}

pub(crate) proof fn lemma_steps_62()
    ensures
        steps_shaped(spec_tool(62)),
{
    let t = spec_tool(62);
    assert forall|k: int| 0 <= k < t.recipe.len() implies step_shape(#[trigger] t.recipe[k]) by {
        if k == 0 {
            reveal_strlit("iam");
        } else if k == 1 {
            reveal_strlit("api-key-delete");
        } else if k == 2 {
        } else {
            reveal_strlit("-f");
            reveal_strlit("force");
            reveal_strlit("stream");
            assert("force"@.len() != "stream"@.len());
        }
    }
}

pub(crate) proof fn lemma_placed_62()
    ensures
        required_placed(spec_tool(62)),
        booleans_read_once(spec_tool(62)),
        params_read_once(spec_tool(62)),
{
    let t = spec_tool(62);
    lemma_param_names_62();
    assert forall|j: int| 0 <= j < t.params.len() && (#[trigger] t.params[j]).required implies always_placed(t, t.params[j]) by {
        if j == 0 {
            assert(step_always_places(t.recipe[2], t.params[0]));
        } else {
        }
    }
    assert forall|k: int| 0 <= k < t.recipe.len() && k != 2 implies !reads_key(#[trigger] t.recipe[k], t.params[0].name@) by {
        if k == 0 {
        } else if k == 1 {
        } else {
            assert(reads_key(t.recipe[3], t.params[1].name@));
        }
    }
    assert(read_once(t, t.params[0].name@));
    assert forall|k: int| 0 <= k < t.recipe.len() && k != 3 implies !reads_key(#[trigger] t.recipe[k], t.params[1].name@) by {
        if k == 0 {
        } else if k == 1 {
        } else {
            assert(reads_key(t.recipe[2], t.params[0].name@));
        }
    }
    assert(read_once(t, t.params[1].name@));
}

pub(crate) proof fn lemma_steps_63()
    ensures
        steps_shaped(spec_tool(63)),
{
    let t = spec_tool(63);
    assert forall|k: int| 0 <= k < t.recipe.len() implies step_shape(#[trigger] t.recipe[k]) by {
        if k == 0 {
            reveal_strlit("iam");
        } else {
            reveal_strlit("service-ids");
        }
    }
}

pub(crate) proof fn lemma_placed_63()
    ensures
        required_placed(spec_tool(63)),
        booleans_read_once(spec_tool(63)),
        params_read_once(spec_tool(63)),
{
    let t = spec_tool(63);
}

pub(crate) proof fn lemma_steps_64()
    ensures
        steps_shaped(spec_tool(64)),
{
    let t = spec_tool(64);
    assert forall|k: int| 0 <= k < t.recipe.len() implies step_shape(#[trigger] t.recipe[k]) by {
        if k == 0 {
            reveal_strlit("iam");
        } else if k == 1 {
            reveal_strlit("service-id");
        } else {
        }
    }
}

pub(crate) proof fn lemma_placed_64()
    ensures
        required_placed(spec_tool(64)),
        booleans_read_once(spec_tool(64)),
        params_read_once(spec_tool(64)),
{
    let t = spec_tool(64);
    assert forall|j: int| 0 <= j < t.params.len() && (#[trigger] t.params[j]).required implies always_placed(t, t.params[j]) by {
        assert(step_always_places(t.recipe[2], t.params[0]));
    }
    assert forall|k: int| 0 <= k < t.recipe.len() && k != 2 implies !reads_key(#[trigger] t.recipe[k], t.params[0].name@) by {
        if k == 0 {
        } else {
        }
    }
    assert(read_once(t, t.params[0].name@));
}

pub(crate) proof fn lemma_steps_65()
    ensures
        steps_shaped(spec_tool(65)),
{
    let t = spec_tool(65);
    assert forall|k: int| 0 <= k < t.recipe.len() implies step_shape(#[trigger] t.recipe[k]) by {
        if k == 0 {
            reveal_strlit("iam");
        } else if k == 1 {
            reveal_strlit("service-id-create");
        } else if k == 2 {
        } else {
            reveal_strlit("-d");
        }
    }
}

pub(crate) proof fn lemma_placed_65()
    ensures
        required_placed(spec_tool(65)),
        booleans_read_once(spec_tool(65)),
        params_read_once(spec_tool(65)),
{
    let t = spec_tool(65);
    assert forall|j: int| 0 <= j < t.params.len() && (#[trigger] t.params[j]).required implies always_placed(t, t.params[j]) by {
        if j == 0 {
            assert(step_always_places(t.recipe[2], t.params[0]));
        } else {
        }
    }
    lemma_param_names_65();
    assert forall|k: int| 0 <= k < t.recipe.len() && k != 2 implies !reads_key(#[trigger] t.recipe[k], t.params[0].name@) by {
        if k == 0 {
        } else if k == 1 {
        } else {
            assert(reads_key(t.recipe[3], t.params[1].name@));
        }
    }
    assert(read_once(t, t.params[0].name@));
    assert forall|k: int| 0 <= k < t.recipe.len() && k != 3 implies !reads_key(#[trigger] t.recipe[k], t.params[1].name@) by {
        if k == 0 {
        } else if k == 1 {
        } else {
            assert(reads_key(t.recipe[2], t.params[0].name@));
        }
    }
    assert(read_once(t, t.params[1].name@));
}

pub(crate) proof fn lemma_steps_66()
    ensures
        steps_shaped(spec_tool(66)),
{
    let t = spec_tool(66);
    assert forall|k: int| 0 <= k < t.recipe.len() implies step_shape(#[trigger] t.recipe[k]) by {
        if k == 0 {
            reveal_strlit("iam");
        } else if k == 1 {
            reveal_strlit("service-id-delete");
        } else if k == 2 {
        } else {
            reveal_strlit("-f");
            reveal_strlit("force");
            reveal_strlit("stream");
            assert("force"@.len() != "stream"@.len());
        }
    }
}

pub(crate) proof fn lemma_placed_66()
    ensures
        required_placed(spec_tool(66)),
        booleans_read_once(spec_tool(66)),
        params_read_once(spec_tool(66)),
{
    let t = spec_tool(66);
    lemma_param_names_66();
    assert forall|j: int| 0 <= j < t.params.len() && (#[trigger] t.params[j]).required implies always_placed(t, t.params[j]) by {
        if j == 0 {
            assert(step_always_places(t.recipe[2], t.params[0]));
        } else {
        }
    }
    assert forall|k: int| 0 <= k < t.recipe.len() && k != 2 implies !reads_key(#[trigger] t.recipe[k], t.params[0].name@) by {
        if k == 0 {
        } else if k == 1 {
        } else {
            assert(reads_key(t.recipe[3], t.params[1].name@));
        }
    }
    assert(read_once(t, t.params[0].name@));
    assert forall|k: int| 0 <= k < t.recipe.len() && k != 3 implies !reads_key(#[trigger] t.recipe[k], t.params[1].name@) by {
        if k == 0 {
        } else if k == 1 {
        } else {
            assert(reads_key(t.recipe[2], t.params[0].name@));
        }
    }
    assert(read_once(t, t.params[1].name@));
}

pub(crate) proof fn lemma_steps_67()
    ensures
        steps_shaped(spec_tool(67)),
{
    let t = spec_tool(67);
    assert forall|k: int| 0 <= k < t.recipe.len() implies step_shape(#[trigger] t.recipe[k]) by {
        if k == 0 {
            reveal_strlit("iam");
        } else if k == 1 {
            reveal_strlit("service-api-keys");
        } else {
        }
    }
}

pub(crate) proof fn lemma_placed_67()
    ensures
        required_placed(spec_tool(67)),
        booleans_read_once(spec_tool(67)),
        params_read_once(spec_tool(67)),
{
    let t = spec_tool(67);
    assert forall|j: int| 0 <= j < t.params.len() && (#[trigger] t.params[j]).required implies always_placed(t, t.params[j]) by {
        assert(step_always_places(t.recipe[2], t.params[0]));
    }
    assert forall|k: int| 0 <= k < t.recipe.len() && k != 2 implies !reads_key(#[trigger] t.recipe[k], t.params[0].name@) by {
        if k == 0 {
        } else {
        }
    }
    assert(read_once(t, t.params[0].name@));
}

pub(crate) proof fn lemma_steps_68()
    ensures
        steps_shaped(spec_tool(68)),
{
    let t = spec_tool(68);
    assert forall|k: int| 0 <= k < t.recipe.len() implies step_shape(#[trigger] t.recipe[k]) by {
        if k == 0 {
            reveal_strlit("iam");
        } else if k == 1 {
            reveal_strlit("service-api-key-create");
        } else if k == 2 {
        } else if k == 3 {
        } else if k == 4 {
            reveal_strlit("-d");
        } else {
            reveal_strlit("--file");
        }
    }
}

pub(crate) proof fn lemma_placed_68()
    ensures
        required_placed(spec_tool(68)),
        booleans_read_once(spec_tool(68)),
        params_read_once(spec_tool(68)),
{
    let t = spec_tool(68);
    assert forall|j: int| 0 <= j < t.params.len() && (#[trigger] t.params[j]).required implies always_placed(t, t.params[j]) by {
        if j == 0 {
            assert(step_always_places(t.recipe[2], t.params[0]));
        } else if j == 1 {
            assert(step_always_places(t.recipe[3], t.params[1]));
        } else if j == 2 {
        } else {
        }
    }
    lemma_param_names_68();
    assert forall|k: int| 0 <= k < t.recipe.len() && k != 2 implies !reads_key(#[trigger] t.recipe[k], t.params[0].name@) by {
        if k == 0 {
        } else if k == 1 {
        } else if k == 3 {
            assert(reads_key(t.recipe[3], t.params[1].name@));
        } else if k == 4 {
            assert(reads_key(t.recipe[4], t.params[2].name@));
        } else {
            assert(reads_key(t.recipe[5], t.params[3].name@));
        }
    }
    assert(read_once(t, t.params[0].name@));
    assert forall|k: int| 0 <= k < t.recipe.len() && k != 3 implies !reads_key(#[trigger] t.recipe[k], t.params[1].name@) by {
        if k == 0 {
        } else if k == 1 {
        } else if k == 2 {
            assert(reads_key(t.recipe[2], t.params[0].name@));
        } else if k == 4 {
            assert(reads_key(t.recipe[4], t.params[2].name@));
        } else {
            assert(reads_key(t.recipe[5], t.params[3].name@));
        }
    }
    assert(read_once(t, t.params[1].name@));
    assert forall|k: int| 0 <= k < t.recipe.len() && k != 4 implies !reads_key(#[trigger] t.recipe[k], t.params[2].name@) by {
        if k == 0 {
        } else if k == 1 {
        } else if k == 2 {
            assert(reads_key(t.recipe[2], t.params[0].name@));
        } else if k == 3 {
            assert(reads_key(t.recipe[3], t.params[1].name@));
        } else {
            assert(reads_key(t.recipe[5], t.params[3].name@));
        }
    }
    assert(read_once(t, t.params[2].name@));
    assert forall|k: int| 0 <= k < t.recipe.len() && k != 5 implies !reads_key(#[trigger] t.recipe[k], t.params[3].name@) by {
        if k == 0 {
        } else if k == 1 {
        } else if k == 2 {
            assert(reads_key(t.recipe[2], t.params[0].name@));
        } else if k == 3 {
            assert(reads_key(t.recipe[3], t.params[1].name@));
        } else {
            assert(reads_key(t.recipe[4], t.params[2].name@));
        }
    }
    assert(read_once(t, t.params[3].name@));
}

pub(crate) proof fn lemma_steps_69()
    ensures
        steps_shaped(spec_tool(69)),
{
    let t = spec_tool(69);
    assert forall|k: int| 0 <= k < t.recipe.len() implies step_shape(#[trigger] t.recipe[k]) by {
        if k == 0 {
            reveal_strlit("iam");
        } else {
            reveal_strlit("access-groups");
        }
    }
}

pub(crate) proof fn lemma_placed_69()
    ensures
        required_placed(spec_tool(69)),
        booleans_read_once(spec_tool(69)),
        params_read_once(spec_tool(69)),
{
    let t = spec_tool(69);
}

pub(crate) proof fn lemma_steps_70()
    ensures
        steps_shaped(spec_tool(70)),
{
    let t = spec_tool(70);
    assert forall|k: int| 0 <= k < t.recipe.len() implies step_shape(#[trigger] t.recipe[k]) by {
        if k == 0 {
            reveal_strlit("iam");
        } else if k == 1 {
            reveal_strlit("access-group");
        } else {
        }
    }
}

pub(crate) proof fn lemma_placed_70()
    ensures
        required_placed(spec_tool(70)),
        booleans_read_once(spec_tool(70)),
        params_read_once(spec_tool(70)),
{
    let t = spec_tool(70);
    assert forall|j: int| 0 <= j < t.params.len() && (#[trigger] t.params[j]).required implies always_placed(t, t.params[j]) by {
        assert(step_always_places(t.recipe[2], t.params[0]));
    }
    assert forall|k: int| 0 <= k < t.recipe.len() && k != 2 implies !reads_key(#[trigger] t.recipe[k], t.params[0].name@) by {
        if k == 0 {
        } else {
        }
    }
    assert(read_once(t, t.params[0].name@));
}

pub(crate) proof fn lemma_steps_71()
    ensures
        steps_shaped(spec_tool(71)),
{
    let t = spec_tool(71);
    assert forall|k: int| 0 <= k < t.recipe.len() implies step_shape(#[trigger] t.recipe[k]) by {
        if k == 0 {
            reveal_strlit("iam");
        } else if k == 1 {
            reveal_strlit("access-group-create");
        } else if k == 2 {
        } else {
            reveal_strlit("-d");
        }
    }
}

pub(crate) proof fn lemma_placed_71()
    ensures
        required_placed(spec_tool(71)),
        booleans_read_once(spec_tool(71)),
        params_read_once(spec_tool(71)),
{
    let t = spec_tool(71);
    assert forall|j: int| 0 <= j < t.params.len() && (#[trigger] t.params[j]).required implies always_placed(t, t.params[j]) by {
        if j == 0 {
            assert(step_always_places(t.recipe[2], t.params[0]));
        } else {
        }
    }
    lemma_param_names_71();
    assert forall|k: int| 0 <= k < t.recipe.len() && k != 2 implies !reads_key(#[trigger] t.recipe[k], t.params[0].name@) by {
        if k == 0 {
        } else if k == 1 {
        } else {
            assert(reads_key(t.recipe[3], t.params[1].name@));
        }
    }
    assert(read_once(t, t.params[0].name@));
    assert forall|k: int| 0 <= k < t.recipe.len() && k != 3 implies !reads_key(#[trigger] t.recipe[k], t.params[1].name@) by {
        if k == 0 {
        } else if k == 1 {
        } else {
            assert(reads_key(t.recipe[2], t.params[0].name@));
        }
    }
    assert(read_once(t, t.params[1].name@));
}

pub(crate) proof fn lemma_steps_72()
    ensures
        steps_shaped(spec_tool(72)),
{
    let t = spec_tool(72);
    assert forall|k: int| 0 <= k < t.recipe.len() implies step_shape(#[trigger] t.recipe[k]) by {
        if k == 0 {
            reveal_strlit("iam");
        } else if k == 1 {
            reveal_strlit("access-group-users");
        } else {
        }
    }
}

pub(crate) proof fn lemma_placed_72()
    ensures
        required_placed(spec_tool(72)),
        booleans_read_once(spec_tool(72)),
        params_read_once(spec_tool(72)),
{
    let t = spec_tool(72);
    assert forall|j: int| 0 <= j < t.params.len() && (#[trigger] t.params[j]).required implies always_placed(t, t.params[j]) by {
        assert(step_always_places(t.recipe[2], t.params[0]));
    }
    assert forall|k: int| 0 <= k < t.recipe.len() && k != 2 implies !reads_key(#[trigger] t.recipe[k], t.params[0].name@) by {
        if k == 0 {
        } else {
        }
    }
    assert(read_once(t, t.params[0].name@));
}

pub(crate) proof fn lemma_steps_73()
    ensures
        steps_shaped(spec_tool(73)),
{
    let t = spec_tool(73);
    assert forall|k: int| 0 <= k < t.recipe.len() implies step_shape(#[trigger] t.recipe[k]) by {
        if k == 0 {
            reveal_strlit("iam");
        } else if k == 1 {
            reveal_strlit("access-group-user-add");
        } else if k == 2 {
        } else if k == 3 {
            reveal_strlit("--users");
        } else {
        }
    }
}

pub(crate) proof fn lemma_placed_73()
    ensures
        required_placed(spec_tool(73)),
        booleans_read_once(spec_tool(73)),
        params_read_once(spec_tool(73)),
{
    let t = spec_tool(73);
    assert forall|j: int| 0 <= j < t.params.len() && (#[trigger] t.params[j]).required implies always_placed(t, t.params[j]) by {
        if j == 0 {
            assert(step_always_places(t.recipe[2], t.params[0]));
        } else {
            assert(step_always_places(t.recipe[4], t.params[1]));
        }
    }
    lemma_param_names_73();
    assert forall|k: int| 0 <= k < t.recipe.len() && k != 2 implies !reads_key(#[trigger] t.recipe[k], t.params[0].name@) by {
        if k == 0 {
        } else if k == 1 {
        } else if k == 3 {
        } else {
            assert(reads_key(t.recipe[4], t.params[1].name@));
        }
    }
    assert(read_once(t, t.params[0].name@));
    assert forall|k: int| 0 <= k < t.recipe.len() && k != 4 implies !reads_key(#[trigger] t.recipe[k], t.params[1].name@) by {
        if k == 0 {
        } else if k == 1 {
        } else if k == 2 {
            assert(reads_key(t.recipe[2], t.params[0].name@));
        } else {
        }
    }
    assert(read_once(t, t.params[1].name@));
}

pub(crate) proof fn lemma_steps_74()
    ensures
        steps_shaped(spec_tool(74)),
{
    let t = spec_tool(74);
    assert forall|k: int| 0 <= k < t.recipe.len() implies step_shape(#[trigger] t.recipe[k]) by {
        if k == 0 {
            reveal_strlit("iam");
        } else if k == 1 {
            reveal_strlit("access-group-policies");
        } else {
        }
    }
}

pub(crate) proof fn lemma_placed_74()
    ensures
        required_placed(spec_tool(74)),
        booleans_read_once(spec_tool(74)),
        params_read_once(spec_tool(74)),
{
    let t = spec_tool(74);
    assert forall|j: int| 0 <= j < t.params.len() && (#[trigger] t.params[j]).required implies always_placed(t, t.params[j]) by {
        assert(step_always_places(t.recipe[2], t.params[0]));
    }
    assert forall|k: int| 0 <= k < t.recipe.len() && k != 2 implies !reads_key(#[trigger] t.recipe[k], t.params[0].name@) by {
        if k == 0 {
        } else {
        }
    }
    assert(read_once(t, t.params[0].name@));
}

pub(crate) proof fn lemma_steps_75()
    ensures
        steps_shaped(spec_tool(75)),
{
    let t = spec_tool(75);
    assert forall|k: int| 0 <= k < t.recipe.len() implies step_shape(#[trigger] t.recipe[k]) by {
        if k == 0 {
            reveal_strlit("iam");
        } else if k == 1 {
            reveal_strlit("access-group-policy-create");
        } else if k == 2 {
        } else if k == 3 {
            reveal_strlit("--roles");
        } else if k == 4 {
        } else if k == 5 {
            reveal_strlit("--service-name");
        } else if k == 6 {
            reveal_strlit("--resource-group-name");
        } else if k == 7 {
            reveal_strlit("--resource-type");
        } else {
            reveal_strlit("--resource");
        }
    }
}

pub(crate) proof fn lemma_placed_75()
    ensures
        required_placed(spec_tool(75)),
        booleans_read_once(spec_tool(75)),
        params_read_once(spec_tool(75)),
{
    let t = spec_tool(75);
    assert forall|j: int| 0 <= j < t.params.len() && (#[trigger] t.params[j]).required implies always_placed(t, t.params[j]) by {
        if j == 0 {
            assert(step_always_places(t.recipe[2], t.params[0]));
        } else if j == 1 {
            assert(step_always_places(t.recipe[4], t.params[1]));
        } else if j == 2 {
        } else if j == 3 {
        } else if j == 4 {
        } else {
        }
    }
    lemma_param_names_75();
    assert forall|k: int| 0 <= k < t.recipe.len() && k != 2 implies !reads_key(#[trigger] t.recipe[k], t.params[0].name@) by {
        if k == 0 {
        } else if k == 1 {
        } else if k == 3 {
        } else if k == 4 {
            assert(reads_key(t.recipe[4], t.params[1].name@));
        } else if k == 5 {
            assert(reads_key(t.recipe[5], t.params[2].name@));
        } else if k == 6 {
            assert(reads_key(t.recipe[6], t.params[3].name@));
        } else if k == 7 {
            assert(reads_key(t.recipe[7], t.params[4].name@));
        } else {
            assert(reads_key(t.recipe[8], t.params[5].name@));
        }
    }
    assert(read_once(t, t.params[0].name@));
    assert forall|k: int| 0 <= k < t.recipe.len() && k != 4 implies !reads_key(#[trigger] t.recipe[k], t.params[1].name@) by {
        if k == 0 {
        } else if k == 1 {
        } else if k == 2 {
            assert(reads_key(t.recipe[2], t.params[0].name@));
        } else if k == 3 {
        } else if k == 5 {
            assert(reads_key(t.recipe[5], t.params[2].name@));
        } else if k == 6 {
            assert(reads_key(t.recipe[6], t.params[3].name@));
        } else if k == 7 {
            assert(reads_key(t.recipe[7], t.params[4].name@));
        } else {
            assert(reads_key(t.recipe[8], t.params[5].name@));
        }
    }
    assert(read_once(t, t.params[1].name@));
    assert forall|k: int| 0 <= k < t.recipe.len() && k != 5 implies !reads_key(#[trigger] t.recipe[k], t.params[2].name@) by {
        if k == 0 {
        } else if k == 1 {
        } else if k == 2 {
            assert(reads_key(t.recipe[2], t.params[0].name@));
        } else if k == 3 {
        } else if k == 4 {
            assert(reads_key(t.recipe[4], t.params[1].name@));
        } else if k == 6 {
            assert(reads_key(t.recipe[6], t.params[3].name@));
        } else if k == 7 {
            assert(reads_key(t.recipe[7], t.params[4].name@));
        } else {
            assert(reads_key(t.recipe[8], t.params[5].name@));
        }
    }
    assert(read_once(t, t.params[2].name@));
    assert forall|k: int| 0 <= k < t.recipe.len() && k != 6 implies !reads_key(#[trigger] t.recipe[k], t.params[3].name@) by {
        if k == 0 {
        } else if k == 1 {
        } else if k == 2 {
            assert(reads_key(t.recipe[2], t.params[0].name@));
        } else if k == 3 {
        } else if k == 4 {
            assert(reads_key(t.recipe[4], t.params[1].name@));
        } else if k == 5 {
            assert(reads_key(t.recipe[5], t.params[2].name@));
        } else if k == 7 {
            assert(reads_key(t.recipe[7], t.params[4].name@));
        } else {
            assert(reads_key(t.recipe[8], t.params[5].name@));
        }
    }
    assert(read_once(t, t.params[3].name@));
    assert forall|k: int| 0 <= k < t.recipe.len() && k != 7 implies !reads_key(#[trigger] t.recipe[k], t.params[4].name@) by {
        if k == 0 {
        } else if k == 1 {
        } else if k == 2 {
            assert(reads_key(t.recipe[2], t.params[0].name@));
        } else if k == 3 {
        } else if k == 4 {
            assert(reads_key(t.recipe[4], t.params[1].name@));
        } else if k == 5 {
            assert(reads_key(t.recipe[5], t.params[2].name@));
        } else if k == 6 {
            assert(reads_key(t.recipe[6], t.params[3].name@));
        } else {
            assert(reads_key(t.recipe[8], t.params[5].name@));
        }
    }
    assert(read_once(t, t.params[4].name@));
    assert forall|k: int| 0 <= k < t.recipe.len() && k != 8 implies !reads_key(#[trigger] t.recipe[k], t.params[5].name@) by {
        if k == 0 {
        } else if k == 1 {
        } else if k == 2 {
            assert(reads_key(t.recipe[2], t.params[0].name@));
        } else if k == 3 {
        } else if k == 4 {
            assert(reads_key(t.recipe[4], t.params[1].name@));
        } else if k == 5 {
            assert(reads_key(t.recipe[5], t.params[2].name@));
        } else if k == 6 {
            assert(reads_key(t.recipe[6], t.params[3].name@));
        } else {
            assert(reads_key(t.recipe[7], t.params[4].name@));
        }
    }
    assert(read_once(t, t.params[5].name@));
}

pub(crate) proof fn lemma_steps_76()
    ensures
        steps_shaped(spec_tool(76)),
{
    let t = spec_tool(76);
    assert forall|k: int| 0 <= k < t.recipe.len() implies step_shape(#[trigger] t.recipe[k]) by {
        if k == 0 {
            reveal_strlit("iam");
        } else if k == 1 {
            reveal_strlit("roles");
        } else {
            reveal_strlit("--service");
        }
    }
}

pub(crate) proof fn lemma_placed_76()
    ensures
        required_placed(spec_tool(76)),
        booleans_read_once(spec_tool(76)),
        params_read_once(spec_tool(76)),
{
    let t = spec_tool(76);
    assert forall|k: int| 0 <= k < t.recipe.len() && k != 2 implies !reads_key(#[trigger] t.recipe[k], t.params[0].name@) by {
        if k == 0 {
        } else {
        }
    }
    assert(read_once(t, t.params[0].name@));
}

pub(crate) proof fn lemma_steps_77()
    ensures
        steps_shaped(spec_tool(77)),
{
    let t = spec_tool(77);
    assert forall|k: int| 0 <= k < t.recipe.len() implies step_shape(#[trigger] t.recipe[k]) by {
        if k == 0 {
            reveal_strlit("catalog");
        } else if k == 1 {
            reveal_strlit("search");
        } else {
        }
    }
}

pub(crate) proof fn lemma_placed_77()
    ensures
        required_placed(spec_tool(77)),
        booleans_read_once(spec_tool(77)),
        params_read_once(spec_tool(77)),
{
    let t = spec_tool(77);
    assert forall|j: int| 0 <= j < t.params.len() && (#[trigger] t.params[j]).required implies always_placed(t, t.params[j]) by {
        assert(step_always_places(t.recipe[2], t.params[0]));
    }
    assert forall|k: int| 0 <= k < t.recipe.len() && k != 2 implies !reads_key(#[trigger] t.recipe[k], t.params[0].name@) by {
        if k == 0 {
        } else {
        }
    }
    assert(read_once(t, t.params[0].name@));
}

pub(crate) proof fn lemma_steps_78()
    ensures
        steps_shaped(spec_tool(78)),
{
    let t = spec_tool(78);
    assert forall|k: int| 0 <= k < t.recipe.len() implies step_shape(#[trigger] t.recipe[k]) by {
        if k == 0 {
            reveal_strlit("catalog");
        } else if k == 1 {
            reveal_strlit("service");
        } else {
        }
    }
}

pub(crate) proof fn lemma_placed_78()
    ensures
        required_placed(spec_tool(78)),
        booleans_read_once(spec_tool(78)),
        params_read_once(spec_tool(78)),
{
    let t = spec_tool(78);
    assert forall|j: int| 0 <= j < t.params.len() && (#[trigger] t.params[j]).required implies always_placed(t, t.params[j]) by {
        assert(step_always_places(t.recipe[2], t.params[0]));
    }
    assert forall|k: int| 0 <= k < t.recipe.len() && k != 2 implies !reads_key(#[trigger] t.recipe[k], t.params[0].name@) by {
        if k == 0 {
        } else {
        }
    }
    assert(read_once(t, t.params[0].name@));
}

pub(crate) proof fn lemma_steps_79()
    ensures
        steps_shaped(spec_tool(79)),
{
    let t = spec_tool(79);
    assert forall|k: int| 0 <= k < t.recipe.len() implies step_shape(#[trigger] t.recipe[k]) by {
        if k == 0 {
            reveal_strlit("catalog");
        } else if k == 1 {
            reveal_strlit("service");
        } else {
        }
    }
}

pub(crate) proof fn lemma_placed_79()
    ensures
        required_placed(spec_tool(79)),
        booleans_read_once(spec_tool(79)),
        params_read_once(spec_tool(79)),
{
    let t = spec_tool(79);
    assert forall|j: int| 0 <= j < t.params.len() && (#[trigger] t.params[j]).required implies always_placed(t, t.params[j]) by {
        assert(step_always_places(t.recipe[2], t.params[0]));
    }
    assert forall|k: int| 0 <= k < t.recipe.len() && k != 2 implies !reads_key(#[trigger] t.recipe[k], t.params[0].name@) by {
        if k == 0 {
        } else {
        }
    }
    assert(read_once(t, t.params[0].name@));
}

pub(crate) proof fn lemma_steps_80()
    ensures
        steps_shaped(spec_tool(80)),
{
    let t = spec_tool(80);
    assert forall|k: int| 0 <= k < t.recipe.len() implies step_shape(#[trigger] t.recipe[k]) by {
        if k == 0 {
            reveal_strlit("billing");
        } else if k == 1 {
            reveal_strlit("account-usage");
        } else {
            reveal_strlit("-d");
        }
    }
}

pub(crate) proof fn lemma_placed_80()
    ensures
        required_placed(spec_tool(80)),
        booleans_read_once(spec_tool(80)),
        params_read_once(spec_tool(80)),
{
    let t = spec_tool(80);
    assert forall|k: int| 0 <= k < t.recipe.len() && k != 2 implies !reads_key(#[trigger] t.recipe[k], t.params[0].name@) by {
        if k == 0 {
        } else {
        }
    }
    assert(read_once(t, t.params[0].name@));
}

pub(crate) proof fn lemma_steps_81()
    ensures
        steps_shaped(spec_tool(81)),
{
    let t = spec_tool(81);
    assert forall|k: int| 0 <= k < t.recipe.len() implies step_shape(#[trigger] t.recipe[k]) by {
        if k == 0 {
            reveal_strlit("billing");
        } else if k == 1 {
            reveal_strlit("resource-group-usage");
        } else if k == 2 {
        } else {
            reveal_strlit("-d");
        }
    }
}

pub(crate) proof fn lemma_placed_81()
    ensures
        required_placed(spec_tool(81)),
        booleans_read_once(spec_tool(81)),
        params_read_once(spec_tool(81)),
{
    let t = spec_tool(81);
    assert forall|j: int| 0 <= j < t.params.len() && (#[trigger] t.params[j]).required implies always_placed(t, t.params[j]) by {
        if j == 0 {
            assert(step_always_places(t.recipe[2], t.params[0]));
        } else {
        }
    }
    lemma_param_names_81();
    assert forall|k: int| 0 <= k < t.recipe.len() && k != 2 implies !reads_key(#[trigger] t.recipe[k], t.params[0].name@) by {
        if k == 0 {
        } else if k == 1 {
        } else {
            assert(reads_key(t.recipe[3], t.params[1].name@));
        }
    }
    assert(read_once(t, t.params[0].name@));
    assert forall|k: int| 0 <= k < t.recipe.len() && k != 3 implies !reads_key(#[trigger] t.recipe[k], t.params[1].name@) by {
        if k == 0 {
        } else if k == 1 {
        } else {
            assert(reads_key(t.recipe[2], t.params[0].name@));
        }
    }
    assert(read_once(t, t.params[1].name@));
}

pub(crate) proof fn lemma_steps_82()
    ensures
        steps_shaped(spec_tool(82)),
{
    let t = spec_tool(82);
    assert forall|k: int| 0 <= k < t.recipe.len() implies step_shape(#[trigger] t.recipe[k]) by {
        if k == 0 {
            reveal_strlit("billing");
        } else if k == 1 {
            reveal_strlit("resource-instances-usage");
        } else if k == 2 {
            reveal_strlit("-d");
        } else {
            reveal_strlit("-g");
        }
    }
}

pub(crate) proof fn lemma_placed_82()
    ensures
        required_placed(spec_tool(82)),
        booleans_read_once(spec_tool(82)),
        params_read_once(spec_tool(82)),
{
    let t = spec_tool(82);
    lemma_param_names_82();
    assert forall|k: int| 0 <= k < t.recipe.len() && k != 2 implies !reads_key(#[trigger] t.recipe[k], t.params[0].name@) by {
        if k == 0 {
        } else if k == 1 {
        } else {
            assert(reads_key(t.recipe[3], t.params[1].name@));
        }
    }
    assert(read_once(t, t.params[0].name@));
    assert forall|k: int| 0 <= k < t.recipe.len() && k != 3 implies !reads_key(#[trigger] t.recipe[k], t.params[1].name@) by {
        if k == 0 {
        } else if k == 1 {
        } else {
            assert(reads_key(t.recipe[2], t.params[0].name@));
        }
    }
    assert(read_once(t, t.params[1].name@));
}

pub(crate) proof fn lemma_steps_83()
    ensures
        steps_shaped(spec_tool(83)),
{
    let t = spec_tool(83);
    assert forall|k: int| 0 <= k < t.recipe.len() implies step_shape(#[trigger] t.recipe[k]) by {
        if k == 0 {
            reveal_strlit("billing");
        } else if k == 1 {
            reveal_strlit("org-usage");
        } else if k == 2 {
        } else {
            reveal_strlit("-d");
        }
    }
}

pub(crate) proof fn lemma_placed_83()
    ensures
        required_placed(spec_tool(83)),
        booleans_read_once(spec_tool(83)),
        params_read_once(spec_tool(83)),
{
    let t = spec_tool(83);
    assert forall|j: int| 0 <= j < t.params.len() && (#[trigger] t.params[j]).required implies always_placed(t, t.params[j]) by {
        if j == 0 {
            assert(step_always_places(t.recipe[2], t.params[0]));
        } else {
        }
    }
    lemma_param_names_83();
    assert forall|k: int| 0 <= k < t.recipe.len() && k != 2 implies !reads_key(#[trigger] t.recipe[k], t.params[0].name@) by {
        if k == 0 {
        } else if k == 1 {
        } else {
            assert(reads_key(t.recipe[3], t.params[1].name@));
        }
    }
    assert(read_once(t, t.params[0].name@));
    assert forall|k: int| 0 <= k < t.recipe.len() && k != 3 implies !reads_key(#[trigger] t.recipe[k], t.params[1].name@) by {
        if k == 0 {
        } else if k == 1 {
        } else {
            assert(reads_key(t.recipe[2], t.params[0].name@));
        }
    }
    assert(read_once(t, t.params[1].name@));
}

pub(crate) proof fn lemma_steps_84()
    ensures
        steps_shaped(spec_tool(84)),
{
    let t = spec_tool(84);
    assert forall|k: int| 0 <= k < t.recipe.len() implies step_shape(#[trigger] t.recipe[k]) by {
        if k == 0 {
            reveal_strlit("plugin");
        } else {
            reveal_strlit("list");
        }
    }
}

pub(crate) proof fn lemma_placed_84()
    ensures
        required_placed(spec_tool(84)),
        booleans_read_once(spec_tool(84)),
        params_read_once(spec_tool(84)),
{
    let t = spec_tool(84);
}

pub(crate) proof fn lemma_steps_85()
    ensures
        steps_shaped(spec_tool(85)),
{
    let t = spec_tool(85);
    assert forall|k: int| 0 <= k < t.recipe.len() implies step_shape(#[trigger] t.recipe[k]) by {
        if k == 0 {
            reveal_strlit("plugin");
        } else {
            reveal_strlit("repo-plugins");
        }
    }
}

pub(crate) proof fn lemma_placed_85()
    ensures
        required_placed(spec_tool(85)),
        booleans_read_once(spec_tool(85)),
        params_read_once(spec_tool(85)),
{
    let t = spec_tool(85);
}

pub(crate) proof fn lemma_steps_86()
    ensures
        steps_shaped(spec_tool(86)),
{
    let t = spec_tool(86);
    assert forall|k: int| 0 <= k < t.recipe.len() implies step_shape(#[trigger] t.recipe[k]) by {
        if k == 0 {
            reveal_strlit("plugin");
        } else if k == 1 {
            reveal_strlit("install");
        } else if k == 2 {
        } else {
            reveal_strlit("-f");
            reveal_strlit("force");
            reveal_strlit("stream");
            assert("force"@.len() != "stream"@.len());
        }
    }
}

pub(crate) proof fn lemma_placed_86()
    ensures
        required_placed(spec_tool(86)),
        booleans_read_once(spec_tool(86)),
        params_read_once(spec_tool(86)),
{
    let t = spec_tool(86);
    lemma_param_names_86();
    assert forall|j: int| 0 <= j < t.params.len() && (#[trigger] t.params[j]).required implies always_placed(t, t.params[j]) by {
        if j == 0 {
            assert(step_always_places(t.recipe[2], t.params[0]));
        } else {
        }
    }
    assert forall|k: int| 0 <= k < t.recipe.len() && k != 2 implies !reads_key(#[trigger] t.recipe[k], t.params[0].name@) by {
        if k == 0 {
        } else if k == 1 {
        } else {
            assert(reads_key(t.recipe[3], t.params[1].name@));
        }
    }
    assert(read_once(t, t.params[0].name@));
    assert forall|k: int| 0 <= k < t.recipe.len() && k != 3 implies !reads_key(#[trigger] t.recipe[k], t.params[1].name@) by {
        if k == 0 {
        } else if k == 1 {
        } else {
            assert(reads_key(t.recipe[2], t.params[0].name@));
        }
    }
    assert(read_once(t, t.params[1].name@));
}

pub(crate) proof fn lemma_steps_87()
    ensures
        steps_shaped(spec_tool(87)),
{
    let t = spec_tool(87);
    assert forall|k: int| 0 <= k < t.recipe.len() implies step_shape(#[trigger] t.recipe[k]) by {
        reveal_strlit("version");
    }
}

pub(crate) proof fn lemma_placed_87()
    ensures
        required_placed(spec_tool(87)),
        booleans_read_once(spec_tool(87)),
        params_read_once(spec_tool(87)),
{
    let t = spec_tool(87);
}

/// The catalog position of the tool whose name comes `r`-th in the order of code points.
pub open spec fn sorted_position(r: int) -> int {
    if r == 0 {
        6
    } else if r == 1 {
        5
    } else if r == 2 {
        3
    } else if r == 3 {
        80
    } else if r == 4 {
        83
    } else if r == 5 {
        81
    } else if r == 6 {
        82
    } else if r == 7 {
        77
    } else if r == 8 {
        78
    } else if r == 9 {
        79
    } else if r == 10 {
        25
    } else if r == 11 {
        24
    } else if r == 12 {
        39
    } else if r == 13 {
        38
    } else if r == 14 {
        30
    } else if r == 15 {
        32
    } else if r == 16 {
        31
    } else if r == 17 {
        37
    } else if r == 18 {
        22
    } else if r == 19 {
        26
    } else if r == 20 {
        29
    } else if r == 21 {
        35
    } else if r == 22 {
        34
    } else if r == 23 {
        36
    } else if r == 24 {
        33
    } else if r == 25 {
        23
    } else if r == 26 {
        27
    } else if r == 27 {
        28
    } else if r == 28 {
        40
    } else if r == 29 {
        7
    } else if r == 30 {
        56
    } else if r == 31 {
        55
    } else if r == 32 {
        54
    } else if r == 33 {
        53
    } else if r == 34 {
        57
    } else if r == 35 {
        70
    } else if r == 36 {
        71
    } else if r == 37 {
        74
    } else if r == 38 {
        75
    } else if r == 39 {
        73
    } else if r == 40 {
        72
    } else if r == 41 {
        69
    } else if r == 42 {
        61
    } else if r == 43 {
        62
    } else if r == 44 {
        60
    } else if r == 45 {
        76
    } else if r == 46 {
        68
    } else if r == 47 {
        67
    } else if r == 48 {
        64
    } else if r == 49 {
        65
    } else if r == 50 {
        66
    } else if r == 51 {
        63
    } else if r == 52 {
        59
    } else if r == 53 {
        58
    } else if r == 54 {
        42
    } else if r == 55 {
        43
    } else if r == 56 {
        44
    } else if r == 57 {
        45
    } else if r == 58 {
        41
    } else if r == 59 {
        52
    } else if r == 60 {
        51
    } else if r == 61 {
        48
    } else if r == 62 {
        49
    } else if r == 63 {
        47
    } else if r == 64 {
        46
    } else if r == 65 {
        50
    } else if r == 66 {
        0
    } else if r == 67 {
        1
    } else if r == 68 {
        86
    } else if r == 69 {
        84
    } else if r == 70 {
        85
    } else if r == 71 {
        4
    } else if r == 72 {
        9
    } else if r == 73 {
        8
    } else if r == 74 {
        19
    } else if r == 75 {
        11
    } else if r == 76 {
        12
    } else if r == 77 {
        13
    } else if r == 78 {
        14
    } else if r == 79 {
        10
    } else if r == 80 {
        16
    } else if r == 81 {
        17
    } else if r == 82 {
        18
    } else if r == 83 {
        15
    } else if r == 84 {
        21
    } else if r == 85 {
        20
    } else if r == 86 {
        2
    } else {
        87
    }
}

/// Where the name of the tool at catalog position `i` comes in the order of code points.
pub open spec fn name_rank(i: int) -> int {
    if i == 0 {
        66
    } else if i == 1 {
        67
    } else if i == 2 {
        86
    } else if i == 3 {
        2
    } else if i == 4 {
        71
    } else if i == 5 {
        1
    } else if i == 6 {
        0
    } else if i == 7 {
        29
    } else if i == 8 {
        73
    } else if i == 9 {
        72
    } else if i == 10 {
        79
    } else if i == 11 {
        75
    } else if i == 12 {
        76
    } else if i == 13 {
        77
    } else if i == 14 {
        78
    } else if i == 15 {
        83
    } else if i == 16 {
        80
    } else if i == 17 {
        81
    } else if i == 18 {
        82
    } else if i == 19 {
        74
    } else if i == 20 {
        85
    } else if i == 21 {
        84
    } else if i == 22 {
        18
    } else if i == 23 {
        25
    } else if i == 24 {
        11
    } else if i == 25 {
        10
    } else if i == 26 {
        19
    } else if i == 27 {
        26
    } else if i == 28 {
        27
    } else if i == 29 {
        20
    } else if i == 30 {
        14
    } else if i == 31 {
        16
    } else if i == 32 {
        15
    } else if i == 33 {
        24
    } else if i == 34 {
        22
    } else if i == 35 {
        21
    } else if i == 36 {
        23
    } else if i == 37 {
        17
    } else if i == 38 {
        13
    } else if i == 39 {
        12
    } else if i == 40 {
        28
    } else if i == 41 {
        58
    } else if i == 42 {
        54
    } else if i == 43 {
        55
    } else if i == 44 {
        56
    } else if i == 45 {
        57
    } else if i == 46 {
        64
    } else if i == 47 {
        63
    } else if i == 48 {
        61
    } else if i == 49 {
        62
    } else if i == 50 {
        65
    } else if i == 51 {
        60
    } else if i == 52 {
        59
    } else if i == 53 {
        33
    } else if i == 54 {
        32
    } else if i == 55 {
        31
    } else if i == 56 {
        30
    } else if i == 57 {
        34
    } else if i == 58 {
        53
    } else if i == 59 {
        52
    } else if i == 60 {
        44
    } else if i == 61 {
        42
    } else if i == 62 {
        43
    } else if i == 63 {
        51
    } else if i == 64 {
        48
    } else if i == 65 {
        49
    } else if i == 66 {
        50
    } else if i == 67 {
        47
    } else if i == 68 {
        46
    } else if i == 69 {
        41
    } else if i == 70 {
        35
    } else if i == 71 {
        36
    } else if i == 72 {
        40
    } else if i == 73 {
        39
    } else if i == 74 {
        37
    } else if i == 75 {
        38
    } else if i == 76 {
        45
    } else if i == 77 {
        7
    } else if i == 78 {
        8
    } else if i == 79 {
        9
    } else if i == 80 {
        3
    } else if i == 81 {
        5
    } else if i == 82 {
        6
    } else if i == 83 {
        4
    } else if i == 84 {
        69
    } else if i == 85 {
        70
    } else if i == 86 {
        68
    } else {
        87
    }
}

/// Ranking the names and then looking the rank up gives back the position.
pub(crate) proof fn lemma_rank(i: int)
    requires
        0 <= i < TOOL_COUNT,
    ensures
        0 <= name_rank(i) < TOOL_COUNT,
        sorted_position(name_rank(i)) == i,
{
}

/// Consecutive names in the order of code points are strictly increasing.
pub(crate) proof fn lemma_sorted_step(r: int)
    requires
        0 <= r < TOOL_COUNT - 1,
    ensures
        0 <= sorted_position(r) < TOOL_COUNT,
        0 <= sorted_position(r + 1) < TOOL_COUNT,
        lex_lt(spec_tool(sorted_position(r)).name@, spec_tool(sorted_position(r + 1)).name@),
{
    if r == 0 {
        reveal_strlit("ibmcloud_account_list");
        reveal_strlit("ibmcloud_account_show");
        assert("ibmcloud_account_list"@.subrange(0, 17) =~= "ibmcloud_account_show"@.subrange(0, 17));
        assert(("ibmcloud_account_list"@[17] as u32) < ("ibmcloud_account_show"@[17] as u32));
        assert(lex_lt_at("ibmcloud_account_list"@, "ibmcloud_account_show"@, 17));
    } else if r == 1 {
        reveal_strlit("ibmcloud_account_show");
        reveal_strlit("ibmcloud_api");
        assert("ibmcloud_account_show"@.subrange(0, 10) =~= "ibmcloud_api"@.subrange(0, 10));
        assert(("ibmcloud_account_show"@[10] as u32) < ("ibmcloud_api"@[10] as u32));
        assert(lex_lt_at("ibmcloud_account_show"@, "ibmcloud_api"@, 10));
    } else if r == 2 {
        reveal_strlit("ibmcloud_api");
        reveal_strlit("ibmcloud_billing_account_usage");
        assert("ibmcloud_api"@.subrange(0, 9) =~= "ibmcloud_billing_account_usage"@.subrange(0, 9));
        assert(("ibmcloud_api"@[9] as u32) < ("ibmcloud_billing_account_usage"@[9] as u32));
        assert(lex_lt_at("ibmcloud_api"@, "ibmcloud_billing_account_usage"@, 9));
    } else if r == 3 {
        reveal_strlit("ibmcloud_billing_account_usage");
        reveal_strlit("ibmcloud_billing_org_usage");
        assert("ibmcloud_billing_account_usage"@.subrange(0, 17) =~= "ibmcloud_billing_org_usage"@.subrange(0, 17));
        assert(("ibmcloud_billing_account_usage"@[17] as u32) < ("ibmcloud_billing_org_usage"@[17] as u32));
        assert(lex_lt_at("ibmcloud_billing_account_usage"@, "ibmcloud_billing_org_usage"@, 17));
    } else if r == 4 {
        reveal_strlit("ibmcloud_billing_org_usage");
        reveal_strlit("ibmcloud_billing_resource_group_usage");
        assert("ibmcloud_billing_org_usage"@.subrange(0, 17) =~= "ibmcloud_billing_resource_group_usage"@.subrange(0, 17));
        assert(("ibmcloud_billing_org_usage"@[17] as u32) < ("ibmcloud_billing_resource_group_usage"@[17] as u32));
        assert(lex_lt_at("ibmcloud_billing_org_usage"@, "ibmcloud_billing_resource_group_usage"@, 17));
    } else if r == 5 {
        reveal_strlit("ibmcloud_billing_resource_group_usage");
        reveal_strlit("ibmcloud_billing_resource_instances_usage");
        assert("ibmcloud_billing_resource_group_usage"@.subrange(0, 26) =~= "ibmcloud_billing_resource_instances_usage"@.subrange(0, 26));
        assert(("ibmcloud_billing_resource_group_usage"@[26] as u32) < ("ibmcloud_billing_resource_instances_usage"@[26] as u32));
        assert(lex_lt_at("ibmcloud_billing_resource_group_usage"@, "ibmcloud_billing_resource_instances_usage"@, 26));
    } else if r == 6 {
        reveal_strlit("ibmcloud_billing_resource_instances_usage");
        reveal_strlit("ibmcloud_catalog_search");
        assert("ibmcloud_billing_resource_instances_usage"@.subrange(0, 9) =~= "ibmcloud_catalog_search"@.subrange(0, 9));
        assert(("ibmcloud_billing_resource_instances_usage"@[9] as u32) < ("ibmcloud_catalog_search"@[9] as u32));
        assert(lex_lt_at("ibmcloud_billing_resource_instances_usage"@, "ibmcloud_catalog_search"@, 9));
    } else if r == 7 {
        reveal_strlit("ibmcloud_catalog_search");
        reveal_strlit("ibmcloud_catalog_service");
        assert("ibmcloud_catalog_search"@.subrange(0, 19) =~= "ibmcloud_catalog_service"@.subrange(0, 19));
        assert(("ibmcloud_catalog_search"@[19] as u32) < ("ibmcloud_catalog_service"@[19] as u32));
        assert(lex_lt_at("ibmcloud_catalog_search"@, "ibmcloud_catalog_service"@, 19));
    } else if r == 8 {
        reveal_strlit("ibmcloud_catalog_service");
        reveal_strlit("ibmcloud_catalog_service_plans");
        assert("ibmcloud_catalog_service"@.subrange(0, 24) =~= "ibmcloud_catalog_service_plans"@.subrange(0, 24));
        assert(lex_lt_at("ibmcloud_catalog_service"@, "ibmcloud_catalog_service_plans"@, 24));
    } else if r == 9 {
        reveal_strlit("ibmcloud_catalog_service_plans");
        reveal_strlit("ibmcloud_cf_app");
        assert("ibmcloud_catalog_service_plans"@.subrange(0, 10) =~= "ibmcloud_cf_app"@.subrange(0, 10));
        assert(("ibmcloud_catalog_service_plans"@[10] as u32) < ("ibmcloud_cf_app"@[10] as u32));
        assert(lex_lt_at("ibmcloud_catalog_service_plans"@, "ibmcloud_cf_app"@, 10));
    } else if r == 10 {
        reveal_strlit("ibmcloud_cf_app");
        reveal_strlit("ibmcloud_cf_apps");
        assert("ibmcloud_cf_app"@.subrange(0, 15) =~= "ibmcloud_cf_apps"@.subrange(0, 15));
        assert(lex_lt_at("ibmcloud_cf_app"@, "ibmcloud_cf_apps"@, 15));
    } else if r == 11 {
        reveal_strlit("ibmcloud_cf_apps");
        reveal_strlit("ibmcloud_cf_bind_service");
        assert("ibmcloud_cf_apps"@.subrange(0, 12) =~= "ibmcloud_cf_bind_service"@.subrange(0, 12));
        assert(("ibmcloud_cf_apps"@[12] as u32) < ("ibmcloud_cf_bind_service"@[12] as u32));
        assert(lex_lt_at("ibmcloud_cf_apps"@, "ibmcloud_cf_bind_service"@, 12));
    } else if r == 12 {
        reveal_strlit("ibmcloud_cf_bind_service");
        reveal_strlit("ibmcloud_cf_create_service");
        assert("ibmcloud_cf_bind_service"@.subrange(0, 12) =~= "ibmcloud_cf_create_service"@.subrange(0, 12));
        assert(("ibmcloud_cf_bind_service"@[12] as u32) < ("ibmcloud_cf_create_service"@[12] as u32));
        assert(lex_lt_at("ibmcloud_cf_bind_service"@, "ibmcloud_cf_create_service"@, 12));
    } else if r == 13 {
        reveal_strlit("ibmcloud_cf_create_service");
        reveal_strlit("ibmcloud_cf_delete");
        assert("ibmcloud_cf_create_service"@.subrange(0, 12) =~= "ibmcloud_cf_delete"@.subrange(0, 12));
        assert(("ibmcloud_cf_create_service"@[12] as u32) < ("ibmcloud_cf_delete"@[12] as u32));
        assert(lex_lt_at("ibmcloud_cf_create_service"@, "ibmcloud_cf_delete"@, 12));
    } else if r == 14 {
        reveal_strlit("ibmcloud_cf_delete");
        reveal_strlit("ibmcloud_cf_env");
        assert("ibmcloud_cf_delete"@.subrange(0, 12) =~= "ibmcloud_cf_env"@.subrange(0, 12));
        assert(("ibmcloud_cf_delete"@[12] as u32) < ("ibmcloud_cf_env"@[12] as u32));
        assert(lex_lt_at("ibmcloud_cf_delete"@, "ibmcloud_cf_env"@, 12));
    } else if r == 15 {
        reveal_strlit("ibmcloud_cf_env");
        reveal_strlit("ibmcloud_cf_logs");
        assert("ibmcloud_cf_env"@.subrange(0, 12) =~= "ibmcloud_cf_logs"@.subrange(0, 12));
        assert(("ibmcloud_cf_env"@[12] as u32) < ("ibmcloud_cf_logs"@[12] as u32));
        assert(lex_lt_at("ibmcloud_cf_env"@, "ibmcloud_cf_logs"@, 12));
    } else if r == 16 {
        reveal_strlit("ibmcloud_cf_logs");
        reveal_strlit("ibmcloud_cf_marketplace");
        assert("ibmcloud_cf_logs"@.subrange(0, 12) =~= "ibmcloud_cf_marketplace"@.subrange(0, 12));
        assert(("ibmcloud_cf_logs"@[12] as u32) < ("ibmcloud_cf_marketplace"@[12] as u32));
        assert(lex_lt_at("ibmcloud_cf_logs"@, "ibmcloud_cf_marketplace"@, 12));
    } else if r == 17 {
        reveal_strlit("ibmcloud_cf_marketplace");
        reveal_strlit("ibmcloud_cf_orgs");
        assert("ibmcloud_cf_marketplace"@.subrange(0, 12) =~= "ibmcloud_cf_orgs"@.subrange(0, 12));
        assert(("ibmcloud_cf_marketplace"@[12] as u32) < ("ibmcloud_cf_orgs"@[12] as u32));
        assert(lex_lt_at("ibmcloud_cf_marketplace"@, "ibmcloud_cf_orgs"@, 12));
    } else if r == 18 {
        reveal_strlit("ibmcloud_cf_orgs");
        reveal_strlit("ibmcloud_cf_push");
        assert("ibmcloud_cf_orgs"@.subrange(0, 12) =~= "ibmcloud_cf_push"@.subrange(0, 12));
        assert(("ibmcloud_cf_orgs"@[12] as u32) < ("ibmcloud_cf_push"@[12] as u32));
        assert(lex_lt_at("ibmcloud_cf_orgs"@, "ibmcloud_cf_push"@, 12));
    } else if r == 19 {
        reveal_strlit("ibmcloud_cf_push");
        reveal_strlit("ibmcloud_cf_restart");
        assert("ibmcloud_cf_push"@.subrange(0, 12) =~= "ibmcloud_cf_restart"@.subrange(0, 12));
        assert(("ibmcloud_cf_push"@[12] as u32) < ("ibmcloud_cf_restart"@[12] as u32));
        assert(lex_lt_at("ibmcloud_cf_push"@, "ibmcloud_cf_restart"@, 12));
    } else if r == 20 {
        reveal_strlit("ibmcloud_cf_restart");
        reveal_strlit("ibmcloud_cf_routes");
        assert("ibmcloud_cf_restart"@.subrange(0, 13) =~= "ibmcloud_cf_routes"@.subrange(0, 13));
        assert(("ibmcloud_cf_restart"@[13] as u32) < ("ibmcloud_cf_routes"@[13] as u32));
        assert(lex_lt_at("ibmcloud_cf_restart"@, "ibmcloud_cf_routes"@, 13));
    } else if r == 21 {
        reveal_strlit("ibmcloud_cf_routes");
        reveal_strlit("ibmcloud_cf_scale");
        assert("ibmcloud_cf_routes"@.subrange(0, 12) =~= "ibmcloud_cf_scale"@.subrange(0, 12));
        assert(("ibmcloud_cf_routes"@[12] as u32) < ("ibmcloud_cf_scale"@[12] as u32));
        assert(lex_lt_at("ibmcloud_cf_routes"@, "ibmcloud_cf_scale"@, 12));
    } else if r == 22 {
        reveal_strlit("ibmcloud_cf_scale");
        reveal_strlit("ibmcloud_cf_services");
        assert("ibmcloud_cf_scale"@.subrange(0, 13) =~= "ibmcloud_cf_services"@.subrange(0, 13));
        assert(("ibmcloud_cf_scale"@[13] as u32) < ("ibmcloud_cf_services"@[13] as u32));
        assert(lex_lt_at("ibmcloud_cf_scale"@, "ibmcloud_cf_services"@, 13));
    } else if r == 23 {
        reveal_strlit("ibmcloud_cf_services");
        reveal_strlit("ibmcloud_cf_set_env");
        assert("ibmcloud_cf_services"@.subrange(0, 14) =~= "ibmcloud_cf_set_env"@.subrange(0, 14));
        assert(("ibmcloud_cf_services"@[14] as u32) < ("ibmcloud_cf_set_env"@[14] as u32));
        assert(lex_lt_at("ibmcloud_cf_services"@, "ibmcloud_cf_set_env"@, 14));
    } else if r == 24 {
        reveal_strlit("ibmcloud_cf_set_env");
        reveal_strlit("ibmcloud_cf_spaces");
        assert("ibmcloud_cf_set_env"@.subrange(0, 13) =~= "ibmcloud_cf_spaces"@.subrange(0, 13));
        assert(("ibmcloud_cf_set_env"@[13] as u32) < ("ibmcloud_cf_spaces"@[13] as u32));
        assert(lex_lt_at("ibmcloud_cf_set_env"@, "ibmcloud_cf_spaces"@, 13));
    } else if r == 25 {
        reveal_strlit("ibmcloud_cf_spaces");
        reveal_strlit("ibmcloud_cf_start");
        assert("ibmcloud_cf_spaces"@.subrange(0, 13) =~= "ibmcloud_cf_start"@.subrange(0, 13));
        assert(("ibmcloud_cf_spaces"@[13] as u32) < ("ibmcloud_cf_start"@[13] as u32));
        assert(lex_lt_at("ibmcloud_cf_spaces"@, "ibmcloud_cf_start"@, 13));
    } else if r == 26 {
        reveal_strlit("ibmcloud_cf_start");
        reveal_strlit("ibmcloud_cf_stop");
        assert("ibmcloud_cf_start"@.subrange(0, 14) =~= "ibmcloud_cf_stop"@.subrange(0, 14));
        assert(("ibmcloud_cf_start"@[14] as u32) < ("ibmcloud_cf_stop"@[14] as u32));
        assert(lex_lt_at("ibmcloud_cf_start"@, "ibmcloud_cf_stop"@, 14));
    } else if r == 27 {
        reveal_strlit("ibmcloud_cf_stop");
        reveal_strlit("ibmcloud_cf_unbind_service");
        assert("ibmcloud_cf_stop"@.subrange(0, 12) =~= "ibmcloud_cf_unbind_service"@.subrange(0, 12));
        assert(("ibmcloud_cf_stop"@[12] as u32) < ("ibmcloud_cf_unbind_service"@[12] as u32));
        assert(lex_lt_at("ibmcloud_cf_stop"@, "ibmcloud_cf_unbind_service"@, 12));
    } else if r == 28 {
        reveal_strlit("ibmcloud_cf_unbind_service");
        reveal_strlit("ibmcloud_config_list");
        assert("ibmcloud_cf_unbind_service"@.subrange(0, 10) =~= "ibmcloud_config_list"@.subrange(0, 10));
        assert(("ibmcloud_cf_unbind_service"@[10] as u32) < ("ibmcloud_config_list"@[10] as u32));
        assert(lex_lt_at("ibmcloud_cf_unbind_service"@, "ibmcloud_config_list"@, 10));
    } else if r == 29 {
        reveal_strlit("ibmcloud_config_list");
        reveal_strlit("ibmcloud_cr_image_rm");
        assert("ibmcloud_config_list"@.subrange(0, 10) =~= "ibmcloud_cr_image_rm"@.subrange(0, 10));
        assert(("ibmcloud_config_list"@[10] as u32) < ("ibmcloud_cr_image_rm"@[10] as u32));
        assert(lex_lt_at("ibmcloud_config_list"@, "ibmcloud_cr_image_rm"@, 10));
    } else if r == 30 {
        reveal_strlit("ibmcloud_cr_image_rm");
        reveal_strlit("ibmcloud_cr_images");
        assert("ibmcloud_cr_image_rm"@.subrange(0, 17) =~= "ibmcloud_cr_images"@.subrange(0, 17));
        assert(("ibmcloud_cr_image_rm"@[17] as u32) < ("ibmcloud_cr_images"@[17] as u32));
        assert(lex_lt_at("ibmcloud_cr_image_rm"@, "ibmcloud_cr_images"@, 17));
    } else if r == 31 {
        reveal_strlit("ibmcloud_cr_images");
        reveal_strlit("ibmcloud_cr_namespace_add");
        assert("ibmcloud_cr_images"@.subrange(0, 12) =~= "ibmcloud_cr_namespace_add"@.subrange(0, 12));
        assert(("ibmcloud_cr_images"@[12] as u32) < ("ibmcloud_cr_namespace_add"@[12] as u32));
        assert(lex_lt_at("ibmcloud_cr_images"@, "ibmcloud_cr_namespace_add"@, 12));
    } else if r == 32 {
        reveal_strlit("ibmcloud_cr_namespace_add");
        reveal_strlit("ibmcloud_cr_namespaces");
        assert("ibmcloud_cr_namespace_add"@.subrange(0, 21) =~= "ibmcloud_cr_namespaces"@.subrange(0, 21));
        assert(("ibmcloud_cr_namespace_add"@[21] as u32) < ("ibmcloud_cr_namespaces"@[21] as u32));
        assert(lex_lt_at("ibmcloud_cr_namespace_add"@, "ibmcloud_cr_namespaces"@, 21));
    } else if r == 33 {
        reveal_strlit("ibmcloud_cr_namespaces");
        reveal_strlit("ibmcloud_cr_quota");
        assert("ibmcloud_cr_namespaces"@.subrange(0, 12) =~= "ibmcloud_cr_quota"@.subrange(0, 12));
        assert(("ibmcloud_cr_namespaces"@[12] as u32) < ("ibmcloud_cr_quota"@[12] as u32));
        assert(lex_lt_at("ibmcloud_cr_namespaces"@, "ibmcloud_cr_quota"@, 12));
    } else if r == 34 {
        reveal_strlit("ibmcloud_cr_quota");
        reveal_strlit("ibmcloud_iam_access_group");
        assert("ibmcloud_cr_quota"@.subrange(0, 9) =~= "ibmcloud_iam_access_group"@.subrange(0, 9));
        assert(("ibmcloud_cr_quota"@[9] as u32) < ("ibmcloud_iam_access_group"@[9] as u32));
        assert(lex_lt_at("ibmcloud_cr_quota"@, "ibmcloud_iam_access_group"@, 9));
    } else if r == 35 {
        reveal_strlit("ibmcloud_iam_access_group");
        reveal_strlit("ibmcloud_iam_access_group_create");
        assert("ibmcloud_iam_access_group"@.subrange(0, 25) =~= "ibmcloud_iam_access_group_create"@.subrange(0, 25));
        assert(lex_lt_at("ibmcloud_iam_access_group"@, "ibmcloud_iam_access_group_create"@, 25));
    } else if r == 36 {
        reveal_strlit("ibmcloud_iam_access_group_create");
        reveal_strlit("ibmcloud_iam_access_group_policies");
        assert("ibmcloud_iam_access_group_create"@.subrange(0, 26) =~= "ibmcloud_iam_access_group_policies"@.subrange(0, 26));
        assert(("ibmcloud_iam_access_group_create"@[26] as u32) < ("ibmcloud_iam_access_group_policies"@[26] as u32));
        assert(lex_lt_at("ibmcloud_iam_access_group_create"@, "ibmcloud_iam_access_group_policies"@, 26));
    } else if r == 37 {
        reveal_strlit("ibmcloud_iam_access_group_policies");
        reveal_strlit("ibmcloud_iam_access_group_policy_create");
        assert("ibmcloud_iam_access_group_policies"@.subrange(0, 31) =~= "ibmcloud_iam_access_group_policy_create"@.subrange(0, 31));
        assert(("ibmcloud_iam_access_group_policies"@[31] as u32) < ("ibmcloud_iam_access_group_policy_create"@[31] as u32));
        assert(lex_lt_at("ibmcloud_iam_access_group_policies"@, "ibmcloud_iam_access_group_policy_create"@, 31));
    } else if r == 38 {
        reveal_strlit("ibmcloud_iam_access_group_policy_create");
        reveal_strlit("ibmcloud_iam_access_group_user_add");
        assert("ibmcloud_iam_access_group_policy_create"@.subrange(0, 26) =~= "ibmcloud_iam_access_group_user_add"@.subrange(0, 26));
        assert(("ibmcloud_iam_access_group_policy_create"@[26] as u32) < ("ibmcloud_iam_access_group_user_add"@[26] as u32));
        assert(lex_lt_at("ibmcloud_iam_access_group_policy_create"@, "ibmcloud_iam_access_group_user_add"@, 26));
    } else if r == 39 {
        reveal_strlit("ibmcloud_iam_access_group_user_add");
        reveal_strlit("ibmcloud_iam_access_group_users");
        assert("ibmcloud_iam_access_group_user_add"@.subrange(0, 30) =~= "ibmcloud_iam_access_group_users"@.subrange(0, 30));
        assert(("ibmcloud_iam_access_group_user_add"@[30] as u32) < ("ibmcloud_iam_access_group_users"@[30] as u32));
        assert(lex_lt_at("ibmcloud_iam_access_group_user_add"@, "ibmcloud_iam_access_group_users"@, 30));
    } else if r == 40 {
        reveal_strlit("ibmcloud_iam_access_group_users");
        reveal_strlit("ibmcloud_iam_access_groups");
        assert("ibmcloud_iam_access_group_users"@.subrange(0, 25) =~= "ibmcloud_iam_access_groups"@.subrange(0, 25));
        assert(("ibmcloud_iam_access_group_users"@[25] as u32) < ("ibmcloud_iam_access_groups"@[25] as u32));
        assert(lex_lt_at("ibmcloud_iam_access_group_users"@, "ibmcloud_iam_access_groups"@, 25));
    } else if r == 41 {
        reveal_strlit("ibmcloud_iam_access_groups");
        reveal_strlit("ibmcloud_iam_api_key_create");
        assert("ibmcloud_iam_access_groups"@.subrange(0, 14) =~= "ibmcloud_iam_api_key_create"@.subrange(0, 14));
        assert(("ibmcloud_iam_access_groups"@[14] as u32) < ("ibmcloud_iam_api_key_create"@[14] as u32));
        assert(lex_lt_at("ibmcloud_iam_access_groups"@, "ibmcloud_iam_api_key_create"@, 14));
    } else if r == 42 {
        reveal_strlit("ibmcloud_iam_api_key_create");
        reveal_strlit("ibmcloud_iam_api_key_delete");
        assert("ibmcloud_iam_api_key_create"@.subrange(0, 21) =~= "ibmcloud_iam_api_key_delete"@.subrange(0, 21));
        assert(("ibmcloud_iam_api_key_create"@[21] as u32) < ("ibmcloud_iam_api_key_delete"@[21] as u32));
        assert(lex_lt_at("ibmcloud_iam_api_key_create"@, "ibmcloud_iam_api_key_delete"@, 21));
    } else if r == 43 {
        reveal_strlit("ibmcloud_iam_api_key_delete");
        reveal_strlit("ibmcloud_iam_api_keys");
        assert("ibmcloud_iam_api_key_delete"@.subrange(0, 20) =~= "ibmcloud_iam_api_keys"@.subrange(0, 20));
        assert(("ibmcloud_iam_api_key_delete"@[20] as u32) < ("ibmcloud_iam_api_keys"@[20] as u32));
        assert(lex_lt_at("ibmcloud_iam_api_key_delete"@, "ibmcloud_iam_api_keys"@, 20));
    } else if r == 44 {
        reveal_strlit("ibmcloud_iam_api_keys");
        reveal_strlit("ibmcloud_iam_roles");
        assert("ibmcloud_iam_api_keys"@.subrange(0, 13) =~= "ibmcloud_iam_roles"@.subrange(0, 13));
        assert(("ibmcloud_iam_api_keys"@[13] as u32) < ("ibmcloud_iam_roles"@[13] as u32));
        assert(lex_lt_at("ibmcloud_iam_api_keys"@, "ibmcloud_iam_roles"@, 13));
    } else if r == 45 {
        reveal_strlit("ibmcloud_iam_roles");
        reveal_strlit("ibmcloud_iam_service_api_key_create");
        assert("ibmcloud_iam_roles"@.subrange(0, 13) =~= "ibmcloud_iam_service_api_key_create"@.subrange(0, 13));
        assert(("ibmcloud_iam_roles"@[13] as u32) < ("ibmcloud_iam_service_api_key_create"@[13] as u32));
        assert(lex_lt_at("ibmcloud_iam_roles"@, "ibmcloud_iam_service_api_key_create"@, 13));
    } else if r == 46 {
        reveal_strlit("ibmcloud_iam_service_api_key_create");
        reveal_strlit("ibmcloud_iam_service_api_keys");
        assert("ibmcloud_iam_service_api_key_create"@.subrange(0, 28) =~= "ibmcloud_iam_service_api_keys"@.subrange(0, 28));
        assert(("ibmcloud_iam_service_api_key_create"@[28] as u32) < ("ibmcloud_iam_service_api_keys"@[28] as u32));
        assert(lex_lt_at("ibmcloud_iam_service_api_key_create"@, "ibmcloud_iam_service_api_keys"@, 28));
    } else if r == 47 {
        reveal_strlit("ibmcloud_iam_service_api_keys");
        reveal_strlit("ibmcloud_iam_service_id");
        assert("ibmcloud_iam_service_api_keys"@.subrange(0, 21) =~= "ibmcloud_iam_service_id"@.subrange(0, 21));
        assert(("ibmcloud_iam_service_api_keys"@[21] as u32) < ("ibmcloud_iam_service_id"@[21] as u32));
        assert(lex_lt_at("ibmcloud_iam_service_api_keys"@, "ibmcloud_iam_service_id"@, 21));
    } else if r == 48 {
        reveal_strlit("ibmcloud_iam_service_id");
        reveal_strlit("ibmcloud_iam_service_id_create");
        assert("ibmcloud_iam_service_id"@.subrange(0, 23) =~= "ibmcloud_iam_service_id_create"@.subrange(0, 23));
        assert(lex_lt_at("ibmcloud_iam_service_id"@, "ibmcloud_iam_service_id_create"@, 23));
    } else if r == 49 {
        reveal_strlit("ibmcloud_iam_service_id_create");
        reveal_strlit("ibmcloud_iam_service_id_delete");
        assert("ibmcloud_iam_service_id_create"@.subrange(0, 24) =~= "ibmcloud_iam_service_id_delete"@.subrange(0, 24));
        assert(("ibmcloud_iam_service_id_create"@[24] as u32) < ("ibmcloud_iam_service_id_delete"@[24] as u32));
        assert(lex_lt_at("ibmcloud_iam_service_id_create"@, "ibmcloud_iam_service_id_delete"@, 24));
    } else if r == 50 {
        reveal_strlit("ibmcloud_iam_service_id_delete");
        reveal_strlit("ibmcloud_iam_service_ids");
        assert("ibmcloud_iam_service_id_delete"@.subrange(0, 23) =~= "ibmcloud_iam_service_ids"@.subrange(0, 23));
        assert(("ibmcloud_iam_service_id_delete"@[23] as u32) < ("ibmcloud_iam_service_ids"@[23] as u32));
        assert(lex_lt_at("ibmcloud_iam_service_id_delete"@, "ibmcloud_iam_service_ids"@, 23));
    } else if r == 51 {
        reveal_strlit("ibmcloud_iam_service_ids");
        reveal_strlit("ibmcloud_iam_user_invite");
        assert("ibmcloud_iam_service_ids"@.subrange(0, 13) =~= "ibmcloud_iam_user_invite"@.subrange(0, 13));
        assert(("ibmcloud_iam_service_ids"@[13] as u32) < ("ibmcloud_iam_user_invite"@[13] as u32));
        assert(lex_lt_at("ibmcloud_iam_service_ids"@, "ibmcloud_iam_user_invite"@, 13));
    } else if r == 52 {
        reveal_strlit("ibmcloud_iam_user_invite");
        reveal_strlit("ibmcloud_iam_users");
        assert("ibmcloud_iam_user_invite"@.subrange(0, 17) =~= "ibmcloud_iam_users"@.subrange(0, 17));
        assert(("ibmcloud_iam_user_invite"@[17] as u32) < ("ibmcloud_iam_users"@[17] as u32));
        assert(lex_lt_at("ibmcloud_iam_user_invite"@, "ibmcloud_iam_users"@, 17));
    } else if r == 53 {
        reveal_strlit("ibmcloud_iam_users");
        reveal_strlit("ibmcloud_ks_cluster");
        assert("ibmcloud_iam_users"@.subrange(0, 9) =~= "ibmcloud_ks_cluster"@.subrange(0, 9));
        assert(("ibmcloud_iam_users"@[9] as u32) < ("ibmcloud_ks_cluster"@[9] as u32));
        assert(lex_lt_at("ibmcloud_iam_users"@, "ibmcloud_ks_cluster"@, 9));
    } else if r == 54 {
        reveal_strlit("ibmcloud_ks_cluster");
        reveal_strlit("ibmcloud_ks_cluster_config");
        assert("ibmcloud_ks_cluster"@.subrange(0, 19) =~= "ibmcloud_ks_cluster_config"@.subrange(0, 19));
        assert(lex_lt_at("ibmcloud_ks_cluster"@, "ibmcloud_ks_cluster_config"@, 19));
    } else if r == 55 {
        reveal_strlit("ibmcloud_ks_cluster_config");
        reveal_strlit("ibmcloud_ks_cluster_create");
        assert("ibmcloud_ks_cluster_config"@.subrange(0, 21) =~= "ibmcloud_ks_cluster_create"@.subrange(0, 21));
        assert(("ibmcloud_ks_cluster_config"@[21] as u32) < ("ibmcloud_ks_cluster_create"@[21] as u32));
        assert(lex_lt_at("ibmcloud_ks_cluster_config"@, "ibmcloud_ks_cluster_create"@, 21));
    } else if r == 56 {
        reveal_strlit("ibmcloud_ks_cluster_create");
        reveal_strlit("ibmcloud_ks_cluster_delete");
        assert("ibmcloud_ks_cluster_create"@.subrange(0, 20) =~= "ibmcloud_ks_cluster_delete"@.subrange(0, 20));
        assert(("ibmcloud_ks_cluster_create"@[20] as u32) < ("ibmcloud_ks_cluster_delete"@[20] as u32));
        assert(lex_lt_at("ibmcloud_ks_cluster_create"@, "ibmcloud_ks_cluster_delete"@, 20));
    } else if r == 57 {
        reveal_strlit("ibmcloud_ks_cluster_delete");
        reveal_strlit("ibmcloud_ks_clusters");
        assert("ibmcloud_ks_cluster_delete"@.subrange(0, 19) =~= "ibmcloud_ks_clusters"@.subrange(0, 19));
        assert(("ibmcloud_ks_cluster_delete"@[19] as u32) < ("ibmcloud_ks_clusters"@[19] as u32));
        assert(lex_lt_at("ibmcloud_ks_cluster_delete"@, "ibmcloud_ks_clusters"@, 19));
    } else if r == 58 {
        reveal_strlit("ibmcloud_ks_clusters");
        reveal_strlit("ibmcloud_ks_flavors");
        assert("ibmcloud_ks_clusters"@.subrange(0, 12) =~= "ibmcloud_ks_flavors"@.subrange(0, 12));
        assert(("ibmcloud_ks_clusters"@[12] as u32) < ("ibmcloud_ks_flavors"@[12] as u32));
        assert(lex_lt_at("ibmcloud_ks_clusters"@, "ibmcloud_ks_flavors"@, 12));
    } else if r == 59 {
        reveal_strlit("ibmcloud_ks_flavors");
        reveal_strlit("ibmcloud_ks_versions");
        assert("ibmcloud_ks_flavors"@.subrange(0, 12) =~= "ibmcloud_ks_versions"@.subrange(0, 12));
        assert(("ibmcloud_ks_flavors"@[12] as u32) < ("ibmcloud_ks_versions"@[12] as u32));
        assert(lex_lt_at("ibmcloud_ks_flavors"@, "ibmcloud_ks_versions"@, 12));
    } else if r == 60 {
        reveal_strlit("ibmcloud_ks_versions");
        reveal_strlit("ibmcloud_ks_worker_pool_create");
        assert("ibmcloud_ks_versions"@.subrange(0, 12) =~= "ibmcloud_ks_worker_pool_create"@.subrange(0, 12));
        assert(("ibmcloud_ks_versions"@[12] as u32) < ("ibmcloud_ks_worker_pool_create"@[12] as u32));
        assert(lex_lt_at("ibmcloud_ks_versions"@, "ibmcloud_ks_worker_pool_create"@, 12));
    } else if r == 61 {
        reveal_strlit("ibmcloud_ks_worker_pool_create");
        reveal_strlit("ibmcloud_ks_worker_pool_resize");
        assert("ibmcloud_ks_worker_pool_create"@.subrange(0, 24) =~= "ibmcloud_ks_worker_pool_resize"@.subrange(0, 24));
        assert(("ibmcloud_ks_worker_pool_create"@[24] as u32) < ("ibmcloud_ks_worker_pool_resize"@[24] as u32));
        assert(lex_lt_at("ibmcloud_ks_worker_pool_create"@, "ibmcloud_ks_worker_pool_resize"@, 24));
    } else if r == 62 {
        reveal_strlit("ibmcloud_ks_worker_pool_resize");
        reveal_strlit("ibmcloud_ks_worker_pools");
        assert("ibmcloud_ks_worker_pool_resize"@.subrange(0, 23) =~= "ibmcloud_ks_worker_pools"@.subrange(0, 23));
        assert(("ibmcloud_ks_worker_pool_resize"@[23] as u32) < ("ibmcloud_ks_worker_pools"@[23] as u32));
        assert(lex_lt_at("ibmcloud_ks_worker_pool_resize"@, "ibmcloud_ks_worker_pools"@, 23));
    } else if r == 63 {
        reveal_strlit("ibmcloud_ks_worker_pools");
        reveal_strlit("ibmcloud_ks_workers");
        assert("ibmcloud_ks_worker_pools"@.subrange(0, 18) =~= "ibmcloud_ks_workers"@.subrange(0, 18));
        assert(("ibmcloud_ks_worker_pools"@[18] as u32) < ("ibmcloud_ks_workers"@[18] as u32));
        assert(lex_lt_at("ibmcloud_ks_worker_pools"@, "ibmcloud_ks_workers"@, 18));
    } else if r == 64 {
        reveal_strlit("ibmcloud_ks_workers");
        reveal_strlit("ibmcloud_ks_zones");
        assert("ibmcloud_ks_workers"@.subrange(0, 12) =~= "ibmcloud_ks_zones"@.subrange(0, 12));
        assert(("ibmcloud_ks_workers"@[12] as u32) < ("ibmcloud_ks_zones"@[12] as u32));
        assert(lex_lt_at("ibmcloud_ks_workers"@, "ibmcloud_ks_zones"@, 12));
    } else if r == 65 {
        reveal_strlit("ibmcloud_ks_zones");
        reveal_strlit("ibmcloud_login");
        assert("ibmcloud_ks_zones"@.subrange(0, 9) =~= "ibmcloud_login"@.subrange(0, 9));
        assert(("ibmcloud_ks_zones"@[9] as u32) < ("ibmcloud_login"@[9] as u32));
        assert(lex_lt_at("ibmcloud_ks_zones"@, "ibmcloud_login"@, 9));
    } else if r == 66 {
        reveal_strlit("ibmcloud_login");
        reveal_strlit("ibmcloud_logout");
        assert("ibmcloud_login"@.subrange(0, 12) =~= "ibmcloud_logout"@.subrange(0, 12));
        assert(("ibmcloud_login"@[12] as u32) < ("ibmcloud_logout"@[12] as u32));
        assert(lex_lt_at("ibmcloud_login"@, "ibmcloud_logout"@, 12));
    } else if r == 67 {
        reveal_strlit("ibmcloud_logout");
        reveal_strlit("ibmcloud_plugin_install");
        assert("ibmcloud_logout"@.subrange(0, 9) =~= "ibmcloud_plugin_install"@.subrange(0, 9));
        assert(("ibmcloud_logout"@[9] as u32) < ("ibmcloud_plugin_install"@[9] as u32));
        assert(lex_lt_at("ibmcloud_logout"@, "ibmcloud_plugin_install"@, 9));
    } else if r == 68 {
        reveal_strlit("ibmcloud_plugin_install");
        reveal_strlit("ibmcloud_plugin_list");
        assert("ibmcloud_plugin_install"@.subrange(0, 16) =~= "ibmcloud_plugin_list"@.subrange(0, 16));
        assert(("ibmcloud_plugin_install"@[16] as u32) < ("ibmcloud_plugin_list"@[16] as u32));
        assert(lex_lt_at("ibmcloud_plugin_install"@, "ibmcloud_plugin_list"@, 16));
    } else if r == 69 {
        reveal_strlit("ibmcloud_plugin_list");
        reveal_strlit("ibmcloud_plugin_repo_plugins");
        assert("ibmcloud_plugin_list"@.subrange(0, 16) =~= "ibmcloud_plugin_repo_plugins"@.subrange(0, 16));
        assert(("ibmcloud_plugin_list"@[16] as u32) < ("ibmcloud_plugin_repo_plugins"@[16] as u32));
        assert(lex_lt_at("ibmcloud_plugin_list"@, "ibmcloud_plugin_repo_plugins"@, 16));
    } else if r == 70 {
        reveal_strlit("ibmcloud_plugin_repo_plugins");
        reveal_strlit("ibmcloud_regions");
        assert("ibmcloud_plugin_repo_plugins"@.subrange(0, 9) =~= "ibmcloud_regions"@.subrange(0, 9));
        assert(("ibmcloud_plugin_repo_plugins"@[9] as u32) < ("ibmcloud_regions"@[9] as u32));
        assert(lex_lt_at("ibmcloud_plugin_repo_plugins"@, "ibmcloud_regions"@, 9));
    } else if r == 71 {
        reveal_strlit("ibmcloud_regions");
        reveal_strlit("ibmcloud_resource_group_create");
        assert("ibmcloud_regions"@.subrange(0, 11) =~= "ibmcloud_resource_group_create"@.subrange(0, 11));
        assert(("ibmcloud_regions"@[11] as u32) < ("ibmcloud_resource_group_create"@[11] as u32));
        assert(lex_lt_at("ibmcloud_regions"@, "ibmcloud_resource_group_create"@, 11));
    } else if r == 72 {
        reveal_strlit("ibmcloud_resource_group_create");
        reveal_strlit("ibmcloud_resource_groups");
        assert("ibmcloud_resource_group_create"@.subrange(0, 23) =~= "ibmcloud_resource_groups"@.subrange(0, 23));
        assert(("ibmcloud_resource_group_create"@[23] as u32) < ("ibmcloud_resource_groups"@[23] as u32));
        assert(lex_lt_at("ibmcloud_resource_group_create"@, "ibmcloud_resource_groups"@, 23));
    } else if r == 73 {
        reveal_strlit("ibmcloud_resource_groups");
        reveal_strlit("ibmcloud_resource_search");
        assert("ibmcloud_resource_groups"@.subrange(0, 18) =~= "ibmcloud_resource_search"@.subrange(0, 18));
        assert(("ibmcloud_resource_groups"@[18] as u32) < ("ibmcloud_resource_search"@[18] as u32));
        assert(lex_lt_at("ibmcloud_resource_groups"@, "ibmcloud_resource_search"@, 18));
    } else if r == 74 {
        reveal_strlit("ibmcloud_resource_search");
        reveal_strlit("ibmcloud_resource_service_instance");
        assert("ibmcloud_resource_search"@.subrange(0, 20) =~= "ibmcloud_resource_service_instance"@.subrange(0, 20));
        assert(("ibmcloud_resource_search"@[20] as u32) < ("ibmcloud_resource_service_instance"@[20] as u32));
        assert(lex_lt_at("ibmcloud_resource_search"@, "ibmcloud_resource_service_instance"@, 20));
    } else if r == 75 {
        reveal_strlit("ibmcloud_resource_service_instance");
        reveal_strlit("ibmcloud_resource_service_instance_create");
        assert("ibmcloud_resource_service_instance"@.subrange(0, 34) =~= "ibmcloud_resource_service_instance_create"@.subrange(0, 34));
        assert(lex_lt_at("ibmcloud_resource_service_instance"@, "ibmcloud_resource_service_instance_create"@, 34));
    } else if r == 76 {
        reveal_strlit("ibmcloud_resource_service_instance_create");
        reveal_strlit("ibmcloud_resource_service_instance_delete");
        assert("ibmcloud_resource_service_instance_create"@.subrange(0, 35) =~= "ibmcloud_resource_service_instance_delete"@.subrange(0, 35));
        assert(("ibmcloud_resource_service_instance_create"@[35] as u32) < ("ibmcloud_resource_service_instance_delete"@[35] as u32));
        assert(lex_lt_at("ibmcloud_resource_service_instance_create"@, "ibmcloud_resource_service_instance_delete"@, 35));
    } else if r == 77 {
        reveal_strlit("ibmcloud_resource_service_instance_delete");
        reveal_strlit("ibmcloud_resource_service_instance_update");
        assert("ibmcloud_resource_service_instance_delete"@.subrange(0, 35) =~= "ibmcloud_resource_service_instance_update"@.subrange(0, 35));
        assert(("ibmcloud_resource_service_instance_delete"@[35] as u32) < ("ibmcloud_resource_service_instance_update"@[35] as u32));
        assert(lex_lt_at("ibmcloud_resource_service_instance_delete"@, "ibmcloud_resource_service_instance_update"@, 35));
    } else if r == 78 {
        reveal_strlit("ibmcloud_resource_service_instance_update");
        reveal_strlit("ibmcloud_resource_service_instances");
        assert("ibmcloud_resource_service_instance_update"@.subrange(0, 34) =~= "ibmcloud_resource_service_instances"@.subrange(0, 34));
        assert(("ibmcloud_resource_service_instance_update"@[34] as u32) < ("ibmcloud_resource_service_instances"@[34] as u32));
        assert(lex_lt_at("ibmcloud_resource_service_instance_update"@, "ibmcloud_resource_service_instances"@, 34));
    } else if r == 79 {
        reveal_strlit("ibmcloud_resource_service_instances");
        reveal_strlit("ibmcloud_resource_service_key");
        assert("ibmcloud_resource_service_instances"@.subrange(0, 26) =~= "ibmcloud_resource_service_key"@.subrange(0, 26));
        assert(("ibmcloud_resource_service_instances"@[26] as u32) < ("ibmcloud_resource_service_key"@[26] as u32));
        assert(lex_lt_at("ibmcloud_resource_service_instances"@, "ibmcloud_resource_service_key"@, 26));
    } else if r == 80 {
        reveal_strlit("ibmcloud_resource_service_key");
        reveal_strlit("ibmcloud_resource_service_key_create");
        assert("ibmcloud_resource_service_key"@.subrange(0, 29) =~= "ibmcloud_resource_service_key_create"@.subrange(0, 29));
        assert(lex_lt_at("ibmcloud_resource_service_key"@, "ibmcloud_resource_service_key_create"@, 29));
    } else if r == 81 {
        reveal_strlit("ibmcloud_resource_service_key_create");
        reveal_strlit("ibmcloud_resource_service_key_delete");
        assert("ibmcloud_resource_service_key_create"@.subrange(0, 30) =~= "ibmcloud_resource_service_key_delete"@.subrange(0, 30));
        assert(("ibmcloud_resource_service_key_create"@[30] as u32) < ("ibmcloud_resource_service_key_delete"@[30] as u32));
        assert(lex_lt_at("ibmcloud_resource_service_key_create"@, "ibmcloud_resource_service_key_delete"@, 30));
    } else if r == 82 {
        reveal_strlit("ibmcloud_resource_service_key_delete");
        reveal_strlit("ibmcloud_resource_service_keys");
        assert("ibmcloud_resource_service_key_delete"@.subrange(0, 29) =~= "ibmcloud_resource_service_keys"@.subrange(0, 29));
        assert(("ibmcloud_resource_service_key_delete"@[29] as u32) < ("ibmcloud_resource_service_keys"@[29] as u32));
        assert(lex_lt_at("ibmcloud_resource_service_key_delete"@, "ibmcloud_resource_service_keys"@, 29));
    } else if r == 83 {
        reveal_strlit("ibmcloud_resource_service_keys");
        reveal_strlit("ibmcloud_resource_tag_attach");
        assert("ibmcloud_resource_service_keys"@.subrange(0, 18) =~= "ibmcloud_resource_tag_attach"@.subrange(0, 18));
        assert(("ibmcloud_resource_service_keys"@[18] as u32) < ("ibmcloud_resource_tag_attach"@[18] as u32));
        assert(lex_lt_at("ibmcloud_resource_service_keys"@, "ibmcloud_resource_tag_attach"@, 18));
    } else if r == 84 {
        reveal_strlit("ibmcloud_resource_tag_attach");
        reveal_strlit("ibmcloud_resource_tags");
        assert("ibmcloud_resource_tag_attach"@.subrange(0, 21) =~= "ibmcloud_resource_tags"@.subrange(0, 21));
        assert(("ibmcloud_resource_tag_attach"@[21] as u32) < ("ibmcloud_resource_tags"@[21] as u32));
        assert(lex_lt_at("ibmcloud_resource_tag_attach"@, "ibmcloud_resource_tags"@, 21));
    } else if r == 85 {
        reveal_strlit("ibmcloud_resource_tags");
        reveal_strlit("ibmcloud_target");
        assert("ibmcloud_resource_tags"@.subrange(0, 9) =~= "ibmcloud_target"@.subrange(0, 9));
        assert(("ibmcloud_resource_tags"@[9] as u32) < ("ibmcloud_target"@[9] as u32));
        assert(lex_lt_at("ibmcloud_resource_tags"@, "ibmcloud_target"@, 9));
    } else {
        reveal_strlit("ibmcloud_target");
        reveal_strlit("ibmcloud_version");
        assert("ibmcloud_target"@.subrange(0, 9) =~= "ibmcloud_version"@.subrange(0, 9));
        assert(("ibmcloud_target"@[9] as u32) < ("ibmcloud_version"@[9] as u32));
        assert(lex_lt_at("ibmcloud_target"@, "ibmcloud_version"@, 9));
    }
}

} // verus!
