use iso_code::mcp::{
    method_not_found, missing_parameter, missing_tool_name, needs_response, parse_error, route_method, route_tool,
    tool_list, unknown_tool, McpRoute, McpTool,
};

#[test]
fn tools_list_has_6_tools() {
    let tools = tool_list();
    assert_eq!(tools.len(), 6);
}

#[test]
fn tools_list_has_correct_names() {
    let tools = tool_list();
    let names: Vec<&str> = tools.iter().map(|t| t.name.as_str()).collect();
    assert!(names.contains(&"worktree_list"));
    assert!(names.contains(&"worktree_status"));
    assert!(names.contains(&"conflict_check"));
    assert!(names.contains(&"worktree_create"));
    assert!(names.contains(&"worktree_delete"));
    assert!(names.contains(&"worktree_gc"));
}

#[test]
fn readonly_tools_have_correct_annotations() {
    for tool in tool_list() {
        let name = tool.name.as_str();
        match name {
            "worktree_list" | "worktree_status" | "conflict_check" => {
                assert_eq!(tool.read_only, true, "{name} readOnlyHint");
                assert_eq!(tool.destructive, false, "{name} destructiveHint");
                assert_eq!(tool.idempotent, true, "{name} idempotentHint");
            }
            "worktree_create" => {
                assert_eq!(tool.read_only, false, "{name} readOnlyHint");
                assert_eq!(tool.destructive, false, "{name} destructiveHint");
                assert_eq!(tool.idempotent, false, "{name} idempotentHint");
            }
            "worktree_delete" | "worktree_gc" => {
                assert_eq!(tool.read_only, false, "{name} readOnlyHint");
                assert_eq!(tool.destructive, true, "{name} destructiveHint");
                assert_eq!(tool.idempotent, false, "{name} idempotentHint");
            }
            _ => panic!("unexpected tool: {name}"),
        }
    }
}

#[test]
fn dispatch_unknown_method_returns_error() {
    assert_eq!(route_method("unknown/method"), McpRoute::NotFound);
    let (code, message) = method_not_found("unknown/method");
    assert_eq!(code, -32601);
    assert_eq!(message, "Method not found: unknown/method");
}

#[test]
fn dispatch_ping() {
    assert_eq!(route_method("ping"), McpRoute::Ping);
}

#[test]
fn dispatch_tools_call_unknown_tool_returns_error() {
    assert_eq!(route_method("tools/call"), McpRoute::ToolsCall);
    assert_eq!(route_tool("nonexistent_tool"), None);
    assert_eq!(unknown_tool("nonexistent_tool"), (-32000, "Unknown tool: nonexistent_tool".to_string()));
}

#[test]
fn every_advertised_tool_is_routed() {
    for tool in tool_list() {
        assert!(route_tool(&tool.name).is_some(), "{}", tool.name);
    }
    assert_eq!(route_tool("worktree_gc"), Some(McpTool::Gc));
    assert_eq!(route_tool("worktree_create"), Some(McpTool::Create));
}

#[test]
fn methods_route_by_name() {
    assert_eq!(route_method("initialize"), McpRoute::Initialize);
    assert_eq!(route_method("tools/list"), McpRoute::ToolsList);
    assert_eq!(route_method("notifications/initialized"), McpRoute::Notification);
    assert_eq!(route_method("notifications/cancelled"), McpRoute::Notification);
    assert_eq!(route_method("tools/LIST"), McpRoute::NotFound);
}

#[test]
fn error_wording_and_codes() {
    assert_eq!(missing_tool_name(), (-32602, "Missing 'name' in tools/call params".to_string()));
    assert_eq!(parse_error("eof"), (-32700, "Parse error: eof".to_string()));
    assert_eq!(missing_parameter("branch"), "'branch' parameter is required");
}

#[test]
fn notifications_without_result_get_no_response() {
    assert!(!needs_response(true, true));
    assert!(needs_response(true, false));
    assert!(needs_response(false, true));
}

#[test]
fn create_tool_requires_branch_and_path() {
    let tools = tool_list();
    let create = tools.iter().find(|t| t.name == "worktree_create").unwrap();
    assert_eq!(create.required, vec!["branch".to_string(), "path".to_string()]);
    let gc = tools.iter().find(|t| t.name == "worktree_gc").unwrap();
    let dry = gc.params.iter().find(|p| p.name == "dry_run").unwrap();
    assert_eq!(dry.default, Some(true));
    let age = gc.params.iter().find(|p| p.name == "max_age_days").unwrap();
    assert_eq!(age.kind, "integer");
}
