//! The MCP server's decisions: the tools it advertises (names,
//! descriptions, parameters and behaviour hints), how a JSON-RPC method and
//! a tool name are routed, and the error codes and texts it answers with.
use vstd::prelude::*;

use crate::text::{chars_of, push_str, string_from_chars};

verus! {

/// A parameter of a tool's input.
#[derive(Debug, Clone)]
pub struct ToolParam {
    pub name: String,
    /// JSON type: `string`, `boolean` or `integer`.
    pub kind: String,
    pub description: Option<String>,
    /// Default of a boolean parameter, where it has one.
    pub default: Option<bool>,
}

/// A tool the server advertises.
#[derive(Debug, Clone)]
pub struct ToolSpec {
    pub name: String,
    pub description: String,
    pub params: Vec<ToolParam>,
    pub required: Vec<String>,
    pub read_only: bool,
    pub destructive: bool,
    pub idempotent: bool,
}

/// The view of an optional string.
pub open spec fn opt_text(o: Option<String>) -> Option<Seq<char>> {
    match o {
        Some(s) => Some(s@),
        None => None,
    }
}

/// A parameter's name, type, description and default, as text.
pub open spec fn param_view(p: ToolParam) -> (Seq<char>, Seq<char>, Option<Seq<char>>, Option<bool>) {
    (p.name@, p.kind@, opt_text(p.description), p.default)
}

/// Whether `t` advertises the given name, description, parameters,
/// required parameters and hints.
pub open spec fn tool_is(t: ToolSpec, name: Seq<char>, description: Seq<char>,
    params: Seq<(Seq<char>, Seq<char>, Option<Seq<char>>, Option<bool>)>, required: Seq<Seq<char>>, read_only: bool,
    destructive: bool, idempotent: bool) -> bool {
    &&& t.name@ == name
    &&& t.description@ == description
    &&& t.params@.map_values(|p: ToolParam| param_view(p)) == params
    &&& t.required@.map_values(|s: String| s@) == required
    &&& t.read_only == read_only
    &&& t.destructive == destructive
    &&& t.idempotent == idempotent
}

fn param(name: &str, kind: &str, description: Option<&str>, default: Option<bool>) -> (p: ToolParam)
    ensures
        param_view(p) == (name@, kind@, match description {
            Some(d) => Some(d@),
            None => None,
        }, default),
{
    ToolParam {
        name: name.to_owned(),
        kind: kind.to_owned(),
        description: match description {
            Some(d) => Some(d.to_owned()),
            None => None,
        },
        default,
    }
}

/// The tools the server advertises, in order.
pub open spec fn advertised(v: Seq<ToolSpec>) -> bool {
    &&& v.len() == 6
    &&& tool_is(v[0], "worktree_list"@, "List all managed worktrees in the repository."@, seq![("repo_path"@, "string"@, Some("Absolute path to the repository root. Defaults to current working directory."@), None)], Seq::<Seq<char>>::empty(), true, false, true)
    &&& tool_is(v[1], "worktree_status"@, "Get status information for all worktrees (path, branch, state, disk usage)."@, seq![("repo_path"@, "string"@, None, None)], Seq::<Seq<char>>::empty(), true, false, true)
    &&& tool_is(v[2], "conflict_check"@, "Check for merge conflicts between worktrees. [Not implemented in v1.0]"@, seq![("repo_path"@, "string"@, None, None), ("branch_a"@, "string"@, None, None), ("branch_b"@, "string"@, None, None)], Seq::<Seq<char>>::empty(), true, false, true)
    &&& tool_is(v[3], "worktree_create"@, "Create a new managed worktree."@, seq![("repo_path"@, "string"@, None, None), ("branch"@, "string"@, Some("Branch name (never transformed)."@), None), ("path"@, "string"@, Some("Absolute path for the new worktree."@), None), ("base"@, "string"@, Some("Base ref (default: HEAD)."@), None), ("lock"@, "boolean"@, None, Some(false)), ("allocate_port"@, "boolean"@, None, Some(false))], seq!["branch"@, "path"@], false, false, false)
    &&& tool_is(v[4], "worktree_delete"@, "Delete a managed worktree. Runs unmerged commit check by default."@, seq![("repo_path"@, "string"@, None, None), ("path"@, "string"@, Some("Absolute path to the worktree."@), None), ("force"@, "boolean"@, None, Some(false)), ("force_dirty"@, "boolean"@, None, Some(false))], seq!["path"@], false, true, false)
    &&& tool_is(v[5], "worktree_gc"@, "Garbage collect orphaned and stale worktrees."@, seq![("repo_path"@, "string"@, None, None), ("dry_run"@, "boolean"@, None, Some(true)), ("max_age_days"@, "integer"@, None, None), ("force"@, "boolean"@, None, Some(false))], Seq::<Seq<char>>::empty(), false, true, false)
}

/// The tools the server advertises.
pub fn tool_list() -> (v: Vec<ToolSpec>)
    ensures
        advertised(v@),
{
    let mut v: Vec<ToolSpec> = Vec::new();
    let mut params: Vec<ToolParam> = Vec::new();
    params.push(param("repo_path", "string", Some("Absolute path to the repository root. Defaults to current working directory."), None));
    let mut required: Vec<String> = Vec::new();
    assert(params@.map_values(|p: ToolParam| param_view(p)) =~= seq![("repo_path"@, "string"@, Some("Absolute path to the repository root. Defaults to current working directory."@), None)]);
    assert(required@.map_values(|s: String| s@) =~= Seq::<Seq<char>>::empty());
    v.push(ToolSpec {
        name: "worktree_list".to_owned(),
        description: "List all managed worktrees in the repository.".to_owned(),
        params,
        required,
        read_only: true,
        destructive: false,
        idempotent: true,
    });
    let mut params: Vec<ToolParam> = Vec::new();
    params.push(param("repo_path", "string", None, None));
    let mut required: Vec<String> = Vec::new();
    assert(params@.map_values(|p: ToolParam| param_view(p)) =~= seq![("repo_path"@, "string"@, None, None)]);
    assert(required@.map_values(|s: String| s@) =~= Seq::<Seq<char>>::empty());
    v.push(ToolSpec {
        name: "worktree_status".to_owned(),
        description: "Get status information for all worktrees (path, branch, state, disk usage).".to_owned(),
        params,
        required,
        read_only: true,
        destructive: false,
        idempotent: true,
    });
    let mut params: Vec<ToolParam> = Vec::new();
    params.push(param("repo_path", "string", None, None));
    params.push(param("branch_a", "string", None, None));
    params.push(param("branch_b", "string", None, None));
    let mut required: Vec<String> = Vec::new();
    assert(params@.map_values(|p: ToolParam| param_view(p)) =~= seq![("repo_path"@, "string"@, None, None), ("branch_a"@, "string"@, None, None), ("branch_b"@, "string"@, None, None)]);
    assert(required@.map_values(|s: String| s@) =~= Seq::<Seq<char>>::empty());
    v.push(ToolSpec {
        name: "conflict_check".to_owned(),
        description: "Check for merge conflicts between worktrees. [Not implemented in v1.0]".to_owned(),
        params,
        required,
        read_only: true,
        destructive: false,
        idempotent: true,
    });
    let mut params: Vec<ToolParam> = Vec::new();
    params.push(param("repo_path", "string", None, None));
    params.push(param("branch", "string", Some("Branch name (never transformed)."), None));
    params.push(param("path", "string", Some("Absolute path for the new worktree."), None));
    params.push(param("base", "string", Some("Base ref (default: HEAD)."), None));
    params.push(param("lock", "boolean", None, Some(false)));
    params.push(param("allocate_port", "boolean", None, Some(false)));
    let mut required: Vec<String> = Vec::new();
    required.push("branch".to_owned());
    required.push("path".to_owned());
    assert(params@.map_values(|p: ToolParam| param_view(p)) =~= seq![("repo_path"@, "string"@, None, None), ("branch"@, "string"@, Some("Branch name (never transformed)."@), None), ("path"@, "string"@, Some("Absolute path for the new worktree."@), None), ("base"@, "string"@, Some("Base ref (default: HEAD)."@), None), ("lock"@, "boolean"@, None, Some(false)), ("allocate_port"@, "boolean"@, None, Some(false))]);
    assert(required@.map_values(|s: String| s@) =~= seq!["branch"@, "path"@]);
    v.push(ToolSpec {
        name: "worktree_create".to_owned(),
        description: "Create a new managed worktree.".to_owned(),
        params,
        required,
        read_only: false,
        destructive: false,
        idempotent: false,
    });
    let mut params: Vec<ToolParam> = Vec::new();
    params.push(param("repo_path", "string", None, None));
    params.push(param("path", "string", Some("Absolute path to the worktree."), None));
    params.push(param("force", "boolean", None, Some(false)));
    params.push(param("force_dirty", "boolean", None, Some(false)));
    let mut required: Vec<String> = Vec::new();
    required.push("path".to_owned());
    assert(params@.map_values(|p: ToolParam| param_view(p)) =~= seq![("repo_path"@, "string"@, None, None), ("path"@, "string"@, Some("Absolute path to the worktree."@), None), ("force"@, "boolean"@, None, Some(false)), ("force_dirty"@, "boolean"@, None, Some(false))]);
    assert(required@.map_values(|s: String| s@) =~= seq!["path"@]);
    v.push(ToolSpec {
        name: "worktree_delete".to_owned(),
        description: "Delete a managed worktree. Runs unmerged commit check by default.".to_owned(),
        params,
        required,
        read_only: false,
        destructive: true,
        idempotent: false,
    });
    let mut params: Vec<ToolParam> = Vec::new();
    params.push(param("repo_path", "string", None, None));
    params.push(param("dry_run", "boolean", None, Some(true)));
    params.push(param("max_age_days", "integer", None, None));
    params.push(param("force", "boolean", None, Some(false)));
    let mut required: Vec<String> = Vec::new();
    assert(params@.map_values(|p: ToolParam| param_view(p)) =~= seq![("repo_path"@, "string"@, None, None), ("dry_run"@, "boolean"@, None, Some(true)), ("max_age_days"@, "integer"@, None, None), ("force"@, "boolean"@, None, Some(false))]);
    assert(required@.map_values(|s: String| s@) =~= Seq::<Seq<char>>::empty());
    v.push(ToolSpec {
        name: "worktree_gc".to_owned(),
        description: "Garbage collect orphaned and stale worktrees.".to_owned(),
        params,
        required,
        read_only: false,
        destructive: true,
        idempotent: false,
    });
    v
}

/// What a JSON-RPC method asks of the server.
#[derive(Debug, Clone, Copy, PartialEq, Eq, Structural)]
pub enum McpRoute {
    Initialize,
    ToolsList,
    ToolsCall,
    Ping,
    /// `notifications/initialized` or `notifications/cancelled`: nothing to answer.
    Notification,
    NotFound,
}

/// The route of a method name.
pub open spec fn route_of(method: Seq<char>) -> McpRoute {
    if method == "initialize"@ {
        McpRoute::Initialize
    } else if method == "tools/list"@ {
        McpRoute::ToolsList
    } else if method == "tools/call"@ {
        McpRoute::ToolsCall
    } else if method == "ping"@ {
        McpRoute::Ping
    } else if method == "notifications/initialized"@ || method == "notifications/cancelled"@ {
        McpRoute::Notification
    } else {
        McpRoute::NotFound
    }
}

/// Route a JSON-RPC method.
pub fn route_method(method: &str) -> (r: McpRoute)
    ensures
        r == route_of(method@),
{
    if crate::text::str_is(method, "initialize") {
        McpRoute::Initialize
    } else if crate::text::str_is(method, "tools/list") {
        McpRoute::ToolsList
    } else if crate::text::str_is(method, "tools/call") {
        McpRoute::ToolsCall
    } else if crate::text::str_is(method, "ping") {
        McpRoute::Ping
    } else if crate::text::str_is(method, "notifications/initialized") || crate::text::str_is(method, "notifications/cancelled") {
        McpRoute::Notification
    } else {
        McpRoute::NotFound
    }
}

/// The tools a call can name.
#[derive(Debug, Clone, Copy, PartialEq, Eq, Structural)]
pub enum McpTool {
    List,
    Status,
    ConflictCheck,
    Create,
    Delete,
    Gc,
}

/// The tool a name calls, if it is one of the advertised ones.
pub open spec fn tool_of(name: Seq<char>) -> Option<McpTool> {
    if name == "worktree_list"@ {
        Some(McpTool::List)
    } else if name == "worktree_status"@ {
        Some(McpTool::Status)
    } else if name == "conflict_check"@ {
        Some(McpTool::ConflictCheck)
    } else if name == "worktree_create"@ {
        Some(McpTool::Create)
    } else if name == "worktree_delete"@ {
        Some(McpTool::Delete)
    } else if name == "worktree_gc"@ {
        Some(McpTool::Gc)
    } else {
        None
    }
}

/// Route a tool name.
pub fn route_tool(name: &str) -> (r: Option<McpTool>)
    ensures
        r == tool_of(name@),
{
    if crate::text::str_is(name, "worktree_list") {
        Some(McpTool::List)
    } else if crate::text::str_is(name, "worktree_status") {
        Some(McpTool::Status)
    } else if crate::text::str_is(name, "conflict_check") {
        Some(McpTool::ConflictCheck)
    } else if crate::text::str_is(name, "worktree_create") {
        Some(McpTool::Create)
    } else if crate::text::str_is(name, "worktree_delete") {
        Some(McpTool::Delete)
    } else if crate::text::str_is(name, "worktree_gc") {
        Some(McpTool::Gc)
    } else {
        None
    }
}

/// Every advertised tool is routed to, and only advertised names are.
pub proof fn lemma_advertised_tools_route(v: Seq<ToolSpec>, i: int)
    requires
        advertised(v),
        0 <= i < v.len(),
    ensures
        tool_of(v[i].name@) is Some,
{
}

/// The tools in the order the server advertises them.
pub open spec fn advertised_tools() -> Seq<McpTool> {
    seq![McpTool::List, McpTool::Status, McpTool::ConflictCheck, McpTool::Create, McpTool::Delete, McpTool::Gc]
}

/// Each advertised tool name calls the tool advertised at its place in the
/// list, so no two advertised names call the same tool and every tool is
/// called by one of them.
pub proof fn lemma_each_advertised_name_calls_its_own_tool(v: Seq<ToolSpec>)
    requires
        advertised(v),
    ensures
        forall|i: int| 0 <= i < v.len() ==> tool_of(#[trigger] v[i].name@) == Some(advertised_tools()[i]),
        forall|i: int, j: int|
            0 <= i < v.len() && 0 <= j < v.len() && i != j ==> tool_of(#[trigger] v[i].name@) != tool_of(
                #[trigger] v[j].name@,
            ),
        forall|t: McpTool| #[trigger] advertised_tools().contains(t),
{
    reveal_strlit("worktree_list");
    reveal_strlit("worktree_status");
    reveal_strlit("conflict_check");
    reveal_strlit("worktree_create");
    reveal_strlit("worktree_delete");
    reveal_strlit("worktree_gc");
    assert("worktree_status"@ != "worktree_list"@) by {
        assert("worktree_status"@.len() != "worktree_list"@.len());
    }
    assert("conflict_check"@ != "worktree_list"@) by {
        assert("conflict_check"@.len() != "worktree_list"@.len());
    }
    assert("conflict_check"@ != "worktree_status"@) by {
        assert("conflict_check"@.len() != "worktree_status"@.len());
    }
    assert("worktree_create"@ != "worktree_list"@) by {
        assert("worktree_create"@.len() != "worktree_list"@.len());
    }
    assert("worktree_create"@ != "worktree_status"@) by {
        assert("worktree_create"@[9] != "worktree_status"@[9]);
    }
    assert("worktree_create"@ != "conflict_check"@) by {
        assert("worktree_create"@.len() != "conflict_check"@.len());
    }
    assert("worktree_delete"@ != "worktree_list"@) by {
        assert("worktree_delete"@.len() != "worktree_list"@.len());
    }
    assert("worktree_delete"@ != "worktree_status"@) by {
        assert("worktree_delete"@[9] != "worktree_status"@[9]);
    }
    assert("worktree_delete"@ != "conflict_check"@) by {
        assert("worktree_delete"@.len() != "conflict_check"@.len());
    }
    assert("worktree_delete"@ != "worktree_create"@) by {
        assert("worktree_delete"@[9] != "worktree_create"@[9]);
    }
    assert("worktree_gc"@ != "worktree_list"@) by {
        assert("worktree_gc"@.len() != "worktree_list"@.len());
    }
    assert("worktree_gc"@ != "worktree_status"@) by {
        assert("worktree_gc"@.len() != "worktree_status"@.len());
    }
    assert("worktree_gc"@ != "conflict_check"@) by {
        assert("worktree_gc"@.len() != "conflict_check"@.len());
    }
    assert("worktree_gc"@ != "worktree_create"@) by {
        assert("worktree_gc"@.len() != "worktree_create"@.len());
    }
    assert("worktree_gc"@ != "worktree_delete"@) by {
        assert("worktree_gc"@.len() != "worktree_delete"@.len());
    }
    assert(tool_of(v[0].name@) == Some(McpTool::List));
    assert(tool_of(v[1].name@) == Some(McpTool::Status));
    assert(tool_of(v[2].name@) == Some(McpTool::ConflictCheck));
    assert(tool_of(v[3].name@) == Some(McpTool::Create));
    assert(tool_of(v[4].name@) == Some(McpTool::Delete));
    assert(tool_of(v[5].name@) == Some(McpTool::Gc));
    assert forall|t: McpTool| #[trigger] advertised_tools().contains(t) by {
        let k: int = match t {
            McpTool::List => 0,
            McpTool::Status => 1,
            McpTool::ConflictCheck => 2,
            McpTool::Create => 3,
            McpTool::Delete => 4,
            McpTool::Gc => 5,
        };
        assert(advertised_tools()[k] == t);
    }
}

/// A name calls a tool only when it is one of the advertised names, and then
/// the tool advertised under it.
pub proof fn lemma_only_advertised_names_route(v: Seq<ToolSpec>, name: Seq<char>)
    requires
        advertised(v),
    ensures
        tool_of(name) is Some ==> exists|i: int| 0 <= i < v.len() && #[trigger] v[i].name@ == name && tool_of(name)
            == Some(advertised_tools()[i]),
{
    lemma_each_advertised_name_calls_its_own_tool(v);
    if tool_of(name) is Some {
        let i: int = if name == v[0].name@ {
            0
        } else if name == v[1].name@ {
            1
        } else if name == v[2].name@ {
            2
        } else if name == v[3].name@ {
            3
        } else if name == v[4].name@ {
            4
        } else {
            5
        };
        assert(v[i].name@ == name && tool_of(v[i].name@) == Some(advertised_tools()[i]));
    }
}

fn joined(a: &str, b: &str) -> (s: String)
    ensures
        s@ == a@ + b@,
{
    let mut out = chars_of(a);
    push_str(&mut out, b);
    string_from_chars(&out)
}

/// JSON-RPC code for a request that is not JSON.
pub const PARSE_ERROR: i32 = -32700;
/// JSON-RPC code for an unknown method.
pub const METHOD_NOT_FOUND: i32 = -32601;
/// JSON-RPC code for bad parameters.
pub const INVALID_PARAMS: i32 = -32602;
/// JSON-RPC code for a tool that failed.
pub const TOOL_FAILED: i32 = -32000;

/// The error answered for an unknown method.
pub fn method_not_found(method: &str) -> (e: (i32, String))
    ensures
        e.0 == METHOD_NOT_FOUND,
        e.1@ == "Method not found: "@ + method@,
{
    (METHOD_NOT_FOUND, joined("Method not found: ", method))
}

/// The error answered for a `tools/call` without a tool name.
pub fn missing_tool_name() -> (e: (i32, String))
    ensures
        e.0 == INVALID_PARAMS,
        e.1@ == "Missing 'name' in tools/call params"@,
{
    (INVALID_PARAMS, "Missing 'name' in tools/call params".to_owned())
}

/// The error answered for a call of an unknown tool.
pub fn unknown_tool(name: &str) -> (e: (i32, String))
    ensures
        e.0 == TOOL_FAILED,
        e.1@ == "Unknown tool: "@ + name@,
{
    (TOOL_FAILED, joined("Unknown tool: ", name))
}

/// The error answered for a line that does not parse as a request.
pub fn parse_error(detail: &str) -> (e: (i32, String))
    ensures
        e.0 == PARSE_ERROR,
        e.1@ == "Parse error: "@ + detail@,
{
    (PARSE_ERROR, joined("Parse error: ", detail))
}

/// The message of a tool call whose required parameter `name` is missing.
pub fn missing_parameter(name: &str) -> (s: String)
    ensures
        s@ == "'"@ + name@ + "' parameter is required"@,
{
    let mut out = chars_of("'");
    push_str(&mut out, name);
    push_str(&mut out, "' parameter is required");
    string_from_chars(&out)
}

/// Whether a request is answered: everything but a notification (no id)
/// whose handling produced no result.
pub fn needs_response(is_notification: bool, result_is_null: bool) -> (b: bool)
    ensures
        b == !(is_notification && result_is_null),
{
    !(is_notification && result_is_null)
}

} // verus!
