//! Request routing of the read-only MCP server: which JSON-RPC method a
//! request names, which tool a `tools/call` names, and the text the
//! recommended-actions tool answers with.

use vstd::prelude::*;
use crate::air::{ActionView, RecommendedAction, actions_view};
use crate::text::{chars_eq, chars_of, owned};

verus! {

/// The one protocol version this server speaks.
pub const PROTOCOL_VERSION: &'static str = "2025-11-25";

/// What a request with an id asks for.
#[derive(Debug, Clone, Copy, PartialEq, Eq, Structural)]
pub enum RpcRoute {
    Initialize,
    Discover,
    Ping,
    ToolsList,
    ToolsCall,
    MethodNotFound,
}

/// The route of a method name.
pub open spec fn route_of(method: Seq<char>) -> RpcRoute {
    if method == "initialize"@ {
        RpcRoute::Initialize
    } else if method == "server/discover"@ {
        RpcRoute::Discover
    } else if method == "ping"@ {
        RpcRoute::Ping
    } else if method == "tools/list"@ {
        RpcRoute::ToolsList
    } else if method == "tools/call"@ {
        RpcRoute::ToolsCall
    } else {
        RpcRoute::MethodNotFound
    }
}

/// Route a request. A request without an id is a notification and gets no
/// response (`None`); a missing or non-string method counts as the empty
/// method name.
pub fn route_request(has_id: bool, method: Option<&str>) -> (r: Option<RpcRoute>)
    ensures
        !has_id ==> r is None,
        has_id ==> r == Some(route_of(match method { Some(m) => m@, None => Seq::<char>::empty() })),
{
    if !has_id {
        return None;
    }
    let m = match method {
        Some(m) => chars_of(m),
        None => Vec::new(),
    };
    let ms = m.as_slice();
    if chars_eq(ms, "initialize") {
        Some(RpcRoute::Initialize)
    } else if chars_eq(ms, "server/discover") {
        Some(RpcRoute::Discover)
    } else if chars_eq(ms, "ping") {
        Some(RpcRoute::Ping)
    } else if chars_eq(ms, "tools/list") {
        Some(RpcRoute::ToolsList)
    } else if chars_eq(ms, "tools/call") {
        Some(RpcRoute::ToolsCall)
    } else {
        Some(RpcRoute::MethodNotFound)
    }
}

/// The error answered for an unknown method.
pub fn method_not_found(method: &str) -> (r: (i64, String))
    ensures
        r.0 == -32601,
        r.1@ == "method not found: "@ + method@,
{
    let mut m = owned("method not found: ");
    m.append(method);
    (-32601, m)
}

/// The protocol version answered to `initialize`: this server's own,
/// whatever the client asked for.
pub fn negotiated_protocol(requested: Option<&str>) -> (r: &'static str)
    ensures
        r@ == PROTOCOL_VERSION@,
{
    PROTOCOL_VERSION
}

/// The tools this server offers.
#[derive(Debug, Clone, Copy, PartialEq, Eq, Structural)]
pub enum Tool {
    ProjectStatus,
    RecommendedActions,
    ExplainDiagnostic,
}

pub open spec fn tool_name(t: Tool) -> Seq<char> {
    match t {
        Tool::ProjectStatus => "zed_project_status"@,
        Tool::RecommendedActions => "zed_recommended_actions"@,
        Tool::ExplainDiagnostic => "zed_explain_diagnostic"@,
    }
}

impl Tool {
    pub fn name(&self) -> (r: &'static str)
        ensures
            r@ == tool_name(*self),
    {
        match self {
            Tool::ProjectStatus => "zed_project_status",
            Tool::RecommendedActions => "zed_recommended_actions",
            Tool::ExplainDiagnostic => "zed_explain_diagnostic",
        }
    }
}

/// Every tool, in the order `tools/list` lists them.
pub fn tools() -> (r: Vec<Tool>)
    ensures
        r@ == seq![Tool::ProjectStatus, Tool::RecommendedActions, Tool::ExplainDiagnostic],
{
    let mut v = Vec::new();
    v.push(Tool::ProjectStatus);
    v.push(Tool::RecommendedActions);
    v.push(Tool::ExplainDiagnostic);
    v
}

/// Resolve the `name` of a `tools/call`: -32602 when it is missing or names
/// no tool.
pub fn route_tool(name: Option<&str>) -> (r: Result<Tool, (i64, String)>)
    ensures
        name is None ==> (r matches Err(e) && e.0 == -32602 && e.1@ == "tools/call requires `name`"@),
        name matches Some(n) ==> (n@ == "zed_project_status"@ ==> r == Ok::<Tool, (i64, String)>(Tool::ProjectStatus)),
        name matches Some(n) ==> (n@ != "zed_project_status"@ && n@ == "zed_recommended_actions"@
            ==> r == Ok::<Tool, (i64, String)>(Tool::RecommendedActions)),
        name matches Some(n) ==> (n@ != "zed_project_status"@ && n@ != "zed_recommended_actions"@
            && n@ == "zed_explain_diagnostic"@ ==> r == Ok::<Tool, (i64, String)>(Tool::ExplainDiagnostic)),
        name matches Some(n) ==> (n@ != "zed_project_status"@ && n@ != "zed_recommended_actions"@
            && n@ != "zed_explain_diagnostic"@ ==> (r matches Err(e) && e.0 == -32602
                && e.1@ == "unknown tool `"@ + n@ + "`"@)),
{
    match name {
        None => Err((-32602, owned("tools/call requires `name`"))),
        Some(n) => {
            let cs = chars_of(n);
            if chars_eq(cs.as_slice(), "zed_project_status") {
                Ok(Tool::ProjectStatus)
            } else if chars_eq(cs.as_slice(), "zed_recommended_actions") {
                Ok(Tool::RecommendedActions)
            } else if chars_eq(cs.as_slice(), "zed_explain_diagnostic") {
                Ok(Tool::ExplainDiagnostic)
            } else {
                let mut m = owned("unknown tool `");
                m.append(n);
                m.append("`");
                Err((-32602, m))
            }
        },
    }
}

/// The error for `zed_explain_diagnostic` called without a `code`.
pub fn missing_code_error() -> (r: (i64, String))
    ensures
        r.0 == -32602,
        r.1@ == "zed_explain_diagnostic requires `code`"@,
{
    (-32602, owned("zed_explain_diagnostic requires `code`"))
}

/// One line of the recommended-actions tool text.
pub open spec fn action_summary(a: ActionView) -> Seq<char> {
    match a.command {
        Some(c) => a.title + ": `"@ + c + "` — "@ + a.rationale,
        None => a.title + " — "@ + a.rationale,
    }
}

/// The lines joined by newlines.
pub open spec fn action_summaries(acts: Seq<ActionView>) -> Seq<char>
    decreases acts.len(),
{
    if acts.len() == 0 {
        Seq::empty()
    } else if acts.len() == 1 {
        action_summary(acts[0])
    } else {
        action_summaries(acts.drop_last()) + "\n"@ + action_summary(acts.last())
    }
}

/// The text answered by the recommended-actions tool: one line per action,
/// with its command when it has one.
pub fn actions_text(actions: &[RecommendedAction]) -> (r: String)
    ensures
        r@ == action_summaries(actions_view(actions@)),
{
    let ghost acts = actions_view(actions@);
    let mut out = String::new();
    let mut i: usize = 0;
    assert(acts.take(0) =~= Seq::<ActionView>::empty());
    while i < actions.len()
        invariant
            acts == actions_view(actions@),
            i <= acts.len(),
            out@ == action_summaries(acts.take(i as int)),
        decreases actions.len() - i,
    {
        let a = &actions[i];
        if i > 0 {
            out.append("\n");
        }
        out.append(a.title.as_str());
        match &a.command {
            Some(c) => {
                out.append(": `");
                out.append(c.as_str());
                out.append("` — ");
            },
            None => {
                out.append(" — ");
            },
        }
        out.append(a.rationale.as_str());
        proof {
            assert(acts.take(i + 1).drop_last() =~= acts.take(i as int));
            assert(acts.take(i + 1).last() == a@);
            if i == 0 {
                assert(acts.take(1)[0] == a@);
            }
        }
        i = i + 1;
        assert(out@ =~= action_summaries(acts.take(i as int)));
    }
    assert(acts.take(acts.len() as int) =~= acts);
    out
}

} // verus!
