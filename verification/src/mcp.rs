//! The MCP server's logic: its command line, the arguments of tool calls,
//! the daemon requests they stand for, and what a JSON-RPC request asks of
//! the server.
use crate::cli::{default_or, int_error_message, int_error_text, opt_value, option_value, parse_usize, parse_usize_spec};
use crate::chunking::types::{lit, opt_view};
use crate::daemon::{parse_workflow_phase, phase_named, DaemonRequest, DaemonRequestView, QueryPayload, QueryPayloadView, WorkflowPhase};
use crate::retrieval::query::QueryMode;
use crate::snapshot::{normalized_features, str_views, SnapshotKey, SnapshotKeyView};
use crate::text::{as_int_pairs, chars_of, push_str, split, split_chars, split_ranges, str_equal, string_from_range, views};
use vstd::prelude::*;

verus! {

/// The daemon socket given by `--daemon-socket`, or the default.
pub fn daemon_socket_from_args(args: &[String], default_socket: &str) -> (r: String)
    ensures
        r@ == default_or(opt_value(views(args@), "--daemon-socket"@), default_socket@),
{
    match option_value(args, "--daemon-socket") {
        Some(s) => s,
        None => lit(default_socket),
    }
}

/// The arguments of a tool call as plain values: its string fields and its
/// arrays (keeping the strings of each array), by key.
#[derive(Debug, Clone, PartialEq, Eq)]
pub struct ToolArguments {
    pub strings: Vec<(String, String)>,
    pub arrays: Vec<(String, Vec<String>)>,
}

pub open spec fn string_entries(v: Seq<(String, String)>) -> Seq<(Seq<char>, Seq<char>)> {
    v.map_values(|e: (String, String)| (e.0@, e.1@))
}

pub open spec fn array_entries(v: Seq<(String, Vec<String>)>) -> Seq<(Seq<char>, Seq<Seq<char>>)> {
    v.map_values(|e: (String, Vec<String>)| (e.0@, views(e.1@)))
}

/// The first value stored under `key` from entry `i` on.
pub open spec fn lookup_from<V>(entries: Seq<(Seq<char>, V)>, key: Seq<char>, i: int) -> Option<V>
    decreases entries.len() - i,
{
    if i < 0 || i >= entries.len() {
        None
    } else if entries[i].0 == key {
        Some(entries[i].1)
    } else {
        lookup_from(entries, key, i + 1)
    }
}

pub open spec fn arg_string(a: ToolArguments, key: Seq<char>) -> Option<Seq<char>> {
    lookup_from(string_entries(a.strings@), key, 0)
}

pub open spec fn arg_array(a: ToolArguments, key: Seq<char>) -> Seq<Seq<char>> {
    match lookup_from(array_entries(a.arrays@), key, 0) {
        Some(v) => v,
        None => seq![],
    }
}

pub open spec fn arg_required(a: ToolArguments, key: Seq<char>) -> Result<Seq<char>, Seq<char>> {
    match arg_string(a, key) {
        Some(x) => Ok(x),
        None => Err("missing required field "@ + key),
    }
}

impl ToolArguments {
    /// The string stored under `key`.
    pub fn value_string(&self, key: &str) -> (r: Option<String>)
        ensures
            opt_view(r) == arg_string(*self, key@),
    {
        let ghost es = string_entries(self.strings@);
        let mut i: usize = 0;
        while i < self.strings.len()
            invariant
                0 <= i <= self.strings@.len(),
                es == string_entries(self.strings@),
                lookup_from(es, key@, 0) == lookup_from(es, key@, i as int),
            decreases self.strings.len() - i,
        {
            if str_equal(self.strings[i].0.as_str(), key) {
                return Some(self.strings[i].1.clone());
            }
            i = i + 1;
        }
        None
    }

    /// The strings of the array stored under `key` (none when missing).
    pub fn value_array_strings(&self, key: &str) -> (r: Vec<String>)
        ensures
            views(r@) == arg_array(*self, key@),
    {
        let ghost es = array_entries(self.arrays@);
        let mut i: usize = 0;
        while i < self.arrays.len()
            invariant
                0 <= i <= self.arrays@.len(),
                es == array_entries(self.arrays@),
                lookup_from(es, key@, 0) == lookup_from(es, key@, i as int),
            decreases self.arrays.len() - i,
        {
            if str_equal(self.arrays[i].0.as_str(), key) {
                return crate::chunking::types::clone_strings(&self.arrays[i].1);
            }
            i = i + 1;
        }
        let v: Vec<String> = Vec::new();
        assert(views(v@) =~= Seq::<Seq<char>>::empty());
        v
    }

    pub fn required_value(&self, key: &str) -> (r: Result<String, String>)
        ensures
            match arg_required(*self, key@) {
                Ok(x) => r is Ok && r->Ok_0@ == x,
                Err(e) => r is Err && r->Err_0@ == e,
            },
    {
        match self.value_string(key) {
            Some(x) => Ok(x),
            None => {
                let mut e = lit("missing required field ");
                push_str(&mut e, key);
                Err(e)
            },
        }
    }
}

pub open spec fn mcp_mode_spec(v: Seq<char>) -> Result<QueryMode, Seq<char>> {
    if v == "understand-symbol"@ {
        Ok(QueryMode::UnderstandSymbol)
    } else if v == "implement-adjacent"@ {
        Ok(QueryMode::ImplementAdjacent)
    } else if v == "bounded-refactor"@ {
        Ok(QueryMode::BoundedRefactor)
    } else if v == "find-examples"@ {
        Ok(QueryMode::FindExamples)
    } else if v == "blast-radius"@ {
        Ok(QueryMode::BlastRadius)
    } else {
        Err("unsupported mode "@ + v)
    }
}

/// The mode a tool argument names.
pub fn parse_query_mode(value: &str) -> (r: Result<QueryMode, String>)
    ensures
        match mcp_mode_spec(value@) {
            Ok(m) => r == Ok::<QueryMode, String>(m),
            Err(e) => r is Err && r->Err_0@ == e,
        },
{
    if str_equal(value, "understand-symbol") {
        Ok(QueryMode::UnderstandSymbol)
    } else if str_equal(value, "implement-adjacent") {
        Ok(QueryMode::ImplementAdjacent)
    } else if str_equal(value, "bounded-refactor") {
        Ok(QueryMode::BoundedRefactor)
    } else if str_equal(value, "find-examples") {
        Ok(QueryMode::FindExamples)
    } else if str_equal(value, "blast-radius") {
        Ok(QueryMode::BlastRadius)
    } else {
        let mut e = lit("unsupported mode ");
        push_str(&mut e, value);
        Err(e)
    }
}

pub open spec fn is_query_tool(name: Seq<char>) -> bool {
    name == "query_context"@ || name == "find_examples"@ || name == "blast_radius"@ || name == "rag_query"@
        || name == "rag_symbol_context"@ || name == "rag_examples"@ || name == "rag_blast_radius"@
}

pub open spec fn is_blast_tool(name: Seq<char>) -> bool {
    name == "blast_radius"@ || name == "rag_blast_radius"@
}

/// The mode of a query tool: fixed by the tool, or its `mode` argument.
pub open spec fn tool_mode(name: Seq<char>, a: ToolArguments) -> Result<QueryMode, Seq<char>> {
    if name == "find_examples"@ || name == "rag_examples"@ {
        Ok(QueryMode::FindExamples)
    } else if is_blast_tool(name) {
        Ok(QueryMode::BlastRadius)
    } else if name == "rag_symbol_context"@ {
        Ok(QueryMode::UnderstandSymbol)
    } else {
        match arg_required(a, "mode"@) {
            Ok(m) => mcp_mode_spec(m),
            Err(e) => Err(e),
        }
    }
}

pub open spec fn tool_payload(name: Seq<char>, a: ToolArguments) -> Result<QueryPayloadView, Seq<char>> {
    match tool_mode(name, a) {
        Err(e) => Err(e),
        Ok(mode) => match arg_required(a, "text"@) {
            Err(e) => Err(e),
            Ok(text) => {
                let limit: Result<Option<usize>, Seq<char>> = match arg_string(a, "limit"@) {
                    None => Ok(None),
                    Some(v) => match parse_usize_spec(v) {
                        Ok(n) => Ok(Some(n)),
                        Err(k) => Err("invalid limit: "@ + int_error_text(k)),
                    },
                };
                let phase: Result<Option<WorkflowPhase>, Seq<char>> = match arg_string(a, "phase"@) {
                    None => Ok(None),
                    Some(v) => match phase_named(v) {
                        Some(p) => Ok(Some(p)),
                        None => Err("unsupported phase "@ + v),
                    },
                };
                match limit {
                    Err(e) => Err(e),
                    Ok(l) => match phase {
                    Err(e) => Err(e),
                    Ok(ph) => Ok(
                        QueryPayloadView {
                            snapshot_id: arg_string(a, "snapshot_id"@),
                            worktree_root: arg_string(a, "worktree_root"@),
                            query_mode: mode,
                            query_text: text,
                            symbol_path: arg_string(a, "symbol_path"@),
                            limit: l,
                            changed_paths: arg_array(a, "changed_paths"@),
                            include_history: false,
                            history_max_nodes: None,
                            eval_task_id: None,
                            workflow_phase: ph,
                        },
                    ),
                    },
                }
            },
        },
    }
}

pub open spec fn tool_index(a: ToolArguments) -> Result<DaemonRequestView, Seq<char>> {
    match arg_required(a, "repo_root"@) {
        Err(e) => Err(e),
        Ok(repo) => match arg_required(a, "worktree_root"@) {
            Err(e) => Err(e),
            Ok(wt) => match arg_required(a, "git_sha"@) {
                Err(e) => Err(e),
                Ok(sha) => match arg_required(a, "workspace_root"@) {
                    Err(e) => Err(e),
                    Ok(ws) => match parse_usize_spec(default_or(arg_string(a, "max_body_bytes"@), "80"@)) {
                        Err(k) => Err("invalid max_body_bytes: "@ + int_error_text(k)),
                        Ok(mb) => Ok(
                            DaemonRequestView::IndexWorkspace {
                                snapshot: SnapshotKeyView {
                                    repo_root: repo,
                                    worktree_root: wt,
                                    git_sha: sha,
                                    cargo_target: default_or(arg_string(a, "cargo_target"@), "x86_64-unknown-linux-gnu"@),
                                    feature_set: normalized_features(split(default_or(arg_string(a, "feature"@), "default"@), seq![','])),
                                    cfg_profile: default_or(arg_string(a, "cfg_profile"@), "dev"@),
                                },
                                workspace_root: ws,
                                max_body_bytes: mb,
                            },
                        ),
                    },
                },
            },
        },
    }
}

/// The daemon request a tool call stands for.
pub open spec fn tool_request(name: Seq<char>, a: ToolArguments) -> Result<DaemonRequestView, Seq<char>> {
    if name == "rag_reload_config"@ {
        Ok(DaemonRequestView::ReloadConfig)
    } else if name == "status"@ || name == "rag_index_status"@ {
        Ok(DaemonRequestView::Status { snapshot_id: arg_string(a, "snapshot_id"@), worktree_root: arg_string(a, "worktree_root"@) })
    } else if name == "index_workspace"@ || name == "rag_reindex"@ {
        tool_index(a)
    } else if is_query_tool(name) {
        match tool_payload(name, a) {
            Err(e) => Err(e),
            Ok(p) => Ok(if is_blast_tool(name) { DaemonRequestView::BlastRadius(p) } else { DaemonRequestView::Query(p) }),
        }
    } else {
        Err("unsupported tool "@ + name)
    }
}

fn arg_or(arguments: &ToolArguments, key: &str, default: &str) -> (r: String)
    ensures
        r@ == default_or(arg_string(*arguments, key@), default@),
{
    match arguments.value_string(key) {
        Some(x) => x,
        None => lit(default),
    }
}

fn index_request(arguments: &ToolArguments) -> (r: Result<DaemonRequest, String>)
    ensures
        match tool_index(*arguments) {
            Ok(v) => r is Ok && r->Ok_0@ == v,
            Err(e) => r is Err && r->Err_0@ == e,
        },
{
    let repo = match arguments.required_value("repo_root") {
        Ok(x) => x,
        Err(e) => {
            return Err(e);
        },
    };
    let wt = match arguments.required_value("worktree_root") {
        Ok(x) => x,
        Err(e) => {
            return Err(e);
        },
    };
    let sha = match arguments.required_value("git_sha") {
        Ok(x) => x,
        Err(e) => {
            return Err(e);
        },
    };
    let target = arg_or(arguments, "cargo_target", "x86_64-unknown-linux-gnu");
    let features = arg_or(arguments, "feature", "default");
    let profile = arg_or(arguments, "cfg_profile", "dev");
    let pieces = crate::cli::split_on_commas(features.as_str());
    let mut refs: Vec<&str> = Vec::new();
    let mut j: usize = 0;
    while j < pieces.len()
        invariant
            0 <= j <= pieces@.len(),
            refs@.len() == j,
            str_views(refs@) == views(pieces@).take(j as int),
        decreases pieces.len() - j,
    {
        let ghost before = refs@;
        refs.push(pieces[j].as_str());
        assert(refs@[j as int]@ == pieces@[j as int]@);
        assert(refs@ =~= before.push(refs@[j as int]));
        assert(str_views(refs@) =~= views(pieces@).take(j + 1));
        j = j + 1;
    }
    assert(views(pieces@).take(pieces@.len() as int) =~= views(pieces@));
    let workspace_root = match arguments.required_value("workspace_root") {
        Ok(x) => x,
        Err(e) => {
            return Err(e);
        },
    };
    let mb_text = arg_or(arguments, "max_body_bytes", "80");
    let max_body_bytes = match parse_usize(mb_text.as_str()) {
        Ok(n) => n,
        Err(k) => {
            let mut e = lit("invalid max_body_bytes: ");
            push_str(&mut e, int_error_message(k));
            return Err(e);
        },
    };
    let snapshot = SnapshotKey::new(repo.as_str(), wt.as_str(), sha.as_str(), target.as_str(), refs.as_slice(), profile.as_str());
    Ok(DaemonRequest::IndexWorkspace { snapshot, workspace_root, max_body_bytes })
}

fn query_payload(name: &str, arguments: &ToolArguments) -> (r: Result<QueryPayload, String>)
    ensures
        match tool_payload(name@, *arguments) {
            Ok(v) => r is Ok && r->Ok_0@ == v,
            Err(e) => r is Err && r->Err_0@ == e,
        },
{
    let query_mode = if str_equal(name, "find_examples") || str_equal(name, "rag_examples") {
        QueryMode::FindExamples
    } else if str_equal(name, "blast_radius") || str_equal(name, "rag_blast_radius") {
        QueryMode::BlastRadius
    } else if str_equal(name, "rag_symbol_context") {
        QueryMode::UnderstandSymbol
    } else {
        let m = match arguments.required_value("mode") {
            Ok(m) => m,
            Err(e) => {
                return Err(e);
            },
        };
        match parse_query_mode(m.as_str()) {
            Ok(mode) => mode,
            Err(e) => {
                return Err(e);
            },
        }
    };
    let query_text = match arguments.required_value("text") {
        Ok(t) => t,
        Err(e) => {
            return Err(e);
        },
    };
    let limit = match arguments.value_string("limit") {
        None => None,
        Some(v) => match parse_usize(v.as_str()) {
            Ok(n) => Some(n),
            Err(k) => {
                let mut e = lit("invalid limit: ");
                push_str(&mut e, int_error_message(k));
                return Err(e);
            },
        },
    };
    let workflow_phase = match arguments.value_string("phase") {
        None => None,
        Some(v) => match parse_workflow_phase(v.as_str()) {
            Some(p) => Some(p),
            None => {
                let mut e = lit("unsupported phase ");
                push_str(&mut e, v.as_str());
                return Err(e);
            },
        },
    };
    Ok(
        QueryPayload {
            snapshot_id: arguments.value_string("snapshot_id"),
            worktree_root: arguments.value_string("worktree_root"),
            query_mode,
            query_text,
            symbol_path: arguments.value_string("symbol_path"),
            limit,
            changed_paths: arguments.value_array_strings("changed_paths"),
            include_history: false,
            history_max_nodes: None,
            eval_task_id: None,
            workflow_phase,
        },
    )
}

/// The daemon request of an MCP tool call (see [`tool_request`]).
pub fn map_tool_call(name: &str, arguments: &ToolArguments) -> (r: Result<DaemonRequest, String>)
    ensures
        match tool_request(name@, *arguments) {
            Ok(v) => r is Ok && r->Ok_0@ == v,
            Err(e) => r is Err && r->Err_0@ == e,
        },
{
    if str_equal(name, "rag_reload_config") {
        return Ok(DaemonRequest::ReloadConfig);
    }
    if str_equal(name, "status") || str_equal(name, "rag_index_status") {
        return Ok(
            DaemonRequest::Status {
                snapshot_id: arguments.value_string("snapshot_id"),
                worktree_root: arguments.value_string("worktree_root"),
            },
        );
    }
    if str_equal(name, "index_workspace") || str_equal(name, "rag_reindex") {
        return index_request(arguments);
    }
    let query = str_equal(name, "query_context") || str_equal(name, "find_examples") || str_equal(name, "blast_radius")
        || str_equal(name, "rag_query") || str_equal(name, "rag_symbol_context") || str_equal(name, "rag_examples")
        || str_equal(name, "rag_blast_radius");
    if query {
        let blast = str_equal(name, "blast_radius") || str_equal(name, "rag_blast_radius");
        return match query_payload(name, arguments) {
            Ok(p) => if blast {
                Ok(DaemonRequest::BlastRadius(p))
            } else {
                Ok(DaemonRequest::Query(p))
            },
            Err(e) => Err(e),
        };
    }
    let mut e = lit("unsupported tool ");
    push_str(&mut e, name);
    Err(e)
}

/// What the server does with a JSON-RPC request.
#[derive(Debug, Clone, PartialEq, Eq)]
pub enum JsonRpcAction {
    /// Answer `initialize` with the protocol version and the server's
    /// capabilities.
    Initialize { protocol_version: String },
    /// Acknowledge a notification with an empty result.
    Acknowledge,
    /// List the tools.
    ListTools,
    /// Send this request to the daemon and answer with its response.
    Forward(DaemonRequest),
    /// Answer with an error.
    Fail { code: i64, message: String },
}

pub enum JsonRpcActionView {
    Initialize(Seq<char>),
    Acknowledge,
    ListTools,
    Forward(DaemonRequestView),
    Fail(i64, Seq<char>),
}

impl View for JsonRpcAction {
    type V = JsonRpcActionView;

    open spec fn view(&self) -> JsonRpcActionView {
        match self {
            JsonRpcAction::Initialize { protocol_version } => JsonRpcActionView::Initialize(protocol_version@),
            JsonRpcAction::Acknowledge => JsonRpcActionView::Acknowledge,
            JsonRpcAction::ListTools => JsonRpcActionView::ListTools,
            JsonRpcAction::Forward(r) => JsonRpcActionView::Forward(r@),
            JsonRpcAction::Fail { code, message } => JsonRpcActionView::Fail(*code, message@),
        }
    }
}

/// The action of a request: by its method; a tool call is forwarded when
/// it maps to a daemon request and refused as invalid params otherwise;
/// any other method is unsupported.
pub open spec fn rpc_action(
    method: Seq<char>,
    protocol_version: Option<Seq<char>>,
    tool_name: Seq<char>,
    arguments: ToolArguments,
) -> JsonRpcActionView {
    if method == "initialize"@ {
        JsonRpcActionView::Initialize(default_or(protocol_version, "2025-03-26"@))
    } else if method == "notifications/initialized"@ {
        JsonRpcActionView::Acknowledge
    } else if method == "tools/list"@ {
        JsonRpcActionView::ListTools
    } else if method == "tools/call"@ {
        match tool_request(tool_name, arguments) {
            Ok(r) => JsonRpcActionView::Forward(r),
            Err(e) => JsonRpcActionView::Fail(-32602i64, e),
        }
    } else {
        JsonRpcActionView::Fail(-32601i64, "unsupported method "@ + method)
    }
}

/// The action for a JSON-RPC request with this method, `protocolVersion`
/// parameter, tool name and tool arguments (the last two read from the
/// parameters of a tool call).
pub fn jsonrpc_action(
    method: &str,
    protocol_version: Option<&str>,
    tool_name: &str,
    arguments: &ToolArguments,
) -> (r: JsonRpcAction)
    ensures
        r@ == rpc_action(method@, match protocol_version {
            Some(v) => Some(v@),
            None => None,
        }, tool_name@, *arguments),
{
    if str_equal(method, "initialize") {
        let protocol_version = match protocol_version {
            Some(v) => lit(v),
            None => lit("2025-03-26"),
        };
        JsonRpcAction::Initialize { protocol_version }
    } else if str_equal(method, "notifications/initialized") {
        JsonRpcAction::Acknowledge
    } else if str_equal(method, "tools/list") {
        JsonRpcAction::ListTools
    } else if str_equal(method, "tools/call") {
        match map_tool_call(tool_name, arguments) {
            Ok(r) => JsonRpcAction::Forward(r),
            Err(message) => JsonRpcAction::Fail { code: -32602, message },
        }
    } else {
        let mut message = lit("unsupported method ");
        push_str(&mut message, method);
        JsonRpcAction::Fail { code: -32601, message }
    }
}

} // verus!
