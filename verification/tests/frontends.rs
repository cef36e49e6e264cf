use rarag::daemon::{DaemonRequest, QueryPayload, WorkflowPhase};
use rarag::daemon_cli::{local_database_path, parse_args, Command, ServeConfig};
use rarag::embeddings::OpenAiCompatibleEmbeddings;
use rarag::mcp::{daemon_socket_from_args, jsonrpc_action, map_tool_call, parse_query_mode, JsonRpcAction, ToolArguments};
use rarag::retrieval::query::QueryMode;
use rarag::snapshot::SnapshotKey;

fn args(values: &[&str]) -> Vec<String> {
    values.iter().map(|value| value.to_string()).collect()
}

#[test]
fn daemon_command_line() {
    assert_eq!(parse_args(&args(&["raragd", "serve", "--help"])), Ok(Command::Help));
    assert_eq!(parse_args(&args(&["raragd", "--print-config"])), Ok(Command::PrintConfig));
    assert_eq!(
        parse_args(&args(&["raragd", "serve", "--socket", "/s", "--test-memory-vector-store"])),
        Ok(Command::Serve(ServeConfig {
            socket_path: Some("/s".to_string()),
            config_path: None,
            deterministic_embeddings: false,
            memory_vector_store: true,
        }))
    );
    assert_eq!(parse_args(&args(&["raragd"])), Ok(Command::Help));
}

#[test]
fn mcp_daemon_socket() {
    assert_eq!(daemon_socket_from_args(&args(&["rarag-mcp", "--daemon-socket", "/x"]), "/d"), "/x");
    assert_eq!(daemon_socket_from_args(&args(&["rarag-mcp", "--daemon-socket"]), "/d"), "/d");
}

fn tool_args(strings: &[(&str, &str)], arrays: &[(&str, &[&str])]) -> ToolArguments {
    ToolArguments {
        strings: strings.iter().map(|(k, v)| (k.to_string(), v.to_string())).collect(),
        arrays: arrays
            .iter()
            .map(|(k, v)| (k.to_string(), v.iter().map(|x| x.to_string()).collect()))
            .collect(),
    }
}

fn payload(mode: QueryMode, text: &str) -> QueryPayload {
    QueryPayload {
        snapshot_id: None,
        worktree_root: None,
        query_mode: mode,
        query_text: text.to_string(),
        symbol_path: None,
        limit: None,
        changed_paths: Vec::new(),
        include_history: false,
        history_max_nodes: None,
        eval_task_id: None,
        workflow_phase: None,
    }
}

#[test]
fn tool_arguments_lookup() {
    let arguments = tool_args(&[("text", "sum"), ("mode", "find-examples")], &[("changed_paths", &["a.rs", "b.rs"])]);
    assert_eq!(arguments.value_string("text"), Some("sum".to_string()));
    assert_eq!(arguments.value_string("limit"), None);
    assert_eq!(arguments.value_array_strings("changed_paths"), vec!["a.rs", "b.rs"]);
    assert!(arguments.value_array_strings("text").is_empty());
    assert_eq!(arguments.required_value("mode"), Ok("find-examples".to_string()));
    assert_eq!(arguments.required_value("repo_root"), Err("missing required field repo_root".to_string()));
}

#[test]
fn query_context_tool_becomes_a_query_request() {
    let arguments = tool_args(
        &[("mode", "bounded-refactor"), ("text", "rename example_sum"), ("limit", "5"), ("snapshot_id", "snap")],
        &[("changed_paths", &["src/lib.rs"])],
    );
    let mut expected = payload(QueryMode::BoundedRefactor, "rename example_sum");
    expected.snapshot_id = Some("snap".to_string());
    expected.limit = Some(5);
    expected.changed_paths = vec!["src/lib.rs".to_string()];
    assert_eq!(map_tool_call("query_context", &arguments), Ok(DaemonRequest::Query(expected)));
}

#[test]
fn blast_radius_tool_carries_the_phase() {
    let arguments = tool_args(
        &[("worktree_root", "/w"), ("phase", "review"), ("text", "example_sum"), ("symbol_path", "mini_repo::example_sum")],
        &[],
    );
    let mut expected = payload(QueryMode::BlastRadius, "example_sum");
    expected.worktree_root = Some("/w".to_string());
    expected.symbol_path = Some("mini_repo::example_sum".to_string());
    expected.workflow_phase = Some(WorkflowPhase::Review);
    assert_eq!(map_tool_call("blast_radius", &arguments), Ok(DaemonRequest::BlastRadius(expected)));
    let bad = tool_args(&[("text", "t"), ("phase", "deploy")], &[]);
    assert_eq!(map_tool_call("blast_radius", &bad), Err("unsupported phase deploy".to_string()));
}

#[test]
fn fixed_mode_tools_ignore_the_mode_argument() {
    let arguments = tool_args(&[("text", "sum"), ("mode", "no-such-mode")], &[]);
    assert_eq!(
        map_tool_call("find_examples", &arguments),
        Ok(DaemonRequest::Query(payload(QueryMode::FindExamples, "sum")))
    );
    assert_eq!(
        map_tool_call("blast_radius", &arguments),
        Ok(DaemonRequest::BlastRadius(payload(QueryMode::BlastRadius, "sum")))
    );
    assert_eq!(
        map_tool_call("rag_symbol_context", &arguments),
        Ok(DaemonRequest::Query(payload(QueryMode::UnderstandSymbol, "sum")))
    );
}

#[test]
fn tool_call_errors() {
    let no_text = tool_args(&[("mode", "find-examples")], &[]);
    assert_eq!(map_tool_call("query_context", &no_text), Err("missing required field text".to_string()));
    let bad_mode = tool_args(&[("mode", "weird"), ("text", "x")], &[]);
    assert_eq!(map_tool_call("rag_query", &bad_mode), Err("unsupported mode weird".to_string()));
    let bad_limit = tool_args(&[("mode", "find-examples"), ("text", "x"), ("limit", "five")], &[]);
    assert_eq!(
        map_tool_call("query_context", &bad_limit),
        Err("invalid limit: invalid digit found in string".to_string())
    );
    assert_eq!(map_tool_call("nope", &no_text), Err("unsupported tool nope".to_string()));
    assert_eq!(parse_query_mode("blast-radius"), Ok(QueryMode::BlastRadius));
}

#[test]
fn status_reload_and_index_tools() {
    let arguments = tool_args(&[("worktree_root", "/w")], &[]);
    assert_eq!(
        map_tool_call("status", &arguments),
        Ok(DaemonRequest::Status { snapshot_id: None, worktree_root: Some("/w".to_string()) })
    );
    assert_eq!(map_tool_call("rag_reload_config", &arguments), Ok(DaemonRequest::ReloadConfig));
    assert_eq!(
        map_tool_call("index_workspace", &arguments),
        Err("missing required field repo_root".to_string())
    );

    let index = tool_args(
        &[
            ("repo_root", "/r"),
            ("worktree_root", "/w"),
            ("git_sha", "abc"),
            ("workspace_root", "/ws"),
            ("feature", "b,a,b"),
        ],
        &[],
    );
    assert_eq!(
        map_tool_call("index_workspace", &index),
        Ok(DaemonRequest::IndexWorkspace {
            snapshot: SnapshotKey::new("/r", "/w", "abc", "x86_64-unknown-linux-gnu", &["a", "b"], "dev"),
            workspace_root: "/ws".to_string(),
            max_body_bytes: 80,
        })
    );
}

#[test]
fn local_database_paths() {
    assert_eq!(local_database_path("file:/tmp/rarag/metadata.db"), Ok("/tmp/rarag/metadata.db".to_string()));
    assert_eq!(
        local_database_path("libsql://localhost"),
        Err("unsupported local database url: libsql://localhost".to_string())
    );
}

#[test]
fn embedding_endpoint_and_authorization() {
    let client = OpenAiCompatibleEmbeddings::new("https://api.example.com/v1//", "m", "EMBEDDING_API_KEY", 8)
        .expect("valid settings");
    assert_eq!(client.endpoint(), "https://api.example.com/v1/embeddings");
    assert_eq!(client.authorization("secret"), "Bearer secret");
    assert_eq!(client.missing_key_message(), "missing environment variable EMBEDDING_API_KEY");
}

#[test]
fn embedding_settings_are_validated_in_order() {
    assert_eq!(
        OpenAiCompatibleEmbeddings::new("///", "", "", 0).unwrap_err(),
        "base_url must not be empty"
    );
    assert_eq!(OpenAiCompatibleEmbeddings::new("http://h", " ", "", 0).unwrap_err(), "model must not be empty");
    assert_eq!(
        OpenAiCompatibleEmbeddings::new("http://h", "m", "", 0).unwrap_err(),
        "api_key_env must not be empty"
    );
    assert_eq!(
        OpenAiCompatibleEmbeddings::new("http://h", "m", "K", 0).unwrap_err(),
        "dimensions must be greater than zero"
    );
}

#[test]
fn jsonrpc_methods_map_to_actions() {
    let none = tool_args(&[], &[]);
    assert_eq!(
        jsonrpc_action("initialize", Some("2024-11-05"), "", &none),
        JsonRpcAction::Initialize { protocol_version: "2024-11-05".to_string() }
    );
    assert_eq!(
        jsonrpc_action("initialize", None, "", &none),
        JsonRpcAction::Initialize { protocol_version: "2025-03-26".to_string() }
    );
    assert_eq!(jsonrpc_action("notifications/initialized", None, "", &none), JsonRpcAction::Acknowledge);
    assert_eq!(jsonrpc_action("tools/list", None, "", &none), JsonRpcAction::ListTools);
    assert_eq!(jsonrpc_action("tools/call", None, "rag_reload_config", &none), JsonRpcAction::Forward(DaemonRequest::ReloadConfig));
    assert_eq!(
        jsonrpc_action("tools/call", None, "query_context", &none),
        JsonRpcAction::Fail { code: -32602, message: "missing required field mode".to_string() }
    );
    assert_eq!(
        jsonrpc_action("resources/list", None, "", &none),
        JsonRpcAction::Fail { code: -32601, message: "unsupported method resources/list".to_string() }
    );
}
