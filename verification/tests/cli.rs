use rarag::cli::{
    parse_command, parse_query_mode, parse_usize, CliAction, EvalReplayCommand, IntErrorKind,
    ServiceCommand, ServiceOperation, ServiceTarget,
};
use rarag::daemon::{parse_workflow_phase, DaemonRequest, WorkflowPhase};
use rarag::retrieval::query::QueryMode;

fn args(values: &[&str]) -> Vec<String> {
    values.iter().map(|value| value.to_string()).collect()
}

#[test]
fn parses_service_install_force() {
    let parsed = parse_command(
        &args(&["rarag", "service", "install", "--force"]),
        "/tmp/raragd.sock",
        false,
    )
    .expect("parse command");
    assert_eq!(
        parsed.action,
        CliAction::Service(ServiceCommand {
            operation: ServiceOperation::Install { force: true },
        })
    );
}

#[test]
fn parses_service_start_default_target_all() {
    let parsed = parse_command(
        &args(&["rarag", "service", "start"]),
        "/tmp/raragd.sock",
        false,
    )
    .expect("parse command");
    assert_eq!(
        parsed.action,
        CliAction::Service(ServiceCommand {
            operation: ServiceOperation::Start {
                target: ServiceTarget::All
            },
        })
    );
}

#[test]
fn rejects_reload_for_mcp_target() {
    let err = parse_command(
        &args(&["rarag", "service", "reload", "--service", "rarag-mcp"]),
        "/tmp/raragd.sock",
        false,
    )
    .expect_err("parse error");
    assert!(err.contains("reload only supports raragd or all"));
}

#[test]
fn parses_eval_replay_with_worktree() {
    let parsed = parse_command(
        &args(&[
            "rarag",
            "eval",
            "replay",
            "--fixtures",
            "tests/fixtures/eval/tasks.json",
            "--worktree",
            "/repo",
            "--include-history",
            "--history-max-nodes",
            "4",
            "--limit",
            "8",
        ]),
        "/tmp/raragd.sock",
        false,
    )
    .expect("parse command");
    assert_eq!(
        parsed.action,
        CliAction::EvalReplay(EvalReplayCommand {
            fixtures_path: "tests/fixtures/eval/tasks.json".to_string(),
            snapshot_id: None,
            worktree_root: Some("/repo".to_string()),
            include_history: true,
            history_max_nodes: Some(4),
            limit: Some(8),
        })
    );
}

#[test]
fn rejects_eval_replay_without_locator() {
    let err = parse_command(
        &args(&[
            "rarag",
            "eval",
            "replay",
            "--fixtures",
            "tests/fixtures/eval/tasks.json",
        ]),
        "/tmp/raragd.sock",
        false,
    )
    .expect_err("parse error");
    assert_eq!(err, "eval replay requires --snapshot or --worktree");
}

#[test]
fn socket_and_output_flags() {
    let parsed = parse_command(&args(&["rarag", "status", "--socket", "/s.sock", "--dry-run-request"]), "/d.sock", true)
        .expect("status");
    assert_eq!(parsed.socket_path, "/s.sock");
    assert!(parsed.json);
    assert!(parsed.dry_run);
    assert_eq!(
        parsed.action,
        CliAction::DaemonRequest(DaemonRequest::Status { snapshot_id: None, worktree_root: None })
    );
    let defaulted = parse_command(&args(&["rarag", "doctor"]), "/d.sock", false).expect("doctor");
    assert_eq!(defaulted.socket_path, "/d.sock");
    assert!(!defaulted.json);
}

#[test]
fn parses_query_with_options() {
    let parsed = parse_command(
        &args(&[
            "rarag", "query", "--mode", "find-examples", "--text", "sum", "--snapshot", "s1",
            "--limit", "+7", "--changed-path", "a.rs", "--changed-path", "b.rs",
        ]),
        "/d.sock",
        false,
    )
    .expect("query");
    match parsed.action {
        CliAction::DaemonRequest(DaemonRequest::Query(p)) => {
            assert_eq!(p.query_mode, QueryMode::FindExamples);
            assert_eq!(p.query_text, "sum");
            assert_eq!(p.snapshot_id, Some("s1".to_string()));
            assert_eq!(p.limit, Some(7));
            assert_eq!(p.changed_paths, vec!["a.rs", "b.rs"]);
        }
        other => panic!("unexpected action {other:?}"),
    }
}

#[test]
fn query_errors_name_the_flag() {
    let err = parse_command(&args(&["rarag", "query", "--mode", "x", "--text", "t"]), "/d", false).expect_err("mode");
    assert_eq!(err, "unsupported --mode x");
    let err = parse_command(&args(&["rarag", "symbol", "--text", "t", "--limit", "abc"]), "/d", false).expect_err("limit");
    assert_eq!(err, "invalid --limit: invalid digit found in string");
    let err = parse_command(&args(&["rarag", "blast-radius"]), "/d", false).expect_err("text");
    assert_eq!(err, "missing required flag --text");
    let err = parse_command(&args(&["rarag", "frobnicate"]), "/d", false).expect_err("unknown");
    assert_eq!(err, "unsupported command");
}

#[test]
fn parses_index_request_with_normalized_features() {
    let parsed = parse_command(
        &args(&[
            "rarag", "index", "--repo-root", "/repo", "--worktree", "/repo/wt", "--git-sha", "abc",
            "--workspace-root", "/repo/wt", "--feature", " sqlite, default,,sqlite",
        ]),
        "/d",
        false,
    )
    .expect("index");
    match parsed.action {
        CliAction::DaemonRequest(DaemonRequest::IndexWorkspace { snapshot, workspace_root, max_body_bytes }) => {
            assert_eq!(snapshot.feature_set, vec!["default", "sqlite"]);
            assert_eq!(snapshot.cargo_target, "x86_64-unknown-linux-gnu");
            assert_eq!(snapshot.cfg_profile, "dev");
            assert_eq!(workspace_root, "/repo/wt");
            assert_eq!(max_body_bytes, 80);
        }
        other => panic!("unexpected action {other:?}"),
    }
    let err = parse_command(&args(&["rarag", "index", "build", "--repo-root", "/r"]), "/d", false).expect_err("missing");
    assert_eq!(err, "missing required flag --worktree-root");
}

#[test]
fn service_errors() {
    let err = parse_command(&args(&["rarag", "service", "enable"]), "/d", false).expect_err("sub");
    assert_eq!(err, "unsupported service command enable");
    let err = parse_command(&args(&["rarag", "service", "stop", "--service", "x"]), "/d", false).expect_err("target");
    assert_eq!(err, "unsupported --service value x");
}

#[test]
fn usize_parsing_matches_std() {
    assert_eq!(parse_usize(""), Err(IntErrorKind::Empty));
    assert_eq!(parse_usize("+"), Err(IntErrorKind::InvalidDigit));
    assert_eq!(parse_usize("-1"), Err(IntErrorKind::InvalidDigit));
    assert_eq!(parse_usize("42"), Ok(42));
    assert_eq!(parse_usize("+42"), Ok(42));
    assert_eq!(parse_usize("99999999999999999999999"), Err(IntErrorKind::PosOverflow));
    assert_eq!(parse_usize(&usize::MAX.to_string()), Ok(usize::MAX));
}

#[test]
fn query_modes_by_name() {
    for mode in [
        QueryMode::UnderstandSymbol,
        QueryMode::ImplementAdjacent,
        QueryMode::BoundedRefactor,
        QueryMode::FindExamples,
        QueryMode::BlastRadius,
    ] {
        assert_eq!(parse_query_mode(mode.as_str()), Ok(mode));
    }
}

#[test]
fn cli_parses_phase_and_mode_flags() {
    let parsed = parse_command(
        &args(&[
            "rarag",
            "query",
            "--socket",
            "/tmp/rarag-test.sock",
            "--worktree-root",
            "/tmp/worktree",
            "--mode",
            "bounded-refactor",
            "--phase",
            "review",
            "--text",
            "rename example_sum",
            "--dry-run-request",
        ]),
        "/tmp/raragd.sock",
        false,
    )
    .expect("query");
    assert!(parsed.dry_run);
    assert_eq!(parsed.socket_path, "/tmp/rarag-test.sock");
    match parsed.action {
        CliAction::DaemonRequest(DaemonRequest::Query(p)) => {
            assert_eq!(p.query_mode, QueryMode::BoundedRefactor);
            assert_eq!(p.worktree_root, Some("/tmp/worktree".to_string()));
            assert_eq!(p.query_text, "rename example_sum");
            assert_eq!(p.workflow_phase, Some(WorkflowPhase::Review));
        }
        other => panic!("unexpected action {other:?}"),
    }
}

#[test]
fn phase_is_optional_and_checked() {
    let parsed = parse_command(
        &args(&["rarag", "blast-radius", "--worktree", "/w", "--text", "t"]),
        "/d.sock",
        false,
    )
    .expect("blast radius");
    match parsed.action {
        CliAction::DaemonRequest(DaemonRequest::BlastRadius(p)) => assert_eq!(p.workflow_phase, None),
        other => panic!("unexpected action {other:?}"),
    }
    let err = parse_command(
        &args(&["rarag", "blast-radius", "--worktree", "/w", "--text", "t", "--phase", "deploy"]),
        "/d.sock",
        false,
    )
    .expect_err("phase");
    assert_eq!(err, "unsupported --phase deploy");
    assert_eq!(parse_workflow_phase("spec"), Some(WorkflowPhase::Spec));
    assert_eq!(parse_workflow_phase("plan"), Some(WorkflowPhase::Plan));
    assert_eq!(parse_workflow_phase("execute"), Some(WorkflowPhase::Execute));
    assert_eq!(parse_workflow_phase("verify"), Some(WorkflowPhase::Verify));
    assert_eq!(parse_workflow_phase("Review"), None);
}
