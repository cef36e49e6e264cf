use rarag::daemon::{route_request, snapshot_lookup, DaemonRequest, DaemonRoute, QueryPayload, SnapshotLookup, WorkflowPhase};
use rarag::retrieval::query::QueryMode;

fn payload() -> QueryPayload {
    QueryPayload {
        snapshot_id: None,
        worktree_root: None,
        query_mode: QueryMode::UnderstandSymbol,
        query_text: "example_sum".to_string(),
        symbol_path: None,
        limit: None,
        changed_paths: Vec::new(),
        include_history: false,
        history_max_nodes: None,
        eval_task_id: None,
        workflow_phase: None,
    }
}

#[test]
fn requests_require_snapshot_or_unambiguous_worktree() {
    let err = payload().validate_locator().expect_err("missing locator should fail");

    assert!(err.contains("snapshot_id or worktree_root"));
}

#[test]
fn worktree_locator_is_enough() {
    let mut p = payload();
    p.worktree_root = Some("/repo".to_string());
    assert_eq!(p.validate_locator(), Ok(()));
}

#[test]
fn payload_becomes_request_with_defaults_and_overrides() {
    let mut p = payload();
    p.query_mode = QueryMode::BoundedRefactor;
    p.limit = Some(3);
    p.changed_paths = vec!["src\\lib.rs".to_string(), "a.rs".to_string(), "src/lib.rs".to_string()];
    p.history_max_nodes = Some(0);
    p.include_history = true;
    let request = p.into_retrieval_request("snap-1".to_string());
    assert_eq!(request.snapshot_id, "snap-1");
    assert_eq!(request.limit, 3);
    assert_eq!(request.worktree_changes.paths(), vec!["a.rs", "src/lib.rs"]);
    assert!(request.include_history);
    assert_eq!(request.history_max_nodes, Some(1));

    let defaults = payload().into_retrieval_request("s".to_string());
    assert_eq!(defaults.limit, 4);
    assert!(defaults.worktree_changes.is_empty());
    assert_eq!(defaults.history_max_nodes, None);
}

#[test]
fn snapshot_lookup_prefers_the_snapshot_id() {
    assert_eq!(
        snapshot_lookup(Some("snap".to_string()), Some("/w".to_string())),
        Ok(SnapshotLookup::Known("snap".to_string()))
    );
    assert_eq!(snapshot_lookup(None, Some("/w".to_string())), Ok(SnapshotLookup::ByWorktree("/w".to_string())));
    assert_eq!(snapshot_lookup(None, None), Err("requests require snapshot_id or worktree_root".to_string()));
}

#[test]
fn blast_radius_requests_route_as_blast_radius_queries() {
    let payload = QueryPayload {
        snapshot_id: Some("snap".to_string()),
        worktree_root: None,
        query_mode: QueryMode::UnderstandSymbol,
        query_text: "sum".to_string(),
        symbol_path: None,
        limit: None,
        changed_paths: Vec::new(),
        include_history: false,
        history_max_nodes: None,
        eval_task_id: None,
        workflow_phase: Some(WorkflowPhase::Review),
    };
    let mut expected = payload.clone();
    expected.query_mode = QueryMode::BlastRadius;
    assert_eq!(route_request(DaemonRequest::BlastRadius(payload.clone())), DaemonRoute::Query(expected));
    assert_eq!(route_request(DaemonRequest::Query(payload.clone())), DaemonRoute::Query(payload));
    assert_eq!(route_request(DaemonRequest::Shutdown), DaemonRoute::Ack);
    assert_eq!(route_request(DaemonRequest::ReloadConfig), DaemonRoute::Reload);
}
