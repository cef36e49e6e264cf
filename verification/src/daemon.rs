//! Requests to the daemon and the plain parts of its answers.
use crate::chunking::types::{lit, opt_view};
use crate::retrieval::query::{mode_cap, QueryMode, RetrievalRequest};
use crate::snapshot::{SnapshotKey, SnapshotKeyView};
use crate::sorted::strictly_sorted;
use crate::text::{str_equal, views};
use crate::worktree::{normalize_path_spec, WorktreeChanges};
use vstd::prelude::*;

verus! {

/// A request to the daemon.
#[derive(Debug, Clone, PartialEq, Eq)]
pub enum DaemonRequest {
    Status { snapshot_id: Option<String>, worktree_root: Option<String> },
    IndexWorkspace { snapshot: SnapshotKey, workspace_root: String, max_body_bytes: usize },
    Query(QueryPayload),
    BlastRadius(QueryPayload),
    ReloadConfig,
    Shutdown,
}

/// The step of the agent's workflow that a query is made in.
#[derive(Debug, Clone, Copy, PartialEq, Eq, Structural)]
pub enum WorkflowPhase {
    Spec,
    Plan,
    Execute,
    Verify,
    Review,
}

/// The phase spelled `v` (`spec`, `plan`, `execute`, `verify` or
/// `review`), if any.
pub open spec fn phase_named(v: Seq<char>) -> Option<WorkflowPhase> {
    if v == "spec"@ {
        Some(WorkflowPhase::Spec)
    } else if v == "plan"@ {
        Some(WorkflowPhase::Plan)
    } else if v == "execute"@ {
        Some(WorkflowPhase::Execute)
    } else if v == "verify"@ {
        Some(WorkflowPhase::Verify)
    } else if v == "review"@ {
        Some(WorkflowPhase::Review)
    } else {
        None
    }
}

/// The phase a command-line or tool argument spells.
pub fn parse_workflow_phase(value: &str) -> (r: Option<WorkflowPhase>)
    ensures
        r == phase_named(value@),
{
    if str_equal(value, "spec") {
        Some(WorkflowPhase::Spec)
    } else if str_equal(value, "plan") {
        Some(WorkflowPhase::Plan)
    } else if str_equal(value, "execute") {
        Some(WorkflowPhase::Execute)
    } else if str_equal(value, "verify") {
        Some(WorkflowPhase::Verify)
    } else if str_equal(value, "review") {
        Some(WorkflowPhase::Review)
    } else {
        None
    }
}

/// A query as sent to the daemon: the snapshot is named directly or
/// through its worktree root; the workflow phase, when given, travels
/// with the request.
#[derive(Debug, Clone, PartialEq, Eq)]
pub struct QueryPayload {
    pub snapshot_id: Option<String>,
    pub worktree_root: Option<String>,
    pub query_mode: QueryMode,
    pub query_text: String,
    pub symbol_path: Option<String>,
    pub limit: Option<usize>,
    pub changed_paths: Vec<String>,
    pub include_history: bool,
    pub history_max_nodes: Option<usize>,
    pub eval_task_id: Option<String>,
    pub workflow_phase: Option<WorkflowPhase>,
}

pub struct QueryPayloadView {
    pub snapshot_id: Option<Seq<char>>,
    pub worktree_root: Option<Seq<char>>,
    pub query_mode: QueryMode,
    pub query_text: Seq<char>,
    pub symbol_path: Option<Seq<char>>,
    pub limit: Option<usize>,
    pub changed_paths: Seq<Seq<char>>,
    pub include_history: bool,
    pub history_max_nodes: Option<usize>,
    pub eval_task_id: Option<Seq<char>>,
    pub workflow_phase: Option<WorkflowPhase>,
}

impl View for QueryPayload {
    type V = QueryPayloadView;

    open spec fn view(&self) -> QueryPayloadView {
        QueryPayloadView {
            snapshot_id: opt_view(self.snapshot_id),
            worktree_root: opt_view(self.worktree_root),
            query_mode: self.query_mode,
            query_text: self.query_text@,
            symbol_path: opt_view(self.symbol_path),
            limit: self.limit,
            changed_paths: views(self.changed_paths@),
            include_history: self.include_history,
            history_max_nodes: self.history_max_nodes,
            eval_task_id: opt_view(self.eval_task_id),
            workflow_phase: self.workflow_phase,
        }
    }
}

pub enum DaemonRequestView {
    Status { snapshot_id: Option<Seq<char>>, worktree_root: Option<Seq<char>> },
    IndexWorkspace { snapshot: SnapshotKeyView, workspace_root: Seq<char>, max_body_bytes: usize },
    Query(QueryPayloadView),
    BlastRadius(QueryPayloadView),
    ReloadConfig,
    Shutdown,
}

impl View for DaemonRequest {
    type V = DaemonRequestView;

    open spec fn view(&self) -> DaemonRequestView {
        match self {
            DaemonRequest::Status { snapshot_id, worktree_root } => DaemonRequestView::Status {
                snapshot_id: opt_view(*snapshot_id),
                worktree_root: opt_view(*worktree_root),
            },
            DaemonRequest::IndexWorkspace { snapshot, workspace_root, max_body_bytes } =>
                DaemonRequestView::IndexWorkspace {
                snapshot: snapshot@,
                workspace_root: workspace_root@,
                max_body_bytes: *max_body_bytes,
            },
            DaemonRequest::Query(p) => DaemonRequestView::Query(p@),
            DaemonRequest::BlastRadius(p) => DaemonRequestView::BlastRadius(p@),
            DaemonRequest::ReloadConfig => DaemonRequestView::ReloadConfig,
            DaemonRequest::Shutdown => DaemonRequestView::Shutdown,
        }
    }
}

pub open spec fn locator_error() -> Seq<char> {
    "query requests require snapshot_id or worktree_root"@
}

impl QueryPayload {
    /// A query must name its snapshot or its worktree.
    pub fn validate_locator(&self) -> (r: Result<(), String>)
        ensures
            r is Ok <==> (self.snapshot_id is Some || self.worktree_root is Some),
            r is Err ==> r->Err_0@ == locator_error(),
    {
        if self.snapshot_id.is_some() || self.worktree_root.is_some() {
            Ok(())
        } else {
            Err(lit("query requests require snapshot_id or worktree_root"))
        }
    }

    /// The retrieval this query asks for against snapshot `snapshot_id`:
    /// unset options keep the request's defaults, the changed paths become
    /// the worktree's change set, and a history bound is at least one.
    pub fn into_retrieval_request(self, snapshot_id: String) -> (r: RetrievalRequest)
        ensures
            r.snapshot_id@ == snapshot_id@,
            r.query_mode == self.query_mode,
            r.query_text@ == self.query_text@,
            opt_view(r.symbol_path) == opt_view(self.symbol_path),
            r.limit == match self.limit {
                Some(l) => l,
                None => mode_cap(self.query_mode),
            },
            strictly_sorted(r.worktree_changes.changed()),
            r.worktree_changes.changed().to_set() == views(self.changed_paths@).map_values(
                |p: Seq<char>| normalize_path_spec(p),
            ).to_set(),
            r.include_history == self.include_history,
            r.history_max_nodes == match self.history_max_nodes {
                Some(h) => Some(if h < 1 { 1 } else { h }),
                None => None,
            },
            opt_view(r.eval_task_id) == opt_view(self.eval_task_id),
    {
        let mut request = RetrievalRequest::new(
            snapshot_id.as_str(),
            self.query_mode,
            self.query_text.as_str(),
        );
        if let Some(symbol_path) = &self.symbol_path {
            request = request.with_symbol_path(symbol_path.as_str());
        }
        if let Some(limit) = self.limit {
            request = request.with_limit(limit);
        }
        if self.changed_paths.len() > 0 {
            request = request.with_worktree_changes(WorktreeChanges::from_paths(self.changed_paths.as_slice()));
        } else {
            assert(views(self.changed_paths@).map_values(|p: Seq<char>| normalize_path_spec(p)).to_set()
                =~= Set::<Seq<char>>::empty());
            assert(request.worktree_changes.changed().to_set() =~= Set::<Seq<char>>::empty()) by {
                assert(request.worktree_changes.changed() =~= Seq::<Seq<char>>::empty());
            }
        }
        if self.include_history {
            request = request.with_history(true);
        }
        if let Some(history_max_nodes) = self.history_max_nodes {
            request = request.with_history_max_nodes(history_max_nodes);
        }
        if let Some(eval_task_id) = &self.eval_task_id {
            request = request.with_eval_task_id(eval_task_id.as_str());
        }
        request
    }
}

/// What the daemon reports on a status request.
#[derive(Debug, Clone, PartialEq, Eq)]
pub struct StatusPayload {
    pub resolved_snapshot_id: Option<String>,
    pub warnings: Vec<String>,
}

#[derive(Debug, Clone, PartialEq, Eq)]
pub struct IndexResponse {
    pub snapshot_id: String,
    pub chunk_count: usize,
    pub warnings: Vec<String>,
}

#[derive(Debug, Clone, PartialEq, Eq)]
pub struct ReloadResponse {
    pub generation: u64,
    pub source_path: Option<String>,
}

#[derive(Debug, Clone, PartialEq, Eq)]
pub struct ErrorResponse {
    pub message: String,
}

/// How a request's snapshot is found: named directly, or looked up as the
/// latest snapshot of a worktree.
#[derive(Debug, Clone, PartialEq, Eq)]
pub enum SnapshotLookup {
    Known(String),
    ByWorktree(String),
}

/// The snapshot id wins over the worktree root; a request with neither is
/// refused.
pub fn snapshot_lookup(snapshot_id: Option<String>, worktree_root: Option<String>) -> (r: Result<SnapshotLookup, String>)
    ensures
        match (snapshot_id, worktree_root) {
            (Some(id), _) => r == Ok::<SnapshotLookup, String>(SnapshotLookup::Known(id)),
            (None, Some(w)) => r == Ok::<SnapshotLookup, String>(SnapshotLookup::ByWorktree(w)),
            (None, None) => r is Err && r->Err_0@ == "requests require snapshot_id or worktree_root"@,
        },
{
    match (snapshot_id, worktree_root) {
        (Some(id), _) => Ok(SnapshotLookup::Known(id)),
        (None, Some(w)) => Ok(SnapshotLookup::ByWorktree(w)),
        (None, None) => Err(lit("requests require snapshot_id or worktree_root")),
    }
}

/// What the daemon does with a request.
#[derive(Debug, Clone, PartialEq, Eq)]
pub enum DaemonRoute {
    /// Resolve the snapshot and report it.
    Status { snapshot_id: Option<String>, worktree_root: Option<String> },
    /// Index the workspace into this snapshot.
    Index { snapshot: SnapshotKey, workspace_root: String, max_body_bytes: usize },
    /// Run this query.
    Query(QueryPayload),
    /// Reload the configuration.
    Reload,
    /// Acknowledge.
    Ack,
}

/// A blast-radius request is a query in blast-radius mode; a shutdown
/// request is acknowledged.
pub fn route_request(request: DaemonRequest) -> (r: DaemonRoute)
    ensures
        match request {
            DaemonRequest::Status { snapshot_id, worktree_root } => r == DaemonRoute::Status { snapshot_id, worktree_root },
            DaemonRequest::IndexWorkspace { snapshot, workspace_root, max_body_bytes } => r == DaemonRoute::Index {
                snapshot,
                workspace_root,
                max_body_bytes,
            },
            DaemonRequest::Query(p) => r == DaemonRoute::Query(p),
            DaemonRequest::BlastRadius(p) => r == DaemonRoute::Query(QueryPayload { query_mode: QueryMode::BlastRadius, ..p }),
            DaemonRequest::ReloadConfig => r == DaemonRoute::Reload,
            DaemonRequest::Shutdown => r == DaemonRoute::Ack,
        },
{
    match request {
        DaemonRequest::Status { snapshot_id, worktree_root } => DaemonRoute::Status { snapshot_id, worktree_root },
        DaemonRequest::IndexWorkspace { snapshot, workspace_root, max_body_bytes } => DaemonRoute::Index {
            snapshot,
            workspace_root,
            max_body_bytes,
        },
        DaemonRequest::Query(p) => DaemonRoute::Query(p),
        DaemonRequest::BlastRadius(mut p) => {
            p.query_mode = QueryMode::BlastRadius;
            DaemonRoute::Query(p)
        },
        DaemonRequest::ReloadConfig => DaemonRoute::Reload,
        DaemonRequest::Shutdown => DaemonRoute::Ack,
    }
}

} // verus!
