//! Retrieval requests: the query mode and the knobs of one retrieval.
use crate::chunking::types::{lit, opt_view};
use crate::worktree::WorktreeChanges;
use vstd::prelude::*;

verus! {

/// What the caller wants from a retrieval.
#[derive(Debug, Clone, Copy, PartialEq, Eq, Structural)]
pub enum QueryMode {
    UnderstandSymbol,
    ImplementAdjacent,
    BoundedRefactor,
    FindExamples,
    BlastRadius,
}

/// How many neighbouring chunks a mode gathers at most.
pub open spec fn mode_cap(m: QueryMode) -> usize {
    match m {
        QueryMode::UnderstandSymbol => 4,
        QueryMode::ImplementAdjacent => 6,
        QueryMode::BoundedRefactor => 8,
        QueryMode::FindExamples => 6,
        QueryMode::BlastRadius => 10,
    }
}

/// The wire and command-line spelling of a mode.
pub open spec fn mode_name(m: QueryMode) -> Seq<char> {
    match m {
        QueryMode::UnderstandSymbol => "understand-symbol"@,
        QueryMode::ImplementAdjacent => "implement-adjacent"@,
        QueryMode::BoundedRefactor => "bounded-refactor"@,
        QueryMode::FindExamples => "find-examples"@,
        QueryMode::BlastRadius => "blast-radius"@,
    }
}

impl QueryMode {
    pub fn neighborhood_cap(self) -> (r: usize)
        ensures
            r == mode_cap(self),
    {
        match self {
            QueryMode::UnderstandSymbol => 4,
            QueryMode::ImplementAdjacent => 6,
            QueryMode::BoundedRefactor => 8,
            QueryMode::FindExamples => 6,
            QueryMode::BlastRadius => 10,
        }
    }

    pub fn as_str(self) -> (r: &'static str)
        ensures
            r@ == mode_name(self),
    {
        match self {
            QueryMode::UnderstandSymbol => "understand-symbol",
            QueryMode::ImplementAdjacent => "implement-adjacent",
            QueryMode::BoundedRefactor => "bounded-refactor",
            QueryMode::FindExamples => "find-examples",
            QueryMode::BlastRadius => "blast-radius",
        }
    }
}

/// One retrieval: the snapshot, the mode and text of the query, an
/// optional symbol, the requested number of results, the worktree's
/// changes, whether history is consulted and how much of it, and the
/// evaluation task it belongs to.
#[derive(Debug, PartialEq, Eq)]
pub struct RetrievalRequest {
    pub snapshot_id: String,
    pub query_mode: QueryMode,
    pub query_text: String,
    pub symbol_path: Option<String>,
    pub limit: usize,
    pub worktree_changes: WorktreeChanges,
    pub include_history: bool,
    pub history_max_nodes: Option<usize>,
    pub eval_task_id: Option<String>,
}

impl RetrievalRequest {
    /// A request with the mode's cap as limit and no options set.
    pub fn new(snapshot_id: &str, query_mode: QueryMode, query_text: &str) -> (r: Self)
        ensures
            r.snapshot_id@ == snapshot_id@,
            r.query_mode == query_mode,
            r.query_text@ == query_text@,
            r.symbol_path is None,
            r.limit == mode_cap(query_mode),
            r.worktree_changes.changed().len() == 0,
            !r.include_history,
            r.history_max_nodes is None,
            r.eval_task_id is None,
    {
        RetrievalRequest {
            snapshot_id: lit(snapshot_id),
            query_mode,
            query_text: lit(query_text),
            symbol_path: None,
            limit: query_mode.neighborhood_cap(),
            worktree_changes: WorktreeChanges::empty(),
            include_history: false,
            history_max_nodes: None,
            eval_task_id: None,
        }
    }

    pub fn with_symbol_path(self, symbol_path: &str) -> (r: Self)
        ensures
            opt_view(r.symbol_path) == Some(symbol_path@),
            r.snapshot_id == self.snapshot_id,
            r.query_mode == self.query_mode,
            r.query_text == self.query_text,
            r.limit == self.limit,
            r.worktree_changes == self.worktree_changes,
            r.include_history == self.include_history,
            r.history_max_nodes == self.history_max_nodes,
            r.eval_task_id == self.eval_task_id,
    {
        RetrievalRequest { symbol_path: Some(lit(symbol_path)), ..self }
    }

    pub fn with_limit(self, limit: usize) -> (r: Self)
        ensures
            r == (RetrievalRequest { limit, ..self }),
    {
        RetrievalRequest { limit, ..self }
    }

    pub fn with_worktree_changes(self, worktree_changes: WorktreeChanges) -> (r: Self)
        ensures
            r == (RetrievalRequest { worktree_changes, ..self }),
    {
        RetrievalRequest { worktree_changes, ..self }
    }

    pub fn with_history(self, include_history: bool) -> (r: Self)
        ensures
            r == (RetrievalRequest { include_history, ..self }),
    {
        RetrievalRequest { include_history, ..self }
    }

    /// Bounds the history nodes, at least one.
    pub fn with_history_max_nodes(self, history_max_nodes: usize) -> (r: Self)
        ensures
            r == (RetrievalRequest {
                history_max_nodes: Some(if history_max_nodes < 1 { 1 } else { history_max_nodes }),
                ..self
            }),
    {
        let n = if history_max_nodes < 1 {
            1
        } else {
            history_max_nodes
        };
        RetrievalRequest { history_max_nodes: Some(n), ..self }
    }

    pub fn with_eval_task_id(self, eval_task_id: &str) -> (r: Self)
        ensures
            opt_view(r.eval_task_id) == Some(eval_task_id@),
            r.snapshot_id == self.snapshot_id,
            r.query_mode == self.query_mode,
            r.query_text == self.query_text,
            r.symbol_path == self.symbol_path,
            r.limit == self.limit,
            r.worktree_changes == self.worktree_changes,
            r.include_history == self.include_history,
            r.history_max_nodes == self.history_max_nodes,
    {
        RetrievalRequest { eval_task_id: Some(lit(eval_task_id)), ..self }
    }

    /// The number of results served: the requested limit, at least one and
    /// at most the mode's cap.
    pub fn effective_limit(&self) -> (r: usize)
        ensures
            r == (if self.limit < 1 {
                1
            } else if self.limit > mode_cap(self.query_mode) {
                mode_cap(self.query_mode)
            } else {
                self.limit
            }),
            1 <= r <= mode_cap(self.query_mode),
    {
        let cap = self.query_mode.neighborhood_cap();
        let l = if self.limit < 1 {
            1
        } else {
            self.limit
        };
        if l > cap {
            cap
        } else {
            l
        }
    }
}

} // verus!
