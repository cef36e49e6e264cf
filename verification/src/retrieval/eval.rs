//! Evaluation tasks: replaying a task as a query and scoring what came
//! back.
use crate::chunking::types::{clone_opt, lit, opt_view};
use crate::cli::{parse_query_mode, parse_query_mode_spec, EvalReplayCommand};
use crate::daemon::QueryPayload;
use crate::metadata::ChunkRecord;
use crate::text::{contains_seq, occurs_at, str_contains, str_equal, str_starts_with, views};
use vstd::prelude::*;

verus! {

/// A task of the evaluation set: a query, and the evidence an ideal or an
/// acceptable answer holds and the distractors it should avoid.
#[derive(Debug, Clone, PartialEq, Eq)]
pub struct EvalTaskFixture {
    pub task_id: String,
    pub revision: String,
    pub query_mode: String,
    pub query_text: String,
    pub symbol_path: Option<String>,
    pub ideal: Vec<String>,
    pub acceptable: Vec<String>,
    pub distractors: Vec<String>,
}

pub open spec fn mentions_history(items: Seq<Seq<char>>) -> bool {
    exists|i: int| 0 <= i < items.len() && occurs_at(#[trigger] items[i], "history:"@, 0)
}

fn any_history(items: &Vec<String>) -> (r: bool)
    ensures
        r == mentions_history(views(items@)),
{
    let mut i: usize = 0;
    while i < items.len()
        invariant
            0 <= i <= items@.len(),
            forall|k: int| 0 <= k < i ==> !occurs_at(#[trigger] views(items@)[k], "history:"@, 0),
        decreases items.len() - i,
    {
        if str_starts_with(items[i].as_str(), "history:") {
            assert(occurs_at(views(items@)[i as int], "history:"@, 0));
            return true;
        }
        i = i + 1;
    }
    false
}

/// The query replaying a task: its mode, text and symbol against the
/// command's snapshot or worktree, with history included when the command
/// asks for it or an ideal or acceptable item is a history item.
pub fn eval_task_to_payload(task: &EvalTaskFixture, command: &EvalReplayCommand) -> (r: QueryPayload)
    requires
        parse_query_mode_spec(task.query_mode@) is Ok,
    ensures
        opt_view(r.snapshot_id) == opt_view(command.snapshot_id),
        opt_view(r.worktree_root) == opt_view(command.worktree_root),
        r.query_mode == parse_query_mode_spec(task.query_mode@)->Ok_0,
        r.query_text@ == task.query_text@,
        opt_view(r.symbol_path) == opt_view(task.symbol_path),
        r.limit == command.limit,
        r.changed_paths@.len() == 0,
        r.include_history == (command.include_history || mentions_history(views(task.ideal@))
            || mentions_history(views(task.acceptable@))),
        r.history_max_nodes == command.history_max_nodes,
        opt_view(r.eval_task_id) == Some(task.task_id@),
        r.workflow_phase is None,
{
    let include_history = command.include_history || any_history(&task.ideal) || any_history(
        &task.acceptable,
    );
    let query_mode = match parse_query_mode(task.query_mode.as_str()) {
        Ok(m) => m,
        Err(_) => {
            return QueryPayload {
                snapshot_id: clone_opt(&command.snapshot_id),
                worktree_root: clone_opt(&command.worktree_root),
                query_mode: crate::retrieval::query::QueryMode::UnderstandSymbol,
                query_text: task.query_text.clone(),
                symbol_path: clone_opt(&task.symbol_path),
                limit: command.limit,
                changed_paths: Vec::new(),
                include_history,
                history_max_nodes: command.history_max_nodes,
                eval_task_id: Some(task.task_id.clone()),
                workflow_phase: None,
            };
        },
    };
    QueryPayload {
        snapshot_id: clone_opt(&command.snapshot_id),
        worktree_root: clone_opt(&command.worktree_root),
        query_mode,
        query_text: task.query_text.clone(),
        symbol_path: clone_opt(&task.symbol_path),
        limit: command.limit,
        changed_paths: Vec::new(),
        include_history,
        history_max_nodes: command.history_max_nodes,
        eval_task_id: Some(task.task_id.clone()),
        workflow_phase: None,
    }
}

/// A retrieved chunk matches a pattern when its id, file path, symbol path
/// or text contains it.
pub open spec fn chunk_matches(c: ChunkRecord, p: Seq<char>) -> bool {
    ||| contains_seq(c.chunk_id@, p)
    ||| contains_seq(c.file_path@, p)
    ||| (match opt_view(c.symbol_path) {
        Some(sp) => contains_seq(sp, p),
        None => false,
    })
    ||| contains_seq(c.text@, p)
}

pub open spec fn any_matches(items: Seq<ChunkRecord>, p: Seq<char>) -> bool {
    exists|i: int| 0 <= i < items.len() && chunk_matches(#[trigger] items[i], p)
}

fn chunk_matches_exec(c: &ChunkRecord, pattern: &str) -> (r: bool)
    ensures
        r == chunk_matches(*c, pattern@),
{
    str_contains(c.chunk_id.as_str(), pattern) || str_contains(c.file_path.as_str(), pattern)
        || match &c.symbol_path {
        Some(sp) => str_contains(sp.as_str(), pattern),
        None => false,
    } || str_contains(c.text.as_str(), pattern)
}

/// Whether any of the retrieved chunks matches the pattern.
pub fn item_matches_any_pattern(items: &[ChunkRecord], pattern: &str) -> (r: bool)
    ensures
        r == any_matches(items@, pattern@),
{
    let mut i: usize = 0;
    while i < items.len()
        invariant
            0 <= i <= items@.len(),
            forall|k: int| 0 <= k < i ==> !chunk_matches(#[trigger] items@[k], pattern@),
        decreases items.len() - i,
    {
        if chunk_matches_exec(&items[i], pattern) {
            return true;
        }
        i = i + 1;
    }
    false
}

/// The patterns some retrieved chunk matches, in order.
pub fn matched_patterns(items: &[ChunkRecord], patterns: &[String]) -> (r: Vec<String>)
    ensures
        views(r@) == views(patterns@).filter(|p: Seq<char>| any_matches(items@, p)),
{
    let ghost f = |p: Seq<char>| any_matches(items@, p);
    let ghost ps = views(patterns@);
    let mut out: Vec<String> = Vec::new();
    let mut i: usize = 0;
    assert(ps.take(0).filter(f) =~= Seq::<Seq<char>>::empty()) by {
        reveal(Seq::filter);
    }
    while i < patterns.len()
        invariant
            0 <= i <= patterns@.len(),
            ps == views(patterns@),
            f == (|p: Seq<char>| any_matches(items@, p)),
            views(out@) == ps.take(i as int).filter(f),
        decreases patterns.len() - i,
    {
        assert(ps.take(i + 1) =~= ps.take(i as int).push(ps[i as int]));
        proof {
            ps.take(i as int).lemma_filter_push(ps[i as int], f);
        }
        if item_matches_any_pattern(items, patterns[i].as_str()) {
            let ghost before = views(out@);
            out.push(patterns[i].clone());
            assert(views(out@) =~= before.push(ps[i as int]));
        }
        i = i + 1;
    }
    assert(ps.take(patterns@.len() as int) =~= ps);
    out
}

pub open spec fn is_history(c: ChunkRecord) -> bool {
    c.chunk_kind@ == "HistoryNode"@
}

pub open spec fn is_document(c: ChunkRecord) -> bool {
    c.chunk_kind@ == "DocumentBlock"@ || c.chunk_kind@ == "TaskRow"@ || exists|k: int|
        0 <= k < c.retrieval_markers@.len() && #[trigger] c.retrieval_markers@[k]@ == "document"@
}

pub open spec fn is_code(c: ChunkRecord) -> bool {
    !(c.chunk_kind@ == "HistoryNode"@ || c.chunk_kind@ == "DocumentBlock"@ || c.chunk_kind@ == "TaskRow"@)
}

/// The evidence classes of a replay's results: `history`, `document` and
/// `code`, each when some retrieved chunk is of that class, in that order.
pub open spec fn coverage_classes(items: Seq<ChunkRecord>) -> Seq<Seq<char>> {
    (if exists|i: int| 0 <= i < items.len() && is_history(#[trigger] items[i]) { seq!["history"@] } else { seq![] })
        + (if exists|i: int| 0 <= i < items.len() && is_document(#[trigger] items[i]) { seq!["document"@] } else { seq![] })
        + (if exists|i: int| 0 <= i < items.len() && is_code(#[trigger] items[i]) { seq!["code"@] } else { seq![] })
}

fn has_document_marker(c: &ChunkRecord) -> (r: bool)
    ensures
        r == exists|k: int| 0 <= k < c.retrieval_markers@.len() && #[trigger] c.retrieval_markers@[k]@ == "document"@,
{
    let mut i: usize = 0;
    while i < c.retrieval_markers.len()
        invariant
            0 <= i <= c.retrieval_markers@.len(),
            forall|k: int| 0 <= k < i ==> #[trigger] c.retrieval_markers@[k]@ != "document"@,
        decreases c.retrieval_markers.len() - i,
    {
        if str_equal(c.retrieval_markers[i].as_str(), "document") {
            return true;
        }
        i = i + 1;
    }
    false
}

pub fn evidence_class_coverage(items: &[ChunkRecord]) -> (r: Vec<String>)
    ensures
        views(r@) == coverage_classes(items@),
{
    let mut history = false;
    let mut document = false;
    let mut code = false;
    let mut i: usize = 0;
    while i < items.len()
        invariant
            0 <= i <= items@.len(),
            history == exists|k: int| 0 <= k < i && is_history(#[trigger] items@[k]),
            document == exists|k: int| 0 <= k < i && is_document(#[trigger] items@[k]),
            code == exists|k: int| 0 <= k < i && is_code(#[trigger] items@[k]),
        decreases items.len() - i,
    {
        let c = &items[i];
        let h = str_equal(c.chunk_kind.as_str(), "HistoryNode");
        let d = str_equal(c.chunk_kind.as_str(), "DocumentBlock") || str_equal(c.chunk_kind.as_str(), "TaskRow");
        let m = has_document_marker(c);
        if h {
            history = true;
        }
        if d || m {
            document = true;
        }
        if !(h || d) {
            code = true;
        }
        i = i + 1;
    }
    let mut out: Vec<String> = Vec::new();
    if history {
        out.push(lit("history"));
    }
    if document {
        out.push(lit("document"));
    }
    if code {
        out.push(lit("code"));
    }
    assert(views(out@) =~= coverage_classes(items@));
    out
}

/// The outcome of replaying one evaluation task.
#[derive(Debug, Clone, PartialEq, Eq)]
pub struct EvalReplayTaskReport {
    pub task_id: String,
    pub query_mode: String,
    pub query_text: String,
    pub result_count: usize,
    pub ideal_hits: usize,
    pub acceptable_hits: usize,
    pub distractor_hits: usize,
    pub matched_ideal: Vec<String>,
    pub matched_acceptable: Vec<String>,
    pub matched_distractors: Vec<String>,
    pub evidence_class_coverage: Vec<String>,
    pub warnings: Vec<String>,
}

pub open spec fn matched_spec(items: Seq<ChunkRecord>, patterns: Seq<Seq<char>>) -> Seq<Seq<char>> {
    patterns.filter(|p: Seq<char>| any_matches(items, p))
}

/// The report of a task whose query returned `items` and `warnings`: which
/// of its ideal, acceptable and distractor patterns some item matches, how
/// many, and the evidence classes of the items.
pub fn eval_task_report(task: &EvalTaskFixture, items: &[ChunkRecord], warnings: Vec<String>) -> (r: EvalReplayTaskReport)
    ensures
        r.task_id@ == task.task_id@,
        r.query_mode@ == task.query_mode@,
        r.query_text@ == task.query_text@,
        r.result_count == items@.len(),
        views(r.matched_ideal@) == matched_spec(items@, views(task.ideal@)),
        views(r.matched_acceptable@) == matched_spec(items@, views(task.acceptable@)),
        views(r.matched_distractors@) == matched_spec(items@, views(task.distractors@)),
        r.ideal_hits == r.matched_ideal@.len(),
        r.acceptable_hits == r.matched_acceptable@.len(),
        r.distractor_hits == r.matched_distractors@.len(),
        views(r.evidence_class_coverage@) == coverage_classes(items@),
        r.warnings == warnings,
{
    let matched_ideal = matched_patterns(items, task.ideal.as_slice());
    let matched_acceptable = matched_patterns(items, task.acceptable.as_slice());
    let matched_distractors = matched_patterns(items, task.distractors.as_slice());
    EvalReplayTaskReport {
        task_id: task.task_id.clone(),
        query_mode: task.query_mode.clone(),
        query_text: task.query_text.clone(),
        result_count: items.len(),
        ideal_hits: matched_ideal.len(),
        acceptable_hits: matched_acceptable.len(),
        distractor_hits: matched_distractors.len(),
        matched_ideal,
        matched_acceptable,
        matched_distractors,
        evidence_class_coverage: evidence_class_coverage(items),
        warnings,
    }
}

/// How many tasks found an ideal item, an ideal or acceptable item, and a
/// distractor; the hit rates are these over the number of tasks.
#[derive(Debug, Clone, Copy, PartialEq, Eq)]
pub struct EvalTally {
    pub task_count: usize,
    pub ideal_task_hits: usize,
    pub acceptable_task_hits: usize,
    pub distractor_task_hits: usize,
}

pub open spec fn count_where(rs: Seq<EvalReplayTaskReport>, n: int, p: spec_fn(EvalReplayTaskReport) -> bool) -> nat
    decreases n,
{
    if n <= 0 || n > rs.len() {
        0
    } else {
        count_where(rs, n - 1, p) + if p(rs[n - 1]) {
            1nat
        } else {
            0nat
        }
    }
}

pub open spec fn ideal_hit(r: EvalReplayTaskReport) -> bool {
    r.ideal_hits > 0
}

pub open spec fn acceptable_hit(r: EvalReplayTaskReport) -> bool {
    r.ideal_hits > 0 || r.acceptable_hits > 0
}

pub open spec fn distractor_hit(r: EvalReplayTaskReport) -> bool {
    r.distractor_hits > 0
}

pub fn tally_eval_reports(reports: &[EvalReplayTaskReport]) -> (r: EvalTally)
    ensures
        r.task_count == reports@.len(),
        r.ideal_task_hits == count_where(reports@, reports@.len() as int, |x: EvalReplayTaskReport| ideal_hit(x)),
        r.acceptable_task_hits == count_where(reports@, reports@.len() as int, |x: EvalReplayTaskReport| acceptable_hit(x)),
        r.distractor_task_hits == count_where(reports@, reports@.len() as int, |x: EvalReplayTaskReport| distractor_hit(x)),
{
    let ghost fi = |x: EvalReplayTaskReport| ideal_hit(x);
    let ghost fa = |x: EvalReplayTaskReport| acceptable_hit(x);
    let ghost fd = |x: EvalReplayTaskReport| distractor_hit(x);
    let mut ideal: usize = 0;
    let mut acceptable: usize = 0;
    let mut distractor: usize = 0;
    let mut i: usize = 0;
    while i < reports.len()
        invariant
            0 <= i <= reports@.len(),
            fi == (|x: EvalReplayTaskReport| ideal_hit(x)),
            fa == (|x: EvalReplayTaskReport| acceptable_hit(x)),
            fd == (|x: EvalReplayTaskReport| distractor_hit(x)),
            ideal == count_where(reports@, i as int, fi),
            acceptable == count_where(reports@, i as int, fa),
            distractor == count_where(reports@, i as int, fd),
            ideal <= i,
            acceptable <= i,
            distractor <= i,
        decreases reports.len() - i,
    {
        let r = &reports[i];
        if r.ideal_hits > 0 {
            ideal = ideal + 1;
        }
        if r.ideal_hits > 0 || r.acceptable_hits > 0 {
            acceptable = acceptable + 1;
        }
        if r.distractor_hits > 0 {
            distractor = distractor + 1;
        }
        i = i + 1;
    }
    EvalTally {
        task_count: reports.len(),
        ideal_task_hits: ideal,
        acceptable_task_hits: acceptable,
        distractor_task_hits: distractor,
    }
}

} // verus!
