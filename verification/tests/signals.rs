use rarag::cli::EvalReplayCommand;
use rarag::config::DocumentSourcesConfig;
use rarag::daemon::QueryPayload;
use rarag::metadata::ChunkRecord;
use rarag::retrieval::eval::{
    eval_task_report, eval_task_to_payload, item_matches_any_pattern, matched_patterns, tally_eval_reports,
    EvalTally, EvalTaskFixture,
};
use rarag::retrieval::query::QueryMode;
use rarag::retrieval::signals::{
    backfill_document_rank_weights, classify_doc_weight_from_path, evidence_class_coverage, is_example_like,
    is_example_or_test_chunk, is_test_like, same_file_neighbor,
};

fn record(id: &str, kind: &str, file: &str, markers: &[&str], text: &str) -> ChunkRecord {
    ChunkRecord {
        chunk_id: id.to_string(),
        snapshot_id: "snap".to_string(),
        chunk_kind: kind.to_string(),
        symbol_path: Some(format!("demo::{id}")),
        symbol_name: None,
        owning_symbol_header: None,
        docs_text: None,
        signature_text: None,
        parent_symbol_path: None,
        retrieval_markers: markers.iter().map(|m| m.to_string()).collect(),
        repository_state_hints: Vec::new(),
        file_path: file.to_string(),
        start_byte: 0,
        end_byte: text.len() as u32,
        text: text.to_string(),
    }
}

#[test]
fn test_and_example_evidence_is_recognised() {
    let test_fn = record("t", "TestFunction", "src/lib.rs", &[], "fn t() {}");
    let marked = record("m", "Symbol", "tests/it.rs", &["test"], "fn m() {}");
    let doctest = record("d", "Doctest", "src/lib.rs", &[], "demo::run();");
    let example = record("e", "ExampleFile", "examples/demo.rs", &[], "fn main() {}");
    let plain = record("p", "Symbol", "src/lib.rs", &["src"], "fn p() {}");

    assert!(is_test_like(&test_fn));
    assert!(is_test_like(&marked));
    assert!(!is_test_like(&example));
    assert!(!is_test_like(&plain));

    for chunk in [&test_fn, &marked, &doctest, &example] {
        assert!(is_example_like(chunk));
        assert!(is_example_or_test_chunk(chunk));
    }
    assert!(!is_example_like(&plain));
    assert!(!is_example_or_test_chunk(&plain));
}

#[test]
fn same_file_neighbors_exclude_the_seed_itself() {
    let seed = record("a", "Symbol", "src/lib.rs", &[], "fn a() {}");
    let sibling = record("b", "Symbol", "src/lib.rs", &[], "fn b() {}");
    let elsewhere = record("c", "Symbol", "src/other.rs", &[], "fn c() {}");
    let seeds = vec![seed.clone()];

    assert!(same_file_neighbor(&seeds, &sibling));
    assert!(!same_file_neighbor(&seeds, &seed));
    assert!(!same_file_neighbor(&seeds, &elsewhere));
    assert!(!same_file_neighbor(&[], &sibling));
}

#[test]
fn evidence_classes_are_listed_once_in_order() {
    let items = vec![
        record("a", "Symbol", "src/lib.rs", &[], "a"),
        record("b", "TaskRow", "docs/tasks/tasks.csv", &[], "b"),
        record("c", "TestFunction", "src/lib.rs", &[], "c"),
        record("d", "HistoryNode", "history", &[], "d"),
        record("e", "DocumentBlock", "docs/specs/a.md", &[], "e"),
    ];
    assert_eq!(evidence_class_coverage(&items), vec!["code", "document", "history"]);
    assert!(evidence_class_coverage(&[]).is_empty());
}

#[test]
fn document_weights_follow_the_first_matching_rule() {
    let mut rules = DocumentSourcesConfig::default().rules;
    rules[0].weight_milli = 1250;

    assert_eq!(classify_doc_weight_from_path("docs/specs/query.md", &rules), Some(1250));
    assert_eq!(classify_doc_weight_from_path("docs\\specs\\query.md", &rules), Some(1250));
    assert_eq!(classify_doc_weight_from_path("CHANGELOG.md", &rules), Some(1000));
    assert_eq!(classify_doc_weight_from_path("src/lib.rs", &rules), None);
}

#[test]
fn backfill_adds_weight_markers_to_unweighted_documents_only() {
    let mut rules = DocumentSourcesConfig::default().rules;
    rules[1].weight_milli = 750;
    let mut chunks = vec![
        record("plan", "DocumentBlock", "docs/plans/p.md", &["document", "plan"], "plan"),
        record("spec", "DocumentBlock", "docs/specs/s.md", &["document", "doc_rank_weight:2.000"], "spec"),
        record("code", "Symbol", "docs/plans/p.md", &["src"], "code"),
        record("misc", "DocumentBlock", "notes/n.md", &["document"], "misc"),
    ];
    backfill_document_rank_weights(&mut chunks, &rules);

    assert_eq!(chunks[0].retrieval_markers, vec!["document", "plan", "doc_rank_weight:0.750"]);
    assert_eq!(chunks[1].retrieval_markers, vec!["document", "doc_rank_weight:2.000"]);
    assert_eq!(chunks[2].retrieval_markers, vec!["src"]);
    assert_eq!(chunks[3].retrieval_markers, vec!["document"]);
    assert_eq!(chunks[0].text, "plan");
}

fn task(ideal: &[&str], acceptable: &[&str]) -> EvalTaskFixture {
    EvalTaskFixture {
        task_id: "task-1".to_string(),
        revision: "abc123".to_string(),
        query_mode: "bounded-refactor".to_string(),
        query_text: "rename example_sum".to_string(),
        symbol_path: Some("mini_repo::example_sum".to_string()),
        ideal: ideal.iter().map(|s| s.to_string()).collect(),
        acceptable: acceptable.iter().map(|s| s.to_string()).collect(),
        distractors: vec!["src/unrelated.rs".to_string()],
    }
}

fn replay(include_history: bool) -> EvalReplayCommand {
    EvalReplayCommand {
        fixtures_path: "tests/fixtures/eval".to_string(),
        snapshot_id: Some("snap-1".to_string()),
        worktree_root: None,
        include_history,
        history_max_nodes: Some(4),
        limit: Some(6),
    }
}

#[test]
fn eval_task_becomes_a_query_payload() {
    let payload = eval_task_to_payload(&task(&["src/lib.rs"], &[]), &replay(false));
    assert_eq!(
        payload,
        QueryPayload {
            snapshot_id: Some("snap-1".to_string()),
            worktree_root: None,
            query_mode: QueryMode::BoundedRefactor,
            query_text: "rename example_sum".to_string(),
            symbol_path: Some("mini_repo::example_sum".to_string()),
            limit: Some(6),
            changed_paths: Vec::new(),
            include_history: false,
            history_max_nodes: Some(4),
            eval_task_id: Some("task-1".to_string()),
            workflow_phase: None,
        }
    );
}

#[test]
fn eval_payload_includes_history_when_asked_or_expected() {
    assert!(eval_task_to_payload(&task(&["src/lib.rs"], &[]), &replay(true)).include_history);
    assert!(eval_task_to_payload(&task(&["history:abc"], &[]), &replay(false)).include_history);
    assert!(eval_task_to_payload(&task(&[], &["history:def"]), &replay(false)).include_history);
    assert!(!eval_task_to_payload(&task(&["src/history.rs"], &[]), &replay(false)).include_history);
}

#[test]
fn patterns_match_ids_paths_symbols_or_text() {
    let items = vec![
        record("chunk-1", "Symbol", "src/lib.rs", &[], "pub fn example_sum() {}"),
        record("chunk-2", "TestFunction", "tests/sum.rs", &[], "fn smoke() {}"),
    ];
    assert!(item_matches_any_pattern(&items, "chunk-2"));
    assert!(item_matches_any_pattern(&items, "tests/sum"));
    assert!(item_matches_any_pattern(&items, "demo::chunk-1"));
    assert!(item_matches_any_pattern(&items, "example_sum"));
    assert!(!item_matches_any_pattern(&items, "missing"));

    let patterns = vec!["missing".to_string(), "smoke".to_string(), "src/lib.rs".to_string()];
    assert_eq!(matched_patterns(&items, &patterns), vec!["smoke", "src/lib.rs"]);
}

#[test]
fn eval_task_reports_count_matches_and_tally() {
    let items = vec![
        record("chunk-1", "Symbol", "src/lib.rs", &[], "pub fn example_sum() {}"),
        record("h", "HistoryNode", "history/h", &["history"], "fix"),
    ];
    let mut fixture = task(&["example_sum", "nowhere"], &["src/lib.rs"]);
    fixture.distractors = vec!["src/unrelated.rs".to_string()];
    let report = eval_task_report(&fixture, &items, vec!["w".to_string()]);
    assert_eq!(report.task_id, "task-1");
    assert_eq!(report.result_count, 2);
    assert_eq!(report.matched_ideal, vec!["example_sum"]);
    assert_eq!(report.ideal_hits, 1);
    assert_eq!(report.acceptable_hits, 1);
    assert_eq!(report.distractor_hits, 0);
    assert_eq!(report.evidence_class_coverage, vec!["history", "code"]);
    assert_eq!(report.warnings, vec!["w"]);

    let empty = eval_task_report(&task(&["x"], &[]), &[], Vec::new());
    assert_eq!(empty.ideal_hits, 0);
    assert!(empty.evidence_class_coverage.is_empty());
    assert_eq!(
        tally_eval_reports(&[report, empty]),
        EvalTally { task_count: 2, ideal_task_hits: 1, acceptable_task_hits: 1, distractor_task_hits: 0 }
    );
}
