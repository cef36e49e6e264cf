use rarag::metadata::{ChunkRecord, EdgeRecord, HistoryNodeRecord, LineageEdgeRecord};
use rarag::retrieval::neighborhood::{assemble_neighborhood, NeighborhoodWeight};
use rarag::retrieval::query::{QueryMode, RetrievalRequest};
use rarag::retrieval::rerank::{
    query_mode_bias, rerank_candidates, BiasTerm, Candidate, RerankWeight, ScoreSource,
};
use rarag::retrieval::retriever::{
    hit_candidates, history_candidates, retrieval_warnings, seeds_found, to_ascii_lower,
};
use rarag::worktree::WorktreeChanges;

fn chunk(chunk_id: &str, chunk_kind: &str, file_path: &str, markers: &[&str]) -> ChunkRecord {
    ChunkRecord {
        chunk_id: chunk_id.to_string(),
        snapshot_id: "snapshot-1".to_string(),
        chunk_kind: chunk_kind.to_string(),
        symbol_path: Some(format!("mini_repo::{chunk_id}")),
        symbol_name: Some(chunk_id.to_string()),
        owning_symbol_header: None,
        docs_text: Some(String::new()),
        signature_text: Some(String::new()),
        parent_symbol_path: None,
        retrieval_markers: markers.iter().map(|item| item.to_string()).collect(),
        repository_state_hints: Vec::new(),
        file_path: file_path.to_string(),
        start_byte: 0,
        end_byte: 10,
        text: chunk_id.to_string(),
    }
}

fn semantic_edge(from_chunk_id: &str, to_chunk_id: &str, edge_kind: &str) -> EdgeRecord {
    EdgeRecord {
        edge_id: format!("{from_chunk_id}-{to_chunk_id}-{edge_kind}"),
        snapshot_id: "snapshot-1".to_string(),
        from_chunk_id: from_chunk_id.to_string(),
        to_chunk_id: to_chunk_id.to_string(),
        edge_kind: edge_kind.to_string(),
        from_symbol_path: Some(format!("mini_repo::{from_chunk_id}")),
        to_symbol_path: Some(format!("mini_repo::{to_chunk_id}")),
    }
}

fn ids(values: &[&str]) -> Vec<String> {
    values.iter().map(|v| v.to_string()).collect()
}

#[test]
fn exact_symbol_seed_comes_first() {
    let seed = chunk("seed", "Symbol", "src/lib.rs", &[]);
    let request =
        RetrievalRequest::new("snapshot-1", QueryMode::UnderstandSymbol, "seed").with_symbol_path("mini_repo::seed");
    let candidates = assemble_neighborhood(&request, &[seed], &ids(&["seed"]), &[]);
    assert_eq!(candidates.len(), 1);
    assert_eq!(candidates[0].chunk, 0);
    assert_eq!(candidates[0].source, ScoreSource::Neighborhood(NeighborhoodWeight::ExactSymbol));
    assert_eq!(candidates[0].evidence, vec!["exact_symbol"]);
}

#[test]
fn semantic_impl_edge_scores_by_mode() {
    let seed = chunk("seed", "Symbol", "src/lib.rs", &[]);
    let neighbor = chunk("impl", "Symbol", "src/impl.rs", &[]);
    let request =
        RetrievalRequest::new("snapshot-1", QueryMode::BoundedRefactor, "seed").with_symbol_path("mini_repo::seed");
    let candidates = assemble_neighborhood(
        &request,
        &[seed, neighbor],
        &ids(&["seed"]),
        &[semantic_edge("seed", "impl", "implementation")],
    );
    let candidate = candidates.iter().find(|c| c.chunk == 1).expect("semantic impl candidate");
    assert_eq!(
        candidate.source,
        ScoreSource::Neighborhood(NeighborhoodWeight::SemanticImpl(QueryMode::BoundedRefactor))
    );
    assert_eq!(candidate.evidence, vec!["semantic_impl"]);
}

#[test]
fn neighbors_by_file_text_tests_and_module() {
    let mut seed = chunk("seed", "Symbol", "src/lib.rs", &[]);
    seed.symbol_path = Some("mini_repo::util::seed".to_string());
    let sibling = chunk("sibling", "Symbol", "src/lib.rs", &[]);
    let mut caller = chunk("caller", "Symbol", "src/other.rs", &[]);
    caller.text = "fn caller() { seed(); }".to_string();
    let mut test = chunk("t", "TestFunction", "tests/it.rs", &[]);
    test.text = "seed()".to_string();
    let mut module = chunk("m", "ModuleSummary", "src/util.rs", &[]);
    module.symbol_path = Some("mini_repo::util".to_string());
    let pool = vec![seed, sibling, caller, test, module];

    let understand = RetrievalRequest::new("s", QueryMode::UnderstandSymbol, "x")
        .with_symbol_path("mini_repo::util::seed");
    let got: Vec<(usize, Vec<String>)> = assemble_neighborhood(&understand, &pool, &ids(&["seed"]), &[])
        .into_iter()
        .map(|c| (c.chunk, c.evidence))
        .collect();
    assert_eq!(
        got,
        vec![
            (0, ids(&["exact_symbol"])),
            (1, ids(&["same_file"])),
            (2, ids(&["text_reference"])),
            (3, ids(&["text_reference"])),
            (4, ids(&["module_context"])),
        ]
    );

    let refactor = RetrievalRequest::new("s", QueryMode::BoundedRefactor, "x").with_symbol_path("mini_repo::util::seed");
    let candidates = assemble_neighborhood(&refactor, &pool, &ids(&["seed"]), &[]);
    let test_sources: Vec<ScoreSource> = candidates.iter().filter(|c| c.chunk == 3).map(|c| c.source).collect();
    assert_eq!(
        test_sources,
        vec![
            ScoreSource::Neighborhood(NeighborhoodWeight::TextReferenceBoundedRefactorTestLike),
            ScoreSource::Neighborhood(NeighborhoodWeight::TestNeighborBoundedRefactor),
        ]
    );
}

fn candidate(chunk: usize, source: ScoreSource, evidence: &[&str]) -> Candidate {
    Candidate { chunk, source, evidence: ids(evidence) }
}

#[test]
fn symbol_chunks_get_the_symbol_bias() {
    let pool = vec![chunk("body", "BodyRegion", "src/lib.rs", &[]), chunk("symbol", "Symbol", "src/lib.rs", &[])];
    let items = rerank_candidates(
        QueryMode::UnderstandSymbol,
        &WorktreeChanges::empty(),
        &pool,
        &[
            candidate(0, ScoreSource::LexicalHit(0), &["lexical_bm25"]),
            candidate(1, ScoreSource::LexicalHit(1), &["lexical_bm25"]),
        ],
    );
    assert_eq!(items.len(), 2);
    assert!(items[0].query_mode_bias.is_empty());
    assert_eq!(items[1].query_mode_bias, vec![BiasTerm::Weight(RerankWeight::UnderstandSymbolSymbol)]);
    assert!(!items[1].matched_worktree);
    assert_eq!(items[1].worktree_diff_bias, None);
}

#[test]
fn candidates_of_one_chunk_merge() {
    let pool = vec![
        chunk("a", "Symbol", "src/lib.rs", &[]),
        chunk("b", "Symbol", "src/changed.rs", &[]),
        chunk("a", "Symbol", "src/copy.rs", &[]),
    ];
    let changes = WorktreeChanges::from_paths(&ids(&["src/changed.rs"]));
    let items = rerank_candidates(
        QueryMode::BlastRadius,
        &changes,
        &pool,
        &[
            candidate(0, ScoreSource::Neighborhood(NeighborhoodWeight::SameFile), &["same_file"]),
            candidate(1, ScoreSource::VectorHit(0), &["semantic_vector"]),
            candidate(2, ScoreSource::LexicalHit(3), &["lexical_bm25", "same_file"]),
        ],
    );
    assert_eq!(items.len(), 2);
    assert_eq!(items[0].chunk, 0);
    assert_eq!(
        items[0].sources,
        vec![ScoreSource::Neighborhood(NeighborhoodWeight::SameFile), ScoreSource::LexicalHit(3)]
    );
    assert_eq!(items[0].evidence, vec!["same_file", "lexical_bm25"]);
    assert_eq!(items[0].query_mode_bias, vec![BiasTerm::Weight(RerankWeight::BlastRadiusOther)]);
    assert_eq!(items[1].chunk, 1);
    assert!(items[1].matched_worktree);
    assert_eq!(items[1].evidence, vec!["semantic_vector", "worktree_diff"]);
    assert_eq!(items[1].worktree_diff_bias, Some(RerankWeight::WorktreeDiff(QueryMode::BlastRadius)));
}

#[test]
fn document_rank_weight_marker_or_legacy_bias() {
    let weighted = chunk("plan-doc", "DocumentBlock", "docs/plans/future.md", &["document", "plan", "doc_rank_weight:2.0"]);
    assert_eq!(
        query_mode_bias(QueryMode::UnderstandSymbol, &weighted),
        vec![BiasTerm::DocumentWeight { raw: "2.0".to_string(), fallback_milli: -200 }]
    );
    let spec = chunk("spec-doc", "DocumentBlock", "docs/specs/current.md", &["document", "spec"]);
    assert_eq!(query_mode_bias(QueryMode::UnderstandSymbol, &spec), vec![BiasTerm::Fixed(1200)]);
    let plan = chunk("plan-doc", "DocumentBlock", "docs/plans/future.md", &["document", "plan"]);
    assert_eq!(query_mode_bias(QueryMode::UnderstandSymbol, &plan), vec![BiasTerm::Fixed(-200)]);
    let not_document = chunk("x", "Symbol", "src/lib.rs", &["spec"]);
    assert_eq!(
        query_mode_bias(QueryMode::UnderstandSymbol, &not_document),
        vec![BiasTerm::Weight(RerankWeight::UnderstandSymbolSymbol)]
    );
    let history = chunk("h", "HistoryNode", "history/h", &["history"]);
    assert_eq!(query_mode_bias(QueryMode::BlastRadius, &history), vec![BiasTerm::Fixed(500)]);
}

#[test]
fn search_hits_stand_for_stored_chunks() {
    let pool = vec![chunk("a", "Symbol", "src/lib.rs", &[]), chunk("b", "Symbol", "src/lib.rs", &[])];
    let lexical = hit_candidates(&pool, &ids(&["b", "missing", "a"]), true);
    assert_eq!(
        lexical,
        vec![
            candidate(1, ScoreSource::LexicalHit(0), &["lexical_bm25"]),
            candidate(0, ScoreSource::LexicalHit(2), &["lexical_bm25"]),
        ]
    );
    let vector = hit_candidates(&pool, &ids(&["a"]), false);
    assert_eq!(vector, vec![candidate(0, ScoreSource::VectorHit(0), &["semantic_vector"])]);
    assert!(seeds_found(&pool, &ids(&["x", "b"])));
    assert!(!seeds_found(&pool, &ids(&["x"])));
}

#[test]
fn history_needs_the_selector() {
    let nodes = vec![HistoryNodeRecord::new("h1", "s", "commit", Some("abc123".to_string()), "history-only-sentinel-token")];
    let request = RetrievalRequest::new("s", QueryMode::UnderstandSymbol, "history-only-sentinel-token");
    let (records, candidates) = history_candidates(&request, &nodes, &[], 5);
    assert!(records.is_empty());
    assert!(candidates.is_empty());
}

#[test]
fn history_window_terms_and_lineage() {
    let nodes = vec![
        HistoryNodeRecord::new("c1", "s", "commit", Some("a".to_string()), "old change"),
        HistoryNodeRecord::new("c2", "s", "commit", Some("b".to_string()), "Fix Reload race"),
        HistoryNodeRecord::new("c3", "s", "commit", None, "docs"),
    ];
    let lineage = vec![LineageEdgeRecord::new("l", "s", "c2", "c9", "fixes", None, 550)];
    let request = RetrievalRequest::new("snap", QueryMode::BlastRadius, "reload-race, fix reload")
        .with_history(true)
        .with_history_max_nodes(2);
    let (records, candidates) = history_candidates(&request, &nodes, &lineage, 7);
    assert_eq!(records.len(), 2);
    assert_eq!(records[0].chunk_id, "history:c2");
    assert_eq!(records[0].snapshot_id, "snap");
    assert_eq!(records[0].chunk_kind, "HistoryNode");
    assert_eq!(records[0].symbol_path.as_deref(), Some("b"));
    assert_eq!(records[0].file_path, "history/c2");
    assert_eq!(records[0].text, "Fix Reload race");
    assert_eq!(records[1].chunk_id, "history:c3");
    assert_eq!(candidates[0], candidate(7, ScoreSource::History(4), &["history_node", "lineage_edge"]));
    assert_eq!(candidates[1], candidate(8, ScoreSource::History(0), &["history_node"]));
}

#[test]
fn ascii_lowercase_leaves_other_characters() {
    assert_eq!(to_ascii_lower("Fix ÄBC-z_9"), "fix Äbc-z_9");
}

#[test]
fn retrieval_warning_texts() {
    assert_eq!(
        retrieval_warnings(false, false, false, &Err("no key".to_string()), Some(false)),
        vec![
            "symbol path not provided; exact symbol retrieval skipped",
            "lexical bm25 search returned no snapshot-local candidates",
            "semantic vector search unavailable: no key",
            "history selector requested but no history candidates were found",
        ]
    );
    assert_eq!(
        retrieval_warnings(true, false, true, &Ok(false), None),
        vec!["exact symbol match not found", "semantic vector search returned no snapshot-local candidates"]
    );
    assert!(retrieval_warnings(true, true, true, &Ok(true), Some(true)).is_empty());
}
