use rarag::chunking::types::{Chunk, ChunkKind, SourceSpan};
use rarag::indexing::{chunk_kind_name, hits_in_snapshot, document_blocks_from_chunks, join_csv, snapshot_filter, split_csv, split_feature_set, stable_point_id};
use rarag::metadata::{ChunkRecord, EdgeRecord, HistoryNodeRecord};
use rarag::retrieval::query::{QueryMode, RetrievalRequest};
use rarag::semantic::{heuristic_edges, RustAnalyzerEnricher, SemanticEdgeKind};
use rarag::worktree::WorktreeChanges;

fn chunk(id: &str, kind: ChunkKind, symbol: Option<&str>, text: &str) -> Chunk {
    Chunk {
        id: id.to_string(),
        kind,
        file_path: "src/lib.rs".to_string(),
        span: SourceSpan { start_byte: 0, end_byte: text.len() as u32 },
        symbol_path: symbol.map(|s| s.to_string()),
        symbol_name: None,
        owning_symbol_header: None,
        docs_text: None,
        signature_text: None,
        parent_symbol_path: None,
        retrieval_markers: Vec::new(),
        repository_state_hints: Vec::new(),
        text: text.to_string(),
    }
}

#[test]
fn effective_limit_is_clamped_to_the_mode_cap() {
    let request = RetrievalRequest::new("s", QueryMode::UnderstandSymbol, "q");
    assert_eq!(request.limit, 4);
    assert_eq!(request.effective_limit(), 4);
    let request = RetrievalRequest::new("s", QueryMode::BlastRadius, "q").with_limit(0);
    assert_eq!(request.effective_limit(), 1);
    let request = RetrievalRequest::new("s", QueryMode::ImplementAdjacent, "q").with_limit(50);
    assert_eq!(request.effective_limit(), 6);
    let request = RetrievalRequest::new("s", QueryMode::BoundedRefactor, "q").with_history_max_nodes(0);
    assert_eq!(request.history_max_nodes, Some(1));
    assert_eq!(QueryMode::BlastRadius.as_str(), "blast-radius");
}

#[test]
fn worktree_changes_match_suffixes() {
    let changes = WorktreeChanges::from_paths(&["src\\lib.rs".to_string(), "b.rs".to_string()]);
    assert_eq!(changes.paths(), vec!["b.rs", "src/lib.rs"]);
    assert!(changes.matches("/repo/src/lib.rs"));
    assert!(changes.matches("src\\lib.rs"));
    assert!(!changes.matches("/repo/xsrc/lib.rs"));
    assert!(!changes.matches("/repo/a/bb.rs"));
    assert!(!WorktreeChanges::empty().matches("b.rs"));
    assert!(WorktreeChanges::empty().is_empty());
}

#[test]
fn heuristic_links_references_tests_and_impls() {
    let chunks = vec![
        chunk("c:sum", ChunkKind::Symbol, Some("demo::sum"), "pub fn sum() {}"),
        chunk("c:test", ChunkKind::TestFunction, Some("demo::tests::t"), "fn t() { sum(); }"),
        chunk("c:caller", ChunkKind::Symbol, Some("demo::caller"), "fn caller() { sum(); sum(); }"),
        chunk("c:point", ChunkKind::Symbol, Some("demo::Point"), "struct Point;"),
        chunk("c:impl", ChunkKind::Symbol, Some("demo::impl::Point"), "impl Point { }"),
        chunk("c:crate", ChunkKind::CrateSummary, Some("demo"), "sum Point"),
    ];
    let edges = heuristic_edges(&chunks);
    let ids: Vec<&str> = edges.iter().map(|e| e.edge_id.as_str()).collect();
    assert!(ids.contains(&"c:test:c:sum:test"));
    assert!(ids.contains(&"c:caller:c:sum:reference"));
    assert!(ids.contains(&"c:impl:c:point:reference"));
    assert!(ids.contains(&"c:impl:c:point:implementation"));
    assert!(!ids.iter().any(|id| id.starts_with("c:crate")));
    let implementation = edges.iter().find(|e| e.kind == SemanticEdgeKind::Implementation).expect("impl edge");
    assert_eq!(implementation.from_symbol_path.as_deref(), Some("demo::impl::Point::Point"));
    let mut sorted = ids.clone();
    sorted.sort();
    sorted.dedup();
    assert_eq!(sorted.len(), ids.len());

    let enriched = RustAnalyzerEnricher::heuristic().enrich_chunks("/repo", &chunks).expect("enrich");
    assert_eq!(enriched.edges, edges);
    assert!(!enriched.analyzer_available);
    let unavailable = RustAnalyzerEnricher::unavailable("no binary").enrich_chunks("/repo", &chunks).expect("enrich");
    assert!(unavailable.edges.is_empty());
    assert_eq!(unavailable.warnings, vec!["rust-analyzer semantic enrichment unavailable: no binary"]);
}

#[test]
fn edge_kinds_roundtrip_through_records() {
    let chunks = vec![
        chunk("a", ChunkKind::Symbol, Some("m::alpha"), "alpha"),
        chunk("b", ChunkKind::BodyRegion, None, "alpha()"),
    ];
    let edges = heuristic_edges(&chunks);
    let record = EdgeRecord::from_semantic_edge("snap", &edges[0]);
    assert_eq!(record.edge_kind, "reference");
    assert_eq!(record.semantic_kind(), Some(SemanticEdgeKind::Reference));
    assert_eq!(SemanticEdgeKind::parse("nope"), None);
}

#[test]
fn chunk_records_keep_fields() {
    let c = chunk("x", ChunkKind::Doctest, Some("m::f"), "body");
    let record = ChunkRecord::from_chunk("snap", &c);
    assert_eq!(record.chunk_kind, "Doctest");
    assert_eq!(record.snapshot_id, "snap");
    assert_eq!(record.text, "body");
    let node = HistoryNodeRecord::new("c1", "s", "commit", Some("abc".to_string()), "fix");
    assert_eq!(node.summary, "fix");
}

#[test]
fn indexing_helpers() {
    assert_eq!(stable_point_id(0, ""), 1469598103934665603);
    assert_eq!(stable_point_id(0, "a"), 4953267810257967366);
    assert_ne!(stable_point_id(1, "a"), stable_point_id(0, "a"));
    assert_eq!(snapshot_filter("it's"), "snapshot_id = 'it''s'");
    assert_eq!(chunk_kind_name(&ChunkKind::BodyRegion), "body_region");
    assert_eq!(join_csv(&["a".to_string(), "b".to_string()]), "a,b");
    assert_eq!(split_csv(" a, ,b ,"), vec!["a", "b"]);
    assert_eq!(split_feature_set("a,,b"), vec!["a", "b"]);
    let mut doc = chunk("d", ChunkKind::TaskRow, Some("demo::docs::tasks::row_2"), "id: T1");
    doc.retrieval_markers = vec!["document".to_string(), "tasks-registry".to_string()];
    let blocks = document_blocks_from_chunks("snap", &[doc, chunk("s", ChunkKind::Symbol, None, "x")]);
    assert_eq!(blocks.len(), 1);
    assert_eq!(blocks[0].document_kind, "tasks-registry");
    assert_eq!(blocks[0].parser, "csv");
    assert_eq!(blocks[0].heading_path, vec!["demo", "docs", "tasks", "row_2"]);
}

#[test]
fn searches_keep_only_their_snapshot() {
    let snapshots = vec!["a".to_string(), "b".to_string(), "a".to_string()];
    assert_eq!(hits_in_snapshot(&snapshots, Some("a")), vec![0, 2]);
    assert_eq!(hits_in_snapshot(&snapshots, Some("c")), Vec::<usize>::new());
    assert_eq!(hits_in_snapshot(&snapshots, None), vec![0, 1, 2]);
}
