use rarag::history::{derive_lineage_edges, parse_name_status_rename_chain};
use rarag::metadata::{HistoryNodeRecord, LineageEdgeRecord};

#[test]
fn resolves_path_rename_chain() {
    let lines = vec![
        "R100\tsrc/old.rs\tsrc/new.rs".to_string(),
        "R090\tsrc/new.rs\tsrc/final.rs".to_string(),
    ];

    let chain = parse_name_status_rename_chain(&lines);
    assert_eq!(chain, vec!["src/old.rs", "src/new.rs", "src/final.rs"]);
}

#[test]
fn rename_chain_skips_other_changes_and_unrelated_renames() {
    let lines = vec![
        "M\tsrc/lib.rs".to_string(),
        "R100\ta.rs\tb.rs".to_string(),
        "R100\tx.rs\ty.rs".to_string(),
        "R\tb.rs".to_string(),
        "R050\tb.rs\tc.rs".to_string(),
    ];
    assert_eq!(parse_name_status_rename_chain(&lines), vec!["a.rs", "b.rs", "c.rs"]);
    assert!(parse_name_status_rename_chain(&[]).is_empty());
}

#[test]
fn marks_heuristic_causal_edges_with_confidence() {
    let nodes = vec![
        HistoryNodeRecord::new(
            "c1",
            "snapshot-1",
            "commit",
            Some("abc123".to_string()),
            "fix reload behavior race",
        ),
        HistoryNodeRecord::new(
            "c2",
            "snapshot-1",
            "commit",
            Some("def456".to_string()),
            "follow-up docs update",
        ),
    ];
    let edges = derive_lineage_edges("snapshot-1", &nodes);
    assert!(edges.iter().any(|edge| {
        let confidence = edge.confidence_milli as f64 / 1000.0;
        edge.edge_kind == "fixes" && confidence > 0.0 && confidence <= 1.0
    }));
}

#[test]
fn lineage_edges_link_consecutive_nodes_only() {
    let nodes = vec![
        HistoryNodeRecord::new("a", "s", "commit", Some("1".to_string()), "Fix parser"),
        HistoryNodeRecord::new("b", "s", "commit", None, "docs"),
        HistoryNodeRecord::new("c", "s", "commit", Some("3".to_string()), "Refactor"),
    ];
    let edges = derive_lineage_edges("s", &nodes);
    assert_eq!(
        edges,
        vec![LineageEdgeRecord::new(
            "lineage:a:b",
            "s",
            "a",
            "b",
            "fixes",
            Some("heuristic message keyword".to_string()),
            550,
        )]
    );
}

#[test]
fn lineage_edges_use_lowercased_summaries_and_subjects() {
    let nodes = vec![
        HistoryNodeRecord::new("a", "s", "commit", Some("1".to_string()), "BUG hunt"),
        HistoryNodeRecord::new("b", "s", "commit", Some("2".to_string()), "release"),
    ];
    let edges = derive_lineage_edges("s", &nodes);
    assert_eq!(edges.len(), 2);
    assert_eq!(edges[0].edge_kind, "fixes");
    assert_eq!(edges[0].confidence_milli, 550);
    assert_eq!(edges[1].edge_id, "lineage-followed:a:b");
    assert_eq!(edges[1].edge_kind, "followed_by");
    assert_eq!(edges[1].evidence.as_deref(), Some("commit sequence"));
    assert_eq!(edges[1].confidence_milli, 800);
    assert!(derive_lineage_edges("s", &nodes[..1]).is_empty());
}
