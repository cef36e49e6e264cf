use rarag::snapshot::{normalize_feature_set, SnapshotKey};

#[test]
fn normalizes_feature_set() {
    let key = SnapshotKey::new(
        "/repo",
        "/repo/.worktrees/alpha",
        "abc123",
        "x86_64-unknown-linux-gnu",
        &[" sqlite ", "default", "sqlite"],
        "dev",
    );

    assert_eq!(key.feature_set, vec!["default", "sqlite"]);
}

#[test]
fn id_changes_with_worktree_root() {
    let left = SnapshotKey::new(
        "/repo",
        "/repo/.worktrees/alpha",
        "abc123",
        "x86_64-unknown-linux-gnu",
        &["default"],
        "dev",
    );
    let right = SnapshotKey::new(
        "/repo",
        "/repo/.worktrees/beta",
        "abc123",
        "x86_64-unknown-linux-gnu",
        &["default"],
        "dev",
    );

    assert_ne!(left.id(), right.id());
}

#[test]
fn snapshot_identity_changes_when_worktree_changes() {
    let left = SnapshotKey::new(
        "/repo",
        "/repo/.worktrees/alpha",
        "abc123",
        "x86_64-unknown-linux-gnu",
        &["default", "sqlite"],
        "dev",
    );
    let right = SnapshotKey::new(
        "/repo",
        "/repo/.worktrees/beta",
        "abc123",
        "x86_64-unknown-linux-gnu",
        &["default", "sqlite"],
        "dev",
    );

    assert_ne!(left.id(), right.id());
}

#[test]
fn id_joins_fields_with_pipes() {
    let key = SnapshotKey::new("/repo", "/repo/wt", "abc", "x86", &["b", "a", " "], "dev");
    assert_eq!(key.id(), "/repo|/repo/wt|abc|x86|a,b|dev");
}

#[test]
fn normalization_is_idempotent_on_examples() {
    let once = normalize_feature_set(&["zeta", " alpha", "alpha ", "", "beta"]);
    assert_eq!(once, vec!["alpha", "beta", "zeta"]);
    let refs: Vec<&str> = once.iter().map(|s| s.as_str()).collect();
    assert_eq!(normalize_feature_set(&refs), once);
}

#[test]
fn same_features_in_any_order_give_one_key() {
    let left = SnapshotKey::new("/repo", "/repo/.worktrees/alpha", "abc123", "x86_64-unknown-linux-gnu", &["sqlite", " default", "", "sqlite "], "dev");
    let right = SnapshotKey::new("/repo", "/repo/.worktrees/alpha", "abc123", "x86_64-unknown-linux-gnu", &["default", "sqlite"], "dev");
    assert_eq!(left, right);
    assert_eq!(left.id(), right.id());
    assert_eq!(left.id(), "/repo|/repo/.worktrees/alpha|abc123|x86_64-unknown-linux-gnu|default,sqlite|dev");
}
