use rarag::config::{
    HistoryConfig, LanceDbConfig, VectorDistanceMetric,
    derive_companion_mcp_socket, path_matches_glob, classify_document_source, DocumentSourceKind,
    DocumentSourceParser, DocumentSourceRule, DocumentSourcesConfig, EmbeddingProviderConfig,
    ObservabilityConfig, ObservabilityVerbosity, RuntimePaths, config_path_candidates,
    ServiceSettings, SettingsOverrides, runtime_socket_root, tmp_root_for_uid, xdg_cache_root, xdg_state_root,
};

#[test]
fn runtime_paths_new_keeps_input_order() {
    let paths = RuntimePaths::new("sock", "state", "cache");

    assert_eq!(paths.socket_path, "sock");
    assert_eq!(paths.state_root, "state");
    assert_eq!(paths.cache_root, "cache");
}

#[test]
fn parses_runtime_paths() {
    let runtime = RuntimePaths::new("/run/user/1000/rarag/raragd.sock", "/tmp/rarag/state", "/tmp/rarag/cache");

    assert_eq!(runtime.socket_path, "/run/user/1000/rarag/raragd.sock");
    assert_eq!(runtime.state_root, "/tmp/rarag/state");
    assert_eq!(runtime.cache_root, "/tmp/rarag/cache");
}

#[test]
fn defaults_preserve_openai_embedding_endpoint_shape() {
    let settings = ServiceSettings::defaults("/run/user/1000/rarag", "/tmp/rarag/state", "/tmp/rarag/cache");

    assert_eq!(settings.embeddings.base_url, "https://api.openai.com/v1");
    assert_eq!(settings.embeddings.endpoint_path, "/embeddings");
}

#[test]
fn validate_rejects_missing_required_fields() {
    let err = EmbeddingProviderConfig {
        base_url: String::new(),
        endpoint_path: String::new(),
        model: String::new(),
        api_key_env: String::new(),
        dimensions: 0,
    }
    .validate()
    .expect_err("config should fail validation");

    assert!(err.contains("base_url"));
    assert!(err.contains("endpoint_path"));
    assert!(err.contains("model"));
    assert!(err.contains("api_key_env"));
    assert!(err.contains("dimensions"));
}

#[test]
fn defaults_keep_observability_off() {
    let config = ObservabilityConfig::default();

    assert!(!config.enabled);
    assert_eq!(config.verbosity, ObservabilityVerbosity::Off);
}

#[test]
fn rejects_incomplete_embedding_config() {
    let err = EmbeddingProviderConfig {
        base_url: String::new(),
        endpoint_path: String::new(),
        model: "text-embedding-3-small".into(),
        api_key_env: String::new(),
        dimensions: 0,
    }
    .validate()
    .expect_err("embedding config should fail validation");

    assert!(err.contains("base_url"), "unexpected error: {err}");
    assert!(err.contains("endpoint_path"), "unexpected error: {err}");
    assert!(err.contains("api_key_env"), "unexpected error: {err}");
    assert!(err.contains("dimensions"), "unexpected error: {err}");
}

#[test]
fn validate_message_lists_fields_in_order() {
    let err = EmbeddingProviderConfig {
        base_url: "  ".into(),
        endpoint_path: "/embeddings".into(),
        model: "m".into(),
        api_key_env: "".into(),
        dimensions: 8,
    }
    .validate()
    .expect_err("blank fields");
    assert_eq!(err, "embedding provider config missing or invalid fields: base_url, api_key_env");
}

#[test]
fn validate_accepts_complete_config() {
    let ok = EmbeddingProviderConfig {
        base_url: "https://api.openai.com/v1".into(),
        endpoint_path: "/embeddings".into(),
        model: "text-embedding-3-small".into(),
        api_key_env: "OPENAI_API_KEY".into(),
        dimensions: 1536,
    }
    .validate();
    assert_eq!(ok, Ok(()));
}

#[test]
fn verbosity_spellings() {
    assert_eq!(ObservabilityVerbosity::Off.as_str(), "off");
    assert_eq!(ObservabilityVerbosity::Summary.as_str(), "summary");
    assert_eq!(ObservabilityVerbosity::Detailed.as_str(), "detailed");
}

#[test]
fn companion_socket_replaces_sock_suffix() {
    assert_eq!(derive_companion_mcp_socket("/run/rarag/raragd.sock"), "/run/rarag/raragd-mcp.sock");
    assert_eq!(derive_companion_mcp_socket("/run/rarag/daemon"), "/run/rarag/daemon-mcp");
    assert_eq!(derive_companion_mcp_socket(".sock"), "-mcp.sock");
}

#[test]
fn glob_matches_directory_prefix_or_exact_path() {
    assert!(path_matches_glob("docs/specs/a.md", "docs/specs/**"));
    assert!(!path_matches_glob("docs/plan.md", "docs/specs/**"));
    assert!(path_matches_glob("CHANGELOG.md", "CHANGELOG.md"));
    assert!(!path_matches_glob("docs/CHANGELOG.md", "CHANGELOG.md"));
}

#[test]
fn first_matching_document_rule_wins() {
    let rules = vec![
        DocumentSourceRule::new("docs/**", DocumentSourceKind::Documentation, DocumentSourceParser::Markdown, 500),
        DocumentSourceRule::new("docs/specs/**", DocumentSourceKind::Spec, DocumentSourceParser::Markdown, 2000),
    ];
    let rule = classify_document_source("docs/specs/x.md", &rules).expect("a rule");
    assert_eq!(rule.kind, DocumentSourceKind::Documentation);
    assert_eq!(rule.weight_milli, 500);
    assert!(classify_document_source("src/lib.rs", &rules).is_none());
}

#[test]
fn default_document_rules_cover_specs_and_tasks() {
    let config = DocumentSourcesConfig::default();
    assert_eq!(config.rules.len(), 7);
    let spec = classify_document_source("docs/specs/current-behavior.md", &config.rules).expect("spec rule");
    assert_eq!(spec.kind, DocumentSourceKind::Spec);
    let tasks = classify_document_source("docs/tasks/tasks.csv", &config.rules).expect("tasks rule");
    assert_eq!(tasks.parser, DocumentSourceParser::Csv);
    assert_eq!(DocumentSourceKind::TasksRegistry.as_str(), "tasks-registry");
}

fn sample_settings() -> ServiceSettings {
    ServiceSettings::defaults("/run/user/1000/rarag", "/home/u/.local/state", "/home/u/.cache")
}

#[test]
fn service_defaults_place_sockets_and_stores_under_user_roots() {
    let settings = sample_settings();
    assert_eq!(settings.runtime.socket_path, "/run/user/1000/rarag/raragd.sock");
    assert_eq!(settings.runtime.state_root, "/home/u/.local/state/rarag");
    assert_eq!(settings.runtime.cache_root, "/home/u/.cache/rarag");
    assert_eq!(settings.turso.database_url, "file:/home/u/.local/state/rarag/metadata.db");
    assert_eq!(settings.tantivy.index_root, "/home/u/.cache/rarag/tantivy");
    assert_eq!(settings.embeddings.base_url, "https://api.openai.com/v1");
    assert_eq!(settings.embeddings.endpoint_path, "/embeddings");
    assert_eq!(settings.embeddings.model, "text-embedding-3-small");
    assert_eq!(settings.embeddings.dimensions, 1_536);
    assert!(!settings.cli_default_json());
    assert_eq!(settings.daemon_socket_path(), "/run/user/1000/rarag/raragd.sock");
    assert_eq!(settings.mcp_socket_path(), "/run/user/1000/rarag/raragd-mcp.sock");
    assert_ne!(settings.daemon_socket_path(), settings.mcp_socket_path());
}

#[test]
fn overrides_replace_only_the_values_they_set() {
    let mut settings = sample_settings();
    settings.apply_overrides(SettingsOverrides {
        base_url: Some("http://127.0.0.1:8080/v1".to_string()),
        dimensions: Some(768),
        observability_enabled: Some(true),
        observability_verbosity: Some(ObservabilityVerbosity::Detailed),
        ..Default::default()
    });
    assert_eq!(settings.embeddings.base_url, "http://127.0.0.1:8080/v1");
    assert_eq!(settings.embeddings.dimensions, 768);
    assert_eq!(settings.embeddings.model, "text-embedding-3-small");
    assert!(settings.observability.enabled);
    assert_eq!(settings.observability.verbosity, ObservabilityVerbosity::Detailed);
    assert_eq!(settings.runtime.socket_path, "/run/user/1000/rarag/raragd.sock");
}

#[test]
fn runtime_socket_override_moves_daemon_and_mcp_companion() {
    let mut settings = sample_settings();
    settings.apply_overrides(SettingsOverrides {
        socket_path: Some("/tmp/custom/raragd.sock".to_string()),
        cli: Some(Some(true)),
        ..Default::default()
    });
    assert_eq!(settings.runtime.socket_path, "/tmp/custom/raragd.sock");
    assert_eq!(settings.daemon_socket_path(), "/tmp/custom/raragd.sock");
    assert_eq!(settings.mcp_socket_path(), "/tmp/custom/raragd-mcp.sock");
    assert!(settings.cli_default_json());
}

#[test]
fn front_end_sections_take_their_own_sockets() {
    let mut settings = sample_settings();
    settings.apply_overrides(SettingsOverrides {
        daemon: Some(Some("/tmp/d.sock".to_string())),
        mcp: Some(Some("/tmp/m.sock".to_string())),
        ..Default::default()
    });
    assert_eq!(settings.daemon_socket_path(), "/tmp/d.sock");
    assert_eq!(settings.mcp_socket_path(), "/tmp/m.sock");
}

#[test]
fn explicit_config_path_is_the_only_candidate() {
    assert_eq!(
        config_path_candidates(Some("/etc/rarag.toml"), Some("/x.toml"), Some("/xdg"), Some("/home/u")),
        vec!["/etc/rarag.toml"]
    );
}

#[test]
fn config_candidates_follow_env_then_xdg_then_home() {
    assert_eq!(
        config_path_candidates(None, Some("/x.toml"), Some("/xdg"), Some("/home/u")),
        vec!["/x.toml", "/xdg/rarag/rarag.toml", "/home/u/.config/rarag/rarag.toml"]
    );
    assert_eq!(
        config_path_candidates(None, None, None, Some("/home/u")),
        vec!["/home/u/.config/rarag/rarag.toml"]
    );
    assert!(config_path_candidates(None, None, None, None).is_empty());
}

#[test]
fn user_roots_follow_xdg_then_home() {
    assert_eq!(xdg_state_root(Some("/xdg/state"), Some("/home/u")), "/xdg/state");
    assert_eq!(xdg_state_root(None, Some("/home/u")), "/home/u/.local/state");
    assert_eq!(xdg_cache_root(Some("/xdg/cache"), None), "/xdg/cache");
    assert_eq!(xdg_cache_root(None, Some("/home/u")), "/home/u/.cache");
    let fallback = xdg_state_root(None, None);
    assert!(fallback.starts_with("/tmp/rarag-uid-"));
    assert!(fallback.ends_with("/state"));
    assert!(xdg_cache_root(None, None).ends_with("/cache"));
    assert_eq!(tmp_root_for_uid("state", 1000), "/tmp/rarag-uid-1000/state");
}

#[test]
fn runtime_root_prefers_runtime_dir_over_private_state_dir() {
    assert_eq!(runtime_socket_root(Some("/run/user/1000"), "/home/u/.local/state"), ("/run/user/1000/rarag".to_string(), false));
    assert_eq!(
        runtime_socket_root(None, "/home/u/.local/state"),
        ("/home/u/.local/state/rarag/run".to_string(), true)
    );
}

#[test]
fn vector_store_and_history_defaults_and_overrides() {
    let mut lancedb = LanceDbConfig::defaults("/home/u/.cache");
    assert_eq!(lancedb.db_root, "/home/u/.cache/rarag/lancedb");
    assert_eq!(lancedb.table, "rarag_chunks");
    assert_eq!(lancedb.distance_metric, VectorDistanceMetric::Cosine);
    lancedb.apply_overrides(None, Some("chunks".to_string()), Some(VectorDistanceMetric::Dot));
    assert_eq!(lancedb.db_root, "/home/u/.cache/rarag/lancedb");
    assert_eq!(lancedb.table, "chunks");
    assert_eq!(lancedb.distance_metric, VectorDistanceMetric::Dot);

    let mut history = HistoryConfig::defaults();
    assert!(!history.enabled);
    assert_eq!(history.max_commits, 256);
    history.apply_overrides(Some(true), None);
    assert!(history.enabled);
    assert_eq!(history.max_commits, 256);
    history.apply_overrides(None, Some(12));
    assert_eq!(history, HistoryConfig { enabled: true, max_commits: 12 });
}
