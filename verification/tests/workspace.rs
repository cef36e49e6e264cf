use rarag::workspace;

#[test]
fn workspace_defaults_parse() {
    assert_eq!(workspace::default_socket_name(), "raragd.sock");
    assert!(workspace::BINARIES.contains(&"rarag"));
}

#[test]
fn mcp_socket_name_is_the_daemon_companion() {
    assert_eq!(
        rarag::config::derive_companion_mcp_socket(workspace::default_socket_name()),
        workspace::default_mcp_socket_name()
    );
}
