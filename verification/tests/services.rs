use rarag::cli::{ServiceCommand, ServiceOperation, ServiceTarget};
use rarag::services::{
    daemon_unit_contents, env_file_path, execute, mcp_unit_contents, plan, systemctl_failure, unit_write_decision,
    ServiceInstallContext, ServiceStep,
};

#[test]
fn install_uses_resolved_binary_paths() {
    let context = ServiceInstallContext::new(
        "/opt/rarag/bin/raragd",
        "/opt/rarag/bin/rarag-mcp",
        "/tmp/configs/rarag.toml",
    );
    let unit = daemon_unit_contents(&context);
    assert!(
        unit.contains("ExecStart=/opt/rarag/bin/raragd serve --config /tmp/configs/rarag.toml")
    );
}

#[test]
fn install_uses_resolved_config_path() {
    let context = ServiceInstallContext::new(
        "/usr/bin/raragd",
        "/usr/bin/rarag-mcp",
        "/work/custom/rarag.toml",
    );
    let unit = daemon_unit_contents(&context);
    assert!(unit.contains("ExecStart=/usr/bin/raragd serve --config /work/custom/rarag.toml"));
    assert!(unit.contains("EnvironmentFile=-/work/custom/daemon.env"));
}

#[test]
fn env_file_sits_beside_the_config() {
    assert_eq!(env_file_path("/work/custom/rarag.toml"), "/work/custom/daemon.env");
    assert_eq!(env_file_path("rarag.toml"), "daemon.env");
    assert_eq!(env_file_path("/rarag.toml"), "/daemon.env");
    assert_eq!(env_file_path("/"), "daemon.env");
    assert_eq!(env_file_path("a//b.toml"), "a/daemon.env");
}

#[test]
fn mcp_unit_requires_the_daemon() {
    let context = ServiceInstallContext::new("/usr/bin/raragd", "/usr/bin/rarag-mcp", "/c/rarag.toml");
    let unit = mcp_unit_contents(&context);
    assert!(unit.starts_with("# Managed by rarag service install\n"));
    assert!(unit.contains("Requires=raragd.service"));
    assert!(unit.contains("ExecStart=/usr/bin/rarag-mcp serve --config /c/rarag.toml"));
}

#[test]
fn unit_write_decisions() {
    assert_eq!(unit_write_decision("/u/a", None, "x", false), Ok(true));
    assert_eq!(unit_write_decision("/u/a", Some("x"), "x", false), Ok(false));
    assert_eq!(
        unit_write_decision("/u/a", Some("other"), "x", true),
        Err("refusing to overwrite unmanaged unit file /u/a".to_string())
    );
    let managed = "# Managed by rarag service install\nold";
    assert_eq!(
        unit_write_decision("/u/a", Some(managed), "x", false),
        Err("managed unit file differs at /u/a; rerun with --force".to_string())
    );
    assert_eq!(unit_write_decision("/u/a", Some(managed), "x", true), Ok(true));
}

#[test]
fn dry_run_plans_install_and_lifecycle() {
    let context = ServiceInstallContext::new("/usr/bin/raragd", "/usr/bin/rarag-mcp", "/c/rarag.toml");
    let install = ServiceCommand { operation: ServiceOperation::Install { force: false } };
    let existing = daemon_unit_contents(&context);
    let report = plan(&install, &context, "/home/u/.config/systemd/user", Some(existing.as_str()), None).expect("plan");
    assert_eq!(report.operation, "install");
    assert_eq!(
        report.commands,
        vec![
            "mkdir -p /home/u/.config/systemd/user",
            "write /home/u/.config/systemd/user/rarag-mcp.service",
            "systemctl --user daemon-reload",
            "systemctl --user enable --now raragd.service",
            "systemctl --user enable --now rarag-mcp.service",
        ]
    );
    assert_eq!(report.changed_files, vec!["/home/u/.config/systemd/user/rarag-mcp.service"]);

    let restart = ServiceCommand { operation: ServiceOperation::Restart { target: ServiceTarget::All } };
    let report = plan(&restart, &context, "/u", None, None).expect("plan");
    assert_eq!(
        report.commands,
        vec!["systemctl --user restart raragd.service", "systemctl --user restart rarag-mcp.service"]
    );
    let reload = ServiceCommand { operation: ServiceOperation::Reload { target: ServiceTarget::Mcp } };
    assert_eq!(plan(&reload, &context, "/u", None, None).unwrap_err(), "reload only supports raragd or all");
    let reload = ServiceCommand { operation: ServiceOperation::Reload { target: ServiceTarget::Daemon } };
    assert_eq!(plan(&reload, &context, "/u", None, None).unwrap().commands, vec!["systemctl --user kill -s HUP raragd.service"]);
}

#[test]
fn execute_records_only_systemctl_commands() {
    let context = ServiceInstallContext::new("/usr/bin/raragd", "/usr/bin/rarag-mcp", "/c/rarag.toml");
    let command = ServiceCommand { operation: ServiceOperation::Install { force: false } };
    let run = execute(&command, &context, "/home/u/.config/systemd/user", None, None).expect("install");
    assert_eq!(run.steps.len(), 6);
    assert_eq!(run.steps[0], ServiceStep::CreateDir { path: "/home/u/.config/systemd/user".to_string() });
    assert_eq!(run.report.operation, "install");
    assert_eq!(
        run.report.commands,
        vec![
            "systemctl --user daemon-reload",
            "systemctl --user enable --now raragd.service",
            "systemctl --user enable --now rarag-mcp.service",
        ]
    );
    assert_eq!(
        run.report.changed_files,
        vec!["/home/u/.config/systemd/user/raragd.service", "/home/u/.config/systemd/user/rarag-mcp.service"]
    );
    let dry = plan(&command, &context, "/home/u/.config/systemd/user", None, None).expect("plan");
    assert_eq!(dry.commands[0], "mkdir -p /home/u/.config/systemd/user");
    assert_eq!(dry.changed_files, run.report.changed_files);
}

#[test]
fn execute_refuses_what_plan_refuses() {
    let context = ServiceInstallContext::new("/usr/bin/raragd", "/usr/bin/rarag-mcp", "/c/rarag.toml");
    let command = ServiceCommand { operation: ServiceOperation::Reload { target: ServiceTarget::Mcp } };
    assert_eq!(
        execute(&command, &context, "/u", None, None),
        Err("reload only supports raragd or all".to_string())
    );
}

#[test]
fn systemctl_failure_messages() {
    let args = vec!["restart".to_string(), "raragd.service".to_string()];
    assert_eq!(systemctl_failure(&args, "  Unit not found.\n"), "systemctl failed: Unit not found.");
    assert_eq!(systemctl_failure(&args, " \n"), "systemctl failed: restart raragd.service");
}
