//! User services of the daemon and the MCP server: their unit files and
//! the `systemctl --user` commands that install, start, stop, restart or
//! reload them.
use crate::chunking::types::lit;
use crate::cli::{ServiceCommand, ServiceOperation, ServiceTarget};
use crate::text::{push_char, chars_of, join, join_strings, occurs_at, push_str, str_equal, str_starts_with, string_from_range, views};
use vstd::prelude::*;

verus! {

/// The first line of every unit file this tool writes.
pub const MANAGED_HEADER: &'static str = "# Managed by rarag service install\n";

pub const DAEMON_UNIT_NAME: &'static str = "raragd.service";

pub const MCP_UNIT_NAME: &'static str = "rarag-mcp.service";

pub open spec fn managed_header() -> Seq<char> {
    "# Managed by rarag service install\n"@
}

/// Where the services find their binaries and configuration.
#[derive(Debug, Clone)]
pub struct ServiceInstallContext {
    daemon_binary_path: String,
    mcp_binary_path: String,
    config_path: String,
}

impl ServiceInstallContext {
    pub closed spec fn daemon_binary(&self) -> Seq<char> {
        self.daemon_binary_path@
    }

    pub closed spec fn mcp_binary(&self) -> Seq<char> {
        self.mcp_binary_path@
    }

    pub closed spec fn config(&self) -> Seq<char> {
        self.config_path@
    }

    pub fn new(daemon_binary_path: &str, mcp_binary_path: &str, config_path: &str) -> (r: Self)
        ensures
            r.daemon_binary() == daemon_binary_path@,
            r.mcp_binary() == mcp_binary_path@,
            r.config() == config_path@,
    {
        ServiceInstallContext {
            daemon_binary_path: lit(daemon_binary_path),
            mcp_binary_path: lit(mcp_binary_path),
            config_path: lit(config_path),
        }
    }
}

/// Position just after the last `/` of `s[..i]`, or 0.
pub open spec fn after_last_slash(s: Seq<char>, i: int) -> int
    decreases i,
{
    if i <= 0 || i > s.len() {
        0
    } else if s[i - 1] == '/' {
        i
    } else {
        after_last_slash(s, i - 1)
    }
}

/// Length of `s[..i]` without its trailing slashes.
pub open spec fn strip_slashes(s: Seq<char>, i: int) -> int
    decreases i,
{
    if i <= 0 || i > s.len() {
        0
    } else if s[i - 1] == '/' {
        strip_slashes(s, i - 1)
    } else {
        i
    }
}

/// `Path::parent` of a path: the path before its last component (the root
/// `/` stays); none for an empty path or the root alone.
pub open spec fn path_parent(p: Seq<char>) -> Option<Seq<char>> {
    let t = strip_slashes(p, p.len() as int);
    if t == 0 {
        None
    } else {
        let a = after_last_slash(p, t);
        let d = strip_slashes(p, a);
        if d == 0 && a > 0 {
            Some(seq!['/'])
        } else {
            Some(p.take(d))
        }
    }
}

/// `Path::join` of a relative name onto a directory.
pub open spec fn path_join(dir: Seq<char>, name: Seq<char>) -> Seq<char> {
    if dir.len() == 0 {
        name
    } else if dir.last() == '/' {
        dir + name
    } else {
        dir + seq!['/'] + name
    }
}

/// The environment file read by the services: `daemon.env` beside the
/// configuration file.
pub open spec fn env_file(config: Seq<char>) -> Seq<char> {
    match path_parent(config) {
        Some(d) => path_join(d, "daemon.env"@),
        None => "daemon.env"@,
    }
}

fn strip_slashes_exec(cs: &Vec<char>, i: usize) -> (r: usize)
    requires
        i <= cs@.len(),
    ensures
        r == strip_slashes(cs@, i as int),
        r <= i,
{
    let mut k = i;
    while k > 0 && cs[k - 1] == '/'
        invariant
            k <= i <= cs@.len(),
            strip_slashes(cs@, i as int) == strip_slashes(cs@, k as int),
        decreases k,
    {
        k = k - 1;
    }
    k
}

/// `Path::join` of a relative name onto a directory.
pub fn join_path(dir: &str, name: &str) -> (r: String)
    ensures
        r@ == path_join(dir@, name@),
{
    join_exec(lit(dir), name)
}

fn join_exec(dir: String, name: &str) -> (r: String)
    ensures
        r@ == path_join(dir@, name@),
{
    let dc = chars_of(dir.as_str());
    if dc.len() == 0 {
        return lit(name);
    }
    let mut r = dir;
    if dc[dc.len() - 1] != '/' {
        push_char(&mut r, '/');
    }
    push_str(&mut r, name);
    r
}

pub fn env_file_path(config_path: &str) -> (r: String)
    ensures
        r@ == env_file(config_path@),
{
    let cs = chars_of(config_path);
    let t = strip_slashes_exec(&cs, cs.len());
    if t == 0 {
        return lit("daemon.env");
    }
    let mut a = t;
    while a > 0 && cs[a - 1] != '/'
        invariant
            a <= t <= cs@.len(),
            after_last_slash(cs@, t as int) == after_last_slash(cs@, a as int),
        decreases a,
    {
        a = a - 1;
    }
    let d = strip_slashes_exec(&cs, a);
    let dir = if d == 0 && a > 0 {
        let mut s = String::new();
        push_char(&mut s, '/');
        assert(s@ =~= seq!['/']);
        s
    } else {
        assert(cs@.subrange(0, d as int) =~= cs@.take(d as int));
        string_from_range(cs.as_slice(), 0, d)
    };
    join_exec(dir, "daemon.env")
}

pub open spec fn daemon_unit(daemon: Seq<char>, config: Seq<char>) -> Seq<char> {
    managed_header()
        + "[Unit]\nDescription=rarag daemon\nAfter=network-online.target\nWants=network-online.target\n\n[Service]\nType=simple\nExecStart="@
        + daemon + " serve --config "@ + config
        + "\nRestart=on-failure\nRestartSec=2\nEnvironmentFile=-"@ + env_file(config)
        + "\n\n[Install]\nWantedBy=default.target\n"@
}

pub open spec fn mcp_unit(mcp: Seq<char>, config: Seq<char>) -> Seq<char> {
    managed_header()
        + "[Unit]\nDescription=rarag MCP server\nAfter=raragd.service\nRequires=raragd.service\n\n[Service]\nType=simple\nExecStart="@
        + mcp + " serve --config "@ + config
        + "\nRestart=on-failure\nRestartSec=2\nEnvironmentFile=-"@ + env_file(config)
        + "\n\n[Install]\nWantedBy=default.target\n"@
}

/// The unit file of the daemon service.
pub fn daemon_unit_contents(context: &ServiceInstallContext) -> (r: String)
    ensures
        r@ == daemon_unit(context.daemon_binary(), context.config()),
{
    let mut r = lit("# Managed by rarag service install\n");
    push_str(&mut r, "[Unit]\nDescription=rarag daemon\nAfter=network-online.target\nWants=network-online.target\n\n[Service]\nType=simple\nExecStart=");
    push_str(&mut r, context.daemon_binary_path.as_str());
    push_str(&mut r, " serve --config ");
    push_str(&mut r, context.config_path.as_str());
    push_str(&mut r, "\nRestart=on-failure\nRestartSec=2\nEnvironmentFile=-");
    let env = env_file_path(context.config_path.as_str());
    push_str(&mut r, env.as_str());
    push_str(&mut r, "\n\n[Install]\nWantedBy=default.target\n");
    r
}

/// The unit file of the MCP service.
pub fn mcp_unit_contents(context: &ServiceInstallContext) -> (r: String)
    ensures
        r@ == mcp_unit(context.mcp_binary(), context.config()),
{
    let mut r = lit("# Managed by rarag service install\n");
    push_str(&mut r, "[Unit]\nDescription=rarag MCP server\nAfter=raragd.service\nRequires=raragd.service\n\n[Service]\nType=simple\nExecStart=");
    push_str(&mut r, context.mcp_binary_path.as_str());
    push_str(&mut r, " serve --config ");
    push_str(&mut r, context.config_path.as_str());
    push_str(&mut r, "\nRestart=on-failure\nRestartSec=2\nEnvironmentFile=-");
    let env = env_file_path(context.config_path.as_str());
    push_str(&mut r, env.as_str());
    push_str(&mut r, "\n\n[Install]\nWantedBy=default.target\n");
    r
}

pub open spec fn operation_label(op: ServiceOperation) -> Seq<char> {
    match op {
        ServiceOperation::Install { .. } => "install"@,
        ServiceOperation::Start { .. } => "start"@,
        ServiceOperation::Stop { .. } => "stop"@,
        ServiceOperation::Restart { .. } => "restart"@,
        ServiceOperation::Reload { .. } => "reload"@,
    }
}

pub fn operation_name(operation: &ServiceOperation) -> (r: &'static str)
    ensures
        r@ == operation_label(*operation),
{
    match operation {
        ServiceOperation::Install { .. } => "install",
        ServiceOperation::Start { .. } => "start",
        ServiceOperation::Stop { .. } => "stop",
        ServiceOperation::Restart { .. } => "restart",
        ServiceOperation::Reload { .. } => "reload",
    }
}

pub open spec fn target_units(target: ServiceTarget) -> Seq<Seq<char>> {
    match target {
        ServiceTarget::All => seq!["raragd.service"@, "rarag-mcp.service"@],
        ServiceTarget::Daemon => seq!["raragd.service"@],
        ServiceTarget::Mcp => seq!["rarag-mcp.service"@],
    }
}

/// The units a target names.
pub fn units_for_target(target: ServiceTarget) -> (r: Vec<&'static str>)
    ensures
        r@.map_values(|u: &str| u@) == target_units(target),
{
    let mut v: Vec<&'static str> = Vec::new();
    match target {
        ServiceTarget::All => {
            v.push("raragd.service");
            v.push("rarag-mcp.service");
        },
        ServiceTarget::Daemon => v.push("raragd.service"),
        ServiceTarget::Mcp => v.push("rarag-mcp.service"),
    }
    assert(v@.map_values(|u: &str| u@) =~= target_units(target));
    v
}

/// Whether a unit file is (re)written, given what the file holds now:
/// a missing file is written, an identical one left alone; a file without
/// the managed header is never overwritten, and a managed one that differs
/// only with `force`.
pub open spec fn unit_write(path: Seq<char>, existing: Option<Seq<char>>, desired: Seq<char>, force: bool) -> Result<bool, Seq<char>> {
    match existing {
        None => Ok(true),
        Some(e) => if e == desired {
            Ok(false)
        } else if !occurs_at(e, managed_header(), 0) {
            Err("refusing to overwrite unmanaged unit file "@ + path)
        } else if !force {
            Err("managed unit file differs at "@ + path + "; rerun with --force"@)
        } else {
            Ok(true)
        },
    }
}

pub fn unit_write_decision(path: &str, existing: Option<&str>, desired: &str, force: bool) -> (r: Result<bool, String>)
    ensures
        match unit_write(path@, match existing { Some(e) => Some(e@), None => None }, desired@, force) {
            Ok(b) => r == Ok::<bool, String>(b),
            Err(e) => r is Err && r->Err_0@ == e,
        },
{
    match existing {
        None => Ok(true),
        Some(e) => if str_equal(e, desired) {
            Ok(false)
        } else if !str_starts_with(e, "# Managed by rarag service install\n") {
            let mut m = lit("refusing to overwrite unmanaged unit file ");
            push_str(&mut m, path);
            Err(m)
        } else if !force {
            let mut m = lit("managed unit file differs at ");
            push_str(&mut m, path);
            push_str(&mut m, "; rerun with --force");
            Err(m)
        } else {
            Ok(true)
        },
    }
}

/// The unit files this tool writes carry the managed header, so a later
/// install recognizes them; and an install finding a unit file identical to
/// the one it would write leaves it alone, with or without `force`.
pub proof fn lemma_own_units_are_managed(daemon: Seq<char>, mcp: Seq<char>, config: Seq<char>, path: Seq<char>, force: bool)
    ensures
        occurs_at(daemon_unit(daemon, config), managed_header(), 0),
        occurs_at(mcp_unit(mcp, config), managed_header(), 0),
        unit_write(path, Some(daemon_unit(daemon, config)), daemon_unit(daemon, config), force) == Ok::<bool, Seq<char>>(false),
        unit_write(path, Some(mcp_unit(mcp, config)), mcp_unit(mcp, config), force) == Ok::<bool, Seq<char>>(false),
{
    let h = managed_header();
    assert(daemon_unit(daemon, config).subrange(0, h.len() as int) =~= h);
    assert(mcp_unit(mcp, config).subrange(0, h.len() as int) =~= h);
}

/// One effect of a service operation, in the order it is performed.
#[derive(Debug, Clone, PartialEq, Eq)]
pub enum ServiceStep {
    CreateDir { path: String },
    WriteUnit { path: String, contents: String },
    Systemctl { args: Vec<String> },
}

pub enum StepView {
    CreateDir(Seq<char>),
    WriteUnit(Seq<char>, Seq<char>),
    Systemctl(Seq<Seq<char>>),
}

impl View for ServiceStep {
    type V = StepView;

    open spec fn view(&self) -> StepView {
        match self {
            ServiceStep::CreateDir { path } => StepView::CreateDir(path@),
            ServiceStep::WriteUnit { path, contents } => StepView::WriteUnit(path@, contents@),
            ServiceStep::Systemctl { args } => StepView::Systemctl(views(args@)),
        }
    }
}

pub open spec fn step_views(v: Seq<ServiceStep>) -> Seq<StepView> {
    v.map_values(|s: ServiceStep| s@)
}

pub open spec fn write_steps(path: Seq<char>, contents: Seq<char>, write: bool) -> Seq<StepView> {
    if write {
        seq![StepView::WriteUnit(path, contents)]
    } else {
        seq![]
    }
}

/// The effects of a service operation, given the unit directory and the
/// current contents of the two unit files there (none when missing).
pub open spec fn operation_steps(
    op: ServiceOperation,
    daemon: Seq<char>,
    mcp: Seq<char>,
    config: Seq<char>,
    unit_dir: Seq<char>,
    existing_daemon: Option<Seq<char>>,
    existing_mcp: Option<Seq<char>>,
) -> Result<Seq<StepView>, Seq<char>> {
    match op {
        ServiceOperation::Install { force } => {
            let dp = path_join(unit_dir, "raragd.service"@);
            let mp = path_join(unit_dir, "rarag-mcp.service"@);
            match unit_write(dp, existing_daemon, daemon_unit(daemon, config), force) {
                Err(e) => Err(e),
                Ok(wd) => match unit_write(mp, existing_mcp, mcp_unit(mcp, config), force) {
                    Err(e) => Err(e),
                    Ok(wm) => Ok(
                        seq![StepView::CreateDir(unit_dir)] + write_steps(dp, daemon_unit(daemon, config), wd)
                            + write_steps(mp, mcp_unit(mcp, config), wm) + seq![
                            StepView::Systemctl(seq!["daemon-reload"@]),
                            StepView::Systemctl(seq!["enable"@, "--now"@, "raragd.service"@]),
                            StepView::Systemctl(seq!["enable"@, "--now"@, "rarag-mcp.service"@]),
                        ],
                    ),
                },
            }
        },
        ServiceOperation::Start { target } => Ok(target_units(target).map_values(|u: Seq<char>| StepView::Systemctl(seq!["start"@, u]))),
        ServiceOperation::Stop { target } => Ok(target_units(target).map_values(|u: Seq<char>| StepView::Systemctl(seq!["stop"@, u]))),
        ServiceOperation::Restart { target } => Ok(target_units(target).map_values(|u: Seq<char>| StepView::Systemctl(seq!["restart"@, u]))),
        ServiceOperation::Reload { target } => if target == ServiceTarget::Mcp {
            Err("reload only supports raragd or all"@)
        } else {
            Ok(seq![StepView::Systemctl(seq!["kill"@, "-s"@, "HUP"@, "raragd.service"@])])
        },
    }
}

fn words(a: &str, b: &str) -> (r: Vec<String>)
    ensures
        views(r@) == seq![a@, b@],
{
    let mut v: Vec<String> = Vec::new();
    v.push(lit(a));
    v.push(lit(b));
    assert(views(v@) =~= seq![a@, b@]);
    v
}

fn words3(a: &str, b: &str, c: &str) -> (r: Vec<String>)
    ensures
        views(r@) == seq![a@, b@, c@],
{
    let mut v: Vec<String> = Vec::new();
    v.push(lit(a));
    v.push(lit(b));
    v.push(lit(c));
    assert(views(v@) =~= seq![a@, b@, c@]);
    v
}

fn push_step(steps: &mut Vec<ServiceStep>, s: ServiceStep)
    ensures
        step_views(final(steps)@) == step_views(old(steps)@).push(s@),
{
    steps.push(s);
    assert(step_views(steps@) =~= step_views(old(steps)@).push(s@));
}

/// The effects of a service operation (see [`operation_steps`]).
pub fn service_steps(
    command: &ServiceCommand,
    context: &ServiceInstallContext,
    unit_dir: &str,
    existing_daemon_unit: Option<&str>,
    existing_mcp_unit: Option<&str>,
) -> (r: Result<Vec<ServiceStep>, String>)
    ensures
        match operation_steps(
            command.operation,
            context.daemon_binary(),
            context.mcp_binary(),
            context.config(),
            unit_dir@,
            match existing_daemon_unit { Some(e) => Some(e@), None => None },
            match existing_mcp_unit { Some(e) => Some(e@), None => None },
        ) {
            Ok(v) => r is Ok && step_views(r->Ok_0@) == v,
            Err(e) => r is Err && r->Err_0@ == e,
        },
{
    let mut steps: Vec<ServiceStep> = Vec::new();
    match command.operation {
        ServiceOperation::Install { force } => {
            let dp = join_exec(lit(unit_dir), "raragd.service");
            let mp = join_exec(lit(unit_dir), "rarag-mcp.service");
            let dc = daemon_unit_contents(context);
            let mc = mcp_unit_contents(context);
            let wd = match unit_write_decision(dp.as_str(), existing_daemon_unit, dc.as_str(), force) {
                Ok(b) => b,
                Err(e) => {
                    return Err(e);
                },
            };
            let wm = match unit_write_decision(mp.as_str(), existing_mcp_unit, mc.as_str(), force) {
                Ok(b) => b,
                Err(e) => {
                    return Err(e);
                },
            };
            push_step(&mut steps, ServiceStep::CreateDir { path: lit(unit_dir) });
            if wd {
                push_step(&mut steps, ServiceStep::WriteUnit { path: dp, contents: dc });
            }
            if wm {
                push_step(&mut steps, ServiceStep::WriteUnit { path: mp, contents: mc });
            }
            let ghost s3 = step_views(steps@);
            let mut a1: Vec<String> = Vec::new();
            a1.push(lit("daemon-reload"));
            assert(views(a1@) =~= seq!["daemon-reload"@]);
            push_step(&mut steps, ServiceStep::Systemctl { args: a1 });
            let a2 = words3("enable", "--now", "raragd.service");
            assert(views(a2@) =~= seq!["enable"@, "--now"@, "raragd.service"@]);
            push_step(&mut steps, ServiceStep::Systemctl { args: a2 });
            let a3 = words3("enable", "--now", "rarag-mcp.service");
            assert(views(a3@) =~= seq!["enable"@, "--now"@, "rarag-mcp.service"@]);
            push_step(&mut steps, ServiceStep::Systemctl { args: a3 });
            assert(step_views(steps@) =~= s3 + seq![
                StepView::Systemctl(seq!["daemon-reload"@]),
                StepView::Systemctl(seq!["enable"@, "--now"@, "raragd.service"@]),
                StepView::Systemctl(seq!["enable"@, "--now"@, "rarag-mcp.service"@]),
            ]);
            Ok(steps)
        },
        ServiceOperation::Reload { target } => {
            if target == ServiceTarget::Mcp {
                return Err(lit("reload only supports raragd or all"));
            }
            let mut a: Vec<String> = Vec::new();
            a.push(lit("kill"));
            a.push(lit("-s"));
            a.push(lit("HUP"));
            a.push(lit("raragd.service"));
            assert(views(a@) =~= seq!["kill"@, "-s"@, "HUP"@, "raragd.service"@]);
            push_step(&mut steps, ServiceStep::Systemctl { args: a });
            assert(step_views(steps@) =~= seq![StepView::Systemctl(seq!["kill"@, "-s"@, "HUP"@, "raragd.service"@])]);
            Ok(steps)
        },
        ServiceOperation::Start { target } | ServiceOperation::Stop { target } | ServiceOperation::Restart { target } => {
            let verb = operation_name(&command.operation);
            let units = units_for_target(target);
            let mut i: usize = 0;
            while i < units.len()
                invariant
                    0 <= i <= units@.len(),
                    units@.map_values(|u: &str| u@) == target_units(target),
                    step_views(steps@) == target_units(target).take(i as int).map_values(
                        |u: Seq<char>| StepView::Systemctl(seq![verb@, u]),
                    ),
                decreases units.len() - i,
            {
                let a = words(verb, units[i]);
                assert(units@.map_values(|u: &str| u@)[i as int] == units@[i as int]@);
                push_step(&mut steps, ServiceStep::Systemctl { args: a });
                assert(target_units(target).take(i + 1) =~= target_units(target).take(i as int).push(target_units(target)[i as int]));
                assert(step_views(steps@) =~= target_units(target).take(i + 1).map_values(
                    |u: Seq<char>| StepView::Systemctl(seq![verb@, u]),
                ));
                i = i + 1;
            }
            assert(target_units(target).take(units@.len() as int) =~= target_units(target));
            Ok(steps)
        },
    }
}

/// What an operation reports: its name, the commands it runs, and the
/// unit files it changes.
#[derive(Debug, Clone, PartialEq, Eq)]
pub struct ServiceReport {
    pub operation: String,
    pub commands: Vec<String>,
    pub changed_files: Vec<String>,
}

/// `systemctl --user <args>`.
pub open spec fn systemctl_line(args: Seq<Seq<char>>) -> Seq<char> {
    "systemctl --user "@ + join(args, " "@)
}

/// The commands a dry run prints for its steps.
pub open spec fn step_command(s: StepView) -> Seq<char> {
    match s {
        StepView::CreateDir(p) => "mkdir -p "@ + p,
        StepView::WriteUnit(p, _) => "write "@ + p,
        StepView::Systemctl(a) => systemctl_line(a),
    }
}

pub open spec fn changed_file(s: StepView) -> Seq<Seq<char>> {
    match s {
        StepView::WriteUnit(p, _) => seq![p],
        _ => seq![],
    }
}

pub open spec fn changed_upto(steps: Seq<StepView>, n: int) -> Seq<Seq<char>>
    decreases n,
{
    if n <= 0 || n > steps.len() {
        seq![]
    } else {
        changed_upto(steps, n - 1) + changed_file(steps[n - 1])
    }
}

/// The report of a dry run: every step as a command, and the unit files
/// that would be written.
pub fn plan(
    command: &ServiceCommand,
    context: &ServiceInstallContext,
    unit_dir: &str,
    existing_daemon_unit: Option<&str>,
    existing_mcp_unit: Option<&str>,
) -> (r: Result<ServiceReport, String>)
    ensures
        match operation_steps(
            command.operation,
            context.daemon_binary(),
            context.mcp_binary(),
            context.config(),
            unit_dir@,
            match existing_daemon_unit { Some(e) => Some(e@), None => None },
            match existing_mcp_unit { Some(e) => Some(e@), None => None },
        ) {
            Ok(v) => r is Ok && r->Ok_0.operation@ == operation_label(command.operation)
                && views(r->Ok_0.commands@) == v.map_values(|s: StepView| step_command(s))
                && views(r->Ok_0.changed_files@) == changed_upto(v, v.len() as int),
            Err(e) => r is Err && r->Err_0@ == e,
        },
{
    let steps = match service_steps(command, context, unit_dir, existing_daemon_unit, existing_mcp_unit) {
        Ok(s) => s,
        Err(e) => {
            return Err(e);
        },
    };
    let ghost sv = step_views(steps@);
    let mut commands: Vec<String> = Vec::new();
    let mut changed: Vec<String> = Vec::new();
    let mut i: usize = 0;
    while i < steps.len()
        invariant
            0 <= i <= steps@.len(),
            sv == step_views(steps@),
            views(commands@) == sv.take(i as int).map_values(|s: StepView| step_command(s)),
            views(changed@) == changed_upto(sv, i as int),
        decreases steps.len() - i,
    {
        let ghost before_c = views(commands@);
        let ghost before_f = views(changed@);
        match &steps[i] {
            ServiceStep::CreateDir { path } => {
                let mut c = lit("mkdir -p ");
                push_str(&mut c, path.as_str());
                commands.push(c);
                assert(views(changed@) =~= before_f + changed_file(sv[i as int]));
            },
            ServiceStep::WriteUnit { path, contents: _ } => {
                let mut c = lit("write ");
                push_str(&mut c, path.as_str());
                commands.push(c);
                changed.push(path.clone());
                assert(views(changed@) =~= before_f + changed_file(sv[i as int]));
            },
            ServiceStep::Systemctl { args } => {
                let mut c = lit("systemctl --user ");
                let j = join_strings(args.as_slice(), " ");
                push_str(&mut c, j.as_str());
                commands.push(c);
                assert(views(changed@) =~= before_f + changed_file(sv[i as int]));
            },
        }
        assert(views(commands@) =~= before_c.push(step_command(sv[i as int])));
        assert(sv.take(i + 1) =~= sv.take(i as int).push(sv[i as int]));
        assert(views(commands@) =~= sv.take(i + 1).map_values(|s: StepView| step_command(s)));
        i = i + 1;
    }
    assert(sv.take(steps@.len() as int) =~= sv);
    Ok(ServiceReport { operation: lit(operation_name(&command.operation)), commands, changed_files: changed })
}

/// The commands a real run records: only the `systemctl` invocations.
pub open spec fn run_commands(steps: Seq<StepView>, n: int) -> Seq<Seq<char>>
    decreases n,
{
    if n <= 0 || n > steps.len() {
        seq![]
    } else {
        run_commands(steps, n - 1) + match steps[n - 1] {
            StepView::Systemctl(a) => seq![systemctl_line(a)],
            _ => seq![],
        }
    }
}

/// A service operation to carry out: the steps, in order, and the report
/// of a run in which every step succeeds.
#[derive(Debug, Clone, PartialEq, Eq)]
pub struct ServiceExecution {
    pub steps: Vec<ServiceStep>,
    pub report: ServiceReport,
}

/// The steps of an operation and the report of its successful run: the
/// `systemctl` commands it ran and the unit files it wrote. The caller
/// performs the steps in order and stops at the first that fails.
pub fn execute(
    command: &ServiceCommand,
    context: &ServiceInstallContext,
    unit_dir: &str,
    existing_daemon_unit: Option<&str>,
    existing_mcp_unit: Option<&str>,
) -> (r: Result<ServiceExecution, String>)
    ensures
        match operation_steps(
            command.operation,
            context.daemon_binary(),
            context.mcp_binary(),
            context.config(),
            unit_dir@,
            match existing_daemon_unit { Some(e) => Some(e@), None => None },
            match existing_mcp_unit { Some(e) => Some(e@), None => None },
        ) {
            Ok(v) => r is Ok && step_views(r->Ok_0.steps@) == v && r->Ok_0.report.operation@ == operation_label(
                command.operation,
            ) && views(r->Ok_0.report.commands@) == run_commands(v, v.len() as int) && views(
                r->Ok_0.report.changed_files@,
            ) == changed_upto(v, v.len() as int),
            Err(e) => r is Err && r->Err_0@ == e,
        },
{
    let steps = match service_steps(command, context, unit_dir, existing_daemon_unit, existing_mcp_unit) {
        Ok(s) => s,
        Err(e) => {
            return Err(e);
        },
    };
    let ghost sv = step_views(steps@);
    let mut commands: Vec<String> = Vec::new();
    let mut changed: Vec<String> = Vec::new();
    let mut i: usize = 0;
    while i < steps.len()
        invariant
            0 <= i <= steps@.len(),
            sv == step_views(steps@),
            views(commands@) == run_commands(sv, i as int),
            views(changed@) == changed_upto(sv, i as int),
        decreases steps.len() - i,
    {
        let ghost before_c = views(commands@);
        let ghost before_f = views(changed@);
        match &steps[i] {
            ServiceStep::CreateDir { path: _ } => {
                assert(views(commands@) =~= run_commands(sv, i + 1));
                assert(views(changed@) =~= before_f + changed_file(sv[i as int]));
            },
            ServiceStep::WriteUnit { path, contents: _ } => {
                changed.push(path.clone());
                assert(views(commands@) =~= run_commands(sv, i + 1));
                assert(views(changed@) =~= before_f + changed_file(sv[i as int]));
            },
            ServiceStep::Systemctl { args } => {
                let mut c = lit("systemctl --user ");
                let j = join_strings(args.as_slice(), " ");
                push_str(&mut c, j.as_str());
                commands.push(c);
                assert(views(commands@) =~= before_c + seq![systemctl_line(views(args@))]);
                assert(views(changed@) =~= before_f + changed_file(sv[i as int]));
            },
        }
        i = i + 1;
    }
    let report = ServiceReport { operation: lit(operation_name(&command.operation)), commands, changed_files: changed };
    Ok(ServiceExecution { steps, report })
}

/// The error of a failed `systemctl` run: its trimmed standard error, or
/// its arguments when that is empty.
pub fn systemctl_failure(args: &[String], stderr: &str) -> (r: String)
    ensures
        r@ == "systemctl failed: "@ + if crate::text::trim(stderr@).len() == 0 {
            join(views(args@), " "@)
        } else {
            crate::text::trim(stderr@)
        },
{
    let t = crate::text::trim_str(stderr);
    let mut r = lit("systemctl failed: ");
    let tc = chars_of(t.as_str());
    if tc.len() == 0 {
        let j = join_strings(args, " ");
        push_str(&mut r, j.as_str());
    } else {
        push_str(&mut r, t.as_str());
    }
    r
}

} // verus!
