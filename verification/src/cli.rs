//! The command line of the `rarag` client: which daemon request, service
//! operation or evaluation replay a list of arguments asks for.
use crate::chunking::types::{lit, opt_view};
use crate::daemon::{parse_workflow_phase, phase_named, DaemonRequest, DaemonRequestView, QueryPayload, QueryPayloadView, WorkflowPhase};
use crate::retrieval::query::QueryMode;
use crate::snapshot::{normalized_features, str_views, SnapshotKey, SnapshotKeyView};
use crate::text::{chars_of, push_str, split, split_chars, split_ranges, str_equal, views, as_int_pairs};
use vstd::prelude::*;

verus! {

/// A parsed command: what to do, the daemon socket, and the output flags.
#[derive(Debug, Clone, PartialEq, Eq)]
pub struct CliCommand {
    pub action: CliAction,
    pub socket_path: String,
    pub json: bool,
    pub dry_run: bool,
}

#[derive(Debug, Clone, PartialEq, Eq)]
pub enum CliAction {
    DaemonRequest(DaemonRequest),
    Service(ServiceCommand),
    EvalReplay(EvalReplayCommand),
}

#[derive(Debug, Clone, Copy, PartialEq, Eq, Structural)]
pub struct ServiceCommand {
    pub operation: ServiceOperation,
}

/// A replay of evaluation tasks against a snapshot or a worktree.
#[derive(Debug, Clone, PartialEq, Eq)]
pub struct EvalReplayCommand {
    pub fixtures_path: String,
    pub snapshot_id: Option<String>,
    pub worktree_root: Option<String>,
    pub include_history: bool,
    pub history_max_nodes: Option<usize>,
    pub limit: Option<usize>,
}

#[derive(Debug, Clone, Copy, PartialEq, Eq, Structural)]
pub enum ServiceOperation {
    Install { force: bool },
    Start { target: ServiceTarget },
    Stop { target: ServiceTarget },
    Restart { target: ServiceTarget },
    Reload { target: ServiceTarget },
}

/// Which user services an operation applies to.
#[derive(Debug, Clone, Copy, PartialEq, Eq, Structural)]
pub enum ServiceTarget {
    All,
    Daemon,
    Mcp,
}

pub struct EvalReplayView {
    pub fixtures_path: Seq<char>,
    pub snapshot_id: Option<Seq<char>>,
    pub worktree_root: Option<Seq<char>>,
    pub include_history: bool,
    pub history_max_nodes: Option<usize>,
    pub limit: Option<usize>,
}

impl View for EvalReplayCommand {
    type V = EvalReplayView;

    open spec fn view(&self) -> EvalReplayView {
        EvalReplayView {
            fixtures_path: self.fixtures_path@,
            snapshot_id: opt_view(self.snapshot_id),
            worktree_root: opt_view(self.worktree_root),
            include_history: self.include_history,
            history_max_nodes: self.history_max_nodes,
            limit: self.limit,
        }
    }
}

pub enum CliActionView {
    DaemonRequest(DaemonRequestView),
    Service(ServiceOperation),
    EvalReplay(EvalReplayView),
}

impl View for CliAction {
    type V = CliActionView;

    open spec fn view(&self) -> CliActionView {
        match self {
            CliAction::DaemonRequest(r) => CliActionView::DaemonRequest(r@),
            CliAction::Service(s) => CliActionView::Service(s.operation),
            CliAction::EvalReplay(e) => CliActionView::EvalReplay(e@),
        }
    }
}

pub struct CliCommandView {
    pub action: CliActionView,
    pub socket_path: Seq<char>,
    pub json: bool,
    pub dry_run: bool,
}

impl View for CliCommand {
    type V = CliCommandView;

    open spec fn view(&self) -> CliCommandView {
        CliCommandView {
            action: self.action@,
            socket_path: self.socket_path@,
            json: self.json,
            dry_run: self.dry_run,
        }
    }
}

// ---------------------------------------------------------------------
// Options.

/// The value after the first occurrence of `flag` at or after `i` that has
/// an argument after it.
pub open spec fn find_opt(args: Seq<Seq<char>>, flag: Seq<char>, i: int) -> Option<Seq<char>>
    decreases args.len() - i,
{
    if i < 0 || i + 1 >= args.len() {
        None
    } else if args[i] == flag {
        Some(args[i + 1])
    } else {
        find_opt(args, flag, i + 1)
    }
}

pub open spec fn opt_value(args: Seq<Seq<char>>, flag: Seq<char>) -> Option<Seq<char>> {
    find_opt(args, flag, 0)
}

pub open spec fn has_arg(args: Seq<Seq<char>>, flag: Seq<char>) -> bool {
    exists|i: int| 0 <= i < args.len() && args[i] == flag
}

/// The values after every occurrence of `flag` from `i` on.
pub open spec fn repeated_from(args: Seq<Seq<char>>, flag: Seq<char>, i: int) -> Seq<Seq<char>>
    decreases args.len() - i,
{
    if i < 0 || i + 1 >= args.len() {
        seq![]
    } else if args[i] == flag {
        seq![args[i + 1]] + repeated_from(args, flag, i + 1)
    } else {
        repeated_from(args, flag, i + 1)
    }
}

/// The value of `primary`, or else of `alias`.
pub open spec fn locator(args: Seq<Seq<char>>, primary: Seq<char>, alias: Seq<char>) -> Option<Seq<char>> {
    match opt_value(args, primary) {
        Some(x) => Some(x),
        None => opt_value(args, alias),
    }
}

pub open spec fn required(args: Seq<Seq<char>>, flag: Seq<char>) -> Result<Seq<char>, Seq<char>> {
    match opt_value(args, flag) {
        Some(x) => Ok(x),
        None => Err("missing required flag "@ + flag),
    }
}

pub open spec fn required_alias(args: Seq<Seq<char>>, primary: Seq<char>, alias: Seq<char>) -> Result<
    Seq<char>,
    Seq<char>,
> {
    match locator(args, primary, alias) {
        Some(x) => Ok(x),
        None => Err("missing required flag "@ + primary),
    }
}

fn arg_is(args: &[String], i: usize, word: &str) -> (r: bool)
    ensures
        r == (i < args@.len() && args@[i as int]@ == word@),
{
    if i < args.len() {
        str_equal(args[i].as_str(), word)
    } else {
        false
    }
}

/// The value after the first `flag` that has one.
pub fn option_value(args: &[String], flag: &str) -> (r: Option<String>)
    ensures
        opt_view(r) == opt_value(views(args@), flag@),
{
    let ghost a = views(args@);
    let mut i: usize = 0;
    while args.len() > 1 && i < args.len() - 1
        invariant
            0 <= i <= args@.len(),
            a == views(args@),
            find_opt(a, flag@, 0) == find_opt(a, flag@, i as int),
        decreases args.len() - i,
    {
        if str_equal(args[i].as_str(), flag) {
            return Some(args[i + 1].clone());
        }
        i = i + 1;
    }
    None
}

/// Whether `flag` is one of the arguments.
pub fn has_flag(args: &[String], flag: &str) -> (r: bool)
    ensures
        r == has_arg(views(args@), flag@),
{
    let mut i: usize = 0;
    while i < args.len()
        invariant
            0 <= i <= args@.len(),
            forall|k: int| 0 <= k < i ==> views(args@)[k] != flag@,
        decreases args.len() - i,
    {
        if str_equal(args[i].as_str(), flag) {
            assert(views(args@)[i as int] == flag@);
            return true;
        }
        i = i + 1;
    }
    false
}

/// The values after every occurrence of `flag`.
pub fn repeated_values(args: &[String], flag: &str) -> (r: Vec<String>)
    ensures
        views(r@) == repeated_from(views(args@), flag@, 0),
{
    let ghost a = views(args@);
    let mut out: Vec<String> = Vec::new();
    let mut i: usize = 0;
    assert(views(out@) + repeated_from(a, flag@, 0) =~= repeated_from(a, flag@, 0));
    while args.len() > 1 && i < args.len() - 1
        invariant
            0 <= i <= args@.len(),
            a == views(args@),
            views(out@) + repeated_from(a, flag@, i as int) == repeated_from(a, flag@, 0),
        decreases args.len() - i,
    {
        if str_equal(args[i].as_str(), flag) {
            let ghost before = views(out@);
            out.push(args[i + 1].clone());
            assert(views(out@) =~= before.push(a[i + 1]));
            assert(before + repeated_from(a, flag@, i as int) =~= views(out@) + repeated_from(a, flag@, i + 1));
        }
        i = i + 1;
    }
    assert(views(out@) + repeated_from(a, flag@, i as int) =~= views(out@));
    out
}

pub fn locator_option(args: &[String], primary_flag: &str, alias_flag: &str) -> (r: Option<String>)
    ensures
        opt_view(r) == locator(views(args@), primary_flag@, alias_flag@),
{
    match option_value(args, primary_flag) {
        Some(x) => Some(x),
        None => option_value(args, alias_flag),
    }
}

pub fn required_option(args: &[String], flag: &str) -> (r: Result<String, String>)
    ensures
        match required(views(args@), flag@) {
            Ok(x) => r is Ok && r->Ok_0@ == x,
            Err(e) => r is Err && r->Err_0@ == e,
        },
{
    match option_value(args, flag) {
        Some(x) => Ok(x),
        None => {
            let mut e = lit("missing required flag ");
            push_str(&mut e, flag);
            Err(e)
        },
    }
}

pub fn required_option_alias(args: &[String], primary_flag: &str, alias_flag: &str) -> (r: Result<
    String,
    String,
>)
    ensures
        match required_alias(views(args@), primary_flag@, alias_flag@) {
            Ok(x) => r is Ok && r->Ok_0@ == x,
            Err(e) => r is Err && r->Err_0@ == e,
        },
{
    match locator_option(args, primary_flag, alias_flag) {
        Some(x) => Ok(x),
        None => {
            let mut e = lit("missing required flag ");
            push_str(&mut e, primary_flag);
            Err(e)
        },
    }
}

// ---------------------------------------------------------------------
// Numbers.

/// Why a decimal number was refused (`ParseIntError`'s kinds).
#[derive(Debug, Clone, Copy, PartialEq, Eq, Structural)]
pub enum IntErrorKind {
    Empty,
    InvalidDigit,
    PosOverflow,
}

pub open spec fn is_digit(c: char) -> bool {
    '0' <= c && c <= '9'
}

/// The decimal digits of `s` from `i` on, accumulated onto `acc`: every
/// character must be a digit, and the value must stay within `usize`.
pub open spec fn digits_value(s: Seq<char>, i: int, acc: int) -> Result<int, IntErrorKind>
    decreases s.len() - i,
{
    if i < 0 || i >= s.len() {
        Ok(acc)
    } else if !is_digit(s[i]) {
        Err(IntErrorKind::InvalidDigit)
    } else if acc * 10 + (s[i] as int - 48) > usize::MAX {
        Err(IntErrorKind::PosOverflow)
    } else {
        digits_value(s, i + 1, acc * 10 + (s[i] as int - 48))
    }
}

/// `str::parse::<usize>`: an optional `+` followed by decimal digits.
pub open spec fn parse_usize_spec(s: Seq<char>) -> Result<usize, IntErrorKind> {
    if s.len() == 0 {
        Err(IntErrorKind::Empty)
    } else if s.len() == 1 && (s[0] == '+' || s[0] == '-') {
        Err(IntErrorKind::InvalidDigit)
    } else {
        match digits_value(s, if s[0] == '+' { 1 } else { 0 }, 0) {
            Ok(v) => Ok(v as usize),
            Err(e) => Err(e),
        }
    }
}

pub proof fn lemma_digits_value_bounds(s: Seq<char>, i: int, acc: int)
    requires
        0 <= acc <= usize::MAX,
    ensures
        digits_value(s, i, acc) is Ok ==> 0 <= digits_value(s, i, acc)->Ok_0 <= usize::MAX,
    decreases s.len() - i,
{
    if 0 <= i < s.len() && is_digit(s[i]) && acc * 10 + (s[i] as int - 48) <= usize::MAX {
        lemma_digits_value_bounds(s, i + 1, acc * 10 + (s[i] as int - 48));
    }
}

/// Parses a decimal `usize` as `str::parse` does.
pub fn parse_usize(s: &str) -> (r: Result<usize, IntErrorKind>)
    ensures
        r == parse_usize_spec(s@),
{
    let cs = chars_of(s);
    if cs.len() == 0 {
        return Err(IntErrorKind::Empty);
    }
    if cs.len() == 1 && (cs[0] == '+' || cs[0] == '-') {
        return Err(IntErrorKind::InvalidDigit);
    }
    let mut i: usize = if cs[0] == '+' {
        1
    } else {
        0
    };
    let mut acc: usize = 0;
    proof {
        lemma_digits_value_bounds(s@, i as int, 0);
    }
    while i < cs.len()
        invariant
            0 <= i <= cs@.len(),
            cs@ == s@,
            s@.len() > 0,
            digits_value(s@, if s@[0] == '+' { 1 } else { 0 }, 0) == digits_value(s@, i as int, acc as int),
        decreases cs.len() - i,
    {
        let c = cs[i];
        if !('0' <= c && c <= '9') {
            return Err(IntErrorKind::InvalidDigit);
        }
        let d = (c as u32 - 48) as usize;
        assert(d as int == c as int - 48);
        let m = acc.checked_mul(10);
        match m {
            None => {
                return Err(IntErrorKind::PosOverflow);
            },
            Some(m) => match m.checked_add(d) {
                None => {
                    return Err(IntErrorKind::PosOverflow);
                },
                Some(v) => {
                    acc = v;
                },
            },
        }
        i = i + 1;
    }
    Ok(acc)
}

pub open spec fn int_error_text(k: IntErrorKind) -> Seq<char> {
    match k {
        IntErrorKind::Empty => "cannot parse integer from empty string"@,
        IntErrorKind::InvalidDigit => "invalid digit found in string"@,
        IntErrorKind::PosOverflow => "number too large to fit in target type"@,
    }
}

pub fn int_error_message(k: IntErrorKind) -> (r: &'static str)
    ensures
        r@ == int_error_text(k),
{
    match k {
        IntErrorKind::Empty => "cannot parse integer from empty string",
        IntErrorKind::InvalidDigit => "invalid digit found in string",
        IntErrorKind::PosOverflow => "number too large to fit in target type",
    }
}

/// The number after `flag`, if the flag is given; `invalid <flag>: ...`
/// when it is not a number.
pub open spec fn opt_number(args: Seq<Seq<char>>, flag: Seq<char>) -> Result<Option<usize>, Seq<char>> {
    match opt_value(args, flag) {
        None => Ok(None),
        Some(v) => match parse_usize_spec(v) {
            Ok(n) => Ok(Some(n)),
            Err(k) => Err("invalid "@ + flag + ": "@ + int_error_text(k)),
        },
    }
}

fn option_number(args: &[String], flag: &str) -> (r: Result<Option<usize>, String>)
    ensures
        match opt_number(views(args@), flag@) {
            Ok(x) => r == Ok::<Option<usize>, String>(x),
            Err(e) => r is Err && r->Err_0@ == e,
        },
{
    match option_value(args, flag) {
        None => Ok(None),
        Some(v) => match parse_usize(v.as_str()) {
            Ok(n) => Ok(Some(n)),
            Err(k) => {
                let mut e = lit("invalid ");
                push_str(&mut e, flag);
                push_str(&mut e, ": ");
                push_str(&mut e, int_error_message(k));
                Err(e)
            },
        },
    }
}

// ---------------------------------------------------------------------
// Queries.

pub open spec fn parse_query_mode_spec(v: Seq<char>) -> Result<QueryMode, Seq<char>> {
    if v == "understand-symbol"@ {
        Ok(QueryMode::UnderstandSymbol)
    } else if v == "implement-adjacent"@ {
        Ok(QueryMode::ImplementAdjacent)
    } else if v == "bounded-refactor"@ {
        Ok(QueryMode::BoundedRefactor)
    } else if v == "find-examples"@ {
        Ok(QueryMode::FindExamples)
    } else if v == "blast-radius"@ {
        Ok(QueryMode::BlastRadius)
    } else {
        Err("unsupported --mode "@ + v)
    }
}

/// Every mode is parsed back from its spelling.
pub proof fn lemma_query_mode_roundtrip(m: QueryMode)
    ensures
        parse_query_mode_spec(crate::retrieval::query::mode_name(m)) == Ok::<QueryMode, Seq<char>>(m),
{
    reveal_strlit("understand-symbol");
    reveal_strlit("implement-adjacent");
    reveal_strlit("bounded-refactor");
    reveal_strlit("find-examples");
    reveal_strlit("blast-radius");
    assert("understand-symbol"@.len() == 17);
    assert("implement-adjacent"@.len() == 18);
    assert("bounded-refactor"@.len() == 16);
    assert("find-examples"@.len() == 13);
    assert("blast-radius"@.len() == 12);
}

/// The mode named by its command-line spelling.
pub fn parse_query_mode(value: &str) -> (r: Result<QueryMode, String>)
    ensures
        match parse_query_mode_spec(value@) {
            Ok(m) => r == Ok::<QueryMode, String>(m),
            Err(e) => r is Err && r->Err_0@ == e,
        },
{
    if str_equal(value, "understand-symbol") {
        Ok(QueryMode::UnderstandSymbol)
    } else if str_equal(value, "implement-adjacent") {
        Ok(QueryMode::ImplementAdjacent)
    } else if str_equal(value, "bounded-refactor") {
        Ok(QueryMode::BoundedRefactor)
    } else if str_equal(value, "find-examples") {
        Ok(QueryMode::FindExamples)
    } else if str_equal(value, "blast-radius") {
        Ok(QueryMode::BlastRadius)
    } else {
        let mut e = lit("unsupported --mode ");
        push_str(&mut e, value);
        Err(e)
    }
}

/// The workflow phase of `--phase`, if given; an error when it names no
/// phase.
pub open spec fn opt_phase(args: Seq<Seq<char>>) -> Result<Option<WorkflowPhase>, Seq<char>> {
    match opt_value(args, "--phase"@) {
        None => Ok(None),
        Some(v) => match phase_named(v) {
            Some(p) => Ok(Some(p)),
            None => Err("unsupported --phase "@ + v),
        },
    }
}

fn option_phase(args: &[String]) -> (r: Result<Option<WorkflowPhase>, String>)
    ensures
        match opt_phase(views(args@)) {
            Ok(p) => r == Ok::<Option<WorkflowPhase>, String>(p),
            Err(e) => r is Err && r->Err_0@ == e,
        },
{
    match option_value(args, "--phase") {
        None => Ok(None),
        Some(v) => match parse_workflow_phase(v.as_str()) {
            Some(p) => Ok(Some(p)),
            None => {
                let mut e = lit("unsupported --phase ");
                push_str(&mut e, v.as_str());
                Err(e)
            },
        },
    }
}

/// A query for `mode` from the arguments.
pub open spec fn named_payload_spec(args: Seq<Seq<char>>, mode: QueryMode) -> Result<QueryPayloadView, Seq<char>> {
    match required(args, "--text"@) {
        Err(e) => Err(e),
        Ok(text) => match opt_number(args, "--limit"@) {
            Err(e) => Err(e),
            Ok(limit) => match opt_number(args, "--history-max-nodes"@) {
                Err(e) => Err(e),
                Ok(h) => match opt_phase(args) {
                Err(e) => Err(e),
                Ok(phase) => Ok(
                    QueryPayloadView {
                        snapshot_id: locator(args, "--snapshot-id"@, "--snapshot"@),
                        worktree_root: locator(args, "--worktree-root"@, "--worktree"@),
                        query_mode: mode,
                        query_text: text,
                        symbol_path: opt_value(args, "--symbol-path"@),
                        limit,
                        changed_paths: repeated_from(args, "--changed-path"@, 0),
                        include_history: has_arg(args, "--include-history"@),
                        history_max_nodes: h,
                        eval_task_id: opt_value(args, "--eval-task-id"@),
                        workflow_phase: phase,
                    },
                ),
                },
            },
        },
    }
}

/// A query whose mode is `--mode` (or blast radius when forced).
pub open spec fn query_payload_spec(args: Seq<Seq<char>>, force_blast_radius: bool) -> Result<QueryPayloadView, Seq<char>> {
    if force_blast_radius {
        named_payload_spec(args, QueryMode::BlastRadius)
    } else {
        match required(args, "--mode"@) {
            Err(e) => Err(e),
            Ok(m) => match parse_query_mode_spec(m) {
                Err(e) => Err(e),
                Ok(mode) => named_payload_spec(args, mode),
            },
        }
    }
}

pub fn parse_named_query_payload(args: &[String], query_mode: QueryMode) -> (r: Result<QueryPayload, String>)
    ensures
        match named_payload_spec(views(args@), query_mode) {
            Ok(v) => r is Ok && r->Ok_0@ == v,
            Err(e) => r is Err && r->Err_0@ == e,
        },
{
    let query_text = match required_option(args, "--text") {
        Ok(t) => t,
        Err(e) => {
            return Err(e);
        },
    };
    let limit = match option_number(args, "--limit") {
        Ok(l) => l,
        Err(e) => {
            return Err(e);
        },
    };
    let history_max_nodes = match option_number(args, "--history-max-nodes") {
        Ok(h) => h,
        Err(e) => {
            return Err(e);
        },
    };
    let workflow_phase = match option_phase(args) {
        Ok(p) => p,
        Err(e) => {
            return Err(e);
        },
    };
    Ok(
        QueryPayload {
            snapshot_id: locator_option(args, "--snapshot-id", "--snapshot"),
            worktree_root: locator_option(args, "--worktree-root", "--worktree"),
            query_mode,
            query_text,
            symbol_path: option_value(args, "--symbol-path"),
            limit,
            changed_paths: repeated_values(args, "--changed-path"),
            include_history: has_flag(args, "--include-history"),
            history_max_nodes,
            eval_task_id: option_value(args, "--eval-task-id"),
            workflow_phase,
        },
    )
}

pub fn parse_query_payload(args: &[String], force_blast_radius: bool) -> (r: Result<QueryPayload, String>)
    ensures
        match query_payload_spec(views(args@), force_blast_radius) {
            Ok(v) => r is Ok && r->Ok_0@ == v,
            Err(e) => r is Err && r->Err_0@ == e,
        },
{
    if force_blast_radius {
        return parse_named_query_payload(args, QueryMode::BlastRadius);
    }
    let m = match required_option(args, "--mode") {
        Ok(m) => m,
        Err(e) => {
            return Err(e);
        },
    };
    let mode = match parse_query_mode(m.as_str()) {
        Ok(mode) => mode,
        Err(e) => {
            return Err(e);
        },
    };
    parse_named_query_payload(args, mode)
}

// ---------------------------------------------------------------------
// Evaluation replays and services.

pub open spec fn eval_replay_spec(args: Seq<Seq<char>>) -> Result<EvalReplayView, Seq<char>> {
    let sid = locator(args, "--snapshot-id"@, "--snapshot"@);
    let wt = locator(args, "--worktree-root"@, "--worktree"@);
    if sid is None && wt is None {
        Err("eval replay requires --snapshot or --worktree"@)
    } else {
        match required(args, "--fixtures"@) {
            Err(e) => Err(e),
            Ok(f) => match opt_number(args, "--history-max-nodes"@) {
                Err(e) => Err(e),
                Ok(h) => match opt_number(args, "--limit"@) {
                    Err(e) => Err(e),
                    Ok(l) => Ok(
                        EvalReplayView {
                            fixtures_path: f,
                            snapshot_id: sid,
                            worktree_root: wt,
                            include_history: has_arg(args, "--include-history"@),
                            history_max_nodes: h,
                            limit: l,
                        },
                    ),
                },
            },
        }
    }
}

pub fn parse_eval_replay_command(args: &[String]) -> (r: Result<EvalReplayCommand, String>)
    ensures
        match eval_replay_spec(views(args@)) {
            Ok(v) => r is Ok && r->Ok_0@ == v,
            Err(e) => r is Err && r->Err_0@ == e,
        },
{
    let snapshot_id = locator_option(args, "--snapshot-id", "--snapshot");
    let worktree_root = locator_option(args, "--worktree-root", "--worktree");
    if snapshot_id.is_none() && worktree_root.is_none() {
        return Err(lit("eval replay requires --snapshot or --worktree"));
    }
    let fixtures_path = match required_option(args, "--fixtures") {
        Ok(f) => f,
        Err(e) => {
            return Err(e);
        },
    };
    let history_max_nodes = match option_number(args, "--history-max-nodes") {
        Ok(h) => h,
        Err(e) => {
            return Err(e);
        },
    };
    let limit = match option_number(args, "--limit") {
        Ok(l) => l,
        Err(e) => {
            return Err(e);
        },
    };
    Ok(
        EvalReplayCommand {
            fixtures_path,
            snapshot_id,
            worktree_root,
            include_history: has_flag(args, "--include-history"),
            history_max_nodes,
            limit,
        },
    )
}

pub open spec fn service_target_spec(args: Seq<Seq<char>>) -> Result<ServiceTarget, Seq<char>> {
    match opt_value(args, "--service"@) {
        None => Ok(ServiceTarget::All),
        Some(v) => if v == "all"@ {
            Ok(ServiceTarget::All)
        } else if v == "raragd"@ {
            Ok(ServiceTarget::Daemon)
        } else if v == "rarag-mcp"@ {
            Ok(ServiceTarget::Mcp)
        } else {
            Err("unsupported --service value "@ + v)
        },
    }
}

pub fn parse_service_target(args: &[String]) -> (r: Result<ServiceTarget, String>)
    ensures
        match service_target_spec(views(args@)) {
            Ok(t) => r == Ok::<ServiceTarget, String>(t),
            Err(e) => r is Err && r->Err_0@ == e,
        },
{
    match option_value(args, "--service") {
        None => Ok(ServiceTarget::All),
        Some(v) => if str_equal(v.as_str(), "all") {
            Ok(ServiceTarget::All)
        } else if str_equal(v.as_str(), "raragd") {
            Ok(ServiceTarget::Daemon)
        } else if str_equal(v.as_str(), "rarag-mcp") {
            Ok(ServiceTarget::Mcp)
        } else {
            let mut e = lit("unsupported --service value ");
            push_str(&mut e, v.as_str());
            Err(e)
        },
    }
}

pub open spec fn reload_error() -> Seq<char> {
    "reload only supports raragd or all"@
}

pub open spec fn service_op_spec(sub: Seq<char>, args: Seq<Seq<char>>) -> Result<ServiceOperation, Seq<char>> {
    if sub == "install"@ {
        Ok(ServiceOperation::Install { force: has_arg(args, "--force"@) })
    } else if sub == "start"@ {
        match service_target_spec(args) {
            Ok(target) => Ok(ServiceOperation::Start { target }),
            Err(e) => Err(e),
        }
    } else if sub == "stop"@ {
        match service_target_spec(args) {
            Ok(target) => Ok(ServiceOperation::Stop { target }),
            Err(e) => Err(e),
        }
    } else if sub == "restart"@ {
        match service_target_spec(args) {
            Ok(target) => Ok(ServiceOperation::Restart { target }),
            Err(e) => Err(e),
        }
    } else if sub == "reload"@ {
        match service_target_spec(args) {
            Ok(target) => if target == ServiceTarget::Mcp {
                Err(reload_error())
            } else {
                Ok(ServiceOperation::Reload { target })
            },
            Err(e) => Err(e),
        }
    } else {
        Err("unsupported service command "@ + sub)
    }
}

pub fn parse_service_operation(subcommand: &str, args: &[String]) -> (r: Result<ServiceOperation, String>)
    ensures
        match service_op_spec(subcommand@, views(args@)) {
            Ok(op) => r == Ok::<ServiceOperation, String>(op),
            Err(e) => r is Err && r->Err_0@ == e,
        },
{
    if str_equal(subcommand, "install") {
        return Ok(ServiceOperation::Install { force: has_flag(args, "--force") });
    }
    let is_start = str_equal(subcommand, "start");
    let is_stop = str_equal(subcommand, "stop");
    let is_restart = str_equal(subcommand, "restart");
    let is_reload = str_equal(subcommand, "reload");
    if !(is_start || is_stop || is_restart || is_reload) {
        let mut e = lit("unsupported service command ");
        push_str(&mut e, subcommand);
        return Err(e);
    }
    let target = match parse_service_target(args) {
        Ok(t) => t,
        Err(e) => {
            return Err(e);
        },
    };
    if is_start {
        Ok(ServiceOperation::Start { target })
    } else if is_stop {
        Ok(ServiceOperation::Stop { target })
    } else if is_restart {
        Ok(ServiceOperation::Restart { target })
    } else if target == ServiceTarget::Mcp {
        Err(lit("reload only supports raragd or all"))
    } else {
        Ok(ServiceOperation::Reload { target })
    }
}

// ---------------------------------------------------------------------
// Index requests.

pub open spec fn default_or(v: Option<Seq<char>>, d: Seq<char>) -> Seq<char> {
    match v {
        Some(x) => x,
        None => d,
    }
}

pub open spec fn max_body_spec(args: Seq<Seq<char>>) -> Result<usize, Seq<char>> {
    match parse_usize_spec(default_or(opt_value(args, "--max-body-bytes"@), "80"@)) {
        Ok(n) => Ok(n),
        Err(k) => Err("invalid --max-body-bytes: "@ + int_error_text(k)),
    }
}

/// An index request: the snapshot key from `--repo-root`, `--worktree-root`
/// (or `--worktree`), `--git-sha`, `--cargo-target`, the comma-separated
/// `--feature` list and `--cfg-profile`, with the workspace root and the
/// body size limit.
pub open spec fn index_spec(args: Seq<Seq<char>>) -> Result<DaemonRequestView, Seq<char>> {
    match required(args, "--repo-root"@) {
        Err(e) => Err(e),
        Ok(repo) => match required_alias(args, "--worktree-root"@, "--worktree"@) {
            Err(e) => Err(e),
            Ok(wt) => match required(args, "--git-sha"@) {
                Err(e) => Err(e),
                Ok(sha) => match required(args, "--workspace-root"@) {
                    Err(e) => Err(e),
                    Ok(ws) => match max_body_spec(args) {
                        Err(e) => Err(e),
                        Ok(mb) => Ok(
                            DaemonRequestView::IndexWorkspace {
                                snapshot: SnapshotKeyView {
                                    repo_root: repo,
                                    worktree_root: wt,
                                    git_sha: sha,
                                    cargo_target: default_or(
                                        opt_value(args, "--cargo-target"@),
                                        "x86_64-unknown-linux-gnu"@,
                                    ),
                                    feature_set: normalized_features(
                                        split(default_or(opt_value(args, "--feature"@), "default"@), seq![',']),
                                    ),
                                    cfg_profile: default_or(opt_value(args, "--cfg-profile"@), "dev"@),
                                },
                                workspace_root: ws,
                                max_body_bytes: mb,
                            },
                        ),
                    },
                },
            },
        },
    }
}

fn option_or(args: &[String], flag: &str, default: &str) -> (r: String)
    ensures
        r@ == default_or(opt_value(views(args@), flag@), default@),
{
    match option_value(args, flag) {
        Some(x) => x,
        None => lit(default),
    }
}

/// The pieces of a text between commas (`str::split(',')`).
pub fn split_on_commas(text: &str) -> (r: Vec<String>)
    ensures
        views(r@) == split(text@, seq![',']),
{
    let fc = chars_of(text);
    let comma: Vec<char> = vec![','];
    assert(comma@ =~= seq![',']);
    let ranges = split_chars(fc.as_slice(), comma.as_slice());
    let mut pieces: Vec<String> = Vec::new();
    let mut k: usize = 0;
    while k < ranges.len()
        invariant
            0 <= k <= ranges@.len(),
            fc@ == text@,
            comma@ == seq![','],
            as_int_pairs(ranges@) == split_ranges(fc@, seq![',']),
            forall|q: int| 0 <= q < ranges@.len() ==> (#[trigger] ranges@[q]).0 <= ranges@[q].1 <= fc@.len(),
            views(pieces@) == split(text@, seq![',']).take(k as int),
        decreases ranges.len() - k,
    {
        let (a, b) = ranges[k];
        assert(as_int_pairs(ranges@)[k as int] == (a as int, b as int));
        let ghost before = views(pieces@);
        assert(split(text@, seq![','])[k as int] == fc@.subrange(a as int, b as int));
        pieces.push(crate::text::string_from_range(fc.as_slice(), a, b));
        assert(split(text@, seq![',']).len() == ranges@.len());
        assert(views(pieces@) =~= before.push(split(text@, seq![','])[k as int]));
        assert(split(text@, seq![',']).take(k + 1) =~= split(text@, seq![',']).take(k as int).push(split(text@, seq![','])[k as int]));
        k = k + 1;
    }
    assert(split(text@, seq![',']).len() == ranges@.len());
    assert(split(text@, seq![',']).take(ranges@.len() as int) =~= split(text@, seq![',']));
    pieces
}

fn index_request(args: &[String]) -> (r: Result<DaemonRequest, String>)
    ensures
        match index_spec(views(args@)) {
            Ok(v) => r is Ok && r->Ok_0@ == v,
            Err(e) => r is Err && r->Err_0@ == e,
        },
{
    let repo = match required_option(args, "--repo-root") {
        Ok(x) => x,
        Err(e) => {
            return Err(e);
        },
    };
    let wt = match required_option_alias(args, "--worktree-root", "--worktree") {
        Ok(x) => x,
        Err(e) => {
            return Err(e);
        },
    };
    let sha = match required_option(args, "--git-sha") {
        Ok(x) => x,
        Err(e) => {
            return Err(e);
        },
    };
    let target = option_or(args, "--cargo-target", "x86_64-unknown-linux-gnu");
    let features = option_or(args, "--feature", "default");
    let profile = option_or(args, "--cfg-profile", "dev");
    let pieces = split_on_commas(features.as_str());
    let mut refs: Vec<&str> = Vec::new();
    let mut j: usize = 0;
    while j < pieces.len()
        invariant
            0 <= j <= pieces@.len(),
            refs@.len() == j,
            str_views(refs@) == views(pieces@).take(j as int),
        decreases pieces.len() - j,
    {
        let ghost before = refs@;
        refs.push(pieces[j].as_str());
        assert(refs@[j as int]@ == pieces@[j as int]@);
        assert(refs@ =~= before.push(refs@[j as int]));
        assert(str_views(refs@) =~= views(pieces@).take(j + 1));
        j = j + 1;
    }
    assert(views(pieces@).take(pieces@.len() as int) =~= views(pieces@));
    let workspace_root = match required_option(args, "--workspace-root") {
        Ok(x) => x,
        Err(e) => {
            return Err(e);
        },
    };
    let mb_text = option_or(args, "--max-body-bytes", "80");
    let max_body_bytes = match parse_usize(mb_text.as_str()) {
        Ok(n) => n,
        Err(k) => {
            let mut e = lit("invalid --max-body-bytes: ");
            push_str(&mut e, int_error_message(k));
            return Err(e);
        },
    };
    let snapshot = SnapshotKey::new(
        repo.as_str(),
        wt.as_str(),
        sha.as_str(),
        target.as_str(),
        refs.as_slice(),
        profile.as_str(),
    );
    Ok(DaemonRequest::IndexWorkspace { snapshot, workspace_root, max_body_bytes })
}

// ---------------------------------------------------------------------
// Commands.

pub open spec fn index_compat(q: Option<Seq<char>>) -> bool {
    ||| q is None
    ||| q == Some("build"@)
    ||| (q is Some && q->0.len() > 0 && q->0[0] == '-')
}

pub open spec fn query_action(r: Result<QueryPayloadView, Seq<char>>, blast: bool) -> Result<CliActionView, Seq<char>> {
    match r {
        Ok(p) => Ok(
            CliActionView::DaemonRequest(
                if blast {
                    DaemonRequestView::BlastRadius(p)
                } else {
                    DaemonRequestView::Query(p)
                },
            ),
        ),
        Err(e) => Err(e),
    }
}

/// The action asked for by the first two words after the program name.
pub open spec fn cli_action(args: Seq<Seq<char>>, p: Option<Seq<char>>, q: Option<Seq<char>>) -> Result<
    CliActionView,
    Seq<char>,
> {
    if p == Some("daemon"@) && q == Some("reload"@) {
        Ok(CliActionView::DaemonRequest(DaemonRequestView::ReloadConfig))
    } else if p == Some("service"@) && q is Some {
        match service_op_spec(q->0, args) {
            Ok(op) => Ok(CliActionView::Service(op)),
            Err(e) => Err(e),
        }
    } else if p == Some("eval"@) && q == Some("replay"@) {
        match eval_replay_spec(args) {
            Ok(e) => Ok(CliActionView::EvalReplay(e)),
            Err(e) => Err(e),
        }
    } else if p == Some("status"@) || (p == Some("index"@) && q == Some("status"@)) || p == Some(
        "doctor"@,
    ) {
        Ok(
            CliActionView::DaemonRequest(
                DaemonRequestView::Status {
                    snapshot_id: locator(args, "--snapshot-id"@, "--snapshot"@),
                    worktree_root: locator(args, "--worktree-root"@, "--worktree"@),
                },
            ),
        )
    } else if p == Some("index"@) && index_compat(q) {
        match index_spec(args) {
            Ok(r) => Ok(CliActionView::DaemonRequest(r)),
            Err(e) => Err(e),
        }
    } else if p == Some("query"@) {
        query_action(query_payload_spec(args, false), false)
    } else if p == Some("symbol"@) {
        query_action(named_payload_spec(args, QueryMode::UnderstandSymbol), false)
    } else if p == Some("examples"@) {
        query_action(named_payload_spec(args, QueryMode::FindExamples), false)
    } else if p == Some("blast-radius"@) {
        query_action(query_payload_spec(args, true), true)
    } else {
        Err("unsupported command"@)
    }
}

pub open spec fn word_at(args: Seq<Seq<char>>, i: int) -> Option<Seq<char>> {
    if 0 <= i < args.len() {
        Some(args[i])
    } else {
        None
    }
}

/// The command of an argument list (`args[0]` is the program name).
pub open spec fn cli_parse(args: Seq<Seq<char>>, default_socket: Seq<char>, default_json: bool) -> Result<
    CliCommandView,
    Seq<char>,
> {
    match cli_action(args, word_at(args, 1), word_at(args, 2)) {
        Ok(action) => Ok(
            CliCommandView {
                action,
                socket_path: default_or(opt_value(args, "--socket"@), default_socket),
                json: has_arg(args, "--json"@) || default_json,
                dry_run: has_arg(args, "--dry-run-request"@),
            },
        ),
        Err(e) => Err(e),
    }
}

fn word_is(args: &[String], i: usize, word: &str) -> (r: bool)
    ensures
        r == (word_at(views(args@), i as int) == Some(word@)),
{
    arg_is(args, i, word)
}

fn payload_action(r: Result<QueryPayload, String>, blast: bool) -> (a: Result<CliAction, String>)
    ensures
        match r {
            Ok(p) => a is Ok && a->Ok_0@ == (if blast {
                CliActionView::DaemonRequest(DaemonRequestView::BlastRadius(p@))
            } else {
                CliActionView::DaemonRequest(DaemonRequestView::Query(p@))
            }),
            Err(e) => a is Err && a->Err_0@ == e@,
        },
{
    match r {
        Ok(p) => if blast {
            Ok(CliAction::DaemonRequest(DaemonRequest::BlastRadius(p)))
        } else {
            Ok(CliAction::DaemonRequest(DaemonRequest::Query(p)))
        },
        Err(e) => Err(e),
    }
}

fn parse_action(args: &[String]) -> (r: Result<CliAction, String>)
    ensures
        match cli_action(views(args@), word_at(views(args@), 1), word_at(views(args@), 2)) {
            Ok(v) => r is Ok && r->Ok_0@ == v,
            Err(e) => r is Err && r->Err_0@ == e,
        },
{
    let ghost a = views(args@);
    let p_daemon = word_is(args, 1, "daemon");
    let p_service = word_is(args, 1, "service");
    let p_eval = word_is(args, 1, "eval");
    let p_status = word_is(args, 1, "status");
    let p_index = word_is(args, 1, "index");
    let p_doctor = word_is(args, 1, "doctor");
    let q_reload = word_is(args, 2, "reload");
    let q_replay = word_is(args, 2, "replay");
    let q_status = word_is(args, 2, "status");
    let q_build = word_is(args, 2, "build");
    if p_daemon && q_reload {
        return Ok(CliAction::DaemonRequest(DaemonRequest::ReloadConfig));
    }
    if p_service && args.len() > 2 {
        return match parse_service_operation(args[2].as_str(), args) {
            Ok(op) => Ok(CliAction::Service(ServiceCommand { operation: op })),
            Err(e) => Err(e),
        };
    }
    if p_eval && q_replay {
        return match parse_eval_replay_command(args) {
            Ok(e) => Ok(CliAction::EvalReplay(e)),
            Err(e) => Err(e),
        };
    }
    if p_status || (p_index && q_status) || p_doctor {
        return Ok(
            CliAction::DaemonRequest(
                DaemonRequest::Status {
                    snapshot_id: locator_option(args, "--snapshot-id", "--snapshot"),
                    worktree_root: locator_option(args, "--worktree-root", "--worktree"),
                },
            ),
        );
    }
    let dash = args.len() > 2 && {
        let c = chars_of(args[2].as_str());
        c.len() > 0 && c[0] == '-'
    };
    assert(dash == (args@.len() > 2 && a[2].len() > 0 && a[2][0] == '-'));
    if p_index && (args.len() <= 2 || q_build || dash) {
        return match index_request(args) {
            Ok(r) => Ok(CliAction::DaemonRequest(r)),
            Err(e) => Err(e),
        };
    }
    if word_is(args, 1, "query") {
        return payload_action(parse_query_payload(args, false), false);
    }
    if word_is(args, 1, "symbol") {
        return payload_action(parse_named_query_payload(args, QueryMode::UnderstandSymbol), false);
    }
    if word_is(args, 1, "examples") {
        return payload_action(parse_named_query_payload(args, QueryMode::FindExamples), false);
    }
    if word_is(args, 1, "blast-radius") {
        return payload_action(parse_query_payload(args, true), true);
    }
    Err(lit("unsupported command"))
}

/// Parses the command line (`args[0]` is the program name). The socket is
/// `--socket` or `default_socket`; `--json` (or `default_json`) and
/// `--dry-run-request` set the output flags.
pub fn parse_command(args: &[String], default_socket: &str, default_json: bool) -> (r: Result<
    CliCommand,
    String,
>)
    ensures
        match cli_parse(views(args@), default_socket@, default_json) {
            Ok(v) => r is Ok && r->Ok_0@ == v,
            Err(e) => r is Err && r->Err_0@ == e,
        },
{
    let socket_path = option_or(args, "--socket", default_socket);
    let json = has_flag(args, "--json") || default_json;
    let dry_run = has_flag(args, "--dry-run-request");
    match parse_action(args) {
        Ok(action) => Ok(CliCommand { action, socket_path, json, dry_run }),
        Err(e) => Err(e),
    }
}


/// Scanning from `i` finds the value after the first occurrence of `flag`
/// at `j`, when no earlier position from `i` holds it.
proof fn lemma_find_opt_first(args: Seq<Seq<char>>, flag: Seq<char>, i: int, j: int)
    requires
        0 <= i <= j,
        j + 1 < args.len(),
        args[j] == flag,
        forall|k: int| i <= k < j ==> args[k] != flag,
    ensures
        find_opt(args, flag, i) == Some(args[j + 1]),
    decreases j - i,
{
    if i < j {
        lemma_find_opt_first(args, flag, i + 1, j);
    }
}

/// Scanning from `i` finds nothing when no position from `i` that has an
/// argument after it holds `flag`.
proof fn lemma_find_opt_absent(args: Seq<Seq<char>>, flag: Seq<char>, i: int)
    requires
        0 <= i,
        forall|k: int| i <= k < args.len() - 1 ==> args[k] != flag,
    ensures
        find_opt(args, flag, i) is None,
    decreases args.len() - i,
{
    if i + 1 < args.len() {
        lemma_find_opt_absent(args, flag, i + 1);
    }
}

/// The symbol of a query is the argument after its first `--symbol-path`
/// that has one; a query without such a flag has no symbol.
pub proof fn lemma_query_symbol_path(args: Seq<Seq<char>>, mode: QueryMode, j: int)
    requires
        named_payload_spec(args, mode) is Ok,
    ensures
        (0 <= j && j + 1 < args.len() && args[j] == "--symbol-path"@ && (forall|k: int|
            0 <= k < j ==> args[k] != "--symbol-path"@)) ==> named_payload_spec(args, mode)->Ok_0.symbol_path
            == Some(args[j + 1]),
        (forall|k: int| 0 <= k < args.len() - 1 ==> args[k] != "--symbol-path"@) ==> named_payload_spec(
            args,
            mode,
        )->Ok_0.symbol_path is None,
{
    if 0 <= j && j + 1 < args.len() && args[j] == "--symbol-path"@ && (forall|k: int|
        0 <= k < j ==> args[k] != "--symbol-path"@) {
        lemma_find_opt_first(args, "--symbol-path"@, 0, j);
    }
    if forall|k: int| 0 <= k < args.len() - 1 ==> args[k] != "--symbol-path"@ {
        lemma_find_opt_absent(args, "--symbol-path"@, 0);
    }
}

/// The same holds of a query command as parsed: `query`, `symbol`,
/// `examples` and `blast-radius` requests carry the value after the first
/// `--symbol-path`.
pub proof fn lemma_query_command_symbol_path(args: Seq<Seq<char>>, blast: bool, j: int)
    requires
        query_payload_spec(args, blast) is Ok,
        0 <= j,
        j + 1 < args.len(),
        args[j] == "--symbol-path"@,
        forall|k: int| 0 <= k < j ==> args[k] != "--symbol-path"@,
    ensures
        query_payload_spec(args, blast)->Ok_0.symbol_path == Some(args[j + 1]),
{
    lemma_find_opt_first(args, "--symbol-path"@, 0, j);
}

} // verus!
