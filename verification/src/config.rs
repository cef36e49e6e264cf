//! Configuration values shared by the daemon, the CLI and the MCP server,
//! and the rules that decide which documents of a repository are indexed.
use crate::chunking::types::lit;
use crate::text::{is_blank, is_blank_str, join, join_strings, push_str, views};
use vstd::prelude::*;

verus! {

/// Where the daemon listens and keeps its state and cache.
#[derive(Debug, Clone, PartialEq, Eq)]
pub struct RuntimePaths {
    pub socket_path: String,
    pub state_root: String,
    pub cache_root: String,
}

impl RuntimePaths {
    pub fn new(socket_path: &str, state_root: &str, cache_root: &str) -> (r: Self)
        ensures
            r.socket_path@ == socket_path@,
            r.state_root@ == state_root@,
            r.cache_root@ == cache_root@,
    {
        RuntimePaths {
            socket_path: lit(socket_path),
            state_root: lit(state_root),
            cache_root: lit(cache_root),
        }
    }
}

#[derive(Debug, Clone, PartialEq, Eq)]
pub struct TursoConfig {
    pub database_url: String,
    pub auth_token_env: String,
}

#[derive(Debug, Clone, PartialEq, Eq)]
pub struct TantivyConfig {
    pub index_root: String,
}

#[derive(Debug, Clone, PartialEq, Eq)]
pub struct QdrantConfig {
    pub endpoint: String,
    pub collection: String,
}

/// The embedding endpoint: `base_url` joined with `endpoint_path`, the
/// model, the environment variable that holds the API key, and the
/// vector size.
#[derive(Debug, Clone, PartialEq, Eq)]
pub struct EmbeddingProviderConfig {
    pub base_url: String,
    pub endpoint_path: String,
    pub model: String,
    pub api_key_env: String,
    pub dimensions: usize,
}

/// The names of the fields of `c` that are blank (or zero, for the
/// dimensions), in declaration order.
pub open spec fn missing_embedding_fields(c: EmbeddingProviderConfig) -> Seq<Seq<char>> {
    let a: Seq<Seq<char>> = if is_blank(c.base_url@) {
        seq!["base_url"@]
    } else {
        seq![]
    };
    let b: Seq<Seq<char>> = if is_blank(c.endpoint_path@) {
        a.push("endpoint_path"@)
    } else {
        a
    };
    let m: Seq<Seq<char>> = if is_blank(c.model@) {
        b.push("model"@)
    } else {
        b
    };
    let k: Seq<Seq<char>> = if is_blank(c.api_key_env@) {
        m.push("api_key_env"@)
    } else {
        m
    };
    if c.dimensions == 0 {
        k.push("dimensions"@)
    } else {
        k
    }
}

impl EmbeddingProviderConfig {
    /// Succeeds when no field is blank and the dimensions are not zero;
    /// otherwise names every offending field.
    pub fn validate(&self) -> (r: Result<(), String>)
        ensures
            missing_embedding_fields(*self).len() == 0 ==> r is Ok,
            missing_embedding_fields(*self).len() > 0 ==> r is Err && r->Err_0@
                == "embedding provider config missing or invalid fields: "@ + join(
                missing_embedding_fields(*self),
                ", "@,
            ),
    {
        let mut missing: Vec<String> = Vec::new();
        if is_blank_str(self.base_url.as_str()) {
            missing.push(lit("base_url"));
        }
        let ghost a = views(missing@);
        if is_blank_str(self.endpoint_path.as_str()) {
            missing.push(lit("endpoint_path"));
        }
        assert(views(missing@) =~= if is_blank(self.endpoint_path@) {
            a.push("endpoint_path"@)
        } else {
            a
        });
        let ghost b = views(missing@);
        if is_blank_str(self.model.as_str()) {
            missing.push(lit("model"));
        }
        assert(views(missing@) =~= if is_blank(self.model@) {
            b.push("model"@)
        } else {
            b
        });
        let ghost m = views(missing@);
        if is_blank_str(self.api_key_env.as_str()) {
            missing.push(lit("api_key_env"));
        }
        assert(views(missing@) =~= if is_blank(self.api_key_env@) {
            m.push("api_key_env"@)
        } else {
            m
        });
        if self.dimensions == 0 {
            missing.push(lit("dimensions"));
        }
        assert(views(missing@) =~= missing_embedding_fields(*self));
        if missing.len() == 0 {
            Ok(())
        } else {
            let mut msg = lit("embedding provider config missing or invalid fields: ");
            let list = join_strings(missing.as_slice(), ", ");
            push_str(&mut msg, list.as_str());
            Err(msg)
        }
    }
}

#[derive(Debug, Clone, PartialEq, Eq)]
pub struct CliConfig {
    pub default_json: bool,
}

#[derive(Debug, Clone, PartialEq, Eq)]
pub struct DaemonConfig {
    pub socket_path: String,
}

#[derive(Debug, Clone, PartialEq, Eq)]
pub struct McpConfig {
    pub socket_path: String,
}

/// How much the daemon reports about queries.
#[derive(Debug, Clone, Copy, PartialEq, Eq, Structural)]
pub enum ObservabilityVerbosity {
    Off,
    Summary,
    Detailed,
}

impl ObservabilityVerbosity {
    /// The configuration spelling: `off`, `summary` or `detailed`.
    pub fn as_str(&self) -> (r: &'static str)
        ensures
            r@ == match *self {
                ObservabilityVerbosity::Off => "off"@,
                ObservabilityVerbosity::Summary => "summary"@,
                ObservabilityVerbosity::Detailed => "detailed"@,
            },
    {
        match self {
            ObservabilityVerbosity::Off => "off",
            ObservabilityVerbosity::Summary => "summary",
            ObservabilityVerbosity::Detailed => "detailed",
        }
    }
}

#[derive(Debug, Clone, Copy, PartialEq, Eq, Structural)]
pub struct ObservabilityConfig {
    pub enabled: bool,
    pub verbosity: ObservabilityVerbosity,
}

impl Default for ObservabilityConfig {
    /// Observability is off unless configured.
    fn default() -> (r: Self)
        ensures
            !r.enabled,
            r.verbosity == ObservabilityVerbosity::Off,
    {
        ObservabilityConfig { enabled: false, verbosity: ObservabilityVerbosity::Off }
    }
}

/// The companion MCP socket of a daemon socket: `x.sock` gives
/// `x-mcp.sock`, any other path gets `-mcp` appended.
pub open spec fn companion_socket(p: Seq<char>) -> Seq<char> {
    let n = p.len();
    if n >= 5 && p.skip(n - 5) =~= seq!['.', 's', 'o', 'c', 'k'] {
        p.take(n - 5) + "-mcp.sock"@
    } else {
        p + "-mcp"@
    }
}

pub fn derive_companion_mcp_socket(socket_path: &str) -> (r: String)
    ensures
        r@ == companion_socket(socket_path@),
{
    let cs = crate::text::chars_of(socket_path);
    let n = cs.len();
    if n >= 5 && cs[n - 5] == '.' && cs[n - 4] == 's' && cs[n - 3] == 'o' && cs[n - 2] == 'c'
        && cs[n - 1] == 'k' {
        assert(socket_path@.skip(n - 5) =~= seq!['.', 's', 'o', 'c', 'k']);
        let mut r = crate::text::string_from_range(cs.as_slice(), 0, n - 5);
        push_str(&mut r, "-mcp.sock");
        assert(cs@.subrange(0, n - 5) =~= socket_path@.take(n - 5));
        return r;
    }
    assert(!(n >= 5 && socket_path@.skip(n - 5) =~= seq!['.', 's', 'o', 'c', 'k'])) by {
        if n >= 5 && socket_path@.skip(n - 5) =~= seq!['.', 's', 'o', 'c', 'k'] {
            let t = socket_path@.skip(n - 5);
            assert(t[0] == cs@[n - 5] && t[1] == cs@[n - 4] && t[2] == cs@[n - 3]);
            assert(t[3] == cs@[n - 2] && t[4] == cs@[n - 1]);
        }
    }
    let mut r = lit(socket_path);
    push_str(&mut r, "-mcp");
    r
}

/// What a document of the repository is to retrieval.
#[derive(Debug, Clone, Copy, PartialEq, Eq, Structural)]
pub enum DocumentSourceKind {
    Spec,
    Plan,
    Ops,
    Integrations,
    Documentation,
    Changelog,
    TasksRegistry,
}

pub open spec fn document_kind_name(k: DocumentSourceKind) -> Seq<char> {
    match k {
        DocumentSourceKind::Spec => "spec"@,
        DocumentSourceKind::Plan => "plan"@,
        DocumentSourceKind::Ops => "ops"@,
        DocumentSourceKind::Integrations => "integrations"@,
        DocumentSourceKind::Documentation => "documentation"@,
        DocumentSourceKind::Changelog => "changelog"@,
        DocumentSourceKind::TasksRegistry => "tasks-registry"@,
    }
}

impl DocumentSourceKind {
    /// The configuration spelling of the kind, also used as a retrieval
    /// marker.
    pub fn as_str(&self) -> (r: &'static str)
        ensures
            r@ == document_kind_name(*self),
    {
        match self {
            DocumentSourceKind::Spec => "spec",
            DocumentSourceKind::Plan => "plan",
            DocumentSourceKind::Ops => "ops",
            DocumentSourceKind::Integrations => "integrations",
            DocumentSourceKind::Documentation => "documentation",
            DocumentSourceKind::Changelog => "changelog",
            DocumentSourceKind::TasksRegistry => "tasks-registry",
        }
    }
}

/// How a document is split into chunks.
#[derive(Debug, Clone, Copy, PartialEq, Eq, Structural)]
pub enum DocumentSourceParser {
    Markdown,
    Csv,
}

/// A document rule: the paths it applies to (`dir/**` for a directory
/// tree, or one exact path), what the documents are, how they are split,
/// and their ranking weight in thousandths.
#[derive(Debug, Clone, PartialEq, Eq)]
pub struct DocumentSourceRule {
    pub path_glob: String,
    pub kind: DocumentSourceKind,
    pub parser: DocumentSourceParser,
    pub weight_milli: u32,
}

impl DocumentSourceRule {
    pub fn new(
        path_glob: &str,
        kind: DocumentSourceKind,
        parser: DocumentSourceParser,
        weight_milli: u32,
    ) -> (r: Self)
        ensures
            r.path_glob@ == path_glob@,
            r.kind == kind,
            r.parser == parser,
            r.weight_milli == weight_milli,
    {
        DocumentSourceRule { path_glob: lit(path_glob), kind, parser, weight_milli }
    }
}

/// The document rules, tried in order.
#[derive(Debug, Clone, PartialEq, Eq)]
pub struct DocumentSourcesConfig {
    pub rules: Vec<DocumentSourceRule>,
}

pub open spec fn default_rule_spec(i: int) -> (Seq<char>, DocumentSourceKind, DocumentSourceParser) {
    if i == 0 {
        ("docs/specs/**"@, DocumentSourceKind::Spec, DocumentSourceParser::Markdown)
    } else if i == 1 {
        ("docs/plans/**"@, DocumentSourceKind::Plan, DocumentSourceParser::Markdown)
    } else if i == 2 {
        ("docs/ops/**"@, DocumentSourceKind::Ops, DocumentSourceParser::Markdown)
    } else if i == 3 {
        ("docs/integrations/**"@, DocumentSourceKind::Integrations, DocumentSourceParser::Markdown)
    } else if i == 4 {
        ("docs/templates/**"@, DocumentSourceKind::Documentation, DocumentSourceParser::Markdown)
    } else if i == 5 {
        ("CHANGELOG.md"@, DocumentSourceKind::Changelog, DocumentSourceParser::Markdown)
    } else {
        ("docs/tasks/tasks.csv"@, DocumentSourceKind::TasksRegistry, DocumentSourceParser::Csv)
    }
}

/// The default rules: specs, plans, operations, integration and template
/// documents under `docs/`, the changelog, and the task registry, all of
/// weight one.
pub open spec fn is_default_rules(rules: Seq<DocumentSourceRule>) -> bool {
    &&& rules.len() == 7
    &&& forall|i: int|
        0 <= i < 7 ==> (#[trigger] rules[i]).path_glob@ == default_rule_spec(i).0 && rules[i].kind
            == default_rule_spec(i).1 && rules[i].parser == default_rule_spec(i).2
            && rules[i].weight_milli == 1000
}

impl Default for DocumentSourcesConfig {
    fn default() -> (r: Self)
        ensures
            is_default_rules(r.rules@),
    {
        let mut rules: Vec<DocumentSourceRule> = Vec::new();
        rules.push(DocumentSourceRule::new("docs/specs/**", DocumentSourceKind::Spec, DocumentSourceParser::Markdown, 1000));
        rules.push(DocumentSourceRule::new("docs/plans/**", DocumentSourceKind::Plan, DocumentSourceParser::Markdown, 1000));
        rules.push(DocumentSourceRule::new("docs/ops/**", DocumentSourceKind::Ops, DocumentSourceParser::Markdown, 1000));
        rules.push(DocumentSourceRule::new("docs/integrations/**", DocumentSourceKind::Integrations, DocumentSourceParser::Markdown, 1000));
        rules.push(DocumentSourceRule::new("docs/templates/**", DocumentSourceKind::Documentation, DocumentSourceParser::Markdown, 1000));
        rules.push(DocumentSourceRule::new("CHANGELOG.md", DocumentSourceKind::Changelog, DocumentSourceParser::Markdown, 1000));
        rules.push(DocumentSourceRule::new("docs/tasks/tasks.csv", DocumentSourceKind::TasksRegistry, DocumentSourceParser::Csv, 1000));
        DocumentSourcesConfig { rules }
    }
}

/// `dir/**` matches every path that starts with `dir`; any other pattern
/// matches only itself.
pub open spec fn glob_matches(path: Seq<char>, glob: Seq<char>) -> bool {
    let n = glob.len();
    if n >= 3 && glob.skip(n - 3) =~= seq!['/', '*', '*'] {
        path.len() >= n - 3 && path.take(n - 3) =~= glob.take(n - 3)
    } else {
        path =~= glob
    }
}

pub fn path_matches_glob(path: &str, glob: &str) -> (r: bool)
    ensures
        r == glob_matches(path@, glob@),
{
    let p = crate::text::chars_of(path);
    let g = crate::text::chars_of(glob);
    let n = g.len();
    if n >= 3 && g[n - 3] == '/' && g[n - 2] == '*' && g[n - 1] == '*' {
        assert(glob@.skip(n - 3) =~= seq!['/', '*', '*']);
        if p.len() < n - 3 {
            return false;
        }
        let mut i: usize = 0;
        while i < n - 3
            invariant
                0 <= i <= n - 3,
                p@ == path@,
                g@ == glob@,
                n == g@.len(),
                n - 3 <= p@.len(),
                forall|k: int| 0 <= k < i ==> p@[k] == g@[k],
            decreases n - 3 - i,
        {
            if p[i] != g[i] {
                assert(path@.take(n - 3)[i as int] != glob@.take(n - 3)[i as int]);
                return false;
            }
            i = i + 1;
        }
        assert(path@.take(n - 3) =~= glob@.take(n - 3));
        return true;
    }
    assert(!(n >= 3 && glob@.skip(n - 3) =~= seq!['/', '*', '*'])) by {
        if n >= 3 && glob@.skip(n - 3) =~= seq!['/', '*', '*'] {
            let t = glob@.skip(n - 3);
            assert(t[0] == g@[n - 3] && t[1] == g@[n - 2] && t[2] == g@[n - 1]);
        }
    }
    crate::text::chars_equal(p.as_slice(), g.as_slice())
}

/// Index of the first rule from `i` on whose pattern matches `path`.
pub open spec fn first_matching_rule(path: Seq<char>, rules: Seq<DocumentSourceRule>, i: int) -> Option<int>
    decreases rules.len() - i,
{
    if i < 0 || i >= rules.len() {
        None
    } else if glob_matches(path, rules[i].path_glob@) {
        Some(i)
    } else {
        first_matching_rule(path, rules, i + 1)
    }
}

/// Two rules with the same pattern, kind, parser and weight.
pub open spec fn same_rule(a: DocumentSourceRule, b: DocumentSourceRule) -> bool {
    a.path_glob@ == b.path_glob@ && a.kind == b.kind && a.parser == b.parser && a.weight_milli
        == b.weight_milli
}

impl DocumentSourceRule {
    pub fn copy(&self) -> (r: Self)
        ensures
            same_rule(r, *self),
    {
        DocumentSourceRule {
            path_glob: self.path_glob.clone(),
            kind: self.kind,
            parser: self.parser,
            weight_milli: self.weight_milli,
        }
    }
}

/// A copy of the first rule whose pattern matches the path, if any.
pub fn classify_document_source(relative_path: &str, rules: &Vec<DocumentSourceRule>) -> (r: Option<DocumentSourceRule>)
    ensures
        match first_matching_rule(relative_path@, rules@, 0) {
            Some(i) => r is Some && same_rule(r->0, rules@[i]),
            None => r is None,
        },
{
    let mut i: usize = 0;
    while i < rules.len()
        invariant
            0 <= i <= rules@.len(),
            first_matching_rule(relative_path@, rules@, 0) == first_matching_rule(
                relative_path@,
                rules@,
                i as int,
            ),
        decreases rules.len() - i,
    {
        if path_matches_glob(relative_path, rules[i].path_glob.as_str()) {
            return Some(rules[i].copy());
        }
        i = i + 1;
    }
    None
}

/// The settings of the services other than the ranking weights: where they
/// listen and keep data, the stores, the embedding endpoint, observability,
/// and the front ends.
#[derive(Debug, Clone, PartialEq, Eq)]
pub struct ServiceSettings {
    pub runtime: RuntimePaths,
    pub turso: TursoConfig,
    pub tantivy: TantivyConfig,
    pub qdrant: QdrantConfig,
    pub embeddings: EmbeddingProviderConfig,
    pub observability: ObservabilityConfig,
    pub cli: Option<CliConfig>,
    pub daemon: Option<DaemonConfig>,
    pub mcp: Option<McpConfig>,
}

fn join2(a: &str, b: &str) -> (r: String)
    ensures
        r@ == a@ + b@,
{
    let mut r = lit(a);
    push_str(&mut r, b);
    r
}

impl ServiceSettings {
    /// The defaults, given the runtime, state and cache roots of the user.
    pub fn defaults(runtime_root: &str, state_root: &str, cache_root: &str) -> (r: Self)
        ensures
            r.runtime.socket_path@ == runtime_root@ + "/raragd.sock"@,
            r.runtime.state_root@ == state_root@ + "/rarag"@,
            r.runtime.cache_root@ == cache_root@ + "/rarag"@,
            r.turso.database_url@ == "file:"@ + state_root@ + "/rarag/metadata.db"@,
            r.turso.auth_token_env@ == "TURSO_AUTH_TOKEN"@,
            r.tantivy.index_root@ == cache_root@ + "/rarag/tantivy"@,
            r.qdrant.endpoint@ == "http://127.0.0.1:6334"@,
            r.qdrant.collection@ == "rarag_chunks"@,
            r.embeddings.base_url@ == "https://api.openai.com/v1"@,
            r.embeddings.endpoint_path@ == "/embeddings"@,
            r.embeddings.model@ == "text-embedding-3-small"@,
            r.embeddings.api_key_env@ == "OPENAI_API_KEY"@,
            r.embeddings.dimensions == 1536,
            !r.observability.enabled,
            r.observability.verbosity == ObservabilityVerbosity::Off,
            r.cli is None,
            r.daemon is Some && r.daemon->0.socket_path@ == runtime_root@ + "/raragd.sock"@,
            r.mcp is Some && r.mcp->0.socket_path@ == runtime_root@ + "/raragd-mcp.sock"@,
    {
        let mut db = lit("file:");
        push_str(&mut db, state_root);
        push_str(&mut db, "/rarag/metadata.db");
        ServiceSettings {
            runtime: RuntimePaths {
                socket_path: join2(runtime_root, "/raragd.sock"),
                state_root: join2(state_root, "/rarag"),
                cache_root: join2(cache_root, "/rarag"),
            },
            turso: TursoConfig { database_url: db, auth_token_env: lit("TURSO_AUTH_TOKEN") },
            tantivy: TantivyConfig { index_root: join2(cache_root, "/rarag/tantivy") },
            qdrant: QdrantConfig { endpoint: lit("http://127.0.0.1:6334"), collection: lit("rarag_chunks") },
            embeddings: EmbeddingProviderConfig {
                base_url: lit("https://api.openai.com/v1"),
                endpoint_path: lit("/embeddings"),
                model: lit("text-embedding-3-small"),
                api_key_env: lit("OPENAI_API_KEY"),
                dimensions: 1536,
            },
            observability: ObservabilityConfig::default(),
            cli: None,
            daemon: Some(DaemonConfig { socket_path: join2(runtime_root, "/raragd.sock") }),
            mcp: Some(McpConfig { socket_path: join2(runtime_root, "/raragd-mcp.sock") }),
        }
    }

    /// Whether the client prints JSON by default.
    pub fn cli_default_json(&self) -> (r: bool)
        ensures
            r == match self.cli {
                Some(c) => c.default_json,
                None => false,
            },
    {
        match &self.cli {
            Some(c) => c.default_json,
            None => false,
        }
    }

    /// The daemon's socket: its own setting, or the runtime socket.
    pub fn daemon_socket_path(&self) -> (r: &str)
        ensures
            r@ == match self.daemon {
                Some(d) => d.socket_path@,
                None => self.runtime.socket_path@,
            },
    {
        match &self.daemon {
            Some(d) => d.socket_path.as_str(),
            None => self.runtime.socket_path.as_str(),
        }
    }

    /// The MCP server's socket: its own setting, or the runtime socket.
    pub fn mcp_socket_path(&self) -> (r: &str)
        ensures
            r@ == match self.mcp {
                Some(m) => m.socket_path@,
                None => self.runtime.socket_path@,
            },
    {
        match &self.mcp {
            Some(m) => m.socket_path.as_str(),
            None => self.runtime.socket_path.as_str(),
        }
    }
}

/// How the vector store compares embeddings.
#[derive(Debug, Clone, Copy, PartialEq, Eq, Structural)]
pub enum VectorDistanceMetric {
    Cosine,
    L2,
    Dot,
}

/// Where the vector store keeps its table, and how it compares vectors.
#[derive(Debug, Clone, PartialEq, Eq)]
pub struct LanceDbConfig {
    pub db_root: String,
    pub table: String,
    pub distance_metric: VectorDistanceMetric,
}

impl LanceDbConfig {
    /// `rarag/lancedb` under the cache root, table `rarag_chunks`, cosine
    /// distance.
    pub fn defaults(cache_root: &str) -> (r: Self)
        ensures
            r.db_root@ == cache_root@ + "/rarag/lancedb"@,
            r.table@ == "rarag_chunks"@,
            r.distance_metric == VectorDistanceMetric::Cosine,
    {
        let mut db_root = lit(cache_root);
        push_str(&mut db_root, "/rarag/lancedb");
        LanceDbConfig { db_root, table: lit("rarag_chunks"), distance_metric: VectorDistanceMetric::Cosine }
    }

    /// Each value a configuration file sets replaces the current one.
    pub fn apply_overrides(
        &mut self,
        db_root: Option<String>,
        table: Option<String>,
        distance_metric: Option<VectorDistanceMetric>,
    )
        ensures
            final(self).db_root@ == or_keep(db_root, old(self).db_root),
            final(self).table@ == or_keep(table, old(self).table),
            final(self).distance_metric == match distance_metric {
                Some(m) => m,
                None => old(self).distance_metric,
            },
    {
        if let Some(v) = db_root {
            self.db_root = v;
        }
        if let Some(v) = table {
            self.table = v;
        }
        if let Some(m) = distance_metric {
            self.distance_metric = m;
        }
    }
}

/// Whether history retrieval is on, and how many commits it reads.
#[derive(Debug, Clone, Copy, PartialEq, Eq, Structural)]
pub struct HistoryConfig {
    pub enabled: bool,
    pub max_commits: usize,
}

impl HistoryConfig {
    /// History is off; at most 256 commits.
    pub fn defaults() -> (r: Self)
        ensures
            !r.enabled,
            r.max_commits == 256,
    {
        HistoryConfig { enabled: false, max_commits: 256 }
    }

    /// Each value a configuration file sets replaces the current one.
    pub fn apply_overrides(&mut self, enabled: Option<bool>, max_commits: Option<usize>)
        ensures
            final(self).enabled == match enabled {
                Some(b) => b,
                None => old(self).enabled,
            },
            final(self).max_commits == match max_commits {
                Some(n) => n,
                None => old(self).max_commits,
            },
    {
        if let Some(b) = enabled {
            self.enabled = b;
        }
        if let Some(n) = max_commits {
            self.max_commits = n;
        }
    }
}

/// The values a configuration file sets, field by field; for the front-end
/// sections, `Some` means the section is present.
#[derive(Debug, Clone, Default, PartialEq, Eq)]
pub struct SettingsOverrides {
    pub socket_path: Option<String>,
    pub state_root: Option<String>,
    pub cache_root: Option<String>,
    pub database_url: Option<String>,
    pub auth_token_env: Option<String>,
    pub index_root: Option<String>,
    pub base_url: Option<String>,
    pub endpoint_path: Option<String>,
    pub model: Option<String>,
    pub api_key_env: Option<String>,
    pub dimensions: Option<usize>,
    pub observability_enabled: Option<bool>,
    pub observability_verbosity: Option<ObservabilityVerbosity>,
    pub cli: Option<Option<bool>>,
    pub daemon: Option<Option<String>>,
    pub mcp: Option<Option<String>>,
}

fn set_text(field: &mut String, v: &Option<String>)
    ensures
        final(field)@ == or_keep(*v, *old(field)),
{
    if let Some(x) = v {
        *field = x.clone();
    }
}

pub open spec fn or_keep(o: Option<String>, old: String) -> Seq<char> {
    match o {
        Some(v) => v@,
        None => old@,
    }
}

/// Where the daemon listens once a file's runtime socket is applied: the
/// file's socket replaces the daemon's, and the MCP server moves to its
/// companion.
pub open spec fn daemon_after_runtime(s: ServiceSettings, o: SettingsOverrides) -> Option<Seq<char>> {
    match o.socket_path {
        Some(p) => Some(p@),
        None => match s.daemon {
            Some(d) => Some(d.socket_path@),
            None => None,
        },
    }
}

pub open spec fn mcp_after_runtime(s: ServiceSettings, o: SettingsOverrides) -> Option<Seq<char>> {
    match o.socket_path {
        Some(p) => Some(companion_socket(p@)),
        None => match s.mcp {
            Some(m) => Some(m.socket_path@),
            None => None,
        },
    }
}

pub open spec fn opt_socket(c: Option<DaemonConfig>) -> Option<Seq<char>> {
    match c {
        Some(d) => Some(d.socket_path@),
        None => None,
    }
}

pub open spec fn opt_mcp_socket(c: Option<McpConfig>) -> Option<Seq<char>> {
    match c {
        Some(d) => Some(d.socket_path@),
        None => None,
    }
}

impl ServiceSettings {
    /// Applies the values a configuration file sets: each set value
    /// replaces the default; a runtime socket also moves the daemon and its
    /// MCP companion; a front-end section, when present, is created from the
    /// runtime socket (or kept) and then takes the section's value.
    pub fn apply_overrides(&mut self, o: SettingsOverrides)
        ensures
            final(self).runtime.socket_path@ == or_keep(o.socket_path, old(self).runtime.socket_path),
            final(self).runtime.state_root@ == or_keep(o.state_root, old(self).runtime.state_root),
            final(self).runtime.cache_root@ == or_keep(o.cache_root, old(self).runtime.cache_root),
            final(self).turso.database_url@ == or_keep(o.database_url, old(self).turso.database_url),
            final(self).turso.auth_token_env@ == or_keep(o.auth_token_env, old(self).turso.auth_token_env),
            final(self).tantivy.index_root@ == or_keep(o.index_root, old(self).tantivy.index_root),
            final(self).qdrant == old(self).qdrant,
            final(self).embeddings.base_url@ == or_keep(o.base_url, old(self).embeddings.base_url),
            final(self).embeddings.endpoint_path@ == or_keep(o.endpoint_path, old(self).embeddings.endpoint_path),
            final(self).embeddings.model@ == or_keep(o.model, old(self).embeddings.model),
            final(self).embeddings.api_key_env@ == or_keep(o.api_key_env, old(self).embeddings.api_key_env),
            final(self).embeddings.dimensions == match o.dimensions {
                Some(d) => d,
                None => old(self).embeddings.dimensions,
            },
            final(self).observability.enabled == match o.observability_enabled {
                Some(b) => b,
                None => old(self).observability.enabled,
            },
            final(self).observability.verbosity == match o.observability_verbosity {
                Some(v) => v,
                None => old(self).observability.verbosity,
            },
            final(self).cli == match o.cli {
                None => old(self).cli,
                Some(section) => Some(CliConfig {
                    default_json: match section {
                        Some(b) => b,
                        None => match old(self).cli {
                            Some(c) => c.default_json,
                            None => false,
                        },
                    },
                }),
            },
            opt_socket(final(self).daemon) == match o.daemon {
                None => daemon_after_runtime(*old(self), o),
                Some(section) => Some(match section {
                    Some(p) => p@,
                    None => match daemon_after_runtime(*old(self), o) {
                        Some(p) => p,
                        None => or_keep(o.socket_path, old(self).runtime.socket_path),
                    },
                }),
            },
            opt_mcp_socket(final(self).mcp) == match o.mcp {
                None => mcp_after_runtime(*old(self), o),
                Some(section) => Some(match section {
                    Some(p) => p@,
                    None => match mcp_after_runtime(*old(self), o) {
                        Some(p) => p,
                        None => or_keep(o.socket_path, old(self).runtime.socket_path),
                    },
                }),
            },
    {
        self.apply_runtime(&o.socket_path, &o.state_root, &o.cache_root);
        self.apply_values(&o);
        self.apply_front_ends(&o);
    }

    fn apply_runtime(&mut self, socket_path: &Option<String>, state_root: &Option<String>, cache_root: &Option<String>)
        ensures
            final(self).runtime.socket_path@ == or_keep(*socket_path, old(self).runtime.socket_path),
            final(self).runtime.state_root@ == or_keep(*state_root, old(self).runtime.state_root),
            final(self).runtime.cache_root@ == or_keep(*cache_root, old(self).runtime.cache_root),
            opt_socket(final(self).daemon) == match *socket_path {
                Some(p) => Some(p@),
                None => opt_socket(old(self).daemon),
            },
            opt_mcp_socket(final(self).mcp) == match *socket_path {
                Some(p) => Some(companion_socket(p@)),
                None => opt_mcp_socket(old(self).mcp),
            },
            final(self).turso == old(self).turso,
            final(self).tantivy == old(self).tantivy,
            final(self).qdrant == old(self).qdrant,
            final(self).embeddings == old(self).embeddings,
            final(self).observability == old(self).observability,
            final(self).cli == old(self).cli,
    {
        if let Some(p) = socket_path {
            self.runtime.socket_path = p.clone();
            self.daemon = Some(DaemonConfig { socket_path: p.clone() });
            self.mcp = Some(McpConfig { socket_path: derive_companion_mcp_socket(p.as_str()) });
        }
        if let Some(v) = state_root {
            self.runtime.state_root = v.clone();
        }
        if let Some(v) = cache_root {
            self.runtime.cache_root = v.clone();
        }
    }

    fn apply_values(&mut self, o: &SettingsOverrides)
        ensures
            final(self).runtime == old(self).runtime,
            final(self).daemon == old(self).daemon,
            final(self).mcp == old(self).mcp,
            final(self).cli == old(self).cli,
            final(self).qdrant == old(self).qdrant,
            final(self).turso.database_url@ == or_keep(o.database_url, old(self).turso.database_url),
            final(self).turso.auth_token_env@ == or_keep(o.auth_token_env, old(self).turso.auth_token_env),
            final(self).tantivy.index_root@ == or_keep(o.index_root, old(self).tantivy.index_root),
            final(self).embeddings.base_url@ == or_keep(o.base_url, old(self).embeddings.base_url),
            final(self).embeddings.endpoint_path@ == or_keep(o.endpoint_path, old(self).embeddings.endpoint_path),
            final(self).embeddings.model@ == or_keep(o.model, old(self).embeddings.model),
            final(self).embeddings.api_key_env@ == or_keep(o.api_key_env, old(self).embeddings.api_key_env),
            final(self).embeddings.dimensions == match o.dimensions {
                Some(d) => d,
                None => old(self).embeddings.dimensions,
            },
            final(self).observability.enabled == match o.observability_enabled {
                Some(b) => b,
                None => old(self).observability.enabled,
            },
            final(self).observability.verbosity == match o.observability_verbosity {
                Some(v) => v,
                None => old(self).observability.verbosity,
            },
    {
        set_text(&mut self.turso.database_url, &o.database_url);
        set_text(&mut self.turso.auth_token_env, &o.auth_token_env);
        set_text(&mut self.tantivy.index_root, &o.index_root);
        set_text(&mut self.embeddings.base_url, &o.base_url);
        set_text(&mut self.embeddings.endpoint_path, &o.endpoint_path);
        set_text(&mut self.embeddings.model, &o.model);
        set_text(&mut self.embeddings.api_key_env, &o.api_key_env);
        if let Some(v) = o.dimensions {
            self.embeddings.dimensions = v;
        }
        if let Some(v) = o.observability_enabled {
            self.observability.enabled = v;
        }
        if let Some(v) = o.observability_verbosity {
            self.observability.verbosity = v;
        }
    }

    fn apply_front_ends(&mut self, o: &SettingsOverrides)
        ensures
            final(self).runtime == old(self).runtime,
            final(self).turso == old(self).turso,
            final(self).tantivy == old(self).tantivy,
            final(self).qdrant == old(self).qdrant,
            final(self).embeddings == old(self).embeddings,
            final(self).observability == old(self).observability,
            final(self).cli == match o.cli {
                None => old(self).cli,
                Some(section) => Some(CliConfig {
                    default_json: match section {
                        Some(b) => b,
                        None => match old(self).cli {
                            Some(c) => c.default_json,
                            None => false,
                        },
                    },
                }),
            },
            opt_socket(final(self).daemon) == match o.daemon {
                None => opt_socket(old(self).daemon),
                Some(section) => Some(match section {
                    Some(p) => p@,
                    None => match opt_socket(old(self).daemon) {
                        Some(p) => p,
                        None => old(self).runtime.socket_path@,
                    },
                }),
            },
            opt_mcp_socket(final(self).mcp) == match o.mcp {
                None => opt_mcp_socket(old(self).mcp),
                Some(section) => Some(match section {
                    Some(p) => p@,
                    None => match opt_mcp_socket(old(self).mcp) {
                        Some(p) => p,
                        None => old(self).runtime.socket_path@,
                    },
                }),
            },
    {
        if let Some(section) = o.cli {
            let current = match &self.cli {
                Some(c) => c.default_json,
                None => false,
            };
            self.cli = Some(CliConfig {
                default_json: match section {
                    Some(b) => b,
                    None => current,
                },
            });
        }
        if let Some(section) = &o.daemon {
            let current = match &self.daemon {
                Some(d) => d.socket_path.clone(),
                None => self.runtime.socket_path.clone(),
            };
            self.daemon = Some(DaemonConfig {
                socket_path: match section {
                    Some(p) => p.clone(),
                    None => current,
                },
            });
        }
        if let Some(section) = &o.mcp {
            let current = match &self.mcp {
                Some(m) => m.socket_path.clone(),
                None => self.runtime.socket_path.clone(),
            };
            self.mcp = Some(McpConfig {
                socket_path: match section {
                    Some(p) => p.clone(),
                    None => current,
                },
            });
        }
    }
}

/// The configuration files to try, in order: an explicit path is taken as
/// is; otherwise `$RARAG_CONFIG`, then `rarag/rarag.toml` under
/// `$XDG_CONFIG_HOME`, then `.config/rarag/rarag.toml` under `$HOME`, the
/// first that exists.
pub fn config_path_candidates(
    explicit: Option<&str>,
    rarag_config: Option<&str>,
    xdg_config_home: Option<&str>,
    home: Option<&str>,
) -> (r: Vec<String>)
    ensures
        explicit is Some ==> views(r@) == seq![explicit->0@],
        explicit is None ==> views(r@) == (match rarag_config {
            Some(p) => seq![p@],
            None => seq![],
        }) + (match xdg_config_home {
            Some(x) => seq![crate::services::path_join(x@, "rarag/rarag.toml"@)],
            None => seq![],
        }) + (match home {
            Some(h) => seq![crate::services::path_join(h@, ".config/rarag/rarag.toml"@)],
            None => seq![],
        }),
{
    let mut out: Vec<String> = Vec::new();
    if let Some(p) = explicit {
        out.push(lit(p));
        assert(views(out@) =~= seq![p@]);
        return out;
    }
    if let Some(p) = rarag_config {
        out.push(lit(p));
    }
    if let Some(x) = xdg_config_home {
        out.push(crate::services::join_path(x, "rarag/rarag.toml"));
    }
    if let Some(h) = home {
        out.push(crate::services::join_path(h, ".config/rarag/rarag.toml"));
    }
    assert(views(out@) =~= (match rarag_config {
        Some(p) => seq![p@],
        None => seq![],
    }) + (match xdg_config_home {
        Some(x) => seq![crate::services::path_join(x@, "rarag/rarag.toml"@)],
        None => seq![],
    }) + (match home {
        Some(h) => seq![crate::services::path_join(h@, ".config/rarag/rarag.toml"@)],
        None => seq![],
    }));
    out
}

/// `rustix::process::getuid`: the real user id of this process. Nothing is
/// promised of it: it depends on who runs the process.
#[verifier::external_body]
fn current_uid() -> (r: u32) {
    rustix::process::getuid().as_raw()
}

/// `/tmp/rarag-uid-<uid>/<kind>`.
pub open spec fn tmp_root_for(kind: Seq<char>, uid: u32) -> Seq<char> {
    "/tmp/rarag-uid-"@ + crate::text::decimal(uid as nat) + "/"@ + kind
}

pub fn tmp_root_for_uid(kind: &str, uid: u32) -> (r: String)
    ensures
        r@ == tmp_root_for(kind@, uid),
{
    let mut r = lit("/tmp/rarag-uid-");
    crate::text::push_decimal(&mut r, uid as u64);
    push_str(&mut r, "/");
    push_str(&mut r, kind);
    r
}

/// The per-user directory under `/tmp` used when no home is known, for
/// this process's user.
pub fn fallback_user_tmp_root(kind: &str) -> (r: String)
    ensures
        exists|uid: u32| r@ == tmp_root_for(kind@, uid),
{
    tmp_root_for_uid(kind, current_uid())
}

/// The user's state directory: `$XDG_STATE_HOME`, else
/// `$HOME/.local/state`, else the per-user directory under `/tmp`.
pub fn xdg_state_root(xdg_state_home: Option<&str>, home: Option<&str>) -> (r: String)
    ensures
        match (xdg_state_home, home) {
            (Some(x), _) => r@ == x@,
            (None, Some(h)) => r@ == h@ + "/.local/state"@,
            (None, None) => exists|uid: u32| r@ == tmp_root_for("state"@, uid),
        },
{
    match (xdg_state_home, home) {
        (Some(x), _) => lit(x),
        (None, Some(h)) => {
            let mut r = lit(h);
            push_str(&mut r, "/.local/state");
            r
        },
        (None, None) => fallback_user_tmp_root("state"),
    }
}

/// The user's cache directory: `$XDG_CACHE_HOME`, else `$HOME/.cache`,
/// else the per-user directory under `/tmp`.
pub fn xdg_cache_root(xdg_cache_home: Option<&str>, home: Option<&str>) -> (r: String)
    ensures
        match (xdg_cache_home, home) {
            (Some(x), _) => r@ == x@,
            (None, Some(h)) => r@ == h@ + "/.cache"@,
            (None, None) => exists|uid: u32| r@ == tmp_root_for("cache"@, uid),
        },
{
    match (xdg_cache_home, home) {
        (Some(x), _) => lit(x),
        (None, Some(h)) => {
            let mut r = lit(h);
            push_str(&mut r, "/.cache");
            r
        },
        (None, None) => fallback_user_tmp_root("cache"),
    }
}

/// Where the sockets live: `rarag` under `$XDG_RUNTIME_DIR`, else
/// `rarag/run` under the state directory; the flag says that the latter
/// was chosen, which must then be created private to the user.
pub fn runtime_socket_root(xdg_runtime_dir: Option<&str>, state_root: &str) -> (r: (String, bool))
    ensures
        match xdg_runtime_dir {
            Some(d) => r.0@ == d@ + "/rarag"@ && !r.1,
            None => r.0@ == crate::services::path_join(state_root@, "rarag/run"@) && r.1,
        },
{
    match xdg_runtime_dir {
        Some(d) => {
            let mut r = lit(d);
            push_str(&mut r, "/rarag");
            (r, false)
        },
        None => (crate::services::join_path(state_root, "rarag/run"), true),
    }
}

} // verus!
