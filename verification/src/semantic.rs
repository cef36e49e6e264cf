//! Links between chunks: which chunks mention a symbol, which tests
//! exercise it, and which impl blocks implement a type.
use crate::chunking::rust::{impl_target, parse_impl_target_name};
use crate::chunking::types::{chunk_views, clone_opt, lit, opt_view, Chunk, ChunkKind, ChunkView};
use crate::text::{chars_of, contains_seq, matches_at, occurs_at, push_str, str_contains, str_equal, string_from_range, views};
use vstd::prelude::*;

verus! {

#[derive(Debug, Clone, Copy, PartialEq, Eq, Structural)]
pub enum SemanticEdgeKind {
    Reference,
    Implementation,
    Test,
}

pub open spec fn edge_kind_name(k: SemanticEdgeKind) -> Seq<char> {
    match k {
        SemanticEdgeKind::Reference => "reference"@,
        SemanticEdgeKind::Implementation => "implementation"@,
        SemanticEdgeKind::Test => "test"@,
    }
}

pub open spec fn parse_edge_kind(v: Seq<char>) -> Option<SemanticEdgeKind> {
    if v == "reference"@ {
        Some(SemanticEdgeKind::Reference)
    } else if v == "implementation"@ {
        Some(SemanticEdgeKind::Implementation)
    } else if v == "test"@ {
        Some(SemanticEdgeKind::Test)
    } else {
        None
    }
}

impl SemanticEdgeKind {
    pub fn as_str(self) -> (r: &'static str)
        ensures
            r@ == edge_kind_name(self),
    {
        match self {
            SemanticEdgeKind::Reference => "reference",
            SemanticEdgeKind::Implementation => "implementation",
            SemanticEdgeKind::Test => "test",
        }
    }

    pub fn parse(value: &str) -> (r: Option<Self>)
        ensures
            r == parse_edge_kind(value@),
    {
        if str_equal(value, "reference") {
            Some(SemanticEdgeKind::Reference)
        } else if str_equal(value, "implementation") {
            Some(SemanticEdgeKind::Implementation)
        } else if str_equal(value, "test") {
            Some(SemanticEdgeKind::Test)
        } else {
            None
        }
    }
}

/// Reading back the name of a kind gives the kind.
pub proof fn lemma_edge_kind_roundtrip(k: SemanticEdgeKind)
    ensures
        parse_edge_kind(edge_kind_name(k)) == Some(k),
{
    reveal_strlit("reference");
    reveal_strlit("implementation");
    reveal_strlit("test");
    assert("reference"@.len() == 9);
    assert("implementation"@.len() == 14);
    assert("test"@.len() == 4);
}

/// A link from one chunk to another.
#[derive(Debug, Clone, PartialEq, Eq)]
pub struct SemanticEdge {
    pub edge_id: String,
    pub from_chunk_id: String,
    pub to_chunk_id: String,
    pub kind: SemanticEdgeKind,
    pub from_symbol_path: Option<String>,
    pub to_symbol_path: Option<String>,
}

pub struct EdgeView {
    pub edge_id: Seq<char>,
    pub from_chunk_id: Seq<char>,
    pub to_chunk_id: Seq<char>,
    pub kind: SemanticEdgeKind,
    pub from_symbol_path: Option<Seq<char>>,
    pub to_symbol_path: Option<Seq<char>>,
}

impl View for SemanticEdge {
    type V = EdgeView;

    open spec fn view(&self) -> EdgeView {
        EdgeView {
            edge_id: self.edge_id@,
            from_chunk_id: self.from_chunk_id@,
            to_chunk_id: self.to_chunk_id@,
            kind: self.kind,
            from_symbol_path: opt_view(self.from_symbol_path),
            to_symbol_path: opt_view(self.to_symbol_path),
        }
    }
}

pub open spec fn edge_views(v: Seq<SemanticEdge>) -> Seq<EdgeView> {
    v.map_values(|e: SemanticEdge| e@)
}

/// The result of enriching chunks with links.
#[derive(Debug, Clone, PartialEq, Eq)]
pub struct SemanticEnrichment {
    pub edges: Vec<SemanticEdge>,
    pub warnings: Vec<String>,
    pub analyzer_available: bool,
}

// ---------------------------------------------------------------------
// The heuristic.

/// Position of the last `p` in `s` at or before `i`, or -1.
pub open spec fn last_occ(s: Seq<char>, p: Seq<char>, i: int) -> int
    decreases i + 1,
{
    if i < 0 {
        -1
    } else if occurs_at(s, p, i) {
        i
    } else {
        last_occ(s, p, i - 1)
    }
}

/// The last segment of a `::`-separated path.
pub open spec fn leaf(sp: Seq<char>) -> Seq<char> {
    let k = last_occ(sp, seq![':', ':'], sp.len() - 2);
    if k < 0 {
        sp
    } else {
        sp.skip(k + 2)
    }
}

/// The link from chunk `from` to chunk `to`, identified by
/// `<from id>:<to id>:<kind>`.
pub open spec fn edge_of(
    from: ChunkView,
    to: ChunkView,
    kind: SemanticEdgeKind,
    fsp: Option<Seq<char>>,
    tsp: Option<Seq<char>>,
) -> EdgeView {
    EdgeView {
        edge_id: from.id + ":"@ + to.id + ":"@ + edge_kind_name(kind),
        from_chunk_id: from.id,
        to_chunk_id: to.id,
        kind,
        from_symbol_path: fsp,
        to_symbol_path: tsp,
    }
}

/// A chunk other than a crate or module summary whose text names `leaf`
/// refers to it.
pub open spec fn refers_to(c: ChunkView, leaf: Seq<char>) -> bool {
    c.kind != ChunkKind::CrateSummary && c.kind != ChunkKind::ModuleSummary && contains_seq(c.text, leaf)
}

/// The links to symbol chunk `i` (path `sp`) from the first `j` chunks:
/// tests link as tests, others as references.
pub open spec fn refs_for(cs: Seq<ChunkView>, i: int, sp: Seq<char>, j: int) -> Seq<EdgeView>
    decreases j,
{
    if j <= 0 || j > cs.len() {
        seq![]
    } else {
        let prev = refs_for(cs, i, sp, j - 1);
        let c = cs[j - 1];
        if c.id != cs[i].id && refers_to(c, leaf(sp)) {
            prev.push(
                edge_of(
                    c,
                    cs[i],
                    if c.kind == ChunkKind::TestFunction {
                        SemanticEdgeKind::Test
                    } else {
                        SemanticEdgeKind::Reference
                    },
                    c.symbol_path,
                    Some(sp),
                ),
            )
        } else {
            prev
        }
    }
}

pub open spec fn symbol_path_of(c: ChunkView) -> Option<Seq<char>> {
    if c.kind == ChunkKind::Symbol {
        c.symbol_path
    } else {
        None
    }
}

/// The reference and test links to the symbols among the first `n` chunks.
pub open spec fn reference_edges(cs: Seq<ChunkView>, n: int) -> Seq<EdgeView>
    decreases n,
{
    if n <= 0 || n > cs.len() {
        seq![]
    } else {
        reference_edges(cs, n - 1) + match symbol_path_of(cs[n - 1]) {
            Some(sp) => refs_for(cs, n - 1, sp, cs.len() as int),
            None => seq![],
        }
    }
}

/// A symbol chunk that an impl block can target: not itself an impl.
pub open spec fn is_target(c: ChunkView, t: Seq<char>) -> bool {
    match symbol_path_of(c) {
        Some(sp) => !contains_seq(sp, "::impl::"@) && leaf(sp) == t,
        None => false,
    }
}

/// The last of the first `n` chunks that is a symbol named `t`.
pub open spec fn target_for(cs: Seq<ChunkView>, t: Seq<char>, n: int) -> Option<int>
    decreases n,
{
    if n <= 0 || n > cs.len() {
        None
    } else if is_target(cs[n - 1], t) {
        Some(n - 1)
    } else {
        target_for(cs, t, n - 1)
    }
}

/// The implementation link of chunk `i`, when it is an impl block of a
/// type that is a symbol among the chunks.
pub open spec fn impl_edge(cs: Seq<ChunkView>, i: int) -> Seq<EdgeView> {
    match symbol_path_of(cs[i]) {
        Some(sp) => if contains_seq(sp, "::impl"@) {
            match impl_target(cs[i].text) {
                Some(t) => match target_for(cs, t, cs.len() as int) {
                    Some(j) => seq![
                        edge_of(
                            cs[i],
                            cs[j],
                            SemanticEdgeKind::Implementation,
                            Some(sp + "::"@ + t),
                            cs[j].symbol_path,
                        ),
                    ],
                    None => seq![],
                },
                None => seq![],
            }
        } else {
            seq![]
        },
        None => seq![],
    }
}

pub open spec fn impl_edges(cs: Seq<ChunkView>, n: int) -> Seq<EdgeView>
    decreases n,
{
    if n <= 0 || n > cs.len() {
        seq![]
    } else {
        impl_edges(cs, n - 1) + impl_edge(cs, n - 1)
    }
}

pub open spec fn has_edge_id(d: Seq<EdgeView>, id: Seq<char>) -> bool {
    exists|k: int| 0 <= k < d.len() && (#[trigger] d[k]).edge_id == id
}

/// The first `n` links with repeated ids dropped (the first one stays).
pub open spec fn dedup_edges(es: Seq<EdgeView>, n: int) -> Seq<EdgeView>
    decreases n,
{
    if n <= 0 || n > es.len() {
        seq![]
    } else {
        let d = dedup_edges(es, n - 1);
        if has_edge_id(d, es[n - 1].edge_id) {
            d
        } else {
            d.push(es[n - 1])
        }
    }
}

/// No two links kept by the deduplication share an id.
pub proof fn lemma_dedup_unique(es: Seq<EdgeView>, n: int)
    ensures
        forall|i: int, j: int|
            0 <= i < j < dedup_edges(es, n).len() ==> (#[trigger] dedup_edges(es, n)[i]).edge_id
                != (#[trigger] dedup_edges(es, n)[j]).edge_id,
    decreases n,
{
    if n > 0 && n <= es.len() {
        lemma_dedup_unique(es, n - 1);
        let d = dedup_edges(es, n - 1);
        if !has_edge_id(d, es[n - 1].edge_id) {
            let e = d.push(es[n - 1]);
            assert forall|i: int, j: int| 0 <= i < j < e.len() implies (#[trigger] e[i]).edge_id != (#[trigger] e[j]).edge_id by {
                if j == e.len() - 1 {
                    assert(e[i] == d[i]);
                } else {
                    assert(e[i] == d[i]);
                    assert(e[j] == d[j]);
                }
            }
        }
    }
}

/// Every link the heuristic finds has an id of its own.
pub proof fn lemma_heuristic_ids_unique(cs: Seq<ChunkView>)
    ensures
        forall|i: int, j: int|
            0 <= i < j < heuristic(cs).len() ==> (#[trigger] heuristic(cs)[i]).edge_id != (#[trigger] heuristic(
                cs,
            )[j]).edge_id,
{
    let all = reference_edges(cs, cs.len() as int) + impl_edges(cs, cs.len() as int);
    lemma_dedup_unique(all, all.len() as int);
}

/// The heuristic links: references and tests first, then implementations,
/// without repeats.
pub open spec fn heuristic(cs: Seq<ChunkView>) -> Seq<EdgeView> {
    let all = reference_edges(cs, cs.len() as int) + impl_edges(cs, cs.len() as int);
    dedup_edges(all, all.len() as int)
}

pub(crate) fn leaf_of(sp: &str) -> (r: String)
    ensures
        r@ == leaf(sp@),
{
    let cs = chars_of(sp);
    let pat: Vec<char> = vec![':', ':'];
    assert(pat@ =~= seq![':', ':']);
    if cs.len() < 2 {
        proof {
            assert(sp@.len() - 2 < 0);
        }
        return lit(sp);
    }
    let mut i: usize = cs.len() - 2;
    loop
        invariant
            cs@.len() >= 2,
            i <= cs@.len() - 2,
            cs@ == sp@,
            pat@ == seq![':', ':'],
            last_occ(sp@, pat@, sp@.len() - 2) == last_occ(sp@, pat@, i as int),
        decreases i,
    {
        if matches_at(cs.as_slice(), pat.as_slice(), i) {
            let len = cs.len();
            assert(i + 2 <= len);
            return string_from_range(cs.as_slice(), i + 2, len);
        }
        if i == 0 {
            assert(last_occ(sp@, pat@, -1) == -1);
            return lit(sp);
        }
        i = i - 1;
    }
}

fn edge_between(from: &Chunk, to: &Chunk, kind: SemanticEdgeKind, fsp: Option<String>, tsp: Option<String>) -> (e: SemanticEdge)
    ensures
        e@ == edge_of(from@, to@, kind, opt_view(fsp), opt_view(tsp)),
{
    let mut id = from.id.clone();
    push_str(&mut id, ":");
    push_str(&mut id, to.id.as_str());
    push_str(&mut id, ":");
    push_str(&mut id, kind.as_str());
    SemanticEdge {
        edge_id: id,
        from_chunk_id: from.id.clone(),
        to_chunk_id: to.id.clone(),
        kind,
        from_symbol_path: fsp,
        to_symbol_path: tsp,
    }
}

fn push_edge_view(v: &mut Vec<SemanticEdge>, e: SemanticEdge)
    ensures
        edge_views(final(v)@) == edge_views(old(v)@).push(e@),
{
    v.push(e);
    assert(edge_views(v@) =~= edge_views(old(v)@).push(e@));
}

fn is_target_exec(c: &Chunk, t: &str) -> (r: bool)
    ensures
        r == is_target(c@, t@),
{
    if c.kind != ChunkKind::Symbol {
        return false;
    }
    match &c.symbol_path {
        Some(sp) => !str_contains(sp.as_str(), "::impl::") && str_equal(leaf_of(sp.as_str()).as_str(), t),
        None => false,
    }
}

fn find_target(chunks: &[Chunk], t: &str) -> (r: Option<usize>)
    ensures
        r is Some ==> r->0 < chunks@.len() && target_for(chunk_views(chunks@), t@, chunks@.len() as int)
            == Some(r->0 as int),
        r is None ==> target_for(chunk_views(chunks@), t@, chunks@.len() as int) is None,
{
    let ghost cs = chunk_views(chunks@);
    let n = chunks.len();
    let mut m = n;
    while m > 0
        invariant
            m <= n,
            n == chunks@.len(),
            cs == chunk_views(chunks@),
            target_for(cs, t@, n as int) == target_for(cs, t@, m as int),
        decreases m,
    {
        assert(cs[m - 1] == chunks@[m - 1]@);
        if is_target_exec(&chunks[m - 1], t) {
            return Some(m - 1);
        }
        m = m - 1;
    }
    None
}

/// The links found by the heuristic (see [`heuristic`]).
pub fn heuristic_edges(chunks: &[Chunk]) -> (r: Vec<SemanticEdge>)
    ensures
        edge_views(r@) == heuristic(chunk_views(chunks@)),
{
    let ghost cs = chunk_views(chunks@);
    let n = chunks.len();
    let mut cands: Vec<SemanticEdge> = Vec::new();
    let mut i: usize = 0;
    while i < n
        invariant
            0 <= i <= n,
            n == chunks@.len(),
            cs == chunk_views(chunks@),
            edge_views(cands@) == reference_edges(cs, i as int),
        decreases n - i,
    {
        let ghost before = edge_views(cands@);
        assert(cs[i as int] == chunks@[i as int]@);
        if chunks[i].kind == ChunkKind::Symbol && chunks[i].symbol_path.is_some() {
            let sp = match &chunks[i].symbol_path {
                Some(s) => s.clone(),
                None => String::new(),
            };
            let l = leaf_of(sp.as_str());
            let mut j: usize = 0;
            while j < n
                invariant
                    0 <= j <= n,
                    i < n,
                    n == chunks@.len(),
                    cs == chunk_views(chunks@),
                    symbol_path_of(cs[i as int]) == Some(sp@),
                    l@ == leaf(sp@),
                    edge_views(cands@) == before + refs_for(cs, i as int, sp@, j as int),
                decreases n - j,
            {
                let c = &chunks[j];
                assert(cs[j as int] == c@);
                if !str_equal(c.id.as_str(), chunks[i].id.as_str()) && c.kind != ChunkKind::CrateSummary
                    && c.kind != ChunkKind::ModuleSummary && str_contains(c.text.as_str(), l.as_str()) {
                    let kind = if c.kind == ChunkKind::TestFunction {
                        SemanticEdgeKind::Test
                    } else {
                        SemanticEdgeKind::Reference
                    };
                    let e = edge_between(c, &chunks[i], kind, clone_opt(&c.symbol_path), Some(sp.clone()));
                    push_edge_view(&mut cands, e);
                }
                j = j + 1;
            }
        } else {
            assert(symbol_path_of(cs[i as int]) is None);
            assert(edge_views(cands@) =~= before + Seq::<EdgeView>::empty());
        }
        i = i + 1;
    }
    let ghost refs = edge_views(cands@);
    let mut k: usize = 0;
    while k < n
        invariant
            0 <= k <= n,
            n == chunks@.len(),
            cs == chunk_views(chunks@),
            edge_views(cands@) == refs + impl_edges(cs, k as int),
        decreases n - k,
    {
        let ghost before = edge_views(cands@);
        let c = &chunks[k];
        assert(cs[k as int] == c@);
        let mut pushed = false;
        if c.kind == ChunkKind::Symbol {
            if let Some(sp) = &c.symbol_path {
                if str_contains(sp.as_str(), "::impl") {
                    if let Some(t) = parse_impl_target_name(c.text.as_str()) {
                        let found = find_target(chunks, t.as_str());
                        if let Some(jt) = found {
                            let target = &chunks[jt];
                            let mut fsp = sp.clone();
                            push_str(&mut fsp, "::");
                            push_str(&mut fsp, t.as_str());
                            let e = edge_between(c, target, SemanticEdgeKind::Implementation, Some(fsp), clone_opt(&target.symbol_path));
                            push_edge_view(&mut cands, e);
                            assert(edge_views(cands@) =~= before + impl_edge(cs, k as int));
                            pushed = true;
                        }
                    }
                }
            }
        }
        if !pushed {
            assert(impl_edge(cs, k as int) =~= Seq::<EdgeView>::empty());
            assert(edge_views(cands@) =~= before + impl_edge(cs, k as int));
        }
        assert(refs + impl_edges(cs, k + 1) =~= before + impl_edge(cs, k as int));
        k = k + 1;
    }
    let ghost all = edge_views(cands@);
    let mut out: Vec<SemanticEdge> = Vec::new();
    let mut q: usize = 0;
    while q < cands.len()
        invariant
            0 <= q <= cands@.len(),
            all == edge_views(cands@),
            edge_views(out@) == dedup_edges(all, q as int),
        decreases cands.len() - q,
    {
        let mut dup = false;
        let mut p: usize = 0;
        while p < out.len()
            invariant
                0 <= p <= out@.len(),
                q < cands@.len(),
                all == edge_views(cands@),
                dup == (exists|k: int| 0 <= k < p && (#[trigger] edge_views(out@)[k]).edge_id == all[q as int].edge_id),
            decreases out.len() - p,
        {
            assert(edge_views(out@)[p as int] == out@[p as int]@);
            assert(all[q as int] == cands@[q as int]@);
            if str_equal(out[p].edge_id.as_str(), cands[q].edge_id.as_str()) {
                dup = true;
            }
            p = p + 1;
        }
        if !dup {
            let e = cands[q].clone_edge();
            assert(all[q as int] == cands@[q as int]@);
            push_edge_view(&mut out, e);
        }
        q = q + 1;
    }
    out
}

impl SemanticEdge {
    pub fn clone_edge(&self) -> (r: Self)
        ensures
            r@ == self@,
    {
        SemanticEdge {
            edge_id: self.edge_id.clone(),
            from_chunk_id: self.from_chunk_id.clone(),
            to_chunk_id: self.to_chunk_id.clone(),
            kind: self.kind,
            from_symbol_path: clone_opt(&self.from_symbol_path),
            to_symbol_path: clone_opt(&self.to_symbol_path),
        }
    }
}

#[derive(Debug, Clone, PartialEq, Eq)]
enum AnalyzerMode {
    Heuristic,
    Unavailable(String),
}

/// Enriches chunks with links: by the text heuristic, or not at all when
/// the analyzer is unavailable.
#[derive(Debug, Clone, PartialEq, Eq)]
pub struct RustAnalyzerEnricher {
    mode: AnalyzerMode,
}

pub open spec fn fallback_warning() -> Seq<char> {
    "rust-analyzer semantic enrichment unavailable; using heuristic fallback"@
}

impl RustAnalyzerEnricher {
    /// The reason the analyzer is unavailable, if it is.
    pub closed spec fn unavailable_reason(&self) -> Option<Seq<char>> {
        match self.mode {
            AnalyzerMode::Heuristic => None,
            AnalyzerMode::Unavailable(r) => Some(r@),
        }
    }

    pub fn heuristic() -> (r: Self)
        ensures
            r.unavailable_reason() is None,
    {
        RustAnalyzerEnricher { mode: AnalyzerMode::Heuristic }
    }

    pub fn unavailable(reason: &str) -> (r: Self)
        ensures
            r.unavailable_reason() == Some(reason@),
    {
        RustAnalyzerEnricher { mode: AnalyzerMode::Unavailable(lit(reason)) }
    }

    /// The heuristic links of the chunks with a warning that the analyzer
    /// is not used, or, when it is unavailable, no links and a warning
    /// giving the reason.
    pub fn enrich_chunks(&self, workspace_root: &str, chunks: &[Chunk]) -> (r: Result<SemanticEnrichment, String>)
        ensures
            r is Ok,
            !r->Ok_0.analyzer_available,
            match self.unavailable_reason() {
                Some(reason) => r->Ok_0.edges@.len() == 0 && views(r->Ok_0.warnings@) == seq![
                    "rust-analyzer semantic enrichment unavailable: "@ + reason,
                ],
                None => edge_views(r->Ok_0.edges@) == heuristic(chunk_views(chunks@)) && views(
                    r->Ok_0.warnings@,
                ) == seq![fallback_warning()],
            },
    {
        match &self.mode {
            AnalyzerMode::Unavailable(reason) => {
                let mut w = lit("rust-analyzer semantic enrichment unavailable: ");
                push_str(&mut w, reason.as_str());
                let mut warnings: Vec<String> = Vec::new();
                warnings.push(w);
                assert(views(warnings@) =~= seq!["rust-analyzer semantic enrichment unavailable: "@ + reason@]);
                Ok(SemanticEnrichment { edges: Vec::new(), warnings, analyzer_available: false })
            },
            AnalyzerMode::Heuristic => {
                let mut warnings: Vec<String> = Vec::new();
                warnings.push(lit("rust-analyzer semantic enrichment unavailable; using heuristic fallback"));
                assert(views(warnings@) =~= seq![fallback_warning()]);
                Ok(SemanticEnrichment { edges: heuristic_edges(chunks), warnings, analyzer_available: false })
            },
        }
    }
}

} // verus!
