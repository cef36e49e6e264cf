//! The neighborhood of a query: the seed chunks that match its symbol
//! exactly, and around them the chunks of the same file, the chunks that
//! mention the symbol, the tests and examples, the enclosing module, and the
//! chunks linked to a seed by a semantic edge. Each candidate names the
//! configured weight that scores it.
use crate::chunking::types::{lit, opt_view};
use crate::metadata::{ChunkRecord, EdgeRecord};
use crate::retrieval::query::{QueryMode, RetrievalRequest};
use crate::retrieval::rerank::{candidate_views, Candidate, CandidateView, ScoreSource};
use crate::retrieval::signals::{example_like, has_marker, is_example_like};
use crate::semantic::{leaf, leaf_of, parse_edge_kind, SemanticEdgeKind};
use crate::text::{contains_seq, occurs_at, str_contains, str_equal, str_starts_with, views};
use vstd::prelude::*;

verus! {

/// A configured neighborhood weight: one per field of the neighborhood
/// weights, the semantic ones by query mode.
#[derive(Debug, Clone, Copy, PartialEq, Eq, Structural)]
pub enum NeighborhoodWeight {
    ExactSymbol,
    SameFile,
    TextReferenceUnderstandSymbol,
    TextReferenceImplementAdjacent,
    TextReferenceBoundedRefactor,
    TextReferenceBoundedRefactorTestLike,
    TextReferenceBlastRadius,
    TextReferenceBlastRadiusTestLike,
    TextReferenceFindExamples,
    TextReferenceFindExamplesTestLike,
    TestNeighborFindExamples,
    TestNeighborBoundedRefactor,
    ModuleContextUnderstandSymbol,
    SemanticReference(QueryMode),
    SemanticImpl(QueryMode),
    SemanticTest(QueryMode),
}

pub open spec fn cand(k: int, w: NeighborhoodWeight, label: Seq<char>) -> CandidateView {
    CandidateView { chunk: k, source: ScoreSource::Neighborhood(w), evidence: seq![label] }
}

/// A seed: a chunk whose id the exact-symbol search returned.
pub open spec fn is_seed(all: Seq<ChunkRecord>, ids: Seq<Seq<char>>, k: int) -> bool {
    ids.contains(all[k].chunk_id@)
}

pub open spec fn seed_with_id(all: Seq<ChunkRecord>, ids: Seq<Seq<char>>, id: Seq<char>) -> bool {
    exists|s: int| 0 <= s < all.len() && is_seed(all, ids, s) && (#[trigger] all[s]).chunk_id@ == id
}

/// Another chunk of a seed's file.
pub open spec fn beside_a_seed(all: Seq<ChunkRecord>, ids: Seq<Seq<char>>, k: int) -> bool {
    exists|s: int|
        0 <= s < all.len() && is_seed(all, ids, s) && (#[trigger] all[s]).file_path@ == all[k].file_path@
            && all[s].chunk_id@ != all[k].chunk_id@
}

/// What a chunk must contain to be a text reference: the last segment of
/// the symbol path, or the query text when there is no symbol.
pub open spec fn symbol_leaf(r: RetrievalRequest) -> Seq<char> {
    match opt_view(r.symbol_path) {
        Some(p) => leaf(p),
        None => r.query_text@,
    }
}

pub open spec fn text_reference_weight(mode: QueryMode, c: ChunkRecord) -> NeighborhoodWeight {
    match mode {
        QueryMode::BoundedRefactor => if example_like(c) {
            NeighborhoodWeight::TextReferenceBoundedRefactorTestLike
        } else {
            NeighborhoodWeight::TextReferenceBoundedRefactor
        },
        QueryMode::BlastRadius => if example_like(c) {
            NeighborhoodWeight::TextReferenceBlastRadiusTestLike
        } else {
            NeighborhoodWeight::TextReferenceBlastRadius
        },
        QueryMode::FindExamples => if example_like(c) {
            NeighborhoodWeight::TextReferenceFindExamplesTestLike
        } else {
            NeighborhoodWeight::TextReferenceFindExamples
        },
        QueryMode::ImplementAdjacent => NeighborhoodWeight::TextReferenceImplementAdjacent,
        QueryMode::UnderstandSymbol => NeighborhoodWeight::TextReferenceUnderstandSymbol,
    }
}

/// A module summary enclosing the requested symbol.
pub open spec fn module_context(r: RetrievalRequest, c: ChunkRecord) -> bool {
    &&& r.query_mode == QueryMode::UnderstandSymbol
    &&& c.chunk_kind@ == "ModuleSummary"@
    &&& match (opt_view(r.symbol_path), opt_view(c.symbol_path)) {
        (Some(p), Some(q)) => occurs_at(p, q, 0),
        _ => false,
    }
}

/// The candidates a chunk other than a seed contributes, in this order:
/// same file, text reference, test neighbor, module context.
pub open spec fn chunk_candidates(r: RetrievalRequest, all: Seq<ChunkRecord>, ids: Seq<Seq<char>>, k: int) -> Seq<CandidateView> {
    let c = all[k];
    if seed_with_id(all, ids, c.chunk_id@) {
        seq![]
    } else {
        let same = if beside_a_seed(all, ids, k) {
            seq![cand(k, NeighborhoodWeight::SameFile, "same_file"@)]
        } else {
            seq![]
        };
        let text = if contains_seq(c.text@, symbol_leaf(r)) {
            seq![cand(k, text_reference_weight(r.query_mode, c), "text_reference"@)]
        } else {
            seq![]
        };
        let test = if r.query_mode == QueryMode::FindExamples && example_like(c) {
            seq![cand(k, NeighborhoodWeight::TestNeighborFindExamples, "test_neighbor"@)]
        } else if r.query_mode == QueryMode::BoundedRefactor && example_like(c) {
            seq![cand(k, NeighborhoodWeight::TestNeighborBoundedRefactor, "test_neighbor"@)]
        } else {
            seq![]
        };
        let module = if module_context(r, c) {
            seq![cand(k, NeighborhoodWeight::ModuleContextUnderstandSymbol, "module_context"@)]
        } else {
            seq![]
        };
        same + text + test + module
    }
}

pub open spec fn seeds_upto(all: Seq<ChunkRecord>, ids: Seq<Seq<char>>, n: int) -> Seq<CandidateView>
    decreases n,
{
    if n <= 0 || n > all.len() {
        seq![]
    } else {
        seeds_upto(all, ids, n - 1) + if is_seed(all, ids, n - 1) {
            seq![cand(n - 1, NeighborhoodWeight::ExactSymbol, "exact_symbol"@)]
        } else {
            seq![]
        }
    }
}

pub open spec fn chunks_upto(r: RetrievalRequest, all: Seq<ChunkRecord>, ids: Seq<Seq<char>>, n: int) -> Seq<CandidateView>
    decreases n,
{
    if n <= 0 || n > all.len() {
        seq![]
    } else {
        chunks_upto(r, all, ids, n - 1) + chunk_candidates(r, all, ids, n - 1)
    }
}

/// Index of the last chunk among the first `n` with this id, or -1.
pub open spec fn last_with_id(all: Seq<ChunkRecord>, id: Seq<char>, n: int) -> int
    decreases n,
{
    if n <= 0 || n > all.len() {
        -1
    } else if all[n - 1].chunk_id@ == id {
        n - 1
    } else {
        last_with_id(all, id, n - 1)
    }
}

pub open spec fn semantic_weight(mode: QueryMode, kind: SemanticEdgeKind) -> NeighborhoodWeight {
    match kind {
        SemanticEdgeKind::Reference => NeighborhoodWeight::SemanticReference(mode),
        SemanticEdgeKind::Implementation => NeighborhoodWeight::SemanticImpl(mode),
        SemanticEdgeKind::Test => NeighborhoodWeight::SemanticTest(mode),
    }
}

pub open spec fn semantic_label(kind: SemanticEdgeKind) -> Seq<char> {
    match kind {
        SemanticEdgeKind::Reference => "semantic_reference"@,
        SemanticEdgeKind::Implementation => "semantic_impl"@,
        SemanticEdgeKind::Test => "semantic_test"@,
    }
}

/// The candidate an edge contributes: the other end of an edge that
/// touches a seed, when it is a stored chunk and the edge is semantic.
pub open spec fn edge_candidates(r: RetrievalRequest, all: Seq<ChunkRecord>, ids: Seq<Seq<char>>, e: EdgeRecord) -> Seq<CandidateView> {
    let from_seed = seed_with_id(all, ids, e.from_chunk_id@);
    let to_seed = seed_with_id(all, ids, e.to_chunk_id@);
    if !from_seed && !to_seed {
        seq![]
    } else {
        let other = if from_seed {
            e.to_chunk_id@
        } else {
            e.from_chunk_id@
        };
        let k = last_with_id(all, other, all.len() as int);
        if k < 0 {
            seq![]
        } else {
            match parse_edge_kind(e.edge_kind@) {
                None => seq![],
                Some(kind) => seq![cand(k, semantic_weight(r.query_mode, kind), semantic_label(kind))],
            }
        }
    }
}

pub open spec fn edges_upto(r: RetrievalRequest, all: Seq<ChunkRecord>, ids: Seq<Seq<char>>, es: Seq<EdgeRecord>, n: int) -> Seq<CandidateView>
    decreases n,
{
    if n <= 0 || n > es.len() {
        seq![]
    } else {
        edges_upto(r, all, ids, es, n - 1) + edge_candidates(r, all, ids, es[n - 1])
    }
}

/// The neighborhood: the seeds, then what each other chunk contributes,
/// then what each edge contributes.
pub open spec fn neighborhood(r: RetrievalRequest, all: Seq<ChunkRecord>, ids: Seq<Seq<char>>, es: Seq<EdgeRecord>) -> Seq<CandidateView> {
    seeds_upto(all, ids, all.len() as int) + chunks_upto(r, all, ids, all.len() as int) + edges_upto(
        r,
        all,
        ids,
        es,
        es.len() as int,
    )
}

fn id_listed(ids: &[String], id: &str) -> (r: bool)
    ensures
        r == views(ids@).contains(id@),
{
    let mut i: usize = 0;
    while i < ids.len()
        invariant
            0 <= i <= ids@.len(),
            forall|k: int| 0 <= k < i ==> views(ids@)[k] != id@,
        decreases ids.len() - i,
    {
        if str_equal(ids[i].as_str(), id) {
            assert(views(ids@)[i as int] == id@);
            return true;
        }
        i = i + 1;
    }
    false
}

fn seed_id_present(all: &[ChunkRecord], ids: &[String], id: &str) -> (r: bool)
    ensures
        r == seed_with_id(all@, views(ids@), id@),
{
    let mut s: usize = 0;
    while s < all.len()
        invariant
            0 <= s <= all@.len(),
            forall|j: int| 0 <= j < s ==> !(is_seed(all@, views(ids@), j) && (#[trigger] all@[j]).chunk_id@ == id@),
        decreases all.len() - s,
    {
        if str_equal(all[s].chunk_id.as_str(), id) && id_listed(ids, all[s].chunk_id.as_str()) {
            return true;
        }
        s = s + 1;
    }
    false
}

fn next_to_seed(all: &[ChunkRecord], ids: &[String], k: usize) -> (r: bool)
    requires
        k < all@.len(),
    ensures
        r == beside_a_seed(all@, views(ids@), k as int),
{
    let mut s: usize = 0;
    while s < all.len()
        invariant
            0 <= s <= all@.len(),
            k < all@.len(),
            forall|j: int|
                0 <= j < s ==> !(is_seed(all@, views(ids@), j) && (#[trigger] all@[j]).file_path@ == all@[k as int].file_path@
                    && all@[j].chunk_id@ != all@[k as int].chunk_id@),
        decreases all.len() - s,
    {
        if id_listed(ids, all[s].chunk_id.as_str()) && str_equal(all[s].file_path.as_str(), all[k].file_path.as_str())
            && !str_equal(all[s].chunk_id.as_str(), all[k].chunk_id.as_str()) {
            return true;
        }
        s = s + 1;
    }
    false
}

fn last_index_with_id(all: &[ChunkRecord], id: &str) -> (r: Option<usize>)
    ensures
        match r {
            Some(k) => k < all@.len() && last_with_id(all@, id@, all@.len() as int) == k,
            None => last_with_id(all@, id@, all@.len() as int) == -1,
        },
{
    let mut n: usize = all.len();
    while n > 0
        invariant
            0 <= n <= all@.len(),
            last_with_id(all@, id@, all@.len() as int) == last_with_id(all@, id@, n as int),
        decreases n,
    {
        if str_equal(all[n - 1].chunk_id.as_str(), id) {
            return Some(n - 1);
        }
        n = n - 1;
    }
    None
}

fn push_cand(v: &mut Vec<Candidate>, k: usize, w: NeighborhoodWeight, label: &str)
    ensures
        candidate_views(final(v)@) == candidate_views(old(v)@).push(cand(k as int, w, label@)),
{
    let mut evidence: Vec<String> = Vec::new();
    evidence.push(lit(label));
    assert(views(evidence@) =~= seq![label@]);
    v.push(Candidate { chunk: k, source: ScoreSource::Neighborhood(w), evidence });
    assert(candidate_views(v@) =~= candidate_views(old(v)@).push(cand(k as int, w, label@)));
}

fn text_reference_weight_of(mode: QueryMode, c: &ChunkRecord) -> (r: NeighborhoodWeight)
    ensures
        r == text_reference_weight(mode, *c),
{
    match mode {
        QueryMode::BoundedRefactor => if is_example_like(c) {
            NeighborhoodWeight::TextReferenceBoundedRefactorTestLike
        } else {
            NeighborhoodWeight::TextReferenceBoundedRefactor
        },
        QueryMode::BlastRadius => if is_example_like(c) {
            NeighborhoodWeight::TextReferenceBlastRadiusTestLike
        } else {
            NeighborhoodWeight::TextReferenceBlastRadius
        },
        QueryMode::FindExamples => if is_example_like(c) {
            NeighborhoodWeight::TextReferenceFindExamplesTestLike
        } else {
            NeighborhoodWeight::TextReferenceFindExamples
        },
        QueryMode::ImplementAdjacent => NeighborhoodWeight::TextReferenceImplementAdjacent,
        QueryMode::UnderstandSymbol => NeighborhoodWeight::TextReferenceUnderstandSymbol,
    }
}

fn in_module_context(request: &RetrievalRequest, c: &ChunkRecord) -> (r: bool)
    ensures
        r == module_context(*request, *c),
{
    if request.query_mode != QueryMode::UnderstandSymbol || !str_equal(c.chunk_kind.as_str(), "ModuleSummary") {
        return false;
    }
    match (&request.symbol_path, &c.symbol_path) {
        (Some(p), Some(q)) => str_starts_with(p.as_str(), q.as_str()),
        _ => false,
    }
}

fn add_chunk_candidates(
    out: &mut Vec<Candidate>,
    request: &RetrievalRequest,
    all: &[ChunkRecord],
    ids: &[String],
    needle: &str,
    k: usize,
)
    requires
        k < all@.len(),
        needle@ == symbol_leaf(*request),
    ensures
        candidate_views(final(out)@) == candidate_views(old(out)@) + chunk_candidates(*request, all@, views(ids@), k as int),
{
    let ghost start = candidate_views(out@);
    let c = &all[k];
    if seed_id_present(all, ids, c.chunk_id.as_str()) {
        assert(candidate_views(out@) =~= start + chunk_candidates(*request, all@, views(ids@), k as int));
        return;
    }
    if next_to_seed(all, ids, k) {
        push_cand(out, k, NeighborhoodWeight::SameFile, "same_file");
    }
    if str_contains(c.text.as_str(), needle) {
        push_cand(out, k, text_reference_weight_of(request.query_mode, c), "text_reference");
    }
    if request.query_mode == QueryMode::FindExamples && is_example_like(c) {
        push_cand(out, k, NeighborhoodWeight::TestNeighborFindExamples, "test_neighbor");
    } else if request.query_mode == QueryMode::BoundedRefactor && is_example_like(c) {
        push_cand(out, k, NeighborhoodWeight::TestNeighborBoundedRefactor, "test_neighbor");
    }
    if in_module_context(request, c) {
        push_cand(out, k, NeighborhoodWeight::ModuleContextUnderstandSymbol, "module_context");
    }
    assert(candidate_views(out@) =~= start + chunk_candidates(*request, all@, views(ids@), k as int));
}

fn add_edge_candidates(out: &mut Vec<Candidate>, request: &RetrievalRequest, all: &[ChunkRecord], ids: &[String], e: &EdgeRecord)
    ensures
        candidate_views(final(out)@) == candidate_views(old(out)@) + edge_candidates(*request, all@, views(ids@), *e),
{
    let ghost start = candidate_views(out@);
    let from_seed = seed_id_present(all, ids, e.from_chunk_id.as_str());
    let to_seed = seed_id_present(all, ids, e.to_chunk_id.as_str());
    if !from_seed && !to_seed {
        assert(candidate_views(out@) =~= start + edge_candidates(*request, all@, views(ids@), *e));
        return;
    }
    let other = if from_seed {
        e.to_chunk_id.as_str()
    } else {
        e.from_chunk_id.as_str()
    };
    match last_index_with_id(all, other) {
        None => {
            assert(candidate_views(out@) =~= start + edge_candidates(*request, all@, views(ids@), *e));
        },
        Some(k) => match e.semantic_kind() {
            None => {
                assert(candidate_views(out@) =~= start + edge_candidates(*request, all@, views(ids@), *e));
            },
            Some(kind) => {
                let (w, label) = match kind {
                    SemanticEdgeKind::Reference => (NeighborhoodWeight::SemanticReference(request.query_mode), "semantic_reference"),
                    SemanticEdgeKind::Implementation => (NeighborhoodWeight::SemanticImpl(request.query_mode), "semantic_impl"),
                    SemanticEdgeKind::Test => (NeighborhoodWeight::SemanticTest(request.query_mode), "semantic_test"),
                };
                push_cand(out, k, w, label);
                assert(candidate_views(out@) =~= start + edge_candidates(*request, all@, views(ids@), *e));
            },
        },
    }
}

/// The neighborhood of a request: `all_chunks` are the snapshot's chunks
/// and `seed_ids` the ids the exact-symbol search returned.
pub fn assemble_neighborhood(
    request: &RetrievalRequest,
    all_chunks: &[ChunkRecord],
    seed_ids: &[String],
    all_edges: &[EdgeRecord],
) -> (r: Vec<Candidate>)
    ensures
        candidate_views(r@) == neighborhood(*request, all_chunks@, views(seed_ids@), all_edges@),
        forall|j: int| 0 <= j < r@.len() ==> (#[trigger] r@[j]).chunk < all_chunks@.len(),
{
    let ghost ids = views(seed_ids@);
    let ghost all = all_chunks@;
    let mut out: Vec<Candidate> = Vec::new();
    let mut k: usize = 0;
    assert(candidate_views(out@) =~= seeds_upto(all, ids, 0));
    while k < all_chunks.len()
        invariant
            0 <= k <= all.len(),
            all == all_chunks@,
            ids == views(seed_ids@),
            candidate_views(out@) == seeds_upto(all, ids, k as int),
        decreases all_chunks.len() - k,
    {
        if id_listed(seed_ids, all_chunks[k].chunk_id.as_str()) {
            push_cand(&mut out, k, NeighborhoodWeight::ExactSymbol, "exact_symbol");
        }
        assert(candidate_views(out@) =~= seeds_upto(all, ids, k + 1));
        k = k + 1;
    }
    let ghost seeds = candidate_views(out@);
    let needle = match &request.symbol_path {
        Some(p) => leaf_of(p.as_str()),
        None => request.query_text.clone(),
    };
    k = 0;
    assert(candidate_views(out@) =~= seeds + chunks_upto(*request, all, ids, 0));
    while k < all_chunks.len()
        invariant
            0 <= k <= all.len(),
            all == all_chunks@,
            ids == views(seed_ids@),
            needle@ == symbol_leaf(*request),
            candidate_views(out@) == seeds + chunks_upto(*request, all, ids, k as int),
        decreases all_chunks.len() - k,
    {
        add_chunk_candidates(&mut out, request, all_chunks, seed_ids, needle.as_str(), k);
        assert(candidate_views(out@) =~= seeds + chunks_upto(*request, all, ids, k + 1));
        k = k + 1;
    }
    let ghost around = candidate_views(out@);
    let mut i: usize = 0;
    assert(candidate_views(out@) =~= around + edges_upto(*request, all, ids, all_edges@, 0));
    while i < all_edges.len()
        invariant
            0 <= i <= all_edges@.len(),
            all == all_chunks@,
            ids == views(seed_ids@),
            candidate_views(out@) == around + edges_upto(*request, all, ids, all_edges@, i as int),
        decreases all_edges.len() - i,
    {
        add_edge_candidates(&mut out, request, all_chunks, seed_ids, &all_edges[i]);
        assert(candidate_views(out@) =~= around + edges_upto(*request, all, ids, all_edges@, i + 1));
        i = i + 1;
    }
    proof {
        lemma_neighborhood_in_pool(*request, all, ids, all_edges@);
        assert forall|j: int| 0 <= j < out@.len() implies (#[trigger] out@[j]).chunk < all.len() by {
            assert(candidate_views(out@)[j].chunk == out@[j].chunk);
        }
    }
    out
}

proof fn lemma_last_with_id_bound(all: Seq<ChunkRecord>, id: Seq<char>, n: int)
    requires
        0 <= n <= all.len(),
    ensures
        -1 <= last_with_id(all, id, n) < n,
    decreases n,
{
    if n > 0 {
        lemma_last_with_id_bound(all, id, n - 1);
    }
}

/// Every candidate of the neighborhood is a chunk of the pool.
pub proof fn lemma_neighborhood_in_pool(r: RetrievalRequest, all: Seq<ChunkRecord>, ids: Seq<Seq<char>>, es: Seq<EdgeRecord>)
    ensures
        forall|j: int|
            0 <= j < neighborhood(r, all, ids, es).len() ==> 0 <= #[trigger] neighborhood(r, all, ids, es)[j].chunk < all.len(),
{
    lemma_seeds_in_pool(all, ids, all.len() as int);
    lemma_chunks_in_pool(r, all, ids, all.len() as int);
    lemma_edges_in_pool(r, all, ids, es, es.len() as int);
    let a = seeds_upto(all, ids, all.len() as int);
    let b = chunks_upto(r, all, ids, all.len() as int);
    let c = edges_upto(r, all, ids, es, es.len() as int);
    assert forall|j: int| 0 <= j < (a + b + c).len() implies 0 <= #[trigger] (a + b + c)[j].chunk < all.len() by {
        if j < a.len() {
            assert((a + b + c)[j] == a[j]);
        } else if j < a.len() + b.len() {
            assert((a + b + c)[j] == b[j - a.len()]);
        } else {
            assert((a + b + c)[j] == c[j - a.len() - b.len()]);
        }
    }
}

proof fn lemma_seeds_in_pool(all: Seq<ChunkRecord>, ids: Seq<Seq<char>>, n: int)
    ensures
        forall|j: int| 0 <= j < seeds_upto(all, ids, n).len() ==> 0 <= #[trigger] seeds_upto(all, ids, n)[j].chunk < all.len(),
    decreases n,
{
    if n > 0 && n <= all.len() {
        lemma_seeds_in_pool(all, ids, n - 1);
        let p = seeds_upto(all, ids, n - 1);
        let q = seeds_upto(all, ids, n);
        assert forall|j: int| 0 <= j < q.len() implies 0 <= #[trigger] q[j].chunk < all.len() by {
            if j < p.len() {
                assert(q[j] == p[j]);
            }
        }
    }
}

proof fn lemma_chunks_in_pool(r: RetrievalRequest, all: Seq<ChunkRecord>, ids: Seq<Seq<char>>, n: int)
    ensures
        forall|j: int| 0 <= j < chunks_upto(r, all, ids, n).len() ==> 0 <= #[trigger] chunks_upto(r, all, ids, n)[j].chunk < all.len(),
    decreases n,
{
    if n > 0 && n <= all.len() {
        lemma_chunks_in_pool(r, all, ids, n - 1);
        let p = chunks_upto(r, all, ids, n - 1);
        let c = chunk_candidates(r, all, ids, n - 1);
        let q = chunks_upto(r, all, ids, n);
        assert(q == p + c);
        assert forall|j: int| 0 <= j < q.len() implies 0 <= #[trigger] q[j].chunk < all.len() by {
            if j < p.len() {
                assert(q[j] == p[j]);
            } else {
                assert(q[j] == c[j - p.len()]);
                assert(c[j - p.len()].chunk == n - 1);
            }
        }
    }
}

proof fn lemma_edges_in_pool(r: RetrievalRequest, all: Seq<ChunkRecord>, ids: Seq<Seq<char>>, es: Seq<EdgeRecord>, n: int)
    ensures
        forall|j: int| 0 <= j < edges_upto(r, all, ids, es, n).len() ==> 0 <= #[trigger] edges_upto(r, all, ids, es, n)[j].chunk < all.len(),
    decreases n,
{
    if n > 0 && n <= es.len() {
        lemma_edges_in_pool(r, all, ids, es, n - 1);
        let p = edges_upto(r, all, ids, es, n - 1);
        let e = es[n - 1];
        let c = edge_candidates(r, all, ids, e);
        let q = edges_upto(r, all, ids, es, n);
        assert(q == p + c);
        let other = if seed_with_id(all, ids, e.from_chunk_id@) {
            e.to_chunk_id@
        } else {
            e.from_chunk_id@
        };
        lemma_last_with_id_bound(all, other, all.len() as int);
        assert forall|j: int| 0 <= j < q.len() implies 0 <= #[trigger] q[j].chunk < all.len() by {
            if j < p.len() {
                assert(q[j] == p[j]);
            } else {
                assert(q[j] == c[j - p.len()]);
            }
        }
    }
}


/// What the first `n` chunks contribute includes what chunk `k < n`
/// contributes.
proof fn lemma_chunks_upto_contains(
    r: RetrievalRequest,
    all: Seq<ChunkRecord>,
    ids: Seq<Seq<char>>,
    n: int,
    k: int,
    c: CandidateView,
)
    requires
        0 <= k < n <= all.len(),
        chunk_candidates(r, all, ids, k).contains(c),
    ensures
        chunks_upto(r, all, ids, n).contains(c),
    decreases n,
{
    let prev = chunks_upto(r, all, ids, n - 1);
    let here = chunk_candidates(r, all, ids, n - 1);
    assert(chunks_upto(r, all, ids, n) == prev + here);
    if k < n - 1 {
        lemma_chunks_upto_contains(r, all, ids, n - 1, k, c);
        let i = choose|i: int| 0 <= i < prev.len() && prev[i] == c;
        assert((prev + here)[i] == c);
    } else {
        let i = choose|i: int| 0 <= i < here.len() && here[i] == c;
        assert((prev + here)[prev.len() + i] == c);
    }
}

/// A find-examples query gathers the tests and examples: every chunk that
/// is not a seed and is a test function, an example file or a doctest, or
/// carries a `test`, `example` or `doctest` marker, is a `test_neighbor`
/// candidate weighted for finding examples.
pub proof fn lemma_find_examples_gathers_tests(
    r: RetrievalRequest,
    all: Seq<ChunkRecord>,
    ids: Seq<Seq<char>>,
    es: Seq<EdgeRecord>,
    k: int,
)
    requires
        r.query_mode == QueryMode::FindExamples,
        0 <= k < all.len(),
        !ids.contains(all[k].chunk_id@),
        all[k].chunk_kind@ == "TestFunction"@ || all[k].chunk_kind@ == "ExampleFile"@
            || all[k].chunk_kind@ == "Doctest"@ || (exists|m: int|
            0 <= m < all[k].retrieval_markers@.len() && (#[trigger] all[k].retrieval_markers@[m]@ == "test"@
                || all[k].retrieval_markers@[m]@ == "example"@ || all[k].retrieval_markers@[m]@ == "doctest"@)),
    ensures
        neighborhood(r, all, ids, es).contains(
            CandidateView {
                chunk: k,
                source: ScoreSource::Neighborhood(NeighborhoodWeight::TestNeighborFindExamples),
                evidence: seq!["test_neighbor"@],
            },
        ),
{
    let c = CandidateView {
        chunk: k,
        source: ScoreSource::Neighborhood(NeighborhoodWeight::TestNeighborFindExamples),
        evidence: seq!["test_neighbor"@],
    };
    let ch = all[k];
    assert(!seed_with_id(all, ids, ch.chunk_id@));
    if exists|m: int|
        0 <= m < ch.retrieval_markers@.len() && (#[trigger] ch.retrieval_markers@[m]@ == "test"@
            || ch.retrieval_markers@[m]@ == "example"@ || ch.retrieval_markers@[m]@ == "doctest"@) {
        let m = choose|m: int|
            0 <= m < ch.retrieval_markers@.len() && (#[trigger] ch.retrieval_markers@[m]@ == "test"@
                || ch.retrieval_markers@[m]@ == "example"@ || ch.retrieval_markers@[m]@ == "doctest"@);
        assert(ch.retrieval_markers@[m]@ == "test"@ ==> has_marker(ch, "test"@));
        assert(ch.retrieval_markers@[m]@ == "example"@ ==> has_marker(ch, "example"@));
        assert(ch.retrieval_markers@[m]@ == "doctest"@ ==> has_marker(ch, "doctest"@));
    }
    assert(example_like(ch));
    let cc = chunk_candidates(r, all, ids, k);
    let same = if beside_a_seed(all, ids, k) {
        seq![cand(k, NeighborhoodWeight::SameFile, "same_file"@)]
    } else {
        seq![]
    };
    let text = if contains_seq(ch.text@, symbol_leaf(r)) {
        seq![cand(k, text_reference_weight(r.query_mode, ch), "text_reference"@)]
    } else {
        seq![]
    };
    let module = if module_context(r, ch) {
        seq![cand(k, NeighborhoodWeight::ModuleContextUnderstandSymbol, "module_context"@)]
    } else {
        seq![]
    };
    assert(cc == same + text + seq![c] + module);
    assert(cc[(same.len() + text.len()) as int] == c);
    lemma_chunks_upto_contains(r, all, ids, all.len() as int, k, c);
    let a = seeds_upto(all, ids, all.len() as int);
    let b = chunks_upto(r, all, ids, all.len() as int);
    let e = edges_upto(r, all, ids, es, es.len() as int);
    let i = choose|i: int| 0 <= i < b.len() && b[i] == c;
    assert((a + b + e)[a.len() + i] == c);
}

} // verus!
