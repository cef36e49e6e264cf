//! Ranking the candidates of a retrieval. Candidates of one chunk merge
//! into one, keeping every score source and the union of their evidence;
//! each merged candidate then gets the bias of the query mode and, when its
//! file is changed in the worktree, the worktree bias. The amounts are
//! configured weights, which the caller adds up and orders by.
use crate::chunking::types::{clone_strings, lit};
use crate::metadata::ChunkRecord;
use crate::retrieval::neighborhood::NeighborhoodWeight;
use crate::retrieval::query::QueryMode;
use crate::retrieval::signals::{example_like, has_marker, is_example_like, is_test_like, marker_present, test_like};
use crate::text::{chars_of, occurs_at, str_equal, str_starts_with, string_from_range, views};
use crate::worktree::WorktreeChanges;
use vstd::prelude::*;

verus! {

/// What scores a candidate: a configured neighborhood weight; the score of
/// the lexical or the vector search hit of that rank, plus that search's
/// offset; or a history node's base score plus the number of query terms
/// its summary mentions.
#[derive(Debug, Clone, Copy, PartialEq, Eq, Structural)]
pub enum ScoreSource {
    Neighborhood(NeighborhoodWeight),
    LexicalHit(usize),
    VectorHit(usize),
    History(usize),
}

/// A candidate: the chunk at this index of the retrieval's pool of chunks,
/// what scores it, and why it was gathered.
#[derive(Debug, Clone, PartialEq, Eq)]
pub struct Candidate {
    pub chunk: usize,
    pub source: ScoreSource,
    pub evidence: Vec<String>,
}

pub struct CandidateView {
    pub chunk: int,
    pub source: ScoreSource,
    pub evidence: Seq<Seq<char>>,
}

impl View for Candidate {
    type V = CandidateView;

    open spec fn view(&self) -> CandidateView {
        CandidateView { chunk: self.chunk as int, source: self.source, evidence: views(self.evidence@) }
    }
}

pub open spec fn candidate_views(v: Seq<Candidate>) -> Seq<CandidateView> {
    v.map_values(|c: Candidate| c@)
}

/// A configured rerank weight: one per field of the rerank weights, the
/// worktree ones by query mode.
#[derive(Debug, Clone, Copy, PartialEq, Eq, Structural)]
pub enum RerankWeight {
    UnderstandSymbolSymbol,
    ImplementAdjacentBodyRegion,
    BoundedRefactorTestLike,
    BoundedRefactorOther,
    BlastRadiusTestLike,
    BlastRadiusOther,
    FindExamplesExampleLike,
    FindExamplesOther,
    WorktreeDiff(QueryMode),
}

/// A term of a bias: a configured weight; a fixed amount, in thousandths;
/// or a document's own rank weight as its marker writes it, read as a
/// number, with the fixed amount standing in when it does not read as one.
#[derive(Debug, Clone, PartialEq, Eq)]
pub enum BiasTerm {
    Weight(RerankWeight),
    Fixed(i32),
    DocumentWeight { raw: String, fallback_milli: i32 },
}

pub enum BiasView {
    Weight(RerankWeight),
    Fixed(i32),
    DocumentWeight(Seq<char>, i32),
}

impl View for BiasTerm {
    type V = BiasView;

    open spec fn view(&self) -> BiasView {
        match self {
            BiasTerm::Weight(w) => BiasView::Weight(*w),
            BiasTerm::Fixed(m) => BiasView::Fixed(*m),
            BiasTerm::DocumentWeight { raw, fallback_milli } => BiasView::DocumentWeight(raw@, *fallback_milli),
        }
    }
}

pub open spec fn bias_views(v: Seq<BiasTerm>) -> Seq<BiasView> {
    v.map_values(|b: BiasTerm| b@)
}

/// The bias of a document without a rank weight of its own, by its
/// markers: specs first, then operations and integrations, plans,
/// changelogs, and any other document.
pub open spec fn legacy_bias_milli(c: ChunkRecord) -> i32 {
    if has_marker(c, "spec"@) {
        1200
    } else if has_marker(c, "ops"@) || has_marker(c, "integrations"@) {
        800
    } else if has_marker(c, "plan"@) {
        -200i32
    } else if has_marker(c, "changelog"@) {
        -400i32
    } else {
        200
    }
}

pub fn legacy_document_normativity_bias(chunk: &ChunkRecord) -> (r: i32)
    ensures
        r == legacy_bias_milli(*chunk),
{
    if marker_present(chunk, "spec") {
        1200
    } else if marker_present(chunk, "ops") || marker_present(chunk, "integrations") {
        800
    } else if marker_present(chunk, "plan") {
        -200
    } else if marker_present(chunk, "changelog") {
        -400
    } else {
        200
    }
}

/// Index of the first marker of `c`, from `k` on, that starts with
/// `doc_rank_weight:`; -1 when there is none.
pub open spec fn first_weight_marker(c: ChunkRecord, k: int) -> int
    decreases c.retrieval_markers@.len() - k,
{
    if k < 0 || k >= c.retrieval_markers@.len() {
        -1
    } else if occurs_at(c.retrieval_markers@[k]@, "doc_rank_weight:"@, 0) {
        k
    } else {
        first_weight_marker(c, k + 1)
    }
}

/// What follows `doc_rank_weight:` in the first marker that starts with it.
pub open spec fn rank_weight_text(c: ChunkRecord) -> Option<Seq<char>> {
    let k = first_weight_marker(c, 0);
    if k < 0 {
        None
    } else {
        Some(c.retrieval_markers@[k]@.skip(16))
    }
}

pub fn document_rank_weight_text(chunk: &ChunkRecord) -> (r: Option<String>)
    ensures
        match rank_weight_text(*chunk) {
            Some(t) => r is Some && r->0@ == t,
            None => r is None,
        },
{
    let mut i: usize = 0;
    while i < chunk.retrieval_markers.len()
        invariant
            0 <= i <= chunk.retrieval_markers@.len(),
            first_weight_marker(*chunk, 0) == first_weight_marker(*chunk, i as int),
        decreases chunk.retrieval_markers.len() - i,
    {
        if str_starts_with(chunk.retrieval_markers[i].as_str(), "doc_rank_weight:") {
            let cs = chars_of(chunk.retrieval_markers[i].as_str());
            proof {
                reveal_strlit("doc_rank_weight:");
            }
            let n = cs.len();
            return Some(string_from_range(cs.as_slice(), 16, n));
        }
        i = i + 1;
    }
    None
}

/// The normativity bias of a chunk: none unless it is a document; a
/// document's own rank weight when it has one, else the legacy bias.
pub open spec fn normativity_terms(c: ChunkRecord) -> Seq<BiasView> {
    if !has_marker(c, "document"@) {
        seq![]
    } else {
        match rank_weight_text(c) {
            Some(t) => seq![BiasView::DocumentWeight(t, legacy_bias_milli(c))],
            None => seq![BiasView::Fixed(legacy_bias_milli(c))],
        }
    }
}

pub fn document_normativity_bias(chunk: &ChunkRecord) -> (r: Vec<BiasTerm>)
    ensures
        bias_views(r@) == normativity_terms(*chunk),
{
    let mut v: Vec<BiasTerm> = Vec::new();
    if !marker_present(chunk, "document") {
        assert(bias_views(v@) =~= normativity_terms(*chunk));
        return v;
    }
    let fallback_milli = legacy_document_normativity_bias(chunk);
    match document_rank_weight_text(chunk) {
        Some(raw) => v.push(BiasTerm::DocumentWeight { raw, fallback_milli }),
        None => v.push(BiasTerm::Fixed(fallback_milli)),
    }
    assert(bias_views(v@) =~= normativity_terms(*chunk));
    v
}

/// The bias a query mode gives a chunk, as the terms to add up.
pub open spec fn mode_bias(mode: QueryMode, c: ChunkRecord) -> Seq<BiasView> {
    match mode {
        QueryMode::UnderstandSymbol => (if c.chunk_kind@ == "Symbol"@ {
            seq![BiasView::Weight(RerankWeight::UnderstandSymbolSymbol)]
        } else {
            seq![]
        }) + normativity_terms(c),
        QueryMode::ImplementAdjacent => if c.chunk_kind@ == "BodyRegion"@ {
            seq![BiasView::Weight(RerankWeight::ImplementAdjacentBodyRegion)]
        } else {
            seq![]
        },
        QueryMode::BoundedRefactor => if test_like(c) {
            seq![BiasView::Weight(RerankWeight::BoundedRefactorTestLike)]
        } else {
            seq![BiasView::Weight(RerankWeight::BoundedRefactorOther)]
        },
        QueryMode::BlastRadius => if c.chunk_kind@ == "HistoryNode"@ {
            seq![BiasView::Fixed(500)]
        } else if test_like(c) {
            seq![BiasView::Weight(RerankWeight::BlastRadiusTestLike)]
        } else {
            seq![BiasView::Weight(RerankWeight::BlastRadiusOther)]
        },
        QueryMode::FindExamples => if example_like(c) {
            seq![BiasView::Weight(RerankWeight::FindExamplesExampleLike)]
        } else {
            seq![BiasView::Weight(RerankWeight::FindExamplesOther)]
        },
    }
}

fn one_weight(w: RerankWeight) -> (r: Vec<BiasTerm>)
    ensures
        bias_views(r@) == seq![BiasView::Weight(w)],
{
    let mut v: Vec<BiasTerm> = Vec::new();
    v.push(BiasTerm::Weight(w));
    assert(bias_views(v@) =~= seq![BiasView::Weight(w)]);
    v
}

pub fn query_mode_bias(query_mode: QueryMode, chunk: &ChunkRecord) -> (r: Vec<BiasTerm>)
    ensures
        bias_views(r@) == mode_bias(query_mode, *chunk),
{
    match query_mode {
        QueryMode::UnderstandSymbol => {
            let mut v: Vec<BiasTerm> = Vec::new();
            if str_equal(chunk.chunk_kind.as_str(), "Symbol") {
                v.push(BiasTerm::Weight(RerankWeight::UnderstandSymbolSymbol));
            }
            let ghost head = bias_views(v@);
            let mut rest = document_normativity_bias(chunk);
            v.append(&mut rest);
            assert(bias_views(v@) =~= head + normativity_terms(*chunk));
            assert(head =~= (if chunk.chunk_kind@ == "Symbol"@ {
                seq![BiasView::Weight(RerankWeight::UnderstandSymbolSymbol)]
            } else {
                seq![]
            }));
            v
        },
        QueryMode::ImplementAdjacent => {
            if str_equal(chunk.chunk_kind.as_str(), "BodyRegion") {
                one_weight(RerankWeight::ImplementAdjacentBodyRegion)
            } else {
                let v: Vec<BiasTerm> = Vec::new();
                assert(bias_views(v@) =~= Seq::<BiasView>::empty());
                v
            }
        },
        QueryMode::BoundedRefactor => {
            if is_test_like(chunk) {
                one_weight(RerankWeight::BoundedRefactorTestLike)
            } else {
                one_weight(RerankWeight::BoundedRefactorOther)
            }
        },
        QueryMode::BlastRadius => {
            if str_equal(chunk.chunk_kind.as_str(), "HistoryNode") {
                let mut v: Vec<BiasTerm> = Vec::new();
                v.push(BiasTerm::Fixed(500));
                assert(bias_views(v@) =~= seq![BiasView::Fixed(500)]);
                v
            } else if is_test_like(chunk) {
                one_weight(RerankWeight::BlastRadiusTestLike)
            } else {
                one_weight(RerankWeight::BlastRadiusOther)
            }
        },
        QueryMode::FindExamples => {
            if is_example_like(chunk) {
                one_weight(RerankWeight::FindExamplesExampleLike)
            } else {
                one_weight(RerankWeight::FindExamplesOther)
            }
        },
    }
}

/// `ev` with the items of `items` it lacks appended, in order, each once.
pub open spec fn add_new(ev: Seq<Seq<char>>, items: Seq<Seq<char>>) -> Seq<Seq<char>>
    decreases items.len(),
{
    if items.len() == 0 {
        ev
    } else {
        let e = add_new(ev, items.drop_last());
        if e.contains(items.last()) {
            e
        } else {
            e.push(items.last())
        }
    }
}

/// Candidates of one chunk merged: the first one's chunk, every score
/// source, and the evidence of all, each item once.
pub struct MergedView {
    pub chunk: int,
    pub sources: Seq<ScoreSource>,
    pub evidence: Seq<Seq<char>>,
}

/// Index of the first merged candidate, from `k` on, whose chunk has this id.
pub open spec fn merged_index(ms: Seq<MergedView>, pool: Seq<ChunkRecord>, id: Seq<char>, k: int) -> int
    decreases ms.len() - k,
{
    if k < 0 || k >= ms.len() {
        -1
    } else if pool[ms[k].chunk].chunk_id@ == id {
        k
    } else {
        merged_index(ms, pool, id, k + 1)
    }
}

/// The first `n` candidates merged by chunk id, in order of first
/// appearance.
pub open spec fn merge_upto(pool: Seq<ChunkRecord>, cs: Seq<CandidateView>, n: int) -> Seq<MergedView>
    decreases n,
{
    if n <= 0 || n > cs.len() {
        seq![]
    } else {
        let prev = merge_upto(pool, cs, n - 1);
        let c = cs[n - 1];
        let k = merged_index(prev, pool, pool[c.chunk].chunk_id@, 0);
        if k < 0 {
            prev.push(MergedView { chunk: c.chunk, sources: seq![c.source], evidence: add_new(seq![], c.evidence) })
        } else {
            prev.update(
                k,
                MergedView {
                    chunk: prev[k].chunk,
                    sources: prev[k].sources.push(c.source),
                    evidence: add_new(prev[k].evidence, c.evidence),
                },
            )
        }
    }
}

/// A ranked candidate: the merged candidate with the mode's bias, and the
/// worktree's when its file is changed.
#[derive(Debug, Clone, PartialEq, Eq)]
pub struct RankedCandidate {
    pub chunk: usize,
    pub sources: Vec<ScoreSource>,
    pub evidence: Vec<String>,
    pub query_mode_bias: Vec<BiasTerm>,
    pub worktree_diff_bias: Option<RerankWeight>,
    pub matched_worktree: bool,
}

pub struct RankedView {
    pub chunk: int,
    pub sources: Seq<ScoreSource>,
    pub evidence: Seq<Seq<char>>,
    pub query_mode_bias: Seq<BiasView>,
    pub worktree_diff_bias: Option<RerankWeight>,
    pub matched_worktree: bool,
}

impl View for RankedCandidate {
    type V = RankedView;

    open spec fn view(&self) -> RankedView {
        RankedView {
            chunk: self.chunk as int,
            sources: self.sources@,
            evidence: views(self.evidence@),
            query_mode_bias: bias_views(self.query_mode_bias@),
            worktree_diff_bias: self.worktree_diff_bias,
            matched_worktree: self.matched_worktree,
        }
    }
}

pub open spec fn ranked_views(v: Seq<RankedCandidate>) -> Seq<RankedView> {
    v.map_values(|c: RankedCandidate| c@)
}

pub open spec fn ranked_of(mode: QueryMode, w: WorktreeChanges, pool: Seq<ChunkRecord>, m: MergedView) -> RankedView {
    let c = pool[m.chunk];
    let matched = w.touches(c.file_path@);
    RankedView {
        chunk: m.chunk,
        sources: m.sources,
        evidence: if matched && !m.evidence.contains("worktree_diff"@) {
            m.evidence.push("worktree_diff"@)
        } else {
            m.evidence
        },
        query_mode_bias: mode_bias(mode, c),
        worktree_diff_bias: if matched {
            Some(RerankWeight::WorktreeDiff(mode))
        } else {
            None
        },
        matched_worktree: matched,
    }
}

/// The ranking of a list of candidates, before scores are summed.
pub open spec fn reranked(mode: QueryMode, w: WorktreeChanges, pool: Seq<ChunkRecord>, cs: Seq<CandidateView>) -> Seq<RankedView> {
    merge_upto(pool, cs, cs.len() as int).map_values(|m: MergedView| ranked_of(mode, w, pool, m))
}

fn has_text(v: &Vec<String>, t: &str) -> (r: bool)
    ensures
        r == views(v@).contains(t@),
{
    let mut i: usize = 0;
    while i < v.len()
        invariant
            0 <= i <= v@.len(),
            forall|k: int| 0 <= k < i ==> views(v@)[k] != t@,
        decreases v.len() - i,
    {
        if str_equal(v[i].as_str(), t) {
            assert(views(v@)[i as int] == t@);
            return true;
        }
        i = i + 1;
    }
    false
}

fn add_evidence(ev: &mut Vec<String>, items: &Vec<String>)
    ensures
        views(final(ev)@) == add_new(views(old(ev)@), views(items@)),
{
    let ghost start = views(ev@);
    let mut j: usize = 0;
    assert(views(items@).take(0) =~= Seq::<Seq<char>>::empty());
    while j < items.len()
        invariant
            0 <= j <= items@.len(),
            views(ev@) == add_new(start, views(items@).take(j as int)),
        decreases items.len() - j,
    {
        let ghost t = views(items@).take(j + 1);
        assert(t.drop_last() =~= views(items@).take(j as int));
        assert(t.last() == items@[j as int]@);
        if !has_text(ev, items[j].as_str()) {
            ev.push(items[j].clone());
            assert(views(ev@) =~= add_new(start, views(items@).take(j as int)).push(items@[j as int]@));
        }
        j = j + 1;
    }
    assert(views(items@).take(items@.len() as int) =~= views(items@));
}

fn copy_sources(v: &Vec<ScoreSource>) -> (r: Vec<ScoreSource>)
    ensures
        r@ == v@,
{
    let mut r: Vec<ScoreSource> = Vec::new();
    let mut i: usize = 0;
    while i < v.len()
        invariant
            0 <= i <= v@.len(),
            r@ == v@.take(i as int),
        decreases v.len() - i,
    {
        r.push(v[i]);
        assert(r@ =~= v@.take(i + 1));
        i = i + 1;
    }
    assert(v@.take(v@.len() as int) =~= v@);
    r
}

struct Merged {
    chunk: usize,
    sources: Vec<ScoreSource>,
    evidence: Vec<String>,
}

spec fn merged_views(v: Seq<Merged>) -> Seq<MergedView> {
    v.map_values(|m: Merged| MergedView { chunk: m.chunk as int, sources: m.sources@, evidence: views(m.evidence@) })
}

fn find_merged(ms: &Vec<Merged>, pool: &[ChunkRecord], id: &str) -> (r: Option<usize>)
    requires
        forall|k: int| 0 <= k < ms@.len() ==> (#[trigger] ms@[k]).chunk < pool@.len(),
    ensures
        match r {
            Some(k) => k < ms@.len() && merged_index(merged_views(ms@), pool@, id@, 0) == k,
            None => merged_index(merged_views(ms@), pool@, id@, 0) == -1,
        },
{
    let ghost mv = merged_views(ms@);
    let mut k: usize = 0;
    while k < ms.len()
        invariant
            0 <= k <= ms@.len(),
            mv == merged_views(ms@),
            forall|j: int| 0 <= j < ms@.len() ==> (#[trigger] ms@[j]).chunk < pool@.len(),
            merged_index(mv, pool@, id@, 0) == merged_index(mv, pool@, id@, k as int),
        decreases ms.len() - k,
    {
        let c = ms[k].chunk;
        if str_equal(pool[c].chunk_id.as_str(), id) {
            return Some(k);
        }
        k = k + 1;
    }
    None
}

fn merge_candidates(pool: &[ChunkRecord], candidates: &[Candidate]) -> (r: Vec<Merged>)
    requires
        forall|k: int| 0 <= k < candidates@.len() ==> (#[trigger] candidates@[k]).chunk < pool@.len(),
    ensures
        merged_views(r@) == merge_upto(pool@, candidate_views(candidates@), candidates@.len() as int),
        forall|k: int| 0 <= k < r@.len() ==> (#[trigger] r@[k]).chunk < pool@.len(),
{
    let ghost cs = candidate_views(candidates@);
    let mut ms: Vec<Merged> = Vec::new();
    let mut i: usize = 0;
    assert(merged_views(ms@) =~= merge_upto(pool@, cs, 0));
    while i < candidates.len()
        invariant
            0 <= i <= candidates@.len(),
            cs == candidate_views(candidates@),
            forall|k: int| 0 <= k < candidates@.len() ==> (#[trigger] candidates@[k]).chunk < pool@.len(),
            forall|k: int| 0 <= k < ms@.len() ==> (#[trigger] ms@[k]).chunk < pool@.len(),
            merged_views(ms@) == merge_upto(pool@, cs, i as int),
        decreases candidates.len() - i,
    {
        let c = &candidates[i];
        let ghost prev = merged_views(ms@);
        assert(cs[i as int] == c@);
        match find_merged(&ms, pool, pool[c.chunk].chunk_id.as_str()) {
            None => {
                let mut evidence: Vec<String> = Vec::new();
                assert(views(evidence@) =~= Seq::<Seq<char>>::empty());
                add_evidence(&mut evidence, &c.evidence);
                let mut sources: Vec<ScoreSource> = Vec::new();
                sources.push(c.source);
                ms.push(Merged { chunk: c.chunk, sources, evidence });
                assert(merged_views(ms@) =~= prev.push(
                    MergedView { chunk: c.chunk as int, sources: seq![c.source], evidence: add_new(seq![], c@.evidence) },
                ));
            },
            Some(k) => {
                let mut sources = copy_sources(&ms[k].sources);
                sources.push(c.source);
                let mut evidence = clone_strings(&ms[k].evidence);
                add_evidence(&mut evidence, &c.evidence);
                let entry = Merged { chunk: ms[k].chunk, sources, evidence };
                ms.set(k, entry);
                assert(merged_views(ms@) =~= prev.update(
                    k as int,
                    MergedView {
                        chunk: prev[k as int].chunk,
                        sources: prev[k as int].sources.push(c.source),
                        evidence: add_new(prev[k as int].evidence, c@.evidence),
                    },
                ));
            },
        }
        i = i + 1;
    }
    ms
}

/// Merges the candidates by chunk and gives each the biases of the query
/// mode and of the worktree's changes; the caller sums the scores and
/// orders by them.
pub fn rerank_candidates(
    query_mode: QueryMode,
    worktree_changes: &WorktreeChanges,
    pool: &[ChunkRecord],
    candidates: &[Candidate],
) -> (r: Vec<RankedCandidate>)
    requires
        forall|k: int| 0 <= k < candidates@.len() ==> (#[trigger] candidates@[k]).chunk < pool@.len(),
    ensures
        ranked_views(r@) == reranked(query_mode, *worktree_changes, pool@, candidate_views(candidates@)),
{
    let merged = merge_candidates(pool, candidates);
    let ghost ms = merged_views(merged@);
    let mut out: Vec<RankedCandidate> = Vec::new();
    let mut i: usize = 0;
    while i < merged.len()
        invariant
            0 <= i <= merged@.len(),
            ms == merged_views(merged@),
            forall|k: int| 0 <= k < merged@.len() ==> (#[trigger] merged@[k]).chunk < pool@.len(),
            ranked_views(out@) == ms.take(i as int).map_values(
                |m: MergedView| ranked_of(query_mode, *worktree_changes, pool@, m),
            ),
        decreases merged.len() - i,
    {
        let m = &merged[i];
        let c = &pool[m.chunk];
        let matched = worktree_changes.matches(c.file_path.as_str());
        let mut evidence = clone_strings(&m.evidence);
        if matched && !has_text(&evidence, "worktree_diff") {
            evidence.push(lit("worktree_diff"));
        }
        let entry = RankedCandidate {
            chunk: m.chunk,
            sources: copy_sources(&m.sources),
            evidence,
            query_mode_bias: query_mode_bias(query_mode, c),
            worktree_diff_bias: if matched {
                Some(RerankWeight::WorktreeDiff(query_mode))
            } else {
                None
            },
            matched_worktree: matched,
        };
        let ghost before = ranked_views(out@);
        let ghost want = ranked_of(query_mode, *worktree_changes, pool@, ms[i as int]);
        assert(entry@.evidence == want.evidence);
        assert(entry@.query_mode_bias == want.query_mode_bias);
        assert(entry@.matched_worktree == want.matched_worktree);
        assert(entry@ == want);
        out.push(entry);
        assert(ms[i as int] == MergedView { chunk: m.chunk as int, sources: m.sources@, evidence: views(m.evidence@) });
        assert(ranked_views(out@) =~= before.push(ranked_of(query_mode, *worktree_changes, pool@, ms[i as int])));
        assert(ms.take(i + 1).map_values(|m: MergedView| ranked_of(query_mode, *worktree_changes, pool@, m))
            =~= ms.take(i as int).map_values(|m: MergedView| ranked_of(query_mode, *worktree_changes, pool@, m)).push(
            ranked_of(query_mode, *worktree_changes, pool@, ms[i as int]),
        ));
        i = i + 1;
    }
    assert(ms.take(merged@.len() as int) =~= ms);
    out
}


/// A bounded refactor favors the tests around the change: a test function,
/// or a chunk marked `test` or `doctest`, gets the test-like weight, and any
/// other chunk the other weight, whatever else the chunk is.
pub proof fn lemma_bounded_refactor_favors_tests(c: ChunkRecord)
    ensures
        (c.chunk_kind@ == "TestFunction"@
            || (exists|k: int| 0 <= k < c.retrieval_markers@.len() && #[trigger] c.retrieval_markers@[k]@ == "test"@)
            || (exists|k: int| 0 <= k < c.retrieval_markers@.len() && #[trigger] c.retrieval_markers@[k]@ == "doctest"@))
            ==> mode_bias(QueryMode::BoundedRefactor, c) == seq![BiasView::Weight(RerankWeight::BoundedRefactorTestLike)],
        !(c.chunk_kind@ == "TestFunction"@
            || (exists|k: int| 0 <= k < c.retrieval_markers@.len() && #[trigger] c.retrieval_markers@[k]@ == "test"@)
            || (exists|k: int| 0 <= k < c.retrieval_markers@.len() && #[trigger] c.retrieval_markers@[k]@ == "doctest"@))
            ==> mode_bias(QueryMode::BoundedRefactor, c) == seq![BiasView::Weight(RerankWeight::BoundedRefactorOther)],
{
}

/// Reranking in bounded-refactor mode gives every candidate chunk that
/// bias: the test-like weight for a test function or a chunk marked `test`
/// or `doctest`, the other weight otherwise.
pub proof fn lemma_bounded_refactor_rerank_bias(
    changes: WorktreeChanges,
    pool: Seq<ChunkRecord>,
    cands: Seq<CandidateView>,
    i: int,
)
    requires
        0 <= i < reranked(QueryMode::BoundedRefactor, changes, pool, cands).len(),
    ensures
        ({
            let r = reranked(QueryMode::BoundedRefactor, changes, pool, cands)[i];
            let c = pool[r.chunk];
            &&& (c.chunk_kind@ == "TestFunction"@
                || (exists|k: int| 0 <= k < c.retrieval_markers@.len() && #[trigger] c.retrieval_markers@[k]@ == "test"@)
                || (exists|k: int| 0 <= k < c.retrieval_markers@.len() && #[trigger] c.retrieval_markers@[k]@ == "doctest"@))
                ==> r.query_mode_bias == seq![BiasView::Weight(RerankWeight::BoundedRefactorTestLike)]
            &&& !(c.chunk_kind@ == "TestFunction"@
                || (exists|k: int| 0 <= k < c.retrieval_markers@.len() && #[trigger] c.retrieval_markers@[k]@ == "test"@)
                || (exists|k: int| 0 <= k < c.retrieval_markers@.len() && #[trigger] c.retrieval_markers@[k]@ == "doctest"@))
                ==> r.query_mode_bias == seq![BiasView::Weight(RerankWeight::BoundedRefactorOther)]
        }),
{
    let r = reranked(QueryMode::BoundedRefactor, changes, pool, cands)[i];
    lemma_bounded_refactor_favors_tests(pool[r.chunk]);
}

} // verus!
