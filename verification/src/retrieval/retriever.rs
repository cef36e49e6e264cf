//! The steps of a retrieval around the searches: which stored chunks the
//! search hits stand for, the history nodes that become candidates, and
//! the warnings a retrieval reports.
use crate::chunking::types::{clone_opt, lit, opt_view};
use crate::metadata::{ChunkRecord, HistoryNodeRecord, LineageEdgeRecord};
use crate::retrieval::neighborhood::is_seed;
use crate::retrieval::query::RetrievalRequest;
use crate::retrieval::rerank::{candidate_views, Candidate, CandidateView, ScoreSource};
use crate::text::{chars_of, contains_seq, push_str, str_contains, str_equal, views};
use vstd::prelude::*;

verus! {

/// Index of the first stored chunk with this id, or -1.
pub open spec fn first_with_id(all: Seq<ChunkRecord>, id: Seq<char>, k: int) -> int
    decreases all.len() - k,
{
    if k < 0 || k >= all.len() {
        -1
    } else if all[k].chunk_id@ == id {
        k
    } else {
        first_with_id(all, id, k + 1)
    }
}

/// The candidates of the first `n` search hits: each hit whose id is a
/// stored chunk stands for the first chunk with that id.
pub open spec fn hits_upto(all: Seq<ChunkRecord>, ids: Seq<Seq<char>>, lexical: bool, n: int) -> Seq<CandidateView>
    decreases n,
{
    if n <= 0 || n > ids.len() {
        seq![]
    } else {
        let k = first_with_id(all, ids[n - 1], 0);
        hits_upto(all, ids, lexical, n - 1) + if k < 0 {
            seq![]
        } else {
            seq![
                CandidateView {
                    chunk: k,
                    source: if lexical {
                        ScoreSource::LexicalHit((n - 1) as usize)
                    } else {
                        ScoreSource::VectorHit((n - 1) as usize)
                    },
                    evidence: seq![if lexical { "lexical_bm25"@ } else { "semantic_vector"@ }],
                },
            ]
        }
    }
}

proof fn lemma_first_with_id_bound(all: Seq<ChunkRecord>, id: Seq<char>, k: int)
    requires
        0 <= k,
    ensures
        first_with_id(all, id, k) == -1 || (k <= first_with_id(all, id, k) < all.len()),
    decreases all.len() - k,
{
    if k < all.len() {
        lemma_first_with_id_bound(all, id, k + 1);
    }
}

fn first_index_with_id(all: &[ChunkRecord], id: &str) -> (r: Option<usize>)
    ensures
        match r {
            Some(k) => k < all@.len() && first_with_id(all@, id@, 0) == k,
            None => first_with_id(all@, id@, 0) == -1,
        },
{
    let mut k: usize = 0;
    while k < all.len()
        invariant
            0 <= k <= all@.len(),
            first_with_id(all@, id@, 0) == first_with_id(all@, id@, k as int),
        decreases all.len() - k,
    {
        if str_equal(all[k].chunk_id.as_str(), id) {
            return Some(k);
        }
        k = k + 1;
    }
    None
}

/// The candidates of a search's hits, given the hits' chunk ids in rank
/// order: lexical (BM25) hits, or vector hits.
pub fn hit_candidates(all_chunks: &[ChunkRecord], hit_ids: &[String], lexical: bool) -> (r: Vec<Candidate>)
    ensures
        candidate_views(r@) == hits_upto(all_chunks@, views(hit_ids@), lexical, hit_ids@.len() as int),
        forall|j: int| 0 <= j < r@.len() ==> (#[trigger] r@[j]).chunk < all_chunks@.len(),
{
    let ghost ids = views(hit_ids@);
    let mut out: Vec<Candidate> = Vec::new();
    let mut i: usize = 0;
    assert(candidate_views(out@) =~= hits_upto(all_chunks@, ids, lexical, 0));
    while i < hit_ids.len()
        invariant
            0 <= i <= hit_ids@.len(),
            ids == views(hit_ids@),
            candidate_views(out@) == hits_upto(all_chunks@, ids, lexical, i as int),
            forall|j: int| 0 <= j < out@.len() ==> (#[trigger] out@[j]).chunk < all_chunks@.len(),
        decreases hit_ids.len() - i,
    {
        let ghost before = out@;
        assert(ids[i as int] == hit_ids@[i as int]@);
        match first_index_with_id(all_chunks, hit_ids[i].as_str()) {
            Some(k) => {
                let label = if lexical { "lexical_bm25" } else { "semantic_vector" };
                let mut evidence: Vec<String> = Vec::new();
                evidence.push(lit(label));
                assert(views(evidence@) =~= seq![label@]);
                let source = if lexical {
                    ScoreSource::LexicalHit(i)
                } else {
                    ScoreSource::VectorHit(i)
                };
                let c = Candidate { chunk: k, source, evidence };
                assert(c@ == CandidateView {
                    chunk: k as int,
                    source,
                    evidence: seq![if lexical { "lexical_bm25"@ } else { "semantic_vector"@ }],
                });
                out.push(c);
                assert(candidate_views(out@) =~= candidate_views(before).push(c@));
            },
            None => {},
        }
        assert(candidate_views(out@) =~= hits_upto(all_chunks@, ids, lexical, i + 1));
        i = i + 1;
    }
    out
}

/// Whether the exact-symbol search found a stored chunk.
pub fn seeds_found(all_chunks: &[ChunkRecord], seed_ids: &[String]) -> (r: bool)
    ensures
        r == exists|k: int| 0 <= k < all_chunks@.len() && is_seed(all_chunks@, views(seed_ids@), k),
{
    let mut k: usize = 0;
    while k < all_chunks.len()
        invariant
            0 <= k <= all_chunks@.len(),
            forall|j: int| 0 <= j < k ==> !is_seed(all_chunks@, views(seed_ids@), j),
        decreases all_chunks.len() - k,
    {
        let mut i: usize = 0;
        while i < seed_ids.len()
            invariant
                0 <= i <= seed_ids@.len(),
                k < all_chunks@.len(),
                forall|j: int| 0 <= j < i ==> views(seed_ids@)[j] != all_chunks@[k as int].chunk_id@,
            decreases seed_ids.len() - i,
        {
            if str_equal(seed_ids[i].as_str(), all_chunks[k].chunk_id.as_str()) {
                assert(views(seed_ids@)[i as int] == all_chunks@[k as int].chunk_id@);
                assert(is_seed(all_chunks@, views(seed_ids@), k as int));
                return true;
            }
            i = i + 1;
        }
        k = k + 1;
    }
    false
}

// ---------------------------------------------------------------------
// History candidates.

/// `char::is_alphanumeric`: Unicode's alphabetic or numeric characters.
pub uninterp spec fn alphanumeric(c: char) -> bool;

/// `char::is_alphanumeric` (std). Its result is named, not spelled out:
/// it follows Unicode's tables and depends on the character alone.
#[verifier::external_body]
fn is_alphanumeric(c: char) -> (r: bool)
    ensures
        r == alphanumeric(c),
{
    c.is_alphanumeric()
}

/// A character of a query term: alphanumeric or `_`.
pub open spec fn term_char(c: char) -> bool {
    alphanumeric(c) || c == '_'
}

/// The terms found in the first `n` characters, and the term still open.
pub open spec fn term_state(s: Seq<char>, n: int) -> (Seq<Seq<char>>, Seq<char>)
    decreases n,
{
    if n <= 0 || n > s.len() {
        (seq![], seq![])
    } else {
        let (done, cur) = term_state(s, n - 1);
        if term_char(s[n - 1]) {
            (done, cur.push(s[n - 1]))
        } else if cur.len() > 0 {
            (done.push(cur), seq![])
        } else {
            (done, seq![])
        }
    }
}

/// The maximal runs of term characters of a text.
pub open spec fn terms(s: Seq<char>) -> Seq<Seq<char>> {
    let (done, cur) = term_state(s, s.len() as int);
    if cur.len() > 0 {
        done.push(cur)
    } else {
        done
    }
}

/// `char::to_ascii_lowercase`.
pub open spec fn ascii_lower_char(c: char) -> char {
    if 'A' <= c && c <= 'Z' {
        ((c as int) + 32) as char
    } else {
        c
    }
}

pub open spec fn ascii_lower(s: Seq<char>) -> Seq<char> {
    s.map_values(|c: char| ascii_lower_char(c))
}

fn lower_char(c: char) -> (r: char)
    ensures
        r == ascii_lower_char(c),
{
    if 'A' <= c && c <= 'Z' {
        let b = (c as u8) + 32;
        b as char
    } else {
        c
    }
}

/// `str::to_ascii_lowercase`.
pub fn to_ascii_lower(s: &str) -> (r: String)
    ensures
        r@ == ascii_lower(s@),
{
    let cs = chars_of(s);
    let mut out = String::new();
    let mut i: usize = 0;
    while i < cs.len()
        invariant
            0 <= i <= cs@.len(),
            cs@ == s@,
            out@ == ascii_lower(s@.take(i as int)),
        decreases cs.len() - i,
    {
        crate::text::push_char(&mut out, lower_char(cs[i]));
        assert(ascii_lower(s@.take(i + 1)) =~= ascii_lower(s@.take(i as int)).push(ascii_lower_char(s@[i as int])));
        i = i + 1;
    }
    assert(s@.take(s@.len() as int) =~= s@);
    out
}

/// The query's terms, lowercased.
pub open spec fn query_terms(q: Seq<char>) -> Seq<Seq<char>> {
    terms(q).map_values(|t: Seq<char>| ascii_lower(t))
}

fn query_terms_of(q: &str) -> (r: Vec<String>)
    ensures
        views(r@) == query_terms(q@),
{
    let cs = chars_of(q);
    let mut done: Vec<String> = Vec::new();
    let mut cur: Vec<char> = Vec::new();
    let mut i: usize = 0;
    while i < cs.len()
        invariant
            0 <= i <= cs@.len(),
            cs@ == q@,
            (views(done@), cur@) == term_state(q@, i as int),
        decreases cs.len() - i,
    {
        let c = cs[i];
        if is_alphanumeric(c) || c == '_' {
            cur.push(c);
        } else if cur.len() > 0 {
            let ghost before = views(done@);
            done.push(crate::text::string_from_chars(cur.as_slice()));
            cur = Vec::new();
            assert(views(done@) =~= before.push(term_state(q@, i as int).1));
        }
        i = i + 1;
    }
    let ghost before = views(done@);
    if cur.len() > 0 {
        done.push(crate::text::string_from_chars(cur.as_slice()));
        assert(views(done@) =~= before.push(term_state(q@, q@.len() as int).1));
    }
    assert(views(done@) == terms(q@));
    let mut out: Vec<String> = Vec::new();
    let mut j: usize = 0;
    while j < done.len()
        invariant
            0 <= j <= done@.len(),
            views(done@) == terms(q@),
            views(out@) == terms(q@).take(j as int).map_values(|t: Seq<char>| ascii_lower(t)),
        decreases done.len() - j,
    {
        out.push(to_ascii_lower(done[j].as_str()));
        assert(terms(q@).take(j + 1).map_values(|t: Seq<char>| ascii_lower(t)) =~= terms(q@).take(j as int).map_values(
            |t: Seq<char>| ascii_lower(t),
        ).push(ascii_lower(done@[j as int]@)));
        assert(views(out@) =~= terms(q@).take(j + 1).map_values(|t: Seq<char>| ascii_lower(t)));
        j = j + 1;
    }
    assert(terms(q@).take(done@.len() as int) =~= terms(q@));
    out
}

/// How many of the terms (repeats counted) the text contains.
pub open spec fn overlap_count(ts: Seq<Seq<char>>, text: Seq<char>, n: int) -> nat
    decreases n,
{
    if n <= 0 || n > ts.len() {
        0
    } else {
        overlap_count(ts, text, n - 1) + if contains_seq(text, ts[n - 1]) {
            1nat
        } else {
            0nat
        }
    }
}

/// The nodes a retrieval considers: the last `max(history_max_nodes, 1)`
/// (eight by default).
pub open spec fn history_cap(r: RetrievalRequest) -> int {
    match r.history_max_nodes {
        Some(n) => if n < 1 { 1 } else { n as int },
        None => 8,
    }
}

pub open spec fn history_window(r: RetrievalRequest, nodes: Seq<HistoryNodeRecord>) -> Seq<HistoryNodeRecord> {
    if nodes.len() > history_cap(r) {
        nodes.skip(nodes.len() - history_cap(r))
    } else {
        nodes
    }
}

pub open spec fn on_lineage(lineage: Seq<LineageEdgeRecord>, node_id: Seq<char>) -> bool {
    exists|k: int|
        0 <= k < lineage.len() && ((#[trigger] lineage[k]).from_node_id@ == node_id || lineage[k].to_node_id@ == node_id)
}

/// The stored form of a history node retrieved for a snapshot.
pub open spec fn history_record(c: ChunkRecord, snapshot_id: Seq<char>, n: HistoryNodeRecord) -> bool {
    &&& c.chunk_id@ == "history:"@ + n.node_id@
    &&& c.snapshot_id@ == snapshot_id
    &&& c.chunk_kind@ == "HistoryNode"@
    &&& opt_view(c.symbol_path) == opt_view(n.subject)
    &&& opt_view(c.symbol_name) == opt_view(n.subject)
    &&& c.owning_symbol_header is None
    &&& c.docs_text is None
    &&& c.signature_text is None
    &&& opt_view(c.parent_symbol_path) == Some("history"@)
    &&& views(c.retrieval_markers@) == seq!["history"@]
    &&& views(c.repository_state_hints@) == seq!["history"@]
    &&& c.file_path@ == "history/"@ + n.node_id@
    &&& c.start_byte == 0
    &&& c.end_byte == 0
    &&& c.text@ == n.summary@
}

/// The candidate of the history node at `t` of the window, whose record is
/// at `base + t` of the pool.
pub open spec fn history_candidate(r: RetrievalRequest, lineage: Seq<LineageEdgeRecord>, n: HistoryNodeRecord, at: int) -> CandidateView {
    let ts = query_terms(r.query_text@);
    CandidateView {
        chunk: at,
        source: ScoreSource::History(overlap_count(ts, ascii_lower(n.summary@), ts.len() as int) as usize),
        evidence: if on_lineage(lineage, n.node_id@) {
            seq!["history_node"@, "lineage_edge"@]
        } else {
            seq!["history_node"@]
        },
    }
}

fn count_overlaps(ts: &Vec<String>, text: &str) -> (r: usize)
    ensures
        r == overlap_count(views(ts@), text@, ts@.len() as int),
{
    let mut n: usize = 0;
    let mut i: usize = 0;
    while i < ts.len()
        invariant
            0 <= i <= ts@.len(),
            n == overlap_count(views(ts@), text@, i as int),
            n <= i,
        decreases ts.len() - i,
    {
        if str_contains(text, ts[i].as_str()) {
            n = n + 1;
        }
        i = i + 1;
    }
    n
}

fn touches_lineage(lineage: &[LineageEdgeRecord], node_id: &str) -> (r: bool)
    ensures
        r == on_lineage(lineage@, node_id@),
{
    let mut k: usize = 0;
    while k < lineage.len()
        invariant
            0 <= k <= lineage@.len(),
            forall|j: int|
                0 <= j < k ==> !((#[trigger] lineage@[j]).from_node_id@ == node_id@ || lineage@[j].to_node_id@ == node_id@),
        decreases lineage.len() - k,
    {
        if str_equal(lineage[k].from_node_id.as_str(), node_id) || str_equal(lineage[k].to_node_id.as_str(), node_id) {
            return true;
        }
        k = k + 1;
    }
    false
}

fn prefixed(p: &str, s: &str) -> (r: String)
    ensures
        r@ == p@ + s@,
{
    let mut r = lit(p);
    push_str(&mut r, s);
    r
}

fn one_text(s: &str) -> (r: Vec<String>)
    ensures
        views(r@) == seq![s@],
{
    let mut v: Vec<String> = Vec::new();
    v.push(lit(s));
    assert(views(v@) =~= seq![s@]);
    v
}

/// The history candidates of a retrieval: none unless the request asks for
/// history; otherwise the last nodes of the history, each stored as a
/// history chunk (at `base` onward in the pool) and scored by the query
/// terms its summary mentions.
pub fn history_candidates(
    request: &RetrievalRequest,
    nodes: &[HistoryNodeRecord],
    lineage: &[LineageEdgeRecord],
    base: usize,
) -> (r: (Vec<ChunkRecord>, Vec<Candidate>))
    requires
        base + nodes@.len() <= usize::MAX,
    ensures
        !request.include_history ==> r.0@.len() == 0 && r.1@.len() == 0,
        request.include_history ==> {
            let w = history_window(*request, nodes@);
            &&& r.0@.len() == w.len()
            &&& r.1@.len() == w.len()
            &&& forall|t: int| 0 <= t < w.len() ==> history_record(#[trigger] r.0@[t], request.snapshot_id@, w[t])
            &&& forall|t: int| 0 <= t < w.len() ==> (#[trigger] r.1@[t])@ == history_candidate(*request, lineage@, w[t], base + t)
        },
{
    let mut records: Vec<ChunkRecord> = Vec::new();
    let mut cands: Vec<Candidate> = Vec::new();
    if !request.include_history {
        return (records, cands);
    }
    let cap: usize = match request.history_max_nodes {
        Some(n) => if n < 1 { 1 } else { n },
        None => 8,
    };
    let start: usize = if nodes.len() > cap { nodes.len() - cap } else { 0 };
    let ghost w = history_window(*request, nodes@);
    assert(w =~= nodes@.skip(start as int));
    let ts = query_terms_of(request.query_text.as_str());
    let mut i: usize = start;
    while i < nodes.len()
        invariant
            start <= i <= nodes@.len(),
            base + nodes@.len() <= usize::MAX,
            w == nodes@.skip(start as int),
            views(ts@) == query_terms(request.query_text@),
            records@.len() == i - start,
            cands@.len() == i - start,
            forall|t: int| 0 <= t < i - start ==> history_record(#[trigger] records@[t], request.snapshot_id@, w[t]),
            forall|t: int| 0 <= t < i - start ==> (#[trigger] cands@[t])@ == history_candidate(*request, lineage@, w[t], base + t),
        decreases nodes.len() - i,
    {
        let n = &nodes[i];
        assert(w[i - start] == nodes@[i as int]);
        let lower = to_ascii_lower(n.summary.as_str());
        let overlaps = count_overlaps(&ts, lower.as_str());
        let mut evidence = one_text("history_node");
        if touches_lineage(lineage, n.node_id.as_str()) {
            let ghost e0 = views(evidence@);
            evidence.push(lit("lineage_edge"));
            assert(views(evidence@) =~= e0.push("lineage_edge"@));
            assert(views(evidence@) =~= seq!["history_node"@, "lineage_edge"@]);
        }
        let record = ChunkRecord {
            chunk_id: prefixed("history:", n.node_id.as_str()),
            snapshot_id: request.snapshot_id.clone(),
            chunk_kind: lit("HistoryNode"),
            symbol_path: clone_opt(&n.subject),
            symbol_name: clone_opt(&n.subject),
            owning_symbol_header: None,
            docs_text: None,
            signature_text: None,
            parent_symbol_path: Some(lit("history")),
            retrieval_markers: one_text("history"),
            repository_state_hints: one_text("history"),
            file_path: prefixed("history/", n.node_id.as_str()),
            start_byte: 0,
            end_byte: 0,
            text: n.summary.clone(),
        };
        let cand = Candidate { chunk: base + (i - start), source: ScoreSource::History(overlaps), evidence };
        assert(cand@ == history_candidate(*request, lineage@, w[i - start], base + (i - start)));
        records.push(record);
        cands.push(cand);
        i = i + 1;
    }
    (records, cands)
}

// ---------------------------------------------------------------------
// Warnings.

/// The warnings of a retrieval, in order: about the exact-symbol search
/// (no symbol given, or no match), an empty lexical search, the vector
/// search (unavailable, or empty), and history asked for but not found.
pub open spec fn warnings_of(
    symbol_given: bool,
    seeds: bool,
    lexical: bool,
    vector: Result<bool, Seq<char>>,
    history: Option<bool>,
) -> Seq<Seq<char>> {
    (if !symbol_given {
        seq!["symbol path not provided; exact symbol retrieval skipped"@]
    } else if !seeds {
        seq!["exact symbol match not found"@]
    } else {
        seq![]
    }) + (if !lexical {
        seq!["lexical bm25 search returned no snapshot-local candidates"@]
    } else {
        seq![]
    }) + (match vector {
        Ok(found) => if found {
            seq![]
        } else {
            seq!["semantic vector search returned no snapshot-local candidates"@]
        },
        Err(e) => seq!["semantic vector search unavailable: "@ + e],
    }) + (match history {
        Some(found) => if found {
            seq![]
        } else {
            seq!["history selector requested but no history candidates were found"@]
        },
        None => seq![],
    })
}

pub fn retrieval_warnings(
    symbol_given: bool,
    seeds: bool,
    lexical: bool,
    vector: &Result<bool, String>,
    history: Option<bool>,
) -> (r: Vec<String>)
    ensures
        views(r@) == warnings_of(symbol_given, seeds, lexical, match vector {
            Ok(b) => Ok(*b),
            Err(e) => Err(e@),
        }, history),
{
    let mut v: Vec<String> = Vec::new();
    if !symbol_given {
        v.push(lit("symbol path not provided; exact symbol retrieval skipped"));
    } else if !seeds {
        v.push(lit("exact symbol match not found"));
    }
    if !lexical {
        v.push(lit("lexical bm25 search returned no snapshot-local candidates"));
    }
    let ghost b = views(v@);
    match vector {
        Ok(found) => {
            if !*found {
                v.push(lit("semantic vector search returned no snapshot-local candidates"));
            }
        },
        Err(e) => {
            v.push(prefixed("semantic vector search unavailable: ", e.as_str()));
        },
    }
    match history {
        Some(found) => {
            if !found {
                v.push(lit("history selector requested but no history candidates were found"));
            }
        },
        None => {},
    }
    assert(views(v@) =~= warnings_of(symbol_given, seeds, lexical, match vector {
        Ok(b) => Ok(*b),
        Err(e) => Err(e@),
    }, history));
    v
}

} // verus!
