//! What retrieval reads off a stored chunk: whether it is test or example
//! evidence, whether it sits beside a seed, which evidence class it
//! belongs to, and the ranking weight of a document.
use crate::chunking::types::lit;
use crate::config::{first_matching_rule, glob_matches, path_matches_glob, DocumentSourceRule};
use crate::chunking::documents::weight_marker;
use crate::metadata::ChunkRecord;
use crate::text::{occurs_at, str_equal, str_starts_with, views};
use crate::worktree::{normalize_path_spec, normalize_string_path};
use vstd::prelude::*;

verus! {

pub open spec fn has_marker(c: ChunkRecord, m: Seq<char>) -> bool {
    exists|k: int| 0 <= k < c.retrieval_markers@.len() && #[trigger] c.retrieval_markers@[k]@ == m
}

pub(crate) fn marker_present(c: &ChunkRecord, m: &str) -> (r: bool)
    ensures
        r == has_marker(*c, m@),
{
    let mut i: usize = 0;
    while i < c.retrieval_markers.len()
        invariant
            0 <= i <= c.retrieval_markers@.len(),
            forall|k: int| 0 <= k < i ==> #[trigger] c.retrieval_markers@[k]@ != m@,
        decreases c.retrieval_markers.len() - i,
    {
        if str_equal(c.retrieval_markers[i].as_str(), m) {
            return true;
        }
        i = i + 1;
    }
    false
}

/// A test function, or a chunk marked `test` or `doctest`.
pub open spec fn test_like(c: ChunkRecord) -> bool {
    c.chunk_kind@ == "TestFunction"@ || has_marker(c, "test"@) || has_marker(c, "doctest"@)
}

/// A test function, example file or doctest, or a chunk marked `test`,
/// `example` or `doctest`.
pub open spec fn example_like(c: ChunkRecord) -> bool {
    ||| c.chunk_kind@ == "TestFunction"@
    ||| c.chunk_kind@ == "ExampleFile"@
    ||| c.chunk_kind@ == "Doctest"@
    ||| has_marker(c, "test"@)
    ||| has_marker(c, "example"@)
    ||| has_marker(c, "doctest"@)
}

pub fn is_test_like(chunk: &ChunkRecord) -> (r: bool)
    ensures
        r == test_like(*chunk),
{
    str_equal(chunk.chunk_kind.as_str(), "TestFunction") || marker_present(chunk, "test")
        || marker_present(chunk, "doctest")
}

pub fn is_example_like(chunk: &ChunkRecord) -> (r: bool)
    ensures
        r == example_like(*chunk),
{
    str_equal(chunk.chunk_kind.as_str(), "TestFunction") || str_equal(chunk.chunk_kind.as_str(), "ExampleFile")
        || str_equal(chunk.chunk_kind.as_str(), "Doctest") || marker_present(chunk, "test")
        || marker_present(chunk, "example") || marker_present(chunk, "doctest")
}

/// The neighbourhood's test-or-example test (the same as
/// [`is_example_like`]).
pub fn is_example_or_test_chunk(chunk: &ChunkRecord) -> (r: bool)
    ensures
        r == example_like(*chunk),
{
    is_example_like(chunk)
}

/// Every test-like chunk is example-like.
pub proof fn lemma_test_like_is_example_like(c: ChunkRecord)
    ensures
        test_like(c) ==> example_like(c),
{
}

/// Another chunk of the same file as one of the seeds.
pub open spec fn beside_seed(seeds: Seq<ChunkRecord>, c: ChunkRecord) -> bool {
    exists|i: int|
        0 <= i < seeds.len() && (#[trigger] seeds[i]).file_path@ == c.file_path@ && seeds[i].chunk_id@
            != c.chunk_id@
}

pub fn same_file_neighbor(seed_chunks: &[ChunkRecord], candidate: &ChunkRecord) -> (r: bool)
    ensures
        r == beside_seed(seed_chunks@, *candidate),
{
    let mut i: usize = 0;
    while i < seed_chunks.len()
        invariant
            0 <= i <= seed_chunks@.len(),
            forall|k: int|
                0 <= k < i ==> !((#[trigger] seed_chunks@[k]).file_path@ == candidate.file_path@
                    && seed_chunks@[k].chunk_id@ != candidate.chunk_id@),
        decreases seed_chunks.len() - i,
    {
        if str_equal(seed_chunks[i].file_path.as_str(), candidate.file_path.as_str()) && !str_equal(
            seed_chunks[i].chunk_id.as_str(),
            candidate.chunk_id.as_str(),
        ) {
            return true;
        }
        i = i + 1;
    }
    false
}

/// The class of a chunk's evidence: `document`, `history` or `code`.
pub open spec fn evidence_class(c: ChunkRecord) -> Seq<char> {
    if c.chunk_kind@ == "DocumentBlock"@ || c.chunk_kind@ == "TaskRow"@ {
        "document"@
    } else if c.chunk_kind@ == "HistoryNode"@ {
        "history"@
    } else {
        "code"@
    }
}

/// The classes of the first `n` chunks, each once, in order of first
/// appearance.
pub open spec fn classes_upto(items: Seq<ChunkRecord>, n: int) -> Seq<Seq<char>>
    decreases n,
{
    if n <= 0 || n > items.len() {
        seq![]
    } else {
        let prev = classes_upto(items, n - 1);
        if prev.contains(evidence_class(items[n - 1])) {
            prev
        } else {
            prev.push(evidence_class(items[n - 1]))
        }
    }
}

/// The classes of the results are listed once each.
pub proof fn lemma_classes_distinct(items: Seq<ChunkRecord>, n: int)
    ensures
        forall|i: int, j: int|
            0 <= i < j < classes_upto(items, n).len() ==> #[trigger] classes_upto(items, n)[i] != #[trigger] classes_upto(items, n)[j],
    decreases n,
{
    if n > 0 && n <= items.len() {
        lemma_classes_distinct(items, n - 1);
        let prev = classes_upto(items, n - 1);
        let c = evidence_class(items[n - 1]);
        if !prev.contains(c) {
            let e = prev.push(c);
            assert forall|i: int, j: int| 0 <= i < j < e.len() implies #[trigger] e[i] != #[trigger] e[j] by {
                assert(e[i] == prev[i]);
                if j == e.len() - 1 {
                    if e[i] == e[j] {
                        assert(prev.contains(c));
                    }
                } else {
                    assert(e[j] == prev[j]);
                }
            }
        }
    }
}

fn class_of(c: &ChunkRecord) -> (r: &'static str)
    ensures
        r@ == evidence_class(*c),
{
    if str_equal(c.chunk_kind.as_str(), "DocumentBlock") || str_equal(c.chunk_kind.as_str(), "TaskRow") {
        "document"
    } else if str_equal(c.chunk_kind.as_str(), "HistoryNode") {
        "history"
    } else {
        "code"
    }
}

/// The evidence classes of a retrieval's results, in order of first
/// appearance.
pub fn evidence_class_coverage(items: &[ChunkRecord]) -> (r: Vec<String>)
    ensures
        views(r@) == classes_upto(items@, items@.len() as int),
{
    let mut classes: Vec<String> = Vec::new();
    let mut i: usize = 0;
    while i < items.len()
        invariant
            0 <= i <= items@.len(),
            views(classes@) == classes_upto(items@, i as int),
        decreases items.len() - i,
    {
        let class = class_of(&items[i]);
        let mut seen = false;
        let mut k: usize = 0;
        while k < classes.len()
            invariant
                0 <= k <= classes@.len(),
                seen == exists|j: int| 0 <= j < k && views(classes@)[j] == class@,
            decreases classes.len() - k,
        {
            assert(views(classes@)[k as int] == classes@[k as int]@);
            if str_equal(classes[k].as_str(), class) {
                seen = true;
            }
            k = k + 1;
        }
        let ghost before = views(classes@);
        if !seen {
            classes.push(lit(class));
            assert(views(classes@) =~= before.push(class@));
        } else {
            assert(before.contains(class@)) by {
                let j = choose|j: int| 0 <= j < before.len() && before[j] == class@;
                assert(before[j] == class@);
            }
        }
        i = i + 1;
    }
    classes
}

/// The ranking weight of the first rule matching a (normalized) path.
pub fn classify_doc_weight_from_path(path: &str, rules: &Vec<DocumentSourceRule>) -> (r: Option<u32>)
    ensures
        match first_matching_rule(normalize_path_spec(path@), rules@, 0) {
            Some(i) => r == Some(rules@[i].weight_milli),
            None => r is None,
        },
{
    let normalized = normalize_string_path(path);
    let mut i: usize = 0;
    while i < rules.len()
        invariant
            0 <= i <= rules@.len(),
            normalized@ == normalize_path_spec(path@),
            first_matching_rule(normalized@, rules@, 0) == first_matching_rule(normalized@, rules@, i as int),
        decreases rules.len() - i,
    {
        if path_matches_glob(normalized.as_str(), rules[i].path_glob.as_str()) {
            return Some(rules[i].weight_milli);
        }
        i = i + 1;
    }
    None
}

pub open spec fn has_weight_marker(c: ChunkRecord) -> bool {
    exists|k: int| 0 <= k < c.retrieval_markers@.len() && occurs_at(#[trigger] c.retrieval_markers@[k]@, "doc_rank_weight:"@, 0)
}

/// The markers a chunk gets when weights are filled in: a document chunk
/// without a weight marker gains the weight of its path's rule.
pub open spec fn backfilled_markers(c: ChunkRecord, rules: Seq<DocumentSourceRule>) -> Seq<Seq<char>> {
    if has_marker(c, "document"@) && !has_weight_marker(c) {
        match first_matching_rule(normalize_path_spec(c.file_path@), rules, 0) {
            Some(i) => views(c.retrieval_markers@).push(weight_marker(rules[i].weight_milli)),
            None => views(c.retrieval_markers@),
        }
    } else {
        views(c.retrieval_markers@)
    }
}

fn weight_marker_present(c: &ChunkRecord) -> (r: bool)
    ensures
        r == has_weight_marker(*c),
{
    let mut i: usize = 0;
    while i < c.retrieval_markers.len()
        invariant
            0 <= i <= c.retrieval_markers@.len(),
            forall|k: int| 0 <= k < i ==> !occurs_at(#[trigger] c.retrieval_markers@[k]@, "doc_rank_weight:"@, 0),
        decreases c.retrieval_markers.len() - i,
    {
        if str_starts_with(c.retrieval_markers[i].as_str(), "doc_rank_weight:") {
            return true;
        }
        i = i + 1;
    }
    false
}

/// Fills in the ranking weight of document chunks stored without one;
/// only their markers change.
pub fn backfill_document_rank_weights(chunks: &mut Vec<ChunkRecord>, rules: &Vec<DocumentSourceRule>)
    ensures
        final(chunks)@.len() == old(chunks)@.len(),
        forall|i: int|
            0 <= i < old(chunks)@.len() ==> views(#[trigger] final(chunks)@[i].retrieval_markers@)
                == backfilled_markers(old(chunks)@[i], rules@) && final(chunks)@[i].chunk_id
                == old(chunks)@[i].chunk_id && final(chunks)@[i].file_path == old(chunks)@[i].file_path
                && final(chunks)@[i].text == old(chunks)@[i].text && final(chunks)@[i].chunk_kind
                == old(chunks)@[i].chunk_kind,
{
    let ghost orig = chunks@;
    let mut i: usize = 0;
    while i < chunks.len()
        invariant
            0 <= i <= chunks@.len(),
            chunks@.len() == orig.len(),
            forall|k: int|
                0 <= k < i ==> views(#[trigger] chunks@[k].retrieval_markers@) == backfilled_markers(orig[k], rules@)
                    && chunks@[k].chunk_id == orig[k].chunk_id && chunks@[k].file_path == orig[k].file_path
                    && chunks@[k].text == orig[k].text && chunks@[k].chunk_kind == orig[k].chunk_kind,
            forall|k: int| i <= k < chunks@.len() ==> #[trigger] chunks@[k] == orig[k],
        decreases chunks.len() - i,
    {
        assert(chunks@[i as int] == orig[i as int]);
        let is_doc = marker_present(&chunks[i], "document");
        let weighted = weight_marker_present(&chunks[i]);
        let ghost prev = chunks@;
        if is_doc && !weighted {
            match classify_doc_weight_from_path(chunks[i].file_path.as_str(), rules) {
                Some(w) => {
                    let marker = crate::chunking::documents::weight_marker_text(w);
                    let mut c = chunks[i].clone_record();
                    let ghost before = views(c.retrieval_markers@);
                    c.retrieval_markers.push(marker);
                    assert(views(c.retrieval_markers@) =~= before.push(weight_marker(w)));
                    chunks.set(i, c);
                    assert(chunks@ == prev.update(i as int, c));
                },
                None => {},
            }
        }
        assert(views(chunks@[i as int].retrieval_markers@) == backfilled_markers(orig[i as int], rules@));
        assert(forall|k: int| 0 <= k < chunks@.len() && k != i ==> chunks@[k] == prev[k]);
        assert(chunks@[i as int].chunk_id == orig[i as int].chunk_id);
        assert(chunks@[i as int].file_path == orig[i as int].file_path);
        assert(chunks@[i as int].text == orig[i as int].text);
        assert(chunks@[i as int].chunk_kind == orig[i as int].chunk_kind);
        assert forall|k: int| 0 <= k < i + 1 implies views(#[trigger] chunks@[k].retrieval_markers@)
            == backfilled_markers(orig[k], rules@) && chunks@[k].chunk_id == orig[k].chunk_id
            && chunks@[k].file_path == orig[k].file_path && chunks@[k].text == orig[k].text
            && chunks@[k].chunk_kind == orig[k].chunk_kind by {
            if k < i {
                assert(chunks@[k] == prev[k]);
            }
        }
        i = i + 1;
    }
}

} // verus!
