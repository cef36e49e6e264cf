//! Helpers of the indexers: stable point ids, store filters, stored kind
//! names, document records and comma-separated lists.
use crate::chunking::types::{chunk_views, lit, Chunk, ChunkKind, ChunkView};
use crate::metadata::DocumentBlockRecord;
use crate::text::{as_int_pairs, chars_of, join, join_strings, push_char, split, split_chars, split_ranges, string_from_range, trim, trimmed_string, views};
use vstd::prelude::*;

verus! {

/// How many rows a reindex wrote to each store: the metadata rows, the
/// lexical documents and the vector points.
#[derive(Debug, Clone, Copy, PartialEq, Eq)]
pub struct ReindexCounts {
    pub metadata_rows: usize,
    pub lexical_docs: usize,
    pub vector_points: usize,
}

/// FNV-1a over the first `n` bytes, starting from the offset basis mixed
/// with `seed`.
pub open spec fn fnv_hash(seed: u64, bytes: Seq<u8>, n: int) -> u64
    decreases n,
{
    if n <= 0 || n > bytes.len() {
        1469598103934665603u64 ^ seed
    } else {
        (fnv_hash(seed, bytes, n - 1) ^ (bytes[n - 1] as u64)).wrapping_mul(1099511628211u64)
    }
}

/// The vector-store id of a chunk: the FNV-1a hash of its id's UTF-8
/// bytes, seeded.
pub fn stable_point_id(seed: u64, chunk_id: &str) -> (r: u64)
    ensures
        r == fnv_hash(seed, vstd::utf8::encode_utf8(chunk_id@), vstd::utf8::encode_utf8(chunk_id@).len() as int),
{
    let bytes = chunk_id.as_bytes_vec();
    let ghost b = vstd::utf8::encode_utf8(chunk_id@);
    assert(bytes@ == b);
    let mut hash: u64 = 1469598103934665603u64 ^ seed;
    let mut i: usize = 0;
    while i < bytes.len()
        invariant
            0 <= i <= bytes@.len(),
            bytes@ == b,
            hash == fnv_hash(seed, b, i as int),
        decreases bytes.len() - i,
    {
        hash = hash ^ (bytes[i] as u64);
        hash = hash.wrapping_mul(1099511628211u64);
        i = i + 1;
    }
    hash
}

/// `s` with every `'` doubled.
pub open spec fn quote_doubled(s: Seq<char>) -> Seq<char>
    decreases s.len(),
{
    if s.len() == 0 {
        seq![]
    } else {
        quote_doubled(s.drop_last()) + if s.last() == '\'' {
            seq!['\'', '\'']
        } else {
            seq![s.last()]
        }
    }
}

/// The filter selecting a snapshot's rows: `snapshot_id = '<id>'`, with the
/// id's quotes doubled.
pub fn snapshot_filter(snapshot_id: &str) -> (r: String)
    ensures
        r@ == "snapshot_id = '"@ + quote_doubled(snapshot_id@) + seq!['\''],
{
    let cs = chars_of(snapshot_id);
    let mut out = lit("snapshot_id = '");
    let ghost head = out@;
    let mut i: usize = 0;
    while i < cs.len()
        invariant
            0 <= i <= cs@.len(),
            cs@ == snapshot_id@,
            out@ == head + quote_doubled(snapshot_id@.take(i as int)),
        decreases cs.len() - i,
    {
        assert(snapshot_id@.take(i + 1).drop_last() =~= snapshot_id@.take(i as int));
        if cs[i] == '\'' {
            push_char(&mut out, '\'');
            push_char(&mut out, '\'');
        } else {
            push_char(&mut out, cs[i]);
        }
        assert(out@ =~= head + quote_doubled(snapshot_id@.take(i + 1)));
        i = i + 1;
    }
    assert(snapshot_id@.take(cs@.len() as int) =~= snapshot_id@);
    push_char(&mut out, '\'');
    out
}

pub open spec fn kind_index_name(k: ChunkKind) -> Seq<char> {
    match k {
        ChunkKind::CrateSummary => "crate_summary"@,
        ChunkKind::ModuleSummary => "module_summary"@,
        ChunkKind::Symbol => "symbol"@,
        ChunkKind::BodyRegion => "body_region"@,
        ChunkKind::TestFunction => "test_function"@,
        ChunkKind::ExampleFile => "example_file"@,
        ChunkKind::Doctest => "doctest"@,
        ChunkKind::DocumentBlock => "document_block"@,
        ChunkKind::TaskRow => "task_row"@,
    }
}

/// The name a chunk kind is indexed under in the text index.
pub fn chunk_kind_name(kind: &ChunkKind) -> (r: &'static str)
    ensures
        r@ == kind_index_name(*kind),
{
    match kind {
        ChunkKind::CrateSummary => "crate_summary",
        ChunkKind::ModuleSummary => "module_summary",
        ChunkKind::Symbol => "symbol",
        ChunkKind::BodyRegion => "body_region",
        ChunkKind::TestFunction => "test_function",
        ChunkKind::ExampleFile => "example_file",
        ChunkKind::Doctest => "doctest",
        ChunkKind::DocumentBlock => "document_block",
        ChunkKind::TaskRow => "task_row",
    }
}

/// A list stored as one comma-separated text.
pub fn join_csv(values: &[String]) -> (r: String)
    ensures
        r@ == join(views(values@), ","@),
{
    join_strings(values, ",")
}

/// The trimmed non-empty entries of a comma-separated text.
pub open spec fn csv_entries(value: Seq<char>) -> Seq<Seq<char>> {
    split(value, seq![',']).map_values(|x: Seq<char>| trim(x)).filter(|x: Seq<char>| x.len() > 0)
}

pub fn split_csv(value: &str) -> (r: Vec<String>)
    ensures
        views(r@) == csv_entries(value@),
{
    let cs = chars_of(value);
    let comma: Vec<char> = vec![','];
    assert(comma@ =~= seq![',']);
    let ranges = split_chars(cs.as_slice(), comma.as_slice());
    let ghost sp = split(value@, seq![',']).map_values(|x: Seq<char>| trim(x));
    let ghost f = |x: Seq<char>| x.len() > 0;
    let mut out: Vec<String> = Vec::new();
    let mut k: usize = 0;
    assert(sp.len() == ranges@.len());
    assert(sp.take(0).filter(f) =~= Seq::<Seq<char>>::empty()) by {
        reveal(Seq::filter);
    }
    while k < ranges.len()
        invariant
            0 <= k <= ranges@.len(),
            cs@ == value@,
            comma@ == seq![','],
            sp == split(value@, seq![',']).map_values(|x: Seq<char>| trim(x)),
            sp.len() == ranges@.len(),
            f == (|x: Seq<char>| x.len() > 0),
            as_int_pairs(ranges@) == split_ranges(cs@, seq![',']),
            forall|q: int| 0 <= q < ranges@.len() ==> (#[trigger] ranges@[q]).0 <= ranges@[q].1 <= cs@.len(),
            views(out@) == sp.take(k as int).filter(f),
        decreases ranges.len() - k,
    {
        let (a, b) = ranges[k];
        assert(as_int_pairs(ranges@)[k as int] == (a as int, b as int));
        assert(sp[k as int] == trim(cs@.subrange(a as int, b as int)));
        let t = trimmed_string(cs.as_slice(), a, b);
        let tc = chars_of(t.as_str());
        assert(sp.take(k + 1) =~= sp.take(k as int).push(sp[k as int]));
        proof {
            sp.take(k as int).lemma_filter_push(sp[k as int], f);
        }
        if tc.len() > 0 {
            let ghost before = views(out@);
            out.push(t);
            assert(views(out@) =~= before.push(sp[k as int]));
        }
        k = k + 1;
    }
    assert(sp.take(ranges@.len() as int) =~= sp);
    out
}

/// The non-empty entries of a comma-separated feature list (untrimmed).
pub open spec fn feature_entries(value: Seq<char>) -> Seq<Seq<char>> {
    split(value, seq![',']).filter(|x: Seq<char>| x.len() > 0)
}

pub fn split_feature_set(feature_set: &str) -> (r: Vec<String>)
    ensures
        views(r@) == feature_entries(feature_set@),
{
    let cs = chars_of(feature_set);
    let comma: Vec<char> = vec![','];
    assert(comma@ =~= seq![',']);
    let ranges = split_chars(cs.as_slice(), comma.as_slice());
    let ghost sp = split(feature_set@, seq![',']);
    let ghost f = |x: Seq<char>| x.len() > 0;
    let mut out: Vec<String> = Vec::new();
    let mut k: usize = 0;
    assert(sp.len() == ranges@.len());
    assert(sp.take(0).filter(f) =~= Seq::<Seq<char>>::empty()) by {
        reveal(Seq::filter);
    }
    while k < ranges.len()
        invariant
            0 <= k <= ranges@.len(),
            cs@ == feature_set@,
            comma@ == seq![','],
            sp == split(feature_set@, seq![',']),
            sp.len() == ranges@.len(),
            f == (|x: Seq<char>| x.len() > 0),
            as_int_pairs(ranges@) == split_ranges(cs@, seq![',']),
            forall|q: int| 0 <= q < ranges@.len() ==> (#[trigger] ranges@[q]).0 <= ranges@[q].1 <= cs@.len(),
            views(out@) == sp.take(k as int).filter(f),
        decreases ranges.len() - k,
    {
        let (a, b) = ranges[k];
        assert(as_int_pairs(ranges@)[k as int] == (a as int, b as int));
        assert(sp[k as int] == cs@.subrange(a as int, b as int));
        assert(sp.take(k + 1) =~= sp.take(k as int).push(sp[k as int]));
        proof {
            sp.take(k as int).lemma_filter_push(sp[k as int], f);
        }
        if a < b {
            let ghost before = views(out@);
            out.push(string_from_range(cs.as_slice(), a, b));
            assert(views(out@) =~= before.push(sp[k as int]));
        }
        k = k + 1;
    }
    assert(sp.take(ranges@.len() as int) =~= sp);
    out
}

/// The first marker other than `document`, or `documentation`.
pub open spec fn first_non_document(ms: Seq<Seq<char>>, i: int) -> Seq<char>
    decreases ms.len() - i,
{
    if i < 0 || i >= ms.len() {
        "documentation"@
    } else if ms[i] != "document"@ {
        ms[i]
    } else {
        first_non_document(ms, i + 1)
    }
}

/// The document record of a document chunk: its kind from its markers,
/// its parser from its chunk kind, and its heading path from its symbol
/// path.
pub open spec fn block_of(snapshot_id: Seq<char>, c: ChunkView) -> (Seq<char>, Seq<char>, Seq<char>, Seq<char>, Seq<char>, Seq<Seq<char>>, u32, u32, Seq<char>) {
    (
        c.id,
        snapshot_id,
        c.file_path,
        first_non_document(c.retrieval_markers, 0),
        if c.kind == ChunkKind::TaskRow { "csv"@ } else { "markdown"@ },
        match c.symbol_path {
            Some(p) => split(p, "::"@),
            None => seq![],
        },
        c.start,
        c.end,
        c.text,
    )
}

pub open spec fn is_document_chunk(c: ChunkView) -> bool {
    c.kind == ChunkKind::DocumentBlock || c.kind == ChunkKind::TaskRow
}

pub open spec fn blocks_upto(snapshot_id: Seq<char>, cs: Seq<ChunkView>, n: int) -> Seq<(Seq<char>, Seq<char>, Seq<char>, Seq<char>, Seq<char>, Seq<Seq<char>>, u32, u32, Seq<char>)>
    decreases n,
{
    if n <= 0 || n > cs.len() {
        seq![]
    } else if is_document_chunk(cs[n - 1]) {
        blocks_upto(snapshot_id, cs, n - 1).push(block_of(snapshot_id, cs[n - 1]))
    } else {
        blocks_upto(snapshot_id, cs, n - 1)
    }
}

pub open spec fn block_view(r: DocumentBlockRecord) -> (Seq<char>, Seq<char>, Seq<char>, Seq<char>, Seq<char>, Seq<Seq<char>>, u32, u32, Seq<char>) {
    (r.block_id@, r.snapshot_id@, r.file_path@, r.document_kind@, r.parser@, views(r.heading_path@), r.start_line, r.end_line, r.text@)
}

fn document_kind_of(markers: &Vec<String>) -> (r: String)
    ensures
        r@ == first_non_document(views(markers@), 0),
{
    let mut i: usize = 0;
    while i < markers.len()
        invariant
            0 <= i <= markers@.len(),
            first_non_document(views(markers@), 0) == first_non_document(views(markers@), i as int),
        decreases markers.len() - i,
    {
        if !crate::text::str_equal(markers[i].as_str(), "document") {
            return markers[i].clone();
        }
        i = i + 1;
    }
    lit("documentation")
}

fn split_path(p: &str) -> (r: Vec<String>)
    ensures
        views(r@) == split(p@, "::"@),
{
    let cs = chars_of(p);
    let sep = chars_of("::");
    proof {
        reveal_strlit("::");
    }
    let ranges = split_chars(cs.as_slice(), sep.as_slice());
    let ghost sp = split(p@, "::"@);
    let mut out: Vec<String> = Vec::new();
    let mut k: usize = 0;
    assert(sp.len() == ranges@.len());
    while k < ranges.len()
        invariant
            0 <= k <= ranges@.len(),
            cs@ == p@,
            sep@ == "::"@,
            sp == split(p@, "::"@),
            sp.len() == ranges@.len(),
            as_int_pairs(ranges@) == split_ranges(cs@, "::"@),
            forall|q: int| 0 <= q < ranges@.len() ==> (#[trigger] ranges@[q]).0 <= ranges@[q].1 <= cs@.len(),
            views(out@) == sp.take(k as int),
        decreases ranges.len() - k,
    {
        let (a, b) = ranges[k];
        assert(as_int_pairs(ranges@)[k as int] == (a as int, b as int));
        assert(sp[k as int] == cs@.subrange(a as int, b as int));
        let ghost before = views(out@);
        out.push(string_from_range(cs.as_slice(), a, b));
        assert(views(out@) =~= before.push(sp[k as int]));
        assert(sp.take(k + 1) =~= sp.take(k as int).push(sp[k as int]));
        assert(views(out@) =~= sp.take(k + 1));
        k = k + 1;
    }
    assert(sp.take(ranges@.len() as int) =~= sp);
    out
}

/// The document records of the document chunks of a snapshot, in order.
pub fn document_blocks_from_chunks(snapshot_id: &str, chunks: &[Chunk]) -> (r: Vec<DocumentBlockRecord>)
    ensures
        r@.map_values(|b: DocumentBlockRecord| block_view(b)) == blocks_upto(snapshot_id@, chunk_views(chunks@), chunks@.len() as int),
{
    let ghost cs = chunk_views(chunks@);
    let mut out: Vec<DocumentBlockRecord> = Vec::new();
    let mut i: usize = 0;
    while i < chunks.len()
        invariant
            0 <= i <= chunks@.len(),
            cs == chunk_views(chunks@),
            out@.map_values(|b: DocumentBlockRecord| block_view(b)) == blocks_upto(snapshot_id@, cs, i as int),
        decreases chunks.len() - i,
    {
        let c = &chunks[i];
        assert(cs[i as int] == c@);
        if c.kind == ChunkKind::DocumentBlock || c.kind == ChunkKind::TaskRow {
            let kind = document_kind_of(&c.retrieval_markers);
            let parser = if c.kind == ChunkKind::TaskRow {
                "csv"
            } else {
                "markdown"
            };
            let heading = match &c.symbol_path {
                Some(p) => split_path(p.as_str()),
                None => {
                    let v: Vec<String> = Vec::new();
                    assert(views(v@) =~= Seq::<Seq<char>>::empty());
                    v
                },
            };
            let rec = DocumentBlockRecord::new(
                c.id.as_str(),
                snapshot_id,
                c.file_path.as_str(),
                kind.as_str(),
                parser,
                heading,
                c.span.start_byte,
                c.span.end_byte,
                c.text.as_str(),
            );
            let ghost before = out@.map_values(|b: DocumentBlockRecord| block_view(b));
            out.push(rec);
            assert(out@.map_values(|b: DocumentBlockRecord| block_view(b)) =~= before.push(block_view(rec)));
        }
        i = i + 1;
    }
    out
}

/// The ranks, in order, of the first `n` hits that belong to the snapshot
/// (every hit when no snapshot is given).
pub open spec fn snapshot_ranks(hit_snapshots: Seq<Seq<char>>, snapshot_id: Option<Seq<char>>, n: int) -> Seq<int>
    decreases n,
{
    if n <= 0 || n > hit_snapshots.len() {
        seq![]
    } else {
        snapshot_ranks(hit_snapshots, snapshot_id, n - 1) + match snapshot_id {
            Some(s) => if hit_snapshots[n - 1] == s {
                seq![n - 1]
            } else {
                seq![]
            },
            None => seq![n - 1],
        }
    }
}

/// Which search hits to keep, given each hit's snapshot: a search scoped to
/// a snapshot never returns another snapshot's documents.
pub fn hits_in_snapshot(hit_snapshots: &[String], snapshot_id: Option<&str>) -> (r: Vec<usize>)
    ensures
        r@.map_values(|k: usize| k as int) == snapshot_ranks(views(hit_snapshots@), match snapshot_id {
            Some(s) => Some(s@),
            None => None,
        }, hit_snapshots@.len() as int),
        forall|j: int| 0 <= j < r@.len() ==> (#[trigger] r@[j]) < hit_snapshots@.len() && match snapshot_id {
            Some(s) => hit_snapshots@[r@[j] as int]@ == s@,
            None => true,
        },
{
    let ghost sid = match snapshot_id {
        Some(s) => Some(s@),
        None => None,
    };
    let ghost hs = views(hit_snapshots@);
    let mut out: Vec<usize> = Vec::new();
    let mut k: usize = 0;
    assert(out@.map_values(|k: usize| k as int) =~= snapshot_ranks(hs, sid, 0));
    while k < hit_snapshots.len()
        invariant
            0 <= k <= hit_snapshots@.len(),
            hs == views(hit_snapshots@),
            sid == (match snapshot_id {
                Some(s) => Some(s@),
                None => None::<Seq<char>>,
            }),
            out@.map_values(|k: usize| k as int) == snapshot_ranks(hs, sid, k as int),
            forall|j: int| 0 <= j < out@.len() ==> (#[trigger] out@[j]) < k && match snapshot_id {
                Some(s) => hit_snapshots@[out@[j] as int]@ == s@,
                None => true,
            },
        decreases hit_snapshots.len() - k,
    {
        let keep = match snapshot_id {
            Some(s) => crate::text::str_equal(hit_snapshots[k].as_str(), s),
            None => true,
        };
        let ghost before = out@;
        if keep {
            out.push(k);
        }
        assert(hs[k as int] == hit_snapshots@[k as int]@);
        assert(out@.map_values(|k: usize| k as int) =~= snapshot_ranks(hs, sid, k + 1)) by {
            if keep {
                assert(out@ == before.push(k));
            }
        }
        k = k + 1;
    }
    out
}

} // verus!
