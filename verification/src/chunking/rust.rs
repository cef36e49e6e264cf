//! The Rust chunker: crate and file summaries, one chunk per named item,
//! body regions of long functions, test functions and the Rust doctests of
//! doc comments.
use crate::chunking::syntax::{
    item_same, item_wf, items_conv, lemma_items_conv_unique, lemma_items_conv_wf, lemma_seq_wf,
    parsed_items, seq_same, seq_wf, source_items, SourceItem, SourceItemKind,
};
use crate::chunking::documents::{document_chunks, document_chunks_for_file};
use crate::config::{is_default_rules, DocumentSourceRule, DocumentSourcesConfig};
use crate::chunking::types::{chunk_views, lit, Chunk, ChunkKind, ChunkView, SourceSpan};
use crate::text::{
    as_int_pairs, byte_at, byte_len, byte_offsets, chars_of, decimal, find_chars_from,
    find_from, is_whitespace, is_ws, join, join_strings, lemma_byte_at_mono, lemma_find_from,
    lemma_skip_ws_bounds, lemma_trim_empty_iff_blank, lemma_trim_end_bounds, line_bounds,
    line_ranges, lines, newline, push_decimal, push_str, split, split_chars, split_ranges,
    string_from_range, trim, trim_bounds, trim_end, trim_end_at, trim_start, views,
};
use vstd::prelude::*;

verus! {

/// Which directory of a crate a file comes from.
#[derive(Debug, Clone, Copy, PartialEq, Eq, Structural)]
pub enum SourceRootKind {
    Src,
    Examples,
    IntegrationTests,
}

pub open spec fn root_markers_spec(kind: SourceRootKind) -> Seq<Seq<char>> {
    match kind {
        SourceRootKind::Src => seq![],
        SourceRootKind::Examples => seq!["example"@],
        SourceRootKind::IntegrationTests => seq!["test"@],
    }
}

pub open spec fn root_hints_spec(kind: SourceRootKind) -> Seq<Seq<char>> {
    match kind {
        SourceRootKind::Src => seq![],
        SourceRootKind::Examples => seq!["examples"@],
        SourceRootKind::IntegrationTests => seq!["tests"@],
    }
}

/// Retrieval markers of every chunk from a source root.
pub fn root_markers(kind: SourceRootKind) -> (r: Vec<String>)
    ensures
        views(r@) == root_markers_spec(kind),
{
    let mut v: Vec<String> = Vec::new();
    match kind {
        SourceRootKind::Src => {},
        SourceRootKind::Examples => v.push(lit("example")),
        SourceRootKind::IntegrationTests => v.push(lit("test")),
    }
    assert(views(v@) =~= root_markers_spec(kind));
    v
}

/// Repository-state hints of every chunk from a source root.
pub fn root_state_hints(kind: SourceRootKind) -> (r: Vec<String>)
    ensures
        views(r@) == root_hints_spec(kind),
{
    let mut v: Vec<String> = Vec::new();
    match kind {
        SourceRootKind::Src => {},
        SourceRootKind::Examples => v.push(lit("examples")),
        SourceRootKind::IntegrationTests => v.push(lit("tests")),
    }
    assert(views(v@) =~= root_hints_spec(kind));
    v
}

pub open spec fn kind_label(kind: ChunkKind) -> Seq<char> {
    match kind {
        ChunkKind::CrateSummary => "crate"@,
        ChunkKind::ModuleSummary => "module"@,
        ChunkKind::Symbol => "symbol"@,
        ChunkKind::BodyRegion => "body"@,
        ChunkKind::TestFunction => "test"@,
        ChunkKind::ExampleFile => "example"@,
        ChunkKind::Doctest => "doctest"@,
        ChunkKind::DocumentBlock => "document"@,
        ChunkKind::TaskRow => "task-row"@,
    }
}

/// The label of a chunk kind inside chunk ids.
pub fn chunk_kind_label(kind: &ChunkKind) -> (r: &'static str)
    ensures
        r@ == kind_label(*kind),
{
    match kind {
        ChunkKind::CrateSummary => "crate",
        ChunkKind::ModuleSummary => "module",
        ChunkKind::Symbol => "symbol",
        ChunkKind::BodyRegion => "body",
        ChunkKind::TestFunction => "test",
        ChunkKind::ExampleFile => "example",
        ChunkKind::Doctest => "doctest",
        ChunkKind::DocumentBlock => "document",
        ChunkKind::TaskRow => "task-row",
    }
}

/// The descriptive fields of a chunk cut from a range of the source.
struct ChunkMeta {
    symbol_path: Option<String>,
    symbol_name: Option<String>,
    owning_symbol_header: Option<String>,
    docs_text: Option<String>,
    signature_text: Option<String>,
    parent_symbol_path: Option<String>,
    retrieval_markers: Vec<String>,
    repository_state_hints: Vec<String>,
    text_override: Option<String>,
    id_suffix: Option<String>,
}

pub struct MetaView {
    pub symbol_path: Option<Seq<char>>,
    pub symbol_name: Option<Seq<char>>,
    pub owning_symbol_header: Option<Seq<char>>,
    pub docs_text: Option<Seq<char>>,
    pub signature_text: Option<Seq<char>>,
    pub parent_symbol_path: Option<Seq<char>>,
    pub retrieval_markers: Seq<Seq<char>>,
    pub repository_state_hints: Seq<Seq<char>>,
    pub text_override: Option<Seq<char>>,
    pub id_suffix: Option<Seq<char>>,
}

impl View for ChunkMeta {
    type V = MetaView;

    closed spec fn view(&self) -> MetaView {
        MetaView {
            symbol_path: crate::chunking::types::opt_view(self.symbol_path),
            symbol_name: crate::chunking::types::opt_view(self.symbol_name),
            owning_symbol_header: crate::chunking::types::opt_view(self.owning_symbol_header),
            docs_text: crate::chunking::types::opt_view(self.docs_text),
            signature_text: crate::chunking::types::opt_view(self.signature_text),
            parent_symbol_path: crate::chunking::types::opt_view(self.parent_symbol_path),
            retrieval_markers: views(self.retrieval_markers@),
            repository_state_hints: views(self.repository_state_hints@),
            text_override: crate::chunking::types::opt_view(self.text_override),
            id_suffix: crate::chunking::types::opt_view(self.id_suffix),
        }
    }
}

/// `<file>:<start>:<end>:<kind label>[:<suffix>]`.
pub open spec fn chunk_id(
    file_path: Seq<char>,
    start: int,
    end: int,
    label: Seq<char>,
    suffix: Option<Seq<char>>,
) -> Seq<char> {
    let base = file_path + ":"@ + decimal(start as nat) + ":"@ + decimal(end as nat) + ":"@
        + label;
    match suffix {
        Some(x) => base + ":"@ + x,
        None => base,
    }
}

/// The chunk of kind `kind` covering characters `a..b` of the source `s`;
/// its span is in bytes and its text is the covered source unless the
/// metadata overrides it.
pub open spec fn range_chunk(
    file_path: Seq<char>,
    s: Seq<char>,
    kind: ChunkKind,
    a: int,
    b: int,
    m: MetaView,
) -> ChunkView {
    let start = byte_at(s, a);
    let end = byte_at(s, b);
    ChunkView {
        id: chunk_id(file_path, start, end, kind_label(kind), m.id_suffix),
        kind,
        file_path,
        start: start as u32,
        end: end as u32,
        symbol_path: m.symbol_path,
        symbol_name: m.symbol_name,
        owning_symbol_header: m.owning_symbol_header,
        docs_text: m.docs_text,
        signature_text: m.signature_text,
        parent_symbol_path: m.parent_symbol_path,
        retrieval_markers: m.retrieval_markers,
        repository_state_hints: m.repository_state_hints,
        text: match m.text_override {
            Some(t) => t,
            None => s.subrange(a, b),
        },
    }
}

/// The source as characters with the byte offset of every position.
pub open spec fn offsets_of(s: Seq<char>, off: Seq<usize>) -> bool {
    &&& off.len() == s.len() + 1
    &&& forall|k: int| 0 <= k <= s.len() ==> #[trigger] off[k] as int == byte_at(s, k)
    &&& byte_len(s) <= u32::MAX
}

proof fn lemma_offsets_bounded(s: Seq<char>, off: Seq<usize>, k: int)
    requires
        offsets_of(s, off),
        0 <= k <= s.len(),
    ensures
        0 <= byte_at(s, k) <= u32::MAX,
{
    lemma_byte_at_mono(s, k, s.len() as int);
    assert(s.take(s.len() as int) =~= s);
}

fn chunk_from_range(
    file_path: &str,
    cs: &Vec<char>,
    off: &Vec<usize>,
    kind: ChunkKind,
    a: usize,
    b: usize,
    meta: ChunkMeta,
) -> (c: Chunk)
    requires
        a <= b <= cs@.len(),
        offsets_of(cs@, off@),
    ensures
        c@ == range_chunk(file_path@, cs@, kind, a as int, b as int, meta@),
{
    proof {
        lemma_offsets_bounded(cs@, off@, a as int);
        lemma_offsets_bounded(cs@, off@, b as int);
    }
    let start = off[a];
    let end = off[b];
    let mut id = String::new();
    push_str(&mut id, file_path);
    push_str(&mut id, ":");
    push_decimal(&mut id, start as u64);
    push_str(&mut id, ":");
    push_decimal(&mut id, end as u64);
    push_str(&mut id, ":");
    push_str(&mut id, chunk_kind_label(&kind));
    match &meta.id_suffix {
        Some(x) => {
            push_str(&mut id, ":");
            push_str(&mut id, x.as_str());
        },
        None => {},
    }
    let text = match meta.text_override {
        Some(t) => t,
        None => string_from_range(cs.as_slice(), a, b),
    };
    Chunk {
        id,
        kind,
        file_path: lit(file_path),
        span: SourceSpan { start_byte: start as u32, end_byte: end as u32 },
        symbol_path: meta.symbol_path,
        symbol_name: meta.symbol_name,
        owning_symbol_header: meta.owning_symbol_header,
        docs_text: meta.docs_text,
        signature_text: meta.signature_text,
        parent_symbol_path: meta.parent_symbol_path,
        retrieval_markers: meta.retrieval_markers,
        repository_state_hints: meta.repository_state_hints,
        text,
    }
}

/// A doc-comment line (already stripped of indentation): its text after
/// `///` or `//!`, without leading whitespace.
pub open spec fn doc_line(t: Seq<char>) -> Option<Seq<char>> {
    if t.len() >= 3 && t[0] == '/' && t[1] == '/' && (t[2] == '/' || t[2] == '!') {
        Some(trim_start(t.skip(3)))
    } else {
        None
    }
}

/// Reads the doc comment at the top of `s[i..end]` line by line: doc
/// lines, and blank lines once a doc line was read. Returns the texts read
/// and the position where reading stopped.
pub open spec fn doc_scan(s: Seq<char>, i: int, end: int, acc: Seq<Seq<char>>) -> (
    Seq<Seq<char>>,
    int,
)
    decreases end - i,
{
    if i < 0 || i >= end || end > s.len() {
        (acc, i)
    } else {
        proof {
            lemma_find_from(s, newline(), i);
        }
        let nl = find_from(s, newline(), i);
        let j = if nl < end {
            nl
        } else {
            end
        };
        let next = if nl < end {
            nl + 1
        } else {
            end
        };
        let t = trim_start(s.subrange(i, j));
        match doc_line(t) {
            Some(c) => doc_scan(s, next, end, acc.push(c)),
            None => if t.len() == 0 && acc.len() > 0 {
                doc_scan(s, next, end, acc.push(seq![]))
            } else {
                (acc, i)
            },
        }
    }
}

/// The doc comment heading the item text `s[start..end]`: its lines joined
/// by newlines, and the position where the comment ends.
pub open spec fn doc_bundle(s: Seq<char>, start: int, end: int) -> Option<(Seq<char>, int)> {
    let (ls, e) = doc_scan(s, start, end, seq![]);
    if ls.len() == 0 {
        None
    } else {
        Some((join(ls, "\n"@), e))
    }
}

proof fn lemma_doc_scan_bounds(s: Seq<char>, i: int, end: int, acc: Seq<Seq<char>>)
    requires
        0 <= i <= end <= s.len(),
    ensures
        i <= doc_scan(s, i, end, acc).1 <= end,
        doc_scan(s, i, end, acc).0.len() >= acc.len(),
    decreases end - i,
{
    if i < end {
        lemma_find_from(s, newline(), i);
        let nl = find_from(s, newline(), i);
        let next = if nl < end {
            nl + 1
        } else {
            end
        };
        lemma_doc_scan_bounds(s, next, end, acc.push(seq![]));
        let j = if nl < end {
            nl
        } else {
            end
        };
        let t = trim_start(s.subrange(i, j));
        match doc_line(t) {
            Some(c) => lemma_doc_scan_bounds(s, next, end, acc.push(c)),
            None => {},
        }
    }
}

fn doc_bundle_at(cs: &Vec<char>, start: usize, end: usize) -> (r: Option<(String, usize)>)
    requires
        start <= end <= cs@.len(),
    ensures
        match r {
            Some((t, e)) => doc_bundle(cs@, start as int, end as int) == Some((t@, e as int))
                && start <= e <= end,
            None => doc_bundle(cs@, start as int, end as int) is None,
        },
{
    let nl: Vec<char> = vec!['\n'];
    assert(nl@ =~= newline());
    let mut found: Vec<String> = Vec::new();
    let mut i = start;
    proof {
        lemma_doc_scan_bounds(cs@, start as int, end as int, seq![]);
    }
    assert(views(found@) =~= Seq::<Seq<char>>::empty());
    loop
        invariant
            start <= i <= end <= cs@.len(),
            nl@ == newline(),
            doc_scan(cs@, start as int, end as int, seq![]) == doc_scan(
                cs@,
                i as int,
                end as int,
                views(found@),
            ),
        ensures
            start <= i <= end <= cs@.len(),
            doc_scan(cs@, start as int, end as int, seq![]) == (views(found@), i as int),
        decreases end - i,
    {
        if i >= end {
            break;
        }
        let f = find_chars_from(cs.as_slice(), nl.as_slice(), i);
        proof {
            lemma_find_from(cs@, newline(), i as int);
        }
        let j = if f < end {
            f
        } else {
            end
        };
        let next = if f < end {
            f + 1
        } else {
            end
        };
        let (ta, _tb) = trim_bounds(cs.as_slice(), i, j);
        let ghost t = trim_start(cs@.subrange(i as int, j as int));
        assert(t == cs@.subrange(ta as int, j as int));
        if j - ta >= 3 && cs[ta] == '/' && cs[ta + 1] == '/' && (cs[ta + 2] == '/' || cs[ta + 2]
            == '!') {
            let (ca, _cb) = trim_bounds(cs.as_slice(), ta + 3, j);
            assert(t.skip(3) =~= cs@.subrange(ta + 3, j as int));
            let ghost before = views(found@);
            found.push(string_from_range(cs.as_slice(), ca, j));
            assert(views(found@) =~= before.push(trim_start(t.skip(3))));
            i = next;
            continue;
        }
        assert(doc_line(t) is None);
        if ta == j && found.len() > 0 {
            let ghost before = views(found@);
            found.push(String::new());
            assert(views(found@) =~= before.push(seq![]));
            i = next;
            continue;
        }
        break;
    }
    if found.len() == 0 {
        None
    } else {
        let text = join_strings(found.as_slice(), "\n");
        proof {
            lemma_doc_scan_bounds(cs@, start as int, end as int, seq![]);
        }
        Some((text, i))
    }
}

/// Three backticks open a code fence.
pub open spec fn is_fence(t: Seq<char>) -> bool {
    t.len() >= 3 && t[0] == '`' && t[1] == '`' && t[2] == '`'
}

/// A fence language that marks Rust code: none at all, or `rust` among its
/// comma-separated attributes.
pub open spec fn is_rust_lang(lang: Seq<char>) -> bool {
    lang.len() == 0 || exists|k: int|
        0 <= k < split(lang, seq![',']).len() && trim(#[trigger] split(lang, seq![','])[k])
            =~= seq!['r', 'u', 's', 't']
}

pub struct DoctestState {
    pub blocks: Seq<Seq<char>>,
    pub current: Seq<Seq<char>>,
    pub open: bool,
}

/// One line of doc text: fences of Rust code open and close blocks; the
/// lines between them are collected, and a closed block is kept when its
/// trimmed text is not empty.
pub open spec fn doctest_step(st: DoctestState, line: Seq<char>) -> DoctestState {
    let t = trim(line);
    if !st.open {
        if is_fence(t) && is_rust_lang(trim(t.skip(3))) {
            DoctestState { blocks: st.blocks, current: seq![], open: true }
        } else {
            st
        }
    } else if is_fence(t) && t.len() == 3 {
        let block = trim(join(st.current, "\n"@));
        DoctestState {
            blocks: if block.len() > 0 {
                st.blocks.push(block)
            } else {
                st.blocks
            },
            current: seq![],
            open: false,
        }
    } else {
        DoctestState { blocks: st.blocks, current: st.current.push(line), open: true }
    }
}

pub open spec fn doctest_run(ls: Seq<Seq<char>>, n: int) -> DoctestState
    decreases n,
{
    if n <= 0 {
        DoctestState { blocks: seq![], current: seq![], open: false }
    } else {
        doctest_step(doctest_run(ls, n - 1), ls[n - 1])
    }
}

/// The Rust code blocks of a doc text.
pub open spec fn rust_doctests(docs: Seq<char>) -> Seq<Seq<char>> {
    doctest_run(lines(docs), lines(docs).len() as int).blocks
}

/// A copy of `cs[a..b]`.
fn chars_range(cs: &Vec<char>, a: usize, b: usize) -> (r: Vec<char>)
    requires
        a <= b <= cs@.len(),
    ensures
        r@ == cs@.subrange(a as int, b as int),
{
    let mut r: Vec<char> = Vec::new();
    let mut i = a;
    while i < b
        invariant
            a <= i <= b <= cs@.len(),
            r@ == cs@.subrange(a as int, i as int),
        decreases b - i,
    {
        r.push(cs[i]);
        i = i + 1;
    }
    r
}

fn rust_lang_at(cs: &Vec<char>, a: usize, b: usize) -> (r: bool)
    requires
        a <= b <= cs@.len(),
    ensures
        r == is_rust_lang(cs@.subrange(a as int, b as int)),
{
    let ghost lang_s = cs@.subrange(a as int, b as int);
    if a == b {
        return true;
    }
    let lang = chars_range(cs, a, b);
    let comma: Vec<char> = vec![','];
    let parts = split_chars(lang.as_slice(), comma.as_slice());
    assert(comma@ =~= seq![',']);
    let ghost sp = split(lang_s, seq![',']);
    assert(sp.len() == parts@.len());
    let mut k: usize = 0;
    while k < parts.len()
        invariant
            0 <= k <= parts@.len(),
            a <= b <= cs@.len(),
            lang_s == cs@.subrange(a as int, b as int),
            lang@ == lang_s,
            comma@ == seq![','],
            sp == split(lang_s, comma@),
            sp.len() == parts@.len(),
            as_int_pairs(parts@) == split_ranges(lang@, comma@),
            forall|q: int| 0 <= q < parts@.len() ==> (#[trigger] parts@[q]).0 <= parts@[q].1 <= lang@.len(),
            forall|q: int| 0 <= q < k ==> !(trim(#[trigger] sp[q]) =~= seq!['r', 'u', 's', 't']),
        decreases parts.len() - k,
    {
        let (x, y) = parts[k];
        let (tx, ty) = trim_bounds(lang.as_slice(), x, y);
        assert(as_int_pairs(parts@)[k as int] == (x as int, y as int));
        assert(sp[k as int] == lang@.subrange(x as int, y as int));
        let ghost tp = lang@.subrange(tx as int, ty as int);
        assert(tp == trim(sp[k as int]));
        if ty - tx == 4 && lang[tx] == 'r' && lang[tx + 1] == 'u' && lang[tx + 2] == 's'
            && lang[tx + 3] == 't' {
            assert(tp =~= seq!['r', 'u', 's', 't']);
            assert(trim(split(cs@.subrange(a as int, b as int), seq![','])[k as int]) =~= seq!['r', 'u', 's', 't']);
            return true;
        }
        assert(!(tp =~= seq!['r', 'u', 's', 't'])) by {
            if tp =~= seq!['r', 'u', 's', 't'] {
                assert(tp[0] == lang@[tx as int]);
                assert(tp[1] == lang@[tx + 1]);
                assert(tp[2] == lang@[tx + 2]);
                assert(tp[3] == lang@[tx + 3]);
            }
        }
        k = k + 1;
    }
    false
}

/// The Rust code blocks of a doc text: fenced blocks whose fence names no
/// language or lists `rust`, trimmed, empty ones left out.
pub fn extract_rust_doctests(docs_text: &str) -> (r: Vec<String>)
    ensures
        views(r@) == rust_doctests(docs_text@),
{
    let cs = chars_of(docs_text);
    let bounds = line_bounds(cs.as_slice());
    let ghost ls = lines(docs_text@);
    assert(ls.len() == bounds@.len());
    assert forall|j: int| 0 <= j < bounds@.len() implies (#[trigger] bounds@[j]).0 <= bounds@[j].1
        <= cs@.len() && ls[j] == cs@.subrange(bounds@[j].0 as int, bounds@[j].1 as int) by {
        assert(as_int_pairs(bounds@)[j] == (bounds@[j].0 as int, bounds@[j].1 as int));
    }
    let mut blocks: Vec<String> = Vec::new();
    let mut current: Vec<String> = Vec::new();
    let mut open = false;
    let mut idx: usize = 0;
    assert(views(blocks@) =~= Seq::<Seq<char>>::empty());
    assert(views(current@) =~= Seq::<Seq<char>>::empty());
    while idx < bounds.len()
        invariant
            0 <= idx <= bounds@.len(),
            cs@ == docs_text@,
            ls == lines(docs_text@),
            ls.len() == bounds@.len(),
            forall|j: int|
                0 <= j < bounds@.len() ==> (#[trigger] bounds@[j]).0 <= bounds@[j].1 <= cs@.len()
                    && ls[j] == cs@.subrange(bounds@[j].0 as int, bounds@[j].1 as int),
            doctest_run(ls, idx as int) == (DoctestState {
                blocks: views(blocks@),
                current: views(current@),
                open,
            }),
        decreases bounds.len() - idx,
    {
        let (a, b) = bounds[idx];
        let (ta, tb) = trim_bounds(cs.as_slice(), a, b);
        let ghost line = ls[idx as int];
        let ghost t = trim(line);
        assert(t == cs@.subrange(ta as int, tb as int));
        let fence = tb - ta >= 3 && cs[ta] == '`' && cs[ta + 1] == '`' && cs[ta + 2] == '`';
        assert(fence == is_fence(t));
        if !open {
            if fence {
                let (la, lb) = trim_bounds(cs.as_slice(), ta + 3, tb);
                assert(t.skip(3) =~= cs@.subrange(ta + 3, tb as int));
                if rust_lang_at(&cs, la, lb) {
                    open = true;
                    current = Vec::new();
                    assert(views(current@) =~= Seq::<Seq<char>>::empty());
                }
            }
        } else if fence && tb - ta == 3 {
            let joined = join_strings(current.as_slice(), "\n");
            let block = crate::text::trim_str(joined.as_str());
            let bc = chars_of(block.as_str());
            if bc.len() > 0 {
                let ghost before = views(blocks@);
                blocks.push(block);
                assert(views(blocks@) =~= before.push(trim(join(views(current@), "\n"@))));
            }
            current = Vec::new();
            assert(views(current@) =~= Seq::<Seq<char>>::empty());
            open = false;
        } else {
            let ghost before = views(current@);
            current.push(string_from_range(cs.as_slice(), a, b));
            assert(views(current@) =~= before.push(line));
        }
        idx = idx + 1;
    }
    blocks
}

/// The header of an item: its text up to a function's body, or all of it,
/// without trailing whitespace.
pub open spec fn signature_of(s: Seq<char>, it: SourceItem) -> Seq<char> {
    match it.body {
        Some(b) => trim_end(s.subrange(it.start as int, b.0 as int)),
        None => trim_end(s.subrange(it.start as int, it.end as int)),
    }
}

/// End of `cs[from..to]` once trailing whitespace is removed.
fn trim_end_bound(cs: &Vec<char>, from: usize, to: usize) -> (r: usize)
    requires
        from <= to <= cs@.len(),
    ensures
        from <= r <= to,
        cs@.subrange(from as int, r as int) == trim_end(cs@.subrange(from as int, to as int)),
{
    let ghost t = cs@.subrange(from as int, to as int);
    let mut j = to;
    while j > from && is_whitespace(cs[j - 1])
        invariant
            from <= j <= to <= cs@.len(),
            t == cs@.subrange(from as int, to as int),
            trim_end_at(t, t.len() as int) == trim_end_at(t, j - from),
        decreases j,
    {
        j = j - 1;
    }
    assert(cs@.subrange(from as int, j as int) =~= t.take(j - from));
    j
}

fn signature_text(cs: &Vec<char>, it: &SourceItem) -> (r: String)
    requires
        item_wf(*it, cs@.len() as int),
    ensures
        r@ == signature_of(cs@, *it),
{
    let stop = match it.body {
        Some((a, _)) => a,
        None => it.end,
    };
    let e = trim_end_bound(cs, it.start, stop);
    string_from_range(cs.as_slice(), it.start, e)
}

/// Index where the type name after `impl ` stops: at `{`, `<` or
/// whitespace.
pub open spec fn head_end(r: Seq<char>, i: int) -> int
    decreases r.len() - i,
{
    if 0 <= i < r.len() && r[i] != '{' && r[i] != '<' && !is_ws(r[i]) {
        head_end(r, i + 1)
    } else {
        i
    }
}

/// The implemented type named right after `impl ` at the start of an impl
/// block's text.
pub open spec fn impl_target(snippet: Seq<char>) -> Option<Seq<char>> {
    let t = trim_start(snippet);
    if t.len() >= 5 && t.take(5) =~= seq!['i', 'm', 'p', 'l', ' '] {
        let rest = t.skip(5);
        let k = head_end(rest, 0);
        if k == 0 {
            None
        } else {
            Some(rest.take(k))
        }
    } else {
        None
    }
}

fn impl_target_at(cs: &Vec<char>, a: usize, b: usize) -> (r: Option<String>)
    requires
        a <= b <= cs@.len(),
    ensures
        crate::chunking::types::opt_view(r) == impl_target(cs@.subrange(a as int, b as int)),
{
    let (ta, _tb) = trim_bounds(cs.as_slice(), a, b);
    let ghost t = trim_start(cs@.subrange(a as int, b as int));
    assert(t == cs@.subrange(ta as int, b as int));
    if !(b - ta >= 5 && cs[ta] == 'i' && cs[ta + 1] == 'm' && cs[ta + 2] == 'p' && cs[ta + 3]
        == 'l' && cs[ta + 4] == ' ') {
        assert(!(t.len() >= 5 && t.take(5) =~= seq!['i', 'm', 'p', 'l', ' '])) by {
            if t.len() >= 5 && t.take(5) =~= seq!['i', 'm', 'p', 'l', ' '] {
                assert(t.take(5)[0] == t[0]);
                assert(t.take(5)[1] == t[1]);
                assert(t.take(5)[2] == t[2]);
                assert(t.take(5)[3] == t[3]);
                assert(t.take(5)[4] == t[4]);
            }
        }
        return None;
    }
    assert(t.take(5) =~= seq!['i', 'm', 'p', 'l', ' ']);
    let ghost rest = t.skip(5);
    assert(rest =~= cs@.subrange(ta + 5, b as int));
    let mut k = ta + 5;
    while k < b && cs[k] != '{' && cs[k] != '<' && !is_whitespace(cs[k])
        invariant
            ta + 5 <= k <= b <= cs@.len(),
            rest == cs@.subrange(ta + 5, b as int),
            head_end(rest, 0) == head_end(rest, k - (ta + 5)),
        decreases b - k,
    {
        k = k + 1;
    }
    if k == ta + 5 {
        None
    } else {
        assert(rest.take(k - (ta + 5)) =~= cs@.subrange(ta + 5, k as int));
        Some(string_from_range(cs.as_slice(), ta + 5, k))
    }
}

/// The type name of an impl block's text (`impl Foo {` gives `Foo`); none
/// when the text does not start with `impl ` followed by a name.
pub fn parse_impl_target_name(snippet: &str) -> (r: Option<String>)
    ensures
        crate::chunking::types::opt_view(r) == impl_target(snippet@),
{
    let cs = chars_of(snippet);
    assert(cs@.subrange(0, cs@.len() as int) =~= snippet@);
    impl_target_at(&cs, 0, cs.len())
}

/// What the chunks of one file are cut from: the file's path and text, the
/// body size above which a function's body gets a chunk of its own, and
/// the source root the file belongs to.
pub struct RustCtx {
    pub file_path: Seq<char>,
    pub s: Seq<char>,
    pub max_body: int,
    pub root: SourceRootKind,
}

/// The doctest chunk of index `i` of an item's doc comment.
pub open spec fn doctest_chunk(
    c: RustCtx,
    sp: Seq<char>,
    name: Seq<char>,
    sig: Seq<char>,
    start: int,
    d: (Seq<char>, int),
    i: int,
) -> ChunkView {
    range_chunk(
        c.file_path,
        c.s,
        ChunkKind::Doctest,
        start,
        d.1,
        MetaView {
            symbol_path: Some(sp),
            symbol_name: Some(name),
            owning_symbol_header: Some(sig),
            docs_text: Some(d.0),
            signature_text: Some(sig),
            parent_symbol_path: Some(sp),
            retrieval_markers: seq!["doctest"@, "example"@],
            repository_state_hints: seq!["tests"@, "examples"@],
            text_override: Some(rust_doctests(d.0)[i]),
            id_suffix: Some("doctest-"@ + decimal(i as nat)),
        },
    )
}

/// One chunk per Rust code block of an item's doc comment, covering the
/// comment.
pub open spec fn doctest_chunks(
    c: RustCtx,
    sp: Seq<char>,
    name: Seq<char>,
    sig: Seq<char>,
    start: int,
    doc: Option<(Seq<char>, int)>,
) -> Seq<ChunkView> {
    match doc {
        None => seq![],
        Some(d) => Seq::new(
            rust_doctests(d.0).len(),
            |i: int| doctest_chunk(c, sp, name, sig, start, d, i),
        ),
    }
}

pub open spec fn doc_text(doc: Option<(Seq<char>, int)>) -> Option<Seq<char>> {
    match doc {
        Some(d) => Some(d.0),
        None => None,
    }
}

/// Markers of a function's chunks: those of its root, plus `test` for a
/// `#[test]` function outside the integration tests.
pub open spec fn fn_markers(c: RustCtx, it: SourceItem) -> Seq<Seq<char>> {
    if it.is_test && c.root != SourceRootKind::IntegrationTests {
        root_markers_spec(c.root).push("test"@)
    } else {
        root_markers_spec(c.root)
    }
}

pub open spec fn fn_hints(c: RustCtx, it: SourceItem) -> Seq<Seq<char>> {
    if it.is_test && c.root != SourceRootKind::IntegrationTests {
        root_hints_spec(c.root).push("tests"@)
    } else {
        root_hints_spec(c.root)
    }
}

/// The chunks of a named function: the symbol; its body when the body is
/// longer than the limit in bytes; a test chunk for `#[test]` functions;
/// and its doctests.
pub open spec fn fn_chunks(c: RustCtx, it: SourceItem, mp: Seq<char>, name: Seq<char>) -> Seq<
    ChunkView,
> {
    let sp = mp + "::"@ + name;
    let sig = signature_of(c.s, it);
    let doc = doc_bundle(c.s, it.start as int, it.end as int);
    let symbol = range_chunk(
        c.file_path,
        c.s,
        ChunkKind::Symbol,
        it.start as int,
        it.end as int,
        MetaView {
            symbol_path: Some(sp),
            symbol_name: Some(name),
            owning_symbol_header: None,
            docs_text: doc_text(doc),
            signature_text: Some(sig),
            parent_symbol_path: Some(mp),
            retrieval_markers: fn_markers(c, it),
            repository_state_hints: fn_hints(c, it),
            text_override: None,
            id_suffix: None,
        },
    );
    let body = match it.body {
        Some(b) => if byte_at(c.s, b.1 as int) - byte_at(c.s, b.0 as int) > c.max_body {
            seq![
                range_chunk(
                    c.file_path,
                    c.s,
                    ChunkKind::BodyRegion,
                    b.0 as int,
                    b.1 as int,
                    MetaView {
                        symbol_path: Some(sp),
                        symbol_name: Some(name),
                        owning_symbol_header: Some(sig),
                        docs_text: None,
                        signature_text: Some(sig),
                        parent_symbol_path: Some(sp),
                        retrieval_markers: fn_markers(c, it),
                        repository_state_hints: fn_hints(c, it),
                        text_override: None,
                        id_suffix: None,
                    },
                ),
            ]
        } else {
            seq![]
        },
        None => seq![],
    };
    let test = if it.is_test {
        seq![
            range_chunk(
                c.file_path,
                c.s,
                ChunkKind::TestFunction,
                it.start as int,
                it.end as int,
                MetaView {
                    symbol_path: Some(sp),
                    symbol_name: Some(name),
                    owning_symbol_header: None,
                    docs_text: None,
                    signature_text: Some(sig),
                    parent_symbol_path: Some(mp),
                    retrieval_markers: seq!["test"@],
                    repository_state_hints: seq!["tests"@],
                    text_override: None,
                    id_suffix: None,
                },
            ),
        ]
    } else {
        seq![]
    };
    seq![symbol] + body + test + doctest_chunks(c, sp, name, sig, it.start as int, doc)
}

/// The chunk of a named struct, enum, trait or module, and its doctests.
pub open spec fn named_chunks(
    c: RustCtx,
    it: SourceItem,
    mp: Seq<char>,
    name: Seq<char>,
    kind: ChunkKind,
) -> Seq<ChunkView> {
    let sp = mp + "::"@ + name;
    let sig = signature_of(c.s, it);
    let doc = doc_bundle(c.s, it.start as int, it.end as int);
    seq![
        range_chunk(
            c.file_path,
            c.s,
            kind,
            it.start as int,
            it.end as int,
            MetaView {
                symbol_path: Some(sp),
                symbol_name: Some(name),
                owning_symbol_header: None,
                docs_text: doc_text(doc),
                signature_text: Some(sig),
                parent_symbol_path: Some(mp),
                retrieval_markers: root_markers_spec(c.root),
                repository_state_hints: root_hints_spec(c.root),
                text_override: None,
                id_suffix: None,
            },
        ),
    ] + doctest_chunks(c, sp, name, sig, it.start as int, doc)
}

/// `<module>::impl::<type>`, or `<module>::impl` when no type is named.
pub open spec fn impl_symbol(s: Seq<char>, it: SourceItem, mp: Seq<char>) -> Seq<char> {
    match impl_target(s.subrange(it.start as int, it.end as int)) {
        Some(t) => mp + "::impl::"@ + t,
        None => mp + "::impl"@,
    }
}

pub open spec fn impl_chunk(c: RustCtx, it: SourceItem, mp: Seq<char>) -> ChunkView {
    range_chunk(
        c.file_path,
        c.s,
        ChunkKind::Symbol,
        it.start as int,
        it.end as int,
        MetaView {
            symbol_path: Some(impl_symbol(c.s, it, mp)),
            symbol_name: Some("impl"@),
            owning_symbol_header: None,
            docs_text: None,
            signature_text: Some(signature_of(c.s, it)),
            parent_symbol_path: Some(mp),
            retrieval_markers: root_markers_spec(c.root),
            repository_state_hints: root_hints_spec(c.root),
            text_override: None,
            id_suffix: None,
        },
    )
}

pub open spec fn name_of(it: SourceItem) -> Option<Seq<char>> {
    crate::chunking::types::opt_view(it.name)
}

/// The chunks of one item of module `mp`; an error when a function,
/// struct, module, enum or trait has no name.
pub open spec fn item_chunks(c: RustCtx, it: SourceItem, mp: Seq<char>) -> Result<
    Seq<ChunkView>,
    (),
>
    decreases it,
{
    match it.kind {
        SourceItemKind::Function => match name_of(it) {
            Some(n) => Ok(fn_chunks(c, it, mp, n)),
            None => Err(()),
        },
        SourceItemKind::Struct | SourceItemKind::Enum | SourceItemKind::Trait => match name_of(
            it,
        ) {
            Some(n) => Ok(named_chunks(c, it, mp, n, ChunkKind::Symbol)),
            None => Err(()),
        },
        SourceItemKind::Module => match name_of(it) {
            Some(n) => match seq_chunks(c, it.items@, mp + "::"@ + n) {
                Ok(rest) => Ok(named_chunks(c, it, mp, n, ChunkKind::ModuleSummary) + rest),
                Err(_) => Err(()),
            },
            None => Err(()),
        },
        SourceItemKind::Impl => Ok(seq![impl_chunk(c, it, mp)]),
        SourceItemKind::Other => Ok(seq![]),
    }
}

/// The chunks of a list of items, in order.
pub open spec fn seq_chunks(c: RustCtx, items: Seq<SourceItem>, mp: Seq<char>) -> Result<
    Seq<ChunkView>,
    (),
>
    decreases items,
{
    if items.len() == 0 {
        Ok(seq![])
    } else {
        match seq_chunks(c, items.subrange(0, items.len() - 1), mp) {
            Ok(a) => match item_chunks(c, items[items.len() - 1], mp) {
                Ok(b) => Ok(a + b),
                Err(_) => Err(()),
            },
            Err(_) => Err(()),
        }
    }
}

pub proof fn lemma_seq_chunks_err(c: RustCtx, items: Seq<SourceItem>, mp: Seq<char>, k: int)
    requires
        0 <= k < items.len(),
        item_chunks(c, items[k], mp) is Err,
    ensures
        seq_chunks(c, items, mp) is Err,
    decreases items.len(),
{
    if k < items.len() - 1 {
        let p = items.subrange(0, items.len() - 1);
        assert(p[k] == items[k]);
        lemma_seq_chunks_err(c, p, mp, k);
    }
}

pub open spec fn named_item_error() -> Seq<char> {
    "expected named item"@
}

pub open spec fn ctx_of(file_path: Seq<char>, s: Seq<char>, max_body: usize, root: SourceRootKind) -> RustCtx {
    RustCtx { file_path, s, max_body: max_body as int, root }
}

fn some_clone(s: &String) -> (r: Option<String>)
    ensures
        crate::chunking::types::opt_view(r) == Some(s@),
{
    Some(s.clone())
}

fn path_join(mp: &str, name: &str) -> (r: String)
    ensures
        r@ == mp@ + "::"@ + name@,
{
    let mut r = String::new();
    push_str(&mut r, mp);
    push_str(&mut r, "::");
    push_str(&mut r, name);
    r
}

proof fn lemma_push_view(v: Seq<Chunk>, c: Chunk)
    ensures
        chunk_views(v.push(c)) =~= chunk_views(v).push(c@),
{
}

/// Appends the doctest chunks of an item's doc comment.
fn append_doctests(
    file_path: &str,
    cs: &Vec<char>,
    off: &Vec<usize>,
    Ghost(c): Ghost<RustCtx>,
    sp: &String,
    name: &String,
    sig: &String,
    start: usize,
    doc: &Option<(String, usize)>,
    chunks: &mut Vec<Chunk>,
)
    requires
        offsets_of(cs@, off@),
        c.file_path == file_path@,
        c.s == cs@,
        match doc {
            Some(d) => start <= d.1 <= cs@.len(),
            None => true,
        },
    ensures
        chunk_views(final(chunks)@) == chunk_views(old(chunks)@) + doctest_chunks(
            c,
            sp@,
            name@,
            sig@,
            start as int,
            match doc {
                Some(d) => Some((d.0@, d.1 as int)),
                None => None,
            },
        ),
{
    match doc {
        None => {
            assert(chunk_views(chunks@) =~= chunk_views(old(chunks)@) + Seq::<ChunkView>::empty());
        },
        Some((text, de)) => {
            let ghost d = (text@, *de as int);
            let codes = extract_rust_doctests(text.as_str());
            let ghost base = chunk_views(chunks@);
            let mut i: usize = 0;
            while i < codes.len()
                invariant
                    0 <= i <= codes@.len(),
                    offsets_of(cs@, off@),
                    c.file_path == file_path@,
                    c.s == cs@,
                    start <= *de <= cs@.len(),
                    d == (text@, *de as int),
                    views(codes@) == rust_doctests(text@),
                    chunk_views(chunks@) == base + Seq::new(
                        i as nat,
                        |k: int| doctest_chunk(c, sp@, name@, sig@, start as int, d, k),
                    ),
                decreases codes.len() - i,
            {
                let mut suffix = String::new();
                push_str(&mut suffix, "doctest-");
                push_decimal(&mut suffix, i as u64);
                let mut markers: Vec<String> = Vec::new();
                markers.push(lit("doctest"));
                markers.push(lit("example"));
                let mut hints: Vec<String> = Vec::new();
                hints.push(lit("tests"));
                hints.push(lit("examples"));
                assert(views(markers@) =~= seq!["doctest"@, "example"@]);
                assert(views(hints@) =~= seq!["tests"@, "examples"@]);
                let meta = ChunkMeta {
                    symbol_path: some_clone(sp),
                    symbol_name: some_clone(name),
                    owning_symbol_header: some_clone(sig),
                    docs_text: some_clone(text),
                    signature_text: some_clone(sig),
                    parent_symbol_path: some_clone(sp),
                    retrieval_markers: markers,
                    repository_state_hints: hints,
                    text_override: some_clone(&codes[i]),
                    id_suffix: Some(suffix),
                };
                assert(views(codes@)[i as int] == codes@[i as int]@);
                let ch = chunk_from_range(file_path, cs, off, ChunkKind::Doctest, start, *de, meta);
                assert(ch@ == doctest_chunk(c, sp@, name@, sig@, start as int, d, i as int));
                let ghost before = chunks@;
                chunks.push(ch);
                proof {
                    lemma_push_view(before, ch);
                }
                assert(Seq::new(
                    (i + 1) as nat,
                    |k: int| doctest_chunk(c, sp@, name@, sig@, start as int, d, k),
                ) =~= Seq::new(
                    i as nat,
                    |k: int| doctest_chunk(c, sp@, name@, sig@, start as int, d, k),
                ).push(ch@));
                i = i + 1;
            }
        },
    }
}

fn opt_doc_view(doc: &Option<(String, usize)>) -> (r: Ghost<Option<(Seq<char>, int)>>)
    ensures
        r@ == match doc {
            Some(d) => Some((d.0@, d.1 as int)),
            None => None,
        },
{
    Ghost(
        match doc {
            Some(d) => Some((d.0@, d.1 as int)),
            None => None,
        },
    )
}

fn doc_text_of(doc: &Option<(String, usize)>) -> (r: Option<String>)
    ensures
        crate::chunking::types::opt_view(r) == match doc {
            Some(d) => Some(d.0@),
            None => None,
        },
{
    match doc {
        Some(d) => Some(d.0.clone()),
        None => None,
    }
}

/// Appends the chunks of a named function.
fn collect_fn(
    file_path: &str,
    cs: &Vec<char>,
    off: &Vec<usize>,
    max_body: usize,
    root: SourceRootKind,
    it: &SourceItem,
    mp: &str,
    name: &String,
    chunks: &mut Vec<Chunk>,
)
    requires
        offsets_of(cs@, off@),
        item_wf(*it, cs@.len() as int),
    ensures
        chunk_views(final(chunks)@) == chunk_views(old(chunks)@) + fn_chunks(
            ctx_of(file_path@, cs@, max_body, root),
            *it,
            mp@,
            name@,
        ),
{
    let ghost c = ctx_of(file_path@, cs@, max_body, root);
    let sp = path_join(mp, name.as_str());
    let sig = signature_text(cs, it);
    let doc = doc_bundle_at(cs, it.start, it.end);
    let ghost dv = doc_bundle(cs@, it.start as int, it.end as int);
    let mut markers = root_markers(root);
    let mut hints = root_state_hints(root);
    if it.is_test && root != SourceRootKind::IntegrationTests {
        let ghost m0 = views(markers@);
        let ghost h0 = views(hints@);
        markers.push(lit("test"));
        hints.push(lit("tests"));
        assert(views(markers@) =~= m0.push("test"@));
        assert(views(hints@) =~= h0.push("tests"@));
    }
    assert(views(markers@) == fn_markers(c, *it));
    assert(views(hints@) == fn_hints(c, *it));
    let ghost base = chunk_views(chunks@);
    let sym = chunk_from_range(
        file_path,
        cs,
        off,
        ChunkKind::Symbol,
        it.start,
        it.end,
        ChunkMeta {
            symbol_path: some_clone(&sp),
            symbol_name: some_clone(name),
            owning_symbol_header: None,
            docs_text: doc_text_of(&doc),
            signature_text: some_clone(&sig),
            parent_symbol_path: Some(lit(mp)),
            retrieval_markers: crate::chunking::types::clone_strings(&markers),
            repository_state_hints: crate::chunking::types::clone_strings(&hints),
            text_override: None,
            id_suffix: None,
        },
    );
    let ghost v0 = chunks@;
    chunks.push(sym);
    proof {
        lemma_push_view(v0, sym);
    }
    let ghost body_seq: Seq<ChunkView> = seq![];
    match it.body {
        Some((ba, bb)) => {
            proof {
                lemma_offsets_bounded(cs@, off@, ba as int);
                lemma_offsets_bounded(cs@, off@, bb as int);
                lemma_byte_at_mono(cs@, ba as int, bb as int);
            }
            if off[bb] - off[ba] > max_body {
                let bc = chunk_from_range(
                    file_path,
                    cs,
                    off,
                    ChunkKind::BodyRegion,
                    ba,
                    bb,
                    ChunkMeta {
                        symbol_path: some_clone(&sp),
                        symbol_name: some_clone(name),
                        owning_symbol_header: some_clone(&sig),
                        docs_text: None,
                        signature_text: some_clone(&sig),
                        parent_symbol_path: some_clone(&sp),
                        retrieval_markers: crate::chunking::types::clone_strings(&markers),
                        repository_state_hints: crate::chunking::types::clone_strings(&hints),
                        text_override: None,
                        id_suffix: None,
                    },
                );
                let ghost v1 = chunks@;
                chunks.push(bc);
                proof {
                    lemma_push_view(v1, bc);
                    body_seq = seq![bc@];
                }
            }
        },
        None => {},
    }
    let ghost test_seq: Seq<ChunkView> = seq![];
    if it.is_test {
        let mut tm: Vec<String> = Vec::new();
        tm.push(lit("test"));
        let mut th: Vec<String> = Vec::new();
        th.push(lit("tests"));
        assert(views(tm@) =~= seq!["test"@]);
        assert(views(th@) =~= seq!["tests"@]);
        let tc = chunk_from_range(
            file_path,
            cs,
            off,
            ChunkKind::TestFunction,
            it.start,
            it.end,
            ChunkMeta {
                symbol_path: some_clone(&sp),
                symbol_name: some_clone(name),
                owning_symbol_header: None,
                docs_text: None,
                signature_text: some_clone(&sig),
                parent_symbol_path: Some(lit(mp)),
                retrieval_markers: tm,
                repository_state_hints: th,
                text_override: None,
                id_suffix: None,
            },
        );
        let ghost v2 = chunks@;
        chunks.push(tc);
        proof {
            lemma_push_view(v2, tc);
            test_seq = seq![tc@];
        }
    }
    append_doctests(file_path, cs, off, Ghost(c), &sp, name, &sig, it.start, &doc, chunks);
    assert(fn_chunks(c, *it, mp@, name@) =~= seq![sym@] + body_seq + test_seq + doctest_chunks(
        c,
        sp@,
        name@,
        sig@,
        it.start as int,
        dv,
    ));
    assert(chunk_views(chunks@) =~= base + fn_chunks(c, *it, mp@, name@));
}

/// Appends the chunks of a named struct, enum, trait or module (without the
/// module's items).
fn collect_named(
    file_path: &str,
    cs: &Vec<char>,
    off: &Vec<usize>,
    max_body: usize,
    root: SourceRootKind,
    it: &SourceItem,
    mp: &str,
    name: &String,
    kind: ChunkKind,
    chunks: &mut Vec<Chunk>,
)
    requires
        offsets_of(cs@, off@),
        item_wf(*it, cs@.len() as int),
    ensures
        chunk_views(final(chunks)@) == chunk_views(old(chunks)@) + named_chunks(
            ctx_of(file_path@, cs@, max_body, root),
            *it,
            mp@,
            name@,
            kind,
        ),
{
    let ghost c = ctx_of(file_path@, cs@, max_body, root);
    let sp = path_join(mp, name.as_str());
    let sig = signature_text(cs, it);
    let doc = doc_bundle_at(cs, it.start, it.end);
    let ghost base = chunk_views(chunks@);
    let sym = chunk_from_range(
        file_path,
        cs,
        off,
        kind,
        it.start,
        it.end,
        ChunkMeta {
            symbol_path: some_clone(&sp),
            symbol_name: some_clone(name),
            owning_symbol_header: None,
            docs_text: doc_text_of(&doc),
            signature_text: some_clone(&sig),
            parent_symbol_path: Some(lit(mp)),
            retrieval_markers: root_markers(root),
            repository_state_hints: root_state_hints(root),
            text_override: None,
            id_suffix: None,
        },
    );
    let ghost v0 = chunks@;
    chunks.push(sym);
    proof {
        lemma_push_view(v0, sym);
    }
    append_doctests(file_path, cs, off, Ghost(c), &sp, name, &sig, it.start, &doc, chunks);
    assert(chunk_views(chunks@) =~= base + named_chunks(c, *it, mp@, name@, kind));
}

fn collect_impl(
    file_path: &str,
    cs: &Vec<char>,
    off: &Vec<usize>,
    max_body: usize,
    root: SourceRootKind,
    it: &SourceItem,
    mp: &str,
    chunks: &mut Vec<Chunk>,
)
    requires
        offsets_of(cs@, off@),
        item_wf(*it, cs@.len() as int),
    ensures
        chunk_views(final(chunks)@) == chunk_views(old(chunks)@).push(
            impl_chunk(ctx_of(file_path@, cs@, max_body, root), *it, mp@),
        ),
{
    let sp = match impl_target_at(cs, it.start, it.end) {
        Some(t) => {
            let mut r = String::new();
            push_str(&mut r, mp);
            push_str(&mut r, "::impl::");
            push_str(&mut r, t.as_str());
            r
        },
        None => {
            let mut r = String::new();
            push_str(&mut r, mp);
            push_str(&mut r, "::impl");
            r
        },
    };
    let sig = signature_text(cs, it);
    let ch = chunk_from_range(
        file_path,
        cs,
        off,
        ChunkKind::Symbol,
        it.start,
        it.end,
        ChunkMeta {
            symbol_path: Some(sp),
            symbol_name: Some(lit("impl")),
            owning_symbol_header: None,
            docs_text: None,
            signature_text: Some(sig),
            parent_symbol_path: Some(lit(mp)),
            retrieval_markers: root_markers(root),
            repository_state_hints: root_state_hints(root),
            text_override: None,
            id_suffix: None,
        },
    );
    let ghost v0 = chunks@;
    chunks.push(ch);
    proof {
        lemma_push_view(v0, ch);
    }
}

/// Appends the chunks of one item of module `mp` (and, for a module, of
/// its items).
fn collect_item(
    file_path: &str,
    cs: &Vec<char>,
    off: &Vec<usize>,
    max_body: usize,
    root: SourceRootKind,
    it: &SourceItem,
    mp: &str,
    chunks: &mut Vec<Chunk>,
) -> (r: Result<(), String>)
    requires
        offsets_of(cs@, off@),
        item_wf(*it, cs@.len() as int),
    ensures
        match item_chunks(ctx_of(file_path@, cs@, max_body, root), *it, mp@) {
            Ok(v) => r is Ok && chunk_views(final(chunks)@) == chunk_views(old(chunks)@) + v,
            Err(_) => r is Err && r->Err_0@ == named_item_error(),
        },
    decreases *it,
{
    match it.kind {
        SourceItemKind::Function => match &it.name {
            Some(n) => {
                collect_fn(file_path, cs, off, max_body, root, it, mp, n, chunks);
                Ok(())
            },
            None => Err(lit("expected named item")),
        },
        SourceItemKind::Struct | SourceItemKind::Enum | SourceItemKind::Trait => match &it.name {
            Some(n) => {
                collect_named(file_path, cs, off, max_body, root, it, mp, n, ChunkKind::Symbol, chunks);
                Ok(())
            },
            None => Err(lit("expected named item")),
        },
        SourceItemKind::Module => match &it.name {
            Some(n) => {
                let ghost base = chunk_views(chunks@);
                collect_named(
                    file_path,
                    cs,
                    off,
                    max_body,
                    root,
                    it,
                    mp,
                    n,
                    ChunkKind::ModuleSummary,
                    chunks,
                );
                let nested = path_join(mp, n.as_str());
                let r = collect_seq(file_path, cs, off, max_body, root, &it.items, nested.as_str(), chunks);
                proof {
                    match seq_chunks(ctx_of(file_path@, cs@, max_body, root), it.items@, nested@) {
                        Ok(rest) => {
                            assert(chunk_views(chunks@) =~= base + (named_chunks(
                                ctx_of(file_path@, cs@, max_body, root),
                                *it,
                                mp@,
                                n@,
                                ChunkKind::ModuleSummary,
                            ) + rest));
                        },
                        Err(_) => {},
                    }
                }
                r
            },
            None => Err(lit("expected named item")),
        },
        SourceItemKind::Impl => {
            collect_impl(file_path, cs, off, max_body, root, it, mp, chunks);
            assert(chunk_views(chunks@) =~= chunk_views(old(chunks)@) + seq![
                impl_chunk(ctx_of(file_path@, cs@, max_body, root), *it, mp@),
            ]);
            Ok(())
        },
        SourceItemKind::Other => {
            assert(chunk_views(chunks@) =~= chunk_views(old(chunks)@) + Seq::<ChunkView>::empty());
            Ok(())
        },
    }
}

/// Appends the chunks of the items of module `mp`, in order. Fails with
/// `expected named item` when a function, struct, module, enum or trait
/// has no name.
pub fn collect_seq(
    file_path: &str,
    cs: &Vec<char>,
    off: &Vec<usize>,
    max_body: usize,
    root: SourceRootKind,
    items: &Vec<SourceItem>,
    mp: &str,
    chunks: &mut Vec<Chunk>,
) -> (r: Result<(), String>)
    requires
        offsets_of(cs@, off@),
        seq_wf(items@, cs@.len() as int),
    ensures
        match seq_chunks(ctx_of(file_path@, cs@, max_body, root), items@, mp@) {
            Ok(v) => r is Ok && chunk_views(final(chunks)@) == chunk_views(old(chunks)@) + v,
            Err(_) => r is Err && r->Err_0@ == named_item_error(),
        },
    decreases items@,
{
    let ghost c = ctx_of(file_path@, cs@, max_body, root);
    proof {
        lemma_seq_wf(items@, cs@.len() as int);
    }
    let ghost base = chunk_views(chunks@);
    let mut i: usize = 0;
    assert(items@.take(0) =~= Seq::<SourceItem>::empty());
    while i < items.len()
        invariant
            0 <= i <= items@.len(),
            offsets_of(cs@, off@),
            c == ctx_of(file_path@, cs@, max_body, root),
            forall|k: int| 0 <= k < items@.len() ==> #[trigger] item_wf(items@[k], cs@.len() as int),
            seq_chunks(c, items@.take(i as int), mp@) is Ok,
            chunk_views(chunks@) == base + seq_chunks(c, items@.take(i as int), mp@)->Ok_0,
        decreases items.len() - i,
    {
        let r = collect_item(file_path, cs, off, max_body, root, &items[i], mp, chunks);
        assert(items@.take(i + 1).subrange(0, i as int) =~= items@.take(i as int));
        assert(items@.take(i + 1)[i as int] == items@[i as int]);
        match r {
            Ok(()) => {},
            Err(e) => {
                proof {
                    lemma_seq_chunks_err(c, items@, mp@, i as int);
                }
                return Err(e);
            },
        }
        i = i + 1;
    }
    assert(items@.take(items@.len() as int) =~= items@);
    Ok(())
}

/// Position of the last `.` in `name[..i]`, or -1.
pub open spec fn last_dot(name: Seq<char>, i: int) -> int
    decreases i,
{
    if i <= 0 || i > name.len() {
        -1
    } else if name[i - 1] == '.' {
        i - 1
    } else {
        last_dot(name, i - 1)
    }
}

/// A file name without its extension (`Path::file_stem` on a single name:
/// a leading dot does not start an extension).
pub open spec fn strip_ext(name: Seq<char>) -> Seq<char> {
    let d = last_dot(name, name.len() as int);
    if d > 0 {
        name.take(d)
    } else {
        name
    }
}

/// The non-empty `/`-separated components of a path.
pub open spec fn path_parts(p: Seq<char>) -> Seq<Seq<char>> {
    split(p, seq!['/']).filter(|x: Seq<char>| x.len() > 0)
}

/// `Path::file_stem`: the last component without its extension.
pub open spec fn file_stem(p: Seq<char>) -> Option<Seq<char>> {
    let parts = path_parts(p);
    if parts.len() == 0 || parts.last() =~= seq!['.', '.'] {
        None
    } else {
        Some(strip_ext(parts.last()))
    }
}

fn strip_ext_at(cs: &Vec<char>, a: usize, b: usize) -> (r: usize)
    requires
        a <= b <= cs@.len(),
    ensures
        a <= r <= b,
        cs@.subrange(a as int, r as int) == strip_ext(cs@.subrange(a as int, b as int)),
{
    let ghost name = cs@.subrange(a as int, b as int);
    let mut i = b;
    while i > a && cs[i - 1] != '.'
        invariant
            a <= i <= b <= cs@.len(),
            name == cs@.subrange(a as int, b as int),
            last_dot(name, name.len() as int) == last_dot(name, i - a),
        decreases i,
    {
        i = i - 1;
    }
    if i > a && i - a > 1 {
        assert(cs@.subrange(a as int, (i - 1) as int) =~= name.take(i - 1 - a));
        i - 1
    } else {
        assert(cs@.subrange(a as int, b as int) =~= name);
        b
    }
}

/// The non-empty components of a path, as ranges of its characters.
fn path_part_ranges(cs: &Vec<char>) -> (r: Vec<(usize, usize)>)
    ensures
        r@.len() == path_parts(cs@).len(),
        forall|k: int|
            0 <= k < r@.len() ==> (#[trigger] r@[k]).0 <= r@[k].1 <= cs@.len()
                && path_parts(cs@)[k] == cs@.subrange(r@[k].0 as int, r@[k].1 as int),
{
    let slash: Vec<char> = vec!['/'];
    assert(slash@ =~= seq!['/']);
    let pieces = split_chars(cs.as_slice(), slash.as_slice());
    let ghost sp = split(cs@, seq!['/']);
    let ghost f = |x: Seq<char>| x.len() > 0;
    let mut out: Vec<(usize, usize)> = Vec::new();
    let mut k: usize = 0;
    assert(sp.take(0).filter(f) =~= Seq::<Seq<char>>::empty()) by {
        reveal(Seq::filter);
    }
    while k < pieces.len()
        invariant
            0 <= k <= pieces@.len(),
            sp == split(cs@, seq!['/']),
            sp.len() == pieces@.len(),
            f == (|x: Seq<char>| x.len() > 0),
            as_int_pairs(pieces@) == split_ranges(cs@, seq!['/']),
            forall|q: int| 0 <= q < pieces@.len() ==> (#[trigger] pieces@[q]).0 <= pieces@[q].1 <= cs@.len(),
            out@.len() == sp.take(k as int).filter(f).len(),
            forall|q: int|
                0 <= q < out@.len() ==> (#[trigger] out@[q]).0 <= out@[q].1 <= cs@.len()
                    && sp.take(k as int).filter(f)[q] == cs@.subrange(out@[q].0 as int, out@[q].1 as int),
        decreases pieces.len() - k,
    {
        let (x, y) = pieces[k];
        assert(as_int_pairs(pieces@)[k as int] == (x as int, y as int));
        assert(sp[k as int] == cs@.subrange(x as int, y as int));
        assert(sp.take(k + 1) =~= sp.take(k as int).push(sp[k as int]));
        let ghost before = sp.take(k as int).filter(f);
        assert(sp.take(k as int).push(sp[k as int]).filter(f) == if f(sp[k as int]) {
            before.push(sp[k as int])
        } else {
            before
        }) by {
            sp.take(k as int).lemma_filter_push(sp[k as int], f);
        }
        if x < y {
            out.push((x, y));
        }
        k = k + 1;
    }
    assert(sp.take(pieces@.len() as int) =~= sp);
    out
}

/// The stem of the file named by a path.
fn file_stem_of(path: &str) -> (r: Option<String>)
    ensures
        crate::chunking::types::opt_view(r) == file_stem(path@),
{
    let cs = chars_of(path);
    let parts = path_part_ranges(&cs);
    if parts.len() == 0 {
        return None;
    }
    let (a, b) = parts[parts.len() - 1];
    assert(path_parts(path@).last() == cs@.subrange(a as int, b as int));
    if b - a == 2 && cs[a] == '.' && cs[a + 1] == '.' {
        assert(cs@.subrange(a as int, b as int) =~= seq!['.', '.']);
        return None;
    }
    assert(!(cs@.subrange(a as int, b as int) =~= seq!['.', '.'])) by {
        if cs@.subrange(a as int, b as int) =~= seq!['.', '.'] {
            assert(cs@.subrange(a as int, b as int)[0] == cs@[a as int]);
            assert(cs@.subrange(a as int, b as int)[1] == cs@[a + 1]);
        }
    }
    let e = strip_ext_at(&cs, a, b);
    Some(string_from_range(cs.as_slice(), a, e))
}

pub open spec fn is_lib_or_main(x: Seq<char>) -> bool {
    x =~= seq!['l', 'i', 'b'] || x =~= seq!['m', 'a', 'i', 'n']
}

/// The module segments a file contributes: its path components with the
/// extension of the last one removed; none for a root `lib.rs` or
/// `main.rs`.
pub open spec fn file_segments(relative: Seq<char>) -> Seq<Seq<char>> {
    let parts = path_parts(relative);
    if parts.len() == 0 {
        seq![]
    } else {
        let segs = parts.drop_last().push(strip_ext(parts.last()));
        if segs.len() == 1 && is_lib_or_main(segs[0]) {
            seq![]
        } else {
            segs
        }
    }
}

pub open spec fn root_segments(kind: SourceRootKind) -> Seq<Seq<char>> {
    match kind {
        SourceRootKind::Src => seq![],
        SourceRootKind::Examples => seq!["examples"@],
        SourceRootKind::IntegrationTests => seq!["integration_tests"@],
    }
}

/// `crate[::examples|::integration_tests]::<file segments>`.
pub open spec fn module_path_spec(crate_name: Seq<char>, relative: Seq<char>, kind: SourceRootKind) -> Seq<char> {
    join(seq![crate_name] + root_segments(kind) + file_segments(relative), "::"@)
}

/// The module path of a Rust file from its path relative to its source
/// root.
pub fn module_path_for_file(crate_name: &str, relative: &str, root_kind: SourceRootKind) -> (r: String)
    ensures
        r@ == module_path_spec(crate_name@, relative@, root_kind),
{
    let mut segments: Vec<String> = Vec::new();
    segments.push(lit(crate_name));
    match root_kind {
        SourceRootKind::Src => {},
        SourceRootKind::Examples => segments.push(lit("examples")),
        SourceRootKind::IntegrationTests => segments.push(lit("integration_tests")),
    }
    assert(views(segments@) =~= seq![crate_name@] + root_segments(root_kind));
    let ghost head = views(segments@);
    let cs = chars_of(relative);
    let parts = path_part_ranges(&cs);
    let ghost pp = path_parts(relative@);
    if parts.len() > 0 {
        let n = parts.len();
        let (la, lb) = parts[n - 1];
        let le = strip_ext_at(&cs, la, lb);
        let ghost segs = pp.drop_last().push(strip_ext(pp.last()));
        let single = n == 1 && ((le - la == 3 && cs[la] == 'l' && cs[la + 1] == 'i' && cs[la + 2]
            == 'b') || (le - la == 4 && cs[la] == 'm' && cs[la + 1] == 'a' && cs[la + 2] == 'i'
            && cs[la + 3] == 'n'));
        assert(segs[n - 1] == cs@.subrange(la as int, le as int));
        assert(single == (segs.len() == 1 && is_lib_or_main(segs[0]))) by {
            let x = cs@.subrange(la as int, le as int);
            if x =~= seq!['l', 'i', 'b'] {
                assert(x[0] == cs@[la as int] && x[1] == cs@[la + 1] && x[2] == cs@[la + 2]);
            }
            if x =~= seq!['m', 'a', 'i', 'n'] {
                assert(x[0] == cs@[la as int] && x[1] == cs@[la + 1] && x[2] == cs@[la + 2] && x[3]
                    == cs@[la + 3]);
            }
        }
        if !single {
            let mut k: usize = 0;
            while k < n
                invariant
                    0 <= k <= n,
                    n == parts@.len(),
                    n == pp.len(),
                    n > 0,
                    pp == path_parts(cs@),
                    cs@ == relative@,
                    (la, lb) == parts@[n - 1],
                    segs == pp.drop_last().push(strip_ext(pp.last())),
                    segs[n - 1] == cs@.subrange(la as int, le as int),
                    la <= le <= lb <= cs@.len(),
                    forall|q: int|
                        0 <= q < parts@.len() ==> (#[trigger] parts@[q]).0 <= parts@[q].1 <= cs@.len()
                            && pp[q] == cs@.subrange(parts@[q].0 as int, parts@[q].1 as int),
                    views(segments@) == head + segs.take(k as int),
                decreases n - k,
            {
                let ghost before = views(segments@);
                if k + 1 == n {
                    segments.push(string_from_range(cs.as_slice(), la, le));
                } else {
                    let (a, b) = parts[k];
                    assert(segs[k as int] == pp[k as int]);
                    segments.push(string_from_range(cs.as_slice(), a, b));
                }
                assert(views(segments@) =~= before.push(segs[k as int]));
                assert(segs.take(k + 1) =~= segs.take(k as int).push(segs[k as int]));
                k = k + 1;
            }
            assert(segs.take(n as int) =~= segs);
        } else {
            assert(head + Seq::<Seq<char>>::empty() =~= head);
        }
    } else {
        assert(head + Seq::<Seq<char>>::empty() =~= head);
    }
    join_strings(segments.as_slice(), "::")
}

pub open spec fn lead_quotes(t: Seq<char>, i: int) -> int
    decreases t.len() - i,
{
    if 0 <= i < t.len() && t[i] == '"' {
        lead_quotes(t, i + 1)
    } else {
        i
    }
}

pub open spec fn trail_quotes(t: Seq<char>, j: int) -> int
    decreases j,
{
    if 0 < j <= t.len() && t[j - 1] == '"' {
        trail_quotes(t, j - 1)
    } else {
        j
    }
}

/// `str::trim_matches('"')`.
pub open spec fn trim_quotes(t: Seq<char>) -> Seq<char> {
    let a = lead_quotes(t, 0);
    let b = trail_quotes(t, t.len() as int);
    if a < b {
        t.subrange(a, b)
    } else {
        seq![]
    }
}

pub open spec fn name_prefix() -> Seq<char> {
    seq!['n', 'a', 'm', 'e', ' ', '=', ' ']
}

/// The value of a `name = "..."` line.
pub open spec fn name_line(line: Seq<char>) -> Option<Seq<char>> {
    let t = trim(line);
    if t.len() >= 7 && t.take(7) =~= name_prefix() {
        Some(trim_quotes(t.skip(7)))
    } else {
        None
    }
}

/// The value of the first `name = ` line from line `i` on.
pub open spec fn first_name(ls: Seq<Seq<char>>, i: int) -> Option<Seq<char>>
    decreases ls.len() - i,
{
    if i < 0 || i >= ls.len() {
        None
    } else {
        match name_line(ls[i]) {
            Some(x) => Some(x),
            None => first_name(ls, i + 1),
        }
    }
}

pub open spec fn missing_crate_name() -> Seq<char> {
    "missing crate name"@
}

/// The crate name of a `Cargo.toml`: the value of its first line that
/// reads `name = ...`, with the quotes around it removed.
pub fn crate_name_from_manifest(manifest: &str) -> (r: Result<String, String>)
    ensures
        match first_name(lines(manifest@), 0) {
            Some(x) => r is Ok && r->Ok_0@ == x,
            None => r is Err && r->Err_0@ == missing_crate_name(),
        },
{
    let cs = chars_of(manifest);
    let bounds = line_bounds(cs.as_slice());
    let ghost ls = lines(manifest@);
    assert(ls.len() == bounds@.len());
    assert forall|j: int| 0 <= j < bounds@.len() implies (#[trigger] bounds@[j]).0 <= bounds@[j].1
        <= cs@.len() && ls[j] == cs@.subrange(bounds@[j].0 as int, bounds@[j].1 as int) by {
        assert(as_int_pairs(bounds@)[j] == (bounds@[j].0 as int, bounds@[j].1 as int));
    }
    let mut i: usize = 0;
    while i < bounds.len()
        invariant
            0 <= i <= bounds@.len(),
            cs@ == manifest@,
            ls == lines(manifest@),
            ls.len() == bounds@.len(),
            forall|j: int|
                0 <= j < bounds@.len() ==> (#[trigger] bounds@[j]).0 <= bounds@[j].1 <= cs@.len()
                    && ls[j] == cs@.subrange(bounds@[j].0 as int, bounds@[j].1 as int),
            first_name(ls, 0) == first_name(ls, i as int),
        decreases bounds.len() - i,
    {
        let (a, b) = bounds[i];
        let (ta, tb) = trim_bounds(cs.as_slice(), a, b);
        let ghost t = trim(ls[i as int]);
        assert(t == cs@.subrange(ta as int, tb as int));
        if tb - ta >= 7 && cs[ta] == 'n' && cs[ta + 1] == 'a' && cs[ta + 2] == 'm' && cs[ta + 3]
            == 'e' && cs[ta + 4] == ' ' && cs[ta + 5] == '=' && cs[ta + 6] == ' ' {
            assert(t.take(7) =~= name_prefix());
            let ghost v = t.skip(7);
            assert(v =~= cs@.subrange(ta + 7, tb as int));
            let mut x = ta + 7;
            while x < tb && cs[x] == '"'
                invariant
                    ta + 7 <= x <= tb <= cs@.len(),
                    v == cs@.subrange(ta + 7, tb as int),
                    lead_quotes(v, 0) == lead_quotes(v, x - (ta + 7)),
                decreases tb - x,
            {
                x = x + 1;
            }
            let mut y = tb;
            while y > ta + 7 && cs[y - 1] == '"'
                invariant
                    ta + 7 <= y <= tb <= cs@.len(),
                    v == cs@.subrange(ta + 7, tb as int),
                    trail_quotes(v, v.len() as int) == trail_quotes(v, y - (ta + 7)),
                decreases y,
            {
                y = y - 1;
            }
            if x < y {
                assert(v.subrange(x - (ta + 7), y - (ta + 7)) =~= cs@.subrange(x as int, y as int));
                return Ok(string_from_range(cs.as_slice(), x, y));
            } else {
                return Ok(String::new());
            }
        }
        assert(!(t.len() >= 7 && t.take(7) =~= name_prefix())) by {
            if t.len() >= 7 && t.take(7) =~= name_prefix() {
                assert(t.take(7)[0] == t[0] && t.take(7)[1] == t[1] && t.take(7)[2] == t[2]);
                assert(t.take(7)[3] == t[3] && t.take(7)[4] == t[4] && t.take(7)[5] == t[5]);
                assert(t.take(7)[6] == t[6]);
            }
        }
        i = i + 1;
    }
    Err(lit("missing crate name"))
}

/// The summary chunk of a whole file: an example file for the examples
/// root, a crate summary otherwise.
pub open spec fn file_chunk_view(c: RustCtx, mp: Seq<char>) -> ChunkView {
    range_chunk(
        c.file_path,
        c.s,
        if c.root == SourceRootKind::Examples {
            ChunkKind::ExampleFile
        } else {
            ChunkKind::CrateSummary
        },
        0,
        c.s.len() as int,
        MetaView {
            symbol_path: Some(mp),
            symbol_name: file_stem(c.file_path),
            owning_symbol_header: None,
            docs_text: None,
            signature_text: None,
            parent_symbol_path: None,
            retrieval_markers: root_markers_spec(c.root),
            repository_state_hints: root_hints_spec(c.root),
            text_override: None,
            id_suffix: None,
        },
    )
}

fn file_chunk(
    file_path: &str,
    cs: &Vec<char>,
    off: &Vec<usize>,
    mod_path: &str,
    max_body: usize,
    root: SourceRootKind,
) -> (c: Chunk)
    requires
        offsets_of(cs@, off@),
    ensures
        c@ == file_chunk_view(ctx_of(file_path@, cs@, max_body, root), mod_path@),
{
    let kind = match root {
        SourceRootKind::Examples => ChunkKind::ExampleFile,
        _ => ChunkKind::CrateSummary,
    };
    chunk_from_range(
        file_path,
        cs,
        off,
        kind,
        0,
        cs.len(),
        ChunkMeta {
            symbol_path: Some(lit(mod_path)),
            symbol_name: file_stem_of(file_path),
            owning_symbol_header: None,
            docs_text: None,
            signature_text: None,
            parent_symbol_path: None,
            retrieval_markers: root_markers(root),
            repository_state_hints: root_state_hints(root),
            text_override: None,
            id_suffix: None,
        },
    )
}

/// The chunks of a Rust file whose items are `items`: its summary, then
/// the chunks of each item in order; an error when an item lacks a name.
pub open spec fn rust_file_chunks(
    c: RustCtx,
    mod_path: Seq<char>,
    items: Seq<SourceItem>,
) -> Result<Seq<ChunkView>, ()> {
    match seq_chunks(c, items, mod_path) {
        Ok(v) => Ok(seq![file_chunk_view(c, mod_path)] + v),
        Err(_) => Err(()),
    }
}

/// The items of a Rust source file as the chunker reads them: the items
/// the parser finds, converted to character positions (see
/// `items_conv`; the conversion is unique up to `seq_same`).
pub open spec fn file_items(s: Seq<char>) -> Seq<SourceItem> {
    choose|items: Seq<SourceItem>| items_conv(items, parsed_items(s), s, 0, s.len() as int)
}

/// Agreeing items have the same chunks.
proof fn lemma_item_chunks_same(c: RustCtx, x: SourceItem, y: SourceItem, mp: Seq<char>)
    requires
        item_same(x, y),
    ensures
        item_chunks(c, x, mp) == item_chunks(c, y, mp),
    decreases x,
{
    if x.kind == SourceItemKind::Module {
        if let Some(n) = name_of(x) {
            lemma_seq_chunks_same(c, x.items@, y.items@, mp + "::"@ + n);
        }
    }
}

/// Agreeing item lists have the same chunks.
proof fn lemma_seq_chunks_same(c: RustCtx, a: Seq<SourceItem>, b: Seq<SourceItem>, mp: Seq<char>)
    requires
        seq_same(a, b),
    ensures
        seq_chunks(c, a, mp) == seq_chunks(c, b, mp),
    decreases a,
{
    if a.len() > 0 {
        lemma_seq_chunks_same(c, a.subrange(0, a.len() - 1), b.subrange(0, b.len() - 1), mp);
        lemma_item_chunks_same(c, a[a.len() - 1], b[b.len() - 1], mp);
    }
}

/// Appends the chunks of the items of a Rust file to `chunks`, in order:
/// one per function, struct, enum and trait (and module, followed by the
/// module's items), with the body regions, test chunks and doctests they
/// call for, and one per impl block. The items must lie inside `source`.
pub fn collect_items(
    source: &str,
    file_path: &str,
    mod_path: &str,
    items: &Vec<SourceItem>,
    max_body_bytes: usize,
    source_root_kind: SourceRootKind,
    chunks: &mut Vec<Chunk>,
) -> (r: Result<(), String>)
    requires
        byte_len(source@) <= u32::MAX,
        seq_wf(items@, source@.len() as int),
    ensures
        match seq_chunks(
            ctx_of(file_path@, source@, max_body_bytes, source_root_kind),
            items@,
            mod_path@,
        ) {
            Ok(v) => r is Ok && chunk_views(final(chunks)@) == chunk_views(old(chunks)@) + v,
            Err(_) => r is Err && r->Err_0@ == named_item_error(),
        },
{
    let cs = chars_of(source);
    let off = byte_offsets(cs.as_slice());
    collect_seq(file_path, &cs, &off, max_body_bytes, source_root_kind, items, mod_path, chunks)
}

/// The chunks of one Rust file: its summary chunk and the chunks of its
/// items as parsed by `ra_ap_syntax` (see [`collect_items`]).
pub fn chunk_rust_file(
    file_path: &str,
    source: &str,
    mod_path: &str,
    source_root_kind: SourceRootKind,
    max_body_bytes: usize,
) -> (r: Result<Vec<Chunk>, String>)
    requires
        byte_len(source@) <= u32::MAX,
    ensures
        seq_wf(file_items(source@), source@.len() as int),
        match rust_file_chunks(
            ctx_of(file_path@, source@, max_body_bytes, source_root_kind),
            mod_path@,
            file_items(source@),
        ) {
            Ok(v) => r is Ok && chunk_views(r->Ok_0@) == v,
            Err(_) => r is Err && r->Err_0@ == named_item_error(),
        },
{
    let cs = chars_of(source);
    let off = byte_offsets(cs.as_slice());
    let items = source_items(source);
    proof {
        lemma_seq_wf(items@, source@.len() as int);
        let chosen = file_items(source@);
        assert(items_conv(chosen, parsed_items(source@), source@, 0, source@.len() as int));
        lemma_items_conv_unique(items@, chosen, parsed_items(source@), source@, 0, source@.len() as int);
        lemma_items_conv_wf(chosen, parsed_items(source@), source@, 0, source@.len() as int);
        lemma_seq_chunks_same(ctx_of(file_path@, source@, max_body_bytes, source_root_kind), items@, chosen, mod_path@);
    }
    let mut chunks: Vec<Chunk> = Vec::new();
    chunks.push(file_chunk(file_path, &cs, &off, mod_path, max_body_bytes, source_root_kind));
    let ghost first = chunk_views(chunks@);
    match collect_seq(
        file_path,
        &cs,
        &off,
        max_body_bytes,
        source_root_kind,
        &items,
        mod_path,
        &mut chunks,
    ) {
        Ok(()) => {
            assert(first =~= seq![file_chunk_view(ctx_of(file_path@, source@, max_body_bytes, source_root_kind), mod_path@)]);
            Ok(chunks)
        },
        Err(e) => Err(e),
    }
}

/// Chunks Rust files and repository documents: functions whose body is
/// longer than `max_body_bytes` get a chunk of their own for the body,
/// and documents are classified by the document rules.
#[derive(Debug)]
pub struct RustChunker {
    max_body_bytes: usize,
    document_sources: DocumentSourcesConfig,
}

impl RustChunker {
    pub closed spec fn max_body(&self) -> usize {
        self.max_body_bytes
    }

    pub closed spec fn document_rules(&self) -> Seq<DocumentSourceRule> {
        self.document_sources.rules@
    }

    /// A chunker with the default document rules.
    pub fn new(max_body_bytes: usize) -> (r: Self)
        ensures
            r.max_body() == max_body_bytes,
            is_default_rules(r.document_rules()),
    {
        RustChunker { max_body_bytes, document_sources: DocumentSourcesConfig::default() }
    }

    pub fn new_with_document_sources(
        max_body_bytes: usize,
        document_sources: DocumentSourcesConfig,
    ) -> (r: Self)
        ensures
            r.max_body() == max_body_bytes,
            r.document_rules() == document_sources.rules@,
    {
        RustChunker { max_body_bytes, document_sources }
    }

    /// The chunks of one Rust file of a source root (see
    /// [`chunk_rust_file`]).
    pub fn chunk_file(
        &self,
        file_path: &str,
        source: &str,
        mod_path: &str,
        source_root_kind: SourceRootKind,
    ) -> (r: Result<Vec<Chunk>, String>)
        requires
            byte_len(source@) <= u32::MAX,
        ensures
            seq_wf(file_items(source@), source@.len() as int),
            match rust_file_chunks(
                ctx_of(file_path@, source@, self.max_body(), source_root_kind),
                mod_path@,
                file_items(source@),
            ) {
                Ok(v) => r is Ok && chunk_views(r->Ok_0@) == v,
                Err(_) => r is Err && r->Err_0@ == named_item_error(),
            },
    {
        chunk_rust_file(file_path, source, mod_path, source_root_kind, self.max_body_bytes)
    }

    /// The chunks of one repository document under this chunker's rules.
    pub fn chunk_document(
        &self,
        crate_name: &str,
        file_path: &str,
        relative_path: &str,
        body: &str,
    ) -> (r: Result<Vec<Chunk>, String>)
        ensures
            match document_chunks(crate_name@, file_path@, relative_path@, body@, self.document_rules()) {
                Ok(v) => r is Ok && chunk_views(r->Ok_0@) == v,
                Err(e) => r is Err && r->Err_0@ == e,
            },
    {
        document_chunks_for_file(
            crate_name,
            file_path,
            relative_path,
            body,
            &self.document_sources.rules,
        )
    }
}

/// The source roots of a crate, in the order they are read: `src`,
/// `examples`, then `tests`.
pub fn source_roots() -> (r: Vec<(SourceRootKind, &'static str)>)
    ensures
        r@.len() == 3,
        r@[0].0 == SourceRootKind::Src && r@[0].1@ == "src"@,
        r@[1].0 == SourceRootKind::Examples && r@[1].1@ == "examples"@,
        r@[2].0 == SourceRootKind::IntegrationTests && r@[2].1@ == "tests"@,
{
    let mut v: Vec<(SourceRootKind, &'static str)> = Vec::new();
    v.push((SourceRootKind::Src, "src"));
    v.push((SourceRootKind::Examples, "examples"));
    v.push((SourceRootKind::IntegrationTests, "tests"));
    v
}

/// Chunk `w` covers characters `a..b` of `s`: its span is their byte
/// offsets and, unless it is a doctest (whose text is the code block), its
/// text is exactly those characters.
pub open spec fn cut_at(s: Seq<char>, w: ChunkView, a: int, b: int) -> bool {
    &&& 0 <= a <= b <= s.len()
    &&& w.start as int == byte_at(s, a)
    &&& w.end as int == byte_at(s, b)
    &&& w.kind != ChunkKind::Doctest ==> w.text == s.subrange(a, b)
}

pub open spec fn cut_from(s: Seq<char>, w: ChunkView) -> bool {
    exists|a: int, b: int| #[trigger] cut_at(s, w, a, b)
}

proof fn lemma_range_chunk_cut(fp: Seq<char>, s: Seq<char>, kind: ChunkKind, a: int, b: int, m: MetaView)
    requires
        0 <= a <= b <= s.len(),
        byte_len(s) <= u32::MAX,
        m.text_override is None || kind == ChunkKind::Doctest,
    ensures
        cut_from(s, range_chunk(fp, s, kind, a, b, m)),
{
    lemma_byte_at_mono(s, a, s.len() as int);
    lemma_byte_at_mono(s, b, s.len() as int);
    assert(s.take(s.len() as int) =~= s);
    assert(cut_at(s, range_chunk(fp, s, kind, a, b, m), a, b));
}

proof fn lemma_doc_bundle_bounds(s: Seq<char>, start: int, end: int)
    requires
        0 <= start <= end <= s.len(),
    ensures
        doc_bundle(s, start, end) is Some ==> start <= (doc_bundle(s, start, end)->0).1 <= end,
{
    lemma_doc_scan_bounds(s, start, end, seq![]);
}

proof fn lemma_doctests_cut(c: RustCtx, sp: Seq<char>, name: Seq<char>, sig: Seq<char>, it: SourceItem)
    requires
        item_wf(it, c.s.len() as int),
        byte_len(c.s) <= u32::MAX,
    ensures
        forall|k: int| 0 <= k < doctest_chunks(c, sp, name, sig, it.start as int, doc_bundle(c.s, it.start as int, it.end as int)).len()
            ==> cut_from(c.s, #[trigger] doctest_chunks(c, sp, name, sig, it.start as int, doc_bundle(c.s, it.start as int, it.end as int))[k]),
{
    let doc = doc_bundle(c.s, it.start as int, it.end as int);
    lemma_doc_bundle_bounds(c.s, it.start as int, it.end as int);
    match doc {
        None => {},
        Some(d) => {
            assert forall|k: int| 0 <= k < doctest_chunks(c, sp, name, sig, it.start as int, doc).len()
                implies cut_from(c.s, #[trigger] doctest_chunks(c, sp, name, sig, it.start as int, doc)[k]) by {
                lemma_range_chunk_cut(c.file_path, c.s, ChunkKind::Doctest, it.start as int, d.1, MetaView {
                    symbol_path: Some(sp),
                    symbol_name: Some(name),
                    owning_symbol_header: Some(sig),
                    docs_text: Some(d.0),
                    signature_text: Some(sig),
                    parent_symbol_path: Some(sp),
                    retrieval_markers: seq!["doctest"@, "example"@],
                    repository_state_hints: seq!["tests"@, "examples"@],
                    text_override: Some(rust_doctests(d.0)[k]),
                    id_suffix: Some("doctest-"@ + decimal(k as nat)),
                });
            }
        },
    }
}

proof fn lemma_named_cut(c: RustCtx, it: SourceItem, mp: Seq<char>, name: Seq<char>, kind: ChunkKind)
    requires
        item_wf(it, c.s.len() as int),
        byte_len(c.s) <= u32::MAX,
        kind != ChunkKind::Doctest,
    ensures
        forall|k: int| 0 <= k < named_chunks(c, it, mp, name, kind).len() ==> cut_from(c.s, #[trigger] named_chunks(c, it, mp, name, kind)[k]),
{
    let sp = mp + "::"@ + name;
    let sig = signature_of(c.s, it);
    let doc = doc_bundle(c.s, it.start as int, it.end as int);
    let v = named_chunks(c, it, mp, name, kind);
    let first = v[0];
    lemma_range_chunk_cut(c.file_path, c.s, kind, it.start as int, it.end as int, MetaView {
        symbol_path: Some(sp),
        symbol_name: Some(name),
        owning_symbol_header: None,
        docs_text: doc_text(doc),
        signature_text: Some(sig),
        parent_symbol_path: Some(mp),
        retrieval_markers: root_markers_spec(c.root),
        repository_state_hints: root_hints_spec(c.root),
        text_override: None,
        id_suffix: None,
    });
    lemma_doctests_cut(c, sp, name, sig, it);
    assert forall|k: int| 0 <= k < v.len() implies cut_from(c.s, #[trigger] v[k]) by {
        if k > 0 {
            assert(v[k] == doctest_chunks(c, sp, name, sig, it.start as int, doc)[k - 1]);
        }
    }
}

proof fn lemma_fn_cut(c: RustCtx, it: SourceItem, mp: Seq<char>, name: Seq<char>)
    requires
        item_wf(it, c.s.len() as int),
        byte_len(c.s) <= u32::MAX,
    ensures
        forall|k: int| 0 <= k < fn_chunks(c, it, mp, name).len() ==> cut_from(c.s, #[trigger] fn_chunks(c, it, mp, name)[k]),
{
    let sp = mp + "::"@ + name;
    let sig = signature_of(c.s, it);
    let doc = doc_bundle(c.s, it.start as int, it.end as int);
    let v = fn_chunks(c, it, mp, name);
    let symbol = MetaView {
        symbol_path: Some(sp),
        symbol_name: Some(name),
        owning_symbol_header: None,
        docs_text: doc_text(doc),
        signature_text: Some(sig),
        parent_symbol_path: Some(mp),
        retrieval_markers: fn_markers(c, it),
        repository_state_hints: fn_hints(c, it),
        text_override: None,
        id_suffix: None,
    };
    lemma_range_chunk_cut(c.file_path, c.s, ChunkKind::Symbol, it.start as int, it.end as int, symbol);
    let body: Seq<ChunkView> = match it.body {
        Some(b) => if byte_at(c.s, b.1 as int) - byte_at(c.s, b.0 as int) > c.max_body {
            let m = MetaView {
                symbol_path: Some(sp),
                symbol_name: Some(name),
                owning_symbol_header: Some(sig),
                docs_text: None,
                signature_text: Some(sig),
                parent_symbol_path: Some(sp),
                retrieval_markers: fn_markers(c, it),
                repository_state_hints: fn_hints(c, it),
                text_override: None,
                id_suffix: None,
            };
            lemma_range_chunk_cut(c.file_path, c.s, ChunkKind::BodyRegion, b.0 as int, b.1 as int, m);
            seq![range_chunk(c.file_path, c.s, ChunkKind::BodyRegion, b.0 as int, b.1 as int, m)]
        } else {
            seq![]
        },
        None => seq![],
    };
    let tm = MetaView {
        symbol_path: Some(sp),
        symbol_name: Some(name),
        owning_symbol_header: None,
        docs_text: None,
        signature_text: Some(sig),
        parent_symbol_path: Some(mp),
        retrieval_markers: seq!["test"@],
        repository_state_hints: seq!["tests"@],
        text_override: None,
        id_suffix: None,
    };
    lemma_range_chunk_cut(c.file_path, c.s, ChunkKind::TestFunction, it.start as int, it.end as int, tm);
    let test: Seq<ChunkView> = if it.is_test {
        seq![range_chunk(c.file_path, c.s, ChunkKind::TestFunction, it.start as int, it.end as int, tm)]
    } else {
        seq![]
    };
    let dts = doctest_chunks(c, sp, name, sig, it.start as int, doc);
    lemma_doctests_cut(c, sp, name, sig, it);
    let head = seq![range_chunk(c.file_path, c.s, ChunkKind::Symbol, it.start as int, it.end as int, symbol)];
    assert(v =~= head + body + test + dts);
    assert forall|k: int| 0 <= k < v.len() implies cut_from(c.s, #[trigger] v[k]) by {
        if k == 0 {
            assert(v[k] == head[0]);
        } else if k < 1 + body.len() {
            assert(v[k] == body[k - 1]);
        } else if k < 1 + body.len() + test.len() {
            assert(v[k] == test[k - 1 - body.len()]);
        } else {
            assert(v[k] == dts[k - 1 - body.len() - test.len()]);
        }
    }
}

/// Every chunk of an item is cut from the source (see [`cut_at`]).
pub proof fn lemma_item_chunks_cut(c: RustCtx, it: SourceItem, mp: Seq<char>)
    requires
        item_wf(it, c.s.len() as int),
        byte_len(c.s) <= u32::MAX,
    ensures
        item_chunks(c, it, mp) is Ok ==> forall|k: int|
            0 <= k < item_chunks(c, it, mp)->Ok_0.len() ==> cut_from(c.s, #[trigger] item_chunks(c, it, mp)->Ok_0[k]),
    decreases it,
{
    match it.kind {
        SourceItemKind::Function => {
            if let Some(n) = name_of(it) {
                lemma_fn_cut(c, it, mp, n);
            }
        },
        SourceItemKind::Struct | SourceItemKind::Enum | SourceItemKind::Trait => {
            if let Some(n) = name_of(it) {
                lemma_named_cut(c, it, mp, n, ChunkKind::Symbol);
            }
        },
        SourceItemKind::Module => {
            if let Some(n) = name_of(it) {
                lemma_named_cut(c, it, mp, n, ChunkKind::ModuleSummary);
                lemma_seq_chunks_cut(c, it.items@, mp + "::"@ + n);
                if let Ok(rest) = seq_chunks(c, it.items@, mp + "::"@ + n) {
                    let head = named_chunks(c, it, mp, n, ChunkKind::ModuleSummary);
                    let v = head + rest;
                    assert forall|k: int| 0 <= k < v.len() implies cut_from(c.s, #[trigger] v[k]) by {
                        if k < head.len() {
                            assert(v[k] == head[k]);
                        } else {
                            assert(v[k] == rest[k - head.len()]);
                        }
                    }
                }
            }
        },
        SourceItemKind::Impl => {
            lemma_range_chunk_cut(c.file_path, c.s, ChunkKind::Symbol, it.start as int, it.end as int, MetaView {
                symbol_path: Some(impl_symbol(c.s, it, mp)),
                symbol_name: Some("impl"@),
                owning_symbol_header: None,
                docs_text: None,
                signature_text: Some(signature_of(c.s, it)),
                parent_symbol_path: Some(mp),
                retrieval_markers: root_markers_spec(c.root),
                repository_state_hints: root_hints_spec(c.root),
                text_override: None,
                id_suffix: None,
            });
            assert(item_chunks(c, it, mp)->Ok_0[0] == impl_chunk(c, it, mp));
        },
        SourceItemKind::Other => {},
    }
}

/// Every chunk of a list of items is cut from the source.
pub proof fn lemma_seq_chunks_cut(c: RustCtx, items: Seq<SourceItem>, mp: Seq<char>)
    requires
        seq_wf(items, c.s.len() as int),
        byte_len(c.s) <= u32::MAX,
    ensures
        seq_chunks(c, items, mp) is Ok ==> forall|k: int|
            0 <= k < seq_chunks(c, items, mp)->Ok_0.len() ==> cut_from(c.s, #[trigger] seq_chunks(c, items, mp)->Ok_0[k]),
    decreases items,
{
    if items.len() > 0 {
        let p = items.subrange(0, items.len() - 1);
        let last = items[items.len() - 1];
        lemma_seq_chunks_cut(c, p, mp);
        lemma_item_chunks_cut(c, last, mp);
        if let Ok(a) = seq_chunks(c, p, mp) {
            if let Ok(b) = item_chunks(c, last, mp) {
                let v = a + b;
                assert forall|k: int| 0 <= k < v.len() implies cut_from(c.s, #[trigger] v[k]) by {
                    if k < a.len() {
                        assert(v[k] == a[k]);
                    } else {
                        assert(v[k] == b[k - a.len()]);
                    }
                }
            }
        }
    }
}

/// The chunks of a Rust file are cut from it: each one's span is the byte
/// range of a stretch of the source, and every chunk but a doctest holds
/// exactly that stretch as its text; chunking never rewrites the source.
pub proof fn lemma_rust_file_chunks_cut(c: RustCtx, mod_path: Seq<char>, items: Seq<SourceItem>)
    requires
        seq_wf(items, c.s.len() as int),
        byte_len(c.s) <= u32::MAX,
    ensures
        rust_file_chunks(c, mod_path, items) is Ok ==> forall|k: int|
            0 <= k < rust_file_chunks(c, mod_path, items)->Ok_0.len() ==> cut_from(
                c.s,
                #[trigger] rust_file_chunks(c, mod_path, items)->Ok_0[k],
            ),
{
    lemma_seq_chunks_cut(c, items, mod_path);
    let f = file_chunk_view(c, mod_path);
    lemma_range_chunk_cut(c.file_path, c.s, if c.root == SourceRootKind::Examples {
        ChunkKind::ExampleFile
    } else {
        ChunkKind::CrateSummary
    }, 0, c.s.len() as int, MetaView {
        symbol_path: Some(mod_path),
        symbol_name: file_stem(c.file_path),
        owning_symbol_header: None,
        docs_text: None,
        signature_text: None,
        parent_symbol_path: None,
        retrieval_markers: root_markers_spec(c.root),
        repository_state_hints: root_hints_spec(c.root),
        text_override: None,
        id_suffix: None,
    });
    if let Ok(rest) = seq_chunks(c, items, mod_path) {
        let v = seq![f] + rest;
        assert forall|k: int| 0 <= k < v.len() implies cut_from(c.s, #[trigger] v[k]) by {
            if k > 0 {
                assert(v[k] == rest[k - 1]);
            }
        }
    }
}

} // verus!
