use crate::text::{views};
use vstd::prelude::*;

verus! {

/// What a chunk stands for in the retrieval index.
#[derive(Debug, Clone, Copy, PartialEq, Eq, Structural)]
pub enum ChunkKind {
    CrateSummary,
    ModuleSummary,
    Symbol,
    BodyRegion,
    TestFunction,
    ExampleFile,
    Doctest,
    DocumentBlock,
    TaskRow,
}

/// Byte offsets of a chunk in its file (line numbers for document blocks,
/// row numbers for task rows).
#[derive(Debug, Clone, Copy, PartialEq, Eq, Structural)]
pub struct SourceSpan {
    pub start_byte: u32,
    pub end_byte: u32,
}

#[derive(Debug, Clone, PartialEq, Eq)]
pub struct Chunk {
    pub id: String,
    pub kind: ChunkKind,
    pub file_path: String,
    pub span: SourceSpan,
    pub symbol_path: Option<String>,
    pub symbol_name: Option<String>,
    pub owning_symbol_header: Option<String>,
    pub docs_text: Option<String>,
    pub signature_text: Option<String>,
    pub parent_symbol_path: Option<String>,
    pub retrieval_markers: Vec<String>,
    pub repository_state_hints: Vec<String>,
    pub text: String,
}

/// The character content of an optional string.
pub open spec fn opt_view(o: Option<String>) -> Option<Seq<char>> {
    match o {
        Some(s) => Some(s@),
        None => None,
    }
}

/// A chunk as plain values.
pub struct ChunkView {
    pub id: Seq<char>,
    pub kind: ChunkKind,
    pub file_path: Seq<char>,
    pub start: u32,
    pub end: u32,
    pub symbol_path: Option<Seq<char>>,
    pub symbol_name: Option<Seq<char>>,
    pub owning_symbol_header: Option<Seq<char>>,
    pub docs_text: Option<Seq<char>>,
    pub signature_text: Option<Seq<char>>,
    pub parent_symbol_path: Option<Seq<char>>,
    pub retrieval_markers: Seq<Seq<char>>,
    pub repository_state_hints: Seq<Seq<char>>,
    pub text: Seq<char>,
}

impl View for Chunk {
    type V = ChunkView;

    open spec fn view(&self) -> ChunkView {
        ChunkView {
            id: self.id@,
            kind: self.kind,
            file_path: self.file_path@,
            start: self.span.start_byte,
            end: self.span.end_byte,
            symbol_path: opt_view(self.symbol_path),
            symbol_name: opt_view(self.symbol_name),
            owning_symbol_header: opt_view(self.owning_symbol_header),
            docs_text: opt_view(self.docs_text),
            signature_text: opt_view(self.signature_text),
            parent_symbol_path: opt_view(self.parent_symbol_path),
            retrieval_markers: views(self.retrieval_markers@),
            repository_state_hints: views(self.repository_state_hints@),
            text: self.text@,
        }
    }
}

pub open spec fn chunk_views(v: Seq<Chunk>) -> Seq<ChunkView> {
    v.map_values(|c: Chunk| c@)
}

pub fn clone_opt(o: &Option<String>) -> (r: Option<String>)
    ensures
        opt_view(r) == opt_view(*o),
{
    match o {
        Some(s) => Some(s.clone()),
        None => None,
    }
}

/// A copy of a list of strings.
pub fn clone_strings(v: &Vec<String>) -> (r: Vec<String>)
    ensures
        views(r@) == views(v@),
{
    let mut out: Vec<String> = Vec::new();
    let mut i: usize = 0;
    while i < v.len()
        invariant
            0 <= i <= v@.len(),
            views(out@) == views(v@.take(i as int)),
        decreases v.len() - i,
    {
        out.push(v[i].clone());
        assert(views(v@.take(i + 1)) =~= views(v@.take(i as int)).push(v@[i as int]@));
        assert(views(out@) =~= views(v@.take(i + 1)));
        i = i + 1;
    }
    assert(v@.take(v@.len() as int) =~= v@);
    out
}

/// A deep copy of a chunk.
pub fn clone_chunk(c: &Chunk) -> (r: Chunk)
    ensures
        r@ == c@,
{
    Chunk {
        id: c.id.clone(),
        kind: c.kind,
        file_path: c.file_path.clone(),
        span: SourceSpan { start_byte: c.span.start_byte, end_byte: c.span.end_byte },
        symbol_path: clone_opt(&c.symbol_path),
        symbol_name: clone_opt(&c.symbol_name),
        owning_symbol_header: clone_opt(&c.owning_symbol_header),
        docs_text: clone_opt(&c.docs_text),
        signature_text: clone_opt(&c.signature_text),
        parent_symbol_path: clone_opt(&c.parent_symbol_path),
        retrieval_markers: clone_strings(&c.retrieval_markers),
        repository_state_hints: clone_strings(&c.repository_state_hints),
        text: c.text.clone(),
    }
}

/// A string built from a literal.
pub fn lit(s: &str) -> (r: String)
    ensures
        r@ == s@,
{
    String::from_str(s)
}

} // verus!
