//! The records the metadata store keeps about snapshots, chunks, documents,
//! history, links, indexing runs and queries.
use crate::chunking::types::{clone_opt, clone_strings, lit, opt_view, Chunk, ChunkKind};
use crate::semantic::{edge_kind_name, parse_edge_kind, SemanticEdge, SemanticEdgeKind};
use crate::snapshot::SnapshotKey;
use crate::text::views;
use vstd::prelude::*;

verus! {

#[derive(Debug, Clone, PartialEq, Eq)]
pub struct SnapshotRecord {
    pub id: String,
    pub key: SnapshotKey,
    pub last_indexed_chunk_count: Option<u64>,
    pub last_query_mode: Option<String>,
}

/// A chunk as stored for a snapshot; the kind is stored by its name.
#[derive(Debug, Clone, PartialEq, Eq)]
pub struct ChunkRecord {
    pub chunk_id: String,
    pub snapshot_id: String,
    pub chunk_kind: String,
    pub symbol_path: Option<String>,
    pub symbol_name: Option<String>,
    pub owning_symbol_header: Option<String>,
    pub docs_text: Option<String>,
    pub signature_text: Option<String>,
    pub parent_symbol_path: Option<String>,
    pub retrieval_markers: Vec<String>,
    pub repository_state_hints: Vec<String>,
    pub file_path: String,
    pub start_byte: u32,
    pub end_byte: u32,
    pub text: String,
}

/// The name a chunk kind is stored under (its variant name).
pub open spec fn kind_record_name(k: ChunkKind) -> Seq<char> {
    match k {
        ChunkKind::CrateSummary => "CrateSummary"@,
        ChunkKind::ModuleSummary => "ModuleSummary"@,
        ChunkKind::Symbol => "Symbol"@,
        ChunkKind::BodyRegion => "BodyRegion"@,
        ChunkKind::TestFunction => "TestFunction"@,
        ChunkKind::ExampleFile => "ExampleFile"@,
        ChunkKind::Doctest => "Doctest"@,
        ChunkKind::DocumentBlock => "DocumentBlock"@,
        ChunkKind::TaskRow => "TaskRow"@,
    }
}

pub fn kind_record_label(k: ChunkKind) -> (r: &'static str)
    ensures
        r@ == kind_record_name(k),
{
    match k {
        ChunkKind::CrateSummary => "CrateSummary",
        ChunkKind::ModuleSummary => "ModuleSummary",
        ChunkKind::Symbol => "Symbol",
        ChunkKind::BodyRegion => "BodyRegion",
        ChunkKind::TestFunction => "TestFunction",
        ChunkKind::ExampleFile => "ExampleFile",
        ChunkKind::Doctest => "Doctest",
        ChunkKind::DocumentBlock => "DocumentBlock",
        ChunkKind::TaskRow => "TaskRow",
    }
}

impl ChunkRecord {
    /// The record of a chunk of snapshot `snapshot_id`: the chunk's fields,
    /// with its kind by name and its span as two offsets.
    pub fn from_chunk(snapshot_id: &str, chunk: &Chunk) -> (r: Self)
        ensures
            r.chunk_id@ == chunk.id@,
            r.snapshot_id@ == snapshot_id@,
            r.chunk_kind@ == kind_record_name(chunk.kind),
            opt_view(r.symbol_path) == opt_view(chunk.symbol_path),
            opt_view(r.symbol_name) == opt_view(chunk.symbol_name),
            opt_view(r.owning_symbol_header) == opt_view(chunk.owning_symbol_header),
            opt_view(r.docs_text) == opt_view(chunk.docs_text),
            opt_view(r.signature_text) == opt_view(chunk.signature_text),
            opt_view(r.parent_symbol_path) == opt_view(chunk.parent_symbol_path),
            views(r.retrieval_markers@) == views(chunk.retrieval_markers@),
            views(r.repository_state_hints@) == views(chunk.repository_state_hints@),
            r.file_path@ == chunk.file_path@,
            r.start_byte == chunk.span.start_byte,
            r.end_byte == chunk.span.end_byte,
            r.text@ == chunk.text@,
    {
        ChunkRecord {
            chunk_id: chunk.id.clone(),
            snapshot_id: lit(snapshot_id),
            chunk_kind: lit(kind_record_label(chunk.kind)),
            symbol_path: clone_opt(&chunk.symbol_path),
            symbol_name: clone_opt(&chunk.symbol_name),
            owning_symbol_header: clone_opt(&chunk.owning_symbol_header),
            docs_text: clone_opt(&chunk.docs_text),
            signature_text: clone_opt(&chunk.signature_text),
            parent_symbol_path: clone_opt(&chunk.parent_symbol_path),
            retrieval_markers: clone_strings(&chunk.retrieval_markers),
            repository_state_hints: clone_strings(&chunk.repository_state_hints),
            file_path: chunk.file_path.clone(),
            start_byte: chunk.span.start_byte,
            end_byte: chunk.span.end_byte,
            text: chunk.text.clone(),
        }
    }
}

impl ChunkRecord {
    /// A field-by-field copy.
    pub fn clone_record(&self) -> (r: Self)
        ensures
            r.chunk_id == self.chunk_id,
            r.snapshot_id == self.snapshot_id,
            r.chunk_kind == self.chunk_kind,
            opt_view(r.symbol_path) == opt_view(self.symbol_path),
            opt_view(r.symbol_name) == opt_view(self.symbol_name),
            opt_view(r.owning_symbol_header) == opt_view(self.owning_symbol_header),
            opt_view(r.docs_text) == opt_view(self.docs_text),
            opt_view(r.signature_text) == opt_view(self.signature_text),
            opt_view(r.parent_symbol_path) == opt_view(self.parent_symbol_path),
            views(r.retrieval_markers@) == views(self.retrieval_markers@),
            views(r.repository_state_hints@) == views(self.repository_state_hints@),
            r.file_path == self.file_path,
            r.start_byte == self.start_byte,
            r.end_byte == self.end_byte,
            r.text == self.text,
    {
        ChunkRecord {
            chunk_id: self.chunk_id.clone(),
            snapshot_id: self.snapshot_id.clone(),
            chunk_kind: self.chunk_kind.clone(),
            symbol_path: clone_opt(&self.symbol_path),
            symbol_name: clone_opt(&self.symbol_name),
            owning_symbol_header: clone_opt(&self.owning_symbol_header),
            docs_text: clone_opt(&self.docs_text),
            signature_text: clone_opt(&self.signature_text),
            parent_symbol_path: clone_opt(&self.parent_symbol_path),
            retrieval_markers: clone_strings(&self.retrieval_markers),
            repository_state_hints: clone_strings(&self.repository_state_hints),
            file_path: self.file_path.clone(),
            start_byte: self.start_byte,
            end_byte: self.end_byte,
            text: self.text.clone(),
        }
    }
}

/// A Markdown section or CSV row as stored for a snapshot.
#[derive(Debug, Clone, PartialEq, Eq)]
pub struct DocumentBlockRecord {
    pub block_id: String,
    pub snapshot_id: String,
    pub file_path: String,
    pub document_kind: String,
    pub parser: String,
    pub heading_path: Vec<String>,
    pub start_line: u32,
    pub end_line: u32,
    pub text: String,
}

impl DocumentBlockRecord {
    pub fn new(
        block_id: &str,
        snapshot_id: &str,
        file_path: &str,
        document_kind: &str,
        parser: &str,
        heading_path: Vec<String>,
        start_line: u32,
        end_line: u32,
        text: &str,
    ) -> (r: Self)
        ensures
            r.block_id@ == block_id@,
            r.snapshot_id@ == snapshot_id@,
            r.file_path@ == file_path@,
            r.document_kind@ == document_kind@,
            r.parser@ == parser@,
            r.heading_path == heading_path,
            r.start_line == start_line,
            r.end_line == end_line,
            r.text@ == text@,
    {
        DocumentBlockRecord {
            block_id: lit(block_id),
            snapshot_id: lit(snapshot_id),
            file_path: lit(file_path),
            document_kind: lit(document_kind),
            parser: lit(parser),
            heading_path,
            start_line,
            end_line,
            text: lit(text),
        }
    }
}

/// A commit (or other history node) of a snapshot's history.
#[derive(Debug, Clone, PartialEq, Eq)]
pub struct HistoryNodeRecord {
    pub node_id: String,
    pub snapshot_id: String,
    pub node_kind: String,
    pub subject: Option<String>,
    pub summary: String,
}

impl HistoryNodeRecord {
    pub fn new(
        node_id: &str,
        snapshot_id: &str,
        node_kind: &str,
        subject: Option<String>,
        summary: &str,
    ) -> (r: Self)
        ensures
            r.node_id@ == node_id@,
            r.snapshot_id@ == snapshot_id@,
            r.node_kind@ == node_kind@,
            r.subject == subject,
            r.summary@ == summary@,
    {
        HistoryNodeRecord {
            node_id: lit(node_id),
            snapshot_id: lit(snapshot_id),
            node_kind: lit(node_kind),
            subject,
            summary: lit(summary),
        }
    }
}

/// A lineage edge between two history nodes; its confidence is in
/// thousandths.
#[derive(Debug, Clone, PartialEq, Eq)]
pub struct LineageEdgeRecord {
    pub edge_id: String,
    pub snapshot_id: String,
    pub from_node_id: String,
    pub to_node_id: String,
    pub edge_kind: String,
    pub evidence: Option<String>,
    pub confidence_milli: u32,
}

pub struct LineageEdgeView {
    pub edge_id: Seq<char>,
    pub snapshot_id: Seq<char>,
    pub from_node_id: Seq<char>,
    pub to_node_id: Seq<char>,
    pub edge_kind: Seq<char>,
    pub evidence: Option<Seq<char>>,
    pub confidence_milli: u32,
}

impl View for LineageEdgeRecord {
    type V = LineageEdgeView;

    open spec fn view(&self) -> LineageEdgeView {
        LineageEdgeView {
            edge_id: self.edge_id@,
            snapshot_id: self.snapshot_id@,
            from_node_id: self.from_node_id@,
            to_node_id: self.to_node_id@,
            edge_kind: self.edge_kind@,
            evidence: opt_view(self.evidence),
            confidence_milli: self.confidence_milli,
        }
    }
}

impl LineageEdgeRecord {
    pub fn new(
        edge_id: &str,
        snapshot_id: &str,
        from_node_id: &str,
        to_node_id: &str,
        edge_kind: &str,
        evidence: Option<String>,
        confidence_milli: u32,
    ) -> (r: Self)
        ensures
            r@ == (LineageEdgeView {
                edge_id: edge_id@,
                snapshot_id: snapshot_id@,
                from_node_id: from_node_id@,
                to_node_id: to_node_id@,
                edge_kind: edge_kind@,
                evidence: opt_view(evidence),
                confidence_milli,
            }),
    {
        LineageEdgeRecord {
            edge_id: lit(edge_id),
            snapshot_id: lit(snapshot_id),
            from_node_id: lit(from_node_id),
            to_node_id: lit(to_node_id),
            edge_kind: lit(edge_kind),
            evidence,
            confidence_milli,
        }
    }
}

/// A link between chunks as stored for a snapshot; the kind by its name.
#[derive(Debug, Clone, PartialEq, Eq)]
pub struct EdgeRecord {
    pub edge_id: String,
    pub snapshot_id: String,
    pub from_chunk_id: String,
    pub to_chunk_id: String,
    pub edge_kind: String,
    pub from_symbol_path: Option<String>,
    pub to_symbol_path: Option<String>,
}

impl EdgeRecord {
    pub fn from_semantic_edge(snapshot_id: &str, edge: &SemanticEdge) -> (r: Self)
        ensures
            r.edge_id@ == edge.edge_id@,
            r.snapshot_id@ == snapshot_id@,
            r.from_chunk_id@ == edge.from_chunk_id@,
            r.to_chunk_id@ == edge.to_chunk_id@,
            r.edge_kind@ == edge_kind_name(edge.kind),
            opt_view(r.from_symbol_path) == opt_view(edge.from_symbol_path),
            opt_view(r.to_symbol_path) == opt_view(edge.to_symbol_path),
    {
        EdgeRecord {
            edge_id: edge.edge_id.clone(),
            snapshot_id: lit(snapshot_id),
            from_chunk_id: edge.from_chunk_id.clone(),
            to_chunk_id: edge.to_chunk_id.clone(),
            edge_kind: lit(edge.kind.as_str()),
            from_symbol_path: clone_opt(&edge.from_symbol_path),
            to_symbol_path: clone_opt(&edge.to_symbol_path),
        }
    }

    /// The kind named by the record, if it names one.
    pub fn semantic_kind(&self) -> (r: Option<SemanticEdgeKind>)
        ensures
            r == parse_edge_kind(self.edge_kind@),
    {
        SemanticEdgeKind::parse(self.edge_kind.as_str())
    }
}

/// The record of a link gives back the link's kind.
pub proof fn lemma_edge_record_kind(r: EdgeRecord, e: SemanticEdge)
    requires
        r.edge_kind@ == edge_kind_name(e.kind),
    ensures
        parse_edge_kind(r.edge_kind@) == Some(e.kind),
{
    crate::semantic::lemma_edge_kind_roundtrip(e.kind);
}

#[derive(Debug, Clone, PartialEq, Eq)]
pub struct IndexingRunRecord {
    pub snapshot_id: String,
    pub status: String,
    pub chunk_count: u64,
}

impl IndexingRunRecord {
    pub fn new(snapshot_id: &str, status: &str, chunk_count: u64) -> (r: Self)
        ensures
            r.snapshot_id@ == snapshot_id@,
            r.status@ == status@,
            r.chunk_count == chunk_count,
    {
        IndexingRunRecord { snapshot_id: lit(snapshot_id), status: lit(status), chunk_count }
    }
}

#[derive(Debug, Clone, PartialEq, Eq)]
pub struct QueryAuditRecord {
    pub snapshot_id: String,
    pub query_mode: String,
    pub query_text: String,
    pub result_count: u64,
}

impl QueryAuditRecord {
    pub fn new(snapshot_id: &str, query_mode: &str, query_text: &str, result_count: u64) -> (r: Self)
        ensures
            r.snapshot_id@ == snapshot_id@,
            r.query_mode@ == query_mode@,
            r.query_text@ == query_text@,
            r.result_count == result_count,
    {
        QueryAuditRecord {
            snapshot_id: lit(snapshot_id),
            query_mode: lit(query_mode),
            query_text: lit(query_text),
            result_count,
        }
    }
}

} // verus!
