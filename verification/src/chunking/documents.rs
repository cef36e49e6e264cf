//! Chunks of the repository's documents: Markdown sections and CSV task
//! rows, classified by the document rules.
use crate::chunking::csv::{
    chunk_csv_rows, conversion_error, csv_rows_fit, csv_rows_upto, csv_views, CsvRowChunk,
    CsvRowView,
};
use crate::chunking::markdown::{chunk_markdown, md_final, md_views, MarkdownChunk, MarkdownChunkView};
use crate::chunking::types::{chunk_views, lit, Chunk, ChunkKind, ChunkView, SourceSpan};
use crate::config::{
    document_kind_name, first_matching_rule, classify_document_source, DocumentSourceParser,
    DocumentSourceRule,
};
use crate::text::{decimal, digit, digit_char, join, join_strings, lines, push_char, push_decimal, push_str, views};
use vstd::prelude::*;

verus! {

/// `doc_rank_weight:<weight>` with the weight written with three decimals.
pub open spec fn weight_marker(w: u32) -> Seq<char> {
    "doc_rank_weight:"@ + decimal((w / 1000) as nat) + "."@ + seq![
        digit_char(((w % 1000) / 100) as nat),
        digit_char(((w % 100) / 10) as nat),
        digit_char((w % 10) as nat),
    ]
}

pub fn weight_marker_text(w: u32) -> (r: String)
    ensures
        r@ == weight_marker(w),
{
    let mut r = lit("doc_rank_weight:");
    push_decimal(&mut r, (w / 1000) as u64);
    push_str(&mut r, ".");
    push_char(&mut r, digit(((w % 1000) / 100) as u64));
    push_char(&mut r, digit(((w % 100) / 10) as u64));
    push_char(&mut r, digit((w % 10) as u64));
    r
}

pub open spec fn heading_symbol(heading_path: Seq<Seq<char>>) -> Seq<char> {
    if heading_path.len() == 0 {
        "root"@
    } else {
        join(heading_path, "::"@)
    }
}

/// The chunk of one Markdown section.
pub open spec fn section_chunk(
    crate_name: Seq<char>,
    kind: Seq<char>,
    marker: Seq<char>,
    sec: MarkdownChunkView,
) -> ChunkView {
    ChunkView {
        id: sec.id,
        kind: ChunkKind::DocumentBlock,
        file_path: sec.file_path,
        start: sec.start_line as u32,
        end: sec.end_line as u32,
        symbol_path: Some(crate_name + "::docs::"@ + heading_symbol(sec.heading_path)),
        symbol_name: if sec.heading_path.len() == 0 {
            None
        } else {
            Some(sec.heading_path.last())
        },
        owning_symbol_header: None,
        docs_text: None,
        signature_text: None,
        parent_symbol_path: Some(crate_name + "::docs"@),
        retrieval_markers: seq!["document"@, kind, marker],
        repository_state_hints: seq!["docs"@],
        text: sec.text,
    }
}

/// The chunk of one task row.
pub open spec fn row_chunk(
    crate_name: Seq<char>,
    kind: Seq<char>,
    marker: Seq<char>,
    row: CsvRowView,
) -> ChunkView {
    ChunkView {
        id: row.id,
        kind: ChunkKind::TaskRow,
        file_path: row.file_path,
        start: row.row_number as u32,
        end: row.row_number as u32,
        symbol_path: Some(crate_name + "::docs::tasks::row_"@ + decimal(row.row_number as nat)),
        symbol_name: Some("row_"@ + decimal(row.row_number as nat)),
        owning_symbol_header: None,
        docs_text: None,
        signature_text: None,
        parent_symbol_path: Some(crate_name + "::docs::tasks"@),
        retrieval_markers: seq!["document"@, kind, marker],
        repository_state_hints: seq!["docs"@, "tasks"@],
        text: row.text,
    }
}

/// The chunks of a document at `relative` (stored under `file_path`): none
/// when no rule matches; otherwise the Markdown sections or CSV rows of
/// its body under the first matching rule, or the splitter's error.
pub open spec fn document_chunks(
    crate_name: Seq<char>,
    file_path: Seq<char>,
    relative: Seq<char>,
    body: Seq<char>,
    rules: Seq<DocumentSourceRule>,
) -> Result<Seq<ChunkView>, Seq<char>> {
    match first_matching_rule(relative, rules, 0) {
        None => Ok(seq![]),
        Some(i) => {
            let kind = document_kind_name(rules[i].kind);
            let marker = weight_marker(rules[i].weight_milli);
            let ls = lines(body);
            match rules[i].parser {
                DocumentSourceParser::Markdown => {
                    let fin = md_final(file_path, kind, ls);
                    if fin.failed {
                        Err(conversion_error())
                    } else {
                        Ok(
                            fin.chunks.map_values(
                                |sec: MarkdownChunkView| section_chunk(crate_name, kind, marker, sec),
                            ),
                        )
                    }
                },
                DocumentSourceParser::Csv => {
                    if ls.len() > 0 && !csv_rows_fit(ls, ls.len() as int) {
                        Err(conversion_error())
                    } else {
                        let rows: Seq<CsvRowView> = if ls.len() == 0 {
                            seq![]
                        } else {
                            csv_rows_upto(file_path, kind, ls, ls.len() as int)
                        };
                        Ok(rows.map_values(|row: CsvRowView| row_chunk(crate_name, kind, marker, row)))
                    }
                },
            }
        },
    }
}

fn last_heading(v: &Vec<String>) -> (r: Option<String>)
    ensures
        crate::chunking::types::opt_view(r) == if v@.len() == 0 {
            None
        } else {
            Some(views(v@).last())
        },
{
    if v.len() == 0 {
        None
    } else {
        Some(v[v.len() - 1].clone())
    }
}

fn section_to_chunk(crate_name: &str, kind: &str, marker: &String, sec: &MarkdownChunk) -> (c: Chunk)
    ensures
        c@ == section_chunk(crate_name@, kind@, marker@, sec@),
{
    let heading = if sec.heading_path.len() == 0 {
        lit("root")
    } else {
        join_strings(sec.heading_path.as_slice(), "::")
    };
    let mut sp = lit(crate_name);
    push_str(&mut sp, "::docs::");
    push_str(&mut sp, heading.as_str());
    let mut parent = lit(crate_name);
    push_str(&mut parent, "::docs");
    let mut markers: Vec<String> = Vec::new();
    markers.push(lit("document"));
    markers.push(lit(kind));
    markers.push(marker.clone());
    let mut hints: Vec<String> = Vec::new();
    hints.push(lit("docs"));
    assert(views(markers@) =~= seq!["document"@, kind@, marker@]);
    assert(views(hints@) =~= seq!["docs"@]);
    let name = last_heading(&sec.heading_path);
    Chunk {
        id: sec.id.clone(),
        kind: ChunkKind::DocumentBlock,
        file_path: sec.file_path.clone(),
        span: SourceSpan { start_byte: sec.start_line, end_byte: sec.end_line },
        symbol_path: Some(sp),
        symbol_name: name,
        owning_symbol_header: None,
        docs_text: None,
        signature_text: None,
        parent_symbol_path: Some(parent),
        retrieval_markers: markers,
        repository_state_hints: hints,
        text: sec.text.clone(),
    }
}

fn row_to_chunk(crate_name: &str, kind: &str, marker: &String, row: &CsvRowChunk) -> (c: Chunk)
    ensures
        c@ == row_chunk(crate_name@, kind@, marker@, row@),
{
    let mut name = lit("row_");
    push_decimal(&mut name, row.row_number as u64);
    let mut sp = lit(crate_name);
    push_str(&mut sp, "::docs::tasks::row_");
    push_decimal(&mut sp, row.row_number as u64);
    let mut parent = lit(crate_name);
    push_str(&mut parent, "::docs::tasks");
    let mut markers: Vec<String> = Vec::new();
    markers.push(lit("document"));
    markers.push(lit(kind));
    markers.push(marker.clone());
    let mut hints: Vec<String> = Vec::new();
    hints.push(lit("docs"));
    hints.push(lit("tasks"));
    assert(views(markers@) =~= seq!["document"@, kind@, marker@]);
    assert(views(hints@) =~= seq!["docs"@, "tasks"@]);
    assert(sp@ =~= crate_name@ + "::docs::tasks::row_"@ + decimal(row@.row_number as nat));
    Chunk {
        id: row.id.clone(),
        kind: ChunkKind::TaskRow,
        file_path: row.file_path.clone(),
        span: SourceSpan { start_byte: row.row_number, end_byte: row.row_number },
        symbol_path: Some(sp),
        symbol_name: Some(name),
        owning_symbol_header: None,
        docs_text: None,
        signature_text: None,
        parent_symbol_path: Some(parent),
        retrieval_markers: markers,
        repository_state_hints: hints,
        text: row.text.clone(),
    }
}

/// The chunks of one repository document (see [`document_chunks`]).
pub fn document_chunks_for_file(
    crate_name: &str,
    file_path: &str,
    relative_path: &str,
    body: &str,
    rules: &Vec<DocumentSourceRule>,
) -> (r: Result<Vec<Chunk>, String>)
    ensures
        match document_chunks(crate_name@, file_path@, relative_path@, body@, rules@) {
            Ok(v) => r is Ok && chunk_views(r->Ok_0@) == v,
            Err(e) => r is Err && r->Err_0@ == e,
        },
{
    let rule = match classify_document_source(relative_path, rules) {
        Some(rule) => rule,
        None => {
            return Ok(Vec::new());
        },
    };
    let kind = rule.kind.as_str();
    let marker = weight_marker_text(rule.weight_milli);
    let mut out: Vec<Chunk> = Vec::new();
    match rule.parser {
        DocumentSourceParser::Markdown => {
            let secs = match chunk_markdown(file_path, body, kind) {
                Ok(v) => v,
                Err(e) => {
                    return Err(e);
                },
            };
            let mut i: usize = 0;
            while i < secs.len()
                invariant
                    0 <= i <= secs@.len(),
                    chunk_views(out@) == md_views(secs@).take(i as int).map_values(
                        |sec: MarkdownChunkView| section_chunk(crate_name@, kind@, marker@, sec),
                    ),
                decreases secs.len() - i,
            {
                let c = section_to_chunk(crate_name, kind, &marker, &secs[i]);
                let ghost before = out@;
                out.push(c);
                assert(chunk_views(out@) =~= chunk_views(before).push(c@));
                assert(md_views(secs@).take(i + 1) =~= md_views(secs@).take(i as int).push(secs@[i as int]@));
                assert(chunk_views(out@) =~= md_views(secs@).take(i + 1).map_values(
                    |sec: MarkdownChunkView| section_chunk(crate_name@, kind@, marker@, sec),
                ));
                i = i + 1;
            }
            assert(md_views(secs@).take(secs@.len() as int) =~= md_views(secs@));
            Ok(out)
        },
        DocumentSourceParser::Csv => {
            let rows = match chunk_csv_rows(file_path, body, kind) {
                Ok(v) => v,
                Err(e) => {
                    return Err(e);
                },
            };
            let mut i: usize = 0;
            while i < rows.len()
                invariant
                    0 <= i <= rows@.len(),
                    chunk_views(out@) == csv_views(rows@).take(i as int).map_values(
                        |row: CsvRowView| row_chunk(crate_name@, kind@, marker@, row),
                    ),
                decreases rows.len() - i,
            {
                let c = row_to_chunk(crate_name, kind, &marker, &rows[i]);
                let ghost before = out@;
                out.push(c);
                assert(chunk_views(out@) =~= chunk_views(before).push(c@));
                assert(csv_views(rows@).take(i + 1) =~= csv_views(rows@).take(i as int).push(rows@[i as int]@));
                assert(chunk_views(out@) =~= csv_views(rows@).take(i + 1).map_values(
                    |row: CsvRowView| row_chunk(crate_name@, kind@, marker@, row),
                ));
                i = i + 1;
            }
            assert(csv_views(rows@).take(rows@.len() as int) =~= csv_views(rows@));
            Ok(out)
        },
    }
}

} // verus!
