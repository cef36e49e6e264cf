use rarag::chunking::csv::chunk_csv_rows;
use rarag::chunking::markdown::chunk_markdown;
use rarag::chunking::rust::{
    chunk_kind_label, crate_name_from_manifest, extract_rust_doctests, module_path_for_file,
    parse_impl_target_name, RustChunker, SourceRootKind,
};
use rarag::chunking::syntax::{source_items, SourceItemKind};
use rarag::chunking::types::ChunkKind;
use rarag::config::DocumentSourcesConfig;

const SOURCE: &str = "//! Crate docs.\n\n/// Adds numbers.\n///\n/// ```\n/// assert_eq!(sum(1, 2), 3);\n/// ```\npub fn sum(a: i32, b: i32) -> i32 {\n    a + b\n}\n\npub struct Point { x: i32 }\n\nimpl Point {\n    fn new() -> Self { Point { x: 0 } }\n}\n\nmod inner {\n    #[test]\n    fn checks() { assert!(true); }\n}\n";

#[test]
fn chunks_items_of_a_rust_file() {
    let chunker = RustChunker::new(8);
    let chunks = chunker
        .chunk_file("src/lib.rs", SOURCE, "demo", SourceRootKind::Src)
        .expect("chunk file");
    let file = &chunks[0];
    assert_eq!(file.kind, ChunkKind::CrateSummary);
    assert_eq!(file.symbol_path.as_deref(), Some("demo"));
    assert_eq!(file.symbol_name.as_deref(), Some("lib"));
    assert_eq!(file.span.end_byte as usize, SOURCE.len());

    let sum = chunks
        .iter()
        .find(|c| c.kind == ChunkKind::Symbol && c.symbol_path.as_deref() == Some("demo::sum"))
        .expect("sum symbol");
    assert_eq!(&SOURCE[sum.span.start_byte as usize..sum.span.end_byte as usize], sum.text);
    assert!(sum.docs_text.as_deref().unwrap_or("").contains("Adds numbers."));
    assert_eq!(sum.signature_text.as_deref(), Some(&sum.text[..sum.text.find('{').unwrap()].trim_end().to_string()[..]));
    assert!(sum.id.starts_with("src/lib.rs:"));
    assert!(sum.id.ends_with(":symbol"));

    let body = chunks.iter().find(|c| c.kind == ChunkKind::BodyRegion).expect("body region");
    assert_eq!(body.parent_symbol_path.as_deref(), Some("demo::sum"));
    assert_eq!(body.owning_symbol_header, sum.signature_text);

    let doctest = chunks.iter().find(|c| c.kind == ChunkKind::Doctest).expect("doctest");
    assert_eq!(doctest.text, "assert_eq!(sum(1, 2), 3);");
    assert!(doctest.id.ends_with(":doctest:doctest-0"));
    assert_eq!(doctest.retrieval_markers, vec!["doctest", "example"]);

    let imp = chunks
        .iter()
        .find(|c| c.symbol_name.as_deref() == Some("impl"))
        .expect("impl chunk");
    assert_eq!(imp.symbol_path.as_deref(), Some("demo::impl::Point"));

    let module = chunks.iter().find(|c| c.kind == ChunkKind::ModuleSummary).expect("module");
    assert_eq!(module.symbol_path.as_deref(), Some("demo::inner"));
    let test = chunks.iter().find(|c| c.kind == ChunkKind::TestFunction).expect("test fn");
    assert_eq!(test.symbol_path.as_deref(), Some("demo::inner::checks"));
    let test_symbol = chunks
        .iter()
        .find(|c| c.kind == ChunkKind::Symbol && c.symbol_path.as_deref() == Some("demo::inner::checks"))
        .expect("test symbol");
    assert_eq!(test_symbol.retrieval_markers, vec!["test"]);
    assert_eq!(test_symbol.repository_state_hints, vec!["tests"]);
}

#[test]
fn example_files_carry_example_markers() {
    let chunks = RustChunker::new(1000)
        .chunk_file("examples/demo.rs", "fn main() {}\n", "demo::examples::demo", SourceRootKind::Examples)
        .expect("chunk example");
    assert_eq!(chunks[0].kind, ChunkKind::ExampleFile);
    assert_eq!(chunks[0].retrieval_markers, vec!["example"]);
    assert_eq!(chunks[1].kind, ChunkKind::Symbol);
    assert_eq!(chunks[1].repository_state_hints, vec!["examples"]);
    assert_eq!(chunks.len(), 2);
}

#[test]
fn byte_spans_count_utf8_bytes() {
    let source = "// é\nfn f() {}\n";
    let chunks = RustChunker::new(1000)
        .chunk_file("src/x.rs", source, "c::x", SourceRootKind::Src)
        .expect("chunk");
    let f = chunks.iter().find(|c| c.kind == ChunkKind::Symbol).expect("f");
    assert_eq!(&source[f.span.start_byte as usize..f.span.end_byte as usize], f.text);
    assert_eq!(chunks[0].span.end_byte as usize, source.len());
}

#[test]
fn doctest_extraction_follows_fences() {
    let docs = "intro\n```rust,no_run\nlet a = 1;\n```\n```text\nnot code\n```\n```\n\n```\n```";
    assert_eq!(extract_rust_doctests(docs), vec!["let a = 1;"]);
    let docs = "```ignore, rust\n  b();\n```\n```python\nx\n```";
    assert_eq!(extract_rust_doctests(docs), vec!["b();"]);
}

#[test]
fn impl_target_names() {
    assert_eq!(parse_impl_target_name("  impl Foo {"), Some("Foo".to_string()));
    assert_eq!(parse_impl_target_name("impl Foo<T> {"), Some("Foo".to_string()));
    assert_eq!(parse_impl_target_name("impl<T> Foo<T> {"), None);
    assert_eq!(parse_impl_target_name("impl {"), None);
}

#[test]
fn module_paths_of_files() {
    assert_eq!(module_path_for_file("demo", "lib.rs", SourceRootKind::Src), "demo");
    assert_eq!(module_path_for_file("demo", "a/b.rs", SourceRootKind::Src), "demo::a::b");
    assert_eq!(module_path_for_file("demo", "main.rs", SourceRootKind::Examples), "demo::examples");
    assert_eq!(module_path_for_file("demo", "t.rs", SourceRootKind::IntegrationTests), "demo::integration_tests::t");
    assert_eq!(module_path_for_file("demo", "bin/main.rs", SourceRootKind::Src), "demo::bin::main");
}

#[test]
fn crate_names_from_manifests() {
    assert_eq!(crate_name_from_manifest("[package]\nname = \"demo\"\n"), Ok("demo".to_string()));
    assert_eq!(crate_name_from_manifest("[package]\nversion = \"1\"\n"), Err("missing crate name".to_string()));
}

#[test]
fn kind_labels() {
    assert_eq!(chunk_kind_label(&ChunkKind::TaskRow), "task-row");
    assert_eq!(chunk_kind_label(&ChunkKind::BodyRegion), "body");
}

#[test]
fn markdown_sections_follow_headings() {
    let body = "intro\n# Title\ntext\n## Sub\nmore\n";
    let sections = chunk_markdown("docs/a.md", body, "spec").expect("sections");
    assert_eq!(sections.len(), 3);
    assert_eq!(sections[0].id, "docs/a.md#root:1-1");
    assert_eq!(sections[1].heading_path, vec!["Title"]);
    assert_eq!(sections[2].heading_path, vec!["Title", "# Sub"]);
    assert_eq!(sections[2].text, "## Sub\nmore");
}

#[test]
fn csv_rows_become_pairs() {
    let rows = chunk_csv_rows("docs/tasks/tasks.csv", "id,status\nTASK-1,done\n,\nTASK-2,\"open, later\"\n", "tasks-registry").expect("rows");
    assert_eq!(rows.len(), 2);
    assert_eq!(rows[0].text, "id: TASK-1 | status: done");
    assert_eq!(rows[0].id, "docs/tasks/tasks.csv#row-2");
    assert_eq!(rows[1].row_number, 4);
}

#[test]
fn documents_are_chunked_under_their_rule() {
    let chunker = RustChunker::new_with_document_sources(120, DocumentSourcesConfig::default());
    let chunks = chunker
        .chunk_document("demo", "/repo/docs/specs/a.md", "docs/specs/a.md", "# Reload\nbody\n")
        .expect("document");
    assert_eq!(chunks.len(), 1);
    assert_eq!(chunks[0].kind, ChunkKind::DocumentBlock);
    assert_eq!(chunks[0].symbol_path.as_deref(), Some("demo::docs::Reload"));
    assert_eq!(chunks[0].retrieval_markers, vec!["document", "spec", "doc_rank_weight:1.000"]);
    let rows = chunker
        .chunk_document("demo", "/repo/docs/tasks/tasks.csv", "docs/tasks/tasks.csv", "id\nT1\n")
        .expect("rows");
    assert_eq!(rows[0].kind, ChunkKind::TaskRow);
    assert_eq!(rows[0].symbol_path.as_deref(), Some("demo::docs::tasks::row_2"));
    let none = chunker.chunk_document("demo", "/repo/README.md", "README.md", "# x\n").expect("skipped");
    assert!(none.is_empty());
}

#[test]
fn source_items_use_character_positions_and_nest_module_items() {
    let source = "// é\n\nfn a() {}\nmod m {\n    #[test]\n    fn t() { x(); }\n}\n";
    let items = source_items(source);
    assert_eq!(items.len(), 2);
    let chars: Vec<char> = source.chars().collect();
    let text = |start: usize, end: usize| chars[start..end].iter().collect::<String>();
    assert_eq!(items[0].kind, SourceItemKind::Function);
    assert_eq!(items[0].name.as_deref(), Some("a"));
    assert_eq!(text(items[0].start, items[0].end), "fn a() {}");
    let (body_start, body_end) = items[0].body.expect("block");
    assert_eq!(text(body_start, body_end), "{}");
    assert!(!items[0].is_test);
    assert_eq!(items[1].kind, SourceItemKind::Module);
    assert_eq!(items[1].name.as_deref(), Some("m"));
    assert_eq!(items[1].items.len(), 1);
    let inner = &items[1].items[0];
    assert_eq!(inner.kind, SourceItemKind::Function);
    assert!(inner.is_test);
    assert_eq!(text(inner.start, inner.end), "#[test]\n    fn t() { x(); }");
    assert!(items[0].items.is_empty());
}
