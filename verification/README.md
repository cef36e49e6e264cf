# rarag

Repository retrieval for local Rust codebases: chunkers for Rust sources,
Markdown documents and CSV task registries, snapshot identities, the request
models of the `rarag` CLI, the `raragd` daemon and the `rarag-mcp` server, and
the decisions of the retrieval pipeline (neighborhoods, reranking, history
candidates, evaluation reports).

## Layout

- `src/`: the library, verified with Verus. Each public function states its
  result in `ensures` over spec functions; laws that span functions are
  public proof functions (`lemma_*`).
- `app/`: the programs around the library (`rarag`, `raragd`, `rarag-mcp`,
  chosen by the name the binary is started under): file and socket I/O, the
  stores (Turso metadata, Tantivy lexical index, LanceDB vectors), HTTP
  embedding calls, JSON and TOML, and the floating-point ranking weights and
  scores.
- `tests/`: tests of the library.

The Rust parser (`ra_ap_syntax`) is called from `src/chunking/syntax.rs`
through a few trusted wrappers; everything built on its output is verified.
