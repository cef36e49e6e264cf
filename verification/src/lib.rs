//! Repository retrieval building blocks: chunkers for Rust sources, Markdown
//! documents and CSV task registries, snapshot identities, request models for
//! the daemon, CLI and MCP front ends, and the decisions the retrieval
//! pipeline takes over them.
pub mod text;
pub mod chunking;
pub mod cli;
pub mod config;
pub mod daemon;
pub mod daemon_cli;
pub mod embeddings;
pub mod history;
pub mod indexing;
pub mod ipc;
pub mod mcp;
pub mod metadata;
pub mod semantic;
pub mod services;
pub mod snapshot;
pub mod retrieval;
pub mod sorted;
pub mod workspace;
pub mod worktree;
