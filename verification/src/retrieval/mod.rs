pub mod eval;
pub mod neighborhood;
pub mod query;
pub mod retriever;
pub mod rerank;
pub mod signals;
