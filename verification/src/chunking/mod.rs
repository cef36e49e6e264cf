pub mod csv;
pub mod documents;
pub mod markdown;
pub mod syntax;
pub mod types;
pub mod rust;
