//! Query compilation for a full-text search engine: a query tree is checked
//! against a field catalog, lowered to an executable form, and analysed to
//! plan which index structures must be loaded before execution.
pub mod compile;
pub mod compiled;
pub mod errors;
pub mod literal;
pub mod query_ast;
pub mod query_builder;
pub mod schema;
pub mod user_input;
pub mod warmup;

pub use user_input::parse_user_query;
