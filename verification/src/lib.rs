//! A small query-filter engine: a filter expression such as
//! `.age >= 18 AND .name = 'Ann'` is parsed into clauses, and the clauses
//! are evaluated, as a conjunction, against a JSON record.
//!
//! - `text`: splitting, trimming and integers on characters;
//! - `filter`: the clause and its literal;
//! - `parser`: the grammar and `parse`;
//! - `record`: the record, a `serde_json::Value`, and what is taken on
//!   trust about it;
//! - `eval`: the evaluator and `apply`;
//! - `laws`: what holds of the grammar and the evaluator in general.

pub mod eval;
pub mod filter;
pub mod laws;
pub mod parser;
pub mod record;
pub mod text;

pub use eval::apply;
pub use filter::{Filter, ScalarValue};
pub use parser::parse;
