//! A small query language over in-memory records: a textual boolean filter is
//! parsed into a tree, checked against the declared types of the fields it
//! names, and evaluated record by record.

mod ast;
mod compat;
pub mod grammar;
pub mod laws;
mod matcher;
mod parser;
mod pattern;
mod person;
mod text;
mod value;

pub use ast::{AstView, Operator, AST};
pub use compat::{is_compatible, CompatibilityError, DiagnosticView};
pub use parser::{parse_query, query_result, ASTValidationError, FieldNotFound};
pub use matcher::{compare, evaluate, MatchesAst, StructMatcher, StructProperties};
pub use person::{Person, PersonProperties};
pub use text::{contains_str, ends_with_str, starts_with_str};
pub use value::{Value, ValueView};
