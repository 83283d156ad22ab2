//! Translation of FlatZinc statements into answer-set-programming facts.
//!
//! The parser that turns text into a [`model::Statement`] lives outside this
//! library; here every statement is encoded into fact lines, and the run state
//! (ordering level and constraint counter) is kept.
pub mod annotations;
pub mod encode;
pub mod facts;
pub mod model;
pub mod stream;
pub mod text;
pub mod variables;

pub use model::FlatZincError;
pub use stream::write_fz_stmt;
