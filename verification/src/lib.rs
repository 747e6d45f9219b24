//! The front end of a small language of entities, components, functions and
//! types: source text goes in, a tree of statements or one diagnostic comes
//! out.

pub mod error;
pub mod parse;
pub mod span;
pub mod text;
