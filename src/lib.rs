//! A text cursor that carries a borrowed, read-only context through every
//! operation a parser-combinator engine performs on its input.
pub mod input;
pub mod laws;
pub mod text;
