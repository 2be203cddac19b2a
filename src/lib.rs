//! A lexer for the primitive tokens of Julia source text: numeric literals
//! and identifiers, with Julia's Unicode rules for identifier characters.
pub mod category;
pub mod extensions;
pub mod errors;
pub mod syntax;
pub mod parser;
pub mod relex;
