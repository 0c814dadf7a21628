//! A parser-combinator library over byte input, with each parser's behaviour stated as a contract.
pub mod context;
pub mod input;
pub mod parsers;

pub use context::{matches_at, parser, Context, Generator, Parse, Parser, ParserExt};
pub use input::Shared;
pub mod tracing;
pub mod laws;
pub mod number_laws;
pub mod kdl;
pub mod text_laws;
pub mod kdl_laws;
