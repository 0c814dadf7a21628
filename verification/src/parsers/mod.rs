pub mod primitive;
pub mod fnparser;
pub mod combinators;
pub mod tuple;
pub mod slice;
pub mod many;
pub mod sep;
pub mod chars;
pub mod numbers;
pub mod strings;
pub mod generators;
pub mod range;
pub mod memo;
