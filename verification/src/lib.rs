//! A parser-combinator algebra over sequentially consumed character input,
//! together with a derivation algorithm that compiles a structural schema
//! (a product of ordered fields, or a sum of ordered variants) into the
//! corresponding combinator pipeline.

pub mod combinator;
pub mod input;
pub mod parser;
pub mod schema;
