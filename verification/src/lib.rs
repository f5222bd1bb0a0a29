//! A small configuration language for voxel element definitions.
//!
//! `.splang` source text declares elements (materials) with properties such
//! as a color and a face-joining rule.  The toolchain here lexes the text
//! into positioned tokens, parses the tokens into an untyped syntax tree,
//! const-evaluates literal nodes into typed values, compiles `element`
//! blocks into element records held in an insertion-ordered registry, and
//! collects leveled, source-positioned diagnostics along the way.

pub mod ast;
pub mod color;
pub mod compile;
pub mod diagnostics;
pub mod element;
pub mod eval;
pub mod id;
pub mod loader;
pub mod parser;
pub mod position;
pub mod render;
pub mod report;
pub mod text;
pub mod tokenizer;
pub mod value;
