//! A front end and type arena for the Tao language: tokens are parsed into an
//! abstract syntax tree, which is lowered into a simpler tree while the
//! demands on its types are recorded for inference; types live in an arena,
//! and a small bytecode program collects instructions and constants.

pub mod span;
pub mod ident;
pub mod ty;
pub mod program;
pub mod lower;
pub mod infer;
pub mod hir;
pub mod text;
pub mod token;
pub mod ast;
pub mod parse;
