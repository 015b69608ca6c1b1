//! Roto: the syntax tree, value-expression parser, type definitions, BMP
//! message records and compiler pipeline stages of the Roto filter
//! language, with their contracts proved by Verus.

pub mod ast;
pub mod text;
pub mod types;
pub mod parser;
pub mod syntax;
pub mod pipeline;
pub mod report;
