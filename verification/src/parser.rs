//! The parser of value expressions, and the reading of literal tokens.

pub mod number;
pub mod split;
pub mod ipv6;
pub mod community;
pub mod token;
pub mod grammar;
pub mod reader;
pub mod value;
