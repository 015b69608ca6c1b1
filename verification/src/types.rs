//! Type definitions and built-in records.

pub mod order;
pub mod typedef;
pub mod bmp_message;
pub mod describe;
pub mod fields;
pub mod methods;
