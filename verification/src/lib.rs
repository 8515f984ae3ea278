//! A two-pass assembler for a small 8-bit accumulator machine.

pub mod encoder;
pub mod listing;
pub mod numeral;
pub mod parser;
pub mod program;
pub mod resolver;
pub mod text;
pub mod types;
