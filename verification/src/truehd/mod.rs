//! Parsing of TrueHD audio blocks.

pub mod bits;
pub mod block;
pub mod decoder;
pub mod errors;
pub mod header;
pub mod laws;
pub mod parser_laws;
pub mod sample_laws;
pub mod samples;
pub mod state;
pub mod timing;
