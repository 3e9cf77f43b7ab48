//! Validated four-letter chunk type codes of tagged binary containers.

pub mod ascii;
pub mod chunk_type;
pub mod laws;
pub mod text;
