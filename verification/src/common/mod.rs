//! Types and helpers shared by the scanner and the parser.

pub mod chars;
pub mod symbol;
pub mod text;
pub mod token;
pub mod utils;
