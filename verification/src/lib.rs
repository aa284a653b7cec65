//! Chess game data tools: PGN movetext filtering, PGN header and movetext
//! processing, time-control parsing and normalization, and the row logic of a
//! PGN table reader.
use vstd::prelude::*;

pub mod chess;
pub mod filter;
pub mod json;
pub mod pattern;
pub mod text;
pub mod types;
pub mod visitor;

verus! {
} // verus!
