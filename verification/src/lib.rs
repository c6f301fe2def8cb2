//! Source-position diagnostics: a lexical token that borrows its source
//! text, and a renderer that excerpts the offending line with a colored
//! underline, reconciling byte offsets, character counts and visual
//! terminal columns (tabs and wide glyphs included).

pub mod laws;
pub mod lines;
pub mod measure;
pub mod render;
pub mod text;
pub mod token;
pub mod width;

use vstd::prelude::*;

verus! {

} // verus!
