//! Lays out a Unicode string, which may mix right-to-left and left-to-right
//! scripts, as positioned glyphs: paragraphs and visual runs from the bidi
//! algorithm, shaped runs, and per-glyph placements in font design units.

pub mod align;
pub mod font;
pub mod bidi;
pub mod layout;
pub mod laws;
