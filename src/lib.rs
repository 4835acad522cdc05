//! Hexadecimal color values and a name-to-color table loaded from text.
pub mod color;
pub mod color_map;
