//! Decoder for a character-cell graphics escape protocol and the geometry
//! that maps a decoded raster onto a grid of display cells.

pub mod graphics;
pub mod image;
pub mod sixel;
