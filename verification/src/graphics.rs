//! The immutable result of decoding: a raster image ready for display.

use vstd::prelude::*;

verus! {

/// A decoded raster: row-major RGB triplets, top row first, together with the
/// size it declared and the cell height of the grid at the time it was made.
/// The id is assigned by the owner; cells refer to the raster through it.
#[derive(Default, Clone, Debug)]
pub struct Graphics {
    /// Unique identifier, assigned outside the decoder.
    pub id: usize,
    /// Pixels as row-major RGB triplets.
    pub rgb: Vec<u8>,
    /// Raster height in pixels.
    pub height: u16,
    /// Raster width in pixels.
    pub width: u16,
    /// Height of the grid cells when the raster was inserted.
    pub cell_height: u16,
}

impl Graphics {
    /// A raster is well formed when its buffer holds one RGB triplet per
    /// declared pixel.
    pub open spec fn wf(&self) -> bool {
        self.rgb@.len() == self.width as int * self.height as int * 3
    }
}

} // verus!
