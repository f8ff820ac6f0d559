//! Cell-alignment geometry and texture bookkeeping for the render path: a
//! registry from raster id to texture handle, and the quad that covers the
//! part of one grid cell a raster occupies.
//!
//! All geometry here is in integer pixel units. The render path divides by
//! the viewport and image extents to reach normalized device and texture
//! coordinates; that final division is the only step left outside.

use std::collections::HashMap;
use vstd::prelude::*;

verus! {

broadcast use vstd::std_specs::hash::group_hash_axioms;

/// Handle to the compiled image shader program; compiling, using and
/// deleting it belong to the render path that owns the graphics context.
#[derive(Copy, Clone, Debug, PartialEq, Eq, Structural)]
pub struct ImgShaderProgram {
    /// Program id, as the graphics context assigned it.
    pub id: u32,
}

/// Bookkeeping between decoded rasters and uploaded textures: which raster
/// id is bound to which texture handle. The upload itself happens on the
/// render path; this registry records and answers.
pub struct ImageRenderer {
    /// Raster id to texture handle.
    pub texture_map: HashMap<usize, u32>,
}

impl ImageRenderer {
    /// An empty registry: no raster uploaded yet.
    pub fn new() -> (r: ImageRenderer)
        ensures
            r.texture_map@ == Map::<usize, u32>::empty(),
    {
        ImageRenderer { texture_map: HashMap::new() }
    }

    /// The texture handle the raster with this id was recorded under, if
    /// any.
    pub fn get_tex_id(&self, id: usize) -> (r: Option<&u32>)
        ensures
            match r {
                Some(t) => self.texture_map@.contains_key(id) && *t == self.texture_map@[id],
                None => !self.texture_map@.contains_key(id),
            },
    {
        self.texture_map.get(&id)
    }

    /// Record that the raster with `image_id` was uploaded as `tex_id`; a
    /// raster already recorded keeps its first handle. Returns the handle of
    /// this upload, as the caller's draw path expects it.
    pub fn add_img(&mut self, image_id: usize, tex_id: u32) -> (r: u32)
        ensures
            final(self).texture_map@ == if old(self).texture_map@.contains_key(image_id) {
                old(self).texture_map@
            } else {
                old(self).texture_map@.insert(image_id, tex_id)
            },
            r == tex_id,
    {
        if !self.texture_map.contains_key(&image_id) {
            self.texture_map.insert(image_id, tex_id);
        }
        tex_id
    }
}

/// One vertex of a cell quad, in integer pixel units: `x`, `y` on the
/// screen, `tx`, `ty` within the image. Normalized coordinates are
/// `2 * x / screen_width - 1` and `tx / image_width` (likewise vertically),
/// computed by the render path.
#[derive(Copy, Clone, Debug, PartialEq, Eq, Structural)]
pub struct PixelVertex {
    /// Screen x, in pixels.
    pub x: usize,
    /// Screen y, in pixels.
    pub y: usize,
    /// Texture x, in image pixels.
    pub tx: usize,
    /// Texture y, in image pixels.
    pub ty: usize,
}

/// How much of cell `index` along one axis the image covers, in pixels: the
/// whole cell when the next cell boundary is still within the image's
/// extent, the remainder `extent - index * cell` when the image ends inside
/// this cell.
pub open spec fn coverage(cell: int, index: int, extent: int) -> int
    recommends
        index * cell <= extent,
{
    if (index + 1) * cell <= extent {
        cell
    } else {
        extent - index * cell
    }
}

/// The six vertices (two triangles) covering exactly the part of cell
/// `(line, column)` that the image occupies, in integer pixel units. The
/// cell's offset within the image is `(column - start_column, offset_y)` in
/// cell units; the image extends `image_width` by `image_height` pixels.
///
/// The vertex order is top-left, bottom-left, bottom-right, top-left,
/// bottom-right, top-right: two triangles with consistent winding.
pub fn gen_vertices(
    line: usize,
    column: usize,
    start_column: usize,
    offset_y: usize,
    cell_width: usize,
    cell_height: usize,
    image_width: usize,
    image_height: usize,
) -> (v: Vec<PixelVertex>)
    requires
        cell_width > 0,
        cell_height > 0,
        start_column <= column,
        column * cell_width <= image_width,
        offset_y * cell_height <= image_height,
        image_width + cell_width <= usize::MAX,
        image_height + cell_height <= usize::MAX,
        line * cell_height + cell_height <= usize::MAX,
    ensures
        v@.len() == 6,
        ({
            let tlx = column * cell_width;
            let tly = line * cell_height;
            let itx = (column - start_column) * cell_width;
            let ity = offset_y * cell_height;
            let w = coverage(cell_width as int, column as int, image_width as int);
            let h = coverage(cell_height as int, offset_y as int, image_height as int);
            &&& v@[0].x == tlx && v@[0].y == tly && v@[0].tx == itx && v@[0].ty == ity
            &&& v@[1].x == tlx && v@[1].y == tly + h && v@[1].tx == itx && v@[1].ty == ity + h
            &&& v@[2].x == tlx + w && v@[2].y == tly + h && v@[2].tx == itx + w && v@[2].ty == ity
                + h
            &&& v@[3] == v@[0]
            &&& v@[4] == v@[2]
            &&& v@[5].x == tlx + w && v@[5].y == tly && v@[5].tx == itx + w && v@[5].ty == ity
        }),
{
    proof {
        assert((column - start_column) * cell_width <= column * cell_width) by (nonlinear_arith)
            requires
                start_column <= column,
                cell_width > 0,
        ;
        assert(column <= column * cell_width) by (nonlinear_arith)
            requires
                cell_width >= 1,
                column >= 0,
        ;
        assert(offset_y <= offset_y * cell_height) by (nonlinear_arith)
            requires
                cell_height >= 1,
                offset_y >= 0,
        ;
        assert((column + 1) * cell_width == column * cell_width + cell_width) by (nonlinear_arith);
        assert((offset_y + 1) * cell_height == offset_y * cell_height + cell_height)
            by (nonlinear_arith);
    }
    let top_left_x = column * cell_width;
    let top_left_y = line * cell_height;
    let img_x = (column - start_column) * cell_width;
    let img_y = offset_y * cell_height;
    let cov_w = if (column + 1) * cell_width <= image_width {
        cell_width
    } else {
        image_width - column * cell_width
    };
    let cov_h = if (offset_y + 1) * cell_height <= image_height {
        cell_height
    } else {
        image_height - offset_y * cell_height
    };
    let top_left = PixelVertex { x: top_left_x, y: top_left_y, tx: img_x, ty: img_y };
    let bottom_left = PixelVertex {
        x: top_left_x,
        y: top_left_y + cov_h,
        tx: img_x,
        ty: img_y + cov_h,
    };
    let bottom_right = PixelVertex {
        x: top_left_x + cov_w,
        y: top_left_y + cov_h,
        tx: img_x + cov_w,
        ty: img_y + cov_h,
    };
    let top_right = PixelVertex {
        x: top_left_x + cov_w,
        y: top_left_y,
        tx: img_x + cov_w,
        ty: img_y,
    };
    let mut v: Vec<PixelVertex> = Vec::with_capacity(6);
    v.push(top_left);
    v.push(bottom_left);
    v.push(bottom_right);
    v.push(top_left);
    v.push(bottom_right);
    v.push(top_right);
    v
}

/// Law: when the image's extent is an exact multiple `n` of the cell size,
/// every cell of index below `n` is fully covered.
pub proof fn lemma_coverage_exact_multiple(cell: int, index: int, n: int)
    requires
        cell > 0,
        0 <= index < n,
    ensures
        coverage(cell, index, n * cell) == cell,
{
    assert((index + 1) * cell <= n * cell) by (nonlinear_arith)
        requires
            cell > 0,
            index + 1 <= n,
    ;
}

/// Law: when the image's extent is `n` whole cells and a remainder `r`
/// strictly inside the next cell, the final cell of index `n` is covered
/// over exactly `r` pixels.
pub proof fn lemma_coverage_remainder(cell: int, n: int, r: int)
    requires
        cell > 0,
        0 < r < cell,
        n >= 0,
    ensures
        coverage(cell, n, n * cell + r) == r,
{
    assert((n + 1) * cell == n * cell + cell) by (nonlinear_arith);
}

} // verus!
