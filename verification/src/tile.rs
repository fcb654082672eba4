//! Partitioning the quantized canvas into a row-major grid of fixed-size
//! tiles, each independently addressable.

use vstd::prelude::*;
use vstd::arithmetic::div_mod::{
    lemma_div_is_ordered, lemma_fundamental_div_mod, lemma_fundamental_div_mod_converse,
};
use crate::canvas::TILE_SIZE;
use crate::name::{palette_container_name, palette_name_spec, tile_appvar_name, tile_name_spec};
use crate::quantize::QuantizedImage;

verus! {

/// One row of the tile at grid position (tx, ty): 80 consecutive index bytes
/// of canvas row `ty * 80 + y`, starting at column `tx * 80`.
pub open spec fn tile_row_spec(data: Seq<u8>, width: int, tx: int, ty: int, y: int) -> Seq<u8> {
    data.subrange((ty * 80 + y) * width + tx * 80, (ty * 80 + y) * width + tx * 80 + 80)
}

/// All 6400 index bytes of the tile at grid position (tx, ty), row-major.
pub open spec fn tile_pixels_spec(data: Seq<u8>, width: int, tx: int, ty: int) -> Seq<u8> {
    Seq::new(6400, |k: int| data[(ty * 80 + k / 80) * width + tx * 80 + k % 80])
}

impl QuantizedImage {
    /// The number of tile columns.
    pub fn width_tiles(&self) -> (result: u32)
        requires
            self.wf(),
        ensures
            result == self.width as int / 80,
            1 <= result <= 400,
    {
        self.width / TILE_SIZE
    }

    /// The number of tile rows.
    pub fn height_tiles(&self) -> (result: u32)
        requires
            self.wf(),
        ensures
            result == self.height as int / 80,
            1 <= result <= 400,
    {
        self.height / TILE_SIZE
    }

    /// The name of the container the palette will be stored under.
    pub fn palette_appvar_name(&self) -> (result: String)
        requires
            self.wf(),
        ensures
            result@ == palette_name_spec(self.var_prefix@),
    {
        palette_container_name(self.var_prefix.as_str())
    }

    /// Start a traversal over the image's tiles in row-major order.
    pub fn tiles<'a>(&'a self) -> (result: Tiles<'a>)
        requires
            self.wf(),
        ensures
            result.wf(),
            result.image == self,
            result.next.0 == 0,
            result.next.1 == 0,
    {
        Tiles { image: self, next: (0, 0) }
    }
}

/// A restartable traversal over the tiles of an image, in row-major order:
/// (0,0), (1,0), ..., (0,1), (1,1), ...
pub struct Tiles<'a> {
    /// The image being traversed.
    pub image: &'a QuantizedImage,
    /// Grid position of the next tile to hand out.
    pub next: (u32, u32),
}

/// One fixed-size slice of an overall image, stored in its own container on
/// the calculator.
pub struct Tile<'a> {
    /// The location of this tile in the overall image; (0, 0) is top-left.
    pub index: (u32, u32),
    /// The name of the container generated from this tile.
    pub appvar_name: String,
    /// The image the tile is a view into.
    pub image: &'a QuantizedImage,
}

/// A traversal over the 80 pixel rows of one tile.
pub struct TileRows<'a> {
    /// The tile being traversed.
    pub tile: &'a Tile<'a>,
    /// The next row to hand out.
    pub y: u32,
}

impl<'a> Tiles<'a> {
    /// The traversal points at a tile inside the grid, or just past its end.
    pub open spec fn wf(&self) -> bool {
        &&& self.image.wf()
        &&& self.next.0 < self.image.width as int / 80
        &&& self.next.1 <= self.image.height as int / 80
    }

    /// The number of tiles already handed out: the row-major rank of `next`.
    pub open spec fn rank(&self) -> int {
        self.next.1 * (self.image.width as int / 80) + self.next.0
    }

    /// The next tile in row-major order, or `None` when all tiles have been
    /// handed out.
    pub fn next(&mut self) -> (result: Option<Tile<'a>>)
        requires
            old(self).wf(),
        ensures
            final(self).wf(),
            final(self).image == old(self).image,
            result is None <==> old(self).next.1 == old(self).image.height as int / 80,
            result is None ==> *final(self) == *old(self),
            result matches Some(t) ==> {
                &&& t.image == old(self).image
                &&& t.index == old(self).next
                &&& t.wf()
                &&& final(self).rank() == old(self).rank() + 1
            },
    {
        let x = self.next.0;
        let y = self.next.1;
        if y == self.image.height_tiles() {
            None
        } else {
            if x + 1 >= self.image.width_tiles() {
                self.next = (0, y + 1);
                proof {
                    let w = old(self).image.width as int / 80;
                    assert((y + 1) * w == y * w + w) by (nonlinear_arith) {}
                }
            } else {
                self.next = (x + 1, y);
            }
            let name = tile_appvar_name(self.image.var_prefix.as_str(), x, y);
            Some(Tile { index: (x, y), appvar_name: name, image: self.image })
        }
    }
}

impl<'a> Tile<'a> {
    /// The tile lies inside the grid and carries its derived container name.
    pub open spec fn wf(&self) -> bool {
        &&& self.image.wf()
        &&& self.index.0 < self.image.width as int / 80
        &&& self.index.1 < self.image.height as int / 80
        &&& self.appvar_name@ == tile_name_spec(
            self.image.var_prefix@,
            self.index.0 as int,
            self.index.1 as int,
        )
    }

    /// The location of this tile in the overall image; (0, 0) is top-left.
    pub fn index(&self) -> (result: (u32, u32))
        ensures
            result == self.index,
    {
        self.index
    }

    /// The name of the container generated from this tile.
    pub fn appvar_name(&self) -> (result: &str)
        ensures
            result@ == self.appvar_name@,
    {
        self.appvar_name.as_str()
    }

    /// Start a traversal over the tile's pixel rows.
    pub fn rows(&'a self) -> (result: TileRows<'a>)
        requires
            self.wf(),
        ensures
            result.wf(),
            result.tile == self,
            result.y == 0,
    {
        TileRows { tile: self, y: 0 }
    }
}

impl<'a> TileRows<'a> {
    /// The traversal points at a row of the tile, or just past the last one.
    pub open spec fn wf(&self) -> bool {
        &&& self.tile.wf()
        &&& self.y <= 80
    }

    /// The next pixel row of the tile, or `None` after the last one. Each
    /// row is a view of 80 palette-index bytes of the underlying canvas.
    pub fn next(&mut self) -> (result: Option<&'a [u8]>)
        requires
            old(self).wf(),
        ensures
            final(self).wf(),
            final(self).tile == old(self).tile,
            result is None <==> old(self).y >= 80,
            result is None ==> *final(self) == *old(self),
            result matches Some(row) ==> {
                &&& row@ == tile_row_spec(
                    old(self).tile.image.data@,
                    old(self).tile.image.width as int,
                    old(self).tile.index.0 as int,
                    old(self).tile.index.1 as int,
                    old(self).y as int,
                )
                &&& row@.len() == 80
                &&& final(self).y == old(self).y + 1
            },
    {
        if self.y >= TILE_SIZE {
            return None;
        }
        let image = self.tile.image;
        let width = image.width as usize;
        let tx = self.tile.index.0 as usize;
        let ty = self.tile.index.1 as usize;
        let yy = self.y as usize;
        proof {
            lemma_row_in_bounds(
                image.width as int,
                image.height as int,
                tx as int,
                ty as int,
                yy as int,
            );
        }
        let row_base = (ty * 80 + yy) * width + tx * 80;
        self.y = self.y + 1;
        let row = vstd::slice::slice_subrange(image.data.as_slice(), row_base, row_base + 80);
        Some(row)
    }
}

/// One row of one in-grid tile lies wholly inside the canvas index buffer.
pub(crate) proof fn lemma_row_in_bounds(width: int, height: int, tx: int, ty: int, y: int)
    requires
        width % 80 == 0,
        height % 80 == 0,
        80 <= width <= 32000,
        80 <= height <= 32000,
        0 <= tx < width / 80,
        0 <= ty < height / 80,
        0 <= y < 80,
    ensures
        0 <= (ty * 80 + y) * width + tx * 80,
        (ty * 80 + y) * width + tx * 80 + 80 <= width * height,
        (ty * 80 + y) * width <= 32000 * 32000,
{
    lemma_tile_cell_in_bounds(width, height, tx, ty, 0, y);
    let row = ty * 80 + y;
    assert(row * width + tx * 80 + 80 <= width * height && 0 <= row * width && row * width <= 32000
        * 32000) by (nonlinear_arith)
        requires
            0 <= row < height,
            0 <= tx,
            tx * 80 + 80 <= width,
            80 <= width <= 32000,
            height <= 32000,
    {}
}

/// Covering: a canvas pixel (px, py) lies in the tile at grid position
/// (px / 80, py / 80), at in-tile offset (px % 80, py % 80); the tile and
/// the offset are in range, and they reassemble the pixel exactly.
pub proof fn lemma_tiling_covers(width: int, height: int, px: int, py: int)
    requires
        width % 80 == 0,
        height % 80 == 0,
        0 <= px < width,
        0 <= py < height,
    ensures
        0 <= px / 80 < width / 80,
        0 <= py / 80 < height / 80,
        0 <= px % 80 < 80,
        0 <= py % 80 < 80,
        px == (px / 80) * 80 + px % 80,
        py == (py / 80) * 80 + py % 80,
{
    lemma_fundamental_div_mod(px, 80);
    lemma_fundamental_div_mod(py, 80);
    lemma_fundamental_div_mod(width, 80);
    lemma_fundamental_div_mod(height, 80);
    lemma_div_is_ordered(px, width - 1, 80);
    lemma_div_is_ordered(py, height - 1, 80);
    lemma_fundamental_div_mod_converse(width - 1, 80, width / 80 - 1, 79);
    lemma_fundamental_div_mod_converse(height - 1, 80, height / 80 - 1, 79);
}

/// No overlap: a pixel addressed as in-range offset `i` of tile column `tx`
/// is addressed by no other (tile, offset) pair, because both parts are
/// recovered uniquely from the pixel coordinate. The same holds for rows.
pub proof fn lemma_tiling_unique(tx: int, i: int)
    requires
        0 <= i < 80,
        0 <= tx,
    ensures
        (tx * 80 + i) / 80 == tx,
        (tx * 80 + i) % 80 == i,
{
    lemma_fundamental_div_mod_converse(tx * 80 + i, 80, tx, i);
}

/// No gap and no spill: every in-range offset of every in-range tile
/// addresses a pixel inside the canvas.
pub proof fn lemma_tile_cell_in_bounds(width: int, height: int, tx: int, ty: int, i: int, j: int)
    requires
        width % 80 == 0,
        height % 80 == 0,
        0 <= tx < width / 80,
        0 <= ty < height / 80,
        0 <= i < 80,
        0 <= j < 80,
    ensures
        0 <= tx * 80 + i < width,
        0 <= ty * 80 + j < height,
        tx * 80 + 80 <= width,
        ty * 80 + 80 <= height,
{
    lemma_fundamental_div_mod(width, 80);
    lemma_fundamental_div_mod(height, 80);
    assert(tx * 80 + 80 <= (width / 80) * 80) by (nonlinear_arith)
        requires
            tx < width / 80,
    {}
    assert(ty * 80 + 80 <= (height / 80) * 80) by (nonlinear_arith)
        requires
            ty < height / 80,
    {}
}

} // verus!
