//! The tile map of the world: `width` × `height` tiles, row by row.

use vstd::prelude::*;

verus! {

pub struct TileMap {
    width: u32,
    height: u32,
    data: Vec<u8>,
}

impl TileMap {
    pub closed spec fn spec_width(&self) -> u32 {
        self.width
    }

    pub closed spec fn spec_height(&self) -> u32 {
        self.height
    }

    /// The tiles, row by row.
    pub closed spec fn tiles(&self) -> Seq<u8> {
        self.data@
    }

    /// The index of the tile at column `x` of row `y`.
    pub open spec fn tile_index(&self, x: u32, y: u32) -> int {
        x as int + y as int * self.spec_width() as int
    }

    pub fn from(width: u32, height: u32, data: Vec<u8>) -> (r: TileMap)
        ensures
            r.spec_width() == width,
            r.spec_height() == height,
            r.tiles() == data@,
    {
        TileMap { data, width, height }
    }

    #[verifier::when_used_as_spec(spec_width)]
    pub fn width(&self) -> (r: u32)
        ensures
            r == self.spec_width(),
    {
        self.width
    }

    #[verifier::when_used_as_spec(spec_height)]
    pub fn height(&self) -> (r: u32)
        ensures
            r == self.spec_height(),
    {
        self.height
    }

    pub fn data(&self) -> (r: &Vec<u8>)
        ensures
            r@ == self.tiles(),
    {
        &self.data
    }

    /// The tile at column `x` of row `y`.
    pub fn block(&self, x: u32, y: u32) -> (r: u8)
        requires
            self.tile_index(x, y) < self.tiles().len(),
            self.tile_index(x, y) <= u32::MAX,
        ensures
            r == self.tiles()[self.tile_index(x, y)],
    {
        proof {
            assert(0 <= y as int * self.width as int) by (nonlinear_arith);
        }
        let index = x + y * self.width;
        self.data[index as usize]
    }
}

} // verus!
