//! A tile of a Super Mario Maker course.

use vstd::prelude::*;

verus! {

/// One tile: 32 bytes as they lie in the file.
#[derive(Clone, Debug, PartialEq, Eq)]
pub struct Tile {
    pub tile_data: Vec<u8>,
}

impl View for Tile {
    type V = Seq<u8>;

    open spec fn view(&self) -> Seq<u8> {
        self.tile_data@
    }
}

/// The bytes of each tile of a list.
pub open spec fn tiles_view(tiles: Seq<Tile>) -> Seq<Seq<u8>> {
    Seq::new(tiles.len(), |i: int| tiles[i]@)
}

} // verus!
