//! The voxel payload: the content of one occupied voxel slot.

use vstd::prelude::*;

use crate::color::IndexedColor;

verus! {

/// The content of an occupied voxel.
#[derive(Clone, Copy, PartialEq, Eq, Structural, Debug)]
pub enum Tile {
    Brick { color: IndexedColor },
}

impl Tile {
    /// The color payload is a valid palette color.
    pub open spec fn wf(self) -> bool {
        match self {
            Tile::Brick { color } => color.wf(),
        }
    }

    pub fn is_brick(self) -> (r: bool)
        ensures
            r == (self matches Tile::Brick { .. }),
    {
        match self {
            Tile::Brick { .. } => true,
        }
    }

    /// Whether a slot occludes the faces of adjacent voxels that point at
    /// it.  The occlusion policy is presence-based: any occupied slot is
    /// solid, whatever its payload, so no face is ever generated between
    /// two occupied voxels.
    pub fn is_solid(tile: Option<Tile>) -> (r: bool)
        ensures
            r == (tile is Some),
    {
        tile.is_some()
    }

    /// The default brick tile, carrying the first palette color.
    pub fn brick() -> (r: Tile)
        ensures
            r matches Tile::Brick { color } && color.wf() && color.index_spec() == 0,
            r.wf(),
    {
        Tile::Brick { color: IndexedColor::default() }
    }
}

impl Default for Tile {
    fn default() -> (r: Tile)
        ensures
            r matches Tile::Brick { color } && color.wf() && color.index_spec() == 0,
            r.wf(),
    {
        Tile::brick()
    }
}

} // verus!
