//! Palette colors for tiles: a small enumerated index, bijective with a
//! cell of a fixed 8-by-8 palette texture.

use vstd::prelude::*;

verus! {

/// A palette color, stored as its index shifted up by one so that the
/// stored value is never zero.
#[derive(Clone, Copy, PartialEq, Eq, Structural, Debug)]
pub struct IndexedColor {
    pub raw: u8,
}

/// The largest valid palette index.
pub const MAX_COLOR_INDEX: u8 = 61;

impl IndexedColor {
    /// The stored value is the index plus one.
    pub open spec fn wf(self) -> bool {
        1 <= self.raw <= 62
    }

    /// The palette index, in `0..=MAX_COLOR_INDEX`.
    pub open spec fn index_spec(self) -> int {
        self.raw - 1
    }

    pub fn index(self) -> (r: u8)
        requires
            self.wf(),
        ensures
            r == self.index_spec(),
    {
        self.raw - 1
    }

    /// Constructs a color from a palette index, failing above
    /// `MAX_COLOR_INDEX`.
    pub fn from_index(i: u8) -> (r: Option<IndexedColor>)
        ensures
            r is Some <==> i <= 61,
            r matches Some(c) ==> c.wf() && c.index_spec() == i,
    {
        if i <= MAX_COLOR_INDEX {
            Some(IndexedColor { raw: i + 1 })
        } else {
            None
        }
    }

    /// The texture coordinate of the center of this color's palette cell,
    /// in sixteenths of the texture: cell `(index % 8, index / 8)` of an
    /// 8-by-8 grid, so the center is at `(2 * (index % 8) + 1) / 16` of the
    /// texture across and `(2 * (index / 8) + 1) / 16` down.
    pub open spec fn uv_spec(self) -> (int, int) {
        (2 * (self.index_spec() % 8) + 1, 2 * (self.index_spec() / 8) + 1)
    }

    /// The texture coordinate of this color, in sixteenths of the palette
    /// texture per axis.
    pub fn uv(self) -> (r: [u8; 2])
        requires
            self.wf(),
        ensures
            r[0] == self.uv_spec().0,
            r[1] == self.uv_spec().1,
    {
        let i = self.index();
        [2 * (i % 8) + 1, 2 * (i / 8) + 1]
    }
}

impl Default for IndexedColor {
    /// The first palette color.
    fn default() -> (r: IndexedColor)
        ensures
            r.wf(),
            r.index_spec() == 0,
    {
        IndexedColor { raw: 1 }
    }
}

} // verus!
