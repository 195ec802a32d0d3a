//! Per-chunk voxel storage: bounded local coordinates, chunk coordinates,
//! and the dense fixed-size voxel array with its occupancy counter.

use vstd::prelude::*;

use crate::tile::Tile;

verus! {

/// Voxels per chunk along each axis.
pub const CHUNK_WIDTH: u8 = 16;

/// Voxels per chunk: `CHUNK_WIDTH` cubed.
pub const CHUNK_AREA: usize = 4096;

/// A voxel slot: empty, or holding a tile.
pub type TileSlot = Option<Tile>;

/// A position within one chunk; every axis is in `0..CHUNK_WIDTH`.
#[derive(Clone, Copy, PartialEq, Eq, Structural, Debug, Hash)]
pub struct LocalPos {
    pub x: u8,
    pub y: u8,
    pub z: u8,
}

impl LocalPos {
    /// All three axes are within the chunk.
    pub open spec fn wf(self) -> bool {
        self.x < 16 && self.y < 16 && self.z < 16
    }

    /// The packed representation: 4 bits per axis, x highest.
    pub open spec fn pack(self) -> int {
        self.x * 256 + self.y * 16 + self.z
    }

    /// The slot index of this position within a chunk's voxel array.
    pub open spec fn idx(self) -> int {
        self.pack()
    }

    /// Constructs a local position, failing if any axis is out of bounds.
    pub fn new(xyz: [u8; 3]) -> (r: Option<LocalPos>)
        ensures
            r is Some <==> (xyz[0] < 16 && xyz[1] < 16 && xyz[2] < 16),
            r matches Some(p) ==> p.x == xyz[0] && p.y == xyz[1] && p.z == xyz[2] && p.wf(),
    {
        if xyz[0] < CHUNK_WIDTH && xyz[1] < CHUNK_WIDTH && xyz[2] < CHUNK_WIDTH {
            Some(LocalPos { x: xyz[0], y: xyz[1], z: xyz[2] })
        } else {
            None
        }
    }

    /// Constructs a local position from axes the caller has already checked.
    pub fn new_unchecked(xyz: [u8; 3]) -> (r: LocalPos)
        requires
            xyz[0] < 16 && xyz[1] < 16 && xyz[2] < 16,
        ensures
            r.x == xyz[0] && r.y == xyz[1] && r.z == xyz[2] && r.wf(),
    {
        LocalPos { x: xyz[0], y: xyz[1], z: xyz[2] }
    }

    /// Decodes the packed representation, rejecting any bit pattern that
    /// uses more than the twelve low bits.
    pub fn try_from_bits(bits: u16) -> (r: Option<LocalPos>)
        ensures
            r is Some <==> bits < 0x1000,
            r matches Some(p) ==> p.wf() && p.pack() == bits,
    {
        if bits < 0x1000 {
            let p = LocalPos { x: (bits / 256) as u8, y: ((bits / 16) % 16) as u8, z: (bits % 16) as u8 };
            proof {
                assert(bits < 0x1000 ==> (bits / 256) * 256 + ((bits / 16) % 16) * 16 + (bits % 16)
                    == bits && bits / 256 < 16) by (bit_vector);
            }
            Some(p)
        } else {
            None
        }
    }

    /// The packed representation: 4 bits per axis, x highest.
    pub fn bits(self) -> (r: u16)
        requires
            self.wf(),
        ensures
            r == self.pack(),
    {
        self.x as u16 * 256 + self.y as u16 * 16 + self.z as u16
    }

    pub fn x(self) -> (r: u8)
        ensures
            r == self.x,
    {
        self.x
    }

    pub fn y(self) -> (r: u8)
        ensures
            r == self.y,
    {
        self.y
    }

    pub fn z(self) -> (r: u8)
        ensures
            r == self.z,
    {
        self.z
    }

    pub fn xyz(self) -> (r: [u8; 3])
        ensures
            r[0] == self.x && r[1] == self.y && r[2] == self.z,
    {
        [self.x, self.y, self.z]
    }

    /// Steps one voxel along the x axis; the caller must know there is room.
    pub fn inc_x(self) -> (r: LocalPos)
        requires
            self.wf(),
            self.x < 15,
        ensures
            r.wf() && r.x == self.x + 1 && r.y == self.y && r.z == self.z,
    {
        LocalPos { x: self.x + 1, y: self.y, z: self.z }
    }

    /// Steps one voxel along the y axis; the caller must know there is room.
    pub fn inc_y(self) -> (r: LocalPos)
        requires
            self.wf(),
            self.y < 15,
        ensures
            r.wf() && r.x == self.x && r.y == self.y + 1 && r.z == self.z,
    {
        LocalPos { x: self.x, y: self.y + 1, z: self.z }
    }

    /// Steps one voxel along the z axis; the caller must know there is room.
    pub fn inc_z(self) -> (r: LocalPos)
        requires
            self.wf(),
            self.z < 15,
        ensures
            r.wf() && r.x == self.x && r.y == self.y && r.z == self.z + 1,
    {
        LocalPos { x: self.x, y: self.y, z: self.z + 1 }
    }

    /// Projects onto a subset of axes, zeroing the rest.  Used to remap a
    /// boundary position into the local frame of a neighbouring chunk.
    pub fn mask(self, keep_x: bool, keep_y: bool, keep_z: bool) -> (r: LocalPos)
        requires
            self.wf(),
        ensures
            r.wf(),
            r.x == if keep_x { self.x } else { 0u8 },
            r.y == if keep_y { self.y } else { 0u8 },
            r.z == if keep_z { self.z } else { 0u8 },
    {
        LocalPos {
            x: if keep_x { self.x } else { 0 },
            y: if keep_y { self.y } else { 0 },
            z: if keep_z { self.z } else { 0 },
        }
    }

    /// The interior position with a given rank in enumeration order
    /// (x slowest, z fastest).
    pub open spec fn inner_position(i: int) -> LocalPos {
        LocalPos { x: (i / 225) as u8, y: ((i / 15) % 15) as u8, z: (i % 15) as u8 }
    }

    /// Every position whose axes are all in `0..CHUNK_WIDTH - 1`, so that
    /// stepping along any axis stays inside the chunk.  There are `15^3`
    /// of them, enumerated with x slowest and z fastest.
    pub fn inner_positions() -> (r: Vec<LocalPos>)
        ensures
            r@.len() == 3375,
            forall|i: int| 0 <= i < 3375 ==> r@[i] == #[trigger] Self::inner_position(i),
            forall|i: int|
                0 <= i < 3375 ==> (#[trigger] r@[i]).x < 15 && r@[i].y < 15 && r@[i].z < 15,
    {
        let mut r: Vec<LocalPos> = Vec::new();
        let mut x: u8 = 0;
        while x < 15
            invariant
                x <= 15,
                r@.len() == x * 225,
                forall|i: int| 0 <= i < r@.len() ==> r@[i] == #[trigger] Self::inner_position(i),
            decreases 15 - x,
        {
            let mut y: u8 = 0;
            while y < 15
                invariant
                    x < 15,
                    y <= 15,
                    r@.len() == x * 225 + y * 15,
                    forall|i: int| 0 <= i < r@.len() ==> r@[i] == #[trigger] Self::inner_position(i),
                decreases 15 - y,
            {
                let mut z: u8 = 0;
                while z < 15
                    invariant
                        x < 15,
                        y < 15,
                        z <= 15,
                        r@.len() == x * 225 + y * 15 + z,
                        forall|i: int|
                            0 <= i < r@.len() ==> r@[i] == #[trigger] Self::inner_position(i),
                    decreases 15 - z,
                {
                    let p = LocalPos { x, y, z };
                    proof {
                        lemma_inner_position_of_axes(x as int, y as int, z as int);
                    }
                    r.push(p);
                    z = z + 1;
                }
                y = y + 1;
            }
            x = x + 1;
        }
        proof {
            assert forall|i: int| 0 <= i < 3375 implies (#[trigger] r@[i]).x < 15 && r@[i].y < 15
                && r@[i].z < 15 by {
                assert(r@[i] == Self::inner_position(i));
                assert(0 <= i / 225 < 15 && 0 <= (i / 15) % 15 < 15 && 0 <= i % 15 < 15)
                    by (nonlinear_arith)
                    requires
                        0 <= i < 3375,
                ;
            }
        }
        r
    }
}

/// The interior position ranked `x * 225 + y * 15 + z` has exactly those axes.
proof fn lemma_inner_position_of_axes(x: int, y: int, z: int)
    requires
        0 <= x < 15,
        0 <= y < 15,
        0 <= z < 15,
    ensures
        LocalPos::inner_position(x * 225 + y * 15 + z) == (LocalPos {
            x: x as u8,
            y: y as u8,
            z: z as u8,
        }),
{
    let i = x * 225 + y * 15 + z;
    vstd::arithmetic::div_mod::lemma_fundamental_div_mod_converse(i, 225, x, y * 15 + z);
    vstd::arithmetic::div_mod::lemma_fundamental_div_mod_converse(i, 15, x * 15 + y, z);
    vstd::arithmetic::div_mod::lemma_fundamental_div_mod_converse(x * 15 + y, 15, x, y);
}

/// A chunk coordinate: the terrain-wide grid of chunks.
#[derive(Clone, Copy, PartialEq, Eq, Structural, Debug, Hash)]
pub struct ChunkPos {
    pub x: i32,
    pub y: i32,
    pub z: i32,
}

impl ChunkPos {
    /// The range of chunk coordinates reachable from 32-bit voxel
    /// coordinates: `[-2^27, 2^27 - 1]` per axis.
    pub open spec fn in_coord_range(self) -> bool {
        -0x800_0000 <= self.x <= 0x7FF_FFFF && -0x800_0000 <= self.y <= 0x7FF_FFFF
            && -0x800_0000 <= self.z <= 0x7FF_FFFF
    }

    /// At most one step outside `in_coord_range`, so that stepping once
    /// more along any axis still cannot overflow.
    pub open spec fn near_range(self) -> bool {
        -0x800_0001 <= self.x <= 0x800_0000 && -0x800_0001 <= self.y <= 0x800_0000
            && -0x800_0001 <= self.z <= 0x800_0000
    }

    pub fn new(x: i32, y: i32, z: i32) -> (r: ChunkPos)
        ensures
            r == (ChunkPos { x, y, z }),
    {
        ChunkPos { x, y, z }
    }

    /// This coordinate translated by a small per-axis offset.
    pub fn offset(self, dx: i32, dy: i32, dz: i32) -> (r: ChunkPos)
        requires
            i32::MIN <= self.x + dx <= i32::MAX,
            i32::MIN <= self.y + dy <= i32::MAX,
            i32::MIN <= self.z + dz <= i32::MAX,
        ensures
            r.x == self.x + dx && r.y == self.y + dy && r.z == self.z + dz,
    {
        ChunkPos { x: self.x + dx, y: self.y + dy, z: self.z + dz }
    }
}

/// Tells the caller of a chunk mutation whether the chunk just became empty
/// and should be dropped from the sparse map.
#[derive(Clone, Copy, PartialEq, Eq, Structural, Debug, Hash)]
#[must_use]
pub enum Cleanup {
    Keep,
    RemoveChunk,
}

impl Cleanup {
    /// `RemoveChunk` exactly when the occupancy counter has reached zero.
    pub fn remove_if_zero(c: u16) -> (r: Cleanup)
        ensures
            r == Cleanup::RemoveChunk <==> c == 0,
            r == Cleanup::Keep <==> c != 0,
    {
        if c == 0 {
            Cleanup::RemoveChunk
        } else {
            Cleanup::Keep
        }
    }
}

/// The number of occupied slots in a voxel array.
pub open spec fn count_some(s: Seq<TileSlot>) -> int
    decreases s.len(),
{
    if s.len() == 0 {
        0
    } else {
        count_some(s.drop_last()) + if s.last() is Some {
            1int
        } else {
            0int
        }
    }
}

pub proof fn lemma_count_some_nonneg(s: Seq<TileSlot>)
    ensures
        0 <= count_some(s) <= s.len(),
    decreases s.len(),
{
    if s.len() > 0 {
        lemma_count_some_nonneg(s.drop_last());
    }
}

/// Overwriting one slot moves the occupancy count by the difference of the
/// old and new slot's occupancy.
pub proof fn lemma_count_some_update(s: Seq<TileSlot>, i: int, v: TileSlot)
    requires
        0 <= i < s.len(),
    ensures
        count_some(s.update(i, v)) == count_some(s) - (if s[i] is Some {
            1int
        } else {
            0int
        }) + (if v is Some {
            1int
        } else {
            0int
        }),
    decreases s.len(),
{
    if i == s.len() - 1 {
        assert(s.update(i, v).drop_last() =~= s.drop_last());
    } else {
        assert(s.update(i, v).drop_last() =~= s.drop_last().update(i, v));
        lemma_count_some_update(s.drop_last(), i, v);
    }
}

/// The occupancy count is zero exactly when every slot is empty.
pub proof fn lemma_count_some_zero(s: Seq<TileSlot>)
    ensures
        count_some(s) == 0 <==> (forall|i: int| 0 <= i < s.len() ==> s[i] is None),
    decreases s.len(),
{
    if s.len() > 0 {
        lemma_count_some_zero(s.drop_last());
        lemma_count_some_nonneg(s.drop_last());
        assert(forall|i: int| 0 <= i < s.len() - 1 ==> s.drop_last()[i] == s[i]);
        assert(s.last() == s[s.len() - 1]);
        if count_some(s) == 0 {
            assert forall|i: int| 0 <= i < s.len() implies s[i] is None by {
                if i < s.len() - 1 {
                    assert(s.drop_last()[i] is None);
                }
            }
        }
    }
}

/// The all-empty voxel array of one chunk.
pub open spec fn empty_slots() -> Seq<TileSlot> {
    Seq::new(4096, |i: int| None)
}

/// A dense cube of `CHUNK_AREA` voxel slots with a counter of how many are
/// occupied.
#[derive(Debug)]
pub struct Chunk {
    pub data: Vec<TileSlot>,
    pub set_tiles: u16,
}

impl Chunk {
    /// The slots of this chunk, indexed by `LocalPos::idx`.
    pub open spec fn slots(self) -> Seq<TileSlot> {
        self.data@
    }

    /// The occupancy counter always equals the number of occupied slots.
    pub open spec fn wf(self) -> bool {
        self.data@.len() == 4096 && self.set_tiles == count_some(self.data@)
    }

    /// The occupancy counter.
    pub fn occupied(&self) -> (r: u16)
        requires
            self.wf(),
        ensures
            r == count_some(self.slots()),
    {
        self.set_tiles
    }

    /// The slot at a local position.
    pub fn get(&self, pos: LocalPos) -> (r: TileSlot)
        requires
            self.wf(),
            pos.wf(),
        ensures
            r == self.slots()[pos.idx()],
    {
        self.data[slot_index(pos)]
    }

    /// Writes a tile into a slot, counting it if the slot was empty.
    /// Setting never empties a chunk, so the cleanup signal is always
    /// `Keep`.
    pub fn set(&mut self, pos: LocalPos, tile: Tile) -> (r: Cleanup)
        requires
            old(self).wf(),
            pos.wf(),
        ensures
            final(self).wf(),
            final(self).slots() == old(self).slots().update(pos.idx(), Some(tile)),
            r == Cleanup::Keep,
    {
        let i = slot_index(pos);
        proof {
            lemma_count_some_update(self.data@, pos.idx(), Some(tile));
            lemma_count_some_nonneg(self.data@);
        }
        if self.data[i].is_none() {
            self.set_tiles = self.set_tiles + 1;
        }
        self.data[i] = Some(tile);
        Cleanup::Keep
    }

    /// Clears a slot, uncounting it if it was occupied.  Returns
    /// `RemoveChunk` exactly when the chunk has just become empty.
    pub fn remove(&mut self, pos: LocalPos) -> (r: Cleanup)
        requires
            old(self).wf(),
            pos.wf(),
        ensures
            final(self).wf(),
            final(self).slots() == old(self).slots().update(pos.idx(), None),
            r == Cleanup::RemoveChunk <==> count_some(final(self).slots()) == 0,
            r == Cleanup::Keep <==> count_some(final(self).slots()) != 0,
    {
        let i = slot_index(pos);
        proof {
            lemma_count_some_update(self.data@, pos.idx(), None);
            lemma_count_some_nonneg(self.data@);
        }
        if self.data[i].is_some() {
            proof {
                assert(old(self).slots()[pos.idx()] is Some);
                lemma_count_some_zero(old(self).data@);
                assert(count_some(old(self).data@) != 0);
            }
            self.set_tiles = self.set_tiles - 1;
        }
        self.data[i] = None;
        Cleanup::remove_if_zero(self.set_tiles)
    }
}

impl Default for Chunk {
    /// The empty chunk: every slot empty, occupancy zero.  Also used as a
    /// zero-cost stand-in for an absent neighbour chunk while meshing.
    fn default() -> (r: Chunk)
        ensures
            r.wf(),
            r.slots() == empty_slots(),
            count_some(r.slots()) == 0,
    {
        let mut data: Vec<TileSlot> = Vec::new();
        let mut i: usize = 0;
        while i < CHUNK_AREA
            invariant
                i <= 4096,
                data@.len() == i,
                forall|j: int| 0 <= j < i ==> data@[j] is None,
            decreases 4096 - i,
        {
            data.push(None);
            i = i + 1;
        }
        proof {
            assert(data@ =~= empty_slots());
            lemma_count_some_zero(data@);
        }
        Chunk { data, set_tiles: 0 }
    }
}

/// The slot index of a local position within the voxel array.
fn slot_index(pos: LocalPos) -> (r: usize)
    requires
        pos.wf(),
    ensures
        r == pos.idx(),
        r < 4096,
{
    pos.x as usize * 256 + pos.y as usize * 16 + pos.z as usize
}

} // verus!
