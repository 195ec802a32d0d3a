//! The sparse terrain store: a map from chunk coordinates to chunks, global
//! voxel addressing with floor-division semantics, and dirty-chunk tracking
//! that fans out to neighbouring chunks when an edit lands on a chunk
//! boundary.

use vstd::prelude::*;

use crate::chunk::{count_some, empty_slots, Chunk, ChunkPos, Cleanup, LocalPos, TileSlot};
use crate::tile::Tile;

verus! {

/// A global voxel position: the chunk holding the voxel, and the voxel's
/// position within that chunk.  The invariant is
/// `global = chunk * CHUNK_WIDTH + local` per axis, with the local part
/// always in `0..CHUNK_WIDTH`.
#[derive(Clone, Copy, PartialEq, Eq, Structural, Debug, Hash)]
pub struct GlobalPos {
    pub chunk: ChunkPos,
    pub local: LocalPos,
}

impl GlobalPos {
    pub open spec fn wf(self) -> bool {
        self.chunk.in_coord_range() && self.local.wf()
    }

    /// The global x coordinate this position addresses.
    pub open spec fn gx(self) -> int {
        self.chunk.x * 16 + self.local.x
    }

    pub open spec fn gy(self) -> int {
        self.chunk.y * 16 + self.local.y
    }

    pub open spec fn gz(self) -> int {
        self.chunk.z * 16 + self.local.z
    }

    pub fn x(self) -> (r: i64)
        ensures
            r == self.gx(),
    {
        self.chunk.x as i64 * 16 + self.local.x as i64
    }

    pub fn y(self) -> (r: i64)
        ensures
            r == self.gy(),
    {
        self.chunk.y as i64 * 16 + self.local.y as i64
    }

    pub fn z(self) -> (r: i64)
        ensures
            r == self.gz(),
    {
        self.chunk.z as i64 * 16 + self.local.z as i64
    }

    pub fn xyz(self) -> (r: [i64; 3])
        ensures
            r[0] == self.gx() && r[1] == self.gy() && r[2] == self.gz(),
    {
        [self.x(), self.y(), self.z()]
    }

    /// Builds the position addressing a 32-bit voxel coordinate.  Uses
    /// floor division and remainder, so negative coordinates map to the
    /// chunk below with a non-negative local part.
    pub fn from_xyz_i32(xyz: [i32; 3]) -> (r: GlobalPos)
        ensures
            r.wf(),
            r.gx() == xyz[0],
            r.gy() == xyz[1],
            r.gz() == xyz[2],
    {
        let (qx, rx) = split_coord(xyz[0]);
        let (qy, ry) = split_coord(xyz[1]);
        let (qz, rz) = split_coord(xyz[2]);
        GlobalPos {
            chunk: ChunkPos { x: qx, y: qy, z: qz },
            local: LocalPos { x: rx, y: ry, z: rz },
        }
    }

    /// As `from_xyz_i32`, after clamping each coordinate to the 32-bit
    /// range.
    pub fn from_xyz(xyz: [i64; 3]) -> (r: GlobalPos)
        ensures
            r.wf(),
            r.gx() == clamp_to_i32(xyz[0] as int),
            r.gy() == clamp_to_i32(xyz[1] as int),
            r.gz() == clamp_to_i32(xyz[2] as int),
    {
        GlobalPos::from_xyz_i32([clamp_i32(xyz[0]), clamp_i32(xyz[1]), clamp_i32(xyz[2])])
    }
}

impl Default for GlobalPos {
    /// The origin voxel.
    fn default() -> (r: GlobalPos)
        ensures
            r.wf(),
            r.gx() == 0 && r.gy() == 0 && r.gz() == 0,
    {
        GlobalPos { chunk: ChunkPos { x: 0, y: 0, z: 0 }, local: LocalPos { x: 0, y: 0, z: 0 } }
    }
}

/// A 64-bit coordinate clamped to the 32-bit range.
pub open spec fn clamp_to_i32(v: int) -> int {
    if v < -0x8000_0000 {
        -0x8000_0000
    } else if v > 0x7FFF_FFFF {
        0x7FFF_FFFF
    } else {
        v
    }
}

fn clamp_i32(v: i64) -> (r: i32)
    ensures
        r == clamp_to_i32(v as int),
{
    if v < -0x8000_0000i64 {
        i32::MIN
    } else if v > 0x7FFF_FFFFi64 {
        i32::MAX
    } else {
        v as i32
    }
}

/// Splits a voxel coordinate into its chunk coordinate and local part,
/// with floor-division semantics: `v == 16 * chunk + local` and
/// `0 <= local < 16`.
fn split_coord(v: i32) -> (r: (i32, u8))
    ensures
        16 * r.0 + r.1 == v,
        r.1 < 16,
        -0x800_0000 <= r.0 <= 0x7FF_FFFF,
{
    let b: u32 = ((v as i64) + 0x8000_0000i64) as u32;
    proof {
        vstd::arithmetic::div_mod::lemma_fundamental_div_mod(b as int, 16);
    }
    let q: i32 = (b / 16) as i32 - 0x800_0000;
    let rem: u8 = (b % 16) as u8;
    (q, rem)
}

/// The chunk map described by an association list: later entries shadow
/// earlier ones, though the terrain keeps its keys distinct.
pub open spec fn map_of(s: Seq<(ChunkPos, Chunk)>) -> Map<ChunkPos, Seq<TileSlot>>
    decreases s.len(),
{
    if s.len() == 0 {
        Map::empty()
    } else {
        map_of(s.drop_last()).insert(s.last().0, s.last().1.slots())
    }
}

/// No chunk coordinate appears twice.
pub open spec fn distinct_keys(s: Seq<(ChunkPos, Chunk)>) -> bool {
    forall|i: int, j: int| 0 <= i < j < s.len() ==> s[i].0 != s[j].0
}

/// The set of coordinates in a list.
pub open spec fn set_of(s: Seq<ChunkPos>) -> Set<ChunkPos> {
    Set::new(|c: ChunkPos| s.contains(c))
}

/// Every occupied slot holds a tile with a valid palette color.
pub open spec fn slots_tiles_wf(s: Seq<TileSlot>) -> bool {
    forall|j: int| 0 <= j < s.len() ==> ((#[trigger] s[j]) matches Some(t) ==> t.wf())
}

pub proof fn lemma_map_of_contains(s: Seq<(ChunkPos, Chunk)>, k: ChunkPos)
    ensures
        map_of(s).contains_key(k) <==> exists|i: int| 0 <= i < s.len() && s[i].0 == k,
    decreases s.len(),
{
    if s.len() > 0 {
        lemma_map_of_contains(s.drop_last(), k);
        if s.last().0 == k {
            assert(s[s.len() - 1].0 == k);
        } else {
            if map_of(s).contains_key(k) {
                let i = choose|i: int| 0 <= i < s.len() - 1 && s.drop_last()[i].0 == k;
                assert(s[i].0 == k);
            }
            if exists|i: int| 0 <= i < s.len() && s[i].0 == k {
                let i = choose|i: int| 0 <= i < s.len() && s[i].0 == k;
                assert(i < s.len() - 1);
                assert(s.drop_last()[i].0 == k);
            }
        }
    }
}

pub proof fn lemma_map_of_get(s: Seq<(ChunkPos, Chunk)>, i: int)
    requires
        distinct_keys(s),
        0 <= i < s.len(),
    ensures
        map_of(s).contains_key(s[i].0),
        map_of(s)[s[i].0] == s[i].1.slots(),
    decreases s.len(),
{
    if i == s.len() - 1 {
    } else {
        assert(s.drop_last()[i] == s[i]);
        lemma_map_of_get(s.drop_last(), i);
        assert(s.last().0 != s[i].0);
    }
}

pub proof fn lemma_map_of_remove(s: Seq<(ChunkPos, Chunk)>, i: int)
    requires
        distinct_keys(s),
        0 <= i < s.len(),
    ensures
        map_of(s.remove(i)) == map_of(s).remove(s[i].0),
    decreases s.len(),
{
    let k = s[i].0;
    if i == s.len() - 1 {
        assert(s.remove(i) =~= s.drop_last());
        lemma_map_of_contains(s.drop_last(), k);
        assert(forall|j: int| 0 <= j < s.len() - 1 ==> (#[trigger] s.drop_last()[j]).0 != k);
        assert(!map_of(s.drop_last()).contains_key(k));
        assert(map_of(s).remove(k) =~= map_of(s.drop_last()));
    } else {
        assert(s.remove(i).drop_last() =~= s.drop_last().remove(i));
        assert(s.remove(i).last() == s.last());
        assert(s.drop_last()[i] == s[i]);
        lemma_map_of_remove(s.drop_last(), i);
        assert(s.last().0 != k);
        assert(map_of(s.remove(i)) =~= map_of(s).remove(k));
    }
}

pub proof fn lemma_set_of_push(s: Seq<ChunkPos>, c: ChunkPos)
    ensures
        set_of(s.push(c)) == set_of(s).insert(c),
{
    assert forall|q: ChunkPos| #[trigger]
        set_of(s.push(c)).contains(q) <==> set_of(s).insert(c).contains(q) by {
        if s.push(c).contains(q) {
            let i = choose|i: int| 0 <= i < s.push(c).len() && s.push(c)[i] == q;
            if i < s.len() {
                assert(s[i] == q);
            }
        }
        if s.contains(q) {
            let i = choose|i: int| 0 <= i < s.len() && s[i] == q;
            assert(s.push(c)[i] == q);
        }
        if q == c {
            assert(s.push(c)[s.len() as int] == q);
        }
    }
    assert(set_of(s.push(c)) =~= set_of(s).insert(c));
}

pub proof fn lemma_set_of_remove(s: Seq<ChunkPos>, i: int)
    requires
        0 <= i < s.len(),
        forall|a: int, b: int| 0 <= a < b < s.len() ==> s[a] != s[b],
    ensures
        set_of(s.remove(i)) == set_of(s).remove(s[i]),
{
    let t = s.remove(i);
    assert forall|q: ChunkPos| #[trigger]
        t.contains(q) <==> (s.contains(q) && q != s[i]) by {
        if t.contains(q) {
            let j = choose|j: int| 0 <= j < t.len() && t[j] == q;
            if j < i {
                assert(s[j] == q);
            } else {
                assert(s[j + 1] == q);
            }
        }
        if s.contains(q) && q != s[i] {
            let j = choose|j: int| 0 <= j < s.len() && s[j] == q;
            if j < i {
                assert(t[j] == q);
            } else {
                assert(j > i);
                assert(t[j - 1] == q);
            }
        }
    }
    assert(set_of(t) =~= set_of(s).remove(s[i]));
}

/// Which voxel a chunk map holds at a global position: none when the chunk
/// is absent or the slot is empty.
pub open spec fn tile_at(m: Map<ChunkPos, Seq<TileSlot>>, pos: GlobalPos) -> Option<Tile> {
    if m.contains_key(pos.chunk) {
        m[pos.chunk][pos.local.idx()]
    } else {
        None
    }
}

/// The chunks whose mesh is affected by an edit at `pos`: the home chunk,
/// and, for every non-empty subset of axes on which the local coordinate is
/// zero, the chunk one step down along those axes.
pub open spec fn dirty_chunks(pos: GlobalPos) -> Set<ChunkPos> {
    Set::new(
        |q: ChunkPos|
            {
                &&& (q.x == pos.chunk.x || (pos.local.x == 0 && q.x == pos.chunk.x - 1))
                &&& (q.y == pos.chunk.y || (pos.local.y == 0 && q.y == pos.chunk.y - 1))
                &&& (q.z == pos.chunk.z || (pos.local.z == 0 && q.z == pos.chunk.z - 1))
            },
    )
}

/// The slots of the chunk at `pos.chunk` after writing `tile` at `pos`,
/// starting from the empty chunk when the map does not hold one yet.
pub open spec fn slots_after_set(
    m: Map<ChunkPos, Seq<TileSlot>>,
    pos: GlobalPos,
    tile: Tile,
) -> Seq<TileSlot> {
    (if m.contains_key(pos.chunk) {
        m[pos.chunk]
    } else {
        empty_slots()
    }).update(pos.local.idx(), Some(tile))
}

/// The slots of the chunk at `pos.chunk` after clearing the slot at `pos`.
pub open spec fn slots_after_remove(m: Map<ChunkPos, Seq<TileSlot>>, pos: GlobalPos) -> Seq<
    TileSlot,
> {
    m[pos.chunk].update(pos.local.idx(), None)
}

/// How `Terrain::set` changes the terrain: the voxel is written, the edit's
/// dirty fan-out is recorded, and nothing else moves.
pub open spec fn set_post(pre: Terrain, post: Terrain, pos: GlobalPos, tile: Tile) -> bool {
    &&& post.wf()
    &&& post.chunk_map() == pre.chunk_map().insert(
        pos.chunk,
        slots_after_set(pre.chunk_map(), pos, tile),
    )
    &&& post.changed_set() == pre.changed_set().union(dirty_chunks(pos))
    &&& post.meshed@ == pre.meshed@
}

/// How `Terrain::remove` changes the terrain: a no-op when the chunk is
/// absent; otherwise the slot is cleared, the chunk is dropped from the map
/// exactly when it just became empty, and the edit's dirty fan-out is
/// recorded.
pub open spec fn remove_post(pre: Terrain, post: Terrain, pos: GlobalPos) -> bool {
    &&& post.wf()
    &&& post.meshed@ == pre.meshed@
    &&& if pre.chunk_map().contains_key(pos.chunk) {
        {
            let u = slots_after_remove(pre.chunk_map(), pos);
            &&& post.chunk_map() == if count_some(u) == 0 {
                pre.chunk_map().remove(pos.chunk)
            } else {
                pre.chunk_map().insert(pos.chunk, u)
            }
            &&& post.changed_set() == pre.changed_set().union(dirty_chunks(pos))
        }
    } else {
        post == pre
    }
}

/// The sparse chunked voxel store: the chunk map, the set of chunks whose
/// mesh is out of date, and the set of chunks that currently have mesh
/// geometry.
#[derive(Debug)]
pub struct Terrain {
    /// The chunk map, as an association list with distinct keys.  Every
    /// stored chunk is non-empty: a chunk that loses its last voxel is
    /// dropped from the map.
    pub chunks: Vec<(ChunkPos, Chunk)>,
    /// Chunk coordinates pending a remesh.
    pub changed: Vec<ChunkPos>,
    /// Chunk coordinates that currently have mesh geometry; kept by the
    /// meshing pass, one pass behind the chunk map.
    pub meshed: Vec<ChunkPos>,
}

impl Terrain {
    pub open spec fn chunk_map(self) -> Map<ChunkPos, Seq<TileSlot>> {
        map_of(self.chunks@)
    }

    pub open spec fn changed_set(self) -> Set<ChunkPos> {
        set_of(self.changed@)
    }

    pub open spec fn meshed_set(self) -> Set<ChunkPos> {
        set_of(self.meshed@)
    }

    pub open spec fn wf(self) -> bool {
        &&& distinct_keys(self.chunks@)
        &&& forall|i: int|
            0 <= i < self.chunks@.len() ==> (#[trigger] self.chunks@[i]).1.wf()
                && self.chunks@[i].0.in_coord_range() && count_some(self.chunks@[i].1.slots()) > 0
                && slots_tiles_wf(self.chunks@[i].1.slots())
        &&& forall|i: int, j: int|
            0 <= i < j < self.changed@.len() ==> self.changed@[i] != self.changed@[j]
        &&& forall|i: int|
            0 <= i < self.changed@.len() ==> (#[trigger] self.changed@[i]).near_range()
        &&& forall|i: int, j: int|
            0 <= i < j < self.meshed@.len() ==> self.meshed@[i] != self.meshed@[j]
        &&& forall|i: int| 0 <= i < self.meshed@.len() ==> (#[trigger] self.meshed@[i]).near_range()
    }

    /// The index of the chunk map entry holding `c`, if there is one.
    pub(crate) fn find_chunk(&self, c: ChunkPos) -> (r: Option<usize>)
        ensures
            match r {
                Some(i) => i < self.chunks@.len() && self.chunks@[i as int].0 == c,
                None => forall|j: int| 0 <= j < self.chunks@.len() ==> self.chunks@[j].0 != c,
            },
    {
        let mut i: usize = 0;
        while i < self.chunks.len()
            invariant
                i <= self.chunks@.len(),
                forall|j: int| 0 <= j < i ==> self.chunks@[j].0 != c,
            decreases self.chunks@.len() - i,
        {
            if self.chunks[i].0 == c {
                return Some(i);
            }
            i = i + 1;
        }
        None
    }

    /// Looks up the voxel at a global position.
    pub fn get(&self, pos: GlobalPos) -> (r: Option<Tile>)
        requires
            self.wf(),
            pos.wf(),
        ensures
            r == tile_at(self.chunk_map(), pos),
    {
        proof {
            lemma_map_of_contains(self.chunks@, pos.chunk);
        }
        match self.find_chunk(pos.chunk) {
            Some(i) => {
                proof {
                    lemma_map_of_get(self.chunks@, i as int);
                }
                self.chunks[i].1.get(pos.local)
            },
            None => None,
        }
    }

    /// Writes a voxel, creating its chunk if absent, and marks the edit's
    /// dirty fan-out.
    pub fn set(&mut self, pos: GlobalPos, tile: Tile)
        requires
            old(self).wf(),
            pos.wf(),
            tile.wf(),
        ensures
            set_post(*old(self), *final(self), pos, tile),
    {
        proof {
            lemma_map_of_contains(self.chunks@, pos.chunk);
        }
        match self.find_chunk(pos.chunk) {
            Some(i) => {
                proof {
                    lemma_map_of_get(self.chunks@, i as int);
                    lemma_map_of_remove(self.chunks@, i as int);
                }
                let mut entry = self.chunks.remove(i);
                let ghost removed: Seq<(ChunkPos, Chunk)> = self.chunks@;
                proof {
                    crate::chunk::lemma_count_some_update(
                        entry.1.slots(),
                        pos.local.idx(),
                        Some(tile),
                    );
                    crate::chunk::lemma_count_some_nonneg(entry.1.slots());
                    if entry.1.slots()[pos.local.idx()] is Some {
                        crate::chunk::lemma_count_some_zero(entry.1.slots());
                    }
                }
                let _ = entry.1.set(pos.local, tile);
                self.chunks.push(entry);
                proof {
                    assert(self.chunks@.drop_last() =~= removed);
                    assert(self.chunk_map() =~= old(self).chunk_map().insert(
                        pos.chunk,
                        slots_after_set(old(self).chunk_map(), pos, tile),
                    ));
                }
            },
            None => {
                let mut chunk = Chunk::default();
                proof {
                    crate::chunk::lemma_count_some_update(
                        chunk.slots(),
                        pos.local.idx(),
                        Some(tile),
                    );
                }
                let _ = chunk.set(pos.local, tile);
                let ghost before: Seq<(ChunkPos, Chunk)> = self.chunks@;
                self.chunks.push((pos.chunk, chunk));
                proof {
                    assert(self.chunks@.drop_last() =~= before);
                    assert(self.chunk_map() =~= old(self).chunk_map().insert(
                        pos.chunk,
                        slots_after_set(old(self).chunk_map(), pos, tile),
                    ));
                }
            },
        }
        self.mark_changed(pos);
    }

    /// Clears a voxel.  Does nothing when the chunk is absent; otherwise
    /// drops the chunk from the map when it just became empty, and marks
    /// the edit's dirty fan-out.
    pub fn remove(&mut self, pos: GlobalPos)
        requires
            old(self).wf(),
            pos.wf(),
        ensures
            remove_post(*old(self), *final(self), pos),
    {
        proof {
            lemma_map_of_contains(self.chunks@, pos.chunk);
        }
        match self.find_chunk(pos.chunk) {
            Some(i) => {
                proof {
                    lemma_map_of_get(self.chunks@, i as int);
                    lemma_map_of_remove(self.chunks@, i as int);
                }
                let mut entry = self.chunks.remove(i);
                let ghost removed: Seq<(ChunkPos, Chunk)> = self.chunks@;
                proof {
                    crate::chunk::lemma_count_some_update(entry.1.slots(), pos.local.idx(), None);
                    crate::chunk::lemma_count_some_nonneg(entry.1.slots());
                    if entry.1.slots()[pos.local.idx()] is Some {
                        crate::chunk::lemma_count_some_zero(entry.1.slots());
                    }
                }
                match entry.1.remove(pos.local) {
                    Cleanup::Keep => {
                        self.chunks.push(entry);
                        proof {
                            assert(self.chunks@.drop_last() =~= removed);
                            assert(self.chunk_map() =~= old(self).chunk_map().insert(
                                pos.chunk,
                                slots_after_remove(old(self).chunk_map(), pos),
                            ));
                        }
                    },
                    Cleanup::RemoveChunk => {
                        proof {
                            assert(self.chunk_map() == old(self).chunk_map().remove(pos.chunk));
                        }
                    },
                }
                self.mark_changed(pos);
            },
            None => {},
        }
    }

    /// Writes or clears a voxel, as the slot value says.
    pub fn set_slot(&mut self, pos: GlobalPos, slot: TileSlot)
        requires
            old(self).wf(),
            pos.wf(),
            slot matches Some(t) ==> t.wf(),
        ensures
            match slot {
                Some(tile) => set_post(*old(self), *final(self), pos, tile),
                None => remove_post(*old(self), *final(self), pos),
            },
    {
        match slot {
            Some(tile) => self.set(pos, tile),
            None => self.remove(pos),
        }
    }

    /// Drops every chunk and queues every chunk that still has mesh
    /// geometry for a remesh, so stale geometry is cleaned up by the next
    /// meshing pass.
    pub fn clear(&mut self)
        requires
            old(self).wf(),
        ensures
            final(self).wf(),
            final(self).chunk_map() == Map::<ChunkPos, Seq<TileSlot>>::empty(),
            final(self).changed_set() == old(self).meshed_set(),
            final(self).meshed@ == old(self).meshed@,
    {
        self.chunks.clear();
        self.changed.clear();
        let mut i: usize = 0;
        while i < self.meshed.len()
            invariant
                i <= self.meshed@.len(),
                self.changed@ =~= self.meshed@.take(i as int),
                self.chunks@.len() == 0,
                self.meshed@ == old(self).meshed@,
                old(self).wf(),
            decreases self.meshed@.len() - i,
        {
            let c = self.meshed[i];
            self.changed.push(c);
            proof {
                assert(self.changed@ =~= self.meshed@.take(i + 1));
            }
            i = i + 1;
        }
        proof {
            assert(self.changed@ =~= self.meshed@);
            assert(self.changed_set() =~= old(self).meshed_set());
        }
    }

    /// Records `c` as currently having mesh geometry.
    pub(crate) fn insert_meshed(&mut self, c: ChunkPos)
        requires
            old(self).wf(),
            c.near_range(),
        ensures
            final(self).wf(),
            final(self).chunks@ == old(self).chunks@,
            final(self).changed@ == old(self).changed@,
            final(self).meshed_set() == old(self).meshed_set().insert(c),
    {
        let mut i: usize = 0;
        while i < self.meshed.len()
            invariant
                i <= self.meshed@.len(),
                forall|j: int| 0 <= j < i ==> self.meshed@[j] != c,
                self == old(self),
                old(self).wf(),
            decreases self.meshed@.len() - i,
        {
            if self.meshed[i] == c {
                proof {
                    assert(self.meshed@.contains(c));
                    assert(final(self).meshed_set() =~= old(self).meshed_set().insert(c));
                }
                return ;
            }
            i = i + 1;
        }
        self.meshed.push(c);
        proof {
            lemma_set_of_push(old(self).meshed@, c);
        }
    }

    /// Forgets that `c` has mesh geometry; reports whether it had any.
    pub(crate) fn remove_meshed(&mut self, c: ChunkPos) -> (was: bool)
        requires
            old(self).wf(),
        ensures
            final(self).wf(),
            final(self).chunks@ == old(self).chunks@,
            final(self).changed@ == old(self).changed@,
            was == old(self).meshed_set().contains(c),
            final(self).meshed_set() == old(self).meshed_set().remove(c),
    {
        let mut i: usize = 0;
        while i < self.meshed.len()
            invariant
                i <= self.meshed@.len(),
                forall|j: int| 0 <= j < i ==> self.meshed@[j] != c,
                self == old(self),
                old(self).wf(),
            decreases self.meshed@.len() - i,
        {
            if self.meshed[i] == c {
                proof {
                    assert(self.meshed@.contains(c));
                    lemma_set_of_remove(self.meshed@, i as int);
                }
                let _ = self.meshed.remove(i);
                return true;
            }
            i = i + 1;
        }
        proof {
            assert(!self.meshed@.contains(c));
            assert(final(self).meshed_set() =~= old(self).meshed_set().remove(c));
        }
        false
    }

    /// Records `c` as pending a remesh.
    fn insert_changed(&mut self, c: ChunkPos)
        requires
            old(self).wf(),
            c.near_range(),
        ensures
            final(self).wf(),
            final(self).chunks@ == old(self).chunks@,
            final(self).meshed@ == old(self).meshed@,
            final(self).changed_set() == old(self).changed_set().insert(c),
    {
        let mut i: usize = 0;
        while i < self.changed.len()
            invariant
                i <= self.changed@.len(),
                forall|j: int| 0 <= j < i ==> self.changed@[j] != c,
                self == old(self),
                old(self).wf(),
            decreases self.changed@.len() - i,
        {
            if self.changed[i] == c {
                proof {
                    assert(self.changed@.contains(c));
                    assert(final(self).changed_set() =~= old(self).changed_set().insert(c));
                }
                return ;
            }
            i = i + 1;
        }
        self.changed.push(c);
        proof {
            lemma_set_of_push(old(self).changed@, c);
        }
    }

    /// Marks dirty every chunk whose mesh the edit at `pos` can affect:
    /// the home chunk always, and the chunk one step down along every
    /// non-empty subset of axes on which the local coordinate is zero.
    fn mark_changed(&mut self, pos: GlobalPos)
        requires
            old(self).wf(),
            pos.wf(),
        ensures
            final(self).wf(),
            final(self).chunks@ == old(self).chunks@,
            final(self).meshed@ == old(self).meshed@,
            final(self).changed_set() == old(self).changed_set().union(dirty_chunks(pos)),
    {
        let c = pos.chunk;
        let x0 = pos.local.x == 0;
        let y0 = pos.local.y == 0;
        let z0 = pos.local.z == 0;
        self.insert_changed(c);
        if x0 {
            self.insert_changed(c.offset(-1, 0, 0));
        }
        if y0 {
            self.insert_changed(c.offset(0, -1, 0));
        }
        if z0 {
            self.insert_changed(c.offset(0, 0, -1));
        }
        if x0 && y0 {
            self.insert_changed(c.offset(-1, -1, 0));
        }
        if x0 && z0 {
            self.insert_changed(c.offset(-1, 0, -1));
        }
        if y0 && z0 {
            self.insert_changed(c.offset(0, -1, -1));
        }
        if x0 && y0 && z0 {
            self.insert_changed(c.offset(-1, -1, -1));
        }
        proof {
            assert(final(self).changed_set() =~= old(self).changed_set().union(dirty_chunks(pos)));
        }
    }
}

impl Default for Terrain {
    /// The empty terrain: no chunks, nothing dirty, nothing meshed.
    fn default() -> (r: Terrain)
        ensures
            r.wf(),
            r.chunk_map() == Map::<ChunkPos, Seq<TileSlot>>::empty(),
            r.changed_set() == Set::<ChunkPos>::empty(),
            r.meshed@ == Seq::<ChunkPos>::empty(),
    {
        let r = Terrain { chunks: Vec::new(), changed: Vec::new(), meshed: Vec::new() };
        proof {
            assert(r.changed_set() =~= Set::<ChunkPos>::empty());
        }
        r
    }
}

/// Setting a voxel whose chunk is absent and then immediately removing it
/// restores the chunk map exactly; on an empty terrain, the terrain is left
/// with zero chunks.
pub proof fn lemma_set_then_remove_restores(
    pre: Terrain,
    mid: Terrain,
    post: Terrain,
    pos: GlobalPos,
    tile: Tile,
)
    requires
        pos.wf(),
        !pre.chunk_map().contains_key(pos.chunk),
        set_post(pre, mid, pos, tile),
        remove_post(mid, post, pos),
    ensures
        post.chunk_map() == pre.chunk_map(),
{
    let written = slots_after_set(pre.chunk_map(), pos, tile);
    let u = slots_after_remove(mid.chunk_map(), pos);
    assert(mid.chunk_map()[pos.chunk] == written);
    assert(u =~= empty_slots().update(pos.local.idx(), None));
    assert(u =~= empty_slots());
    crate::chunk::lemma_count_some_zero(empty_slots());
    assert(count_some(u) == 0);
    assert(post.chunk_map() == mid.chunk_map().remove(pos.chunk));
    assert(post.chunk_map() =~= pre.chunk_map());
}

} // verus!
