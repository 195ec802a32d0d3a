//! The surface-extraction engine.  For every lattice corner of a dirty
//! chunk it samples the eight voxels meeting at that corner (an octet),
//! consulting neighbouring chunks across the chunk's three positive faces,
//! three edges and single far corner, and emits a quarter-face quad for
//! every solid voxel whose face is not occluded by the voxel across it.

use vstd::prelude::*;

use crate::chunk::{empty_slots, Chunk, ChunkPos, LocalPos, TileSlot};
use crate::mesh_builder::{
    Face, MeshBuilder, MeshVert, SubtileEdge, SubtileFace, WallFlags, wall_quad_verts,
};
use crate::terrain::{
    lemma_map_of_contains, lemma_map_of_get, slots_tiles_wf, tile_at, GlobalPos, Terrain,
};
use crate::tile::Tile;

verus! {

/// One of the eight octant positions around a lattice corner, one flag per
/// axis: the flag says whether the octant lies one step along that axis.
#[derive(Clone, Copy, PartialEq, Eq, Structural, Debug, Hash)]
pub struct Subtile {
    pub x: bool,
    pub y: bool,
    pub z: bool,
}

impl Subtile {
    /// The octant's index: x highest bit, z lowest.
    pub open spec fn idx(self) -> int {
        (if self.x {
            4int
        } else {
            0int
        }) + (if self.y {
            2int
        } else {
            0int
        }) + (if self.z {
            1int
        } else {
            0int
        })
    }

    /// The octant with a given index.
    pub open spec fn from_index(i: int) -> Subtile {
        Subtile { x: i / 4 % 2 == 1, y: i / 2 % 2 == 1, z: i % 2 == 1 }
    }

    /// The octant across a face direction: the same octant with that
    /// axis's flag flipped.
    pub open spec fn flip(self, f: SubtileFace) -> Subtile {
        match f {
            SubtileFace::X => Subtile { x: !self.x, y: self.y, z: self.z },
            SubtileFace::Y => Subtile { x: self.x, y: !self.y, z: self.z },
            SubtileFace::Z => Subtile { x: self.x, y: self.y, z: !self.z },
        }
    }

    /// Whether every set axis flag of `axis` is also set here.
    pub open spec fn contains_spec(self, axis: Subtile) -> bool {
        (axis.x ==> self.x) && (axis.y ==> self.y) && (axis.z ==> self.z)
    }

    pub fn contains(self, axis: Subtile) -> (r: bool)
        ensures
            r == self.contains_spec(axis),
    {
        (!axis.x || self.x) && (!axis.y || self.y) && (!axis.z || self.z)
    }

    /// The octant's index: x highest bit, z lowest.
    pub fn bits(self) -> (r: u8)
        ensures
            r == self.idx(),
    {
        (if self.x {
            4u8
        } else {
            0u8
        }) + (if self.y {
            2u8
        } else {
            0u8
        }) + (if self.z {
            1u8
        } else {
            0u8
        })
    }

    /// All eight octants, in index order.
    pub fn subtiles() -> (r: Vec<Subtile>)
        ensures
            r@.len() == 8,
            forall|i: int| 0 <= i < 8 ==> r@[i] == #[trigger] Subtile::from_index(i),
    {
        let mut r: Vec<Subtile> = Vec::new();
        r.push(Subtile { x: false, y: false, z: false });
        r.push(Subtile { x: false, y: false, z: true });
        r.push(Subtile { x: false, y: true, z: false });
        r.push(Subtile { x: false, y: true, z: true });
        r.push(Subtile { x: true, y: false, z: false });
        r.push(Subtile { x: true, y: false, z: true });
        r.push(Subtile { x: true, y: true, z: false });
        r.push(Subtile { x: true, y: true, z: true });
        proof {
            assert forall|i: int| 0 <= i < 8 implies r@[i] == #[trigger] Subtile::from_index(
                i,
            ) by {
                assert(r@[0] == Subtile::from_index(0));
                assert(r@[1] == Subtile::from_index(1));
                assert(r@[2] == Subtile::from_index(2));
                assert(r@[3] == Subtile::from_index(3));
                assert(r@[4] == Subtile::from_index(4));
                assert(r@[5] == Subtile::from_index(5));
                assert(r@[6] == Subtile::from_index(6));
                assert(r@[7] == Subtile::from_index(7));
            }
        }
        r
    }

    /// The octant whose voxel lies across the given face of this octant.
    pub fn tile_at_face(self, face: SubtileFace) -> (r: Subtile)
        ensures
            r == self.flip(face),
    {
        match face {
            SubtileFace::X => Subtile { x: !self.x, y: self.y, z: self.z },
            SubtileFace::Y => Subtile { x: self.x, y: !self.y, z: self.z },
            SubtileFace::Z => Subtile { x: self.x, y: self.y, z: !self.z },
        }
    }
}

/// The eight voxels meeting at one lattice corner, indexed by octant.
#[derive(Debug)]
pub struct CornerTiles(pub [TileSlot; 8]);

impl CornerTiles {
    /// Every held tile carries a valid palette color.
    pub open spec fn wf(self) -> bool {
        forall|i: int| 0 <= i < 8 ==> ((#[trigger] self.0@[i]) matches Some(t) ==> t.wf())
    }

    /// The voxel at an octant.
    pub fn get(&self, s: Subtile) -> (r: TileSlot)
        ensures
            r == self.0@[s.idx()],
    {
        self.0[s.bits() as usize]
    }
}

/// The texture coordinate of a tile, in sixteenths of the palette texture.
pub open spec fn uv_sixteenths(t: Tile) -> (int, int) {
    match t {
        Tile::Brick { color } => color.uv_spec(),
    }
}

/// The vertices one octant emits in one face direction: a quarter-face
/// wall quad when the octant's voxel is occupied and the voxel across that
/// face does not occlude it; nothing otherwise.
pub open spec fn face_verts(
    tiles: Seq<TileSlot>,
    s: Subtile,
    f: SubtileFace,
    off: (int, int, int),
) -> Seq<MeshVert> {
    match tiles[s.idx()] {
        Some(tile) => if tiles[s.flip(f).idx()] is None {
            wall_quad_verts(f, s, uv_sixteenths(tile), off)
        } else {
            Seq::empty()
        },
        None => Seq::empty(),
    }
}

/// The vertices one octant emits: its three face directions in order.
pub open spec fn subtile_verts(tiles: Seq<TileSlot>, s: Subtile, off: (int, int, int)) -> Seq<
    MeshVert,
> {
    face_verts(tiles, s, SubtileFace::X, off) + face_verts(tiles, s, SubtileFace::Y, off)
        + face_verts(tiles, s, SubtileFace::Z, off)
}

/// The builder offset of a corner: its local position, in half-units.
pub open spec fn corner_offset(pos: LocalPos) -> (int, int, int) {
    (2 * pos.x, 2 * pos.y, 2 * pos.z)
}

/// The vertices of the first `k` octants of a corner.
pub open spec fn corner_verts_upto(tiles: Seq<TileSlot>, pos: LocalPos, k: int) -> Seq<MeshVert>
    decreases k,
{
    if k <= 0 {
        Seq::empty()
    } else {
        corner_verts_upto(tiles, pos, k - 1) + subtile_verts(
            tiles,
            Subtile::from_index(k - 1),
            corner_offset(pos),
        )
    }
}

/// All vertices one corner emits: its eight octants in index order.
pub open spec fn corner_verts(tiles: Seq<TileSlot>, pos: LocalPos) -> Seq<MeshVert> {
    corner_verts_upto(tiles, pos, 8)
}

impl Tile {
    /// Emits the geometry of one octant of a corner: for each of the three
    /// face directions, a wall quad exactly when the octant's voxel is
    /// occupied and not occluded across that face.
    pub fn generate_mesh(tiles: &CornerTiles, subtile: Subtile, mesh: &mut MeshBuilder)
        requires
            old(mesh).wf(),
            tiles.wf(),
        ensures
            final(mesh).wf(),
            final(mesh).offset == old(mesh).offset,
            final(mesh).verts() == old(mesh).verts() + subtile_verts(
                tiles.0@,
                subtile,
                old(mesh).offset_spec(),
            ),
    {
        let ghost off = old(mesh).offset_spec();
        match tiles.get(subtile) {
            None => {
                proof {
                    assert(subtile_verts(tiles.0@, subtile, off) =~= Seq::<MeshVert>::empty());
                    assert(final(mesh).verts() =~= old(mesh).verts() + subtile_verts(
                        tiles.0@,
                        subtile,
                        off,
                    ));
                }
            },
            Some(Tile::Brick { color }) => {
                let t = color.uv();
                let ghost v0 = mesh.verts();
                let adj_x = subtile.tile_at_face(SubtileFace::X);
                if !Tile::is_solid(tiles.get(adj_x)) {
                    mesh.add(
                        Face::Wall(
                            WallFlags::connected_all().set_facing_positive(
                                subtile,
                                SubtileFace::X.subtile_axis(),
                            ),
                        ),
                        t,
                        subtile,
                        SubtileFace::X,
                    );
                }
                proof {
                    assert(mesh.verts() =~= v0 + face_verts(tiles.0@, subtile, SubtileFace::X, off));
                }
                let ghost v1 = mesh.verts();
                let adj_y = subtile.tile_at_face(SubtileFace::Y);
                if !Tile::is_solid(tiles.get(adj_y)) {
                    mesh.add(
                        Face::Wall(
                            WallFlags::connected_all().set_facing_positive(
                                subtile,
                                SubtileFace::Y.subtile_axis(),
                            ),
                        ),
                        t,
                        subtile,
                        SubtileFace::Y,
                    );
                }
                proof {
                    assert(mesh.verts() =~= v1 + face_verts(tiles.0@, subtile, SubtileFace::Y, off));
                }
                let ghost v2 = mesh.verts();
                let adj_z = subtile.tile_at_face(SubtileFace::Z);
                if !Tile::is_solid(tiles.get(adj_z)) {
                    mesh.add(
                        Face::Wall(
                            WallFlags::connected_all().set_facing_positive(
                                subtile,
                                SubtileFace::Z.subtile_axis(),
                            ),
                        ),
                        t,
                        subtile,
                        SubtileFace::Z,
                    );
                }
                proof {
                    assert(mesh.verts() =~= v2 + face_verts(tiles.0@, subtile, SubtileFace::Z, off));
                    assert(final(mesh).verts() =~= old(mesh).verts() + subtile_verts(
                        tiles.0@,
                        subtile,
                        off,
                    ));
                }
            },
        }
    }
}

/// Emits the geometry of one corner: places the builder at the corner's
/// local position and generates all eight octants in index order.
pub fn generate_corner_mesh(tiles: &CornerTiles, pos: LocalPos, mesh: &mut MeshBuilder)
    requires
        old(mesh).wf(),
        tiles.wf(),
        pos.wf(),
    ensures
        final(mesh).wf(),
        final(mesh).offset_spec() == corner_offset(pos),
        final(mesh).verts() == old(mesh).verts() + corner_verts(tiles.0@, pos),
{
    mesh.set_offset([2 * pos.x as i32, 2 * pos.y as i32, 2 * pos.z as i32]);
    let subs = Subtile::subtiles();
    let mut i: usize = 0;
    while i < 8
        invariant
            i <= 8,
            subs@.len() == 8,
            forall|j: int| 0 <= j < 8 ==> subs@[j] == #[trigger] Subtile::from_index(j),
            tiles.wf(),
            pos.wf(),
            mesh.wf(),
            mesh.offset_spec() == corner_offset(pos),
            mesh.verts() == old(mesh).verts() + corner_verts_upto(tiles.0@, pos, i as int),
        decreases 8 - i,
    {
        Tile::generate_mesh(tiles, subs[i], mesh);
        proof {
            assert(mesh.verts() =~= old(mesh).verts() + corner_verts_upto(
                tiles.0@,
                pos,
                i + 1,
            ));
        }
        i = i + 1;
    }
}

/// The slot a chunk map holds at a chunk-local position: empty when the
/// chunk is absent.
pub open spec fn chunk_slot(
    m: Map<ChunkPos, Seq<TileSlot>>,
    c: ChunkPos,
    l: LocalPos,
) -> TileSlot {
    if m.contains_key(c) {
        m[c][l.idx()]
    } else {
        None
    }
}

/// The voxel a chunk map holds at a global coordinate: the chunk is the
/// floor division of each axis by the chunk width, the local part the
/// remainder.
pub open spec fn global_tile(m: Map<ChunkPos, Seq<TileSlot>>, x: int, y: int, z: int) -> TileSlot {
    chunk_slot(
        m,
        ChunkPos { x: (x / 16) as i32, y: (y / 16) as i32, z: (z / 16) as i32 },
        LocalPos { x: (x % 16) as u8, y: (y % 16) as u8, z: (z % 16) as u8 },
    )
}

/// The mesher's global voxel lookup agrees with the terrain's own: at a
/// well-formed global position, `global_tile` of the position's
/// coordinates is exactly what `Terrain::get` returns for it.
pub proof fn lemma_global_tile_is_tile_at(m: Map<ChunkPos, Seq<TileSlot>>, pos: GlobalPos)
    requires
        pos.wf(),
    ensures
        global_tile(m, pos.gx(), pos.gy(), pos.gz()) == tile_at(m, pos),
{
    vstd::arithmetic::div_mod::lemma_fundamental_div_mod_converse(
        pos.gx(),
        16,
        pos.chunk.x as int,
        pos.local.x as int,
    );
    vstd::arithmetic::div_mod::lemma_fundamental_div_mod_converse(
        pos.gy(),
        16,
        pos.chunk.y as int,
        pos.local.y as int,
    );
    vstd::arithmetic::div_mod::lemma_fundamental_div_mod_converse(
        pos.gz(),
        16,
        pos.chunk.z as int,
        pos.local.z as int,
    );
}

/// The octet of a corner: the eight voxels at the corner's global position
/// and its unit steps along each combination of axes, wherever in the
/// chunk map they lie.  This is the stitching contract: a boundary corner's
/// octet reads across into the neighbouring chunks.
pub open spec fn octet(m: Map<ChunkPos, Seq<TileSlot>>, c: ChunkPos, pos: LocalPos) -> Seq<
    TileSlot,
> {
    Seq::new(
        8,
        |i: int|
            {
                let s = Subtile::from_index(i);
                global_tile(
                    m,
                    c.x * 16 + pos.x + (if s.x {
                        1int
                    } else {
                        0int
                    }),
                    c.y * 16 + pos.y + (if s.y {
                        1int
                    } else {
                        0int
                    }),
                    c.z * 16 + pos.z + (if s.z {
                        1int
                    } else {
                        0int
                    }),
                )
            },
    )
}

/// A chunk coordinate translated by a small offset.
pub open spec fn cpos_off(c: ChunkPos, dx: int, dy: int, dz: int) -> ChunkPos {
    ChunkPos { x: (c.x + dx) as i32, y: (c.y + dy) as i32, z: (c.z + dz) as i32 }
}

/// Whether `chunk` is what the chunk map holds at `c`: the stored chunk
/// when present, the empty stand-in when absent.
pub open spec fn stands_for(m: Map<ChunkPos, Seq<TileSlot>>, c: ChunkPos, chunk: Chunk) -> bool {
    &&& chunk.wf()
    &&& slots_tiles_wf(chunk.slots())
    &&& chunk.slots() == if m.contains_key(c) {
        m[c]
    } else {
        empty_slots()
    }
}

/// The home chunk of a corner and its seven positive neighbours, with the
/// empty stand-in wherever the map holds no chunk.
struct ChunkNbhd<'a> {
    home: &'a Chunk,
    px: &'a Chunk,
    py: &'a Chunk,
    pz: &'a Chunk,
    pxy: &'a Chunk,
    pxz: &'a Chunk,
    pyz: &'a Chunk,
    pxyz: &'a Chunk,
}

impl<'a> ChunkNbhd<'a> {
    spec fn ok(self, m: Map<ChunkPos, Seq<TileSlot>>, c: ChunkPos) -> bool {
        &&& stands_for(m, c, *self.home)
        &&& stands_for(m, cpos_off(c, 1, 0, 0), *self.px)
        &&& stands_for(m, cpos_off(c, 0, 1, 0), *self.py)
        &&& stands_for(m, cpos_off(c, 0, 0, 1), *self.pz)
        &&& stands_for(m, cpos_off(c, 1, 1, 0), *self.pxy)
        &&& stands_for(m, cpos_off(c, 1, 0, 1), *self.pxz)
        &&& stands_for(m, cpos_off(c, 0, 1, 1), *self.pyz)
        &&& stands_for(m, cpos_off(c, 1, 1, 1), *self.pxyz)
    }
}

/// Reads the voxel at axis offsets `(lx, ly, lz)` from the base of chunk
/// `c`; an offset of sixteen steps across into the neighbouring chunk.
fn sample_at(
    nb: &ChunkNbhd,
    lx: u8,
    ly: u8,
    lz: u8,
    Ghost(m): Ghost<Map<ChunkPos, Seq<TileSlot>>>,
    Ghost(c): Ghost<ChunkPos>,
) -> (r: TileSlot)
    requires
        nb.ok(m, c),
        c.near_range(),
        lx <= 16 && ly <= 16 && lz <= 16,
    ensures
        r == global_tile(m, c.x * 16 + lx, c.y * 16 + ly, c.z * 16 + lz),
        r matches Some(t) ==> t.wf(),
{
    let cx = lx == 16;
    let cy = ly == 16;
    let cz = lz == 16;
    let l = LocalPos {
        x: if cx {
            0
        } else {
            lx
        },
        y: if cy {
            0
        } else {
            ly
        },
        z: if cz {
            0
        } else {
            lz
        },
    };
    let chunk: &Chunk = if cx {
        if cy {
            if cz {
                nb.pxyz
            } else {
                nb.pxy
            }
        } else {
            if cz {
                nb.pxz
            } else {
                nb.px
            }
        }
    } else {
        if cy {
            if cz {
                nb.pyz
            } else {
                nb.py
            }
        } else {
            if cz {
                nb.pz
            } else {
                nb.home
            }
        }
    };
    proof {
        let qx: int = if cx {
            c.x + 1
        } else {
            c.x as int
        };
        let qy: int = if cy {
            c.y + 1
        } else {
            c.y as int
        };
        let qz: int = if cz {
            c.z + 1
        } else {
            c.z as int
        };
        vstd::arithmetic::div_mod::lemma_fundamental_div_mod_converse(
            c.x * 16 + lx,
            16,
            qx,
            l.x as int,
        );
        vstd::arithmetic::div_mod::lemma_fundamental_div_mod_converse(
            c.y * 16 + ly,
            16,
            qy,
            l.y as int,
        );
        vstd::arithmetic::div_mod::lemma_fundamental_div_mod_converse(
            c.z * 16 + lz,
            16,
            qz,
            l.z as int,
        );
    }
    chunk.get(l)
}

/// The octet of one corner, sampled through the neighbourhood.
fn octet_at(
    nb: &ChunkNbhd,
    pos: LocalPos,
    Ghost(m): Ghost<Map<ChunkPos, Seq<TileSlot>>>,
    Ghost(c): Ghost<ChunkPos>,
) -> (r: CornerTiles)
    requires
        nb.ok(m, c),
        c.near_range(),
        pos.wf(),
    ensures
        r.0@ == octet(m, c, pos),
        r.wf(),
{
    let t0 = sample_at(nb, pos.x, pos.y, pos.z, Ghost(m), Ghost(c));
    let t1 = sample_at(nb, pos.x, pos.y, pos.z + 1, Ghost(m), Ghost(c));
    let t2 = sample_at(nb, pos.x, pos.y + 1, pos.z, Ghost(m), Ghost(c));
    let t3 = sample_at(nb, pos.x, pos.y + 1, pos.z + 1, Ghost(m), Ghost(c));
    let t4 = sample_at(nb, pos.x + 1, pos.y, pos.z, Ghost(m), Ghost(c));
    let t5 = sample_at(nb, pos.x + 1, pos.y, pos.z + 1, Ghost(m), Ghost(c));
    let t6 = sample_at(nb, pos.x + 1, pos.y + 1, pos.z, Ghost(m), Ghost(c));
    let t7 = sample_at(nb, pos.x + 1, pos.y + 1, pos.z + 1, Ghost(m), Ghost(c));
    let r = CornerTiles([t0, t1, t2, t3, t4, t5, t6, t7]);
    proof {
        assert forall|i: int| 0 <= i < 8 implies r.0@[i] == octet(m, c, pos)[i] by {
            assert(Subtile::from_index(0) == Subtile { x: false, y: false, z: false });
            assert(Subtile::from_index(1) == Subtile { x: false, y: false, z: true });
            assert(Subtile::from_index(2) == Subtile { x: false, y: true, z: false });
            assert(Subtile::from_index(3) == Subtile { x: false, y: true, z: true });
            assert(Subtile::from_index(4) == Subtile { x: true, y: false, z: false });
            assert(Subtile::from_index(5) == Subtile { x: true, y: false, z: true });
            assert(Subtile::from_index(6) == Subtile { x: true, y: true, z: false });
            assert(Subtile::from_index(7) == Subtile { x: true, y: true, z: true });
        }
        assert(r.0@ =~= octet(m, c, pos));
    }
    r
}

/// The vertices of a run of corners, in order.
pub open spec fn concat_corners(
    m: Map<ChunkPos, Seq<TileSlot>>,
    c: ChunkPos,
    ps: Seq<LocalPos>,
) -> Seq<MeshVert>
    decreases ps.len(),
{
    if ps.len() == 0 {
        Seq::empty()
    } else {
        concat_corners(m, c, ps.drop_last()) + corner_verts(octet(m, c, ps.last()), ps.last())
    }
}

/// Emits the corners of `ps`, in order, sampling octets through the
/// neighbourhood.
fn add_corners(
    nb: &ChunkNbhd,
    mesh: &mut MeshBuilder,
    ps: &Vec<LocalPos>,
    Ghost(m): Ghost<Map<ChunkPos, Seq<TileSlot>>>,
    Ghost(c): Ghost<ChunkPos>,
)
    requires
        old(mesh).wf(),
        nb.ok(m, c),
        c.near_range(),
        forall|i: int| 0 <= i < ps@.len() ==> (#[trigger] ps@[i]).wf(),
    ensures
        final(mesh).wf(),
        final(mesh).verts() == old(mesh).verts() + concat_corners(m, c, ps@),
{
    let mut i: usize = 0;
    while i < ps.len()
        invariant
            i <= ps@.len(),
            nb.ok(m, c),
            c.near_range(),
            forall|j: int| 0 <= j < ps@.len() ==> (#[trigger] ps@[j]).wf(),
            mesh.wf(),
            mesh.verts() == old(mesh).verts() + concat_corners(m, c, ps@.take(i as int)),
        decreases ps@.len() - i,
    {
        let p = ps[i];
        let tiles = octet_at(nb, p, Ghost(m), Ghost(c));
        generate_corner_mesh(&tiles, p, mesh);
        proof {
            assert(ps@.take(i + 1).drop_last() =~= ps@.take(i as int));
            assert(ps@.take(i + 1).last() == p);
            assert(mesh.verts() =~= old(mesh).verts() + concat_corners(m, c, ps@.take(i + 1)));
        }
        i = i + 1;
    }
    proof {
        assert(ps@.take(ps@.len() as int) =~= ps@);
    }
}

/// The interior corners: every axis below the last voxel row.
pub open spec fn inner_ps() -> Seq<LocalPos> {
    Seq::new(3375, |i: int| LocalPos::inner_position(i))
}

/// The corners of one positive face: the face's axis at its maximum, the
/// two free axes enumerated with the later one fastest.
pub open spec fn face_ps(axis: SubtileFace) -> Seq<LocalPos> {
    Seq::new(
        225,
        |i: int|
            match axis {
                SubtileFace::X => LocalPos { x: 15, y: (i / 15) as u8, z: (i % 15) as u8 },
                SubtileFace::Y => LocalPos { x: (i / 15) as u8, y: 15, z: (i % 15) as u8 },
                SubtileFace::Z => LocalPos { x: (i / 15) as u8, y: (i % 15) as u8, z: 15 },
            },
    )
}

/// The corners of one edge where two positive faces meet: both their axes
/// at the maximum, the remaining axis enumerated.
pub open spec fn edge_ps(edge: SubtileEdge) -> Seq<LocalPos> {
    Seq::new(
        15,
        |i: int|
            match edge {
                SubtileEdge::XY => LocalPos { x: 15, y: 15, z: i as u8 },
                SubtileEdge::XZ => LocalPos { x: 15, y: i as u8, z: 15 },
                SubtileEdge::ZY => LocalPos { x: i as u8, y: 15, z: 15 },
            },
    )
}

/// The chunk's single extreme corner.
pub open spec fn far_corner_ps() -> Seq<LocalPos> {
    seq![LocalPos { x: 15, y: 15, z: 15 }]
}

/// A plane rank `a * 15 + b` decomposes back into `(a, b)`.
proof fn lemma_plane_index(a: int, b: int)
    requires
        0 <= a < 15,
        0 <= b < 15,
    ensures
        (a * 15 + b) / 15 == a,
        (a * 15 + b) % 15 == b,
{
    vstd::arithmetic::div_mod::lemma_fundamental_div_mod_converse(a * 15 + b, 15, a, b);
}

/// The corner positions of one positive face, in enumeration order.
fn face_positions(axis: SubtileFace) -> (r: Vec<LocalPos>)
    ensures
        r@ == face_ps(axis),
{
    let mut r: Vec<LocalPos> = Vec::new();
    let mut a: u8 = 0;
    while a < 15
        invariant
            a <= 15,
            r@.len() == a * 15,
            forall|i: int| 0 <= i < r@.len() ==> r@[i] == face_ps(axis)[i],
        decreases 15 - a,
    {
        let mut b: u8 = 0;
        while b < 15
            invariant
                a < 15,
                b <= 15,
                r@.len() == a * 15 + b,
                forall|i: int| 0 <= i < r@.len() ==> r@[i] == face_ps(axis)[i],
            decreases 15 - b,
        {
            let p = match axis {
                SubtileFace::X => LocalPos { x: 15, y: a, z: b },
                SubtileFace::Y => LocalPos { x: a, y: 15, z: b },
                SubtileFace::Z => LocalPos { x: a, y: b, z: 15 },
            };
            proof {
                lemma_plane_index(a as int, b as int);
            }
            r.push(p);
            b = b + 1;
        }
        a = a + 1;
    }
    proof {
        assert(r@ =~= face_ps(axis));
    }
    r
}

/// The corner positions of one edge, in enumeration order.
fn edge_positions(edge: SubtileEdge) -> (r: Vec<LocalPos>)
    ensures
        r@ == edge_ps(edge),
{
    let mut r: Vec<LocalPos> = Vec::new();
    let mut i: u8 = 0;
    while i < 15
        invariant
            i <= 15,
            r@.len() == i,
            forall|j: int| 0 <= j < r@.len() ==> r@[j] == edge_ps(edge)[j],
        decreases 15 - i,
    {
        let p = match edge {
            SubtileEdge::XY => LocalPos { x: 15, y: 15, z: i },
            SubtileEdge::XZ => LocalPos { x: 15, y: i, z: 15 },
            SubtileEdge::ZY => LocalPos { x: i, y: 15, z: 15 },
        };
        r.push(p);
        i = i + 1;
    }
    proof {
        assert(r@ =~= edge_ps(edge));
    }
    r
}

/// Emits the interior corners, which need no neighbour chunk.
fn add_inner_tiles(
    nb: &ChunkNbhd,
    mesh: &mut MeshBuilder,
    Ghost(m): Ghost<Map<ChunkPos, Seq<TileSlot>>>,
    Ghost(c): Ghost<ChunkPos>,
)
    requires
        old(mesh).wf(),
        nb.ok(m, c),
        c.near_range(),
    ensures
        final(mesh).wf(),
        final(mesh).verts() == old(mesh).verts() + concat_corners(m, c, inner_ps()),
{
    let ps = LocalPos::inner_positions();
    proof {
        assert(ps@ =~= inner_ps());
    }
    add_corners(nb, mesh, &ps, Ghost(m), Ghost(c));
}

/// Emits the corners of one positive face, sampling half of each octet
/// from the face's neighbour chunk.
fn add_face_tiles(
    nb: &ChunkNbhd,
    mesh: &mut MeshBuilder,
    axis: SubtileFace,
    Ghost(m): Ghost<Map<ChunkPos, Seq<TileSlot>>>,
    Ghost(c): Ghost<ChunkPos>,
)
    requires
        old(mesh).wf(),
        nb.ok(m, c),
        c.near_range(),
    ensures
        final(mesh).wf(),
        final(mesh).verts() == old(mesh).verts() + concat_corners(m, c, face_ps(axis)),
{
    let ps = face_positions(axis);
    proof {
        assert forall|i: int| 0 <= i < ps@.len() implies (#[trigger] ps@[i]).wf() by {
            assert(0 <= i / 15 < 15 && 0 <= i % 15 < 15) by (nonlinear_arith)
                requires
                    0 <= i < 225,
            ;
        }
    }
    add_corners(nb, mesh, &ps, Ghost(m), Ghost(c));
}

/// Emits the corners of one edge, sampling each octet from the home chunk,
/// the two adjacent face neighbours and the diagonal edge neighbour.
fn add_edge_tiles(
    nb: &ChunkNbhd,
    mesh: &mut MeshBuilder,
    edge: SubtileEdge,
    Ghost(m): Ghost<Map<ChunkPos, Seq<TileSlot>>>,
    Ghost(c): Ghost<ChunkPos>,
)
    requires
        old(mesh).wf(),
        nb.ok(m, c),
        c.near_range(),
    ensures
        final(mesh).wf(),
        final(mesh).verts() == old(mesh).verts() + concat_corners(m, c, edge_ps(edge)),
{
    let ps = edge_positions(edge);
    add_corners(nb, mesh, &ps, Ghost(m), Ghost(c));
}

/// The full mesh of the chunk at `c`: its interior corners, its three
/// positive faces, its three edges, and its single far corner, stitched
/// against whatever neighbours the map holds.
pub open spec fn chunk_verts(m: Map<ChunkPos, Seq<TileSlot>>, c: ChunkPos) -> Seq<MeshVert> {
    concat_corners(m, c, inner_ps()) + concat_corners(m, c, face_ps(SubtileFace::X))
        + concat_corners(m, c, face_ps(SubtileFace::Y)) + concat_corners(
        m,
        c,
        face_ps(SubtileFace::Z),
    ) + concat_corners(m, c, edge_ps(SubtileEdge::XY)) + concat_corners(
        m,
        c,
        edge_ps(SubtileEdge::XZ),
    ) + concat_corners(m, c, edge_ps(SubtileEdge::ZY)) + concat_corners(m, c, far_corner_ps())
}

impl Terrain {
    /// The stored chunk at `c`, or the empty stand-in when absent.
    fn chunk_or<'a>(&'a self, c: ChunkPos, fallback: &'a Chunk) -> (r: &'a Chunk)
        requires
            self.wf(),
            fallback.wf(),
            fallback.slots() == empty_slots(),
        ensures
            stands_for(self.chunk_map(), c, *r),
    {
        proof {
            lemma_map_of_contains(self.chunks@, c);
        }
        match self.find_chunk(c) {
            Some(i) => {
                proof {
                    lemma_map_of_get(self.chunks@, i as int);
                }
                &self.chunks[i].1
            },
            None => {
                proof {
                    assert(forall|j: int|
                        0 <= j < empty_slots().len() ==> empty_slots()[j] is None);
                }
                fallback
            },
        }
    }

    /// Whether the map holds a chunk at `c`.
    pub fn contains_chunk(&self, c: ChunkPos) -> (r: bool)
        requires
            self.wf(),
        ensures
            r == self.chunk_map().contains_key(c),
    {
        proof {
            lemma_map_of_contains(self.chunks@, c);
        }
        self.find_chunk(c).is_some()
    }

    /// Rebuilds the entire mesh of the chunk at `c` from the current chunk
    /// map, stitching across into every present neighbour.
    pub fn mesh_chunk(&self, c: ChunkPos, fallback: &Chunk) -> (mb: MeshBuilder)
        requires
            self.wf(),
            c.near_range(),
            fallback.wf(),
            fallback.slots() == empty_slots(),
        ensures
            mb.wf(),
            mb.verts() == chunk_verts(self.chunk_map(), c),
    {
        let ghost m = self.chunk_map();
        let nb = ChunkNbhd {
            home: self.chunk_or(c, fallback),
            px: self.chunk_or(c.offset(1, 0, 0), fallback),
            py: self.chunk_or(c.offset(0, 1, 0), fallback),
            pz: self.chunk_or(c.offset(0, 0, 1), fallback),
            pxy: self.chunk_or(c.offset(1, 1, 0), fallback),
            pxz: self.chunk_or(c.offset(1, 0, 1), fallback),
            pyz: self.chunk_or(c.offset(0, 1, 1), fallback),
            pxyz: self.chunk_or(c.offset(1, 1, 1), fallback),
        };
        let mut mb = MeshBuilder::new();
        add_inner_tiles(&nb, &mut mb, Ghost(m), Ghost(c));
        add_face_tiles(&nb, &mut mb, SubtileFace::X, Ghost(m), Ghost(c));
        add_face_tiles(&nb, &mut mb, SubtileFace::Y, Ghost(m), Ghost(c));
        add_face_tiles(&nb, &mut mb, SubtileFace::Z, Ghost(m), Ghost(c));
        add_edge_tiles(&nb, &mut mb, SubtileEdge::XY, Ghost(m), Ghost(c));
        add_edge_tiles(&nb, &mut mb, SubtileEdge::XZ, Ghost(m), Ghost(c));
        add_edge_tiles(&nb, &mut mb, SubtileEdge::ZY, Ghost(m), Ghost(c));
        let mut far: Vec<LocalPos> = Vec::new();
        far.push(LocalPos { x: 15, y: 15, z: 15 });
        proof {
            assert(far@ =~= far_corner_ps());
        }
        add_corners(&nb, &mut mb, &far, Ghost(m), Ghost(c));
        proof {
            assert(mb.verts() =~= chunk_verts(m, c));
        }
        mb
    }
}

/// Whether the map holds a chunk at any of the seven positive neighbour
/// offsets of `c`: its three faces, three edges, or far corner.
pub open spec fn has_pos_neighbor(m: Map<ChunkPos, Seq<TileSlot>>, c: ChunkPos) -> bool {
    ||| m.contains_key(cpos_off(c, 0, 0, 1))
    ||| m.contains_key(cpos_off(c, 0, 1, 0))
    ||| m.contains_key(cpos_off(c, 0, 1, 1))
    ||| m.contains_key(cpos_off(c, 1, 0, 0))
    ||| m.contains_key(cpos_off(c, 1, 0, 1))
    ||| m.contains_key(cpos_off(c, 1, 1, 0))
    ||| m.contains_key(cpos_off(c, 1, 1, 1))
}

/// Whether a dirty chunk's mesh is rebuilt: it is when the chunk exists,
/// or when any positive neighbour exists whose boundary its mesh carries.
pub open spec fn rebuilds(m: Map<ChunkPos, Seq<TileSlot>>, c: ChunkPos) -> bool {
    m.contains_key(c) || has_pos_neighbor(m, c)
}

/// What one meshing pass emits for a drained dirty list: one entry per
/// dirty chunk that is rebuilt (`true`) or whose stale geometry is
/// discarded (`false`); a dirty chunk with neither mesh nor neighbours is
/// skipped.
pub open spec fn pass_schedule(
    m: Map<ChunkPos, Seq<TileSlot>>,
    meshed: Set<ChunkPos>,
    changed: Seq<ChunkPos>,
) -> Seq<(ChunkPos, bool)>
    decreases changed.len(),
{
    if changed.len() == 0 {
        Seq::empty()
    } else {
        let rest = pass_schedule(m, meshed, changed.drop_last());
        let c = changed.last();
        if rebuilds(m, c) {
            rest + seq![(c, true)]
        } else if meshed.contains(c) {
            rest + seq![(c, false)]
        } else {
            rest
        }
    }
}

/// The set of chunks with mesh geometry after a pass: a dirty chunk has
/// geometry exactly when it was rebuilt; everything else keeps its state.
pub open spec fn meshed_after(
    m: Map<ChunkPos, Seq<TileSlot>>,
    meshed: Set<ChunkPos>,
    changed: Seq<ChunkPos>,
) -> Set<ChunkPos> {
    Set::new(
        |q: ChunkPos|
            if changed.contains(q) {
                rebuilds(m, q)
            } else {
                meshed.contains(q)
            },
    )
}

/// What the meshing pass asks the rendering side to do for one chunk.
#[derive(Debug)]
pub enum MeshAction {
    /// Replace the chunk's geometry with this freshly built mesh, placed
    /// at the chunk coordinate times the chunk width.
    Rebuild(MeshBuilder),
    /// Drop the chunk's geometry and its handles.
    Discard,
}

/// The pass's output matches its schedule: the same chunks in the same
/// order, a rebuild carrying exactly the chunk's stitched mesh, a discard
/// carrying nothing.
pub open spec fn pass_output_ok(
    m: Map<ChunkPos, Seq<TileSlot>>,
    sched: Seq<(ChunkPos, bool)>,
    out: Seq<(ChunkPos, MeshAction)>,
) -> bool {
    &&& out.len() == sched.len()
    &&& forall|k: int| 0 <= k < sched.len() ==> (#[trigger] out[k]).0 == sched[k].0
    &&& forall|k: int| 0 <= k < sched.len() ==> (sched[k].1 <==> (#[trigger] out[k]).1 is Rebuild)
    &&& forall|k: int|
        0 <= k < sched.len() ==> ((#[trigger] out[k]).1 matches MeshAction::Rebuild(mb) ==> mb.wf()
            && mb.verts() == chunk_verts(m, sched[k].0))
}

impl Terrain {
    /// Whether any of the seven positive neighbours of `c` exists.
    fn has_positive_neighbor(&self, c: ChunkPos) -> (r: bool)
        requires
            self.wf(),
            c.near_range(),
        ensures
            r == has_pos_neighbor(self.chunk_map(), c),
    {
        self.contains_chunk(c.offset(0, 0, 1)) || self.contains_chunk(c.offset(0, 1, 0))
            || self.contains_chunk(c.offset(0, 1, 1)) || self.contains_chunk(c.offset(1, 0, 0))
            || self.contains_chunk(c.offset(1, 0, 1)) || self.contains_chunk(c.offset(1, 1, 0))
            || self.contains_chunk(c.offset(1, 1, 1))
    }

    /// One meshing pass: drains the dirty set, and for each drained chunk
    /// in order either rebuilds its mesh from the current chunk map,
    /// discards its stale geometry, or skips it; the voxels themselves do
    /// not move.
    pub fn mesh_pass(&mut self) -> (out: Vec<(ChunkPos, MeshAction)>)
        requires
            old(self).wf(),
        ensures
            final(self).wf(),
            final(self).chunks@ == old(self).chunks@,
            final(self).changed@.len() == 0,
            final(self).meshed_set() == meshed_after(
                old(self).chunk_map(),
                old(self).meshed_set(),
                old(self).changed@,
            ),
            pass_output_ok(
                old(self).chunk_map(),
                pass_schedule(old(self).chunk_map(), old(self).meshed_set(), old(self).changed@),
                out@,
            ),
    {
        let mut changed: Vec<ChunkPos> = Vec::new();
        core::mem::swap(&mut self.changed, &mut changed);
        let fallback = Chunk::default();
        let mut out: Vec<(ChunkPos, MeshAction)> = Vec::new();
        let ghost m = self.chunk_map();
        let ghost meshed0 = old(self).meshed_set();
        let mut i: usize = 0;
        while i < changed.len()
            invariant
                i <= changed@.len(),
                self.wf(),
                self.chunks@ == old(self).chunks@,
                self.changed@.len() == 0,
                changed@ == old(self).changed@,
                forall|a: int, b: int| 0 <= a < b < changed@.len() ==> changed@[a] != changed@[b],
                forall|a: int| 0 <= a < changed@.len() ==> (#[trigger] changed@[a]).near_range(),
                fallback.wf(),
                fallback.slots() == empty_slots(),
                m == self.chunk_map(),
                meshed0 == old(self).meshed_set(),
                forall|q: ChunkPos| #[trigger]
                    self.meshed_set().contains(q) == (if changed@.take(i as int).contains(q) {
                        rebuilds(m, q)
                    } else {
                        meshed0.contains(q)
                    }),
                pass_output_ok(m, pass_schedule(m, meshed0, changed@.take(i as int)), out@),
            decreases changed@.len() - i,
        {
            let c = changed[i];
            proof {
                assert(!changed@.take(i as int).contains(c)) by {
                    if changed@.take(i as int).contains(c) {
                        let j = choose|j: int| 0 <= j < i && #[trigger] changed@.take(i as int)[j] == c;
                        assert(changed@[j] == changed@[i as int]);
                    }
                }
                assert(changed@.take(i + 1).drop_last() =~= changed@.take(i as int));
                assert(changed@.take(i + 1).last() == c);
            }
            let ghost out_pre = out@;
            let ghost sched_pre = pass_schedule(m, meshed0, changed@.take(i as int));
            let present = self.contains_chunk(c);
            let nbr = self.has_positive_neighbor(c);
            if present || nbr {
                let mb = self.mesh_chunk(c, &fallback);
                self.insert_meshed(c);
                out.push((c, MeshAction::Rebuild(mb)));
                proof {
                    let sched = pass_schedule(m, meshed0, changed@.take(i + 1));
                    assert(sched =~= sched_pre + seq![(c, true)]);
                    assert forall|q: ChunkPos| #[trigger]
                        self.meshed_set().contains(q) == (if changed@.take(i + 1).contains(q) {
                            rebuilds(m, q)
                        } else {
                            meshed0.contains(q)
                        }) by {
                        assert(changed@.take(i + 1) =~= changed@.take(i as int).push(c));
                        if q != c && changed@.take(i + 1).contains(q) {
                            let j = choose|j: int| 0 <= j < i + 1 && #[trigger] changed@.take(i + 1)[j] == q;
                            assert(changed@.take(i as int)[j] == q);
                        }
                        if changed@.take(i as int).contains(q) {
                            let j = choose|j: int| 0 <= j < i && #[trigger] changed@.take(i as int)[j] == q;
                            assert(changed@.take(i + 1)[j] == q);
                        }
                    }
                }
            } else {
                let was = self.remove_meshed(c);
                if was {
                    out.push((c, MeshAction::Discard));
                }
                proof {
                    let sched = pass_schedule(m, meshed0, changed@.take(i + 1));
                    assert(meshed0.contains(c) == was);
                    if was {
                        assert(sched =~= sched_pre + seq![(c, false)]);
                    } else {
                        assert(sched =~= sched_pre);
                    }
                    assert forall|q: ChunkPos| #[trigger]
                        self.meshed_set().contains(q) == (if changed@.take(i + 1).contains(q) {
                            rebuilds(m, q)
                        } else {
                            meshed0.contains(q)
                        }) by {
                        assert(changed@.take(i + 1) =~= changed@.take(i as int).push(c));
                        if q != c && changed@.take(i + 1).contains(q) {
                            let j = choose|j: int| 0 <= j < i + 1 && #[trigger] changed@.take(i + 1)[j] == q;
                            assert(changed@.take(i as int)[j] == q);
                        }
                        if changed@.take(i as int).contains(q) {
                            let j = choose|j: int| 0 <= j < i && #[trigger] changed@.take(i as int)[j] == q;
                            assert(changed@.take(i + 1)[j] == q);
                        }
                    }
                }
            }
            i = i + 1;
        }
        proof {
            assert(changed@.take(changed@.len() as int) =~= changed@);
            assert(final(self).meshed_set() =~= meshed_after(m, meshed0, changed@));
        }
        out
    }
}

} // verus!
