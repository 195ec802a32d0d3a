//! Accumulates triangle geometry for one chunk: parallel buffers of vertex
//! position, normal and texture coordinate, a per-corner offset, and the
//! direction table that orients each generated quarter-face.
//!
//! Everything is fixed-point so that it stays exact: positions are in
//! half-units of the voxel grid, normals are unit vectors in whole units,
//! and texture coordinates are in sixteenths of the palette texture.

use vstd::prelude::*;

use crate::mesh::Subtile;

verus! {

/// One emitted vertex, as mathematical integers: position in half-units,
/// normal in whole units, texture coordinate in sixteenths.
pub ghost struct MeshVert {
    pub px: int,
    pub py: int,
    pub pz: int,
    pub nx: int,
    pub ny: int,
    pub nz: int,
    pub tu: int,
    pub tv: int,
}

/// A vertex at corner `p` (half-units, before offsetting) with normal `n`
/// and texture coordinate `t`, displaced by the builder offset `off`.
pub open spec fn vert_at(
    p: (int, int, int),
    n: (int, int, int),
    t: (int, int),
    off: (int, int, int),
) -> MeshVert {
    MeshVert {
        px: p.0 + off.0,
        py: p.1 + off.1,
        pz: p.2 + off.2,
        nx: n.0,
        ny: n.1,
        nz: n.2,
        tu: t.0,
        tv: t.1,
    }
}

/// The three vertices of one triangle.
pub open spec fn tri_verts(
    a: (int, int, int),
    b: (int, int, int),
    c: (int, int, int),
    n: (int, int, int),
    t: (int, int),
    off: (int, int, int),
) -> Seq<MeshVert> {
    seq![vert_at(a, n, t, off), vert_at(b, n, t, off), vert_at(c, n, t, off)]
}

/// A quad expanded into two triangles sharing the diagonal from its second
/// to its fourth corner.
pub open spec fn quad_verts(
    q0: (int, int, int),
    q1: (int, int, int),
    q2: (int, int, int),
    q3: (int, int, int),
    n: (int, int, int),
    t: (int, int),
    off: (int, int, int),
) -> Seq<MeshVert> {
    tri_verts(q0, q1, q3, n, t, off) + tri_verts(q2, q3, q1, n, t, off)
}

/// Accumulates the mesh of one chunk into three parallel buffers.
#[derive(Debug)]
pub struct MeshBuilder {
    /// Vertex positions, in half-units of the voxel grid, chunk-local.
    pub position: Vec<[i32; 3]>,
    /// Per-vertex flat normals, unit vectors in whole units.
    pub normal: Vec<[i32; 3]>,
    /// Per-vertex texture coordinates, in sixteenths of the palette
    /// texture.
    pub uv: Vec<[u8; 2]>,
    /// The translation applied to every subsequently emitted vertex, in
    /// half-units.
    pub offset: [i32; 3],
}

impl MeshBuilder {
    /// The buffers stay parallel and the offset stays small enough that
    /// offsetting can never overflow.
    pub open spec fn wf(self) -> bool {
        &&& self.position@.len() == self.normal@.len()
        &&& self.position@.len() == self.uv@.len()
        &&& -1000 <= self.offset[0] <= 1000
        &&& -1000 <= self.offset[1] <= 1000
        &&& -1000 <= self.offset[2] <= 1000
    }

    /// The emitted vertices, one per buffer row.
    pub open spec fn verts(self) -> Seq<MeshVert> {
        Seq::new(
            self.position@.len(),
            |i: int|
                MeshVert {
                    px: self.position@[i][0] as int,
                    py: self.position@[i][1] as int,
                    pz: self.position@[i][2] as int,
                    nx: self.normal@[i][0] as int,
                    ny: self.normal@[i][1] as int,
                    nz: self.normal@[i][2] as int,
                    tu: self.uv@[i][0] as int,
                    tv: self.uv@[i][1] as int,
                },
        )
    }

    pub open spec fn offset_spec(self) -> (int, int, int) {
        (self.offset[0] as int, self.offset[1] as int, self.offset[2] as int)
    }

    /// An empty builder with a zero offset.
    pub fn new() -> (r: MeshBuilder)
        ensures
            r.wf(),
            r.verts() == Seq::<MeshVert>::empty(),
            r.offset_spec() == (0int, 0int, 0int),
    {
        let r = MeshBuilder {
            position: Vec::new(),
            normal: Vec::new(),
            uv: Vec::new(),
            offset: [0, 0, 0],
        };
        proof {
            assert(r.verts() =~= Seq::<MeshVert>::empty());
        }
        r
    }

    /// Establishes the translation applied to every vertex emitted from
    /// now on.
    pub fn set_offset(&mut self, offset: [i32; 3])
        requires
            old(self).wf(),
            -1000 <= offset[0] <= 1000,
            -1000 <= offset[1] <= 1000,
            -1000 <= offset[2] <= 1000,
        ensures
            final(self).wf(),
            final(self).verts() == old(self).verts(),
            final(self).offset == offset,
    {
        self.offset = offset;
        proof {
            assert(final(self).verts() =~= old(self).verts());
        }
    }

    /// Appends one triangle: three rows with the corner positions offset
    /// by the builder offset, a shared flat normal, and a shared texture
    /// coordinate.
    pub fn add_tri(&mut self, p: [[i32; 3]; 3], n: [i32; 3], t: [u8; 2])
        requires
            old(self).wf(),
            forall|i: int, k: int| 0 <= i < 3 && 0 <= k < 3 ==> -8 <= #[trigger] p[i][k] <= 8,
        ensures
            final(self).wf(),
            final(self).offset == old(self).offset,
            final(self).verts() == old(self).verts() + tri_verts(
                (p[0][0] as int, p[0][1] as int, p[0][2] as int),
                (p[1][0] as int, p[1][1] as int, p[1][2] as int),
                (p[2][0] as int, p[2][1] as int, p[2][2] as int),
                (n[0] as int, n[1] as int, n[2] as int),
                (t[0] as int, t[1] as int),
                old(self).offset_spec(),
            ),
    {
        let mut i: usize = 0;
        while i < 3
            invariant
                i <= 3,
                old(self).wf(),
                forall|a: int, k: int| 0 <= a < 3 && 0 <= k < 3 ==> -8 <= #[trigger] p[a][k] <= 8,
                self.offset == old(self).offset,
                self.position@.len() == old(self).position@.len() + i,
                self.normal@.len() == self.position@.len(),
                self.uv@.len() == self.position@.len(),
                self.position@ == old(self).position@ + Seq::new(
                    i as nat,
                    |a: int|
                        [
                            (p[a][0] + old(self).offset[0]) as i32,
                            (p[a][1] + old(self).offset[1]) as i32,
                            (p[a][2] + old(self).offset[2]) as i32,
                        ],
                ),
                self.normal@ == old(self).normal@ + Seq::new(i as nat, |a: int| n),
                self.uv@ == old(self).uv@ + Seq::new(i as nat, |a: int| t),
            decreases 3 - i,
        {
            self.position.push(
                [p[i][0] + self.offset[0], p[i][1] + self.offset[1], p[i][2] + self.offset[2]],
            );
            self.normal.push(n);
            self.uv.push(t);
            proof {
                assert(self.position@ =~= old(self).position@ + Seq::new(
                    (i + 1) as nat,
                    |a: int|
                        [
                            (p[a][0] + old(self).offset[0]) as i32,
                            (p[a][1] + old(self).offset[1]) as i32,
                            (p[a][2] + old(self).offset[2]) as i32,
                        ],
                ));
                assert(self.normal@ =~= old(self).normal@ + Seq::new((i + 1) as nat, |a: int| n));
                assert(self.uv@ =~= old(self).uv@ + Seq::new((i + 1) as nat, |a: int| t));
            }
            i = i + 1;
        }
        proof {
            assert(final(self).verts() =~= old(self).verts() + tri_verts(
                (p[0][0] as int, p[0][1] as int, p[0][2] as int),
                (p[1][0] as int, p[1][1] as int, p[1][2] as int),
                (p[2][0] as int, p[2][1] as int, p[2][2] as int),
                (n[0] as int, n[1] as int, n[2] as int),
                (t[0] as int, t[1] as int),
                old(self).offset_spec(),
            ));
        }
    }

    /// Appends one quad as two triangles sharing the diagonal from the
    /// quad's second to its fourth corner.
    pub fn add_quad(&mut self, q: [[i32; 3]; 4], n: [i32; 3], t: [u8; 2])
        requires
            old(self).wf(),
            forall|i: int, k: int| 0 <= i < 4 && 0 <= k < 3 ==> -8 <= #[trigger] q[i][k] <= 8,
        ensures
            final(self).wf(),
            final(self).offset == old(self).offset,
            final(self).verts() == old(self).verts() + quad_verts(
                (q[0][0] as int, q[0][1] as int, q[0][2] as int),
                (q[1][0] as int, q[1][1] as int, q[1][2] as int),
                (q[2][0] as int, q[2][1] as int, q[2][2] as int),
                (q[3][0] as int, q[3][1] as int, q[3][2] as int),
                (n[0] as int, n[1] as int, n[2] as int),
                (t[0] as int, t[1] as int),
                old(self).offset_spec(),
            ),
    {
        self.add_tri([q[0], q[1], q[3]], n, t);
        self.add_tri([q[2], q[3], q[1]], n, t);
        proof {
            assert(final(self).verts() =~= old(self).verts() + quad_verts(
                (q[0][0] as int, q[0][1] as int, q[0][2] as int),
                (q[1][0] as int, q[1][1] as int, q[1][2] as int),
                (q[2][0] as int, q[2][1] as int, q[2][2] as int),
                (q[3][0] as int, q[3][1] as int, q[3][2] as int),
                (n[0] as int, n[1] as int, n[2] as int),
                (t[0] as int, t[1] as int),
                old(self).offset_spec(),
            ));
        }
    }

    /// Adds a mesh object at a subtile of the current corner.
    pub fn add<T: MeshObject>(&mut self, object: T, t: [u8; 2], subtile: Subtile, pos: T::Pos)
        requires
            old(self).wf(),
        ensures
            final(self).wf(),
            final(self).offset == old(self).offset,
            final(self).verts() == old(self).verts() + object.contribution(
                (t[0] as int, t[1] as int),
                subtile,
                pos,
                old(self).offset_spec(),
            ),
    {
        object.add_to_mesh(self, t, subtile, pos);
    }

    /// The componentwise bounding box of the emitted positions, in
    /// half-units; nothing when no geometry was emitted.
    pub fn bounds(&self) -> (r: Option<([i32; 3], [i32; 3])>)
        ensures
            r is Some <==> self.position@.len() > 0,
            r matches Some((mn, mx)) ==> forall|i: int, k: int|
                0 <= i < self.position@.len() && 0 <= k < 3 ==> mn[k]
                    <= #[trigger] self.position@[i][k] <= mx[k],
            r matches Some((mn, mx)) ==> forall|k: int|
                #![trigger mn[k]]
                #![trigger mx[k]]
                0 <= k < 3 ==> (exists|i: int|
                    0 <= i < self.position@.len() && #[trigger] self.position@[i][k] == mn[k])
                    && (exists|i: int|
                    0 <= i < self.position@.len() && #[trigger] self.position@[i][k] == mx[k]),
    {
        if self.position.len() == 0 {
            return None;
        }
        let (mn0, mx0) = axis_bounds(&self.position, 0);
        let (mn1, mx1) = axis_bounds(&self.position, 1);
        let (mn2, mx2) = axis_bounds(&self.position, 2);
        let mn: [i32; 3] = [mn0, mn1, mn2];
        let mx: [i32; 3] = [mx0, mx1, mx2];
        Some((mn, mx))
    }
}

/// The least and greatest value of one axis over a position buffer.
fn axis_bounds(v: &Vec<[i32; 3]>, k: usize) -> (r: (i32, i32))
    requires
        v@.len() > 0,
        k < 3,
    ensures
        forall|i: int| 0 <= i < v@.len() ==> r.0 <= #[trigger] v@[i][k as int] <= r.1,
        exists|i: int| 0 <= i < v@.len() && #[trigger] v@[i][k as int] == r.0,
        exists|i: int| 0 <= i < v@.len() && #[trigger] v@[i][k as int] == r.1,
{
    let mut mn: i32 = v[0][k];
    let mut mx: i32 = v[0][k];
    let mut i: usize = 1;
    while i < v.len()
        invariant
            1 <= i <= v@.len(),
            k < 3,
            forall|a: int| 0 <= a < i ==> mn <= #[trigger] v@[a][k as int] <= mx,
            exists|a: int| 0 <= a < i && #[trigger] v@[a][k as int] == mn,
            exists|a: int| 0 <= a < i && #[trigger] v@[a][k as int] == mx,
        decreases v@.len() - i,
    {
        let x = v[i][k];
        if x < mn {
            mn = x;
        }
        if x > mx {
            mx = x;
        }
        i = i + 1;
    }
    (mn, mx)
}

/// Something that can contribute geometry at one subtile of a corner.  The
/// contribution is pinned by `contribution`, so every implementation's
/// output is exact.
pub trait MeshObject: Sized {
    /// How the object is positioned relative to the subtile.
    type Pos;

    /// The vertices the object emits, given a texture coordinate in
    /// sixteenths, the subtile, the position argument, and the builder
    /// offset.
    spec fn contribution(self, t: (int, int), subtile: Subtile, pos: Self::Pos, off: (int, int, int)) -> Seq<
        MeshVert,
    >;

    /// Emits the object's geometry into the builder.
    fn add_to_mesh(self, mesh: &mut MeshBuilder, t: [u8; 2], subtile: Subtile, pos: Self::Pos)
        requires
            old(mesh).wf(),
        ensures
            final(mesh).wf(),
            final(mesh).offset == old(mesh).offset,
            final(mesh).verts() == old(mesh).verts() + self.contribution(
                (t[0] as int, t[1] as int),
                subtile,
                pos,
                old(mesh).offset_spec(),
            ),
    ;
}

/// One of the three axis-aligned face directions of a subtile.
#[derive(Clone, Copy, PartialEq, Eq, Structural, Debug, Hash)]
pub enum SubtileFace {
    X,
    Y,
    Z,
}

impl SubtileFace {
    /// The three faces, in the order they are generated.
    pub fn faces() -> (r: Vec<SubtileFace>)
        ensures
            r@.len() == 3,
            r@[0] == SubtileFace::X && r@[1] == SubtileFace::Y && r@[2] == SubtileFace::Z,
    {
        let mut r: Vec<SubtileFace> = Vec::new();
        r.push(SubtileFace::X);
        r.push(SubtileFace::Y);
        r.push(SubtileFace::Z);
        r
    }

    /// The subtile axis bit this face direction flips.
    pub open spec fn axis_spec(self) -> Subtile {
        match self {
            SubtileFace::X => Subtile { x: true, y: false, z: false },
            SubtileFace::Y => Subtile { x: false, y: true, z: false },
            SubtileFace::Z => Subtile { x: false, y: false, z: true },
        }
    }

    pub fn subtile_axis(self) -> (r: Subtile)
        ensures
            r == self.axis_spec(),
    {
        match self {
            SubtileFace::X => Subtile { x: true, y: false, z: false },
            SubtileFace::Y => Subtile { x: false, y: true, z: false },
            SubtileFace::Z => Subtile { x: false, y: false, z: true },
        }
    }

    /// The frame of the quarter-face a subtile generates in this face
    /// direction: an outward normal, and the two in-face directions along
    /// which the quarter-face extends from the corner, all unit vectors.
    pub open spec fn directions_spec(self, s: Subtile) -> (
        (int, int, int),
        (int, int, int),
        (int, int, int),
    ) {
        let px = (1int, 0int, 0int);
        let nx = (-1int, 0int, 0int);
        let py = (0int, 1int, 0int);
        let ny = (0int, -1int, 0int);
        let pz = (0int, 0int, 1int);
        let nz = (0int, 0int, -1int);
        match self {
            SubtileFace::X => {
                if !s.x {
                    if !s.y {
                        if !s.z {
                            (px, ny, nz)
                        } else {
                            (px, pz, ny)
                        }
                    } else {
                        if !s.z {
                            (px, nz, py)
                        } else {
                            (px, py, pz)
                        }
                    }
                } else {
                    if !s.y {
                        if !s.z {
                            (nx, nz, ny)
                        } else {
                            (nx, ny, pz)
                        }
                    } else {
                        if !s.z {
                            (nx, py, nz)
                        } else {
                            (nx, pz, py)
                        }
                    }
                }
            },
            SubtileFace::Y => {
                if !s.x {
                    if !s.y {
                        if !s.z {
                            (py, nz, nx)
                        } else {
                            (py, nx, pz)
                        }
                    } else {
                        if !s.z {
                            (ny, nx, nz)
                        } else {
                            (ny, pz, nx)
                        }
                    }
                } else {
                    if !s.y {
                        if !s.z {
                            (py, px, nz)
                        } else {
                            (py, pz, px)
                        }
                    } else {
                        if !s.z {
                            (ny, nz, px)
                        } else {
                            (ny, px, pz)
                        }
                    }
                }
            },
            SubtileFace::Z => {
                if !s.x {
                    if !s.y {
                        if !s.z {
                            (pz, nx, ny)
                        } else {
                            (nz, ny, nx)
                        }
                    } else {
                        if !s.z {
                            (pz, py, nx)
                        } else {
                            (nz, nx, py)
                        }
                    }
                } else {
                    if !s.y {
                        if !s.z {
                            (pz, ny, px)
                        } else {
                            (nz, px, ny)
                        }
                    } else {
                        if !s.z {
                            (pz, px, py)
                        } else {
                            (nz, py, px)
                        }
                    }
                }
            },
        }
    }

    /// The quarter-face frame for a subtile, as unit vectors.
    pub fn directions(self, s: Subtile) -> (r: Directions)
        ensures
            (r.normal_spec(), r.tangent_spec(), r.bitangent_spec()) == self.directions_spec(s),
    {
        let px: [i32; 3] = [1, 0, 0];
        let nx: [i32; 3] = [-1, 0, 0];
        let py: [i32; 3] = [0, 1, 0];
        let ny: [i32; 3] = [0, -1, 0];
        let pz: [i32; 3] = [0, 0, 1];
        let nz: [i32; 3] = [0, 0, -1];
        let (n, t, b): ([i32; 3], [i32; 3], [i32; 3]) = match self {
            SubtileFace::X => {
                if !s.x {
                    if !s.y {
                        if !s.z {
                            (px, ny, nz)
                        } else {
                            (px, pz, ny)
                        }
                    } else {
                        if !s.z {
                            (px, nz, py)
                        } else {
                            (px, py, pz)
                        }
                    }
                } else {
                    if !s.y {
                        if !s.z {
                            (nx, nz, ny)
                        } else {
                            (nx, ny, pz)
                        }
                    } else {
                        if !s.z {
                            (nx, py, nz)
                        } else {
                            (nx, pz, py)
                        }
                    }
                }
            },
            SubtileFace::Y => {
                if !s.x {
                    if !s.y {
                        if !s.z {
                            (py, nz, nx)
                        } else {
                            (py, nx, pz)
                        }
                    } else {
                        if !s.z {
                            (ny, nx, nz)
                        } else {
                            (ny, pz, nx)
                        }
                    }
                } else {
                    if !s.y {
                        if !s.z {
                            (py, px, nz)
                        } else {
                            (py, pz, px)
                        }
                    } else {
                        if !s.z {
                            (ny, nz, px)
                        } else {
                            (ny, px, pz)
                        }
                    }
                }
            },
            SubtileFace::Z => {
                if !s.x {
                    if !s.y {
                        if !s.z {
                            (pz, nx, ny)
                        } else {
                            (nz, ny, nx)
                        }
                    } else {
                        if !s.z {
                            (pz, py, nx)
                        } else {
                            (nz, nx, py)
                        }
                    }
                } else {
                    if !s.y {
                        if !s.z {
                            (pz, ny, px)
                        } else {
                            (nz, px, ny)
                        }
                    } else {
                        if !s.z {
                            (pz, px, py)
                        } else {
                            (nz, py, px)
                        }
                    }
                }
            },
        };
        Directions { normal: n, tangent: t, bitangent: b }
    }
}

/// The frame of one quarter-face: its outward normal and the two in-face
/// directions along which it extends from the corner.
#[derive(Clone, Copy, Debug)]
pub struct Directions {
    pub normal: [i32; 3],
    pub tangent: [i32; 3],
    pub bitangent: [i32; 3],
}

impl Directions {
    pub open spec fn normal_spec(self) -> (int, int, int) {
        (self.normal[0] as int, self.normal[1] as int, self.normal[2] as int)
    }

    pub open spec fn tangent_spec(self) -> (int, int, int) {
        (self.tangent[0] as int, self.tangent[1] as int, self.tangent[2] as int)
    }

    pub open spec fn bitangent_spec(self) -> (int, int, int) {
        (self.bitangent[0] as int, self.bitangent[1] as int, self.bitangent[2] as int)
    }
}

/// The quarter-face quad a wall emits: it extends from the corner along
/// the tangent and bitangent for half a voxel each way.
pub open spec fn wall_quad_verts(
    f: SubtileFace,
    s: Subtile,
    t: (int, int),
    off: (int, int, int),
) -> Seq<MeshVert> {
    let (n, tg, bt) = f.directions_spec(s);
    quad_verts(
        (tg.0 + bt.0, tg.1 + bt.1, tg.2 + bt.2),
        bt,
        (0int, 0int, 0int),
        tg,
        n,
        t,
        off,
    )
}

/// Decorative connectivity flags carried by a wall face; they do not
/// change the emitted geometry.
#[derive(Clone, Copy, PartialEq, Eq, Structural, Debug)]
pub struct WallFlags {
    pub bits: u8,
}

/// The flag marking a wall that faces the positive direction of its axis.
pub const WALL_FACING_POSITIVE: u8 = 0x10;

impl WallFlags {
    /// A wall connected to its neighbours on all four sides.
    pub fn connected_all() -> (r: WallFlags)
        ensures
            r.bits == 0x0F,
    {
        WallFlags { bits: 0x0F }
    }

    /// Marks the wall as facing positive when the subtile lies on the
    /// positive side of the given axis.
    pub fn set_facing_positive(self, subtile: Subtile, axis: Subtile) -> (r: WallFlags)
        ensures
            r.bits == if subtile.contains_spec(axis) {
                self.bits | WALL_FACING_POSITIVE
            } else {
                self.bits
            },
    {
        if subtile.contains(axis) {
            WallFlags { bits: self.bits | WALL_FACING_POSITIVE }
        } else {
            self
        }
    }
}

impl Default for WallFlags {
    /// A wall is connected on all four sides until something says
    /// otherwise.
    fn default() -> (r: WallFlags)
        ensures
            r.bits == 0x0F,
    {
        WallFlags::connected_all()
    }
}

/// A face-shaped mesh object: nothing, or a wall quad.
#[derive(Clone, Copy, PartialEq, Eq, Structural, Debug)]
pub enum Face {
    Empty,
    Wall(WallFlags),
}

impl MeshObject for Face {
    type Pos = SubtileFace;

    /// An empty face emits nothing; a wall emits its quarter-face quad.
    /// The wall's connectivity flags do not affect the geometry.
    open spec fn contribution(self, t: (int, int), subtile: Subtile, pos: SubtileFace, off: (int, int, int)) -> Seq<
        MeshVert,
    > {
        match self {
            Face::Empty => Seq::empty(),
            Face::Wall(_) => wall_quad_verts(pos, subtile, t, off),
        }
    }

    fn add_to_mesh(self, mesh: &mut MeshBuilder, t: [u8; 2], subtile: Subtile, pos: SubtileFace) {
        match self {
            Face::Empty => {
                proof {
                    assert(final(mesh).verts() =~= old(mesh).verts() + Seq::<MeshVert>::empty());
                }
            },
            Face::Wall(_) => {
                let d = pos.directions(subtile);
                let q0: [i32; 3] = [
                    d.tangent[0] + d.bitangent[0],
                    d.tangent[1] + d.bitangent[1],
                    d.tangent[2] + d.bitangent[2],
                ];
                let q2: [i32; 3] = [0, 0, 0];
                mesh.add_quad([q0, d.bitangent, q2, d.tangent], d.normal, t);
            },
        }
    }
}

/// A rounded or straight edge decoration; unused by the wall mesher but
/// part of the mesh-object vocabulary.
#[derive(Clone, Copy, PartialEq, Eq, Structural, Debug)]
pub enum Edge {
    Straight,
    Round,
}

/// One of the three pairs of axes an edge can lie between.
#[derive(Clone, Copy, PartialEq, Eq, Structural, Debug, Hash)]
pub enum SubtileEdge {
    XY,
    XZ,
    ZY,
}

} // verus!
