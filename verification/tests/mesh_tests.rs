use voxel_terrain::chunk::{Chunk, ChunkPos, LocalPos};
use voxel_terrain::mesh::{CornerTiles, MeshAction, Subtile};
use voxel_terrain::mesh_builder::{MeshBuilder, SubtileFace, WallFlags};
use voxel_terrain::terrain::{GlobalPos, Terrain};
use voxel_terrain::tile::Tile;

#[test]
fn subtiles_enumerates_all_octants() {
    let subs = Subtile::subtiles();
    assert_eq!(subs.len(), 8);
    for (i, s) in subs.iter().enumerate() {
        assert_eq!(s.bits() as usize, i);
    }
}

#[test]
fn tile_at_face_flips_one_axis() {
    let s = Subtile { x: true, y: false, z: true };
    assert_eq!(s.tile_at_face(SubtileFace::X), Subtile { x: false, y: false, z: true });
    assert_eq!(s.tile_at_face(SubtileFace::Y), Subtile { x: true, y: true, z: true });
    assert_eq!(s.tile_at_face(SubtileFace::Z), Subtile { x: true, y: false, z: false });
    assert_eq!(s.tile_at_face(SubtileFace::X).tile_at_face(SubtileFace::X), s);
}

#[test]
fn faces_in_order() {
    assert_eq!(SubtileFace::faces(), vec![SubtileFace::X, SubtileFace::Y, SubtileFace::Z]);
}

#[test]
fn corner_tiles_indexing() {
    let t = Tile::brick();
    let tiles = CornerTiles([None, None, None, None, Some(t), None, None, None]);
    assert_eq!(tiles.get(Subtile { x: true, y: false, z: false }), Some(t));
    assert_eq!(tiles.get(Subtile { x: false, y: false, z: false }), None);
    assert_eq!(tiles.get(Subtile { x: true, y: true, z: true }), None);
}

#[test]
fn empty_builder_has_no_bounds() {
    let mb = MeshBuilder::new();
    assert!(mb.bounds().is_none());
    assert_eq!(mb.position.len(), 0);
}

#[test]
fn builder_tri_and_bounds() {
    let mut mb = MeshBuilder::new();
    mb.set_offset([4, 4, 4]);
    mb.add_tri([[0, 0, 0], [1, 0, 0], [0, 1, 0]], [0, 0, 1], [3, 5]);
    assert_eq!(mb.position, vec![[4, 4, 4], [5, 4, 4], [4, 5, 4]]);
    assert_eq!(mb.normal, vec![[0, 0, 1]; 3]);
    assert_eq!(mb.uv, vec![[3, 5]; 3]);
    let (mn, mx) = mb.bounds().unwrap();
    assert_eq!(mn, [4, 4, 4]);
    assert_eq!(mx, [5, 5, 4]);
}

#[test]
fn builder_quad_is_two_triangles() {
    let mut mb = MeshBuilder::new();
    mb.add_quad([[1, 1, 0], [0, 1, 0], [0, 0, 0], [1, 0, 0]], [0, 0, 1], [1, 1]);
    assert_eq!(mb.position.len(), 6);
    // First triangle: corners 0, 1, 3; second: corners 2, 3, 1.
    assert_eq!(mb.position[0], [1, 1, 0]);
    assert_eq!(mb.position[1], [0, 1, 0]);
    assert_eq!(mb.position[2], [1, 0, 0]);
    assert_eq!(mb.position[3], [0, 0, 0]);
    assert_eq!(mb.position[4], [1, 0, 0]);
    assert_eq!(mb.position[5], [0, 1, 0]);
}

#[test]
fn lone_voxel_meshes_to_24_quads() {
    let mut terrain = Terrain::default();
    terrain.set(GlobalPos::from_xyz_i32([7, 7, 7]), Tile::brick());
    let out = terrain.mesh_pass();
    assert_eq!(out.len(), 1);
    assert_eq!(out[0].0, ChunkPos::new(0, 0, 0));
    match &out[0].1 {
        MeshAction::Rebuild(mb) => {
            // A lone voxel is seen from 8 corners; each emits 3 unoccluded
            // quarter-faces of 6 vertices.
            assert_eq!(mb.position.len(), 144);
            assert_eq!(mb.normal.len(), 144);
            assert_eq!(mb.uv.len(), 144);
            assert!(mb.bounds().is_some());
        },
        MeshAction::Discard => panic!("expected a rebuild"),
    }
    assert_eq!(terrain.changed.len(), 0);
    assert_eq!(terrain.meshed.len(), 1);
}

#[test]
fn removing_lone_voxel_discards_mesh() {
    let mut terrain = Terrain::default();
    let pos = GlobalPos::from_xyz_i32([7, 7, 7]);
    terrain.set(pos, Tile::brick());
    let _ = terrain.mesh_pass();
    terrain.remove(pos);
    let out = terrain.mesh_pass();
    assert_eq!(out.len(), 1);
    assert_eq!(out[0].0, ChunkPos::new(0, 0, 0));
    assert!(matches!(out[0].1, MeshAction::Discard));
    assert_eq!(terrain.meshed.len(), 0);
}

#[test]
fn never_meshed_chunk_is_skipped() {
    let mut terrain = Terrain::default();
    let pos = GlobalPos::from_xyz_i32([7, 7, 7]);
    terrain.set(pos, Tile::brick());
    terrain.remove(pos);
    // The chunk was created and destroyed before any meshing pass: there
    // is no stale geometry, so the pass has nothing to say about it.
    let out = terrain.mesh_pass();
    assert_eq!(out.len(), 0);
    assert_eq!(terrain.meshed.len(), 0);
}

#[test]
fn boundary_voxel_stitches_into_neighbor_pass() {
    let mut terrain = Terrain::default();
    // A voxel at a chunk origin: the home chunk and all 7 lower neighbours
    // are queued, but only the home chunk exists, so the pass rebuilds it
    // and rebuilds the lower neighbours that sample across into it.
    terrain.set(GlobalPos::from_xyz_i32([16, 16, 16]), Tile::brick());
    let out = terrain.mesh_pass();
    // All 8 queued chunks are rebuilt: the home holds the voxel, and every
    // lower neighbour sees chunk (1,1,1) as a positive neighbour.
    assert_eq!(out.len(), 8);
    let mut total_verts = 0;
    for (_, action) in &out {
        match action {
            MeshAction::Rebuild(mb) => total_verts += mb.position.len(),
            MeshAction::Discard => panic!("expected rebuilds only"),
        }
    }
    // The voxel's 24 quarter-face quads are spread over the 8 chunks whose
    // meshes sample its corners; together they still make 144 vertices.
    assert_eq!(total_verts, 144);
}

#[test]
fn two_adjacent_voxels_occlude_shared_faces() {
    let mut terrain = Terrain::default();
    terrain.set(GlobalPos::from_xyz_i32([7, 7, 7]), Tile::brick());
    terrain.set(GlobalPos::from_xyz_i32([8, 7, 7]), Tile::brick());
    let out = terrain.mesh_pass();
    assert_eq!(out.len(), 1);
    match &out[0].1 {
        MeshAction::Rebuild(mb) => {
            // Two stacked voxels expose 10 whole faces of 4 quarter-quads
            // each, with the 2 shared faces occluded: 40 quads, 240 verts.
            assert_eq!(mb.position.len(), 240);
        },
        MeshAction::Discard => panic!("expected a rebuild"),
    }
}

#[test]
fn mesh_chunk_of_missing_chunk_is_empty() {
    let terrain = Terrain::default();
    let fallback = Chunk::default();
    let mb = terrain.mesh_chunk(ChunkPos::new(0, 0, 0), &fallback);
    assert_eq!(mb.position.len(), 0);
    assert!(mb.bounds().is_none());
}

#[test]
fn new_unchecked_matches_new() {
    for xyz in [[0u8, 0, 0], [15, 15, 15], [3, 9, 12]] {
        assert_eq!(LocalPos::new_unchecked(xyz), LocalPos::new(xyz).unwrap());
    }
}

#[test]
fn directions_form_orthogonal_frames() {
    let dot = |a: [i32; 3], b: [i32; 3]| a[0] * b[0] + a[1] * b[1] + a[2] * b[2];
    for face in SubtileFace::faces() {
        for s in Subtile::subtiles() {
            let d = face.directions(s);
            assert_eq!(dot(d.normal, d.normal), 1);
            assert_eq!(dot(d.tangent, d.tangent), 1);
            assert_eq!(dot(d.bitangent, d.bitangent), 1);
            assert_eq!(dot(d.normal, d.tangent), 0);
            assert_eq!(dot(d.normal, d.bitangent), 0);
            assert_eq!(dot(d.tangent, d.bitangent), 0);
            // The normal points along the face's axis, outward from the
            // octant: positive when the octant sits on the low side.
            let (axis, flag) = match face {
                SubtileFace::X => (0, s.x),
                SubtileFace::Y => (1, s.y),
                SubtileFace::Z => (2, s.z),
            };
            assert_eq!(d.normal[axis], if flag { -1 } else { 1 });
        }
    }
}

#[test]
fn wall_flags_facing_positive() {
    let all = WallFlags::connected_all();
    assert_eq!(all.bits, 0x0F);
    assert_eq!(WallFlags::default(), all);
    let s = Subtile { x: true, y: false, z: false };
    let axis_x = SubtileFace::X.subtile_axis();
    let axis_y = SubtileFace::Y.subtile_axis();
    assert_eq!(all.set_facing_positive(s, axis_x).bits, 0x1F);
    assert_eq!(all.set_facing_positive(s, axis_y).bits, 0x0F);
}

#[test]
fn generate_mesh_emits_unoccluded_faces() {
    let t = Tile::brick();
    // Octant 0 holds a voxel; octant 4 (across the x face) holds another,
    // so only the y and z faces of octant 0 are generated.
    let tiles = CornerTiles([Some(t), None, None, None, Some(t), None, None, None]);
    let mut mb = MeshBuilder::new();
    Tile::generate_mesh(&tiles, Subtile { x: false, y: false, z: false }, &mut mb);
    assert_eq!(mb.position.len(), 12);
    // The empty octants emit nothing.
    Tile::generate_mesh(&tiles, Subtile { x: false, y: false, z: true }, &mut mb);
    assert_eq!(mb.position.len(), 12);
}
