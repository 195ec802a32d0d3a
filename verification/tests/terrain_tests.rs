use voxel_terrain::chunk::ChunkPos;
use voxel_terrain::color::IndexedColor;
use voxel_terrain::terrain::{GlobalPos, Terrain};
use voxel_terrain::tile::Tile;

fn changed_contains(terrain: &Terrain, c: ChunkPos) -> bool {
    terrain.changed.iter().any(|&q| q == c)
}

#[test]
fn global_pos_round_trip_i32() {
    for xyz in [
        [0i32, 0, 0],
        [1, -24, 1],
        [-1, -16, -17],
        [15, 16, 17],
        [i32::MAX, i32::MIN, -1],
    ] {
        let pos = GlobalPos::from_xyz_i32(xyz);
        assert_eq!(pos.xyz(), xyz.map(|v| v as i64));
    }
}

#[test]
fn global_pos_negative_coordinates_floor() {
    let pos = GlobalPos::from_xyz_i32([-1, -16, -17]);
    assert_eq!(pos.chunk, ChunkPos::new(-1, -1, -2));
    assert_eq!(pos.local.xyz(), [15, 0, 15]);
}

#[test]
fn global_pos_from_xyz_clamps() {
    let pos = GlobalPos::from_xyz([i32::MAX as i64 + 5, 3, i32::MIN as i64 - 5]);
    assert_eq!(pos.xyz(), [i32::MAX as i64, 3, i32::MIN as i64]);
}

#[test]
fn add_remove_from_terrain() {
    let mut terrain = Terrain::default();
    let pos = GlobalPos::from_xyz_i32([5, -3, 100]);

    terrain.set(pos, Tile::brick());
    assert_eq!(terrain.get(pos), Some(Tile::brick()));
    assert_eq!(terrain.chunks.len(), 1);

    terrain.remove(pos);
    assert_eq!(terrain.get(pos), None);
    assert_eq!(terrain.chunks.len(), 0);
}

#[test]
fn add_remove_many_from_terrain() {
    let coords = [
        [0i32, 0, 0],
        [1, 1, 1],
        [-1, -1, -1],
        [31, 0, -31],
        [100, -100, 100],
        [0, 0, 0],
    ];
    let mut terrain = Terrain::default();

    for &xyz in &coords {
        terrain.set(GlobalPos::from_xyz_i32(xyz), Tile::brick());
    }
    assert!(!terrain.chunks.is_empty());

    for &xyz in &coords {
        terrain.remove(GlobalPos::from_xyz_i32(xyz));
    }
    assert_eq!(terrain.chunks.len(), 0);
}

#[test]
fn set_slot_dispatches() {
    let mut terrain = Terrain::default();
    let pos = GlobalPos::from_xyz_i32([2, 2, 2]);
    terrain.set_slot(pos, Some(Tile::brick()));
    assert_eq!(terrain.get(pos), Some(Tile::brick()));
    terrain.set_slot(pos, None);
    assert_eq!(terrain.get(pos), None);
    assert_eq!(terrain.chunks.len(), 0);
}

#[test]
fn dirty_propagation_interior_edit() {
    let mut terrain = Terrain::default();
    terrain.set(GlobalPos::from_xyz_i32([5, 7, 9]), Tile::brick());
    assert_eq!(terrain.changed.len(), 1);
    assert!(changed_contains(&terrain, ChunkPos::new(0, 0, 0)));
}

#[test]
fn dirty_propagation_example() {
    let mut terrain = Terrain::default();
    terrain.set(GlobalPos::from_xyz_i32([0, 7, 3]), Tile::brick());
    assert_eq!(terrain.changed.len(), 2);
    assert!(changed_contains(&terrain, ChunkPos::new(0, 0, 0)));
    assert!(changed_contains(&terrain, ChunkPos::new(-1, 0, 0)));
}

#[test]
fn dirty_propagation_two_zero_axes() {
    let mut terrain = Terrain::default();
    terrain.set(GlobalPos::from_xyz_i32([0, 7, 0]), Tile::brick());
    assert_eq!(terrain.changed.len(), 4);
    assert!(changed_contains(&terrain, ChunkPos::new(0, 0, 0)));
    assert!(changed_contains(&terrain, ChunkPos::new(-1, 0, 0)));
    assert!(changed_contains(&terrain, ChunkPos::new(0, 0, -1)));
    assert!(changed_contains(&terrain, ChunkPos::new(-1, 0, -1)));
}

#[test]
fn dirty_propagation_zero_corner() {
    let mut terrain = Terrain::default();
    terrain.set(GlobalPos::from_xyz_i32([16, 16, 16]), Tile::brick());
    assert_eq!(terrain.changed.len(), 8);
    for dx in 0..2 {
        for dy in 0..2 {
            for dz in 0..2 {
                assert!(changed_contains(&terrain, ChunkPos::new(1 - dx, 1 - dy, 1 - dz)));
            }
        }
    }
}

#[test]
fn tower_scenario() {
    let mut terrain = Terrain::default();
    let color = IndexedColor::from_index(7).unwrap();
    let tile = Tile::Brick { color };
    for y in -24..=24 {
        terrain.set(GlobalPos::from_xyz_i32([1, y, 1]), tile);
    }
    // The 49 voxels span chunk rows floor(-24/16) = -2 through floor(24/16) = 1.
    assert_eq!(terrain.chunks.len(), 4);
    for y in -24..=24 {
        assert_eq!(terrain.get(GlobalPos::from_xyz_i32([1, y, 1])), Some(tile));
        assert_eq!(terrain.get(GlobalPos::from_xyz_i32([2, y, 1])), None);
        assert_eq!(terrain.get(GlobalPos::from_xyz_i32([0, y, 1])), None);
        assert_eq!(terrain.get(GlobalPos::from_xyz_i32([1, y, 2])), None);
    }
    assert_eq!(terrain.get(GlobalPos::from_xyz_i32([1, -25, 1])), None);
    assert_eq!(terrain.get(GlobalPos::from_xyz_i32([1, 25, 1])), None);

    for y in -24..=24 {
        terrain.remove(GlobalPos::from_xyz_i32([1, y, 1]));
    }
    assert_eq!(terrain.chunks.len(), 0);
}

#[test]
fn clear_queues_meshed_chunks() {
    let mut terrain = Terrain::default();
    terrain.set(GlobalPos::from_xyz_i32([3, 3, 3]), Tile::brick());
    let _ = terrain.mesh_pass();
    assert_eq!(terrain.meshed.len(), 1);
    terrain.set(GlobalPos::from_xyz_i32([40, 0, 0]), Tile::brick());
    terrain.clear();
    assert_eq!(terrain.chunks.len(), 0);
    assert_eq!(terrain.changed.len(), 1);
    assert!(changed_contains(&terrain, ChunkPos::new(0, 0, 0)));
}

#[test]
fn color_index_round_trip() {
    for i in 0..=61u8 {
        let c = IndexedColor::from_index(i).unwrap();
        assert_eq!(c.index(), i);
    }
    assert!(IndexedColor::from_index(62).is_none());
    assert!(IndexedColor::from_index(255).is_none());
}

#[test]
fn color_uv_sixteenths() {
    assert_eq!(IndexedColor::from_index(0).unwrap().uv(), [1, 1]);
    assert_eq!(IndexedColor::from_index(7).unwrap().uv(), [15, 1]);
    assert_eq!(IndexedColor::from_index(8).unwrap().uv(), [1, 3]);
    assert_eq!(IndexedColor::from_index(61).unwrap().uv(), [11, 15]);
    assert_eq!(IndexedColor::default().index(), 0);
}

#[test]
fn tile_solidity_ignores_payload() {
    assert!(!Tile::is_solid(None));
    assert!(Tile::is_solid(Some(Tile::brick())));
    let other = Tile::Brick { color: IndexedColor::from_index(13).unwrap() };
    assert!(Tile::is_solid(Some(other)));
    assert!(Tile::brick().is_brick());
    assert_eq!(Tile::default(), Tile::brick());
}
