use voxel_terrain::chunk::{Chunk, Cleanup, LocalPos};
use voxel_terrain::tile::Tile;

#[test]
fn inner_pos_is_inner() {
    for inner_pos in LocalPos::inner_positions() {
        assert!(inner_pos.x() < 16);
        assert!(inner_pos.y() < 16);
        assert!(inner_pos.z() < 16);
    }
}

#[test]
fn inner_pos_correct_count() {
    assert_eq!(LocalPos::inner_positions().len(), 15_usize.pow(3));
}

#[test]
fn inner_pos_increments_stay_inside() {
    for p in LocalPos::inner_positions() {
        assert!(p.x() < 15 && p.y() < 15 && p.z() < 15);
        let q = p.inc_x().inc_y().inc_z();
        assert!(q.x() < 16 && q.y() < 16 && q.z() < 16);
    }
}

#[test]
fn local_pos_new_bounds() {
    assert!(LocalPos::new([15, 15, 15]).is_some());
    assert!(LocalPos::new([16, 0, 0]).is_none());
    assert!(LocalPos::new([0, 16, 0]).is_none());
    assert!(LocalPos::new([0, 0, 16]).is_none());
    assert!(LocalPos::new([0, 0, 0]).is_some());
}

#[test]
fn local_pos_xyz_round_trip() {
    for xyz in [[0u8, 0, 0], [1, 2, 3], [15, 15, 15], [7, 0, 14]] {
        let p = LocalPos::new(xyz).unwrap();
        assert_eq!(p.xyz(), xyz);
    }
}

#[test]
fn local_pos_bits_round_trip() {
    let p = LocalPos::new([0xA, 0xB, 0xC]).unwrap();
    assert_eq!(p.bits(), 0x0ABC);
    let q = LocalPos::try_from_bits(0x0ABC).unwrap();
    assert_eq!(q.xyz(), [0xA, 0xB, 0xC]);
    assert!(LocalPos::try_from_bits(0x1000).is_none());
    assert!(LocalPos::try_from_bits(0x0FFF).is_some());
}

#[test]
fn local_pos_mask_zeroes_axes() {
    let p = LocalPos::new([15, 9, 15]).unwrap();
    assert_eq!(p.mask(true, false, true).xyz(), [15, 0, 15]);
    assert_eq!(p.mask(false, true, false).xyz(), [0, 9, 0]);
    assert_eq!(p.mask(false, false, false).xyz(), [0, 0, 0]);
}

#[test]
fn add_remove_from_chunk() {
    let mut chunk = Chunk::default();
    let pos = LocalPos::new([3, 4, 5]).unwrap();

    let cleanup = chunk.set(pos, Tile::brick());
    assert_eq!(cleanup, Cleanup::Keep);

    let cleanup = chunk.remove(pos);
    assert_eq!(cleanup, Cleanup::RemoveChunk);
}

#[test]
fn add_remove_many_from_chunk() {
    let mut chunk = Chunk::default();
    let poses: Vec<LocalPos> = [[0u8, 0, 0], [1, 2, 3], [15, 15, 15], [1, 2, 3]]
        .iter()
        .map(|&xyz| LocalPos::new(xyz).unwrap())
        .collect();

    for &pos in &poses {
        let cleanup = chunk.set(pos, Tile::brick());
        assert_eq!(cleanup, Cleanup::Keep);
    }
    assert_eq!(chunk.occupied(), 3);

    for &pos in &poses[..poses.len() - 1] {
        let _ = chunk.remove(pos);
    }
    let cleanup = chunk.remove(*poses.last().unwrap());
    assert_eq!(cleanup, Cleanup::RemoveChunk);
    assert_eq!(chunk.occupied(), 0);
}

#[test]
fn occupancy_tracks_distinct_slots() {
    let mut chunk = Chunk::default();
    let a = LocalPos::new([1, 1, 1]).unwrap();
    let b = LocalPos::new([2, 2, 2]).unwrap();
    assert_eq!(chunk.occupied(), 0);
    chunk.set(a, Tile::brick());
    assert_eq!(chunk.occupied(), 1);
    chunk.set(a, Tile::brick());
    assert_eq!(chunk.occupied(), 1);
    chunk.set(b, Tile::brick());
    assert_eq!(chunk.occupied(), 2);
    chunk.remove(a);
    assert_eq!(chunk.occupied(), 1);
    chunk.remove(a);
    assert_eq!(chunk.occupied(), 1);
    chunk.remove(b);
    assert_eq!(chunk.occupied(), 0);
}

#[test]
fn cleanup_exactly_at_zero() {
    assert_eq!(Cleanup::remove_if_zero(0), Cleanup::RemoveChunk);
    assert_eq!(Cleanup::remove_if_zero(1), Cleanup::Keep);
    assert_eq!(Cleanup::remove_if_zero(4096), Cleanup::Keep);
}

#[test]
fn chunk_get_reads_back() {
    let mut chunk = Chunk::default();
    let pos = LocalPos::new([9, 8, 7]).unwrap();
    assert_eq!(chunk.get(pos), None);
    chunk.set(pos, Tile::brick());
    assert_eq!(chunk.get(pos), Some(Tile::brick()));
    assert_eq!(chunk.get(LocalPos::new([7, 8, 9]).unwrap()), None);
}
