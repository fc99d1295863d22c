use voxelframe::Voxel;
use voxelframe::World;
use voxelframe::world::ModelVoxel;
use voxelframe::world::PaletteColor;

#[test]
fn voxel_packing_exact() {
    assert_eq!(Voxel::new(255, 0, 255).packed(), 0xFF00FFFF_u32);
    assert_eq!(Voxel::new_alpha(1, 2, 3, 4).packed(), 0x01020304_u32);
    assert_eq!(Voxel::new(156, 200, 120).packed(), 0x9CC878FF_u32);
    assert_eq!(Voxel::clear().packed(), 0);
    assert_eq!(Voxel::default().packed(), 0);
    assert_eq!(Voxel::from_packed(0xDEADBEEF).packed(), 0xDEADBEEF_u32);
    assert_eq!(Voxel::new(0, 0, 0).packed(), 0x000000FF_u32);
}

#[test]
fn empty_world_serializes_to_nothing() {
    let w = World::new(4);
    assert_eq!(w.side(), 16);
    assert!(w.serialize().is_empty());
}

#[test]
fn serialize_format_is_little_endian_records() {
    let mut w = World::new(4);
    w.set(1, 2, 3, Voxel::new_alpha(0xAA, 0xBB, 0xCC, 0xDD));
    let b = w.serialize();
    assert_eq!(
        b,
        vec![1, 0, 0, 0, 2, 0, 0, 0, 3, 0, 0, 0, 0xDD, 0xCC, 0xBB, 0xAA]
    );
}

#[test]
fn idempotent_overwrite() {
    let mut once = World::new(8);
    once.set(3, 4, 5, Voxel::new(10, 20, 30));
    let mut twice = World::new(8);
    twice.set(3, 4, 5, Voxel::new(10, 20, 30));
    twice.set(3, 4, 5, Voxel::new(10, 20, 30));
    assert_eq!(once.serialize(), twice.serialize());
}

#[test]
fn overwrite_replaces_in_place() {
    let mut w = World::new(8);
    w.set(3, 4, 5, Voxel::new(10, 20, 30));
    w.set(3, 4, 5, Voxel::new(40, 50, 60));
    let b = w.serialize();
    assert_eq!(b.len(), 16);
    assert_eq!(&b[12..16], &Voxel::new(40, 50, 60).packed().to_le_bytes());
}

#[test]
fn empty_round_trip() {
    let mut background = World::new(8);
    background.set(1, 1, 1, Voxel::new(9, 9, 9));
    let untouched = background.serialize();

    let mut w = World::new(8);
    w.set(1, 1, 1, Voxel::new(9, 9, 9));
    w.set(5, 6, 7, Voxel::new(100, 100, 100));
    w.set(5, 6, 7, Voxel::clear());
    assert_eq!(w.serialize(), untouched);
}

#[test]
fn bounds_safety_ignores_outside_writes() {
    let mut w = World::new(4);
    w.set(2, 2, 2, Voxel::new(1, 2, 3));
    let before = w.serialize();
    w.set(-1, 2, 2, Voxel::new(7, 7, 7));
    w.set(2, -64, 2, Voxel::new(7, 7, 7));
    w.set(2, 2, 16, Voxel::new(7, 7, 7));
    w.set(16, 16, 16, Voxel::new(7, 7, 7));
    w.set(i32::MIN, i32::MAX, 0, Voxel::new(7, 7, 7));
    assert_eq!(w.serialize(), before);
}

#[test]
fn boundary_coordinates() {
    let mut w = World::new(4);
    w.set(15, 15, 15, Voxel::new(1, 1, 1));
    assert_eq!(w.serialize().len(), 16);
    w.set(16, 15, 15, Voxel::new(1, 1, 1));
    assert_eq!(w.serialize().len(), 16);
    w.set(0, 0, 0, Voxel::new(2, 2, 2));
    assert_eq!(w.serialize().len(), 32);
}

#[test]
fn serialization_is_order_canonical() {
    let mut ab = World::new(8);
    ab.set(1, 2, 3, Voxel::new(5, 5, 5));
    ab.set(7, 8, 9, Voxel::new(6, 6, 6));
    let mut ba = World::new(8);
    ba.set(7, 8, 9, Voxel::new(6, 6, 6));
    ba.set(1, 2, 3, Voxel::new(5, 5, 5));
    assert_eq!(ab.serialize(), ba.serialize());
}

#[test]
fn deep_world_holds_far_corner() {
    let mut w = World::new(30);
    let max = (1_i32 << 30) - 1;
    w.set(max, max, max, Voxel::new(8, 8, 8));
    let b = w.serialize();
    assert_eq!(b.len(), 16);
    assert_eq!(&b[0..4], &(max as u32).to_le_bytes());
}

#[test]
fn populate_swaps_y_and_z_and_reads_palette() {
    let mut palette = Vec::new();
    for i in 0..256 {
        palette.push(PaletteColor { r: i as u8, g: 2, b: 3, a: 9 });
    }
    let voxels = vec![ModelVoxel { x: 1, y: 2, z: 3, color_index: 5 }];
    let mut w = World::new(8);
    w.populate(&voxels, &palette);
    let b = w.serialize();
    // position (1, 3, 2): the asset's y and z are swapped; the palette
    // alpha is ignored in favor of full opacity.
    let mut expected = Vec::new();
    expected.extend_from_slice(&1_u32.to_le_bytes());
    expected.extend_from_slice(&3_u32.to_le_bytes());
    expected.extend_from_slice(&2_u32.to_le_bytes());
    expected.extend_from_slice(&Voxel::new(5, 2, 3).packed().to_le_bytes());
    assert_eq!(b, expected);
}
