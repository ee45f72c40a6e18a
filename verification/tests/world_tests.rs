use hexworld::rendering::render::default_indices;
use hexworld::world::offset_coords::{
    qoffset_from_cube, qoffset_to_cube, roffset_from_cube, roffset_to_cube, Hex, EVEN, ODD,
};
use hexworld::world::tile::Tile;
use hexworld::world::world_camera::WorldCamera;
use hexworld::world::OffsetTile;

#[test]
fn tile_new_packs_fields() {
    let t = Tile::new(3, 5);
    assert_eq!(t.get_biome(), 3);
    assert_eq!(t.get_resource(), 5);
    assert_eq!(t.get_improved(), 0);
    assert_eq!(t.get_occupied(), 0);
}

#[test]
fn tile_new_with_large_resource_spills_into_other_bits() {
    // resource 8 shifted by one lands on the improvement bit
    let t = Tile::new(0, 8);
    assert_eq!(t.get_resource(), 0);
    assert_eq!(t.get_improved(), 1);
    // biome 9 keeps only its low three bits
    let t = Tile::new(9, 0);
    assert_eq!(t.get_biome(), 1);
}

#[test]
fn tile_setters_change_only_their_field() {
    let mut t = Tile::new(6, 2);
    t.set_occupied(1);
    assert_eq!((t.get_biome(), t.get_improved(), t.get_resource(), t.get_occupied()), (6, 0, 2, 1));
    t.set_improved(1);
    assert_eq!((t.get_biome(), t.get_improved(), t.get_resource(), t.get_occupied()), (6, 1, 2, 1));
    t.set_biome(7);
    assert_eq!((t.get_biome(), t.get_improved(), t.get_resource(), t.get_occupied()), (7, 1, 2, 1));
    t.set_resource(4);
    assert_eq!((t.get_biome(), t.get_improved(), t.get_resource(), t.get_occupied()), (7, 1, 4, 1));
    t.set_occupied(0);
    t.set_improved(0);
    assert_eq!((t.get_biome(), t.get_improved(), t.get_resource(), t.get_occupied()), (7, 0, 4, 0));
}

#[test]
fn tile_flag_setters_use_lowest_bit() {
    let mut t = Tile::new(1, 1);
    t.set_improved(3);
    assert_eq!(t.get_improved(), 1);
    t.set_improved(2);
    assert_eq!(t.get_improved(), 0);
    t.set_occupied(5);
    assert_eq!(t.get_occupied(), 1);
    t.set_occupied(4);
    assert_eq!(t.get_occupied(), 0);
}

#[test]
fn offset_tile_round_trip() {
    let p = OffsetTile::new(26, 13);
    assert_eq!(p.getX(), 26);
    assert_eq!(p.getY(), 13);
    let p = OffsetTile::new(65535, 65535);
    assert_eq!((p.getX(), p.getY()), (65535, 65535));
}

#[test]
fn offset_tile_keeps_low_sixteen_bits_of_x() {
    let p = OffsetTile::new(65536 + 7, 3);
    assert_eq!((p.getX(), p.getY()), (7, 3));
}

#[test]
fn offset_tile_offset_moves_position() {
    let p = OffsetTile::new(10, 20).offset(5, 7);
    assert_eq!((p.getX(), p.getY()), (15, 27));
    assert_eq!(OffsetTile::new(15, 27), p);
}

#[test]
fn world_camera_moves_and_moves_back() {
    let mut c = WorldCamera::new();
    assert_eq!(c.offsets(), (0, 0));
    c.move_camera(2, -3);
    assert_eq!(c.offsets(), (2, -3));
    c.move_camera(0, 1);
    assert_eq!(c.offsets(), (2, -2));
    c.move_camera(-2, 2);
    assert_eq!(c.offsets(), (0, 0));
}

#[test]
fn qoffset_from_cube_even_and_odd() {
    // even layout: row = r + (q + (q & 1)) / 2
    assert_eq!(qoffset_from_cube(EVEN, &Hex::new(3, -1, -2)), (3, 1));
    assert_eq!(qoffset_from_cube(EVEN, &Hex::new(2, 1, -3)), (2, 2));
    // odd layout: row = r + (q - (q & 1)) / 2
    assert_eq!(qoffset_from_cube(ODD, &Hex::new(3, -1, -2)), (3, 0));
    // negative columns halve toward zero
    assert_eq!(qoffset_from_cube(EVEN, &Hex::new(-3, 0, 3)), (-3, -1));
    assert_eq!(qoffset_from_cube(ODD, &Hex::new(-3, 0, 3)), (-3, -2));
}

#[test]
fn qoffset_to_cube_subtracts_column() {
    assert_eq!(qoffset_to_cube(EVEN, 3, 1), (3, -2));
    assert_eq!(qoffset_to_cube(ODD, 4, 10), (4, 6));
    assert_eq!(qoffset_to_cube(EVEN, -5, 0), (-5, 5));
}

#[test]
fn qoffset_round_trip_only_for_columns_zero_and_offset() {
    for r in -3..4 {
        let h = Hex::new(0, r, -r);
        let (c, row) = qoffset_from_cube(EVEN, &h);
        assert_eq!(qoffset_to_cube(EVEN, c, row), (0, r as isize));
        let h = Hex::new(1, r, -1 - r);
        let (c, row) = qoffset_from_cube(EVEN, &h);
        assert_eq!(qoffset_to_cube(EVEN, c, row), (1, r as isize));
        let h = Hex::new(-1, r, 1 - r);
        let (c, row) = qoffset_from_cube(ODD, &h);
        assert_eq!(qoffset_to_cube(ODD, c, row), (-1, r as isize));
    }
    // column 3 does not come back
    let h = Hex::new(3, -1, -2);
    let (c, row) = qoffset_from_cube(EVEN, &h);
    assert_ne!(qoffset_to_cube(EVEN, c, row), (3, -1));
}

#[test]
fn roffset_conversions() {
    assert_eq!(roffset_from_cube(EVEN, &Hex::new(-1, 3, -2)), (1, 3));
    assert_eq!(roffset_from_cube(ODD, &Hex::new(-1, 3, -2)), (0, 3));
    assert_eq!(roffset_to_cube(EVEN, &Hex::new(4, 5, -9)), (0, 0));
}

#[test]
fn neighbors_in_range_zero_is_the_position() {
    let v = Hex::neighbors_in_range_offset((5, 5), 0);
    assert_eq!(v, vec![OffsetTile::new(5, 5)]);
}

#[test]
fn neighbors_in_range_one() {
    let v = Hex::neighbors_in_range_offset((5, 5), 1);
    let coords: Vec<(u32, u32)> = v.iter().map(|t| (t.getX(), t.getY())).collect();
    // cube of (x, y) is (x, y - x); one step away are six positions
    assert_eq!(coords, vec![(4, 4), (4, 5), (5, 4), (5, 5), (5, 6), (6, 5), (6, 6)]);
}

#[test]
fn neighbors_in_range_clipped_at_origin() {
    let v = Hex::neighbors_in_range_offset((0, 0), 1);
    let coords: Vec<(u32, u32)> = v.iter().map(|t| (t.getX(), t.getY())).collect();
    assert_eq!(coords, vec![(0, 0), (0, 1), (1, 0), (1, 1)]);
}

#[test]
fn neighbors_in_range_two_counts_nineteen() {
    let v = Hex::neighbors_in_range_offset((10, 10), 2);
    assert_eq!(v.len(), 19);
}

#[test]
fn set_tiles_improved_marks_listed_tiles_only() {
    let mut world = vec![vec![Tile::new(2, 1); 4]; 4];
    let tiles = vec![OffsetTile::new(1, 2), OffsetTile::new(3, 0), OffsetTile::new(1, 2)];
    hexworld::world::set_tiles_improved(&mut world, &tiles, 1);
    for x in 0..4 {
        for y in 0..4 {
            let marked = (x, y) == (1, 2) || (x, y) == (3, 0);
            assert_eq!(world[x][y].get_improved(), if marked { 1 } else { 0 });
            assert_eq!(world[x][y].get_biome(), 2);
            assert_eq!(world[x][y].get_resource(), 1);
        }
    }
    hexworld::world::set_tiles_improved(&mut world, &tiles, 0);
    assert!(world.iter().all(|row| row.iter().all(|t| t.get_improved() == 0)));
}

#[test]
fn default_indices_for_shapes() {
    assert_eq!(default_indices(6), vec![0, 1, 2, 3, 4, 5]);
    assert_eq!(default_indices(4), vec![0, 1, 2, 3, 0, 1]);
    assert_eq!(default_indices(1), vec![0, 0, 0]);
    assert_eq!(default_indices(0), Vec::<u16>::new());
}

#[test]
fn neighbors_in_range_come_in_x_then_y_order() {
    let v = Hex::neighbors_in_range_offset((10, 10), 2);
    let coords: Vec<(u32, u32)> = v.iter().map(|t| (t.getX(), t.getY())).collect();
    assert!(coords.windows(2).all(|w| w[0] < w[1]));
}

#[test]
fn offset_tiles_are_equal_exactly_when_coordinates_are() {
    assert_eq!(OffsetTile::new(1, 2), OffsetTile::new(1, 2));
    assert_ne!(OffsetTile::new(1, 2), OffsetTile::new(2, 1));
    let t = OffsetTile::new(40, 17);
    assert_eq!(t.offset(0, 0), t);
    assert_eq!(t.offset(2, 3), OffsetTile::new(42, 20));
}
