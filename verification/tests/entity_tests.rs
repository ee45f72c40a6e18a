use hexworld::entities::entity_base::BaseEntity;
use hexworld::entities::units::unit::{BaseUnit, UnitType};
use hexworld::entities::entity_vertex_buffer::{next_texture_slot, place_units, start_after_removal};
use hexworld::entities::EntityHandler;
use hexworld::input::{press_tile, release_tile};
use hexworld::units::unit::{Unit, UnitType as PlainUnitType};
use hexworld::world::generation::generate_world;
use hexworld::world::tile::Tile;
use hexworld::world::OffsetTile;

fn empty_world(rows: usize, cols: usize) -> Vec<Vec<Tile>> {
    let mut w = Vec::new();
    for _ in 0..rows {
        let mut row = Vec::new();
        for _ in 0..cols {
            row.push(Tile::new(3, 0));
        }
        w.push(row);
    }
    w
}

#[test]
fn base_entity_movement() {
    let mut e = BaseEntity::new(1, 4, 10, 3, 1, 5, OffsetTile::new(2, 3));
    assert_eq!(e.get_movement(), 5);
    e.decrement_movement(2);
    assert_eq!(e.get_movement(), 3);
    e.set_pos(OffsetTile::new(7, 8));
    assert_eq!(e.get_offset_pos(), OffsetTile::new(7, 8));
    assert_eq!(e.get_player_id(), 1);
}

#[test]
fn base_unit_stats_from_type_and_extras() {
    let u = BaseUnit::new(UnitType::warrior, 1, 2, 0, 1, 3, (4, 5));
    let e = u.get_entity();
    assert_eq!(u.get_movement(), 4);
    assert_eq!(e.get_movement(), 4);
    assert_eq!(u.get_player(), 3);
    assert_eq!(u.get_pos(), (4, 5));
    assert_eq!(u.get_render_id(), 0);
    assert_eq!(BaseUnit::type_to_health(&UnitType::warrior), 15);
    assert_eq!(BaseUnit::type_to_power(&UnitType::archer), 3);
    assert_eq!(BaseUnit::type_to_range(&UnitType::archer), 3);
    assert_eq!(BaseUnit::type_to_movement(&UnitType::worker), 2);
}

#[test]
fn base_unit_negative_extra_movement_wraps() {
    // base movement 2 plus extra -3 is -1, which becomes 65535 as u16
    let u = BaseUnit::new(UnitType::worker, 0, 0, 0, -3, 0, (0, 0));
    assert_eq!(u.get_movement(), 65535);
}

#[test]
fn plain_unit_new() {
    let u = Unit::new(PlainUnitType::archer, 0, 0, 0, 0, 9, (1, 1));
    assert_eq!(u.render_id, 0);
    assert_eq!(Unit::type_to_health(&PlainUnitType::archer), 8);
    assert_eq!(Unit::type_to_power(&PlainUnitType::warrior), 5);
    assert_eq!(Unit::type_to_range(&PlainUnitType::worker), 1);
    assert_eq!(Unit::type_to_movement(&PlainUnitType::warrior), 3);
}

#[test]
fn create_unit_occupies_tile_and_hands_out_slots() {
    let mut world = empty_world(30, 30);
    let mut h = EntityHandler::new(100);
    let id0 = h.create_unit(&mut world, (26, 13), UnitType::worker, 0, 0, 0, 0, 0);
    let id1 = h.create_unit(&mut world, (3, 4), UnitType::archer, 1, 0, 0, 0, 0);
    assert_eq!((id0, id1), (0, 1));
    assert_eq!(world[26][13].get_occupied(), 1);
    assert_eq!(world[3][4].get_occupied(), 1);
    assert_eq!(world[26][13].get_biome(), 3);
    assert_eq!(h.get_unit((26, 13)).unwrap().get_render_id(), 0);
    assert_eq!(h.get_unit((3, 4)).unwrap().get_render_id(), 1);
    assert!(h.get_unit((0, 0)).is_none());
}

#[test]
fn select_and_deselect() {
    let mut world = empty_world(30, 30);
    let mut h = EntityHandler::new(10);
    h.create_unit(&mut world, (5, 5), UnitType::warrior, 0, 0, 0, 0, 0);
    assert!(h.get_selected_unit().is_none());
    h.select((6, 6));
    assert!(h.get_selected_unit().is_none());
    h.select((5, 5));
    assert_eq!(h.get_selected_unit().unwrap().get_pos(), (5, 5));
    h.select((7, 7));
    assert_eq!(h.get_selected_unit().unwrap().get_pos(), (5, 5));
    h.deselect();
    assert!(h.get_selected_unit().is_none());
}

#[test]
fn move_unit_within_range() {
    let mut world = empty_world(30, 30);
    let mut h = EntityHandler::new(10);
    h.create_unit(&mut world, (5, 5), UnitType::warrior, 0, 0, 0, 0, 0);
    h.select((5, 5));
    // cube of (5, 5) is (5, 0), of (5, 7) is (5, 2): two steps
    assert!(h.move_unit((5, 7), &mut world));
    assert_eq!(world[5][5].get_occupied(), 0);
    assert_eq!(world[5][7].get_occupied(), 1);
    assert!(h.get_unit((5, 5)).is_none());
    let u = h.get_unit((5, 7)).unwrap();
    assert_eq!(u.get_pos(), (5, 7));
    assert_eq!(u.get_movement(), 1);
    assert!(h.get_selected_unit().is_none());
}

#[test]
fn move_unit_too_far_is_refused() {
    let mut world = empty_world(30, 30);
    let mut h = EntityHandler::new(10);
    h.create_unit(&mut world, (5, 5), UnitType::worker, 0, 0, 0, 0, 0);
    h.select((5, 5));
    // (5, 5) -> (5, 8): three steps, a worker has two
    assert!(!h.move_unit((5, 8), &mut world));
    assert_eq!(world[5][5].get_occupied(), 1);
    assert_eq!(world[5][8].get_occupied(), 0);
    assert_eq!(h.get_selected_unit().unwrap().get_pos(), (5, 5));
    assert_eq!(h.get_unit((5, 5)).unwrap().get_movement(), 2);
}

#[test]
fn move_unit_onto_occupied_tile_is_refused() {
    let mut world = empty_world(30, 30);
    let mut h = EntityHandler::new(10);
    h.create_unit(&mut world, (5, 5), UnitType::warrior, 0, 0, 0, 0, 0);
    h.create_unit(&mut world, (5, 6), UnitType::worker, 1, 0, 0, 0, 0);
    h.select((5, 5));
    assert!(!h.move_unit((5, 6), &mut world));
    assert_eq!(h.get_unit((5, 5)).unwrap().get_movement(), 3);
    assert_eq!(h.get_unit((5, 6)).unwrap().get_player(), 1);
}

#[test]
fn move_unit_without_selection_is_refused() {
    let mut world = empty_world(30, 30);
    let mut h = EntityHandler::new(10);
    h.create_unit(&mut world, (5, 5), UnitType::warrior, 0, 0, 0, 0, 0);
    assert!(!h.move_unit((5, 6), &mut world));
    assert_eq!(world[5][6].get_occupied(), 0);
}

#[test]
fn movement_is_spent_across_moves() {
    let mut world = empty_world(30, 30);
    let mut h = EntityHandler::new(10);
    h.create_unit(&mut world, (10, 10), UnitType::warrior, 0, 0, 0, 0, 0);
    h.select((10, 10));
    assert!(h.move_unit((10, 11), &mut world));
    h.select((10, 11));
    assert!(h.move_unit((10, 13), &mut world));
    h.select((10, 13));
    assert_eq!(h.get_selected_unit().unwrap().get_movement(), 0);
    assert!(!h.move_unit((10, 14), &mut world));
}

#[test]
fn neighbouring_units() {
    let mut world = empty_world(30, 30);
    let mut h = EntityHandler::new(10);
    h.create_unit(&mut world, (1, 1), UnitType::warrior, 0, 0, 0, 0, 0);
    h.create_unit(&mut world, (1, 2), UnitType::worker, 0, 0, 0, 0, 0);
    h.create_unit(&mut world, (2, 1), UnitType::archer, 1, 0, 0, 0, 0);
    let around = vec![(0, 0), (1, 2), (2, 1), (2, 2), (1, 2)];
    assert_eq!(h.get_neighbouring_units(around.clone()), vec![(1, 2), (2, 1), (1, 2)]);
    assert_eq!(h.get_friendly_neighbouring_units((1, 1), around.clone()), vec![(1, 2), (1, 2)]);
    assert_eq!(h.get_friendly_neighbouring_units((2, 1), around), vec![(2, 1)]);
}

#[test]
fn generated_world_is_fresh() {
    let world = generate_world();
    assert_eq!(world.len(), 100);
    let mut seen = [false; 6];
    for row in &world {
        for t in row {
            seen[t.get_biome() as usize] = true;
        }
    }
    // ten thousand uniform draws from 0..=5 hit every biome
    assert!(seen.iter().all(|s| *s));
    for row in &world {
        assert_eq!(row.len(), 100);
        for t in row {
            assert!(t.get_biome() <= 5);
            assert_eq!(t.get_resource(), 0);
            assert_eq!(t.get_improved(), 0);
            assert_eq!(t.get_occupied(), 0);
        }
    }
}

#[test]
fn press_highlights_range_and_release_moves_and_clears() {
    let mut world = empty_world(30, 30);
    let mut h = EntityHandler::new(10);
    h.create_unit(&mut world, (10, 10), UnitType::worker, 0, 0, 0, 0, 0);
    let marked = press_tile(&mut h, &mut world, (10, 10));
    // a worker moves two steps: 19 tiles around it
    assert_eq!(marked.len(), 19);
    assert_eq!(world[10][12].get_improved(), 1);
    assert_eq!(world[10][13].get_improved(), 0);
    assert_eq!(world[12][12].get_improved(), 1);
    assert_eq!(world[12][10].get_improved(), 1);
    assert_eq!(world[8][10].get_improved(), 1);
    assert_eq!(world[12][9].get_improved(), 0);
    assert!(release_tile(&mut h, &mut world, (10, 12), marked));
    assert!(world.iter().all(|row| row.iter().all(|t| t.get_improved() == 0)));
    assert_eq!(world[10][12].get_occupied(), 1);
    assert_eq!(world[10][10].get_occupied(), 0);
}

#[test]
fn press_on_empty_tile_without_selection_marks_nothing() {
    let mut world = empty_world(30, 30);
    let mut h = EntityHandler::new(10);
    h.create_unit(&mut world, (10, 10), UnitType::worker, 0, 0, 0, 0, 0);
    let marked = press_tile(&mut h, &mut world, (3, 3));
    assert!(marked.is_empty());
    assert!(!release_tile(&mut h, &mut world, (3, 4), marked));
    assert_eq!(world[10][10].get_occupied(), 1);
}

#[test]
fn release_keeps_tiles_outside_the_range_and_moves_the_unit() {
    let mut world = empty_world(30, 30);
    let mut h = EntityHandler::new(10);
    h.create_unit(&mut world, (10, 10), UnitType::worker, 0, 0, 0, 0, 0);
    world[0][0].set_improved(1);
    let marked = press_tile(&mut h, &mut world, (10, 10));
    assert!(release_tile(&mut h, &mut world, (10, 12), marked));
    assert_eq!(world[0][0].get_improved(), 1);
    assert_eq!(world[10][12].get_biome(), 3);
    let u = h.get_unit((10, 12)).unwrap();
    assert_eq!(u.get_pos(), (10, 12));
    assert_eq!(u.get_movement(), 0);
    assert!(h.get_unit((10, 10)).is_none());
    assert!(h.get_selected_unit().is_none());
}

#[test]
fn release_out_of_range_keeps_the_unit_and_clears_marks() {
    let mut world = empty_world(30, 30);
    let mut h = EntityHandler::new(10);
    h.create_unit(&mut world, (10, 10), UnitType::worker, 0, 0, 0, 0, 0);
    let marked = press_tile(&mut h, &mut world, (10, 10));
    assert!(!release_tile(&mut h, &mut world, (10, 20), marked));
    assert!(world.iter().all(|row| row.iter().all(|t| t.get_improved() == 0)));
    assert_eq!(world[10][10].get_occupied(), 1);
    assert_eq!(h.get_unit((10, 10)).unwrap().get_movement(), 2);
}

#[test]
fn entity_map_getter_lists_units() {
    let mut world = empty_world(30, 30);
    let mut h = EntityHandler::new(10);
    h.create_unit(&mut world, (1, 1), UnitType::warrior, 0, 0, 0, 0, 0);
    h.create_unit(&mut world, (2, 3), UnitType::worker, 0, 0, 0, 0, 0);
    assert_eq!(h.get_entity_map().entities.len(), 2);
}

#[test]
fn place_units_on_empty_buffer_fills_from_zero() {
    let (start, end, slots) = place_units(0, 0, 3, 10, &vec![]);
    assert_eq!((start, end), (3, 3));
    assert_eq!(slots, vec![Some(0), Some(1), Some(2)]);
}

#[test]
fn place_units_after_full_buffer_shifts_both_ends() {
    let (start, end, slots) = place_units(5, 5, 2, 10, &vec![]);
    assert_eq!((start, end), (7, 7));
    assert_eq!(slots, vec![Some(0), Some(1)]);
}

#[test]
fn place_units_uses_empty_slots_only() {
    let (start, end, slots) = place_units(2, 6, 3, 10, &vec![false, true, true, false]);
    assert_eq!((start, end), (2, 6));
    assert_eq!(slots, vec![None, Some(3), Some(4)]);
}

#[test]
fn place_units_start_becomes_last_empty_index() {
    let (start, end, slots) = place_units(4, 9, 4, 10, &vec![true, false, false, true, true]);
    assert_eq!((start, end), (3, 9));
    assert_eq!(slots, vec![Some(4), None, None, Some(7)]);
}

#[test]
fn place_units_without_empty_slot_keeps_start() {
    let (start, end, slots) = place_units(2, 6, 2, 10, &vec![false, false, false, false]);
    assert_eq!((start, end), (2, 6));
    assert_eq!(slots, vec![None, None]);
}

#[test]
fn next_texture_slot_is_the_end() {
    assert_eq!(next_texture_slot(0, 0), (0, 1, 1));
    assert_eq!(next_texture_slot(2, 5), (5, 3, 6));
}

#[test]
fn start_after_removal_takes_the_lowest_freed_slot() {
    assert_eq!(start_after_removal(6, &vec![9, 4, 7]), 4);
    assert_eq!(start_after_removal(3, &vec![9, 4, 7]), 3);
    assert_eq!(start_after_removal(3, &vec![]), 3);
}

#[test]
fn selected_position_is_reported() {
    let mut world = empty_world(30, 30);
    let mut h = EntityHandler::new(10);
    assert_eq!(h.get_selected_pos(), None);
    h.create_unit(&mut world, (4, 5), UnitType::warrior, 0, 0, 0, 0, 0);
    h.select((4, 5));
    assert_eq!(h.get_selected_pos(), Some((4, 5)));
    assert_eq!(h.get_selected_unit().unwrap().get_pos(), (4, 5));
}
