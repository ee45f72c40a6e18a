use hexworld::entities::units::unit::UnitType;
use hexworld::entities::EntityHandler;
use hexworld::input::{clicked_pos_allowed, get_clicked_pos};
use hexworld::world::draw_functions::hex_map_tiles;
use hexworld::world::offset_coords::Hex;
use hexworld::world::tile::Tile;
use hexworld::world::world_camera::WorldCamera;

fn striped_world() -> Vec<Vec<Tile>> {
    let mut w = Vec::new();
    for r in 0..100u16 {
        let mut row = Vec::new();
        for _ in 0..100 {
            row.push(Tile::new(r % 6, 0));
        }
        w.push(row);
    }
    w
}

#[test]
fn hex_map_walks_screen_rows() {
    let world = striped_world();
    let h = EntityHandler::new(10);
    // screen rows of 3 hexagons (width 2), starting at row 1, column 98
    let v = hex_map_tiles(&world, &h, (1, -2), (0, 2), 7);
    let coords: Vec<(usize, usize)> = v.iter().map(|t| (t.row, t.column)).collect();
    assert_eq!(coords, vec![(1, 98), (1, 99), (1, 0), (2, 98), (2, 99), (2, 0), (3, 98)]);
    assert_eq!(v[3].tile.get_biome(), 2);
    assert!(v.iter().all(|t| t.unit_render_id.is_none()));
}

#[test]
fn hex_map_wraps_rows() {
    let world = striped_world();
    let h = EntityHandler::new(10);
    let v = hex_map_tiles(&world, &h, (99, 0), (0, 0), 3);
    let coords: Vec<(usize, usize)> = v.iter().map(|t| (t.row, t.column)).collect();
    assert_eq!(coords, vec![(99, 0), (0, 0), (1, 0)]);
}

#[test]
fn hex_map_negative_width_gives_one_hexagon_per_row() {
    let world = striped_world();
    let h = EntityHandler::new(10);
    let v = hex_map_tiles(&world, &h, (0, 5), (0, -4), 2);
    let coords: Vec<(usize, usize)> = v.iter().map(|t| (t.row, t.column)).collect();
    assert_eq!(coords, vec![(0, 5), (1, 5)]);
}

#[test]
fn hex_map_reports_units_on_occupied_tiles() {
    let mut world = striped_world();
    let mut h = EntityHandler::new(10);
    h.create_unit(&mut world, (0, 1), UnitType::worker, 0, 0, 0, 0, 0);
    h.create_unit(&mut world, (0, 2), UnitType::warrior, 0, 0, 0, 0, 0);
    // a tile marked occupied with no unit on it
    world[0][3].set_occupied(1);
    let v = hex_map_tiles(&world, &h, (0, 0), (0, 9), 5);
    let ids: Vec<Option<usize>> = v.iter().map(|t| t.unit_render_id).collect();
    assert_eq!(ids, vec![None, Some(0), Some(1), None, None]);
    assert_eq!(v[3].tile.get_occupied(), 1);
}

#[test]
fn clicked_pos_mirrors_and_shifts() {
    let mut camera = WorldCamera::new();
    // hexagon (0, 0) has offset position (0, 0): row 25, column 12
    let p = get_clicked_pos(&Hex::new(0, 0, 0), &camera);
    assert_eq!((p.getX(), p.getY()), (25, 12));
    // hexagon (3, -1): offset (3, 1): row 22, column 11
    let p = get_clicked_pos(&Hex::new(3, -1, -2), &camera);
    assert_eq!((p.getX(), p.getY()), (22, 11));
    camera.move_camera(10, -20);
    let p = get_clicked_pos(&Hex::new(0, 0, 0), &camera);
    assert_eq!((p.getX(), p.getY()), (35, 92));
}

#[test]
fn clicked_pos_wraps_at_world_edges() {
    let mut camera = WorldCamera::new();
    camera.move_camera(80, 88);
    // row 25 + 80 = 105 -> 5; column 12 + 88 = 100 -> 0
    let p = get_clicked_pos(&Hex::new(0, 0, 0), &camera);
    assert_eq!((p.getX(), p.getY()), (5, 0));
    camera.move_camera(-105, -112);
    // offsets are now (-25, -24): row 0 stays 0; column -12 wraps to 88
    let p = get_clicked_pos(&Hex::new(0, 0, 0), &camera);
    assert_eq!((p.getX(), p.getY()), (0, 88));
}

#[test]
fn world_loops_for_camera_offsets() {
    let world = striped_world();
    let h = EntityHandler::new(10);
    let a = hex_map_tiles(&world, &h, (3, 7), (0, 4), 12);
    let b = hex_map_tiles(&world, &h, (203, 107), (0, 4), 12);
    let c = hex_map_tiles(&world, &h, (-97, -93), (0, 4), 12);
    let ca: Vec<(usize, usize)> = a.iter().map(|t| (t.row, t.column)).collect();
    let cb: Vec<(usize, usize)> = b.iter().map(|t| (t.row, t.column)).collect();
    let cc: Vec<(usize, usize)> = c.iter().map(|t| (t.row, t.column)).collect();
    assert_eq!(ca, cb);
    assert_eq!(ca, cc);
}

#[test]
fn clicked_pos_allowed_for_ordinary_clicks() {
    let mut camera = WorldCamera::new();
    assert!(clicked_pos_allowed(&Hex::new(0, 0, 0), &camera));
    assert!(clicked_pos_allowed(&Hex::new(3, -1, -2), &camera));
    camera.move_camera(-30, 40);
    assert!(clicked_pos_allowed(&Hex::new(0, 0, 0), &camera));
    let p = get_clicked_pos(&Hex::new(0, 0, 0), &camera);
    assert_eq!((p.getX(), p.getY()), (95, 52));
}

#[test]
fn clicked_pos_refused_beyond_exact_float_range() {
    let camera = WorldCamera::new();
    assert!(!clicked_pos_allowed(&Hex::new(16_777_217, -8_388_608, -8_388_609), &camera));
    assert!(clicked_pos_allowed(&Hex::new(16_777_216, -8_388_608, -8_388_608), &camera));
}

#[test]
fn clicked_pos_wraps_far_past_the_world_edge() {
    let mut camera = WorldCamera::new();
    // column 12 - 200 = -188 lies 12 columns past two world widths
    camera.move_camera(0, -200);
    assert!(clicked_pos_allowed(&Hex::new(0, 0, 0), &camera));
    let p = get_clicked_pos(&Hex::new(0, 0, 0), &camera);
    assert_eq!((p.getX(), p.getY()), (25, 12));
}

#[test]
fn clicked_pos_allows_large_r() {
    let camera = WorldCamera::new();
    // column 12 + 50_000_000 wraps onto column 12
    let h = Hex::new(0, -50_000_000, 50_000_000);
    assert!(clicked_pos_allowed(&h, &camera));
    let p = get_clicked_pos(&h, &camera);
    assert_eq!((p.getX(), p.getY()), (25, 12));
    // and so does column 12 - 50_000_000
    let h = Hex::new(0, 50_000_000, -50_000_000);
    assert!(clicked_pos_allowed(&h, &camera));
    let p = get_clicked_pos(&h, &camera);
    assert_eq!((p.getX(), p.getY()), (25, 12));
}

#[test]
fn clicked_pos_keeps_looping_after_many_moves_left() {
    let mut camera = WorldCamera::new();
    let h = Hex::new(3, -1, -2);
    let before = get_clicked_pos(&h, &camera);
    for _ in 0..51 {
        camera.move_camera(-2, 0);
    }
    // offset -102: row 22 - 102 = -80 is row 20
    let after = get_clicked_pos(&h, &camera);
    assert_eq!((after.getX(), after.getY()), (20, 11));
    assert_eq!(after.getX() as i64, (before.getX() as i64 - 102).rem_euclid(100));
    for _ in 0..1000 {
        camera.move_camera(-7, -13);
    }
    let far = get_clicked_pos(&h, &camera);
    assert_eq!(far.getX() as i64, (before.getX() as i64 - 102 - 7000).rem_euclid(100));
    assert_eq!(far.getY() as i64, (before.getY() as i64 - 13000).rem_euclid(100));
}

#[test]
fn clicked_tile_follows_camera_moves() {
    let mut camera = WorldCamera::new();
    let h = Hex::new(3, -1, -2);
    let before = get_clicked_pos(&h, &camera);
    camera.move_camera(90, 95);
    let after = get_clicked_pos(&h, &camera);
    assert_eq!(after.getX(), (before.getX() + 90) % 100);
    assert_eq!(after.getY(), (before.getY() + 95) % 100);
    assert_eq!((after.getX(), after.getY()), (12, 6));
}

#[test]
fn hex_map_with_widest_screen_stays_in_one_row() {
    let world = striped_world();
    let h = EntityHandler::new(10);
    let v = hex_map_tiles(&world, &h, (0, 98), (0, i32::MAX), 4);
    let coords: Vec<(usize, usize)> = v.iter().map(|t| (t.row, t.column)).collect();
    assert_eq!(coords, vec![(0, 98), (0, 99), (0, 0), (0, 1)]);
}

#[test]
fn hex_map_loops_for_far_negative_offsets() {
    let world = striped_world();
    let h = EntityHandler::new(10);
    let v = hex_map_tiles(&world, &h, (-102, -250), (0, 3), 6);
    let coords: Vec<(usize, usize)> = v.iter().map(|t| (t.row, t.column)).collect();
    assert_eq!(coords, vec![(98, 50), (98, 51), (98, 52), (98, 53), (99, 50), (99, 51)]);
    let w = hex_map_tiles(&world, &h, (98, 50), (0, 3), 6);
    let cw: Vec<(usize, usize)> = w.iter().map(|t| (t.row, t.column)).collect();
    assert_eq!(coords, cw);
    let x = hex_map_tiles(&world, &h, (isize::MIN, isize::MAX), (0, 0), 2);
    let cx: Vec<(usize, usize)> = x.iter().map(|t| (t.row, t.column)).collect();
    // isize::MIN = -9223372036854775808 is 92 mod 100; isize::MAX is 7
    assert_eq!(cx, vec![(92, 7), (93, 7)]);
}
