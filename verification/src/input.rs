use vstd::prelude::*;

use crate::entities::{fits_isize, pos_key, unit_moved, world_after_move, EntityHandler};
use crate::world::offset_coords::{
    in_range, qoffset_from_cube, qoffset_row, tile_distance, Hex, EVEN, EXACT_COORD_LIMIT,
};
use crate::world::tile::Tile;
use crate::world::{in_world, set_tiles_improved, tile_at, world_view, wrap_coord};
use crate::world::world_camera::{moved_offsets, WorldCamera};
use crate::world::{packed_position, position_fits, OffsetTile, NUM_COLMS, NUM_ROWS};

verus! {

/// The screen row of the hexagon that sits at the centre of the view.
pub const SCREEN_CENTRE_ROW: isize = 25;

/// The screen column of the hexagon that sits at the centre of the view.
pub const SCREEN_CENTRE_COLUMN: isize = 12;

/// The world row (before wrapping) under the clicked hexagon.
pub open spec fn clicked_row(h: Hex, camera: (int, int)) -> int {
    SCREEN_CENTRE_ROW - h.q() + camera.0
}

/// The world column (before wrapping) under the clicked hexagon.
pub open spec fn clicked_column(h: Hex, camera: (int, int)) -> int {
    SCREEN_CENTRE_COLUMN - qoffset_row(EVEN, h) + camera.1
}

/// Whether a click on hexagon `h` with the camera at `camera` is handled
/// without leaving the exact range of `f32` in the halving of `q` and
/// without an `isize` overflow.
pub open spec fn click_defined(h: Hex, camera: (int, int)) -> bool {
    &&& -EXACT_COORD_LIMIT <= h.q() <= EXACT_COORD_LIMIT
    &&& isize::MIN <= qoffset_row(EVEN, h) <= isize::MAX
    &&& isize::MIN <= SCREEN_CENTRE_COLUMN - qoffset_row(EVEN, h) <= isize::MAX
    &&& isize::MIN <= clicked_row(h, camera) <= isize::MAX
    &&& isize::MIN <= clicked_column(h, camera) <= isize::MAX
}

/// Whether `get_clicked_pos` can handle the click (see `click_defined`).
pub fn clicked_pos_allowed(clicked_hex: &Hex, world_camera: &WorldCamera) -> (ok: bool)
    ensures
        ok == click_defined(*clicked_hex, world_camera@),
{
    let q = clicked_hex.get_q();
    let r = clicked_hex.get_r();
    if q < -EXACT_COORD_LIMIT || q > EXACT_COORD_LIMIT {
        return false;
    }
    let shifted: i32 = q + EVEN * crate::world::offset_coords::low_bit(q);
    let half = crate::world::offset_coords::halve_toward_zero(shifted);
    let row: i128 = r as i128 + half as i128;
    if row < isize::MIN as i128 || row > isize::MAX as i128 {
        return false;
    }
    let col = q as i128;
    let offsets = world_camera.offsets();
    let mirrored_col: i128 = SCREEN_CENTRE_COLUMN as i128 - row;
    if mirrored_col < isize::MIN as i128 || mirrored_col > isize::MAX as i128 {
        return false;
    }
    let raw_row: i128 = SCREEN_CENTRE_ROW as i128 - col + offsets.0 as i128;
    let raw_col: i128 = mirrored_col + offsets.1 as i128;
    if raw_row < isize::MIN as i128 || raw_row > isize::MAX as i128 {
        return false;
    }
    isize::MIN as i128 <= raw_col && raw_col <= isize::MAX as i128
}

/// The world tile under a clicked screen hexagon, given the hexagon that
/// was hit and where the world camera stands: the hexagon's offset position
/// is mirrored around the screen centre, shifted by the camera offsets and
/// wrapped around the world edges.
pub fn get_clicked_pos(clicked_hex: &Hex, world_camera: &WorldCamera) -> (tile: OffsetTile)
    requires
        click_defined(*clicked_hex, world_camera@),
    ensures
        tile@ == packed_position(
            (clicked_row(*clicked_hex, world_camera@) % (NUM_ROWS as int)) as u32,
            (clicked_column(*clicked_hex, world_camera@) % (NUM_COLMS as int)) as u32,
        ),
        tile.x() == clicked_row(*clicked_hex, world_camera@) % (NUM_ROWS as int),
        tile.y() == clicked_column(*clicked_hex, world_camera@) % (NUM_COLMS as int),
{
    let (mut clicked_y, mut clicked_x) = qoffset_from_cube(EVEN, clicked_hex);
    clicked_y = SCREEN_CENTRE_ROW - clicked_y;
    clicked_x = SCREEN_CENTRE_COLUMN - clicked_x;

    let camera_offsets = world_camera.offsets();

    clicked_x += camera_offsets.1;
    clicked_y += camera_offsets.0;

    clicked_x = wrap_coord(clicked_x, NUM_COLMS as isize);
    clicked_y = wrap_coord(clicked_y, NUM_ROWS as isize);

    OffsetTile::new(clicked_y as u32, clicked_x as u32)
}

/// The position that is selected after clicking `clicked`: the clicked
/// position when a unit stands there, else the earlier selection.
pub open spec fn selection_after_click(h: &EntityHandler, clicked: (u32, u32)) -> Option<(u32, u32)> {
    if h.has_unit(clicked) {
        Some(clicked)
    } else {
        h.selected()
    }
}

/// Whether every position within `range` of `center` is a tile of `world`
/// and can be packed.
pub open spec fn range_inside_world(world: Seq<Seq<Tile>>, center: (u32, u32), range: u16) -> bool {
    &&& center.0 + range < 65536
    &&& center.1 + range < 65536
    &&& forall|q: (u32, u32)| #[trigger] in_range(center, range, q) ==> in_world(world, q)
}

/// Whether one of `tiles` is at position `q`.
pub open spec fn listed(tiles: Seq<OffsetTile>, q: (u32, u32)) -> bool {
    exists|i: int| 0 <= i < tiles.len() && tiles[i].x() == q.0 && tiles[i].y() == q.1
}

/// A mouse press on the world tile `clicked`: selects the unit there (if
/// any) and marks as improved, and returns, every tile within the movement
/// range of the selected unit.
pub fn press_tile(
    entity_handler: &mut EntityHandler,
    world: &mut Vec<Vec<Tile>>,
    clicked: (u32, u32),
) -> (highlighted: Vec<OffsetTile>)
    requires
        old(entity_handler).wf(),
        selection_after_click(old(entity_handler), clicked) matches Some(p) ==> {
            let u = old(entity_handler).unit(p);
            old(entity_handler).has_unit(p) ==> range_inside_world(
                world_view(old(world)),
                u.pos(),
                u.entity().movement(),
            )
        },
    ensures
        final(entity_handler).wf(),
        final(entity_handler).selected() == selection_after_click(old(entity_handler), clicked),
        final(entity_handler).units() == old(entity_handler).units(),
        final(entity_handler).render_end() == old(entity_handler).render_end(),
        final(entity_handler).capacity() == old(entity_handler).capacity(),
        match final(entity_handler).selected() {
            Some(p) if final(entity_handler).has_unit(p) => {
                let u = final(entity_handler).unit(p);
                &&& forall|q: (u32, u32)| #[trigger]
                    in_range(u.pos(), u.entity().movement(), q) <==> listed(highlighted@, q)
                &&& forall|i: int|
                    #![trigger highlighted@[i]]
                    0 <= i < highlighted@.len() ==> in_range(
                        u.pos(),
                        u.entity().movement(),
                        (highlighted@[i].x(), highlighted@[i].y()),
                    )
            },
            _ => highlighted@.len() == 0,
        },
        world_view(final(world)).len() == world_view(old(world)).len(),
        forall|r: int|
            0 <= r < world_view(old(world)).len() ==> #[trigger] world_view(final(world))[r].len()
                == world_view(old(world))[r].len(),
        forall|q: (u32, u32)|
            #![trigger tile_at(world_view(final(world)), q)]
            in_world(world_view(old(world)), q) ==> tile_at(world_view(final(world)), q) == if listed(
                highlighted@,
                q,
            ) {
                tile_at(world_view(old(world)), q).with_improved(1)
            } else {
                tile_at(world_view(old(world)), q)
            },
{
    entity_handler.select(clicked);
    let selected = entity_handler.get_selected_unit();
    let neighbors = match selected {
        Some(unit) => Hex::neighbors_in_range_offset(unit.get_pos(), unit.get_movement()),
        None => Vec::new(),
    };
    proof {
        if let Some(p) = entity_handler.selected() {
            if entity_handler.has_unit(p) {
                let u = entity_handler.unit(p);
                assert forall|i: int| 0 <= i < neighbors@.len() implies in_world(
                    world_view(world),
                    (#[trigger] neighbors@[i].x(), neighbors@[i].y()),
                ) by {
                    assert(in_range(
                        u.pos(),
                        u.entity().movement(),
                        (neighbors@[i].x(), neighbors@[i].y()),
                    ));
                }
            }
        }
    }
    set_tiles_improved(world, &neighbors, 1);
    neighbors
}

/// The world after a release on `clicked`: the move's changes when the unit
/// moved, then every marked tile's improvement flag cleared.
pub open spec fn world_after_release(
    world: Seq<Seq<Tile>>,
    h: &EntityHandler,
    clicked: (u32, u32),
    highlighted: Seq<OffsetTile>,
    q: (u32, u32),
) -> Tile {
    let mid = if h.can_move_to(world, clicked) {
        world_after_move(world, h.selected()->Some_0, clicked)
    } else {
        world
    };
    if listed(highlighted, q) {
        tile_at(mid, q).with_improved(0)
    } else {
        tile_at(mid, q)
    }
}

/// A mouse release on the world tile `clicked`: moves the selected unit
/// there if it can go, then clears the improvement mark of every tile that
/// the press marked. Returns whether the unit moved.
pub fn release_tile(
    entity_handler: &mut EntityHandler,
    world: &mut Vec<Vec<Tile>>,
    clicked: (u32, u32),
    highlighted: Vec<OffsetTile>,
) -> (moved: bool)
    requires
        old(entity_handler).wf(),
        in_world(world_view(old(world)), clicked),
        fits_isize(clicked),
        position_fits(clicked.0, clicked.1),
        old(entity_handler).selected() matches Some(p) ==> in_world(world_view(old(world)), p)
            && fits_isize(p),
        forall|i: int|
            0 <= i < highlighted@.len() ==> in_world(
                world_view(old(world)),
                (#[trigger] highlighted@[i].x(), highlighted@[i].y()),
            ),
    ensures
        final(entity_handler).wf(),
        moved == old(entity_handler).can_move_to(world_view(old(world)), clicked),
        final(entity_handler).render_end() == old(entity_handler).render_end(),
        final(entity_handler).capacity() == old(entity_handler).capacity(),
        !moved ==> {
            &&& final(entity_handler).units() == old(entity_handler).units()
            &&& final(entity_handler).selected() == old(entity_handler).selected()
        },
        moved ==> {
            let p = old(entity_handler).selected()->Some_0;
            &&& final(entity_handler).selected() is None
            &&& final(entity_handler).has_unit(clicked)
            &&& final(entity_handler).units() == old(entity_handler).units().remove(
                pos_key(p),
            ).insert(pos_key(clicked), final(entity_handler).unit(clicked))
            &&& unit_moved(
                old(entity_handler).unit(p),
                final(entity_handler).unit(clicked),
                clicked,
                tile_distance(p, clicked),
            )
        },
        world_view(final(world)).len() == world_view(old(world)).len(),
        forall|r: int|
            0 <= r < world_view(old(world)).len() ==> #[trigger] world_view(final(world))[r].len()
                == world_view(old(world))[r].len(),
        forall|q: (u32, u32)|
            #![trigger tile_at(world_view(final(world)), q)]
            in_world(world_view(old(world)), q) ==> tile_at(world_view(final(world)), q)
                == world_after_release(world_view(old(world)), old(entity_handler), clicked, highlighted@, q),
        forall|i: int|
            0 <= i < highlighted@.len() ==> #[trigger] tile_at(
                world_view(final(world)),
                (highlighted@[i].x(), highlighted@[i].y()),
            ).improved() == 0,
        old(entity_handler).occupancy_matches(world_view(old(world)))
            ==> final(entity_handler).occupancy_matches(world_view(final(world))),
{
    let ghost w0 = world_view(world);
    let moved = entity_handler.move_unit(clicked, world);
    let ghost w1 = world_view(world);
    proof {
        assert(w1.len() == w0.len());
        assert forall|r: int| 0 <= r < w0.len() implies #[trigger] w1[r].len() == w0[r].len() by {}
        assert forall|i: int| 0 <= i < highlighted@.len() implies in_world(
            w1,
            (#[trigger] highlighted@[i].x(), highlighted@[i].y()),
        ) by {
            assert(in_world(w0, (highlighted@[i].x(), highlighted@[i].y())));
        }
    }
    set_tiles_improved(world, &highlighted, 0);
    proof {
        assert forall|i: int| 0 <= i < highlighted@.len() implies #[trigger] tile_at(
            world_view(world),
            (highlighted@[i].x(), highlighted@[i].y()),
        ).improved() == 0 by {
            let q = (highlighted@[i].x(), highlighted@[i].y());
            assert(in_world(w1, q));
            assert(listed(highlighted@, q));
            crate::world::tile::lemma_with_improved(tile_at(w1, q), 0);
        }
        if old(entity_handler).occupancy_matches(w0) {
            assert(entity_handler.occupancy_matches(w1));
            assert forall|q: (u32, u32)| in_world(world_view(world), q) implies #[trigger] tile_at(
                world_view(world),
                q,
            ).occupied() == tile_at(w1, q).occupied() by {
                crate::world::tile::lemma_with_improved(tile_at(w1, q), 0);
            }
        }
    }
    moved
}

/// Moving the camera by `(dx, dy)` moves the clicked position by the same
/// amount around the world.
pub proof fn lemma_clicked_pos_follows_camera(h: Hex, camera: (int, int), dx: int, dy: int)
    ensures
        ({
            let moved = moved_offsets(camera, dx, dy);
            &&& clicked_row(h, moved) % (NUM_ROWS as int) == (clicked_row(h, camera) % (
            NUM_ROWS as int) + dx) % (NUM_ROWS as int)
            &&& clicked_column(h, moved) % (NUM_COLMS as int) == (clicked_column(h, camera) % (
            NUM_COLMS as int) + dy) % (NUM_COLMS as int)
        }),
{
    let r = clicked_row(h, camera);
    let c = clicked_column(h, camera);
    vstd::arithmetic::div_mod::lemma_add_mod_noop(r, dx, NUM_ROWS as int);
    vstd::arithmetic::div_mod::lemma_add_mod_noop(c, dy, NUM_COLMS as int);
    vstd::arithmetic::div_mod::lemma_mod_twice(dx, NUM_ROWS as int);
    vstd::arithmetic::div_mod::lemma_add_mod_noop(r % (NUM_ROWS as int), dx, NUM_ROWS as int);
    vstd::arithmetic::div_mod::lemma_add_mod_noop(c % (NUM_COLMS as int), dy, NUM_COLMS as int);
    vstd::arithmetic::div_mod::lemma_mod_twice(r, NUM_ROWS as int);
    vstd::arithmetic::div_mod::lemma_mod_twice(c, NUM_COLMS as int);
}

/// The tile that a click on hexagon `h` lands on follows the camera: when the
/// camera moves by `(dx, dy)`, the tile that `get_clicked_pos` gives after the
/// move is the tile it gave before, moved by `(dx, dy)` around the world.
pub proof fn lemma_clicked_tile_follows_camera(
    h: Hex,
    camera: (int, int),
    dx: int,
    dy: int,
    before: OffsetTile,
    after: OffsetTile,
)
    requires
        before@ == packed_position(
            (clicked_row(h, camera) % (NUM_ROWS as int)) as u32,
            (clicked_column(h, camera) % (NUM_COLMS as int)) as u32,
        ),
        after@ == packed_position(
            (clicked_row(h, moved_offsets(camera, dx, dy)) % (NUM_ROWS as int)) as u32,
            (clicked_column(h, moved_offsets(camera, dx, dy)) % (NUM_COLMS as int)) as u32,
        ),
    ensures
        after.x() == (before.x() + dx) % (NUM_ROWS as int),
        after.y() == (before.y() + dy) % (NUM_COLMS as int),
{
    let moved = moved_offsets(camera, dx, dy);
    let x0 = clicked_row(h, camera) % (NUM_ROWS as int);
    let y0 = clicked_column(h, camera) % (NUM_COLMS as int);
    let x1 = clicked_row(h, moved) % (NUM_ROWS as int);
    let y1 = clicked_column(h, moved) % (NUM_COLMS as int);
    lemma_clicked_pos_follows_camera(h, camera, dx, dy);
    vstd::arithmetic::div_mod::lemma_small_mod(x0 as nat, 65536);
    vstd::arithmetic::div_mod::lemma_small_mod(x1 as nat, 65536);
    vstd::arithmetic::div_mod::lemma_fundamental_div_mod_converse(before@ as int, 65536, x0, y0);
    vstd::arithmetic::div_mod::lemma_fundamental_div_mod_converse(after@ as int, 65536, x1, y1);
}

/// Where a click lands, read off the tile that `get_clicked_pos` gives: the
/// hexagon's column `q` is mirrored around screen row 25 and its offset row
/// around screen column 12, both shifted by the camera and taken around the
/// world. So hexagons in neighbouring columns land on neighbouring world
/// rows, on either side of the centre.
pub proof fn lemma_clicked_tile_mirrors_hexagon(
    h1: Hex,
    h2: Hex,
    camera: (int, int),
    t1: OffsetTile,
    t2: OffsetTile,
)
    requires
        t1@ == packed_position(
            (clicked_row(h1, camera) % (NUM_ROWS as int)) as u32,
            (clicked_column(h1, camera) % (NUM_COLMS as int)) as u32,
        ),
        t2@ == packed_position(
            (clicked_row(h2, camera) % (NUM_ROWS as int)) as u32,
            (clicked_column(h2, camera) % (NUM_COLMS as int)) as u32,
        ),
    ensures
        t1.x() == (25 - h1.q() + camera.0) % 100,
        t1.y() == (12 - qoffset_row(EVEN, h1) + camera.1) % 100,
        t2.x() == (t1.x() + h1.q() - h2.q()) % 100,
{
    let x1 = clicked_row(h1, camera) % 100;
    let y1 = clicked_column(h1, camera) % 100;
    let x2 = clicked_row(h2, camera) % 100;
    let y2 = clicked_column(h2, camera) % 100;
    vstd::arithmetic::div_mod::lemma_mod_bound(clicked_row(h1, camera), 100);
    vstd::arithmetic::div_mod::lemma_mod_bound(clicked_column(h1, camera), 100);
    vstd::arithmetic::div_mod::lemma_mod_bound(clicked_row(h2, camera), 100);
    vstd::arithmetic::div_mod::lemma_mod_bound(clicked_column(h2, camera), 100);
    vstd::arithmetic::div_mod::lemma_small_mod(x1 as nat, 65536);
    vstd::arithmetic::div_mod::lemma_small_mod(x2 as nat, 65536);
    vstd::arithmetic::div_mod::lemma_fundamental_div_mod_converse(t1@ as int, 65536, x1, y1);
    vstd::arithmetic::div_mod::lemma_fundamental_div_mod_converse(t2@ as int, 65536, x2, y2);
    let r1 = clicked_row(h1, camera);
    let d = h1.q() - h2.q();
    assert(clicked_row(h2, camera) == r1 + d);
    vstd::arithmetic::div_mod::lemma_add_mod_noop(r1, d, 100);
    vstd::arithmetic::div_mod::lemma_add_mod_noop(r1 % 100, d, 100);
    vstd::arithmetic::div_mod::lemma_mod_twice(r1, 100);
}

} // verus!
