use vstd::prelude::*;

use crate::entities::{pos_key, EntityHandler};
use crate::world::tile::Tile;
use crate::world::{wrap_coord, NUM_COLMS, NUM_ROWS};

verus! {

/// A screen hexagon and the world tile it shows.
#[derive(Clone, Copy, Debug)]
pub struct HexTile {
    /// Row of the shown tile in the world.
    pub row: usize,
    /// Column of the shown tile in the world.
    pub column: usize,
    /// The shown tile.
    pub tile: Tile,
    /// The render slot of the unit on the tile, when the tile is occupied and
    /// a unit stands there.
    pub unit_render_id: Option<usize>,
}

/// The number of hexagons in one screen row: one more than the screen width,
/// or one when the width is negative.
pub open spec fn screen_band(width: i32) -> int {
    if width >= 0 {
        width + 1
    } else {
        1
    }
}

/// The world row that the camera offset `start` starts at: the offset
/// taken around the world, however far it went in either direction.
pub open spec fn start_row(start: isize) -> int {
    start as int % (NUM_ROWS as int)
}

/// The world column that the camera offset `start` starts at.
pub open spec fn start_col(start: isize) -> int {
    start as int % (NUM_COLMS as int)
}

/// The world row shown by screen hexagon `i`: screen rows are `screen_band`
/// hexagons long and go down the world rows from the camera offset, around
/// the world.
pub open spec fn hex_row(start_tile: (isize, isize), size_screen: (i32, i32), i: int) -> int {
    (start_tile.0 + i / screen_band(size_screen.1)) % (NUM_ROWS as int)
}

/// The world column shown by screen hexagon `i`, around the world.
pub open spec fn hex_column(start_tile: (isize, isize), size_screen: (i32, i32), i: int) -> int {
    (start_tile.1 + i % screen_band(size_screen.1)) % (NUM_COLMS as int)
}

/// The row that the walk over the screen reaches at hexagon `i`: it starts
/// at the start row and steps down one row per screen row.
spec fn walk_row(start_tile: (isize, isize), size_screen: (i32, i32), i: int) -> int {
    (start_row(start_tile.0) + i / screen_band(size_screen.1)) % (NUM_ROWS as int)
}

/// The column that the walk over the screen reaches at hexagon `i`.
spec fn walk_column(start_tile: (isize, isize), size_screen: (i32, i32), i: int) -> int {
    (start_col(start_tile.1) + i % screen_band(size_screen.1)) % (NUM_COLMS as int)
}

proof fn lemma_walk_matches(start_tile: (isize, isize), size_screen: (i32, i32), i: int)
    ensures
        walk_row(start_tile, size_screen, i) == hex_row(start_tile, size_screen, i),
        walk_column(start_tile, size_screen, i) == hex_column(start_tile, size_screen, i),
{
    let b = screen_band(size_screen.1);
    lemma_mod_shift(start_tile.0 as int, i / b, NUM_ROWS as int);
    lemma_mod_shift(start_tile.1 as int, i % b, NUM_COLMS as int);
}

proof fn lemma_mod_shift(a: int, b: int, m: int)
    requires
        m > 0,
    ensures
        (a % m + b) % m == (a + b) % m,
{
    vstd::arithmetic::div_mod::lemma_add_mod_noop(a, b, m);
    vstd::arithmetic::div_mod::lemma_add_mod_noop(a % m, b, m);
    vstd::arithmetic::div_mod::lemma_mod_twice(a, m);
}

/// A screen row of width `w >= 0` holds exactly `w + 1` hexagons: hexagon
/// `i` shows world row `start.0 + i / (w + 1)` and world column
/// `start.1 + i % (w + 1)`, around the world, so hexagon `i + w + 1` shows
/// the next row down in the same column. With a negative width every screen
/// row holds one hexagon.
pub proof fn lemma_screen_rows(start_tile: (isize, isize), size_screen: (i32, i32), i: int)
    ensures
        size_screen.1 >= 0 ==> {
            &&& hex_row(start_tile, size_screen, i) == (start_tile.0 + i / (size_screen.1 + 1))
                % 100
            &&& hex_column(start_tile, size_screen, i) == (start_tile.1 + i % (size_screen.1
                + 1)) % 100
            &&& hex_row(start_tile, size_screen, i + size_screen.1 + 1) == (hex_row(
                start_tile,
                size_screen,
                i,
            ) + 1) % 100
            &&& hex_column(start_tile, size_screen, i + size_screen.1 + 1) == hex_column(
                start_tile,
                size_screen,
                i,
            )
        },
        size_screen.1 < 0 ==> {
            &&& hex_row(start_tile, size_screen, i) == (start_tile.0 + i) % 100
            &&& hex_column(start_tile, size_screen, i) == start_tile.1 % 100
        },
{
    if size_screen.1 >= 0 {
        let b = size_screen.1 + 1;
        vstd::arithmetic::div_mod::lemma_fundamental_div_mod(i, b);
        vstd::arithmetic::div_mod::lemma_mod_bound(i, b);
        let q = i / b;
        assert((q + 1) * b == b * q + b) by (nonlinear_arith);
        vstd::arithmetic::div_mod::lemma_fundamental_div_mod_converse(i + b, b, q + 1, i % b);
        lemma_mod_shift(start_tile.0 + i / b, 1, 100);
    } else {
        vstd::arithmetic::div_mod::lemma_fundamental_div_mod_converse(i, 1, i, 0);
    }
}

/// The world loops: camera offsets that differ by whole world sizes, in
/// either direction, start the map at the same tile, and every screen
/// hexagon shows the same tile.
pub proof fn lemma_world_loops(
    start_tile: (isize, isize),
    k_rows: int,
    k_cols: int,
    size_screen: (i32, i32),
    i: int,
)
    requires
        isize::MIN <= start_tile.0 + NUM_ROWS * k_rows <= isize::MAX,
        isize::MIN <= start_tile.1 + NUM_COLMS * k_cols <= isize::MAX,
    ensures
        ({
            let shifted = (
                (start_tile.0 + NUM_ROWS * k_rows) as isize,
                (start_tile.1 + NUM_COLMS * k_cols) as isize,
            );
            &&& start_row(shifted.0) == start_row(start_tile.0)
            &&& start_col(shifted.1) == start_col(start_tile.1)
            &&& hex_row(shifted, size_screen, i) == hex_row(start_tile, size_screen, i)
            &&& hex_column(shifted, size_screen, i) == hex_column(start_tile, size_screen, i)
        }),
{
    let b = screen_band(size_screen.1);
    vstd::arithmetic::div_mod::lemma_mod_multiples_vanish(k_rows, start_tile.0 as int, 100);
    vstd::arithmetic::div_mod::lemma_mod_multiples_vanish(k_cols, start_tile.1 as int, 100);
    vstd::arithmetic::div_mod::lemma_mod_multiples_vanish(k_rows, start_tile.0 + i / b, 100);
    vstd::arithmetic::div_mod::lemma_mod_multiples_vanish(k_cols, start_tile.1 + i % b, 100);
}

/// Whether `tiles` has at least `NUM_ROWS` rows of at least `NUM_COLMS` tiles.
pub open spec fn covers_world(tiles: Seq<Vec<Tile>>) -> bool {
    &&& tiles.len() >= NUM_ROWS
    &&& forall|r: int| 0 <= r < NUM_ROWS ==> #[trigger] tiles[r]@.len() >= NUM_COLMS
}

proof fn lemma_band_step(i: int, b: int)
    requires
        b > 0,
        i >= 0,
    ensures
        i % b == b - 1 ==> (i + 1) / b == i / b + 1 && (i + 1) % b == 0,
        i % b != b - 1 ==> (i + 1) / b == i / b && (i + 1) % b == i % b + 1,
{
    vstd::arithmetic::div_mod::lemma_fundamental_div_mod(i, b);
    vstd::arithmetic::div_mod::lemma_mod_pos_bound(i, b);
    let q = i / b;
    assert((q + 1) * b == q * b + b) by (nonlinear_arith);
    assert(b * q == q * b) by (nonlinear_arith);
    if i % b == b - 1 {
        vstd::arithmetic::div_mod::lemma_fundamental_div_mod_converse(i + 1, b, i / b + 1, 0);
    } else {
        vstd::arithmetic::div_mod::lemma_fundamental_div_mod_converse(
            i + 1,
            b,
            i / b,
            i % b + 1,
        );
    }
}

proof fn lemma_wrap_step(a: int, m: int)
    requires
        m > 1,
        a >= 0,
    ensures
        (if a % m + 1 >= m {
            0
        } else {
            a % m + 1
        }) == (a + 1) % m,
{
    vstd::arithmetic::div_mod::lemma_fundamental_div_mod(a, m);
    vstd::arithmetic::div_mod::lemma_mod_pos_bound(a, m);
    let q = a / m;
    assert((q + 1) * m == q * m + m) by (nonlinear_arith);
    assert(m * q == q * m) by (nonlinear_arith);
    if a % m + 1 >= m {
        vstd::arithmetic::div_mod::lemma_fundamental_div_mod_converse(a + 1, m, a / m + 1, 0);
    } else {
        vstd::arithmetic::div_mod::lemma_fundamental_div_mod_converse(a + 1, m, a / m, a % m + 1);
    }
}

proof fn lemma_small_mod(a: int, m: int)
    requires
        0 <= a < m,
    ensures
        a % m == a,
{
    vstd::arithmetic::div_mod::lemma_fundamental_div_mod_converse(a, m, 0, a);
}

/// The world tile shown by each of the first `hex_count` screen hexagons,
/// starting at the camera offset `start_tile` and walking screen rows of
/// `size_screen.1 + 1` hexagons, with the unit standing on each occupied tile.
pub fn hex_map_tiles(
    tiles: &Vec<Vec<Tile>>,
    entity_handler: &EntityHandler,
    start_tile: (isize, isize),
    size_screen: (i32, i32),
    hex_count: usize,
) -> (v: Vec<HexTile>)
    requires
        entity_handler.wf(),
        covers_world(tiles@),
    ensures
        v@.len() == hex_count,
        forall|i: int|
            #![trigger v@[i]]
            0 <= i < hex_count ==> {
                let h = v@[i];
                &&& h.row == hex_row(start_tile, size_screen, i)
                &&& h.column == hex_column(start_tile, size_screen, i)
                &&& h.tile == tiles@[h.row as int]@[h.column as int]
                &&& h.unit_render_id == if h.tile.occupied() == 1 && entity_handler.has_unit(
                    (h.row as u32, h.column as u32),
                ) {
                    Some(
                        entity_handler.unit((h.row as u32, h.column as u32)).spec_render_id() as usize,
                    )
                } else {
                    None::<usize>
                }
                &&& h.unit_render_id matches Some(id) ==> id < entity_handler.render_end()
            },
{
    let start_row_pos: usize = wrap_coord(start_tile.0, NUM_ROWS as isize) as usize;
    let start_column: usize = wrap_coord(start_tile.1, NUM_COLMS as isize) as usize;
    let mut row_pos = start_row_pos;
    let mut column_pos = start_column;
    let mut traveresd_hexes: i32 = 0;
    let ghost band = screen_band(size_screen.1);
    let mut result: Vec<HexTile> = Vec::new();

    let mut i: usize = 0;
    while i < hex_count
        invariant
            entity_handler.wf(),
            covers_world(tiles@),
            band == screen_band(size_screen.1),
            start_row_pos == start_row(start_tile.0),
            start_column == start_col(start_tile.1),
            i <= hex_count,
            result@.len() == i,
            row_pos == walk_row(start_tile, size_screen, i as int),
            column_pos == walk_column(start_tile, size_screen, i as int),
            traveresd_hexes == (i as int) % band,
            forall|j: int|
                #![trigger result@[j]]
                0 <= j < i ==> {
                    let h = result@[j];
                    &&& h.row == hex_row(start_tile, size_screen, j)
                    &&& h.column == hex_column(start_tile, size_screen, j)
                    &&& h.tile == tiles@[h.row as int]@[h.column as int]
                    &&& h.unit_render_id == if h.tile.occupied() == 1
                        && entity_handler.has_unit((h.row as u32, h.column as u32)) {
                        Some(
                            entity_handler.unit(
                                (h.row as u32, h.column as u32),
                            ).spec_render_id() as usize,
                        )
                    } else {
                        None::<usize>
                    }
                    &&& h.unit_render_id matches Some(id) ==> id < entity_handler.render_end()
                },
        decreases hex_count - i,
    {
        proof {
            lemma_walk_matches(start_tile, size_screen, i as int);
            vstd::arithmetic::div_mod::lemma_mod_pos_bound(
                start_row(start_tile.0) + (i as int) / band,
                NUM_ROWS as int,
            );
            vstd::arithmetic::div_mod::lemma_mod_pos_bound(
                start_col(start_tile.1) + (i as int) % band,
                NUM_COLMS as int,
            );
            vstd::arithmetic::div_mod::lemma_mod_pos_bound(i as int, band);
            vstd::arithmetic::div_mod::lemma_div_pos_is_pos(i as int, band);
            assert(tiles@[row_pos as int]@.len() >= NUM_COLMS);
        }
        let current_tile = tiles[row_pos][column_pos];
        let unit_pos = (row_pos as u32, column_pos as u32);
        let mut unit_render_id: Option<usize> = None;
        if current_tile.get_occupied() == 1 {
            let found = entity_handler.get_unit(unit_pos);
            if found.is_some() {
                let id = found.unwrap().get_render_id();
                unit_render_id = Some(id);
            }
        }
        result.push(HexTile { row: row_pos, column: column_pos, tile: current_tile, unit_render_id });

        proof {
            lemma_band_step(i as int, band);
            lemma_wrap_step(start_col(start_tile.1) + (i as int) % band, NUM_COLMS as int);
            lemma_wrap_step(start_row(start_tile.0) + (i as int) / band, NUM_ROWS as int);
            lemma_small_mod(start_col(start_tile.1), NUM_COLMS as int);
        }
        column_pos += 1;
        if column_pos >= NUM_COLMS {
            column_pos = 0;
        }
        if traveresd_hexes >= size_screen.1 {
            column_pos = start_column;
            row_pos += 1;
            if row_pos >= NUM_ROWS {
                row_pos = 0;
            }
            traveresd_hexes = -1;
        }
        traveresd_hexes += 1;
        i += 1;
    }
    result
}

} // verus!
