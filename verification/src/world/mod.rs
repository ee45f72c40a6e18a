pub mod tile;
pub mod world_camera;
pub mod offset_coords;
pub mod draw_functions;
pub mod generation;

use vstd::prelude::*;

use tile::Tile;

verus! {

/// Number of tile rows in the world (must be even).
pub const NUM_ROWS: usize = 100;

/// Number of tile columns in the world (must be even).
pub const NUM_COLMS: usize = 100;

/// Base yield of a tile.
pub const TILE_YIELD: u32 = 2;

/// The packed value of position `(x, y)`: `x` in the high 16 bits, `y` added
/// to it.
pub open spec fn packed_position(x: u32, y: u32) -> int {
    (x as int % 65536) * 65536 + y as int
}

/// Whether `(x, y)` can be packed without overflowing 32 bits.
pub open spec fn position_fits(x: u32, y: u32) -> bool {
    packed_position(x, y) <= u32::MAX
}

/// A world position packed into one `u32`: the x coordinate in the high 16
/// bits and the y coordinate in the low 16 bits.
#[derive(PartialEq, Eq, Structural, Hash, Copy, Clone, Debug)]
pub struct OffsetTile {
    posistion: u32,
}

impl View for OffsetTile {
    type V = u32;

    closed spec fn view(&self) -> u32 {
        self.posistion
    }
}

impl OffsetTile {
    /// The x coordinate that `getX` reads.
    pub open spec fn x(&self) -> u32 {
        (self@ / 65536) as u32
    }

    /// The y coordinate that `getY` reads.
    pub open spec fn y(&self) -> u32 {
        (self@ % 65536) as u32
    }

    /// Each coordinate of a position is below 65536, and two positions are
    /// equal exactly when their coordinates are.
    pub proof fn lemma_coords_determine(a: OffsetTile, b: OffsetTile)
        ensures
            a.x() < 65536,
            a.y() < 65536,
            (a == b) <==> (a.x() == b.x() && a.y() == b.y()),
    {
        let pa = a@ as int;
        let pb = b@ as int;
        vstd::arithmetic::div_mod::lemma_fundamental_div_mod(pa, 65536);
        vstd::arithmetic::div_mod::lemma_fundamental_div_mod(pb, 65536);
        vstd::arithmetic::div_mod::lemma_mod_pos_bound(pa, 65536);
        vstd::arithmetic::div_mod::lemma_mod_pos_bound(pb, 65536);
        vstd::arithmetic::div_mod::lemma_div_is_ordered(pa, 4294967295, 65536);
        vstd::arithmetic::div_mod::lemma_div_is_ordered(pb, 4294967295, 65536);
        vstd::arithmetic::div_mod::lemma_div_pos_is_pos(pa, 65536);
        vstd::arithmetic::div_mod::lemma_div_pos_is_pos(pb, 65536);
        vstd::arithmetic::div_mod::lemma_fundamental_div_mod_converse(4294967295, 65536, 65535, 65535);
        if a.x() == b.x() && a.y() == b.y() {
            assert(a.posistion == b.posistion);
        }
    }

    /// Packs `(x, y)`: the low 16 bits of `x` go to the high half and `y` is
    /// added to them.
    pub fn new(x: u32, y: u32) -> (tile: OffsetTile)
        requires
            position_fits(x, y),
        ensures
            tile@ == packed_position(x, y),
            x < 65536 && y < 65536 ==> tile.x() == x && tile.y() == y,
    {
        let hi = (x << 16) & 4294901760;
        assert(hi == (x << 16u32) & 4294901760u32 ==> hi == (x % 65536) * 65536) by (bit_vector);
        let combined_pos: u32 = hi + y;
        OffsetTile { posistion: combined_pos }
    }

    pub fn getX(&self) -> (x: u32)
        ensures
            x == self.x(),
    {
        let p = self.posistion;
        assert((p & 4294901760u32) >> 16u32 == p / 65536) by (bit_vector);
        (p & 4294901760) >> 16
    }

    pub fn getY(&self) -> (y: u32)
        ensures
            y == self.y(),
    {
        let p = self.posistion;
        assert(p & 65535u32 == p % 65536) by (bit_vector);
        p & 65535
    }

    /// The position moved by `(off_x, off_y)`.
    pub fn offset(&self, off_x: u32, off_y: u32) -> (tile: OffsetTile)
        requires
            self.x() + off_x <= u32::MAX,
            self.y() + off_y <= u32::MAX,
            position_fits((self.x() + off_x) as u32, (self.y() + off_y) as u32),
        ensures
            tile@ == packed_position((self.x() + off_x) as u32, (self.y() + off_y) as u32),
            self.x() + off_x < 65536 && self.y() + off_y < 65536 ==> {
                &&& tile.x() == self.x() + off_x
                &&& tile.y() == self.y() + off_y
            },
    {
        let new_x = self.getX() + off_x;
        let new_y = self.getY() + off_y;
        OffsetTile::new(new_x, new_y)
    }
}

/// The tiles of a world as rows of tiles.
pub open spec fn world_view(world: &Vec<Vec<Tile>>) -> Seq<Seq<Tile>> {
    world@.map_values(|row: Vec<Tile>| row@)
}

/// Whether `p` indexes a tile of `world`.
pub open spec fn in_world(world: Seq<Seq<Tile>>, p: (u32, u32)) -> bool {
    &&& (p.0 as int) < world.len()
    &&& (p.1 as int) < world[p.0 as int].len()
}

/// The tile of `world` at `p`.
pub open spec fn tile_at(world: Seq<Seq<Tile>>, p: (u32, u32)) -> Tile {
    world[p.0 as int][p.1 as int]
}

/// `world` with the tile at `p` replaced by `t`.
pub open spec fn world_with(world: Seq<Seq<Tile>>, p: (u32, u32), t: Tile) -> Seq<Seq<Tile>> {
    world.update(p.0 as int, world[p.0 as int].update(p.1 as int, t))
}

/// A coordinate brought back into `0..m` after crossing an edge of the
/// world, however far it went: its Euclidean remainder modulo `m`.
pub(crate) fn wrap_coord(a: isize, m: isize) -> (r: isize)
    requires
        0 < m,
    ensures
        r == a as int % m as int,
        0 <= r < m,
{
    if a >= 0 {
        a % m
    } else {
        let b: isize = -(a + 1);
        let t: isize = b % m;
        proof {
            let q = b as int / m as int;
            vstd::arithmetic::div_mod::lemma_fundamental_div_mod(b as int, m as int);
            vstd::arithmetic::div_mod::lemma_mod_pos_bound(b as int, m as int);
            assert(m * (-q - 1) == -(m * q) - m) by (nonlinear_arith);
            vstd::arithmetic::div_mod::lemma_fundamental_div_mod_converse(
                a as int,
                m as int,
                -q - 1,
                m - 1 - t,
            );
        }
        m - 1 - t
    }
}

/// Sets the improvement flag of the tile at `p`.
fn set_tile_improved(world: &mut Vec<Vec<Tile>>, p: (u32, u32), improved: u8)
    requires
        in_world(world_view(old(world)), p),
    ensures
        world_view(final(world)) == world_with(
            world_view(old(world)),
            p,
            tile_at(world_view(old(world)), p).with_improved(improved),
        ),
{
    let ghost w0 = world_view(world);
    world[p.0 as usize][p.1 as usize].set_improved(improved);
    assert(world_view(world) =~= world_with(w0, p, tile_at(w0, p).with_improved(improved)));
}

/// Sets the improvement flag of every listed tile to the lowest bit of
/// `improved`; the other tiles keep theirs.
pub fn set_tiles_improved(world: &mut Vec<Vec<Tile>>, tiles: &Vec<OffsetTile>, improved: u8)
    requires
        forall|i: int|
            0 <= i < tiles@.len() ==> in_world(
                world_view(old(world)),
                (#[trigger] tiles@[i].x(), tiles@[i].y()),
            ),
    ensures
        world_view(final(world)).len() == world_view(old(world)).len(),
        forall|r: int|
            0 <= r < world_view(old(world)).len() ==> #[trigger] world_view(final(world))[r].len()
                == world_view(old(world))[r].len(),
        forall|p: (u32, u32)|
            #![trigger tile_at(world_view(final(world)), p)]
            in_world(world_view(old(world)), p) ==> tile_at(world_view(final(world)), p) == if exists|
                i: int,
            |
                0 <= i < tiles@.len() && tiles@[i].x() == p.0 && tiles@[i].y() == p.1 {
                tile_at(world_view(old(world)), p).with_improved(improved)
            } else {
                tile_at(world_view(old(world)), p)
            },
{
    let ghost w0 = world_view(world);
    let n = tiles.len();
    for k in 0..n
        invariant
            n == tiles@.len(),
            forall|i: int|
                0 <= i < tiles@.len() ==> in_world(w0, (#[trigger] tiles@[i].x(), tiles@[i].y())),
            world_view(world).len() == w0.len(),
            forall|r: int| 0 <= r < w0.len() ==> #[trigger] world_view(world)[r].len() == w0[r].len(),
            forall|p: (u32, u32)|
                #![trigger tile_at(world_view(world), p)]
                in_world(w0, p) ==> tile_at(world_view(world), p) == if exists|i: int|
                    0 <= i < k && tiles@[i].x() == p.0 && tiles@[i].y() == p.1 {
                    tile_at(w0, p).with_improved(improved)
                } else {
                    tile_at(w0, p)
                },
    {
        let t = tiles[k];
        let x = t.getX();
        let y = t.getY();
        let ghost wk = world_view(world);
        assert(in_world(w0, (x, y)));
        assert(wk[x as int].len() == w0[x as int].len());
        set_tile_improved(world, (x, y), improved);
        proof {
            assert(world_view(world).len() == w0.len());
            assert forall|r: int| 0 <= r < w0.len() implies #[trigger] world_view(world)[r].len() == w0[r].len() by {
                assert(wk[r].len() == w0[r].len());
            }
            tile::lemma_with_improved_twice(tile_at(w0, (x, y)), improved);
            assert forall|p: (u32, u32)| #![trigger tile_at(world_view(world), p)] in_world(w0, p) implies tile_at(world_view(world), p) == if exists|i: int|
                0 <= i < k + 1 && tiles@[i].x() == p.0 && tiles@[i].y() == p.1 {
                tile_at(w0, p).with_improved(improved)
            } else {
                tile_at(w0, p)
            } by {
                assert(tile_at(wk, p) == tile_at(world_view(world), p) || p == (x, y));
                if p == (x, y) {
                    assert(tiles@[k as int].x() == p.0 && tiles@[k as int].y() == p.1);
                } else {
                    if exists|i: int| 0 <= i < k + 1 && tiles@[i].x() == p.0 && tiles@[i].y() == p.1 {
                        let i = choose|i: int| 0 <= i < k + 1 && tiles@[i].x() == p.0 && tiles@[i].y() == p.1;
                        assert(i < k);
                    }
                }
            }
        }
    }
}

/// Packing a position with coordinates below 2^16 and reading it back gives
/// the same coordinates, and distinct such positions pack to distinct values.
pub proof fn lemma_offset_tile_round_trip(x1: u32, y1: u32, x2: u32, y2: u32)
    requires
        x1 < 65536,
        y1 < 65536,
        x2 < 65536,
        y2 < 65536,
    ensures
        position_fits(x1, y1),
        (packed_position(x1, y1) / 65536) as u32 == x1,
        (packed_position(x1, y1) % 65536) as u32 == y1,
        packed_position(x1, y1) == packed_position(x2, y2) ==> x1 == x2 && y1 == y2,
{
}

} // verus!
