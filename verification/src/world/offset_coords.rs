use vstd::prelude::*;

use crate::world::OffsetTile;

verus! {

/// Offset layout in which even columns (or rows) are shoved.
pub const EVEN: i32 = 1;

/// Offset layout in which odd columns (or rows) are shoved.
pub const ODD: i32 = -1;

/// The largest coordinate magnitude that `f32` holds exactly, within which
/// the halving in the offset conversions is exact.
pub const EXACT_COORD_LIMIT: i32 = 16777216;

/// Halving that rounds toward zero, as a cast of `n / 2.0` to an integer does.
pub open spec fn half_toward_zero(n: int) -> int {
    if n >= 0 {
        n / 2
    } else {
        -((-n) / 2)
    }
}

/// 1 for odd `n`, 0 for even `n` (the value of `n & 1`).
pub open spec fn parity(n: int) -> int {
    n % 2
}

/// Cube coordinates `(q, r, s)` of a hexagon.
#[derive(PartialEq, Eq, Structural, Copy, Clone, Debug)]
pub struct Hex {
    q: i32,
    r: i32,
    s: i32,
}

impl Hex {
    pub closed spec fn q(&self) -> i32 {
        self.q
    }

    pub closed spec fn r(&self) -> i32 {
        self.r
    }

    pub closed spec fn s(&self) -> i32 {
        self.s
    }

    pub fn new(q: i32, r: i32, s: i32) -> (h: Hex)
        ensures
            h.q() == q,
            h.r() == r,
            h.s() == s,
    {
        Hex { q, r, s }
    }

    pub fn get_q(&self) -> (q: i32)
        ensures
            q == self.q(),
    {
        self.q
    }

    pub fn get_r(&self) -> (r: i32)
        ensures
            r == self.r(),
    {
        self.r
    }

    pub fn get_s(&self) -> (s: i32)
        ensures
            s == self.s(),
    {
        self.s
    }
}

/// `n & 1` computed on a 32-bit integer, with its value proved to be the
/// parity of `n`.
pub(crate) fn low_bit(n: i32) -> (b: i32)
    ensures
        b == parity(n as int),
{
    let b = n & 1;
    assert(n & 1i32 == 0i32 || n & 1i32 == 1i32) by (bit_vector);
    assert((n & 1i32 == 0i32) == (n % 2i32 == 0i32)) by (bit_vector);
    b
}

/// `n / 2` rounded toward zero: the value of `(n as f32 / 2.0) as i32`
/// wherever `f32` holds `n` exactly.
pub(crate) fn halve_toward_zero(n: i32) -> (h: i32)
    requires
        -EXACT_COORD_LIMIT <= n <= EXACT_COORD_LIMIT,
    ensures
        h == half_toward_zero(n as int),
{
    if n >= 0 {
        n / 2
    } else {
        -((-n) / 2)
    }
}

/// The row that a flat-topped hexagon lands in under the given offset layout.
pub open spec fn qoffset_row(offset: i32, h: Hex) -> int {
    h.r() + half_toward_zero(h.q() + offset * parity(h.q() as int))
}

/// The column that a pointy-topped hexagon lands in under the given offset layout.
pub open spec fn roffset_col(offset: i32, h: Hex) -> int {
    h.q() + half_toward_zero(h.r() + offset * parity(h.r() as int))
}

/// The offset row of a flat-topped hexagon moves up half a row per column:
/// twice its distance from `r` is `q` in an even column and `q + offset` in
/// an odd one, whichever layout is used.
pub proof fn lemma_qoffset_row_is_half_column(offset: i32, h: Hex)
    requires
        offset == EVEN || offset == ODD,
    ensures
        h.q() % 2 == 0 ==> 2 * (qoffset_row(offset, h) - h.r()) == h.q(),
        h.q() % 2 != 0 ==> 2 * (qoffset_row(offset, h) - h.r()) == h.q() + offset,
{
}

/// The offset column of a pointy-topped hexagon moves half a column per
/// row: twice its distance from `q` is `r` in an even row and `r + offset`
/// in an odd one.
pub proof fn lemma_roffset_col_is_half_row(offset: i32, h: Hex)
    requires
        offset == EVEN || offset == ODD,
    ensures
        h.r() % 2 == 0 ==> 2 * (roffset_col(offset, h) - h.q()) == h.r(),
        h.r() % 2 != 0 ==> 2 * (roffset_col(offset, h) - h.q()) == h.r() + offset,
{
}

/// Offset `(column, row)` of a flat-topped hexagon.
pub fn qoffset_from_cube(offset: i32, h: &Hex) -> (res: (isize, isize))
    requires
        offset == EVEN || offset == ODD,
        -EXACT_COORD_LIMIT <= h.q() <= EXACT_COORD_LIMIT,
        isize::MIN <= qoffset_row(offset, *h) <= isize::MAX,
    ensures
        res.0 == h.q(),
        res.1 == qoffset_row(offset, *h),
{
    let q = h.get_q();
    let col = q as isize;
    let shifted: i32 = q + offset * low_bit(q);
    let half = halve_toward_zero(shifted);
    let row = h.get_r() as isize + half as isize;
    (col, row)
}

/// Cube `(q, r)` of an offset `(col, row)` for flat-topped hexagons. The
/// half-column shift `offset * (col & 1) / 2` is at most one half, which the
/// cast to an integer truncates to zero, so `r` is `row - col`.
pub fn qoffset_to_cube(offset: i32, col: isize, row: isize) -> (res: (isize, isize))
    requires
        offset == EVEN || offset == ODD,
        isize::MIN <= row - col <= isize::MAX,
    ensures
        res.0 == col,
        res.1 == row - col,
{
    let q = col;
    let r = row - col;
    (q, r)
}

/// Offset `(column, row)` of a pointy-topped hexagon.
pub fn roffset_from_cube(offset: i32, h: &Hex) -> (res: (isize, isize))
    requires
        offset == EVEN || offset == ODD,
        -EXACT_COORD_LIMIT <= h.r() <= EXACT_COORD_LIMIT,
        isize::MIN <= roffset_col(offset, *h) <= isize::MAX,
    ensures
        res.0 == roffset_col(offset, *h),
        res.1 == h.r(),
{
    let r = h.get_r();
    let shifted: i32 = r + offset * low_bit(r);
    let half = halve_toward_zero(shifted);
    let col = h.get_q() as isize + half as isize;
    let row = r as isize;
    (col, row)
}

/// Cube coordinates of a pointy-topped offset position: not worked out yet,
/// every hexagon maps to `(0, 0)`.
pub fn roffset_to_cube(offset: i32, h: &Hex) -> (res: (u32, u32))
    ensures
        res == (0u32, 0u32),
{
    (0, 0)
}

/// Number of steps between two hexagons given by axial `(q, r)` coordinates.
pub open spec fn hex_distance(a: (int, int), b: (int, int)) -> int {
    let dq = a.0 - b.0;
    let dr = a.1 - b.1;
    (abs(dq) + abs(dr) + abs(dq + dr)) / 2
}

pub open spec fn abs(n: int) -> int {
    if n < 0 {
        -n
    } else {
        n
    }
}

/// Number of steps between two hexagons given by axial `(q, r)` coordinates.
pub fn axial_distance(a: (isize, isize), b: (isize, isize)) -> (d: i128)
    ensures
        d == hex_distance((a.0 as int, a.1 as int), (b.0 as int, b.1 as int)),
        d >= 0,
{
    let dq: i128 = a.0 as i128 - b.0 as i128;
    let dr: i128 = a.1 as i128 - b.1 as i128;
    let ds: i128 = dq + dr;
    let adq: i128 = if dq < 0 { -dq } else { dq };
    let adr: i128 = if dr < 0 { -dr } else { dr };
    let ads: i128 = if ds < 0 { -ds } else { ds };
    (adq + adr + ads) / 2
}

} // verus!

verus! {

/// The number of steps between two world positions, through their cube
/// coordinates `(column, row - column)`.
pub open spec fn tile_distance(a: (u32, u32), b: (u32, u32)) -> int {
    hex_distance((a.0 as int, a.1 - a.0), (b.0 as int, b.1 - b.0))
}

/// Steps between two world positions with coordinates below 2^16.
fn position_distance(a: (u32, u32), b: (u32, u32)) -> (d: i128)
    requires
        a.0 < 65536,
        a.1 < 65536,
        b.0 < 65536,
        b.1 < 65536,
    ensures
        d == tile_distance(a, b),
{
    let ca = qoffset_to_cube(EVEN, a.0 as isize, a.1 as isize);
    let cb = qoffset_to_cube(EVEN, b.0 as isize, b.1 as isize);
    axial_distance(ca, cb)
}

/// The step count between positions is symmetric, zero exactly from a
/// position to itself, and never smaller than the difference of either
/// coordinate.
pub proof fn lemma_tile_distance_metric(a: (u32, u32), b: (u32, u32))
    ensures
        tile_distance(a, b) == tile_distance(b, a),
        tile_distance(a, b) == 0 <==> a == b,
        tile_distance(a, b) >= abs(a.0 - b.0),
        tile_distance(a, b) >= abs(a.1 - b.1),
{
}

/// The step count between two hexagons is the largest of the three cube
/// coordinate differences: for axial differences `(dq, dr)` it is the
/// largest of `|dq|`, `|dr|` and `|dq + dr|`.
pub proof fn lemma_hex_distance_is_largest_difference(a: (int, int), b: (int, int))
    ensures
        ({
            let dq = a.0 - b.0;
            let dr = a.1 - b.1;
            let x = if dq < 0 { -dq } else { dq };
            let y = if dr < 0 { -dr } else { dr };
            let z = if dq + dr < 0 { -(dq + dr) } else { dq + dr };
            hex_distance(a, b) == if x >= y && x >= z {
                x
            } else if y >= z {
                y
            } else {
                z
            }
        }),
{
}

/// Each of the six neighbours of a hexagon is one step away.
pub proof fn lemma_neighbours_are_one_step(a: (int, int))
    ensures
        hex_distance(a, (a.0 + 1, a.1)) == 1,
        hex_distance(a, (a.0 - 1, a.1)) == 1,
        hex_distance(a, (a.0, a.1 + 1)) == 1,
        hex_distance(a, (a.0, a.1 - 1)) == 1,
        hex_distance(a, (a.0 + 1, a.1 - 1)) == 1,
        hex_distance(a, (a.0 - 1, a.1 + 1)) == 1,
{
}

/// Going through a third hexagon is never shorter: the step count obeys
/// the triangle inequality.
pub proof fn lemma_hex_distance_triangle(a: (int, int), b: (int, int), c: (int, int))
    ensures
        hex_distance(a, c) <= hex_distance(a, b) + hex_distance(b, c),
{
    lemma_hex_distance_is_largest_difference(a, b);
    lemma_hex_distance_is_largest_difference(b, c);
    lemma_hex_distance_is_largest_difference(a, c);
}

/// Walking `k` hexagons along one of the three axes takes exactly `|k|`
/// steps.
pub proof fn lemma_straight_lines(a: (int, int), k: int)
    ensures
        hex_distance(a, (a.0 + k, a.1)) == if k < 0 { -k } else { k },
        hex_distance(a, (a.0, a.1 + k)) == if k < 0 { -k } else { k },
        hex_distance(a, (a.0 + k, a.1 - k)) == if k < 0 { -k } else { k },
{
}

/// Moving along a world column takes one step per position.
pub proof fn lemma_tile_distance_along_columns(x: u32, y1: u32, y2: u32)
    ensures
        tile_distance((x, y1), (x, y2)) == if y1 < y2 { y2 - y1 } else { y1 - y2 },
{
}

/// Whether position `p` is within `range` steps of `center`.
pub open spec fn in_range(center: (u32, u32), range: u16, p: (u32, u32)) -> bool {
    tile_distance(center, p) <= range
}

impl Hex {
    /// Every position within `range` steps of `pos`, each once, ordered by x
    /// and then by y.
    pub fn neighbors_in_range_offset(pos: (u32, u32), range: u16) -> (v: Vec<OffsetTile>)
        requires
            pos.0 + range < 65536,
            pos.1 + range < 65536,
        ensures
            forall|i: int|
                #![trigger v@[i]]
                0 <= i < v@.len() ==> in_range(pos, range, (v@[i].x(), v@[i].y())),
            forall|p: (u32, u32)|
                #[trigger] in_range(pos, range, p) ==> exists|i: int|
                    0 <= i < v@.len() && v@[i].x() == p.0 && v@[i].y() == p.1,
            forall|i: int, j: int|
                #![trigger v@[i], v@[j]]
                0 <= i < j < v@.len() ==> v@[i].x() < v@[j].x() || (v@[i].x() == v@[j].x()
                    && v@[i].y() < v@[j].y()),
    {
        let lo_x: u32 = if pos.0 >= range as u32 { pos.0 - range as u32 } else { 0 };
        let lo_y: u32 = if pos.1 >= range as u32 { pos.1 - range as u32 } else { 0 };
        let hi_x: u32 = pos.0 + range as u32;
        let hi_y: u32 = pos.1 + range as u32;
        let mut v: Vec<OffsetTile> = Vec::new();
        let mut x = lo_x;
        while x <= hi_x
            invariant
                pos.0 + range < 65536,
                pos.1 + range < 65536,
                lo_x == (if pos.0 >= range { pos.0 - range } else { 0 }),
                lo_y == (if pos.1 >= range { pos.1 - range } else { 0 }),
                hi_x == pos.0 + range,
                hi_y == pos.1 + range,
                lo_x <= x <= hi_x + 1,
                forall|i: int|
                    #![trigger v@[i]]
                    0 <= i < v@.len() ==> {
                        &&& in_range(pos, range, (v@[i].x(), v@[i].y()))
                        &&& v@[i].x() < x
                    },
                forall|p: (u32, u32)|
                    #[trigger] in_range(pos, range, p) && p.0 < x ==> exists|i: int|
                        0 <= i < v@.len() && v@[i].x() == p.0 && v@[i].y() == p.1,
                forall|i: int, j: int|
                    #![trigger v@[i], v@[j]]
                    0 <= i < j < v@.len() ==> v@[i].x() < v@[j].x() || (v@[i].x() == v@[j].x()
                        && v@[i].y() < v@[j].y()),
            decreases hi_x + 1 - x,
        {
            let ghost before = v@;
            let mut y = lo_y;
            while y <= hi_y
                invariant
                    pos.0 + range < 65536,
                    pos.1 + range < 65536,
                    lo_y == (if pos.1 >= range { pos.1 - range } else { 0 }),
                    hi_y == pos.1 + range,
                    lo_x <= x <= hi_x,
                    hi_x == pos.0 + range,
                    lo_y <= y <= hi_y + 1,
                    before.len() <= v@.len(),
                    forall|i: int| 0 <= i < before.len() ==> #[trigger] v@[i] == before[i],
                    forall|i: int|
                        #![trigger v@[i]]
                        0 <= i < before.len() ==> v@[i].x() < x,
                    forall|i: int|
                        #![trigger v@[i]]
                        before.len() <= i < v@.len() ==> v@[i].x() == x && v@[i].y() < y,
                    forall|i: int|
                        #![trigger v@[i]]
                        0 <= i < v@.len() ==> in_range(pos, range, (v@[i].x(), v@[i].y())),
                    forall|p: (u32, u32)|
                        #[trigger] in_range(pos, range, p) && p.0 < x ==> exists|i: int|
                            0 <= i < before.len() && before[i].x() == p.0 && before[i].y() == p.1,
                    forall|p: (u32, u32)|
                        #[trigger] in_range(pos, range, p) && p.0 == x && p.1 < y ==> exists|i: int|
                            before.len() <= i < v@.len() && v@[i].x() == p.0 && v@[i].y() == p.1,
                    forall|i: int, j: int|
                        #![trigger v@[i], v@[j]]
                        0 <= i < j < v@.len() ==> v@[i].x() < v@[j].x() || (v@[i].x() == v@[j].x()
                            && v@[i].y() < v@[j].y()),
                decreases hi_y + 1 - y,
            {
                let ghost mid = v@;
                let d = position_distance(pos, (x, y));
                if d <= range as i128 {
                    let t = OffsetTile::new(x, y);
                    v.push(t);
                }
                proof {
                    assert forall|p: (u32, u32)|
                        #[trigger] in_range(pos, range, p) && p.0 == x && p.1 < y + 1 implies exists|i: int|
                        before.len() <= i < v@.len() && v@[i].x() == p.0 && v@[i].y() == p.1 by {
                        if p.1 == y {
                            assert(v@[mid.len() as int].x() == p.0);
                        } else {
                            let i = choose|i: int|
                                before.len() <= i < mid.len() && mid[i].x() == p.0 && mid[i].y() == p.1;
                            assert(v@[i] == mid[i]);
                        }
                    }
                }
                y += 1;
            }
            proof {
                assert forall|p: (u32, u32)| #[trigger] in_range(pos, range, p) && p.0 < x + 1 implies exists|i: int|
                    0 <= i < v@.len() && v@[i].x() == p.0 && v@[i].y() == p.1 by {
                    if p.0 < x {
                        let i = choose|i: int| 0 <= i < before.len() && before[i].x() == p.0 && before[i].y() == p.1;
                        assert(v@[i] == before[i]);
                    } else {
                        assert(p.1 >= lo_y && p.1 <= hi_y);
                    }
                }
            }
            x += 1;
        }
        proof {
            assert forall|p: (u32, u32)| #[trigger] in_range(pos, range, p) implies exists|i: int|
                0 <= i < v@.len() && v@[i].x() == p.0 && v@[i].y() == p.1 by {
                assert(p.0 >= lo_x && p.0 <= hi_x);
            }
        }
        v
    }
}

/// Converting a flat-topped hexagon to offset coordinates and back gives the
/// hexagon back exactly when its column is 0 or equals the layout's offset
/// (1 for `EVEN`, -1 for `ODD`): the way back takes `r = row - column`, so
/// every other column comes back shifted.
pub proof fn lemma_qoffset_round_trip(offset: i32, h: Hex)
    requires
        offset == EVEN || offset == ODD,
    ensures
        (qoffset_row(offset, h) - h.q() == h.r()) <==> (h.q() == 0 || h.q() == offset),
{
    let q = h.q() as int;
    let n = q + offset * parity(q);
    if q >= 0 {
        if q % 2 == 0 {
            assert(n == q);
        } else {
            assert(n == q + offset);
        }
    } else {
        if q % 2 == 0 {
            assert(n == q);
        } else {
            assert(n == q + offset);
        }
    }
}

} // verus!
