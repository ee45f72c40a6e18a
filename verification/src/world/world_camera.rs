use vstd::prelude::*;

verus! {

/// The pair of offsets `(x, y)` after moving by `(move_x, move_y)`.
pub open spec fn moved_offsets(offsets: (int, int), move_x: int, move_y: int) -> (int, int) {
    (offsets.0 + move_x, offsets.1 + move_y)
}

/// How far the visible part of the world is shifted from the world origin,
/// in tiles.
pub struct WorldCamera {
    x_offset: isize,
    y_offset: isize,
}

impl View for WorldCamera {
    type V = (int, int);

    closed spec fn view(&self) -> (int, int) {
        (self.x_offset as int, self.y_offset as int)
    }
}

impl WorldCamera {
    /// A camera at the world origin.
    pub fn new() -> (camera: WorldCamera)
        ensures
            camera@ == (0int, 0int),
    {
        WorldCamera { x_offset: 0, y_offset: 0 }
    }

    /// Shifts the camera by `(move_x, move_y)` tiles.
    pub fn move_camera(&mut self, move_x: isize, move_y: isize)
        requires
            isize::MIN <= old(self)@.0 + move_x <= isize::MAX,
            isize::MIN <= old(self)@.1 + move_y <= isize::MAX,
        ensures
            final(self)@ == moved_offsets(old(self)@, move_x as int, move_y as int),
    {
        self.x_offset += move_x;
        self.y_offset += move_y;
    }

    /// The current `(x, y)` offsets.
    pub fn offsets(&self) -> (o: (isize, isize))
        ensures
            o.0 as int == self@.0,
            o.1 as int == self@.1,
    {
        (self.x_offset, self.y_offset)
    }
}

/// Moving the camera by `(a, b)` and then by `(-a, -b)` brings it back where
/// it was; two moves add up to one move by their sum.
pub proof fn lemma_camera_moves_compose(offsets: (int, int), a: int, b: int, c: int, d: int)
    ensures
        moved_offsets(moved_offsets(offsets, a, b), -a, -b) == offsets,
        moved_offsets(moved_offsets(offsets, a, b), c, d) == moved_offsets(offsets, a + c, b + d),
{
}

} // verus!
