use vstd::prelude::*;

use crate::entities::improvements::building::Building;

verus! {

/// A city standing on one tile, with its buildings.
pub struct City<'a> {
    tile: (u32, u32),
    buildings: Vec<Building<'a>>,
    player_id: u32,
    health: u32,
}

} // verus!
