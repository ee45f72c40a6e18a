use vstd::prelude::*;

use crate::entities::entity_base::BaseEntity;
use super::building::Building;

verus! {

/// A city as an entity on the map, with its buildings.
pub struct City<'a> {
    buildings: Vec<Building<'a>>,
    entity: BaseEntity,
}

} // verus!
