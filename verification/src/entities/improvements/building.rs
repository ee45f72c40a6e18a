use vstd::prelude::*;

use crate::improvements::resource::Resource;

verus! {

/// A building: what it produces each turn and what it costs.
pub struct Building<'a> {
    id: u32,
    name: String,
    production_resources: Vec<(i32, Resource<'a>)>,
    cost: Vec<(u32, Resource<'a>)>,
}

} // verus!
