use vstd::prelude::*;

use rand::distr::{Distribution, Uniform};
use rand::rngs::ThreadRng;

use crate::world::tile::Tile;
use crate::world::{NUM_COLMS, NUM_ROWS};

verus! {

/// The random number generator of the current thread, from `rand`.
#[verifier::external_type_specification]
#[verifier::external_body]
pub struct ExThreadRng(ThreadRng);

/// Calls `rand::rng`, which hands out the generator of the current thread.
/// Nothing is stated of it.
#[verifier::external_body]
fn thread_rng() -> ThreadRng {
    rand::rng()
}

/// Builds `rand::distr::Uniform::new_inclusive(low, high)` and draws one
/// value from it with `Distribution::sample`. The claim is that the value
/// lies in `low..=high`: `new_inclusive` refuses only `low > high`, and the
/// integer sampler adds to `low` an offset below the range's length. Which
/// value comes out depends on the generator's state and is not stated.
#[verifier::external_body]
fn sample_inclusive(rng: &mut ThreadRng, low: u16, high: u16) -> (v: u16)
    requires
        low <= high,
    ensures
        low <= v <= high,
{
    Uniform::new_inclusive(low, high).unwrap().sample(rng)
}

/// The highest biome a freshly generated tile can get.
pub const MAX_GENERATED_BIOME: u16 = 5;

/// Whether `world` is `NUM_COLMS` rows of `NUM_ROWS` fresh tiles: each of a
/// biome up to `MAX_GENERATED_BIOME`, with no resource, not improved and
/// not occupied.
pub open spec fn is_fresh_world(world: Seq<Vec<Tile>>) -> bool {
    &&& world.len() == NUM_COLMS
    &&& forall|i: int|
        #![trigger world[i]]
        0 <= i < NUM_COLMS ==> {
            &&& world[i]@.len() == NUM_ROWS
            &&& forall|j: int|
                0 <= j < NUM_ROWS ==> {
                    &&& #[trigger] world[i]@[j].biome() <= MAX_GENERATED_BIOME
                    &&& world[i]@[j].resource() == 0
                    &&& world[i]@[j].improved() == 0
                    &&& world[i]@[j].occupied() == 0
                }
        }
}

/// A new world of `NUM_COLMS` rows of `NUM_ROWS` tiles, each of a biome
/// drawn uniformly from `0..=MAX_GENERATED_BIOME`, with no resource.
pub fn generate_world() -> (world: Vec<Vec<Tile>>)
    ensures
        is_fresh_world(world@),
{
    let mut world_vec: Vec<Vec<Tile>> = Vec::new();
    let mut rng = thread_rng();
    for i in 0..NUM_COLMS
        invariant
            world_vec@.len() == i,
            forall|a: int|
                #![trigger world_vec@[a]]
                0 <= a < i ==> {
                    &&& world_vec@[a]@.len() == NUM_ROWS
                    &&& forall|j: int|
                        0 <= j < NUM_ROWS ==> {
                            &&& #[trigger] world_vec@[a]@[j].biome() <= MAX_GENERATED_BIOME
                            &&& world_vec@[a]@[j].resource() == 0
                            &&& world_vec@[a]@[j].improved() == 0
                            &&& world_vec@[a]@[j].occupied() == 0
                        }
                },
    {
        let mut row: Vec<Tile> = Vec::new();
        for j in 0..NUM_ROWS
            invariant
                row@.len() == j,
                forall|b: int|
                    0 <= b < j ==> {
                        &&& #[trigger] row@[b].biome() <= MAX_GENERATED_BIOME
                        &&& row@[b].resource() == 0
                        &&& row@[b].improved() == 0
                        &&& row@[b].occupied() == 0
                    },
        {
            let biome = sample_inclusive(&mut rng, 0, MAX_GENERATED_BIOME);
            row.push(Tile::new(biome, 0));
        }
        world_vec.push(row);
    }
    world_vec
}

} // verus!
