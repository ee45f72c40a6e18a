pub mod entity_base;
pub mod entity_vertex_buffer;
pub mod units;
pub mod improvements;

use std::collections::HashMap;

use vstd::prelude::*;

use crate::world::offset_coords::{axial_distance, qoffset_to_cube, tile_distance, EVEN};
use crate::world::{in_world, packed_position, position_fits, tile_at, world_view, world_with};
use crate::world::tile::Tile;
use units::unit::{unit_stats_fit, BaseUnit, UnitType, base_health, base_power, base_range, base_movement};

verus! {

broadcast use vstd::std_specs::hash::group_hash_axioms;

/// The key under which the unit at position `p` is stored.
pub open spec fn pos_key(p: (u32, u32)) -> u64 {
    (p.0 as int * 4294967296 + p.1 as int) as u64
}

/// The position stored under key `k`.
pub open spec fn key_pos(k: u64) -> (u32, u32) {
    ((k as int / 4294967296) as u32, (k as int % 4294967296) as u32)
}

/// Positions and keys correspond one to one.
pub proof fn lemma_pos_key_bijective(p: (u32, u32), k: u64)
    ensures
        key_pos(pos_key(p)) == p,
        pos_key(key_pos(k)) == k,
{
}

fn key_of(p: (u32, u32)) -> (k: u64)
    ensures
        k == pos_key(p),
{
    p.0 as u64 * 4294967296 + p.1 as u64
}

/// Sets the occupation flag of the tile at `p`.
fn set_tile_occupied(world: &mut Vec<Vec<Tile>>, p: (u32, u32), occupied: u8)
    requires
        in_world(world_view(old(world)), p),
    ensures
        world_view(final(world)) == world_with(
            world_view(old(world)),
            p,
            tile_at(world_view(old(world)), p).with_occupied(occupied),
        ),
{
    let ghost w0 = world_view(world);
    world[p.0 as usize][p.1 as usize].set_occupied(occupied);
    assert(world_view(world) =~= world_with(w0, p, tile_at(w0, p).with_occupied(occupied)));
}

/// Every unit, keyed by the position it stands on.
pub struct EntityMap {
    pub entities: HashMap<u64, BaseUnit>,
}

impl EntityMap {
    /// A map with no units.
    pub fn new() -> (m: EntityMap)
        ensures
            m.entities@ == Map::<u64, BaseUnit>::empty(),
    {
        EntityMap { entities: HashMap::new() }
    }
}

/// The world after a unit moves from `p` to `target`: the tile at `p` is
/// freed, then the tile at `target` is occupied.
pub open spec fn world_after_move(world: Seq<Seq<Tile>>, p: (u32, u32), target: (u32, u32)) -> Seq<
    Seq<Tile>,
> {
    world_with(
        world_with(world, p, tile_at(world, p).with_occupied(0)),
        target,
        tile_at(world, target).with_occupied(1),
    )
}

/// `v` is unit `u` after moving to `target` over `distance` steps: same
/// type, owner, render slot and stats, `distance` less movement, and the
/// new position.
pub open spec fn unit_moved(u: BaseUnit, v: BaseUnit, target: (u32, u32), distance: int) -> bool {
    &&& v.unit_type() == u.unit_type()
    &&& v.spec_render_id() == u.spec_render_id()
    &&& v.entity().spec_render_id() == u.entity().spec_render_id()
    &&& v.entity().spec_player_id() == u.entity().spec_player_id()
    &&& v.entity().health() == u.entity().health()
    &&& v.entity().power() == u.entity().power()
    &&& v.entity().attack_range() == u.entity().attack_range()
    &&& v.entity().max_movement() == u.entity().max_movement()
    &&& v.entity().movement() == u.entity().movement() - distance
    &&& v.entity().offset_pos()@ == crate::world::packed_position(target.0, target.1)
}

/// Whether both coordinates of `p` fit in an `isize`.
pub open spec fn fits_isize(p: (u32, u32)) -> bool {
    p.0 <= isize::MAX && p.1 <= isize::MAX
}

/// A freshly generated world, where no tile is occupied, agrees on
/// occupation with a handler that has no units.
pub proof fn lemma_fresh_world_matches_empty_handler(h: EntityHandler, world: Seq<Vec<Tile>>)
    requires
        h.units() == Map::<u64, BaseUnit>::empty(),
        crate::world::generation::is_fresh_world(world),
    ensures
        h.occupancy_matches(world.map_values(|row: Vec<Tile>| row@)),
{
    let w = world.map_values(|row: Vec<Tile>| row@);
    assert forall|p: (u32, u32)| in_world(w, p) implies #[trigger] tile_at(w, p).occupied() == 0 by {
        assert(world[p.0 as int]@.len() == crate::world::NUM_ROWS);
        assert(world[p.0 as int]@[p.1 as int].biome() <= crate::world::generation::MAX_GENERATED_BIOME);
    }
}

/// The units on the map, the selected unit and the render slots handed out.
pub struct EntityHandler {
    entity_map: EntityMap,
    selected_entity: Option<(u32, u32)>,
    end: u32,
    max_entities: usize,
}

impl EntityHandler {
    /// The units, keyed by `pos_key` of their position.
    pub closed spec fn units(&self) -> Map<u64, BaseUnit> {
        self.entity_map.entities@
    }

    pub open spec fn has_unit(&self, p: (u32, u32)) -> bool {
        self.units().contains_key(pos_key(p))
    }

    pub open spec fn unit(&self, p: (u32, u32)) -> BaseUnit {
        self.units()[pos_key(p)]
    }

    /// The position of the selected unit, if one is selected.
    pub closed spec fn selected(&self) -> Option<(u32, u32)> {
        self.selected_entity
    }

    /// The number of render slots handed out; the next unit gets this one.
    pub closed spec fn render_end(&self) -> u32 {
        self.end
    }

    /// The number of render slots there are.
    pub closed spec fn capacity(&self) -> usize {
        self.max_entities
    }

    /// The handler is consistent: a selected position holds a unit, every
    /// unit has its own render slot among those handed out, no more slots
    /// are handed out than there are, and every unit's stored position is
    /// the packing of the position it is filed under.
    pub open spec fn wf(&self) -> bool {
        &&& self.selected() matches Some(p) ==> self.has_unit(p)
        &&& forall|k: u64| #[trigger]
            self.units().contains_key(k) ==> self.units()[k].spec_render_id() < self.render_end()
                && self.units()[k].spec_render_id() == self.units()[k].entity().spec_render_id()
        &&& forall|k1: u64, k2: u64|
            #![trigger self.units()[k1], self.units()[k2]]
            self.units().contains_key(k1) && self.units().contains_key(k2) && k1 != k2
                ==> self.units()[k1].spec_render_id() != self.units()[k2].spec_render_id()
        &&& self.render_end() <= self.capacity()
        &&& forall|k: u64| #[trigger] self.units().contains_key(k) ==> self.units()[k].entity().wf()
        &&& forall|k: u64| #[trigger]
            self.units().contains_key(k) ==> self.units()[k].entity().offset_pos()@
                == packed_position(key_pos(k).0, key_pos(k).1)
    }

    /// A unit filed under a position whose coordinates are below 65536 stands
    /// at that position.
    pub proof fn lemma_unit_stands_at_its_key(&self, p: (u32, u32))
        requires
            self.wf(),
            self.has_unit(p),
            p.0 < 65536,
            p.1 < 65536,
        ensures
            self.unit(p).pos() == p,
    {
        lemma_pos_key_bijective(p, pos_key(p));
        let t = self.unit(p).entity().offset_pos();
        assert(t@ == packed_position(p.0, p.1));
        vstd::arithmetic::div_mod::lemma_small_mod(p.0 as nat, 65536);
        vstd::arithmetic::div_mod::lemma_fundamental_div_mod_converse(
            t@ as int,
            65536,
            p.0 as int,
            p.1 as int,
        );
    }

    /// The world marks exactly the tiles that units stand on as occupied.
    pub open spec fn occupancy_matches(&self, world: Seq<Seq<Tile>>) -> bool {
        &&& forall|k: u64| #[trigger]
            self.units().contains_key(k) ==> in_world(world, key_pos(k)) && tile_at(
                world,
                key_pos(k),
            ).occupied() == 1
        &&& forall|p: (u32, u32)|
            in_world(world, p) && #[trigger] tile_at(world, p).occupied() == 1 ==> self.has_unit(p)
    }

    proof fn lemma_move_keeps_occupancy(
        &self,
        h0: EntityHandler,
        w0: Seq<Seq<Tile>>,
        w1: Seq<Seq<Tile>>,
        pos: (u32, u32),
        target: (u32, u32),
    )
        requires
            in_world(w0, pos),
            in_world(w0, target),
            h0.has_unit(pos),
            tile_at(w0, target).occupied() == 0,
            self.units() == h0.units().remove(pos_key(pos)).insert(
                pos_key(target),
                self.units()[pos_key(target)],
            ),
            w1 == world_with(
                world_with(w0, pos, tile_at(w0, pos).with_occupied(0)),
                target,
                tile_at(w0, target).with_occupied(1),
            ),
        ensures
            h0.occupancy_matches(w0) ==> self.occupancy_matches(w1),
            h0.units_on_occupied_tiles(w0) ==> self.units_on_occupied_tiles(w1),
    {
        crate::world::tile::lemma_with_occupied(tile_at(w0, pos), 0);
        crate::world::tile::lemma_with_occupied(tile_at(w0, target), 1);
        lemma_pos_key_bijective(pos, 0);
        lemma_pos_key_bijective(target, 0);
        assert forall|q: (u32, u32)| in_world(w1, q) implies #[trigger] tile_at(w1, q) == if q
            == target {
            tile_at(w0, target).with_occupied(1)
        } else if q == pos {
            tile_at(w0, pos).with_occupied(0)
        } else {
            tile_at(w0, q)
        } by {}
        if h0.units_on_occupied_tiles(w0) {
            assert forall|kk: u64| #[trigger] self.units().contains_key(kk) implies in_world(
                w1,
                key_pos(kk),
            ) && tile_at(w1, key_pos(kk)).occupied() == 1 by {
                lemma_pos_key_bijective(pos, kk);
                if kk != pos_key(target) {
                    assert(h0.units().contains_key(kk));
                    assert(key_pos(kk) != pos);
                }
            }
        }
        if h0.occupancy_matches(w0) {
            assert forall|kk: u64| #[trigger] self.units().contains_key(kk) implies in_world(
                w1,
                key_pos(kk),
            ) && tile_at(w1, key_pos(kk)).occupied() == 1 by {
                lemma_pos_key_bijective(pos, kk);
                if kk != pos_key(target) {
                    assert(h0.units().contains_key(kk));
                    assert(key_pos(kk) != pos);
                }
            }
            assert forall|q: (u32, u32)|
                in_world(w1, q) && #[trigger] tile_at(w1, q).occupied() == 1 implies self.has_unit(
                q,
            ) by {
                lemma_pos_key_bijective(q, 0);
                if q != target && q != pos {
                    assert(tile_at(w0, q).occupied() == 1);
                    assert(h0.has_unit(q));
                }
            }
        }
    }

    /// Every unit stands on an occupied tile of the world (one direction of
    /// `occupancy_matches`).
    pub open spec fn units_on_occupied_tiles(&self, world: Seq<Seq<Tile>>) -> bool {
        forall|k: u64| #[trigger]
            self.units().contains_key(k) ==> in_world(world, key_pos(k)) && tile_at(
                world,
                key_pos(k),
            ).occupied() == 1
    }

    /// A handler with no units and `max_entities` render slots.
    pub fn new(max_entities: usize) -> (h: EntityHandler)
        ensures
            h.wf(),
            h.units() == Map::<u64, BaseUnit>::empty(),
            h.selected() is None,
            h.render_end() == 0,
            h.capacity() == max_entities,
    {
        EntityHandler { entity_map: EntityMap::new(), selected_entity: None, end: 0, max_entities }
    }

    /// Selects the unit at `pos`; where no unit stands, the selection stays.
    pub fn select(&mut self, pos: (u32, u32))
        requires
            old(self).wf(),
        ensures
            final(self).wf(),
            final(self).selected() == if old(self).has_unit(pos) {
                Some(pos)
            } else {
                old(self).selected()
            },
            final(self).units() == old(self).units(),
            final(self).render_end() == old(self).render_end(),
            final(self).capacity() == old(self).capacity(),
    {
        let k = key_of(pos);
        if self.entity_map.entities.contains_key(&k) {
            assert(self.has_unit(pos));
            self.selected_entity = Some(pos);
        }
    }

    /// Clears the selection.
    pub fn deselect(&mut self)
        requires
            old(self).wf(),
        ensures
            final(self).wf(),
            final(self).selected() is None,
            final(self).units() == old(self).units(),
            final(self).render_end() == old(self).render_end(),
            final(self).capacity() == old(self).capacity(),
    {
        self.selected_entity = None;
    }

    /// Places a new unit at `pos` (replacing any unit there), marks its tile
    /// occupied and hands it the next render slot, which it returns.
    pub fn create_unit(
        &mut self,
        world: &mut Vec<Vec<Tile>>,
        pos: (u32, u32),
        unit_type: UnitType,
        player_id: u8,
        extra_health: i32,
        extra_movement: i16,
        extra_power: i32,
        extra_range: i16,
    ) -> (render_id: u32)
        requires
            old(self).wf(),
            (old(self).render_end() as int) < old(self).capacity(),
            old(self).render_end() < u32::MAX,
            unit_stats_fit(unit_type, extra_health, extra_power, extra_range, extra_movement),
            position_fits(pos.0, pos.1),
            in_world(world_view(old(world)), pos),
        ensures
            final(self).wf(),
            render_id == old(self).render_end(),
            final(self).render_end() == old(self).render_end() + 1,
            final(self).capacity() == old(self).capacity(),
            final(self).selected() == old(self).selected(),
            final(self).has_unit(pos),
            final(self).units() == old(self).units().insert(pos_key(pos), final(self).unit(pos)),
            final(self).unit(pos).unit_type() == unit_type,
            final(self).unit(pos).spec_render_id() == render_id,
            final(self).unit(pos).entity().spec_render_id() == render_id,
            final(self).unit(pos).entity().spec_player_id() == player_id,
            final(self).unit(pos).entity().health() == base_health(unit_type) + extra_health,
            final(self).unit(pos).entity().power() == (base_power(unit_type) + extra_power) as u32,
            final(self).unit(pos).entity().attack_range() == (base_range(unit_type)
                + extra_range) as u16,
            final(self).unit(pos).entity().movement() == (base_movement(unit_type)
                + extra_movement) as u16,
            final(self).unit(pos).entity().max_movement() == final(self).unit(
                pos,
            ).entity().movement(),
            final(self).unit(pos).entity().offset_pos()@ == crate::world::packed_position(
                pos.0,
                pos.1,
            ),
            world_view(final(world)) == world_with(
                world_view(old(world)),
                pos,
                tile_at(world_view(old(world)), pos).with_occupied(1),
            ),
            old(self).occupancy_matches(world_view(old(world))) ==> final(self).occupancy_matches(
                world_view(final(world)),
            ),
    {
        let ghost w0 = world_view(world);
        let render_id = self.end;
        let mut unit = BaseUnit::new(
            unit_type,
            extra_health,
            extra_power,
            extra_range,
            extra_movement,
            player_id,
            pos,
        );
        unit.set_render_id(render_id);
        let k = key_of(pos);
        let ghost old_units = self.units();
        self.entity_map.entities.insert(k, unit);
        self.end = self.end + 1;
        set_tile_occupied(world, pos, 1);
        proof {
            let w1 = world_view(world);
            crate::world::tile::lemma_with_occupied(tile_at(w0, pos), 1);
            assert forall|q: (u32, u32)| in_world(w1, q) implies #[trigger] tile_at(w1, q) == if q
                == pos {
                tile_at(w0, pos).with_occupied(1)
            } else {
                tile_at(w0, q)
            } by {}
            if old(self).occupancy_matches(w0) {
                assert forall|kk: u64| #[trigger] self.units().contains_key(kk) implies in_world(
                    w1,
                    key_pos(kk),
                ) && tile_at(w1, key_pos(kk)).occupied() == 1 by {
                    lemma_pos_key_bijective(pos, kk);
                    if kk != k {
                        assert(old_units.contains_key(kk));
                    }
                }
                assert forall|q: (u32, u32)|
                    in_world(w1, q) && #[trigger] tile_at(w1, q).occupied() == 1 implies self.has_unit(
                    q,
                ) by {
                    if q != pos {
                        assert(tile_at(w0, q).occupied() == 1);
                        assert(old_units.contains_key(pos_key(q)));
                        lemma_pos_key_bijective(q, 0);
                        lemma_pos_key_bijective(pos, 0);
                    }
                }
            }
        }
        render_id
    }

    /// The given positions that hold a unit, in the given order.
    pub fn get_neighbouring_units(&self, neighbor_tiles: Vec<(u32, u32)>) -> (v: Vec<(u32, u32)>)
        ensures
            v@ == neighbor_tiles@.filter(|p: (u32, u32)| self.has_unit(p)),
    {
        let mut return_vec: Vec<(u32, u32)> = Vec::new();
        let ghost pred = |p: (u32, u32)| self.has_unit(p);
        let n = neighbor_tiles.len();
        for i in 0..n
            invariant
                n == neighbor_tiles@.len(),
                pred == (|p: (u32, u32)| self.has_unit(p)),
                return_vec@ == neighbor_tiles@.take(i as int).filter(pred),
        {
            let pos = neighbor_tiles[i];
            proof {
                reveal_with_fuel(Seq::<_>::filter, 1);
                assert(neighbor_tiles@.take(i + 1).drop_last() =~= neighbor_tiles@.take(i as int));
            }
            let present = self.entity_map.entities.contains_key(&key_of(pos));
            assert(present == pred(pos));
            assert(neighbor_tiles@.take(i + 1).last() == pos);
            if present {
                return_vec.push(pos);
            }
        }
        assert(neighbor_tiles@.take(n as int) =~= neighbor_tiles@);
        return_vec
    }

    /// The given positions that hold a unit of the same player as the unit at
    /// `target_tile`, in the given order.
    pub fn get_friendly_neighbouring_units(
        &self,
        target_tile: (u32, u32),
        neighbor_tiles: Vec<(u32, u32)>,
    ) -> (v: Vec<(u32, u32)>)
        requires
            self.has_unit(target_tile),
        ensures
            v@ == neighbor_tiles@.filter(
                |p: (u32, u32)|
                    self.has_unit(p) && self.unit(p).entity().spec_player_id() == self.unit(
                        target_tile,
                    ).entity().spec_player_id(),
            ),
    {
        let mut return_vec: Vec<(u32, u32)> = Vec::new();
        let main_unit = self.entity_map.entities.get(&key_of(target_tile)).unwrap();
        let ghost pred = |p: (u32, u32)|
            self.has_unit(p) && self.unit(p).entity().spec_player_id() == self.unit(
                target_tile,
            ).entity().spec_player_id();
        let n = neighbor_tiles.len();
        for i in 0..n
            invariant
                n == neighbor_tiles@.len(),
                *main_unit == self.unit(target_tile),
                pred == (|p: (u32, u32)|
                    self.has_unit(p) && self.unit(p).entity().spec_player_id() == self.unit(
                        target_tile,
                    ).entity().spec_player_id()),
                return_vec@ == neighbor_tiles@.take(i as int).filter(pred),
        {
            let pos = neighbor_tiles[i];
            proof {
                reveal_with_fuel(Seq::<_>::filter, 1);
                assert(neighbor_tiles@.take(i + 1).drop_last() =~= neighbor_tiles@.take(i as int));
            }
            assert(neighbor_tiles@.take(i + 1).last() == pos);
            let unit = self.entity_map.entities.get(&key_of(pos));
            if unit.is_some() {
                let unit = unit.unwrap();
                if unit.get_player() == main_unit.get_player() {
                    assert(pred(pos));
                    return_vec.push(pos);
                } else {
                    assert(!pred(pos));
                }
            } else {
                assert(!pred(pos));
            }
        }
        assert(neighbor_tiles@.take(n as int) =~= neighbor_tiles@);
        return_vec
    }

    /// Whether the selected unit can move to `target_pos`: it is within the
    /// unit's remaining movement and the target tile is not occupied.
    pub open spec fn can_move_to(&self, world: Seq<Seq<Tile>>, target_pos: (u32, u32)) -> bool {
        &&& self.selected() matches Some(p)
        &&& tile_distance(p, target_pos) <= self.unit(p).entity().movement()
        &&& tile_at(world, target_pos).occupied() == 0
    }

    /// Moves the selected unit to `target_pos` if it can get there: the move
    /// spends the distance from its movement, frees its old tile, occupies the
    /// target tile and clears the selection. Returns whether it moved; when it
    /// does not, nothing changes.
    pub fn move_unit(&mut self, target_pos: (u32, u32), world: &mut Vec<Vec<Tile>>) -> (moved: bool)
        requires
            old(self).wf(),
            in_world(world_view(old(world)), target_pos),
            fits_isize(target_pos),
            position_fits(target_pos.0, target_pos.1),
            old(self).selected() matches Some(p) ==> in_world(world_view(old(world)), p)
                && fits_isize(p),
        ensures
            final(self).wf(),
            moved == old(self).can_move_to(world_view(old(world)), target_pos),
            final(self).render_end() == old(self).render_end(),
            final(self).capacity() == old(self).capacity(),
            !moved ==> {
                &&& final(self).units() == old(self).units()
                &&& final(self).selected() == old(self).selected()
                &&& world_view(final(world)) == world_view(old(world))
            },
            moved ==> {
                let p = old(self).selected()->Some_0;
                &&& final(self).selected() is None
                &&& final(self).has_unit(target_pos)
                &&& final(self).units() == old(self).units().remove(pos_key(p)).insert(
                    pos_key(target_pos),
                    final(self).unit(target_pos),
                )
                &&& unit_moved(
                    old(self).unit(p),
                    final(self).unit(target_pos),
                    target_pos,
                    tile_distance(p, target_pos),
                )
                &&& world_view(final(world)) == world_after_move(world_view(old(world)), p, target_pos)
            },
            old(self).units_on_occupied_tiles(world_view(old(world)))
                ==> final(self).units_on_occupied_tiles(world_view(final(world))),
            old(self).occupancy_matches(world_view(old(world))) ==> final(self).occupancy_matches(
                world_view(final(world)),
            ),
    {
        let target_pos_hex = qoffset_to_cube(EVEN, target_pos.0 as isize, target_pos.1 as isize);
        match self.selected_entity {
            Some(pos) => {
                let current_hex = qoffset_to_cube(EVEN, pos.0 as isize, pos.1 as isize);
                let k = key_of(pos);
                let move_distance = axial_distance(current_hex, target_pos_hex);
                let movement = self.entity_map.entities.get(&k).unwrap().get_movement();
                if move_distance > movement as i128 {
                    return false;
                }
                if world[target_pos.0 as usize][target_pos.1 as usize].get_occupied() == 0 {
                    let ghost w0 = world_view(world);
                    let ghost h0 = *self;
                    // Remove the unit from the current tile
                    set_tile_occupied(world, pos, 0);
                    // Make new tile occupied
                    set_tile_occupied(world, target_pos, 1);
                    proof {
                        crate::world::tile::lemma_with_occupied_twice(tile_at(w0, pos), 0, 1);
                        assert(world_view(world) =~= world_with(
                            world_with(w0, pos, tile_at(w0, pos).with_occupied(0)),
                            target_pos,
                            tile_at(w0, target_pos).with_occupied(1),
                        ));
                    }
                    // Update unit
                    let mut unit = self.entity_map.entities.remove(&k).unwrap();
                    unit.movement(target_pos, move_distance as u16);
                    let tk = key_of(target_pos);
                    self.entity_map.entities.insert(tk, unit);
                    proof {
                        self.lemma_move_keeps_occupancy(h0, w0, world_view(world), pos, target_pos);
                    }
                } else {
                    return false;
                }
                let ghost before_deselect = *self;
                self.selected_entity = None;
                assert(self.units() == before_deselect.units());
                return true;
            },
            _ => return false,
        }
    }

    /// The map of all units.
    pub fn get_entity_map(&self) -> (m: &EntityMap)
        ensures
            m.entities@ == self.units(),
    {
        &self.entity_map
    }

    /// The unit standing at `pos`, if any.
    pub fn get_unit(&self, pos: (u32, u32)) -> (u: Option<&BaseUnit>)
        ensures
            u is Some <==> self.has_unit(pos),
            u matches Some(unit) ==> *unit == self.unit(pos),
    {
        self.entity_map.entities.get(&key_of(pos))
    }

    /// The position of the selected unit, if one is selected.
    pub fn get_selected_pos(&self) -> (p: Option<(u32, u32)>)
        ensures
            p == self.selected(),
    {
        self.selected_entity
    }

    /// The selected unit, if one is selected.
    pub fn get_selected_unit(&self) -> (u: Option<&BaseUnit>)
        ensures
            self.selected() is None ==> u is None,
            self.selected() matches Some(p) ==> {
                &&& (u is Some <==> self.has_unit(p))
                &&& u matches Some(unit) ==> *unit == self.unit(p)
            },
    {
        if self.selected_entity.is_some() {
            let k = key_of(self.selected_entity.unwrap());
            self.entity_map.entities.get(&k)
        } else {
            None
        }
    }
}

} // verus!
