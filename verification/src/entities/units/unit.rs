use vstd::prelude::*;

use crate::entities::entity_base::BaseEntity;
use crate::world::{packed_position, position_fits, OffsetTile};

verus! {

/// The kinds of unit.
#[derive(PartialEq, Eq, Structural, Clone, Copy, Debug)]
pub enum UnitType {
    worker,
    warrior,
    archer,
}

pub open spec fn base_health(t: UnitType) -> i32 {
    match t {
        UnitType::worker => 5,
        UnitType::warrior => 15,
        UnitType::archer => 8,
    }
}

pub open spec fn base_power(t: UnitType) -> i32 {
    match t {
        UnitType::worker => 1,
        UnitType::warrior => 5,
        UnitType::archer => 3,
    }
}

pub open spec fn base_range(t: UnitType) -> i16 {
    match t {
        UnitType::worker => 1,
        UnitType::warrior => 1,
        UnitType::archer => 3,
    }
}

pub open spec fn base_movement(t: UnitType) -> i16 {
    match t {
        UnitType::worker => 2,
        UnitType::warrior => 3,
        UnitType::archer => 2,
    }
}

/// Whether a unit of type `t` with the given extras can be built without
/// the sums of base values and extras overflowing.
pub open spec fn unit_stats_fit(
    t: UnitType,
    extra_health: i32,
    extra_power: i32,
    extra_range: i16,
    extra_movement: i16,
) -> bool {
    &&& i32::MIN <= base_health(t) + extra_health <= i32::MAX
    &&& i32::MIN <= base_power(t) + extra_power <= i32::MAX
    &&& i16::MIN <= base_range(t) + extra_range <= i16::MAX
    &&& i16::MIN <= base_movement(t) + extra_movement <= i16::MAX
}

/// A unit on the map: its type, render slot and entity data.
pub struct BaseUnit {
    unit_type: UnitType,
    pub render_id: u32,
    pub(crate) entity: BaseEntity,
}

impl BaseUnit {
    pub closed spec fn unit_type(&self) -> UnitType {
        self.unit_type
    }

    pub closed spec fn spec_render_id(&self) -> u32 {
        self.render_id
    }

    pub closed spec fn entity(&self) -> BaseEntity {
        self.entity
    }

    /// The position the unit stands on, as `getX`/`getY` read it.
    pub open spec fn pos(&self) -> (u32, u32) {
        (self.entity().offset_pos().x(), self.entity().offset_pos().y())
    }

    /// A unit of the given type: each stat is the type's base value plus the
    /// extra, the power, range and movement cast to their unsigned widths.
    pub fn new(
        unit_type: UnitType,
        extra_health: i32,
        extra_power: i32,
        extra_range: i16,
        extra_movement: i16,
        player_id: u8,
        pos: (u32, u32),
    ) -> (u: BaseUnit)
        requires
            unit_stats_fit(unit_type, extra_health, extra_power, extra_range, extra_movement),
            position_fits(pos.0, pos.1),
        ensures
            u.unit_type() == unit_type,
            u.spec_render_id() == 0,
            u.entity().spec_render_id() == 0,
            u.entity().spec_player_id() == player_id,
            u.entity().health() == base_health(unit_type) + extra_health,
            u.entity().power() == (base_power(unit_type) + extra_power) as u32,
            u.entity().attack_range() == (base_range(unit_type) + extra_range) as u16,
            u.entity().movement() == (base_movement(unit_type) + extra_movement) as u16,
            u.entity().max_movement() == u.entity().movement(),
            u.entity().offset_pos()@ == packed_position(pos.0, pos.1),
            pos.0 < 65536 && pos.1 < 65536 ==> u.pos() == pos,
            u.entity().wf(),
    {
        let health = Self::type_to_health(&unit_type) + extra_health;
        let power = Self::type_to_power(&unit_type) + extra_power;
        let range = Self::type_to_range(&unit_type) + extra_range;
        let movement = Self::type_to_movement(&unit_type) + extra_movement;

        BaseUnit {
            unit_type: unit_type,
            render_id: 0,
            entity: BaseEntity::new(
                player_id,
                0,
                health,
                power as u32,
                range as u16,
                movement as u16,
                OffsetTile::new(pos.0, pos.1),
            ),
        }
    }

    pub fn type_to_health(unit_type: &UnitType) -> (h: i32)
        ensures
            h == base_health(*unit_type),
    {
        match unit_type {
            UnitType::worker => 5,
            UnitType::warrior => 15,
            UnitType::archer => 8,
        }
    }

    pub fn type_to_power(unit_type: &UnitType) -> (p: i32)
        ensures
            p == base_power(*unit_type),
    {
        match unit_type {
            UnitType::worker => 1,
            UnitType::warrior => 5,
            UnitType::archer => 3,
        }
    }

    pub fn type_to_range(unit_type: &UnitType) -> (r: i16)
        ensures
            r == base_range(*unit_type),
    {
        match unit_type {
            UnitType::worker => 1,
            UnitType::warrior => 1,
            UnitType::archer => 3,
        }
    }

    pub fn type_to_movement(unit_type: &UnitType) -> (m: i16)
        ensures
            m == base_movement(*unit_type),
    {
        match unit_type {
            UnitType::worker => 2,
            UnitType::warrior => 3,
            UnitType::archer => 2,
        }
    }

    pub fn get_unit_type(&self) -> (t: UnitType)
        ensures
            t == self.unit_type(),
    {
        self.unit_type
    }

    /// The position the unit stands on.
    pub fn get_pos(&self) -> (p: (u32, u32))
        ensures
            p == self.pos(),
    {
        let op = self.entity.get_offset_pos();
        (op.getX(), op.getY())
    }

    /// Movement points left this turn.
    pub fn get_movement(&self) -> (m: u16)
        ensures
            m == self.entity().movement(),
    {
        self.entity.get_movement()
    }

    /// The owning player.
    pub fn get_player(&self) -> (p: u8)
        ensures
            p == self.entity().spec_player_id(),
    {
        self.entity.get_player_id()
    }

    /// The slot of the unit in the render buffer.
    pub fn get_render_id(&self) -> (r: usize)
        ensures
            r == self.spec_render_id(),
    {
        self.render_id as usize
    }

    /// A copy of the unit's entity data.
    pub fn get_entity(&self) -> (e: BaseEntity)
        ensures
            e == self.entity(),
    {
        self.entity
    }

    /// Moves the unit to `target_pos`, spending `distance` movement points.
    pub fn movement(&mut self, target_pos: (u32, u32), distance: u16)
        requires
            distance <= old(self).entity().movement(),
            position_fits(target_pos.0, target_pos.1),
        ensures
            final(self).unit_type() == old(self).unit_type(),
            final(self).spec_render_id() == old(self).spec_render_id(),
            final(self).entity().offset_pos()@ == packed_position(target_pos.0, target_pos.1),
            target_pos.0 < 65536 && target_pos.1 < 65536 ==> final(self).pos() == target_pos,
            final(self).entity().movement() == old(self).entity().movement() - distance,
            final(self).entity().max_movement() == old(self).entity().max_movement(),
            final(self).entity().spec_player_id() == old(self).entity().spec_player_id(),
            final(self).entity().spec_render_id() == old(self).entity().spec_render_id(),
            final(self).entity().health() == old(self).entity().health(),
            final(self).entity().power() == old(self).entity().power(),
            final(self).entity().attack_range() == old(self).entity().attack_range(),
            old(self).entity().wf() ==> final(self).entity().wf(),
    {
        self.entity.set_pos(OffsetTile::new(target_pos.0, target_pos.1));
        self.entity.decrement_movement(distance);
    }

    /// Gives the unit render slot `render_id`.
    pub(crate) fn set_render_id(&mut self, render_id: u32)
        ensures
            final(self).spec_render_id() == render_id,
            final(self).entity().spec_render_id() == render_id,
            final(self).unit_type() == old(self).unit_type(),
            final(self).pos() == old(self).pos(),
            final(self).entity().offset_pos() == old(self).entity().offset_pos(),
            final(self).entity().movement() == old(self).entity().movement(),
            final(self).entity().max_movement() == old(self).entity().max_movement(),
            final(self).entity().spec_player_id() == old(self).entity().spec_player_id(),
            final(self).entity().health() == old(self).entity().health(),
            final(self).entity().power() == old(self).entity().power(),
            final(self).entity().attack_range() == old(self).entity().attack_range(),
    {
        self.render_id = render_id;
        self.entity.set_render_id(render_id);
    }
}

} // verus!
