use vstd::prelude::*;

use crate::world::OffsetTile;

verus! {

/// What every entity on the map has: owner, render slot, combat numbers,
/// movement left this turn and position.
#[derive(Copy, Clone, Debug)]
pub struct BaseEntity {
    pub player_id: u8,
    pub render_id: u32,
    health: i32,
    power: u32,
    attack_range: u16,
    movement: u16,
    max_movement: u16,
    offset_pos: OffsetTile,
}

impl BaseEntity {
    pub closed spec fn spec_player_id(&self) -> u8 {
        self.player_id
    }

    pub closed spec fn spec_render_id(&self) -> u32 {
        self.render_id
    }

    pub closed spec fn health(&self) -> i32 {
        self.health
    }

    pub closed spec fn power(&self) -> u32 {
        self.power
    }

    pub closed spec fn attack_range(&self) -> u16 {
        self.attack_range
    }

    /// Movement points left this turn.
    pub closed spec fn movement(&self) -> u16 {
        self.movement
    }

    /// Movement points at the start of a turn.
    pub closed spec fn max_movement(&self) -> u16 {
        self.max_movement
    }

    pub closed spec fn offset_pos(&self) -> OffsetTile {
        self.offset_pos
    }

    /// An entity never has more movement left than a full turn gives it.
    pub open spec fn wf(&self) -> bool {
        self.movement() <= self.max_movement()
    }

    /// A new entity with full movement.
    pub fn new(
        player_id: u8,
        render_id: u32,
        health: i32,
        power: u32,
        attack_range: u16,
        movement: u16,
        offset_pos: OffsetTile,
    ) -> (e: BaseEntity)
        ensures
            e.spec_player_id() == player_id,
            e.spec_render_id() == render_id,
            e.health() == health,
            e.power() == power,
            e.attack_range() == attack_range,
            e.movement() == movement,
            e.max_movement() == movement,
            e.offset_pos() == offset_pos,
            e.wf(),
    {
        BaseEntity {
            player_id: player_id,
            render_id: render_id,
            health: health,
            power: power,
            attack_range: attack_range,
            movement: movement,
            max_movement: movement,
            offset_pos,
        }
    }

    pub fn get_offset_pos(&self) -> (p: OffsetTile)
        ensures
            p == self.offset_pos(),
    {
        self.offset_pos
    }

    pub fn get_player_id(&self) -> (p: u8)
        ensures
            p == self.spec_player_id(),
    {
        self.player_id
    }

    /// Gives the entity render slot `render_id`; nothing else changes.
    pub(crate) fn set_render_id(&mut self, render_id: u32)
        ensures
            final(self).spec_render_id() == render_id,
            final(self).spec_player_id() == old(self).spec_player_id(),
            final(self).health() == old(self).health(),
            final(self).power() == old(self).power(),
            final(self).attack_range() == old(self).attack_range(),
            final(self).movement() == old(self).movement(),
            final(self).max_movement() == old(self).max_movement(),
            final(self).offset_pos() == old(self).offset_pos(),
    {
        self.render_id = render_id;
    }

    pub fn get_movement(&self) -> (m: u16)
        ensures
            m == self.movement(),
    {
        self.movement
    }

    /// Spends `distance` movement points; nothing else changes.
    pub fn decrement_movement(&mut self, distance: u16)
        requires
            distance <= old(self).movement(),
        ensures
            final(self).movement() == old(self).movement() - distance,
            final(self).spec_player_id() == old(self).spec_player_id(),
            final(self).spec_render_id() == old(self).spec_render_id(),
            final(self).health() == old(self).health(),
            final(self).power() == old(self).power(),
            final(self).attack_range() == old(self).attack_range(),
            final(self).max_movement() == old(self).max_movement(),
            final(self).offset_pos() == old(self).offset_pos(),
            old(self).wf() ==> final(self).wf(),
    {
        self.movement -= distance;
    }

    /// Moves the entity to `target_pos`; nothing else changes.
    pub fn set_pos(&mut self, target_pos: OffsetTile)
        ensures
            final(self).offset_pos() == target_pos,
            final(self).spec_player_id() == old(self).spec_player_id(),
            final(self).spec_render_id() == old(self).spec_render_id(),
            final(self).health() == old(self).health(),
            final(self).power() == old(self).power(),
            final(self).attack_range() == old(self).attack_range(),
            final(self).movement() == old(self).movement(),
            final(self).max_movement() == old(self).max_movement(),
    {
        self.offset_pos = target_pos;
    }
}

} // verus!
