use vstd::prelude::*;

verus! {

/// The kinds of unit.
#[derive(PartialEq, Eq, Structural, Clone, Copy, Debug)]
pub enum UnitType {
    worker,
    warrior,
    archer,
}

pub open spec fn unit_health(t: UnitType) -> i32 {
    match t {
        UnitType::worker => 5,
        UnitType::warrior => 15,
        UnitType::archer => 8,
    }
}

pub open spec fn unit_power(t: UnitType) -> i32 {
    match t {
        UnitType::worker => 1,
        UnitType::warrior => 5,
        UnitType::archer => 3,
    }
}

pub open spec fn unit_range(t: UnitType) -> i16 {
    match t {
        UnitType::worker => 1,
        UnitType::warrior => 1,
        UnitType::archer => 3,
    }
}

pub open spec fn unit_movement(t: UnitType) -> i16 {
    match t {
        UnitType::worker => 2,
        UnitType::warrior => 3,
        UnitType::archer => 2,
    }
}

/// A unit with its stats kept directly, placed by cube position.
pub struct Unit {
    unit_type: UnitType,
    health: i32,
    power: u32,
    attack_range: u16,
    movement: u16,
    max_movement: u16,
    player_id: u32,
    pub render_id: u32,
    cube_posistion: (u32, u32),
}

/// The stats a unit holds, as plain numbers.
pub struct UnitView {
    pub unit_type: UnitType,
    pub health: i32,
    pub power: u32,
    pub attack_range: u16,
    pub movement: u16,
    pub max_movement: u16,
    pub player_id: u32,
    pub cube_posistion: (u32, u32),
}

impl View for Unit {
    type V = UnitView;

    closed spec fn view(&self) -> UnitView {
        UnitView {
            unit_type: self.unit_type,
            health: self.health,
            power: self.power,
            attack_range: self.attack_range,
            movement: self.movement,
            max_movement: self.max_movement,
            player_id: self.player_id,
            cube_posistion: self.cube_posistion,
        }
    }
}

impl Unit {
    pub closed spec fn spec_render_id(&self) -> u32 {
        self.render_id
    }

    /// A unit of the given type with full movement: each stat is the type's
    /// base value plus the extra, the power, range and movement cast to their
    /// unsigned widths.
    pub fn new(
        unit_type: UnitType,
        extra_health: i32,
        extra_power: i32,
        extra_range: i16,
        extra_movement: i16,
        player_id: u32,
        pos: (u32, u32),
    ) -> (u: Unit)
        requires
            i32::MIN <= unit_health(unit_type) + extra_health <= i32::MAX,
            i32::MIN <= unit_power(unit_type) + extra_power <= i32::MAX,
            i16::MIN <= unit_range(unit_type) + extra_range <= i16::MAX,
            i16::MIN <= unit_movement(unit_type) + extra_movement <= i16::MAX,
        ensures
            u@ == (UnitView {
                unit_type: unit_type,
                health: (unit_health(unit_type) + extra_health) as i32,
                power: (unit_power(unit_type) + extra_power) as u32,
                attack_range: (unit_range(unit_type) + extra_range) as u16,
                movement: (unit_movement(unit_type) + extra_movement) as u16,
                max_movement: (unit_movement(unit_type) + extra_movement) as u16,
                player_id: player_id,
                cube_posistion: pos,
            }),
            u.spec_render_id() == 0,
    {
        let health = Self::type_to_health(&unit_type) + extra_health;
        let power = Self::type_to_power(&unit_type) + extra_power;
        let range = Self::type_to_range(&unit_type) + extra_range;
        let movement = Self::type_to_movement(&unit_type) + extra_movement;

        Unit {
            unit_type: unit_type,
            health: health,
            power: power as u32,
            attack_range: range as u16,
            movement: movement as u16,
            max_movement: movement as u16,
            player_id: player_id,
            render_id: 0,
            cube_posistion: pos,
        }
    }

    pub fn type_to_health(unit_type: &UnitType) -> (h: i32)
        ensures
            h == unit_health(*unit_type),
    {
        match unit_type {
            UnitType::worker => 5,
            UnitType::warrior => 15,
            UnitType::archer => 8,
        }
    }

    pub fn type_to_power(unit_type: &UnitType) -> (p: i32)
        ensures
            p == unit_power(*unit_type),
    {
        match unit_type {
            UnitType::worker => 1,
            UnitType::warrior => 5,
            UnitType::archer => 3,
        }
    }

    pub fn type_to_range(unit_type: &UnitType) -> (r: i16)
        ensures
            r == unit_range(*unit_type),
    {
        match unit_type {
            UnitType::worker => 1,
            UnitType::warrior => 1,
            UnitType::archer => 3,
        }
    }

    pub fn type_to_movement(unit_type: &UnitType) -> (m: i16)
        ensures
            m == unit_movement(*unit_type),
    {
        match unit_type {
            UnitType::worker => 2,
            UnitType::warrior => 3,
            UnitType::archer => 2,
        }
    }
}

} // verus!
