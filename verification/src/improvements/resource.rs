use vstd::prelude::*;

verus! {

/// A kind of resource, such as food or iron.
pub struct Resource<'a> {
    pub id: u32,
    pub name: &'a str,
}

impl<'a> Resource<'a> {
    pub fn new(id: u32, name: &'a str) -> (r: Resource<'a>)
        ensures
            r.id == id,
            r.name == name,
    {
        Resource { id: id, name: name }
    }
}

/// The numbers a resource counter keeps.
pub struct CounterView {
    pub player_id: u32,
    pub quantity: int,
    pub capacity: int,
    pub production_rate: int,
    pub consumption_rate: int,
}

impl CounterView {
    /// The counter after one turn: production added, consumption taken away,
    /// and the result capped at the capacity.
    pub open spec fn after_turn(self) -> CounterView {
        let raw = self.quantity + self.production_rate - self.consumption_rate;
        CounterView { quantity: if raw < self.capacity { raw } else { self.capacity }, ..self }
    }

    pub open spec fn with_quantity(self, quantity: int) -> CounterView {
        CounterView { quantity, ..self }
    }

    pub open spec fn with_capacity(self, capacity: int) -> CounterView {
        CounterView { capacity, ..self }
    }

    pub open spec fn with_production_rate(self, production_rate: int) -> CounterView {
        CounterView { production_rate, ..self }
    }

    pub open spec fn with_consumption_rate(self, consumption_rate: int) -> CounterView {
        CounterView { consumption_rate, ..self }
    }
}

/// How much of one resource a player holds, how much fits, and how much is
/// produced and consumed each turn.
pub struct ResourceCounter<'a> {
    pub resource_type: Resource<'a>,
    player_id: u32,
    quantity: i32,
    capacity: i32,
    production_rate: i32,
    consumption_rate: i32,
}

impl<'a> View for ResourceCounter<'a> {
    type V = CounterView;

    closed spec fn view(&self) -> CounterView {
        CounterView {
            player_id: self.player_id,
            quantity: self.quantity as int,
            capacity: self.capacity as int,
            production_rate: self.production_rate as int,
            consumption_rate: self.consumption_rate as int,
        }
    }
}

impl<'a> ResourceCounter<'a> {
    /// The resource this counter counts.
    pub closed spec fn resource(&self) -> Resource<'a> {
        self.resource_type
    }

    /// A counter with the given quantity and capacity and no production or
    /// consumption.
    pub fn new(resource: Resource<'a>, player: u32, inital_quantity: i32, initial_capacity: i32) -> (c: ResourceCounter<'a>)
        ensures
            c.resource() == resource,
            c@ == (CounterView {
                player_id: player,
                quantity: inital_quantity as int,
                capacity: initial_capacity as int,
                production_rate: 0,
                consumption_rate: 0,
            }),
    {
        ResourceCounter {
            resource_type: resource,
            player_id: player,
            quantity: inital_quantity,
            capacity: initial_capacity,
            production_rate: 0,
            consumption_rate: 0,
        }
    }

    /// Every number a counter holds fits in an `i32`.
    pub proof fn lemma_in_range(&self)
        ensures
            i32::MIN <= self@.quantity <= i32::MAX,
            i32::MIN <= self@.capacity <= i32::MAX,
            i32::MIN <= self@.production_rate <= i32::MAX,
            i32::MIN <= self@.consumption_rate <= i32::MAX,
    {
    }

    /// One turn: adds production, takes consumption, caps at capacity.
    pub fn update(&mut self)
        requires
            i32::MIN <= old(self)@.quantity + old(self)@.production_rate <= i32::MAX,
            i32::MIN <= old(self)@.quantity + old(self)@.production_rate
                - old(self)@.consumption_rate <= i32::MAX,
        ensures
            final(self)@ == old(self)@.after_turn(),
            final(self)@.quantity <= final(self)@.capacity,
            final(self).resource() == old(self).resource(),
    {
        let raw = self.quantity + self.production_rate - self.consumption_rate;
        self.quantity = if raw < self.capacity { raw } else { self.capacity };
    }

    pub fn update_quantity(&mut self, update_val: i32)
        requires
            i32::MIN <= old(self)@.quantity + update_val <= i32::MAX,
        ensures
            final(self)@ == old(self)@.with_quantity(old(self)@.quantity + update_val),
            final(self).resource() == old(self).resource(),
    {
        self.quantity += update_val;
    }

    pub fn change_quantity(&mut self, update_val: i32)
        ensures
            final(self)@ == old(self)@.with_quantity(update_val as int),
            final(self).resource() == old(self).resource(),
    {
        self.quantity = update_val;
    }

    pub fn update_capacity(&mut self, update_val: i32)
        requires
            i32::MIN <= old(self)@.capacity + update_val <= i32::MAX,
        ensures
            final(self)@ == old(self)@.with_capacity(old(self)@.capacity + update_val),
            final(self).resource() == old(self).resource(),
    {
        self.capacity += update_val;
    }

    pub fn change_capacity(&mut self, update_val: i32)
        ensures
            final(self)@ == old(self)@.with_capacity(update_val as int),
            final(self).resource() == old(self).resource(),
    {
        self.capacity = update_val;
    }

    pub fn update_production_rate(&mut self, update_val: i32)
        requires
            i32::MIN <= old(self)@.production_rate + update_val <= i32::MAX,
        ensures
            final(self)@ == old(self)@.with_production_rate(
                old(self)@.production_rate + update_val,
            ),
            final(self).resource() == old(self).resource(),
    {
        self.production_rate += update_val;
    }

    pub fn change_production_rate(&mut self, update_val: i32)
        ensures
            final(self)@ == old(self)@.with_production_rate(update_val as int),
            final(self).resource() == old(self).resource(),
    {
        self.production_rate = update_val;
    }

    pub fn update_consumption_rate(&mut self, update_val: i32)
        requires
            i32::MIN <= old(self)@.consumption_rate + update_val <= i32::MAX,
        ensures
            final(self)@ == old(self)@.with_consumption_rate(
                old(self)@.consumption_rate + update_val,
            ),
            final(self).resource() == old(self).resource(),
    {
        self.consumption_rate += update_val;
    }

    pub fn change_consumption_rate(&mut self, update_val: i32)
        ensures
            final(self)@ == old(self)@.with_consumption_rate(update_val as int),
            final(self).resource() == old(self).resource(),
    {
        self.consumption_rate = update_val;
    }

    pub fn get_quantity(&self) -> (q: i32)
        ensures
            q == self@.quantity,
    {
        self.quantity
    }

    pub fn get_capacity(&self) -> (c: i32)
        ensures
            c == self@.capacity,
    {
        self.capacity
    }

    pub fn get_production_rate(&self) -> (p: i32)
        ensures
            p == self@.production_rate,
    {
        self.production_rate
    }

    pub fn get_consumption_rate(&self) -> (c: i32)
        ensures
            c == self@.consumption_rate,
    {
        self.consumption_rate
    }

    pub fn get_player_id(&self) -> (p: u32)
        ensures
            p == self@.player_id,
    {
        self.player_id
    }
}

/// After a turn the quantity never exceeds the capacity, and it only drops
/// below what production and consumption give when the capacity cuts it.
/// A turn changes nothing but the quantity.
pub proof fn lemma_turn_respects_capacity(c: CounterView)
    ensures
        c.after_turn().quantity <= c.capacity,
        c.after_turn().quantity <= c.quantity + c.production_rate - c.consumption_rate,
        c.after_turn().quantity == c.quantity + c.production_rate - c.consumption_rate
            || c.after_turn().quantity == c.capacity,
        c.after_turn().capacity == c.capacity,
        c.after_turn().production_rate == c.production_rate,
        c.after_turn().consumption_rate == c.consumption_rate,
        c.after_turn().player_id == c.player_id,
{
}

/// Adding an amount and then taking it away again leaves a counter as it was,
/// for each of the four numbers.
pub proof fn lemma_update_then_undo(c: CounterView, d: int)
    ensures
        c.with_quantity(c.quantity + d).with_quantity(c.quantity + d - d) == c,
        c.with_capacity(c.capacity + d).with_capacity(c.capacity + d - d) == c,
        c.with_production_rate(c.production_rate + d).with_production_rate(
            c.production_rate + d - d,
        ) == c,
        c.with_consumption_rate(c.consumption_rate + d).with_consumption_rate(
            c.consumption_rate + d - d,
        ) == c,
{
}

/// A turn leaves a counter unchanged when its production equals its
/// consumption and its quantity is within its capacity.
pub proof fn lemma_idle_turn_keeps_counter(c: CounterView)
    requires
        c.quantity <= c.capacity,
        c.production_rate == c.consumption_rate,
    ensures
        c.after_turn() == c,
{
}

} // verus!
