use vstd::prelude::*;

verus! {

/// The biome stored in bits 5..8 of a tile byte.
pub open spec fn byte_biome(b: u8) -> u8 {
    b / 32
}

/// The improvement flag stored in bit 4 of a tile byte.
pub open spec fn byte_improved(b: u8) -> u8 {
    (b / 16) % 2
}

/// The resource stored in bits 1..4 of a tile byte.
pub open spec fn byte_resource(b: u8) -> u8 {
    (b / 2) % 8
}

/// The occupation flag stored in bit 0 of a tile byte.
pub open spec fn byte_occupied(b: u8) -> u8 {
    b % 2
}

/// The byte that a tile made from `biome` and `resource` holds.
pub open spec fn new_tile_byte(biome: u16, resource: u16) -> u8 {
    ((biome << 5u16) | (resource << 1u16)) as u8
}

/// One map tile packed into a single byte:
/// 3 bits biome, 1 bit improved, 3 bits resource, 1 bit occupied.
#[derive(Clone, Copy, Debug)]
pub struct Tile {
    information: u8,
}

impl View for Tile {
    type V = u8;

    closed spec fn view(&self) -> u8 {
        self.information
    }
}

impl Tile {
    pub open spec fn biome(&self) -> u8 {
        byte_biome(self@)
    }

    pub open spec fn improved(&self) -> u8 {
        byte_improved(self@)
    }

    pub open spec fn resource(&self) -> u8 {
        byte_resource(self@)
    }

    pub open spec fn occupied(&self) -> u8 {
        byte_occupied(self@)
    }

    /// This tile with its occupation flag set to the lowest bit of `occupied`.
    pub closed spec fn with_occupied(self, occupied: u8) -> Tile {
        Tile { information: (self.information & 254) | (occupied & 1) }
    }

    /// This tile with its improvement flag set to the lowest bit of `improved`.
    pub closed spec fn with_improved(self, improved: u8) -> Tile {
        Tile { information: (self.information & 239) | ((improved & 1) << 4) }
    }

    /// A tile of the given biome and resource, neither improved nor occupied.
    pub fn new(biome: u16, resource: u16) -> (tile: Tile)
        ensures
            tile@ == new_tile_byte(biome, resource),
            biome < 8 && resource < 8 ==> {
                &&& tile.biome() == biome
                &&& tile.resource() == resource
                &&& tile.improved() == 0
                &&& tile.occupied() == 0
            },
    {
        let tile = biome << 5 | resource << 1;
        let t = Tile { information: tile as u8 };
        proof {
            let b = biome;
            let r = resource;
            let x: u8 = t.information;
            assert(x == ((b << 5u16) | (r << 1u16)) as u8);
            assert(b < 8 && r < 8 && x == ((b << 5u16) | (r << 1u16)) as u8 ==> {
                &&& x / 32 == b
                &&& (x / 2) % 8 == r
                &&& (x / 16) % 2 == 0
                &&& x % 2 == 0
            }) by (bit_vector);
        }
        t
    }

    pub fn get_biome(&self) -> (b: u8)
        ensures
            b == self.biome(),
    {
        let x = self.information;
        assert((x >> 5u8) & 7u8 == x / 32) by (bit_vector);
        x >> 5 & 7
    }

    pub fn get_improved(&self) -> (i: u8)
        ensures
            i == self.improved(),
    {
        let x = self.information;
        assert((x >> 4u8) & 1u8 == (x / 16) % 2) by (bit_vector);
        x >> 4 & 1
    }

    pub fn get_resource(&self) -> (r: u8)
        ensures
            r == self.resource(),
    {
        let x = self.information;
        assert((x >> 1u8) & 7u8 == (x / 2) % 8) by (bit_vector);
        x >> 1 & 7
    }

    pub fn get_occupied(&self) -> (o: u8)
        ensures
            o == self.occupied(),
    {
        let x = self.information;
        assert(x & 1u8 == x % 2) by (bit_vector);
        x & 1
    }

    /// Writes the biome; the other three fields keep their values.
    pub fn set_biome(&mut self, new_biome: u8)
        requires
            new_biome < 8,
        ensures
            final(self).biome() == new_biome,
            final(self).improved() == old(self).improved(),
            final(self).resource() == old(self).resource(),
            final(self).occupied() == old(self).occupied(),
    {
        let x = self.information;
        let y = (x & 31) | (new_biome << 5);
        assert(new_biome < 8 && y == ((x & 31u8) | (new_biome << 5u8)) ==> {
            &&& y / 32 == new_biome
            &&& (y / 16) % 2 == (x / 16) % 2
            &&& (y / 2) % 8 == (x / 2) % 8
            &&& y % 2 == x % 2
        }) by (bit_vector);
        self.information = y;
    }

    /// Writes the lowest bit of `improved` as the improvement flag; the other
    /// three fields keep their values.
    pub fn set_improved(&mut self, improved: u8)
        ensures
            *final(self) == old(self).with_improved(improved),
            final(self).improved() == improved % 2,
            final(self).biome() == old(self).biome(),
            final(self).resource() == old(self).resource(),
            final(self).occupied() == old(self).occupied(),
    {
        let x = self.information;
        let y = (x & 239) | ((improved & 1) << 4);
        assert(y == ((x & 239u8) | ((improved & 1u8) << 4u8)) ==> {
            &&& (y / 16) % 2 == improved % 2
            &&& y / 32 == x / 32
            &&& (y / 2) % 8 == (x / 2) % 8
            &&& y % 2 == x % 2
        }) by (bit_vector);
        self.information = y;
    }

    /// Writes the resource; the other three fields keep their values.
    pub fn set_resource(&mut self, resource: u8)
        requires
            resource < 8,
        ensures
            final(self).resource() == resource,
            final(self).biome() == old(self).biome(),
            final(self).improved() == old(self).improved(),
            final(self).occupied() == old(self).occupied(),
    {
        let x = self.information;
        let y = (x & 241) | (resource << 1);
        assert(resource < 8 && y == ((x & 241u8) | (resource << 1u8)) ==> {
            &&& (y / 2) % 8 == resource
            &&& y / 32 == x / 32
            &&& (y / 16) % 2 == (x / 16) % 2
            &&& y % 2 == x % 2
        }) by (bit_vector);
        self.information = y;
    }

    /// Writes the lowest bit of `occupied` as the occupation flag; the other
    /// three fields keep their values.
    pub fn set_occupied(&mut self, occupied: u8)
        ensures
            *final(self) == old(self).with_occupied(occupied),
            final(self).occupied() == occupied % 2,
            final(self).biome() == old(self).biome(),
            final(self).improved() == old(self).improved(),
            final(self).resource() == old(self).resource(),
    {
        let x = self.information;
        let y = (x & 254) | (occupied & 1);
        assert(y == ((x & 254u8) | (occupied & 1u8)) ==> {
            &&& y % 2 == occupied % 2
            &&& y / 32 == x / 32
            &&& (y / 16) % 2 == (x / 16) % 2
            &&& (y / 2) % 8 == (x / 2) % 8
        }) by (bit_vector);
        self.information = y;
    }
}

/// A tile byte is exactly the sum of its four fields at their bit positions,
/// so the four fields determine the tile.
pub proof fn lemma_tile_byte_decomposition(t: Tile)
    ensures
        t@ == 32 * t.biome() + 16 * t.improved() + 2 * t.resource() + t.occupied(),
        t.biome() < 8,
        t.improved() < 2,
        t.resource() < 8,
        t.occupied() < 2,
{
    let b: u8 = t@;
    assert(b == 32 * (b / 32) + 16 * ((b / 16) % 2) + 2 * ((b / 2) % 8) + b % 2) by (bit_vector);
}

/// Setting the occupation flag changes that flag and nothing else.
pub proof fn lemma_with_occupied(t: Tile, occupied: u8)
    ensures
        t.with_occupied(occupied).occupied() == occupied % 2,
        t.with_occupied(occupied).biome() == t.biome(),
        t.with_occupied(occupied).improved() == t.improved(),
        t.with_occupied(occupied).resource() == t.resource(),
{
    let x = t.information;
    let y = (x & 254u8) | (occupied & 1u8);
    assert(y == ((x & 254u8) | (occupied & 1u8)) ==> {
        &&& y % 2 == occupied % 2
        &&& y / 32 == x / 32
        &&& (y / 16) % 2 == (x / 16) % 2
        &&& (y / 2) % 8 == (x / 2) % 8
    }) by (bit_vector);
}

/// Setting the occupation flag twice is the same as setting it once to the
/// second value.
pub proof fn lemma_with_occupied_twice(t: Tile, a: u8, b: u8)
    ensures
        t.with_occupied(a).with_occupied(b) == t.with_occupied(b),
{
    let x = t.information;
    assert(((((x & 254u8) | (a & 1u8)) & 254u8) | (b & 1u8)) == ((x & 254u8) | (b & 1u8))) by (bit_vector);
}

/// Setting the improvement flag twice to the same value is the same as
/// setting it once.
pub proof fn lemma_with_improved_twice(t: Tile, a: u8)
    ensures
        t.with_improved(a).with_improved(a) == t.with_improved(a),
{
    let x = t.information;
    assert(((((x & 239u8) | ((a & 1u8) << 4u8)) & 239u8) | ((a & 1u8) << 4u8)) == ((x & 239u8) | ((a & 1u8) << 4u8))) by (bit_vector);
}

/// Setting the improvement flag changes that flag and nothing else.
pub proof fn lemma_with_improved(t: Tile, improved: u8)
    ensures
        t.with_improved(improved).improved() == improved % 2,
        t.with_improved(improved).biome() == t.biome(),
        t.with_improved(improved).resource() == t.resource(),
        t.with_improved(improved).occupied() == t.occupied(),
{
    let x = t.information;
    let y = (x & 239u8) | ((improved & 1u8) << 4u8);
    assert(y == ((x & 239u8) | ((improved & 1u8) << 4u8)) ==> {
        &&& (y / 16) % 2 == improved % 2
        &&& y / 32 == x / 32
        &&& (y / 2) % 8 == (x / 2) % 8
        &&& y % 2 == x % 2
    }) by (bit_vector);
}

/// Two tiles that agree on biome, improvement, resource and occupation are
/// the same tile.
pub proof fn lemma_tile_fields_determine_tile(a: Tile, b: Tile)
    requires
        a.biome() == b.biome(),
        a.improved() == b.improved(),
        a.resource() == b.resource(),
        a.occupied() == b.occupied(),
    ensures
        a@ == b@,
{
    lemma_tile_byte_decomposition(a);
    lemma_tile_byte_decomposition(b);
}

} // verus!
