use vstd::prelude::*;

verus! {

/// A cell of the world grid.
#[derive(Clone, Copy, PartialEq, Eq, Structural, PartialOrd, Ord, Debug, Hash)]
pub struct Position {
    pub x: i32,
    pub y: i32,
}

/// The four grid directions.
#[derive(Clone, Copy, PartialEq, Eq, Structural, Debug, Hash)]
pub enum Direction {
    Up,
    Down,
    Left,
    Right,
}

/// The 64-bit key of a position: the low 32 bits hold `x`, the high 32 bits
/// hold `y`, each in two's complement.
pub open spec fn key_of(p: Position) -> u64 {
    ((p.x as u32) as int + (p.y as u32) as int * 0x1_0000_0000) as u64
}

/// The position whose key is `k`.
pub open spec fn position_of_key(k: u64) -> Position {
    Position { x: (k as u32) as i32, y: ((k / 0x1_0000_0000) as u32) as i32 }
}

/// Decoding a key gives back the position it was made from.
pub proof fn lemma_position_key_roundtrip(p: Position)
    ensures
        position_of_key(key_of(p)) == p,
{
    let x = p.x;
    let y = p.y;
    assert(((((x as u32) as int + (y as u32) as int * 0x1_0000_0000) as u64) as u32) as i32 == x)
        by (bit_vector);
    assert((((((x as u32) as int + (y as u32) as int * 0x1_0000_0000) as u64) / 0x1_0000_0000)
        as u32) as i32 == y) by (bit_vector);
}

/// Encoding the decoded position gives back the key.
pub proof fn lemma_key_position_roundtrip(k: u64)
    ensures
        key_of(position_of_key(k)) == k,
{
    assert(((((k as u32) as i32) as u32) as int + ((((k / 0x1_0000_0000) as u32) as i32) as u32)
        as int * 0x1_0000_0000) as u64 == k) by (bit_vector);
}

/// Distinct positions have distinct keys.
pub proof fn lemma_key_injective(p: Position, q: Position)
    requires
        key_of(p) == key_of(q),
    ensures
        p == q,
{
    lemma_position_key_roundtrip(p);
    lemma_position_key_roundtrip(q);
}

impl Position {
    /// Whether moving one cell in `d` stays inside the `i32` range.
    pub open spec fn can_shift(self, d: Direction) -> bool {
        match d {
            Direction::Up => self.y < i32::MAX,
            Direction::Down => self.y > i32::MIN,
            Direction::Left => self.x > i32::MIN,
            Direction::Right => self.x < i32::MAX,
        }
    }

    /// Whether every one-cell move from this position stays inside the `i32` range.
    pub open spec fn is_interior(self) -> bool {
        i32::MIN < self.x < i32::MAX && i32::MIN < self.y < i32::MAX
    }

    /// The neighbouring cell in direction `d`.
    pub open spec fn neighbor(self, d: Direction) -> Position {
        match d {
            Direction::Up => Position { x: self.x, y: (self.y + 1) as i32 },
            Direction::Down => Position { x: self.x, y: (self.y - 1) as i32 },
            Direction::Left => Position { x: (self.x - 1) as i32, y: self.y },
            Direction::Right => Position { x: (self.x + 1) as i32, y: self.y },
        }
    }

    pub fn new(x: i32, y: i32) -> (p: Self)
        ensures
            p == (Position { x, y }),
    {
        Self { x, y }
    }

    /// Whether moving one cell in `direction` stays inside the `i32` range.
    pub fn fits_shift(&self, direction: Direction) -> (b: bool)
        ensures
            b == self.can_shift(direction),
    {
        match direction {
            Direction::Up => self.y < i32::MAX,
            Direction::Down => self.y > i32::MIN,
            Direction::Left => self.x > i32::MIN,
            Direction::Right => self.x < i32::MAX,
        }
    }

    /// The neighbouring cell in `direction`.
    pub fn shift(&self, direction: Direction) -> (p: Position)
        requires
            self.can_shift(direction),
        ensures
            p == self.neighbor(direction),
    {
        let mut pos = *self;
        match direction {
            Direction::Up => pos.y = pos.y + 1,
            Direction::Down => pos.y = pos.y - 1,
            Direction::Left => pos.x = pos.x - 1,
            Direction::Right => pos.x = pos.x + 1,
        }
        pos
    }

    /// The key under which this position is stored in the world's maps.
    pub fn get_as_key(&self) -> (k: u64)
        ensures
            k == key_of(*self),
    {
        let x = self.x;
        let y = self.y;
        let k = (#[verifier::truncate] (x as u64) & 0xFFFFFFFF) | ((#[verifier::truncate] (y
            as u64) & 0xFFFFFFFF) << 32);
        assert(k == (x as u32) as int + (y as u32) as int * 0x1_0000_0000) by (bit_vector)
            requires
                k == ((x as u64) & 0xFFFFFFFF) | (((y as u64) & 0xFFFFFFFF) << 32),
        ;
        k
    }

    /// The position stored under `key`.
    pub fn from_key(key: u64) -> (p: Self)
        ensures
            p == position_of_key(key),
            key_of(p) == key,
    {
        let x = #[verifier::truncate] ((key & 0xFFFFFFFF) as i32);
        let y = #[verifier::truncate] (((key >> 32) & 0xFFFFFFFF) as i32);
        assert(x == (key as u32) as i32 && y == ((key / 0x1_0000_0000) as u32) as i32)
            by (bit_vector)
            requires
                x == (key & 0xFFFFFFFF) as i32,
                y == ((key >> 32) & 0xFFFFFFFF) as i32,
        ;
        proof {
            lemma_key_position_roundtrip(key);
        }
        Position::new(x, y)
    }
}

/// The clockwise index of a direction: up 0, right 1, down 2, left 3.
pub open spec fn dir_index(d: Direction) -> int {
    match d {
        Direction::Up => 0,
        Direction::Right => 1,
        Direction::Down => 2,
        Direction::Left => 3,
    }
}

/// The direction with clockwise index `i` modulo 4.
pub open spec fn dir_from_index(i: int) -> Direction {
    let r = i % 4;
    if r == 0 {
        Direction::Up
    } else if r == 1 {
        Direction::Right
    } else if r == 2 {
        Direction::Down
    } else {
        Direction::Left
    }
}

/// Turning `i` quarter turns and then `j` more is turning `i + j` quarter
/// turns; four quarter turns, either way, change nothing.
pub proof fn lemma_turns_compose(d: Direction, i: int, j: int)
    ensures
        dir_from_index(dir_index(dir_from_index(dir_index(d) + i)) + j) == dir_from_index(
            dir_index(d) + i + j,
        ),
        dir_from_index(dir_index(d)) == d,
        dir_from_index(dir_index(d) + 4) == d,
        dir_from_index(dir_index(d) - 4) == d,
{
    let a = dir_index(d) + i;
    let r = a % 4;
    assert(dir_index(dir_from_index(a)) == r);
    assert((r + j) % 4 == (a + j) % 4) by {
        vstd::arithmetic::div_mod::lemma_add_mod_noop(a, j, 4);
        vstd::arithmetic::div_mod::lemma_mod_twice(a, 4);
        vstd::arithmetic::div_mod::lemma_add_mod_noop(r, j, 4);
    }
}

impl Direction {
    /// The direction `i` quarter turns clockwise from this one (negative `i` turns
    /// counterclockwise).
    pub fn shift(&self, i: i32) -> (d: Direction)
        requires
            dir_index(*self) + i <= i32::MAX,
        ensures
            d == dir_from_index(dir_index(*self) + i),
    {
        let current_index: i32 = match self {
            Direction::Up => 0,
            Direction::Right => 1,
            Direction::Down => 2,
            Direction::Left => 3,
        };
        let s = current_index + i;
        let mut r = s % 4;
        if r < 0 {
            r = r + 4;
        }
        assert(r == (s as int) % 4) by {
            assert(s as int == 4 * (s / 4) + s % 4);
        }
        match r {
            0 => Direction::Up,
            1 => Direction::Right,
            2 => Direction::Down,
            _ => Direction::Left,
        }
    }
}

/// The items that travel between tiles.
#[derive(Clone, Copy, PartialEq, Eq, Structural, Debug, Hash)]
pub enum Item {
    RawFlextorium,
    RawRigtorium,
    Flextorium,
    Rigtorium,
    Electrine,
    RigtoriumRod,
    Conveyor,
    Router,
}

/// The number of item kinds.
pub const ITEM_KINDS: usize = 8;

/// The slot of an item in an `ItemCounts`.
pub open spec fn item_index(item: Item) -> int {
    match item {
        Item::RawFlextorium => 0,
        Item::RawRigtorium => 1,
        Item::Flextorium => 2,
        Item::Rigtorium => 3,
        Item::Electrine => 4,
        Item::RigtoriumRod => 5,
        Item::Conveyor => 6,
        Item::Router => 7,
    }
}

/// The item in slot `j` of an `ItemCounts`.
pub open spec fn item_at(j: int) -> Item {
    if j == 0 {
        Item::RawFlextorium
    } else if j == 1 {
        Item::RawRigtorium
    } else if j == 2 {
        Item::Flextorium
    } else if j == 3 {
        Item::Rigtorium
    } else if j == 4 {
        Item::Electrine
    } else if j == 5 {
        Item::RigtoriumRod
    } else if j == 6 {
        Item::Conveyor
    } else {
        Item::Router
    }
}

/// Items and the slots `0..8` correspond one to one.
pub proof fn lemma_item_slots()
    ensures
        forall|i: Item| #[trigger] item_at(item_index(i)) == i,
        forall|j: int| 0 <= j < 8 ==> item_index(#[trigger] item_at(j)) == j,
        forall|i: Item| 0 <= #[trigger] item_index(i) < 8,
{
}

/// The texture path of an item.
pub open spec fn item_sprite(item: Item) -> Seq<char> {
    match item {
        Item::RawFlextorium => "embedded://textures/items/raw_flextorium.png"@,
        Item::RawRigtorium => "embedded://textures/items/raw_rigtorium.png"@,
        Item::Flextorium => "embedded://textures/items/flextorium.png"@,
        Item::Rigtorium => "embedded://textures/items/rigtorium.png"@,
        Item::Electrine => "embedded://textures/items/electrine.png"@,
        Item::RigtoriumRod => "embedded://textures/items/rigtorium_rod.png"@,
        Item::Conveyor => "embedded://textures/items/conveyor.png"@,
        Item::Router => "embedded://textures/items/router.png"@,
    }
}

/// The tile that a portal builds from an item, if the item is a placeable tile.
pub open spec fn item_tile(item: Item) -> Option<(u8, u8)> {
    match item {
        Item::Conveyor => Some((1u8, 1u8)),
        Item::Router => Some((1u8, 2u8)),
        _ => None,
    }
}

impl Item {
    /// The item in slot `j` (slots above 7 give the last item).
    pub fn from_index(j: usize) -> (item: Item)
        ensures
            item == item_at(j as int),
    {
        if j == 0 {
            Item::RawFlextorium
        } else if j == 1 {
            Item::RawRigtorium
        } else if j == 2 {
            Item::Flextorium
        } else if j == 3 {
            Item::Rigtorium
        } else if j == 4 {
            Item::Electrine
        } else if j == 5 {
            Item::RigtoriumRod
        } else if j == 6 {
            Item::Conveyor
        } else {
            Item::Router
        }
    }

    /// The slot of this item in an `ItemCounts`.
    pub fn index(&self) -> (i: usize)
        ensures
            i == item_index(*self),
            i < ITEM_KINDS,
    {
        match self {
            Item::RawFlextorium => 0,
            Item::RawRigtorium => 1,
            Item::Flextorium => 2,
            Item::Rigtorium => 3,
            Item::Electrine => 4,
            Item::RigtoriumRod => 5,
            Item::Conveyor => 6,
            Item::Router => 7,
        }
    }

    pub fn sprite(&self) -> (s: &'static str)
        ensures
            s@ == item_sprite(*self),
    {
        match self {
            Item::RawFlextorium => "embedded://textures/items/raw_flextorium.png",
            Item::RawRigtorium => "embedded://textures/items/raw_rigtorium.png",
            Item::Flextorium => "embedded://textures/items/flextorium.png",
            Item::Rigtorium => "embedded://textures/items/rigtorium.png",
            Item::Electrine => "embedded://textures/items/electrine.png",
            Item::RigtoriumRod => "embedded://textures/items/rigtorium_rod.png",
            Item::Conveyor => "embedded://textures/items/conveyor.png",
            Item::Router => "embedded://textures/items/router.png",
        }
    }

    pub fn to_tile(&self) -> (t: Option<(u8, u8)>)
        ensures
            t == item_tile(*self),
    {
        match self {
            Item::Conveyor => Some((1, 1)),
            Item::Router => Some((1, 2)),
            _ => None,
        }
    }
}

/// A count for every item kind; an item that is absent counts 0.
#[derive(Clone, Copy, PartialEq, Eq, Structural, Debug)]
pub struct ItemCounts {
    pub raw_flextorium: u32,
    pub raw_rigtorium: u32,
    pub flextorium: u32,
    pub rigtorium: u32,
    pub electrine: u32,
    pub rigtorium_rod: u32,
    pub conveyor: u32,
    pub router: u32,
}

impl ItemCounts {
    /// The count of `item`.
    pub open spec fn count(self, item: Item) -> u32 {
        match item {
            Item::RawFlextorium => self.raw_flextorium,
            Item::RawRigtorium => self.raw_rigtorium,
            Item::Flextorium => self.flextorium,
            Item::Rigtorium => self.rigtorium,
            Item::Electrine => self.electrine,
            Item::RigtoriumRod => self.rigtorium_rod,
            Item::Conveyor => self.conveyor,
            Item::Router => self.router,
        }
    }

    /// The counts with `item` set to `v` and every other item unchanged.
    pub open spec fn with_count(self, item: Item, v: u32) -> ItemCounts {
        match item {
            Item::RawFlextorium => ItemCounts { raw_flextorium: v, ..self },
            Item::RawRigtorium => ItemCounts { raw_rigtorium: v, ..self },
            Item::Flextorium => ItemCounts { flextorium: v, ..self },
            Item::Rigtorium => ItemCounts { rigtorium: v, ..self },
            Item::Electrine => ItemCounts { electrine: v, ..self },
            Item::RigtoriumRod => ItemCounts { rigtorium_rod: v, ..self },
            Item::Conveyor => ItemCounts { conveyor: v, ..self },
            Item::Router => ItemCounts { router: v, ..self },
        }
    }

    /// All counts 0.
    pub fn new() -> (c: Self)
        ensures
            forall|item: Item| c.count(item) == 0,
            c == (ItemCounts {
                raw_flextorium: 0,
                raw_rigtorium: 0,
                flextorium: 0,
                rigtorium: 0,
                electrine: 0,
                rigtorium_rod: 0,
                conveyor: 0,
                router: 0,
            }),
    {
        ItemCounts {
            raw_flextorium: 0,
            raw_rigtorium: 0,
            flextorium: 0,
            rigtorium: 0,
            electrine: 0,
            rigtorium_rod: 0,
            conveyor: 0,
            router: 0,
        }
    }

    /// The count of `item` (0 where the item is absent).
    pub fn get(&self, item: Item) -> (n: u32)
        ensures
            n == self.count(item),
    {
        match item {
            Item::RawFlextorium => self.raw_flextorium,
            Item::RawRigtorium => self.raw_rigtorium,
            Item::Flextorium => self.flextorium,
            Item::Rigtorium => self.rigtorium,
            Item::Electrine => self.electrine,
            Item::RigtoriumRod => self.rigtorium_rod,
            Item::Conveyor => self.conveyor,
            Item::Router => self.router,
        }
    }

    /// Sets the count of `item` to `v`.
    pub fn set(&mut self, item: Item, v: u32)
        ensures
            *final(self) == old(self).with_count(item, v),
    {
        match item {
            Item::RawFlextorium => self.raw_flextorium = v,
            Item::RawRigtorium => self.raw_rigtorium = v,
            Item::Flextorium => self.flextorium = v,
            Item::Rigtorium => self.rigtorium = v,
            Item::Electrine => self.electrine = v,
            Item::RigtoriumRod => self.rigtorium_rod = v,
            Item::Conveyor => self.conveyor = v,
            Item::Router => self.router = v,
        }
    }
}

/// Setting one count leaves the others as they were.
pub proof fn lemma_with_count(c: ItemCounts, item: Item, v: u32)
    ensures
        c.with_count(item, v).count(item) == v,
        forall|other: Item| other != item ==> c.with_count(item, v).count(other) == c.count(other),
{
}

/// What a factory consumes and what it makes.
#[derive(Clone, Copy, Debug)]
pub struct Recipe {
    pub inputs: ItemCounts,
    pub output: Item,
}

/// Where a router hands an item next, relative to its facing direction.
#[derive(Clone, Copy, PartialEq, Eq, Structural, Debug)]
pub enum RouterOutputIndex {
    Forward,
    Right,
    Left,
}

/// A step that a tile asks the world to perform on the next tick.
#[derive(Clone, Copy, PartialEq, Eq, Debug)]
pub enum Action {
    Move(Position, Position, Item),
    MoveRouter(Position, Position, Item, RouterOutputIndex),
    Produce(Position),
    Teleport(Position, (u8, u8)),
    IncreaseTicks(Position),
}

/// The ground under a cell.
#[derive(Clone, Copy, PartialEq, Eq, Structural, Debug, Hash)]
pub enum TerrainTileType {
    RawFlextoriumDeposit,
    RawRigtoriumDeposit,
    ElectrineDeposit,
    Stone,
}

} // verus!
