use std::collections::HashMap;
use vstd::prelude::*;

use crate::tiles::{Core, Tile};
use crate::types::{key_of, Action, Position, TerrainTileType};

verus! {

broadcast use vstd::std_specs::hash::group_hash_axioms;

/// The tile stored under `p` in a tile map, if any.
pub open spec fn tile_in(m: Map<u64, (Tile, (u8, u8))>, p: Position) -> Option<Tile> {
    if m.contains_key(key_of(p)) {
        Some(m[key_of(p)].0)
    } else {
        None
    }
}

/// What the tiles read of the world when they decide their next step.
pub struct WorldView {
    pub tiles: Map<u64, (Tile, (u8, u8))>,
    pub terrain: Map<u64, TerrainTileType>,
    pub tick_count: i32,
}

/// The state of the game world that the tick logic reads and changes.
pub struct WorldRes {
    /// Every placed tile with its tile id, stored under the key of its cell.
    pub tiles: HashMap<u64, (Tile, (u8, u8))>,
    /// The ground of every generated cell, stored under the key of the cell.
    pub terrain: HashMap<u64, TerrainTileType>,
    /// How many of each tile id the player owns, stored under `tile_id_key`.
    pub resources: HashMap<u16, u32>,
    pub world_seed: u32,
    pub tick_count: i32,
    /// The steps to perform on the next tick, in order.
    pub actions: Vec<Action>,
    pub money: u32,
}

/// The key of a tile id in the resources map: the two bytes of the id.
pub open spec fn tile_id_key(id: (u8, u8)) -> u16 {
    (id.0 as int * 256 + id.1 as int) as u16
}

/// How many tiles of kind `id` the resources map records (0 where absent).
pub open spec fn count_of(res: Map<u16, u32>, id: (u8, u8)) -> u32 {
    if res.contains_key(tile_id_key(id)) {
        res[tile_id_key(id)]
    } else {
        0
    }
}

/// The resources with one more tile of kind `id`.
pub open spec fn add_one(res: Map<u16, u32>, id: (u8, u8)) -> Map<u16, u32> {
    res.insert(tile_id_key(id), (count_of(res, id) + 1) as u32)
}

/// The resources with one tile of kind `id` fewer.
pub open spec fn take_one(res: Map<u16, u32>, id: (u8, u8)) -> Map<u16, u32> {
    res.insert(tile_id_key(id), (count_of(res, id) - 1) as u32)
}

/// Distinct tile ids have distinct resource keys.
pub proof fn lemma_tile_id_key_injective(a: (u8, u8), b: (u8, u8))
    requires
        tile_id_key(a) == tile_id_key(b),
    ensures
        a == b,
{
}

/// The key of a tile id in the resources map.
pub fn resource_key(id: (u8, u8)) -> (k: u16)
    ensures
        k == tile_id_key(id),
{
    (id.0 as u16) * 256 + (id.1 as u16)
}

impl View for WorldRes {
    type V = WorldView;

    open spec fn view(&self) -> WorldView {
        WorldView { tiles: self.tiles@, terrain: self.terrain@, tick_count: self.tick_count }
    }
}

impl WorldRes {
    /// The fields that the tile and resource operations leave alone are equal.
    pub open spec fn same_rest(&self, other: &WorldRes) -> bool {
        &&& self.terrain == other.terrain
        &&& self.world_seed == other.world_seed
        &&& self.tick_count == other.tick_count
        &&& self.actions == other.actions
        &&& self.money == other.money
    }

    /// How many tiles of kind `id` the player owns.
    pub fn resource_count(&self, id: (u8, u8)) -> (n: u32)
        ensures
            n == count_of(self.resources@, id),
    {
        let k = resource_key(id);
        match self.resources.get(&k) {
            Some(n) => *n,
            None => 0,
        }
    }

    /// Gives the player one more tile of kind `id`.
    pub fn add_resource(&mut self, id: (u8, u8))
        requires
            count_of(old(self).resources@, id) < u32::MAX,
        ensures
            final(self).resources@ == add_one(old(self).resources@, id),
            final(self).tiles == old(self).tiles,
            final(self).same_rest(old(self)),
    {
        let n = self.resource_count(id);
        self.resources.insert(resource_key(id), n + 1);
    }

    /// Takes one tile of kind `id` from the player.
    pub fn take_resource(&mut self, id: (u8, u8))
        requires
            count_of(old(self).resources@, id) >= 1,
        ensures
            final(self).resources@ == take_one(old(self).resources@, id),
            final(self).tiles == old(self).tiles,
            final(self).same_rest(old(self)),
    {
        let n = self.resource_count(id);
        self.resources.insert(resource_key(id), n - 1);
    }

    /// The tile at `p`, if any.
    pub open spec fn tile_at(&self, p: Position) -> Option<Tile> {
        tile_in(self.tiles@, p)
    }

    /// The tile at `p`, if any.
    pub fn get_tile(&self, p: Position) -> (t: Option<Tile>)
        ensures
            t == self.tile_at(p),
    {
        let k = p.get_as_key();
        match self.tiles.get(&k) {
            Some(entry) => Some(entry.0),
            None => None,
        }
    }

    /// Whether a tile stands at `p`.
    pub fn has_tile(&self, p: Position) -> (b: bool)
        ensures
            b == self.tiles@.contains_key(key_of(p)),
    {
        let k = p.get_as_key();
        self.tiles.contains_key(&k)
    }
}

impl WorldRes {
    /// The world of a new game: the core at the origin making tiles of id (6, 1)
    /// every 10 ticks, a starting stock of tiles and 100 money.
    pub fn new_game(world_seed: u32) -> (w: WorldRes)
        ensures
            w.tiles@ == Map::<u64, (Tile, (u8, u8))>::empty().insert(
                key_of(Position { x: 0, y: 0 }),
                (
                    Tile::Core(
                        Core {
                            position: Position { x: 0, y: 0 },
                            interval: 10,
                            ticks: 0,
                            tile_id: (6, 1),
                        },
                    ),
                    (6u8, 1u8),
                ),
            ),
            forall|id: (u8, u8)|
                count_of(w.resources@, id) == if id == (2u8, 1u8) {
                    20u32
                } else if id == (2u8, 2u8) || id == (2u8, 3u8) {
                    5u32
                } else if id == (3u8, 1u8) || id == (3u8, 3u8) || id == (4u8, 1u8) {
                    1u32
                } else {
                    0u32
                },
            w.terrain@ == Map::<u64, TerrainTileType>::empty(),
            w.world_seed == world_seed,
            w.tick_count == 0,
            w.actions@ == Seq::<Action>::empty(),
            w.money == 100,
    {
        let mut resources: HashMap<u16, u32> = HashMap::new();
        resources.insert(resource_key((2, 1)), 20);
        resources.insert(resource_key((2, 2)), 5);
        resources.insert(resource_key((2, 3)), 5);
        resources.insert(resource_key((3, 1)), 1);
        resources.insert(resource_key((3, 3)), 1);
        resources.insert(resource_key((4, 1)), 1);
        let origin = Position::new(0, 0);
        let mut tiles: HashMap<u64, (Tile, (u8, u8))> = HashMap::new();
        tiles.insert(
            origin.get_as_key(),
            (Tile::Core(Core { position: origin, interval: 10, ticks: 0, tile_id: (6, 1) }), (6, 1)),
        );
        proof {
            assert forall|id: (u8, u8)|
                count_of(resources@, id) == if id == (2u8, 1u8) {
                    20u32
                } else if id == (2u8, 2u8) || id == (2u8, 3u8) {
                    5u32
                } else if id == (3u8, 1u8) || id == (3u8, 3u8) || id == (4u8, 1u8) {
                    1u32
                } else {
                    0u32
                } by {
                let k = tile_id_key(id);
                if k == tile_id_key((2, 1)) {
                    lemma_tile_id_key_injective(id, (2, 1));
                } else if k == tile_id_key((2, 2)) {
                    lemma_tile_id_key_injective(id, (2, 2));
                } else if k == tile_id_key((2, 3)) {
                    lemma_tile_id_key_injective(id, (2, 3));
                } else if k == tile_id_key((3, 1)) {
                    lemma_tile_id_key_injective(id, (3, 1));
                } else if k == tile_id_key((3, 3)) {
                    lemma_tile_id_key_injective(id, (3, 3));
                } else if k == tile_id_key((4, 1)) {
                    lemma_tile_id_key_injective(id, (4, 1));
                }
            }
        }
        WorldRes {
            tiles,
            terrain: HashMap::new(),
            resources,
            world_seed,
            tick_count: 0,
            actions: Vec::new(),
            money: 100,
        }
    }
}

/// The tile ids offered in a category of the core's menu.
pub open spec fn menu_tiles(category: u8) -> Seq<(u8, u8)> {
    if category == 1 {
        seq![(1u8, 2u8)]
    } else if category == 2 {
        seq![(2u8, 1u8), (2u8, 2u8), (2u8, 3u8)]
    } else if category == 3 {
        seq![(3u8, 1u8), (3u8, 2u8), (3u8, 3u8)]
    } else if category == 4 {
        seq![(4u8, 1u8), (4u8, 2u8), (4u8, 3u8), (4u8, 4u8), (4u8, 5u8)]
    } else if category == 5 {
        seq![(5u8, 1u8), (5u8, 2u8), (5u8, 3u8)]
    } else {
        Seq::empty()
    }
}

/// The tile ids offered in a category of the core's menu, in menu order.
pub fn core_menu_tiles(category: u8) -> (v: Vec<(u8, u8)>)
    ensures
        v@ == menu_tiles(category),
{
    let v = if category == 1 {
        vec![(1, 2)]
    } else if category == 2 {
        vec![(2, 1), (2, 2), (2, 3)]
    } else if category == 3 {
        vec![(3, 1), (3, 2), (3, 3)]
    } else if category == 4 {
        vec![(4, 1), (4, 2), (4, 3), (4, 4), (4, 5)]
    } else if category == 5 {
        vec![(5, 1), (5, 2), (5, 3)]
    } else {
        Vec::new()
    };
    proof {
        assert(v@ =~= menu_tiles(category));
    }
    v
}

/// The position of a terrain chunk, in chunks.
#[derive(Clone, Copy, PartialEq, Eq, Structural, Debug, Hash)]
pub struct ChunkPosition {
    pub x: i32,
    pub y: i32,
}

impl ChunkPosition {
    pub fn new(x: i32, y: i32) -> (c: Self)
        ensures
            c == (ChunkPosition { x, y }),
    {
        Self { x, y }
    }
}

/// The chunks within `radius` chunks of `center` along both axes, row by row.
pub fn chunks_around(center: ChunkPosition, radius: i32) -> (v: Vec<ChunkPosition>)
    requires
        radius >= 0,
        i32::MIN <= center.x - radius,
        center.x + radius < i32::MAX,
        i32::MIN <= center.y - radius,
        center.y + radius < i32::MAX,
    ensures
        forall|c: ChunkPosition|
            v@.contains(c) <==> (center.x - radius <= c.x <= center.x + radius && center.y - radius
                <= c.y <= center.y + radius),
        v@.no_duplicates(),
{
    let mut v: Vec<ChunkPosition> = Vec::new();
    let mut x = center.x - radius;
    while x < center.x + radius + 1
        invariant
            center.x - radius <= x <= center.x + radius + 1,
            center.x + radius < i32::MAX,
            i32::MIN <= center.y - radius,
            center.y + radius < i32::MAX,
            radius >= 0,
            v@.no_duplicates(),
            forall|c: ChunkPosition|
                v@.contains(c) <==> (center.x - radius <= c.x < x && center.y - radius <= c.y
                    <= center.y + radius),
        decreases center.x + radius + 1 - x,
    {
        let mut y = center.y - radius;
        while y < center.y + radius + 1
            invariant
                center.x - radius <= x < center.x + radius + 1,
                center.y - radius <= y <= center.y + radius + 1,
                center.y + radius < i32::MAX,
                v@.no_duplicates(),
                forall|c: ChunkPosition|
                    v@.contains(c) <==> ((center.x - radius <= c.x < x && center.y - radius <= c.y
                        <= center.y + radius) || (c.x == x && center.y - radius <= c.y < y)),
            decreases center.y + radius + 1 - y,
        {
            let c = ChunkPosition::new(x, y);
            let ghost before = v@;
            proof {
                assert(!v@.contains(c));
            }
            v.push(c);
            proof {
                assert forall|d: ChunkPosition| #[trigger] v@.contains(d) <==> (before.contains(d) || d == c) by {
                    if before.contains(d) {
                        let a = choose|a: int| 0 <= a < before.len() && before[a] == d;
                        assert(v@[a] == d);
                    }
                    if d.x == c.x && d.y == c.y {
                        assert(d == c);
                        assert(v@[before.len() as int] == d);
                    }
                    if v@.contains(d) {
                        let a = choose|a: int| 0 <= a < v@.len() && v@[a] == d;
                        if a < before.len() {
                            assert(before[a] == d);
                        }
                    }
                }
                assert forall|d: ChunkPosition| v@.contains(d) <==> ((center.x - radius <= d.x < x
                    && center.y - radius <= d.y <= center.y + radius) || (d.x == x && center.y
                    - radius <= d.y < y + 1)) by {
                    if d.x == c.x && d.y == c.y {
                        assert(d == c);
                    }
                    assert(before.contains(d) <==> (center.x - radius <= d.x < x && center.y
                        - radius <= d.y <= center.y + radius) || (d.x == x && center.y - radius
                        <= d.y < y));
                }
            }
            y = y + 1;
        }
        x = x + 1;
    }
    v
}

} // verus!
