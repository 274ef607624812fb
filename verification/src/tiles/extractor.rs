use vstd::prelude::*;

use crate::resources::{WorldRes, WorldView};
use crate::types::{key_of, Action, Direction, Item, Position, TerrainTileType};

verus! {

broadcast use vstd::std_specs::hash::group_hash_axioms;

/// Digs an item out of a matching deposit every few ticks.
#[derive(Clone, Copy, Debug)]
pub struct Extractor {
    pub position: Position,
    pub direction: Direction,
    pub extractor_type: ExtractorType,
    pub item: Option<Item>,
}

/// The kinds of extractor.
#[derive(Clone, Copy, PartialEq, Eq, Structural, Debug)]
pub enum ExtractorType {
    RawFlextorium,
    RawRigtorium,
    Electrine,
}

pub open spec fn extractor_interval(t: ExtractorType) -> i32 {
    match t {
        ExtractorType::RawRigtorium => 5,
        ExtractorType::RawFlextorium => 5,
        ExtractorType::Electrine => 2,
    }
}

pub open spec fn extractor_terrain(t: ExtractorType) -> TerrainTileType {
    match t {
        ExtractorType::RawRigtorium => TerrainTileType::RawRigtoriumDeposit,
        ExtractorType::RawFlextorium => TerrainTileType::RawFlextoriumDeposit,
        ExtractorType::Electrine => TerrainTileType::ElectrineDeposit,
    }
}

pub open spec fn extractor_item(t: ExtractorType) -> Item {
    match t {
        ExtractorType::RawRigtorium => Item::RawRigtorium,
        ExtractorType::RawFlextorium => Item::RawFlextorium,
        ExtractorType::Electrine => Item::Electrine,
    }
}

pub open spec fn extractor_sprite(t: ExtractorType) -> Seq<char> {
    match t {
        ExtractorType::RawRigtorium => "embedded://textures/tiles/extractors/raw_rigtorium.png"@,
        ExtractorType::RawFlextorium => "embedded://textures/tiles/extractors/raw_flextorium.png"@,
        ExtractorType::Electrine => "embedded://textures/tiles/extractors/electrine.png"@,
    }
}

impl ExtractorType {
    /// Every how many ticks the extractor produces.
    pub fn interval(&self) -> (n: i32)
        ensures
            n == extractor_interval(*self),
    {
        match self {
            ExtractorType::RawRigtorium => 5,
            ExtractorType::RawFlextorium => 5,
            ExtractorType::Electrine => 2,
        }
    }

    /// The deposit the extractor must stand on.
    pub fn terrain(&self) -> (t: TerrainTileType)
        ensures
            t == extractor_terrain(*self),
    {
        match self {
            ExtractorType::RawRigtorium => TerrainTileType::RawRigtoriumDeposit,
            ExtractorType::RawFlextorium => TerrainTileType::RawFlextoriumDeposit,
            ExtractorType::Electrine => TerrainTileType::ElectrineDeposit,
        }
    }

    /// The item the extractor digs out.
    pub fn spawn_item(&self) -> (i: Item)
        ensures
            i == extractor_item(*self),
    {
        match self {
            ExtractorType::RawRigtorium => Item::RawRigtorium,
            ExtractorType::RawFlextorium => Item::RawFlextorium,
            ExtractorType::Electrine => Item::Electrine,
        }
    }

    pub fn sprite(&self) -> (s: String)
        ensures
            s@ == extractor_sprite(*self),
    {
        let s = match self {
            ExtractorType::RawRigtorium => "embedded://textures/tiles/extractors/raw_rigtorium.png",
            ExtractorType::RawFlextorium => {
                "embedded://textures/tiles/extractors/raw_flextorium.png"
            },
            ExtractorType::Electrine => "embedded://textures/tiles/extractors/electrine.png",
        };
        s.to_string()
    }
}

impl Extractor {
    /// Whether this tick is a producing tick for the extractor: the tick count is a
    /// multiple of its interval and it stands on its deposit.
    pub open spec fn produces_now(self, world: WorldView) -> bool {
        &&& (world.tick_count as int) % (extractor_interval(self.extractor_type) as int) == 0
        &&& world.terrain.contains_key(key_of(self.position))
        &&& world.terrain[key_of(self.position)] == extractor_terrain(self.extractor_type)
    }

    pub open spec fn tick_in_range(self, world: WorldView) -> bool {
        self.produces_now(world) || self.position.can_shift(self.direction)
    }

    /// On a producing tick the extractor asks to produce; otherwise a held item
    /// moves to the faced cell when a tile stands there.
    pub open spec fn next_action(self, world: WorldView) -> Option<Action> {
        if self.produces_now(world) {
            Some(Action::Produce(self.position))
        } else {
            let end = self.position.neighbor(self.direction);
            if world.tiles.contains_key(key_of(end)) && self.item is Some {
                Some(Action::Move(self.position, end, self.item->0))
            } else {
                None
            }
        }
    }

    /// Whether this tick is a producing tick for the extractor.
    pub fn produces_in(&self, world: &WorldRes) -> (b: bool)
        ensures
            b == self.produces_now(world@),
    {
        let interval = self.extractor_type.interval();
        let on_deposit = match world.terrain.get(&self.position.get_as_key()) {
            Some(t) => *t == self.extractor_type.terrain(),
            None => false,
        };
        let due = world.tick_count % interval == 0;
        assert(due == ((world.tick_count as int) % (interval as int) == 0)) by {
            let c = world.tick_count as int;
            let i = interval as int;
            assert(c == i * (c / i) + c % i);
        }
        due && on_deposit
    }

    pub fn tick(&self, world: &WorldRes) -> (a: Option<Action>)
        requires
            self.tick_in_range(world@),
        ensures
            a == self.next_action(world@),
    {
        if self.produces_in(world) {
            return Some(Action::Produce(self.position));
        }
        let start_position = self.position;
        let end_position = self.position.shift(self.direction);
        if world.has_tile(end_position) {
            if let Some(item) = self.item {
                return Some(Action::Move(start_position, end_position, item));
            }
        }
        None
    }
}

/// An extractor standing on its own kind of deposit asks to produce on every
/// tick whose count is a multiple of its interval; on other ticks, or off its
/// deposit, it sends a held item to the faced cell when a tile stands there.
pub proof fn lemma_extractor_digs_on_deposit(e: Extractor, world: WorldView, item: Item)
    ensures
        (world.tick_count as int) % (extractor_interval(e.extractor_type) as int) == 0
            && world.terrain.contains_key(key_of(e.position)) && world.terrain[key_of(e.position)]
            == extractor_terrain(e.extractor_type) ==> e.next_action(world) == Some(
            Action::Produce(e.position),
        ),
        !e.produces_now(world) && e.item == Some(item) && world.tiles.contains_key(
            key_of(e.position.neighbor(e.direction)),
        ) ==> e.next_action(world) == Some(
            Action::Move(e.position, e.position.neighbor(e.direction), item),
        ),
        !e.produces_now(world) && e.item is None ==> e.next_action(world) is None,
        !world.terrain.contains_key(key_of(e.position)) || world.terrain[key_of(e.position)]
            != extractor_terrain(e.extractor_type) ==> !e.produces_now(world),
        e.extractor_type == ExtractorType::RawRigtorium ==> extractor_terrain(e.extractor_type)
            == TerrainTileType::RawRigtoriumDeposit && extractor_item(e.extractor_type)
            == Item::RawRigtorium,
        e.extractor_type == ExtractorType::RawFlextorium ==> extractor_terrain(e.extractor_type)
            == TerrainTileType::RawFlextoriumDeposit && extractor_item(e.extractor_type)
            == Item::RawFlextorium,
        e.extractor_type == ExtractorType::Electrine ==> extractor_terrain(e.extractor_type)
            == TerrainTileType::ElectrineDeposit && extractor_item(e.extractor_type)
            == Item::Electrine,
{
}

} // verus!
