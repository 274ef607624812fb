pub mod conveyor;
pub mod core_tile;
pub mod extractor;
pub mod factory;
pub mod junction;
pub mod portal;
pub mod router;
pub mod storage;

pub use conveyor::Conveyor;
pub use core_tile::Core;
pub use extractor::{Extractor, ExtractorType};
pub use factory::{Factory, FactoryType};
pub use junction::Junction;
pub use portal::Portal;
pub use router::Router;
pub use storage::{Storage, StorageType};

use vstd::prelude::*;

use crate::resources::{WorldRes, WorldView};
use crate::types::{Action, Item, Position};

verus! {

/// A tile of the factory: one of the kinds of building that can stand on a cell.
#[derive(Clone, Copy, Debug)]
pub enum Tile {
    Conveyor(Conveyor),
    Router(Router),
    Extractor(Extractor),
    Factory(Factory),
    Storage(Storage),
    Portal(Portal),
    Junction(Junction),
    Core(Core),
}

impl Tile {
    /// The cell the tile stands on.
    pub open spec fn pos(self) -> Position {
        match self {
            Tile::Conveyor(t) => t.position,
            Tile::Router(t) => t.position,
            Tile::Extractor(t) => t.position,
            Tile::Factory(t) => t.position,
            Tile::Storage(t) => t.position,
            Tile::Portal(t) => t.position,
            Tile::Junction(t) => t.position,
            Tile::Core(t) => t.position,
        }
    }

    /// The item that the tile reports as held (`get_item`): conveyors, routers,
    /// extractors and factories report their slot, every other kind reports none.
    pub open spec fn held_item(self) -> Option<Item> {
        match self {
            Tile::Conveyor(t) => t.item,
            Tile::Router(t) => t.item,
            Tile::Extractor(t) => t.item,
            Tile::Factory(t) => t.item,
            _ => None,
        }
    }

    /// The tile after `set_item(item)`: conveyors, routers, extractors, factories
    /// and portals store the item, every other kind ignores it.
    pub open spec fn with_item(self, item: Option<Item>) -> Tile {
        match self {
            Tile::Conveyor(t) => Tile::Conveyor(Conveyor { item, ..t }),
            Tile::Router(t) => Tile::Router(Router { item, ..t }),
            Tile::Extractor(t) => Tile::Extractor(Extractor { item, ..t }),
            Tile::Factory(t) => Tile::Factory(Factory { item, ..t }),
            Tile::Portal(t) => Tile::Portal(Portal { item, ..t }),
            _ => self,
        }
    }

    /// Whether `tick` stays inside the `i32` range of cells when run in `world`.
    pub open spec fn tick_in_range(self, world: WorldView) -> bool {
        match self {
            Tile::Conveyor(t) => t.tick_in_range(),
            Tile::Router(t) => t.tick_in_range(world),
            Tile::Extractor(t) => t.tick_in_range(world),
            Tile::Factory(t) => t.tick_in_range(),
            Tile::Storage(t) => t.tick_in_range(),
            Tile::Portal(_) => true,
            Tile::Junction(t) => t.tick_in_range(world),
            Tile::Core(_) => true,
        }
    }

    /// The step the tile asks for on the next tick, given the current world.
    pub open spec fn next_action(self, world: WorldView) -> Option<Action> {
        match self {
            Tile::Conveyor(t) => t.next_action(world),
            Tile::Router(t) => t.next_action(world),
            Tile::Extractor(t) => t.next_action(world),
            Tile::Factory(t) => t.next_action(world),
            Tile::Storage(t) => t.next_action(world),
            Tile::Portal(t) => t.next_action(),
            Tile::Junction(t) => t.next_action(world),
            Tile::Core(t) => t.next_action(),
        }
    }

    /// Whether the tile keeps away from the edge of the `i32` range of cells as
    /// far as its ticks need: a core or a portal never looks at another cell,
    /// so it may stand anywhere; every other tile stands off the edge.
    pub open spec fn stays_inside(self) -> bool {
        self is Core || self is Portal || self.pos().is_interior()
    }

    /// Whether the tile is a factory, a junction or an extractor: the kinds that
    /// take a delivered item in a way of their own rather than by `set_item`.
    pub open spec fn is_special(self) -> bool {
        self is Factory || self is Junction || self is Extractor
    }

    /// The step the tile asks for on the next tick.
    pub fn tick(&self, world: &WorldRes) -> (a: Option<Action>)
        requires
            self.tick_in_range(world@),
        ensures
            a == self.next_action(world@),
    {
        match self {
            Tile::Conveyor(t) => t.tick(world),
            Tile::Router(t) => t.tick(world),
            Tile::Extractor(t) => t.tick(world),
            Tile::Factory(t) => t.tick(world),
            Tile::Storage(t) => t.tick(world),
            Tile::Portal(t) => t.tick(world),
            Tile::Junction(t) => t.tick(world),
            Tile::Core(t) => t.tick(world),
        }
    }

    pub fn set_item(&mut self, item: Option<Item>)
        ensures
            *final(self) == old(self).with_item(item),
    {
        match self {
            Tile::Conveyor(t) => t.item = item,
            Tile::Router(t) => t.item = item,
            Tile::Extractor(t) => t.item = item,
            Tile::Factory(t) => t.item = item,
            Tile::Portal(t) => t.item = item,
            _ => {},
        }
    }

    pub fn get_item(&self) -> (i: Option<Item>)
        ensures
            i == self.held_item(),
    {
        match self {
            Tile::Conveyor(t) => t.item,
            Tile::Router(t) => t.item,
            Tile::Extractor(t) => t.item,
            Tile::Factory(t) => t.item,
            _ => None,
        }
    }

    /// The cell the tile stands on.
    pub fn position(&self) -> (p: Position)
        ensures
            p == self.pos(),
    {
        match self {
            Tile::Conveyor(t) => t.position,
            Tile::Router(t) => t.position,
            Tile::Extractor(t) => t.position,
            Tile::Factory(t) => t.position,
            Tile::Storage(t) => t.position,
            Tile::Portal(t) => t.position,
            Tile::Junction(t) => t.position,
            Tile::Core(t) => t.position,
        }
    }
}

/// A tile that keeps off the edge as far as its ticks need ticks in range.
pub proof fn lemma_interior_tick_in_range(t: Tile, world: WorldView)
    requires
        t.stays_inside(),
    ensures
        t.tick_in_range(world),
{
    match t {
        Tile::Router(r) => {
            reveal_with_fuel(Router::outputs_in_range, 4);
        },
        Tile::Junction(j) => {},
        _ => {},
    }
}

} // verus!
