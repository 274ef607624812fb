use vstd::prelude::*;

use crate::resources::WorldRes;
use crate::types::{item_tile, Action, Item, Position};

verus! {

/// Turns a delivered item that is a placeable tile into a tile in the
/// player's resources.
#[derive(Clone, Copy, Debug)]
pub struct Portal {
    pub position: Position,
    pub item: Option<Item>,
}

impl Portal {
    pub open spec fn next_action(self) -> Option<Action> {
        match self.item {
            Some(item) => match item_tile(item) {
                Some(tile) => Some(Action::Teleport(self.position, tile)),
                None => None,
            },
            None => None,
        }
    }

    pub fn tick(&self, _world: &WorldRes) -> (a: Option<Action>)
        ensures
            a == self.next_action(),
    {
        if let Some(item) = self.item {
            if let Some(tile) = item.to_tile() {
                return Some(Action::Teleport(self.position, tile));
            }
        }
        None
    }
}

/// A portal turns a conveyor item into a tile of id (1, 1) and a router item
/// into a tile of id (1, 2); it does nothing with any other item or when empty.
pub proof fn lemma_portal_teleports_tiles(p: Portal)
    ensures
        p.item == Some(Item::Conveyor) ==> p.next_action() == Some(Action::Teleport(p.position, (1u8, 1u8))),
        p.item == Some(Item::Router) ==> p.next_action() == Some(Action::Teleport(p.position, (1u8, 2u8))),
        p.item is None || (p.item != Some(Item::Conveyor) && p.item != Some(Item::Router))
            ==> p.next_action() is None,
{
}

} // verus!
