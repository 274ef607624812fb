use vstd::prelude::*;

use crate::resources::{WorldRes, WorldView};
use crate::types::{key_of, Action, Direction, Item, Position};

verus! {

broadcast use vstd::std_specs::hash::group_hash_axioms;

/// A belt that carries one item towards the cell it faces.
#[derive(Clone, Copy, Debug)]
pub struct Conveyor {
    pub position: Position,
    pub direction: Direction,
    pub item: Option<Item>,
}

impl Conveyor {
    pub open spec fn tick_in_range(self) -> bool {
        self.position.can_shift(self.direction)
    }

    /// A carried item moves to the faced cell when a tile stands there.
    pub open spec fn next_action(self, world: WorldView) -> Option<Action> {
        let end = self.position.neighbor(self.direction);
        if world.tiles.contains_key(key_of(end)) && self.item is Some {
            Some(Action::Move(self.position, end, self.item->0))
        } else {
            None
        }
    }

    pub fn tick(&self, world: &WorldRes) -> (a: Option<Action>)
        requires
            self.tick_in_range(),
        ensures
            a == self.next_action(world@),
    {
        let end_position = self.position.shift(self.direction);
        if world.has_tile(end_position) {
            if let Some(item) = self.item {
                return Some(Action::Move(self.position, end_position, item));
            }
        }
        None
    }
}

/// A conveyor carrying an item asks to move it one cell on, to the cell it
/// faces, whenever a tile stands there; an empty conveyor, or one facing an
/// empty cell, asks for nothing.
pub proof fn lemma_conveyor_carries_forward(c: Conveyor, world: WorldView, item: Item)
    ensures
        c.item == Some(item) && world.tiles.contains_key(key_of(c.position.neighbor(c.direction)))
            ==> c.next_action(world) == Some(
            Action::Move(c.position, c.position.neighbor(c.direction), item),
        ),
        c.item is None ==> c.next_action(world) is None,
        !world.tiles.contains_key(key_of(c.position.neighbor(c.direction))) ==> c.next_action(
            world,
        ) is None,
{
}

} // verus!
