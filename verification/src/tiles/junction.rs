use vstd::prelude::*;

use crate::resources::{tile_in, WorldRes, WorldView};
use crate::types::{Action, Direction, Item, Position};
use crate::utils::{can_tile_accept_item, tile_accepts};

verus! {

broadcast use vstd::std_specs::hash::group_hash_axioms;

/// A crossing that lets one horizontal and one vertical item pass straight through.
/// Each held item is stored with the direction it came in from.
#[derive(Clone, Copy, Debug)]
pub struct Junction {
    pub position: Position,
    pub horizontal_item: Option<(Item, Direction)>,
    pub vertical_item: Option<(Item, Direction)>,
}

impl Junction {
    /// Whether the tile at the neighbour in `out` takes `item`.
    pub open spec fn target_accepts(self, world: WorldView, item: Item, out: Direction) -> bool {
        match tile_in(world.tiles, self.position.neighbor(out)) {
            Some(t) => tile_accepts(t, item),
            None => false,
        }
    }

    /// The move of `item` out through `out`, when the target takes it.
    pub open spec fn pass(self, world: WorldView, item: Item, out: Direction) -> Option<Action> {
        if self.target_accepts(world, item, out) {
            Some(Action::Move(self.position, self.position.neighbor(out), item))
        } else {
            None
        }
    }

    /// The step asked for by the vertical lane.
    pub open spec fn vertical_action(self, world: WorldView) -> Option<Action> {
        match self.vertical_item {
            Some((item, Direction::Down)) => self.pass(world, item, Direction::Up),
            Some((item, Direction::Up)) => self.pass(world, item, Direction::Down),
            _ => None,
        }
    }

    pub open spec fn vertical_in_range(self) -> bool {
        match self.vertical_item {
            Some((_, Direction::Down)) => self.position.can_shift(Direction::Up),
            Some((_, Direction::Up)) => self.position.can_shift(Direction::Down),
            _ => true,
        }
    }

    pub open spec fn tick_in_range(self, world: WorldView) -> bool {
        match self.horizontal_item {
            Some((item, Direction::Left)) => self.position.can_shift(Direction::Right) && (
            self.target_accepts(world, item, Direction::Right) || self.vertical_in_range()),
            Some((item, Direction::Right)) => self.position.can_shift(Direction::Left) && (
            self.target_accepts(world, item, Direction::Left) || self.vertical_in_range()),
            Some(_) => true,
            None => self.vertical_in_range(),
        }
    }

    /// The horizontal item passes straight on when the target takes it; otherwise
    /// the vertical item does. A horizontal item that came in vertically, or a
    /// vertical one that came in horizontally, blocks the junction.
    pub open spec fn next_action(self, world: WorldView) -> Option<Action> {
        match self.horizontal_item {
            Some((item, Direction::Left)) => if self.target_accepts(world, item, Direction::Right) {
                self.pass(world, item, Direction::Right)
            } else {
                self.vertical_action(world)
            },
            Some((item, Direction::Right)) => if self.target_accepts(world, item, Direction::Left) {
                self.pass(world, item, Direction::Left)
            } else {
                self.vertical_action(world)
            },
            Some(_) => None,
            None => self.vertical_action(world),
        }
    }

    pub fn tick(&self, world: &WorldRes) -> (a: Option<Action>)
        requires
            self.tick_in_range(world@),
        ensures
            a == self.next_action(world@),
    {
        if let Some((item, input_dir)) = self.horizontal_item {
            let output = match input_dir {
                Direction::Left => Direction::Right,
                Direction::Right => Direction::Left,
                _ => return None,
            };
            let end_pos = self.position.shift(output);
            let k = end_pos.get_as_key();
            if let Some(entry) = world.tiles.get(&k) {
                if can_tile_accept_item(entry, item) {
                    return Some(Action::Move(self.position, end_pos, item));
                }
            }
        }
        if let Some((item, input_dir)) = self.vertical_item {
            let output = match input_dir {
                Direction::Down => Direction::Up,
                Direction::Up => Direction::Down,
                _ => return None,
            };
            let end_pos = self.position.shift(output);
            let k = end_pos.get_as_key();
            if let Some(entry) = world.tiles.get(&k) {
                if can_tile_accept_item(entry, item) {
                    return Some(Action::Move(self.position, end_pos, item));
                }
            }
        }
        None
    }
}

/// A junction passes each item straight on through the lane it came in by.
/// With its horizontal lane empty, an item that came in from below (above)
/// moves up (down) to the next cell whenever the tile there takes it; an item
/// that came in from the left (right) moves right (left) whenever the tile
/// there takes it.
pub proof fn lemma_junction_passes_straight_on(j: Junction, world: WorldView, item: Item, from: Direction)
    ensures
        ({
            let out = match from {
                Direction::Down => Direction::Up,
                Direction::Up => Direction::Down,
                Direction::Left => Direction::Right,
                Direction::Right => Direction::Left,
            };
            let end = j.position.neighbor(out);
            let takes = match tile_in(world.tiles, end) {
                Some(t) => tile_accepts(t, item),
                None => false,
            };
            &&& (j.horizontal_item is None && (from == Direction::Down || from == Direction::Up)
                && j.vertical_item == Some((item, from)) && takes) ==> j.next_action(world)
                == Some(Action::Move(j.position, end, item))
            &&& (j.horizontal_item == Some((item, from)) && (from == Direction::Left || from
                == Direction::Right) && takes) ==> j.next_action(world) == Some(
                Action::Move(j.position, end, item),
            )
        }),
{
}

} // verus!
