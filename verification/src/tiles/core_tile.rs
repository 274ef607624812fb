use vstd::prelude::*;

use crate::resources::WorldRes;
use crate::types::{Action, Position};

verus! {

/// The central building: every `interval` ticks it adds one tile of kind
/// `tile_id` to the player's resources.
#[derive(Clone, Copy, Debug)]
pub struct Core {
    pub position: Position,
    pub interval: u32,
    pub ticks: u32,
    pub tile_id: (u8, u8),
}

impl Core {
    pub open spec fn next_action(self) -> Option<Action> {
        if self.ticks >= self.interval {
            Some(Action::Teleport(self.position, self.tile_id))
        } else {
            Some(Action::IncreaseTicks(self.position))
        }
    }

    pub fn tick(&self, _world: &WorldRes) -> (a: Option<Action>)
        ensures
            a == self.next_action(),
    {
        if self.ticks >= self.interval {
            Some(Action::Teleport(self.position, self.tile_id))
        } else {
            Some(Action::IncreaseTicks(self.position))
        }
    }
}

/// A core counts its ticks up to its interval, one per tick, and once the
/// count has reached the interval it hands out one tile of the kind it makes.
pub proof fn lemma_core_counts_then_delivers(c: Core)
    ensures
        c.ticks < c.interval ==> c.next_action() == Some(Action::IncreaseTicks(c.position)),
        c.ticks >= c.interval ==> c.next_action() == Some(Action::Teleport(c.position, c.tile_id)),
{
}

} // verus!
