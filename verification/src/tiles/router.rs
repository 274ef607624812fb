use vstd::prelude::*;

use crate::resources::{tile_in, WorldRes, WorldView};
use crate::tiles::Tile;
use crate::types::{Action, Direction, Item, Position, RouterOutputIndex};
use crate::utils::{
    rotate_direction_clockwise, rotate_direction_counterclockwise, rotated_clockwise,
    rotated_counterclockwise,
};

verus! {

/// Hands its item to the forward, right and left cells in turn.
#[derive(Clone, Copy, Debug)]
pub struct Router {
    pub position: Position,
    pub direction: Direction,
    pub item: Option<Item>,
    pub last_output: RouterOutputIndex,
}

/// The output after `o` in the round: forward, right, left, forward, ...
pub open spec fn next_output(o: RouterOutputIndex) -> RouterOutputIndex {
    match o {
        RouterOutputIndex::Forward => RouterOutputIndex::Right,
        RouterOutputIndex::Right => RouterOutputIndex::Left,
        RouterOutputIndex::Left => RouterOutputIndex::Forward,
    }
}

/// The direction of output `o` for a router facing `base`.
pub open spec fn output_direction(o: RouterOutputIndex, base: Direction) -> Direction {
    match o {
        RouterOutputIndex::Forward => base,
        RouterOutputIndex::Right => rotated_clockwise(base),
        RouterOutputIndex::Left => rotated_counterclockwise(base),
    }
}

/// Whether a router hands `item` to the tile `t` (none where no tile stands):
/// empty conveyors and routers, and factories with room for the item.
pub open spec fn router_accepts(t: Option<Tile>, item: Item) -> bool {
    match t {
        Some(Tile::Conveyor(c)) => c.item is None,
        Some(Tile::Router(r)) => r.item is None,
        Some(Tile::Factory(f)) => f.has_room_for(item),
        _ => false,
    }
}

/// Three steps of the round of outputs come back to where they started, and
/// the three outputs of a router lead in three different directions.
pub proof fn lemma_output_round(o: RouterOutputIndex, base: Direction)
    ensures
        next_output(next_output(next_output(o))) == o,
        next_output(o) != o,
        next_output(next_output(o)) != o,
        output_direction(o, base) != output_direction(next_output(o), base),
        output_direction(o, base) != output_direction(next_output(next_output(o)), base),
        output_direction(next_output(o), base) != output_direction(next_output(next_output(o)), base),
{
}

impl RouterOutputIndex {
    pub fn next(&self) -> (o: Self)
        ensures
            o == next_output(*self),
    {
        match self {
            RouterOutputIndex::Forward => RouterOutputIndex::Right,
            RouterOutputIndex::Right => RouterOutputIndex::Left,
            RouterOutputIndex::Left => RouterOutputIndex::Forward,
        }
    }

    pub fn to_direction(&self, base_direction: Direction) -> (d: Direction)
        ensures
            d == output_direction(*self, base_direction),
    {
        match self {
            RouterOutputIndex::Forward => base_direction,
            RouterOutputIndex::Right => rotate_direction_clockwise(base_direction),
            RouterOutputIndex::Left => rotate_direction_counterclockwise(base_direction),
        }
    }
}

impl Router {
    /// The move found when trying `remaining` outputs in turn starting at `o`.
    pub open spec fn try_outputs(self, world: WorldView, item: Item, o: RouterOutputIndex, remaining: nat) -> Option<Action>
        decreases remaining,
    {
        if remaining == 0 {
            None
        } else {
            let end = self.position.neighbor(output_direction(o, self.direction));
            if router_accepts(tile_in(world.tiles, end), item) {
                Some(Action::MoveRouter(self.position, end, item, o))
            } else {
                self.try_outputs(world, item, next_output(o), (remaining - 1) as nat)
            }
        }
    }

    /// Whether trying `remaining` outputs starting at `o` stays inside the `i32` range.
    pub open spec fn outputs_in_range(self, world: WorldView, item: Item, o: RouterOutputIndex, remaining: nat) -> bool
        decreases remaining,
    {
        if remaining == 0 {
            true
        } else {
            let d = output_direction(o, self.direction);
            &&& self.position.can_shift(d)
            &&& (router_accepts(tile_in(world.tiles, self.position.neighbor(d)), item)
                || self.outputs_in_range(world, item, next_output(o), (remaining - 1) as nat))
        }
    }

    pub open spec fn tick_in_range(self, world: WorldView) -> bool {
        match self.item {
            Some(item) => self.outputs_in_range(world, item, next_output(self.last_output), 3),
            None => true,
        }
    }

    /// A held item goes to the first of the next three outputs, after the last one
    /// used, that accepts it.
    pub open spec fn next_action(self, world: WorldView) -> Option<Action> {
        match self.item {
            Some(item) => self.try_outputs(world, item, next_output(self.last_output), 3),
            None => None,
        }
    }

    pub fn tick(&self, world: &WorldRes) -> (a: Option<Action>)
        requires
            self.tick_in_range(world@),
        ensures
            a == self.next_action(world@),
    {
        if let Some(item) = self.item {
            let mut out = self.last_output.next();
            let mut i: usize = 0;
            while i < 3
                invariant
                    i <= 3,
                    self.item == Some(item),
                    self.try_outputs(world@, item, out, (3 - i) as nat) == self.next_action(world@),
                    self.outputs_in_range(world@, item, out, (3 - i) as nat),
                decreases 3 - i,
            {
                let dir = out.to_direction(self.direction);
                let end_pos = self.position.shift(dir);
                let target = world.get_tile(end_pos);
                let can_accept = match target {
                    Some(Tile::Conveyor(c)) => c.item.is_none(),
                    Some(Tile::Router(r)) => r.item.is_none(),
                    Some(Tile::Factory(f)) => {
                        f.factory_type.capacity().get(item) > f.inventory.get(item)
                    },
                    _ => false,
                };
                assert(can_accept == router_accepts(tile_in(world.tiles@, end_pos), item));
                assert(self.try_outputs(world@, item, out, (3 - i) as nat) == if can_accept {
                    Some(Action::MoveRouter(self.position, end_pos, item, out))
                } else {
                    self.try_outputs(world@, item, next_output(out), (3 - i - 1) as nat)
                });
                if can_accept {
                    return Some(Action::MoveRouter(self.position, end_pos, item, out));
                }
                out = out.next();
                i = i + 1;
            }
        }
        None
    }
}

/// A router tries its outputs in the round forward, right, left, starting after
/// the one it used last, and hands its item to the first whose cell takes it
/// (an empty conveyor, an empty router, or a factory with room); when none of
/// the three takes it, or it holds nothing, it asks for nothing.
pub proof fn lemma_router_first_taker(r: Router, world: WorldView, item: Item)
    ensures
        ({
            let o1 = next_output(r.last_output);
            let o2 = next_output(o1);
            let o3 = next_output(o2);
            let c1 = r.position.neighbor(output_direction(o1, r.direction));
            let c2 = r.position.neighbor(output_direction(o2, r.direction));
            let c3 = r.position.neighbor(output_direction(o3, r.direction));
            let t1 = router_accepts(tile_in(world.tiles, c1), item);
            let t2 = router_accepts(tile_in(world.tiles, c2), item);
            let t3 = router_accepts(tile_in(world.tiles, c3), item);
            &&& r.item == Some(item) && t1 ==> r.next_action(world) == Some(
                Action::MoveRouter(r.position, c1, item, o1),
            )
            &&& r.item == Some(item) && !t1 && t2 ==> r.next_action(world) == Some(
                Action::MoveRouter(r.position, c2, item, o2),
            )
            &&& r.item == Some(item) && !t1 && !t2 && t3 ==> r.next_action(world) == Some(
                Action::MoveRouter(r.position, c3, item, o3),
            )
            &&& r.item == Some(item) && !t1 && !t2 && !t3 ==> r.next_action(world) is None
            &&& o3 == r.last_output
        }),
        r.item is None ==> r.next_action(world) is None,
{
    reveal_with_fuel(Router::try_outputs, 4);
}

/// What a router's neighbour takes: an empty conveyor or router takes any item,
/// a factory takes an item it has room for, and nothing else takes anything.
pub proof fn lemma_router_takers(t: Option<Tile>, item: Item)
    ensures
        router_accepts(t, item) <==> match t {
            Some(Tile::Conveyor(c)) => c.item is None,
            Some(Tile::Router(q)) => q.item is None,
            Some(Tile::Factory(f)) => f.inventory.count(item) < crate::tiles::factory::factory_capacity(
                f.factory_type,
                item,
            ),
            _ => false,
        },
{
}

} // verus!
