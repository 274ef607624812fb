use std::collections::HashMap;
use vstd::prelude::*;
use vstd::std_specs::iter::IteratorSpec;

use crate::resources::{add_one, count_of, take_one, tile_id_key, WorldRes};
use crate::tiles::{Core, Tile};
use crate::types::{key_of, lemma_key_injective, Action, Direction, Position};
use crate::utils::{
    core_interval, get_new_tile, get_tile_core_interval, get_tile_price, new_tile, tile_price,
};
use crate::world::layout_ok;

verus! {

broadcast use vstd::std_specs::hash::group_hash_axioms;

/// The cell of the core, which the player can neither build on nor clear.
pub open spec fn core_cell() -> Position {
    Position { x: 0, y: 0 }
}

/// The cell a step starts from.
pub open spec fn action_origin(a: Action) -> Position {
    match a {
        Action::Move(p, _, _) => p,
        Action::MoveRouter(p, _, _, _) => p,
        Action::Produce(p) => p,
        Action::Teleport(p, _) => p,
        Action::IncreaseTicks(p) => p,
    }
}

/// `acts` without the steps that start from `pos`, in the same order.
pub open spec fn drop_actions_from(acts: Seq<Action>, pos: Position) -> Seq<Action>
    decreases acts.len(),
{
    if acts.len() == 0 {
        Seq::empty()
    } else {
        let prev = drop_actions_from(acts.drop_last(), pos);
        if action_origin(acts.last()) != pos {
            prev.push(acts.last())
        } else {
            prev
        }
    }
}

/// `after` holds at the core's cell exactly what `before` held there.
pub open spec fn keeps_core_cell(
    before: Map<u64, (Tile, (u8, u8))>,
    after: Map<u64, (Tile, (u8, u8))>,
) -> bool {
    &&& after.contains_key(key_of(core_cell())) == before.contains_key(key_of(core_cell()))
    &&& before.contains_key(key_of(core_cell())) ==> after[key_of(core_cell())] == before[key_of(
        core_cell(),
    )]
}

/// The cells that hold a tile of kind `id`.
pub open spec fn cells_with_id(tiles: Map<u64, (Tile, (u8, u8))>, id: (u8, u8)) -> Set<u64> {
    Set::new(|k: u64| tiles.contains_key(k) && tiles[k].1 == id)
}

/// How many tiles of kind `id` stand on the map.
pub open spec fn placed_count(tiles: Map<u64, (Tile, (u8, u8))>, id: (u8, u8)) -> nat {
    cells_with_id(tiles, id).len()
}

/// The tiles of kind `id` that the player has, owned and placed together.
pub open spec fn stock(resources: Map<u16, u32>, tiles: Map<u64, (Tile, (u8, u8))>, id: (u8, u8)) -> int {
    count_of(resources, id) + placed_count(tiles, id)
}

/// The resources after placing a tile of kind `tile_type` at `pos`: a tile
/// already there goes back to the inventory, and the new one comes out of it.
pub open spec fn placed_resources(
    resources: Map<u16, u32>,
    tiles: Map<u64, (Tile, (u8, u8))>,
    pos: Position,
    tile_type: (u8, u8),
) -> Map<u16, u32> {
    if tiles.contains_key(key_of(pos)) {
        take_one(add_one(resources, tiles[key_of(pos)].1), tile_type)
    } else {
        take_one(resources, tile_type)
    }
}

/// What a placement did.
#[derive(Clone, Copy, PartialEq, Eq, Structural, Debug)]
pub enum Placement {
    /// A new tile stands on a cell that was empty.
    Placed,
    /// The tile on the cell was exchanged for the new one.
    Replaced,
    /// The player owns no tile of that kind; nothing changed.
    Refused,
    /// The cell is the core's; nothing changed.
    CoreCell,
}

/// The steps that do not start from `pos`, in the same order.
pub fn actions_not_from(actions: &Vec<Action>, pos: Position) -> (r: Vec<Action>)
    ensures
        r@ == drop_actions_from(actions@, pos),
{
    let mut r: Vec<Action> = Vec::new();
    let mut i: usize = 0;
    while i < actions.len()
        invariant
            i <= actions.len(),
            r@ == drop_actions_from(actions@.take(i as int), pos),
        decreases actions.len() - i,
    {
        let a = actions[i];
        let origin = match a {
            Action::Move(p, _, _) => p,
            Action::MoveRouter(p, _, _, _) => p,
            Action::Produce(p) => p,
            Action::Teleport(p, _) => p,
            Action::IncreaseTicks(p) => p,
        };
        proof {
            assert(actions@.take(i + 1).drop_last() =~= actions@.take(i as int));
            assert(actions@.take(i + 1).last() == a);
        }
        if origin != pos {
            r.push(a);
        }
        i = i + 1;
    }
    proof {
        assert(actions@.take(actions.len() as int) =~= actions@);
    }
    r
}

impl WorldRes {
    /// Whether placing a tile of kind `tile_type` at `pos` is allowed: the player
    /// owns one, or the cell already holds a tile of that kind.
    pub open spec fn may_place(&self, pos: Position, tile_type: (u8, u8)) -> bool {
        ||| count_of(self.resources@, tile_type) >= 1
        ||| (self.tiles@.contains_key(key_of(pos)) && self.tiles@[key_of(pos)].1 == tile_type)
    }

    /// Places a fresh tile of kind `tile_type` at `pos` facing `direction`. A tile
    /// already there goes back to the player's resources. The new tile costs one
    /// of its kind, and the planned steps that start from `pos` are dropped. The
    /// core's cell is left alone.
    pub fn place_tile(&mut self, pos: Position, tile_type: (u8, u8), direction: Direction) -> (r:
        Placement)
        requires
            pos != core_cell() && old(self).tiles@.contains_key(key_of(pos)) && old(self).may_place(
                pos,
                tile_type,
            ) ==> count_of(old(self).resources@, old(self).tiles@[key_of(pos)].1) < u32::MAX,
        ensures
            final(self).same_map_rest(old(self)),
            keeps_core_cell(old(self).tiles@, final(self).tiles@),
            forall|id: (u8, u8)|
                #[trigger] stock(final(self).resources@, final(self).tiles@, id) == stock(
                    old(self).resources@,
                    old(self).tiles@,
                    id,
                ),
            pos == core_cell() ==> r == Placement::CoreCell && *final(self) == *old(self),
            pos != core_cell() && !old(self).may_place(pos, tile_type) ==> r == Placement::Refused
                && *final(self) == *old(self),
            pos != core_cell() && old(self).may_place(pos, tile_type) ==> {
                &&& final(self).tiles@ == old(self).tiles@.insert(
                    key_of(pos),
                    (new_tile(tile_type, pos, direction), tile_type),
                )
                &&& final(self).actions@ == drop_actions_from(old(self).actions@, pos)
                &&& final(self).resources@ == placed_resources(
                    old(self).resources@,
                    old(self).tiles@,
                    pos,
                    tile_type,
                )
                &&& if old(self).tiles@.contains_key(key_of(pos)) {
                    &&& r == Placement::Replaced
                    &&& final(self).resources@ == take_one(
                        add_one(old(self).resources@, old(self).tiles@[key_of(pos)].1),
                        tile_type,
                    )
                } else {
                    &&& r == Placement::Placed
                    &&& final(self).resources@ == take_one(old(self).resources@, tile_type)
                }
            },
    {
        if pos == Position::new(0, 0) {
            return Placement::CoreCell;
        }
        proof {
            if key_of(pos) == key_of(core_cell()) {
                lemma_key_injective(pos, core_cell());
            }
        }
        let ghost old_resources = self.resources@;
        let ghost old_tiles = self.tiles@;
        let k = pos.get_as_key();
        let current = match self.tiles.get(&k) {
            Some(entry) => Some(entry.1),
            None => None,
        };
        let owned = self.resource_count(tile_type);
        match current {
            Some(current_id) => {
                if owned >= 1 || (tile_type.0 == current_id.0 && tile_type.1 == current_id.1) {
                    self.add_resource(current_id);
                    proof {
                        if tile_type == current_id {
                            assert(count_of(self.resources@, tile_type) >= 1);
                        } else {
                            assert(crate::resources::tile_id_key(tile_type)
                                != crate::resources::tile_id_key(current_id)) by {
                                if crate::resources::tile_id_key(tile_type)
                                    == crate::resources::tile_id_key(current_id) {
                                    crate::resources::lemma_tile_id_key_injective(
                                        tile_type,
                                        current_id,
                                    );
                                }
                            }
                        }
                    }
                    self.take_resource(tile_type);
                    let new_entry = get_new_tile(tile_type, pos, direction);
                    self.tiles.insert(k, new_entry);
                    self.actions = actions_not_from(&self.actions, pos);
                    proof {
                        assert forall|id: (u8, u8)| #[trigger] stock(self.resources@, self.tiles@, id)
                            == stock(old_resources, old_tiles, id) by {
                            lemma_place_moves_stock(
                                old_resources,
                                old_tiles,
                                pos,
                                tile_type,
                                new_entry.0,
                                id,
                            );
                        }
                    }
                    Placement::Replaced
                } else {
                    Placement::Refused
                }
            },
            None => {
                if owned >= 1 {
                    self.take_resource(tile_type);
                    let new_entry = get_new_tile(tile_type, pos, direction);
                    self.tiles.insert(k, new_entry);
                    self.actions = actions_not_from(&self.actions, pos);
                    proof {
                        assert forall|id: (u8, u8)| #[trigger] stock(self.resources@, self.tiles@, id)
                            == stock(old_resources, old_tiles, id) by {
                            lemma_place_moves_stock(
                                old_resources,
                                old_tiles,
                                pos,
                                tile_type,
                                new_entry.0,
                                id,
                            );
                        }
                    }
                    Placement::Placed
                } else {
                    Placement::Refused
                }
            },
        }
    }

    /// The fields that placing and clearing tiles leave alone are equal.
    pub open spec fn same_map_rest(&self, other: &WorldRes) -> bool {
        &&& self.terrain == other.terrain
        &&& self.world_seed == other.world_seed
        &&& self.tick_count == other.tick_count
        &&& self.money == other.money
    }

    /// Clears the tile at `pos` and gives it back to the player's resources. The
    /// core's cell is left alone. Returns whether a tile was cleared.
    pub fn remove_tile(&mut self, pos: Position) -> (removed: bool)
        requires
            pos != core_cell() && old(self).tiles@.contains_key(key_of(pos)) ==> count_of(
                old(self).resources@,
                old(self).tiles@[key_of(pos)].1,
            ) < u32::MAX,
        ensures
            final(self).same_map_rest(old(self)),
            keeps_core_cell(old(self).tiles@, final(self).tiles@),
            forall|id: (u8, u8)|
                #[trigger] stock(final(self).resources@, final(self).tiles@, id) == stock(
                    old(self).resources@,
                    old(self).tiles@,
                    id,
                ),
            final(self).actions == old(self).actions,
            removed == (pos != core_cell() && old(self).tiles@.contains_key(key_of(pos))),
            removed ==> final(self).tiles@ == old(self).tiles@.remove(key_of(pos))
                && final(self).resources@ == add_one(
                old(self).resources@,
                old(self).tiles@[key_of(pos)].1,
            ),
            !removed ==> *final(self) == *old(self),
    {
        if pos == Position::new(0, 0) {
            return false;
        }
        proof {
            if key_of(pos) == key_of(core_cell()) {
                lemma_key_injective(pos, core_cell());
            }
        }
        let k = pos.get_as_key();
        if !self.tiles.contains_key(&k) {
            return false;
        }
        let ghost old_resources = self.resources@;
        let ghost old_tiles = self.tiles@;
        match self.tiles.remove(&k) {
            Some(entry) => {
                self.add_resource(entry.1);
                proof {
                    assert forall|id: (u8, u8)| #[trigger] stock(self.resources@, self.tiles@, id)
                        == stock(old_resources, old_tiles, id) by {
                        lemma_remove_moves_stock(old_resources, old_tiles, pos, id);
                    }
                }
                true
            },
            None => false,
        }
    }

    /// Buys one tile of kind `tile_type` when the player has the money. Returns
    /// whether the purchase happened.
    pub fn buy_tile(&mut self, tile_type: (u8, u8)) -> (bought: bool)
        requires
            old(self).money >= tile_price(tile_type) ==> count_of(old(self).resources@, tile_type)
                < u32::MAX,
        ensures
            bought == (old(self).money >= tile_price(tile_type)),
            bought ==> final(self).money == old(self).money - tile_price(tile_type)
                && final(self).resources@ == add_one(old(self).resources@, tile_type),
            !bought ==> *final(self) == *old(self),
            final(self).tiles == old(self).tiles,
            final(self).actions == old(self).actions,
            final(self).terrain == old(self).terrain,
            final(self).tick_count == old(self).tick_count,
            final(self).world_seed == old(self).world_seed,
    {
        let price = get_tile_price(tile_type);
        if self.money >= price {
            self.money = self.money - price;
            self.add_resource(tile_type);
            true
        } else {
            false
        }
    }

    /// Sells one tile of kind `tile_type` when the player owns one. Returns whether
    /// the sale happened.
    pub fn sell_tile(&mut self, tile_type: (u8, u8)) -> (sold: bool)
        requires
            count_of(old(self).resources@, tile_type) >= 1 ==> old(self).money + tile_price(
                tile_type,
            ) <= u32::MAX,
        ensures
            sold == (count_of(old(self).resources@, tile_type) >= 1),
            sold ==> final(self).money == old(self).money + tile_price(tile_type)
                && final(self).resources@ == take_one(old(self).resources@, tile_type),
            !sold ==> *final(self) == *old(self),
            final(self).tiles == old(self).tiles,
            final(self).actions == old(self).actions,
            final(self).terrain == old(self).terrain,
            final(self).tick_count == old(self).tick_count,
            final(self).world_seed == old(self).world_seed,
    {
        if self.resource_count(tile_type) >= 1 {
            self.money = self.money + get_tile_price(tile_type);
            self.take_resource(tile_type);
            true
        } else {
            false
        }
    }

    /// Makes the core at `pos` produce tiles of kind `tile_type`, at that kind's
    /// pace, counting from zero again. Returns whether a core stands at `pos`.
    pub fn set_core_output(&mut self, pos: Position, tile_type: (u8, u8)) -> (set: bool)
        ensures
            set == (old(self).tile_at(pos) matches Some(Tile::Core(_))),
            set ==> final(self).tiles@ == old(self).tiles@.insert(
                key_of(pos),
                (
                    Tile::Core(
                        Core {
                            tile_id: tile_type,
                            interval: core_interval(tile_type),
                            ticks: 0,
                            ..old(self).tiles@[key_of(pos)].0->Core_0
                        },
                    ),
                    old(self).tiles@[key_of(pos)].1,
                ),
            ),
            !set ==> *final(self) == *old(self),
            final(self).resources == old(self).resources,
            final(self).same_rest(old(self)),
    {
        let k = pos.get_as_key();
        let entry = match self.tiles.get(&k) {
            Some(e) => *e,
            None => return false,
        };
        match entry.0 {
            Tile::Core(core) => {
                let interval = get_tile_core_interval(tile_type);
                self.tiles.insert(
                    k,
                    (Tile::Core(Core { tile_id: tile_type, interval, ticks: 0, ..core }), entry.1),
                );
                true
            },
            _ => false,
        }
    }
}

impl WorldRes {
    /// The tile id that the core at `pos` makes, or (0, 1) where no core
    /// stands there.
    pub fn core_output(&self, pos: Position) -> (id: (u8, u8))
        ensures
            id == match self.tile_at(pos) {
                Some(Tile::Core(c)) => c.tile_id,
                _ => (0u8, 1u8),
            },
    {
        match self.get_tile(pos) {
            Some(Tile::Core(c)) => c.tile_id,
            _ => (0, 1),
        }
    }

    /// The tile ids of `category` that the player owns, each with its count,
    /// in the order in which the resources map is walked.
    pub fn owned_tiles(&self, category: u8) -> (v: Vec<((u8, u8), u32)>)
        ensures
            v@.no_duplicates(),
            forall|e: ((u8, u8), u32)|
                v@.contains(e) <==> (e.0.0 == category && e.1 == count_of(self.resources@, e.0)
                    && e.1 > 0),
    {
        let mut v: Vec<((u8, u8), u32)> = Vec::new();
        let ghost res = self.resources@;
        let ghost ks = vstd::std_specs::hash::spec_keys_iter(&self.resources).remaining().unref();
        proof {
            broadcast use vstd::std_specs::hash::axiom_spec_keys_iter;
        }
        for k in it: self.resources.keys()
            invariant
                res == self.resources@,
                ks.to_set() == res.dom(),
                ks.no_duplicates(),
                it.seq().unref() == ks,
                v@.no_duplicates(),
                forall|e: ((u8, u8), u32)| #[trigger]
                    v@.contains(e) <==> (ks.take(it.index() as int).contains(tile_id_key(e.0))
                        && e.0.0 == category && e.1 == count_of(res, e.0) && e.1 > 0),
        {
            let ghost before = ks.take(it.index() as int);
            let ghost vb = v@;
            proof {
                assert(ks.take(it.index() + 1) =~= before.push(*k));
                assert(ks.contains(*k));
                assert(res.dom().contains(*k));
            }
            let id: (u8, u8) = ((*k / 256) as u8, (*k % 256) as u8);
            proof {
                assert(tile_id_key(id) == *k);
            }
            let n = match self.resources.get(k) {
                Some(n) => *n,
                None => 0,
            };
            if id.0 == category && n > 0 {
                proof {
                    if vb.contains((id, n)) {
                        assert(before.contains(*k));
                        let a = choose|a: int| 0 <= a < before.len() && before[a] == *k;
                        assert(ks[a] == ks[it.index() as int]);
                    }
                }
                v.push((id, n));
            }
            proof {
                assert forall|e: ((u8, u8), u32)| #[trigger]
                    v@.contains(e) <==> (ks.take(it.index() + 1).contains(tile_id_key(e.0))
                        && e.0.0 == category && e.1 == count_of(res, e.0) && e.1 > 0) by {
                    let j = tile_id_key(e.0);
                    if j == *k {
                        crate::resources::lemma_tile_id_key_injective(e.0, id);
                        assert(before.push(*k)[before.len() as int] == j);
                    } else if before.contains(j) {
                        let a = choose|a: int| 0 <= a < before.len() && before[a] == j;
                        assert(before.push(*k)[a] == j);
                    } else if before.push(*k).contains(j) {
                        let a = choose|a: int| 0 <= a < before.len() + 1 && before.push(*k)[a] == j;
                        assert(before[a] == j);
                    }
                    if v@.contains(e) && !vb.contains(e) {
                        let a = choose|a: int| 0 <= a < v@.len() && v@[a] == e;
                        if a < vb.len() {
                            assert(vb[a] == e);
                        }
                    }
                    if vb.contains(e) {
                        let a = choose|a: int| 0 <= a < vb.len() && vb[a] == e;
                        assert(v@[a] == e);
                    }
                    if e == (id, n) && id.0 == category && n > 0 {
                        assert(v@[vb.len() as int] == e);
                    }
                }
            }
        }
        proof {
            assert(ks.take(ks.len() as int) =~= ks);
            assert forall|e: ((u8, u8), u32)|
                v@.contains(e) <==> (e.0.0 == category && e.1 == count_of(res, e.0)
                    && e.1 > 0) by {
                if res.contains_key(tile_id_key(e.0)) {
                    assert(ks.to_set().contains(tile_id_key(e.0)));
                }
            }
        }
        v
    }
}

/// Buying a tile and then selling it gives back the money and leaves the count of
/// every kind of tile as it was: the purchase leaves a tile to sell and room for
/// the money it brings, and both use the same price. Buying needs room for one
/// more tile of the kind below the `u32` limit.
pub proof fn lemma_buy_then_sell(
    money: u32,
    resources: Map<u16, u32>,
    tile_type: (u8, u8),
    other: (u8, u8),
)
    requires
        money >= tile_price(tile_type),
        count_of(resources, tile_type) < u32::MAX,
    ensures
        count_of(add_one(resources, tile_type), tile_type) >= 1,
        (money - tile_price(tile_type)) + tile_price(tile_type) <= u32::MAX,
        (money - tile_price(tile_type)) + tile_price(tile_type) == money,
        count_of(take_one(add_one(resources, tile_type), tile_type), other) == count_of(
            resources,
            other,
        ),
{
    if crate::resources::tile_id_key(other) == crate::resources::tile_id_key(tile_type) {
        crate::resources::lemma_tile_id_key_injective(other, tile_type);
    }
}

proof fn lemma_placed_count_insert(
    tiles: Map<u64, (Tile, (u8, u8))>,
    k: u64,
    e: (Tile, (u8, u8)),
    id: (u8, u8),
)
    requires
        tiles.dom().finite(),
    ensures
        placed_count(tiles.insert(k, e), id) + (if tiles.contains_key(k) && tiles[k].1 == id {
            1int
        } else {
            0int
        }) == placed_count(tiles, id) + (if e.1 == id {
            1int
        } else {
            0int
        }),
{
    let f = cells_with_id(tiles, id);
    vstd::set_lib::lemma_len_subset(f, tiles.dom());
    let base = f.remove(k);
    if e.1 == id {
        assert(cells_with_id(tiles.insert(k, e), id) =~= base.insert(k));
    } else {
        assert(cells_with_id(tiles.insert(k, e), id) =~= base);
    }
}

proof fn lemma_placed_count_remove(tiles: Map<u64, (Tile, (u8, u8))>, k: u64, id: (u8, u8))
    requires
        tiles.dom().finite(),
    ensures
        placed_count(tiles.remove(k), id) + (if tiles.contains_key(k) && tiles[k].1 == id {
            1int
        } else {
            0int
        }) == placed_count(tiles, id),
{
    let f = cells_with_id(tiles, id);
    vstd::set_lib::lemma_len_subset(f, tiles.dom());
    assert(cells_with_id(tiles.remove(k), id) =~= f.remove(k));
}

/// Placing a tile only moves tiles between the inventory and the map: for every
/// kind, the tiles owned and the tiles placed add up to what they did before,
/// and no count drops below zero.
pub proof fn lemma_place_moves_stock(
    resources: Map<u16, u32>,
    tiles: Map<u64, (Tile, (u8, u8))>,
    pos: Position,
    tile_type: (u8, u8),
    t: Tile,
    id: (u8, u8),
)
    requires
        tiles.dom().finite(),
        count_of(resources, tile_type) >= 1 || (tiles.contains_key(key_of(pos)) && tiles[key_of(
            pos,
        )].1 == tile_type),
        tiles.contains_key(key_of(pos)) ==> count_of(resources, tiles[key_of(pos)].1) < u32::MAX,
    ensures
        stock(
            placed_resources(resources, tiles, pos, tile_type),
            tiles.insert(key_of(pos), (t, tile_type)),
            id,
        ) == stock(resources, tiles, id),
{
    let kp = key_of(pos);
    lemma_placed_count_insert(tiles, kp, (t, tile_type), id);
    let same_new = crate::resources::tile_id_key(id) == crate::resources::tile_id_key(tile_type);
    if same_new {
        crate::resources::lemma_tile_id_key_injective(id, tile_type);
    }
    if tiles.contains_key(kp) {
        let cur = tiles[kp].1;
        if crate::resources::tile_id_key(id) == crate::resources::tile_id_key(cur) {
            crate::resources::lemma_tile_id_key_injective(id, cur);
        }
        if crate::resources::tile_id_key(tile_type) == crate::resources::tile_id_key(cur) {
            crate::resources::lemma_tile_id_key_injective(tile_type, cur);
        }
    }
}

/// Clearing a tile only moves it from the map back into the inventory: for
/// every kind, the tiles owned and the tiles placed add up to what they did
/// before.
pub proof fn lemma_remove_moves_stock(
    resources: Map<u16, u32>,
    tiles: Map<u64, (Tile, (u8, u8))>,
    pos: Position,
    id: (u8, u8),
)
    requires
        tiles.dom().finite(),
        tiles.contains_key(key_of(pos)),
        count_of(resources, tiles[key_of(pos)].1) < u32::MAX,
    ensures
        stock(add_one(resources, tiles[key_of(pos)].1), tiles.remove(key_of(pos)), id) == stock(
            resources,
            tiles,
            id,
        ),
{
    let kp = key_of(pos);
    lemma_placed_count_remove(tiles, kp, id);
    let cur = tiles[kp].1;
    if crate::resources::tile_id_key(id) == crate::resources::tile_id_key(cur) {
        crate::resources::lemma_tile_id_key_injective(id, cur);
    }
}

/// Placing a tile keeps every tile stored under the key of its own cell; where the
/// new tile has the room from the edge that its ticks need, the world stays well
/// laid out.
pub proof fn lemma_place_keeps_layout(
    tiles: Map<u64, (Tile, (u8, u8))>,
    resources: Map<u16, u32>,
    pos: Position,
    tile_type: (u8, u8),
    direction: Direction,
)
    requires
        layout_ok(crate::world::WorldState { tiles, resources }),
        new_tile(tile_type, pos, direction).stays_inside(),
    ensures
        layout_ok(
            crate::world::WorldState {
                tiles: tiles.insert(key_of(pos), (new_tile(tile_type, pos, direction), tile_type)),
                resources,
            },
        ),
{
    let t2 = tiles.insert(key_of(pos), (new_tile(tile_type, pos, direction), tile_type));
    assert(new_tile(tile_type, pos, direction).pos() == pos);
    assert forall|k: u64| t2.contains_key(k) implies key_of(#[trigger] t2[k].0.pos()) == k
        && t2[k].0.stays_inside() by {
        if k != key_of(pos) {
            assert(tiles.contains_key(k));
            assert(t2[k] == tiles[k]);
            let s = crate::world::WorldState { tiles, resources };
            assert(s.tiles[k] == tiles[k]);
        }
    }
}

/// Which hotkey selects which tile id.
pub struct Hotkeys {
    pub mappings: HashMap<u8, (u8, u8)>,
}

impl Hotkeys {
    /// No hotkey is assigned.
    pub fn new() -> (h: Self)
        ensures
            h.mappings@ == Map::<u8, (u8, u8)>::empty(),
    {
        Hotkeys { mappings: HashMap::new() }
    }

    /// Makes `key` select `tile_type`.
    pub fn assign(&mut self, key: u8, tile_type: (u8, u8))
        ensures
            final(self).mappings@ == old(self).mappings@.insert(key, tile_type),
    {
        self.mappings.insert(key, tile_type);
    }

    /// The tile id `key` selects, if any.
    pub fn get(&self, key: u8) -> (t: Option<(u8, u8)>)
        ensures
            t == (if self.mappings@.contains_key(key) {
                Some(self.mappings@[key])
            } else {
                None
            }),
    {
        match self.mappings.get(&key) {
            Some(t) => Some(*t),
            None => None,
        }
    }
}

/// After `key` is assigned `tile_type`, looking `key` up gives `tile_type`, and
/// every other key gives what it gave before.
pub proof fn lemma_hotkey_assign_get(m: Map<u8, (u8, u8)>, key: u8, tile_type: (u8, u8), other: u8)
    ensures
        m.insert(key, tile_type)[key] == tile_type,
        other != key ==> (m.insert(key, tile_type).contains_key(other) == m.contains_key(other)
            && (m.contains_key(other) ==> m.insert(key, tile_type)[other] == m[other])),
{
}

} // verus!
