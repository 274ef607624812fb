use std::collections::HashMap;
use vstd::prelude::*;
use vstd::std_specs::iter::IteratorSpec;

use crate::resources::{add_one, count_of, tile_in, WorldRes, WorldView};
use crate::tiles::extractor::extractor_item;
use crate::tiles::factory::{lemma_consume_all_count, recipe_input, recipe_output};
use crate::tiles::router::next_output;
use crate::tiles::{Conveyor, Core, Extractor, Factory, Junction, Portal, Router, Tile};
use crate::tiles::lemma_interior_tick_in_range;
use crate::types::{key_of, Action, Direction, Item, Position, RouterOutputIndex};
use crate::utils::{actions_in_range, is_move_schedule, produce_in_range, sort_moves_topologically};

verus! {

broadcast use vstd::std_specs::hash::group_hash_axioms;

/// The part of the world that performing steps reads and changes.
pub struct WorldState {
    pub tiles: Map<u64, (Tile, (u8, u8))>,
    pub resources: Map<u16, u32>,
}

impl WorldRes {
    pub open spec fn state(&self) -> WorldState {
        WorldState { tiles: self.tiles@, resources: self.resources@ }
    }
}

/// Who hands over a delivered item, which decides how the sending tile is emptied.
#[derive(Clone, Copy, PartialEq, Eq, Structural, Debug)]
pub enum Sender {
    /// A plain move: the sending tile's slot, or the junction lane the item left by, empties.
    Tile,
    /// A router: it empties and advances its output when the item went to a plain tile.
    Router,
    /// A producing factory or extractor: its output slot empties.
    Producer,
}

/// `s` with the tile at `p` replaced by `t`, keeping the tile id.
pub open spec fn put(s: WorldState, p: Position, t: Tile) -> WorldState {
    WorldState { tiles: s.tiles.insert(key_of(p), (t, s.tiles[key_of(p)].1)), ..s }
}

/// The tile an item left from `start` towards `end`: its slot is emptied, and for a
/// junction the lane along the move.
pub open spec fn left_behind(t: Tile, start: Position, end: Position) -> Tile {
    match t.with_item(None) {
        Tile::Junction(j) => if start.x != end.x {
            Tile::Junction(Junction { horizontal_item: None, ..j })
        } else if start.y != end.y {
            Tile::Junction(Junction { vertical_item: None, ..j })
        } else {
            Tile::Junction(j)
        },
        other => other,
    }
}

/// Empties the tile at `start` after a plain move to `end`.
pub open spec fn clear_source(s: WorldState, start: Position, end: Position) -> WorldState {
    match tile_in(s.tiles, start) {
        Some(t) => put(s, start, left_behind(t, start, end)),
        None => s,
    }
}

/// Empties the slot of the tile at `start`.
pub open spec fn empty_source(s: WorldState, start: Position) -> WorldState {
    match tile_in(s.tiles, start) {
        Some(t) => put(s, start, t.with_item(None)),
        None => s,
    }
}

/// Empties the router at `start` and advances its output.
pub open spec fn release_router(s: WorldState, start: Position) -> WorldState {
    match tile_in(s.tiles, start) {
        Some(Tile::Router(r)) => put(
            s,
            start,
            Tile::Router(Router { item: None, last_output: next_output(r.last_output), ..r }),
        ),
        _ => s,
    }
}

/// The world after an item reached a tile that stores it with `set_item`.
pub open spec fn after_plain_delivery(
    s: WorldState,
    start: Position,
    end: Position,
    sender: Sender,
) -> WorldState {
    match sender {
        Sender::Tile => clear_source(s, start, end),
        Sender::Router => release_router(s, start),
        Sender::Producer => empty_source(s, start),
    }
}

/// The world after an item reached a factory or the horizontal lane of a junction.
pub open spec fn after_factory_delivery(
    s: WorldState,
    start: Position,
    end: Position,
    sender: Sender,
) -> WorldState {
    match sender {
        Sender::Tile => clear_source(s, start, end),
        Sender::Router => s,
        Sender::Producer => empty_source(s, start),
    }
}

/// The world after an item reached the horizontal lane of a junction.
pub open spec fn after_horizontal_delivery(
    s: WorldState,
    start: Position,
    end: Position,
    sender: Sender,
) -> WorldState {
    match sender {
        Sender::Router => s,
        _ => clear_source(s, start, end),
    }
}

/// Delivers `item` from `start` to the tile at `end`, where that tile takes it: a
/// tile reporting no held item that is not a factory, junction or extractor stores
/// it; a factory with room adds it to its inventory; a junction puts it on the free
/// lane along the move, remembering where it came from. The sender is then emptied
/// as `sender` says. Otherwise nothing changes.
pub open spec fn deliver(
    s: WorldState,
    start: Position,
    end: Position,
    item: Item,
    sender: Sender,
) -> WorldState {
    match tile_in(s.tiles, end) {
        None => s,
        Some(dest) => if dest.held_item() is Some {
            s
        } else if !dest.is_special() {
            after_plain_delivery(put(s, end, dest.with_item(Some(item))), start, end, sender)
        } else {
            match dest {
                Tile::Factory(f) => if f.has_room_for(item) {
                    let inv = f.inventory.with_count(item, (f.inventory.count(item) + 1) as u32);
                    after_factory_delivery(
                        put(s, end, Tile::Factory(Factory { inventory: inv, ..f })),
                        start,
                        end,
                        sender,
                    )
                } else {
                    s
                },
                Tile::Junction(j) => if end.y == start.y {
                    let from = if end.x > start.x {
                        Direction::Left
                    } else {
                        Direction::Right
                    };
                    if j.horizontal_item is None {
                        after_horizontal_delivery(
                            put(
                                s,
                                end,
                                Tile::Junction(
                                    Junction { horizontal_item: Some((item, from)), ..j },
                                ),
                            ),
                            start,
                            end,
                            sender,
                        )
                    } else {
                        s
                    }
                } else {
                    let from = if end.y > start.y {
                        Direction::Down
                    } else {
                        Direction::Up
                    };
                    if j.vertical_item is None {
                        after_factory_delivery(
                            put(
                                s,
                                end,
                                Tile::Junction(Junction { vertical_item: Some((item, from)), ..j }),
                            ),
                            start,
                            end,
                            sender,
                        )
                    } else {
                        s
                    }
                },
                _ => s,
            }
        },
    }
}

/// Performs one step on `s`. `None` means the step hit a producing cell that holds
/// neither a factory nor an extractor, which stops the whole tick.
pub open spec fn apply_action(s: WorldState, a: Action) -> Option<WorldState> {
    match a {
        Action::Move(start, end, item) => Some(deliver(s, start, end, item, Sender::Tile)),
        Action::MoveRouter(start, end, item, _) => Some(
            deliver(s, start, end, item, Sender::Router),
        ),
        Action::Produce(pos) => match tile_in(s.tiles, pos) {
            None => Some(s),
            Some(Tile::Factory(f)) => {
                let out = recipe_output(f.factory_type);
                if f.ticks >= f.interval {
                    let made = Factory { ticks: 0, item: Some(out), ..f.after_produce() };
                    Some(
                        deliver(
                            put(s, pos, Tile::Factory(made)),
                            pos,
                            pos.neighbor(f.direction),
                            out,
                            Sender::Producer,
                        ),
                    )
                } else {
                    Some(put(s, pos, Tile::Factory(Factory { ticks: (f.ticks + 1) as u32, ..f })))
                }
            },
            Some(Tile::Extractor(e)) => {
                let out = extractor_item(e.extractor_type);
                Some(
                    deliver(
                        put(s, pos, Tile::Extractor(Extractor { item: Some(out), ..e })),
                        pos,
                        pos.neighbor(e.direction),
                        out,
                        Sender::Producer,
                    ),
                )
            },
            Some(_) => None,
        },
        Action::Teleport(pos, id) => match tile_in(s.tiles, pos) {
            Some(Tile::Portal(p)) => Some(
                WorldState {
                    tiles: put(s, pos, Tile::Portal(Portal { item: None, ..p })).tiles,
                    resources: add_one(s.resources, id),
                },
            ),
            Some(Tile::Core(c)) => Some(
                WorldState {
                    tiles: put(s, pos, Tile::Core(Core { ticks: 0, ..c })).tiles,
                    resources: add_one(s.resources, id),
                },
            ),
            _ => Some(s),
        },
        Action::IncreaseTicks(pos) => match tile_in(s.tiles, pos) {
            Some(Tile::Core(c)) => Some(put(s, pos, Tile::Core(Core { ticks: (c.ticks + 1) as u32, ..c }))),
            _ => Some(s),
        },
    }
}

/// Whether performing step `a` on `s` stays inside the machine's integer ranges.
pub open spec fn step_in_range(s: WorldState, a: Action) -> bool {
    match a {
        Action::Produce(pos) => match tile_in(s.tiles, pos) {
            Some(Tile::Factory(f)) => f.ticks >= f.interval ==> pos.can_shift(f.direction),
            Some(Tile::Extractor(e)) => pos.can_shift(e.direction),
            _ => true,
        },
        Action::Teleport(pos, id) => match tile_in(s.tiles, pos) {
            Some(Tile::Portal(_)) => count_of(s.resources, id) < u32::MAX,
            Some(Tile::Core(_)) => count_of(s.resources, id) < u32::MAX,
            _ => true,
        },
        Action::IncreaseTicks(pos) => match tile_in(s.tiles, pos) {
            Some(Tile::Core(c)) => c.ticks < u32::MAX,
            _ => true,
        },
        _ => true,
    }
}

/// Performs `acts` in order on `s`; the flag tells whether a step stopped the run.
pub open spec fn run_actions(s: WorldState, acts: Seq<Action>) -> (WorldState, bool)
    decreases acts.len(),
{
    if acts.len() == 0 {
        (s, false)
    } else {
        match apply_action(s, acts[0]) {
            None => (s, true),
            Some(s2) => run_actions(s2, acts.drop_first()),
        }
    }
}

/// Whether every step performed by `run_actions(s, acts)` stays in range.
pub open spec fn run_in_range(s: WorldState, acts: Seq<Action>) -> bool
    decreases acts.len(),
{
    if acts.len() == 0 {
        true
    } else {
        &&& step_in_range(s, acts[0])
        &&& match apply_action(s, acts[0]) {
            None => true,
            Some(s2) => run_in_range(s2, acts.drop_first()),
        }
    }
}

/// Every tile is stored under the key of its own cell, and that cell is not on the
/// border of the `i32` range.
pub open spec fn layout_ok(s: WorldState) -> bool {
    forall|k: u64|
        s.tiles.contains_key(k) ==> key_of(#[trigger] s.tiles[k].0.pos()) == k && s.tiles[k].0.stays_inside()
}

/// Resource counts and core tick counters can grow by `m` without overflowing.
pub open spec fn budget(s: WorldState, m: int) -> bool {
    &&& m <= u32::MAX
    &&& forall|k: u16| s.resources.contains_key(k) ==> #[trigger] s.resources[k] + m <= u32::MAX
    &&& forall|k: u64|
        s.tiles.contains_key(k) ==> match #[trigger] s.tiles[k].0 {
            Tile::Core(c) => c.ticks + m <= u32::MAX,
            _ => true,
        }
}

/// `new` stands where `old` stood, and a core stays the very same core.
pub open spec fn keeps_tile(old: Tile, new: Tile) -> bool {
    &&& new.pos() == old.pos()
    &&& old is Core ==> new == old
    &&& new is Core ==> old is Core
    &&& (new is Portal <==> old is Portal)
}

/// `s2` has the same cells, ids and resources as `s1`, and each tile is kept.
pub open spec fn evolves(s1: WorldState, s2: WorldState) -> bool {
    &&& s2.tiles.dom() == s1.tiles.dom()
    &&& s2.resources == s1.resources
    &&& forall|k: u64|
        s1.tiles.contains_key(k) ==> keeps_tile(s1.tiles[k].0, #[trigger] s2.tiles[k].0)
            && s2.tiles[k].1 == s1.tiles[k].1
}

proof fn lemma_evolves_refl(s: WorldState)
    ensures
        evolves(s, s),
{
    assert(s.tiles.dom() =~= s.tiles.dom());
}

proof fn lemma_evolves_trans(s1: WorldState, s2: WorldState, s3: WorldState)
    requires
        evolves(s1, s2),
        evolves(s2, s3),
    ensures
        evolves(s1, s3),
{
    assert forall|k: u64| s1.tiles.contains_key(k) implies keeps_tile(s1.tiles[k].0, #[trigger] s3.tiles[k].0)
        && s3.tiles[k].1 == s1.tiles[k].1 by {
        assert(s2.tiles.contains_key(k));
        assert(keeps_tile(s1.tiles[k].0, s2.tiles[k].0));
        assert(keeps_tile(s2.tiles[k].0, s3.tiles[k].0));
    }
}

proof fn lemma_put_evolves(s: WorldState, p: Position, t: Tile)
    requires
        s.tiles.contains_key(key_of(p)),
        keeps_tile(s.tiles[key_of(p)].0, t),
    ensures
        evolves(s, put(s, p, t)),
{
    let s2 = put(s, p, t);
    assert(s2.tiles.dom() =~= s.tiles.dom());
}

proof fn lemma_clear_source_evolves(s: WorldState, start: Position, end: Position)
    ensures
        evolves(s, clear_source(s, start, end)),
{
    match tile_in(s.tiles, start) {
        Some(t) => lemma_put_evolves(s, start, left_behind(t, start, end)),
        None => lemma_evolves_refl(s),
    }
}

proof fn lemma_empty_source_evolves(s: WorldState, start: Position)
    ensures
        evolves(s, empty_source(s, start)),
{
    match tile_in(s.tiles, start) {
        Some(t) => lemma_put_evolves(s, start, t.with_item(None)),
        None => lemma_evolves_refl(s),
    }
}

proof fn lemma_release_router_evolves(s: WorldState, start: Position)
    ensures
        evolves(s, release_router(s, start)),
{
    match tile_in(s.tiles, start) {
        Some(Tile::Router(r)) => lemma_put_evolves(
            s,
            start,
            Tile::Router(Router { item: None, last_output: next_output(r.last_output), ..r }),
        ),
        _ => lemma_evolves_refl(s),
    }
}

proof fn lemma_send_evolves(s: WorldState, start: Position, end: Position, sender: Sender)
    ensures
        evolves(s, after_plain_delivery(s, start, end, sender)),
        evolves(s, after_factory_delivery(s, start, end, sender)),
        evolves(s, after_horizontal_delivery(s, start, end, sender)),
{
    lemma_evolves_refl(s);
    lemma_clear_source_evolves(s, start, end);
    lemma_empty_source_evolves(s, start);
    lemma_release_router_evolves(s, start);
}

/// Delivering an item keeps every cell, id and resource count, and no core changes.
pub proof fn lemma_deliver_evolves(s: WorldState, start: Position, end: Position, item: Item, sender: Sender)
    ensures
        evolves(s, deliver(s, start, end, item, sender)),
{
    lemma_evolves_refl(s);
    match tile_in(s.tiles, end) {
        None => {},
        Some(dest) => {
            if dest.held_item() is Some {
            } else if !dest.is_special() {
                let s1 = put(s, end, dest.with_item(Some(item)));
                lemma_put_evolves(s, end, dest.with_item(Some(item)));
                lemma_send_evolves(s1, start, end, sender);
                lemma_evolves_trans(s, s1, after_plain_delivery(s1, start, end, sender));
            } else {
                match dest {
                    Tile::Factory(f) => {
                        if f.has_room_for(item) {
                            let inv = f.inventory.with_count(item, (f.inventory.count(item) + 1) as u32);
                            let t = Tile::Factory(Factory { inventory: inv, ..f });
                            let s1 = put(s, end, t);
                            lemma_put_evolves(s, end, t);
                            lemma_send_evolves(s1, start, end, sender);
                            lemma_evolves_trans(s, s1, after_factory_delivery(s1, start, end, sender));
                        }
                    },
                    Tile::Junction(j) => {
                        if end.y == start.y {
                            let from = if end.x > start.x {
                                Direction::Left
                            } else {
                                Direction::Right
                            };
                            if j.horizontal_item is None {
                                let t = Tile::Junction(Junction { horizontal_item: Some((item, from)), ..j });
                                let s1 = put(s, end, t);
                                lemma_put_evolves(s, end, t);
                                lemma_send_evolves(s1, start, end, sender);
                                lemma_evolves_trans(s, s1, after_horizontal_delivery(s1, start, end, sender));
                            }
                        } else {
                            let from = if end.y > start.y {
                                Direction::Down
                            } else {
                                Direction::Up
                            };
                            if j.vertical_item is None {
                                let t = Tile::Junction(Junction { vertical_item: Some((item, from)), ..j });
                                let s1 = put(s, end, t);
                                lemma_put_evolves(s, end, t);
                                lemma_send_evolves(s1, start, end, sender);
                                lemma_evolves_trans(s, s1, after_factory_delivery(s1, start, end, sender));
                            }
                        }
                    },
                    _ => {},
                }
            }
        },
    }
}

proof fn lemma_evolves_keeps_bounds(s1: WorldState, s2: WorldState, m: int)
    requires
        evolves(s1, s2),
        layout_ok(s1),
        budget(s1, m),
    ensures
        layout_ok(s2),
        budget(s2, m),
{
    assert forall|k: u64| s2.tiles.contains_key(k) implies key_of(#[trigger] s2.tiles[k].0.pos()) == k
        && s2.tiles[k].0.stays_inside() by {
        assert(keeps_tile(s1.tiles[k].0, s2.tiles[k].0));
    }
    assert forall|k: u64| s2.tiles.contains_key(k) implies match #[trigger] s2.tiles[k].0 {
        Tile::Core(c) => c.ticks + m <= u32::MAX,
        _ => true,
    } by {
        assert(keeps_tile(s1.tiles[k].0, s2.tiles[k].0));
    }
}

/// With a well-laid-out world and room for one more increment, a step stays in
/// range and leaves a well-laid-out world with room for one increment fewer.
pub proof fn lemma_step_in_range(s: WorldState, a: Action, m: int)
    requires
        layout_ok(s),
        budget(s, m + 1),
        m >= 0,
    ensures
        step_in_range(s, a),
        apply_action(s, a) matches Some(s2) ==> layout_ok(s2) && budget(s2, m),
{
    assert(budget(s, m));
    match a {
        Action::Move(start, end, item) => {
            lemma_deliver_evolves(s, start, end, item, Sender::Tile);
            lemma_evolves_keeps_bounds(s, deliver(s, start, end, item, Sender::Tile), m);
        },
        Action::MoveRouter(start, end, item, _) => {
            lemma_deliver_evolves(s, start, end, item, Sender::Router);
            lemma_evolves_keeps_bounds(s, deliver(s, start, end, item, Sender::Router), m);
        },
        Action::Produce(pos) => {
            match tile_in(s.tiles, pos) {
                None => {},
                Some(Tile::Factory(f)) => {
                    crate::types::lemma_key_injective(s.tiles[key_of(pos)].0.pos(), pos);
                    let out = recipe_output(f.factory_type);
                    if f.ticks >= f.interval {
                        let made = Factory { ticks: 0, item: Some(out), ..f.after_produce() };
                        let s1 = put(s, pos, Tile::Factory(made));
                        lemma_put_evolves(s, pos, Tile::Factory(made));
                        lemma_deliver_evolves(s1, pos, pos.neighbor(f.direction), out, Sender::Producer);
                        lemma_evolves_trans(s, s1, deliver(s1, pos, pos.neighbor(f.direction), out, Sender::Producer));
                        lemma_evolves_keeps_bounds(s, deliver(s1, pos, pos.neighbor(f.direction), out, Sender::Producer), m);
                    } else {
                        let t = Tile::Factory(Factory { ticks: (f.ticks + 1) as u32, ..f });
                        lemma_put_evolves(s, pos, t);
                        lemma_evolves_keeps_bounds(s, put(s, pos, t), m);
                    }
                },
                Some(Tile::Extractor(e)) => {
                    crate::types::lemma_key_injective(s.tiles[key_of(pos)].0.pos(), pos);
                    let out = extractor_item(e.extractor_type);
                    let t = Tile::Extractor(Extractor { item: Some(out), ..e });
                    let s1 = put(s, pos, t);
                    lemma_put_evolves(s, pos, t);
                    lemma_deliver_evolves(s1, pos, pos.neighbor(e.direction), out, Sender::Producer);
                    lemma_evolves_trans(s, s1, deliver(s1, pos, pos.neighbor(e.direction), out, Sender::Producer));
                    lemma_evolves_keeps_bounds(s, deliver(s1, pos, pos.neighbor(e.direction), out, Sender::Producer), m);
                },
                Some(_) => {},
            }
        },
        Action::Teleport(pos, id) => {
            let key = crate::resources::tile_id_key(id);
            if s.resources.contains_key(key) {
                assert(s.resources[key] + m + 1 <= u32::MAX);
            }
            match tile_in(s.tiles, pos) {
                Some(Tile::Portal(p)) => {
                    let t = Tile::Portal(Portal { item: None, ..p });
                    lemma_put_evolves(s, pos, t);
                    let s1 = put(s, pos, t);
                    let s2 = WorldState { tiles: s1.tiles, resources: add_one(s.resources, id) };
                    lemma_evolves_keeps_bounds(s, s1, m);
                    assert forall|k: u16| s2.resources.contains_key(k) implies #[trigger] s2.resources[k] + m <= u32::MAX by {
                        if k != key {
                            assert(s.resources.contains_key(k));
                        }
                    }
                },
                Some(Tile::Core(c)) => {
                    let t = Tile::Core(Core { ticks: 0, ..c });
                    let s1 = put(s, pos, t);
                    let s2 = WorldState { tiles: s1.tiles, resources: add_one(s.resources, id) };
                    assert forall|k: u64| s2.tiles.contains_key(k) implies key_of(#[trigger] s2.tiles[k].0.pos()) == k
                        && s2.tiles[k].0.stays_inside() by {
                        assert(s.tiles.contains_key(k));
                        if k == key_of(pos) {
                            assert(s2.tiles[k].0.pos() == s.tiles[k].0.pos());
                        }
                    }
                    assert forall|k: u64| s2.tiles.contains_key(k) implies match #[trigger] s2.tiles[k].0 {
                        Tile::Core(c) => c.ticks + m <= u32::MAX,
                        _ => true,
                    } by {
                        assert(s.tiles.contains_key(k));
                    }
                    assert forall|k: u16| s2.resources.contains_key(k) implies #[trigger] s2.resources[k] + m <= u32::MAX by {
                        if k != key {
                            assert(s.resources.contains_key(k));
                        }
                    }
                },
                _ => {},
            }
        },
        Action::IncreaseTicks(pos) => {
            match tile_in(s.tiles, pos) {
                Some(Tile::Core(c)) => {
                    assert(c.ticks + m + 1 <= u32::MAX);
                    let s2 = put(s, pos, Tile::Core(Core { ticks: (c.ticks + 1) as u32, ..c }));
                    assert forall|k: u64| s2.tiles.contains_key(k) implies key_of(#[trigger] s2.tiles[k].0.pos()) == k
                        && s2.tiles[k].0.stays_inside() by {
                        assert(s.tiles.contains_key(k));
                        if k == key_of(pos) {
                            assert(s2.tiles[k].0.pos() == s.tiles[k].0.pos());
                        }
                    }
                    assert forall|k: u64| s2.tiles.contains_key(k) implies match #[trigger] s2.tiles[k].0 {
                        Tile::Core(c) => c.ticks + m <= u32::MAX,
                        _ => true,
                    } by {
                        assert(s.tiles.contains_key(k));
                    }
                },
                _ => {},
            }
        },
    }
}

/// A well-laid-out world whose counters have room for one increment per step runs
/// any list of that many steps in range, and stays well laid out.
pub proof fn lemma_run_in_range(s: WorldState, acts: Seq<Action>, m: int)
    requires
        layout_ok(s),
        budget(s, m),
        acts.len() <= m,
    ensures
        run_in_range(s, acts),
        layout_ok(run_actions(s, acts).0),
    decreases acts.len(),
{
    if acts.len() > 0 {
        lemma_step_in_range(s, acts[0], m - 1);
        match apply_action(s, acts[0]) {
            None => {},
            Some(s2) => {
                lemma_run_in_range(s2, acts.drop_first(), m - 1);
            },
        }
    }
}

/// `s2` has a tile on exactly the cells of `s1`, each under the same id,
/// reporting the same cell and needing the same room from the edge.
pub open spec fn keeps_cells(s1: WorldState, s2: WorldState) -> bool {
    &&& s2.tiles.dom() == s1.tiles.dom()
    &&& forall|k: u64|
        s1.tiles.contains_key(k) ==> (#[trigger] s2.tiles[k]).0.pos() == s1.tiles[k].0.pos()
            && s2.tiles[k].1 == s1.tiles[k].1
            && s2.tiles[k].0.stays_inside() == s1.tiles[k].0.stays_inside()
}

proof fn lemma_keeps_cells_trans(s1: WorldState, s2: WorldState, s3: WorldState)
    requires
        keeps_cells(s1, s2),
        keeps_cells(s2, s3),
    ensures
        keeps_cells(s1, s3),
{
    assert forall|k: u64| s1.tiles.contains_key(k) implies (#[trigger] s3.tiles[k]).0.pos()
        == s1.tiles[k].0.pos() && s3.tiles[k].1 == s1.tiles[k].1
        && s3.tiles[k].0.stays_inside() == s1.tiles[k].0.stays_inside() by {
        assert(s2.tiles.contains_key(k));
        assert(s2.tiles[k].0.pos() == s1.tiles[k].0.pos());
    }
}

/// A world that keeps the cells of a well-laid-out world is well laid out.
proof fn lemma_keeps_cells_layout(s1: WorldState, s2: WorldState)
    requires
        layout_ok(s1),
        keeps_cells(s1, s2),
    ensures
        layout_ok(s2),
{
    assert forall|k: u64| s2.tiles.contains_key(k) implies key_of(#[trigger] s2.tiles[k].0.pos()) == k
        && s2.tiles[k].0.stays_inside() by {
        assert(s1.tiles.contains_key(k));
        assert(s2.tiles[k].0.pos() == s1.tiles[k].0.pos());
    }
}

/// A step keeps every tile on its cell with its id: no tile appears or
/// disappears.
pub proof fn lemma_step_keeps_cells(s: WorldState, a: Action)
    ensures
        apply_action(s, a) matches Some(s2) ==> keeps_cells(s, s2),
{
    match a {
        Action::Move(start, end, item) => {
            lemma_deliver_evolves(s, start, end, item, Sender::Tile);
        },
        Action::MoveRouter(start, end, item, _) => {
            lemma_deliver_evolves(s, start, end, item, Sender::Router);
        },
        Action::Produce(pos) => {
            match tile_in(s.tiles, pos) {
                Some(Tile::Factory(f)) => {
                    let out = recipe_output(f.factory_type);
                    if f.ticks >= f.interval {
                        let made = Factory { ticks: 0, item: Some(out), ..f.after_produce() };
                        let s1 = put(s, pos, Tile::Factory(made));
                        lemma_put_evolves(s, pos, Tile::Factory(made));
                        lemma_deliver_evolves(s1, pos, pos.neighbor(f.direction), out, Sender::Producer);
                        lemma_evolves_trans(s, s1, deliver(s1, pos, pos.neighbor(f.direction), out, Sender::Producer));
                    } else {
                        lemma_put_evolves(s, pos, Tile::Factory(Factory { ticks: (f.ticks + 1) as u32, ..f }));
                    }
                },
                Some(Tile::Extractor(e)) => {
                    let out = extractor_item(e.extractor_type);
                    let t = Tile::Extractor(Extractor { item: Some(out), ..e });
                    let s1 = put(s, pos, t);
                    lemma_put_evolves(s, pos, t);
                    lemma_deliver_evolves(s1, pos, pos.neighbor(e.direction), out, Sender::Producer);
                    lemma_evolves_trans(s, s1, deliver(s1, pos, pos.neighbor(e.direction), out, Sender::Producer));
                },
                _ => {
                    lemma_evolves_refl(s);
                },
            }
        },
        Action::Teleport(pos, id) => {
            lemma_evolves_refl(s);
            match tile_in(s.tiles, pos) {
                Some(Tile::Portal(p)) => {
                    lemma_put_evolves(s, pos, Tile::Portal(Portal { item: None, ..p }));
                },
                Some(Tile::Core(c)) => {
                    let s1 = put(s, pos, Tile::Core(Core { ticks: 0, ..c }));
                    assert(s1.tiles.dom() =~= s.tiles.dom());
                },
                _ => {},
            }
        },
        Action::IncreaseTicks(pos) => {
            lemma_evolves_refl(s);
            match tile_in(s.tiles, pos) {
                Some(Tile::Core(c)) => {
                    let s1 = put(s, pos, Tile::Core(Core { ticks: (c.ticks + 1) as u32, ..c }));
                    assert(s1.tiles.dom() =~= s.tiles.dom());
                },
                _ => {},
            }
        },
    }
}

/// Performing any list of steps keeps every tile on its cell with its id.
pub proof fn lemma_run_keeps_cells(s: WorldState, acts: Seq<Action>)
    ensures
        keeps_cells(s, run_actions(s, acts).0),
    decreases acts.len(),
{
    if acts.len() == 0 {
        assert(s.tiles.dom() =~= s.tiles.dom());
    } else {
        lemma_step_keeps_cells(s, acts[0]);
        match apply_action(s, acts[0]) {
            None => {
                assert(s.tiles.dom() =~= s.tiles.dom());
            },
            Some(s2) => {
                lemma_run_keeps_cells(s2, acts.drop_first());
                lemma_keeps_cells_trans(s, s2, run_actions(s2, acts.drop_first()).0);
            },
        }
    }
}

/// The steps asked for by the tiles stored under `keys`, in that order; tiles that
/// ask for nothing are skipped.
pub open spec fn tile_actions(world: WorldView, keys: Seq<u64>) -> Seq<Action>
    decreases keys.len(),
{
    if keys.len() == 0 {
        Seq::empty()
    } else {
        let prev = tile_actions(world, keys.drop_last());
        match world.tiles[keys.last()].0.next_action(world) {
            Some(a) => prev.push(a),
            None => prev,
        }
    }
}

/// `keys` lists every cell that holds a tile exactly once.
pub open spec fn enumerates_tiles(world: WorldView, keys: Seq<u64>) -> bool {
    keys.no_duplicates() && keys.to_set() == world.tiles.dom()
}

/// `acts` is what a tick plans in `world`: the step of every tile, taken in some
/// order of the tiles, put in a dependency order of their cells and then reversed,
/// so that a cell is emptied before an item is sent into it.
pub open spec fn is_plan(world: WorldView, acts: Seq<Action>) -> bool {
    exists|keys: Seq<u64>, sched: Seq<Action>|
        {
            &&& #[trigger] is_move_schedule(world, tile_actions(world, keys), sched)
            &&& enumerates_tiles(world, keys)
            &&& acts == sched.reverse()
        }
}

/// A step a tile asks for comes from the tile's own cell.
pub open spec fn produces_from(t: Tile, a: Action) -> bool {
    a matches Action::Produce(p) ==> p == t.pos()
}

proof fn lemma_produce_from_own_cell(t: Tile, world: WorldView)
    ensures
        t.next_action(world) matches Some(a) ==> produces_from(t, a),
{
    match t {
        Tile::Router(r) => {
            if let Some(item) = r.item {
                reveal_with_fuel(Router::try_outputs, 4);
            }
        },
        _ => {},
    }
}

impl WorldRes {
    /// The step of every tile, in the order in which the tile map is walked.
    pub fn collect_tile_actions(&self) -> (acts: Vec<Action>)
        requires
            layout_ok(self.state()),
        ensures
            exists|keys: Seq<u64>| #[trigger] enumerates_tiles(self@, keys) && acts@ == tile_actions(self@, keys),
            actions_in_range(self@, acts@),
    {
        let mut acts: Vec<Action> = Vec::new();
        let ghost all = self.tiles@;
        let ghost ks = vstd::std_specs::hash::spec_keys_iter(&self.tiles).remaining().unref();
        let ghost mut walked: Seq<u64> = Seq::empty();
        proof {
            broadcast use vstd::std_specs::hash::axiom_spec_keys_iter;
        }
        for k in it: self.tiles.keys()
            invariant
                all == self.tiles@,
                layout_ok(self.state()),
                ks.to_set() == all.dom(),
                ks.no_duplicates(),
                it.seq().unref() == ks,
                walked == ks.take(it.index()),
                acts@ == tile_actions(self@, walked),
                actions_in_range(self@, acts@),
        {
            let ghost done_keys = ks.take(it.index());
            let ghost prev_walked = walked;
            let ghost prev_acts = acts@;
            let ghost next_keys = ks.take(it.index() + 1);
            proof {
                assert(next_keys.drop_last() =~= done_keys);
                assert(next_keys.last() == *k);
                assert(ks.contains(*k));
                assert(all.dom().contains(*k));
                walked = walked.push(*k);
                assert(walked.drop_last() =~= prev_walked);
                assert(walked.last() == *k);
                assert(tile_actions(self@, walked) == match self.tiles@[*k].0.next_action(self@) {
                    Some(a) => prev_acts.push(a),
                    None => prev_acts,
                });
            }
            let entry = self.tiles.get(k);
            match entry {
                Some(e) => {
                    proof {
                        assert(self.tiles@[*k] == *e);
                        let st = self.state();
                        assert(st.tiles.contains_key(*k));
                        assert(key_of(st.tiles[*k].0.pos()) == *k);
                        assert(key_of(self.tiles@[*k].0.pos()) == *k);
                        assert(self.tiles@[*k].0.stays_inside());
                        lemma_interior_tick_in_range(e.0, self@);
                        lemma_produce_from_own_cell(e.0, self@);
                        crate::types::lemma_position_key_roundtrip(e.0.pos());
                    }
                    match e.0.tick(self) {
                        Some(a) => {
                            let ghost prev = acts@;
                            acts.push(a);
                            proof {
                                assert forall|i: int| 0 <= i < acts.len() implies match #[trigger] acts@[i] {
                                    Action::Produce(p) => produce_in_range(self@, p),
                                    _ => true,
                                } by {
                                    if i == acts.len() - 1 {
                                        if let Action::Produce(p) = a {
                                            assert(key_of(p) == *k);
                                            assert(self.tile_at(p) == Some(e.0));
                                        }
                                    } else {
                                        assert(acts@[i] == prev[i]);
                                    }
                                }
                            }
                        },
                        None => {},
                    }
                },
                None => {},
            }
        }
        proof {
            assert(walked =~= ks);
            assert(enumerates_tiles(self@, walked));
        }
        acts
    }

    /// Replaces the tile at `p`, keeping its id.
    fn replace_tile(&mut self, p: Position, t: Tile)
        requires
            old(self).tiles@.contains_key(key_of(p)),
        ensures
            final(self).state() == put(old(self).state(), p, t),
            final(self).same_rest(old(self)),
    {
        let k = p.get_as_key();
        let id = match self.tiles.get(&k) {
            Some(entry) => entry.1,
            None => (0, 0),
        };
        self.tiles.insert(k, (t, id));
    }

    fn clear_source(&mut self, start: Position, end: Position)
        ensures
            final(self).state() == clear_source(old(self).state(), start, end),
            final(self).same_rest(old(self)),
    {
        if let Some(t) = self.get_tile(start) {
            let mut left = t;
            left.set_item(None);
            if let Tile::Junction(j) = left {
                if start.x != end.x {
                    left = Tile::Junction(Junction { horizontal_item: None, ..j });
                } else if start.y != end.y {
                    left = Tile::Junction(Junction { vertical_item: None, ..j });
                }
            }
            self.replace_tile(start, left);
        }
    }

    fn empty_source(&mut self, start: Position)
        ensures
            final(self).state() == empty_source(old(self).state(), start),
            final(self).same_rest(old(self)),
    {
        if let Some(t) = self.get_tile(start) {
            let mut left = t;
            left.set_item(None);
            self.replace_tile(start, left);
        }
    }

    fn release_router(&mut self, start: Position)
        ensures
            final(self).state() == release_router(old(self).state(), start),
            final(self).same_rest(old(self)),
    {
        if let Some(Tile::Router(r)) = self.get_tile(start) {
            let next = r.last_output.next();
            self.replace_tile(start, Tile::Router(Router { item: None, last_output: next, ..r }));
        }
    }

    /// Delivers `item` from `start` to the tile at `end`, where it is taken.
    pub fn deliver(&mut self, start: Position, end: Position, item: Item, sender: Sender)
        ensures
            final(self).state() == deliver(old(self).state(), start, end, item, sender),
            final(self).same_rest(old(self)),
    {
        let dest = match self.get_tile(end) {
            Some(d) => d,
            None => return ,
        };
        if dest.get_item().is_some() {
            return ;
        }
        let special = match dest {
            Tile::Factory(_) => true,
            Tile::Junction(_) => true,
            Tile::Extractor(_) => true,
            _ => false,
        };
        if !special {
            let mut stored = dest;
            stored.set_item(Some(item));
            self.replace_tile(end, stored);
            match sender {
                Sender::Tile => self.clear_source(start, end),
                Sender::Router => self.release_router(start),
                Sender::Producer => self.empty_source(start),
            }
            return ;
        }
        match dest {
            Tile::Factory(f) => {
                let held = f.inventory.get(item);
                if f.factory_type.capacity().get(item) > held {
                    let mut inv = f.inventory;
                    inv.set(item, held + 1);
                    self.replace_tile(end, Tile::Factory(Factory { inventory: inv, ..f }));
                    match sender {
                        Sender::Tile => self.clear_source(start, end),
                        Sender::Router => {},
                        Sender::Producer => self.empty_source(start),
                    }
                }
            },
            Tile::Junction(j) => {
                if end.y == start.y {
                    let from = if end.x > start.x {
                        Direction::Left
                    } else {
                        Direction::Right
                    };
                    if j.horizontal_item.is_none() {
                        self.replace_tile(
                            end,
                            Tile::Junction(Junction { horizontal_item: Some((item, from)), ..j }),
                        );
                        match sender {
                            Sender::Router => {},
                            _ => self.clear_source(start, end),
                        }
                    }
                } else {
                    let from = if end.y > start.y {
                        Direction::Down
                    } else {
                        Direction::Up
                    };
                    if j.vertical_item.is_none() {
                        self.replace_tile(
                            end,
                            Tile::Junction(Junction { vertical_item: Some((item, from)), ..j }),
                        );
                        match sender {
                            Sender::Tile => self.clear_source(start, end),
                            Sender::Router => {},
                            Sender::Producer => self.empty_source(start),
                        }
                    }
                }
            },
            _ => {},
        }
    }

    /// Performs one step. Returns `false` when the step stops the tick: a producing
    /// cell that holds a tile which is neither a factory nor an extractor.
    pub fn apply_action(&mut self, action: Action) -> (completed: bool)
        requires
            step_in_range(old(self).state(), action),
        ensures
            completed ==> apply_action(old(self).state(), action) == Some(final(self).state()),
            !completed ==> apply_action(old(self).state(), action) is None && final(self).state()
                == old(self).state(),
            final(self).same_rest(old(self)),
    {
        match action {
            Action::Move(start, end, item) => {
                self.deliver(start, end, item, Sender::Tile);
                true
            },
            Action::MoveRouter(start, end, item, _) => {
                self.deliver(start, end, item, Sender::Router);
                true
            },
            Action::Produce(pos) => {
                match self.get_tile(pos) {
                    None => true,
                    Some(Tile::Factory(f)) => {
                        let out = f.factory_type.recipe().output;
                        if f.ticks >= f.interval {
                            let mut made = f;
                            made.produce();
                            made.ticks = 0;
                            made.item = Some(out);
                            self.replace_tile(pos, Tile::Factory(made));
                            let dest = pos.shift(f.direction);
                            self.deliver(pos, dest, out, Sender::Producer);
                        } else {
                            self.replace_tile(
                                pos,
                                Tile::Factory(Factory { ticks: f.ticks + 1, ..f }),
                            );
                        }
                        true
                    },
                    Some(Tile::Extractor(e)) => {
                        let out = e.extractor_type.spawn_item();
                        self.replace_tile(pos, Tile::Extractor(Extractor { item: Some(out), ..e }));
                        let dest = pos.shift(e.direction);
                        self.deliver(pos, dest, out, Sender::Producer);
                        true
                    },
                    Some(_) => false,
                }
            },
            Action::Teleport(pos, id) => {
                match self.get_tile(pos) {
                    Some(Tile::Portal(p)) => {
                        self.replace_tile(pos, Tile::Portal(Portal { item: None, ..p }));
                        self.add_resource(id);
                    },
                    Some(Tile::Core(c)) => {
                        self.replace_tile(pos, Tile::Core(Core { ticks: 0, ..c }));
                        self.add_resource(id);
                    },
                    _ => {},
                }
                true
            },
            Action::IncreaseTicks(pos) => {
                if let Some(Tile::Core(c)) = self.get_tile(pos) {
                    self.replace_tile(pos, Tile::Core(Core { ticks: c.ticks + 1, ..c }));
                }
                true
            },
        }
    }

    /// Performs the steps in order, stopping early where a step stops the tick.
    /// Returns whether every step was performed.
    pub fn perform_actions(&mut self, actions: &Vec<Action>) -> (completed: bool)
        requires
            run_in_range(old(self).state(), actions@),
        ensures
            run_actions(old(self).state(), actions@) == (final(self).state(), !completed),
            final(self).same_rest(old(self)),
    {
        let ghost start = self.state();
        let mut i: usize = 0;
        proof {
            assert(actions@.skip(0) =~= actions@);
        }
        while i < actions.len()
            invariant
                i <= actions.len(),
                start == old(self).state(),
                run_actions(self.state(), actions@.skip(i as int)) == run_actions(start, actions@),
                run_in_range(self.state(), actions@.skip(i as int)),
                self.same_rest(old(self)),
            decreases actions.len() - i,
        {
            let ghost rest = actions@.skip(i as int);
            let ghost before = self.state();
            proof {
                assert(rest[0] == actions@[i as int]);
                assert(rest.drop_first() =~= actions@.skip(i + 1));
                assert(run_actions(before, rest) == match apply_action(before, rest[0]) {
                    None => (before, true),
                    Some(s2) => run_actions(s2, rest.drop_first()),
                });
                assert(run_in_range(before, rest) == (step_in_range(before, rest[0]) && match apply_action(before, rest[0]) {
                    None => true,
                    Some(s2) => run_in_range(s2, rest.drop_first()),
                }));
            }
            if !self.apply_action(actions[i]) {
                return false;
            }
            i = i + 1;
        }
        proof {
            assert(actions@.skip(i as int) =~= Seq::<Action>::empty());
        }
        true
    }
}


/// The steps of `v` in reverse order.
pub fn reversed(v: &Vec<Action>) -> (r: Vec<Action>)
    ensures
        r@ == v@.reverse(),
{
    let n = v.len();
    let mut r: Vec<Action> = Vec::new();
    let mut i: usize = 0;
    while i < n
        invariant
            i <= n,
            n == v.len(),
            r@ == v@.subrange(n - i, n as int).reverse(),
        decreases n - i,
    {
        r.push(v[n - 1 - i]);
        i = i + 1;
        proof {
            assert(r@ =~= v@.subrange(n - i, n as int).reverse());
        }
    }
    proof {
        assert(v@.subrange(0, n as int) =~= v@);
    }
    r
}

impl WorldRes {
    /// One tick of the world: counts the tick, performs the planned steps in
    /// order, and, unless a step stopped the tick, plans the next steps from what
    /// every tile now asks for. Returns whether the tick ran to the end.
    pub fn tick(&mut self) -> (completed: bool)
        requires
            layout_ok(old(self).state()),
            run_in_range(old(self).state(), old(self).actions@),
            old(self).tick_count < i32::MAX,
        ensures
            final(self).tick_count == old(self).tick_count + 1,
            run_actions(old(self).state(), old(self).actions@) == (final(self).state(), !completed),
            final(self).terrain == old(self).terrain,
            final(self).world_seed == old(self).world_seed,
            final(self).money == old(self).money,
            layout_ok(final(self).state()),
            keeps_cells(old(self).state(), final(self).state()),
            !completed ==> final(self).actions == old(self).actions,
            completed ==> is_plan(final(self)@, final(self).actions@),
    {
        self.tick_count = self.tick_count + 1;
        let mut pending: Vec<Action> = Vec::new();
        std::mem::swap(&mut pending, &mut self.actions);
        proof {
            lemma_run_keeps_cells(self.state(), pending@);
            lemma_keeps_cells_layout(self.state(), run_actions(self.state(), pending@).0);
        }
        let completed = self.perform_actions(&pending);
        if !completed {
            self.actions = pending;
            return false;
        }
        let next = self.collect_tile_actions();
        let ghost keys = choose|keys: Seq<u64>| #[trigger] enumerates_tiles(self@, keys) && next@ == tile_actions(self@, keys);
        let sorted = sort_moves_topologically(next, self);
        let planned = reversed(&sorted);
        let ghost mid = self@;
        self.actions = planned;
        proof {
            assert(self@ == mid);
            assert(is_move_schedule(self@, tile_actions(self@, keys), sorted@));
        }
        true
    }
}

impl WorldRes {
    /// Whether performing `a` on the world stays inside the integer ranges.
    pub fn step_fits(&self, a: Action) -> (b: bool)
        ensures
            b == step_in_range(self.state(), a),
    {
        match a {
            Action::Produce(pos) => match self.get_tile(pos) {
                Some(Tile::Factory(f)) => {
                    f.ticks < f.interval || pos.fits_shift(f.direction)
                },
                Some(Tile::Extractor(e)) => pos.fits_shift(e.direction),
                _ => true,
            },
            Action::Teleport(pos, id) => match self.get_tile(pos) {
                Some(Tile::Portal(_)) | Some(Tile::Core(_)) => self.resource_count(id) < u32::MAX,
                _ => true,
            },
            Action::IncreaseTicks(pos) => match self.get_tile(pos) {
                Some(Tile::Core(c)) => c.ticks < u32::MAX,
                _ => true,
            },
            _ => true,
        }
    }

    /// Whether every tile is stored under the key of its own cell and, unless it
    /// is a core or a portal, stands away from the edge of the `i32` range of
    /// cells.
    pub fn layout_holds(&self) -> (b: bool)
        ensures
            b == layout_ok(self.state()),
    {
        let ghost st = self.state();
        let ghost tks = vstd::std_specs::hash::spec_keys_iter(&self.tiles).remaining().unref();
        proof {
            broadcast use vstd::std_specs::hash::axiom_spec_keys_iter;
        }
        for k in it: self.tiles.keys()
            invariant
                st == self.state(),
                tks.to_set() == st.tiles.dom(),
                it.seq().unref() == tks,
                forall|j: int| 0 <= j < it.index() ==> {
                    let k = #[trigger] tks[j];
                    &&& key_of(st.tiles[k].0.pos()) == k
                    &&& st.tiles[k].0.stays_inside()
                },
        {
            proof {
                assert(tks[it.index() as int] == *k);
                assert(tks.contains(*k));
                assert(tks.to_set().contains(*k));
            }
            match self.tiles.get(k) {
                Some(e) => {
                    let p = e.0.position();
                    if p.get_as_key() != *k {
                        return false;
                    }
                    let fixed = match e.0 {
                        Tile::Core(_) | Tile::Portal(_) => true,
                        _ => false,
                    };
                    if !fixed && (p.x == i32::MIN || p.x == i32::MAX || p.y == i32::MIN
                        || p.y == i32::MAX) {
                        return false;
                    }
                },
                None => {},
            }
        }
        proof {
            assert forall|k: u64| st.tiles.contains_key(k) implies key_of(#[trigger] st.tiles[k].0.pos()) == k
                && st.tiles[k].0.stays_inside() by {
                assert(tks.to_set().contains(k));
                let j = choose|j: int| 0 <= j < tks.len() && tks[j] == k;
            }
        }
        true
    }

    /// Whether `tick` may run on the world as it stands: the world is well laid
    /// out, the tick counter has room, and performing the planned steps, tried
    /// on a copy of the tiles and resources, stays inside the integer ranges.
    pub fn can_tick(&self) -> (b: bool)
        ensures
            b == (layout_ok(self.state()) && run_in_range(self.state(), self.actions@)
                && self.tick_count < i32::MAX),
    {
        if self.tick_count == i32::MAX || !self.layout_holds() {
            return false;
        }
        let mut trial = WorldRes {
            tiles: self.tiles.clone(),
            terrain: HashMap::new(),
            resources: self.resources.clone(),
            world_seed: self.world_seed,
            tick_count: self.tick_count,
            actions: Vec::new(),
            money: self.money,
        };
        let mut i: usize = 0;
        proof {
            assert(self.actions@.skip(0) =~= self.actions@);
        }
        while i < self.actions.len()
            invariant
                i <= self.actions.len(),
                layout_ok(self.state()),
                self.tick_count < i32::MAX,
                run_in_range(trial.state(), self.actions@.skip(i as int)) == run_in_range(
                    self.state(),
                    self.actions@,
                ),
            decreases self.actions.len() - i,
        {
            let a = self.actions[i];
            let ghost rest = self.actions@.skip(i as int);
            let ghost before = trial.state();
            proof {
                assert(rest[0] == a);
                assert(rest.drop_first() =~= self.actions@.skip(i + 1));
                assert(run_in_range(before, rest) == (step_in_range(before, a) && match apply_action(before, a) {
                    None => true,
                    Some(s2) => run_in_range(s2, rest.drop_first()),
                }));
            }
            if !trial.step_fits(a) {
                return false;
            }
            if !trial.apply_action(a) {
                return true;
            }
            i = i + 1;
        }
        true
    }
}

proof fn lemma_deliver_keeps_producer(s: WorldState, pos: Position, end: Position, item: Item, m: Factory)
    requires
        tile_in(s.tiles, pos) == Some(Tile::Factory(m)),
        key_of(end) != key_of(pos),
    ensures
        tile_in(deliver(s, pos, end, item, Sender::Producer).tiles, pos) matches Some(Tile::Factory(g))
            && g.inventory == m.inventory && g.ticks == m.ticks && g.factory_type == m.factory_type
            && g.position == m.position,
{
}

/// A factory that holds its recipe's inputs, has an empty output slot and is
/// due (its counter has reached its interval) makes one output when its step
/// runs: afterwards each count of its inventory is the old count less what the
/// recipe takes, its counter is back at 0, and the output lands on an empty
/// conveyor standing in front of it.
pub proof fn lemma_factory_run_consumes_inputs(s: WorldState, pos: Position, f: Factory)
    requires
        tile_in(s.tiles, pos) == Some(Tile::Factory(f)),
        f.ready(),
        f.ticks >= f.interval,
        pos.can_shift(f.direction),
    ensures
        apply_action(s, Action::Produce(pos)) matches Some(s2) && (tile_in(s2.tiles, pos) matches Some(
            Tile::Factory(g),
        ) && g.ticks == 0 && g.factory_type == f.factory_type && (forall|item: Item|
            #[trigger] g.inventory.count(item) == f.inventory.count(item) - recipe_input(
                f.factory_type,
                item,
            ))),
        tile_in(s.tiles, pos.neighbor(f.direction)) matches Some(Tile::Conveyor(c)) && c.item is None
            ==> (apply_action(s, Action::Produce(pos)) matches Some(s2) && tile_in(
            s2.tiles,
            pos.neighbor(f.direction),
        ) matches Some(Tile::Conveyor(c2)) && c2.item == Some(recipe_output(f.factory_type))),
{
    let out = recipe_output(f.factory_type);
    let made = Factory { ticks: 0, item: Some(out), ..f.after_produce() };
    let s1 = put(s, pos, Tile::Factory(made));
    let d = pos.neighbor(f.direction);
    if key_of(d) == key_of(pos) {
        crate::types::lemma_key_injective(d, pos);
    }
    assert(tile_in(s1.tiles, pos) == Some(Tile::Factory(made)));
    lemma_deliver_keeps_producer(s1, pos, d, out, made);
    assert forall|item: Item| #[trigger] made.inventory.count(item) == f.inventory.count(item)
        - recipe_input(f.factory_type, item) by {
        crate::types::lemma_item_slots();
        lemma_consume_all_count(f.inventory, f.factory_type, 8, item);
    }
    assert(tile_in(s1.tiles, d) == tile_in(s.tiles, d));
}

/// A move onto an empty conveyor puts the item on it and empties the conveyor
/// it came from; a move onto a cell whose tile already holds an item changes
/// nothing.
pub proof fn lemma_move_onto_empty_conveyor(s: WorldState, start: Position, end: Position, item: Item, c: Conveyor, src: Conveyor)
    requires
        key_of(start) != key_of(end),
    ensures
        tile_in(s.tiles, end) == Some(Tile::Conveyor(c)) && c.item is None ==> (apply_action(
            s,
            Action::Move(start, end, item),
        ) matches Some(s2) && tile_in(s2.tiles, end) == Some(
            Tile::Conveyor(Conveyor { item: Some(item), ..c }),
        ) && (tile_in(s.tiles, start) == Some(Tile::Conveyor(src)) ==> tile_in(s2.tiles, start)
            == Some(Tile::Conveyor(Conveyor { item: None, ..src })))),
        tile_in(s.tiles, end) == Some(Tile::Conveyor(c)) && c.item is Some ==> apply_action(
            s,
            Action::Move(start, end, item),
        ) == Some(s),
{
}

/// A move into a factory that has room for the item adds one to the factory's
/// count of that item and leaves its other counts alone; a factory without room
/// takes nothing.
pub proof fn lemma_move_into_factory(s: WorldState, start: Position, end: Position, item: Item, f: Factory)
    requires
        key_of(start) != key_of(end),
        tile_in(s.tiles, end) == Some(Tile::Factory(f)),
        f.item is None,
    ensures
        f.inventory.count(item) < crate::tiles::factory::factory_capacity(f.factory_type, item) ==> (
        apply_action(s, Action::Move(start, end, item)) matches Some(s2) && tile_in(s2.tiles, end)
            matches Some(Tile::Factory(g)) && g.inventory.count(item) == f.inventory.count(item)
            + 1 && (forall|other: Item|
            other != item ==> #[trigger] g.inventory.count(other) == f.inventory.count(other))),
        f.inventory.count(item) >= crate::tiles::factory::factory_capacity(f.factory_type, item)
            ==> apply_action(s, Action::Move(start, end, item)) == Some(s),
{
    crate::types::lemma_with_count(f.inventory, item, (f.inventory.count(item) + 1) as u32);
}

/// A router's move onto an empty conveyor puts the item on the conveyor,
/// empties the router and advances its output round by one.
pub proof fn lemma_router_move_onto_empty_conveyor(s: WorldState, start: Position, end: Position, item: Item, o: RouterOutputIndex, c: Conveyor, r: Router)
    requires
        key_of(start) != key_of(end),
        tile_in(s.tiles, end) == Some(Tile::Conveyor(c)),
        c.item is None,
        tile_in(s.tiles, start) == Some(Tile::Router(r)),
    ensures
        apply_action(s, Action::MoveRouter(start, end, item, o)) matches Some(s2) && tile_in(
            s2.tiles,
            end,
        ) == Some(Tile::Conveyor(Conveyor { item: Some(item), ..c })) && tile_in(s2.tiles, start)
            == Some(
            Tile::Router(Router { item: None, last_output: next_output(r.last_output), ..r }),
        ),
{
}

/// A portal or core handing out a tile adds one tile of that id to the
/// player's resources and nothing to any other id; a portal is emptied, a core
/// starts counting from 0 again. A core counting up adds one to its count.
pub proof fn lemma_teleport_and_count(s: WorldState, pos: Position, id: (u8, u8), other: (u8, u8))
    requires
        other != id,
    ensures
        count_of(s.resources, id) < u32::MAX ==> (tile_in(s.tiles, pos) matches Some(Tile::Portal(p)) ==> (apply_action(
            s,
            Action::Teleport(pos, id),
        ) matches Some(s2) && count_of(s2.resources, id) == count_of(s.resources, id) + 1
            && count_of(s2.resources, other) == count_of(s.resources, other) && tile_in(
            s2.tiles,
            pos,
        ) == Some(Tile::Portal(Portal { item: None, ..p })))),
        count_of(s.resources, id) < u32::MAX ==> (tile_in(s.tiles, pos) matches Some(Tile::Core(c))
            ==> (apply_action(s, Action::Teleport(pos, id)) matches Some(s2) && count_of(
            s2.resources,
            id,
        ) == count_of(s.resources, id) + 1 && count_of(s2.resources, other) == count_of(
            s.resources,
            other,
        ) && tile_in(s2.tiles, pos) == Some(Tile::Core(Core { ticks: 0, ..c })))),
        tile_in(s.tiles, pos) matches Some(Tile::Core(c)) ==> (c.ticks < u32::MAX ==> (apply_action(
            s,
            Action::IncreaseTicks(pos),
        ) matches Some(s2) && tile_in(s2.tiles, pos) == Some(
            Tile::Core(Core { ticks: (c.ticks + 1) as u32, ..c }),
        ))),
{
    if crate::resources::tile_id_key(other) == crate::resources::tile_id_key(id) {
        crate::resources::lemma_tile_id_key_injective(other, id);
    }
}

/// An extractor's producing step puts its raw item on an empty conveyor that it
/// faces, and leaves the extractor holding nothing.
pub proof fn lemma_extractor_run_delivers(s: WorldState, pos: Position, e: Extractor, c: Conveyor)
    requires
        tile_in(s.tiles, pos) == Some(Tile::Extractor(e)),
        pos.can_shift(e.direction),
        tile_in(s.tiles, pos.neighbor(e.direction)) == Some(Tile::Conveyor(c)),
        c.item is None,
    ensures
        apply_action(s, Action::Produce(pos)) matches Some(s2) && tile_in(
            s2.tiles,
            pos.neighbor(e.direction),
        ) == Some(Tile::Conveyor(Conveyor { item: Some(extractor_item(e.extractor_type)), ..c }))
            && tile_in(s2.tiles, pos) == Some(Tile::Extractor(Extractor { item: None, ..e })),
{
    let d = pos.neighbor(e.direction);
    if key_of(d) == key_of(pos) {
        crate::types::lemma_key_injective(d, pos);
    }
}

/// A move into a junction puts the item on the lane along the move, when that
/// lane is free, remembering the side it came in from: moving right it comes
/// in from the left, moving left from the right, moving up from below, moving
/// down from above.
pub proof fn lemma_move_into_junction(s: WorldState, start: Position, end: Position, item: Item, j: Junction)
    requires
        key_of(start) != key_of(end),
        tile_in(s.tiles, end) == Some(Tile::Junction(j)),
    ensures
        end.y == start.y && j.horizontal_item is None ==> (apply_action(
            s,
            Action::Move(start, end, item),
        ) matches Some(s2) && tile_in(s2.tiles, end) == Some(
            Tile::Junction(
                Junction {
                    horizontal_item: Some(
                        (item, if end.x > start.x {
                            Direction::Left
                        } else {
                            Direction::Right
                        }),
                    ),
                    ..j
                },
            ),
        )),
        end.y != start.y && j.vertical_item is None ==> (apply_action(
            s,
            Action::Move(start, end, item),
        ) matches Some(s2) && tile_in(s2.tiles, end) == Some(
            Tile::Junction(
                Junction {
                    vertical_item: Some(
                        (item, if end.y > start.y {
                            Direction::Down
                        } else {
                            Direction::Up
                        }),
                    ),
                    ..j
                },
            ),
        )),
{
}

} // verus!
