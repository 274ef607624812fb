use std::collections::HashSet;
use vstd::prelude::*;
use vstd::std_specs::iter::IteratorSpec;

use crate::resources::{tile_in, WorldRes, WorldView};
use crate::tiles::extractor::extractor_item;
use crate::tiles::factory::recipe_output;
use crate::tiles::{Factory, Tile};
use crate::types::{key_of, Action, Item, Position, RouterOutputIndex};

verus! {

broadcast use vstd::std_specs::hash::group_hash_axioms;

/// One item sliding from a cell to a neighbouring one on screen.
pub type Animation = (Item, Position, Position);

/// The cells that the animation pass has seen receive an item (`filled`) and
/// those it takes to be free (`empty`), each by the key of the cell.
pub struct SlotSets {
    pub filled: Set<u64>,
    pub empty: Set<u64>,
}

/// Whether a tile shows as free at the start of the pass: an empty conveyor,
/// an empty router, or any factory.
pub open spec fn starts_empty(t: Tile) -> bool {
    match t {
        Tile::Conveyor(c) => c.item is None,
        Tile::Router(r) => r.item is None,
        Tile::Factory(_) => true,
        _ => false,
    }
}

/// The keys of the cells that show as free at the start of the pass.
pub open spec fn initial_empty(tiles: Map<u64, (Tile, (u8, u8))>) -> Set<u64> {
    Set::new(|k: u64| tiles.contains_key(k) && starts_empty(tiles[k].0))
}

/// Whether the cell `end` is free and not yet filled in this pass.
pub open spec fn slot_free(s: SlotSets, end: Position) -> bool {
    !s.filled.contains(key_of(end)) && s.empty.contains(key_of(end))
}

/// The sets after an item left `start` for `end`.
pub open spec fn slot_moved(s: SlotSets, start: Position, end: Position) -> SlotSets {
    SlotSets {
        filled: s.filled.insert(key_of(end)).remove(key_of(start)),
        empty: s.empty.remove(key_of(end)).insert(key_of(start)),
    }
}

/// Whether the tile at `end` is seen to take `item` from a router or a
/// producing tile: a free conveyor or router, a factory with room for it, an
/// empty portal.
pub open spec fn shown_accepts(w: WorldView, s: SlotSets, end: Position, item: Item) -> bool {
    match tile_in(w.tiles, end) {
        Some(Tile::Conveyor(_)) => slot_free(s, end),
        Some(Tile::Router(_)) => slot_free(s, end),
        Some(Tile::Factory(f)) => f.has_room_for(item),
        Some(Tile::Portal(p)) => p.item is None,
        _ => false,
    }
}

/// The item and destination of a shown production at `p`: a factory that is
/// ready and due, or an extractor with an empty slot on a producing tick,
/// whose faced cell is seen to take the product.
pub open spec fn shown_product(w: WorldView, s: SlotSets, p: Position) -> Option<(Item, Position)> {
    match tile_in(w.tiles, p) {
        Some(Tile::Factory(f)) => {
            let d = p.neighbor(f.direction);
            let item = recipe_output(f.factory_type);
            if f.ready() && f.ticks >= f.interval && shown_accepts(w, s, d, item) {
                Some((item, d))
            } else {
                None
            }
        },
        Some(Tile::Extractor(e)) => {
            let d = p.neighbor(e.direction);
            let item = extractor_item(e.extractor_type);
            if e.item is None && e.produces_now(w) && shown_accepts(w, s, d, item) {
                Some((item, d))
            } else {
                None
            }
        },
        _ => None,
    }
}

/// The pass after looking at one action: the sets it leaves and whether it
/// shows a slide, and which.
pub open spec fn anim_step(w: WorldView, s: SlotSets, a: Action) -> (SlotSets, Option<Animation>) {
    match a {
        Action::Move(start, end, item) => match tile_in(w.tiles, end) {
            Some(Tile::Conveyor(_)) | Some(Tile::Router(_)) => if slot_free(s, end) {
                (slot_moved(s, start, end), Some((item, start, end)))
            } else {
                (s, None)
            },
            Some(Tile::Factory(f)) => if f.has_room_for(item) {
                (
                    SlotSets {
                        filled: s.filled.remove(key_of(start)),
                        empty: s.empty.insert(key_of(start)),
                    },
                    Some((item, start, end)),
                )
            } else {
                (s, None)
            },
            Some(Tile::Portal(p)) => if p.item is None {
                (slot_moved(s, start, end), Some((item, start, end)))
            } else {
                (s, None)
            },
            Some(Tile::Junction(j)) => {
                let free = if start.y == end.y {
                    j.horizontal_item is None
                } else {
                    j.vertical_item is None
                };
                if free {
                    (
                        SlotSets {
                            filled: s.filled.insert(key_of(end)).remove(key_of(start)),
                            empty: s.empty,
                        },
                        Some((item, start, end)),
                    )
                } else {
                    (s, None)
                }
            },
            _ => (s, None),
        },
        Action::MoveRouter(start, end, item, _) => if shown_accepts(w, s, end, item) {
            (slot_moved(s, start, end), Some((item, start, end)))
        } else {
            (s, None)
        },
        Action::Produce(p) => match shown_product(w, s, p) {
            Some((item, d)) => (
                SlotSets { filled: s.filled.insert(key_of(d)), empty: s.empty.remove(key_of(d)) },
                Some((item, p, d)),
            ),
            None => (s, None),
        },
        _ => (s, None),
    }
}

/// The sets and the slides after looking at `acts` in order.
pub open spec fn anim_run(w: WorldView, acts: Seq<Action>) -> (SlotSets, Seq<Animation>)
    decreases acts.len(),
{
    if acts.len() == 0 {
        (SlotSets { filled: Set::empty(), empty: initial_empty(w.tiles) }, Seq::empty())
    } else {
        let (s, out) = anim_run(w, acts.drop_last());
        let (s2, shown) = anim_step(w, s, acts.last());
        match shown {
            Some(m) => (s2, out.push(m)),
            None => (s2, out),
        }
    }
}

/// Whether working out the slide of `a` stays inside the `i32` range of cells:
/// a production that is due looks at the cell the producer faces.
pub open spec fn anim_in_range(w: WorldView, a: Action) -> bool {
    match a {
        Action::Produce(p) => match tile_in(w.tiles, p) {
            Some(Tile::Factory(f)) => (f.ready() && f.ticks >= f.interval) ==> p.can_shift(
                f.direction,
            ),
            Some(Tile::Extractor(e)) => (e.item is None && e.produces_now(w)) ==> p.can_shift(
                e.direction,
            ),
            _ => true,
        },
        _ => true,
    }
}

/// Whether the cell `end` is free and not yet filled in this pass.
fn shows_free(filled: &HashSet<u64>, empty: &HashSet<u64>, end: Position) -> (b: bool)
    ensures
        b == slot_free(SlotSets { filled: filled@, empty: empty@ }, end),
{
    let k = end.get_as_key();
    !filled.contains(&k) && empty.contains(&k)
}

/// Records that an item left `start` for `end`.
fn mark_moved(filled: &mut HashSet<u64>, empty: &mut HashSet<u64>, start: Position, end: Position)
    ensures
        (SlotSets { filled: final(filled)@, empty: final(empty)@ }) == slot_moved(
            SlotSets { filled: old(filled)@, empty: old(empty)@ },
            start,
            end,
        ),
{
    let e = end.get_as_key();
    let s = start.get_as_key();
    filled.insert(e);
    empty.remove(&e);
    filled.remove(&s);
    empty.insert(s);
}

impl WorldRes {
    /// Whether the tile at `end` is seen to take `item` from a router or a
    /// producing tile.
    fn shows_accepting(&self, filled: &HashSet<u64>, empty: &HashSet<u64>, end: Position, item: Item) -> (b: bool)
        ensures
            b == shown_accepts(self@, SlotSets { filled: filled@, empty: empty@ }, end, item),
    {
        match self.get_tile(end) {
            Some(Tile::Conveyor(_)) => shows_free(filled, empty, end),
            Some(Tile::Router(_)) => shows_free(filled, empty, end),
            Some(Tile::Factory(f)) => f.factory_type.capacity().get(item) > f.inventory.get(item),
            Some(Tile::Portal(p)) => p.item.is_none(),
            _ => false,
        }
    }

    /// The item and destination of a shown production at `p`, if any.
    fn shown_production(&self, filled: &HashSet<u64>, empty: &HashSet<u64>, p: Position) -> (r: Option<(Item, Position)>)
        requires
            anim_in_range(self@, Action::Produce(p)),
        ensures
            r == shown_product(self@, SlotSets { filled: filled@, empty: empty@ }, p),
    {
        match self.get_tile(p) {
            Some(Tile::Factory(f)) => {
                if f.can_produce() && f.ticks >= f.interval {
                    let d = p.shift(f.direction);
                    let item = f.factory_type.recipe().output;
                    if self.shows_accepting(filled, empty, d, item) {
                        return Some((item, d));
                    }
                }
                None
            },
            Some(Tile::Extractor(e)) => {
                if e.item.is_none() && e.produces_in(self) {
                    let d = p.shift(e.direction);
                    let item = e.extractor_type.spawn_item();
                    if self.shows_accepting(filled, empty, d, item) {
                        return Some((item, d));
                    }
                }
                None
            },
            _ => None,
        }
    }

    /// The keys of the cells that show as free at the start of the pass.
    fn initially_empty(&self) -> (e: HashSet<u64>)
        ensures
            e@ == initial_empty(self.tiles@),
    {
        let mut e: HashSet<u64> = HashSet::new();
        let ghost all = self.tiles@;
        let ghost ks = vstd::std_specs::hash::spec_keys_iter(&self.tiles).remaining().unref();
        proof {
            broadcast use vstd::std_specs::hash::axiom_spec_keys_iter;
        }
        for k in it: self.tiles.keys()
            invariant
                all == self.tiles@,
                ks.to_set() == all.dom(),
                ks.no_duplicates(),
                it.seq().unref() == ks,
                forall|j: u64| #[trigger]
                    e@.contains(j) <==> (ks.take(it.index() as int).contains(j) && all.contains_key(j)
                        && starts_empty(all[j].0)),
        {
            let ghost before = ks.take(it.index() as int);
            proof {
                assert(ks.take(it.index() + 1) =~= before.push(*k));
                assert(ks.contains(*k));
                assert(all.dom().contains(*k));
            }
            let shown_empty = match self.tiles.get(k) {
                Some(entry) => match entry.0 {
                    Tile::Conveyor(c) => c.item.is_none(),
                    Tile::Router(r) => r.item.is_none(),
                    Tile::Factory(_) => true,
                    _ => false,
                },
                None => false,
            };
            if shown_empty {
                e.insert(*k);
            }
            proof {
                assert forall|j: u64| #[trigger]
                    e@.contains(j) <==> (ks.take(it.index() + 1).contains(j) && all.contains_key(j)
                        && starts_empty(all[j].0)) by {
                    if j == *k {
                        assert(before.push(*k)[before.len() as int] == j);
                    } else if before.contains(j) {
                        let a = choose|a: int| 0 <= a < before.len() && before[a] == j;
                        assert(before.push(*k)[a] == j);
                    } else if before.push(*k).contains(j) {
                        let a = choose|a: int| 0 <= a < before.len() + 1 && before.push(*k)[a] == j;
                        assert(before[a] == j);
                    }
                }
            }
        }
        proof {
            assert(ks.take(ks.len() as int) =~= ks);
            assert forall|j: u64| e@.contains(j) <==> initial_empty(all).contains(j) by {
                if all.contains_key(j) {
                    assert(ks.to_set().contains(j));
                }
            }
            assert(e@ =~= initial_empty(all));
        }
        e
    }

    /// Whether working out the slide of every planned step stays inside the
    /// `i32` range of cells.
    pub fn slides_fit(&self) -> (b: bool)
        ensures
            b == forall|i: int| 0 <= i < self.actions@.len() ==> anim_in_range(self@, #[trigger] self.actions@[i]),
    {
        let mut i: usize = 0;
        while i < self.actions.len()
            invariant
                i <= self.actions.len(),
                forall|j: int| 0 <= j < i ==> anim_in_range(self@, #[trigger] self.actions@[j]),
            decreases self.actions.len() - i,
        {
            let a = self.actions[i];
            let fits = match a {
                Action::Produce(p) => match self.get_tile(p) {
                    Some(Tile::Factory(f)) => !(f.can_produce() && f.ticks >= f.interval) || p.fits_shift(f.direction),
                    Some(Tile::Extractor(e)) => !(e.item.is_none() && e.produces_in(self)) || p.fits_shift(e.direction),
                    _ => true,
                },
                _ => true,
            };
            if !fits {
                return false;
            }
            i = i + 1;
        }
        true
    }

    /// The item slides that this tick's actions show, in the order of the
    /// actions: an item is shown to move only where it is seen to find room.
    pub fn animated_moves(&self) -> (v: Vec<Animation>)
        requires
            forall|i: int| 0 <= i < self.actions@.len() ==> anim_in_range(self@, #[trigger] self.actions@[i]),
        ensures
            v@ == anim_run(self@, self.actions@).1,
    {
        let mut filled: HashSet<u64> = HashSet::new();
        let mut empty = self.initially_empty();
        let mut v: Vec<Animation> = Vec::new();
        let n = self.actions.len();
        let mut i: usize = 0;
        proof {
            assert(self.actions@.take(0) =~= Seq::<Action>::empty());
            assert(filled@ =~= Set::<u64>::empty());
        }
        while i < n
            invariant
                n == self.actions@.len(),
                0 <= i <= n,
                forall|j: int| 0 <= j < self.actions@.len() ==> anim_in_range(self@, #[trigger] self.actions@[j]),
                ({
                    let (s, out) = anim_run(self@, self.actions@.take(i as int));
                    s.filled == filled@ && s.empty == empty@ && out == v@
                }),
            decreases n - i,
        {
            let a = self.actions[i];
            proof {
                let t = self.actions@.take(i + 1);
                assert(t.drop_last() =~= self.actions@.take(i as int));
                assert(t.last() == a);
            }
            let ghost s0 = SlotSets { filled: filled@, empty: empty@ };
            match a {
                Action::Move(start, end, item) => {
                    match self.get_tile(end) {
                        Some(Tile::Conveyor(_)) | Some(Tile::Router(_)) => {
                            if shows_free(&filled, &empty, end) {
                                mark_moved(&mut filled, &mut empty, start, end);
                                v.push((item, start, end));
                            }
                        },
                        Some(Tile::Factory(f)) => {
                            if f.factory_type.capacity().get(item) > f.inventory.get(item) {
                                let s = start.get_as_key();
                                filled.remove(&s);
                                empty.insert(s);
                                v.push((item, start, end));
                            }
                        },
                        Some(Tile::Portal(p)) => {
                            if p.item.is_none() {
                                mark_moved(&mut filled, &mut empty, start, end);
                                v.push((item, start, end));
                            }
                        },
                        Some(Tile::Junction(j)) => {
                            let free = if start.y == end.y {
                                j.horizontal_item.is_none()
                            } else {
                                j.vertical_item.is_none()
                            };
                            if free {
                                filled.insert(end.get_as_key());
                                filled.remove(&start.get_as_key());
                                v.push((item, start, end));
                            }
                        },
                        _ => {},
                    }
                },
                Action::MoveRouter(start, end, item, _) => {
                    if self.shows_accepting(&filled, &empty, end, item) {
                        mark_moved(&mut filled, &mut empty, start, end);
                        v.push((item, start, end));
                    }
                },
                Action::Produce(p) => {
                    proof {
                        assert(self.actions@[i as int] == a);
                    }
                    match self.shown_production(&filled, &empty, p) {
                        Some((item, d)) => {
                            let dk = d.get_as_key();
                            filled.insert(dk);
                            empty.remove(&dk);
                            v.push((item, p, d));
                        },
                        None => {},
                    }
                },
                _ => {},
            }
            proof {
                let (s1, shown) = anim_step(self@, s0, a);
                assert(s1.filled =~= filled@);
                assert(s1.empty =~= empty@);
            }
            i = i + 1;
        }
        proof {
            assert(self.actions@.take(n as int) =~= self.actions@);
        }
        v
    }
}

/// Where every tile stands under its own key with the room from the edge of
/// the `i32` range that its ticks need, every action can be shown.
pub proof fn lemma_interior_anim_in_range(w: WorldView, a: Action)
    requires
        forall|k: u64|
            w.tiles.contains_key(k) ==> key_of(#[trigger] w.tiles[k].0.pos()) == k
                && w.tiles[k].0.stays_inside(),
    ensures
        anim_in_range(w, a),
{
    if let Action::Produce(p) = a {
        if w.tiles.contains_key(key_of(p)) {
            crate::types::lemma_key_injective(w.tiles[key_of(p)].0.pos(), p);
        }
    }
}

/// A move onto a conveyor or a router whose cell the pass still sees as free
/// (free at the start and not filled since) is shown as a slide of the item
/// from its start to its end; the end is then filled and the start freed. A
/// move onto a cell that has already been filled in the pass is not shown.
pub proof fn lemma_free_belt_shows_slide(w: WorldView, s: SlotSets, start: Position, end: Position, item: Item)
    requires
        tile_in(w.tiles, end) matches Some(Tile::Conveyor(_)) || tile_in(w.tiles, end) matches Some(
            Tile::Router(_),
        ),
    ensures
        s.empty.contains(key_of(end)) && !s.filled.contains(key_of(end)) ==> ({
            let (s2, shown) = anim_step(w, s, Action::Move(start, end, item));
            &&& shown == Some((item, start, end))
            &&& key_of(start) != key_of(end) ==> s2.filled.contains(key_of(end))
                && !s2.empty.contains(key_of(end)) && s2.empty.contains(key_of(start))
        }),
        s.filled.contains(key_of(end)) ==> anim_step(w, s, Action::Move(start, end, item)).1 is None,
{
}

/// The first move of a tick onto an empty conveyor or an empty router is
/// always shown: the slides begin with it.
pub proof fn lemma_first_move_onto_empty_belt_shown(w: WorldView, start: Position, end: Position, item: Item)
    requires
        (tile_in(w.tiles, end) matches Some(Tile::Conveyor(c)) && c.item is None) || (tile_in(
            w.tiles,
            end,
        ) matches Some(Tile::Router(r)) && r.item is None),
    ensures
        anim_run(w, seq![Action::Move(start, end, item)]).1 == seq![(item, start, end)],
{
    let acts = seq![Action::Move(start, end, item)];
    assert(acts.drop_last() =~= Seq::<Action>::empty());
    assert(initial_empty(w.tiles).contains(key_of(end)));
    assert(anim_run(w, acts.drop_last()).1 =~= Seq::<(Item, Position, Position)>::empty());
    assert(Seq::<(Item, Position, Position)>::empty().push((item, start, end)) =~= seq![(item, start, end)]);
}

/// A move into a factory with room for the item, or into an empty portal, is
/// shown as a slide; a router's move onto a conveyor or router that the pass
/// sees as free is shown too.
pub proof fn lemma_other_moves_show_slides(w: WorldView, s: SlotSets, start: Position, end: Position, item: Item, o: RouterOutputIndex)
    ensures
        (tile_in(w.tiles, end) matches Some(Tile::Factory(f)) && f.inventory.count(item)
            < crate::tiles::factory::factory_capacity(f.factory_type, item)) ==> anim_step(
            w,
            s,
            Action::Move(start, end, item),
        ).1 == Some((item, start, end)),
        (tile_in(w.tiles, end) matches Some(Tile::Portal(p)) && p.item is None) ==> anim_step(
            w,
            s,
            Action::Move(start, end, item),
        ).1 == Some((item, start, end)),
        ((tile_in(w.tiles, end) matches Some(Tile::Conveyor(_))) || (tile_in(w.tiles, end) matches Some(
            Tile::Router(_),
        ))) && s.empty.contains(key_of(end)) && !s.filled.contains(key_of(end)) ==> anim_step(
            w,
            s,
            Action::MoveRouter(start, end, item, o),
        ).1 == Some((item, start, end)),
{
}

/// A factory that is ready and due, facing a conveyor that the pass sees as
/// free, is shown sliding its output onto it.
pub proof fn lemma_production_shows_slide(w: WorldView, s: SlotSets, p: Position, f: Factory)
    requires
        tile_in(w.tiles, p) == Some(Tile::Factory(f)),
        f.ready(),
        f.ticks >= f.interval,
        tile_in(w.tiles, p.neighbor(f.direction)) matches Some(Tile::Conveyor(_)),
        s.empty.contains(key_of(p.neighbor(f.direction))),
        !s.filled.contains(key_of(p.neighbor(f.direction))),
    ensures
        anim_step(w, s, Action::Produce(p)).1 == Some(
            (recipe_output(f.factory_type), p, p.neighbor(f.direction)),
        ),
{
}

} // verus!
