use std::collections::HashMap;

use factoryfactory::player::{actions_not_from, Hotkeys, Placement};
use factoryfactory::resources::{core_menu_tiles, resource_key, WorldRes};
use factoryfactory::tiles::{Conveyor, Core, Factory, FactoryType, Junction, Portal, Router, Tile};
use factoryfactory::types::{Action, Direction, Item, ItemCounts, Position, RouterOutputIndex};
use factoryfactory::world::reversed;

fn origin() -> Position {
    Position::new(0, 0)
}

fn core_at_origin(w: &WorldRes) -> Core {
    match w.get_tile(origin()) {
        Some(Tile::Core(c)) => c,
        _ => panic!("no core at the origin"),
    }
}

fn conveyor(x: i32, y: i32, direction: Direction, item: Option<Item>) -> Tile {
    Tile::Conveyor(Conveyor { position: Position::new(x, y), direction, item })
}

fn put(w: &mut WorldRes, t: Tile, id: (u8, u8)) {
    w.tiles.insert(t.position().get_as_key(), (t, id));
}

#[test]
fn new_game_starting_state() {
    let w = WorldRes::new_game(42);
    assert_eq!(w.world_seed, 42);
    assert_eq!(w.money, 100);
    assert_eq!(w.tick_count, 0);
    assert!(w.actions.is_empty());
    assert!(w.terrain.is_empty());
    assert_eq!(w.tiles.len(), 1);
    let c = core_at_origin(&w);
    assert_eq!(c.interval, 10);
    assert_eq!(c.ticks, 0);
    assert_eq!(c.tile_id, (6, 1));
    assert_eq!(w.resource_count((2, 1)), 20);
    assert_eq!(w.resource_count((2, 2)), 5);
    assert_eq!(w.resource_count((2, 3)), 5);
    assert_eq!(w.resource_count((3, 1)), 1);
    assert_eq!(w.resource_count((3, 3)), 1);
    assert_eq!(w.resource_count((4, 1)), 1);
    assert_eq!(w.resource_count((4, 2)), 0);
}

#[test]
fn resource_keys_are_two_bytes() {
    assert_eq!(resource_key((0, 0)), 0);
    assert_eq!(resource_key((2, 1)), 513);
    assert_eq!(resource_key((255, 255)), 65535);
}

#[test]
fn core_counts_up_then_makes_its_tile() {
    let mut w = WorldRes::new_game(1);
    for _ in 0..11 {
        assert!(w.can_tick());
        assert!(w.tick());
    }
    assert_eq!(w.tick_count, 11);
    assert_eq!(core_at_origin(&w).ticks, 10);
    assert_eq!(w.actions, vec![Action::Teleport(origin(), (6, 1))]);
    assert_eq!(w.resource_count((6, 1)), 0);
    assert!(w.tick());
    assert_eq!(w.resource_count((6, 1)), 1);
    assert_eq!(core_at_origin(&w).ticks, 0);
}

#[test]
fn conveyor_line_carries_an_item() {
    let mut w = WorldRes::new_game(1);
    put(&mut w, conveyor(1, 1, Direction::Right, Some(Item::Rigtorium)), (2, 1));
    put(&mut w, conveyor(2, 1, Direction::Right, None), (2, 1));
    put(&mut w, conveyor(3, 1, Direction::Right, None), (2, 1));
    assert!(w.tick());
    assert!(w.tick());
    assert_eq!(w.get_tile(Position::new(1, 1)).unwrap().get_item(), None);
    assert_eq!(w.get_tile(Position::new(2, 1)).unwrap().get_item(), Some(Item::Rigtorium));
    assert!(w.tick());
    assert_eq!(w.get_tile(Position::new(2, 1)).unwrap().get_item(), None);
    assert_eq!(w.get_tile(Position::new(3, 1)).unwrap().get_item(), Some(Item::Rigtorium));
}

#[test]
fn full_line_moves_together() {
    let mut w = WorldRes::new_game(1);
    put(&mut w, conveyor(1, 1, Direction::Right, Some(Item::Rigtorium)), (2, 1));
    put(&mut w, conveyor(2, 1, Direction::Right, Some(Item::Electrine)), (2, 1));
    put(&mut w, conveyor(3, 1, Direction::Right, None), (2, 1));
    assert!(w.tick());
    assert!(w.tick());
    assert_eq!(w.get_tile(Position::new(1, 1)).unwrap().get_item(), None);
    assert_eq!(w.get_tile(Position::new(2, 1)).unwrap().get_item(), Some(Item::Rigtorium));
    assert_eq!(w.get_tile(Position::new(3, 1)).unwrap().get_item(), Some(Item::Electrine));
}

#[test]
fn factory_takes_items_into_inventory() {
    let mut w = WorldRes::new_game(1);
    put(&mut w, conveyor(1, 1, Direction::Right, Some(Item::RawRigtorium)), (2, 1));
    let f = Factory {
        position: Position::new(2, 1),
        direction: Direction::Right,
        factory_type: FactoryType::RigtoriumSmelter,
        inventory: ItemCounts::new(),
        item: None,
        interval: 2,
        ticks: 0,
    };
    put(&mut w, Tile::Factory(f), (4, 1));
    assert!(w.tick());
    assert!(w.tick());
    match w.get_tile(Position::new(2, 1)) {
        Some(Tile::Factory(g)) => assert_eq!(g.inventory.get(Item::RawRigtorium), 1),
        _ => panic!("factory missing"),
    }
    assert_eq!(w.get_tile(Position::new(1, 1)).unwrap().get_item(), None);
}

#[test]
fn junction_takes_item_on_its_lane() {
    let mut w = WorldRes::new_game(1);
    put(&mut w, conveyor(1, 1, Direction::Right, Some(Item::Flextorium)), (2, 1));
    let j = Junction { position: Position::new(2, 1), horizontal_item: None, vertical_item: None };
    put(&mut w, Tile::Junction(j), (2, 3));
    assert!(w.tick());
    assert!(w.tick());
    match w.get_tile(Position::new(2, 1)) {
        Some(Tile::Junction(k)) => {
            assert_eq!(k.horizontal_item, Some((Item::Flextorium, Direction::Left)));
            assert_eq!(k.vertical_item, None);
        }
        _ => panic!("junction missing"),
    }
}

#[test]
fn portal_teleports_tiles_into_resources() {
    let mut w = WorldRes::new_game(1);
    put(&mut w, Tile::Portal(Portal { position: Position::new(5, 5), item: Some(Item::Router) }), (1, 2));
    assert!(w.tick());
    assert!(w.tick());
    assert_eq!(w.resource_count((1, 2)), 1);
    assert_eq!(w.get_tile(Position::new(5, 5)).unwrap().get_item(), None);
}

#[test]
fn router_advances_its_output() {
    let mut w = WorldRes::new_game(1);
    let r = Router {
        position: Position::new(4, 4),
        direction: Direction::Up,
        item: Some(Item::Electrine),
        last_output: RouterOutputIndex::Forward,
    };
    put(&mut w, Tile::Router(r), (2, 2));
    put(&mut w, conveyor(5, 4, Direction::Right, None), (2, 1));
    assert!(w.tick());
    assert!(w.tick());
    match w.get_tile(Position::new(4, 4)) {
        Some(Tile::Router(s)) => {
            assert_eq!(s.item, None);
            assert_eq!(s.last_output, RouterOutputIndex::Right);
        }
        _ => panic!("router missing"),
    }
    assert_eq!(w.get_tile(Position::new(5, 4)).unwrap().get_item(), Some(Item::Electrine));
}

#[test]
fn producing_on_a_plain_cell_stops_the_tick() {
    let mut w = WorldRes::new_game(1);
    put(&mut w, conveyor(1, 1, Direction::Up, None), (2, 1));
    w.actions = vec![Action::Produce(Position::new(1, 1)), Action::IncreaseTicks(origin())];
    assert!(!w.tick());
    assert_eq!(w.tick_count, 1);
    assert_eq!(w.actions.len(), 2);
    assert_eq!(core_at_origin(&w).ticks, 0);
}

#[test]
fn can_tick_checks_ranges() {
    let mut w = WorldRes::new_game(1);
    assert!(w.can_tick());
    w.tick_count = i32::MAX;
    assert!(!w.can_tick());
    w.tick_count = 0;
    put(&mut w, conveyor(i32::MAX, 0, Direction::Up, None), (2, 1));
    assert!(!w.can_tick());
    let mut v = WorldRes::new_game(1);
    v.resources.insert(resource_key((2, 1)), u32::MAX);
    v.actions = vec![Action::IncreaseTicks(origin())];
    assert!(v.can_tick());
    v.actions = vec![Action::Teleport(origin(), (2, 1))];
    assert!(!v.can_tick());
    v.actions = vec![Action::Teleport(origin(), (2, 2))];
    assert!(v.can_tick());
    v.actions = vec![Action::Produce(Position::new(7, 7)), Action::Teleport(origin(), (2, 1))];
    put(&mut v, conveyor(7, 7, Direction::Up, None), (2, 1));
    assert!(v.can_tick());
    assert_eq!(v.resource_count((2, 1)), u32::MAX);
    assert!(!v.step_fits(Action::Teleport(origin(), (2, 1))));
    assert!(v.step_fits(Action::Teleport(origin(), (2, 2))));
    assert!(v.layout_holds());
}

#[test]
fn placing_costs_one_tile() {
    let mut w = WorldRes::new_game(1);
    let p = Position::new(3, 3);
    assert_eq!(w.place_tile(p, (2, 2), Direction::Left), Placement::Placed);
    assert_eq!(w.resource_count((2, 2)), 4);
    match w.get_tile(p) {
        Some(Tile::Router(r)) => {
            assert_eq!(r.direction, Direction::Left);
            assert_eq!(r.last_output, RouterOutputIndex::Forward);
            assert_eq!(r.item, None);
        }
        _ => panic!("router not placed"),
    }
    assert_eq!(w.place_tile(p, (4, 2), Direction::Up), Placement::Refused);
    assert_eq!(w.place_tile(p, (2, 1), Direction::Up), Placement::Replaced);
    assert_eq!(w.resource_count((2, 2)), 5);
    assert_eq!(w.resource_count((2, 1)), 19);
    assert_eq!(w.place_tile(origin(), (2, 1), Direction::Up), Placement::CoreCell);
    assert_eq!(w.resource_count((2, 1)), 19);
    assert!(w.layout_holds());
    for (k, e) in w.tiles.iter() {
        assert_eq!(e.0.position().get_as_key(), *k);
    }
}

#[test]
fn replacing_with_same_kind_when_none_left() {
    let mut w = WorldRes::new_game(1);
    let p = Position::new(1, 0);
    assert_eq!(w.place_tile(p, (4, 1), Direction::Up), Placement::Placed);
    assert_eq!(w.resource_count((4, 1)), 0);
    assert_eq!(w.place_tile(p, (4, 1), Direction::Down), Placement::Replaced);
    assert_eq!(w.resource_count((4, 1)), 0);
    match w.get_tile(p) {
        Some(Tile::Factory(f)) => {
            assert_eq!(f.direction, Direction::Down);
            assert_eq!(f.factory_type, FactoryType::RigtoriumSmelter);
        }
        _ => panic!("factory not placed"),
    }
}

#[test]
fn placing_drops_steps_from_the_cell() {
    let mut w = WorldRes::new_game(1);
    let p = Position::new(2, 0);
    w.actions = vec![
        Action::Move(p, Position::new(3, 0), Item::Electrine),
        Action::IncreaseTicks(origin()),
    ];
    assert_eq!(w.place_tile(p, (2, 1), Direction::Up), Placement::Placed);
    assert_eq!(w.actions, vec![Action::IncreaseTicks(origin())]);
    let kept = actions_not_from(&vec![Action::Produce(p), Action::Produce(origin())], p);
    assert_eq!(kept, vec![Action::Produce(origin())]);
}

#[test]
fn removing_returns_the_tile() {
    let mut w = WorldRes::new_game(1);
    let p = Position::new(-2, 7);
    assert!(!w.remove_tile(p));
    assert_eq!(w.place_tile(p, (2, 3), Direction::Up), Placement::Placed);
    assert_eq!(w.resource_count((2, 3)), 4);
    assert!(w.remove_tile(p));
    assert_eq!(w.resource_count((2, 3)), 5);
    assert!(!w.has_tile(p));
    assert!(!w.remove_tile(origin()));
    assert!(w.has_tile(origin()));
}

#[test]
fn buying_and_selling() {
    let mut w = WorldRes::new_game(1);
    assert!(w.buy_tile((4, 4)));
    assert_eq!(w.money, 60);
    assert_eq!(w.resource_count((4, 4)), 1);
    assert!(w.sell_tile((4, 4)));
    assert_eq!(w.money, 100);
    assert_eq!(w.resource_count((4, 4)), 0);
    assert!(!w.sell_tile((4, 4)));
    w.money = 5;
    assert!(!w.buy_tile((2, 1)));
    assert_eq!(w.money, 5);
}

#[test]
fn core_output_can_be_changed() {
    let mut w = WorldRes::new_game(1);
    assert!(w.tick());
    assert!(w.tick());
    assert_eq!(core_at_origin(&w).ticks, 1);
    assert_eq!(w.core_output(origin()), (6, 1));
    assert!(w.set_core_output(origin(), (4, 3)));
    let c = core_at_origin(&w);
    assert_eq!(c.tile_id, (4, 3));
    assert_eq!(c.interval, 70);
    assert_eq!(c.ticks, 0);
    assert_eq!(w.core_output(origin()), (4, 3));
    assert_eq!(w.core_output(Position::new(1, 1)), (0, 1));
    assert!(!w.set_core_output(Position::new(1, 1), (2, 1)));
}

#[test]
fn owned_tiles_lists_a_category() {
    let w = WorldRes::new_game(1);
    let mut v = w.owned_tiles(2);
    v.sort();
    assert_eq!(v, vec![((2, 1), 20), ((2, 2), 5), ((2, 3), 5)]);
    let mut v3 = w.owned_tiles(3);
    v3.sort();
    assert_eq!(v3, vec![((3, 1), 1), ((3, 3), 1)]);
    assert!(w.owned_tiles(5).is_empty());
}

#[test]
fn core_menu_categories() {
    assert_eq!(core_menu_tiles(1), vec![(1, 2)]);
    assert_eq!(core_menu_tiles(4), vec![(4, 1), (4, 2), (4, 3), (4, 4), (4, 5)]);
    assert!(core_menu_tiles(9).is_empty());
}

#[test]
fn hotkeys_assign_and_get() {
    let mut h = Hotkeys::new();
    assert_eq!(h.get(3), None);
    h.assign(3, (2, 2));
    h.assign(4, (4, 1));
    assert_eq!(h.get(3), Some((2, 2)));
    h.assign(3, (2, 3));
    assert_eq!(h.get(3), Some((2, 3)));
    assert_eq!(h.get(4), Some((4, 1)));
}

#[test]
fn reversed_reverses() {
    let a = Action::IncreaseTicks(origin());
    let b = Action::Produce(Position::new(1, 1));
    assert_eq!(reversed(&vec![a, b]), vec![b, a]);
    assert!(reversed(&Vec::new()).is_empty());
}

#[test]
fn collected_actions_of_a_world() {
    let mut w = WorldRes::new_game(1);
    w.tiles = HashMap::new();
    put(&mut w, conveyor(0, 0, Direction::Up, Some(Item::Electrine)), (2, 1));
    put(&mut w, conveyor(0, 1, Direction::Up, None), (2, 1));
    let acts = w.collect_tile_actions();
    assert_eq!(acts, vec![Action::Move(origin(), Position::new(0, 1), Item::Electrine)]);
}

#[test]
fn ticks_keep_every_tile_on_its_cell() {
    let mut w = WorldRes::new_game(1);
    put(&mut w, conveyor(1, 1, Direction::Right, Some(Item::Conveyor)), (2, 1));
    put(&mut w, conveyor(2, 1, Direction::Right, None), (2, 1));
    put(&mut w, Tile::Portal(Portal { position: Position::new(3, 1), item: None }), (1, 2));
    let before: Vec<(u64, (u8, u8))> = {
        let mut v: Vec<(u64, (u8, u8))> = w.tiles.iter().map(|(k, e)| (*k, e.1)).collect();
        v.sort();
        v
    };
    for _ in 0..6 {
        assert!(w.tick());
    }
    let mut after: Vec<(u64, (u8, u8))> = w.tiles.iter().map(|(k, e)| (*k, e.1)).collect();
    after.sort();
    assert_eq!(before, after);
    for (k, e) in w.tiles.iter() {
        assert_eq!(e.0.position().get_as_key(), *k);
    }
    assert_eq!(w.resource_count((1, 1)), 1);
}

fn stock_of(w: &WorldRes, id: (u8, u8)) -> u64 {
    w.resource_count(id) as u64 + w.tiles.values().filter(|e| e.1 == id).count() as u64
}

#[test]
fn placing_and_clearing_only_move_stock() {
    let mut w = WorldRes::new_game(1);
    let ids = [(2, 1), (2, 2), (2, 3), (4, 1), (6, 1)];
    let before: Vec<u64> = ids.iter().map(|id| stock_of(&w, *id)).collect();
    assert_eq!(w.place_tile(Position::new(1, 0), (2, 1), Direction::Up), Placement::Placed);
    assert_eq!(w.place_tile(Position::new(1, 0), (2, 2), Direction::Up), Placement::Replaced);
    assert_eq!(w.place_tile(Position::new(2, 0), (4, 1), Direction::Up), Placement::Placed);
    assert_eq!(w.place_tile(Position::new(3, 0), (4, 1), Direction::Up), Placement::Refused);
    assert!(w.remove_tile(Position::new(2, 0)));
    let after: Vec<u64> = ids.iter().map(|id| stock_of(&w, *id)).collect();
    assert_eq!(before, after);
}

#[test]
fn the_core_cell_is_never_touched() {
    let mut w = WorldRes::new_game(1);
    let core = core_at_origin(&w);
    assert_eq!(w.place_tile(origin(), (2, 1), Direction::Up), Placement::CoreCell);
    assert!(!w.remove_tile(origin()));
    assert_eq!(w.place_tile(Position::new(0, 1), (2, 1), Direction::Up), Placement::Placed);
    assert!(w.remove_tile(Position::new(0, 1)));
    let after = core_at_origin(&w);
    assert_eq!((after.tile_id, after.interval, after.ticks), (core.tile_id, core.interval, core.ticks));
    assert_eq!(w.tiles.get(&origin().get_as_key()).unwrap().1, (6, 1));
}

#[test]
fn cores_and_portals_may_stand_on_the_edge() {
    let mut w = WorldRes::new_game(1);
    put(&mut w, Tile::Portal(Portal { position: Position::new(i32::MAX, i32::MIN), item: None }), (1, 2));
    put(
        &mut w,
        Tile::Core(Core { position: Position::new(i32::MIN, 5), interval: 3, ticks: 0, tile_id: (2, 1) }),
        (1, 1),
    );
    assert!(w.layout_holds());
    assert!(w.can_tick());
    assert!(w.tick());
    assert!(w.tick());
    put(&mut w, conveyor(i32::MIN, 0, Direction::Up, None), (2, 1));
    assert!(!w.layout_holds());
}
