use std::collections::HashMap;

use factoryfactory::dependency::dependency_order;
use factoryfactory::resources::WorldRes;
use factoryfactory::tiles::{
    Conveyor, Core, Extractor, ExtractorType, Factory, FactoryType, Junction, Portal, Router,
    Storage, StorageType, Tile,
};
use factoryfactory::types::{Action, Direction, Item, ItemCounts, Position, RouterOutputIndex};
use factoryfactory::utils::{
    can_tile_accept_item, determine_conveyor_texture, format_tile_id, get_new_tile,
    get_produce_destination, get_tile_core_interval, get_tile_name, get_tile_price,
    get_tile_texture, is_conveyor_pointing_to, placed_tile_sprite, sort_moves_topologically,
};

fn world_of(tiles: &[Tile]) -> WorldRes {
    let mut w = WorldRes::new_game(3);
    w.tiles = HashMap::new();
    for t in tiles {
        w.tiles.insert(t.position().get_as_key(), (*t, (2, 1)));
    }
    w
}

fn conveyor(x: i32, y: i32, direction: Direction, item: Option<Item>) -> Tile {
    Tile::Conveyor(Conveyor { position: Position::new(x, y), direction, item })
}

#[test]
fn tile_textures() {
    assert_eq!(get_tile_texture((0, 1)), "embedded://textures/tiles/none.png");
    assert_eq!(get_tile_texture((1, 1)), "embedded://textures/tiles/core.png");
    assert_eq!(get_tile_texture((2, 2)), "embedded://textures/tiles/conveyors/router.png");
    assert_eq!(get_tile_texture((5, 3)), "embedded://textures/tiles/small_battery.png");
    assert_eq!(get_tile_texture((9, 9)), "embedded://textures/tiles/conveyors/back.png");
}

#[test]
fn tile_names() {
    assert_eq!(get_tile_name((1, 1)), "Core");
    assert_eq!(get_tile_name((3, 2)), "Raw Flextorium Extractor");
    assert_eq!(get_tile_name((4, 5)), "Router Constructor");
    assert_eq!(get_tile_name((7, 7)), "Unknown Tile");
}

#[test]
fn tile_ids_format_as_two_numbers() {
    assert_eq!(format_tile_id((2, 3)), "2, 3");
    assert_eq!(format_tile_id((0, 255)), "0, 255");
    assert_eq!(format_tile_id((10, 1)), "10, 1");
}

#[test]
fn core_intervals_and_prices() {
    assert_eq!(get_tile_core_interval((1, 2)), 100);
    assert_eq!(get_tile_core_interval((2, 1)), 20);
    assert_eq!(get_tile_core_interval((4, 3)), 70);
    assert_eq!(get_tile_core_interval((1, 1)), 6942);
    assert_eq!(get_tile_price((1, 2)), 50);
    assert_eq!(get_tile_price((2, 1)), 10);
    assert_eq!(get_tile_price((4, 4)), 40);
    assert_eq!(get_tile_price((5, 2)), 25);
    assert_eq!(get_tile_price((1, 1)), 60);
}

#[test]
fn new_tiles_by_id() {
    let p = Position::new(4, -4);
    let (t, id) = get_new_tile((1, 1), p, Direction::Up);
    assert_eq!(id, (1, 1));
    assert!(matches!(t, Tile::Core(Core { interval: 10, ticks: 0, tile_id: (1, 1), .. })));
    let (t, _) = get_new_tile((3, 3), p, Direction::Left);
    assert!(matches!(
        t,
        Tile::Extractor(Extractor {
            extractor_type: ExtractorType::Electrine,
            direction: Direction::Left,
            item: None,
            ..
        })
    ));
    let (t, _) = get_new_tile((4, 4), p, Direction::Down);
    match t {
        Tile::Factory(f) => {
            assert_eq!(f.factory_type, FactoryType::ConveyorConstructor);
            assert_eq!(f.interval, 5);
            assert_eq!(f.ticks, 0);
            assert_eq!(f.inventory, ItemCounts::new());
            assert_eq!(f.position, p);
        }
        _ => panic!("expected a factory"),
    }
    let (t, _) = get_new_tile((4, 1), p, Direction::Down);
    assert!(matches!(t, Tile::Factory(Factory { interval: 2, .. })));
    let (t, _) = get_new_tile((5, 1), p, Direction::Right);
    assert!(matches!(
        t,
        Tile::Storage(Storage { storage_type: StorageType::SmallRigotriumVault, inventory: 0, .. })
    ));
    let (t, _) = get_new_tile((2, 3), p, Direction::Right);
    assert!(matches!(t, Tile::Junction(Junction { horizontal_item: None, vertical_item: None, .. })));
    let (t, _) = get_new_tile((1, 2), p, Direction::Right);
    assert!(matches!(t, Tile::Portal(Portal { item: None, .. })));
    let (t, id) = get_new_tile((8, 8), p, Direction::Right);
    assert_eq!(id, (8, 8));
    assert!(matches!(t, Tile::Conveyor(Conveyor { direction: Direction::Right, item: None, .. })));
}

#[test]
fn which_tiles_accept_items() {
    let empty = (conveyor(0, 0, Direction::Up, None), (2, 1));
    let full = (conveyor(0, 0, Direction::Up, Some(Item::Rigtorium)), (2, 1));
    assert!(can_tile_accept_item(&empty, Item::Rigtorium));
    assert!(!can_tile_accept_item(&full, Item::Rigtorium));
    let f = Factory {
        position: Position::new(0, 0),
        direction: Direction::Up,
        factory_type: FactoryType::RigtoriumSmelter,
        inventory: ItemCounts::new(),
        item: None,
        interval: 2,
        ticks: 0,
    };
    assert!(can_tile_accept_item(&(Tile::Factory(f), (4, 1)), Item::Electrine));
    assert!(!can_tile_accept_item(&(Tile::Factory(f), (4, 1)), Item::Flextorium));
    let mut g = f;
    g.inventory.set(Item::Electrine, 2);
    assert!(!can_tile_accept_item(&(Tile::Factory(g), (4, 1)), Item::Electrine));
    let s = Storage {
        position: Position::new(0, 0),
        direction: Direction::Up,
        inventory: 0,
        storage_type: StorageType::SmallBattery,
    };
    assert!(!can_tile_accept_item(&(Tile::Storage(s), (5, 3)), Item::Electrine));
    let j = Junction {
        position: Position::new(0, 0),
        horizontal_item: None,
        vertical_item: Some((Item::Rigtorium, Direction::Up)),
    };
    assert!(can_tile_accept_item(&(Tile::Junction(j), (2, 3)), Item::Electrine));
}

#[test]
fn producers_deliver_to_the_faced_cell() {
    let e = Extractor {
        position: Position::new(2, 2),
        direction: Direction::Down,
        extractor_type: ExtractorType::RawRigtorium,
        item: None,
    };
    let w = world_of(&[Tile::Extractor(e), conveyor(5, 5, Direction::Up, None)]);
    assert_eq!(
        get_produce_destination(Position::new(2, 2), &w),
        Some((Position::new(2, 2), Position::new(2, 1)))
    );
    assert_eq!(get_produce_destination(Position::new(5, 5), &w), None);
    assert_eq!(get_produce_destination(Position::new(9, 9), &w), None);
}

#[test]
fn pointing_neighbours() {
    let r = Router {
        position: Position::new(0, 0),
        direction: Direction::Up,
        item: None,
        last_output: RouterOutputIndex::Forward,
    };
    let w = world_of(&[
        Tile::Router(r),
        conveyor(1, 0, Direction::Left, None),
        Tile::Junction(Junction { position: Position::new(2, 0), horizontal_item: None, vertical_item: None }),
    ]);
    assert!(is_conveyor_pointing_to(&w, Position::new(0, 0), Direction::Up));
    assert!(is_conveyor_pointing_to(&w, Position::new(0, 0), Direction::Left));
    assert!(is_conveyor_pointing_to(&w, Position::new(0, 0), Direction::Right));
    assert!(!is_conveyor_pointing_to(&w, Position::new(0, 0), Direction::Down));
    assert!(is_conveyor_pointing_to(&w, Position::new(1, 0), Direction::Left));
    assert!(!is_conveyor_pointing_to(&w, Position::new(1, 0), Direction::Up));
    assert!(is_conveyor_pointing_to(&w, Position::new(2, 0), Direction::Down));
    assert!(!is_conveyor_pointing_to(&w, Position::new(3, 0), Direction::Down));
}

#[test]
fn conveyor_textures_follow_feeders() {
    let c = Conveyor { position: Position::new(0, 0), direction: Direction::Up, item: None };
    let alone = world_of(&[Tile::Conveyor(c)]);
    assert_eq!(determine_conveyor_texture(&alone, &c), "embedded://textures/tiles/conveyors/back.png");
    let from_left = world_of(&[Tile::Conveyor(c), conveyor(-1, 0, Direction::Right, None)]);
    assert_eq!(determine_conveyor_texture(&from_left, &c), "embedded://textures/tiles/conveyors/left.png");
    let both_sides = world_of(&[
        Tile::Conveyor(c),
        conveyor(-1, 0, Direction::Right, None),
        conveyor(1, 0, Direction::Left, None),
    ]);
    assert_eq!(determine_conveyor_texture(&both_sides, &c), "embedded://textures/tiles/conveyors/sides.png");
    let all = world_of(&[
        Tile::Conveyor(c),
        conveyor(-1, 0, Direction::Right, None),
        conveyor(1, 0, Direction::Left, None),
        conveyor(0, -1, Direction::Up, None),
    ]);
    assert_eq!(determine_conveyor_texture(&all, &c), "embedded://textures/tiles/conveyors/all.png");
    let back_right = world_of(&[
        Tile::Conveyor(c),
        conveyor(1, 0, Direction::Left, None),
        conveyor(0, -1, Direction::Up, None),
    ]);
    assert_eq!(determine_conveyor_texture(&back_right, &c), "embedded://textures/tiles/conveyors/right_back.png");
}

#[test]
fn moves_into_a_cell_come_before_moves_out_of_it() {
    let w = world_of(&[
        conveyor(1, 0, Direction::Right, Some(Item::Rigtorium)),
        conveyor(2, 0, Direction::Right, Some(Item::Electrine)),
        conveyor(3, 0, Direction::Right, None),
    ]);
    let a = Action::Move(Position::new(1, 0), Position::new(2, 0), Item::Rigtorium);
    let b = Action::Move(Position::new(2, 0), Position::new(3, 0), Item::Electrine);
    assert_eq!(sort_moves_topologically(vec![a, b], &w), vec![a, b]);
    assert_eq!(sort_moves_topologically(vec![b, a], &w), vec![a, b]);
    let back = Action::Move(Position::new(2, 0), Position::new(1, 0), Item::Electrine);
    assert_eq!(sort_moves_topologically(vec![a, back], &w), vec![a, back]);
    let t = Action::IncreaseTicks(Position::new(0, 0));
    assert_eq!(sort_moves_topologically(vec![t, b, a], &w), vec![a, b, t]);
}

#[test]
fn dependency_order_of_cells() {
    let p = |x: i32| Some(Position::new(x, 0));
    let order = dependency_order(&vec![p(2), p(1), None], &vec![p(3), p(2), None]);
    assert_eq!(order, vec![2, 1, 0]);
    let cyc = dependency_order(&vec![p(1), p(2)], &vec![p(2), p(1)]);
    assert_eq!(cyc, vec![0, 1]);
    assert!(dependency_order(&Vec::new(), &Vec::new()).is_empty());
}

#[test]
fn placed_tiles_show_their_textures() {
    let c = conveyor(0, 0, Direction::Up, None);
    let w = world_of(&[c, conveyor(-1, 0, Direction::Right, None)]);
    assert_eq!(
        placed_tile_sprite(&w, &c),
        Some("embedded://textures/tiles/conveyors/left.png".to_string())
    );
    let f = Tile::Factory(Factory {
        position: Position::new(3, 3),
        direction: Direction::Up,
        factory_type: FactoryType::RouterConstructor,
        inventory: ItemCounts::new(),
        item: None,
        interval: 5,
        ticks: 0,
    });
    assert_eq!(
        placed_tile_sprite(&w, &f),
        Some("embedded://textures/tiles/factories/router_constructor.png".to_string())
    );
    let core = Tile::Core(Core { position: Position::new(0, 0), interval: 1, ticks: 0, tile_id: (2, 1) });
    assert_eq!(placed_tile_sprite(&w, &core), Some("embedded://textures/tiles/core.png".to_string()));
    let s = Tile::Storage(Storage {
        position: Position::new(4, 4),
        direction: Direction::Up,
        inventory: 0,
        storage_type: StorageType::SmallBattery,
    });
    assert_eq!(placed_tile_sprite(&w, &s), None);
}
