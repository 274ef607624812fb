use std::collections::HashMap;

use factoryfactory::resources::WorldRes;
use factoryfactory::tiles::{
    Conveyor, Extractor, ExtractorType, Factory, FactoryType, Junction, Portal, Tile,
};
use factoryfactory::types::{Action, Direction, Item, ItemCounts, Position, RouterOutputIndex, TerrainTileType};

fn world_of(tiles: &[Tile]) -> WorldRes {
    let mut w = WorldRes::new_game(3);
    w.tiles = HashMap::new();
    for t in tiles {
        w.tiles.insert(t.position().get_as_key(), (*t, (2, 1)));
    }
    w
}

fn conveyor(x: i32, y: i32, item: Option<Item>) -> Tile {
    Tile::Conveyor(Conveyor { position: Position::new(x, y), direction: Direction::Right, item })
}

fn pos(x: i32, y: i32) -> Position {
    Position::new(x, y)
}

#[test]
fn slide_onto_a_free_conveyor() {
    let mut w = world_of(&[conveyor(0, 0, Some(Item::Rigtorium)), conveyor(1, 0, None)]);
    w.actions = vec![Action::Move(pos(0, 0), pos(1, 0), Item::Rigtorium)];
    assert_eq!(w.animated_moves(), vec![(Item::Rigtorium, pos(0, 0), pos(1, 0))]);
}

#[test]
fn no_slide_onto_a_full_conveyor() {
    let mut w = world_of(&[conveyor(0, 0, Some(Item::Rigtorium)), conveyor(1, 0, Some(Item::Electrine))]);
    w.actions = vec![Action::Move(pos(0, 0), pos(1, 0), Item::Rigtorium)];
    assert!(w.animated_moves().is_empty());
}

#[test]
fn a_freed_cell_takes_the_next_slide() {
    let mut w = world_of(&[
        conveyor(0, 0, Some(Item::Rigtorium)),
        conveyor(1, 0, Some(Item::Electrine)),
        conveyor(2, 0, None),
    ]);
    w.actions = vec![
        Action::Move(pos(1, 0), pos(2, 0), Item::Electrine),
        Action::Move(pos(0, 0), pos(1, 0), Item::Rigtorium),
    ];
    assert_eq!(
        w.animated_moves(),
        vec![(Item::Electrine, pos(1, 0), pos(2, 0)), (Item::Rigtorium, pos(0, 0), pos(1, 0))]
    );
    w.actions.reverse();
    assert_eq!(w.animated_moves(), vec![(Item::Electrine, pos(1, 0), pos(2, 0))]);
}

#[test]
fn one_cell_takes_one_slide() {
    let mut w = world_of(&[
        conveyor(0, 0, Some(Item::Rigtorium)),
        conveyor(1, 1, Some(Item::Electrine)),
        conveyor(1, 0, None),
    ]);
    w.actions = vec![
        Action::Move(pos(0, 0), pos(1, 0), Item::Rigtorium),
        Action::MoveRouter(pos(1, 1), pos(1, 0), Item::Electrine, RouterOutputIndex::Forward),
    ];
    assert_eq!(w.animated_moves(), vec![(Item::Rigtorium, pos(0, 0), pos(1, 0))]);
}

#[test]
fn slides_into_factories_portals_and_junctions() {
    let f = Factory {
        position: pos(1, 0),
        direction: Direction::Right,
        factory_type: FactoryType::RigtoriumSmelter,
        inventory: ItemCounts::new(),
        item: None,
        interval: 2,
        ticks: 0,
    };
    let mut w = world_of(&[
        conveyor(0, 0, Some(Item::RawRigtorium)),
        Tile::Factory(f),
        Tile::Portal(Portal { position: pos(0, 5), item: None }),
        Tile::Junction(Junction {
            position: pos(3, 3),
            horizontal_item: None,
            vertical_item: Some((Item::Electrine, Direction::Up)),
        }),
    ]);
    w.actions = vec![
        Action::Move(pos(0, 0), pos(1, 0), Item::RawRigtorium),
        Action::Move(pos(0, 4), pos(0, 5), Item::Conveyor),
        Action::Move(pos(2, 3), pos(3, 3), Item::Flextorium),
        Action::Move(pos(3, 2), pos(3, 3), Item::Flextorium),
        Action::Move(pos(9, 9), pos(1, 0), Item::Flextorium),
    ];
    assert_eq!(
        w.animated_moves(),
        vec![
            (Item::RawRigtorium, pos(0, 0), pos(1, 0)),
            (Item::Conveyor, pos(0, 4), pos(0, 5)),
            (Item::Flextorium, pos(2, 3), pos(3, 3)),
        ]
    );
}

#[test]
fn production_slides_out_of_the_producer() {
    let e = Extractor {
        position: pos(0, 0),
        direction: Direction::Up,
        extractor_type: ExtractorType::Electrine,
        item: None,
    };
    let mut w = world_of(&[Tile::Extractor(e), conveyor(0, 1, None)]);
    w.terrain.insert(pos(0, 0).get_as_key(), TerrainTileType::ElectrineDeposit);
    w.tick_count = 6;
    w.actions = vec![Action::Produce(pos(0, 0))];
    assert_eq!(w.animated_moves(), vec![(Item::Electrine, pos(0, 0), pos(0, 1))]);
    w.tick_count = 7;
    assert!(w.animated_moves().is_empty());
    let mut f = Factory {
        position: pos(5, 5),
        direction: Direction::Left,
        factory_type: FactoryType::RigtoriumSmelter,
        inventory: ItemCounts::new(),
        item: None,
        interval: 2,
        ticks: 2,
    };
    f.inventory.set(Item::RawRigtorium, 1);
    f.inventory.set(Item::Electrine, 1);
    let mut v = world_of(&[Tile::Factory(f), conveyor(4, 5, None)]);
    v.actions = vec![Action::Produce(pos(5, 5))];
    assert_eq!(v.animated_moves(), vec![(Item::Rigtorium, pos(5, 5), pos(4, 5))]);
    let early = Factory { ticks: 1, ..f };
    let mut u = world_of(&[Tile::Factory(early), conveyor(4, 5, None)]);
    u.actions = vec![Action::Produce(pos(5, 5))];
    assert!(u.animated_moves().is_empty());
}

#[test]
fn slides_fit_unless_a_due_producer_faces_the_edge() {
    let mut f = Factory {
        position: pos(0, i32::MAX),
        direction: Direction::Up,
        factory_type: FactoryType::RigtoriumSmelter,
        inventory: ItemCounts::new(),
        item: None,
        interval: 2,
        ticks: 2,
    };
    let mut w = world_of(&[Tile::Factory(f)]);
    w.actions = vec![Action::Produce(pos(0, i32::MAX))];
    assert!(w.slides_fit());
    f.inventory.set(Item::RawRigtorium, 1);
    f.inventory.set(Item::Electrine, 1);
    let mut v = world_of(&[Tile::Factory(f)]);
    v.actions = vec![Action::Produce(pos(0, i32::MAX))];
    assert!(!v.slides_fit());
    v.actions = vec![Action::Move(pos(0, 0), pos(0, 1), Item::Electrine)];
    assert!(v.slides_fit());
}
