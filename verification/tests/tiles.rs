use std::collections::HashMap;

use factoryfactory::resources::WorldRes;
use factoryfactory::tiles::{
    Conveyor, Core, Extractor, ExtractorType, Factory, FactoryType, Junction, Portal, Router,
    Storage, StorageType, Tile,
};
use factoryfactory::types::{
    Action, Direction, Item, ItemCounts, Position, RouterOutputIndex, TerrainTileType,
};

fn world_of(tiles: &[Tile]) -> WorldRes {
    let mut w = WorldRes::new_game(7);
    w.tiles = HashMap::new();
    for t in tiles {
        w.tiles.insert(t.position().get_as_key(), (*t, (2, 1)));
    }
    w
}

fn conveyor(x: i32, y: i32, direction: Direction, item: Option<Item>) -> Tile {
    Tile::Conveyor(Conveyor { position: Position::new(x, y), direction, item })
}

fn factory(x: i32, y: i32, factory_type: FactoryType) -> Factory {
    Factory {
        position: Position::new(x, y),
        direction: Direction::Right,
        factory_type,
        inventory: ItemCounts::new(),
        item: None,
        interval: 2,
        ticks: 0,
    }
}

#[test]
fn extractor_type_values() {
    assert_eq!(ExtractorType::RawRigtorium.interval(), 5);
    assert_eq!(ExtractorType::RawFlextorium.interval(), 5);
    assert_eq!(ExtractorType::Electrine.interval(), 2);
    assert_eq!(ExtractorType::RawRigtorium.terrain(), TerrainTileType::RawRigtoriumDeposit);
    assert_eq!(ExtractorType::RawFlextorium.terrain(), TerrainTileType::RawFlextoriumDeposit);
    assert_eq!(ExtractorType::Electrine.terrain(), TerrainTileType::ElectrineDeposit);
    assert_eq!(ExtractorType::RawRigtorium.spawn_item(), Item::RawRigtorium);
    assert_eq!(ExtractorType::RawFlextorium.spawn_item(), Item::RawFlextorium);
    assert_eq!(ExtractorType::Electrine.spawn_item(), Item::Electrine);
    assert_eq!(
        ExtractorType::Electrine.sprite(),
        "embedded://textures/tiles/extractors/electrine.png".to_string()
    );
}

#[test]
fn factory_type_values() {
    let c = FactoryType::ConveyorConstructor.capacity();
    assert_eq!(c.get(Item::Flextorium), 8);
    assert_eq!(c.get(Item::RigtoriumRod), 4);
    assert_eq!(c.get(Item::Electrine), 2);
    assert_eq!(c.get(Item::Router), 0);
    let r = FactoryType::RigtoriumRodMolder.recipe();
    assert_eq!(r.inputs.get(Item::Rigtorium), 2);
    assert_eq!(r.inputs.get(Item::Electrine), 1);
    assert_eq!(r.inputs.get(Item::RawRigtorium), 0);
    assert_eq!(r.output, Item::RigtoriumRod);
    assert_eq!(FactoryType::RouterConstructor.recipe().output, Item::Router);
    assert_eq!(
        FactoryType::RigtoriumSmelter.sprite(),
        "embedded://textures/tiles/factories/rigtorium_smelter.png"
    );
}

#[test]
fn factory_produces_when_stocked() {
    let mut f = factory(0, 0, FactoryType::RigtoriumSmelter);
    assert!(!f.can_produce());
    assert_eq!(f.produce(), None);
    f.inventory.set(Item::RawRigtorium, 2);
    f.inventory.set(Item::Electrine, 1);
    assert!(f.can_produce());
    assert_eq!(f.produce(), Some(Item::Rigtorium));
    assert_eq!(f.inventory.get(Item::RawRigtorium), 1);
    assert_eq!(f.inventory.get(Item::Electrine), 0);
    assert!(!f.can_produce());
}

#[test]
fn factory_with_full_slot_does_not_produce() {
    let mut f = factory(0, 0, FactoryType::FlextoriumFabricator);
    f.inventory.set(Item::RawFlextorium, 1);
    f.inventory.set(Item::Electrine, 1);
    f.item = Some(Item::Flextorium);
    assert!(!f.can_produce());
    assert_eq!(f.produce(), None);
    assert_eq!(f.inventory.get(Item::RawFlextorium), 1);
}

#[test]
fn storage_type_values() {
    assert_eq!(StorageType::SmallRigotriumVault.capacity(), 10);
    assert_eq!(StorageType::SmallBattery.capacity(), 10);
    assert_eq!(StorageType::SmallRigotriumVault.stored_item(), Item::Rigtorium);
    assert_eq!(StorageType::SmallFlextoriumVault.stored_item(), Item::Flextorium);
    assert_eq!(StorageType::SmallBattery.stored_item(), Item::Electrine);
}

#[test]
fn conveyor_tick_moves_item_forward() {
    let c = conveyor(0, 0, Direction::Right, Some(Item::Rigtorium));
    let w = world_of(&[c, conveyor(1, 0, Direction::Right, None)]);
    assert_eq!(
        c.tick(&w),
        Some(Action::Move(Position::new(0, 0), Position::new(1, 0), Item::Rigtorium))
    );
    let lonely = world_of(&[c]);
    assert_eq!(c.tick(&lonely), None);
    let empty = conveyor(0, 0, Direction::Right, None);
    assert_eq!(empty.tick(&w), None);
}

#[test]
fn router_tick_tries_next_outputs() {
    let r = Router {
        position: Position::new(0, 0),
        direction: Direction::Up,
        item: Some(Item::Flextorium),
        last_output: RouterOutputIndex::Forward,
    };
    let t = Tile::Router(r);
    let w = world_of(&[t, conveyor(0, 1, Direction::Up, None), conveyor(1, 0, Direction::Right, None)]);
    assert_eq!(
        t.tick(&w),
        Some(Action::MoveRouter(
            Position::new(0, 0),
            Position::new(1, 0),
            Item::Flextorium,
            RouterOutputIndex::Right
        ))
    );
    let w2 = world_of(&[t, conveyor(0, 1, Direction::Up, None)]);
    assert_eq!(
        t.tick(&w2),
        Some(Action::MoveRouter(
            Position::new(0, 0),
            Position::new(0, 1),
            Item::Flextorium,
            RouterOutputIndex::Forward
        ))
    );
    let w3 = world_of(&[t, conveyor(0, 1, Direction::Up, Some(Item::Electrine))]);
    assert_eq!(t.tick(&w3), None);
}

#[test]
fn extractor_tick_produces_on_deposit() {
    let e = Extractor {
        position: Position::new(0, 0),
        direction: Direction::Up,
        extractor_type: ExtractorType::Electrine,
        item: None,
    };
    let mut w = world_of(&[Tile::Extractor(e)]);
    w.terrain.insert(Position::new(0, 0).get_as_key(), TerrainTileType::ElectrineDeposit);
    w.tick_count = 4;
    assert!(e.produces_in(&w));
    assert_eq!(e.tick(&w), Some(Action::Produce(Position::new(0, 0))));
    w.tick_count = 3;
    assert!(!e.produces_in(&w));
    assert_eq!(e.tick(&w), None);
    w.tick_count = -2;
    assert!(e.produces_in(&w));
    w.tick_count = 4;
    w.terrain.insert(Position::new(0, 0).get_as_key(), TerrainTileType::Stone);
    assert_eq!(e.tick(&w), None);
}

#[test]
fn factory_tick_asks_to_produce_or_move() {
    let mut f = factory(0, 0, FactoryType::RouterConstructor);
    f.inventory.set(Item::Flextorium, 2);
    f.inventory.set(Item::Conveyor, 1);
    let w = world_of(&[Tile::Factory(f)]);
    assert_eq!(f.tick(&w), Some(Action::Produce(Position::new(0, 0))));
    let mut g = factory(0, 0, FactoryType::RouterConstructor);
    g.item = Some(Item::Router);
    let w2 = world_of(&[Tile::Factory(g), conveyor(1, 0, Direction::Right, None)]);
    assert_eq!(
        g.tick(&w2),
        Some(Action::Move(Position::new(0, 0), Position::new(1, 0), Item::Router))
    );
}

#[test]
fn storage_tick_sends_stored_item() {
    let s = Storage {
        position: Position::new(0, 0),
        direction: Direction::Down,
        inventory: 3,
        storage_type: StorageType::SmallBattery,
    };
    let w = world_of(&[Tile::Storage(s), conveyor(0, -1, Direction::Down, None)]);
    assert_eq!(
        s.tick(&w),
        Some(Action::Move(Position::new(0, 0), Position::new(0, -1), Item::Electrine))
    );
    let empty = Storage { inventory: 0, ..s };
    assert_eq!(empty.tick(&w), None);
}

#[test]
fn portal_and_core_ticks() {
    let p = Portal { position: Position::new(2, 2), item: Some(Item::Conveyor) };
    let w = world_of(&[]);
    assert_eq!(p.tick(&w), Some(Action::Teleport(Position::new(2, 2), (1, 1))));
    let q = Portal { position: Position::new(2, 2), item: Some(Item::Electrine) };
    assert_eq!(q.tick(&w), None);
    let c = Core { position: Position::new(0, 0), interval: 3, ticks: 1, tile_id: (2, 1) };
    assert_eq!(c.tick(&w), Some(Action::IncreaseTicks(Position::new(0, 0))));
    let due = Core { ticks: 3, ..c };
    assert_eq!(due.tick(&w), Some(Action::Teleport(Position::new(0, 0), (2, 1))));
}

#[test]
fn junction_tick_passes_straight_on() {
    let j = Junction {
        position: Position::new(0, 0),
        horizontal_item: Some((Item::Rigtorium, Direction::Left)),
        vertical_item: Some((Item::Electrine, Direction::Down)),
    };
    let t = Tile::Junction(j);
    let w = world_of(&[t, conveyor(1, 0, Direction::Right, None), conveyor(0, 1, Direction::Up, None)]);
    assert_eq!(
        t.tick(&w),
        Some(Action::Move(Position::new(0, 0), Position::new(1, 0), Item::Rigtorium))
    );
    let blocked = world_of(&[
        t,
        conveyor(1, 0, Direction::Right, Some(Item::Flextorium)),
        conveyor(0, 1, Direction::Up, None),
    ]);
    assert_eq!(
        t.tick(&blocked),
        Some(Action::Move(Position::new(0, 0), Position::new(0, 1), Item::Electrine))
    );
}

#[test]
fn tile_items_are_set_and_read() {
    let mut t = conveyor(0, 0, Direction::Up, None);
    t.set_item(Some(Item::Router));
    assert_eq!(t.get_item(), Some(Item::Router));
    let mut s = Tile::Storage(Storage {
        position: Position::new(0, 0),
        direction: Direction::Up,
        inventory: 0,
        storage_type: StorageType::SmallBattery,
    });
    s.set_item(Some(Item::Router));
    assert_eq!(s.get_item(), None);
    let mut p = Tile::Portal(Portal { position: Position::new(0, 0), item: None });
    p.set_item(Some(Item::Conveyor));
    assert_eq!(p.get_item(), None);
    assert!(matches!(p, Tile::Portal(Portal { item: Some(Item::Conveyor), .. })));
}
