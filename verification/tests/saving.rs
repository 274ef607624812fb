use factoryfactory::player::Hotkeys;
use factoryfactory::resources::WorldRes;
use factoryfactory::save::{
    load_tile, pack_save_bytes, save_tile, unpack_save_bytes, SaveError, SerializableTile,
};
use factoryfactory::tiles::{Conveyor, Router, Storage, StorageType, Tile};
use factoryfactory::types::{Action, Direction, Item, Position, RouterOutputIndex};

#[test]
fn world_survives_a_save() {
    let mut w = WorldRes::new_game(99);
    let p = Position::new(2, -3);
    w.tiles.insert(
        p.get_as_key(),
        (
            Tile::Router(Router {
                position: p,
                direction: Direction::Left,
                item: Some(Item::Electrine),
                last_output: RouterOutputIndex::Left,
            }),
            (2, 2),
        ),
    );
    w.tick_count = 17;
    w.money = 31;
    w.actions = vec![Action::IncreaseTicks(Position::new(0, 0))];
    let mut h = Hotkeys::new();
    h.assign(1, (2, 2));
    let saved = w.to_serializable(&h);
    assert_eq!(saved.tiles.len(), 2);
    assert_eq!(saved.world_seed, 99);
    assert_eq!(saved.tick_count, 17);
    assert_eq!(saved.money, 31);
    let (back, keys) = WorldRes::from_serializable(saved);
    assert_eq!(back.world_seed, 99);
    assert_eq!(back.tick_count, 17);
    assert_eq!(back.money, 31);
    assert!(back.actions.is_empty());
    assert!(back.terrain.is_empty());
    assert_eq!(keys.get(&1), Some(&(2, 2)));
    assert_eq!(back.resource_count((2, 1)), 20);
    match back.get_tile(p) {
        Some(Tile::Router(r)) => {
            assert_eq!(r.direction, Direction::Left);
            assert_eq!(r.item, Some(Item::Electrine));
            assert_eq!(r.last_output, RouterOutputIndex::Left);
        }
        _ => panic!("router lost"),
    }
    assert_eq!(back.tiles.get(&p.get_as_key()).unwrap().1, (2, 2));
    assert!(matches!(back.get_tile(Position::new(0, 0)), Some(Tile::Core(_))));
}

#[test]
fn storage_is_saved_as_an_empty_conveyor() {
    let p = Position::new(-5, 6);
    let s = Tile::Storage(Storage {
        position: p,
        direction: Direction::Down,
        inventory: 4,
        storage_type: StorageType::SmallBattery,
    });
    let saved = save_tile(&s, p.get_as_key());
    assert!(matches!(
        saved,
        SerializableTile::Conveyor { position, direction: Direction::Up, item: None } if position == p
    ));
    assert!(matches!(
        load_tile(&saved),
        Tile::Conveyor(Conveyor { direction: Direction::Up, item: None, .. })
    ));
    let stored = SerializableTile::Storage {
        position: p,
        direction: Direction::Down,
        inventory: 4,
        storage_type: StorageType::SmallBattery,
    };
    assert!(matches!(load_tile(&stored), Tile::Storage(Storage { inventory: 4, .. })));
}

#[test]
fn save_bytes_roundtrip() {
    let data: Vec<u8> = (0..2000u32).map(|i| (i % 7) as u8).collect();
    let packed = pack_save_bytes(&data).unwrap();
    assert_ne!(packed, data);
    assert!(packed.len() < data.len());
    assert_eq!(unpack_save_bytes(&packed), Ok(data));
    let empty = pack_save_bytes(&Vec::new()).unwrap();
    assert_eq!(unpack_save_bytes(&empty), Ok(Vec::new()));
}

#[test]
fn broken_save_bytes_are_refused() {
    let data: Vec<u8> = b"factory factory factory".to_vec();
    let packed = pack_save_bytes(&data).unwrap();
    let cut = packed[..packed.len() / 2].to_vec();
    assert_eq!(unpack_save_bytes(&cut), Err(SaveError::Decompress));
    assert_eq!(unpack_save_bytes(&vec![0xFF, 0xFF, 0xFF]), Err(SaveError::Decompress));
}
