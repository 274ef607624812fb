use factoryfactory::resources::{chunks_around, ChunkPosition};
use factoryfactory::types::{Direction, Item, ItemCounts, Position, RouterOutputIndex};
use factoryfactory::utils::{rotate_direction_clockwise, rotate_direction_counterclockwise};

#[test]
fn position_new_keeps_coordinates() {
    let p = Position::new(3, -7);
    assert_eq!(p.x, 3);
    assert_eq!(p.y, -7);
}

#[test]
fn position_shift_moves_one_cell() {
    let p = Position::new(5, 5);
    assert_eq!(p.shift(Direction::Up), Position::new(5, 6));
    assert_eq!(p.shift(Direction::Down), Position::new(5, 4));
    assert_eq!(p.shift(Direction::Left), Position::new(4, 5));
    assert_eq!(p.shift(Direction::Right), Position::new(6, 5));
}

#[test]
fn key_packs_both_coordinates() {
    assert_eq!(Position::new(0, 0).get_as_key(), 0);
    assert_eq!(Position::new(1, 0).get_as_key(), 1);
    assert_eq!(Position::new(0, 1).get_as_key(), 1u64 << 32);
    assert_eq!(Position::new(-1, 0).get_as_key(), 0xFFFF_FFFF);
    assert_eq!(Position::new(2, -1).get_as_key(), 0xFFFF_FFFF_0000_0002);
}

#[test]
fn key_roundtrip_on_edges() {
    for p in [
        Position::new(0, 0),
        Position::new(-1, -1),
        Position::new(i32::MIN, i32::MAX),
        Position::new(i32::MAX, i32::MIN),
        Position::new(12345, -54321),
    ] {
        assert_eq!(Position::from_key(p.get_as_key()), p);
    }
    for k in [0u64, 1, u64::MAX, 0x8000_0000_7FFF_FFFF] {
        assert_eq!(Position::from_key(k).get_as_key(), k);
    }
}

#[test]
fn distinct_positions_have_distinct_keys() {
    let a = Position::new(1, 2).get_as_key();
    let b = Position::new(2, 1).get_as_key();
    assert_ne!(a, b);
}

#[test]
fn direction_shift_turns_in_quarter_steps() {
    assert_eq!(Direction::Up.shift(1), Direction::Right);
    assert_eq!(Direction::Up.shift(2), Direction::Down);
    assert_eq!(Direction::Up.shift(-1), Direction::Left);
    assert_eq!(Direction::Left.shift(1), Direction::Up);
    assert_eq!(Direction::Down.shift(4), Direction::Down);
    assert_eq!(Direction::Right.shift(-6), Direction::Left);
    assert_eq!(Direction::Up.shift(i32::MIN), Direction::Up);
    assert_eq!(Direction::Left.shift(i32::MAX - 3), Direction::Left);
}

#[test]
fn rotations_undo_each_other() {
    for d in [Direction::Up, Direction::Down, Direction::Left, Direction::Right] {
        assert_eq!(rotate_direction_counterclockwise(rotate_direction_clockwise(d)), d);
        assert_eq!(rotate_direction_clockwise(rotate_direction_counterclockwise(d)), d);
        assert_eq!(rotate_direction_clockwise(d), d.shift(1));
        assert_eq!(rotate_direction_counterclockwise(d), d.shift(-1));
    }
    assert_eq!(rotate_direction_clockwise(Direction::Up), Direction::Right);
    assert_eq!(rotate_direction_counterclockwise(Direction::Up), Direction::Left);
}

#[test]
fn item_sprites_and_tiles() {
    assert_eq!(Item::RawFlextorium.sprite(), "embedded://textures/items/raw_flextorium.png");
    assert_eq!(Item::RigtoriumRod.sprite(), "embedded://textures/items/rigtorium_rod.png");
    assert_eq!(Item::Router.sprite(), "embedded://textures/items/router.png");
    assert_eq!(Item::Conveyor.to_tile(), Some((1, 1)));
    assert_eq!(Item::Router.to_tile(), Some((1, 2)));
    assert_eq!(Item::Electrine.to_tile(), None);
}

#[test]
fn item_slots_roundtrip() {
    for j in 0..8usize {
        assert_eq!(Item::from_index(j).index(), j);
    }
    assert_eq!(Item::Flextorium.index(), Item::from_index(Item::Flextorium.index()).index());
}

#[test]
fn item_counts_get_and_set() {
    let mut c = ItemCounts::new();
    assert_eq!(c.get(Item::Rigtorium), 0);
    c.set(Item::Rigtorium, 7);
    assert_eq!(c.get(Item::Rigtorium), 7);
    assert_eq!(c.get(Item::Flextorium), 0);
}

#[test]
fn router_outputs_cycle_in_three() {
    let f = RouterOutputIndex::Forward;
    assert_eq!(f.next(), RouterOutputIndex::Right);
    assert_eq!(f.next().next(), RouterOutputIndex::Left);
    assert_eq!(f.next().next().next(), f);
    assert_eq!(RouterOutputIndex::Forward.to_direction(Direction::Up), Direction::Up);
    assert_eq!(RouterOutputIndex::Right.to_direction(Direction::Up), Direction::Right);
    assert_eq!(RouterOutputIndex::Left.to_direction(Direction::Up), Direction::Left);
    assert_eq!(RouterOutputIndex::Right.to_direction(Direction::Left), Direction::Up);
}

#[test]
fn chunks_around_covers_the_square() {
    let v = chunks_around(ChunkPosition::new(2, -1), 1);
    assert_eq!(v.len(), 9);
    for x in 1..=3 {
        for y in -2..=0 {
            assert!(v.contains(&ChunkPosition::new(x, y)));
        }
    }
    assert!(!v.contains(&ChunkPosition::new(4, 0)));
    assert_eq!(chunks_around(ChunkPosition::new(0, 0), 0), vec![ChunkPosition::new(0, 0)]);
}

#[test]
fn turns_add_up() {
    for d in [Direction::Up, Direction::Down, Direction::Left, Direction::Right] {
        for i in -5..6 {
            for j in -5..6 {
                assert_eq!(d.shift(i).shift(j), d.shift(i + j));
            }
        }
        assert_eq!(d.shift(4), d);
        assert_eq!(d.shift(-4), d);
    }
}
