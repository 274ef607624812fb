use vstd::prelude::*;
use vstd::string::StringExecFns;

use crate::dependency::{dependency_order, is_dependency_order};
use crate::resources::{tile_in, WorldRes, WorldView};
use crate::tiles::extractor::{extractor_item, extractor_sprite, ExtractorType};
use crate::tiles::factory::{factory_sprite, recipe_output, FactoryType};
use crate::tiles::storage::{storage_item, StorageType};
use crate::tiles::{Conveyor, Core, Extractor, Factory, Junction, Portal, Router, Storage, Tile};
use crate::types::{
    dir_from_index, dir_index, Action, Direction, Item, ItemCounts, Position, RouterOutputIndex,
};

verus! {

/// The direction one quarter turn clockwise from `d`.
pub open spec fn rotated_clockwise(d: Direction) -> Direction {
    match d {
        Direction::Up => Direction::Right,
        Direction::Right => Direction::Down,
        Direction::Down => Direction::Left,
        Direction::Left => Direction::Up,
    }
}

/// The direction one quarter turn counterclockwise from `d`.
pub open spec fn rotated_counterclockwise(d: Direction) -> Direction {
    match d {
        Direction::Up => Direction::Left,
        Direction::Left => Direction::Down,
        Direction::Down => Direction::Right,
        Direction::Right => Direction::Up,
    }
}

/// A clockwise turn is one quarter turn, a counterclockwise turn one quarter
/// turn back, and each undoes the other.
pub proof fn lemma_rotations(d: Direction)
    ensures
        rotated_clockwise(d) == dir_from_index(dir_index(d) + 1),
        rotated_counterclockwise(d) == dir_from_index(dir_index(d) - 1),
        rotated_counterclockwise(rotated_clockwise(d)) == d,
        rotated_clockwise(rotated_counterclockwise(d)) == d,
        rotated_clockwise(rotated_clockwise(rotated_clockwise(rotated_clockwise(d)))) == d,
{
}

pub fn rotate_direction_clockwise(dir: Direction) -> (d: Direction)
    ensures
        d == rotated_clockwise(dir),
{
    match dir {
        Direction::Up => Direction::Right,
        Direction::Right => Direction::Down,
        Direction::Down => Direction::Left,
        Direction::Left => Direction::Up,
    }
}

pub fn rotate_direction_counterclockwise(dir: Direction) -> (d: Direction)
    ensures
        d == rotated_counterclockwise(dir),
{
    match dir {
        Direction::Up => Direction::Left,
        Direction::Left => Direction::Down,
        Direction::Down => Direction::Right,
        Direction::Right => Direction::Up,
    }
}

/// Whether a tile takes a delivered `item`: empty conveyors, routers and portals,
/// factories with room for the item, and junctions with a free horizontal lane.
pub open spec fn tile_accepts(t: Tile, item: Item) -> bool {
    match t {
        Tile::Conveyor(c) => c.item is None,
        Tile::Router(r) => r.item is None,
        Tile::Factory(f) => f.has_room_for(item),
        Tile::Junction(j) => j.horizontal_item is None,
        Tile::Portal(p) => p.item is None,
        _ => false,
    }
}

pub fn can_tile_accept_item(tile: &(Tile, (u8, u8)), item: Item) -> (b: bool)
    ensures
        b == tile_accepts(tile.0, item),
{
    match &tile.0 {
        Tile::Conveyor(c) => c.item.is_none(),
        Tile::Router(r) => r.item.is_none(),
        Tile::Factory(f) => f.factory_type.capacity().get(item) > f.inventory.get(item),
        Tile::Junction(j) => j.horizontal_item.is_none(),
        Tile::Portal(p) => p.item.is_none(),
        _ => false,
    }
}

/// The cell that a factory or extractor at `pos` delivers its product to: the
/// neighbour of `pos` in the tile's facing direction.
pub open spec fn produce_destination(world: WorldView, pos: Position) -> Option<Position> {
    match tile_in(world.tiles, pos) {
        Some(Tile::Factory(f)) => Some(pos.neighbor(f.direction)),
        Some(Tile::Extractor(e)) => Some(pos.neighbor(e.direction)),
        _ => None,
    }
}

/// Whether finding the product destination for `pos` stays inside the `i32` range.
pub open spec fn produce_in_range(world: WorldView, pos: Position) -> bool {
    match tile_in(world.tiles, pos) {
        Some(Tile::Factory(f)) => pos.can_shift(f.direction),
        Some(Tile::Extractor(e)) => pos.can_shift(e.direction),
        _ => true,
    }
}

pub fn get_produce_destination(pos: Position, world: &WorldRes) -> (r: Option<(Position, Position)>)
    requires
        produce_in_range(world@, pos),
    ensures
        r == match produce_destination(world@, pos) {
            Some(d) => Some((pos, d)),
            None => None,
        },
{
    match world.get_tile(pos) {
        Some(Tile::Factory(factory)) => Some((pos, pos.shift(factory.direction))),
        Some(Tile::Extractor(extractor)) => Some((pos, pos.shift(extractor.direction))),
        _ => None,
    }
}

/// The cell a step takes an item from, where it has one: the start of a move, a
/// producing tile that has a destination, a teleporting tile.
pub open spec fn action_source(world: WorldView, a: Action) -> Option<Position> {
    match a {
        Action::Move(from, _, _) => Some(from),
        Action::MoveRouter(from, _, _, _) => Some(from),
        Action::Produce(p) => if produce_destination(world, p) is Some {
            Some(p)
        } else {
            None
        },
        Action::Teleport(p, _) => Some(p),
        Action::IncreaseTicks(_) => None,
    }
}

/// The cell a step delivers an item to, where it has one.
pub open spec fn action_target(world: WorldView, a: Action) -> Option<Position> {
    match a {
        Action::Move(_, to, _) => Some(to),
        Action::MoveRouter(_, to, _, _) => Some(to),
        Action::Produce(p) => produce_destination(world, p),
        _ => None,
    }
}

/// The source cell of every step.
pub open spec fn sources_of(world: WorldView, actions: Seq<Action>) -> Seq<Option<Position>> {
    actions.map_values(|a: Action| action_source(world, a))
}

/// The target cell of every step.
pub open spec fn targets_of(world: WorldView, actions: Seq<Action>) -> Seq<Option<Position>> {
    actions.map_values(|a: Action| action_target(world, a))
}

/// Whether the product destinations of every producing step stay in range.
pub open spec fn actions_in_range(world: WorldView, actions: Seq<Action>) -> bool {
    forall|i: int|
        0 <= i < actions.len() ==> match #[trigger] actions[i] {
            Action::Produce(p) => produce_in_range(world, p),
            _ => true,
        }
}

/// `result` lists the steps of `actions` in a dependency order of their cells.
pub open spec fn is_move_schedule(world: WorldView, actions: Seq<Action>, result: Seq<Action>) -> bool {
    exists|order: Seq<usize>|
        {
            &&& #[trigger] is_dependency_order(
                sources_of(world, actions),
                targets_of(world, actions),
                order,
            )
            &&& result.len() == order.len()
            &&& forall|q: int| 0 <= q < result.len() ==> result[q] == actions[order[q] as int]
        }
}

/// Orders the steps so that a step that takes an item from a cell comes after every
/// step that delivers an item to that cell, as far as cycles allow.
pub fn sort_moves_topologically(actions: Vec<Action>, world: &WorldRes) -> (sorted: Vec<Action>)
    requires
        actions_in_range(world@, actions@),
    ensures
        is_move_schedule(world@, actions@, sorted@),
{
    let n = actions.len();
    let ghost srcs_spec = sources_of(world@, actions@);
    let ghost dsts_spec = targets_of(world@, actions@);
    let mut srcs: Vec<Option<Position>> = Vec::new();
    let mut dsts: Vec<Option<Position>> = Vec::new();
    let mut i: usize = 0;
    while i < n
        invariant
            i <= n,
            n == actions.len(),
            actions_in_range(world@, actions@),
            srcs.len() == i,
            dsts.len() == i,
            srcs_spec == sources_of(world@, actions@),
            dsts_spec == targets_of(world@, actions@),
            forall|t: int| 0 <= t < i ==> srcs@[t] == srcs_spec[t] && dsts@[t] == dsts_spec[t],
        decreases n - i,
    {
        let a = actions[i];
        assert(match actions@[i as int] {
            Action::Produce(p) => produce_in_range(world@, p),
            _ => true,
        });
        match a {
            Action::Move(from, to, _) => {
                srcs.push(Some(from));
                dsts.push(Some(to));
            },
            Action::MoveRouter(from, to, _, _) => {
                srcs.push(Some(from));
                dsts.push(Some(to));
            },
            Action::Produce(pos) => {
                match get_produce_destination(pos, world) {
                    Some((_, destination)) => {
                        srcs.push(Some(pos));
                        dsts.push(Some(destination));
                    },
                    None => {
                        srcs.push(None);
                        dsts.push(None);
                    },
                }
            },
            Action::Teleport(pos, _) => {
                srcs.push(Some(pos));
                dsts.push(None);
            },
            Action::IncreaseTicks(_) => {
                srcs.push(None);
                dsts.push(None);
            },
        }
        i = i + 1;
    }
    assert(srcs@ =~= srcs_spec);
    assert(dsts@ =~= dsts_spec);
    let order = dependency_order(&srcs, &dsts);
    let mut sorted: Vec<Action> = Vec::new();
    let mut q: usize = 0;
    while q < n
        invariant
            q <= n,
            n == actions.len(),
            order.len() == n,
            forall|t: int| 0 <= t < n ==> order@[t] < n,
            sorted.len() == q,
            forall|t: int| 0 <= t < q ==> sorted@[t] == actions@[order@[t] as int],
        decreases n - q,
    {
        sorted.push(actions[order[q]]);
        q = q + 1;
    }
    assert(is_dependency_order(srcs_spec, dsts_spec, order@));
    sorted
}

/// The texture path of a tile id.
pub open spec fn tile_texture(t: (u8, u8)) -> Seq<char> {
    match t {
        (0, 1) => "embedded://textures/tiles/none.png"@,
        (1, 1) => "embedded://textures/tiles/core.png"@,
        (1, 2) => "embedded://textures/tiles/portal.png"@,
        (2, 1) => "embedded://textures/tiles/conveyors/back.png"@,
        (2, 2) => "embedded://textures/tiles/conveyors/router.png"@,
        (2, 3) => "embedded://textures/tiles/conveyors/junction.png"@,
        (3, 1) => "embedded://textures/tiles/extractors/raw_rigtorium.png"@,
        (3, 2) => "embedded://textures/tiles/extractors/raw_flextorium.png"@,
        (3, 3) => "embedded://textures/tiles/extractors/electrine.png"@,
        (4, 1) => "embedded://textures/tiles/factories/rigtorium_smelter.png"@,
        (4, 2) => "embedded://textures/tiles/factories/flextorium_fabricator.png"@,
        (4, 3) => "embedded://textures/tiles/factories/rigtorium_rod_molder.png"@,
        (4, 4) => "embedded://textures/tiles/factories/conveyor_constructor.png"@,
        (4, 5) => "embedded://textures/tiles/factories/router_constructor.png"@,
        (5, 1) => "embedded://textures/tiles/small_rigtorium_vault.png"@,
        (5, 2) => "embedded://textures/tiles/small_flextorium_vault.png"@,
        (5, 3) => "embedded://textures/tiles/small_battery.png"@,
        _ => "embedded://textures/tiles/conveyors/back.png"@,
    }
}

pub fn get_tile_texture(tile_type: (u8, u8)) -> (s: &'static str)
    ensures
        s@ == tile_texture(tile_type),
{
    match tile_type {
        (0, 1) => "embedded://textures/tiles/none.png",
        (1, 1) => "embedded://textures/tiles/core.png",
        (1, 2) => "embedded://textures/tiles/portal.png",
        (2, 1) => "embedded://textures/tiles/conveyors/back.png",
        (2, 2) => "embedded://textures/tiles/conveyors/router.png",
        (2, 3) => "embedded://textures/tiles/conveyors/junction.png",
        (3, 1) => "embedded://textures/tiles/extractors/raw_rigtorium.png",
        (3, 2) => "embedded://textures/tiles/extractors/raw_flextorium.png",
        (3, 3) => "embedded://textures/tiles/extractors/electrine.png",
        (4, 1) => "embedded://textures/tiles/factories/rigtorium_smelter.png",
        (4, 2) => "embedded://textures/tiles/factories/flextorium_fabricator.png",
        (4, 3) => "embedded://textures/tiles/factories/rigtorium_rod_molder.png",
        (4, 4) => "embedded://textures/tiles/factories/conveyor_constructor.png",
        (4, 5) => "embedded://textures/tiles/factories/router_constructor.png",
        (5, 1) => "embedded://textures/tiles/small_rigtorium_vault.png",
        (5, 2) => "embedded://textures/tiles/small_flextorium_vault.png",
        (5, 3) => "embedded://textures/tiles/small_battery.png",
        _ => "embedded://textures/tiles/conveyors/back.png",
    }
}

/// The decimal digits of `n`.
pub open spec fn decimal(n: u8) -> Seq<char> {
    let d = |v: int| (v + 48) as char;
    if n < 10 {
        seq![d(n as int)]
    } else if n < 100 {
        seq![d(n as int / 10), d(n as int % 10)]
    } else {
        seq![d(n as int / 100), d((n as int / 10) % 10), d(n as int % 10)]
    }
}

/// The one-character string of the decimal digit `d`.
fn digit_str(d: u8) -> (s: &'static str)
    requires
        d < 10,
    ensures
        s@ == seq![(d as int + 48) as char],
{
    proof {
        reveal_strlit("0");
        reveal_strlit("1");
        reveal_strlit("2");
        reveal_strlit("3");
        reveal_strlit("4");
        reveal_strlit("5");
        reveal_strlit("6");
        reveal_strlit("7");
        reveal_strlit("8");
        reveal_strlit("9");
    }
    match d {
        0 => "0",
        1 => "1",
        2 => "2",
        3 => "3",
        4 => "4",
        5 => "5",
        6 => "6",
        7 => "7",
        8 => "8",
        _ => "9",
    }
}

/// The decimal digits of `n`, without leading zeros.
fn decimal_string(n: u8) -> (s: String)
    ensures
        s@ == decimal(n),
{
    let mut s = String::new();
    if n >= 100 {
        s.append(digit_str(n / 100));
    }
    if n >= 10 {
        s.append(digit_str((n / 10) % 10));
    }
    s.append(digit_str(n % 10));
    proof {
        if n < 100 {
            assert((n / 10) % 10 == n / 10);
        }
        assert(s@ =~= decimal(n));
    }
    s
}

/// Formats a tile id as its two numbers in decimal, separated by a comma and a
/// space.
pub fn format_tile_id(tile_type: (u8, u8)) -> (s: String)
    ensures
        s@ == decimal(tile_type.0) + ", "@ + decimal(tile_type.1),
{
    let mut s = decimal_string(tile_type.0);
    s.append(", ");
    let second = decimal_string(tile_type.1);
    s.append(second.as_str());
    s
}

/// The display name of a tile id.
pub open spec fn tile_name(t: (u8, u8)) -> Seq<char> {
    match t {
        (1, 1) => "Core"@,
        (1, 2) => "Portal"@,
        (2, 1) => "Conveyor"@,
        (2, 2) => "Router"@,
        (2, 3) => "Junction"@,
        (3, 1) => "Raw Rigtorium Extractor"@,
        (3, 2) => "Raw Flextorium Extractor"@,
        (3, 3) => "Electrine Extractor"@,
        (4, 1) => "Rigtorium Smelter"@,
        (4, 2) => "Flextorium Fabricator"@,
        (4, 3) => "Rigtorium Rod Molder"@,
        (4, 4) => "Conveyor Constructor"@,
        (4, 5) => "Router Constructor"@,
        (5, 1) => "Small Rigtorium Vault"@,
        (5, 2) => "Small Flextorium Vault"@,
        (5, 3) => "Small Battery"@,
        _ => "Unknown Tile"@,
    }
}

pub fn get_tile_name(tile_type: (u8, u8)) -> (s: String)
    ensures
        s@ == tile_name(tile_type),
{
    let name = match tile_type {
        (1, 1) => "Core",
        (1, 2) => "Portal",
        (2, 1) => "Conveyor",
        (2, 2) => "Router",
        (2, 3) => "Junction",
        (3, 1) => "Raw Rigtorium Extractor",
        (3, 2) => "Raw Flextorium Extractor",
        (3, 3) => "Electrine Extractor",
        (4, 1) => "Rigtorium Smelter",
        (4, 2) => "Flextorium Fabricator",
        (4, 3) => "Rigtorium Rod Molder",
        (4, 4) => "Conveyor Constructor",
        (4, 5) => "Router Constructor",
        (5, 1) => "Small Rigtorium Vault",
        (5, 2) => "Small Flextorium Vault",
        (5, 3) => "Small Battery",
        _ => "Unknown Tile",
    };
    name.to_string()
}

/// How many ticks a core takes to make one tile of kind `t`.
pub open spec fn core_interval(t: (u8, u8)) -> u32 {
    match t {
        (1, 2) => 100,
        (2, 1) => 20,
        (2, 2) => 30,
        (2, 3) => 30,
        (3, 1) => 40,
        (3, 2) => 40,
        (3, 3) => 40,
        (4, 1) => 60,
        (4, 2) => 60,
        (4, 3) => 70,
        (4, 4) => 80,
        (4, 5) => 80,
        (5, 1) => 50,
        (5, 2) => 50,
        (5, 3) => 50,
        _ => 6942,
    }
}

pub fn get_tile_core_interval(tile_type: (u8, u8)) -> (n: u32)
    ensures
        n == core_interval(tile_type),
{
    match tile_type {
        (1, 2) => 100,
        (2, 1) => 20,
        (2, 2) => 30,
        (2, 3) => 30,
        (3, 1) => 40,
        (3, 2) => 40,
        (3, 3) => 40,
        (4, 1) => 60,
        (4, 2) => 60,
        (4, 3) => 70,
        (4, 4) => 80,
        (4, 5) => 80,
        (5, 1) => 50,
        (5, 2) => 50,
        (5, 3) => 50,
        _ => 6942,
    }
}

/// What a tile of kind `t` costs to buy, and brings when sold.
pub open spec fn tile_price(t: (u8, u8)) -> u32 {
    match t {
        (1, 2) => 50,
        (2, 1) => 10,
        (2, 2) => 15,
        (2, 3) => 15,
        (3, 1) => 20,
        (3, 2) => 20,
        (3, 3) => 20,
        (4, 1) => 30,
        (4, 2) => 30,
        (4, 3) => 35,
        (4, 4) => 40,
        (4, 5) => 40,
        (5, 1) => 25,
        (5, 2) => 25,
        (5, 3) => 25,
        _ => 60,
    }
}

pub fn get_tile_price(tile_type: (u8, u8)) -> (n: u32)
    ensures
        n == tile_price(tile_type),
{
    match tile_type {
        (1, 2) => 50,
        (2, 1) => 10,
        (2, 2) => 15,
        (2, 3) => 15,
        (3, 1) => 20,
        (3, 2) => 20,
        (3, 3) => 20,
        (4, 1) => 30,
        (4, 2) => 30,
        (4, 3) => 35,
        (4, 4) => 40,
        (4, 5) => 40,
        (5, 1) => 25,
        (5, 2) => 25,
        (5, 3) => 25,
        _ => 60,
    }
}

/// The tile that a tile id builds at `position` facing `direction`, fresh and
/// empty. Unknown ids build a conveyor.
pub open spec fn new_tile(tile_type: (u8, u8), position: Position, direction: Direction) -> Tile {
    let factory = |factory_type: FactoryType, interval: u32|
        Tile::Factory(
            Factory {
                position,
                direction,
                factory_type,
                inventory: empty_counts(),
                item: None,
                interval,
                ticks: 0,
            },
        );
    let storage = |storage_type: StorageType|
        Tile::Storage(Storage { position, direction, inventory: 0, storage_type });
    let extractor = |extractor_type: ExtractorType|
        Tile::Extractor(Extractor { position, direction, extractor_type, item: None });
    match tile_type {
        (1, 1) => Tile::Core(Core { position, interval: 10, ticks: 0, tile_id: (1, 1) }),
        (1, 2) => Tile::Portal(Portal { position, item: None }),
        (2, 2) => Tile::Router(
            Router { position, direction, item: None, last_output: RouterOutputIndex::Forward },
        ),
        (2, 3) => Tile::Junction(Junction { position, horizontal_item: None, vertical_item: None }),
        (3, 1) => extractor(ExtractorType::RawRigtorium),
        (3, 2) => extractor(ExtractorType::RawFlextorium),
        (3, 3) => extractor(ExtractorType::Electrine),
        (4, 1) => factory(FactoryType::RigtoriumSmelter, 2),
        (4, 2) => factory(FactoryType::FlextoriumFabricator, 2),
        (4, 3) => factory(FactoryType::RigtoriumRodMolder, 2),
        (4, 4) => factory(FactoryType::ConveyorConstructor, 5),
        (4, 5) => factory(FactoryType::RouterConstructor, 5),
        (5, 1) => storage(StorageType::SmallRigotriumVault),
        (5, 2) => storage(StorageType::SmallFlextoriumVault),
        (5, 3) => storage(StorageType::SmallBattery),
        _ => Tile::Conveyor(Conveyor { position, direction, item: None }),
    }
}

/// A fresh tile of kind `tile_type` at `position` facing `direction`, with its id.
pub fn get_new_tile(tile_type: (u8, u8), position: Position, direction: Direction) -> (r: (
    Tile,
    (u8, u8),
))
    ensures
        r == (new_tile(tile_type, position, direction), tile_type),
{
    let tile = match tile_type {
        (1, 1) => Tile::Core(Core { position, interval: 10, ticks: 0, tile_id: (1, 1) }),
        (1, 2) => Tile::Portal(Portal { position, item: None }),
        (2, 2) => Tile::Router(
            Router { position, direction, item: None, last_output: RouterOutputIndex::Forward },
        ),
        (2, 3) => Tile::Junction(Junction { position, horizontal_item: None, vertical_item: None }),
        (3, 1) => Tile::Extractor(
            Extractor { position, direction, extractor_type: ExtractorType::RawRigtorium, item: None },
        ),
        (3, 2) => Tile::Extractor(
            Extractor { position, direction, extractor_type: ExtractorType::RawFlextorium, item: None },
        ),
        (3, 3) => Tile::Extractor(
            Extractor { position, direction, extractor_type: ExtractorType::Electrine, item: None },
        ),
        (4, 1) => new_factory(position, direction, FactoryType::RigtoriumSmelter, 2),
        (4, 2) => new_factory(position, direction, FactoryType::FlextoriumFabricator, 2),
        (4, 3) => new_factory(position, direction, FactoryType::RigtoriumRodMolder, 2),
        (4, 4) => new_factory(position, direction, FactoryType::ConveyorConstructor, 5),
        (4, 5) => new_factory(position, direction, FactoryType::RouterConstructor, 5),
        (5, 1) => Tile::Storage(
            Storage { position, direction, inventory: 0, storage_type: StorageType::SmallRigotriumVault },
        ),
        (5, 2) => Tile::Storage(
            Storage { position, direction, inventory: 0, storage_type: StorageType::SmallFlextoriumVault },
        ),
        (5, 3) => Tile::Storage(
            Storage { position, direction, inventory: 0, storage_type: StorageType::SmallBattery },
        ),
        _ => Tile::Conveyor(Conveyor { position, direction, item: None }),
    };
    (tile, tile_type)
}

/// No items at all.
pub open spec fn empty_counts() -> ItemCounts {
    ItemCounts {
        raw_flextorium: 0,
        raw_rigtorium: 0,
        flextorium: 0,
        rigtorium: 0,
        electrine: 0,
        rigtorium_rod: 0,
        conveyor: 0,
        router: 0,
    }
}

fn new_factory(position: Position, direction: Direction, factory_type: FactoryType, interval: u32) -> (t: Tile)
    ensures
        t == Tile::Factory(
            Factory {
                position,
                direction,
                factory_type,
                inventory: empty_counts(),
                item: None,
                interval,
                ticks: 0,
            },
        ),
{
    Tile::Factory(
        Factory {
            position,
            direction,
            factory_type,
            inventory: ItemCounts::new(),
            item: None,
            interval,
            ticks: 0,
        },
    )
}

/// Whether the tile at `from` sends items in `d`: a conveyor, factory or extractor
/// facing `d`, a router facing `d` or a quarter turn either way from it, or any
/// junction.
pub open spec fn points_to(world: WorldView, from: Position, d: Direction) -> bool {
    match tile_in(world.tiles, from) {
        Some(Tile::Conveyor(c)) => c.direction == d,
        Some(Tile::Router(r)) => r.direction == d || rotated_clockwise(r.direction) == d
            || rotated_counterclockwise(r.direction) == d,
        Some(Tile::Factory(f)) => f.direction == d,
        Some(Tile::Extractor(e)) => e.direction == d,
        Some(Tile::Junction(_)) => true,
        _ => false,
    }
}

pub fn is_conveyor_pointing_to(world: &WorldRes, from_pos: Position, pointing_direction: Direction) -> (b: bool)
    ensures
        b == points_to(world@, from_pos, pointing_direction),
{
    match world.get_tile(from_pos) {
        Some(Tile::Conveyor(conveyor)) => conveyor.direction == pointing_direction,
        Some(Tile::Router(router)) => {
            router.direction == pointing_direction || router.direction.shift(1)
                == pointing_direction || router.direction.shift(-1) == pointing_direction
        },
        Some(Tile::Factory(factory)) => factory.direction == pointing_direction,
        Some(Tile::Extractor(extractor)) => extractor.direction == pointing_direction,
        Some(Tile::Junction(_)) => {
            pointing_direction == Direction::Up || pointing_direction == Direction::Down
                || pointing_direction == Direction::Left || pointing_direction == Direction::Right
        },
        _ => false,
    }
}

/// The conveyor texture for which of its back, left and right neighbours feed it.
pub open spec fn conveyor_texture(behind: bool, left: bool, right: bool) -> Seq<char> {
    match (behind, left, right) {
        (true, true, false) => "embedded://textures/tiles/conveyors/left_back.png"@,
        (true, false, true) => "embedded://textures/tiles/conveyors/right_back.png"@,
        (false, true, true) => "embedded://textures/tiles/conveyors/sides.png"@,
        (true, false, false) => "embedded://textures/tiles/conveyors/back.png"@,
        (false, true, false) => "embedded://textures/tiles/conveyors/left.png"@,
        (false, false, true) => "embedded://textures/tiles/conveyors/right.png"@,
        (true, true, true) => "embedded://textures/tiles/conveyors/all.png"@,
        _ => "embedded://textures/tiles/conveyors/back.png"@,
    }
}

/// The neighbours of a conveyor at `pos` facing `dir`: behind it, on its left and
/// on its right.
pub open spec fn conveyor_neighbors(pos: Position, dir: Direction) -> (Position, Position, Position) {
    (
        pos.neighbor(rotated_clockwise(rotated_clockwise(dir))),
        pos.neighbor(rotated_counterclockwise(dir)),
        pos.neighbor(rotated_clockwise(dir)),
    )
}

/// Whether the cells behind a conveyor and on its two sides lie inside the
/// `i32` range.
pub open spec fn conveyor_neighbors_fit(pos: Position, dir: Direction) -> bool {
    &&& pos.can_shift(rotated_clockwise(rotated_clockwise(dir)))
    &&& pos.can_shift(rotated_counterclockwise(dir))
    &&& pos.can_shift(rotated_clockwise(dir))
}

pub fn determine_conveyor_texture(world: &WorldRes, conveyor: &Conveyor) -> (s: &'static str)
    requires
        conveyor_neighbors_fit(conveyor.position, conveyor.direction),
    ensures
        ({
            let (behind, left, right) = conveyor_neighbors(conveyor.position, conveyor.direction);
            s@ == conveyor_texture(
                points_to(world@, behind, conveyor.direction),
                points_to(world@, left, rotated_clockwise(conveyor.direction)),
                points_to(world@, right, rotated_counterclockwise(conveyor.direction)),
            )
        }),
{
    let pos = conveyor.position;
    let dir = conveyor.direction;
    let (behind_pos, left_pos, right_pos) = match dir {
        Direction::Up => (
            Position::new(pos.x, pos.y - 1),
            Position::new(pos.x - 1, pos.y),
            Position::new(pos.x + 1, pos.y),
        ),
        Direction::Down => (
            Position::new(pos.x, pos.y + 1),
            Position::new(pos.x + 1, pos.y),
            Position::new(pos.x - 1, pos.y),
        ),
        Direction::Left => (
            Position::new(pos.x + 1, pos.y),
            Position::new(pos.x, pos.y - 1),
            Position::new(pos.x, pos.y + 1),
        ),
        Direction::Right => (
            Position::new(pos.x - 1, pos.y),
            Position::new(pos.x, pos.y + 1),
            Position::new(pos.x, pos.y - 1),
        ),
    };
    let has_behind = is_conveyor_pointing_to(world, behind_pos, dir);
    let has_left = is_conveyor_pointing_to(world, left_pos, rotate_direction_clockwise(dir));
    let has_right = is_conveyor_pointing_to(world, right_pos, rotate_direction_counterclockwise(dir));
    match (has_behind, has_left, has_right) {
        (true, true, false) => "embedded://textures/tiles/conveyors/left_back.png",
        (true, false, true) => "embedded://textures/tiles/conveyors/right_back.png",
        (false, true, true) => "embedded://textures/tiles/conveyors/sides.png",
        (true, false, false) => "embedded://textures/tiles/conveyors/back.png",
        (false, true, false) => "embedded://textures/tiles/conveyors/left.png",
        (false, false, true) => "embedded://textures/tiles/conveyors/right.png",
        (true, true, true) => "embedded://textures/tiles/conveyors/all.png",
        _ => "embedded://textures/tiles/conveyors/back.png",
    }
}


/// The texture that a placed tile shows: a conveyor's depends on which of its
/// neighbours feed it; a storage has none of its own.
pub open spec fn placed_tile_texture(world: WorldView, t: Tile) -> Option<Seq<char>> {
    match t {
        Tile::Conveyor(c) => {
            let (behind, left, right) = conveyor_neighbors(c.position, c.direction);
            Some(
                conveyor_texture(
                    points_to(world, behind, c.direction),
                    points_to(world, left, rotated_clockwise(c.direction)),
                    points_to(world, right, rotated_counterclockwise(c.direction)),
                ),
            )
        },
        Tile::Router(_) => Some("embedded://textures/tiles/conveyors/router.png"@),
        Tile::Factory(f) => Some(factory_sprite(f.factory_type)),
        Tile::Extractor(e) => Some(extractor_sprite(e.extractor_type)),
        Tile::Portal(_) => Some("embedded://textures/tiles/portal.png"@),
        Tile::Junction(_) => Some("embedded://textures/tiles/conveyors/junction.png"@),
        Tile::Core(_) => Some("embedded://textures/tiles/core.png"@),
        Tile::Storage(_) => None,
    }
}

/// The texture that `tile`, placed in `world`, shows.
pub fn placed_tile_sprite(world: &WorldRes, tile: &Tile) -> (s: Option<String>)
    requires
        tile matches Tile::Conveyor(c) ==> conveyor_neighbors_fit(c.position, c.direction),
    ensures
        match s {
            Some(v) => placed_tile_texture(world@, *tile) == Some(v@),
            None => placed_tile_texture(world@, *tile) is None,
        },
{
    match tile {
        Tile::Conveyor(c) => Some(determine_conveyor_texture(world, c).to_string()),
        Tile::Router(_) => Some("embedded://textures/tiles/conveyors/router.png".to_string()),
        Tile::Factory(f) => Some(f.factory_type.sprite().to_string()),
        Tile::Extractor(e) => Some(e.extractor_type.sprite()),
        Tile::Portal(_) => Some("embedded://textures/tiles/portal.png".to_string()),
        Tile::Junction(_) => Some("embedded://textures/tiles/conveyors/junction.png".to_string()),
        Tile::Core(_) => Some("embedded://textures/tiles/core.png".to_string()),
        Tile::Storage(_) => None,
    }
}

/// The tile built for a tile id is the kind of building that the id names and
/// pictures: it stands on the given cell, a built extractor, factory, core,
/// portal, router or junction shows the id's own texture, an extractor digs the
/// raw item its name says, a factory makes the item its name says, and a
/// storage keeps the item its name says.
pub proof fn lemma_new_tile_matches_id(world: WorldView, tile_type: (u8, u8), position: Position, direction: Direction)
    ensures
        new_tile(tile_type, position, direction).pos() == position,
        (tile_type.0 == 1 && 1 <= tile_type.1 <= 2) || (tile_type.0 == 2 && 2 <= tile_type.1 <= 3)
            || (tile_type.0 == 3 && 1 <= tile_type.1 <= 3) || (tile_type.0 == 4 && 1 <= tile_type.1
            <= 5) ==> placed_tile_texture(world, new_tile(tile_type, position, direction)) == Some(
            tile_texture(tile_type),
        ),
        tile_type == (3u8, 1u8) ==> (new_tile(tile_type, position, direction) matches Tile::Extractor(e)
            && extractor_item(e.extractor_type) == Item::RawRigtorium),
        tile_type == (3u8, 2u8) ==> (new_tile(tile_type, position, direction) matches Tile::Extractor(e)
            && extractor_item(e.extractor_type) == Item::RawFlextorium),
        tile_type == (3u8, 3u8) ==> (new_tile(tile_type, position, direction) matches Tile::Extractor(e)
            && extractor_item(e.extractor_type) == Item::Electrine),
        tile_type == (4u8, 1u8) ==> (new_tile(tile_type, position, direction) matches Tile::Factory(f)
            && recipe_output(f.factory_type) == Item::Rigtorium),
        tile_type == (4u8, 2u8) ==> (new_tile(tile_type, position, direction) matches Tile::Factory(f)
            && recipe_output(f.factory_type) == Item::Flextorium),
        tile_type == (4u8, 3u8) ==> (new_tile(tile_type, position, direction) matches Tile::Factory(f)
            && recipe_output(f.factory_type) == Item::RigtoriumRod),
        tile_type == (4u8, 4u8) ==> (new_tile(tile_type, position, direction) matches Tile::Factory(f)
            && recipe_output(f.factory_type) == Item::Conveyor),
        tile_type == (4u8, 5u8) ==> (new_tile(tile_type, position, direction) matches Tile::Factory(f)
            && recipe_output(f.factory_type) == Item::Router),
        tile_type == (5u8, 1u8) ==> (new_tile(tile_type, position, direction) matches Tile::Storage(s)
            && storage_item(s.storage_type) == Item::Rigtorium),
        tile_type == (5u8, 2u8) ==> (new_tile(tile_type, position, direction) matches Tile::Storage(s)
            && storage_item(s.storage_type) == Item::Flextorium),
        tile_type == (5u8, 3u8) ==> (new_tile(tile_type, position, direction) matches Tile::Storage(s)
            && storage_item(s.storage_type) == Item::Electrine),
{
}

} // verus!
