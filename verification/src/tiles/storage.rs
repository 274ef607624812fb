use vstd::prelude::*;

use crate::resources::{WorldRes, WorldView};
use crate::types::{key_of, Action, Direction, Item, Position};

verus! {

broadcast use vstd::std_specs::hash::group_hash_axioms;

/// A vault that hands out its stored item towards the cell it faces.
#[derive(Clone, Copy, Debug)]
pub struct Storage {
    pub position: Position,
    pub direction: Direction,
    pub inventory: u32,
    pub storage_type: StorageType,
}

/// The kinds of storage.
#[derive(Clone, Copy, PartialEq, Eq, Structural, Debug)]
pub enum StorageType {
    SmallRigotriumVault,
    SmallFlextoriumVault,
    SmallBattery,
}

pub open spec fn storage_item(t: StorageType) -> Item {
    match t {
        StorageType::SmallRigotriumVault => Item::Rigtorium,
        StorageType::SmallFlextoriumVault => Item::Flextorium,
        StorageType::SmallBattery => Item::Electrine,
    }
}

impl StorageType {
    /// How many items the storage holds at most.
    pub fn capacity(&self) -> (n: u32)
        ensures
            n == 10,
    {
        match self {
            StorageType::SmallRigotriumVault => 10,
            StorageType::SmallFlextoriumVault => 10,
            StorageType::SmallBattery => 10,
        }
    }

    /// The item the storage keeps.
    pub fn stored_item(&self) -> (i: Item)
        ensures
            i == storage_item(*self),
    {
        match self {
            StorageType::SmallRigotriumVault => Item::Rigtorium,
            StorageType::SmallFlextoriumVault => Item::Flextorium,
            StorageType::SmallBattery => Item::Electrine,
        }
    }
}

impl Storage {
    pub open spec fn tick_in_range(self) -> bool {
        self.position.can_shift(self.direction)
    }

    /// A non-empty storage sends its item to the faced cell when a tile stands there.
    pub open spec fn next_action(self, world: WorldView) -> Option<Action> {
        let end = self.position.neighbor(self.direction);
        if world.tiles.contains_key(key_of(end)) && self.inventory >= 1 {
            Some(Action::Move(self.position, end, storage_item(self.storage_type)))
        } else {
            None
        }
    }

    pub fn tick(&self, world: &WorldRes) -> (a: Option<Action>)
        requires
            self.tick_in_range(),
        ensures
            a == self.next_action(world@),
    {
        let end_position = self.position.shift(self.direction);
        if world.has_tile(end_position) {
            if self.inventory >= 1 {
                return Some(
                    Action::Move(self.position, end_position, self.storage_type.stored_item()),
                );
            }
        }
        None
    }
}

/// A storage that holds at least one item sends its kind of item to the faced
/// cell whenever a tile stands there; an empty storage sends nothing.
pub proof fn lemma_storage_sends_when_stocked(s: Storage, world: WorldView)
    ensures
        s.inventory >= 1 && world.tiles.contains_key(key_of(s.position.neighbor(s.direction)))
            ==> s.next_action(world) == Some(
            Action::Move(s.position, s.position.neighbor(s.direction), storage_item(s.storage_type)),
        ),
        s.inventory == 0 ==> s.next_action(world) is None,
        s.storage_type == StorageType::SmallBattery ==> storage_item(s.storage_type) == Item::Electrine,
        s.storage_type == StorageType::SmallRigotriumVault ==> storage_item(s.storage_type) == Item::Rigtorium,
        s.storage_type == StorageType::SmallFlextoriumVault ==> storage_item(s.storage_type) == Item::Flextorium,
{
}

} // verus!
