use vstd::prelude::*;

use crate::resources::{WorldRes, WorldView};
use crate::types::{
    item_at, item_index, key_of, lemma_item_slots, lemma_with_count, Action, Direction, Item,
    ItemCounts, Position, Recipe, ITEM_KINDS,
};

verus! {

broadcast use vstd::std_specs::hash::group_hash_axioms;

/// Turns the items of its recipe into the recipe's output.
#[derive(Clone, Copy, Debug)]
pub struct Factory {
    pub position: Position,
    pub direction: Direction,
    pub factory_type: FactoryType,
    pub inventory: ItemCounts,
    pub item: Option<Item>,
    pub interval: u32,
    pub ticks: u32,
}

/// The kinds of factory.
#[derive(Clone, Copy, PartialEq, Eq, Structural, Debug)]
pub enum FactoryType {
    RigtoriumSmelter,
    FlextoriumFabricator,
    RigtoriumRodMolder,
    ConveyorConstructor,
    RouterConstructor,
}

/// How many of `item` a factory of kind `t` can hold.
pub open spec fn factory_capacity(t: FactoryType, item: Item) -> u32 {
    match (t, item) {
        (FactoryType::RigtoriumSmelter, Item::RawRigtorium) => 2,
        (FactoryType::RigtoriumSmelter, Item::Electrine) => 2,
        (FactoryType::FlextoriumFabricator, Item::RawFlextorium) => 2,
        (FactoryType::FlextoriumFabricator, Item::Electrine) => 2,
        (FactoryType::RigtoriumRodMolder, Item::Rigtorium) => 4,
        (FactoryType::RigtoriumRodMolder, Item::Electrine) => 2,
        (FactoryType::ConveyorConstructor, Item::Flextorium) => 8,
        (FactoryType::ConveyorConstructor, Item::RigtoriumRod) => 4,
        (FactoryType::ConveyorConstructor, Item::Electrine) => 2,
        (FactoryType::RouterConstructor, Item::Flextorium) => 4,
        (FactoryType::RouterConstructor, Item::Conveyor) => 2,
        _ => 0,
    }
}

/// How many of `item` one run of a factory of kind `t` consumes.
pub open spec fn recipe_input(t: FactoryType, item: Item) -> u32 {
    match (t, item) {
        (FactoryType::RigtoriumSmelter, Item::RawRigtorium) => 1,
        (FactoryType::RigtoriumSmelter, Item::Electrine) => 1,
        (FactoryType::FlextoriumFabricator, Item::RawFlextorium) => 1,
        (FactoryType::FlextoriumFabricator, Item::Electrine) => 1,
        (FactoryType::RigtoriumRodMolder, Item::Rigtorium) => 2,
        (FactoryType::RigtoriumRodMolder, Item::Electrine) => 1,
        (FactoryType::ConveyorConstructor, Item::Flextorium) => 4,
        (FactoryType::ConveyorConstructor, Item::RigtoriumRod) => 2,
        (FactoryType::ConveyorConstructor, Item::Electrine) => 1,
        (FactoryType::RouterConstructor, Item::Flextorium) => 2,
        (FactoryType::RouterConstructor, Item::Conveyor) => 1,
        _ => 0,
    }
}

/// The item a factory of kind `t` makes.
pub open spec fn recipe_output(t: FactoryType) -> Item {
    match t {
        FactoryType::RigtoriumSmelter => Item::Rigtorium,
        FactoryType::FlextoriumFabricator => Item::Flextorium,
        FactoryType::RigtoriumRodMolder => Item::RigtoriumRod,
        FactoryType::ConveyorConstructor => Item::Conveyor,
        FactoryType::RouterConstructor => Item::Router,
    }
}

pub open spec fn factory_sprite(t: FactoryType) -> Seq<char> {
    match t {
        FactoryType::RigtoriumSmelter => "embedded://textures/tiles/factories/rigtorium_smelter.png"@,
        FactoryType::FlextoriumFabricator => "embedded://textures/tiles/factories/flextorium_fabricator.png"@,
        FactoryType::RigtoriumRodMolder => "embedded://textures/tiles/factories/rigtorium_rod_molder.png"@,
        FactoryType::ConveyorConstructor => "embedded://textures/tiles/factories/conveyor_constructor.png"@,
        FactoryType::RouterConstructor => "embedded://textures/tiles/factories/router_constructor.png"@,
    }
}

/// `inv` with the recipe inputs of kind `t` taken away for the items in slots
/// below `upto`.
pub open spec fn consume_all(inv: ItemCounts, t: FactoryType, upto: int) -> ItemCounts
    decreases upto,
{
    if upto <= 0 {
        inv
    } else {
        let item = item_at(upto - 1);
        let prev = consume_all(inv, t, upto - 1);
        prev.with_count(item, (inv.count(item) - recipe_input(t, item)) as u32)
    }
}

/// Taking the inputs of the first `upto` slots changes exactly those counts.
pub proof fn lemma_consume_all_count(inv: ItemCounts, t: FactoryType, upto: int, item: Item)
    requires
        0 <= upto <= 8,
    ensures
        consume_all(inv, t, upto).count(item) == if item_index(item) < upto {
            (inv.count(item) - recipe_input(t, item)) as u32
        } else {
            inv.count(item)
        },
    decreases upto,
{
    lemma_item_slots();
    if upto > 0 {
        lemma_consume_all_count(inv, t, upto - 1, item);
        lemma_with_count(consume_all(inv, t, upto - 1), item_at(upto - 1), (inv.count(item_at(upto - 1)) - recipe_input(t, item_at(upto - 1))) as u32);
    }
}

impl FactoryType {
    /// How many of each item the factory can hold.
    pub fn capacity(&self) -> (c: ItemCounts)
        ensures
            forall|item: Item| c.count(item) == factory_capacity(*self, item),
    {
        let z = ItemCounts::new();
        match self {
            FactoryType::RigtoriumSmelter => ItemCounts { raw_rigtorium: 2, electrine: 2, ..z },
            FactoryType::FlextoriumFabricator => ItemCounts { raw_flextorium: 2, electrine: 2, ..z },
            FactoryType::RigtoriumRodMolder => ItemCounts { rigtorium: 4, electrine: 2, ..z },
            FactoryType::ConveyorConstructor => ItemCounts {
                flextorium: 8,
                rigtorium_rod: 4,
                electrine: 2,
                ..z
            },
            FactoryType::RouterConstructor => ItemCounts { flextorium: 4, conveyor: 2, ..z },
        }
    }

    /// What one run of the factory consumes and makes.
    pub fn recipe(&self) -> (r: Recipe)
        ensures
            forall|item: Item| r.inputs.count(item) == recipe_input(*self, item),
            r.output == recipe_output(*self),
    {
        let z = ItemCounts::new();
        match self {
            FactoryType::RigtoriumSmelter => Recipe {
                inputs: ItemCounts { raw_rigtorium: 1, electrine: 1, ..z },
                output: Item::Rigtorium,
            },
            FactoryType::FlextoriumFabricator => Recipe {
                inputs: ItemCounts { raw_flextorium: 1, electrine: 1, ..z },
                output: Item::Flextorium,
            },
            FactoryType::RigtoriumRodMolder => Recipe {
                inputs: ItemCounts { rigtorium: 2, electrine: 1, ..z },
                output: Item::RigtoriumRod,
            },
            FactoryType::ConveyorConstructor => Recipe {
                inputs: ItemCounts { flextorium: 4, rigtorium_rod: 2, electrine: 1, ..z },
                output: Item::Conveyor,
            },
            FactoryType::RouterConstructor => Recipe {
                inputs: ItemCounts { flextorium: 2, conveyor: 1, ..z },
                output: Item::Router,
            },
        }
    }

    pub fn sprite(&self) -> (s: &'static str)
        ensures
            s@ == factory_sprite(*self),
    {
        match self {
            FactoryType::RigtoriumSmelter => {
                "embedded://textures/tiles/factories/rigtorium_smelter.png"
            },
            FactoryType::FlextoriumFabricator => {
                "embedded://textures/tiles/factories/flextorium_fabricator.png"
            },
            FactoryType::RigtoriumRodMolder => {
                "embedded://textures/tiles/factories/rigtorium_rod_molder.png"
            },
            FactoryType::ConveyorConstructor => {
                "embedded://textures/tiles/factories/conveyor_constructor.png"
            },
            FactoryType::RouterConstructor => {
                "embedded://textures/tiles/factories/router_constructor.png"
            },
        }
    }
}

impl Factory {
    /// The factory holds at least the recipe's amount of every item and its
    /// output slot is empty.
    pub open spec fn ready(self) -> bool {
        &&& forall|item: Item| #[trigger] self.inventory.count(item) >= recipe_input(self.factory_type, item)
        &&& self.item is None
    }

    /// Whether the factory can take one more of `item`.
    pub open spec fn has_room_for(self, item: Item) -> bool {
        factory_capacity(self.factory_type, item) > self.inventory.count(item)
    }

    pub open spec fn tick_in_range(self) -> bool {
        self.ready() || self.position.can_shift(self.direction)
    }

    /// A ready factory asks to produce; otherwise a held output moves to the
    /// faced cell when a tile stands there.
    pub open spec fn next_action(self, world: WorldView) -> Option<Action> {
        if self.ready() {
            Some(Action::Produce(self.position))
        } else {
            let end = self.position.neighbor(self.direction);
            if world.tiles.contains_key(key_of(end)) && self.item is Some {
                Some(Action::Move(self.position, end, self.item->0))
            } else {
                None
            }
        }
    }

    /// Whether the factory holds at least the recipe's amount of every item and
    /// its output slot is empty.
    pub fn can_produce(&self) -> (b: bool)
        ensures
            b == self.ready(),
    {
        let recipe = self.factory_type.recipe();
        proof {
            lemma_item_slots();
        }
        let mut j: usize = 0;
        while j < ITEM_KINDS
            invariant
                j <= ITEM_KINDS,
                forall|item: Item| #[trigger] recipe.inputs.count(item) == recipe_input(self.factory_type, item),
                forall|item: Item| item_index(item) < j ==> #[trigger] self.inventory.count(item) >= recipe_input(self.factory_type, item),
            decreases ITEM_KINDS - j,
        {
            let item = Item::from_index(j);
            if self.inventory.get(item) < recipe.inputs.get(item) {
                return false;
            }
            proof {
                assert forall|it: Item| item_index(it) < j + 1 implies #[trigger] self.inventory.count(it) >= recipe_input(self.factory_type, it) by {
                    if item_index(it) == j {
                        assert(item_at(item_index(it)) == it);
                    }
                }
            }
            j = j + 1;
        }
        self.item.is_none()
    }

    /// The factory after `produce`: a ready factory has the recipe's inputs taken
    /// from its inventory; any other factory is unchanged.
    pub open spec fn after_produce(self) -> Factory {
        if self.ready() {
            Factory { inventory: consume_all(self.inventory, self.factory_type, 8), ..self }
        } else {
            self
        }
    }

    /// Consumes the recipe's inputs when the factory is ready and returns the
    /// recipe's output; otherwise changes nothing and returns `None`.
    pub fn produce(&mut self) -> (out: Option<Item>)
        ensures
            *final(self) == old(self).after_produce(),
            old(self).ready() ==> out == Some(recipe_output(old(self).factory_type)),
            old(self).ready() ==> forall|item: Item|
                #[trigger] final(self).inventory.count(item) == old(self).inventory.count(item)
                    - recipe_input(old(self).factory_type, item),
            !old(self).ready() ==> out is None,
    {
        let recipe = self.factory_type.recipe();
        if self.can_produce() {
            proof {
                lemma_item_slots();
            }
            let ghost before = *self;
            let mut j: usize = 0;
            while j < ITEM_KINDS
                invariant
                    j <= ITEM_KINDS,
                    before.ready(),
                    forall|item: Item| #[trigger] recipe.inputs.count(item) == recipe_input(before.factory_type, item),
                    *self == (Factory { inventory: consume_all(before.inventory, before.factory_type, j as int), ..before }),
                decreases ITEM_KINDS - j,
            {
                let item = Item::from_index(j);
                proof {
                    lemma_consume_all_count(before.inventory, before.factory_type, j as int, item);
                    assert(before.inventory.count(item) >= recipe_input(before.factory_type, item));
                }
                let left = self.inventory.get(item) - recipe.inputs.get(item);
                self.inventory.set(item, left);
                j = j + 1;
            }
            proof {
                assert forall|item: Item| #[trigger] self.inventory.count(item)
                    == before.inventory.count(item) - recipe_input(before.factory_type, item) by {
                    lemma_consume_all_count(before.inventory, before.factory_type, 8, item);
                }
            }
            Some(recipe.output)
        } else {
            None
        }
    }

    pub fn tick(&self, world: &WorldRes) -> (a: Option<Action>)
        requires
            self.tick_in_range(),
        ensures
            a == self.next_action(world@),
    {
        if self.can_produce() {
            return Some(Action::Produce(self.position));
        }
        let end_position = self.position.shift(self.direction);
        if world.has_tile(end_position) {
            if let Some(item) = self.item {
                return Some(Action::Move(self.position, end_position, item));
            }
        }
        None
    }
}

/// A factory that holds at least its recipe's inputs of every item and has an
/// empty output slot asks to produce; otherwise it sends a held output to the
/// faced cell when a tile stands there, and asks for nothing when it holds none.
pub proof fn lemma_factory_asks_to_produce_when_stocked(f: Factory, world: WorldView, item: Item)
    ensures
        (forall|i: Item| f.inventory.count(i) >= #[trigger] recipe_input(f.factory_type, i))
            && f.item is None ==> f.next_action(world) == Some(Action::Produce(f.position)),
        (exists|i: Item| f.inventory.count(i) < #[trigger] recipe_input(f.factory_type, i))
            && f.item is None ==> f.next_action(world) is None,
        f.item == Some(item) && world.tiles.contains_key(key_of(f.position.neighbor(f.direction)))
            ==> f.next_action(world) == Some(
            Action::Move(f.position, f.position.neighbor(f.direction), item),
        ),
{
}

} // verus!
