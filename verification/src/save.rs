use std::collections::HashMap;
use std::io::{Read, Write};
use vstd::prelude::*;
use vstd::std_specs::iter::IteratorSpec;

use crate::player::Hotkeys;
use crate::resources::WorldRes;
use crate::tiles::{
    Conveyor, Core, Extractor, ExtractorType, Factory, FactoryType, Junction, Portal, Router,
    Storage, StorageType, Tile,
};
use crate::types::{
    key_of, position_of_key, Action, Direction, Item, ItemCounts, Position, RouterOutputIndex,
    TerrainTileType,
};

verus! {

broadcast use vstd::std_specs::hash::group_hash_axioms;

/// A tile as a save file holds it.
#[derive(Clone, Copy, Debug)]
pub enum SerializableTile {
    Conveyor { position: Position, direction: Direction, item: Option<Item> },
    Router {
        position: Position,
        direction: Direction,
        item: Option<Item>,
        last_output: RouterOutputIndex,
    },
    Extractor {
        position: Position,
        direction: Direction,
        extractor_type: ExtractorType,
        item: Option<Item>,
    },
    Factory {
        position: Position,
        direction: Direction,
        factory_type: FactoryType,
        inventory: ItemCounts,
        item: Option<Item>,
        interval: u32,
        ticks: u32,
    },
    Storage {
        position: Position,
        direction: Direction,
        inventory: u32,
        storage_type: StorageType,
    },
    Portal { position: Position, item: Option<Item> },
    Junction {
        position: Position,
        horizontal_item: Option<(Item, Direction)>,
        vertical_item: Option<(Item, Direction)>,
    },
    Core { position: Position, interval: u32, ticks: u32, tile_id: (u8, u8) },
}

/// The part of the game that a save file keeps.
pub struct SerializableWorld {
    /// Every tile with its tile id, under the key of its cell.
    pub tiles: HashMap<u64, (SerializableTile, (u8, u8))>,
    /// The player's stock of tiles, under `tile_id_key` of each tile id.
    pub resources: HashMap<u16, u32>,
    pub world_seed: u32,
    pub tick_count: i32,
    pub hotkey_mappings: HashMap<u8, (u8, u8)>,
    pub money: u32,
}

/// How a tile standing under key `k` is saved. A storage is not saved as
/// itself: in its place the file holds an empty conveyor facing up on the cell.
pub open spec fn saved_tile(t: Tile, k: u64) -> SerializableTile {
    match t {
        Tile::Conveyor(c) => SerializableTile::Conveyor {
            position: c.position,
            direction: c.direction,
            item: c.item,
        },
        Tile::Router(r) => SerializableTile::Router {
            position: r.position,
            direction: r.direction,
            item: r.item,
            last_output: r.last_output,
        },
        Tile::Extractor(e) => SerializableTile::Extractor {
            position: e.position,
            direction: e.direction,
            extractor_type: e.extractor_type,
            item: e.item,
        },
        Tile::Factory(f) => SerializableTile::Factory {
            position: f.position,
            direction: f.direction,
            factory_type: f.factory_type,
            inventory: f.inventory,
            item: f.item,
            interval: f.interval,
            ticks: f.ticks,
        },
        Tile::Storage(_) => SerializableTile::Conveyor {
            position: position_of_key(k),
            direction: Direction::Up,
            item: None,
        },
        Tile::Portal(p) => SerializableTile::Portal { position: p.position, item: p.item },
        Tile::Junction(j) => SerializableTile::Junction {
            position: j.position,
            horizontal_item: j.horizontal_item,
            vertical_item: j.vertical_item,
        },
        Tile::Core(c) => SerializableTile::Core {
            position: c.position,
            interval: c.interval,
            ticks: c.ticks,
            tile_id: c.tile_id,
        },
    }
}

/// The tile that a saved tile is loaded as.
pub open spec fn loaded_tile(s: SerializableTile) -> Tile {
    match s {
        SerializableTile::Conveyor { position, direction, item } => Tile::Conveyor(
            Conveyor { position, direction, item },
        ),
        SerializableTile::Router { position, direction, item, last_output } => Tile::Router(
            Router { position, direction, item, last_output },
        ),
        SerializableTile::Extractor { position, direction, extractor_type, item } => Tile::Extractor(
            Extractor { position, direction, extractor_type, item },
        ),
        SerializableTile::Factory {
            position,
            direction,
            factory_type,
            inventory,
            item,
            interval,
            ticks,
        } => Tile::Factory(
            Factory { position, direction, factory_type, inventory, item, interval, ticks },
        ),
        SerializableTile::Storage { position, direction, inventory, storage_type } => Tile::Storage(
            Storage { position, direction, inventory, storage_type },
        ),
        SerializableTile::Portal { position, item } => Tile::Portal(Portal { position, item }),
        SerializableTile::Junction { position, horizontal_item, vertical_item } => Tile::Junction(
            Junction { position, horizontal_item, vertical_item },
        ),
        SerializableTile::Core { position, interval, ticks, tile_id } => Tile::Core(
            Core { position, interval, ticks, tile_id },
        ),
    }
}

/// The saved form of a tile map: every entry saved under its own key.
pub open spec fn saved_tiles(m: Map<u64, (Tile, (u8, u8))>) -> Map<
    u64,
    (SerializableTile, (u8, u8)),
> {
    Map::new(|k: u64| m.contains_key(k), |k: u64| (saved_tile(m[k].0, k), m[k].1))
}

/// The tile map that a saved tile map is loaded as.
pub open spec fn loaded_tiles(m: Map<u64, (SerializableTile, (u8, u8))>) -> Map<
    u64,
    (Tile, (u8, u8)),
> {
    Map::new(|k: u64| m.contains_key(k), |k: u64| (loaded_tile(m[k].0), m[k].1))
}

/// The saved form of a tile standing under key `k`.
pub fn save_tile(t: &Tile, k: u64) -> (s: SerializableTile)
    ensures
        s == saved_tile(*t, k),
{
    match t {
        Tile::Conveyor(c) => SerializableTile::Conveyor {
            position: c.position,
            direction: c.direction,
            item: c.item,
        },
        Tile::Router(r) => SerializableTile::Router {
            position: r.position,
            direction: r.direction,
            item: r.item,
            last_output: r.last_output,
        },
        Tile::Extractor(e) => SerializableTile::Extractor {
            position: e.position,
            direction: e.direction,
            extractor_type: e.extractor_type,
            item: e.item,
        },
        Tile::Factory(f) => SerializableTile::Factory {
            position: f.position,
            direction: f.direction,
            factory_type: f.factory_type,
            inventory: f.inventory,
            item: f.item,
            interval: f.interval,
            ticks: f.ticks,
        },
        Tile::Storage(_) => SerializableTile::Conveyor {
            position: Position::from_key(k),
            direction: Direction::Up,
            item: None,
        },
        Tile::Portal(p) => SerializableTile::Portal { position: p.position, item: p.item },
        Tile::Junction(j) => SerializableTile::Junction {
            position: j.position,
            horizontal_item: j.horizontal_item,
            vertical_item: j.vertical_item,
        },
        Tile::Core(c) => SerializableTile::Core {
            position: c.position,
            interval: c.interval,
            ticks: c.ticks,
            tile_id: c.tile_id,
        },
    }
}

/// The tile that a saved tile is loaded as.
pub fn load_tile(s: &SerializableTile) -> (t: Tile)
    ensures
        t == loaded_tile(*s),
{
    match *s {
        SerializableTile::Conveyor { position, direction, item } => Tile::Conveyor(
            Conveyor { position, direction, item },
        ),
        SerializableTile::Router { position, direction, item, last_output } => Tile::Router(
            Router { position, direction, item, last_output },
        ),
        SerializableTile::Extractor { position, direction, extractor_type, item } => Tile::Extractor(
            Extractor { position, direction, extractor_type, item },
        ),
        SerializableTile::Factory {
            position,
            direction,
            factory_type,
            inventory,
            item,
            interval,
            ticks,
        } => Tile::Factory(
            Factory { position, direction, factory_type, inventory, item, interval, ticks },
        ),
        SerializableTile::Storage { position, direction, inventory, storage_type } => Tile::Storage(
            Storage { position, direction, inventory, storage_type },
        ),
        SerializableTile::Portal { position, item } => Tile::Portal(Portal { position, item }),
        SerializableTile::Junction { position, horizontal_item, vertical_item } => Tile::Junction(
            Junction { position, horizontal_item, vertical_item },
        ),
        SerializableTile::Core { position, interval, ticks, tile_id } => Tile::Core(
            Core { position, interval, ticks, tile_id },
        ),
    }
}

impl WorldRes {
    /// What a save file keeps of the world and of the hotkeys.
    pub fn to_serializable(&self, hotkeys: &Hotkeys) -> (s: SerializableWorld)
        ensures
            s.tiles@ == saved_tiles(self.tiles@),
            s.resources@ == self.resources@,
            s.world_seed == self.world_seed,
            s.tick_count == self.tick_count,
            s.hotkey_mappings@ == hotkeys.mappings@,
            s.money == self.money,
    {
        let mut tiles: HashMap<u64, (SerializableTile, (u8, u8))> = HashMap::new();
        let ghost all = self.tiles@;
        let ghost ks = vstd::std_specs::hash::spec_keys_iter(&self.tiles).remaining().unref();
        proof {
            broadcast use vstd::std_specs::hash::axiom_spec_keys_iter;
        }
        for k in it: self.tiles.keys()
            invariant
                all == self.tiles@,
                ks.to_set() == all.dom(),
                ks.no_duplicates(),
                it.seq().unref() == ks,
                forall|j: u64| #[trigger]
                    tiles@.contains_key(j) <==> ks.take(it.index() as int).contains(j),
                forall|j: u64| #[trigger]
                    tiles@.contains_key(j) ==> tiles@[j] == (saved_tile(all[j].0, j), all[j].1),
        {
            let ghost before = ks.take(it.index() as int);
            proof {
                assert(ks.take(it.index() + 1) =~= before.push(*k));
                assert(ks.contains(*k));
                assert(all.dom().contains(*k));
            }
            match self.tiles.get(k) {
                Some(e) => {
                    let s = save_tile(&e.0, *k);
                    tiles.insert(*k, (s, e.1));
                },
                None => {},
            }
            proof {
                assert forall|j: u64| #[trigger]
                    tiles@.contains_key(j) <==> ks.take(it.index() + 1).contains(j) by {
                    if j == *k {
                        assert(before.push(*k)[before.len() as int] == j);
                    } else if before.contains(j) {
                        let a = choose|a: int| 0 <= a < before.len() && before[a] == j;
                        assert(before.push(*k)[a] == j);
                    } else if before.push(*k).contains(j) {
                        let a = choose|a: int| 0 <= a < before.len() + 1 && before.push(*k)[a] == j;
                        assert(before[a] == j);
                    }
                }
            }
        }
        proof {
            assert(ks.take(ks.len() as int) =~= ks);
            assert(tiles@ =~= saved_tiles(all)) by {
                assert forall|j: u64| tiles@.contains_key(j) <==> all.contains_key(j) by {
                    if ks.contains(j) {
                        assert(ks.to_set().contains(j));
                    }
                    if all.contains_key(j) {
                        assert(ks.to_set().contains(j));
                    }
                }
            }
        }
        SerializableWorld {
            tiles,
            resources: self.resources.clone(),
            world_seed: self.world_seed,
            tick_count: self.tick_count,
            hotkey_mappings: hotkeys.mappings.clone(),
            money: self.money,
        }
    }
}

impl WorldRes {
    /// The world and the hotkey mappings that a save file holds. The ground is
    /// not saved: the world comes back with no terrain, and with no pending
    /// actions.
    pub fn from_serializable(saved: SerializableWorld) -> (r: (WorldRes, HashMap<u8, (u8, u8)>))
        ensures
            r.0.tiles@ == loaded_tiles(saved.tiles@),
            r.0.terrain@ == Map::<u64, TerrainTileType>::empty(),
            r.0.resources@ == saved.resources@,
            r.0.world_seed == saved.world_seed,
            r.0.tick_count == saved.tick_count,
            r.0.actions@ == Seq::<Action>::empty(),
            r.0.money == saved.money,
            r.1@ == saved.hotkey_mappings@,
    {
        let mut tiles: HashMap<u64, (Tile, (u8, u8))> = HashMap::new();
        let ghost all = saved.tiles@;
        let ghost ks = vstd::std_specs::hash::spec_keys_iter(&saved.tiles).remaining().unref();
        proof {
            broadcast use vstd::std_specs::hash::axiom_spec_keys_iter;
        }
        for k in it: saved.tiles.keys()
            invariant
                all == saved.tiles@,
                ks.to_set() == all.dom(),
                ks.no_duplicates(),
                it.seq().unref() == ks,
                forall|j: u64| #[trigger]
                    tiles@.contains_key(j) <==> ks.take(it.index() as int).contains(j),
                forall|j: u64| #[trigger]
                    tiles@.contains_key(j) ==> tiles@[j] == (loaded_tile(all[j].0), all[j].1),
        {
            let ghost before = ks.take(it.index() as int);
            proof {
                assert(ks.take(it.index() + 1) =~= before.push(*k));
                assert(ks.contains(*k));
                assert(all.dom().contains(*k));
            }
            let pos = Position::from_key(*k);
            match saved.tiles.get(k) {
                Some(e) => {
                    let t = load_tile(&e.0);
                    tiles.insert(pos.get_as_key(), (t, e.1));
                },
                None => {},
            }
            proof {
                assert forall|j: u64| #[trigger]
                    tiles@.contains_key(j) <==> ks.take(it.index() + 1).contains(j) by {
                    if j == *k {
                        assert(before.push(*k)[before.len() as int] == j);
                    } else if before.contains(j) {
                        let a = choose|a: int| 0 <= a < before.len() && before[a] == j;
                        assert(before.push(*k)[a] == j);
                    } else if before.push(*k).contains(j) {
                        let a = choose|a: int| 0 <= a < before.len() + 1 && before.push(*k)[a] == j;
                        assert(before[a] == j);
                    }
                }
            }
        }
        proof {
            assert(ks.take(ks.len() as int) =~= ks);
            assert(tiles@ =~= loaded_tiles(all)) by {
                assert forall|j: u64| tiles@.contains_key(j) <==> all.contains_key(j) by {
                    if ks.contains(j) {
                        assert(ks.to_set().contains(j));
                    }
                    if all.contains_key(j) {
                        assert(ks.to_set().contains(j));
                    }
                }
            }
        }
        let world = WorldRes {
            tiles,
            terrain: HashMap::new(),
            resources: saved.resources,
            world_seed: saved.world_seed,
            tick_count: saved.tick_count,
            actions: Vec::new(),
            money: saved.money,
        };
        (world, saved.hotkey_mappings)
    }
}

/// Loading what was saved gives back every tile but the storages, with its
/// tile id; a storage comes back as an empty conveyor facing up on its cell.
pub proof fn lemma_save_load_tiles(m: Map<u64, (Tile, (u8, u8))>, k: u64)
    requires
        m.contains_key(k),
        key_of(m[k].0.pos()) == k,
    ensures
        loaded_tiles(saved_tiles(m)).contains_key(k),
        loaded_tiles(saved_tiles(m))[k] == if m[k].0 is Storage {
            (
                Tile::Conveyor(
                    Conveyor { position: m[k].0.pos(), direction: Direction::Up, item: None },
                ),
                m[k].1,
            )
        } else {
            m[k]
        },
{
    crate::types::lemma_position_key_roundtrip(m[k].0.pos());
}

/// A tile map without storages comes back unchanged from a save.
pub proof fn lemma_save_load_roundtrip(m: Map<u64, (Tile, (u8, u8))>)
    requires
        forall|k: u64| #[trigger] m.contains_key(k) ==> !(m[k].0 is Storage),
    ensures
        loaded_tiles(saved_tiles(m)) == m,
{
    assert(loaded_tiles(saved_tiles(m)) =~= m);
}

/// The raw deflate stream that flate2's `DeflateEncoder` at
/// `Compression::best()` writes for `data`.
pub uninterp spec fn deflate_best(data: Seq<u8>) -> Seq<u8>;

/// What flate2's `DeflateDecoder` reads out of `data`: the bytes that the raw
/// deflate stream in `data` stands for, or `None` where `data` is no complete,
/// well-formed stream.
pub uninterp spec fn inflate(data: Seq<u8>) -> Option<Seq<u8>>;

#[verifier::external_type_specification]
#[verifier::external_body]
pub struct ExIoError(std::io::Error);

/// Compresses `data` with flate2's `DeflateEncoder` at `Compression::best()`,
/// writing into a `Vec`. Claimed: the call succeeds and gives the stream
/// `deflate_best(data)`. Writing into a `Vec` cannot fail, and the encoder's
/// own errors come only from misuse of the compression stream, which this
/// call does not make.
#[verifier::external_body]
fn deflate_bytes(data: &Vec<u8>) -> (r: Result<Vec<u8>, std::io::Error>)
    ensures
        r is Ok,
        r matches Ok(v) ==> v@ == deflate_best(data@),
{
    let mut encoder = flate2::write::DeflateEncoder::new(Vec::new(), flate2::Compression::best());
    match encoder.write_all(data.as_slice()) {
        Ok(()) => encoder.finish(),
        Err(e) => Err(e),
    }
}

/// Decompresses `data` with flate2's `DeflateDecoder`, reading it to the end.
/// Claimed: the result is `inflate(data)`, failing exactly where that is
/// `None`; and a stream that `deflate_bytes` wrote decompresses to the bytes it
/// was written from.
#[verifier::external_body]
fn inflate_bytes(data: &Vec<u8>) -> (r: Result<Vec<u8>, std::io::Error>)
    ensures
        r is Ok <==> inflate(data@) is Some,
        r matches Ok(v) ==> inflate(data@) == Some(v@),
        r is Err ==> forall|x: Seq<u8>| #[trigger] deflate_best(x) != data@,
        r matches Ok(v) ==> forall|x: Seq<u8>| #[trigger] deflate_best(x) == data@ ==> v@ == x,
{
    let mut decoder = flate2::read::DeflateDecoder::new(data.as_slice());
    let mut out: Vec<u8> = Vec::new();
    match decoder.read_to_end(&mut out) {
        Ok(_) => Ok(out),
        Err(e) => Err(e),
    }
}

/// Why the bytes of a save file could not be made or read.
#[derive(Clone, Copy, PartialEq, Eq, Structural, Debug)]
pub enum SaveError {
    /// Compression failed (`pack_save_bytes` never gives it).
    Compress,
    /// The file holds no complete compressed stream.
    Decompress,
}

/// The bytes of a save file for the encoded world `encoded`: its deflate
/// stream at the best compression. Packing always succeeds.
pub fn pack_save_bytes(encoded: &Vec<u8>) -> (r: Result<Vec<u8>, SaveError>)
    ensures
        r is Ok,
        r matches Ok(v) && v@ == deflate_best(encoded@),
{
    match deflate_bytes(encoded) {
        Ok(v) => Ok(v),
        Err(_) => Err(SaveError::Compress),
    }
}

/// The encoded world that the save file `bytes` holds. Unpacking what
/// `pack_save_bytes` made gives back the encoded world it was made from.
pub fn unpack_save_bytes(bytes: &Vec<u8>) -> (r: Result<Vec<u8>, SaveError>)
    ensures
        match r {
            Ok(v) => inflate(bytes@) == Some(v@),
            Err(e) => inflate(bytes@) is None && e == SaveError::Decompress,
        },
        forall|x: Seq<u8>| #[trigger] deflate_best(x) == bytes@ ==> (r matches Ok(v) && v@ == x),
{
    match inflate_bytes(bytes) {
        Ok(v) => Ok(v),
        Err(_) => Err(SaveError::Decompress),
    }
}

} // verus!
