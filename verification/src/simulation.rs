//! The simulation layer: tile data, the closed set of steps a pipeline
//! can run on a world's map, and the initial demo surface.

use vstd::prelude::*;

verus! {

use crate::hexmap::{HexMap, HexMapView};
use crate::surfaces::{SelectedSurface, Surfaces};
use crate::world::World;
use vstd::pervasive::unreached;

/// One tile of simulated terrain.
#[derive(Debug, Copy, Clone, PartialEq, Eq, Structural)]
pub struct MyTileData {
    pub height: u8,
    pub kind: TileKind,
}

/// The terrain kinds a tile can take.
#[derive(Copy, Clone, Eq, PartialEq, Debug, Structural)]
pub enum TileKind {
    Water,
    Rock,
}

impl TileKind {
    /// The name of the material a renderer should draw this kind with.
    pub fn material_name(&self) -> (name: &'static str)
        ensures
            self is Water ==> name@ == "Water"@,
            self is Rock ==> name@ == "Rock"@,
    {
        match self {
            Self::Water => "Water",
            Self::Rock => "Rock",
        }
    }
}

/// The closed set of step functions that can be registered with the
/// surface scheduler. Steps are polymorphic over one capability — run
/// once against a given world, with no externally observable return
/// value — so a tagged type keeps the registry's step sequence
/// homogeneous while each variant carries its own behaviour.
#[derive(Debug, Copy, Clone, PartialEq, Eq, Structural)]
pub enum StepKind {
    /// Appends its tag to the world's event log.
    Record(u64),
    /// Raises every tile of the world's map by one, saturating.
    RaiseTerrain,
    /// Erodes every tile of the world's map: positive heights sink by
    /// one, and a fully sunken tile turns to water.
    Erode,
}

/// A tile after one application of `RaiseTerrain`.
pub open spec fn tile_raised(t: MyTileData) -> MyTileData {
    if t.height < 255 {
        MyTileData { height: (t.height + 1) as u8, kind: t.kind }
    } else {
        t
    }
}

/// A tile after one application of `Erode`.
pub open spec fn tile_eroded(t: MyTileData) -> MyTileData {
    if t.height > 0 {
        MyTileData { height: (t.height - 1) as u8, kind: t.kind }
    } else {
        MyTileData { height: 0, kind: TileKind::Water }
    }
}

/// Every tile of `tiles` raised once.
pub open spec fn raised_tiles(tiles: Seq<MyTileData>) -> Seq<MyTileData> {
    Seq::new(tiles.len(), |i: int| tile_raised(tiles[i]))
}

/// Every tile of `tiles` eroded once.
pub open spec fn eroded_tiles(tiles: Seq<MyTileData>) -> Seq<MyTileData> {
    Seq::new(tiles.len(), |i: int| tile_eroded(tiles[i]))
}

/// The same map with its tile sequence replaced.
pub open spec fn map_with_tiles(
    m: HexMapView<MyTileData>,
    tiles: Seq<MyTileData>,
) -> HexMapView<MyTileData> {
    HexMapView { width: m.width, height: m.height, tiles }
}

/// Raises every tile of `map` once, in place.
pub(crate) fn raise_all(map: &mut HexMap<MyTileData>)
    ensures
        final(map)@ == map_with_tiles(old(map)@, raised_tiles(old(map)@.tiles)),
{
    let count = map.tile_count();
    let mut i: usize = 0;
    while i < count
        invariant
            i <= count,
            count == old(map)@.tiles.len(),
            map@.width == old(map)@.width,
            map@.height == old(map)@.height,
            map@.tiles.len() == count,
            forall|j: int| 0 <= j < i ==> map@.tiles[j] == tile_raised(old(map)@.tiles[j]),
            forall|j: int| i <= j < count ==> map@.tiles[j] == old(map)@.tiles[j],
        decreases count - i,
    {
        let tile = *map.flat_get(i);
        let raised = if tile.height < 255 {
            MyTileData { height: tile.height + 1, kind: tile.kind }
        } else {
            tile
        };
        map.flat_set(i, raised);
        i += 1;
    }
    proof {
        assert(map@.tiles =~= raised_tiles(old(map)@.tiles));
        assert(map@ =~= map_with_tiles(old(map)@, raised_tiles(old(map)@.tiles)));
    }
}

/// Erodes every tile of `map` once, in place.
pub(crate) fn erode_all(map: &mut HexMap<MyTileData>)
    ensures
        final(map)@ == map_with_tiles(old(map)@, eroded_tiles(old(map)@.tiles)),
{
    let count = map.tile_count();
    let mut i: usize = 0;
    while i < count
        invariant
            i <= count,
            count == old(map)@.tiles.len(),
            map@.width == old(map)@.width,
            map@.height == old(map)@.height,
            map@.tiles.len() == count,
            forall|j: int| 0 <= j < i ==> map@.tiles[j] == tile_eroded(old(map)@.tiles[j]),
            forall|j: int| i <= j < count ==> map@.tiles[j] == old(map)@.tiles[j],
        decreases count - i,
    {
        let tile = *map.flat_get(i);
        let eroded = if tile.height > 0 {
            MyTileData { height: tile.height - 1, kind: tile.kind }
        } else {
            MyTileData { height: 0, kind: TileKind::Water }
        };
        map.flat_set(i, eroded);
        i += 1;
    }
    proof {
        assert(map@.tiles =~= eroded_tiles(old(map)@.tiles));
        assert(map@ =~= map_with_tiles(old(map)@, eroded_tiles(old(map)@.tiles)));
    }
}

/// The tile the demo map's generator yields at (one-based) position `i`:
/// heights cycle through `0..=5`, and a band of the sixth tiles partway
/// through the map is rock rather than water.
pub open spec fn demo_tile(i: int) -> MyTileData {
    MyTileData {
        height: (i % 6) as u8,
        kind: if i % 6 == 0 && i > 100 && i < 150 {
            TileKind::Rock
        } else {
            TileKind::Water
        },
    }
}

/// Builds the demo setup: a registry holding one surface whose world
/// carries the generated sixteen-by-sixteen map, the standing steps
/// registered, and the selection pointing at that surface.
pub fn init_map() -> (setup: (Surfaces, SelectedSurface))
    ensures
        setup.0@.wf(),
        setup.0@.history == Seq::<StepKind>::empty(),
        setup.0@.pipelines == seq![Seq::<StepKind>::empty()],
        setup.0@.worlds.len() == 1,
        setup.0@.worlds[0].events == Seq::<u64>::empty(),
        setup.0@.worlds[0].map == Some(
            (HexMapView {
                width: 16 as nat,
                height: 16 as nat,
                tiles: Seq::new(256, |j: int| demo_tile(j + 1)),
            }),
        ),
        setup.1.0 == 0,
{
    let mut tiles: Vec<MyTileData> = Vec::new();
    let mut i: usize = 1;
    while i <= 256
        invariant
            1 <= i <= 257,
            tiles@.len() == i - 1,
            forall|j: int| 0 <= j < i - 1 ==> tiles@[j] == demo_tile(j + 1),
        decreases 257 - i,
    {
        let height: u8 = (i % 6) as u8;
        let kind = if i % 6 == 0 && i > 100 && i < 150 {
            TileKind::Rock
        } else {
            TileKind::Water
        };
        tiles.push(MyTileData { height, kind });
        i += 1;
    }
    proof {
        assert(tiles@ =~= Seq::new(256, |j: int| demo_tile(j + 1)));
    }
    let map = match HexMap::new(16, 16, tiles) {
        Ok(m) => m,
        Err(_) => unreached(),
    };
    let mut surfaces = Surfaces::new();
    surfaces.new_surface(World::new(), map);
    add_systems(&mut surfaces);
    proof {
        assert(surfaces@.pipelines =~= seq![Seq::<StepKind>::empty()]);
    }
    (surfaces, SelectedSurface(0))
}

/// Registers the simulation's standing step functions with a registry.
/// The demo simulation registers none yet, so the registry comes back
/// unchanged.
pub fn add_systems(surfaces: &mut Surfaces)
    ensures
        final(surfaces)@ == old(surfaces)@,
{
}

} // verus!
