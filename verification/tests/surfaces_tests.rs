use hexsim::hexmap::{HexMap, HexPos};
use hexsim::simulation::{add_systems, init_map, MyTileData, StepKind, TileKind};
use hexsim::surfaces::{CurrentHexMap, SelectedSurface, Surfaces};
use hexsim::world::World;
use hexsim::ErrorKind;

fn tile(height: u8, kind: TileKind) -> MyTileData {
    MyTileData { height, kind }
}

fn small_map(tiles: Vec<MyTileData>) -> HexMap<MyTileData> {
    let len = tiles.len();
    HexMap::new(len, 1, tiles).unwrap()
}

fn events_of(registry: &Surfaces, index: usize) -> Vec<u64> {
    registry.select(index).unwrap().events().clone()
}

#[test]
fn material_names() {
    assert_eq!(TileKind::Water.material_name(), "Water");
    assert_eq!(TileKind::Rock.material_name(), "Rock");
}

#[test]
fn world_starts_empty_and_takes_one_map() {
    let mut world = World::new();
    assert!(!world.contains_map());
    assert!(world.hexmap().is_none());
    assert!(world.events().is_empty());
    world.insert_map(small_map(vec![tile(0, TileKind::Water)]));
    assert!(world.contains_map());
    assert!(world.hexmap().is_some());
}

#[test]
fn select_rejects_stale_indices() {
    let mut registry = Surfaces::new();
    assert!(matches!(registry.select(0), Err(ErrorKind::NoSuchSurface)));
    registry.new_surface(World::new(), small_map(vec![tile(0, TileKind::Water)]));
    assert!(registry.select(0).is_ok());
    assert!(matches!(registry.select(1), Err(ErrorKind::NoSuchSurface)));
}

#[test]
fn current_hexmap_resolves_the_selection() {
    let mut registry = Surfaces::new();
    registry.new_surface(World::new(), small_map(vec![tile(4, TileKind::Rock)]));
    assert_eq!(registry.surface_count(), 1);

    let selected = SelectedSurface(0);
    let current = CurrentHexMap { selected: &selected, surfaces: &registry };
    let map = current.hexmap().unwrap();
    assert_eq!(*map.get(HexPos { q: 0, r: 0 }).unwrap(), tile(4, TileKind::Rock));

    let stale = SelectedSurface(3);
    let current = CurrentHexMap { selected: &stale, surfaces: &registry };
    assert!(matches!(current.hexmap(), Err(ErrorKind::NoSuchSurface)));
}

#[test]
fn steps_registered_before_and_after_a_surface_both_reach_it() {
    // Register A, create S1, register B: S1's pipeline becomes [A, B],
    // and S2, created afterward, starts with [A, B].
    let mut registry = Surfaces::new();
    registry.push_system(StepKind::Record(1));
    registry.new_surface(World::new(), small_map(vec![tile(0, TileKind::Water)]));
    registry.push_system(StepKind::Record(2));
    registry.new_surface(World::new(), small_map(vec![tile(0, TileKind::Water)]));

    registry.simulate_step();
    assert_eq!(events_of(&registry, 0), vec![1, 2]);
    assert_eq!(events_of(&registry, 1), vec![1, 2]);
}

#[test]
fn one_tick_runs_every_step_exactly_once_in_order() {
    let mut registry = Surfaces::new();
    registry.push_system(StepKind::Record(7));
    registry.push_system(StepKind::Record(8));
    registry.push_system(StepKind::Record(9));
    registry.new_surface(World::new(), small_map(vec![tile(0, TileKind::Water)]));

    registry.simulate_step();
    assert_eq!(events_of(&registry, 0), vec![7, 8, 9]);
    registry.simulate_step();
    assert_eq!(events_of(&registry, 0), vec![7, 8, 9, 7, 8, 9]);
}

#[test]
fn surfaces_do_not_observe_each_other() {
    let mut registry = Surfaces::new();
    registry.push_system(StepKind::RaiseTerrain);
    registry.new_surface(World::new(), small_map(vec![tile(0, TileKind::Water)]));
    registry.new_surface(World::new(), small_map(vec![tile(10, TileKind::Rock)]));

    registry.simulate_step();
    let first = registry.select(0).unwrap().hexmap().unwrap();
    let second = registry.select(1).unwrap().hexmap().unwrap();
    assert_eq!(*first.get(HexPos { q: 0, r: 0 }).unwrap(), tile(1, TileKind::Water));
    assert_eq!(*second.get(HexPos { q: 0, r: 0 }).unwrap(), tile(11, TileKind::Rock));
    assert_eq!(events_of(&registry, 0), vec![] as Vec<u64>);
    assert_eq!(events_of(&registry, 1), vec![] as Vec<u64>);
}

#[test]
fn later_steps_see_earlier_steps_effects() {
    // RaiseTerrain then Erode returns a height-zero rock tile to where it
    // started; in the other order the tile first turns to water. The two
    // histories are distinguishable, so the order is observable.
    let mut raise_first = Surfaces::new();
    raise_first.push_system(StepKind::RaiseTerrain);
    raise_first.push_system(StepKind::Erode);
    raise_first.new_surface(World::new(), small_map(vec![tile(0, TileKind::Rock)]));
    raise_first.simulate_step();
    let map = raise_first.select(0).unwrap().hexmap().unwrap();
    assert_eq!(*map.get(HexPos { q: 0, r: 0 }).unwrap(), tile(0, TileKind::Rock));

    let erode_first = {
        let mut registry = Surfaces::new();
        registry.push_system(StepKind::Erode);
        registry.push_system(StepKind::RaiseTerrain);
        registry.new_surface(World::new(), small_map(vec![tile(0, TileKind::Rock)]));
        registry.simulate_step();
        registry
    };
    let map = erode_first.select(0).unwrap().hexmap().unwrap();
    assert_eq!(*map.get(HexPos { q: 0, r: 0 }).unwrap(), tile(1, TileKind::Water));
}

#[test]
fn end_to_end_two_steps_one_surface_one_tick() {
    let mut registry = Surfaces::new();
    registry.push_system(StepKind::Record(1));
    registry.push_system(StepKind::Record(2));
    registry.new_surface(World::new(), small_map(vec![tile(0, TileKind::Water)]));

    registry.simulate_step();
    assert_eq!(events_of(&registry, 0), vec![1, 2]);
}

#[test]
fn raise_saturates_and_erode_bottoms_out() {
    let mut registry = Surfaces::new();
    registry.push_system(StepKind::RaiseTerrain);
    registry.new_surface(World::new(), small_map(vec![tile(255, TileKind::Rock)]));
    registry.simulate_step();
    let map = registry.select(0).unwrap().hexmap().unwrap();
    assert_eq!(*map.get(HexPos { q: 0, r: 0 }).unwrap(), tile(255, TileKind::Rock));

    let mut registry = Surfaces::new();
    registry.push_system(StepKind::Erode);
    registry.new_surface(World::new(), small_map(vec![tile(0, TileKind::Rock)]));
    registry.simulate_step();
    let map = registry.select(0).unwrap().hexmap().unwrap();
    assert_eq!(*map.get(HexPos { q: 0, r: 0 }).unwrap(), tile(0, TileKind::Water));
}

#[test]
fn init_map_builds_the_demo_surface() {
    let (mut registry, selected) = init_map();
    assert_eq!(registry.surface_count(), 1);
    assert_eq!(selected.0, 0);

    let current = CurrentHexMap { selected: &selected, surfaces: &registry };
    let map = current.hexmap().unwrap();
    assert_eq!(map.width(), 16);
    assert_eq!(map.height(), 16);
    // The generator's counter starts at one: the first tile has height 1.
    assert_eq!(*map.get(HexPos { q: 0, r: 0 }).unwrap(), tile(1, TileKind::Water));
    // Tile 102 (index 101) sits in the rock band.
    assert_eq!(*map.get(HexPos { q: 5, r: 6 }).unwrap(), tile(0, TileKind::Rock));
    // Tile 96 (index 95) has height zero but lies before the band.
    assert_eq!(*map.get(HexPos { q: 15, r: 5 }).unwrap(), tile(0, TileKind::Water));

    // The demo registers no standing steps, so a tick leaves the map as
    // it was generated.
    add_systems(&mut registry);
    registry.simulate_step();
    let map = registry.select(0).unwrap().hexmap().unwrap();
    assert_eq!(*map.get(HexPos { q: 0, r: 0 }).unwrap(), tile(1, TileKind::Water));
    assert!(events_of(&registry, 0).is_empty());
}
