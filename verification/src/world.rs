//! A simulated world: the opaque per-surface state container. Each world
//! exclusively owns at most one tile map plus the other simulation state
//! its steps work on, and is only ever driven by its own pipeline.

use vstd::prelude::*;

verus! {

use crate::hexmap::{HexMap, HexMapView};
use crate::simulation::{
    eroded_tiles, map_with_tiles, raise_all, erode_all, raised_tiles, MyTileData, StepKind,
};

/// The mathematical content of a `World`: its map, if one has been
/// inserted, and the event log its steps append to.
#[verifier::ext_equal]
pub ghost struct WorldView {
    pub map: Option<HexMapView<MyTileData>>,
    pub events: Seq<u64>,
}

impl WorldView {
    /// A world is well formed when its map, if any, is well formed.
    pub open spec fn wf(self) -> bool {
        match self.map {
            Some(m) => m.wf(),
            None => true,
        }
    }
}

/// One surface's isolated simulation state: at most one tile map, plus
/// an event log for the rest of the simulation data. A world never
/// shares state with another world.
#[derive(Debug)]
pub struct World {
    pub(crate) map: Option<HexMap<MyTileData>>,
    pub(crate) events: Vec<u64>,
}

impl View for World {
    type V = WorldView;

    closed spec fn view(&self) -> WorldView {
        WorldView {
            map: match self.map {
                Some(m) => Some(m@),
                None => None,
            },
            events: self.events@,
        }
    }
}

impl World {
    /// A fresh world: no map yet, nothing logged.
    pub fn new() -> (world: World)
        ensures
            world@.map is None,
            world@.events == Seq::<u64>::empty(),
    {
        World { map: None, events: Vec::new() }
    }

    /// Whether a map has already been inserted into this world.
    pub fn contains_map(&self) -> (present: bool)
        ensures
            present == (self@.map is Some),
    {
        self.map.is_some()
    }

    /// Hands this world its tile map. Inserting a second map is a caller
    /// defect, ruled out up front.
    pub fn insert_map(&mut self, map: HexMap<MyTileData>)
        requires
            old(self)@.map is None,
        ensures
            final(self)@.map == Some(map@),
            final(self)@.events == old(self)@.events,
    {
        self.map = Some(map);
    }

    /// Borrows this world's map, if one has been inserted.
    pub fn hexmap(&self) -> (map: Option<&HexMap<MyTileData>>)
        ensures
            match map {
                Some(m) => self@.map == Some(m@),
                None => self@.map is None,
            },
    {
        self.map.as_ref()
    }

    /// Borrows this world's event log.
    pub fn events(&self) -> (events: &Vec<u64>)
        ensures
            events@ == self@.events,
    {
        &self.events
    }
}

/// What one step does to a world. Every step's effect is confined to the
/// world it is run against.
pub open spec fn step_spec(step: StepKind, w: WorldView) -> WorldView {
    match step {
        StepKind::Record(tag) => WorldView { map: w.map, events: w.events.push(tag) },
        StepKind::RaiseTerrain => WorldView {
            map: match w.map {
                Some(m) => Some(map_with_tiles(m, raised_tiles(m.tiles))),
                None => None,
            },
            events: w.events,
        },
        StepKind::Erode => WorldView {
            map: match w.map {
                Some(m) => Some(map_with_tiles(m, eroded_tiles(m.tiles))),
                None => None,
            },
            events: w.events,
        },
    }
}

/// Steps neither remove a world's map nor break its well-formedness.
pub proof fn lemma_step_spec_wf(step: StepKind, w: WorldView)
    requires
        w.wf(),
    ensures
        step_spec(step, w).wf(),
        step_spec(step, w).map is Some <==> w.map is Some,
{
}

/// Runs one step against one world, committing its effects before the
/// function returns.
pub fn run_step(step: StepKind, world: &mut World)
    ensures
        final(world)@ == step_spec(step, old(world)@),
{
    match step {
        StepKind::Record(tag) => {
            world.events.push(tag);
        },
        StepKind::RaiseTerrain => {
            match &mut world.map {
                Some(m) => raise_all(m),
                None => (),
            }
        },
        StepKind::Erode => {
            match &mut world.map {
                Some(m) => erode_all(m),
                None => (),
            }
        },
    }
}

} // verus!
