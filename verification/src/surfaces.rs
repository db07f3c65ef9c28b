//! The surface scheduler. A registry owns every `(pipeline, world)`
//! pair, propagates step registration to existing and future surfaces,
//! and advances every world through its own pipeline once per tick.
//! External consumers reach the active surface only through the
//! selection indirection, never by direct reference into the registry.

use vstd::prelude::*;

verus! {

use crate::hexmap::HexMap;
use crate::simulation::{MyTileData, StepKind};
use crate::world::{lemma_step_spec_wf, run_step, step_spec, World, WorldView};
use crate::ErrorKind;
use vstd::pervasive::unreached;
use vstd::seq_lib::lemma_update_is_remove_insert;

/// The world reached by running `steps` in order from `w`: each step
/// starts from exactly the state the previous one committed.
pub open spec fn run_steps(steps: Seq<StepKind>, w: WorldView) -> WorldView
    decreases steps.len(),
{
    if steps.len() == 0 {
        w
    } else {
        run_steps(steps.drop_first(), step_spec(steps.first(), w))
    }
}

/// A whole pipeline preserves what single steps preserve: the world
/// stays well formed and keeps its map.
pub proof fn lemma_run_steps_wf(steps: Seq<StepKind>, w: WorldView)
    requires
        w.wf(),
    ensures
        run_steps(steps, w).wf(),
        run_steps(steps, w).map is Some <==> w.map is Some,
    decreases steps.len(),
{
    if steps.len() > 0 {
        lemma_step_spec_wf(steps.first(), w);
        lemma_run_steps_wf(steps.drop_first(), step_spec(steps.first(), w));
    }
}

/// A step appended to a pipeline runs last: on the state the whole
/// original pipeline committed.
pub proof fn lemma_run_steps_push(steps: Seq<StepKind>, step: StepKind, w: WorldView)
    ensures
        run_steps(steps.push(step), w) == step_spec(step, run_steps(steps, w)),
    decreases steps.len(),
{
    if steps.len() == 0 {
        assert(steps.push(step).first() == step);
        assert(steps.push(step).drop_first() =~= Seq::<StepKind>::empty());
        assert(run_steps(Seq::<StepKind>::empty(), step_spec(step, w)) == step_spec(step, w));
    } else {
        assert(steps.push(step).first() == steps.first());
        assert(steps.push(step).drop_first() =~= steps.drop_first().push(step));
        lemma_run_steps_push(steps.drop_first(), step, step_spec(steps.first(), w));
    }
}

/// Step `k` of a pipeline runs on exactly the state committed by the
/// steps before it: effects of earlier steps are visible to later steps
/// of the same pipeline, and each step runs exactly once, in order.
pub proof fn lemma_step_sees_previous_commits(steps: Seq<StepKind>, w: WorldView, k: int)
    requires
        0 <= k < steps.len(),
    ensures
        run_steps(steps.take(k + 1), w) == step_spec(steps[k], run_steps(steps.take(k), w)),
{
    assert(steps.take(k + 1) =~= steps.take(k).push(steps[k]));
    lemma_run_steps_push(steps.take(k), steps[k], w);
}

/// One tick of the two-step pipeline `[a, b]` runs `a` to completion,
/// then `b` on the state `a` committed — each exactly once, in order.
pub proof fn lemma_two_steps_run_in_order(a: StepKind, b: StepKind, w: WorldView)
    ensures
        run_steps(seq![a, b], w) == step_spec(b, step_spec(a, w)),
{
    let empty = Seq::<StepKind>::empty();
    assert(seq![a, b] =~= empty.push(a).push(b));
    lemma_run_steps_push(empty.push(a), b, w);
    lemma_run_steps_push(empty, a, w);
}

/// Runs its steps strictly sequentially, with no parallelism, committing
/// each step's effects against the world before the next step begins.
pub struct SimpleSchedule {
    systems: Vec<StepKind>,
}

impl View for SimpleSchedule {
    type V = Seq<StepKind>;

    closed spec fn view(&self) -> Seq<StepKind> {
        self.systems@
    }
}

impl SimpleSchedule {
    /// An empty schedule.
    pub fn new() -> (schedule: SimpleSchedule)
        ensures
            schedule@ == Seq::<StepKind>::empty(),
    {
        SimpleSchedule { systems: Vec::new() }
    }

    /// Appends `system` to the end of this schedule, handling whatever
    /// initialization the step needs against `world` — the steps of this
    /// closed set need none, so the world comes through unchanged.
    pub fn add_system(&mut self, system: StepKind, world: &mut World)
        ensures
            final(self)@ == old(self)@.push(system),
            final(world)@ == old(world)@,
    {
        self.systems.push(system);
    }

    /// Runs every step once, in order, against `world`; each step's
    /// effects are committed before the next step begins.
    pub fn run_once(&mut self, world: &mut World)
        requires
            old(world)@.wf(),
        ensures
            final(self)@ == old(self)@,
            final(world)@ == run_steps(old(self)@, old(world)@),
            final(world)@.wf(),
    {
        let count = self.systems.len();
        let mut i: usize = 0;
        proof {
            assert(self@.skip(0) =~= self@);
        }
        while i < count
            invariant
                i <= count,
                self@ == old(self)@,
                count == self@.len(),
                world@.wf(),
                run_steps(self@.skip(i as int), world@) == run_steps(old(self)@, old(world)@),
            decreases count - i,
        {
            let step = self.systems[i];
            let ghost before = world@;
            let ghost rest = self@.skip(i as int);
            proof {
                assert(rest.first() == step);
                assert(rest.drop_first() =~= self@.skip(i as int + 1));
                lemma_step_spec_wf(step, before);
            }
            run_step(step, world);
            i += 1;
        }
        proof {
            assert(self@.skip(count as int) =~= Seq::<StepKind>::empty());
        }
    }
}

/// The mathematical content of the registry: one pipeline and one world
/// per surface (the surface id is the position), plus the history of
/// registered step constructors that seeds the pipeline of every surface
/// created later.
#[verifier::ext_equal]
pub ghost struct SurfacesView {
    pub pipelines: Seq<Seq<StepKind>>,
    pub worlds: Seq<WorldView>,
    pub history: Seq<StepKind>,
}

impl SurfacesView {
    /// The registry invariant: one pipeline per world; every pipeline
    /// carries exactly the registered steps in registration order; and
    /// every registered world is well formed and owns a map.
    pub open spec fn wf(self) -> bool {
        &&& self.pipelines.len() == self.worlds.len()
        &&& forall|i: int|
            0 <= i < self.pipelines.len() ==> #[trigger] self.pipelines[i] == self.history
        &&& forall|i: int|
            0 <= i < self.worlds.len() ==> (#[trigger] self.worlds[i]).wf() && self.worlds[i].map
                is Some
    }
}

/// Owns all `(pipeline, world)` pairs and the ordered history of step
/// constructors used to seed the pipelines of newly created surfaces.
pub struct Surfaces {
    surfaces: Vec<(SimpleSchedule, World)>,
    existing_system_ctors: Vec<StepKind>,
}

impl View for Surfaces {
    type V = SurfacesView;

    closed spec fn view(&self) -> SurfacesView {
        SurfacesView {
            pipelines: Seq::new(self.surfaces@.len(), |i: int| self.surfaces@[i].0@),
            worlds: Seq::new(self.surfaces@.len(), |i: int| self.surfaces@[i].1@),
            history: self.existing_system_ctors@,
        }
    }
}

impl Surfaces {
    /// An empty registry: no surfaces, no registered steps.
    pub fn new() -> (registry: Surfaces)
        ensures
            registry@.wf(),
            registry@.pipelines == Seq::<Seq<StepKind>>::empty(),
            registry@.worlds == Seq::<WorldView>::empty(),
            registry@.history == Seq::<StepKind>::empty(),
    {
        let registry = Surfaces { surfaces: Vec::new(), existing_system_ctors: Vec::new() };
        proof {
            assert(registry@.pipelines =~= Seq::<Seq<StepKind>>::empty());
            assert(registry@.worlds =~= Seq::<WorldView>::empty());
        }
        registry
    }

    /// Registers a new surface: inserts `tilemap` into `world`, builds a
    /// pipeline holding one fresh step per registered constructor in
    /// registration order, and appends the pair to the registry. Handing
    /// over a world that already carries a map is a caller defect, ruled
    /// out up front.
    pub fn new_surface(&mut self, world: World, tilemap: HexMap<MyTileData>)
        requires
            old(self)@.wf(),
            world@.map is None,
            tilemap@.wf(),
        ensures
            final(self)@.wf(),
            final(self)@.history == old(self)@.history,
            final(self)@.pipelines == old(self)@.pipelines.push(old(self)@.history),
            final(self)@.worlds == old(self)@.worlds.push(
                WorldView { map: Some(tilemap@), events: world@.events },
            ),
    {
        let ghost events0 = world@.events;
        let mut world = world;
        world.insert_map(tilemap);

        let mut schedule = SimpleSchedule::new();
        let count = self.existing_system_ctors.len();
        let mut i: usize = 0;
        while i < count
            invariant
                i <= count,
                self@ == old(self)@,
                count == self@.history.len(),
                schedule@ == self@.history.take(i as int),
                world@ == (WorldView { map: Some(tilemap@), events: events0 }),
            decreases count - i,
        {
            let step = self.existing_system_ctors[i];
            proof {
                assert(self@.history.take(i as int).push(step) =~= self@.history.take(
                    i as int + 1,
                ));
            }
            schedule.add_system(step, &mut world);
            i += 1;
        }
        proof {
            assert(self@.history.take(count as int) =~= self@.history);
        }

        self.surfaces.push((schedule, world));
        proof {
            assert(self@.pipelines =~= old(self)@.pipelines.push(old(self)@.history));
            assert(self@.worlds =~= old(self)@.worlds.push(
                WorldView { map: Some(tilemap@), events: events0 },
            ));
        }
    }

    /// Registers a step constructor: appends it to the history, and
    /// appends one fresh step to the end of every existing surface's
    /// pipeline, preserving the order of previously registered steps.
    /// Surfaces created later pick it up from the history automatically.
    pub fn push_system(&mut self, system: StepKind)
        requires
            old(self)@.wf(),
        ensures
            final(self)@.wf(),
            final(self)@.history == old(self)@.history.push(system),
            final(self)@.worlds == old(self)@.worlds,
            final(self)@.pipelines.len() == old(self)@.pipelines.len(),
            forall|i: int|
                0 <= i < old(self)@.pipelines.len() ==> final(self)@.pipelines[i] == old(
                    self,
                )@.pipelines[i].push(system),
    {
        self.existing_system_ctors.push(system);
        let count = self.surfaces.len();
        let mut i: usize = 0;
        while i < count
            invariant
                i <= count,
                count == self.surfaces@.len(),
                self.existing_system_ctors@ == old(self)@.history.push(system),
                old(self)@.pipelines.len() == count,
                old(self)@.worlds.len() == count,
                forall|j: int|
                    0 <= j < i ==> (#[trigger] self.surfaces@[j]).0@ == old(self)@.pipelines[j].push(
                        system,
                    ),
                forall|j: int|
                    i <= j < count ==> (#[trigger] self.surfaces@[j]).0@ == old(self)@.pipelines[j],
                forall|j: int|
                    0 <= j < count ==> (#[trigger] self.surfaces@[j]).1@ == old(self)@.worlds[j],
            decreases count - i,
        {
            let ghost prev = self.surfaces@;
            let mut pair = self.surfaces.remove(i);
            pair.0.add_system(system, &mut pair.1);
            let ghost updated = pair;
            self.surfaces.insert(i, pair);
            proof {
                lemma_update_is_remove_insert(prev, i as int, updated);
                assert(self.surfaces@ == prev.update(i as int, updated));
            }
            i += 1;
        }
        proof {
            assert(final(self)@.worlds =~= old(self)@.worlds);
            assert(final(self)@.pipelines.len() == old(self)@.pipelines.len());
        }
    }

    /// Advances every surface one tick: runs each surface's pipeline to
    /// completion against that surface's world, in pipeline order. No
    /// step observes or mutates any other world's state.
    pub fn simulate_step(&mut self)
        requires
            old(self)@.wf(),
        ensures
            final(self)@.wf(),
            final(self)@.history == old(self)@.history,
            final(self)@.pipelines == old(self)@.pipelines,
            final(self)@.worlds.len() == old(self)@.worlds.len(),
            forall|i: int|
                0 <= i < old(self)@.worlds.len() ==> final(self)@.worlds[i] == run_steps(
                    old(self)@.pipelines[i],
                    old(self)@.worlds[i],
                ),
    {
        let count = self.surfaces.len();
        let mut i: usize = 0;
        while i < count
            invariant
                i <= count,
                count == self.surfaces@.len(),
                self.existing_system_ctors@ == old(self)@.history,
                old(self)@.wf(),
                old(self)@.pipelines.len() == count,
                old(self)@.worlds.len() == count,
                forall|j: int|
                    0 <= j < count ==> (#[trigger] self.surfaces@[j]).0@ == old(self)@.pipelines[j],
                forall|j: int|
                    0 <= j < i ==> (#[trigger] self.surfaces@[j]).1@ == run_steps(
                        old(self)@.pipelines[j],
                        old(self)@.worlds[j],
                    ),
                forall|j: int|
                    i <= j < count ==> (#[trigger] self.surfaces@[j]).1@ == old(self)@.worlds[j],
            decreases count - i,
        {
            let ghost prev = self.surfaces@;
            let mut pair = self.surfaces.remove(i);
            proof {
                assert(pair.1@ == old(self)@.worlds[i as int]);
                assert(pair.1@.wf());
            }
            pair.0.run_once(&mut pair.1);
            let ghost updated = pair;
            self.surfaces.insert(i, pair);
            proof {
                lemma_update_is_remove_insert(prev, i as int, updated);
                assert(self.surfaces@ == prev.update(i as int, updated));
            }
            i += 1;
        }
        proof {
            assert(final(self)@.pipelines =~= old(self)@.pipelines);
            assert forall|i: int| 0 <= i < count implies (#[trigger] final(self)@.worlds[i]).wf()
                && final(self)@.worlds[i].map is Some by {
                lemma_run_steps_wf(old(self)@.pipelines[i], old(self)@.worlds[i]);
            }
        }
    }

    /// The number of registered surfaces.
    pub fn surface_count(&self) -> (count: usize)
        ensures
            count == self@.worlds.len(),
    {
        self.surfaces.len()
    }

    /// Resolves a surface index to that surface's world. An index outside
    /// the registry is a recoverable, typed error: the active-surface
    /// index is externally owned and can legitimately go stale.
    pub fn select(&self, index: usize) -> (result: Result<&World, ErrorKind>)
        ensures
            index < self@.worlds.len() ==> (result matches Ok(w)
                && w@ == self@.worlds[index as int]),
            index >= self@.worlds.len() ==> result matches Err(ErrorKind::NoSuchSurface),
    {
        if index < self.surfaces.len() {
            Ok(&self.surfaces[index].1)
        } else {
            Err(ErrorKind::NoSuchSurface)
        }
    }
}

/// The index of the surface that external consumers (camera, renderer)
/// treat as active. It is owned by those consumers, not by the registry,
/// so resolving it can legitimately fail.
pub struct SelectedSurface(pub usize);

/// Read-only access to the active surface's map, resolved through the
/// selection indirection.
pub struct CurrentHexMap<'a> {
    pub selected: &'a SelectedSurface,
    pub surfaces: &'a Surfaces,
}

impl CurrentHexMap<'_> {
    /// The active surface's tile map. A stale selection index is reported
    /// as `NoSuchSurface` rather than reaching into the registry blindly.
    pub fn hexmap(&self) -> (result: Result<&HexMap<MyTileData>, ErrorKind>)
        requires
            self.surfaces@.wf(),
        ensures
            self.selected.0 < self.surfaces@.worlds.len() ==> (result matches Ok(m) && Some(m@)
                == self.surfaces@.worlds[self.selected.0 as int].map),
            self.selected.0 >= self.surfaces@.worlds.len() ==> result matches Err(
                ErrorKind::NoSuchSurface,
            ),
    {
        match self.surfaces.select(self.selected.0) {
            Ok(world) => match world.hexmap() {
                Some(map) => Ok(map),
                None => unreached(),
            },
            Err(e) => Err(e),
        }
    }
}

} // verus!
