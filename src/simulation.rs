//! The state of one run and the order in which a tick changes it.
use rand::rngs::StdRng;
use vstd::prelude::*;

use crate::ant::{
    all_wf, ant_emission, decay_satiation, deposit_food, eat_held_food, eat_nest_food,
    emit_ant_pheromones, fed_at_nest, fed_from_load, foods_wf, heading_bounded, marked,
    pick_up_food, picked_all, satiation_decayed, starve, survivors, unloaded, walk_ants,
    walked_all, Ant, Heading,
};
use crate::config::{SimulationConfig, NEST_RADIUS};
use crate::food::Food;
use crate::nest::{emit_nest_pheromones, nest_emission, spawn_ants_from_nest, spawned, AntSpawner, Nest};
use crate::track::{
    cells_decayed, cells_deposited, cells_diffused, decay_tracks, diffuse_tracks, tick_factor,
    Channel, Track, Tracks,
};

verus! {

/// Everything a run holds: its settings, the field, the ants, the food
/// sources and the nest with its spawn timer.
pub struct Simulation {
    pub config: SimulationConfig,
    pub tracks: Tracks,
    pub ants: Vec<Ant>,
    pub foods: Vec<Food>,
    pub nest: Nest,
    pub spawner: AntSpawner,
}

/// One tick takes `s0` to `s1` through these intermediate states: the field
/// cells `c1` (decayed), `c2` (diffused), `c3` (nest trail marked); the ants
/// `a1` (hungrier), `a2` (fed from their loads), `a3` (the starved removed),
/// `a4` (walked), `a5` with nest `n4` (unloaded), `a6` with the food sources
/// of `s1` (picked, as `trace` records), whose trails then give the cells of
/// `s1`; `a7` with nest `n5` (fed at the nest); and finally the spawn step,
/// with a new ant facing `heading`, gives the ants, nest and timer of `s1`.
pub open spec fn tick_phases(
    s0: Simulation,
    s1: Simulation,
    heading: Heading,
    c1: Seq<Track>,
    c2: Seq<Track>,
    c3: Seq<Track>,
    a1: Seq<Ant>,
    a2: Seq<Ant>,
    a3: Seq<Ant>,
    a4: Seq<Ant>,
    a5: Seq<Ant>,
    a6: Seq<Ant>,
    a7: Seq<Ant>,
    n4: Nest,
    n5: Nest,
    trace: Seq<Seq<Food>>,
) -> bool {
    let (w, h) = (s0.tracks.w(), s0.tracks.h());
    let (half_w, half_h) = (s0.tracks.half_w(), s0.tracks.half_h());
    &&& cells_decayed(
        s0.tracks.cells(),
        c1,
        tick_factor(s0.config.track_concentration_factor as int),
    )
    &&& cells_diffused(c1, c2, w, h, s0.config.track_diffusion_factor as int)
    &&& cells_deposited(
        c2,
        c3,
        w,
        h,
        s0.nest.position,
        NEST_RADIUS as int,
        Channel::Nest,
        nest_emission(&s0.config),
    )
    &&& satiation_decayed(s0.ants@, a1)
    &&& fed_from_load(a1, a2)
    &&& a3 == survivors(a2)
    &&& walked_all(a3, a4, half_w, half_h)
    &&& unloaded(a4, s0.nest, a5, n4)
    &&& picked_all(a5, s0.foods@, a6, s1.foods@, half_w, half_h, trace)
    &&& s1.tracks.cells() == marked(c3, w, h, a6, ant_emission(&s0.config))
    &&& fed_at_nest(a6, n4, a7, n5)
    &&& spawned(n5, s0.spawner, a7, s1.nest, s1.spawner, s1.ants@, s0.config, heading)
}

impl Simulation {
    pub open spec fn wf(&self) -> bool {
        &&& self.config.wf()
        &&& self.tracks.wf()
        &&& all_wf(self.ants@)
        &&& foods_wf(self.foods@)
        &&& self.nest.wf()
        &&& self.spawner.wf()
    }

    /// One tick, in order (see `tick_phases`): the field decays and diffuses
    /// and the nest marks its trail; ants get hungry, eat from their load and
    /// starve; they walk; they unload at the nest, pick up food, mark their
    /// trails and eat at the nest; the nest spawns a new ant facing
    /// `spawn_heading` if it is due and can afford it. Turning the ants is
    /// left to the caller, after the tick.
    pub fn tick(&mut self, rng: &mut StdRng, spawn_heading: Heading)
        requires
            old(self).wf(),
            heading_bounded(spawn_heading),
        ensures
            final(self).wf(),
            final(self).config == old(self).config,
            final(self).tracks.w() == old(self).tracks.w(),
            final(self).tracks.h() == old(self).tracks.h(),
            final(self).foods@.len() == old(self).foods@.len(),
            final(self).nest.position == old(self).nest.position,
            exists|
                c1: Seq<Track>,
                c2: Seq<Track>,
                c3: Seq<Track>,
                a1: Seq<Ant>,
                a2: Seq<Ant>,
                a3: Seq<Ant>,
                a4: Seq<Ant>,
                a5: Seq<Ant>,
                a6: Seq<Ant>,
                a7: Seq<Ant>,
                n4: Nest,
                n5: Nest,
                trace: Seq<Seq<Food>>,
            |
                #[trigger] tick_phases(
                    *old(self),
                    *final(self),
                    spawn_heading,
                    c1,
                    c2,
                    c3,
                    a1,
                    a2,
                    a3,
                    a4,
                    a5,
                    a6,
                    a7,
                    n4,
                    n5,
                    trace,
                ),
    {
        let ghost s0 = *self;
        decay_tracks(&mut self.tracks, &self.config);
        let ghost c1 = self.tracks.cells();
        diffuse_tracks(&mut self.tracks, &self.config);
        let ghost c2 = self.tracks.cells();
        emit_nest_pheromones(&self.nest, &mut self.tracks, &self.config);
        let ghost c3 = self.tracks.cells();
        decay_satiation(&mut self.ants);
        let ghost a1 = self.ants@;
        eat_held_food(&mut self.ants);
        let ghost a2 = self.ants@;
        starve(&mut self.ants);
        let ghost a3 = self.ants@;
        walk_ants(&mut self.ants, &self.tracks);
        let ghost a4 = self.ants@;
        deposit_food(&mut self.ants, &mut self.nest);
        let ghost a5 = self.ants@;
        let ghost n4 = self.nest;
        pick_up_food(&mut self.ants, &mut self.foods, &self.tracks, rng);
        let ghost a6 = self.ants@;
        let ghost trace = choose|t: Seq<Seq<Food>>|
            picked_all(
                a5,
                s0.foods@,
                a6,
                self.foods@,
                s0.tracks.half_w(),
                s0.tracks.half_h(),
                t,
            );
        emit_ant_pheromones(&self.ants, &mut self.tracks, &self.config);
        eat_nest_food(&mut self.ants, &mut self.nest);
        let ghost a7 = self.ants@;
        let ghost n5 = self.nest;
        spawn_ants_from_nest(
            &mut self.nest,
            &mut self.spawner,
            &mut self.ants,
            &self.config,
            rng,
            spawn_heading,
        );
        assert(tick_phases(
            s0,
            *self,
            spawn_heading,
            c1,
            c2,
            c3,
            a1,
            a2,
            a3,
            a4,
            a5,
            a6,
            a7,
            n4,
            n5,
            trace,
        ));
    }

    /// Points ant `i` along `heading`.
    pub fn set_heading(&mut self, i: usize, heading: Heading)
        requires
            old(self).wf(),
            i < old(self).ants@.len(),
            heading_bounded(heading),
        ensures
            final(self).wf(),
            final(self).ants@ == old(self).ants@.update(
                i as int,
                Ant { heading, ..old(self).ants@[i as int] },
            ),
            final(self).config == old(self).config,
            final(self).tracks == old(self).tracks,
            final(self).foods == old(self).foods,
            final(self).nest == old(self).nest,
            final(self).spawner == old(self).spawner,
    {
        let mut a = self.ants[i];
        assert(a.wf());
        a.heading = heading;
        self.ants.set(i, a);
        assert forall|j: int| 0 <= j < self.ants@.len() implies (#[trigger] self.ants@[j]).wf() by {
            if j != i {
                assert(self.ants@[j] == old(self).ants@[j]);
            }
        }
    }
}

} // verus!
