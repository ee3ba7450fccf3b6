//! The instance store: the registry that maps an instance identifier to its
//! persistent simulation state.

use vstd::prelude::*;
use std::collections::HashMap;
use crate::rng::mix_seed_spec;
use crate::simulator::MAX_PARTICLES_PER_BAND;
use crate::state::FlameState;

verus! {

/// The registry of simulation instances. At most one state exists per identifier.
pub struct InstanceStore {
    pub states: HashMap<u64, FlameState>,
}

/// What is done to one instance leaves every other instance as it was: if
/// two registries agree once `id` is taken out of both, they hold the same
/// state, or none, for every other identifier.
pub proof fn lemma_other_instances_untouched(
    before: Map<u64, FlameState>,
    after: Map<u64, FlameState>,
    id: u64,
    other: u64,
)
    requires
        after.remove(id) == before.remove(id),
        other != id,
    ensures
        after.contains_key(other) == before.contains_key(other),
        before.contains_key(other) ==> after[other] == before[other],
{
    assert(after.remove(id).contains_key(other) == after.contains_key(other));
    assert(before.remove(id).contains_key(other) == before.contains_key(other));
    if before.contains_key(other) {
        assert(after.remove(id)[other] == after[other]);
        assert(before.remove(id)[other] == before[other]);
    }
}

/// In a well-formed store no band of any instance holds more than
/// `MAX_PARTICLES_PER_BAND` particles, and every particle is younger than
/// its lifespan.
pub proof fn lemma_population_bounded(store: InstanceStore, id: u64)
    requires
        store.wf(),
        store.states@.contains_key(id),
    ensures
        store.states@[id].low.particles@.len() <= MAX_PARTICLES_PER_BAND,
        store.states@[id].mid.particles@.len() <= MAX_PARTICLES_PER_BAND,
        store.states@[id].high.particles@.len() <= MAX_PARTICLES_PER_BAND,
        forall|i: int|
            0 <= i < store.states@[id].low.particles@.len() ==> (
            #[trigger] store.states@[id].low.particles@[i]).age
                < store.states@[id].low.particles@[i].lifespan,
        forall|i: int|
            0 <= i < store.states@[id].mid.particles@.len() ==> (
            #[trigger] store.states@[id].mid.particles@[i]).age
                < store.states@[id].mid.particles@[i].lifespan,
        forall|i: int|
            0 <= i < store.states@[id].high.particles@.len() ==> (
            #[trigger] store.states@[id].high.particles@[i]).age
                < store.states@[id].high.particles@[i].lifespan,
{
    let s = store.states@[id];
    assert(s.wf());
    assert forall|i: int| 0 <= i < s.low.particles@.len() implies (#[trigger] s.low.particles@[i]).age
        < s.low.particles@[i].lifespan by {
        assert(s.low.particles@[i].alive());
    }
    assert forall|i: int| 0 <= i < s.mid.particles@.len() implies (#[trigger] s.mid.particles@[i]).age
        < s.mid.particles@[i].lifespan by {
        assert(s.mid.particles@[i].alive());
    }
    assert forall|i: int| 0 <= i < s.high.particles@.len() implies (
    #[trigger] s.high.particles@[i]).age < s.high.particles@[i].lifespan by {
        assert(s.high.particles@[i].alive());
    }
}

impl InstanceStore {
    /// Every stored state is well formed.
    pub open spec fn wf(self) -> bool {
        forall|id: u64| #[trigger] self.states@.contains_key(id) ==> self.states@[id].wf()
    }

    /// Whether the store holds a state for `id` that was made for the given image size.
    pub open spec fn has_fitting(self, id: u64, width: usize, height: usize) -> bool {
        &&& self.states@.contains_key(id)
        &&& self.states@[id].width == width
        &&& self.states@[id].height == height
    }

    /// An empty store.
    pub fn new() -> (s: InstanceStore)
        ensures
            s.wf(),
            s.states@ == Map::<u64, FlameState>::empty(),
    {
        InstanceStore { states: HashMap::new() }
    }

    /// Number of instances.
    pub fn len(&self) -> (n: usize)
        ensures
            n == self.states@.len(),
    {
        self.states.len()
    }

    /// Whether an instance with this identifier exists.
    pub fn contains(&self, instance_id: u64) -> (r: bool)
        ensures
            r == self.states@.contains_key(instance_id),
    {
        self.states.contains_key(&instance_id)
    }

    /// The particle counts of the three bands of an instance, all zero for
    /// an unknown identifier.
    pub fn particle_counts(&self, instance_id: u64) -> (r: [usize; 3])
        ensures
            self.states@.contains_key(instance_id) ==> {
                &&& r[0] == self.states@[instance_id].low.particles@.len()
                &&& r[1] == self.states@[instance_id].mid.particles@.len()
                &&& r[2] == self.states@[instance_id].high.particles@.len()
            },
            !self.states@.contains_key(instance_id) ==> r[0] == 0 && r[1] == 0 && r[2] == 0,
    {
        match self.states.get(&instance_id) {
            Some(state) => state.particle_counts(),
            None => [0, 0, 0],
        }
    }

    /// Removes the state of an instance, if there is one, and says whether
    /// there was. Every other instance is left as it is.
    pub fn release(&mut self, instance_id: u64) -> (r: bool)
        ensures
            r == old(self).states@.contains_key(instance_id),
            final(self).states@ == old(self).states@.remove(instance_id),
            old(self).wf() ==> final(self).wf(),
    {
        let removed = self.states.remove(&instance_id);
        removed.is_some()
    }

    /// Takes the state of an instance out of the store for one frame. A
    /// state that exists and fits the image size is handed out as it is;
    /// otherwise a blank state for that size is made, and a state of
    /// another size is discarded.
    pub fn checkout(&mut self, instance_id: u64, width: usize, height: usize, time_seed: u64) -> (s:
        FlameState)
        requires
            old(self).wf(),
        ensures
            final(self).wf(),
            final(self).states@ == old(self).states@.remove(instance_id),
            s.wf(),
            s.width == width,
            s.height == height,
            old(self).has_fitting(instance_id, width, height) ==> s == old(self).states@[instance_id],
            !old(self).has_fitting(instance_id, width, height) ==> s.is_blank() && s.rng.seed()
                == mix_seed_spec(time_seed, instance_id),
    {
        let found = self.states.remove(&instance_id);
        match found {
            Some(state) => {
                if state.fits(width, height) {
                    state
                } else {
                    FlameState::new(width, height, instance_id, time_seed)
                }
            },
            None => FlameState::new(width, height, instance_id, time_seed),
        }
    }

    /// Puts the state of an instance back after its frame.
    pub fn checkin(&mut self, instance_id: u64, state: FlameState)
        requires
            old(self).wf(),
            state.wf(),
        ensures
            final(self).wf(),
            final(self).states@ == old(self).states@.insert(instance_id, state),
    {
        self.states.insert(instance_id, state);
    }
}

} // verus!
