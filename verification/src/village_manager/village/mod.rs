pub mod resource;
pub mod worker;

use vstd::prelude::*;
use crate::resource_map::ResourceMap;
use crate::village::lemma_filter_step;
use crate::village_manager::village::resource::{Resource, ResourceId, ResourceType};
use crate::village_manager::village::worker::{Worker, WorkerId};

verus! {

/// A village in which every worker at a site collects one unit of the
/// site's kind in a round: its stockpile, its workers and its resource
/// sites. Worker and site identities count up from 1, and nothing is
/// ever removed.
pub struct Village {
    pub stockpile: ResourceMap<u32>,
    workers: Vec<Worker>,
    worker_id_counter: u32,
    resources: Vec<Resource>,
    resource_id_counter: u32,
}

/// What a village holds, as plain values.
pub struct VillageState {
    pub stockpile: Map<ResourceType, u32>,
    pub workers: Seq<Worker>,
    pub worker_id_counter: u32,
    pub resources: Seq<Resource>,
    pub resource_id_counter: u32,
}

impl View for Village {
    type V = VillageState;

    closed spec fn view(&self) -> VillageState {
        VillageState {
            stockpile: self.stockpile@,
            workers: self.workers@,
            worker_id_counter: self.worker_id_counter,
            resources: self.resources@,
            resource_id_counter: self.resource_id_counter,
        }
    }
}

/// The test for workers assigned to the given site; for 0, for idle workers.
pub open spec fn assigned_to(resource_id: u32) -> spec_fn(Worker) -> bool {
    |worker: Worker| worker.assigned_resource == resource_id
}

/// The test for sites of the given kind.
pub open spec fn of_type(resource_type: ResourceType) -> spec_fn(Resource) -> bool {
    |site: Resource| site.resource_type == resource_type
}

/// The worker assigned to the given site, or idle where the site is 0.
pub open spec fn reassigned(worker: Worker, resource_id: ResourceId) -> Worker {
    Worker { assigned_resource: resource_id, ..worker }
}

/// The workers with the one of the given identity assigned to the given
/// site, or idle where the site is 0.
pub open spec fn with_assignment(
    workers: Seq<Worker>,
    worker_id: WorkerId,
    resource_id: ResourceId,
) -> Seq<Worker> {
    Seq::new(
        workers.len(),
        |i: int|
            if workers[i].worker_id == worker_id {
                reassigned(workers[i], resource_id)
            } else {
                workers[i]
            },
    )
}

impl VillageState {
    /// The stockpile has an entry for every kind; worker identities rise
    /// along the list and lie between 1 and the counter; site `i` has
    /// identity `i + 1`; a worker is idle or at a site of the village.
    pub open spec fn wf(self) -> bool {
        &&& self.stockpile.contains_key(ResourceType::Gold)
        &&& self.stockpile.contains_key(ResourceType::Food)
        &&& self.stockpile.contains_key(ResourceType::Wood)
        &&& self.stockpile.contains_key(ResourceType::Stone)
        &&& forall|i: int, j: int|
            0 <= i < j < self.workers.len() ==> self.workers[i].worker_id
                < self.workers[j].worker_id
        &&& forall|i: int|
            0 <= i < self.workers.len() ==> {
                &&& i < (#[trigger] self.workers[i]).worker_id <= self.worker_id_counter
                &&& self.workers[i].assigned_resource <= self.resource_id_counter
            }
        &&& self.resources.len() == self.resource_id_counter
        &&& forall|i: int|
            0 <= i < self.resources.len() ==> (#[trigger] self.resources[i]).resource_id == i + 1
    }

    /// Whether a worker has the given identity.
    pub open spec fn has_worker(self, worker_id: WorkerId) -> bool {
        exists|i: int| 0 <= i < self.workers.len() && self.workers[i].worker_id == worker_id
    }

    /// Whether a site has the given identity.
    pub open spec fn has_resource(self, resource_id: ResourceId) -> bool {
        exists|i: int| 0 <= i < self.resources.len() && self.resources[i].resource_id == resource_id
    }

    /// Whether the site at position `i` is the first with the given identity.
    pub open spec fn is_first_resource(self, i: int, resource_id: ResourceId) -> bool {
        &&& 0 <= i < self.resources.len()
        &&& self.resources[i].resource_id == resource_id
        &&& forall|j: int| 0 <= j < i ==> self.resources[j].resource_id != resource_id
    }

    /// A village without workers or sites and with an empty stockpile.
    pub open spec fn fresh() -> Self {
        VillageState {
            stockpile: Map::empty().insert(ResourceType::Gold, 0u32).insert(
                ResourceType::Food,
                0u32,
            ).insert(ResourceType::Wood, 0u32).insert(ResourceType::Stone, 0u32),
            workers: Seq::empty(),
            worker_id_counter: 0,
            resources: Seq::empty(),
            resource_id_counter: 0,
        }
    }

    /// The workers assigned to the given site, in the order of the list;
    /// for 0, the idle workers.
    pub open spec fn workers_on(self, resource_id: u32) -> Seq<Worker> {
        self.workers.filter(assigned_to(resource_id))
    }

    /// The sites of the given kind, in the order of the list.
    pub open spec fn sites_of(self, resource_type: ResourceType) -> Seq<Resource> {
        self.resources.filter(of_type(resource_type))
    }

    /// The kind that a worker collects: the kind of the site with the
    /// identity that the worker is assigned to, if there is such a site.
    pub open spec fn collects(self, worker: Worker) -> Option<ResourceType> {
        if 1 <= worker.assigned_resource <= self.resources.len() {
            Some(self.resources[worker.assigned_resource - 1].resource_type)
        } else {
            None
        }
    }

    /// The number of workers among the first `done` that collect `kind`.
    pub open spec fn hands_on(self, kind: ResourceType, done: int) -> nat
        decreases done,
    {
        if done <= 0 {
            0
        } else {
            self.hands_on(kind, done - 1) + if self.collects(self.workers[done - 1]) == Some(
                kind,
            ) {
                1nat
            } else {
                0
            }
        }
    }

    /// What the stockpile holds of `kind` once the first `done` workers
    /// have each brought in one unit of the kind they collect.
    pub open spec fn stock_after(self, kind: ResourceType, done: int) -> int {
        self.stockpile[kind] + self.hands_on(kind, done)
    }

    /// The stockpile once the first `done` workers have each brought in
    /// one unit of the kind they collect.
    pub open spec fn stockpile_after(self, done: int) -> Map<ResourceType, u32> {
        self.stockpile.insert(
            ResourceType::Gold,
            self.stock_after(ResourceType::Gold, done) as u32,
        ).insert(ResourceType::Food, self.stock_after(ResourceType::Food, done) as u32).insert(
            ResourceType::Wood,
            self.stock_after(ResourceType::Wood, done) as u32,
        ).insert(ResourceType::Stone, self.stock_after(ResourceType::Stone, done) as u32)
    }

    /// Whether a round of collecting keeps the stockpile within the
    /// numbers' range.
    pub open spec fn collecting_fits(self) -> bool {
        &&& self.stock_after(ResourceType::Gold, self.workers.len() as int) <= u32::MAX
        &&& self.stock_after(ResourceType::Food, self.workers.len() as int) <= u32::MAX
        &&& self.stock_after(ResourceType::Wood, self.workers.len() as int) <= u32::MAX
        &&& self.stock_after(ResourceType::Stone, self.workers.len() as int) <= u32::MAX
    }
}

/// The more workers have come in, the more hands have brought in a kind.
pub proof fn lemma_hands_grow(state: VillageState, kind: ResourceType, done: int)
    requires
        0 <= done <= state.workers.len(),
    ensures
        state.hands_on(kind, done) <= state.hands_on(kind, state.workers.len() as int),
        state.hands_on(kind, done) <= done,
    decreases state.workers.len() - done,
{
    if done < state.workers.len() {
        lemma_hands_grow(state, kind, done + 1);
        assert(state.hands_on(kind, done) <= state.hands_on(kind, done + 1));
    } else {
        lemma_hands_few(state, kind, done);
    }
    lemma_hands_few(state, kind, done);
}

proof fn lemma_hands_few(state: VillageState, kind: ResourceType, done: int)
    requires
        0 <= done,
    ensures
        state.hands_on(kind, done) <= done,
    decreases done,
{
    if done > 0 {
        lemma_hands_few(state, kind, done - 1);
    }
}

impl Village {
    /// A village without workers or sites and with an empty stockpile.
    pub fn new() -> (village: Village)
        ensures
            village@.wf(),
            village@ == VillageState::fresh(),
    {
        let mut village = Village {
            stockpile: ResourceMap::new(),
            workers: Vec::new(),
            worker_id_counter: 0,
            resources: Vec::new(),
            resource_id_counter: 0,
        };
        village.stockpile.insert(ResourceType::Gold, 0);
        village.stockpile.insert(ResourceType::Food, 0);
        village.stockpile.insert(ResourceType::Wood, 0);
        village.stockpile.insert(ResourceType::Stone, 0);
        village
    }

    /// Adds an idle worker under the next identity, which it returns.
    /// Identities start at 1.
    pub fn create_worker(&mut self) -> (worker_id: WorkerId)
        requires
            old(self)@.wf(),
            old(self)@.worker_id_counter < u32::MAX,
        ensures
            final(self)@.wf(),
            worker_id == old(self)@.worker_id_counter + 1,
            final(self)@ == (VillageState {
                workers: old(self)@.workers.push(Worker { worker_id, assigned_resource: 0 }),
                worker_id_counter: worker_id,
                ..old(self)@
            }),
    {
        self.worker_id_counter = self.worker_id_counter + 1;
        self.workers.push(Worker { worker_id: self.worker_id_counter, assigned_resource: 0 });
        proof {
            let before = old(self)@.workers;
            let after = self@.workers;
            if before.len() > 0 {
                assert(before.len() - 1 < before[before.len() - 1].worker_id);
            }
            assert forall|i: int, j: int| 0 <= i < j < after.len() implies after[i].worker_id
                < after[j].worker_id by {
                assert(after[i] == before[i]);
                if j < before.len() {
                    assert(after[j] == before[j]);
                }
            }
            assert forall|i: int| 0 <= i < after.len() implies {
                &&& i < (#[trigger] after[i]).worker_id <= self@.worker_id_counter
                &&& after[i].assigned_resource <= self@.resource_id_counter
            } by {
                if i < before.len() {
                    assert(after[i] == before[i]);
                }
            }
        }
        self.worker_id_counter
    }

    /// Adds a site of the given kind under the next identity, which it
    /// returns. Identities start at 1.
    pub fn create_resource(&mut self, resource_type: ResourceType) -> (resource_id: ResourceId)
        requires
            old(self)@.wf(),
            old(self)@.resource_id_counter < u32::MAX,
        ensures
            final(self)@.wf(),
            resource_id == old(self)@.resource_id_counter + 1,
            final(self)@ == (VillageState {
                resources: old(self)@.resources.push(Resource { resource_type, resource_id }),
                resource_id_counter: resource_id,
                ..old(self)@
            }),
    {
        self.resource_id_counter = self.resource_id_counter + 1;
        self.resources.push(Resource { resource_type, resource_id: self.resource_id_counter });
        proof {
            let before = old(self)@.resources;
            let after = self@.resources;
            assert forall|i: int| 0 <= i < after.len() implies (#[trigger] after[i]).resource_id
                == i + 1 by {
                if i < before.len() {
                    assert(after[i] == before[i]);
                }
            }
            assert forall|i: int| 0 <= i < self@.workers.len() implies {
                &&& i < (#[trigger] self@.workers[i]).worker_id <= self@.worker_id_counter
                &&& self@.workers[i].assigned_resource <= self@.resource_id_counter
            } by {
                assert(self@.workers[i] == old(self)@.workers[i]);
            }
        }
        self.resource_id_counter
    }

    /// Sends the worker to the site, or leaves the worker idle where the
    /// site is 0. Where the village does not know the worker or the
    /// site, nothing changes.
    pub fn assign_worker(&mut self, worker_id: WorkerId, resource_id: ResourceId)
        requires
            old(self)@.wf(),
        ensures
            final(self)@.wf(),
            final(self)@ == (if old(self)@.has_worker(worker_id) && (resource_id == 0 || old(
                self,
            )@.has_resource(resource_id)) {
                VillageState {
                    workers: with_assignment(old(self)@.workers, worker_id, resource_id),
                    ..old(self)@
                }
            } else {
                old(self)@
            }),
    {
        let mut i: usize = 0;
        while i < self.workers.len() && self.workers[i].worker_id != worker_id
            invariant
                i <= self.workers.len(),
                *self == *old(self),
                forall|j: int| 0 <= j < i ==> self@.workers[j].worker_id != worker_id,
            decreases self.workers.len() - i,
        {
            i = i + 1;
        }
        if i == self.workers.len() {
            return ;
        }
        assert(self@.workers[i as int].worker_id == worker_id);
        if resource_id != 0 && self.resource(resource_id).is_none() {
            return ;
        }
        self.workers[i].assigned_resource = resource_id;
        proof {
            let before = old(self)@.workers;
            let target = with_assignment(before, worker_id, resource_id);
            assert(resource_id <= self@.resource_id_counter) by {
                if resource_id != 0 {
                    let k = choose|k: int|
                        0 <= k < self@.resources.len() && self@.resources[k].resource_id
                            == resource_id;
                    assert(self@.resources[k].resource_id == k + 1);
                }
            }
            assert forall|j: int| 0 <= j < before.len() implies self@.workers[j] == target[j] by {
                if j != i {
                    assert(before[j].worker_id != before[i as int].worker_id);
                }
            }
            assert(self@.workers =~= target);
        }
    }

    /// The site with the given identity: the first in the list, if there is one.
    pub fn resource(&self, resource_id: ResourceId) -> (found: Option<&Resource>)
        ensures
            found is Some <==> self@.has_resource(resource_id),
            found matches Some(site) ==> exists|i: int|
                self@.is_first_resource(i, resource_id) && *site == self@.resources[i],
    {
        let mut i: usize = 0;
        while i < self.resources.len()
            invariant
                i <= self.resources.len(),
                forall|j: int| 0 <= j < i ==> self@.resources[j].resource_id != resource_id,
            decreases self.resources.len() - i,
        {
            if self.resources[i].resource_id == resource_id {
                assert(self@.is_first_resource(i as int, resource_id));
                return Some(&self.resources[i]);
            }
            i = i + 1;
        }
        None
    }

    /// The sites of the given kind, in the order in which they were created.
    pub fn resources_of_type(&self, resource_type: ResourceType) -> (found: Vec<&Resource>)
        ensures
            found@.len() == self@.sites_of(resource_type).len(),
            forall|k: int| 0 <= k < found@.len() ==> *found@[k] == self@.sites_of(resource_type)[k],
    {
        let mut found: Vec<&Resource> = Vec::new();
        let mut i: usize = 0;
        while i < self.resources.len()
            invariant
                i <= self.resources.len(),
                found@.len() == self@.resources.take(i as int).filter(of_type(resource_type)).len(),
                forall|k: int|
                    0 <= k < found@.len() ==> *found@[k] == self@.resources.take(i as int).filter(
                        of_type(resource_type),
                    )[k],
            decreases self.resources.len() - i,
        {
            proof {
                lemma_filter_step(self@.resources, i as int, of_type(resource_type));
            }
            if self.resources[i].resource_type == resource_type {
                found.push(&self.resources[i]);
            }
            i = i + 1;
        }
        assert(self@.resources.take(i as int) =~= self@.resources);
        found
    }

    /// Every site, in the order in which they were created.
    pub fn resources(&self) -> (sites: &Vec<Resource>)
        ensures
            sites@ == self@.resources,
    {
        &self.resources
    }

    /// The number of workers without a site.
    pub fn idle_worker_count(&self) -> (count: u32)
        requires
            self@.wf(),
        ensures
            count == self@.workers_on(0).len(),
    {
        let mut count: usize = 0;
        let mut i: usize = 0;
        while i < self.workers.len()
            invariant
                i <= self.workers.len(),
                count == self@.workers.take(i as int).filter(assigned_to(0)).len(),
                count <= i,
            decreases self.workers.len() - i,
        {
            proof {
                lemma_filter_step(self@.workers, i as int, assigned_to(0));
            }
            if self.workers[i].assigned_resource == 0 {
                count = count + 1;
            }
            i = i + 1;
        }
        assert(self@.workers.take(i as int) =~= self@.workers);
        proof {
            if self@.workers.len() > 0 {
                assert(self@.workers.len() - 1 < self@.workers[self@.workers.len() - 1].worker_id);
            }
        }
        count as u32
    }

    /// The number of workers that collect `kind`.
    fn count_hands(&self, kind: ResourceType) -> (hands: usize)
        requires
            self@.wf(),
        ensures
            hands == self@.hands_on(kind, self@.workers.len() as int),
    {
        let mut hands: usize = 0;
        let mut i: usize = 0;
        while i < self.workers.len()
            invariant
                i <= self.workers.len(),
                self@.wf(),
                hands == self@.hands_on(kind, i as int),
                hands <= i,
            decreases self.workers.len() - i,
        {
            let site = self.workers[i].assigned_resource;
            if site != 0 && self.resources[(site - 1) as usize].resource_type == kind {
                hands = hands + 1;
            }
            i = i + 1;
        }
        hands
    }

    /// Tells whether a round of collecting keeps the stockpile within the
    /// numbers' range.
    pub fn can_collect_resources(&self) -> (fits: bool)
        requires
            self@.wf(),
        ensures
            fits == self@.collecting_fits(),
    {
        let kinds = ResourceType::iterator();
        let mut k: usize = 0;
        while k < kinds.len()
            invariant
                k <= kinds.len(),
                kinds@ == ResourceType::all(),
                self@.wf(),
                0 < k ==> self@.stock_after(ResourceType::Gold, self@.workers.len() as int)
                    <= u32::MAX,
                1 < k ==> self@.stock_after(ResourceType::Food, self@.workers.len() as int)
                    <= u32::MAX,
                2 < k ==> self@.stock_after(ResourceType::Wood, self@.workers.len() as int)
                    <= u32::MAX,
                3 < k ==> self@.stock_after(ResourceType::Stone, self@.workers.len() as int)
                    <= u32::MAX,
            decreases kinds.len() - k,
        {
            let kind = kinds[k];
            let held = *self.stockpile.get(&kind).unwrap();
            let hands = self.count_hands(kind);
            if held as u128 + hands as u128 > u32::MAX as u128 {
                return false;
            }
            k = k + 1;
        }
        true
    }

    /// One round of collecting: every worker at a site of the village
    /// brings one unit of the site's kind into the stockpile.
    pub fn collect_resources(&mut self)
        requires
            old(self)@.wf(),
            old(self)@.collecting_fits(),
        ensures
            final(self)@.wf(),
            final(self)@ == (VillageState {
                stockpile: old(self)@.stockpile_after(old(self)@.workers.len() as int),
                ..old(self)@
            }),
    {
        assert(self@.stockpile =~= self@.stockpile_after(0));
        let mut i: usize = 0;
        while i < self.workers.len()
            invariant
                i <= self.workers.len(),
                old(self)@.wf(),
                old(self)@.collecting_fits(),
                self@ == (VillageState {
                    stockpile: old(self)@.stockpile_after(i as int),
                    ..old(self)@
                }),
            decreases self.workers.len() - i,
        {
            proof {
                lemma_hands_grow(old(self)@, ResourceType::Gold, i + 1);
                lemma_hands_grow(old(self)@, ResourceType::Food, i + 1);
                lemma_hands_grow(old(self)@, ResourceType::Wood, i + 1);
                lemma_hands_grow(old(self)@, ResourceType::Stone, i + 1);
            }
            let site = self.workers[i].assigned_resource;
            if site != 0 {
                let kind = self.resources[(site - 1) as usize].resource_type;
                let held = *self.stockpile.get(&kind).unwrap();
                self.stockpile.insert(kind, held + 1);
            }
            assert(self@.stockpile =~= old(self)@.stockpile_after(i + 1));
            i = i + 1;
        }
    }

    /// The workers assigned to the given site, in the order in which they
    /// were created; for 0, the idle workers.
    pub fn workers_on_resource(&self, resource_id: u32) -> (found: Vec<&Worker>)
        ensures
            found@.len() == self@.workers_on(resource_id).len(),
            forall|k: int| 0 <= k < found@.len() ==> *found@[k] == self@.workers_on(resource_id)[k],
    {
        let mut found: Vec<&Worker> = Vec::new();
        let mut i: usize = 0;
        while i < self.workers.len()
            invariant
                i <= self.workers.len(),
                found@.len() == self@.workers.take(i as int).filter(assigned_to(resource_id)).len(),
                forall|k: int|
                    0 <= k < found@.len() ==> *found@[k] == self@.workers.take(i as int).filter(
                        assigned_to(resource_id),
                    )[k],
            decreases self.workers.len() - i,
        {
            proof {
                lemma_filter_step(self@.workers, i as int, assigned_to(resource_id));
            }
            if self.workers[i].assigned_resource == resource_id {
                found.push(&self.workers[i]);
            }
            i = i + 1;
        }
        assert(self@.workers.take(i as int) =~= self@.workers);
        found
    }
}

} // verus!
