pub mod resource;
pub mod worker;

use vstd::prelude::*;
use crate::village::resource::{Resource, ResourceId, ResourceType};
use crate::village::worker::{Worker, WorkerId};

verus! {

/// A village: its workers, its resource sites, and the rule that says
/// which workers die. Worker and site identities count up from 1; a site
/// is never removed, a worker only by death.
pub struct Village<D, Y> {
    workers: Vec<Worker>,
    worker_id_counter: u32,
    resources: Vec<Resource<Y>>,
    resource_id_counter: u32,
    check_for_worker_death: D,
}

/// What a village holds, as plain values.
pub struct VillageState<D, Y> {
    pub workers: Seq<Worker>,
    pub worker_id_counter: u32,
    pub resources: Seq<Resource<Y>>,
    pub resource_id_counter: u32,
    pub check_for_worker_death: D,
}

impl<D, Y> View for Village<D, Y> {
    type V = VillageState<D, Y>;

    closed spec fn view(&self) -> VillageState<D, Y> {
        VillageState {
            workers: self.workers@,
            worker_id_counter: self.worker_id_counter,
            resources: self.resources@,
            resource_id_counter: self.resource_id_counter,
            check_for_worker_death: self.check_for_worker_death,
        }
    }
}

/// What `assign_worker` answers for a worker that the village does not have.
pub const INVALID_WORKER_ID: &'static str = "Invalid Worker ID";

/// What `assign_worker` answers for a site that the village does not have.
pub const INVALID_RESOURCE_ID: &'static str = "Invalid Resource ID";

/// The sum of the power of the workers assigned to the given site.
pub open spec fn power_on(workers: Seq<Worker>, resource_id: u32) -> nat
    decreases workers.len(),
{
    if workers.len() == 0 {
        0
    } else {
        power_on(workers.drop_last(), resource_id) + if workers.last().assigned_resource
            == resource_id {
            workers.last().power as nat
        } else {
            0
        }
    }
}

/// The test for workers assigned to the given site; for 0, for idle workers.
pub open spec fn assigned_to(resource_id: u32) -> spec_fn(Worker) -> bool {
    |worker: Worker| worker.assigned_resource == resource_id
}

/// The test for workers with a site.
pub open spec fn at_work() -> spec_fn(Worker) -> bool {
    |worker: Worker| worker.assigned_resource != 0
}

/// The test for workers assigned to a site with an identity from 1 to `last`.
pub open spec fn assigned_up_to(last: int) -> spec_fn(Worker) -> bool {
    |worker: Worker| 1 <= worker.assigned_resource <= last
}

/// The test for sites of the given kind.
pub open spec fn of_type<Y>(resource_type: ResourceType) -> spec_fn(Resource<Y>) -> bool {
    |site: Resource<Y>| site.resource_type == resource_type
}

/// A prefix that is one item longer adds that item to what passes a test,
/// if the item passes.
pub proof fn lemma_filter_step<T>(items: Seq<T>, i: int, test: spec_fn(T) -> bool)
    requires
        0 <= i < items.len(),
    ensures
        items.take(i + 1).filter(test) == if test(items[i]) {
            items.take(i).filter(test).push(items[i])
        } else {
            items.take(i).filter(test)
        },
{
    reveal(Seq::filter);
    assert(items.take(i + 1).drop_last() =~= items.take(i));
    assert(items.take(i + 1).last() == items[i]);
}

/// The worker one tick older.
pub open spec fn aged(worker: Worker) -> Worker {
    Worker { age: (worker.age + 1) as u32, ..worker }
}

/// The workers, each one tick older.
pub open spec fn all_aged(workers: Seq<Worker>) -> Seq<Worker> {
    Seq::new(workers.len(), |i: int| aged(workers[i]))
}

/// The worker assigned to the given site, or idle where the site is 0.
pub open spec fn reassigned(worker: Worker, resource_id: ResourceId) -> Worker {
    Worker { assigned_resource: resource_id, ..worker }
}

/// The workers with the one of the given identity assigned to the given
/// site, or idle where the site is 0.
pub open spec fn with_assignment(
    workers: Seq<Worker>,
    worker_id: WorkerId,
    resource_id: ResourceId,
) -> Seq<Worker> {
    Seq::new(
        workers.len(),
        |i: int|
            if workers[i].worker_id == worker_id {
                reassigned(workers[i], resource_id)
            } else {
                workers[i]
            },
    )
}

/// Whether `kept` is what is left of `workers`, in their order, once the
/// death rule was asked about each of them and those it condemned left.
pub open spec fn culled<D: Fn(&Worker) -> bool>(
    workers: Seq<Worker>,
    kept: Seq<Worker>,
    check_for_worker_death: D,
) -> bool
    decreases workers.len(),
{
    if workers.len() == 0 {
        kept.len() == 0
    } else {
        ||| {
            &&& call_ensures(check_for_worker_death, (&workers.last(),), true)
            &&& culled(workers.drop_last(), kept, check_for_worker_death)
        }
        ||| {
            &&& call_ensures(check_for_worker_death, (&workers.last(),), false)
            &&& kept.len() > 0
            &&& kept.last() == workers.last()
            &&& culled(workers.drop_last(), kept.drop_last(), check_for_worker_death)
        }
    }
}

impl<D, Y> VillageState<D, Y> {
    /// Worker identities rise along the list and lie between 1 and the
    /// counter; site `i` has identity `i + 1`; a worker is alive, and
    /// idle or at a site of the village.
    pub open spec fn wf(self) -> bool {
        &&& forall|i: int, j: int|
            0 <= i < j < self.workers.len() ==> self.workers[i].worker_id
                < self.workers[j].worker_id
        &&& forall|i: int|
            0 <= i < self.workers.len() ==> {
                &&& i < (#[trigger] self.workers[i]).worker_id <= self.worker_id_counter
                &&& self.workers[i].is_alive
                &&& self.workers[i].assigned_resource <= self.resource_id_counter
            }
        &&& self.resources.len() == self.resource_id_counter
        &&& forall|i: int|
            0 <= i < self.resources.len() ==> (#[trigger] self.resources[i]).resource_id == i + 1
    }

    /// Whether a worker has the given identity.
    pub open spec fn has_worker(self, worker_id: WorkerId) -> bool {
        exists|i: int| 0 <= i < self.workers.len() && self.workers[i].worker_id == worker_id
    }

    /// Whether a site has the given identity.
    pub open spec fn has_resource(self, resource_id: ResourceId) -> bool {
        exists|i: int| 0 <= i < self.resources.len() && self.resources[i].resource_id == resource_id
    }

    /// Whether the worker at position `i` is the first with the given identity.
    pub open spec fn is_first_worker(self, i: int, worker_id: WorkerId) -> bool {
        &&& 0 <= i < self.workers.len()
        &&& self.workers[i].worker_id == worker_id
        &&& forall|j: int| 0 <= j < i ==> self.workers[j].worker_id != worker_id
    }

    /// Whether the site at position `i` is the first with the given identity.
    pub open spec fn is_first_resource(self, i: int, resource_id: ResourceId) -> bool {
        &&& 0 <= i < self.resources.len()
        &&& self.resources[i].resource_id == resource_id
        &&& forall|j: int| 0 <= j < i ==> self.resources[j].resource_id != resource_id
    }

    /// The workers assigned to the given site, in the order of the list;
    /// for 0, the idle workers.
    pub open spec fn workers_on(self, resource_id: u32) -> Seq<Worker> {
        self.workers.filter(assigned_to(resource_id))
    }

    /// The workers with a site.
    pub open spec fn busy_workers(self) -> Seq<Worker> {
        self.workers.filter(at_work())
    }

    /// The sites of the given kind, in the order of the list.
    pub open spec fn sites_of(self, resource_type: ResourceType) -> Seq<Resource<Y>> {
        self.resources.filter(of_type(resource_type))
    }

    /// The number of workers at the first `sites` sites, counted site by site.
    pub open spec fn staff(self, sites: int) -> nat
        decreases sites,
    {
        if sites <= 0 {
            0
        } else {
            self.staff(sites - 1) + self.workers_on(self.resources[sites - 1].resource_id).len()
        }
    }
}

/// The sites of a well-formed village have the identities from 1 to the
/// site counter, and its workers have identities up to the worker counter.
pub proof fn lemma_known_identities<D, Y>(state: VillageState<D, Y>, id: u32)
    requires
        state.wf(),
    ensures
        state.has_resource(id) <==> 1 <= id <= state.resource_id_counter,
        state.has_worker(id) ==> 1 <= id <= state.worker_id_counter,
{
    if 1 <= id <= state.resource_id_counter {
        assert(state.resources[id - 1].resource_id == id);
    }
    if state.has_resource(id) {
        let i = choose|i: int|
            0 <= i < state.resources.len() && state.resources[i].resource_id == id;
        assert(state.resources[i].resource_id == i + 1);
    }
    if state.has_worker(id) {
        let i = choose|i: int| 0 <= i < state.workers.len() && state.workers[i].worker_id == id;
        assert(i < state.workers[i].worker_id <= state.worker_id_counter);
    }
}

/// What passes one of two tests that agree on every item passes the other.
proof fn lemma_filter_agrees<T>(items: Seq<T>, one: spec_fn(T) -> bool, other: spec_fn(T) -> bool)
    requires
        forall|i: int| 0 <= i < items.len() ==> one(#[trigger] items[i]) == other(items[i]),
    ensures
        items.filter(one) == items.filter(other),
    decreases items.len(),
{
    reveal(Seq::filter);
    if items.len() > 0 {
        assert(one(items.last()) == other(items[items.len() - 1]));
        lemma_filter_agrees(items.drop_last(), one, other);
    }
}

/// The workers at the sites up to `last` are those at the sites before
/// `last` and those at `last`.
proof fn lemma_staff_splits(workers: Seq<Worker>, last: u32)
    requires
        last >= 1,
    ensures
        workers.filter(assigned_up_to(last as int)).len() == workers.filter(
            assigned_up_to(last - 1),
        ).len() + workers.filter(assigned_to(last)).len(),
    decreases workers.len(),
{
    reveal(Seq::filter);
    if workers.len() > 0 {
        lemma_staff_splits(workers.drop_last(), last);
    }
}

/// No worker is at a site before the first.
proof fn lemma_staff_starts(workers: Seq<Worker>)
    ensures
        workers.filter(assigned_up_to(0)).len() == 0,
    decreases workers.len(),
{
    reveal(Seq::filter);
    if workers.len() > 0 {
        lemma_staff_starts(workers.drop_last());
    }
}

proof fn lemma_staff_counts<D, Y>(state: VillageState<D, Y>, sites: int)
    requires
        state.wf(),
        0 <= sites <= state.resources.len(),
    ensures
        state.staff(sites) == state.workers.filter(assigned_up_to(sites)).len(),
    decreases sites,
{
    if sites > 0 {
        lemma_staff_counts(state, sites - 1);
        assert(state.resources[sites - 1].resource_id == sites);
        lemma_staff_splits(state.workers, sites as u32);
    } else {
        lemma_staff_starts(state.workers);
    }
}

/// The workers at the sites of a village, counted site by site, are the
/// workers with a site: no worker is counted twice, and never are more
/// workers at the sites than the village has.
pub proof fn lemma_staff_within_workers<D, Y>(state: VillageState<D, Y>)
    requires
        state.wf(),
    ensures
        state.staff(state.resources.len() as int) == state.busy_workers().len(),
        state.staff(state.resources.len() as int) + state.workers_on(0).len()
            == state.workers.len(),
        state.staff(state.resources.len() as int) <= state.workers.len(),
{
    lemma_staff_counts(state, state.resources.len() as int);
    lemma_filter_agrees(state.workers, assigned_up_to(state.resources.len() as int), at_work());
    lemma_idle_and_busy(state.workers);
}

/// A worker is idle or at work, never both.
proof fn lemma_idle_and_busy(workers: Seq<Worker>)
    ensures
        workers.filter(assigned_to(0)).len() + workers.filter(at_work()).len() == workers.len(),
    decreases workers.len(),
{
    reveal(Seq::filter);
    if workers.len() > 0 {
        lemma_idle_and_busy(workers.drop_last());
    }
}

impl<D: Fn(&Worker) -> bool, A, Y: Fn(u32) -> A> VillageState<D, Y> {
    /// Whether one tick can take the village from this state to `after`
    /// with the given yields: one yield for each site, in the order of
    /// the sites, of the site's kind and as the site gives it at the power
    /// of the workers assigned to it; every worker one tick older, and
    /// gone if the death rule condemned it; all else as before.
    pub open spec fn ticks_to(self, after: VillageState<D, Y>, harvest: Seq<(ResourceType, A)>)
        -> bool {
        &&& after == (VillageState { workers: after.workers, ..self })
        &&& culled(all_aged(self.workers), after.workers, self.check_for_worker_death)
        &&& harvest.len() == self.resources.len()
        &&& forall|i: int|
            0 <= i < harvest.len() ==> {
                &&& (#[trigger] harvest[i]).0 == self.resources[i].resource_type
                &&& call_ensures(
                    self.resources[i].collect_resource,
                    (power_on(self.workers, self.resources[i].resource_id) as u32,),
                    harvest[i].1,
                )
            }
    }
}

impl<D: Fn(&Worker) -> bool, A, Y: Fn(u32) -> A> Village<D, Y> {
    /// The state is well formed, the death rule can be asked about any
    /// worker, and every site can be asked for its yield at any power.
    pub open spec fn wf(&self) -> bool {
        &&& self@.wf()
        &&& forall|worker: &Worker| call_requires(self@.check_for_worker_death, (worker,))
        &&& forall|i: int, power: u32|
            0 <= i < self@.resources.len() ==> #[trigger] call_requires(
                self@.resources[i].collect_resource,
                (power,),
            )
    }

    /// Whether a tick stays within the numbers' range: the power at every
    /// site fits, and so does every worker's next age.
    pub open spec fn tick_fits(&self) -> bool {
        &&& forall|i: int|
            0 <= i < self@.resources.len() ==> power_on(
                self@.workers,
                (#[trigger] self@.resources[i]).resource_id,
            ) <= u32::MAX
        &&& forall|i: int|
            0 <= i < self@.workers.len() ==> (#[trigger] self@.workers[i]).age < u32::MAX
    }

    /// A village without workers or sites.
    pub fn new(check_for_worker_death: D) -> (village: Village<D, Y>)
        requires
            forall|worker: &Worker| call_requires(check_for_worker_death, (worker,)),
        ensures
            village.wf(),
            village@ == (VillageState::<D, Y> {
                workers: Seq::empty(),
                worker_id_counter: 0,
                resources: Seq::empty(),
                resource_id_counter: 0,
                check_for_worker_death,
            }),
    {
        Village {
            workers: Vec::new(),
            worker_id_counter: 0,
            resources: Vec::new(),
            resource_id_counter: 0,
            check_for_worker_death,
        }
    }

    /// Adds a worker of the given power, idle and of age 0, under the next
    /// identity, which it returns. Identities start at 1.
    pub fn create_worker(&mut self, power: u32) -> (worker_id: WorkerId)
        requires
            old(self).wf(),
            old(self)@.worker_id_counter < u32::MAX,
        ensures
            final(self).wf(),
            worker_id == old(self)@.worker_id_counter + 1,
            final(self)@ == (VillageState {
                workers: old(self)@.workers.push(
                    Worker { worker_id, assigned_resource: 0, age: 0, is_alive: true, power },
                ),
                worker_id_counter: worker_id,
                ..old(self)@
            }),
    {
        self.worker_id_counter = self.worker_id_counter + 1;
        self.workers.push(Worker::new(self.worker_id_counter, power));
        proof {
            let before = old(self)@.workers;
            let after = self@.workers;
            if before.len() > 0 {
                assert(before.len() - 1 < before[before.len() - 1].worker_id);
            }
            assert forall|i: int, j: int| 0 <= i < j < after.len() implies after[i].worker_id
                < after[j].worker_id by {
                assert(after[i] == before[i]);
                if j < before.len() {
                    assert(after[j] == before[j]);
                }
            }
            assert forall|i: int| 0 <= i < after.len() implies {
                &&& i < (#[trigger] after[i]).worker_id <= self@.worker_id_counter
                &&& after[i].is_alive
                &&& after[i].assigned_resource <= self@.resource_id_counter
            } by {
                if i < before.len() {
                    assert(after[i] == before[i]);
                }
            }
        }
        self.worker_id_counter
    }

    /// Adds a site of the given kind under the next identity, which it
    /// returns. Identities start at 1.
    pub fn create_resource(
        &mut self,
        resource_type: ResourceType,
        collect_resource: Y,
    ) -> (resource_id: ResourceId)
        requires
            old(self).wf(),
            old(self)@.resource_id_counter < u32::MAX,
            forall|power: u32| call_requires(collect_resource, (power,)),
        ensures
            final(self).wf(),
            resource_id == old(self)@.resource_id_counter + 1,
            final(self)@ == (VillageState {
                resources: old(self)@.resources.push(
                    Resource { resource_type, resource_id, collect_resource },
                ),
                resource_id_counter: resource_id,
                ..old(self)@
            }),
    {
        self.resource_id_counter = self.resource_id_counter + 1;
        self.resources.push(
            Resource { resource_type, resource_id: self.resource_id_counter, collect_resource },
        );
        proof {
            let before = old(self)@.resources;
            let after = self@.resources;
            assert forall|i: int| 0 <= i < after.len() implies (#[trigger] after[i]).resource_id
                == i + 1 by {
                if i < before.len() {
                    assert(after[i] == before[i]);
                }
            }
            assert forall|i: int, power: u32| 0 <= i < after.len() implies #[trigger] call_requires(
                after[i].collect_resource,
                (power,),
            ) by {
                if i < before.len() {
                    assert(after[i] == before[i]);
                    assert(call_requires(before[i].collect_resource, (power,)));
                }
            }
            assert forall|i: int| 0 <= i < self@.workers.len() implies {
                &&& i < (#[trigger] self@.workers[i]).worker_id <= self@.worker_id_counter
                &&& self@.workers[i].is_alive
                &&& self@.workers[i].assigned_resource <= self@.resource_id_counter
            } by {
                assert(self@.workers[i] == old(self)@.workers[i]);
            }
        }
        self.resource_id_counter
    }

    /// Sends the worker to the site, or leaves the worker idle where the
    /// site is 0. An identity that the village does not know is refused,
    /// the worker's first, and nothing changes.
    pub fn assign_worker(&mut self, worker_id: WorkerId, resource_id: ResourceId) -> (result:
        Result<(), &'static str>)
        requires
            old(self).wf(),
        ensures
            final(self).wf(),
            result is Ok <==> old(self)@.has_worker(worker_id) && (resource_id == 0
                || old(self)@.has_resource(resource_id)),
            result is Ok ==> final(self)@ == (VillageState {
                workers: with_assignment(old(self)@.workers, worker_id, resource_id),
                ..old(self)@
            }),
            result is Err ==> final(self)@ == old(self)@,
            result matches Err(message) ==> message@ == (if old(self)@.has_worker(worker_id) {
                INVALID_RESOURCE_ID@
            } else {
                INVALID_WORKER_ID@
            }),
    {
        let mut i: usize = 0;
        while i < self.workers.len() && self.workers[i].worker_id != worker_id
            invariant
                i <= self.workers.len(),
                *self == *old(self),
                forall|j: int| 0 <= j < i ==> self@.workers[j].worker_id != worker_id,
            decreases self.workers.len() - i,
        {
            i = i + 1;
        }
        if i == self.workers.len() {
            return Err(INVALID_WORKER_ID);
        }
        assert(self@.workers[i as int].worker_id == worker_id);
        if resource_id != 0 && self.resource(resource_id).is_none() {
            return Err(INVALID_RESOURCE_ID);
        }
        self.workers[i].assigned_resource = resource_id;
        proof {
            let before = old(self)@.workers;
            let target = with_assignment(before, worker_id, resource_id);
            assert(resource_id <= self@.resource_id_counter) by {
                if resource_id != 0 {
                    let k = choose|k: int|
                        0 <= k < self@.resources.len() && self@.resources[k].resource_id
                            == resource_id;
                    assert(self@.resources[k].resource_id == k + 1);
                }
            }
            assert forall|j: int| 0 <= j < before.len() implies self@.workers[j] == target[j] by {
                if j != i {
                    assert(before[j].worker_id != before[i as int].worker_id);
                }
            }
            assert(self@.workers =~= target);
        }
        Ok(())
    }

    /// The site with the given identity: the first in the list, if there is one.
    pub fn resource(&self, resource_id: ResourceId) -> (found: Option<&Resource<Y>>)
        ensures
            found is Some <==> self@.has_resource(resource_id),
            found matches Some(site) ==> exists|i: int|
                self@.is_first_resource(i, resource_id) && *site == self@.resources[i],
    {
        let mut i: usize = 0;
        while i < self.resources.len()
            invariant
                i <= self.resources.len(),
                forall|j: int| 0 <= j < i ==> self@.resources[j].resource_id != resource_id,
            decreases self.resources.len() - i,
        {
            if self.resources[i].resource_id == resource_id {
                assert(self@.is_first_resource(i as int, resource_id));
                return Some(&self.resources[i]);
            }
            i = i + 1;
        }
        None
    }

    /// The sites of the given kind, in the order in which they were created.
    pub fn resources_of_type(&self, resource_type: ResourceType) -> (found: Vec<&Resource<Y>>)
        ensures
            found@.len() == self@.sites_of(resource_type).len(),
            forall|k: int| 0 <= k < found@.len() ==> *found@[k] == self@.sites_of(resource_type)[k],
    {
        let mut found: Vec<&Resource<Y>> = Vec::new();
        let mut i: usize = 0;
        while i < self.resources.len()
            invariant
                i <= self.resources.len(),
                found@.len() == self@.resources.take(i as int).filter(of_type(resource_type)).len(),
                forall|k: int|
                    0 <= k < found@.len() ==> *found@[k] == self@.resources.take(i as int).filter(
                        of_type(resource_type),
                    )[k],
            decreases self.resources.len() - i,
        {
            proof {
                lemma_filter_step(self@.resources, i as int, of_type(resource_type));
            }
            if self.resources[i].resource_type == resource_type {
                found.push(&self.resources[i]);
            }
            i = i + 1;
        }
        assert(self@.resources.take(i as int) =~= self@.resources);
        found
    }

    /// Every site, in the order in which they were created.
    pub fn resources(&self) -> (sites: &Vec<Resource<Y>>)
        ensures
            sites@ == self@.resources,
    {
        &self.resources
    }

    /// The number of workers without a site: all workers but those with one.
    pub fn idle_worker_count(&self) -> (count: u32)
        requires
            self.wf(),
        ensures
            count == self@.workers_on(0).len(),
            count == self@.workers.len() - self@.busy_workers().len(),
    {
        let mut count: usize = 0;
        let mut i: usize = 0;
        while i < self.workers.len()
            invariant
                i <= self.workers.len(),
                count == self@.workers.take(i as int).filter(assigned_to(0)).len(),
                count + self@.workers.take(i as int).filter(at_work()).len() == i,
            decreases self.workers.len() - i,
        {
            proof {
                lemma_filter_step(self@.workers, i as int, assigned_to(0));
                lemma_filter_step(self@.workers, i as int, at_work());
            }
            if self.workers[i].assigned_resource == 0 {
                count = count + 1;
            }
            i = i + 1;
        }
        assert(self@.workers.take(i as int) =~= self@.workers);
        proof {
            if self@.workers.len() > 0 {
                assert(self@.workers.len() - 1 < self@.workers[self@.workers.len() - 1].worker_id);
            }
        }
        count as u32
    }

    /// The worker with the given identity: the first in the list, if there is one.
    pub fn worker(&self, worker_id: WorkerId) -> (found: Option<&Worker>)
        ensures
            found is Some <==> self@.has_worker(worker_id),
            found matches Some(worker) ==> exists|i: int|
                self@.is_first_worker(i, worker_id) && *worker == self@.workers[i],
    {
        let mut i: usize = 0;
        while i < self.workers.len()
            invariant
                i <= self.workers.len(),
                forall|j: int| 0 <= j < i ==> self@.workers[j].worker_id != worker_id,
            decreases self.workers.len() - i,
        {
            if self.workers[i].worker_id == worker_id {
                assert(self@.is_first_worker(i as int, worker_id));
                return Some(&self.workers[i]);
            }
            i = i + 1;
        }
        None
    }

    /// The workers assigned to the given site, in the order in which they
    /// were created; for 0, the idle workers.
    pub fn workers_on_resource(&self, resource_id: u32) -> (found: Vec<&Worker>)
        ensures
            found@.len() == self@.workers_on(resource_id).len(),
            forall|k: int| 0 <= k < found@.len() ==> *found@[k] == self@.workers_on(resource_id)[k],
    {
        let mut found: Vec<&Worker> = Vec::new();
        let mut i: usize = 0;
        while i < self.workers.len()
            invariant
                i <= self.workers.len(),
                found@.len() == self@.workers.take(i as int).filter(assigned_to(resource_id)).len(),
                forall|k: int|
                    0 <= k < found@.len() ==> *found@[k] == self@.workers.take(i as int).filter(
                        assigned_to(resource_id),
                    )[k],
            decreases self.workers.len() - i,
        {
            proof {
                lemma_filter_step(self@.workers, i as int, assigned_to(resource_id));
            }
            if self.workers[i].assigned_resource == resource_id {
                found.push(&self.workers[i]);
            }
            i = i + 1;
        }
        assert(self@.workers.take(i as int) =~= self@.workers);
        found
    }

    /// The sum of the power of the workers assigned to the given site.
    pub fn power_on_resource(&self, resource_id: u32) -> (power: u32)
        requires
            self.wf(),
            power_on(self@.workers, resource_id) <= u32::MAX,
        ensures
            power == power_on(self@.workers, resource_id),
    {
        self.power_sum_on_resource(resource_id) as u32
    }

    /// The sum of the power of the workers assigned to the given site, in
    /// a number wide enough for any village.
    pub fn power_sum_on_resource(&self, resource_id: u32) -> (power: u64)
        requires
            self.wf(),
        ensures
            power == power_on(self@.workers, resource_id),
    {
        proof {
            if self@.workers.len() > 0 {
                assert(self@.workers.len() - 1 < self@.workers[self@.workers.len() - 1].worker_id);
            }
        }
        let mut power: u64 = 0;
        let mut i: usize = 0;
        while i < self.workers.len()
            invariant
                i <= self.workers.len() <= u32::MAX,
                power == power_on(self@.workers.take(i as int), resource_id),
                power <= i * 0xFFFF_FFFF,
            decreases self.workers.len() - i,
        {
            assert(self@.workers.take(i + 1).drop_last() =~= self@.workers.take(i as int));
            if self.workers[i].assigned_resource == resource_id {
                power = power + self.workers[i].power as u64;
            }
            i = i + 1;
        }
        assert(self@.workers.take(i as int) =~= self@.workers);
        power
    }

    /// Tells whether the village can take one more worker.
    pub fn can_create_worker(&self) -> (room: bool)
        ensures
            room == (self@.worker_id_counter < u32::MAX),
    {
        self.worker_id_counter < u32::MAX
    }

    /// Tells whether the village can take one more site.
    pub fn can_create_resource(&self) -> (room: bool)
        ensures
            room == (self@.resource_id_counter < u32::MAX),
    {
        self.resource_id_counter < u32::MAX
    }

    /// Tells whether the village can go through a tick.
    pub fn can_simulate(&self) -> (fits: bool)
        requires
            self.wf(),
        ensures
            fits == self.tick_fits(),
    {
        let mut r: usize = 0;
        while r < self.resources.len()
            invariant
                r <= self.resources.len(),
                self.wf(),
                forall|i: int|
                    0 <= i < r ==> power_on(
                        self@.workers,
                        (#[trigger] self@.resources[i]).resource_id,
                    ) <= u32::MAX,
            decreases self.resources.len() - r,
        {
            if self.power_sum_on_resource(self.resources[r].resource_id) > u32::MAX as u64 {
                return false;
            }
            r = r + 1;
        }
        let mut i: usize = 0;
        while i < self.workers.len()
            invariant
                i <= self.workers.len(),
                forall|j: int| 0 <= j < i ==> (#[trigger] self@.workers[j]).age < u32::MAX,
            decreases self.workers.len() - i,
        {
            if self.workers[i].age == u32::MAX {
                assert(self@.workers[i as int].age == u32::MAX);
                return false;
            }
            i = i + 1;
        }
        true
    }

    /// One tick. Asks every site for its yield at the power of the workers
    /// assigned to it, and returns the yields with their kinds, one entry
    /// for each site in the order of the sites. Then every worker grows one
    /// tick older, the death rule is asked about each, and those it
    /// condemns leave the village.
    pub fn simulate(&mut self) -> (harvest: Vec<(ResourceType, A)>)
        requires
            old(self).wf(),
            old(self).tick_fits(),
        ensures
            final(self).wf(),
            old(self)@.ticks_to(final(self)@, harvest@),
    {
        let mut harvest: Vec<(ResourceType, A)> = Vec::new();
        let mut r: usize = 0;
        while r < self.resources.len()
            invariant
                r <= self.resources.len(),
                *self == *old(self),
                self.wf(),
                self.tick_fits(),
                harvest@.len() == r,
                forall|i: int|
                    0 <= i < r ==> {
                        &&& (#[trigger] harvest@[i]).0 == self@.resources[i].resource_type
                        &&& call_ensures(
                            self@.resources[i].collect_resource,
                            (power_on(self@.workers, self@.resources[i].resource_id) as u32,),
                            harvest@[i].1,
                        )
                    },
            decreases self.resources.len() - r,
        {
            assert(power_on(self@.workers, self@.resources[r as int].resource_id) <= u32::MAX);
            let power = self.power_on_resource(self.resources[r].resource_id);
            let amount = (self.resources[r].collect_resource)(power);
            harvest.push((self.resources[r].resource_type, amount));
            r = r + 1;
        }
        let ghost elders = all_aged(self@.workers);
        let mut kept: Vec<Worker> = Vec::new();
        let mut i: usize = 0;
        while i < self.workers.len()
            invariant
                i <= self.workers.len(),
                *self == *old(self),
                self.wf(),
                self.tick_fits(),
                elders == all_aged(self@.workers),
                culled(elders.take(i as int), kept@, self@.check_for_worker_death),
                kept@.len() <= i,
                forall|j: int|
                    0 <= j < kept@.len() ==> {
                        &&& j < (#[trigger] kept@[j]).worker_id <= self@.worker_id_counter
                        &&& kept@[j].is_alive
                        &&& kept@[j].assigned_resource <= self@.resource_id_counter
                    },
                forall|j: int, k: int|
                    0 <= j < kept@.len() && i <= k < self@.workers.len() ==> (
                    #[trigger] kept@[j]).worker_id < (#[trigger] self@.workers[k]).worker_id,
                forall|a: int, b: int|
                    0 <= a < b < kept@.len() ==> kept@[a].worker_id < kept@[b].worker_id,
            decreases self.workers.len() - i,
        {
            assert(self@.workers[i as int].age < u32::MAX);
            let older = Worker {
                worker_id: self.workers[i].worker_id,
                assigned_resource: self.workers[i].assigned_resource,
                age: self.workers[i].age + 1,
                is_alive: self.workers[i].is_alive,
                power: self.workers[i].power,
            };
            assert(older == elders[i as int]);
            assert(elders.take(i + 1).drop_last() =~= elders.take(i as int));
            assert(elders.take(i + 1).last() == older);
            let dies = (self.check_for_worker_death)(&older);
            if !dies {
                let ghost so_far = kept@;
                kept.push(older);
                assert(kept@.drop_last() =~= so_far);
            }
            i = i + 1;
        }
        assert(elders.take(i as int) =~= elders);
        self.workers = kept;
        harvest
    }
}

} // verus!
