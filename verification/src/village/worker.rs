use vstd::prelude::*;

verus! {

pub type WorkerId = u32;

/// One villager. `assigned_resource` names the resource site the worker
/// collects at, and 0 stands for no site at all.
pub struct Worker {
    pub worker_id: WorkerId,
    pub assigned_resource: u32,
    pub age: u32,
    pub is_alive: bool,
    pub power: u32,
}

impl Worker {
    /// A newborn worker: alive, of age 0 and idle.
    pub fn new(worker_id: WorkerId, power: u32) -> (worker: Worker)
        ensures
            worker == (Worker { worker_id, assigned_resource: 0, age: 0, is_alive: true, power }),
    {
        Worker { worker_id, assigned_resource: 0, age: 0, is_alive: true, power }
    }
}

} // verus!
