use vstd::prelude::*;

verus! {

pub type WorkerId = u32;

/// One villager. `assigned_resource` names the resource site the worker
/// collects at, and 0 stands for no site at all.
pub struct Worker {
    pub worker_id: WorkerId,
    pub assigned_resource: u32,
}

} // verus!
