use vstd::prelude::*;

pub use crate::village::resource::{ResourceId, ResourceType};

verus! {

/// A resource site of a village: a place of one kind where workers collect.
pub struct Resource {
    pub resource_type: ResourceType,
    pub resource_id: ResourceId,
}

} // verus!
