use vstd::prelude::*;

verus! {

/// The closed set of resource kinds. Gold is the numeraire: every other
/// kind is priced in it, and it is never itself priced or traded.
#[derive(Copy, Clone, PartialEq, Eq, Structural, Hash, Debug)]
pub enum ResourceType {
    Gold,
    Food,
    Wood,
    Stone,
}

pub type ResourceId = u32;

impl ResourceType {
    /// Every kind, in declaration order.
    pub open spec fn all() -> Seq<ResourceType> {
        seq![ResourceType::Gold, ResourceType::Food, ResourceType::Wood, ResourceType::Stone]
    }

    /// Whether this kind is priced and traded, which every kind but Gold is.
    pub open spec fn is_traded(self) -> bool {
        self != ResourceType::Gold
    }

    /// The kinds in declaration order.
    pub fn iterator() -> (kinds: Vec<ResourceType>)
        ensures
            kinds@ == Self::all(),
    {
        let mut kinds: Vec<ResourceType> = Vec::new();
        kinds.push(ResourceType::Gold);
        kinds.push(ResourceType::Food);
        kinds.push(ResourceType::Wood);
        kinds.push(ResourceType::Stone);
        kinds
    }
}

/// A resource site of a village: a place of one kind where workers collect.
/// `collect_resource` turns the power of the workers at the site into the
/// amount that the site yields in one tick.
pub struct Resource<Y> {
    pub resource_type: ResourceType,
    pub resource_id: ResourceId,
    pub collect_resource: Y,
}

impl<Y> Resource<Y> {
    pub fn new(resource_type: ResourceType, resource_id: ResourceId, collect_resource: Y) -> (site:
        Resource<Y>)
        ensures
            site == (Resource { resource_type, resource_id, collect_resource }),
    {
        Resource { resource_type, resource_id, collect_resource }
    }
}

} // verus!
