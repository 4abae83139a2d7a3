use vstd::prelude::*;
use crate::village::Village;
use crate::village_mind::VillageMind;

verus! {

/// A village together with the mind that decides for it.
pub struct VillageManager<D, Y> {
    pub village: Village<D, Y>,
    pub village_mind: VillageMind,
}

} // verus!
