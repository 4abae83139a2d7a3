pub mod village;
pub mod village_mind;

use vstd::prelude::*;
use crate::village_manager::village::Village;
use crate::village_manager::village_mind::VillageMind;

verus! {

/// A village together with the mind that decides for it.
pub struct VillageManager {
    pub village: Village,
    pub village_mind: VillageMind,
}

} // verus!
