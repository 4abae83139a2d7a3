use vstd::prelude::*;
use crate::village_manager::village::{Village, VillageState};
use crate::village_manager::village_mind::VillageMind;
use crate::village_manager::VillageManager;

verus! {

/// A number of villages, each with a mind of its own.
pub struct SimulationManager {
    village_managers: Vec<VillageManager>,
}

impl View for SimulationManager {
    type V = Seq<VillageManager>;

    closed spec fn view(&self) -> Seq<VillageManager> {
        self.village_managers@
    }
}

impl SimulationManager {
    /// As many new villages as asked for, each without workers or sites
    /// and with an empty stockpile.
    pub fn new(number_of_villages: u32) -> (simulation_manager: SimulationManager)
        ensures
            simulation_manager@.len() == number_of_villages,
            forall|i: int|
                0 <= i < number_of_villages ==> (#[trigger] simulation_manager@[i]).village@
                    == VillageState::fresh(),
    {
        let mut simulation_manager = SimulationManager { village_managers: Vec::new() };
        let mut x: u32 = 0;
        while x < number_of_villages
            invariant
                x <= number_of_villages,
                simulation_manager@.len() == x,
                forall|i: int|
                    0 <= i < x ==> (#[trigger] simulation_manager@[i]).village@
                        == VillageState::fresh(),
            decreases number_of_villages - x,
        {
            let village_manager = VillageManager {
                village: Village::new(),
                village_mind: VillageMind::new(),
            };
            simulation_manager.village_managers.push(village_manager);
            x = x + 1;
        }
        simulation_manager
    }

    /// The villages with their minds, in the order in which they were made.
    pub fn village_managers(&self) -> (managers: &Vec<VillageManager>)
        ensures
            managers@ == self@,
    {
        &self.village_managers
    }
}

} // verus!
