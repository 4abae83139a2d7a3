//! A small economy of villages: workers collect resources at the sites of
//! their village, the minds of the villages ask to buy and to sell, and a
//! market finds prices by moving them one unit at a time towards the side
//! in excess and by rationing the long side once the price has crossed.

pub mod resource_map;
pub mod simulation;
pub mod simulation_manager;
pub mod village;
pub mod village_manager;
pub mod village_mind;
