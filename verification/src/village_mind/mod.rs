pub mod trade_request;

use vstd::prelude::*;
use crate::village::Village;
use crate::village_mind::trade_request::TradeRequest;

verus! {

/// The agent that decides for one village. It is handed its village for
/// the length of a call and keeps no hold on it.
pub struct VillageMind {}

impl VillageMind {
    /// A mind for a village.
    pub fn new() -> (mind: VillageMind)
        ensures
            mind == (VillageMind {  }),
    {
        VillageMind {  }
    }

    /// Decides what the village buys and sells in this round of trading.
    /// This mind wants nothing: it asks for no trade and leaves the village as it is.
    pub fn trade<D, Y>(&mut self, village: &mut Village<D, Y>) -> (requests: Vec<TradeRequest>)
        ensures
            requests@ == Seq::<TradeRequest>::empty(),
            *final(village) == *old(village),
            *final(self) == *old(self),
    {
        Vec::new()
    }

    /// Manages the village, for one by setting what its workers collect.
    /// This mind leaves the village as it is.
    pub fn manage_village<D, Y>(&mut self, village: &mut Village<D, Y>)
        ensures
            *final(village) == *old(village),
            *final(self) == *old(self),
    {
    }
}

} // verus!
