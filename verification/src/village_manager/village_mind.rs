use vstd::prelude::*;

verus! {

/// The agent that decides for one village. It makes no decision yet.
pub struct VillageMind {}

impl VillageMind {
    /// A mind for a village.
    pub fn new() -> (mind: VillageMind)
        ensures
            mind == (VillageMind {  }),
    {
        VillageMind {  }
    }
}

} // verus!
