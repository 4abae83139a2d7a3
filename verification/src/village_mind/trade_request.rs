use vstd::prelude::*;
use crate::village::resource::ResourceType;

verus! {

/// The side of the market a request stands on.
#[derive(Copy, Clone, PartialEq, Eq, Structural, Hash, Debug)]
pub enum TradeType {
    Buy,
    Sell,
}

impl TradeType {
    /// The side that a request of this side trades against.
    pub open spec fn opposite(self) -> TradeType {
        match self {
            TradeType::Buy => TradeType::Sell,
            TradeType::Sell => TradeType::Buy,
        }
    }
}

/// A wish to buy or sell `request_amount` units of one resource kind. The
/// market writes into `fulfilled_amount` how much of it was met.
pub struct TradeRequest {
    pub trade_type: TradeType,
    pub resource_type: ResourceType,
    pub request_amount: u32,
    pub fulfilled_amount: u32,
}

impl TradeRequest {
    /// A request of which nothing has been met yet.
    pub fn new(trade_type: TradeType, amount: u32, resource_type: ResourceType) -> (request:
        TradeRequest)
        ensures
            request == (TradeRequest {
                trade_type,
                resource_type,
                request_amount: amount,
                fulfilled_amount: 0,
            }),
    {
        TradeRequest { trade_type, resource_type, request_amount: amount, fulfilled_amount: 0 }
    }

    /// Whether the request is for the given kind and stands on the given side.
    pub open spec fn on_side(self, kind: ResourceType, side: TradeType) -> bool {
        self.resource_type == kind && self.trade_type == side
    }

    /// No more is met than was asked for.
    pub open spec fn within_request(self) -> bool {
        self.fulfilled_amount <= self.request_amount
    }

    /// Nothing has been met yet.
    pub open spec fn is_fresh(self) -> bool {
        self.fulfilled_amount == 0
    }

    /// The same request with another amount met.
    pub open spec fn with_fulfilled(self, amount: nat) -> TradeRequest {
        TradeRequest { fulfilled_amount: amount as u32, ..self }
    }

    /// Whether two requests ask for the same thing, whatever was met of each.
    pub open spec fn same_order(self, other: TradeRequest) -> bool {
        &&& self.trade_type == other.trade_type
        &&& self.resource_type == other.resource_type
        &&& self.request_amount == other.request_amount
    }
}

} // verus!
