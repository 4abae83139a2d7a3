pub mod market;
pub mod simulation_settings;
pub mod village_manager;

use vstd::prelude::*;
use crate::resource_map::ResourceMap;
use crate::simulation::market::{
    can_settle, headcount, lemma_same_orders, lemma_share_bound, lemma_volume_bound, ration,
    settle, settle_fits, settle_requests, settled_amount, tally, volume, Clearing, Quote,
};
use crate::simulation::village_manager::VillageManager;
use crate::village::resource::ResourceType;
use crate::village::worker::Worker;
use crate::village::Village;
use crate::village_mind::trade_request::{TradeRequest, TradeType};
use crate::village_mind::VillageMind;

verus! {

/// Which way the market last moved the price of a resource kind, and so
/// which way it believes the price has to go.
#[derive(Copy, Clone, PartialEq, Eq, Structural, Hash, Debug)]
pub enum PriceDirection {
    Upward,
    Downward,
    Equilibrium,
}

/// The price, in gold, at which every traded kind starts.
pub const STARTING_PRICE: u32 = 5;

/// The villages with their minds, and the market they trade on: for every
/// kind but gold a price in gold and the direction in which it last moved.
pub struct Simulation<D, Y> {
    village_managers: Vec<VillageManager<D, Y>>,
    pub prices: ResourceMap<u32>,
    pub price_directions: ResourceMap<PriceDirection>,
}

/// Whether a table has an entry for every traded kind and none for gold.
pub open spec fn covers_traded<T>(table: Map<ResourceType, T>) -> bool {
    &&& !table.contains_key(ResourceType::Gold)
    &&& table.contains_key(ResourceType::Food)
    &&& table.contains_key(ResourceType::Wood)
    &&& table.contains_key(ResourceType::Stone)
}

/// The position of a kind in the order in which the kinds are cleared.
spec fn ordinal(kind: ResourceType) -> int {
    match kind {
        ResourceType::Gold => 0,
        ResourceType::Food => 1,
        ResourceType::Wood => 2,
        ResourceType::Stone => 3,
    }
}

/// What a simulation holds, as plain values.
pub struct SimulationState<D, Y> {
    pub village_managers: Seq<VillageManager<D, Y>>,
    pub prices: Map<ResourceType, u32>,
    pub price_directions: Map<ResourceType, PriceDirection>,
}

impl<D, Y> View for Simulation<D, Y> {
    type V = SimulationState<D, Y>;

    closed spec fn view(&self) -> SimulationState<D, Y> {
        SimulationState {
            village_managers: self.village_managers@,
            prices: self.prices@,
            price_directions: self.price_directions@,
        }
    }
}

impl<D, Y> SimulationState<D, Y> {
    /// The market has a price of at least 1 and a direction for every
    /// traded kind, and neither for gold.
    pub open spec fn wf(self) -> bool {
        &&& covers_traded(self.prices)
        &&& covers_traded(self.price_directions)
        &&& self.prices[ResourceType::Food] >= 1
        &&& self.prices[ResourceType::Wood] >= 1
        &&& self.prices[ResourceType::Stone] >= 1
    }

    /// No villages and no market.
    pub open spec fn closed() -> Self {
        SimulationState {
            village_managers: Seq::empty(),
            prices: Map::empty(),
            price_directions: Map::empty(),
        }
    }

    /// No villages, and a market that holds every traded kind at the
    /// starting price and at rest.
    pub open spec fn opening() -> Self {
        let opened = Quote { price: STARTING_PRICE as nat, direction: PriceDirection::Equilibrium };
        Self::closed().with_quote(ResourceType::Food, opened).with_quote(
            ResourceType::Wood,
            opened,
        ).with_quote(ResourceType::Stone, opened)
    }

    /// As `opening`, with the market open for the first `done` kinds only.
    spec fn opening_up_to(done: int) -> Self {
        let opened = Quote { price: STARTING_PRICE as nat, direction: PriceDirection::Equilibrium };
        Self::closed().with_quote_if_done(ResourceType::Food, opened, done).with_quote_if_done(
            ResourceType::Wood,
            opened,
            done,
        ).with_quote_if_done(ResourceType::Stone, opened, done)
    }

    /// The state with the market's state for `kind` set to `quote`.
    pub open spec fn with_quote(self, kind: ResourceType, quote: Quote) -> Self {
        SimulationState {
            prices: self.prices.insert(kind, quote.price as u32),
            price_directions: self.price_directions.insert(kind, quote.direction),
            ..self
        }
    }

    /// The state with the market's state for `kind` set to `quote`, if
    /// `kind` is traded and among the first `done` kinds.
    spec fn with_quote_if_done(self, kind: ResourceType, quote: Quote, done: int) -> Self {
        if kind.is_traded() && ordinal(kind) < done {
            self.with_quote(kind, quote)
        } else {
            self
        }
    }

    /// Whether the market is well formed as far as it holds `kind`, if
    /// `kind` is among the first `done` kinds.
    spec fn kind_wf(self, kind: ResourceType, done: int) -> bool {
        ordinal(kind) < done ==> if kind.is_traded() {
            &&& self.prices.contains_key(kind)
            &&& self.price_directions.contains_key(kind)
            &&& self.prices[kind] >= 1
        } else {
            !self.prices.contains_key(kind) && !self.price_directions.contains_key(kind)
        }
    }

    /// The market's state for a traded kind.
    pub open spec fn quote(self, kind: ResourceType) -> Quote {
        Quote { price: self.prices[kind] as nat, direction: self.price_directions[kind] }
    }

    /// What clearing a batch does about a traded kind.
    pub open spec fn clearing(self, requests: Seq<TradeRequest>, kind: ResourceType) -> Clearing {
        Clearing::of_batch(requests, kind, self.quote(kind))
    }

    /// The market's state for a traded kind after a batch was cleared.
    pub open spec fn next_quote(self, requests: Seq<TradeRequest>, kind: ResourceType) -> Quote {
        self.clearing(requests, kind).next(self.quote(kind))
    }

    /// The state after the first `done` kinds were cleared on a batch.
    spec fn cleared_up_to(self, requests: Seq<TradeRequest>, done: int) -> Self {
        self.with_quote_if_done(
            ResourceType::Food,
            self.next_quote(requests, ResourceType::Food),
            done,
        ).with_quote_if_done(
            ResourceType::Wood,
            self.next_quote(requests, ResourceType::Wood),
            done,
        ).with_quote_if_done(
            ResourceType::Stone,
            self.next_quote(requests, ResourceType::Stone),
            done,
        )
    }

    /// The state after a batch was cleared: every traded kind has its next
    /// price and direction, and the villages are as before.
    pub open spec fn after_clearing(self, requests: Seq<TradeRequest>) -> Self {
        self.with_quote(
            ResourceType::Food,
            self.next_quote(requests, ResourceType::Food),
        ).with_quote(ResourceType::Wood, self.next_quote(requests, ResourceType::Wood)).with_quote(
            ResourceType::Stone,
            self.next_quote(requests, ResourceType::Stone),
        )
    }

    /// The state after a round of trading: the market is cleared on a batch
    /// that holds a request, and left as it is on one that holds none.
    pub open spec fn after_round(self, requests: Seq<TradeRequest>) -> Self {
        if requests.len() > 0 {
            self.after_clearing(requests)
        } else {
            self
        }
    }

    /// Request `i` of a batch after the first `done` kinds were cleared.
    spec fn request_up_to(self, requests: Seq<TradeRequest>, i: int, done: int) -> TradeRequest {
        if ordinal(requests[i].resource_type) < done {
            self.cleared_request(requests, i)
        } else {
            requests[i]
        }
    }

    /// Request `i` of a batch after the batch was cleared. A request for a
    /// traded kind goes by the clearing of its kind; one for gold is left alone.
    pub open spec fn cleared_request(self, requests: Seq<TradeRequest>, i: int) -> TradeRequest {
        let kind = requests[i].resource_type;
        if kind.is_traded() {
            requests[i].with_fulfilled(settled_amount(requests, i, self.clearing(requests, kind)))
        } else {
            requests[i]
        }
    }

    /// The batch after it was cleared.
    pub open spec fn cleared(self, requests: Seq<TradeRequest>) -> Seq<TradeRequest> {
        Seq::new(requests.len(), |i: int| self.cleared_request(requests, i))
    }

    /// Whether clearing the batch keeps every price within the numbers' range.
    pub open spec fn prices_fit(self, requests: Seq<TradeRequest>) -> bool {
        &&& self.next_quote(requests, ResourceType::Food).price <= u32::MAX
        &&& self.next_quote(requests, ResourceType::Wood).price <= u32::MAX
        &&& self.next_quote(requests, ResourceType::Stone).price <= u32::MAX
    }

    /// Whether clearing the batch keeps the price of `kind`, and what is
    /// met of every request for it, within the numbers' range.
    pub open spec fn kind_fits(self, requests: Seq<TradeRequest>, kind: ResourceType) -> bool {
        &&& self.next_quote(requests, kind).price <= u32::MAX
        &&& settle_fits(requests, kind, self.clearing(requests, kind))
    }

    /// Whether the clearing of a batch rations request `i`: whether the
    /// request shares with others on its side what the other side brought.
    pub open spec fn rations(self, requests: Seq<TradeRequest>, i: int) -> bool {
        let request = requests[i];
        &&& request.resource_type.is_traded()
        &&& self.clearing(requests, request.resource_type).rationed() == Some(request.trade_type)
    }

    /// Whether the clearing of a batch leaves request `i` as it is: it
    /// does where the request is for gold or the price of its kind moves.
    pub open spec fn leaves_alone(self, requests: Seq<TradeRequest>, i: int) -> bool {
        let request = requests[i];
        !request.resource_type.is_traded() || !self.clearing(
            requests,
            request.resource_type,
        ).settles()
    }

    /// Whether request `i` has room for what the clearing of the batch
    /// does to it: where it is left alone, no more was met of it before
    /// than it asks for; where it is rationed, what was met before and its
    /// share together are no more than it asks for.
    pub open spec fn has_room(self, requests: Seq<TradeRequest>, i: int) -> bool {
        &&& self.leaves_alone(requests, i) ==> requests[i].within_request()
        &&& self.rations(requests, i) ==> requests[i].fulfilled_amount + ration(requests, i)
            <= requests[i].request_amount
    }

    /// Whether the price of every traded kind is at rest.
    pub open spec fn at_rest(self) -> bool {
        &&& self.price_directions[ResourceType::Food] == PriceDirection::Equilibrium
        &&& self.price_directions[ResourceType::Wood] == PriceDirection::Equilibrium
        &&& self.price_directions[ResourceType::Stone] == PriceDirection::Equilibrium
    }

    /// The state after the market was cleared on each batch of a run in turn.
    pub open spec fn after_batches(self, batches: Seq<Seq<TradeRequest>>) -> Self
        decreases batches.len(),
    {
        if batches.len() == 0 {
            self
        } else {
            self.after_batches(batches.drop_last()).after_clearing(batches.last())
        }
    }

    /// Whether every clearing of the run keeps every price within the
    /// numbers' range.
    pub open spec fn batches_fit(self, batches: Seq<Seq<TradeRequest>>) -> bool
        decreases batches.len(),
    {
        batches.len() > 0 ==> {
            &&& self.batches_fit(batches.drop_last())
            &&& self.after_batches(batches.drop_last()).prices_fit(batches.last())
        }
    }

    /// The state after the market was cleared `times` times on no request at all.
    pub open spec fn after_idle_clearings(self, times: nat) -> Self
        decreases times,
    {
        if times == 0 {
            self
        } else {
            self.after_idle_clearings((times - 1) as nat).after_clearing(Seq::empty())
        }
    }

    /// Whether clearing the batch keeps every price, and what is met of
    /// every request, within the numbers' range.
    pub open spec fn clearing_fits(self, requests: Seq<TradeRequest>) -> bool {
        &&& self.kind_fits(requests, ResourceType::Food)
        &&& self.kind_fits(requests, ResourceType::Wood)
        &&& self.kind_fits(requests, ResourceType::Stone)
    }
}

impl<D, Y> Simulation<D, Y> {
    /// A simulation without villages, in which every traded kind costs the
    /// starting price and its price is at rest.
    pub fn new() -> (simulation: Simulation<D, Y>)
        ensures
            simulation@.wf(),
            simulation@ == SimulationState::<D, Y>::opening(),
    {
        let mut simulation = Simulation {
            village_managers: Vec::new(),
            prices: ResourceMap::new(),
            price_directions: ResourceMap::new(),
        };
        let kinds = ResourceType::iterator();
        let mut k: usize = 0;
        while k < kinds.len()
            invariant
                k <= kinds.len(),
                kinds@ == ResourceType::all(),
                simulation@ == SimulationState::<D, Y>::opening_up_to(k as int),
            decreases kinds.len() - k,
        {
            let kind = kinds[k];
            assert(ordinal(kind) == k);
            if kind != ResourceType::Gold {
                simulation.prices.insert(kind, STARTING_PRICE);
                simulation.price_directions.insert(kind, PriceDirection::Equilibrium);
            }
            k = k + 1;
        }
        simulation
    }

    /// The villages with their minds, in the order in which they were added.
    pub fn village_managers(&self) -> (managers: &Vec<VillageManager<D, Y>>)
        ensures
            managers@ == self@.village_managers,
    {
        &self.village_managers
    }

    /// The price of a kind in gold. Gold itself has none.
    pub fn price(&self, resource_type: ResourceType) -> (price: Option<u32>)
        ensures
            price == (if self@.prices.contains_key(resource_type) {
                Some(self@.prices[resource_type])
            } else {
                None
            }),
    {
        match self.prices.get(&resource_type) {
            Some(price) => Some(*price),
            None => None,
        }
    }

    /// The direction in which the price of a kind last moved. Gold has none.
    pub fn price_direction(&self, resource_type: ResourceType) -> (direction: Option<
        PriceDirection,
    >)
        ensures
            direction == (if self@.price_directions.contains_key(resource_type) {
                Some(self@.price_directions[resource_type])
            } else {
                None
            }),
    {
        match self.price_directions.get(&resource_type) {
            Some(direction) => Some(*direction),
            None => None,
        }
    }

    /// Tells whether the market is well formed.
    pub fn is_well_formed(&self) -> (sound: bool)
        ensures
            sound == self@.wf(),
    {
        let kinds = ResourceType::iterator();
        let mut k: usize = 0;
        while k < kinds.len()
            invariant
                k <= kinds.len(),
                kinds@ == ResourceType::all(),
                self@.kind_wf(ResourceType::Gold, k as int),
                self@.kind_wf(ResourceType::Food, k as int),
                self@.kind_wf(ResourceType::Wood, k as int),
                self@.kind_wf(ResourceType::Stone, k as int),
            decreases kinds.len() - k,
        {
            let kind = kinds[k];
            assert(ordinal(kind) == k);
            let price = self.prices.get(&kind);
            let direction = self.price_directions.get(&kind);
            let sound = if kind == ResourceType::Gold {
                price.is_none() && direction.is_none()
            } else {
                direction.is_some() && match price {
                    Some(price) => *price >= 1,
                    None => false,
                }
            };
            if !sound {
                return false;
            }
            k = k + 1;
        }
        true
    }

    /// Tells whether the market can be cleared on a batch: whether every
    /// price, and what is met of every request, stays within the numbers' range.
    pub fn can_handle_trades(&self, trade_requests: &Vec<TradeRequest>) -> (fits: bool)
        requires
            self@.wf(),
        ensures
            fits == self@.clearing_fits(trade_requests@),
    {
        let kinds = ResourceType::iterator();
        let mut k: usize = 0;
        while k < kinds.len()
            invariant
                k <= kinds.len(),
                kinds@ == ResourceType::all(),
                self@.wf(),
                1 < k ==> self@.kind_fits(trade_requests@, ResourceType::Food),
                2 < k ==> self@.kind_fits(trade_requests@, ResourceType::Wood),
                3 < k ==> self@.kind_fits(trade_requests@, ResourceType::Stone),
            decreases kinds.len() - k,
        {
            let kind = kinds[k];
            assert(ordinal(kind) == k);
            if kind != ResourceType::Gold {
                let totals = tally(trade_requests, kind);
                let price = *self.prices.get(&kind).unwrap();
                let direction = *self.price_directions.get(&kind).unwrap();
                let clearing = Clearing::decide(totals.buys, totals.sells, direction, price);
                if clearing == Clearing::Raise && price == u32::MAX {
                    return false;
                }
                if !can_settle(trade_requests, kind, clearing, &totals) {
                    return false;
                }
            }
            k = k + 1;
        }
        true
    }

    /// Clears one traded kind: decides from the two volumes and the kind's
    /// state, moves the price or writes what is met, and sets the direction.
    fn clear_kind(&mut self, requests: &mut Vec<TradeRequest>, kind: ResourceType)
        requires
            old(self)@.wf(),
            kind.is_traded(),
            old(self)@.kind_fits(old(requests)@, kind),
        ensures
            final(self)@.wf(),
            final(self)@ == old(self)@.with_quote(
                kind,
                old(self)@.next_quote(old(requests)@, kind),
            ),
            final(requests)@ == settle(
                old(requests)@,
                kind,
                old(self)@.clearing(old(requests)@, kind),
            ),
    {
        let totals = tally(requests, kind);
        let price = *self.prices.get(&kind).unwrap();
        let direction = *self.price_directions.get(&kind).unwrap();
        let clearing = Clearing::decide(totals.buys, totals.sells, direction, price);
        match clearing {
            Clearing::Raise => {
                self.price_directions.insert(kind, PriceDirection::Upward);
                self.prices.insert(kind, price + 1);
                assert(requests@ =~= settle(requests@, kind, clearing));
            },
            Clearing::Lower => {
                self.price_directions.insert(kind, PriceDirection::Downward);
                self.prices.insert(kind, price - 1);
                assert(requests@ =~= settle(requests@, kind, clearing));
            },
            _ => {
                settle_requests(requests, kind, clearing, &totals);
                self.price_directions.insert(kind, PriceDirection::Equilibrium);
                assert(self@.prices =~= old(self)@.prices.insert(kind, price));
            },
        }
    }

    /// Clears the market on a batch of requests. Every kind but gold is
    /// cleared by itself, from what the requests for it ask and offer in
    /// all. Where the two are equal every request for the kind is met in
    /// full. Where one side is in excess the price moves one unit towards
    /// it and nothing is met, unless the price was moving the other way or
    /// stands at its floor of 1: then the short side is met in full and the
    /// long side shares what the short side brought, and the price rests.
    pub fn handle_trades(&mut self, trade_requests: &mut Vec<TradeRequest>)
        requires
            old(self)@.wf(),
            old(self)@.clearing_fits(old(trade_requests)@),
        ensures
            final(self)@.wf(),
            final(self)@ == old(self)@.after_clearing(old(trade_requests)@),
            final(trade_requests)@ == old(self)@.cleared(old(trade_requests)@),
    {
        let ghost before = trade_requests@;
        let kinds = ResourceType::iterator();
        let mut k: usize = 0;
        while k < kinds.len()
            invariant
                k <= kinds.len(),
                kinds@ == ResourceType::all(),
                before == old(trade_requests)@,
                old(self)@.wf(),
                old(self)@.clearing_fits(before),
                self@.wf(),
                self@ == old(self)@.cleared_up_to(before, k as int),
                trade_requests@.len() == before.len(),
                forall|i: int|
                    0 <= i < before.len() ==> #[trigger] trade_requests@[i] == old(
                        self,
                    )@.request_up_to(before, i, k as int),
            decreases kinds.len() - k,
        {
            let kind = kinds[k];
            assert(ordinal(kind) == k);
            if kind != ResourceType::Gold {
                let ghost current = trade_requests@;
                let ghost clearing = old(self)@.clearing(before, kind);
                proof {
                    assert(self@.quote(kind) == old(self)@.quote(kind));
                    assert(old(self)@.kind_fits(before, kind));
                    assert forall|i: int| 0 <= i < before.len() implies (
                    #[trigger] current[i]).same_order(before[i]) by {}
                    lemma_settle_agrees(current, before, kind, clearing);
                    assert(self@.clearing(current, kind) == clearing);
                }
                self.clear_kind(trade_requests, kind);
                proof {
                    assert forall|i: int|
                        0 <= i < before.len() implies #[trigger] trade_requests@[i] == old(
                        self,
                    )@.request_up_to(before, i, k + 1) by {
                        assert(trade_requests@[i] == settle(current, kind, clearing)[i]);
                    }
                }
            }
            k = k + 1;
        }
        assert(trade_requests@ =~= old(self)@.cleared(before));
    }
}

impl<D, Y> Simulation<D, Y> {
    /// One round of trading on the requests that the minds brought. A
    /// round without a request ends the trading and changes nothing. On
    /// any other the market is cleared, and the trading goes on with what
    /// the minds bring next.
    pub fn trading_round(&mut self, trade_requests: &mut Vec<TradeRequest>) -> (goes_on: bool)
        requires
            old(self)@.wf(),
            old(trade_requests)@.len() > 0 ==> old(self)@.clearing_fits(old(trade_requests)@),
        ensures
            final(self)@.wf(),
            goes_on == (old(trade_requests)@.len() > 0),
            final(self)@ == old(self)@.after_round(old(trade_requests)@),
            final(trade_requests)@ == old(self)@.cleared(old(trade_requests)@),
    {
        if trade_requests.len() == 0 {
            assert(trade_requests@ =~= self@.cleared(trade_requests@));
            false
        } else {
            self.handle_trades(trade_requests);
            true
        }
    }
}

impl<D: Fn(&Worker) -> bool, A, Y: Fn(u32) -> A> Simulation<D, Y> {
    /// Whether every village is well formed.
    pub open spec fn villages_wf(&self) -> bool {
        forall|i: int|
            0 <= i < self@.village_managers.len() ==> (
            #[trigger] self@.village_managers[i]).village.wf()
    }

    /// Whether every village can go through a tick.
    pub open spec fn ticks_fit(&self) -> bool {
        forall|i: int|
            0 <= i < self@.village_managers.len() ==> (
            #[trigger] self@.village_managers[i]).village.tick_fits()
    }

    /// Tells whether every village can go through a tick.
    pub fn can_simulate(&self) -> (fits: bool)
        requires
            self.villages_wf(),
        ensures
            fits == self.ticks_fit(),
    {
        let mut i: usize = 0;
        while i < self.village_managers.len()
            invariant
                i <= self.village_managers.len(),
                self.villages_wf(),
                forall|j: int|
                    0 <= j < i ==> (#[trigger] self@.village_managers[j]).village.tick_fits(),
            decreases self.village_managers.len() - i,
        {
            assert(self@.village_managers[i as int].village.wf());
            if !self.village_managers[i].village.can_simulate() {
                return false;
            }
            i = i + 1;
        }
        true
    }

    /// Takes a village in, with a mind of its own.
    pub fn add_village(&mut self, village: Village<D, Y>)
        ensures
            final(self)@ == (SimulationState {
                village_managers: old(self)@.village_managers.push(
                    VillageManager { village, village_mind: VillageMind {  } },
                ),
                ..old(self)@
            }),
            old(self).villages_wf() && village.wf() ==> final(self).villages_wf(),
    {
        let village_manager = VillageManager { village, village_mind: VillageMind::new() };
        self.village_managers.push(village_manager);
    }

    /// One tick of the whole simulation. Every village goes through its
    /// own tick and is managed by its mind. Then the minds trade: round
    /// after round the requests of all of them are gathered and the market
    /// is cleared on them, until a round brings no request. At last every
    /// mind manages its village once more. The yields of the villages'
    /// ticks are returned, one list for each village.
    ///
    /// The minds of this library ask for no trade, so the first round is
    /// the last and the market stays as it is.
    pub fn simulate(&mut self) -> (harvests: Vec<Vec<(ResourceType, A)>>)
        requires
            old(self)@.wf(),
            old(self).villages_wf(),
            old(self).ticks_fit(),
        ensures
            final(self)@.wf(),
            final(self).villages_wf(),
            final(self)@.prices == old(self)@.prices,
            final(self)@.price_directions == old(self)@.price_directions,
            final(self)@.village_managers.len() == old(self)@.village_managers.len(),
            harvests@.len() == old(self)@.village_managers.len(),
            forall|i: int|
                0 <= i < harvests@.len() ==> {
                    &&& (#[trigger] final(self)@.village_managers[i]).village.wf()
                    &&& old(self)@.village_managers[i].village@.ticks_to(
                        final(self)@.village_managers[i].village@,
                        harvests@[i]@,
                    )
                    &&& final(self)@.village_managers[i].village_mind == old(
                        self,
                    )@.village_managers[i].village_mind
                },
    {
        let mut harvests: Vec<Vec<(ResourceType, A)>> = Vec::new();
        let mut i: usize = 0;
        while i < self.village_managers.len()
            invariant
                i <= self.village_managers.len(),
                self@.prices == old(self)@.prices,
                self@.price_directions == old(self)@.price_directions,
                self@.village_managers.len() == old(self)@.village_managers.len(),
                old(self).villages_wf(),
                old(self).ticks_fit(),
                harvests@.len() == i,
                forall|j: int|
                    0 <= j < i ==> {
                        &&& (#[trigger] self@.village_managers[j]).village.wf()
                        &&& old(self)@.village_managers[j].village@.ticks_to(
                            self@.village_managers[j].village@,
                            harvests@[j]@,
                        )
                        &&& self@.village_managers[j].village_mind == old(
                            self,
                        )@.village_managers[j].village_mind
                    },
                forall|j: int|
                    i <= j < self@.village_managers.len() ==> #[trigger] self@.village_managers[j]
                        == old(self)@.village_managers[j],
            decreases self.village_managers.len() - i,
        {
            assert(old(self)@.village_managers[i as int].village.wf());
            assert(old(self)@.village_managers[i as int].village.tick_fits());
            let manager = &mut self.village_managers[i];
            let harvest = manager.village.simulate();
            manager.village_mind.manage_village(&mut manager.village);
            harvests.push(harvest);
            i = i + 1;
        }
        let ghost ticked = self@;
        let mut trading = true;
        while trading
            invariant
                self@ == ticked,
                ticked.wf(),
            decreases
                    (if trading {
                        1int
                    } else {
                        0int
                    }),
        {
            let mut trade_requests: Vec<TradeRequest> = Vec::new();
            let mut m: usize = 0;
            while m < self.village_managers.len()
                invariant
                    m <= self.village_managers.len(),
                    self@ == ticked,
                    trade_requests@ == Seq::<TradeRequest>::empty(),
                decreases self.village_managers.len() - m,
            {
                let manager = &mut self.village_managers[m];
                let mut wanted = manager.village_mind.trade(&mut manager.village);
                trade_requests.append(&mut wanted);
                assert(self@.village_managers =~= ticked.village_managers);
                m = m + 1;
            }
            trading = self.trading_round(&mut trade_requests);
        }
        let mut n: usize = 0;
        while n < self.village_managers.len()
            invariant
                n <= self.village_managers.len(),
                self@ == ticked,
            decreases self.village_managers.len() - n,
        {
            let manager = &mut self.village_managers[n];
            manager.village_mind.manage_village(&mut manager.village);
            assert(self@.village_managers =~= ticked.village_managers);
            n = n + 1;
        }
        harvests
    }
}

/// Clearing a kind goes by what the requests ask for and by what was met
/// of the requests for that kind before. A batch that another batch
/// agrees with in both is cleared like it.
proof fn lemma_settle_agrees(
    current: Seq<TradeRequest>,
    before: Seq<TradeRequest>,
    kind: ResourceType,
    clearing: Clearing,
)
    requires
        current.len() == before.len(),
        forall|i: int| 0 <= i < before.len() ==> (#[trigger] current[i]).same_order(before[i]),
        forall|i: int|
            0 <= i < before.len() && before[i].resource_type == kind ==> (
            #[trigger] current[i]).fulfilled_amount == before[i].fulfilled_amount,
    ensures
        forall|quote: Quote|
            Clearing::of_batch(current, kind, quote) == Clearing::of_batch(before, kind, quote),
        forall|i: int|
            0 <= i < before.len() && before[i].resource_type == kind ==> #[trigger] settled_amount(
                current,
                i,
                clearing,
            ) == settled_amount(before, i, clearing),
        settle_fits(before, kind, clearing) ==> settle_fits(current, kind, clearing),
{
    lemma_same_orders(current, before, kind, TradeType::Buy);
    lemma_same_orders(current, before, kind, TradeType::Sell);
    assert forall|i: int|
        0 <= i < before.len() && before[i].resource_type == kind implies #[trigger] settled_amount(
        current,
        i,
        clearing,
    ) == settled_amount(before, i, clearing) by {
        lemma_same_orders(
            current.take(i),
            before.take(i),
            kind,
            TradeType::Buy,
        );
        lemma_same_orders(
            current.take(i),
            before.take(i),
            kind,
            TradeType::Sell,
        );
    }
}

/// After a clearing no more is met of a request than it asks for, as
/// long as the request had room for what the clearing does to it.
pub proof fn lemma_fulfilled_within_requested<D, Y>(
    state: SimulationState<D, Y>,
    requests: Seq<TradeRequest>,
)
    requires
        forall|i: int| 0 <= i < requests.len() ==> #[trigger] state.has_room(requests, i),
    ensures
        forall|i: int|
            0 <= i < requests.len() ==> (#[trigger] state.cleared(requests)[i]).within_request(),
{
    assert forall|i: int| 0 <= i < requests.len() implies (#[trigger] state.cleared(
        requests,
    )[i]).within_request() by {
        assert(state.has_room(requests, i));
    }
}

/// A request without room for what a clearing does to it ends with more
/// met than it asks for.
pub proof fn lemma_fulfilled_beyond_requested<D, Y>(
    state: SimulationState<D, Y>,
    requests: Seq<TradeRequest>,
    i: int,
)
    requires
        0 <= i < requests.len(),
        settled_amount(requests, i, state.clearing(requests, requests[i].resource_type))
            <= u32::MAX,
        !state.has_room(requests, i),
    ensures
        !state.cleared(requests)[i].within_request(),
{
}

/// Through any run of clearings that keep the prices within the numbers'
/// range, the market stays well formed: no price is ever below 1.
pub proof fn lemma_prices_stay_positive<D, Y>(
    state: SimulationState<D, Y>,
    batches: Seq<Seq<TradeRequest>>,
)
    requires
        state.wf(),
        state.batches_fit(batches),
    ensures
        state.after_batches(batches).wf(),
    decreases batches.len(),
{
    if batches.len() > 0 {
        lemma_prices_stay_positive(state, batches.drop_last());
    }
}

/// Where as much of a kind is asked for as is offered, nothing at all
/// for one, the clearing meets every request for the kind in full, keeps
/// the kind's price and brings it to rest.
pub proof fn lemma_balanced_kind_is_met<D, Y>(
    state: SimulationState<D, Y>,
    requests: Seq<TradeRequest>,
    kind: ResourceType,
)
    requires
        kind.is_traded(),
        volume(requests, kind, TradeType::Buy) == volume(requests, kind, TradeType::Sell),
    ensures
        forall|i: int|
            0 <= i < requests.len() && requests[i].resource_type == kind ==> (
            #[trigger] state.cleared(requests)[i]).fulfilled_amount == requests[i].request_amount,
        state.after_clearing(requests).price_directions[kind] == PriceDirection::Equilibrium,
        state.after_clearing(requests).prices[kind] == state.prices[kind],
{
}

/// Clearing the market on no request at all keeps every price and brings
/// every price to rest. So a market at rest is left as it is, and after
/// the first such clearing any number of further ones change nothing.
pub proof fn lemma_idle_clearings<D, Y>(state: SimulationState<D, Y>, times: nat)
    requires
        state.wf(),
    ensures
        state.after_idle_clearings(times).prices == state.prices,
        state.after_idle_clearings(times).village_managers == state.village_managers,
        state.after_idle_clearings(times).wf(),
        times > 0 ==> state.after_idle_clearings(times).at_rest(),
        times > 0 ==> state.after_idle_clearings(times) == state.after_idle_clearings(1),
        state.at_rest() ==> state.after_idle_clearings(times) == state,
    decreases times,
{
    reveal_with_fuel(SimulationState::after_idle_clearings, 2);
    if times > 0 {
        let earlier = state.after_idle_clearings((times - 1) as nat);
        lemma_idle_clearings(state, (times - 1) as nat);
        let later = earlier.after_clearing(Seq::empty());
        assert(later.prices =~= earlier.prices);
        if earlier.at_rest() {
            assert(later.price_directions =~= earlier.price_directions);
        }
    }
}

/// A batch of requests of which nothing was met yet can be cleared as
/// long as no price stands at the end of the numbers' range.
pub proof fn lemma_fresh_batch_fits<D, Y>(state: SimulationState<D, Y>, requests: Seq<TradeRequest>)
    requires
        state.prices[ResourceType::Food] < u32::MAX,
        state.prices[ResourceType::Wood] < u32::MAX,
        state.prices[ResourceType::Stone] < u32::MAX,
        forall|i: int| 0 <= i < requests.len() ==> (#[trigger] requests[i]).is_fresh(),
    ensures
        state.clearing_fits(requests),
{
    assert forall|kind: ResourceType, i: int|
        kind.is_traded() && 0 <= i < requests.len() && requests[i].resource_type
            == kind implies #[trigger] settled_amount(requests, i, state.clearing(requests, kind))
        <= u32::MAX by {
        assert(requests[i].is_fresh());
        let side = requests[i].trade_type;
        lemma_volume_bound(requests, kind, side);
        if state.clearing(requests, kind).rationed() == Some(side) {
            lemma_share_bound(
                volume(requests, kind, side.opposite()),
                headcount(requests, kind, side),
                headcount(requests.take(i), kind, side),
            );
        }
    }
    assert(settle_fits(
        requests,
        ResourceType::Food,
        state.clearing(requests, ResourceType::Food),
    ));
    assert(settle_fits(
        requests,
        ResourceType::Wood,
        state.clearing(requests, ResourceType::Wood),
    ));
    assert(settle_fits(
        requests,
        ResourceType::Stone,
        state.clearing(requests, ResourceType::Stone),
    ));
}

} // verus!
