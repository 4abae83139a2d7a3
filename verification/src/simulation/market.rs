use vstd::prelude::*;
use crate::simulation::PriceDirection;
use crate::village::resource::ResourceType;
use crate::village_mind::trade_request::{TradeRequest, TradeType};

verus! {

/// The market's state for one resource kind.
pub struct Quote {
    pub price: nat,
    pub direction: PriceDirection,
}

impl Quote {
    /// The state after a clearing in which `buys` units were asked for and
    /// `sells` units offered.
    pub open spec fn after(self, buys: nat, sells: nat) -> Quote {
        Clearing::of(buys, sells, self).next(self)
    }

    /// The state after a run of clearings, each given by the volume asked
    /// for and the volume offered.
    pub open spec fn after_rounds(self, rounds: Seq<(nat, nat)>) -> Quote
        decreases rounds.len(),
    {
        if rounds.len() == 0 {
            self
        } else {
            self.after_rounds(rounds.drop_last()).after(rounds.last().0, rounds.last().1)
        }
    }
}

/// What one clearing call does about one resource kind.
#[derive(Copy, Clone, PartialEq, Eq, Structural, Debug)]
pub enum Clearing {
    /// Demand equals supply: every request is met in full.
    Balanced,
    /// Excess demand while the price is not falling: the price rises, nothing is met.
    Raise,
    /// Excess supply while the price is not rising and above the floor: the
    /// price falls, nothing is met.
    Lower,
    /// Excess demand after a falling price: sellers are met in full, buyers share the supply.
    RationBuyers,
    /// Excess supply after a rising price, or at the price floor: buyers are
    /// met in full, sellers share the demand.
    RationSellers,
}

/// The sum of the amounts asked for by the requests for `kind` on `side`.
pub open spec fn volume(requests: Seq<TradeRequest>, kind: ResourceType, side: TradeType) -> nat
    decreases requests.len(),
{
    if requests.len() == 0 {
        0
    } else {
        volume(requests.drop_last(), kind, side) + if requests.last().on_side(kind, side) {
            requests.last().request_amount as nat
        } else {
            0
        }
    }
}

/// The number of requests for `kind` on `side`.
pub open spec fn headcount(requests: Seq<TradeRequest>, kind: ResourceType, side: TradeType) -> nat
    decreases requests.len(),
{
    if requests.len() == 0 {
        0
    } else {
        headcount(requests.drop_last(), kind, side) + if requests.last().on_side(kind, side) {
            1nat
        } else {
            0
        }
    }
}

/// What the request of rank `rank` among `heads` receives when `total`
/// units are dealt out one at a time, round after round in rank order:
/// the even part, and one unit of the remainder for the first ranks.
pub open spec fn share(total: nat, heads: nat, rank: nat) -> nat {
    if heads == 0 {
        0
    } else {
        total / heads + if rank < total % heads {
            1nat
        } else {
            0
        }
    }
}

impl Clearing {
    /// The decision for a kind with `buys` units asked and `sells` units
    /// offered, while the market holds `quote` for it.
    pub open spec fn of(buys: nat, sells: nat, quote: Quote) -> Clearing {
        if buys == sells {
            Clearing::Balanced
        } else if buys > sells {
            if quote.direction == PriceDirection::Downward {
                Clearing::RationBuyers
            } else {
                Clearing::Raise
            }
        } else {
            if quote.direction != PriceDirection::Upward && quote.price > 1 {
                Clearing::Lower
            } else {
                Clearing::RationSellers
            }
        }
    }

    /// The decision for `kind` on a whole batch of requests.
    pub open spec fn of_batch(requests: Seq<TradeRequest>, kind: ResourceType, quote: Quote)
        -> Clearing {
        Clearing::of(
            volume(requests, kind, TradeType::Buy),
            volume(requests, kind, TradeType::Sell),
            quote,
        )
    }

    /// The side whose requests share what the other side brought, if any does.
    pub open spec fn rationed(self) -> Option<TradeType> {
        match self {
            Clearing::RationBuyers => Some(TradeType::Buy),
            Clearing::RationSellers => Some(TradeType::Sell),
            _ => None,
        }
    }

    /// Whether requests are written to at all.
    pub open spec fn settles(self) -> bool {
        self != Clearing::Raise && self != Clearing::Lower
    }

    /// The market's state for the kind after the call.
    pub open spec fn next(self, quote: Quote) -> Quote {
        match self {
            Clearing::Raise => Quote {
                price: quote.price + 1,
                direction: PriceDirection::Upward,
            },
            Clearing::Lower => Quote {
                price: (quote.price - 1) as nat,
                direction: PriceDirection::Downward,
            },
            _ => Quote { price: quote.price, direction: PriceDirection::Equilibrium },
        }
    }

    /// Decides what to do about a kind from the two volumes and the kind's state.
    pub fn decide(buys: u128, sells: u128, direction: PriceDirection, price: u32) -> (clearing:
        Clearing)
        ensures
            clearing == Clearing::of(
                buys as nat,
                sells as nat,
                Quote { price: price as nat, direction },
            ),
    {
        if buys == sells {
            Clearing::Balanced
        } else if buys > sells {
            if direction == PriceDirection::Downward {
                Clearing::RationBuyers
            } else {
                Clearing::Raise
            }
        } else if direction != PriceDirection::Upward && price > 1 {
            Clearing::Lower
        } else {
            Clearing::RationSellers
        }
    }
}

/// The share of request `i` when the requests for its kind on its side
/// are rationed: they share what the other side brought, and the rank of
/// a request is the number of such requests before it in the batch.
pub open spec fn ration(requests: Seq<TradeRequest>, i: int) -> nat {
    let request = requests[i];
    share(
        volume(requests, request.resource_type, request.trade_type.opposite()),
        headcount(requests, request.resource_type, request.trade_type),
        headcount(requests.take(i), request.resource_type, request.trade_type),
    )
}

/// The amount met of request `i` once its kind was cleared as `clearing`.
/// A rationed request keeps what was met before and adds its share.
pub open spec fn settled_amount(requests: Seq<TradeRequest>, i: int, clearing: Clearing) -> nat {
    let request = requests[i];
    if !clearing.settles() {
        request.fulfilled_amount as nat
    } else if clearing.rationed() == Some(request.trade_type) {
        request.fulfilled_amount as nat + ration(requests, i)
    } else {
        request.request_amount as nat
    }
}

/// The batch after `kind` was cleared as `clearing`: requests for other
/// kinds are as before.
pub open spec fn settle(requests: Seq<TradeRequest>, kind: ResourceType, clearing: Clearing) -> Seq<
    TradeRequest,
> {
    Seq::new(
        requests.len(),
        |i: int|
            if requests[i].resource_type == kind {
                requests[i].with_fulfilled(settled_amount(requests, i, clearing))
            } else {
                requests[i]
            },
    )
}

/// Whether every amount that `settle` writes fits the field it is written to.
pub open spec fn settle_fits(requests: Seq<TradeRequest>, kind: ResourceType, clearing: Clearing)
    -> bool {
    forall|i: int|
        0 <= i < requests.len() && requests[i].resource_type == kind ==> #[trigger] settled_amount(
            requests,
            i,
            clearing,
        ) <= u32::MAX
}

/// The two volumes and the two headcounts of one kind in a batch.
pub struct Tally {
    pub buys: u128,
    pub sells: u128,
    pub buyers: usize,
    pub sellers: usize,
}

impl Tally {
    /// Whether the four numbers are those of `kind` in `requests`.
    pub open spec fn counts(self, requests: Seq<TradeRequest>, kind: ResourceType) -> bool {
        &&& self.buys == volume(requests, kind, TradeType::Buy)
        &&& self.sells == volume(requests, kind, TradeType::Sell)
        &&& self.buyers == headcount(requests, kind, TradeType::Buy)
        &&& self.sellers == headcount(requests, kind, TradeType::Sell)
    }
}

/// A prefix that is one request longer adds that request's part to the
/// volume and to the headcount.
pub proof fn lemma_prefix_step(
    requests: Seq<TradeRequest>,
    i: int,
    kind: ResourceType,
    side: TradeType,
)
    requires
        0 <= i < requests.len(),
    ensures
        volume(requests.take(i + 1), kind, side) == volume(requests.take(i), kind, side)
            + if requests[i].on_side(kind, side) {
            requests[i].request_amount as nat
        } else {
            0
        },
        headcount(requests.take(i + 1), kind, side) == headcount(requests.take(i), kind, side)
            + if requests[i].on_side(kind, side) {
            1nat
        } else {
            0
        },
{
    assert(requests.take(i + 1).drop_last() =~= requests.take(i));
    assert(requests.take(i + 1).last() == requests[i]);
}

/// Adds up what the requests for `kind` ask for on each side, and counts them.
pub fn tally(requests: &Vec<TradeRequest>, kind: ResourceType) -> (result: Tally)
    ensures
        result.counts(requests@, kind),
{
    let mut result = Tally { buys: 0, sells: 0, buyers: 0, sellers: 0 };
    let mut i: usize = 0;
    while i < requests.len()
        invariant
            i <= requests.len(),
            result.counts(requests@.take(i as int), kind),
            result.buys <= i * 0xFFFF_FFFF,
            result.sells <= i * 0xFFFF_FFFF,
            result.buyers <= i,
            result.sellers <= i,
        decreases requests.len() - i,
    {
        proof {
            lemma_prefix_step(requests@, i as int, kind, TradeType::Buy);
            lemma_prefix_step(requests@, i as int, kind, TradeType::Sell);
        }
        if requests[i].resource_type == kind {
            if requests[i].trade_type == TradeType::Buy {
                result.buys = result.buys + requests[i].request_amount as u128;
                result.buyers = result.buyers + 1;
            } else {
                result.sells = result.sells + requests[i].request_amount as u128;
                result.sellers = result.sellers + 1;
            }
        }
        i = i + 1;
    }
    assert(requests@.take(i as int) =~= requests@);
    result
}

/// Computes `share`. A share is never more than there is to share.
pub fn share_of(total: u128, heads: usize, rank: usize) -> (portion: u128)
    ensures
        portion == share(total as nat, heads as nat, rank as nat),
        portion <= total,
{
    if heads == 0 {
        0
    } else {
        let base = total / (heads as u128);
        let extra = total % (heads as u128);
        if (rank as u128) < extra {
            assert(base < total) by (nonlinear_arith)
                requires
                    heads >= 1,
                    extra >= 1,
                    base == total / (heads as u128),
                    extra == total % (heads as u128),
            ;
            base + 1
        } else {
            base
        }
    }
}

/// Tells whether `settle_requests` can write every amount it has to.
pub fn can_settle(
    requests: &Vec<TradeRequest>,
    kind: ResourceType,
    clearing: Clearing,
    tally: &Tally,
) -> (fits: bool)
    requires
        tally.counts(requests@, kind),
    ensures
        fits == settle_fits(requests@, kind, clearing),
{
    let mut buyers_seen: usize = 0;
    let mut sellers_seen: usize = 0;
    let mut i: usize = 0;
    while i < requests.len()
        invariant
            i <= requests.len(),
            tally.counts(requests@, kind),
            buyers_seen == headcount(requests@.take(i as int), kind, TradeType::Buy),
            sellers_seen == headcount(requests@.take(i as int), kind, TradeType::Sell),
            buyers_seen <= i,
            sellers_seen <= i,
            forall|j: int|
                0 <= j < i && requests@[j].resource_type == kind ==> #[trigger] settled_amount(
                    requests@,
                    j,
                    clearing,
                ) <= u32::MAX,
        decreases requests.len() - i,
    {
        proof {
            lemma_prefix_step(requests@, i as int, kind, TradeType::Buy);
            lemma_prefix_step(requests@, i as int, kind, TradeType::Sell);
            lemma_volume_bound(requests@, kind, TradeType::Buy);
            lemma_volume_bound(requests@, kind, TradeType::Sell);
        }
        if requests[i].resource_type == kind {
            let is_buy = requests[i].trade_type == TradeType::Buy;
            let portion = match clearing {
                Clearing::RationBuyers => if is_buy {
                    share_of(tally.sells, tally.buyers, buyers_seen)
                } else {
                    0
                },
                Clearing::RationSellers => if is_buy {
                    0
                } else {
                    share_of(tally.buys, tally.sellers, sellers_seen)
                },
                _ => 0,
            };
            if requests[i].fulfilled_amount as u128 + portion > u32::MAX as u128 {
                assert(settled_amount(requests@, i as int, clearing) > u32::MAX);
                return false;
            }
            if is_buy {
                buyers_seen = buyers_seen + 1;
            } else {
                sellers_seen = sellers_seen + 1;
            }
        }
        i = i + 1;
    }
    true
}

/// Writes to every request for `kind` the amount that `clearing` meets of it.
pub fn settle_requests(
    requests: &mut Vec<TradeRequest>,
    kind: ResourceType,
    clearing: Clearing,
    tally: &Tally,
)
    requires
        tally.counts(old(requests)@, kind),
        settle_fits(old(requests)@, kind, clearing),
    ensures
        final(requests)@ == settle(old(requests)@, kind, clearing),
{
    let ghost before = requests@;
    let mut buyers_seen: usize = 0;
    let mut sellers_seen: usize = 0;
    let mut i: usize = 0;
    while i < requests.len()
        invariant
            i <= requests.len(),
            requests@.len() == before.len(),
            tally.counts(before, kind),
            settle_fits(before, kind, clearing),
            buyers_seen == headcount(before.take(i as int), kind, TradeType::Buy),
            sellers_seen == headcount(before.take(i as int), kind, TradeType::Sell),
            buyers_seen <= i,
            sellers_seen <= i,
            forall|j: int| 0 <= j < i ==> requests@[j] == settle(before, kind, clearing)[j],
            forall|j: int| i <= j < before.len() ==> requests@[j] == before[j],
        decreases requests.len() - i,
    {
        proof {
            lemma_prefix_step(before, i as int, kind, TradeType::Buy);
            lemma_prefix_step(before, i as int, kind, TradeType::Sell);
        }
        if requests[i].resource_type == kind {
            assert(settled_amount(before, i as int, clearing) <= u32::MAX);
            let is_buy = requests[i].trade_type == TradeType::Buy;
            match clearing {
                Clearing::Balanced => {
                    requests[i].fulfilled_amount = requests[i].request_amount;
                },
                Clearing::RationBuyers => {
                    if is_buy {
                        let portion = share_of(tally.sells, tally.buyers, buyers_seen);
                        requests[i].fulfilled_amount = requests[i].fulfilled_amount
                            + portion as u32;
                    } else {
                        requests[i].fulfilled_amount = requests[i].request_amount;
                    }
                },
                Clearing::RationSellers => {
                    if is_buy {
                        requests[i].fulfilled_amount = requests[i].request_amount;
                    } else {
                        let portion = share_of(tally.buys, tally.sellers, sellers_seen);
                        requests[i].fulfilled_amount = requests[i].fulfilled_amount
                            + portion as u32;
                    }
                },
                _ => {},
            }
            if is_buy {
                buyers_seen = buyers_seen + 1;
            } else {
                sellers_seen = sellers_seen + 1;
            }
        }
        i = i + 1;
    }
    assert(requests@ =~= settle(before, kind, clearing));
}

/// The volume and the headcount of a kind on a side go by what the
/// requests ask for, not by what was met of them.
pub proof fn lemma_same_orders(
    a: Seq<TradeRequest>,
    b: Seq<TradeRequest>,
    kind: ResourceType,
    side: TradeType,
)
    requires
        a.len() == b.len(),
        forall|i: int| 0 <= i < a.len() ==> (#[trigger] a[i]).same_order(b[i]),
    ensures
        volume(a, kind, side) == volume(b, kind, side),
        headcount(a, kind, side) == headcount(b, kind, side),
    decreases a.len(),
{
    if a.len() > 0 {
        assert(a.last().same_order(b.last()));
        lemma_same_orders(a.drop_last(), b.drop_last(), kind, side);
    }
}

/// A price that is at least 1 stays at least 1, whatever is asked for and
/// offered in a clearing.
pub proof fn lemma_price_floor(quote: Quote, buys: nat, sells: nat)
    requires
        quote.price >= 1,
    ensures
        quote.after(buys, sells).price >= 1,
{
}

/// A price that is at least 1 stays at least 1 through any run of clearings.
pub proof fn lemma_price_floor_holds(quote: Quote, rounds: Seq<(nat, nat)>)
    requires
        quote.price >= 1,
    ensures
        quote.after_rounds(rounds).price >= 1,
    decreases rounds.len(),
{
    if rounds.len() > 0 {
        lemma_price_floor_holds(quote, rounds.drop_last());
        lemma_price_floor(
            quote.after_rounds(rounds.drop_last()),
            rounds.last().0,
            rounds.last().1,
        );
    }
}

/// A clearing in which as much is asked for as is offered, nothing at
/// all for one, keeps the price and brings it to rest.
pub proof fn lemma_balanced_round(quote: Quote, volume: nat)
    ensures
        quote.after(volume, volume) == (Quote {
            price: quote.price,
            direction: PriceDirection::Equilibrium,
        }),
{
}

/// Through a run of clearings in each of which as much is asked for as
/// is offered, the price stays; and the direction is at rest from the
/// first clearing on, so a price at rest is left as it is by any such run.
pub proof fn lemma_balanced_rounds(quote: Quote, rounds: Seq<(nat, nat)>)
    requires
        forall|i: int| 0 <= i < rounds.len() ==> (#[trigger] rounds[i]).0 == rounds[i].1,
    ensures
        quote.after_rounds(rounds).price == quote.price,
        rounds.len() > 0 ==> quote.after_rounds(rounds).direction == PriceDirection::Equilibrium,
        quote.direction == PriceDirection::Equilibrium ==> quote.after_rounds(rounds) == quote,
    decreases rounds.len(),
{
    if rounds.len() > 0 {
        lemma_balanced_rounds(quote, rounds.drop_last());
        assert(rounds.last().0 == rounds.last().1);
        lemma_balanced_round(quote.after_rounds(rounds.drop_last()), rounds.last().0);
    }
}

/// What rank `rank` holds once `units` units were dealt out one at a
/// time, the first to rank 0, each to the rank after the one before, and
/// after the last rank to rank 0 again.
pub open spec fn dealt(units: nat, heads: nat, rank: nat) -> nat
    decreases units,
{
    if units == 0 {
        0
    } else {
        dealt((units - 1) as nat, heads, rank) + if (units - 1) % (heads as int) == rank {
            1nat
        } else {
            0
        }
    }
}

/// A share is what dealing the units out one at a time, round after round
/// in rank order, gives the rank.
pub proof fn lemma_share_is_dealt(total: nat, heads: nat, rank: nat)
    requires
        rank < heads,
    ensures
        share(total, heads, rank) == dealt(total, heads, rank),
    decreases total,
{
    if total > 0 {
        let fewer = (total - 1) as nat;
        lemma_share_is_dealt(fewer, heads, rank);
        let rounds = fewer / heads;
        let over = fewer % heads;
        vstd::arithmetic::div_mod::lemma_fundamental_div_mod(fewer as int, heads as int);
        vstd::arithmetic::div_mod::lemma_mod_pos_bound(fewer as int, heads as int);
        assert(heads * rounds == rounds * heads) by (nonlinear_arith);
        if over + 1 < heads {
            vstd::arithmetic::div_mod::lemma_fundamental_div_mod_converse(
                total as int,
                heads as int,
                rounds as int,
                (over + 1) as int,
            );
        } else {
            assert((rounds + 1) * heads == rounds * heads + heads) by (nonlinear_arith);
            vstd::arithmetic::div_mod::lemma_fundamental_div_mod_converse(
                total as int,
                heads as int,
                (rounds + 1) as int,
                0,
            );
        }
    }
}

/// The share of a rationed request is what dealing out one unit at a
/// time gives it: round after round, in the order of the batch, to the
/// requests for its kind on its side, until all that the other side
/// brought is dealt out.
pub proof fn lemma_ration_is_dealt(requests: Seq<TradeRequest>, i: int)
    requires
        0 <= i < requests.len(),
    ensures
        ration(requests, i) == dealt(
            volume(requests, requests[i].resource_type, requests[i].trade_type.opposite()),
            headcount(requests, requests[i].resource_type, requests[i].trade_type),
            headcount(requests.take(i), requests[i].resource_type, requests[i].trade_type),
        ),
{
    lemma_rank_bound(requests, i);
    lemma_share_is_dealt(
        volume(requests, requests[i].resource_type, requests[i].trade_type.opposite()),
        headcount(requests, requests[i].resource_type, requests[i].trade_type),
        headcount(requests.take(i), requests[i].resource_type, requests[i].trade_type),
    );
}

/// The sum of the shares of the first `ranks` ranks.
pub open spec fn shares_sum(total: nat, heads: nat, ranks: nat) -> nat
    decreases ranks,
{
    if ranks == 0 {
        0
    } else {
        shares_sum(total, heads, (ranks - 1) as nat) + share(total, heads, (ranks - 1) as nat)
    }
}

/// The first ranks hold the even part each, and one unit of the
/// remainder each as far as the remainder goes.
proof fn lemma_shares_sum(total: nat, heads: nat, ranks: nat)
    requires
        heads > 0,
    ensures
        shares_sum(total, heads, ranks) == ranks * (total / heads) + if ranks < total % heads {
            ranks
        } else {
            total % heads
        },
    decreases ranks,
{
    let even = total / heads;
    if ranks > 0 {
        let fewer = (ranks - 1) as nat;
        lemma_shares_sum(total, heads, fewer);
        assert(ranks * even == fewer * even + even) by (nonlinear_arith)
            requires
                ranks == fewer + 1,
        ;
    } else {
        assert(ranks * even == 0) by (nonlinear_arith)
            requires
                ranks == 0,
        ;
    }
}

/// The shares of all ranks add up to what was there to share: nothing
/// is lost and nothing made up.
pub proof fn lemma_shares_add_up(total: nat, heads: nat)
    requires
        heads > 0,
    ensures
        shares_sum(total, heads, heads) == total,
{
    lemma_shares_sum(total, heads, heads);
    vstd::arithmetic::div_mod::lemma_fundamental_div_mod(total as int, heads as int);
    vstd::arithmetic::div_mod::lemma_mod_pos_bound(total as int, heads as int);
}

/// No volume is more than its headcount could ask for at most, so a
/// volume above 0 has a headcount above 0; and no headcount is more than
/// the batch is long.
pub proof fn lemma_volume_bound(requests: Seq<TradeRequest>, kind: ResourceType, side: TradeType)
    ensures
        volume(requests, kind, side) <= headcount(requests, kind, side) * u32::MAX,
        headcount(requests, kind, side) <= requests.len(),
    decreases requests.len(),
{
    if requests.len() > 0 {
        lemma_volume_bound(requests.drop_last(), kind, side);
    }
}

/// The rank of a request is below the headcount of its side.
pub proof fn lemma_rank_bound(requests: Seq<TradeRequest>, i: int)
    requires
        0 <= i < requests.len(),
    ensures
        headcount(requests.take(i), requests[i].resource_type, requests[i].trade_type) < headcount(
            requests,
            requests[i].resource_type,
            requests[i].trade_type,
        ),
    decreases requests.len(),
{
    let kind = requests[i].resource_type;
    let side = requests[i].trade_type;
    if i == requests.len() - 1 {
        assert(requests.take(i) =~= requests.drop_last());
    } else {
        lemma_rank_bound(requests.drop_last(), i);
        assert(requests.drop_last().take(i) =~= requests.take(i));
    }
}

/// Where the side that shares asked for more than there is to share, no
/// share is beyond what a single request can ask for.
pub proof fn lemma_share_bound(total: nat, heads: nat, rank: nat)
    requires
        total < heads * u32::MAX,
    ensures
        share(total, heads, rank) <= u32::MAX,
{
    vstd::arithmetic::div_mod::lemma_fundamental_div_mod(total as int, heads as int);
    vstd::arithmetic::div_mod::lemma_mod_pos_bound(total as int, heads as int);
    let q = total / heads;
    let r = total % heads;
    assert(q < u32::MAX) by (nonlinear_arith)
        requires
            heads * q + r == total,
            total < heads * u32::MAX,
            heads > 0,
            r >= 0,
    ;
}

} // verus!
