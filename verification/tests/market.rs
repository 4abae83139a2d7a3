use village_economy::simulation::market::{
    can_settle, settle_requests, share_of, tally, Clearing,
};
use village_economy::simulation::{PriceDirection, Simulation, STARTING_PRICE};
use village_economy::village::resource::ResourceType;
use village_economy::village::worker::Worker;
use village_economy::village::Village;
use village_economy::village_mind::trade_request::{TradeRequest, TradeType};

type Market = Simulation<fn(&Worker) -> bool, fn(u32) -> f64>;

fn buy(amount: u32, kind: ResourceType) -> TradeRequest {
    TradeRequest::new(TradeType::Buy, amount, kind)
}

fn sell(amount: u32, kind: ResourceType) -> TradeRequest {
    TradeRequest::new(TradeType::Sell, amount, kind)
}

fn price(market: &Market, kind: ResourceType) -> u32 {
    *market.prices.get(&kind).unwrap()
}

fn direction(market: &Market, kind: ResourceType) -> PriceDirection {
    *market.price_directions.get(&kind).unwrap()
}

fn fulfilled(requests: &Vec<TradeRequest>) -> Vec<u32> {
    requests.iter().map(|request| request.fulfilled_amount).collect()
}

/// A market in which the price of food last fell, to 4.
fn falling_food_market() -> Market {
    let mut market = Market::new();
    let mut requests = vec![sell(1, ResourceType::Food)];
    market.handle_trades(&mut requests);
    assert_eq!(PriceDirection::Downward, direction(&market, ResourceType::Food));
    market
}

/// A market in which the price of food last rose, to 6.
fn rising_food_market() -> Market {
    let mut market = Market::new();
    let mut requests = vec![buy(1, ResourceType::Food)];
    market.handle_trades(&mut requests);
    assert_eq!(PriceDirection::Upward, direction(&market, ResourceType::Food));
    market
}

#[test]
fn new_request_has_nothing_met() {
    let request = TradeRequest::new(TradeType::Sell, 7, ResourceType::Stone);
    assert!(request.trade_type == TradeType::Sell);
    assert!(request.resource_type == ResourceType::Stone);
    assert_eq!(7, request.request_amount);
    assert_eq!(0, request.fulfilled_amount);
}

#[test]
fn new_market_holds_every_traded_kind_at_rest() {
    let market = Market::new();
    assert_eq!(5, STARTING_PRICE);
    for kind in [ResourceType::Food, ResourceType::Wood, ResourceType::Stone] {
        assert_eq!(STARTING_PRICE, price(&market, kind));
        assert_eq!(PriceDirection::Equilibrium, direction(&market, kind));
    }
    assert!(market.prices.get(&ResourceType::Gold).is_none());
    assert!(market.price_directions.get(&ResourceType::Gold).is_none());
    assert!(market.is_well_formed());
    assert_eq!(0, market.village_managers().len());
}

#[test]
fn shares_are_the_even_part_and_the_remainder_in_rank_order() {
    assert_eq!(3, share_of(7, 3, 0));
    assert_eq!(2, share_of(7, 3, 1));
    assert_eq!(2, share_of(7, 3, 2));
    assert_eq!(1, share_of(2, 3, 0));
    assert_eq!(1, share_of(2, 3, 1));
    assert_eq!(0, share_of(2, 3, 2));
    assert_eq!(4, share_of(12, 3, 2));
    assert_eq!(0, share_of(0, 3, 0));
    assert_eq!(9, share_of(9, 1, 0));
    assert_eq!(0, share_of(9, 0, 0));
}

#[test]
fn shares_add_up_to_the_total() {
    for total in 0..40u128 {
        for heads in 1..7usize {
            let mut sum = 0;
            for rank in 0..heads {
                sum += share_of(total, heads, rank);
            }
            assert_eq!(total, sum);
        }
    }
}

#[test]
fn shares_are_what_dealing_one_by_one_gives() {
    for total in 0..40usize {
        for heads in 1..7usize {
            let mut dealt = vec![0u128; heads];
            for unit in 0..total {
                dealt[unit % heads] += 1;
            }
            for rank in 0..heads {
                assert_eq!(dealt[rank], share_of(total as u128, heads, rank));
            }
        }
    }
}

#[test]
fn tally_adds_up_each_side_of_one_kind() {
    let requests = vec![
        buy(3, ResourceType::Food),
        sell(2, ResourceType::Food),
        buy(10, ResourceType::Wood),
        buy(4, ResourceType::Food),
        sell(0, ResourceType::Food),
        sell(6, ResourceType::Gold),
    ];
    let food = tally(&requests, ResourceType::Food);
    assert_eq!((7, 2, 2, 2), (food.buys, food.sells, food.buyers, food.sellers));
    let wood = tally(&requests, ResourceType::Wood);
    assert_eq!((10, 0, 1, 0), (wood.buys, wood.sells, wood.buyers, wood.sellers));
    let stone = tally(&requests, ResourceType::Stone);
    assert_eq!((0, 0, 0, 0), (stone.buys, stone.sells, stone.buyers, stone.sellers));
}

#[test]
fn tally_does_not_run_over() {
    let requests = vec![
        buy(u32::MAX, ResourceType::Food),
        buy(u32::MAX, ResourceType::Food),
        buy(2, ResourceType::Food),
    ];
    let food = tally(&requests, ResourceType::Food);
    assert_eq!(2 * (u32::MAX as u128) + 2, food.buys);
    assert_eq!(3, food.buyers);
}

#[test]
fn decide_covers_every_case() {
    let up = PriceDirection::Upward;
    let down = PriceDirection::Downward;
    let rest = PriceDirection::Equilibrium;
    assert!(Clearing::decide(0, 0, up, 5) == Clearing::Balanced);
    assert!(Clearing::decide(4, 4, down, 1) == Clearing::Balanced);
    assert!(Clearing::decide(5, 4, rest, 5) == Clearing::Raise);
    assert!(Clearing::decide(5, 4, up, 5) == Clearing::Raise);
    assert!(Clearing::decide(5, 4, down, 5) == Clearing::RationBuyers);
    assert!(Clearing::decide(4, 5, rest, 5) == Clearing::Lower);
    assert!(Clearing::decide(4, 5, down, 2) == Clearing::Lower);
    assert!(Clearing::decide(4, 5, up, 5) == Clearing::RationSellers);
    assert!(Clearing::decide(4, 5, rest, 1) == Clearing::RationSellers);
    assert!(Clearing::decide(4, 5, down, 1) == Clearing::RationSellers);
    assert!(Clearing::decide(4, 5, up, 1) == Clearing::RationSellers);
}

#[test]
fn settle_requests_writes_to_one_kind_only() {
    let mut requests = vec![
        buy(3, ResourceType::Food),
        buy(3, ResourceType::Wood),
        sell(2, ResourceType::Food),
        sell(9, ResourceType::Gold),
    ];
    let totals = tally(&requests, ResourceType::Food);
    assert!(can_settle(&requests, ResourceType::Food, Clearing::Balanced, &totals));
    settle_requests(&mut requests, ResourceType::Food, Clearing::Balanced, &totals);
    assert_eq!(vec![3, 0, 2, 0], fulfilled(&requests));
}

#[test]
fn settle_requests_leaves_all_alone_when_the_price_moves() {
    let mut requests = vec![buy(3, ResourceType::Food), sell(2, ResourceType::Food)];
    requests[0].fulfilled_amount = 1;
    let totals = tally(&requests, ResourceType::Food);
    settle_requests(&mut requests, ResourceType::Food, Clearing::Raise, &totals);
    assert_eq!(vec![1, 0], fulfilled(&requests));
    settle_requests(&mut requests, ResourceType::Food, Clearing::Lower, &totals);
    assert_eq!(vec![1, 0], fulfilled(&requests));
}

#[test]
fn rationed_buyers_share_the_supply_in_request_order() {
    let mut requests = vec![
        buy(4, ResourceType::Food),
        sell(3, ResourceType::Food),
        buy(4, ResourceType::Food),
        sell(4, ResourceType::Food),
        buy(4, ResourceType::Food),
    ];
    let totals = tally(&requests, ResourceType::Food);
    settle_requests(&mut requests, ResourceType::Food, Clearing::RationBuyers, &totals);
    assert_eq!(vec![3, 3, 2, 4, 2], fulfilled(&requests));
}

#[test]
fn rationed_sellers_share_the_demand_in_request_order() {
    let mut requests = vec![
        sell(9, ResourceType::Wood),
        buy(2, ResourceType::Wood),
        sell(9, ResourceType::Wood),
        buy(3, ResourceType::Wood),
    ];
    let totals = tally(&requests, ResourceType::Wood);
    settle_requests(&mut requests, ResourceType::Wood, Clearing::RationSellers, &totals);
    assert_eq!(vec![3, 2, 2, 3], fulfilled(&requests));
}

#[test]
fn a_share_comes_on_top_of_what_was_met_before() {
    let mut requests = vec![buy(9, ResourceType::Food), sell(3, ResourceType::Food)];
    requests[0].fulfilled_amount = 2;
    let totals = tally(&requests, ResourceType::Food);
    settle_requests(&mut requests, ResourceType::Food, Clearing::RationBuyers, &totals);
    assert_eq!(vec![5, 3], fulfilled(&requests));
}

#[test]
fn round_robin_fairness() {
    let mut market = falling_food_market();
    let mut requests = vec![
        buy(1, ResourceType::Food),
        buy(1, ResourceType::Food),
        buy(1, ResourceType::Food),
        sell(2, ResourceType::Food),
    ];
    market.handle_trades(&mut requests);

    assert_eq!(vec![1, 1, 0, 2], fulfilled(&requests));
    assert_eq!(PriceDirection::Equilibrium, direction(&market, ResourceType::Food));
    assert_eq!(4, price(&market, ResourceType::Food));
}

#[test]
fn crossing_from_a_rising_price_rations_the_sellers() {
    let mut market = rising_food_market();
    let mut requests = vec![
        sell(5, ResourceType::Food),
        sell(5, ResourceType::Food),
        buy(3, ResourceType::Food),
    ];
    market.handle_trades(&mut requests);

    assert_eq!(vec![2, 1, 3], fulfilled(&requests));
    assert_eq!(PriceDirection::Equilibrium, direction(&market, ResourceType::Food));
    assert_eq!(6, price(&market, ResourceType::Food));
}

#[test]
fn balanced_kind_is_met_in_full_whatever_the_direction() {
    for mut market in [Market::new(), falling_food_market(), rising_food_market()] {
        let before = price(&market, ResourceType::Food);
        let mut requests = vec![
            buy(2, ResourceType::Food),
            sell(5, ResourceType::Food),
            buy(3, ResourceType::Food),
        ];
        market.handle_trades(&mut requests);
        assert_eq!(vec![2, 5, 3], fulfilled(&requests));
        assert_eq!(PriceDirection::Equilibrium, direction(&market, ResourceType::Food));
        assert_eq!(before, price(&market, ResourceType::Food));
    }
}

#[test]
fn requests_for_nothing_are_balanced() {
    let mut market = rising_food_market();
    let mut requests = vec![buy(0, ResourceType::Food), sell(0, ResourceType::Food)];
    requests[0].fulfilled_amount = 4;
    market.handle_trades(&mut requests);
    assert_eq!(vec![0, 0], fulfilled(&requests));
    assert_eq!(PriceDirection::Equilibrium, direction(&market, ResourceType::Food));
    assert_eq!(6, price(&market, ResourceType::Food));
}

#[test]
fn kinds_are_cleared_each_by_itself() {
    let mut market = Market::new();
    let mut requests = vec![
        buy(1, ResourceType::Food),
        sell(1, ResourceType::Wood),
        buy(2, ResourceType::Stone),
        sell(2, ResourceType::Stone),
    ];
    market.handle_trades(&mut requests);

    assert_eq!(vec![0, 0, 2, 2], fulfilled(&requests));
    assert_eq!((6, PriceDirection::Upward), (
        price(&market, ResourceType::Food),
        direction(&market, ResourceType::Food),
    ));
    assert_eq!((4, PriceDirection::Downward), (
        price(&market, ResourceType::Wood),
        direction(&market, ResourceType::Wood),
    ));
    assert_eq!((5, PriceDirection::Equilibrium), (
        price(&market, ResourceType::Stone),
        direction(&market, ResourceType::Stone),
    ));
}

#[test]
fn gold_is_not_traded() {
    let mut market = Market::new();
    let mut requests = vec![buy(3, ResourceType::Gold), sell(3, ResourceType::Gold)];
    requests[1].fulfilled_amount = 1;
    market.handle_trades(&mut requests);

    assert_eq!(vec![0, 1], fulfilled(&requests));
    assert!(market.prices.get(&ResourceType::Gold).is_none());
    assert!(market.price_directions.get(&ResourceType::Gold).is_none());
    assert!(market.is_well_formed());
}

#[test]
fn fulfilled_never_exceeds_requested_on_fresh_lone_requests() {
    let mut market = Market::new();
    let mut requests = vec![sell(3, ResourceType::Food), buy(1, ResourceType::Wood)];
    for _ in 0..12 {
        assert!(market.can_handle_trades(&requests));
        market.handle_trades(&mut requests);
        for request in requests.iter() {
            assert!(request.fulfilled_amount <= request.request_amount);
        }
    }
}

#[test]
fn a_rationed_request_can_be_met_beyond_what_it_asks() {
    let mut market = falling_food_market();
    let mut requests = vec![
        buy(1, ResourceType::Food),
        buy(10, ResourceType::Food),
        sell(5, ResourceType::Food),
    ];
    market.handle_trades(&mut requests);
    assert_eq!(vec![3, 2, 5], fulfilled(&requests));
}

#[test]
fn price_floor() {
    let mut market = Market::new();
    let mut requests = vec![sell(2, ResourceType::Food)];
    let mut seen = Vec::new();
    for _ in 0..7 {
        market.handle_trades(&mut requests);
        seen.push(price(&market, ResourceType::Food));
    }
    assert_eq!(vec![4, 3, 2, 1, 1, 1, 1], seen);
    assert_eq!(0, requests[0].fulfilled_amount);
    assert_eq!(PriceDirection::Equilibrium, direction(&market, ResourceType::Food));

    requests.push(buy(1, ResourceType::Food));
    market.handle_trades(&mut requests);

    assert_eq!(vec![1, 1], fulfilled(&requests));
    assert_eq!(1, price(&market, ResourceType::Food));
    assert_eq!(PriceDirection::Equilibrium, direction(&market, ResourceType::Food));
}

#[test]
fn price_never_below_one() {
    let mut market = Market::new();
    let batches = [
        vec![sell(1, ResourceType::Food), sell(4, ResourceType::Wood)],
        vec![sell(9, ResourceType::Food), buy(1, ResourceType::Stone)],
        vec![],
        vec![sell(1, ResourceType::Stone), buy(2, ResourceType::Food)],
    ];
    for round in 0..40 {
        let batch = &batches[round % batches.len()];
        let mut requests: Vec<TradeRequest> = batch
            .iter()
            .map(|r| TradeRequest::new(r.trade_type, r.request_amount, r.resource_type))
            .collect();
        market.handle_trades(&mut requests);
        for kind in [ResourceType::Food, ResourceType::Wood, ResourceType::Stone] {
            assert!(price(&market, kind) >= 1);
        }
        assert!(market.is_well_formed());
    }
}

#[test]
fn clearing_on_nothing_keeps_prices_and_rests_them() {
    let mut market = falling_food_market();
    let mut requests: Vec<TradeRequest> = Vec::new();

    market.handle_trades(&mut requests);
    assert_eq!(4, price(&market, ResourceType::Food));
    assert_eq!(PriceDirection::Equilibrium, direction(&market, ResourceType::Food));

    for _ in 0..5 {
        market.handle_trades(&mut requests);
        for kind in [ResourceType::Wood, ResourceType::Stone] {
            assert_eq!(5, price(&market, kind));
            assert_eq!(PriceDirection::Equilibrium, direction(&market, kind));
        }
        assert_eq!(4, price(&market, ResourceType::Food));
        assert_eq!(PriceDirection::Equilibrium, direction(&market, ResourceType::Food));
    }
}

#[test]
fn accessors_read_the_market() {
    let market = rising_food_market();
    assert_eq!(Some(6), market.price(ResourceType::Food));
    assert_eq!(Some(5), market.price(ResourceType::Stone));
    assert_eq!(None, market.price(ResourceType::Gold));
    assert_eq!(Some(PriceDirection::Upward), market.price_direction(ResourceType::Food));
    assert_eq!(Some(PriceDirection::Equilibrium), market.price_direction(ResourceType::Wood));
    assert_eq!(None, market.price_direction(ResourceType::Gold));
}

#[test]
fn large_amounts_are_shared_without_running_over() {
    let mut market = falling_food_market();
    let mut requests = vec![
        buy(u32::MAX, ResourceType::Food),
        buy(u32::MAX, ResourceType::Food),
        sell(u32::MAX, ResourceType::Food),
    ];
    assert!(market.can_handle_trades(&requests));
    market.handle_trades(&mut requests);
    assert_eq!(vec![2147483648, 2147483647, u32::MAX], fulfilled(&requests));
}

#[test]
fn a_round_of_trading_ends_on_an_empty_batch() {
    let mut market = Market::new();
    let mut none: Vec<TradeRequest> = Vec::new();
    let mut some = vec![buy(1, ResourceType::Wood)];

    assert!(market.trading_round(&mut some));
    assert_eq!(Some(6), market.price(ResourceType::Wood));
    assert_eq!(Some(PriceDirection::Upward), market.price_direction(ResourceType::Wood));

    assert!(!market.trading_round(&mut none));
    assert_eq!(Some(6), market.price(ResourceType::Wood));
    assert_eq!(Some(PriceDirection::Upward), market.price_direction(ResourceType::Wood));
}

#[test]
fn cannot_clear_beyond_the_range_of_a_price() {
    let mut market = Market::new();
    market.prices.insert(ResourceType::Food, u32::MAX);
    let mut requests = vec![buy(1, ResourceType::Food)];
    assert!(market.is_well_formed());
    assert!(!market.can_handle_trades(&requests));

    requests.push(sell(1, ResourceType::Food));
    assert!(market.can_handle_trades(&requests));
    market.handle_trades(&mut requests);
    assert_eq!(u32::MAX, price(&market, ResourceType::Food));
}

#[test]
fn cannot_clear_beyond_the_range_of_an_amount() {
    let market = falling_food_market();
    let mut requests = vec![buy(u32::MAX, ResourceType::Food), sell(1, ResourceType::Food)];
    assert!(market.can_handle_trades(&requests));
    requests[0].fulfilled_amount = u32::MAX;
    assert!(!market.can_handle_trades(&requests));
    requests[0].fulfilled_amount = u32::MAX - 1;
    assert!(market.can_handle_trades(&requests));
}

#[test]
fn a_market_with_a_hole_is_not_well_formed() {
    let mut market = Market::new();
    market.prices.insert(ResourceType::Wood, 0);
    assert!(!market.is_well_formed());
    market.prices.insert(ResourceType::Wood, 1);
    assert!(market.is_well_formed());
    market.prices.insert(ResourceType::Gold, 1);
    assert!(!market.is_well_formed());
}

#[test]
fn simulate_ticks_every_village_and_keeps_the_market() {
    let mut simulation = Market::new();
    let mut first: Village<fn(&Worker) -> bool, fn(u32) -> f64> = Village::new(|w| w.age >= 2);
    let site = first.create_resource(ResourceType::Wood, |power| power as f64 * 1.5);
    let worker = first.create_worker(4);
    first.assign_worker(worker, site).unwrap();
    simulation.add_village(first);
    simulation.add_village(Village::new(|_w| false));
    let mut requests = vec![buy(1, ResourceType::Food)];
    simulation.handle_trades(&mut requests);

    assert!(simulation.can_simulate());
    let harvests = simulation.simulate();

    assert_eq!(2, harvests.len());
    assert_eq!(1, harvests[0].len());
    assert!(harvests[0][0].0 == ResourceType::Wood);
    assert_eq!(6.0, harvests[0][0].1);
    assert_eq!(0, harvests[1].len());
    assert_eq!(6, price(&simulation, ResourceType::Food));
    assert_eq!(PriceDirection::Upward, direction(&simulation, ResourceType::Food));
    assert_eq!(1, simulation.village_managers()[0].village.worker(worker).unwrap().age);

    simulation.simulate();
    assert!(simulation.village_managers()[0].village.worker(worker).is_none());
    assert_eq!(2, simulation.village_managers().len());
}

/// Clears one kind the long way: adds up, decides, and deals the units
/// out one at a time.
fn clear_by_hand(
    kind: ResourceType,
    price: &mut u32,
    direction: &mut PriceDirection,
    requests: &mut Vec<TradeRequest>,
) {
    let mut buys = 0u64;
    let mut sells = 0u64;
    for request in requests.iter().filter(|r| r.resource_type == kind) {
        if request.trade_type == TradeType::Buy {
            buys += request.request_amount as u64;
        } else {
            sells += request.request_amount as u64;
        }
    }
    if buys == sells {
        for request in requests.iter_mut().filter(|r| r.resource_type == kind) {
            request.fulfilled_amount = request.request_amount;
        }
        *direction = PriceDirection::Equilibrium;
        return;
    }
    let (long_side, mut left) = if buys > sells {
        if *direction != PriceDirection::Downward {
            *direction = PriceDirection::Upward;
            *price += 1;
            return;
        }
        (TradeType::Buy, sells)
    } else {
        if *direction != PriceDirection::Upward && *price > 1 {
            *direction = PriceDirection::Downward;
            *price -= 1;
            return;
        }
        (TradeType::Sell, buys)
    };
    for request in requests.iter_mut().filter(|r| r.resource_type == kind) {
        if request.trade_type != long_side {
            request.fulfilled_amount = request.request_amount;
        }
    }
    while left > 0 {
        for request in requests
            .iter_mut()
            .filter(|r| r.resource_type == kind && r.trade_type == long_side)
        {
            request.fulfilled_amount += 1;
            left -= 1;
            if left == 0 {
                break;
            }
        }
    }
    *direction = PriceDirection::Equilibrium;
}

#[test]
fn clearing_agrees_with_dealing_by_hand() {
    let kinds = [ResourceType::Gold, ResourceType::Food, ResourceType::Wood, ResourceType::Stone];
    let traded = [ResourceType::Food, ResourceType::Wood, ResourceType::Stone];
    let mut seed = 12345u64;
    let mut next = move |below: u64| {
        seed = seed.wrapping_mul(6364136223846793005).wrapping_add(1442695040888963407);
        (seed >> 33) % below
    };
    for _ in 0..300 {
        let mut market = Market::new();
        let mut prices = [5u32; 3];
        let mut directions = [PriceDirection::Equilibrium; 3];
        for _ in 0..8 {
            let mut requests = Vec::new();
            for _ in 0..next(7) {
                let side = if next(2) == 0 { TradeType::Buy } else { TradeType::Sell };
                let kind = kinds[next(4) as usize];
                let mut request = TradeRequest::new(side, next(6) as u32, kind);
                request.fulfilled_amount = next(3) as u32;
                requests.push(request);
            }
            let mut by_hand: Vec<TradeRequest> = requests
                .iter()
                .map(|r| TradeRequest {
                    trade_type: r.trade_type,
                    resource_type: r.resource_type,
                    request_amount: r.request_amount,
                    fulfilled_amount: r.fulfilled_amount,
                })
                .collect();
            for (k, kind) in traded.iter().enumerate() {
                clear_by_hand(*kind, &mut prices[k], &mut directions[k], &mut by_hand);
            }

            assert!(market.can_handle_trades(&requests));
            market.handle_trades(&mut requests);

            assert_eq!(fulfilled(&by_hand), fulfilled(&requests));
            for (k, kind) in traded.iter().enumerate() {
                assert_eq!(prices[k], price(&market, *kind));
                assert_eq!(directions[k], direction(&market, *kind));
            }
        }
    }
}
