use elite_trader::full_trade::FullTrade;
use elite_trader::player_state::PlayerState;
use elite_trader::search_quality::SearchQuality;
use elite_trader::time_estimate::TimeEstimate;
use elite_trader::trader::{Commodity, Listing, ShipSize};
use elite_trader::unit_trade::UnitTrade;

fn commodity(id: u16) -> Commodity {
    Commodity {
        commodity_id: id,
        commodity_name: format!("commodity {}", id),
        category: "metals".to_string(),
    }
}

fn listing(station_id: u32, commodity_id: u16, supply: u32, buy: u32, sell: u32) -> Listing {
    Listing {
        system_id: 1,
        station_id,
        commodity: commodity(commodity_id),
        supply,
        buy_price: buy,
        sell_price: sell,
        collected_at: 0,
    }
}

fn state(balance: u64, minimum: u64, cargo: u32) -> PlayerState {
    PlayerState::new(1, 1, balance, minimum, 20_000, cargo, 1000)
}

#[test]
fn validity_needs_supply_profit_and_same_commodity() {
    let buy = listing(1, 7, 50, 100, 0);
    let sell = listing(2, 7, 10, 0, 150);
    assert!(UnitTrade::is_valid(&buy, &sell));

    // no supply at the origin
    let dry = listing(1, 7, 0, 100, 0);
    assert!(!UnitTrade::is_valid(&dry, &sell));

    // different commodities
    let other = listing(2, 8, 10, 0, 150);
    assert!(!UnitTrade::is_valid(&buy, &other));

    // purchase at least as dear as the sale
    let cheap = listing(2, 7, 10, 0, 100);
    assert!(!UnitTrade::is_valid(&buy, &cheap));
    let cheaper = listing(2, 7, 10, 0, 99);
    assert!(!UnitTrade::is_valid(&buy, &cheaper));

    // nothing offered for purchase
    let unsold = listing(1, 7, 50, 0, 0);
    assert!(!UnitTrade::is_valid(&unsold, &sell));
}

#[test]
fn profit_per_ton_clamps_at_zero() {
    let buy = listing(1, 7, 50, 100, 0);
    let sell = listing(2, 7, 10, 0, 150);
    assert_eq!(UnitTrade::profit_per_ton(&buy, &sell), 50);
    let losing = listing(2, 7, 10, 0, 40);
    assert_eq!(UnitTrade::profit_per_ton(&buy, &losing), 0);
}

#[test]
fn used_cargo_clamped_by_hold_stock_and_reserve() {
    // spare credits buy 333 tons, the hold takes 100, the stock holds 50
    let buy = listing(1, 7, 50, 3, 0);
    let s = state(1000, 0, 100);
    assert_eq!(FullTrade::used_cargo(&s, &buy), 50);

    // the hold is the binding clamp
    let rich = state(1_000_000, 0, 100);
    assert_eq!(FullTrade::used_cargo(&rich, &buy), 50);
    let deep = listing(1, 7, 5_000, 3, 0);
    assert_eq!(FullTrade::used_cargo(&rich, &deep), 100);

    // affordability is the binding clamp
    let poor = state(10, 0, 100);
    assert_eq!(FullTrade::used_cargo(&poor, &deep), 3);

    // a balance at the reserve buys nothing
    let at_reserve = state(500, 500, 100);
    assert_eq!(FullTrade::used_cargo(&at_reserve, &deep), 0);
    let below_reserve = state(400, 500, 100);
    assert_eq!(FullTrade::used_cargo(&below_reserve, &deep), 0);
}

#[test]
fn supercruise_curve_values() {
    assert_eq!(TimeEstimate::supercruise_time(0), 240_000);
    assert_eq!(TimeEstimate::supercruise_time(1), 0);
    assert_eq!(TimeEstimate::supercruise_time(10), 46_582);
    assert_eq!(TimeEstimate::supercruise_time(100), 98_097);
    assert_eq!(TimeEstimate::supercruise_time(55), 72_339);
    assert_eq!(TimeEstimate::supercruise_time(2_000_000), 331_611);
}

#[test]
fn jump_counts_and_times() {
    // no travel, no jumps
    assert_eq!(TimeEstimate::jump_count(0, 5_000), 0);
    // within range: exactly one jump
    assert_eq!(TimeEstimate::jump_count(4_999, 5_000), 1000);
    // beyond range: the empirical per-jump progress divides the distance
    assert_eq!(TimeEstimate::jump_count(10_000, 5_000), 11_493);
    assert_eq!(TimeEstimate::jump_time(10_000, 5_000), 496_095);
    assert_eq!(
        TimeEstimate::raw_time_to_system(10_000, 5_000),
        36_924 + 77_749 + 496_095
    );
    // the correction factor scales only the station leg
    assert_eq!(TimeEstimate::raw_time_to_station(0), 24_808 + 56_527 + 240_000);
    assert_eq!(
        TimeEstimate::adjusted_time_to_station(0, 2_000),
        2 * (24_808 + 56_527 + 240_000)
    );
}

#[test]
fn with_sell_price_reprices() {
    let buy = listing(1, 7, 50, 100, 0);
    let sell = listing(2, 7, 10, 0, 150);
    let s = state(100_000, 0, 50);
    let unit = UnitTrade {
        commodity_id: 7,
        commodity_name: "x".to_string(),
        buy_system_id: 1,
        buy_station_id: 1,
        sell_system_id: 2,
        sell_station_id: 2,
        buy_price: buy.buy_price,
        sell_price: sell.sell_price,
        supply: buy.supply,
        is_valid: true,
        is_prohibited: false,
        profit_per_ton: 50,
        profit_per_ton_per_min: 0,
        normalized_time: zero_estimate(),
        adjusted_time: zero_estimate(),
    };
    let corrected = unit.with_sell_price(120);
    assert_eq!(corrected.sell_price, 120);
    assert_eq!(corrected.profit_per_ton, 20);
    assert!(corrected.is_valid);
    let ruined = unit.with_sell_price(90);
    assert_eq!(ruined.profit_per_ton, 0);
    assert!(!ruined.is_valid);
    let _ = s;
}

fn zero_estimate() -> TimeEstimate {
    TimeEstimate {
        distance_to_system: 0,
        distance_to_station: 0,
        jump_count_milli: 0,
        time_to_station: 0,
        time_to_system: 0,
        time_total: 60_000,
    }
}

#[test]
fn ship_size_parses_and_orders() {
    assert_eq!(ShipSize::parse("Small"), Ok(ShipSize::Small));
    assert_eq!(ShipSize::parse("med"), Ok(ShipSize::Medium));
    assert_eq!(ShipSize::parse("L"), Ok(ShipSize::Large));
    assert_eq!(ShipSize::parse("huge"), Err(()));
    assert!(ShipSize::Large.at_least(&ShipSize::Small));
    assert!(!ShipSize::Small.at_least(&ShipSize::Medium));
}

#[test]
fn search_quality_parses_and_bounds() {
    assert_eq!(SearchQuality::parse("ultra"), Ok(SearchQuality::Ultra));
    assert_eq!(SearchQuality::parse("H"), Ok(SearchQuality::High));
    assert_eq!(SearchQuality::parse("nope"), Err(()));
    assert_eq!(SearchQuality::Medium.get_hop_width(), 5);
    assert_eq!(SearchQuality::Ultra.get_hop_width(), 7);
    assert_eq!(SearchQuality::High.get_depth(), 9);
}

#[test]
fn isqrt_rounds_down() {
    assert_eq!(elite_trader::isqrt_u64(0), 0);
    assert_eq!(elite_trader::isqrt_u64(99), 9);
    assert_eq!(elite_trader::isqrt_u64(100), 10);
    assert_eq!(elite_trader::isqrt_u64(u64::MAX), 4_294_967_295);
}
