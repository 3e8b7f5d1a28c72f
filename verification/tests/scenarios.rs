use elite_trader::full_trade::FullTrade;
use elite_trader::player_state::PlayerState;
use elite_trader::price_adjustment::PriceAdjustment;
use elite_trader::search::{split_chunks, SearchStation};
use elite_trader::search_cache::SearchCache;
use elite_trader::search_cycle::SearchCycleTracker;
use elite_trader::search_quality::SearchQuality;
use elite_trader::time_estimate::TimeEstimate;
use elite_trader::trader::{Commodity, Listing, ShipSize, Station, System};
use elite_trader::unit_trade::UnitTrade;
use elite_trader::universe::Universe;

fn commodity(id: u16, name: &str) -> Commodity {
    Commodity {
        commodity_id: id,
        commodity_name: name.to_string(),
        category: "metals".to_string(),
    }
}

fn listing(
    system_id: u32,
    station_id: u32,
    commodity_id: u16,
    supply: u32,
    buy: u32,
    sell: u32,
) -> Listing {
    Listing {
        system_id,
        station_id,
        commodity: commodity(commodity_id, "tantalum"),
        supply,
        buy_price: buy,
        sell_price: sell,
        collected_at: 0,
    }
}

fn station(system_id: u32, station_id: u32, name: &str, listings: Vec<Listing>) -> Station {
    Station {
        system_id,
        station_id,
        station_name: name.to_string(),
        max_landing_pad_size: ShipSize::Large,
        distance_to_star: Some(100),
        updated_at: 0,
        market_updated_at: None,
        is_planetary: false,
        prohibited_commodities: Vec::new(),
        listings,
    }
}

fn system(system_id: u32, name: &str, x: i64, stations: Vec<Station>) -> System {
    System {
        system_id,
        system_name: name.to_string(),
        x,
        y: 0,
        z: 0,
        needs_permit: false,
        updated_at: 0,
        stations,
    }
}

/// Two systems ten light-years apart; station 1 offers the commodity at
/// 100 credits with 50 in stock, station 2 pays 150 for it.
fn two_station_universe() -> Universe {
    let a = system(
        1,
        "Aulin",
        0,
        vec![station(1, 1, "Aulin Enterprise", vec![listing(1, 1, 7, 50, 100, 0)])],
    );
    let b = system(
        2,
        "Bolg",
        10_000,
        vec![station(2, 2, "Bolg Terminal", vec![listing(2, 2, 7, 10, 0, 150)])],
    );
    Universe::new(vec![a, b]).expect("the synthetic galaxy fits the volume")
}

fn player_at_station_one() -> PlayerState {
    PlayerState::new(1, 1, 100_000, 0, 20_000, 50, 1000)
}

#[test]
fn scenario_single_profitable_hop() {
    let universe = two_station_universe();
    let state = player_at_station_one();
    let mut cache = SearchCache::new();
    let node = SearchStation::new(state, SearchQuality::Medium);

    let trades = cache.get_1hop_trades(&universe, &node);
    assert_eq!(trades.len(), 1);
    let unit = &trades[0];
    assert!(unit.is_valid);
    assert_eq!(unit.buy_station_id, 1);
    assert_eq!(unit.sell_station_id, 2);
    assert_eq!(unit.profit_per_ton, 50);

    let full = FullTrade::new(&state, unit.duplicate());
    assert!(full.is_valid);
    assert_eq!(full.used_cargo, 50);
    assert_eq!(full.profit_total, 2_500);

    let after = full.state_after_trade();
    assert_eq!(after.station_id, 2);
    assert_eq!(after.credit_balance, 102_500);
}

#[test]
fn scenario_invalidation_forces_recompute() {
    let mut universe = two_station_universe();
    let state = player_at_station_one();
    let mut cache = SearchCache::new();
    let node = SearchStation::new(state, SearchQuality::Medium);

    // prime the cache with the profitable pair
    let before = cache.get_1hop_trades(&universe, &node);
    assert_eq!(before.len(), 1);
    assert_eq!(cache.len(), 1);

    // the destination's sale price falls below the purchase price
    let correction = PriceAdjustment {
        buy_price: None,
        sell_price: Some(50),
        supply: None,
        system_id: 2,
        station_id: 2,
        commodity_id: 7,
        timestamp: 1_000_000,
    };
    let _ = universe.apply_price_adjustment(&correction);
    cache.invalidate_station(2);

    // the next lookup recomputes and omits the pair
    let after = cache.get_1hop_trades(&universe, &node);
    assert_eq!(after.len(), 0);
}

#[test]
fn scenario_range_query() {
    let systems = vec![
        system(1, "Origin", 0, vec![]),
        system(2, "Near", 5_000, vec![]),
        system(3, "Far", 50_000, vec![]),
    ];
    let universe = Universe::new(systems).expect("fits the volume");
    let hits = universe.get_systems_in_range(&universe.systems[0], 10_000);
    let mut ids: Vec<u32> = hits.iter().map(|s| s.system_id).collect();
    ids.sort();
    assert_eq!(ids, vec![1, 2]);
}

#[test]
fn cycle_extrapolation_scales_the_loop() {
    // A two-station back-and-forth loop, both hops eligible: with eight
    // hops left in the horizon, the loop of length two is repeated four
    // times, so the claimed profit is eight times one hop's profit divided
    // by two (and likewise for the time), without eight expansions.
    let quality = SearchQuality::Medium;
    let hop_a = synthetic_trade(1, 2, 1_000, 600_000, true);
    let hop_b = synthetic_trade(2, 1, 1_000, 600_000, true);
    let tracker = SearchCycleTracker::new(&quality).push(&hop_a).push(&hop_b);

    let candidate = synthetic_trade(1, 2, 1_000, 600_000, true);
    let cycle = tracker.find_cycle(&candidate, 8).expect("the loop closes at station 1");
    assert_eq!(cycle.profit_total, 8 * 2_000 / 2);
    assert_eq!(cycle.time_total, 8 * 1_200_000 / 2);

    // a hop that is not loop-eligible breaks the walk
    let blocked = SearchCycleTracker::new(&quality)
        .push(&hop_a)
        .push(&synthetic_trade(2, 1, 1_000, 600_000, false));
    assert!(blocked.find_cycle(&candidate, 8).is_none());
}

fn synthetic_trade(
    buy_station: u32,
    sell_station: u32,
    profit: u64,
    time_ms: u64,
    cyclic: bool,
) -> FullTrade {
    let estimate = TimeEstimate {
        distance_to_system: 10_000,
        distance_to_station: 100,
        jump_count_milli: 1000,
        time_to_station: time_ms / 2,
        time_to_system: time_ms / 2,
        time_total: time_ms,
    };
    FullTrade {
        unit: UnitTrade {
            commodity_id: 7,
            commodity_name: "tantalum".to_string(),
            buy_system_id: buy_station,
            buy_station_id: buy_station,
            sell_system_id: sell_station,
            sell_station_id: sell_station,
            buy_price: 100,
            sell_price: 150,
            supply: 1_000,
            is_valid: true,
            is_prohibited: false,
            profit_per_ton: 50,
            profit_per_ton_per_min: 1_000,
            normalized_time: estimate,
            adjusted_time: estimate,
        },
        profit_total: profit,
        used_cargo: 20,
        profit_per_min: 1_000,
        is_valid: true,
        is_cyclic: cyclic,
        state: PlayerState::new(buy_station, buy_station, 100_000, 0, 20_000, 20, 1000),
    }
}

#[test]
fn search_is_deterministic_across_fanouts() {
    let universe = two_station_universe();
    let state = player_at_station_one();
    let node = SearchStation::new(state, SearchQuality::Medium);

    // the plain single-threaded search, twice
    let mut cache1 = SearchCache::new();
    let (routes1, _) = node.next_trades(&universe, &mut cache1);
    let mut cache2 = SearchCache::new();
    let (routes2, _) = node.next_trades(&universe, &mut cache2);
    let summary = |rs: &Vec<elite_trader::search::SearchResult>| -> Vec<(u32, u64, u64)> {
        rs.iter()
            .map(|r| (r.trade.unit.sell_station_id, r.profit_total, r.time_total))
            .collect()
    };
    assert_eq!(summary(&routes1), summary(&routes2));
    assert!(!routes1.is_empty());

    // the fan-out path: chunked candidates, expanded chunk by chunk and
    // merged, against one whole-run expansion
    let mut cache3 = SearchCache::new();
    let candidates = cache3.get_1hop_trades(&universe, &node);
    let whole = node.expand_candidates(&universe, &mut cache3, candidates);
    let merged_whole = node.merge_results(vec![whole]);

    let mut cache4 = SearchCache::new();
    let candidates4 = cache4.get_1hop_trades(&universe, &node);
    let chunks = split_chunks(candidates4, 1);
    let mut partials = Vec::new();
    for chunk in chunks {
        partials.push(node.expand_candidates(&universe, &mut cache4, chunk));
    }
    let merged_chunked = node.merge_results(partials);
    assert_eq!(summary(&merged_whole), summary(&merged_chunked));
    assert_eq!(summary(&merged_whole), summary(&routes1));
}

#[test]
fn fresh_universe_has_neutral_correction_factor() {
    let universe = two_station_universe();
    assert_eq!(universe.get_raw_adjustment_factor(), 1000);
    let state = player_at_station_one();
    let refreshed = state.refresh_time_adjustment(&universe);
    assert_eq!(refreshed.raw_adjustment_factor, 1000);
}

#[test]
fn stale_corrections_do_not_overwrite_fresh_data() {
    let mut universe = two_station_universe();
    // the market line was collected AFTER this correction was recorded
    let old_correction = PriceAdjustment {
        buy_price: None,
        sell_price: Some(10),
        supply: None,
        system_id: 2,
        station_id: 2,
        commodity_id: 7,
        timestamp: 500,
    };
    let _ = universe.apply_price_adjustment(&old_correction);
    let st = universe.get_station(2).expect("station 2 exists");
    assert_eq!(st.listings[0].sell_price, 150);
}

#[test]
fn name_lookups_are_case_insensitive() {
    let universe = two_station_universe();
    let sys = universe.get_system_by_name(&"aulin".to_string());
    assert!(sys.is_some());
    assert_eq!(sys.unwrap().system_id, 1);
    let stations = universe.get_stations_by_name(&"BOLG TERMINAL".to_string());
    assert_eq!(stations.len(), 1);
    assert_eq!(stations[0].station_id, 2);
    assert!(universe.get_system_by_name(&"unknown".to_string()).is_none());
}

#[test]
fn snapshot_is_independent() {
    let mut universe = two_station_universe();
    let snap = universe.snapshot();
    let correction = PriceAdjustment {
        buy_price: None,
        sell_price: Some(50),
        supply: None,
        system_id: 2,
        station_id: 2,
        commodity_id: 7,
        timestamp: 1_000_000,
    };
    let _ = universe.apply_price_adjustment(&correction);
    assert_eq!(universe.get_station(2).unwrap().listings[0].sell_price, 50);
    assert_eq!(snap.get_station(2).unwrap().listings[0].sell_price, 150);
}

#[test]
fn apply_trade_reduces_stock_and_drops_cache() {
    let mut universe = two_station_universe();
    let state = player_at_station_one();
    let mut cache = SearchCache::new();
    let node = SearchStation::new(state, SearchQuality::Medium);
    let trades = cache.get_1hop_trades(&universe, &node);
    let full = FullTrade::new(&state, trades[0].duplicate());
    assert_eq!(cache.len(), 1);
    universe.apply_trade(&full, &mut cache);
    assert_eq!(universe.get_station(1).unwrap().listings[0].supply, 0);
    assert_eq!(cache.len(), 0);
}
