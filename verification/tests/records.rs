use elite_trader::full_trade::FullTrade;
use elite_trader::player_state::PlayerState;
use elite_trader::time_adjustment::TimeAdjustment;
use elite_trader::time_estimate::TimeEstimate;
use elite_trader::trader::{Commodity, Listing, ShipSize, Station, System};
use elite_trader::unit_trade::UnitTrade;
use elite_trader::universe::Universe;
use elite_trader::update::PriceUpdate;
use elite_trader::eddb::{get_stations_by_system, StationJson};

fn sample_listing() -> Listing {
    Listing {
        system_id: 3,
        station_id: 9,
        commodity: Commodity {
            commodity_id: 42,
            commodity_name: "palladium".to_string(),
            category: "metals".to_string(),
        },
        supply: 7,
        buy_price: 11,
        sell_price: 13,
        collected_at: 77,
    }
}

#[test]
fn price_updates_carry_the_line_identity() {
    let line = sample_listing();
    let full = PriceUpdate::new(7, 11, 13, &line);
    assert_eq!(full.system_id, 3);
    assert_eq!(full.station_id, 9);
    assert_eq!(full.commodity_id, 42);
    assert_eq!(full.buy_price, Some(11));
    assert_eq!(full.sell_price, Some(13));
    assert_eq!(full.supply, Some(7));

    let sell_only = PriceUpdate::new_sell_update(99, &line);
    assert_eq!(sell_only.buy_price, None);
    assert_eq!(sell_only.supply, None);
    assert_eq!(sell_only.sell_price, Some(99));

    let buy_only = PriceUpdate::new_buy_update(8, 50, &line);
    assert_eq!(buy_only.sell_price, None);
    assert_eq!(buy_only.buy_price, Some(8));
    assert_eq!(buy_only.supply, Some(50));
}

#[test]
fn universe_rejects_positions_outside_the_volume() {
    let stray = System {
        system_id: 1,
        system_name: "Stray".to_string(),
        x: 2_000_000_000,
        y: 0,
        z: 0,
        needs_permit: false,
        updated_at: 0,
        stations: Vec::new(),
    };
    assert!(Universe::new(vec![stray]).is_none());
}

#[test]
fn unattended_time_measurements_are_discarded() {
    let estimate = TimeEstimate {
        distance_to_system: 10_000,
        distance_to_station: 100,
        jump_count_milli: 1000,
        time_to_station: 300_000,
        time_to_system: 200_000,
        time_total: 500_000,
    };
    let trade = FullTrade {
        unit: UnitTrade {
            commodity_id: 42,
            commodity_name: "palladium".to_string(),
            buy_system_id: 3,
            buy_station_id: 9,
            sell_system_id: 4,
            sell_station_id: 10,
            buy_price: 11,
            sell_price: 13,
            supply: 7,
            is_valid: true,
            is_prohibited: false,
            profit_per_ton: 2,
            profit_per_ton_per_min: 240,
            normalized_time: estimate,
            adjusted_time: estimate,
        },
        profit_total: 14,
        used_cargo: 7,
        profit_per_min: 1_680,
        is_valid: true,
        is_cyclic: false,
        state: PlayerState::new(3, 9, 1_000, 0, 20_000, 7, 1000),
    };
    // shorter than the jump estimate: the timer ran unattended
    assert!(TimeAdjustment::new(&trade, 100_000).is_none());
    // a plausible measurement is recorded and rebased
    let recorded = TimeAdjustment::new(&trade, 800_000).expect("plausible measurement");
    assert_eq!(recorded.actual_time.time_total, 800_000);
    assert_eq!(recorded.actual_time.time_to_system, 200_000);
    assert_eq!(recorded.actual_time.time_to_station, 600_000);
    assert_eq!(recorded.sell_station_id, 10);
}

#[test]
fn stations_resolve_inside_their_system() {
    let st = Station {
        system_id: 1,
        station_id: 5,
        station_name: "Glass City".to_string(),
        max_landing_pad_size: ShipSize::Medium,
        distance_to_star: None,
        updated_at: 0,
        market_updated_at: None,
        is_planetary: false,
        prohibited_commodities: vec![42],
        listings: Vec::new(),
    };
    let sys = System {
        system_id: 1,
        system_name: "Lave".to_string(),
        x: 0,
        y: 0,
        z: 0,
        needs_permit: false,
        updated_at: 0,
        stations: vec![st],
    };
    let found = sys.get_station_by_name("glass CITY");
    assert!(found.is_some());
    assert_eq!(found.unwrap().station_id, 5);
    assert!(sys.get_station_by_name("steel city").is_none());

    // the blacklist is a risk flag the search consults
    let commodity = Commodity {
        commodity_id: 42,
        commodity_name: "palladium".to_string(),
        category: "metals".to_string(),
    };
    assert!(UnitTrade::is_prohibited(&commodity, &sys.stations[0]));
    let other = Commodity {
        commodity_id: 43,
        commodity_name: "gold".to_string(),
        category: "metals".to_string(),
    };
    assert!(!UnitTrade::is_prohibited(&other, &sys.stations[0]));
}

#[test]
fn archive_records_group_by_their_owner() {
    let record = |id: u32, system_id: u32| StationJson {
        id,
        system_id,
        name: format!("station {}", id),
        max_landing_pad_size: None,
        distance_to_star: None,
        prohibited_commodities: Vec::new(),
        updated_at: 0,
        market_updated_at: None,
        is_planetary: None,
    };
    let stations = vec![record(10, 1), record(11, 2), record(12, 1)];
    let grouped = get_stations_by_system(&stations);
    assert_eq!(grouped.len(), 2);
    assert_eq!(grouped.get(&1), Some(&vec![0usize, 2usize]));
    assert_eq!(grouped.get(&2), Some(&vec![1usize]));
    assert_eq!(grouped.get(&3), None);
}

#[test]
fn load_filter_drops_permits_small_pads_and_prohibited_lines() {
    let keep = System {
        system_id: 1,
        system_name: "Open".to_string(),
        x: 0,
        y: 0,
        z: 0,
        needs_permit: false,
        updated_at: 0,
        stations: vec![
            Station {
                system_id: 1,
                station_id: 1,
                station_name: "Big Pad".to_string(),
                max_landing_pad_size: ShipSize::Large,
                distance_to_star: None,
                updated_at: 0,
                market_updated_at: None,
                is_planetary: false,
                prohibited_commodities: vec![42],
                listings: vec![
                    Listing {
                        system_id: 1,
                        station_id: 1,
                        commodity: Commodity {
                            commodity_id: 42,
                            commodity_name: "palladium".to_string(),
                            category: "metals".to_string(),
                        },
                        supply: 5,
                        buy_price: 10,
                        sell_price: 20,
                        collected_at: 0,
                    },
                    Listing {
                        system_id: 1,
                        station_id: 1,
                        commodity: Commodity {
                            commodity_id: 43,
                            commodity_name: "gold".to_string(),
                            category: "metals".to_string(),
                        },
                        supply: 5,
                        buy_price: 10,
                        sell_price: 20,
                        collected_at: 0,
                    },
                ],
            },
            Station {
                system_id: 1,
                station_id: 2,
                station_name: "Small Pad".to_string(),
                max_landing_pad_size: ShipSize::Small,
                distance_to_star: None,
                updated_at: 0,
                market_updated_at: None,
                is_planetary: false,
                prohibited_commodities: Vec::new(),
                listings: Vec::new(),
            },
        ],
    };
    let gated = System {
        system_id: 2,
        system_name: "Gated".to_string(),
        x: 0,
        y: 0,
        z: 0,
        needs_permit: true,
        updated_at: 0,
        stations: Vec::new(),
    };
    let filtered = Universe::filter_systems(vec![keep, gated], &ShipSize::Medium);
    assert_eq!(filtered.len(), 1);
    assert_eq!(filtered[0].system_id, 1);
    assert_eq!(filtered[0].stations.len(), 1);
    assert_eq!(filtered[0].stations[0].station_id, 1);
    let lines = &filtered[0].stations[0].listings;
    assert_eq!(lines.len(), 1);
    assert_eq!(lines[0].commodity.commodity_id, 43);
}
