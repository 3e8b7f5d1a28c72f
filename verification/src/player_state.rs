use vstd::prelude::*;

verus! {

use crate::full_trade::FullTrade;
use crate::trader::Station;

/// The player's situation between two trades: where they are docked, what
/// they hold, and what their ship can do. Values of this type are never
/// mutated; every trade yields a fresh one.
///
/// Credits are in whole credits, the jump range in milli-light-years, the
/// empirical travel-time correction factor in thousandths.
#[derive(Clone, Copy, Debug)]
pub struct PlayerState {
    pub system_id: u32,
    pub station_id: u32,
    pub credit_balance: u64,
    pub minimum_balance: u64,
    pub jump_range: u32,
    pub cargo_capacity: u32,
    pub raw_adjustment_factor: u32,
}

impl PlayerState {
    pub fn new(
        system_id: u32,
        station_id: u32,
        credit_balance: u64,
        minimum_balance: u64,
        jump_range: u32,
        cargo_capacity: u32,
        raw_adjustment_factor: u32,
    ) -> (r: PlayerState)
        ensures
            r == (PlayerState {
                system_id,
                station_id,
                credit_balance,
                minimum_balance,
                jump_range,
                cargo_capacity,
                raw_adjustment_factor,
            }),
    {
        PlayerState {
            system_id,
            station_id,
            credit_balance,
            minimum_balance,
            jump_range,
            cargo_capacity,
            raw_adjustment_factor,
        }
    }

    /// The same situation, docked at `station`.
    pub fn with_station(&self, station: &Station) -> (r: PlayerState)
        ensures
            r == (PlayerState {
                station_id: station.station_id,
                system_id: station.system_id,
                ..*self
            }),
    {
        PlayerState { station_id: station.station_id, system_id: station.system_id, ..*self }
    }

    /// The situation after carrying out `trade`: docked where it sells,
    /// with its earnings added to the balance (saturating at the largest
    /// representable balance).
    pub fn with_trade(&self, trade: &FullTrade) -> (r: PlayerState)
        ensures
            r == (PlayerState {
                station_id: trade.unit.sell_station_id,
                system_id: trade.unit.sell_system_id,
                credit_balance: (if self.credit_balance + trade.profit_total <= u64::MAX {
                    (self.credit_balance + trade.profit_total) as u64
                } else {
                    u64::MAX
                }),
                ..*self
            }),
    {
        let credit_balance = match self.credit_balance.checked_add(trade.profit_total) {
            Some(v) => v,
            None => u64::MAX,
        };
        PlayerState {
            station_id: trade.unit.sell_station_id,
            system_id: trade.unit.sell_system_id,
            credit_balance,
            ..*self
        }
    }
}

} // verus!
