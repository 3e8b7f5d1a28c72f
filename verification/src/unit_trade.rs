use vstd::prelude::*;

verus! {

use crate::player_state::PlayerState;
use crate::scored_buf::Scored;
use crate::time_estimate::{spec_station_ls, TimeEstimate, FACTOR_UNIT_MILLI};
use crate::trader::{spec_dist2, Commodity, Listing, Station, System};

/// A buy-and-sell pair is tradable exactly when the origin has stock, the
/// origin actually sells the good, the sale fetches strictly more than the
/// purchase costs, and both lines concern the same commodity.
pub open spec fn spec_is_valid(buy: &Listing, sell: &Listing) -> bool {
    &&& buy.supply > 0
    &&& buy.buy_price != 0
    &&& buy.buy_price < sell.sell_price
    &&& buy.commodity.commodity_id == sell.commodity.commodity_id
}

/// What one bought-and-sold ton earns: the price difference, and nothing
/// below zero.
pub open spec fn spec_profit_per_ton(buy: &Listing, sell: &Listing) -> u32 {
    if sell.sell_price > buy.buy_price {
        (sell.sell_price - buy.buy_price) as u32
    } else {
        0
    }
}

/// Earnings rate in thousandths of a credit per minute for one ton traded
/// at `profit_per_ton`, over a leg of `time_total_ms`. A zero time would
/// leave the rate undefined; the guarded fallback treats the leg as one
/// minute, though the fixed overheads keep real legs strictly positive.
pub open spec fn spec_ppm_millicr(profit_per_ton: u32, time_total_ms: int) -> int {
    if time_total_ms == 0 {
        profit_per_ton * 60_000
    } else {
        profit_per_ton * 60_000_000 / time_total_ms
    }
}

/// One buy-then-sell hop, priced and timed: the market lines it came from
/// (copied, not borrowed), its validity and risk flags, and its per-ton
/// economics.
#[derive(Clone, Debug)]
pub struct UnitTrade {
    pub commodity_id: u16,
    pub commodity_name: String,

    pub buy_system_id: u32,
    pub buy_station_id: u32,
    pub sell_system_id: u32,
    pub sell_station_id: u32,

    pub buy_price: u32,
    pub sell_price: u32,
    pub supply: u32,

    pub is_valid: bool,
    pub is_prohibited: bool,

    pub profit_per_ton: u32,
    /// Thousandths of a credit per minute for one ton.
    pub profit_per_ton_per_min: u64,

    pub normalized_time: TimeEstimate,
    pub adjusted_time: TimeEstimate,
}

impl UnitTrade {
    /// What a hop built from these lines, stations and systems owes them.
    pub open spec fn consistent_with(
        &self,
        state: PlayerState,
        buy_system: System,
        buy_station: Station,
        buy: Listing,
        sell_system: System,
        sell_station: Station,
        sell: Listing,
    ) -> bool {
        &&& self.commodity_id == buy.commodity.commodity_id
        &&& self.commodity_name == buy.commodity.commodity_name
        &&& self.buy_system_id == buy_system.system_id
        &&& self.buy_station_id == buy_station.station_id
        &&& self.sell_system_id == sell_station.system_id
        &&& self.sell_station_id == sell_station.station_id
        &&& self.buy_price == buy.buy_price
        &&& self.sell_price == sell.sell_price
        &&& self.supply == buy.supply
        &&& self.is_valid == spec_is_valid(&buy, &sell)
        &&& self.is_prohibited == sell_station.prohibited_commodities@.contains(
            buy.commodity.commodity_id,
        )
        &&& self.profit_per_ton == spec_profit_per_ton(&buy, &sell)
        &&& self.profit_per_ton_per_min == spec_ppm_millicr(
            self.profit_per_ton,
            self.adjusted_time.time_total as int,
        )
        &&& self.normalized_time.consistent_with(
            crate::spec_isqrt(
                spec_dist2(
                    buy_system.x as int,
                    buy_system.y as int,
                    buy_system.z as int,
                    sell_system.x as int,
                    sell_system.y as int,
                    sell_system.z as int,
                ),
            ),
            spec_station_ls(&sell_station),
            state.jump_range,
            FACTOR_UNIT_MILLI,
        )
        &&& self.adjusted_time.consistent_with(
            crate::spec_isqrt(
                spec_dist2(
                    buy_system.x as int,
                    buy_system.y as int,
                    buy_system.z as int,
                    sell_system.x as int,
                    sell_system.y as int,
                    sell_system.z as int,
                ),
            ),
            spec_station_ls(&sell_station),
            state.jump_range,
            state.raw_adjustment_factor,
        )
    }

    /// Build a hop from resolved systems, stations and market lines.
    pub fn new_unpacked(
        state: &PlayerState,
        buy_system: &System,
        buy_station: &Station,
        buy: &Listing,
        sell_system: &System,
        sell_station: &Station,
        sell: &Listing,
    ) -> (r: UnitTrade)
        requires
            buy_system.in_volume(),
            sell_system.in_volume(),
        ensures
            r.consistent_with(
                *state,
                *buy_system,
                *buy_station,
                *buy,
                *sell_system,
                *sell_station,
                *sell,
            ),
    {
        let normalized_time = TimeEstimate::new_normalized_estimate(
            state,
            buy_system,
            sell_system,
            sell_station,
        );
        let adjusted_time = TimeEstimate::new_adjusted_estimate(
            state,
            buy_system,
            sell_system,
            sell_station,
        );
        let profit_per_ton = UnitTrade::profit_per_ton(buy, sell);
        let profit_per_ton_per_min = UnitTrade::profit_per_ton_per_min_of(
            profit_per_ton,
            adjusted_time.time_total,
        );
        UnitTrade {
            commodity_id: buy.commodity.commodity_id,
            commodity_name: buy.commodity.commodity_name.clone(),
            buy_system_id: buy_system.system_id,
            buy_station_id: buy_station.station_id,
            sell_system_id: sell_station.system_id,
            sell_station_id: sell_station.station_id,
            buy_price: buy.buy_price,
            sell_price: sell.sell_price,
            supply: buy.supply,
            is_valid: UnitTrade::is_valid(buy, sell),
            is_prohibited: UnitTrade::is_prohibited(&buy.commodity, sell_station),
            profit_per_ton,
            profit_per_ton_per_min,
            normalized_time,
            adjusted_time,
        }
    }

    /// The same hop under a corrected sale price: the per-ton economics are
    /// recomputed, and validity is re-evaluated against the corrected
    /// price; a pair that was invalid for another reason stays invalid.
    pub fn with_sell_price(&self, sell_price: u32) -> (r: UnitTrade)
        ensures
            r.sell_price == sell_price,
            r.is_valid == (self.is_valid && self.buy_price < sell_price),
            r.profit_per_ton == (if sell_price > self.buy_price {
                (sell_price - self.buy_price) as u32
            } else {
                0u32
            }),
            r.profit_per_ton_per_min == spec_ppm_millicr(
                r.profit_per_ton,
                self.adjusted_time.time_total as int,
            ),
            r.commodity_id == self.commodity_id,
            r.commodity_name == self.commodity_name,
            r.buy_system_id == self.buy_system_id,
            r.buy_station_id == self.buy_station_id,
            r.sell_system_id == self.sell_system_id,
            r.sell_station_id == self.sell_station_id,
            r.buy_price == self.buy_price,
            r.supply == self.supply,
            r.is_prohibited == self.is_prohibited,
            r.normalized_time == self.normalized_time,
            r.adjusted_time == self.adjusted_time,
    {
        let profit_per_ton: u32 = if sell_price > self.buy_price {
            sell_price - self.buy_price
        } else {
            0
        };
        let profit_per_ton_per_min = UnitTrade::profit_per_ton_per_min_of(
            profit_per_ton,
            self.adjusted_time.time_total,
        );
        UnitTrade {
            commodity_id: self.commodity_id,
            commodity_name: self.commodity_name.clone(),
            buy_system_id: self.buy_system_id,
            buy_station_id: self.buy_station_id,
            sell_system_id: self.sell_system_id,
            sell_station_id: self.sell_station_id,
            buy_price: self.buy_price,
            sell_price,
            supply: self.supply,
            is_valid: self.is_valid && self.buy_price < sell_price,
            is_prohibited: self.is_prohibited,
            profit_per_ton,
            profit_per_ton_per_min,
            normalized_time: self.normalized_time,
            adjusted_time: self.adjusted_time,
        }
    }

    /// An exact copy of this hop.
    pub fn duplicate(&self) -> (r: UnitTrade)
        ensures
            r == *self,
    {
        UnitTrade {
            commodity_id: self.commodity_id,
            commodity_name: self.commodity_name.clone(),
            buy_system_id: self.buy_system_id,
            buy_station_id: self.buy_station_id,
            sell_system_id: self.sell_system_id,
            sell_station_id: self.sell_station_id,
            buy_price: self.buy_price,
            sell_price: self.sell_price,
            supply: self.supply,
            is_valid: self.is_valid,
            is_prohibited: self.is_prohibited,
            profit_per_ton: self.profit_per_ton,
            profit_per_ton_per_min: self.profit_per_ton_per_min,
            normalized_time: self.normalized_time,
            adjusted_time: self.adjusted_time,
        }
    }

    /// The credits this hop could earn if its whole supply were carried.
    pub fn credit_potential(&self) -> (r: u64)
        ensures
            r == self.profit_per_ton as u64 * self.supply as u64,
    {
        assert(self.profit_per_ton as u64 * self.supply as u64 <= 0xffff_ffffu64 * 0xffff_ffff)
            by (nonlinear_arith)
            requires
                self.profit_per_ton <= 0xffff_ffffu32,
                self.supply <= 0xffff_ffffu32,
        ;
        self.profit_per_ton as u64 * self.supply as u64
    }
}

impl UnitTrade {
    /// What one bought-and-sold ton earns.
    pub fn profit_per_ton(buy: &Listing, sell: &Listing) -> (r: u32)
        ensures
            r == spec_profit_per_ton(buy, sell),
    {
        if sell.sell_price > buy.buy_price {
            sell.sell_price - buy.buy_price
        } else {
            0
        }
    }

    /// Whether the pair can be traded at all.
    pub fn is_valid(buy: &Listing, sell: &Listing) -> (r: bool)
        ensures
            r == spec_is_valid(buy, sell),
    {
        buy.supply > 0 && buy.buy_price != 0 && buy.buy_price < sell.sell_price
            && buy.commodity.commodity_id == sell.commodity.commodity_id
    }

    /// Whether the destination blacklists the commodity: a risk flag, not a
    /// hard filter.
    pub fn is_prohibited(commodity: &Commodity, sell_station: &Station) -> (r: bool)
        ensures
            r == sell_station.prohibited_commodities@.contains(commodity.commodity_id),
    {
        let n = sell_station.prohibited_commodities.len();
        let mut i: usize = 0;
        while i < n
            invariant
                0 <= i <= n,
                n == sell_station.prohibited_commodities@.len(),
                forall|k: int|
                    0 <= k < i ==> (#[trigger] sell_station.prohibited_commodities@[k])
                        != commodity.commodity_id,
            decreases n - i,
        {
            if sell_station.prohibited_commodities[i] == commodity.commodity_id {
                return true;
            }
            i += 1;
        }
        false
    }

    /// Earnings rate for one ton of this pair over the given leg time.
    pub fn profit_per_ton_per_min(buy: &Listing, sell: &Listing, time_total_ms: u64) -> (r: u64)
        ensures
            r == (if spec_is_valid(buy, sell) {
                spec_ppm_millicr(spec_profit_per_ton(buy, sell), time_total_ms as int)
            } else {
                0
            }),
    {
        if !UnitTrade::is_valid(buy, sell) {
            return 0;
        }
        let profit_per_ton = UnitTrade::profit_per_ton(buy, sell);
        UnitTrade::profit_per_ton_per_min_of(profit_per_ton, time_total_ms)
    }

    /// The rate itself, from a per-ton profit already known.
    pub fn profit_per_ton_per_min_of(profit_per_ton: u32, time_total_ms: u64) -> (r: u64)
        ensures
            r == spec_ppm_millicr(profit_per_ton, time_total_ms as int),
    {
        if time_total_ms == 0 {
            profit_per_ton as u64 * 60_000
        } else {
            profit_per_ton as u64 * 60_000_000 / time_total_ms
        }
    }
}

impl Scored for UnitTrade {
    open spec fn score_spec(&self) -> u64 {
        self.profit_per_ton_per_min
    }

    fn score(&self) -> u64 {
        self.profit_per_ton_per_min
    }
}

} // verus!
