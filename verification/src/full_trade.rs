use vstd::prelude::*;

verus! {

use crate::player_state::PlayerState;
use crate::search_quality::SearchQuality;
use crate::trader::Listing;
use crate::unit_trade::{spec_ppm_millicr, UnitTrade};

/// The tons the player can afford and carry: spare credits above the
/// reserve buy whole tons, clamped by the hold and by the stock. Nothing is
/// bought when the balance is at or under the reserve, or when the line
/// sells nothing (a zero price buys no tons).
pub open spec fn spec_used_cargo(state: PlayerState, buy_price: u32, supply: u32) -> int {
    if state.credit_balance < state.minimum_balance || buy_price == 0 {
        0
    } else {
        let affordable = (state.credit_balance - state.minimum_balance) / (buy_price as int);
        let capped = if affordable <= state.cargo_capacity {
            affordable
        } else {
            state.cargo_capacity as int
        };
        if capped <= supply {
            capped
        } else {
            supply as int
        }
    }
}

/// A hop is inexhaustible within the search horizon when, repeated as often
/// as the horizon allows, it neither runs out of stock nor out of credits:
/// the stock covers more full holds than half the search depth, and the
/// balance covers that many repeat purchases.
pub open spec fn spec_is_cyclic(state: PlayerState, unit: UnitTrade, is_valid: bool) -> bool {
    let cycles = SearchQuality::Ultra.spec_depth() as int;
    &&& is_valid
    &&& 2 * unit.supply > cycles * state.cargo_capacity
    &&& state.credit_balance > cycles * state.cargo_capacity * unit.buy_price / 2
}

/// A hop bound to the player's situation: how many tons change hands, what
/// the whole load earns, and whether the hop can seed a repeating loop.
#[derive(Clone, Debug)]
pub struct FullTrade {
    pub unit: UnitTrade,
    pub profit_total: u64,
    pub used_cargo: u32,
    /// Thousandths of a credit per minute for the whole load, saturating.
    pub profit_per_min: u64,
    pub is_valid: bool,
    pub is_cyclic: bool,
    /// The player situation the hop was priced against.
    pub state: PlayerState,
}

impl FullTrade {
    /// What a bound hop owes the situation and hop it was built from.
    pub open spec fn consistent_with(&self, state: PlayerState, unit: UnitTrade) -> bool {
        &&& self.unit == unit
        &&& self.used_cargo == spec_used_cargo(state, unit.buy_price, unit.supply)
        &&& self.profit_total == unit.profit_per_ton as int * self.used_cargo as int
        &&& self.profit_per_min == spec_load_ppm(unit.profit_per_ton_per_min, self.used_cargo)
        &&& self.is_valid == (unit.is_valid && self.used_cargo > 0)
        &&& self.is_cyclic == spec_is_cyclic(state, unit, self.is_valid)
        &&& self.spec_state() == state
    }

    /// The player situation the hop was priced against.
    pub open spec fn spec_state(&self) -> PlayerState {
        self.state
    }

    pub fn new(state: &PlayerState, unit: UnitTrade) -> (r: FullTrade)
        ensures
            r.consistent_with(*state, unit),
    {
        let used_cargo = FullTrade::used_cargo_of(state, unit.buy_price, unit.supply);
        let profit_per_min = FullTrade::profit_per_min(&unit, used_cargo);
        let is_valid = unit.is_valid && used_cargo > 0;
        let cycles: u64 = SearchQuality::Ultra.get_depth() as u64;
        proof {
            assert((unit.profit_per_ton as u64) * (used_cargo as u64) <= 0xffff_ffffu64
                * 0xffff_ffff) by (nonlinear_arith)
                requires
                    unit.profit_per_ton <= 0xffff_ffffu32,
                    used_cargo <= 0xffff_ffffu32,
            ;
            assert((cycles as u128) * (state.cargo_capacity as u128) * (unit.buy_price as u128)
                <= 9u128 * 0xffff_ffff * 0xffff_ffff) by (nonlinear_arith)
                requires
                    cycles == 9u64,
                    state.cargo_capacity <= 0xffff_ffffu32,
                    unit.buy_price <= 0xffff_ffffu32,
            ;
            assert(cycles * (state.cargo_capacity as u64) <= 9u64 * 0xffff_ffff)
                by (nonlinear_arith)
                requires
                    cycles == 9u64,
                    state.cargo_capacity <= 0xffff_ffffu32,
            ;
        }
        let cost_twice: u128 = (cycles as u128) * (state.cargo_capacity as u128) * (unit.buy_price
            as u128);
        let is_cyclic = is_valid && 2 * (unit.supply as u64) > cycles * (state.cargo_capacity
            as u64) && (state.credit_balance as u128) > cost_twice / 2;
        let profit_total = (unit.profit_per_ton as u64) * (used_cargo as u64);
        FullTrade {
            used_cargo,
            profit_total,
            profit_per_min,
            is_valid,
            is_cyclic,
            state: *state,
            unit,
        }
    }

    /// An exact copy of this bound hop.
    pub fn duplicate(&self) -> (r: FullTrade)
        ensures
            r == *self,
    {
        FullTrade {
            unit: self.unit.duplicate(),
            profit_total: self.profit_total,
            used_cargo: self.used_cargo,
            profit_per_min: self.profit_per_min,
            is_valid: self.is_valid,
            is_cyclic: self.is_cyclic,
            state: self.state,
        }
    }

    /// The player situation before the hop.
    pub fn state_before_trade(&self) -> (r: PlayerState)
        ensures
            r == self.spec_state(),
    {
        self.state
    }

    /// The player situation after the hop: docked at the destination, the
    /// load's earnings added to the balance.
    pub fn state_after_trade(&self) -> (r: PlayerState)
        ensures
            r == (PlayerState {
                station_id: self.unit.sell_station_id,
                system_id: self.unit.sell_system_id,
                credit_balance: (if self.spec_state().credit_balance + self.profit_total
                    <= u64::MAX {
                    (self.spec_state().credit_balance + self.profit_total) as u64
                } else {
                    u64::MAX
                }),
                ..self.spec_state()
            }),
    {
        self.state.with_trade(self)
    }

    /// The hop re-priced at a corrected sale price and re-bound to the same
    /// player situation.
    pub fn with_sell_price(&self, sell_price: u32) -> (r: FullTrade)
        ensures
            r.consistent_with(self.spec_state(), r.unit),
            r.unit.sell_price == sell_price,
            r.unit.buy_price == self.unit.buy_price,
            r.unit.is_valid == (self.unit.is_valid && self.unit.buy_price < sell_price),
    {
        let new_unit = self.unit.with_sell_price(sell_price);
        FullTrade::new(&self.state, new_unit)
    }

    /// How many full loads the stock covers, in thousandths; zero tons
    /// carried count as no load at all.
    pub fn max_runs(&self) -> (r: u64)
        ensures
            r == (if self.used_cargo == 0 {
                0
            } else {
                self.unit.supply as int * 1000 / self.used_cargo as int
            }),
    {
        if self.used_cargo == 0 {
            0
        } else {
            (self.unit.supply as u64) * 1000 / (self.used_cargo as u64)
        }
    }
}

/// Earnings rate of the whole load, in thousandths of a credit per minute,
/// saturating at the largest representable rate.
pub open spec fn spec_load_ppm(unit_ppm: u64, used_cargo: u32) -> int {
    if unit_ppm * used_cargo <= u64::MAX {
        unit_ppm * used_cargo
    } else {
        u64::MAX as int
    }
}

impl FullTrade {
    /// Earnings rate of the whole load.
    pub fn profit_per_min(unit: &UnitTrade, used_cargo: u32) -> (r: u64)
        ensures
            r == spec_load_ppm(unit.profit_per_ton_per_min, used_cargo),
    {
        proof {
            assert((unit.profit_per_ton_per_min as u128) * (used_cargo as u128)
                <= 0xffff_ffff_ffff_ffff_ffff_ffff_ffff_ffffu128) by (nonlinear_arith)
                requires
                    unit.profit_per_ton_per_min <= 0xffff_ffff_ffff_ffffu64,
                    used_cargo <= 0xffff_ffffu32,
            ;
        }
        let wide: u128 = (unit.profit_per_ton_per_min as u128) * (used_cargo as u128);
        if wide <= u64::MAX as u128 {
            wide as u64
        } else {
            u64::MAX
        }
    }

    /// The tons the player buys from `buy` in their situation.
    pub fn used_cargo(state: &PlayerState, buy: &Listing) -> (r: u32)
        ensures
            r == spec_used_cargo(*state, buy.buy_price, buy.supply),
            r <= state.cargo_capacity,
            r <= buy.supply,
            state.credit_balance <= state.minimum_balance ==> r == 0,
    {
        FullTrade::used_cargo_of(state, buy.buy_price, buy.supply)
    }

    /// The same clamp from the prices alone. The load never exceeds the
    /// hold or the stock, and a balance at or under the reserve buys
    /// nothing.
    pub fn used_cargo_of(state: &PlayerState, buy_price: u32, supply: u32) -> (r: u32)
        ensures
            r == spec_used_cargo(*state, buy_price, supply),
            r <= state.cargo_capacity,
            r <= supply,
            state.credit_balance <= state.minimum_balance ==> r == 0,
    {
        if state.credit_balance < state.minimum_balance || buy_price == 0 {
            return 0;
        }
        let affordable: u64 = (state.credit_balance - state.minimum_balance) / (buy_price as u64);
        let capped: u64 = if affordable <= state.cargo_capacity as u64 {
            affordable
        } else {
            state.cargo_capacity as u64
        };
        let used: u64 = if capped <= supply as u64 {
            capped
        } else {
            supply as u64
        };
        used as u32
    }
}

} // verus!
