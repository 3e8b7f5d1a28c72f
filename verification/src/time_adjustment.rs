use vstd::prelude::*;

verus! {

use crate::clock::now_unix_seconds;
use crate::full_trade::FullTrade;
use crate::scored_buf::Scored;
use crate::time_estimate::TimeEstimate;

/// One measured leg: the estimates the search used and the time the leg
/// really took, stamped with the moment it was recorded. The running
/// correction factor is the median of measured over estimated
/// station-approach times.
#[derive(Clone, Copy, Debug)]
pub struct TimeAdjustment {
    pub buy_system_id: u32,
    pub buy_station_id: u32,
    pub sell_system_id: u32,
    pub sell_station_id: u32,
    pub raw_estimate: TimeEstimate,
    pub adjusted_estimate: TimeEstimate,
    pub actual_time: TimeEstimate,
    pub timestamp: u64,
}

impl TimeAdjustment {
    /// Record how long `trade`'s leg really took, in milliseconds. A
    /// measurement shorter than the estimated jump travel means the timer
    /// ran unattended, and such a reading is discarded: jump estimates have
    /// proven solid.
    pub fn new(trade: &FullTrade, actual_ms: u64) -> (r: Option<TimeAdjustment>)
        ensures
            actual_ms < trade.unit.adjusted_time.time_to_system <==> r is None,
            r matches Some(t) ==> {
                &&& t.buy_system_id == trade.unit.buy_system_id
                &&& t.buy_station_id == trade.unit.buy_station_id
                &&& t.sell_system_id == trade.unit.sell_system_id
                &&& t.sell_station_id == trade.unit.sell_station_id
                &&& t.raw_estimate == trade.unit.normalized_time
                &&& t.adjusted_estimate == trade.unit.adjusted_time
                &&& t.actual_time.time_total == actual_ms
                &&& t.actual_time.time_to_system == trade.unit.normalized_time.time_to_system
                &&& t.actual_time.time_to_station == (if actual_ms
                    >= trade.unit.normalized_time.time_to_system {
                    actual_ms - trade.unit.normalized_time.time_to_system
                } else {
                    0
                })
            },
    {
        if actual_ms < trade.unit.adjusted_time.time_to_system {
            return None;
        }
        Some(
            TimeAdjustment {
                buy_system_id: trade.unit.buy_system_id,
                buy_station_id: trade.unit.buy_station_id,
                sell_system_id: trade.unit.sell_system_id,
                sell_station_id: trade.unit.sell_station_id,
                raw_estimate: trade.unit.normalized_time,
                adjusted_estimate: trade.unit.adjusted_time,
                actual_time: trade.unit.normalized_time.to_aboslute(actual_ms),
                timestamp: now_unix_seconds(),
            },
        )
    }
}

impl Scored for TimeAdjustment {
    open spec fn score_spec(&self) -> u64 {
        self.timestamp
    }

    fn score(&self) -> u64 {
        self.timestamp
    }
}

} // verus!
