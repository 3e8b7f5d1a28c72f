use vstd::prelude::*;

verus! {

use crate::full_trade::FullTrade;
use crate::search_quality::SearchQuality;

/// One hop already taken on the current search path: where it bought, what
/// the load earned, how long the leg took, and whether the hop could seed a
/// repeating loop.
#[derive(Clone, Copy, Debug)]
pub struct SearchCycleElement {
    pub buy_station_id: u32,
    pub profit_total: u64,
    pub time_total: u64,
    pub is_cyclic: bool,
}

impl SearchCycleElement {
    pub fn new(trade: &FullTrade) -> (r: SearchCycleElement)
        ensures
            r == spec_element_of(trade),
    {
        SearchCycleElement {
            buy_station_id: trade.unit.buy_station_id,
            profit_total: trade.profit_total,
            time_total: trade.unit.adjusted_time.time_total,
            is_cyclic: trade.is_cyclic,
        }
    }
}

/// The element a hop contributes to the path history.
pub open spec fn spec_element_of(trade: &FullTrade) -> SearchCycleElement {
    SearchCycleElement {
        buy_station_id: trade.unit.buy_station_id,
        profit_total: trade.profit_total,
        time_total: trade.unit.adjusted_time.time_total,
        is_cyclic: trade.is_cyclic,
    }
}

/// What repeating a detected loop for the rest of the horizon would earn
/// and cost in time.
#[derive(Clone, Copy, Debug)]
pub struct SearchCycle {
    pub profit_total: u64,
    pub time_total: u64,
}

/// Walking the path history backward from its most recent hop: sum profit
/// and time while every hop is loop-eligible; the first hop that bought at
/// `buy_station_id` closes a loop, and the summed loop is scaled to the
/// `depth_remaining` hops the horizon still allows, spread over the loop's
/// length. A hop that is not loop-eligible ends the walk with no loop
/// found.
pub open spec fn spec_find_cycle(
    elems: Seq<SearchCycleElement>,
    buy_station_id: u32,
    depth_remaining: int,
    profit_acc: int,
    time_acc: int,
    len_acc: int,
) -> Option<(int, int)>
    decreases elems.len(),
{
    if elems.len() == 0 {
        None
    } else {
        let e = elems.last();
        if !e.is_cyclic {
            None
        } else {
            let p = profit_acc + e.profit_total;
            let t = time_acc + e.time_total;
            let l = len_acc + 1;
            if e.buy_station_id == buy_station_id {
                Some((depth_remaining * p / l, depth_remaining * t / l))
            } else {
                spec_find_cycle(elems.drop_last(), buy_station_id, depth_remaining, p, t, l)
            }
        }
    }
}

/// The ordered history of hops on one search path. Each recursion branch
/// extends its own copy, so sibling branches never share history.
#[derive(Debug)]
pub struct SearchCycleTracker {
    cycles: Vec<SearchCycleElement>,
}

impl View for SearchCycleTracker {
    type V = Seq<SearchCycleElement>;

    closed spec fn view(&self) -> Seq<SearchCycleElement> {
        self.cycles@
    }
}

impl SearchCycleTracker {
    pub fn new(search_quality: &SearchQuality) -> (r: SearchCycleTracker)
        ensures
            r@ == Seq::<SearchCycleElement>::empty(),
    {
        SearchCycleTracker { cycles: Vec::with_capacity(search_quality.get_depth()) }
    }

    /// A copy of this history with `trade` appended; this history itself
    /// is left untouched for the sibling branches.
    pub fn push(&self, trade: &FullTrade) -> (r: SearchCycleTracker)
        ensures
            r@ == self@.push(spec_element_of(trade)),
    {
        let mut copied: Vec<SearchCycleElement> = Vec::with_capacity(self.cycles.len());
        let n = self.cycles.len();
        let mut i: usize = 0;
        while i < n
            invariant
                0 <= i <= n,
                n == self@.len(),
                copied@ == self@.take(i as int),
            decreases n - i,
        {
            copied.push(self.cycles[i]);
            proof {
                assert(copied@ =~= self@.take(i as int + 1));
            }
            i += 1;
        }
        proof {
            assert(copied@ =~= self@);
        }
        copied.push(SearchCycleElement::new(trade));
        SearchCycleTracker { cycles: copied }
    }

    /// Look for a loop that returns to the station `trade` buys at, and
    /// extrapolate it over the `depth_remaining` hops the horizon still
    /// allows. Sums saturate at the largest representable value.
    pub fn find_cycle(&self, trade: &FullTrade, depth_remaining: usize) -> (r: Option<SearchCycle>)
        requires
            depth_remaining <= 0xffff_ffff,
            self@.len() <= 0xffff_ffff,
        ensures
            match spec_find_cycle(
                self@,
                trade.unit.buy_station_id,
                depth_remaining as int,
                0,
                0,
                0,
            ) {
                None => r is None,
                Some((p, t)) => r matches Some(c) && c.profit_total == (if p <= u64::MAX {
                    p
                } else {
                    u64::MAX as int
                }) && c.time_total == (if t <= u64::MAX {
                    t
                } else {
                    u64::MAX as int
                }),
            },
    {
        let b = trade.unit.buy_station_id;
        let ghost dr = depth_remaining as int;
        let mut profit_acc: u128 = 0;
        let mut time_acc: u128 = 0;
        let mut len_acc: u64 = 0;
        let mut i = self.cycles.len();
        proof {
            assert(self@.take(i as int) =~= self@);
        }
        while i > 0
            invariant
                b == trade.unit.buy_station_id,
                dr == depth_remaining as int,
                0 <= i <= self@.len(),
                profit_acc == spec_sum_profit(self@, i as int),
                time_acc == spec_sum_time(self@, i as int),
                len_acc == self@.len() - i,
                self@.len() <= 0xffff_ffff,
                len_acc <= 0xffff_ffff,
                depth_remaining <= 0xffff_ffff,
                profit_acc <= len_acc as u128 * 0xffff_ffff_ffff_ffff,
                time_acc <= len_acc as u128 * 0xffff_ffff_ffff_ffff,
                spec_find_cycle(self@, b, dr, 0, 0, 0) == spec_find_cycle(
                    self@.take(i as int),
                    b,
                    dr,
                    profit_acc as int,
                    time_acc as int,
                    len_acc as int,
                ),
            decreases i,
        {
            let ghost i0 = i as int;
            let ghost p0 = profit_acc as int;
            let ghost t0 = time_acc as int;
            let ghost l0 = len_acc as int;
            proof {
                assert(self@.take(i0).len() == i0);
                assert(self@.take(i0).last() == self@[i0 - 1]);
                assert(self@.take(i0).drop_last() =~= self@.take(i0 - 1));
            }
            let e = &self.cycles[i - 1];
            if !e.is_cyclic {
                proof {
                    assert(spec_find_cycle(self@.take(i0), b, dr, p0, t0, l0) is None);
                }
                return None;
            }
            proof {
                assert((len_acc as u128 + 1) * 0xffff_ffff_ffff_ffff == len_acc as u128
                    * 0xffff_ffff_ffff_ffff + 0xffff_ffff_ffff_ffff) by (nonlinear_arith);
            }
            profit_acc = profit_acc + e.profit_total as u128;
            time_acc = time_acc + e.time_total as u128;
            len_acc = len_acc + 1;
            i -= 1;
            if e.buy_station_id == b {
                proof {
                    assert(profit_acc <= 0xffff_ffffu128 * 0xffff_ffff_ffff_ffff)
                        by (nonlinear_arith)
                        requires
                            profit_acc <= len_acc as u128 * 0xffff_ffff_ffff_ffff,
                            len_acc as u128 <= 0xffff_ffffu128,
                    ;
                    assert(time_acc <= 0xffff_ffffu128 * 0xffff_ffff_ffff_ffff)
                        by (nonlinear_arith)
                        requires
                            time_acc <= len_acc as u128 * 0xffff_ffff_ffff_ffff,
                            len_acc as u128 <= 0xffff_ffffu128,
                    ;
                    assert((depth_remaining as u128) * profit_acc <= 0xffff_ffffu128 * (
                    0xffff_ffffu128 * 0xffff_ffff_ffff_ffff)) by (nonlinear_arith)
                        requires
                            depth_remaining as u128 <= 0xffff_ffffu128,
                            profit_acc <= 0xffff_ffffu128 * 0xffff_ffff_ffff_ffff,
                    ;
                    assert((depth_remaining as u128) * time_acc <= 0xffff_ffffu128 * (
                    0xffff_ffffu128 * 0xffff_ffff_ffff_ffff)) by (nonlinear_arith)
                        requires
                            depth_remaining as u128 <= 0xffff_ffffu128,
                            time_acc <= 0xffff_ffffu128 * 0xffff_ffff_ffff_ffff,
                    ;
                    assert(spec_find_cycle(self@.take(i0), b, dr, p0, t0, l0) == Some(
                        ((dr * (profit_acc as int) / (len_acc as int)), (dr * (time_acc as int) / (
                        len_acc as int))),
                    ));
                }
                let scaled_p: u128 = (depth_remaining as u128) * profit_acc / (len_acc as u128);
                let scaled_t: u128 = (depth_remaining as u128) * time_acc / (len_acc as u128);
                let profit_total: u64 = if scaled_p <= u64::MAX as u128 {
                    scaled_p as u64
                } else {
                    u64::MAX
                };
                let time_total: u64 = if scaled_t <= u64::MAX as u128 {
                    scaled_t as u64
                } else {
                    u64::MAX
                };
                return Some(SearchCycle { profit_total, time_total });
            }
            proof {
                assert(spec_find_cycle(self@.take(i0), b, dr, p0, t0, l0) == spec_find_cycle(
                    self@.take(i as int),
                    b,
                    dr,
                    profit_acc as int,
                    time_acc as int,
                    len_acc as int,
                ));
            }
        }
        proof {
            assert(self@.take(0) =~= Seq::<SearchCycleElement>::empty());
        }
        None
    }
}

/// Profit summed over the hops from position `i` to the end of the history.
pub open spec fn spec_sum_profit(elems: Seq<SearchCycleElement>, i: int) -> int
    decreases elems.len() - i,
{
    if i < 0 || i >= elems.len() {
        0
    } else {
        elems[i].profit_total + spec_sum_profit(elems, i + 1)
    }
}

/// Time summed over the hops from position `i` to the end of the history.
pub open spec fn spec_sum_time(elems: Seq<SearchCycleElement>, i: int) -> int
    decreases elems.len() - i,
{
    if i < 0 || i >= elems.len() {
        0
    } else {
        elems[i].time_total + spec_sum_time(elems, i + 1)
    }
}

} // verus!
