use vstd::prelude::*;

verus! {

use crate::full_trade::FullTrade;
use crate::player_state::PlayerState;
use crate::scored_buf::{spec_push_all, Scored, ScoredCircularBuffer, ScoredItem, Sort};
use crate::search_cache::SearchCache;
use crate::search_cycle::{SearchCycle, SearchCycleTracker};
use crate::search_quality::SearchQuality;
use crate::unit_trade::UnitTrade;
use crate::universe::Universe;

/// The rate a route earns, in thousandths of a credit per minute,
/// saturating; a zero-time route is rated as if it took one minute, though
/// the fixed per-leg overheads keep real routes strictly positive.
pub open spec fn spec_route_score(profit_total: u64, time_total: u64) -> u64 {
    let p = profit_total as int;
    let t = time_total as int;
    if t == 0 {
        if p * 60_000 <= u64::MAX {
            (p * 60_000) as u64
        } else {
            u64::MAX
        }
    } else {
        if p * 60_000_000 / t <= u64::MAX {
            (p * 60_000_000 / t) as u64
        } else {
            u64::MAX
        }
    }
}

/// Saturating addition.
pub open spec fn spec_sat_add(a: u64, b: u64) -> u64 {
    if a + b <= u64::MAX {
        (a + b) as u64
    } else {
        u64::MAX
    }
}

/// Saturating addition, executable form.
fn sat_add(a: u64, b: u64) -> (r: u64)
    ensures
        r == spec_sat_add(a, b),
{
    match a.checked_add(b) {
        Some(v) => v,
        None => u64::MAX,
    }
}

/// A candidate route: its first hop, with the profit and time accumulated
/// transitively through the remainder of the route. This is the unit the
/// recursive search scores and bounds.
#[derive(Debug)]
pub struct SearchResult {
    pub trade: FullTrade,
    pub profit_total: u64,
    pub time_total: u64,
}

impl SearchResult {
    /// A one-hop route.
    pub fn new(trade: FullTrade) -> (r: SearchResult)
        ensures
            r.trade == trade,
            r.profit_total == trade.profit_total,
            r.time_total == trade.unit.adjusted_time.time_total,
    {
        let profit_total = trade.profit_total;
        let time_total = trade.unit.adjusted_time.time_total;
        SearchResult { trade, profit_total, time_total }
    }

    /// This route extended so that `trade` becomes its reported first hop;
    /// sums saturate.
    pub fn with_trade(&self, trade: &FullTrade) -> (r: SearchResult)
        ensures
            r.trade == *trade,
            r.profit_total == spec_sat_add(self.profit_total, trade.profit_total),
            r.time_total == spec_sat_add(
                self.time_total,
                trade.unit.adjusted_time.time_total,
            ),
    {
        SearchResult {
            trade: trade.duplicate(),
            profit_total: sat_add(self.profit_total, trade.profit_total),
            time_total: sat_add(self.time_total, trade.unit.adjusted_time.time_total),
        }
    }

    /// This route with a detected loop's extrapolated earnings and time
    /// folded in; sums saturate.
    pub fn with_cycle(&self, cycle: &SearchCycle) -> (r: SearchResult)
        ensures
            r.trade == self.trade,
            r.profit_total == spec_sat_add(self.profit_total, cycle.profit_total),
            r.time_total == spec_sat_add(self.time_total, cycle.time_total),
    {
        SearchResult {
            trade: self.trade.duplicate(),
            profit_total: sat_add(self.profit_total, cycle.profit_total),
            time_total: sat_add(self.time_total, cycle.time_total),
        }
    }

    /// This route's hop followed by the best continuation `other`; sums
    /// saturate.
    pub fn with_score(&self, other: &SearchResult) -> (r: SearchResult)
        ensures
            r.trade == self.trade,
            r.profit_total == spec_sat_add(self.profit_total, other.profit_total),
            r.time_total == spec_sat_add(self.time_total, other.time_total),
    {
        SearchResult {
            trade: self.trade.duplicate(),
            profit_total: sat_add(self.profit_total, other.profit_total),
            time_total: sat_add(self.time_total, other.time_total),
        }
    }

    /// The route's earnings rate, in thousandths of a credit per minute.
    pub fn profit_per_min(&self) -> (r: u64)
        ensures
            r == spec_route_score(self.profit_total, self.time_total),
    {
        if self.time_total == 0 {
            proof {
                assert(self.profit_total * 60_000 <= 0xffff_ffff_ffff_ffffu64 * 60_000);
            }
            if self.profit_total <= u64::MAX / 60_000 {
                self.profit_total * 60_000
            } else {
                proof {
                    assert(self.profit_total * 60_000 > u64::MAX) by (nonlinear_arith)
                        requires
                            self.profit_total > u64::MAX / 60_000u64,
                    ;
                }
                u64::MAX
            }
        } else {
            let wide: u128 = (self.profit_total as u128) * 60_000_000 / (self.time_total as u128);
            if wide <= u64::MAX as u128 {
                wide as u64
            } else {
                u64::MAX
            }
        }
    }
}

impl Scored for SearchResult {
    open spec fn score_spec(&self) -> u64 {
        spec_route_score(self.profit_total, self.time_total)
    }

    fn score(&self) -> u64 {
        self.profit_per_min()
    }
}

/// A hop materialized against the player's situation, together with the
/// search node that continues from where it sells.
pub struct SearchTrade {
    pub trade: FullTrade,
    pub sell_station: SearchStation,
}

/// One node of the depth-bounded route search: the player's situation at
/// the node and how thorough the search is.
#[derive(Clone, Copy, Debug)]
pub struct SearchStation {
    pub state: PlayerState,
    pub search_quality: SearchQuality,
}

/// Every entry of a route buffer is a tradable route bought at the origin
/// station, ranked under its own route score.
pub open spec fn good_route_entry(it: ScoredItem<SearchResult>, station_id: u32) -> bool {
    &&& it.value.trade.is_valid
    &&& it.value.trade.unit.buy_station_id == station_id
    &&& it.score == it.value.score_spec()
    &&& it.bucket is None
}

/// A candidate materializes at a player situation when the pair is
/// tradable and the situation affords at least one ton of it.
pub open spec fn spec_materializes(state: PlayerState, u: UnitTrade) -> bool {
    u.is_valid && crate::full_trade::spec_used_cargo(state, u.buy_price, u.supply) > 0
}

/// Some candidate of the run materializes at the situation.
pub open spec fn some_candidate_materializes(state: PlayerState, cands: Seq<UnitTrade>) -> bool {
    exists|q: int| 0 <= q < cands.len() && spec_materializes(state, #[trigger] cands[q])
}

/// The candidates of the run that materialize at the situation, in order.
pub open spec fn spec_surviving(state: PlayerState, cands: Seq<UnitTrade>) -> Seq<UnitTrade>
    decreases cands.len(),
{
    if cands.len() == 0 {
        Seq::empty()
    } else {
        let rest = spec_surviving(state, cands.drop_last());
        if spec_materializes(state, cands.last()) {
            rest.push(cands.last())
        } else {
            rest
        }
    }
}

/// The route reports `profit`/`time` for its first hop plus some
/// transitively accumulated remainder (none, a folded loop, or the best
/// continuation), with saturating sums.
pub open spec fn spec_extends_hop(res: SearchResult, profit: u64, time: u64) -> bool {
    exists|p2: u64, t2: u64|
        #![trigger spec_sat_add(profit, p2), spec_sat_add(time, t2)]
        res.profit_total == spec_sat_add(profit, p2) && res.time_total == spec_sat_add(time, t2)
}

/// A route reporting exactly its first hop extends it by nothing.
proof fn lemma_extends_itself(r: SearchResult)
    requires
        r.profit_total == r.trade.profit_total,
        r.time_total == r.trade.unit.adjusted_time.time_total,
    ensures
        spec_extends_hop(r, r.trade.profit_total, r.trade.unit.adjusted_time.time_total),
{
    assert(r.profit_total == spec_sat_add(r.trade.profit_total, 0u64) && r.time_total
        == spec_sat_add(r.trade.unit.adjusted_time.time_total, 0u64));
}

/// The search only adds memoized entries, never drops one.
pub open spec fn cache_keys_grow(a: SearchCache, b: SearchCache) -> bool {
    forall|k: u32| a.cache_map().contains_key(k) ==> #[trigger] b.cache_map().contains_key(k)
}

/// An extrapolated amount clamped to what a route can carry.
pub open spec fn spec_sat64(x: int) -> u64 {
    if x <= u64::MAX {
        x as u64
    } else {
        u64::MAX
    }
}

/// A route list is sorted best rate first and holds only tradable routes
/// bought at the origin.
pub open spec fn route_list_good(r: Seq<SearchResult>, station_id: u32) -> bool {
    &&& forall|q: int|
        0 <= q < r.len() ==> (#[trigger] r[q]).trade.is_valid && r[q].trade.unit.buy_station_id
            == station_id
    &&& forall|i: int, j: int|
        0 <= i < j < r.len() ==> (#[trigger] r[i]).score_spec() >= (#[trigger] r[j]).score_spec()
}

impl SearchStation {
    pub fn new(state: PlayerState, search_quality: SearchQuality) -> (r: SearchStation)
        ensures
            r.state == state,
            r.search_quality == search_quality,
    {
        SearchStation { state, search_quality }
    }

    /// Bind a one-hop candidate to this node's situation, and stand up the
    /// node that continues from where it sells.
    fn new_trade(&self, unit: UnitTrade) -> (r: SearchTrade)
        requires
            unit.buy_station_id == self.state.station_id,
        ensures
            r.trade.consistent_with(self.state, unit),
            r.sell_station.search_quality == self.search_quality,
            r.sell_station.state.station_id == unit.sell_station_id,
            r.sell_station.state.jump_range == self.state.jump_range,
            r.sell_station.state.cargo_capacity == self.state.cargo_capacity,
            r.sell_station.state.minimum_balance == self.state.minimum_balance,
            r.sell_station.state.raw_adjustment_factor == self.state.raw_adjustment_factor,
    {
        let trade = FullTrade::new(&self.state, unit);
        let sell_state = self.state.with_trade(&trade);
        let sell_station = SearchStation::new(sell_state, self.search_quality);
        SearchTrade { trade, sell_station }
    }

    /// Run the bounded search from this node: the returned routes are
    /// tradable, start at this station, and come best rate first. The hops
    /// planned ahead never exceed the quality's depth.
    /// Run the bounded search from this node: the returned routes are
    /// tradable, start at this station, come best rate first, and at most a
    /// hop width of them is kept. The ghost result names the one-hop
    /// candidates the cache handed out: the route list is non-empty exactly
    /// when one of them materializes against this node's situation, and a
    /// memoized entry for this station is left behind either way.
    pub fn next_trades(&self, universe: &Universe, search_cache: &mut SearchCache) -> (r: (
        Vec<SearchResult>,
        Ghost<Seq<UnitTrade>>,
    ))
        requires
            universe.wf(),
            old(search_cache).wf(universe.systems@),
            SearchCache::station_resolvable(universe.systems@, self.state.station_id),
        ensures
            final(search_cache).wf(universe.systems@),
            cache_keys_grow(*old(search_cache), *final(search_cache)),
            final(search_cache).cache_map().contains_key(self.state.station_id),
            route_list_good(r.0@, self.state.station_id),
            r.0@.len() <= self.search_quality.spec_hop_width(),
            forall|q: int|
                0 <= q < r.1@.len() ==> (#[trigger] r.1@[q]).buy_station_id
                    == self.state.station_id,
            r.0@.len() > 0 <==> some_candidate_materializes(self.state, r.1@),
            !old(search_cache).cache_map().contains_key(self.state.station_id)
                ==> SearchCache::one_hop_list_good(
                universe.systems@,
                self.state,
                r.1@,
                self.search_quality.spec_hop_width() as nat,
                self.search_quality.spec_trade_range(),
            ),
    {
        let max_depth = self.search_quality.get_depth();
        let tracker = SearchCycleTracker::new(&self.search_quality);
        let (trades, candidates) = self.next_trades_recurse(
            &tracker,
            universe,
            search_cache,
            0,
            max_depth,
        );
        let out = match trades {
            Some(mut buffer) => {
                let ghost buf0 = buffer@;
                let r = buffer.sort_mut();
                proof {
                    assert forall|q: int| 0 <= q < r@.len() implies (#[trigger] r@[q]).trade.is_valid
                        && r@[q].trade.unit.buy_station_id == self.state.station_id by {
                        assert(good_route_entry(buf0[r@.len() - 1 - q], self.state.station_id));
                    }
                    assert forall|i: int, j: int|
                        0 <= i < j < r@.len() implies (#[trigger] r@[i]).score_spec() >= (
                    #[trigger] r@[j]).score_spec() by {
                        let wi = r@.len() - 1 - i;
                        let wj = r@.len() - 1 - j;
                        assert(good_route_entry(buf0[wi], self.state.station_id));
                        assert(good_route_entry(buf0[wj], self.state.station_id));
                        assert(!crate::scored_buf::strictly_better(
                            Sort::Descending,
                            buf0[wj].score,
                            buf0[wi].score,
                        ));
                    }
                }
                r
            },
            None => Vec::new(),
        };
        (out, candidates)
    }

    /// Expand this node: materialize each cached one-hop candidate, fold in
    /// detected loops or the best continuation of each, and keep the best
    /// hop-width routes. The ghost result names the candidates; the node
    /// yields routes exactly when it is below the horizon and one of them
    /// materializes.
    #[verifier::rlimit(80)]
    fn next_trades_recurse(
        &self,
        cycles: &SearchCycleTracker,
        universe: &Universe,
        cache: &mut SearchCache,
        depth: usize,
        max_depth: usize,
    ) -> (r: (Option<ScoredCircularBuffer<SearchResult>>, Ghost<Seq<UnitTrade>>))
        requires
            universe.wf(),
            old(cache).wf(universe.systems@),
            SearchCache::station_resolvable(universe.systems@, self.state.station_id),
            cycles@.len() <= depth,
            max_depth <= 64,
        ensures
            final(cache).wf(universe.systems@),
            cache_keys_grow(*old(cache), *final(cache)),
            depth < max_depth ==> final(cache).cache_map().contains_key(self.state.station_id),
            depth >= max_depth ==> r.1@ == Seq::<UnitTrade>::empty(),
            forall|q: int|
                0 <= q < r.1@.len() ==> (#[trigger] r.1@[q]).buy_station_id
                    == self.state.station_id,
            r.0 is None <==> depth >= max_depth || !some_candidate_materializes(
                self.state,
                r.1@,
            ),
            r.0 matches Some(buf) ==> {
                &&& buf.well_formed()
                &&& buf.spec_sort() == Sort::Descending
                &&& buf.spec_capacity() == self.search_quality.spec_hop_width()
                &&& buf@.len() > 0
                &&& forall|w: int|
                    0 <= w < buf@.len() ==> good_route_entry(
                        #[trigger] buf@[w],
                        self.state.station_id,
                    )
            },
            depth < max_depth && !old(cache).cache_map().contains_key(self.state.station_id)
                ==> SearchCache::one_hop_list_good(
                universe.systems@,
                self.state,
                r.1@,
                self.search_quality.spec_hop_width() as nat,
                self.search_quality.spec_trade_range(),
            ),
        decreases max_depth - depth, 1int,
    {
        if depth >= max_depth {
            proof {
                assert(!some_candidate_materializes(self.state, Seq::<UnitTrade>::empty()));
            }
            return (None, Ghost(Seq::empty()));
        }
        let hop_width = self.search_quality.get_hop_width();
        let mut route_buffer: ScoredCircularBuffer<SearchResult> = ScoredCircularBuffer::new(
            hop_width,
            Sort::Descending,
        );
        let mut trades_1hop = cache.get_1hop_trades(universe, self);
        let ghost all = trades_1hop@;
        proof {
            assert forall|key: u32|
                old(cache).cache_map().contains_key(key) implies #[trigger] cache.cache_map().contains_key(
                key,
            ) by {
                if !old(cache).cache_map().contains_key(self.state.station_id) {
                    if key != self.state.station_id {
                        assert(cache.cache_map().remove(self.state.station_id).contains_key(key)
                            == old(cache).cache_map().remove(
                            self.state.station_id,
                        ).contains_key(key));
                    }
                }
            }
            assert(cache.cache_map().contains_key(self.state.station_id));
        }
        let ghost k: int = 0;
        while trades_1hop.len() > 0
            invariant
                universe.wf(),
                cache.wf(universe.systems@),
                cache_keys_grow(*old(cache), *cache),
                cache.cache_map().contains_key(self.state.station_id),
                SearchCache::station_resolvable(universe.systems@, self.state.station_id),
                cycles@.len() <= depth,
                max_depth <= 64,
                depth < max_depth,
                0 <= k <= all.len(),
                all.len() == k + trades_1hop@.len(),
                trades_1hop@ =~= all.skip(k),
                forall|q: int|
                    0 <= q < all.len() ==> (#[trigger] all[q]).buy_station_id
                        == self.state.station_id && SearchCache::station_resolvable(
                        universe.systems@,
                        all[q].sell_station_id,
                    ),
                route_buffer.well_formed(),
                route_buffer.spec_sort() == Sort::Descending,
                route_buffer.spec_capacity() == self.search_quality.spec_hop_width(),
                route_buffer@.len() > 0 <==> exists|q: int|
                    0 <= q < k && spec_materializes(self.state, #[trigger] all[q]),
                forall|w: int|
                    0 <= w < route_buffer@.len() ==> good_route_entry(
                        #[trigger] route_buffer@[w],
                        self.state.station_id,
                    ),
            decreases trades_1hop@.len(),
        {
            let ghost pending = trades_1hop@;
            let ghost cache_before = *cache;
            let unit = trades_1hop.remove(0);
            proof {
                assert(trades_1hop@ =~= pending.drop_first());
                assert(trades_1hop@ =~= all.skip(k + 1));
                assert(unit == all[k]);
            }
            let option = self.new_search_result(cycles, unit, universe, cache, depth, max_depth);
            proof {
                assert forall|key: u32|
                    old(cache).cache_map().contains_key(key) implies #[trigger] cache.cache_map().contains_key(
                    key,
                ) by {
                    assert(cache_before.cache_map().contains_key(key));
                }
                assert(cache.cache_map().contains_key(self.state.station_id)) by {
                    assert(cache_before.cache_map().contains_key(self.state.station_id));
                }
            }
            match option {
                Some(result) => {
                    let ghost buf0 = route_buffer@;
                    let score = result.score();
                    let ghost item = ScoredItem { score, bucket: None, value: result };
                    route_buffer.push_scored(result);
                    proof {
                        crate::scored_buf::lemma_push_any_elements(
                            Sort::Descending,
                            route_buffer.spec_capacity(),
                            buf0,
                            item,
                        );
                        assert forall|w: int|
                            0 <= w < route_buffer@.len() implies good_route_entry(
                            #[trigger] route_buffer@[w],
                            self.state.station_id,
                        ) by {
                            if route_buffer@[w] != item {
                                assert(buf0.contains(route_buffer@[w]));
                                let u = choose|u: int|
                                    0 <= u < buf0.len() && buf0[u] == route_buffer@[w];
                            }
                        }
                        assert(route_buffer@.len() > 0) by {
                            assert(self.search_quality.spec_hop_width() >= 5);
                        }
                        assert(spec_materializes(self.state, all[k]));
                    }
                },
                None => {
                    proof {
                        assert(!spec_materializes(self.state, all[k]));
                        assert(route_buffer@.len() > 0 <==> exists|q: int|
                            0 <= q < k + 1 && spec_materializes(
                                self.state,
                                #[trigger] all[q],
                            )) by {
                            if route_buffer@.len() > 0 {
                                let q0 = choose|q0: int|
                                    0 <= q0 < k && spec_materializes(
                                        self.state,
                                        #[trigger] all[q0],
                                    );
                            }
                            if exists|q: int|
                                0 <= q < k + 1 && spec_materializes(
                                    self.state,
                                    #[trigger] all[q],
                                ) {
                                let q0 = choose|q0: int|
                                    0 <= q0 < k + 1 && spec_materializes(
                                        self.state,
                                        #[trigger] all[q0],
                                    );
                                assert(q0 < k);
                            }
                        }
                    }
                },
            }
            proof {
                k = k + 1;
            }
        }
        proof {
            assert(all.skip(k) =~= Seq::<UnitTrade>::empty());
            assert(k == all.len());
        }
        let nonempty = route_buffer.len() > 0;
        proof {
            if nonempty {
                let q0 = choose|q0: int|
                    0 <= q0 < k && spec_materializes(self.state, #[trigger] all[q0]);
                assert(0 <= q0 < all.len() && spec_materializes(self.state, all[q0]));
                assert(some_candidate_materializes(self.state, all));
            } else {
                assert(!some_candidate_materializes(self.state, all)) by {
                    if some_candidate_materializes(self.state, all) {
                        let q0 = choose|q0: int|
                            0 <= q0 < all.len() && spec_materializes(
                                self.state,
                                #[trigger] all[q0],
                            );
                        assert(exists|q2: int|
                            0 <= q2 < k && spec_materializes(self.state, #[trigger] all[q2]));
                    }
                }
            }
        }
        if nonempty {
            (Some(route_buffer), Ghost(all))
        } else {
            (None, Ghost(all))
        }
    }

    /// Materialize one candidate at this node: discard it when not
    /// tradable; fold in a detected loop instead of recursing; otherwise
    /// recurse from where it sells and keep the single best continuation.
    fn new_search_result(
        &self,
        cycle_tracker: &SearchCycleTracker,
        unit_trade: UnitTrade,
        universe: &Universe,
        cache: &mut SearchCache,
        depth: usize,
        max_depth: usize,
    ) -> (r: Option<SearchResult>)
        requires
            universe.wf(),
            old(cache).wf(universe.systems@),
            unit_trade.buy_station_id == self.state.station_id,
            SearchCache::station_resolvable(universe.systems@, unit_trade.sell_station_id),
            cycle_tracker@.len() <= depth,
            depth < max_depth,
            max_depth <= 64,
        ensures
            final(cache).wf(universe.systems@),
            cache_keys_grow(*old(cache), *final(cache)),
            r is Some <==> spec_materializes(self.state, unit_trade),
            r matches Some(res) ==> {
                &&& res.trade.consistent_with(self.state, unit_trade)
                &&& res.trade.is_valid
                &&& res.trade.unit.buy_station_id == self.state.station_id
                &&& match crate::search_cycle::spec_find_cycle(
                    cycle_tracker@,
                    unit_trade.buy_station_id,
                    (max_depth - depth) as int,
                    0,
                    0,
                    0,
                ) {
                    Some((p, t)) => res.profit_total == spec_sat_add(
                        res.trade.profit_total,
                        spec_sat64(p),
                    ) && res.time_total == spec_sat_add(
                        res.trade.unit.adjusted_time.time_total,
                        spec_sat64(t),
                    ),
                    None => spec_extends_hop(
                        res,
                        res.trade.profit_total,
                        res.trade.unit.adjusted_time.time_total,
                    ),
                }
            },
        decreases max_depth - depth, 0int,
    {
        let search_trade_1 = self.new_trade(unit_trade);
        if !search_trade_1.trade.is_valid {
            return None;
        }
        let full_trade_1 = search_trade_1.trade;
        let result_1 = SearchResult::new(full_trade_1);
        match cycle_tracker.find_cycle(&result_1.trade, max_depth - depth) {
            Some(cycle) => {
                let folded = result_1.with_cycle(&cycle);
                return Some(folded);
            },
            None => {},
        }
        let cycle_tracker_2 = cycle_tracker.push(&result_1.trade);
        let (results_2, _candidates_2) = search_trade_1.sell_station.next_trades_recurse(
            &cycle_tracker_2,
            universe,
            cache,
            depth + 1,
            max_depth,
        );
        let mut results_2 = match results_2 {
            Some(r) => r,
            None => {
                proof {
                    lemma_extends_itself(result_1);
                }
                return Some(result_1);
            },
        };
        let mut best_score_with_2_buffer: ScoredCircularBuffer<SearchResult> =
            ScoredCircularBuffer::new(1, Sort::Descending);
        let mut drained = results_2.drain();
        while drained.len() > 0
            invariant
                best_score_with_2_buffer.well_formed(),
                best_score_with_2_buffer.spec_sort() == Sort::Descending,
                best_score_with_2_buffer.spec_capacity() == 1,
                result_1.trade.is_valid,
                result_1.trade.unit.buy_station_id == self.state.station_id,
                result_1.profit_total == result_1.trade.profit_total,
                result_1.time_total == result_1.trade.unit.adjusted_time.time_total,
                forall|w: int|
                    0 <= w < best_score_with_2_buffer@.len() ==> (
                    #[trigger] best_score_with_2_buffer@[w]).value.trade == result_1.trade
                        && spec_extends_hop(
                        best_score_with_2_buffer@[w].value,
                        result_1.trade.profit_total,
                        result_1.trade.unit.adjusted_time.time_total,
                    ),
            decreases drained@.len(),
        {
            let e = drained.remove(0);
            let combined = result_1.with_score(&e.value);
            let score = combined.score();
            let ghost buf0 = best_score_with_2_buffer@;
            let ghost item = ScoredItem { score, bucket: None, value: combined };
            proof {
                assert(spec_extends_hop(
                    combined,
                    result_1.trade.profit_total,
                    result_1.trade.unit.adjusted_time.time_total,
                )) by {
                    assert(combined.profit_total == spec_sat_add(
                        result_1.trade.profit_total,
                        e.value.profit_total,
                    ) && combined.time_total == spec_sat_add(
                        result_1.trade.unit.adjusted_time.time_total,
                        e.value.time_total,
                    ));
                }
            }
            best_score_with_2_buffer.push(combined, score);
            proof {
                crate::scored_buf::lemma_push_any_elements(
                    Sort::Descending,
                    best_score_with_2_buffer.spec_capacity(),
                    buf0,
                    item,
                );
                assert forall|w: int|
                    0 <= w < best_score_with_2_buffer@.len() implies (
                #[trigger] best_score_with_2_buffer@[w]).value.trade == result_1.trade
                    && spec_extends_hop(
                    best_score_with_2_buffer@[w].value,
                    result_1.trade.profit_total,
                    result_1.trade.unit.adjusted_time.time_total,
                ) by {
                    if best_score_with_2_buffer@[w] != item {
                        assert(buf0.contains(best_score_with_2_buffer@[w]));
                        let u = choose|u: int|
                            0 <= u < buf0.len() && buf0[u] == best_score_with_2_buffer@[w];
                    }
                }
            }
        }
        let ghost buf_final = best_score_with_2_buffer@;
        let mut best_1 = best_score_with_2_buffer.sort_mut();
        if best_1.len() > 0 {
            let best = best_1.remove(0);
            proof {
                assert(best == buf_final[buf_final.len() - 1].value);
                assert(spec_extends_hop(
                    best,
                    best.trade.profit_total,
                    best.trade.unit.adjusted_time.time_total,
                )) by {
                    assert(buf_final[buf_final.len() - 1].value.trade == result_1.trade);
                }
            }
            Some(best)
        } else {
            proof {
                lemma_extends_itself(result_1);
            }
            Some(result_1)
        }
    }
}


impl SearchStation {
    /// Expand a run of one-hop candidates from this node, in order, keeping
    /// the routes that materialize. Meant for the root-level fan-out: each
    /// worker expands one chunk, and because each candidate's expansion
    /// depends only on the candidate, the snapshot and the cache content,
    /// gathering the chunks back in order yields the same run of routes as
    /// expanding the unsplit list.
    pub fn expand_candidates(
        &self,
        universe: &Universe,
        cache: &mut SearchCache,
        trades: Vec<UnitTrade>,
    ) -> (r: Vec<SearchResult>)
        requires
            universe.wf(),
            old(cache).wf(universe.systems@),
            forall|w: int|
                0 <= w < trades@.len() ==> (#[trigger] trades@[w]).buy_station_id
                    == self.state.station_id && SearchCache::station_resolvable(
                    universe.systems@,
                    trades@[w].sell_station_id,
                ),
        ensures
            final(cache).wf(universe.systems@),
            cache_keys_grow(*old(cache), *final(cache)),
            r@.len() == spec_surviving(self.state, trades@).len(),
            forall|q: int|
                0 <= q < r@.len() ==> (#[trigger] r@[q]).trade.consistent_with(
                    self.state,
                    spec_surviving(self.state, trades@)[q],
                ) && r@[q].trade.is_valid && r@[q].trade.unit.buy_station_id
                    == self.state.station_id,
    {
        let max_depth = self.search_quality.get_depth();
        let tracker = SearchCycleTracker::new(&self.search_quality);
        let mut out: Vec<SearchResult> = Vec::new();
        let mut trades = trades;
        let ghost all = trades@;
        let ghost k: int = 0;
        proof {
            assert(spec_surviving(self.state, all.take(0)) =~= Seq::<UnitTrade>::empty());
        }
        while trades.len() > 0
            invariant
                universe.wf(),
                cache.wf(universe.systems@),
                cache_keys_grow(*old(cache), *cache),
                max_depth == self.search_quality.spec_depth(),
                tracker@.len() == 0,
                0 <= k <= all.len(),
                all.len() == k + trades@.len(),
                trades@ =~= all.skip(k),
                forall|w: int|
                    0 <= w < all.len() ==> (#[trigger] all[w]).buy_station_id
                        == self.state.station_id && SearchCache::station_resolvable(
                        universe.systems@,
                        all[w].sell_station_id,
                    ),
                out@.len() == spec_surviving(self.state, all.take(k)).len(),
                forall|q: int|
                    0 <= q < out@.len() ==> (#[trigger] out@[q]).trade.consistent_with(
                        self.state,
                        spec_surviving(self.state, all.take(k))[q],
                    ) && out@[q].trade.is_valid && out@[q].trade.unit.buy_station_id
                        == self.state.station_id,
            decreases trades@.len(),
        {
            let ghost pending = trades@;
            let ghost cache_before = *cache;
            let ghost kept0 = spec_surviving(self.state, all.take(k));
            let unit = trades.remove(0);
            proof {
                assert(trades@ =~= pending.drop_first());
                assert(trades@ =~= all.skip(k + 1));
                assert(unit == all[k]);
                assert(all.take(k + 1).drop_last() =~= all.take(k));
                assert(all.take(k + 1).last() == all[k]);
            }
            let option = self.new_search_result(&tracker, unit, universe, cache, 0, max_depth);
            proof {
                assert forall|key: u32|
                    old(cache).cache_map().contains_key(key) implies #[trigger] cache.cache_map().contains_key(
                    key,
                ) by {
                    assert(cache_before.cache_map().contains_key(key));
                }
            }
            match option {
                Some(result) => {
                    out.push(result);
                    proof {
                        assert(spec_surviving(self.state, all.take(k + 1)) =~= kept0.push(all[k]));
                    }
                },
                None => {
                    proof {
                        assert(spec_surviving(self.state, all.take(k + 1)) =~= kept0);
                    }
                },
            }
            proof {
                k = k + 1;
            }
        }
        proof {
            assert(all.take(k) =~= all);
            assert(spec_surviving(self.state, all.take(k)) =~= spec_surviving(self.state, all));
        }
        out
    }

    /// Merge gathered per-chunk routes, in chunk order, into the best
    /// hop-width routes, best rate first: the result is exactly the
    /// hop-width ranking of the flattened chunks. Because the contract
    /// speaks only of the flattened run, two fan-outs whose gathered chunks
    /// flatten to the same run -- any chunking of the same expansion --
    /// merge to the same routes.
    pub fn merge_results(&self, chunks: Vec<Vec<SearchResult>>) -> (r: Vec<SearchResult>)
        requires
            forall|c: int, q: int|
                #![trigger chunks@[c]@[q]]
                0 <= c < chunks@.len() && 0 <= q < chunks@[c]@.len() ==> chunks@[c]@[q].trade.is_valid
                    && chunks@[c]@[q].trade.unit.buy_station_id == self.state.station_id,
        ensures
            route_list_good(r@, self.state.station_id),
            r@.len() <= self.search_quality.spec_hop_width(),
            ({
                let folded = spec_push_all(
                    Sort::Descending,
                    self.search_quality.spec_hop_width() as nat,
                    Seq::empty(),
                    spec_route_items(
                        chunks@.map_values(|c: Vec<SearchResult>| c@).flatten(),
                    ),
                );
                &&& r@.len() == folded.len()
                &&& forall|i: int|
                    0 <= i < r@.len() ==> #[trigger] r@[i] == folded[folded.len() - 1 - i].value
            }),
    {
        let ghost f = |c: Vec<SearchResult>| c@;
        let ghost whole = chunks@.map_values(f).flatten();
        let ghost width = self.search_quality.spec_hop_width() as nat;
        let mut route_buffer: ScoredCircularBuffer<SearchResult> = ScoredCircularBuffer::new(
            self.search_quality.get_hop_width(),
            Sort::Descending,
        );
        let ghost seen: Seq<SearchResult> = Seq::empty();
        let mut chunks = chunks;
        proof {
            assert(spec_route_items(seen) =~= Seq::<ScoredItem<SearchResult>>::empty());
            assert(route_buffer@ == spec_push_all(
                Sort::Descending,
                width,
                Seq::empty(),
                spec_route_items(seen),
            ));
            assert(whole =~= seen + chunks@.map_values(f).flatten());
        }
        while chunks.len() > 0
            invariant
                route_buffer.well_formed(),
                route_buffer.spec_sort() == Sort::Descending,
                route_buffer.spec_capacity() == width,
                width == self.search_quality.spec_hop_width() as nat,
                f == (|c: Vec<SearchResult>| c@),
                whole =~= seen + chunks@.map_values(f).flatten(),
                route_buffer@ == spec_push_all(
                    Sort::Descending,
                    width,
                    Seq::empty(),
                    spec_route_items(seen),
                ),
                forall|w: int|
                    0 <= w < seen.len() ==> (#[trigger] seen[w]).trade.is_valid
                        && seen[w].trade.unit.buy_station_id == self.state.station_id,
                forall|c: int, q: int|
                    #![trigger chunks@[c]@[q]]
                    0 <= c < chunks@.len() && 0 <= q < chunks@[c]@.len() ==> chunks@[c]@[q].trade.is_valid
                        && chunks@[c]@[q].trade.unit.buy_station_id == self.state.station_id,
                forall|w: int|
                    0 <= w < route_buffer@.len() ==> good_route_entry(
                        #[trigger] route_buffer@[w],
                        self.state.station_id,
                    ),
            decreases chunks@.len(),
        {
            let ghost pending = chunks@;
            let mut chunk = chunks.remove(0);
            proof {
                assert(chunks@ =~= pending.drop_first());
                assert(pending.map_values(f).len() == pending.len());
                assert(pending.map_values(f)[0] == chunk@);
                assert(pending.map_values(f).drop_first() =~= chunks@.map_values(f));
                assert(pending.map_values(f).flatten() == chunk@ + chunks@.map_values(
                    f,
                ).flatten());
                assert(whole =~= seen + chunk@ + chunks@.map_values(f).flatten());
                assert(forall|c: int, q: int|
                    #![trigger chunks@[c]@[q]]
                    0 <= c < chunks@.len() && 0 <= q < chunks@[c]@.len() ==> pending[c + 1]@[q]
                        == chunks@[c]@[q]);
            }
            while chunk.len() > 0
                invariant
                    route_buffer.well_formed(),
                    route_buffer.spec_sort() == Sort::Descending,
                    route_buffer.spec_capacity() == width,
                    width == self.search_quality.spec_hop_width() as nat,
                    f == (|c: Vec<SearchResult>| c@),
                    whole =~= seen + chunk@ + chunks@.map_values(f).flatten(),
                    route_buffer@ == spec_push_all(
                        Sort::Descending,
                        width,
                        Seq::empty(),
                        spec_route_items(seen),
                    ),
                    forall|w: int|
                        0 <= w < seen.len() ==> (#[trigger] seen[w]).trade.is_valid
                            && seen[w].trade.unit.buy_station_id == self.state.station_id,
                    forall|q: int|
                        0 <= q < chunk@.len() ==> (#[trigger] chunk@[q]).trade.is_valid
                            && chunk@[q].trade.unit.buy_station_id == self.state.station_id,
                    forall|c: int, q: int|
                        #![trigger chunks@[c]@[q]]
                        0 <= c < chunks@.len() && 0 <= q < chunks@[c]@.len() ==> chunks@[c]@[q].trade.is_valid
                            && chunks@[c]@[q].trade.unit.buy_station_id == self.state.station_id,
                    forall|w: int|
                        0 <= w < route_buffer@.len() ==> good_route_entry(
                            #[trigger] route_buffer@[w],
                            self.state.station_id,
                        ),
                decreases chunk@.len(),
            {
                let ghost cpending = chunk@;
                let ghost items0 = spec_route_items(seen);
                let result = chunk.remove(0);
                proof {
                    assert(chunk@ =~= cpending.drop_first());
                }
                let ghost buf0 = route_buffer@;
                let score = result.score();
                let ghost item = ScoredItem { score, bucket: None, value: result };
                route_buffer.push_scored(result);
                proof {
                    crate::scored_buf::lemma_push_all_snoc(
                        Sort::Descending,
                        width,
                        Seq::empty(),
                        items0,
                        item,
                    );
                    seen = seen.push(result);
                    assert(spec_route_items(seen) =~= items0.push(item));
                    assert(whole =~= seen + chunk@ + chunks@.map_values(f).flatten());
                    crate::scored_buf::lemma_push_any_elements(
                        Sort::Descending,
                        route_buffer.spec_capacity(),
                        buf0,
                        item,
                    );
                    assert forall|w: int|
                        0 <= w < route_buffer@.len() implies good_route_entry(
                        #[trigger] route_buffer@[w],
                        self.state.station_id,
                    ) by {
                        if route_buffer@[w] != item {
                            assert(buf0.contains(route_buffer@[w]));
                            let u = choose|u: int|
                                0 <= u < buf0.len() && buf0[u] == route_buffer@[w];
                        }
                    }
                }
            }
            proof {
                assert(chunk@ =~= Seq::<SearchResult>::empty());
                assert(whole =~= seen + chunks@.map_values(f).flatten());
            }
        }
        proof {
            assert(chunks@.map_values(f).flatten() =~= Seq::<SearchResult>::empty()) by {
                assert(chunks@.map_values(f).len() == 0);
            }
            assert(seen =~= whole);
        }
        let ghost buf_final = route_buffer@;
        let r = route_buffer.sort_mut();
        proof {
            assert forall|q: int| 0 <= q < r@.len() implies (#[trigger] r@[q]).trade.is_valid
                && r@[q].trade.unit.buy_station_id == self.state.station_id by {
                assert(good_route_entry(buf_final[r@.len() - 1 - q], self.state.station_id));
            }
            assert forall|i: int, j: int|
                0 <= i < j < r@.len() implies (#[trigger] r@[i]).score_spec() >= (
            #[trigger] r@[j]).score_spec() by {
                let wi = r@.len() - 1 - i;
                let wj = r@.len() - 1 - j;
                assert(good_route_entry(buf_final[wi], self.state.station_id));
                assert(good_route_entry(buf_final[wj], self.state.station_id));
                assert(!crate::scored_buf::strictly_better(
                    Sort::Descending,
                    buf_final[wj].score,
                    buf_final[wi].score,
                ));
            }
        }
        r
    }
}

/// The buffer entries a run of routes is ranked under: each route scored by
/// its own rate, none carrying a bucket key.
pub open spec fn spec_route_items(rs: Seq<SearchResult>) -> Seq<ScoredItem<SearchResult>> {
    rs.map_values(
        |v: SearchResult| ScoredItem { score: v.score_spec(), bucket: None, value: v },
    )
}

/// Split a candidate run into chunks of at most `chunk_size`, preserving
/// order: the chunks flatten back to exactly the given run, which is what
/// makes the root-level fan-out deterministic.
pub fn split_chunks(trades: Vec<UnitTrade>, chunk_size: usize) -> (r: Vec<Vec<UnitTrade>>)
    requires
        chunk_size > 0,
    ensures
        r@.map_values(|c: Vec<UnitTrade>| c@).flatten() == trades@,
        forall|c: int| 0 <= c < r@.len() ==> (#[trigger] r@[c])@.len() <= chunk_size,
{
    let mut out: Vec<Vec<UnitTrade>> = Vec::new();
    let mut rest = trades;
    let ghost whole = rest@;
    proof {
        assert(out@.map_values(|c: Vec<UnitTrade>| c@) =~= Seq::<Seq<UnitTrade>>::empty());
        assert(out@.map_values(|c: Vec<UnitTrade>| c@).flatten() =~= Seq::<UnitTrade>::empty());
        assert(whole =~= out@.map_values(|c: Vec<UnitTrade>| c@).flatten() + rest@);
    }
    while rest.len() > 0
        invariant
            chunk_size > 0,
            whole == out@.map_values(|c: Vec<UnitTrade>| c@).flatten() + rest@,
            forall|c: int| 0 <= c < out@.len() ==> (#[trigger] out@[c])@.len() <= chunk_size,
        decreases rest@.len(),
    {
        let ghost flat0 = out@.map_values(|c: Vec<UnitTrade>| c@).flatten();
        let mut chunk: Vec<UnitTrade> = Vec::new();
        while chunk.len() < chunk_size && rest.len() > 0
            invariant
                chunk_size > 0,
                chunk@.len() <= chunk_size,
                whole == flat0 + chunk@ + rest@,
            decreases rest@.len(),
        {
            let ghost rpending = rest@;
            let t = rest.remove(0);
            proof {
                assert(rest@ =~= rpending.drop_first());
            }
            chunk.push(t);
            proof {
                assert(flat0 + chunk@ + rest@ =~= whole);
            }
        }
        let ghost cview = chunk@;
        let ghost out0 = out@;
        out.push(chunk);
        proof {
            let f = |c: Vec<UnitTrade>| c@;
            assert(out0.map_values(f).flatten() == flat0);
            assert(out@.map_values(f) =~= out0.map_values(f) + seq![cview]);
            vstd::seq_lib::lemma_flatten_concat(out0.map_values(f), seq![cview]);
            assert(seq![cview].flatten() =~= cview) by {
                seq![cview].lemma_flatten_one_element();
            }
            assert(out@.map_values(f).flatten() =~= flat0 + cview);
            assert(whole =~= out@.map_values(f).flatten() + rest@);
        }
    }
    proof {
        assert(out@.map_values(|c: Vec<UnitTrade>| c@).flatten() =~= whole);
    }
    out
}

} // verus!
