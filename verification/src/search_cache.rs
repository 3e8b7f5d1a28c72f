use vstd::prelude::*;

verus! {

use std::collections::HashMap;
use crate::options::{listing_at, BuyOptions, SellOptions};
use crate::player_state::PlayerState;
use crate::scored_buf::{Scored, ScoredCircularBuffer, Sort};
use crate::search_quality::SearchQuality;
use crate::trader::System;
use crate::unit_trade::UnitTrade;
use crate::universe::Universe;

broadcast use vstd::std_specs::hash::group_hash_axioms;

/// One memoized hop: the arena positions of the bought and the sold line.
/// Positions, not borrowed data, so entries stay cheap to share across
/// recursion depths and routes within a session.
#[derive(Clone, Copy, Debug)]
pub struct CachedTrade {
    pub buy: (usize, usize, usize),
    pub sell: (usize, usize, usize),
}

/// Both positions of the cached hop point inside the arena, and the hop
/// buys at the station it is cached under.
pub open spec fn cached_trade_valid(arena: Seq<System>, key: u32, c: CachedTrade) -> bool {
    &&& crate::options::listing_ref_valid(arena, c.buy)
    &&& crate::options::listing_ref_valid(arena, c.sell)
    &&& arena[c.buy.0 as int].stations@[c.buy.1 as int].station_id == key
}

impl CachedTrade {
    /// Re-price a memoized hop against the live market and the given
    /// player situation.
    pub fn to_unit_trade(&self, universe: &Universe, player_state: &PlayerState) -> (r: UnitTrade)
        requires
            universe.wf(),
            crate::options::listing_ref_valid(universe.systems@, self.buy),
            crate::options::listing_ref_valid(universe.systems@, self.sell),
        ensures
            r.consistent_with(
                *player_state,
                universe.systems@[self.buy.0 as int],
                universe.systems@[self.buy.0 as int].stations@[self.buy.1 as int],
                listing_at(universe.systems@, self.buy),
                universe.systems@[self.sell.0 as int],
                universe.systems@[self.sell.0 as int].stations@[self.sell.1 as int],
                listing_at(universe.systems@, self.sell),
            ),
    {
        let (bsi, bti, bli) = self.buy;
        let (ssi, sti, sli) = self.sell;
        UnitTrade::new_unpacked(
            player_state,
            &universe.systems[bsi],
            &universe.systems[bsi].stations[bti],
            &universe.systems[bsi].stations[bti].listings[bli],
            &universe.systems[ssi],
            &universe.systems[ssi].stations[sti],
            &universe.systems[ssi].stations[sti].listings[sli],
        )
    }
}

/// Memoizes, per origin station, the best one-hop candidates, plus the
/// reverse index recording which cached lists sell into which station.
/// The cache is a plain value: callers that fan work out share it behind a
/// lock or hand each worker its own copy, and merge afterwards.
pub struct SearchCache {
    trade_cache: HashMap<u32, Vec<CachedTrade>>,
    sell_lookup: HashMap<u32, Vec<u32>>,
}

impl SearchCache {
    /// The memoized candidate lists, per origin station id.
    pub closed spec fn cache_map(&self) -> Map<u32, Vec<CachedTrade>> {
        self.trade_cache@
    }

    /// The reverse index: destination station to origins whose cached lists
    /// sell into it.
    pub closed spec fn lookup_map(&self) -> Map<u32, Vec<u32>> {
        self.sell_lookup@
    }

    /// Every cached entry points inside the arena and buys at the station
    /// it is cached under.
    pub open spec fn wf(&self, arena: Seq<System>) -> bool {
        forall|key: u32, q: int|
            #![trigger self.cache_map()[key]@[q]]
            self.cache_map().contains_key(key) && 0 <= q < self.cache_map()[key]@.len()
                ==> cached_trade_valid(arena, key, self.cache_map()[key]@[q])
    }

    pub fn new() -> (r: SearchCache)
        ensures
            r.cache_map() == Map::<u32, Vec<CachedTrade>>::empty(),
            r.lookup_map() == Map::<u32, Vec<u32>>::empty(),
            forall|arena: Seq<System>| r.wf(arena),
    {
        SearchCache { trade_cache: HashMap::new(), sell_lookup: HashMap::new() }
    }

    /// How many stations have a memoized candidate list.
    pub fn len(&self) -> (r: usize)
        ensures
            r == self.cache_map().len(),
    {
        self.trade_cache.len()
    }

    /// The station ids whose cached lists a correction at `station_id`
    /// may have left stale: the station itself and every recorded origin
    /// selling into it.
    pub open spec fn spec_invalidated_keys(lookup: Map<u32, Vec<u32>>, station_id: u32) -> Set<
        u32,
    > {
        if lookup.contains_key(station_id) {
            lookup[station_id]@.to_set().insert(station_id)
        } else {
            Set::empty().insert(station_id)
        }
    }

    /// Drop the station's own cached list and every cached list recorded
    /// as selling into it; their memoized profitability may now be stale.
    pub fn invalidate_station(&mut self, station_id: u32)
        ensures
            final(self).cache_map() == old(self).cache_map().remove_keys(
                Self::spec_invalidated_keys(old(self).lookup_map(), station_id),
            ),
            final(self).lookup_map() == old(self).lookup_map(),
    {
        let ghost doomed = Self::spec_invalidated_keys(old(self).lookup_map(), station_id);
        self.trade_cache.remove(&station_id);
        let origins = match self.sell_lookup.get(&station_id) {
            Some(v) => v,
            None => {
                proof {
                    assert(self.trade_cache@ =~= old(self).cache_map().remove_keys(doomed));
                }
                return ;
            },
        };
        let ghost olist = origins@;
        let n = origins.len();
        let mut i: usize = 0;
        while i < n
            invariant
                0 <= i <= n,
                olist == old(self).lookup_map()[station_id]@,
                old(self).lookup_map().contains_key(station_id),
                n == olist.len(),
                self.sell_lookup@ == old(self).lookup_map(),
                self.sell_lookup@.contains_key(station_id),
                self.sell_lookup@[station_id]@ == olist,
                self.trade_cache@ =~= old(self).cache_map().remove_keys(
                    olist.take(i as int).to_set().insert(station_id),
                ),
            decreases n - i,
        {
            let origins_now = match self.sell_lookup.get(&station_id) {
                Some(v) => v,
                None => {
                    proof {
                        assert(false);
                    }
                    return ;
                },
            };
            let key = origins_now[i];
            self.trade_cache.remove(&key);
            proof {
                assert(olist.take(i as int).push(olist[i as int]) =~= olist.take(i as int + 1));
                olist.take(i as int).to_multiset_ensures();
                assert(olist.take(i as int + 1).to_set() =~= olist.take(i as int).to_set().insert(
                    olist[i as int],
                )) by {
                    assert forall|x: u32|
                        olist.take(i as int + 1).to_set().contains(x) <==> olist.take(
                        i as int,
                    ).to_set().insert(olist[i as int]).contains(x) by {
                        if olist.take(i as int + 1).contains(x) {
                            let w = choose|w: int|
                                0 <= w < i + 1 && #[trigger] olist.take(i as int + 1)[w] == x;
                            if w < i {
                                assert(olist.take(i as int)[w] == x);
                            }
                        }
                        if olist.take(i as int).contains(x) {
                            let w = choose|w: int|
                                0 <= w < i && #[trigger] olist.take(i as int)[w] == x;
                            assert(olist.take(i as int + 1)[w] == x);
                        }
                        if x == olist[i as int] {
                            assert(olist.take(i as int + 1)[i as int] == x);
                        }
                    }
                }
                assert(self.trade_cache@ =~= old(self).cache_map().remove_keys(
                    olist.take(i as int + 1).to_set().insert(station_id),
                ));
            }
            i += 1;
        }
        proof {
            assert(olist.take(n as int) =~= olist);
            assert(self.trade_cache@ =~= old(self).cache_map().remove_keys(doomed));
        }
    }

    /// Record, for every hop of the list, that the origin's cached list
    /// sells into the hop's destination.
    fn update_sell_lookup(&mut self, trades: &Vec<UnitTrade>)
        ensures
            final(self).cache_map() == old(self).cache_map(),
            forall|q: int|
                0 <= q < trades@.len() ==> {
                    let key = (#[trigger] trades@[q]).sell_station_id;
                    final(self).lookup_map().contains_key(key)
                        && final(self).lookup_map()[key]@.contains(trades@[q].buy_station_id)
                },
    {
        let n = trades.len();
        let mut i: usize = 0;
        while i < n
            invariant
                0 <= i <= n,
                n == trades@.len(),
                self.trade_cache@ == old(self).cache_map(),
                forall|q: int|
                    0 <= q < i ==> {
                        let key = (#[trigger] trades@[q]).sell_station_id;
                        self.sell_lookup@.contains_key(key) && self.sell_lookup@[key]@.contains(
                            trades@[q].buy_station_id,
                        )
                    },
                forall|key: u32, v: u32|
                    #![trigger old(self).lookup_map()[key]@.contains(v)]
                    old(self).lookup_map().contains_key(key)
                        && old(self).lookup_map()[key]@.contains(v) ==> self.sell_lookup@.contains_key(key)
                        && self.sell_lookup@[key]@.contains(v),
            decreases n - i,
        {
            let key = trades[i].sell_station_id;
            let value = trades[i].buy_station_id;
            let ghost l0 = self.sell_lookup@;
            let present = match self.sell_lookup.get(&key) {
                Some(list) => contains_u32(list, value),
                None => false,
            };
            if !present {
                let mut list = match self.sell_lookup.remove(&key) {
                    Some(list) => list,
                    None => Vec::new(),
                };
                let ghost lst0 = list@;
                list.push(value);
                self.sell_lookup.insert(key, list);
                proof {
                    assert(self.sell_lookup@[key]@.last() == value);
                    assert forall|k2: u32, v2: u32|
                        #![trigger old(self).lookup_map()[k2]@.contains(v2)]
                        old(self).lookup_map().contains_key(k2) && old(self).lookup_map()[k2]@.contains(v2) implies self.sell_lookup@.contains_key(
                        k2,
                    ) && self.sell_lookup@[k2]@.contains(v2) by {
                        assert(l0.contains_key(k2) && l0[k2]@.contains(v2));
                        if k2 == key {
                            let w = choose|w: int| 0 <= w < lst0.len() && #[trigger] lst0[w] == v2;
                            assert(self.sell_lookup@[key]@[w] == v2);
                        } else {
                            assert(self.sell_lookup@[k2] == l0[k2]);
                        }
                    }
                    assert forall|q: int| 0 <= q < i + 1 implies {
                        let k2 = (#[trigger] trades@[q]).sell_station_id;
                        self.sell_lookup@.contains_key(k2) && self.sell_lookup@[k2]@.contains(
                            trades@[q].buy_station_id,
                        )
                    } by {
                        let k2 = trades@[q].sell_station_id;
                        if q < i {
                            let v2 = trades@[q].buy_station_id;
                            assert(l0.contains_key(k2) && l0[k2]@.contains(v2));
                            if k2 == key {
                                let w = choose|w: int|
                                    0 <= w < lst0.len() && #[trigger] lst0[w] == v2;
                                assert(self.sell_lookup@[key]@[w] == v2);
                            } else {
                                assert(self.sell_lookup@[k2] == l0[k2]);
                            }
                        } else {
                            assert(self.sell_lookup@[key]@[self.sell_lookup@[key]@.len() - 1]
                                == value);
                        }
                    }
                }
            }
            i += 1;
        }
    }
}


impl SearchCache {
    /// The memoized form of a hop: the arena positions of its two lines,
    /// found through the index. `None` only when the hop's ids are not in
    /// the arena, which a sound cache never stores.
    fn to_cached_trade(trade: &UnitTrade, universe: &Universe) -> (r: Option<CachedTrade>)
        requires
            universe.wf(),
        ensures
            r matches Some(c) ==> cached_trade_valid(universe.systems@, trade.buy_station_id, c),
    {
        let buy_index = universe.get_index().get_index_listing(
            trade.buy_station_id,
            trade.commodity_id,
        );
        let sell_index = universe.get_index().get_index_listing(
            trade.sell_station_id,
            trade.commodity_id,
        );
        match (buy_index, sell_index) {
            (Some(b), Some(s)) => Some(CachedTrade { buy: b, sell: s }),
            _ => None,
        }
    }

    /// The station the player is docked at stands in the arena.
    pub open spec fn station_resolvable(arena: Seq<System>, station_id: u32) -> bool {
        exists|k: int, t: int|
            0 <= k < arena.len() && 0 <= t < arena[k].stations@.len() && (
            #[trigger] arena[k].stations@[t]).station_id == station_id
    }

    /// The hop is priced from the live arena: it pairs a stocked line of
    /// the player's own station with a paying line of a station within
    /// `range` of the origin system, and every derived field matches those
    /// two lines exactly.
    pub open spec fn one_hop_candidate(
        arena: Seq<System>,
        state: PlayerState,
        range: u32,
        t: UnitTrade,
    ) -> bool {
        exists|bn: crate::options::ListingRef, sn: crate::options::ListingRef|
            #![trigger listing_at(arena, bn), listing_at(arena, sn)]
            {
                &&& crate::options::listing_ref_valid(arena, bn)
                &&& crate::options::listing_ref_valid(arena, sn)
                &&& arena[bn.0 as int].stations@[bn.1 as int].station_id == state.station_id
                &&& listing_at(arena, bn).supply > 0
                &&& listing_at(arena, sn).sell_price > 0
                &&& crate::trader::spec_dist2(
                    arena[sn.0 as int].x as int,
                    arena[sn.0 as int].y as int,
                    arena[sn.0 as int].z as int,
                    arena[bn.0 as int].x as int,
                    arena[bn.0 as int].y as int,
                    arena[bn.0 as int].z as int,
                ) <= range as int * range as int
                &&& t.consistent_with(
                    state,
                    arena[bn.0 as int],
                    arena[bn.0 as int].stations@[bn.1 as int],
                    listing_at(arena, bn),
                    arena[sn.0 as int],
                    arena[sn.0 as int].stations@[sn.1 as int],
                    listing_at(arena, sn),
                )
            }
    }

    /// The pairing survives the scan: the two lines are tradable against
    /// each other and the destination does not blacklist the good.
    pub open spec fn pair_scan_ok(
        arena: Seq<System>,
        bn: crate::options::ListingRef,
        sn: crate::options::ListingRef,
    ) -> bool {
        &&& crate::unit_trade::spec_is_valid(&listing_at(arena, bn), &listing_at(arena, sn))
        &&& !arena[sn.0 as int].stations@[sn.1 as int].prohibited_commodities@.contains(
            listing_at(arena, bn).commodity.commodity_id,
        )
    }

    /// A tradable, unprohibited pairing of a line at the origin position
    /// with a line of a station within `range` of the origin system.
    pub open spec fn valid_pair_at(
        arena: Seq<System>,
        range: u32,
        origin: (usize, usize),
        bn: crate::options::ListingRef,
        sn: crate::options::ListingRef,
    ) -> bool {
        &&& bn.0 == origin.0 && bn.1 == origin.1
        &&& crate::options::listing_ref_valid(arena, bn)
        &&& crate::options::listing_ref_valid(arena, sn)
        &&& Self::pair_scan_ok(arena, bn, sn)
        &&& crate::trader::spec_dist2(
            arena[sn.0 as int].x as int,
            arena[sn.0 as int].y as int,
            arena[sn.0 as int].z as int,
            arena[origin.0 as int].x as int,
            arena[origin.0 as int].y as int,
            arena[origin.0 as int].z as int,
        ) <= range as int * range as int
    }

    /// Every tradable, unprohibited in-range pairing at the origin is
    /// reached by the scan: its buy line stands in the gathered buys and
    /// its sell line in the commodity grouping.
    proof fn lemma_pair_indices(
        arena: Seq<System>,
        range: u32,
        origin: (usize, usize),
        buys_nodes: Seq<crate::options::ListingRef>,
        in_range: Seq<usize>,
        sells_nodes: Seq<crate::options::ListingRef>,
        m: Map<u16, Vec<crate::options::ListingRef>>,
        bn: crate::options::ListingRef,
        sn: crate::options::ListingRef,
    ) -> (r: (int, int))
        requires
            origin.0 < arena.len(),
            origin.1 < arena[origin.0 as int].stations@.len(),
            forall|l: int|
                0 <= l < arena[origin.0 as int].stations@[origin.1 as int].listings@.len() && (
                #[trigger] arena[origin.0 as int].stations@[origin.1 as int].listings@[l]).supply
                    > 0 ==> buys_nodes.contains((origin.0, origin.1, l as usize)),
            forall|k: int|
                0 <= k < arena.len() && crate::trader::spec_dist2(
                    (#[trigger] arena[k]).x as int,
                    arena[k].y as int,
                    arena[k].z as int,
                    arena[origin.0 as int].x as int,
                    arena[origin.0 as int].y as int,
                    arena[origin.0 as int].z as int,
                ) <= range as int * range as int ==> in_range.contains(k as usize),
            forall|w2: int, t2: int, l2: int|
                #![trigger arena[in_range[w2] as int].stations@[t2].listings@[l2]]
                0 <= w2 < in_range.len() && 0 <= t2 < arena[in_range[w2]
                    as int].stations@.len() && 0 <= l2 < arena[in_range[w2]
                    as int].stations@[t2].listings@.len() && arena[in_range[w2]
                    as int].stations@[t2].listings@[l2].sell_price > 0 ==> sells_nodes.contains(
                    (in_range[w2], t2 as usize, l2 as usize),
                ),
            forall|u: int|
                0 <= u < sells_nodes.len() ==> {
                    let cc = listing_at(arena, #[trigger] sells_nodes[u]).commodity.commodity_id;
                    m.contains_key(cc) && m[cc]@.contains(sells_nodes[u])
                },
            Self::valid_pair_at(arena, range, origin, bn, sn),
        ensures
            ({
                let (b2, q2) = r;
                let cc = listing_at(arena, buys_nodes[b2]).commodity.commodity_id;
                &&& 0 <= b2 < buys_nodes.len()
                &&& buys_nodes[b2] == bn
                &&& m.contains_key(cc)
                &&& 0 <= q2 < m[cc]@.len()
                &&& m[cc]@[q2] == sn
                &&& Self::pair_scan_ok(arena, buys_nodes[b2], m[cc]@[q2])
            }),
    {
        let (si, ti) = origin;
        assert(listing_at(arena, bn) == arena[si as int].stations@[ti as int].listings@[bn.2
            as int]);
        assert(arena[si as int].stations@[ti as int].listings@[bn.2 as int].supply > 0);
        assert(buys_nodes.contains((si, ti, bn.2)));
        assert(bn == (si, ti, bn.2));
        let b2 = choose|b2: int| 0 <= b2 < buys_nodes.len() && #[trigger] buys_nodes[b2] == bn;
        assert(listing_at(arena, sn).sell_price > 0);
        assert(in_range.contains(sn.0));
        let w2 = choose|w2: int| 0 <= w2 < in_range.len() && #[trigger] in_range[w2] == sn.0;
        assert(arena[in_range[w2] as int].stations@[sn.1 as int].listings@[sn.2 as int]
            == listing_at(arena, sn));
        assert(sells_nodes.contains((sn.0, sn.1, sn.2)));
        assert(sn == (sn.0, sn.1, sn.2));
        let u = choose|u: int| 0 <= u < sells_nodes.len() && #[trigger] sells_nodes[u] == sn;
        let cc = listing_at(arena, sn).commodity.commodity_id;
        assert(cc == listing_at(arena, bn).commodity.commodity_id);
        assert(m.contains_key(cc) && m[cc]@.contains(sn));
        let q2 = choose|q2: int| 0 <= q2 < m[cc]@.len() && #[trigger] m[cc]@[q2] == sn;
        assert(Self::pair_scan_ok(arena, bn, sn));
        (b2, q2)
    }

    /// When every scanned pairing was skipped, no tradable, unprohibited
    /// in-range pairing exists at the origin at all.
    #[verifier::spinoff_prover]
    proof fn lemma_no_pair_when_all_skipped(
        arena: Seq<System>,
        range: u32,
        origin: (usize, usize),
        buys_nodes: Seq<crate::options::ListingRef>,
        in_range: Seq<usize>,
        sells_nodes: Seq<crate::options::ListingRef>,
        m: Map<u16, Vec<crate::options::ListingRef>>,
    )
        requires
            origin.0 < arena.len(),
            origin.1 < arena[origin.0 as int].stations@.len(),
            forall|l: int|
                0 <= l < arena[origin.0 as int].stations@[origin.1 as int].listings@.len() && (
                #[trigger] arena[origin.0 as int].stations@[origin.1 as int].listings@[l]).supply
                    > 0 ==> buys_nodes.contains((origin.0, origin.1, l as usize)),
            forall|k: int|
                0 <= k < arena.len() && crate::trader::spec_dist2(
                    (#[trigger] arena[k]).x as int,
                    arena[k].y as int,
                    arena[k].z as int,
                    arena[origin.0 as int].x as int,
                    arena[origin.0 as int].y as int,
                    arena[origin.0 as int].z as int,
                ) <= range as int * range as int ==> in_range.contains(k as usize),
            forall|w2: int, t2: int, l2: int|
                #![trigger arena[in_range[w2] as int].stations@[t2].listings@[l2]]
                0 <= w2 < in_range.len() && 0 <= t2 < arena[in_range[w2]
                    as int].stations@.len() && 0 <= l2 < arena[in_range[w2]
                    as int].stations@[t2].listings@.len() && arena[in_range[w2]
                    as int].stations@[t2].listings@[l2].sell_price > 0 ==> sells_nodes.contains(
                    (in_range[w2], t2 as usize, l2 as usize),
                ),
            forall|u: int|
                0 <= u < sells_nodes.len() ==> {
                    let cc = listing_at(arena, #[trigger] sells_nodes[u]).commodity.commodity_id;
                    m.contains_key(cc) && m[cc]@.contains(sells_nodes[u])
                },
            forall|b2: int, q2: int|
                #![trigger m[listing_at(arena, buys_nodes[b2]).commodity.commodity_id]@[q2]]
                0 <= b2 < buys_nodes.len() && m.contains_key(
                    listing_at(arena, buys_nodes[b2]).commodity.commodity_id,
                ) && 0 <= q2 < m[listing_at(
                    arena,
                    buys_nodes[b2],
                ).commodity.commodity_id]@.len() ==> !Self::pair_scan_ok(
                    arena,
                    buys_nodes[b2],
                    m[listing_at(arena, buys_nodes[b2]).commodity.commodity_id]@[q2],
                ),
        ensures
            !Self::some_valid_pair_at(arena, range, origin),
            forall|bn: crate::options::ListingRef, sn: crate::options::ListingRef|
                #![trigger listing_at(arena, bn), listing_at(arena, sn)]
                !Self::valid_pair_at(arena, range, origin, bn, sn),
    {
        assert forall|bn: crate::options::ListingRef, sn: crate::options::ListingRef|
            #![trigger listing_at(arena, bn), listing_at(arena, sn)]
            !Self::valid_pair_at(arena, range, origin, bn, sn) by {
            if Self::valid_pair_at(arena, range, origin, bn, sn) {
                let (b2, q2) = Self::lemma_pair_indices(
                    arena,
                    range,
                    origin,
                    buys_nodes,
                    in_range,
                    sells_nodes,
                    m,
                    bn,
                    sn,
                );
                assert(false);
            }
        }
        if Self::some_valid_pair_at(arena, range, origin) {
            let (bn, sn): (crate::options::ListingRef, crate::options::ListingRef) = choose|
                bn: crate::options::ListingRef,
                sn: crate::options::ListingRef,
            |
                #![trigger listing_at(arena, bn), listing_at(arena, sn)]
                Self::valid_pair_at(arena, range, origin, bn, sn);
            assert(!Self::valid_pair_at(arena, range, origin, bn, sn));
        }
    }

    /// Some tradable, unprohibited pairing exists at the origin position.
    pub open spec fn some_valid_pair_at(
        arena: Seq<System>,
        range: u32,
        origin: (usize, usize),
    ) -> bool {
        exists|bn: crate::options::ListingRef, sn: crate::options::ListingRef|
            #![trigger listing_at(arena, bn), listing_at(arena, sn)]
            Self::valid_pair_at(arena, range, origin, bn, sn)
    }

    /// Every candidate of a one-hop list is a tradable, unprohibited hop
    /// priced from live lines: bought at the player's station, sold within
    /// trading range; the list holds at most the hop width, ranks best
    /// first, and keeps one candidate per destination station.
    pub open spec fn one_hop_list_good(
        arena: Seq<System>,
        state: PlayerState,
        r: Seq<UnitTrade>,
        hop_width: nat,
        range: u32,
    ) -> bool {
        &&& r.len() <= hop_width
        &&& forall|q: int|
            0 <= q < r.len() ==> (#[trigger] r[q]).is_valid && !r[q].is_prohibited
                && r[q].buy_station_id == state.station_id && Self::station_resolvable(
                arena,
                r[q].sell_station_id,
            ) && Self::one_hop_candidate(arena, state, range, r[q])
        &&& forall|i: int, j: int|
            0 <= i < j < r.len() ==> (#[trigger] r[i]).profit_per_ton_per_min
                >= (#[trigger] r[j]).profit_per_ton_per_min
        &&& forall|i: int, j: int|
            0 <= i < j < r.len() ==> (#[trigger] r[i]).sell_station_id != (
            #[trigger] r[j]).sell_station_id
    }

    /// Compute the best one-hop candidates from the player's station:
    /// gather sellable lines within trading range, pair them with the
    /// station's buyable lines by commodity, keep only tradable and
    /// unprohibited pairs, and retain the best-rated hop per destination
    /// station, at most a hop width of them, best first.
    #[verifier::rlimit(100)]
    #[verifier::spinoff_prover]
    fn best_1hop_trades(
        universe: &Universe,
        state: &PlayerState,
        search_quality: SearchQuality,
    ) -> (r: Vec<UnitTrade>)
        requires
            universe.wf(),
            Self::station_resolvable(universe.systems@, state.station_id),
        ensures
            Self::one_hop_list_good(
                universe.systems@,
                *state,
                r@,
                search_quality.spec_hop_width() as nat,
                search_quality.spec_trade_range(),
            ),
            universe.index.station_position(state.station_id) matches Some(origin) ==> (r@.len()
                > 0 <==> Self::some_valid_pair_at(
                universe.systems@,
                search_quality.spec_trade_range(),
                origin,
            )),
    {
        let (si, ti) = match universe.get_index().get_index_station(state.station_id) {
            Some(p) => p,
            None => {
                proof {
                    let (k, t) = choose|k: int, t: int|
                        0 <= k < universe.systems@.len() && 0 <= t
                            < universe.systems@[k].stations@.len() && (
                        #[trigger] universe.systems@[k].stations@[t]).station_id
                            == state.station_id;
                    assert(false);
                }
                vstd::pervasive::unreached()
            },
        };
        proof {
            assert(crate::map_list::hash_model_holds::<u16>());
        }
        let systems_in_range = universe.get_index().get_index_systems_in_range(
            &universe.systems[si],
            search_quality.get_trade_range(),
        );
        let sells = SellOptions::sells_from_systems(universe, &systems_in_range);
        let sells_by_commodity = sells.by_commodity(universe);
        let buys = BuyOptions::buys_from_station(universe, si, ti);
        let hop_width = search_quality.get_hop_width();
        let mut trade_buffer: ScoredCircularBuffer<UnitTrade> = ScoredCircularBuffer::new(
            hop_width,
            Sort::Descending,
        );
        let ghost arena = universe.systems@;
        let bn = buys.nodes.len();
        let mut b: usize = 0;
        while b < bn
            invariant
                0 <= b <= bn,
                bn == buys.nodes@.len(),
                universe.wf(),
                trade_buffer.well_formed(),
                trade_buffer.spec_capacity() == search_quality.spec_hop_width(),
                trade_buffer.spec_sort() == Sort::Descending,
                arena == universe.systems@,
                si < arena.len(),
                ti < arena[si as int].stations@.len(),
                arena[si as int].stations@[ti as int].station_id == state.station_id,
                buys.wf(arena),
                forall|q: int|
                    0 <= q < buys.nodes@.len() ==> (#[trigger] buys.nodes@[q]).0 == si
                        && buys.nodes@[q].1 == ti && crate::options::spec_is_buy_at(
                        arena,
                        buys.nodes@[q],
                    ),
                sells.wf(arena),
                forall|q: int|
                    0 <= q < sells.nodes@.len() ==> crate::options::spec_pays_at(
                        arena,
                        #[trigger] sells.nodes@[q],
                    ) && systems_in_range@.contains(sells.nodes@[q].0),
                forall|w: int|
                    0 <= w < systems_in_range@.len() ==> (#[trigger] systems_in_range@[w])
                        < arena.len() && crate::trader::spec_dist2(
                        arena[systems_in_range@[w] as int].x as int,
                        arena[systems_in_range@[w] as int].y as int,
                        arena[systems_in_range@[w] as int].z as int,
                        arena[si as int].x as int,
                        arena[si as int].y as int,
                        arena[si as int].z as int,
                    ) <= search_quality.spec_trade_range() as int
                        * search_quality.spec_trade_range(),
                forall|k: int|
                    0 <= k < arena.len() && crate::trader::spec_dist2(
                        (#[trigger] arena[k]).x as int,
                        arena[k].y as int,
                        arena[k].z as int,
                        arena[si as int].x as int,
                        arena[si as int].y as int,
                        arena[si as int].z as int,
                    ) <= search_quality.spec_trade_range() as int
                        * search_quality.spec_trade_range() ==> systems_in_range@.contains(
                        k as usize,
                    ),
                forall|w2: int, t2: int, l2: int|
                    #![trigger arena[systems_in_range@[w2] as int].stations@[t2].listings@[l2]]
                    0 <= w2 < systems_in_range@.len() && 0 <= t2 < arena[systems_in_range@[w2]
                        as int].stations@.len() && 0 <= l2 < arena[systems_in_range@[w2]
                        as int].stations@[t2].listings@.len() && arena[systems_in_range@[w2]
                        as int].stations@[t2].listings@[l2].sell_price > 0
                        ==> sells.nodes@.contains(
                        (systems_in_range@[w2], t2 as usize, l2 as usize),
                    ),
                forall|u: int|
                    0 <= u < sells.nodes@.len() ==> {
                        let cc = listing_at(
                            arena,
                            #[trigger] sells.nodes@[u],
                        ).commodity.commodity_id;
                        crate::map_list::hash_model_holds::<u16>()
                            ==> sells_by_commodity@.contains_key(cc)
                            && sells_by_commodity@[cc]@.contains(sells.nodes@[u])
                    },
                trade_buffer@.len() > 0 ==> Self::some_valid_pair_at(
                    arena,
                    search_quality.spec_trade_range(),
                    (si, ti),
                ),
                crate::map_list::hash_model_holds::<u16>() && trade_buffer@.len() == 0
                    ==> forall|b2: int, q2: int|
                    #![trigger sells_by_commodity@[listing_at(arena, buys.nodes@[b2]).commodity.commodity_id]@[q2]]
                    0 <= b2 < b && sells_by_commodity@.contains_key(
                        listing_at(arena, buys.nodes@[b2]).commodity.commodity_id,
                    ) && 0 <= q2 < sells_by_commodity@[listing_at(
                        arena,
                        buys.nodes@[b2],
                    ).commodity.commodity_id]@.len() ==> !Self::pair_scan_ok(
                        arena,
                        buys.nodes@[b2],
                        sells_by_commodity@[listing_at(
                            arena,
                            buys.nodes@[b2],
                        ).commodity.commodity_id]@[q2],
                    ),
                crate::map_list::hash_model_holds::<u16>() ==> forall|c: u16, q: int|
                    #![trigger sells_by_commodity@[c]@[q]]
                    sells_by_commodity@.contains_key(c) && 0 <= q < sells_by_commodity@[c]@.len()
                        ==> crate::options::listing_ref_valid(arena, sells_by_commodity@[c]@[q])
                        && listing_at(arena, sells_by_commodity@[c]@[q]).commodity.commodity_id
                        == c && sells.nodes@.contains(sells_by_commodity@[c]@[q]),
                forall|w: int|
                    0 <= w < trade_buffer@.len() ==> good_buffer_entry(
                        arena,
                        *state,
                        search_quality.spec_trade_range(),
                        #[trigger] trade_buffer@[w],
                    ),
            decreases bn - b,
        {
            let (bsi, bti, bli) = buys.nodes[b];
            let commodity_id =
                universe.systems[bsi].stations[bti].listings[bli].commodity.commodity_id;
            match sells_by_commodity.get(&commodity_id) {
                None => {
                    proof {
                        assert(!sells_by_commodity@.contains_key(commodity_id));
                    }
                },
                Some(sell_nodes) => {
                    let ghost snodes = sell_nodes@;
                    proof {
                        assert forall|q: int|
                            0 <= q < snodes.len() implies crate::options::listing_ref_valid(
                            arena,
                            #[trigger] snodes[q],
                        ) && crate::options::spec_pays_at(arena, snodes[q]) && snodes[q].0
                            < arena.len() && crate::trader::spec_dist2(
                            arena[snodes[q].0 as int].x as int,
                            arena[snodes[q].0 as int].y as int,
                            arena[snodes[q].0 as int].z as int,
                            arena[si as int].x as int,
                            arena[si as int].y as int,
                            arena[si as int].z as int,
                        ) <= search_quality.spec_trade_range() as int
                            * search_quality.spec_trade_range() by {
                            assert(sells.nodes@.contains(snodes[q]));
                            let u = choose|u: int|
                                0 <= u < sells.nodes@.len() && #[trigger] sells.nodes@[u]
                                    == snodes[q];
                            assert(systems_in_range@.contains(snodes[q].0));
                            let w = choose|w: int|
                                0 <= w < systems_in_range@.len()
                                    && #[trigger] systems_in_range@[w] == snodes[q].0;
                        }
                    }
                    let sn = sell_nodes.len();
                    let mut sx: usize = 0;
                    while sx < sn
                        invariant
                            0 <= sx <= sn,
                            sn == snodes.len(),
                            universe.wf(),
                            trade_buffer.well_formed(),
                            trade_buffer.spec_capacity() == search_quality.spec_hop_width(),
                            trade_buffer.spec_sort() == Sort::Descending,
                            arena == universe.systems@,
                            si < arena.len(),
                            ti < arena[si as int].stations@.len(),
                            arena[si as int].stations@[ti as int].station_id == state.station_id,
                            bsi == si && bti == ti,
                            (bsi, bti, bli) == buys.nodes@[b as int],
                            0 <= b < buys.nodes@.len(),
                            crate::options::listing_ref_valid(arena, (bsi, bti, bli)),
                            crate::options::spec_is_buy_at(arena, (bsi, bti, bli)),
                            commodity_id == listing_at(
                                arena,
                                (bsi, bti, bli),
                            ).commodity.commodity_id,
                            sells_by_commodity@.contains_key(commodity_id),
                            sells_by_commodity@[commodity_id]@ == snodes,
                            sell_nodes@ == snodes,
                            trade_buffer@.len() > 0 ==> Self::some_valid_pair_at(
                                arena,
                                search_quality.spec_trade_range(),
                                (si, ti),
                            ),
                            crate::map_list::hash_model_holds::<u16>() && trade_buffer@.len() == 0
                                ==> forall|b2: int, q2: int|
                                #![trigger sells_by_commodity@[listing_at(arena, buys.nodes@[b2]).commodity.commodity_id]@[q2]]
                                0 <= b2 < b && sells_by_commodity@.contains_key(
                                    listing_at(arena, buys.nodes@[b2]).commodity.commodity_id,
                                ) && 0 <= q2 < sells_by_commodity@[listing_at(
                                    arena,
                                    buys.nodes@[b2],
                                ).commodity.commodity_id]@.len() ==> !Self::pair_scan_ok(
                                    arena,
                                    buys.nodes@[b2],
                                    sells_by_commodity@[listing_at(
                                        arena,
                                        buys.nodes@[b2],
                                    ).commodity.commodity_id]@[q2],
                                ),
                            trade_buffer@.len() == 0 ==> forall|q2: int|
                                0 <= q2 < sx ==> !Self::pair_scan_ok(
                                    arena,
                                    (bsi, bti, bli),
                                    #[trigger] snodes[q2],
                                ),
                            forall|q: int|
                                0 <= q < snodes.len() ==> crate::options::listing_ref_valid(
                                    arena,
                                    #[trigger] snodes[q],
                                ) && crate::options::spec_pays_at(arena, snodes[q])
                                    && snodes[q].0 < arena.len() && crate::trader::spec_dist2(
                                    arena[snodes[q].0 as int].x as int,
                                    arena[snodes[q].0 as int].y as int,
                                    arena[snodes[q].0 as int].z as int,
                                    arena[si as int].x as int,
                                    arena[si as int].y as int,
                                    arena[si as int].z as int,
                                ) <= search_quality.spec_trade_range() as int
                                    * search_quality.spec_trade_range(),
                            forall|w: int|
                                0 <= w < trade_buffer@.len() ==> good_buffer_entry(
                                    arena,
                                    *state,
                                    search_quality.spec_trade_range(),
                                    #[trigger] trade_buffer@[w],
                                ),
                        decreases sn - sx,
                    {
                        let (ssi, sti, sli) = sell_nodes[sx];
                        let valid = UnitTrade::is_valid(
                            &universe.systems[bsi].stations[bti].listings[bli],
                            &universe.systems[ssi].stations[sti].listings[sli],
                        );
                        if valid {
                            let prohibited = UnitTrade::is_prohibited(
                                &universe.systems[bsi].stations[bti].listings[bli].commodity,
                                &universe.systems[ssi].stations[sti],
                            );
                            if !prohibited {
                                let trade = UnitTrade::new_unpacked(
                                    state,
                                    &universe.systems[bsi],
                                    &universe.systems[bsi].stations[bti],
                                    &universe.systems[bsi].stations[bti].listings[bli],
                                    &universe.systems[ssi],
                                    &universe.systems[ssi].stations[sti],
                                    &universe.systems[ssi].stations[sti].listings[sli],
                                );
                                let score = trade.score();
                                let bucket = trade.sell_station_id as u64;
                                let ghost buf0 = trade_buffer@;
                                let ghost item = crate::scored_buf::ScoredItem {
                                    score,
                                    bucket: Some(bucket),
                                    value: trade,
                                };
                                proof {
                                    assert(Self::station_resolvable(
                                        arena,
                                        trade.sell_station_id,
                                    )) by {
                                        assert(arena[ssi as int].stations@[sti as int].station_id
                                            == trade.sell_station_id);
                                    }
                                    assert(Self::valid_pair_at(
                                        arena,
                                        search_quality.spec_trade_range(),
                                        (si, ti),
                                        (bsi, bti, bli),
                                        (ssi, sti, sli),
                                    ));
                                    assert(Self::some_valid_pair_at(
                                        arena,
                                        search_quality.spec_trade_range(),
                                        (si, ti),
                                    )) by {
                                        assert(listing_at(arena, (bsi, bti, bli))
                                            == listing_at(arena, (bsi, bti, bli)));
                                        assert(listing_at(arena, (ssi, sti, sli))
                                            == listing_at(arena, (ssi, sti, sli)));
                                    }
                                    assert(Self::one_hop_candidate(
                                        arena,
                                        *state,
                                        search_quality.spec_trade_range(),
                                        trade,
                                    )) by {
                                        let bn = (bsi, bti, bli);
                                        let sn = (ssi, sti, sli);
                                        assert(crate::options::listing_ref_valid(arena, bn)
                                            && crate::options::listing_ref_valid(arena, sn)
                                            && arena[bn.0 as int].stations@[bn.1
                                            as int].station_id == state.station_id && listing_at(
                                            arena,
                                            bn,
                                        ).supply > 0 && listing_at(arena, sn).sell_price > 0
                                            && trade.consistent_with(
                                            *state,
                                            arena[bn.0 as int],
                                            arena[bn.0 as int].stations@[bn.1 as int],
                                            listing_at(arena, bn),
                                            arena[sn.0 as int],
                                            arena[sn.0 as int].stations@[sn.1 as int],
                                            listing_at(arena, sn),
                                        ));
                                    }
                                    assert(good_buffer_entry(
                                        arena,
                                        *state,
                                        search_quality.spec_trade_range(),
                                        item,
                                    ));
                                }
                                trade_buffer.push_bucket(trade, score, bucket);
                                proof {
                                    assert(trade_buffer@.len() > 0) by {
                                        assert(search_quality.spec_hop_width() >= 5);
                                        crate::scored_buf::lemma_bucket_pos_props(buf0, bucket);
                                        if crate::scored_buf::spec_bucket_pos(buf0, bucket) < 0 {
                                            if buf0.len() < search_quality.spec_hop_width() {
                                                crate::scored_buf::lemma_insert_pos_props(
                                                    Sort::Descending,
                                                    buf0,
                                                    score,
                                                );
                                            } else if crate::scored_buf::strictly_better(
                                                Sort::Descending,
                                                score,
                                                buf0[0].score,
                                            ) {
                                                crate::scored_buf::lemma_insert_pos_props(
                                                    Sort::Descending,
                                                    buf0.drop_first(),
                                                    score,
                                                );
                                            }
                                        } else {
                                            if crate::scored_buf::strictly_better(
                                                Sort::Descending,
                                                score,
                                                buf0[crate::scored_buf::spec_bucket_pos(
                                                    buf0,
                                                    bucket,
                                                )].score,
                                            ) {
                                                crate::scored_buf::lemma_insert_pos_props(
                                                    Sort::Descending,
                                                    buf0.remove(
                                                        crate::scored_buf::spec_bucket_pos(
                                                            buf0,
                                                            bucket,
                                                        ),
                                                    ),
                                                    score,
                                                );
                                            }
                                        }
                                    }
                                    crate::scored_buf::lemma_push_any_elements(
                                        Sort::Descending,
                                        search_quality.spec_hop_width() as nat,
                                        buf0,
                                        item,
                                    );
                                    assert forall|w: int|
                                        0 <= w < trade_buffer@.len() implies good_buffer_entry(
                                        arena,
                                        *state,
                                        search_quality.spec_trade_range(),
                                        #[trigger] trade_buffer@[w],
                                    ) by {
                                        if trade_buffer@[w] != item {
                                            assert(buf0.contains(trade_buffer@[w]));
                                            let u = choose|u: int|
                                                0 <= u < buf0.len() && buf0[u]
                                                    == trade_buffer@[w];
                                        }
                                    }
                                }
                            }
                        }
                        sx += 1;
                    }
                    proof {
                        if trade_buffer@.len() == 0 {
                            assert forall|q2: int|
                                0 <= q2 < sells_by_commodity@[commodity_id]@.len() implies !Self::pair_scan_ok(
                                arena,
                                buys.nodes@[b as int],
                                sells_by_commodity@[commodity_id]@[q2],
                            ) by {
                                assert(sells_by_commodity@[commodity_id]@[q2] == snodes[q2]);
                            }
                        }
                    }
                },
            }
            b += 1;
        }
        let ghost buf_final = trade_buffer@;
        let r = trade_buffer.sort_mut();
        proof {
            assert forall|q: int| 0 <= q < r@.len() implies (#[trigger] r@[q]).is_valid
                && !r@[q].is_prohibited && r@[q].buy_station_id == state.station_id
                && Self::station_resolvable(arena, r@[q].sell_station_id)
                && Self::one_hop_candidate(
                arena,
                *state,
                search_quality.spec_trade_range(),
                r@[q],
            ) by {
                assert(good_buffer_entry(
                    arena,
                    *state,
                    search_quality.spec_trade_range(),
                    buf_final[r@.len() - 1 - q],
                ));
            }
            assert forall|i: int, j: int|
                0 <= i < j < r@.len() implies (#[trigger] r@[i]).profit_per_ton_per_min >= (
            #[trigger] r@[j]).profit_per_ton_per_min by {
                let wi = r@.len() - 1 - i;
                let wj = r@.len() - 1 - j;
                assert(good_buffer_entry(
                    arena,
                    *state,
                    search_quality.spec_trade_range(),
                    buf_final[wi],
                ));
                assert(good_buffer_entry(
                    arena,
                    *state,
                    search_quality.spec_trade_range(),
                    buf_final[wj],
                ));
                assert(!crate::scored_buf::strictly_better(
                    Sort::Descending,
                    buf_final[wj].score,
                    buf_final[wi].score,
                ));
            }
            assert forall|i: int, j: int|
                0 <= i < j < r@.len() implies (#[trigger] r@[i]).sell_station_id != (
            #[trigger] r@[j]).sell_station_id by {
                let wi = r@.len() - 1 - i;
                let wj = r@.len() - 1 - j;
                assert(good_buffer_entry(
                    arena,
                    *state,
                    search_quality.spec_trade_range(),
                    buf_final[wi],
                ));
                assert(good_buffer_entry(
                    arena,
                    *state,
                    search_quality.spec_trade_range(),
                    buf_final[wj],
                ));
                assert(buf_final[wj].bucket != buf_final[wi].bucket);
            }
            let origin = (si, ti);
            let range = search_quality.spec_trade_range();
            assert(universe.index.station_position(state.station_id) == Some(origin));
            if r@.len() == 0 {
                assert(buf_final.len() == 0);
                Self::lemma_no_pair_when_all_skipped(
                    arena,
                    range,
                    origin,
                    buys.nodes@,
                    systems_in_range@,
                    sells.nodes@,
                    sells_by_commodity@,
                );
            } else {
                assert(Self::some_valid_pair_at(arena, range, origin));
            }
        }
        r
    }
}

/// A memoized hop re-priced against the live arena: the rebuilt hop's every
/// field matches the lines at the cached positions.
pub open spec fn repriced_from(
    arena: Seq<System>,
    state: PlayerState,
    c: CachedTrade,
    t: UnitTrade,
) -> bool {
    t.consistent_with(
        state,
        arena[c.buy.0 as int],
        arena[c.buy.0 as int].stations@[c.buy.1 as int],
        listing_at(arena, c.buy),
        arena[c.sell.0 as int],
        arena[c.sell.0 as int].stations@[c.sell.1 as int],
        listing_at(arena, c.sell),
    )
}

/// A buffered candidate is tradable, unprohibited, priced from live lines
/// within trading range of the player's own station, ranked under its own
/// rate, and deduplicated under its destination.
pub open spec fn good_buffer_entry(
    arena: Seq<System>,
    state: PlayerState,
    range: u32,
    it: crate::scored_buf::ScoredItem<UnitTrade>,
) -> bool {
    &&& it.value.is_valid
    &&& !it.value.is_prohibited
    &&& it.value.buy_station_id == state.station_id
    &&& it.score == it.value.profit_per_ton_per_min
    &&& it.bucket == Some(it.value.sell_station_id as u64)
    &&& SearchCache::station_resolvable(arena, it.value.sell_station_id)
    &&& SearchCache::one_hop_candidate(arena, state, range, it.value)
}


impl SearchCache {
    /// The one-hop candidates from the node's station: the memoized list
    /// re-priced against the live market when one is cached, else freshly
    /// computed, memoized, and recorded in the reverse index. Every
    /// returned hop buys at the node's station and sells at a station of
    /// the arena.
    pub fn get_1hop_trades(
        &mut self,
        universe: &Universe,
        station: &crate::search::SearchStation,
    ) -> (r: Vec<UnitTrade>)
        requires
            universe.wf(),
            old(self).wf(universe.systems@),
            Self::station_resolvable(universe.systems@, station.state.station_id),
        ensures
            final(self).wf(universe.systems@),
            forall|q: int|
                0 <= q < r@.len() ==> (#[trigger] r@[q]).buy_station_id
                    == station.state.station_id && Self::station_resolvable(
                    universe.systems@,
                    r@[q].sell_station_id,
                ),
            !old(self).cache_map().contains_key(station.state.station_id) ==> {
                &&& Self::one_hop_list_good(
                    universe.systems@,
                    station.state,
                    r@,
                    station.search_quality.spec_hop_width() as nat,
                    station.search_quality.spec_trade_range(),
                )
                &&& final(self).cache_map().contains_key(station.state.station_id)
                &&& final(self).cache_map().remove(station.state.station_id) == old(
                    self,
                ).cache_map().remove(station.state.station_id)
                &&& forall|q: int|
                    0 <= q < r@.len() ==> final(self).lookup_map().contains_key(
                        (#[trigger] r@[q]).sell_station_id,
                    ) && final(self).lookup_map()[r@[q].sell_station_id]@.contains(
                        r@[q].buy_station_id,
                    )
                &&& (universe.index.station_position(station.state.station_id) matches Some(
                    origin,
                ) ==> (r@.len() > 0 <==> Self::some_valid_pair_at(
                    universe.systems@,
                    station.search_quality.spec_trade_range(),
                    origin,
                )))
            },
            old(self).cache_map().contains_key(station.state.station_id) ==> {
                &&& final(self).cache_map() == old(self).cache_map()
                &&& final(self).lookup_map() == old(self).lookup_map()
                &&& r@.len() == old(self).cache_map()[station.state.station_id]@.len()
                &&& forall|q: int|
                    0 <= q < r@.len() ==> repriced_from(
                        universe.systems@,
                        station.state,
                        old(self).cache_map()[station.state.station_id]@[q],
                        #[trigger] r@[q],
                    )
            },
    {
        let station_id = station.state.station_id;
        let ghost arena = universe.systems@;
        let cached = match self.trade_cache.get(&station_id) {
            Some(entries) => {
                let ghost centries = entries@;
                let n = entries.len();
                let mut out: Vec<UnitTrade> = Vec::new();
                let mut i: usize = 0;
                while i < n
                    invariant
                        0 <= i <= n,
                        universe.wf(),
                        arena == universe.systems@,
                        self.wf(arena),
                        self.trade_cache@ == old(self).cache_map(),
                        self.sell_lookup@ == old(self).lookup_map(),
                        station_id == station.state.station_id,
                        self.cache_map().contains_key(station_id),
                        centries == self.cache_map()[station_id]@,
                        n == centries.len(),
                        out@.len() == i,
                        forall|q: int|
                            0 <= q < out@.len() ==> (#[trigger] out@[q]).buy_station_id
                                == station_id && Self::station_resolvable(
                                arena,
                                out@[q].sell_station_id,
                            ) && repriced_from(arena, station.state, centries[q], out@[q]),
                    decreases n - i,
                {
                    let entries_now = match self.trade_cache.get(&station_id) {
                        Some(v) => v,
                        None => {
                            proof {
                                assert(false);
                            }
                            return Vec::new();
                        },
                    };
                    let c = entries_now[i];
                    proof {
                        assert(cached_trade_valid(arena, station_id, centries[i as int]));
                    }
                    let trade = c.to_unit_trade(universe, &station.state);
                    proof {
                        let (ssi, sti, _sli) = c.sell;
                        assert(trade.sell_station_id == arena[ssi as int].stations@[sti
                            as int].station_id);
                    }
                    out.push(trade);
                    i += 1;
                }
                Some(out)
            },
            None => None,
        };
        match cached {
            Some(out) => out,
            None => {
                let trades = Self::best_1hop_trades(
                    universe,
                    &station.state,
                    station.search_quality,
                );
                let mut cache_list: Vec<CachedTrade> = Vec::new();
                let n = trades.len();
                let mut i: usize = 0;
                while i < n
                    invariant
                        0 <= i <= n,
                        universe.wf(),
                        arena == universe.systems@,
                        n == trades@.len(),
                        forall|q: int|
                            0 <= q < trades@.len() ==> (#[trigger] trades@[q]).buy_station_id
                                == station_id,
                        forall|q: int|
                            0 <= q < cache_list@.len() ==> cached_trade_valid(
                                arena,
                                station_id,
                                #[trigger] cache_list@[q],
                            ),
                    decreases n - i,
                {
                    match Self::to_cached_trade(&trades[i], universe) {
                        Some(c) => {
                            cache_list.push(c);
                        },
                        None => {},
                    }
                    i += 1;
                }
                let ghost cm0 = self.trade_cache@;
                proof {
                    assert(cm0 == self.cache_map());
                }
                self.trade_cache.insert(station_id, cache_list);
                proof {
                    assert forall|key: u32, q: int|
                        #![trigger self.cache_map()[key]@[q]]
                        self.cache_map().contains_key(key) && 0 <= q
                            < self.cache_map()[key]@.len() implies cached_trade_valid(
                        arena,
                        key,
                        self.cache_map()[key]@[q],
                    ) by {
                        if key != station_id {
                            assert(self.cache_map()[key] == cm0[key]);
                            assert(cached_trade_valid(arena, key, cm0[key]@[q]));
                        } else {
                            assert(self.cache_map()[station_id] == cache_list);
                            assert(cached_trade_valid(arena, station_id, cache_list@[q]));
                        }
                    }
                }
                proof {
                    assert(self.cache_map().remove(station_id) =~= cm0.remove(station_id));
                }
                self.update_sell_lookup(&trades);
                trades
            },
        }
    }

    /// One randomly drawn tradable, unprohibited hop from the player's
    /// station, when the draws find one. Which hop comes back depends on
    /// the thread's random generator; every returned hop is tradable,
    /// unprohibited and bought at the player's station.
    pub fn random_1hop_trade(universe: &Universe, state: &PlayerState) -> (r: Option<UnitTrade>)
        requires
            universe.wf(),
            Self::station_resolvable(universe.systems@, state.station_id),
        ensures
            r matches Some(t) ==> t.is_valid && !t.is_prohibited && t.buy_station_id
                == state.station_id,
    {
        let (si, ti) = match universe.get_index().get_index_station(state.station_id) {
            Some(p) => p,
            None => {
                proof {
                    let (k, t) = choose|k: int, t: int|
                        0 <= k < universe.systems@.len() && 0 <= t
                            < universe.systems@[k].stations@.len() && (
                        #[trigger] universe.systems@[k].stations@[t]).station_id
                            == state.station_id;
                    assert(false);
                }
                vstd::pervasive::unreached()
            },
        };
        let systems_in_range = universe.get_index().get_index_systems_in_range(
            &universe.systems[si],
            state.jump_range,
        );
        let buys = BuyOptions::buys_from_station(universe, si, ti);
        let sells = SellOptions::sells_from_systems(universe, &systems_in_range);
        let sells_by_commodity = sells.by_commodity(universe);
        if buys.nodes.len() == 0 || sells.nodes.len() == 0 {
            return None;
        }
        let ghost arena = universe.systems@;
        let bl = buys.nodes.len();
        let sl = sells.nodes.len();
        let attempts: usize = if bl <= usize::MAX / sl {
            proof {
                assert(bl * sl <= usize::MAX) by (nonlinear_arith)
                    requires
                        sl > 0,
                        bl <= usize::MAX as int / sl as int,
                ;
            }
            bl * sl
        } else {
            usize::MAX
        };
        let mut tries: usize = 0;
        while tries < attempts
            invariant
                universe.wf(),
                arena == universe.systems@,
                si < arena.len(),
                ti < arena[si as int].stations@.len(),
                arena[si as int].stations@[ti as int].station_id == state.station_id,
                buys.nodes@.len() > 0,
                buys.wf(arena),
                forall|q: int|
                    0 <= q < buys.nodes@.len() ==> (#[trigger] buys.nodes@[q]).0 == si
                        && buys.nodes@[q].1 == ti,
                crate::map_list::hash_model_holds::<u16>() ==> forall|c: u16, q: int|
                    #![trigger sells_by_commodity@[c]@[q]]
                    sells_by_commodity@.contains_key(c) && 0 <= q < sells_by_commodity@[c]@.len()
                        ==> crate::options::listing_ref_valid(arena, sells_by_commodity@[c]@[q])
                        && listing_at(arena, sells_by_commodity@[c]@[q]).commodity.commodity_id
                        == c,
            decreases attempts - tries,
        {
            let b = crate::pick::random_index(buys.nodes.len());
            let (bsi, bti, bli) = buys.nodes[b];
            let commodity_id =
                universe.systems[bsi].stations[bti].listings[bli].commodity.commodity_id;
            match sells_by_commodity.get(&commodity_id) {
                None => {
                    proof {
                        assert(!sells_by_commodity@.contains_key(commodity_id));
                    }
                },
                Some(sell_nodes) => {
                    if sell_nodes.len() > 0 {
                        let sx = crate::pick::random_index(sell_nodes.len());
                        let (ssi, sti, sli) = sell_nodes[sx];
                        let valid = UnitTrade::is_valid(
                            &universe.systems[bsi].stations[bti].listings[bli],
                            &universe.systems[ssi].stations[sti].listings[sli],
                        );
                        if valid {
                            let prohibited = UnitTrade::is_prohibited(
                                &universe.systems[bsi].stations[bti].listings[bli].commodity,
                                &universe.systems[ssi].stations[sti],
                            );
                            if !prohibited {
                                return Some(
                                    UnitTrade::new_unpacked(
                                        state,
                                        &universe.systems[bsi],
                                        &universe.systems[bsi].stations[bti],
                                        &universe.systems[bsi].stations[bti].listings[bli],
                                        &universe.systems[ssi],
                                        &universe.systems[ssi].stations[sti],
                                        &universe.systems[ssi].stations[sti].listings[sli],
                                    ),
                                );
                            }
                        }
                    }
                },
            }
            tries += 1;
        }
        None
    }
}

/// Whether the list holds the value.
fn contains_u32(list: &Vec<u32>, value: u32) -> (r: bool)
    ensures
        r == list@.contains(value),
{
    let n = list.len();
    let mut i: usize = 0;
    while i < n
        invariant
            0 <= i <= n,
            n == list@.len(),
            forall|w: int| 0 <= w < i ==> (#[trigger] list@[w]) != value,
        decreases n - i,
    {
        if list[i] == value {
            assert(list@[i as int] == value);
            return true;
        }
        i += 1;
    }
    false
}

} // verus!
