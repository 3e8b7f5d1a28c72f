use vstd::prelude::*;

verus! {

use crate::map_list::{hash_model_holds, MapList};
use crate::trader::{Listing, System};
use crate::universe::Universe;

/// An arena position of one market line: system, station and line index.
pub type ListingRef = (usize, usize, usize);

/// The position points inside the arena.
pub open spec fn listing_ref_valid(arena: Seq<System>, n: ListingRef) -> bool {
    &&& n.0 < arena.len()
    &&& n.1 < arena[n.0 as int].stations@.len()
    &&& n.2 < arena[n.0 as int].stations@[n.1 as int].listings@.len()
}

/// The market line at a position.
pub open spec fn listing_at(arena: Seq<System>, n: ListingRef) -> Listing {
    arena[n.0 as int].stations@[n.1 as int].listings@[n.2 as int]
}

/// A gathered set of market lines, held by arena position so the set stays
/// a plain value.
pub struct ListingOptions {
    pub nodes: Vec<ListingRef>,
}

impl ListingOptions {
    /// Every held position points inside the arena.
    pub open spec fn wf(&self, arena: Seq<System>) -> bool {
        forall|q: int| 0 <= q < self.nodes@.len() ==> listing_ref_valid(arena, #[trigger] self.nodes@[q])
    }

    pub fn push(&mut self, trade: ListingRef)
        ensures
            final(self).nodes@ == old(self).nodes@.push(trade),
    {
        self.nodes.push(trade);
    }

    pub fn push_all(&mut self, trades: &Vec<ListingRef>)
        ensures
            final(self).nodes@ == old(self).nodes@ + trades@,
    {
        let n = trades.len();
        let mut i: usize = 0;
        while i < n
            invariant
                0 <= i <= n,
                n == trades@.len(),
                self.nodes@ == old(self).nodes@ + trades@.take(i as int),
            decreases n - i,
        {
            self.nodes.push(trades[i]);
            proof {
                assert(old(self).nodes@ + trades@.take(i as int + 1) =~= (old(self).nodes@
                    + trades@.take(i as int)).push(trades@[i as int]));
            }
            i += 1;
        }
        proof {
            assert(old(self).nodes@ + trades@.take(n as int) =~= old(self).nodes@ + trades@);
        }
    }

    pub fn len(&self) -> (r: usize)
        ensures
            r == self.nodes@.len(),
    {
        self.nodes.len()
    }

    /// Group the held lines by commodity: every line lands in the list of
    /// its own commodity, and every grouped line is one of the held lines.
    pub fn by_commodity(&self, universe: &Universe) -> (m: MapList<u16, ListingRef>)
        requires
            self.wf(universe.systems@),
        ensures
            hash_model_holds::<u16>() ==> {
                &&& forall|c: u16, q: int|
                    #![trigger m@[c]@[q]]
                    m@.contains_key(c) && 0 <= q < m@[c]@.len() ==> listing_ref_valid(
                        universe.systems@,
                        m@[c]@[q],
                    ) && listing_at(universe.systems@, m@[c]@[q]).commodity.commodity_id == c
                        && self.nodes@.contains(m@[c]@[q])
                &&& forall|w: int|
                    0 <= w < self.nodes@.len() ==> {
                        let c = listing_at(
                            universe.systems@,
                            #[trigger] self.nodes@[w],
                        ).commodity.commodity_id;
                        m@.contains_key(c) && m@[c]@.contains(self.nodes@[w])
                    }
            },
    {
        let mut m: MapList<u16, ListingRef> = MapList::new();
        let n = self.nodes.len();
        let mut i: usize = 0;
        while i < n
            invariant
                0 <= i <= n,
                n == self.nodes@.len(),
                self.wf(universe.systems@),
                hash_model_holds::<u16>() ==> {
                    &&& forall|c: u16, q: int|
                        #![trigger m@[c]@[q]]
                        m@.contains_key(c) && 0 <= q < m@[c]@.len() ==> listing_ref_valid(
                            universe.systems@,
                            m@[c]@[q],
                        ) && listing_at(universe.systems@, m@[c]@[q]).commodity.commodity_id == c
                            && self.nodes@.contains(m@[c]@[q])
                    &&& forall|w: int|
                        0 <= w < i ==> {
                            let c = listing_at(
                                universe.systems@,
                                #[trigger] self.nodes@[w],
                            ).commodity.commodity_id;
                            m@.contains_key(c) && m@[c]@.contains(self.nodes@[w])
                        }
                },
            decreases n - i,
        {
            let (si, ti, li) = self.nodes[i];
            let ghost m0 = m@;
            let c = universe.systems[si].stations[ti].listings[li].commodity.commodity_id;
            m.insert(c, (si, ti, li));
            proof {
                if hash_model_holds::<u16>() {
                    assert(m@[c]@.last() == self.nodes@[i as int]);
                    assert forall|w: int| 0 <= w < i + 1 implies {
                        let cc = listing_at(
                            universe.systems@,
                            #[trigger] self.nodes@[w],
                        ).commodity.commodity_id;
                        m@.contains_key(cc) && m@[cc]@.contains(self.nodes@[w])
                    } by {
                        let cc = listing_at(universe.systems@, self.nodes@[w]).commodity.commodity_id;
                        if w < i {
                            assert(m0.contains_key(cc) && m0[cc]@.contains(self.nodes@[w]));
                            if cc == c {
                                let u = choose|u: int|
                                    0 <= u < m0[cc]@.len() && m0[cc]@[u] == self.nodes@[w];
                                assert(m@[c]@[u] == self.nodes@[w]);
                            } else {
                                assert(m@[cc] == m0[cc]);
                            }
                        } else {
                            assert(m@[c]@[m@[c]@.len() - 1] == self.nodes@[w]);
                        }
                    }
                    assert forall|cc: u16, q: int|
                        #![trigger m@[cc]@[q]]
                        m@.contains_key(cc) && 0 <= q < m@[cc]@.len() implies listing_ref_valid(
                        universe.systems@,
                        m@[cc]@[q],
                    ) && listing_at(universe.systems@, m@[cc]@[q]).commodity.commodity_id == cc
                        && self.nodes@.contains(m@[cc]@[q]) by {
                        if cc == c {
                            if q < m@[c]@.len() - 1 {
                                if m0.contains_key(c) {
                                    assert(m@[c]@[q] == m0[c]@[q]);
                                }
                            } else {
                                assert(m@[c]@[q] == self.nodes@[i as int]);
                                assert(self.nodes@.contains(self.nodes@[i as int]));
                            }
                        } else {
                            assert(m@[cc] == m0[cc]);
                        }
                    }
                }
            }
            i += 1;
        }
        m
    }
}

impl Default for ListingOptions {
    fn default() -> (r: ListingOptions)
        ensures
            r.nodes@ == Seq::<ListingRef>::empty(),
    {
        ListingOptions { nodes: Vec::new() }
    }
}

/// Lines that can be bought from: positions where stock is on offer.
pub type BuyOptions = ListingOptions;

/// Lines that can be sold to: positions where the station pays.
pub type SellOptions = ListingOptions;

/// Whether the line at a valid position has stock to buy.
pub open spec fn spec_is_buy_at(arena: Seq<System>, n: ListingRef) -> bool {
    listing_at(arena, n).supply > 0
}

/// Whether the line at a valid position is paid for: stock never limits
/// selling, only buying.
pub open spec fn spec_pays_at(arena: Seq<System>, n: ListingRef) -> bool {
    listing_at(arena, n).sell_price > 0
}

impl ListingOptions {
    /// Every buyable line of one station, in order.
    pub fn buys_from_station(universe: &Universe, si: usize, ti: usize) -> (r: BuyOptions)
        requires
            si < universe.systems@.len(),
            ti < universe.systems@[si as int].stations@.len(),
        ensures
            r.wf(universe.systems@),
            forall|q: int|
                0 <= q < r.nodes@.len() ==> (#[trigger] r.nodes@[q]).0 == si && r.nodes@[q].1 == ti
                    && spec_is_buy_at(universe.systems@, r.nodes@[q]),
            forall|l: int|
                0 <= l < universe.systems@[si as int].stations@[ti as int].listings@.len() && (
                #[trigger] universe.systems@[si as int].stations@[ti as int].listings@[l]).supply
                    > 0 ==> r.nodes@.contains((si, ti, l as usize)),
            forall|i: int, j: int|
                0 <= i < j < r.nodes@.len() ==> (#[trigger] r.nodes@[i]).2 < (
                #[trigger] r.nodes@[j]).2,
    {
        let mut r = ListingOptions::default();
        let ln = universe.systems[si].stations[ti].listings.len();
        let mut l: usize = 0;
        while l < ln
            invariant
                0 <= l <= ln,
                si < universe.systems@.len(),
                ti < universe.systems@[si as int].stations@.len(),
                ln == universe.systems@[si as int].stations@[ti as int].listings@.len(),
                forall|q: int|
                    0 <= q < r.nodes@.len() ==> (#[trigger] r.nodes@[q]).0 == si && r.nodes@[q].1
                        == ti && r.nodes@[q].2 < l && spec_is_buy_at(
                        universe.systems@,
                        r.nodes@[q],
                    ),
                forall|w: int|
                    0 <= w < l && (#[trigger] universe.systems@[si as int].stations@[ti
                        as int].listings@[w]).supply > 0 ==> r.nodes@.contains(
                        (si, ti, w as usize),
                    ),
                forall|i: int, j: int|
                    0 <= i < j < r.nodes@.len() ==> (#[trigger] r.nodes@[i]).2 < (
                    #[trigger] r.nodes@[j]).2,
            decreases ln - l,
        {
            if universe.systems[si].stations[ti].listings[l].is_buy() {
                let ghost before = r.nodes@;
                r.push((si, ti, l));
                proof {
                    assert forall|w: int|
                        0 <= w < l + 1 && (#[trigger] universe.systems@[si as int].stations@[ti
                            as int].listings@[w]).supply > 0 implies r.nodes@.contains(
                        (si, ti, w as usize),
                    ) by {
                        if w < l {
                            let u = choose|u: int|
                                0 <= u < before.len() && before[u] == (si, ti, w as usize);
                            assert(r.nodes@[u] == (si, ti, w as usize));
                        } else {
                            assert(r.nodes@[r.nodes@.len() - 1] == (si, ti, w as usize));
                        }
                    }
                }
            }
            l += 1;
        }
        r
    }

    /// Every line the given systems pay for, in order: the gathered
    /// positions are exactly those, over the given systems, whose line the
    /// station pays for.
    pub fn sells_from_systems(universe: &Universe, systems: &Vec<usize>) -> (r: SellOptions)
        requires
            forall|w: int| 0 <= w < systems@.len() ==> (#[trigger] systems@[w]) < universe.systems@.len(),
        ensures
            r.wf(universe.systems@),
            forall|q: int|
                0 <= q < r.nodes@.len() ==> spec_pays_at(
                    universe.systems@,
                    #[trigger] r.nodes@[q],
                ) && systems@.contains(r.nodes@[q].0),
            forall|w: int, t: int, l: int|
                #![trigger universe.systems@[systems@[w] as int].stations@[t].listings@[l]]
                0 <= w < systems@.len() && 0 <= t < universe.systems@[systems@[w]
                    as int].stations@.len() && 0 <= l < universe.systems@[systems@[w]
                    as int].stations@[t].listings@.len() && universe.systems@[systems@[w]
                    as int].stations@[t].listings@[l].sell_price > 0 ==> r.nodes@.contains(
                    (systems@[w], t as usize, l as usize),
                ),
    {
        let mut r = ListingOptions::default();
        let n = systems.len();
        let mut w: usize = 0;
        while w < n
            invariant
                0 <= w <= n,
                n == systems@.len(),
                forall|v: int|
                    0 <= v < systems@.len() ==> (#[trigger] systems@[v]) < universe.systems@.len(),
                forall|q: int|
                    0 <= q < r.nodes@.len() ==> listing_ref_valid(
                        universe.systems@,
                        #[trigger] r.nodes@[q],
                    ) && spec_pays_at(universe.systems@, r.nodes@[q]) && systems@.contains(
                        r.nodes@[q].0,
                    ),
                forall|w2: int, t2: int, l2: int|
                    #![trigger universe.systems@[systems@[w2] as int].stations@[t2].listings@[l2]]
                    0 <= w2 < w && 0 <= t2 < universe.systems@[systems@[w2]
                        as int].stations@.len() && 0 <= l2 < universe.systems@[systems@[w2]
                        as int].stations@[t2].listings@.len() && universe.systems@[systems@[w2]
                        as int].stations@[t2].listings@[l2].sell_price > 0 ==> r.nodes@.contains(
                        (systems@[w2], t2 as usize, l2 as usize),
                    ),
            decreases n - w,
        {
            let si = systems[w];
            let sn = universe.systems[si].stations.len();
            let mut t: usize = 0;
            while t < sn
                invariant
                    0 <= t <= sn,
                    0 <= w < n,
                    n == systems@.len(),
                    si == systems@[w as int],
                    si < universe.systems@.len(),
                    sn == universe.systems@[si as int].stations@.len(),
                    forall|v: int|
                        0 <= v < systems@.len() ==> (#[trigger] systems@[v])
                            < universe.systems@.len(),
                    forall|q: int|
                        0 <= q < r.nodes@.len() ==> listing_ref_valid(
                            universe.systems@,
                            #[trigger] r.nodes@[q],
                        ) && spec_pays_at(universe.systems@, r.nodes@[q]) && systems@.contains(
                            r.nodes@[q].0,
                        ),
                    forall|w2: int, t2: int, l2: int|
                        #![trigger universe.systems@[systems@[w2] as int].stations@[t2].listings@[l2]]
                        0 <= w2 < w && 0 <= t2 < universe.systems@[systems@[w2]
                            as int].stations@.len() && 0 <= l2 < universe.systems@[systems@[w2]
                            as int].stations@[t2].listings@.len() && universe.systems@[systems@[w2]
                            as int].stations@[t2].listings@[l2].sell_price > 0
                            ==> r.nodes@.contains((systems@[w2], t2 as usize, l2 as usize)),
                    forall|t2: int, l2: int|
                        #![trigger universe.systems@[si as int].stations@[t2].listings@[l2]]
                        0 <= t2 < t && 0 <= l2 < universe.systems@[si
                            as int].stations@[t2].listings@.len() && universe.systems@[si
                            as int].stations@[t2].listings@[l2].sell_price > 0
                            ==> r.nodes@.contains((si, t2 as usize, l2 as usize)),
                decreases sn - t,
            {
                let ln = universe.systems[si].stations[t].listings.len();
                let mut l: usize = 0;
                while l < ln
                    invariant
                        0 <= l <= ln,
                        0 <= t < sn,
                        0 <= w < n,
                        n == systems@.len(),
                        si == systems@[w as int],
                        si < universe.systems@.len(),
                        sn == universe.systems@[si as int].stations@.len(),
                        ln == universe.systems@[si as int].stations@[t as int].listings@.len(),
                        forall|v: int|
                            0 <= v < systems@.len() ==> (#[trigger] systems@[v])
                                < universe.systems@.len(),
                        forall|q: int|
                            0 <= q < r.nodes@.len() ==> listing_ref_valid(
                                universe.systems@,
                                #[trigger] r.nodes@[q],
                            ) && spec_pays_at(universe.systems@, r.nodes@[q])
                                && systems@.contains(r.nodes@[q].0),
                        forall|w2: int, t2: int, l2: int|
                            #![trigger universe.systems@[systems@[w2] as int].stations@[t2].listings@[l2]]
                            0 <= w2 < w && 0 <= t2 < universe.systems@[systems@[w2]
                                as int].stations@.len() && 0 <= l2 < universe.systems@[systems@[w2]
                                as int].stations@[t2].listings@.len()
                                && universe.systems@[systems@[w2]
                                as int].stations@[t2].listings@[l2].sell_price > 0
                                ==> r.nodes@.contains((systems@[w2], t2 as usize, l2 as usize)),
                        forall|t2: int, l2: int|
                            #![trigger universe.systems@[si as int].stations@[t2].listings@[l2]]
                            0 <= t2 < t && 0 <= l2 < universe.systems@[si
                                as int].stations@[t2].listings@.len() && universe.systems@[si
                                as int].stations@[t2].listings@[l2].sell_price > 0
                                ==> r.nodes@.contains((si, t2 as usize, l2 as usize)),
                        forall|l2: int|
                            #![trigger universe.systems@[si as int].stations@[t as int].listings@[l2]]
                            0 <= l2 < l && universe.systems@[si as int].stations@[t
                                as int].listings@[l2].sell_price > 0 ==> r.nodes@.contains(
                                (si, t as usize, l2 as usize),
                            ),
                    decreases ln - l,
                {
                    let line = &universe.systems[si].stations[t].listings[l];
                    if line.is_sell() {
                        let ghost before = r.nodes@;
                        r.push((si, t, l));
                        proof {
                            assert(r.nodes@[r.nodes@.len() - 1] == (si, t as usize, l as usize));
                            assert(forall|y: ListingRef|
                                before.contains(y) ==> #[trigger] r.nodes@.contains(y)) by {
                                assert forall|y: ListingRef|
                                    before.contains(y) implies #[trigger] r.nodes@.contains(y) by {
                                    let u = choose|u: int|
                                        0 <= u < before.len() && before[u] == y;
                                    assert(r.nodes@[u] == y);
                                }
                            }
                        }
                    }
                    l += 1;
                }
                t += 1;
            }
            w += 1;
        }
        proof {
            assert forall|w2: int, t2: int, l2: int|
                #![trigger universe.systems@[systems@[w2] as int].stations@[t2].listings@[l2]]
                0 <= w2 < systems@.len() && 0 <= t2 < universe.systems@[systems@[w2]
                    as int].stations@.len() && 0 <= l2 < universe.systems@[systems@[w2]
                    as int].stations@[t2].listings@.len() && universe.systems@[systems@[w2]
                    as int].stations@[t2].listings@[l2].sell_price > 0 implies r.nodes@.contains(
                (systems@[w2], t2 as usize, l2 as usize),
            ) by {
            }
        }
        r
    }

    /// Every line one station pays for, in line order: exactly the
    /// positions with a positive sale price. Stock never limits selling,
    /// only buying.
    pub fn sells_from_station(universe: &Universe, si: usize, ti: usize) -> (r: SellOptions)
        requires
            si < universe.systems@.len(),
            ti < universe.systems@[si as int].stations@.len(),
        ensures
            r.wf(universe.systems@),
            forall|q: int|
                0 <= q < r.nodes@.len() ==> (#[trigger] r.nodes@[q]).0 == si && r.nodes@[q].1 == ti
                    && spec_pays_at(universe.systems@, r.nodes@[q]),
            forall|l: int|
                0 <= l < universe.systems@[si as int].stations@[ti as int].listings@.len() && (
                #[trigger] universe.systems@[si as int].stations@[ti
                    as int].listings@[l]).sell_price > 0 ==> r.nodes@.contains(
                    (si, ti, l as usize),
                ),
            forall|i: int, j: int|
                0 <= i < j < r.nodes@.len() ==> (#[trigger] r.nodes@[i]).2 < (
                #[trigger] r.nodes@[j]).2,
    {
        let mut r = ListingOptions::default();
        let ln = universe.systems[si].stations[ti].listings.len();
        let mut l: usize = 0;
        while l < ln
            invariant
                0 <= l <= ln,
                si < universe.systems@.len(),
                ti < universe.systems@[si as int].stations@.len(),
                ln == universe.systems@[si as int].stations@[ti as int].listings@.len(),
                forall|q: int|
                    0 <= q < r.nodes@.len() ==> (#[trigger] r.nodes@[q]).0 == si && r.nodes@[q].1
                        == ti && r.nodes@[q].2 < l && spec_pays_at(
                        universe.systems@,
                        r.nodes@[q],
                    ),
                forall|w: int|
                    0 <= w < l && (#[trigger] universe.systems@[si as int].stations@[ti
                        as int].listings@[w]).sell_price > 0 ==> r.nodes@.contains(
                        (si, ti, w as usize),
                    ),
                forall|i: int, j: int|
                    0 <= i < j < r.nodes@.len() ==> (#[trigger] r.nodes@[i]).2 < (
                    #[trigger] r.nodes@[j]).2,
            decreases ln - l,
        {
            let line = &universe.systems[si].stations[ti].listings[l];
            if line.is_sell() {
                let ghost before = r.nodes@;
                r.push((si, ti, l));
                proof {
                    assert(r.nodes@[r.nodes@.len() - 1] == (si, ti, l as usize));
                    assert forall|w: int|
                        0 <= w < l + 1 && (#[trigger] universe.systems@[si as int].stations@[ti
                            as int].listings@[w]).sell_price > 0 implies r.nodes@.contains(
                        (si, ti, w as usize),
                    ) by {
                        if w < l {
                            let u = choose|u: int|
                                0 <= u < before.len() && before[u] == (si, ti, w as usize);
                            assert(r.nodes@[u] == (si, ti, w as usize));
                        } else {
                            assert(r.nodes@[r.nodes@.len() - 1] == (si, ti, w as usize));
                        }
                    }
                }
            }
            l += 1;
        }
        r
    }
}

} // verus!
