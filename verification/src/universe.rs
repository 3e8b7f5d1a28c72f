use vstd::prelude::*;

verus! {

use crate::player_state::PlayerState;
use crate::price_adjustment::PriceAdjustment;
use crate::scored_buf::{ScoredCircularBuffer, ScoredItem, Sort};
use crate::time_adjustment::TimeAdjustment;
use crate::trader::{Commodity, Listing, ShipSize, Station, System};
use crate::universe_index::{same_shape, station_pair_valid, UniverseIndex};
use vstd::seq_lib::lemma_multiset_commutative;

/// Two stations hold exactly the same data.
pub open spec fn station_equal(a: Station, b: Station) -> bool {
    &&& a.system_id == b.system_id
    &&& a.station_id == b.station_id
    &&& a.station_name == b.station_name
    &&& a.max_landing_pad_size == b.max_landing_pad_size
    &&& a.distance_to_star == b.distance_to_star
    &&& a.updated_at == b.updated_at
    &&& a.market_updated_at == b.market_updated_at
    &&& a.is_planetary == b.is_planetary
    &&& a.prohibited_commodities@ == b.prohibited_commodities@
    &&& a.listings@ == b.listings@
}

/// Two systems hold exactly the same data.
pub open spec fn system_equal(a: System, b: System) -> bool {
    &&& a.system_id == b.system_id
    &&& a.system_name == b.system_name
    &&& a.x == b.x
    &&& a.y == b.y
    &&& a.z == b.z
    &&& a.needs_permit == b.needs_permit
    &&& a.updated_at == b.updated_at
    &&& a.stations@.len() == b.stations@.len()
    &&& forall|t: int|
        0 <= t < a.stations@.len() ==> station_equal(
            #[trigger] a.stations@[t],
            #[trigger] b.stations@[t],
        )
}

/// Two arenas hold exactly the same data.
pub open spec fn arena_equal(a: Seq<System>, b: Seq<System>) -> bool {
    &&& a.len() == b.len()
    &&& forall|k: int| 0 <= k < a.len() ==> system_equal(#[trigger] a[k], #[trigger] b[k])
}

/// How many of the freshest travel-time corrections feed the running
/// correction factor.
pub const TIME_ADJUSTMENT_WINDOW: usize = 20;

/// The authoritative state of the simulated economy: the system arena, the
/// freshest travel-time corrections, and the index over the arena.
pub struct Universe {
    pub systems: Vec<System>,
    pub time_adjustments: ScoredCircularBuffer<TimeAdjustment>,
    pub index: UniverseIndex,
}

impl Universe {
    /// The index matches the arena, every system sits inside the bounding
    /// volume, and the correction buffer is intact.
    pub open spec fn wf(&self) -> bool {
        &&& self.index.wf()
        &&& self.index.target() == self.systems@
        &&& forall|k: int| 0 <= k < self.systems@.len() ==> (#[trigger] self.systems@[k]).in_volume()
        &&& self.time_adjustments.well_formed()
    }

    /// Assemble a universe from loaded systems; refused when a system lies
    /// outside the galaxy's bounding volume.
    pub fn new(systems: Vec<System>) -> (r: Option<Universe>)
        ensures
            match r {
                Some(u) => u.wf() && u.systems@ == systems@ && u.time_adjustments@
                    == Seq::<ScoredItem<TimeAdjustment>>::empty(),
                None => exists|k: int|
                    0 <= k < systems@.len() && !(#[trigger] systems@[k]).in_volume(),
            },
    {
        let n = systems.len();
        let mut k: usize = 0;
        while k < n
            invariant
                0 <= k <= n,
                n == systems@.len(),
                forall|w: int| 0 <= w < k ==> (#[trigger] systems@[w]).in_volume(),
            decreases n - k,
        {
            let s = &systems[k];
            if !(crate::trader::VOLUME_X_MIN <= s.x && s.x <= crate::trader::VOLUME_X_MAX
                && crate::trader::VOLUME_Y_MIN <= s.y && s.y <= crate::trader::VOLUME_Y_MAX
                && crate::trader::VOLUME_Z_MIN <= s.z && s.z <= crate::trader::VOLUME_Z_MAX) {
                return None;
            }
            k += 1;
        }
        let index = UniverseIndex::calculate(&systems);
        Some(
            Universe {
                systems,
                time_adjustments: ScoredCircularBuffer::new(
                    TIME_ADJUSTMENT_WINDOW,
                    Sort::Descending,
                ),
                index,
            },
        )
    }

    /// An independent copy of the arena with a fresh index and an empty
    /// correction window, safe to hand to a search while the authoritative
    /// universe keeps taking corrections.
    pub fn snapshot(&self) -> (r: Universe)
        requires
            self.wf(),
        ensures
            r.wf(),
            arena_equal(r.systems@, self.systems@),
            r.time_adjustments@ == Seq::<ScoredItem<TimeAdjustment>>::empty(),
    {
        let systems_new = clone_systems(&self.systems);
        let index = UniverseIndex::calculate(&systems_new);
        proof {
            assert forall|k: int|
                0 <= k < systems_new@.len() implies (#[trigger] systems_new@[k]).in_volume() by {
                assert(system_equal(systems_new@[k], self.systems@[k]));
                assert(self.systems@[k].in_volume());
            }
        }
        Universe {
            systems: systems_new,
            time_adjustments: ScoredCircularBuffer::new(TIME_ADJUSTMENT_WINDOW, Sort::Descending),
            index,
        }
    }

    pub fn get_index(&self) -> (r: &UniverseIndex)
        ensures
            r == &self.index,
    {
        &self.index
    }

    /// The system at an arena position.
    pub fn get_system_by_index(&self, index: Option<usize>) -> (r: Option<&System>)
        requires
            index matches Some(i) ==> i < self.systems@.len(),
        ensures
            match index {
                Some(i) => r == Some(&self.systems@[i as int]),
                None => r is None,
            },
    {
        match index {
            Some(i) => Some(&self.systems[i]),
            None => None,
        }
    }

    /// The station at an arena position.
    pub fn get_station_by_index(&self, index: Option<(usize, usize)>) -> (r: Option<&Station>)
        requires
            index matches Some(p) ==> p.0 < self.systems@.len() && p.1 < self.systems@[p.0
                as int].stations@.len(),
        ensures
            match index {
                Some(p) => r == Some(&self.systems@[p.0 as int].stations@[p.1 as int]),
                None => r is None,
            },
    {
        match index {
            Some((si, ti)) => Some(&self.systems[si].stations[ti]),
            None => None,
        }
    }

    /// The market line at an arena position.
    pub fn get_listing_by_index(&self, index: Option<(usize, usize, usize)>) -> (r: Option<
        &Listing,
    >)
        requires
            index matches Some(p) ==> p.0 < self.systems@.len() && p.1 < self.systems@[p.0
                as int].stations@.len() && p.2 < self.systems@[p.0 as int].stations@[p.1
                as int].listings@.len(),
        ensures
            match index {
                Some(p) => r == Some(
                    &self.systems@[p.0 as int].stations@[p.1 as int].listings@[p.2 as int],
                ),
                None => r is None,
            },
    {
        match index {
            Some((si, ti, li)) => Some(&self.systems[si].stations[ti].listings[li]),
            None => None,
        }
    }

    /// The system carrying this id, exactly when the arena holds one.
    pub fn get_system(&self, id: u32) -> (r: Option<&System>)
        requires
            self.wf(),
        ensures
            match r {
                Some(s) => s.system_id == id && exists|k: int|
                    0 <= k < self.systems@.len() && *s == #[trigger] self.systems@[k],
                None => forall|k: int|
                    0 <= k < self.systems@.len() ==> (#[trigger] self.systems@[k]).system_id != id,
            },
    {
        let idx = self.index.get_index_system(id);
        match idx {
            Some(i) => {
                proof {
                    assert(self.systems@[i as int] == self.index.target()[i as int]);
                }
                Some(&self.systems[i])
            },
            None => None,
        }
    }

    /// The station carrying this id, exactly when the arena holds one.
    pub fn get_station(&self, id: u32) -> (r: Option<&Station>)
        requires
            self.wf(),
        ensures
            match r {
                Some(s) => s.station_id == id && exists|k: int, t: int|
                    0 <= k < self.systems@.len() && 0 <= t < self.systems@[k].stations@.len() && *s
                        == #[trigger] self.systems@[k].stations@[t],
                None => forall|k: int, t: int|
                    0 <= k < self.systems@.len() && 0 <= t < self.systems@[k].stations@.len() ==> (
                    #[trigger] self.systems@[k].stations@[t]).station_id != id,
            },
    {
        let idx = self.index.get_index_station(id);
        match idx {
            Some((si, ti)) => {
                proof {
                    assert(self.systems@[si as int].stations@[ti as int] == self.index.target()[si
                        as int].stations@[ti as int]);
                }
                Some(&self.systems[si].stations[ti])
            },
            None => None,
        }
    }

    /// Every system within `range` milli-light-years of `system`.
    pub fn get_systems_in_range(&self, system: &System, range: u32) -> (r: Vec<&System>)
        requires
            self.wf(),
            system.in_volume(),
        ensures
            forall|q: int|
                0 <= q < r@.len() ==> arena_member_within(
                    *(#[trigger] r@[q]),
                    self.systems@,
                    system.x as int,
                    system.y as int,
                    system.z as int,
                    range as int,
                ),
    {
        let indices = self.index.get_index_systems_in_range(system, range);
        let mut out: Vec<&System> = Vec::new();
        let n = indices.len();
        let mut q: usize = 0;
        while q < n
            invariant
                0 <= q <= n,
                n == indices@.len(),
                self.wf(),
                system.in_volume(),
                forall|w: int|
                    0 <= w < indices@.len() ==> (#[trigger] indices@[w]) < self.systems@.len()
                        && crate::trader::spec_dist2(
                        self.systems@[indices@[w] as int].x as int,
                        self.systems@[indices@[w] as int].y as int,
                        self.systems@[indices@[w] as int].z as int,
                        system.x as int,
                        system.y as int,
                        system.z as int,
                    ) <= range as int * range as int,
                out@.len() == q,
                forall|w: int|
                    0 <= w < q ==> *(#[trigger] out@[w]) == self.systems@[indices@[w] as int],
            decreases n - q,
        {
            out.push(&self.systems[indices[q]]);
            q += 1;
        }
        proof {
            assert forall|w: int| 0 <= w < out@.len() implies arena_member_within(
                *(#[trigger] out@[w]),
                self.systems@,
                system.x as int,
                system.y as int,
                system.z as int,
                range as int,
            ) by {
                let k0 = indices@[w] as int;
                assert(0 <= k0 < self.systems@.len() && self.systems@[k0] == *out@[w]
                    && crate::trader::spec_dist2(
                    self.systems@[k0].x as int,
                    self.systems@[k0].y as int,
                    self.systems@[k0].z as int,
                    system.x as int,
                    system.y as int,
                    system.z as int,
                ) <= range as int * range as int);
            }
        }
        out
    }
}

/// The system is one of the arena's and lies within `range` of the given
/// position.
pub open spec fn arena_member_within(
    sys: System,
    arena: Seq<System>,
    cx: int,
    cy: int,
    cz: int,
    range: int,
) -> bool {
    exists|k: int|
        0 <= k < arena.len() && #[trigger] arena[k] == sys && crate::trader::spec_dist2(
            arena[k].x as int,
            arena[k].y as int,
            arena[k].z as int,
            cx,
            cy,
            cz,
        ) <= range * range
}


/// Ascending order.
pub open spec fn sorted_u32(s: Seq<u32>) -> bool {
    forall|i: int, j: int| 0 <= i < j < s.len() ==> s[i] <= s[j]
}

/// The first position whose entry exceeds `x`.
spec fn spec_sort_pos(s: Seq<u32>, x: u32) -> int
    decreases s.len(),
{
    if s.len() == 0 {
        0
    } else if s[0] > x {
        0
    } else {
        1 + spec_sort_pos(s.drop_first(), x)
    }
}

proof fn lemma_sort_pos_props(s: Seq<u32>, x: u32)
    ensures
        0 <= spec_sort_pos(s, x) <= s.len(),
        forall|i: int| 0 <= i < spec_sort_pos(s, x) ==> s[i] <= x,
        spec_sort_pos(s, x) < s.len() ==> s[spec_sort_pos(s, x)] > x,
    decreases s.len(),
{
    if s.len() > 0 && !(s[0] > x) {
        lemma_sort_pos_props(s.drop_first(), x);
        let p = spec_sort_pos(s, x);
        assert forall|i: int| 0 <= i < p implies s[i] <= x by {
            if i > 0 {
                assert(s.drop_first()[i - 1] == s[i]);
            }
        }
        if p < s.len() {
            assert(s.drop_first()[p - 1] == s[p]);
        }
    }
}

/// Sort values ascending, keeping the multiset of entries.
fn sort_u32(v: &Vec<u32>) -> (r: Vec<u32>)
    ensures
        sorted_u32(r@),
        r@.to_multiset() == v@.to_multiset(),
        r@.len() == v@.len(),
{
    let mut out: Vec<u32> = Vec::new();
    let n = v.len();
    let mut i: usize = 0;
    proof {
        assert(v@.take(0) =~= Seq::<u32>::empty());
        v@.take(0).to_multiset_ensures();
        out@.to_multiset_ensures();
        assert(out@.to_multiset() =~= v@.take(0).to_multiset());
    }
    while i < n
        invariant
            0 <= i <= n,
            n == v@.len(),
            out@.len() == i,
            sorted_u32(out@),
            out@.to_multiset() == v@.take(i as int).to_multiset(),
        decreases n - i,
    {
        let x = v[i];
        proof {
            lemma_sort_pos_props(out@, x);
        }
        let ghost s0 = out@;
        let ghost pp = spec_sort_pos(out@, x);
        let pos = sort_insert_index(&out, x);
        out.insert(pos, x);
        proof {
            s0.insert_ensures(pp, x);
            assert forall|a: int, b: int| 0 <= a < b < out@.len() implies out@[a] <= out@[b] by {
                let a0 = if a < pp { a } else { a - 1 };
                let b0 = if b <= pp { b - 1 } else { b - 1 };
                if a < pp && b == pp {
                    assert(out@[a] == s0[a]);
                } else if a == pp && b > pp {
                    assert(out@[b] == s0[b - 1]);
                } else if a < pp && b > pp {
                    assert(out@[a] == s0[a] && out@[b] == s0[b - 1]);
                } else if a > pp {
                    assert(out@[a] == s0[a - 1] && out@[b] == s0[b - 1]);
                } else if b < pp {
                    assert(out@[a] == s0[a] && out@[b] == s0[b]);
                }
            }
            lemma_u32_insert_to_multiset(s0, pp, x);
            assert(v@.take(i as int).push(x) =~= v@.take(i as int + 1));
            v@.take(i as int).to_multiset_ensures();
        }
        i += 1;
    }
    proof {
        assert(v@.take(n as int) =~= v@);
    }
    out
}

/// The position where a sorted insertion belongs.
fn sort_insert_index(v: &Vec<u32>, x: u32) -> (r: usize)
    ensures
        r == spec_sort_pos(v@, x),
{
    proof {
        lemma_sort_pos_props(v@, x);
    }
    let ghost p = spec_sort_pos(v@, x);
    let n = v.len();
    let mut i: usize = 0;
    while i < n
        invariant
            0 <= i <= n,
            n == v@.len(),
            p == spec_sort_pos(v@, x),
            0 <= p <= v@.len(),
            forall|k: int| 0 <= k < p ==> v@[k] <= x,
            p < v@.len() ==> v@[p] > x,
            forall|k: int| 0 <= k < i ==> v@[k] <= x,
        decreases n - i,
    {
        if v[i] > x {
            assert(i == p) by {
                if (i as int) < p {
                    assert(v@[i as int] <= x);
                }
                if p < i as int {
                    assert(v@[p] <= x);
                }
            }
            return i;
        }
        i += 1;
    }
    assert(p == n as int) by {
        if p < n as int {
            assert(v@[p] <= x);
        }
    }
    n
}

/// Inserting adds exactly the inserted value to the multiset of entries.
proof fn lemma_u32_insert_to_multiset(s: Seq<u32>, p: int, x: u32)
    requires
        0 <= p <= s.len(),
    ensures
        s.insert(p, x).to_multiset() == s.to_multiset().insert(x),
{
    let t = s.insert(p, x);
    s.insert_ensures(p, x);
    t.to_multiset_ensures();
    assert(t.remove(p) =~= s);
    assert(t.to_multiset().remove(x) =~= s.to_multiset());
    assert(t.contains(x));
    assert(t.to_multiset().count(x) > 0);
    assert(t.to_multiset() =~= s.to_multiset().insert(x));
}

/// The middle of an ascending run: its middle entry, or the mean of the two
/// middle entries when the run has even length.
pub open spec fn spec_middle(s: Seq<u32>) -> int
    recommends
        s.len() > 0,
{
    if s.len() % 2 == 1 {
        s[s.len() as int / 2] as int
    } else {
        (s[s.len() as int / 2 - 1] + s[s.len() as int / 2]) as int / 2
    }
}

/// `r` is the median of the entries of `base` after padding to the window.
pub open spec fn is_median_of(r: u32, base: Seq<u32>) -> bool {
    exists|t: Seq<u32>|
        #![trigger t.to_multiset()]
        t.to_multiset() == spec_padded(base).to_multiset() && sorted_u32(t) && t.len()
            == spec_padded(base).len() && r == spec_middle(t)
}

/// Fewer than ten measurements are padded with the neutral factor, so the
/// factor moves slowly while measurements are scarce.
pub open spec fn spec_padded(base: Seq<u32>) -> Seq<u32> {
    if base.len() >= 10 {
        base
    } else {
        base + Seq::new((10 - base.len()) as nat, |i: int| crate::time_estimate::FACTOR_UNIT_MILLI)
    }
}

/// The measured-over-estimated ratio of one correction, in thousandths,
/// saturating; a correction without a usable estimate counts as neutral.
pub open spec fn spec_ratio(t: TimeAdjustment) -> u32 {
    if t.raw_estimate.time_to_station == 0 {
        crate::time_estimate::FACTOR_UNIT_MILLI
    } else {
        let v = t.actual_time.time_to_station as int * 1000 / t.raw_estimate.time_to_station as int;
        if v <= u32::MAX {
            v as u32
        } else {
            u32::MAX
        }
    }
}

/// The ratios of every correction in the window, in buffer order.
pub open spec fn spec_ratios(items: Seq<ScoredItem<TimeAdjustment>>) -> Seq<u32> {
    items.map_values(|it: ScoredItem<TimeAdjustment>| spec_ratio(it.value))
}

/// The ratio of one correction.
fn ratio_of(t: &TimeAdjustment) -> (r: u32)
    ensures
        r == spec_ratio(*t),
{
    if t.raw_estimate.time_to_station == 0 {
        return crate::time_estimate::FACTOR_UNIT_MILLI;
    }
    let wide: u128 = (t.actual_time.time_to_station as u128) * 1000 / (t.raw_estimate.time_to_station
        as u128);
    if wide <= u32::MAX as u128 {
        wide as u32
    } else {
        u32::MAX
    }
}

impl Universe {
    /// The running travel-time correction factor, in thousandths: the
    /// median of the measured-over-estimated ratios in the correction
    /// window, padded with neutral entries while measurements are scarce.
    pub fn get_raw_adjustment_factor(&self) -> (r: u32)
        requires
            self.wf(),
        ensures
            is_median_of(r, spec_ratios(self.time_adjustments@)),
    {
        let tas = self.time_adjustments.sort();
        let mut vals: Vec<u32> = Vec::new();
        let n = tas.len();
        let mut i: usize = 0;
        while i < n
            invariant
                0 <= i <= n,
                n == tas@.len(),
                n == self.time_adjustments@.len(),
                forall|w: int|
                    0 <= w < n ==> *(#[trigger] tas@[w]) == self.time_adjustments@[n - 1
                        - w].value,
                vals@.len() == i,
                forall|w: int|
                    0 <= w < i ==> (#[trigger] vals@[w]) == spec_ratio(
                        self.time_adjustments@[n - 1 - w].value,
                    ),
            decreases n - i,
        {
            vals.push(ratio_of(tas[i]));
            i += 1;
        }
        while vals.len() < 10
            invariant
                n == self.time_adjustments@.len(),
                n <= vals@.len(),
                vals@.len() == n || vals@.len() <= 10,
                forall|w: int|
                    0 <= w < n ==> (#[trigger] vals@[w]) == spec_ratio(
                        self.time_adjustments@[n - 1 - w].value,
                    ),
                forall|w: int|
                    n <= w < vals@.len() ==> (#[trigger] vals@[w])
                        == crate::time_estimate::FACTOR_UNIT_MILLI,
            decreases 10 - vals@.len(),
        {
            vals.push(crate::time_estimate::FACTOR_UNIT_MILLI);
        }
        let sorted = sort_u32(&vals);
        let m = sorted.len();
        let r: u32 = if m % 2 == 1 {
            sorted[m / 2]
        } else {
            (((sorted[m / 2 - 1] as u64) + (sorted[m / 2] as u64)) / 2) as u32
        };
        proof {
            let base = spec_ratios(self.time_adjustments@);
            assert(vals@ =~= base.reverse() + Seq::new(
                (vals@.len() - n) as nat,
                |i: int| crate::time_estimate::FACTOR_UNIT_MILLI,
            )) by {
                assert(base.len() == n);
                assert(forall|w: int|
                    0 <= w < n ==> base.reverse()[w] == #[trigger] base[n - 1 - w]);
            }
            lemma_padded_multiset(base, vals@);
            assert(sorted@.to_multiset() == spec_padded(base).to_multiset());
            assert(sorted@.len() == spec_padded(base).len()) by {
                sorted@.to_multiset_ensures();
                spec_padded(base).to_multiset_ensures();
            }
            assert(r == spec_middle(sorted@));
            assert(is_median_of(r, base)) by {
                assert(sorted@.to_multiset() == spec_padded(base).to_multiset() && sorted_u32(
                    sorted@,
                ) && sorted@.len() == spec_padded(base).len() && r == spec_middle(sorted@));
            }
        }
        r
    }
}

/// Reversing and padding keeps the multiset of ratios.
proof fn lemma_padded_multiset(base: Seq<u32>, vals: Seq<u32>)
    requires
        vals == base.reverse() + Seq::new(
            (vals.len() - base.len()) as nat,
            |i: int| crate::time_estimate::FACTOR_UNIT_MILLI,
        ),
        vals.len() >= base.len(),
        vals.len() >= 10,
        base.len() >= 10 ==> vals.len() == base.len(),
        base.len() < 10 ==> vals.len() == 10,
    ensures
        vals.to_multiset() == spec_padded(base).to_multiset(),
{
    let pad = Seq::new((vals.len() - base.len()) as nat, |i: int| crate::time_estimate::FACTOR_UNIT_MILLI);
    lemma_multiset_commutative(base.reverse(), pad);
    base.lemma_reverse_to_multiset();
    if base.len() >= 10 {
        assert(pad =~= Seq::<u32>::empty());
        assert(spec_padded(base) == base);
        assert(vals =~= base.reverse());
        assert(vals.to_multiset() =~= spec_padded(base).to_multiset());
    } else {
        let pad2 = Seq::new((10 - base.len()) as nat, |i: int| crate::time_estimate::FACTOR_UNIT_MILLI);
        assert(pad =~= pad2);
        lemma_multiset_commutative(base, pad2);
        assert(spec_padded(base) == base + pad2);
        assert(vals.to_multiset() =~= spec_padded(base).to_multiset());
    }
}


/// One market line patched by a correction: fields the correction carries
/// replace the line's, but only when the line's collection time predates
/// the correction by the freshness margin (so stale user entries never
/// overwrite fresher market data).
pub open spec fn spec_apply_price(l: Listing, p: PriceAdjustment) -> Listing {
    if l.commodity.commodity_id == p.commodity_id && l.collected_at + 600 < p.timestamp {
        Listing {
            buy_price: (match p.buy_price {
                Some(v) => v,
                None => l.buy_price,
            }),
            supply: (match p.supply {
                Some(v) => v,
                None => l.supply,
            }),
            sell_price: (match p.sell_price {
                Some(v) => v,
                None => l.sell_price,
            }),
            ..l
        }
    } else {
        l
    }
}

impl Universe {
    /// Apply one price correction to the indexed station's market lines.
    /// Returns the corrected station's arena position, or `None` when no
    /// station carries the correction's station id.
    pub fn apply_price_adjustment(&mut self, price: &PriceAdjustment) -> (r: Ghost<
        Option<(usize, usize)>,
    >)
        requires
            old(self).wf(),
        ensures
            final(self).wf(),
            final(self).time_adjustments == old(self).time_adjustments,
            match r@ {
                None => final(self).systems@ == old(self).systems@ && (forall|k: int, t: int|
                    0 <= k < old(self).systems@.len() && 0 <= t < old(self).systems@[k].stations@.len() ==> (
                    #[trigger] old(self).systems@[k].stations@[t]).station_id != price.station_id),
                Some((si, ti)) => {
                    &&& station_pair_valid(old(self).systems@, si, ti, price.station_id)
                    &&& final(self).systems@.len() == old(self).systems@.len()
                    &&& forall|k: int|
                        0 <= k < old(self).systems@.len() && k != si ==> final(self).systems@[k]
                            == #[trigger] old(self).systems@[k]
                    &&& final(self).systems@[si as int].stations@.len() == old(self).systems@[si as int].stations@.len()
                    &&& forall|t: int|
                        0 <= t < old(self).systems@[si as int].stations@.len() && t != ti ==> final(self).systems@[si as int].stations@[t] == #[trigger] old(self).systems@[si
                            as int].stations@[t]
                    &&& system_fields_except_stations_equal(
                        final(self).systems@[si as int],
                        old(self).systems@[si as int],
                    )
                    &&& station_fields_except_listings_equal(
                        final(self).systems@[si as int].stations@[ti as int],
                        old(self).systems@[si as int].stations@[ti as int],
                    )
                    &&& final(self).systems@[si as int].stations@[ti as int].listings@.len() == old(self).systems@[si as int].stations@[ti as int].listings@.len()
                    &&& forall|l: int|
                        0 <= l < old(self).systems@[si as int].stations@[ti
                            as int].listings@.len() ==> final(self).systems@[si as int].stations@[ti
                            as int].listings@[l] == spec_apply_price(
                            #[trigger] old(self).systems@[si as int].stations@[ti
                                as int].listings@[l],
                            *price,
                        )
                },
            },
    {
        let pair = self.index.get_index_station(price.station_id);
        match pair {
            None => Ghost(None),
            Some((si, ti)) => {
                let ghost arena0 = self.systems@;
                let ln = self.systems[si].stations[ti].listings.len();
                let mut l: usize = 0;
                while l < ln
                    invariant
                        0 <= l <= ln,
                        self.index == old(self).index,
                        self.time_adjustments == old(self).time_adjustments,
                        old(self).wf(),
                        arena0 == old(self).systems@,
                        si < self.systems@.len(),
                        ti < self.systems@[si as int].stations@.len(),
                        ln == self.systems@[si as int].stations@[ti as int].listings@.len(),
                        arena0.len() == self.systems@.len(),
                        forall|k: int|
                            0 <= k < arena0.len() && k != si ==> self.systems@[k]
                                == #[trigger] arena0[k],
                        self.systems@[si as int].stations@.len() == arena0[si
                            as int].stations@.len(),
                        forall|t: int|
                            0 <= t < arena0[si as int].stations@.len() && t != ti ==> self.systems@[si
                                as int].stations@[t] == #[trigger] arena0[si as int].stations@[t],
                        system_fields_except_stations_equal(
                            self.systems@[si as int],
                            arena0[si as int],
                        ),
                        station_fields_except_listings_equal(
                            self.systems@[si as int].stations@[ti as int],
                            arena0[si as int].stations@[ti as int],
                        ),
                        ln == arena0[si as int].stations@[ti as int].listings@.len(),
                        forall|w: int|
                            0 <= w < l ==> self.systems@[si as int].stations@[ti
                                as int].listings@[w] == spec_apply_price(
                                #[trigger] arena0[si as int].stations@[ti as int].listings@[w],
                                *price,
                            ),
                        forall|w: int|
                            l <= w < ln ==> self.systems@[si as int].stations@[ti
                                as int].listings@[w] == #[trigger] arena0[si as int].stations@[ti
                                as int].listings@[w],
                    decreases ln - l,
                {
                    let line = &self.systems[si].stations[ti].listings[l];
                    if price.commodity_id == line.commodity.commodity_id && line.collected_at
                        <= u64::MAX - 600 && line.collected_at + 600 < price.timestamp {
                        let buy_price = match price.buy_price {
                            Some(v) => v,
                            None => line.buy_price,
                        };
                        let supply = match price.supply {
                            Some(v) => v,
                            None => line.supply,
                        };
                        let sell_price = match price.sell_price {
                            Some(v) => v,
                            None => line.sell_price,
                        };
                        let lref = &mut self.systems[si].stations[ti].listings[l];
                        lref.buy_price = buy_price;
                        lref.supply = supply;
                        lref.sell_price = sell_price;
                    } else {
                        proof {
                            if price.commodity_id == line.commodity.commodity_id
                                && line.collected_at > u64::MAX - 600 {
                                assert(line.collected_at + 600 > u64::MAX >= price.timestamp);
                            }
                        }
                    }
                    l += 1;
                }
                proof {
                    assert forall|w: int|
                        0 <= w < arena0[si as int].stations@[ti as int].listings@.len() implies crate::universe_index::listing_same_shape(
                        #[trigger] arena0[si as int].stations@[ti as int].listings@[w],
                        self.systems@[si as int].stations@[ti as int].listings@[w],
                    ) by {
                        assert(self.systems@[si as int].stations@[ti as int].listings@[w]
                            == spec_apply_price(
                            arena0[si as int].stations@[ti as int].listings@[w],
                            *price,
                        ));
                    }
                    lemma_shape_preserved(arena0, self.systems@, si as int, ti as int);
                    assert(old(self).index.target() == arena0);
                    assert(same_shape(old(self).index.target(), self.systems@));
                    assert forall|k: int|
                        0 <= k < self.systems@.len() implies (
                    #[trigger] self.systems@[k]).in_volume() by {
                        if k != si {
                            assert(self.systems@[k] == arena0[k]);
                        }
                    }
                }
                self.index.retarget(Ghost(self.systems@));
                Ghost(Some((si, ti)))
            },
        }
    }

    /// Apply a batch of price corrections in order.
    pub fn apply_price_adjustments(&mut self, prices: &Vec<PriceAdjustment>)
        requires
            old(self).wf(),
        ensures
            final(self).wf(),
    {
        let n = prices.len();
        let mut i: usize = 0;
        while i < n
            invariant
                0 <= i <= n,
                n == prices@.len(),
                self.wf(),
            decreases n - i,
        {
            let _ = self.apply_price_adjustment(&prices[i]);
            i += 1;
        }
    }

    /// Record one measured-time correction in the window.
    pub fn apply_time_adjustment(&mut self, time: TimeAdjustment)
        requires
            old(self).wf(),
        ensures
            final(self).wf(),
            final(self).systems@ == old(self).systems@,
            final(self).time_adjustments@ == crate::scored_buf::spec_push(
                old(self).time_adjustments.spec_sort(),
                old(self).time_adjustments.spec_capacity(),
                old(self).time_adjustments@,
                ScoredItem { score: time.timestamp, bucket: None, value: time },
            ),
    {
        let timestamp = time.timestamp;
        self.time_adjustments.push(time, timestamp);
    }

    /// Record a batch of measured-time corrections in order.
    pub fn apply_time_adjustments(&mut self, times: Vec<TimeAdjustment>)
        requires
            old(self).wf(),
        ensures
            final(self).wf(),
            final(self).systems@ == old(self).systems@,
    {
        let n = times.len();
        let mut i: usize = 0;
        while i < n
            invariant
                0 <= i <= n,
                n == times@.len(),
                self.wf(),
                self.systems@ == old(self).systems@,
            decreases n - i,
        {
            let t = times[i];
            self.apply_time_adjustment(t);
            i += 1;
        }
    }

    /// The system whose lowercased name matches the query, when one does.
    pub fn get_system_by_name(&self, system_name: &String) -> (r: Option<&System>)
        requires
            self.wf(),
        ensures
            match r {
                Some(s) => exists|k: int|
                    0 <= k < self.systems@.len() && *s == #[trigger] self.systems@[k]
                        && crate::text::lower_of(s.system_name@) == crate::text::lower_of(
                        system_name@,
                    ),
                None => forall|k: int|
                    0 <= k < self.systems@.len() ==> crate::text::lower_of(
                        (#[trigger] self.systems@[k]).system_name@,
                    ) != crate::text::lower_of(system_name@),
            },
    {
        let idx = self.index.get_index_system_by_name(system_name);
        match idx {
            Some(i) => {
                proof {
                    assert(self.systems@[i as int] == self.index.target()[i as int]);
                }
                Some(&self.systems[i])
            },
            None => None,
        }
    }

    /// The station of that name inside the system of that name, when both
    /// resolve.
    pub fn get_station_by_name(&self, system_name: &String, station_name: &String) -> (r: Option<
        &Station,
    >)
        requires
            self.wf(),
        ensures
            r matches Some(st) ==> exists|k: int, t: int|
                0 <= k < self.systems@.len() && 0 <= t < self.systems@[k].stations@.len() && *st
                    == #[trigger] self.systems@[k].stations@[t] && st.station_name@
                    == station_name@,
    {
        match self.index.get_index_system_by_name(system_name) {
            Some(i) => {
                let sys = &self.systems[i];
                let sn = sys.stations.len();
                let mut t: usize = 0;
                while t < sn
                    invariant
                        0 <= t <= sn,
                        i < self.systems@.len(),
                        sys == &self.systems@[i as int],
                        sn == sys.stations@.len(),
                    decreases sn - t,
                {
                    if crate::text::str_eq(&sys.stations[t].station_name, station_name) {
                        return Some(&sys.stations[t]);
                    }
                    t += 1;
                }
                None
            },
            None => None,
        }
    }

    /// Every station whose lowercased name matches the query.
    pub fn get_stations_by_name(&self, station_name: &String) -> (r: Vec<&Station>)
        requires
            self.wf(),
        ensures
            forall|q: int|
                0 <= q < r@.len() ==> arena_station_named(
                    *(#[trigger] r@[q]),
                    self.systems@,
                    crate::text::lower_of(station_name@),
                ),
    {
        let pairs = self.index.get_index_station_by_name(station_name);
        let mut out: Vec<&Station> = Vec::new();
        let n = pairs.len();
        let mut q: usize = 0;
        while q < n
            invariant
                0 <= q <= n,
                n == pairs@.len(),
                self.wf(),
                forall|w: int|
                    0 <= w < n ==> crate::universe_index::station_pair_valid(
                        self.systems@,
                        (#[trigger] pairs@[w]).0,
                        pairs@[w].1,
                        self.systems@[pairs@[w].0 as int].stations@[pairs@[w].1
                            as int].station_id,
                    ) && crate::text::lower_of(
                        self.systems@[pairs@[w].0 as int].stations@[pairs@[w].1
                            as int].station_name@,
                    ) == crate::text::lower_of(station_name@),
                out@.len() == q,
                forall|w: int|
                    0 <= w < q ==> *(#[trigger] out@[w]) == self.systems@[pairs@[w].0
                        as int].stations@[pairs@[w].1 as int],
            decreases n - q,
        {
            let (si, ti) = pairs[q];
            out.push(&self.systems[si].stations[ti]);
            q += 1;
        }
        proof {
            assert forall|w: int| 0 <= w < out@.len() implies arena_station_named(
                *(#[trigger] out@[w]),
                self.systems@,
                crate::text::lower_of(station_name@),
            ) by {
                let k0 = pairs@[w].0 as int;
                let t0 = pairs@[w].1 as int;
                assert(0 <= k0 < self.systems@.len() && 0 <= t0 < self.systems@[k0].stations@.len()
                    && self.systems@[k0].stations@[t0] == *out@[w] && crate::text::lower_of(
                    self.systems@[k0].stations@[t0].station_name@,
                ) == crate::text::lower_of(station_name@));
            }
        }
        out
    }
}

/// The station is one of the arena's and its lowercased name matches.
pub open spec fn arena_station_named(st: Station, arena: Seq<System>, needle: Seq<char>) -> bool {
    exists|k: int, t: int|
        0 <= k < arena.len() && 0 <= t < arena[k].stations@.len()
            && #[trigger] arena[k].stations@[t] == st && crate::text::lower_of(
            arena[k].stations@[t].station_name@,
        ) == needle
}

/// Every field of the two systems agrees, stations aside.
pub open spec fn system_fields_except_stations_equal(a: System, b: System) -> bool {
    &&& a.system_id == b.system_id
    &&& a.system_name == b.system_name
    &&& a.x == b.x
    &&& a.y == b.y
    &&& a.z == b.z
    &&& a.needs_permit == b.needs_permit
    &&& a.updated_at == b.updated_at
}

/// Every field of the two stations agrees, market lines aside.
pub open spec fn station_fields_except_listings_equal(a: Station, b: Station) -> bool {
    &&& a.system_id == b.system_id
    &&& a.station_id == b.station_id
    &&& a.station_name == b.station_name
    &&& a.max_landing_pad_size == b.max_landing_pad_size
    &&& a.distance_to_star == b.distance_to_star
    &&& a.updated_at == b.updated_at
    &&& a.market_updated_at == b.market_updated_at
    &&& a.is_planetary == b.is_planetary
    &&& a.prohibited_commodities@ == b.prohibited_commodities@
}

/// A per-line patch inside one station leaves the arena's shape intact.
proof fn lemma_shape_preserved(a: Seq<System>, b: Seq<System>, si: int, ti: int)
    requires
        a.len() == b.len(),
        0 <= si < a.len(),
        0 <= ti < a[si].stations@.len(),
        forall|k: int| 0 <= k < a.len() && k != si ==> b[k] == #[trigger] a[k],
        b[si].stations@.len() == a[si].stations@.len(),
        forall|t: int|
            0 <= t < a[si].stations@.len() && t != ti ==> b[si].stations@[t]
                == #[trigger] a[si].stations@[t],
        system_fields_except_stations_equal(b[si], a[si]),
        station_fields_except_listings_equal(b[si].stations@[ti], a[si].stations@[ti]),
        b[si].stations@[ti].listings@.len() == a[si].stations@[ti].listings@.len(),
        forall|l: int|
            0 <= l < a[si].stations@[ti].listings@.len() ==> crate::universe_index::listing_same_shape(
                #[trigger] a[si].stations@[ti].listings@[l],
                b[si].stations@[ti].listings@[l],
            ),
    ensures
        same_shape(a, b),
{
    assert forall|k: int| 0 <= k < a.len() implies crate::universe_index::system_same_shape(
        #[trigger] a[k],
        #[trigger] b[k],
    ) by {
        if k == si {
            assert forall|t: int|
                0 <= t < a[k].stations@.len() implies crate::universe_index::station_same_shape(
                #[trigger] a[k].stations@[t],
                #[trigger] b[k].stations@[t],
            ) by {
                if t != ti {
                    assert(b[k].stations@[t] == a[k].stations@[t]);
                    lemma_station_same_shape_refl(a[k].stations@[t]);
                }
            }
        } else {
            assert(b[k] == a[k]);
            lemma_system_same_shape_refl(a[k]);
        }
    }
}

/// Shape agreement is reflexive for stations.
proof fn lemma_station_same_shape_refl(s: Station)
    ensures
        crate::universe_index::station_same_shape(s, s),
{
}

/// Shape agreement is reflexive for systems.
proof fn lemma_system_same_shape_refl(s: System)
    ensures
        crate::universe_index::system_same_shape(s, s),
{
    assert forall|t: int|
        0 <= t < s.stations@.len() implies crate::universe_index::station_same_shape(
        #[trigger] s.stations@[t],
        #[trigger] s.stations@[t],
    ) by {
        lemma_station_same_shape_refl(s.stations@[t]);
    }
}


/// One market line with its stock reduced by a completed trade's load,
/// never below empty.
pub open spec fn spec_apply_trade_line(l: Listing, commodity_id: u16, used_cargo: u32) -> Listing {
    if l.commodity.commodity_id == commodity_id {
        Listing {
            supply: (if l.supply >= used_cargo {
                (l.supply - used_cargo) as u32
            } else {
                0
            }),
            ..l
        }
    } else {
        l
    }
}

impl Universe {
    /// Record that a trade was carried out: reduce the bought line's stock
    /// by the load (never below empty), and drop every cached candidate
    /// list the change may have left stale. Returns the patched line's
    /// arena position; `None` exactly when the arena gives the correction
    /// no target, in which case the arena is untouched.
    pub fn apply_trade(
        &mut self,
        trade: &crate::full_trade::FullTrade,
        cache: &mut crate::search_cache::SearchCache,
    ) -> (r: Ghost<Option<(usize, usize, usize)>>)
        requires
            old(self).wf(),
        ensures
            final(self).wf(),
            final(cache).cache_map() == old(cache).cache_map().remove_keys(
                crate::search_cache::SearchCache::spec_invalidated_keys(
                    old(cache).lookup_map(),
                    trade.unit.buy_station_id,
                ),
            ),
            final(cache).lookup_map() == old(cache).lookup_map(),
            final(self).time_adjustments == old(self).time_adjustments,
            match r@ {
                None => final(self).systems@ == old(self).systems@ && ((forall|k: int, t: int|
                    0 <= k < old(self).systems@.len() && 0 <= t < old(
                        self,
                    ).systems@[k].stations@.len() ==> (
                    #[trigger] old(self).systems@[k].stations@[t]).station_id
                        != trade.unit.buy_station_id) || station_lacks_line(
                    old(self).systems@,
                    trade.unit.buy_station_id,
                    trade.unit.commodity_id,
                )),
                Some((si, ti, li)) => {
                    &&& station_pair_valid(old(self).systems@, si, ti, trade.unit.buy_station_id)
                    &&& li < old(self).systems@[si as int].stations@[ti as int].listings@.len()
                    &&& old(self).systems@[si as int].stations@[ti as int].listings@[li
                        as int].commodity.commodity_id == trade.unit.commodity_id
                    &&& forall|w: int|
                        0 <= w < li ==> (#[trigger] old(self).systems@[si as int].stations@[ti
                            as int].listings@[w]).commodity.commodity_id
                            != trade.unit.commodity_id
                    &&& final(self).systems@.len() == old(self).systems@.len()
                    &&& forall|k: int|
                        0 <= k < old(self).systems@.len() && k != si ==> final(self).systems@[k]
                            == #[trigger] old(self).systems@[k]
                    &&& final(self).systems@[si as int].stations@.len() == old(
                        self,
                    ).systems@[si as int].stations@.len()
                    &&& forall|t: int|
                        0 <= t < old(self).systems@[si as int].stations@.len() && t != ti
                            ==> final(self).systems@[si as int].stations@[t] == #[trigger] old(
                            self,
                        ).systems@[si as int].stations@[t]
                    &&& system_fields_except_stations_equal(
                        final(self).systems@[si as int],
                        old(self).systems@[si as int],
                    )
                    &&& station_fields_except_listings_equal(
                        final(self).systems@[si as int].stations@[ti as int],
                        old(self).systems@[si as int].stations@[ti as int],
                    )
                    &&& final(self).systems@[si as int].stations@[ti as int].listings@.len()
                        == old(self).systems@[si as int].stations@[ti as int].listings@.len()
                    &&& forall|w: int|
                        0 <= w < old(self).systems@[si as int].stations@[ti
                            as int].listings@.len() && w != li ==> final(self).systems@[si
                            as int].stations@[ti as int].listings@[w] == #[trigger] old(
                            self,
                        ).systems@[si as int].stations@[ti as int].listings@[w]
                    &&& final(self).systems@[si as int].stations@[ti as int].listings@[li as int]
                        == spec_apply_trade_line(
                        old(self).systems@[si as int].stations@[ti as int].listings@[li as int],
                        trade.unit.commodity_id,
                        trade.used_cargo,
                    )
                },
            },
    {
        let pair = self.index.get_index_station(trade.unit.buy_station_id);
        let r: Ghost<Option<(usize, usize, usize)>> = match pair {
            None => Ghost(None),
            Some((si, ti)) => {
                let li_opt = first_line_of_commodity(
                    &self.systems[si].stations[ti],
                    trade.unit.commodity_id,
                );
                match li_opt {
                    None => {
                        proof {
                            assert(station_lacks_line(
                                self.systems@,
                                trade.unit.buy_station_id,
                                trade.unit.commodity_id,
                            )) by {
                                assert(station_pair_valid(
                                    self.systems@,
                                    si,
                                    ti,
                                    trade.unit.buy_station_id,
                                ));
                            }
                        }
                        Ghost(None)
                    },
                    Some(li) => {
                        let ghost arena0 = self.systems@;
                        let line = &self.systems[si].stations[ti].listings[li];
                        let new_supply = if line.supply >= trade.used_cargo {
                            line.supply - trade.used_cargo
                        } else {
                            0
                        };
                        let lref = &mut self.systems[si].stations[ti].listings[li];
                        lref.supply = new_supply;
                        proof {
                            assert forall|w: int|
                                0 <= w < arena0[si as int].stations@[ti
                                    as int].listings@.len() implies crate::universe_index::listing_same_shape(
                                #[trigger] arena0[si as int].stations@[ti as int].listings@[w],
                                self.systems@[si as int].stations@[ti as int].listings@[w],
                            ) by {
                                if w != li {
                                    assert(self.systems@[si as int].stations@[ti
                                        as int].listings@[w] == arena0[si as int].stations@[ti
                                        as int].listings@[w]);
                                }
                            }
                            lemma_shape_preserved(arena0, self.systems@, si as int, ti as int);
                            assert(old(self).index.target() == arena0);
                            assert(same_shape(old(self).index.target(), self.systems@));
                            assert forall|k: int|
                                0 <= k < self.systems@.len() implies (
                            #[trigger] self.systems@[k]).in_volume() by {
                                if k != si {
                                    assert(self.systems@[k] == arena0[k]);
                                }
                            }
                        }
                        self.index.retarget(Ghost(self.systems@));
                        Ghost(Some((si, ti, li)))
                    },
                }
            },
        };
        cache.invalidate_station(trade.unit.buy_station_id);
        r
    }
}

/// The arena holds a station with the id, but none of its lines concerns
/// the commodity.
pub open spec fn station_lacks_line(arena: Seq<System>, station_id: u32, commodity_id: u16) -> bool {
    exists|k: int, t: int|
        #![trigger arena[k].stations@[t]]
        0 <= k < arena.len() && 0 <= t < arena[k].stations@.len() && arena[k].stations@[t].station_id
            == station_id && (forall|l: int|
            0 <= l < arena[k].stations@[t].listings@.len() ==> (
            #[trigger] arena[k].stations@[t].listings@[l]).commodity.commodity_id != commodity_id)
}

/// The first line of the station concerning the commodity, exactly when one
/// does.
fn first_line_of_commodity(station: &Station, commodity_id: u16) -> (r: Option<usize>)
    ensures
        match r {
            Some(li) => li < station.listings@.len() && station.listings@[li
                as int].commodity.commodity_id == commodity_id && forall|w: int|
                0 <= w < li ==> (#[trigger] station.listings@[w]).commodity.commodity_id
                    != commodity_id,
            None => forall|w: int|
                0 <= w < station.listings@.len() ==> (
                #[trigger] station.listings@[w]).commodity.commodity_id != commodity_id,
        },
{
    let ln = station.listings.len();
    let mut l: usize = 0;
    while l < ln
        invariant
            0 <= l <= ln,
            ln == station.listings@.len(),
            forall|w: int|
                0 <= w < l ==> (#[trigger] station.listings@[w]).commodity.commodity_id
                    != commodity_id,
        decreases ln - l,
    {
        if station.listings[l].commodity.commodity_id == commodity_id {
            return Some(l);
        }
        l += 1;
    }
    None
}

impl PlayerState {
    /// The station the player is docked at, exactly when the arena holds
    /// it.
    pub fn get_station<'a>(&self, universe: &'a Universe) -> (r: Option<&'a Station>)
        requires
            universe.wf(),
        ensures
            match r {
                Some(s) => s.station_id == self.station_id,
                None => forall|k: int, t: int|
                    0 <= k < universe.systems@.len() && 0 <= t
                        < universe.systems@[k].stations@.len() ==> (
                    #[trigger] universe.systems@[k].stations@[t]).station_id != self.station_id,
            },
    {
        universe.get_station(self.station_id)
    }

    /// The system the player is in, exactly when the arena holds it.
    pub fn get_system<'a>(&self, universe: &'a Universe) -> (r: Option<&'a System>)
        requires
            universe.wf(),
        ensures
            match r {
                Some(s) => s.system_id == self.system_id,
                None => forall|k: int|
                    0 <= k < universe.systems@.len() ==> (
                    #[trigger] universe.systems@[k]).system_id != self.system_id,
            },
    {
        universe.get_system(self.system_id)
    }

    /// The same situation under the universe's current running travel-time
    /// correction factor.
    pub fn refresh_time_adjustment(&self, universe: &Universe) -> (r: PlayerState)
        requires
            universe.wf(),
        ensures
            r == (PlayerState { raw_adjustment_factor: r.raw_adjustment_factor, ..*self }),
            is_median_of(r.raw_adjustment_factor, spec_ratios(universe.time_adjustments@)),
    {
        PlayerState {
            raw_adjustment_factor: universe.get_raw_adjustment_factor(),
            ..*self
        }
    }
}


/// The market lines a station keeps under its blacklist: every line whose
/// commodity the blacklist does not name.
pub open spec fn spec_kept_listings(listings: Seq<Listing>, prohibited: Seq<u16>) -> Seq<Listing>
    decreases listings.len(),
{
    if listings.len() == 0 {
        Seq::empty()
    } else {
        let rest = spec_kept_listings(listings.drop_last(), prohibited);
        if !prohibited.contains(listings.last().commodity.commodity_id) {
            rest.push(listings.last())
        } else {
            rest
        }
    }
}

/// The stations a system keeps for a ship of the given size: those whose
/// landing pad accommodates it.
pub open spec fn spec_kept_stations(stations: Seq<Station>, ship: ShipSize) -> Seq<Station>
    decreases stations.len(),
{
    if stations.len() == 0 {
        Seq::empty()
    } else {
        let rest = spec_kept_stations(stations.drop_last(), ship);
        if stations.last().max_landing_pad_size.spec_rank() >= ship.spec_rank() {
            rest.push(stations.last())
        } else {
            rest
        }
    }
}

/// The systems the load keeps: those needing no permit.
pub open spec fn spec_kept_systems(systems: Seq<System>) -> Seq<System>
    decreases systems.len(),
{
    if systems.len() == 0 {
        Seq::empty()
    } else {
        let rest = spec_kept_systems(systems.drop_last());
        if !systems.last().needs_permit {
            rest.push(systems.last())
        } else {
            rest
        }
    }
}


/// A filtered station matches its source: same fields, and exactly the
/// lines the source's blacklist keeps.
pub open spec fn filtered_station_matches(out: Station, src: Station) -> bool {
    &&& station_fields_except_listings_equal(out, src)
    &&& out.listings@ == spec_kept_listings(src.listings@, src.prohibited_commodities@)
}

/// A filtered system matches its source: same fields, and exactly the
/// stations the ship's size keeps, each filtered under its own blacklist.
pub open spec fn filtered_system_matches(out: System, src: System, ship: ShipSize) -> bool {
    &&& system_fields_except_stations_equal(out, src)
    &&& out.stations@.len() == spec_kept_stations(src.stations@, ship).len()
    &&& forall|t: int|
        0 <= t < out.stations@.len() ==> filtered_station_matches(
            #[trigger] out.stations@[t],
            spec_kept_stations(src.stations@, ship)[t],
        )
}

impl Universe {
    /// Drop what a load of this ship cannot trade with: systems that need a
    /// permit, stations whose landing pad is too small, and market lines of
    /// commodities their own station prohibits (the blacklist also excludes
    /// the lines outright at load time; during the search it re-appears as
    /// the risk flag on cross-station hops).
    pub fn filter_systems(systems: Vec<System>, ship_size: &ShipSize) -> (r: Vec<System>)
        ensures
            r@.len() == spec_kept_systems(systems@).len(),
            forall|k: int|
                0 <= k < r@.len() ==> filtered_system_matches(
                    #[trigger] r@[k],
                    spec_kept_systems(systems@)[k],
                    *ship_size,
                ),
    {
        let mut out: Vec<System> = Vec::new();
        let n = systems.len();
        let mut k: usize = 0;
        proof {
            assert(spec_kept_systems(systems@.take(0)) =~= Seq::<System>::empty());
        }
        while k < n
            invariant
                0 <= k <= n,
                n == systems@.len(),
                out@.len() == spec_kept_systems(systems@.take(k as int)).len(),
                forall|w: int|
                    0 <= w < out@.len() ==> filtered_system_matches(
                        #[trigger] out@[w],
                        spec_kept_systems(systems@.take(k as int))[w],
                        *ship_size,
                    ),
            decreases n - k,
        {
            let ghost kept0 = spec_kept_systems(systems@.take(k as int));
            proof {
                assert(systems@.take(k as int + 1).drop_last() =~= systems@.take(k as int));
                assert(systems@.take(k as int + 1).last() == systems@[k as int]);
            }
            let src = &systems[k];
            if !src.needs_permit {
                let filtered = filter_one_system(src, ship_size);
                out.push(filtered);
                proof {
                    assert(spec_kept_systems(systems@.take(k as int + 1)) =~= kept0.push(
                        systems@[k as int],
                    ));
                }
            } else {
                proof {
                    assert(spec_kept_systems(systems@.take(k as int + 1)) =~= kept0);
                }
            }
            k += 1;
        }
        proof {
            assert(systems@.take(n as int) =~= systems@);
        }
        out
    }
}

/// One system filtered for the ship: its accommodating stations, each under
/// its own blacklist.
fn filter_one_system(src: &System, ship_size: &ShipSize) -> (r: System)
    ensures
        filtered_system_matches(r, *src, *ship_size),
{
    let mut stations: Vec<Station> = Vec::new();
    let sn = src.stations.len();
    let mut t: usize = 0;
    proof {
        assert(spec_kept_stations(src.stations@.take(0), *ship_size) =~= Seq::<Station>::empty());
    }
    while t < sn
        invariant
            0 <= t <= sn,
            sn == src.stations@.len(),
            stations@.len() == spec_kept_stations(src.stations@.take(t as int), *ship_size).len(),
            forall|w: int|
                0 <= w < stations@.len() ==> filtered_station_matches(
                    #[trigger] stations@[w],
                    spec_kept_stations(src.stations@.take(t as int), *ship_size)[w],
                ),
        decreases sn - t,
    {
        let ghost kept0 = spec_kept_stations(src.stations@.take(t as int), *ship_size);
        proof {
            assert(src.stations@.take(t as int + 1).drop_last() =~= src.stations@.take(t as int));
            assert(src.stations@.take(t as int + 1).last() == src.stations@[t as int]);
        }
        let st = &src.stations[t];
        if st.max_landing_pad_size.at_least(ship_size) {
            let filtered = filter_one_station(st);
            stations.push(filtered);
            proof {
                assert(spec_kept_stations(src.stations@.take(t as int + 1), *ship_size)
                    =~= kept0.push(src.stations@[t as int]));
            }
        } else {
            proof {
                assert(spec_kept_stations(src.stations@.take(t as int + 1), *ship_size) =~= kept0);
            }
        }
        t += 1;
    }
    proof {
        assert(src.stations@.take(sn as int) =~= src.stations@);
    }
    System {
        system_id: src.system_id,
        system_name: src.system_name.clone(),
        x: src.x,
        y: src.y,
        z: src.z,
        needs_permit: src.needs_permit,
        updated_at: src.updated_at,
        stations,
    }
}

/// One station with only the market lines its blacklist keeps.
fn filter_one_station(src: &Station) -> (r: Station)
    ensures
        filtered_station_matches(r, *src),
{
    let mut listings: Vec<Listing> = Vec::new();
    let ln = src.listings.len();
    let mut l: usize = 0;
    proof {
        assert(spec_kept_listings(src.listings@.take(0), src.prohibited_commodities@)
            =~= Seq::<Listing>::empty());
    }
    while l < ln
        invariant
            0 <= l <= ln,
            ln == src.listings@.len(),
            listings@ == spec_kept_listings(
                src.listings@.take(l as int),
                src.prohibited_commodities@,
            ),
        decreases ln - l,
    {
        let ghost kept0 = spec_kept_listings(
            src.listings@.take(l as int),
            src.prohibited_commodities@,
        );
        proof {
            assert(src.listings@.take(l as int + 1).drop_last() =~= src.listings@.take(l as int));
            assert(src.listings@.take(l as int + 1).last() == src.listings@[l as int]);
        }
        let line = &src.listings[l];
        if !contains_u16(&src.prohibited_commodities, line.commodity.commodity_id) {
            listings.push(clone_listing(line));
            proof {
                assert(spec_kept_listings(
                    src.listings@.take(l as int + 1),
                    src.prohibited_commodities@,
                ) =~= kept0.push(src.listings@[l as int]));
            }
        } else {
            proof {
                assert(spec_kept_listings(
                    src.listings@.take(l as int + 1),
                    src.prohibited_commodities@,
                ) =~= kept0);
            }
        }
        l += 1;
    }
    proof {
        assert(src.listings@.take(ln as int) =~= src.listings@);
    }
    Station {
        system_id: src.system_id,
        station_id: src.station_id,
        station_name: src.station_name.clone(),
        max_landing_pad_size: src.max_landing_pad_size,
        distance_to_star: src.distance_to_star,
        updated_at: src.updated_at,
        market_updated_at: src.market_updated_at,
        is_planetary: src.is_planetary,
        prohibited_commodities: clone_u16s(&src.prohibited_commodities),
        listings,
    }
}

/// Whether the blacklist names the commodity.
fn contains_u16(list: &Vec<u16>, value: u16) -> (r: bool)
    ensures
        r == list@.contains(value),
{
    let n = list.len();
    let mut i: usize = 0;
    while i < n
        invariant
            0 <= i <= n,
            n == list@.len(),
            forall|w: int| 0 <= w < i ==> (#[trigger] list@[w]) != value,
        decreases n - i,
    {
        if list[i] == value {
            assert(list@[i as int] == value);
            return true;
        }
        i += 1;
    }
    false
}


/// An exact copy of a commodity record.
fn clone_commodity(c: &Commodity) -> (r: Commodity)
    ensures
        r == *c,
{
    Commodity {
        commodity_id: c.commodity_id,
        commodity_name: c.commodity_name.clone(),
        category: c.category.clone(),
    }
}

/// An exact copy of a market line.
fn clone_listing(l: &Listing) -> (r: Listing)
    ensures
        r == *l,
{
    Listing {
        system_id: l.system_id,
        station_id: l.station_id,
        commodity: clone_commodity(&l.commodity),
        supply: l.supply,
        buy_price: l.buy_price,
        sell_price: l.sell_price,
        collected_at: l.collected_at,
    }
}

/// An exact copy of a vector of commodity ids.
fn clone_u16s(v: &Vec<u16>) -> (r: Vec<u16>)
    ensures
        r@ == v@,
{
    let mut out: Vec<u16> = Vec::new();
    let n = v.len();
    let mut i: usize = 0;
    while i < n
        invariant
            0 <= i <= n,
            n == v@.len(),
            out@ == v@.take(i as int),
        decreases n - i,
    {
        out.push(v[i]);
        proof {
            assert(out@ =~= v@.take(i as int + 1));
        }
        i += 1;
    }
    proof {
        assert(out@ =~= v@);
    }
    out
}

/// An exact copy of a station and its market lines.
fn clone_station(s: &Station) -> (r: Station)
    ensures
        station_equal(r, *s),
{
    let mut listings: Vec<Listing> = Vec::new();
    let n = s.listings.len();
    let mut i: usize = 0;
    while i < n
        invariant
            0 <= i <= n,
            n == s.listings@.len(),
            listings@ == s.listings@.take(i as int),
        decreases n - i,
    {
        listings.push(clone_listing(&s.listings[i]));
        proof {
            assert(listings@ =~= s.listings@.take(i as int + 1));
        }
        i += 1;
    }
    proof {
        assert(listings@ =~= s.listings@);
    }
    let r = Station {
        system_id: s.system_id,
        station_id: s.station_id,
        station_name: s.station_name.clone(),
        max_landing_pad_size: s.max_landing_pad_size,
        distance_to_star: s.distance_to_star,
        updated_at: s.updated_at,
        market_updated_at: s.market_updated_at,
        is_planetary: s.is_planetary,
        prohibited_commodities: clone_u16s(&s.prohibited_commodities),
        listings,
    };
    r
}

/// An exact copy of a system and its stations.
fn clone_system(s: &System) -> (r: System)
    ensures
        system_equal(r, *s),
{
    let mut stations: Vec<Station> = Vec::new();
    let n = s.stations.len();
    let mut i: usize = 0;
    while i < n
        invariant
            0 <= i <= n,
            n == s.stations@.len(),
            stations@.len() == i,
            forall|t: int|
                0 <= t < i ==> station_equal(#[trigger] stations@[t], #[trigger] s.stations@[t]),
        decreases n - i,
    {
        stations.push(clone_station(&s.stations[i]));
        i += 1;
    }
    let r = System {
        system_id: s.system_id,
        system_name: s.system_name.clone(),
        x: s.x,
        y: s.y,
        z: s.z,
        needs_permit: s.needs_permit,
        updated_at: s.updated_at,
        stations,
    };
    r
}

/// An exact copy of the whole arena.
fn clone_systems(v: &Vec<System>) -> (r: Vec<System>)
    ensures
        arena_equal(r@, v@),
{
    let mut out: Vec<System> = Vec::new();
    let n = v.len();
    let mut i: usize = 0;
    while i < n
        invariant
            0 <= i <= n,
            n == v@.len(),
            out@.len() == i,
            forall|k: int| 0 <= k < i ==> system_equal(#[trigger] out@[k], #[trigger] v@[k]),
        decreases n - i,
    {
        out.push(clone_system(&v[i]));
        i += 1;
    }
    out
}

} // verus!
