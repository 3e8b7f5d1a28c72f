use vstd::prelude::*;

verus! {

use std::collections::HashMap;
use crate::text::{lower_of, lowercase, str_eq};
use crate::trader::{spec_dist2, Listing, Station, System};

broadcast use vstd::std_specs::hash::group_hash_axioms;

/// The key under which a market line is indexed: the station and the
/// commodity, packed into one integer.
pub open spec fn spec_listing_key(station_id: u32, commodity_id: u16) -> u64 {
    (station_id as int * 0x1_0000 + commodity_id as int) as u64
}

/// The id-to-position map knows exactly the systems of the arena: every
/// entry points at a system carrying its key, and every system's id is a
/// key.
pub open spec fn sys_map_exact(m: Map<u32, usize>, target: Seq<System>) -> bool {
    &&& forall|id: u32|
        #[trigger] m.contains_key(id) ==> m[id] < target.len() && target[m[id] as int].system_id
            == id
    &&& forall|k: int| 0 <= k < target.len() ==> m.contains_key(#[trigger] target[k].system_id)
}

/// A station position: the system's index and the station's index in it.
pub open spec fn station_pair_valid(
    target: Seq<System>,
    si: usize,
    ti: usize,
    id: u32,
) -> bool {
    &&& si < target.len()
    &&& ti < target[si as int].stations.len()
    &&& target[si as int].stations[ti as int].station_id == id
}

/// The station map knows exactly the stations of the arena.
pub open spec fn st_map_exact(m: Map<u32, (usize, usize)>, target: Seq<System>) -> bool {
    &&& forall|id: u32|
        #[trigger] m.contains_key(id) ==> station_pair_valid(target, m[id].0, m[id].1, id)
    &&& forall|k: int, t: int|
        0 <= k < target.len() && 0 <= t < target[k].stations.len() ==> m.contains_key(
            #[trigger] target[k].stations[t].station_id,
        )
}

/// A market line position: system, station, and line index, valid and
/// carrying the packed key it is indexed under.
pub open spec fn listing_triple_valid(
    target: Seq<System>,
    si: usize,
    ti: usize,
    li: usize,
    key: u64,
) -> bool {
    &&& si < target.len()
    &&& ti < target[si as int].stations.len()
    &&& li < target[si as int].stations[ti as int].listings.len()
    &&& spec_listing_key(
        target[si as int].stations[ti as int].listings[li as int].station_id,
        target[si as int].stations[ti as int].listings[li as int].commodity.commodity_id,
    ) == key
    &&& target[si as int].stations[ti as int].listings[li as int].station_id == target[si
        as int].stations[ti as int].station_id
}

/// The listing map knows exactly the arena's market lines whose recorded
/// station id matches the station that holds them.
pub open spec fn l_map_exact(m: Map<u64, (usize, usize, usize)>, target: Seq<System>) -> bool {
    &&& forall|key: u64|
        #[trigger] m.contains_key(key) ==> listing_triple_valid(
            target,
            m[key].0,
            m[key].1,
            m[key].2,
            key,
        )
    &&& forall|k: int, t: int, l: int|
        0 <= k < target.len() && 0 <= t < target[k].stations.len() && 0 <= l
            < target[k].stations[t].listings.len() && (#[trigger] target[k].stations[t].listings[l]).station_id
            == target[k].stations[t].station_id ==> m.contains_key(
            spec_listing_key(
                target[k].stations[t].listings[l].station_id,
                target[k].stations[t].listings[l].commodity.commodity_id,
            ),
        )
}

/// How many stations stand before system `k` in the flattened roster.
pub open spec fn stations_before(target: Seq<System>, k: int) -> int
    decreases k,
{
    if k <= 0 {
        0
    } else {
        stations_before(target, k - 1) + target[k - 1].stations.len()
    }
}

/// The flattened prefix counts grow monotonically.
pub proof fn lemma_stations_before_mono(target: Seq<System>, k1: int, k2: int)
    requires
        0 <= k1 <= k2,
    ensures
        stations_before(target, k1) <= stations_before(target, k2),
    decreases k2 - k1,
{
    if k1 < k2 {
        lemma_stations_before_mono(target, k1, k2 - 1);
        if 0 <= k2 - 1 < target.len() {
        }
    }
}

/// The name roster lists every station in arena order, each under its
/// lowercased name: the entry for station `t` of system `k` stands at the
/// flattened position of that station.
pub open spec fn st_names_exact(v: Seq<(String, (usize, usize))>, target: Seq<System>) -> bool {
    &&& v.len() == stations_before(target, target.len() as int)
    &&& forall|p: int|
        0 <= p < v.len() ==> station_pair_valid(
            target,
            (#[trigger] v[p]).1.0,
            v[p].1.1,
            target[v[p].1.0 as int].stations[v[p].1.1 as int].station_id,
        ) && v[p].0@ == lower_of(target[v[p].1.0 as int].stations[v[p].1.1 as int].station_name@)
    &&& forall|k: int, t: int|
        0 <= k < target.len() && 0 <= t < target[k].stations.len() ==> 0 <= stations_before(
            target,
            k,
        ) + t < v.len() && v[stations_before(target, k) + t].1 == (k as usize, t as usize)
            && v[stations_before(target, k) + t].0@ == lower_of(
            (#[trigger] target[k].stations[t]).station_name@,
        )
}

/// The system name roster lists every system in arena order, each under
/// its lowercased name.
pub open spec fn sys_names_exact(v: Seq<(String, usize)>, target: Seq<System>) -> bool {
    &&& v.len() == target.len()
    &&& forall|k: int|
        0 <= k < target.len() ==> (#[trigger] v[k]).1 == k as usize && v[k].0@ == lower_of(
            target[k].system_name@,
        )
}

/// One position per system, in arena order.
pub open spec fn positions_exact(v: Seq<(i64, i64, i64)>, target: Seq<System>) -> bool {
    &&& v.len() == target.len()
    &&& forall|k: int|
        0 <= k < target.len() ==> (#[trigger] v[k]) == (target[k].x, target[k].y, target[k].z)
}

/// Constant-time lookups from ids and names to positions in the system
/// arena, plus the spatial roster that answers range queries. Rebuilt
/// wholesale whenever the arena changes shape.
pub struct UniverseIndex {
    systems: HashMap<u32, usize>,
    systems_by_name: Vec<(String, usize)>,
    positions: Vec<(i64, i64, i64)>,
    stations: HashMap<u32, (usize, usize)>,
    stations_by_name: Vec<(String, (usize, usize))>,
    listings: HashMap<u64, (usize, usize, usize)>,
    target: Ghost<Seq<System>>,
}

impl UniverseIndex {
    /// The system arena this index was calculated for.
    pub closed spec fn target(&self) -> Seq<System> {
        self.target@
    }

    /// Every lookup structure agrees exactly with the arena.
    pub closed spec fn wf(&self) -> bool {
        &&& sys_map_exact(self.systems@, self.target@)
        &&& sys_names_exact(self.systems_by_name@, self.target@)
        &&& positions_exact(self.positions@, self.target@)
        &&& st_map_exact(self.stations@, self.target@)
        &&& st_names_exact(self.stations_by_name@, self.target@)
        &&& l_map_exact(self.listings@, self.target@)
    }
}

/// Build the system id map.
fn calc_systems_map(systems: &Vec<System>) -> (m: HashMap<u32, usize>)
    ensures
        sys_map_exact(m@, systems@),
{
    let mut m: HashMap<u32, usize> = HashMap::new();
    let n = systems.len();
    let mut i: usize = 0;
    while i < n
        invariant
            0 <= i <= n,
            n == systems@.len(),
            forall|id: u32|
                #[trigger] m@.contains_key(id) ==> m@[id] < systems@.len()
                    && systems@[m@[id] as int].system_id == id,
            forall|k: int| 0 <= k < i ==> m@.contains_key(#[trigger] systems@[k].system_id),
        decreases n - i,
    {
        m.insert(systems[i].system_id, i);
        i += 1;
    }
    m
}

/// Build the system name roster.
fn calc_system_names(systems: &Vec<System>) -> (v: Vec<(String, usize)>)
    ensures
        sys_names_exact(v@, systems@),
{
    let mut v: Vec<(String, usize)> = Vec::new();
    let n = systems.len();
    let mut i: usize = 0;
    while i < n
        invariant
            0 <= i <= n,
            n == systems@.len(),
            v@.len() == i,
            forall|k: int|
                0 <= k < i ==> (#[trigger] v@[k]).1 == k as usize && v@[k].0@ == lower_of(
                    systems@[k].system_name@,
                ),
        decreases n - i,
    {
        let lowered = lowercase(systems[i].system_name.as_str());
        v.push((lowered, i));
        i += 1;
    }
    v
}

/// Build the spatial roster.
fn calc_positions(systems: &Vec<System>) -> (v: Vec<(i64, i64, i64)>)
    ensures
        positions_exact(v@, systems@),
{
    let mut v: Vec<(i64, i64, i64)> = Vec::new();
    let n = systems.len();
    let mut i: usize = 0;
    while i < n
        invariant
            0 <= i <= n,
            n == systems@.len(),
            v@.len() == i,
            forall|k: int|
                0 <= k < i ==> (#[trigger] v@[k]) == (systems@[k].x, systems@[k].y, systems@[k].z),
        decreases n - i,
    {
        v.push((systems[i].x, systems[i].y, systems[i].z));
        i += 1;
    }
    v
}

/// Build the station id map.
fn calc_stations_map(systems: &Vec<System>) -> (m: HashMap<u32, (usize, usize)>)
    ensures
        st_map_exact(m@, systems@),
{
    let mut m: HashMap<u32, (usize, usize)> = HashMap::new();
    let n = systems.len();
    let mut i: usize = 0;
    while i < n
        invariant
            0 <= i <= n,
            n == systems@.len(),
            forall|id: u32|
                #[trigger] m@.contains_key(id) ==> station_pair_valid(systems@, m@[id].0, m@[id].1, id),
            forall|k: int, t: int|
                0 <= k < i && 0 <= t < systems@[k].stations.len() ==> m@.contains_key(
                    #[trigger] systems@[k].stations[t].station_id,
                ),
        decreases n - i,
    {
        let sn = systems[i].stations.len();
        let mut j: usize = 0;
        while j < sn
            invariant
                0 <= i < n,
                0 <= j <= sn,
                n == systems@.len(),
                sn == systems@[i as int].stations.len(),
                forall|id: u32|
                    #[trigger] m@.contains_key(id) ==> station_pair_valid(
                        systems@,
                        m@[id].0,
                        m@[id].1,
                        id,
                    ),
                forall|k: int, t: int|
                    0 <= k < i && 0 <= t < systems@[k].stations.len() ==> m@.contains_key(
                        #[trigger] systems@[k].stations[t].station_id,
                    ),
                forall|t: int|
                    0 <= t < j ==> m@.contains_key(
                        #[trigger] systems@[i as int].stations[t].station_id,
                    ),
            decreases sn - j,
        {
            m.insert(systems[i].stations[j].station_id, (i, j));
            j += 1;
        }
        i += 1;
    }
    m
}

/// Build the station name roster.
fn calc_station_names(systems: &Vec<System>) -> (v: Vec<(String, (usize, usize))>)
    ensures
        st_names_exact(v@, systems@),
{
    let mut v: Vec<(String, (usize, usize))> = Vec::new();
    let n = systems.len();
    let mut i: usize = 0;
    while i < n
        invariant
            0 <= i <= n,
            n == systems@.len(),
            v@.len() == stations_before(systems@, i as int),
            forall|p: int|
                0 <= p < v@.len() ==> station_pair_valid(
                    systems@,
                    (#[trigger] v@[p]).1.0,
                    v@[p].1.1,
                    systems@[v@[p].1.0 as int].stations[v@[p].1.1 as int].station_id,
                ) && v@[p].0@ == lower_of(
                    systems@[v@[p].1.0 as int].stations[v@[p].1.1 as int].station_name@,
                ),
            forall|k: int, t: int|
                0 <= k < i && 0 <= t < systems@[k].stations.len() ==> 0 <= stations_before(
                    systems@,
                    k,
                ) + t < v@.len() && v@[stations_before(systems@, k) + t].1 == (k as usize, t
                    as usize) && v@[stations_before(systems@, k) + t].0@ == lower_of(
                    (#[trigger] systems@[k].stations[t]).station_name@,
                ),
        decreases n - i,
    {
        let sn = systems[i].stations.len();
        let ghost base = stations_before(systems@, i as int);
        proof {
            lemma_stations_before_mono(systems@, 0, i as int);
        }
        let mut j: usize = 0;
        while j < sn
            invariant
                0 <= i < n,
                0 <= j <= sn,
                n == systems@.len(),
                sn == systems@[i as int].stations.len(),
                base == stations_before(systems@, i as int),
                base >= 0,
                v@.len() == base + j,
                forall|p: int|
                    0 <= p < v@.len() ==> station_pair_valid(
                        systems@,
                        (#[trigger] v@[p]).1.0,
                        v@[p].1.1,
                        systems@[v@[p].1.0 as int].stations[v@[p].1.1 as int].station_id,
                    ) && v@[p].0@ == lower_of(
                        systems@[v@[p].1.0 as int].stations[v@[p].1.1 as int].station_name@,
                    ),
                forall|k: int, t: int|
                    0 <= k < i && 0 <= t < systems@[k].stations.len() ==> 0 <= stations_before(
                        systems@,
                        k,
                    ) + t < v@.len() && v@[stations_before(systems@, k) + t].1 == (k as usize, t
                        as usize) && v@[stations_before(systems@, k) + t].0@ == lower_of(
                        (#[trigger] systems@[k].stations[t]).station_name@,
                    ),
                forall|t: int|
                    0 <= t < j ==> v@[base + t].1 == (i as usize, t as usize) && v@[base + t].0@
                        == lower_of((#[trigger] systems@[i as int].stations[t]).station_name@),
            decreases sn - j,
        {
            let lowered = lowercase(systems[i].stations[j].station_name.as_str());
            let ghost before = v@;
            v.push((lowered, (i, j)));
            proof {
                assert(forall|p: int| 0 <= p < before.len() ==> v@[p] == before[p]);
                assert(v@[base + j as int].1 == (i as usize, j as usize));
                assert forall|t: int| 0 <= t < j + 1 implies v@[base + t].1 == (i as usize, t
                    as usize) && v@[base + t].0@ == lower_of(
                    (#[trigger] systems@[i as int].stations[t]).station_name@,
                ) by {
                    if t < j {
                        assert(v@[base + t] == before[base + t]);
                    }
                }
            }
            j += 1;
        }
        proof {
            assert(stations_before(systems@, i as int + 1) == base + systems@[i
                as int].stations.len());
            assert forall|k: int, t: int|
                0 <= k < i + 1 && 0 <= t < systems@[k].stations.len() implies 0 <= stations_before(
                systems@,
                k,
            ) + t < v@.len() && v@[stations_before(systems@, k) + t].1 == (k as usize, t as usize)
                && v@[stations_before(systems@, k) + t].0@ == lower_of(
                (#[trigger] systems@[k].stations[t]).station_name@,
            ) by {
                if k < i {
                    lemma_stations_before_mono(systems@, k + 1, i as int);
                } else {
                    assert(stations_before(systems@, k) == base);
                }
            }
        }
        i += 1;
    }
    v
}

/// Build the market line map. A line whose recorded station id differs from
/// the station that holds it is an inconsistency in the incoming data and
/// is left out.
fn calc_listings_map(systems: &Vec<System>) -> (m: HashMap<u64, (usize, usize, usize)>)
    ensures
        l_map_exact(m@, systems@),
{
    let mut m: HashMap<u64, (usize, usize, usize)> = HashMap::new();
    let n = systems.len();
    let mut i: usize = 0;
    while i < n
        invariant
            0 <= i <= n,
            n == systems@.len(),
            forall|key: u64|
                #[trigger] m@.contains_key(key) ==> listing_triple_valid(
                    systems@,
                    m@[key].0,
                    m@[key].1,
                    m@[key].2,
                    key,
                ),
            forall|k: int, t: int, l: int|
                0 <= k < i && 0 <= t < systems@[k].stations.len() && 0 <= l
                    < systems@[k].stations[t].listings.len() && (
                #[trigger] systems@[k].stations[t].listings[l]).station_id
                    == systems@[k].stations[t].station_id ==> m@.contains_key(
                    spec_listing_key(
                        systems@[k].stations[t].listings[l].station_id,
                        systems@[k].stations[t].listings[l].commodity.commodity_id,
                    ),
                ),
        decreases n - i,
    {
        let sn = systems[i].stations.len();
        let mut j: usize = 0;
        while j < sn
            invariant
                0 <= i < n,
                0 <= j <= sn,
                n == systems@.len(),
                sn == systems@[i as int].stations.len(),
                forall|key: u64|
                    #[trigger] m@.contains_key(key) ==> listing_triple_valid(
                        systems@,
                        m@[key].0,
                        m@[key].1,
                        m@[key].2,
                        key,
                    ),
                forall|k: int, t: int, l: int|
                    0 <= k < i && 0 <= t < systems@[k].stations.len() && 0 <= l
                        < systems@[k].stations[t].listings.len() && (
                    #[trigger] systems@[k].stations[t].listings[l]).station_id
                        == systems@[k].stations[t].station_id ==> m@.contains_key(
                        spec_listing_key(
                            systems@[k].stations[t].listings[l].station_id,
                            systems@[k].stations[t].listings[l].commodity.commodity_id,
                        ),
                    ),
                forall|t: int, l: int|
                    0 <= t < j && 0 <= l < systems@[i as int].stations[t].listings.len() && (
                    #[trigger] systems@[i as int].stations[t].listings[l]).station_id
                        == systems@[i as int].stations[t].station_id ==> m@.contains_key(
                        spec_listing_key(
                            systems@[i as int].stations[t].listings[l].station_id,
                            systems@[i as int].stations[t].listings[l].commodity.commodity_id,
                        ),
                    ),
            decreases sn - j,
        {
            let ln = systems[i].stations[j].listings.len();
            let mut l: usize = 0;
            while l < ln
                invariant
                    0 <= i < n,
                    0 <= j < sn,
                    0 <= l <= ln,
                    n == systems@.len(),
                    sn == systems@[i as int].stations.len(),
                    ln == systems@[i as int].stations[j as int].listings.len(),
                    forall|key: u64|
                        #[trigger] m@.contains_key(key) ==> listing_triple_valid(
                            systems@,
                            m@[key].0,
                            m@[key].1,
                            m@[key].2,
                            key,
                        ),
                    forall|k: int, t: int, ll: int|
                        0 <= k < i && 0 <= t < systems@[k].stations.len() && 0 <= ll
                            < systems@[k].stations[t].listings.len() && (
                        #[trigger] systems@[k].stations[t].listings[ll]).station_id
                            == systems@[k].stations[t].station_id ==> m@.contains_key(
                            spec_listing_key(
                                systems@[k].stations[t].listings[ll].station_id,
                                systems@[k].stations[t].listings[ll].commodity.commodity_id,
                            ),
                        ),
                    forall|t: int, ll: int|
                        0 <= t < j && 0 <= ll < systems@[i as int].stations[t].listings.len() && (
                        #[trigger] systems@[i as int].stations[t].listings[ll]).station_id
                            == systems@[i as int].stations[t].station_id ==> m@.contains_key(
                            spec_listing_key(
                                systems@[i as int].stations[t].listings[ll].station_id,
                                systems@[i as int].stations[t].listings[ll].commodity.commodity_id,
                            ),
                        ),
                    forall|ll: int|
                        0 <= ll < l && (#[trigger] systems@[i as int].stations[j
                            as int].listings[ll]).station_id == systems@[i as int].stations[j
                            as int].station_id ==> m@.contains_key(
                            spec_listing_key(
                                systems@[i as int].stations[j as int].listings[ll].station_id,
                                systems@[i as int].stations[j
                                    as int].listings[ll].commodity.commodity_id,
                            ),
                        ),
                decreases ln - l,
            {
                let line = &systems[i].stations[j].listings[l];
                if line.station_id == systems[i].stations[j].station_id {
                    let key: u64 = (line.station_id as u64) * 0x1_0000 + (line.commodity.commodity_id
                        as u64);
                    m.insert(key, (i, j, l));
                }
                l += 1;
            }
            j += 1;
        }
        i += 1;
    }
    m
}

impl UniverseIndex {
    /// Calculate every lookup structure for the given arena.
    pub fn calculate(systems: &Vec<System>) -> (r: UniverseIndex)
        ensures
            r.wf(),
            r.target() == systems@,
    {
        UniverseIndex {
            systems: calc_systems_map(systems),
            systems_by_name: calc_system_names(systems),
            positions: calc_positions(systems),
            stations: calc_stations_map(systems),
            stations_by_name: calc_station_names(systems),
            listings: calc_listings_map(systems),
            target: Ghost(systems@),
        }
    }

    /// The arena position of the system with this id, exactly when one
    /// carries it.
    pub fn get_index_system(&self, id: u32) -> (r: Option<usize>)
        requires
            self.wf(),
        ensures
            match r {
                Some(i) => i < self.target().len() && self.target()[i as int].system_id == id,
                None => forall|k: int|
                    0 <= k < self.target().len() ==> (#[trigger] self.target()[k]).system_id != id,
            },
    {
        match self.systems.get(&id) {
            Some(i) => Some(*i),
            None => None,
        }
    }

    /// The arena position of the first system whose lowercased name matches
    /// the lowercased query; `None` exactly when none matches.
    pub fn get_index_system_by_name(&self, system_name: &String) -> (r: Option<usize>)
        requires
            self.wf(),
        ensures
            match r {
                Some(i) => i < self.target().len() && lower_of(
                    self.target()[i as int].system_name@,
                ) == lower_of(system_name@),
                None => forall|k: int|
                    0 <= k < self.target().len() ==> lower_of(
                        (#[trigger] self.target()[k]).system_name@,
                    ) != lower_of(system_name@),
            },
    {
        let needle = lowercase(system_name.as_str());
        let n = self.systems_by_name.len();
        let mut p: usize = 0;
        while p < n
            invariant
                0 <= p <= n,
                n == self.systems_by_name@.len(),
                self.wf(),
                needle@ == lower_of(system_name@),
                forall|q: int|
                    0 <= q < p ==> (#[trigger] self.systems_by_name@[q]).0@ != lower_of(
                        system_name@,
                    ),
            decreases n - p,
        {
            if str_eq(&self.systems_by_name[p].0, &needle) {
                return Some(self.systems_by_name[p].1);
            }
            p += 1;
        }
        proof {
            assert forall|k: int|
                0 <= k < self.target().len() implies lower_of(
                (#[trigger] self.target()[k]).system_name@,
            ) != lower_of(system_name@) by {
                assert(self.systems_by_name@[k].0@ == lower_of(self.target()[k].system_name@));
            }
        }
        None
    }

    /// The arena position the index resolves a station id to, when it
    /// holds one.
    pub closed spec fn station_position(&self, id: u32) -> Option<(usize, usize)> {
        if self.stations@.contains_key(id) {
            Some(self.stations@[id])
        } else {
            None
        }
    }

    /// The arena position of the station with this id, exactly when one
    /// carries it.
    pub fn get_index_station(&self, id: u32) -> (r: Option<(usize, usize)>)
        requires
            self.wf(),
        ensures
            r == self.station_position(id),
            match r {
                Some(pair) => station_pair_valid(self.target(), pair.0, pair.1, id),
                None => forall|k: int, t: int|
                    0 <= k < self.target().len() && 0 <= t < self.target()[k].stations.len() ==> (
                    #[trigger] self.target()[k].stations[t]).station_id != id,
            },
    {
        match self.stations.get(&id) {
            Some(pair) => Some(*pair),
            None => None,
        }
    }

    /// Every arena position whose station's lowercased name matches the
    /// lowercased query, in roster order.
    pub fn get_index_station_by_name(&self, station_name: &String) -> (r: Vec<(usize, usize)>)
        requires
            self.wf(),
        ensures
            forall|q: int|
                0 <= q < r@.len() ==> station_pair_valid(
                    self.target(),
                    (#[trigger] r@[q]).0,
                    r@[q].1,
                    self.target()[r@[q].0 as int].stations[r@[q].1 as int].station_id,
                ) && lower_of(
                    self.target()[r@[q].0 as int].stations[r@[q].1 as int].station_name@,
                ) == lower_of(station_name@),
            forall|k: int, t: int|
                0 <= k < self.target().len() && 0 <= t < self.target()[k].stations.len()
                    && lower_of((#[trigger] self.target()[k].stations[t]).station_name@)
                    == lower_of(station_name@) ==> r@.contains((k as usize, t as usize)),
    {
        let needle = lowercase(station_name.as_str());
        let mut out: Vec<(usize, usize)> = Vec::new();
        let n = self.stations_by_name.len();
        let mut p: usize = 0;
        while p < n
            invariant
                0 <= p <= n,
                n == self.stations_by_name@.len(),
                self.wf(),
                needle@ == lower_of(station_name@),
                forall|q: int|
                    0 <= q < out@.len() ==> station_pair_valid(
                        self.target(),
                        (#[trigger] out@[q]).0,
                        out@[q].1,
                        self.target()[out@[q].0 as int].stations[out@[q].1 as int].station_id,
                    ) && lower_of(
                        self.target()[out@[q].0 as int].stations[out@[q].1 as int].station_name@,
                    ) == lower_of(station_name@),
                forall|q: int|
                    0 <= q < p && (#[trigger] self.stations_by_name@[q]).0@ == lower_of(
                        station_name@,
                    ) ==> out@.contains(self.stations_by_name@[q].1),
            decreases n - p,
        {
            if str_eq(&self.stations_by_name[p].0, &needle) {
                let ghost before = out@;
                out.push(self.stations_by_name[p].1);
                proof {
                    assert(out@.drop_last() =~= before);
                    assert(out@.last() == self.stations_by_name@[p as int].1);
                    assert forall|q: int|
                        0 <= q < p + 1 && (#[trigger] self.stations_by_name@[q]).0@ == lower_of(
                            station_name@,
                        ) implies out@.contains(self.stations_by_name@[q].1) by {
                        if q < p {
                            let w = choose|w: int|
                                0 <= w < before.len() && before[w] == self.stations_by_name@[q].1;
                            assert(out@[w] == self.stations_by_name@[q].1);
                        } else {
                            assert(out@[out@.len() - 1] == self.stations_by_name@[q].1);
                        }
                    }
                }
            }
            p += 1;
        }
        proof {
            assert forall|k: int, t: int|
                0 <= k < self.target().len() && 0 <= t < self.target()[k].stations.len()
                    && lower_of((#[trigger] self.target()[k].stations[t]).station_name@)
                    == lower_of(station_name@) implies out@.contains((k as usize, t as usize)) by {
                let pos = stations_before(self.target(), k) + t;
                assert(self.stations_by_name@[pos].1 == (k as usize, t as usize));
                assert(self.stations_by_name@[pos].0@ == lower_of(
                    self.target()[k].stations[t].station_name@,
                ));
            }
        }
        out
    }

    /// The arena position of the market line of this station and commodity,
    /// exactly when the arena holds one (consistently recorded).
    pub fn get_index_listing(&self, station_id: u32, commodity_id: u16) -> (r: Option<
        (usize, usize, usize),
    >)
        requires
            self.wf(),
        ensures
            match r {
                Some(triple) => listing_triple_valid(
                    self.target(),
                    triple.0,
                    triple.1,
                    triple.2,
                    spec_listing_key(station_id, commodity_id),
                ),
                None => forall|k: int, t: int, l: int|
                    0 <= k < self.target().len() && 0 <= t < self.target()[k].stations.len() && 0
                        <= l < self.target()[k].stations[t].listings.len() && (
                    #[trigger] self.target()[k].stations[t].listings[l]).station_id
                        == self.target()[k].stations[t].station_id ==> !(
                    self.target()[k].stations[t].listings[l].station_id == station_id
                        && self.target()[k].stations[t].listings[l].commodity.commodity_id
                        == commodity_id),
            },
    {
        let key: u64 = (station_id as u64) * 0x1_0000 + (commodity_id as u64);
        let r = match self.listings.get(&key) {
            Some(triple) => Some(*triple),
            None => None,
        };
        proof {
            if r is None {
                assert forall|k: int, t: int, l: int|
                    0 <= k < self.target().len() && 0 <= t < self.target()[k].stations.len() && 0
                        <= l < self.target()[k].stations[t].listings.len() && (
                    #[trigger] self.target()[k].stations[t].listings[l]).station_id
                        == self.target()[k].stations[t].station_id implies !(
                self.target()[k].stations[t].listings[l].station_id == station_id
                    && self.target()[k].stations[t].listings[l].commodity.commodity_id
                    == commodity_id) by {
                    if self.target()[k].stations[t].listings[l].station_id == station_id
                        && self.target()[k].stations[t].listings[l].commodity.commodity_id
                        == commodity_id {
                        assert(self.listings@.contains_key(
                            spec_listing_key(station_id, commodity_id),
                        ));
                    }
                }
            }
        }
        r
    }

    /// The arena positions of every system within `range` of the given
    /// position, in strictly increasing arena order (so no position twice):
    /// exactly those whose squared distance is at most the squared range.
    /// The roster is scanned linearly: a spatial tree over float keys
    /// cannot live in verified code, so exactness here is traded against
    /// the cheaper repeated queries such a tree would give.
    pub fn get_index_systems_in_range(&self, system: &System, range: u32) -> (r: Vec<usize>)
        requires
            self.wf(),
            system.in_volume(),
            forall|k: int| 0 <= k < self.target().len() ==> (#[trigger] self.target()[k]).in_volume(),
        ensures
            forall|i: int, j: int| 0 <= i < j < r@.len() ==> (#[trigger] r@[i]) < (#[trigger] r@[j]),
            forall|q: int|
                0 <= q < r@.len() ==> (#[trigger] r@[q]) < self.target().len() && spec_dist2(
                    self.target()[r@[q] as int].x as int,
                    self.target()[r@[q] as int].y as int,
                    self.target()[r@[q] as int].z as int,
                    system.x as int,
                    system.y as int,
                    system.z as int,
                ) <= range as int * range as int,
            forall|k: int|
                0 <= k < self.target().len() && spec_dist2(
                    (#[trigger] self.target()[k]).x as int,
                    self.target()[k].y as int,
                    self.target()[k].z as int,
                    system.x as int,
                    system.y as int,
                    system.z as int,
                ) <= range as int * range as int ==> r@.contains(k as usize),
    {
        let mut out: Vec<usize> = Vec::new();
        let n = self.positions.len();
        proof {
            assert((range as u64) * (range as u64) <= 0xffff_ffffu64 * 0xffff_ffff)
                by (nonlinear_arith)
                requires
                    range <= 0xffff_ffffu32,
            ;
        }
        let r2: u64 = (range as u64) * (range as u64);
        let mut k: usize = 0;
        while k < n
            invariant
                0 <= k <= n,
                n == self.target().len(),
                self.wf(),
                system.in_volume(),
                forall|w: int|
                    0 <= w < self.target().len() ==> (#[trigger] self.target()[w]).in_volume(),
                r2 == range as int * range as int,
                forall|i: int, j: int|
                    0 <= i < j < out@.len() ==> (#[trigger] out@[i]) < (#[trigger] out@[j]),
                forall|q: int| 0 <= q < out@.len() ==> (#[trigger] out@[q]) < k,
                forall|q: int|
                    0 <= q < out@.len() ==> (#[trigger] out@[q]) < self.target().len() && spec_dist2(
                        self.target()[out@[q] as int].x as int,
                        self.target()[out@[q] as int].y as int,
                        self.target()[out@[q] as int].z as int,
                        system.x as int,
                        system.y as int,
                        system.z as int,
                    ) <= range as int * range as int,
                forall|w: int|
                    0 <= w < k && spec_dist2(
                        (#[trigger] self.target()[w]).x as int,
                        self.target()[w].y as int,
                        self.target()[w].z as int,
                        system.x as int,
                        system.y as int,
                        system.z as int,
                    ) <= range as int * range as int ==> out@.contains(w as usize),
            decreases n - k,
        {
            let (px, py, pz) = self.positions[k];
            proof {
                crate::trader::lemma_dist2_bounded(
                    px as int,
                    py as int,
                    pz as int,
                    system.x as int,
                    system.y as int,
                    system.z as int,
                );
            }
            let dx: i64 = px - system.x;
            let dy: i64 = py - system.y;
            let dz: i64 = pz - system.z;
            let d2: u64 = (dx * dx + dy * dy + dz * dz) as u64;
            if d2 <= r2 {
                let ghost before = out@;
                out.push(k);
                proof {
                    assert(out@.drop_last() =~= before);
                    assert forall|w: int|
                        0 <= w < k + 1 && spec_dist2(
                            (#[trigger] self.target()[w]).x as int,
                            self.target()[w].y as int,
                            self.target()[w].z as int,
                            system.x as int,
                            system.y as int,
                            system.z as int,
                        ) <= range as int * range as int implies out@.contains(w as usize) by {
                        if w < k {
                            let u = choose|u: int| 0 <= u < before.len() && before[u] == w as usize;
                            assert(out@[u] == w as usize);
                        } else {
                            assert(out@[out@.len() - 1] == k as usize);
                        }
                    }
                }
            }
            k += 1;
        }
        out
    }
}


/// Two market lines agree on everything the index reads (prices, stock and
/// timestamps may differ).
pub open spec fn listing_same_shape(a: Listing, b: Listing) -> bool {
    &&& a.system_id == b.system_id
    &&& a.station_id == b.station_id
    &&& a.commodity.commodity_id == b.commodity.commodity_id
}

/// Two stations agree on everything the index reads.
pub open spec fn station_same_shape(a: Station, b: Station) -> bool {
    &&& a.system_id == b.system_id
    &&& a.station_id == b.station_id
    &&& a.station_name == b.station_name
    &&& a.listings.len() == b.listings.len()
    &&& forall|l: int|
        0 <= l < a.listings.len() ==> listing_same_shape(
            #[trigger] a.listings[l],
            #[trigger] b.listings[l],
        )
}

/// Two systems agree on everything the index reads.
pub open spec fn system_same_shape(a: System, b: System) -> bool {
    &&& a.system_id == b.system_id
    &&& a.system_name == b.system_name
    &&& a.x == b.x
    &&& a.y == b.y
    &&& a.z == b.z
    &&& a.stations.len() == b.stations.len()
    &&& forall|t: int|
        0 <= t < a.stations.len() ==> station_same_shape(
            #[trigger] a.stations[t],
            #[trigger] b.stations[t],
        )
}

/// Two arenas agree on everything the index reads: live price or stock
/// corrections keep an index valid, structural changes do not.
pub open spec fn same_shape(a: Seq<System>, b: Seq<System>) -> bool {
    &&& a.len() == b.len()
    &&& forall|k: int| 0 <= k < a.len() ==> system_same_shape(#[trigger] a[k], #[trigger] b[k])
}

/// The flattened station counts agree between same-shaped arenas.
pub proof fn lemma_stations_before_same_shape(a: Seq<System>, b: Seq<System>, k: int)
    requires
        same_shape(a, b),
        0 <= k <= a.len(),
    ensures
        stations_before(a, k) == stations_before(b, k),
    decreases k,
{
    if k > 0 {
        lemma_stations_before_same_shape(a, b, k - 1);
    }
}

impl UniverseIndex {
    /// Rebase the index onto an arena of the same shape: a live price or
    /// stock correction changes no position the index holds.
    pub fn retarget(&mut self, new_target: Ghost<Seq<System>>)
        requires
            old(self).wf(),
            same_shape(old(self).target(), new_target@),
        ensures
            final(self).wf(),
            final(self).target() == new_target@,
    {
        let ghost a = self.target@;
        let ghost b = new_target@;
        proof {
            lemma_stations_before_same_shape(a, b, a.len() as int);
            assert forall|id: u32| #[trigger] self.systems@.contains_key(id) implies self.systems@[id]
                < b.len() && b[self.systems@[id] as int].system_id == id by {
                assert(system_same_shape(a[self.systems@[id] as int], b[self.systems@[id] as int]));
            }
            assert forall|k: int| 0 <= k < b.len() implies self.systems@.contains_key(
                #[trigger] b[k].system_id,
            ) by {
                assert(system_same_shape(a[k], b[k]));
                assert(self.systems@.contains_key(a[k].system_id));
            }
            assert forall|k: int| 0 <= k < b.len() implies (#[trigger] self.systems_by_name@[k]).1
                == k as usize && self.systems_by_name@[k].0@ == lower_of(b[k].system_name@) by {
                assert(system_same_shape(a[k], b[k]));
            }
            assert forall|k: int| 0 <= k < b.len() implies (#[trigger] self.positions@[k]) == (
            b[k].x, b[k].y, b[k].z) by {
                assert(system_same_shape(a[k], b[k]));
            }
            assert forall|id: u32| #[trigger] self.stations@.contains_key(id) implies station_pair_valid(
                b,
                self.stations@[id].0,
                self.stations@[id].1,
                id,
            ) by {
                let (si, ti) = self.stations@[id];
                assert(station_pair_valid(a, si, ti, id));
                assert(system_same_shape(a[si as int], b[si as int]));
                assert(station_same_shape(
                    a[si as int].stations[ti as int],
                    b[si as int].stations[ti as int],
                ));
            }
            assert forall|k: int, t: int|
                0 <= k < b.len() && 0 <= t < b[k].stations.len() implies self.stations@.contains_key(
                #[trigger] b[k].stations[t].station_id,
            ) by {
                assert(system_same_shape(a[k], b[k]));
                assert(station_same_shape(a[k].stations[t], b[k].stations[t]));
                assert(self.stations@.contains_key(a[k].stations[t].station_id));
            }
            assert forall|p: int| 0 <= p < self.stations_by_name@.len() implies station_pair_valid(
                b,
                (#[trigger] self.stations_by_name@[p]).1.0,
                self.stations_by_name@[p].1.1,
                b[self.stations_by_name@[p].1.0 as int].stations[self.stations_by_name@[p].1.1
                    as int].station_id,
            ) && self.stations_by_name@[p].0@ == lower_of(
                b[self.stations_by_name@[p].1.0 as int].stations[self.stations_by_name@[p].1.1
                    as int].station_name@,
            ) by {
                let (si, ti) = self.stations_by_name@[p].1;
                assert(system_same_shape(a[si as int], b[si as int]));
                assert(station_same_shape(
                    a[si as int].stations[ti as int],
                    b[si as int].stations[ti as int],
                ));
            }
            assert forall|k: int, t: int|
                0 <= k < b.len() && 0 <= t < b[k].stations.len() implies 0 <= stations_before(b, k)
                + t < self.stations_by_name@.len() && self.stations_by_name@[stations_before(b, k)
                + t].1 == (k as usize, t as usize) && self.stations_by_name@[stations_before(b, k)
                + t].0@ == lower_of((#[trigger] b[k].stations[t]).station_name@) by {
                assert(system_same_shape(a[k], b[k]));
                assert(station_same_shape(a[k].stations[t], b[k].stations[t]));
                lemma_stations_before_same_shape(a, b, k);
                assert(self.stations_by_name@[stations_before(a, k) + t].0@ == lower_of(
                    (a[k].stations[t]).station_name@,
                ));
            }
            assert forall|key: u64| #[trigger] self.listings@.contains_key(key) implies listing_triple_valid(
                b,
                self.listings@[key].0,
                self.listings@[key].1,
                self.listings@[key].2,
                key,
            ) by {
                let (si, ti, li) = self.listings@[key];
                assert(listing_triple_valid(a, si, ti, li, key));
                assert(system_same_shape(a[si as int], b[si as int]));
                assert(station_same_shape(
                    a[si as int].stations[ti as int],
                    b[si as int].stations[ti as int],
                ));
                assert(listing_same_shape(
                    a[si as int].stations[ti as int].listings[li as int],
                    b[si as int].stations[ti as int].listings[li as int],
                ));
            }
            assert forall|k: int, t: int, l: int|
                0 <= k < b.len() && 0 <= t < b[k].stations.len() && 0 <= l
                    < b[k].stations[t].listings.len() && (#[trigger] b[k].stations[t].listings[l]).station_id
                    == b[k].stations[t].station_id implies self.listings@.contains_key(
                spec_listing_key(
                    b[k].stations[t].listings[l].station_id,
                    b[k].stations[t].listings[l].commodity.commodity_id,
                ),
            ) by {
                assert(system_same_shape(a[k], b[k]));
                assert(station_same_shape(a[k].stations[t], b[k].stations[t]));
                assert(listing_same_shape(a[k].stations[t].listings[l], b[k].stations[t].listings[l]));
                assert(self.listings@.contains_key(
                    spec_listing_key(
                        a[k].stations[t].listings[l].station_id,
                        a[k].stations[t].listings[l].commodity.commodity_id,
                    ),
                ));
            }
        }
        self.target = new_target;
    }
}

} // verus!
