use vstd::prelude::*;

verus! {

use crate::map_list::{hash_model_holds, MapList};

/// The raw station record as the economy archive delivers it. The shell
/// deserializes into its own copies and hands these bare values in; the
/// grouping below is the part of ingestion worth checking.
pub struct StationJson {
    pub id: u32,
    pub system_id: u32,
    pub name: String,
    pub max_landing_pad_size: Option<String>,
    pub distance_to_star: Option<u32>,
    pub prohibited_commodities: Vec<String>,
    pub updated_at: u64,
    pub market_updated_at: Option<u64>,
    pub is_planetary: Option<u8>,
}

/// The raw market line record of the archive.
pub struct StationCommodityListingJson {
    pub id: u32,
    pub station_id: u32,
    pub commodity_id: u16,
    pub supply: i64,
    pub buy_price: i64,
    pub sell_price: i64,
    pub collected_at: u64,
    pub demand: i64,
    pub update_count: u32,
}

/// The raw commodity record of the archive.
pub struct CommodityJson {
    pub id: u16,
    pub name: String,
    pub category_id: u8,
    pub category: CommodityCategoryJson,
}

/// The raw commodity category record of the archive.
pub struct CommodityCategoryJson {
    pub name: String,
}

/// Group the station records by the system they belong to: every record's
/// position lands in its own system's list, and every grouped position is a
/// record of that system.
pub fn get_stations_by_system(stations: &Vec<StationJson>) -> (m: MapList<u32, usize>)
    ensures
        hash_model_holds::<u32>() ==> {
            &&& forall|k: u32, q: int|
                #![trigger m@[k]@[q]]
                m@.contains_key(k) && 0 <= q < m@[k]@.len() ==> m@[k]@[q] < stations@.len()
                    && stations@[m@[k]@[q] as int].system_id == k
            &&& forall|w: int|
                0 <= w < stations@.len() ==> m@.contains_key(
                    (#[trigger] stations@[w]).system_id,
                ) && m@[stations@[w].system_id]@.contains(w as usize)
        },
{
    let mut m: MapList<u32, usize> = MapList::new();
    let n = stations.len();
    let mut i: usize = 0;
    while i < n
        invariant
            0 <= i <= n,
            n == stations@.len(),
            hash_model_holds::<u32>() ==> {
                &&& forall|k: u32, q: int|
                    #![trigger m@[k]@[q]]
                    m@.contains_key(k) && 0 <= q < m@[k]@.len() ==> m@[k]@[q] < stations@.len()
                        && stations@[m@[k]@[q] as int].system_id == k
                &&& forall|w: int|
                    0 <= w < i ==> m@.contains_key((#[trigger] stations@[w]).system_id)
                        && m@[stations@[w].system_id]@.contains(w as usize)
            },
        decreases n - i,
    {
        let ghost m0 = m@;
        let key = stations[i].system_id;
        m.insert(key, i);
        proof {
            if hash_model_holds::<u32>() {
                assert(m@[key]@.last() == i as usize);
                assert forall|w: int|
                    0 <= w < i + 1 implies m@.contains_key((#[trigger] stations@[w]).system_id)
                    && m@[stations@[w].system_id]@.contains(w as usize) by {
                    let kk = stations@[w].system_id;
                    if w < i {
                        assert(m0.contains_key(kk) && m0[kk]@.contains(w as usize));
                        if kk == key {
                            let u = choose|u: int|
                                0 <= u < m0[kk]@.len() && #[trigger] m0[kk]@[u] == w as usize;
                            assert(m@[key]@[u] == w as usize);
                        } else {
                            assert(m@[kk] == m0[kk]);
                        }
                    } else {
                        assert(m@[key]@[m@[key]@.len() - 1] == w as usize);
                    }
                }
                assert forall|k: u32, q: int|
                    #![trigger m@[k]@[q]]
                    m@.contains_key(k) && 0 <= q < m@[k]@.len() implies m@[k]@[q] < stations@.len()
                    && stations@[m@[k]@[q] as int].system_id == k by {
                    if k == key {
                        if q < m@[key]@.len() - 1 {
                            if m0.contains_key(key) {
                                assert(m@[key]@[q] == m0[key]@[q]);
                            }
                        } else {
                            assert(m@[key]@[q] == i as usize);
                        }
                    } else {
                        assert(m@[k] == m0[k]);
                    }
                }
            }
        }
        i += 1;
    }
    m
}

/// Group the market line records by the station they belong to, in the same
/// exact way.
pub fn get_listings_by_station(listings: &Vec<StationCommodityListingJson>) -> (m: MapList<
    u32,
    usize,
>)
    ensures
        hash_model_holds::<u32>() ==> {
            &&& forall|k: u32, q: int|
                #![trigger m@[k]@[q]]
                m@.contains_key(k) && 0 <= q < m@[k]@.len() ==> m@[k]@[q] < listings@.len()
                    && listings@[m@[k]@[q] as int].station_id == k
            &&& forall|w: int|
                0 <= w < listings@.len() ==> m@.contains_key(
                    (#[trigger] listings@[w]).station_id,
                ) && m@[listings@[w].station_id]@.contains(w as usize)
        },
{
    let mut m: MapList<u32, usize> = MapList::new();
    let n = listings.len();
    let mut i: usize = 0;
    while i < n
        invariant
            0 <= i <= n,
            n == listings@.len(),
            hash_model_holds::<u32>() ==> {
                &&& forall|k: u32, q: int|
                    #![trigger m@[k]@[q]]
                    m@.contains_key(k) && 0 <= q < m@[k]@.len() ==> m@[k]@[q] < listings@.len()
                        && listings@[m@[k]@[q] as int].station_id == k
                &&& forall|w: int|
                    0 <= w < i ==> m@.contains_key((#[trigger] listings@[w]).station_id)
                        && m@[listings@[w].station_id]@.contains(w as usize)
            },
        decreases n - i,
    {
        let ghost m0 = m@;
        let key = listings[i].station_id;
        m.insert(key, i);
        proof {
            if hash_model_holds::<u32>() {
                assert(m@[key]@.last() == i as usize);
                assert forall|w: int|
                    0 <= w < i + 1 implies m@.contains_key((#[trigger] listings@[w]).station_id)
                    && m@[listings@[w].station_id]@.contains(w as usize) by {
                    let kk = listings@[w].station_id;
                    if w < i {
                        assert(m0.contains_key(kk) && m0[kk]@.contains(w as usize));
                        if kk == key {
                            let u = choose|u: int|
                                0 <= u < m0[kk]@.len() && #[trigger] m0[kk]@[u] == w as usize;
                            assert(m@[key]@[u] == w as usize);
                        } else {
                            assert(m@[kk] == m0[kk]);
                        }
                    } else {
                        assert(m@[key]@[m@[key]@.len() - 1] == w as usize);
                    }
                }
                assert forall|k: u32, q: int|
                    #![trigger m@[k]@[q]]
                    m@.contains_key(k) && 0 <= q < m@[k]@.len() implies m@[k]@[q] < listings@.len()
                    && listings@[m@[k]@[q] as int].station_id == k by {
                    if k == key {
                        if q < m@[key]@.len() - 1 {
                            if m0.contains_key(key) {
                                assert(m@[key]@[q] == m0[key]@[q]);
                            }
                        } else {
                            assert(m@[key]@[q] == i as usize);
                        }
                    } else {
                        assert(m@[k] == m0[k]);
                    }
                }
            }
        }
        i += 1;
    }
    m
}

} // verus!
