use vstd::prelude::*;

verus! {

use crate::text::{lower_of, lowercase, str_eq};
use crate::spec_isqrt;

/// Distances between systems are held in thousandths of a light-year;
/// distances from a star to its station in light-seconds.
///
/// The simulated galaxy lives inside a fixed, known bounding volume, stated
/// here in milli-light-years per axis.
pub const VOLUME_X_MIN: i64 = -2_700_000;

pub const VOLUME_X_MAX: i64 = 1_600_000;

pub const VOLUME_Y_MIN: i64 = -1_000_000;

pub const VOLUME_Y_MAX: i64 = 1_200_000;

pub const VOLUME_Z_MIN: i64 = -1_400_000;

pub const VOLUME_Z_MAX: i64 = 4_000_000;

/// A value that exposes the identifier it is registered under.
pub trait Identified<K> {
    /// The identifier, at the specification level.
    spec fn spec_id(&self) -> K;

    /// The identifier.
    fn to_id(&self) -> (r: K)
        ensures
            r == self.spec_id(),
    ;
}

/// A tradable good: its identifier, display name and category name.
#[derive(Clone, Debug)]
pub struct Commodity {
    pub commodity_id: u16,
    pub commodity_name: String,
    pub category: String,
}

impl Identified<u16> for Commodity {
    open spec fn spec_id(&self) -> u16 {
        self.commodity_id
    }

    fn to_id(&self) -> u16 {
        self.commodity_id
    }
}

/// The largest landing pad a station offers, totally ordered by size.
#[derive(Clone, Copy, Debug, PartialEq, Eq, Structural)]
pub enum ShipSize {
    Small,
    Medium,
    Large,
}

impl ShipSize {
    /// The pad sizes in ascending order of room.
    pub open spec fn spec_rank(&self) -> u8 {
        match *self {
            ShipSize::Small => 0,
            ShipSize::Medium => 1,
            ShipSize::Large => 2,
        }
    }

    pub fn rank(&self) -> (r: u8)
        ensures
            r == self.spec_rank(),
    {
        match *self {
            ShipSize::Small => 0,
            ShipSize::Medium => 1,
            ShipSize::Large => 2,
        }
    }

    /// Whether a pad of this size accommodates a ship needing `other`.
    pub fn at_least(&self, other: &ShipSize) -> (r: bool)
        ensures
            r == (self.spec_rank() >= other.spec_rank()),
    {
        self.rank() >= other.rank()
    }

    /// Parse a pad size from the names and single-letter forms in use.
    pub fn parse(s: &str) -> (r: Result<ShipSize, ()>)
        ensures
            r == ({
                let l = lower_of(s@);
                if l == "small"@ || l == "s"@ {
                    Ok::<ShipSize, ()>(ShipSize::Small)
                } else if l == "medium"@ || l == "med"@ || l == "m"@ {
                    Ok::<ShipSize, ()>(ShipSize::Medium)
                } else if l == "large"@ || l == "l"@ {
                    Ok::<ShipSize, ()>(ShipSize::Large)
                } else {
                    Err::<ShipSize, ()>(())
                }
            }),
    {
        let l = lowercase(s);
        if str_eq(&l, &"small".to_owned()) || str_eq(
            &l,
            &"s".to_owned(),
        ) {
            Ok(ShipSize::Small)
        } else if str_eq(&l, &"medium".to_owned()) || str_eq(
            &l,
            &"med".to_owned(),
        ) || str_eq(&l, &"m".to_owned()) {
            Ok(ShipSize::Medium)
        } else if str_eq(&l, &"large".to_owned()) || str_eq(
            &l,
            &"l".to_owned(),
        ) {
            Ok(ShipSize::Large)
        } else {
            Err(())
        }
    }
}

/// One market line: a commodity offered at a station, with the stock that
/// can be bought (`supply`), the price the station charges (`buy_price`),
/// the price it pays (`sell_price`), and when the line was collected.
/// No supply means nothing can be bought here; a zero `sell_price` means
/// the station does not buy the good.
#[derive(Clone, Debug)]
pub struct Listing {
    pub system_id: u32,
    pub station_id: u32,
    pub commodity: Commodity,
    pub supply: u32,
    pub buy_price: u32,
    pub sell_price: u32,
    pub collected_at: u64,
}

impl Listing {
    /// Whether anything can be bought from this line.
    pub fn is_buy(&self) -> (r: bool)
        ensures
            r == (self.supply > 0),
    {
        self.supply > 0
    }

    /// Whether the station pays for this good.
    pub fn is_sell(&self) -> (r: bool)
        ensures
            r == (self.sell_price > 0),
    {
        self.sell_price > 0
    }
}

/// A trading station inside a system, with its market lines and the
/// commodities it prohibits.
#[derive(Clone, Debug)]
pub struct Station {
    pub system_id: u32,
    pub station_id: u32,
    pub station_name: String,
    pub max_landing_pad_size: ShipSize,
    pub distance_to_star: Option<u32>,
    pub updated_at: u64,
    pub market_updated_at: Option<u64>,
    pub is_planetary: bool,
    pub prohibited_commodities: Vec<u16>,
    pub listings: Vec<Listing>,
}

impl Identified<u32> for Station {
    open spec fn spec_id(&self) -> u32 {
        self.station_id
    }

    fn to_id(&self) -> u32 {
        self.station_id
    }
}

/// A star system: its position in the galaxy (milli-light-years per axis)
/// and the stations it holds.
#[derive(Clone, Debug)]
pub struct System {
    pub system_id: u32,
    pub system_name: String,
    pub x: i64,
    pub y: i64,
    pub z: i64,
    pub needs_permit: bool,
    pub updated_at: u64,
    pub stations: Vec<Station>,
}

impl Identified<u32> for System {
    open spec fn spec_id(&self) -> u32 {
        self.system_id
    }

    fn to_id(&self) -> u32 {
        self.system_id
    }
}

/// Whether a position lies inside the galaxy's bounding volume.
pub open spec fn coords_in_volume(x: int, y: int, z: int) -> bool {
    &&& VOLUME_X_MIN <= x <= VOLUME_X_MAX
    &&& VOLUME_Y_MIN <= y <= VOLUME_Y_MAX
    &&& VOLUME_Z_MIN <= z <= VOLUME_Z_MAX
}

/// The squared distance between two positions, in squared milli-light-years.
pub open spec fn spec_dist2(ax: int, ay: int, az: int, bx: int, by: int, bz: int) -> int {
    (ax - bx) * (ax - bx) + (ay - by) * (ay - by) + (az - bz) * (az - bz)
}

/// Squared distances inside the bounding volume fit comfortably in `u64`.
pub proof fn lemma_dist2_bounded(ax: int, ay: int, az: int, bx: int, by: int, bz: int)
    requires
        coords_in_volume(ax, ay, az),
        coords_in_volume(bx, by, bz),
    ensures
        0 <= spec_dist2(ax, ay, az, bx, by, bz) <= 87_480_000_000_000,
        (ax - bx) * (ax - bx) <= 29_160_000_000_000,
        (ay - by) * (ay - by) <= 29_160_000_000_000,
        (az - bz) * (az - bz) <= 29_160_000_000_000,
{
    assert((ax - bx) * (ax - bx) <= 29_160_000_000_000 && (ax - bx) * (ax - bx) >= 0)
        by (nonlinear_arith)
        requires
            -5_400_000 <= ax - bx <= 5_400_000,
    ;
    assert((ay - by) * (ay - by) <= 29_160_000_000_000 && (ay - by) * (ay - by) >= 0)
        by (nonlinear_arith)
        requires
            -5_400_000 <= ay - by <= 5_400_000,
    ;
    assert((az - bz) * (az - bz) <= 29_160_000_000_000 && (az - bz) * (az - bz) >= 0)
        by (nonlinear_arith)
        requires
            -5_400_000 <= az - bz <= 5_400_000,
    ;
}

impl System {
    /// The system's position satisfies the bounding volume.
    pub open spec fn in_volume(&self) -> bool {
        coords_in_volume(self.x as int, self.y as int, self.z as int)
    }

    /// The squared distance to `other`, in squared milli-light-years.
    pub fn dist2(&self, other: &System) -> (r: u64)
        requires
            self.in_volume(),
            other.in_volume(),
        ensures
            r == spec_dist2(
                self.x as int,
                self.y as int,
                self.z as int,
                other.x as int,
                other.y as int,
                other.z as int,
            ),
    {
        proof {
            lemma_dist2_bounded(
                self.x as int,
                self.y as int,
                self.z as int,
                other.x as int,
                other.y as int,
                other.z as int,
            );
        }
        let dx: i64 = self.x - other.x;
        let dy: i64 = self.y - other.y;
        let dz: i64 = self.z - other.z;
        (dx * dx + dy * dy + dz * dz) as u64
    }

    /// The distance to `other`, rounded down to whole milli-light-years.
    /// Distances inside the bounding volume stay below ten thousand
    /// light-years.
    pub fn distance(&self, other: &System) -> (r: u64)
        requires
            self.in_volume(),
            other.in_volume(),
        ensures
            r == spec_isqrt(
                spec_dist2(
                    self.x as int,
                    self.y as int,
                    self.z as int,
                    other.x as int,
                    other.y as int,
                    other.z as int,
                ),
            ),
            r < 10_000_000,
    {
        let d2 = self.dist2(other);
        let r = crate::isqrt_u64(d2);
        proof {
            lemma_dist2_bounded(
                self.x as int,
                self.y as int,
                self.z as int,
                other.x as int,
                other.y as int,
                other.z as int,
            );
            assert(r < 10_000_000) by (nonlinear_arith)
                requires
                    r * r <= d2,
                    d2 <= 87_480_000_000_000u64,
            ;
        }
        r
    }

    /// The first station whose lowercased name equals the lowercased query.
    pub fn get_station_by_name(&self, name: &str) -> (r: Option<&Station>)
        ensures
            match r {
                Some(st) => exists|i: int|
                    0 <= i < self.stations@.len() && self.stations@[i] == *st && lower_of(
                        st.station_name@,
                    ) == lower_of(name@),
                None => forall|i: int|
                    0 <= i < self.stations@.len() ==> lower_of(
                        (#[trigger] self.stations@[i]).station_name@,
                    ) != lower_of(name@),
            },
    {
        let name_lowercase = lowercase(name);
        let n = self.stations.len();
        let mut i: usize = 0;
        while i < n
            invariant
                0 <= i <= n,
                n == self.stations@.len(),
                name_lowercase@ == lower_of(name@),
                forall|k: int|
                    0 <= k < i ==> lower_of((#[trigger] self.stations@[k]).station_name@)
                        != lower_of(name@),
            decreases n - i,
        {
            let lowered = lowercase(self.stations[i].station_name.as_str());
            if str_eq(&lowered, &name_lowercase) {
                return Some(&self.stations[i]);
            }
            i += 1;
        }
        None
    }
}

} // verus!
