use vstd::prelude::*;

verus! {

use crate::player_state::PlayerState;
use crate::trader::{Station, System};

/// All travel times are held in milliseconds. The fixed per-leg overheads
/// below were measured empirically: together they make every leg take
/// strictly positive time, which keeps every profit-per-minute score well
/// defined.
pub const BUY_TIME_MS: u64 = 36_924;

pub const UNDOCK_TIME_MS: u64 = 77_749;

pub const DOCK_TIME_MS: u64 = 56_527;

pub const SELL_TIME_MS: u64 = 24_808;

/// Time one hyperspace jump takes.
pub const JUMP_TIME_MS: u64 = 43_165;

/// Supercruise estimate used when a station's distance from its star is
/// unknown.
pub const DEFAULT_SUPERCRUISE_MS: u64 = 240_000;

/// A correction factor of this value leaves estimates unscaled.
pub const FACTOR_UNIT_MILLI: u32 = 1000;

/// Mean progress toward the destination per jump, in micro-light-years,
/// indexed by the ship's jump range in quarter-light-year steps. Short jump
/// ranges lose disproportionately much progress to sidetracking, because
/// fewer reachable stars lie toward the destination; the curve was fitted
/// against measured routes.
pub const ADJUSTED_JUMP_RANGE_MICRO_LY: [u32; 200] = [
    1000, 1000, 1000, 1000, 1795, 4373, 9038, 16667,
    28259, 44912, 67793, 98101, 137030, 185726, 245252, 316541,
    400373, 497345, 607855, 732094, 870053, 1021530, 1186140, 1363370,
    1552570, 1753000, 1963850, 2184270, 2413420, 2650430, 2894490, 3144800,
    3400620, 3661250, 3926050, 4194440, 4465890, 4739930, 5016140, 5294150,
    5573620, 5854270, 6135850, 6418130, 6700930, 6984080, 7267450, 7550900,
    7834350, 8117700, 8400870, 8683810, 8966470, 9248800, 9530770, 9812340,
    10093500, 10374200, 10654500, 10934300, 11213700, 11492600, 11771000, 12049000,
    12326500, 12603500, 12880100, 13156200, 13431900, 13707100, 13981900, 14256200,
    14530200, 14803700, 15076800, 15349500, 15621800, 15893700, 16165300, 16436500,
    16707300, 16977800, 17248000, 17517800, 17787300, 18056400, 18325300, 18593800,
    18862100, 19130000, 19397700, 19665100, 19932200, 20199000, 20465600, 20732000,
    20998100, 21263900, 21529500, 21794900, 22060000, 22325000, 22589700, 22854200,
    23118500, 23382600, 23646500, 23910200, 24173700, 24437000, 24700200, 24963200,
    25226000, 25488600, 25751000, 26013300, 26275500, 26537500, 26799300, 27061000,
    27322500, 27583900, 27845100, 28106200, 28367200, 28628000, 28888800, 29149300,
    29409800, 29670100, 29930300, 30190400, 30450400, 30710300, 30970000, 31229600,
    31489200, 31748600, 32007900, 32267100, 32526200, 32785300, 33044200, 33303000,
    33561700, 33820400, 34078900, 34337400, 34595800, 34854100, 35112300, 35370400,
    35628400, 35886400, 36144300, 36402100, 36659800, 36917400, 37175000, 37432500,
    37689900, 37947300, 38204600, 38461800, 38719000, 38976000, 39233100, 39490000,
    39746900, 40003700, 40260500, 40517200, 40773900, 41030500, 41287000, 41543500,
    41799900, 42056300, 42312600, 42568800, 42825000, 43081200, 43337300, 43593300,
    43849300, 44105200, 44361100, 44617000, 44872800, 45128500, 45384300, 45639900,
    45895500, 46151100, 46406600, 46662100, 46917600, 47173000, 47428300, 47683600,
];

/// Breakpoints of the supercruise-time curve: measured flight times in
/// milliseconds at distances of 1, 10, 100, ... light-seconds from the
/// star. Times between breakpoints are interpolated linearly; the curve is
/// a piecewise fit of a sigmoid regression over recorded flights.
pub const SUPERCRUISE_DIST_LS: [u32; 7] = [1, 10, 100, 1_000, 10_000, 100_000, 1_000_000];

pub const SUPERCRUISE_TIME_MS: [u64; 7] = [0, 46_582, 98_097, 152_501, 209_674, 269_450, 331_611];

/// Linear interpolation between two curve points, rounding down.
pub open spec fn spec_interp(x: int, x0: int, t0: int, x1: int, t1: int) -> int {
    t0 + (x - x0) * (t1 - t0) / (x1 - x0)
}

/// Supercruise time to a station `x` light-seconds from its star; zero
/// distance means the distance is unknown and a moderate default applies.
pub open spec fn spec_supercruise_ms(x: int) -> int {
    if x == 0 {
        DEFAULT_SUPERCRUISE_MS as int
    } else if x <= SUPERCRUISE_DIST_LS[0] {
        SUPERCRUISE_TIME_MS[0] as int
    } else if x < SUPERCRUISE_DIST_LS[1] {
        spec_interp(x, SUPERCRUISE_DIST_LS[0] as int, SUPERCRUISE_TIME_MS[0] as int, SUPERCRUISE_DIST_LS[1] as int, SUPERCRUISE_TIME_MS[1] as int)
    } else if x < SUPERCRUISE_DIST_LS[2] {
        spec_interp(x, SUPERCRUISE_DIST_LS[1] as int, SUPERCRUISE_TIME_MS[1] as int, SUPERCRUISE_DIST_LS[2] as int, SUPERCRUISE_TIME_MS[2] as int)
    } else if x < SUPERCRUISE_DIST_LS[3] {
        spec_interp(x, SUPERCRUISE_DIST_LS[2] as int, SUPERCRUISE_TIME_MS[2] as int, SUPERCRUISE_DIST_LS[3] as int, SUPERCRUISE_TIME_MS[3] as int)
    } else if x < SUPERCRUISE_DIST_LS[4] {
        spec_interp(x, SUPERCRUISE_DIST_LS[3] as int, SUPERCRUISE_TIME_MS[3] as int, SUPERCRUISE_DIST_LS[4] as int, SUPERCRUISE_TIME_MS[4] as int)
    } else if x < SUPERCRUISE_DIST_LS[5] {
        spec_interp(x, SUPERCRUISE_DIST_LS[4] as int, SUPERCRUISE_TIME_MS[4] as int, SUPERCRUISE_DIST_LS[5] as int, SUPERCRUISE_TIME_MS[5] as int)
    } else if x < SUPERCRUISE_DIST_LS[6] {
        spec_interp(x, SUPERCRUISE_DIST_LS[5] as int, SUPERCRUISE_TIME_MS[5] as int, SUPERCRUISE_DIST_LS[6] as int, SUPERCRUISE_TIME_MS[6] as int)
    } else {
        SUPERCRUISE_TIME_MS[6] as int
    }
}

/// The table step for a jump range given in milli-light-years, clamped to
/// the table and floored at one micro-light-year so it can divide.
pub open spec fn spec_jump_step_micro(jump_range_milli: u32) -> int {
    let idx = if jump_range_milli / 250 < 200 {
        jump_range_milli / 250
    } else {
        199
    };
    let raw = ADJUSTED_JUMP_RANGE_MICRO_LY[idx as int];
    if raw == 0 {
        1
    } else {
        raw as int
    }
}

/// Expected jumps to cover `dist` milli-light-years, in thousandths of a
/// jump: none for zero distance, one when the range covers it, else the
/// distance over the mean progress per jump.
pub open spec fn spec_jump_count_milli(dist: int, jump_range_milli: u32) -> int {
    if dist == 0 {
        0
    } else if dist < jump_range_milli {
        1000
    } else {
        dist * 1_000_000 / spec_jump_step_micro(jump_range_milli)
    }
}

/// Hyperspace time for `dist` milli-light-years.
pub open spec fn spec_jump_time_ms(dist: int, jump_range_milli: u32) -> int {
    JUMP_TIME_MS * spec_jump_count_milli(dist, jump_range_milli) / 1000
}

/// Time from docked at the origin to arrival in the destination system:
/// buying, undocking, then jumping.
pub open spec fn spec_time_to_system_ms(dist: int, jump_range_milli: u32) -> int {
    BUY_TIME_MS + UNDOCK_TIME_MS + spec_jump_time_ms(dist, jump_range_milli)
}

/// Time from arrival in-system to having sold: supercruise to the station,
/// docking and selling, scaled by the player's empirical correction factor
/// (in thousandths).
pub open spec fn spec_time_to_station_ms(station_dist_ls: int, factor_milli: u32) -> int {
    factor_milli * (SELL_TIME_MS + DOCK_TIME_MS + spec_supercruise_ms(station_dist_ls)) / 1000
}

/// The travel-time estimate for one leg: distances, the expected number of
/// jumps (in thousandths), and the times they take.
#[derive(Clone, Copy, Debug)]
pub struct TimeEstimate {
    /// Distance between the two systems, milli-light-years.
    pub distance_to_system: u64,
    /// Distance from the destination star to the station, light-seconds;
    /// zero when unknown.
    pub distance_to_station: u32,
    /// Expected jumps, in thousandths of a jump.
    pub jump_count_milli: u64,
    pub time_to_station: u64,
    pub time_to_system: u64,
    pub time_total: u64,
}

impl TimeEstimate {
    /// The fields a leg estimate owes to the quantities it was built from.
    pub open spec fn consistent_with(&self, dist: int, station_ls: int, jump_range_milli: u32, factor_milli: u32) -> bool {
        &&& self.distance_to_system == dist
        &&& self.distance_to_station == station_ls
        &&& self.jump_count_milli == spec_jump_count_milli(dist, jump_range_milli)
        &&& self.time_to_system == spec_time_to_system_ms(dist, jump_range_milli)
        &&& self.time_to_station == spec_time_to_station_ms(station_ls, factor_milli)
        &&& self.time_total == self.time_to_system + self.time_to_station
    }
}

/// Distances between systems inside the bounding volume stay below this.
pub const MAX_SYSTEM_DISTANCE_MILLI_LY: u64 = 10_000_000;

impl TimeEstimate {
    /// The table step for the given jump range.
    fn jump_step_micro(jump_range_milli: u32) -> (r: u64)
        ensures
            r == spec_jump_step_micro(jump_range_milli),
            r >= 1,
    {
        let idx_raw = jump_range_milli / 250;
        let idx: usize = if idx_raw < 200 {
            idx_raw as usize
        } else {
            199
        };
        let raw = ADJUSTED_JUMP_RANGE_MICRO_LY[idx];
        if raw == 0 {
            1
        } else {
            raw as u64
        }
    }

    /// Expected jumps in thousandths of a jump. A jump range beyond the
    /// table's reach uses its last step, so every range yields an answer.
    pub fn jump_count(system_distance: u64, jump_range_milli: u32) -> (r: u64)
        requires
            system_distance <= MAX_SYSTEM_DISTANCE_MILLI_LY,
        ensures
            r == spec_jump_count_milli(system_distance as int, jump_range_milli),
            r <= 10_000_000_000_000,
    {
        if system_distance == 0 {
            return 0;
        }
        if system_distance < jump_range_milli as u64 {
            return 1000;
        }
        let step = Self::jump_step_micro(jump_range_milli);
        system_distance * 1_000_000 / step
    }

    /// Hyperspace time in milliseconds.
    pub fn jump_time(system_distance: u64, jump_range_milli: u32) -> (r: u64)
        requires
            system_distance <= MAX_SYSTEM_DISTANCE_MILLI_LY,
        ensures
            r == spec_jump_time_ms(system_distance as int, jump_range_milli),
            r <= 431_650_000_000_000,
    {
        let count = Self::jump_count(system_distance, jump_range_milli);
        proof {
            assert(count <= 10_000_000_000_000) by {
                if system_distance != 0 && system_distance >= jump_range_milli as u64 {
                    vstd::arithmetic::div_mod::lemma_div_is_ordered(
                        system_distance as int * 1_000_000,
                        10_000_000int * 1_000_000,
                        spec_jump_step_micro(jump_range_milli),
                    );
                    vstd::arithmetic::div_mod::lemma_div_nonincreasing(
                        10_000_000int * 1_000_000,
                        spec_jump_step_micro(jump_range_milli),
                    );
                }
            }
        }
        proof {
            vstd::arithmetic::div_mod::lemma_div_is_ordered(
                (JUMP_TIME_MS * count) as int,
                431_650_000_000_000_000int,
                1000,
            );
        }
        JUMP_TIME_MS * count / 1000
    }

    /// Supercruise time in milliseconds; zero distance means unknown and
    /// yields the moderate default.
    /// Linear interpolation between two curve points.
    fn interp(x: u64, x0: u64, t0: u64, x1: u64, t1: u64) -> (r: u64)
        requires
            x0 <= x < x1,
            t0 <= t1,
            t1 <= 400_000,
            x1 <= 1_000_000,
        ensures
            r == spec_interp(x as int, x0 as int, t0 as int, x1 as int, t1 as int),
            r <= t1,
    {
        assert((x - x0) * (t1 - t0) <= 1_000_000u64 * 400_000) by (nonlinear_arith)
            requires
                x0 <= x,
                t0 <= t1,
                x - x0 <= 1_000_000u64,
                t1 - t0 <= 400_000u64,
        ;
        assert((x - x0) * (t1 - t0) / (x1 - x0) <= t1 - t0) by (nonlinear_arith)
            requires
                x0 <= x < x1,
                t0 <= t1,
        ;
        t0 + (x - x0) * (t1 - t0) / (x1 - x0)
    }

    pub fn supercruise_time(station_distance_ls: u32) -> (r: u64)
        ensures
            r == spec_supercruise_ms(station_distance_ls as int),
            r <= 340_000,
    {
        proof {
            assert(SUPERCRUISE_DIST_LS[0] == 1);
            assert(SUPERCRUISE_DIST_LS[1] == 10);
            assert(SUPERCRUISE_DIST_LS[2] == 100);
            assert(SUPERCRUISE_DIST_LS[3] == 1_000);
            assert(SUPERCRUISE_DIST_LS[4] == 10_000);
            assert(SUPERCRUISE_DIST_LS[5] == 100_000);
            assert(SUPERCRUISE_DIST_LS[6] == 1_000_000);
            assert(SUPERCRUISE_TIME_MS[0] == 0);
            assert(SUPERCRUISE_TIME_MS[1] == 46_582);
            assert(SUPERCRUISE_TIME_MS[2] == 98_097);
            assert(SUPERCRUISE_TIME_MS[3] == 152_501);
            assert(SUPERCRUISE_TIME_MS[4] == 209_674);
            assert(SUPERCRUISE_TIME_MS[5] == 269_450);
            assert(SUPERCRUISE_TIME_MS[6] == 331_611);
        }
        let x = station_distance_ls as u64;
        if station_distance_ls == 0 {
            DEFAULT_SUPERCRUISE_MS
        } else if x <= 1 {
            0
        } else if x < 10 {
            Self::interp(x, 1, 0, 10, 46_582)
        } else if x < 100 {
            Self::interp(x, 10, 46_582, 100, 98_097)
        } else if x < 1_000 {
            Self::interp(x, 100, 98_097, 1_000, 152_501)
        } else if x < 10_000 {
            Self::interp(x, 1_000, 152_501, 10_000, 209_674)
        } else if x < 100_000 {
            Self::interp(x, 10_000, 209_674, 100_000, 269_450)
        } else if x < 1_000_000 {
            Self::interp(x, 100_000, 269_450, 1_000_000, 331_611)
        } else {
            331_611
        }
    }

    /// Uncorrected system-to-system time.
    pub fn raw_time_to_system(distance_to_system: u64, jump_range_milli: u32) -> (r: u64)
        requires
            distance_to_system <= MAX_SYSTEM_DISTANCE_MILLI_LY,
        ensures
            r == spec_time_to_system_ms(distance_to_system as int, jump_range_milli),
            r <= 432_000_000_000_000,
    {
        Self::adjusted_time_to_system(distance_to_system, jump_range_milli, FACTOR_UNIT_MILLI)
    }

    /// System-to-system time; the correction factor does not apply to jump
    /// travel, whose estimates have proven solid, so it is ignored here.
    pub fn adjusted_time_to_system(distance_to_system: u64, jump_range_milli: u32, _adjustment_factor_milli: u32) -> (r: u64)
        requires
            distance_to_system <= MAX_SYSTEM_DISTANCE_MILLI_LY,
        ensures
            r == spec_time_to_system_ms(distance_to_system as int, jump_range_milli),
            r <= 432_000_000_000_000,
    {
        BUY_TIME_MS + UNDOCK_TIME_MS + Self::jump_time(distance_to_system, jump_range_milli)
    }

    /// Uncorrected star-to-dock time.
    pub fn raw_time_to_station(distance_to_station_ls: u32) -> (r: u64)
        ensures
            r == spec_time_to_station_ms(distance_to_station_ls as int, FACTOR_UNIT_MILLI),
            r <= 2_000_000_000_000,
    {
        Self::adjusted_time_to_station(distance_to_station_ls, FACTOR_UNIT_MILLI)
    }

    /// Star-to-dock time scaled by the player's correction factor.
    pub fn adjusted_time_to_station(distance_to_station_ls: u32, adjustment_factor_milli: u32) -> (r: u64)
        ensures
            r == spec_time_to_station_ms(distance_to_station_ls as int, adjustment_factor_milli),
            r <= 2_000_000_000_000,
    {
        let base = SELL_TIME_MS + DOCK_TIME_MS + Self::supercruise_time(distance_to_station_ls);
        assert((adjustment_factor_milli as u64) * base <= 0xffff_ffffu64 * 421_335)
            by (nonlinear_arith)
            requires
                base <= 421_335,
                adjustment_factor_milli <= 0xffff_ffffu32,
        ;
        proof {
            vstd::arithmetic::div_mod::lemma_div_is_ordered(
                ((adjustment_factor_milli as u64) * base) as int,
                0xffff_ffffu64 * 421_335,
                1000,
            );
        }
        (adjustment_factor_milli as u64) * base / 1000
    }
}

/// The star-to-station distance a leg estimate uses: the recorded one, or
/// zero when none is recorded, which the supercruise curve reads as
/// unknown.
pub open spec fn spec_station_ls(station: &Station) -> int {
    match station.distance_to_star {
        Some(d) => d as int,
        None => 0,
    }
}

impl TimeEstimate {
    /// Assemble a leg estimate from its raw quantities.
    fn build(
        distance_to_system: u64,
        distance_to_station: u32,
        jump_range_milli: u32,
        factor_milli: u32,
    ) -> (r: TimeEstimate)
        requires
            distance_to_system <= MAX_SYSTEM_DISTANCE_MILLI_LY,
        ensures
            r.consistent_with(
                distance_to_system as int,
                distance_to_station as int,
                jump_range_milli,
                factor_milli,
            ),
    {
        let jump_count_milli = Self::jump_count(distance_to_system, jump_range_milli);
        let time_to_system = Self::adjusted_time_to_system(
            distance_to_system,
            jump_range_milli,
            factor_milli,
        );
        let time_to_station = Self::adjusted_time_to_station(distance_to_station, factor_milli);
        TimeEstimate {
            distance_to_system,
            distance_to_station,
            jump_count_milli,
            time_to_station,
            time_to_system,
            time_total: time_to_system + time_to_station,
        }
    }

    /// The uncorrected estimate for the leg from buying at a station in
    /// `buy_system` to having sold at `sell_station` in `sell_system`.
    pub fn new_normalized_estimate(
        state: &PlayerState,
        buy_system: &System,
        sell_system: &System,
        sell_station: &Station,
    ) -> (r: TimeEstimate)
        requires
            buy_system.in_volume(),
            sell_system.in_volume(),
        ensures
            r.consistent_with(
                crate::spec_isqrt(
                    crate::trader::spec_dist2(
                        buy_system.x as int,
                        buy_system.y as int,
                        buy_system.z as int,
                        sell_system.x as int,
                        sell_system.y as int,
                        sell_system.z as int,
                    ),
                ),
                spec_station_ls(sell_station),
                state.jump_range,
                FACTOR_UNIT_MILLI,
            ),
    {
        let distance_to_system = buy_system.distance(sell_system);
        let distance_to_station = match sell_station.distance_to_star {
            Some(d) => d,
            None => 0,
        };
        Self::build(distance_to_system, distance_to_station, state.jump_range, FACTOR_UNIT_MILLI)
    }

    /// The estimate for the same leg, scaled by the player's running
    /// empirical correction factor.
    pub fn new_adjusted_estimate(
        state: &PlayerState,
        buy_system: &System,
        sell_system: &System,
        sell_station: &Station,
    ) -> (r: TimeEstimate)
        requires
            buy_system.in_volume(),
            sell_system.in_volume(),
        ensures
            r.consistent_with(
                crate::spec_isqrt(
                    crate::trader::spec_dist2(
                        buy_system.x as int,
                        buy_system.y as int,
                        buy_system.z as int,
                        sell_system.x as int,
                        sell_system.y as int,
                        sell_system.z as int,
                    ),
                ),
                spec_station_ls(sell_station),
                state.jump_range,
                state.raw_adjustment_factor,
            ),
    {
        let distance_to_system = buy_system.distance(sell_system);
        let distance_to_station = match sell_station.distance_to_star {
            Some(d) => d,
            None => 0,
        };
        Self::build(
            distance_to_system,
            distance_to_station,
            state.jump_range,
            state.raw_adjustment_factor,
        )
    }

    /// Rebase this estimate on the leg's measured duration: travel to the
    /// system is kept as estimated, and whatever remains of the measured
    /// time is attributed to reaching the station.
    pub fn to_aboslute(&self, actual_ms: u64) -> (r: TimeEstimate)
        ensures
            r.distance_to_system == self.distance_to_system,
            r.distance_to_station == self.distance_to_station,
            r.jump_count_milli == self.jump_count_milli,
            r.time_to_system == self.time_to_system,
            r.time_to_station == (if actual_ms >= self.time_to_system {
                actual_ms - self.time_to_system
            } else {
                0
            }),
            r.time_total == actual_ms,
    {
        TimeEstimate {
            distance_to_system: self.distance_to_system,
            distance_to_station: self.distance_to_station,
            jump_count_milli: self.jump_count_milli,
            time_to_system: self.time_to_system,
            time_to_station: if actual_ms >= self.time_to_system {
                actual_ms - self.time_to_system
            } else {
                0
            },
            time_total: actual_ms,
        }
    }
}

} // verus!
