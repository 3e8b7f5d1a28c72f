//! A trade-route search engine for a simulated space economy: a galaxy of
//! star systems holding trading stations, each listing commodities with
//! prices and stock. Given the player's situation, the engine finds the
//! buy-and-sell hops that earn the most per minute over a bounded
//! look-ahead, through spatial range queries, a per-hop economics and
//! travel-time model, a bounded top-K selector, a memoizing cache with
//! targeted invalidation, cycle-aware route valuation, and a recursive,
//! depth- and width-bounded search driver.
//!
//! All quantities are whole numbers: credits in credit units, distances
//! between systems in milli-light-years, star-to-station distances in
//! light-seconds, times in milliseconds, rates in thousandths of a credit
//! per minute.

use vstd::prelude::*;

verus! {

/// The integer square root: the greatest `r` with `r * r <= x`.
pub open spec fn spec_isqrt(x: int) -> int {
    choose|r: int| 0 <= r && #[trigger] (r * r) <= x < (r + 1) * (r + 1)
}

/// No two integers can both be the rounded-down square root of `x`.
pub proof fn lemma_isqrt_unique(x: int, r1: int, r2: int)
    requires
        0 <= r1,
        r1 * r1 <= x < (r1 + 1) * (r1 + 1),
        0 <= r2,
        r2 * r2 <= x < (r2 + 1) * (r2 + 1),
    ensures
        r1 == r2,
{
    assert(r1 == r2) by (nonlinear_arith)
        requires
            0 <= r1,
            r1 * r1 <= x < (r1 + 1) * (r1 + 1),
            0 <= r2,
            r2 * r2 <= x < (r2 + 1) * (r2 + 1),
    ;
}

/// Greatest `r` with `r * r <= x`: integer square root, used to turn
/// squared distances back into linear ones.
pub fn isqrt_u64(x: u64) -> (r: u64)
    ensures
        r * r <= x,
        (r + 1) * (r + 1) > x,
        r == spec_isqrt(x as int),
{
    let mut lo: u64 = 0;
    let mut hi: u64 = 4294967296;
    while lo + 1 < hi
        invariant
            lo < hi,
            hi <= 4294967296,
            lo * lo <= x,
            (hi as u128) * (hi as u128) > x as u128,
        decreases hi - lo,
    {
        let mid: u64 = lo + (hi - lo) / 2;
        assert((mid as u128) * (mid as u128) <= 0x1_0000_0000_0000_0000u128) by (nonlinear_arith)
            requires
                mid <= 0x1_0000_0000u64,
        ;
        if (mid as u128) * (mid as u128) <= x as u128 {
            lo = mid;
        } else {
            hi = mid;
        }
    }
    proof {
        assert(exists|q: int| 0 <= q && #[trigger] (q * q) <= (x as int) < (q + 1) * (q + 1)) by {
            assert(0 <= (lo as int) && (lo as int) * (lo as int) <= (x as int) < ((lo as int) + 1) * ((lo as int) + 1));
        }
        let q = choose|q: int| 0 <= q && #[trigger] (q * q) <= (x as int) < (q + 1) * (q + 1);
        lemma_isqrt_unique(x as int, lo as int, q);
    }
    lo
}

} // verus!

// The data model and its indexes.
pub mod trader;
pub mod universe;
pub mod universe_index;

// Generic containers.
pub mod map_list;
pub mod scored_buf;

// The economics and travel-time model of one hop.
pub mod full_trade;
pub mod player_state;
pub mod time_estimate;
pub mod unit_trade;

// The search driver and its memoization.
pub mod options;
pub mod search;
pub mod search_cache;
pub mod search_cycle;
pub mod search_quality;

// Corrections fed back by the player.
pub mod price_adjustment;
pub mod time_adjustment;
pub mod update;

// Ingestion records of the economy archive.
pub mod eddb;

// Calls that leave the verified world.
mod clock;
mod pick;
pub mod text;
