use vstd::prelude::*;

verus! {

use crate::clock::now_unix_seconds;
use crate::trader::Listing;

/// A user-entered price correction for one market line, stamped with the
/// moment it was recorded; fields left `None` keep the line's value.
#[derive(Clone, Debug)]
pub struct PriceAdjustment {
    pub buy_price: Option<u32>,
    pub sell_price: Option<u32>,
    pub supply: Option<u32>,
    pub system_id: u32,
    pub station_id: u32,
    pub commodity_id: u16,
    pub timestamp: u64,
}

impl PriceAdjustment {
    /// A correction of every field of the line, stamped now.
    pub fn new(supply: u32, buy_price: u32, sell_price: u32, listing: &Listing) -> (r:
        PriceAdjustment)
        ensures
            r.buy_price == Some(buy_price),
            r.sell_price == Some(sell_price),
            r.supply == Some(supply),
            r.system_id == listing.system_id,
            r.station_id == listing.station_id,
            r.commodity_id == listing.commodity.commodity_id,
    {
        PriceAdjustment {
            buy_price: Some(buy_price),
            sell_price: Some(sell_price),
            supply: Some(supply),
            system_id: listing.system_id,
            station_id: listing.station_id,
            commodity_id: listing.commodity.commodity_id,
            timestamp: now_unix_seconds(),
        }
    }

    /// A correction of the sale price alone, stamped now.
    pub fn from_sell(sell_price: u32, listing: &Listing) -> (r: PriceAdjustment)
        ensures
            r.buy_price is None,
            r.supply is None,
            r.sell_price == Some(sell_price),
            r.system_id == listing.system_id,
            r.station_id == listing.station_id,
            r.commodity_id == listing.commodity.commodity_id,
    {
        PriceAdjustment {
            buy_price: None,
            supply: None,
            sell_price: Some(sell_price),
            system_id: listing.system_id,
            station_id: listing.station_id,
            commodity_id: listing.commodity.commodity_id,
            timestamp: now_unix_seconds(),
        }
    }

    /// A correction of the purchase price and stock, stamped now.
    pub fn from_buy(buy_price: u32, supply: u32, listing: &Listing) -> (r: PriceAdjustment)
        ensures
            r.buy_price == Some(buy_price),
            r.supply == Some(supply),
            r.sell_price is None,
            r.system_id == listing.system_id,
            r.station_id == listing.station_id,
            r.commodity_id == listing.commodity.commodity_id,
    {
        PriceAdjustment {
            buy_price: Some(buy_price),
            supply: Some(supply),
            sell_price: None,
            system_id: listing.system_id,
            station_id: listing.station_id,
            commodity_id: listing.commodity.commodity_id,
            timestamp: now_unix_seconds(),
        }
    }
}

} // verus!
