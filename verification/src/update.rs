use vstd::prelude::*;

verus! {

use crate::trader::Listing;

/// A pending correction of one market line, as the interactive loop
/// collects it; fields left `None` keep the line's value.
#[derive(Clone, Debug)]
pub struct PriceUpdate {
    pub buy_price: Option<u32>,
    pub sell_price: Option<u32>,
    pub supply: Option<u32>,
    pub system_id: u32,
    pub station_id: u32,
    pub commodity_id: u16,
}

impl PriceUpdate {
    /// A correction of every field of the line.
    pub fn new(supply: u32, buy_price: u32, sell_price: u32, listing: &Listing) -> (r: PriceUpdate)
        ensures
            r == (PriceUpdate {
                buy_price: Some(buy_price),
                sell_price: Some(sell_price),
                supply: Some(supply),
                system_id: listing.system_id,
                station_id: listing.station_id,
                commodity_id: listing.commodity.commodity_id,
            }),
    {
        PriceUpdate {
            buy_price: Some(buy_price),
            sell_price: Some(sell_price),
            supply: Some(supply),
            system_id: listing.system_id,
            station_id: listing.station_id,
            commodity_id: listing.commodity.commodity_id,
        }
    }

    /// A correction of the sale price alone.
    pub fn new_sell_update(sell_price: u32, listing: &Listing) -> (r: PriceUpdate)
        ensures
            r == (PriceUpdate {
                buy_price: None,
                supply: None,
                sell_price: Some(sell_price),
                system_id: listing.system_id,
                station_id: listing.station_id,
                commodity_id: listing.commodity.commodity_id,
            }),
    {
        PriceUpdate {
            buy_price: None,
            supply: None,
            sell_price: Some(sell_price),
            system_id: listing.system_id,
            station_id: listing.station_id,
            commodity_id: listing.commodity.commodity_id,
        }
    }

    /// A correction of the purchase price and the stock.
    pub fn new_buy_update(buy_price: u32, supply: u32, listing: &Listing) -> (r: PriceUpdate)
        ensures
            r == (PriceUpdate {
                supply: Some(supply),
                buy_price: Some(buy_price),
                sell_price: None,
                system_id: listing.system_id,
                station_id: listing.station_id,
                commodity_id: listing.commodity.commodity_id,
            }),
    {
        PriceUpdate {
            supply: Some(supply),
            buy_price: Some(buy_price),
            sell_price: None,
            system_id: listing.system_id,
            station_id: listing.station_id,
            commodity_id: listing.commodity.commodity_id,
        }
    }
}

} // verus!
