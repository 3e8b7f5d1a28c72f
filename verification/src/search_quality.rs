use vstd::prelude::*;

verus! {

use crate::text::{lower_of, lowercase, str_eq};

/// How thorough a search is: how many candidates each node keeps (the hop
/// width) and how far within one hop the search looks for markets.
#[derive(Clone, Copy, Debug, PartialEq, Eq, Structural)]
pub enum SearchQuality {
    Medium,
    High,
    Ultra,
}

impl SearchQuality {
    /// The candidates retained per search node.
    pub open spec fn spec_hop_width(&self) -> usize {
        match *self {
            SearchQuality::Ultra => 7,
            SearchQuality::High => 6,
            SearchQuality::Medium => 5,
        }
    }

    /// How many candidates each search node keeps. Wider searches stay
    /// shallow and miss distant trades; narrower ones converge onto local
    /// maxima.
    pub fn get_hop_width(&self) -> (r: usize)
        ensures
            r == self.spec_hop_width(),
    {
        match *self {
            SearchQuality::Ultra => 7,
            SearchQuality::High => 6,
            SearchQuality::Medium => 5,
        }
    }

    /// The number of hops planned ahead.
    pub open spec fn spec_depth(&self) -> usize {
        9
    }

    /// How many hops the search plans ahead.
    pub fn get_depth(&self) -> (r: usize)
        ensures
            r == self.spec_depth(),
    {
        9
    }

    /// The reach of one hop's market gathering, milli-light-years.
    pub open spec fn spec_trade_range(&self) -> u32 {
        70_000
    }

    /// How far away, in milli-light-years, markets are gathered for one hop.
    pub fn get_trade_range(&self) -> (r: u32)
        ensures
            r == self.spec_trade_range(),
    {
        70_000
    }

    /// Parse a quality from its name or first letter.
    pub fn parse(s: &str) -> (r: Result<SearchQuality, ()>)
        ensures
            r == ({
                let l = lower_of(s@);
                if l == "m"@ || l == "med"@ || l == "medium"@ {
                    Ok::<SearchQuality, ()>(SearchQuality::Medium)
                } else if l == "h"@ || l == "high"@ {
                    Ok::<SearchQuality, ()>(SearchQuality::High)
                } else if l == "u"@ || l == "ultra"@ {
                    Ok::<SearchQuality, ()>(SearchQuality::Ultra)
                } else {
                    Err::<SearchQuality, ()>(())
                }
            }),
    {
        let l = lowercase(s);
        if str_eq(&l, &"m".to_owned()) || str_eq(&l, &"med".to_owned()) || str_eq(
            &l,
            &"medium".to_owned(),
        ) {
            Ok(SearchQuality::Medium)
        } else if str_eq(&l, &"h".to_owned()) || str_eq(&l, &"high".to_owned()) {
            Ok(SearchQuality::High)
        } else if str_eq(&l, &"u".to_owned()) || str_eq(&l, &"ultra".to_owned()) {
            Ok(SearchQuality::Ultra)
        } else {
            Err(())
        }
    }
}

} // verus!
