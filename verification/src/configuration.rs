//! The settings of a run: where the two logs are, whether each starts with a
//! header line, and which columns hold the prices.

use crate::data::{QuoteInfo, TradeInfo};
use vstd::prelude::*;

verus! {

/// The settings of a run.
pub struct Config {
    pub quote_file_path: String,
    pub trade_file_path: String,
    pub quote_file_has_header: bool,
    pub trade_file_has_header: bool,
    pub trade_price_offset: usize,
    pub quote_ask_offset: usize,
    pub quote_bid_offset: usize,
}

impl Config {
    /// The columns of a quote line that the settings name.
    pub fn quote_info(&self) -> (info: QuoteInfo)
        ensures
            info.ask_offset == self.quote_ask_offset,
            info.bid_offset == self.quote_bid_offset,
    {
        QuoteInfo { ask_offset: self.quote_ask_offset, bid_offset: self.quote_bid_offset }
    }

    /// The column of a trade line that the settings name.
    pub fn trade_info(&self) -> (info: TradeInfo)
        ensures
            info.price_offset == self.trade_price_offset,
    {
        TradeInfo { price_offset: self.trade_price_offset }
    }
}

} // verus!
