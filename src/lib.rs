//! Decoding of day-ahead electricity price publications and search for the
//! cheapest and priciest blocks of consecutive samples.

pub mod analysis;
pub mod bidding_zone;
pub mod decoder;
pub mod error;
pub mod instant;
pub mod lexical;
pub mod price;
pub mod validate;
pub mod xml;

pub use analysis::{
    find_cheapest_consecutive_hours, find_expensivest_consecutive_hours, render_cheapest,
    render_expensivest, Period, WindowSummary,
};
pub use bidding_zone::BiddingZone;
pub use decoder::{decode_events, parse_day_ahead_prices};
pub use error::{check_time_range, EntsoeError, RequiredField};
pub use price::{Decimal, PriceDocument, PricePoint, Resolution};
pub use xml::XmlEvent;
