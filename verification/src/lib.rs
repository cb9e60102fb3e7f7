//! Verified core of a real-estate listings collector.
//!
//! The library builds the query URLs for a map-based listings-count API,
//! extracts counts from the JSON responses, parses a historical USD/IRR
//! exchange-rate feed, and produces the SQL statements that persist both
//! series.  The surrounding binary performs the HTTP and database I/O and
//! calls into these functions for every decision and every piece of text.

use vstd::prelude::*;

pub mod numbers;
pub mod jsonval;
pub mod query;
pub mod rates;
pub mod sqltext;
pub mod store;
pub mod urlenc;

verus! {

/// The view of an optional string: what it shows, if anything.
pub open spec fn opt_str_view(o: Option<String>) -> Option<Seq<char>> {
    match o {
        None => None,
        Some(s) => Some(s@),
    }
}

/// Why one record of the exchange-rate feed cannot be used.  Any such
/// record aborts the whole batch.
#[derive(Clone, Copy, Debug, PartialEq, Eq, Structural)]
pub enum RateError {
    /// The record has no date field, or the field is not a string.
    DateMissing,
    /// The date field does not reduce to an integer.
    DateInvalid,
    /// The record has no price field, or the field is not a string.
    PriceMissing,
    /// The price field does not reduce to an integer.
    PriceInvalid,
}

impl RateError {
    /// A human-readable description, mirroring the messages the collector logs.
    pub fn message(&self) -> (r: &'static str)
        ensures
            r@ == self.message_spec(),
    {
        match self {
            RateError::DateMissing => "Missing or invalid date",
            RateError::DateInvalid => "Failed to parse date",
            RateError::PriceMissing => "Missing or invalid dollar_price",
            RateError::PriceInvalid => "Failed to parse dollar price",
        }
    }

    pub open spec fn message_spec(self) -> Seq<char> {
        match self {
            RateError::DateMissing => "Missing or invalid date"@,
            RateError::DateInvalid => "Failed to parse date"@,
            RateError::PriceMissing => "Missing or invalid dollar_price"@,
            RateError::PriceInvalid => "Failed to parse dollar price"@,
        }
    }
}

} // verus!
