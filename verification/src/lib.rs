//! Soccer offer domain: offer types, outcomes, handicaps, offer validation,
//! the outcome queries that decide which simulated match states an outcome
//! covers, and the bookkeeping around them.

pub mod cache;
pub mod cf;
pub mod data;
pub mod domain;
pub mod fit;
pub mod interval;
pub mod laws;
pub mod lookup;
pub mod model;
pub mod query;
pub mod text;
pub mod validation;

pub use lookup::{HashLookup, Keyed};
pub use domain::{
    DrawHandicap, OfferCategory, OfferType, Outcome, Over, Period, Player, Score, Side, Under,
    WinHandicap,
};
