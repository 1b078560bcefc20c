//! Verified core of a race-timing query tool.
//!
//! A batch of loosely-typed rider records is decoded into typed [`rider::Rider`]
//! entities: an `HH:MM:SS` string becomes a total-second duration
//! ([`duration`]), and a free-text route descriptor becomes a course, two
//! sub-event flags and a gender ([`route`]). The decoded batch is owned by a
//! [`catalog::Bikemonkey`], which answers filter-and-rank queries and
//! case-insensitive name lookups.

pub mod catalog;
pub mod duration;
pub mod errors;
pub mod query;
pub mod ranking;
pub mod rider;
pub mod route;
pub mod text;
