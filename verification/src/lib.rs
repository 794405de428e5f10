//! Coordination core of a scheduled ingestion service: a job scheduler, the
//! retry policy of a throttled network client, the fan-in of dependent
//! fetches into record sets, and the matcher that picks a rating for a title.
//!
//! Everything here works on plain values. Network traffic, clocks and the
//! database stay with the caller, which feeds what it observed into the
//! functions of this crate and performs what they decide.

pub mod job;
